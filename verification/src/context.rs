//! Upload contexts (isolated namespaces with their own API key and quota), the
//! in-memory cache of them, and API-key authentication.
use vstd::prelude::*;
use crate::codec::{ct_eq, hex_encode, hex_lower, sha256, sha256_digest};
use crate::text::{
    chars_of, first_piece, has_prefix, is_ws, slice_vec, starts_with, str_eq, string_from_chars,
    trim, trimmed,
};
use crate::throttle::{to_lowercase, unicode_lowercase};

verus! {

/// A context as configured by an administrator.
#[derive(Debug, Clone)]
pub struct ContextConfig {
    pub id: String,
    pub slug: String,
    pub display_name: String,
    pub api_key_hash: String,
    pub storage_prefix: String,
    pub max_upload_bytes: Option<i64>,
}

impl ContextConfig {
    /// A copy of the configuration.
    pub fn duplicate(&self) -> (r: ContextConfig)
        ensures
            r == *self,
    {
        ContextConfig {
            id: self.id.clone(),
            slug: self.slug.clone(),
            display_name: self.display_name.clone(),
            api_key_hash: self.api_key_hash.clone(),
            storage_prefix: self.storage_prefix.clone(),
            max_upload_bytes: self.max_upload_bytes,
        }
    }
}

/// The context a request to a context route was authenticated for.
#[derive(Debug, Clone)]
pub struct RequestContext(pub ContextConfig);

/// The cache key of a slug: slugs are looked up without regard to case.
pub open spec fn slug_key(slug: Seq<char>) -> Seq<char> {
    unicode_lowercase(slug)
}

/// Contexts keyed by lower-cased slug, one entry per key.
struct SlugTable {
    entries: Vec<(String, ContextConfig)>,
}

impl SlugTable {
    /// The contexts by lower-cased slug.
    spec fn view_map(&self) -> Map<Seq<char>, ContextConfig> {
        Map::new(
            |k: Seq<char>| exists|i: int| 0 <= i < self.entries@.len() && self.entries@[i].0@ == k,
            |k: Seq<char>| {
                let i = choose|i: int| 0 <= i < self.entries@.len() && self.entries@[i].0@ == k;
                self.entries@[i].1
            },
        )
    }

    /// Each key appears once, and is the lower-cased slug of its context.
    spec fn wf(&self) -> bool {
        &&& forall|i: int, j: int|
            0 <= i < j < self.entries@.len() ==> #[trigger] self.entries@[i].0@
                != #[trigger] self.entries@[j].0@
        &&& forall|i: int|
            0 <= i < self.entries@.len() ==> #[trigger] self.entries@[i].0@ == slug_key(
                self.entries@[i].1.slug@,
            )
    }

    proof fn lemma_at(&self, i: int)
        requires
            self.wf(),
            0 <= i < self.entries@.len(),
        ensures
            self.view_map().contains_key(self.entries@[i].0@),
            self.view_map()[self.entries@[i].0@] == self.entries@[i].1,
    {
        let k = self.entries@[i].0@;
        let j = choose|j: int| 0 <= j < self.entries@.len() && self.entries@[j].0@ == k;
        if j != i {
            if j < i {
                assert(self.entries@[j].0@ != self.entries@[i].0@);
            } else {
                assert(self.entries@[i].0@ != self.entries@[j].0@);
            }
        }
    }

    /// An empty cache.
    fn new() -> (c: SlugTable)
        ensures
            c.wf(),
            c.view_map() == Map::<Seq<char>, ContextConfig>::empty(),
    {
        let c = SlugTable { entries: Vec::new() };
        assert(c.view_map() =~= Map::<Seq<char>, ContextConfig>::empty());
        c
    }

    fn position(&self, key: &String) -> (r: Option<usize>)
        requires
            self.wf(),
        ensures
            match r {
                Some(i) => i < self.entries@.len() && self.entries@[i as int].0@ == key@,
                None => !self.view_map().contains_key(key@),
            },
    {
        let mut i: usize = 0;
        while i < self.entries.len()
            invariant
                i <= self.entries.len(),
                forall|j: int| 0 <= j < i ==> self.entries@[j].0@ != key@,
            decreases self.entries.len() - i,
        {
            if str_eq(self.entries[i].0.as_str(), key.as_str()) {
                return Some(i);
            }
            i += 1;
        }
        None
    }

    /// The context whose slug matches `slug` without regard to case.
    fn get(&self, slug: &str) -> (r: Option<ContextConfig>)
        requires
            self.wf(),
        ensures
            match r {
                Some(c) => self.view_map().contains_key(slug_key(slug@)) && c == self.view_map()[slug_key(
                    slug@,
                )],
                None => !self.view_map().contains_key(slug_key(slug@)),
            },
    {
        let key = to_lowercase(slug);
        match self.position(&key) {
            None => None,
            Some(i) => {
                proof {
                    self.lemma_at(i as int);
                }
                Some(self.entries[i].1.duplicate())
            },
        }
    }

    /// Adds `cfg`, replacing any context with the same slug (ignoring case).
    fn insert(&mut self, cfg: ContextConfig)
        requires
            old(self).wf(),
        ensures
            final(self).wf(),
            final(self).view_map() == old(self).view_map().insert(slug_key(cfg.slug@), cfg),
    {
        let key = to_lowercase(cfg.slug.as_str());
        let ghost k = key@;
        let ghost c = cfg;
        self.remove_key(&key);
        let ghost mid_self = *self;
        let ghost mid = self.entries@;
        self.entries.push((key, cfg));
        proof {
            assert forall|a: int, b: int| 0 <= a < b < self.entries@.len() implies #[trigger] self.entries@[a].0@ != #[trigger] self.entries@[b].0@ by {
                if b == mid.len() {
                    assert(self.entries@[a] == mid[a]);
                } else {
                    assert(self.entries@[a] == mid[a]);
                    assert(self.entries@[b] == mid[b]);
                }
            }
            self.lemma_at(mid.len() as int);
            assert(self.view_map() =~= old(self).view_map().insert(k, c)) by {
                assert forall|x: Seq<char>| #[trigger] self.view_map().contains_key(x) <==> old(self).view_map().insert(k, c).contains_key(x) by {
                    if x != k {
                        if self.view_map().contains_key(x) {
                            let i = choose|i: int| 0 <= i < self.entries@.len() && self.entries@[i].0@ == x;
                            assert(i < mid.len());
                            assert(self.entries@[i] == mid[i]);
                            mid_self.lemma_at(i);
                        }
                        if old(self).view_map().insert(k, c).contains_key(x) {
                            assert(mid_self.view_map().contains_key(x));
                            let j = choose|j: int| 0 <= j < mid.len() && mid[j].0@ == x;
                            assert(self.entries@[j] == mid[j]);
                        }
                    }
                }
                assert forall|x: Seq<char>| #[trigger] self.view_map().contains_key(x) implies self.view_map()[x] == old(self).view_map().insert(k, c)[x] by {
                    if x != k {
                        let i = choose|i: int| 0 <= i < self.entries@.len() && self.entries@[i].0@ == x;
                        assert(i < mid.len());
                        assert(self.entries@[i] == mid[i]);
                        self.lemma_at(i);
                        mid_self.lemma_at(i);
                    }
                }
            }
        }
    }

    fn remove_key(&mut self, key: &String)
        requires
            old(self).wf(),
        ensures
            final(self).wf(),
            final(self).view_map() == old(self).view_map().remove(key@),
            forall|i: int| 0 <= i < final(self).entries@.len() ==> #[trigger] final(self).entries@[i].0@ != key@,
    {
        match self.position(key) {
            None => {
                assert(self.view_map() =~= old(self).view_map().remove(key@));
                assert forall|i: int| 0 <= i < self.entries@.len() implies #[trigger] self.entries@[i].0@ != key@ by {
                    if self.entries@[i].0@ == key@ {
                        assert(self.view_map().contains_key(key@));
                    }
                }
            },
            Some(i) => {
                let ghost before = self.entries@;
                self.entries.remove(i);
                proof {
                    let idx = |a: int| if a < i { a } else { a + 1 };
                    assert forall|a: int| 0 <= a < self.entries@.len() implies #[trigger] self.entries@[a] == before[idx(a)] by {}
                    assert forall|a: int, b: int| 0 <= a < b < self.entries@.len() implies #[trigger] self.entries@[a].0@ != #[trigger] self.entries@[b].0@ by {
                        assert(self.entries@[a] == before[idx(a)]);
                        assert(self.entries@[b] == before[idx(b)]);
                    }
                    assert forall|a: int| 0 <= a < self.entries@.len() implies #[trigger] self.entries@[a].0@ != key@ by {
                        assert(self.entries@[a] == before[idx(a)]);
                        if idx(a) < i {
                            assert(before[idx(a)].0@ != before[i as int].0@);
                        } else {
                            assert(before[i as int].0@ != before[idx(a)].0@);
                        }
                    }
                    assert(self.view_map() =~= old(self).view_map().remove(key@)) by {
                        assert forall|x: Seq<char>| #[trigger] self.view_map().contains_key(x) <==> old(self).view_map().remove(key@).contains_key(x) by {
                            if self.view_map().contains_key(x) {
                                let a = choose|a: int| 0 <= a < self.entries@.len() && self.entries@[a].0@ == x;
                                assert(self.entries@[a] == before[idx(a)]);
                            }
                            if old(self).view_map().remove(key@).contains_key(x) {
                                let b = choose|b: int| 0 <= b < before.len() && before[b].0@ == x;
                                let a = if b < i { b } else { b - 1 };
                                assert(self.entries@[a] == before[idx(a)]);
                            }
                        }
                        assert forall|x: Seq<char>| #[trigger] self.view_map().contains_key(x) implies self.view_map()[x] == old(self).view_map().remove(key@)[x] by {
                            let a = choose|a: int| 0 <= a < self.entries@.len() && self.entries@[a].0@ == x;
                            self.lemma_at(a);
                            assert(self.entries@[a] == before[idx(a)]);
                            old(self).lemma_at(idx(a));
                        }
                    }
                }
            },
        }
    }

    /// Forgets the context whose slug matches `slug` without regard to case.
    fn remove(&mut self, slug: &str)
        requires
            old(self).wf(),
        ensures
            final(self).wf(),
            final(self).view_map() == old(self).view_map().remove(slug_key(slug@)),
    {
        let key = to_lowercase(slug);
        self.remove_key(&key);
    }

    /// Replaces the whole cache with `configs` (a reload from the database).
    fn load(&mut self, configs: Vec<ContextConfig>)
        requires
            old(self).wf(),
        ensures
            final(self).wf(),
            forall|k: Seq<char>| #[trigger] final(self).view_map().contains_key(k) ==> exists|i: int| 0 <= i < configs@.len() && slug_key(configs@[i].slug@) == k && final(self).view_map()[k] == configs@[i],
            forall|i: int| 0 <= i < configs@.len() ==> final(self).view_map().contains_key(slug_key(#[trigger] configs@[i].slug@)),
            forall|i: int|
                0 <= i < configs@.len() && (forall|j: int| i < j < configs@.len() ==> slug_key(#[trigger] configs@[j].slug@) != slug_key(configs@[i].slug@))
                    ==> final(self).view_map()[slug_key(#[trigger] configs@[i].slug@)] == configs@[i],
    {
        let ghost cs = configs@;
        self.entries = Vec::new();
        assert(self.view_map() =~= Map::<Seq<char>, ContextConfig>::empty());
        let mut i: usize = 0;
        while i < configs.len()
            invariant
                i <= configs.len(),
                cs == configs@,
                self.wf(),
                forall|k: Seq<char>| #[trigger] self.view_map().contains_key(k) ==> exists|j: int| 0 <= j < i && slug_key(cs[j].slug@) == k && self.view_map()[k] == cs[j],
                forall|j: int| 0 <= j < i ==> self.view_map().contains_key(slug_key(#[trigger] cs[j].slug@)),
                forall|a: int|
                    0 <= a < i && (forall|b: int| a < b < i ==> slug_key(#[trigger] cs[b].slug@) != slug_key(cs[a].slug@))
                        ==> self.view_map()[slug_key(#[trigger] cs[a].slug@)] == cs[a],
            decreases configs.len() - i,
        {
            let ghost before = self.view_map();
            let c = configs[i].duplicate();
            self.insert(c);
            proof {
                assert forall|k: Seq<char>| #[trigger] self.view_map().contains_key(k) implies exists|j: int| 0 <= j < i + 1 && slug_key(cs[j].slug@) == k && self.view_map()[k] == cs[j] by {
                    if k == slug_key(cs[i as int].slug@) {
                        assert(self.view_map()[k] == cs[i as int]);
                    } else {
                        assert(before.contains_key(k));
                        let j = choose|j: int| 0 <= j < i && slug_key(cs[j].slug@) == k && before[k] == cs[j];
                        assert(self.view_map()[k] == cs[j]);
                    }
                }
                assert forall|j: int| 0 <= j < i + 1 implies self.view_map().contains_key(slug_key(#[trigger] cs[j].slug@)) by {
                    if j < i {
                        assert(before.contains_key(slug_key(cs[j].slug@)));
                    }
                }
                assert forall|a: int|
                    0 <= a < i + 1 && (forall|b: int| a < b < i + 1 ==> slug_key(#[trigger] cs[b].slug@) != slug_key(cs[a].slug@))
                    implies self.view_map()[slug_key(#[trigger] cs[a].slug@)] == cs[a] by {
                    if a < i {
                        assert(slug_key(cs[i as int].slug@) != slug_key(cs[a].slug@));
                        assert forall|b: int| a < b < i implies slug_key(#[trigger] cs[b].slug@) != slug_key(cs[a].slug@) by {}
                    }
                }
            }
            i += 1;
        }
    }

    /// All cached contexts.
    fn all(&self) -> (r: Vec<ContextConfig>)
        requires
            self.wf(),
        ensures
            r@.len() == self.view_map().len(),
            forall|i: int| 0 <= i < r@.len() ==> self.view_map().contains_key(slug_key(#[trigger] r@[i].slug@)) && self.view_map()[slug_key(r@[i].slug@)] == r@[i],
            forall|k: Seq<char>| #[trigger] self.view_map().contains_key(k) ==> exists|i: int| 0 <= i < r@.len() && r@[i] == self.view_map()[k],
    {
        let mut out: Vec<ContextConfig> = Vec::new();
        let mut i: usize = 0;
        while i < self.entries.len()
            invariant
                i <= self.entries.len(),
                self.wf(),
                out@.len() == i,
                forall|j: int| 0 <= j < i ==> #[trigger] out@[j] == self.entries@[j].1,
            decreases self.entries.len() - i,
        {
            out.push(self.entries[i].1.duplicate());
            i += 1;
        }
        proof {
            assert forall|j: int| 0 <= j < out@.len() implies self.view_map().contains_key(slug_key(#[trigger] out@[j].slug@)) && self.view_map()[slug_key(out@[j].slug@)] == out@[j] by {
                self.lemma_at(j);
            }
            assert forall|k: Seq<char>| #[trigger] self.view_map().contains_key(k) implies exists|i: int| 0 <= i < out@.len() && out@[i] == self.view_map()[k] by {
                let j = choose|j: int| 0 <= j < self.entries@.len() && self.entries@[j].0@ == k;
                self.lemma_at(j);
                assert(out@[j] == self.view_map()[k]);
            }
            self.lemma_len();
        }
        out
    }

    proof fn lemma_len(&self)
        requires
            self.wf(),
        ensures
            self.view_map().len() == self.entries@.len(),
    {
        let keys = self.entries@.map_values(|e: (String, ContextConfig)| e.0@);
        assert(keys.no_duplicates()) by {
            assert forall|i: int, j: int| 0 <= i < keys.len() && 0 <= j < keys.len() && i != j implies keys[i] != keys[j] by {
                if i < j {
                    assert(self.entries@[i].0@ != self.entries@[j].0@);
                } else {
                    assert(self.entries@[j].0@ != self.entries@[i].0@);
                }
            }
        }
        assert forall|k: Seq<char>| #[trigger] self.view_map().dom().contains(k) <==> keys.to_set().contains(k) by {
            if self.view_map().dom().contains(k) {
                let i = choose|i: int| 0 <= i < self.entries@.len() && self.entries@[i].0@ == k;
                assert(keys[i] == k);
            }
            if keys.to_set().contains(k) {
                assert(keys.contains(k));
                let i = choose|i: int| 0 <= i < keys.len() && keys[i] == k;
                assert(self.entries@[i].0@ == k);
            }
        }
        assert(self.view_map().dom() =~= keys.to_set());
        keys.unique_seq_to_set();
    }

    /// The slug of the context with ID `id` (reverse lookup).
    fn slug_for_id(&self, id: &str) -> (r: Option<String>)
        requires
            self.wf(),
        ensures
            match r {
                Some(s) => exists|k: Seq<char>| #[trigger] self.view_map().contains_key(k) && self.view_map()[k].id@ == id@ && self.view_map()[k].slug@ == s@,
                None => forall|k: Seq<char>| #[trigger] self.view_map().contains_key(k) ==> self.view_map()[k].id@ != id@,
            },
    {
        let mut i: usize = 0;
        while i < self.entries.len()
            invariant
                i <= self.entries.len(),
                self.wf(),
                forall|j: int| 0 <= j < i ==> #[trigger] self.entries@[j].1.id@ != id@,
            decreases self.entries.len() - i,
        {
            if str_eq(self.entries[i].1.id.as_str(), id) {
                proof {
                    self.lemma_at(i as int);
                }
                return Some(self.entries[i].1.slug.clone());
            }
            i += 1;
        }
        proof {
            assert forall|k: Seq<char>| #[trigger] self.view_map().contains_key(k) implies self.view_map()[k].id@ != id@ by {
                let j = choose|j: int| 0 <= j < self.entries@.len() && self.entries@[j].0@ == k;
                self.lemma_at(j);
            }
        }
        None
    }
}

/// In-memory cache of active contexts, keyed by lower-cased slug.
pub struct ContextCache {
    table: SlugTable,
}

impl ContextCache {
    /// Each slug is cached once, under its lower-cased form.
    #[verifier::type_invariant]
    closed spec fn wf(&self) -> bool {
        self.table.wf()
    }

    /// The contexts by lower-cased slug.
    pub closed spec fn view_map(&self) -> Map<Seq<char>, ContextConfig> {
        self.table.view_map()
    }

    /// An empty cache.
    pub fn new() -> (c: ContextCache)
        ensures
            c.view_map() == Map::<Seq<char>, ContextConfig>::empty(),
    {
        ContextCache { table: SlugTable::new() }
    }

    /// The context whose slug matches `slug` without regard to case.
    pub fn get(&self, slug: &str) -> (r: Option<ContextConfig>)
        ensures
            match r {
                Some(c) => self.view_map().contains_key(slug_key(slug@)) && c == self.view_map()[slug_key(
                    slug@,
                )],
                None => !self.view_map().contains_key(slug_key(slug@)),
            },
    {
        proof {
            use_type_invariant(self);
        }
        self.table.get(slug)
    }

    /// Adds `cfg`, replacing any context with the same slug (ignoring case).
    pub fn insert(&mut self, cfg: ContextConfig)
        ensures
            final(self).view_map() == old(self).view_map().insert(slug_key(cfg.slug@), cfg),
    {
        proof {
            use_type_invariant(&*self);
        }
        let mut table = SlugTable::new();
        std::mem::swap(&mut table, &mut self.table);
        table.insert(cfg);
        self.table = table;
    }

    /// Forgets the context whose slug matches `slug` without regard to case.
    pub fn remove(&mut self, slug: &str)
        ensures
            final(self).view_map() == old(self).view_map().remove(slug_key(slug@)),
    {
        proof {
            use_type_invariant(&*self);
        }
        let mut table = SlugTable::new();
        std::mem::swap(&mut table, &mut self.table);
        table.remove(slug);
        self.table = table;
    }

    /// Replaces the whole cache with `configs` (a reload from the database).
    pub fn load(&mut self, configs: Vec<ContextConfig>)
        ensures
            forall|k: Seq<char>| #[trigger] final(self).view_map().contains_key(k) ==> exists|i: int| 0 <= i < configs@.len() && slug_key(configs@[i].slug@) == k && final(self).view_map()[k] == configs@[i],
            forall|i: int| 0 <= i < configs@.len() ==> final(self).view_map().contains_key(slug_key(#[trigger] configs@[i].slug@)),
            forall|i: int|
                0 <= i < configs@.len() && (forall|j: int| i < j < configs@.len() ==> slug_key(#[trigger] configs@[j].slug@) != slug_key(configs@[i].slug@))
                    ==> final(self).view_map()[slug_key(#[trigger] configs@[i].slug@)] == configs@[i],
    {
        proof {
            use_type_invariant(&*self);
        }
        let mut table = SlugTable::new();
        std::mem::swap(&mut table, &mut self.table);
        table.load(configs);
        self.table = table;
    }

    /// All cached contexts.
    pub fn all(&self) -> (r: Vec<ContextConfig>)
        ensures
            r@.len() == self.view_map().len(),
            forall|i: int| 0 <= i < r@.len() ==> self.view_map().contains_key(slug_key(#[trigger] r@[i].slug@)) && self.view_map()[slug_key(r@[i].slug@)] == r@[i],
            forall|k: Seq<char>| #[trigger] self.view_map().contains_key(k) ==> exists|i: int| 0 <= i < r@.len() && r@[i] == self.view_map()[k],
    {
        proof {
            use_type_invariant(self);
        }
        self.table.all()
    }

    /// The slug of the context with ID `id` (reverse lookup).
    pub fn slug_for_id(&self, id: &str) -> (r: Option<String>)
        ensures
            match r {
                Some(s) => exists|k: Seq<char>| #[trigger] self.view_map().contains_key(k) && self.view_map()[k].id@ == id@ && self.view_map()[k].slug@ == s@,
                None => forall|k: Seq<char>| #[trigger] self.view_map().contains_key(k) ==> self.view_map()[k].id@ != id@,
            },
    {
        proof {
            use_type_invariant(self);
        }
        self.table.slug_for_id(id)
    }
}

/// A context written to the cache is read back under its slug in any case:
/// once `insert(cfg)` has run, a slug that lower-cases as `cfg`'s reads `cfg`,
/// and every other slug reads as it did before.
pub proof fn lemma_cache_read_after_write(before: ContextCache, after: ContextCache, cfg: ContextConfig, slug: Seq<char>)
    requires
        after.view_map() == before.view_map().insert(slug_key(cfg.slug@), cfg),
    ensures
        slug_key(slug) == slug_key(cfg.slug@) ==> after.view_map().contains_key(slug_key(slug))
            && after.view_map()[slug_key(slug)] == cfg,
        slug_key(slug) != slug_key(cfg.slug@) ==> after.view_map().contains_key(slug_key(slug))
            == before.view_map().contains_key(slug_key(slug)),
        slug_key(slug) != slug_key(cfg.slug@) && before.view_map().contains_key(slug_key(slug))
            ==> after.view_map()[slug_key(slug)] == before.view_map()[slug_key(slug)],
{
}

/// A removed slug reads as absent in any case, and every other slug reads as
/// it did before.
pub proof fn lemma_cache_read_after_remove(before: ContextCache, after: ContextCache, removed: Seq<char>, slug: Seq<char>)
    requires
        after.view_map() == before.view_map().remove(slug_key(removed)),
    ensures
        slug_key(slug) == slug_key(removed) ==> !after.view_map().contains_key(slug_key(slug)),
        slug_key(slug) != slug_key(removed) ==> after.view_map().contains_key(slug_key(slug))
            == before.view_map().contains_key(slug_key(slug)),
        slug_key(slug) != slug_key(removed) && before.view_map().contains_key(slug_key(slug))
            ==> after.view_map()[slug_key(slug)] == before.view_map()[slug_key(slug)],
{
}

// ── API keys ─────────────────────────────────────────────────────────────────

/// The stored form of an API key: the lower-case hex SHA-256 of its UTF-8 bytes.
pub open spec fn api_key_hash_spec(key: Seq<char>) -> Seq<char> {
    hex_lower(sha256(vstd::utf8::encode_utf8(key)))
}

/// Hash an API key for storage (SHA-256 hex).
pub fn hash_api_key(key: &str) -> (r: String)
    ensures
        r@ == api_key_hash_spec(key@),
{
    let digest = sha256_digest(key.as_bytes());
    hex_encode(digest.as_slice())
}

/// A presented key matches the stored hash.
pub fn verify_api_key(provided: &str, stored_hash: &str) -> (r: bool)
    ensures
        r == (api_key_hash_spec(provided@) == stored_hash@),
{
    let h = hash_api_key(provided);
    str_eq(h.as_str(), stored_hash)
}

/// The bearer prefix of an `Authorization` header.
pub open spec fn bearer_prefix() -> Seq<char> {
    "Bearer "@
}

/// The token of `Authorization: Bearer <token>`, or `None`.
pub open spec fn bearer_spec(h: Option<Seq<char>>) -> Option<Seq<char>> {
    match h {
        Some(v) => if has_prefix(v, bearer_prefix()) {
            Some(v.subrange(7, v.len() as int))
        } else {
            None
        },
        None => None,
    }
}

/// The bearer token of an `Authorization` header (`None` when absent or not text).
pub fn bearer_token(header: Option<&str>) -> (r: Option<String>)
    ensures
        match bearer_spec(crate::text::opt_str_chars(header)) {
            Some(t) => r matches Some(s) && s@ == t,
            None => r is None,
        },
{
    let h = match header {
        None => {
            return None;
        },
        Some(h) => h,
    };
    let cs = chars_of(h);
    let p = chars_of("Bearer ");
    proof {
        reveal_strlit("Bearer ");
    }
    if !starts_with(cs.as_slice(), p.as_slice()) {
        return None;
    }
    Some(string_from_chars(slice_vec(cs.as_slice(), 7, cs.len()).as_slice()))
}

/// The global API key guards the legacy TUS endpoint (`/files...`) and the
/// metrics endpoint (`/metrics`) only.
pub open spec fn guarded_path_spec(path: Seq<char>) -> bool {
    has_prefix(path, "/files"@) || path == "/metrics"@
}

/// Whether a request path is guarded by the global API key.
pub fn is_guarded_path(path: &str) -> (r: bool)
    ensures
        r == guarded_path_spec(path@),
{
    let cs = chars_of(path);
    starts_with(cs.as_slice(), chars_of("/files").as_slice()) || str_eq(path, "/metrics")
}

/// A request authenticates with the global key when it presents a bearer token
/// whose SHA-256 equals that of the key (compared in constant time).
pub open spec fn global_key_ok_spec(expected: Seq<char>, auth: Option<Seq<char>>) -> bool {
    match bearer_spec(auth) {
        Some(t) => sha256(vstd::utf8::encode_utf8(expected)) == sha256(vstd::utf8::encode_utf8(t)),
        None => false,
    }
}

/// Checks the `Authorization` header against the global API key.
pub fn global_key_ok(expected: &str, authorization: Option<&str>) -> (r: bool)
    ensures
        r == global_key_ok_spec(expected@, crate::text::opt_str_chars(authorization)),
{
    match bearer_token(authorization) {
        None => false,
        Some(token) => {
            let e = sha256_digest(expected.as_bytes());
            let p = sha256_digest(token.as_str().as_bytes());
            ct_eq(e.as_slice(), p.as_slice())
        },
    }
}

/// The context slug of a context route `/<slug>/files[/<id>]`: the first path
/// segment after the leading slashes, when it is not empty.
pub open spec fn slug_spec(path: Seq<char>) -> Option<Seq<char>> {
    let s = first_piece(skip_slashes(path), '/');
    if s.len() > 0 {
        Some(s)
    } else {
        None
    }
}

/// `path` without its leading slashes.
pub open spec fn skip_slashes(s: Seq<char>) -> Seq<char>
    decreases s.len(),
{
    if s.len() > 0 && s[0] == '/' {
        skip_slashes(s.drop_first())
    } else {
        s
    }
}

/// Extracts the context slug of a request path.
pub fn context_slug(path: &str) -> (r: Option<String>)
    ensures
        match slug_spec(path@) {
            Some(s) => r matches Some(x) && x@ == s,
            None => r is None,
        },
{
    let cs = chars_of(path);
    let n = cs.len();
    let mut i: usize = 0;
    assert(cs@.subrange(0, n as int) =~= cs@);
    while i < n && cs[i] == '/'
        invariant
            i <= n == cs.len(),
            skip_slashes(cs@) == skip_slashes(cs@.subrange(i as int, n as int)),
        decreases n - i,
    {
        assert(cs@.subrange(i as int, n as int).drop_first() =~= cs@.subrange(i + 1, n as int));
        i += 1;
    }
    let rest = slice_vec(cs.as_slice(), i, n);
    assert(rest@ == skip_slashes(cs@));
    let end = match crate::text::find(rest.as_slice(), '/') {
        Some(j) => j,
        None => rest.len(),
    };
    let seg = slice_vec(rest.as_slice(), 0, end);
    assert(seg@ =~= first_piece(rest@, '/'));
    if seg.len() > 0 {
        Some(string_from_chars(seg.as_slice()))
    } else {
        None
    }
}

/// The bearer token of a context request, trimmed.
pub fn context_bearer(authorization: Option<&str>) -> (r: Option<String>)
    ensures
        match bearer_spec(crate::text::opt_str_chars(authorization)) {
            Some(t) => r matches Some(s) && s@ == trim(t),
            None => r is None,
        },
{
    match bearer_token(authorization) {
        None => None,
        Some(t) => Some(string_from_chars(trimmed(chars_of(t.as_str()).as_slice()).as_slice())),
    }
}

/// `Authorization: Bearer <token>` carries exactly `<token>`, and a header not
/// starting with `Bearer ` carries none.
pub proof fn lemma_bearer_token(token: Seq<char>, header: Seq<char>)
    ensures
        bearer_spec(Some("Bearer "@ + token)) == Some(token),
        !has_prefix(header, "Bearer "@) ==> bearer_spec(Some(header)) is None,
        bearer_spec(None) is None,
{
    reveal_strlit("Bearer ");
    let h = "Bearer "@ + token;
    assert(h.subrange(0, 7) =~= "Bearer "@);
    assert(h.subrange(7, h.len() as int) =~= token);
}

/// A key without whitespace around it, presented as a bearer token, opens the
/// context whose stored hash is its hash, and the global routes when it is the
/// global key; the stored hash of a key is its hash, so a key always verifies
/// against the hash made of it.
pub proof fn lemma_presented_key_accepted(key: Seq<char>, stored_hash: Seq<char>)
    requires
        key.len() == 0 || (!is_ws(key[0]) && !is_ws(key.last())),
    ensures
        bearer_spec(Some("Bearer "@ + key)) matches Some(t) && (api_key_hash_spec(trim(t)) == stored_hash
            <==> api_key_hash_spec(key) == stored_hash),
        global_key_ok_spec(key, Some("Bearer "@ + key)),
{
    lemma_bearer_token(key, key);
    if key.len() > 0 {
        assert(crate::text::trim_start(key) == key);
        assert(crate::text::trim_end(key) == key);
    }
    assert(trim(key) == key);
}

/// The global key guards exactly the TUS routes under `/files` and
/// `/metrics`: any path starting `/files` is guarded, and a path is guarded
/// only if it starts with `/files` or is `/metrics`.
pub proof fn lemma_guarded_paths(path: Seq<char>)
    ensures
        has_prefix(path, "/files"@) ==> guarded_path_spec(path),
        path == "/metrics"@ ==> guarded_path_spec(path),
        guarded_path_spec(path) ==> has_prefix(path, "/files"@) || path == "/metrics"@,
{
}

/// The slug of a context route `/<slug>/...` is its first segment.
pub proof fn lemma_context_slug(slug: Seq<char>, rest: Seq<char>)
    requires
        slug.len() > 0,
        slug[0] != '/',
        forall|i: int| 0 <= i < slug.len() ==> slug[i] != '/',
    ensures
        slug_spec(seq!['/'] + slug + seq!['/'] + rest) == Some(slug),
        slug_spec(seq!['/'] + slug) == Some(slug),
{
    let p = seq!['/'] + slug + seq!['/'] + rest;
    assert(p.drop_first() =~= slug + seq!['/'] + rest);
    assert(skip_slashes(p) == skip_slashes(p.drop_first()));
    let q = slug + seq!['/'] + rest;
    assert(q[0] == slug[0]);
    assert(skip_slashes(q) == q);
    assert(q[slug.len() as int] == '/');
    assert forall|j: int| 0 <= j < slug.len() implies q[j] != '/' by {
        assert(q[j] == slug[j]);
    }
    crate::text::lemma_find_char_at(q, '/', slug.len() as int);
    assert(q.subrange(0, slug.len() as int) =~= slug);
    let p2 = seq!['/'] + slug;
    assert(p2.drop_first() =~= slug);
    assert(skip_slashes(p2) == skip_slashes(slug));
    assert(skip_slashes(slug) == slug);
    crate::text::lemma_find_none(slug, '/');
}

/// Why a request to a context route is refused.
#[derive(Debug, Clone, Copy, PartialEq, Eq)]
pub enum ContextAuthError {
    /// 404 `context not found`: no slug, or no such context.
    NotFound,
    /// 401 `missing API key`.
    MissingKey,
    /// 401 `invalid API key`.
    InvalidKey,
}

impl ContextAuthError {
    /// The HTTP status of the refusal.
    pub fn status_code(&self) -> (code: u16)
        ensures
            code == (if *self is NotFound {
                404u16
            } else {
                401u16
            }),
    {
        match self {
            ContextAuthError::NotFound => 404,
            _ => 401,
        }
    }

    /// The body of the refusal.
    pub fn message(&self) -> (r: String)
        ensures
            r@ == (match *self {
                ContextAuthError::NotFound => "context not found"@,
                ContextAuthError::MissingKey => "missing API key"@,
                ContextAuthError::InvalidKey => "invalid API key"@,
            }),
    {
        match self {
            ContextAuthError::NotFound => "context not found".to_owned(),
            ContextAuthError::MissingKey => "missing API key".to_owned(),
            ContextAuthError::InvalidKey => "invalid API key".to_owned(),
        }
    }
}

/// A request to a context route is let through when it presents, as a bearer
/// token, the key whose hash the context stores.
pub fn check_context_key(cfg: ContextConfig, authorization: Option<&str>) -> (r: Result<RequestContext, ContextAuthError>)
    ensures
        match bearer_spec(crate::text::opt_str_chars(authorization)) {
            None => r == Err::<RequestContext, ContextAuthError>(ContextAuthError::MissingKey),
            Some(t) => if api_key_hash_spec(trim(t)) == cfg.api_key_hash@ {
                r matches Ok(rc) && rc.0 == cfg
            } else {
                r == Err::<RequestContext, ContextAuthError>(ContextAuthError::InvalidKey)
            },
        },
{
    let key = match context_bearer(authorization) {
        None => {
            return Err(ContextAuthError::MissingKey);
        },
        Some(k) => k,
    };
    if verify_api_key(key.as_str(), cfg.api_key_hash.as_str()) {
        Ok(RequestContext(cfg))
    } else {
        Err(ContextAuthError::InvalidKey)
    }
}

/// The global API key check: without a configured key everything passes;
/// with one, the guarded paths need it as a bearer token.
pub fn global_auth_allows(expected: Option<&str>, path: &str, authorization: Option<&str>) -> (r: bool)
    ensures
        r == match expected {
            None => true,
            Some(k) => !guarded_path_spec(path@) || global_key_ok_spec(
                k@,
                crate::text::opt_str_chars(authorization),
            ),
        },
{
    match expected {
        None => true,
        Some(k) => !is_guarded_path(path) || global_key_ok(k, authorization),
    }
}

/// The key a context is issued is the key its routes accept: presented as
/// `Bearer <key>`, a key without whitespace (two UUIDs) is read back whole and
/// hashes to the hash stored for it.
pub proof fn lemma_issued_key_accepted(key: Seq<char>)
    requires
        forall|i: int| 0 <= i < key.len() ==> !is_ws(#[trigger] key[i]),
    ensures
        bearer_spec(Some(bearer_prefix() + key)) == Some(key),
        api_key_hash_spec(trim(key)) == api_key_hash_spec(key),
{
    reveal_strlit("Bearer ");
    let h = bearer_prefix() + key;
    assert(h.subrange(0, 7) =~= bearer_prefix());
    assert(h.subrange(7, h.len() as int) =~= key);
    crate::text::lemma_trim_no_ws(key);
}

/// The global API key guards only the legacy TUS routes and the metrics: no
/// path of the dashboard API (`/api/...`, the health check included) needs it;
/// and the key itself, presented as `Bearer <key>`, is accepted.
pub proof fn lemma_global_key_scope(path: Seq<char>, key: Seq<char>)
    ensures
        has_prefix(path, "/api"@) ==> !guarded_path_spec(path),
        global_key_ok_spec(key, Some(bearer_prefix() + key)),
{
    reveal_strlit("/api");
    reveal_strlit("/files");
    reveal_strlit("/metrics");
    reveal_strlit("Bearer ");
    if has_prefix(path, "/api"@) {
        assert(path.subrange(0, 4) == "/api"@);
        assert(path.subrange(0, 4)[1] == 'a');
        assert(path[1] == 'a');
        if has_prefix(path, "/files"@) {
            assert(path.subrange(0, 6) == "/files"@);
            assert(path.subrange(0, 6)[1] == 'f');
        }
        if path == "/metrics"@ {
            assert(path[1] == 'm');
        }
    }
    let h = bearer_prefix() + key;
    assert(h.subrange(0, 7) =~= bearer_prefix());
    assert(h.subrange(7, h.len() as int) =~= key);
}

} // verus!
