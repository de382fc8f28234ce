//! Brute-force protection for the login endpoint: failed attempts are counted
//! per source address and per (lower-cased) username, and either counter
//! reaching the limit locks further attempts out for a while.
use vstd::prelude::*;
use std::time::Instant;
use crate::net::IpAddress;
use crate::text::str_eq;

verus! {

#[verifier::external_type_specification]
#[verifier::external_body]
pub struct ExInstant(Instant);

/// `Instant::now()`: a reading of the monotonic clock.
#[verifier::external_body]
fn instant_now() -> Instant {
    Instant::now()
}

/// `Instant::elapsed().as_nanos()`: whole nanoseconds on the monotonic clock
/// since `at`.  Nothing is promised of the value: it is the clock.
#[verifier::external_body]
fn nanos_since(at: &Instant) -> u128 {
    at.elapsed().as_nanos()
}

/// Whole seconds from `then` to `now`, two nanosecond readings of one clock:
/// zero when `now` is not later (`Instant::elapsed` saturates the same way),
/// and `u64::MAX` beyond that.
pub open spec fn secs_between(then: u128, now: u128) -> u64 {
    if now <= then {
        0
    } else if (now - then) / 1_000_000_000 > u64::MAX {
        u64::MAX
    } else {
        ((now - then) / 1_000_000_000) as u64
    }
}

/// See `secs_between`.
pub fn seconds_between(then: u128, now: u128) -> (r: u64)
    ensures
        r == secs_between(then, now),
{
    if now <= then {
        return 0;
    }
    let d = (now - then) / 1_000_000_000;
    if d > 0xFFFF_FFFF_FFFF_FFFF {
        0xFFFF_FFFF_FFFF_FFFF
    } else {
        d as u64
    }
}

/// What `str::to_lowercase` gives for `s` (Unicode lower-case mapping).
pub uninterp spec fn unicode_lowercase(s: Seq<char>) -> Seq<char>;

/// `str::to_lowercase`; the result is named by `unicode_lowercase`.
#[verifier::external_body]
pub(crate) fn to_lowercase(s: &str) -> (r: String)
    ensures
        r@ == unicode_lowercase(s@),
{
    s.to_lowercase()
}

/// Who failed to log in: a source address, or a lower-cased username.
#[derive(Debug, Clone)]
pub enum ThrottleKey {
    Ip(IpAddress),
    User(String),
}

/// A key by value.
pub enum ThrottleKeyView {
    Ip(IpAddress),
    User(Seq<char>),
}

impl View for ThrottleKey {
    type V = ThrottleKeyView;

    open spec fn view(&self) -> ThrottleKeyView {
        match *self {
            ThrottleKey::Ip(ip) => ThrottleKeyView::Ip(ip),
            ThrottleKey::User(u) => ThrottleKeyView::User(u@),
        }
    }
}

fn ip_eq(a: &IpAddress, b: &IpAddress) -> (r: bool)
    ensures
        r == (*a == *b),
{
    match (a, b) {
        (IpAddress::V4(x), IpAddress::V4(y)) => {
            let r = x[0] == y[0] && x[1] == y[1] && x[2] == y[2] && x[3] == y[3];
            assert(r ==> x =~= y);
            r
        },
        (IpAddress::V6(x), IpAddress::V6(y)) => {
            let r = x[0] == y[0] && x[1] == y[1] && x[2] == y[2] && x[3] == y[3] && x[4] == y[4]
                && x[5] == y[5] && x[6] == y[6] && x[7] == y[7];
            assert(r ==> x =~= y);
            r
        },
        _ => false,
    }
}

fn key_eq(a: &ThrottleKey, b: &ThrottleKey) -> (r: bool)
    ensures
        r == (a@ == b@),
{
    match (a, b) {
        (ThrottleKey::Ip(x), ThrottleKey::Ip(y)) => ip_eq(x, y),
        (ThrottleKey::User(x), ThrottleKey::User(y)) => str_eq(x.as_str(), y.as_str()),
        _ => false,
    }
}

/// Failed attempts of one key, and when the last one happened (nanoseconds on
/// the throttle's clock).
pub struct Entry {
    pub count: u32,
    pub last: u128,
}

/// Failed-attempt counters, one per key, holding at most a fixed number of keys.
pub struct AttemptMap {
    entries: Vec<(ThrottleKey, Entry)>,
}

/// How many of `s` had their last failure fewer than `lockout_secs` seconds
/// before `now`.
pub open spec fn live_in(s: Seq<(ThrottleKey, Entry)>, lockout_secs: u64, now: u128) -> nat
    decreases s.len(),
{
    if s.len() == 0 {
        0
    } else {
        live_in(s.drop_last(), lockout_secs, now) + if secs_between(s.last().1.last, now) < lockout_secs {
            1nat
        } else {
            0nat
        }
    }
}

proof fn lemma_live_in_len(s: Seq<(ThrottleKey, Entry)>, lockout_secs: u64, now: u128)
    ensures
        live_in(s, lockout_secs, now) <= s.len(),
    decreases s.len(),
{
    if s.len() > 0 {
        lemma_live_in_len(s.drop_last(), lockout_secs, now);
    }
}

impl AttemptMap {
    /// The counted keys, in the order they were first seen.
    pub closed spec fn keys(&self) -> Seq<ThrottleKeyView> {
        self.entries@.map_values(|e: (ThrottleKey, Entry)| e.0@)
    }

    /// The failure count of each counted key.
    pub closed spec fn counts(&self) -> Seq<u32> {
        self.entries@.map_values(|e: (ThrottleKey, Entry)| e.1.count)
    }

    /// When each counted key last failed.
    pub closed spec fn lasts(&self) -> Seq<u128> {
        self.entries@.map_values(|e: (ThrottleKey, Entry)| e.1.last)
    }

    /// No key is counted twice.
    pub closed spec fn wf(&self) -> bool {
        forall|i: int, j: int|
            0 <= i < j < self.entries@.len() ==> #[trigger] self.entries@[i].0@
                != #[trigger] self.entries@[j].0@
    }

    /// Number of counted keys.
    pub closed spec fn size(&self) -> nat {
        self.entries@.len()
    }

    /// Number of counted keys whose last failure is fewer than `lockout_secs`
    /// seconds before `now`.
    pub closed spec fn live(&self, lockout_secs: u64, now: u128) -> nat {
        live_in(self.entries@, lockout_secs, now)
    }

    /// The failure count of `k`, or `None` when `k` is not counted.
    pub open spec fn count_of(&self, k: ThrottleKeyView) -> Option<u32> {
        if exists|i: int| 0 <= i < self.keys().len() && self.keys()[i] == k {
            let i = choose|i: int| 0 <= i < self.keys().len() && self.keys()[i] == k;
            Some(self.counts()[i])
        } else {
            None
        }
    }

    /// When `k` last failed, or `None` when `k` is not counted.
    pub open spec fn last_of(&self, k: ThrottleKeyView) -> Option<u128> {
        if exists|i: int| 0 <= i < self.keys().len() && self.keys()[i] == k {
            let i = choose|i: int| 0 <= i < self.keys().len() && self.keys()[i] == k;
            Some(self.lasts()[i])
        } else {
            None
        }
    }

    /// What is recorded of `k`: its count and its last failure.
    pub open spec fn entry_of(&self, k: ThrottleKeyView) -> (Option<u32>, Option<u128>) {
        (self.count_of(k), self.last_of(k))
    }

    /// `k` is counted and its last failure is fewer than `lockout_secs`
    /// seconds before `now`.
    pub open spec fn is_live(&self, k: ThrottleKeyView, lockout_secs: u64, now: u128) -> bool {
        self.last_of(k) matches Some(l) && secs_between(l, now) < lockout_secs
    }

    /// What is recorded of `k` once the keys whose lockout has run out by
    /// `now` are forgotten.
    pub open spec fn entry_after_evict(&self, k: ThrottleKeyView, lockout_secs: u64, now: u128) -> (
        Option<u32>,
        Option<u128>,
    ) {
        if self.is_live(k, lockout_secs, now) {
            self.entry_of(k)
        } else {
            (None, None)
        }
    }

    /// What `increment` does: one more failure of `key` at `now`.  A key not
    /// yet counted is added while fewer than `max_entries` keys are counted;
    /// when the map is full, the keys whose lockout has run out are forgotten
    /// first, and if it is still full the failure is not counted.
    pub open spec fn failure_recorded(
        before: AttemptMap,
        after: AttemptMap,
        key: ThrottleKeyView,
        lockout_secs: u64,
        max_entries: nat,
        now: u128,
    ) -> bool {
        let evicting = before.count_of(key) is None && before.size() >= max_entries;
        &&& (after.count_of(key) is Some <==> (!evicting || before.live(lockout_secs, now) < max_entries))
        &&& (after.count_of(key) is Some ==> after.entry_of(key) == (
            Some(next_count(before.count_of(key))),
            Some(now),
        ))
        &&& forall|o: ThrottleKeyView|
            #![trigger after.count_of(o)]
            #![trigger after.last_of(o)]
            o != key ==> after.entry_of(o) == if evicting {
                before.entry_after_evict(o, lockout_secs, now)
            } else {
                before.entry_of(o)
            }
        &&& (before.size() <= max_entries ==> after.size() <= max_entries)
    }

    pub fn new() -> (m: AttemptMap)
        ensures
            m.wf(),
            m.size() == 0,
            forall|k: ThrottleKeyView| m.count_of(k) is None,
    {
        AttemptMap { entries: Vec::new() }
    }

    proof fn lemma_keys_counts(&self)
        ensures
            self.keys().len() == self.entries@.len(),
            self.counts().len() == self.entries@.len(),
            self.lasts().len() == self.entries@.len(),
            forall|i: int| 0 <= i < self.entries@.len() ==> #[trigger] self.keys()[i] == self.entries@[i].0@,
            forall|i: int| 0 <= i < self.entries@.len() ==> #[trigger] self.counts()[i] == self.entries@[i].1.count,
            forall|i: int| 0 <= i < self.entries@.len() ==> #[trigger] self.lasts()[i] == self.entries@[i].1.last,
            self.size() == self.entries@.len(),
    {
    }

    /// In a well-formed map, what is recorded of the key at position `i` is
    /// what is there.
    proof fn lemma_count_at(&self, i: int)
        requires
            self.wf(),
            0 <= i < self.entries@.len(),
        ensures
            self.count_of(self.entries@[i].0@) == Some(self.entries@[i].1.count),
            self.last_of(self.entries@[i].0@) == Some(self.entries@[i].1.last),
    {
        self.lemma_keys_counts();
        let k = self.entries@[i].0@;
        assert(self.keys()[i] == k);
        let j = choose|j: int| 0 <= j < self.keys().len() && self.keys()[j] == k;
        if j != i {
            if j < i {
                assert(self.entries@[j].0@ != self.entries@[i].0@);
            } else {
                assert(self.entries@[i].0@ != self.entries@[j].0@);
            }
        }
    }

    fn position(&self, k: &ThrottleKey) -> (r: Option<usize>)
        requires
            self.wf(),
        ensures
            match r {
                Some(i) => i < self.entries@.len() && self.entries@[i as int].0@ == k@,
                None => self.count_of(k@) is None,
            },
    {
        let mut i: usize = 0;
        while i < self.entries.len()
            invariant
                i <= self.entries.len(),
                forall|j: int| 0 <= j < i ==> self.entries@[j].0@ != k@,
            decreases self.entries.len() - i,
        {
            if key_eq(&self.entries[i].0, k) {
                return Some(i);
            }
            i += 1;
        }
        proof {
            self.lemma_keys_counts();
        }
        None
    }

    /// The failures recorded for `k` and the whole seconds from the last one
    /// to `now`.
    fn lookup(&self, k: &ThrottleKey, now: u128) -> (r: Option<(u32, u64)>)
        requires
            self.wf(),
        ensures
            r == seen_at(self.count_of(k@), self.last_of(k@), now),
    {
        match self.position(k) {
            None => None,
            Some(i) => {
                proof {
                    self.lemma_count_at(i as int);
                }
                let e = &self.entries[i].1;
                Some((e.count, seconds_between(e.last, now)))
            },
        }
    }

    /// Forgets `k`.
    fn remove(&mut self, k: &ThrottleKey)
        requires
            old(self).wf(),
        ensures
            final(self).wf(),
            final(self).count_of(k@) is None,
            final(self).size() <= old(self).size(),
            forall|o: ThrottleKeyView|
                #![trigger final(self).count_of(o)]
                #![trigger final(self).last_of(o)]
                o != k@ ==> final(self).entry_of(o) == old(self).entry_of(o),
    {
        match self.position(k) {
            None => {},
            Some(i) => {
                let ghost old_entries = self.entries@;
                self.entries.remove(i);
                proof {
                    assert(self.entries@ =~= old_entries.remove(i as int));
                    assert forall|a: int, b: int| 0 <= a < b < self.entries@.len() implies #[trigger] self.entries@[a].0@ != #[trigger] self.entries@[b].0@ by {
                        let a2 = if a < i { a } else { a + 1 };
                        let b2 = if b < i { b } else { b + 1 };
                        assert(self.entries@[a] == old_entries[a2]);
                        assert(self.entries@[b] == old_entries[b2]);
                    }
                    self.lemma_keys_counts();
                    assert forall|x: int| 0 <= x < self.entries@.len() implies self.entries@[x].0@ != k@ by {
                        let x2 = if x < i { x } else { x + 1 };
                        assert(self.entries@[x] == old_entries[x2]);
                    }
                    assert forall|o: ThrottleKeyView| o != k@ implies #[trigger] self.entry_of(o) == old(self).entry_of(o) by {
                        old(self).lemma_keys_counts();
                        if old(self).count_of(o) is Some {
                            let j = choose|j: int| 0 <= j < old(self).keys().len() && old(self).keys()[j] == o;
                            old(self).lemma_count_at(j);
                            let j2 = if j < i { j } else { j - 1 };
                            assert(self.entries@[j2] == old_entries[j]);
                            self.lemma_count_at(j2);
                        } else {
                            if self.count_of(o) is Some {
                                let j = choose|j: int| 0 <= j < self.keys().len() && self.keys()[j] == o;
                                let j2 = if j < i { j } else { j + 1 };
                                assert(self.entries@[j] == old_entries[j2]);
                                assert(old(self).keys()[j2] == o);
                            }
                        }
                    }
                }
            },
        }
    }

    /// Keeps exactly the entries whose last failure is fewer than
    /// `lockout_secs` seconds before `now`; a kept key keeps its record.
    fn evict_expired(&mut self, lockout_secs: u64, now: u128)
        requires
            old(self).wf(),
        ensures
            final(self).wf(),
            final(self).size() == old(self).live(lockout_secs, now),
            forall|o: ThrottleKeyView|
                #![trigger final(self).count_of(o)]
                #![trigger final(self).last_of(o)]
                final(self).entry_of(o) == old(self).entry_after_evict(o, lockout_secs, now),
    {
        let mut src: Vec<(ThrottleKey, Entry)> = Vec::new();
        std::mem::swap(&mut src, &mut self.entries);
        let ghost olds = src@;
        let mut kept: Vec<(ThrottleKey, Entry)> = Vec::new();
        let ghost mut origin: Seq<int> = seq![];
        while src.len() > 0
            invariant
                src@.len() <= olds.len(),
                src@ == olds.subrange(0, src@.len() as int),
                olds == old(self).entries@,
                old(self).wf(),
                origin.len() == kept@.len(),
                forall|a: int| 0 <= a < origin.len() ==> src@.len() <= #[trigger] origin[a] < olds.len() && kept@[a] == olds[origin[a]],
                forall|a: int, b: int| 0 <= a < b < origin.len() ==> #[trigger] origin[a] > #[trigger] origin[b],
                forall|a: int| 0 <= a < kept@.len() ==> secs_between(#[trigger] kept@[a].1.last, now) < lockout_secs,
                forall|j: int| src@.len() <= j < olds.len() && secs_between(#[trigger] olds[j].1.last, now) < lockout_secs
                    ==> exists|a: int| 0 <= a < origin.len() && origin[a] == j,
                kept@.len() + live_in(src@, lockout_secs, now) == live_in(olds, lockout_secs, now),
            decreases src.len(),
        {
            let ghost pre = src@;
            let e = src.pop().unwrap();
            proof {
                assert(src@ =~= olds.subrange(0, src@.len() as int));
                assert(e == olds[src@.len() as int]);
                assert(pre.drop_last() =~= src@);
            }
            if seconds_between(e.1.last, now) < lockout_secs {
                kept.push(e);
                proof {
                    let n = src@.len() as int;
                    let old_origin = origin;
                    origin = origin.push(n);
                    assert(origin[old_origin.len() as int] == n);
                    assert forall|j: int| src@.len() <= j < olds.len() && secs_between(#[trigger] olds[j].1.last, now) < lockout_secs
                        implies exists|a: int| 0 <= a < origin.len() && origin[a] == j by {
                        if j == n {
                            assert(origin[old_origin.len() as int] == j);
                        } else {
                            let a = choose|a: int| 0 <= a < old_origin.len() && old_origin[a] == j;
                            assert(origin[a] == j);
                        }
                    }
                }
            }
        }
        self.entries = kept;
        proof {
            assert forall|a: int, b: int| 0 <= a < b < self.entries@.len() implies #[trigger] self.entries@[a].0@ != #[trigger] self.entries@[b].0@ by {
                assert(origin[a] > origin[b]);
                assert(old(self).entries@[origin[b]].0@ != old(self).entries@[origin[a]].0@);
            }
            self.lemma_keys_counts();
            old(self).lemma_keys_counts();
            assert forall|o: ThrottleKeyView| #[trigger] self.entry_of(o) == old(self).entry_after_evict(o, lockout_secs, now) by {
                if self.count_of(o) is Some {
                    let a = choose|a: int| 0 <= a < self.keys().len() && self.keys()[a] == o;
                    self.lemma_count_at(a);
                    old(self).lemma_count_at(origin[a]);
                } else if old(self).count_of(o) is Some {
                    let j = choose|j: int| 0 <= j < old(self).keys().len() && old(self).keys()[j] == o;
                    old(self).lemma_count_at(j);
                    if secs_between(olds[j].1.last, now) < lockout_secs {
                        let a = choose|a: int| 0 <= a < origin.len() && origin[a] == j;
                        assert(self.keys()[a] == o);
                    }
                }
            }
        }
    }

    /// Records one more failure of `key` at `now` (see `failure_recorded`).
    fn increment(&mut self, key: ThrottleKey, lockout_secs: u64, max_entries: usize, now: u128)
        requires
            old(self).wf(),
        ensures
            final(self).wf(),
            AttemptMap::failure_recorded(*old(self), *final(self), key@, lockout_secs, max_entries as nat, now),
    {
        let first = self.position(&key);
        let ghost evicting = first is None && self.entries@.len() >= max_entries;
        proof {
            self.lemma_keys_counts();
            if first is Some {
                self.lemma_count_at(first->0 as int);
            }
        }
        if self.entries.len() >= max_entries && first.is_none() {
            self.evict_expired(lockout_secs, now);
            assert(self.entry_of(key@) == old(self).entry_after_evict(key@, lockout_secs, now));
            if self.entries.len() >= max_entries {
                proof {
                    self.lemma_keys_counts();
                    lemma_live_in_len(old(self).entries@, lockout_secs, now);
                    assert forall|o: ThrottleKeyView| o != key@ implies #[trigger] self.entry_of(o)
                        == old(self).entry_after_evict(o, lockout_secs, now) by {}
                }
                return;
            }
        }
        let ghost mid = *self;
        proof {
            mid.lemma_keys_counts();
            lemma_live_in_len(old(self).entries@, lockout_secs, now);
            assert(mid.count_of(key@) == old(self).count_of(key@));
            assert(mid.size() < max_entries || !evicting);
            assert forall|o: ThrottleKeyView| o != key@ implies #[trigger] mid.entry_of(o) == if evicting {
                old(self).entry_after_evict(o, lockout_secs, now)
            } else {
                old(self).entry_of(o)
            } by {}
        }
        match self.position(&key) {
            Some(i) => {
                let ghost before = self.entries@;
                let (k, e) = self.entries.remove(i);
                let count = e.count.saturating_add(1);
                self.entries.insert(i, (k, Entry { count, last: now }));
                proof {
                    assert forall|a: int, b: int| 0 <= a < b < self.entries@.len() implies #[trigger] self.entries@[a].0@ != #[trigger] self.entries@[b].0@ by {
                        assert(self.entries@[a].0@ == before[a].0@);
                        assert(self.entries@[b].0@ == before[b].0@);
                    }
                    self.lemma_count_at(i as int);
                    mid.lemma_count_at(i as int);
                    self.lemma_keys_counts();
                    assert forall|o: ThrottleKeyView| o != key@ implies #[trigger] self.entry_of(o) == mid.entry_of(o) by {
                        if mid.count_of(o) is Some {
                            let j = choose|j: int| 0 <= j < mid.keys().len() && mid.keys()[j] == o;
                            mid.lemma_count_at(j);
                            assert(self.entries@[j] == before[j]);
                            self.lemma_count_at(j);
                        }
                        if self.count_of(o) is Some {
                            let j = choose|j: int| 0 <= j < self.keys().len() && self.keys()[j] == o;
                            assert(self.entries@[j] == before[j]);
                            assert(mid.keys()[j] == o);
                        }
                    }
                }
            },
            None => {
                let ghost before = self.entries@;
                self.entries.push((key, Entry { count: 1, last: now }));
                proof {
                    let n = before.len() as int;
                    assert forall|a: int, b: int| 0 <= a < b < self.entries@.len() implies #[trigger] self.entries@[a].0@ != #[trigger] self.entries@[b].0@ by {
                        if b == n {
                            assert(self.entries@[a] == before[a]);
                            assert(mid.keys()[a] == before[a].0@);
                        } else {
                            assert(self.entries@[a] == before[a]);
                            assert(self.entries@[b] == before[b]);
                        }
                    }
                    self.lemma_count_at(n);
                    self.lemma_keys_counts();
                    assert forall|o: ThrottleKeyView| o != key@ implies #[trigger] self.entry_of(o) == mid.entry_of(o) by {
                        if mid.count_of(o) is Some {
                            let j = choose|j: int| 0 <= j < mid.keys().len() && mid.keys()[j] == o;
                            mid.lemma_count_at(j);
                            assert(self.entries@[j] == before[j]);
                            self.lemma_count_at(j);
                        }
                        if self.count_of(o) is Some {
                            let j = choose|j: int| 0 <= j < self.keys().len() && self.keys()[j] == o;
                            if j < n {
                                assert(self.entries@[j] == before[j]);
                                assert(mid.keys()[j] == o);
                            }
                        }
                    }
                }
            },
        }
    }
}

/// Seconds of lockout left for a key with `count` failures, the last one
/// `elapsed` seconds ago: none once the lockout has run out or while the
/// count is below the limit.
pub open spec fn lockout_spec(entry: Option<(u32, u64)>, max_attempts: u32, lockout_secs: u64) -> Option<u64> {
    match entry {
        None => None,
        Some((count, elapsed)) => if elapsed >= lockout_secs || count < max_attempts {
            None
        } else {
            Some((lockout_secs - elapsed) as u64)
        },
    }
}

/// A key is locked out exactly when it has at least `max_attempts` failures
/// and its last one is fewer than `lockout_secs` seconds ago; the wait left is
/// the lockout minus the seconds already passed.
pub proof fn lemma_lockout_exactly(count: u32, elapsed: u64, max_attempts: u32, lockout_secs: u64)
    ensures
        lockout_spec(Some((count, elapsed)), max_attempts, lockout_secs) is Some <==> (count >= max_attempts && elapsed
            < lockout_secs),
        count >= max_attempts && elapsed < lockout_secs ==> lockout_spec(Some((count, elapsed)), max_attempts, lockout_secs)
            == Some((lockout_secs - elapsed) as u64),
        lockout_spec(None, max_attempts, lockout_secs) is None,
{
}

/// Lockout left for one counter (see `lockout_spec`).
pub fn check_entry(entry: Option<(u32, u64)>, max_attempts: u32, lockout_secs: u64) -> (r: Option<u64>)
    ensures
        r == lockout_spec(entry, max_attempts, lockout_secs),
{
    let (count, elapsed) = match entry {
        None => {
            return None;
        },
        Some(e) => e,
    };
    if elapsed >= lockout_secs || count < max_attempts {
        return None;
    }
    Some(lockout_secs.saturating_sub(elapsed))
}

/// Per-address and per-username login throttling.
pub struct LoginThrottle {
    by_ip: AttemptMap,
    by_user: AttemptMap,
    max_attempts: u32,
    lockout_secs: u64,
    /// Maximum entries per map. When reached, expired entries are evicted before
    /// inserting; if still at capacity the new key is skipped (not tracked).
    max_entries: usize,
    /// The throttle's clock starts here: times are nanoseconds since it.
    origin: Instant,
}

/// The key of a source address.
pub open spec fn ip_key(ip: IpAddress) -> ThrottleKeyView {
    ThrottleKeyView::Ip(ip)
}

/// The key of a username: its lower-cased form.
pub open spec fn user_key(username: Seq<char>) -> ThrottleKeyView {
    ThrottleKeyView::User(unicode_lowercase(username))
}

/// The count of a key after one more failure (saturating at `u32::MAX`).
pub open spec fn next_count(count: Option<u32>) -> u32 {
    match count {
        Some(c) => if c == u32::MAX {
            c
        } else {
            (c + 1) as u32
        },
        None => 1u32,
    }
}

/// What a lockout check at `now` sees of a key: its count and the whole
/// seconds since its last failure.
pub open spec fn seen_at(count: Option<u32>, last: Option<u128>, now: u128) -> Option<(u32, u64)> {
    match (count, last) {
        (Some(c), Some(l)) => Some((c, secs_between(l, now))),
        _ => None,
    }
}

impl LoginThrottle {
    /// The well-formedness of both maps, and their bound.
    #[verifier::type_invariant]
    closed spec fn wf(&self) -> bool {
        &&& self.by_ip.wf()
        &&& self.by_user.wf()
        &&& self.by_ip.size() <= self.max_entries
        &&& self.by_user.size() <= self.max_entries
    }

    /// The failures counted per source address.
    pub closed spec fn ips(&self) -> AttemptMap {
        self.by_ip
    }

    /// The failures counted per lower-cased username.
    pub closed spec fn users(&self) -> AttemptMap {
        self.by_user
    }

    /// The most keys of each kind that are counted at once.
    pub closed spec fn spec_max_entries(&self) -> nat {
        self.max_entries as nat
    }

    pub closed spec fn spec_max_attempts(&self) -> u32 {
        self.max_attempts
    }

    pub closed spec fn spec_lockout_secs(&self) -> u64 {
        self.lockout_secs
    }

    /// Failures counted for a source address.
    pub open spec fn ip_count(&self, ip: IpAddress) -> Option<u32> {
        self.ips().count_of(ip_key(ip))
    }

    /// Failures counted for a username.
    pub open spec fn user_count(&self, username: Seq<char>) -> Option<u32> {
        self.users().count_of(user_key(username))
    }

    /// When a source address last failed.
    pub open spec fn ip_last(&self, ip: IpAddress) -> Option<u128> {
        self.ips().last_of(ip_key(ip))
    }

    /// When a username last failed.
    pub open spec fn user_last(&self, username: Seq<char>) -> Option<u128> {
        self.users().last_of(user_key(username))
    }

    /// How many source addresses are being counted.
    pub open spec fn ips_tracked(&self) -> nat {
        self.ips().size()
    }

    /// How many usernames are being counted.
    pub open spec fn users_tracked(&self) -> nat {
        self.users().size()
    }

    /// Seconds of lockout left at `now` for a login from `ip` as `username`:
    /// the address's lockout if it has one, else the username's.
    pub open spec fn lockout_left(&self, ip: IpAddress, username: Seq<char>, now: u128) -> Option<u64> {
        match lockout_spec(seen_at(self.ip_count(ip), self.ip_last(ip), now), self.spec_max_attempts(), self.spec_lockout_secs()) {
            Some(s) => Some(s),
            None => lockout_spec(
                seen_at(self.user_count(username), self.user_last(username), now),
                self.spec_max_attempts(),
                self.spec_lockout_secs(),
            ),
        }
    }

    /// What `record_failure_at` does: one more failure of `ip` and of
    /// `username` at `now`, with the limits unchanged.
    pub open spec fn failure_recorded_at(before: LoginThrottle, after: LoginThrottle, ip: IpAddress, username: Seq<char>, now: u128) -> bool {
        &&& AttemptMap::failure_recorded(before.ips(), after.ips(), ip_key(ip), before.spec_lockout_secs(), before.spec_max_entries(), now)
        &&& AttemptMap::failure_recorded(before.users(), after.users(), user_key(username), before.spec_lockout_secs(), before.spec_max_entries(), now)
        &&& after.spec_max_attempts() == before.spec_max_attempts()
        &&& after.spec_lockout_secs() == before.spec_lockout_secs()
        &&& after.spec_max_entries() == before.spec_max_entries()
    }

    /// A throttle that locks a source or username out for `lockout_secs` after
    /// `max_attempts` failures, tracking at most 50,000 of each.
    pub fn new(max_attempts: u32, lockout_secs: u64) -> (t: LoginThrottle)
        ensures
            t.spec_max_attempts() == max_attempts,
            t.spec_lockout_secs() == lockout_secs,
            forall|ip: IpAddress| t.ip_count(ip) is None,
            forall|u: Seq<char>| t.user_count(u) is None,
            t.ips_tracked() == 0,
            t.users_tracked() == 0,
            t.spec_max_entries() == 50_000,
    {
        LoginThrottle {
            by_ip: AttemptMap::new(),
            by_user: AttemptMap::new(),
            max_attempts,
            lockout_secs,
            max_entries: 50_000,
            origin: instant_now(),
        }
    }

    /// The current time on the throttle's clock: nanoseconds since it was made.
    pub fn now(&self) -> u128 {
        nanos_since(&self.origin)
    }

    /// Returns `None` if a login from `ip` as `username` is allowed at `now`,
    /// or `Some(seconds_remaining)` if the source address or the username is
    /// locked out then.
    pub fn check_at(&self, ip: IpAddress, username: &str, now: u128) -> (r: Option<u64>)
        ensures
            r == self.lockout_left(ip, username@, now),
    {
        proof {
            use_type_invariant(self);
        }
        let by_ip = self.by_ip.lookup(&ThrottleKey::Ip(ip), now);
        if let Some(secs) = check_entry(by_ip, self.max_attempts, self.lockout_secs) {
            return Some(secs);
        }
        let user = to_lowercase(username);
        let by_user = self.by_user.lookup(&ThrottleKey::User(user), now);
        check_entry(by_user, self.max_attempts, self.lockout_secs)
    }

    /// Returns `None` if the request is allowed, or `Some(seconds_remaining)` if
    /// either the source IP or the username is currently locked out.
    pub fn check(&self, ip: IpAddress, username: &str) -> (r: Option<u64>)
        ensures
            exists|now: u128| #![trigger self.lockout_left(ip, username@, now)] r == self.lockout_left(ip, username@, now),
    {
        let now = self.now();
        self.check_at(ip, username, now)
    }

    /// Counts a failed login from `ip` for `username` at `now` (see
    /// `failure_recorded_at`).
    pub fn record_failure_at(&mut self, ip: IpAddress, username: &str, now: u128)
        ensures
            LoginThrottle::failure_recorded_at(*old(self), *final(self), ip, username@, now),
    {
        proof {
            use_type_invariant(&*self);
        }
        let lockout = self.lockout_secs;
        let max = self.max_entries;
        let mut ips = AttemptMap::new();
        std::mem::swap(&mut ips, &mut self.by_ip);
        ips.increment(ThrottleKey::Ip(ip), lockout, max, now);
        self.by_ip = ips;
        let user = to_lowercase(username);
        let mut users = AttemptMap::new();
        std::mem::swap(&mut users, &mut self.by_user);
        users.increment(ThrottleKey::User(user), lockout, max, now);
        self.by_user = users;
    }

    /// Counts a failed login from `ip` for `username` now.
    pub fn record_failure(&mut self, ip: IpAddress, username: &str)
        ensures
            exists|now: u128| #[trigger] LoginThrottle::failure_recorded_at(*old(self), *final(self), ip, username@, now),
    {
        let now = self.now();
        self.record_failure_at(ip, username, now);
    }

    /// Clears the counters of `ip` and `username` after a successful login.
    pub fn record_success(&mut self, ip: IpAddress, username: &str)
        ensures
            final(self).spec_max_attempts() == old(self).spec_max_attempts(),
            final(self).spec_lockout_secs() == old(self).spec_lockout_secs(),
            final(self).spec_max_entries() == old(self).spec_max_entries(),
            final(self).ip_count(ip) is None,
            final(self).user_count(username@) is None,
            forall|o: ThrottleKeyView|
                #![trigger final(self).ips().count_of(o)]
                #![trigger final(self).ips().last_of(o)]
                o != ip_key(ip) ==> final(self).ips().entry_of(o) == old(self).ips().entry_of(o),
            forall|o: ThrottleKeyView|
                #![trigger final(self).users().count_of(o)]
                #![trigger final(self).users().last_of(o)]
                o != user_key(username@) ==> final(self).users().entry_of(o) == old(self).users().entry_of(o),
    {
        proof {
            use_type_invariant(&*self);
        }
        let mut ips = AttemptMap::new();
        std::mem::swap(&mut ips, &mut self.by_ip);
        ips.remove(&ThrottleKey::Ip(ip));
        self.by_ip = ips;
        let user = to_lowercase(username);
        let mut users = AttemptMap::new();
        std::mem::swap(&mut users, &mut self.by_user);
        users.remove(&ThrottleKey::User(user));
        self.by_user = users;
    }
}

/// A source and username with no counted failures are not locked out, at any
/// time; this is what a successful login leaves.
pub proof fn lemma_success_unlocks(t: LoginThrottle, ip: IpAddress, username: Seq<char>, now: u128)
    requires
        t.ip_count(ip) is None,
        t.user_count(username) is None,
    ensures
        t.lockout_left(ip, username, now) is None,
{
}

/// Fewer failures than the limit never lock a key out, and a lockout never
/// asks the client to wait longer than the configured lockout.
pub proof fn lemma_lockout_bounds(entry: Option<(u32, u64)>, max_attempts: u32, lockout_secs: u64)
    ensures
        entry matches Some((c, _)) && c < max_attempts ==> lockout_spec(entry, max_attempts, lockout_secs) is None,
        lockout_spec(entry, max_attempts, lockout_secs) matches Some(s) ==> 0 < s <= lockout_secs,
{
}

/// One failed login from `ip` at `now`: what `record_failure_at` does to the
/// source's counter and the limits.
spec fn ip_failure_step(before: LoginThrottle, after: LoginThrottle, ip: IpAddress, now: u128) -> bool {
    &&& AttemptMap::failure_recorded(before.ips(), after.ips(), ip_key(ip), before.spec_lockout_secs(), before.spec_max_entries(), now)
    &&& after.spec_max_attempts() == before.spec_max_attempts()
    &&& after.spec_lockout_secs() == before.spec_lockout_secs()
    &&& after.spec_max_entries() == before.spec_max_entries()
}

/// One failed login for `username` at `now`: what `record_failure_at` does to
/// the username's counter and the limits.
spec fn user_failure_step(before: LoginThrottle, after: LoginThrottle, username: Seq<char>, now: u128) -> bool {
    &&& AttemptMap::failure_recorded(before.users(), after.users(), user_key(username), before.spec_lockout_secs(), before.spec_max_entries(), now)
    &&& after.spec_max_attempts() == before.spec_max_attempts()
    &&& after.spec_lockout_secs() == before.spec_lockout_secs()
    &&& after.spec_max_entries() == before.spec_max_entries()
}

/// A refusal that asks the client to wait between 1 and `lockout_secs` seconds.
pub open spec fn locked_for(r: Option<u64>, lockout_secs: u64) -> bool {
    r matches Some(s) && 1 <= s <= lockout_secs
}

/// A key counted at least `k` times, last at `last`.
pub open spec fn counted_since(count: Option<u32>, last_seen: Option<u128>, k: int, last: u128) -> bool {
    &&& count matches Some(c) && c >= k
    &&& last_seen == Some(last)
}

/// Each failure of a counted key counts, and makes it the key's last failure.
proof fn lemma_counted_step(before: AttemptMap, after: AttemptMap, key: ThrottleKeyView, lockout: u64, max: nat, now: u128, k: int)
    requires
        AttemptMap::failure_recorded(before, after, key, lockout, max, now),
        1 <= k <= u32::MAX,
        k == 1 ==> before.count_of(key) is Some || before.size() < max,
        k > 1 ==> (before.count_of(key) matches Some(c) && c >= k - 1),
    ensures
        counted_since(after.count_of(key), after.last_of(key), k, now),
{
}

/// `lemma_failures_lock_out`, over the source's counter alone.
proof fn lemma_ip_steps_lock_out(t: Seq<LoginThrottle>, times: Seq<u128>, ip: IpAddress, username: Seq<char>, now: u128)
    requires
        t.len() == times.len() + 1,
        times.len() <= u32::MAX,
        t[0].ip_count(ip) is Some || t[0].ips_tracked() < t[0].spec_max_entries(),
        forall|i: int| 0 <= i < times.len() ==> ip_failure_step(#[trigger] t[i], t[i + 1], ip, times[i]),
    ensures
        forall|k: int| 1 <= k < t.len() ==> counted_since(#[trigger] t[k].ip_count(ip), t[k].ip_last(ip), k, times[k - 1]),
        t[t.len() - 1].spec_max_attempts() == t[0].spec_max_attempts(),
        t[t.len() - 1].spec_lockout_secs() == t[0].spec_lockout_secs(),
        times.len() >= 1 && times.len() >= t[0].spec_max_attempts() && secs_between(times[times.len() - 1], now)
            < t[0].spec_lockout_secs() ==> locked_for(t[t.len() - 1].lockout_left(ip, username, now), t[0].spec_lockout_secs()),
    decreases times.len(),
{
    if times.len() > 0 {
        let n = times.len() - 1;
        let p = t.drop_last();
        let q = times.drop_last();
        assert forall|i: int| 0 <= i < q.len() implies ip_failure_step(#[trigger] p[i], p[i + 1], ip, q[i]) by {
            assert(p[i] == t[i] && p[i + 1] == t[i + 1] && q[i] == times[i]);
            assert(ip_failure_step(t[i], t[i + 1], ip, times[i]));
        }
        lemma_ip_steps_lock_out(p, q, ip, username, now);
        assert(ip_failure_step(t[n], t[n + 1], ip, times[n]));
        if n > 0 {
            assert(p[n] == t[n]);
            assert(counted_since(t[n].ip_count(ip), t[n].ip_last(ip), n, times[n - 1]));
        }
        lemma_counted_step(t[n].ips(), t[n + 1].ips(), ip_key(ip), t[n].spec_lockout_secs(), t[n].spec_max_entries(), times[n], n + 1);
        assert forall|k: int| 1 <= k < t.len() implies counted_since(#[trigger] t[k].ip_count(ip), t[k].ip_last(ip), k, times[k - 1]) by {
            if k <= n {
                assert(p[k] == t[k] && q[k - 1] == times[k - 1]);
            }
        }
        assert(p[n] == t[n]);
    }
}

/// `lemma_user_failures_lock_out`, over the username's counter alone.
proof fn lemma_user_steps_lock_out(
    t: Seq<LoginThrottle>,
    times: Seq<u128>,
    username: Seq<char>,
    other: Seq<char>,
    ip: IpAddress,
    now: u128,
)
    requires
        t.len() == times.len() + 1,
        times.len() <= u32::MAX,
        t[0].user_count(username) is Some || t[0].users_tracked() < t[0].spec_max_entries(),
        forall|i: int| 0 <= i < times.len() ==> user_failure_step(#[trigger] t[i], t[i + 1], username, times[i]),
        unicode_lowercase(other) == unicode_lowercase(username),
    ensures
        forall|k: int| 1 <= k < t.len() ==> counted_since(#[trigger] t[k].user_count(other), t[k].user_last(other), k, times[k - 1]),
        t[t.len() - 1].spec_max_attempts() == t[0].spec_max_attempts(),
        t[t.len() - 1].spec_lockout_secs() == t[0].spec_lockout_secs(),
        times.len() >= 1 && times.len() >= t[0].spec_max_attempts() && secs_between(times[times.len() - 1], now)
            < t[0].spec_lockout_secs() ==> locked_for(t[t.len() - 1].lockout_left(ip, other, now), t[0].spec_lockout_secs()),
    decreases times.len(),
{
    assert(user_key(other) == user_key(username));
    if times.len() > 0 {
        let n = times.len() - 1;
        let p = t.drop_last();
        let q = times.drop_last();
        assert forall|i: int| 0 <= i < q.len() implies user_failure_step(#[trigger] p[i], p[i + 1], username, q[i]) by {
            assert(p[i] == t[i] && p[i + 1] == t[i + 1] && q[i] == times[i]);
            assert(user_failure_step(t[i], t[i + 1], username, times[i]));
        }
        lemma_user_steps_lock_out(p, q, username, other, ip, now);
        assert(user_failure_step(t[n], t[n + 1], username, times[n]));
        if n > 0 {
            assert(p[n] == t[n]);
            assert(counted_since(t[n].user_count(other), t[n].user_last(other), n, times[n - 1]));
        }
        lemma_counted_step(t[n].users(), t[n + 1].users(), user_key(username), t[n].spec_lockout_secs(), t[n].spec_max_entries(), times[n], n + 1);
        assert forall|k: int| 1 <= k < t.len() implies counted_since(#[trigger] t[k].user_count(other), t[k].user_last(other), k, times[k - 1]) by {
            if k <= n {
                assert(p[k] == t[k] && q[k - 1] == times[k - 1]);
            }
        }
        assert(p[n] == t[n]);
    }
}

/// Failed logins from one source `ip`, recorded by `record_failure_at` at
/// times `times` (as usernames `users`), starting from a state where the
/// source was counted or there was room to count it: after the `k`-th the
/// source is counted at least `k` times, last at `times[k - 1]`; and once at
/// least one and at least `max_attempts` have been recorded, a login from it,
/// as any username, is refused at any `now` fewer than `lockout_secs` whole
/// seconds after the last one, with between 1 and `lockout_secs` seconds left.
pub proof fn lemma_failures_lock_out(
    t: Seq<LoginThrottle>,
    times: Seq<u128>,
    users: Seq<Seq<char>>,
    ip: IpAddress,
    username: Seq<char>,
    now: u128,
)
    requires
        t.len() == times.len() + 1,
        users.len() == times.len(),
        times.len() <= u32::MAX,
        t[0].ip_count(ip) is Some || t[0].ips_tracked() < t[0].spec_max_entries(),
        forall|i: int| 0 <= i < times.len() ==> LoginThrottle::failure_recorded_at(#[trigger] t[i], t[i + 1], ip, users[i], times[i]),
    ensures
        forall|k: int| 1 <= k < t.len() ==> counted_since(#[trigger] t[k].ip_count(ip), t[k].ip_last(ip), k, times[k - 1]),
        times.len() >= 1 && times.len() >= t[0].spec_max_attempts() && secs_between(times[times.len() - 1], now)
            < t[0].spec_lockout_secs() ==> locked_for(t[t.len() - 1].lockout_left(ip, username, now), t[0].spec_lockout_secs()),
{
    assert forall|i: int| 0 <= i < times.len() implies ip_failure_step(#[trigger] t[i], t[i + 1], ip, times[i]) by {
        assert(LoginThrottle::failure_recorded_at(t[i], t[i + 1], ip, users[i], times[i]));
    }
    lemma_ip_steps_lock_out(t, times, ip, username, now);
}

/// Failed logins for one username, recorded by `record_failure_at` at times
/// `times` (from addresses `ips`), starting from a state where the username
/// was counted or there was room to count it: after the `k`-th the username,
/// under every spelling `other` with the same lower-case form, is counted at
/// least `k` times, last at `times[k - 1]`; and once at least one and at least
/// `max_attempts` have been recorded, a login as any such spelling, from any
/// source `ip`, is refused at any `now` fewer than `lockout_secs` whole seconds
/// after the last one, with between 1 and `lockout_secs` seconds left.
pub proof fn lemma_user_failures_lock_out(
    t: Seq<LoginThrottle>,
    times: Seq<u128>,
    ips: Seq<IpAddress>,
    username: Seq<char>,
    other: Seq<char>,
    ip: IpAddress,
    now: u128,
)
    requires
        t.len() == times.len() + 1,
        ips.len() == times.len(),
        times.len() <= u32::MAX,
        t[0].user_count(username) is Some || t[0].users_tracked() < t[0].spec_max_entries(),
        forall|i: int| 0 <= i < times.len() ==> LoginThrottle::failure_recorded_at(#[trigger] t[i], t[i + 1], ips[i], username, times[i]),
        unicode_lowercase(other) == unicode_lowercase(username),
    ensures
        forall|k: int| 1 <= k < t.len() ==> counted_since(#[trigger] t[k].user_count(other), t[k].user_last(other), k, times[k - 1]),
        times.len() >= 1 && times.len() >= t[0].spec_max_attempts() && secs_between(times[times.len() - 1], now)
            < t[0].spec_lockout_secs() ==> locked_for(t[t.len() - 1].lockout_left(ip, other, now), t[0].spec_lockout_secs()),
{
    assert forall|i: int| 0 <= i < times.len() implies user_failure_step(#[trigger] t[i], t[i + 1], username, times[i]) by {
        assert(LoginThrottle::failure_recorded_at(t[i], t[i + 1], ips[i], username, times[i]));
    }
    lemma_user_steps_lock_out(t, times, username, other, ip, now);
}

} // verus!
