//! Where a finished upload is stored: filename sanitising and storage names.
use vstd::prelude::*;
use crate::text::{
    append_chars, chars_of, has_prefix, is_ws, push_char, slice_vec, starts_with, string_from_chars, trim,
    trimmed,
};

verus! {

/// What `char::is_alphanumeric` answers for `c` (Unicode `Alphabetic` or `Numeric`).
pub uninterp spec fn char_is_alphanumeric(c: char) -> bool;

/// `char::is_alphanumeric`: true for Unicode alphabetic or numeric characters.
/// The contract ties the answer to `char_is_alphanumeric`, and says what the
/// standard library documents for ASCII: exactly the letters and digits.
#[verifier::external_body]
pub(crate) fn is_alphanumeric(c: char) -> (b: bool)
    ensures
        b == char_is_alphanumeric(c),
        (c as u32) < 0x80 ==> (b <==> (('a' <= c && c <= 'z') || ('A' <= c && c <= 'Z') || (
        '0' <= c && c <= '9'))),
{
    c.is_alphanumeric()
}

/// Characters a stored filename may keep.
pub open spec fn is_safe_filename_char(c: char) -> bool {
    char_is_alphanumeric(c) || c == ' ' || c == '.' || c == '_' || c == '-'
}

/// The safe characters of `s`, in order.
pub open spec fn keep_safe(s: Seq<char>) -> Seq<char>
    decreases s.len(),
{
    if s.len() == 0 {
        s
    } else if is_safe_filename_char(s.last()) {
        keep_safe(s.drop_last()).push(s.last())
    } else {
        keep_safe(s.drop_last())
    }
}

/// A name made of dots only (`""`, `"."`, `".."`, ...): every piece of
/// `split('.')` is empty.
pub open spec fn dots_only(s: Seq<char>) -> bool {
    forall|i: int| 0 <= i < s.len() ==> s[i] == '.'
}

/// The sanitised form of a client-supplied filename.
pub open spec fn sanitize_spec(name: Seq<char>) -> Seq<char> {
    let t = trim(keep_safe(name));
    if dots_only(t) {
        seq![]
    } else {
        t
    }
}

/// Allowlist sanitising: keeps letters, digits, spaces, dots, underscores and
/// hyphens, trims surrounding whitespace, and rejects (returns `""` for) names
/// made only of dots such as `"."` and `".."`.
pub fn sanitize_filename(name: &str) -> (r: String)
    ensures
        r@ == sanitize_spec(name@),
        forall|i: int|
            0 <= i < r@.len() ==> {
                let c = #[trigger] r@[i];
                c != '/' && c != '\\' && c != '\0' && c != ':'
            },
        r@.len() == 0 || !dots_only(r@),
{
    let cs = chars_of(name);
    let mut kept: Vec<char> = Vec::new();
    let mut i: usize = 0;
    while i < cs.len()
        invariant
            i <= cs.len(),
            kept@ == keep_safe(cs@.subrange(0, i as int)),
            forall|k: int|
                0 <= k < kept@.len() ==> {
                    let c = #[trigger] kept@[k];
                    c != '/' && c != '\\' && c != '\0' && c != ':'
                },
        decreases cs.len() - i,
    {
        let c = cs[i];
        proof {
            assert(cs@.subrange(0, i + 1).drop_last() =~= cs@.subrange(0, i as int));
        }
        if is_alphanumeric(c) || c == ' ' || c == '.' || c == '_' || c == '-' {
            kept.push(c);
        }
        i += 1;
    }
    assert(cs@.subrange(0, cs.len() as int) =~= cs@);
    let t = trimmed(kept.as_slice());
    proof {
        lemma_trim_is_infix(kept@);
        let (lo, hi) = choose|lo: int, hi: int|
            0 <= lo <= hi <= kept@.len() && trim(kept@) == kept@.subrange(lo, hi);
        assert forall|k: int| 0 <= k < t@.len() implies t@[k] == kept@[lo + k] by {}
    }
    let mut all_dots = true;
    let mut j: usize = 0;
    while j < t.len()
        invariant
            j <= t.len(),
            all_dots == (forall|k: int| 0 <= k < j ==> t@[k] == '.'),
        decreases t.len() - j,
    {
        if t[j] != '.' {
            all_dots = false;
        }
        j += 1;
    }
    if all_dots {
        String::new()
    } else {
        string_from_chars(t.as_slice())
    }
}

/// Every character of `keep_safe(s)` is safe.
pub proof fn lemma_keep_safe_only_safe(s: Seq<char>)
    ensures
        forall|i: int| 0 <= i < keep_safe(s).len() ==> is_safe_filename_char(#[trigger] keep_safe(s)[i]),
        keep_safe(s).len() <= s.len(),
    decreases s.len(),
{
    if s.len() > 0 {
        lemma_keep_safe_only_safe(s.drop_last());
    }
}

/// `trim` keeps a contiguous part of its input.
proof fn lemma_trim_is_infix(s: Seq<char>)
    ensures
        exists|lo: int, hi: int| 0 <= lo <= hi <= s.len() && trim(s) == s.subrange(lo, hi),
{
    crate::text::lemma_trim_start_shape(s);
    let t = crate::text::trim_start(s);
    lemma_trim_end_prefix(t);
    let hi2 = crate::text::trim_end(t).len() as int;
    let lo = s.len() - t.len();
    assert(trim(s) =~= s.subrange(lo, lo + hi2));
}

proof fn lemma_trim_end_prefix(s: Seq<char>)
    ensures
        crate::text::trim_end(s).len() <= s.len(),
        crate::text::trim_end(s) == s.subrange(0, crate::text::trim_end(s).len() as int),
    decreases s.len(),
{
    if s.len() > 0 && is_ws(s.last()) {
        lemma_trim_end_prefix(s.drop_last());
        assert(s.drop_last().subrange(0, crate::text::trim_end(s).len() as int) =~= s.subrange(
            0,
            crate::text::trim_end(s).len() as int,
        ));
    } else {
        assert(s.subrange(0, s.len() as int) =~= s);
    }
}


/// `idx` lists, in increasing order, positions of `b` that spell out `a`.
pub open spec fn embeds(a: Seq<char>, b: Seq<char>, idx: Seq<int>) -> bool {
    &&& idx.len() == a.len()
    &&& forall|i: int| 0 <= i < idx.len() ==> 0 <= #[trigger] idx[i] < b.len() && b[idx[i]] == a[i]
    &&& forall|i: int, j: int| 0 <= i < j < idx.len() ==> #[trigger] idx[i] < #[trigger] idx[j]
}

/// `a` is `b` with some characters left out (a subsequence of `b`).
pub open spec fn is_subsequence(a: Seq<char>, b: Seq<char>) -> bool {
    exists|idx: Seq<int>| embeds(a, b, idx)
}

/// The positions of `s` that `keep_safe` keeps.
proof fn lemma_keep_safe_embeds(s: Seq<char>) -> (idx: Seq<int>)
    ensures
        embeds(keep_safe(s), s, idx),
    decreases s.len(),
{
    if s.len() == 0 {
        Seq::empty()
    } else {
        let p = lemma_keep_safe_embeds(s.drop_last());
        assert forall|i: int| 0 <= i < p.len() implies s[#[trigger] p[i]] == s.drop_last()[p[i]] by {}
        if is_safe_filename_char(s.last()) {
            let q = p.push(s.len() - 1);
            assert forall|i: int| 0 <= i < q.len() implies 0 <= #[trigger] q[i] < s.len() && s[q[i]]
                == keep_safe(s)[i] by {
                if i < p.len() {
                    assert(q[i] == p[i]);
                }
            }
            assert forall|i: int, j: int| 0 <= i < j < q.len() implies #[trigger] q[i] < #[trigger] q[j] by {
                if j < p.len() {
                    assert(q[i] == p[i] && q[j] == p[j]);
                } else {
                    assert(q[i] == p[i]);
                }
            }
            q
        } else {
            p
        }
    }
}

/// A name whose characters are all safe keeps all of them.
proof fn lemma_keep_safe_all_safe(s: Seq<char>)
    requires
        forall|i: int| 0 <= i < s.len() ==> is_safe_filename_char(#[trigger] s[i]),
    ensures
        keep_safe(s) == s,
    decreases s.len(),
{
    if s.len() > 0 {
        assert forall|i: int| 0 <= i < s.drop_last().len() implies is_safe_filename_char(
            #[trigger] s.drop_last()[i],
        ) by {
            assert(s.drop_last()[i] == s[i]);
        }
        lemma_keep_safe_all_safe(s.drop_last());
        assert(s.drop_last().push(s.last()) =~= s);
    }
}

/// What `trim_end` leaves does not end in whitespace.
proof fn lemma_trim_end_last(s: Seq<char>)
    ensures
        crate::text::trim_end(s).len() > 0 ==> !is_ws(crate::text::trim_end(s).last()),
    decreases s.len(),
{
    if s.len() > 0 && is_ws(s.last()) {
        lemma_trim_end_last(s.drop_last());
    }
}

/// Trimming twice is trimming once.
proof fn lemma_trim_idempotent(s: Seq<char>)
    ensures
        trim(trim(s)) == trim(s),
{
    crate::text::lemma_trim_start_shape(s);
    let ts = crate::text::trim_start(s);
    lemma_trim_end_prefix(ts);
    lemma_trim_end_last(ts);
    let t = trim(s);
    if t.len() > 0 {
        assert(t[0] == ts[0]);
        assert(crate::text::trim_start(t) == t);
        assert(crate::text::trim_end(t) == t);
    }
}

/// What `sanitize_filename` returns is the client's filename with characters
/// left out, holds only letters, digits, spaces, dots, underscores and hyphens,
/// has no whitespace around it, is empty or not made of dots only, and comes
/// back unchanged when sanitised again.
pub proof fn lemma_sanitize_laws(name: Seq<char>)
    ensures
        is_subsequence(sanitize_spec(name), name),
        forall|i: int| 0 <= i < sanitize_spec(name).len() ==> is_safe_filename_char(#[trigger] sanitize_spec(name)[i]),
        trim(sanitize_spec(name)) == sanitize_spec(name),
        sanitize_spec(name).len() == 0 || !dots_only(sanitize_spec(name)),
        sanitize_spec(sanitize_spec(name)) == sanitize_spec(name),
{
    let k = keep_safe(name);
    let t = trim(k);
    let r = sanitize_spec(name);
    let idx = lemma_keep_safe_embeds(name);
    lemma_keep_safe_only_safe(name);
    lemma_trim_is_infix(k);
    let (lo, hi) = choose|lo: int, hi: int| 0 <= lo <= hi <= k.len() && trim(k) == k.subrange(lo, hi);
    lemma_trim_idempotent(k);
    if dots_only(t) {
        let e: Seq<int> = Seq::empty();
        assert(embeds(r, name, e));
        assert(keep_safe(r) == r);
        assert(dots_only(trim(keep_safe(r))));
    } else {
        let sub = idx.subrange(lo, hi);
        assert forall|i: int| 0 <= i < sub.len() implies 0 <= #[trigger] sub[i] < name.len() && name[sub[i]]
            == r[i] by {
            assert(sub[i] == idx[lo + i]);
            assert(r[i] == k[lo + i]);
        }
        assert forall|i: int, j: int| 0 <= i < j < sub.len() implies #[trigger] sub[i] < #[trigger] sub[j] by {
            assert(sub[i] == idx[lo + i] && sub[j] == idx[lo + j]);
        }
        assert(embeds(r, name, sub));
        assert forall|i: int| 0 <= i < r.len() implies is_safe_filename_char(#[trigger] r[i]) by {
            assert(r[i] == k[lo + i]);
        }
        lemma_keep_safe_all_safe(r);
    }
}


/// The suffix of a file still receiving bytes.
pub open spec fn part_suffix() -> Seq<char> {
    seq!['.', 'p', 'a', 'r', 't']
}

/// The prefix of local staging paths used by the S3 backend.
pub open spec fn staging_prefix() -> Seq<char> {
    seq!['s', 't', 'a', 'g', 'i', 'n', 'g', '/']
}

/// `s` ends with `p`.
pub open spec fn has_suffix(s: Seq<char>, p: Seq<char>) -> bool {
    p.len() <= s.len() && s.subrange(s.len() - p.len(), s.len() as int) == p
}

/// `str::trim_end_matches(".part")`: every trailing `.part` removed.
pub open spec fn strip_part_suffixes(s: Seq<char>) -> Seq<char>
    decreases s.len(),
{
    if has_suffix(s, part_suffix()) {
        strip_part_suffixes(s.subrange(0, s.len() - 5))
    } else {
        s
    }
}

/// `s` without a leading `staging/`, when it has one.
pub open spec fn strip_staging(s: Seq<char>) -> Seq<char> {
    if has_prefix(s, staging_prefix()) {
        s.subrange(8, s.len() as int)
    } else {
        s
    }
}

/// The stored name of an upload: `{id}/{name}` when the client's filename
/// sanitises to something non-empty, else just `{id}`.
pub open spec fn stored_name(id: Seq<char>, filename: Option<Seq<char>>) -> Seq<char> {
    match filename {
        Some(f) => if sanitize_spec(f).len() > 0 {
            id + seq!['/'] + sanitize_spec(f)
        } else {
            id
        },
        None => id,
    }
}

pub open spec fn opt_view(o: Option<&str>) -> Option<Seq<char>> {
    match o {
        Some(s) => Some(s@),
        None => None,
    }
}

fn ends_with_part(s: &[char], n: usize) -> (b: bool)
    requires
        n <= s.len(),
    ensures
        b == has_suffix(s@.subrange(0, n as int), part_suffix()),
{
    if n < 5 {
        return false;
    }
    let r = s[n - 5] == '.' && s[n - 4] == 'p' && s[n - 3] == 'a' && s[n - 2] == 'r' && s[n - 1]
        == 't';
    proof {
        let t = s@.subrange(0, n as int);
        if r {
            assert(t.subrange(t.len() - 5, t.len() as int) =~= part_suffix());
        } else {
            let u = t.subrange(t.len() - 5, t.len() as int);
            assert(u != part_suffix()) by {
                if u == part_suffix() {
                    assert(u[0] == '.' && u[1] == 'p' && u[2] == 'a' && u[3] == 'r' && u[4] == 't');
                }
            }
        }
    }
    r
}

/// The characters of `path` with every trailing `.part` removed.
fn strip_part_chars(path: &[char]) -> (v: Vec<char>)
    ensures
        v@ == strip_part_suffixes(path@),
{
    let mut n = path.len();
    proof {
        assert(path@.subrange(0, n as int) =~= path@);
    }
    while ends_with_part(path, n)
        invariant
            n <= path.len(),
            strip_part_suffixes(path@) == strip_part_suffixes(path@.subrange(0, n as int)),
        decreases n,
    {
        proof {
            assert(path@.subrange(0, n as int).subrange(0, n - 5) =~= path@.subrange(0, n - 5));
        }
        n -= 5;
    }
    slice_vec(path, 0, n)
}

/// The characters of `path` without a leading `staging/`.
fn strip_staging_chars(path: &[char]) -> (v: Vec<char>)
    ensures
        v@ == strip_staging(path@),
{
    let p = ['s', 't', 'a', 'g', 'i', 'n', 'g', '/'];
    assert(p@ =~= staging_prefix());
    if starts_with(path, p.as_slice()) {
        slice_vec(path, 8, path.len())
    } else {
        slice_vec(path, 0, path.len())
    }
}

fn stored_name_string(prefix: &str, id: &[char], filename: Option<&str>) -> (r: String)
    ensures
        r@ == prefix@ + stored_name(id@, opt_view(filename)),
{
    let mut out = string_from_chars(chars_of(prefix).as_slice());
    append_chars(&mut out, id);
    match filename {
        Some(f) => {
            let name = sanitize_filename(f);
            let nc = chars_of(name.as_str());
            if nc.len() > 0 {
                push_char(&mut out, '/');
                append_chars(&mut out, nc.as_slice());
                assert(out@ =~= prefix@ + (id@ + seq!['/'] + sanitize_spec(f@)));
            } else {
                assert(out@ =~= prefix@ + id@);
            }
        },
        None => {
            assert(out@ =~= prefix@ + id@);
        },
    }
    out
}

/// The path, relative to the storage directory, that a finished upload is
/// renamed to: the upload ID (its `.part` name without the suffix), followed by
/// `/` and the sanitised filename when there is one.
pub fn finalized_path(part_path: &str, filename: Option<&str>) -> (r: String)
    ensures
        r@ == stored_name(strip_part_suffixes(part_path@), opt_view(filename)),
{
    let id = strip_part_chars(chars_of(part_path).as_slice());
    let r = stored_name_string("", id.as_slice(), filename);
    proof {
        assert(""@.len() == 0) by {
            reveal_strlit("");
        }
        assert(r@ =~= stored_name(id@, opt_view(filename)));
    }
    r
}

/// The S3 object key for an upload: the configured prefix, the upload ID, and
/// `/{sanitised filename}` when there is one.
pub fn s3_key(prefix: &str, upload_id: &str, filename: Option<&str>) -> (r: String)
    ensures
        r@ == prefix@ + stored_name(upload_id@, opt_view(filename)),
{
    let id = chars_of(upload_id);
    stored_name_string(prefix, id.as_slice(), filename)
}

/// The upload ID encoded in an S3 staging path `staging/{id}.part`.
pub fn s3_upload_id(path: &str) -> (r: String)
    ensures
        r@ == strip_part_suffixes(strip_staging(path@)),
{
    let rel = strip_staging_chars(chars_of(path).as_slice());
    let id = strip_part_chars(rel.as_slice());
    string_from_chars(id.as_slice())
}

/// The file name of a staging path inside the staging directory.
pub fn staging_relative(path: &str) -> (r: String)
    ensures
        r@ == strip_staging(path@),
{
    string_from_chars(strip_staging_chars(chars_of(path).as_slice()).as_slice())
}

/// The name of the empty file an upload starts as: `{id}.part`.
pub fn part_file_name(upload_id: &str) -> (r: String)
    ensures
        r@ == upload_id@ + part_suffix(),
{
    let mut out = string_from_chars(chars_of(upload_id).as_slice());
    let suffix = ['.', 'p', 'a', 'r', 't'];
    append_chars(&mut out, suffix.as_slice());
    assert(suffix@ =~= part_suffix());
    out
}

/// A finished upload's stored name never ends in `.part`, so it is never taken
/// for a file still receiving bytes; and it starts with the upload ID.
pub proof fn lemma_finalized_path_shape(part_path: Seq<char>, filename: Option<Seq<char>>)
    ensures
        has_prefix(
            stored_name(strip_part_suffixes(part_path), filename),
            strip_part_suffixes(part_path),
        ),
        filename is None ==> !has_suffix(
            stored_name(strip_part_suffixes(part_path), filename),
            part_suffix(),
        ),
{
    lemma_strip_part_no_suffix(part_path);
    let id = strip_part_suffixes(part_path);
    let r = stored_name(id, filename);
    assert(r.subrange(0, id.len() as int) =~= id);
}

/// The upload ID is recovered from the file an upload is written to: from its
/// part file `{id}.part`, and from its S3 staging path `staging/{id}.part`,
/// for an ID that does not itself end in `.part`.
pub proof fn lemma_part_paths_keep_id(id: Seq<char>)
    requires
        !has_suffix(id, part_suffix()),
    ensures
        strip_part_suffixes(id + part_suffix()) == id,
        strip_part_suffixes(strip_staging(staging_prefix() + id + part_suffix())) == id,
{
    let p = id + part_suffix();
    assert(p.subrange(p.len() - 5, p.len() as int) =~= part_suffix());
    assert(p.subrange(0, p.len() - 5) =~= id);
    assert(has_suffix(p, part_suffix()));
    assert(strip_part_suffixes(id) == id);
    assert(strip_part_suffixes(p) == strip_part_suffixes(id));
    let q = staging_prefix() + id + part_suffix();
    assert(q.subrange(0, 8) =~= staging_prefix());
    assert(has_prefix(q, staging_prefix()));
    assert(q.subrange(8, q.len() as int) =~= p);
    assert(strip_staging(q) == p);
}

proof fn lemma_strip_part_no_suffix(s: Seq<char>)
    ensures
        !has_suffix(strip_part_suffixes(s), part_suffix()),
    decreases s.len(),
{
    if has_suffix(s, part_suffix()) {
        lemma_strip_part_no_suffix(s.subrange(0, s.len() - 5));
    }
}

} // verus!
