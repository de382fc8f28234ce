//! The `Upload-Concat: final ...` header of the TUS concatenation extension.
use vstd::prelude::*;
use crate::text::{
    chars_of, has_prefix, is_whitespace, is_ws, last_piece, lemma_words_empty,
    lemma_words_skip_ws, lemma_words_take_word, rfind, slice_vec, starts_with, string_from_chars,
    trim, trimmed, words,
};

verus! {

/// The keyword that opens a concat-final header.
pub open spec fn final_keyword() -> Seq<char> {
    seq!['f', 'i', 'n', 'a', 'l']
}

/// Characters skipped between `final` and the first URL.
pub open spec fn is_url_separator(c: char) -> bool {
    is_ws(c) || c == ';'
}

/// `s` without its leading whitespace and semicolons.
pub open spec fn skip_separators(s: Seq<char>) -> Seq<char>
    decreases s.len(),
{
    if s.len() > 0 && is_url_separator(s[0]) {
        skip_separators(s.drop_first())
    } else {
        s
    }
}

/// The upload ID of each URL (its last path segment), empty IDs left out.
pub open spec fn ids_of(urls: Seq<Seq<char>>) -> Seq<Seq<char>>
    decreases urls.len(),
{
    if urls.len() == 0 {
        seq![]
    } else {
        let id = last_piece(urls[0], '/');
        (if id.len() > 0 {
            seq![id]
        } else {
            seq![]
        }) + ids_of(urls.drop_first())
    }
}

/// The partial upload IDs named by an `Upload-Concat` value, or `None` when it
/// does not start with `final`.
pub open spec fn concat_final_ids_spec(value: Seq<char>) -> Option<Seq<Seq<char>>> {
    let t = trim(value);
    if has_prefix(t, final_keyword()) {
        Some(ids_of(words(skip_separators(t.subrange(5, t.len() as int)))))
    } else {
        None
    }
}

proof fn lemma_ids_of_cons(w: Seq<char>, rest: Seq<Seq<char>>)
    ensures
        ids_of(seq![w] + rest) == (if last_piece(w, '/').len() > 0 {
            seq![last_piece(w, '/')]
        } else {
            seq![]
        }) + ids_of(rest),
{
    assert((seq![w] + rest).drop_first() =~= rest);
    assert((seq![w] + rest)[0] == w);
}

/// Parses an `Upload-Concat: final ...` header value and returns the upload IDs.
/// Returns `None` if the value does not start with `final`.
/// Accepts `final ;urls`, `final;urls`, or any whitespace/semicolon combination;
/// each URL contributes its last path segment.
pub fn parse_concat_final_ids(value: &str) -> (r: Option<Vec<String>>)
    ensures
        match concat_final_ids_spec(value@) {
            None => r is None,
            Some(ids) => r is Some && r->0.len() == ids.len() && forall|i: int|
                0 <= i < ids.len() ==> (#[trigger] r->0[i])@ == ids[i],
        },
{
    let v = chars_of(value);
    let t = trimmed(v.as_slice());
    let kw = ['f', 'i', 'n', 'a', 'l'];
    assert(kw@ =~= final_keyword());
    if !starts_with(t.as_slice(), kw.as_slice()) {
        return None;
    }
    let rest = slice_vec(t.as_slice(), 5, t.len());
    let n = rest.len();
    let mut i: usize = 0;
    proof {
        assert(rest@.subrange(0, n as int) =~= rest@);
    }
    while i < n && (is_whitespace(rest[i]) || rest[i] == ';')
        invariant
            i <= n == rest.len(),
            skip_separators(rest@) == skip_separators(rest@.subrange(i as int, n as int)),
        decreases n - i,
    {
        proof {
            assert(rest@.subrange(i as int, n as int).drop_first() =~= rest@.subrange(
                i + 1,
                n as int,
            ));
        }
        i += 1;
    }
    let u = slice_vec(rest.as_slice(), i, n);
    assert(skip_separators(rest@) == u@);
    let m = u.len();
    let mut out: Vec<String> = Vec::new();
    let ghost mut outv: Seq<Seq<char>> = seq![];
    let mut j: usize = 0;
    proof {
        assert(u@.subrange(0, m as int) =~= u@);
    }
    while j < m
        invariant
            j <= m == u.len(),
            ids_of(words(u@)) == outv + ids_of(words(u@.subrange(j as int, m as int))),
            out.len() == outv.len(),
            forall|k: int| 0 <= k < outv.len() ==> (#[trigger] out[k])@ == outv[k],
        decreases m - j,
    {
        if is_whitespace(u[j]) {
            proof {
                lemma_words_skip_ws(u@, j as int);
            }
            j += 1;
        } else {
            let mut k = j + 1;
            while k < m && !is_whitespace(u[k])
                invariant
                    j < k <= m == u.len(),
                    forall|x: int| j <= x < k ==> !is_ws(#[trigger] u@[x]),
                decreases m - k,
            {
                k += 1;
            }
            let word = slice_vec(u.as_slice(), j, k);
            proof {
                lemma_words_take_word(u@, j as int, k as int);
                lemma_ids_of_cons(word@, words(u@.subrange(k as int, m as int)));
            }
            let start = match rfind(word.as_slice(), '/') {
                Some(p) => p + 1,
                None => 0,
            };
            let id = slice_vec(word.as_slice(), start, word.len());
            assert(id@ == last_piece(word@, '/'));
            if id.len() > 0 {
                out.push(string_from_chars(id.as_slice()));
                proof {
                    let old_outv = outv;
                    outv = outv.push(id@);
                    assert(old_outv + (seq![id@] + ids_of(words(u@.subrange(k as int, m as int))))
                        =~= outv + ids_of(words(u@.subrange(k as int, m as int))));
                }
            } else {
                proof {
                    assert(outv + (Seq::<Seq<char>>::empty() + ids_of(
                        words(u@.subrange(k as int, m as int)),
                    )) =~= outv + ids_of(words(u@.subrange(k as int, m as int))));
                }
            }
            j = k;
        }
    }
    proof {
        lemma_words_empty(u@.subrange(m as int, m as int));
        assert(outv + Seq::<Seq<char>>::empty() =~= outv);
    }
    Some(out)
}

/// A concat-final header is recognised exactly when its trimmed value starts
/// with `final`, and every ID it yields is a non-empty last path segment (it
/// holds no `/`).
pub proof fn lemma_final_ids_shape(value: Seq<char>)
    ensures
        concat_final_ids_spec(value) is Some <==> has_prefix(trim(value), final_keyword()),
        concat_final_ids_spec(value) matches Some(ids) ==> forall|i: int| 0 <= i < ids.len() ==> (#[trigger] ids[i]).len() > 0
            && forall|j: int| 0 <= j < ids[i].len() ==> ids[i][j] != '/',
{
    let t = trim(value);
    if has_prefix(t, final_keyword()) {
        lemma_ids_segments(words(skip_separators(t.subrange(5, t.len() as int))));
    }
}

proof fn lemma_ids_segments(urls: Seq<Seq<char>>)
    ensures
        forall|i: int| 0 <= i < ids_of(urls).len() ==> (#[trigger] ids_of(urls)[i]).len() > 0 && forall|j: int|
            0 <= j < ids_of(urls)[i].len() ==> ids_of(urls)[i][j] != '/',
    decreases urls.len(),
{
    if urls.len() > 0 {
        lemma_ids_segments(urls.drop_first());
        let w = urls[0];
        let id = last_piece(w, '/');
        crate::text::lemma_rfind_char(w, '/');
        assert forall|j: int| 0 <= j < id.len() implies id[j] != '/' by {
            assert(id[j] == w[crate::text::rfind_char(w, '/') + 1 + j]);
        }
        let head: Seq<Seq<char>> = if id.len() > 0 { seq![id] } else { seq![] };
        assert(ids_of(urls) == head + ids_of(urls.drop_first()));
        assert forall|i: int| 0 <= i < ids_of(urls).len() implies (#[trigger] ids_of(urls)[i]).len() > 0 && forall|j: int|
            0 <= j < ids_of(urls)[i].len() ==> ids_of(urls)[i][j] != '/' by {
            if i < head.len() {
                assert(ids_of(urls)[i] == id);
            } else {
                assert(ids_of(urls)[i] == ids_of(urls.drop_first())[i - head.len()]);
            }
        }
    }
}

} // verus!
