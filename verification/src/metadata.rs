//! The `Upload-Metadata` header: comma-separated `key base64value` pairs.
use vstd::prelude::*;
use vstd::utf8::{decode_utf8, valid_utf8};
use crate::codec::{
    base64_decode, base64_standard_decode, json_object, json_object_text, json_string_map, pairs_view,
    string_from_utf8, utf8_error_text,
};
use crate::protocol::{content_type_spec, declared_type};
use crate::status::{TusError, TusErrorView};
use crate::text::{
    append_str, chars_of, find, find_char, lemma_find_char, opt_chars, opt_str_chars, slice_vec,
    split_pieces, str_eq, string_from_chars, trim, trimmed,
};

verus! {

/// The error text for a value that is not valid base64.
pub open spec fn base64_error(key: Seq<char>, e: Seq<char>) -> Seq<char> {
    "base64 decode error for '"@ + key + "': "@ + e
}

/// The error text for a value whose bytes are not UTF-8.
pub open spec fn utf8_error(key: Seq<char>, bytes: Seq<u8>) -> Seq<char> {
    "utf-8 error for '"@ + key + "': "@ + utf8_error_text(bytes)
}

/// One trimmed, non-empty part: the key up to the first space, and the decoded
/// value after it (empty when there is no space).
pub open spec fn entry_spec(part: Seq<char>) -> Result<(Seq<char>, Seq<char>), Seq<char>> {
    let i = find_char(part, ' ');
    if i < 0 {
        Ok((part, seq![]))
    } else {
        let key = part.subrange(0, i);
        match base64_standard_decode(trim(part.subrange(i + 1, part.len() as int))) {
            Err(e) => Err(base64_error(key, e)),
            Ok(bytes) => if valid_utf8(bytes) {
                Ok((key, decode_utf8(bytes)))
            } else {
                Err(utf8_error(key, bytes))
            },
        }
    }
}

/// A metadata part without a space is a key with an empty value, and is never
/// refused; a part with a space is split at its first space, so the key is
/// exactly the text before it and holds no space.
pub proof fn lemma_entry_key_and_value(part: Seq<char>)
    ensures
        (forall|j: int| 0 <= j < part.len() ==> part[j] != ' ') ==> entry_spec(part) == Ok::<
            (Seq<char>, Seq<char>),
            Seq<char>,
        >((part, seq![])),
        entry_spec(part) is Err ==> exists|j: int| 0 <= j < part.len() && part[j] == ' ',
        entry_spec(part) matches Ok((k, v)) ==> (forall|j: int| 0 <= j < k.len() ==> k[j] != ' ') && (k
            == part || (k.len() < part.len() && part.subrange(0, k.len() as int) == k && part[k.len() as int]
            == ' ')),
{
    lemma_find_char(part, ' ');
    if forall|j: int| 0 <= j < part.len() ==> part[j] != ' ' {
        crate::text::lemma_find_none(part, ' ');
    }
}

/// `key` is already among the keys of `acc`.
pub open spec fn has_key(acc: Seq<(Seq<char>, Seq<char>)>, key: Seq<char>) -> bool {
    exists|j: int| 0 <= j < acc.len() && #[trigger] acc[j].0 == key
}

/// Adds the parts `pieces` to the pairs `acc`, in order: empty parts are
/// skipped; the first bad value or repeated key is the error.
pub open spec fn fold_spec(pieces: Seq<Seq<char>>, acc: Seq<(Seq<char>, Seq<char>)>) -> Result<
    Seq<(Seq<char>, Seq<char>)>,
    Seq<char>,
>
    decreases pieces.len(),
{
    if pieces.len() == 0 {
        Ok(acc)
    } else {
        let p = trim(pieces[0]);
        if p.len() == 0 {
            fold_spec(pieces.drop_first(), acc)
        } else {
            match entry_spec(p) {
                Err(e) => Err(e),
                Ok((k, v)) => if has_key(acc, k) {
                    Err("duplicate metadata key: "@ + k)
                } else {
                    fold_spec(pieces.drop_first(), acc.push((k, v)))
                },
            }
        }
    }
}

/// The pairs of an `Upload-Metadata` header, in header order, or the error text.
pub open spec fn metadata_spec(header: Seq<char>) -> Result<Seq<(Seq<char>, Seq<char>)>, Seq<char>> {
    fold_spec(split_pieces(header, ','), seq![])
}

/// Pairs of strings, taken by characters.
pub open spec fn pairs_of(v: Seq<(String, String)>) -> Seq<(Seq<char>, Seq<char>)> {
    Seq::new(v.len(), |i: int| (v[i].0@, v[i].1@))
}

fn decode_entry(part: &[char]) -> (r: Result<(String, String), String>)
    requires
        part@.len() > 0,
    ensures
        match entry_spec(part@) {
            Ok((k, v)) => r matches Ok(p) && p.0@ == k && p.1@ == v,
            Err(e) => r matches Err(m) && m@ == e,
        },
{
    match find(part, ' ') {
        None => Ok((string_from_chars(part), String::new())),
        Some(i) => {
            let key = string_from_chars(slice_vec(part, 0, i).as_slice());
            let b64 = string_from_chars(trimmed(slice_vec(part, i + 1, part.len()).as_slice()).as_slice());
            match base64_decode(b64.as_str()) {
                Err(e) => {
                    let mut m = "base64 decode error for '".to_owned();
                    append_str(&mut m, key.as_str());
                    append_str(&mut m, "': ");
                    append_str(&mut m, e.as_str());
                    Err(m)
                },
                Ok(bytes) => {
                    let ghost b = bytes@;
                    match string_from_utf8(bytes) {
                        Ok(value) => Ok((key, value)),
                        Err(e) => {
                            let mut m = "utf-8 error for '".to_owned();
                            append_str(&mut m, key.as_str());
                            append_str(&mut m, "': ");
                            append_str(&mut m, e.as_str());
                            assert(m@ == utf8_error(key@, b));
                            Err(m)
                        },
                    }
                },
            }
        },
    }
}

fn contains_key(acc: &Vec<(String, String)>, key: &String) -> (r: bool)
    ensures
        r == has_key(pairs_of(acc@), key@),
{
    let mut j: usize = 0;
    while j < acc.len()
        invariant
            j <= acc.len(),
            forall|x: int| 0 <= x < j ==> acc@[x].0@ != key@,
        decreases acc.len() - j,
    {
        if str_eq(acc[j].0.as_str(), key.as_str()) {
            assert(pairs_of(acc@)[j as int].0 == key@);
            return true;
        }
        j += 1;
    }
    assert forall|x: int| 0 <= x < pairs_of(acc@).len() implies #[trigger] pairs_of(acc@)[x].0 != key@ by {}
    false
}

proof fn lemma_fold_cons(p: Seq<char>, rest: Seq<Seq<char>>, acc: Seq<(Seq<char>, Seq<char>)>)
    ensures
        fold_spec(seq![p] + rest, acc) == ({
            let t = trim(p);
            if t.len() == 0 {
                fold_spec(rest, acc)
            } else {
                match entry_spec(t) {
                    Err(e) => Err(e),
                    Ok((k, v)) => if has_key(acc, k) {
                        Err("duplicate metadata key: "@ + k)
                    } else {
                        fold_spec(rest, acc.push((k, v)))
                    },
                }
            }
        }),
{
    assert((seq![p] + rest).drop_first() =~= rest);
    assert((seq![p] + rest)[0] == p);
}

/// Parses an `Upload-Metadata` header into its `(key, value)` pairs, in header
/// order.  Parts are separated by commas and trimmed; empty parts are skipped.
/// A part is `key` or `key base64value`; the value must decode to UTF-8.
/// A repeated key is an error.
pub fn parse(header: &str) -> (r: Result<Vec<(String, String)>, String>)
    ensures
        match metadata_spec(header@) {
            Ok(pairs) => r matches Ok(v) && pairs_of(v@) == pairs,
            Err(e) => r matches Err(m) && m@ == e,
        },
{
    let mut rest = chars_of(header);
    let mut acc: Vec<(String, String)> = Vec::new();
    assert(pairs_of(acc@) =~= Seq::<(Seq<char>, Seq<char>)>::empty());
    loop
        invariant
            metadata_spec(header@) == fold_spec(split_pieces(rest@, ','), pairs_of(acc@)),
        decreases rest.len(),
    {
        let found = find(rest.as_slice(), ',');
        let (piece, next) = match found {
            Some(i) => (slice_vec(rest.as_slice(), 0, i), Some(slice_vec(rest.as_slice(), i + 1, rest.len()))),
            None => (slice_vec(rest.as_slice(), 0, rest.len()), None),
        };
        proof {
            lemma_find_char(rest@, ',');
            match found {
                Some(i) => {
                    lemma_fold_cons(piece@, split_pieces(next->0@, ','), pairs_of(acc@));
                },
                None => {
                    assert(piece@ =~= rest@);
                    lemma_fold_cons(piece@, Seq::<Seq<char>>::empty(), pairs_of(acc@));
                    assert(seq![piece@] + Seq::<Seq<char>>::empty() =~= seq![piece@]);
                },
            }
        }
        let part = trimmed(piece.as_slice());
        let ghost pieces_after = if next is Some {
            split_pieces(next->0@, ',')
        } else {
            Seq::<Seq<char>>::empty()
        };
        assert(split_pieces(rest@, ',') == seq![piece@] + pieces_after);
        if part.len() > 0 {
            match decode_entry(part.as_slice()) {
                Err(e) => {
                    return Err(e);
                },
                Ok((k, v)) => {
                    if contains_key(&acc, &k) {
                        let mut m = "duplicate metadata key: ".to_owned();
                        append_str(&mut m, k.as_str());
                        return Err(m);
                    }
                    let ghost kv = (k@, v@);
                    let ghost old_pairs = pairs_of(acc@);
                    acc.push((k, v));
                    assert(pairs_of(acc@) =~= old_pairs.push(kv));
                },
            }
        }
        match next {
            Some(n) => {
                rest = n;
            },
            None => {
                proof {
                    assert(fold_spec(Seq::<Seq<char>>::empty(), pairs_of(acc@)) == Ok::<
                        Seq<(Seq<char>, Seq<char>)>,
                        Seq<char>,
                    >(pairs_of(acc@)));
                }
                return Ok(acc);
            },
        }
    }
}

/// Value of the first pair whose key is `key`.
pub open spec fn lookup(pairs: Seq<(Seq<char>, Seq<char>)>, key: Seq<char>) -> Option<Seq<char>>
    decreases pairs.len(),
{
    if pairs.len() == 0 {
        None
    } else if pairs[0].0 == key {
        Some(pairs[0].1)
    } else {
        lookup(pairs.drop_first(), key)
    }
}

/// The value stored under `key`, if any.
pub fn get(metadata: &[(String, String)], key: &str) -> (r: Option<String>)
    ensures
        match lookup(pairs_of(metadata@), key@) {
            Some(v) => r matches Some(s) && s@ == v,
            None => r is None,
        },
{
    let mut i: usize = 0;
    assert(pairs_of(metadata@).subrange(0, metadata.len() as int) =~= pairs_of(metadata@));
    while i < metadata.len()
        invariant
            i <= metadata.len(),
            lookup(pairs_of(metadata@), key@) == lookup(pairs_of(metadata@).subrange(i as int, metadata.len() as int), key@),
        decreases metadata.len() - i,
    {
        proof {
            assert(pairs_of(metadata@).subrange(i as int, metadata.len() as int).drop_first() =~= pairs_of(metadata@).subrange(i + 1, metadata.len() as int));
        }
        if str_eq(metadata[i].0.as_str(), key) {
            return Some(metadata[i].1.clone());
        }
        i += 1;
    }
    None
}

/// The filename a client gave: the `filename` entry, else the `name` entry.
pub fn get_filename(metadata: &[(String, String)]) -> (r: Option<String>)
    ensures
        match lookup(pairs_of(metadata@), "filename"@) {
            Some(v) => r matches Some(s) && s@ == v,
            None => match lookup(pairs_of(metadata@), "name"@) {
                Some(v) => r matches Some(s) && s@ == v,
                None => r is None,
            },
        },
{
    match get(metadata, "filename") {
        Some(f) => Some(f),
        None => get(metadata, "name"),
    }
}

/// A lookup finds the value of the first pair with the key, and finds
/// nothing when no pair has it.
pub proof fn lemma_lookup_first(pairs: Seq<(Seq<char>, Seq<char>)>, key: Seq<char>)
    ensures
        lookup(pairs, key) matches Some(v) ==> exists|i: int| 0 <= i < pairs.len() && pairs[i] == (key, v) && forall|j: int|
            0 <= j < i ==> pairs[j].0 != key,
        (forall|i: int| 0 <= i < pairs.len() ==> pairs[i].0 != key) ==> lookup(pairs, key) is None,
    decreases pairs.len(),
{
    if pairs.len() > 0 {
        lemma_lookup_first(pairs.drop_first(), key);
        if pairs[0].0 != key {
            if lookup(pairs, key) is Some {
                let v = lookup(pairs, key)->0;
                let i = choose|i: int| 0 <= i < pairs.drop_first().len() && pairs.drop_first()[i] == (key, v) && forall|j: int|
                    0 <= j < i ==> pairs.drop_first()[j].0 != key;
                assert(pairs[i + 1] == (key, v));
                assert forall|j: int| 0 <= j < i + 1 implies pairs[j].0 != key by {
                    if j > 0 {
                        assert(pairs[j] == pairs.drop_first()[j - 1]);
                    }
                }
            }
            if forall|i: int| 0 <= i < pairs.len() ==> pairs[i].0 != key {
                assert forall|i: int| 0 <= i < pairs.drop_first().len() implies pairs.drop_first()[i].0 != key by {
                    assert(pairs.drop_first()[i] == pairs[i + 1]);
                }
            }
        }
    }
}

/// A new upload is named by its `filename` entry, else by its `name` entry;
/// without an `Upload-Metadata` header it has neither name nor metadata, and
/// with a well-formed one it stores the pairs as JSON; a malformed header is
/// refused as an invalid header.
pub proof fn lemma_upload_metadata_naming(header: Option<Seq<char>>)
    ensures
        header is None ==> upload_metadata_spec(header) == Ok::<(Option<Seq<char>>, Option<Seq<char>>), TusErrorView>((None, None)),
        header matches Some(h) ==> (metadata_spec(h) matches Ok(pairs) ==> upload_metadata_spec(header) == Ok::<
            (Option<Seq<char>>, Option<Seq<char>>),
            TusErrorView,
        >((if lookup(pairs, "filename"@) is Some { lookup(pairs, "filename"@) } else { lookup(pairs, "name"@) }, Some(
            json_object_text(pairs),
        )))),
        header matches Some(h) ==> (metadata_spec(h) matches Err(e) ==> upload_metadata_spec(header) == Err::<
            (Option<Seq<char>>, Option<Seq<char>>),
            TusErrorView,
        >(TusErrorView::InvalidHeader(e))),
{
}

/// A successfully parsed header never holds the same key twice.
pub proof fn lemma_metadata_keys_distinct(header: Seq<char>)
    requires
        metadata_spec(header) is Ok,
    ensures
        forall|i: int, j: int|
            0 <= i < j < metadata_spec(header)->Ok_0.len() ==> #[trigger] metadata_spec(header)->Ok_0[i].0
                != #[trigger] metadata_spec(header)->Ok_0[j].0,
{
    lemma_fold_distinct(split_pieces(header, ','), seq![]);
}

proof fn lemma_fold_distinct(pieces: Seq<Seq<char>>, acc: Seq<(Seq<char>, Seq<char>)>)
    requires
        forall|i: int, j: int| 0 <= i < j < acc.len() ==> #[trigger] acc[i].0 != #[trigger] acc[j].0,
        fold_spec(pieces, acc) is Ok,
    ensures
        forall|i: int, j: int|
            0 <= i < j < fold_spec(pieces, acc)->Ok_0.len() ==> #[trigger] fold_spec(pieces, acc)->Ok_0[i].0
                != #[trigger] fold_spec(pieces, acc)->Ok_0[j].0,
    decreases pieces.len(),
{
    if pieces.len() > 0 {
        let p = trim(pieces[0]);
        if p.len() == 0 {
            lemma_fold_distinct(pieces.drop_first(), acc);
        } else {
            let (k, v) = entry_spec(p)->Ok_0;
            let acc2 = acc.push((k, v));
            assert forall|i: int, j: int| 0 <= i < j < acc2.len() implies #[trigger] acc2[i].0 != #[trigger] acc2[j].0 by {
                if j == acc.len() {
                    if acc2[i].0 == k {
                        assert(acc[i].0 == k);
                    }
                }
            }
            lemma_fold_distinct(pieces.drop_first(), acc2);
        }
    }
}

/// What an upload records of its `Upload-Metadata` header: the file name it
/// gives and the pairs as a JSON object; a malformed header is refused.
pub open spec fn upload_metadata_spec(header: Option<Seq<char>>) -> Result<
    (Option<Seq<char>>, Option<Seq<char>>),
    TusErrorView,
> {
    match header {
        None => Ok((None, None)),
        Some(h) => match metadata_spec(h) {
            Err(e) => Err(TusErrorView::InvalidHeader(e)),
            Ok(pairs) => Ok((
                match lookup(pairs, "filename"@) {
                    Some(f) => Some(f),
                    None => lookup(pairs, "name"@),
                },
                Some(json_object_text(pairs)),
            )),
        },
    }
}

/// Reads the `Upload-Metadata` header of a new upload into its file name and
/// stored metadata.
pub fn upload_metadata(header: Option<&str>) -> (r: Result<(Option<String>, Option<String>), TusError>)
    ensures
        match upload_metadata_spec(opt_str_chars(header)) {
            Ok((f, j)) => r matches Ok((x, y)) && opt_chars(x) == f && opt_chars(y) == j,
            Err(e) => r matches Err(x) && x@ == e,
        },
        header matches Some(h) ==> (metadata_spec(h@) is Ok ==> (r matches Ok((_, Some(j)))
            && content_type_spec(Some(j@)) == declared_type(metadata_spec(h@)->Ok_0))),
{
    let h = match header {
        None => {
            return Ok((None, None));
        },
        Some(h) => h,
    };
    let pairs = match parse(h) {
        Err(e) => {
            return Err(TusError::InvalidHeader(e));
        },
        Ok(p) => p,
    };
    let filename = get_filename(pairs.as_slice());
    proof {
        lemma_metadata_keys_distinct(h@);
        assert forall|i: int, j: int| 0 <= i < j < pairs@.len() implies #[trigger] pairs@[i].0@
            != #[trigger] pairs@[j].0@ by {
            assert(pairs_of(pairs@)[i].0 == pairs@[i].0@);
            assert(pairs_of(pairs@)[j].0 == pairs@[j].0@);
        }
    }
    let json = json_object(pairs.as_slice());
    assert(pairs_view(pairs@) =~= pairs_of(pairs@));
    proof {
        let m = json_string_map(json@)->0;
        assert(lookup(m, "filetype"@) == lookup(pairs_view(pairs@), "filetype"@));
        assert(lookup(m, "type"@) == lookup(pairs_view(pairs@), "type"@));
    }
    Ok((filename, Some(json)))
}

} // verus!
