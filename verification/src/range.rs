//! `Range: bytes=...` request header for downloads of finalized uploads.
use vstd::prelude::*;
use crate::text::{
    all_digits, chars_of, dec_value, find, find_char, first_piece, has_prefix, parse_unsigned, parse_unsigned_spec, slice_vec,
    starts_with, trim, trimmed,
};

verus! {

/// The unit prefix `bytes=`.
pub open spec fn bytes_unit() -> Seq<char> {
    seq!['b', 'y', 't', 'e', 's', '=']
}

/// Endpoints `(start, end)` named by a single range spec `first-last` or `-suffix`,
/// before they are checked against the file size.  `Err` when a number does not parse.
pub open spec fn range_endpoints(spec: Seq<char>, total: nat) -> Option<Result<(nat, nat), ()>> {
    let i = find_char(spec, '-');
    if i < 0 {
        None
    } else {
        let s = trim(spec.subrange(0, i));
        let e = trim(spec.subrange(i + 1, spec.len() as int));
        if s.len() == 0 {
            match parse_unsigned_spec(e, u64::MAX as nat) {
                None => Some(Err(())),
                Some(n) => Some(Ok((if n >= total { 0 } else { (total - n) as nat }, (total - 1) as nat))),
            }
        } else {
            match parse_unsigned_spec(s, u64::MAX as nat) {
                None => Some(Err(())),
                Some(start) => if e.len() == 0 {
                    Some(Ok((start, (total - 1) as nat)))
                } else {
                    match parse_unsigned_spec(e, u64::MAX as nat) {
                        None => Some(Err(())),
                        Some(end) => Some(Ok((start, end))),
                    }
                },
            }
        }
    }
}

/// What a `Range` header asks of a file of `total` bytes:
/// `Ok(None)` serve the whole file, `Ok(Some((offset, length)))` serve that part,
/// `Err(())` the range cannot be satisfied.
pub open spec fn range_spec(header: Option<Seq<char>>, total: nat) -> Result<Option<(nat, nat)>, ()> {
    match header {
        None => Ok(None),
        Some(v) => if !has_prefix(v, bytes_unit()) {
            Ok(None)
        } else {
            let spec = trim(first_piece(v.subrange(6, v.len() as int), ','));
            match range_endpoints(spec, total) {
                None => Ok(None),
                Some(Err(())) => Err(()),
                Some(Ok((start, end))) => if start >= total || start > end {
                    Err(())
                } else {
                    let last = if end < total - 1 { end } else { (total - 1) as nat };
                    Ok(Some((start, (last - start + 1) as nat)))
                },
            }
        },
    }
}

/// The range a header asks for is counted from the file's last byte: a suffix
/// range `-n`, or an open range `start-`, whose number parses.
pub open spec fn range_needs_last_byte(header: Option<Seq<char>>) -> bool {
    match header {
        None => false,
        Some(v) => has_prefix(v, bytes_unit()) && {
            let spec = trim(first_piece(v.subrange(6, v.len() as int), ','));
            let i = find_char(spec, '-');
            i >= 0 && {
                let s = trim(spec.subrange(0, i));
                let e = trim(spec.subrange(i + 1, spec.len() as int));
                if s.len() == 0 {
                    parse_unsigned_spec(e, u64::MAX as nat) is Some
                } else {
                    parse_unsigned_spec(s, u64::MAX as nat) is Some && e.len() == 0
                }
            }
        },
    }
}

/// Parses a `Range: bytes=...` header against a file of `total` bytes.
///
/// - `Ok(None)`: no `Range` header or an unrecognised unit; serve the full file (200).
/// - `Ok(Some((offset, length)))`: a satisfiable range; serve that part (206).
/// - `Err(())`: syntactically a range, but not satisfiable (416).
///
/// Only the first range of a multi-range request is honoured; an end past the
/// last byte is clamped to it.
pub fn parse_range(header: Option<&str>, total: u64) -> (r: Result<Option<(u64, u64)>, ()>)
    requires
        total > 0 || !range_needs_last_byte(
            match header {
                Some(h) => Some(h@),
                None => None,
            },
        ),
    ensures
        match range_spec(
            match header {
                Some(h) => Some(h@),
                None => None,
            },
            total as nat,
        ) {
            Ok(None) => r == Ok::<Option<(u64, u64)>, ()>(None),
            Ok(Some((off, len))) => r == Ok::<Option<(u64, u64)>, ()>(Some((off as u64, len as u64))),
            Err(()) => r is Err,
        },
{
    let value = match header {
        None => {
            return Ok(None);
        },
        Some(h) => chars_of(h),
    };
    let unit = ['b', 'y', 't', 'e', 's', '='];
    assert(unit@ =~= bytes_unit());
    if !starts_with(value.as_slice(), unit.as_slice()) {
        return Ok(None);
    }
    let rest = slice_vec(value.as_slice(), 6, value.len());
    let first_len = match find(rest.as_slice(), ',') {
        Some(i) => i,
        None => rest.len(),
    };
    let first = slice_vec(rest.as_slice(), 0, first_len);
    assert(first@ == first_piece(value@.subrange(6, value@.len() as int), ','));
    let spec = trimmed(first.as_slice());
    let dash = match find(spec.as_slice(), '-') {
        None => {
            return Ok(None);
        },
        Some(i) => i,
    };
    let s = trimmed(slice_vec(spec.as_slice(), 0, dash).as_slice());
    let e = trimmed(slice_vec(spec.as_slice(), dash + 1, spec.len()).as_slice());
    let (start, end) = if s.len() == 0 {
        let n = match parse_unsigned(e.as_slice(), u64::MAX) {
            None => {
                return Err(());
            },
            Some(n) => n,
        };
        (total.saturating_sub(n), total - 1)
    } else {
        let start = match parse_unsigned(s.as_slice(), u64::MAX) {
            None => {
                return Err(());
            },
            Some(v) => v,
        };
        let end = if e.len() == 0 {
            total - 1
        } else {
            match parse_unsigned(e.as_slice(), u64::MAX) {
                None => {
                    return Err(());
                },
                Some(v) => v,
            }
        };
        (start, end)
    };
    if start >= total || start > end {
        return Err(());
    }
    assert(total > 0);
    let last = if end < total - 1 {
        end
    } else {
        total - 1
    };
    Ok(Some((start, last - start + 1)))
}

/// A part served for a range lies inside the file: it is not empty, and it
/// ends at or before the last byte.
pub proof fn lemma_range_within_file(header: Option<Seq<char>>, total: nat)
    ensures
        range_spec(header, total) matches Ok(Some((off, len))) ==> 1 <= len && off + len <= total,
{
}

/// A decimal number as it stands in a `Range` header.
pub open spec fn range_number(s: Seq<char>) -> bool {
    s.len() > 0 && all_digits(s) && dec_value(s) <= u64::MAX
}

proof fn lemma_number_parses(s: Seq<char>)
    requires
        range_number(s),
    ensures
        trim(s) == s,
        parse_unsigned_spec(trim(s), u64::MAX as nat) == Some(dec_value(s)),
        forall|j: int| 0 <= j < s.len() ==> s[j] != '-' && s[j] != ',',
{
    assert(crate::text::is_digit(s[0]));
    assert(s[0] != '+');
    assert forall|j: int| 0 <= j < s.len() implies !crate::text::is_ws(#[trigger] s[j]) by {
        assert(crate::text::is_digit(s[j]));
    }
    crate::text::lemma_trim_no_ws(s);
    assert forall|j: int| 0 <= j < s.len() implies s[j] != '-' && s[j] != ',' by {
        assert(crate::text::is_digit(s[j]));
    }
}

/// The range spec after `bytes=` of a header with one range of numbers.
proof fn lemma_single_spec(body: Seq<char>)
    requires
        forall|j: int| 0 <= j < body.len() ==> body[j] != ',' && !crate::text::is_ws(#[trigger] body[j]),
    ensures
        trim(first_piece((bytes_unit() + body).subrange(6, (bytes_unit() + body).len() as int), ',')) == body,
        has_prefix(bytes_unit() + body, bytes_unit()),
{
    let h = bytes_unit() + body;
    assert(h.subrange(0, 6) =~= bytes_unit());
    assert(h.subrange(6, h.len() as int) =~= body);
    assert forall|j: int| 0 <= j < body.len() implies body[j] != ',' by {}
    crate::text::lemma_find_none(body, ',');
    crate::text::lemma_trim_no_ws(body);
}

/// The three forms of a single byte range, on a file of `total` bytes:
/// `bytes=a-b` serves bytes `a` to `b` (clamped to the last byte) when `a`
/// is a byte of the file and `a <= b`, and is unsatisfiable otherwise;
/// `bytes=a-` serves from `a` to the end; `bytes=-n` serves the last `n`
/// bytes (the whole file when `n` is larger), and `bytes=-0` nothing.
pub proof fn lemma_range_forms(total: nat, a: Seq<char>, b: Seq<char>)
    requires
        range_number(a),
        range_number(b),
    ensures
        ({
            let (x, y) = (dec_value(a), dec_value(b));
            let r = range_spec(Some(bytes_unit() + a + seq!['-'] + b), total);
            &&& x < total && x <= y ==> r == Ok::<Option<(nat, nat)>, ()>(
                Some((x, ((if y < total - 1 { y } else { (total - 1) as nat }) - x + 1) as nat)),
            )
            &&& x >= total || x > y ==> r is Err
        }),
        ({
            let x = dec_value(a);
            let r = range_spec(Some(bytes_unit() + a + seq!['-']), total);
            &&& x < total ==> r == Ok::<Option<(nat, nat)>, ()>(Some((x, (total - x) as nat)))
            &&& x >= total ==> r is Err
        }),
        ({
            let n = dec_value(b);
            let r = range_spec(Some(bytes_unit() + seq!['-'] + b), total);
            &&& 0 < n && 0 < total ==> r == Ok::<Option<(nat, nat)>, ()>(
                Some(((if n >= total { 0 } else { total - n }) as nat, (if n >= total { total } else { n }) as nat)),
            )
            &&& n == 0 || total == 0 ==> r is Err
        }),
{
    lemma_number_parses(a);
    lemma_number_parses(b);
    // a-b
    let body1 = a + seq!['-'] + b;
    assert forall|j: int| 0 <= j < body1.len() implies body1[j] != ',' && !crate::text::is_ws(#[trigger] body1[j]) by {
        if j < a.len() {
            assert(body1[j] == a[j]);
            assert(crate::text::is_digit(a[j]));
        } else if j > a.len() {
            assert(body1[j] == b[j - a.len() - 1]);
            assert(crate::text::is_digit(b[j - a.len() - 1]));
        }
    }
    lemma_single_spec(body1);
    assert(bytes_unit() + a + seq!['-'] + b =~= bytes_unit() + body1);
    assert(body1[a.len() as int] == '-');
    assert forall|j: int| 0 <= j < a.len() implies body1[j] != '-' by {
        assert(body1[j] == a[j]);
    }
    crate::text::lemma_find_char_at(body1, '-', a.len() as int);
    assert(body1.subrange(0, a.len() as int) =~= a);
    assert(body1.subrange(a.len() as int + 1, body1.len() as int) =~= b);
    // a-
    let body2 = a + seq!['-'];
    assert forall|j: int| 0 <= j < body2.len() implies body2[j] != ',' && !crate::text::is_ws(#[trigger] body2[j]) by {
        if j < a.len() {
            assert(body2[j] == a[j]);
            assert(crate::text::is_digit(a[j]));
        }
    }
    lemma_single_spec(body2);
    assert(bytes_unit() + a + seq!['-'] =~= bytes_unit() + body2);
    assert forall|j: int| 0 <= j < a.len() implies body2[j] != '-' by {
        assert(body2[j] == a[j]);
    }
    crate::text::lemma_find_char_at(body2, '-', a.len() as int);
    assert(body2.subrange(0, a.len() as int) =~= a);
    assert(body2.subrange(a.len() as int + 1, body2.len() as int) =~= Seq::<char>::empty());
    // -b
    let body3 = seq!['-'] + b;
    assert forall|j: int| 0 <= j < body3.len() implies body3[j] != ',' && !crate::text::is_ws(#[trigger] body3[j]) by {
        if j > 0 {
            assert(body3[j] == b[j - 1]);
            assert(crate::text::is_digit(b[j - 1]));
        }
    }
    lemma_single_spec(body3);
    assert(bytes_unit() + seq!['-'] + b =~= bytes_unit() + body3);
    crate::text::lemma_find_char_at(body3, '-', 0);
    assert(body3.subrange(0, 0) =~= Seq::<char>::empty());
    assert(body3.subrange(1, body3.len() as int) =~= b);
}

} // verus!
