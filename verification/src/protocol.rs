//! The TUS 1.0.0 request headers: what each endpoint reads from them and which
//! requests it refuses, before any upload is touched.
use vstd::prelude::*;
use crate::codec::{base64_decode, base64_standard_decode, json_string_map, parse_json_string_map};
use crate::concat::{concat_final_ids_spec, parse_concat_final_ids};
use crate::metadata::{get, lookup};
use crate::range::{parse_range, range_spec};
use crate::status::{res_view, TusError, TusErrorView, UploadStatus};
use crate::text::{
    lemma_find_char, append_str, append_u64, chars_eq, chars_of, find, find_char, has_prefix, nat_text, opt_chars,
    opt_str_chars, opt_str_eq, parse_i64, parse_i64_spec, push_char, slice_vec, starts_with,
    string_from_chars, trim, trimmed,
};
use crate::upload::Upload;

verus! {

/// The protocol version this server speaks.
pub const TUS_VERSION: &'static str = "1.0.0";

/// The versions it supports.
pub const TUS_SUPPORTED_VERSIONS: &'static str = "1.0.0";

/// The protocol extensions it implements.
pub const TUS_EXTENSIONS: &'static str = "creation,creation-defer-length,termination,concatenation,checksum,expiration";

/// Requests must carry `Tus-Resumable: 1.0.0`.
pub open spec fn tus_resumable_spec(version: Option<Seq<char>>) -> Result<(), TusErrorView> {
    match version {
        None => Err(TusErrorView::MissingHeader("Tus-Resumable"@)),
        Some(v) => if v == "1.0.0"@ {
            Ok(())
        } else {
            Err(TusErrorView::UnsupportedVersion(v))
        },
    }
}

/// Checks the `Tus-Resumable` header (`None` when absent or not text).
pub fn require_tus_resumable(version: Option<&str>) -> (r: Result<(), TusError>)
    ensures
        res_view(r) == tus_resumable_spec(opt_str_chars(version)),
{
    match version {
        None => Err(TusError::MissingHeader("Tus-Resumable".to_owned())),
        Some(v) => {
            let cs = chars_of(v);
            if chars_eq(cs.as_slice(), chars_of("1.0.0").as_slice()) {
                Ok(())
            } else {
                Err(TusError::UnsupportedVersion(v.to_owned()))
            }
        },
    }
}

/// Only protocol version `1.0.0` is served: a request naming it passes, one
/// naming any other version is refused with that version, and one naming none
/// is refused for the missing header.
pub proof fn lemma_only_version_1_0_0(version: Option<Seq<char>>)
    ensures
        tus_resumable_spec(version) is Ok <==> version == Some("1.0.0"@),
        version matches Some(v) ==> (v != "1.0.0"@ ==> tus_resumable_spec(version) == Err::<(), TusErrorView>(
            TusErrorView::UnsupportedVersion(v),
        )),
        version is None ==> tus_resumable_spec(version) is Err,
{
}

/// A header value parsed as an `i64`; `None` when absent, not text, or not a number.
pub open spec fn header_i64(h: Option<Seq<char>>) -> Option<int> {
    match h {
        Some(v) => parse_i64_spec(v),
        None => None,
    }
}

fn parse_header_i64(h: Option<&str>) -> (r: Option<i64>)
    ensures
        match header_i64(opt_str_chars(h)) {
            Some(v) => r == Some(v as i64),
            None => r is None,
        },
{
    match h {
        Some(v) => parse_i64(chars_of(v).as_slice()),
        None => None,
    }
}

/// What a creation request (POST) asks for.
pub enum CreatePlan {
    /// A concat-final upload assembled from the partial uploads with these IDs.
    Final { partial_ids: Vec<String> },
    /// A new upload of `upload_length` bytes (or of deferred length);
    /// `partial` marks a concatenation segment.
    Single { upload_length: i64, length_is_deferred: bool, partial: bool },
}

/// The value of a creation request.
pub enum CreatePlanView {
    Final { partial_ids: Seq<Seq<char>> },
    Single { upload_length: int, length_is_deferred: bool, partial: bool },
}

/// The upload length a creation request declares: `(length, deferred)`, or the
/// reason it is refused.  Checked in order: `Upload-Length` and
/// `Upload-Defer-Length: 1` exclude each other; one of them is needed unless the
/// request creates a concat-final upload; the length must parse, be
/// non-negative and stay within `max_upload_bytes`.
pub open spec fn create_length_spec(
    has_length: bool,
    length: Option<Seq<char>>,
    defer: Option<Seq<char>>,
    concat: Option<Seq<char>>,
    max_upload_bytes: int,
) -> Result<(int, bool), TusErrorView> {
    let deferred = defer matches Some(d) && trim(d) == "1"@;
    if deferred && has_length {
        Err(TusErrorView::InvalidHeader("Upload-Length and Upload-Defer-Length are mutually exclusive"@))
    } else if !deferred && !has_length && !(concat matches Some(c) && has_prefix(
        trim(c),
        "final"@,
    )) {
        Err(TusErrorView::MissingHeader("Upload-Length"@))
    } else if deferred {
        Ok((0, true))
    } else if has_length {
        match header_i64(length) {
            None => Err(TusErrorView::MissingHeader("Upload-Length"@)),
            Some(len) => if len < 0 {
                Err(TusErrorView::InvalidHeader("Upload-Length must be non-negative"@))
            } else if len > max_upload_bytes {
                Err(TusErrorView::ExceedsUploadLength)
            } else {
                Ok((len, false))
            },
        }
    } else {
        Ok((0, false))
    }
}

/// What a creation request asks for, once its length is accepted: a
/// concat-final upload (which needs at least one partial), or a single upload,
/// which may be marked `partial`; any other `Upload-Concat` value is refused.
pub open spec fn create_plan_spec(
    has_length: bool,
    length: Option<Seq<char>>,
    defer: Option<Seq<char>>,
    concat: Option<Seq<char>>,
    max_upload_bytes: int,
) -> Result<CreatePlanView, TusErrorView> {
    match create_length_spec(has_length, length, defer, concat, max_upload_bytes) {
        Err(e) => Err(e),
        Ok((len, deferred)) => match concat {
            None => Ok(CreatePlanView::Single { upload_length: len, length_is_deferred: deferred, partial: false }),
            Some(c) => match concat_final_ids_spec(trim(c)) {
                Some(ids) => if ids.len() == 0 {
                    Err(TusErrorView::InvalidHeader("Upload-Concat final requires at least one partial upload URL"@))
                } else {
                    Ok(CreatePlanView::Final { partial_ids: ids })
                },
                None => if trim(c) != "partial"@ {
                    Err(TusErrorView::InvalidHeader("Upload-Concat: unsupported value: "@ + trim(c)))
                } else {
                    Ok(CreatePlanView::Single { upload_length: len, length_is_deferred: deferred, partial: true })
                },
            },
        },
    }
}

/// The value of a plan.
pub open spec fn plan_view(p: CreatePlan) -> CreatePlanView {
    match p {
        CreatePlan::Final { partial_ids } => CreatePlanView::Final {
            partial_ids: partial_ids@.map_values(|s: String| s@),
        },
        CreatePlan::Single { upload_length, length_is_deferred, partial } => CreatePlanView::Single {
            upload_length: upload_length as int,
            length_is_deferred,
            partial,
        },
    }
}

/// The plan of a creation request, with its error taken by value.
pub open spec fn plan_res_view(r: Result<CreatePlan, TusError>) -> Result<CreatePlanView, TusErrorView> {
    match r {
        Ok(p) => Ok(plan_view(p)),
        Err(e) => Err(e@),
    }
}

fn is_one(d: Option<&str>) -> (r: bool)
    ensures
        r == (opt_str_chars(d) matches Some(x) && trim(x) == "1"@),
{
    match d {
        None => false,
        Some(x) => {
            let t = trimmed(chars_of(x).as_slice());
            chars_eq(t.as_slice(), chars_of("1").as_slice())
        },
    }
}

fn starts_final(c: Option<&str>) -> (r: bool)
    ensures
        r == (opt_str_chars(c) matches Some(x) && has_prefix(trim(x), "final"@)),
{
    match c {
        None => false,
        Some(x) => {
            let t = trimmed(chars_of(x).as_slice());
            starts_with(t.as_slice(), chars_of("final").as_slice())
        },
    }
}

/// Reads a creation request's headers: `has_length` is whether `Upload-Length`
/// is present at all, `length`, `defer` and `concat` the text of
/// `Upload-Length`, `Upload-Defer-Length` and `Upload-Concat` (`None` when
/// absent or not text).  `max_upload_bytes` is the limit of the endpoint.
pub fn plan_create(
    has_length: bool,
    length: Option<&str>,
    defer: Option<&str>,
    concat: Option<&str>,
    max_upload_bytes: i64,
) -> (r: Result<CreatePlan, TusError>)
    ensures
        plan_res_view(r) == create_plan_spec(
            has_length,
            opt_str_chars(length),
            opt_str_chars(defer),
            opt_str_chars(concat),
            max_upload_bytes as int,
        ),
{
    let deferred = is_one(defer);
    if deferred && has_length {
        return Err(
            TusError::InvalidHeader(
                "Upload-Length and Upload-Defer-Length are mutually exclusive".to_owned(),
            ),
        );
    }
    if !deferred && !has_length {
        if !starts_final(concat) {
            return Err(TusError::MissingHeader("Upload-Length".to_owned()));
        }
    }
    let (upload_length, length_is_deferred) = if deferred {
        (0i64, true)
    } else if has_length {
        let len = match parse_header_i64(length) {
            None => {
                return Err(TusError::MissingHeader("Upload-Length".to_owned()));
            },
            Some(v) => v,
        };
        if len < 0 {
            return Err(TusError::InvalidHeader("Upload-Length must be non-negative".to_owned()));
        }
        if len > max_upload_bytes {
            return Err(TusError::ExceedsUploadLength);
        }
        (len, false)
    } else {
        (0i64, false)
    };
    match concat {
        None => Ok(CreatePlan::Single { upload_length, length_is_deferred, partial: false }),
        Some(c) => {
            let t = string_from_chars(trimmed(chars_of(c).as_slice()).as_slice());
            match parse_concat_final_ids(t.as_str()) {
                Some(ids) => {
                    if ids.len() == 0 {
                        return Err(
                            TusError::InvalidHeader(
                                "Upload-Concat final requires at least one partial upload URL".to_owned(),
                            ),
                        );
                    }
                    let ghost spec_ids = concat_final_ids_spec(t@)->0;
                    assert(ids@.map_values(|s: String| s@) =~= spec_ids);
                    Ok(CreatePlan::Final { partial_ids: ids })
                },
                None => {
                    let tc = chars_of(t.as_str());
                    if !chars_eq(tc.as_slice(), chars_of("partial").as_slice()) {
                        let mut m = "Upload-Concat: unsupported value: ".to_owned();
                        append_str(&mut m, t.as_str());
                        return Err(TusError::InvalidHeader(m));
                    }
                    Ok(CreatePlan::Single { upload_length, length_is_deferred, partial: true })
                },
            }
        },
    }
}

/// What length a creation request declares: `Upload-Defer-Length: 1` together
/// with an `Upload-Length` is refused; a deferred request records length 0 and
/// deferred; a request whose `Upload-Length` is a number between 0 and the
/// limit records that number, not deferred; a number over the limit is
/// refused as too large, and a negative one as invalid.
pub proof fn lemma_create_length(
    has_length: bool,
    length: Option<Seq<char>>,
    defer: Option<Seq<char>>,
    concat: Option<Seq<char>>,
    max_upload_bytes: int,
)
    ensures
        (defer matches Some(d) && trim(d) == "1"@) && has_length ==> create_length_spec(
            has_length,
            length,
            defer,
            concat,
            max_upload_bytes,
        ) is Err,
        (defer matches Some(d) && trim(d) == "1"@) && !has_length ==> create_length_spec(
            has_length,
            length,
            defer,
            concat,
            max_upload_bytes,
        ) == Ok::<(int, bool), TusErrorView>((0, true)),
        !(defer matches Some(d) && trim(d) == "1"@) && has_length ==> (header_i64(length) matches Some(len) ==> (
        (0 <= len <= max_upload_bytes ==> create_length_spec(has_length, length, defer, concat, max_upload_bytes)
            == Ok::<(int, bool), TusErrorView>((len, false))) && (len > max_upload_bytes && len >= 0
            ==> create_length_spec(has_length, length, defer, concat, max_upload_bytes) == Err::<(int, bool), TusErrorView>(
            TusErrorView::ExceedsUploadLength,
        )) && (len < 0 ==> create_length_spec(has_length, length, defer, concat, max_upload_bytes) is Err))),
        create_length_spec(has_length, length, defer, concat, max_upload_bytes) matches Ok((len, deferred)) ==> (
        deferred <==> (defer matches Some(d) && trim(d) == "1"@)),
{
}

/// An accepted creation request never declares a negative length, nor one
/// over the endpoint's limit, and a deferred length is recorded as zero.
pub proof fn lemma_created_length_in_limits(
    has_length: bool,
    length: Option<Seq<char>>,
    defer: Option<Seq<char>>,
    concat: Option<Seq<char>>,
    max_upload_bytes: int,
)
    requires
        create_plan_spec(has_length, length, defer, concat, max_upload_bytes) matches Ok(
            CreatePlanView::Single { .. },
        ),
    ensures
        ({
            let p = create_plan_spec(has_length, length, defer, concat, max_upload_bytes)->Ok_0;
            &&& 0 <= p->upload_length
            &&& p->upload_length <= max_upload_bytes || p->length_is_deferred || !has_length
            &&& p->length_is_deferred ==> p->upload_length == 0
        }),
{
}

/// A creation request makes a concatenation segment exactly when its
/// `Upload-Concat` header, trimmed, is `partial`: such a request with an
/// accepted length plans a single upload of that length marked partial; a
/// request without the header plans one not marked partial; and no plan is
/// marked partial for any other header.
pub proof fn lemma_partial_exactly_when_asked(
    has_length: bool,
    length: Option<Seq<char>>,
    defer: Option<Seq<char>>,
    concat: Option<Seq<char>>,
    max_upload_bytes: int,
)
    ensures
        create_plan_spec(has_length, length, defer, concat, max_upload_bytes) matches Ok(
            CreatePlanView::Single { partial, .. },
        ) ==> (partial <==> (concat matches Some(c) && trim(c) == "partial"@)),
        create_length_spec(has_length, length, defer, concat, max_upload_bytes) matches Ok((len, deferred)) ==> (
        (concat matches Some(c) && trim(c) == "partial"@) ==> create_plan_spec(
            has_length,
            length,
            defer,
            concat,
            max_upload_bytes,
        ) == Ok::<CreatePlanView, TusErrorView>(
            CreatePlanView::Single { upload_length: len, length_is_deferred: deferred, partial: true },
        )),
        create_length_spec(has_length, length, defer, concat, max_upload_bytes) matches Ok((len, deferred)) ==> (
        concat is None ==> create_plan_spec(has_length, length, defer, concat, max_upload_bytes) == Ok::<
            CreatePlanView,
            TusErrorView,
        >(CreatePlanView::Single { upload_length: len, length_is_deferred: deferred, partial: false })),
{
    reveal_strlit("partial");
    if let Some(c) = concat {
        let t = trim(c);
        if t == "partial"@ {
        assert(t[0] == 'p');
        assert(crate::text::trim_start(t) == t);
        assert(crate::text::trim_end(t) == t);
        assert(trim(t) == t);
        assert(!has_prefix(t, crate::concat::final_keyword())) by {
            if has_prefix(t, crate::concat::final_keyword()) {
                assert(t.subrange(0, 5)[0] == 'f');
            }
        }
        assert(concat_final_ids_spec(t) is None);
        }
    }
}

// ── PATCH ────────────────────────────────────────────────────────────────────

/// An `Upload-Checksum` header: the algorithm name and the decoded digest,
/// `None` when absent, or why it is refused.
pub open spec fn checksum_spec(h: Option<Seq<char>>) -> Result<Option<(Seq<char>, Seq<u8>)>, TusErrorView> {
    match h {
        None => Ok(None),
        Some(v) => {
            let t = trim(v);
            let i = find_char(t, ' ');
            if i < 0 {
                Err(TusErrorView::InvalidHeader("Upload-Checksum: missing checksum value"@))
            } else {
                match base64_standard_decode(trim(t.subrange(i + 1, t.len() as int))) {
                    Err(e) => Err(TusErrorView::InvalidHeader("Upload-Checksum: invalid base64: "@ + e)),
                    Ok(bytes) => Ok(Some((t.subrange(0, i), bytes))),
                }
            }
        },
    }
}

/// An `Upload-Checksum` header is split at its first space: the algorithm is
/// the text before it (so it holds no space) and the digest is the base64
/// text after it, decoded.  So `<algorithm> <digest>`, with an algorithm name
/// free of spaces and nothing around it, gives that algorithm and the decoded
/// digest.
pub proof fn lemma_checksum_algorithm_and_digest(h: Seq<char>, alg: Seq<char>, b64: Seq<char>, digest: Seq<u8>)
    ensures
        checksum_spec(Some(h)) matches Ok(Some((a, bytes))) ==> {
            let t = trim(h);
            &&& forall|j: int| 0 <= j < a.len() ==> a[j] != ' '
            &&& a.len() < t.len()
            &&& t.subrange(0, a.len() as int) == a
            &&& t[a.len() as int] == ' '
            &&& base64_standard_decode(trim(t.subrange(a.len() as int + 1, t.len() as int))) == Ok::<Seq<u8>, Seq<char>>(bytes)
        },
        alg.len() > 0 && !crate::text::is_ws(alg[0]) && (forall|j: int| 0 <= j < alg.len() ==> alg[j] != ' ')
            && b64.len() > 0 && !crate::text::is_ws(b64.last()) && base64_standard_decode(trim(b64)) == Ok::<
            Seq<u8>,
            Seq<char>,
        >(digest) && h == alg + seq![' '] + b64 ==> checksum_spec(Some(h)) == Ok::<
            Option<(Seq<char>, Seq<u8>)>,
            TusErrorView,
        >(Some((alg, digest))),
{
    let t = trim(h);
    lemma_find_char(t, ' ');
    if alg.len() > 0 && !crate::text::is_ws(alg[0]) && (forall|j: int| 0 <= j < alg.len() ==> alg[j] != ' ')
        && b64.len() > 0 && !crate::text::is_ws(b64.last()) && h == alg + seq![' '] + b64 {
        assert(h[0] == alg[0]);
        assert(h.last() == b64.last());
        assert(crate::text::trim_start(h) == h);
        assert(crate::text::trim_end(h) == h);
        assert(t == h);
        assert(h[alg.len() as int] == ' ');
        crate::text::lemma_find_char_at(h, ' ', alg.len() as int);
        assert(h.subrange(0, alg.len() as int) =~= alg);
        assert(h.subrange(alg.len() as int + 1, h.len() as int) =~= b64);
    }
}

/// A checksum result, taken by value.
pub open spec fn checksum_res_view(r: Result<Option<(String, Vec<u8>)>, TusError>) -> Result<Option<(Seq<char>, Seq<u8>)>, TusErrorView> {
    match r {
        Ok(Some((a, b))) => Ok(Some((a@, b@))),
        Ok(None) => Ok(None),
        Err(e) => Err(e@),
    }
}

/// Parses `Upload-Checksum: <algorithm> <base64 digest>`.
pub fn parse_checksum(header: Option<&str>) -> (r: Result<Option<(String, Vec<u8>)>, TusError>)
    ensures
        checksum_res_view(r) == checksum_spec(opt_str_chars(header)),
{
    let h = match header {
        None => {
            return Ok(None);
        },
        Some(h) => h,
    };
    let t = trimmed(chars_of(h).as_slice());
    let i = match find(t.as_slice(), ' ') {
        None => {
            return Err(TusError::InvalidHeader("Upload-Checksum: missing checksum value".to_owned()));
        },
        Some(i) => i,
    };
    let alg = string_from_chars(slice_vec(t.as_slice(), 0, i).as_slice());
    let b64 = string_from_chars(trimmed(slice_vec(t.as_slice(), i + 1, t.len()).as_slice()).as_slice());
    match base64_decode(b64.as_str()) {
        Err(e) => {
            let mut m = "Upload-Checksum: invalid base64: ".to_owned();
            append_str(&mut m, e.as_str());
            Err(TusError::InvalidHeader(m))
        },
        Ok(bytes) => Ok(Some((alg, bytes))),
    }
}

/// What a PATCH request carries.
pub struct PatchRequest {
    pub client_offset: i64,
    pub content_length: Option<i64>,
    pub checksum: Option<(String, Vec<u8>)>,
    pub new_upload_length: Option<i64>,
}

/// The checks of a PATCH request's headers, in order: `Content-Type` must be
/// `application/offset+octet-stream`, `Upload-Offset` a non-negative number, the
/// checksum well formed, and an `Upload-Length` non-negative.  An unparseable
/// `Content-Length` or `Upload-Length` counts as absent.
pub open spec fn patch_spec(
    content_type: Option<Seq<char>>,
    offset: Option<Seq<char>>,
    content_length: Option<Seq<char>>,
    checksum: Option<Seq<char>>,
    upload_length: Option<Seq<char>>,
) -> Result<(int, Option<int>, Option<(Seq<char>, Seq<u8>)>, Option<int>), TusErrorView> {
    match content_type {
        None => Err(TusErrorView::MissingHeader("Content-Type"@)),
        Some(ct) => if !has_prefix(ct, "application/offset+octet-stream"@) {
            Err(TusErrorView::InvalidContentType)
        } else {
            match header_i64(offset) {
                None => Err(TusErrorView::MissingHeader("Upload-Offset"@)),
                Some(off) => if off < 0 {
                    Err(TusErrorView::InvalidHeader("Upload-Offset must be non-negative"@))
                } else {
                    match checksum_spec(checksum) {
                        Err(e) => Err(e),
                        Ok(sum) => match header_i64(upload_length) {
                            Some(len) if len < 0 => Err(TusErrorView::InvalidHeader("Upload-Length must be non-negative"@)),
                            new_len => Ok((off, header_i64(content_length), sum, new_len)),
                        },
                    }
                },
            }
        },
    }
}

/// A PATCH's headers are accepted exactly when its content type is
/// `application/offset+octet-stream`, its offset is a non-negative number, its
/// checksum (if any) is well formed, and its `Upload-Length` (if a number) is
/// not negative; it then carries that offset, `Content-Length`, checksum and
/// length.  A missing content type or offset is a missing header.
pub proof fn lemma_patch_headers(
    content_type: Option<Seq<char>>,
    offset: Option<Seq<char>>,
    content_length: Option<Seq<char>>,
    checksum: Option<Seq<char>>,
    upload_length: Option<Seq<char>>,
)
    ensures
        patch_spec(content_type, offset, content_length, checksum, upload_length) is Ok <==> (content_type is Some
            && has_prefix(content_type->0, "application/offset+octet-stream"@) && header_i64(offset) is Some
            && header_i64(offset)->0 >= 0 && checksum_spec(checksum) is Ok && !(header_i64(upload_length) is Some
            && header_i64(upload_length)->0 < 0)),
        patch_spec(content_type, offset, content_length, checksum, upload_length) matches Ok((off, cl, sum, len)) ==> (Some(off)
            == header_i64(offset) && cl == header_i64(content_length) && Ok::<Option<(Seq<char>, Seq<u8>)>, TusErrorView>(sum)
            == checksum_spec(checksum) && len == header_i64(upload_length)),
        content_type is None ==> patch_spec(content_type, offset, content_length, checksum, upload_length) == Err::<
            (int, Option<int>, Option<(Seq<char>, Seq<u8>)>, Option<int>),
            TusErrorView,
        >(TusErrorView::MissingHeader("Content-Type"@)),
        content_type matches Some(ct) ==> (!has_prefix(ct, "application/offset+octet-stream"@) ==> patch_spec(
            content_type,
            offset,
            content_length,
            checksum,
            upload_length,
        ) == Err::<(int, Option<int>, Option<(Seq<char>, Seq<u8>)>, Option<int>), TusErrorView>(
            TusErrorView::InvalidContentType,
        )),
{
}

pub open spec fn opt_int(o: Option<i64>) -> Option<int> {
    match o {
        Some(v) => Some(v as int),
        None => None,
    }
}

/// A PATCH request, taken by value.
pub open spec fn patch_res_view(r: Result<PatchRequest, TusError>) -> Result<(int, Option<int>, Option<(Seq<char>, Seq<u8>)>, Option<int>), TusErrorView> {
    match r {
        Ok(p) => Ok((
            p.client_offset as int,
            opt_int(p.content_length),
            match p.checksum {
                Some((a, b)) => Some((a@, b@)),
                None => None,
            },
            opt_int(p.new_upload_length),
        )),
        Err(e) => Err(e@),
    }
}

/// Reads a PATCH request's headers (each `None` when absent or not text).
pub fn parse_patch(
    content_type: Option<&str>,
    offset: Option<&str>,
    content_length: Option<&str>,
    checksum: Option<&str>,
    upload_length: Option<&str>,
) -> (r: Result<PatchRequest, TusError>)
    ensures
        patch_res_view(r) == patch_spec(
            opt_str_chars(content_type),
            opt_str_chars(offset),
            opt_str_chars(content_length),
            opt_str_chars(checksum),
            opt_str_chars(upload_length),
        ),
{
    let ct = match content_type {
        None => {
            return Err(TusError::MissingHeader("Content-Type".to_owned()));
        },
        Some(ct) => ct,
    };
    if !starts_with(chars_of(ct).as_slice(), chars_of("application/offset+octet-stream").as_slice()) {
        return Err(TusError::InvalidContentType);
    }
    let client_offset = match parse_header_i64(offset) {
        None => {
            return Err(TusError::MissingHeader("Upload-Offset".to_owned()));
        },
        Some(v) => v,
    };
    if client_offset < 0 {
        return Err(TusError::InvalidHeader("Upload-Offset must be non-negative".to_owned()));
    }
    let content_length = parse_header_i64(content_length);
    let checksum = parse_checksum(checksum)?;
    let new_upload_length = parse_header_i64(upload_length);
    if let Some(len) = new_upload_length {
        if len < 0 {
            return Err(TusError::InvalidHeader("Upload-Length must be non-negative".to_owned()));
        }
    }
    Ok(PatchRequest { client_offset, content_length, checksum, new_upload_length })
}

// ── HEAD, DELETE, GET ────────────────────────────────────────────────────────

/// On a context-scoped route the upload must belong to the route's context
/// (`scope` is `Some(context id)`); anything else is not found.
pub open spec fn scope_spec(u: Upload, scope: Option<Seq<char>>) -> Result<(), TusErrorView> {
    match scope {
        None => Ok(()),
        Some(ctx) => if opt_chars(u.context_id) == Some(ctx) {
            Ok(())
        } else {
            Err(TusErrorView::NotFound)
        },
    }
}

/// Checks that `u` is visible on a route of context `scope` (`None` for the
/// global routes, which see every upload).
pub fn check_scope(u: &Upload, scope: Option<&str>) -> (r: Result<(), TusError>)
    ensures
        res_view(r) == scope_spec(*u, opt_str_chars(scope)),
{
    match scope {
        None => Ok(()),
        Some(ctx) => {
            if opt_str_eq(&u.context_id, Some(ctx)) {
                Ok(())
            } else {
                Err(TusError::NotFound)
            }
        },
    }
}

/// What a HEAD request reports.
pub struct HeadFields {
    pub upload_offset: i64,
    /// `Upload-Length`, left out while the length is deferred.
    pub upload_length: Option<i64>,
    /// `Upload-Concat`, when the upload is part of a concatenation.
    pub upload_concat: Option<String>,
}

/// A HEAD request: a removed upload is not found, an expired one is gone.
pub open spec fn head_spec(u: Upload, scope: Option<Seq<char>>, expired: bool) -> Result<(i64, Option<i64>, Option<Seq<char>>), TusErrorView> {
    match scope_spec(u, scope) {
        Err(e) => Err(e),
        Ok(()) => if u.status == UploadStatus::Abandoned {
            Err(TusErrorView::NotFound)
        } else if expired {
            Err(TusErrorView::Expired)
        } else {
            Ok((
                u.upload_offset,
                if u.length_is_deferred {
                    None
                } else {
                    Some(u.upload_length)
                },
                opt_chars(u.concat_type),
            ))
        },
    }
}

/// Answers a HEAD request for `u` on a route of context `scope`.
pub fn head_fields(u: &Upload, scope: Option<&str>, expired: bool) -> (r: Result<HeadFields, TusError>)
    ensures
        match head_spec(*u, opt_str_chars(scope), expired) {
            Ok((off, len, concat)) => r matches Ok(h) && h.upload_offset == off && h.upload_length
                == len && opt_chars(h.upload_concat) == concat,
            Err(e) => r matches Err(x) && x@ == e,
        },
{
    check_scope(u, scope)?;
    if u.status == UploadStatus::Abandoned {
        return Err(TusError::NotFound);
    }
    if expired {
        return Err(TusError::Expired);
    }
    Ok(HeadFields {
        upload_offset: u.upload_offset,
        upload_length: if u.length_is_deferred {
            None
        } else {
            Some(u.upload_length)
        },
        upload_concat: u.concat_type.clone(),
    })
}

/// How a download (GET) is answered.
pub enum DownloadPlan {
    /// An empty file: `200` with no body.
    Empty,
    /// `416`: the range cannot be satisfied by a file of `total` bytes.
    Unsatisfiable { total: u64 },
    /// `length` bytes from `offset`; `partial` selects `206` over `200`.
    Body { offset: u64, length: u64, partial: bool },
}

/// A download: only a Finalized upload can be read; a range selects part of it.
pub open spec fn download_spec(u: Upload, range: Option<Seq<char>>) -> Result<DownloadPlan, TusErrorView> {
    if u.status != UploadStatus::Finalized {
        Err(TusErrorView::NotFound)
    } else {
        let total = u.upload_length as u64;
        if total == 0 {
            Ok(DownloadPlan::Empty)
        } else {
            match range_spec(range, total as nat) {
                Ok(None) => Ok(DownloadPlan::Body { offset: 0, length: total, partial: false }),
                Ok(Some((off, len))) => Ok(DownloadPlan::Body { offset: off as u64, length: len as u64, partial: true }),
                Err(()) => Ok(DownloadPlan::Unsatisfiable { total }),
            }
        }
    }
}

/// Plans the answer to a download of `u` with the given `Range` header.
pub fn plan_download(u: &Upload, range: Option<&str>) -> (r: Result<DownloadPlan, TusError>)
    ensures
        match download_spec(*u, opt_str_chars(range)) {
            Ok(p) => r == Ok::<DownloadPlan, TusError>(p),
            Err(e) => r matches Err(x) && x@ == e,
        },
{
    if u.status != UploadStatus::Finalized {
        return Err(TusError::NotFound);
    }
    let total = u.upload_length as u64;
    if total == 0 {
        return Ok(DownloadPlan::Empty);
    }
    match parse_range(range, total) {
        Ok(None) => Ok(DownloadPlan::Body { offset: 0, length: total, partial: false }),
        Ok(Some((offset, length))) => Ok(DownloadPlan::Body { offset, length, partial: true }),
        Err(()) => Ok(DownloadPlan::Unsatisfiable { total }),
    }
}

/// A planned body lies inside the file: it starts before the end, is not
/// empty, and ends at or before the last byte.
pub proof fn lemma_download_within_file(u: Upload, range: Option<Seq<char>>)
    requires
        download_spec(u, range) matches Ok(DownloadPlan::Body { .. }),
    ensures
        ({
            let p = download_spec(u, range)->Ok_0;
            &&& 0 < p->length
            &&& p->offset + p->length <= (u.upload_length as u64)
        }),
{
}

/// A HEAD is answered exactly for an upload visible on the route, not
/// removed, and not expired, and then reports its offset, its length unless
/// deferred, and its concatenation type.  The global routes see every upload,
/// a context's routes exactly that context's uploads.
pub proof fn lemma_head_answers(u: Upload, scope: Option<Seq<char>>, expired: bool)
    ensures
        scope is None ==> scope_spec(u, scope) is Ok,
        scope matches Some(ctx) ==> (scope_spec(u, scope) is Ok <==> opt_chars(u.context_id) == Some(ctx)),
        head_spec(u, scope, expired) is Ok <==> (scope_spec(u, scope) is Ok && u.status != UploadStatus::Abandoned
            && !expired),
        head_spec(u, scope, expired) matches Ok((off, len, concat)) ==> off == u.upload_offset && (len is None
            <==> u.length_is_deferred) && (len matches Some(l) ==> l == u.upload_length) && concat == opt_chars(
            u.concat_type,
        ),
        scope_spec(u, scope) is Ok && u.status != UploadStatus::Abandoned && expired ==> head_spec(u, scope, expired)
            == Err::<(i64, Option<i64>, Option<Seq<char>>), TusErrorView>(TusErrorView::Expired),
{
}

/// Only a finalized upload is downloaded.  Without a `Range` header a
/// non-empty file is served whole with `200`; a satisfiable range is served
/// with `206`, an unsatisfiable one answered with `416` and the file size.
pub proof fn lemma_download_answers(u: Upload, range: Option<Seq<char>>)
    ensures
        download_spec(u, range) is Ok <==> u.status == UploadStatus::Finalized,
        u.status == UploadStatus::Finalized && u.upload_length as u64 > 0 && range is None ==> download_spec(u, range)
            == Ok::<DownloadPlan, TusErrorView>(
            DownloadPlan::Body { offset: 0, length: u.upload_length as u64, partial: false },
        ),
        download_spec(u, range) matches Ok(DownloadPlan::Body { offset, length, partial }) ==> (partial <==> !(
        offset == 0 && length == u.upload_length as u64 && range_spec(range, u.upload_length as u64 as nat) == Ok::<
            Option<(nat, nat)>,
            (),
        >(None))),
        download_spec(u, range) matches Ok(DownloadPlan::Unsatisfiable { total }) ==> total == u.upload_length as u64
            && range_spec(range, total as nat) is Err,
{
}

/// `Content-Range` of a partial answer: `bytes {offset}-{end}/{total}`.
pub fn content_range(offset: u64, length: u64, total: u64) -> (r: String)
    requires
        0 < offset + length <= u64::MAX,
    ensures
        r@ == "bytes "@ + nat_text(offset as nat) + "-"@ + nat_text((offset + length - 1) as nat)
            + "/"@ + nat_text(total as nat),
{
    let mut out = "bytes ".to_owned();
    append_u64(&mut out, offset);
    append_str(&mut out, "-");
    append_u64(&mut out, offset + length - 1);
    append_str(&mut out, "/");
    append_u64(&mut out, total);
    out
}

/// `Content-Range` of a `416` answer: `bytes */{total}`.
pub fn unsatisfied_range(total: u64) -> (r: String)
    ensures
        r@ == "bytes */"@ + nat_text(total as nat),
{
    let mut out = "bytes */".to_owned();
    append_u64(&mut out, total);
    out
}

/// `name` with `\` and `"` escaped by a backslash.
pub open spec fn quote_escape(name: Seq<char>) -> Seq<char>
    decreases name.len(),
{
    if name.len() == 0 {
        seq![]
    } else {
        let c = name.last();
        quote_escape(name.drop_last()) + (if c == '\\' || c == '"' {
            seq!['\\', c]
        } else {
            seq![c]
        })
    }
}

/// `Content-Disposition` of a download: `attachment; filename="{escaped}"`.
pub fn content_disposition(filename: &str) -> (r: String)
    ensures
        r@ == "attachment; filename=\""@ + quote_escape(filename@) + "\""@,
{
    let cs = chars_of(filename);
    let mut out = "attachment; filename=\"".to_owned();
    let ghost start = out@;
    let mut i: usize = 0;
    while i < cs.len()
        invariant
            i <= cs.len(),
            out@ == start + quote_escape(cs@.subrange(0, i as int)),
        decreases cs.len() - i,
    {
        let c = cs[i];
        proof {
            assert(cs@.subrange(0, i + 1).drop_last() =~= cs@.subrange(0, i as int));
        }
        if c == '\\' || c == '"' {
            push_char(&mut out, '\\');
        }
        push_char(&mut out, c);
        proof {
            if c == '\\' || c == '"' {
                assert(out@ =~= start + quote_escape(cs@.subrange(0, i + 1)));
            } else {
                assert(out@ =~= start + quote_escape(cs@.subrange(0, i + 1)));
            }
        }
        i += 1;
    }
    assert(cs@.subrange(0, cs.len() as int) =~= cs@);
    append_str(&mut out, "\"");
    out
}

/// The media type a download is served as: the `filetype` (else `type`) entry
/// of the upload's metadata, else `application/octet-stream`.
pub open spec fn content_type_spec(metadata_json: Option<Seq<char>>) -> Seq<char> {
    match metadata_json {
        None => "application/octet-stream"@,
        Some(j) => match json_string_map(j) {
            None => "application/octet-stream"@,
            Some(m) => declared_type(m),
        },
    }
}

/// The type metadata pairs declare: `filetype`, else `type`, else
/// `application/octet-stream`.
pub open spec fn declared_type(m: Seq<(Seq<char>, Seq<char>)>) -> Seq<char> {
    match lookup(m, "filetype"@) {
        Some(t) => t,
        None => match lookup(m, "type"@) {
            Some(t) => t,
            None => "application/octet-stream"@,
        },
    }
}

/// The `Content-Type` of a download of an upload with this stored metadata.
pub fn download_content_type(metadata_json: Option<&str>) -> (r: String)
    ensures
        r@ == content_type_spec(opt_str_chars(metadata_json)),
{
    let j = match metadata_json {
        None => {
            return "application/octet-stream".to_owned();
        },
        Some(j) => j,
    };
    let m = match parse_json_string_map(j) {
        None => {
            return "application/octet-stream".to_owned();
        },
        Some(m) => m,
    };
    proof {
        assert(crate::codec::pairs_view(m@) =~= crate::metadata::pairs_of(m@));
    }
    match get(m.as_slice(), "filetype") {
        Some(t) => t,
        None => match get(m.as_slice(), "type") {
            Some(t) => t,
            None => "application/octet-stream".to_owned(),
        },
    }
}

/// The `Location` of a new upload: `{base}/files/{id}` on the global routes,
/// `{base}/{slug}/files/{id}` on a context's routes.
pub fn upload_location(base_url: &str, slug: Option<&str>, id: &str) -> (r: String)
    ensures
        r@ == base_url@ + match slug {
            Some(s) => "/"@ + s@,
            None => seq![],
        } + "/files/"@ + id@,
{
    let mut out = base_url.to_owned();
    match slug {
        Some(s) => {
            append_str(&mut out, "/");
            append_str(&mut out, s);
        },
        None => {},
    }
    append_str(&mut out, "/files/");
    append_str(&mut out, id);
    out
}

} // verus!
