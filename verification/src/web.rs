//! What the HTTP layer adds around every request: security headers, the
//! audit record's fields, the rate limit's quota, the TUS discovery answer and
//! the metrics' labels.
use vstd::prelude::*;
use crate::protocol::{TUS_EXTENSIONS, TUS_SUPPORTED_VERSIONS, TUS_VERSION};

use crate::text::{append_str, chars_of, find, first_piece, has_prefix, i64_to_string, int_text, opt_chars, opt_str_chars, slice_vec, split_first, split_pieces, starts_with, string_from_chars, trim, trimmed};

verus! {

// ---------------------------------------------------------------------------
// Security headers
// ---------------------------------------------------------------------------

/// The Content-Security-Policy: the dashboard's own resources only, and no
/// framing by others; the configured Grafana dashboard may be framed.
pub open spec fn csp_spec(grafana_url: Option<Seq<char>>) -> Seq<char> {
    let frame_src = match grafana_url {
        Some(u) => "frame-src 'self' "@ + u + "; "@,
        None => ""@,
    };
    "default-src 'self'; script-src 'self' 'unsafe-inline'; style-src 'self' 'unsafe-inline'; img-src 'self' data: blob:; connect-src 'self'; font-src 'self'; "@
        + frame_src + "frame-ancestors 'none'; object-src 'none'; base-uri 'self'"@
}

/// Builds the Content-Security-Policy header.
pub fn build_csp(grafana_url: Option<&str>) -> (r: String)
    ensures
        r@ == csp_spec(opt_str_chars(grafana_url)),
{
    let mut out = "default-src 'self'; script-src 'self' 'unsafe-inline'; style-src 'self' 'unsafe-inline'; img-src 'self' data: blob:; connect-src 'self'; font-src 'self'; ".to_owned();
    match grafana_url {
        Some(u) => {
            append_str(&mut out, "frame-src 'self' ");
            append_str(&mut out, u);
            append_str(&mut out, "; ");
        },
        None => {
            proof {
                reveal_strlit("");
                assert(out@ + ""@ =~= out@);
            }
        },
    }
    append_str(&mut out, "frame-ancestors 'none'; object-src 'none'; base-uri 'self'");
    out
}

/// The headers added to every response: framing, sniffing and referrer
/// policies, the Content-Security-Policy, and HSTS when cookies are secure.
pub fn security_headers(grafana_url: Option<&str>, cookie_secure: bool) -> (r: Vec<(String, String)>)
    ensures
        r.len() == (if cookie_secure {
            5int
        } else {
            4int
        }),
        r@[0].0@ == "x-frame-options"@ && r@[0].1@ == "DENY"@,
        r@[1].0@ == "x-content-type-options"@ && r@[1].1@ == "nosniff"@,
        r@[2].0@ == "referrer-policy"@ && r@[2].1@ == "strict-origin-when-cross-origin"@,
        r@[3].0@ == "content-security-policy"@ && r@[3].1@ == csp_spec(opt_str_chars(grafana_url)),
        cookie_secure ==> r@[4].0@ == "strict-transport-security"@ && r@[4].1@
            == "max-age=31536000; includeSubDomains"@,
{
    let mut v: Vec<(String, String)> = Vec::new();
    v.push(("x-frame-options".to_owned(), "DENY".to_owned()));
    v.push(("x-content-type-options".to_owned(), "nosniff".to_owned()));
    v.push(("referrer-policy".to_owned(), "strict-origin-when-cross-origin".to_owned()));
    v.push(("content-security-policy".to_owned(), build_csp(grafana_url)));
    if cookie_secure {
        v.push(("strict-transport-security".to_owned(), "max-age=31536000; includeSubDomains".to_owned()));
    }
    v
}

// ---------------------------------------------------------------------------
// Audit
// ---------------------------------------------------------------------------

/// The upload a request path is about: the segment after `/files/` or
/// `/api/uploads/`, when it is not empty.
pub open spec fn upload_id_spec(path: Seq<char>) -> Option<Seq<char>> {
    if has_prefix(path, "/files/"@) && first_piece(path.subrange(7, path.len() as int), '/').len() > 0 {
        Some(first_piece(path.subrange(7, path.len() as int), '/'))
    } else if has_prefix(path, "/api/uploads/"@) && first_piece(path.subrange(13, path.len() as int), '/').len() > 0 {
        Some(first_piece(path.subrange(13, path.len() as int), '/'))
    } else {
        None
    }
}

fn segment_after(path: &[char], skip: usize) -> (r: Vec<char>)
    requires
        skip <= path.len(),
    ensures
        r@ == first_piece(path@.subrange(skip as int, path.len() as int), '/'),
{
    let rest = slice_vec(path, skip, path.len());
    let end = match find(rest.as_slice(), '/') {
        Some(j) => j,
        None => rest.len(),
    };
    let seg = slice_vec(rest.as_slice(), 0, end);
    assert(seg@ =~= first_piece(rest@, '/'));
    seg
}

/// The upload id an audited request is about, if any.
pub fn extract_upload_id(path: &str) -> (r: Option<String>)
    ensures
        opt_chars(r) == upload_id_spec(path@),
{
    let cs = chars_of(path);
    let files = chars_of("/files/");
    let uploads = chars_of("/api/uploads/");
    proof {
        reveal_strlit("/files/");
        reveal_strlit("/api/uploads/");
    }
    if starts_with(cs.as_slice(), files.as_slice()) {
        let seg = segment_after(cs.as_slice(), 7);
        if seg.len() > 0 {
            return Some(string_from_chars(seg.as_slice()));
        }
    }
    if starts_with(cs.as_slice(), uploads.as_slice()) {
        let seg = segment_after(cs.as_slice(), 13);
        if seg.len() > 0 {
            return Some(string_from_chars(seg.as_slice()));
        }
    }
    None
}

/// The upload of `/files/<id>` and `/api/uploads/<id>`, with or without more
/// path after the ID, is `<id>`.
pub proof fn lemma_upload_id_of_path(id: Seq<char>, rest: Seq<char>)
    requires
        id.len() > 0,
        forall|i: int| 0 <= i < id.len() ==> id[i] != '/',
    ensures
        upload_id_spec("/files/"@ + id) == Some(id),
        upload_id_spec("/files/"@ + id + seq!['/'] + rest) == Some(id),
        upload_id_spec("/api/uploads/"@ + id) == Some(id),
        upload_id_spec("/api/uploads/"@ + id + seq!['/'] + rest) == Some(id),
{
    reveal_strlit("/files/");
    reveal_strlit("/api/uploads/");
    let q = id + seq!['/'] + rest;
    assert(q[id.len() as int] == '/');
    assert forall|j: int| 0 <= j < id.len() implies q[j] != '/' by {
        assert(q[j] == id[j]);
    }
    crate::text::lemma_find_char_at(q, '/', id.len() as int);
    assert(q.subrange(0, id.len() as int) =~= id);
    crate::text::lemma_find_none(id, '/');
    let a = "/files/"@ + id;
    assert(a.subrange(0, 7) =~= "/files/"@);
    assert(a.subrange(7, a.len() as int) =~= id);
    let b = "/files/"@ + id + seq!['/'] + rest;
    assert(b.subrange(0, 7) =~= "/files/"@);
    assert(b.subrange(7, b.len() as int) =~= q);
    let c = "/api/uploads/"@ + id;
    assert(c.subrange(0, 13) =~= "/api/uploads/"@);
    assert(c.subrange(13, c.len() as int) =~= id);
    assert(!has_prefix(c, "/files/"@)) by {
        assert(c[1] == 'a');
    }
    let d = "/api/uploads/"@ + id + seq!['/'] + rest;
    assert(d.subrange(0, 13) =~= "/api/uploads/"@);
    assert(d.subrange(13, d.len() as int) =~= q);
    assert(!has_prefix(d, "/files/"@)) by {
        assert(d[1] == 'a');
    }
}

/// Other sites may never frame the dashboard; the configured Grafana URL, and
/// only it, may be framed by it.
pub proof fn lemma_csp_framing(grafana_url: Option<Seq<char>>)
    ensures
        csp_spec(grafana_url) == "default-src 'self'; script-src 'self' 'unsafe-inline'; style-src 'self' 'unsafe-inline'; img-src 'self' data: blob:; connect-src 'self'; font-src 'self'; "@
            + (if grafana_url is Some { "frame-src 'self' "@ + grafana_url->0 + "; "@ } else { ""@ })
            + "frame-ancestors 'none'; object-src 'none'; base-uri 'self'"@,
{
}

/// Who an audited request is attributed to, before any session is looked up.
#[derive(Debug, Clone)]
pub enum ActorSource {
    /// The request carries an `Authorization` header.
    ApiKey,
    /// The request carries this session token (its user's name is the actor).
    Session(String),
    /// Neither.
    Anonymous,
}

/// The raw session token among the parts of a `Cookie` header: the text after
/// `tuskar_session=` in the first trimmed part that starts with it.
pub open spec fn raw_session_token(pieces: Seq<Seq<char>>) -> Option<Seq<char>>
    decreases pieces.len(),
{
    if pieces.len() == 0 {
        None
    } else if has_prefix(trim(pieces[0]), "tuskar_session="@) {
        Some(trim(pieces[0]).subrange(15, trim(pieces[0]).len() as int))
    } else {
        raw_session_token(pieces.drop_first())
    }
}

/// The actor of an audited request: `api_key` when it carries an
/// `Authorization` header, else its session (looked up next), else
/// `anonymous`.
pub fn actor_source(has_authorization: bool, cookie_header: Option<&str>) -> (r: ActorSource)
    ensures
        has_authorization ==> r is ApiKey,
        !has_authorization ==> match cookie_header {
            None => r is Anonymous,
            Some(h) => match raw_session_token(split_pieces(h@, ';')) {
                Some(t) => r matches ActorSource::Session(x) && x@ == t,
                None => r is Anonymous,
            },
        },
{
    if has_authorization {
        return ActorSource::ApiKey;
    }
    let h = match cookie_header {
        None => {
            return ActorSource::Anonymous;
        },
        Some(h) => h,
    };
    let prefix = chars_of("tuskar_session=");
    proof {
        reveal_strlit("tuskar_session=");
    }
    assert(prefix@.len() == 15);
    let mut rest = chars_of(h);
    loop
        invariant
            !has_authorization,
            cookie_header == Some(h),
            prefix@.len() == 15,
            prefix@ == "tuskar_session="@,
            raw_session_token(split_pieces(h@, ';')) == raw_session_token(split_pieces(rest@, ';')),
        decreases rest.len(),
    {
        let (piece, next) = split_first(rest.as_slice(), ';');
        let ghost after: Seq<Seq<char>> = if next is Some {
            split_pieces(next->0@, ';')
        } else {
            Seq::empty()
        };
        let ghost pieces = seq![piece@] + after;
        proof {
            if next is None {
                assert(pieces =~= seq![piece@]);
            }
            assert(pieces[0] == piece@);
            assert(pieces.drop_first() =~= after);
        }
        let t = trimmed(piece.as_slice());
        if starts_with(t.as_slice(), prefix.as_slice()) {
            let tok = slice_vec(t.as_slice(), 15, t.len());
            return ActorSource::Session(string_from_chars(tok.as_slice()));
        }
        match next {
            None => {
                assert(raw_session_token(after) is None);
                return ActorSource::Anonymous;
            },
            Some(n) => {
                rest = n;
            },
        }
    }
}

/// The recorded actor: the session's user when one was found, else
/// `anonymous`; `api_key` for key-authenticated requests.
pub fn actor_name(source: &ActorSource, session_user: Option<String>) -> (r: String)
    ensures
        source is ApiKey ==> r@ == "api_key"@,
        source is Anonymous ==> r@ == "anonymous"@,
        source is Session ==> r@ == (match session_user {
            Some(u) => u@,
            None => "anonymous"@,
        }),
{
    match source {
        ActorSource::ApiKey => "api_key".to_owned(),
        ActorSource::Anonymous => "anonymous".to_owned(),
        ActorSource::Session(_) => match session_user {
            Some(u) => u,
            None => "anonymous".to_owned(),
        },
    }
}

// ---------------------------------------------------------------------------
// Rate limit
// ---------------------------------------------------------------------------

/// The per-address quota: `rps` requests per second with a burst of `burst`
/// (`rps` when 0); no limit when `rps` is 0.
pub fn rate_limit_quota(rps: u32, burst: u32) -> (r: Option<(u32, u32)>)
    ensures
        rps == 0 ==> r is None,
        rps != 0 ==> r == Some((rps, if burst == 0 {
            rps
        } else {
            burst
        })),
{
    if rps == 0 {
        return None;
    }
    let b = if burst == 0 {
        rps
    } else {
        burst
    };
    Some((rps, b))
}

// ---------------------------------------------------------------------------
// TUS discovery
// ---------------------------------------------------------------------------

/// The headers of the answer to `OPTIONS` on a TUS endpoint.
pub fn tus_options_headers(max_upload_bytes: i64) -> (r: Vec<(String, String)>)
    ensures
        r.len() == 7,
        r@[0].0@ == "Tus-Resumable"@ && r@[0].1@ == TUS_VERSION@,
        r@[1].0@ == "Tus-Version"@ && r@[1].1@ == TUS_SUPPORTED_VERSIONS@,
        r@[2].0@ == "Tus-Extension"@ && r@[2].1@ == TUS_EXTENSIONS@,
        r@[3].0@ == "Tus-Max-Size"@ && r@[3].1@ == int_text(max_upload_bytes as int),
        r@[4].0@ == "Access-Control-Allow-Methods"@ && r@[4].1@ == "POST, HEAD, PATCH, DELETE, OPTIONS"@,
        r@[5].0@ == "Access-Control-Allow-Headers"@ && r@[5].1@
            == "Upload-Offset, Upload-Length, Upload-Metadata, Upload-Checksum, Upload-Defer-Length, Upload-Concat, Tus-Resumable, Content-Type"@,
        r@[6].0@ == "Access-Control-Expose-Headers"@ && r@[6].1@
            == "Upload-Offset, Upload-Length, Location, Tus-Resumable, Tus-Version, Upload-Expires, Upload-Concat, Upload-Defer-Length, Upload-Checksum"@,
{
    let mut v: Vec<(String, String)> = Vec::new();
    v.push(("Tus-Resumable".to_owned(), TUS_VERSION.to_owned()));
    v.push(("Tus-Version".to_owned(), TUS_SUPPORTED_VERSIONS.to_owned()));
    v.push(("Tus-Extension".to_owned(), TUS_EXTENSIONS.to_owned()));
    v.push(("Tus-Max-Size".to_owned(), i64_to_string(max_upload_bytes)));
    v.push(("Access-Control-Allow-Methods".to_owned(), "POST, HEAD, PATCH, DELETE, OPTIONS".to_owned()));
    v.push((
        "Access-Control-Allow-Headers".to_owned(),
        "Upload-Offset, Upload-Length, Upload-Metadata, Upload-Checksum, Upload-Defer-Length, Upload-Concat, Tus-Resumable, Content-Type".to_owned(),
    ));
    v.push((
        "Access-Control-Expose-Headers".to_owned(),
        "Upload-Offset, Upload-Length, Location, Tus-Resumable, Tus-Version, Upload-Expires, Upload-Concat, Upload-Defer-Length, Upload-Checksum".to_owned(),
    ));
    v
}

/// The path of a context-scoped upload route: `/{context}/files/{id}`.
#[derive(Debug, Clone)]
pub struct ContextIdPath {
    pub context: String,
    pub id: String,
}

// ---------------------------------------------------------------------------
// Metrics labels
// ---------------------------------------------------------------------------

/// The label of a webhook delivery counter.
#[derive(Debug, Clone, PartialEq, Eq, Hash)]
pub struct DeliveryLabels {
    pub outcome: String,
}

/// The label of a per-context metric: the context's slug, or `global`.
#[derive(Debug, Clone, PartialEq, Eq, Hash)]
pub struct ContextLabels {
    pub context: String,
}

/// The values the per-context gauges are set to, in order: every known context
/// and `global` first to 0 (clearing stale values), then each counted row.
pub fn gauge_updates(slugs: &Vec<String>, counts: Vec<(String, i64)>) -> (r: Vec<(String, i64)>)
    ensures
        r.len() == slugs.len() + 1 + counts.len(),
        forall|i: int| 0 <= i < slugs.len() ==> #[trigger] r@[i].0@ == slugs@[i]@ && r@[i].1 == 0,
        r@[slugs.len() as int].0@ == "global"@ && r@[slugs.len() as int].1 == 0,
        forall|i: int| 0 <= i < counts.len() ==> #[trigger] r@[slugs.len() + 1 + i] == counts@[i],
{
    let mut out: Vec<(String, i64)> = Vec::new();
    let mut i: usize = 0;
    while i < slugs.len()
        invariant
            i <= slugs.len(),
            out.len() == i,
            forall|k: int| 0 <= k < i ==> #[trigger] out@[k].0@ == slugs@[k]@ && out@[k].1 == 0,
        decreases slugs.len() - i,
    {
        out.push((slugs[i].clone(), 0));
        i += 1;
    }
    out.push(("global".to_owned(), 0));
    let ghost base = out@;
    let mut j: usize = 0;
    let n = counts.len();
    let mut rest = counts;
    let ghost all = rest@;
    while j < n
        invariant
            n == all.len(),
            j <= n,
            rest@ == all.skip(j as int),
            out.len() == base.len() + j,
            base.len() == slugs.len() + 1,
            forall|k: int| 0 <= k < base.len() ==> #[trigger] out@[k] == base[k],
            forall|k: int| 0 <= k < j ==> #[trigger] out@[base.len() + k] == all[k],
        decreases n - j,
    {
        let item = rest.remove(0);
        assert(rest@ =~= all.skip(j + 1));
        out.push(item);
        j += 1;
    }
    out
}

} // verus!
