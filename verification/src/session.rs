//! Dashboard sessions: the session cookie, the origin check that guards
//! state-changing requests, and the cookies the login flows set and clear.
use vstd::prelude::*;
use crate::text::{
    append_str, chars_of, find, find_char, find_str, find_sub, first_piece, has_prefix, is_ws,
    lemma_find_char_at, lemma_find_none, lemma_trim_no_ws,
    opt_chars, opt_str_chars, slice_vec, split_first, split_pieces, starts_with, str_eq,
    string_from_chars, trim, trimmed,
};

verus! {

// ---------------------------------------------------------------------------
// Cookies
// ---------------------------------------------------------------------------

/// The value of the first cookie among `pieces` whose trimmed text starts with
/// `prefix` (`name=`) and whose trimmed value is not empty.
pub open spec fn cookie_in(pieces: Seq<Seq<char>>, prefix: Seq<char>) -> Option<Seq<char>>
    decreases pieces.len(),
{
    if pieces.len() == 0 {
        None
    } else {
        let t = trim(pieces[0]);
        let v = trim(t.subrange(prefix.len() as int, t.len() as int));
        if has_prefix(t, prefix) && v.len() > 0 {
            Some(v)
        } else {
            cookie_in(pieces.drop_first(), prefix)
        }
    }
}

/// The value of cookie `name` in a `Cookie` header (its `;`-separated parts).
pub open spec fn cookie_spec(header: Option<Seq<char>>, name: Seq<char>) -> Option<Seq<char>> {
    match header {
        Some(h) => cookie_in(split_pieces(h, ';'), name + "="@),
        None => None,
    }
}

proof fn lemma_cookie_in_cons(p: Seq<char>, rest: Seq<Seq<char>>, prefix: Seq<char>)
    ensures
        cookie_in(seq![p] + rest, prefix) == ({
            let t = trim(p);
            let v = trim(t.subrange(prefix.len() as int, t.len() as int));
            if has_prefix(t, prefix) && v.len() > 0 {
                Some(v)
            } else {
                cookie_in(rest, prefix)
            }
        }),
{
    assert((seq![p] + rest).drop_first() =~= rest);
    assert((seq![p] + rest)[0] == p);
}

/// The value of cookie `name` in the `Cookie` header, if the header is there,
/// holds such a cookie, and its value is not blank.
pub fn extract_cookie(header: Option<&str>, name: &str) -> (r: Option<String>)
    ensures
        opt_chars(r) == cookie_spec(opt_str_chars(header), name@),
{
    let h = match header {
        None => {
            return None;
        },
        Some(h) => h,
    };
    let mut prefix = chars_of(name);
    prefix.push('=');
    proof {
        reveal_strlit("=");
        assert(prefix@ =~= name@ + "="@);
    }
    let mut rest = chars_of(h);
    loop
        invariant
            opt_str_chars(header) == Some(h@),
            prefix@ == name@ + "="@,
            cookie_spec(Some(h@), name@) == cookie_in(split_pieces(rest@, ';'), prefix@),
        decreases rest.len(),
    {
        let (piece, next) = split_first(rest.as_slice(), ';');
        let ghost after: Seq<Seq<char>> = if next is Some {
            split_pieces(next->0@, ';')
        } else {
            Seq::empty()
        };
        proof {
            if next is None {
                assert(seq![piece@] + after =~= seq![piece@]);
            }
            lemma_cookie_in_cons(piece@, after, prefix@);
        }
        let t = trimmed(piece.as_slice());
        if starts_with(t.as_slice(), prefix.as_slice()) {
            let v = trimmed(slice_vec(t.as_slice(), prefix.len(), t.len()).as_slice());
            if v.len() > 0 {
                return Some(string_from_chars(v.as_slice()));
            }
        }
        match next {
            None => {
                return None;
            },
            Some(n) => {
                rest = n;
            },
        }
    }
}

/// The session token of a request: the `tuskar_session` cookie.
pub fn extract_session_token(cookie_header: Option<&str>) -> (r: Option<String>)
    ensures
        opt_chars(r) == cookie_spec(opt_str_chars(cookie_header), "tuskar_session"@),
{
    extract_cookie(cookie_header, "tuskar_session")
}

// ---------------------------------------------------------------------------
// Origin check
// ---------------------------------------------------------------------------

/// The scheme, host and port of a URL: everything up to the first `/` after
/// `://` (or up to the first `/` when there is no `://`).
pub open spec fn base_origin_spec(u: Seq<char>) -> Seq<char> {
    let i = find_sub(u, "://"@);
    let start = if i >= 0 {
        i + 3
    } else {
        0
    };
    let rest = u.subrange(start, u.len() as int);
    let j = find_char(rest, '/');
    let end = if j >= 0 {
        j
    } else {
        rest.len() as int
    };
    u.subrange(0, start + end)
}

/// The origin of the configured base URL, e.g. `https://example.com:4000` for
/// `https://example.com:4000/dashboard`.
pub fn base_origin(base_url: &str) -> (r: String)
    ensures
        r@ == base_origin_spec(base_url@),
{
    let u = chars_of(base_url);
    let sep = chars_of("://");
    proof {
        reveal_strlit("://");
    }
    assert(sep@.len() == 3);
    let start: usize = match find_str(u.as_slice(), sep.as_slice()) {
        Some(i) => {
            assert(i + 3 <= u.len());
            i + 3
        },
        None => 0,
    };
    let rest = slice_vec(u.as_slice(), start, u.len());
    let end = match find(rest.as_slice(), '/') {
        Some(j) => j,
        None => rest.len(),
    };
    string_from_chars(slice_vec(u.as_slice(), 0, start + end).as_slice())
}

/// Methods that change nothing, which the origin check lets through.
pub open spec fn safe_method(m: Seq<char>) -> bool {
    m == "GET"@ || m == "HEAD"@ || m == "OPTIONS"@
}

/// A state-changing request is accepted when it carries no `Origin` header or
/// its `Origin` is the origin of the base URL.
pub open spec fn origin_ok_spec(method: Seq<char>, origin: Option<Seq<char>>, base_url: Seq<char>) -> bool {
    safe_method(method) || match origin {
        Some(o) => o == base_origin_spec(base_url),
        None => true,
    }
}

/// The cross-site request check of the dashboard API.
pub fn origin_allowed(method: &str, origin: Option<&str>, base_url: &str) -> (r: bool)
    ensures
        r == origin_ok_spec(method@, opt_str_chars(origin), base_url@),
{
    if str_eq(method, "GET") || str_eq(method, "HEAD") || str_eq(method, "OPTIONS") {
        return true;
    }
    match origin {
        None => true,
        Some(o) => {
            let expected = base_origin(base_url);
            str_eq(o, expected.as_str())
        },
    }
}

/// Why a dashboard request was turned away before its session was looked up.
#[derive(Debug, Clone, Copy, PartialEq, Eq)]
pub enum SessionRejection {
    /// 403: a state-changing request from another origin.
    InvalidOrigin,
    /// 401: no session cookie.
    Unauthorized,
}

impl SessionRejection {
    /// The HTTP status of the rejection.
    pub fn status_code(&self) -> (code: u16)
        ensures
            code == (match *self {
                SessionRejection::InvalidOrigin => 403u16,
                SessionRejection::Unauthorized => 401u16,
            }),
    {
        match self {
            SessionRejection::InvalidOrigin => 403,
            SessionRejection::Unauthorized => 401,
        }
    }

    /// The `error` text of the rejection's JSON body.
    pub fn message(&self) -> (r: String)
        ensures
            r@ == (match *self {
                SessionRejection::InvalidOrigin => "invalid origin"@,
                SessionRejection::Unauthorized => "unauthorized"@,
            }),
    {
        match self {
            SessionRejection::InvalidOrigin => "invalid origin".to_owned(),
            SessionRejection::Unauthorized => "unauthorized".to_owned(),
        }
    }
}

/// The checks a dashboard request passes before its session is looked up:
/// the origin check, then the presence of a session cookie, whose token is
/// returned.
pub fn session_gate(method: &str, origin: Option<&str>, cookie_header: Option<&str>, base_url: &str) -> (r: Result<String, SessionRejection>)
    ensures
        !origin_ok_spec(method@, opt_str_chars(origin), base_url@) ==> r == Err::<String, SessionRejection>(SessionRejection::InvalidOrigin),
        origin_ok_spec(method@, opt_str_chars(origin), base_url@) ==> match cookie_spec(opt_str_chars(cookie_header), "tuskar_session"@) {
            Some(t) => r matches Ok(s) && s@ == t,
            None => r == Err::<String, SessionRejection>(SessionRejection::Unauthorized),
        },
{
    if !origin_allowed(method, origin, base_url) {
        return Err(SessionRejection::InvalidOrigin);
    }
    match extract_session_token(cookie_header) {
        Some(t) => Ok(t),
        None => Err(SessionRejection::Unauthorized),
    }
}

// ---------------------------------------------------------------------------
// Cookies that are set
// ---------------------------------------------------------------------------

/// The `Secure` attribute, when cookies are marked secure.
pub open spec fn secure_suffix(secure: bool) -> Seq<char> {
    if secure {
        "; Secure"@
    } else {
        ""@
    }
}

fn append_secure(out: &mut String, secure: bool)
    ensures
        final(out)@ == old(out)@ + secure_suffix(secure),
{
    if secure {
        append_str(out, "; Secure");
    } else {
        proof {
            reveal_strlit("");
            assert(out@ + ""@ =~= out@);
        }
    }
}

/// The `Set-Cookie` value of a new session (valid for 24 hours).
pub open spec fn session_cookie_spec(token: Seq<char>, secure: bool) -> Seq<char> {
    "tuskar_session="@ + token + "; Path=/; HttpOnly; SameSite=Lax; Max-Age=86400"@
        + secure_suffix(secure)
}

/// The `Set-Cookie` header that starts a session.
pub fn session_cookie(token: &str, secure: bool) -> (r: String)
    ensures
        r@ == session_cookie_spec(token@, secure),
{
    let mut out = "tuskar_session=".to_owned();
    append_str(&mut out, token);
    append_str(&mut out, "; Path=/; HttpOnly; SameSite=Lax; Max-Age=86400");
    append_secure(&mut out, secure);
    out
}

/// The `Set-Cookie` value that ends a session.
pub open spec fn clear_session_cookie_spec(secure: bool) -> Seq<char> {
    "tuskar_session=; Path=/; HttpOnly; SameSite=Lax; Max-Age=0"@ + secure_suffix(secure)
}

/// The `Set-Cookie` header of a logout.
pub fn clear_session_cookie(secure: bool) -> (r: String)
    ensures
        r@ == clear_session_cookie_spec(secure),
{
    let mut out = "tuskar_session=; Path=/; HttpOnly; SameSite=Lax; Max-Age=0".to_owned();
    append_secure(&mut out, secure);
    out
}

/// The `Set-Cookie` value that carries an SSO flow's state, nonce and PKCE
/// verifier, joined by dots, for five minutes.
pub open spec fn flow_cookie_spec(csrf_state: Seq<char>, nonce: Seq<char>, verifier: Seq<char>) -> Seq<char> {
    "oidc_flow="@ + csrf_state + "."@ + nonce + "."@ + verifier
        + "; Path=/api/auth/oidc; HttpOnly; SameSite=Lax; Max-Age=300"@
}

/// The `Set-Cookie` header that starts an SSO flow.
pub fn flow_cookie(csrf_state: &str, nonce: &str, verifier: &str) -> (r: String)
    ensures
        r@ == flow_cookie_spec(csrf_state@, nonce@, verifier@),
{
    let mut out = "oidc_flow=".to_owned();
    append_str(&mut out, csrf_state);
    append_str(&mut out, ".");
    append_str(&mut out, nonce);
    append_str(&mut out, ".");
    append_str(&mut out, verifier);
    append_str(&mut out, "; Path=/api/auth/oidc; HttpOnly; SameSite=Lax; Max-Age=300");
    out
}

/// The `Set-Cookie` header that ends an SSO flow.
pub fn clear_flow_cookie() -> (r: String)
    ensures
        r@ == "oidc_flow=; Path=/api/auth/oidc; HttpOnly; SameSite=Lax; Max-Age=0"@,
{
    "oidc_flow=; Path=/api/auth/oidc; HttpOnly; SameSite=Lax; Max-Age=0".to_owned()
}

// ---------------------------------------------------------------------------
// Laws
// ---------------------------------------------------------------------------

/// Text that can stand in a cookie unquoted: no whitespace and no `;`.
pub open spec fn cookie_safe(s: Seq<char>) -> bool {
    forall|i: int| 0 <= i < s.len() ==> !is_ws(#[trigger] s[i]) && s[i] != ';'
}

/// A `name=value` pair that a browser sends back alone is read as the value
/// of cookie `name`, when neither holds whitespace or `;` and the value is not
/// empty.
pub proof fn lemma_cookie_round_trip(name: Seq<char>, value: Seq<char>)
    requires
        value.len() > 0,
        cookie_safe(name),
        cookie_safe(value),
    ensures
        cookie_spec(Some(name + "="@ + value), name) == Some(value),
{
    reveal_strlit("=");
    let prefix = name + "="@;
    let w = prefix + value;
    assert forall|i: int| 0 <= i < w.len() implies !is_ws(#[trigger] w[i]) && w[i] != ';' by {
        if i < name.len() {
            assert(w[i] == name[i]);
        } else if i == name.len() {
            assert(w[i] == '=');
        } else {
            assert(w[i] == value[i - name.len() - 1]);
        }
    }
    lemma_find_none(w, ';');
    assert(split_pieces(w, ';') == seq![w]);
    lemma_trim_no_ws(w);
    lemma_trim_no_ws(value);
    assert(w.subrange(0, prefix.len() as int) =~= prefix);
    assert(w.subrange(prefix.len() as int, w.len() as int) =~= value);
    assert(seq![w].drop_first() =~= Seq::<Seq<char>>::empty());
}

/// The session a login starts is the session later requests present: the
/// cookie pair of its `Set-Cookie` header (the text before the first `;`)
/// reads back as the token, for a token without whitespace or `;` (a UUID).
pub proof fn lemma_session_cookie_read_back(token: Seq<char>, secure: bool)
    requires
        token.len() > 0,
        cookie_safe(token),
    ensures
        cookie_spec(Some(first_piece(session_cookie_spec(token, secure), ';')), "tuskar_session"@)
            == Some(token),
{
    reveal_strlit("tuskar_session=");
    reveal_strlit("tuskar_session");
    reveal_strlit("=");
    reveal_strlit("; Path=/; HttpOnly; SameSite=Lax; Max-Age=86400");
    let w = "tuskar_session="@ + token;
    let attrs = "; Path=/; HttpOnly; SameSite=Lax; Max-Age=86400"@ + secure_suffix(secure);
    let full = session_cookie_spec(token, secure);
    assert(full =~= w + attrs);
    assert(full[w.len() as int] == ';');
    assert forall|j: int| 0 <= j < w.len() implies full[j] != ';' by {
        if j >= 15 {
            assert(full[j] == token[j - 15]);
        }
    }
    lemma_find_char_at(full, ';', w.len() as int);
    assert(first_piece(full, ';') =~= w);
    assert("tuskar_session"@ + "="@ =~= "tuskar_session="@);
    assert(cookie_safe("tuskar_session"@));
    lemma_cookie_round_trip("tuskar_session"@, token);
}

/// The origin check lets `GET`, `HEAD` and `OPTIONS` through, and any request
/// without an `Origin` header; any other request passes exactly when its
/// `Origin` is the base URL's origin.
pub proof fn lemma_origin_check(method: Seq<char>, origin: Option<Seq<char>>, base_url: Seq<char>)
    ensures
        method == "GET"@ || method == "HEAD"@ || method == "OPTIONS"@ ==> origin_ok_spec(method, origin, base_url),
        origin is None ==> origin_ok_spec(method, origin, base_url),
        !(method == "GET"@ || method == "HEAD"@ || method == "OPTIONS"@) ==> (origin matches Some(o) ==> (
        origin_ok_spec(method, origin, base_url) <==> o == base_origin_spec(base_url))),
{
}

/// A cookie read from a header is never blank, and comes from one of the
/// header's `;`-separated parts.
pub proof fn lemma_cookie_value_from_header(header: Option<Seq<char>>, name: Seq<char>)
    ensures
        cookie_spec(header, name) matches Some(v) ==> v.len() > 0 && header is Some,
{
    if let Some(h) = header {
        lemma_cookie_in_nonblank(split_pieces(h, ';'), name + "="@);
    }
}

proof fn lemma_cookie_in_nonblank(pieces: Seq<Seq<char>>, prefix: Seq<char>)
    ensures
        cookie_in(pieces, prefix) matches Some(v) ==> v.len() > 0,
    decreases pieces.len(),
{
    if pieces.len() > 0 {
        lemma_cookie_in_nonblank(pieces.drop_first(), prefix);
    }
}

/// A session cookie ends a day after it is set, and a cleared one at once;
/// both are marked `Secure` exactly when cookies are to be secure, and both
/// are HTTP-only and scoped to the whole site.
pub proof fn lemma_session_cookie_attributes(token: Seq<char>, secure: bool)
    ensures
        session_cookie_spec(token, secure) == "tuskar_session="@ + token
            + "; Path=/; HttpOnly; SameSite=Lax; Max-Age=86400"@ + (if secure { "; Secure"@ } else { ""@ }),
        clear_session_cookie_spec(secure) == "tuskar_session=; Path=/; HttpOnly; SameSite=Lax; Max-Age=0"@ + (
        if secure { "; Secure"@ } else { ""@ }),
{
}

} // verus!
