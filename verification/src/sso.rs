//! Single sign-on: the state an SSO login carries between its two requests,
//! the checks of the provider's callback, and the username a new SSO user is
//! given.
use vstd::prelude::*;
use crate::filename::{char_is_alphanumeric, is_alphanumeric};
use crate::session::{cookie_safe, cookie_spec, extract_cookie, flow_cookie_spec, lemma_cookie_round_trip};
use crate::text::{
    append_str, append_u64, chars_of, find, find_char, first_piece, is_ws, lemma_find_char_at, nat_text, opt_chars,
    opt_str_chars, slice_vec, str_eq, string_from_chars,
};

verus! {

/// The query parameters of the provider's callback.
#[derive(Debug, Clone)]
pub struct CallbackParams {
    pub code: Option<String>,
    pub state: Option<String>,
    pub error: Option<String>,
}

/// `flow.splitn(3, '.')` when it yields three parts: the CSRF state, the
/// nonce, and the PKCE verifier (which may itself hold dots).
pub open spec fn flow_parts_spec(flow: Seq<char>) -> Option<(Seq<char>, Seq<char>, Seq<char>)> {
    let i = find_char(flow, '.');
    if i < 0 {
        None
    } else {
        let rest = flow.subrange(i + 1, flow.len() as int);
        let j = find_char(rest, '.');
        if j < 0 {
            None
        } else {
            Some((flow.subrange(0, i), rest.subrange(0, j), rest.subrange(j + 1, rest.len() as int)))
        }
    }
}

/// Splits the value of the flow cookie into state, nonce and verifier.
pub fn split_flow(flow: &str) -> (r: Option<(String, String, String)>)
    ensures
        match flow_parts_spec(flow@) {
            Some((a, b, c)) => r matches Some((x, y, z)) && x@ == a && y@ == b && z@ == c,
            None => r is None,
        },
{
    let f = chars_of(flow);
    let i = match find(f.as_slice(), '.') {
        None => {
            return None;
        },
        Some(i) => i,
    };
    let rest = slice_vec(f.as_slice(), i + 1, f.len());
    let j = match find(rest.as_slice(), '.') {
        None => {
            return None;
        },
        Some(j) => j,
    };
    let a = string_from_chars(slice_vec(f.as_slice(), 0, i).as_slice());
    let b = string_from_chars(slice_vec(rest.as_slice(), 0, j).as_slice());
    let c = string_from_chars(slice_vec(rest.as_slice(), j + 1, rest.len()).as_slice());
    Some((a, b, c))
}

/// What the callback goes on with when its checks pass: the authorization
/// code, and the nonce and PKCE verifier of the flow it ends.
#[derive(Debug, Clone)]
pub struct CallbackGrant {
    pub code: String,
    pub nonce: String,
    pub pkce_verifier: String,
}

/// The callback is accepted when the provider reported no error, the request
/// carries a well-formed flow cookie, its `state` equals the cookie's state,
/// and it carries a code.
pub open spec fn callback_spec(
    error: Option<Seq<char>>,
    cookie_header: Option<Seq<char>>,
    state: Option<Seq<char>>,
    code: Option<Seq<char>>,
) -> Option<(Seq<char>, Seq<char>, Seq<char>)> {
    if error is Some {
        None
    } else {
        match cookie_spec(cookie_header, "oidc_flow"@) {
            None => None,
            Some(flow) => match flow_parts_spec(flow) {
                None => None,
                Some((s, n, v)) => match state {
                    None => None,
                    Some(q) => if q != s {
                        None
                    } else {
                        match code {
                            None => None,
                            Some(c) => Some((c, n, v)),
                        }
                    },
                },
            },
        }
    }
}

/// The checks of the provider's callback that precede the token exchange.
/// `None` sends the browser back to the login page with an SSO error.
pub fn check_callback(params: &CallbackParams, cookie_header: Option<&str>) -> (r: Option<CallbackGrant>)
    ensures
        match callback_spec(opt_chars(params.error), opt_str_chars(cookie_header), opt_chars(params.state), opt_chars(params.code)) {
            Some((c, n, v)) => r matches Some(g) && g.code@ == c && g.nonce@ == n && g.pkce_verifier@ == v,
            None => r is None,
        },
{
    if params.error.is_some() {
        return None;
    }
    let flow = match extract_cookie(cookie_header, "oidc_flow") {
        None => {
            return None;
        },
        Some(f) => f,
    };
    let (s, n, v) = match split_flow(flow.as_str()) {
        None => {
            return None;
        },
        Some(parts) => parts,
    };
    let q = match &params.state {
        None => {
            return None;
        },
        Some(q) => q,
    };
    if !str_eq(q.as_str(), s.as_str()) {
        return None;
    }
    match &params.code {
        None => None,
        Some(c) => Some(CallbackGrant { code: c.clone(), nonce: n, pkce_verifier: v }),
    }
}

// ---------------------------------------------------------------------------
// Usernames of provisioned users
// ---------------------------------------------------------------------------

/// Characters a provisioned username keeps.
pub open spec fn username_char(c: char) -> bool {
    char_is_alphanumeric(c) || c == '_' || c == '-'
}

/// The username characters of `s`, in order.
pub open spec fn keep_username_chars(s: Seq<char>) -> Seq<char>
    decreases s.len(),
{
    if s.len() == 0 {
        s
    } else if username_char(s.last()) {
        keep_username_chars(s.drop_last()).push(s.last())
    } else {
        keep_username_chars(s.drop_last())
    }
}

proof fn lemma_keep_append(a: Seq<char>, b: Seq<char>)
    ensures
        keep_username_chars(a + b) == keep_username_chars(a) + keep_username_chars(b),
    decreases b.len(),
{
    if b.len() == 0 {
        assert(a + b =~= a);
        assert(keep_username_chars(a) + keep_username_chars(b) =~= keep_username_chars(a));
    } else {
        assert((a + b).drop_last() =~= a + b.drop_last());
        assert((a + b).last() == b.last());
        lemma_keep_append(a, b.drop_last());
        if username_char(b.last()) {
            assert(keep_username_chars(a) + keep_username_chars(b.drop_last()).push(b.last())
                =~= (keep_username_chars(a) + keep_username_chars(b.drop_last())).push(b.last()));
        }
    }
}

/// The text a provisioned username is made from: the preferred username, else
/// the part of the e-mail address before the first `@`, else `sso_user`.
pub open spec fn username_source(preferred: Option<Seq<char>>, email: Option<Seq<char>>) -> Seq<char> {
    match preferred {
        Some(p) => p,
        None => match email {
            Some(e) => first_piece(e, '@'),
            None => "sso_user"@,
        },
    }
}

/// The base of a provisioned username: the username characters of its source,
/// at most 32 of them, or `sso_user` when none is left.
pub open spec fn username_base_spec(preferred: Option<Seq<char>>, email: Option<Seq<char>>) -> Seq<char> {
    let k = keep_username_chars(username_source(preferred, email));
    let b = if k.len() > 32 {
        k.take(32)
    } else {
        k
    };
    if b.len() == 0 {
        "sso_user"@
    } else {
        b
    }
}

fn take_username_chars(s: &[char]) -> (r: Vec<char>)
    ensures
        r@ == (if keep_username_chars(s@).len() > 32 {
            keep_username_chars(s@).take(32)
        } else {
            keep_username_chars(s@)
        }),
{
    let mut kept: Vec<char> = Vec::new();
    let mut i: usize = 0;
    while i < s.len() && kept.len() < 32
        invariant
            i <= s.len(),
            kept@ == keep_username_chars(s@.take(i as int)),
            kept.len() <= 32,
        decreases s.len() - i,
    {
        let c = s[i];
        proof {
            assert(s@.take(i + 1).drop_last() =~= s@.take(i as int));
            assert(s@.take(i + 1).last() == c);
        }
        if is_alphanumeric(c) || c == '_' || c == '-' {
            kept.push(c);
        }
        i += 1;
    }
    proof {
        assert(s@ =~= s@.take(i as int) + s@.skip(i as int));
        lemma_keep_append(s@.take(i as int), s@.skip(i as int));
        if i == s.len() {
            assert(s@.take(i as int) =~= s@);
        } else {
            assert(kept.len() == 32);
            assert(keep_username_chars(s@).take(32) =~= kept@);
        }
    }
    kept
}

/// The username base of a new SSO user, from the claims of its ID token.
pub fn username_base(preferred_username: Option<&str>, email: Option<&str>) -> (r: String)
    ensures
        r@ == username_base_spec(opt_str_chars(preferred_username), opt_str_chars(email)),
{
    let src: Vec<char> = match preferred_username {
        Some(p) => chars_of(p),
        None => match email {
            Some(e) => {
                let cs = chars_of(e);
                let end = match find(cs.as_slice(), '@') {
                    Some(j) => j,
                    None => cs.len(),
                };
                let v = slice_vec(cs.as_slice(), 0, end);
                assert(v@ =~= first_piece(cs@, '@'));
                v
            },
            None => chars_of("sso_user"),
        },
    };
    let b = take_username_chars(src.as_slice());
    if b.len() == 0 {
        "sso_user".to_owned()
    } else {
        string_from_chars(b.as_slice())
    }
}

/// The usernames tried, in order, for a new SSO user: the base, then the base
/// followed by 2, 3, ... up to 99.
pub fn username_candidates(base: &str) -> (r: Vec<String>)
    ensures
        r.len() == 99,
        r@[0]@ == base@,
        forall|i: int| 1 <= i < 99 ==> #[trigger] r@[i]@ == base@ + nat_text((i + 1) as nat),
{
    let mut out: Vec<String> = Vec::new();
    out.push(base.to_owned());
    let mut n: u64 = 2;
    while n <= 99
        invariant
            2 <= n <= 100,
            out.len() == n - 1,
            out@[0]@ == base@,
            forall|i: int| 1 <= i < n - 1 ==> #[trigger] out@[i]@ == base@ + nat_text((i + 1) as nat),
        decreases 100 - n,
    {
        let mut c = base.to_owned();
        append_u64(&mut c, n);
        out.push(c);
        n += 1;
    }
    out
}

/// The username used when every numbered candidate is taken: the base, `_`,
/// and the first group of a fresh UUID.
pub fn fallback_username(base: &str, uuid: &str) -> (r: String)
    ensures
        r@ == base@ + "_"@ + first_piece(uuid@, '-'),
{
    let cs = chars_of(uuid);
    let end = match find(cs.as_slice(), '-') {
        Some(j) => j,
        None => cs.len(),
    };
    let head = slice_vec(cs.as_slice(), 0, end);
    assert(head@ =~= first_piece(cs@, '-'));
    let mut out = base.to_owned();
    append_str(&mut out, "_");
    let h = string_from_chars(head.as_slice());
    append_str(&mut out, h.as_str());
    out
}

/// No dot in `s`.
pub open spec fn dot_free(s: Seq<char>) -> bool {
    forall|i: int| 0 <= i < s.len() ==> #[trigger] s[i] != '.'
}

/// The flow an SSO login starts is the flow its callback accepts: when the
/// browser returns the flow cookie (the pair before the first `;` of its
/// `Set-Cookie` header) and the provider returns the same state with a code and
/// no error, the callback goes on with that code and the flow's nonce and PKCE
/// verifier.  This holds for values without whitespace or `;`, whose state and
/// nonce hold no dot (URL-safe base64, as the flow uses).
pub proof fn lemma_flow_accepted(state: Seq<char>, nonce: Seq<char>, verifier: Seq<char>, code: Seq<char>)
    requires
        cookie_safe(state),
        cookie_safe(nonce),
        cookie_safe(verifier),
        dot_free(state),
        dot_free(nonce),
    ensures
        callback_spec(
            None,
            Some(first_piece(flow_cookie_spec(state, nonce, verifier), ';')),
            Some(state),
            Some(code),
        ) == Some((code, nonce, verifier)),
{
    reveal_strlit("oidc_flow=");
    reveal_strlit("oidc_flow");
    reveal_strlit("=");
    reveal_strlit(".");
    reveal_strlit("; Path=/api/auth/oidc; HttpOnly; SameSite=Lax; Max-Age=300");
    let rest = nonce + "."@ + verifier;
    let val = state + "."@ + rest;
    let w = "oidc_flow="@ + val;
    let full = flow_cookie_spec(state, nonce, verifier);
    assert(full =~= w + "; Path=/api/auth/oidc; HttpOnly; SameSite=Lax; Max-Age=300"@);
    assert forall|i: int| 0 <= i < val.len() implies !is_ws(#[trigger] val[i]) && val[i] != ';' by {
        if i < state.len() {
            assert(val[i] == state[i]);
        } else if i == state.len() {
            assert(val[i] == '.');
        } else if i < state.len() + 1 + nonce.len() {
            assert(val[i] == nonce[i - state.len() - 1]);
        } else if i == state.len() + 1 + nonce.len() {
            assert(val[i] == '.');
        } else {
            assert(val[i] == verifier[i - state.len() - nonce.len() - 2]);
        }
    }
    assert(full[w.len() as int] == ';');
    assert forall|j: int| 0 <= j < w.len() implies full[j] != ';' by {
        if j >= 10 {
            assert(full[j] == val[j - 10]);
        }
    }
    lemma_find_char_at(full, ';', w.len() as int);
    assert(first_piece(full, ';') =~= w);
    assert("oidc_flow"@ + "="@ =~= "oidc_flow="@);
    assert(cookie_safe("oidc_flow"@));
    lemma_cookie_round_trip("oidc_flow"@, val);
    assert(val[state.len() as int] == '.');
    assert forall|j: int| 0 <= j < state.len() implies val[j] != '.' by {
        assert(val[j] == state[j]);
    }
    lemma_find_char_at(val, '.', state.len() as int);
    assert(val.subrange(state.len() as int + 1, val.len() as int) =~= rest);
    assert(rest[nonce.len() as int] == '.');
    assert forall|j: int| 0 <= j < nonce.len() implies rest[j] != '.' by {
        assert(rest[j] == nonce[j]);
    }
    lemma_find_char_at(rest, '.', nonce.len() as int);
    assert(val.subrange(0, state.len() as int) =~= state);
    assert(rest.subrange(0, nonce.len() as int) =~= nonce);
    assert(rest.subrange(nonce.len() as int + 1, rest.len() as int) =~= verifier);
}

/// The callback goes on only when the provider reported no error, the request
/// carries a code and a state, and that state is the state of the flow cookie;
/// it goes on with that code and the cookie's nonce and verifier.
pub proof fn lemma_callback_needs_matching_state(
    error: Option<Seq<char>>,
    cookie_header: Option<Seq<char>>,
    state: Option<Seq<char>>,
    code: Option<Seq<char>>,
)
    ensures
        callback_spec(error, cookie_header, state, code) matches Some((c, n, v)) ==> error is None && code == Some(c)
            && (cookie_spec(cookie_header, "oidc_flow"@) matches Some(flow) && flow_parts_spec(flow) matches Some((s, n2, v2))
            && state == Some(s) && n == n2 && v == v2),
        error is Some || code is None || state is None ==> callback_spec(error, cookie_header, state, code) is None,
{
}

/// A provisioned username base is never empty, holds at most 32 characters,
/// and only letters, digits, `_` and `-` (or is `sso_user`).
pub proof fn lemma_username_base_shape(preferred: Option<Seq<char>>, email: Option<Seq<char>>)
    ensures
        username_base_spec(preferred, email).len() > 0,
        username_base_spec(preferred, email).len() <= 32,
        username_base_spec(preferred, email) == "sso_user"@ || forall|i: int|
            0 <= i < username_base_spec(preferred, email).len() ==> username_char(
                #[trigger] username_base_spec(preferred, email)[i],
            ),
{
    reveal_strlit("sso_user");
    let k = keep_username_chars(username_source(preferred, email));
    lemma_keep_only_username_chars(k.len() as int, username_source(preferred, email));
}

proof fn lemma_keep_only_username_chars(n: int, s: Seq<char>)
    requires
        n == keep_username_chars(s).len(),
    ensures
        forall|i: int| 0 <= i < keep_username_chars(s).len() ==> username_char(#[trigger] keep_username_chars(s)[i]),
    decreases s.len(),
{
    if s.len() > 0 {
        lemma_keep_only_username_chars(keep_username_chars(s.drop_last()).len() as int, s.drop_last());
    }
}

} // verus!
