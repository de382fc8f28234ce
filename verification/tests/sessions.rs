use tuskar::accounts::{
    authenticate, authorize_password_change, check_admin_seed_password, check_delete_user,
    confirm_current_password, hash_password, require_admin, validate_new_user,
    ChangePasswordRequest, CreateUserRequest, SessionUser,
};
use tuskar::net::IpAddress;
use tuskar::session::{
    base_origin, clear_flow_cookie, clear_session_cookie, extract_cookie, extract_session_token,
    flow_cookie, origin_allowed, session_cookie, session_gate, SessionRejection,
};
use tuskar::sso::{
    check_callback, fallback_username, split_flow, username_base, username_candidates,
    CallbackParams,
};
use tuskar::status::TusError;
use tuskar::throttle::LoginThrottle;

fn user(id: &str, role: &str) -> SessionUser {
    SessionUser { id: id.into(), username: "u".into(), role: role.into() }
}

// ── cookies and origins ──────────────────────────────────────────────────

#[test]
fn session_token_is_read_from_the_cookie_header() {
    assert_eq!(extract_session_token(Some("a=1; tuskar_session=abc ; b=2")), Some("abc".to_string()));
    assert_eq!(extract_session_token(Some("tuskar_session= ; tuskar_session=xyz")), Some("xyz".to_string()));
    assert_eq!(extract_session_token(Some("other=1")), None);
    assert_eq!(extract_session_token(None), None);
    assert_eq!(extract_cookie(Some("oidc_flow=a.b.c"), "oidc_flow"), Some("a.b.c".to_string()));
}

#[test]
fn base_origin_keeps_scheme_host_and_port() {
    assert_eq!(base_origin("https://example.com:4000/dashboard"), "https://example.com:4000");
    assert_eq!(base_origin("http://localhost:3000"), "http://localhost:3000");
    assert_eq!(base_origin("example.com/x"), "example.com");
}

#[test]
fn state_changing_requests_need_the_own_origin() {
    let base = "https://files.example.com/";
    assert!(origin_allowed("GET", Some("https://evil.example"), base));
    assert!(origin_allowed("POST", None, base));
    assert!(origin_allowed("POST", Some("https://files.example.com"), base));
    assert!(!origin_allowed("POST", Some("https://evil.example"), base));
    assert_eq!(
        session_gate("DELETE", Some("https://evil.example"), Some("tuskar_session=t"), base),
        Err(SessionRejection::InvalidOrigin)
    );
    assert_eq!(session_gate("GET", None, None, base), Err(SessionRejection::Unauthorized));
    assert_eq!(session_gate("GET", None, Some("tuskar_session=t"), base), Ok("t".to_string()));
    assert_eq!(SessionRejection::InvalidOrigin.status_code(), 403);
    assert_eq!(SessionRejection::Unauthorized.message(), "unauthorized");
}

#[test]
fn cookies_that_are_set() {
    assert_eq!(
        session_cookie("tok", true),
        "tuskar_session=tok; Path=/; HttpOnly; SameSite=Lax; Max-Age=86400; Secure"
    );
    assert_eq!(
        session_cookie("tok", false),
        "tuskar_session=tok; Path=/; HttpOnly; SameSite=Lax; Max-Age=86400"
    );
    assert_eq!(clear_session_cookie(false), "tuskar_session=; Path=/; HttpOnly; SameSite=Lax; Max-Age=0");
    assert_eq!(
        flow_cookie("s", "n", "v"),
        "oidc_flow=s.n.v; Path=/api/auth/oidc; HttpOnly; SameSite=Lax; Max-Age=300"
    );
    assert_eq!(clear_flow_cookie(), "oidc_flow=; Path=/api/auth/oidc; HttpOnly; SameSite=Lax; Max-Age=0");
}

#[test]
fn a_set_session_cookie_is_read_back() {
    let set = session_cookie("0f1e2d3c-aaaa-bbbb-cccc-123456789abc", true);
    let pair = set.split(';').next().unwrap().to_string();
    assert_eq!(
        extract_session_token(Some(pair.as_str())),
        Some("0f1e2d3c-aaaa-bbbb-cccc-123456789abc".to_string())
    );
}

// ── single sign-on ───────────────────────────────────────────────────────

#[test]
fn flow_cookie_splits_into_three_parts() {
    assert_eq!(
        split_flow("st.no.ver.with.dots"),
        Some(("st".to_string(), "no".to_string(), "ver.with.dots".to_string()))
    );
    assert_eq!(split_flow("only.two"), None);
}

#[test]
fn callback_checks() {
    let cookie = "oidc_flow=st.no.ver";
    let ok = CallbackParams { code: Some("c1".into()), state: Some("st".into()), error: None };
    let g = check_callback(&ok, Some(cookie)).unwrap();
    assert_eq!((g.code.as_str(), g.nonce.as_str(), g.pkce_verifier.as_str()), ("c1", "no", "ver"));
    let wrong_state = CallbackParams { code: Some("c1".into()), state: Some("xx".into()), error: None };
    assert!(check_callback(&wrong_state, Some(cookie)).is_none());
    let idp_error = CallbackParams { code: Some("c1".into()), state: Some("st".into()), error: Some("denied".into()) };
    assert!(check_callback(&idp_error, Some(cookie)).is_none());
    assert!(check_callback(&ok, None).is_none());
    let no_code = CallbackParams { code: None, state: Some("st".into()), error: None };
    assert!(check_callback(&no_code, Some(cookie)).is_none());
}

#[test]
fn provisioned_usernames() {
    assert_eq!(username_base(Some("jane.doe!"), None), "janedoe");
    assert_eq!(username_base(None, Some("bob_smith@example.com")), "bob_smith");
    assert_eq!(username_base(None, None), "sso_user");
    assert_eq!(username_base(Some("!!!"), None), "sso_user");
    assert_eq!(username_base(Some(&"x".repeat(40)), None), "x".repeat(32));
    let c = username_candidates("bob");
    assert_eq!(c.len(), 99);
    assert_eq!(c[0], "bob");
    assert_eq!(c[1], "bob2");
    assert_eq!(c[98], "bob99");
    assert_eq!(fallback_username("bob", "1234abcd-0000-1111-2222-333344445555"), "bob_1234abcd");
}

// ── accounts ─────────────────────────────────────────────────────────────

#[test]
fn only_admins_manage_users() {
    assert_eq!(require_admin(&user("1", "admin")), Ok(()));
    assert_eq!(require_admin(&user("1", "viewer")), Err(TusError::Forbidden));
}

#[test]
fn new_users_are_validated() {
    let admin = user("1", "admin");
    let req = |u: &str, p: &str, r: Option<&str>| CreateUserRequest {
        username: u.into(),
        password: p.into(),
        role: r.map(|s| s.to_string()),
    };
    assert_eq!(
        validate_new_user(&admin, &req("  alice ", "secret1", None)),
        Ok(("alice".to_string(), "viewer".to_string()))
    );
    assert_eq!(
        validate_new_user(&admin, &req("   ", "secret1", None)),
        Err(TusError::InvalidHeader("username is required".into()))
    );
    assert_eq!(
        validate_new_user(&admin, &req("bob", "12345", None)),
        Err(TusError::InvalidHeader("password must be at least 6 characters".into()))
    );
    assert_eq!(
        validate_new_user(&admin, &req("bob", "123456", Some("root"))),
        Err(TusError::InvalidHeader("role must be admin or viewer".into()))
    );
    assert_eq!(validate_new_user(&user("2", "viewer"), &req("bob", "123456", None)), Err(TusError::Forbidden));
}

#[test]
fn account_deletion_and_password_changes() {
    let admin = user("1", "admin");
    assert_eq!(
        check_delete_user(&admin, "1"),
        Err(TusError::InvalidHeader("cannot delete your own account".into()))
    );
    assert_eq!(check_delete_user(&admin, "2"), Ok(()));
    let body = |cur: Option<&str>, new: &str| ChangePasswordRequest {
        current_password: cur.map(|s| s.to_string()),
        new_password: new.into(),
    };
    assert_eq!(authorize_password_change(&user("2", "viewer"), "3", &body(None, "abcdef")), Err(TusError::Forbidden));
    assert_eq!(authorize_password_change(&admin, "3", &body(None, "abcdef")), Ok(None));
    assert_eq!(
        authorize_password_change(&admin, "1", &body(None, "abcdef")),
        Err(TusError::InvalidHeader("current_password is required".into()))
    );
    assert_eq!(authorize_password_change(&admin, "1", &body(Some("old"), "abcdef")), Ok(Some("old".to_string())));
    assert_eq!(
        authorize_password_change(&admin, "1", &body(Some("old"), "abc")),
        Err(TusError::InvalidHeader("password must be at least 6 characters".into()))
    );
}

#[test]
fn seed_password_must_be_given() {
    assert_eq!(check_admin_seed_password(None), Ok("admin123".to_string()));
    assert_eq!(check_admin_seed_password(Some("  ")), Err("ADMIN_PASSWORD must not be empty".to_string()));
    assert_eq!(check_admin_seed_password(Some("pw")), Ok("pw".to_string()));
}

#[test]
fn stored_passwords_log_in() {
    let hash = hash_password("correct horse").unwrap();
    assert_eq!(confirm_current_password("correct horse", Some(hash.as_str())), Ok(()));
    assert_eq!(confirm_current_password("wrong", Some(hash.as_str())), Err(TusError::Unauthorized));
    assert_eq!(confirm_current_password("x", None), Err(TusError::NotFound));
    assert!(matches!(confirm_current_password("x", Some("not a hash")), Err(TusError::Internal(_))));
}

#[test]
fn login_records_failures_and_successes() {
    let hash = bcrypt::hash("pw123456", 4).unwrap();
    let ip = IpAddress::V4([203, 0, 113, 1]);
    let mut t = LoginThrottle::new(2, 900);
    let acct = || Some(("id1".to_string(), hash.clone(), "admin".to_string()));
    assert_eq!(authenticate(&mut t, ip, "alice", "nope", acct(), hash.as_str()), None);
    assert_eq!(t.check(ip, "alice"), None);
    assert_eq!(authenticate(&mut t, ip, "ghost", "pw123456", None, hash.as_str()), None);
    assert!(t.check(ip, "bob").is_some());
    assert_eq!(
        authenticate(&mut t, ip, "alice", "pw123456", acct(), hash.as_str()),
        Some(("id1".to_string(), "admin".to_string()))
    );
    assert_eq!(t.check(ip, "alice"), None);
}

#[test]
fn repeated_failures_lock_the_source_out() {
    let ip = IpAddress::V4([192, 0, 2, 7]);
    let other = IpAddress::V4([192, 0, 2, 8]);
    let mut t = LoginThrottle::new(3, 60);
    for _ in 0..2 {
        t.record_failure(ip, "carol");
        assert_eq!(t.check(ip, "dave"), None);
    }
    t.record_failure(ip, "erin");
    let left = t.check(ip, "dave").unwrap();
    assert!(0 < left && left <= 60);
    assert_eq!(t.check(other, "dave"), None);
    t.record_success(ip, "carol");
    assert_eq!(t.check(ip, "dave"), None);
}

#[test]
fn the_default_admin_logs_in_with_admin123() {
    let pw = check_admin_seed_password(None).unwrap();
    let hash = hash_password(&pw).unwrap();
    let mut t = LoginThrottle::new(10, 900);
    let ip = IpAddress::V4([198, 51, 100, 1]);
    let acct = Some(("1".to_string(), hash.clone(), "admin".to_string()));
    assert_eq!(
        authenticate(&mut t, ip, "admin", "admin123", acct, hash.as_str()),
        Some(("1".to_string(), "admin".to_string()))
    );
}

#[test]
fn repeated_failures_lock_the_username_out_from_any_source() {
    let mut t = LoginThrottle::new(3, 60);
    for i in 0..3u8 {
        t.record_failure(IpAddress::V4([192, 0, 2, i]), if i == 1 { "CAROL" } else { "Carol" });
    }
    let left = t.check(IpAddress::V4([203, 0, 113, 9]), "carol").unwrap();
    assert!(0 < left && left <= 60);
    assert_eq!(t.check(IpAddress::V4([203, 0, 113, 9]), "dave"), None);
    t.record_success(IpAddress::V4([203, 0, 113, 9]), "carol");
    assert_eq!(t.check(IpAddress::V4([203, 0, 113, 9]), "carol"), None);
}

#[test]
fn lockout_runs_out_after_the_configured_seconds() {
    let ip = IpAddress::V4([192, 0, 2, 50]);
    let mut t = LoginThrottle::new(2, 60);
    t.record_failure_at(ip, "Frank", 0);
    assert_eq!(t.check_at(ip, "x", 1_000_000_000), None);
    t.record_failure_at(ip, "frank", 5_000_000_000);
    // Address locked: 60 s from the last failure, whole seconds elapsed.
    assert_eq!(t.check_at(ip, "x", 5_000_000_000), Some(60));
    assert_eq!(t.check_at(ip, "x", 6_500_000_000), Some(59));
    assert_eq!(t.check_at(ip, "x", 64_999_999_999), Some(1));
    assert_eq!(t.check_at(ip, "x", 65_000_000_000), None);
    // Username locked from another address, under another spelling.
    let elsewhere = IpAddress::V4([198, 51, 100, 2]);
    assert_eq!(t.check_at(elsewhere, "FRANK", 10_000_000_000), Some(55));
    // A reading before the last failure counts as no time passed.
    assert_eq!(t.check_at(elsewhere, "frank", 1), Some(60));
    t.record_success(ip, "frank");
    assert_eq!(t.check_at(ip, "frank", 5_000_000_000), None);
}

#[test]
fn throttle_clock_moves_forward() {
    let t = LoginThrottle::new(1, 1);
    let a = t.now();
    let b = t.now();
    assert!(a <= b);
}
