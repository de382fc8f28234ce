//! Dashboard accounts: who may manage users, what a new account and a new
//! password must satisfy, and password login with its brute-force throttle.
use vstd::prelude::*;
use vstd::utf8::encode_utf8;
use crate::net::IpAddress;
use crate::status::{TusError, TusErrorView};
use crate::text::{concat_str, opt_chars, opt_str_chars, str_eq, string_from_chars, trim, trimmed, chars_of};
use crate::throttle::{ip_key, user_key, LoginThrottle, ThrottleKeyView};

verus! {

/// The user a dashboard session belongs to.
#[derive(Debug, Clone)]
pub struct SessionUser {
    pub id: String,
    pub username: String,
    pub role: String,
}

/// The body of a password login.
#[derive(Debug, Clone)]
pub struct LoginRequest {
    pub username: String,
    pub password: String,
}

/// A user as listed by the dashboard.
#[derive(Debug, Clone)]
pub struct UserRow {
    pub id: String,
    pub username: String,
    pub role: String,
    pub created_at: String,
}

/// The body of a request to create a user.
#[derive(Debug, Clone)]
pub struct CreateUserRequest {
    pub username: String,
    pub password: String,
    pub role: Option<String>,
}

/// The body of a request to change a password.
#[derive(Debug, Clone)]
pub struct ChangePasswordRequest {
    pub current_password: Option<String>,
    pub new_password: String,
}

// ---------------------------------------------------------------------------
// Password hashing
// ---------------------------------------------------------------------------

/// What `bcrypt::verify(password, hash)` returns: whether `password` matches
/// the bcrypt `hash`, or the text of the error for a malformed hash.
pub uninterp spec fn bcrypt_verify_spec(password: Seq<char>, hash: Seq<char>) -> Result<bool, Seq<char>>;

/// `bcrypt::verify`: checks a password against a stored bcrypt hash.  The
/// answer depends on the two arguments alone and is named by
/// `bcrypt_verify_spec`; an error is returned by its `Display` text.
#[verifier::external_body]
fn bcrypt_verify(password: &str, hash: &str) -> (r: Result<bool, String>)
    ensures
        match r {
            Ok(b) => bcrypt_verify_spec(password@, hash@) == Ok::<bool, Seq<char>>(b),
            Err(e) => bcrypt_verify_spec(password@, hash@) == Err::<bool, Seq<char>>(e@),
        },
{
    match bcrypt::verify(password, hash) {
        Ok(b) => Ok(b),
        Err(e) => Err(e.to_string()),
    }
}

/// `bcrypt::hash(password, bcrypt::DEFAULT_COST)`.  The salt is random, so the
/// hash itself is not named; what holds of every hash it returns is that
/// `bcrypt::verify` accepts the password against it.  An error (no randomness
/// available) is returned by its `Display` text, of which nothing is said.
#[verifier::external_body]
fn bcrypt_hash(password: &str) -> (r: Result<String, String>)
    ensures
        match r {
            Ok(h) => bcrypt_verify_spec(password@, h@) == Ok::<bool, Seq<char>>(true),
            Err(_) => true,
        },
{
    match bcrypt::hash(password, bcrypt::DEFAULT_COST) {
        Ok(h) => Ok(h),
        Err(e) => Err(e.to_string()),
    }
}

/// Hashes a new password for storage; a failure is an internal error.
pub fn hash_password(password: &str) -> (r: Result<String, TusError>)
    ensures
        r matches Ok(h) ==> bcrypt_verify_spec(password@, h@) == Ok::<bool, Seq<char>>(true),
        r matches Err(e) ==> e is Internal,
{
    match bcrypt_hash(password) {
        Ok(h) => Ok(h),
        Err(e) => Err(TusError::Internal(concat_str("bcrypt: ", e.as_str()))),
    }
}

// ---------------------------------------------------------------------------
// Authorization and validation
// ---------------------------------------------------------------------------

/// Only administrators may manage users, contexts, webhooks and settings.
pub fn require_admin(user: &SessionUser) -> (r: Result<(), TusError>)
    ensures
        r is Ok <==> user.role@ == "admin"@,
        r matches Err(e) ==> e is Forbidden,
{
    if str_eq(user.role.as_str(), "admin") {
        Ok(())
    } else {
        Err(TusError::Forbidden)
    }
}

/// Passwords shorter than six bytes are refused.
pub open spec fn password_too_short(password: Seq<char>) -> bool {
    encode_utf8(password).len() < 6
}

/// The account a create-user request asks for: its trimmed username and its
/// role (`viewer` when none is given), or the reason it is refused.
pub open spec fn new_user_spec(username: Seq<char>, password: Seq<char>, role: Option<Seq<char>>) -> Result<
    (Seq<char>, Seq<char>),
    TusErrorView,
> {
    let u = trim(username);
    let r = match role {
        Some(r) => r,
        None => "viewer"@,
    };
    if u.len() == 0 {
        Err(TusErrorView::InvalidHeader("username is required"@))
    } else if password_too_short(password) {
        Err(TusErrorView::InvalidHeader("password must be at least 6 characters"@))
    } else if r != "admin"@ && r != "viewer"@ {
        Err(TusErrorView::InvalidHeader("role must be admin or viewer"@))
    } else {
        Ok((u, r))
    }
}

/// A new account is created exactly when its trimmed username is not empty,
/// its password has at least six bytes, and its role is `admin` or `viewer`
/// (a missing role meaning `viewer`); it gets the trimmed username and that role.
pub proof fn lemma_new_user_accepted(username: Seq<char>, password: Seq<char>, role: Option<Seq<char>>)
    ensures
        new_user_spec(username, password, role) is Ok <==> (trim(username).len() > 0 && encode_utf8(password).len() >= 6
            && (role is None || role == Some("admin"@) || role == Some("viewer"@))),
        new_user_spec(username, password, role) matches Ok((u, r)) ==> u == trim(username) && r == (match role {
            Some(x) => x,
            None => "viewer"@,
        }),
{
}

/// Validates a create-user request made by `current`; on success the
/// username and role to store.
pub fn validate_new_user(current: &SessionUser, body: &CreateUserRequest) -> (r: Result<(String, String), TusError>)
    ensures
        current.role@ != "admin"@ ==> (r matches Err(e) && e is Forbidden),
        current.role@ == "admin"@ ==> match new_user_spec(body.username@, body.password@, opt_chars(body.role)) {
            Ok((u, role)) => r matches Ok((x, y)) && x@ == u && y@ == role,
            Err(e) => r matches Err(x) && x@ == e,
        },
{
    require_admin(current)?;
    let u = trimmed(chars_of(body.username.as_str()).as_slice());
    if u.len() == 0 {
        return Err(TusError::InvalidHeader("username is required".to_owned()));
    }
    if body.password.as_str().as_bytes().len() < 6 {
        return Err(TusError::InvalidHeader("password must be at least 6 characters".to_owned()));
    }
    let role = match &body.role {
        Some(r) => r.as_str().to_owned(),
        None => "viewer".to_owned(),
    };
    if !str_eq(role.as_str(), "admin") && !str_eq(role.as_str(), "viewer") {
        return Err(TusError::InvalidHeader("role must be admin or viewer".to_owned()));
    }
    Ok((string_from_chars(u.as_slice()), role))
}

/// An administrator may delete any account but their own.
pub fn check_delete_user(current: &SessionUser, id: &str) -> (r: Result<(), TusError>)
    ensures
        current.role@ != "admin"@ ==> (r matches Err(e) && e is Forbidden),
        current.role@ == "admin"@ && current.id@ == id@ ==> (r matches Err(e) && e@ == TusErrorView::InvalidHeader("cannot delete your own account"@)),
        current.role@ == "admin"@ && current.id@ != id@ ==> r is Ok,
{
    require_admin(current)?;
    if str_eq(current.id.as_str(), id) {
        return Err(TusError::InvalidHeader("cannot delete your own account".to_owned()));
    }
    Ok(())
}

/// The checks of a password change before any hash is read: a user may change
/// their own password (proving the current one) and an administrator anyone's.
/// `Ok(Some(p))` asks for `p` to be checked against the stored hash first.
pub open spec fn password_change_spec(
    current_id: Seq<char>,
    current_role: Seq<char>,
    id: Seq<char>,
    current_password: Option<Seq<char>>,
    new_password: Seq<char>,
) -> Result<Option<Seq<char>>, TusErrorView> {
    let is_self = current_id == id;
    let given = match current_password {
        Some(p) => p,
        None => seq![],
    };
    if !is_self && current_role != "admin"@ {
        Err(TusErrorView::Forbidden)
    } else if password_too_short(new_password) {
        Err(TusErrorView::InvalidHeader("password must be at least 6 characters"@))
    } else if !is_self {
        Ok(None)
    } else if given.len() == 0 {
        Err(TusErrorView::InvalidHeader("current_password is required"@))
    } else {
        Ok(Some(given))
    }
}

/// Users change their own password, proving the current one; an
/// administrator changes anyone's without it; nobody else changes another's;
/// and a new password must have at least six bytes.
pub proof fn lemma_password_change_rules(
    current_id: Seq<char>,
    current_role: Seq<char>,
    id: Seq<char>,
    current_password: Option<Seq<char>>,
    new_password: Seq<char>,
)
    ensures
        current_id != id && current_role != "admin"@ ==> password_change_spec(current_id, current_role, id, current_password, new_password)
            == Err::<Option<Seq<char>>, TusErrorView>(TusErrorView::Forbidden),
        password_change_spec(current_id, current_role, id, current_password, new_password) is Ok ==> encode_utf8(
            new_password,
        ).len() >= 6,
        current_id != id && current_role == "admin"@ && encode_utf8(new_password).len() >= 6 ==> password_change_spec(
            current_id,
            current_role,
            id,
            current_password,
            new_password,
        ) == Ok::<Option<Seq<char>>, TusErrorView>(None),
        current_id == id && encode_utf8(new_password).len() >= 6 ==> (current_password matches Some(p) ==> (p.len() > 0
            ==> password_change_spec(current_id, current_role, id, current_password, new_password) == Ok::<
            Option<Seq<char>>,
            TusErrorView,
        >(Some(p)))),
        current_id == id && (current_password is None || current_password == Some(Seq::<char>::empty()))
            ==> password_change_spec(current_id, current_role, id, current_password, new_password) is Err,
{
}

/// Authorizes and validates a password change of account `id` by `current`.
pub fn authorize_password_change(current: &SessionUser, id: &str, body: &ChangePasswordRequest) -> (r: Result<Option<String>, TusError>)
    ensures
        match password_change_spec(current.id@, current.role@, id@, opt_chars(body.current_password), body.new_password@) {
            Ok(p) => r matches Ok(x) && opt_chars(x) == p,
            Err(e) => r matches Err(x) && x@ == e,
        },
{
    let is_self = str_eq(current.id.as_str(), id);
    if !is_self && !str_eq(current.role.as_str(), "admin") {
        return Err(TusError::Forbidden);
    }
    if body.new_password.as_str().as_bytes().len() < 6 {
        return Err(TusError::InvalidHeader("password must be at least 6 characters".to_owned()));
    }
    if !is_self {
        return Ok(None);
    }
    let given = match &body.current_password {
        Some(p) => chars_of(p.as_str()),
        None => Vec::new(),
    };
    if given.len() == 0 {
        return Err(TusError::InvalidHeader("current_password is required".to_owned()));
    }
    Ok(Some(string_from_chars(given.as_slice())))
}

/// Checks the current password of an account against its stored hash
/// (`None`: the account does not exist).
pub fn confirm_current_password(given: &str, stored_hash: Option<&str>) -> (r: Result<(), TusError>)
    ensures
        match stored_hash {
            None => r matches Err(e) && e is NotFound,
            Some(h) => match bcrypt_verify_spec(given@, h@) {
                Ok(true) => r is Ok,
                Ok(false) => r matches Err(e) && e is Unauthorized,
                Err(m) => r matches Err(e) && e@ == TusErrorView::Internal("bcrypt: "@ + m),
            },
        },
{
    let h = match stored_hash {
        None => {
            return Err(TusError::NotFound);
        },
        Some(h) => h,
    };
    match bcrypt_verify(given, h) {
        Ok(true) => Ok(()),
        Ok(false) => Err(TusError::Unauthorized),
        Err(m) => Err(TusError::Internal(concat_str("bcrypt: ", m.as_str()))),
    }
}

/// The password of the `admin` account created on first startup, when no user
/// exists yet: `ADMIN_PASSWORD` when it is set (it must not be blank), else the
/// default `admin123`.
pub fn check_admin_seed_password(password: Option<&str>) -> (r: Result<String, String>)
    ensures
        match opt_str_chars(password) {
            None => r matches Ok(p) && p@ == "admin123"@,
            Some(p) => if trim(p).len() == 0 {
                r matches Err(m) && m@ == "ADMIN_PASSWORD must not be empty"@
            } else {
                r matches Ok(x) && x@ == p
            },
        },
{
    match password {
        None => Ok("admin123".to_owned()),
        Some(p) => {
            let t = trimmed(chars_of(p).as_slice());
            if t.len() == 0 {
                Err("ADMIN_PASSWORD must not be empty".to_owned())
            } else {
                Ok(p.to_owned())
            }
        },
    }
}

// ---------------------------------------------------------------------------
// Password login
// ---------------------------------------------------------------------------

/// A password login succeeds when the account exists and bcrypt accepts the
/// password against its hash.
pub open spec fn login_accepted(password: Seq<char>, account: Option<(String, String, String)>) -> bool {
    match account {
        Some((_, hash, _)) => bcrypt_verify_spec(password, hash@) == Ok::<bool, Seq<char>>(true),
        None => false,
    }
}

/// Checks a password login for `username` from `ip`, given the account found
/// under that name (`(id, password hash, role)`), and records the outcome in
/// the throttle: a failure counts against the address and the username, a
/// success clears both.  On success the account's id and role.  When there is
/// no such account the password is still checked against `dummy_hash`, so that
/// the answer takes as long either way.
pub fn authenticate(
    throttle: &mut LoginThrottle,
    ip: IpAddress,
    username: &str,
    password: &str,
    account: Option<(String, String, String)>,
    dummy_hash: &str,
) -> (r: Option<(String, String)>)
    ensures
        final(throttle).spec_max_attempts() == old(throttle).spec_max_attempts(),
        final(throttle).spec_lockout_secs() == old(throttle).spec_lockout_secs(),
        r is Some <==> login_accepted(password@, account),
        r matches Some((id, role)) ==> account matches Some((i, _, ro)) && id@ == i@ && role@ == ro@,
        r is Some ==> final(throttle).ip_count(ip) is None && final(throttle).user_count(username@) is None,
        r is Some ==> forall|o: ThrottleKeyView|
            #![trigger final(throttle).ips().count_of(o)]
            #![trigger final(throttle).ips().last_of(o)]
            o != ip_key(ip) ==> final(throttle).ips().entry_of(o) == old(throttle).ips().entry_of(o),
        r is Some ==> forall|o: ThrottleKeyView|
            #![trigger final(throttle).users().count_of(o)]
            #![trigger final(throttle).users().last_of(o)]
            o != user_key(username@) ==> final(throttle).users().entry_of(o) == old(throttle).users().entry_of(o),
        r is None ==> exists|now: u128| #[trigger] LoginThrottle::failure_recorded_at(*old(throttle), *final(throttle), ip, username@, now),
        final(throttle).spec_max_entries() == old(throttle).spec_max_entries(),
{
    match account {
        None => {
            let _ = bcrypt_verify(password, dummy_hash);
            throttle.record_failure(ip, username);
            None
        },
        Some((id, hash, role)) => {
            let valid = match bcrypt_verify(password, hash.as_str()) {
                Ok(b) => b,
                Err(_) => false,
            };
            if !valid {
                throttle.record_failure(ip, username);
                return None;
            }
            throttle.record_success(ip, username);
            Some((id, role))
        },
    }
}

/// A password stored through `hash_password` is a password that logs in: the
/// hash it returns makes `authenticate` accept that password for the account.
pub proof fn lemma_stored_password_logs_in(password: Seq<char>, id: String, hash: String, role: String)
    requires
        bcrypt_verify_spec(password, hash@) == Ok::<bool, Seq<char>>(true),
    ensures
        login_accepted(password, Some((id, hash, role))),
{
}

/// A login for a name with no account never succeeds, whatever the password.
pub proof fn lemma_unknown_user_refused(password: Seq<char>)
    ensures
        !login_accepted(password, None),
{
}

} // verus!
