//! Server configuration, read from environment variables.  The variables are
//! handed in as `(name, value)` pairs (those that are set and are text); every
//! setting has a default that applies when its variable is missing or does not
//! parse.
use vstd::prelude::*;
use crate::net::{ipnet_parse, network_wf, parse_network, IpNetwork};
use crate::text::{
    chars_of, has_prefix, opt_chars, parse_i64, parse_i64_spec, parse_unsigned,
    parse_unsigned_spec, split_first, split_pieces, starts_with, str_eq, string_from_chars,
    trim, trimmed,
};
use crate::throttle::{to_lowercase, unicode_lowercase};

verus! {

/// The server's settings.
#[derive(Debug, Clone)]
pub struct Config {
    pub db_url: String,
    pub storage_dir: String,
    pub base_url: String,
    pub bind_addr: String,
    pub max_upload_bytes: i64,
    pub abandoned_after_hours: i64,
    pub cleanup_interval_secs: u64,
    pub upload_expiry_hours: i64,
    /// When set, the TUS endpoint and the metrics require `Authorization: Bearer <key>`.
    pub api_key: Option<String>,
    pub webhook_max_attempts: u32,
    /// Seconds to wait before each retry; the last is reused past the end.
    pub webhook_retry_delays_secs: Vec<u64>,
    pub webhook_delivery_retention_days: i64,
    /// Requests per second per client address (0: no limit).
    pub rate_limit_rps: u32,
    pub rate_limit_burst: u32,
    /// `filesystem` or `s3`.
    pub storage_backend: String,
    pub s3_bucket: Option<String>,
    pub s3_prefix: String,
    pub s3_staging_dir: Option<String>,
    pub s3_force_path_style: bool,
    pub s3_multipart_threshold: u64,
    pub s3_part_size: usize,
    /// Total bytes of active uploads allowed (0: no limit).
    pub quota_max_storage_bytes: i64,
    /// Active uploads allowed (0: no limit).
    pub quota_max_active_uploads: i64,
    pub audit_log_retention_days: i64,
    pub grafana_url: Option<String>,
    /// Whether the session cookie is marked `Secure`.
    pub cookie_secure: bool,
    /// Proxies whose `X-Forwarded-For` is believed (empty: every peer).
    pub trusted_proxies: Vec<IpNetwork>,
    pub login_max_attempts: u32,
    pub login_lockout_secs: u64,
    pub oidc_issuer_url: Option<String>,
    pub oidc_client_id: Option<String>,
    pub oidc_client_secret: Option<String>,
    pub oidc_redirect_uri: Option<String>,
    pub oidc_default_role: String,
}

/// The variables, by name and value.
pub open spec fn vars_view(vars: Seq<(String, String)>) -> Seq<(Seq<char>, Seq<char>)> {
    vars.map_values(|p: (String, String)| (p.0@, p.1@))
}

/// The value of the first variable named `key`.
pub open spec fn env_lookup(vars: Seq<(Seq<char>, Seq<char>)>, key: Seq<char>) -> Option<Seq<char>>
    decreases vars.len(),
{
    if vars.len() == 0 {
        None
    } else if vars[0].0 == key {
        Some(vars[0].1)
    } else {
        env_lookup(vars.drop_first(), key)
    }
}

/// The value of `key`, or `default`.
pub open spec fn var_or(vars: Seq<(Seq<char>, Seq<char>)>, key: Seq<char>, default: Seq<char>) -> Seq<char> {
    match env_lookup(vars, key) {
        Some(v) => v,
        None => default,
    }
}

/// The value of `key` when it is set and not empty.
pub open spec fn nonempty_var(vars: Seq<(Seq<char>, Seq<char>)>, key: Seq<char>) -> Option<Seq<char>> {
    match env_lookup(vars, key) {
        Some(v) => if v.len() > 0 {
            Some(v)
        } else {
            None
        },
        None => None,
    }
}

/// The value of `key` parsed as an `i64`, or `default`.
pub open spec fn i64_var(vars: Seq<(Seq<char>, Seq<char>)>, key: Seq<char>, default: i64) -> int {
    match env_lookup(vars, key) {
        Some(v) => match parse_i64_spec(v) {
            Some(n) => n,
            None => default as int,
        },
        None => default as int,
    }
}

/// The value of `key` parsed as an unsigned integer of at most `max`, or `default`.
pub open spec fn unsigned_var(vars: Seq<(Seq<char>, Seq<char>)>, key: Seq<char>, max: nat, default: nat) -> nat {
    match env_lookup(vars, key) {
        Some(v) => match parse_unsigned_spec(v, max) {
            Some(n) => n,
            None => default,
        },
        None => default,
    }
}

/// A switch is on when its lower-cased value is `true`, `1` or `yes`.
pub open spec fn flag_on(v: Seq<char>) -> bool {
    let l = unicode_lowercase(v);
    l == "true"@ || l == "1"@ || l == "yes"@
}

/// The numbers among the comma-separated `pieces` (each trimmed); the others
/// are skipped.
pub open spec fn u64_items(pieces: Seq<Seq<char>>) -> Seq<u64>
    decreases pieces.len(),
{
    if pieces.len() == 0 {
        seq![]
    } else {
        match parse_unsigned_spec(trim(pieces[0]), u64::MAX as nat) {
            Some(n) => seq![n as u64] + u64_items(pieces.drop_first()),
            None => u64_items(pieces.drop_first()),
        }
    }
}

/// The networks among the comma-separated `pieces` (each trimmed); the others
/// are skipped.
pub open spec fn network_items(pieces: Seq<Seq<char>>) -> Seq<IpNetwork>
    decreases pieces.len(),
{
    if pieces.len() == 0 {
        seq![]
    } else {
        match ipnet_parse(trim(pieces[0])) {
            Some(n) => seq![n] + network_items(pieces.drop_first()),
            None => network_items(pieces.drop_first()),
        }
    }
}

/// The retry delays: the numbers of `WEBHOOK_RETRY_DELAYS`, or `[1, 4]` when
/// it is unset or holds none.
pub open spec fn retry_delays_spec(vars: Seq<(Seq<char>, Seq<char>)>) -> Seq<u64> {
    match env_lookup(vars, "WEBHOOK_RETRY_DELAYS"@) {
        Some(v) => {
            let d = u64_items(split_pieces(v, ','));
            if d.len() > 0 {
                d
            } else {
                seq![1u64, 4u64]
            }
        },
        None => seq![1u64, 4u64],
    }
}

/// `COOKIE_SECURE` when it is set; else whether `BASE_URL` is an `https://` URL.
pub open spec fn cookie_secure_spec(vars: Seq<(Seq<char>, Seq<char>)>) -> bool {
    match env_lookup(vars, "COOKIE_SECURE"@) {
        Some(v) => flag_on(v),
        None => match env_lookup(vars, "BASE_URL"@) {
            Some(u) => has_prefix(u, "https://"@),
            None => false,
        },
    }
}

/// The trusted proxies: the networks of `TRUSTED_PROXIES`, or none.
pub open spec fn trusted_proxies_spec(vars: Seq<(Seq<char>, Seq<char>)>) -> Seq<IpNetwork> {
    match env_lookup(vars, "TRUSTED_PROXIES"@) {
        Some(v) => network_items(split_pieces(v, ',')),
        None => seq![],
    }
}

/// The value of the first variable named `key`.
pub fn lookup(vars: &Vec<(String, String)>, key: &str) -> (r: Option<String>)
    ensures
        opt_chars(r) == env_lookup(vars_view(vars@), key@),
{
    let mut i: usize = 0;
    assert(vars_view(vars@).skip(0) =~= vars_view(vars@));
    while i < vars.len()
        invariant
            i <= vars.len(),
            env_lookup(vars_view(vars@), key@) == env_lookup(vars_view(vars@).skip(i as int), key@),
        decreases vars.len() - i,
    {
        let ghost rest = vars_view(vars@).skip(i as int);
        assert(rest[0] == (vars@[i as int].0@, vars@[i as int].1@));
        assert(rest.drop_first() =~= vars_view(vars@).skip(i + 1));
        if str_eq(vars[i].0.as_str(), key) {
            return Some(vars[i].1.as_str().to_owned());
        }
        i += 1;
    }
    assert(vars_view(vars@).skip(i as int) =~= Seq::<(Seq<char>, Seq<char>)>::empty());
    None
}

fn var_or_default(vars: &Vec<(String, String)>, key: &str, default: &str) -> (r: String)
    ensures
        r@ == var_or(vars_view(vars@), key@, default@),
{
    match lookup(vars, key) {
        Some(v) => v,
        None => default.to_owned(),
    }
}

fn nonempty(vars: &Vec<(String, String)>, key: &str) -> (r: Option<String>)
    ensures
        opt_chars(r) == nonempty_var(vars_view(vars@), key@),
{
    match lookup(vars, key) {
        Some(v) => {
            let cs = chars_of(v.as_str());
            if cs.len() > 0 {
                Some(v)
            } else {
                None
            }
        },
        None => None,
    }
}

fn i64_or(vars: &Vec<(String, String)>, key: &str, default: i64) -> (r: i64)
    ensures
        r as int == i64_var(vars_view(vars@), key@, default),
{
    match lookup(vars, key) {
        Some(v) => match parse_i64(chars_of(v.as_str()).as_slice()) {
            Some(n) => n,
            None => default,
        },
        None => default,
    }
}

fn unsigned_or(vars: &Vec<(String, String)>, key: &str, max: u64, default: u64) -> (r: u64)
    requires
        default <= max,
    ensures
        r as nat == unsigned_var(vars_view(vars@), key@, max as nat, default as nat),
        r <= max,
{
    match lookup(vars, key) {
        Some(v) => match parse_unsigned(chars_of(v.as_str()).as_slice(), max) {
            Some(n) => n,
            None => default,
        },
        None => default,
    }
}

fn flag(v: &str) -> (r: bool)
    ensures
        r == flag_on(v@),
{
    let l = to_lowercase(v);
    str_eq(l.as_str(), "true") || str_eq(l.as_str(), "1") || str_eq(l.as_str(), "yes")
}

/// The numbers of a comma-separated list; pieces that are not numbers are skipped.
pub fn parse_u64_list(v: &str) -> (r: Vec<u64>)
    ensures
        r@ == u64_items(split_pieces(v@, ',')),
{
    let mut out: Vec<u64> = Vec::new();
    let mut rest = chars_of(v);
    loop
        invariant
            u64_items(split_pieces(v@, ',')) == out@ + u64_items(split_pieces(rest@, ',')),
        decreases rest.len(),
    {
        let (piece, next) = split_first(rest.as_slice(), ',');
        let ghost after: Seq<Seq<char>> = if next is Some {
            split_pieces(next->0@, ',')
        } else {
            Seq::empty()
        };
        let ghost pieces = seq![piece@] + after;
        proof {
            if next is None {
                assert(pieces =~= seq![piece@]);
            }
            assert(pieces[0] == piece@);
            assert(pieces.drop_first() =~= after);
        }
        let ghost before = out@;
        match parse_unsigned(trimmed(piece.as_slice()).as_slice(), u64::MAX) {
            Some(n) => {
                out.push(n);
                assert(before + (seq![n] + u64_items(after)) =~= out@ + u64_items(after));
            },
            None => {},
        }
        match next {
            None => {
                assert(u64_items(after) =~= Seq::<u64>::empty());
                assert(out@ + u64_items(after) =~= out@);
                return out;
            },
            Some(n) => {
                rest = n;
            },
        }
    }
}

/// The networks of a comma-separated list; pieces that are not networks are
/// skipped.
pub fn parse_network_list(v: &str) -> (r: Vec<IpNetwork>)
    ensures
        r@ == network_items(split_pieces(v@, ',')),
        forall|i: int| 0 <= i < r.len() ==> network_wf(#[trigger] r@[i]),
{
    let mut out: Vec<IpNetwork> = Vec::new();
    let mut rest = chars_of(v);
    loop
        invariant
            network_items(split_pieces(v@, ',')) == out@ + network_items(split_pieces(rest@, ',')),
            forall|i: int| 0 <= i < out.len() ==> network_wf(#[trigger] out@[i]),
        decreases rest.len(),
    {
        let (piece, next) = split_first(rest.as_slice(), ',');
        let ghost after: Seq<Seq<char>> = if next is Some {
            split_pieces(next->0@, ',')
        } else {
            Seq::empty()
        };
        let ghost pieces = seq![piece@] + after;
        proof {
            if next is None {
                assert(pieces =~= seq![piece@]);
            }
            assert(pieces[0] == piece@);
            assert(pieces.drop_first() =~= after);
        }
        let ghost before = out@;
        let t = string_from_chars(trimmed(piece.as_slice()).as_slice());
        match parse_network(t.as_str()) {
            Some(n) => {
                out.push(n);
                assert(before + (seq![n] + network_items(after)) =~= out@ + network_items(after));
            },
            None => {},
        }
        match next {
            None => {
                assert(network_items(after) =~= Seq::<IpNetwork>::empty());
                assert(out@ + network_items(after) =~= out@);
                return out;
            },
            Some(n) => {
                rest = n;
            },
        }
    }
}

impl Config {
    /// Reads the configuration from the environment's variables.
    pub fn from_vars(vars: &Vec<(String, String)>) -> (c: Config)
        ensures
            c.db_url@ == var_or(vars_view(vars@), "DATABASE_URL"@, "tus.db"@),
            c.storage_dir@ == var_or(vars_view(vars@), "STORAGE_DIR"@, "uploads"@),
            c.base_url@ == var_or(vars_view(vars@), "BASE_URL"@, "http://localhost:3000"@),
            c.bind_addr@ == var_or(vars_view(vars@), "BIND_ADDR"@, "0.0.0.0:3000"@),
            c.max_upload_bytes as int == i64_var(vars_view(vars@), "MAX_UPLOAD_BYTES"@, 107_374_182_400),
            c.abandoned_after_hours as int == i64_var(vars_view(vars@), "ABANDONED_AFTER_HOURS"@, 24),
            c.cleanup_interval_secs as nat == unsigned_var(vars_view(vars@), "CLEANUP_INTERVAL_SECS"@, u64::MAX as nat, 3600),
            c.upload_expiry_hours as int == i64_var(vars_view(vars@), "UPLOAD_EXPIRY_HOURS"@, 24),
            opt_chars(c.api_key) == nonempty_var(vars_view(vars@), "API_KEY"@),
            c.webhook_max_attempts as nat == unsigned_var(vars_view(vars@), "WEBHOOK_MAX_ATTEMPTS"@, u32::MAX as nat, 3),
            c.webhook_retry_delays_secs@ == retry_delays_spec(vars_view(vars@)),
            c.webhook_delivery_retention_days as int == i64_var(vars_view(vars@), "WEBHOOK_DELIVERY_RETENTION_DAYS"@, 30),
            c.rate_limit_rps as nat == unsigned_var(vars_view(vars@), "RATE_LIMIT_RPS"@, u32::MAX as nat, 0),
            c.rate_limit_burst as nat == unsigned_var(vars_view(vars@), "RATE_LIMIT_BURST"@, u32::MAX as nat, 0),
            c.storage_backend@ == var_or(vars_view(vars@), "STORAGE_BACKEND"@, "filesystem"@),
            opt_chars(c.s3_bucket) == nonempty_var(vars_view(vars@), "S3_BUCKET"@),
            c.s3_prefix@ == var_or(vars_view(vars@), "S3_PREFIX"@, "uploads/"@),
            opt_chars(c.s3_staging_dir) == nonempty_var(vars_view(vars@), "S3_STAGING_DIR"@),
            c.s3_force_path_style == (match env_lookup(vars_view(vars@), "S3_FORCE_PATH_STYLE"@) {
                Some(v) => flag_on(v),
                None => false,
            }),
            c.s3_multipart_threshold as nat == unsigned_var(vars_view(vars@), "S3_MULTIPART_THRESHOLD"@, u64::MAX as nat, 8 * 1024 * 1024),
            c.s3_part_size as nat == unsigned_var(vars_view(vars@), "S3_PART_SIZE"@, usize::MAX as nat, 8 * 1024 * 1024),
            c.quota_max_storage_bytes as int == i64_var(vars_view(vars@), "QUOTA_MAX_STORAGE_BYTES"@, 0),
            c.quota_max_active_uploads as int == i64_var(vars_view(vars@), "QUOTA_MAX_ACTIVE_UPLOADS"@, 0),
            c.audit_log_retention_days as int == i64_var(vars_view(vars@), "AUDIT_LOG_RETENTION_DAYS"@, 90),
            opt_chars(c.grafana_url) == nonempty_var(vars_view(vars@), "GRAFANA_URL"@),
            c.cookie_secure == cookie_secure_spec(vars_view(vars@)),
            c.trusted_proxies@ == trusted_proxies_spec(vars_view(vars@)),
            forall|i: int| 0 <= i < c.trusted_proxies.len() ==> network_wf(#[trigger] c.trusted_proxies@[i]),
            c.login_max_attempts as nat == unsigned_var(vars_view(vars@), "LOGIN_MAX_ATTEMPTS"@, u32::MAX as nat, 10),
            c.login_lockout_secs as nat == unsigned_var(vars_view(vars@), "LOGIN_LOCKOUT_SECS"@, u64::MAX as nat, 900),
            opt_chars(c.oidc_issuer_url) == nonempty_var(vars_view(vars@), "OIDC_ISSUER_URL"@),
            opt_chars(c.oidc_client_id) == nonempty_var(vars_view(vars@), "OIDC_CLIENT_ID"@),
            opt_chars(c.oidc_client_secret) == nonempty_var(vars_view(vars@), "OIDC_CLIENT_SECRET"@),
            opt_chars(c.oidc_redirect_uri) == nonempty_var(vars_view(vars@), "OIDC_REDIRECT_URI"@),
            c.oidc_default_role@ == var_or(vars_view(vars@), "OIDC_DEFAULT_ROLE"@, "viewer"@),
    {
        let delays = match lookup(vars, "WEBHOOK_RETRY_DELAYS") {
            Some(v) => {
                let d = parse_u64_list(v.as_str());
                if d.len() > 0 {
                    d
                } else {
                    vec![1u64, 4u64]
                }
            },
            None => vec![1u64, 4u64],
        };
        let path_style = match lookup(vars, "S3_FORCE_PATH_STYLE") {
            Some(v) => flag(v.as_str()),
            None => false,
        };
        let cookie_secure = match lookup(vars, "COOKIE_SECURE") {
            Some(v) => flag(v.as_str()),
            None => match lookup(vars, "BASE_URL") {
                Some(u) => starts_with(chars_of(u.as_str()).as_slice(), chars_of("https://").as_slice()),
                None => false,
            },
        };
        let proxies = match lookup(vars, "TRUSTED_PROXIES") {
            Some(v) => parse_network_list(v.as_str()),
            None => Vec::new(),
        };
        let part_size = unsigned_or(vars, "S3_PART_SIZE", usize::MAX as u64, 8 * 1024 * 1024) as usize;
        Config {
            db_url: var_or_default(vars, "DATABASE_URL", "tus.db"),
            storage_dir: var_or_default(vars, "STORAGE_DIR", "uploads"),
            base_url: var_or_default(vars, "BASE_URL", "http://localhost:3000"),
            bind_addr: var_or_default(vars, "BIND_ADDR", "0.0.0.0:3000"),
            max_upload_bytes: i64_or(vars, "MAX_UPLOAD_BYTES", 107_374_182_400),
            abandoned_after_hours: i64_or(vars, "ABANDONED_AFTER_HOURS", 24),
            cleanup_interval_secs: unsigned_or(vars, "CLEANUP_INTERVAL_SECS", u64::MAX, 3600),
            upload_expiry_hours: i64_or(vars, "UPLOAD_EXPIRY_HOURS", 24),
            api_key: nonempty(vars, "API_KEY"),
            webhook_max_attempts: unsigned_or(vars, "WEBHOOK_MAX_ATTEMPTS", u32::MAX as u64, 3) as u32,
            webhook_retry_delays_secs: delays,
            webhook_delivery_retention_days: i64_or(vars, "WEBHOOK_DELIVERY_RETENTION_DAYS", 30),
            rate_limit_rps: unsigned_or(vars, "RATE_LIMIT_RPS", u32::MAX as u64, 0) as u32,
            rate_limit_burst: unsigned_or(vars, "RATE_LIMIT_BURST", u32::MAX as u64, 0) as u32,
            storage_backend: var_or_default(vars, "STORAGE_BACKEND", "filesystem"),
            s3_bucket: nonempty(vars, "S3_BUCKET"),
            s3_prefix: var_or_default(vars, "S3_PREFIX", "uploads/"),
            s3_staging_dir: nonempty(vars, "S3_STAGING_DIR"),
            s3_force_path_style: path_style,
            s3_multipart_threshold: unsigned_or(vars, "S3_MULTIPART_THRESHOLD", u64::MAX, 8 * 1024 * 1024),
            s3_part_size: part_size,
            quota_max_storage_bytes: i64_or(vars, "QUOTA_MAX_STORAGE_BYTES", 0),
            quota_max_active_uploads: i64_or(vars, "QUOTA_MAX_ACTIVE_UPLOADS", 0),
            audit_log_retention_days: i64_or(vars, "AUDIT_LOG_RETENTION_DAYS", 90),
            grafana_url: nonempty(vars, "GRAFANA_URL"),
            cookie_secure,
            trusted_proxies: proxies,
            login_max_attempts: unsigned_or(vars, "LOGIN_MAX_ATTEMPTS", u32::MAX as u64, 10) as u32,
            login_lockout_secs: unsigned_or(vars, "LOGIN_LOCKOUT_SECS", u64::MAX, 900),
            oidc_issuer_url: nonempty(vars, "OIDC_ISSUER_URL"),
            oidc_client_id: nonempty(vars, "OIDC_CLIENT_ID"),
            oidc_client_secret: nonempty(vars, "OIDC_CLIENT_SECRET"),
            oidc_redirect_uri: nonempty(vars, "OIDC_REDIRECT_URI"),
            oidc_default_role: var_or_default(vars, "OIDC_DEFAULT_ROLE", "viewer"),
        }
    }
}

/// A variable is read from the first entry with its name: when the first
/// entry is `key` its value is read, and entries of other names in front of it
/// change nothing; with no entry of that name the default is used.
pub proof fn lemma_first_variable_wins(vars: Seq<(Seq<char>, Seq<char>)>, key: Seq<char>, value: Seq<char>, default: Seq<char>)
    ensures
        env_lookup(seq![(key, value)] + vars, key) == Some(value),
        (forall|i: int| 0 <= i < vars.len() ==> vars[i].0 != key) ==> env_lookup(vars, key) is None && var_or(vars, key, default)
            == default,
        env_lookup(vars, key) matches Some(v) ==> exists|i: int| 0 <= i < vars.len() && vars[i] == (key, v),
    decreases vars.len(),
{
    assert((seq![(key, value)] + vars)[0] == (key, value));
    if vars.len() > 0 {
        lemma_first_variable_wins(vars.drop_first(), key, value, default);
        if forall|i: int| 0 <= i < vars.len() ==> vars[i].0 != key {
            assert forall|i: int| 0 <= i < vars.drop_first().len() implies vars.drop_first()[i].0 != key by {
                assert(vars.drop_first()[i] == vars[i + 1]);
            }
        }
        if env_lookup(vars, key) is Some && vars[0].0 != key {
            let v = env_lookup(vars, key)->0;
            let i = choose|i: int| 0 <= i < vars.drop_first().len() && vars.drop_first()[i] == (key, v);
            assert(vars[i + 1] == (key, v));
        }
    }
}

/// A numeric setting takes the variable's value when it is set and parses,
/// and its default when it is unset or does not parse.
pub proof fn lemma_numeric_setting(vars: Seq<(Seq<char>, Seq<char>)>, key: Seq<char>, default: i64, max: nat, udefault: nat)
    ensures
        env_lookup(vars, key) matches Some(v) ==> (parse_i64_spec(v) matches Some(n) ==> i64_var(vars, key, default) == n),
        env_lookup(vars, key) matches Some(v) ==> (parse_i64_spec(v) is None ==> i64_var(vars, key, default) == default),
        env_lookup(vars, key) is None ==> i64_var(vars, key, default) == default && unsigned_var(vars, key, max, udefault)
            == udefault,
        env_lookup(vars, key) matches Some(v) ==> (parse_unsigned_spec(v, max) matches Some(n) ==> unsigned_var(
            vars,
            key,
            max,
            udefault,
        ) == n),
        env_lookup(vars, key) matches Some(v) ==> (parse_unsigned_spec(v, max) is None ==> unsigned_var(vars, key, max, udefault)
            == udefault),
        nonempty_var(vars, key) matches Some(v) ==> v.len() > 0 && env_lookup(vars, key) == Some(v),
        env_lookup(vars, key) matches Some(v) ==> (v.len() > 0 ==> nonempty_var(vars, key) == Some(v)),
{
}

/// Cookies are secure when `COOKIE_SECURE` says so; without it, exactly when
/// the base URL is an `https://` URL.  Webhook retries wait `1` then `4`
/// seconds unless `WEBHOOK_RETRY_DELAYS` lists some numbers.
pub proof fn lemma_derived_settings(vars: Seq<(Seq<char>, Seq<char>)>)
    ensures
        env_lookup(vars, "COOKIE_SECURE"@) matches Some(v) ==> cookie_secure_spec(vars) == flag_on(v),
        env_lookup(vars, "COOKIE_SECURE"@) is None ==> (cookie_secure_spec(vars) <==> (env_lookup(vars, "BASE_URL"@) matches Some(
            u,
        ) && has_prefix(u, "https://"@))),
        env_lookup(vars, "WEBHOOK_RETRY_DELAYS"@) is None ==> retry_delays_spec(vars) == seq![1u64, 4u64],
        retry_delays_spec(vars).len() > 0,
        env_lookup(vars, "TRUSTED_PROXIES"@) is None ==> trusted_proxies_spec(vars).len() == 0,
{
}

/// A switch is on for `true`, `1` or `yes` in any case, and off for anything else.
pub proof fn lemma_flag_values(v: Seq<char>)
    ensures
        flag_on(v) <==> (unicode_lowercase(v) == "true"@ || unicode_lowercase(v) == "1"@ || unicode_lowercase(v) == "yes"@),
{
}

/// The retry delays list the numbers of the variable, in order, skipping
/// entries that are not numbers.
pub proof fn lemma_u64_items(pieces: Seq<Seq<char>>, more: Seq<Seq<char>>)
    ensures
        u64_items(pieces + more) == u64_items(pieces) + u64_items(more),
        u64_items(pieces).len() <= pieces.len(),
    decreases pieces.len(),
{
    if pieces.len() == 0 {
        assert(pieces + more =~= more);
        assert(u64_items(pieces) + u64_items(more) =~= u64_items(more));
    } else {
        assert((pieces + more).drop_first() =~= pieces.drop_first() + more);
        assert((pieces + more)[0] == pieces[0]);
        lemma_u64_items(pieces.drop_first(), more);
        match parse_unsigned_spec(trim(pieces[0]), u64::MAX as nat) {
            Some(n) => {
                assert(seq![n as u64] + (u64_items(pieces.drop_first()) + u64_items(more)) =~= (seq![n as u64]
                    + u64_items(pieces.drop_first())) + u64_items(more));
            },
            None => {},
        }
    }
}

} // verus!
