//! The settings the dashboard shows and edits: each setting's definition,
//! where its current value comes from, and how secrets are masked.
use vstd::prelude::*;
use crate::config::{env_lookup, lookup, vars_view};
use crate::text::{chars_of, str_eq};

verus! {

/// The definition of a setting.
#[derive(Debug, Clone)]
pub struct SettingDef {
    pub key: String,
    pub label: String,
    pub description: String,
    pub category: String,
    pub input_type: String,
    pub options: Option<Vec<String>>,
    pub restart_required: bool,
    pub default_val: String,
}

/// A setting as the dashboard shows it: its definition, its current value,
/// and where that value comes from (`db`, `env` or `default`).
#[derive(Debug, Clone)]
pub struct SettingEntry {
    pub key: String,
    pub label: String,
    pub description: String,
    pub category: String,
    pub input_type: String,
    pub value: String,
    pub source: String,
    pub restart_required: bool,
    pub options: Option<Vec<String>>,
}

/// The body of a request to change a setting.
#[derive(Debug, Clone)]
pub struct UpdateSettingRequest {
    pub value: String,
}

/// The settings, in the order they are shown: key, category, input type,
/// whether a change needs a restart, and default value.
pub open spec fn setting_table() -> Seq<(Seq<char>, Seq<char>, Seq<char>, bool, Seq<char>)> {
    seq![
        ("BASE_URL"@, "General"@, "url"@, false, "http://localhost:3000"@),
        ("MAX_UPLOAD_BYTES"@, "General"@, "bytes"@, false, "107374182400"@),
        ("UPLOAD_EXPIRY_HOURS"@, "General"@, "number"@, false, "24"@),
        ("ABANDONED_AFTER_HOURS"@, "General"@, "number"@, false, "24"@),
        ("CLEANUP_INTERVAL_SECS"@, "General"@, "number"@, true, "3600"@),
        ("BIND_ADDR"@, "General"@, "text"@, true, "0.0.0.0:3000"@),
        ("QUOTA_MAX_STORAGE_BYTES"@, "Quotas"@, "bytes"@, false, "0"@),
        ("QUOTA_MAX_ACTIVE_UPLOADS"@, "Quotas"@, "number"@, false, "0"@),
        ("RATE_LIMIT_RPS"@, "Rate Limiting"@, "number"@, true, "0"@),
        ("RATE_LIMIT_BURST"@, "Rate Limiting"@, "number"@, true, "0"@),
        ("API_KEY"@, "Security"@, "password"@, true, ""@),
        ("STORAGE_BACKEND"@, "Storage"@, "select"@, true, "filesystem"@),
        ("STORAGE_DIR"@, "Storage"@, "text"@, true, "uploads"@),
        ("S3_BUCKET"@, "Storage"@, "text"@, true, ""@),
        ("S3_PREFIX"@, "Storage"@, "text"@, true, "uploads/"@),
        ("S3_FORCE_PATH_STYLE"@, "Storage"@, "boolean"@, true, "false"@),
        ("S3_MULTIPART_THRESHOLD"@, "Storage"@, "bytes"@, true, "8388608"@),
        ("S3_PART_SIZE"@, "Storage"@, "bytes"@, true, "8388608"@),
        ("PROCESSORS"@, "Processing"@, "text"@, true, "nop"@),
        ("PROCESSOR_EXEC_COMMAND"@, "Processing"@, "text"@, true, ""@),
        ("PROCESSOR_EXEC_TIMEOUT_SECS"@, "Processing"@, "number"@, true, "300"@),
        ("MIME_ALLOW"@, "Processing"@, "text"@, true, ""@),
        ("MIME_DENY"@, "Processing"@, "text"@, true, ""@),
        ("EXT_ALLOW"@, "Processing"@, "text"@, true, ""@),
        ("EXT_DENY"@, "Processing"@, "text"@, true, ""@),
        ("AV_SCANNER"@, "Processing"@, "select"@, true, "clamav"@),
        ("AV_TIMEOUT_SECS"@, "Processing"@, "number"@, true, "120"@),
        ("AV_CLAMAV_BIN"@, "Processing"@, "text"@, true, "clamscan"@),
        ("AV_HTTP_URL"@, "Processing"@, "url"@, true, ""@),
        ("AV_HTTP_HEADER"@, "Processing"@, "text"@, true, ""@),
        ("AV_HTTP_MAX_BYTES"@, "Processing"@, "bytes"@, true, "104857600"@),
        ("WEBHOOK_MAX_ATTEMPTS"@, "Webhooks"@, "number"@, false, "3"@),
        ("WEBHOOK_RETRY_DELAYS"@, "Webhooks"@, "text"@, false, "1,4"@),
        ("WEBHOOK_DELIVERY_RETENTION_DAYS"@, "Webhooks"@, "number"@, false, "30"@),
        ("AUDIT_LOG_RETENTION_DAYS"@, "Retention"@, "number"@, false, "90"@),
        ("GRAFANA_URL"@, "Observability"@, "url"@, false, ""@),
        ("RUST_LOG"@, "Observability"@, "text"@, true, "info"@),
    ]
}

/// A definition by its tabled fields.
pub open spec fn def_view(d: SettingDef) -> (Seq<char>, Seq<char>, Seq<char>, bool, Seq<char>) {
    (d.key@, d.category@, d.input_type@, d.restart_required, d.default_val@)
}

/// The texts of the settings, in the order of `setting_table`: label,
/// description, and the choices of a `select` setting.
pub open spec fn setting_texts() -> Seq<(Seq<char>, Seq<char>, Option<Seq<Seq<char>>>)> {
    seq![
        ("Base URL"@, "Public URL of this server, used in upload Location headers."@, None),
        ("Max upload size"@, "Maximum bytes allowed per upload. Default 100 GiB."@, None),
        ("Upload expiry"@, "Hours after creation before an incomplete upload expires. 0 = never."@, None),
        ("Abandon after"@, "Hours of inactivity before the cleanup worker abandons an upload."@, None),
        ("Cleanup interval"@, "Seconds between cleanup worker runs."@, None),
        ("Bind address"@, "TCP address the server listens on."@, None),
        ("Storage quota"@, "Max total bytes across all active uploads. 0 = no limit."@, None),
        ("Active upload quota"@, "Max number of concurrent active uploads. 0 = no limit."@, None),
        ("Rate limit (req/s)"@, "Requests per second per client IP. 0 = disabled."@, None),
        ("Rate limit burst"@, "Burst allowance above the steady rate."@, None),
        ("API key"@, "Bearer token required on all requests. Empty = auth disabled."@, None),
        ("Storage backend"@, "Where to store uploaded files."@, Some(seq!["filesystem"@, "s3"@])),
        ("Storage directory"@, "Local directory for filesystem storage and S3 staging."@, None),
        ("S3 bucket"@, "Bucket name. Required when STORAGE_BACKEND=s3."@, None),
        ("S3 key prefix"@, "Key prefix for all objects written to S3."@, None),
        ("S3 path-style URLs"@, "Required for MinIO and LocalStack."@, None),
        ("S3 multipart threshold"@, "Files larger than this use multipart upload. Default 8 MiB."@, None),
        ("S3 part size"@, "Part size for multipart uploads. Min 5 MiB."@, None),
        ("Processors"@, "Comma-separated pipeline: nop, exec, mime, av."@, None),
        ("Exec command"@, "Shell command run by the exec processor."@, None),
        ("Exec timeout (s)"@, "Seconds before the exec processor is killed."@, None),
        ("MIME allow-list"@, "Comma-separated MIME types to allow. Others are rejected."@, None),
        ("MIME deny-list"@, "Comma-separated MIME types to reject."@, None),
        ("Extension allow-list"@, "Comma-separated extensions to allow (e.g. jpg,png,pdf)."@, None),
        ("Extension deny-list"@, "Comma-separated extensions to reject."@, None),
        ("AV scanner"@, "Antivirus backend: clamav or http."@, Some(seq!["clamav"@, "http"@])),
        ("AV timeout (s)"@, "Seconds before the AV scanner is killed."@, None),
        ("clamscan binary"@, "Path to the clamscan executable."@, None),
        ("AV HTTP URL"@, "URL to POST files to for scanning."@, None),
        ("AV HTTP header"@, "Extra header for the AV HTTP request (Name: value)."@, None),
        ("AV HTTP max bytes"@, "Files larger than this are rejected by the HTTP scanner."@, None),
        ("Max webhook attempts"@, "Max delivery attempts before giving up."@, None),
        ("Webhook retry delays"@, "Comma-separated seconds between retry attempts."@, None),
        ("Webhook log retention"@, "Days to keep webhook delivery records. 0 = forever."@, None),
        ("Audit log retention"@, "Days to keep audit log entries. 0 = forever."@, None),
        ("Grafana dashboard URL"@, "Link to your Grafana dashboard. Shown on the Metrics page."@, None),
        ("Log level"@, "Tracing filter (error, warn, info, debug, trace)."@, None),
    ]
}

/// The choices of a definition, by their characters.
pub open spec fn choices_view(o: Option<Vec<String>>) -> Option<Seq<Seq<char>>> {
    match o {
        Some(v) => Some(v@.map_values(|c: String| c@)),
        None => None,
    }
}

/// A definition by its texts.
pub open spec fn def_texts(d: SettingDef) -> (Seq<char>, Seq<char>, Option<Seq<Seq<char>>>) {
    (d.label@, d.description@, choices_view(d.options))
}

/// The two choices of a `select` setting.
fn choices(a: &str, b: &str) -> (r: Option<Vec<String>>)
    ensures
        choices_view(r) == Some(seq![a@, b@]),
{
    let mut v: Vec<String> = Vec::new();
    v.push(a.to_owned());
    v.push(b.to_owned());
    assert(v@.map_values(|c: String| c@) =~= seq![a@, b@]);
    Some(v)
}

fn def(
    key: &str,
    label: &str,
    description: &str,
    category: &str,
    input_type: &str,
    options: Option<Vec<String>>,
    restart_required: bool,
    default_val: &str,
) -> (d: SettingDef)
    ensures
        d.key@ == key@,
        d.label@ == label@,
        d.description@ == description@,
        d.category@ == category@,
        d.input_type@ == input_type@,
        d.options == options,
        d.restart_required == restart_required,
        d.default_val@ == default_val@,
{
    SettingDef {
        key: key.to_owned(),
        label: label.to_owned(),
        description: description.to_owned(),
        category: category.to_owned(),
        input_type: input_type.to_owned(),
        options,
        restart_required,
        default_val: default_val.to_owned(),
    }
}

/// Every setting the dashboard manages, in display order.
#[verifier::rlimit(50)]
pub fn all_defs() -> (v: Vec<SettingDef>)
    ensures
        v@.map_values(|d: SettingDef| def_view(d)) == setting_table(),
        v@.map_values(|d: SettingDef| def_texts(d)) == setting_texts(),
{
    let mut v: Vec<SettingDef> = Vec::new();
    v.push(def("BASE_URL", "Base URL", "Public URL of this server, used in upload Location headers.", "General", "url", None, false, "http://localhost:3000"));
    v.push(def("MAX_UPLOAD_BYTES", "Max upload size", "Maximum bytes allowed per upload. Default 100 GiB.", "General", "bytes", None, false, "107374182400"));
    v.push(def("UPLOAD_EXPIRY_HOURS", "Upload expiry", "Hours after creation before an incomplete upload expires. 0 = never.", "General", "number", None, false, "24"));
    v.push(def("ABANDONED_AFTER_HOURS", "Abandon after", "Hours of inactivity before the cleanup worker abandons an upload.", "General", "number", None, false, "24"));
    v.push(def("CLEANUP_INTERVAL_SECS", "Cleanup interval", "Seconds between cleanup worker runs.", "General", "number", None, true, "3600"));
    v.push(def("BIND_ADDR", "Bind address", "TCP address the server listens on.", "General", "text", None, true, "0.0.0.0:3000"));
    v.push(def("QUOTA_MAX_STORAGE_BYTES", "Storage quota", "Max total bytes across all active uploads. 0 = no limit.", "Quotas", "bytes", None, false, "0"));
    v.push(def("QUOTA_MAX_ACTIVE_UPLOADS", "Active upload quota", "Max number of concurrent active uploads. 0 = no limit.", "Quotas", "number", None, false, "0"));
    v.push(def("RATE_LIMIT_RPS", "Rate limit (req/s)", "Requests per second per client IP. 0 = disabled.", "Rate Limiting", "number", None, true, "0"));
    v.push(def("RATE_LIMIT_BURST", "Rate limit burst", "Burst allowance above the steady rate.", "Rate Limiting", "number", None, true, "0"));
    v.push(def("API_KEY", "API key", "Bearer token required on all requests. Empty = auth disabled.", "Security", "password", None, true, ""));
    v.push(def("STORAGE_BACKEND", "Storage backend", "Where to store uploaded files.", "Storage", "select", choices("filesystem", "s3"), true, "filesystem"));
    v.push(def("STORAGE_DIR", "Storage directory", "Local directory for filesystem storage and S3 staging.", "Storage", "text", None, true, "uploads"));
    v.push(def("S3_BUCKET", "S3 bucket", "Bucket name. Required when STORAGE_BACKEND=s3.", "Storage", "text", None, true, ""));
    v.push(def("S3_PREFIX", "S3 key prefix", "Key prefix for all objects written to S3.", "Storage", "text", None, true, "uploads/"));
    v.push(def("S3_FORCE_PATH_STYLE", "S3 path-style URLs", "Required for MinIO and LocalStack.", "Storage", "boolean", None, true, "false"));
    v.push(def("S3_MULTIPART_THRESHOLD", "S3 multipart threshold", "Files larger than this use multipart upload. Default 8 MiB.", "Storage", "bytes", None, true, "8388608"));
    v.push(def("S3_PART_SIZE", "S3 part size", "Part size for multipart uploads. Min 5 MiB.", "Storage", "bytes", None, true, "8388608"));
    v.push(def("PROCESSORS", "Processors", "Comma-separated pipeline: nop, exec, mime, av.", "Processing", "text", None, true, "nop"));
    v.push(def("PROCESSOR_EXEC_COMMAND", "Exec command", "Shell command run by the exec processor.", "Processing", "text", None, true, ""));
    v.push(def("PROCESSOR_EXEC_TIMEOUT_SECS", "Exec timeout (s)", "Seconds before the exec processor is killed.", "Processing", "number", None, true, "300"));
    v.push(def("MIME_ALLOW", "MIME allow-list", "Comma-separated MIME types to allow. Others are rejected.", "Processing", "text", None, true, ""));
    v.push(def("MIME_DENY", "MIME deny-list", "Comma-separated MIME types to reject.", "Processing", "text", None, true, ""));
    v.push(def("EXT_ALLOW", "Extension allow-list", "Comma-separated extensions to allow (e.g. jpg,png,pdf).", "Processing", "text", None, true, ""));
    v.push(def("EXT_DENY", "Extension deny-list", "Comma-separated extensions to reject.", "Processing", "text", None, true, ""));
    v.push(def("AV_SCANNER", "AV scanner", "Antivirus backend: clamav or http.", "Processing", "select", choices("clamav", "http"), true, "clamav"));
    v.push(def("AV_TIMEOUT_SECS", "AV timeout (s)", "Seconds before the AV scanner is killed.", "Processing", "number", None, true, "120"));
    v.push(def("AV_CLAMAV_BIN", "clamscan binary", "Path to the clamscan executable.", "Processing", "text", None, true, "clamscan"));
    v.push(def("AV_HTTP_URL", "AV HTTP URL", "URL to POST files to for scanning.", "Processing", "url", None, true, ""));
    v.push(def("AV_HTTP_HEADER", "AV HTTP header", "Extra header for the AV HTTP request (Name: value).", "Processing", "text", None, true, ""));
    v.push(def("AV_HTTP_MAX_BYTES", "AV HTTP max bytes", "Files larger than this are rejected by the HTTP scanner.", "Processing", "bytes", None, true, "104857600"));
    v.push(def("WEBHOOK_MAX_ATTEMPTS", "Max webhook attempts", "Max delivery attempts before giving up.", "Webhooks", "number", None, false, "3"));
    v.push(def("WEBHOOK_RETRY_DELAYS", "Webhook retry delays", "Comma-separated seconds between retry attempts.", "Webhooks", "text", None, false, "1,4"));
    v.push(def("WEBHOOK_DELIVERY_RETENTION_DAYS", "Webhook log retention", "Days to keep webhook delivery records. 0 = forever.", "Webhooks", "number", None, false, "30"));
    v.push(def("AUDIT_LOG_RETENTION_DAYS", "Audit log retention", "Days to keep audit log entries. 0 = forever.", "Retention", "number", None, false, "90"));
    v.push(def("GRAFANA_URL", "Grafana dashboard URL", "Link to your Grafana dashboard. Shown on the Metrics page.", "Observability", "url", None, false, ""));
    v.push(def("RUST_LOG", "Log level", "Tracing filter (error, warn, info, debug, trace).", "Observability", "text", None, true, "info"));
    assert(v@.map_values(|d: SettingDef| def_view(d)) =~= setting_table());
    assert(v@.map_values(|d: SettingDef| def_texts(d)) =~= setting_texts());
    v
}

/// Where a setting's value comes from: a value stored in the database wins,
/// then a non-empty environment variable, then the default.
pub open spec fn resolve_spec(
    key: Seq<char>,
    db: Seq<(Seq<char>, Seq<char>)>,
    env: Seq<(Seq<char>, Seq<char>)>,
    default_val: Seq<char>,
) -> (Seq<char>, Seq<char>) {
    match env_lookup(db, key) {
        Some(v) => (v, "db"@),
        None => match env_lookup(env, key) {
            Some(v) => if v.len() > 0 {
                (v, "env"@)
            } else {
                (default_val, "default"@)
            },
            None => (default_val, "default"@),
        },
    }
}

/// The current value of setting `key` and its source, given the stored
/// settings and the environment's variables.
pub fn resolve_setting(key: &str, db: &Vec<(String, String)>, env: &Vec<(String, String)>, default_val: &str) -> (r: (String, String))
    ensures
        (r.0@, r.1@) == resolve_spec(key@, vars_view(db@), vars_view(env@), default_val@),
{
    if let Some(v) = lookup(db, key) {
        return (v, "db".to_owned());
    }
    match lookup(env, key) {
        Some(v) => {
            if chars_of(v.as_str()).len() > 0 {
                (v, "env".to_owned())
            } else {
                (default_val.to_owned(), "default".to_owned())
            }
        },
        None => (default_val.to_owned(), "default".to_owned()),
    }
}

/// The mask shown in place of a secret.
pub open spec fn mask() -> Seq<char> {
    "••••••••"@
}

/// The value shown for a setting: a password that is set (not from the
/// default, not empty) is masked.
pub open spec fn shown_value(input_type: Seq<char>, value: Seq<char>, source: Seq<char>) -> Seq<char> {
    if input_type == "password"@ && source != "default"@ && value.len() > 0 {
        mask()
    } else {
        value
    }
}

/// A setting's options, by value.
pub open spec fn options_view(o: Option<Vec<String>>) -> Option<Seq<String>> {
    match o {
        Some(v) => Some(v@),
        None => None,
    }
}

fn clone_options(o: &Option<Vec<String>>) -> (r: Option<Vec<String>>)
    ensures
        options_view(r) == options_view(*o),
{
    match o {
        None => None,
        Some(v) => {
            let mut out: Vec<String> = Vec::new();
            let mut i: usize = 0;
            while i < v.len()
                invariant
                    i <= v.len(),
                    out@ == v@.take(i as int),
                decreases v.len() - i,
            {
                out.push(v[i].clone());
                assert(v@.take(i + 1) =~= v@.take(i as int).push(v@[i as int]));
                i += 1;
            }
            assert(v@.take(v.len() as int) =~= v@);
            Some(out)
        },
    }
}

/// A setting as the dashboard shows it.
pub fn build_setting_entry(d: &SettingDef, db: &Vec<(String, String)>, env: &Vec<(String, String)>) -> (e: SettingEntry)
    ensures
        e.key == d.key,
        e.label == d.label,
        e.description == d.description,
        e.category == d.category,
        e.input_type == d.input_type,
        e.restart_required == d.restart_required,
        options_view(e.options) == options_view(d.options),
        e.source@ == resolve_spec(d.key@, vars_view(db@), vars_view(env@), d.default_val@).1,
        e.value@ == shown_value(
            d.input_type@,
            resolve_spec(d.key@, vars_view(db@), vars_view(env@), d.default_val@).0,
            e.source@,
        ),
{
    let (value, source) = resolve_setting(d.key.as_str(), db, env, d.default_val.as_str());
    let shown = if str_eq(d.input_type.as_str(), "password") && !str_eq(source.as_str(), "default")
        && chars_of(value.as_str()).len() > 0 {
        "••••••••".to_owned()
    } else {
        value
    };
    SettingEntry {
        key: d.key.clone(),
        label: d.label.clone(),
        description: d.description.clone(),
        category: d.category.clone(),
        input_type: d.input_type.clone(),
        value: shown,
        source,
        restart_required: d.restart_required,
        options: clone_options(&d.options),
    }
}

/// The position of the definition of `key`, if it is a managed setting.
pub fn find_def(defs: &Vec<SettingDef>, key: &str) -> (r: Option<usize>)
    ensures
        match r {
            Some(i) => i < defs.len() && defs@[i as int].key@ == key@ && forall|j: int|
                0 <= j < i ==> #[trigger] defs@[j].key@ != key@,
            None => forall|j: int| 0 <= j < defs.len() ==> #[trigger] defs@[j].key@ != key@,
        },
{
    let mut i: usize = 0;
    while i < defs.len()
        invariant
            i <= defs.len(),
            forall|j: int| 0 <= j < i ==> #[trigger] defs@[j].key@ != key@,
        decreases defs.len() - i,
    {
        if str_eq(defs[i].key.as_str(), key) {
            return Some(i);
        }
        i += 1;
    }
    None
}

/// A secret that is set is never shown: a password setting whose value comes
/// from the database or the environment is shown only as the mask (an empty
/// one as empty).
pub proof fn lemma_secret_masked(value: Seq<char>, source: Seq<char>)
    requires
        source != "default"@,
    ensures
        shown_value("password"@, value, source) == (if value.len() > 0 {
            mask()
        } else {
            value
        }),
{
}

/// Whatever the stored settings and the environment, a setting's value comes
/// from one of three sources, and it is the stored value whenever there is one.
pub proof fn lemma_setting_source(
    key: Seq<char>,
    db: Seq<(Seq<char>, Seq<char>)>,
    env: Seq<(Seq<char>, Seq<char>)>,
    default_val: Seq<char>,
)
    ensures
        resolve_spec(key, db, env, default_val).1 == "db"@ || resolve_spec(key, db, env, default_val).1
            == "env"@ || resolve_spec(key, db, env, default_val).1 == "default"@,
        env_lookup(db, key) matches Some(v) ==> resolve_spec(key, db, env, default_val) == (v, "db"@),
{
}

/// Without a stored value, a non-empty environment variable gives the value
/// (source `env`), and otherwise the default does (source `default`); a value
/// that is not a password, or is the default, is shown as it is.
pub proof fn lemma_setting_fallbacks(
    key: Seq<char>,
    db: Seq<(Seq<char>, Seq<char>)>,
    env: Seq<(Seq<char>, Seq<char>)>,
    default_val: Seq<char>,
    input_type: Seq<char>,
    value: Seq<char>,
    source: Seq<char>,
)
    ensures
        env_lookup(db, key) is None ==> (env_lookup(env, key) matches Some(v) ==> (v.len() > 0 ==> resolve_spec(
            key,
            db,
            env,
            default_val,
        ) == (v, "env"@))),
        env_lookup(db, key) is None && (env_lookup(env, key) is None || env_lookup(env, key) == Some(Seq::<char>::empty()))
            ==> resolve_spec(key, db, env, default_val) == (default_val, "default"@),
        input_type != "password"@ || source == "default"@ ==> shown_value(input_type, value, source) == value,
{
}

} // verus!
