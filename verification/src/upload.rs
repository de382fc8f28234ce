//! The upload record and its expiry.
use vstd::prelude::*;
use crate::status::{status_from_name, TusError, TusErrorView, UploadStatus};

verus! {

/// An upload as stored in the database.
#[derive(Debug, Clone)]
pub struct Upload {
    pub id: String,
    pub filename: Option<String>,
    pub upload_length: i64,
    pub upload_offset: i64,
    pub metadata_json: Option<String>,
    pub status: UploadStatus,
    pub storage_path: String,
    pub created_at: String,
    pub updated_at: String,
    pub completed_at: Option<String>,
    pub error_message: Option<String>,
    pub length_is_deferred: bool,
    pub concat_type: Option<String>,
    pub concat_uploads: Option<String>,
    pub context_id: Option<String>,
}

/// What is written when an upload is created.
#[derive(Debug, Clone)]
pub struct NewUpload {
    pub id: String,
    pub filename: Option<String>,
    pub upload_length: i64,
    pub metadata_json: Option<String>,
    pub storage_path: String,
    pub length_is_deferred: bool,
    pub concat_type: Option<String>,
    pub concat_uploads: Option<String>,
    pub context_id: Option<String>,
}

/// A lifecycle event of an upload, as broadcast and stored.
#[derive(Debug, Clone)]
pub struct UploadEvent {
    pub id: String,
    pub upload_id: String,
    pub event_type: String,
    pub message: Option<String>,
    pub created_at: String,
    pub context_id: Option<String>,
}

/// The instant an RFC 3339 timestamp names, as whole seconds since the Unix
/// epoch and the nanoseconds within that second; `None` when it does not parse.
pub uninterp spec fn rfc3339_instant(s: Seq<char>) -> Option<(i64, u32)>;

/// Earliest and latest second an RFC 3339 date (four-digit year, offset of at
/// most a day) can name.
pub open spec fn rfc3339_min_secs() -> int {
    -62_167_305_600
}

pub open spec fn rfc3339_max_secs() -> int {
    253_402_387_199
}

/// `chrono::DateTime::parse_from_rfc3339`, converted to its Unix timestamp
/// (`timestamp()`, `timestamp_subsec_nanos()`).  The result is named by
/// `rfc3339_instant`; the contract adds that an RFC 3339 date has a four-digit
/// year, which bounds the seconds.
#[verifier::external_body]
pub(crate) fn parse_rfc3339(s: &str) -> (r: Option<(i64, u32)>)
    ensures
        r == rfc3339_instant(s@),
        r matches Some((secs, _)) ==> rfc3339_min_secs() <= secs <= rfc3339_max_secs(),
{
    chrono::DateTime::parse_from_rfc3339(s).ok().map(|dt| (dt.timestamp(), dt.timestamp_subsec_nanos()))
}

/// The current time (`chrono::Utc::now()`) as seconds since the Unix epoch and
/// nanoseconds within the second.  Nothing is promised of the value: it is the clock.
#[verifier::external_body]
pub(crate) fn now_utc() -> (i64, u32) {
    let n = chrono::Utc::now();
    (n.timestamp(), n.timestamp_subsec_nanos())
}

/// `now` is strictly later than `created + hours`.
pub open spec fn expired_spec(created: Option<(i64, u32)>, expiry_hours: int, now: (i64, u32)) -> bool {
    match created {
        None => false,
        Some((secs, nanos)) => {
            let deadline = secs + expiry_hours * 3600;
            now.0 > deadline || (now.0 == deadline && now.1 > nanos)
        },
    }
}

/// Whether an upload created at `created` (an unparseable creation time is
/// `None`) has expired at `now`, `expiry_hours` after its creation.
pub fn expired_at(created: Option<(i64, u32)>, expiry_hours: i64, now: (i64, u32)) -> (r: bool)
    ensures
        r == expired_spec(created, expiry_hours as int, now),
{
    match created {
        None => false,
        Some((secs, nanos)) => {
            let deadline = secs as i128 + expiry_hours as i128 * 3600;
            let n = now.0 as i128;
            n > deadline || (n == deadline && now.1 > nanos)
        },
    }
}

/// An upload expires once strictly more than `expiry_hours` hours have passed
/// since its creation: not at the deadline itself, at any later instant, and
/// once expired it stays expired; an unparseable creation time never expires.
pub proof fn lemma_expiry_deadline(secs: i64, nanos: u32, expiry_hours: int, now: (i64, u32), later: (i64, u32))
    ensures
        now.0 == secs + expiry_hours * 3600 ==> (expired_spec(Some((secs, nanos)), expiry_hours, now) <==> now.1 > nanos),
        now.0 > secs + expiry_hours * 3600 ==> expired_spec(Some((secs, nanos)), expiry_hours, now),
        now.0 < secs + expiry_hours * 3600 ==> !expired_spec(Some((secs, nanos)), expiry_hours, now),
        expired_spec(Some((secs, nanos)), expiry_hours, now) && (later.0 > now.0 || (later.0 == now.0 && later.1
            >= now.1)) ==> expired_spec(Some((secs, nanos)), expiry_hours, later),
        !expired_spec(None, expiry_hours, now),
        expiry_secs(Some((secs, nanos)), expiry_hours, now) == secs + expiry_hours * 3600,
        expiry_secs(None, expiry_hours, now) == now.0 + expiry_hours * 3600,
{
}

impl Upload {
    /// The upload was created more than `expiry_hours` ago.  An unparseable
    /// creation time never expires.
    pub fn is_expired(&self, expiry_hours: i64) -> (r: bool)
        ensures
            exists|now: (i64, u32)|
                r == expired_spec(rfc3339_instant(self.created_at@), expiry_hours as int, now),
            rfc3339_instant(self.created_at@) is None ==> !r,
    {
        let created = parse_rfc3339(self.created_at.as_str());
        let now = now_utc();
        let r = expired_at(created, expiry_hours, now);
        assert(r == expired_spec(rfc3339_instant(self.created_at@), expiry_hours as int, now));
        r
    }
}

/// The first second of `chrono`'s calendar (-262143-01-01 00:00:00 UTC) and
/// the last (+262142-12-31 23:59:59 UTC), in seconds since the Unix epoch.
pub const CHRONO_MIN_SECS: i64 = -8_334_601_228_800;

pub const CHRONO_MAX_SECS: i64 = 8_210_266_876_799;

/// `CHRONO_MIN_SECS` as a number.
pub open spec fn chrono_min_secs() -> int {
    CHRONO_MIN_SECS as int
}

/// `CHRONO_MAX_SECS` as a number.
pub open spec fn chrono_max_secs() -> int {
    CHRONO_MAX_SECS as int
}

/// The HTTP date (`%a, %d %b %Y %H:%M:%S GMT`) `chrono` writes for the UTC
/// instant `secs` seconds after the Unix epoch.
pub uninterp spec fn http_date_text(secs: i64) -> Seq<char>;

/// Formats a UTC instant as an HTTP date with `chrono`; the text is named by
/// `http_date_text`.  Instants inside `chrono`'s calendar always convert.
#[verifier::external_body]
fn http_date(secs: i64) -> (r: String)
    requires
        chrono_min_secs() <= secs <= chrono_max_secs(),
    ensures
        r@ == http_date_text(secs),
{
    chrono::DateTime::from_timestamp(secs, 0).map(|d| d.format("%a, %d %b %Y %H:%M:%S GMT").to_string()).unwrap_or_default()
}

/// The second an upload expires: its creation plus `expiry_hours`, counted
/// from `now` when its creation time does not parse.
pub open spec fn expiry_secs(created: Option<(i64, u32)>, expiry_hours: int, now: (i64, u32)) -> int {
    match created {
        Some((secs, _)) => secs + expiry_hours * 3600,
        None => now.0 + expiry_hours * 3600,
    }
}

/// The `Upload-Expires` value of an upload created at `created_at`, at `now`.
/// The expiry must fall inside `chrono`'s calendar: adding the hours to a
/// date does not go beyond it.
pub fn upload_expires_at(created_at: &str, expiry_hours: i64, now: (i64, u32)) -> (r: String)
    requires
        chrono_min_secs() <= expiry_secs(rfc3339_instant(created_at@), expiry_hours as int, now) <= chrono_max_secs(),
    ensures
        r@ == http_date_text(expiry_secs(rfc3339_instant(created_at@), expiry_hours as int, now) as i64),
{
    let created = parse_rfc3339(created_at);
    let base = match created {
        Some((secs, _)) => secs,
        None => now.0,
    };
    let at = base as i128 + expiry_hours as i128 * 3600;
    http_date(at as i64)
}

/// `upload_expires_at` where the expiry falls inside `chrono`'s calendar, and
/// `None` where it does not.
pub fn upload_expires_at_checked(created_at: &str, expiry_hours: i64, now: (i64, u32)) -> (r: Option<String>)
    ensures
        r is Some <==> chrono_min_secs() <= expiry_secs(rfc3339_instant(created_at@), expiry_hours as int, now)
            <= chrono_max_secs(),
        r matches Some(t) ==> t@ == http_date_text(
            expiry_secs(rfc3339_instant(created_at@), expiry_hours as int, now) as i64,
        ),
{
    let created = parse_rfc3339(created_at);
    let base = match created {
        Some((secs, _)) => secs,
        None => now.0,
    };
    let at = base as i128 + expiry_hours as i128 * 3600;
    if at < CHRONO_MIN_SECS as i128 || at > CHRONO_MAX_SECS as i128 {
        return None;
    }
    Some(upload_expires_at(created_at, expiry_hours, now))
}

/// An upload as read from the database: its status by name, its deferral as
/// an integer.
#[derive(Debug, Clone)]
pub struct UploadRow {
    pub id: String,
    pub filename: Option<String>,
    pub upload_length: i64,
    pub upload_offset: i64,
    pub metadata_json: Option<String>,
    pub status: String,
    pub storage_path: String,
    pub created_at: String,
    pub updated_at: String,
    pub completed_at: Option<String>,
    pub error_message: Option<String>,
    pub length_is_deferred: i64,
    pub concat_type: Option<String>,
    pub concat_uploads: Option<String>,
    pub context_id: Option<String>,
}

/// Reads a stored upload; an unknown status name is an internal error.
pub fn row_to_upload(row: UploadRow) -> (r: Result<Upload, TusError>)
    ensures
        match status_from_name(row.status@) {
            None => r matches Err(e) && e@ == TusErrorView::Internal("unknown status: "@ + row.status@),
            Some(st) => r matches Ok(u) && u.status == st && u.id == row.id && u.filename == row.filename
                && u.upload_length == row.upload_length && u.upload_offset == row.upload_offset
                && u.metadata_json == row.metadata_json && u.storage_path == row.storage_path
                && u.created_at == row.created_at && u.updated_at == row.updated_at
                && u.completed_at == row.completed_at && u.error_message == row.error_message
                && u.length_is_deferred == (row.length_is_deferred != 0)
                && u.concat_type == row.concat_type && u.concat_uploads == row.concat_uploads
                && u.context_id == row.context_id,
        },
{
    let status = match UploadStatus::try_from_str(row.status.as_str()) {
        Ok(s) => s,
        Err(m) => {
            return Err(TusError::Internal(m));
        },
    };
    Ok(Upload {
        id: row.id,
        filename: row.filename,
        upload_length: row.upload_length,
        upload_offset: row.upload_offset,
        metadata_json: row.metadata_json,
        status,
        storage_path: row.storage_path,
        created_at: row.created_at,
        updated_at: row.updated_at,
        completed_at: row.completed_at,
        error_message: row.error_message,
        length_is_deferred: row.length_is_deferred != 0,
        concat_type: row.concat_type,
        concat_uploads: row.concat_uploads,
        context_id: row.context_id,
    })
}

} // verus!
