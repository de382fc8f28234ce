//! The dashboard API's plain answers: pages of lists, uploads as shown, the
//! audit log's entries and the health check.
use vstd::prelude::*;
use crate::status::status_name;
use crate::upload::Upload;

verus! {

/// The largest page the dashboard lists at once.
pub const MAX_PAGE_LIMIT: i64 = 200;

/// A page of uploads or audit entries (`limit` 50 unless given).
#[derive(Debug, Clone, Copy)]
pub struct Pagination {
    pub limit: i64,
    pub offset: i64,
}

/// A page of upload events (`limit` 200 unless given).
#[derive(Debug, Clone, Copy)]
pub struct EventPagination {
    pub limit: i64,
    pub offset: i64,
}

/// The page size of upload and audit lists when none is asked for.
pub fn default_upload_limit() -> (r: i64)
    ensures
        r == 50,
{
    50
}

/// The page size of event lists when none is asked for.
pub fn default_event_limit() -> (r: i64)
    ensures
        r == 200,
{
    200
}

/// The page size used: the one asked for, capped at `MAX_PAGE_LIMIT`.
pub fn page_limit(limit: i64) -> (r: i64)
    ensures
        r == (if limit < MAX_PAGE_LIMIT {
            limit
        } else {
            MAX_PAGE_LIMIT
        }),
{
    if limit < MAX_PAGE_LIMIT {
        limit
    } else {
        MAX_PAGE_LIMIT
    }
}

impl Pagination {
    /// A page of the default size, from the start.
    pub fn new() -> (p: Pagination)
        ensures
            p.limit == 50,
            p.offset == 0,
    {
        Pagination { limit: default_upload_limit(), offset: 0 }
    }
}

impl EventPagination {
    /// A page of the default size, from the start.
    pub fn new() -> (p: EventPagination)
        ensures
            p.limit == 200,
            p.offset == 0,
    {
        EventPagination { limit: default_event_limit(), offset: 0 }
    }
}

/// An upload as the dashboard shows it: its status by name, without its
/// storage path.
#[derive(Debug, Clone)]
pub struct UploadResponse {
    pub id: String,
    pub filename: Option<String>,
    pub upload_length: i64,
    pub upload_offset: i64,
    pub metadata_json: Option<String>,
    pub status: String,
    pub created_at: String,
    pub updated_at: String,
    pub completed_at: Option<String>,
    pub error_message: Option<String>,
    pub length_is_deferred: bool,
    pub concat_type: Option<String>,
    pub concat_uploads: Option<String>,
    pub context_id: Option<String>,
}

impl UploadResponse {
    /// The dashboard form of an upload.
    pub fn from(u: Upload) -> (r: UploadResponse)
        ensures
            r.id == u.id,
            r.filename == u.filename,
            r.upload_length == u.upload_length,
            r.upload_offset == u.upload_offset,
            r.metadata_json == u.metadata_json,
            r.status@ == status_name(u.status),
            r.created_at == u.created_at,
            r.updated_at == u.updated_at,
            r.completed_at == u.completed_at,
            r.error_message == u.error_message,
            r.length_is_deferred == u.length_is_deferred,
            r.concat_type == u.concat_type,
            r.concat_uploads == u.concat_uploads,
            r.context_id == u.context_id,
    {
        let status = u.status.to_string();
        UploadResponse {
            id: u.id,
            filename: u.filename,
            upload_length: u.upload_length,
            upload_offset: u.upload_offset,
            metadata_json: u.metadata_json,
            status,
            created_at: u.created_at,
            updated_at: u.updated_at,
            completed_at: u.completed_at,
            error_message: u.error_message,
            length_is_deferred: u.length_is_deferred,
            concat_type: u.concat_type,
            concat_uploads: u.concat_uploads,
            context_id: u.context_id,
        }
    }
}

/// The body of a request to purge uploads.
#[derive(Debug, Clone)]
pub struct PurgeRequest {
    pub ids: Vec<String>,
}

/// An entry of the audit log.
#[derive(Debug, Clone)]
pub struct AuditEntry {
    pub id: String,
    pub created_at: String,
    pub request_id: Option<String>,
    pub actor: String,
    pub source_ip: Option<String>,
    pub method: String,
    pub path: String,
    pub upload_id: Option<String>,
    pub status_code: i64,
}

/// The health check's answer: 200 and `ok` when the database and the storage
/// both answer, else 503 and `degraded`.
pub fn health_status(db_ok: bool, storage_ok: bool) -> (r: (u16, String))
    ensures
        r.0 == (if db_ok && storage_ok {
            200u16
        } else {
            503u16
        }),
        r.1@ == (if db_ok && storage_ok {
            "ok"@
        } else {
            "degraded"@
        }),
{
    if db_ok && storage_ok {
        (200, "ok".to_owned())
    } else {
        (503, "degraded".to_owned())
    }
}

} // verus!
