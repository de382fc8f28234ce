//! The decisions of the upload service: which requests an upload accepts in
//! which state, what each accepted request does to it, and the quotas.
//!
//! The service alternates database and storage work with these decisions; the
//! decisions are pure functions from the stored record and the request to the
//! next record (or the error the request is refused with).
use vstd::prelude::*;
use crate::status::{res_view, TusError, TusErrorView, UploadStatus};
use crate::text::{append_i64, append_str, append_u64, opt_chars, opt_str_chars, opt_str_eq, str_eq};
use crate::codec::{json_string_list_of, json_string_list_text, strings_view};
use crate::metadata::{upload_metadata, upload_metadata_spec};
use crate::protocol::{head_spec, scope_spec};
use crate::upload::Upload;

verus! {

// ── appending a chunk ────────────────────────────────────────────────────────

/// The first checks of a PATCH, in the order the service makes them: a removed
/// or consumed upload is not found, an expired one is gone, and an
/// `Upload-Length` is accepted only to fix the length of a deferred-length upload.
/// `Ok(Some(len))` means the length is now `len` and must be persisted.
pub open spec fn declared_length_spec(u: Upload, expired: bool, new_len: Option<i64>) -> Result<Option<i64>, TusErrorView> {
    if u.status == UploadStatus::Abandoned || u.status == UploadStatus::ConsumedByConcat {
        Err(TusErrorView::NotFound)
    } else if expired {
        Err(TusErrorView::Expired)
    } else {
        match new_len {
            None => Ok(None),
            Some(len) => if !u.length_is_deferred {
                Err(TusErrorView::InvalidHeader("Upload-Length may only be set on deferred-length uploads"@))
            } else if len < u.upload_offset {
                Err(TusErrorView::InvalidHeader("Upload-Length cannot be less than current offset"@))
            } else {
                Ok(Some(len))
            },
        }
    }
}

/// The record once a deferred length has been declared.
pub open spec fn with_length_spec(u: Upload, len: i64) -> Upload {
    Upload { upload_length: len, length_is_deferred: false, ..u }
}

/// The checks of a PATCH once the length is settled: the upload must accept
/// bytes, the client must write at the current offset, and a declared
/// `Content-Length` must not run past the upload length.
pub open spec fn chunk_start_spec(u: Upload, client_offset: i64, content_length: Option<i64>) -> Result<(), TusErrorView> {
    if !(u.status == UploadStatus::Created || u.status == UploadStatus::Uploading) {
        Err(TusErrorView::InvalidState)
    } else if client_offset != u.upload_offset {
        Err(TusErrorView::OffsetMismatch { expected: u.upload_offset, actual: client_offset })
    } else if !u.length_is_deferred && content_length is Some && u.upload_offset
        + content_length->0 > u.upload_length {
        Err(TusErrorView::ExceedsUploadLength)
    } else {
        Ok(())
    }
}

/// Where the upload stands once `written` bytes of a chunk are on disk.
pub struct ChunkOutcome {
    /// The new offset.
    pub new_offset: i64,
    /// All declared bytes have arrived: the upload is now Completed.
    pub completed: bool,
}

/// The outcome of writing `written` bytes: refused if the bytes run past the
/// declared length, complete when they reach it exactly.
pub open spec fn chunk_written_spec(u: Upload, written: int) -> Result<(int, bool), TusErrorView> {
    let new_offset = u.upload_offset + written;
    if !u.length_is_deferred && new_offset > u.upload_length {
        Err(TusErrorView::ExceedsUploadLength)
    } else {
        Ok((new_offset, !u.length_is_deferred && new_offset == u.upload_length))
    }
}

/// The record after an accepted chunk: offset advanced; Uploading, or
/// Completed when the last byte arrived.
pub open spec fn after_chunk_spec(u: Upload, new_offset: i64, completed: bool) -> Upload {
    Upload {
        upload_offset: new_offset,
        status: if completed {
            UploadStatus::Completed
        } else {
            UploadStatus::Uploading
        },
        ..u
    }
}

/// First checks of a PATCH (see `declared_length_spec`).
pub fn check_declared_length(u: &Upload, expired: bool, new_upload_length: Option<i64>) -> (r: Result<Option<i64>, TusError>)
    ensures
        res_view(r) == declared_length_spec(*u, expired, new_upload_length),
{
    if matches!(u.status, UploadStatus::Abandoned | UploadStatus::ConsumedByConcat) {
        return Err(TusError::NotFound);
    }
    if expired {
        return Err(TusError::Expired);
    }
    match new_upload_length {
        None => Ok(None),
        Some(len) => {
            if !u.length_is_deferred {
                return Err(
                    TusError::InvalidHeader(
                        "Upload-Length may only be set on deferred-length uploads".to_owned(),
                    ),
                );
            }
            if len < u.upload_offset {
                return Err(
                    TusError::InvalidHeader(
                        "Upload-Length cannot be less than current offset".to_owned(),
                    ),
                );
            }
            Ok(Some(len))
        },
    }
}

/// The record with its deferred length declared as `len`.
pub fn with_declared_length(u: Upload, len: i64) -> (r: Upload)
    ensures
        r == with_length_spec(u, len),
{
    Upload { upload_length: len, length_is_deferred: false, ..u }
}

/// Checks of a PATCH once the length is settled (see `chunk_start_spec`).
pub fn check_chunk_start(u: &Upload, client_offset: i64, content_length: Option<i64>) -> (r: Result<(), TusError>)
    ensures
        res_view(r) == chunk_start_spec(*u, client_offset, content_length),
{
    if !u.status.can_receive_chunk() {
        return Err(TusError::InvalidState);
    }
    if client_offset != u.upload_offset {
        return Err(TusError::OffsetMismatch { expected: u.upload_offset, actual: client_offset });
    }
    if !u.length_is_deferred {
        if let Some(cl) = content_length {
            if u.upload_offset as i128 + cl as i128 > u.upload_length as i128 {
                return Err(TusError::ExceedsUploadLength);
            }
        }
    }
    Ok(())
}

/// The outcome of writing `written` bytes at the upload's offset.
pub fn chunk_written(u: &Upload, written: u64) -> (r: Result<ChunkOutcome, TusError>)
    requires
        written <= i64::MAX,
        u.upload_offset + written <= i64::MAX,
    ensures
        match chunk_written_spec(*u, written as int) {
            Ok((off, done)) => r matches Ok(o) && o.new_offset == off && o.completed == done,
            Err(e) => res_view(r) == Err::<ChunkOutcome, TusErrorView>(e),
        },
{
    let new_offset = u.upload_offset + written as i64;
    if !u.length_is_deferred && new_offset > u.upload_length {
        return Err(TusError::ExceedsUploadLength);
    }
    Ok(ChunkOutcome {
        new_offset,
        completed: !u.length_is_deferred && new_offset == u.upload_length,
    })
}

/// The record after an accepted chunk (see `after_chunk_spec`).
pub fn apply_chunk(u: Upload, outcome: &ChunkOutcome) -> (r: Upload)
    ensures
        r == after_chunk_spec(u, outcome.new_offset, outcome.completed),
{
    let status = if outcome.completed {
        UploadStatus::Completed
    } else {
        UploadStatus::Uploading
    };
    Upload { upload_offset: outcome.new_offset, status, ..u }
}

/// The message of the `chunk_received` event: `{new_offset}/{upload_length}`.
pub fn chunk_event_message(new_offset: i64, upload_length: i64) -> (r: String)
    ensures
        r@ == crate::text::int_text(new_offset as int) + seq!['/'] + crate::text::int_text(
            upload_length as int,
        ),
{
    let mut out = String::new();
    append_i64(&mut out, new_offset);
    crate::text::push_char(&mut out, '/');
    append_i64(&mut out, upload_length);
    out
}

/// Offsets of a record that is not deferred stay within its length.
pub open spec fn offset_in_bounds(u: Upload) -> bool {
    0 <= u.upload_offset && (!u.length_is_deferred ==> u.upload_offset <= u.upload_length)
}

/// An accepted chunk keeps the offset within the declared length, moves it
/// forward by exactly the bytes written, and completes the upload exactly when
/// the last declared byte arrives; a completed upload accepts no further bytes.
pub proof fn lemma_chunk_keeps_offset_in_bounds(u: Upload, client_offset: i64, content_length: Option<i64>, written: int)
    requires
        offset_in_bounds(u),
        0 <= written,
        chunk_start_spec(u, client_offset, content_length) is Ok,
        chunk_written_spec(u, written) is Ok,
        u.upload_offset + written <= i64::MAX,
    ensures
        ({
            let (off, done) = chunk_written_spec(u, written)->Ok_0;
            let v = after_chunk_spec(u, off as i64, done);
            &&& offset_in_bounds(v)
            &&& v.upload_offset == client_offset + written
            &&& done <==> (!u.length_is_deferred && v.upload_offset == v.upload_length)
            &&& done ==> chunk_start_spec(v, v.upload_offset, None) == Err::<(), TusErrorView>(
                TusErrorView::InvalidState,
            )
        }),
{
}

/// What a PATCH wrote, a HEAD reads back: after a chunk of `written` bytes is
/// accepted at `client_offset` on a route that sees the upload, a HEAD on that
/// route (before the upload expires) reports the offset `client_offset +
/// written`, with the upload's length and concatenation type unchanged.
pub proof fn lemma_head_reads_back_patch(
    u: Upload,
    scope: Option<Seq<char>>,
    client_offset: i64,
    content_length: Option<i64>,
    written: int,
)
    requires
        scope_spec(u, scope) is Ok,
        chunk_start_spec(u, client_offset, content_length) is Ok,
        0 <= written,
        chunk_written_spec(u, written) is Ok,
        u.upload_offset + written <= i64::MAX,
    ensures
        ({
            let (off, done) = chunk_written_spec(u, written)->Ok_0;
            head_spec(after_chunk_spec(u, off as i64, done), scope, false) == Ok::<
                (i64, Option<i64>, Option<Seq<char>>),
                TusErrorView,
            >(
                (
                    (client_offset + written) as i64,
                    if u.length_is_deferred {
                        None
                    } else {
                        Some(u.upload_length)
                    },
                    opt_chars(u.concat_type),
                ),
            )
        }),
{
}

/// Declaring the length of a deferred upload keeps its offset within bounds.
pub proof fn lemma_declared_length_in_bounds(u: Upload, expired: bool, new_len: Option<i64>)
    requires
        offset_in_bounds(u),
        declared_length_spec(u, expired, new_len) matches Ok(Some(_)),
    ensures
        offset_in_bounds(with_length_spec(u, declared_length_spec(u, expired, new_len)->Ok_0->0)),
        new_len == Some(declared_length_spec(u, expired, new_len)->Ok_0->0),
{
}

/// A chunk is only ever accepted at the offset the server holds: any other
/// offset is answered with the expected one.
pub proof fn lemma_offset_mismatch_reports_expected(u: Upload, client_offset: i64, content_length: Option<i64>)
    requires
        u.status == UploadStatus::Created || u.status == UploadStatus::Uploading,
        client_offset != u.upload_offset,
    ensures
        chunk_start_spec(u, client_offset, content_length) == Err::<(), TusErrorView>(
            TusErrorView::OffsetMismatch { expected: u.upload_offset, actual: client_offset },
        ),
{
}

/// A chunk is refused for its length only when it would run past the declared
/// length: at the held offset of an upload that accepts bytes, a chunk whose
/// end stays within the length (or of unknown length, or on a deferred-length
/// upload) is accepted, and `ExceedsUploadLength` comes exactly when its end
/// goes beyond the length.  In particular the chunk that brings the upload to
/// its full length is accepted, and writing it completes the upload.
pub proof fn lemma_chunk_within_length_accepted(u: Upload, client_offset: i64, content_length: Option<i64>)
    ensures
        (u.status == UploadStatus::Created || u.status == UploadStatus::Uploading) && client_offset
            == u.upload_offset && (u.length_is_deferred || content_length is None || u.upload_offset
            + content_length->0 <= u.upload_length) ==> chunk_start_spec(u, client_offset, content_length) is Ok,
        chunk_start_spec(u, client_offset, content_length) is Ok ==> (u.status == UploadStatus::Created
            || u.status == UploadStatus::Uploading) && client_offset == u.upload_offset,
        (chunk_start_spec(u, client_offset, content_length) == Err::<(), TusErrorView>(TusErrorView::ExceedsUploadLength))
            <==> ((u.status == UploadStatus::Created || u.status == UploadStatus::Uploading) && client_offset
            == u.upload_offset && !u.length_is_deferred && content_length is Some && u.upload_offset
            + content_length->0 > u.upload_length),
        (u.status == UploadStatus::Created || u.status == UploadStatus::Uploading) && !u.length_is_deferred
            && 0 <= u.upload_offset <= u.upload_length ==> {
            let last = (u.upload_length - u.upload_offset) as i64;
            &&& chunk_start_spec(u, u.upload_offset, Some(last)) is Ok
            &&& chunk_written_spec(u, last as int) == Ok::<(int, bool), TusErrorView>((u.upload_length as int, true))
        },
{
}

/// The first checks of a PATCH: a removed or consumed upload is not found, an
/// expired one is gone; otherwise a request without `Upload-Length` passes,
/// and one with it passes exactly when the upload's length is deferred and
/// the new length is not below the offset, fixing the length to it.
pub proof fn lemma_declared_length(u: Upload, expired: bool, new_len: Option<i64>)
    ensures
        u.status == UploadStatus::Abandoned || u.status == UploadStatus::ConsumedByConcat ==> declared_length_spec(
            u,
            expired,
            new_len,
        ) == Err::<Option<i64>, TusErrorView>(TusErrorView::NotFound),
        declared_length_spec(u, expired, new_len) is Ok ==> !expired && u.status != UploadStatus::Abandoned
            && u.status != UploadStatus::ConsumedByConcat,
        !expired && u.status != UploadStatus::Abandoned && u.status != UploadStatus::ConsumedByConcat ==> (
        new_len is None ==> declared_length_spec(u, expired, new_len) == Ok::<Option<i64>, TusErrorView>(None)),
        !expired && u.status != UploadStatus::Abandoned && u.status != UploadStatus::ConsumedByConcat ==> (
        new_len matches Some(len) ==> (declared_length_spec(u, expired, new_len) is Ok <==> (u.length_is_deferred
            && len >= u.upload_offset))),
        declared_length_spec(u, expired, new_len) matches Ok(Some(len)) ==> new_len == Some(len)
            && with_length_spec(u, len).upload_length == len && !with_length_spec(u, len).length_is_deferred
            && with_length_spec(u, len).upload_offset == u.upload_offset,
{
}

/// Writing `written` bytes moves the offset forward by exactly that much; it
/// is refused only when the bytes run past a declared length, and completes
/// the upload exactly when they reach it.
pub proof fn lemma_chunk_written(u: Upload, written: int)
    ensures
        chunk_written_spec(u, written) is Err <==> (!u.length_is_deferred && u.upload_offset + written
            > u.upload_length),
        chunk_written_spec(u, written) matches Ok((off, done)) ==> off == u.upload_offset + written && (done <==> (
        !u.length_is_deferred && off == u.upload_length)),
        after_chunk_spec(u, (u.upload_offset + written) as i64, true).status == UploadStatus::Completed,
        after_chunk_spec(u, (u.upload_offset + written) as i64, false).status == UploadStatus::Uploading,
        after_chunk_spec(u, (u.upload_offset + written) as i64, true) == (Upload {
            upload_offset: (u.upload_offset + written) as i64,
            status: UploadStatus::Completed,
            ..u
        }),
{
}

// ── status transitions ───────────────────────────────────────────────────────

/// Requests that move an upload from one status to another.
#[derive(Debug, Clone, Copy, PartialEq, Eq, Structural)]
pub enum Transition {
    /// Put a failed upload back in the processing queue.
    RetryProcessing,
    /// Start processing a completed upload.
    BeginProcessing,
    /// Processing succeeded.
    CompleteProcessing,
    /// Processing failed.
    FailProcessing,
    /// The upload is given up (deleted by its client, or abandoned).
    Abandon,
    /// The upload's bytes went into a concat-final upload.
    ConsumeByConcat,
}

/// The status a transition leads to, or why it is refused.
pub open spec fn transition_spec(t: Transition, current: UploadStatus) -> Result<UploadStatus, TusErrorView> {
    match t {
        Transition::RetryProcessing => if current == UploadStatus::FailedProcessing || current
            == UploadStatus::FailedFinalization {
            Ok(UploadStatus::Completed)
        } else {
            Err(TusErrorView::InvalidState)
        },
        Transition::BeginProcessing => if current == UploadStatus::Completed {
            Ok(UploadStatus::Processing)
        } else {
            Err(TusErrorView::InvalidState)
        },
        Transition::CompleteProcessing => Ok(UploadStatus::Finalized),
        Transition::FailProcessing => Ok(UploadStatus::FailedProcessing),
        Transition::Abandon => Ok(UploadStatus::Abandoned),
        Transition::ConsumeByConcat => Ok(UploadStatus::ConsumedByConcat),
    }
}

/// The event recorded for a transition (a partial consumed by a concat-final
/// upload records none).
pub open spec fn transition_event(t: Transition) -> Option<Seq<char>> {
    match t {
        Transition::RetryProcessing => Some("retry_queued"@),
        Transition::BeginProcessing => Some("processing_started"@),
        Transition::CompleteProcessing => Some("finalized"@),
        Transition::FailProcessing => Some("processing_failed"@),
        Transition::Abandon => Some("abandoned"@),
        Transition::ConsumeByConcat => None,
    }
}

/// The status `t` leads to from `current` (see `transition_spec`).
pub fn next_status(t: Transition, current: UploadStatus) -> (r: Result<UploadStatus, TusError>)
    ensures
        res_view(r) == transition_spec(t, current),
{
    match t {
        Transition::RetryProcessing => {
            if current.can_retry() {
                Ok(UploadStatus::Completed)
            } else {
                Err(TusError::InvalidState)
            }
        },
        Transition::BeginProcessing => {
            if current.can_process() {
                Ok(UploadStatus::Processing)
            } else {
                Err(TusError::InvalidState)
            }
        },
        Transition::CompleteProcessing => Ok(UploadStatus::Finalized),
        Transition::FailProcessing => Ok(UploadStatus::FailedProcessing),
        Transition::Abandon => Ok(UploadStatus::Abandoned),
        Transition::ConsumeByConcat => Ok(UploadStatus::ConsumedByConcat),
    }
}

/// The event type recorded for a transition.
pub fn transition_event_name(t: Transition) -> (r: Option<&'static str>)
    ensures
        opt_str_chars(r) == transition_event(t),
{
    match t {
        Transition::RetryProcessing => Some("retry_queued"),
        Transition::BeginProcessing => Some("processing_started"),
        Transition::CompleteProcessing => Some("finalized"),
        Transition::FailProcessing => Some("processing_failed"),
        Transition::Abandon => Some("abandoned"),
        Transition::ConsumeByConcat => None,
    }
}

/// Processing only ever starts from Completed, and a retry puts the upload
/// back to Completed, so the worker picks it up again; a retry is refused
/// unless processing or finalization failed.
pub proof fn lemma_processing_entry(t: Transition, current: UploadStatus)
    ensures
        transition_spec(t, current) == Ok::<UploadStatus, TusErrorView>(UploadStatus::Processing)
            ==> current == UploadStatus::Completed && t == Transition::BeginProcessing,
        t == Transition::RetryProcessing ==> (transition_spec(t, current) is Ok <==> (current
            == UploadStatus::FailedProcessing || current == UploadStatus::FailedFinalization)),
        transition_spec(Transition::RetryProcessing, current) is Ok ==> transition_spec(
            Transition::BeginProcessing,
            transition_spec(Transition::RetryProcessing, current)->Ok_0,
        ) == Ok::<UploadStatus, TusErrorView>(UploadStatus::Processing),
{
}

/// The life of an upload through processing: a completed upload starts
/// processing; processing ends Finalized on success or FailedProcessing on
/// failure; a failed upload can be retried, which makes it Completed again; a
/// finalized upload is never processed or retried again; and an abandoned or
/// consumed upload is not found by a PATCH.
pub proof fn lemma_processing_cycle(u: Upload, expired: bool, new_len: Option<i64>)
    ensures
        transition_spec(Transition::BeginProcessing, UploadStatus::Completed) == Ok::<UploadStatus, TusErrorView>(
            UploadStatus::Processing,
        ),
        transition_spec(Transition::CompleteProcessing, UploadStatus::Processing) == Ok::<UploadStatus, TusErrorView>(
            UploadStatus::Finalized,
        ),
        transition_spec(Transition::FailProcessing, UploadStatus::Processing) == Ok::<UploadStatus, TusErrorView>(
            UploadStatus::FailedProcessing,
        ),
        transition_spec(Transition::RetryProcessing, UploadStatus::FailedProcessing) == Ok::<UploadStatus, TusErrorView>(
            UploadStatus::Completed,
        ),
        transition_spec(Transition::BeginProcessing, UploadStatus::Finalized) is Err,
        transition_spec(Transition::RetryProcessing, UploadStatus::Finalized) is Err,
        transition_spec(Transition::Abandon, u.status) matches Ok(s) ==> declared_length_spec(
            Upload { status: s, ..u },
            expired,
            new_len,
        ) == Err::<Option<i64>, TusErrorView>(TusErrorView::NotFound),
        transition_spec(Transition::ConsumeByConcat, u.status) matches Ok(s) ==> declared_length_spec(
            Upload { status: s, ..u },
            expired,
            new_len,
        ) == Err::<Option<i64>, TusErrorView>(TusErrorView::NotFound),
        transition_spec(Transition::Abandon, u.status) is Ok && transition_spec(Transition::ConsumeByConcat, u.status)
            is Ok && transition_spec(Transition::CompleteProcessing, u.status) is Ok
            && transition_spec(Transition::FailProcessing, u.status) is Ok,
{
}

// ── quotas ───────────────────────────────────────────────────────────────────

/// Refuses a new upload when `active` uploads already reach the limit (a
/// limit of 0 or less is no limit).
pub fn check_active_quota(active: i64, max_active: i64) -> (r: Result<(), TusError>)
    ensures
        max_active > 0 && active >= max_active ==> (r matches Err(TusError::QuotaExceeded(m)) && m@
            == "active upload limit reached ("@ + crate::text::int_text(active as int) + "/"@
            + crate::text::int_text(max_active as int) + ")"@),
        !(max_active > 0 && active >= max_active) ==> r is Ok,
{
    if max_active > 0 && active >= max_active {
        let mut m = "active upload limit reached (".to_owned();
        append_i64(&mut m, active);
        append_str(&mut m, "/");
        append_i64(&mut m, max_active);
        append_str(&mut m, ")");
        return Err(TusError::QuotaExceeded(m));
    }
    Ok(())
}

/// The storage quota is consulted only for a limited store and a new upload of
/// known, positive length.
pub fn storage_quota_applies(max_storage: i64, length_is_deferred: bool, upload_length: i64) -> (r: bool)
    ensures
        r == (max_storage > 0 && !length_is_deferred && upload_length > 0),
{
    max_storage > 0 && !length_is_deferred && upload_length > 0
}

/// Refuses a new upload of `upload_length` bytes when `used` bytes are already
/// held and the total would pass the limit.
pub fn check_storage_quota(used: i64, upload_length: i64, max_storage: i64) -> (r: Result<(), TusError>)
    requires
        used + upload_length <= i64::MAX,
        used + upload_length >= i64::MIN,
    ensures
        used + upload_length > max_storage ==> (r matches Err(TusError::QuotaExceeded(m)) && m@
            == "storage quota would be exceeded ("@ + crate::text::int_text(used as int)
            + " + "@ + crate::text::int_text(upload_length as int) + " > "@
            + crate::text::int_text(max_storage as int) + ")"@),
        used + upload_length <= max_storage ==> r is Ok,
{
    if used + upload_length > max_storage {
        let mut m = "storage quota would be exceeded (".to_owned();
        append_i64(&mut m, used);
        append_str(&mut m, " + ");
        append_i64(&mut m, upload_length);
        append_str(&mut m, " > ");
        append_i64(&mut m, max_storage);
        append_str(&mut m, ")");
        return Err(TusError::QuotaExceeded(m));
    }
    Ok(())
}

/// Refuses to stage `required` bytes on a disk with only `free` bytes free.
pub fn check_staging_capacity(free: u64, required: u64) -> (r: Result<(), TusError>)
    ensures
        free < required ==> (r matches Err(TusError::QuotaExceeded(m)) && m@
            == "staging disk has "@ + crate::text::nat_text(free as nat) + " bytes free, need "@
            + crate::text::nat_text(required as nat)),
        free >= required ==> r is Ok,
{
    if free < required {
        let mut m = "staging disk has ".to_owned();
        append_u64(&mut m, free);
        append_str(&mut m, " bytes free, need ");
        append_u64(&mut m, required);
        return Err(TusError::QuotaExceeded(m));
    }
    Ok(())
}

// ── concatenation ────────────────────────────────────────────────────────────

/// Why a partial upload cannot go into a concat-final upload, checked in order:
/// it must be a partial, Completed, and of the same context as the final upload
/// (a foreign partial is reported as not found, so no other context's IDs leak).
pub open spec fn partial_check_spec(p: Upload, pid: Seq<char>, context_id: Option<Seq<char>>) -> Result<(), TusErrorView> {
    if opt_chars(p.concat_type) != Some("partial"@) {
        Err(TusErrorView::InvalidHeader("upload "@ + pid + " is not a partial upload"@))
    } else if p.status != UploadStatus::Completed {
        Err(TusErrorView::InvalidState)
    } else if opt_chars(p.context_id) != context_id {
        Err(TusErrorView::NotFound)
    } else {
        Ok(())
    }
}

/// Checks that the partial `p` (looked up as `pid`) may be concatenated into a
/// final upload of context `context_id`.
pub fn check_partial(p: &Upload, pid: &str, context_id: Option<&str>) -> (r: Result<(), TusError>)
    ensures
        res_view(r) == partial_check_spec(*p, pid@, opt_str_chars(context_id)),
{
    if !opt_str_eq(&p.concat_type, Some("partial")) {
        let mut m = "upload ".to_owned();
        append_str(&mut m, pid);
        append_str(&mut m, " is not a partial upload");
        return Err(TusError::InvalidHeader(m));
    }
    if p.status != UploadStatus::Completed {
        return Err(TusError::InvalidState);
    }
    if !opt_str_eq(&p.context_id, context_id) {
        return Err(TusError::NotFound);
    }
    Ok(())
}

/// A partial upload goes into a concat-final upload exactly when it is a
/// partial, Completed, and of the final upload's context; a completed partial
/// of another context is not found.
pub proof fn lemma_partial_accepted(p: Upload, pid: Seq<char>, context_id: Option<Seq<char>>)
    ensures
        partial_check_spec(p, pid, context_id) is Ok <==> (opt_chars(p.concat_type) == Some("partial"@)
            && p.status == UploadStatus::Completed && opt_chars(p.context_id) == context_id),
        opt_chars(p.concat_type) == Some("partial"@) && p.status != UploadStatus::Completed ==> partial_check_spec(
            p,
            pid,
            context_id,
        ) == Err::<(), TusErrorView>(TusErrorView::InvalidState),
{
}

/// The length of a concat-final upload adds up: appending one more partial
/// adds its length, and a single partial gives its own length.
pub proof fn lemma_total_length_adds(parts: Seq<Upload>, n: int)
    requires
        0 <= n < parts.len(),
    ensures
        total_length(parts, n + 1) == total_length(parts, n) + parts[n].upload_length,
        total_length(parts, 0) == 0,
        total_length(parts, 1) == parts[0].upload_length,
{
}

/// Sum of the lengths of `parts[..n]`.
pub open spec fn total_length(parts: Seq<Upload>, n: int) -> int
    decreases n,
{
    if n <= 0 {
        0
    } else {
        total_length(parts, n - 1) + parts[n - 1].upload_length
    }
}

/// Every running sum of the lengths of `parts` fits in an `i64`.
pub open spec fn sums_fit(parts: Seq<Upload>) -> bool {
    forall|n: int| 0 <= n <= parts.len() ==> i64::MIN <= #[trigger] total_length(parts, n) <= i64::MAX
}

/// The length of a concat-final upload: the sum of its partials' lengths.
pub fn concat_total_length(parts: &[Upload]) -> (total: i64)
    requires
        sums_fit(parts@),
    ensures
        total == total_length(parts@, parts.len() as int),
{
    let mut total: i64 = 0;
    let mut i: usize = 0;
    while i < parts.len()
        invariant
            i <= parts.len(),
            sums_fit(parts@),
            total == total_length(parts@, i as int),
        decreases parts.len() - i,
    {
        assert(i64::MIN <= total_length(parts@, i as int + 1) <= i64::MAX);
        total = total + parts[i].upload_length;
        i += 1;
    }
    total
}

/// What a concat-final upload is created with: the sum of its partials'
/// lengths, the file name and metadata of its `Upload-Metadata` header, and the
/// JSON list of its partials' IDs.
pub struct ConcatFinalPlan {
    pub upload_length: i64,
    pub filename: Option<String>,
    pub metadata_json: Option<String>,
    pub concat_uploads: String,
}

/// Plans a concat-final upload of the partials `partials`, found (and checked
/// with `check_partial`) under the IDs `partial_ids`.  It is refused only for a
/// malformed `Upload-Metadata` header.
pub fn plan_concat_final(
    partial_ids: &Vec<String>,
    partials: &Vec<Upload>,
    metadata_header: Option<&str>,
) -> (r: Result<ConcatFinalPlan, TusError>)
    requires
        sums_fit(partials@),
    ensures
        match upload_metadata_spec(opt_str_chars(metadata_header)) {
            Ok((f, j)) => r matches Ok(p) && p.upload_length == total_length(partials@, partials.len() as int)
                && opt_chars(p.filename) == f && opt_chars(p.metadata_json) == j
                && p.concat_uploads@ == json_string_list_text(strings_view(partial_ids@)),
            Err(e) => r matches Err(x) && x@ == e,
        },
{
    let upload_length = concat_total_length(partials.as_slice());
    let (filename, metadata_json) = upload_metadata(metadata_header)?;
    let concat_uploads = json_string_list_of(partial_ids.as_slice());
    Ok(ConcatFinalPlan { upload_length, filename, metadata_json, concat_uploads })
}

/// Contexts are isolated: an upload is not found on the routes of a context it
/// does not belong to (so HEAD, PATCH, DELETE and GET all answer 404 there),
/// and a completed partial of another context (or of none) is not found when
/// a concat-final upload of this context names it.
pub proof fn lemma_contexts_isolated(u: Upload, ctx: Seq<char>, expired: bool, pid: Seq<char>, final_ctx: Option<Seq<char>>)
    ensures
        opt_chars(u.context_id) != Some(ctx) ==> scope_spec(u, Some(ctx)) == Err::<(), TusErrorView>(TusErrorView::NotFound),
        opt_chars(u.context_id) != Some(ctx) ==> head_spec(u, Some(ctx), expired) == Err::<
            (i64, Option<i64>, Option<Seq<char>>),
            TusErrorView,
        >(TusErrorView::NotFound),
        opt_chars(u.concat_type) == Some("partial"@) && u.status == UploadStatus::Completed && opt_chars(u.context_id)
            != final_ctx ==> partial_check_spec(u, pid, final_ctx) == Err::<(), TusErrorView>(TusErrorView::NotFound),
{
}

/// The metric label of a context: its slug, or `global` for uploads outside
/// any context (or of a context no longer known).
pub fn context_label(slug: Option<String>) -> (r: String)
    ensures
        r@ == match slug {
            Some(s) => s@,
            None => "global"@,
        },
{
    match slug {
        Some(s) => s,
        None => "global".to_owned(),
    }
}

/// `true` when a stored storage path has to be updated after finalizing.
pub fn storage_path_changed(old_path: &str, new_path: &str) -> (r: bool)
    ensures
        r == (old_path@ != new_path@),
{
    !str_eq(old_path, new_path)
}

} // verus!
