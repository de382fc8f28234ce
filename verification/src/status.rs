//! Upload lifecycle states and the errors of the TUS endpoints.
use vstd::prelude::*;
use crate::text::{append_i64, append_str, chars_eq, chars_of, int_text};

verus! {

/// Lifecycle of an upload: Created → Uploading → Completed → Processing →
/// Finalized, or one of the failure / terminal states.
#[derive(Debug, Clone, Copy, PartialEq, Eq, Structural)]
pub enum UploadStatus {
    Created,
    Uploading,
    Completed,
    Processing,
    Finalized,
    FailedUpload,
    FailedProcessing,
    FailedFinalization,
    Abandoned,
    /// Partial upload whose bytes were merged into a concat-final upload.
    /// Distinct from Abandoned so the dashboard can show the correct reason.
    ConsumedByConcat,
}

/// The name under which a status is stored and displayed.
pub open spec fn status_name(s: UploadStatus) -> Seq<char> {
    match s {
        UploadStatus::Created => "Created"@,
        UploadStatus::Uploading => "Uploading"@,
        UploadStatus::Completed => "Completed"@,
        UploadStatus::Processing => "Processing"@,
        UploadStatus::Finalized => "Finalized"@,
        UploadStatus::FailedUpload => "FailedUpload"@,
        UploadStatus::FailedProcessing => "FailedProcessing"@,
        UploadStatus::FailedFinalization => "FailedFinalization"@,
        UploadStatus::Abandoned => "Abandoned"@,
        UploadStatus::ConsumedByConcat => "ConsumedByConcat"@,
    }
}

/// The status a stored name stands for, if any.
pub open spec fn status_from_name(s: Seq<char>) -> Option<UploadStatus> {
    if s == "Created"@ {
        Some(UploadStatus::Created)
    } else if s == "Uploading"@ {
        Some(UploadStatus::Uploading)
    } else if s == "Completed"@ {
        Some(UploadStatus::Completed)
    } else if s == "Processing"@ {
        Some(UploadStatus::Processing)
    } else if s == "Finalized"@ {
        Some(UploadStatus::Finalized)
    } else if s == "FailedUpload"@ {
        Some(UploadStatus::FailedUpload)
    } else if s == "FailedProcessing"@ {
        Some(UploadStatus::FailedProcessing)
    } else if s == "FailedFinalization"@ {
        Some(UploadStatus::FailedFinalization)
    } else if s == "Abandoned"@ {
        Some(UploadStatus::Abandoned)
    } else if s == "ConsumedByConcat"@ {
        Some(UploadStatus::ConsumedByConcat)
    } else {
        None
    }
}

impl UploadStatus {
    /// Bytes may be appended only while the upload is Created or Uploading.
    pub fn can_receive_chunk(&self) -> (b: bool)
        ensures
            b == (*self == UploadStatus::Created || *self == UploadStatus::Uploading),
    {
        matches!(self, UploadStatus::Created | UploadStatus::Uploading)
    }

    /// Only a Completed upload may start processing.
    pub fn can_process(&self) -> (b: bool)
        ensures
            b == (*self == UploadStatus::Completed),
    {
        matches!(self, UploadStatus::Completed)
    }

    /// Processing may be retried after a processing or finalization failure.
    pub fn can_retry(&self) -> (b: bool)
        ensures
            b == (*self == UploadStatus::FailedProcessing || *self
                == UploadStatus::FailedFinalization),
    {
        matches!(self, UploadStatus::FailedProcessing | UploadStatus::FailedFinalization)
    }

    /// The stored and displayed name of the status (`Display`).
    pub fn as_str(&self) -> (r: &'static str)
        ensures
            r@ == status_name(*self),
    {
        match self {
            UploadStatus::Created => "Created",
            UploadStatus::Uploading => "Uploading",
            UploadStatus::Completed => "Completed",
            UploadStatus::Processing => "Processing",
            UploadStatus::Finalized => "Finalized",
            UploadStatus::FailedUpload => "FailedUpload",
            UploadStatus::FailedProcessing => "FailedProcessing",
            UploadStatus::FailedFinalization => "FailedFinalization",
            UploadStatus::Abandoned => "Abandoned",
            UploadStatus::ConsumedByConcat => "ConsumedByConcat",
        }
    }

    /// The status name as an owned string (`to_string()`).
    pub fn to_string(&self) -> (r: String)
        ensures
            r@ == status_name(*self),
    {
        self.as_str().to_owned()
    }

    /// Parses a stored status name (`TryFrom<String>`); an unknown name gives
    /// `unknown status: {name}`.
    pub fn try_from_str(s: &str) -> (r: Result<UploadStatus, String>)
        ensures
            match status_from_name(s@) {
                Some(st) => r == Ok::<UploadStatus, String>(st),
                None => r is Err && r->Err_0@ == "unknown status: "@ + s@,
            },
    {
        let cs = chars_of(s);
        if chars_eq(cs.as_slice(), chars_of("Created").as_slice()) {
            return Ok(UploadStatus::Created);
        }
        if chars_eq(cs.as_slice(), chars_of("Uploading").as_slice()) {
            return Ok(UploadStatus::Uploading);
        }
        if chars_eq(cs.as_slice(), chars_of("Completed").as_slice()) {
            return Ok(UploadStatus::Completed);
        }
        if chars_eq(cs.as_slice(), chars_of("Processing").as_slice()) {
            return Ok(UploadStatus::Processing);
        }
        if chars_eq(cs.as_slice(), chars_of("Finalized").as_slice()) {
            return Ok(UploadStatus::Finalized);
        }
        if chars_eq(cs.as_slice(), chars_of("FailedUpload").as_slice()) {
            return Ok(UploadStatus::FailedUpload);
        }
        if chars_eq(cs.as_slice(), chars_of("FailedProcessing").as_slice()) {
            return Ok(UploadStatus::FailedProcessing);
        }
        if chars_eq(cs.as_slice(), chars_of("FailedFinalization").as_slice()) {
            return Ok(UploadStatus::FailedFinalization);
        }
        if chars_eq(cs.as_slice(), chars_of("Abandoned").as_slice()) {
            return Ok(UploadStatus::Abandoned);
        }
        if chars_eq(cs.as_slice(), chars_of("ConsumedByConcat").as_slice()) {
            return Ok(UploadStatus::ConsumedByConcat);
        }
        let mut msg = "unknown status: ".to_owned();
        append_str(&mut msg, s);
        Err(msg)
    }
}

/// Reading back a stored status name gives the status that was stored.
pub proof fn lemma_status_name_round_trip(s: UploadStatus)
    ensures
        status_from_name(status_name(s)) == Some(s),
{
    reveal_strlit("Created");
    reveal_strlit("Uploading");
    reveal_strlit("Completed");
    reveal_strlit("Processing");
    reveal_strlit("Finalized");
    reveal_strlit("FailedUpload");
    reveal_strlit("FailedProcessing");
    reveal_strlit("FailedFinalization");
    reveal_strlit("Abandoned");
    reveal_strlit("ConsumedByConcat");
    assert("Created"@.len() == 7 && "Uploading"@.len() == 9 && "Completed"@.len() == 9
        && "Processing"@.len() == 10 && "Finalized"@.len() == 9 && "FailedUpload"@.len() == 12
        && "FailedProcessing"@.len() == 16 && "FailedFinalization"@.len() == 18
        && "Abandoned"@.len() == 9 && "ConsumedByConcat"@.len() == 16);
    assert("Uploading"@[0] == 'U' && "Completed"@[0] == 'C' && "Finalized"@[0] == 'F'
        && "Abandoned"@[0] == 'A' && "FailedProcessing"@[0] == 'F' && "ConsumedByConcat"@[0]
        == 'C');
}

/// Errors of the TUS endpoints and the services behind them.  Failures of the
/// storage, the database and other internals carry their message.
#[derive(Debug, Clone, PartialEq, Eq)]
pub enum TusError {
    NotFound,
    OffsetMismatch { expected: i64, actual: i64 },
    UnsupportedVersion(String),
    MissingHeader(String),
    InvalidHeader(String),
    InvalidState,
    ExceedsUploadLength,
    InvalidContentType,
    Expired,
    ChecksumMismatch,
    UnsupportedChecksumAlgorithm(String),
    QuotaExceeded(String),
    Forbidden,
    Unauthorized,
    Storage(String),
    Database(String),
    Internal(String),
}

/// The value of an error: its variant and the characters it carries.
pub enum TusErrorView {
    NotFound,
    OffsetMismatch { expected: i64, actual: i64 },
    UnsupportedVersion(Seq<char>),
    MissingHeader(Seq<char>),
    InvalidHeader(Seq<char>),
    InvalidState,
    ExceedsUploadLength,
    InvalidContentType,
    Expired,
    ChecksumMismatch,
    UnsupportedChecksumAlgorithm(Seq<char>),
    QuotaExceeded(Seq<char>),
    Forbidden,
    Unauthorized,
    Storage(Seq<char>),
    Database(Seq<char>),
    Internal(Seq<char>),
}

impl View for TusError {
    type V = TusErrorView;

    open spec fn view(&self) -> TusErrorView {
        match *self {
            TusError::NotFound => TusErrorView::NotFound,
            TusError::OffsetMismatch { expected, actual } => TusErrorView::OffsetMismatch {
                expected,
                actual,
            },
            TusError::UnsupportedVersion(v) => TusErrorView::UnsupportedVersion(v@),
            TusError::MissingHeader(h) => TusErrorView::MissingHeader(h@),
            TusError::InvalidHeader(h) => TusErrorView::InvalidHeader(h@),
            TusError::InvalidState => TusErrorView::InvalidState,
            TusError::ExceedsUploadLength => TusErrorView::ExceedsUploadLength,
            TusError::InvalidContentType => TusErrorView::InvalidContentType,
            TusError::Expired => TusErrorView::Expired,
            TusError::ChecksumMismatch => TusErrorView::ChecksumMismatch,
            TusError::UnsupportedChecksumAlgorithm(a) => TusErrorView::UnsupportedChecksumAlgorithm(a@),
            TusError::QuotaExceeded(m) => TusErrorView::QuotaExceeded(m@),
            TusError::Forbidden => TusErrorView::Forbidden,
            TusError::Unauthorized => TusErrorView::Unauthorized,
            TusError::Storage(m) => TusErrorView::Storage(m@),
            TusError::Database(m) => TusErrorView::Database(m@),
            TusError::Internal(m) => TusErrorView::Internal(m@),
        }
    }
}

/// A result with its error taken by its value.
pub open spec fn res_view<T>(r: Result<T, TusError>) -> Result<T, TusErrorView> {
    match r {
        Ok(t) => Ok(t),
        Err(e) => Err(e@),
    }
}

/// The HTTP status each error is answered with.
pub open spec fn error_status(e: TusError) -> u16 {
    match e {
        TusError::NotFound => 404,
        TusError::OffsetMismatch { .. } => 409,
        TusError::UnsupportedVersion(_) => 412,
        TusError::MissingHeader(_) => 400,
        TusError::InvalidHeader(_) => 400,
        TusError::InvalidState => 403,
        TusError::ExceedsUploadLength => 413,
        TusError::InvalidContentType => 415,
        TusError::Expired => 410,
        TusError::ChecksumMismatch => 460,
        TusError::UnsupportedChecksumAlgorithm(_) => 400,
        TusError::QuotaExceeded(_) => 507,
        TusError::Forbidden => 403,
        TusError::Unauthorized => 401,
        TusError::Storage(_) => 500,
        TusError::Database(_) => 500,
        TusError::Internal(_) => 500,
    }
}

/// The message each error is answered with (its `Display`).
pub open spec fn error_message(e: TusError) -> Seq<char> {
    match e {
        TusError::NotFound => "upload not found"@,
        TusError::OffsetMismatch { expected, actual } => "offset mismatch: expected "@ + int_text(
            expected as int,
        ) + ", got "@ + int_text(actual as int),
        TusError::UnsupportedVersion(v) => "unsupported TUS version: "@ + v@,
        TusError::MissingHeader(h) => "missing required header: "@ + h@,
        TusError::InvalidHeader(h) => "invalid header: "@ + h@,
        TusError::InvalidState => "upload is not in a valid state for this operation"@,
        TusError::ExceedsUploadLength => "chunk would exceed upload length"@,
        TusError::InvalidContentType => "Content-Type must be application/offset+octet-stream"@,
        TusError::Expired => "upload has expired"@,
        TusError::ChecksumMismatch => "checksum mismatch"@,
        TusError::UnsupportedChecksumAlgorithm(a) => "unsupported checksum algorithm: "@ + a@,
        TusError::QuotaExceeded(m) => "quota exceeded: "@ + m@,
        TusError::Forbidden => "forbidden"@,
        TusError::Unauthorized => "unauthorized"@,
        TusError::Storage(m) => "storage error: "@ + m@,
        TusError::Database(m) => "database error: "@ + m@,
        TusError::Internal(m) => "internal error: "@ + m@,
    }
}

fn prefixed(prefix: &str, rest: &String) -> (r: String)
    ensures
        r@ == prefix@ + rest@,
{
    let mut out = prefix.to_owned();
    append_str(&mut out, rest.as_str());
    out
}

impl TusError {
    /// The HTTP status code of the response for this error.
    pub fn status_code(&self) -> (code: u16)
        ensures
            code == error_status(*self),
    {
        match self {
            TusError::NotFound => 404,
            TusError::OffsetMismatch { .. } => 409,
            TusError::UnsupportedVersion(_) => 412,
            TusError::MissingHeader(_) => 400,
            TusError::InvalidHeader(_) => 400,
            TusError::InvalidState => 403,
            TusError::ExceedsUploadLength => 413,
            TusError::InvalidContentType => 415,
            TusError::Expired => 410,
            TusError::ChecksumMismatch => 460,
            TusError::UnsupportedChecksumAlgorithm(_) => 400,
            TusError::QuotaExceeded(_) => 507,
            TusError::Forbidden => 403,
            TusError::Unauthorized => 401,
            TusError::Storage(_) => 500,
            TusError::Database(_) => 500,
            TusError::Internal(_) => 500,
        }
    }

    /// The body text of the response for this error (`Display`).
    pub fn message(&self) -> (r: String)
        ensures
            r@ == error_message(*self),
    {
        match self {
            TusError::NotFound => "upload not found".to_owned(),
            TusError::OffsetMismatch { expected, actual } => {
                let mut out = "offset mismatch: expected ".to_owned();
                append_i64(&mut out, *expected);
                append_str(&mut out, ", got ");
                append_i64(&mut out, *actual);
                out
            },
            TusError::UnsupportedVersion(v) => prefixed("unsupported TUS version: ", v),
            TusError::MissingHeader(h) => prefixed("missing required header: ", h),
            TusError::InvalidHeader(h) => prefixed("invalid header: ", h),
            TusError::InvalidState => "upload is not in a valid state for this operation".to_owned(),
            TusError::ExceedsUploadLength => "chunk would exceed upload length".to_owned(),
            TusError::InvalidContentType => "Content-Type must be application/offset+octet-stream".to_owned(),
            TusError::Expired => "upload has expired".to_owned(),
            TusError::ChecksumMismatch => "checksum mismatch".to_owned(),
            TusError::UnsupportedChecksumAlgorithm(a) => prefixed(
                "unsupported checksum algorithm: ",
                a,
            ),
            TusError::QuotaExceeded(m) => prefixed("quota exceeded: ", m),
            TusError::Forbidden => "forbidden".to_owned(),
            TusError::Unauthorized => "unauthorized".to_owned(),
            TusError::Storage(m) => prefixed("storage error: ", m),
            TusError::Database(m) => prefixed("database error: ", m),
            TusError::Internal(m) => prefixed("internal error: ", m),
        }
    }
}

/// Every error is answered with a client (4xx) or server (5xx) error status,
/// and only failures of the server's own machinery are 5xx: a client mistake is
/// never reported as a server fault, and no error is reported as success.
pub proof fn lemma_error_status_classes(e: TusError)
    ensures
        400 <= error_status(e) < 600,
        error_status(e) >= 500 <==> (e is Storage || e is Database || e is Internal || e is QuotaExceeded),
{
}

/// The statuses the TUS protocol gives its errors: 404 for an unknown upload,
/// 409 for a wrong offset, 410 for an expired upload, 412 for an unsupported
/// version, 413 for a chunk past the length, 415 for a wrong content type,
/// 460 for a checksum mismatch, 400 for malformed headers and unsupported
/// checksum algorithms, 403 for a wrong state or a forbidden action, 401 for
/// a missing login, and 507 for an exceeded quota.
pub proof fn lemma_tus_error_statuses(e: TusError)
    ensures
        e is NotFound ==> error_status(e) == 404,
        e is OffsetMismatch ==> error_status(e) == 409,
        e is Expired ==> error_status(e) == 410,
        e is UnsupportedVersion ==> error_status(e) == 412,
        e is ExceedsUploadLength ==> error_status(e) == 413,
        e is InvalidContentType ==> error_status(e) == 415,
        e is ChecksumMismatch ==> error_status(e) == 460,
        e is MissingHeader || e is InvalidHeader || e is UnsupportedChecksumAlgorithm ==> error_status(e) == 400,
        e is InvalidState || e is Forbidden ==> error_status(e) == 403,
        e is Unauthorized ==> error_status(e) == 401,
        e is QuotaExceeded ==> error_status(e) == 507,
{
}

} // verus!
