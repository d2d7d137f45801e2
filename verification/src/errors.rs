//! The error taxonomy of the engine and the response envelopes of the read
//! API: every failure is reported with a stable code, a human-readable
//! message, and a fresh trace identifier.
use vstd::prelude::*;

verus! {

/// How an upstream-transport failure is classified.
#[derive(PartialEq, Eq, Structural, Clone, Copy, Debug)]
pub enum HttpErrorKind {
    /// The request timed out.
    Timeout,
    /// The upstream answered with status 403.
    Forbidden,
    /// The upstream answered with status 404.
    NotFound,
    /// The response body could not be decoded into a structured value.
    Decode,
    /// Every retry attempt drew a non-success status and no transport
    /// failure was ever seen, so there is no transport error to return.
    OnlyBadStatuses,
    /// Any other transport-level failure.
    Other,
}

/// An upstream-transport failure with its classification.
#[derive(Debug)]
pub struct HttpError {
    pub kind: HttpErrorKind,
    pub message: String,
}

/// The failure taxonomy of the engine.
#[derive(Debug)]
pub enum ApiError {
    Database(String),
    Http(HttpError),
    Validation(String),
    NotFound(String),
    Internal(String),
}

/// The classification a transport failure receives from its observable
/// features: a timeout flag, a decode flag, and the response status if any.
pub open spec fn classify_spec(is_timeout: bool, is_decode: bool, status: Option<u16>) -> HttpErrorKind {
    if is_timeout {
        HttpErrorKind::Timeout
    } else if status == Some(403u16) {
        HttpErrorKind::Forbidden
    } else if status == Some(404u16) {
        HttpErrorKind::NotFound
    } else if is_decode {
        HttpErrorKind::Decode
    } else {
        HttpErrorKind::Other
    }
}

/// Classifies a transport failure from plain observations of it.
pub fn classify_http(is_timeout: bool, is_decode: bool, status: Option<u16>, message: String) -> (r:
    HttpError)
    ensures
        r.kind == classify_spec(is_timeout, is_decode, status),
        r.message == message,
{
    let kind = if is_timeout {
        HttpErrorKind::Timeout
    } else if status == Some(403u16) {
        HttpErrorKind::Forbidden
    } else if status == Some(404u16) {
        HttpErrorKind::NotFound
    } else if is_decode {
        HttpErrorKind::Decode
    } else {
        HttpErrorKind::Other
    };
    HttpError { kind, message }
}

/// The stable error code reported for a failure.
pub open spec fn api_code(e: ApiError) -> Seq<char> {
    match e {
        ApiError::Database(_) => "DATABASE_ERROR"@,
        ApiError::Http(h) => match h.kind {
            HttpErrorKind::Timeout => "UPSTREAM_TIMEOUT"@,
            HttpErrorKind::Forbidden => "UPSTREAM_403"@,
            HttpErrorKind::NotFound => "UPSTREAM_404"@,
            _ => "UPSTREAM_ERROR"@,
        },
        ApiError::Validation(_) => "VALIDATION_ERROR"@,
        ApiError::NotFound(_) => "NOT_FOUND"@,
        ApiError::Internal(_) => "INTERNAL_ERROR"@,
    }
}

/// The human-readable message reported for a failure.
pub open spec fn api_message(e: ApiError) -> Seq<char> {
    match e {
        ApiError::Database(_) => "Database operation failed"@,
        ApiError::Http(h) => "External API error: "@ + h.message@,
        ApiError::Validation(m) => m@,
        ApiError::NotFound(m) => m@,
        ApiError::Internal(m) => m@,
    }
}

/// The structured error body of a failed request.
pub struct ErrorDetail {
    pub code: String,
    pub message: String,
    pub trace_id: String,
}

/// The envelope of a failed request.
pub struct ErrorResponse {
    pub ok: bool,
    pub error: ErrorDetail,
}

/// The envelope of a successful request.
pub struct SuccessResponse<T> {
    pub ok: bool,
    pub data: T,
}

impl<T> SuccessResponse<T> {
    /// Wraps a payload in the success envelope.
    pub fn new(data: T) -> (r: SuccessResponse<T>)
        ensures
            r.ok == true,
            r.data == data,
    {
        SuccessResponse { ok: true, data }
    }
}

/// Relies on uuid::Uuid::new_v4 and its Display form: a fresh random
/// identifier rendered in the hyphenated format, which is 36 characters.
#[verifier::external_body]
fn fresh_trace_id() -> (r: String)
    ensures
        r@.len() == 36,
{
    uuid::Uuid::new_v4().to_string()
}

impl ApiError {
    /// The stable code of this failure.
    pub fn code(&self) -> (r: String)
        ensures
            r@ == api_code(*self),
    {
        match self {
            ApiError::Database(_) => String::from_str("DATABASE_ERROR"),
            ApiError::Http(h) => match h.kind {
                HttpErrorKind::Timeout => String::from_str("UPSTREAM_TIMEOUT"),
                HttpErrorKind::Forbidden => String::from_str("UPSTREAM_403"),
                HttpErrorKind::NotFound => String::from_str("UPSTREAM_404"),
                _ => String::from_str("UPSTREAM_ERROR"),
            },
            ApiError::Validation(_) => String::from_str("VALIDATION_ERROR"),
            ApiError::NotFound(_) => String::from_str("NOT_FOUND"),
            ApiError::Internal(_) => String::from_str("INTERNAL_ERROR"),
        }
    }

    /// The human-readable message of this failure.
    pub fn public_message(&self) -> (r: String)
        ensures
            r@ == api_message(*self),
    {
        match self {
            ApiError::Database(_) => String::from_str("Database operation failed"),
            ApiError::Http(h) => {
                let prefix = String::from_str("External API error: ");
                prefix.concat(h.message.as_str())
            },
            ApiError::Validation(m) => m.clone(),
            ApiError::NotFound(m) => m.clone(),
            ApiError::Internal(m) => m.clone(),
        }
    }

    /// The structured body this failure is reported with: a stable code,
    /// a message, and the given trace identifier.
    pub fn to_error_response(&self, trace_id: String) -> (r: ErrorResponse)
        ensures
            r.ok == false,
            r.error.code@ == api_code(*self),
            r.error.message@ == api_message(*self),
            r.error.trace_id == trace_id,
    {
        ErrorResponse {
            ok: false,
            error: ErrorDetail { code: self.code(), message: self.public_message(), trace_id },
        }
    }

    /// The structured body with a freshly generated trace identifier.
    pub fn respond(&self) -> (r: ErrorResponse)
        ensures
            r.ok == false,
            r.error.code@ == api_code(*self),
            r.error.message@ == api_message(*self),
            r.error.trace_id@.len() == 36,
    {
        let tid = fresh_trace_id();
        self.to_error_response(tid)
    }
}

} // verus!
