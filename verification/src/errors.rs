//! Error taxonomy of the gateway and its mapping to HTTP status codes.

use vstd::prelude::*;

verus! {

/// Every failure the request path can surface. Accounting and persistence
/// failures on the hot path are swallowed by the callers and never appear
/// here.
#[derive(Clone, Copy, Debug, PartialEq, Eq, Structural)]
pub enum GatewayError {
    /// Missing or invalid credential.
    AuthFailure,
    /// Admin-only surface or cross-principal access.
    PermissionDenied,
    /// Requests-per-minute window exceeded.
    RpmExceeded,
    /// Token quota exhausted.
    QuotaExhausted,
    /// Unknown or inactive model configuration.
    ModelNotFound,
    /// Unknown async job.
    JobNotFound,
    /// Unknown confirm session.
    SessionMissing,
    /// Confirm session past its expiry.
    SessionExpired,
    /// Malformed payload or a failed pre-request transform.
    BadRequest,
    /// A failed post-request transform.
    TransformFailed,
    /// Upstream failure eligible for fallback (transport, HTTP >= 500, 429).
    UpstreamRetryable,
    /// Upstream failure surfaced directly (HTTP 4xx other than 429).
    UpstreamNonRetryable,
    /// The primary and every fallback candidate failed or was gated.
    AllBackendsExhausted,
    /// The tool-call loop hit its iteration ceiling.
    MaxIterations,
    /// Database or serialisation failure.
    InternalError,
}

impl GatewayError {
    /// The HTTP status code each error surfaces as.
    pub open spec fn spec_status_code(self) -> u16 {
        match self {
            GatewayError::AuthFailure => 401,
            GatewayError::PermissionDenied => 403,
            GatewayError::RpmExceeded => 429,
            GatewayError::QuotaExhausted => 402,
            GatewayError::ModelNotFound => 404,
            GatewayError::JobNotFound => 404,
            GatewayError::SessionMissing => 404,
            GatewayError::SessionExpired => 410,
            GatewayError::BadRequest => 400,
            GatewayError::TransformFailed => 500,
            GatewayError::UpstreamRetryable => 500,
            GatewayError::UpstreamNonRetryable => 500,
            GatewayError::AllBackendsExhausted => 503,
            GatewayError::MaxIterations => 500,
            GatewayError::InternalError => 500,
        }
    }

    pub fn status_code(&self) -> (code: u16)
        ensures
            code == self.spec_status_code(),
    {
        match self {
            GatewayError::AuthFailure => 401,
            GatewayError::PermissionDenied => 403,
            GatewayError::RpmExceeded => 429,
            GatewayError::QuotaExhausted => 402,
            GatewayError::ModelNotFound => 404,
            GatewayError::JobNotFound => 404,
            GatewayError::SessionMissing => 404,
            GatewayError::SessionExpired => 410,
            GatewayError::BadRequest => 400,
            GatewayError::TransformFailed => 500,
            GatewayError::UpstreamRetryable => 500,
            GatewayError::UpstreamNonRetryable => 500,
            GatewayError::AllBackendsExhausted => 503,
            GatewayError::MaxIterations => 500,
            GatewayError::InternalError => 500,
        }
    }

    /// A short human-readable description, in place of `Display`.
    pub open spec fn spec_message(self) -> Seq<char> {
        match self {
            GatewayError::AuthFailure => "invalid or missing credential"@,
            GatewayError::PermissionDenied => "forbidden"@,
            GatewayError::RpmExceeded => "rate limit exceeded"@,
            GatewayError::QuotaExhausted => "token quota exhausted"@,
            GatewayError::ModelNotFound => "model not found"@,
            GatewayError::JobNotFound => "job not found"@,
            GatewayError::SessionMissing => "session not found"@,
            GatewayError::SessionExpired => "session expired"@,
            GatewayError::BadRequest => "bad request"@,
            GatewayError::TransformFailed => "response transform failed"@,
            GatewayError::UpstreamRetryable => "upstream failure"@,
            GatewayError::UpstreamNonRetryable => "upstream rejected the request"@,
            GatewayError::AllBackendsExhausted => "all backends exhausted"@,
            GatewayError::MaxIterations => "max iterations reached"@,
            GatewayError::InternalError => "internal error"@,
        }
    }

    pub fn message(&self) -> (msg: String)
        ensures
            msg@ == self.spec_message(),
    {
        match self {
            GatewayError::AuthFailure => String::from_str("invalid or missing credential"),
            GatewayError::PermissionDenied => String::from_str("forbidden"),
            GatewayError::RpmExceeded => String::from_str("rate limit exceeded"),
            GatewayError::QuotaExhausted => String::from_str("token quota exhausted"),
            GatewayError::ModelNotFound => String::from_str("model not found"),
            GatewayError::JobNotFound => String::from_str("job not found"),
            GatewayError::SessionMissing => String::from_str("session not found"),
            GatewayError::SessionExpired => String::from_str("session expired"),
            GatewayError::BadRequest => String::from_str("bad request"),
            GatewayError::TransformFailed => String::from_str("response transform failed"),
            GatewayError::UpstreamRetryable => String::from_str("upstream failure"),
            GatewayError::UpstreamNonRetryable => String::from_str("upstream rejected the request"),
            GatewayError::AllBackendsExhausted => String::from_str("all backends exhausted"),
            GatewayError::MaxIterations => String::from_str("max iterations reached"),
            GatewayError::InternalError => String::from_str("internal error"),
        }
    }
}

} // verus!
