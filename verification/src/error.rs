use vstd::prelude::*;

use crate::text::dec_str;

verus! {

/// Errors that can occur when interacting with OTLP backends.
///
/// Transport and deserialization failures carry the underlying cause's
/// rendered message, so the taxonomy stays a closed set of plain values.
#[derive(Debug, Clone)]
pub enum OtlpError {
    Http(String),
    ApiError { status: u16, message: String },
    Deserialization(String),
    ConnectionFailed(String),
    AuthenticationFailed(String),
    InvalidQuery(String),
    Backend(String),
}

/// The human-readable rendering of each error kind.
pub open spec fn spec_error_message(e: OtlpError) -> Seq<char> {
    match e {
        OtlpError::Http(m) => "HTTP error: "@ + m@,
        OtlpError::ApiError { status, message } => "API error (status "@ + dec_str(
            status as nat,
        ) + "): "@ + message@,
        OtlpError::Deserialization(m) => "deserialization error: "@ + m@,
        OtlpError::ConnectionFailed(m) => "connection failed: "@ + m@,
        OtlpError::AuthenticationFailed(m) => "authentication failed: "@ + m@,
        OtlpError::InvalidQuery(m) => "invalid query: "@ + m@,
        OtlpError::Backend(m) => "backend error: "@ + m@,
    }
}

impl OtlpError {
    /// Render the error for display.
    pub fn message(&self) -> (r: String)
        ensures
            r@ == spec_error_message(*self),
    {
        match self {
            OtlpError::Http(m) => "HTTP error: ".to_owned().concat(m.as_str()),
            OtlpError::ApiError { status, message } => {
                let s = "API error (status ".to_owned();
                let s = s.concat(crate::text::u64_to_string(*status as u64).as_str());
                let s = s.concat("): ");
                s.concat(message.as_str())
            },
            OtlpError::Deserialization(m) => "deserialization error: ".to_owned().concat(
                m.as_str(),
            ),
            OtlpError::ConnectionFailed(m) => "connection failed: ".to_owned().concat(m.as_str()),
            OtlpError::AuthenticationFailed(m) => "authentication failed: ".to_owned().concat(
                m.as_str(),
            ),
            OtlpError::InvalidQuery(m) => "invalid query: ".to_owned().concat(m.as_str()),
            OtlpError::Backend(m) => "backend error: ".to_owned().concat(m.as_str()),
        }
    }
}

} // verus!
