//! The errors of omnihook operations.

use vstd::prelude::*;

verus! {

/// Errors that can occur within omnihook operations.
#[derive(Debug)]
pub enum OmnihookError {
    /// Invalid or missing configuration.
    ConfigError(String),
    /// The notification could not be sent.
    NotifyFailed(String),
    /// An internal error that should not occur under normal circumstances.
    InternalError(String),
    /// The payload could not be signed.
    SigningError(String),
    /// The payload could not be serialized.
    SerializationError(String),
    /// A failure of the underlying HTTP client.
    RequestError(reqwest_middleware::Error),
}

/// `Display` of `reqwest_middleware::Error`. What the text says is not
/// stated: the error is an outside value with nothing the contracts can read.
#[verifier::external_body]
fn request_error_text(e: &reqwest_middleware::Error) -> String {
    e.to_string()
}

impl OmnihookError {
    /// The human-readable description of the error.
    pub fn to_string(&self) -> (res: String)
        ensures
            self matches OmnihookError::ConfigError(m) ==> res@ == "Configuration error: "@ + m@,
            self matches OmnihookError::NotifyFailed(m) ==> res@ == "Notification failed: "@ + m@,
            self matches OmnihookError::InternalError(m) ==> res@ == "Internal error: "@ + m@,
            self matches OmnihookError::SigningError(m) ==> res@ == "Signing error: "@ + m@,
            self matches OmnihookError::SerializationError(m) ==> res@ == "Serialization error: "@
                + m@,
            self matches OmnihookError::RequestError(_) ==> exists|detail: Seq<char>|
                res@ == "Request error: "@ + detail,
    {
        let mut out = String::new();
        match self {
            OmnihookError::ConfigError(m) => {
                out.append("Configuration error: ");
                out.append(m.as_str());
            },
            OmnihookError::NotifyFailed(m) => {
                out.append("Notification failed: ");
                out.append(m.as_str());
            },
            OmnihookError::InternalError(m) => {
                out.append("Internal error: ");
                out.append(m.as_str());
            },
            OmnihookError::SigningError(m) => {
                out.append("Signing error: ");
                out.append(m.as_str());
            },
            OmnihookError::SerializationError(m) => {
                out.append("Serialization error: ");
                out.append(m.as_str());
            },
            OmnihookError::RequestError(e) => {
                out.append("Request error: ");
                let detail = request_error_text(e);
                out.append(detail.as_str());
                assert(out@ == "Request error: "@ + detail@);
            },
        }
        out
    }
}

} // verus!
