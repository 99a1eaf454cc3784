//! Errors produced by the CDP transport and protocol layer.
use vstd::prelude::*;

use std::time::Duration;

verus! {

#[verifier::external_type_specification]
#[verifier::external_body]
pub struct ExWebSocketError(tokio_tungstenite::tungstenite::Error);

#[verifier::external_type_specification]
#[verifier::external_body]
pub struct ExJsonError(serde_json::Error);

/// Errors produced by the CDP transport and protocol layer.
#[derive(Debug)]
pub enum CdpError {
    /// The WebSocket transport failed.
    WebSocket(tokio_tungstenite::tungstenite::Error),
    /// The browser returned a protocol-level error for a command.
    Protocol {
        /// The command that failed, for example `Page.navigate`.
        method: String,
        /// Numeric CDP error code.
        code: i64,
        /// Human-readable CDP error message.
        message: String,
        /// Optional structured error data returned by the browser.
        data: Option<String>,
    },
    /// The connection was closed before a response arrived.
    Closed,
    /// A message could not be (de)serialized as JSON.
    Json(serde_json::Error),
    /// The DevTools HTTP endpoint returned an unexpected response.
    Http(String),
    /// An I/O error occurred while talking to the DevTools HTTP endpoint.
    Io(std::io::Error),
    /// A command did not receive a response before its deadline.
    Timeout {
        /// The command that timed out.
        method: String,
        /// The configured timeout.
        timeout: Duration,
    },
}

/// A protocol error reported without the command's name gets the name of the
/// command that was sent; every other error is returned unchanged.
pub fn enrich_method(error: CdpError, method: &str) -> (r: CdpError)
    ensures
        match error {
            CdpError::Protocol { method: existing, code, message, data } => if existing@.len() == 0 {
                r matches CdpError::Protocol { method: m, code: c, message: msg, data: d }
                    && m@ == method@ && c == code && msg == message && d == data
            } else {
                r == error
            },
            _ => r == error,
        },
{
    match error {
        CdpError::Protocol { method: existing, code, message, data } => {
            if existing.as_str().is_empty() {
                CdpError::Protocol { method: method.to_owned(), code, message, data }
            } else {
                CdpError::Protocol { method: existing, code, message, data }
            }
        },
        other => other,
    }
}

}
