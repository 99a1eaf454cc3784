//! `Fetch` domain: request interception and fulfillment.
use vstd::prelude::*;

use crate::protocol::network::Request;

verus! {

/// A URL/resource pattern for request interception.
#[derive(Debug)]
pub struct RequestPattern {
    /// Wildcard URL pattern; `*` matches everything.
    pub url_pattern: Option<String>,
    /// Resource type (`Document`, `XHR`, ...).
    pub resource_type: Option<String>,
    /// Interception stage (`Request` or `Response`).
    pub request_stage: Option<String>,
}

/// Parameters of `Fetch.enable`.
#[derive(Debug)]
pub struct EnableParams {
    /// Patterns to intercept.
    pub patterns: Vec<RequestPattern>,
    /// Whether to intercept auth challenges too.
    pub handle_auth_requests: bool,
}

/// An HTTP header name/value pair.
#[derive(Debug)]
pub struct HeaderEntry {
    /// Header name.
    pub name: String,
    /// Header value.
    pub value: String,
}

/// Parameters of the `Fetch.requestPaused` event.
#[derive(Debug)]
pub struct RequestPausedParams {
    /// CDP request id.
    pub request_id: String,
    /// The paused request.
    pub request: Request,
    /// The frame the request belongs to.
    pub frame_id: String,
    /// Resource type.
    pub resource_type: String,
    /// Present when a response stage was paused and failed.
    pub response_error_reason: Option<String>,
    /// Present when a response stage was paused.
    pub response_status_code: Option<i64>,
    /// Present when a response stage was paused.
    pub response_headers: Vec<HeaderEntry>,
}

/// Parameters of `Fetch.continueRequest`.
#[derive(Debug)]
pub struct ContinueRequestParams {
    /// CDP request id.
    pub request_id: String,
    /// Replacement request headers (the complete set).
    pub headers: Option<Vec<HeaderEntry>>,
}

/// Parameters of `Fetch.continueResponse`.
#[derive(Debug)]
pub struct ContinueResponseParams {
    /// CDP request id.
    pub request_id: String,
    /// Replacement status code.
    pub response_code: Option<i64>,
    /// Replacement reason phrase.
    pub response_phrase: Option<String>,
    /// Replacement response headers (the complete set).
    pub response_headers: Option<Vec<HeaderEntry>>,
}

/// Parameters of `Fetch.fulfillRequest`.
#[derive(Debug)]
pub struct FulfillRequestParams {
    /// CDP request id.
    pub request_id: String,
    /// HTTP status code.
    pub response_code: i64,
    /// Response headers.
    pub response_headers: Vec<HeaderEntry>,
    /// Base64-encoded response body.
    pub body: Option<String>,
}

/// Parameters of `Fetch.failRequest`.
#[derive(Debug)]
pub struct FailRequestParams {
    /// CDP request id.
    pub request_id: String,
    /// Failure reason, e.g. `Aborted`.
    pub error_reason: String,
}

}
