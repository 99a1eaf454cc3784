//! `Network` domain.
use vstd::prelude::*;

use crate::json::Json;

verus! {

/// An HTTP request as reported by the `Network` domain.
#[derive(Debug)]
pub struct Request {
    /// Request URL.
    pub url: String,
    /// HTTP method.
    pub method: String,
    /// Request headers.
    pub headers: Vec<(String, Json)>,
}

/// An HTTP response as reported by the `Network` domain.
#[derive(Debug)]
pub struct Response {
    /// Response URL.
    pub url: String,
    /// HTTP status code.
    pub status: i64,
    /// HTTP status text.
    pub status_text: String,
    /// Response mime type.
    pub mime_type: String,
    /// Response headers.
    pub headers: Vec<(String, Json)>,
}

/// Parameters of `Network.setCookie`.
#[derive(Debug)]
pub struct SetCookieParams {
    /// Cookie name.
    pub name: String,
    /// Cookie value.
    pub value: String,
    /// Cookie URL; supply this or `domain`/`path`.
    pub url: Option<String>,
    /// Cookie domain.
    pub domain: Option<String>,
    /// Cookie path.
    pub path: Option<String>,
    /// Whether the cookie is HTTP-only.
    pub http_only: Option<bool>,
    /// Whether the cookie is secure.
    pub secure: Option<bool>,
    /// SameSite policy.
    pub same_site: Option<String>,
}

/// Response of `Network.setCookie`.
#[derive(Debug)]
pub struct SetCookieResult {
    /// Whether the cookie was set.
    pub success: bool,
}


/// Parameters of the `Network.requestWillBeSent` event. Times are kept as
/// the bit patterns of the `f64` seconds the browser reported.
#[derive(Debug)]
pub struct RequestWillBeSentParams {
    /// Request id.
    pub request_id: String,
    /// The request.
    pub request: Request,
    /// Monotonic timestamp in seconds, as `f64` bits.
    pub timestamp: u64,
    /// Wall-clock time in seconds since the epoch, as `f64` bits.
    pub wall_time: u64,
    /// The document this request belongs to.
    pub document_url: Option<String>,
    /// The loader of the frame.
    pub loader_id: Option<String>,
    /// Redirect target when this is a redirect.
    pub redirect_response: Option<Response>,
}

/// Parameters of the `Network.responseReceived` event.
#[derive(Debug)]
pub struct ResponseReceivedParams {
    /// Request id.
    pub request_id: String,
    /// The loader of the frame.
    pub loader_id: Option<String>,
    /// Monotonic timestamp in seconds, as `f64` bits.
    pub timestamp: u64,
    /// The response.
    pub response: Response,
    /// The resource type (`Document`, `Script`, ...).
    pub resource_type: String,
}

/// Parameters of the `Network.loadingFinished` event.
#[derive(Debug)]
pub struct LoadingFinishedParams {
    /// Request id.
    pub request_id: String,
    /// Monotonic timestamp in seconds, as `f64` bits.
    pub timestamp: u64,
}

/// Parameters of the `Network.loadingFailed` event.
#[derive(Debug)]
pub struct LoadingFailedParams {
    /// Request id.
    pub request_id: String,
    /// Monotonic timestamp in seconds, as `f64` bits.
    pub timestamp: u64,
    /// Failure description.
    pub error_text: String,
    /// Whether the failure was canceled.
    pub canceled: bool,
}

}
