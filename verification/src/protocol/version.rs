//! Browser version diagnostics.
use vstd::prelude::*;


verus! {

/// Information returned by the DevTools `/json/version` endpoint.
#[derive(Debug)]
pub struct BrowserVersion {
    /// The browser product, for example `Chrome/150.0.7871.186`.
    pub browser: String,
    /// The CDP protocol version, for example `1.3`.
    pub protocol_version: String,
    /// Default user agent.
    pub user_agent: String,
    /// V8 version.
    pub v8_version: String,
    /// WebKit version.
    pub webkit_version: String,
    /// Browser-level WebSocket debugger URL.
    pub web_socket_debugger_url: String,
}

}
