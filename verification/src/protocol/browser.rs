//! `Browser` domain download configuration.
use vstd::prelude::*;


verus! {

/// Parameters of `Browser.setDownloadBehavior`.
#[derive(Debug)]
pub struct SetDownloadBehaviorParams {
    /// Behavior: `deny`, `allow`, or `allowAndName`.
    pub behavior: String,
    /// Restrict to a browser context.
    pub browser_context_id: Option<String>,
    /// Directory to write downloads to.
    pub download_path: Option<String>,
    /// Whether to emit download progress events.
    pub events_enabled: Option<bool>,
}

}
