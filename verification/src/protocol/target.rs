//! `Browser` and `Target` domains.
use vstd::prelude::*;


verus! {

/// Response of `Browser.getVersion`.
#[derive(Debug)]
pub struct GetVersionResult {
    /// Protocol version, for example `1.3`.
    pub protocol_version: String,
    /// Product string, for example `Chrome/150.0.0.0`.
    pub product: String,
    /// Source revision.
    pub revision: String,
    /// Default user agent.
    pub user_agent: String,
    /// V8 version.
    pub js_version: String,
}

/// Parameters of `Target.createTarget`.
#[derive(Debug)]
pub struct CreateTargetParams {
    /// Initial URL for the new tab.
    pub url: String,
    /// Browser context to create the target in.
    pub browser_context_id: Option<String>,
    /// Open in a new window instead of a tab.
    pub new_window: Option<bool>,
    /// Create the target in the background.
    pub background: Option<bool>,
}

/// Response of `Target.createTarget`.
#[derive(Debug)]
pub struct CreateTargetResult {
    /// The created target id.
    pub target_id: String,
}

/// Parameters of `Target.attachToTarget`.
#[derive(Debug)]
pub struct AttachToTargetParams {
    /// The target to attach to.
    pub target_id: String,
    /// Use flat session multiplexing.
    pub flatten: Option<bool>,
}

/// Response of `Target.attachToTarget`.
#[derive(Debug)]
pub struct AttachToTargetResult {
    /// The new session id.
    pub session_id: String,
}

/// Parameters of `Target.closeTarget`.
#[derive(Debug)]
pub struct CloseTargetParams {
    /// The target to close.
    pub target_id: String,
}

/// Response of `Target.closeTarget`.
#[derive(Debug)]
pub struct CloseTargetResult {
    /// Whether the target was closed.
    pub success: bool,
}

/// Response of `Target.getTargets`.
#[derive(Debug)]
pub struct GetTargetsResult {
    /// All known targets.
    pub target_infos: Vec<TargetInfo>,
}

/// A CDP target (tab, page, worker, ...).
#[derive(Debug)]
pub struct TargetInfo {
    /// Target id.
    pub target_id: String,
    /// Target type, for example `page`.
    pub target_type: String,
    /// Current title.
    pub title: String,
    /// Current URL.
    pub url: String,
    /// Whether a debugger session is attached.
    pub attached: bool,
    /// The browser context the target belongs to.
    pub browser_context_id: Option<String>,
    /// The target that opened this one, if any.
    pub opener_id: Option<String>,
}

/// Response of `Target.createBrowserContext`.
#[derive(Debug)]
pub struct CreateBrowserContextResult {
    /// The new browser context id.
    pub browser_context_id: String,
}

/// Parameters of `Target.disposeBrowserContext`.
#[derive(Debug)]
pub struct DisposeBrowserContextParams {
    /// The context to dispose.
    pub browser_context_id: String,
}

/// Parameters of `Target.setDiscoverTargets`.
#[derive(Debug)]
pub struct SetDiscoverTargetsParams {
    /// Whether discovery is enabled.
    pub discover: bool,
}

/// Parameters of the `Target.attachedToTarget` event.
#[derive(Debug)]
pub struct AttachedToTargetParams {
    /// The session id.
    pub session_id: String,
    /// Information about the attached target.
    pub target_info: TargetInfo,
    /// Whether the target is waiting for debugging.
    pub waiting_for_debugger: bool,
}

/// Parameters of the `Target.detachedFromTarget` event.
#[derive(Debug)]
pub struct DetachedFromTargetParams {
    /// The detached session id.
    pub session_id: String,
    /// The target id that was detached.
    pub target_id: Option<String>,
}

/// Parameters of the `Target.targetCreated` event.
#[derive(Debug)]
pub struct TargetCreatedParams {
    /// Information about the created target.
    pub target_info: TargetInfo,
}

}
