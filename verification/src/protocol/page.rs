//! `Page` domain.
use vstd::prelude::*;


verus! {

/// Parameters of `Page.navigate`.
#[derive(Debug)]
pub struct NavigateParams {
    /// Destination URL.
    pub url: String,
    /// Referrer URL.
    pub referrer: Option<String>,
    /// Frame id; defaults to the main frame.
    pub frame_id: Option<String>,
}

/// Response of `Page.navigate`.
#[derive(Debug)]
pub struct NavigateResult {
    /// The frame that will be navigated.
    pub frame_id: String,
    /// The loader id of the committed navigation.
    pub loader_id: Option<String>,
    /// Non-fatal error text, for example when the load was aborted.
    pub error_text: Option<String>,
}

/// Parameters of `Page.reload`.
#[derive(Debug)]
pub struct ReloadParams {
    /// Bypass the cache.
    pub ignore_cache: Option<bool>,
}

/// Parameters of `Page.captureScreenshot`.
#[derive(Debug)]
pub struct CaptureScreenshotParams {
    /// Image format (`png`, `jpeg`, `webp`).
    pub format: Option<String>,
    /// Compression quality for lossy formats (0-100).
    pub quality: Option<i64>,
    /// Capture beyond the viewport.
    pub capture_beyond_viewport: Option<bool>,
    /// Render from the surface rather than the view.
    pub from_surface: Option<bool>,
}

/// Response of `Page.captureScreenshot`.
#[derive(Debug)]
pub struct CaptureScreenshotResult {
    /// Base64-encoded image data.
    pub data: String,
}

/// Parameters of `Page.setLifecycleEventsEnabled`.
#[derive(Debug)]
pub struct SetLifecycleEventsEnabledParams {
    /// Whether lifecycle events are emitted.
    pub enabled: bool,
}

/// Parameters of `Page.addScriptToEvaluateOnNewDocument`.
#[derive(Debug)]
pub struct AddScriptParams {
    /// The script source.
    pub source: String,
}

/// Response of `Page.addScriptToEvaluateOnNewDocument`.
#[derive(Debug)]
pub struct AddScriptResult {
    /// Identifier that can be used to remove the script.
    pub identifier: String,
}

/// A frame as reported by `Page.frameNavigated`.
#[derive(Debug)]
pub struct Frame {
    /// Frame id.
    pub id: String,
    /// Parent frame id for subframes.
    pub parent_id: Option<String>,
    /// The loader id for the current document.
    pub loader_id: Option<String>,
    /// Current URL.
    pub url: String,
    /// Frame name.
    pub name: String,
    /// Security origin.
    pub security_origin: String,
    /// Frame mime type.
    pub mime_type: String,
}

/// A frame tree as returned by `Page.getFrameTree`.
#[derive(Debug)]
pub struct FrameTree {
    /// The frame.
    pub frame: Frame,
    /// Child frames.
    pub child_frames: Vec<FrameTree>,
}

/// Response of `Page.getFrameTree`.
#[derive(Debug)]
pub struct GetFrameTreeResult {
    /// The frame tree rooted at the main frame.
    pub frame_tree: FrameTree,
}

/// Parameters of the `Page.frameAttached` event.
#[derive(Debug)]
pub struct FrameAttachedParams {
    /// The attached frame id.
    pub frame_id: String,
    /// The parent frame id.
    pub parent_frame_id: String,
}

/// Parameters of the `Page.frameDetached` event.
#[derive(Debug)]
pub struct FrameDetachedParams {
    /// The detached frame id.
    pub frame_id: String,
    /// Detach reason.
    pub reason: String,
}

/// Parameters of the `Page.frameNavigated` event.
#[derive(Debug)]
pub struct FrameNavigatedParams {
    /// The navigated frame.
    pub frame: Frame,
    /// Frame type (`outermostFrame`, `subframe`, ...).
    pub frame_type: String,
}

/// Parameters of `Page.handleJavaScriptDialog`.
#[derive(Debug)]
pub struct HandleJavaScriptDialogParams {
    /// Whether to accept the dialog.
    pub accept: bool,
    /// Prompt text when accepting a `prompt` dialog.
    pub prompt_text: Option<String>,
}

/// Parameters of the `Page.javascriptDialogOpening` event.
#[derive(Debug)]
pub struct JavascriptDialogOpeningParams {
    /// The page URL that opened the dialog.
    pub url: String,
    /// The dialog message.
    pub message: String,
    /// The dialog type (`alert`, `confirm`, `prompt`, `beforeunload`).
    pub dialog_type: String,
    /// Whether the browser has a default handler.
    pub has_browser_handler: bool,
    /// Default prompt text.
    pub default_prompt: Option<String>,
}

/// A navigation history entry.
#[derive(Debug)]
pub struct NavigationEntry {
    /// Unique entry id.
    pub id: i64,
    /// The URL.
    pub url: String,
    /// The title.
    pub title: String,
}

/// Response of `Page.getNavigationHistory`.
#[derive(Debug)]
pub struct GetNavigationHistoryResult {
    /// Index of the current entry.
    pub current_index: i64,
    /// All entries.
    pub entries: Vec<NavigationEntry>,
}

/// Parameters of `Page.navigateToHistoryEntry`.
#[derive(Debug)]
pub struct NavigateToHistoryEntryParams {
    /// The entry id to navigate to.
    pub entry_id: i64,
}

}
