//! Load states and element wait states.
use vstd::prelude::*;

verus! {

/// A page load state, mirroring Chrome's lifecycle events.
#[derive(Debug, Clone, Copy, PartialEq, Eq, Hash, Structural)]
pub enum LoadState {
    /// The `load` event has fired.
    Load,
    /// `DOMContentLoaded` has fired.
    DomContentLoaded,
    /// The network has been idle for 500 ms.
    NetworkIdle,
}

impl LoadState {
    /// The CDP `Page.lifecycleEvent` name for this state.
    pub fn lifecycle_name(self) -> (r: &'static str)
        ensures
            r@ == match self {
                LoadState::Load => "load"@,
                LoadState::DomContentLoaded => "DOMContentLoaded"@,
                LoadState::NetworkIdle => "networkIdle"@,
            },
    {
        match self {
            LoadState::Load => "load",
            LoadState::DomContentLoaded => "DOMContentLoaded",
            LoadState::NetworkIdle => "networkIdle",
        }
    }

    /// A human-readable name.
    pub fn as_str(self) -> (r: &'static str)
        ensures
            r@ == match self {
                LoadState::Load => "load"@,
                LoadState::DomContentLoaded => "domcontentloaded"@,
                LoadState::NetworkIdle => "networkidle"@,
            },
    {
        match self {
            LoadState::Load => "load",
            LoadState::DomContentLoaded => "domcontentloaded",
            LoadState::NetworkIdle => "networkidle",
        }
    }
}

/// The state of an element to wait for.
#[derive(Debug, Clone, Copy, PartialEq, Eq, Hash, Structural)]
pub enum WaitState {
    /// The element exists in the DOM.
    Attached,
    /// The element does not exist in the DOM.
    Detached,
    /// The element exists and is visible.
    Visible,
    /// The element is absent or not visible.
    Hidden,
}

impl WaitState {
    /// The state name understood by the injected page script.
    pub fn as_str(self) -> (r: &'static str)
        ensures
            r@ == match self {
                WaitState::Attached => "attached"@,
                WaitState::Detached => "detached"@,
                WaitState::Visible => "visible"@,
                WaitState::Hidden => "hidden"@,
            },
    {
        match self {
            WaitState::Attached => "attached",
            WaitState::Detached => "detached",
            WaitState::Visible => "visible",
            WaitState::Hidden => "hidden",
        }
    }
}

}
