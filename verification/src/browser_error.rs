//! Errors produced while discovering, launching or driving a browser process.
use vstd::prelude::*;

use std::time::Duration;

use crate::cdp_error::CdpError;

verus! {

#[verifier::external_type_specification]
#[verifier::external_body]
pub struct ExIoError(std::io::Error);

/// Errors produced while discovering, launching or driving a browser process.
#[derive(Debug)]
pub enum BrowserError {
    /// No installed browser could be found.
    NotFound {
        /// The locations that were searched.
        search_paths: Vec<String>,
    },
    /// An explicitly configured executable does not exist.
    ExecutableNotFound(String),
    /// The browser process could not be spawned.
    Launch {
        /// The executable that failed to launch.
        executable: String,
        /// The underlying I/O error.
        source: std::io::Error,
    },
    /// The DevTools endpoint did not become ready in time.
    StartupTimeout {
        /// The configured startup timeout.
        timeout: Duration,
        /// Path to the captured browser log.
        log_path: String,
    },
    /// The browser exited before the DevTools endpoint became ready.
    EarlyExit {
        /// A description of the exit status.
        status: String,
        /// Path to the captured browser log.
        log_path: String,
    },
    /// The profile directory could not be prepared.
    ProfileDir {
        /// The profile directory.
        path: String,
        /// The underlying I/O error.
        source: std::io::Error,
    },
    /// The `DevToolsActivePort` file was malformed.
    InvalidActivePort {
        /// The file path.
        path: String,
        /// The raw contents.
        contents: String,
    },
    /// An I/O error occurred.
    Io(std::io::Error),
    /// A CDP-level error occurred.
    Cdp(CdpError),
}

}
