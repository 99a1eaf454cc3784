//! Errors of the page, context and browser object model.
use vstd::prelude::*;

use std::time::Duration;

use crate::browser_error::BrowserError;
use crate::cdp_error::CdpError;

verus! {

/// Errors produced by the object model.
#[derive(Debug)]
pub enum AutomationError {
    /// The browser could not be discovered, launched or driven.
    Browser(BrowserError),
    /// A CDP transport or protocol error.
    Cdp(CdpError),
    /// An element matching the locator could not be found.
    ElementNotFound {
        /// A human-readable description of the selector.
        selector: String,
    },
    /// An operation exceeded its deadline.
    Timeout {
        /// What was being awaited.
        what: String,
        /// The configured deadline.
        timeout: Duration,
    },
    /// JavaScript evaluation threw an exception.
    JavaScript(String),
    /// Navigation failed.
    Navigation(String),
    /// The page has been closed.
    PageClosed,
    /// The browser context has been closed.
    ContextClosed,
    /// The browser connection has closed.
    BrowserClosed,
    /// A JSON value could not be (de)serialized.
    Json(serde_json::Error),
    /// An I/O error occurred.
    Io(std::io::Error),
}

impl AutomationError {
    /// Whether this error came from a closed browser or page: a closed page,
    /// context or browser, or a closed CDP connection.
    pub fn is_closed(&self) -> (r: bool)
        ensures
            r == (self is PageClosed || self is ContextClosed || self is BrowserClosed || (self matches AutomationError::Cdp(
                e,
            ) && e is Closed)),
    {
        match self {
            AutomationError::PageClosed | AutomationError::ContextClosed | AutomationError::BrowserClosed => true,
            AutomationError::Cdp(CdpError::Closed) => true,
            _ => false,
        }
    }

    /// Whether this error represents an exceeded deadline.
    pub fn is_timeout(&self) -> (r: bool)
        ensures
            r == self is Timeout,
    {
        match self {
            AutomationError::Timeout { .. } => true,
            _ => false,
        }
    }
}

}
