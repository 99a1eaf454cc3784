use vstd::prelude::*;

pub mod text;
pub mod route;
pub mod timing;
pub mod chrome;
pub mod cdp_error;
pub mod browser_error;
pub mod discovery;
pub mod firefox;
pub mod http;
pub mod launch;
pub mod json;
pub mod selectors;
pub mod wait;
pub mod page;
pub mod bidi;
pub mod protocol;
pub mod diagnostics;
pub mod error;
pub mod context;
pub mod messages;
pub mod interception;
pub mod frames;
pub mod requests;
pub mod network_log;
pub mod expectations;
pub mod encoding;
pub mod har;
pub mod trace;

verus! {
}
