//! Durations used by the launchers.
use vstd::prelude::*;

use std::time::Duration;

verus! {

/// The `Duration` that `Duration::from_secs(secs)` builds.
pub uninterp spec fn spec_duration_from_secs(secs: u64) -> Duration;

/// `Duration::from_secs`: the same number of seconds always gives the same
/// `Duration`.
#[verifier::external_body]
pub(crate) fn duration_from_secs(secs: u64) -> (d: Duration)
    ensures
        d == spec_duration_from_secs(secs),
{
    Duration::from_secs(secs)
}

/// Default number of seconds to wait for a launched browser to expose its
/// DevTools or BiDi endpoint.
pub const DEFAULT_STARTUP_TIMEOUT_SECS: u64 = 30;

/// Default time to wait for a launched browser to expose its DevTools endpoint.
pub fn default_startup_timeout() -> (d: Duration)
    ensures
        d == spec_duration_from_secs(DEFAULT_STARTUP_TIMEOUT_SECS),
{
    duration_from_secs(DEFAULT_STARTUP_TIMEOUT_SECS)
}

}
