//! `Tracing` domain: Chrome trace collection.
use vstd::prelude::*;

use crate::json::Json;

verus! {

/// Trace configuration passed to `Tracing.start`.
#[derive(Debug)]
pub struct TraceConfig {
    /// Categories to include.
    pub included_categories: Option<Vec<String>>,
    /// Categories to exclude.
    pub excluded_categories: Option<Vec<String>>,
    /// Record mode (`recordUntilFull`, `recordContinuously`, ...).
    pub record_mode: Option<String>,
}

/// Parameters of the `Tracing.dataCollected` event.
#[derive(Debug)]
pub struct DataCollectedParams {
    /// A batch of trace events.
    pub value: Vec<Json>,
}

/// Parameters of the `Tracing.tracingComplete` event.
#[derive(Debug)]
pub struct TracingCompleteParams {
    /// Whether some data was lost.
    pub data_loss_occurred: bool,
}

}
