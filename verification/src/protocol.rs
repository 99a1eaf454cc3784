//! Typed bindings for the subset of CDP used by the library: the parameters,
//! results and events of the domains it speaks, as plain data.
pub mod browser;
pub mod dom;
pub mod fetch;
pub mod network;
pub mod page;
pub mod runtime;
pub mod target;
pub mod tracing;
pub mod version;
