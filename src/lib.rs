//! A status-bar daemon's core: trigger scheduling decisions for status units,
//! the single-writer aggregator of their fragments, and the probes' text.

pub mod config;
pub mod status;
pub mod aggregator;
pub mod block;
pub mod trigger;
pub mod text;
pub mod probes;
