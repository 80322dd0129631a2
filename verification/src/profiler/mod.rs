//! Profiling: timing statistics per named operation and value statistics per
//! named counter.
pub mod metrics;
pub mod timer;
pub mod registry;
pub mod summary;
pub mod allocation;
pub mod laws;
