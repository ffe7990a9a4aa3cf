//! Windowed deltas over a stream of timestamped samples.
//!
//! A run covers a bounded stretch of time that is cut into windows of a fixed
//! size, walked backward from the greatest time. Each window yields the first
//! and the last value that arrived in it, or nothing where fewer than two
//! samples arrived. The delta of a window is its first value minus its last;
//! the subtraction is left to the caller, who owns the value type.

pub mod model;
pub mod error;
pub mod transition;
pub mod laws;
pub mod aggregate;

pub use crate::aggregate::{gapfill_delta_final, gapfill_delta_transition};
pub use crate::error::GapfillError;
pub use crate::model::{Endpoints, Sample};
pub use crate::transition::{expected_deltas, GapfillDeltaTransition};
