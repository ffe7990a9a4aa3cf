//! Why a run is refused.

use vstd::prelude::*;

verus! {

/// The conditions that end a run. None of them can be recovered from.
#[derive(Debug, Clone, Copy, PartialEq, Eq, Structural)]
pub enum GapfillError {
    /// A sample's time is at or before the lowest time of the run, or after
    /// its greatest time.
    TimestampOutOfRange,
    /// The step or the window is not positive, or the greatest time is not
    /// after the lowest.
    Configuration,
}

} // verus!
