//! Clock snapshots handed to the engine by its caller.

use vstd::prelude::*;

verus! {

/// One reading of the caller's clocks, taken just before a call and not
/// retained beyond it.  `absolute_nanos` is a wall-clock reading and
/// `relative_nanos` a monotonic reading, both as nanosecond counts from the
/// respective clock's origin.  The engine compares only differences of
/// `relative_nanos`, so the origin does not matter; it does require the
/// monotonic readings handed to one limiter never to decrease.
#[derive(Clone, Copy, Debug, PartialEq, Eq, Structural)]
pub struct TimePoint {
    pub absolute_nanos: u64,
    pub relative_nanos: u64,
}

impl TimePoint {
    /// A snapshot from clock readings already taken by the caller.
    pub fn new(absolute_nanos: u64, relative_nanos: u64) -> (t: TimePoint)
        ensures
            t.absolute_nanos == absolute_nanos,
            t.relative_nanos == relative_nanos,
    {
        TimePoint { absolute_nanos, relative_nanos }
    }
}

} // verus!
