use vstd::prelude::*;

verus! {

/// Number of ranging samples kept per device pair.
pub const MEASURE_DEPTH: usize = 5;

/// Number of position estimates kept per device.
pub const POSITION_TRACE_DEPTH: usize = 3;

/// Coordinates and distances are fixed-point values in hundredths of a unit.
pub const COORD_SCALE: i64 = 100;

/// Largest magnitude a stored coordinate can take: the scaled range of an `i32`.
pub const COORD_LIMIT: i64 = 214_748_364_800;

/// The reference estimator wraps a coordinate back to zero past this value.
pub const WRAP_LIMIT: i64 = 70_000;

/// Step the reference estimator adds to the first coordinate.
pub const STEP_X: i64 = 35;

/// Step the reference estimator adds to the second coordinate.
pub const STEP_Y: i64 = 55;

/// A device is a usable ranging neighbor only while its last activity lies
/// within this many time units of the query timestamp.
pub const STALE_LIMIT: u32 = 300;

/// One position estimate: a 3-D coordinate in hundredths of a unit, and the
/// timestamp it was computed for. A value type, copied freely, never mutated
/// in place.
#[derive(Copy, Clone, PartialEq, Eq, Structural, Debug)]
pub struct Trace {
    pub x: i64,
    pub y: i64,
    pub z: i64,
    pub timestamp: u32,
}

impl Trace {
    /// Every stored coordinate stays within the scaled `i32` range.
    pub open spec fn wf(self) -> bool {
        &&& -COORD_LIMIT <= self.x <= COORD_LIMIT
        &&& -COORD_LIMIT <= self.y <= COORD_LIMIT
        &&& -COORD_LIMIT <= self.z <= COORD_LIMIT
    }
}

/// An `i32` coordinate handed to the engine, as the fixed-point value it is
/// stored as.
pub open spec fn scaled(c: i32) -> i64 {
    (c * COORD_SCALE) as i64
}

/// One coordinate after the reference estimator's step: advance by `step`,
/// wrapping to zero past `WRAP_LIMIT`.
pub open spec fn stepped_coord(c: i64, step: i64) -> i64 {
    if c + step > WRAP_LIMIT {
        0
    } else {
        (c + step) as i64
    }
}

/// The Trace the reference estimator produces from the latest estimate `t`
/// for query time `timestamp`.
pub open spec fn stepped_trace(t: Trace, timestamp: u32) -> Trace {
    Trace {
        x: stepped_coord(t.x, STEP_X),
        y: stepped_coord(t.y, STEP_Y),
        z: t.z,
        timestamp: timestamp,
    }
}

/// The extrapolation-only estimate: the latest Trace with its timestamp
/// replaced by the query timestamp.
pub open spec fn extrapolated(t: Trace, timestamp: u32) -> Trace {
    Trace { x: t.x, y: t.y, z: t.z, timestamp: timestamp }
}

/// Whether a device whose last activity was at `last_activity` still counts
/// as a live ranging neighbor at query time `timestamp`.
pub open spec fn is_fresh(last_activity: u32, timestamp: u32) -> bool {
    timestamp <= last_activity || timestamp - last_activity <= STALE_LIMIT
}

/// Runtime freshness test, matching [`is_fresh`] exactly.
pub fn check_fresh(last_activity: u32, timestamp: u32) -> (r: bool)
    ensures
        r == is_fresh(last_activity, timestamp),
{
    timestamp <= last_activity || timestamp - last_activity <= STALE_LIMIT
}

} // verus!
