use vstd::prelude::*;

use crate::measure::MeasureList;
use crate::trace::{
    extrapolated, scaled, stepped_trace, Trace, COORD_LIMIT, COORD_SCALE, POSITION_TRACE_DEPTH,
    STEP_X, STEP_Y, WRAP_LIMIT,
};

verus! {

/// Mathematical content of a [`DeviceData`]: identity, last-activity time and
/// the position history, most-recent-first.
#[verifier::ext_equal]
pub struct DeviceDataView {
    pub id: u32,
    pub timestamp: u32,
    pub trace: Seq<Trace>,
}

/// One registered device: its id, its last-activity timestamp, and a bounded
/// history of position estimates, most-recent-first.
pub struct DeviceData {
    trace: Vec<Trace>,
    id: u32,
    timestamp: u32,
}

/// Host-facing snapshot of one device: its id, one position estimate, and the
/// query timestamp the snapshot was taken for.
#[derive(Copy, Clone, PartialEq, Eq, Structural, Debug)]
pub struct Device {
    pub pos: Trace,
    pub id: u32,
    pub timestamp: u32,
}

/// A position history after `t` is pushed at the front; the oldest entry is
/// evicted when the history is already at capacity.
pub open spec fn pushed_trace(s: Seq<Trace>, t: Trace) -> Seq<Trace> {
    seq![t] + (if s.len() >= POSITION_TRACE_DEPTH {
        s.take(POSITION_TRACE_DEPTH - 1)
    } else {
        s
    })
}

/// The record a freshly registered device starts from: one seed Trace at the
/// given coordinate, everything at time zero.
pub open spec fn fresh_device(id: u32, x: i32, y: i32, z: i32) -> DeviceDataView {
    DeviceDataView {
        id: id,
        timestamp: 0,
        trace: seq![
            Trace { x: scaled(x), y: scaled(y), z: scaled(z), timestamp: 0 }
        ],
    }
}

/// A device record after its activity timestamp is set to `timestamp`.
pub open spec fn touched_device(d: DeviceDataView, timestamp: u32) -> DeviceDataView {
    DeviceDataView { id: d.id, timestamp: timestamp, trace: d.trace }
}

/// A device record after a position recompute at `timestamp`: activity is
/// bumped and the estimator's new Trace is pushed into the history.
pub open spec fn advanced_device(d: DeviceDataView, timestamp: u32) -> DeviceDataView {
    DeviceDataView {
        id: d.id,
        timestamp: timestamp,
        trace: pushed_trace(d.trace, stepped_trace(d.trace[0], timestamp)),
    }
}

/// The snapshot handed to the host for one device at query time `timestamp`.
pub open spec fn snapshot(d: DeviceDataView, timestamp: u32) -> Device {
    Device { pos: extrapolated(d.trace[0], timestamp), id: d.id, timestamp: timestamp }
}

impl DeviceDataView {
    /// The position history is never empty, never beyond capacity, and every
    /// stored Trace is in range.
    pub open spec fn wf(self) -> bool {
        &&& 1 <= self.trace.len() <= POSITION_TRACE_DEPTH
        &&& forall|i: int| 0 <= i < self.trace.len() ==> self.trace[i].wf()
    }
}

impl View for DeviceData {
    type V = DeviceDataView;

    closed spec fn view(&self) -> DeviceDataView {
        DeviceDataView { id: self.id, timestamp: self.timestamp, trace: self.trace@ }
    }
}

impl DeviceData {
    pub open spec fn wf(&self) -> bool {
        self@.wf()
    }

    /// A device at the origin, as the zone's bootstrap device is made.
    pub fn new(id: u32) -> (r: DeviceData)
        ensures
            r@ == fresh_device(id, 0, 0, 0),
            r.wf(),
    {
        DeviceData::new_with_pos(id, 0, 0, 0)
    }

    /// A device seeded with one Trace at the given coordinate, timestamp 0.
    pub fn new_with_pos(id: u32, x: i32, y: i32, z: i32) -> (r: DeviceData)
        ensures
            r@ == fresh_device(id, x, y, z),
            r.wf(),
    {
        let pos = Trace {
            x: (x as i64) * COORD_SCALE,
            y: (y as i64) * COORD_SCALE,
            z: (z as i64) * COORD_SCALE,
            timestamp: 0,
        };
        let mut trace: Vec<Trace> = Vec::new();
        trace.push(pos);
        let dev = DeviceData { id: id, timestamp: 0, trace: trace };
        proof {
            assert(dev@ =~= fresh_device(id, x, y, z));
        }
        dev
    }

    /// The device's id.
    pub fn id(&self) -> (r: u32)
        ensures
            r == self@.id,
    {
        self.id
    }

    /// The device's last-activity timestamp.
    pub fn last_activity(&self) -> (r: u32)
        ensures
            r == self@.timestamp,
    {
        self.timestamp
    }

    /// How many position estimates the history currently holds.
    pub fn trace_len(&self) -> (r: usize)
        ensures
            r == self@.trace.len(),
    {
        self.trace.len()
    }

    /// The position estimate at history index `i` (0 is the most recent).
    pub fn trace_at(&self, i: usize) -> (r: Trace)
        requires
            i < self@.trace.len(),
        ensures
            r == self@.trace[i as int],
    {
        self.trace[i]
    }

    /// Record activity at `timestamp`.
    pub fn touch(&mut self, timestamp: u32)
        ensures
            final(self)@ == touched_device(old(self)@, timestamp),
    {
        self.timestamp = timestamp;
        proof {
            assert(self@ =~= touched_device(old(self)@, timestamp));
        }
    }

    /// One step of the reference estimator: take the latest estimate, advance
    /// the first two coordinates by a fixed drift, wrap past the zone edge,
    /// and stamp the query time. The neighbor arguments are the seam for a
    /// real multilateration fit; the reference implementation extrapolates
    /// from the device's own history alone and never fails.
    pub fn calc_position(
        &self,
        _measures: &Vec<&MeasureList>,
        _devices: &Vec<&DeviceData>,
        timestamp: u32,
    ) -> (r: Trace)
        requires
            self.wf(),
        ensures
            r == stepped_trace(self@.trace[0], timestamp),
            r.wf(),
    {
        let front = self.trace[0];
        let nx = front.x + STEP_X;
        let ny = front.y + STEP_Y;
        Trace {
            x: if nx > WRAP_LIMIT {
                0
            } else {
                nx
            },
            y: if ny > WRAP_LIMIT {
                0
            } else {
                ny
            },
            z: front.z,
            timestamp: timestamp,
        }
    }

    /// Extrapolation-only read: the latest estimate with its timestamp
    /// replaced by the query time. No state is touched.
    pub fn estimate_position(&self, timestamp: u32) -> (r: Trace)
        requires
            self.wf(),
        ensures
            r == extrapolated(self@.trace[0], timestamp),
    {
        let mut pos = self.trace[0];
        pos.timestamp = timestamp;
        pos
    }

    /// Push a new estimate at the front of the history, evicting the oldest
    /// entry if the history is already at capacity.
    pub fn save_position(&mut self, pos: Trace)
        requires
            old(self).wf(),
            pos.wf(),
        ensures
            final(self)@ == (DeviceDataView {
                id: old(self)@.id,
                timestamp: old(self)@.timestamp,
                trace: pushed_trace(old(self)@.trace, pos),
            }),
            final(self).wf(),
    {
        if self.trace.len() >= POSITION_TRACE_DEPTH {
            self.trace.truncate(POSITION_TRACE_DEPTH - 1);
        }
        self.trace.insert(0, pos);
        proof {
            assert(self@.trace =~= pushed_trace(old(self)@.trace, pos));
        }
    }
}

impl Device {
    /// Snapshot one device for the host at query time `timestamp`.
    pub fn new(dev: &DeviceData, timestamp: u32) -> (r: Device)
        requires
            dev.wf(),
        ensures
            r == snapshot(dev@, timestamp),
    {
        Device { id: dev.id(), pos: dev.estimate_position(timestamp), timestamp: timestamp }
    }
}

} // verus!
