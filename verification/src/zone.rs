use vstd::prelude::*;

use crate::device::{
    advanced_device, fresh_device, snapshot, touched_device, Device, DeviceData, DeviceDataView,
};
use crate::measure::{
    bootstrap_history, canonical_hi, canonical_lo, Measure, MeasureList, MeasureListView,
};
use crate::trace::{check_fresh, is_fresh, stepped_trace, Trace};

verus! {

/// Why a zone operation was refused. Every failure is detected synchronously
/// and leaves the zone unchanged.
#[derive(Copy, Clone, PartialEq, Eq, Structural, Debug)]
pub enum ZoneError {
    /// `add_device` named an id that is already registered.
    DuplicateDevice,
    /// `add_measure` named the same device twice.
    SelfMeasurement,
    /// `add_measure` carried a negative distance.
    InvalidMeasurement,
    /// `add_measure` named a device that was never registered.
    UnknownDevice,
}

/// What `add_measure` did to the pair's ranging history.
#[derive(Copy, Clone, PartialEq, Eq, Structural, Debug)]
pub enum UpdateKind {
    /// First sample for the pair: a bootstrap-filled history was created.
    Created,
    /// The pair already had a history; the sample was shifted in.
    Updated,
}

/// Mathematical content of a [`Zone`]: its identifier, the measurement graph
/// and the device registry, both in creation order.
#[verifier::ext_equal]
pub struct ZoneView {
    pub id: i32,
    pub measures: Seq<MeasureListView>,
    pub devices: Seq<DeviceDataView>,
}

/// The isolation unit: one set of devices and their mutual measurement
/// graph. Nothing is shared between zones.
pub struct Zone {
    id: i32,
    measures: Vec<MeasureList>,
    devices: Vec<DeviceData>,
}

impl View for Zone {
    type V = ZoneView;

    closed spec fn view(&self) -> ZoneView {
        ZoneView {
            id: self.id,
            measures: Seq::new(self.measures@.len() as nat, |i: int| self.measures@[i]@),
            devices: Seq::new(self.devices@.len() as nat, |i: int| self.devices@[i]@),
        }
    }
}

/// Some registered device carries this id.
pub open spec fn has_device(ds: Seq<DeviceDataView>, id: u32) -> bool {
    exists|i: int| 0 <= i < ds.len() && (#[trigger] ds[i]).id == id
}

/// This history is for exactly the canonical pair `(lo, hi)`.
pub open spec fn list_is_pair(ml: MeasureListView, lo: u32, hi: u32) -> bool {
    ml.lo == lo && ml.hi == hi
}

/// Some history exists for the canonical pair `(lo, hi)`.
pub open spec fn has_pair(ms: Seq<MeasureListView>, lo: u32, hi: u32) -> bool {
    exists|i: int| 0 <= i < ms.len() && list_is_pair(#[trigger] ms[i], lo, hi)
}

/// The device `id` is one endpoint of this history's pair.
pub open spec fn list_contains(ml: MeasureListView, id: u32) -> bool {
    ml.lo == id || ml.hi == id
}

/// The id appears as a neighbor in a list produced by `neighbors_of`.
pub open spec fn id_in_pairs(ps: Seq<(u32, usize)>, id: u32) -> bool {
    exists|k: int| 0 <= k < ps.len() && (#[trigger] ps[k]).0 == id
}

/// The other endpoint of a history that contains `id`.
pub open spec fn other_of(ml: MeasureListView, id: u32) -> u32 {
    if ml.lo == id {
        ml.hi
    } else {
        ml.lo
    }
}

impl ZoneView {
    /// Zone invariant: device ids are unique, canonical pairs are unique, and
    /// every record and history is well formed.
    pub open spec fn wf(self) -> bool {
        &&& forall|i: int, j: int|
            0 <= i < j < self.devices.len() ==> (#[trigger] self.devices[i]).id != (
            #[trigger] self.devices[j]).id
        &&& forall|i: int| 0 <= i < self.devices.len() ==> (#[trigger] self.devices[i]).wf()
        &&& forall|i: int| 0 <= i < self.measures.len() ==> (#[trigger] self.measures[i]).wf()
        &&& forall|i: int, j: int|
            0 <= i < j < self.measures.len() ==> !((#[trigger] self.measures[i]).lo
                == (#[trigger] self.measures[j]).lo && self.measures[i].hi
                == self.measures[j].hi)
    }
}

/// Result of registering `id`: refused exactly when the id is taken.
pub open spec fn register_outcome(z: ZoneView, id: u32) -> Result<(), ZoneError> {
    if has_device(z.devices, id) {
        Result::Err(ZoneError::DuplicateDevice)
    } else {
        Result::Ok(())
    }
}

/// The zone after registering `id` at `(x, y, zc)`: unchanged on a duplicate,
/// otherwise the fresh record is appended in registration order.
pub open spec fn register_transition(z: ZoneView, id: u32, x: i32, y: i32, zc: i32) -> ZoneView {
    if has_device(z.devices, id) {
        z
    } else {
        ZoneView { id: z.id, measures: z.measures, devices: z.devices.push(fresh_device(id, x, y, zc)) }
    }
}

/// Result of ingesting a ranging sample: the validation order is
/// self-measurement, then negative distance, then unknown endpoints; a valid
/// sample reports whether the pair's history was created or updated.
pub open spec fn measure_outcome(
    z: ZoneView,
    id1: u32,
    id2: u32,
    distance: i64,
    timestamp: u32,
) -> Result<UpdateKind, ZoneError> {
    if id1 == id2 {
        Result::Err(ZoneError::SelfMeasurement)
    } else if distance < 0 {
        Result::Err(ZoneError::InvalidMeasurement)
    } else if !has_device(z.devices, id1) || !has_device(z.devices, id2) {
        Result::Err(ZoneError::UnknownDevice)
    } else if has_pair(z.measures, canonical_lo(id1, id2), canonical_hi(id1, id2)) {
        Result::Ok(UpdateKind::Updated)
    } else {
        Result::Ok(UpdateKind::Created)
    }
}

/// The registry after both endpoints' activity is bumped to `timestamp`.
pub open spec fn touched_endpoints(
    ds: Seq<DeviceDataView>,
    id1: u32,
    id2: u32,
    timestamp: u32,
) -> Seq<DeviceDataView> {
    Seq::new(
        ds.len(),
        |i: int|
            if ds[i].id == id1 || ds[i].id == id2 {
                touched_device(ds[i], timestamp)
            } else {
                ds[i]
            },
    )
}

/// The registry after both endpoints' activity is bumped and their positions
/// are recomputed and pushed.
pub open spec fn advanced_endpoints(
    ds: Seq<DeviceDataView>,
    id1: u32,
    id2: u32,
    timestamp: u32,
) -> Seq<DeviceDataView> {
    Seq::new(
        ds.len(),
        |i: int|
            if ds[i].id == id1 || ds[i].id == id2 {
                advanced_device(ds[i], timestamp)
            } else {
                ds[i]
            },
    )
}

/// The measurement graph after the sample is shifted into the history of the
/// canonical pair `(lo, hi)`; every other history is untouched.
pub open spec fn updated_pair(
    ms: Seq<MeasureListView>,
    lo: u32,
    hi: u32,
    distance: i64,
    timestamp: u32,
) -> Seq<MeasureListView> {
    Seq::new(
        ms.len(),
        |i: int|
            if list_is_pair(ms[i], lo, hi) {
                ms[i].updated(Measure { pair: (lo, hi), timestamp: timestamp, distance: distance })
            } else {
                ms[i]
            },
    )
}

/// The zone after a ranging sample is ingested. A rejected sample changes
/// nothing. The first sample of a pair appends its bootstrap history and
/// bumps both endpoints' activity; a repeated pair shifts the sample in and
/// additionally recomputes and pushes both endpoints' positions.
pub open spec fn measure_transition(
    z: ZoneView,
    id1: u32,
    id2: u32,
    distance: i64,
    timestamp: u32,
) -> ZoneView {
    match measure_outcome(z, id1, id2, distance, timestamp) {
        Result::Err(_) => z,
        Result::Ok(UpdateKind::Created) => ZoneView {
            id: z.id,
            measures: z.measures.push(
                bootstrap_history(
                    Measure { pair: (id1, id2), timestamp: timestamp, distance: distance },
                ),
            ),
            devices: touched_endpoints(z.devices, id1, id2, timestamp),
        },
        Result::Ok(UpdateKind::Updated) => ZoneView {
            id: z.id,
            measures: updated_pair(
                z.measures,
                canonical_lo(id1, id2),
                canonical_hi(id1, id2),
                distance,
                timestamp,
            ),
            devices: advanced_endpoints(z.devices, id1, id2, timestamp),
        },
    }
}

/// Snapshots of every registered device, in registration order, at query
/// time `timestamp`.
pub open spec fn all_positions(z: ZoneView, timestamp: u32) -> Seq<Device> {
    Seq::new(z.devices.len(), |i: int| snapshot(z.devices[i], timestamp))
}

/// The most recent sample recorded for the unordered pair `(id_a, id_b)`,
/// or nothing if the pair was never observed.
pub open spec fn latest_sample(z: ZoneView, id_a: u32, id_b: u32) -> Option<Measure> {
    let lo = canonical_lo(id_a, id_b);
    let hi = canonical_hi(id_a, id_b);
    if has_pair(z.measures, lo, hi) {
        let k = choose|k: int| 0 <= k < z.measures.len() && list_is_pair(z.measures[k], lo, hi);
        Option::Some(
            Measure {
                pair: (lo, hi),
                timestamp: z.measures[k].ts[0],
                distance: z.measures[k].val[0],
            },
        )
    } else {
        Option::None
    }
}

/// The device snapshot `get_device` returns: the latest stored estimate and
/// the record's own last-activity time, or nothing for an unknown id.
pub open spec fn found_device(z: ZoneView, id: u32) -> Option<Device> {
    if has_device(z.devices, id) {
        let k = choose|k: int| 0 <= k < z.devices.len() && z.devices[k].id == id;
        Option::Some(Device { pos: z.devices[k].trace[0], id: id, timestamp: z.devices[k].timestamp })
    } else {
        Option::None
    }
}

/// Create a zone holding one bootstrap device, id 0, at the origin.
pub fn init() -> (z: Zone)
    ensures
        z.wf(),
        z@.id == 0,
        z@.measures == Seq::<MeasureListView>::empty(),
        z@.devices == seq![fresh_device(0, 0, 0, 0)],
{
    let mut devices: Vec<DeviceData> = Vec::new();
    devices.push(DeviceData::new(0));
    let zone = Zone { id: 0, measures: Vec::new(), devices: devices };
    proof {
        assert(zone@.measures =~= Seq::<MeasureListView>::empty());
        assert(zone@.devices =~= seq![fresh_device(0, 0, 0, 0)]);
    }
    zone
}

impl Zone {
    pub open spec fn wf(&self) -> bool {
        self@.wf()
    }

    /// Index of the device carrying `id`, if any.
    fn find_device(&self, id: u32) -> (r: Option<usize>)
        ensures
            match r {
                Option::Some(i) => i < self@.devices.len() && self@.devices[i as int].id == id,
                Option::None => !has_device(self@.devices, id),
            },
    {
        let mut i: usize = 0;
        while i < self.devices.len()
            invariant
                i <= self.devices@.len(),
                forall|j: int| 0 <= j < i ==> (#[trigger] self@.devices[j]).id != id,
            decreases self.devices@.len() - i,
        {
            if self.devices[i].id() == id {
                return Option::Some(i);
            }
            i = i + 1;
        }
        Option::None
    }

    /// Index of the history for the canonical pair `(lo, hi)`, if any.
    fn find_pair_index(&self, lo: u32, hi: u32) -> (r: Option<usize>)
        ensures
            match r {
                Option::Some(i) => i < self@.measures.len() && list_is_pair(
                    self@.measures[i as int],
                    lo,
                    hi,
                ),
                Option::None => !has_pair(self@.measures, lo, hi),
            },
    {
        let mut i: usize = 0;
        while i < self.measures.len()
            invariant
                i <= self.measures@.len(),
                forall|j: int| 0 <= j < i ==> !list_is_pair(#[trigger] self@.measures[j], lo, hi),
            decreases self.measures@.len() - i,
        {
            let p = self.measures[i].pair();
            if p.0 == lo && p.1 == hi {
                return Option::Some(i);
            }
            i = i + 1;
        }
        Option::None
    }

    /// Register a device at the given coordinate. Fails on a duplicate id,
    /// leaving every existing record unchanged; otherwise the record is
    /// appended, seeded with one Trace at the coordinate and activity 0.
    pub fn add_device(&mut self, id: u32, x: i32, y: i32, z: i32) -> (r: Result<(), ZoneError>)
        requires
            old(self).wf(),
        ensures
            final(self).wf(),
            r == register_outcome(old(self)@, id),
            final(self)@ == register_transition(old(self)@, id, x, y, z),
    {
        match self.find_device(id) {
            Option::Some(_) => Result::Err(ZoneError::DuplicateDevice),
            Option::None => {
                let dev = DeviceData::new_with_pos(id, x, y, z);
                self.devices.push(dev);
                proof {
                    assert(self@.devices =~= old(self)@.devices.push(fresh_device(id, x, y, z)));
                    assert(self@ =~= register_transition(old(self)@, id, x, y, z));
                }
                Result::Ok(())
            },
        }
    }

    /// Read-only lookup of one device by id.
    pub fn get_device(&self, id: u32) -> (r: Option<Device>)
        requires
            self.wf(),
        ensures
            r == found_device(self@, id),
    {
        match self.find_device(id) {
            Option::Some(i) => {
                let d = &self.devices[i];
                let r = Device { pos: d.trace_at(0), id: d.id(), timestamp: d.last_activity() };
                proof {
                    let k = choose|k: int|
                        0 <= k < self@.devices.len() && self@.devices[k].id == id;
                    assert(k == i as int);
                }
                Option::Some(r)
            },
            Option::None => Option::None,
        }
    }

    /// The most recent sample for the unordered pair `(id_a, id_b)`.
    pub fn latest(&self, id_a: u32, id_b: u32) -> (r: Option<Measure>)
        requires
            self.wf(),
        ensures
            r == latest_sample(self@, id_a, id_b),
    {
        let lo = if id_a <= id_b {
            id_a
        } else {
            id_b
        };
        let hi = if id_a <= id_b {
            id_b
        } else {
            id_a
        };
        match self.find_pair_index(lo, hi) {
            Option::Some(i) => {
                let m = self.measures[i].sample_at(0);
                proof {
                    let k = choose|k: int|
                        0 <= k < self@.measures.len() && list_is_pair(self@.measures[k], lo, hi);
                    assert(k == i as int);
                }
                Option::Some(m)
            },
            Option::None => Option::None,
        }
    }

    /// Snapshot every device's extrapolated position at `timestamp`, in
    /// registration order. A pure read: the zone is not touched, and the
    /// output is a function of the zone's state and the timestamp alone.
    pub fn get_all_devices_position(&self, timestamp: u32) -> (r: Vec<Device>)
        requires
            self.wf(),
        ensures
            r@ == all_positions(self@, timestamp),
    {
        let mut pos: Vec<Device> = Vec::new();
        let mut i: usize = 0;
        while i < self.devices.len()
            invariant
                self.wf(),
                i <= self.devices@.len(),
                pos@ =~= all_positions(self@, timestamp).take(i as int),
            decreases self.devices@.len() - i,
        {
            proof {
                assert(self@.devices[i as int].wf());
            }
            pos.push(Device::new(&self.devices[i], timestamp));
            i = i + 1;
        }
        proof {
            assert(pos@ =~= all_positions(self@, timestamp));
        }
        pos
    }

    /// Every ranging history that touches `id`: the other endpoint and the
    /// history's index in the graph, in graph order, exhaustively.
    pub fn neighbors_of(&self, id: u32) -> (r: Vec<(u32, usize)>)
        requires
            self.wf(),
        ensures
            forall|k: int|
                0 <= k < r@.len() ==> (#[trigger] r@[k]).1 < self@.measures.len()
                    && list_contains(self@.measures[r@[k].1 as int], id) && r@[k].0 == other_of(
                    self@.measures[r@[k].1 as int],
                    id,
                ),
            forall|j: int|
                0 <= j < self@.measures.len() && list_contains(#[trigger] self@.measures[j], id)
                    ==> exists|k: int| 0 <= k < r@.len() && (#[trigger] r@[k]).1 == j,
    {
        let mut r: Vec<(u32, usize)> = Vec::new();
        let mut i: usize = 0;
        while i < self.measures.len()
            invariant
                self.wf(),
                i <= self.measures@.len(),
                forall|k: int|
                    0 <= k < r@.len() ==> (#[trigger] r@[k]).1 < i && list_contains(
                        self@.measures[r@[k].1 as int],
                        id,
                    ) && r@[k].0 == other_of(self@.measures[r@[k].1 as int], id),
                forall|j: int|
                    0 <= j < i && list_contains(#[trigger] self@.measures[j], id) ==> exists|k: int|
                        0 <= k < r@.len() && (#[trigger] r@[k]).1 == j,
            decreases self.measures@.len() - i,
        {
            let p = self.measures[i].pair();
            if p.0 == id || p.1 == id {
                let other = if p.0 == id {
                    p.1
                } else {
                    p.0
                };
                let ghost r0 = r@;
                r.push((other, i));
                proof {
                    assert forall|j: int|
                        0 <= j < i + 1 && list_contains(
                            #[trigger] self@.measures[j],
                            id,
                        ) implies exists|k: int| 0 <= k < r@.len() && (#[trigger] r@[k]).1 == j by {
                        if j == i as int {
                            assert(r@[r0.len() as int].1 == j);
                        } else {
                            let k = choose|k: int| 0 <= k < r0.len() && (#[trigger] r0[k]).1 == j;
                            assert(r@[k].1 == j);
                        }
                    }
                }
            }
            i = i + 1;
        }
        r
    }

    /// The devices eligible as ranging constraints for `self_id` at query
    /// time `timestamp`: exactly the registered devices that are someone
    /// else, appear as a neighbor, and are still fresh. Stale devices are
    /// excluded so their drift cannot propagate through old constraints.
    fn fresh_neighbor_pool<'a>(
        &'a self,
        self_id: u32,
        neighbors: &Vec<(u32, usize)>,
        timestamp: u32,
    ) -> (r: Vec<&'a DeviceData>)
        requires
            self.wf(),
        ensures
            forall|k: int|
                0 <= k < r@.len() ==> (#[trigger] r@[k])@.id != self_id && is_fresh(
                    r@[k]@.timestamp,
                    timestamp,
                ) && id_in_pairs(neighbors@, r@[k]@.id) && has_device(self@.devices, r@[k]@.id),
            forall|j: int|
                0 <= j < self@.devices.len() && (#[trigger] self@.devices[j]).id != self_id
                    && id_in_pairs(neighbors@, self@.devices[j].id) && is_fresh(
                    self@.devices[j].timestamp,
                    timestamp,
                ) ==> exists|k: int| 0 <= k < r@.len() && (#[trigger] r@[k])@ == self@.devices[j],
    {
        let mut r: Vec<&DeviceData> = Vec::new();
        let mut j: usize = 0;
        while j < self.devices.len()
            invariant
                self.wf(),
                j <= self.devices@.len(),
                forall|k: int|
                    0 <= k < r@.len() ==> (#[trigger] r@[k])@.id != self_id && is_fresh(
                        r@[k]@.timestamp,
                        timestamp,
                    ) && id_in_pairs(neighbors@, r@[k]@.id) && has_device(
                        self@.devices,
                        r@[k]@.id,
                    ),
                forall|i: int|
                    0 <= i < j && (#[trigger] self@.devices[i]).id != self_id && id_in_pairs(
                        neighbors@,
                        self@.devices[i].id,
                    ) && is_fresh(self@.devices[i].timestamp, timestamp) ==> exists|k: int|
                        0 <= k < r@.len() && (#[trigger] r@[k])@ == self@.devices[i],
            decreases self.devices@.len() - j,
        {
            let cand = &self.devices[j];
            if cand.id() != self_id && contains_id(neighbors, cand.id()) && check_fresh(
                cand.last_activity(),
                timestamp,
            ) {
                let ghost r0 = r@;
                r.push(cand);
                proof {
                    assert(self@.devices[j as int] == cand@);
                    assert forall|i: int|
                        0 <= i < j + 1 && (#[trigger] self@.devices[i]).id != self_id
                            && id_in_pairs(neighbors@, self@.devices[i].id) && is_fresh(
                            self@.devices[i].timestamp,
                            timestamp,
                        ) implies exists|k: int|
                        0 <= k < r@.len() && (#[trigger] r@[k])@ == self@.devices[i] by {
                        if i == j as int {
                            assert(r@[r0.len() as int]@ == self@.devices[i]);
                        } else {
                            let k = choose|k: int|
                                0 <= k < r0.len() && (#[trigger] r0[k])@ == self@.devices[i];
                            assert(r@[k]@ == self@.devices[i]);
                        }
                    }
                }
            }
            j = j + 1;
        }
        r
    }

    /// Compute a fresh position estimate for `dev` from its neighbor
    /// histories and the fresh neighbors' records, without touching the zone.
    fn calc_dev_position(&self, dev: &DeviceData, timestamp: u32) -> (r: Trace)
        requires
            self.wf(),
            dev.wf(),
        ensures
            r == stepped_trace(dev@.trace[0], timestamp),
            r.wf(),
    {
        let id = dev.id();
        let neighbors = self.neighbors_of(id);
        let mut measures: Vec<&MeasureList> = Vec::new();
        let mut i: usize = 0;
        while i < neighbors.len()
            invariant
                self.wf(),
                i <= neighbors@.len(),
                forall|k: int|
                    0 <= k < neighbors@.len() ==> (#[trigger] neighbors@[k]).1
                        < self@.measures.len(),
            decreases neighbors@.len() - i,
        {
            measures.push(&self.measures[neighbors[i].1]);
            i = i + 1;
        }
        let pool = self.fresh_neighbor_pool(id, &neighbors, timestamp);
        dev.calc_position(&measures, &pool, timestamp)
    }

    /// Recompute the position of the device at `idx` for `timestamp`, push
    /// the estimate into its history and bump its activity.
    fn update_dev_position(&mut self, idx: usize, timestamp: u32)
        requires
            old(self).wf(),
            idx < old(self)@.devices.len(),
        ensures
            final(self).wf(),
            final(self)@.id == old(self)@.id,
            final(self)@.measures == old(self)@.measures,
            final(self)@.devices == old(self)@.devices.update(
                idx as int,
                advanced_device(old(self)@.devices[idx as int], timestamp),
            ),
    {
        proof {
            assert(self@.devices[idx as int].wf());
        }
        let pos = self.calc_dev_position(&self.devices[idx], timestamp);
        self.devices[idx].save_position(pos);
        self.devices[idx].touch(timestamp);
        proof {
            assert(self@.measures =~= old(self)@.measures);
            assert(self@.devices =~= old(self)@.devices.update(
                idx as int,
                advanced_device(old(self)@.devices[idx as int], timestamp),
            ));
            assert forall|i: int, j: int|
                0 <= i < j < self@.devices.len() implies (#[trigger] self@.devices[i]).id != (
            #[trigger] self@.devices[j]).id by {
                assert(self@.devices[i].id == old(self)@.devices[i].id);
                assert(self@.devices[j].id == old(self)@.devices[j].id);
            }
            assert forall|i: int| 0 <= i < self@.devices.len() implies (#[trigger] self@.devices[i]).wf() by {
                if i != idx as int {
                    assert(self@.devices[i] == old(self)@.devices[i]);
                }
            }
        }
    }

    /// Ingest one ranging sample. The sample is refused, and the zone left
    /// unchanged, for a self-measurement, a negative distance, or an
    /// unregistered endpoint. A valid first sample for a pair creates its
    /// bootstrap history and bumps both endpoints' activity; a repeat sample
    /// shifts into the existing history, bumps both endpoints and recomputes
    /// and stores both endpoints' positions.
    pub fn add_measure(&mut self, id1: u32, id2: u32, distance: i64, timestamp: u32) -> (r:
        Result<UpdateKind, ZoneError>)
        requires
            old(self).wf(),
        ensures
            final(self).wf(),
            r == measure_outcome(old(self)@, id1, id2, distance, timestamp),
            final(self)@ == measure_transition(old(self)@, id1, id2, distance, timestamp),
    {
        if id1 == id2 {
            return Result::Err(ZoneError::SelfMeasurement);
        }
        if distance < 0 {
            return Result::Err(ZoneError::InvalidMeasurement);
        }
        let opt1 = self.find_device(id1);
        let opt2 = self.find_device(id2);
        let (idx1, idx2) = match (opt1, opt2) {
            (Option::Some(a), Option::Some(b)) => (a, b),
            _ => {
                return Result::Err(ZoneError::UnknownDevice);
            },
        };
        let lo = if id1 <= id2 {
            id1
        } else {
            id2
        };
        let hi = if id1 <= id2 {
            id2
        } else {
            id1
        };
        let meas = Measure { pair: (lo, hi), timestamp: timestamp, distance: distance };
        match self.find_pair_index(lo, hi) {
            Option::None => {
                let ml = MeasureList::new(meas);
                self.measures.push(ml);
                self.devices[idx1].touch(timestamp);
                self.devices[idx2].touch(timestamp);
                proof {
                    let m2 = Measure { pair: (id1, id2), timestamp: timestamp, distance: distance };
                    assert(bootstrap_history(meas) =~= bootstrap_history(m2));
                    assert(self@.measures =~= old(self)@.measures.push(bootstrap_history(m2)));
                    assert forall|i: int|
                        0 <= i < self@.devices.len() implies #[trigger] self@.devices[i]
                        == touched_endpoints(old(self)@.devices, id1, id2, timestamp)[i] by {
                        if i != idx1 as int && i != idx2 as int {
                            assert(old(self)@.devices[i].id != id1);
                            assert(old(self)@.devices[i].id != id2);
                        }
                    }
                    assert(self@.devices =~= touched_endpoints(
                        old(self)@.devices,
                        id1,
                        id2,
                        timestamp,
                    ));
                    assert(self@ =~= measure_transition(old(self)@, id1, id2, distance, timestamp));
                }
                Result::Ok(UpdateKind::Created)
            },
            Option::Some(k) => {
                self.measures[k].update(meas);
                proof {
                    let ghost mid = self@;
                    assert forall|i: int|
                        0 <= i < mid.measures.len() implies #[trigger] mid.measures[i]
                        == updated_pair(old(self)@.measures, lo, hi, distance, timestamp)[i] by {
                        if i != k as int {
                            assert(!list_is_pair(old(self)@.measures[i], lo, hi));
                        }
                    }
                    assert(mid.measures =~= updated_pair(
                        old(self)@.measures,
                        lo,
                        hi,
                        distance,
                        timestamp,
                    ));
                    assert forall|i: int, j: int|
                        0 <= i < j < mid.measures.len() implies !((#[trigger] mid.measures[i]).lo
                        == (#[trigger] mid.measures[j]).lo && mid.measures[i].hi
                        == mid.measures[j].hi) by {
                        assert(mid.measures[i].lo == old(self)@.measures[i].lo);
                        assert(mid.measures[i].hi == old(self)@.measures[i].hi);
                        assert(mid.measures[j].lo == old(self)@.measures[j].lo);
                        assert(mid.measures[j].hi == old(self)@.measures[j].hi);
                    }
                    assert(self.wf());
                }
                self.update_dev_position(idx1, timestamp);
                self.update_dev_position(idx2, timestamp);
                proof {
                    assert(idx1 != idx2);
                    assert forall|i: int|
                        0 <= i < self@.devices.len() implies #[trigger] self@.devices[i]
                        == advanced_endpoints(old(self)@.devices, id1, id2, timestamp)[i] by {
                        if i != idx1 as int && i != idx2 as int {
                            assert(old(self)@.devices[i].id != id1);
                            assert(old(self)@.devices[i].id != id2);
                        }
                    }
                    assert(self@.devices =~= advanced_endpoints(
                        old(self)@.devices,
                        id1,
                        id2,
                        timestamp,
                    ));
                    assert(self@ =~= measure_transition(old(self)@, id1, id2, distance, timestamp));
                }
                Result::Ok(UpdateKind::Updated)
            },
        }
    }
}

/// True exactly when `id` appears as the neighbor id of some entry.
fn contains_id(ps: &Vec<(u32, usize)>, id: u32) -> (r: bool)
    ensures
        r == id_in_pairs(ps@, id),
{
    let mut i: usize = 0;
    while i < ps.len()
        invariant
            i <= ps@.len(),
            forall|k: int| 0 <= k < i ==> (#[trigger] ps@[k]).0 != id,
        decreases ps@.len() - i,
    {
        if ps[i].0 == id {
            return true;
        }
        i = i + 1;
    }
    false
}

} // verus!
