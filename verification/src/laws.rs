use vstd::prelude::*;

use crate::device::{fresh_device, pushed_trace, DeviceDataView};
use crate::measure::shifted;
use crate::trace::{Trace, MEASURE_DEPTH, POSITION_TRACE_DEPTH};
use crate::zone::{
    has_device, latest_sample, measure_outcome, measure_transition, register_transition, ZoneView,
};

verus! {

/// The registry after one registration request `(id, x, y, z)`: unchanged on
/// a duplicate id, otherwise the fresh record is appended.
pub open spec fn register_step(
    ds: Seq<DeviceDataView>,
    reg: (u32, i32, i32, i32),
) -> Seq<DeviceDataView> {
    if has_device(ds, reg.0) {
        ds
    } else {
        ds.push(fresh_device(reg.0, reg.1, reg.2, reg.3))
    }
}

/// The registry after a whole run of registration requests, first to last.
pub open spec fn register_all(
    ds: Seq<DeviceDataView>,
    regs: Seq<(u32, i32, i32, i32)>,
) -> Seq<DeviceDataView>
    decreases regs.len(),
{
    if regs.len() == 0 {
        ds
    } else {
        register_all(register_step(ds, regs[0]), regs.skip(1))
    }
}

/// `register_step` is exactly what one `Zone::add_device` call does to the
/// registry, as that function's contract states it.
pub proof fn lemma_register_step_matches(z: ZoneView, id: u32, x: i32, y: i32, zc: i32)
    ensures
        register_transition(z, id, x, y, zc).devices == register_step(z.devices, (id, x, y, zc)),
        register_transition(z, id, x, y, zc).measures == z.measures,
        register_transition(z, id, x, y, zc).id == z.id,
{
}

/// A record carrying `id` exists in `ds.push(d)` exactly when one exists in
/// `ds` or `d` itself carries it.
pub proof fn lemma_has_device_push(ds: Seq<DeviceDataView>, d: DeviceDataView, id: u32)
    ensures
        has_device(ds.push(d), id) <==> (has_device(ds, id) || d.id == id),
{
    if has_device(ds.push(d), id) {
        let k = choose|k: int| 0 <= k < ds.push(d).len() && (#[trigger] ds.push(d)[k]).id == id;
        if k < ds.len() {
            assert(ds[k].id == id);
        }
    }
    if has_device(ds, id) {
        let k = choose|k: int| 0 <= k < ds.len() && (#[trigger] ds[k]).id == id;
        assert(ds.push(d)[k].id == id);
    }
    if d.id == id {
        assert(ds.push(d)[ds.len() as int].id == id);
    }
}

/// Law: a run of registrations whose ids are pairwise distinct and all new
/// grows the registry by exactly one record per request — the final device
/// count is the number of distinct ids submitted — and leaves every record
/// that was already there unchanged, in place.
pub proof fn lemma_distinct_registrations(
    ds: Seq<DeviceDataView>,
    regs: Seq<(u32, i32, i32, i32)>,
)
    requires
        forall|i: int, j: int|
            0 <= i < j < regs.len() ==> (#[trigger] regs[i]).0 != (#[trigger] regs[j]).0,
        forall|i: int| 0 <= i < regs.len() ==> !has_device(ds, (#[trigger] regs[i]).0),
    ensures
        register_all(ds, regs).len() == ds.len() + regs.len(),
        forall|i: int| 0 <= i < ds.len() ==> register_all(ds, regs)[i] == ds[i],
    decreases regs.len(),
{
    if regs.len() != 0 {
        let d0 = fresh_device(regs[0].0, regs[0].1, regs[0].2, regs[0].3);
        let ds1 = register_step(ds, regs[0]);
        assert(ds1 == ds.push(d0));
        let tail = regs.skip(1);
        assert forall|i: int| 0 <= i < tail.len() implies !has_device(
            ds1,
            (#[trigger] tail[i]).0,
        ) by {
            assert(tail[i] == regs[i + 1]);
            assert(regs[i + 1].0 != regs[0].0);
            lemma_has_device_push(ds, d0, tail[i].0);
        }
        assert forall|i: int, j: int|
            0 <= i < j < tail.len() implies (#[trigger] tail[i]).0 != (#[trigger] tail[j]).0 by {
            assert(tail[i] == regs[i + 1]);
            assert(tail[j] == regs[j + 1]);
        }
        lemma_distinct_registrations(ds1, tail);
        assert forall|i: int| 0 <= i < ds.len() implies register_all(ds, regs)[i] == ds[i] by {
            assert(register_all(ds1, tail)[i] == ds1[i]);
            assert(ds1[i] == ds[i]);
        }
    }
}

/// A bounded history column after a whole run of samples is shifted in,
/// first to last.
pub open spec fn shift_all<T>(s: Seq<T>, xs: Seq<T>) -> Seq<T>
    decreases xs.len(),
{
    if xs.len() == 0 {
        s
    } else {
        shift_all(shifted(s, xs[0]), xs.skip(1))
    }
}

/// Law: a measurement history never exceeds its capacity, and after any run
/// of updates slot `i` holds the `i`-th most recent sample while the run is
/// still short, and the start-of-run contents shifted down past that.
pub proof fn lemma_bounded_window<T>(s: Seq<T>, xs: Seq<T>)
    requires
        s.len() == MEASURE_DEPTH,
    ensures
        shift_all(s, xs).len() == MEASURE_DEPTH,
        forall|i: int|
            0 <= i < MEASURE_DEPTH ==> shift_all(s, xs)[i] == (if i < xs.len() {
                xs[xs.len() - 1 - i]
            } else {
                s[i - xs.len()]
            }),
    decreases xs.len(),
{
    if xs.len() != 0 {
        let s1 = shifted(s, xs[0]);
        let tail = xs.skip(1);
        lemma_bounded_window(s1, tail);
        assert forall|i: int|
            0 <= i < MEASURE_DEPTH implies shift_all(s, xs)[i] == (if i < xs.len() {
            xs[xs.len() - 1 - i]
        } else {
            s[i - xs.len()]
        }) by {
            assert(shift_all(s, xs) == shift_all(s1, tail));
            if i < tail.len() {
                assert(tail[tail.len() - 1 - i] == xs[xs.len() - 1 - i]);
            } else {
                assert(shift_all(s1, tail)[i] == s1[i - tail.len()]);
                if i - tail.len() == 0 {
                    assert(s1[0] == xs[0]);
                } else {
                    assert(s1[i - tail.len()] == s.take(MEASURE_DEPTH - 1)[i - tail.len() - 1]);
                }
            }
        }
    }
}

/// Law: once at least `MEASURE_DEPTH` samples have been shifted in, the
/// history holds exactly the `MEASURE_DEPTH` most recent samples,
/// most-recent-first; everything older, and the bootstrap fill, is gone.
pub proof fn lemma_full_window_holds_recent<T>(s: Seq<T>, xs: Seq<T>)
    requires
        s.len() == MEASURE_DEPTH,
        xs.len() >= MEASURE_DEPTH,
    ensures
        shift_all(s, xs) == Seq::new(MEASURE_DEPTH as nat, |i: int| xs[xs.len() - 1 - i]),
{
    lemma_bounded_window(s, xs);
    assert(shift_all(s, xs) =~= Seq::new(MEASURE_DEPTH as nat, |i: int| xs[xs.len() - 1 - i]));
}

/// Law: a device's position history never exceeds its capacity, is never
/// empty, and the most recent estimate is always at index 0.
pub proof fn lemma_trace_history_bounds(s: Seq<Trace>, t: Trace)
    requires
        1 <= s.len() <= POSITION_TRACE_DEPTH,
    ensures
        1 <= pushed_trace(s, t).len() <= POSITION_TRACE_DEPTH,
        pushed_trace(s, t)[0] == t,
{
}

/// Law: a ranging sample addresses the unordered pair. Naming the endpoints
/// in either order gives the same outcome, the same zone afterwards, and the
/// same history to read back.
pub proof fn lemma_measure_symmetry(
    z: ZoneView,
    id_a: u32,
    id_b: u32,
    distance: i64,
    timestamp: u32,
)
    ensures
        measure_outcome(z, id_a, id_b, distance, timestamp) == measure_outcome(
            z,
            id_b,
            id_a,
            distance,
            timestamp,
        ),
        measure_transition(z, id_a, id_b, distance, timestamp) == measure_transition(
            z,
            id_b,
            id_a,
            distance,
            timestamp,
        ),
        latest_sample(z, id_a, id_b) == latest_sample(z, id_b, id_a),
{
    assert(measure_transition(z, id_a, id_b, distance, timestamp) =~~= measure_transition(
        z,
        id_b,
        id_a,
        distance,
        timestamp,
    ));
}

} // verus!
