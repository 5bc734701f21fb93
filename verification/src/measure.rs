use vstd::prelude::*;

use crate::trace::MEASURE_DEPTH;

verus! {

/// A single ranging sample: an unordered device pair, the measured distance
/// in hundredths of a unit, and the time it was taken.
#[derive(Copy, Clone, PartialEq, Eq, Debug)]
pub struct Measure {
    pub pair: (u32, u32),
    pub timestamp: u32,
    pub distance: i64,
}

/// Mathematical content of a [`MeasureList`]: the canonical pair and the two
/// sample columns, most-recent-first.
#[verifier::ext_equal]
pub struct MeasureListView {
    pub lo: u32,
    pub hi: u32,
    pub ts: Seq<u32>,
    pub val: Seq<i64>,
}

/// Bounded ranging history for one unordered device pair, most-recent-first.
/// Once the pair has been observed, both columns hold exactly
/// `MEASURE_DEPTH` entries.
pub struct MeasureList {
    dev: (u32, u32),
    measures_ts: Vec<u32>,
    measures_val: Vec<i64>,
}

impl View for MeasureList {
    type V = MeasureListView;

    closed spec fn view(&self) -> MeasureListView {
        MeasureListView {
            lo: self.dev.0,
            hi: self.dev.1,
            ts: self.measures_ts@,
            val: self.measures_val@,
        }
    }
}

/// The numerically smaller id of an unordered pair.
pub open spec fn canonical_lo(a: u32, b: u32) -> u32 {
    if a <= b {
        a
    } else {
        b
    }
}

/// The numerically larger id of an unordered pair.
pub open spec fn canonical_hi(a: u32, b: u32) -> u32 {
    if a <= b {
        b
    } else {
        a
    }
}

/// A history column after a new sample is shifted in at the front and the
/// oldest entry is evicted.
pub open spec fn shifted<T>(s: Seq<T>, v: T) -> Seq<T> {
    seq![v] + s.take(MEASURE_DEPTH - 1)
}

/// The history made for the first sample of a pair: every slot holds that
/// sample, so consumers always see a full window.
pub open spec fn bootstrap_history(meas: Measure) -> MeasureListView {
    MeasureListView {
        lo: canonical_lo(meas.pair.0, meas.pair.1),
        hi: canonical_hi(meas.pair.0, meas.pair.1),
        ts: Seq::new(MEASURE_DEPTH as nat, |i: int| meas.timestamp),
        val: Seq::new(MEASURE_DEPTH as nat, |i: int| meas.distance),
    }
}

impl MeasureListView {
    /// Both columns full, the pair canonical and not a self-pair, and every
    /// recorded distance non-negative.
    pub open spec fn wf(self) -> bool {
        &&& self.lo < self.hi
        &&& self.ts.len() == MEASURE_DEPTH
        &&& self.val.len() == MEASURE_DEPTH
        &&& forall|i: int| 0 <= i < self.val.len() ==> self.val[i] >= 0
    }

    /// This history after a new sample is shifted in.
    pub open spec fn updated(self, meas: Measure) -> MeasureListView {
        MeasureListView {
            lo: self.lo,
            hi: self.hi,
            ts: shifted(self.ts, meas.timestamp),
            val: shifted(self.val, meas.distance),
        }
    }
}

/// Shift `new_val` in at the front of a full history column and drop the
/// oldest entry, keeping the length at `MEASURE_DEPTH`.
pub fn array_insert_pop<T: Copy>(arr: &mut Vec<T>, new_val: T)
    requires
        old(arr)@.len() == MEASURE_DEPTH,
    ensures
        final(arr)@ == shifted(old(arr)@, new_val),
{
    arr.insert(0, new_val);
    arr.truncate(MEASURE_DEPTH);
    proof {
        assert(arr@ =~= shifted(old(arr)@, new_val));
    }
}

impl MeasureList {
    pub open spec fn wf(&self) -> bool {
        self@.wf()
    }

    /// Start the history for a pair from its first sample, canonicalizing the
    /// pair and filling every slot with that sample.
    pub fn new(meas: Measure) -> (r: MeasureList)
        requires
            meas.pair.0 != meas.pair.1,
            meas.distance >= 0,
        ensures
            r@ == bootstrap_history(meas),
            r.wf(),
    {
        let lo = if meas.pair.0 <= meas.pair.1 {
            meas.pair.0
        } else {
            meas.pair.1
        };
        let hi = if meas.pair.0 <= meas.pair.1 {
            meas.pair.1
        } else {
            meas.pair.0
        };
        let mut ts: Vec<u32> = Vec::new();
        let mut val: Vec<i64> = Vec::new();
        let mut i: usize = 0;
        while i < MEASURE_DEPTH
            invariant
                i <= MEASURE_DEPTH,
                ts@ =~= Seq::new(i as nat, |j: int| meas.timestamp),
                val@ =~= Seq::new(i as nat, |j: int| meas.distance),
            decreases MEASURE_DEPTH - i,
        {
            ts.push(meas.timestamp);
            val.push(meas.distance);
            i = i + 1;
        }
        let r = MeasureList { dev: (lo, hi), measures_ts: ts, measures_val: val };
        proof {
            assert(r@ =~= bootstrap_history(meas));
        }
        r
    }

    /// Record one more sample: both columns shift, the oldest entry leaves.
    pub fn update(&mut self, meas: Measure)
        requires
            old(self).wf(),
            meas.distance >= 0,
        ensures
            final(self)@ == old(self)@.updated(meas),
            final(self).wf(),
    {
        array_insert_pop(&mut self.measures_val, meas.distance);
        array_insert_pop(&mut self.measures_ts, meas.timestamp);
        proof {
            assert(self@ =~= old(self)@.updated(meas));
        }
    }

    /// Distance estimate for this pair: the most recent sample of the
    /// window, which sits at the front.
    pub fn estimate(&self, _timestamp: u32) -> (r: i64)
        requires
            self.wf(),
        ensures
            r == self@.val[0],
    {
        self.measures_val[0]
    }

    /// The canonical pair this history is for.
    pub fn pair(&self) -> (r: (u32, u32))
        ensures
            r.0 == self@.lo,
            r.1 == self@.hi,
    {
        self.dev
    }

    /// The sample at window position `i` (0 is the most recent).
    pub fn sample_at(&self, i: usize) -> (r: Measure)
        requires
            self.wf(),
            i < MEASURE_DEPTH,
        ensures
            r == (Measure {
                pair: (self@.lo, self@.hi),
                timestamp: self@.ts[i as int],
                distance: self@.val[i as int],
            }),
    {
        Measure {
            pair: self.dev,
            timestamp: self.measures_ts[i],
            distance: self.measures_val[i],
        }
    }
}

} // verus!
