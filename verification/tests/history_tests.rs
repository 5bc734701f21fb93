use zone_tracker::{
    check_fresh, DeviceData, Measure, MeasureList, Trace, MEASURE_DEPTH, POSITION_TRACE_DEPTH,
    STALE_LIMIT,
};

fn sample(a: u32, b: u32, distance: i64, timestamp: u32) -> Measure {
    Measure { pair: (a, b), timestamp, distance }
}

#[test]
fn bootstrap_fills_every_slot() {
    let ml = MeasureList::new(sample(7, 3, 100, 10));
    assert_eq!(ml.pair(), (3, 7)); // canonicalized, smaller id first
    for i in 0..MEASURE_DEPTH {
        let m = ml.sample_at(i);
        assert_eq!(m.distance, 100);
        assert_eq!(m.timestamp, 10);
        assert_eq!(m.pair, (3, 7));
    }
    assert_eq!(ml.estimate(11), 100);
}

#[test]
fn window_holds_five_most_recent_after_five_updates() {
    let mut ml = MeasureList::new(sample(1, 2, 100, 10));
    for k in 0..5u32 {
        ml.update(sample(1, 2, 200 + (k as i64) * 100, 11 + k));
    }
    // most-recent-first: 600, 500, 400, 300, 200; the bootstrap fill is gone
    for i in 0..MEASURE_DEPTH {
        let m = ml.sample_at(i);
        assert_eq!(m.distance, 600 - (i as i64) * 100);
        assert_eq!(m.timestamp, 15 - (i as u32));
    }
    // the most recent sample feeds the distance estimate
    assert_eq!(ml.estimate(99), 600);
}

#[test]
fn sixth_update_evicts_the_oldest() {
    let mut ml = MeasureList::new(sample(1, 2, 100, 10));
    for k in 0..6u32 {
        ml.update(sample(1, 2, 200 + (k as i64) * 100, 11 + k));
    }
    assert_eq!(ml.sample_at(0).distance, 700);
    assert_eq!(ml.sample_at(MEASURE_DEPTH - 1).distance, 300); // 200 was evicted
}

#[test]
fn trace_history_is_bounded_and_most_recent_first() {
    let mut dd = DeviceData::new_with_pos(1, 10, 20, 30);
    assert_eq!(dd.trace_len(), 1);
    assert_eq!(dd.trace_at(0), Trace { x: 1000, y: 2000, z: 3000, timestamp: 0 });
    for t in 1..5u32 {
        let pos = Trace { x: t as i64, y: 0, z: 0, timestamp: t };
        dd.save_position(pos);
        assert!(dd.trace_len() <= POSITION_TRACE_DEPTH);
        assert_eq!(dd.trace_at(0), pos);
    }
    // capacity 3: the three most recent survive, most-recent-first
    assert_eq!(dd.trace_len(), POSITION_TRACE_DEPTH);
    assert_eq!(dd.trace_at(0).x, 4);
    assert_eq!(dd.trace_at(1).x, 3);
    assert_eq!(dd.trace_at(2).x, 2);
}

#[test]
fn estimate_position_replaces_timestamp_only() {
    let dd = DeviceData::new_with_pos(1, 10, 20, 30);
    let est = dd.estimate_position(77);
    assert_eq!(est, Trace { x: 1000, y: 2000, z: 3000, timestamp: 77 });
    // read twice: unchanged input, unchanged answer
    assert_eq!(dd.estimate_position(77), est);
    assert_eq!(dd.trace_at(0).timestamp, 0);
}

#[test]
fn calc_position_steps_and_stamps() {
    let dd = DeviceData::new_with_pos(1, 1, 2, 3);
    let measures: Vec<&MeasureList> = Vec::new();
    let neighbors: Vec<&DeviceData> = Vec::new();
    let pos = dd.calc_position(&measures, &neighbors, 40);
    assert_eq!(pos, Trace { x: 135, y: 255, z: 300, timestamp: 40 });
}

#[test]
fn device_new_starts_at_origin() {
    let dd = DeviceData::new(9);
    assert_eq!(dd.id(), 9);
    assert_eq!(dd.last_activity(), 0);
    assert_eq!(dd.trace_at(0), Trace { x: 0, y: 0, z: 0, timestamp: 0 });
}

#[test]
fn freshness_window() {
    assert!(check_fresh(100, 100));
    assert!(check_fresh(100, 100 + STALE_LIMIT));
    assert!(!check_fresh(100, 101 + STALE_LIMIT));
    assert!(check_fresh(500, 400)); // activity in the query's future is fresh
}
