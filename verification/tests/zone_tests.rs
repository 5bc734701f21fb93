use zone_tracker::{init, Device, Trace, UpdateKind, ZoneError};

#[test]
fn init_creates_bootstrap_device() {
    let zone = init();
    let all = zone.get_all_devices_position(0);
    assert_eq!(all.len(), 1);
    assert_eq!(all[0].id, 0);
    assert_eq!(all[0].pos, Trace { x: 0, y: 0, z: 0, timestamp: 0 });
    assert_eq!(all[0].timestamp, 0);
    let snap = zone.get_device(0).unwrap();
    assert_eq!(snap.id, 0);
    assert_eq!(snap.pos, Trace { x: 0, y: 0, z: 0, timestamp: 0 });
    assert!(zone.get_device(1).is_none());
}

#[test]
fn add_device_scales_coordinates() {
    let mut zone = init();
    assert!(zone.add_device(1, 10, 20, 30).is_ok());
    let snap = zone.get_device(1).unwrap();
    assert_eq!(snap.pos, Trace { x: 1000, y: 2000, z: 3000, timestamp: 0 });
    assert_eq!(snap.timestamp, 0);
}

#[test]
fn duplicate_device_rejected_and_state_kept() {
    let mut zone = init();
    assert!(zone.add_device(1, 10, 20, 30).is_ok());
    assert!(zone.add_device(2, -4, 0, 7).is_ok());
    let before = zone.get_all_devices_position(5);
    assert_eq!(before.len(), 3);
    assert_eq!(zone.add_device(1, 99, 99, 99), Err(ZoneError::DuplicateDevice));
    let after = zone.get_all_devices_position(5);
    assert_eq!(before, after);
}

#[test]
fn distinct_ids_grow_count_one_each() {
    let mut zone = init();
    for id in 1..6u32 {
        assert!(zone.add_device(id, id as i32, 0, 0).is_ok());
        let all = zone.get_all_devices_position(0);
        assert_eq!(all.len(), (id + 1) as usize);
    }
    // registration order is kept
    let all = zone.get_all_devices_position(0);
    let ids: Vec<u32> = all.iter().map(|d| d.id).collect();
    assert_eq!(ids, vec![0, 1, 2, 3, 4, 5]);
}

#[test]
fn full_scenario_create_then_update() {
    let mut zone = init();
    assert!(zone.add_device(1, 10, 20, 30).is_ok());
    assert_eq!(zone.add_device(1, 10, 20, 30), Err(ZoneError::DuplicateDevice));

    // first sample for the pair: history is created, no recompute happens
    assert_eq!(zone.add_measure(0, 1, 500, 100), Ok(UpdateKind::Created));
    let m = zone.latest(0, 1).unwrap();
    assert_eq!(m.pair, (0, 1));
    assert_eq!(m.distance, 500);
    assert_eq!(m.timestamp, 100);
    let d0 = zone.get_device(0).unwrap();
    let d1 = zone.get_device(1).unwrap();
    assert_eq!(d0.timestamp, 100); // activity bumped on both endpoints
    assert_eq!(d1.timestamp, 100);
    assert_eq!(d0.pos, Trace { x: 0, y: 0, z: 0, timestamp: 0 }); // no new Trace
    assert_eq!(d1.pos, Trace { x: 1000, y: 2000, z: 3000, timestamp: 0 });

    // repeat sample, endpoints swapped: same history updated, recompute runs
    assert_eq!(zone.add_measure(1, 0, 600, 200), Ok(UpdateKind::Updated));
    let m = zone.latest(0, 1).unwrap();
    assert_eq!(m.distance, 600);
    assert_eq!(m.timestamp, 200);
    let d0 = zone.get_device(0).unwrap();
    let d1 = zone.get_device(1).unwrap();
    assert_eq!(d0.timestamp, 200);
    assert_eq!(d1.timestamp, 200);
    assert_eq!(d0.pos, Trace { x: 35, y: 55, z: 0, timestamp: 200 });
    assert_eq!(d1.pos, Trace { x: 1035, y: 2055, z: 3000, timestamp: 200 });
}

#[test]
fn self_measurement_rejected_without_mutation() {
    let mut zone = init();
    assert!(zone.add_device(2, 1, 1, 1).is_ok());
    let before = zone.get_all_devices_position(50);
    assert_eq!(zone.add_measure(2, 2, 100, 10), Err(ZoneError::SelfMeasurement));
    let after = zone.get_all_devices_position(50);
    assert_eq!(before, after);
    assert!(zone.latest(2, 2).is_none());
    assert_eq!(zone.get_device(2).unwrap().timestamp, 0);
}

#[test]
fn negative_distance_rejected() {
    let mut zone = init();
    assert!(zone.add_device(1, 0, 0, 0).is_ok());
    let before = zone.get_all_devices_position(50);
    assert_eq!(zone.add_measure(0, 1, -100, 10), Err(ZoneError::InvalidMeasurement));
    assert_eq!(before, zone.get_all_devices_position(50));
    assert!(zone.latest(0, 1).is_none());
}

#[test]
fn unknown_endpoint_rejected() {
    let mut zone = init();
    let before = zone.get_all_devices_position(50);
    assert_eq!(zone.add_measure(0, 9, 100, 10), Err(ZoneError::UnknownDevice));
    assert_eq!(zone.add_measure(9, 0, 100, 10), Err(ZoneError::UnknownDevice));
    assert_eq!(before, zone.get_all_devices_position(50));
}

#[test]
fn canonical_pair_shared_both_orders() {
    let mut zone = init();
    assert!(zone.add_device(3, 0, 0, 0).is_ok());
    assert!(zone.add_device(7, 1, 1, 1).is_ok());
    assert_eq!(zone.add_measure(3, 7, 500, 10), Ok(UpdateKind::Created));
    // the swapped order addresses the same history: an update, not a creation
    assert_eq!(zone.add_measure(7, 3, 550, 20), Ok(UpdateKind::Updated));
    let a = zone.latest(3, 7).unwrap();
    let b = zone.latest(7, 3).unwrap();
    assert_eq!(a, b);
    assert_eq!(a.pair, (3, 7));
    assert_eq!(a.distance, 550);
}

#[test]
fn swapped_feeds_give_identical_zones() {
    let mut za = init();
    let mut zb = init();
    for z in [&mut za, &mut zb] {
        assert!(z.add_device(3, 2, 4, 6).is_ok());
        assert!(z.add_device(7, 8, 10, 12).is_ok());
    }
    assert_eq!(za.add_measure(3, 7, 500, 10), zb.add_measure(7, 3, 500, 10));
    assert_eq!(za.add_measure(3, 7, 510, 20), zb.add_measure(7, 3, 510, 20));
    assert_eq!(za.get_all_devices_position(30), zb.get_all_devices_position(30));
    assert_eq!(za.latest(3, 7), zb.latest(3, 7));
}

#[test]
fn get_all_positions_is_a_pure_read() {
    let mut zone = init();
    assert!(zone.add_device(1, 10, 20, 30).is_ok());
    assert_eq!(zone.add_measure(0, 1, 500, 100), Ok(UpdateKind::Created));
    let first = zone.get_all_devices_position(150);
    let second = zone.get_all_devices_position(150);
    assert_eq!(first, second);
    // and it mutates nothing observable
    assert_eq!(zone.get_device(0).unwrap().timestamp, 100);
}

#[test]
fn get_all_positions_stamps_query_time() {
    let mut zone = init();
    assert!(zone.add_device(1, 10, 20, 30).is_ok());
    let all: Vec<Device> = zone.get_all_devices_position(42);
    assert_eq!(all.len(), 2);
    for d in &all {
        assert_eq!(d.pos.timestamp, 42);
        assert_eq!(d.timestamp, 42);
    }
    assert_eq!(all[1].pos.x, 1000);
}

#[test]
fn estimator_wraps_past_zone_edge() {
    let mut zone = init();
    assert!(zone.add_device(1, 700, 700, 5).is_ok());
    assert!(zone.add_device(2, 0, 0, 0).is_ok());
    assert_eq!(zone.add_measure(1, 2, 100, 10), Ok(UpdateKind::Created));
    assert_eq!(zone.add_measure(1, 2, 100, 20), Ok(UpdateKind::Updated));
    let d1 = zone.get_device(1).unwrap();
    // 70000 + 35 and 70000 + 55 both pass the edge and wrap to zero
    assert_eq!(d1.pos, Trace { x: 0, y: 0, z: 500, timestamp: 20 });
    let d2 = zone.get_device(2).unwrap();
    assert_eq!(d2.pos, Trace { x: 35, y: 55, z: 0, timestamp: 20 });
}

#[test]
fn repeated_updates_keep_stepping() {
    let mut zone = init();
    assert!(zone.add_device(1, 0, 0, 0).is_ok());
    assert_eq!(zone.add_measure(0, 1, 100, 1), Ok(UpdateKind::Created));
    for t in 2..5u32 {
        assert_eq!(zone.add_measure(0, 1, 100, t), Ok(UpdateKind::Updated));
    }
    // three updates after the bootstrap: three estimator steps
    let d0 = zone.get_device(0).unwrap();
    assert_eq!(d0.pos, Trace { x: 105, y: 165, z: 0, timestamp: 4 });
}
