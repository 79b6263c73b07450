use mycap::{loop_pause, MainServer, ServerMessage, TrackerConfig, TrackerStatus, Vec3Bits, QuatBits};
use tokio::sync::mpsc::unbounded_channel;

fn config(name: &str) -> TrackerConfig {
    TrackerConfig::with_name(name.to_string())
}

#[test]
fn register_same_id_twice_keeps_one_tracker() {
    let mut main = MainServer::new();
    let (tx, mut rx) = unbounded_channel();
    main.message_channels.add(tx);
    let a = main.register_tracker("left-foot".to_string(), config("a"));
    let b = main.register_tracker("left-foot".to_string(), config("b"));
    assert_eq!(a, 0);
    assert_eq!(a, b);
    assert_eq!(main.trackers.len(), 1);
    assert_eq!(main.trackers[0].config.name, "a");
    match rx.try_recv().unwrap() {
        ServerMessage::TrackerInfoUpdate(info) => {
            assert_eq!(info.index, 0);
            assert_eq!(info.id, "left-foot");
            assert_eq!(info.status, TrackerStatus::Healthy);
        }
        other => panic!("unexpected {:?}", other),
    }
    assert!(rx.try_recv().is_err());
}

#[test]
fn sequential_registrations_get_dense_indices() {
    let mut main = MainServer::new();
    let ids = ["a", "b", "c", "d", "e"];
    for (k, id) in ids.iter().enumerate() {
        assert_eq!(main.register_tracker(id.to_string(), config(id)), k);
    }
    assert_eq!(main.register_tracker("c".to_string(), config("c")), 2);
    for (k, id) in ids.iter().enumerate() {
        assert_eq!(main.trackers[k].info.index, k);
        assert_eq!(main.trackers[k].info.id, *id);
    }
}

#[test]
fn load_config_registers_each_entry() {
    let mut main = MainServer::new();
    main.register_tracker("x".to_string(), config("x"));
    main.load_config(vec![
        ("y".to_string(), config("y")),
        ("x".to_string(), config("again")),
        ("z".to_string(), config("z")),
    ]);
    assert_eq!(main.trackers.len(), 3);
    assert_eq!(main.find_tracker(&"y".to_string()), Some(1));
    assert_eq!(main.find_tracker(&"z".to_string()), Some(2));
    assert_eq!(main.find_tracker(&"w".to_string()), None);
}

#[test]
fn status_updates_always_broadcast_data_updates_never() {
    let mut main = MainServer::new();
    main.register_tracker("t".to_string(), config("t"));
    let (tx, mut rx) = unbounded_channel();
    main.message_channels.add(tx);
    main.update_tracker_status(0, TrackerStatus::Error);
    main.update_tracker_status(0, TrackerStatus::Error);
    let accel = Vec3Bits { x: 1, y: 2, z: 3 };
    let orient = QuatBits { x: 4, y: 5, z: 6, w: 7 };
    main.update_tracker_data(0, accel, orient);
    for _ in 0..2 {
        match rx.try_recv().unwrap() {
            ServerMessage::TrackerInfoUpdate(info) => assert_eq!(info.status, TrackerStatus::Error),
            other => panic!("unexpected {:?}", other),
        }
    }
    assert!(rx.try_recv().is_err());
    assert_eq!(main.trackers[0].data.acceleration, accel);
    assert_eq!(main.trackers[0].data.orientation, orient);
}

#[test]
fn tick_broadcasts_data_in_index_order() {
    let mut main = MainServer::new();
    main.register_tracker("p".to_string(), config("p"));
    main.register_tracker("q".to_string(), config("q"));
    let accel = Vec3Bits { x: 9, y: 9, z: 9 };
    main.update_tracker_data(1, accel, QuatBits { x: 0, y: 0, z: 0, w: 0x3f80_0000 });
    let (tx, mut rx) = unbounded_channel();
    main.message_channels.add(tx);
    main.tick(20);
    for k in 0..2usize {
        match rx.try_recv().unwrap() {
            ServerMessage::TrackerDataUpdate((index, data)) => {
                assert_eq!(index, k);
                assert_eq!(data, main.trackers[k].data);
            }
            other => panic!("unexpected {:?}", other),
        }
    }
    assert!(rx.try_recv().is_err());
}

#[test]
fn broadcast_prunes_one_dead_subscriber_per_call() {
    let mut main = MainServer::new();
    let (tx1, rx1) = unbounded_channel();
    let (tx2, rx2) = unbounded_channel();
    let (tx3, mut rx3) = unbounded_channel();
    main.message_channels.add(tx1);
    main.message_channels.add(tx2);
    main.message_channels.add(tx3);
    drop(rx1);
    drop(rx2);
    main.register_tracker("a".to_string(), config("a"));
    assert_eq!(main.message_channels.len(), 2);
    main.register_tracker("b".to_string(), config("b"));
    assert_eq!(main.message_channels.len(), 1);
    assert!(rx3.try_recv().is_ok());
    assert!(rx3.try_recv().is_ok());
}

#[test]
fn loop_sleeps_for_the_rest_of_the_period() {
    assert_eq!(loop_pause(5_000), Some(15_000));
    assert_eq!(loop_pause(0), Some(20_000));
}

#[test]
fn loop_overrun_does_not_sleep() {
    assert_eq!(loop_pause(20_000), None);
    assert_eq!(loop_pause(20_001), None);
    assert_eq!(loop_pause(45_000), None);
}

#[test]
fn snapshot_lists_every_tracker_in_order() {
    let mut main = MainServer::new();
    main.register_tracker("a".to_string(), config("a"));
    main.register_tracker("b".to_string(), config("b"));
    main.update_tracker_status(1, TrackerStatus::Off);
    let snap = main.snapshot();
    assert_eq!(snap.len(), 2);
    match (&snap[0], &snap[1]) {
        (ServerMessage::TrackerInfoUpdate(a), ServerMessage::TrackerInfoUpdate(b)) => {
            assert_eq!((a.index, a.id.as_str(), a.status), (0, "a", TrackerStatus::Healthy));
            assert_eq!((b.index, b.id.as_str(), b.status), (1, "b", TrackerStatus::Off));
        }
        other => panic!("unexpected {:?}", other),
    }
}

#[test]
fn tick_reaches_every_live_subscriber() {
    let mut main = MainServer::new();
    main.register_tracker("a".to_string(), config("a"));
    let (tx1, mut rx1) = unbounded_channel();
    let (tx2, mut rx2) = unbounded_channel();
    main.message_channels.add(tx1);
    main.message_channels.add(tx2);
    main.tick(20);
    for rx in [&mut rx1, &mut rx2] {
        assert!(matches!(rx.try_recv().unwrap(), ServerMessage::TrackerDataUpdate((0, _))));
        assert!(rx.try_recv().is_err());
    }
}
