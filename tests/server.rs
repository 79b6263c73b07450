use glam::{EulerRot, Quat};
use mycap::{
    factory_reset_command, wifi_command, CommandError, MainServer, PacketAction, PeerAddr, QuatBits,
    ServerMessage, TrackerConfig, TrackerStatus, UdpPacketHandshake, UdpServer, Vec3Bits,
};
use tokio::sync::mpsc::unbounded_channel;

const X: PeerAddr = PeerAddr { ip: 0xc0a8_0105, port: 5828 };
const Y: PeerAddr = PeerAddr { ip: 0xc0a8_0106, port: 6000 };
const MAC: [u8; 6] = [0x10, 0x20, 0x30, 0xab, 0xcd, 0xef];
const MAC_TEXT: &str = "10:20:30:ab:cd:ef";

fn handshake(mac: [u8; 6]) -> Vec<u8> {
    let mut b = vec![1u8];
    b.extend_from_slice(b"MYCAP-DEVICE");
    b.extend_from_slice(&mac);
    b
}

fn header(tag: u8, number: u32) -> Vec<u8> {
    let mut b = vec![tag];
    b.extend_from_slice(&number.to_le_bytes());
    b
}

fn orientation_of(e: Vec3Bits) -> QuatBits {
    let q = Quat::from_euler(EulerRot::XYZ, f32::from_bits(e.x), f32::from_bits(e.y), f32::from_bits(e.z));
    QuatBits { x: q.x.to_bits(), y: q.y.to_bits(), z: q.z.to_bits(), w: q.w.to_bits() }
}

/// Handles a datagram as the transport does; returns what would be sent back.
fn receive(server: &mut UdpServer, main: &mut MainServer, bytes: &[u8], peer: PeerAddr, now: u64) -> Option<Vec<u8>> {
    match server.handle_packet(bytes, peer, now) {
        PacketAction::Nothing => None,
        PacketAction::Handshake(h) => {
            server.handle_handshake(h, peer, now);
            Some(UdpPacketHandshake::response())
        }
        PacketAction::Status(device, status) => {
            server.apply_tracker_status(device, status, main);
            Some(status.to_bytes().to_vec())
        }
        PacketAction::Records(device, mut data) => {
            while let Some(record) = data.next() {
                server.apply_tracker_record(device, record.tracker_index, orientation_of(record.euler), record.acceleration, main);
            }
            None
        }
    }
}

fn connected() -> (UdpServer, MainServer) {
    let mut server = UdpServer::new(0);
    let mut main = MainServer::new();
    receive(&mut server, &mut main, &handshake(MAC), X, 0);
    (server, main)
}

#[test]
fn handshake_creates_one_device_and_replies() {
    let mut server = UdpServer::new(0);
    let mut main = MainServer::new();
    assert_eq!(receive(&mut server, &mut main, &handshake(MAC), X, 5), Some(b"\x01MYCAP-SERVER".to_vec()));
    assert_eq!(server.device_count(), 1);
    assert_eq!(server.device_at(X), Some(0));
    assert_eq!(server.device_with_mac(&MAC_TEXT.to_string()), Some(0));
    assert_eq!(server.devices[0].mac, MAC_TEXT);
    assert_eq!(server.devices[0].last_packet_received_time, 5);
    assert!(main.trackers.is_empty());
    receive(&mut server, &mut main, &handshake(MAC), X, 6);
    assert_eq!(server.device_count(), 1);
}

#[test]
fn handshake_from_new_address_migrates_device() {
    let (mut server, mut main) = connected();
    receive(&mut server, &mut main, &handshake(MAC), Y, 9);
    assert_eq!(server.device_count(), 1);
    assert_eq!(server.device_at(Y), Some(0));
    assert_eq!(server.device_at(X), None);
    receive(&mut server, &mut main, &handshake([9, 9, 9, 9, 9, 9]), X, 9);
    assert_eq!(server.device_at(X), Some(1));
    assert_eq!(server.devices[1].index, 1);
}

#[test]
fn tracker_data_creates_tracker_and_tick_reports_it() {
    let (mut server, mut main) = connected();
    let mut b = header(3, 1);
    b.push(1);
    b.push(3);
    for v in [0.0f32, 0.0, 0.0, 0.0, 0.0, 9.8] {
        b.extend_from_slice(&v.to_le_bytes());
    }
    match server.handle_packet(&b, X, 10) {
        PacketAction::Records(0, mut data) => {
            assert_eq!(data.num_trackers, 1);
            while let Some(r) = data.next() {
                server.apply_tracker_record(0, r.tracker_index, orientation_of(r.euler), r.acceleration, &mut main);
            }
        }
        other => panic!("unexpected {:?}", other),
    }
    let id = format!("{}/3", MAC_TEXT);
    let index = main.find_tracker(&id).unwrap();
    let tracker = &main.trackers[index];
    assert_eq!(tracker.info.status, TrackerStatus::Healthy);
    assert_eq!(tracker.config.name, "UDP Tracker 192.168.1.5:5828");
    let q = tracker.data.orientation;
    assert_eq!(
        Quat::from_xyzw(f32::from_bits(q.x), f32::from_bits(q.y), f32::from_bits(q.z), f32::from_bits(q.w)),
        Quat::IDENTITY
    );
    assert_eq!(tracker.data.acceleration, Vec3Bits { x: 0, y: 0, z: 9.8f32.to_bits() });
    assert_eq!(server.devices[0].last_packet_number, 1);

    let (tx, mut rx) = unbounded_channel();
    main.message_channels.add(tx);
    main.tick(20);
    match rx.try_recv().unwrap() {
        ServerMessage::TrackerDataUpdate((i, d)) => {
            assert_eq!(i, index);
            assert_eq!(d, main.trackers[index].data);
        }
        other => panic!("unexpected {:?}", other),
    }
}

#[test]
fn status_report_is_acknowledged_and_applied() {
    let (mut server, mut main) = connected();
    let mut b = header(2, 1);
    b.extend_from_slice(&[200, 2]);
    assert_eq!(receive(&mut server, &mut main, &b, X, 10), Some(vec![2, 200, 2]));
    let index = main.find_tracker(&format!("{}/200", MAC_TEXT)).unwrap();
    assert_eq!(main.trackers[index].info.status, TrackerStatus::Off);
    let mut b = header(2, 2);
    b.extend_from_slice(&[200, 0]);
    receive(&mut server, &mut main, &b, X, 11);
    assert_eq!(main.trackers.len(), 1);
    assert_eq!(main.trackers[index].info.status, TrackerStatus::Healthy);
}

#[test]
fn unknown_sender_packets_are_ignored() {
    let (mut server, mut main) = connected();
    let mut b = header(2, 1);
    b.extend_from_slice(&[0, 0]);
    assert!(matches!(server.handle_packet(&b, Y, 10), PacketAction::Nothing));
    assert_eq!(receive(&mut server, &mut main, &b, Y, 10), None);
    assert!(main.trackers.is_empty());
    assert!(matches!(server.handle_packet(&header(0, 1), X, 10), PacketAction::Nothing));
}

fn status_packet(number: u32, local: u8, code: u8) -> Vec<u8> {
    let mut b = header(2, number);
    b.extend_from_slice(&[local, code]);
    b
}

fn run_upkeep(server: &mut UdpServer, main: &mut MainServer, now: u64) -> Vec<PeerAddr> {
    let mut sent = Vec::new();
    for i in 0..server.device_count() {
        sent.push(server.upkeep_device(i, now, main));
    }
    server.finish_upkeep(now);
    sent
}

#[test]
fn silent_device_times_out_and_recovers() {
    let (mut server, mut main) = connected();
    receive(&mut server, &mut main, &status_packet(1, 0, 0), X, 100);
    let (tx, mut rx) = unbounded_channel();
    main.message_channels.add(tx);

    assert!(server.needs_upkeep(1001));
    assert!(!server.needs_upkeep(1000));
    assert_eq!(run_upkeep(&mut server, &mut main, 5100), vec![X]);
    assert_eq!(main.trackers[0].info.status, TrackerStatus::Healthy);
    assert!(rx.try_recv().is_err());

    run_upkeep(&mut server, &mut main, 5101);
    assert_eq!(main.trackers[0].info.status, TrackerStatus::TimedOut);
    assert!(server.devices[0].timed_out);
    match rx.try_recv().unwrap() {
        ServerMessage::TrackerInfoUpdate(info) => assert_eq!(info.status, TrackerStatus::TimedOut),
        other => panic!("unexpected {:?}", other),
    }
    assert!(rx.try_recv().is_err());
    run_upkeep(&mut server, &mut main, 6000);
    assert!(rx.try_recv().is_err());

    receive(&mut server, &mut main, &header(0, 2), X, 6100);
    run_upkeep(&mut server, &mut main, 6200);
    assert_eq!(main.trackers[0].info.status, TrackerStatus::Healthy);
    match rx.try_recv().unwrap() {
        ServerMessage::TrackerInfoUpdate(info) => assert_eq!(info.status, TrackerStatus::Healthy),
        other => panic!("unexpected {:?}", other),
    }
    assert!(rx.try_recv().is_err());
}

#[test]
fn error_status_survives_timeout_sweeps() {
    let (mut server, mut main) = connected();
    receive(&mut server, &mut main, &status_packet(1, 0, 1), X, 100);
    receive(&mut server, &mut main, &status_packet(2, 1, 0), X, 100);
    run_upkeep(&mut server, &mut main, 10_000);
    assert_eq!(main.trackers[0].info.status, TrackerStatus::Error);
    assert_eq!(main.trackers[1].info.status, TrackerStatus::TimedOut);
    receive(&mut server, &mut main, &header(0, 3), X, 10_001);
    run_upkeep(&mut server, &mut main, 10_002);
    assert_eq!(main.trackers[0].info.status, TrackerStatus::Error);
    assert_eq!(main.trackers[1].info.status, TrackerStatus::Healthy);
}

#[test]
fn preregistered_id_is_reused_by_device() {
    let (mut server, mut main) = connected();
    main.register_tracker(format!("{}/4", MAC_TEXT), TrackerConfig::with_name("mine".to_string()));
    receive(&mut server, &mut main, &status_packet(1, 4, 2), X, 10);
    assert_eq!(main.trackers.len(), 1);
    assert_eq!(main.trackers[0].config.name, "mine");
    assert_eq!(main.trackers[0].info.status, TrackerStatus::Off);
}

#[test]
fn wifi_command_frames_credentials() {
    let cmd = wifi_command(b"home", b"secret").unwrap();
    assert_eq!(cmd, b"Wifi\0home\0secret".to_vec());
    assert!(wifi_command(&[b'a'; 32], &[b'b'; 64]).is_ok());
}

#[test]
fn wifi_command_rejects_long_fields() {
    assert_eq!(wifi_command(&[b'a'; 33], b"x"), Err(CommandError::CredentialsTooLong));
    assert_eq!(wifi_command(b"x", &[b'b'; 65]), Err(CommandError::CredentialsTooLong));
    assert_eq!(CommandError::CredentialsTooLong.message(), "SSID or password too long");
}

#[test]
fn factory_reset_command_is_fixed() {
    assert_eq!(factory_reset_command(), b"FactoryReset".to_vec());
}

#[test]
fn migrated_device_owns_its_new_endpoint() {
    let (mut server, mut main) = connected();
    receive(&mut server, &mut main, &handshake([9, 9, 9, 9, 9, 9]), Y, 1);
    assert_eq!(server.device_at(Y), Some(1));
    receive(&mut server, &mut main, &handshake(MAC), Y, 2);
    assert_eq!(server.device_at(Y), Some(0));
    assert_eq!(server.device_at(X), None);
    assert_eq!(server.devices[0].address, Y);
}
