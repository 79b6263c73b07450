use mycap::udp_packet::{next_equals, u32_parse, PACKET_TRACKER_STATUS};
use mycap::{
    PeerAddr, TrackerStatus, UdpDevice, UdpPacket, UdpPacketHandshake, UdpPacketTrackerData,
    UdpPacketTrackerStatus,
};

fn handshake_bytes(mac: [u8; 6]) -> Vec<u8> {
    let mut b = vec![1u8];
    b.extend_from_slice(b"MYCAP-DEVICE");
    b.extend_from_slice(&mac);
    b
}

fn device(last: u32) -> UdpDevice {
    let mut d = UdpDevice::new(0, PeerAddr { ip: 0x7f00_0001, port: 9000 }, "00:11:22:33:44:55".to_string(), 10);
    d.last_packet_number = last;
    d
}

fn header(tag: u8, number: u32) -> Vec<u8> {
    let mut b = vec![tag];
    b.extend_from_slice(&number.to_le_bytes());
    b
}

#[test]
fn u32_is_little_endian() {
    assert_eq!(u32_parse(&[0x78, 0x56, 0x34, 0x12], 0), Some(0x1234_5678));
    assert_eq!(u32_parse(&[9, 1, 0, 0, 0], 1), Some(1));
    assert_eq!(u32_parse(&[1, 2, 3], 0), None);
    assert_eq!(u32_parse(&[1, 2, 3, 4], 1), None);
}

#[test]
fn next_equals_compares_a_prefix() {
    assert!(next_equals(b"xMYCAP", 1, b"MYC"));
    assert!(!next_equals(b"xMYCAP", 1, b"MYX"));
    assert!(!next_equals(b"xMY", 1, b"MYC"));
}

#[test]
fn handshake_mac_is_lowercase_hex() {
    let b = handshake_bytes([0xde, 0xad, 0xBE, 0x0f, 0x00, 0xa1]);
    let h = UdpPacketHandshake::from_bytes(&b, 1).unwrap();
    assert_eq!(h.mac_string, "de:ad:be:0f:00:a1");
}

#[test]
fn handshake_with_bad_magic_or_short_mac_fails() {
    let mut b = handshake_bytes([1, 2, 3, 4, 5, 6]);
    b[3] = b'X';
    assert!(UdpPacketHandshake::from_bytes(&b, 1).is_none());
    let b = handshake_bytes([1, 2, 3, 4, 5, 6]);
    assert!(UdpPacketHandshake::from_bytes(&b[..b.len() - 1], 1).is_none());
}

#[test]
fn handshake_response_is_fixed() {
    assert_eq!(UdpPacketHandshake::response(), b"\x01MYCAP-SERVER".to_vec());
}

#[test]
fn status_codes_decode() {
    let p = UdpPacketTrackerStatus::from_bytes(&[4, 1], 0).unwrap();
    assert_eq!(p.tracker_index, 4);
    assert_eq!(p.tracker_status, TrackerStatus::Error);
    assert_eq!(UdpPacketTrackerStatus::from_bytes(&[4, 2], 0).unwrap().tracker_status, TrackerStatus::Off);
    assert!(UdpPacketTrackerStatus::from_bytes(&[4, 3], 0).is_none());
    assert!(UdpPacketTrackerStatus::from_bytes(&[4], 0).is_none());
}

#[test]
fn status_reply_round_trips() {
    for status in [TrackerStatus::Healthy, TrackerStatus::Error, TrackerStatus::Off] {
        let p = UdpPacketTrackerStatus { tracker_index: 7, tracker_status: status };
        let bytes = p.to_bytes();
        assert_eq!(bytes[0], PACKET_TRACKER_STATUS);
        assert_eq!(UdpPacketTrackerStatus::from_bytes(&bytes, 1), Some(p));
    }
    let p = UdpPacketTrackerStatus { tracker_index: 200, tracker_status: TrackerStatus::Off };
    assert_eq!(p.to_bytes(), [2, 200, 2]);
}

fn record(local: u8, e: [f32; 3], a: [f32; 3]) -> Vec<u8> {
    let mut b = vec![local];
    for v in e.iter().chain(a.iter()) {
        b.extend_from_slice(&v.to_le_bytes());
    }
    b
}

#[test]
fn tracker_data_yields_each_record_then_stops() {
    let mut b = vec![2u8];
    b.extend(record(3, [0.0, 0.5, 1.0], [0.0, 0.0, 9.8]));
    b.extend(record(5, [1.5, 0.0, 0.0], [1.0, 2.0, 3.0]));
    b.extend(record(6, [0.0, 0.0, 0.0], [0.0, 0.0, 0.0]));
    let mut data = UdpPacketTrackerData::from_bytes(&b, 0).unwrap();
    assert_eq!(data.num_trackers, 2);
    let r = data.next().unwrap();
    assert_eq!(r.tracker_index, 3);
    assert_eq!(r.euler.y, 0.5f32.to_bits());
    assert_eq!(r.acceleration.z, 9.8f32.to_bits());
    let r = data.next().unwrap();
    assert_eq!(r.tracker_index, 5);
    assert_eq!(r.acceleration.y, 2.0f32.to_bits());
    assert!(data.next().is_none());
    assert!(data.next().is_none());
}

#[test]
fn truncated_record_ends_the_records() {
    let mut b = vec![1u8];
    b.extend(record(1, [0.0; 3], [0.0; 3]));
    b.pop();
    let mut data = UdpPacketTrackerData::from_bytes(&b, 0).unwrap();
    assert!(data.next().is_none());
    assert!(UdpPacketTrackerData::from_bytes(&[], 0).is_none());
}

#[test]
fn parse_heartbeat_and_unknown_tag() {
    let mut devices = vec![device(3)];
    assert!(matches!(UdpPacket::parse(&header(0, 4), &mut devices, Some(0), 50), Some(UdpPacket::Heartbeat)));
    assert_eq!(devices[0].last_packet_number, 4);
    assert_eq!(devices[0].last_packet_received_time, 50);
    assert!(UdpPacket::parse(&header(9, 5), &mut devices, Some(0), 60).is_none());
    assert_eq!(devices[0].last_packet_number, 5);
    assert!(UdpPacket::parse(&[], &mut devices, Some(0), 70).is_none());
    assert!(UdpPacket::parse(&[0, 1, 2], &mut devices, Some(0), 70).is_none());
    assert_eq!(devices[0].last_packet_number, 5);
    assert_eq!(devices[0].last_packet_received_time, 60);
}

#[test]
fn replayed_sequence_number_is_dropped() {
    let mut devices = vec![device(7)];
    let mut b = header(2, 7);
    b.extend_from_slice(&[0, 1]);
    assert!(UdpPacket::parse(&b, &mut devices, Some(0), 99).is_none());
    let mut b = header(2, 3);
    b.extend_from_slice(&[0, 1]);
    assert!(UdpPacket::parse(&b, &mut devices, Some(0), 99).is_none());
    assert_eq!(devices[0].last_packet_number, 7);
    assert_eq!(devices[0].last_packet_received_time, 10);
    let mut b = header(2, 8);
    b.extend_from_slice(&[0, 1]);
    match UdpPacket::parse(&b, &mut devices, Some(0), 99) {
        Some(UdpPacket::TrackerStatus(p)) => assert_eq!(p.tracker_status, TrackerStatus::Error),
        other => panic!("unexpected {:?}", other),
    }
    assert_eq!(devices[0].last_packet_number, 8);
}

#[test]
fn bookkeeping_survives_payload_failure() {
    let mut devices = vec![device(1)];
    let mut b = header(2, 2);
    b.extend_from_slice(&[0, 9]);
    assert!(UdpPacket::parse(&b, &mut devices, Some(0), 40).is_none());
    assert_eq!(devices[0].last_packet_number, 2);
    assert_eq!(devices[0].last_packet_received_time, 40);
}

#[test]
fn status_and_data_need_a_known_device() {
    let mut devices: Vec<UdpDevice> = Vec::new();
    let mut b = header(2, 1);
    b.extend_from_slice(&[0, 0]);
    assert!(UdpPacket::parse(&b, &mut devices, None, 1).is_none());
    let mut b = header(3, 1);
    b.push(0);
    assert!(UdpPacket::parse(&b, &mut devices, None, 1).is_none());
    let h = handshake_bytes([1, 2, 3, 4, 5, 6]);
    match UdpPacket::parse(&h, &mut devices, None, 1) {
        Some(UdpPacket::Handshake(p)) => assert_eq!(p.mac_string, "01:02:03:04:05:06"),
        other => panic!("unexpected {:?}", other),
    }
}

#[test]
fn handshake_from_known_device_keeps_watermark() {
    let mut devices = vec![device(12)];
    let h = handshake_bytes([1, 2, 3, 4, 5, 6]);
    assert!(UdpPacket::parse(&h, &mut devices, Some(0), 77).is_some());
    assert_eq!(devices[0].last_packet_number, 12);
    assert_eq!(devices[0].last_packet_received_time, 77);
}
