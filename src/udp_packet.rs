use vstd::prelude::*;

use crate::text::{ascii_chars, mac_string, mac_text};
use crate::tracker::{TrackerStatus, Vec3Bits};
use crate::udp_server::UdpDevice;

verus! {

pub const PACKET_HEARTBEAT: u8 = 0x00;
pub const PACKET_HANDSHAKE: u8 = 0x01;
pub const PACKET_TRACKER_STATUS: u8 = 0x02;
pub const PACKET_TRACKER_DATA: u8 = 0x03;

/// Bytes of one record of a tracker data packet: local index, three angles, three components.
pub const RECORD_LEN: usize = 25;

/// The little-endian `u32` held in `b[pos..pos + 4]`.
pub open spec fn le_u32(b: Seq<u8>, pos: int) -> u32 {
    (b[pos] + b[pos + 1] * 256 + b[pos + 2] * 65536 + b[pos + 3] * 16777216) as u32
}

/// `MYCAP-DEVICE`, which opens a handshake payload.
pub open spec fn device_magic() -> Seq<u8> {
    seq![77u8, 89, 67, 65, 80, 45, 68, 69, 86, 73, 67, 69]
}

/// The handshake reply: the handshake tag followed by `MYCAP-SERVER`.
pub open spec fn server_response() -> Seq<u8> {
    seq![1u8, 77, 89, 67, 65, 80, 45, 83, 69, 82, 86, 69, 82]
}

/// Wire code of a status.
pub open spec fn status_code(s: TrackerStatus) -> u8 {
    match s {
        TrackerStatus::Healthy => 0,
        TrackerStatus::Error => 1,
        TrackerStatus::Off => 2,
        TrackerStatus::TimedOut => 3,
    }
}

/// The status a device may report with wire code `c`.
pub open spec fn status_of_code(c: u8) -> Option<TrackerStatus> {
    if c == 0 {
        Some(TrackerStatus::Healthy)
    } else if c == 1 {
        Some(TrackerStatus::Error)
    } else if c == 2 {
        Some(TrackerStatus::Off)
    } else {
        None
    }
}

/// Reads the little-endian `u32` at `bytes[pos..pos + 4]`, if the bytes are there.
pub fn u32_parse(bytes: &[u8], pos: usize) -> (r: Option<u32>)
    ensures
        r is Some <==> pos + 4 <= bytes@.len(),
        r matches Some(v) ==> v == le_u32(bytes@, pos as int),
{
    if pos > bytes.len() || bytes.len() - pos < 4 {
        return None;
    }
    let b0 = bytes[pos] as u32;
    let b1 = bytes[pos + 1] as u32;
    let b2 = bytes[pos + 2] as u32;
    let b3 = bytes[pos + 3] as u32;
    Some(b0 + b1 * 256 + b2 * 65536 + b3 * 16777216)
}

/// Whether `bytes[pos..]` starts with `expected`.
pub fn next_equals(bytes: &[u8], pos: usize, expected: &[u8]) -> (r: bool)
    ensures
        r == (pos + expected@.len() <= bytes@.len()
            && bytes@.subrange(pos as int, pos + expected@.len()) == expected@),
{
    if pos > bytes.len() || bytes.len() - pos < expected.len() {
        return false;
    }
    let n = bytes.len();
    let mut i: usize = 0;
    while i < expected.len()
        invariant
            n == bytes@.len(),
            pos + expected@.len() <= bytes@.len(),
            i <= expected@.len(),
            forall|j: int| 0 <= j < i ==> bytes@[pos + j] == expected@[j],
        decreases expected@.len() - i,
    {
        if bytes[pos + i] != expected[i] {
            assert(bytes@.subrange(pos as int, pos + expected@.len())[i as int] != expected@[i as int]);
            return false;
        }
        i = i + 1;
    }
    assert(bytes@.subrange(pos as int, pos + expected@.len()) =~= expected@);
    true
}

/// The bytes that open a handshake payload.
pub fn handshake_magic() -> (r: Vec<u8>)
    ensures
        r@ == device_magic(),
{
    let r: Vec<u8> = vec![77u8, 89, 67, 65, 80, 45, 68, 69, 86, 73, 67, 69];
    assert(r@ =~= device_magic());
    r
}

/// A handshake: the device introduces itself with its MAC address.
#[derive(Debug)]
pub struct UdpPacketHandshake {
    pub mac_string: String,
}

/// The MAC text a handshake payload at `pos` carries, if it is one.
pub open spec fn handshake_mac(b: Seq<u8>, pos: int) -> Option<Seq<char>> {
    if pos + 18 <= b.len() && b.subrange(pos, pos + 12) == device_magic() {
        Some(ascii_chars(mac_text(b.subrange(pos + 12, pos + 18))))
    } else {
        None
    }
}

impl UdpPacketHandshake {
    /// Decodes `MYCAP-DEVICE` followed by six MAC bytes at `bytes[pos..]`.
    pub fn from_bytes(bytes: &[u8], pos: usize) -> (r: Option<UdpPacketHandshake>)
        requires
            pos <= bytes@.len(),
        ensures
            r is Some <==> handshake_mac(bytes@, pos as int) is Some,
            r matches Some(h) ==> handshake_mac(bytes@, pos as int) == Some(h.mac_string@),
    {
        let magic = handshake_magic();
        if !next_equals(bytes, pos, magic.as_slice()) {
            return None;
        }
        if bytes.len() - pos < 18 {
            return None;
        }
        Some(UdpPacketHandshake { mac_string: mac_string(bytes, pos + 12) })
    }

    /// The fixed reply to a handshake.
    pub fn response() -> (r: Vec<u8>)
        ensures
            r@ == server_response(),
    {
        let r: Vec<u8> = vec![1u8, 77, 89, 67, 65, 80, 45, 83, 69, 82, 86, 69, 82];
        assert(r@ =~= server_response());
        r
    }
}

/// A device reports the status of one of its trackers.
#[derive(Debug, Clone, Copy, PartialEq, Eq, Structural)]
pub struct UdpPacketTrackerStatus {
    pub tracker_index: u8,
    pub tracker_status: TrackerStatus,
}

/// The status report a payload at `pos` carries, if it is one.
pub open spec fn status_decoded(b: Seq<u8>, pos: int) -> Option<UdpPacketTrackerStatus> {
    if pos + 2 <= b.len() {
        match status_of_code(b[pos + 1]) {
            Some(s) => Some(UdpPacketTrackerStatus { tracker_index: b[pos], tracker_status: s }),
            None => None,
        }
    } else {
        None
    }
}

/// The acknowledgement bytes of a status report.
pub open spec fn status_bytes(p: UdpPacketTrackerStatus) -> Seq<u8> {
    seq![PACKET_TRACKER_STATUS, p.tracker_index, status_code(p.tracker_status)]
}

impl UdpPacketTrackerStatus {
    /// Decodes a local tracker index and a status code at `bytes[pos..]`.
    pub fn from_bytes(bytes: &[u8], pos: usize) -> (r: Option<UdpPacketTrackerStatus>)
        requires
            pos <= bytes@.len(),
        ensures
            r == status_decoded(bytes@, pos as int),
    {
        if bytes.len() - pos < 2 {
            return None;
        }
        let tracker_status = match bytes[pos + 1] {
            0 => TrackerStatus::Healthy,
            1 => TrackerStatus::Error,
            2 => TrackerStatus::Off,
            _ => return None,
        };
        Some(UdpPacketTrackerStatus { tracker_index: bytes[pos], tracker_status })
    }

    /// The bytes that acknowledge this report: the status tag, the local index, the status code.
    pub fn to_bytes(&self) -> (r: [u8; 3])
        ensures
            r@ == status_bytes(*self),
    {
        let code: u8 = match self.tracker_status {
            TrackerStatus::Healthy => 0,
            TrackerStatus::Error => 1,
            TrackerStatus::Off => 2,
            TrackerStatus::TimedOut => 3,
        };
        let r = [PACKET_TRACKER_STATUS, self.tracker_index, code];
        assert(r@ =~= status_bytes(*self));
        r
    }
}

/// Encoding a status report and decoding the payload after its tag gives the report back, for
/// every status a device can send.
pub proof fn lemma_status_round_trip(p: UdpPacketTrackerStatus)
    requires
        p.tracker_status != TrackerStatus::TimedOut,
    ensures
        status_decoded(status_bytes(p), 1) == Some(p),
{
}

/// One record of a tracker data packet. The angles (Euler, XYZ order, radians) and the
/// acceleration are single-precision values held as their bit patterns.
#[derive(Debug, Clone, Copy, PartialEq, Eq, Structural)]
pub struct UdpTrackerData {
    pub tracker_index: u8,
    pub euler: Vec3Bits,
    pub acceleration: Vec3Bits,
}

/// The record held in `b[pos..pos + RECORD_LEN]`.
pub open spec fn record_at(b: Seq<u8>, pos: int) -> UdpTrackerData {
    UdpTrackerData {
        tracker_index: b[pos],
        euler: Vec3Bits { x: le_u32(b, pos + 1), y: le_u32(b, pos + 5), z: le_u32(b, pos + 9) },
        acceleration: Vec3Bits { x: le_u32(b, pos + 13), y: le_u32(b, pos + 17), z: le_u32(b, pos + 21) },
    }
}

/// The records of a tracker data packet, handed out one at a time. `bytes` holds what follows
/// the record count; `pos` is where the next record starts.
#[derive(Debug)]
pub struct UdpPacketTrackerData {
    pub num_trackers: usize,
    pub current_tracker_index: usize,
    pub bytes: Vec<u8>,
    pub pos: usize,
}

/// Copy of `bytes[from..]`.
fn copy_tail(bytes: &[u8], from: usize) -> (r: Vec<u8>)
    requires
        from <= bytes@.len(),
    ensures
        r@ == bytes@.subrange(from as int, bytes@.len() as int),
{
    let mut r: Vec<u8> = Vec::new();
    let mut i: usize = from;
    while i < bytes.len()
        invariant
            from <= i <= bytes@.len(),
            r@ == bytes@.subrange(from as int, i as int),
        decreases bytes@.len() - i,
    {
        r.push(bytes[i]);
        i = i + 1;
        assert(r@ =~= bytes@.subrange(from as int, i as int));
    }
    r
}

impl UdpPacketTrackerData {
    /// Reads the record count at `bytes[pos]` and takes the records that follow.
    pub fn from_bytes(bytes: &[u8], pos: usize) -> (r: Option<UdpPacketTrackerData>)
        requires
            pos <= bytes@.len(),
        ensures
            r is Some <==> pos < bytes@.len(),
            r matches Some(d) ==> {
                &&& d.num_trackers == bytes@[pos as int]
                &&& d.current_tracker_index == 0
                &&& d.pos == 0
                &&& d.bytes@ == bytes@.subrange(pos + 1, bytes@.len() as int)
            },
    {
        if pos >= bytes.len() {
            return None;
        }
        Some(UdpPacketTrackerData {
            num_trackers: bytes[pos] as usize,
            current_tracker_index: 0,
            bytes: copy_tail(bytes, pos + 1),
            pos: 0,
        })
    }

    /// The next record, while fewer than `num_trackers` were handed out and a whole record remains.
    pub fn next(&mut self) -> (r: Option<UdpTrackerData>)
        ensures
            ({
                let more = old(self).current_tracker_index < old(self).num_trackers
                    && old(self).pos + RECORD_LEN <= old(self).bytes@.len();
                &&& r is Some <==> more
                &&& !more ==> *final(self) == *old(self)
                &&& more ==> {
                    &&& r == Some(record_at(old(self).bytes@, old(self).pos as int))
                    &&& final(self).pos == old(self).pos + RECORD_LEN
                    &&& final(self).current_tracker_index == old(self).current_tracker_index + 1
                    &&& final(self).num_trackers == old(self).num_trackers
                    &&& final(self).bytes == old(self).bytes
                }
            }),
    {
        if self.current_tracker_index >= self.num_trackers {
            return None;
        }
        if self.pos > self.bytes.len() || self.bytes.len() - self.pos < RECORD_LEN {
            return None;
        }
        let b = self.bytes.as_slice();
        let p = self.pos;
        let ex = u32_parse(b, p + 1).unwrap();
        let ey = u32_parse(b, p + 5).unwrap();
        let ez = u32_parse(b, p + 9).unwrap();
        let ax = u32_parse(b, p + 13).unwrap();
        let ay = u32_parse(b, p + 17).unwrap();
        let az = u32_parse(b, p + 21).unwrap();
        let record = UdpTrackerData {
            tracker_index: b[p],
            euler: Vec3Bits { x: ex, y: ey, z: ez },
            acceleration: Vec3Bits { x: ax, y: ay, z: az },
        };
        self.pos = p + RECORD_LEN;
        self.current_tracker_index = self.current_tracker_index + 1;
        Some(record)
    }
}

/// A decoded datagram.
#[derive(Debug)]
pub enum UdpPacket {
    Handshake(UdpPacketHandshake),
    TrackerData(UdpPacketTrackerData),
    TrackerStatus(UdpPacketTrackerStatus),
    Heartbeat,
}

/// Tag, sequence number and payload start of a datagram. A handshake carries no sequence number.
pub open spec fn header(b: Seq<u8>) -> Option<(u8, u32, int)> {
    if b.len() == 0 {
        None
    } else if b[0] == PACKET_HANDSHAKE {
        Some((b[0], 0u32, 1int))
    } else if b.len() >= 5 {
        Some((b[0], le_u32(b, 1), 5int))
    } else {
        None
    }
}

/// Whether a device whose watermark is `last` accepts a packet with this tag and number.
pub open spec fn in_sequence(tag: u8, number: u32, last: u32) -> bool {
    tag == PACKET_HANDSHAKE || number > last
}

/// The device record after it accepted a packet with this tag and number at time `now`.
/// A handshake refreshes the time and leaves the watermark alone.
pub open spec fn after_packet(d: UdpDevice, tag: u8, number: u32, now: u64) -> UdpDevice {
    if tag == PACKET_HANDSHAKE {
        UdpDevice { last_packet_received_time: now, ..d }
    } else {
        UdpDevice { last_packet_received_time: now, last_packet_number: number, ..d }
    }
}

/// What decoding `b` yields once the header was read and accepted; `known` says whether the
/// sender is a known device.
pub open spec fn payload_decodes(b: Seq<u8>, tag: u8, start: int, known: bool, r: Option<UdpPacket>) -> bool {
    if tag == PACKET_HEARTBEAT {
        r matches Some(UdpPacket::Heartbeat)
    } else if tag == PACKET_HANDSHAKE {
        match handshake_mac(b, start) {
            Some(mac) => r matches Some(UdpPacket::Handshake(h)) && h.mac_string@ == mac,
            None => r is None,
        }
    } else if tag == PACKET_TRACKER_STATUS {
        if known {
            match status_decoded(b, start) {
                Some(p) => r == Some(UdpPacket::TrackerStatus(p)),
                None => r is None,
            }
        } else {
            r is None
        }
    } else if tag == PACKET_TRACKER_DATA {
        if known && start < b.len() {
            r matches Some(UdpPacket::TrackerData(d)) && d.num_trackers == b[start]
                && d.current_tracker_index == 0 && d.pos == 0
                && d.bytes@ == b.subrange(start + 1, b.len() as int)
        } else {
            r is None
        }
    } else {
        r is None
    }
}

/// What `UdpPacket::parse` does: decoding `b` from the device at `device` (none for an unknown
/// sender) at time `now` yields `r` and takes the device list `before` to `after`.
pub open spec fn parse_outcome(
    b: Seq<u8>,
    before: Seq<UdpDevice>,
    device: Option<usize>,
    now: u64,
    r: Option<UdpPacket>,
    after: Seq<UdpDevice>,
) -> bool {
    match header(b) {
        None => r is None && after == before,
        Some((tag, number, start)) => match device {
            None => after == before && payload_decodes(b, tag, start, false, r),
            Some(d) => if in_sequence(tag, number, before[d as int].last_packet_number) {
                &&& after == before.update(d as int, after_packet(before[d as int], tag, number, now))
                &&& payload_decodes(b, tag, start, true, r)
            } else {
                r is None && after == before
            },
        },
    }
}

/// A packet from a known device whose sequence number is at most the device's watermark decodes
/// to nothing and changes no device; the number right after the watermark is accepted and
/// becomes the new watermark.
pub proof fn lemma_watermark(
    b: Seq<u8>,
    before: Seq<UdpDevice>,
    d: usize,
    now: u64,
    r: Option<UdpPacket>,
    after: Seq<UdpDevice>,
)
    requires
        d < before.len(),
        parse_outcome(b, before, Some(d), now, r, after),
        header(b) is Some,
        header(b).unwrap().0 != PACKET_HANDSHAKE,
    ensures
        header(b).unwrap().1 <= before[d as int].last_packet_number ==> r is None && after == before,
        header(b).unwrap().1 == before[d as int].last_packet_number + 1 ==> {
            &&& after[d as int].last_packet_number == before[d as int].last_packet_number + 1
            &&& after[d as int].last_packet_received_time == now
        },
{
}

impl UdpPacket {
    /// Decodes a datagram from the device at `device` in `devices` (none for an unknown sender).
    /// Once tag and sequence number are read and in sequence, the device's watermark and time are
    /// updated, before the payload is decoded; a packet out of sequence changes nothing.
    pub fn parse(bytes: &[u8], devices: &mut Vec<UdpDevice>, device: Option<usize>, now: u64) -> (r: Option<UdpPacket>)
        requires
            device matches Some(d) ==> d < old(devices)@.len(),
        ensures
            parse_outcome(bytes@, old(devices)@, device, now, r, final(devices)@),
    {
        if bytes.len() == 0 {
            return None;
        }
        let packet_type = bytes[0];
        let packet_number: u32 = if packet_type == PACKET_HANDSHAKE {
            0
        } else {
            match u32_parse(bytes, 1) {
                Some(n) => n,
                None => return None,
            }
        };
        let start: usize = if packet_type == PACKET_HANDSHAKE { 1 } else { 5 };
        match device {
            Some(d) => {
                if packet_type != PACKET_HANDSHAKE && packet_number <= devices[d].last_packet_number {
                    return None;
                }
                let mut dev = devices.remove(d);
                if packet_type != PACKET_HANDSHAKE {
                    dev.last_packet_number = packet_number;
                }
                dev.last_packet_received_time = now;
                devices.insert(d, dev);
                assert(devices@ =~= old(devices)@.update(
                    d as int,
                    after_packet(old(devices)@[d as int], packet_type, packet_number, now),
                ));
            },
            None => {},
        }
        let known = device.is_some();
        if packet_type == PACKET_HEARTBEAT {
            Some(UdpPacket::Heartbeat)
        } else if packet_type == PACKET_HANDSHAKE {
            match UdpPacketHandshake::from_bytes(bytes, start) {
                Some(h) => Some(UdpPacket::Handshake(h)),
                None => None,
            }
        } else if packet_type == PACKET_TRACKER_STATUS {
            if !known {
                return None;
            }
            match UdpPacketTrackerStatus::from_bytes(bytes, start) {
                Some(p) => Some(UdpPacket::TrackerStatus(p)),
                None => None,
            }
        } else if packet_type == PACKET_TRACKER_DATA {
            if !known {
                return None;
            }
            match UdpPacketTrackerData::from_bytes(bytes, start) {
                Some(p) => Some(UdpPacket::TrackerData(p)),
                None => None,
            }
        } else {
            None
        }
    }
}

} // verus!
