use vstd::prelude::*;
use vstd::string::StringExecFns;
use std::collections::HashMap;

use crate::main_server::{MainServer, ServerMessage};
use crate::udp_packet::{parse_outcome, UdpPacket, UdpPacketHandshake, UdpPacketTrackerData, UdpPacketTrackerStatus};
use crate::text::{all_ascii, ascii_chars, ascii_string, decimal, push_decimal};
use crate::tracker::{QuatBits, Tracker, TrackerConfig, TrackerData, TrackerInfo, TrackerStatus, Vec3Bits};

verus! {

broadcast use vstd::std_specs::hash::group_hash_axioms;

/// A device that stays silent longer than this many milliseconds is timed out.
pub const DEVICE_TIMEOUT_MILLIS: u64 = 5000;

/// Milliseconds between two upkeep passes.
pub const UPKEEP_INTERVAL_MILLIS: u64 = 1000;

/// An IPv4 endpoint: the address as a big-endian `u32` and the port.
#[derive(Clone, Copy, Debug, PartialEq, Eq, Structural)]
pub struct PeerAddr {
    pub ip: u32,
    pub port: u16,
}

/// An endpoint written as `a.b.c.d:port`.
pub open spec fn address_text(a: PeerAddr) -> Seq<u8> {
    decimal((a.ip / 16777216) as nat) + seq![46u8] + decimal(((a.ip / 65536) % 256) as nat) + seq![46u8]
        + decimal(((a.ip / 256) % 256) as nat) + seq![46u8] + decimal((a.ip % 256) as nat) + seq![58u8]
        + decimal(a.port as nat)
}

/// `UDP Tracker ` followed by the endpoint.
pub open spec fn tracker_name(a: PeerAddr) -> Seq<char> {
    ascii_chars(seq![85u8, 68, 80, 32, 84, 114, 97, 99, 107, 101, 114, 32] + address_text(a))
}

/// Id of the tracker with local index `local` on the device with MAC text `mac`: `{mac}/{local}`.
pub open spec fn tracker_id(mac: Seq<char>, local: u8) -> Seq<char> {
    mac + ascii_chars(seq![47u8] + decimal(local as nat))
}

/// Every local index the device has mapped names a tracker of the registry, whose id is the one
/// the device's MAC and that local index give.
pub open spec fn device_links(d: UdpDevice, trackers: Seq<Tracker>) -> bool {
    forall|l: int| 0 <= l < d.tracker_indexs@.len() ==> match #[trigger] d.tracker_indexs@[l] {
        Some(g) => g < trackers.len() && trackers[g as int].info.id@ == tracker_id(d.mac@, l as u8),
        None => true,
    }
}

/// How a timeout sweep moves a status: only `Healthy` and `TimedOut` change, into each other.
pub open spec fn timeout_step(s: TrackerStatus, timed_out: bool) -> TrackerStatus {
    if timed_out && s == TrackerStatus::Healthy {
        TrackerStatus::TimedOut
    } else if !timed_out && s == TrackerStatus::TimedOut {
        TrackerStatus::Healthy
    } else {
        s
    }
}

pub open spec fn with_status(t: Tracker, s: TrackerStatus) -> Tracker {
    Tracker { info: TrackerInfo { status: s, ..t.info }, ..t }
}

/// A table entry that maps to `g`.
pub open spec fn slot_is(e: Option<usize>, g: int) -> bool {
    e matches Some(x) && x == g
}

/// Some local index of `d` maps to `g`.
pub open spec fn maps_to(d: UdpDevice, g: int) -> bool {
    exists|l: int| 0 <= l < d.tracker_indexs@.len() && #[trigger] slot_is(d.tracker_indexs@[l], g)
}

/// The status a sweep moves a tracker into.
pub open spec fn sweep_target(timed_out: bool) -> TrackerStatus {
    if timed_out { TrackerStatus::TimedOut } else { TrackerStatus::Healthy }
}

/// A sweep flips tracker `g`: `d` maps it and its status in `before` is the one the sweep moves.
pub open spec fn flips(d: UdpDevice, before: Seq<Tracker>, g: int, timed_out: bool) -> bool {
    &&& 0 <= g < before.len()
    &&& maps_to(d, g)
    &&& timeout_step(before[g].info.status, timed_out) != before[g].info.status
}

/// The events appended after position `from` of `history` are exactly one info event for each
/// tracker the sweep flipped, carrying its info in `after`.
pub open spec fn timeout_events(
    history: Seq<ServerMessage>,
    from: int,
    d: UdpDevice,
    before: Seq<Tracker>,
    after: Seq<Tracker>,
    timed_out: bool,
) -> bool {
    &&& 0 <= from <= history.len()
    &&& forall|k: int| from <= k < history.len() ==> match #[trigger] history[k] {
        ServerMessage::TrackerInfoUpdate(info) => {
            &&& flips(d, before, info.index as int, timed_out)
            &&& info == after[info.index as int].info
            &&& info.status == sweep_target(timed_out)
        },
        _ => false,
    }
    &&& forall|k1: int, k2: int| from <= k1 < history.len() && from <= k2 < history.len() && k1 != k2
        ==> (#[trigger] history[k1]) != (#[trigger] history[k2])
    &&& forall|g: int| #[trigger] flips(d, before, g, timed_out) ==> exists|k: int| from <= k < history.len()
        && #[trigger] history[k] == ServerMessage::TrackerInfoUpdate(after[g].info)
}

/// A physical device that has completed a handshake.
#[derive(Debug)]
pub struct UdpDevice {
    pub index: usize,
    /// Milliseconds on the server's clock when the device's last accepted packet arrived.
    pub last_packet_received_time: u64,
    /// Highest sequence number accepted from the device.
    pub last_packet_number: u32,
    /// Global tracker index of each local tracker index the device has used.
    pub tracker_indexs: Vec<Option<usize>>,
    pub timed_out: bool,
    pub mac: String,
    pub address: PeerAddr,
}

/// Appends `a.b.c.d:port` to `out`.
fn push_address(out: &mut Vec<u8>, a: PeerAddr)
    requires
        all_ascii(old(out)@),
    ensures
        final(out)@ == old(out)@ + address_text(a),
        all_ascii(final(out)@),
{
    push_decimal(out, a.ip / 16777216);
    out.push(46);
    push_decimal(out, (a.ip / 65536) % 256);
    out.push(46);
    push_decimal(out, (a.ip / 256) % 256);
    out.push(46);
    push_decimal(out, a.ip % 256);
    out.push(58);
    push_decimal(out, a.port as u32);
    assert(out@ =~= old(out)@ + address_text(a));
}

impl UdpDevice {
    pub fn new(index: usize, address: PeerAddr, mac: String, now: u64) -> (r: UdpDevice)
        ensures
            r.index == index,
            r.address == address,
            r.mac == mac,
            r.last_packet_received_time == now,
            r.last_packet_number == 0,
            r.tracker_indexs@ == Seq::<Option<usize>>::empty(),
            !r.timed_out,
    {
        UdpDevice {
            tracker_indexs: Vec::new(),
            index,
            address,
            mac,
            last_packet_received_time: now,
            last_packet_number: 0,
            timed_out: false,
        }
    }

    /// Maps `local_index` to `global_index`, growing the table with unmapped entries as needed.
    pub fn set_global_tracker_index(&mut self, local_index: u8, global_index: usize)
        ensures
            final(self).tracker_indexs@.len() == if old(self).tracker_indexs@.len() > local_index {
                old(self).tracker_indexs@.len() as int
            } else {
                local_index + 1
            },
            final(self).tracker_indexs@[local_index as int] == Some(global_index),
            forall|l: int| 0 <= l < final(self).tracker_indexs@.len() && l != local_index ==>
                #[trigger] final(self).tracker_indexs@[l] == if l < old(self).tracker_indexs@.len() {
                    old(self).tracker_indexs@[l]
                } else {
                    None
                },
            *final(self) == (UdpDevice { tracker_indexs: final(self).tracker_indexs, ..*old(self) }),
    {
        while self.tracker_indexs.len() <= local_index as usize
            invariant
                *self == (UdpDevice { tracker_indexs: self.tracker_indexs, ..*old(self) }),
                old(self).tracker_indexs@.len() <= self.tracker_indexs@.len(),
                self.tracker_indexs@.len() <= if old(self).tracker_indexs@.len() > local_index {
                    old(self).tracker_indexs@.len() as int
                } else {
                    local_index + 1
                },
                forall|l: int| 0 <= l < self.tracker_indexs@.len() ==>
                    #[trigger] self.tracker_indexs@[l] == if l < old(self).tracker_indexs@.len() {
                        old(self).tracker_indexs@[l]
                    } else {
                        None
                    },
            decreases local_index + 1 - self.tracker_indexs@.len(),
        {
            self.tracker_indexs.push(None);
        }
        self.tracker_indexs.set(local_index as usize, Some(global_index));
    }

    /// The global index of tracker `local_index` of this device. The first time a local index is
    /// seen, a tracker `{mac}/{local_index}` named `UDP Tracker {address}` is registered for it.
    pub fn get_global_tracker_index(&mut self, main: &mut MainServer, local_index: u8) -> (r: usize)
        requires
            old(main).wf(),
            old(main).trackers@.len() < usize::MAX,
            device_links(*old(self), old(main).trackers@),
        ensures
            final(main).wf(),
            device_links(*final(self), final(main).trackers@),
            r < final(main).trackers@.len(),
            final(main).trackers@[r as int].info.id@ == tracker_id(old(self).mac@, local_index),
            local_index < final(self).tracker_indexs@.len(),
            final(self).tracker_indexs@[local_index as int] == Some(r),
            old(main).trackers@.len() <= final(main).trackers@.len() <= old(main).trackers@.len() + 1,
            forall|j: int| 0 <= j < old(main).trackers@.len() ==> #[trigger] final(main).trackers@[j] == old(main).trackers@[j],
            r < old(main).trackers@.len() ==> *final(main) == *old(main),
            r >= old(main).trackers@.len() ==> {
                &&& r == old(main).trackers@.len()
                &&& final(main).trackers@[r as int].info.index == r
                &&& final(main).trackers@[r as int].info.status == TrackerStatus::Healthy
                &&& final(main).message_channels.history@ == old(main).message_channels.history@.push(
                    ServerMessage::TrackerInfoUpdate(final(main).trackers@[r as int].info),
                )
            },
            *final(self) == (UdpDevice { tracker_indexs: final(self).tracker_indexs, ..*old(self) }),
            forall|l: int| 0 <= l < final(self).tracker_indexs@.len() && l != local_index ==>
                #[trigger] final(self).tracker_indexs@[l] == if l < old(self).tracker_indexs@.len() {
                    old(self).tracker_indexs@[l]
                } else {
                    None
                },
            local_index < old(self).tracker_indexs@.len() && old(self).tracker_indexs@[local_index as int] is Some ==> {
                &&& *final(self) == *old(self)
                &&& *final(main) == *old(main)
            },
            !(local_index < old(self).tracker_indexs@.len() && old(self).tracker_indexs@[local_index as int] is Some) ==>
                exists|id: String, config: TrackerConfig| {
                    &&& id@ == tracker_id(old(self).mac@, local_index)
                    &&& config.name@ == tracker_name(old(self).address)
                    &&& #[trigger] MainServer::register_outcome(*old(main), id, config, r, *final(main))
                },
    {
        if (local_index as usize) < self.tracker_indexs.len() {
            if let Some(index) = self.tracker_indexs[local_index as usize] {
                return index;
            }
        }
        let mut suffix: Vec<u8> = Vec::new();
        suffix.push(47);
        push_decimal(&mut suffix, local_index as u32);
        let mut id = self.mac.clone();
        let suffix = ascii_string(suffix);
        id.append(suffix.as_str());
        let mut name_bytes: Vec<u8> = vec![85u8, 68, 80, 32, 84, 114, 97, 99, 107, 101, 114, 32];
        assert(all_ascii(name_bytes@));
        let ghost prefix = name_bytes@;
        assert(prefix =~= seq![85u8, 68, 80, 32, 84, 114, 97, 99, 107, 101, 114, 32]);
        push_address(&mut name_bytes, self.address);
        let config = TrackerConfig::with_name(ascii_string(name_bytes));
        let ghost gid = id;
        let ghost gconfig = config;
        let ghost main_before = *main;
        let index = main.register_tracker(id, config);
        assert(MainServer::register_outcome(main_before, gid, gconfig, index, *main));
        assert(gid@ =~= tracker_id(old(self).mac@, local_index));
        self.set_global_tracker_index(local_index, index);
        proof {
            assert forall|l: int| 0 <= l < self.tracker_indexs@.len() implies match #[trigger] self.tracker_indexs@[l] {
                Some(g) => g < main.trackers@.len() && main.trackers@[g as int].info.id@ == tracker_id(self.mac@, l as u8),
                None => true,
            } by {
                if l != local_index && l < old(self).tracker_indexs@.len() {
                    assert(old(self).tracker_indexs@[l] == self.tracker_indexs@[l]);
                    if let Some(g) = self.tracker_indexs@[l] {
                        assert(main.trackers@[g as int] == main_before.trackers@[g as int]);
                    }
                }
            }
        }
        index
    }

    /// Marks the device timed out or back. On an actual change, each tracker the device maps moves
    /// from `Healthy` to `TimedOut` or back; trackers in another status are left alone.
    pub fn set_timed_out(&mut self, main: &mut MainServer, timed_out: bool)
        requires
            old(main).wf(),
            device_links(*old(self), old(main).trackers@),
        ensures
            final(main).wf(),
            *final(self) == (UdpDevice { timed_out, ..*old(self) }),
            final(main).trackers@.len() == old(main).trackers@.len(),
            forall|g: int| 0 <= g < old(main).trackers@.len() ==> #[trigger] final(main).trackers@[g] == if old(self).timed_out != timed_out && maps_to(*old(self), g) {
                with_status(old(main).trackers@[g], timeout_step(old(main).trackers@[g].info.status, timed_out))
            } else {
                old(main).trackers@[g]
            },
            old(main).message_channels.history@.is_prefix_of(final(main).message_channels.history@),
            old(self).timed_out == timed_out ==> *final(main) == *old(main),
            old(self).timed_out != timed_out ==> timeout_events(
                final(main).message_channels.history@,
                old(main).message_channels.history@.len() as int,
                *old(self),
                old(main).trackers@,
                final(main).trackers@,
                timed_out,
            ),
    {
        if timed_out == self.timed_out {
            return;
        }
        self.timed_out = timed_out;
        let ghost start = main.trackers@;
        let mut i: usize = 0;
        while i < self.tracker_indexs.len()
            invariant
                *self == (UdpDevice { timed_out, ..*old(self) }),
                main.wf(),
                i <= self.tracker_indexs@.len(),
                device_links(*old(self), start),
                main.trackers@.len() == start.len(),
                old(main).trackers@ == start,
                forall|g: int| 0 <= g < start.len() ==> #[trigger] main.trackers@[g] == if (exists|l: int| 0 <= l < i && #[trigger] slot_is(self.tracker_indexs@[l], g)) {
                    with_status(start[g], timeout_step(start[g].info.status, timed_out))
                } else {
                    start[g]
                },
                old(main).message_channels.history@.is_prefix_of(main.message_channels.history@),
                forall|k: int| old(main).message_channels.history@.len() <= k < main.message_channels.history@.len() ==> match #[trigger] main.message_channels.history@[k] {
                    ServerMessage::TrackerInfoUpdate(info) => {
                        &&& flips(*old(self), start, info.index as int, timed_out)
                        &&& info == main.trackers@[info.index as int].info
                        &&& info.status == sweep_target(timed_out)
                    },
                    _ => false,
                },
                forall|k1: int, k2: int| old(main).message_channels.history@.len() <= k1 < main.message_channels.history@.len()
                    && old(main).message_channels.history@.len() <= k2 < main.message_channels.history@.len() && k1 != k2
                    ==> (#[trigger] main.message_channels.history@[k1]) != (#[trigger] main.message_channels.history@[k2]),
                forall|g: int| #[trigger] flips(*old(self), start, g, timed_out) && (exists|l: int| 0 <= l < i && #[trigger] slot_is(self.tracker_indexs@[l], g))
                    ==> exists|k: int| old(main).message_channels.history@.len() <= k < main.message_channels.history@.len()
                        && #[trigger] main.message_channels.history@[k] == ServerMessage::TrackerInfoUpdate(main.trackers@[g].info),
            decreases self.tracker_indexs@.len() - i,
        {
            if let Some(g) = self.tracker_indexs[i] {
                assert(self.tracker_indexs@[i as int] == old(self).tracker_indexs@[i as int]);
                let status = main.trackers[g].info.status;
                let ghost before = *main;
                if timed_out && status == TrackerStatus::Healthy {
                    main.update_tracker_status(g, TrackerStatus::TimedOut);
                } else if !timed_out && status == TrackerStatus::TimedOut {
                    main.update_tracker_status(g, TrackerStatus::Healthy);
                }
                assert(slot_is(old(self).tracker_indexs@[i as int], g as int));
                assert(maps_to(*old(self), g as int));
                assert(before.trackers@[g as int].info.index == g);
                let ghost h0 = old(main).message_channels.history@.len() as int;
                let ghost hist = main.message_channels.history@;
                assert forall|k: int| h0 <= k < hist.len() implies match #[trigger] hist[k] {
                    ServerMessage::TrackerInfoUpdate(info) => {
                        &&& flips(*old(self), start, info.index as int, timed_out)
                        &&& info == main.trackers@[info.index as int].info
                        &&& info.status == sweep_target(timed_out)
                    },
                    _ => false,
                } by {
                    if k < before.message_channels.history@.len() {
                        assert(hist[k] == before.message_channels.history@[k]);
                    }
                }
                assert forall|k1: int, k2: int| h0 <= k1 < hist.len() && h0 <= k2 < hist.len() && k1 != k2
                    implies (#[trigger] hist[k1]) != (#[trigger] hist[k2]) by {
                    if k1 < before.message_channels.history@.len() {
                        assert(hist[k1] == before.message_channels.history@[k1]);
                    }
                    if k2 < before.message_channels.history@.len() {
                        assert(hist[k2] == before.message_channels.history@[k2]);
                    }
                }
                assert forall|h: int| #[trigger] flips(*old(self), start, h, timed_out) && (exists|l: int| 0 <= l < i + 1 && #[trigger] slot_is(self.tracker_indexs@[l], h))
                    implies exists|k: int| h0 <= k < hist.len()
                        && #[trigger] hist[k] == ServerMessage::TrackerInfoUpdate(main.trackers@[h].info) by {
                    if h == g {
                        if hist.len() > before.message_channels.history@.len() {
                            assert(hist[hist.len() - 1] == ServerMessage::TrackerInfoUpdate(main.trackers@[h].info));
                        }
                    } else {
                        let l = choose|l: int| 0 <= l < i + 1 && #[trigger] slot_is(self.tracker_indexs@[l], h);
                        assert(l < i);
                        let k = choose|k: int| h0 <= k < before.message_channels.history@.len()
                            && #[trigger] before.message_channels.history@[k] == ServerMessage::TrackerInfoUpdate(before.trackers@[h].info);
                        assert(hist[k] == before.message_channels.history@[k]);
                    }
                }
                assert forall|h: int| 0 <= h < start.len() implies #[trigger] main.trackers@[h] == if (exists|l: int| 0 <= l < i + 1 && #[trigger] slot_is(self.tracker_indexs@[l], h)) {
                    with_status(start[h], timeout_step(start[h].info.status, timed_out))
                } else {
                    start[h]
                } by {
                    if h == g {
                        assert(slot_is(self.tracker_indexs@[i as int], h));
                    } else {
                        if exists|l: int| 0 <= l < i + 1 && #[trigger] slot_is(self.tracker_indexs@[l], h) {
                            let l = choose|l: int| 0 <= l < i + 1 && #[trigger] slot_is(self.tracker_indexs@[l], h);
                            assert(l < i);
                        }
                    }
                }
            } else {
                assert(self.tracker_indexs@[i as int] is None);
                assert forall|h: int| #[trigger] flips(*old(self), start, h, timed_out) && (exists|l: int| 0 <= l < i + 1 && #[trigger] slot_is(self.tracker_indexs@[l], h))
                    implies exists|k: int| old(main).message_channels.history@.len() <= k < main.message_channels.history@.len()
                        && #[trigger] main.message_channels.history@[k] == ServerMessage::TrackerInfoUpdate(main.trackers@[h].info) by {
                    let l = choose|l: int| 0 <= l < i + 1 && #[trigger] slot_is(self.tracker_indexs@[l], h);
                    assert(l < i);
                }
                assert forall|h: int| 0 <= h < start.len() implies #[trigger] main.trackers@[h] == if (exists|l: int| 0 <= l < i + 1 && #[trigger] slot_is(self.tracker_indexs@[l], h)) {
                    with_status(start[h], timeout_step(start[h].info.status, timed_out))
                } else {
                    start[h]
                } by {
                    if exists|l: int| 0 <= l < i + 1 && #[trigger] slot_is(self.tracker_indexs@[l], h) {
                        let l = choose|l: int| 0 <= l < i + 1 && #[trigger] slot_is(self.tracker_indexs@[l], h);
                        assert(l < i);
                    }
                }
            }
            i = i + 1;
        }
        assert forall|g: int| #[trigger] flips(*old(self), start, g, timed_out) implies exists|k: int| old(main).message_channels.history@.len() <= k < main.message_channels.history@.len()
            && #[trigger] main.message_channels.history@[k] == ServerMessage::TrackerInfoUpdate(main.trackers@[g].info) by {
            let l = choose|l: int| 0 <= l < old(self).tracker_indexs@.len() && #[trigger] slot_is(old(self).tracker_indexs@[l], g);
            assert(slot_is(self.tracker_indexs@[l], g));
        }
        assert forall|g: int| 0 <= g < old(main).trackers@.len() implies #[trigger] main.trackers@[g] == if old(self).timed_out != timed_out && maps_to(*old(self), g) {
            with_status(old(main).trackers@[g], timeout_step(old(main).trackers@[g].info.status, timed_out))
        } else {
            old(main).trackers@[g]
        } by {
            if maps_to(*old(self), g) {
                let l = choose|l: int| 0 <= l < old(self).tracker_indexs@.len() && #[trigger] slot_is(old(self).tracker_indexs@[l], g);
                assert(slot_is(self.tracker_indexs@[l], g));
            }
        }
    }
}

/// Statuses after a series of timeout sweeps, one per entry of `flags` (whether the device was
/// found silent), starting from `s`.
pub open spec fn sweeps(s: TrackerStatus, flags: Seq<bool>) -> TrackerStatus
    decreases flags.len(),
{
    if flags.len() == 0 {
        s
    } else {
        timeout_step(sweeps(s, flags.drop_last()), flags.last())
    }
}

/// Timeout sweeps only move a tracker between `Healthy` and `TimedOut`: one in `Error` or `Off`
/// keeps its status through any series of sweeps, and one in `Healthy` or `TimedOut` stays in one
/// of those two.
pub proof fn lemma_timeout_toggles(s: TrackerStatus, flags: Seq<bool>)
    ensures
        s == TrackerStatus::Error || s == TrackerStatus::Off ==> sweeps(s, flags) == s,
        s == TrackerStatus::Healthy || s == TrackerStatus::TimedOut ==>
            sweeps(s, flags) == TrackerStatus::Healthy || sweeps(s, flags) == TrackerStatus::TimedOut,
    decreases flags.len(),
{
    if flags.len() > 0 {
        lemma_timeout_toggles(s, flags.drop_last());
    }
}

/// The key of an endpoint in the address table: the address above the port.
pub open spec fn addr_key(a: PeerAddr) -> u64 {
    (a.ip as u64 * 65536 + a.port as u64) as u64
}

/// The device the address table `m` gives for endpoint `a`.
pub open spec fn addr_lookup(m: Map<u64, usize>, a: PeerAddr) -> Option<usize> {
    if m.contains_key(addr_key(a)) {
        Some(m[addr_key(a)])
    } else {
        None
    }
}

/// The key of `a` in the address table.
pub fn address_key(a: PeerAddr) -> (r: u64)
    ensures
        r == addr_key(a),
{
    a.ip as u64 * 65536 + a.port as u64
}

/// The device of `devs` with MAC text `mac`; of several, the one added last.
pub open spec fn mac_owner(devs: Seq<UdpDevice>, mac: Seq<char>) -> Option<usize>
    decreases devs.len(),
{
    if devs.len() == 0 {
        None
    } else if devs.last().mac@ == mac {
        Some((devs.len() - 1) as usize)
    } else {
        mac_owner(devs.drop_last(), mac)
    }
}

/// The device `mac_owner` finds is in the list and has that MAC.
pub proof fn lemma_mac_owner(devs: Seq<UdpDevice>, mac: Seq<char>)
    requires
        devs.len() <= usize::MAX,
    ensures
        mac_owner(devs, mac) matches Some(k) ==> k < devs.len() && devs[k as int].mac@ == mac,
    decreases devs.len(),
{
    if devs.len() > 0 {
        lemma_mac_owner(devs.drop_last(), mac);
    }
}

/// What a handshake with MAC text `mac` from `peer` at time `now` does to the device list and
/// the address table: a known device moves to `peer`, its old endpoint leaving the table and
/// `peer` pointing to it; an unknown one is added with the next index, which `peer` points to.
pub open spec fn handshake_outcome(
    before: Seq<UdpDevice>,
    table: Map<u64, usize>,
    mac: Seq<char>,
    peer: PeerAddr,
    now: u64,
    after: Seq<UdpDevice>,
    table_after: Map<u64, usize>,
) -> bool {
    match mac_owner(before, mac) {
        Some(i) => {
            &&& after == before.update(i as int, UdpDevice { address: peer, ..before[i as int] })
            &&& table_after == if before[i as int].address == peer {
                table
            } else {
                table.remove(addr_key(before[i as int].address)).insert(addr_key(peer), i)
            }
        },
        None => {
            &&& after.len() == before.len() + 1
            &&& after.drop_last() == before
            &&& after.last().index == before.len()
            &&& after.last().address == peer
            &&& after.last().mac@ == mac
            &&& after.last().last_packet_received_time == now
            &&& after.last().last_packet_number == 0
            &&& after.last().tracker_indexs@ == Seq::<Option<usize>>::empty()
            &&& !after.last().timed_out
            &&& table_after == table.insert(addr_key(peer), before.len() as usize)
        },
    }
}

/// What the transport does next with a decoded datagram.
#[derive(Debug)]
pub enum PacketAction {
    /// Nothing to do.
    Nothing,
    /// Send the handshake reply to the sender, then apply the handshake.
    Handshake(UdpPacketHandshake),
    /// Echo the report to the sender, then apply it for the device at this position.
    Status(usize, UdpPacketTrackerStatus),
    /// Apply each record of this tracker data packet for the device at this position.
    Records(usize, UdpPacketTrackerData),
}

/// The action for decoded packet `p` from the device at `device` (none for an unknown sender).
pub open spec fn action_for(p: Option<UdpPacket>, device: Option<usize>) -> PacketAction {
    match (p, device) {
        (Some(UdpPacket::Handshake(h)), _) => PacketAction::Handshake(h),
        (Some(UdpPacket::TrackerStatus(s)), Some(d)) => PacketAction::Status(d, s),
        (Some(UdpPacket::TrackerData(t)), Some(d)) => PacketAction::Records(d, t),
        _ => PacketAction::Nothing,
    }
}

/// The tracker that local index `local` of `d` maps to in `main1` has status `status` and the id
/// that `d`'s MAC and `local` give; besides it, `main1` holds the trackers of `main0` unchanged.
/// Its info was broadcast last, after the creation event of the tracker if it is new.
pub open spec fn resolved_status(d: UdpDevice, local: u8, main0: MainServer, main1: MainServer, status: TrackerStatus) -> bool {
    &&& local < d.tracker_indexs@.len()
    &&& d.tracker_indexs@[local as int] matches Some(g) && {
        &&& g < main1.trackers@.len()
        &&& main1.trackers@[g as int].info.status == status
        &&& main1.trackers@[g as int].info.id@ == tracker_id(d.mac@, local)
        &&& forall|j: int| 0 <= j < main0.trackers@.len() && j != g ==> #[trigger] main1.trackers@[j] == main0.trackers@[j]
        &&& g < main0.trackers@.len() ==> main1.trackers@[g as int] == with_status(main0.trackers@[g as int], status)
        &&& main1.message_channels.history@.last() == ServerMessage::TrackerInfoUpdate(main1.trackers@[g as int].info)
        &&& main1.message_channels.history@.len() == main0.message_channels.history@.len()
            + if g < main0.trackers@.len() { 1int } else { 2int }
        &&& main0.message_channels.history@.is_prefix_of(main1.message_channels.history@)
    }
    &&& main0.trackers@.len() <= main1.trackers@.len() <= main0.trackers@.len() + 1
}

/// The devices that have completed a handshake, and the time of the last upkeep pass.
pub struct UdpServer {
    pub devices: Vec<UdpDevice>,
    /// Device of each endpoint, keyed by `addr_key`.
    pub address_to_device_index: HashMap<u64, usize>,
    pub last_upkeep_time: u64,
}

/// Milliseconds from `then` to `now`; zero if the clock reads earlier than `then`.
pub open spec fn elapsed(then: u64, now: u64) -> u64 {
    if now > then { (now - then) as u64 } else { 0 }
}

impl UdpServer {
    /// Each device stands at the position of its index, and no two devices share a MAC.
    pub open spec fn wf(&self) -> bool {
        &&& forall|k: u64| #[trigger] self.address_to_device_index@.contains_key(k)
            ==> self.address_to_device_index@[k] < self.devices@.len()
        &&& forall|i: int| 0 <= i < self.devices@.len() ==> #[trigger] self.devices@[i].index == i
        &&& forall|i: int, j: int| 0 <= i < self.devices@.len() && 0 <= j < self.devices@.len() && i != j
            ==> self.devices@[i].mac@ != self.devices@[j].mac@
    }

    /// Well formed together with the registry `main` that the devices' tables point into.
    pub open spec fn linked(&self, main: MainServer) -> bool {
        &&& self.wf()
        &&& main.wf()
        &&& forall|i: int| 0 <= i < self.devices@.len() ==> device_links(#[trigger] self.devices@[i], main.trackers@)
    }

    /// No devices yet; the upkeep clock starts at `now`.
    pub fn new(now: u64) -> (r: UdpServer)
        ensures
            r.wf(),
            r.devices@.len() == 0,
            r.address_to_device_index@ == Map::<u64, usize>::empty(),
            r.last_upkeep_time == now,
    {
        UdpServer { devices: Vec::new(), address_to_device_index: HashMap::new(), last_upkeep_time: now }
    }

    /// The device at endpoint `peer`, if any.
    pub fn device_at(&self, peer: PeerAddr) -> (r: Option<usize>)
        requires
            self.wf(),
        ensures
            r == addr_lookup(self.address_to_device_index@, peer),
            r matches Some(i) ==> i < self.devices@.len(),
    {
        match self.address_to_device_index.get(&address_key(peer)) {
            Some(i) => Some(*i),
            None => None,
        }
    }

    /// The device with MAC text `mac`, if any.
    pub fn device_with_mac(&self, mac: &String) -> (r: Option<usize>)
        ensures
            r == mac_owner(self.devices@, mac@),
            r matches Some(i) ==> i < self.devices@.len() && self.devices@[i as int].mac@ == mac@,
            r is None ==> forall|j: int| 0 <= j < self.devices@.len() ==> #[trigger] self.devices@[j].mac@ != mac@,
    {
        let mut i: usize = self.devices.len();
        assert(self.devices@.subrange(0, i as int) =~= self.devices@);
        while i > 0
            invariant
                i <= self.devices@.len(),
                mac_owner(self.devices@, mac@) == mac_owner(self.devices@.subrange(0, i as int), mac@),
                forall|j: int| i <= j < self.devices@.len() ==> #[trigger] self.devices@[j].mac@ != mac@,
            decreases i,
        {
            assert(self.devices@.subrange(0, i as int).drop_last() =~= self.devices@.subrange(0, i - 1));
            if self.devices[i - 1].mac == *mac {
                return Some(i - 1);
            }
            i = i - 1;
        }
        assert(self.devices@.subrange(0, 0) =~= Seq::<UdpDevice>::empty());
        None
    }

    /// Pairs the device with MAC `packet.mac_string` with endpoint `peer`: a known device migrates
    /// to `peer` (a repeated or reconnecting handshake from its own endpoint changes nothing); an
    /// unknown MAC gets a new device with the next index.
    pub fn handle_handshake(&mut self, packet: UdpPacketHandshake, peer: PeerAddr, now: u64)
        requires
            old(self).wf(),
            old(self).devices@.len() < usize::MAX,
        ensures
            final(self).wf(),
            forall|main: MainServer| old(self).linked(main) ==> final(self).linked(main),
            handshake_outcome(
                old(self).devices@,
                old(self).address_to_device_index@,
                packet.mac_string@,
                peer,
                now,
                final(self).devices@,
                final(self).address_to_device_index@,
            ),
            final(self).last_upkeep_time == old(self).last_upkeep_time,
    {
        let ghost before = self.devices@;
        let ghost hm = packet.mac_string@;
        match self.device_with_mac(&packet.mac_string) {
            Some(i) => {
                if self.devices[i].address != peer {
                    let old_key = address_key(self.devices[i].address);
                    self.address_to_device_index.remove(&old_key);
                    self.address_to_device_index.insert(address_key(peer), i);
                    self.devices[i].address = peer;
                }
                assert(self.devices@ =~= old(self).devices@.update(i as int, UdpDevice { address: peer, ..old(self).devices@[i as int] }));
            },
            None => {
                let index = self.devices.len();
                let device = UdpDevice::new(index, peer, packet.mac_string, now);
                self.address_to_device_index.insert(address_key(peer), index);
                self.devices.push(device);
                assert(self.devices@.drop_last() =~= old(self).devices@);
            },
        }
        assert forall|main: MainServer| old(self).linked(main) implies self.linked(main) by {
            assert forall|i: int| 0 <= i < self.devices@.len() implies device_links(#[trigger] self.devices@[i], main.trackers@) by {
                lemma_mac_owner(before, hm);
                if i < before.len() {
                    assert(self.devices@[i].tracker_indexs == before[i].tracker_indexs
                        && self.devices@[i].mac == before[i].mac) by {
                        match mac_owner(before, hm) {
                            Some(k) => {
                                assert(self.devices@ == before.update(k as int, UdpDevice { address: peer, ..before[k as int] }));
                            },
                            None => {
                                assert(self.devices@.drop_last()[i] == self.devices@[i]);
                            },
                        }
                    }
                    assert(device_links(before[i], main.trackers@));
                } else {
                    assert(self.devices@[i].tracker_indexs@.len() == 0);
                }
            }
        }
    }

    /// Decodes a datagram from `peer` received at `now`, updating the sender's sequence
    /// bookkeeping, and says what is to be done with it: a handshake is answered and applied, a
    /// status report from a known device is echoed and applied, the records of a data packet from
    /// a known device are applied one by one, and anything else is dropped.
    pub fn handle_packet(&mut self, bytes: &[u8], peer: PeerAddr, now: u64) -> (action: PacketAction)
        requires
            old(self).wf(),
        ensures
            final(self).wf(),
            final(self).last_upkeep_time == old(self).last_upkeep_time,
            final(self).address_to_device_index@ == old(self).address_to_device_index@,
            forall|main: MainServer| old(self).linked(main) ==> final(self).linked(main),
            exists|p: Option<UdpPacket>| {
                &&& #[trigger] parse_outcome(bytes@, old(self).devices@, addr_lookup(old(self).address_to_device_index@, peer), now, p, final(self).devices@)
                &&& action == action_for(p, addr_lookup(old(self).address_to_device_index@, peer))
            },
    {
        let device = self.device_at(peer);
        let packet = UdpPacket::parse(bytes, &mut self.devices, device, now);
        let ghost gp = packet;
        assert(parse_outcome(bytes@, old(self).devices@, device, now, gp, self.devices@));
        assert forall|main: MainServer| old(self).linked(main) implies self.linked(main) by {
            assert forall|i: int| 0 <= i < self.devices@.len() implies device_links(#[trigger] self.devices@[i], main.trackers@) by {
                assert(self.devices@[i].tracker_indexs == old(self).devices@[i].tracker_indexs);
                assert(self.devices@[i].mac == old(self).devices@[i].mac);
                assert(device_links(old(self).devices@[i], main.trackers@));
            }
        }
        assert forall|i: int| 0 <= i < self.devices@.len() implies #[trigger] self.devices@[i].index == i by {
            assert(self.devices@[i].index == old(self).devices@[i].index);
        }
        assert forall|i: int, j: int| 0 <= i < self.devices@.len() && 0 <= j < self.devices@.len() && i != j
            implies self.devices@[i].mac@ != self.devices@[j].mac@ by {
            assert(self.devices@[i].mac == old(self).devices@[i].mac);
            assert(self.devices@[j].mac == old(self).devices@[j].mac);
        }
        match packet {
            Some(UdpPacket::Handshake(h)) => PacketAction::Handshake(h),
            Some(UdpPacket::TrackerStatus(s)) => match device {
                Some(d) => PacketAction::Status(d, s),
                None => PacketAction::Nothing,
            },
            Some(UdpPacket::TrackerData(t)) => match device {
                Some(d) => PacketAction::Records(d, t),
                None => PacketAction::Nothing,
            },
            _ => PacketAction::Nothing,
        }
    }

    /// Applies a status report from device `device`: the tracker its local index maps to
    /// (registered on first use) takes the reported status, which is broadcast.
    pub fn apply_tracker_status(&mut self, device: usize, packet: UdpPacketTrackerStatus, main: &mut MainServer)
        requires
            old(self).linked(*old(main)),
            device < old(self).devices@.len(),
            old(main).trackers@.len() < usize::MAX,
        ensures
            final(self).linked(*final(main)),
            final(self).last_upkeep_time == old(self).last_upkeep_time,
            final(self).devices@.len() == old(self).devices@.len(),
            final(self).address_to_device_index@ == old(self).address_to_device_index@,
            forall|j: int| 0 <= j < old(self).devices@.len() && j != device ==> final(self).devices@[j] == old(self).devices@[j],
            final(self).devices@[device as int].mac == old(self).devices@[device as int].mac,
            resolved_status(final(self).devices@[device as int], packet.tracker_index, *old(main), *final(main), packet.tracker_status),
    {
        assert(device_links(self.devices@[device as int], main.trackers@));
        let ghost before = self.devices@;
        let g = self.devices[device].get_global_tracker_index(main, packet.tracker_index);
        let ghost main_mid = *main;
        main.update_tracker_status(g, packet.tracker_status);
        assert forall|i: int| 0 <= i < self.devices@.len() implies device_links(#[trigger] self.devices@[i], main.trackers@) by {
            assert(device_links(self.devices@[i], main_mid.trackers@));
        }
        assert forall|i: int| 0 <= i < self.devices@.len() implies #[trigger] self.devices@[i].index == i by {
            assert(self.devices@[i].index == before[i].index);
        }
        assert forall|i: int, j: int| 0 <= i < self.devices@.len() && 0 <= j < self.devices@.len() && i != j
            implies self.devices@[i].mac@ != self.devices@[j].mac@ by {
            assert(self.devices@[i].mac == before[i].mac);
            assert(self.devices@[j].mac == before[j].mac);
        }
    }

    /// Applies one record of a tracker data packet from device `device`: the tracker its local
    /// index maps to (registered on first use) takes the orientation and acceleration given.
    pub fn apply_tracker_record(
        &mut self,
        device: usize,
        local_index: u8,
        orientation: QuatBits,
        acceleration: Vec3Bits,
        main: &mut MainServer,
    )
        requires
            old(self).linked(*old(main)),
            device < old(self).devices@.len(),
            old(main).trackers@.len() < usize::MAX,
        ensures
            final(self).linked(*final(main)),
            final(self).last_upkeep_time == old(self).last_upkeep_time,
            final(self).devices@.len() == old(self).devices@.len(),
            final(self).address_to_device_index@ == old(self).address_to_device_index@,
            forall|j: int| 0 <= j < old(self).devices@.len() && j != device ==> final(self).devices@[j] == old(self).devices@[j],
            local_index < final(self).devices@[device as int].tracker_indexs@.len(),
            final(self).devices@[device as int].tracker_indexs@[local_index as int] matches Some(g) && {
                &&& g < final(main).trackers@.len()
                &&& final(main).trackers@[g as int].data == (TrackerData { orientation, acceleration })
                &&& final(main).trackers@[g as int].info.id@ == tracker_id(old(self).devices@[device as int].mac@, local_index)
                &&& local_index < old(self).devices@[device as int].tracker_indexs@.len()
                    && old(self).devices@[device as int].tracker_indexs@[local_index as int] is Some
                    ==> old(self).devices@[device as int].tracker_indexs@[local_index as int] == Some(g)
                &&& g < old(main).trackers@.len() ==> {
                    &&& final(main).trackers@[g as int].info == old(main).trackers@[g as int].info
                    &&& final(main).trackers@[g as int].config == old(main).trackers@[g as int].config
                    &&& final(main).message_channels == old(main).message_channels
                }
                &&& g >= old(main).trackers@.len() ==> {
                    &&& g == old(main).trackers@.len()
                    &&& final(main).trackers@[g as int].info.index == g
                    &&& final(main).trackers@[g as int].info.status == TrackerStatus::Healthy
                    &&& final(main).message_channels.history@ == old(main).message_channels.history@.push(
                        ServerMessage::TrackerInfoUpdate(final(main).trackers@[g as int].info),
                    )
                }
                &&& forall|j: int| 0 <= j < old(main).trackers@.len() && j != g ==> #[trigger] final(main).trackers@[j] == old(main).trackers@[j]
            },
            final(main).trackers@.len() <= old(main).trackers@.len() + 1,
    {
        assert(device_links(self.devices@[device as int], main.trackers@));
        let ghost before = self.devices@;
        let g = self.devices[device].get_global_tracker_index(main, local_index);
        let ghost main_mid = *main;
        main.update_tracker_data(g, acceleration, orientation);
        proof {
            if g >= old(main).trackers@.len() {
                let (id, config) = choose|id: String, config: TrackerConfig| {
                    &&& id@ == tracker_id(old(self).devices@[device as int].mac@, local_index)
                    &&& config.name@ == tracker_name(old(self).devices@[device as int].address)
                    &&& #[trigger] MainServer::register_outcome(*old(main), id, config, g, main_mid)
                };
                assert(MainServer::register_outcome(*old(main), id, config, g, main_mid));
            }
        }
        assert forall|i: int| 0 <= i < self.devices@.len() implies device_links(#[trigger] self.devices@[i], main.trackers@) by {
            assert(device_links(self.devices@[i], main_mid.trackers@));
        }
        assert forall|i: int| 0 <= i < self.devices@.len() implies #[trigger] self.devices@[i].index == i by {
            assert(self.devices@[i].index == before[i].index);
        }
        assert forall|i: int, j: int| 0 <= i < self.devices@.len() && 0 <= j < self.devices@.len() && i != j
            implies self.devices@[i].mac@ != self.devices@[j].mac@ by {
            assert(self.devices@[i].mac == before[i].mac);
            assert(self.devices@[j].mac == before[j].mac);
        }
    }

    /// Whether more than the upkeep interval has passed since the last upkeep pass.
    pub fn needs_upkeep(&self, now: u64) -> (r: bool)
        ensures
            r == (elapsed(self.last_upkeep_time, now) > UPKEEP_INTERVAL_MILLIS),
    {
        let since: u64 = if now > self.last_upkeep_time { now - self.last_upkeep_time } else { 0 };
        since > UPKEEP_INTERVAL_MILLIS
    }

    /// The timeout step of an upkeep pass for device `i`: the device is timed out if it has been
    /// silent longer than the timeout, and back otherwise. Returns the endpoint to send the
    /// device's heartbeat to.
    pub fn upkeep_device(&mut self, i: usize, now: u64, main: &mut MainServer) -> (r: PeerAddr)
        requires
            old(self).linked(*old(main)),
            i < old(self).devices@.len(),
        ensures
            ({
                let d = old(self).devices@[i as int];
                let silent = elapsed(d.last_packet_received_time, now) > DEVICE_TIMEOUT_MILLIS;
                &&& final(self).linked(*final(main))
                &&& r == d.address
                &&& final(self).last_upkeep_time == old(self).last_upkeep_time
                &&& final(self).address_to_device_index@ == old(self).address_to_device_index@
                &&& final(self).devices@ == old(self).devices@.update(i as int, UdpDevice { timed_out: silent, ..d })
                &&& final(main).trackers@.len() == old(main).trackers@.len()
                &&& forall|g: int| 0 <= g < old(main).trackers@.len() ==> #[trigger] final(main).trackers@[g] == if d.timed_out != silent && maps_to(d, g) {
                    with_status(old(main).trackers@[g], timeout_step(old(main).trackers@[g].info.status, silent))
                } else {
                    old(main).trackers@[g]
                }
                &&& old(main).message_channels.history@.is_prefix_of(final(main).message_channels.history@)
                &&& d.timed_out == silent ==> *final(main) == *old(main)
                &&& d.timed_out != silent ==> timeout_events(
                    final(main).message_channels.history@,
                    old(main).message_channels.history@.len() as int,
                    d,
                    old(main).trackers@,
                    final(main).trackers@,
                    silent,
                )
            }),
    {
        let last = self.devices[i].last_packet_received_time;
        let since: u64 = if now > last { now - last } else { 0 };
        let silent = since > DEVICE_TIMEOUT_MILLIS;
        assert(device_links(self.devices@[i as int], main.trackers@));
        let ghost before = self.devices@;
        let ghost main0 = *main;
        self.devices[i].set_timed_out(main, silent);
        assert(self.devices@ =~= before.update(i as int, UdpDevice { timed_out: silent, ..before[i as int] }));
        assert forall|k: int| 0 <= k < self.devices@.len() implies device_links(#[trigger] self.devices@[k], main.trackers@) by {
            assert(device_links(before[k], main0.trackers@));
            assert forall|l: int| 0 <= l < self.devices@[k].tracker_indexs@.len() implies match #[trigger] self.devices@[k].tracker_indexs@[l] {
                Some(g) => g < main.trackers@.len() && main.trackers@[g as int].info.id@ == tracker_id(self.devices@[k].mac@, l as u8),
                None => true,
            } by {
                assert(before[k].tracker_indexs@[l] == self.devices@[k].tracker_indexs@[l]);
                if let Some(g) = self.devices@[k].tracker_indexs@[l] {
                    assert(main.trackers@[g as int].info.id == main0.trackers@[g as int].info.id);
                }
            }
        }
        self.devices[i].address
    }

    /// Records that an upkeep pass ended at `now`.
    pub fn finish_upkeep(&mut self, now: u64)
        ensures
            final(self).last_upkeep_time == now,
            final(self).devices == old(self).devices,
            final(self).address_to_device_index == old(self).address_to_device_index,
    {
        self.last_upkeep_time = now;
    }

    /// Number of devices.
    pub fn device_count(&self) -> (r: usize)
        ensures
            r == self.devices@.len(),
    {
        self.devices.len()
    }
}

} // verus!
