use vstd::prelude::*;

use crate::tracker::{QuatBits, Tracker, TrackerConfig, TrackerData, TrackerInfo, TrackerStatus, Vec3Bits};
use crate::fanout::{came_from, deliver, handed_to, last_dead, lemma_last_dead, lemma_pruned, pruned, received_all, Subscriber};
use tokio::sync::mpsc::UnboundedSender;

verus! {

/// A state change that the registry announces to its subscribers.
#[derive(Debug)]
pub enum ServerMessage {
    TrackerInfoUpdate(TrackerInfo),
    TrackerDataUpdate((usize, TrackerData)),
}

impl ServerMessage {
    /// An exact copy of this message.
    pub fn duplicate(&self) -> (r: ServerMessage)
        ensures
            r == *self,
    {
        match self {
            ServerMessage::TrackerInfoUpdate(info) => ServerMessage::TrackerInfoUpdate(info.snapshot()),
            ServerMessage::TrackerDataUpdate((index, data)) => ServerMessage::TrackerDataUpdate((*index, *data)),
        }
    }
}

/// The subscribers of the registry's events. `history` records every message broadcast so far.
pub struct MessageChannelManager {
    pub channels: Vec<Subscriber>,
    pub history: Ghost<Seq<ServerMessage>>,
}

/// `after` is what broadcasting `m` leaves of the subscribers `before`: each was handed `m`, and
/// the last one whose receiving half was gone, if any, was dropped.
pub open spec fn broadcast_to(before: Seq<Subscriber>, after: Seq<Subscriber>, m: ServerMessage) -> bool {
    exists|mid: Seq<Subscriber>| #[trigger] handed_to(before, mid, m) && after == pruned(mid)
}

impl MessageChannelManager {
    pub open spec fn channels(&self) -> Seq<Subscriber> {
        self.channels@
    }

    /// No subscribers and nothing broadcast yet.
    pub fn new() -> (r: MessageChannelManager)
        ensures
            r.channels() == Seq::<Subscriber>::empty(),
            r.history@ == Seq::<ServerMessage>::empty(),
    {
        MessageChannelManager { channels: Vec::new(), history: Ghost(Seq::empty()) }
    }

    /// Number of subscribers.
    pub fn len(&self) -> (r: usize)
        ensures
            r == self.channels().len(),
    {
        self.channels.len()
    }

    /// Sends a copy of `message` to every subscriber. A subscriber whose receiving half is gone is
    /// dropped, at most one per call: the last such subscriber met.
    fn send_to_all(&mut self, message: ServerMessage)
        ensures
            final(self).history@ == old(self).history@.push(message),
            broadcast_to(old(self).channels(), final(self).channels(), message),
    {
        let ghost start = self.channels@;
        let mut to_remove: Option<usize> = None;
        let mut i: usize = 0;
        while i < self.channels.len()
            invariant
                self.channels@.len() == start.len(),
                self.history == old(self).history,
                start == old(self).channels@,
                i <= self.channels@.len(),
                forall|j: int| 0 <= j < i ==> {
                    &&& (#[trigger] self.channels@[j]).channel() == start[j].channel()
                    &&& self.channels@[j].handed() == start[j].handed().push(message)
                },
                forall|j: int| i <= j < self.channels@.len() ==> #[trigger] self.channels@[j] == start[j],
                match to_remove {
                    Some(k) => last_dead(self.channels@.take(i as int)) == Some(k as int),
                    None => last_dead(self.channels@.take(i as int)) is None,
                },
            decreases self.channels@.len() - i,
        {
            let ghost before = self.channels@;
            let delivered = deliver(&mut self.channels[i], message.duplicate());
            assert(self.channels@.take(i as int) =~= before.take(i as int));
            assert(self.channels@.take(i + 1).drop_last() =~= self.channels@.take(i as int));
            if !delivered {
                to_remove = Some(i);
            }
            i = i + 1;
        }
        let ghost mid = self.channels@;
        assert(mid.take(i as int) =~= mid);
        assert(handed_to(start, mid, message));
        proof {
            lemma_last_dead(mid);
        }
        match to_remove {
            Some(k) => {
                self.channels.swap_remove(k);
            },
            None => {},
        }
        assert(self.channels@ =~= pruned(mid));
        self.history = Ghost(self.history@.push(message));
    }

    /// Adds a subscriber on channel `tx`; the others are kept as they are.
    pub fn add(&mut self, tx: UnboundedSender<ServerMessage>)
        ensures
            final(self).channels().len() == old(self).channels().len() + 1,
            final(self).channels().drop_last() == old(self).channels(),
            final(self).channels().last().channel() == tx,
            final(self).channels().last().handed() == Seq::<ServerMessage>::empty(),
            final(self).history == old(self).history,
    {
        self.channels.push(Subscriber::new(tx));
        assert(self.channels@.drop_last() =~= old(self).channels@);
    }
}
/// The tracker registry: every tracker known to the server, at the position of its index.
pub struct MainServer {
    pub trackers: Vec<Tracker>,
    pub message_channels: MessageChannelManager,
}

/// The broadcast that `tick` makes: one data event per tracker, in index order.
pub open spec fn data_events(trackers: Seq<Tracker>) -> Seq<ServerMessage> {
    Seq::new(trackers.len(), |i: int| ServerMessage::TrackerDataUpdate((trackers[i].info.index, trackers[i].data)))
}

impl MainServer {
    /// Each tracker stands at the position of its index, and no two trackers share an id.
    pub open spec fn wf(&self) -> bool {
        &&& forall|i: int| 0 <= i < self.trackers@.len() ==> #[trigger] self.trackers@[i].info.index == i
        &&& forall|i: int, j: int|
            0 <= i < self.trackers@.len() && 0 <= j < self.trackers@.len() && i != j
                ==> self.trackers@[i].info.id@ != self.trackers@[j].info.id@
    }

    /// Some tracker has the id `id`.
    pub open spec fn has_id(&self, id: Seq<char>) -> bool {
        exists|i: int| 0 <= i < self.trackers@.len() && #[trigger] self.trackers@[i].info.id@ == id
    }

    /// What `register_tracker(id, config)` does, taking `before` to `after` and returning `index`.
    pub open spec fn register_outcome(
        before: MainServer,
        id: String,
        config: TrackerConfig,
        index: usize,
        after: MainServer,
    ) -> bool {
        &&& after.wf()
        &&& if before.has_id(id@) {
            &&& index < before.trackers@.len()
            &&& before.trackers@[index as int].info.id@ == id@
            &&& after == before
        } else {
            let info = TrackerInfo { index, id, status: TrackerStatus::Healthy };
            &&& index == before.trackers@.len()
            &&& after.trackers@ == before.trackers@.push(Tracker { info, data: TrackerData::rest(), config })
            &&& after.message_channels.history@ == before.message_channels.history@.push(
                ServerMessage::TrackerInfoUpdate(info),
            )
            &&& broadcast_to(before.message_channels.channels(), after.message_channels.channels(), ServerMessage::TrackerInfoUpdate(info))
        }
    }

    /// An empty registry with no subscribers.
    pub fn new() -> (r: MainServer)
        ensures
            r.wf(),
            r.trackers@.len() == 0,
            r.message_channels.channels().len() == 0,
            r.message_channels.history@.len() == 0,
    {
        MainServer { trackers: Vec::new(), message_channels: MessageChannelManager::new() }
    }

    /// Position of the tracker with id `id`, if there is one.
    pub fn find_tracker(&self, id: &String) -> (r: Option<usize>)
        requires
            self.wf(),
        ensures
            r is None <==> !self.has_id(id@),
            r matches Some(i) ==> i < self.trackers@.len() && self.trackers@[i as int].info.id@ == id@,
    {
        let mut i: usize = 0;
        while i < self.trackers.len()
            invariant
                i <= self.trackers@.len(),
                forall|j: int| 0 <= j < i ==> #[trigger] self.trackers@[j].info.id@ != id@,
            decreases self.trackers@.len() - i,
        {
            if self.trackers[i].info.id == *id {
                return Some(i);
            }
            i = i + 1;
        }
        None
    }

    /// Registers a tracker under `id` and returns its index. A known id gets its index back and
    /// nothing changes; a new id gets the next index, and its info is broadcast.
    pub fn register_tracker(&mut self, id: String, config: TrackerConfig) -> (index: usize)
        requires
            old(self).wf(),
            old(self).trackers@.len() < usize::MAX,
        ensures
            MainServer::register_outcome(*old(self), id, config, index, *final(self)),
    {
        if let Some(index) = self.find_tracker(&id) {
            return index;
        }
        let index = self.trackers.len();
        let tracker = Tracker::new(id, index, config);
        self.message_channels.send_to_all(ServerMessage::TrackerInfoUpdate(tracker.info.snapshot()));
        self.trackers.push(tracker);
        index
    }

    /// Registers each `(id, config)` pair in turn.
    pub fn load_config(&mut self, configs: Vec<(String, TrackerConfig)>)
        requires
            old(self).wf(),
            old(self).trackers@.len() + configs@.len() < usize::MAX,
        ensures
            final(self).wf(),
            final(self).trackers@.len() <= old(self).trackers@.len() + configs@.len(),
            forall|j: int| 0 <= j < old(self).trackers@.len() ==> final(self).trackers@[j] == old(self).trackers@[j],
            forall|k: int| 0 <= k < configs@.len() ==> final(self).has_id(#[trigger] configs@[k].0@),
    {
        let mut configs = configs;
        let ghost all = configs@;
        let ghost start = self.trackers@;
        let mut done: usize = 0;
        while configs.len() > 0
            invariant
                self.wf(),
                done + configs@.len() == all.len(),
                configs@ == all.subrange(done as int, all.len() as int),
                start.len() <= self.trackers@.len() <= start.len() + done,
                start.len() + all.len() < usize::MAX,
                forall|j: int| 0 <= j < start.len() ==> self.trackers@[j] == start[j],
                forall|k: int| 0 <= k < done ==> self.has_id(#[trigger] all[k].0@),
            decreases configs@.len(),
        {
            let (id, config) = configs.remove(0);
            let ghost before = *self;
            let ghost key = id@;
            let index = self.register_tracker(id, config);
            assert(self.trackers@[index as int].info.id@ == key);
            assert forall|k: int| 0 <= k < done + 1 implies self.has_id(#[trigger] all[k].0@) by {
                if k < done {
                    let w = choose|w: int| 0 <= w < before.trackers@.len() && #[trigger] before.trackers@[w].info.id@ == all[k].0@;
                    assert(self.trackers@[w] == before.trackers@[w]);
                } else {
                    assert(all[k].0@ == key);
                }
            }
            done = done + 1;
            assert(configs@ =~= all.subrange(done as int, all.len() as int));
        }
    }

    /// Sets the status of tracker `index` and broadcasts its info, whether or not it changed.
    pub fn update_tracker_status(&mut self, index: usize, status: TrackerStatus)
        requires
            old(self).wf(),
            index < old(self).trackers@.len(),
        ensures
            final(self).wf(),
            final(self).trackers@ == old(self).trackers@.update(
                index as int,
                Tracker {
                    info: TrackerInfo { status, ..old(self).trackers@[index as int].info },
                    ..old(self).trackers@[index as int]
                },
            ),
            final(self).message_channels.history@ == old(self).message_channels.history@.push(
                ServerMessage::TrackerInfoUpdate(final(self).trackers@[index as int].info),
            ),
            broadcast_to(
                old(self).message_channels.channels(),
                final(self).message_channels.channels(),
                ServerMessage::TrackerInfoUpdate(final(self).trackers@[index as int].info),
            ),
    {
        self.trackers[index].info.status = status;
        let message = ServerMessage::TrackerInfoUpdate(self.trackers[index].info.snapshot());
        self.message_channels.send_to_all(message);
    }

    /// Overwrites the motion data of tracker `index`; nothing is broadcast.
    pub fn update_tracker_data(&mut self, index: usize, acceleration: Vec3Bits, orientation: QuatBits)
        requires
            old(self).wf(),
            index < old(self).trackers@.len(),
        ensures
            final(self).wf(),
            final(self).trackers@ == old(self).trackers@.update(
                index as int,
                Tracker { data: TrackerData { orientation, acceleration }, ..old(self).trackers@[index as int] },
            ),
            final(self).message_channels == old(self).message_channels,
    {
        self.trackers[index].data = TrackerData { orientation, acceleration };
    }

    /// One info event per tracker, in index order: what a new subscriber is sent first, so that it
    /// learns of the trackers registered before it joined.
    pub fn snapshot(&self) -> (r: Vec<ServerMessage>)
        ensures
            r@ == Seq::new(self.trackers@.len(), |i: int| ServerMessage::TrackerInfoUpdate(self.trackers@[i].info)),
    {
        let mut r: Vec<ServerMessage> = Vec::new();
        let mut i: usize = 0;
        while i < self.trackers.len()
            invariant
                i <= self.trackers@.len(),
                r@ == Seq::new(i as nat, |j: int| ServerMessage::TrackerInfoUpdate(self.trackers@[j].info)),
            decreases self.trackers@.len() - i,
        {
            r.push(ServerMessage::TrackerInfoUpdate(self.trackers[i].info.snapshot()));
            i = i + 1;
            assert(r@ =~= Seq::new(i as nat, |j: int| ServerMessage::TrackerInfoUpdate(self.trackers@[j].info)));
        }
        r
    }

    /// Broadcasts the current data of every tracker, in index order, to every subscriber. Trackers
    /// hold no state that changes with time, so `delta_millis` (the time since the previous tick)
    /// moves nothing.
    pub fn tick(&mut self, delta_millis: u64)
        requires
            old(self).wf(),
        ensures
            final(self).trackers == old(self).trackers,
            final(self).message_channels.history@ == old(self).message_channels.history@ + data_events(old(self).trackers@),
            received_all(old(self).message_channels.channels(), final(self).message_channels.channels(), data_events(old(self).trackers@)),
    {
        let ghost start = self.message_channels.history@;
        let ghost subs = self.message_channels.channels@;
        let mut i: usize = 0;
        let ghost none = data_events(self.trackers@).take(0);
        assert forall|x: int| 0 <= x < subs.len() implies came_from(#[trigger] subs[x], subs, none) by {
            assert(subs[x].handed() =~= subs[x].handed() + none);
        }
        assert(none.len() == 0);
        assert(received_all(subs, subs, none));
        while i < self.trackers.len()
            invariant
                self.trackers == old(self).trackers,
                i <= self.trackers@.len(),
                self.message_channels.history@ == start + data_events(self.trackers@).take(i as int),
                received_all(subs, self.message_channels.channels@, data_events(self.trackers@).take(i as int)),
            decreases self.trackers@.len() - i,
        {
            let message = ServerMessage::TrackerDataUpdate((self.trackers[i].info.index, self.trackers[i].data));
            let ghost cur = self.message_channels.channels@;
            self.message_channels.send_to_all(message);
            let ghost events = data_events(self.trackers@);
            assert(events.take(i + 1) =~= events.take(i as int).push(message));
            proof {
                let after = self.message_channels.channels@;
                let mid = choose|mid: Seq<Subscriber>| #[trigger] handed_to(cur, mid, message) && after == pruned(mid);
                lemma_pruned(mid);
                assert forall|x: int| 0 <= x < after.len() implies came_from(#[trigger] after[x], subs, events.take(i + 1)) by {
                    let y = choose|y: int| 0 <= y < mid.len() && #[trigger] pruned(mid)[x] == #[trigger] mid[y];
                    assert(mid[y].channel() == cur[y].channel());
                    assert(came_from(cur[y], subs, events.take(i as int)));
                    let j = choose|j: int| 0 <= j < subs.len() && (#[trigger] subs[j]).channel() == cur[y].channel()
                        && cur[y].handed() == subs[j].handed() + events.take(i as int);
                    assert(after[x].handed() =~= subs[j].handed() + events.take(i + 1));
                }
            }
            i = i + 1;
        }
        assert(data_events(self.trackers@).take(i as int) =~= data_events(self.trackers@));
    }
}

/// Target length of one main-loop iteration, in microseconds (50 iterations per second).
pub const TARGET_LOOP_DELTA_MICROS: u64 = 20_000;

/// How long the main loop sleeps after an iteration whose work took `work_micros`: the rest of
/// the target period, or nothing (an overrun) when the work took the whole period or longer.
pub fn loop_pause(work_micros: u64) -> (r: Option<u64>)
    ensures
        r is None <==> work_micros >= TARGET_LOOP_DELTA_MICROS,
        r matches Some(p) ==> p > 0 && p + work_micros == TARGET_LOOP_DELTA_MICROS,
{
    if work_micros < TARGET_LOOP_DELTA_MICROS {
        Some(TARGET_LOOP_DELTA_MICROS - work_micros)
    } else {
        None
    }
}

/// Registering the same id twice returns the same index both times: the second call changes
/// nothing, one tracker holds the id, and at most the first call broadcast a creation event.
pub proof fn lemma_register_idempotent(
    s0: MainServer,
    s1: MainServer,
    s2: MainServer,
    id1: String,
    id2: String,
    c1: TrackerConfig,
    c2: TrackerConfig,
    i1: usize,
    i2: usize,
)
    requires
        s0.wf(),
        id1@ == id2@,
        MainServer::register_outcome(s0, id1, c1, i1, s1),
        MainServer::register_outcome(s1, id2, c2, i2, s2),
    ensures
        i1 == i2,
        s2 == s1,
        forall|j: int| 0 <= j < s2.trackers@.len() ==> (#[trigger] s2.trackers@[j].info.id@ == id1@ <==> j == i1),
        s0.has_id(id1@) ==> s2.message_channels.history == s0.message_channels.history,
        !s0.has_id(id1@) ==> s2.message_channels.history@ == s0.message_channels.history@.push(
            ServerMessage::TrackerInfoUpdate(TrackerInfo { index: i1, id: id1, status: TrackerStatus::Healthy }),
        ),
{
    assert(s1.trackers@[i1 as int].info.id@ == id1@);
    assert(s1.has_id(id2@));
}

/// Registering distinct ids one after another into an empty registry hands out the indices
/// 0, 1, 2, ... in call order, and a tracker keeps its index and id through later registrations.
pub proof fn lemma_sequential_indices(
    states: Seq<MainServer>,
    ids: Seq<String>,
    configs: Seq<TrackerConfig>,
    indices: Seq<usize>,
)
    requires
        states.len() == ids.len() + 1,
        configs.len() == ids.len(),
        indices.len() == ids.len(),
        states[0].wf(),
        states[0].trackers@.len() == 0,
        forall|k: int| 0 <= k < ids.len() ==> MainServer::register_outcome(
            #[trigger] states[k], ids[k], configs[k], indices[k], states[k + 1]),
        forall|a: int, b: int| 0 <= a < ids.len() && 0 <= b < ids.len() && a != b ==> ids[a]@ != ids[b]@,
    ensures
        forall|k: int| 0 <= k < ids.len() ==> #[trigger] indices[k] == k,
        states.last().trackers@.len() == ids.len(),
        forall|k: int, m: int| 0 <= k < m < states.len() ==> {
            &&& (#[trigger] states[m].trackers@[k]).info.index == k
            &&& states[m].trackers@[k].info.id@ == ids[k]@
            &&& states[m].trackers@[k] == states[k + 1].trackers@[k]
        },
    decreases ids.len(),
{
    let n = ids.len() - 1;
    if ids.len() > 0 {
        let pre_states = states.drop_last();
        let pre_ids = ids.drop_last();
        lemma_sequential_indices(pre_states, pre_ids, configs.drop_last(), indices.drop_last());
        assert forall|k: int| 0 <= k < n implies #[trigger] indices[k] == k by {
            assert(indices.drop_last()[k] == indices[k]);
        }
        let before = states[n];
        assert(before == pre_states.last());
        assert(MainServer::register_outcome(states[n], ids[n], configs[n], indices[n], states[n + 1]));
        assert(!before.has_id(ids[n]@)) by {
            if before.has_id(ids[n]@) {
                let w = choose|w: int| 0 <= w < before.trackers@.len() && #[trigger] before.trackers@[w].info.id@ == ids[n]@;
                assert(pre_states[n].trackers@[w].info.id@ == pre_ids[w]@);
            }
        }
        assert forall|k: int, m: int| 0 <= k < m < states.len() implies {
            &&& (#[trigger] states[m].trackers@[k]).info.index == k
            &&& states[m].trackers@[k].info.id@ == ids[k]@
            &&& states[m].trackers@[k] == states[k + 1].trackers@[k]
        } by {
            if m < n + 1 {
                assert(pre_states[m] == states[m]);
                assert(pre_states[k + 1] == states[k + 1]);
                assert(pre_ids[k] == ids[k]);
            } else if k < n {
                assert(pre_states[n] == states[n]);
                assert(pre_states[k + 1] == states[k + 1]);
                assert(pre_ids[k] == ids[k]);
                assert(states[m].trackers@[k] == states[n].trackers@[k]);
            }
        }
    }
}

} // verus!
