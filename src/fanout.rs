use vstd::prelude::*;

use crate::main_server::ServerMessage;
use tokio::sync::mpsc::UnboundedSender;

verus! {

/// tokio's `UnboundedSender`, the sending half of a subscriber's channel; held opaquely.
#[verifier::external_type_specification]
#[verifier::external_body]
#[verifier::reject_recursive_types(T)]
pub struct ExUnboundedSender<T>(UnboundedSender<T>);

/// One subscriber of the registry's events: its channel, with a record of every message handed
/// to the channel and of whether the last hand-over succeeded. Only `deliver` extends the record.
pub struct Subscriber {
    tx: UnboundedSender<ServerMessage>,
    handed: Ghost<Seq<ServerMessage>>,
    open: Ghost<bool>,
}

impl Subscriber {
    /// The channel of this subscriber.
    pub closed spec fn channel(&self) -> UnboundedSender<ServerMessage> {
        self.tx
    }

    /// Every message handed to the channel, in order.
    pub closed spec fn handed(&self) -> Seq<ServerMessage> {
        self.handed@
    }

    /// The receiving half was still there at the last hand-over.
    pub closed spec fn open(&self) -> bool {
        self.open@
    }

    pub fn new(tx: UnboundedSender<ServerMessage>) -> (r: Subscriber)
        ensures
            r.channel() == tx,
            r.handed() == Seq::<ServerMessage>::empty(),
            r.open(),
    {
        Subscriber { tx, handed: Ghost(Seq::empty()), open: Ghost(true) }
    }
}

/// Relies on tokio's `UnboundedSender::send`: it hands `message` to the channel's receiving half
/// and fails only when that half has been dropped; whether it is gone depends on the consumer.
#[verifier::external_body]
pub(crate) fn deliver(sub: &mut Subscriber, message: ServerMessage) -> (delivered: bool)
    ensures
        final(sub).channel() == old(sub).channel(),
        final(sub).handed() == old(sub).handed().push(message),
        final(sub).open() == delivered,
{
    sub.tx.send(message).is_ok()
}

/// `after` is `before` with `m` handed to each subscriber, in place.
pub open spec fn handed_to(before: Seq<Subscriber>, after: Seq<Subscriber>, m: ServerMessage) -> bool {
    &&& after.len() == before.len()
    &&& forall|j: int| 0 <= j < before.len() ==> {
        &&& (#[trigger] after[j]).channel() == before[j].channel()
        &&& after[j].handed() == before[j].handed().push(m)
    }
}

/// Position of the last subscriber whose last hand-over failed.
pub open spec fn last_dead(s: Seq<Subscriber>) -> Option<int>
    decreases s.len(),
{
    if s.len() == 0 {
        None
    } else if !s.last().open() {
        Some(s.len() - 1)
    } else {
        last_dead(s.drop_last())
    }
}

/// `s` without its last dead subscriber, whose place the last subscriber takes; `s` itself when
/// every subscriber is alive.
pub open spec fn pruned(s: Seq<Subscriber>) -> Seq<Subscriber> {
    match last_dead(s) {
        None => s,
        Some(k) => s.update(k, s.last()).drop_last(),
    }
}

/// `c` is a subscriber of `before` that has since been handed `msgs`.
pub open spec fn came_from(c: Subscriber, before: Seq<Subscriber>, msgs: Seq<ServerMessage>) -> bool {
    exists|j: int| 0 <= j < before.len() && (#[trigger] before[j]).channel() == c.channel()
        && c.handed() == before[j].handed() + msgs
}

/// Every subscriber now in `after` is one of `before` that was handed `msgs` in order, and at most
/// one subscriber was dropped per message.
pub open spec fn received_all(before: Seq<Subscriber>, after: Seq<Subscriber>, msgs: Seq<ServerMessage>) -> bool {
    &&& after.len() <= before.len()
    &&& after.len() + msgs.len() >= before.len()
    &&& forall|i: int| 0 <= i < after.len() ==> came_from(#[trigger] after[i], before, msgs)
}

pub proof fn lemma_last_dead(s: Seq<Subscriber>)
    ensures
        last_dead(s) matches Some(k) ==> 0 <= k < s.len() && !s[k].open()
            && forall|j: int| k < j < s.len() ==> #[trigger] s[j].open(),
        last_dead(s) is None ==> forall|j: int| 0 <= j < s.len() ==> #[trigger] s[j].open(),
    decreases s.len(),
{
    if s.len() > 0 {
        lemma_last_dead(s.drop_last());
        assert forall|j: int| 0 <= j < s.len() - 1 implies s.drop_last()[j] == s[j] by {}
    }
}

/// Each subscriber left after pruning is one of the subscribers before, and at most one is gone.
pub proof fn lemma_pruned(s: Seq<Subscriber>)
    ensures
        pruned(s).len() <= s.len() <= pruned(s).len() + 1,
        forall|i: int| 0 <= i < pruned(s).len() ==> exists|j: int| 0 <= j < s.len() && #[trigger] pruned(s)[i] == #[trigger] s[j],
{
    lemma_last_dead(s);
    match last_dead(s) {
        None => {
            assert forall|i: int| 0 <= i < pruned(s).len() implies exists|j: int| 0 <= j < s.len() && #[trigger] pruned(s)[i] == #[trigger] s[j] by {
                assert(pruned(s)[i] == s[i]);
            }
        },
        Some(k) => {
            assert forall|i: int| 0 <= i < pruned(s).len() implies exists|j: int| 0 <= j < s.len() && #[trigger] pruned(s)[i] == #[trigger] s[j] by {
                if i == k {
                    assert(pruned(s)[i] == s[s.len() - 1]);
                } else {
                    assert(pruned(s)[i] == s[i]);
                }
            }
        },
    }
}

} // verus!
