//! The gateway between the network and the list of peers: who was heard of, until when that
//! holds, and who is gone.

use vstd::prelude::*;

use crate::discovery::messenger::{farewell, send_byebye, Outgoing};
use crate::discovery::peers::{
    ControllerPeer, GatewayObserver, PeerEvent, PeerState, PeerStateMessageType,
};
use crate::link::ghostxform::GhostXForm;
use crate::link::node::{NodeId, NodeState};
use crate::link::payload::SocketAddrV4;
use crate::link::sessions::SessionId;
use crate::seq_facts::{
    lemma_filter_keeps_all, lemma_filter_keeps_pairs, lemma_filter_members, lemma_filter_step,
};

verus! {

/// Seconds after which a peer that was not heard of is gone, whatever its time to live.
pub const MAX_TTL_SECS: u8 = 3;

/// Milliseconds to wait for an event before expired peers are looked for.
pub const EVENT_TIMEOUT_MILLIS: u64 = 100;

/// What the messenger tells the gateway.
#[derive(Clone, Copy, Debug)]
pub enum OnEvent {
    PeerState(PeerStateMessageType),
    Byebye(NodeId),
}

/// Whether the peer `id` is on the list of deadlines.
pub open spec fn is_awaited(timeouts: Seq<(u128, NodeId)>, id: NodeId) -> bool {
    exists|i: int| 0 <= i < timeouts.len() && (#[trigger] timeouts[i]).1 == id
}

/// Whether a deadline is that of another peer than `id`.
pub open spec fn is_of_other(id: NodeId) -> spec_fn((u128, NodeId)) -> bool {
    |t: (u128, NodeId)| t.1 != id
}

/// The deadlines of all peers but `id`.
pub open spec fn of_others(timeouts: Seq<(u128, NodeId)>, id: NodeId) -> Seq<(u128, NodeId)> {
    timeouts.filter(is_of_other(id))
}

/// Whether `i` is the first place whose deadline is not before `time`, or the end of the list.
pub open spec fn is_first_from(timeouts: Seq<(u128, NodeId)>, time: int, i: int) -> bool {
    &&& 0 <= i <= timeouts.len()
    &&& forall|j: int| 0 <= j < i ==> (#[trigger] timeouts[j]).0 < time
    &&& i < timeouts.len() ==> timeouts[i].0 >= time
}

/// The first place whose deadline is not before `time`, or the end of the list.
pub open spec fn first_from(timeouts: Seq<(u128, NodeId)>, time: int) -> int {
    choose|i: int| is_first_from(timeouts, time, i)
}

/// The first place whose deadline is not before `time`.
fn place_from(timeouts: &Vec<(u128, NodeId)>, time: u128) -> (i: usize)
    ensures
        is_first_from(timeouts@, time as int, i as int),
        i == first_from(timeouts@, time as int),
{
    let mut i: usize = 0;
    while i < timeouts.len() && timeouts[i].0 < time
        invariant
            i <= timeouts@.len(),
            forall|j: int| 0 <= j < i ==> (#[trigger] timeouts@[j]).0 < time,
        decreases timeouts@.len() - i,
    {
        i = i + 1;
    }
    proof {
        lemma_first_from_is_unique(timeouts@, time as int, i as int);
    }
    i
}

/// There is one first place from a time.
pub proof fn lemma_first_from_is_unique(timeouts: Seq<(u128, NodeId)>, time: int, i: int)
    requires
        is_first_from(timeouts, time, i),
    ensures
        first_from(timeouts, time) == i,
{
    let first = first_from(timeouts, time);
    assert(is_first_from(timeouts, time, first));
    if first < i {
        assert(timeouts[first].0 < time);
    }
    if i < first {
        assert(timeouts[i].0 < time);
    }
}

/// Whether the peer is on the list of deadlines.
pub fn find_peer(peer_id: &NodeId, peer_timeouts: &Vec<(u128, NodeId)>) -> (found: bool)
    ensures
        found == is_awaited(peer_timeouts@, *peer_id),
{
    let mut i: usize = 0;
    while i < peer_timeouts.len()
        invariant
            i <= peer_timeouts@.len(),
            forall|j: int| 0 <= j < i ==> (#[trigger] peer_timeouts@[j]).1 != *peer_id,
        decreases peer_timeouts@.len() - i,
    {
        if peer_timeouts[i].1 == *peer_id {
            return true;
        }
        i = i + 1;
    }
    false
}

/// Takes a peer off the list of deadlines.
fn forget(peer_id: NodeId, peer_timeouts: &mut Vec<(u128, NodeId)>)
    ensures
        final(peer_timeouts)@ == of_others(old(peer_timeouts)@, peer_id),
{
    let ghost before = peer_timeouts@;
    let ghost keep = is_of_other(peer_id);
    let mut kept: Vec<(u128, NodeId)> = Vec::new();
    let mut i: usize = 0;
    proof {
        lemma_filter_members(kept@, keep);
        assert(before.take(0) =~= kept@);
        lemma_filter_keeps_all(kept@, keep);
    }
    while i < peer_timeouts.len()
        invariant
            i <= peer_timeouts@.len(),
            peer_timeouts@ == before,
            keep == is_of_other(peer_id),
            kept@ == before.take(i as int).filter(keep),
        decreases peer_timeouts@.len() - i,
    {
        proof {
            lemma_filter_step(before, i as int, keep);
        }
        let entry = peer_timeouts[i];
        if entry.1 != peer_id {
            kept.push(entry);
        }
        i = i + 1;
    }
    assert(before.take(i as int) =~= before);
    *peer_timeouts = kept;
}

/// The deadline of a peer that was heard of at `now`: the time to live, but no more than three
/// seconds.
pub open spec fn deadline(now: u64, ttl: u8) -> int {
    now + (if ttl < MAX_TTL_SECS {
        ttl as int
    } else {
        MAX_TTL_SECS as int
    }) * 1_000_000_000
}

/// The list of deadlines after a peer was heard of at `now`: its old deadline gone, and its new
/// one before the first that is not earlier.
pub open spec fn heard_of(
    timeouts: Seq<(u128, NodeId)>,
    id: NodeId,
    now: u64,
    ttl: u8,
) -> Seq<(u128, NodeId)> {
    let others = of_others(timeouts, id);
    others.insert(first_from(others, deadline(now, ttl)), (deadline(now, ttl) as u128, id))
}

/// What the observer hears of a peer's message about itself.
pub open spec fn told_by(msg: PeerStateMessageType) -> PeerEvent {
    PeerEvent::SawPeer(
        PeerState { node_state: msg.node_state, measurement_endpoint: msg.measurement_endpoint },
    )
}

/// Takes note of a peer's message about itself, and returns what the observer has to hear of.
pub fn on_peer_state(
    msg: PeerStateMessageType,
    peer_timeouts: &mut Vec<(u128, NodeId)>,
    now: u64,
    _self_node_id: NodeId,
) -> (event: PeerEvent)
    ensures
        final(peer_timeouts)@ == heard_of(
            old(peer_timeouts)@,
            msg.node_state.node_id,
            now,
            msg.ttl,
        ),
        is_orderly(old(peer_timeouts)@) ==> is_replaced(
            old(peer_timeouts)@,
            final(peer_timeouts)@,
            msg.node_state.node_id,
            deadline(now, msg.ttl),
        ),
        event == told_by(msg),
{
    proof {
        if is_orderly(peer_timeouts@) {
            law_hearing_replaces_one_deadline(
                peer_timeouts@,
                msg.node_state.node_id,
                now,
                msg.ttl,
            );
        }
    }
    let peer_id = msg.node_state.ident();
    forget(peer_id, peer_timeouts);
    let secs: u128 = if msg.ttl < MAX_TTL_SECS {
        msg.ttl as u128
    } else {
        MAX_TTL_SECS as u128
    };
    let timeout: u128 = now as u128 + secs * 1_000_000_000;
    let i: usize = place_from(peer_timeouts, timeout);
    peer_timeouts.insert(i, (timeout, peer_id));
    PeerEvent::SawPeer(
        PeerState { node_state: msg.node_state, measurement_endpoint: msg.measurement_endpoint },
    )
}

/// What the observer hears of a peer's farewell: nothing unless the peer was awaited.
pub open spec fn told_by_farewell(timeouts: Seq<(u128, NodeId)>, id: NodeId) -> Option<PeerEvent> {
    if is_awaited(timeouts, id) {
        Some(PeerEvent::PeerLeft(id))
    } else {
        None
    }
}

/// Takes note of a peer's farewell. The observer has to hear of it if the peer was awaited.
pub fn on_byebye(peer_id: NodeId, peer_timeouts: &mut Vec<(u128, NodeId)>) -> (event: Option<
    PeerEvent,
>)
    ensures
        final(peer_timeouts)@ == of_others(old(peer_timeouts)@, peer_id),
        event == told_by_farewell(old(peer_timeouts)@, peer_id),
{
    if find_peer(&peer_id, peer_timeouts) {
        forget(peer_id, peer_timeouts);
        Some(PeerEvent::PeerLeft(peer_id))
    } else {
        proof {
            let keep = is_of_other(peer_id);
            assert forall|i: int| 0 <= i < peer_timeouts@.len() implies keep(
                #[trigger] peer_timeouts@[i],
            ) by {
                assert(peer_timeouts@[i].1 != peer_id);
            }
            lemma_filter_keeps_all(peer_timeouts@, keep);
        }
        None
    }
}

/// Takes off and returns the entries before the first deadline that is not over at `now`.
pub fn prune_expired_peers(peer_timeouts: &mut Vec<(u128, NodeId)>, now: u64) -> (expired: Vec<
    (u128, NodeId),
>)
    ensures
        ({
            let i = first_from(old(peer_timeouts)@, now as int);
            &&& is_first_from(old(peer_timeouts)@, now as int, i)
            &&& expired@ == old(peer_timeouts)@.take(i)
            &&& final(peer_timeouts)@ == old(peer_timeouts)@.skip(i)
        }),
{
    let i: usize = place_from(peer_timeouts, now as u128);
    let ghost before = peer_timeouts@;
    let mut rest = peer_timeouts.split_off(i);
    let mut expired: Vec<(u128, NodeId)> = Vec::new();
    std::mem::swap(&mut expired, peer_timeouts);
    std::mem::swap(&mut rest, peer_timeouts);
    assert(expired@ =~= before.take(i as int));
    assert(peer_timeouts@ =~= before.skip(i as int));
    expired
}

/// What woke the gateway up.
#[derive(Clone, Copy, Debug)]
pub enum Received {
    /// The messenger told it something.
    Event(OnEvent),
    /// It was told nothing for a while.
    Timeout,
    /// The messenger is gone.
    Disconnected,
}

/// What the gateway does next.
#[derive(Debug)]
pub enum GatewayAction {
    /// Send this farewell and end.
    Leave(Outgoing),
    /// Tell the observer these events and go on.
    Notify(Vec<PeerEvent>),
    /// End.
    Stop,
}

/// A peer with a new state, which answers measurements where it did before.
pub open spec fn with_node_state(peer_state: PeerState, node_state: NodeState) -> PeerState {
    PeerState { node_state, measurement_endpoint: peer_state.measurement_endpoint }
}

/// The deadlines after the gateway was woken up at `now`.
pub open spec fn deadlines_after(
    timeouts: Seq<(u128, NodeId)>,
    should_stop: bool,
    received: Received,
    now: u64,
) -> Seq<(u128, NodeId)> {
    if should_stop {
        timeouts
    } else {
        match received {
            Received::Event(OnEvent::PeerState(msg)) => heard_of(
                timeouts,
                msg.node_state.node_id,
                now,
                msg.ttl,
            ),
            Received::Event(OnEvent::Byebye(id)) => of_others(timeouts, id),
            Received::Timeout => timeouts.skip(first_from(timeouts, now as int)),
            Received::Disconnected => timeouts,
        }
    }
}

/// What the observer hears of when the gateway is woken up at `now`.
pub open spec fn told_at(timeouts: Seq<(u128, NodeId)>, received: Received, now: u64) -> Seq<
    PeerEvent,
> {
    match received {
        Received::Event(OnEvent::PeerState(msg)) => seq![told_by(msg)],
        Received::Event(OnEvent::Byebye(id)) => match told_by_farewell(timeouts, id) {
            Some(event) => seq![event],
            None => seq![],
        },
        Received::Timeout => timeouts.take(first_from(timeouts, now as int)).map_values(
            |t: (u128, NodeId)| PeerEvent::PeerTimedOut(t.1),
        ),
        Received::Disconnected => seq![],
    }
}

/// Whether `action` is what the gateway of the peer `id` does when it is woken up at `now`.
pub open spec fn is_next_action(
    id: NodeId,
    timeouts: Seq<(u128, NodeId)>,
    should_stop: bool,
    received: Received,
    now: u64,
    action: GatewayAction,
) -> bool {
    if should_stop {
        action == GatewayAction::Leave(farewell(id))
    } else if received is Disconnected {
        action == GatewayAction::Stop
    } else {
        &&& action matches GatewayAction::Notify(events)
        &&& events@ == told_at(timeouts, received, now)
    }
}

/// The gateway: this peer, the list of peers, and the deadlines by which they have to be heard
/// of again. Times are in nanoseconds of a clock that does not go back; deadlines are held wider
/// than clock readings, so that every reading has one.
pub struct PeerGateway {
    pub observer: GatewayObserver,
    pub peer_state: PeerState,
    pub peer_timeouts: Vec<(u128, NodeId)>,
}

impl PeerGateway {
    /// The gateway of a peer that answers measurements at `measurement_endpoint`.
    pub fn new(
        peer_state: PeerState,
        peers: Vec<ControllerPeer>,
        measurement_endpoint: Option<SocketAddrV4>,
    ) -> (gateway: PeerGateway)
        ensures
            gateway.observer.peers@ == peers@,
            gateway.peer_state == (PeerState {
                node_state: peer_state.node_state,
                measurement_endpoint,
            }),
            gateway.peer_timeouts@.len() == 0,
    {
        PeerGateway {
            observer: GatewayObserver::new(peers),
            peer_state: PeerState { node_state: peer_state.node_state, measurement_endpoint },
            peer_timeouts: Vec::new(),
        }
    }

    /// Takes over a new state of this peer, and returns what pings are answered by from now on.
    /// The endpoint stays.
    pub fn update_node_state(
        &mut self,
        node_state: NodeState,
        _measurement_endpoint: Option<SocketAddrV4>,
        ghost_xform: GhostXForm,
    ) -> (answered_by: (SessionId, GhostXForm))
        ensures
            final(self).peer_state == with_node_state(old(self).peer_state, node_state),
            final(self).observer == old(self).observer,
            final(self).peer_timeouts == old(self).peer_timeouts,
            answered_by == (node_state.session_id, ghost_xform),
    {
        self.peer_state.node_state = node_state;
        (node_state.session_id, ghost_xform)
    }

    /// Handles what woke the gateway up at `now`. One that is to stop says farewell.
    pub fn on_wakeup(&mut self, should_stop: bool, received: Received, now: u64) -> (action:
        GatewayAction)
        ensures
            final(self).observer == old(self).observer,
            final(self).peer_state == old(self).peer_state,
            final(self).peer_timeouts@ == deadlines_after(
                old(self).peer_timeouts@,
                should_stop,
                received,
                now,
            ),
            is_next_action(
                old(self).peer_state.node_state.node_id,
                old(self).peer_timeouts@,
                should_stop,
                received,
                now,
                action,
            ),
            !should_stop && received is Timeout ==> is_first_from(
                old(self).peer_timeouts@,
                now as int,
                first_from(old(self).peer_timeouts@, now as int),
            ),
    {
        if should_stop {
            return GatewayAction::Leave(send_byebye(self.peer_state.ident()));
        }
        match received {
            Received::Event(OnEvent::PeerState(msg)) => {
                let self_node_id = self.peer_state.ident();
                let event = on_peer_state(msg, &mut self.peer_timeouts, now, self_node_id);
                let events: Vec<PeerEvent> = vec![event];
                assert(events@ =~= seq![told_by(msg)]);
                GatewayAction::Notify(events)
            },
            Received::Event(OnEvent::Byebye(id)) => {
                let mut events: Vec<PeerEvent> = Vec::new();
                if let Some(event) = on_byebye(id, &mut self.peer_timeouts) {
                    events.push(event);
                }
                assert(events@ =~= told_at(old(self).peer_timeouts@, received, now));
                GatewayAction::Notify(events)
            },
            Received::Timeout => {
                let expired = prune_expired_peers(&mut self.peer_timeouts, now);
                let mut events: Vec<PeerEvent> = Vec::new();
                let mut i: usize = 0;
                while i < expired.len()
                    invariant
                        i <= expired@.len(),
                        events@.len() == i,
                        forall|j: int|
                            0 <= j < i ==> #[trigger] events@[j] == PeerEvent::PeerTimedOut(
                                expired@[j].1,
                            ),
                    decreases expired@.len() - i,
                {
                    events.push(PeerEvent::PeerTimedOut(expired[i].1));
                    i = i + 1;
                }
                assert(events@ =~= told_at(old(self).peer_timeouts@, received, now));
                GatewayAction::Notify(events)
            },
            Received::Disconnected => GatewayAction::Stop,
        }
    }
}

/// Whether the deadlines ascend and no peer has two.
pub open spec fn is_orderly(timeouts: Seq<(u128, NodeId)>) -> bool {
    forall|i: int, j: int|
        0 <= i < j < timeouts.len() ==> (#[trigger] timeouts[i]).0 <= (#[trigger] timeouts[j]).0
            && timeouts[i].1 != timeouts[j].1
}

/// Taking a peer off an orderly list leaves it orderly and without that peer.
pub proof fn law_farewell_keeps_the_list_orderly(timeouts: Seq<(u128, NodeId)>, id: NodeId)
    requires
        is_orderly(timeouts),
    ensures
        is_orderly(of_others(timeouts, id)),
        !is_awaited(of_others(timeouts, id), id),
{
    let keep = is_of_other(id);
    lemma_filter_keeps_pairs(
        timeouts,
        keep,
        |a: (u128, NodeId), b: (u128, NodeId)| a.0 <= b.0 && a.1 != b.1,
    );
    lemma_filter_members(timeouts, keep);
    if is_awaited(of_others(timeouts, id), id) {
        let i = choose|i: int|
            0 <= i < of_others(timeouts, id).len() && (#[trigger] of_others(timeouts, id)[i]).1
                == id;
        assert(keep(of_others(timeouts, id)[i]));
    }
}

/// There is a first place from every time.
proof fn lemma_first_from_exists(timeouts: Seq<(u128, NodeId)>, time: int, n: nat) -> (i: int)
    requires
        n <= timeouts.len(),
        forall|j: int| 0 <= j < n ==> (#[trigger] timeouts[j]).0 < time,
    ensures
        is_first_from(timeouts, time, i),
    decreases timeouts.len() - n,
{
    if n < timeouts.len() && timeouts[n as int].0 < time {
        lemma_first_from_exists(timeouts, time, n + 1)
    } else {
        n as int
    }
}

/// The place that `first_from` gives is a first place.
pub proof fn lemma_first_from(timeouts: Seq<(u128, NodeId)>, time: int)
    ensures
        is_first_from(timeouts, time, first_from(timeouts, time)),
{
    let i = lemma_first_from_exists(timeouts, time, 0);
}

/// Hearing of a peer keeps the list of deadlines orderly, and puts the peer on it.
pub proof fn law_hearing_keeps_the_list_orderly(
    timeouts: Seq<(u128, NodeId)>,
    id: NodeId,
    now: u64,
    ttl: u8,
)
    requires
        is_orderly(timeouts),
    ensures
        is_orderly(heard_of(timeouts, id, now, ttl)),
        is_awaited(heard_of(timeouts, id, now, ttl), id),
{
    law_farewell_keeps_the_list_orderly(timeouts, id);
    let others = of_others(timeouts, id);
    let time = deadline(now, ttl);
    lemma_first_from(others, time);
    let place = first_from(others, time);
    let after = heard_of(timeouts, id, now, ttl);
    assert(after[place] == (time as u128, id));
    assert forall|i: int, j: int| 0 <= i < j < after.len() implies (#[trigger] after[i]).0 <= (
    #[trigger] after[j]).0 && after[i].1 != after[j].1 by {
        let a = if i < place {
            i
        } else {
            i - 1
        };
        let b = if j < place {
            j
        } else {
            j - 1
        };
        if i != place {
            assert(after[i] == others[a]);
        }
        if j != place {
            assert(after[j] == others[b]);
            if place < others.len() && place <= b {
                assert(others[place].0 <= others[b].0);
            }
        }
    }
}

/// Whether `after` is the list `before` with the deadline of a peer replaced: it is orderly, has
/// the peer once, with the deadline `time`, and has the deadlines of all other peers as `before`
/// has them, in the same order.
pub open spec fn is_replaced(
    before: Seq<(u128, NodeId)>,
    after: Seq<(u128, NodeId)>,
    id: NodeId,
    time: int,
) -> bool {
    &&& is_orderly(after)
    &&& exists|place: int|
        {
            &&& 0 <= place < after.len()
            &&& (#[trigger] after[place]).0 == time
            &&& after[place].1 == id
            &&& after.remove(place) == of_others(before, id)
        }
    &&& forall|i: int, j: int|
        0 <= i < after.len() && 0 <= j < after.len() && (#[trigger] after[i]).1 == id && (
        #[trigger] after[j]).1 == id ==> i == j
    &&& of_others(after, id) == of_others(before, id)
}

/// Hearing of a peer replaces its deadline on an orderly list and nothing else: the list stays
/// orderly and has the peer exactly once, with its new deadline.
pub proof fn law_hearing_replaces_one_deadline(
    timeouts: Seq<(u128, NodeId)>,
    id: NodeId,
    now: u64,
    ttl: u8,
)
    requires
        is_orderly(timeouts),
    ensures
        is_replaced(timeouts, heard_of(timeouts, id, now, ttl), id, deadline(now, ttl)),
{
    law_hearing_keeps_the_list_orderly(timeouts, id, now, ttl);
    law_farewell_keeps_the_list_orderly(timeouts, id);
    let others = of_others(timeouts, id);
    let time = deadline(now, ttl);
    lemma_first_from(others, time);
    let place = first_from(others, time);
    let entry = (time as u128, id);
    let after = heard_of(timeouts, id, now, ttl);
    assert(after[place] == entry);
    assert(after.remove(place) =~= others);
    let keep = is_of_other(id);
    let front = others.take(place);
    let back = others.skip(place);
    let one = seq![entry];
    assert(others =~= front + back);
    assert(after =~= (front + one) + back);
    Seq::filter_distributes_over_add(front + one, back, keep);
    Seq::filter_distributes_over_add(front, one, keep);
    Seq::filter_distributes_over_add(front, back, keep);
    lemma_filter_members(one, keep);
    if one.filter(keep).len() > 0 {
        let t = one.filter(keep)[0];
        assert(keep(t) && one.contains(t));
    }
    assert(one.filter(keep) =~= Seq::<(u128, NodeId)>::empty());
    assert(front.filter(keep) + one.filter(keep) =~= front.filter(keep));
    assert forall|i: int| 0 <= i < others.len() implies keep(#[trigger] others[i]) by {
        assert(others[i].1 != id);
    }
    lemma_filter_keeps_all(others, keep);
}

/// Pruning an orderly list at `now` takes off exactly the peers whose deadlines are over, and
/// leaves the list orderly.
pub proof fn law_pruning_takes_exactly_the_expired(timeouts: Seq<(u128, NodeId)>, now: u64)
    requires
        is_orderly(timeouts),
    ensures
        ({
            let i = first_from(timeouts, now as int);
            &&& timeouts.take(i) + timeouts.skip(i) == timeouts
            &&& forall|j: int| 0 <= j < i ==> (#[trigger] timeouts[j]).0 < now
            &&& forall|j: int| i <= j < timeouts.len() ==> (#[trigger] timeouts[j]).0 >= now
            &&& is_orderly(timeouts.skip(i))
        }),
{
    lemma_first_from(timeouts, now as int);
    let i = first_from(timeouts, now as int);
    assert(timeouts.take(i) + timeouts.skip(i) =~= timeouts);
    assert forall|j: int| i <= j < timeouts.len() implies (#[trigger] timeouts[j]).0 >= now by {
        assert(timeouts[i].0 <= timeouts[j].0);
    }
}

/// A peer that was heard of outlives every pruning up to its deadline, which is at most three
/// seconds later, and no pruning after it.
pub proof fn law_peer_is_kept_until_its_deadline(
    timeouts: Seq<(u128, NodeId)>,
    id: NodeId,
    now: u64,
    ttl: u8,
    later: u64,
)
    requires
        is_orderly(timeouts),
    ensures
        ({
            let after = heard_of(timeouts, id, now, ttl);
            &&& is_awaited(after.skip(first_from(after, later as int)), id) <==> later <= deadline(
                now,
                ttl,
            )
            &&& deadline(now, ttl) <= now + 3_000_000_000
        }),
{
    law_hearing_keeps_the_list_orderly(timeouts, id, now, ttl);
    let others = of_others(timeouts, id);
    lemma_first_from(others, deadline(now, ttl));
    let place = first_from(others, deadline(now, ttl));
    let after = heard_of(timeouts, id, now, ttl);
    assert(after[place] == (deadline(now, ttl) as u128, id));
    law_pruning_takes_exactly_the_expired(after, later);
    lemma_first_from(after, later as int);
    let i = first_from(after, later as int);
    let rest = after.skip(i);
    if later <= deadline(now, ttl) {
        assert(place >= i);
        assert(rest[place - i] == after[place]);
    }
    if is_awaited(rest, id) {
        let k = choose|k: int| 0 <= k < rest.len() && (#[trigger] rest[k]).1 == id;
        assert(after[i + k] == rest[k]);
        assert(i + k == place);
    }
}

} // verus!
