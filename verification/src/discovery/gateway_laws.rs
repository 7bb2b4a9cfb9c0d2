//! What holds of the deadlines by which peers have to be heard of, and of what is told of them.

use vstd::prelude::*;

use crate::discovery::gateway::{
    deadline, deadlines_after, first_from, heard_of, is_awaited, is_next_action, is_of_other,
    is_orderly, law_pruning_takes_exactly_the_expired, lemma_first_from,
    lemma_first_from_is_unique, of_others, told_at, told_by, told_by_farewell,
    with_node_state, GatewayAction, OnEvent, Received,
};
use crate::discovery::messenger::{Destination, MessageType};
use crate::discovery::peers::{PeerEvent, PeerState, PeerStateMessageType};
use crate::link::node::{NodeId, NodeState};
use crate::seq_facts::lemma_filter_push;

verus! {

/// A peer has to be heard of again within its time to live, but within three seconds where that
/// is longer.
pub proof fn law_deadline_is_at_most_three_seconds(now: u64, ttl: u8)
    ensures
        ttl <= 3 ==> deadline(now, ttl) == now + ttl * 1_000_000_000,
        ttl >= 3 ==> deadline(now, ttl) == now + 3_000_000_000,
{
}

/// A peer is awaited exactly if one of the deadlines is its own.
pub proof fn law_awaited_peers_have_a_deadline(timeouts: Seq<(u128, NodeId)>, id: NodeId)
    ensures
        is_awaited(timeouts, id) <==> exists|time: u128| #[trigger] timeouts.contains((time, id)),
{
    if is_awaited(timeouts, id) {
        let i = choose|i: int| 0 <= i < timeouts.len() && (#[trigger] timeouts[i]).1 == id;
        assert(timeouts.contains((timeouts[i].0, id)));
    }
    if exists|time: u128| #[trigger] timeouts.contains((time, id)) {
        let time = choose|time: u128| #[trigger] timeouts.contains((time, id));
        let i = choose|i: int| 0 <= i < timeouts.len() && timeouts[i] == (time, id);
        assert(timeouts[i].1 == id);
    }
}

/// Taking a peer off the deadlines takes off all of its own and no other: the last one stays
/// exactly if it is of another peer, and the same holds of those before it.
pub proof fn law_deadlines_are_taken_off_one_by_one(
    timeouts: Seq<(u128, NodeId)>,
    last: (u128, NodeId),
    id: NodeId,
)
    ensures
        last.1 == id ==> of_others(timeouts.push(last), id) == of_others(timeouts, id),
        last.1 != id ==> of_others(timeouts.push(last), id) == of_others(timeouts, id).push(last),
        of_others(Seq::empty(), id).len() == 0,
{
    lemma_filter_push(timeouts, last, is_of_other(id));
    reveal(Seq::filter);
}

/// Hearing of a peer gives it a deadline by its time to live, which stands before the first
/// deadline of the others that is not earlier. The others keep theirs.
pub proof fn law_hearing_gives_one_deadline(
    timeouts: Seq<(u128, NodeId)>,
    id: NodeId,
    now: u64,
    ttl: u8,
    place: int,
)
    requires
        ({
            let others = of_others(timeouts, id);
            let time = now + (if ttl < 3 {
                ttl as int
            } else {
                3
            }) * 1_000_000_000;
            &&& 0 <= place <= others.len()
            &&& forall|j: int| 0 <= j < place ==> (#[trigger] others[j]).0 < time
            &&& place < others.len() ==> others[place].0 >= time
        }),
    ensures
        ({
            let others = of_others(timeouts, id);
            let after = heard_of(timeouts, id, now, ttl);
            &&& after.len() == others.len() + 1
            &&& after[place].0 == now + (if ttl < 3 {
                ttl as int
            } else {
                3
            }) * 1_000_000_000
            &&& after[place].1 == id
            &&& forall|j: int| 0 <= j < place ==> #[trigger] after[j] == others[j]
            &&& forall|j: int| place < j < after.len() ==> #[trigger] after[j] == others[j - 1]
        }),
{
    let others = of_others(timeouts, id);
    let time = deadline(now, ttl);
    lemma_first_from_is_unique(others, time, place);
}

/// A new state of a peer replaces the old one as a whole, and leaves its endpoint alone.
pub proof fn law_new_state_keeps_the_endpoint(peer_state: PeerState, node_state: NodeState)
    ensures
        with_node_state(peer_state, node_state).node_state == node_state,
        with_node_state(peer_state, node_state).measurement_endpoint
            == peer_state.measurement_endpoint,
{
}

/// A peer that is to stop leaves with a farewell to all, whatever woke it up, and changes no
/// deadline.
pub proof fn law_stopping_peer_says_farewell(
    id: NodeId,
    timeouts: Seq<(u128, NodeId)>,
    received: Received,
    now: u64,
    action: GatewayAction,
)
    requires
        is_next_action(id, timeouts, true, received, now, action),
    ensures
        action is Leave,
        action->Leave_0.from == id,
        action->Leave_0.to == Destination::Multicast,
        action->Leave_0.message_type == MessageType::ByeBye,
        action->Leave_0.payload is None,
        deadlines_after(timeouts, true, received, now) == timeouts,
{
}

/// A gateway without messenger stops, and any other tells its observer and goes on.
pub proof fn law_gateway_goes_on_while_there_is_a_messenger(
    id: NodeId,
    timeouts: Seq<(u128, NodeId)>,
    received: Received,
    now: u64,
    action: GatewayAction,
)
    requires
        is_next_action(id, timeouts, false, received, now, action),
    ensures
        received is Disconnected ==> action is Stop && deadlines_after(
            timeouts,
            false,
            received,
            now,
        ) == timeouts,
        !(received is Disconnected) ==> action is Notify && action->Notify_0@ == told_at(
            timeouts,
            received,
            now,
        ),
{
}

/// A peer's message about itself is told whole, alone, and renews its deadline.
pub proof fn law_message_is_told_and_renews(
    timeouts: Seq<(u128, NodeId)>,
    msg: PeerStateMessageType,
    now: u64,
)
    ensures
        ({
            let received = Received::Event(OnEvent::PeerState(msg));
            let told = told_at(timeouts, received, now);
            &&& told.len() == 1
            &&& told[0] is SawPeer
            &&& told[0]->SawPeer_0.node_state == msg.node_state
            &&& told[0]->SawPeer_0.measurement_endpoint == msg.measurement_endpoint
            &&& told_by(msg) == told[0]
            &&& deadlines_after(timeouts, false, received, now) == heard_of(
                timeouts,
                msg.node_state.node_id,
                now,
                msg.ttl,
            )
        }),
{
}

/// A farewell is told, once, exactly if its peer has a deadline, which it then loses.
pub proof fn law_farewell_is_told_of_awaited_peers(
    timeouts: Seq<(u128, NodeId)>,
    id: NodeId,
    now: u64,
)
    ensures
        ({
            let received = Received::Event(OnEvent::Byebye(id));
            let told = told_at(timeouts, received, now);
            &&& (exists|i: int| 0 <= i < timeouts.len() && (#[trigger] timeouts[i]).1 == id) ==> {
                &&& told.len() == 1
                &&& told[0] == PeerEvent::PeerLeft(id)
                &&& told_by_farewell(timeouts, id) == Some(PeerEvent::PeerLeft(id))
            }
            &&& (forall|i: int| 0 <= i < timeouts.len() ==> (#[trigger] timeouts[i]).1 != id) ==> {
                &&& told.len() == 0
                &&& told_by_farewell(timeouts, id) is None
            }
            &&& deadlines_after(timeouts, false, received, now) == of_others(timeouts, id)
        }),
{
}

/// When nothing came in for a while, exactly the peers whose deadlines are over are told as
/// timed out, in the order of their deadlines, and lose them; the others keep theirs.
pub proof fn law_exactly_the_expired_time_out(timeouts: Seq<(u128, NodeId)>, now: u64, over: int)
    requires
        is_orderly(timeouts),
        0 <= over <= timeouts.len(),
        forall|j: int| 0 <= j < over ==> (#[trigger] timeouts[j]).0 < now,
        forall|j: int| over <= j < timeouts.len() ==> (#[trigger] timeouts[j]).0 >= now,
    ensures
        ({
            let told = told_at(timeouts, Received::Timeout, now);
            let rest = deadlines_after(timeouts, false, Received::Timeout, now);
            &&& told.len() == over
            &&& forall|j: int|
                0 <= j < over ==> #[trigger] told[j] == PeerEvent::PeerTimedOut(timeouts[j].1)
            &&& rest.len() == timeouts.len() - over
            &&& forall|j: int| 0 <= j < rest.len() ==> #[trigger] rest[j] == timeouts[over + j]
        }),
{
    lemma_first_from(timeouts, now as int);
    law_pruning_takes_exactly_the_expired(timeouts, now);
    let first = first_from(timeouts, now as int);
    if first < over {
        assert(timeouts[first].0 < now);
    }
    if over < first {
        assert(timeouts[over].0 < now);
    }
}

/// The deadlines of an orderly list can be parted in those that are over and those that are not.
pub proof fn law_expired_deadlines_come_first(timeouts: Seq<(u128, NodeId)>, now: u64) -> (over:
    int)
    requires
        is_orderly(timeouts),
    ensures
        0 <= over <= timeouts.len(),
        forall|j: int| 0 <= j < over ==> (#[trigger] timeouts[j]).0 < now,
        forall|j: int| over <= j < timeouts.len() ==> (#[trigger] timeouts[j]).0 >= now,
{
    lemma_first_from(timeouts, now as int);
    law_pruning_takes_exactly_the_expired(timeouts, now);
    first_from(timeouts, now as int)
}

} // verus!
