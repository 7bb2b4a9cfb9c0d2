//! What holds of the messages by which peers find each other.

use vstd::prelude::*;

use crate::discovery::messenger::{
    answer_of, endpoint_in, event_of, farewell, next_step, nominal_millis, reaction, telling_of,
    Destination, MessageHeader, MessageType, Reaction,
};
use crate::discovery::peers::PeerState;
use crate::link::node::{NodeId, NodeState};
use crate::link::payload::{PayloadEntry, SocketAddrV4};

verus! {

/// A message is another peer's where its identifier is another or its group is not zero. An
/// enabled peer answers such a message that its sender is there, at the address that it came
/// from, and reports an answer; every peer hears a farewell; messages of other types are nothing
/// to it.
pub proof fn law_messages_of_others_are_reacted_to(
    header: MessageHeader,
    ident: NodeId,
    is_enabled: bool,
    address: SocketAddrV4,
)
    requires
        header.ident != ident || header.group_id != 0,
    ensures
        header.message_type == MessageType::Alive && is_enabled ==> reaction(
            header,
            ident,
            is_enabled,
            Some(address),
        ) == Reaction::RespondAndReport(address),
        header.message_type == MessageType::Response && is_enabled ==> reaction(
            header,
            ident,
            is_enabled,
            Some(address),
        ) == Reaction::Report,
        header.message_type == MessageType::ByeBye ==> reaction(
            header,
            ident,
            is_enabled,
            Some(address),
        ) == Reaction::Leave,
        header.message_type is Other || (!is_enabled && header.message_type != MessageType::ByeBye)
            ==> reaction(header, ident, is_enabled, Some(address)) == Reaction::Ignore,
{
}

/// A message from an address that is none of IPv4 is ignored.
pub proof fn law_unknown_sources_are_ignored(
    header: MessageHeader,
    ident: NodeId,
    is_enabled: bool,
)
    ensures
        reaction(header, ident, is_enabled, None) == Reaction::Ignore,
{
}

/// From fifty milliseconds after the last broadcast on an enabled peer broadcasts and sleeps the
/// nominal time; a disabled one only sleeps.
pub proof fn law_broadcast_is_due_after_fifty_milliseconds(
    ttl: u8,
    ttl_ratio: u8,
    last_broadcast_time: u64,
    now: u64,
    is_enabled: bool,
)
    requires
        ttl_ratio > 0,
        now >= last_broadcast_time + 50_000_000,
    ensures
        ({
            let step = next_step(ttl, ttl_ratio, last_broadcast_time, now, is_enabled);
            &&& step.broadcast == is_enabled
            &&& step.sleep_millis * ttl_ratio <= ttl * 1000
            &&& ttl * 1000 < (step.sleep_millis + 1) * ttl_ratio
        }),
{
    law_nominal_time_is_the_share_of_the_time_to_live(ttl, ttl_ratio);
    let scaled = ttl as int * 1000;
    let ratio = ttl_ratio as int;
    assert(0 <= scaled / ratio <= scaled) by (nonlinear_arith)
        requires
            scaled >= 0,
            ratio > 0,
    ;
}

/// Before that no peer broadcasts, and sleeps the rest of the fifty milliseconds, by whole
/// milliseconds since the last broadcast.
pub proof fn law_broadcast_waits_for_fifty_milliseconds(
    ttl: u8,
    ttl_ratio: u8,
    last_broadcast_time: u64,
    now: u64,
    is_enabled: bool,
    millis: int,
)
    requires
        0 <= millis < 50,
        last_broadcast_time + millis * 1_000_000 <= now < last_broadcast_time + (millis + 1)
            * 1_000_000,
    ensures
        ({
            let step = next_step(ttl, ttl_ratio, last_broadcast_time, now, is_enabled);
            &&& !step.broadcast
            &&& step.sleep_millis == 50 - millis
        }),
{
}

/// A peer whose last broadcast lies ahead waits the whole fifty milliseconds.
pub proof fn law_broadcast_ahead_is_waited_for(
    ttl: u8,
    ttl_ratio: u8,
    last_broadcast_time: u64,
    now: u64,
    is_enabled: bool,
)
    requires
        last_broadcast_time > now,
    ensures
        ({
            let step = next_step(ttl, ttl_ratio, last_broadcast_time, now, is_enabled);
            &&& !step.broadcast
            &&& step.sleep_millis == 50
        }),
{
}

/// The nominal time is the whole number of milliseconds that the ratio lets fit into the time to
/// live: one more would not fit.
pub proof fn law_nominal_time_is_the_share_of_the_time_to_live(ttl: u8, ttl_ratio: u8)
    requires
        ttl_ratio > 0,
    ensures
        nominal_millis(ttl, ttl_ratio) * ttl_ratio <= ttl * 1000,
        ttl * 1000 < (nominal_millis(ttl, ttl_ratio) + 1) * ttl_ratio,
{
    let scaled = ttl as int * 1000;
    let ratio = ttl_ratio as int;
    assert(scaled / ratio * ratio <= scaled < (scaled / ratio + 1) * ratio) by (nonlinear_arith)
        requires
            scaled >= 0,
            ratio > 0,
    ;
}

/// A message about a peer comes from it, carries its whole state, and has the type, the time to
/// live and the destination that were asked for. An answer goes to the one that is answered.
pub proof fn law_message_carries_the_peer(
    peer_state: PeerState,
    ttl: u8,
    message_type: MessageType,
    to: Destination,
    address: SocketAddrV4,
)
    ensures
        ({
            let message = telling_of(peer_state, ttl, message_type, to);
            &&& message.from == peer_state.node_state.node_id
            &&& message.payload == Some(peer_state)
            &&& message.ttl == ttl
            &&& message.message_type == message_type
            &&& message.to == to
        }),
        ({
            let answer = answer_of(peer_state, ttl, address);
            &&& answer.from == peer_state.node_state.node_id
            &&& answer.payload == Some(peer_state)
            &&& answer.ttl == ttl
            &&& answer.message_type == MessageType::Response
            &&& answer.to == Destination::Address(address)
        }),
{
}

/// A farewell comes from the peer that leaves, goes to all, and carries nothing.
pub proof fn law_farewell_goes_to_all(node_id: NodeId)
    ensures
        farewell(node_id).from == node_id,
        farewell(node_id).to == Destination::Multicast,
        farewell(node_id).message_type == MessageType::ByeBye,
        farewell(node_id).payload is None,
        farewell(node_id).ttl == 0,
{
}

/// The endpoint of a peer is what the first entry says that tells one: entries before it that
/// tell none do not count, nor does anything behind it.
pub proof fn law_first_endpoint_counts(entries: Seq<PayloadEntry>, place: int, at: SocketAddrV4)
    requires
        0 <= place < entries.len(),
        entries[place] is MeasurementEndpointV4,
        entries[place]->MeasurementEndpointV4_0.endpoint == Some(at),
        forall|j: int|
            0 <= j < place ==> !((#[trigger] entries[j]) is MeasurementEndpointV4
                && entries[j]->MeasurementEndpointV4_0.endpoint is Some),
    ensures
        endpoint_in(entries) == Some(at),
    decreases place,
{
    if place > 0 {
        let rest = entries.skip(1);
        assert(!(entries[0] is MeasurementEndpointV4
            && entries[0]->MeasurementEndpointV4_0.endpoint is Some));
        assert forall|j: int| 0 <= j < place - 1 implies !((#[trigger] rest[
            j
        ]) is MeasurementEndpointV4 && rest[j]->MeasurementEndpointV4_0.endpoint is Some) by {
            assert(rest[j] == entries[j + 1]);
        }
        assert(rest[place - 1] == entries[place]);
        law_first_endpoint_counts(rest, place - 1, at);
    }
}

/// Where no entry tells an endpoint there is none.
pub proof fn law_no_endpoint_is_made_up(entries: Seq<PayloadEntry>)
    requires
        forall|j: int|
            0 <= j < entries.len() ==> !((#[trigger] entries[j]) is MeasurementEndpointV4
                && entries[j]->MeasurementEndpointV4_0.endpoint is Some),
    ensures
        endpoint_in(entries) is None,
    decreases entries.len(),
{
    if entries.len() > 0 {
        let rest = entries.skip(1);
        assert(!(entries[0] is MeasurementEndpointV4
            && entries[0]->MeasurementEndpointV4_0.endpoint is Some));
        assert forall|j: int| 0 <= j < rest.len() implies !((#[trigger] rest[
            j
        ]) is MeasurementEndpointV4 && rest[j]->MeasurementEndpointV4_0.endpoint is Some) by {
            assert(rest[j] == entries[j + 1]);
        }
        law_no_endpoint_is_made_up(rest);
    }
}

/// A message about a peer is told with the state that it carries, the time to live of its header
/// and the endpoint of its entries.
pub proof fn law_message_is_told_as_it_is(
    header: MessageHeader,
    entries: Seq<PayloadEntry>,
    node_state: NodeState,
)
    ensures
        event_of(header, entries, node_state) is PeerState,
        event_of(header, entries, node_state)->PeerState_0.node_state == node_state,
        event_of(header, entries, node_state)->PeerState_0.ttl == header.ttl,
        event_of(header, entries, node_state)->PeerState_0.measurement_endpoint == endpoint_in(
            entries,
        ),
{
}

} // verus!
