//! The messages by which peers find each other: when to send them, and what to do with those
//! that come in.

use vstd::prelude::*;

use crate::discovery::gateway::OnEvent;
use crate::discovery::peers::{PeerState, PeerStateMessageType};
use crate::link::node::{NodeId, NodeState};
use crate::link::payload::{PayloadEntry, SocketAddrV4};

verus! {

/// Milliseconds that lie at least between two broadcasts.
pub const MIN_BROADCAST_MILLIS: u64 = 50;

/// What a message is about.
#[derive(Clone, Copy, Debug, PartialEq, Eq, Structural)]
pub enum MessageType {
    /// The sender is there.
    Alive,
    /// The sender answers that it is there, too.
    Response,
    /// The sender leaves.
    ByeBye,
    /// A message of another type.
    Other(u8),
}

/// The header of a message.
#[derive(Clone, Copy, Debug, PartialEq, Eq, Structural)]
pub struct MessageHeader {
    pub ttl: u8,
    pub message_type: MessageType,
    pub group_id: u16,
    pub ident: NodeId,
}

/// Where a message goes.
#[derive(Clone, Copy, Debug, PartialEq, Eq, Structural)]
pub enum Destination {
    /// To all peers on the network.
    Multicast,
    /// To one address.
    Address(SocketAddrV4),
}

/// A message to be sent. Without a peer state its payload is empty.
#[derive(Clone, Copy, Debug)]
pub struct Outgoing {
    pub from: NodeId,
    pub ttl: u8,
    pub message_type: MessageType,
    pub payload: Option<PeerState>,
    pub to: Destination,
}

/// What to do with a message that came in.
#[derive(Clone, Copy, Debug, PartialEq, Eq, Structural)]
pub enum Reaction {
    /// Nothing.
    Ignore,
    /// Answer the sender, then tell the gateway of it.
    RespondAndReport(SocketAddrV4),
    /// Tell the gateway of the sender.
    Report,
    /// Tell the gateway that the sender leaves.
    Leave,
}

/// Whether a message is this peer's own.
pub open spec fn is_own(header: MessageHeader, ident: NodeId) -> bool {
    header.ident == ident && header.group_id == 0
}

/// The reaction to a message from `source`, if that is an IPv4 address. Own messages are
/// ignored, and while disabled all but farewells.
pub open spec fn reaction(
    header: MessageHeader,
    ident: NodeId,
    is_enabled: bool,
    source: Option<SocketAddrV4>,
) -> Reaction {
    match source {
        Some(address) if !is_own(header, ident) => match header.message_type {
            MessageType::Alive if is_enabled => Reaction::RespondAndReport(address),
            MessageType::Response if is_enabled => Reaction::Report,
            MessageType::ByeBye => Reaction::Leave,
            _ => Reaction::Ignore,
        },
        _ => Reaction::Ignore,
    }
}

/// Sends and receives messages. Times are in nanoseconds of a clock that does not go back.
#[derive(Clone, Copy, Debug)]
pub struct Messenger {
    pub ttl: u8,
    pub ttl_ratio: u8,
    pub last_broadcast_time: u64,
}

impl Messenger {
    /// A messenger whose messages hold for two seconds, within which there are twenty
    /// broadcasts.
    pub fn new(epoch: u64) -> (messenger: Messenger)
        ensures
            messenger.ttl == 2,
            messenger.ttl_ratio == 20,
            messenger.last_broadcast_time == epoch,
    {
        Messenger { ttl: 2, ttl_ratio: 20, last_broadcast_time: epoch }
    }

    /// Decides what to do with a message that came in.
    pub fn on_message(
        &self,
        header: &MessageHeader,
        ident: NodeId,
        is_enabled: bool,
        source: Option<SocketAddrV4>,
    ) -> (r: Reaction)
        ensures
            r == reaction(*header, ident, is_enabled, source),
    {
        if header.ident == ident && header.group_id == 0 {
            return Reaction::Ignore;
        }
        match source {
            Some(address) => match header.message_type {
                MessageType::Alive => {
                    if !is_enabled {
                        return Reaction::Ignore;
                    }
                    Reaction::RespondAndReport(address)
                },
                MessageType::Response => {
                    if !is_enabled {
                        return Reaction::Ignore;
                    }
                    Reaction::Report
                },
                MessageType::ByeBye => Reaction::Leave,
                MessageType::Other(_) => Reaction::Ignore,
            },
            None => Reaction::Ignore,
        }
    }
}

/// What the broadcaster does next: broadcast or not, and then sleep.
#[derive(Clone, Copy, Debug, PartialEq, Eq, Structural)]
pub struct BroadcastStep {
    pub broadcast: bool,
    pub sleep_millis: u64,
}

/// Whole milliseconds since the last broadcast; zero if that is yet to come.
pub open spec fn millis_since(last_broadcast_time: u64, now: u64) -> int {
    if last_broadcast_time > now {
        0
    } else {
        (now - last_broadcast_time) / 1_000_000
    }
}

/// Milliseconds until the least time between two broadcasts is over.
pub open spec fn delay_millis(last_broadcast_time: u64, now: u64) -> int {
    let since = millis_since(last_broadcast_time, now);
    if since > MIN_BROADCAST_MILLIS {
        0
    } else {
        MIN_BROADCAST_MILLIS - since
    }
}

/// Milliseconds from one broadcast to the next: the share of the time to live that the ratio
/// gives.
pub open spec fn nominal_millis(ttl: u8, ttl_ratio: u8) -> int {
    ttl as int * 1000 / ttl_ratio as int
}

/// The next step of the broadcaster.
pub open spec fn next_step(
    ttl: u8,
    ttl_ratio: u8,
    last_broadcast_time: u64,
    now: u64,
    is_enabled: bool,
) -> BroadcastStep {
    let delay = delay_millis(last_broadcast_time, now);
    BroadcastStep {
        broadcast: delay == 0 && is_enabled,
        sleep_millis: if delay > 0 {
            delay as u64
        } else {
            nominal_millis(ttl, ttl_ratio) as u64
        },
    }
}

/// Decides whether to broadcast now, and how long to sleep.
pub fn broadcast_state(
    ttl: u8,
    ttl_ratio: u8,
    last_broadcast_time: u64,
    now: u64,
    is_enabled: bool,
) -> (step: BroadcastStep)
    requires
        ttl_ratio > 0,
    ensures
        step == next_step(ttl, ttl_ratio, last_broadcast_time, now, is_enabled),
        step.sleep_millis == if delay_millis(last_broadcast_time, now) > 0 {
            delay_millis(last_broadcast_time, now)
        } else {
            nominal_millis(ttl, ttl_ratio)
        },
{
    let scaled: u64 = ttl as u64 * 1000;
    let nominal: u64 = scaled / ttl_ratio as u64;
    let since: u64 = if last_broadcast_time > now {
        0
    } else {
        (now - last_broadcast_time) / 1_000_000
    };
    let delay: u64 = if since > MIN_BROADCAST_MILLIS {
        0
    } else {
        MIN_BROADCAST_MILLIS - since
    };
    BroadcastStep {
        broadcast: delay == 0 && is_enabled,
        sleep_millis: if delay > 0 {
            delay
        } else {
            nominal
        },
    }
}

/// The message that tells of a peer.
pub open spec fn telling_of(
    peer_state: PeerState,
    ttl: u8,
    message_type: MessageType,
    to: Destination,
) -> Outgoing {
    Outgoing {
        from: peer_state.node_state.node_id,
        ttl,
        message_type,
        payload: Some(peer_state),
        to,
    }
}

/// The message that tells of this peer. It counts as a broadcast at `now`, whoever it goes to.
pub fn send_peer_state(
    peer_state: &PeerState,
    ttl: u8,
    message_type: MessageType,
    to: Destination,
    last_broadcast_time: &mut u64,
    now: u64,
) -> (message: Outgoing)
    ensures
        *final(last_broadcast_time) == now,
        message == telling_of(*peer_state, ttl, message_type, to),
{
    *last_broadcast_time = now;
    Outgoing { from: peer_state.ident(), ttl, message_type, payload: Some(*peer_state), to }
}

/// The answer of a peer to the one at the address `to`.
pub open spec fn answer_of(peer_state: PeerState, ttl: u8, to: SocketAddrV4) -> Outgoing {
    telling_of(peer_state, ttl, MessageType::Response, Destination::Address(to))
}

/// The answer to a peer that said it is there.
pub fn send_response(
    peer_state: &PeerState,
    ttl: u8,
    to: SocketAddrV4,
    last_broadcast_time: &mut u64,
    now: u64,
) -> (message: Outgoing)
    ensures
        *final(last_broadcast_time) == now,
        message == answer_of(*peer_state, ttl, to),
{
    send_peer_state(
        peer_state,
        ttl,
        MessageType::Response,
        Destination::Address(to),
        last_broadcast_time,
        now,
    )
}

/// The farewell of a peer: to all, without payload and without time to live.
pub open spec fn farewell(node_id: NodeId) -> Outgoing {
    Outgoing {
        from: node_id,
        ttl: 0,
        message_type: MessageType::ByeBye,
        payload: None,
        to: Destination::Multicast,
    }
}

/// The message by which a peer leaves.
pub fn send_byebye(node_state: NodeId) -> (message: Outgoing)
    ensures
        message == farewell(node_state),
{
    Outgoing {
        from: node_state,
        ttl: 0,
        message_type: MessageType::ByeBye,
        payload: None,
        to: Destination::Multicast,
    }
}

/// Whether an entry tells where a peer answers measurements.
pub open spec fn tells_endpoint(entry: PayloadEntry) -> bool {
    entry matches PayloadEntry::MeasurementEndpointV4(e) && e.endpoint is Some
}

/// Where a peer answers measurements: what the first entry that tells it says.
pub open spec fn endpoint_in(entries: Seq<PayloadEntry>) -> Option<SocketAddrV4>
    decreases entries.len(),
{
    if entries.len() == 0 {
        None
    } else if tells_endpoint(entries[0]) {
        entries[0]->MeasurementEndpointV4_0.endpoint
    } else {
        endpoint_in(entries.skip(1))
    }
}

/// The event of a message with this header and these entries, from which `node_state` was read.
pub open spec fn event_of(
    header: MessageHeader,
    entries: Seq<PayloadEntry>,
    node_state: NodeState,
) -> OnEvent {
    OnEvent::PeerState(
        PeerStateMessageType {
            node_state,
            ttl: header.ttl,
            measurement_endpoint: endpoint_in(entries),
        },
    )
}

/// The event of a peer's message about itself. The state was read from the same payload.
pub fn receive_peer_state(
    header: &MessageHeader,
    entries: &Vec<PayloadEntry>,
    node_state: NodeState,
) -> (event: OnEvent)
    ensures
        event == event_of(*header, entries@, node_state),
{
    let mut measurement_endpoint: Option<SocketAddrV4> = None;
    let mut i: usize = 0;
    assert(entries@.skip(0) =~= entries@);
    while i < entries.len() && measurement_endpoint.is_none()
        invariant
            i <= entries@.len(),
            measurement_endpoint is None ==> endpoint_in(entries@) == endpoint_in(
                entries@.skip(i as int),
            ),
            measurement_endpoint is Some ==> endpoint_in(entries@) == measurement_endpoint,
        decreases entries@.len() - i,
    {
        assert(entries@.skip(i as int)[0] == entries@[i as int]);
        assert(entries@.skip(i as int).skip(1) =~= entries@.skip(i + 1));
        if let PayloadEntry::MeasurementEndpointV4(entry) = entries[i] {
            measurement_endpoint = entry.endpoint;
        }
        i = i + 1;
    }
    OnEvent::PeerState(PeerStateMessageType { node_state, ttl: header.ttl, measurement_endpoint })
}

/// The event of a peer's farewell.
pub fn receive_bye_bye(node_id: NodeId) -> (event: OnEvent)
    ensures
        event == OnEvent::Byebye(node_id),
{
    OnEvent::Byebye(node_id)
}

/// A disabled peer reacts to nothing but farewells.
pub proof fn law_disabled_peer_hears_only_farewells(
    header: MessageHeader,
    ident: NodeId,
    source: Option<SocketAddrV4>,
)
    ensures
        reaction(header, ident, false, source) == Reaction::Ignore || reaction(
            header,
            ident,
            false,
            source,
        ) == Reaction::Leave,
        header.message_type == MessageType::ByeBye ==> reaction(header, ident, false, source)
            == reaction(header, ident, true, source),
{
}

/// A peer does not react to its own messages, its farewell included.
pub proof fn law_own_messages_are_ignored(
    message: Outgoing,
    header: MessageHeader,
    is_enabled: bool,
    source: Option<SocketAddrV4>,
)
    requires
        header.ident == message.from,
        header.group_id == 0,
    ensures
        reaction(header, message.from, is_enabled, source) == Reaction::Ignore,
{
}

/// Answers are not answered: only a message that a peer is there makes another peer send one,
/// so that two peers do not answer each other without end.
pub proof fn law_answers_are_not_answered(
    header: MessageHeader,
    ident: NodeId,
    is_enabled: bool,
    source: Option<SocketAddrV4>,
)
    requires
        header.message_type != MessageType::Alive,
    ensures
        !(reaction(header, ident, is_enabled, source) is RespondAndReport),
{
}

/// Two broadcasts are at least fifty milliseconds apart.
pub proof fn law_broadcasts_keep_their_distance(
    ttl: u8,
    ttl_ratio: u8,
    last_broadcast_time: u64,
    now: u64,
    is_enabled: bool,
)
    requires
        next_step(ttl, ttl_ratio, last_broadcast_time, now, is_enabled).broadcast,
    ensures
        is_enabled,
        now - last_broadcast_time >= 50_000_000,
{
}

/// An enabled peer that may not broadcast yet may do so after the sleep, if nothing was
/// broadcast meanwhile.
pub proof fn law_sleep_ends_in_broadcast(
    ttl: u8,
    ttl_ratio: u8,
    last_broadcast_time: u64,
    now: u64,
    later: u64,
)
    requires
        last_broadcast_time <= now,
        !next_step(ttl, ttl_ratio, last_broadcast_time, now, true).broadcast,
        later >= now + next_step(ttl, ttl_ratio, last_broadcast_time, now, true).sleep_millis
            * 1_000_000,
    ensures
        next_step(ttl, ttl_ratio, last_broadcast_time, later, true).broadcast,
{
    let since = millis_since(last_broadcast_time, now);
    let delay = delay_millis(last_broadcast_time, now);
    assert(since + delay == 50);
    assert(later - last_broadcast_time >= 50_000_000);
}

/// Within the time to live there is room for as many broadcasts as the ratio says.
pub proof fn law_broadcasts_fit_the_time_to_live(ttl: u8, ttl_ratio: u8)
    requires
        ttl_ratio > 0,
    ensures
        nominal_millis(ttl, ttl_ratio) * ttl_ratio <= ttl * 1000,
{
    let scaled = ttl as int * 1000;
    let ratio = ttl_ratio as int;
    assert(scaled / ratio * ratio <= scaled) by (nonlinear_arith)
        requires
            scaled >= 0,
            ratio > 0,
    ;
}

/// Every other peer hears a farewell that reaches it, enabled or not.
pub proof fn law_farewell_is_heard(
    node_id: NodeId,
    header: MessageHeader,
    ident: NodeId,
    is_enabled: bool,
    address: SocketAddrV4,
)
    requires
        header.ident == farewell(node_id).from,
        header.message_type == farewell(node_id).message_type,
        ident != node_id,
    ensures
        reaction(header, ident, is_enabled, Some(address)) == Reaction::Leave,
{
}

} // verus!
