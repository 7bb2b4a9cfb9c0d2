use ableton_link::discovery::gateway::OnEvent;
use ableton_link::discovery::messenger::{
    broadcast_state, receive_bye_bye, receive_peer_state, send_byebye, send_peer_state,
    send_response, BroadcastStep, Destination, MessageHeader, MessageType, Messenger, Reaction,
};
use ableton_link::discovery::peers::PeerState;
use ableton_link::link::duration::Duration;
use ableton_link::link::measurement::MeasurementEndpointV4;
use ableton_link::link::node::{NodeId, NodeState};
use ableton_link::link::payload::{PayloadEntry, SocketAddrV4};
use ableton_link::link::sessions::SessionId;
use ableton_link::link::state::StartStopState;
use ableton_link::link::timeline::{Beats, Tempo, Timeline};

const MILLI: u64 = 1_000_000;

fn peer_state(id: u64) -> PeerState {
    PeerState {
        node_state: NodeState {
            node_id: NodeId(id),
            session_id: SessionId(NodeId(id)),
            timeline: Timeline {
                tempo: Tempo::new(0),
                beat_origin: Beats::new(0),
                time_origin: Duration::zero(),
            },
            start_stop_state: StartStopState {
                is_playing: false,
                beats: Beats::new(0),
                timestamp: Duration::zero(),
            },
        },
        measurement_endpoint: None,
    }
}

fn header(id: u64, message_type: MessageType) -> MessageHeader {
    MessageHeader { ttl: 5, message_type, group_id: 0, ident: NodeId(id) }
}

fn source() -> Option<SocketAddrV4> {
    Some(SocketAddrV4 { ip: 9, port: 10 })
}

fn react(id: u64, message_type: MessageType, is_enabled: bool) -> Reaction {
    Messenger::new(0).on_message(&header(id, message_type), NodeId(1), is_enabled, source())
}

#[test]
fn messenger_starts_with_two_seconds_and_twenty_broadcasts() {
    let messenger = Messenger::new(77);
    assert_eq!(messenger.ttl, 2);
    assert_eq!(messenger.ttl_ratio, 20);
    assert_eq!(messenger.last_broadcast_time, 77);
}

#[test]
fn messages_of_other_peers_are_answered_by_type() {
    assert_eq!(
        react(2, MessageType::Alive, true),
        Reaction::RespondAndReport(SocketAddrV4 { ip: 9, port: 10 })
    );
    assert_eq!(react(2, MessageType::Response, true), Reaction::Report);
    assert_eq!(react(2, MessageType::ByeBye, true), Reaction::Leave);
    assert_eq!(react(2, MessageType::Other(9), true), Reaction::Ignore);
}

#[test]
fn disabled_peer_hears_only_farewells() {
    assert_eq!(react(2, MessageType::Alive, false), Reaction::Ignore);
    assert_eq!(react(2, MessageType::Response, false), Reaction::Ignore);
    assert_eq!(react(2, MessageType::ByeBye, false), Reaction::Leave);
}

#[test]
fn own_messages_are_ignored_in_group_zero() {
    assert_eq!(react(1, MessageType::Alive, true), Reaction::Ignore);
    assert_eq!(react(1, MessageType::ByeBye, true), Reaction::Ignore);
    let grouped = MessageHeader { group_id: 3, ..header(1, MessageType::Response) };
    assert_eq!(
        Messenger::new(0).on_message(&grouped, NodeId(1), true, source()),
        Reaction::Report
    );
}

#[test]
fn messages_from_elsewhere_than_ipv4_are_ignored() {
    let messenger = Messenger::new(0);
    let alive = header(2, MessageType::Alive);
    assert_eq!(messenger.on_message(&alive, NodeId(1), true, None), Reaction::Ignore);
}

#[test]
fn answers_are_not_answered() {
    let answer = react(2, MessageType::Response, true);
    assert!(!matches!(answer, Reaction::RespondAndReport(_)));
}

#[test]
fn broadcast_waits_for_fifty_milliseconds() {
    assert_eq!(
        broadcast_state(2, 20, 1_000 * MILLI, 1_030 * MILLI, true),
        BroadcastStep { broadcast: false, sleep_millis: 20 }
    );
    assert_eq!(
        broadcast_state(2, 20, 1_000 * MILLI, 1_050 * MILLI - 1, true),
        BroadcastStep { broadcast: false, sleep_millis: 1 }
    );
    assert_eq!(
        broadcast_state(2, 20, 1_000 * MILLI, 1_050 * MILLI, true),
        BroadcastStep { broadcast: true, sleep_millis: 100 }
    );
    assert_eq!(
        broadcast_state(2, 20, 1_000 * MILLI, 9_000 * MILLI, true),
        BroadcastStep { broadcast: true, sleep_millis: 100 }
    );
}

#[test]
fn broadcast_time_to_come_counts_as_now() {
    assert_eq!(
        broadcast_state(2, 20, 2_000 * MILLI, 1_000 * MILLI, true),
        BroadcastStep { broadcast: false, sleep_millis: 50 }
    );
}

#[test]
fn disabled_peer_does_not_broadcast() {
    assert_eq!(
        broadcast_state(2, 20, 0, 1_000 * MILLI, false),
        BroadcastStep { broadcast: false, sleep_millis: 100 }
    );
}

#[test]
fn sleep_ends_in_a_broadcast() {
    let last = 5;
    let now = last + 13 * MILLI + 7;
    let step = broadcast_state(2, 20, last, now, true);
    assert!(!step.broadcast);
    assert!(broadcast_state(2, 20, last, now + step.sleep_millis * MILLI, true).broadcast);
}

#[test]
fn peer_state_is_sent_and_counts_as_broadcast() {
    let mut last = 3;
    let message = send_peer_state(
        &peer_state(4),
        2,
        MessageType::Alive,
        Destination::Multicast,
        &mut last,
        99,
    );
    assert_eq!(last, 99);
    assert_eq!(message.from, NodeId(4));
    assert_eq!(message.ttl, 2);
    assert_eq!(message.message_type, MessageType::Alive);
    assert_eq!(message.payload.unwrap().ident(), NodeId(4));
    assert_eq!(message.to, Destination::Multicast);
}

#[test]
fn response_goes_to_the_sender() {
    let mut last = 3;
    let to = SocketAddrV4 { ip: 9, port: 10 };
    let message = send_response(&peer_state(4), 2, to, &mut last, 100);
    assert_eq!(last, 100);
    assert_eq!(message.message_type, MessageType::Response);
    assert_eq!(message.to, Destination::Address(to));
}

#[test]
fn farewell_goes_to_all_and_is_heard() {
    let message = send_byebye(NodeId(4));
    assert_eq!(message.from, NodeId(4));
    assert_eq!(message.ttl, 0);
    assert!(message.payload.is_none());
    assert_eq!(message.to, Destination::Multicast);
    let heard = MessageHeader {
        ttl: message.ttl,
        message_type: message.message_type,
        group_id: 0,
        ident: message.from,
    };
    let reaction = Messenger::new(0).on_message(&heard, NodeId(1), false, source());
    assert_eq!(reaction, Reaction::Leave);
    assert!(matches!(receive_bye_bye(heard.ident), OnEvent::Byebye(NodeId(4))));
}

#[test]
fn first_endpoint_that_is_told_counts() {
    let endpoint = |e| PayloadEntry::MeasurementEndpointV4(MeasurementEndpointV4 { endpoint: e });
    let first = SocketAddrV4 { ip: 1, port: 1 };
    let second = SocketAddrV4 { ip: 2, port: 2 };
    let entries = vec![
        PayloadEntry::Other,
        endpoint(None),
        endpoint(Some(first)),
        endpoint(Some(second)),
    ];
    let state = peer_state(2).node_state;
    match receive_peer_state(&header(2, MessageType::Alive), &entries, state) {
        OnEvent::PeerState(message) => {
            assert_eq!(message.measurement_endpoint, Some(first));
            assert_eq!(message.ttl, 5);
            assert_eq!(message.node_state.node_id, NodeId(2));
        }
        _ => panic!("no state"),
    }
    match receive_peer_state(&header(2, MessageType::Alive), &vec![endpoint(None)], state) {
        OnEvent::PeerState(message) => assert!(message.measurement_endpoint.is_none()),
        _ => panic!("no state"),
    }
}
