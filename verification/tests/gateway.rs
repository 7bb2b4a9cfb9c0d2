use ableton_link::discovery::gateway::{
    find_peer, on_byebye, on_peer_state, prune_expired_peers, GatewayAction, OnEvent, PeerGateway,
    Received,
};
use ableton_link::discovery::messenger::{Destination, MessageType};
use ableton_link::discovery::peers::{PeerEvent, PeerState, PeerStateMessageType};
use ableton_link::link::duration::Duration;
use ableton_link::link::ghostxform::GhostXForm;
use ableton_link::link::node::{NodeId, NodeState};
use ableton_link::link::payload::SocketAddrV4;
use ableton_link::link::sessions::SessionId;
use ableton_link::link::state::StartStopState;
use ableton_link::link::timeline::{Beats, Tempo, Timeline};

const SEC: u128 = 1_000_000_000;

fn node(id: u64) -> NodeState {
    NodeState {
        node_id: NodeId(id),
        session_id: SessionId(NodeId(id)),
        timeline: Timeline {
            tempo: Tempo::new(0),
            beat_origin: Beats::new(0),
            time_origin: Duration::zero(),
        },
        start_stop_state: StartStopState {
            is_playing: false,
            beats: Beats::new(0),
            timestamp: Duration::zero(),
        },
    }
}

fn message(id: u64, ttl: u8) -> PeerStateMessageType {
    PeerStateMessageType {
        node_state: node(id),
        ttl,
        measurement_endpoint: Some(SocketAddrV4 { ip: 1, port: 2 }),
    }
}

fn gateway() -> PeerGateway {
    PeerGateway::new(
        PeerState { node_state: node(1), measurement_endpoint: None },
        vec![],
        Some(SocketAddrV4 { ip: 3, port: 4 }),
    )
}

#[test]
fn deadline_is_the_time_to_live_but_at_most_three_seconds() {
    let mut timeouts: Vec<(u128, NodeId)> = vec![];
    on_peer_state(message(5, 2), &mut timeouts, 100, NodeId(1));
    assert_eq!(timeouts, vec![(100 + 2 * SEC, NodeId(5))]);
    on_peer_state(message(6, 200), &mut timeouts, 100, NodeId(1));
    assert_eq!(timeouts, vec![(100 + 2 * SEC, NodeId(5)), (100 + 3 * SEC, NodeId(6))]);
    on_peer_state(message(7, 0), &mut timeouts, 100, NodeId(1));
    assert_eq!(timeouts[0], (100, NodeId(7)));
}

#[test]
fn peer_heard_of_again_gets_one_new_deadline() {
    let mut timeouts: Vec<(u128, NodeId)> = vec![];
    on_peer_state(message(5, 1), &mut timeouts, 0, NodeId(1));
    on_peer_state(message(6, 2), &mut timeouts, 0, NodeId(1));
    let event = on_peer_state(message(5, 3), &mut timeouts, 1, NodeId(1));
    assert_eq!(timeouts, vec![(2 * SEC, NodeId(6)), (1 + 3 * SEC, NodeId(5))]);
    match event {
        PeerEvent::SawPeer(seen) => {
            assert_eq!(seen.ident(), NodeId(5));
            assert_eq!(seen.measurement_endpoint, Some(SocketAddrV4 { ip: 1, port: 2 }));
        }
        _ => panic!("not seen"),
    }
}

#[test]
fn equal_deadlines_put_the_newer_first() {
    let mut timeouts: Vec<(u128, NodeId)> = vec![];
    on_peer_state(message(5, 1), &mut timeouts, 0, NodeId(1));
    on_peer_state(message(6, 1), &mut timeouts, 0, NodeId(1));
    assert_eq!(timeouts, vec![(SEC, NodeId(6)), (SEC, NodeId(5))]);
}

#[test]
fn pruning_takes_exactly_the_expired() {
    let mut timeouts =
        vec![(10, NodeId(1)), (20, NodeId(2)), (20, NodeId(3)), (30, NodeId(4))];
    let expired = prune_expired_peers(&mut timeouts, 20);
    assert_eq!(expired, vec![(10, NodeId(1))]);
    assert_eq!(timeouts, vec![(20, NodeId(2)), (20, NodeId(3)), (30, NodeId(4))]);
    assert!(prune_expired_peers(&mut timeouts, 20).is_empty());
    assert_eq!(prune_expired_peers(&mut timeouts, 31).len(), 3);
    assert!(timeouts.is_empty());
}

#[test]
fn peer_is_kept_until_its_deadline() {
    let mut timeouts: Vec<(u128, NodeId)> = vec![];
    on_peer_state(message(5, 2), &mut timeouts, 100, NodeId(1));
    assert!(prune_expired_peers(&mut timeouts, 2_000_000_100).is_empty());
    assert!(find_peer(&NodeId(5), &timeouts));
    assert_eq!(prune_expired_peers(&mut timeouts, 2_000_000_101), vec![(100 + 2 * SEC, NodeId(5))]);
    assert!(!find_peer(&NodeId(5), &timeouts));
}

#[test]
fn farewell_is_told_once() {
    let mut timeouts = vec![(10, NodeId(1)), (20, NodeId(2))];
    assert!(matches!(on_byebye(NodeId(1), &mut timeouts), Some(PeerEvent::PeerLeft(NodeId(1)))));
    assert_eq!(timeouts, vec![(20, NodeId(2))]);
    assert!(on_byebye(NodeId(1), &mut timeouts).is_none());
    assert_eq!(timeouts, vec![(20, NodeId(2))]);
}

#[test]
fn gateway_takes_its_endpoint_and_new_states() {
    let mut gateway = gateway();
    assert_eq!(gateway.peer_state.measurement_endpoint, Some(SocketAddrV4 { ip: 3, port: 4 }));
    let mut moved = node(1);
    moved.session_id = SessionId(NodeId(9));
    let x_form = GhostXForm { slope_bits: 1.0f64.to_bits(), intercept: Duration::microseconds(4) };
    let (session, answered) = gateway.update_node_state(moved, None, x_form);
    assert_eq!(session, SessionId(NodeId(9)));
    assert_eq!(answered, x_form);
    assert_eq!(gateway.peer_state.session_id(), SessionId(NodeId(9)));
    assert_eq!(gateway.peer_state.measurement_endpoint, Some(SocketAddrV4 { ip: 3, port: 4 }));
}

#[test]
fn gateway_that_is_to_stop_says_farewell() {
    let mut gateway = gateway();
    match gateway.on_wakeup(true, Received::Timeout, 0) {
        GatewayAction::Leave(message) => {
            assert_eq!(message.from, NodeId(1));
            assert_eq!(message.ttl, 0);
            assert_eq!(message.message_type, MessageType::ByeBye);
            assert!(message.payload.is_none());
            assert_eq!(message.to, Destination::Multicast);
        }
        _ => panic!("no farewell"),
    }
    assert!(matches!(
        gateway.on_wakeup(false, Received::Disconnected, 0),
        GatewayAction::Stop
    ));
}

#[test]
fn gateway_tells_of_peers_that_come_go_and_expire() {
    let mut gateway = gateway();
    for id in [5u64, 6] {
        let received = Received::Event(OnEvent::PeerState(message(id, 2)));
        match gateway.on_wakeup(false, received, id) {
            GatewayAction::Notify(events) => {
                assert!(matches!(&events[..], [PeerEvent::SawPeer(p)] if p.ident() == NodeId(id)))
            }
            _ => panic!("not told"),
        }
    }
    match gateway.on_wakeup(false, Received::Event(OnEvent::Byebye(NodeId(5))), 7) {
        GatewayAction::Notify(events) => {
            assert!(matches!(&events[..], [PeerEvent::PeerLeft(NodeId(5))]))
        }
        _ => panic!("not told"),
    }
    match gateway.on_wakeup(false, Received::Event(OnEvent::Byebye(NodeId(5))), 8) {
        GatewayAction::Notify(events) => assert!(events.is_empty()),
        _ => panic!("not told"),
    }
    match gateway.on_wakeup(false, Received::Timeout, 2_000_000_007) {
        GatewayAction::Notify(events) => {
            assert!(matches!(&events[..], [PeerEvent::PeerTimedOut(NodeId(6))]))
        }
        _ => panic!("not told"),
    }
    assert!(gateway.peer_timeouts.is_empty());
}

#[test]
fn hearing_replaces_one_deadline() {
    let mut timeouts = vec![(10, NodeId(1)), (20, NodeId(2)), (4 * SEC, NodeId(3))];
    on_peer_state(message(1, 2), &mut timeouts, 5, NodeId(9));
    assert_eq!(
        timeouts,
        vec![(20, NodeId(2)), (5 + 2 * SEC, NodeId(1)), (4 * SEC, NodeId(3))]
    );
}

#[test]
fn every_clock_reading_has_a_deadline() {
    let mut timeouts: Vec<(u128, NodeId)> = vec![];
    on_peer_state(message(1, 9), &mut timeouts, u64::MAX, NodeId(9));
    assert_eq!(timeouts, vec![(u128::from(u64::MAX) + 3 * SEC, NodeId(1))]);
}
