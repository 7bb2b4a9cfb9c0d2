use ableton_link::discovery::peers::{
    peer_left, saw_peer, unique_session_peer_count, ControllerPeer, GatewayObserver, PeerEvent,
    PeerState, PeerStateChange,
};
use ableton_link::link::duration::Duration;
use ableton_link::link::node::{NodeId, NodeState};
use ableton_link::link::sessions::SessionId;
use ableton_link::link::state::StartStopState;
use ableton_link::link::timeline::{Beats, Tempo, Timeline};

fn timeline(bpm: f64) -> Timeline {
    Timeline {
        tempo: Tempo::new(bpm.to_bits()),
        beat_origin: Beats::new(0),
        time_origin: Duration::zero(),
    }
}

fn state(node: u64, session: u64, bpm: f64, is_playing: bool) -> PeerState {
    PeerState {
        node_state: NodeState {
            node_id: NodeId(node),
            session_id: SessionId(NodeId(session)),
            timeline: timeline(bpm),
            start_stop_state: StartStopState {
                is_playing,
                beats: Beats::new(0),
                timestamp: Duration::zero(),
            },
        },
        measurement_endpoint: None,
    }
}

fn peers(list: &[(u64, u64)]) -> Vec<ControllerPeer> {
    list.iter()
        .map(|(node, session)| ControllerPeer {
            peer_state: state(*node, *session, 120.0, false),
        })
        .collect()
}

fn idents(peers: &Vec<ControllerPeer>) -> Vec<u64> {
    peers.iter().map(|p| p.peer_state.ident().0).collect()
}

fn told(changes: &Vec<PeerStateChange>) -> Vec<&'static str> {
    changes
        .iter()
        .map(|c| match c {
            PeerStateChange::SessionMembership => "membership",
            PeerStateChange::SessionTimeline(_, _) => "timeline",
            PeerStateChange::SessionStartStopState(_, _) => "start stop",
            PeerStateChange::PeerLeft => "left",
        })
        .collect()
}

#[test]
fn new_peer_is_added_and_told() {
    let mut list = vec![];
    let changes = saw_peer(state(2, 2, 120.0, false), &mut list, NodeId(1));
    assert_eq!(told(&changes), vec!["timeline", "start stop", "membership"]);
    match changes[0] {
        PeerStateChange::SessionTimeline(session, seen) => {
            assert_eq!(session, SessionId(NodeId(2)));
            assert_eq!(seen, timeline(120.0));
        }
        _ => panic!("no timeline"),
    }
    assert_eq!(idents(&list), vec![2]);
}

#[test]
fn seeing_a_peer_again_tells_nothing() {
    let mut list = peers(&[(2, 2)]);
    assert!(saw_peer(state(2, 2, 120.0, false), &mut list, NodeId(1)).is_empty());
    assert_eq!(idents(&list), vec![2]);
}

#[test]
fn each_change_of_a_peer_is_told() {
    let mut list = peers(&[(2, 2), (3, 3)]);
    let changes = saw_peer(state(2, 2, 99.0, false), &mut list, NodeId(1));
    assert_eq!(told(&changes), vec!["timeline"]);
    let changes = saw_peer(state(2, 2, 99.0, true), &mut list, NodeId(1));
    assert_eq!(told(&changes), vec!["start stop"]);
    let changes = saw_peer(state(2, 3, 120.0, true), &mut list, NodeId(1));
    assert_eq!(told(&changes), vec!["membership"]);
    assert_eq!(idents(&list), vec![2, 3]);
    assert_eq!(list[0].peer_state.session_id(), SessionId(NodeId(3)));
}

#[test]
fn peer_does_not_see_itself() {
    let mut list = peers(&[(2, 2)]);
    assert!(saw_peer(state(1, 2, 50.0, true), &mut list, NodeId(1)).is_empty());
    assert_eq!(idents(&list), vec![2]);
}

#[test]
fn leaving_takes_the_peer_off_and_is_told_once() {
    let mut list = peers(&[(2, 2), (3, 2), (4, 2)]);
    assert_eq!(told(&peer_left(NodeId(3), &mut list)), vec!["left"]);
    assert_eq!(idents(&list), vec![2, 4]);
    assert!(peer_left(NodeId(3), &mut list).is_empty());
    assert_eq!(idents(&list), vec![2, 4]);
}

#[test]
fn leaving_undoes_joining() {
    let mut list = peers(&[(2, 2), (3, 2)]);
    saw_peer(state(9, 2, 120.0, false), &mut list, NodeId(1));
    assert_eq!(idents(&list), vec![2, 3, 9]);
    peer_left(NodeId(9), &mut list);
    assert_eq!(idents(&list), vec![2, 3]);
}

#[test]
fn peers_of_a_session_are_counted_without_oneself() {
    let list = peers(&[(2, 5), (3, 5), (4, 6), (7, 5)]);
    assert_eq!(unique_session_peer_count(SessionId(NodeId(5)), &list, NodeId(3)), 2);
    assert_eq!(unique_session_peer_count(SessionId(NodeId(6)), &list, NodeId(3)), 1);
    assert_eq!(unique_session_peer_count(SessionId(NodeId(8)), &list, NodeId(3)), 0);
}

#[test]
fn neighbours_with_one_identifier_count_once() {
    let list = peers(&[(2, 5), (2, 5), (4, 6), (2, 5), (3, 5), (2, 5)]);
    assert_eq!(unique_session_peer_count(SessionId(NodeId(5)), &list, NodeId(1)), 3);
}

#[test]
fn observer_handles_all_events() {
    let mut observer = GatewayObserver::new(vec![]);
    let seen = PeerEvent::SawPeer(state(2, 2, 120.0, false));
    assert_eq!(observer.on_peer_event(seen, NodeId(1)).len(), 3);
    assert_eq!(
        told(&observer.on_peer_event(PeerEvent::PeerTimedOut(NodeId(2)), NodeId(1))),
        vec!["left"]
    );
    assert!(observer.on_peer_event(PeerEvent::PeerLeft(NodeId(2)), NodeId(1)).is_empty());
    assert!(observer.peers.is_empty());
}

#[test]
fn observer_edits_whole_sessions() {
    let mut observer = GatewayObserver::new(peers(&[(2, 5), (3, 6), (4, 5)]));
    observer.set_session_timeline(SessionId(NodeId(5)), timeline(77.0));
    assert_eq!(observer.peers[0].peer_state.timeline(), timeline(77.0));
    assert_eq!(observer.peers[1].peer_state.timeline(), timeline(120.0));
    assert_eq!(observer.peers[2].peer_state.timeline(), timeline(77.0));
    observer.forget_session(SessionId(NodeId(5)));
    assert_eq!(idents(&observer.peers), vec![3]);
    observer.reset_peers();
    assert!(observer.peers.is_empty());
}

#[test]
fn timelines_compare_tempos_as_numbers() {
    assert_eq!(timeline(0.0), timeline(-0.0));
    assert!(timeline(120.0) != timeline(120.5));
    assert!(timeline(f64::NAN) != timeline(f64::NAN));
}
