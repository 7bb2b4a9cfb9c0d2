use ableton_link::discovery::peers::{ControllerPeer, PeerState};
use ableton_link::link::duration::Duration;
use ableton_link::link::ghostxform::GhostXForm;
use ableton_link::link::measurement::MeasurePeerEvent;
use ableton_link::link::node::{NodeId, NodeState};
use ableton_link::link::sessions::{
    can_compare, can_remove_members, handle_failed_measurement, handle_successful_measurement, join_if_better,
    launch_session_measurement, session_peers, Session, SessionId, SessionMeasurement,
    SessionMembership, Sessions, SESSION_MEMBERSHIP_HEADER_KEY, SESSION_MEMBERSHIP_SIZE,
};
use ableton_link::link::state::StartStopState;
use ableton_link::link::timeline::{Beats, Tempo, Timeline};
use ableton_link::link::wire::Error;

fn id(n: u64) -> SessionId {
    SessionId(NodeId(n))
}

fn timeline(micro_beats: i64) -> Timeline {
    Timeline {
        tempo: Tempo::new(120.0f64.to_bits()),
        beat_origin: Beats::new(micro_beats),
        time_origin: Duration::zero(),
    }
}

fn session(n: u64, micro_beats: i64) -> Session {
    Session {
        session_id: id(n),
        timeline: timeline(micro_beats),
        measurement: SessionMeasurement::default(),
    }
}

fn peer(node: u64, session: u64) -> ControllerPeer {
    peer_at(node, session, 0)
}

fn peer_at(node: u64, session: u64, micro_beats: i64) -> ControllerPeer {
    ControllerPeer {
        peer_state: PeerState {
            node_state: NodeState {
                node_id: NodeId(node),
                session_id: id(session),
                timeline: timeline(micro_beats),
                start_stop_state: StartStopState {
                    is_playing: false,
                    beats: Beats::new(0),
                    timestamp: Duration::zero(),
                },
            },
            measurement_endpoint: None,
        },
    }
}

fn idents(peers: &Vec<ControllerPeer>) -> Vec<u64> {
    peers.iter().map(|p| p.peer_state.ident().0).collect()
}

fn ids(sessions: &Vec<Session>) -> Vec<u64> {
    sessions.iter().map(|s| s.session_id.0 .0).collect()
}

fn x_form(intercept_micros: i64) -> GhostXForm {
    GhostXForm {
        slope_bits: 1.0f64.to_bits(),
        intercept: Duration::microseconds(intercept_micros),
    }
}

fn ghost_time(x_form: GhostXForm, host: Duration) -> Duration {
    x_form.intercept.plus(host)
}

fn measurement(timestamp_secs: i64) -> SessionMeasurement {
    SessionMeasurement {
        x_form: x_form(0),
        timestamp: Duration::milliseconds(timestamp_secs * 1000),
    }
}

fn asked_peer(event: Option<MeasurePeerEvent>) -> Option<(u64, u64)> {
    match event {
        Some(MeasurePeerEvent::PeerState(session_id, peer)) => {
            Some((session_id.0 .0, peer.ident().0))
        }
        _ => None,
    }
}

#[test]
fn test_key() {
    assert_eq!(SESSION_MEMBERSHIP_HEADER_KEY, 0x73657373);
}

#[test]
fn membership_is_encoded_with_its_header() {
    let membership: SessionMembership = SessionMembership::from(id(0x0102030405060708));
    assert_eq!(membership.session_id, id(0x0102030405060708));
    assert_eq!(
        membership.encode().unwrap(),
        vec![0x73, 0x65, 0x73, 0x73, 0, 0, 0, 8, 1, 2, 3, 4, 5, 6, 7, 8]
    );
    assert_eq!(SESSION_MEMBERSHIP_SIZE, 8);
}

#[test]
fn session_peers_are_sorted_and_keep_the_order_of_equals() {
    let peers = vec![
        peer(9, 1),
        peer(4, 2),
        peer_at(3, 1, 10),
        peer(5, 1),
        peer_at(3, 1, 20),
    ];
    let sorted = session_peers(&peers, id(1));
    assert_eq!(idents(&sorted), vec![3, 3, 5, 9]);
    assert_eq!(sorted[0].peer_state.timeline().beat_origin, Beats::new(10));
    assert_eq!(sorted[1].peer_state.timeline().beat_origin, Beats::new(20));
    assert!(session_peers(&peers, id(7)).is_empty());
}

#[test]
fn founder_is_measured_first() {
    let peers = vec![peer(1, 5), peer(5, 5), peer(2, 5)];
    assert_eq!(
        asked_peer(launch_session_measurement(&peers, &session(5, 0))),
        Some((5, 5))
    );
}

#[test]
fn least_peer_is_measured_without_founder() {
    let peers = vec![peer(3, 5), peer(1, 4), peer(2, 5)];
    assert_eq!(
        asked_peer(launch_session_measurement(&peers, &session(5, 0))),
        Some((5, 2))
    );
    assert!(launch_session_measurement(&peers, &session(6, 0)).is_none());
}

#[test]
fn sessions_start_with_the_first_session_twice() {
    let sessions = Sessions::new(session(1, 0));
    assert_eq!(ids(&sessions.other_sessions), vec![1]);
    assert_eq!(sessions.current.session_id, id(1));
    assert!(!sessions.is_founding);
    assert!(!sessions.has_joined);
}

#[test]
fn reset_session_forgets_the_others() {
    let mut sessions = Sessions::new(session(1, 0));
    sessions.reset_session(session(2, 3));
    assert!(sessions.other_sessions.is_empty());
    assert_eq!(sessions.current.session_id, id(2));
    assert_eq!(sessions.current.timeline.beat_origin, Beats::new(3));
}

#[test]
fn reset_timeline_changes_the_entry_among_the_others() {
    let mut sessions = Sessions::new(session(1, 0));
    sessions.reset_timeline(timeline(42));
    assert_eq!(sessions.other_sessions[0].timeline.beat_origin, Beats::new(42));
    assert_eq!(sessions.current.timeline.beat_origin, Beats::new(0));
    sessions.reset_session(session(2, 3));
    sessions.reset_timeline(timeline(50));
    assert!(sessions.other_sessions.is_empty());
    assert_eq!(sessions.current.timeline.beat_origin, Beats::new(3));
}

#[test]
fn later_beat_origin_is_adopted_and_earlier_is_not() {
    let mut sessions = Sessions::new(session(1, 10));
    let (seen, request) = sessions.saw_session_timeline(id(1), timeline(11), &vec![]);
    assert_eq!(seen.beat_origin, Beats::new(11));
    assert!(request.is_none());
    assert!(sessions.has_joined);
    let (seen, _) = sessions.saw_session_timeline(id(1), timeline(11), &vec![]);
    assert_eq!(seen.beat_origin, Beats::new(11));
    let (seen, _) = sessions.saw_session_timeline(id(1), timeline(5), &vec![]);
    assert_eq!(seen.beat_origin, Beats::new(11));
    assert_eq!(sessions.other_sessions[0].timeline.beat_origin, Beats::new(10));
}

#[test]
fn order_of_two_timelines_does_not_matter() {
    let sessions = Sessions::new(session(1, 0));
    let one = sessions.update_timeline(
        sessions.update_timeline(session(1, 0), timeline(3)),
        timeline(7),
    );
    let other = sessions.update_timeline(
        sessions.update_timeline(session(1, 0), timeline(7)),
        timeline(3),
    );
    assert_eq!(one.timeline.beat_origin, Beats::new(7));
    assert_eq!(other.timeline.beat_origin, Beats::new(7));
}

#[test]
fn new_session_is_added_and_measured() {
    let mut sessions = Sessions::new(session(1, 10));
    let peers = vec![peer(8, 2)];
    let (seen, request) = sessions.saw_session_timeline(id(2), timeline(99), &peers);
    assert_eq!(seen.beat_origin, Beats::new(10));
    assert_eq!(asked_peer(request), Some((2, 8)));
    assert_eq!(ids(&sessions.other_sessions), vec![1, 2]);
    assert!(!sessions.has_joined);
    let (_, request) = sessions.saw_session_timeline(id(2), timeline(100), &peers);
    assert!(request.is_none());
    assert_eq!(ids(&sessions.other_sessions), vec![1, 2]);
    assert_eq!(sessions.other_sessions[1].timeline.beat_origin, Beats::new(100));
}

#[test]
fn measurement_of_the_current_session_joins_it() {
    let mut others = vec![session(2, 0)];
    let mut current = session(1, 0);
    let outcome = handle_successful_measurement(
        id(1),
        x_form(77),
        &mut others,
        &mut current,
        Duration::milliseconds(3),
        Duration::milliseconds(4),
        ghost_time,
        &vec![],
    );
    assert_eq!(outcome.joined.unwrap().session_id, id(1));
    assert!(outcome.remeasure.is_none());
    assert_eq!(current.measurement.timestamp, Duration::milliseconds(3));
    assert_eq!(current.measurement.x_form, x_form(77));
    assert_eq!(ids(&others), vec![2]);
}

#[test]
fn measurement_of_an_unknown_session_is_ignored() {
    let mut others = vec![session(2, 0)];
    let mut current = session(1, 0);
    let outcome = handle_successful_measurement(
        id(3),
        x_form(77),
        &mut others,
        &mut current,
        Duration::milliseconds(3),
        Duration::milliseconds(4),
        ghost_time,
        &vec![],
    );
    assert!(outcome.joined.is_none());
    assert!(outcome.remeasure.is_none());
    assert_eq!(current.session_id, id(1));
}

#[test]
fn session_ahead_by_more_than_the_margin_takes_over() {
    let mut others = vec![session(7, 0), session(2, 5)];
    let mut current = session(1, 0);
    let outcome = handle_successful_measurement(
        id(2),
        x_form(500_001),
        &mut others,
        &mut current,
        Duration::milliseconds(60_000),
        Duration::milliseconds(60_000),
        ghost_time,
        &vec![peer(4, 1)],
    );
    assert_eq!(outcome.joined.unwrap().session_id, id(2));
    assert_eq!(outcome.remeasure.unwrap().session_id, id(2));
    assert_eq!(current.session_id, id(2));
    assert_eq!(current.timeline.beat_origin, Beats::new(5));
    assert_eq!(current.measurement.x_form, x_form(500_001));
    assert_eq!(ids(&others), vec![7, 1]);
}

#[test]
fn session_ahead_by_the_margin_does_not_take_over() {
    let mut others = vec![session(2, 5)];
    let mut current = session(1, 0);
    let outcome = handle_successful_measurement(
        id(2),
        x_form(500_000),
        &mut others,
        &mut current,
        Duration::milliseconds(60_000),
        Duration::milliseconds(60_000),
        ghost_time,
        &vec![peer(4, 1)],
    );
    assert!(outcome.joined.is_none());
    assert_eq!(current.session_id, id(1));
    assert_eq!(ids(&others), vec![2]);
    assert_eq!(others[0].measurement.x_form, x_form(500_000));
}

#[test]
fn smaller_identifier_wins_when_times_are_close() {
    let company = vec![peer(4, 5)];
    let mut others = vec![session(3, 0), session(9, 0)];
    let mut current = session(5, 0);
    let zero = Duration::zero();
    let ahead = Duration::microseconds(499_999);
    assert!(join_if_better(1, measurement(60), zero, ahead, &mut others, &mut current, &company)
        .is_none());
    let joined =
        join_if_better(0, measurement(60), ahead, zero, &mut others, &mut current, &company);
    assert_eq!(joined.unwrap().session_id, id(3));
    assert_eq!(ids(&others), vec![5, 9]);
}

#[test]
fn only_one_of_two_sessions_takes_over() {
    let company = vec![peer(4, 5), peer(6, 3)];
    let zero = Duration::zero();
    for lead in [-600_000i64, -500_000, -499_999, 0, 499_999, 500_000, 600_000] {
        let lead = Duration::microseconds(lead);
        let there = join_if_better(
            0,
            measurement(60),
            zero,
            lead,
            &mut vec![session(3, 0)],
            &mut session(5, 0),
            &company,
        );
        let back = join_if_better(
            0,
            measurement(60),
            lead,
            zero,
            &mut vec![session(5, 0)],
            &mut session(3, 0),
            &company,
        );
        assert!(there.is_none() || back.is_none());
    }
}

#[test]
fn lonely_peer_that_just_started_joins_any_session() {
    let zero = Duration::zero();
    let behind = Duration::microseconds(-9_000_000);
    let mut others = vec![session(9, 0)];
    let mut current = session(5, 0);
    assert!(join_if_better(0, measurement(5), zero, behind, &mut others, &mut current, &vec![])
        .is_none());
    assert!(join_if_better(
        0,
        measurement(4),
        zero,
        behind,
        &mut others,
        &mut current,
        &vec![peer(1, 5)]
    )
    .is_none());
    let joined =
        join_if_better(0, measurement(4), zero, behind, &mut others, &mut current, &vec![]);
    assert_eq!(joined.unwrap().session_id, id(9));
    assert_eq!(current.session_id, id(9));
    assert_eq!(ids(&others), vec![5]);
}

#[test]
fn failed_measurement_of_the_current_session_is_repeated() {
    let mut others = vec![session(2, 0)];
    let mut peers = vec![peer(4, 1)];
    let again = handle_failed_measurement(id(1), &mut others, &session(1, 0), &mut peers);
    assert_eq!(again.unwrap().session_id, id(1));
    assert_eq!(ids(&others), vec![2]);
    assert_eq!(idents(&peers), vec![4]);
}

#[test]
fn failed_measurement_removes_the_first_other_session_and_the_peer() {
    let mut others = vec![session(2, 0), session(3, 0), session(4, 0)];
    let mut peers = vec![peer(7, 1), peer(8, 2), peer(9, 3)];
    assert!(can_remove_members(&peers, id(2)));
    assert!(handle_failed_measurement(id(2), &mut others, &session(1, 0), &mut peers).is_none());
    assert_eq!(ids(&others), vec![2, 4]);
    assert_eq!(idents(&peers), vec![7, 9]);
}

#[test]
fn failed_measurement_removes_places_in_turn() {
    let mut others = vec![session(3, 0)];
    let mut peers = vec![peer(7, 2), peer(8, 2), peer(9, 3)];
    assert!(can_remove_members(&peers, id(2)));
    handle_failed_measurement(id(2), &mut others, &session(1, 0), &mut peers);
    assert!(others.is_empty());
    assert_eq!(idents(&peers), vec![8]);
    assert!(!can_remove_members(&vec![peer(7, 1), peer(8, 2), peer(9, 2)], id(2)));
}

#[test]
fn failed_measurement_keeps_a_list_of_only_that_session() {
    let mut others = vec![session(2, 0)];
    let mut peers = vec![peer(8, 2)];
    assert!(handle_failed_measurement(id(2), &mut others, &session(1, 0), &mut peers).is_none());
    assert_eq!(ids(&others), vec![2]);
    assert_eq!(idents(&peers), vec![8]);
}

#[test]
fn measurement_events_are_dispatched_by_the_transform() {
    let mut sessions = Sessions::new(session(1, 0));
    sessions.other_sessions = vec![session(2, 0)];
    let mut peers = vec![peer(8, 2), peer(4, 1)];
    let now = Duration::milliseconds(60_000);
    let request = MeasurePeerEvent::PeerState(id(2), peers[0].peer_state);
    let outcome = sessions.on_measurement(request, now, now, ghost_time, &mut peers);
    assert!(outcome.joined.is_none() && outcome.remeasure.is_none());

    let failed = MeasurePeerEvent::XForm(id(1), GhostXForm::default());
    let outcome = sessions.on_measurement(failed, now, now, ghost_time, &mut peers);
    assert!(outcome.joined.is_none());
    assert_eq!(outcome.remeasure.unwrap().session_id, id(1));

    let done = MeasurePeerEvent::XForm(id(2), x_form(900_000));
    let outcome = sessions.on_measurement(done, now, now, ghost_time, &mut peers);
    assert_eq!(outcome.joined.unwrap().session_id, id(2));
    assert_eq!(sessions.current.session_id, id(2));
    assert_eq!(ids(&sessions.other_sessions), vec![1]);
}

#[test]
fn membership_is_read_back() {
    let membership = SessionMembership { session_id: id(0x0102030405060708) };
    let bytes = membership.encode().unwrap();
    let read = SessionMembership::decode(&bytes[8..]).unwrap();
    assert_eq!(read.session_id, membership.session_id);
    let read = SessionMembership::decode(&[0, 0, 0, 0, 0, 0, 1, 2, 9]).unwrap();
    assert_eq!(read.session_id, id(0x0102));
    assert!(matches!(SessionMembership::decode(&bytes[9..]), Err(Error::Decode)));
}

#[test]
fn ghost_times_too_far_apart_cannot_be_compared() {
    let zero = Duration::zero();
    assert!(can_compare(zero, Duration::microseconds(-600_000)));
    assert!(can_compare(zero, Duration::microseconds(i64::MIN + 1)));
    assert!(!can_compare(zero, Duration::microseconds(i64::MIN)));
    let longest = Duration::new(i64::MAX / 1000, 807_000_000).unwrap();
    assert!(can_compare(zero, longest));
    assert!(!can_compare(longest, zero));
    assert!(!can_compare(Duration::microseconds(-1), longest));
}

#[test]
fn results_that_can_be_handled_are_told() {
    let mut sessions = Sessions::new(session(1, 0));
    sessions.other_sessions = vec![session(2, 0), session(3, 0)];
    assert!(sessions.is_compared(id(2)));
    assert!(!sessions.is_compared(id(1)));
    assert!(!sessions.is_compared(id(9)));
    let peers = vec![peer(7, 1), peer(8, 2), peer(9, 2)];
    assert!(!sessions.is_failure_handled(id(2), &peers));
    assert!(sessions.is_failure_handled(id(3), &peers));
    assert!(sessions.is_failure_handled(id(1), &peers));
    sessions.other_sessions = vec![session(2, 0)];
    assert!(sessions.is_failure_handled(id(2), &peers));
}
