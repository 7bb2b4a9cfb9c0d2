use ableton_link::link::duration::Duration;
use ableton_link::link::rt_session_state::RtSessionStateHandler;
use ableton_link::link::state::{ClientStartStopState, ClientState};
use ableton_link::link::timeline::{Beats, Tempo, Timeline};
use ableton_link::link::IncomingClientState;
use triple_buffer::TripleBuffer;

fn bpm(tempo: Tempo) -> f64 {
    f64::from_bits(tempo.bpm())
}

fn create_test_client_state() -> ClientState {
    ClientState {
        timeline: Timeline {
            tempo: Tempo::new(120.0f64.to_bits()),
            beat_origin: Beats::new(0),
            time_origin: Duration::zero(),
        },
        start_stop_state: ClientStartStopState {
            is_playing: false,
            time: Duration::zero(),
            timestamp: Duration::zero(),
        },
    }
}

fn timeline_of(tempo: f64, micro_beats: i64, millis: i64) -> Timeline {
    Timeline {
        tempo: Tempo::new(tempo.to_bits()),
        beat_origin: Beats::new(micro_beats),
        time_origin: Duration::milliseconds(millis),
    }
}

fn change(tempo: f64, millis: i64) -> IncomingClientState {
    IncomingClientState {
        timeline: Some(timeline_of(tempo, 0, millis)),
        start_stop_state: None,
        timeline_timestamp: Duration::milliseconds(millis),
    }
}

#[test]
fn test_rt_session_state_handler_creation() {
    let client_state = create_test_client_state();
    let handler = RtSessionStateHandler::new(client_state, Duration::milliseconds(1000));

    assert_eq!(handler.grace_period(), Duration::milliseconds(1000));
    assert!(!handler.has_pending_updates());
}

#[test]
fn test_rt_session_state_handler_get_state() {
    let client_state = create_test_client_state();
    let mut handler = RtSessionStateHandler::new(client_state, Duration::milliseconds(1000));

    let current_time = Duration::milliseconds(500);
    let retrieved_state = handler.get_rt_client_state(current_time);

    assert_eq!(bpm(retrieved_state.timeline.tempo), bpm(client_state.timeline.tempo));
    assert_eq!(
        retrieved_state.start_stop_state.is_playing,
        client_state.start_stop_state.is_playing
    );
}

#[test]
fn test_triple_buffer_basic_ops() {
    let (mut input, mut output) = TripleBuffer::new(&42i32).split();

    assert_eq!(*output.read(), 42);
    assert!(!output.updated());

    input.write(100);

    assert!(output.updated());

    assert_eq!(*output.read(), 100);
}

#[test]
fn test_rt_session_state_handler_updates() {
    let client_state = create_test_client_state();
    let mut handler = RtSessionStateHandler::new(client_state, Duration::milliseconds(1000));

    let new_timeline = timeline_of(140.0, 1_000_000, 1000);

    let incoming_state = IncomingClientState {
        timeline: Some(new_timeline),
        start_stop_state: None,
        timeline_timestamp: Duration::milliseconds(2000),
    };

    handler.update_rt_client_state(incoming_state, Duration::milliseconds(3000), true);

    assert!(handler.has_pending_updates());

    let processed = handler.process_pending_updates();
    assert!(processed.is_some());

    let processed_state = processed.unwrap();
    assert!(processed_state.timeline.is_some());
    assert_eq!(bpm(processed_state.timeline.unwrap().tempo), 140.0);
}

#[test]
fn test_rt_session_state_handler_grace_period() {
    let client_state = create_test_client_state();
    let mut handler = RtSessionStateHandler::new(client_state, Duration::milliseconds(1000));

    handler.set_grace_period(Duration::milliseconds(2000));
    assert_eq!(handler.grace_period(), Duration::milliseconds(2000));
}

#[test]
fn rt_capture_returns_what_was_committed() {
    let mut handler =
        RtSessionStateHandler::new(create_test_client_state(), Duration::milliseconds(1000));
    handler.update_rt_client_state(change(133.5, 10), Duration::milliseconds(3000), true);
    let captured = handler.get_rt_client_state(Duration::milliseconds(3001));
    assert_eq!(bpm(captured.timeline.tempo), 133.5);
    assert_eq!(captured.timeline.time_origin, Duration::milliseconds(10));
    assert!(!captured.start_stop_state.is_playing);
}

#[test]
fn rt_commit_is_processed_once_with_its_stamp() {
    let mut handler =
        RtSessionStateHandler::new(create_test_client_state(), Duration::milliseconds(1000));
    handler.update_rt_client_state(change(90.0, 10), Duration::milliseconds(3000), true);
    let processed = handler.process_pending_updates().unwrap();
    assert_eq!(processed.timeline_timestamp, Duration::milliseconds(3000));
    assert_eq!(processed.timeline, Some(timeline_of(90.0, 0, 10)));
    assert_eq!(
        processed.start_stop_state,
        Some(create_test_client_state().start_stop_state)
    );
    assert!(!handler.has_pending_updates());
    assert!(handler.process_pending_updates().is_none());
}

#[test]
fn rt_later_commit_replaces_an_unprocessed_one() {
    let mut handler =
        RtSessionStateHandler::new(create_test_client_state(), Duration::milliseconds(1000));
    handler.update_rt_client_state(change(90.0, 10), Duration::milliseconds(3000), true);
    handler.update_rt_client_state(change(95.0, 20), Duration::milliseconds(3100), true);
    let processed = handler.process_pending_updates().unwrap();
    assert_eq!(bpm(processed.timeline.unwrap().tempo), 95.0);
    assert!(handler.process_pending_updates().is_none());
}

#[test]
fn rt_empty_commit_changes_nothing() {
    let mut handler =
        RtSessionStateHandler::new(create_test_client_state(), Duration::milliseconds(1000));
    let nothing = IncomingClientState {
        timeline: None,
        start_stop_state: None,
        timeline_timestamp: Duration::milliseconds(5),
    };
    handler.update_rt_client_state(nothing, Duration::milliseconds(3000), true);
    assert!(!handler.has_pending_updates());
    assert!(handler.process_pending_updates().is_none());
}

#[test]
fn rt_disabled_commit_is_stamped_zero() {
    let mut handler =
        RtSessionStateHandler::new(create_test_client_state(), Duration::milliseconds(1000));
    handler.update_rt_client_state(change(90.0, 10), Duration::milliseconds(3000), false);
    let processed = handler.process_pending_updates().unwrap();
    assert_eq!(processed.timeline_timestamp, Duration::zero());
}

#[test]
fn rt_uncountable_grace_period_is_one_second() {
    let long = Duration::new(i64::MAX / 1000, 0).unwrap();
    let handler = RtSessionStateHandler::new(create_test_client_state(), long);
    assert_eq!(handler.grace_period(), Duration::milliseconds(1000));
}

#[test]
fn rt_commit_after_processing_is_captured_within_the_grace_period() {
    let mut handler =
        RtSessionStateHandler::new(create_test_client_state(), Duration::milliseconds(1000));
    handler.update_rt_client_state(change(90.0, 10), Duration::milliseconds(3000), true);
    handler.process_pending_updates();
    let captured = handler.get_rt_client_state(Duration::milliseconds(3500));
    assert_eq!(bpm(captured.timeline.tempo), 90.0);
    let captured = handler.get_rt_client_state(Duration::milliseconds(4500));
    assert_eq!(bpm(captured.timeline.tempo), 90.0);
}

#[test]
fn rt_pending_flag_tells_of_updates() {
    let mut handler =
        RtSessionStateHandler::new(create_test_client_state(), Duration::milliseconds(1000));
    handler.update_rt_client_state(change(90.0, 10), Duration::milliseconds(3000), true);
    assert!(handler.has_pending_updates());
    handler.get_rt_client_state(Duration::milliseconds(5000));
    assert!(!handler.has_pending_updates());
    assert!(handler.process_pending_updates().is_none());
}
