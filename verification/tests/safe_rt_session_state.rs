use ableton_link::link::duration::Duration;
use ableton_link::link::safe_rt_session_state::{Locks, SafeRtSessionStateHandler};
use ableton_link::link::state::{ClientStartStopState, ClientState};
use ableton_link::link::timeline::{Beats, Tempo, Timeline};
use ableton_link::link::IncomingClientState;
use triple_buffer::TripleBuffer;

fn bpm(tempo: Tempo) -> f64 {
    f64::from_bits(tempo.bpm())
}

fn create_test_client_state() -> ClientState {
    ClientState {
        timeline: Timeline {
            tempo: Tempo::new(120.0f64.to_bits()),
            beat_origin: Beats::new(0),
            time_origin: Duration::zero(),
        },
        start_stop_state: ClientStartStopState {
            is_playing: false,
            time: Duration::zero(),
            timestamp: Duration::zero(),
        },
    }
}

fn incoming(tempo: f64) -> IncomingClientState {
    IncomingClientState {
        timeline: Some(Timeline {
            tempo: Tempo::new(tempo.to_bits()),
            beat_origin: Beats::new(1_000_000),
            time_origin: Duration::milliseconds(1000),
        }),
        start_stop_state: None,
        timeline_timestamp: Duration::milliseconds(2000),
    }
}

fn all_locks() -> Locks {
    Locks { input: true, output: true, cache_write: true, cache_read: true }
}

#[test]
fn test_safe_rt_session_state_handler_creation() {
    let client_state = create_test_client_state();
    let handler = SafeRtSessionStateHandler::new(client_state, Duration::milliseconds(1000));

    assert_eq!(handler.grace_period(), Duration::milliseconds(1000));
    assert!(!handler.has_pending_updates());
}

#[test]
fn test_safe_rt_session_state_handler_get_state() {
    let client_state = create_test_client_state();
    let mut handler = SafeRtSessionStateHandler::new(client_state, Duration::milliseconds(1000));

    let current_time = Duration::milliseconds(500);
    let retrieved_state = handler.get_rt_client_state(current_time);

    assert_eq!(bpm(retrieved_state.timeline.tempo), bpm(client_state.timeline.tempo));
    assert_eq!(
        retrieved_state.start_stop_state.is_playing,
        client_state.start_stop_state.is_playing
    );
}

#[test]
fn test_safe_rt_session_state_handler_updates() {
    let client_state = create_test_client_state();
    let mut handler = SafeRtSessionStateHandler::new(client_state, Duration::milliseconds(1000));

    handler.update_rt_client_state(incoming(140.0), Duration::milliseconds(3000), true);

    assert!(handler.has_pending_updates());

    let processed = handler.process_pending_updates();
    assert!(processed.is_some());

    let processed_state = processed.unwrap();
    assert!(processed_state.timeline.is_some());
    assert_eq!(bpm(processed_state.timeline.unwrap().tempo), 140.0);
}

#[test]
fn test_safe_rt_session_state_handler_grace_period() {
    let client_state = create_test_client_state();
    let mut handler = SafeRtSessionStateHandler::new(client_state, Duration::milliseconds(1000));

    handler.set_grace_period(Duration::milliseconds(2000));
    assert_eq!(handler.grace_period(), Duration::milliseconds(2000));
}

#[test]
fn test_safe_triple_buffer_basic_ops() {
    let (mut input, mut output) = TripleBuffer::new(&42i32).split();

    assert_eq!(*output.read(), 42);
    assert!(!output.updated());

    input.write(100);

    assert!(output.updated());

    assert_eq!(*output.read(), 100);
}

#[test]
fn safe_capture_returns_what_was_committed() {
    let mut handler =
        SafeRtSessionStateHandler::new(create_test_client_state(), Duration::milliseconds(1000));
    handler.update_rt_client_state(incoming(140.0), Duration::milliseconds(3000), true);
    let captured = handler.get_rt_client_state(Duration::milliseconds(3000));
    assert_eq!(bpm(captured.timeline.tempo), 140.0);
    assert_eq!(captured.timeline.beat_origin, Beats::new(1_000_000));
}

#[test]
fn commit_without_the_input_lock_leaves_nothing_pending() {
    let mut handler =
        SafeRtSessionStateHandler::new(create_test_client_state(), Duration::milliseconds(1000));
    let locks = Locks { input: false, ..all_locks() };
    handler.try_update_rt_client_state(incoming(140.0), Duration::milliseconds(3000), true, locks);
    assert!(handler.process_pending_updates().is_none());
}

#[test]
fn capture_without_any_lock_returns_the_last_known_state() {
    let mut handler =
        SafeRtSessionStateHandler::new(create_test_client_state(), Duration::milliseconds(1000));
    let locks = Locks { input: false, output: false, cache_write: false, cache_read: false };
    let captured = handler.try_get_rt_client_state(Duration::milliseconds(500), locks);
    assert_eq!(bpm(captured.timeline.tempo), 120.0);
    handler.update_rt_client_state(incoming(77.0), Duration::milliseconds(3000), true);
    let captured = handler.try_get_rt_client_state(Duration::milliseconds(3500), locks);
    assert_eq!(bpm(captured.timeline.tempo), 77.0);
    assert!(handler.has_pending_updates());
}

#[test]
fn safe_pending_flag_tells_of_updates() {
    let mut handler =
        SafeRtSessionStateHandler::new(create_test_client_state(), Duration::milliseconds(1000));
    handler.update_rt_client_state(incoming(140.0), Duration::milliseconds(3000), true);
    assert!(handler.has_pending_updates());
    let captured = handler.get_rt_client_state(Duration::milliseconds(5000));
    assert_eq!(bpm(captured.timeline.tempo), 140.0);
    assert!(!handler.has_pending_updates());
    assert!(handler.process_pending_updates().is_none());
    let mut handler =
        SafeRtSessionStateHandler::new(create_test_client_state(), Duration::milliseconds(1000));
    handler.update_rt_client_state(incoming(141.0), Duration::milliseconds(100), true);
    handler.get_rt_client_state(Duration::milliseconds(500));
    assert!(handler.has_pending_updates());
    assert!(handler.process_pending_updates().is_some());
    assert!(!handler.has_pending_updates());
}

#[test]
fn processing_without_the_output_lock_returns_nothing_and_keeps_the_update() {
    let mut handler =
        SafeRtSessionStateHandler::new(create_test_client_state(), Duration::milliseconds(1000));
    handler.update_rt_client_state(incoming(140.0), Duration::milliseconds(3000), true);
    let locks = Locks { output: false, ..all_locks() };
    assert!(handler.try_process_pending_updates(locks).is_none());
    assert!(handler.has_pending_updates());
    assert!(handler.process_pending_updates().is_some());
}
