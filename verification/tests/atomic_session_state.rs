use ableton_link::link::atomic_session_state::AtomicSessionState;
use ableton_link::link::duration::Duration;
use ableton_link::link::state::{ClientStartStopState, ClientState};
use ableton_link::link::timeline::{Beats, Tempo, Timeline};
use ableton_link::link::IncomingClientState;

fn bpm(tempo: Tempo) -> f64 {
    f64::from_bits(tempo.bpm())
}

fn create_test_client_state() -> ClientState {
    ClientState {
        timeline: Timeline {
            tempo: Tempo::new(120.0f64.to_bits()),
            beat_origin: Beats::new(0),
            time_origin: Duration::zero(),
        },
        start_stop_state: ClientStartStopState {
            is_playing: false,
            time: Duration::zero(),
            timestamp: Duration::zero(),
        },
    }
}

#[test]
fn test_atomic_session_state_creation() {
    let client_state = create_test_client_state();
    let session_state = AtomicSessionState::new(client_state, Duration::milliseconds(1000));

    assert!(!session_state.is_enabled());
    assert_eq!(session_state.peer_count(), 0);
    assert_eq!(session_state.grace_period(), Duration::milliseconds(1000));
}

#[test]
fn test_atomic_session_state_enable() {
    let client_state = create_test_client_state();
    let mut session_state = AtomicSessionState::new(client_state, Duration::milliseconds(1000));

    session_state.set_enabled(true);
    assert!(session_state.is_enabled());

    session_state.set_enabled(false);
    assert!(!session_state.is_enabled());
}

#[test]
fn test_atomic_session_state_peer_count() {
    let client_state = create_test_client_state();
    let mut session_state = AtomicSessionState::new(client_state, Duration::milliseconds(1000));

    session_state.set_peer_count(5);
    assert_eq!(session_state.peer_count(), 5);

    session_state.set_peer_count(0);
    assert_eq!(session_state.peer_count(), 0);
}

#[test]
fn test_atomic_session_state_capture_commit() {
    let client_state = create_test_client_state();
    let mut session_state = AtomicSessionState::new(client_state, Duration::milliseconds(1000));

    let current_time = Duration::milliseconds(1000);

    let captured_audio = session_state.capture_audio_session_state(current_time);
    assert_eq!(bpm(captured_audio.timeline.tempo), 120.0);

    let captured_app = session_state.capture_app_session_state(current_time);
    assert_eq!(bpm(captured_app.timeline.tempo), 120.0);

    let new_timeline = Timeline {
        tempo: Tempo::new(140.0f64.to_bits()),
        beat_origin: Beats::new(1_000_000),
        time_origin: Duration::milliseconds(2000),
    };

    let incoming_state = IncomingClientState {
        timeline: Some(new_timeline),
        start_stop_state: None,
        timeline_timestamp: Duration::milliseconds(2000),
    };

    session_state.commit_audio_session_state(incoming_state, current_time);
    assert!(session_state.has_pending_updates());
}

#[test]
fn app_commit_is_captured_and_processed() {
    let mut session_state =
        AtomicSessionState::new(create_test_client_state(), Duration::milliseconds(1000));
    session_state.set_enabled(true);
    let started = ClientStartStopState {
        is_playing: true,
        time: Duration::milliseconds(7),
        timestamp: Duration::milliseconds(8),
    };
    let incoming = IncomingClientState {
        timeline: None,
        start_stop_state: Some(started),
        timeline_timestamp: Duration::milliseconds(8),
    };
    session_state.commit_app_session_state(incoming, Duration::milliseconds(8));
    let captured = session_state.capture_audio_session_state(Duration::milliseconds(9));
    assert_eq!(captured.start_stop_state, started);
    assert_eq!(bpm(captured.timeline.tempo), 120.0);
    let processed = session_state.process_pending_updates().unwrap();
    assert_eq!(processed.start_stop_state, Some(started));
    assert!(!session_state.has_pending_updates());
}

#[test]
fn captured_update_is_not_pending() {
    let mut session_state =
        AtomicSessionState::new(create_test_client_state(), Duration::milliseconds(1000));
    session_state.set_enabled(true);
    let incoming = IncomingClientState {
        timeline: Some(create_test_client_state().timeline),
        start_stop_state: None,
        timeline_timestamp: Duration::milliseconds(3000),
    };
    session_state.commit_audio_session_state(incoming, Duration::milliseconds(3000));
    assert!(session_state.has_pending_updates());
    session_state.capture_audio_session_state(Duration::milliseconds(5000));
    assert!(!session_state.has_pending_updates());
    assert!(session_state.process_pending_updates().is_none());
}
