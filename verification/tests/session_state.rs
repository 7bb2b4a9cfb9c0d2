use ableton_link::link::duration::Duration;
use ableton_link::link::state::{ClientStartStopState, ClientState};
use ableton_link::link::timeline::{Beats, Tempo, Timeline};
use ableton_link::link::{
    to_incoming_client_state, to_session_state, ApiStartStopState, BasicLink, SessionState,
};

fn bpm(tempo: Tempo) -> f64 {
    f64::from_bits(tempo.bpm())
}

fn client(tempo: f64) -> ClientState {
    ClientState {
        timeline: Timeline {
            tempo: Tempo::new(tempo.to_bits()),
            beat_origin: Beats::new(0),
            time_origin: Duration::zero(),
        },
        start_stop_state: ClientStartStopState {
            is_playing: false,
            time: Duration::milliseconds(4),
            timestamp: Duration::milliseconds(5),
        },
    }
}

fn millis(n: i64) -> Duration {
    Duration::milliseconds(n)
}

fn to_beats(line: Timeline, time: Duration) -> Beats {
    let micros = time.minus(line.time_origin).num_microseconds().unwrap() as f64;
    let beats = micros * bpm(line.tempo) / 60_000_000.0;
    Beats::new(line.beat_origin.micro_beats + (beats * 1e6).round() as i64)
}

fn from_beats(line: Timeline, beats: Beats) -> Duration {
    let micro_beats = (beats.micro_beats - line.beat_origin.micro_beats) as f64;
    let micros = micro_beats * 60.0 / bpm(line.tempo);
    line.time_origin.plus(Duration::microseconds(micros.round() as i64))
}

fn clamp_tempo(line: Timeline) -> Timeline {
    Timeline { tempo: Tempo::new(bpm(line.tempo).clamp(20.0, 999.0).to_bits()), ..line }
}

fn force_to(line: Timeline, time: Duration) -> Timeline {
    Timeline { time_origin: time, ..line }
}

fn captured(tempo: f64) -> SessionState {
    to_session_state(&client(tempo), true)
}

#[test]
fn captured_session_shows_the_client_state() {
    let session = captured(120.0);
    assert_eq!(bpm(session.tempo()), 120.0);
    assert!(!session.is_playing());
    assert_eq!(session.time_for_is_playing(), millis(4));
    assert!(session.respect_quantum);
    assert_eq!(ApiStartStopState::default(), ApiStartStopState::new(false, Duration::zero()));
}

#[test]
fn unedited_session_commits_nothing() {
    let session = captured(120.0);
    let incoming = to_incoming_client_state(&session.state, &session.original_state, millis(9));
    assert!(incoming.timeline.is_none());
    assert!(incoming.start_stop_state.is_none());
    assert_eq!(incoming.timeline_timestamp, millis(9));
}

#[test]
fn edited_parts_are_committed_with_the_time() {
    let mut session = captured(120.0);
    session.set_is_playing(true, millis(7));
    let incoming = to_incoming_client_state(&session.state, &session.original_state, millis(9));
    assert!(incoming.timeline.is_none());
    assert_eq!(
        incoming.start_stop_state,
        Some(ClientStartStopState { is_playing: true, time: millis(7), timestamp: millis(9) })
    );
}

#[test]
fn tempo_change_keeps_the_beat_at_its_time() {
    let mut session = captured(120.0);
    session.set_tempo(
        Tempo::new(60.0f64.to_bits()),
        millis(1_000),
        to_beats,
        clamp_tempo,
        from_beats,
    );
    assert_eq!(bpm(session.tempo()), 60.0);
    assert_eq!(session.state.timeline.beat_origin, Beats::new(0));
    assert_eq!(session.state.timeline.time_origin, millis(-1_000));
    assert_eq!(to_beats(session.state.timeline, millis(1_000)), Beats::new(2_000_000));
    let incoming = to_incoming_client_state(&session.state, &session.original_state, millis(9));
    assert!(incoming.timeline.is_some());
    assert!(incoming.start_stop_state.is_none());
}

#[test]
fn tempo_is_clamped() {
    let mut session = captured(120.0);
    session.set_tempo(Tempo::new(5.0f64.to_bits()), millis(0), to_beats, clamp_tempo, from_beats);
    assert_eq!(bpm(session.tempo()), 20.0);
}

#[test]
fn forced_beat_that_overshoots_is_forced_later() {
    let mut session = captured(120.0);
    session.force_beat_at_time(millis(3), &force_to, &|_: Timeline, _: Duration| false);
    assert_eq!(session.state.timeline.time_origin, millis(3));
    session.force_beat_at_time(millis(3), &force_to, &|_: Timeline, _: Duration| true);
    assert_eq!(session.state.timeline.time_origin, Duration::microseconds(3_001));
}

#[test]
fn requested_beat_respects_the_quantum() {
    let never = |_: Timeline, _: Duration| false;
    let next = |_: Timeline, time: Duration| time.plus(Duration::milliseconds(100));
    let mut session = captured(120.0);
    session.request_beat_at_time(millis(3), &next, &force_to, &never);
    assert_eq!(session.state.timeline.time_origin, millis(103));
    session.respect_quantum = false;
    session.request_beat_at_time(millis(3), &next, &force_to, &never);
    assert_eq!(session.state.timeline.time_origin, millis(3));
}

#[test]
fn beat_is_requested_only_while_playing() {
    let never = |_: Timeline, _: Duration| false;
    let same = |_: Timeline, time: Duration| time;
    let mut session = captured(120.0);
    session.request_beat_at_start_playing_time(&same, &force_to, &never);
    assert_eq!(session.state.timeline.time_origin, Duration::zero());
    session.set_is_playing_and_request_beat_at_time(false, millis(8), &same, &force_to, &never);
    assert_eq!(session.state.timeline.time_origin, Duration::zero());
    assert_eq!(session.time_for_is_playing(), millis(8));
    session.set_is_playing_and_request_beat_at_time(true, millis(9), &same, &force_to, &never);
    assert_eq!(session.state.timeline.time_origin, millis(9));
    assert!(session.is_playing());
}

#[test]
fn link_starts_from_the_controller_or_idle() {
    let mut link = BasicLink::new(Tempo::new(99.0f64.to_bits()), None, millis(1_000));
    let session = link.capture_audio_session_state(millis(1), 0);
    assert_eq!(bpm(session.tempo()), 99.0);
    assert!(!session.is_playing());
    let mut link =
        BasicLink::new(Tempo::new(99.0f64.to_bits()), Some(client(101.0)), millis(1_000));
    assert_eq!(bpm(link.capture_audio_session_state(millis(1), 0).tempo()), 101.0);
}

#[test]
fn edited_audio_session_is_captured_next() {
    let mut link = BasicLink::new(Tempo::new(0), Some(client(120.0)), millis(1_000));
    link.enable();
    let mut session = link.capture_audio_session_state(millis(1), 0);
    session.set_is_playing(true, millis(2));
    session.set_tempo(
        Tempo::new(60.0f64.to_bits()),
        millis(2),
        to_beats,
        clamp_tempo,
        from_beats,
    );
    link.commit_audio_session_state(session, millis(3));
    let next = link.capture_audio_session_state(millis(4), 0);
    assert_eq!(bpm(next.tempo()), 60.0);
    assert!(next.is_playing());
    assert_eq!(next.time_for_is_playing(), millis(2));
    link.disable();
}

#[test]
fn unedited_audio_session_changes_nothing() {
    let mut link = BasicLink::new(Tempo::new(0), Some(client(120.0)), millis(1_000));
    let session = link.capture_audio_session_state(millis(1), 0);
    link.commit_audio_session_state(session, millis(3));
    let next = link.capture_audio_session_state(millis(4), 0);
    assert_eq!(bpm(next.tempo()), 120.0);
    assert_eq!(next.time_for_is_playing(), millis(4));
}

#[test]
fn app_capture_takes_the_controller_or_the_default() {
    let link = BasicLink::new(Tempo::new(0), None, millis(1_000));
    let session = link.capture_app_session_state(Some(client(88.0)), 1, client(11.0).timeline);
    assert_eq!(bpm(session.tempo()), 88.0);
    let session = link.capture_app_session_state(None, 1, client(11.0).timeline);
    assert_eq!(bpm(session.tempo()), 11.0);
    assert!(!session.is_playing());
    assert_eq!(session.time_for_is_playing(), Duration::zero());
    assert!(!session.respect_quantum);
}

#[test]
fn start_stop_callback_hears_changes_once() {
    let mut link = BasicLink::new(Tempo::new(0), None, millis(1_000));
    assert_eq!(link.set_start_stop_callback(Some(client(120.0))), Some(false));
    assert_eq!(link.set_start_stop_callback(None), None);
    let mut session = captured(120.0);
    session.set_is_playing(true, millis(2));
    let commit = link.commit_app_session_state(session, millis(3));
    assert_eq!(commit.start_stop_callback, Some(true));
    assert!(commit.incoming.start_stop_state.unwrap().is_playing);
    let commit = link.commit_app_session_state(session, millis(4));
    assert_eq!(commit.start_stop_callback, None);
    let commit = link.commit_app_session_state(captured(120.0), millis(5));
    assert_eq!(commit.start_stop_callback, None);
    assert!(commit.incoming.timeline.is_none());
}

#[test]
fn tempo_callback_hears_the_controller() {
    let mut link = BasicLink::new(Tempo::new(0), None, millis(1_000));
    assert_eq!(link.tempo_callback(None), None);
    assert_eq!(link.tempo_callback(Some(client(88.0))), Some(88.0f64.to_bits()));
    let mut session = captured(120.0);
    session.set_tempo(
        Tempo::new(60.0f64.to_bits()),
        millis(2),
        to_beats,
        clamp_tempo,
        from_beats,
    );
    let commit = link.commit_app_session_state(session, millis(3));
    let taken_over = ClientState { timeline: commit.incoming.timeline.unwrap(), ..client(120.0) };
    assert_eq!(link.tempo_callback(Some(taken_over)), Some(60.0f64.to_bits()));
}

#[test]
fn changed_time_alone_does_not_call_back() {
    let mut link = BasicLink::new(Tempo::new(0), None, millis(1_000));
    let mut session = captured(120.0);
    session.set_is_playing(false, millis(77));
    let commit = link.commit_app_session_state(session, millis(3));
    assert!(commit.incoming.start_stop_state.is_some());
    assert_eq!(commit.start_stop_callback, None);
}
