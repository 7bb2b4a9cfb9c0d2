//! What a Link instance decides when its clients capture and commit.

use vstd::prelude::*;

use crate::link::atomic_session_state::AtomicSessionState;
use crate::link::duration::Duration;
use crate::link::ieee::same_number_spec;
use crate::link::rt_client_state::{asks_nothing, initial_view, RtView};
use crate::link::session_state::{
    changes, default_session, session_of, to_incoming_client_state, to_session_state,
    ApiStartStopState, ApiState, IncomingClientState, SessionState,
};
use crate::link::state::{ClientStartStopState, ClientState};
use crate::link::timeline::{Beats, Tempo, Timeline};

verus! {

/// What to do after an application thread committed.
#[derive(Clone, Copy, Debug)]
pub struct AppCommit {
    /// The changes, for the controller.
    pub incoming: IncomingClientState,
    /// The argument for the start and stop callback, if it is due.
    pub start_stop_callback: Option<bool>,
}

/// The state of a Link instance outside its controller.
pub struct BasicLink {
    atomic_session_state: AtomicSessionState,
    last_is_playing_for_callback: bool,
}

/// A stopped client state at time zero with the given tempo.
pub open spec fn idle_state(tempo: Tempo) -> ClientState {
    ClientState {
        timeline: Timeline {
            tempo,
            beat_origin: Beats { micro_beats: 0 },
            time_origin: Duration::empty(),
        },
        start_stop_state: ClientStartStopState {
            is_playing: false,
            time: Duration::empty(),
            timestamp: Duration::empty(),
        },
    }
}

/// The client state that an instance starts from: that of the controller where it is at hand,
/// otherwise a stopped one with the given tempo.
pub open spec fn starting_state(
    controller_state: Option<ClientState>,
    tempo: Tempo,
) -> ClientState {
    match controller_state {
        Some(state) => state,
        None => idle_state(tempo),
    }
}

/// What the start and stop callback hears when it is set, and the playing state that it heard
/// last from then on.
pub open spec fn start_stop_heard_first(last: bool, controller_state: Option<ClientState>) -> (
    Option<bool>,
    bool,
) {
    match controller_state {
        Some(state) => (
            Some(state.start_stop_state.is_playing),
            state.start_stop_state.is_playing,
        ),
        None => (None, last),
    }
}

/// The session that an application thread captures.
pub open spec fn captured_for_app(
    controller_state: Option<ClientState>,
    default_timeline: Timeline,
) -> SessionState {
    match controller_state {
        Some(state) => session_of(state),
        None => default_session(default_timeline),
    }
}

/// The playing state that the start and stop callback heard last, after a commit.
pub open spec fn heard_last(last: bool, incoming: IncomingClientState) -> bool {
    match start_stop_heard(last, incoming) {
        Some(is_playing) => is_playing,
        None => last,
    }
}

impl BasicLink {
    /// The session state is sound.
    pub closed spec fn wf(self) -> bool {
        self.atomic_session_state.wf()
    }

    /// The handler of a sound instance is in step, and its pending flag holds.
    pub proof fn lemma_wf_is_in_step(self)
        requires
            self.wf(),
        ensures
            self.handler().in_step(),
            self.handler().flag_holds(),
    {
        self.atomic_session_state.lemma_wf_is_in_step();
    }

    /// What the real-time handler knows.
    pub closed spec fn handler(self) -> RtView {
        self.atomic_session_state.handler()
    }

    /// Whether the session is enabled.
    pub closed spec fn enabled(self) -> bool {
        self.atomic_session_state.enabled()
    }

    /// The playing state that the start and stop callback heard of last.
    pub closed spec fn last_is_playing(self) -> bool {
        self.last_is_playing_for_callback
    }

    /// A disabled instance. It starts from the state of the controller where that is at
    /// hand, otherwise stopped at time zero with the given tempo.
    pub fn new(tempo: Tempo, controller_state: Option<ClientState>, grace_period: Duration) -> (l:
        BasicLink)
        ensures
            l.wf(),
            !l.enabled(),
            !l.last_is_playing(),
            l.handler() == initial_view(starting_state(controller_state, tempo), grace_period),
    {
        let initial = match controller_state {
            Some(state) => state,
            None => ClientState {
                timeline: Timeline {
                    tempo,
                    beat_origin: Beats::new(0),
                    time_origin: Duration::zero(),
                },
                start_stop_state: ClientStartStopState {
                    is_playing: false,
                    time: Duration::zero(),
                    timestamp: Duration::zero(),
                },
            },
        };
        BasicLink {
            atomic_session_state: AtomicSessionState::new(initial, grace_period),
            last_is_playing_for_callback: false,
        }
    }

    /// Enables the session.
    pub fn enable(&mut self)
        requires
            old(self).wf(),
        ensures
            final(self).wf(),
            final(self).enabled(),
            final(self).handler() == old(self).handler(),
            final(self).last_is_playing() == old(self).last_is_playing(),
    {
        self.atomic_session_state.set_enabled(true);
    }

    /// Disables the session.
    pub fn disable(&mut self)
        requires
            old(self).wf(),
        ensures
            final(self).wf(),
            !final(self).enabled(),
            final(self).handler() == old(self).handler(),
            final(self).last_is_playing() == old(self).last_is_playing(),
    {
        self.atomic_session_state.set_enabled(false);
    }

    /// Notes the playing state of the controller, where it is at hand, as the one that the
    /// start and stop callback heard of, and returns it for that first call.
    pub fn set_start_stop_callback(&mut self, controller_state: Option<ClientState>) -> (first:
        Option<bool>)
        requires
            old(self).wf(),
        ensures
            final(self).wf(),
            final(self).handler() == old(self).handler(),
            final(self).enabled() == old(self).enabled(),
            (first, final(self).last_is_playing()) == start_stop_heard_first(
                old(self).last_is_playing(),
                controller_state,
            ),
    {
        match controller_state {
            Some(state) => {
                self.last_is_playing_for_callback = state.start_stop_state.is_playing;
                Some(self.last_is_playing_for_callback)
            },
            None => None,
        }
    }

    /// Captures the session for an audio thread.
    pub fn capture_audio_session_state(&mut self, current_time: Duration, num_peers: usize) -> (
        session: SessionState)
        requires
            old(self).wf(),
        ensures
            final(self).wf(),
            session == session_of(old(self).handler().captured(current_time)),
            final(self).handler() == old(self).handler().after_capture(current_time),
            final(self).enabled() == old(self).enabled(),
            final(self).last_is_playing() == old(self).last_is_playing(),
    {
        let client = self.atomic_session_state.capture_audio_session_state(current_time);
        to_session_state(&client, num_peers > 0)
    }

    /// Commits a session that an audio thread edited.
    pub fn commit_audio_session_state(&mut self, state: SessionState, current_time: Duration)
        requires
            old(self).wf(),
        ensures
            final(self).wf(),
            final(self).handler() == old(self).handler().after_commit(
                changes(state.state, state.original_state, current_time),
                current_time,
                old(self).enabled(),
            ),
            final(self).enabled() == old(self).enabled(),
            final(self).last_is_playing() == old(self).last_is_playing(),
    {
        let incoming = to_incoming_client_state(&state.state, &state.original_state, current_time);
        self.atomic_session_state.commit_audio_session_state(incoming, current_time);
    }

    /// Captures the session for an application thread from the state of the controller. Where
    /// that is not at hand it is the default session on the default timeline.
    pub fn capture_app_session_state(
        &self,
        controller_state: Option<ClientState>,
        num_peers: usize,
        default_timeline: Timeline,
    ) -> (session: SessionState)
        ensures
            session == captured_for_app(controller_state, default_timeline),
    {
        match controller_state {
            Some(state) => to_session_state(&state, num_peers > 0),
            None => SessionState::new(
                ApiState {
                    timeline: default_timeline,
                    start_stop_state: ApiStartStopState::default(),
                },
                false,
            ),
        }
    }

    /// Commits a session that an application thread edited. The start and stop callback is
    /// due where the commit starts or stops the transport and the callback has not heard of
    /// that yet.
    pub fn commit_app_session_state(&mut self, state: SessionState, current_time: Duration) -> (
        commit: AppCommit)
        requires
            old(self).wf(),
        ensures
            final(self).wf(),
            final(self).handler() == old(self).handler(),
            final(self).enabled() == old(self).enabled(),
            commit.incoming == changes(state.state, state.original_state, current_time),
            commit.start_stop_callback == start_stop_heard(
                old(self).last_is_playing(),
                commit.incoming,
            ),
            final(self).last_is_playing() == heard_last(
                old(self).last_is_playing(),
                commit.incoming,
            ),
    {
        let incoming = to_incoming_client_state(&state.state, &state.original_state, current_time);
        let should_invoke_callback = match incoming.start_stop_state {
            Some(start_stop_state) => {
                let changed = self.last_is_playing_for_callback != start_stop_state.is_playing;
                if changed {
                    self.last_is_playing_for_callback = start_stop_state.is_playing;
                }
                changed
            },
            None => false,
        };
        let start_stop_callback = if should_invoke_callback {
            Some(self.last_is_playing_for_callback)
        } else {
            None
        };
        AppCommit { incoming, start_stop_callback }
    }

    /// The argument for the tempo callback: the bit pattern of the tempo of the controller,
    /// where its state is at hand. The callback is due once when it is set, and once after each
    /// commit of an application thread.
    pub fn tempo_callback(&self, controller_state: Option<ClientState>) -> (bpm_bits: Option<u64>)
        ensures
            bpm_bits == tempo_heard(controller_state),
    {
        match controller_state {
            Some(state) => Some(state.timeline.tempo.bpm()),
            None => None,
        }
    }
}

/// What the tempo callback hears: the tempo of the controller, where its state is at hand.
pub open spec fn tempo_heard(controller_state: Option<ClientState>) -> Option<u64> {
    match controller_state {
        Some(state) => Some(state.timeline.tempo.bpm_bits),
        None => None,
    }
}

/// After a commit that changes the tempo, the tempo callback hears the new tempo: the commit
/// tells the controller the new timeline, and the callback hears the tempo of the controller
/// that took it over.
pub proof fn law_tempo_callback_hears_the_new_tempo(
    captured: ClientState,
    edited: SessionState,
    commit_time: Duration,
    controller_state: ClientState,
)
    requires
        edited.original_state == session_of(captured).state,
        !same_number_spec(
            edited.state.timeline.tempo.bpm_bits,
            captured.timeline.tempo.bpm_bits,
        ),
        Some(controller_state.timeline) == changes(
            edited.state,
            edited.original_state,
            commit_time,
        ).timeline,
    ensures
        changes(edited.state, edited.original_state, commit_time).timeline == Some(
            edited.state.timeline,
        ),
        tempo_heard(Some(controller_state)) == Some(edited.state.timeline.tempo.bpm_bits),
{
}

/// The start and stop callback hears of a commit exactly where it starts or stops the transport
/// against what the callback heard last; a changed time alone does not call it.
pub open spec fn start_stop_heard(last: bool, incoming: IncomingClientState) -> Option<bool> {
    match incoming.start_stop_state {
        Some(start_stop_state) => if start_stop_state.is_playing != last {
            Some(start_stop_state.is_playing)
        } else {
            None
        },
        None => None,
    }
}

/// A session that is committed twice calls the start and stop callback at most once: what it
/// heard is what it heard last, and it does not hear that again.
pub proof fn law_start_stop_callback_hears_once(last: bool, incoming: IncomingClientState)
    ensures
        ({
            let heard = start_stop_heard(last, incoming);
            let last_after = heard_last(last, incoming);
            &&& heard is Some ==> heard->Some_0 != last && incoming.start_stop_state is Some
                && incoming.start_stop_state->Some_0.is_playing == heard->Some_0
            &&& start_stop_heard(last_after, incoming) is None
        }),
{
}

/// Capturing on an audio thread and committing the unedited session changes nothing that a
/// capture returns.
pub proof fn law_unedited_audio_session_changes_nothing(
    handler: RtView,
    capture_time: Duration,
    commit_time: Duration,
    is_enabled: bool,
)
    requires
        handler.in_step(),
        handler.cached.timeline.tempo.is_number(),
    ensures
        ({
            let session = session_of(handler.captured(capture_time));
            let incoming = changes(session.state, session.original_state, commit_time);
            let after = handler.after_capture(capture_time).after_commit(
                incoming,
                commit_time,
                is_enabled,
            );
            &&& asks_nothing(incoming)
            &&& after == handler.after_capture(capture_time)
            &&& after.cached == handler.cached
        }),
{
}

/// What an audio thread edits and commits is what the next capture returns, in each part that
/// it changed; the other parts stay as they were.
pub proof fn law_edited_audio_session_is_captured_next(
    handler: RtView,
    capture_time: Duration,
    edited: SessionState,
    commit_time: Duration,
    is_enabled: bool,
    next_time: Duration,
)
    requires
        handler.in_step(),
        edited.original_state == session_of(handler.captured(capture_time)).state,
    ensures
        ({
            let incoming = changes(edited.state, edited.original_state, commit_time);
            let committed = handler.after_capture(capture_time).after_commit(
                incoming,
                commit_time,
                is_enabled,
            );
            let next = session_of(committed.captured(next_time)).state;
            &&& next.start_stop_state == edited.state.start_stop_state
            &&& incoming.timeline is Some ==> next.timeline == edited.state.timeline
            &&& incoming.timeline is None ==> next.timeline == handler.cached.timeline
        }),
{
}

} // verus!
