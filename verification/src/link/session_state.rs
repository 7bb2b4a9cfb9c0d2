//! The session state that a client captures, edits and commits.

use vstd::prelude::*;

use crate::link::duration::{is_span, Duration};
use crate::link::rt_client_state::asks_nothing;
use crate::link::state::{ClientStartStopState, ClientState};
use crate::link::timeline::{same_timeline, Beats, Tempo, Timeline};

verus! {

/// What a client asks to change: a new timeline, a new start and stop state, both or nothing.
#[derive(Clone, Copy, Debug, PartialEq)]
pub struct IncomingClientState {
    pub timeline: Option<Timeline>,
    pub start_stop_state: Option<ClientStartStopState>,
    pub timeline_timestamp: Duration,
}

/// Whether the transport plays, and since when.
#[derive(Clone, Copy, Debug, PartialEq, Eq, Structural)]
pub struct ApiStartStopState {
    pub is_playing: bool,
    pub time: Duration,
}

impl ApiStartStopState {
    /// A start and stop state of the given parts.
    pub fn new(is_playing: bool, time: Duration) -> (s: ApiStartStopState)
        ensures
            s == (ApiStartStopState { is_playing, time }),
    {
        ApiStartStopState { is_playing, time }
    }
}

impl Default for ApiStartStopState {
    /// Stopped since time zero.
    fn default() -> (s: ApiStartStopState)
        ensures
            s == (ApiStartStopState { is_playing: false, time: Duration::empty() }),
    {
        ApiStartStopState { is_playing: false, time: Duration::zero() }
    }
}

/// The part of a session that a client can edit.
#[derive(Clone, Copy, Debug)]
pub struct ApiState {
    pub timeline: Timeline,
    pub start_stop_state: ApiStartStopState,
}

/// A captured session: what was captured, and what the client made of it.
#[derive(Clone, Copy, Debug)]
pub struct SessionState {
    pub original_state: ApiState,
    pub state: ApiState,
    pub respect_quantum: bool,
}

/// The session of `client`, as captured and not yet edited.
pub open spec fn session_of(client: ClientState) -> SessionState {
    let state = ApiState {
        timeline: client.timeline,
        start_stop_state: ApiStartStopState {
            is_playing: client.start_stop_state.is_playing,
            time: client.start_stop_state.time,
        },
    };
    SessionState { original_state: state, state, respect_quantum: true }
}

/// The session that stands in where no client state is at hand: stopped since time zero on
/// `timeline`, and without respect for the quantum.
pub open spec fn default_session(timeline: Timeline) -> SessionState {
    let state = ApiState {
        timeline,
        start_stop_state: ApiStartStopState { is_playing: false, time: Duration::empty() },
    };
    SessionState { original_state: state, state, respect_quantum: false }
}

/// Captures `state`. A captured session respects the quantum, connected or not.
pub fn to_session_state(state: &ClientState, _is_connected: bool) -> (session: SessionState)
    ensures
        session == session_of(*state),
{
    SessionState::new(
        ApiState {
            timeline: state.timeline,
            start_stop_state: ApiStartStopState {
                is_playing: state.start_stop_state.is_playing,
                time: state.start_stop_state.time,
            },
        },
        true,
    )
}

/// The changes from `original` to `state`, made at `timestamp`: the parts that compare
/// unequal.
pub open spec fn changes(
    state: ApiState,
    original: ApiState,
    timestamp: Duration,
) -> IncomingClientState {
    IncomingClientState {
        timeline: if same_timeline(original.timeline, state.timeline) {
            None
        } else {
            Some(state.timeline)
        },
        start_stop_state: if original.start_stop_state == state.start_stop_state {
            None
        } else {
            Some(
                ClientStartStopState {
                    is_playing: state.start_stop_state.is_playing,
                    time: state.start_stop_state.time,
                    timestamp,
                },
            )
        },
        timeline_timestamp: timestamp,
    }
}

/// What to commit of an edited session: the parts that differ from what was captured.
pub fn to_incoming_client_state(
    state: &ApiState,
    original_state: &ApiState,
    timestamp: Duration,
) -> (incoming: IncomingClientState)
    ensures
        incoming == changes(*state, *original_state, timestamp),
{
    let timeline = if !(original_state.timeline == state.timeline) {
        Some(state.timeline)
    } else {
        None
    };
    let start_stop_state = if original_state.start_stop_state != state.start_stop_state {
        Some(
            ClientStartStopState {
                is_playing: state.start_stop_state.is_playing,
                time: state.start_stop_state.time,
                timestamp,
            },
        )
    } else {
        None
    };
    IncomingClientState { timeline, start_stop_state, timeline_timestamp: timestamp }
}

/// A session that was captured and not edited has nothing to commit. (A tempo that is no
/// number differs from itself and would be committed.)
pub proof fn law_unedited_session_commits_nothing(client: ClientState, timestamp: Duration)
    requires
        client.timeline.tempo.is_number(),
    ensures
        ({
            let session = session_of(client);
            asks_nothing(changes(session.state, session.original_state, timestamp))
        }),
{
}

/// A commit names a part exactly where the edited part differs, and then names the edited
/// part with the time of the commit.
pub proof fn law_commit_names_what_was_edited(
    state: ApiState,
    original: ApiState,
    timestamp: Duration,
)
    ensures
        ({
            let incoming = changes(state, original, timestamp);
            &&& incoming.timeline is Some <==> !same_timeline(original.timeline, state.timeline)
            &&& incoming.timeline matches Some(timeline) ==> timeline == state.timeline
            &&& incoming.start_stop_state is Some <==> original.start_stop_state
                != state.start_stop_state
            &&& incoming.start_stop_state matches Some(start_stop_state)
                ==> start_stop_state.is_playing == state.start_stop_state.is_playing
                && start_stop_state.time == state.start_stop_state.time
                && start_stop_state.timestamp == timestamp
        }),
{
}

/// Whether forcing a beat at `time` onto `before` may result in `after`. The timeline is
/// forced once; where it then overshoots the beat it is forced again one microsecond later.
pub open spec fn is_forced<F: Fn(Timeline, Duration) -> Timeline, G: Fn(Timeline, Duration) -> bool>(
    force: F,
    overshoots: G,
    before: Timeline,
    time: Duration,
    after: Timeline,
) -> bool {
    exists|once: Timeline, over: bool|
        #![trigger overshoots.ensures((once, time), over)]
        {
            &&& force.ensures((before, time), once)
            &&& overshoots.ensures((once, time), over)
            &&& if over {
                exists|later: Duration|
                    later.nanos() == time.nanos() + 1000 && #[trigger] force.ensures(
                        (once, later),
                        after,
                    )
            } else {
                after == once
            }
        }
}

/// Whether changing the tempo of `before` from `at_time` on may result in `after`: it has the
/// clamped tempo and the beat origin of before, at the time at which the line with that tempo
/// through the beat at `at_time` reaches it.
pub open spec fn is_tempo_set<
    B: Fn(Timeline, Duration) -> Beats,
    C: Fn(Timeline) -> Timeline,
    T: Fn(Timeline, Beats) -> Duration,
>(
    to_beats: B,
    clamp_tempo: C,
    from_beats: T,
    before: Timeline,
    tempo: Tempo,
    at_time: Duration,
    after: Timeline,
) -> bool {
    &&& after.beat_origin == before.beat_origin
    &&& exists|beats: Beats, clamped: Timeline|
        {
            &&& #[trigger] to_beats.ensures((before, at_time), beats)
            &&& clamp_tempo.ensures(
                (Timeline { tempo, beat_origin: beats, time_origin: at_time },),
                clamped,
            )
            &&& after.tempo == clamped.tempo
            &&& #[trigger] from_beats.ensures((clamped, before.beat_origin), after.time_origin)
        }
}

/// The session after its transport was started or stopped at `time`.
pub open spec fn with_start_stop(
    session: SessionState,
    is_playing: bool,
    time: Duration,
) -> SessionState {
    SessionState {
        state: ApiState {
            timeline: session.state.timeline,
            start_stop_state: ApiStartStopState { is_playing, time },
        },
        ..session
    }
}

/// Whether a beat can be forced at `time`: either there is a time one microsecond later, or no
/// timeline overshoots the beat at `time`.
pub open spec fn can_force_at<G: Fn(Timeline, Duration) -> bool>(
    time: Duration,
    overshoots: G,
) -> bool {
    is_span(time.nanos() + 1000) || forall|line: Timeline|
        !#[trigger] overshoots.ensures((line, time), true)
}

/// Whether `session` can be asked for a beat at `time`: the beat can be forced at each matching
/// time where the session respects the quantum, at `time` otherwise.
pub open spec fn can_request<
    M: Fn(Timeline, Duration) -> Duration,
    G: Fn(Timeline, Duration) -> bool,
>(session: SessionState, time: Duration, matching_time: M, overshoots: G) -> bool {
    let line = session.state.timeline;
    if session.respect_quantum {
        &&& matching_time.requires((line, time))
        &&& forall|t: Duration| #[trigger]
            matching_time.ensures((line, time), t) ==> can_force_at(t, overshoots)
    } else {
        can_force_at(time, overshoots)
    }
}

impl SessionState {
    /// A session that was captured as `state` and not yet edited.
    pub fn new(state: ApiState, respect_quantum: bool) -> (session: SessionState)
        ensures
            session == (SessionState { original_state: state, state, respect_quantum }),
    {
        SessionState { original_state: state, state, respect_quantum }
    }

    /// The tempo.
    pub fn tempo(&self) -> (tempo: Tempo)
        ensures
            tempo == self.state.timeline.tempo,
    {
        self.state.timeline.tempo
    }

    /// Changes the tempo from `at_time` on. The line through the beat at `at_time` gets the
    /// new tempo, clamped; the timeline takes that tempo, keeps its beat origin and moves its
    /// time origin to where the new line reaches it. `to_beats` and `from_beats` convert
    /// along a timeline, `clamp_tempo` brings a tempo into its bounds.
    pub fn set_tempo<
        B: Fn(Timeline, Duration) -> Beats,
        C: Fn(Timeline) -> Timeline,
        T: Fn(Timeline, Beats) -> Duration,
    >(&mut self, tempo: Tempo, at_time: Duration, to_beats: B, clamp_tempo: C, from_beats: T)
        requires
            to_beats.requires((old(self).state.timeline, at_time)),
            forall|line: Timeline| #[trigger] clamp_tempo.requires((line,)),
            forall|line: Timeline, beats: Beats| #[trigger] from_beats.requires((line, beats)),
        ensures
            is_tempo_set(
                to_beats,
                clamp_tempo,
                from_beats,
                old(self).state.timeline,
                tempo,
                at_time,
                final(self).state.timeline,
            ),
            final(self).state.timeline.beat_origin == old(self).state.timeline.beat_origin,
            final(self).state.start_stop_state == old(self).state.start_stop_state,
            final(self).original_state == old(self).original_state,
            final(self).respect_quantum == old(self).respect_quantum,
    {
        let beats = to_beats(self.state.timeline, at_time);
        let desired = clamp_tempo(Timeline { tempo, beat_origin: beats, time_origin: at_time });
        let time_origin = from_beats(desired, self.state.timeline.beat_origin);
        self.state.timeline.tempo = desired.tempo;
        self.state.timeline.time_origin = time_origin;
        proof {
            let before = old(self).state.timeline;
            assert(to_beats.ensures((before, at_time), beats));
            assert(clamp_tempo.ensures(
                (Timeline { tempo, beat_origin: beats, time_origin: at_time },),
                desired,
            ));
            assert(from_beats.ensures((desired, before.beat_origin), time_origin));
            assert(self.state.timeline.time_origin == time_origin);
        }
    }

    /// Forces a beat to fall at `time`. `force` maps it there; where the result still
    /// `overshoots` the beat at `time` because of rounding, the beat is forced one
    /// microsecond later, so that it is never missed.
    pub fn force_beat_at_time<
        F: Fn(Timeline, Duration) -> Timeline,
        G: Fn(Timeline, Duration) -> bool,
    >(&mut self, time: Duration, force: &F, overshoots: &G)
        requires
            forall|line: Timeline, t: Duration| #[trigger] force.requires((line, t)),
            forall|line: Timeline, t: Duration| #[trigger] overshoots.requires((line, t)),
            can_force_at(time, *overshoots),
        ensures
            is_forced(
                *force,
                *overshoots,
                old(self).state.timeline,
                time,
                final(self).state.timeline,
            ),
            final(self).state.start_stop_state == old(self).state.start_stop_state,
            final(self).original_state == old(self).original_state,
            final(self).respect_quantum == old(self).respect_quantum,
    {
        let once = force(self.state.timeline, time);
        self.state.timeline = once;
        let over = overshoots(once, time);
        if over {
            let later = time.plus(Duration::microseconds(1));
            self.state.timeline = force(once, later);
        }
    }

    /// Asks for a beat at `time`. A session that respects the quantum moves the beat to the
    /// time of the next matching phase, which `matching_time` gives; then the beat is forced.
    pub fn request_beat_at_time<
        M: Fn(Timeline, Duration) -> Duration,
        F: Fn(Timeline, Duration) -> Timeline,
        G: Fn(Timeline, Duration) -> bool,
    >(&mut self, time: Duration, matching_time: &M, force: &F, overshoots: &G)
        requires
            can_request(*old(self), time, *matching_time, *overshoots),
            forall|line: Timeline, t: Duration| #[trigger] force.requires((line, t)),
            forall|line: Timeline, t: Duration| #[trigger] overshoots.requires((line, t)),
        ensures
            is_requested(
                *matching_time,
                *force,
                *overshoots,
                *old(self),
                time,
                final(self).state.timeline,
            ),
            final(self).state.start_stop_state == old(self).state.start_stop_state,
            final(self).original_state == old(self).original_state,
            final(self).respect_quantum == old(self).respect_quantum,
    {
        let at = if self.respect_quantum {
            matching_time(self.state.timeline, time)
        } else {
            time
        };
        self.force_beat_at_time(at, force, overshoots);
    }

    /// Starts or stops the transport at `time`.
    pub fn set_is_playing(&mut self, is_playing: bool, time: Duration)
        ensures
            *final(self) == with_start_stop(*old(self), is_playing, time),
    {
        self.state.start_stop_state = ApiStartStopState::new(is_playing, time);
    }

    /// Whether the transport plays.
    pub fn is_playing(&self) -> (r: bool)
        ensures
            r == self.state.start_stop_state.is_playing,
    {
        self.state.start_stop_state.is_playing
    }

    /// When the transport was last started or stopped.
    pub fn time_for_is_playing(&self) -> (time: Duration)
        ensures
            time == self.state.start_stop_state.time,
    {
        self.state.start_stop_state.time
    }

    /// Asks for a beat at the time at which the transport started, if it plays.
    pub fn request_beat_at_start_playing_time<
        M: Fn(Timeline, Duration) -> Duration,
        F: Fn(Timeline, Duration) -> Timeline,
        G: Fn(Timeline, Duration) -> bool,
    >(&mut self, matching_time: &M, force: &F, overshoots: &G)
        requires
            old(self).state.start_stop_state.is_playing ==> can_request(
                *old(self),
                old(self).state.start_stop_state.time,
                *matching_time,
                *overshoots,
            ),
            forall|line: Timeline, t: Duration| #[trigger] force.requires((line, t)),
            forall|line: Timeline, t: Duration| #[trigger] overshoots.requires((line, t)),
        ensures
            is_requested_if_playing(
                *matching_time,
                *force,
                *overshoots,
                *old(self),
                old(self).state.start_stop_state.is_playing,
                old(self).state.start_stop_state.time,
                final(self).state.timeline,
            ),
            final(self).state.start_stop_state == old(self).state.start_stop_state,
            final(self).original_state == old(self).original_state,
            final(self).respect_quantum == old(self).respect_quantum,
    {
        if self.is_playing() {
            let start = self.state.start_stop_state.time;
            self.request_beat_at_time(start, matching_time, force, overshoots);
        }
    }

    /// Starts or stops the transport at `time`, and asks for a beat then if it starts.
    pub fn set_is_playing_and_request_beat_at_time<
        M: Fn(Timeline, Duration) -> Duration,
        F: Fn(Timeline, Duration) -> Timeline,
        G: Fn(Timeline, Duration) -> bool,
    >(
        &mut self,
        is_playing: bool,
        time: Duration,
        matching_time: &M,
        force: &F,
        overshoots: &G,
    )
        requires
            is_playing ==> can_request(*old(self), time, *matching_time, *overshoots),
            forall|line: Timeline, t: Duration| #[trigger] force.requires((line, t)),
            forall|line: Timeline, t: Duration| #[trigger] overshoots.requires((line, t)),
        ensures
            is_requested_if_playing(
                *matching_time,
                *force,
                *overshoots,
                *old(self),
                is_playing,
                time,
                final(self).state.timeline,
            ),
            final(self).state.start_stop_state == (ApiStartStopState { is_playing, time }),
            final(self).original_state == old(self).original_state,
            final(self).respect_quantum == old(self).respect_quantum,
    {
        self.state.start_stop_state = ApiStartStopState::new(is_playing, time);
        self.request_beat_at_start_playing_time(matching_time, force, overshoots);
    }
}

/// Whether asking `session` for a beat at `time` may result in the timeline `after`: the beat
/// is forced at a matching time where the session respects the quantum, at `time` otherwise.
pub open spec fn is_requested<
    M: Fn(Timeline, Duration) -> Duration,
    F: Fn(Timeline, Duration) -> Timeline,
    G: Fn(Timeline, Duration) -> bool,
>(
    matching_time: M,
    force: F,
    overshoots: G,
    session: SessionState,
    time: Duration,
    after: Timeline,
) -> bool {
    let before = session.state.timeline;
    if session.respect_quantum {
        exists|at: Duration| #[trigger]
            matching_time.ensures((before, time), at) && is_forced(
                force,
                overshoots,
                before,
                at,
                after,
            )
    } else {
        is_forced(force, overshoots, before, time, after)
    }
}

/// Whether asking `session` for a beat at `time` if the transport plays may result in the timeline
/// `after`: where it does not play the timeline stays.
pub open spec fn is_requested_if_playing<
    M: Fn(Timeline, Duration) -> Duration,
    F: Fn(Timeline, Duration) -> Timeline,
    G: Fn(Timeline, Duration) -> bool,
>(
    matching_time: M,
    force: F,
    overshoots: G,
    session: SessionState,
    is_playing: bool,
    time: Duration,
    after: Timeline,
) -> bool {
    if is_playing {
        is_requested(matching_time, force, overshoots, session, time, after)
    } else {
        after == session.state.timeline
    }
}

} // verus!
