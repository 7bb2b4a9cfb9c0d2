//! What holds of captured, edited and committed sessions, of the handlers behind them and of the
//! callbacks.

use vstd::prelude::*;
use vstd::std_specs::cmp::PartialEqSpec;

use crate::link::basic_link::{
    captured_for_app, heard_last, idle_state, start_stop_heard, start_stop_heard_first,
    starting_state, tempo_heard,
};
use crate::link::duration::{
    law_counting_drops_what_is_not_full, law_empty_span_has_no_length, Duration,
};
use crate::link::ghostxform::{no_x_form, same_x_form, GhostXForm};
use crate::link::ieee::same_number_spec;
use crate::link::rt_client_state::{
    client_state, counter_micros, initial_view, rt_state, RtClientState, RtView,
};
use crate::link::safe_rt_session_state::{
    after_capture_with, after_commit_with, captured_with, is_processed_with, Locks,
};
use crate::link::session_state::{
    can_force_at, changes, default_session, is_forced, is_requested, is_requested_if_playing,
    is_tempo_set, session_of, with_start_stop, ApiState, IncomingClientState, SessionState,
};
use crate::link::state::ClientState;
use crate::link::timeline::{same_timeline, Beats, Tempo, Timeline};
use crate::link::wrap::{as_signed, as_unsigned};

verus! {

/// The pattern of a number, infinities included, compares equal to itself.
pub proof fn law_numbers_equal_themselves(bits: u64)
    requires
        bits <= 0x7FF0_0000_0000_0000 || 0x8000_0000_0000_0000 <= bits <= 0xFFF0_0000_0000_0000,
    ensures
        same_number_spec(bits, bits),
{
}

/// A pattern that stands for no number compares equal to nothing, itself included.
pub proof fn law_what_is_no_number_equals_nothing(bits: u64, other: u64)
    requires
        0x7FF0_0000_0000_0000 < bits < 0x8000_0000_0000_0000 || bits > 0xFFF0_0000_0000_0000,
    ensures
        !same_number_spec(bits, other),
        !same_number_spec(other, bits),
{
}

/// Two patterns that compare equal are the same pattern, except that the two zeros are equal.
pub proof fn law_equal_numbers_are_one_pattern(a: u64, b: u64)
    ensures
        same_number_spec(a, b) && a != b ==> (a == 0 && b == 0x8000_0000_0000_0000) || (a
            == 0x8000_0000_0000_0000 && b == 0),
        same_number_spec(0, 0x8000_0000_0000_0000),
        same_number_spec(a, b) == same_number_spec(b, a),
{
}

/// Timelines that compare equal agree in beat origin and time origin, and in their tempos as
/// numbers; and timelines that agree in these compare equal.
pub proof fn law_equal_timelines_agree_in_every_part(a: Timeline, b: Timeline)
    ensures
        same_timeline(a, b) ==> a.beat_origin.micro_beats == b.beat_origin.micro_beats,
        same_timeline(a, b) ==> a.time_origin == b.time_origin,
        same_timeline(a, b) ==> a.time_origin.nanos() == b.time_origin.nanos(),
        same_timeline(a, b) ==> same_number_spec(a.tempo.bpm_bits, b.tempo.bpm_bits),
        a.beat_origin.micro_beats == b.beat_origin.micro_beats && a.time_origin == b.time_origin
            && same_number_spec(a.tempo.bpm_bits, b.tempo.bpm_bits) ==> same_timeline(a, b),
        same_timeline(a, b) == same_timeline(b, a),
{
}

/// What `==` tells of two timelines is whether beat origins and time origins are the same and the
/// tempos are equal numbers; what it tells of two tempos is the latter alone.
pub proof fn law_comparing_timelines_compares_every_part(a: Timeline, b: Timeline)
    ensures
        a.eq_spec(&b) <==> a.beat_origin.micro_beats == b.beat_origin.micro_beats && a.time_origin
            == b.time_origin && same_number_spec(a.tempo.bpm_bits, b.tempo.bpm_bits),
        a.tempo.eq_spec(&b.tempo) <==> same_number_spec(a.tempo.bpm_bits, b.tempo.bpm_bits),
{
}

/// What `==` tells of two transforms is whether intercepts are the same and slopes are equal
/// numbers.
pub proof fn law_comparing_transforms_compares_every_part(a: GhostXForm, b: GhostXForm)
    ensures
        a.eq_spec(&b) <==> a.intercept == b.intercept && same_number_spec(
            a.slope_bits,
            b.slope_bits,
        ),
{
}

/// Transforms that compare equal agree in intercept and slope, and transforms that agree compare
/// equal. No transform has slope zero and no intercept.
pub proof fn law_equal_transforms_agree_in_every_part(a: GhostXForm, b: GhostXForm)
    ensures
        same_x_form(a, b) ==> a.intercept == b.intercept,
        same_x_form(a, b) ==> same_number_spec(a.slope_bits, b.slope_bits),
        a.intercept == b.intercept && same_number_spec(a.slope_bits, b.slope_bits) ==> same_x_form(
            a,
            b,
        ),
        no_x_form().slope_bits == 0,
        no_x_form().intercept.nanos() == 0,
{
    law_empty_span_has_no_length();
}

/// A captured session shows timeline, playing state and its time as the client has them, is not
/// edited yet, and respects the quantum.
pub proof fn law_capture_shows_the_client(client: ClientState)
    ensures
        session_of(client).state.timeline == client.timeline,
        session_of(client).state.start_stop_state.is_playing == client.start_stop_state.is_playing,
        session_of(client).state.start_stop_state.time == client.start_stop_state.time,
        session_of(client).original_state == session_of(client).state,
        session_of(client).respect_quantum,
{
}

/// The default session is stopped since time zero on its timeline, is not edited and does not
/// respect the quantum.
pub proof fn law_default_session_is_stopped(timeline: Timeline)
    ensures
        default_session(timeline).state.timeline == timeline,
        !default_session(timeline).state.start_stop_state.is_playing,
        default_session(timeline).state.start_stop_state.time.nanos() == 0,
        default_session(timeline).original_state == default_session(timeline).state,
        !default_session(timeline).respect_quantum,
{
    law_empty_span_has_no_length();
}

/// An instance without a controller state starts stopped at time zero and beat zero with its
/// tempo.
pub proof fn law_idle_instance_is_stopped(tempo: Tempo)
    ensures
        idle_state(tempo).timeline.tempo == tempo,
        idle_state(tempo).timeline.beat_origin.micro_beats == 0,
        idle_state(tempo).timeline.time_origin.nanos() == 0,
        !idle_state(tempo).start_stop_state.is_playing,
        idle_state(tempo).start_stop_state.time.nanos() == 0,
        idle_state(tempo).start_stop_state.timestamp.nanos() == 0,
{
    law_empty_span_has_no_length();
}

/// A timeline that was moved in beat or time, or got a tempo that is another number, is committed
/// as edited, with the time of the commit.
pub proof fn law_edited_timeline_is_committed(
    state: ApiState,
    original: ApiState,
    timestamp: Duration,
)
    requires
        state.timeline.beat_origin.micro_beats != original.timeline.beat_origin.micro_beats
            || state.timeline.time_origin != original.timeline.time_origin || (
        state.timeline.tempo.bpm_bits != original.timeline.tempo.bpm_bits
            && state.timeline.tempo.bpm_bits != 0 && state.timeline.tempo.bpm_bits
            != 0x8000_0000_0000_0000),
    ensures
        changes(state, original, timestamp).timeline == Some(state.timeline),
        changes(state, original, timestamp).timeline_timestamp == timestamp,
{
}

/// A transport that was started or stopped, or at another time, is committed as edited, with the
/// time of the commit.
pub proof fn law_edited_transport_is_committed(
    state: ApiState,
    original: ApiState,
    timestamp: Duration,
)
    requires
        state.start_stop_state.is_playing != original.start_stop_state.is_playing
            || state.start_stop_state.time != original.start_stop_state.time,
    ensures
        changes(state, original, timestamp).start_stop_state is Some,
        changes(state, original, timestamp).start_stop_state->Some_0.is_playing
            == state.start_stop_state.is_playing,
        changes(state, original, timestamp).start_stop_state->Some_0.time
            == state.start_stop_state.time,
        changes(state, original, timestamp).start_stop_state->Some_0.timestamp == timestamp,
{
}

/// A part that was not edited is not committed. (A tempo that is no number differs from itself.)
pub proof fn law_unedited_parts_are_not_committed(
    state: ApiState,
    original: ApiState,
    timestamp: Duration,
)
    ensures
        state.timeline == original.timeline && state.timeline.tempo.bpm_bits
            <= 0x7FF0_0000_0000_0000 ==> changes(state, original, timestamp).timeline is None,
        state.start_stop_state == original.start_stop_state ==> changes(
            state,
            original,
            timestamp,
        ).start_stop_state is None,
{
}

/// Starting or stopping the transport sets the playing state and its time and nothing else, so
/// that a commit of a captured session that was started or stopped asks for just that.
pub proof fn law_starting_and_stopping_is_committed(
    client: ClientState,
    is_playing: bool,
    time: Duration,
    timestamp: Duration,
)
    requires
        client.timeline.tempo.bpm_bits <= 0x7FF0_0000_0000_0000,
        is_playing != client.start_stop_state.is_playing,
    ensures
        ({
            let edited = with_start_stop(session_of(client), is_playing, time);
            let incoming = changes(edited.state, edited.original_state, timestamp);
            &&& edited.state.start_stop_state.is_playing == is_playing
            &&& edited.state.start_stop_state.time == time
            &&& edited.respect_quantum
            &&& incoming.timeline is None
            &&& incoming.start_stop_state is Some
            &&& incoming.start_stop_state->Some_0.is_playing == is_playing
            &&& incoming.start_stop_state->Some_0.time == time
        }),
{
}

/// Starting or stopping the transport keeps the timeline, what was captured, and the respect for
/// the quantum.
pub proof fn law_starting_and_stopping_keeps_the_rest(
    session: SessionState,
    is_playing: bool,
    time: Duration,
)
    ensures
        with_start_stop(session, is_playing, time).state.timeline == session.state.timeline,
        with_start_stop(session, is_playing, time).original_state == session.original_state,
        with_start_stop(session, is_playing, time).respect_quantum == session.respect_quantum,
        with_start_stop(session, is_playing, time).state.start_stop_state.is_playing == is_playing,
        with_start_stop(session, is_playing, time).state.start_stop_state.time == time,
{
}

/// What an audio thread changes of the timeline and commits is what the next capture returns,
/// whenever that is, and whether the session is enabled or not.
pub proof fn law_edited_timeline_is_captured_next(
    handler: RtView,
    capture_time: Duration,
    edited: SessionState,
    commit_time: Duration,
    is_enabled: bool,
    next_time: Duration,
)
    requires
        handler.unread ==> handler.latest.timeline == handler.cached.timeline
            && handler.latest.start_stop_state == handler.cached.start_stop_state,
        edited.original_state == session_of(handler.captured(capture_time)).state,
        edited.state.timeline.beat_origin.micro_beats
            != edited.original_state.timeline.beat_origin.micro_beats
            || edited.state.timeline.time_origin != edited.original_state.timeline.time_origin,
    ensures
        ({
            let incoming = changes(edited.state, edited.original_state, commit_time);
            let committed = handler.after_capture(capture_time).after_commit(
                incoming,
                commit_time,
                is_enabled,
            );
            let next = committed.captured(next_time);
            &&& next.timeline == edited.state.timeline
            &&& next.start_stop_state.is_playing == edited.state.start_stop_state.is_playing
            &&& next.start_stop_state.time == edited.state.start_stop_state.time
        }),
{
}

/// A tempo change takes the tempo that clamping gives, keeps the beat origin, and puts it at the
/// time at which the new line reaches it. The new line goes through the beat at the time of the
/// change.
pub proof fn law_tempo_changes_around_the_beat_at_its_time<
    B: Fn(Timeline, Duration) -> Beats,
    C: Fn(Timeline) -> Timeline,
    T: Fn(Timeline, Beats) -> Duration,
>(
    to_beats: B,
    clamp_tempo: C,
    from_beats: T,
    before: Timeline,
    tempo: Tempo,
    at_time: Duration,
    after: Timeline,
    beats: Beats,
    clamped: Timeline,
    time_origin: Duration,
)
    requires
        is_tempo_set(to_beats, clamp_tempo, from_beats, before, tempo, at_time, after),
        forall|b: Beats| #[trigger] to_beats.ensures((before, at_time), b) ==> b == beats,
        forall|c: Timeline| #[trigger]
            clamp_tempo.ensures(
                (Timeline { tempo, beat_origin: beats, time_origin: at_time },),
                c,
            ) ==> c == clamped,
        forall|t: Duration| #[trigger]
            from_beats.ensures((clamped, before.beat_origin), t) ==> t == time_origin,
    ensures
        after.tempo == clamped.tempo,
        after.beat_origin == before.beat_origin,
        after.time_origin == time_origin,
{
}

/// A beat that does not overshoot once it was forced is forced once, at its time.
pub proof fn law_beat_is_forced_at_its_time<
    F: Fn(Timeline, Duration) -> Timeline,
    G: Fn(Timeline, Duration) -> bool,
>(force: F, overshoots: G, before: Timeline, time: Duration, after: Timeline)
    requires
        is_forced(force, overshoots, before, time, after),
        forall|line: Timeline| !#[trigger] overshoots.ensures((line, time), true),
    ensures
        force.ensures((before, time), after),
{
}

/// A beat that overshoots once it was forced is forced again on the timeline that this gave,
/// exactly one microsecond later.
pub proof fn law_overshot_beat_is_forced_one_microsecond_later<
    F: Fn(Timeline, Duration) -> Timeline,
    G: Fn(Timeline, Duration) -> bool,
>(force: F, overshoots: G, before: Timeline, time: Duration, after: Timeline)
    requires
        is_forced(force, overshoots, before, time, after),
        forall|line: Timeline| !#[trigger] overshoots.ensures((line, time), false),
    ensures
        exists|once: Timeline, later: Duration|
            #[trigger] force.ensures((before, time), once) && later.nanos() == time.nanos() + 1000
                && #[trigger] force.ensures((once, later), after),
{
    let (once, over) = choose|once: Timeline, over: bool|
        #![trigger overshoots.ensures((once, time), over)]
        {
            &&& force.ensures((before, time), once)
            &&& overshoots.ensures((once, time), over)
            &&& if over {
                exists|later: Duration|
                    later.nanos() == time.nanos() + 1000 && #[trigger] force.ensures(
                        (once, later),
                        after,
                    )
            } else {
                after == once
            }
        };
    assert(over);
}

/// A beat that is asked for is forced at the matching time where the session respects the quantum,
/// and at the time that was asked for where it does not.
pub proof fn law_requested_beat_is_forced_at_its_matching_time<
    M: Fn(Timeline, Duration) -> Duration,
    F: Fn(Timeline, Duration) -> Timeline,
    G: Fn(Timeline, Duration) -> bool,
>(
    matching_time: M,
    force: F,
    overshoots: G,
    session: SessionState,
    time: Duration,
    at: Duration,
    after: Timeline,
)
    requires
        is_requested(matching_time, force, overshoots, session, time, after),
        forall|t: Duration| #[trigger]
            matching_time.ensures((session.state.timeline, time), t) ==> t == at,
        forall|line: Timeline, t: Duration| !#[trigger] overshoots.ensures((line, t), true),
    ensures
        session.respect_quantum ==> force.ensures((session.state.timeline, at), after),
        !session.respect_quantum ==> force.ensures((session.state.timeline, time), after),
{
    let before = session.state.timeline;
    if session.respect_quantum {
        let t = choose|t: Duration| #[trigger]
            matching_time.ensures((before, time), t) && is_forced(
                force,
                overshoots,
                before,
                t,
                after,
            );
        law_beat_is_forced_at_its_time(force, overshoots, before, t, after);
    } else {
        law_beat_is_forced_at_its_time(force, overshoots, before, time, after);
    }
}

/// A beat that is asked for and overshoots is forced again, one microsecond after the time at
/// which it was forced first.
pub proof fn law_overshot_request_is_forced_one_microsecond_later<
    M: Fn(Timeline, Duration) -> Duration,
    F: Fn(Timeline, Duration) -> Timeline,
    G: Fn(Timeline, Duration) -> bool,
>(
    matching_time: M,
    force: F,
    overshoots: G,
    session: SessionState,
    time: Duration,
    at: Duration,
    after: Timeline,
)
    requires
        is_requested(matching_time, force, overshoots, session, time, after),
        session.respect_quantum ==> forall|t: Duration| #[trigger]
            matching_time.ensures((session.state.timeline, time), t) ==> t == at,
        !session.respect_quantum ==> at == time,
        forall|line: Timeline, t: Duration| !#[trigger] overshoots.ensures((line, t), false),
    ensures
        exists|once: Timeline, later: Duration|
            #[trigger] force.ensures((session.state.timeline, at), once) && later.nanos()
                == at.nanos() + 1000 && #[trigger] force.ensures((once, later), after),
{
    let before = session.state.timeline;
    if session.respect_quantum {
        let t = choose|t: Duration| #[trigger]
            matching_time.ensures((before, time), t) && is_forced(
                force,
                overshoots,
                before,
                t,
                after,
            );
        assert(t == at);
    }
    law_overshot_beat_is_forced_one_microsecond_later(force, overshoots, before, at, after);
}

/// A transport that plays asks for the beat, one that does not keeps its timeline.
pub proof fn law_beat_is_requested_only_while_playing<
    M: Fn(Timeline, Duration) -> Duration,
    F: Fn(Timeline, Duration) -> Timeline,
    G: Fn(Timeline, Duration) -> bool,
>(
    matching_time: M,
    force: F,
    overshoots: G,
    session: SessionState,
    is_playing: bool,
    time: Duration,
    after: Timeline,
)
    requires
        is_requested_if_playing(
            matching_time,
            force,
            overshoots,
            session,
            is_playing,
            time,
            after,
        ),
    ensures
        is_playing ==> is_requested(matching_time, force, overshoots, session, time, after),
        !is_playing ==> after == session.state.timeline,
{
}

/// A beat can be forced at every time but those of the last microsecond of the range of spans.
pub proof fn law_beat_can_be_forced_at_usual_times<G: Fn(Timeline, Duration) -> bool>(
    time: Duration,
    overshoots: G,
)
    requires
        -(0x7FFF_FFFF_FFFF_FFFF * 1_000_000) <= time.nanos() <= 0x7FFF_FFFF_FFFF_FFFF * 1_000_000
            - 1000,
    ensures
        can_force_at(time, overshoots),
{
}

/// The start and stop callback is due exactly where the committed playing state differs from what
/// it heard last, for starts as for stops, and then hears the committed one.
pub proof fn law_start_stop_callback_hears_every_change(last: bool, incoming: IncomingClientState)
    ensures
        incoming.start_stop_state is Some && incoming.start_stop_state->Some_0.is_playing != last
            ==> start_stop_heard(last, incoming) == Some(
            incoming.start_stop_state->Some_0.is_playing,
        ),
        incoming.start_stop_state is Some && incoming.start_stop_state->Some_0.is_playing == last
            ==> start_stop_heard(last, incoming) is None,
        incoming.start_stop_state is None ==> start_stop_heard(last, incoming) is None,
{
}

/// After a commit that names a playing state the callback heard of that state, whether it was
/// due or not; after one that names none it heard of nothing new.
pub proof fn law_callback_heard_of_what_was_committed(last: bool, incoming: IncomingClientState)
    ensures
        incoming.start_stop_state is Some ==> heard_last(last, incoming)
            == incoming.start_stop_state->Some_0.is_playing,
        incoming.start_stop_state is None ==> heard_last(last, incoming) == last,
{
}

/// A callback that is set hears the playing state of the controller at once, and then only what
/// differs from it. Where the controller is not at hand it hears nothing.
pub proof fn law_callback_hears_the_controller_first(last: bool, state: ClientState)
    ensures
        start_stop_heard_first(last, Some(state)).0 == Some(state.start_stop_state.is_playing),
        start_stop_heard_first(last, Some(state)).1 == state.start_stop_state.is_playing,
        start_stop_heard_first(last, None).0 is None,
        start_stop_heard_first(last, None).1 == last,
{
}

/// An instance starts from the state of the controller, and an application thread captures it.
/// Where the controller is not at hand an instance starts with its tempo, and an application
/// thread captures a stopped session on the default timeline.
pub proof fn law_controller_state_is_taken(
    state: ClientState,
    tempo: Tempo,
    default_timeline: Timeline,
)
    ensures
        starting_state(Some(state), tempo) == state,
        starting_state(None, tempo).timeline.tempo == tempo,
        !starting_state(None, tempo).start_stop_state.is_playing,
        captured_for_app(Some(state), default_timeline).state.timeline == state.timeline,
        captured_for_app(Some(state), default_timeline).state.start_stop_state.is_playing
            == state.start_stop_state.is_playing,
        captured_for_app(Some(state), default_timeline).state.start_stop_state.time
            == state.start_stop_state.time,
        captured_for_app(None, default_timeline).state.timeline == default_timeline,
        !captured_for_app(None, default_timeline).state.start_stop_state.is_playing,
{
}

/// The tempo callback hears the tempo of the controller where its state is at hand, and nothing
/// where it is not.
pub proof fn law_tempo_callback_hears_the_controller(state: ClientState)
    ensures
        tempo_heard(Some(state)) == Some(state.timeline.tempo.bpm_bits),
        tempo_heard(None) is None,
{
}

/// Reading bits as unsigned moves a negative number up by the range of 64 bits and leaves others,
/// and reading them as signed again undoes that.
pub proof fn law_reading_bits_back(m: i64, u: u64)
    ensures
        m >= 0 ==> as_unsigned(m) == m,
        m < 0 ==> as_unsigned(m) == m + 0x1_0000_0000_0000_0000,
        as_signed(as_unsigned(m) as u64) == m,
        as_unsigned(as_signed(u) as i64) == u,
{
}

/// The counter of a time is the number of its full microseconds. That of a time before zero
/// wraps around, and counts the full microseconds up to zero.
pub proof fn law_counter_counts_full_microseconds(time: Duration, micros: i64, default: int)
    ensures
        micros >= 0 && micros * 1000 <= time.nanos() < (micros + 1) * 1000 ==> counter_micros(
            time,
            default,
        ) == micros,
        micros < 0 && (micros - 1) * 1000 < time.nanos() <= micros * 1000 ==> counter_micros(
            time,
            default,
        ) == micros + 0x1_0000_0000_0000_0000,
{
    law_counting_drops_what_is_not_full(time.nanos());
    law_counting_drops_what_is_not_full(-time.nanos());
}

/// A time too far from zero to be counted has the counter that stands for such times.
pub proof fn law_time_too_far_has_the_default_counter(time: Duration, default: int)
    requires
        time.nanos() >= 0x8000_0000_0000_0000 * 1000 || time.nanos() <= -(0x8000_0000_0000_0001
            * 1000),
    ensures
        counter_micros(time, default) == default,
{
    law_counting_drops_what_is_not_full(time.nanos());
    law_counting_drops_what_is_not_full(-time.nanos());
}

/// A client state becomes a real-time state that was never changed, and comes back from it.
pub proof fn law_client_state_comes_back(client: ClientState, rt: RtClientState)
    ensures
        client_state(rt_state(client)) == client,
        rt_state(client).timeline_timestamp.nanos() == 0,
        rt_state(client).start_stop_state_timestamp.nanos() == 0,
        client_state(rt).timeline == rt.timeline,
        client_state(rt).start_stop_state == rt.start_stop_state,
{
    law_empty_span_has_no_length();
}

/// A new handler shows its initial state at every time, has nothing to process, and keeps the
/// grace period it was given.
pub proof fn law_new_handler_shows_its_initial_state(
    initial: ClientState,
    grace_period: Duration,
    micros: i64,
    time: Duration,
)
    requires
        micros >= 0,
        micros * 1000 <= grace_period.nanos() < (micros + 1) * 1000,
    ensures
        ({
            let view = initial_view(initial, grace_period);
            &&& view.captured(time) == initial
            &&& view.after_capture(time) == view
            &&& !view.pending
            &&& view.grace == micros
            &&& view.timeline_timestamp == 0
            &&& view.start_stop_timestamp == 0
        }),
{
    law_counting_drops_what_is_not_full(grace_period.nanos());
}

/// Replacing the grace period changes nothing else, and a captured state stays what it is.
pub proof fn law_grace_is_replaced_alone(view: RtView, grace_period: Duration, micros: i64)
    requires
        micros >= 0,
        micros * 1000 <= grace_period.nanos() < (micros + 1) * 1000,
    ensures
        view.with_grace(grace_period).grace == micros,
        view.with_grace(grace_period).cached == view.cached,
        view.with_grace(grace_period).latest == view.latest,
        view.with_grace(grace_period).unread == view.unread,
        view.with_grace(grace_period).pending == view.pending,
        view.with_grace(grace_period).timeline_timestamp == view.timeline_timestamp,
        view.with_grace(grace_period).start_stop_timestamp == view.start_stop_timestamp,
{
    law_counting_drops_what_is_not_full(grace_period.nanos());
}

/// A grace period too long to be counted is one of a second.
pub proof fn law_grace_too_long_is_one_second(initial: ClientState, grace_period: Duration)
    requires
        grace_period.nanos() >= 0x8000_0000_0000_0000 * 1000,
    ensures
        initial_view(initial, grace_period).grace == 1_000_000,
        initial_view(initial, grace_period).with_grace(grace_period).grace == 1_000_000,
{
}

/// A commit puts the parts that it names into the working state, with its time, hands the working
/// state over and leaves it to be processed. Parts that it does not name, and the grace period,
/// stay.
pub proof fn law_commit_changes_what_it_names(
    view: RtView,
    incoming: IncomingClientState,
    time: Duration,
    is_enabled: bool,
)
    requires
        incoming.timeline is Some || incoming.start_stop_state is Some,
    ensures
        ({
            let after = view.after_commit(incoming, time, is_enabled);
            &&& incoming.timeline is Some ==> after.cached.timeline == incoming.timeline->Some_0
                && after.cached.timeline_timestamp == time
            &&& incoming.timeline is None ==> after.cached.timeline == view.cached.timeline
                && after.cached.timeline_timestamp == view.cached.timeline_timestamp
                && after.timeline_timestamp == view.timeline_timestamp
            &&& incoming.start_stop_state is Some ==> after.cached.start_stop_state
                == incoming.start_stop_state->Some_0 && after.cached.start_stop_state_timestamp
                == time
            &&& incoming.start_stop_state is None ==> after.cached.start_stop_state
                == view.cached.start_stop_state && after.cached.start_stop_state_timestamp
                == view.cached.start_stop_state_timestamp && after.start_stop_timestamp
                == view.start_stop_timestamp
            &&& after.latest.timeline == after.cached.timeline
            &&& after.latest.start_stop_state == after.cached.start_stop_state
            &&& after.unread
            &&& after.pending
            &&& after.grace == view.grace
        }),
{
}

/// A commit that names nothing changes nothing.
pub proof fn law_empty_commit_changes_nothing(
    view: RtView,
    incoming: IncomingClientState,
    time: Duration,
    is_enabled: bool,
)
    requires
        incoming.timeline is None,
        incoming.start_stop_state is None,
    ensures
        view.after_commit(incoming, time, is_enabled) == view,
{
}

/// A commit to an enabled session stamps the parts that it names with its time in microseconds,
/// one to a disabled session with zero.
pub proof fn law_commit_stamps_what_it_names(
    view: RtView,
    incoming: IncomingClientState,
    time: Duration,
    micros: i64,
)
    requires
        micros >= 0,
        micros * 1000 <= time.nanos() < (micros + 1) * 1000,
    ensures
        incoming.timeline is Some ==> view.after_commit(incoming, time, true).timeline_timestamp
            == micros && view.after_commit(incoming, time, false).timeline_timestamp == 0,
        incoming.start_stop_state is Some ==> view.after_commit(
            incoming,
            time,
            true,
        ).start_stop_timestamp == micros && view.after_commit(
            incoming,
            time,
            false,
        ).start_stop_timestamp == 0,
{
    law_counting_drops_what_is_not_full(time.nanos());
}

/// While neither grace period is over a capture returns the working state and takes nothing: what
/// was handed over waits.
pub proof fn law_capture_within_the_grace_takes_nothing(view: RtView, time: Duration, micros: i64)
    requires
        micros >= 0,
        micros * 1000 <= time.nanos() < (micros + 1) * 1000,
        micros <= view.timeline_timestamp + view.grace,
        micros <= view.start_stop_timestamp + view.grace,
    ensures
        view.captured(time).timeline == view.cached.timeline,
        view.captured(time).start_stop_state == view.cached.start_stop_state,
        view.after_capture(time) == view,
{
    law_counting_drops_what_is_not_full(time.nanos());
}

/// Once one of the grace periods is over a capture returns and takes what was handed over, so
/// that it does not wait any longer. Into the working state go those parts of it whose grace
/// period is over; the stamps, the times of the last changes and the grace period stay.
pub proof fn law_capture_after_the_grace_takes_what_waits(
    view: RtView,
    time: Duration,
    micros: i64,
)
    requires
        micros >= 0,
        micros * 1000 <= time.nanos() < (micros + 1) * 1000,
        view.unread,
        micros > view.timeline_timestamp + view.grace || micros > view.start_stop_timestamp
            + view.grace,
    ensures
        ({
            let after = view.after_capture(time);
            &&& view.captured(time) == view.latest
            &&& !after.unread
            &&& !after.pending
            &&& after.latest == view.latest
            &&& micros > view.timeline_timestamp + view.grace ==> after.cached.timeline
                == view.latest.timeline || same_timeline(
                after.cached.timeline,
                view.latest.timeline,
            )
            &&& micros <= view.timeline_timestamp + view.grace ==> after.cached.timeline
                == view.cached.timeline
            &&& micros > view.start_stop_timestamp + view.grace ==> after.cached.start_stop_state
                == view.latest.start_stop_state
            &&& micros <= view.start_stop_timestamp + view.grace ==> after.cached.start_stop_state
                == view.cached.start_stop_state
            &&& after.cached.timeline_timestamp == view.cached.timeline_timestamp
            &&& after.cached.start_stop_state_timestamp == view.cached.start_stop_state_timestamp
            &&& after.timeline_timestamp == view.timeline_timestamp
            &&& after.start_stop_timestamp == view.start_stop_timestamp
            &&& after.grace == view.grace
        }),
{
    law_counting_drops_what_is_not_full(time.nanos());
    law_equal_timelines_agree_in_every_part(view.latest.timeline, view.cached.timeline);
}

/// Where nothing waits a capture returns the working state and changes nothing.
pub proof fn law_capture_without_news_changes_nothing(view: RtView, time: Duration)
    requires
        !view.unread,
    ensures
        view.captured(time).timeline == view.cached.timeline,
        view.captured(time).start_stop_state == view.cached.start_stop_state,
        view.after_capture(time) == view,
{
}

/// Processing returns both parts of what waits, with the stamp of the timeline as their time, and
/// takes it. Working state, stamps and grace period stay.
pub proof fn law_processing_returns_what_waits(
    view: RtView,
    processed: Option<IncomingClientState>,
)
    requires
        view.pending,
        view.is_processed(processed),
    ensures
        processed is Some,
        processed->Some_0.timeline == Some(view.latest.timeline),
        processed->Some_0.start_stop_state == Some(view.latest.start_stop_state),
        view.timeline_timestamp < 0x8000_0000_0000_0000
            ==> processed->Some_0.timeline_timestamp.nanos() == view.timeline_timestamp * 1000,
        !view.after_process().unread,
        !view.after_process().pending,
        view.after_process().cached == view.cached,
        view.after_process().latest == view.latest,
        view.after_process().timeline_timestamp == view.timeline_timestamp,
        view.after_process().start_stop_timestamp == view.start_stop_timestamp,
        view.after_process().grace == view.grace,
{
}

/// Processing where nothing waits returns nothing and changes nothing.
pub proof fn law_processing_nothing_changes_nothing(
    view: RtView,
    processed: Option<IncomingClientState>,
)
    requires
        !view.pending,
        view.is_processed(processed),
    ensures
        processed is None,
        view.after_process() == view,
{
}

/// What an enabled session committed is what processing returns, with the time of the commit: the
/// parts that were named, and the working state in the others.
pub proof fn law_processing_returns_what_was_committed(
    view: RtView,
    incoming: IncomingClientState,
    time: Duration,
    micros: i64,
    processed: Option<IncomingClientState>,
)
    requires
        micros >= 0,
        micros * 1000 <= time.nanos() < (micros + 1) * 1000,
        incoming.timeline is Some,
        view.after_commit(incoming, time, true).is_processed(processed),
    ensures
        processed is Some,
        processed->Some_0.timeline == incoming.timeline,
        processed->Some_0.timeline_timestamp.nanos() == micros * 1000,
        processed->Some_0.start_stop_state == Some(
            match incoming.start_stop_state {
                Some(start_stop_state) => start_stop_state,
                None => view.cached.start_stop_state,
            },
        ),
{
    law_counting_drops_what_is_not_full(time.nanos());
}

/// With every part at hand the non-waiting capture and commit are the plain ones.
pub proof fn law_all_parts_at_hand_is_having_the_handler_alone(
    view: RtView,
    last_known: ClientState,
    incoming: IncomingClientState,
    time: Duration,
    is_enabled: bool,
    locks: Locks,
)
    requires
        locks.input,
        locks.output,
        locks.cache_write,
        locks.cache_read,
    ensures
        captured_with(view, last_known, time, locks) == view.captured(time),
        after_capture_with(view, time, locks) == view.after_capture(time),
        after_commit_with(view, last_known, incoming, time, is_enabled, locks).0
            == view.after_commit(incoming, time, is_enabled),
{
}

/// Without the reading half of the buffer a capture takes nothing. It returns the working state,
/// or the last known one where that cannot be read.
pub proof fn law_capture_without_the_buffer(
    view: RtView,
    last_known: ClientState,
    time: Duration,
    locks: Locks,
)
    requires
        !locks.output,
    ensures
        locks.cache_read ==> captured_with(view, last_known, time, locks).timeline
            == view.cached.timeline && captured_with(
            view,
            last_known,
            time,
            locks,
        ).start_stop_state == view.cached.start_stop_state,
        !locks.cache_read ==> captured_with(view, last_known, time, locks) == last_known,
        after_capture_with(view, time, locks) == view,
{
}

/// Without writing access to the working state a capture may still take and return what waits,
/// but leaves the working state as it is.
pub proof fn law_capture_without_the_working_state(view: RtView, time: Duration, locks: Locks)
    requires
        !locks.cache_write,
    ensures
        after_capture_with(view, time, locks).cached == view.cached,
        locks.output ==> after_capture_with(view, time, locks).unread == view.after_capture(
            time,
        ).unread,
{
}

/// Processing takes what waits exactly where the caller has the reading half of the buffer; without
/// it nothing is returned and nothing is lost.
pub proof fn law_processing_needs_the_buffer(
    view: RtView,
    locks: Locks,
    processed: Option<IncomingClientState>,
    after: RtView,
)
    requires
        is_processed_with(view, locks, processed, after),
    ensures
        processed is Some <==> locks.output && view.pending,
        processed is Some ==> processed->Some_0.timeline == Some(view.latest.timeline)
            && processed->Some_0.start_stop_state == Some(view.latest.start_stop_state)
            && !after.pending && !after.unread && after.cached == view.cached,
        processed is None ==> after == view,
{
}

/// Without writing access to the working state a commit does nothing. With it, but without the
/// writing half of the buffer, it changes the working state and hands nothing over.
pub proof fn law_commit_without_a_part(
    view: RtView,
    last_known: ClientState,
    incoming: IncomingClientState,
    time: Duration,
    is_enabled: bool,
    locks: Locks,
)
    requires
        incoming.timeline is Some || incoming.start_stop_state is Some,
    ensures
        ({
            let after = after_commit_with(view, last_known, incoming, time, is_enabled, locks);
            let plain = view.after_commit(incoming, time, is_enabled);
            &&& !locks.cache_write ==> after == (view, last_known)
            &&& locks.cache_write ==> after.0.cached == plain.cached
                && after.0.timeline_timestamp == plain.timeline_timestamp
                && after.0.start_stop_timestamp == plain.start_stop_timestamp
                && after.1.timeline == plain.cached.timeline && after.1.start_stop_state
                == plain.cached.start_stop_state
            &&& locks.cache_write && !locks.input ==> after.0.latest == view.latest
                && after.0.unread == view.unread && after.0.pending == view.pending
            &&& locks.cache_write && locks.input ==> after.0 == plain
        }),
{
}

} // verus!
