//! What holds of the choice of a session, of the timelines of sessions and of the peers that they
//! are measured by.

use vstd::prelude::*;

use crate::discovery::peers::{knows, ControllerPeer};
use crate::link::duration::{law_empty_span_has_no_length, Duration};
use crate::link::ghostxform::GhostXForm;
use crate::link::measurement::MeasurePeerEvent;
use crate::link::node::NodeId;
use crate::link::sessions::{
    adopted, after_failure, after_measurement_at, after_timeline, first_place, is_first_session,
    is_first_stranger, is_handled, is_lead, is_least, is_measured, is_sorted_copy,
    lemma_first_place, lists, lists_only, measurement_request, member_places, members,
    removed_in_turn, takes_over, with_id, with_reset_timeline, MeasurementOutcome, Session,
    SessionId, SessionMeasurement, Sessions,
};
use crate::link::timeline::Timeline;
use crate::seq_facts::{lemma_filter_members, lemma_filter_twice, lemma_filters_agree};

verus! {

/// A session whose time is ahead by more than half a second takes over, whatever the identifiers,
/// the company and the time since the start are.
pub proof fn law_session_far_ahead_takes_over(
    session: SessionId,
    current: SessionId,
    lead_nanos: int,
    is_alone: bool,
    timestamp_nanos: int,
)
    requires
        lead_nanos > 500_000_000,
    ensures
        takes_over(session, current, lead_nanos, is_alone, timestamp_nanos),
{
}

/// Between sessions whose times are less than half a second apart the smaller identifier decides.
/// Only a peer that started less than five seconds ago and is alone gives way in any case.
pub proof fn law_identifier_decides_between_close_sessions(
    session: SessionId,
    current: SessionId,
    lead_nanos: int,
    is_alone: bool,
    timestamp_nanos: int,
)
    requires
        -500_000_000 < lead_nanos < 500_000_000,
    ensures
        session.0.0 < current.0.0 ==> takes_over(
            session,
            current,
            lead_nanos,
            is_alone,
            timestamp_nanos,
        ),
        session.0.0 >= current.0.0 && !is_alone ==> !takes_over(
            session,
            current,
            lead_nanos,
            is_alone,
            timestamp_nanos,
        ),
        session.0.0 >= current.0.0 && timestamp_nanos >= 5_000_000_000 ==> !takes_over(
            session,
            current,
            lead_nanos,
            is_alone,
            timestamp_nanos,
        ),
{
}

/// A peer that is alone joins whatever session it measures in its first five seconds.
pub proof fn law_lonely_newcomer_joins_any_session(
    session: SessionId,
    current: SessionId,
    lead_nanos: int,
    timestamp_nanos: int,
)
    requires
        timestamp_nanos < 5_000_000_000,
    ensures
        takes_over(session, current, lead_nanos, true, timestamp_nanos),
{
}

/// A session whose time is behind by half a second or more, or ahead by half a second and no
/// more, does not take over from a peer that has company or started five seconds ago or earlier.
pub proof fn law_session_behind_does_not_take_over(
    session: SessionId,
    current: SessionId,
    lead_nanos: int,
    is_alone: bool,
    timestamp_nanos: int,
)
    requires
        lead_nanos <= -500_000_000 || lead_nanos == 500_000_000,
        !is_alone || timestamp_nanos >= 5_000_000_000,
    ensures
        !takes_over(session, current, lead_nanos, is_alone, timestamp_nanos),
{
}

/// Times that lie less apart than a count of microseconds can tell can be compared.
pub proof fn law_countable_leads_can_be_compared(lead_nanos: int)
    requires
        -0x7FFF_FFFF_FFFF_FFFF * 1_000 <= lead_nanos <= 0x7FFF_FFFF_FFFF_FFFF * 1_000_000,
    ensures
        is_lead(lead_nanos),
{
}

/// Whether no peer on the list is in the session is told by looking at each.
proof fn lemma_no_members(peers: Seq<ControllerPeer>, session_id: SessionId)
    ensures
        members(peers, session_id).len() == 0 <==> forall|i: int|
            0 <= i < peers.len() ==> (#[trigger] peers[i]).peer_state.node_state.session_id
                != session_id,
{
    let keep = |p: ControllerPeer| p.session() == session_id;
    lemma_filter_members(peers, keep);
    if members(peers, session_id).len() > 0 {
        let p = members(peers, session_id)[0];
        assert(keep(p) && peers.contains(p));
        let i = choose|i: int| 0 <= i < peers.len() && peers[i] == p;
        assert(peers[i].peer_state.node_state.session_id == session_id);
    }
    if exists|i: int|
        0 <= i < peers.len() && (#[trigger] peers[i]).peer_state.node_state.session_id
            == session_id {
        let i = choose|i: int|
            0 <= i < peers.len() && (#[trigger] peers[i]).peer_state.node_state.session_id
                == session_id;
        assert(keep(peers[i]));
        assert(members(peers, session_id).contains(peers[i]));
    }
}

/// A measured session that is more than half a second ahead becomes the current one, with its own
/// identifier and timeline and the new measurement. The current one takes its place on the list,
/// as it was, and the other places keep what they had.
pub proof fn law_session_far_ahead_is_joined(
    others: Seq<Session>,
    current: Session,
    place: int,
    measurement: SessionMeasurement,
    lead_nanos: int,
    peers: Seq<ControllerPeer>,
)
    requires
        0 <= place < others.len(),
        lead_nanos > 500_000_000,
    ensures
        ({
            let (others_after, current_after, joined) = after_measurement_at(
                others,
                current,
                place,
                measurement,
                lead_nanos,
                peers,
            );
            &&& current_after.session_id == others[place].session_id
            &&& current_after.timeline == others[place].timeline
            &&& current_after.measurement == measurement
            &&& joined == Some(current_after)
            &&& others_after == others.update(place, current)
        }),
{
}

/// A measured session is joined in three cases and no other: it is more than half a second ahead;
/// it is less than half a second apart and has the smaller identifier; or the current session has
/// no peers and the measurement came in before five seconds.
pub proof fn law_session_is_joined_in_three_cases(
    others: Seq<Session>,
    current: Session,
    place: int,
    measurement: SessionMeasurement,
    lead_nanos: int,
    peers: Seq<ControllerPeer>,
)
    requires
        0 <= place < others.len(),
    ensures
        after_measurement_at(
            others,
            current,
            place,
            measurement,
            lead_nanos,
            peers,
        ).2 is Some <==> {
            ||| lead_nanos > 500_000_000
            ||| (-500_000_000 < lead_nanos < 500_000_000 && others[place].session_id.0.0
                < current.session_id.0.0)
            ||| (measurement.timestamp.nanos() < 5_000_000_000 && forall|i: int|
                0 <= i < peers.len() ==> (#[trigger] peers[i]).peer_state.node_state.session_id
                    != current.session_id)
        },
{
    lemma_no_members(peers, current.session_id);
}

/// A measured session that is half a second behind or more does not become the current one where
/// that has peers, or where this peer has run for five seconds. Its measurement is kept, and
/// nothing else changes.
pub proof fn law_session_behind_is_not_joined(
    others: Seq<Session>,
    current: Session,
    place: int,
    measurement: SessionMeasurement,
    lead_nanos: int,
    peers: Seq<ControllerPeer>,
)
    requires
        0 <= place < others.len(),
        lead_nanos <= -500_000_000,
        measurement.timestamp.nanos() >= 5_000_000_000 || exists|i: int|
            0 <= i < peers.len() && (#[trigger] peers[i]).peer_state.node_state.session_id
                == current.session_id,
    ensures
        ({
            let (others_after, current_after, joined) = after_measurement_at(
                others,
                current,
                place,
                measurement,
                lead_nanos,
                peers,
            );
            &&& current_after == current
            &&& joined is None
            &&& others_after.len() == others.len()
            &&& others_after[place].session_id == others[place].session_id
            &&& others_after[place].timeline == others[place].timeline
            &&& others_after[place].measurement == measurement
            &&& forall|i: int|
                0 <= i < others.len() && i != place ==> #[trigger] others_after[i] == others[i]
        }),
{
    lemma_no_members(peers, current.session_id);
}

/// In its first five seconds a peer whose session has no peers joins the session that it
/// measured, however far behind that is.
pub proof fn law_lonely_newcomer_is_joined(
    others: Seq<Session>,
    current: Session,
    place: int,
    measurement: SessionMeasurement,
    lead_nanos: int,
    peers: Seq<ControllerPeer>,
)
    requires
        0 <= place < others.len(),
        measurement.timestamp.nanos() < 5_000_000_000,
        forall|i: int|
            0 <= i < peers.len() ==> (#[trigger] peers[i]).peer_state.node_state.session_id
                != current.session_id,
    ensures
        ({
            let after = after_measurement_at(
                others,
                current,
                place,
                measurement,
                lead_nanos,
                peers,
            );
            after.1.session_id == others[place].session_id && after.2 == Some(after.1)
        }),
{
    lemma_no_members(peers, current.session_id);
}

/// Of two sessions that are close, the one with the smaller identifier is current after the other
/// was measured from it and it was measured from the other, where the current ones have peers.
pub proof fn law_close_sessions_settle_on_the_smaller_identifier(
    others: Seq<Session>,
    current: Session,
    place: int,
    measurement: SessionMeasurement,
    lead_nanos: int,
    peers: Seq<ControllerPeer>,
)
    requires
        0 <= place < others.len(),
        -500_000_000 < lead_nanos < 500_000_000,
        exists|i: int|
            0 <= i < peers.len() && (#[trigger] peers[i]).peer_state.node_state.session_id
                == current.session_id,
    ensures
        ({
            let after = after_measurement_at(
                others,
                current,
                place,
                measurement,
                lead_nanos,
                peers,
            );
            &&& after.1.session_id.0.0 <= current.session_id.0.0
            &&& after.1.session_id.0.0 <= others[place].session_id.0.0
            &&& after.2 is Some <==> others[place].session_id.0.0 < current.session_id.0.0
        }),
{
    lemma_no_members(peers, current.session_id);
}

/// A measurement of the current session is stored with it and has it joined. Nothing else
/// changes, and it is not measured again on that account.
pub proof fn law_measured_current_session_is_joined<F: Fn(GhostXForm, Duration) -> Duration>(
    session_id: SessionId,
    measurement: SessionMeasurement,
    host_time: Duration,
    host_to_ghost: F,
    peers: Seq<ControllerPeer>,
    before: (Seq<Session>, Session),
    after: (Seq<Session>, Session),
    outcome: MeasurementOutcome,
)
    requires
        before.1.session_id == session_id,
        is_measured(
            session_id,
            measurement,
            host_time,
            host_to_ghost,
            peers,
            before,
            after,
            outcome,
        ),
    ensures
        after.0 == before.0,
        after.1.session_id == session_id,
        after.1.timeline == before.1.timeline,
        after.1.measurement == measurement,
        outcome.joined == Some(after.1),
        outcome.remeasure is None,
{
}

/// A measurement of a session that was not seen changes nothing.
pub proof fn law_measured_unknown_session_is_ignored<F: Fn(GhostXForm, Duration) -> Duration>(
    session_id: SessionId,
    measurement: SessionMeasurement,
    host_time: Duration,
    host_to_ghost: F,
    peers: Seq<ControllerPeer>,
    before: (Seq<Session>, Session),
    after: (Seq<Session>, Session),
    outcome: MeasurementOutcome,
)
    requires
        before.1.session_id != session_id,
        forall|i: int|
            0 <= i < before.0.len() ==> (#[trigger] before.0[i]).session_id != session_id,
        is_measured(
            session_id,
            measurement,
            host_time,
            host_to_ghost,
            peers,
            before,
            after,
            outcome,
        ),
    ensures
        after == before,
        outcome.joined is None,
        outcome.remeasure is None,
{
}

/// Of a session that was seen, the first entry is measured. The session is joined, and measured
/// again from then on, where its ghost time at that moment is more than half a second ahead of
/// that of the current session.
pub proof fn law_measured_session_ahead_is_joined<F: Fn(GhostXForm, Duration) -> Duration>(
    session_id: SessionId,
    measurement: SessionMeasurement,
    host_time: Duration,
    host_to_ghost: F,
    peers: Seq<ControllerPeer>,
    before: (Seq<Session>, Session),
    after: (Seq<Session>, Session),
    outcome: MeasurementOutcome,
    place: int,
)
    requires
        before.1.session_id != session_id,
        0 <= place < before.0.len(),
        before.0[place].session_id == session_id,
        forall|i: int| 0 <= i < place ==> (#[trigger] before.0[i]).session_id != session_id,
        forall|cur: Duration, new: Duration|
            #[trigger] host_to_ghost.ensures((before.1.measurement.x_form, host_time), cur)
                && #[trigger] host_to_ghost.ensures((measurement.x_form, host_time), new)
                ==> new.nanos() > cur.nanos() + 500_000_000,
        is_measured(
            session_id,
            measurement,
            host_time,
            host_to_ghost,
            peers,
            before,
            after,
            outcome,
        ),
    ensures
        after.1.session_id == session_id,
        after.1.timeline == before.0[place].timeline,
        after.1.measurement == measurement,
        after.0 == before.0.update(place, before.1),
        outcome.joined == Some(after.1),
        outcome.remeasure == Some(after.1),
{
    assert(lists(before.0, session_id));
    assert(is_first_session(before.0, session_id, place));
    lemma_first_place(before.0, session_id);
}

/// A session that is half a second behind or more is not joined by a peer that has run for five
/// seconds: its first entry gets the measurement, and nothing else changes.
pub proof fn law_measured_session_behind_is_kept<F: Fn(GhostXForm, Duration) -> Duration>(
    session_id: SessionId,
    measurement: SessionMeasurement,
    host_time: Duration,
    host_to_ghost: F,
    peers: Seq<ControllerPeer>,
    before: (Seq<Session>, Session),
    after: (Seq<Session>, Session),
    outcome: MeasurementOutcome,
    place: int,
)
    requires
        before.1.session_id != session_id,
        0 <= place < before.0.len(),
        before.0[place].session_id == session_id,
        forall|i: int| 0 <= i < place ==> (#[trigger] before.0[i]).session_id != session_id,
        measurement.timestamp.nanos() >= 5_000_000_000,
        forall|cur: Duration, new: Duration|
            #[trigger] host_to_ghost.ensures((before.1.measurement.x_form, host_time), cur)
                && #[trigger] host_to_ghost.ensures((measurement.x_form, host_time), new)
                ==> new.nanos() <= cur.nanos() - 500_000_000,
        is_measured(
            session_id,
            measurement,
            host_time,
            host_to_ghost,
            peers,
            before,
            after,
            outcome,
        ),
    ensures
        after.1 == before.1,
        after.0.len() == before.0.len(),
        after.0[place].session_id == session_id,
        after.0[place].timeline == before.0[place].timeline,
        after.0[place].measurement == measurement,
        forall|i: int|
            0 <= i < before.0.len() && i != place ==> #[trigger] after.0[i] == before.0[i],
        outcome.joined is None,
        outcome.remeasure is None,
{
    assert(lists(before.0, session_id));
    assert(is_first_session(before.0, session_id, place));
    lemma_first_place(before.0, session_id);
}

/// Of a session that was seen, the first entry is measured, and the times at which it is compared
/// are the ghost times of the current session and of the measured one, the latter by the new
/// transform. What is joined is measured again, and nothing else is.
pub proof fn law_sessions_are_compared_by_ghost_time<F: Fn(GhostXForm, Duration) -> Duration>(
    session_id: SessionId,
    measurement: SessionMeasurement,
    host_time: Duration,
    host_to_ghost: F,
    peers: Seq<ControllerPeer>,
    before: (Seq<Session>, Session),
    after: (Seq<Session>, Session),
    outcome: MeasurementOutcome,
    place: int,
    cur_ghost: Duration,
    new_ghost: Duration,
)
    requires
        before.1.session_id != session_id,
        0 <= place < before.0.len(),
        before.0[place].session_id == session_id,
        forall|i: int| 0 <= i < place ==> (#[trigger] before.0[i]).session_id != session_id,
        forall|t: Duration| #[trigger]
            host_to_ghost.ensures((before.1.measurement.x_form, host_time), t) ==> t == cur_ghost,
        forall|t: Duration| #[trigger]
            host_to_ghost.ensures((measurement.x_form, host_time), t) ==> t == new_ghost,
        is_measured(
            session_id,
            measurement,
            host_time,
            host_to_ghost,
            peers,
            before,
            after,
            outcome,
        ),
    ensures
        (after.0, after.1, outcome.joined) == after_measurement_at(
            before.0,
            before.1,
            place,
            measurement,
            new_ghost.nanos() - cur_ghost.nanos(),
            peers,
        ),
        outcome.remeasure == outcome.joined,
{
    assert(lists(before.0, session_id));
    assert(is_first_session(before.0, session_id, place));
    lemma_first_place(before.0, session_id);
}

/// A result is compared exactly where it is of another session that was seen, and a failure of the
/// current session, or where no other session was seen, can always be handled.
pub proof fn law_results_of_other_sessions_are_compared(
    sessions: Sessions,
    id: SessionId,
    peers: Seq<ControllerPeer>,
)
    ensures
        sessions.compares(id) <==> sessions.current.session_id != id && exists|i: int|
            0 <= i < sessions.other_sessions@.len() && (
            #[trigger] sessions.other_sessions@[i]).session_id == id,
        sessions.current.session_id == id ==> sessions.can_fail(id, peers),
        (forall|i: int|
            0 <= i < sessions.other_sessions@.len() ==> (
            #[trigger] sessions.other_sessions@[i]).session_id == id) ==> sessions.can_fail(
            id,
            peers,
        ),
        (forall|i: int|
            0 <= i < peers.len() ==> (#[trigger] peers[i]).peer_state.node_state.session_id != id)
            ==> sessions.can_fail(id, peers),
{
    if forall|i: int|
        0 <= i < peers.len() ==> (#[trigger] peers[i]).peer_state.node_state.session_id != id {
        law_places_are_those_of_the_peers(peers, id, peers.len());
        let places = member_places(peers, id, peers.len());
        if places.len() > 0 {
            assert(peers[places[0]].peer_state.node_state.session_id == id);
        }
    }
}

/// A request for a measurement is no result: it changes nothing.
pub proof fn law_request_is_no_result<F: Fn(GhostXForm, Duration) -> Duration>(
    event: MeasurePeerEvent,
    timestamp: Duration,
    host_time: Duration,
    host_to_ghost: F,
    before: (Seq<Session>, Session, Seq<ControllerPeer>),
    after: (Seq<Session>, Session, Seq<ControllerPeer>),
    outcome: MeasurementOutcome,
)
    requires
        event is PeerState,
        is_handled(event, timestamp, host_time, host_to_ghost, before, after, outcome),
    ensures
        after == before,
        outcome.joined is None,
        outcome.remeasure is None,
{
}

/// A transform of slope zero and no intercept tells of a failure. Where the current session could
/// not be measured it stays and is measured again; where another one could not, the current one
/// stays and none is measured again.
pub proof fn law_failure_never_joins<F: Fn(GhostXForm, Duration) -> Duration>(
    session_id: SessionId,
    x_form: GhostXForm,
    timestamp: Duration,
    host_time: Duration,
    host_to_ghost: F,
    before: (Seq<Session>, Session, Seq<ControllerPeer>),
    after: (Seq<Session>, Session, Seq<ControllerPeer>),
    outcome: MeasurementOutcome,
)
    requires
        x_form.slope_bits == 0 || x_form.slope_bits == 0x8000_0000_0000_0000,
        x_form.intercept == Duration::empty(),
        is_handled(
            MeasurePeerEvent::XForm(session_id, x_form),
            timestamp,
            host_time,
            host_to_ghost,
            before,
            after,
            outcome,
        ),
    ensures
        after.1 == before.1,
        outcome.joined is None,
        before.1.session_id == session_id ==> after == before && outcome.remeasure == Some(
            before.1,
        ),
        before.1.session_id != session_id ==> outcome.remeasure is None,
{
}

/// A transform with a slope other than zero or with an intercept is a success: it is stored with
/// the session that it was measured for, at the time it came in, and leaves the peers alone.
pub proof fn law_success_is_stored<F: Fn(GhostXForm, Duration) -> Duration>(
    session_id: SessionId,
    x_form: GhostXForm,
    timestamp: Duration,
    host_time: Duration,
    host_to_ghost: F,
    before: (Seq<Session>, Session, Seq<ControllerPeer>),
    after: (Seq<Session>, Session, Seq<ControllerPeer>),
    outcome: MeasurementOutcome,
)
    requires
        (x_form.slope_bits != 0 && x_form.slope_bits != 0x8000_0000_0000_0000) || x_form.intercept
            != Duration::empty(),
        before.1.session_id == session_id || exists|i: int|
            0 <= i < before.0.len() && (#[trigger] before.0[i]).session_id == session_id,
        is_handled(
            MeasurePeerEvent::XForm(session_id, x_form),
            timestamp,
            host_time,
            host_to_ghost,
            before,
            after,
            outcome,
        ),
    ensures
        after.2 == before.2,
        (after.1.session_id == session_id && after.1.measurement.x_form == x_form
            && after.1.measurement.timestamp == timestamp) || exists|i: int|
            0 <= i < after.0.len() && (#[trigger] after.0[i]).session_id == session_id
                && after.0[i].measurement.x_form == x_form && after.0[i].measurement.timestamp
                == timestamp,
{
    if before.1.session_id != session_id {
        assert(lists(before.0, session_id));
        lemma_first_place(before.0, session_id);
        let place = first_place(before.0, session_id);
        if outcome.joined is None {
            assert(after.0[place].session_id == session_id);
        }
    }
}

/// A timeline that starts at a later beat is adopted as a whole: tempo, beat origin and time
/// origin. Identifier and measurement of the session stay.
pub proof fn law_later_timeline_is_adopted_as_a_whole(session: Session, timeline: Timeline)
    requires
        timeline.beat_origin.micro_beats > session.timeline.beat_origin.micro_beats,
    ensures
        adopted(session, timeline).timeline == timeline,
        adopted(session, timeline).session_id == session.session_id,
        adopted(session, timeline).measurement == session.measurement,
{
}

/// A timeline that does not start at a later beat leaves the session as it is.
pub proof fn law_other_timeline_is_rejected(session: Session, timeline: Timeline)
    requires
        timeline.beat_origin.micro_beats <= session.timeline.beat_origin.micro_beats,
    ensures
        adopted(session, timeline) == session,
{
}

/// Seeing a timeline of the current session joins it and asks for no measurement. The session
/// ends with the one of the two timelines that starts at the later beat, with its own where they
/// start at the same. The other sessions stay.
pub proof fn law_timeline_of_the_current_session(
    others: Seq<Session>,
    current: Session,
    has_joined: bool,
    timeline: Timeline,
    peers: Seq<ControllerPeer>,
)
    ensures
        ({
            let (others_after, current_after, joined, request) = after_timeline(
                others,
                current,
                has_joined,
                current.session_id,
                timeline,
                peers,
            );
            &&& others_after == others
            &&& joined
            &&& request is None
            &&& current_after.session_id == current.session_id
            &&& current_after.measurement == current.measurement
            &&& timeline.beat_origin.micro_beats > current.timeline.beat_origin.micro_beats
                ==> current_after.timeline == timeline
            &&& timeline.beat_origin.micro_beats <= current.timeline.beat_origin.micro_beats
                ==> current_after.timeline == current.timeline
        }),
{
}

/// Seeing a timeline of another session that was seen before touches its first entry alone, in
/// its timeline alone, and asks for no measurement.
pub proof fn law_timeline_of_a_known_session(
    others: Seq<Session>,
    current: Session,
    has_joined: bool,
    session_id: SessionId,
    timeline: Timeline,
    peers: Seq<ControllerPeer>,
    place: int,
)
    requires
        current.session_id != session_id,
        0 <= place < others.len(),
        others[place].session_id == session_id,
        forall|i: int| 0 <= i < place ==> (#[trigger] others[i]).session_id != session_id,
    ensures
        ({
            let (others_after, current_after, joined, request) = after_timeline(
                others,
                current,
                has_joined,
                session_id,
                timeline,
                peers,
            );
            &&& current_after == current
            &&& joined == has_joined
            &&& request is None
            &&& others_after.len() == others.len()
            &&& forall|i: int|
                0 <= i < others.len() && i != place ==> #[trigger] others_after[i] == others[i]
            &&& others_after[place].session_id == session_id
            &&& others_after[place].measurement == others[place].measurement
            &&& timeline.beat_origin.micro_beats > others[place].timeline.beat_origin.micro_beats
                ==> others_after[place].timeline == timeline
            &&& timeline.beat_origin.micro_beats <= others[place].timeline.beat_origin.micro_beats
                ==> others_after[place].timeline == others[place].timeline
        }),
{
    assert(lists(others, session_id));
    assert(is_first_session(others, session_id, place));
    lemma_first_place(others, session_id);
}

/// Seeing a timeline of a session that was not seen before adds the session at the end, with that
/// timeline and no measurement, and asks for a measurement exactly where it has a peer.
pub proof fn law_timeline_of_a_new_session(
    others: Seq<Session>,
    current: Session,
    has_joined: bool,
    session_id: SessionId,
    timeline: Timeline,
    peers: Seq<ControllerPeer>,
)
    requires
        current.session_id != session_id,
        forall|i: int| 0 <= i < others.len() ==> (#[trigger] others[i]).session_id != session_id,
    ensures
        ({
            let (others_after, current_after, joined, request) = after_timeline(
                others,
                current,
                has_joined,
                session_id,
                timeline,
                peers,
            );
            let added = others_after[others.len() as int];
            &&& current_after == current
            &&& joined == has_joined
            &&& others_after.len() == others.len() + 1
            &&& forall|i: int| 0 <= i < others.len() ==> #[trigger] others_after[i] == others[i]
            &&& added.session_id == session_id
            &&& added.timeline == timeline
            &&& added.measurement.x_form.slope_bits == 0
            &&& added.measurement.x_form.intercept.nanos() == 0
            &&& added.measurement.timestamp.nanos() == 0
            &&& request is Some <==> exists|i: int|
                0 <= i < peers.len() && (#[trigger] peers[i]).peer_state.node_state.session_id
                    == session_id
        }),
{
    law_empty_span_has_no_length();
    lemma_no_members(peers, session_id);
}

/// Resetting the timeline touches the first entry with the identifier of the current session
/// alone, and in its timeline alone.
pub proof fn law_reset_touches_one_entry(
    others: Seq<Session>,
    id: SessionId,
    timeline: Timeline,
    place: int,
)
    requires
        0 <= place < others.len(),
        others[place].session_id == id,
        forall|i: int| 0 <= i < place ==> (#[trigger] others[i]).session_id != id,
    ensures
        ({
            let after = with_reset_timeline(others, id, timeline);
            &&& after.len() == others.len()
            &&& after[place].session_id == id
            &&& after[place].timeline == timeline
            &&& after[place].measurement == others[place].measurement
            &&& forall|i: int|
                0 <= i < others.len() && i != place ==> #[trigger] after[i] == others[i]
        }),
{
    assert(lists(others, id));
    assert(is_first_session(others, id, place));
    lemma_first_place(others, id);
}

/// Resetting the timeline of a session that is not on the list changes nothing.
pub proof fn law_reset_of_an_absent_session(others: Seq<Session>, id: SessionId, timeline: Timeline)
    requires
        forall|i: int| 0 <= i < others.len() ==> (#[trigger] others[i]).session_id != id,
    ensures
        with_reset_timeline(others, id, timeline) == others,
{
}

/// A session without peers is not measured, and one with peers is measured by one of them: by its
/// founder if that is one, otherwise by one whose identifier is not greater than that of any. Of
/// entries with that identifier the first counts.
pub proof fn law_session_is_measured_by_founder_or_least(
    peers: Seq<ControllerPeer>,
    session_id: SessionId,
)
    ensures
        measurement_request(peers, session_id) is Some <==> exists|i: int|
            0 <= i < peers.len() && (#[trigger] peers[i]).peer_state.node_state.session_id
                == session_id,
        measurement_request(peers, session_id) matches Some(request) ==> {
            &&& request is PeerState
            &&& request->PeerState_0 == session_id
            &&& exists|k: int|
                {
                    &&& 0 <= k < peers.len()
                    &&& (#[trigger] peers[k]).peer_state == request->PeerState_1
                    &&& peers[k].peer_state.node_state.session_id == session_id
                    &&& forall|j: int|
                        0 <= j < k && (#[trigger] peers[j]).peer_state.node_state.session_id
                            == session_id ==> peers[j].peer_state.node_state.node_id
                            != request->PeerState_1.node_state.node_id
                }
            &&& (exists|i: int|
                0 <= i < peers.len() && (#[trigger] peers[i]).peer_state.node_state.session_id
                    == session_id && peers[i].peer_state.node_state.node_id == session_id.0)
                ==> request->PeerState_1.node_state.node_id == session_id.0
            &&& request->PeerState_1.node_state.node_id != session_id.0 ==> forall|i: int|
                0 <= i < peers.len() && (#[trigger] peers[i]).peer_state.node_state.session_id
                    == session_id ==> request->PeerState_1.node_state.node_id.0
                    <= peers[i].peer_state.node_state.node_id.0
        },
{
    lemma_no_members(peers, session_id);
    let candidates = members(peers, session_id);
    let in_session = |p: ControllerPeer| p.session() == session_id;
    lemma_filter_members(peers, in_session);
    if candidates.len() > 0 {
        let founder = session_id.0;
        let id = if knows(candidates, founder) {
            founder
        } else {
            lemma_least_exists(candidates);
            choose|id: NodeId| is_least(candidates, id)
        };
        assert(knows(candidates, id));
        let c = choose|c: int| 0 <= c < candidates.len() && (#[trigger] candidates[c]).id() == id;
        let has_id = |p: ControllerPeer| p.id() == id;
        let both = |p: ControllerPeer| in_session(p) && has_id(p);
        lemma_filter_members(candidates, has_id);
        assert(has_id(candidates[c]));
        assert(with_id(candidates, id).contains(candidates[c]));
        let chosen = with_id(candidates, id)[0];
        assert(has_id(chosen) && candidates.contains(chosen));
        assert(in_session(candidates[c]));
        let d = choose|d: int| 0 <= d < candidates.len() && candidates[d] == chosen;
        assert(in_session(candidates[d]));
        lemma_filter_twice(peers, in_session, has_id);
        assert(peers.filter(both)[0] == chosen);
        lemma_first_of_filter(peers, both);
        let k = choose|k: int|
            0 <= k < peers.len() && #[trigger] peers[k] == chosen && forall|j: int|
                0 <= j < k ==> !both(#[trigger] peers[j]);
        assert(peers[k].peer_state == chosen.peer_state);
        assert forall|j: int|
            0 <= j < k && (#[trigger] peers[j]).peer_state.node_state.session_id
                == session_id implies peers[j].peer_state.node_state.node_id
            != chosen.peer_state.node_state.node_id by {
            assert(!both(peers[j]));
        }
        if exists|i: int|
            0 <= i < peers.len() && (#[trigger] peers[i]).peer_state.node_state.session_id
                == session_id && peers[i].peer_state.node_state.node_id == founder {
            let i = choose|i: int|
                0 <= i < peers.len() && (#[trigger] peers[i]).peer_state.node_state.session_id
                    == session_id && peers[i].peer_state.node_state.node_id == founder;
            assert(in_session(peers[i]));
            assert(candidates.contains(peers[i]));
            let m = choose|m: int| 0 <= m < candidates.len() && candidates[m] == peers[i];
            assert(candidates[m].id() == founder);
        }
        assert forall|i: int|
            0 <= i < peers.len() && (#[trigger] peers[i]).peer_state.node_state.session_id
                == session_id && id != founder implies id.0
            <= peers[i].peer_state.node_state.node_id.0 by {
            assert(in_session(peers[i]));
            assert(candidates.contains(peers[i]));
            let m = choose|m: int| 0 <= m < candidates.len() && candidates[m] == peers[i];
            assert(id.0 <= candidates[m].id().0);
        }
    }
}

/// What a filter keeps first stands behind nothing else that it keeps.
proof fn lemma_first_of_filter(peers: Seq<ControllerPeer>, keep: spec_fn(ControllerPeer) -> bool)
    requires
        peers.filter(keep).len() > 0,
    ensures
        exists|k: int|
            0 <= k < peers.len() && #[trigger] peers[k] == peers.filter(keep)[0] && forall|j: int|
                0 <= j < k ==> !keep(#[trigger] peers[j]),
    decreases peers.len(),
{
    reveal(Seq::filter);
    let front = peers.drop_last();
    if front.filter(keep).len() > 0 {
        lemma_first_of_filter(front, keep);
        let k = choose|k: int|
            0 <= k < front.len() && #[trigger] front[k] == front.filter(keep)[0] && forall|j: int|
                0 <= j < k ==> !keep(#[trigger] front[j]);
        assert(peers[k] == front[k]);
        assert(peers.filter(keep)[0] == front.filter(keep)[0]);
        assert forall|j: int| 0 <= j < k implies !keep(#[trigger] peers[j]) by {
            assert(front[j] == peers[j]);
        }
    } else {
        let k = peers.len() - 1;
        lemma_filter_members(front, keep);
        assert(peers[k] == peers.filter(keep)[0]);
        assert forall|j: int| 0 <= j < k implies !keep(#[trigger] peers[j]) by {
            assert(front[j] == peers[j]);
            if keep(front[j]) {
                assert(front.filter(keep).contains(front[j]));
            }
        }
    }
}

/// On a list of peers one has the least identifier.
proof fn lemma_least_exists(peers: Seq<ControllerPeer>)
    requires
        peers.len() > 0,
    ensures
        exists|id: NodeId| is_least(peers, id),
    decreases peers.len(),
{
    let last = peers[peers.len() - 1].id();
    if peers.len() == 1 {
        assert(is_least(peers, last));
    } else {
        let front = peers.drop_last();
        lemma_least_exists(front);
        let least = choose|id: NodeId| is_least(front, id);
        assert(knows(front, least));
        let k = choose|k: int| 0 <= k < front.len() && (#[trigger] front[k]).id() == least;
        assert(peers[k].id() == least);
        let id = if last.0 < least.0 {
            last
        } else {
            least
        };
        assert forall|i: int| 0 <= i < peers.len() implies id.0 <= (#[trigger] peers[i]).id().0 by {
            if i < front.len() {
                assert(front[i] == peers[i]);
            }
        }
        assert(is_least(peers, id));
    }
}

/// The sorted peers of a session ascend by identifier, are peers of the session, and leave none
/// out. Those with one identifier stand in the order of the list.
pub proof fn law_sorted_peers_of_a_session(
    sorted: Seq<ControllerPeer>,
    peers: Seq<ControllerPeer>,
    session_id: SessionId,
)
    requires
        is_sorted_copy(sorted, members(peers, session_id)),
    ensures
        forall|i: int, j: int|
            0 <= i < j < sorted.len() ==> (#[trigger] sorted[i]).peer_state.node_state.node_id.0
                <= (#[trigger] sorted[j]).peer_state.node_state.node_id.0,
        forall|id: NodeId|
            #![trigger with_id(sorted, id)]
            with_id(sorted, id) == peers.filter(
                |p: ControllerPeer|
                    p.peer_state.node_state.session_id == session_id
                        && p.peer_state.node_state.node_id == id,
            ),
        forall|i: int|
            0 <= i < sorted.len() ==> peers.contains(#[trigger] sorted[i])
                && sorted[i].peer_state.node_state.session_id == session_id,
        forall|i: int|
            0 <= i < peers.len() && (#[trigger] peers[i]).peer_state.node_state.session_id
                == session_id ==> sorted.contains(peers[i]),
{
    let in_session = |p: ControllerPeer| p.session() == session_id;
    let candidates = members(peers, session_id);
    assert forall|id: NodeId| #![trigger with_id(sorted, id)] with_id(sorted, id) == peers.filter(
        |p: ControllerPeer|
            p.peer_state.node_state.session_id == session_id && p.peer_state.node_state.node_id
                == id,
    ) by {
        let has_id = |p: ControllerPeer| p.id() == id;
        let both = |p: ControllerPeer| in_session(p) && has_id(p);
        let raw = |p: ControllerPeer|
            p.peer_state.node_state.session_id == session_id && p.peer_state.node_state.node_id
                == id;
        lemma_filter_twice(peers, in_session, has_id);
        assert(with_id(candidates, id) == peers.filter(both));
        lemma_filters_agree(peers, both, raw);
    }
    assert forall|i: int| 0 <= i < sorted.len() implies peers.contains(#[trigger] sorted[i])
        && sorted[i].peer_state.node_state.session_id == session_id by {
        let id = sorted[i].id();
        let has_id = |p: ControllerPeer| p.id() == id;
        lemma_filter_members(sorted, has_id);
        assert(has_id(sorted[i]));
        assert(with_id(sorted, id).contains(sorted[i]));
        lemma_filter_members(candidates, has_id);
        let k = choose|k: int|
            0 <= k < with_id(candidates, id).len() && with_id(candidates, id)[k] == sorted[i];
        assert(candidates.contains(with_id(candidates, id)[k]));
        lemma_filter_members(peers, in_session);
        let m = choose|m: int| 0 <= m < candidates.len() && candidates[m] == sorted[i];
        assert(in_session(candidates[m]));
    }
    assert forall|i: int|
        0 <= i < peers.len() && (#[trigger] peers[i]).peer_state.node_state.session_id
            == session_id implies sorted.contains(peers[i]) by {
        let id = peers[i].id();
        let has_id = |p: ControllerPeer| p.id() == id;
        lemma_filter_members(peers, in_session);
        assert(in_session(peers[i]));
        assert(candidates.contains(peers[i]));
        lemma_filter_members(candidates, has_id);
        let m = choose|m: int| 0 <= m < candidates.len() && candidates[m] == peers[i];
        assert(has_id(candidates[m]));
        assert(with_id(candidates, id).contains(candidates[m]));
        lemma_filter_members(sorted, has_id);
        let k = choose|k: int|
            0 <= k < with_id(sorted, id).len() && with_id(sorted, id)[k] == peers[i];
        assert(sorted.contains(with_id(sorted, id)[k]));
    }
}

/// Where another session than the current one fails, the first session on the list that is not
/// the failed one is removed, and the others stay in their order.
pub proof fn law_failure_removes_the_first_other_session(
    others: Seq<Session>,
    peers: Seq<ControllerPeer>,
    session_id: SessionId,
    place: int,
)
    requires
        0 <= place < others.len(),
        others[place].session_id != session_id,
        forall|i: int| 0 <= i < place ==> (#[trigger] others[i]).session_id == session_id,
    ensures
        after_failure(others, peers, session_id).0 == others.remove(place),
{
    assert(!lists_only(others, session_id));
    let first = choose|i: int| is_first_stranger(others, session_id, i);
    assert(is_first_stranger(others, session_id, place));
    assert(is_first_stranger(others, session_id, first));
    assert(first == place);
}

/// Where all sessions on the list are the failed one, nothing is removed.
pub proof fn law_failure_of_the_only_session_removes_nothing(
    others: Seq<Session>,
    peers: Seq<ControllerPeer>,
    session_id: SessionId,
)
    requires
        forall|i: int| 0 <= i < others.len() ==> (#[trigger] others[i]).session_id == session_id,
    ensures
        after_failure(others, peers, session_id) == (others, peers),
{
}

/// The places of a session's peers are ascending, are places of its peers, and leave none out.
pub proof fn law_places_are_those_of_the_peers(
    peers: Seq<ControllerPeer>,
    session_id: SessionId,
    n: nat,
)
    requires
        n <= peers.len(),
    ensures
        ({
            let places = member_places(peers, session_id, n);
            &&& forall|k: int|
                0 <= k < places.len() ==> 0 <= (#[trigger] places[k]) < n
                    && peers[places[k]].peer_state.node_state.session_id == session_id
            &&& forall|k: int, l: int|
                0 <= k < l < places.len() ==> (#[trigger] places[k]) < (#[trigger] places[l])
            &&& forall|i: int|
                0 <= i < n && (#[trigger] peers[i]).peer_state.node_state.session_id == session_id
                    ==> places.contains(i)
        }),
    decreases n,
{
    if n > 0 {
        law_places_are_those_of_the_peers(peers, session_id, (n - 1) as nat);
        let before = member_places(peers, session_id, (n - 1) as nat);
        let places = member_places(peers, session_id, n);
        if peers[n - 1].session() == session_id {
            assert(places == before.push(n - 1));
            assert(places[before.len() as int] == n - 1);
        }
        assert forall|i: int|
            0 <= i < n && (#[trigger] peers[i]).peer_state.node_state.session_id
                == session_id implies places.contains(i) by {
            if i < n - 1 {
                assert(before.contains(i));
                let k = choose|k: int| 0 <= k < before.len() && before[k] == i;
                assert(places[k] == i);
            }
        }
    }
}

/// Where another session than the current one fails, the entries at the places of its peers are
/// removed one after the other, each from the list that the removals before it left.
pub proof fn law_failure_removes_the_places_in_turn(
    others: Seq<Session>,
    peers: Seq<ControllerPeer>,
    session_id: SessionId,
    n: nat,
)
    requires
        exists|i: int| 0 <= i < others.len() && (#[trigger] others[i]).session_id != session_id,
        n < member_places(peers, session_id, peers.len()).len(),
    ensures
        ({
            let places = member_places(peers, session_id, peers.len());
            &&& after_failure(others, peers, session_id).1 == removed_in_turn(
                peers,
                places,
                places.len(),
            )
            &&& removed_in_turn(peers, places, 0) == peers
            &&& removed_in_turn(peers, places, n + 1) == removed_in_turn(peers, places, n).remove(
                places[n as int],
            )
        }),
{
    assert(!lists_only(others, session_id));
}

} // verus!
