//! What holds of the list of peers.

use vstd::prelude::*;

use crate::discovery::peers::{
    after_event, after_leaving, after_seeing, changes_membership, is_first_place,
    is_new_start_stop_state, is_new_timeline, lemma_first_place_exists, others_in_session, runs,
    with_one_timeline, without_session, ControllerPeer, PeerEvent, PeerState, PeerStateChange,
};
use crate::link::ieee::same_number_spec;
use crate::link::node::NodeId;
use crate::link::sessions::SessionId;
use crate::link::state::StartStopState;
use crate::link::state_laws::law_equal_timelines_agree_in_every_part;
use crate::link::timeline::{same_timeline, Timeline};
use crate::seq_facts::lemma_filter_push;

verus! {

/// A peer that sees itself changes nothing and tells nothing.
pub proof fn law_oneself_is_not_seen(
    peers: Seq<ControllerPeer>,
    seen: PeerState,
    self_ident: NodeId,
)
    requires
        seen.node_state.node_id == self_ident,
    ensures
        after_seeing(peers, seen, self_ident).0 == peers,
        after_seeing(peers, seen, self_ident).1.len() == 0,
{
}

/// A known peer that is seen is replaced at its first place, and every other entry stays where
/// it is.
pub proof fn law_known_peer_is_replaced(
    peers: Seq<ControllerPeer>,
    seen: PeerState,
    self_ident: NodeId,
    place: int,
)
    requires
        seen.node_state.node_id != self_ident,
        0 <= place < peers.len(),
        peers[place].peer_state.node_state.node_id == seen.node_state.node_id,
        forall|j: int|
            0 <= j < place ==> (#[trigger] peers[j]).peer_state.node_state.node_id
                != seen.node_state.node_id,
    ensures
        after_seeing(peers, seen, self_ident).0.len() == peers.len(),
        after_seeing(peers, seen, self_ident).0[place].peer_state == seen,
        forall|i: int|
            0 <= i < peers.len() && i != place ==> #[trigger] after_seeing(
                peers,
                seen,
                self_ident,
            ).0[i] == peers[i],
{
    let id = seen.node_state.node_id;
    assert(is_first_place(peers, id, place));
    let first = choose|i: int| is_first_place(peers, id, i);
    assert(is_first_place(peers, id, first));
    assert(first == place);
}

/// A peer that is seen for the first time comes to the end of the list, and every other entry
/// stays where it is.
pub proof fn law_new_peer_is_added(
    peers: Seq<ControllerPeer>,
    seen: PeerState,
    self_ident: NodeId,
)
    requires
        seen.node_state.node_id != self_ident,
        forall|j: int|
            0 <= j < peers.len() ==> (#[trigger] peers[j]).peer_state.node_state.node_id
                != seen.node_state.node_id,
    ensures
        after_seeing(peers, seen, self_ident).0.len() == peers.len() + 1,
        after_seeing(peers, seen, self_ident).0[peers.len() as int].peer_state == seen,
        forall|i: int|
            0 <= i < peers.len() ==> #[trigger] after_seeing(peers, seen, self_ident).0[i]
                == peers[i],
{
}

/// The timeline of a peer is told with its session, exactly where no peer on the list is in that
/// session with the same beat origin, time origin and tempo.
pub proof fn law_new_timeline_is_told(
    peers: Seq<ControllerPeer>,
    seen: PeerState,
    self_ident: NodeId,
    session: SessionId,
    timeline: Timeline,
)
    requires
        seen.node_state.node_id != self_ident,
    ensures
        after_seeing(peers, seen, self_ident).1.contains(
            PeerStateChange::SessionTimeline(session, timeline),
        ) <==> session == seen.node_state.session_id && timeline == seen.node_state.timeline && (
        forall|i: int|
            0 <= i < peers.len() && (#[trigger] peers[i]).peer_state.node_state.session_id
                == session && peers[i].peer_state.node_state.timeline.beat_origin.micro_beats
                == timeline.beat_origin.micro_beats
                && peers[i].peer_state.node_state.timeline.time_origin == timeline.time_origin
                ==> !same_number_spec(
                peers[i].peer_state.node_state.timeline.tempo.bpm_bits,
                timeline.tempo.bpm_bits,
            )),
{
    let told = after_seeing(peers, seen, self_ident).1;
    let change = PeerStateChange::SessionTimeline(session, timeline);
    assert forall|i: int| 0 <= i < peers.len() implies ((#[trigger] peers[i]).session()
        == seen.node_state.session_id && same_timeline(
        peers[i].peer_state.node_state.timeline,
        seen.node_state.timeline,
    )) == (peers[i].peer_state.node_state.session_id == seen.node_state.session_id
        && peers[i].peer_state.node_state.timeline.beat_origin.micro_beats
        == seen.node_state.timeline.beat_origin.micro_beats
        && peers[i].peer_state.node_state.timeline.time_origin
        == seen.node_state.timeline.time_origin && same_number_spec(
        peers[i].peer_state.node_state.timeline.tempo.bpm_bits,
        seen.node_state.timeline.tempo.bpm_bits,
    )) by {
        law_equal_timelines_agree_in_every_part(
            peers[i].peer_state.node_state.timeline,
            seen.node_state.timeline,
        );
    }
    if told.contains(change) {
        let k = choose|k: int| 0 <= k < told.len() && told[k] == change;
        assert(told[k] is SessionTimeline);
    }
    if is_new_timeline(peers, seen) {
        assert(told[0] == PeerStateChange::SessionTimeline(
            seen.node_state.session_id,
            seen.node_state.timeline,
        ));
    }
}

/// The start and stop state of a peer is told with its session, exactly where no peer on the
/// list has it, whatever its session.
pub proof fn law_new_start_stop_state_is_told(
    peers: Seq<ControllerPeer>,
    seen: PeerState,
    self_ident: NodeId,
    session: SessionId,
    state: StartStopState,
)
    requires
        seen.node_state.node_id != self_ident,
    ensures
        after_seeing(peers, seen, self_ident).1.contains(
            PeerStateChange::SessionStartStopState(session, state),
        ) <==> session == seen.node_state.session_id && state == seen.node_state.start_stop_state
            && (forall|i: int|
            0 <= i < peers.len() ==> !((#[trigger] peers[
                i
            ]).peer_state.node_state.start_stop_state.is_playing == state.is_playing
                && peers[i].peer_state.node_state.start_stop_state.beats == state.beats
                && peers[i].peer_state.node_state.start_stop_state.timestamp == state.timestamp)),
{
    let told = after_seeing(peers, seen, self_ident).1;
    let change = PeerStateChange::SessionStartStopState(session, state);
    if told.contains(change) {
        let k = choose|k: int| 0 <= k < told.len() && told[k] == change;
        assert(told[k] is SessionStartStopState);
    }
    if is_new_start_stop_state(peers, seen) {
        let k: int = if is_new_timeline(peers, seen) {
            1
        } else {
            0
        };
        assert(told[k] == PeerStateChange::SessionStartStopState(
            seen.node_state.session_id,
            seen.node_state.start_stop_state,
        ));
    }
}

/// A change of membership is told exactly where the peer is new, or where its first entry was in
/// another session.
pub proof fn law_new_membership_is_told(
    peers: Seq<ControllerPeer>,
    seen: PeerState,
    self_ident: NodeId,
)
    requires
        seen.node_state.node_id != self_ident,
    ensures
        after_seeing(peers, seen, self_ident).1.contains(PeerStateChange::SessionMembership) <==> (
        forall|i: int|
            0 <= i < peers.len() && (#[trigger] peers[i]).peer_state.node_state.node_id
                == seen.node_state.node_id && peers[i].peer_state.node_state.session_id
                == seen.node_state.session_id ==> exists|j: int|
                0 <= j < i && (#[trigger] peers[j]).peer_state.node_state.node_id
                    == seen.node_state.node_id),
{
    let id = seen.node_state.node_id;
    let told = after_seeing(peers, seen, self_ident).1;
    if told.contains(PeerStateChange::SessionMembership) {
        let k = choose|k: int|
            0 <= k < told.len() && told[k] == PeerStateChange::SessionMembership;
        assert(told[k] is SessionMembership);
    }
    if changes_membership(peers, seen) {
        assert(told[told.len() - 1] == PeerStateChange::SessionMembership);
    }
    if exists|i: int| 0 <= i < peers.len() && (#[trigger] peers[i]).id() == id {
        lemma_first_place_exists(peers, id);
        let first = choose|i: int| is_first_place(peers, id, i);
        assert(peers[first].id() == id);
        assert forall|i: int| 0 <= i < peers.len() && i != first && (#[trigger] peers[i]).id()
            == id implies exists|j: int|
            0 <= j < i && (#[trigger] peers[j]).peer_state.node_state.node_id == id by {
            assert(first < i && peers[first].peer_state.node_state.node_id == id);
        }
    } else {
        assert forall|i: int| 0 <= i < peers.len() implies (#[trigger] peers[
            i
        ]).peer_state.node_state.node_id != id by {
            assert(peers[i].id() != id);
        }
    }
}

/// Each kind of change is told at most once, first the timeline, then the start and stop state,
/// then the membership, and nothing else is.
pub proof fn law_changes_are_told_in_order(
    peers: Seq<ControllerPeer>,
    seen: PeerState,
    self_ident: NodeId,
)
    ensures
        forall|i: int|
            0 <= i < after_seeing(peers, seen, self_ident).1.len() ==> (#[trigger] after_seeing(
                peers,
                seen,
                self_ident,
            ).1[i]) !is PeerLeft,
        forall|i: int, j: int|
            0 <= i < j < after_seeing(peers, seen, self_ident).1.len() ==> {
                let earlier = #[trigger] after_seeing(peers, seen, self_ident).1[i];
                let later = #[trigger] after_seeing(peers, seen, self_ident).1[j];
                &&& later !is SessionTimeline
                &&& earlier !is SessionMembership
                &&& !(earlier is SessionStartStopState && later is SessionStartStopState)
            },
{
}

/// A peer that leaves is taken off wherever it is on the list, and no other peer is: the last
/// entry stays exactly if it is another peer, and the same holds of the entries before it.
pub proof fn law_leaving_goes_entry_by_entry(
    peers: Seq<ControllerPeer>,
    last: ControllerPeer,
    id: NodeId,
)
    ensures
        last.peer_state.node_state.node_id == id ==> after_leaving(peers.push(last), id).0
            == after_leaving(peers, id).0,
        last.peer_state.node_state.node_id != id ==> after_leaving(peers.push(last), id).0
            == after_leaving(peers, id).0.push(last),
        after_leaving(Seq::empty(), id).0.len() == 0,
{
    lemma_filter_push(peers, last, |p: ControllerPeer| p.id() != id);
    reveal(Seq::filter);
}

/// That a peer left is told, once, exactly if the peer was on the list.
pub proof fn law_leaving_is_told(peers: Seq<ControllerPeer>, id: NodeId)
    ensures
        (exists|i: int|
            0 <= i < peers.len() && (#[trigger] peers[i]).peer_state.node_state.node_id == id) ==> (
        after_leaving(peers, id).1.len() == 1 && after_leaving(peers, id).1[0]
            == PeerStateChange::PeerLeft),
        (forall|i: int|
            0 <= i < peers.len() ==> (#[trigger] peers[i]).peer_state.node_state.node_id != id)
            ==> after_leaving(peers, id).1.len() == 0,
{
    if exists|i: int|
        0 <= i < peers.len() && (#[trigger] peers[i]).peer_state.node_state.node_id == id {
        let k = choose|i: int|
            0 <= i < peers.len() && (#[trigger] peers[i]).peer_state.node_state.node_id == id;
        assert(peers[k].id() == id);
    }
}

/// A peer that timed out is treated as one that left, and one that was seen as seen.
pub proof fn law_events_are_told_apart(
    peers: Seq<ControllerPeer>,
    seen: PeerState,
    id: NodeId,
    self_ident: NodeId,
)
    ensures
        after_event(peers, PeerEvent::PeerTimedOut(id), self_ident) == after_leaving(peers, id),
        after_event(peers, PeerEvent::PeerLeft(id), self_ident) == after_leaving(peers, id),
        after_event(peers, PeerEvent::SawPeer(seen), self_ident) == after_seeing(
            peers,
            seen,
            self_ident,
        ),
{
}

/// Forgetting a session takes off exactly its peers: the last entry stays exactly if it is in
/// another session, and the same holds of the entries before it.
pub proof fn law_forgetting_goes_entry_by_entry(
    peers: Seq<ControllerPeer>,
    last: ControllerPeer,
    session_id: SessionId,
)
    ensures
        last.peer_state.node_state.session_id == session_id ==> without_session(
            peers.push(last),
            session_id,
        ) == without_session(peers, session_id),
        last.peer_state.node_state.session_id != session_id ==> without_session(
            peers.push(last),
            session_id,
        ) == without_session(peers, session_id).push(last),
        without_session(Seq::empty(), session_id).len() == 0,
{
    lemma_filter_push(peers, last, |p: ControllerPeer| p.session() != session_id);
    reveal(Seq::filter);
}

/// Setting the timeline of a session gives it to every peer of the session, and changes nothing
/// else of any peer.
pub proof fn law_peers_of_a_session_get_its_timeline(
    peers: Seq<ControllerPeer>,
    session_id: SessionId,
    timeline: Timeline,
    i: int,
)
    requires
        0 <= i < peers.len(),
    ensures
        ({
            let before = peers[i].peer_state;
            let after = with_one_timeline(peers, session_id, timeline)[i].peer_state;
            &&& with_one_timeline(peers, session_id, timeline).len() == peers.len()
            &&& before.node_state.session_id == session_id ==> after.node_state.timeline == timeline
            &&& before.node_state.session_id != session_id ==> after.node_state.timeline
                == before.node_state.timeline
            &&& after.node_state.node_id == before.node_state.node_id
            &&& after.node_state.session_id == before.node_state.session_id
            &&& after.node_state.start_stop_state == before.node_state.start_stop_state
            &&& after.measurement_endpoint == before.measurement_endpoint
        }),
{
}

/// One more peer at the end of the list counts exactly if it is in the session, is not oneself,
/// and is another than the last one that counted.
pub proof fn law_peers_are_counted_one_by_one(
    peers: Seq<ControllerPeer>,
    last: ControllerPeer,
    session_id: SessionId,
    self_node_id: NodeId,
)
    ensures
        ({
            let before = others_in_session(peers, session_id, self_node_id);
            let after = others_in_session(peers.push(last), session_id, self_node_id);
            let id = last.peer_state.node_state.node_id;
            if last.peer_state.node_state.session_id != session_id || id == self_node_id {
                after == before
            } else {
                &&& after == before.push(last)
                &&& runs(after) == if before.len() > 0
                    && before.last().peer_state.node_state.node_id == id {
                    runs(before)
                } else {
                    runs(before) + 1
                }
            }
        }),
        runs(others_in_session(Seq::empty(), session_id, self_node_id)) == 0,
{
    let before = others_in_session(peers, session_id, self_node_id);
    lemma_filter_push(
        peers,
        last,
        |p: ControllerPeer| p.session() == session_id && p.id() != self_node_id,
    );
    assert(before.push(last).drop_last() =~= before);
    reveal(Seq::filter);
}

} // verus!
