//! The sessions that are known, which of them is current, and when another one takes over.

use vstd::prelude::*;

use crate::discovery::peers::{knows, ControllerPeer, PeerState};
use crate::link::duration::{is_span, whole_micros, Duration};
use crate::link::ghostxform::{no_x_form, same_x_form, GhostXForm};
use crate::link::measurement::MeasurePeerEvent;
use crate::link::node::NodeId;
use crate::link::payload::{is_header, PayloadEntryHeader};
use crate::link::timeline::Timeline;
use crate::link::wire::{
    be_value, bincode_decode_u64, bincode_u64, lemma_be_value_injective, Error,
};
use crate::seq_facts::{lemma_filter_members, lemma_filter_step, lemma_first_kept};

verus! {

/// The key of the session membership entry: the bytes of "sess".
pub const SESSION_MEMBERSHIP_HEADER_KEY: u32 = 0x73657373;

/// The size of a session identifier in bytes.
pub const SESSION_MEMBERSHIP_SIZE: u32 = 8;

/// The identifier of a session: that of the peer that founded it.
#[derive(Clone, Copy, Debug, Default, PartialEq, Eq, PartialOrd, Structural)]
pub struct SessionId(pub NodeId);

/// The payload entry that tells which session a peer belongs to.
#[derive(Clone, Copy, Debug, Default)]
pub struct SessionMembership {
    pub session_id: SessionId,
}

impl From<SessionId> for SessionMembership {
    fn from(session_id: SessionId) -> (m: SessionMembership) {
        SessionMembership { session_id }
    }
}

impl vstd::std_specs::convert::FromSpecImpl<SessionId> for SessionMembership {
    open spec fn obeys_from_spec() -> bool {
        true
    }

    open spec fn from_spec(session_id: SessionId) -> SessionMembership {
        SessionMembership { session_id }
    }
}

impl SessionMembership {
    /// The bytes of the entry: its header, then the identifier.
    pub fn encode(&self) -> (encoded: Result<Vec<u8>, Error>)
        ensures
            encoded is Ok,
            encoded->Ok_0@.len() == 8 + SESSION_MEMBERSHIP_SIZE,
            is_header(
                encoded->Ok_0@.subrange(0, 8),
                SESSION_MEMBERSHIP_HEADER_KEY,
                SESSION_MEMBERSHIP_SIZE,
            ),
            be_value(encoded->Ok_0@.subrange(8, 16)) == self.session_id.0.0,
    {
        let header = PayloadEntryHeader {
            key: SESSION_MEMBERSHIP_HEADER_KEY,
            size: SESSION_MEMBERSHIP_SIZE,
        };
        match header.encode() {
            Ok(mut encoded) => match bincode_u64(self.session_id.0.0) {
                Ok(mut id) => {
                    let ghost header_bytes = encoded@;
                    let ghost id_bytes = id@;
                    encoded.append(&mut id);
                    assert(encoded@.subrange(0, 8) =~= header_bytes);
                    assert(encoded@.subrange(8, 16) =~= id_bytes);
                    Ok(encoded)
                },
                Err(_) => Err(Error::Encode),
            },
            Err(e) => Err(e),
        }
    }

    /// Reads an identifier from the first bytes behind a header.
    pub fn decode(bytes: &[u8]) -> (decoded: Result<SessionMembership, Error>)
        ensures
            decoded is Ok <==> bytes@.len() >= SESSION_MEMBERSHIP_SIZE,
            decoded matches Ok(entry) ==> be_value(bytes@.take(8)) == entry.session_id.0.0,
            decoded matches Err(e) ==> e == Error::Decode,
    {
        match bincode_decode_u64(bytes) {
            Ok((id, _)) => {
                assert(bytes@.take(8) =~= bytes@.subrange(0, 8));
                Ok(SessionMembership { session_id: SessionId(NodeId(id)) })
            },
            Err(_) => Err(Error::Decode),
        }
    }
}

/// Eight bytes spell one session identifier, and an identifier is spelled by one sequence of
/// eight bytes: what is read back is what was written.
pub proof fn law_membership_survives_the_wire(
    written: SessionId,
    bytes: Seq<u8>,
    read: SessionId,
    others: Seq<u8>,
)
    requires
        bytes.len() == SESSION_MEMBERSHIP_SIZE,
        be_value(bytes) == written.0.0,
    ensures
        be_value(bytes) == read.0.0 ==> read == written,
        others.len() == SESSION_MEMBERSHIP_SIZE && be_value(others) == written.0.0 ==> others
            == bytes,
{
    if others.len() == SESSION_MEMBERSHIP_SIZE && be_value(others) == written.0.0 {
        lemma_be_value_injective(bytes, others);
    }
}

/// How the time of a session relates to host time, and when that was measured.
#[derive(Clone, Copy, Debug)]
pub struct SessionMeasurement {
    pub x_form: GhostXForm,
    pub timestamp: Duration,
}

/// The measurement of a session that was not measured.
pub open spec fn no_measurement() -> SessionMeasurement {
    SessionMeasurement { x_form: no_x_form(), timestamp: Duration::empty() }
}

impl Default for SessionMeasurement {
    fn default() -> (m: SessionMeasurement)
        ensures
            m == no_measurement(),
    {
        SessionMeasurement { x_form: GhostXForm::default(), timestamp: Duration::zero() }
    }
}

/// A session: its timeline, and how its time was measured.
#[derive(Clone, Copy, Debug)]
pub struct Session {
    pub session_id: SessionId,
    pub timeline: Timeline,
    pub measurement: SessionMeasurement,
}

/// The peers of a session, in the order of the list.
pub open spec fn members(peers: Seq<ControllerPeer>, session_id: SessionId) -> Seq<ControllerPeer> {
    peers.filter(|p: ControllerPeer| p.session() == session_id)
}

/// The peers on a list that have the identifier `id`, in the order of the list.
pub open spec fn with_id(peers: Seq<ControllerPeer>, id: NodeId) -> Seq<ControllerPeer> {
    peers.filter(|p: ControllerPeer| p.id() == id)
}

/// Whether the identifiers on a list ascend.
pub open spec fn ascending(peers: Seq<ControllerPeer>) -> bool {
    forall|i: int, j: int|
        0 <= i < j < peers.len() ==> (#[trigger] peers[i]).id().0 <= (#[trigger] peers[j]).id().0
}

/// Whether `sorted` is `peers` sorted by identifier, peers with one identifier in their order.
pub open spec fn is_sorted_copy(sorted: Seq<ControllerPeer>, peers: Seq<ControllerPeer>) -> bool {
    ascending(sorted) && forall|id: NodeId| #[trigger] with_id(sorted, id) == with_id(peers, id)
}

/// Inserting a peer behind those that are not greater and before those that are keeps a list
/// sorted, and puts the peer last among those with its identifier.
proof fn lemma_insert_sorted(
    sorted: Seq<ControllerPeer>,
    peers: Seq<ControllerPeer>,
    place: int,
    peer: ControllerPeer,
)
    requires
        is_sorted_copy(sorted, peers),
        0 <= place <= sorted.len(),
        forall|i: int| 0 <= i < place ==> (#[trigger] sorted[i]).id().0 <= peer.id().0,
        forall|i: int| place <= i < sorted.len() ==> peer.id().0 < (#[trigger] sorted[i]).id().0,
    ensures
        is_sorted_copy(sorted.insert(place, peer), peers.push(peer)),
{
    let after = sorted.insert(place, peer);
    assert forall|i: int, j: int| 0 <= i < j < after.len() implies (#[trigger] after[i]).id().0 <= (
    #[trigger] after[j]).id().0 by {
        let a = if i < place {
            i
        } else {
            i - 1
        };
        let b = if j < place {
            j
        } else {
            j - 1
        };
        if i != place && j != place {
            assert(after[i] == sorted[a]);
            assert(after[j] == sorted[b]);
        } else if i == place {
            assert(after[j] == sorted[b]);
        } else {
            assert(after[i] == sorted[a]);
        }
    }
    let front = sorted.take(place);
    let back = sorted.skip(place);
    assert(sorted =~= front + back);
    assert(after =~= (front + seq![peer]) + back);
    assert forall|id: NodeId| #[trigger] with_id(after, id) == with_id(peers.push(peer), id) by {
        let keep = |p: ControllerPeer| p.id() == id;
        Seq::filter_distributes_over_add(front + seq![peer], back, keep);
        Seq::filter_distributes_over_add(front, seq![peer], keep);
        Seq::filter_distributes_over_add(front, back, keep);
        Seq::filter_distributes_over_add(peers, seq![peer], keep);
        assert(peers.push(peer) =~= peers + seq![peer]);
        assert(with_id(sorted, id) == with_id(peers, id));
        if peer.id() == id {
            lemma_filter_members(back, keep);
            if back.filter(keep).len() > 0 {
                let p = back.filter(keep)[0];
                assert(keep(p) && back.contains(p));
                let k = choose|k: int| 0 <= k < back.len() && back[k] == p;
                assert(sorted[place + k] == p);
            }
            assert(back.filter(keep) =~= Seq::<ControllerPeer>::empty());
            assert((front.filter(keep) + seq![peer].filter(keep)) + back.filter(keep)
                =~= (front.filter(keep) + back.filter(keep)) + seq![peer].filter(keep));
        } else {
            let one = seq![peer];
            lemma_filter_members(one, keep);
            if one.filter(keep).len() > 0 {
                let p = one.filter(keep)[0];
                assert(keep(p) && one.contains(p));
            }
            assert(one.filter(keep) =~= Seq::<ControllerPeer>::empty());
            assert((front.filter(keep) + one.filter(keep)) + back.filter(keep)
                =~= (front.filter(keep) + back.filter(keep)) + one.filter(keep));
        }
    }
}

/// The peers of a session, sorted by identifier.
pub fn session_peers(peers: &Vec<ControllerPeer>, session_id: SessionId) -> (sorted: Vec<
    ControllerPeer,
>)
    ensures
        is_sorted_copy(sorted@, members(peers@, session_id)),
{
    let ghost keep = |p: ControllerPeer| p.session() == session_id;
    let mut sorted: Vec<ControllerPeer> = Vec::new();
    proof {
        assert(peers@.take(0) =~= sorted@);
        lemma_filter_members(sorted@, keep);
        assert(sorted@.filter(keep) =~= sorted@);
    }
    let mut i: usize = 0;
    while i < peers.len()
        invariant
            i <= peers@.len(),
            keep == (|p: ControllerPeer| p.session() == session_id),
            is_sorted_copy(sorted@, peers@.take(i as int).filter(keep)),
        decreases peers@.len() - i,
    {
        proof {
            lemma_filter_step(peers@, i as int, keep);
        }
        let peer = peers[i];
        if peer.peer_state.session_id() == session_id {
            let mut place: usize = sorted.len();
            while place > 0 && peer.peer_state.ident().0 < sorted[place - 1].peer_state.ident().0
                invariant
                    place <= sorted@.len(),
                    forall|j: int|
                        place <= j < sorted@.len() ==> peer.id().0 < (#[trigger] sorted@[j]).id().0,
                decreases place,
            {
                place = place - 1;
            }
            proof {
                assert forall|j: int| 0 <= j < place implies (#[trigger] sorted@[j]).id().0
                    <= peer.id().0 by {
                    assert(sorted@[j].id().0 <= sorted@[place - 1].id().0);
                }
                lemma_insert_sorted(
                    sorted@,
                    peers@.take(i as int).filter(keep),
                    place as int,
                    peer,
                );
            }
            sorted.insert(place, peer);
        }
        i = i + 1;
    }
    assert(peers@.take(i as int) =~= peers@);
    sorted
}

/// Whether no peer on the list has a smaller identifier than `id`, which is on it.
pub open spec fn is_least(peers: Seq<ControllerPeer>, id: NodeId) -> bool {
    knows(peers, id) && forall|i: int| 0 <= i < peers.len() ==> id.0 <= (#[trigger] peers[i]).id().0
}

/// The peer by which a session is measured: its founder where that is a member, otherwise the
/// member with the least identifier. Of several entries the first on the list.
pub open spec fn measured_by(peers: Seq<ControllerPeer>, session_id: SessionId) -> Option<
    PeerState,
> {
    let candidates = members(peers, session_id);
    if candidates.len() == 0 {
        None
    } else if knows(candidates, session_id.0) {
        Some(with_id(candidates, session_id.0)[0].peer_state)
    } else {
        Some(with_id(candidates, choose|id: NodeId| is_least(candidates, id))[0].peer_state)
    }
}

/// A list knows an identifier exactly where it has entries with it.
proof fn lemma_knows_by_entries(peers: Seq<ControllerPeer>, id: NodeId)
    ensures
        knows(peers, id) <==> with_id(peers, id).len() > 0,
{
    let keep = |p: ControllerPeer| p.id() == id;
    lemma_filter_members(peers, keep);
    if knows(peers, id) {
        let i = choose|i: int| 0 <= i < peers.len() && (#[trigger] peers[i]).id() == id;
        assert(keep(peers[i]));
        assert(peers.filter(keep).contains(peers[i]));
    }
    if with_id(peers, id).len() > 0 {
        let p = with_id(peers, id)[0];
        assert(keep(p) && peers.contains(p));
        let i = choose|i: int| 0 <= i < peers.len() && peers[i] == p;
        assert(peers[i].id() == id);
    }
}

/// A sorted list and the list it was sorted from know the same identifiers.
proof fn lemma_sorted_knows_the_same(sorted: Seq<ControllerPeer>, peers: Seq<ControllerPeer>)
    requires
        is_sorted_copy(sorted, peers),
    ensures
        forall|id: NodeId| #[trigger] knows(sorted, id) == knows(peers, id),
        sorted.len() == 0 <==> peers.len() == 0,
{
    assert forall|id: NodeId| #[trigger] knows(sorted, id) == knows(peers, id) by {
        lemma_knows_by_entries(sorted, id);
        lemma_knows_by_entries(peers, id);
        assert(with_id(sorted, id) == with_id(peers, id));
    }
    if peers.len() > 0 {
        assert(knows(peers, peers[0].id()));
        assert(knows(sorted, peers[0].id()));
    }
    if sorted.len() > 0 {
        assert(knows(sorted, sorted[0].id()));
        assert(knows(peers, sorted[0].id()));
    }
}

/// The first peer of a sorted list is the first entry of the least identifier.
proof fn lemma_sorted_starts_with_least(
    sorted: Seq<ControllerPeer>,
    peers: Seq<ControllerPeer>,
)
    requires
        is_sorted_copy(sorted, peers),
        peers.len() > 0,
    ensures
        sorted.len() > 0,
        sorted[0] == with_id(peers, choose|id: NodeId| is_least(peers, id))[0],
{
    lemma_sorted_knows_the_same(sorted, peers);
    let least = sorted[0].id();
    assert(knows(sorted, least));
    assert(knows(peers, least));
    assert forall|i: int| 0 <= i < peers.len() implies least.0 <= (#[trigger] peers[i]).id().0 by {
        assert(knows(peers, peers[i].id()));
        assert(knows(sorted, peers[i].id()));
        let k = choose|k: int| 0 <= k < sorted.len() && (#[trigger] sorted[k]).id() == peers[i].id();
        if k > 0 {
            assert(sorted[0].id().0 <= sorted[k].id().0);
        }
    }
    assert(is_least(peers, least));
    let chosen = choose|id: NodeId| is_least(peers, id);
    assert(is_least(peers, chosen));
    let a = choose|a: int| 0 <= a < peers.len() && (#[trigger] peers[a]).id() == least;
    let b = choose|b: int| 0 <= b < peers.len() && (#[trigger] peers[b]).id() == chosen;
    assert(chosen.0 <= peers[a].id().0);
    assert(least.0 <= peers[b].id().0);
    assert(chosen == least);
    lemma_first_kept(sorted, 0, |p: ControllerPeer| p.id() == least);
    assert(with_id(sorted, least) == with_id(peers, least));
}

/// Asks for a measurement of a session by one of its peers, if it has any.
pub fn launch_session_measurement(peers: &Vec<ControllerPeer>, session: &Session) -> (event: Option<
    MeasurePeerEvent,
>)
    ensures
        event == measurement_request(peers@, session.session_id),
{
    let sorted = session_peers(peers, session.session_id);
    let ghost candidates = members(peers@, session.session_id);
    let founder = session.session_id.0;
    proof {
        lemma_sorted_knows_the_same(sorted@, candidates);
    }
    let mut i: usize = 0;
    while i < sorted.len()
        invariant
            i <= sorted@.len(),
            candidates == members(peers@, session.session_id),
            is_sorted_copy(sorted@, candidates),
            knows(sorted@, founder) == knows(candidates, founder),
            sorted@.len() == 0 <==> candidates.len() == 0,
            founder == session.session_id.0,
            forall|j: int| 0 <= j < i ==> (#[trigger] sorted@[j]).id() != founder,
        decreases sorted@.len() - i,
    {
        if sorted[i].peer_state.ident() == founder {
            proof {
                assert(sorted@[i as int].id() == founder);
                lemma_first_kept(sorted@, i as int, |p: ControllerPeer| p.id() == founder);
                assert(with_id(sorted@, founder) == with_id(candidates, founder));
            }
            return Some(MeasurePeerEvent::PeerState(session.session_id, sorted[i].peer_state));
        }
        i = i + 1;
    }
    if sorted.len() > 0 {
        proof {
            lemma_sorted_starts_with_least(sorted@, candidates);
        }
        Some(MeasurePeerEvent::PeerState(session.session_id, sorted[0].peer_state))
    } else {
        None
    }
}

/// Seconds between two measurements of a session that is measured again and again.
pub const REMEASUREMENT_SECS: u64 = 30;

/// Nanoseconds by which the time of another session has to be ahead to win in any case.
pub const SESSION_EPS_NANOS: i64 = 500_000_000;

/// Nanoseconds of host time within which a peer without company joins any session.
pub const JUST_STARTED_NANOS: i64 = 5_000_000_000;

/// Whether `i` is the first place of the session `id` on the list.
pub open spec fn is_first_session(sessions: Seq<Session>, id: SessionId, i: int) -> bool {
    &&& 0 <= i < sessions.len()
    &&& sessions[i].session_id == id
    &&& forall|j: int| 0 <= j < i ==> (#[trigger] sessions[j]).session_id != id
}

/// Whether the session `id` is on the list.
pub open spec fn lists(sessions: Seq<Session>, id: SessionId) -> bool {
    exists|i: int| 0 <= i < sessions.len() && (#[trigger] sessions[i]).session_id == id
}

/// The first place of a session that is on the list.
pub open spec fn first_place(sessions: Seq<Session>, id: SessionId) -> int {
    choose|i: int| is_first_session(sessions, id, i)
}

/// A session that is on the list has a first place there, and only one.
pub proof fn lemma_first_place(sessions: Seq<Session>, id: SessionId)
    requires
        lists(sessions, id),
    ensures
        is_first_session(sessions, id, first_place(sessions, id)),
        forall|i: int|
            #[trigger] is_first_session(sessions, id, i) ==> i == first_place(sessions, id),
{
    let known = choose|i: int| 0 <= i < sessions.len() && (#[trigger] sessions[i]).session_id == id;
    lemma_first_place_up_to(sessions, id, known);
    let first = first_place(sessions, id);
    assert(is_first_session(sessions, id, first));
    assert forall|i: int| #[trigger] is_first_session(sessions, id, i) implies i == first by {
        if i < first {
            assert(sessions[i].session_id != id);
        }
        if first < i {
            assert(sessions[first].session_id != id);
        }
    }
}

/// A session at a place has a first place.
proof fn lemma_first_place_up_to(sessions: Seq<Session>, id: SessionId, place: int)
    requires
        0 <= place < sessions.len(),
        sessions[place].session_id == id,
    ensures
        exists|i: int| is_first_session(sessions, id, i),
    decreases place,
{
    if exists|j: int| 0 <= j < place && (#[trigger] sessions[j]).session_id == id {
        let j = choose|j: int| 0 <= j < place && (#[trigger] sessions[j]).session_id == id;
        lemma_first_place_up_to(sessions, id, j);
    } else {
        assert(is_first_session(sessions, id, place));
    }
}

/// The place of a session on the list.
fn place_of_session(sessions: &Vec<Session>, id: SessionId) -> (place: Option<usize>)
    ensures
        match place {
            Some(i) => is_first_session(sessions@, id, i as int) && i as int == first_place(
                sessions@,
                id,
            ) && lists(sessions@, id),
            None => !lists(sessions@, id),
        },
{
    let mut i: usize = 0;
    while i < sessions.len()
        invariant
            i <= sessions@.len(),
            forall|j: int| 0 <= j < i ==> (#[trigger] sessions@[j]).session_id != id,
        decreases sessions@.len() - i,
    {
        if sessions[i].session_id == id {
            proof {
                assert(is_first_session(sessions@, id, i as int));
                lemma_first_place(sessions@, id);
            }
            return Some(i);
        }
        i = i + 1;
    }
    None
}

/// The session with `timeline`, if that starts at a later beat than its own; otherwise the
/// session as it is.
pub open spec fn adopted(session: Session, timeline: Timeline) -> Session {
    if timeline.beat_origin.micro_beats > session.timeline.beat_origin.micro_beats {
        Session { timeline, ..session }
    } else {
        session
    }
}

/// The session as measured.
pub open spec fn measured(session: Session, measurement: SessionMeasurement) -> Session {
    Session { measurement, ..session }
}

/// Whether a measured session takes over from the current one. It does if its time is ahead by
/// more than the margin; if the times differ by less than the margin and its identifier is
/// smaller; and if this peer has just started and the current session has no peers.
pub open spec fn takes_over(
    session_id: SessionId,
    current: SessionId,
    lead_nanos: int,
    is_alone: bool,
    timestamp_nanos: int,
) -> bool {
    ||| lead_nanos > SESSION_EPS_NANOS
    ||| -500_000 < whole_micros(lead_nanos) < 500_000 && session_id.0.0 < current.0.0
    ||| is_alone && timestamp_nanos < JUST_STARTED_NANOS
}

/// The other sessions, the current one, and the one that was joined, after the session at
/// `place` was measured.
pub open spec fn after_measurement_at(
    others: Seq<Session>,
    current: Session,
    place: int,
    measurement: SessionMeasurement,
    lead_nanos: int,
    peers: Seq<ControllerPeer>,
) -> (Seq<Session>, Session, Option<Session>) {
    let session = measured(others[place], measurement);
    if takes_over(
        session.session_id,
        current.session_id,
        lead_nanos,
        members(peers, current.session_id).len() == 0,
        measurement.timestamp.nanos(),
    ) {
        (others.update(place, current), session, Some(session))
    } else {
        (others.update(place, session), current, None)
    }
}

/// Whether two ghost times that lie this far apart can be compared: their distance is a span,
/// and if the measured session is behind, its size can be counted in microseconds.
pub open spec fn is_lead(lead_nanos: int) -> bool {
    is_span(lead_nanos) && whole_micros(lead_nanos) > i64::MIN
}

/// Whether two ghost times can be compared.
pub fn can_compare(cur_ghost: Duration, new_ghost: Duration) -> (r: bool)
    ensures
        r == is_lead(new_ghost.nanos() - cur_ghost.nanos()),
{
    let cur = cur_ghost.parts();
    let new = new_ghost.parts();
    let lead: i128 = (new.0 as i128 - cur.0 as i128) * 1_000_000_000 + (new.1 as i128
        - cur.1 as i128);
    let limit: i128 = i64::MAX as i128 * 1_000_000;
    let lowest: i128 = i64::MIN as i128 * 1_000;
    lead <= limit && lead >= -limit && lead > lowest
}

/// Stores a measurement of the other session at `place`, and makes that session the current
/// one if it takes over. The ghost times are those of one moment of host time, in the current
/// session and in the measured one.
pub fn join_if_better(
    place: usize,
    measurement: SessionMeasurement,
    cur_ghost: Duration,
    new_ghost: Duration,
    other_sessions: &mut Vec<Session>,
    current: &mut Session,
    peers: &Vec<ControllerPeer>,
) -> (joined: Option<Session>)
    requires
        place < old(other_sessions)@.len(),
        is_lead(new_ghost.nanos() - cur_ghost.nanos()),
    ensures
        (final(other_sessions)@, *final(current), joined) == after_measurement_at(
            old(other_sessions)@,
            *old(current),
            place as int,
            measurement,
            new_ghost.nanos() - cur_ghost.nanos(),
            peers@,
        ),
{
    let mut session = other_sessions[place];
    session.measurement = measurement;
    let ghost_diff = new_ghost.minus(cur_ghost);
    let eps = Duration::microseconds(500_000);
    let sorted = session_peers(peers, current.session_id);
    proof {
        lemma_sorted_knows_the_same(sorted@, members(peers@, current.session_id));
    }
    let just_started = sorted.len() == 0 && measurement.timestamp.shorter_than(
        Duration::milliseconds(5_000),
    );
    let is_close = match ghost_diff.num_microseconds() {
        Some(micros) => -500_000 < micros && micros < 500_000,
        None => false,
    };
    let is_older = session.session_id.0.0 < current.session_id.0.0;
    let should_switch = eps.shorter_than(ghost_diff) || (is_close && is_older) || just_started;
    if should_switch {
        other_sessions.set(place, *current);
        *current = session;
        Some(session)
    } else {
        other_sessions.set(place, session);
        None
    }
}

/// What has to be told after a measurement: the session to join, and the session to measure
/// again from now on.
#[derive(Clone, Copy, Debug)]
pub struct MeasurementOutcome {
    pub joined: Option<Session>,
    pub remeasure: Option<Session>,
}

/// The outcome of a measurement that changes nothing.
pub open spec fn no_outcome() -> MeasurementOutcome {
    MeasurementOutcome { joined: None, remeasure: None }
}

/// Whether a measurement that succeeded at `timestamp` may lead from one state to the other.
/// The current session keeps its place and is joined. Another session is compared with it by
/// the ghost times that `host_to_ghost` gives for `host_time`. An unknown session is ignored.
pub open spec fn is_measured<F: Fn(GhostXForm, Duration) -> Duration>(
    session_id: SessionId,
    measurement: SessionMeasurement,
    host_time: Duration,
    host_to_ghost: F,
    peers: Seq<ControllerPeer>,
    before: (Seq<Session>, Session),
    after: (Seq<Session>, Session),
    outcome: MeasurementOutcome,
) -> bool {
    if before.1.session_id == session_id {
        let session = measured(before.1, measurement);
        &&& after == (before.0, session)
        &&& outcome == (MeasurementOutcome { joined: Some(session), remeasure: None })
    } else if lists(before.0, session_id) {
        exists|cur_ghost: Duration, new_ghost: Duration|
            {
                &&& #[trigger] host_to_ghost.ensures(
                    (before.1.measurement.x_form, host_time),
                    cur_ghost,
                )
                &&& #[trigger] host_to_ghost.ensures((measurement.x_form, host_time), new_ghost)
                &&& (after.0, after.1, outcome.joined) == after_measurement_at(
                    before.0,
                    before.1,
                    first_place(before.0, session_id),
                    measurement,
                    new_ghost.nanos() - cur_ghost.nanos(),
                    peers,
                )
                &&& outcome.remeasure == outcome.joined
            }
    } else {
        after == before && outcome == no_outcome()
    }
}

/// Whether two ghost times that `host_to_ghost` may give are close enough to be compared.
pub open spec fn comparable<F: Fn(GhostXForm, Duration) -> Duration>(
    current: GhostXForm,
    x_form: GhostXForm,
    host_time: Duration,
    host_to_ghost: F,
) -> bool {
    &&& host_to_ghost.requires((current, host_time))
    &&& host_to_ghost.requires((x_form, host_time))
    &&& forall|cur_ghost: Duration, new_ghost: Duration|
        #[trigger] host_to_ghost.ensures((current, host_time), cur_ghost)
            && #[trigger] host_to_ghost.ensures((x_form, host_time), new_ghost) ==> is_lead(
            new_ghost.nanos() - cur_ghost.nanos(),
        )
}

/// Stores a measurement that succeeded. The session is joined if it is the current one, or if
/// it takes over from it; one that takes over is measured again from then on.
pub fn handle_successful_measurement<F: Fn(GhostXForm, Duration) -> Duration>(
    session_id: SessionId,
    x_form: GhostXForm,
    other_sessions: &mut Vec<Session>,
    current: &mut Session,
    timestamp: Duration,
    host_time: Duration,
    host_to_ghost: F,
    peers: &Vec<ControllerPeer>,
) -> (outcome: MeasurementOutcome)
    requires
        old(current).session_id != session_id && lists(old(other_sessions)@, session_id)
            ==> comparable(old(current).measurement.x_form, x_form, host_time, host_to_ghost),
    ensures
        is_measured(
            session_id,
            (SessionMeasurement { x_form, timestamp }),
            host_time,
            host_to_ghost,
            peers@,
            (old(other_sessions)@, *old(current)),
            (final(other_sessions)@, *final(current)),
            outcome,
        ),
{
    let measurement = SessionMeasurement { x_form, timestamp };
    if current.session_id == session_id {
        current.measurement = measurement;
        return MeasurementOutcome { joined: Some(*current), remeasure: None };
    }
    match place_of_session(other_sessions, session_id) {
        Some(place) => {
            let cur_ghost = host_to_ghost(current.measurement.x_form, host_time);
            let new_ghost = host_to_ghost(x_form, host_time);
            let joined = join_if_better(
                place,
                measurement,
                cur_ghost,
                new_ghost,
                other_sessions,
                current,
                peers,
            );
            MeasurementOutcome { joined, remeasure: joined }
        },
        None => MeasurementOutcome { joined: None, remeasure: None },
    }
}

/// The places of the peers of a session among the first `n` on the list, in ascending order.
pub open spec fn member_places(peers: Seq<ControllerPeer>, session_id: SessionId, n: nat) -> Seq<
    int,
>
    decreases n,
{
    if n == 0 {
        Seq::empty()
    } else {
        let before = member_places(peers, session_id, (n - 1) as nat);
        if peers[n - 1].session() == session_id {
            before.push(n - 1)
        } else {
            before
        }
    }
}

/// The list after the entries at the first `n` of `places` were removed one after the other.
/// Each removal moves up what follows; the places are not adjusted to that.
pub open spec fn removed_in_turn(peers: Seq<ControllerPeer>, places: Seq<int>, n: nat) -> Seq<
    ControllerPeer,
>
    decreases n,
{
    if n == 0 {
        peers
    } else {
        removed_in_turn(peers, places, (n - 1) as nat).remove(places[n - 1])
    }
}

/// Whether each place is still on the list when its turn comes.
pub open spec fn places_last(peers: Seq<ControllerPeer>, places: Seq<int>) -> bool {
    forall|k: int| 0 <= k < places.len() ==> (#[trigger] places[k]) < peers.len() - k
}

/// The places of the peers of a session.
fn find_member_places(peers: &Vec<ControllerPeer>, session_id: SessionId) -> (places: Vec<usize>)
    ensures
        places@.len() == member_places(peers@, session_id, peers@.len()).len(),
        forall|k: int|
            0 <= k < places@.len() ==> (#[trigger] places@[k]) as int == member_places(
                peers@,
                session_id,
                peers@.len(),
            )[k],
{
    let mut places: Vec<usize> = Vec::new();
    let mut i: usize = 0;
    while i < peers.len()
        invariant
            i <= peers@.len(),
            places@.len() == member_places(peers@, session_id, i as nat).len(),
            forall|k: int|
                0 <= k < places@.len() ==> (#[trigger] places@[k]) as int == member_places(
                    peers@,
                    session_id,
                    i as nat,
                )[k],
        decreases peers@.len() - i,
    {
        if peers[i].peer_state.session_id() == session_id {
            places.push(i);
        }
        i = i + 1;
    }
    places
}

/// Whether the peers of a session can be removed in turn.
pub fn can_remove_members(peers: &Vec<ControllerPeer>, session_id: SessionId) -> (r: bool)
    ensures
        r == places_last(peers@, member_places(peers@, session_id, peers@.len())),
{
    let places = find_member_places(peers, session_id);
    let ghost all = member_places(peers@, session_id, peers@.len());
    let mut k: usize = 0;
    while k < places.len()
        invariant
            k <= places@.len(),
            all == member_places(peers@, session_id, peers@.len()),
            places@.len() == all.len(),
            forall|j: int| 0 <= j < places@.len() ==> (#[trigger] places@[j]) as int == all[j],
            forall|j: int| 0 <= j < k ==> (#[trigger] all[j]) < peers@.len() - j,
        decreases places@.len() - k,
    {
        if k >= peers.len() || places[k] >= peers.len() - k {
            assert(places@[k as int] as int == all[k as int]);
            assert(all[k as int] >= peers@.len() - k);
            return false;
        }
        assert(places@[k as int] as int == all[k as int]);
        k = k + 1;
    }
    true
}

/// Whether `i` is the first place of a session other than `id`.
pub open spec fn is_first_stranger(sessions: Seq<Session>, id: SessionId, i: int) -> bool {
    &&& 0 <= i < sessions.len()
    &&& sessions[i].session_id != id
    &&& forall|j: int| 0 <= j < i ==> (#[trigger] sessions[j]).session_id == id
}

/// Whether all sessions on the list are `id`.
pub open spec fn lists_only(sessions: Seq<Session>, id: SessionId) -> bool {
    forall|i: int| 0 <= i < sessions.len() ==> (#[trigger] sessions[i]).session_id == id
}

/// The other sessions and the peers after a measurement of a session that is not the current
/// one failed: the first session other than the failed one is removed, and with it the
/// entries at the places of the failed session's peers.
pub open spec fn after_failure(
    others: Seq<Session>,
    peers: Seq<ControllerPeer>,
    session_id: SessionId,
) -> (Seq<Session>, Seq<ControllerPeer>) {
    if lists_only(others, session_id) {
        (others, peers)
    } else {
        let places = member_places(peers, session_id, peers.len());
        (
            others.remove(choose|i: int| is_first_stranger(others, session_id, i)),
            removed_in_turn(peers, places, places.len()),
        )
    }
}

/// Handles a measurement that failed. The current session is returned to be measured again
/// and stays as it is.
pub fn handle_failed_measurement(
    session_id: SessionId,
    other_sessions: &mut Vec<Session>,
    current: &Session,
    peers: &mut Vec<ControllerPeer>,
) -> (remeasure: Option<Session>)
    requires
        current.session_id != session_id && !lists_only(old(other_sessions)@, session_id)
            ==> places_last(old(peers)@, member_places(old(peers)@, session_id, old(peers)@.len())),
    ensures
        remeasure == if current.session_id == session_id {
            Some(*current)
        } else {
            None
        },
        (final(other_sessions)@, final(peers)@) == if current.session_id == session_id {
            (old(other_sessions)@, old(peers)@)
        } else {
            after_failure(old(other_sessions)@, old(peers)@, session_id)
        },
{
    if current.session_id == session_id {
        return Some(*current);
    }
    let ghost others = other_sessions@;
    let ghost all_peers = peers@;
    let mut i: usize = 0;
    while i < other_sessions.len()
        invariant
            i <= other_sessions@.len(),
            other_sessions@ == others,
            peers@ == all_peers,
            current.session_id != session_id,
            forall|j: int| 0 <= j < i ==> (#[trigger] others[j]).session_id == session_id,
            !lists_only(others, session_id) ==> places_last(
                all_peers,
                member_places(all_peers, session_id, all_peers.len()),
            ),
            others == old(other_sessions)@,
            all_peers == old(peers)@,
        decreases other_sessions@.len() - i,
    {
        if other_sessions[i].session_id != session_id {
            proof {
                let first = choose|k: int| is_first_stranger(others, session_id, k);
                assert(is_first_stranger(others, session_id, i as int));
                assert(is_first_stranger(others, session_id, first));
                assert(first == i);
                assert(!lists_only(others, session_id));
            }
            other_sessions.remove(i);
            let places = find_member_places(peers, session_id);
            let ghost all = member_places(all_peers, session_id, all_peers.len());
            let mut k: usize = 0;
            while k < places.len()
                invariant
                    k <= places@.len(),
                    places@.len() == all.len(),
                    forall|j: int|
                        0 <= j < places@.len() ==> (#[trigger] places@[j]) as int == all[j],
                    places_last(all_peers, all),
                    peers@ == removed_in_turn(all_peers, all, k as nat),
                    peers@.len() == all_peers.len() - k,
                decreases places@.len() - k,
            {
                assert(places@[k as int] as int == all[k as int]);
                assert(all[k as int] < all_peers.len() - k);
                peers.remove(places[k]);
                k = k + 1;
            }
            return None;
        }
        i = i + 1;
    }
    None
}

/// The current session and the other sessions that were seen.
#[derive(Debug)]
pub struct Sessions {
    pub other_sessions: Vec<Session>,
    pub current: Session,
    pub is_founding: bool,
    pub has_joined: bool,
}

/// The request to measure a session by one of its peers, if it has any.
pub open spec fn measurement_request(peers: Seq<ControllerPeer>, session_id: SessionId) -> Option<
    MeasurePeerEvent,
> {
    match measured_by(peers, session_id) {
        Some(peer) => Some(MeasurePeerEvent::PeerState(session_id, peer)),
        None => None,
    }
}

/// The other sessions after the entry that the session `id` has among them got a new timeline.
pub open spec fn with_reset_timeline(
    others: Seq<Session>,
    id: SessionId,
    timeline: Timeline,
) -> Seq<Session> {
    if lists(others, id) {
        let place = first_place(others, id);
        others.update(place, Session { timeline, ..others[place] })
    } else {
        others
    }
}

/// The other sessions, the current one, whether it was joined, and the measurement that is asked
/// for, after the timeline of a session was seen.
pub open spec fn after_timeline(
    others: Seq<Session>,
    current: Session,
    has_joined: bool,
    session_id: SessionId,
    timeline: Timeline,
    peers: Seq<ControllerPeer>,
) -> (Seq<Session>, Session, bool, Option<MeasurePeerEvent>) {
    if current.session_id == session_id {
        (others, adopted(current, timeline), true, None)
    } else if lists(others, session_id) {
        let place = first_place(others, session_id);
        (others.update(place, adopted(others[place], timeline)), current, has_joined, None)
    } else {
        let session = Session { session_id, timeline, measurement: no_measurement() };
        (others.push(session), current, has_joined, measurement_request(peers, session_id))
    }
}

/// Whether an event that came in at `timestamp` may lead from one state to the other: from other
/// sessions, current session and peers to the same afterwards, with an outcome.
pub open spec fn is_handled<F: Fn(GhostXForm, Duration) -> Duration>(
    event: MeasurePeerEvent,
    timestamp: Duration,
    host_time: Duration,
    host_to_ghost: F,
    before: (Seq<Session>, Session, Seq<ControllerPeer>),
    after: (Seq<Session>, Session, Seq<ControllerPeer>),
    outcome: MeasurementOutcome,
) -> bool {
    match event {
        MeasurePeerEvent::PeerState(_, _) => after == before && outcome == no_outcome(),
        MeasurePeerEvent::XForm(session_id, x_form) => if !same_x_form(x_form, no_x_form()) {
            &&& after.2 == before.2
            &&& is_measured(
                session_id,
                SessionMeasurement { x_form, timestamp },
                host_time,
                host_to_ghost,
                before.2,
                (before.0, before.1),
                (after.0, after.1),
                outcome,
            )
        } else if before.1.session_id == session_id {
            &&& after == before
            &&& outcome == (MeasurementOutcome { joined: None, remeasure: Some(before.1) })
        } else {
            &&& after.1 == before.1
            &&& (after.0, after.2) == after_failure(before.0, before.2, session_id)
            &&& outcome == no_outcome()
        },
    }
}

impl Sessions {
    /// Whether a measurement of the session `id` that succeeded is compared with the current
    /// session: whether `id` is another session that was seen.
    pub open spec fn compares(self, id: SessionId) -> bool {
        self.current.session_id != id && lists(self.other_sessions@, id)
    }

    /// Whether a failed measurement of the session `id` can be handled: whether the places of
    /// its peers can be removed in turn, where they are removed at all.
    pub open spec fn can_fail(self, id: SessionId, peers: Seq<ControllerPeer>) -> bool {
        self.current.session_id != id && !lists_only(self.other_sessions@, id) ==> places_last(
            peers,
            member_places(peers, id, peers.len()),
        )
    }

    /// Whether a measurement of a session that succeeded is compared with the current session.
    pub fn is_compared(&self, session_id: SessionId) -> (r: bool)
        ensures
            r == self.compares(session_id),
    {
        self.current.session_id != session_id && place_of_session(
            &self.other_sessions,
            session_id,
        ).is_some()
    }

    /// Whether a failed measurement of a session can be handled.
    pub fn is_failure_handled(&self, session_id: SessionId, peers: &Vec<ControllerPeer>) -> (r:
        bool)
        ensures
            r == self.can_fail(session_id, peers@),
    {
        if self.current.session_id == session_id {
            return true;
        }
        let mut i: usize = 0;
        while i < self.other_sessions.len()
            invariant
                i <= self.other_sessions@.len(),
                self.current.session_id != session_id,
                forall|j: int|
                    0 <= j < i ==> (#[trigger] self.other_sessions@[j]).session_id == session_id,
            decreases self.other_sessions@.len() - i,
        {
            if self.other_sessions[i].session_id != session_id {
                assert(!lists_only(self.other_sessions@, session_id));
                return can_remove_members(peers, session_id);
            }
            i = i + 1;
        }
        true
    }

    /// Starts in the session `init`, which is also the first of the other sessions.
    pub fn new(init: Session) -> (sessions: Sessions)
        ensures
            sessions.other_sessions@ == seq![init],
            sessions.current == init,
            !sessions.is_founding,
            !sessions.has_joined,
    {
        Sessions {
            other_sessions: vec![init],
            current: init,
            is_founding: false,
            has_joined: false,
        }
    }

    /// Makes `session` the current one and forgets all others.
    pub fn reset_session(&mut self, session: Session)
        ensures
            final(self).current == session,
            final(self).other_sessions@ == Seq::<Session>::empty(),
            final(self).is_founding == old(self).is_founding,
            final(self).has_joined == old(self).has_joined,
    {
        self.current = session;
        self.other_sessions.clear();
    }

    /// Gives the entry that the current session has among the others a new timeline. The
    /// current session itself keeps its own.
    pub fn reset_timeline(&mut self, timeline: Timeline)
        ensures
            final(self).current == old(self).current,
            final(self).is_founding == old(self).is_founding,
            final(self).has_joined == old(self).has_joined,
            final(self).other_sessions@ == with_reset_timeline(
                old(self).other_sessions@,
                old(self).current.session_id,
                timeline,
            ),
    {
        match place_of_session(&self.other_sessions, self.current.session_id) {
            Some(place) => {
                let mut session = self.other_sessions[place];
                session.timeline = timeline;
                self.other_sessions.set(place, session);
            },
            None => {},
        }
    }

    /// The session with the new timeline, if that starts at a later beat.
    pub fn update_timeline(&self, session: Session, timeline: Timeline) -> (updated: Session)
        ensures
            updated == adopted(session, timeline),
    {
        let mut session = session;
        if timeline.beat_origin.micro_beats > session.timeline.beat_origin.micro_beats {
            session.timeline = timeline;
        }
        session
    }

    /// Takes note of the timeline of a session, and returns that of the current session. A
    /// session that was not seen before is added, and the request to measure it is returned.
    pub fn saw_session_timeline(
        &mut self,
        session_id: SessionId,
        timeline: Timeline,
        peers: &Vec<ControllerPeer>,
    ) -> (seen: (Timeline, Option<MeasurePeerEvent>))
        ensures
            seen.0 == final(self).current.timeline,
            final(self).is_founding == old(self).is_founding,
            (
                final(self).other_sessions@,
                final(self).current,
                final(self).has_joined,
                seen.1,
            ) == after_timeline(
                old(self).other_sessions@,
                old(self).current,
                old(self).has_joined,
                session_id,
                timeline,
                peers@,
            ),
    {
        let mut request: Option<MeasurePeerEvent> = None;
        if self.current.session_id == session_id {
            self.current = self.update_timeline(self.current, timeline);
            self.has_joined = true;
        } else {
            match place_of_session(&self.other_sessions, session_id) {
                Some(place) => {
                    let session = self.update_timeline(self.other_sessions[place], timeline);
                    self.other_sessions.set(place, session);
                },
                None => {
                    let session = Session {
                        session_id,
                        timeline,
                        measurement: SessionMeasurement::default(),
                    };
                    self.other_sessions.push(session);
                    request = launch_session_measurement(peers, &session);
                },
            }
        }
        (self.current.timeline, request)
    }

    /// Handles the result of a measurement that came in at `timestamp`. The transform that
    /// stands for no transform tells of a failure. A request is no result and changes nothing.
    pub fn on_measurement<F: Fn(GhostXForm, Duration) -> Duration>(
        &mut self,
        event: MeasurePeerEvent,
        timestamp: Duration,
        host_time: Duration,
        host_to_ghost: F,
        peers: &mut Vec<ControllerPeer>,
    ) -> (outcome: MeasurementOutcome)
        requires
            event matches MeasurePeerEvent::XForm(session_id, x_form) ==> if same_x_form(
                x_form,
                no_x_form(),
            ) {
                old(self).can_fail(session_id, old(peers)@)
            } else {
                old(self).compares(session_id) ==> comparable(
                    old(self).current.measurement.x_form,
                    x_form,
                    host_time,
                    host_to_ghost,
                )
            },
        ensures
            final(self).is_founding == old(self).is_founding,
            final(self).has_joined == old(self).has_joined,
            is_handled(
                event,
                timestamp,
                host_time,
                host_to_ghost,
                (old(self).other_sessions@, old(self).current, old(peers)@),
                (final(self).other_sessions@, final(self).current, final(peers)@),
                outcome,
            ),
    {
        match event {
            MeasurePeerEvent::PeerState(_, _) => MeasurementOutcome {
                joined: None,
                remeasure: None,
            },
            MeasurePeerEvent::XForm(session_id, x_form) => {
                if x_form == GhostXForm::default() {
                    let remeasure = handle_failed_measurement(
                        session_id,
                        &mut self.other_sessions,
                        &self.current,
                        peers,
                    );
                    MeasurementOutcome { joined: None, remeasure }
                } else {
                    handle_successful_measurement(
                        session_id,
                        x_form,
                        &mut self.other_sessions,
                        &mut self.current,
                        timestamp,
                        host_time,
                        host_to_ghost,
                        peers,
                    )
                }
            },
        }
    }
}

/// A session never goes back to an earlier beat, and seeing a timeline again changes nothing.
pub proof fn law_beat_origin_never_goes_back(session: Session, timeline: Timeline)
    ensures
        ({
            let after = adopted(session, timeline);
            &&& after.timeline.beat_origin.micro_beats >= session.timeline.beat_origin.micro_beats
            &&& after.timeline.beat_origin.micro_beats >= timeline.beat_origin.micro_beats
            &&& after.session_id == session.session_id
            &&& after.measurement == session.measurement
            &&& adopted(after, timeline) == after
        }),
{
}

/// Whatever the order in which two timelines are seen, the session ends at the same beat
/// origin.
pub proof fn law_order_of_timelines_does_not_matter(session: Session, a: Timeline, b: Timeline)
    ensures
        adopted(adopted(session, a), b).timeline.beat_origin == adopted(
            adopted(session, b),
            a,
        ).timeline.beat_origin,
{
}

/// Two sessions that are compared with each other do not both take over, so that two peers
/// that measure each other end up in one session. (A peer that has just started and has no
/// company gives way in any case.)
pub proof fn law_only_one_session_takes_over(
    a: SessionId,
    b: SessionId,
    lead_nanos: int,
    timestamp_a: int,
    timestamp_b: int,
    is_alone_a: bool,
    is_alone_b: bool,
)
    requires
        !(is_alone_a && timestamp_a < JUST_STARTED_NANOS),
        !(is_alone_b && timestamp_b < JUST_STARTED_NANOS),
        takes_over(a, b, lead_nanos, is_alone_b, timestamp_b),
    ensures
        !takes_over(b, a, -lead_nanos, is_alone_a, timestamp_a),
{
}

/// A measurement keeps the number of sessions and their identifiers: the one that takes over
/// changes places with the current one.
pub proof fn law_measurement_loses_no_session(
    others: Seq<Session>,
    current: Session,
    place: int,
    measurement: SessionMeasurement,
    lead_nanos: int,
    peers: Seq<ControllerPeer>,
)
    requires
        0 <= place < others.len(),
    ensures
        ({
            let (others_after, current_after, joined) = after_measurement_at(
                others,
                current,
                place,
                measurement,
                lead_nanos,
                peers,
            );
            &&& others_after.len() == others.len()
            &&& forall|i: int|
                0 <= i < others.len() && i != place ==> #[trigger] others_after[i] == others[i]
            &&& joined is Some ==> others_after[place] == current && current_after == measured(
                others[place],
                measurement,
            ) && joined == Some(current_after)
            &&& joined is None ==> current_after == current && others_after[place] == measured(
                others[place],
                measurement,
            )
        }),
{
}

/// Where a session has one peer, a failed measurement takes exactly that peer off the list.
pub proof fn law_only_peer_of_failed_session_is_removed(
    others: Seq<Session>,
    peers: Seq<ControllerPeer>,
    session_id: SessionId,
    place: int,
)
    requires
        !lists_only(others, session_id),
        0 <= place < peers.len(),
        forall|i: int|
            0 <= i < peers.len() ==> ((#[trigger] peers[i]).session() == session_id <==> i
                == place),
    ensures
        places_last(peers, member_places(peers, session_id, peers.len())),
        after_failure(others, peers, session_id).1 == peers.remove(place),
{
    lemma_only_place(peers, session_id, place, peers.len());
    let places = member_places(peers, session_id, peers.len());
    reveal_with_fuel(removed_in_turn, 2);
    assert(places[0] == place);
}

/// The places of the peers of a session that has one peer.
proof fn lemma_only_place(
    peers: Seq<ControllerPeer>,
    session_id: SessionId,
    place: int,
    n: nat,
)
    requires
        0 <= place < peers.len(),
        n <= peers.len(),
        forall|i: int|
            0 <= i < peers.len() ==> ((#[trigger] peers[i]).session() == session_id <==> i
                == place),
    ensures
        member_places(peers, session_id, n) == if place < n {
            seq![place]
        } else {
            Seq::empty()
        },
    decreases n,
{
    if n > 0 {
        lemma_only_place(peers, session_id, place, (n - 1) as nat);
        assert(peers[n - 1].session() == session_id <==> n - 1 == place);
    }
}

} // verus!
