//! The peers that are known, and what changes when one is seen or leaves.

use vstd::prelude::*;

use crate::link::node::{NodeId, NodeState};
use crate::link::payload::SocketAddrV4;
use crate::link::sessions::SessionId;
use crate::link::state::StartStopState;
use crate::link::timeline::{same_timeline, Timeline};
use crate::seq_facts::{
    lemma_filter_keeps_all, lemma_filter_keeps_pairs, lemma_filter_members, lemma_filter_shortens,
    lemma_filter_step,
};

verus! {

/// A peer's message about itself, with the seconds for which it holds.
#[derive(Clone, Copy, Debug)]
pub struct PeerStateMessageType {
    pub node_state: NodeState,
    pub ttl: u8,
    pub measurement_endpoint: Option<SocketAddrV4>,
}

/// What happened to a peer.
#[derive(Clone, Copy, Debug)]
pub enum PeerEvent {
    SawPeer(PeerState),
    PeerLeft(NodeId),
    PeerTimedOut(NodeId),
}

/// A peer: what it tells of itself, and where it answers measurements.
#[derive(Clone, Copy, Debug, PartialEq)]
pub struct PeerState {
    pub node_state: NodeState,
    pub measurement_endpoint: Option<SocketAddrV4>,
}

impl PeerState {
    /// The identifier of the peer.
    pub fn ident(&self) -> (id: NodeId)
        ensures
            id == self.node_state.node_id,
    {
        self.node_state.ident()
    }

    /// The session that the peer belongs to.
    pub fn session_id(&self) -> (id: SessionId)
        ensures
            id == self.node_state.session_id,
    {
        self.node_state.session_id
    }

    /// The timeline of the peer.
    pub fn timeline(&self) -> (timeline: Timeline)
        ensures
            timeline == self.node_state.timeline,
    {
        self.node_state.timeline
    }

    /// The start and stop state of the peer.
    pub fn start_stop_state(&self) -> (state: StartStopState)
        ensures
            state == self.node_state.start_stop_state,
    {
        self.node_state.start_stop_state
    }
}

/// A peer on the list.
#[derive(Clone, Copy, Debug, PartialEq)]
pub struct ControllerPeer {
    pub peer_state: PeerState,
}

impl ControllerPeer {
    /// The identifier of the peer.
    pub open spec fn id(self) -> NodeId {
        self.peer_state.node_state.node_id
    }

    /// The session that the peer belongs to.
    pub open spec fn session(self) -> SessionId {
        self.peer_state.node_state.session_id
    }
}

/// A change that the controller has to hear of.
#[derive(Clone, Copy, Debug)]
pub enum PeerStateChange {
    SessionMembership,
    SessionTimeline(SessionId, Timeline),
    SessionStartStopState(SessionId, StartStopState),
    PeerLeft,
}

/// Whether `i` is the first place of the peer `id` on the list.
pub open spec fn is_first_place(peers: Seq<ControllerPeer>, id: NodeId, i: int) -> bool {
    &&& 0 <= i < peers.len()
    &&& peers[i].id() == id
    &&& forall|j: int| 0 <= j < i ==> (#[trigger] peers[j]).id() != id
}

/// Whether the peer `id` is on the list.
pub open spec fn knows(peers: Seq<ControllerPeer>, id: NodeId) -> bool {
    exists|i: int| 0 <= i < peers.len() && (#[trigger] peers[i]).id() == id
}

/// The list after `seen` was seen: its first entry replaced, or a new entry at the end.
pub open spec fn list_after(peers: Seq<ControllerPeer>, seen: PeerState) -> Seq<ControllerPeer> {
    let id = seen.node_state.node_id;
    if knows(peers, id) {
        peers.update(choose|i: int| is_first_place(peers, id, i), ControllerPeer { peer_state: seen })
    } else {
        peers.push(ControllerPeer { peer_state: seen })
    }
}

/// Whether no peer of the session of `seen` has its timeline yet.
pub open spec fn is_new_timeline(peers: Seq<ControllerPeer>, seen: PeerState) -> bool {
    forall|i: int|
        0 <= i < peers.len() ==> !((#[trigger] peers[i]).session() == seen.node_state.session_id
            && same_timeline(peers[i].peer_state.node_state.timeline, seen.node_state.timeline))
}

/// Whether no peer has the start and stop state of `seen` yet.
pub open spec fn is_new_start_stop_state(peers: Seq<ControllerPeer>, seen: PeerState) -> bool {
    forall|i: int|
        0 <= i < peers.len() ==> (#[trigger] peers[i]).peer_state.node_state.start_stop_state
            != seen.node_state.start_stop_state
}

/// Whether `seen` is a new peer, or one that was in another session before.
pub open spec fn changes_membership(peers: Seq<ControllerPeer>, seen: PeerState) -> bool {
    let id = seen.node_state.node_id;
    knows(peers, id) ==> peers[choose|i: int| is_first_place(peers, id, i)].session()
        != seen.node_state.session_id
}

/// What the controller has to hear of when `seen` is seen.
pub open spec fn changes_after(peers: Seq<ControllerPeer>, seen: PeerState) -> Seq<
    PeerStateChange,
> {
    let session = seen.node_state.session_id;
    let timeline = if is_new_timeline(peers, seen) {
        seq![PeerStateChange::SessionTimeline(session, seen.node_state.timeline)]
    } else {
        seq![]
    };
    let start_stop_state = if is_new_start_stop_state(peers, seen) {
        seq![PeerStateChange::SessionStartStopState(session, seen.node_state.start_stop_state)]
    } else {
        seq![]
    };
    let membership = if changes_membership(peers, seen) {
        seq![PeerStateChange::SessionMembership]
    } else {
        seq![]
    };
    timeline + start_stop_state + membership
}

/// The list after `seen` was seen, and what the controller has to hear of. A peer takes no note
/// of itself.
pub open spec fn after_seeing(
    peers: Seq<ControllerPeer>,
    seen: PeerState,
    self_ident: NodeId,
) -> (Seq<ControllerPeer>, Seq<PeerStateChange>) {
    if seen.node_state.node_id == self_ident {
        (peers, seq![])
    } else {
        (list_after(peers, seen), changes_after(peers, seen))
    }
}

/// The place of a peer on the list.
fn place_of(peers: &Vec<ControllerPeer>, id: NodeId) -> (place: Option<usize>)
    ensures
        match place {
            Some(i) => is_first_place(peers@, id, i as int),
            None => !knows(peers@, id),
        },
{
    let mut i: usize = 0;
    while i < peers.len()
        invariant
            i <= peers@.len(),
            forall|j: int| 0 <= j < i ==> (#[trigger] peers@[j]).id() != id,
        decreases peers@.len() - i,
    {
        if peers[i].peer_state.ident() == id {
            return Some(i);
        }
        i = i + 1;
    }
    None
}

/// Whether no peer of the session of `seen` has its timeline yet.
fn new_timeline(peers: &Vec<ControllerPeer>, seen: &PeerState) -> (r: bool)
    ensures
        r == is_new_timeline(peers@, *seen),
{
    let mut i: usize = 0;
    while i < peers.len()
        invariant
            i <= peers@.len(),
            forall|j: int|
                0 <= j < i ==> !((#[trigger] peers@[j]).session() == seen.node_state.session_id
                    && same_timeline(
                    peers@[j].peer_state.node_state.timeline,
                    seen.node_state.timeline,
                )),
        decreases peers@.len() - i,
    {
        if peers[i].peer_state.session_id() == seen.session_id() && peers[i].peer_state.timeline()
            == seen.timeline() {
            return false;
        }
        i = i + 1;
    }
    true
}

/// Whether no peer has the start and stop state of `seen` yet.
fn new_start_stop_state(peers: &Vec<ControllerPeer>, seen: &PeerState) -> (r: bool)
    ensures
        r == is_new_start_stop_state(peers@, *seen),
{
    let mut i: usize = 0;
    while i < peers.len()
        invariant
            i <= peers@.len(),
            forall|j: int|
                0 <= j < i ==> (#[trigger] peers@[j]).peer_state.node_state.start_stop_state
                    != seen.node_state.start_stop_state,
        decreases peers@.len() - i,
    {
        if peers[i].peer_state.start_stop_state() == seen.start_stop_state() {
            return false;
        }
        i = i + 1;
    }
    true
}

/// Puts a peer that was seen on the list, and returns what the controller has to hear of. A
/// peer never puts itself on its list.
pub fn saw_peer(
    peer_seen_peer_state: PeerState,
    peers: &mut Vec<ControllerPeer>,
    self_ident: NodeId,
) -> (changes: Vec<PeerStateChange>)
    ensures
        (final(peers)@, changes@) == after_seeing(old(peers)@, peer_seen_peer_state, self_ident),
{
    let seen = peer_seen_peer_state;
    let mut changes: Vec<PeerStateChange> = Vec::new();
    if seen.ident() == self_ident {
        assert(changes@ =~= seq![]);
        return changes;
    }
    let is_new_timeline = new_timeline(peers, &seen);
    let is_new_start_stop_state = new_start_stop_state(peers, &seen);
    let place = place_of(peers, seen.ident());
    let peer = ControllerPeer { peer_state: seen };
    let did_session_membership_change = match place {
        Some(i) => {
            proof {
                let id = seen.node_state.node_id;
                let first = choose|k: int| is_first_place(peers@, id, k);
                assert(is_first_place(peers@, id, i as int));
                assert(first == i);
            }
            let old_session_id = peers[i].peer_state.session_id();
            peers.set(i, peer);
            old_session_id != seen.session_id()
        },
        None => {
            peers.push(peer);
            true
        },
    };
    if is_new_timeline {
        changes.push(PeerStateChange::SessionTimeline(seen.session_id(), seen.timeline()));
    }
    if is_new_start_stop_state {
        changes.push(
            PeerStateChange::SessionStartStopState(seen.session_id(), seen.start_stop_state()),
        );
    }
    if did_session_membership_change {
        changes.push(PeerStateChange::SessionMembership);
    }
    assert(changes@ =~= changes_after(old(peers)@, seen));
    changes
}

/// The list without the peer `id`.
pub open spec fn without(peers: Seq<ControllerPeer>, id: NodeId) -> Seq<ControllerPeer> {
    peers.filter(|p: ControllerPeer| p.id() != id)
}

/// The list after the peer `id` left, and what the controller has to hear of.
pub open spec fn after_leaving(peers: Seq<ControllerPeer>, id: NodeId) -> (
    Seq<ControllerPeer>,
    Seq<PeerStateChange>,
) {
    (
        without(peers, id),
        if knows(peers, id) {
            seq![PeerStateChange::PeerLeft]
        } else {
            seq![]
        },
    )
}

/// Takes a peer that left off the list, and tells the controller if it was on it.
pub fn peer_left(node_id: NodeId, peers: &mut Vec<ControllerPeer>) -> (changes: Vec<
    PeerStateChange,
>)
    ensures
        (final(peers)@, changes@) == after_leaving(old(peers)@, node_id),
{
    let ghost before = peers@;
    let ghost keep = |p: ControllerPeer| p.id() != node_id;
    let mut kept: Vec<ControllerPeer> = Vec::new();
    let mut did_session_membership_change = false;
    let mut i: usize = 0;
    while i < peers.len()
        invariant
            i <= peers@.len(),
            peers@ == before,
            keep == (|p: ControllerPeer| p.id() != node_id),
            kept@ == before.take(i as int).filter(keep),
            did_session_membership_change == exists|j: int|
                0 <= j < i && (#[trigger] before[j]).id() == node_id,
        decreases peers@.len() - i,
    {
        proof {
            lemma_filter_step(before, i as int, keep);
        }
        let peer = peers[i];
        if peer.peer_state.ident() == node_id {
            did_session_membership_change = true;
            assert(before[i as int].id() == node_id);
        } else {
            kept.push(peer);
        }
        i = i + 1;
    }
    assert(before.take(i as int) =~= before);
    *peers = kept;
    let mut changes: Vec<PeerStateChange> = Vec::new();
    if did_session_membership_change {
        changes.push(PeerStateChange::PeerLeft);
    }
    assert(changes@ =~= if knows(before, node_id) {
        seq![PeerStateChange::PeerLeft]
    } else {
        seq![]
    });
    changes
}

/// The peers of a session other than oneself, in the order of the list.
pub open spec fn others_in_session(
    peers: Seq<ControllerPeer>,
    session_id: SessionId,
    self_node_id: NodeId,
) -> Seq<ControllerPeer> {
    peers.filter(|p: ControllerPeer| p.session() == session_id && p.id() != self_node_id)
}

/// The number of runs of neighbours with one identifier.
pub open spec fn runs(peers: Seq<ControllerPeer>) -> nat
    decreases peers.len(),
{
    if peers.len() == 0 {
        0
    } else {
        runs(peers.drop_last()) + if peers.len() == 1 || peers[peers.len() - 2].id()
            != peers.last().id() {
            1nat
        } else {
            0nat
        }
    }
}

/// Counts the peers of a session other than oneself; neighbours with one identifier count
/// once.
pub fn unique_session_peer_count(
    session_id: SessionId,
    peers: &Vec<ControllerPeer>,
    self_node_id: NodeId,
) -> (count: usize)
    ensures
        count == runs(others_in_session(peers@, session_id, self_node_id)),
{
    let ghost keep = |p: ControllerPeer| p.session() == session_id && p.id() != self_node_id;
    let mut count: usize = 0;
    let mut last: Option<NodeId> = None;
    let mut i: usize = 0;
    while i < peers.len()
        invariant
            i <= peers@.len(),
            keep == (|p: ControllerPeer| p.session() == session_id && p.id() != self_node_id),
            count <= i,
            ({
                let found = peers@.take(i as int).filter(keep);
                &&& count == runs(found)
                &&& last == if found.len() == 0 {
                    None
                } else {
                    Some(found.last().id())
                }
            }),
        decreases peers@.len() - i,
    {
        proof {
            lemma_filter_step(peers@, i as int, keep);
        }
        let ghost found = peers@.take(i as int).filter(keep);
        let peer = &peers[i];
        if peer.peer_state.session_id() == session_id && peer.peer_state.ident() != self_node_id {
            let id = peer.peer_state.ident();
            let is_duplicate = match last {
                Some(previous) => previous == id,
                None => false,
            };
            if !is_duplicate {
                count = count + 1;
            }
            last = Some(id);
            proof {
                let more = found.push(peers@[i as int]);
                assert(more.drop_last() =~= found);
            }
        }
        i = i + 1;
    }
    assert(peers@.take(i as int) =~= peers@);
    count
}

/// `peer` with the timeline of its session replaced, if it belongs to that session.
pub open spec fn with_session_timeline(
    peer: ControllerPeer,
    session_id: SessionId,
    timeline: Timeline,
) -> ControllerPeer {
    if peer.session() == session_id {
        ControllerPeer {
            peer_state: PeerState {
                node_state: NodeState { timeline, ..peer.peer_state.node_state },
                ..peer.peer_state
            },
        }
    } else {
        peer
    }
}

/// The list with one timeline for all peers of a session.
pub open spec fn with_one_timeline(
    peers: Seq<ControllerPeer>,
    session_id: SessionId,
    timeline: Timeline,
) -> Seq<ControllerPeer> {
    peers.map_values(|p: ControllerPeer| with_session_timeline(p, session_id, timeline))
}

/// The list without the peers of a session.
pub open spec fn without_session(peers: Seq<ControllerPeer>, session_id: SessionId) -> Seq<
    ControllerPeer,
> {
    peers.filter(|p: ControllerPeer| p.session() != session_id)
}

/// The list after something happened to a peer, and what the controller has to hear of.
pub open spec fn after_event(peers: Seq<ControllerPeer>, event: PeerEvent, self_ident: NodeId) -> (
    Seq<ControllerPeer>,
    Seq<PeerStateChange>,
) {
    match event {
        PeerEvent::SawPeer(seen) => after_seeing(peers, seen, self_ident),
        PeerEvent::PeerLeft(id) => after_leaving(peers, id),
        PeerEvent::PeerTimedOut(id) => after_leaving(peers, id),
    }
}

/// Keeps the list of peers up to date.
pub struct GatewayObserver {
    pub peers: Vec<ControllerPeer>,
}

impl GatewayObserver {
    /// An observer of the given peers.
    pub fn new(peers: Vec<ControllerPeer>) -> (o: GatewayObserver)
        ensures
            o.peers@ == peers@,
    {
        GatewayObserver { peers }
    }

    /// Takes note of what happened to a peer, and returns what the controller has to hear of.
    pub fn on_peer_event(&mut self, event: PeerEvent, self_ident: NodeId) -> (changes: Vec<
        PeerStateChange,
    >)
        ensures
            (final(self).peers@, changes@) == after_event(old(self).peers@, event, self_ident),
    {
        match event {
            PeerEvent::SawPeer(seen) => saw_peer(seen, &mut self.peers, self_ident),
            PeerEvent::PeerLeft(id) => peer_left(id, &mut self.peers),
            PeerEvent::PeerTimedOut(id) => peer_left(id, &mut self.peers),
        }
    }

    /// Gives all peers of a session the same timeline.
    pub fn set_session_timeline(&mut self, session_id: SessionId, timeline: Timeline)
        ensures
            final(self).peers@ == with_one_timeline(old(self).peers@, session_id, timeline),
    {
        let ghost before = self.peers@;
        let mut i: usize = 0;
        while i < self.peers.len()
            invariant
                i <= self.peers@.len(),
                self.peers@.len() == before.len(),
                forall|j: int|
                    0 <= j < i ==> #[trigger] self.peers@[j] == with_session_timeline(
                        before[j],
                        session_id,
                        timeline,
                    ),
                forall|j: int| i <= j < before.len() ==> #[trigger] self.peers@[j] == before[j],
            decreases self.peers@.len() - i,
        {
            let mut peer = self.peers[i];
            if peer.peer_state.session_id() == session_id {
                peer.peer_state.node_state.timeline = timeline;
                self.peers.set(i, peer);
            }
            i = i + 1;
        }
        assert(self.peers@ =~= with_one_timeline(before, session_id, timeline));
    }

    /// Takes all peers of a session off the list.
    pub fn forget_session(&mut self, session_id: SessionId)
        ensures
            final(self).peers@ == without_session(old(self).peers@, session_id),
    {
        let ghost before = self.peers@;
        let ghost keep = |p: ControllerPeer| p.session() != session_id;
        let mut kept: Vec<ControllerPeer> = Vec::new();
        let mut i: usize = 0;
        while i < self.peers.len()
            invariant
                i <= self.peers@.len(),
                self.peers@ == before,
                keep == (|p: ControllerPeer| p.session() != session_id),
                kept@ == before.take(i as int).filter(keep),
            decreases self.peers@.len() - i,
        {
            proof {
                lemma_filter_step(before, i as int, keep);
            }
            let peer = self.peers[i];
            if peer.peer_state.session_id() != session_id {
                kept.push(peer);
            }
            i = i + 1;
        }
        assert(before.take(i as int) =~= before);
        self.peers = kept;
    }

    /// Takes all peers off the list.
    pub fn reset_peers(&mut self)
        ensures
            final(self).peers@.len() == 0,
    {
        self.peers.clear();
    }
}

/// Whether no peer is on the list twice.
pub open spec fn distinct(peers: Seq<ControllerPeer>) -> bool {
    forall|i: int, j: int|
        0 <= i < j < peers.len() ==> (#[trigger] peers[i]).id() != (#[trigger] peers[j]).id()
}

/// A peer that is on the list has a first place there.
pub proof fn lemma_first_place_exists(peers: Seq<ControllerPeer>, id: NodeId)
    requires
        knows(peers, id),
    ensures
        is_first_place(peers, id, choose|i: int| is_first_place(peers, id, i)),
    decreases peers.len(),
{
    let k = choose|k: int| 0 <= k < peers.len() && (#[trigger] peers[k]).id() == id;
    if forall|j: int| 0 <= j < k ==> (#[trigger] peers[j]).id() != id {
        assert(is_first_place(peers, id, k));
    } else {
        let front = peers.take(k);
        let j = choose|j: int| 0 <= j < k && (#[trigger] peers[j]).id() == id;
        assert(front[j].id() == id);
        lemma_first_place_exists(front, id);
        let i = choose|i: int| is_first_place(front, id, i);
        assert forall|m: int| 0 <= m < i implies (#[trigger] peers[m]).id() != id by {
            assert(front[m] == peers[m]);
        }
        assert(is_first_place(peers, id, i));
    }
}

/// Seeing a peer keeps the list free of duplicates and of oneself, and puts the peer on it.
pub proof fn law_seeing_keeps_the_list_sound(
    peers: Seq<ControllerPeer>,
    seen: PeerState,
    self_ident: NodeId,
)
    requires
        distinct(peers),
        !knows(peers, self_ident),
        seen.node_state.node_id != self_ident,
    ensures
        distinct(list_after(peers, seen)),
        !knows(list_after(peers, seen), self_ident),
        knows(list_after(peers, seen), seen.node_state.node_id),
        list_after(peers, seen).contains(ControllerPeer { peer_state: seen }),
{
    let id = seen.node_state.node_id;
    let after = list_after(peers, seen);
    let place = if knows(peers, id) {
        lemma_first_place_exists(peers, id);
        choose|i: int| is_first_place(peers, id, i)
    } else {
        peers.len() as int
    };
    assert(after[place] == ControllerPeer { peer_state: seen });
    assert(after[place].id() == id);
    assert forall|i: int| 0 <= i < after.len() && i != place implies #[trigger] after[i]
        == peers[i] by {}
    assert forall|i: int| 0 <= i < after.len() implies (#[trigger] after[i]).id() != self_ident by {
        if i != place {
            assert(peers[i].id() != self_ident);
        }
    }
    assert forall|i: int, j: int| 0 <= i < j < after.len() implies (#[trigger] after[i]).id() != (
    #[trigger] after[j]).id() by {
        if i != place && j != place {
            assert(peers[i].id() != peers[j].id());
        } else if i == place {
            assert(after[j] == peers[j]);
            if knows(peers, id) {
                assert(peers[place].id() != peers[j].id());
            }
        } else {
            assert(after[i] == peers[i]);
        }
    }
}

/// Seeing a peer again, unchanged, changes nothing and tells nothing. (A tempo that is no
/// number differs from itself and would be told again.)
pub proof fn law_seeing_again_tells_nothing(peers: Seq<ControllerPeer>, seen: PeerState)
    requires
        seen.node_state.timeline.tempo.is_number(),
    ensures
        ({
            let once = list_after(peers, seen);
            list_after(once, seen) == once && changes_after(once, seen) == Seq::<
                PeerStateChange,
            >::empty()
        }),
{
    let id = seen.node_state.node_id;
    let entry = ControllerPeer { peer_state: seen };
    let once = list_after(peers, seen);
    let place = if knows(peers, id) {
        lemma_first_place_exists(peers, id);
        choose|i: int| is_first_place(peers, id, i)
    } else {
        peers.len() as int
    };
    assert(once[place] == entry);
    assert forall|j: int| 0 <= j < place implies (#[trigger] once[j]).id() != id by {
        assert(once[j] == peers[j]);
    }
    assert(is_first_place(once, id, place));
    assert(knows(once, id));
    let again = choose|i: int| is_first_place(once, id, i);
    assert(again == place);
    assert(once.update(place, entry) =~= once);
    assert(!is_new_timeline(once, seen)) by {
        assert(once[place].session() == seen.node_state.session_id);
    }
    assert(!is_new_start_stop_state(once, seen)) by {
        assert(once[place].peer_state.node_state.start_stop_state
            == seen.node_state.start_stop_state);
    }
    assert(!changes_membership(once, seen));
    assert(changes_after(once, seen) =~= Seq::<PeerStateChange>::empty());
}

/// A new peer that was seen and then left leaves the list as it was before.
pub proof fn law_leaving_undoes_joining(peers: Seq<ControllerPeer>, seen: PeerState)
    requires
        !knows(peers, seen.node_state.node_id),
    ensures
        without(list_after(peers, seen), seen.node_state.node_id) == peers,
{
    let id = seen.node_state.node_id;
    let keep = |p: ControllerPeer| p.id() != id;
    let after = list_after(peers, seen);
    lemma_filter_step(after, peers.len() as int, keep);
    assert(after.take(peers.len() as int + 1) =~= after);
    assert(after.take(peers.len() as int) =~= peers);
    lemma_filter_keeps_all(peers, keep);
}

/// After a peer left it is not on the list, all others still are, and the order is kept.
pub proof fn law_leaving_takes_one_peer_off(peers: Seq<ControllerPeer>, id: NodeId)
    ensures
        !knows(without(peers, id), id),
        forall|i: int|
            0 <= i < peers.len() && (#[trigger] peers[i]).id() != id ==> without(
                peers,
                id,
            ).contains(peers[i]),
        without(peers, id).len() == peers.len() <==> !knows(peers, id),
{
    let keep = |p: ControllerPeer| p.id() != id;
    lemma_filter_members(peers, keep);
    lemma_filter_shortens(peers, keep);
    assert forall|i: int| 0 <= i < peers.len() && (#[trigger] peers[i]).id() != id implies without(
        peers,
        id,
    ).contains(peers[i]) by {
        assert(keep(peers[i]));
    }
    assert forall|i: int| 0 <= i < without(peers, id).len() implies (#[trigger] without(
        peers,
        id,
    )[i]).id() != id by {
        assert(keep(peers.filter(keep)[i]));
    }
    if !knows(peers, id) {
        assert forall|i: int| 0 <= i < peers.len() implies keep(#[trigger] peers[i]) by {
            assert(peers[i].id() != id);
        }
    }
    if without(peers, id).len() == peers.len() {
        assert forall|i: int| 0 <= i < peers.len() implies (#[trigger] peers[i]).id() != id by {
            assert(keep(peers[i]));
        }
    }
}

/// A filter keeps a list free of duplicates.
proof fn lemma_filter_keeps_distinct(
    peers: Seq<ControllerPeer>,
    keep: spec_fn(ControllerPeer) -> bool,
)
    requires
        distinct(peers),
    ensures
        distinct(peers.filter(keep)),
{
    lemma_filter_keeps_pairs(
        peers,
        keep,
        |a: ControllerPeer, b: ControllerPeer| a.id() != b.id(),
    );
}

/// Without duplicates every peer is a run of its own.
proof fn lemma_runs_of_distinct(peers: Seq<ControllerPeer>)
    requires
        distinct(peers),
    ensures
        runs(peers) == peers.len(),
    decreases peers.len(),
{
    if peers.len() > 0 {
        let front = peers.drop_last();
        assert forall|i: int, j: int| 0 <= i < j < front.len() implies (#[trigger] front[i]).id()
            != (#[trigger] front[j]).id() by {
            assert(peers[i].id() != peers[j].id());
        }
        lemma_runs_of_distinct(front);
        if peers.len() > 1 {
            assert(peers[peers.len() - 2].id() != peers[peers.len() - 1].id());
        }
    }
}

/// On a list without duplicates every peer of the session other than oneself counts, once.
pub proof fn law_every_other_peer_counts(
    peers: Seq<ControllerPeer>,
    session_id: SessionId,
    self_node_id: NodeId,
)
    requires
        distinct(peers),
    ensures
        runs(others_in_session(peers, session_id, self_node_id)) == others_in_session(
            peers,
            session_id,
            self_node_id,
        ).len(),
{
    let keep = |p: ControllerPeer| p.session() == session_id && p.id() != self_node_id;
    lemma_filter_keeps_distinct(peers, keep);
    lemma_runs_of_distinct(peers.filter(keep));
}

/// Leaving and forgetting a session keep the list free of duplicates.
pub proof fn law_removal_keeps_the_list_sound(
    peers: Seq<ControllerPeer>,
    id: NodeId,
    session_id: SessionId,
)
    requires
        distinct(peers),
    ensures
        distinct(without(peers, id)),
        distinct(without_session(peers, session_id)),
{
    lemma_filter_keeps_distinct(peers, |p: ControllerPeer| p.id() != id);
    lemma_filter_keeps_distinct(peers, |p: ControllerPeer| p.session() != session_id);
}

} // verus!
