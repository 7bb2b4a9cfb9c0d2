//! What holds of samples, of their median and of the transform that they give.

use vstd::prelude::*;

use crate::discovery::peers::PeerState;
use crate::link::duration::{
    law_counting_drops_what_is_not_full, law_empty_span_has_no_length, Duration,
};
use crate::link::ghostxform::GhostXForm;
use crate::link::measurement::{
    after_pong, asked_for, cut_off, half_micros, is_complete, is_reply, is_transform,
    law_median_lies_among_samples, lemma_in_order, lemma_whole_micros, median_quarters,
    nearest_micro, pong_of, reply_to, samples_countable, samples_of, timer_ping, with_entry,
    MeasurePeerEvent, MeasurementEntry, Pong,
};
use crate::link::payload::PayloadEntry;
use crate::link::sessions::{SessionId, SessionMembership};

verus! {

/// Each entry of a pong replaces what entries of its sort told before, and nothing else. Entries
/// of other sorts tell nothing, and what was not told is zero.
pub proof fn law_each_entry_tells_one_thing(
    entries: Seq<PayloadEntry>,
    membership: SessionMembership,
    time: Duration,
    entry: PayloadEntry,
)
    ensures
        pong_of(Seq::<PayloadEntry>::empty()).session_id.0.0 == 0,
        pong_of(Seq::<PayloadEntry>::empty()).ghost_time.nanos() == 0,
        pong_of(Seq::<PayloadEntry>::empty()).prev_ghost_time.nanos() == 0,
        pong_of(Seq::<PayloadEntry>::empty()).prev_host_time.nanos() == 0,
        pong_of(entries.push(PayloadEntry::SessionMembership(membership))) == (Pong {
            session_id: membership.session_id,
            ..pong_of(entries)
        }),
        pong_of(entries.push(PayloadEntry::GhostTime(time))) == (Pong {
            ghost_time: time,
            ..pong_of(entries)
        }),
        pong_of(entries.push(PayloadEntry::PrevGhostTime(time))) == (Pong {
            prev_ghost_time: time,
            ..pong_of(entries)
        }),
        pong_of(entries.push(PayloadEntry::HostTime(time))) == (Pong {
            prev_host_time: time,
            ..pong_of(entries)
        }),
        entry is Other || entry is MeasurementEndpointV4 ==> pong_of(entries.push(entry))
            == pong_of(entries),
{
    law_empty_span_has_no_length();
    assert(entries.push(PayloadEntry::SessionMembership(membership)).drop_last() =~= entries);
    assert(entries.push(PayloadEntry::GhostTime(time)).drop_last() =~= entries);
    assert(entries.push(PayloadEntry::PrevGhostTime(time)).drop_last() =~= entries);
    assert(entries.push(PayloadEntry::HostTime(time)).drop_last() =~= entries);
    assert(entries.push(entry).drop_last() =~= entries);
}

/// A pong with a ghost time and a host time gives a sample, and a second one exactly where it has
/// a previous ghost time, whatever the signs of the times and their order are. Without a ghost
/// time or without a host time it gives none.
pub proof fn law_number_of_samples(pong: Pong, host_time: Duration)
    ensures
        pong.ghost_time.nanos() == 0 ==> samples_of(pong, host_time).len() == 0,
        pong.prev_host_time.nanos() == 0 ==> samples_of(pong, host_time).len() == 0,
        pong.ghost_time.nanos() != 0 && pong.prev_host_time.nanos() != 0
            && pong.prev_ghost_time.nanos() == 0 ==> samples_of(pong, host_time).len() == 1,
        pong.ghost_time.nanos() != 0 && pong.prev_host_time.nanos() != 0
            && pong.prev_ghost_time.nanos() != 0 ==> samples_of(pong, host_time).len() == 2,
{
}

/// In whole microseconds the first sample is twice the ghost time less both host times, and the
/// second is both ghost times less twice the previous host time.
pub proof fn law_samples_are_offsets(
    pong: Pong,
    host_time: Duration,
    ghost: int,
    prev_ghost: int,
    host: int,
    prev_host: int,
)
    requires
        pong.ghost_time.nanos() == ghost * 1000,
        pong.prev_ghost_time.nanos() == prev_ghost * 1000,
        host_time.nanos() == host * 1000,
        pong.prev_host_time.nanos() == prev_host * 1000,
        ghost != 0,
        prev_host != 0,
    ensures
        samples_of(pong, host_time)[0] == 2 * ghost - (host + prev_host),
        prev_ghost != 0 ==> samples_of(pong, host_time)[1] == (ghost + prev_ghost) - 2 * prev_host,
{
    lemma_whole_micros(ghost);
    lemma_whole_micros(prev_host);
    lemma_whole_micros(host + prev_host);
    lemma_whole_micros(ghost + prev_ghost);
    assert(host_time.nanos() + pong.prev_host_time.nanos() == (host + prev_host) * 1000);
    assert(pong.ghost_time.nanos() + pong.prev_ghost_time.nanos() == (ghost + prev_ghost) * 1000);
}

/// Of each time, or sum of two times, that a sample is made of, what is left of a microsecond
/// that is not full does not count.
pub proof fn law_samples_drop_what_is_not_full(
    pong: Pong,
    host_time: Duration,
    ghost: nat,
    host_sum: nat,
    ghost_sum: nat,
    prev_host: nat,
)
    requires
        ghost * 1000 <= pong.ghost_time.nanos() < (ghost + 1) * 1000,
        host_sum * 1000 <= host_time.nanos() + pong.prev_host_time.nanos() < (host_sum + 1) * 1000,
        ghost_sum * 1000 <= pong.ghost_time.nanos() + pong.prev_ghost_time.nanos() < (ghost_sum
            + 1) * 1000,
        prev_host * 1000 <= pong.prev_host_time.nanos() < (prev_host + 1) * 1000,
        pong.ghost_time.nanos() != 0,
        pong.prev_host_time.nanos() != 0,
    ensures
        samples_of(pong, host_time)[0] == 2 * ghost - host_sum,
        pong.prev_ghost_time.nanos() != 0 ==> samples_of(pong, host_time)[1] == ghost_sum - 2
            * prev_host,
{
    law_counting_drops_what_is_not_full(pong.ghost_time.nanos());
    law_counting_drops_what_is_not_full(host_time.nanos() + pong.prev_host_time.nanos());
    law_counting_drops_what_is_not_full(pong.ghost_time.nanos() + pong.prev_ghost_time.nanos());
    law_counting_drops_what_is_not_full(pong.prev_host_time.nanos());
}

/// A pong of the session that is measured keeps the samples so far, adds its own behind them, is
/// replied to, and completes the measurement if there are then twenty-one or more.
pub proof fn law_pong_adds_its_samples(
    samples: Seq<int>,
    pong: Pong,
    host_time: Duration,
    reply: Option<Vec<PayloadEntry>>,
)
    ensures
        ({
            let after = after_pong(pong.session_id, samples, pong, host_time);
            let added = samples_of(pong, host_time);
            &&& after.0.len() == samples.len() + added.len()
            &&& forall|i: int| 0 <= i < samples.len() ==> #[trigger] after.0[i] == samples[i]
            &&& forall|i: int|
                0 <= i < added.len() ==> after.0[samples.len() + i] == #[trigger] added[i]
            &&& after.2 <==> samples.len() + added.len() >= 21
            &&& is_reply(after.1, reply) ==> reply is Some && reply->Some_0@ == reply_to(
                pong,
                host_time,
            )
        }),
{
}

/// A pong of another session is ignored: it adds nothing, is not replied to, and completes
/// nothing.
pub proof fn law_pong_of_another_session_is_ignored(
    session_id: SessionId,
    samples: Seq<int>,
    pong: Pong,
    host_time: Duration,
    reply: Option<Vec<PayloadEntry>>,
)
    requires
        pong.session_id != session_id,
    ensures
        ({
            let after = after_pong(session_id, samples, pong, host_time);
            &&& after.0 == samples
            &&& !after.2
            &&& is_reply(after.1, reply) ==> reply is None
        }),
{
}

/// A measurement is entered by its peer, with the session and the endpoint of that peer, in the
/// place of an earlier one by the same peer. Those by other peers stay.
pub proof fn law_measurements_are_entered_by_peer(
    under_way: Map<u64, MeasurementEntry>,
    peer: PeerState,
    id: u64,
)
    ensures
        ({
            let after = with_entry(under_way, peer);
            let own = peer.node_state.node_id.0;
            &&& after.dom().contains(own)
            &&& after[own].session_id == peer.node_state.session_id
            &&& after[own].measurement_endpoint == peer.measurement_endpoint
            &&& id != own ==> after.dom().contains(id) == under_way.dom().contains(id)
            &&& id != own && under_way.dom().contains(id) ==> after[id] == under_way[id]
        }),
{
}

/// Only an event that names a peer asks for a measurement: one by that peer, for the session that
/// the event names.
pub proof fn law_only_peers_are_measured(
    session_id: SessionId,
    peer: PeerState,
    x_form: GhostXForm,
)
    ensures
        asked_for(MeasurePeerEvent::PeerState(session_id, peer)) == Some((session_id, peer)),
        asked_for(MeasurePeerEvent::XForm(session_id, x_form)) is None,
{
}

/// Of times that are not whole microseconds a sample is off by less than three half microseconds.
pub proof fn law_samples_are_near_the_offsets(pong: Pong, host_time: Duration)
    requires
        pong.ghost_time.nanos() != 0,
        pong.prev_host_time.nanos() != 0,
    ensures
        ({
            let samples = samples_of(pong, host_time);
            let first = 2 * pong.ghost_time.nanos() - (host_time.nanos()
                + pong.prev_host_time.nanos());
            let second = pong.ghost_time.nanos() + pong.prev_ghost_time.nanos() - 2
                * pong.prev_host_time.nanos();
            &&& -3000 < samples[0] * 1000 - first < 3000
            &&& pong.prev_ghost_time.nanos() != 0 ==> -3000 < samples[1] * 1000 - second < 3000
        }),
{
}

/// Where the ghost times of two pongs differ by a constant, so do all their samples, by twice
/// that; and there are as many of them. So a session is measured as well behind the host's clock
/// as ahead of it.
pub proof fn law_samples_move_with_ghost_time(
    pong: Pong,
    moved: Pong,
    host_time: Duration,
    ghost: int,
    prev_ghost: int,
    host: int,
    prev_host: int,
    by: int,
)
    requires
        pong.ghost_time.nanos() == ghost * 1000,
        pong.prev_ghost_time.nanos() == prev_ghost * 1000,
        host_time.nanos() == host * 1000,
        pong.prev_host_time.nanos() == prev_host * 1000,
        moved.ghost_time.nanos() == (ghost + by) * 1000,
        moved.prev_ghost_time.nanos() == (prev_ghost + by) * 1000,
        moved.prev_host_time == pong.prev_host_time,
        ghost != 0,
        prev_ghost != 0,
        ghost + by != 0,
        prev_ghost + by != 0,
    ensures
        samples_of(moved, host_time).len() == samples_of(pong, host_time).len(),
        forall|i: int|
            0 <= i < samples_of(pong, host_time).len() ==> #[trigger] samples_of(
                moved,
                host_time,
            )[i] == samples_of(pong, host_time)[i] + 2 * by,
{
    if prev_host != 0 {
        law_samples_are_offsets(pong, host_time, ghost, prev_ghost, host, prev_host);
        law_samples_are_offsets(moved, host_time, ghost + by, prev_ghost + by, host, prev_host);
        law_number_of_samples(pong, host_time);
        law_number_of_samples(moved, host_time);
    }
}

/// Times of less than a hundred thousand years give samples that can be counted.
pub proof fn law_samples_of_usual_times_can_be_counted(pong: Pong, host_time: Duration)
    requires
        -3_000_000_000_000_000_000_000 <= pong.ghost_time.nanos() <= 3_000_000_000_000_000_000_000,
        -3_000_000_000_000_000_000_000 <= pong.prev_ghost_time.nanos()
            <= 3_000_000_000_000_000_000_000,
        -3_000_000_000_000_000_000_000 <= pong.prev_host_time.nanos()
            <= 3_000_000_000_000_000_000_000,
        -3_000_000_000_000_000_000_000 <= host_time.nanos() <= 3_000_000_000_000_000_000_000,
    ensures
        samples_countable(pong, host_time),
{
}

/// A reply tells the peer the host time, and its own previous ghost time again.
pub proof fn law_reply_tells_host_time_and_previous_ghost_time(pong: Pong, host_time: Duration)
    ensures
        pong_of(reply_to(pong, host_time)).prev_host_time == host_time,
        pong_of(reply_to(pong, host_time)).prev_ghost_time == pong.prev_ghost_time,
        pong_of(reply_to(pong, host_time)).ghost_time.nanos() == 0,
        reply_to(pong, host_time).len() == 2,
{
    let none = Seq::<PayloadEntry>::empty();
    let one = none.push(PayloadEntry::HostTime(host_time));
    let membership = SessionMembership { session_id: pong.session_id };
    law_each_entry_tells_one_thing(none, membership, host_time, PayloadEntry::Other);
    law_each_entry_tells_one_thing(one, membership, pong.prev_ghost_time, PayloadEntry::Other);
    assert(reply_to(pong, host_time) =~= one.push(
        PayloadEntry::PrevGhostTime(pong.prev_ghost_time),
    ));
}

/// A measurement is done with its twenty-first sample and not before.
pub proof fn law_measurement_takes_twenty_one_samples(samples: nat)
    ensures
        is_complete(samples) <==> samples >= 21,
{
}

/// The timer sends five pings, each with the host time alone, and then gives up.
pub proof fn law_timer_sends_five_pings(started: nat, host_time: Duration)
    ensures
        timer_ping(started, host_time) is Some <==> started <= 4,
        timer_ping(started, host_time) matches Some(ping) ==> ping.len() == 1 && pong_of(
            ping,
        ).prev_host_time == host_time && pong_of(ping).ghost_time.nanos() == 0 && pong_of(
            ping,
        ).prev_ghost_time.nanos() == 0,
{
    let none = Seq::<PayloadEntry>::empty();
    let membership = SessionMembership { session_id: pong_of(none).session_id };
    law_each_entry_tells_one_thing(none, membership, host_time, PayloadEntry::Other);
    if timer_ping(started, host_time) is Some {
        assert(timer_ping(started, host_time)->Some_0 =~= none.push(
            PayloadEntry::HostTime(host_time),
        ));
    }
}

/// The median of an odd number of samples in ascending order is the one in the middle, and that
/// of an even number the mean of the two in the middle. It is told in quarter microseconds, the
/// samples in half ones.
pub proof fn law_median_of_ascending_samples(data: Seq<i128>, half: nat)
    requires
        forall|i: int, j: int| 0 <= i < j < data.len() ==> data[i] <= data[j],
    ensures
        data.len() == 2 * half + 1 ==> median_quarters(data) == 2 * data[half as int],
        half > 0 && data.len() == 2 * half ==> median_quarters(data) == data[half - 1]
            + data[half as int],
{
    lemma_in_order(data, data);
}

/// Rounding takes the nearest whole microsecond, and of two that are equally near the one farther
/// from zero.
pub proof fn law_rounding_is_to_the_nearest(quarters: int, micros: int)
    ensures
        -2 <= 4 * nearest_micro(quarters) - quarters <= 2,
        nearest_micro(4 * micros) == micros,
        micros >= 0 ==> nearest_micro(4 * micros + 2) == micros + 1,
        micros <= 0 ==> nearest_micro(4 * micros - 2) == micros - 1,
{
}

/// What can be counted is not cut off, and what cannot is cut off at the near end.
pub proof fn law_cut_off_at_the_ends(micros: int)
    ensures
        -0x8000_0000_0000_0000 <= micros <= 0x7FFF_FFFF_FFFF_FFFF ==> cut_off(micros) == micros,
        micros > 0x7FFF_FFFF_FFFF_FFFF ==> cut_off(micros) == 0x7FFF_FFFF_FFFF_FFFF,
        micros < -0x8000_0000_0000_0000 ==> cut_off(micros) == -0x8000_0000_0000_0000,
{
}

/// Samples that all lie between two offsets give a transform of slope one whose intercept lies
/// between them; samples that all show one offset give that offset.
pub proof fn law_transform_lies_among_the_offsets(
    data: Seq<i128>,
    x_form: GhostXForm,
    low: i64,
    high: i64,
)
    requires
        data.len() > 0,
        forall|i: int| 0 <= i < data.len() ==> 2 * low <= #[trigger] data[i] <= 2 * high,
        is_transform(data, x_form),
    ensures
        x_form.slope_bits == 0x3FF0_0000_0000_0000,
        low * 1000 <= x_form.intercept.nanos() <= high * 1000,
{
    law_median_lies_among_samples(data, (2 * low) as i128, (2 * high) as i128);
    let quarters = median_quarters(data);
    assert(4 * low <= quarters <= 4 * high);
    assert(low <= nearest_micro(quarters) <= high);
}

/// The intercept is within half a microsecond of the median.
pub proof fn law_intercept_is_near_the_median(data: Seq<i128>, x_form: GhostXForm)
    requires
        data.len() > 0,
        is_transform(data, x_form),
        -0x1_0000_0000_0000_0000 <= median_quarters(data) <= 0x1_0000_0000_0000_0000,
    ensures
        -500 <= x_form.intercept.nanos() - 250 * median_quarters(data) <= 500,
{
    law_rounding_is_to_the_nearest(median_quarters(data), 0);
}

/// No samples give the transform of slope zero without intercept.
pub proof fn law_no_samples_give_no_transform(data: Seq<i128>, x_form: GhostXForm)
    requires
        data.len() == 0,
        is_transform(data, x_form),
    ensures
        x_form.slope_bits == 0,
        x_form.intercept.nanos() == 0,
{
    law_empty_span_has_no_length();
}

/// Samples are held as they are.
pub proof fn law_samples_are_held_exactly(data: Seq<i128>, i: int)
    requires
        0 <= i < data.len(),
    ensures
        half_micros(data).len() == data.len(),
        half_micros(data)[i] == data[i],
{
}

} // verus!
