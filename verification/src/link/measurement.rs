//! Measuring how the time of a session relates to host time, by pings to one of its peers.

use std::collections::HashMap;
use vstd::arithmetic::div_mod::lemma_div_multiples_vanish;
use vstd::prelude::*;
use vstd::relations::{sorted_by, total_ordering};
use vstd::seq_lib::lemma_sorted_unique;

use crate::discovery::peers::PeerState;
use crate::link::duration::{is_span, whole_micros, Duration};
use crate::link::ghostxform::{no_x_form, same_x_form, GhostXForm};
use crate::link::ieee::ONE;
use crate::link::node::NodeId;
use crate::link::payload::{is_header, PayloadEntry, PayloadEntryHeader, SocketAddrV4};
use crate::link::sessions::SessionId;
use crate::link::wire::{
    be_value, bincode_decode_u32_u16, bincode_u16, bincode_u32, lemma_be_value_injective, Error,
};

verus! {

/// The key of the measurement endpoint entry: the bytes of "mep4".
pub const MEASUREMENT_ENDPOINT_V4_HEADER_KEY: u32 = 0x6d657034;

/// The size of an IPv4 address and a port in bytes.
pub const MEASUREMENT_ENDPOINT_V4_SIZE: u32 = 6;

/// The payload entry that tells where a peer answers measurements.
#[derive(Clone, Copy, Debug, PartialEq, Eq, Structural)]
pub struct MeasurementEndpointV4 {
    pub endpoint: Option<SocketAddrV4>,
}

/// Whether `bytes` spell an address and a port.
pub open spec fn is_endpoint(bytes: Seq<u8>, endpoint: SocketAddrV4) -> bool {
    &&& bytes.len() == 6
    &&& be_value(bytes.subrange(0, 4)) == endpoint.ip
    &&& be_value(bytes.subrange(4, 6)) == endpoint.port
}

impl MeasurementEndpointV4 {
    /// The bytes of the entry: its header, the address and the port.
    pub fn encode(&self) -> (encoded: Result<Vec<u8>, Error>)
        requires
            self.endpoint is Some,
        ensures
            encoded is Ok,
            encoded->Ok_0@.len() == 8 + MEASUREMENT_ENDPOINT_V4_SIZE,
            is_header(
                encoded->Ok_0@.subrange(0, 8),
                MEASUREMENT_ENDPOINT_V4_HEADER_KEY,
                MEASUREMENT_ENDPOINT_V4_SIZE,
            ),
            is_endpoint(encoded->Ok_0@.subrange(8, 14), self.endpoint->Some_0),
    {
        let header = PayloadEntryHeader {
            key: MEASUREMENT_ENDPOINT_V4_HEADER_KEY,
            size: MEASUREMENT_ENDPOINT_V4_SIZE,
        };
        let endpoint = self.endpoint.unwrap();
        match (header.encode(), bincode_u32(endpoint.ip), bincode_u16(endpoint.port)) {
            (Ok(mut encoded), Ok(mut ip), Ok(mut port)) => {
                let ghost header_bytes = encoded@;
                let ghost ip_bytes = ip@;
                let ghost port_bytes = port@;
                encoded.append(&mut ip);
                encoded.append(&mut port);
                assert(encoded@.subrange(0, 8) =~= header_bytes);
                assert(encoded@.subrange(8, 14).subrange(0, 4) =~= ip_bytes);
                assert(encoded@.subrange(8, 14).subrange(4, 6) =~= port_bytes);
                Ok(encoded)
            },
            _ => Err(Error::Encode),
        }
    }

    /// Reads an address and a port from the first bytes behind a header.
    pub fn decode(bytes: &[u8]) -> (decoded: Result<MeasurementEndpointV4, Error>)
        ensures
            decoded is Ok <==> bytes@.len() >= MEASUREMENT_ENDPOINT_V4_SIZE,
            decoded matches Ok(entry) ==> entry.endpoint is Some && is_endpoint(
                bytes@.take(6),
                entry.endpoint->Some_0,
            ),
            decoded matches Err(e) ==> e == Error::Decode,
    {
        match bincode_decode_u32_u16(bytes) {
            Ok(((ip, port), _)) => {
                assert(bytes@.take(6).subrange(0, 4) =~= bytes@.subrange(0, 4));
                assert(bytes@.take(6).subrange(4, 6) =~= bytes@.subrange(4, 6));
                Ok(MeasurementEndpointV4 { endpoint: Some(SocketAddrV4 { ip, port }) })
            },
            Err(_) => Err(Error::Decode),
        }
    }
}

/// Bytes spell one endpoint, and an endpoint is spelled by one sequence of bytes: what is read
/// back is what was written.
pub proof fn law_endpoint_survives_the_wire(
    written: SocketAddrV4,
    bytes: Seq<u8>,
    read: SocketAddrV4,
    others: Seq<u8>,
)
    requires
        is_endpoint(bytes, written),
    ensures
        is_endpoint(bytes, read) ==> read == written,
        is_endpoint(others, written) ==> others == bytes,
{
    if is_endpoint(others, written) {
        lemma_be_value_injective(bytes.subrange(0, 4), others.subrange(0, 4));
        lemma_be_value_injective(bytes.subrange(4, 6), others.subrange(4, 6));
        assert(bytes =~= bytes.subrange(0, 4) + bytes.subrange(4, 6));
        assert(others =~= others.subrange(0, 4) + others.subrange(4, 6));
    }
}

/// A peer to measure a session by, or the result of such a measurement.
#[derive(Clone, Copy, Debug)]
pub enum MeasurePeerEvent {
    PeerState(SessionId, PeerState),
    XForm(SessionId, GhostXForm),
}

/// Samples after which a measurement is done, once there are more than these.
pub const NUMBER_DATA_POINTS: usize = 20;

/// Pings that are sent before a measurement has failed.
pub const NUMBER_MEASUREMENTS: usize = 5;

/// Milliseconds before each ping.
pub const PING_DELAY_MILLIS: u64 = 50;

/// Seconds to wait for an answer to a ping.
pub const PONG_TIMEOUT_SECS: u64 = 1;

/// What a pong tells.
#[derive(Clone, Copy, Debug)]
pub struct Pong {
    pub session_id: SessionId,
    pub ghost_time: Duration,
    pub prev_ghost_time: Duration,
    pub prev_host_time: Duration,
}

/// What the entries of a pong tell. Of entries of one sort the last counts; what no entry
/// tells is zero.
pub open spec fn pong_of(entries: Seq<PayloadEntry>) -> Pong
    decreases entries.len(),
{
    if entries.len() == 0 {
        Pong {
            session_id: SessionId(NodeId(0)),
            ghost_time: Duration::empty(),
            prev_ghost_time: Duration::empty(),
            prev_host_time: Duration::empty(),
        }
    } else {
        let before = pong_of(entries.drop_last());
        match entries.last() {
            PayloadEntry::SessionMembership(membership) => Pong {
                session_id: membership.session_id,
                ..before
            },
            PayloadEntry::GhostTime(time) => Pong { ghost_time: time, ..before },
            PayloadEntry::PrevGhostTime(time) => Pong { prev_ghost_time: time, ..before },
            PayloadEntry::HostTime(time) => Pong { prev_host_time: time, ..before },
            _ => before,
        }
    }
}

/// Reads the entries of a pong.
pub fn read_pong(entries: &Vec<PayloadEntry>) -> (pong: Pong)
    ensures
        pong == pong_of(entries@),
{
    let mut session_id = SessionId(NodeId(0));
    let mut ghost_time = Duration::zero();
    let mut prev_ghost_time = Duration::zero();
    let mut prev_host_time = Duration::zero();
    let mut i: usize = 0;
    while i < entries.len()
        invariant
            i <= entries@.len(),
            (Pong { session_id, ghost_time, prev_ghost_time, prev_host_time }) == pong_of(
                entries@.take(i as int),
            ),
        decreases entries@.len() - i,
    {
        assert(entries@.take(i + 1).drop_last() =~= entries@.take(i as int));
        match entries[i] {
            PayloadEntry::SessionMembership(membership) => session_id = membership.session_id,
            PayloadEntry::GhostTime(time) => ghost_time = time,
            PayloadEntry::PrevGhostTime(time) => prev_ghost_time = time,
            PayloadEntry::HostTime(time) => prev_host_time = time,
            _ => {},
        }
        i = i + 1;
    }
    assert(entries@.take(i as int) =~= entries@);
    Pong { session_id, ghost_time, prev_ghost_time, prev_host_time }
}

/// Whether a number of microseconds can be counted.
pub open spec fn is_countable(micros: int) -> bool {
    i64::MIN <= micros <= i64::MAX
}

/// Twice the offset that a ghost time in the middle between two host times shows: in half
/// microseconds, the ghost time less the mean of the host times.
pub open spec fn offset_to_host_mean(ghost: Duration, host: Duration, prev_host: Duration) -> int {
    2 * whole_micros(ghost.nanos()) - whole_micros(host.nanos() + prev_host.nanos())
}

/// Twice the offset that a host time in the middle between two ghost times shows: in half
/// microseconds, the mean of the ghost times less the host time.
pub open spec fn offset_of_ghost_mean(
    ghost: Duration,
    prev_ghost: Duration,
    prev_host: Duration,
) -> int {
    whole_micros(ghost.nanos() + prev_ghost.nanos()) - 2 * whole_micros(prev_host.nanos())
}

/// Whether the samples of a pong at `host_time` can be counted in microseconds.
pub open spec fn samples_countable(pong: Pong, host_time: Duration) -> bool {
    pong.ghost_time.nanos() != 0 && pong.prev_host_time.nanos() != 0 ==> {
        &&& is_countable(whole_micros(pong.ghost_time.nanos()))
        &&& is_span(host_time.nanos() + pong.prev_host_time.nanos())
        &&& is_countable(whole_micros(host_time.nanos() + pong.prev_host_time.nanos()))
        &&& pong.prev_ghost_time.nanos() != 0 ==> {
            &&& is_span(pong.ghost_time.nanos() + pong.prev_ghost_time.nanos())
            &&& is_countable(whole_micros(pong.ghost_time.nanos() + pong.prev_ghost_time.nanos()))
            &&& is_countable(whole_micros(pong.prev_host_time.nanos()))
        }
    }
}

/// Whether a number of nanoseconds, counted in microseconds, can be counted.
fn nanos_countable(nanos: i128) -> (r: bool)
    requires
        -0x1_0000_0000_0000_0000_0000_0000 <= nanos <= 0x1_0000_0000_0000_0000_0000_0000,
    ensures
        r == is_countable(whole_micros(nanos as int)),
{
    let micros: i128 = if nanos >= 0 {
        nanos / 1000
    } else {
        -((-nanos) / 1000)
    };
    i64::MIN as i128 <= micros && micros <= i64::MAX as i128
}

/// The length of a span in nanoseconds.
fn nanos_of(span: Duration) -> (nanos: i128)
    ensures
        nanos == span.nanos(),
        -0x4000_0000_0000_0000_0000_0000 <= nanos <= 0x4000_0000_0000_0000_0000_0000,
{
    let parts = span.parts();
    parts.0 as i128 * 1_000_000_000 + parts.1 as i128
}

/// Whether the samples of a pong with these entries, which came in at `host_time`, can be
/// counted in microseconds.
pub fn samples_can_be_counted(entries: &Vec<PayloadEntry>, host_time: Duration) -> (r: bool)
    ensures
        r == samples_countable(pong_of(entries@), host_time),
{
    let pong = read_pong(entries);
    let limit: i128 = i64::MAX as i128 * 1_000_000;
    let ghost_time: i128 = nanos_of(pong.ghost_time);
    let prev_host: i128 = nanos_of(pong.prev_host_time);
    let prev_ghost: i128 = nanos_of(pong.prev_ghost_time);
    if ghost_time == 0 || prev_host == 0 {
        return true;
    }
    let host_sum: i128 = nanos_of(host_time) + prev_host;
    let ghost_sum: i128 = ghost_time + prev_ghost;
    let first = nanos_countable(ghost_time) && -limit <= host_sum && host_sum <= limit
        && nanos_countable(host_sum);
    let second = prev_ghost == 0 || (-limit <= ghost_sum && ghost_sum <= limit && nanos_countable(
        ghost_sum,
    ) && nanos_countable(prev_host));
    first && second
}

/// The samples of a pong at `host_time`, in half microseconds: none without a ghost time and a
/// host time, one with these, and a second one if there is a previous ghost time.
pub open spec fn samples_of(pong: Pong, host_time: Duration) -> Seq<int> {
    if pong.ghost_time.nanos() == 0 || pong.prev_host_time.nanos() == 0 {
        seq![]
    } else {
        let first = offset_to_host_mean(pong.ghost_time, host_time, pong.prev_host_time);
        if pong.prev_ghost_time.nanos() == 0 {
            seq![first]
        } else {
            seq![
                first,
                offset_of_ghost_mean(pong.ghost_time, pong.prev_ghost_time, pong.prev_host_time),
            ]
        }
    }
}

/// Whether a number of half microseconds is in the range of the samples of countable times.
pub open spec fn is_sample(half_micros: i128) -> bool {
    -0x2_0000_0000_0000_0000 <= half_micros <= 0x2_0000_0000_0000_0000
}

/// Whether all numbers are in the range of samples.
pub open spec fn are_samples(data: Seq<i128>) -> bool {
    forall|i: int| 0 <= i < data.len() ==> is_sample(#[trigger] data[i])
}

/// The samples as integers.
pub open spec fn half_micros(data: Seq<i128>) -> Seq<int> {
    data.map_values(|x: i128| x as int)
}

/// The reply to a pong at `host_time`: a ping with the host time and the previous ghost time of
/// the pong.
pub open spec fn reply_to(pong: Pong, host_time: Duration) -> Seq<PayloadEntry> {
    seq![
        PayloadEntry::HostTime(host_time),
        PayloadEntry::PrevGhostTime(pong.prev_ghost_time),
    ]
}

/// Whether a measurement with a number of samples is done.
pub open spec fn is_complete(samples: nat) -> bool {
    samples > NUMBER_DATA_POINTS
}

/// What follows a pong at `host_time` in a measurement of a session that has these samples, in
/// half microseconds: the samples then, the entries of the reply, and whether the measurement is
/// done.
pub open spec fn after_pong(
    session_id: SessionId,
    samples: Seq<int>,
    pong: Pong,
    host_time: Duration,
) -> (Seq<int>, Option<Seq<PayloadEntry>>, bool) {
    if pong.session_id == session_id {
        let all = samples + samples_of(pong, host_time);
        (all, Some(reply_to(pong, host_time)), is_complete(all.len()))
    } else {
        (samples, None, false)
    }
}

/// Whether `reply` has the entries that are due, if there are any.
pub open spec fn is_reply(
    due: Option<Seq<PayloadEntry>>,
    reply: Option<Vec<PayloadEntry>>,
) -> bool {
    match due {
        Some(entries) => reply matches Some(r) && r@ == entries,
        None => reply is None,
    }
}

/// The entries of the ping at `host_time` when the timer fires after a number of pings, if there
/// is one to send.
pub open spec fn timer_ping(started: nat, host_time: Duration) -> Option<Seq<PayloadEntry>> {
    if started < NUMBER_MEASUREMENTS {
        Some(seq![PayloadEntry::HostTime(host_time)])
    } else {
        None
    }
}

/// The reply to a pong and whether the measurement is done.
#[derive(Debug)]
pub struct PongOutcome {
    pub reply: Option<Vec<PayloadEntry>>,
    pub is_done: bool,
}

/// The reply to a pong, and all samples if the measurement is done.
#[derive(Debug)]
pub struct ReceivedPong {
    pub reply: Option<Vec<PayloadEntry>>,
    pub data: Option<Vec<i128>>,
}

/// What is to be done when the timer of a measurement fires.
#[derive(Debug)]
pub enum TimerAction {
    /// Send a ping with these entries.
    Ping(Vec<PayloadEntry>),
    /// Give up, and hand out these samples.
    Fail(Vec<i128>),
}

/// A measurement of a session by one peer. The samples are held exactly, in half microseconds.
#[derive(Debug)]
pub struct Measurement {
    pub session_id: SessionId,
    pub measurement_endpoint: Option<SocketAddrV4>,
    pub data: Vec<i128>,
    pub measurements_started: usize,
    pub success: bool,
    pub init_bytes_sent: usize,
}

impl Measurement {
    /// Whether the samples are in range and no more pings were counted than are sent.
    pub open spec fn wf(self) -> bool {
        are_samples(self.data@) && self.measurements_started <= NUMBER_MEASUREMENTS
    }

    /// A measurement of the session of `state`, with the entries of the first ping, which
    /// carries the host time.
    pub fn new(state: PeerState, host_time: Duration) -> (started: (Measurement, Vec<PayloadEntry>))
        requires
            state.measurement_endpoint is Some,
        ensures
            started.0.wf(),
            started.0.session_id == state.node_state.session_id,
            started.0.measurement_endpoint == state.measurement_endpoint,
            started.0.data@.len() == 0,
            started.0.measurements_started == 0,
            !started.0.success,
            started.0.init_bytes_sent == 0,
            started.1@ == seq![PayloadEntry::HostTime(host_time)],
    {
        let measurement = Measurement {
            session_id: state.session_id(),
            measurement_endpoint: state.measurement_endpoint,
            data: Vec::new(),
            measurements_started: 0,
            success: false,
            init_bytes_sent: 0,
        };
        (measurement, vec![PayloadEntry::HostTime(host_time)])
    }

    /// Handles a pong that came in at `host_time`. One of another session is ignored.
    pub fn on_pong(&mut self, entries: &Vec<PayloadEntry>, host_time: Duration) -> (outcome:
        PongOutcome)
        requires
            old(self).wf(),
            pong_of(entries@).session_id == old(self).session_id ==> samples_countable(
                pong_of(entries@),
                host_time,
            ),
        ensures
            final(self).wf(),
            final(self).session_id == old(self).session_id,
            final(self).measurement_endpoint == old(self).measurement_endpoint,
            final(self).measurements_started == old(self).measurements_started,
            final(self).success == old(self).success,
            final(self).init_bytes_sent == old(self).init_bytes_sent,
            ({
                let after = after_pong(
                    old(self).session_id,
                    half_micros(old(self).data@),
                    pong_of(entries@),
                    host_time,
                );
                &&& half_micros(final(self).data@) == after.0
                &&& is_reply(after.1, outcome.reply)
                &&& outcome.is_done == after.2
            }),
            pong_of(entries@).session_id != old(self).session_id ==> final(self).data@ == old(
                self,
            ).data@,
    {
        let pong = read_pong(entries);
        if self.session_id != pong.session_id {
            return PongOutcome { reply: None, is_done: false };
        }
        let ghost before = self.data@;
        let reply: Vec<PayloadEntry> = vec![
            PayloadEntry::HostTime(host_time),
            PayloadEntry::PrevGhostTime(pong.prev_ghost_time),
        ];
        if !pong.ghost_time.is_zero() && !pong.prev_host_time.is_zero() {
            let ghost_micros: i64 = pong.ghost_time.num_microseconds().unwrap();
            let host_sum: i64 = host_time.plus(pong.prev_host_time).num_microseconds().unwrap();
            self.data.push(2 * (ghost_micros as i128) - host_sum as i128);
            if !pong.prev_ghost_time.is_zero() {
                let ghost_sum: i64 = pong.ghost_time.plus(
                    pong.prev_ghost_time,
                ).num_microseconds().unwrap();
                let host_micros: i64 = pong.prev_host_time.num_microseconds().unwrap();
                self.data.push(ghost_sum as i128 - 2 * (host_micros as i128));
            }
        }
        assert(half_micros(self.data@) =~= half_micros(before) + samples_of(pong, host_time));
        assert(reply@ =~= reply_to(pong, host_time));
        let is_done = self.data.len() > NUMBER_DATA_POINTS;
        PongOutcome { reply: Some(reply), is_done }
    }

    /// Decides what to do when the timer fires at `host_time`: another ping, or, when all were
    /// sent, to give up and drop the samples.
    pub fn on_timer(&mut self, host_time: Duration) -> (action: TimerAction)
        requires
            old(self).wf(),
        ensures
            final(self).wf(),
            final(self).session_id == old(self).session_id,
            final(self).measurement_endpoint == old(self).measurement_endpoint,
            final(self).measurements_started == old(self).measurements_started,
            final(self).success == old(self).success,
            final(self).init_bytes_sent == old(self).init_bytes_sent,
            match timer_ping(old(self).measurements_started as nat, host_time) {
                Some(ping) => {
                    &&& action matches TimerAction::Ping(entries)
                    &&& entries@ == ping
                    &&& final(self).data@ == old(self).data@
                },
                None => {
                    &&& action matches TimerAction::Fail(data)
                    &&& data@.len() == 0
                    &&& final(self).data@.len() == 0
                },
            },
    {
        if self.measurements_started < NUMBER_MEASUREMENTS {
            TimerAction::Ping(vec![PayloadEntry::HostTime(host_time)])
        } else {
            self.data.clear();
            TimerAction::Fail(Vec::new())
        }
    }

    /// Notes how many bytes of the first ping were sent.
    pub fn first_ping_sent(&mut self, sent: usize)
        requires
            old(self).wf(),
        ensures
            final(self).wf(),
            final(self).session_id == old(self).session_id,
            final(self).measurement_endpoint == old(self).measurement_endpoint,
            final(self).data@ == old(self).data@,
            final(self).measurements_started == old(self).measurements_started,
            final(self).success == old(self).success,
            final(self).init_bytes_sent == sent,
    {
        self.init_bytes_sent = sent;
    }

    /// Counts a ping that was sent.
    pub fn ping_sent(&mut self)
        requires
            old(self).wf(),
            old(self).measurements_started < NUMBER_MEASUREMENTS,
        ensures
            final(self).wf(),
            final(self).session_id == old(self).session_id,
            final(self).measurement_endpoint == old(self).measurement_endpoint,
            final(self).data@ == old(self).data@,
            final(self).measurements_started == old(self).measurements_started + 1,
            final(self).success == old(self).success,
            final(self).init_bytes_sent == old(self).init_bytes_sent,
    {
        self.measurements_started = self.measurements_started + 1;
    }

    /// Hands out the samples so far, as those of a success, and starts over without any.
    pub fn finish(&mut self) -> (data: Vec<i128>)
        requires
            old(self).wf(),
        ensures
            final(self).wf(),
            final(self).session_id == old(self).session_id,
            final(self).measurement_endpoint == old(self).measurement_endpoint,
            final(self).measurements_started == old(self).measurements_started,
            final(self).init_bytes_sent == old(self).init_bytes_sent,
            final(self).success,
            final(self).data@.len() == 0,
            data@ == old(self).data@,
    {
        self.success = true;
        let mut data: Vec<i128> = Vec::new();
        std::mem::swap(&mut data, &mut self.data);
        data
    }

    /// What follows a ping that was sent, when the time for its answers is over: the ping is
    /// counted, and the samples so far are handed out as those of a success.
    pub fn after_ping(&mut self) -> (data: Vec<i128>)
        requires
            old(self).wf(),
            old(self).measurements_started < NUMBER_MEASUREMENTS,
        ensures
            final(self).wf(),
            final(self).session_id == old(self).session_id,
            final(self).measurement_endpoint == old(self).measurement_endpoint,
            final(self).measurements_started == old(self).measurements_started + 1,
            final(self).init_bytes_sent == old(self).init_bytes_sent,
            final(self).success,
            final(self).data@.len() == 0,
            data@ == old(self).data@,
    {
        self.ping_sent();
        self.finish()
    }

    /// What follows a pong: its samples are taken, and if the measurement is then done, all
    /// samples are handed out as those of a success.
    pub fn receive_pong(&mut self, entries: &Vec<PayloadEntry>, host_time: Duration) -> (received:
        ReceivedPong)
        requires
            old(self).wf(),
            pong_of(entries@).session_id == old(self).session_id ==> samples_countable(
                pong_of(entries@),
                host_time,
            ),
        ensures
            final(self).wf(),
            final(self).session_id == old(self).session_id,
            final(self).measurement_endpoint == old(self).measurement_endpoint,
            final(self).measurements_started == old(self).measurements_started,
            final(self).init_bytes_sent == old(self).init_bytes_sent,
            ({
                let after = after_pong(
                    old(self).session_id,
                    half_micros(old(self).data@),
                    pong_of(entries@),
                    host_time,
                );
                &&& is_reply(after.1, received.reply)
                &&& if after.2 {
                    &&& received.data matches Some(data)
                    &&& half_micros(data@) == after.0
                    &&& are_samples(data@)
                    &&& final(self).data@.len() == 0
                    &&& final(self).success
                } else {
                    &&& received.data is None
                    &&& half_micros(final(self).data@) == after.0
                    &&& final(self).success == old(self).success
                }
            }),
            pong_of(entries@).session_id != old(self).session_id ==> final(self).data@ == old(
                self,
            ).data@,
    {
        let outcome = self.on_pong(entries, host_time);
        assert(half_micros(self.data@).len() == self.data@.len());
        let data = if outcome.is_done {
            Some(self.finish())
        } else {
            None
        };
        ReceivedPong { reply: outcome.reply, data }
    }
}

/// The samples in ascending order.
pub open spec fn in_order(data: Seq<i128>) -> Seq<i128> {
    data.sort_by(|a: i128, b: i128| a <= b)
}

/// What `in_order` gives is sorted and has the same samples, and nothing else does.
pub proof fn lemma_in_order(data: Seq<i128>, sorted: Seq<i128>)
    requires
        sorted.to_multiset() == data.to_multiset(),
        forall|i: int, j: int| 0 <= i < j < sorted.len() ==> sorted[i] <= sorted[j],
    ensures
        sorted == in_order(data),
{
    let leq = |a: i128, b: i128| a <= b;
    assert(total_ordering(leq));
    data.lemma_sort_by_ensures(leq);
    assert(sorted_by(sorted, leq));
    lemma_sorted_unique(sorted, in_order(data), leq);
}

/// Four times the median of samples in half microseconds, in microseconds: twice the middle
/// one, or the sum of the two in the middle.
pub open spec fn median_quarters(data: Seq<i128>) -> int {
    let sorted = in_order(data);
    let mid = data.len() as int / 2;
    if data.len() % 2 == 0 {
        sorted[mid - 1] + sorted[mid]
    } else {
        2 * sorted[mid]
    }
}

/// The median of more than two samples, in quarter microseconds.
pub fn median(numbers: Vec<i128>) -> (quarters: i128)
    requires
        numbers@.len() > 2,
        are_samples(numbers@),
    ensures
        quarters == median_quarters(numbers@),
{
    let mut sorted: Vec<i128> = Vec::new();
    let mut i: usize = 0;
    proof {
        assert(numbers@.take(0) =~= sorted@);
    }
    while i < numbers.len()
        invariant
            i <= numbers@.len(),
            sorted@.len() == i,
            sorted@.to_multiset() == numbers@.take(i as int).to_multiset(),
            forall|j: int, k: int| 0 <= j < k < sorted@.len() ==> sorted@[j] <= sorted@[k],
            are_samples(numbers@),
            are_samples(sorted@),
        decreases numbers@.len() - i,
    {
        let number: i128 = numbers[i];
        let mut place: usize = sorted.len();
        while place > 0 && number < sorted[place - 1]
            invariant
                place <= sorted@.len(),
                forall|j: int| place <= j < sorted@.len() ==> number < #[trigger] sorted@[j],
            decreases place,
        {
            place = place - 1;
        }
        proof {
            vstd::seq_lib::to_multiset_insert(sorted@, place as int, number);
            vstd::seq_lib::to_multiset_build(numbers@.take(i as int), number);
            assert(numbers@.take(i + 1) =~= numbers@.take(i as int).push(number));
        }
        let ghost before = sorted@;
        sorted.insert(place, number);
        assert forall|j: int, k: int| 0 <= j < k < sorted@.len() implies sorted@[j]
            <= sorted@[k] by {
            let a = if j < place {
                j
            } else {
                j - 1
            };
            let b = if k < place {
                k
            } else {
                k - 1
            };
            if j != place && k != place {
                assert(before[a] <= before[b]);
            } else if k == place {
                assert(before[j] <= before[place - 1]);
            }
        }
        i = i + 1;
    }
    proof {
        assert(numbers@.take(i as int) =~= numbers@);
        lemma_in_order(numbers@, sorted@);
    }
    let mid: usize = sorted.len() / 2;
    if sorted.len() % 2 == 0 {
        sorted[mid - 1] + sorted[mid]
    } else {
        2 * sorted[mid]
    }
}

/// The nearest whole microsecond to a number of quarter microseconds; of two that are equally
/// near, the one farther from zero.
pub open spec fn nearest_micro(quarters: int) -> int {
    if quarters >= 0 {
        (quarters + 2) / 4
    } else {
        -((2 - quarters) / 4)
    }
}

/// A number of microseconds, cut off at the ends of what can be counted.
pub open spec fn cut_off(micros: int) -> int {
    if micros > i64::MAX {
        i64::MAX as int
    } else if micros < i64::MIN {
        i64::MIN as int
    } else {
        micros
    }
}

/// Whether `x_form` is the transform that the samples give: none without samples, otherwise with
/// slope one, and the median as intercept.
pub open spec fn is_transform(data: Seq<i128>, x_form: GhostXForm) -> bool {
    if data.len() == 0 {
        x_form == no_x_form()
    } else {
        &&& x_form.slope_bits == ONE
        &&& x_form.intercept.nanos() == cut_off(nearest_micro(median_quarters(data))) * 1000
    }
}

/// The result of a measurement: the transform by the median of its samples, or no transform
/// where there are none.
pub fn measurement_result(session_id: SessionId, data: Vec<i128>) -> (event: MeasurePeerEvent)
    requires
        data@.len() == 0 || data@.len() > 2,
        are_samples(data@),
    ensures
        event matches MeasurePeerEvent::XForm(id, x_form) && id == session_id && is_transform(
            data@,
            x_form,
        ),
{
    if data.len() == 0 {
        return MeasurePeerEvent::XForm(session_id, GhostXForm::default());
    }
    proof {
        lemma_median_is_bounded(data@);
    }
    let quarters: i128 = median(data);
    let rounded: i128 = if quarters >= 0 {
        (quarters + 2) / 4
    } else {
        -((2 - quarters) / 4)
    };
    let micros: i64 = if rounded > i64::MAX as i128 {
        i64::MAX
    } else if rounded < i64::MIN as i128 {
        i64::MIN
    } else {
        rounded as i64
    };
    MeasurePeerEvent::XForm(
        session_id,
        GhostXForm { slope_bits: ONE, intercept: Duration::microseconds(micros) },
    )
}

/// The samples in order are samples of the measurement.
proof fn lemma_in_order_holds_samples(data: Seq<i128>)
    ensures
        in_order(data).len() == data.len(),
        forall|i: int| 0 <= i < data.len() ==> data.contains(#[trigger] in_order(data)[i]),
        forall|i: int, j: int|
            0 <= i < j < data.len() ==> in_order(data)[i] <= in_order(data)[j],
{
    let leq = |a: i128, b: i128| a <= b;
    assert(total_ordering(leq));
    data.lemma_sort_by_ensures(leq);
    data.to_multiset_ensures();
    in_order(data).to_multiset_ensures();
    assert forall|i: int| 0 <= i < data.len() implies data.contains(
        #[trigger] in_order(data)[i],
    ) by {
        assert(in_order(data).contains(in_order(data)[i]));
    }
    assert forall|i: int, j: int| 0 <= i < j < data.len() implies in_order(data)[i] <= in_order(
        data,
    )[j] by {
        assert(leq(in_order(data)[i], in_order(data)[j]));
    }
}

/// The median is in the range of samples.
proof fn lemma_median_is_bounded(data: Seq<i128>)
    requires
        data.len() > 2,
        are_samples(data),
    ensures
        -0x4_0000_0000_0000_0000 <= median_quarters(data) <= 0x4_0000_0000_0000_0000,
{
    lemma_in_order_holds_samples(data);
    let mid = data.len() as int / 2;
    assert(data.contains(in_order(data)[mid]));
    assert(data.contains(in_order(data)[mid - 1]));
}

/// What the service keeps of a measurement: what it measures, and where. Its samples and counts
/// belong to whoever runs it.
#[derive(Clone, Copy, Debug, PartialEq, Eq, Structural)]
pub struct MeasurementEntry {
    pub session_id: SessionId,
    pub measurement_endpoint: Option<SocketAddrV4>,
}

/// The measurements under way after one by `peer` was entered.
pub open spec fn with_entry(under_way: Map<u64, MeasurementEntry>, peer: PeerState) -> Map<
    u64,
    MeasurementEntry,
> {
    under_way.insert(
        peer.node_state.node_id.0,
        MeasurementEntry {
            session_id: peer.node_state.session_id,
            measurement_endpoint: peer.measurement_endpoint,
        },
    )
}

/// Starts a measurement by a peer, and enters it among those that are under way. Returns it with
/// the entries of its first ping. An earlier measurement by the same peer loses its entry and
/// runs on with samples and counts of its own.
pub fn measure_peer(
    measurement_map: &mut HashMap<u64, MeasurementEntry>,
    state: PeerState,
    host_time: Duration,
) -> (started: (Measurement, Vec<PayloadEntry>))
    requires
        state.measurement_endpoint is Some,
    ensures
        final(measurement_map)@ == with_entry(old(measurement_map)@, state),
        started.0.wf(),
        started.0.session_id == state.node_state.session_id,
        started.0.measurement_endpoint == state.measurement_endpoint,
        started.0.data@.len() == 0,
        started.0.measurements_started == 0,
        !started.0.success,
        started.0.init_bytes_sent == 0,
        started.1@ == seq![PayloadEntry::HostTime(host_time)],
{
    broadcast use vstd::std_specs::hash::group_hash_axioms;

    let node_id: u64 = state.ident().0;
    let entry = MeasurementEntry {
        session_id: state.session_id(),
        measurement_endpoint: state.measurement_endpoint,
    };
    measurement_map.insert(node_id, entry);
    Measurement::new(state, host_time)
}

/// Takes the measurement by a peer off those that are under way, and returns its result.
pub fn measurement_done(
    measurement_map: &mut HashMap<u64, MeasurementEntry>,
    node_id: NodeId,
    session_id: SessionId,
    data: Vec<i128>,
) -> (event: MeasurePeerEvent)
    requires
        data@.len() == 0 || data@.len() > 2,
        are_samples(data@),
    ensures
        final(measurement_map)@ == old(measurement_map)@.remove(node_id.0),
        event matches MeasurePeerEvent::XForm(id, x_form) && id == session_id && is_transform(
            data@,
            x_form,
        ),
{
    broadcast use vstd::std_specs::hash::group_hash_axioms;

    measurement_map.remove(&node_id.0);
    measurement_result(session_id, data)
}

/// The session and the peer of the measurement that an event asks for.
pub open spec fn asked_for(event: MeasurePeerEvent) -> Option<(SessionId, PeerState)> {
    match event {
        MeasurePeerEvent::PeerState(session_id, peer) => Some((session_id, peer)),
        MeasurePeerEvent::XForm(_, _) => None,
    }
}

/// The measurement that an event asks for: the session and the peer to measure it by. A result
/// asks for none.
pub fn on_measure_request(event: MeasurePeerEvent) -> (due: Option<(SessionId, PeerState)>)
    ensures
        due == asked_for(event),
{
    match event {
        MeasurePeerEvent::PeerState(session_id, peer) => Some((session_id, peer)),
        MeasurePeerEvent::XForm(_, _) => None,
    }
}

/// A measurement that was started: the session that its result is for, the peer it is made by,
/// and the entries of its first ping.
#[derive(Debug)]
pub struct StartedMeasurement {
    pub session_id: SessionId,
    pub peer: PeerState,
    pub measurement: Measurement,
    pub ping: Vec<PayloadEntry>,
}

/// The measurements that are under way, by the identifiers of the peers they are made by, and
/// the session and the transform by which the pings of others are answered.
#[derive(Debug)]
pub struct MeasurementService {
    pub ping_session_id: SessionId,
    pub ping_x_form: GhostXForm,
    pub measurement_map: HashMap<u64, MeasurementEntry>,
}

impl MeasurementService {
    /// No measurement is under way. Pings are answered for the session of this peer.
    pub fn new(peer_state: &PeerState, ghost_x_form: GhostXForm) -> (service: MeasurementService)
        ensures
            service.ping_session_id == peer_state.node_state.session_id,
            service.ping_x_form == ghost_x_form,
            service.measurement_map@ == Map::<u64, MeasurementEntry>::empty(),
    {
        broadcast use vstd::std_specs::hash::group_hash_axioms;

        MeasurementService {
            ping_session_id: peer_state.session_id(),
            ping_x_form: ghost_x_form,
            measurement_map: HashMap::new(),
        }
    }

    /// Answers pings for another session, or by another transform, from now on.
    pub fn update_node_state(&mut self, session_id: SessionId, x_form: GhostXForm)
        ensures
            final(self).ping_session_id == session_id,
            final(self).ping_x_form == x_form,
            final(self).measurement_map == old(self).measurement_map,
    {
        self.ping_session_id = session_id;
        self.ping_x_form = x_form;
    }

    /// Handles an event. One that asks for a measurement by a peer starts exactly that one, for
    /// the session that it names; a result starts none.
    pub fn on_event(&mut self, event: MeasurePeerEvent, host_time: Duration) -> (started: Option<
        StartedMeasurement,
    >)
        requires
            event matches MeasurePeerEvent::PeerState(_, peer)
                ==> peer.measurement_endpoint is Some,
        ensures
            final(self).ping_session_id == old(self).ping_session_id,
            final(self).ping_x_form == old(self).ping_x_form,
            match asked_for(event) {
                Some((session_id, peer)) => {
                    &&& final(self).measurement_map@ == with_entry(
                        old(self).measurement_map@,
                        peer,
                    )
                    &&& started matches Some(s)
                    &&& s.session_id == session_id
                    &&& s.peer == peer
                    &&& s.measurement.wf()
                    &&& s.measurement.session_id == peer.node_state.session_id
                    &&& s.measurement.measurement_endpoint == peer.measurement_endpoint
                    &&& s.measurement.data@.len() == 0
                    &&& s.measurement.measurements_started == 0
                    &&& !s.measurement.success
                    &&& s.measurement.init_bytes_sent == 0
                    &&& s.ping@ == seq![PayloadEntry::HostTime(host_time)]
                },
                None => {
                    &&& final(self).measurement_map@ == old(self).measurement_map@
                    &&& started is None
                },
            },
    {
        match on_measure_request(event) {
            Some((session_id, peer)) => {
                let (measurement, ping) = measure_peer(&mut self.measurement_map, peer, host_time);
                Some(StartedMeasurement { session_id, peer, measurement, ping })
            },
            None => None,
        }
    }
}

/// The transform of a measurement that has samples is never the one that tells of a failure.
pub proof fn law_success_is_told_from_failure(x_form: GhostXForm)
    requires
        x_form.slope_bits == ONE,
    ensures
        !same_x_form(x_form, no_x_form()),
{
}

/// The median lies between the smallest and the greatest sample: within every range of half
/// microseconds that holds all samples.
pub proof fn law_median_lies_among_samples(data: Seq<i128>, low: i128, high: i128)
    requires
        data.len() > 0,
        forall|i: int| 0 <= i < data.len() ==> low <= #[trigger] data[i] <= high,
    ensures
        2 * low <= median_quarters(data) <= 2 * high,
{
    lemma_in_order_holds_samples(data);
    let mid = data.len() as int / 2;
    assert(data.contains(in_order(data)[mid]));
    if data.len() % 2 == 0 {
        assert(data.contains(in_order(data)[mid - 1]));
    }
}

/// The order in which samples come in does not matter to the median.
pub proof fn law_median_does_not_depend_on_order(a: Seq<i128>, b: Seq<i128>)
    requires
        a.to_multiset() == b.to_multiset(),
    ensures
        median_quarters(a) == median_quarters(b),
{
    let leq = |x: i128, y: i128| x <= y;
    assert(total_ordering(leq));
    a.lemma_sort_by_ensures(leq);
    b.lemma_sort_by_ensures(leq);
    lemma_sorted_unique(in_order(a), in_order(b), leq);
    a.to_multiset_ensures();
    b.to_multiset_ensures();
}

/// Where a ping and its pong take the same time, the first sample is the offset between ghost
/// time and host time, whatever that time was: all in nanoseconds that make whole
/// microseconds.
pub proof fn law_equal_delays_cancel(
    ghost: Duration,
    host: Duration,
    prev_host: Duration,
    sent: int,
    delay: int,
    offset: int,
)
    requires
        prev_host.nanos() == sent * 1000,
        host.nanos() == (sent + 2 * delay) * 1000,
        ghost.nanos() == (sent + delay + offset) * 1000,
    ensures
        offset_to_host_mean(ghost, host, prev_host) == 2 * offset,
{
    lemma_whole_micros(sent + delay + offset);
    lemma_whole_micros(2 * sent + 2 * delay);
    assert(host.nanos() + prev_host.nanos() == (2 * sent + 2 * delay) * 1000);
}

/// A number of whole microseconds is counted exactly.
pub proof fn lemma_whole_micros(micros: int)
    ensures
        whole_micros(micros * 1000) == micros,
{
    if micros >= 0 {
        assert(1000 * micros == micros * 1000);
        lemma_div_multiples_vanish(micros, 1000);
    } else {
        assert(1000 * (-micros) == -(micros * 1000));
        lemma_div_multiples_vanish(-micros, 1000);
    }
}

} // verus!
