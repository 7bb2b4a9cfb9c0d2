//! The state behind the real-time handlers, and what captures and commits make of it.

use vstd::prelude::*;

use crate::link::duration::{whole_micros, Duration};
use crate::link::state::{ClientStartStopState, ClientState};
use crate::link::timeline::{same_timeline, Timeline};
use crate::link::wrap::{as_signed, as_unsigned, to_unsigned};
use crate::link::IncomingClientState;

verus! {

/// Client state for a real-time thread, with the times of the last local changes.
#[derive(Clone, Copy, Debug)]
pub struct RtClientState {
    pub timeline: Timeline,
    pub start_stop_state: ClientStartStopState,
    pub timeline_timestamp: Duration,
    pub start_stop_state_timestamp: Duration,
}

/// `client` as a real-time state that was never changed locally.
pub open spec fn rt_state(client: ClientState) -> RtClientState {
    RtClientState {
        timeline: client.timeline,
        start_stop_state: client.start_stop_state,
        timeline_timestamp: Duration::empty(),
        start_stop_state_timestamp: Duration::empty(),
    }
}

/// `rt` without the times of its last changes.
pub open spec fn client_state(rt: RtClientState) -> ClientState {
    ClientState { timeline: rt.timeline, start_stop_state: rt.start_stop_state }
}

impl From<ClientState> for RtClientState {
    fn from(client: ClientState) -> (rt: RtClientState) {
        RtClientState {
            timeline: client.timeline,
            start_stop_state: client.start_stop_state,
            timeline_timestamp: Duration::zero(),
            start_stop_state_timestamp: Duration::zero(),
        }
    }
}

impl vstd::std_specs::convert::FromSpecImpl<ClientState> for RtClientState {
    open spec fn obeys_from_spec() -> bool {
        true
    }

    open spec fn from_spec(client: ClientState) -> RtClientState {
        rt_state(client)
    }
}

impl From<RtClientState> for ClientState {
    fn from(rt: RtClientState) -> (client: ClientState) {
        ClientState { timeline: rt.timeline, start_stop_state: rt.start_stop_state }
    }
}

impl vstd::std_specs::convert::FromSpecImpl<RtClientState> for ClientState {
    open spec fn obeys_from_spec() -> bool {
        true
    }

    open spec fn from_spec(rt: RtClientState) -> ClientState {
        client_state(rt)
    }
}

/// The whole microseconds in `span` as a counter, or `default` where they do not fit.
/// A negative count wraps around.
pub open spec fn counter_micros(span: Duration, default: int) -> int {
    let whole = whole_micros(span.nanos());
    if i64::MIN <= whole <= i64::MAX {
        as_unsigned(whole as i64)
    } else {
        default
    }
}

/// A point in time as a microsecond counter; zero where it does not fit.
pub fn time_micros(time: Duration) -> (micros: u64)
    ensures
        micros == counter_micros(time, 0),
{
    match time.num_microseconds() {
        Some(m) => to_unsigned(m),
        None => 0,
    }
}

/// A grace period in microseconds; one second where it does not fit.
pub fn grace_micros(grace_period: Duration) -> (micros: u64)
    ensures
        micros == counter_micros(grace_period, 1_000_000),
{
    match grace_period.num_microseconds() {
        Some(m) => to_unsigned(m),
        None => 1_000_000,
    }
}

/// Whether a local change made at `stamp` no longer holds back other changes at `now`.
pub open spec fn grace_over(now: int, stamp: int, grace: int) -> bool {
    now - stamp > grace
}

/// Whether the grace period since `stamp` is over at `now`.
pub fn is_grace_over(now: u64, stamp: u64, grace: u64) -> (r: bool)
    ensures
        r == grace_over(now as int, stamp as int, grace as int),
{
    now.saturating_sub(stamp) > grace
}

/// What a handler knows.
pub struct RtView {
    /// The state that the real-time thread works with.
    pub cached: RtClientState,
    /// The state that was last handed over.
    pub latest: ClientState,
    /// Whether that state was not yet taken.
    pub unread: bool,
    /// When the timeline was last changed locally, in microseconds.
    pub timeline_timestamp: u64,
    /// When the start and stop state was last changed locally, in microseconds.
    pub start_stop_timestamp: u64,
    /// Whether a change waits to be processed.
    pub pending: bool,
    /// The grace period in microseconds.
    pub grace: u64,
}

/// What a new handler knows.
pub open spec fn initial_view(initial: ClientState, grace_period: Duration) -> RtView {
    RtView {
        cached: rt_state(initial),
        latest: initial,
        unread: false,
        timeline_timestamp: 0,
        start_stop_timestamp: 0,
        pending: false,
        grace: counter_micros(grace_period, 1_000_000) as u64,
    }
}

impl RtView {
    /// Whether the timeline may be replaced at `time`.
    pub open spec fn timeline_open(self, time: Duration) -> bool {
        grace_over(counter_micros(time, 0), self.timeline_timestamp as int, self.grace as int)
    }

    /// Whether the start and stop state may be replaced at `time`.
    pub open spec fn start_stop_open(self, time: Duration) -> bool {
        grace_over(counter_micros(time, 0), self.start_stop_timestamp as int, self.grace as int)
    }

    /// Whether a capture at `time` takes the state that was handed over.
    pub open spec fn takes_latest(self, time: Duration) -> bool {
        self.unread && (self.timeline_open(time) || self.start_stop_open(time))
    }

    /// The cached state after it took in what was handed over, as far as the grace periods
    /// allow at `time`.
    pub open spec fn absorbed(self, time: Duration) -> RtClientState {
        RtClientState {
            timeline: if self.timeline_open(time) && !same_timeline(
                self.latest.timeline,
                self.cached.timeline,
            ) {
                self.latest.timeline
            } else {
                self.cached.timeline
            },
            start_stop_state: if self.start_stop_open(time) {
                self.latest.start_stop_state
            } else {
                self.cached.start_stop_state
            },
            ..self.cached
        }
    }

    /// What a capture at `time` returns.
    pub open spec fn captured(self, time: Duration) -> ClientState {
        if self.takes_latest(time) {
            self.latest
        } else {
            client_state(self.cached)
        }
    }

    /// What the handler knows after a capture at `time`.
    pub open spec fn after_capture(self, time: Duration) -> RtView {
        if self.takes_latest(time) {
            RtView { cached: self.absorbed(time), unread: false, pending: false, ..self }
        } else {
            self
        }
    }

    /// The cached state with the changes of `incoming`, made at `time`.
    pub open spec fn merged(self, incoming: IncomingClientState, time: Duration) -> RtClientState {
        RtClientState {
            timeline: match incoming.timeline {
                Some(timeline) => timeline,
                None => self.cached.timeline,
            },
            timeline_timestamp: if incoming.timeline is Some {
                time
            } else {
                self.cached.timeline_timestamp
            },
            start_stop_state: match incoming.start_stop_state {
                Some(start_stop_state) => start_stop_state,
                None => self.cached.start_stop_state,
            },
            start_stop_state_timestamp: if incoming.start_stop_state is Some {
                time
            } else {
                self.cached.start_stop_state_timestamp
            },
        }
    }

    /// The handler with the changes of `incoming` in its cache and in its time stamps.
    /// A disabled session stamps its changes with zero.
    pub open spec fn with_changes(
        self,
        incoming: IncomingClientState,
        time: Duration,
        is_enabled: bool,
    ) -> RtView {
        let stamp = if is_enabled {
            counter_micros(time, 0) as u64
        } else {
            0
        };
        RtView {
            cached: self.merged(incoming, time),
            timeline_timestamp: if incoming.timeline is Some {
                stamp
            } else {
                self.timeline_timestamp
            },
            start_stop_timestamp: if incoming.start_stop_state is Some {
                stamp
            } else {
                self.start_stop_timestamp
            },
            ..self
        }
    }

    /// The handler after it handed its cached state over.
    pub open spec fn handed_over(self) -> RtView {
        RtView { latest: client_state(self.cached), unread: true, pending: true, ..self }
    }

    /// What the handler knows after a commit of `incoming` at `time`.
    pub open spec fn after_commit(
        self,
        incoming: IncomingClientState,
        time: Duration,
        is_enabled: bool,
    ) -> RtView {
        if asks_nothing(incoming) {
            self
        } else {
            self.with_changes(incoming, time, is_enabled).handed_over()
        }
    }

    /// What the handler knows after its grace period was replaced.
    pub open spec fn with_grace(self, grace_period: Duration) -> RtView {
        RtView { grace: counter_micros(grace_period, 1_000_000) as u64, ..self }
    }

    /// What the handler knows after processing its pending changes.
    pub open spec fn after_process(self) -> RtView {
        if self.pending {
            RtView { unread: false, pending: false, ..self }
        } else {
            self
        }
    }

    /// Whether `processed` is what processing the pending changes returns.
    pub open spec fn is_processed(self, processed: Option<IncomingClientState>) -> bool {
        match processed {
            Some(change) => {
                &&& self.pending
                &&& change.timeline == Some(self.latest.timeline)
                &&& change.start_stop_state == Some(self.latest.start_stop_state)
                &&& change.timeline_timestamp.nanos() == as_signed(self.timeline_timestamp) * 1000
            },
            None => !self.pending,
        }
    }

    /// A change waits to be processed exactly where a state that was handed over was not taken.
    pub open spec fn flag_holds(self) -> bool {
        self.pending == self.unread
    }

    /// A state that waits to be taken is the state that the real-time thread works with.
    pub open spec fn in_step(self) -> bool {
        self.unread ==> self.latest == client_state(self.cached)
    }
}

/// Whether `incoming` holds no change.
pub open spec fn asks_nothing(incoming: IncomingClientState) -> bool {
    incoming.timeline is None && incoming.start_stop_state is None
}

/// A handler starts in step, and captures, commits and processing keep it so.
pub proof fn law_handler_stays_in_step(
    view: RtView,
    initial: ClientState,
    incoming: IncomingClientState,
    time: Duration,
    is_enabled: bool,
)
    ensures
        initial_view(initial, time).in_step(),
        view.in_step() ==> view.after_capture(time).in_step(),
        view.in_step() ==> view.after_commit(incoming, time, is_enabled).in_step(),
        view.in_step() ==> view.after_process().in_step(),
{
}

/// The pending flag of a new handler holds, and captures, commits and processing keep it so.
pub proof fn law_pending_flag_holds(
    view: RtView,
    initial: ClientState,
    incoming: IncomingClientState,
    time: Duration,
    is_enabled: bool,
)
    ensures
        initial_view(initial, time).flag_holds(),
        view.flag_holds() ==> view.after_capture(time).flag_holds(),
        view.flag_holds() ==> view.after_commit(incoming, time, is_enabled).flag_holds(),
        view.flag_holds() ==> view.after_process().flag_holds(),
{
}

/// Processing returns an update exactly where the pending flag was set, and the flag is not set
/// afterwards, so that processing again returns nothing.
pub proof fn law_pending_flag_tells_of_updates(
    view: RtView,
    processed: Option<IncomingClientState>,
    again: Option<IncomingClientState>,
)
    requires
        view.is_processed(processed),
        view.after_process().is_processed(again),
    ensures
        processed is Some <==> view.pending,
        !view.after_process().pending,
        again is None,
{
}

/// A capture that takes the update that waited leaves none to process.
pub proof fn law_captured_update_is_not_pending(view: RtView, time: Duration)
    requires
        view.takes_latest(time),
    ensures
        !view.after_capture(time).pending,
        view.after_capture(time).after_process() == view.after_capture(time),
{
}

/// A capture from a handler in step returns what the real-time thread works with, at any time
/// and whatever the grace periods are, and leaves it as it is.
pub proof fn law_capture_returns_the_working_state(view: RtView, time: Duration)
    requires
        view.in_step(),
    ensures
        view.captured(time) == client_state(view.cached),
        client_state(view.after_capture(time).cached) == client_state(view.cached),
        view.after_capture(time).cached == view.cached,
{
}

/// What was committed is what the next capture returns: each part that the commit names, and
/// the working state in the parts that it does not name.
pub proof fn law_capture_returns_what_was_committed(
    view: RtView,
    incoming: IncomingClientState,
    commit_time: Duration,
    is_enabled: bool,
    capture_time: Duration,
)
    requires
        view.in_step(),
    ensures
        ({
            let committed = view.after_commit(incoming, commit_time, is_enabled);
            let captured = committed.captured(capture_time);
            &&& captured.timeline == match incoming.timeline {
                Some(timeline) => timeline,
                None => view.cached.timeline,
            }
            &&& captured.start_stop_state == match incoming.start_stop_state {
                Some(start_stop_state) => start_stop_state,
                None => view.cached.start_stop_state,
            }
        }),
{
}

/// Processing right after a commit returns the committed state once: processing again
/// returns nothing.
pub proof fn law_commit_is_processed_once(
    view: RtView,
    incoming: IncomingClientState,
    time: Duration,
    is_enabled: bool,
    processed: Option<IncomingClientState>,
    again: Option<IncomingClientState>,
)
    requires
        !asks_nothing(incoming),
        view.after_commit(incoming, time, is_enabled).is_processed(processed),
        view.after_commit(incoming, time, is_enabled).after_process().is_processed(again),
    ensures
        processed is Some,
        processed->Some_0.timeline == Some(view.merged(incoming, time).timeline),
        processed->Some_0.start_stop_state == Some(view.merged(incoming, time).start_stop_state),
        again is None,
{
}

/// A second commit before the first was processed leaves only the second to process.
pub proof fn law_later_commit_replaces_an_unprocessed_one(
    view: RtView,
    first: IncomingClientState,
    first_time: Duration,
    second: IncomingClientState,
    second_time: Duration,
    is_enabled: bool,
)
    requires
        second.timeline is Some,
        second.start_stop_state is Some,
    ensures
        ({
            let direct = view.after_commit(second, second_time, is_enabled);
            let both = view.after_commit(first, first_time, is_enabled).after_commit(
                second,
                second_time,
                is_enabled,
            );
            both == direct
        }),
{
}

/// A grace period that fits keeps its whole microseconds: what was set is what is read back.
pub proof fn law_grace_period_is_kept(grace_period: Duration)
    requires
        i64::MIN <= whole_micros(grace_period.nanos()) <= i64::MAX,
    ensures
        as_signed(counter_micros(grace_period, 1_000_000) as u64) == whole_micros(
            grace_period.nanos(),
        ),
{
}

/// After a commit to a disabled session the parts that it changed are open to replacement
/// as soon as the clock is past the grace period, however recent the commit is.
pub proof fn law_disabled_commit_has_no_grace(
    view: RtView,
    incoming: IncomingClientState,
    commit_time: Duration,
    time: Duration,
)
    requires
        counter_micros(time, 0) > view.grace,
    ensures
        ({
            let committed = view.after_commit(incoming, commit_time, false);
            &&& incoming.timeline is Some ==> committed.timeline_open(time)
            &&& incoming.start_stop_state is Some ==> committed.start_stop_open(time)
        }),
{
}

/// After a commit to an enabled session the parts that it changed are closed to replacement
/// until the grace period since the commit is over, and open from then on.
pub proof fn law_enabled_commit_holds_for_its_grace(
    view: RtView,
    incoming: IncomingClientState,
    commit_time: Duration,
    time: Duration,
)
    ensures
        ({
            let committed = view.after_commit(incoming, commit_time, true);
            let open = counter_micros(time, 0) - counter_micros(commit_time, 0) > view.grace;
            &&& incoming.timeline is Some ==> committed.timeline_open(time) == open
            &&& incoming.start_stop_state is Some ==> committed.start_stop_open(time) == open
        }),
{
}

} // verus!
