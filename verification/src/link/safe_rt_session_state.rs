//! Session state that several threads share without waiting for each other.

use vstd::prelude::*;

use crate::link::duration::Duration;
use crate::link::rt_client_state::{
    asks_nothing, client_state, grace_micros, initial_view, is_grace_over,
    time_micros, RtView,
};
use crate::link::state::ClientState;
use crate::link::state_buffer::StateBuffer;
use crate::link::wrap::{as_signed, to_signed};
use crate::link::IncomingClientState;

pub use crate::link::rt_client_state::RtClientState;

verus! {

/// Which parts of a shared handler a caller got hold of. Captures and commits do not wait for a
/// part that another thread holds at that moment, they pass it over. Processing waits for the
/// buffer, and passes it over only where a thread failed while it held it.
#[derive(Clone, Copy, Debug)]
pub struct Locks {
    /// The half of the buffer that is written to.
    pub input: bool,
    /// The half of the buffer that is read from.
    pub output: bool,
    /// The cached state, for changing it.
    pub cache_write: bool,
    /// The cached state, for reading it.
    pub cache_read: bool,
}

/// What a capture at `time` returns to a caller that got hold of the parts in `locks`: the state
/// that was handed over, if it may be taken, otherwise the cached state, otherwise the last known.
pub open spec fn captured_with(
    view: RtView,
    last_known: ClientState,
    time: Duration,
    locks: Locks,
) -> ClientState {
    if view.takes_latest(time) && locks.output {
        view.latest
    } else if locks.cache_read {
        client_state(view.cached)
    } else {
        last_known
    }
}

/// What the handler knows after a capture at `time` by a caller that got hold of the parts in
/// `locks`.
pub open spec fn after_capture_with(view: RtView, time: Duration, locks: Locks) -> RtView {
    if view.takes_latest(time) && locks.output {
        RtView {
            cached: if locks.cache_write {
                view.absorbed(time)
            } else {
                view.cached
            },
            unread: false,
            pending: false,
            ..view
        }
    } else {
        view
    }
}

/// What the handler knows, and the last known state, after a commit by a caller that got hold of
/// the parts in `locks`.
pub open spec fn after_commit_with(
    view: RtView,
    last_known: ClientState,
    incoming: IncomingClientState,
    time: Duration,
    is_enabled: bool,
    locks: Locks,
) -> (RtView, ClientState) {
    let changed = view.with_changes(incoming, time, is_enabled);
    if asks_nothing(incoming) || !locks.cache_write {
        (view, last_known)
    } else if locks.input {
        (changed.handed_over(), client_state(changed.cached))
    } else {
        (changed, client_state(changed.cached))
    }
}

/// Whether processing by a caller that got hold of the parts in `locks` may return `processed` and
/// lead to `after`.
pub open spec fn is_processed_with(
    view: RtView,
    locks: Locks,
    processed: Option<IncomingClientState>,
    after: RtView,
) -> bool {
    if locks.output {
        view.is_processed(processed) && after == view.after_process()
    } else {
        processed is None && after == view
    }
}

/// Keeps the client state that a real-time thread shares with others.
pub struct SafeRtSessionStateHandler {
    buffer: StateBuffer,
    cached_rt_state: RtClientState,
    timeline_timestamp: u64,
    start_stop_timestamp: u64,
    has_pending_updates: bool,
    local_mod_grace_period_micros: u64,
    last_known: ClientState,
}

impl View for SafeRtSessionStateHandler {
    type V = RtView;

    closed spec fn view(&self) -> RtView {
        RtView {
            cached: self.cached_rt_state,
            latest: self.buffer.latest(),
            unread: self.buffer.unread(),
            timeline_timestamp: self.timeline_timestamp,
            start_stop_timestamp: self.start_stop_timestamp,
            pending: self.has_pending_updates,
            grace: self.local_mod_grace_period_micros,
        }
    }
}

impl SafeRtSessionStateHandler {
    /// The buffer is sound, and the pending flag tells of a state that waits in it.
    pub closed spec fn wf(self) -> bool {
        self.buffer.wf() && self@.flag_holds()
    }

    /// The pending flag of a sound handler holds.
    pub proof fn lemma_wf_flag_holds(self)
        requires
            self.wf(),
        ensures
            self@.flag_holds(),
    {
    }

    /// The client state that was last captured or committed.
    pub closed spec fn last_known(self) -> ClientState {
        self.last_known
    }

    /// A handler that starts from `initial_state`. A grace period that is too long counts as
    /// one second.
    pub fn new(initial_state: ClientState, grace_period: Duration) -> (h: SafeRtSessionStateHandler)
        ensures
            h.wf(),
            h@ == initial_view(initial_state, grace_period),
            h.last_known() == initial_state,
    {
        SafeRtSessionStateHandler {
            buffer: StateBuffer::new(initial_state),
            cached_rt_state: RtClientState::from(initial_state),
            timeline_timestamp: 0,
            start_stop_timestamp: 0,
            has_pending_updates: false,
            local_mod_grace_period_micros: grace_micros(grace_period),
            last_known: initial_state,
        }
    }

    /// The client state at `current_time`, where the caller got hold of the parts in `locks`.
    /// Where it cannot even read the cached state it gets the last known one.
    pub fn try_get_rt_client_state(
        &mut self,
        current_time: Duration,
        locks: Locks,
    ) -> (state: ClientState)
        requires
            old(self).wf(),
        ensures
            final(self).wf(),
            state == captured_with(old(self)@, old(self).last_known(), current_time, locks),
            final(self)@ == after_capture_with(old(self)@, current_time, locks),
            final(self).last_known() == state,
    {
        let now = time_micros(current_time);
        let grace = self.local_mod_grace_period_micros;
        let timeline_open = is_grace_over(now, self.timeline_timestamp, grace);
        let start_stop_open = is_grace_over(now, self.start_stop_timestamp, grace);
        if timeline_open || start_stop_open {
            if locks.output {
                if self.buffer.updated() {
                    let new_state = self.buffer.read();
                    self.has_pending_updates = false;
                    self.last_known = new_state;
                    if locks.cache_write {
                        if timeline_open && !(new_state.timeline == self.cached_rt_state.timeline) {
                            self.cached_rt_state.timeline = new_state.timeline;
                        }
                        if start_stop_open && new_state.start_stop_state
                            != self.cached_rt_state.start_stop_state {
                            self.cached_rt_state.start_stop_state = new_state.start_stop_state;
                        }
                    }
                    return new_state;
                }
            }
        }
        if locks.cache_read {
            self.last_known = ClientState::from(self.cached_rt_state);
        }
        self.last_known
    }

    /// The client state at `current_time`, for a caller that has the handler to itself.
    pub fn get_rt_client_state(&mut self, current_time: Duration) -> (state: ClientState)
        requires
            old(self).wf(),
        ensures
            final(self).wf(),
            state == old(self)@.captured(current_time),
            final(self)@ == old(self)@.after_capture(current_time),
            final(self).last_known() == state,
    {
        let locks = Locks { input: true, output: true, cache_write: true, cache_read: true };
        self.try_get_rt_client_state(current_time, locks)
    }

    /// Makes the changes of `incoming_state` where the caller got hold of the cached state,
    /// and hands the new state over where it got hold of the buffer too.
    pub fn try_update_rt_client_state(
        &mut self,
        incoming_state: IncomingClientState,
        current_time: Duration,
        is_enabled: bool,
        locks: Locks,
    )
        requires
            old(self).wf(),
        ensures
            final(self).wf(),
            (final(self)@, final(self).last_known()) == after_commit_with(
                old(self)@,
                old(self).last_known(),
                incoming_state,
                current_time,
                is_enabled,
                locks,
            ),
    {
        if incoming_state.timeline.is_none() && incoming_state.start_stop_state.is_none() {
            return ;
        }
        let stamp: u64 = if is_enabled {
            time_micros(current_time)
        } else {
            0
        };
        if locks.cache_write {
            if let Some(timeline) = incoming_state.timeline {
                self.cached_rt_state.timeline = timeline;
                self.cached_rt_state.timeline_timestamp = current_time;
                self.timeline_timestamp = stamp;
            }
            if let Some(start_stop_state) = incoming_state.start_stop_state {
                self.cached_rt_state.start_stop_state = start_stop_state;
                self.cached_rt_state.start_stop_state_timestamp = current_time;
                self.start_stop_timestamp = stamp;
            }
            self.last_known = ClientState::from(self.cached_rt_state);
            if locks.input {
                self.buffer.write(self.last_known);
                self.has_pending_updates = true;
            }
        }
    }

    /// Makes the changes of `incoming_state` and hands the new state over, for a caller that
    /// has the handler to itself.
    pub fn update_rt_client_state(
        &mut self,
        incoming_state: IncomingClientState,
        current_time: Duration,
        is_enabled: bool,
    )
        requires
            old(self).wf(),
        ensures
            final(self).wf(),
            final(self)@ == old(self)@.after_commit(incoming_state, current_time, is_enabled),
            final(self).last_known() == if asks_nothing(incoming_state) {
                old(self).last_known()
            } else {
                client_state(final(self)@.cached)
            },
    {
        let locks = Locks { input: true, output: true, cache_write: true, cache_read: true };
        self.try_update_rt_client_state(incoming_state, current_time, is_enabled, locks);
    }

    /// Takes a state that was handed over, if there is one that was not taken before and the
    /// caller got hold of the buffer.
    pub fn try_process_pending_updates(&mut self, locks: Locks) -> (processed: Option<
        IncomingClientState,
    >)
        requires
            old(self).wf(),
        ensures
            final(self).wf(),
            is_processed_with(old(self)@, locks, processed, final(self)@),
            final(self).last_known() == old(self).last_known(),
    {
        if !self.has_pending_updates {
            return None;
        }
        if locks.output {
            if self.buffer.updated() {
                let new_state = self.buffer.read();
                self.has_pending_updates = false;
                let stamp = Duration::microseconds(to_signed(self.timeline_timestamp));
                return Some(
                    IncomingClientState {
                        timeline: Some(new_state.timeline),
                        start_stop_state: Some(new_state.start_stop_state),
                        timeline_timestamp: stamp,
                    },
                );
            }
        }
        None
    }

    /// Takes a state that was handed over, if there is one that was not taken before, for a
    /// caller that has the handler to itself.
    pub fn process_pending_updates(&mut self) -> (processed: Option<IncomingClientState>)
        requires
            old(self).wf(),
        ensures
            final(self).wf(),
            old(self)@.is_processed(processed),
            final(self)@ == old(self)@.after_process(),
            final(self).last_known() == old(self).last_known(),
    {
        let locks = Locks { input: true, output: true, cache_write: true, cache_read: true };
        self.try_process_pending_updates(locks)
    }

    /// Whether changes wait to be processed.
    pub fn has_pending_updates(&self) -> (r: bool)
        requires
            self.wf(),
        ensures
            r == self@.pending,
            r == self@.unread,
    {
        self.has_pending_updates
    }

    /// The grace period.
    pub fn grace_period(&self) -> (d: Duration)
        ensures
            d.nanos() == as_signed(self@.grace) * 1000,
    {
        Duration::microseconds(to_signed(self.local_mod_grace_period_micros))
    }

    /// Replaces the grace period. One that is too long counts as one second.
    pub fn set_grace_period(&mut self, grace_period: Duration)
        requires
            old(self).wf(),
        ensures
            final(self).wf(),
            final(self)@ == old(self)@.with_grace(grace_period),
            final(self).last_known() == old(self).last_known(),
    {
        self.local_mod_grace_period_micros = grace_micros(grace_period);
    }
}

} // verus!
