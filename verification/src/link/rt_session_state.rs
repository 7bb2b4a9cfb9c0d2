//! Session state for a real-time thread that has it to itself.

use vstd::prelude::*;

use crate::link::duration::Duration;
use crate::link::rt_client_state::{
    grace_micros, initial_view, is_grace_over, time_micros, RtView,
};
use crate::link::state::ClientState;
use crate::link::state_buffer::StateBuffer;
use crate::link::wrap::{as_signed, to_signed};
use crate::link::IncomingClientState;

pub use crate::link::rt_client_state::RtClientState;

verus! {

/// Keeps the client state of a real-time thread and hands its changes over to others.
pub struct RtSessionStateHandler {
    buffer: StateBuffer,
    cached_rt_state: RtClientState,
    timeline_timestamp: u64,
    start_stop_timestamp: u64,
    has_pending_updates: bool,
    local_mod_grace_period_micros: u64,
}

impl View for RtSessionStateHandler {
    type V = RtView;

    closed spec fn view(&self) -> RtView {
        RtView {
            cached: self.cached_rt_state,
            latest: self.buffer.latest(),
            unread: self.buffer.unread(),
            timeline_timestamp: self.timeline_timestamp,
            start_stop_timestamp: self.start_stop_timestamp,
            pending: self.has_pending_updates,
            grace: self.local_mod_grace_period_micros,
        }
    }
}

impl RtSessionStateHandler {
    /// The buffer is sound, the pending flag tells of a state that waits in it, and such a state
    /// is the cached one.
    pub closed spec fn wf(self) -> bool {
        self.buffer.wf() && self@.flag_holds() && self@.in_step()
    }

    /// A sound handler is in step, and its pending flag holds.
    pub proof fn lemma_wf_is_in_step(self)
        requires
            self.wf(),
        ensures
            self@.in_step(),
            self@.flag_holds(),
    {
    }

    /// A handler that starts from `initial_state`. A grace period that is too long counts as
    /// one second.
    pub fn new(initial_state: ClientState, grace_period: Duration) -> (h: RtSessionStateHandler)
        ensures
            h.wf(),
            h@ == initial_view(initial_state, grace_period),
    {
        RtSessionStateHandler {
            buffer: StateBuffer::new(initial_state),
            cached_rt_state: RtClientState::from(initial_state),
            timeline_timestamp: 0,
            start_stop_timestamp: 0,
            has_pending_updates: false,
            local_mod_grace_period_micros: grace_micros(grace_period),
        }
    }

    /// The client state at `current_time`. Where a grace period is over and a state was
    /// handed over, that state is taken.
    pub fn get_rt_client_state(&mut self, current_time: Duration) -> (state: ClientState)
        requires
            old(self).wf(),
        ensures
            final(self).wf(),
            state == old(self)@.captured(current_time),
            final(self)@ == old(self)@.after_capture(current_time),
    {
        let now = time_micros(current_time);
        let grace = self.local_mod_grace_period_micros;
        let timeline_open = is_grace_over(now, self.timeline_timestamp, grace);
        let start_stop_open = is_grace_over(now, self.start_stop_timestamp, grace);
        if timeline_open || start_stop_open {
            if self.buffer.updated() {
                let new_state = self.buffer.read();
                self.has_pending_updates = false;
                if timeline_open && !(new_state.timeline == self.cached_rt_state.timeline) {
                    self.cached_rt_state.timeline = new_state.timeline;
                }
                if start_stop_open && new_state.start_stop_state
                    != self.cached_rt_state.start_stop_state {
                    self.cached_rt_state.start_stop_state = new_state.start_stop_state;
                }
                return new_state;
            }
        }
        ClientState::from(self.cached_rt_state)
    }

    /// Makes the changes of `incoming_state` and hands the new state over. Changes to an
    /// enabled session are protected for the grace period from `current_time` on.
    pub fn update_rt_client_state(
        &mut self,
        incoming_state: IncomingClientState,
        current_time: Duration,
        is_enabled: bool,
    )
        requires
            old(self).wf(),
        ensures
            final(self).wf(),
            final(self)@ == old(self)@.after_commit(incoming_state, current_time, is_enabled),
    {
        if incoming_state.timeline.is_none() && incoming_state.start_stop_state.is_none() {
            return ;
        }
        let stamp: u64 = if is_enabled {
            time_micros(current_time)
        } else {
            0
        };
        if let Some(timeline) = incoming_state.timeline {
            self.cached_rt_state.timeline = timeline;
            self.cached_rt_state.timeline_timestamp = current_time;
            self.timeline_timestamp = stamp;
        }
        if let Some(start_stop_state) = incoming_state.start_stop_state {
            self.cached_rt_state.start_stop_state = start_stop_state;
            self.cached_rt_state.start_stop_state_timestamp = current_time;
            self.start_stop_timestamp = stamp;
        }
        self.buffer.write(ClientState::from(self.cached_rt_state));
        self.has_pending_updates = true;
    }

    /// Takes a state that was handed over, if there is one that was not taken before.
    pub fn process_pending_updates(&mut self) -> (processed: Option<IncomingClientState>)
        requires
            old(self).wf(),
        ensures
            final(self).wf(),
            old(self)@.is_processed(processed),
            final(self)@ == old(self)@.after_process(),
    {
        if !self.has_pending_updates {
            return None;
        }
        if self.buffer.updated() {
            let new_state = self.buffer.read();
            self.has_pending_updates = false;
            Some(
                IncomingClientState {
                    timeline: Some(new_state.timeline),
                    start_stop_state: Some(new_state.start_stop_state),
                    timeline_timestamp: Duration::microseconds(to_signed(self.timeline_timestamp)),
                },
            )
        } else {
            None
        }
    }

    /// Whether changes wait to be processed.
    pub fn has_pending_updates(&self) -> (r: bool)
        requires
            self.wf(),
        ensures
            r == self@.pending,
            r == self@.unread,
    {
        self.has_pending_updates
    }

    /// The grace period.
    pub fn grace_period(&self) -> (d: Duration)
        ensures
            d.nanos() == as_signed(self@.grace) * 1000,
    {
        Duration::microseconds(to_signed(self.local_mod_grace_period_micros))
    }

    /// Replaces the grace period. One that is too long counts as one second.
    pub fn set_grace_period(&mut self, grace_period: Duration)
        requires
            old(self).wf(),
        ensures
            final(self).wf(),
            final(self)@ == old(self)@.with_grace(grace_period),
    {
        self.local_mod_grace_period_micros = grace_micros(grace_period);
    }
}

} // verus!
