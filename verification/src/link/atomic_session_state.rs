//! The session state that audio and application threads capture and commit.

use vstd::prelude::*;

use crate::link::duration::Duration;
use crate::link::rt_client_state::{initial_view, RtView};
use crate::link::safe_rt_session_state::SafeRtSessionStateHandler;
use crate::link::state::ClientState;
use crate::link::wrap::as_signed;
use crate::link::IncomingClientState;

verus! {

/// A handler, together with whether the session is enabled and how many peers it has.
pub struct AtomicSessionState {
    rt_handler: SafeRtSessionStateHandler,
    is_enabled: bool,
    peer_count: u64,
}

impl AtomicSessionState {
    /// The handler is sound and in step, and the peer count is one that was set.
    pub closed spec fn wf(self) -> bool {
        self.rt_handler.wf() && self.rt_handler@.in_step() && self.peer_count <= usize::MAX
    }

    /// The handler of a sound session state is in step, and its pending flag holds.
    pub proof fn lemma_wf_is_in_step(self)
        requires
            self.wf(),
        ensures
            self.handler().in_step(),
            self.handler().flag_holds(),
    {
        self.rt_handler.lemma_wf_flag_holds();
    }

    /// What the handler knows.
    pub closed spec fn handler(self) -> RtView {
        self.rt_handler@
    }

    /// Whether the session is enabled.
    pub closed spec fn enabled(self) -> bool {
        self.is_enabled
    }

    /// How many peers the session has.
    pub closed spec fn peers(self) -> int {
        self.peer_count as int
    }

    /// A disabled session without peers that starts from `initial_state`.
    pub fn new(initial_state: ClientState, grace_period: Duration) -> (s: AtomicSessionState)
        ensures
            s.wf(),
            s.handler() == initial_view(initial_state, grace_period),
            !s.enabled(),
            s.peers() == 0,
    {
        AtomicSessionState {
            rt_handler: SafeRtSessionStateHandler::new(initial_state, grace_period),
            is_enabled: false,
            peer_count: 0,
        }
    }

    /// The client state for an audio thread.
    pub fn capture_audio_session_state(&mut self, current_time: Duration) -> (state: ClientState)
        requires
            old(self).wf(),
        ensures
            final(self).wf(),
            state == old(self).handler().captured(current_time),
            final(self).handler() == old(self).handler().after_capture(current_time),
            final(self).enabled() == old(self).enabled(),
            final(self).peers() == old(self).peers(),
    {
        self.rt_handler.get_rt_client_state(current_time)
    }

    /// Makes the changes that an audio thread asks for.
    pub fn commit_audio_session_state(&mut self, incoming_state: IncomingClientState, current_time: Duration)
        requires
            old(self).wf(),
        ensures
            final(self).wf(),
            final(self).handler() == old(self).handler().after_commit(
                incoming_state,
                current_time,
                old(self).enabled(),
            ),
            final(self).enabled() == old(self).enabled(),
            final(self).peers() == old(self).peers(),
    {
        self.rt_handler.update_rt_client_state(incoming_state, current_time, self.is_enabled);
    }

    /// The client state for an application thread.
    pub fn capture_app_session_state(&mut self, current_time: Duration) -> (state: ClientState)
        requires
            old(self).wf(),
        ensures
            final(self).wf(),
            state == old(self).handler().captured(current_time),
            final(self).handler() == old(self).handler().after_capture(current_time),
            final(self).enabled() == old(self).enabled(),
            final(self).peers() == old(self).peers(),
    {
        self.rt_handler.get_rt_client_state(current_time)
    }

    /// Makes the changes that an application thread asks for.
    pub fn commit_app_session_state(&mut self, incoming_state: IncomingClientState, current_time: Duration)
        requires
            old(self).wf(),
        ensures
            final(self).wf(),
            final(self).handler() == old(self).handler().after_commit(
                incoming_state,
                current_time,
                old(self).enabled(),
            ),
            final(self).enabled() == old(self).enabled(),
            final(self).peers() == old(self).peers(),
    {
        self.rt_handler.update_rt_client_state(incoming_state, current_time, self.is_enabled);
    }

    /// Takes changes that wait to be processed.
    pub fn process_pending_updates(&mut self) -> (processed: Option<IncomingClientState>)
        requires
            old(self).wf(),
        ensures
            final(self).wf(),
            old(self).handler().is_processed(processed),
            final(self).handler() == old(self).handler().after_process(),
            final(self).enabled() == old(self).enabled(),
            final(self).peers() == old(self).peers(),
    {
        self.rt_handler.process_pending_updates()
    }

    /// Enables or disables the session.
    pub fn set_enabled(&mut self, enabled: bool)
        requires
            old(self).wf(),
        ensures
            final(self).wf(),
            final(self).handler() == old(self).handler(),
            final(self).enabled() == enabled,
            final(self).peers() == old(self).peers(),
    {
        self.is_enabled = enabled;
    }

    /// Whether the session is enabled.
    pub fn is_enabled(&self) -> (r: bool)
        ensures
            r == self.enabled(),
    {
        self.is_enabled
    }

    /// Sets the number of peers.
    pub fn set_peer_count(&mut self, count: usize)
        requires
            old(self).wf(),
        ensures
            final(self).wf(),
            final(self).handler() == old(self).handler(),
            final(self).enabled() == old(self).enabled(),
            final(self).peers() == count,
    {
        self.peer_count = count as u64;
    }

    /// The number of peers.
    pub fn peer_count(&self) -> (count: usize)
        requires
            self.wf(),
        ensures
            count == self.peers(),
    {
        self.peer_count as usize
    }

    /// Whether changes wait to be processed.
    pub fn has_pending_updates(&self) -> (r: bool)
        requires
            self.wf(),
        ensures
            r == self.handler().pending,
            r == self.handler().unread,
    {
        self.rt_handler.has_pending_updates()
    }

    /// The grace period.
    pub fn grace_period(&self) -> (d: Duration)
        ensures
            d.nanos() == as_signed(self.handler().grace) * 1000,
    {
        self.rt_handler.grace_period()
    }
}

} // verus!
