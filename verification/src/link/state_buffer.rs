//! A single-value exchange of client states, kept in a `triple_buffer`.

use vstd::prelude::*;

use crate::link::state::ClientState;

verus! {

/// The writing half of a `triple_buffer::TripleBuffer`, opaque.
#[verifier::external_type_specification]
#[verifier::external_body]
#[verifier::reject_recursive_types(T)]
pub struct ExInput<T: Send>(triple_buffer::Input<T>);

/// The reading half of a `triple_buffer::TripleBuffer`, opaque.
#[verifier::external_type_specification]
#[verifier::external_body]
#[verifier::reject_recursive_types(T)]
pub struct ExOutput<T: Send>(triple_buffer::Output<T>);

/// What the two halves of one triple buffer hold between them: the value that the next read
/// returns, and whether it was written since the last read. `None` where the halves belong to
/// different buffers.
pub uninterp spec fn held(
    input: triple_buffer::Input<ClientState>,
    output: triple_buffer::Output<ClientState>,
) -> Option<(ClientState, bool)>;

/// Calls `triple_buffer::TripleBuffer::new` and takes the buffer apart by `split`. The two
/// halves hold `initial`, and no write is outstanding.
#[verifier::external_body]
fn buffer_new(initial: &ClientState) -> (halves: (
    triple_buffer::Input<ClientState>,
    triple_buffer::Output<ClientState>,
))
    ensures
        held(halves.0, halves.1) == Some((*initial, false)),
{
    triple_buffer::TripleBuffer::new(initial).split()
}

/// Calls `triple_buffer::Input::write`. The halves hold `value`, whether or not what they held
/// before was ever read, and the write is outstanding. The reading half is named for what the
/// two hold together; the call does not touch it.
#[verifier::external_body]
fn buffer_write(
    input: &mut triple_buffer::Input<ClientState>,
    output: &triple_buffer::Output<ClientState>,
    value: ClientState,
)
    requires
        held(*old(input), *output) is Some,
    ensures
        held(*final(input), *output) == Some((value, true)),
{
    input.write(value);
}

/// Calls `triple_buffer::Output::updated`: whether a write is outstanding.
#[verifier::external_body]
fn buffer_updated(
    input: &triple_buffer::Input<ClientState>,
    output: &triple_buffer::Output<ClientState>,
) -> (updated: bool)
    requires
        held(*input, *output) is Some,
    ensures
        updated == held(*input, *output)->Some_0.1,
{
    output.updated()
}

/// Calls `triple_buffer::Output::read`. It returns the value that the halves hold; they go on
/// holding it, and no write is outstanding.
#[verifier::external_body]
fn buffer_read(
    input: &triple_buffer::Input<ClientState>,
    output: &mut triple_buffer::Output<ClientState>,
) -> (value: ClientState)
    requires
        held(*input, *old(output)) is Some,
    ensures
        value == held(*input, *old(output))->Some_0.0,
        held(*input, *final(output)) == Some((value, false)),
{
    *output.read()
}

/// Both halves of one triple buffer of client states.
pub struct StateBuffer {
    input: triple_buffer::Input<ClientState>,
    output: triple_buffer::Output<ClientState>,
}

impl StateBuffer {
    /// The two halves belong together.
    pub closed spec fn wf(self) -> bool {
        held(self.input, self.output) is Some
    }

    /// The value that the next read returns.
    pub closed spec fn latest(self) -> ClientState {
        held(self.input, self.output)->Some_0.0
    }

    /// Whether that value was written since the last read.
    pub closed spec fn unread(self) -> bool {
        held(self.input, self.output)->Some_0.1
    }

    /// A buffer that holds `initial`, as read.
    pub fn new(initial: ClientState) -> (b: StateBuffer)
        ensures
            b.wf(),
            b.latest() == initial,
            !b.unread(),
    {
        let halves = buffer_new(&initial);
        StateBuffer { input: halves.0, output: halves.1 }
    }

    /// Replaces the value that the buffer holds.
    pub fn write(&mut self, value: ClientState)
        requires
            old(self).wf(),
        ensures
            final(self).wf(),
            final(self).latest() == value,
            final(self).unread(),
    {
        buffer_write(&mut self.input, &self.output, value);
    }

    /// Whether the value was written since the last read.
    pub fn updated(&self) -> (r: bool)
        requires
            self.wf(),
        ensures
            r == self.unread(),
    {
        buffer_updated(&self.input, &self.output)
    }

    /// Takes the latest value and marks it read.
    pub fn read(&mut self) -> (value: ClientState)
        requires
            old(self).wf(),
        ensures
            final(self).wf(),
            value == old(self).latest(),
            final(self).latest() == value,
            !final(self).unread(),
    {
        buffer_read(&self.input, &mut self.output)
    }
}

} // verus!
