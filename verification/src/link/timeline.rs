//! Tempo, beats and the timeline that ties beats to time.

use vstd::prelude::*;

use crate::link::duration::Duration;
use crate::link::ieee::{is_nan, same_number, same_number_spec};

verus! {

/// A tempo in beats per minute, held as the bit pattern of a floating-point number.
#[derive(Clone, Copy, Debug)]
pub struct Tempo {
    pub bpm_bits: u64,
}

impl Tempo {
    /// The tempo whose beats per minute have the bit pattern `bpm_bits`.
    pub fn new(bpm_bits: u64) -> (t: Tempo)
        ensures
            t.bpm_bits == bpm_bits,
    {
        Tempo { bpm_bits }
    }

    /// Bit pattern of the beats per minute.
    pub fn bpm(&self) -> (bits: u64)
        ensures
            bits == self.bpm_bits,
    {
        self.bpm_bits
    }

    /// Whether the tempo is a number.
    pub open spec fn is_number(self) -> bool {
        !is_nan(self.bpm_bits)
    }
}

impl PartialEq for Tempo {
    fn eq(&self, other: &Tempo) -> (r: bool) {
        same_number(self.bpm_bits, other.bpm_bits)
    }
}

impl vstd::std_specs::cmp::PartialEqSpecImpl for Tempo {
    open spec fn obeys_eq_spec() -> bool {
        true
    }

    open spec fn eq_spec(&self, other: &Tempo) -> bool {
        same_number_spec(self.bpm_bits, other.bpm_bits)
    }
}

/// A position on the beat grid, in millionths of a beat.
#[derive(Clone, Copy, Debug, PartialEq, Eq, Structural)]
pub struct Beats {
    pub micro_beats: i64,
}

impl Beats {
    /// The position `micro_beats` millionths of a beat.
    pub fn new(micro_beats: i64) -> (b: Beats)
        ensures
            b.micro_beats == micro_beats,
    {
        Beats { micro_beats }
    }
}

/// The line that maps times to beats: `tempo` through `beat_origin` at `time_origin`.
#[derive(Clone, Copy, Debug)]
pub struct Timeline {
    pub tempo: Tempo,
    pub beat_origin: Beats,
    pub time_origin: Duration,
}

/// Whether two timelines compare equal: equal origins, and tempos that are equal numbers.
pub open spec fn same_timeline(a: Timeline, b: Timeline) -> bool {
    same_number_spec(a.tempo.bpm_bits, b.tempo.bpm_bits) && a.beat_origin == b.beat_origin
        && a.time_origin == b.time_origin
}

impl PartialEq for Timeline {
    fn eq(&self, other: &Timeline) -> (r: bool) {
        self.tempo == other.tempo && self.beat_origin == other.beat_origin && self.time_origin
            == other.time_origin
    }
}

impl vstd::std_specs::cmp::PartialEqSpecImpl for Timeline {
    open spec fn obeys_eq_spec() -> bool {
        true
    }

    open spec fn eq_spec(&self, other: &Timeline) -> bool {
        same_timeline(*self, *other)
    }
}

/// A timeline compares equal to itself exactly where its tempo is a number.
pub proof fn law_timeline_equals_itself(t: Timeline)
    ensures
        same_timeline(t, t) <==> t.tempo.is_number(),
{
}

} // verus!
