//! Clocks that count microseconds.

use vstd::prelude::*;

use crate::link::duration::{whole_micros, Duration};
use crate::link::wrap::{as_signed, as_unsigned, to_signed, to_unsigned};

verus! {

/// The ticks of a span on a clock that ticks in microseconds: its whole microseconds, read as
/// unsigned, or zero where they cannot be counted.
pub open spec fn ticks_of(span: Duration) -> int {
    let micros = whole_micros(span.nanos());
    if i64::MIN <= micros <= i64::MAX {
        as_unsigned(micros as i64)
    } else {
        0
    }
}

/// The whole microseconds of a reading of seconds and nanoseconds.
pub open spec fn reading_micros(tv_sec: u64, tv_nsec: u64) -> int {
    (tv_sec * 1_000_000_000 + tv_nsec) / 1000
}

/// The microseconds from `start` to `current`; none where that is earlier.
pub open spec fn elapsed_micros(start: i64, current: i64) -> int {
    if current < start {
        0
    } else {
        current - start
    }
}

/// The span of a number of microsecond ticks, which are read as signed.
fn span_of_ticks(ticks: u64) -> (span: Duration)
    ensures
        span.nanos() == as_signed(ticks) * 1000,
{
    Duration::microseconds(to_signed(ticks))
}

/// The microsecond ticks of a span.
fn count_ticks(span: Duration) -> (ticks: u64)
    ensures
        ticks == ticks_of(span),
{
    match span.num_microseconds() {
        Some(micros) => to_unsigned(micros),
        None => 0,
    }
}

/// The monotonic clock of Linux. It has no state.
#[derive(Clone, Copy, Debug, PartialEq, Eq, Structural)]
pub struct LinuxClock;

impl LinuxClock {
    /// The clock.
    pub fn new() -> (clock: LinuxClock)
        ensures
            clock == LinuxClock,
    {
        LinuxClock
    }

    /// The time at a reading of `tv_sec` seconds and `tv_nsec` nanoseconds, in whole
    /// microseconds.
    pub fn micros(&self, tv_sec: u64, tv_nsec: u64) -> (time: Duration)
        requires
            tv_sec * 1_000_000_000 + tv_nsec <= u64::MAX,
        ensures
            time.nanos() == reading_micros(tv_sec, tv_nsec) * 1000,
    {
        let total_ns: u64 = tv_sec * 1_000_000_000 + tv_nsec;
        let micros: u64 = total_ns / 1000;
        Duration::microseconds(micros as i64)
    }

    /// The ticks at a reading of the clock.
    pub fn ticks(&self, tv_sec: u64, tv_nsec: u64) -> (ticks: u64)
        requires
            tv_sec * 1_000_000_000 + tv_nsec <= u64::MAX,
        ensures
            ticks == reading_micros(tv_sec, tv_nsec),
    {
        count_ticks(self.micros(tv_sec, tv_nsec))
    }

    /// The span of a number of ticks.
    pub fn ticks_to_micros(&self, ticks: u64) -> (span: Duration)
        ensures
            span.nanos() == as_signed(ticks) * 1000,
    {
        span_of_ticks(ticks)
    }

    /// The ticks of a span.
    pub fn micros_to_ticks(&self, micros: Duration) -> (ticks: u64)
        ensures
            ticks == ticks_of(micros),
    {
        count_ticks(micros)
    }
}

impl Default for LinuxClock {
    fn default() -> (clock: LinuxClock)
        ensures
            clock == LinuxClock,
    {
        LinuxClock::new()
    }
}

/// A clock by the time of day, which counts from when it was made.
#[derive(Clone, Copy, Debug, PartialEq, Eq, Structural)]
pub struct GenericClock {
    pub start_micros: i64,
}

impl GenericClock {
    /// A clock that counts from `start_micros`.
    pub fn new(start_micros: i64) -> (clock: GenericClock)
        ensures
            clock.start_micros == start_micros,
    {
        GenericClock { start_micros }
    }

    /// The time when the time of day is `current_micros`. It is zero before the start.
    pub fn micros(&self, current_micros: i64) -> (time: Duration)
        requires
            i64::MIN <= current_micros - self.start_micros <= i64::MAX,
        ensures
            time.nanos() == elapsed_micros(self.start_micros, current_micros) * 1000,
    {
        let elapsed_micros: i64 = current_micros - self.start_micros;
        Duration::microseconds(
            if elapsed_micros < 0 {
                0
            } else {
                elapsed_micros
            },
        )
    }

    /// The ticks when the time of day is `current_micros`.
    pub fn ticks(&self, current_micros: i64) -> (ticks: u64)
        requires
            i64::MIN <= current_micros - self.start_micros <= i64::MAX,
        ensures
            ticks == elapsed_micros(self.start_micros, current_micros),
    {
        count_ticks(self.micros(current_micros))
    }

    /// The span of a number of ticks.
    pub fn ticks_to_micros(&self, ticks: u64) -> (span: Duration)
        ensures
            span.nanos() == as_signed(ticks) * 1000,
    {
        span_of_ticks(ticks)
    }

    /// The ticks of a span.
    pub fn micros_to_ticks(&self, micros: Duration) -> (ticks: u64)
        ensures
            ticks == ticks_of(micros),
    {
        count_ticks(micros)
    }
}

/// Every number of ticks survives the way to a span and back.
pub proof fn law_ticks_survive_conversion(ticks: u64, span: Duration)
    requires
        span.nanos() == as_signed(ticks) * 1000,
    ensures
        ticks_of(span) == ticks,
{
}

/// A span of whole microseconds that can be counted survives the way to ticks and back.
pub proof fn law_whole_microseconds_survive_conversion(span: Duration, micros: i64)
    requires
        span.nanos() == micros * 1000,
    ensures
        as_signed(ticks_of(span) as u64) * 1000 == span.nanos(),
{
}

/// A reading of the clock counts the microseconds that are full, and no more.
pub proof fn law_reading_counts_full_microseconds(tv_sec: u64, tv_nsec: u64)
    ensures
        reading_micros(tv_sec, tv_nsec) * 1000 <= tv_sec * 1_000_000_000 + tv_nsec,
        tv_sec * 1_000_000_000 + tv_nsec < (reading_micros(tv_sec, tv_nsec) + 1) * 1000,
{
}

/// A clock by the time of day tells the time since its start, starts at zero, and does not go
/// below.
pub proof fn law_time_is_counted_from_the_start(start: i64, current: i64)
    ensures
        current >= start ==> start + elapsed_micros(start, current) == current,
        current <= start ==> elapsed_micros(start, current) == 0,
{
}

/// A span of some full microseconds and a rest of less than one has as many ticks as it has full
/// microseconds.
pub proof fn law_ticks_count_full_microseconds(span: Duration, ticks: i64)
    requires
        0 <= ticks,
        ticks * 1000 <= span.nanos() < (ticks + 1) * 1000,
    ensures
        ticks_of(span) == ticks,
{
}

/// A span that is too long to be counted has no ticks.
pub proof fn law_spans_too_long_have_no_ticks(span: Duration)
    requires
        span.nanos() >= 0x8000_0000_0000_0000 * 1000,
    ensures
        ticks_of(span) == 0,
{
}

} // verus!
