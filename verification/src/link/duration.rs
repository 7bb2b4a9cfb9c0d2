//! Signed time spans with nanosecond precision, computed by `chrono`.

use vstd::prelude::*;

verus! {

/// Nanoseconds in one second.
pub const NANOS_PER_SEC: u32 = 1_000_000_000;

/// The largest span: `i64::MAX` milliseconds, in nanoseconds. The smallest is its negation.
pub open spec fn max_nanos() -> int {
    i64::MAX * 1_000_000
}

/// Whether `nanos` nanoseconds is the length of some span.
pub open spec fn is_span(nanos: int) -> bool {
    -max_nanos() <= nanos <= max_nanos()
}

/// Whole microseconds in `nanos` nanoseconds, cut off towards zero.
pub open spec fn whole_micros(nanos: int) -> int {
    if nanos >= 0 {
        nanos / 1000
    } else {
        -((-nanos) / 1000)
    }
}

/// A time span. It counts whole seconds, rounded down, and the nanoseconds above them.
#[derive(Clone, Copy, Debug, PartialEq, Eq, Structural)]
pub struct Duration {
    secs: i64,
    subsec: u32,
}

/// Calls `chrono::TimeDelta::microseconds` and splits its result by `num_seconds` and
/// `subsec_nanos`: the two parts sum up to `micros` microseconds and have one sign.
#[verifier::external_body]
fn chrono_microseconds(micros: i64) -> (parts: (i64, i32))
    ensures
        parts.0 * 1_000_000_000 + parts.1 == micros * 1000,
        -1_000_000_000 < parts.1 < 1_000_000_000,
{
    let span = chrono::TimeDelta::microseconds(micros);
    (span.num_seconds(), span.subsec_nanos())
}

/// Calls `chrono::TimeDelta::num_microseconds` on the span of `secs` seconds and `subsec`
/// nanoseconds: the whole microseconds in it, or nothing where an `i64` cannot hold them.
#[verifier::external_body]
fn chrono_num_microseconds(secs: i64, subsec: u32) -> (micros: Option<i64>)
    requires
        subsec < NANOS_PER_SEC,
        is_span(secs * 1_000_000_000 + subsec),
    ensures
        ({
            let whole = whole_micros(secs * 1_000_000_000 + subsec);
            match micros {
                Some(m) => m == whole,
                None => whole < i64::MIN || whole > i64::MAX,
            }
        }),
{
    chrono::TimeDelta::new(secs, subsec).unwrap().num_microseconds()
}

/// Calls `chrono::TimeDelta::milliseconds`, which panics on `i64::MIN` alone, and splits its
/// result: the two parts sum up to `millis` milliseconds.
#[verifier::external_body]
fn chrono_milliseconds(millis: i64) -> (parts: (i64, i32))
    requires
        millis != i64::MIN,
    ensures
        parts.0 * 1_000_000_000 + parts.1 == millis * 1_000_000,
        -1_000_000_000 < parts.1 < 1_000_000_000,
{
    let span = chrono::TimeDelta::milliseconds(millis);
    (span.num_seconds(), span.subsec_nanos())
}

/// Calls `+` on two `chrono::TimeDelta`s, which panics where the sum is no span, and splits
/// its result: the two parts sum up to the two spans together.
#[verifier::external_body]
fn chrono_add(secs: i64, subsec: u32, other_secs: i64, other_subsec: u32) -> (parts: (i64, i32))
    requires
        subsec < NANOS_PER_SEC,
        other_subsec < NANOS_PER_SEC,
        is_span(secs * 1_000_000_000 + subsec),
        is_span(other_secs * 1_000_000_000 + other_subsec),
        is_span(secs * 1_000_000_000 + subsec + (other_secs * 1_000_000_000 + other_subsec)),
    ensures
        parts.0 * 1_000_000_000 + parts.1 == secs * 1_000_000_000 + subsec + (other_secs
            * 1_000_000_000 + other_subsec),
        -1_000_000_000 < parts.1 < 1_000_000_000,
{
    let other = chrono::TimeDelta::new(other_secs, other_subsec).unwrap();
    let span = chrono::TimeDelta::new(secs, subsec).unwrap() + other;
    (span.num_seconds(), span.subsec_nanos())
}

/// Calls `-` on two `chrono::TimeDelta`s, which panics where the difference is no span, and
/// splits its result: the two parts sum up to the first span less the second.
#[verifier::external_body]
fn chrono_sub(secs: i64, subsec: u32, other_secs: i64, other_subsec: u32) -> (parts: (i64, i32))
    requires
        subsec < NANOS_PER_SEC,
        other_subsec < NANOS_PER_SEC,
        is_span(secs * 1_000_000_000 + subsec),
        is_span(other_secs * 1_000_000_000 + other_subsec),
        is_span(secs * 1_000_000_000 + subsec - (other_secs * 1_000_000_000 + other_subsec)),
    ensures
        parts.0 * 1_000_000_000 + parts.1 == secs * 1_000_000_000 + subsec - (other_secs
            * 1_000_000_000 + other_subsec),
        -1_000_000_000 < parts.1 < 1_000_000_000,
{
    let other = chrono::TimeDelta::new(other_secs, other_subsec).unwrap();
    let span = chrono::TimeDelta::new(secs, subsec).unwrap() - other;
    (span.num_seconds(), span.subsec_nanos())
}

impl Duration {
    #[verifier::type_invariant]
    pub closed spec fn valid(self) -> bool {
        self.subsec < NANOS_PER_SEC && is_span(self.nanos())
    }

    /// Length in nanoseconds.
    pub closed spec fn nanos(self) -> int {
        self.secs * 1_000_000_000 + self.subsec
    }

    /// The empty span.
    pub closed spec fn empty() -> Duration {
        Duration { secs: 0, subsec: 0 }
    }

    /// The empty span.
    #[verifier::when_used_as_spec(empty)]
    pub fn zero() -> (d: Duration)
        ensures
            d == Duration::empty(),
            d.nanos() == 0,
    {
        Duration { secs: 0, subsec: 0 }
    }

    fn from_signed(secs: i64, nanos: i32) -> (d: Duration)
        requires
            -1_000_000_000 < nanos < 1_000_000_000,
            is_span(secs * 1_000_000_000 + nanos),
        ensures
            d.nanos() == secs * 1_000_000_000 + nanos,
    {
        if nanos < 0 {
            Duration { secs: secs - 1, subsec: (nanos + 1_000_000_000) as u32 }
        } else {
            Duration { secs, subsec: nanos as u32 }
        }
    }

    /// The span of `micros` microseconds.
    pub fn microseconds(micros: i64) -> (d: Duration)
        ensures
            d.nanos() == micros * 1000,
    {
        let parts = chrono_microseconds(micros);
        Self::from_signed(parts.0, parts.1)
    }

    /// Whole microseconds in the span, or `None` where an `i64` cannot hold them.
    pub fn num_microseconds(self) -> (micros: Option<i64>)
        ensures
            micros is Some <==> i64::MIN <= whole_micros(self.nanos()) <= i64::MAX,
            micros matches Some(m) ==> m == whole_micros(self.nanos()),
    {
        proof {
            use_type_invariant(&self);
        }
        chrono_num_microseconds(self.secs, self.subsec)
    }

    /// The span of `secs` seconds, rounded down, and `subsec` nanoseconds above them, or
    /// `None` where `subsec` is a second or more or the span is too long.
    pub fn new(secs: i64, subsec: u32) -> (d: Option<Duration>)
        ensures
            d is Some <==> subsec < NANOS_PER_SEC && is_span(secs * 1_000_000_000 + subsec),
            d matches Some(span) ==> span.nanos() == secs * 1_000_000_000 + subsec,
    {
        let nanos: i128 = secs as i128 * 1_000_000_000 + subsec as i128;
        let limit: i128 = i64::MAX as i128 * 1_000_000;
        if subsec >= NANOS_PER_SEC || nanos > limit || nanos < -limit {
            None
        } else {
            Some(Duration { secs, subsec })
        }
    }

    /// The span as whole seconds, rounded down, and the nanoseconds above them.
    pub fn parts(self) -> (parts: (i64, u32))
        ensures
            parts.0 * 1_000_000_000 + parts.1 == self.nanos(),
            parts.1 < NANOS_PER_SEC,
    {
        proof {
            use_type_invariant(&self);
        }
        (self.secs, self.subsec)
    }

    /// The span of `millis` milliseconds.
    pub fn milliseconds(millis: i64) -> (d: Duration)
        requires
            millis != i64::MIN,
        ensures
            d.nanos() == millis * 1_000_000,
    {
        let parts = chrono_milliseconds(millis);
        Self::from_signed(parts.0, parts.1)
    }

    /// The two spans one after the other.
    pub fn plus(self, other: Duration) -> (d: Duration)
        requires
            is_span(self.nanos() + other.nanos()),
        ensures
            d.nanos() == self.nanos() + other.nanos(),
    {
        proof {
            use_type_invariant(&self);
            use_type_invariant(&other);
        }
        let parts = chrono_add(self.secs, self.subsec, other.secs, other.subsec);
        Self::from_signed(parts.0, parts.1)
    }

    /// What is left of the span after taking `other` away.
    pub fn minus(self, other: Duration) -> (d: Duration)
        requires
            is_span(self.nanos() - other.nanos()),
        ensures
            d.nanos() == self.nanos() - other.nanos(),
    {
        proof {
            use_type_invariant(&self);
            use_type_invariant(&other);
        }
        let parts = chrono_sub(self.secs, self.subsec, other.secs, other.subsec);
        Self::from_signed(parts.0, parts.1)
    }

    /// Whether the span is shorter than `other`.
    pub fn shorter_than(self, other: Duration) -> (r: bool)
        ensures
            r == (self.nanos() < other.nanos()),
    {
        proof {
            use_type_invariant(&self);
            use_type_invariant(&other);
        }
        self.secs < other.secs || (self.secs == other.secs && self.subsec < other.subsec)
    }

    /// Whether the span is empty.
    pub fn is_zero(self) -> (r: bool)
        ensures
            r == (self.nanos() == 0),
    {
        proof {
            use_type_invariant(&self);
        }
        self.secs == 0 && self.subsec == 0
    }
}

/// The empty span has no length.
pub proof fn law_empty_span_has_no_length()
    ensures
        Duration::empty().nanos() == 0,
{
}

/// A span is counted in whole microseconds towards zero: nothing of a microsecond that is not
/// full counts, and a span and the same span back count the same.
pub proof fn law_counting_drops_what_is_not_full(nanos: int)
    ensures
        nanos >= 0 ==> 0 <= nanos - 1000 * whole_micros(nanos) < 1000,
        whole_micros(-nanos) == -whole_micros(nanos),
{
}

/// A span is no longer than what a count of milliseconds can tell, and every such length in
/// whole milliseconds is one.
pub proof fn law_range_of_spans(nanos: int, millis: i64)
    ensures
        is_span(nanos) <==> -(0x7FFF_FFFF_FFFF_FFFF * 1_000_000) <= nanos
            <= 0x7FFF_FFFF_FFFF_FFFF * 1_000_000,
        millis != i64::MIN ==> is_span(millis * 1_000_000),
{
}

/// Two spans are equal exactly where they are equally long.
pub proof fn law_span_is_its_length(a: Duration, b: Duration)
    requires
        a.valid(),
        b.valid(),
    ensures
        a == b <==> a.nanos() == b.nanos(),
{
}

} // verus!
