//! Time as the cache reads it: spans and points on a monotonic clock, both
//! counted in nanoseconds.
//!
//! The host owns the clock. It hands the library points in time relative to
//! an origin of its own choosing and turns deadlines back into timers.

use vstd::prelude::*;

verus! {

/// Nanoseconds per second.
pub const NANOS_PER_SEC: u128 = 1_000_000_000;

/// Longest span: `u64::MAX` seconds and 999 999 999 nanoseconds.
pub const MAX_SPAN_NANOS: u128 = 18_446_744_073_709_551_615_999_999_999;

/// Last point of the clock: `i64::MAX` seconds and 999 999 999 nanoseconds
/// after the origin.
pub const MAX_INSTANT_NANOS: u128 = 9_223_372_036_854_775_807_999_999_999;

/// A span of time.
#[derive(Clone, Copy, Debug, PartialEq, Eq, Structural, PartialOrd, Ord, Hash)]
pub struct Duration {
    /// Length in nanoseconds.
    pub nanos: u128,
}

impl Duration {
    /// The empty span.
    #[verifier::allow_in_spec]
    pub fn zero() -> (span: Self)
        returns
            (Duration { nanos: 0 }),
    {
        Duration { nanos: 0 }
    }

    /// The longest span.
    #[verifier::allow_in_spec]
    pub fn longest() -> (span: Self)
        returns
            (Duration { nanos: MAX_SPAN_NANOS }),
    {
        Duration { nanos: MAX_SPAN_NANOS }
    }

    /// A span of whole seconds plus a fraction below one second.
    pub fn new(secs: u64, subsec_nanos: u32) -> (span: Self)
        requires
            subsec_nanos < NANOS_PER_SEC,
        ensures
            span.nanos == secs * NANOS_PER_SEC + subsec_nanos,
            span.nanos <= MAX_SPAN_NANOS,
    {
        Duration { nanos: secs as u128 * NANOS_PER_SEC + subsec_nanos as u128 }
    }

    /// A span of whole seconds.
    pub fn from_secs(secs: u64) -> (span: Self)
        ensures
            span.nanos == secs * NANOS_PER_SEC,
    {
        Duration { nanos: secs as u128 * NANOS_PER_SEC }
    }

    /// A span of whole milliseconds.
    pub fn from_millis(millis: u64) -> (span: Self)
        ensures
            span.nanos == millis * 1_000_000,
    {
        Duration { nanos: millis as u128 * 1_000_000 }
    }

    /// What `factor` spans in a row come to, cut off at the longest span.
    pub open spec fn times(self, factor: u32) -> Duration {
        Duration {
            nanos: if self.nanos * factor <= MAX_SPAN_NANOS {
                (self.nanos * factor) as u128
            } else {
                MAX_SPAN_NANOS
            },
        }
    }

    /// Multiplies the span, saturating at the longest span.
    pub fn saturating_mul(self, factor: u32) -> (span: Self)
        ensures
            span == self.times(factor),
    {
        match self.nanos.checked_mul(factor as u128) {
            Some(nanos) if nanos <= MAX_SPAN_NANOS => Duration { nanos },
            _ => Duration { nanos: MAX_SPAN_NANOS },
        }
    }
}

/// A point on the host's monotonic clock.
#[derive(Clone, Copy, Debug, PartialEq, Eq, Structural, PartialOrd, Ord, Hash)]
pub struct Instant {
    /// Nanoseconds since the clock's origin.
    pub nanos: u128,
}

impl Instant {
    /// The point `span` after this one, if the clock reaches that far.
    pub open spec fn after(self, span: Duration) -> Option<Instant> {
        if self.nanos + span.nanos <= MAX_INSTANT_NANOS {
            Some(Instant { nanos: (self.nanos + span.nanos) as u128 })
        } else {
            None
        }
    }

    /// The point `span` after this one, or `None` when the clock does not
    /// reach that far.
    pub fn checked_add(self, span: Duration) -> (at: Option<Self>)
        ensures
            at == self.after(span),
    {
        match self.nanos.checked_add(span.nanos) {
            Some(nanos) if nanos <= MAX_INSTANT_NANOS => Some(Instant { nanos }),
            _ => None,
        }
    }
}

/// A span added to a point moves it forward by exactly that span.
pub proof fn law_deadline_is_span_away(start: Instant, span: Duration, at: Instant)
    requires
        start.after(span) == Some(at),
    ensures
        at.nanos - start.nanos == span.nanos,
{
}

/// The longest span reaches past the end of the clock from every point, so no
/// deadline lies that far away.
pub proof fn law_longest_span_has_no_deadline(start: Instant)
    ensures
        start.after(Duration::longest()) is None,
{
}

/// There is a deadline exactly when the clock reaches that far.
pub proof fn law_the_clock_bounds_deadlines(start: Instant, span: Duration)
    ensures
        start.after(span) is Some <==> start.nanos + span.nanos <= MAX_INSTANT_NANOS,
{
}

/// Spans in a row add up, until they reach the longest one.
pub proof fn law_spans_in_a_row_add_up(span: Duration, factor: u32)
    requires
        span.nanos <= MAX_SPAN_NANOS,
        factor < u32::MAX,
    ensures
        span.times(0).nanos == 0,
        ({
            let sum = span.times(factor).nanos + span.nanos;
            span.times((factor + 1) as u32).nanos == if sum <= MAX_SPAN_NANOS {
                sum
            } else {
                MAX_SPAN_NANOS as int
            }
        }),
{
    let n = span.nanos as int;
    let f = factor as int;
    assert(n * (f + 1) == n * f + n) by (nonlinear_arith);
    assert(n * f >= 0) by (nonlinear_arith)
        requires
            n >= 0,
            f >= 0,
    ;
}

} // verus!
