//! Points on a monotonic clock and the spans between them.

use vstd::prelude::*;

verus! {

pub const NANOS_PER_SECOND: u128 = 1_000_000_000;

pub const NANOS_PER_MILLI: u128 = 1_000_000;

/// A length of time.
#[derive(Clone, Copy, Debug, PartialEq, Eq, Structural)]
pub struct Span {
    pub nanos: u128,
}

/// A point on a monotonic clock, counted from a fixed origin.
#[derive(Clone, Copy, Debug, PartialEq, Eq, Structural)]
pub struct Moment {
    pub nanos: u128,
}

impl Span {
    pub fn from_secs(secs: u64) -> (span: Self)
        ensures
            span.nanos == secs * NANOS_PER_SECOND,
    {
        Span { nanos: secs as u128 * NANOS_PER_SECOND }
    }

    pub fn from_millis(millis: u64) -> (span: Self)
        ensures
            span.nanos == millis * NANOS_PER_MILLI,
    {
        Span { nanos: millis as u128 * NANOS_PER_MILLI }
    }
}

impl Moment {
    /// The moment `span` after this one.
    pub open spec fn later(self, span: Span) -> Moment {
        Moment { nanos: (self.nanos + span.nanos) as u128 }
    }

    /// How far this moment is past `earlier`; nothing if it is not past it.
    pub open spec fn past(self, earlier: Moment) -> Span {
        if self.nanos >= earlier.nanos {
            Span { nanos: (self.nanos - earlier.nanos) as u128 }
        } else {
            Span { nanos: 0 }
        }
    }

    /// The moment `span` after this one.
    pub fn plus(self, span: Span) -> (moment: Moment)
        requires
            self.nanos + span.nanos <= u128::MAX,
        ensures
            moment == self.later(span),
    {
        Moment { nanos: self.nanos + span.nanos }
    }

    /// How far this moment is past `earlier`; nothing if it is not past it.
    pub fn since(self, earlier: Moment) -> (span: Span)
        ensures
            span == self.past(earlier),
    {
        if self.nanos >= earlier.nanos {
            Span { nanos: self.nanos - earlier.nanos }
        } else {
            Span { nanos: 0 }
        }
    }
}

/// Spans lead from one moment to another: the moment a span later is past the first
/// by that span, and nothing is past a moment that is not before it.
pub proof fn spans_lie_between_moments(start: Moment, span: Span, end: Moment)
    requires
        start.nanos + span.nanos <= u128::MAX,
    ensures
        start.later(span).nanos == start.nanos + span.nanos,
        start.later(span).past(start) == span,
        end.nanos >= start.nanos ==> end.past(start).nanos + start.nanos == end.nanos,
        end.nanos <= start.nanos ==> end.past(start).nanos == 0,
{
}

} // verus!
