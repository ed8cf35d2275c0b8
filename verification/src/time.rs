//! Spans of time and moments on a monotonic clock, to the nanosecond.

use vstd::prelude::*;

verus! {

/// How many nanoseconds a second has.
pub const NANOS_PER_SEC: u128 = 1_000_000_000;

/// How many nanoseconds a millisecond has.
pub const NANOS_PER_MILLI: u128 = 1_000_000;

/// The longest [`Duration`], in nanoseconds: one nanosecond short of 2^64
/// seconds.
pub const MAX_DURATION_NANOS: u128 = 18_446_744_073_709_551_615_999_999_999;

/// A span of time. Its view is its length in nanoseconds.
#[derive(Clone, Copy, Debug, PartialEq, Eq, Structural)]
pub struct Duration {
    nanos: u128,
}

impl View for Duration {
    type V = nat;

    closed spec fn view(&self) -> nat {
        self.nanos as nat
    }
}

impl Duration {
    #[verifier::type_invariant]
    spec fn bounded(self) -> bool {
        self.nanos <= MAX_DURATION_NANOS
    }

    /// `secs` seconds and `nanos` nanoseconds.
    pub fn new(secs: u64, nanos: u32) -> (r: Duration)
        requires
            nanos < NANOS_PER_SEC,
        ensures
            r@ == secs * NANOS_PER_SEC + nanos,
    {
        Duration { nanos: secs as u128 * NANOS_PER_SEC + nanos as u128 }
    }

    /// `secs` seconds.
    pub fn from_secs(secs: u64) -> (r: Duration)
        ensures
            r@ == secs * NANOS_PER_SEC,
    {
        Duration { nanos: secs as u128 * NANOS_PER_SEC }
    }

    /// `millis` milliseconds.
    pub fn from_millis(millis: u64) -> (r: Duration)
        ensures
            r@ == millis * NANOS_PER_MILLI,
    {
        Duration { nanos: millis as u128 * NANOS_PER_MILLI }
    }

    /// The length of the span in nanoseconds.
    pub fn as_nanos(self) -> (r: u128)
        ensures
            r == self@,
            r <= MAX_DURATION_NANOS,
    {
        proof {
            use_type_invariant(&self);
        }
        self.nanos
    }
}

/// The length of an optional span in nanoseconds.
pub open spec fn optional_span(span: Option<Duration>) -> Option<nat> {
    match span {
        Some(span) => Some(span@),
        None => None,
    }
}

/// A moment on a monotonic clock. Its view is how many nanoseconds it lies
/// after the start of the clock.
#[derive(Clone, Copy, Debug, PartialEq, Eq, PartialOrd, Ord, Structural)]
pub struct Instant {
    nanos: u128,
}

impl View for Instant {
    type V = nat;

    closed spec fn view(&self) -> nat {
        self.nanos as nat
    }
}

impl Instant {
    /// Whether a running clock can show this moment: whether the time since
    /// the start of the clock is a [`Duration`].
    pub open spec fn is_clock_reading(self) -> bool {
        self@ <= MAX_DURATION_NANOS
    }

    /// The moment that lies `elapsed` after the start of the clock.
    pub fn after_start(elapsed: Duration) -> (r: Instant)
        ensures
            r@ == elapsed@,
            r.is_clock_reading(),
    {
        Instant { nanos: elapsed.as_nanos() }
    }

    /// The moment that lies `span` after this one.
    pub fn plus(self, span: Duration) -> (r: Instant)
        requires
            self.is_clock_reading(),
        ensures
            r@ == self@ + span@,
    {
        Instant { nanos: self.nanos + span.as_nanos() }
    }

    /// Whether this moment lies after `other`.
    pub fn is_after(self, other: Instant) -> (r: bool)
        ensures
            r == (self@ > other@),
    {
        self.nanos > other.nanos
    }
}

/// A second has a thousand milliseconds and each of them a million nanoseconds. A
/// span has up to 2^64 - 1 seconds, and less than one more.
pub proof fn law_units_of_time()
    ensures
        NANOS_PER_MILLI == 1_000_000,
        NANOS_PER_SEC == 1_000 * NANOS_PER_MILLI,
        MAX_DURATION_NANOS == u64::MAX * NANOS_PER_SEC + (NANOS_PER_SEC - 1),
{
}

/// A span that is there is said in its length; a moment is on the clock if and
/// only if a span reaches it from the start.
pub proof fn law_views_of_time(span: Duration, moment: Instant)
    ensures
        optional_span(Some(span)) == Some(span@),
        optional_span(None) is None,
        moment.is_clock_reading() <==> moment@ < (u64::MAX + 1) * 1_000_000_000,
{
}

} // verus!
