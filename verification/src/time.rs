//! A span of time held as whole nanoseconds, and the clock readings the
//! library takes from the operating system.
use vstd::prelude::*;

verus! {

/// The longest span representable: `u64::MAX` seconds plus 999_999_999 ns.
pub const MAX_SPAN_NANOS: u128 = 18_446_744_073_709_551_615_999_999_999;

/// A non-negative span of time with nanosecond resolution, such as the time
/// elapsed since a fixed reference point.
#[derive(Debug, Clone, Copy, PartialEq, Eq, Structural, PartialOrd, Ord, Hash)]
pub struct TimeSpan {
    nanos: u128,
}

impl View for TimeSpan {
    type V = nat;

    closed spec fn view(&self) -> nat {
        self.nanos as nat
    }
}

impl TimeSpan {
    /// A span's nanosecond count fits in a `u128`.
    pub proof fn lemma_fits_u128(&self)
        ensures
            self@ <= u128::MAX,
    {
    }

    /// Whole nanoseconds.
    pub fn from_nanos(nanos: u128) -> (t: TimeSpan)
        requires
            nanos <= MAX_SPAN_NANOS,
        ensures
            t@ == nanos,
    {
        TimeSpan { nanos }
    }

    pub fn from_secs(secs: u64) -> (t: TimeSpan)
        ensures
            t@ == secs * 1_000_000_000,
    {
        TimeSpan { nanos: secs as u128 * 1_000_000_000 }
    }

    pub fn from_millis(millis: u64) -> (t: TimeSpan)
        ensures
            t@ == millis * 1_000_000,
    {
        TimeSpan { nanos: millis as u128 * 1_000_000 }
    }

    pub fn as_nanos(&self) -> (n: u128)
        ensures
            n == self@,
    {
        self.nanos
    }

    /// Whole milliseconds, rounded down.
    pub fn as_millis(&self) -> (n: u128)
        ensures
            n == self@ / 1_000_000,
    {
        self.nanos / 1_000_000
    }

    /// `self - other`, or zero when `other` is the longer span.
    pub fn saturating_sub(&self, other: &TimeSpan) -> (t: TimeSpan)
        ensures
            t@ == (if self@ >= other@ {
                self@ - other@
            } else {
                0
            }),
    {
        if self.nanos >= other.nanos {
            TimeSpan { nanos: self.nanos - other.nanos }
        } else {
            TimeSpan { nanos: 0 }
        }
    }

    /// `self + other`; the sum must stay representable.
    pub fn plus(&self, other: &TimeSpan) -> (t: TimeSpan)
        requires
            self@ + other@ <= MAX_SPAN_NANOS,
        ensures
            t@ == self@ + other@,
    {
        TimeSpan { nanos: self.nanos + other.nanos }
    }

    pub fn is_at_least(&self, other: &TimeSpan) -> (b: bool)
        ensures
            b == (self@ >= other@),
    {
        self.nanos >= other.nanos
    }
}

} // verus!

verus! {

/// Reads the system clock: whole seconds since the UNIX epoch, or 0 when the
/// clock is set before the epoch (`SystemTime::now().duration_since(UNIX_EPOCH)`).
/// Nothing is promised of the value, which depends on the machine's clock.
#[verifier::external_body]
pub(crate) fn now_unix_sec() -> u64 {
    std::time::SystemTime::now()
        .duration_since(std::time::UNIX_EPOCH)
        .unwrap_or_default()
        .as_secs()
}

} // verus!

verus! {

/// The monotonic clock's instants (`std::time::Instant`), opaque here.
#[verifier::external_type_specification]
#[verifier::external_body]
pub struct ExInstant(std::time::Instant);

/// Reads the monotonic clock (`Instant::now`). Nothing is promised of the value.
#[verifier::external_body]
pub(crate) fn instant_now() -> std::time::Instant {
    std::time::Instant::now()
}

/// Time elapsed on the monotonic clock since `origin` (`Instant::elapsed`),
/// as a span. Nothing is promised of the value, which depends on the clock.
#[verifier::external_body]
pub(crate) fn elapsed_since(origin: &std::time::Instant) -> TimeSpan {
    TimeSpan { nanos: origin.elapsed().as_nanos() }
}

} // verus!
