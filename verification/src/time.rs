//! Spans of time and readings of the monotonic clock.

use vstd::prelude::*;

verus! {

/// A span of time: whole seconds and the nanoseconds beyond them.
#[derive(Debug, Clone, Copy, PartialEq, Eq, Structural)]
pub struct Duration {
    secs: u64,
    nanos: u32,
}

impl View for Duration {
    type V = nat;

    /// The span in nanoseconds.
    closed spec fn view(&self) -> nat {
        (self.secs * 1_000_000_000 + self.nanos) as nat
    }
}

impl Duration {
    #[verifier::type_invariant]
    closed spec fn wf(self) -> bool {
        self.nanos < 1_000_000_000
    }

    /// `secs` seconds and `nanos` nanoseconds; nanoseconds beyond a second
    /// carry into the seconds.
    pub fn new(secs: u64, nanos: u32) -> (r: Self)
        requires
            secs + nanos / 1_000_000_000 <= u64::MAX,
        ensures
            r@ == secs * 1_000_000_000 + nanos,
    {
        let carry: u64 = (nanos / 1_000_000_000) as u64;
        let rest: u32 = nanos % 1_000_000_000;
        let r = Duration { secs: secs + carry, nanos: rest };
        assert(r@ == secs * 1_000_000_000 + nanos) by (nonlinear_arith)
            requires
                r.secs == secs + nanos / 1_000_000_000,
                r.nanos == nanos % 1_000_000_000,
                r@ == r.secs * 1_000_000_000 + r.nanos,
        ;
        r
    }

    /// A span of `secs` seconds.
    pub fn from_secs(secs: u64) -> (r: Self)
        ensures
            r@ == secs * 1_000_000_000,
    {
        Duration { secs, nanos: 0 }
    }

    /// A span of `millis` milliseconds.
    pub fn from_millis(millis: u64) -> (r: Self)
        ensures
            r@ == millis * 1_000_000,
    {
        let secs = millis / 1000;
        let ms: u64 = millis % 1000;
        let nanos: u32 = (ms * 1_000_000) as u32;
        let r = Duration { secs, nanos };
        assert(r@ == millis * 1_000_000) by (nonlinear_arith)
            requires
                secs == millis / 1000,
                ms == millis % 1000,
                nanos == ms * 1_000_000,
                r@ == secs * 1_000_000_000 + nanos,
        ;
        r
    }

    /// The zero span.
    pub fn zero() -> (r: Self)
        ensures
            r@ == 0,
    {
        Duration { secs: 0, nanos: 0 }
    }

    /// The whole seconds of the span.
    pub fn as_secs(&self) -> (r: u64)
        ensures
            r == self@ / 1_000_000_000,
    {
        proof {
            use_type_invariant(self);
        }
        let r = self.secs;
        assert(r == self@ / 1_000_000_000) by (nonlinear_arith)
            requires
                self@ == self.secs * 1_000_000_000 + self.nanos,
                self.nanos < 1_000_000_000,
                r == self.secs,
        ;
        r
    }

    /// The nanoseconds beyond the whole seconds.
    pub fn subsec_nanos(&self) -> (r: u32)
        ensures
            r == self@ % 1_000_000_000,
    {
        proof {
            use_type_invariant(self);
        }
        let r = self.nanos;
        assert(r == self@ % 1_000_000_000) by (nonlinear_arith)
            requires
                self@ == self.secs * 1_000_000_000 + self.nanos,
                self.nanos < 1_000_000_000,
                r == self.nanos,
        ;
        r
    }

    /// The span in nanoseconds.
    pub fn as_nanos(&self) -> (r: u128)
        ensures
            r == self@,
    {
        self.secs as u128 * 1_000_000_000 + self.nanos as u128
    }

    /// Whether this span is longer than `other`.
    pub fn longer_than(&self, other: &Duration) -> (r: bool)
        ensures
            r == (self@ > other@),
    {
        self.as_nanos() > other.as_nanos()
    }
}

/// A reading of the monotonic clock (`std::time::Instant`).
#[verifier::external_type_specification]
#[verifier::external_body]
pub struct ExInstant(std::time::Instant);

/// The current reading of the monotonic clock (`Instant::now`). Nothing is
/// stated of it: it depends on the time.
#[verifier::external_body]
pub(crate) fn instant_now() -> (r: std::time::Instant) {
    std::time::Instant::now()
}

/// The time passed since `start` (`Instant::elapsed`), as whole seconds and
/// the nanoseconds beyond them; the nanoseconds are under a second. How long
/// it is depends on the time and is not stated.
#[verifier::external_body]
pub(crate) fn elapsed_since(start: &std::time::Instant) -> (r: (u64, u32))
    ensures
        r.1 < 1_000_000_000,
{
    let d = start.elapsed();
    (d.as_secs(), d.subsec_nanos())
}

} // verus!
