//! Spans of time and points on a monotonic clock, in whole nanoseconds.

use vstd::prelude::*;

verus! {

/// A span of time.
#[derive(Debug, Clone, Copy, PartialEq, Eq, Structural)]
pub struct Duration {
    pub nanos: u128,
}

/// A point on a monotonic clock, as the time since an origin that the caller
/// picks once and keeps for the life of the process.
#[derive(Debug, Clone, Copy, PartialEq, Eq, Structural)]
pub struct Instant {
    pub nanos: u128,
}

impl View for Duration {
    type V = nat;

    open spec fn view(&self) -> nat {
        self.nanos as nat
    }
}

impl View for Instant {
    type V = nat;

    open spec fn view(&self) -> nat {
        self.nanos as nat
    }
}

/// `a - b`, or zero where that would be negative.
pub open spec fn minus(a: nat, b: nat) -> nat {
    if a >= b {
        (a - b) as nat
    } else {
        0
    }
}

/// The smaller of two numbers.
pub open spec fn least(a: nat, b: nat) -> nat {
    if a <= b {
        a
    } else {
        b
    }
}

impl Duration {
    pub fn zero() -> (d: Duration)
        ensures
            d@ == 0,
    {
        Duration { nanos: 0 }
    }

    pub fn from_nanos(nanos: u128) -> (d: Duration)
        ensures
            d@ == nanos,
    {
        Duration { nanos }
    }

    pub fn from_millis(millis: u64) -> (d: Duration)
        ensures
            d@ == millis * 1_000_000,
    {
        Duration { nanos: millis as u128 * 1_000_000 }
    }

    pub fn from_secs(secs: u64) -> (d: Duration)
        ensures
            d@ == secs * 1_000_000_000,
    {
        Duration { nanos: secs as u128 * 1_000_000_000 }
    }

    pub fn is_zero(&self) -> (b: bool)
        ensures
            b == (self@ == 0),
    {
        self.nanos == 0
    }

    /// `self - other`, or zero where that would be negative.
    pub fn saturating_sub(self, other: Duration) -> (d: Duration)
        ensures
            d@ == minus(self@, other@),
    {
        if self.nanos >= other.nanos {
            Duration { nanos: self.nanos - other.nanos }
        } else {
            Duration { nanos: 0 }
        }
    }

    /// The shorter of two spans.
    pub fn min(self, other: Duration) -> (d: Duration)
        ensures
            d@ == least(self@, other@),
    {
        if self.nanos <= other.nanos {
            self
        } else {
            other
        }
    }
}

impl Instant {
    /// How long after `earlier` this is, or zero where it is not after.
    pub fn saturating_duration_since(&self, earlier: Instant) -> (d: Duration)
        ensures
            d@ == minus(self@, earlier@),
    {
        if self.nanos >= earlier.nanos {
            Duration { nanos: self.nanos - earlier.nanos }
        } else {
            Duration { nanos: 0 }
        }
    }
}

// ---------- laws ----------

/// Spans and points in time are counted in nanoseconds.
pub proof fn law_time_is_in_nanoseconds(d: Duration, at: Instant)
    ensures
        d@ == d.nanos,
        at@ == at.nanos,
{
}

/// Taking one number from another stops at zero: adding it again gives back the
/// first one, or the second where that was larger.
pub proof fn law_minus_stops_at_zero(a: nat, b: nat)
    ensures
        a >= b ==> minus(a, b) + b == a,
        a <= b ==> minus(a, b) == 0,
{
}

/// The least of two numbers is one of them, and no larger than either.
pub proof fn law_least_is_a_lower_bound(a: nat, b: nat)
    ensures
        least(a, b) <= a,
        least(a, b) <= b,
        least(a, b) == a || least(a, b) == b,
{
}

/// Spans and points in time, as they are worked out.
pub proof fn law_time_is_worked_out_exactly(
    n: u128,
    k: u64,
    a: Duration,
    b: Duration,
    d: Duration,
    later: Instant,
    earlier: Instant,
    zero: bool,
)
    ensures
        call_ensures(Duration::zero, (), d) ==> d.nanos == 0,
        call_ensures(Duration::from_nanos, (n,), d) ==> d.nanos == n,
        call_ensures(Duration::from_millis, (k,), d) ==> d.nanos == k * 1_000_000,
        call_ensures(Duration::from_secs, (k,), d) ==> d.nanos == k * 1_000_000_000,
        call_ensures(Duration::is_zero, (&a,), zero) ==> zero == (a.nanos == 0),
        call_ensures(Duration::saturating_sub, (a, b), d) ==> {
            &&& a.nanos >= b.nanos ==> d.nanos + b.nanos == a.nanos
            &&& a.nanos <= b.nanos ==> d.nanos == 0
        },
        call_ensures(Duration::min, (a, b), d) ==> {
            &&& d.nanos <= a.nanos
            &&& d.nanos <= b.nanos
            &&& d.nanos == a.nanos || d.nanos == b.nanos
        },
        call_ensures(Instant::saturating_duration_since, (&later, earlier), d) ==> {
            &&& later.nanos >= earlier.nanos ==> earlier.nanos + d.nanos == later.nanos
            &&& later.nanos <= earlier.nanos ==> d.nanos == 0
        },
{
}

}
