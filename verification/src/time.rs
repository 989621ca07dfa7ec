//! Spans of time.
use vstd::prelude::*;

use crate::text::{concat3, dec, decimal_wide};

verus! {

/// A span of time, counted in nanoseconds.
#[derive(Debug, Clone, Copy, PartialEq, Eq, PartialOrd, Ord, Structural)]
pub struct Duration {
    pub nanos: u128,
}

impl Duration {
    pub fn from_secs(secs: u64) -> (d: Duration)
        ensures
            d.nanos == secs * 1_000_000_000,
    {
        Duration { nanos: secs as u128 * 1_000_000_000 }
    }

    pub fn from_millis(millis: u64) -> (d: Duration)
        ensures
            d.nanos == millis * 1_000_000,
    {
        Duration { nanos: millis as u128 * 1_000_000 }
    }
}

/// A number of units, rounded to the nearest, halves to the even neighbour.
pub open spec fn in_units(nanos: nat, unit: nat) -> nat {
    let q = nanos / unit;
    let r = nanos % unit;
    if 2 * r > unit || (2 * r == unit && q % 2 == 1) {
        q + 1
    } else {
        q
    }
}

/// Seconds with one decimal.
pub open spec fn tenths_of(d: Duration) -> Seq<char> {
    let t = in_units(d.nanos as nat, 100_000_000);
    dec(t / 10) + "."@ + dec(t % 10)
}

/// Whole seconds.
pub open spec fn seconds_of(d: Duration) -> Seq<char> {
    dec(in_units(d.nanos as nat, 1_000_000_000))
}

fn round_to(nanos: u128, unit: u128) -> (r: u128)
    requires
        2 <= unit <= 1_000_000_000,
    ensures
        r == in_units(nanos as nat, unit as nat),
{
    let q: u128 = nanos / unit;
    let rest: u128 = nanos % unit;
    assert(q <= nanos / 2) by (nonlinear_arith)
        requires
            q == nanos / unit,
            unit >= 2,
    ;
    assert(rest < unit);
    if 2 * rest > unit || (2 * rest == unit && q % 2 == 1) {
        q + 1
    } else {
        q
    }
}

impl Duration {
    /// Seconds with one decimal.
    pub fn show_tenths(self) -> (s: String)
        ensures
            s@ == tenths_of(self),
    {
        let t: u128 = round_to(self.nanos, 100_000_000);
        concat3(decimal_wide(t / 10).as_str(), ".", decimal_wide(t % 10).as_str())
    }

    /// Whole seconds.
    pub fn show_seconds(self) -> (s: String)
        ensures
            s@ == seconds_of(self),
    {
        decimal_wide(round_to(self.nanos, 1_000_000_000))
    }
}

} // verus!
