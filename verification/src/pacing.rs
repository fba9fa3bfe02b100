//! The throughput budget of one batch: how many fetches may be in flight at
//! once, and how long to wait between the starts of two fetches.

use vstd::prelude::*;

verus! {

/// Rate used when a batch names none.
pub const DEFAULT_RATE: u32 = 5;

/// The rate a batch runs at: the requested rate, 5 when none is requested,
/// and never less than 1.
pub open spec fn spec_effective_rate(rate_limit: Option<u32>) -> nat {
    match rate_limit {
        None => DEFAULT_RATE as nat,
        Some(r) => if r == 0 { 1 } else { r as nat },
    }
}

/// The pause between the starts of two fetches, in milliseconds: one second
/// divided by the rate, rounded down.
pub open spec fn spec_pacing_delay_ms(rate: nat) -> nat
    recommends
        rate >= 1,
{
    1000nat / rate
}

/// Resolves the optional rate of a batch to the rate it runs at.
pub fn effective_rate(rate_limit: Option<u32>) -> (rate: usize)
    ensures
        rate as nat == spec_effective_rate(rate_limit),
        rate >= 1,
{
    match rate_limit {
        None => DEFAULT_RATE as usize,
        Some(r) => if r == 0 { 1 } else { r as usize },
    }
}

/// Computes the pause between two fetch starts for a rate of at least 1.
pub fn pacing_delay_ms(rate: usize) -> (millis: u64)
    requires
        rate >= 1,
    ensures
        millis as nat == spec_pacing_delay_ms(rate as nat),
        millis <= 1000,
{
    let r: u64 = rate as u64;
    proof {
        assert(1000int / (rate as int) <= 1000) by (nonlinear_arith)
            requires
                rate >= 1,
        ;
    }
    1000u64 / r
}

} // verus!
