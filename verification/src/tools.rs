//! Shared numeric helpers: fixed-point rates and the trace-id hash.

use vstd::prelude::*;

verus! {

/// Fixed-point scale for rates: one whole unit (a probability of 1.0, or one
/// refill per second) is this many parts per billion.
pub const RATE_SCALE: u64 = 1_000_000_000;

/// Odd multiplicative constant applied to a trace identifier before the
/// product is compared against a rate threshold.  Every process that shares a
/// rate table must use the same constant so that the same trace is kept or
/// dropped everywhere.
pub const CONSTANT_RATE_HASH_FACTOR: u64 = 1111111111111111111;

/// A rate in integer fixed point: `ppb` parts per billion.  A sampling
/// probability lies in `[0, RATE_SCALE]`; a refresh rate may exceed
/// `RATE_SCALE` (more than one refill per second).
#[derive(Clone, Copy, Debug, PartialEq, Eq, Structural)]
pub struct Rate {
    pub ppb: u64,
}

impl Rate {
    /// The rate of `ppb` parts per billion.
    pub fn from_ppb(ppb: u64) -> (r: Rate)
        ensures
            r.ppb == ppb,
    {
        Rate { ppb }
    }

    /// The rate 1.0: keep everything, or one refill per second.
    pub fn one() -> (r: Rate)
        ensures
            r.ppb == RATE_SCALE,
    {
        Rate { ppb: RATE_SCALE }
    }

    /// The rate 0.0: keep nothing.
    pub fn zero() -> (r: Rate)
        ensures
            r.ppb == 0,
    {
        Rate { ppb: 0 }
    }
}

/// Largest 64-bit hash threshold for the sampling rate `ppb`: trace hashes
/// below the threshold are kept.  A rate of one or more keeps every hash, a
/// rate of zero or less keeps none, and a rate in between scales `u64::MAX`.
pub open spec fn spec_max_hash(ppb: int) -> int {
    if ppb >= RATE_SCALE {
        u64::MAX as int
    } else if ppb > 0 {
        ppb * (u64::MAX as int) / (RATE_SCALE as int)
    } else {
        0
    }
}

/// Hash threshold below which a trace id hash is kept under `rate`.
pub fn max_id_from_sample_rate(rate: Rate) -> (h: u64)
    ensures
        h == spec_max_hash(rate.ppb as int),
{
    if rate.ppb >= RATE_SCALE {
        u64::MAX
    } else if rate.ppb > 0 {
        let wide: u128 = (rate.ppb as u128) * (u64::MAX as u128) / (RATE_SCALE as u128);
        proof {
            assert((rate.ppb as int) * (u64::MAX as int) / (RATE_SCALE as int) < u64::MAX as int)
                by (nonlinear_arith)
                requires
                    0 < rate.ppb < RATE_SCALE,
            ;
        }
        wide as u64
    } else {
        0
    }
}

/// The full-width product of a trace id and the hash constant, before any
/// truncation.
pub open spec fn spec_hashed_id_wide(trace_id: int) -> int {
    trace_id * (CONSTANT_RATE_HASH_FACTOR as int)
}

/// The hashed trace id truncated to its low 64 bits.
pub open spec fn spec_hashed_id(trace_id: int) -> u64 {
    spec_hashed_id_wide(trace_id) as u64
}

/// The hashed trace id at full width; the product of two 64-bit values always
/// fits in 128 bits.
pub fn hashed_id_wide(trace_id: u64) -> (h: u128)
    ensures
        h == spec_hashed_id_wide(trace_id as int),
{
    proof {
        assert((trace_id as int) * (CONSTANT_RATE_HASH_FACTOR as int) <= (u64::MAX as int) * (
        CONSTANT_RATE_HASH_FACTOR as int)) by (nonlinear_arith)
            requires
                trace_id <= u64::MAX,
        ;
    }
    (trace_id as u128) * (CONSTANT_RATE_HASH_FACTOR as u128)
}

/// The hashed trace id truncated to its low 64 bits.
pub fn hashed_id(trace_id: u64) -> (h: u64)
    ensures
        h == spec_hashed_id(trace_id as int),
{
    let wide = hashed_id_wide(trace_id);
    #[verifier::truncate]
    (wide as u64)
}

} // verus!
