use vstd::prelude::*;

verus! {

/// Length of one day in seconds.
pub const SECONDS_PER_DAY: u64 = 86400;

/// The start (UTC midnight) of the day that holds timestamp `t`.
pub open spec fn normalized(t: u64) -> u64 {
    ((t / 86400) * 86400) as u64
}

/// Truncates a timestamp in seconds to the start of its UTC day.
pub fn normalize(t: u64) -> (r: u64)
    ensures
        r == normalized(t),
        r <= t,
        t - r < 86400,
        r % 86400 == 0,
{
    (t / SECONDS_PER_DAY) * SECONDS_PER_DAY
}

/// Normalizing twice is normalizing once, and normalizing keeps the order of
/// timestamps.
pub proof fn lemma_normalize_idempotent_monotonic(d1: u64, d2: u64)
    ensures
        normalized(normalized(d1)) == normalized(d1),
        d1 <= d2 ==> normalized(d1) <= normalized(d2),
{
    assert((d1 / 86400) * 86400 <= d1) by (nonlinear_arith);
    assert(((d1 / 86400) * 86400) / 86400 == d1 / 86400) by (nonlinear_arith);
    assert(d1 <= d2 ==> d1 / 86400 <= d2 / 86400) by (nonlinear_arith);
    assert(d1 / 86400 <= d2 / 86400 ==> (d1 / 86400) * 86400 <= (d2 / 86400) * 86400)
        by (nonlinear_arith);
}

} // verus!
