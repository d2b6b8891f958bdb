//! Reward accrual: a pure function of a record's last settled claim, the
//! reward rate, and the current time.

use vstd::prelude::*;

verus! {

/// The reward owed for the time elapsed since the last settled claim:
/// `(now - last_claim_at) * rate`, and zero when the clock reads earlier
/// than the last claim (a clock anomaly is treated as zero accrual, never
/// as a negative or wrapped value).
pub open spec fn accrued_spec(last_claim_at: u64, rate: u64, now: u64) -> int {
    if now < last_claim_at {
        0
    } else {
        (now - last_claim_at) * rate
    }
}

/// Computes the accrued reward exactly: the product of two 64-bit values
/// always fits in 128 bits, so no saturation or wrapping can occur.
pub fn accrued(last_claim_at: u64, rate: u64, now: u64) -> (r: u128)
    ensures
        r as int == accrued_spec(last_claim_at, rate, now),
{
    if now < last_claim_at {
        0
    } else {
        let dt: u64 = now - last_claim_at;
        proof {
            assert((dt as int) * (rate as int) <= u128::MAX as int) by (nonlinear_arith)
                requires
                    dt <= u64::MAX,
                    rate <= u64::MAX,
            ;
        }
        (dt as u128) * (rate as u128)
    }
}

/// Law: for a fixed last settled claim and rate, the accrued reward is
/// monotonically non-decreasing in the current time.
pub proof fn lemma_accrued_monotonic(last_claim_at: u64, rate: u64, n1: u64, n2: u64)
    requires
        n1 <= n2,
    ensures
        accrued_spec(last_claim_at, rate, n1) <= accrued_spec(last_claim_at, rate, n2),
{
    if last_claim_at <= n1 {
        assert((n1 - last_claim_at) * rate <= (n2 - last_claim_at) * rate) by (nonlinear_arith)
            requires
                last_claim_at <= n1 <= n2,
        ;
    }
}

} // verus!
