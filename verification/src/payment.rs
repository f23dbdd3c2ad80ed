use vstd::prelude::*;

use crate::laws::law_hybrid_payment_formula;

verus! {

/// Basis points in one whole (100%).
pub const BPS_DENOMINATOR: i128 = 10000;

/// `x` saturated at the top of the `i128` range (the operands here are never negative).
pub open spec fn saturate_high(x: int) -> int {
    if x > i128::MAX { i128::MAX as int } else { x }
}

/// The revenue-linked component of a hybrid payment: `revenue * bps`, saturated, in basis points.
pub open spec fn revenue_share(revenue: int, bps: int) -> int {
    saturate_high(revenue * bps) / (BPS_DENOMINATOR as int)
}

/// Hybrid payment for one period: the fixed minimum plus the revenue share, saturated,
/// and never above the per-period maximum.
pub open spec fn hybrid_payment(revenue: int, bps: int, min_payment: int, max_payment: int) -> int {
    let raw = saturate_high(min_payment + revenue_share(revenue, bps));
    if raw > max_payment { max_payment } else { raw }
}

/// Computes the hybrid payment for one period from attested revenue.
pub fn compute_hybrid_payment(revenue: i128, bps: u32, min_payment: i128, max_payment: i128) -> (r: i128)
    requires
        revenue >= 0,
        min_payment >= 0,
    ensures
        r == hybrid_payment(revenue as int, bps as int, min_payment as int, max_payment as int),
        revenue * bps <= i128::MAX ==> {
            let exact = min_payment + (revenue * bps) / 10000;
            &&& exact > max_payment ==> r == max_payment
            &&& exact <= max_payment ==> r == exact
        },
{
    proof {
        if revenue * bps <= i128::MAX {
            law_hybrid_payment_formula(revenue as int, bps as int, min_payment as int, max_payment as int);
        }
    }
    let b: i128 = bps as i128;
    assert(revenue * b >= 0) by (nonlinear_arith)
        requires revenue >= 0, b >= 0;
    let share: i128 = match revenue.checked_mul(b) {
        Some(p) => p / BPS_DENOMINATOR,
        None => i128::MAX / BPS_DENOMINATOR,
    };
    let raw: i128 = match min_payment.checked_add(share) {
        Some(s) => s,
        None => i128::MAX,
    };
    if raw > max_payment { max_payment } else { raw }
}

} // verus!
