use vstd::prelude::*;
use crate::numbers::{AMOUNT_LIMIT, BPS_DENOMINATOR, RATE_LIMIT, RATE_PRECISION};

verus! {

/// Risk-weighted solvency ratio of a position, scaled so that
/// `RATE_PRECISION` denotes exactly 1.0:
///
///   `collateral * exchange_rate * threshold_bps
///        / (BPS_DENOMINATOR * debt)`
///
/// A position with no debt is infinitely healthy and gets the sentinel
/// `i128::MAX`. A position is solvent iff the ratio is at least
/// `RATE_PRECISION`.
pub open spec fn spec_health_factor(
    collateral: int,
    debt: int,
    threshold_bps: int,
    exchange_rate: int,
) -> int {
    if debt == 0 {
        i128::MAX as int
    } else {
        (collateral * exchange_rate * threshold_bps) / (BPS_DENOMINATOR * debt)
    }
}

/// Whether the four health-factor inputs are within the engine's caps.
pub open spec fn health_inputs_ok(
    collateral: int,
    debt: int,
    threshold_bps: int,
    exchange_rate: int,
) -> bool {
    &&& 0 <= collateral <= AMOUNT_LIMIT
    &&& 0 <= debt <= AMOUNT_LIMIT
    &&& 0 < threshold_bps <= BPS_DENOMINATOR
    &&& 0 < exchange_rate <= RATE_LIMIT
}

/// Health factor of a position, scaled by `RATE_PRECISION`.
///
/// Borrowing and voluntary withdrawal gate on this ratio computed with the
/// collateral factor; liquidation eligibility uses the (looser)
/// liquidation threshold. The gap between the two is the protocol's
/// safety buffer.
pub fn compute_health_factor(
    collateral: i128,
    debt: i128,
    threshold_bps: i128,
    exchange_rate: i128,
) -> (hf: i128)
    requires
        health_inputs_ok(
            collateral as int,
            debt as int,
            threshold_bps as int,
            exchange_rate as int,
        ),
    ensures
        hf == spec_health_factor(
            collateral as int,
            debt as int,
            threshold_bps as int,
            exchange_rate as int,
        ),
        debt == 0 ==> hf == i128::MAX,
        hf >= 0,
{
    if debt == 0 {
        return i128::MAX;
    }
    proof {
        lemma_health_products_fit(
            collateral as int,
            debt as int,
            threshold_bps as int,
            exchange_rate as int,
        );
    }
    (collateral * exchange_rate * threshold_bps) / (BPS_DENOMINATOR * debt)
}

/// The health factor grows with the threshold. This is the safety
/// buffer between the engine's two gates: with the liquidation
/// threshold at or above the collateral factor, a position can stop
/// being able to borrow (collateral-factor health below 1.0) while
/// still being safe from liquidation (liquidation-threshold health at
/// or above it) — never the other way around.
pub proof fn lemma_health_factor_monotone_in_threshold(
    collateral: int,
    debt: int,
    lower_bps: int,
    higher_bps: int,
    exchange_rate: int,
)
    requires
        health_inputs_ok(collateral, debt, lower_bps, exchange_rate),
        health_inputs_ok(collateral, debt, higher_bps, exchange_rate),
        lower_bps <= higher_bps,
    ensures
        spec_health_factor(collateral, debt, lower_bps, exchange_rate) <= spec_health_factor(
            collateral,
            debt,
            higher_bps,
            exchange_rate,
        ),
{
    if debt != 0 {
        lemma_health_products_fit(collateral, debt, lower_bps, exchange_rate);
        assert(collateral * exchange_rate * lower_bps <= collateral * exchange_rate * higher_bps)
            by (nonlinear_arith)
            requires
                0 <= collateral * exchange_rate,
                lower_bps <= higher_bps,
        ;
        vstd::arithmetic::div_mod::lemma_div_is_ordered(
            collateral * exchange_rate * lower_bps,
            collateral * exchange_rate * higher_bps,
            (BPS_DENOMINATOR as int) * debt,
        );
    }
}

/// Within the caps of `health_inputs_ok`, the products in the
/// health-factor formula stay far inside the 128-bit range.
pub proof fn lemma_health_products_fit(
    collateral: int,
    debt: int,
    threshold_bps: int,
    exchange_rate: int,
)
    requires
        health_inputs_ok(collateral, debt, threshold_bps, exchange_rate),
    ensures
        0 <= collateral * exchange_rate <= AMOUNT_LIMIT * RATE_LIMIT,
        0 <= collateral * exchange_rate * threshold_bps
            <= AMOUNT_LIMIT * RATE_LIMIT * BPS_DENOMINATOR,
        0 < BPS_DENOMINATOR * debt <= BPS_DENOMINATOR * AMOUNT_LIMIT || debt == 0,
{
    assert(0 <= collateral * exchange_rate <= AMOUNT_LIMIT * RATE_LIMIT)
        by (nonlinear_arith)
        requires
            0 <= collateral <= AMOUNT_LIMIT,
            0 < exchange_rate <= RATE_LIMIT,
    ;
    assert(0 <= collateral * exchange_rate * threshold_bps
        <= AMOUNT_LIMIT * RATE_LIMIT * BPS_DENOMINATOR)
        by (nonlinear_arith)
        requires
            0 <= collateral * exchange_rate <= AMOUNT_LIMIT * RATE_LIMIT,
            0 < threshold_bps <= BPS_DENOMINATOR,
    ;
    if debt != 0 {
        assert(0 < BPS_DENOMINATOR * debt <= BPS_DENOMINATOR * AMOUNT_LIMIT)
            by (nonlinear_arith)
            requires
                0 < debt <= AMOUNT_LIMIT,
        ;
    }
}

} // verus!
