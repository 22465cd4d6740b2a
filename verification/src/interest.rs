use vstd::prelude::*;
use crate::numbers::{AMOUNT_LIMIT, BPS_DENOMINATOR, SECONDS_PER_YEAR, TIME_LIMIT};
use crate::position::Position;

verus! {

/// Simple interest owed on `debt` at the annualized rate
/// `rate_bps` (basis points) over `dt` seconds, with truncating
/// division. Truncation under-accrues by at most one unit per
/// application — an accepted rounding bias in favor of borrowers.
pub open spec fn spec_interest(debt: int, rate_bps: int, dt: int) -> int {
    (debt * rate_bps * dt) / (BPS_DENOMINATOR * SECONDS_PER_YEAR)
}

/// The position as it stands at `now`: pending interest realized into the
/// debt. A position with no debt, or one already touched at `now`, is
/// returned unchanged.
pub open spec fn spec_accrue(p: Position, now: u64, rate_bps: int) -> Position {
    if p.debt == 0 || now == p.last_update {
        p
    } else {
        Position {
            collateral: p.collateral,
            debt: (p.debt + spec_interest(p.debt as int, rate_bps, now - p.last_update)) as i128,
            last_update: now,
        }
    }
}

/// Whether accruing `p` to `now` at `rate_bps` stays within the engine's
/// caps: the clock is monotonic and bounded, and the accrued debt still
/// fits under `AMOUNT_LIMIT`.
pub open spec fn accrue_in_range(p: Position, now: u64, rate_bps: int) -> bool {
    &&& p.last_update <= now <= TIME_LIMIT
    &&& 0 <= rate_bps <= BPS_DENOMINATOR
    &&& spec_accrue(p, now, rate_bps).debt <= AMOUNT_LIMIT
}

/// Realize pending interest: `debt * rate_bps * dt / (10_000 *
/// seconds_per_year)` is added to the debt, and the accrual clock moves to
/// `now`. Invoked at the start of every engine operation that reads or
/// mutates a position, so all solvency checks see up-to-date debt.
pub fn accrue(p: &Position, now: u64, rate_bps: i128) -> (q: Position)
    requires
        p.wf(),
        accrue_in_range(*p, now, rate_bps as int),
    ensures
        q == spec_accrue(*p, now, rate_bps as int),
        q.wf(),
        q.collateral == p.collateral,
        q.debt >= p.debt,
{
    if p.debt == 0 || now == p.last_update {
        return *p;
    }
    let dt: u64 = now - p.last_update;
    proof {
        lemma_interest_fits(p.debt as int, rate_bps as int, dt as int);
    }
    let interest: i128 = (p.debt * rate_bps * (dt as i128))
        / (BPS_DENOMINATOR * (SECONDS_PER_YEAR as i128));
    Position { collateral: p.collateral, debt: p.debt + interest, last_update: now }
}

/// Within the engine's caps the interest product fits in 128 bits and the
/// interest itself is non-negative.
pub proof fn lemma_interest_fits(debt: int, rate_bps: int, dt: int)
    requires
        0 <= debt <= AMOUNT_LIMIT,
        0 <= rate_bps <= BPS_DENOMINATOR,
        0 <= dt <= TIME_LIMIT,
    ensures
        0 <= debt * rate_bps <= AMOUNT_LIMIT * BPS_DENOMINATOR,
        0 <= debt * rate_bps * dt <= AMOUNT_LIMIT * BPS_DENOMINATOR * TIME_LIMIT,
        0 <= spec_interest(debt, rate_bps, dt) <= debt * rate_bps * dt,
{
    assert(0 <= debt * rate_bps <= AMOUNT_LIMIT * BPS_DENOMINATOR) by (nonlinear_arith)
        requires
            0 <= debt <= AMOUNT_LIMIT,
            0 <= rate_bps <= BPS_DENOMINATOR,
    ;
    assert(0 <= debt * rate_bps * dt <= AMOUNT_LIMIT * BPS_DENOMINATOR * TIME_LIMIT)
        by (nonlinear_arith)
        requires
            0 <= debt * rate_bps <= AMOUNT_LIMIT * BPS_DENOMINATOR,
            0 <= dt <= TIME_LIMIT,
    ;
    let num = debt * rate_bps * dt;
    let den = BPS_DENOMINATOR * SECONDS_PER_YEAR;
    assert(0 <= num / (den as int) <= num) by (nonlinear_arith)
        requires
            0 <= num,
            den == BPS_DENOMINATOR * SECONDS_PER_YEAR,
    ;
}

} // verus!
