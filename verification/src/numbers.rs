use vstd::prelude::*;

verus! {

/// Basis-point denominator: 10_000 bps = 100%.
pub const BPS_DENOMINATOR: i128 = 10_000;

/// Fixed-point scale for rates and ratios: a value of `RATE_PRECISION`
/// denotes exactly 1.0 (seven decimals).
pub const RATE_PRECISION: i128 = 10_000_000;

/// Seconds in a (365-day) year, the period over which annualized interest
/// rates are quoted.
pub const SECONDS_PER_YEAR: u64 = 31_536_000;

/// Largest asset amount the engines accept: 10^11 whole tokens at seven
/// decimals, the cap of the underlying ledger's native asset. Keeping
/// every balance, debt and reserve within this bound is what lets the
/// 128-bit products in the rate formulas be proved free of overflow.
pub const AMOUNT_LIMIT: i128 = 1_000_000_000_000_000_000;

/// Largest exchange rate the engines accept (100_000.0 at the
/// `RATE_PRECISION` scale).
pub const RATE_LIMIT: i128 = 1_000_000_000_000;

/// Largest timestamp the engines accept, in seconds. Bounding elapsed
/// time bounds the interest product.
pub const TIME_LIMIT: u64 = 1_000_000_000_000;

} // verus!
