use sxlm_protocol::errors::Error;
use sxlm_protocol::lp_pool::{isqrt, LpPoolContract};

const USER: u64 = 1;

fn setup() -> LpPoolContract {
    LpPoolContract::initialize(30).unwrap()
}

#[test]
fn lp_test_initialize() {
    let pool = setup();
    let (rx, rs) = pool.get_reserves();
    assert_eq!(rx, 0);
    assert_eq!(rs, 0);
    assert_eq!(pool.total_lp_supply, 0);
}

#[test]
fn test_add_liquidity_first() {
    let mut pool = setup();
    let (ax, asx, lp) = pool.add_liquidity(USER, 10_000_0000000, 10_000_0000000).unwrap();
    assert!(lp > 0);
    assert_eq!(ax, 10_000_0000000);
    assert_eq!(asx, 10_000_0000000);
    assert_eq!(pool.get_lp_balance(USER), lp);
    assert_eq!(pool.total_lp_supply, lp);

    let (rx, rs) = pool.get_reserves();
    assert_eq!(rx, 10_000_0000000);
    assert_eq!(rs, 10_000_0000000);
}

#[test]
fn test_add_and_remove_liquidity() {
    let mut pool = setup();
    let (_, _, lp) = pool.add_liquidity(USER, 10_000_0000000, 10_000_0000000).unwrap();

    let (xlm_out, sxlm_out) = pool.remove_liquidity(USER, lp / 2).unwrap();
    assert!(xlm_out > 0);
    assert!(sxlm_out > 0);

    let (rx, rs) = pool.get_reserves();
    assert!(rx > 0);
    assert!(rs > 0);
}

#[test]
fn test_swap_xlm_to_sxlm() {
    let mut pool = setup();
    pool.add_liquidity(USER, 100_000_0000000, 100_000_0000000).unwrap();

    let sxlm_out = pool.swap_xlm_to_sxlm(1_000_0000000, 0).unwrap();
    assert!(sxlm_out > 0);
    // The constant-product rule pays out slightly under par.
    assert!(sxlm_out < 1_000_0000000);
}

#[test]
fn test_swap_sxlm_to_xlm() {
    let mut pool = setup();
    pool.add_liquidity(USER, 100_000_0000000, 100_000_0000000).unwrap();

    let xlm_out = pool.swap_sxlm_to_xlm(1_000_0000000, 0).unwrap();
    assert!(xlm_out > 0);
    assert!(xlm_out < 1_000_0000000);
}

#[test]
fn test_get_price() {
    let mut pool = setup();
    pool.add_liquidity(USER, 100_000_0000000, 100_000_0000000).unwrap();
    assert_eq!(pool.get_price(), 10_000_000);
}

#[test]
fn test_price_changes_after_swap() {
    let mut pool = setup();
    pool.add_liquidity(USER, 100_000_0000000, 100_000_0000000).unwrap();

    pool.swap_xlm_to_sxlm(10_000_0000000, 0).unwrap();

    // More XLM and less sXLM in the pool: sXLM grows dearer.
    assert!(pool.get_price() > 10_000_000);
}

#[test]
fn test_constant_product_invariant() {
    let mut pool = setup();
    pool.add_liquidity(USER, 100_000_0000000, 100_000_0000000).unwrap();
    let (rx0, rs0) = pool.get_reserves();
    let k_before = rx0 * rs0;

    pool.swap_xlm_to_sxlm(5_000_0000000, 0).unwrap();
    let (rx1, rs1) = pool.get_reserves();
    let k_after = rx1 * rs1;

    // The fee stays in the pool, so the product grows.
    assert!(k_after >= k_before);
}

#[test]
fn test_proportional_add_takes_limiting_side() {
    let mut pool = setup();
    pool.add_liquidity(USER, 1_000_0000000, 1_000_0000000).unwrap();

    // Offering twice as much sXLM as the pool ratio wants only pulls
    // the proportional amount.
    let (ax, asx, lp) = pool.add_liquidity(USER, 500_0000000, 1_000_0000000).unwrap();
    assert_eq!(ax, 500_0000000);
    assert_eq!(asx, 500_0000000);
    assert_eq!(lp, 500_0000000);
}

#[test]
fn test_swap_slippage_protection() {
    let mut pool = setup();
    pool.add_liquidity(USER, 100_000_0000000, 100_000_0000000).unwrap();

    let r = pool.swap_xlm_to_sxlm(1_000_0000000, 1_000_0000000);
    assert_eq!(r, Err(Error::SlippageExceeded));
}

#[test]
fn test_lp_error_paths() {
    let mut pool = setup();
    assert_eq!(
        pool.add_liquidity(USER, 0, 10).map(|_| ()),
        Err(Error::InvalidAmount)
    );
    assert_eq!(pool.remove_liquidity(USER, 0).map(|_| ()), Err(Error::InvalidAmount));
    assert_eq!(pool.remove_liquidity(USER, 10).map(|_| ()), Err(Error::InsufficientBalance));
    assert_eq!(pool.swap_xlm_to_sxlm(100, 0), Err(Error::InsufficientLiquidity));
    assert_eq!(pool.swap_sxlm_to_xlm(0, 0), Err(Error::InvalidAmount));
    assert!(LpPoolContract::initialize(10_001).is_err());
}

#[test]
fn test_isqrt_values() {
    assert_eq!(isqrt(0), 0);
    assert_eq!(isqrt(-7), 0);
    assert_eq!(isqrt(1), 1);
    assert_eq!(isqrt(2), 1);
    assert_eq!(isqrt(3), 1);
    assert_eq!(isqrt(4), 2);
    assert_eq!(isqrt(99), 9);
    assert_eq!(isqrt(100), 10);
    assert_eq!(isqrt(1_000_000_000_000), 1_000_000);
    assert_eq!(isqrt(1_000_000_000_001), 1_000_000);
}
