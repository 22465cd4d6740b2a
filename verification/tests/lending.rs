use sxlm_protocol::errors::Error;
use sxlm_protocol::interest::accrue;
use sxlm_protocol::health::compute_health_factor;
use sxlm_protocol::lending::LendingProtocol;
use sxlm_protocol::numbers::{RATE_PRECISION, SECONDS_PER_YEAR};
use sxlm_protocol::position::Position;

const ADMIN: u64 = 0;
const USER: u64 = 1;
const USER2: u64 = 2;
const LIQUIDATOR: u64 = 3;
const RESERVE: i128 = 500_000_0000000;

fn setup() -> LendingProtocol {
    LendingProtocol::initialize(ADMIN, 7000, 8000, 500).unwrap()
}

#[test]
fn lending_test_initialize() {
    let engine = setup();
    let (total_collateral, total_borrowed) = engine.get_protocol_stats();
    assert_eq!(total_borrowed, 0);
    assert_eq!(total_collateral, 0);
    assert_eq!(engine.get_exchange_rate(), RATE_PRECISION);
    assert_eq!(engine.get_liquidation_bonus(), 500);
}

#[test]
fn test_deposit_and_borrow() {
    let mut engine = setup();
    engine.deposit_collateral(USER, 10_000_000_000, 0).unwrap();
    let (col, bor) = engine.get_position(USER);
    assert_eq!(col, 10_000_000_000);
    assert_eq!(bor, 0);

    engine.borrow(USER, 7_000_000_000, 0, RESERVE).unwrap();
    let (col2, bor2) = engine.get_position(USER);
    assert_eq!(col2, 10_000_000_000);
    assert_eq!(bor2, 7_000_000_000);
}

#[test]
fn test_borrow_exceeds_limit() {
    let mut engine = setup();
    engine.deposit_collateral(USER, 10_000_000_000, 0).unwrap();
    let r = engine.borrow(USER, 8_000_000_000, 0, RESERVE);
    assert_eq!(r, Err(Error::BorrowLimitExceeded));
}

#[test]
fn test_repay() {
    let mut engine = setup();
    engine.deposit_collateral(USER, 10_000_000_000, 0).unwrap();
    engine.borrow(USER, 5_000_000_000, 0, RESERVE).unwrap();

    let repaid = engine.repay(USER, 3_000_000_000, 0).unwrap();
    assert_eq!(repaid, 3_000_000_000);
    let (_, bor) = engine.get_position(USER);
    assert_eq!(bor, 2_000_000_000);
}

#[test]
fn test_withdraw_collateral() {
    let mut engine = setup();
    engine.deposit_collateral(USER, 10_000_000_000, 0).unwrap();
    engine.withdraw_collateral(USER, 5_000_000_000, 0).unwrap();
    let (col, _) = engine.get_position(USER);
    assert_eq!(col, 5_000_000_000);
}

#[test]
fn test_withdraw_unhealthy() {
    let mut engine = setup();
    engine.deposit_collateral(USER, 10_000_000_000, 0).unwrap();
    engine.borrow(USER, 7_000_000_000, 0, RESERVE).unwrap();
    let r = engine.withdraw_collateral(USER, 1_000_000_000, 0);
    assert_eq!(r, Err(Error::UnhealthyWithdrawal));
}

#[test]
fn test_health_factor() {
    let mut engine = setup();
    engine.deposit_collateral(USER, 10_000_000_000, 0).unwrap();
    engine.borrow(USER, 5_000_000_000, 0, RESERVE).unwrap();

    // The read path uses the liquidation threshold (8000 bps):
    // 10000 * 1e7 * 8000 / (10000 * 5000) = 16_000_000.
    let hf = engine.get_health_factor(USER, 0);
    assert_eq!(hf, 16_000_000);
}

#[test]
fn test_health_factor_with_exchange_rate() {
    let mut engine = setup();
    engine.deposit_collateral(USER, 10_000_000_000, 0).unwrap();
    engine.borrow(USER, 5_000_000_000, 0, RESERVE).unwrap();

    engine.update_exchange_rate(ADMIN, 12_000_000).unwrap();

    // 10000 * 1.2 * 8000 / (10000 * 5000), scaled: 19_200_000.
    let hf = engine.get_health_factor(USER, 0);
    assert_eq!(hf, 19_200_000);
}

#[test]
fn test_exchange_rate_increases_borrow_capacity() {
    let mut engine = setup();
    engine.deposit_collateral(USER, 10_000_000_000, 0).unwrap();

    // At a 1:1 rate the limit is 70% of 1000.
    engine.borrow(USER, 7_000_000_000, 0, RESERVE).unwrap();

    // At 1.5 the limit rises to 1050, leaving room for 300 more.
    engine.update_exchange_rate(ADMIN, 15_000_000).unwrap();
    engine.borrow(USER, 3_000_000_000, 0, RESERVE).unwrap();
    let (_, bor) = engine.get_position(USER);
    assert_eq!(bor, 10_000_000_000);
}

#[test]
fn test_liquidation() {
    // A looser liquidation threshold (5000 bps) makes a 70%-LTV
    // position liquidatable.
    let mut engine = LendingProtocol::initialize(ADMIN, 7000, 5000, 500).unwrap();
    engine.deposit_collateral(USER, 10_000_000_000, 0).unwrap();
    engine.borrow(USER, 7_000_000_000, 0, RESERVE).unwrap();

    let receipt = engine.liquidate(LIQUIDATOR, USER, 0).unwrap();
    assert_eq!(receipt.debt_repaid, 7_000_000_000);
    assert_eq!(receipt.collateral_seized, 7_350_000_000);
    let (col, bor) = engine.get_position(USER);
    assert_eq!(bor, 0);
    assert_eq!(col, 2_650_000_000);
}

#[test]
fn test_admin_update_collateral_factor() {
    let mut engine = setup();
    assert_eq!(engine.get_collateral_factor(), 7000);
    engine.update_collateral_factor(ADMIN, 7500).unwrap();
    assert_eq!(engine.get_collateral_factor(), 7500);
}

#[test]
fn test_totals() {
    let mut engine = setup();
    engine.deposit_collateral(USER, 10_000_000_000, 0).unwrap();
    engine.deposit_collateral(USER2, 5_000_000_000, 0).unwrap();
    let (total_collateral, _) = engine.get_protocol_stats();
    assert_eq!(total_collateral, 15_000_000_000);

    engine.borrow(USER, 3_000_000_000, 0, RESERVE).unwrap();
    engine.borrow(USER2, 2_000_000_000, 0, RESERVE).unwrap();
    let (_, total_borrowed) = engine.get_protocol_stats();
    assert_eq!(total_borrowed, 5_000_000_000);
}

#[test]
fn libs_test_initialize() {
    let engine = setup();
    let (collateral, borrowed) = engine.get_protocol_stats();
    assert_eq!(collateral, 0);
    assert_eq!(borrowed, 0);
}

#[test]
fn test_deposit_collateral() {
    let mut engine = setup();
    engine.deposit_collateral(USER, 1000_0000000, 0).unwrap();
    let position = engine.get_position_info(USER, 0);
    assert_eq!(position.collateral, 1000_0000000);
}

// Scenario: deposit 1000 at a 1:1 rate with a 7000 bps collateral
// factor; borrowing 700 succeeds and one unit more is refused.
#[test]
fn scenario_borrow_to_the_limit() {
    let mut engine = setup();
    engine.deposit_collateral(USER, 1000, 0).unwrap();
    assert_eq!(engine.borrow(USER, 700, 0, RESERVE), Ok(()));
    assert_eq!(engine.borrow(USER, 1, 0, RESERVE), Err(Error::BorrowLimitExceeded));
}

// Scenario: collateral 10000, debt 7000, rate 1.0, threshold 8000 bps:
// the health factor is 8000 * 1e7 / 7000 and the position is healthy.
#[test]
fn scenario_healthy_position_cannot_be_liquidated() {
    let mut engine = setup();
    engine.deposit_collateral(USER, 10000, 0).unwrap();
    engine.borrow(USER, 7000, 0, RESERVE).unwrap();

    assert_eq!(engine.get_health_factor(USER, 0), 11_428_571);
    assert_eq!(engine.liquidate(LIQUIDATOR, USER, 0), Err(Error::PositionHealthy));
}

// Scenario: the same position under a 5000 bps threshold is unhealthy;
// liquidation seizes min(collateral, 7000 * 1.05) = 7350 and clears
// the debt.
#[test]
fn scenario_liquidation_seizes_bonus() {
    let mut engine = LendingProtocol::initialize(ADMIN, 7000, 5000, 500).unwrap();
    engine.deposit_collateral(USER, 10000, 0).unwrap();
    engine.borrow(USER, 7000, 0, RESERVE).unwrap();

    assert_eq!(engine.get_health_factor(USER, 0), 7_142_857);
    let receipt = engine.liquidate(LIQUIDATOR, USER, 0).unwrap();
    assert_eq!(receipt.debt_repaid, 7000);
    assert_eq!(receipt.collateral_seized, 7350);
    let (col, bor) = engine.get_position(USER);
    assert_eq!(col, 2650);
    assert_eq!(bor, 0);
}

// Scenario: repaying 10000 against a debt of 3000 transfers exactly
// 3000 and clears the debt.
#[test]
fn scenario_repay_caps_at_debt() {
    let mut engine = setup();
    engine.deposit_collateral(USER, 10000, 0).unwrap();
    engine.borrow(USER, 3000, 0, RESERVE).unwrap();

    let repaid = engine.repay(USER, 10000, 0).unwrap();
    assert_eq!(repaid, 3000);
    let (_, bor) = engine.get_position(USER);
    assert_eq!(bor, 0);
}

// Reading the health factor twice with no mutation in between returns
// the same value.
#[test]
fn test_health_factor_idempotent() {
    let mut engine = setup();
    engine.deposit_collateral(USER, 10_000_000_000, 0).unwrap();
    engine.borrow(USER, 5_000_000_000, 0, RESERVE).unwrap();

    let now = 123_456;
    let first = engine.get_health_factor(USER, now);
    let second = engine.get_health_factor(USER, now);
    assert_eq!(first, second);
}

#[test]
fn test_interest_accrues_over_a_year() {
    // 5% annual interest on a debt of 1000, over exactly one year.
    let position = Position { collateral: 0, debt: 1000_0000000, last_update: 0 };
    let accrued = accrue(&position, SECONDS_PER_YEAR, 500);
    assert_eq!(accrued.debt, 1050_0000000);
    assert_eq!(accrued.last_update, SECONDS_PER_YEAR);
}

#[test]
fn test_accrual_without_debt_or_time_is_identity() {
    let no_debt = Position { collateral: 500, debt: 0, last_update: 7 };
    assert_eq!(accrue(&no_debt, 1_000_000, 500), no_debt);

    let no_time = Position { collateral: 500, debt: 300, last_update: 44 };
    assert_eq!(accrue(&no_time, 44, 500), no_time);
}

#[test]
fn test_engine_applies_interest_on_repay() {
    let mut engine = setup();
    engine.deposit_collateral(USER, 10_000_0000000, 0).unwrap();
    engine.borrow(USER, 1000_0000000, 0, RESERVE).unwrap();

    // A year later the debt has grown by 5%; repaying "everything"
    // transfers the grown amount.
    let repaid = engine.repay(USER, 2000_0000000, SECONDS_PER_YEAR).unwrap();
    assert_eq!(repaid, 1050_0000000);
    let (_, bor) = engine.get_position(USER);
    assert_eq!(bor, 0);
}

#[test]
fn test_interest_can_make_a_position_liquidatable() {
    // 100% annual interest: a position at the borrow limit turns
    // liquidatable as its debt grows.
    let mut engine = LendingProtocol::initialize(ADMIN, 7000, 8000, 10_000).unwrap();
    engine.deposit_collateral(USER, 10000, 0).unwrap();
    engine.borrow(USER, 7000, 0, RESERVE).unwrap();
    assert_eq!(engine.liquidate(LIQUIDATOR, USER, 0), Err(Error::PositionHealthy));

    // Half a year on, the debt has grown to 10500 and the position is
    // deeply underwater: the nominal seize (10500 * 1.05) caps at the
    // collateral present, and the shortfall is the protocol's.
    let later = SECONDS_PER_YEAR / 2;
    let receipt = engine.liquidate(LIQUIDATOR, USER, later).unwrap();
    assert_eq!(receipt.debt_repaid, 10500);
    assert_eq!(receipt.collateral_seized, 10000);
    let (col, bor) = engine.get_position(USER);
    assert_eq!(col, 0);
    assert_eq!(bor, 0);
}

#[test]
fn test_compute_health_factor_values() {
    assert_eq!(compute_health_factor(10000, 7000, 8000, RATE_PRECISION), 11_428_571);
    assert_eq!(compute_health_factor(10000, 7000, 5000, RATE_PRECISION), 7_142_857);
    // No debt means infinite health, reported as the sentinel.
    assert_eq!(compute_health_factor(10000, 0, 8000, RATE_PRECISION), i128::MAX);
}

#[test]
fn test_lending_error_paths() {
    let mut engine = setup();
    assert_eq!(engine.deposit_collateral(USER, 0, 0), Err(Error::InvalidAmount));
    assert_eq!(engine.withdraw_collateral(USER, -5, 0), Err(Error::InvalidAmount));
    assert_eq!(engine.withdraw_collateral(USER, 10, 0), Err(Error::InsufficientCollateral));
    assert_eq!(engine.borrow(USER, 0, 0, RESERVE), Err(Error::InvalidAmount));
    assert_eq!(engine.repay(USER, 100, 0), Err(Error::NoDebt));
    assert_eq!(engine.liquidate(LIQUIDATOR, USER, 0), Err(Error::NoDebt));

    engine.deposit_collateral(USER, 10_000, 0).unwrap();
    // The pool's reserve cannot cover the loan.
    assert_eq!(engine.borrow(USER, 5_000, 0, 4_999), Err(Error::InsufficientLiquidity));

    assert_eq!(engine.update_exchange_rate(USER, 5), Err(Error::Unauthorized));
    assert_eq!(engine.update_exchange_rate(ADMIN, 0), Err(Error::InvalidAmount));
    assert_eq!(engine.update_collateral_factor(ADMIN, 0), Err(Error::InvalidAmount));
    assert_eq!(engine.update_collateral_factor(ADMIN, 10_001), Err(Error::InvalidAmount));
    assert_eq!(engine.update_liquidation_threshold(USER, 5000), Err(Error::Unauthorized));
    assert_eq!(engine.update_borrow_rate(ADMIN, 20_000), Err(Error::InvalidAmount));
    assert_eq!(
        LendingProtocol::initialize(ADMIN, 0, 8000, 500).map(|_| ()),
        Err(Error::InvalidAmount)
    );
}

#[test]
fn test_max_borrow_amount() {
    let mut engine = setup();
    engine.deposit_collateral(USER, 10_000_000_000, 0).unwrap();
    assert_eq!(engine.get_max_borrow_amount(USER, 0), 7_000_000_000);
    engine.borrow(USER, 2_000_000_000, 0, RESERVE).unwrap();
    assert_eq!(engine.get_max_borrow_amount(USER, 0), 5_000_000_000);
}
