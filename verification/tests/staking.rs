use sxlm_protocol::errors::Error;
use sxlm_protocol::numbers::RATE_PRECISION;
use sxlm_protocol::staking::{StakingPool, WithdrawalOutcome};

const ADMIN: u64 = 0;
const USER_BALANCE: i128 = 1_000_000_0000000;

#[test]
fn staking_test_initialize() {
    let pool = StakingPool::initialize(ADMIN);
    assert_eq!(pool.get_total_staked(), 0);
    assert_eq!(pool.get_exchange_rate(), 10_000_000);
}

#[test]
fn test_deposit_initial() {
    let mut pool = StakingPool::initialize(ADMIN);
    let deposit_amount: i128 = 1000_0000000;
    let sxlm_received = pool.deposit(deposit_amount).unwrap();

    assert_eq!(sxlm_received, deposit_amount);
    assert_eq!(pool.get_total_staked(), deposit_amount);
    assert_eq!(pool.get_exchange_rate(), 10_000_000);
}

#[test]
fn test_exchange_rate_calculation() {
    let mut pool = StakingPool::initialize(ADMIN);
    let deposit_amount: i128 = 1000_0000000;
    pool.deposit(deposit_amount).unwrap();

    let rewards: i128 = 50_0000000;
    pool.accrue_rewards(ADMIN, rewards).unwrap();

    let exchange_rate = pool.get_exchange_rate();
    let expected_rate = ((deposit_amount + rewards) * 10_000_000) / deposit_amount;
    assert_eq!(exchange_rate, expected_rate);
    assert_eq!(exchange_rate, 10_500_000);
}

#[test]
fn test_deposit_after_rewards() {
    let mut pool = StakingPool::initialize(ADMIN);
    let deposit1: i128 = 1000_0000000;
    let sxlm1 = pool.deposit(deposit1).unwrap();

    pool.accrue_rewards(ADMIN, 50_0000000).unwrap();

    let deposit2: i128 = 1000_0000000;
    let sxlm2 = pool.deposit(deposit2).unwrap();

    // The later depositor pays the higher rate and receives less.
    assert!(sxlm2 < sxlm1);
    assert_eq!(sxlm2, 952_3809523);
}

#[test]
fn test_withdrawal_calculation() {
    let mut pool = StakingPool::initialize(ADMIN);
    let deposit: i128 = 1000_0000000;
    let sxlm = pool.deposit(deposit).unwrap();

    pool.accrue_rewards(ADMIN, 100_0000000).unwrap();

    let exchange_rate = pool.get_exchange_rate();
    let xlm_value = (sxlm * exchange_rate) / 10_000_000;
    assert_eq!(xlm_value, 1100_0000000);
    assert_eq!(exchange_rate, 11_000_000);
}

#[test]
fn test_multiple_deposits_and_rewards() {
    let mut pool = StakingPool::initialize(ADMIN);
    let d1: i128 = 1000_0000000;
    let sxlm1 = pool.deposit(d1).unwrap();
    pool.accrue_rewards(ADMIN, 50_0000000).unwrap();

    let d2: i128 = 2000_0000000;
    let sxlm2 = pool.deposit(d2).unwrap();
    pool.accrue_rewards(ADMIN, 150_0000000).unwrap();

    let d3: i128 = 500_0000000;
    let sxlm3 = pool.deposit(d3).unwrap();

    assert_eq!(pool.get_total_staked(), d1 + d2 + d3 + 50_0000000 + 150_0000000);
    assert!(sxlm1 > sxlm2 / 2);
    assert!(sxlm2 > sxlm3 * 4);
}

#[test]
fn test_pause_unpause() {
    let mut pool = StakingPool::initialize(ADMIN);
    pool.pause(ADMIN).unwrap();
    assert_eq!(pool.deposit(1000_0000000), Err(Error::ContractPaused));

    pool.unpause(ADMIN).unwrap();
    assert_eq!(pool.deposit(1000_0000000), Ok(1000_0000000));
}

#[test]
fn test_exchange_rate_never_decreases() {
    let mut pool = StakingPool::initialize(ADMIN);
    pool.deposit(1000_0000000).unwrap();
    let rate1 = pool.get_exchange_rate();

    let mut previous = rate1;
    for _ in 1..=5 {
        pool.accrue_rewards(ADMIN, 10_0000000).unwrap();
        let rate_new = pool.get_exchange_rate();
        assert!(rate_new >= previous);
        previous = rate_new;
    }
    assert!(pool.get_exchange_rate() > rate1);
}

#[test]
fn test_zero_supply_edge_case() {
    let pool = StakingPool::initialize(ADMIN);
    assert_eq!(pool.get_exchange_rate(), 10_000_000);
}

#[test]
fn test_precision_no_loss() {
    let mut pool = StakingPool::initialize(ADMIN);
    let small_deposit: i128 = 1_0000000;
    assert_eq!(pool.deposit(small_deposit), Ok(small_deposit));
}

#[test]
fn test_large_amounts() {
    let mut pool = StakingPool::initialize(ADMIN);
    let large_deposit: i128 = 1_000_000_0000000;
    assert_eq!(pool.deposit(large_deposit), Ok(large_deposit));
    assert_eq!(pool.get_total_staked(), large_deposit);
}

#[test]
fn test_exchange_rate_initial() {
    let pool = StakingPool::initialize(ADMIN);
    assert_eq!(pool.get_exchange_rate(), RATE_PRECISION);
    assert_eq!(pool.get_total_staked(), 0);
    assert_eq!(pool.get_total_supply(), 0);
}

#[test]
fn test_withdrawal_goes_to_queue_without_buffer() {
    let mut pool = StakingPool::initialize(ADMIN);
    pool.deposit(1000_0000000).unwrap();

    // Nothing in the buffer: the redemption must wait in the queue.
    let outcome = pool.request_withdrawal(USER_BALANCE, 400_0000000).unwrap();
    assert_eq!(outcome, WithdrawalOutcome::Queued(400_0000000));
    assert_eq!(pool.get_total_staked(), 600_0000000);
    assert_eq!(pool.get_total_supply(), 600_0000000);
}

#[test]
fn test_withdrawal_instant_with_buffer() {
    let mut pool = StakingPool::initialize(ADMIN);
    pool.deposit(1000_0000000).unwrap();
    pool.add_liquidity(ADMIN, 500_0000000).unwrap();

    let outcome = pool.request_withdrawal(USER_BALANCE, 400_0000000).unwrap();
    assert_eq!(outcome, WithdrawalOutcome::Instant(400_0000000));
    assert_eq!(pool.liquidity_buffer, 100_0000000);
}

#[test]
fn test_withdrawal_redeems_at_current_rate() {
    let mut pool = StakingPool::initialize(ADMIN);
    pool.deposit(1000_0000000).unwrap();
    pool.accrue_rewards(ADMIN, 100_0000000).unwrap();

    // 500 sXLM at a 1.1 rate redeem 550 XLM.
    let outcome = pool.request_withdrawal(USER_BALANCE, 500_0000000).unwrap();
    assert_eq!(outcome, WithdrawalOutcome::Queued(550_0000000));
}

#[test]
fn test_staking_error_paths() {
    let mut pool = StakingPool::initialize(ADMIN);
    assert_eq!(pool.deposit(0), Err(Error::InvalidAmount));
    assert_eq!(pool.request_withdrawal(USER_BALANCE, 0), Err(Error::InvalidAmount));
    assert_eq!(pool.request_withdrawal(10, 20), Err(Error::InsufficientBalance));
    assert_eq!(pool.accrue_rewards(5, 100), Err(Error::Unauthorized));
    assert_eq!(pool.accrue_rewards(ADMIN, 0), Err(Error::InvalidAmount));
    assert_eq!(pool.add_liquidity(5, 100), Err(Error::Unauthorized));
    assert_eq!(pool.pause(5), Err(Error::Unauthorized));

    pool.deposit(100).unwrap();
    // A balance larger than the whole supply cannot be burned.
    assert_eq!(pool.request_withdrawal(USER_BALANCE, 200), Err(Error::InsufficientBalance));
}

#[test]
fn test_add_rewards_with_fee() {
    let mut pool = StakingPool::initialize(ADMIN);
    let gross_reward: i128 = 1000_0000000;
    pool.add_rewards(ADMIN, gross_reward).unwrap();
    assert_eq!(pool.get_total_staked(), 900_0000000);
    assert_eq!(pool.treasury_balance, 100_0000000);
}

#[test]
fn test_pause_and_unpause() {
    let mut pool = StakingPool::initialize(ADMIN);
    assert!(!pool.paused);
    pool.pause(ADMIN).unwrap();
    assert!(pool.paused);
    pool.unpause(ADMIN).unwrap();
    assert!(!pool.paused);
}

#[test]
fn test_withdraw_fees() {
    let mut pool = StakingPool::initialize(ADMIN);
    assert_eq!(pool.withdraw_fees(ADMIN), Err(Error::InsufficientBalance));
    pool.add_rewards(ADMIN, 1000_0000000).unwrap();
    assert_eq!(pool.withdraw_fees(5), Err(Error::Unauthorized));
    assert_eq!(pool.withdraw_fees(ADMIN), Ok(100_0000000));
    assert_eq!(pool.treasury_balance, 0);
}

#[test]
fn test_apply_slashing() {
    let mut pool = StakingPool::initialize(ADMIN);
    pool.deposit(1000_0000000).unwrap();
    assert_eq!(pool.apply_slashing(ADMIN, 0), Err(Error::InvalidAmount));
    assert_eq!(
        pool.apply_slashing(ADMIN, 2000_0000000),
        Err(Error::InsufficientBalance)
    );
    pool.apply_slashing(ADMIN, 100_0000000).unwrap();
    assert_eq!(pool.get_total_staked(), 900_0000000);
    // The loss shows up in the exchange rate: 0.9 after a 10% slash.
    assert_eq!(pool.get_exchange_rate(), 9_000_000);
}

#[test]
fn test_calculate_mint_and_redemption_amounts() {
    assert_eq!(StakingPool::calculate_sxlm_mint_amount(500, 0, 0), 500);
    assert_eq!(StakingPool::calculate_sxlm_mint_amount(500, 2000, 1000), 250);
    assert_eq!(StakingPool::calculate_xlm_redemption_amount(500, 2000, 1000), 1000);
    assert_eq!(StakingPool::calculate_xlm_redemption_amount(500, 2000, 0), 0);
}
