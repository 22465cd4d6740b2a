use sxlm_protocol::errors::Error;
use sxlm_protocol::validators::{Validator, ValidatorManager};

const ADMIN: u64 = 0;
const POOL: u64 = 1;

fn setup() -> ValidatorManager {
    ValidatorManager::initialize(ADMIN, POOL)
}

fn validator(address: u64, score: u32) -> Validator {
    Validator { address, score, commission: 300, uptime: 99, is_active: true }
}

#[test]
fn validators_test_initialize() {
    let mgr = setup();
    assert_eq!(mgr.get_total_allocated_amount(), 0);
    assert_eq!(mgr.get_validators_list().len(), 0);
}

#[test]
fn test_add_validator() {
    let mut mgr = setup();
    mgr.add_validator(ADMIN, validator(10, 95)).unwrap();

    let validators = mgr.get_validators_list();
    assert_eq!(validators.len(), 1);
    assert_eq!(validators[0].score, 95);
}

#[test]
fn test_add_multiple_validators() {
    let mut mgr = setup();
    mgr.add_validator(ADMIN, validator(10, 95)).unwrap();
    mgr.add_validator(ADMIN, validator(11, 85)).unwrap();
    mgr.add_validator(ADMIN, validator(12, 75)).unwrap();
    assert_eq!(mgr.get_validators_list().len(), 3);
}

#[test]
fn test_reject_low_score_validator() {
    let mut mgr = setup();
    let result = mgr.add_validator(ADMIN, validator(10, 69));
    assert!(result.is_err());
    assert_eq!(result, Err(Error::ScoreTooLow));
}

#[test]
fn test_remove_validator() {
    let mut mgr = setup();
    mgr.add_validator(ADMIN, validator(10, 95)).unwrap();
    assert_eq!(mgr.get_validators_list().len(), 1);

    mgr.remove_validator(ADMIN, 10).unwrap();
    assert_eq!(mgr.get_validators_list().len(), 0);
}

#[test]
fn test_update_validator_score() {
    let mut mgr = setup();
    mgr.add_validator(ADMIN, validator(10, 95)).unwrap();
    mgr.update_validator_score(ADMIN, 10, 80).unwrap();
    assert_eq!(mgr.get_validators_list()[0].score, 80);
}

#[test]
fn test_allocate_stake_single_validator() {
    let mut mgr = setup();
    mgr.add_validator(ADMIN, validator(10, 95)).unwrap();

    let amount: i128 = 1000_0000000;
    mgr.allocate_stake(POOL, amount).unwrap();

    assert_eq!(mgr.get_validator_allocation(10), amount);
    assert_eq!(mgr.get_total_allocated_amount(), amount);
}

#[test]
fn test_weighted_allocation() {
    let mut mgr = setup();
    mgr.add_validator(ADMIN, validator(10, 90)).unwrap();
    mgr.add_validator(ADMIN, validator(11, 80)).unwrap();

    let amount: i128 = 1000_0000000;
    mgr.allocate_stake(POOL, amount).unwrap();

    // Each validator takes its score's share of the 170 score points.
    assert_eq!(mgr.get_validator_allocation(10), (amount * 90) / 170);
    assert_eq!(mgr.get_validator_allocation(11), (amount * 80) / 170);
}

#[test]
fn test_multiple_allocations() {
    let mut mgr = setup();
    mgr.add_validator(ADMIN, validator(10, 95)).unwrap();

    mgr.allocate_stake(POOL, 400_0000000).unwrap();
    mgr.allocate_stake(POOL, 600_0000000).unwrap();

    assert_eq!(mgr.get_total_allocated_amount(), 1000_0000000);
    assert_eq!(mgr.get_validator_allocation(10), 1000_0000000);
}

#[test]
fn test_max_validators_limit() {
    let mut mgr = setup();
    for i in 0..20u64 {
        mgr.add_validator(ADMIN, validator(100 + i, 80)).unwrap();
    }
    assert_eq!(mgr.get_validators_list().len(), 20);

    let result = mgr.add_validator(ADMIN, validator(999, 80));
    assert!(result.is_err());
    assert_eq!(result, Err(Error::TooManyValidators));
}

#[test]
fn test_ineligible_validator_gets_nothing() {
    let mut mgr = setup();
    mgr.add_validator(ADMIN, validator(10, 90)).unwrap();
    mgr.add_validator(ADMIN, validator(11, 80)).unwrap();
    // The second validator's score later drops below the floor.
    mgr.update_validator_score(ADMIN, 11, 50).unwrap();

    mgr.allocate_stake(POOL, 900).unwrap();
    assert_eq!(mgr.get_validator_allocation(10), 900);
    assert_eq!(mgr.get_validator_allocation(11), 0);
}

#[test]
fn test_rebalance_recomputes_attribution() {
    let mut mgr = setup();
    mgr.add_validator(ADMIN, validator(10, 90)).unwrap();
    mgr.add_validator(ADMIN, validator(11, 90)).unwrap();
    mgr.allocate_stake(POOL, 1000).unwrap();

    mgr.remove_validator(ADMIN, 11).unwrap();
    let ideal = mgr.rebalance(ADMIN).unwrap();

    // All of the total now belongs to the remaining validator.
    assert_eq!(ideal.len(), 1);
    assert_eq!(ideal[0].validator_address, 10);
    assert_eq!(ideal[0].amount, 1000);
    assert_eq!(mgr.get_validator_allocation(10), 1000);
    assert_eq!(mgr.get_validator_allocation(11), 0);
}

#[test]
fn test_validator_error_paths() {
    let mut mgr = setup();
    assert_eq!(mgr.add_validator(POOL, validator(10, 95)), Err(Error::Unauthorized));
    assert_eq!(mgr.remove_validator(ADMIN, 10), Err(Error::ValidatorNotFound));
    assert_eq!(mgr.update_validator_score(ADMIN, 10, 80), Err(Error::ValidatorNotFound));
    assert_eq!(mgr.allocate_stake(ADMIN, 100).map(|_| ()), Err(Error::Unauthorized));
    assert_eq!(mgr.allocate_stake(POOL, 0).map(|_| ()), Err(Error::InvalidAmount));
    assert_eq!(mgr.allocate_stake(POOL, 100).map(|_| ()), Err(Error::NoValidators));
    assert_eq!(mgr.rebalance(POOL).map(|_| ()), Err(Error::Unauthorized));
}
