use vstd::prelude::*;
use std::collections::HashMap;
use crate::errors::Error;
use crate::numbers::AMOUNT_LIMIT;

verus! {

broadcast use vstd::std_specs::hash::group_hash_axioms;

/// Size cap of the curated validator set.
pub const MAX_VALIDATORS: usize = 20;

/// Lowest score a validator may be admitted with, and below which it
/// receives no fresh stake.
pub const MIN_VALIDATOR_SCORE: u32 = 70;

/// One validator of the curated set.
#[derive(Clone, Copy, Debug, PartialEq, Eq, Structural)]
pub struct Validator {
    /// The validator's account.
    pub address: u64,
    /// Quality score the allocation is weighted by.
    pub score: u32,
    /// Commission the validator charges, metadata here.
    pub commission: u32,
    /// Observed uptime, metadata here.
    pub uptime: u32,
    /// Whether the validator is active, metadata here.
    pub is_active: bool,
}

/// A slice of stake directed at one validator.
#[derive(Clone, Copy, Debug, PartialEq, Eq, Structural)]
pub struct ValidatorAllocation {
    pub validator_address: u64,
    pub amount: i128,
}

/// Sum of the scores of the validators eligible for stake (those at or
/// above the admission floor).
pub open spec fn spec_eligible_score_sum(vs: Seq<Validator>) -> int
    decreases vs.len(),
{
    if vs.len() == 0 {
        0
    } else {
        spec_eligible_score_sum(vs.drop_last()) + (if vs.last().score >= MIN_VALIDATOR_SCORE {
            vs.last().score as int
        } else {
            0
        })
    }
}

/// The score sum is non-negative, and no eligible validator's score
/// exceeds it.
pub proof fn lemma_score_sum_bounds(vs: Seq<Validator>, i: int)
    requires
        0 <= i < vs.len(),
    ensures
        spec_eligible_score_sum(vs) >= 0,
        vs[i].score >= MIN_VALIDATOR_SCORE ==> vs[i].score <= spec_eligible_score_sum(vs),
    decreases vs.len(),
{
    lemma_score_sum_nonneg(vs.drop_last());
    if i < vs.len() - 1 {
        lemma_score_sum_bounds(vs.drop_last(), i);
        assert(vs.drop_last()[i] == vs[i]);
    }
}

/// The score sum is never negative.
pub proof fn lemma_score_sum_nonneg(vs: Seq<Validator>)
    ensures
        spec_eligible_score_sum(vs) >= 0,
    decreases vs.len(),
{
    if vs.len() > 0 {
        lemma_score_sum_nonneg(vs.drop_last());
    }
}

/// Stake split among the eligible validators in proportion to their
/// scores: each gets `total_amount * score / total_score`.
pub open spec fn spec_allocations(
    vs: Seq<Validator>,
    total_amount: int,
    total_score: int,
) -> Seq<ValidatorAllocation>
    decreases vs.len(),
{
    if vs.len() == 0 {
        Seq::empty()
    } else {
        let rest = spec_allocations(vs.drop_last(), total_amount, total_score);
        let v = vs.last();
        if v.score >= MIN_VALIDATOR_SCORE {
            rest.push(ValidatorAllocation {
                validator_address: v.address,
                amount: (total_amount * (v.score as int) / total_score) as i128,
            })
        } else {
            rest
        }
    }
}

/// A stored allocation map after crediting each slice of `allocs` to
/// its validator.
pub open spec fn spec_apply_allocations(
    m: Map<u64, i128>,
    allocs: Seq<ValidatorAllocation>,
) -> Map<u64, i128>
    decreases allocs.len(),
{
    if allocs.len() == 0 {
        m
    } else {
        let rest = spec_apply_allocations(m, allocs.drop_last());
        let a = allocs.last();
        let current: int = if rest.contains_key(a.validator_address) {
            rest[a.validator_address] as int
        } else {
            0
        };
        rest.insert(a.validator_address, (current + a.amount) as i128)
    }
}

/// The validator manager: the curated set, how much stake each
/// validator carries, and the running total. Pure state: the actual
/// delegations to the ledger's validators are the host's to perform,
/// from the allocation slices the operations return.
#[derive(Clone, Debug)]
pub struct ValidatorManager {
    /// Principal allowed to curate the set and rebalance.
    pub admin: u64,
    /// The only principal allowed to allocate stake (the staking
    /// pool).
    pub staking_pool: u64,
    /// The curated set.
    pub validators: Vec<Validator>,
    /// Stake attributed to each validator.
    pub allocations: HashMap<u64, i128>,
    /// Total stake allocated.
    pub total_allocated: i128,
}

impl ValidatorManager {
    /// Stake attributed to `validator`; zero if none.
    pub open spec fn allocation_of(self, validator: u64) -> i128 {
        if self.allocations@.contains_key(validator) {
            self.allocations@[validator]
        } else {
            0
        }
    }

    /// Set within its cap, the total non-negative and capped, and no
    /// attributed stake out of proportion to the total (a set of
    /// duplicated addresses can attribute one address several slices,
    /// so the per-address bound carries the set-size factor).
    pub open spec fn wf(self) -> bool {
        &&& self.validators@.len() <= MAX_VALIDATORS
        &&& 0 <= self.total_allocated <= AMOUNT_LIMIT
        &&& forall|v: u64|
            self.allocations@.contains_key(v) ==> 0 <= #[trigger] self.allocations@[v]
                <= (MAX_VALIDATORS as int) * self.total_allocated
    }

    /// Fresh manager with an empty set.
    pub fn initialize(admin: u64, staking_pool: u64) -> (m: ValidatorManager)
        ensures
            m.wf(),
            m.admin == admin,
            m.staking_pool == staking_pool,
            m.validators@ == Seq::<Validator>::empty(),
            m.allocations@ == Map::<u64, i128>::empty(),
            m.total_allocated == 0,
    {
        ValidatorManager {
            admin,
            staking_pool,
            validators: Vec::new(),
            allocations: HashMap::new(),
            total_allocated: 0,
        }
    }

    /// Admit `validator` to the set. Fails with `Unauthorized` iff the
    /// caller is not the admin, with `TooManyValidators` iff the set
    /// is full, and with `ScoreTooLow` iff the score is below the
    /// admission floor.
    pub fn add_validator(&mut self, caller: u64, validator: Validator) -> (r: Result<(), Error>)
        requires
            old(self).wf(),
        ensures
            final(self).wf(),
            r == (if caller != old(self).admin {
                Err::<(), Error>(Error::Unauthorized)
            } else if old(self).validators@.len() >= MAX_VALIDATORS {
                Err::<(), Error>(Error::TooManyValidators)
            } else if validator.score < MIN_VALIDATOR_SCORE {
                Err::<(), Error>(Error::ScoreTooLow)
            } else {
                Ok::<(), Error>(())
            }),
            r is Err ==> *final(self) == *old(self),
            r is Ok ==> {
                &&& final(self).validators@ == old(self).validators@.push(validator)
                &&& final(self).allocations@ == old(self).allocations@
                &&& final(self).total_allocated == old(self).total_allocated
                &&& final(self).admin == old(self).admin
                &&& final(self).staking_pool == old(self).staking_pool
            },
    {
        if caller != self.admin {
            return Err(Error::Unauthorized);
        }
        if self.validators.len() >= MAX_VALIDATORS {
            return Err(Error::TooManyValidators);
        }
        if validator.score < MIN_VALIDATOR_SCORE {
            return Err(Error::ScoreTooLow);
        }
        self.validators.push(validator);
        Ok(())
    }

    /// Set a validator's score; every entry under that address is
    /// updated. Fails with `Unauthorized` iff the caller is not the
    /// admin and with `ValidatorNotFound` iff no entry has the
    /// address.
    pub fn update_validator_score(
        &mut self,
        caller: u64,
        validator_address: u64,
        new_score: u32,
    ) -> (r: Result<(), Error>)
        requires
            old(self).wf(),
        ensures
            final(self).wf(),
            r == (if caller != old(self).admin {
                Err::<(), Error>(Error::Unauthorized)
            } else if !seq_contains_address(old(self).validators@, validator_address) {
                Err::<(), Error>(Error::ValidatorNotFound)
            } else {
                Ok::<(), Error>(())
            }),
            r is Err ==> *final(self) == *old(self),
            r is Ok ==> {
                &&& final(self).validators@.len() == old(self).validators@.len()
                &&& (forall|j: int|
                    0 <= j < old(self).validators@.len() ==> #[trigger] final(self).validators@[j]
                        == (if old(self).validators@[j].address == validator_address {
                        Validator { score: new_score, ..old(self).validators@[j] }
                    } else {
                        old(self).validators@[j]
                    }))
                &&& final(self).allocations@ == old(self).allocations@
                &&& final(self).total_allocated == old(self).total_allocated
                &&& final(self).admin == old(self).admin
                &&& final(self).staking_pool == old(self).staking_pool
            },
    {
        if caller != self.admin {
            return Err(Error::Unauthorized);
        }
        let mut updated: Vec<Validator> = Vec::new();
        let mut found = false;
        let mut j: usize = 0;
        while j < self.validators.len()
            invariant
                j <= self.validators@.len(),
                updated@.len() == j as int,
                found <==> (exists|m: int|
                    0 <= m < j && self.validators@[m].address == validator_address),
                forall|m: int|
                    0 <= m < j ==> #[trigger] updated@[m] == (
                    if self.validators@[m].address == validator_address {
                        Validator { score: new_score, ..self.validators@[m] }
                    } else {
                        self.validators@[m]
                    }),
            decreases self.validators@.len() - j,
        {
            let mut v = self.validators[j];
            if v.address == validator_address {
                v.score = new_score;
                found = true;
            }
            updated.push(v);
            j = j + 1;
        }
        if !found {
            return Err(Error::ValidatorNotFound);
        }
        self.validators = updated;
        Ok(())
    }

    /// Drop the validator under `validator_address` from the set; its
    /// recorded allocation remains until the next rebalance. Fails
    /// with `Unauthorized` iff the caller is not the admin and with
    /// `ValidatorNotFound` iff no entry has the address.
    pub fn remove_validator(&mut self, caller: u64, validator_address: u64) -> (r: Result<
        (),
        Error,
    >)
        requires
            old(self).wf(),
        ensures
            final(self).wf(),
            r == (if caller != old(self).admin {
                Err::<(), Error>(Error::Unauthorized)
            } else if !seq_contains_address(old(self).validators@, validator_address) {
                Err::<(), Error>(Error::ValidatorNotFound)
            } else {
                Ok::<(), Error>(())
            }),
            r is Err ==> *final(self) == *old(self),
            r is Ok ==> {
                &&& final(self).validators@ == old(self).validators@.filter(
                    |v: Validator| v.address != validator_address,
                )
                &&& final(self).allocations@ == old(self).allocations@
                &&& final(self).total_allocated == old(self).total_allocated
                &&& final(self).admin == old(self).admin
                &&& final(self).staking_pool == old(self).staking_pool
            },
    {
        if caller != self.admin {
            return Err(Error::Unauthorized);
        }
        let mut kept: Vec<Validator> = Vec::new();
        let mut found = false;
        let mut j: usize = 0;
        proof {
            assert(self.validators@.take(0int).filter(
                |v: Validator| v.address != validator_address,
            ) =~= Seq::<Validator>::empty());
        }
        while j < self.validators.len()
            invariant
                j <= self.validators@.len(),
                kept@ == self.validators@.take(j as int).filter(
                    |v: Validator| v.address != validator_address,
                ),
                found <==> (exists|m: int|
                    0 <= m < j && self.validators@[m].address == validator_address),
            decreases self.validators@.len() - j,
        {
            let v = self.validators[j];
            proof {
                crate::seq_util::lemma_filter_take_step(
                    self.validators@,
                    j as int,
                    |v: Validator| v.address != validator_address,
                );
            }
            if v.address != validator_address {
                kept.push(v);
            } else {
                found = true;
            }
            j = j + 1;
        }
        proof {
            assert(self.validators@.take(self.validators@.len() as int) =~= self.validators@);
        }
        if !found {
            return Err(Error::ValidatorNotFound);
        }
        proof {
            self.validators@.lemma_filter_len(|v: Validator| v.address != validator_address);
        }
        self.validators = kept;
        Ok(())
    }

    /// Split `amount` of fresh stake among the eligible validators in
    /// proportion to their scores, and credit each share to its
    /// validator. Returns the slices the host must delegate on the
    /// ledger.
    ///
    /// Fails with `Unauthorized` iff the caller is not the staking
    /// pool, with `InvalidAmount` iff the amount is not positive, and
    /// with `NoValidators` iff the set is empty.
    pub fn allocate_stake(&mut self, caller: u64, amount: i128) -> (r: Result<
        Vec<ValidatorAllocation>,
        Error,
    >)
        requires
            old(self).wf(),
            amount <= AMOUNT_LIMIT,
            old(self).total_allocated + amount <= AMOUNT_LIMIT,
        ensures
            final(self).wf(),
            r == (if caller != old(self).staking_pool {
                Err::<Vec<ValidatorAllocation>, Error>(Error::Unauthorized)
            } else if amount <= 0 {
                Err::<Vec<ValidatorAllocation>, Error>(Error::InvalidAmount)
            } else if old(self).validators@.len() == 0 {
                Err::<Vec<ValidatorAllocation>, Error>(Error::NoValidators)
            } else {
                r
            }),
            r is Err ==> *final(self) == *old(self),
            r matches Ok(allocs) ==> {
                &&& allocs@ == spec_allocations(
                    old(self).validators@,
                    amount as int,
                    spec_eligible_score_sum(old(self).validators@),
                )
                &&& final(self).validators@ == old(self).validators@
                &&& final(self).total_allocated == old(self).total_allocated + amount
                &&& final(self).allocations@ == spec_apply_allocations(
                    old(self).allocations@,
                    allocs@,
                )
                &&& final(self).admin == old(self).admin
                &&& final(self).staking_pool == old(self).staking_pool
            },
    {
        if caller != self.staking_pool {
            return Err(Error::Unauthorized);
        }
        if amount <= 0 {
            return Err(Error::InvalidAmount);
        }
        if self.validators.len() == 0 {
            return Err(Error::NoValidators);
        }
        let allocs = calculate_allocations(&self.validators, amount);
        let ghost pre = self.allocations@;
        let ghost pre_total = self.total_allocated as int;
        let mut k: usize = 0;
        proof {
            assert(allocs@.take(0int) =~= Seq::<ValidatorAllocation>::empty());
            assert(spec_apply_allocations(pre, allocs@.take(0int)) =~= pre);
        }
        while k < allocs.len()
            invariant
                self.allocations@ == spec_apply_allocations(pre, allocs@.take(k as int)),
                k <= allocs@.len() <= MAX_VALIDATORS,
                self.validators@ == old(self).validators@,
                self.admin == old(self).admin,
                self.staking_pool == old(self).staking_pool,
                self.total_allocated == old(self).total_allocated,
                pre_total == old(self).total_allocated as int,
                forall|v: u64|
                    pre.contains_key(v) ==> 0 <= #[trigger] pre[v] <= (MAX_VALIDATORS as int)
                        * pre_total,
                forall|m: int|
                    0 <= m < allocs@.len() ==> 0 <= (#[trigger] allocs@[m]).amount <= amount,
                0 < amount <= AMOUNT_LIMIT,
                0 <= pre_total,
                pre_total + amount <= AMOUNT_LIMIT,
                forall|v: u64|
                    self.allocations@.contains_key(v) ==> 0 <= #[trigger] self.allocations@[v]
                        <= (if pre.contains_key(v) {
                        pre[v] as int
                    } else {
                        0int
                    }) + k * amount,
            decreases allocs@.len() - k,
        {
            let a = allocs[k];
            let current: i128 = match self.allocations.get(&a.validator_address) {
                Some(c) => *c,
                None => 0,
            };
            proof {
                assert(allocs@.take((k + 1) as int).drop_last() =~= allocs@.take(k as int));
                assert(k * amount + amount == (k + 1) * amount) by (nonlinear_arith);
                vstd::arithmetic::mul::lemma_mul_inequality(
                    k as int,
                    MAX_VALIDATORS as int,
                    amount as int,
                );
                vstd::arithmetic::mul::lemma_mul_nonnegative(k as int, amount as int);
                vstd::arithmetic::mul::lemma_mul_nonnegative((k + 1) as int, amount as int);
            }
            self.allocations.insert(a.validator_address, current + a.amount);
            k = k + 1;
        }
        self.total_allocated = self.total_allocated + amount;
        proof {
            assert(allocs@.take(allocs@.len() as int) =~= allocs@);
            assert((MAX_VALIDATORS as int) * pre_total + (MAX_VALIDATORS as int) * amount
                == (MAX_VALIDATORS as int) * (pre_total + amount)) by (nonlinear_arith);
            assert forall|v: u64| self.allocations@.contains_key(v) implies 0
                <= #[trigger] self.allocations@[v] <= (MAX_VALIDATORS as int) * (pre_total
                + amount) by {
                vstd::arithmetic::mul::lemma_mul_inequality(
                    allocs@.len() as int,
                    MAX_VALIDATORS as int,
                    amount as int,
                );
            }
        }
        Ok(allocs)
    }

    /// Recompute the ideal proportional split of the whole allocated
    /// total over the current set and store it, replacing the old
    /// attribution. Returns the ideal slices so the host can shift
    /// delegations to match. Fails with `Unauthorized` iff the caller
    /// is not the admin.
    pub fn rebalance(&mut self, caller: u64) -> (r: Result<Vec<ValidatorAllocation>, Error>)
        requires
            old(self).wf(),
        ensures
            final(self).wf(),
            r is Err <==> caller != old(self).admin,
            r is Err ==> *final(self) == *old(self) && r == Err::<Vec<ValidatorAllocation>, Error>(
                Error::Unauthorized,
            ),
            r matches Ok(allocs) ==> {
                &&& allocs@ == spec_allocations(
                    old(self).validators@,
                    old(self).total_allocated as int,
                    spec_eligible_score_sum(old(self).validators@),
                )
                &&& final(self).validators@ == old(self).validators@
                &&& final(self).total_allocated == old(self).total_allocated
                &&& final(self).allocations@ == spec_apply_allocations(
                    Map::<u64, i128>::empty(),
                    allocs@,
                )
                &&& final(self).admin == old(self).admin
                &&& final(self).staking_pool == old(self).staking_pool
            },
    {
        if caller != self.admin {
            return Err(Error::Unauthorized);
        }
        let allocs = calculate_allocations(&self.validators, self.total_allocated);
        let mut fresh: HashMap<u64, i128> = HashMap::new();
        let ghost empty = Map::<u64, i128>::empty();
        let mut k: usize = 0;
        proof {
            assert(allocs@.take(0int) =~= Seq::<ValidatorAllocation>::empty());
            assert(spec_apply_allocations(empty, allocs@.take(0int)) =~= empty);
        }
        let total: i128 = self.total_allocated;
        while k < allocs.len()
            invariant
                fresh@ == spec_apply_allocations(empty, allocs@.take(k as int)),
                k <= allocs@.len() <= MAX_VALIDATORS,
                forall|m: int|
                    0 <= m < allocs@.len() ==> 0 <= (#[trigger] allocs@[m]).amount <= total,
                0 <= total <= AMOUNT_LIMIT,
                forall|v: u64|
                    fresh@.contains_key(v) ==> 0 <= #[trigger] fresh@[v] <= k * (total as int),
            decreases allocs@.len() - k,
        {
            let a = allocs[k];
            let current: i128 = match fresh.get(&a.validator_address) {
                Some(c) => *c,
                None => 0,
            };
            proof {
                assert(allocs@.take((k + 1) as int).drop_last() =~= allocs@.take(k as int));
                assert(k * (total as int) + total == (k + 1) * (total as int))
                    by (nonlinear_arith);
                vstd::arithmetic::mul::lemma_mul_inequality(
                    k as int,
                    MAX_VALIDATORS as int,
                    total as int,
                );
                vstd::arithmetic::mul::lemma_mul_nonnegative(k as int, total as int);
                vstd::arithmetic::mul::lemma_mul_nonnegative((k + 1) as int, total as int);
            }
            fresh.insert(a.validator_address, current + a.amount);
            k = k + 1;
        }
        proof {
            assert(allocs@.take(allocs@.len() as int) =~= allocs@);
            assert forall|v: u64| spec_apply_allocations(empty, allocs@).contains_key(v) implies 0
                <= #[trigger] spec_apply_allocations(empty, allocs@)[v] <= (MAX_VALIDATORS as int)
                * (total as int) by {
                vstd::arithmetic::mul::lemma_mul_inequality(
                    allocs@.len() as int,
                    MAX_VALIDATORS as int,
                    total as int,
                );
            }
        }
        self.allocations = fresh;
        Ok(allocs)
    }

    /// The curated set, in admission order.
    pub fn get_validators_list(&self) -> (r: Vec<Validator>)
        ensures
            r@ == self.validators@,
    {
        let mut out: Vec<Validator> = Vec::new();
        let mut j: usize = 0;
        while j < self.validators.len()
            invariant
                j <= self.validators@.len(),
                out@ == self.validators@.take(j as int),
            decreases self.validators@.len() - j,
        {
            out.push(self.validators[j]);
            proof {
                assert(self.validators@.take((j + 1) as int) =~= self.validators@.take(
                    j as int,
                ).push(self.validators@[j as int]));
            }
            j = j + 1;
        }
        proof {
            assert(self.validators@.take(self.validators@.len() as int) =~= self.validators@);
        }
        out
    }

    /// Total stake allocated across the set.
    pub fn get_total_allocated_amount(&self) -> (r: i128)
        ensures
            r == self.total_allocated,
    {
        self.total_allocated
    }

    /// Stake attributed to `validator`.
    pub fn get_validator_allocation(&self, validator: u64) -> (r: i128)
        ensures
            r == self.allocation_of(validator),
    {
        match self.allocations.get(&validator) {
            Some(a) => *a,
            None => 0,
        }
    }
}

/// Whether some entry of the set has the given address.
pub open spec fn seq_contains_address(vs: Seq<Validator>, address: u64) -> bool {
    exists|m: int| 0 <= m < vs.len() && vs[m].address == address
}

/// Proportional split of `total_amount` over the eligible validators:
/// each receives `total_amount * score / (sum of eligible scores)`,
/// and an ineligible validator receives nothing.
pub fn calculate_allocations(validators: &Vec<Validator>, total_amount: i128) -> (r: Vec<
    ValidatorAllocation,
>)
    requires
        0 <= total_amount <= AMOUNT_LIMIT,
        validators@.len() <= MAX_VALIDATORS,
    ensures
        r@ == spec_allocations(
            validators@,
            total_amount as int,
            spec_eligible_score_sum(validators@),
        ),
        forall|m: int| 0 <= m < r@.len() ==> 0 <= (#[trigger] r@[m]).amount <= total_amount,
        r@.len() <= validators@.len(),
{
    let total_score: u64 = eligible_score_sum(validators);
    let mut out: Vec<ValidatorAllocation> = Vec::new();
    if total_score == 0 {
        proof {
            lemma_allocations_of_zero_sum(validators@, total_amount as int);
        }
        return out;
    }
    let mut j: usize = 0;
    proof {
        assert(spec_allocations(
            validators@.take(0int),
            total_amount as int,
            total_score as int,
        ) =~= Seq::<ValidatorAllocation>::empty());
    }
    while j < validators.len()
        invariant
            j <= validators@.len(),
            0 <= total_amount <= AMOUNT_LIMIT,
            0 < total_score,
            total_score == spec_eligible_score_sum(validators@),
            out@ == spec_allocations(validators@.take(j as int), total_amount as int, total_score as int),
            forall|m: int| 0 <= m < out@.len() ==> 0 <= (#[trigger] out@[m]).amount <= total_amount,
            out@.len() <= j,
        decreases validators@.len() - j,
    {
        let v = validators[j];
        proof {
            assert(validators@.take((j + 1) as int).drop_last() =~= validators@.take(j as int));
        }
        if v.score >= MIN_VALIDATOR_SCORE {
            proof {
                lemma_score_sum_bounds(validators@, j as int);
                lemma_portion_bounds(total_amount as int, v.score as int, total_score as int);
            }
            let portion: i128 = total_amount * (v.score as i128) / (total_score as i128);
            out.push(ValidatorAllocation { validator_address: v.address, amount: portion });
        }
        j = j + 1;
    }
    proof {
        assert(validators@.take(validators@.len() as int) =~= validators@);
    }
    out
}

/// Sum of the eligible validators' scores, computed wide enough that
/// twenty 32-bit scores cannot overflow.
fn eligible_score_sum(validators: &Vec<Validator>) -> (r: u64)
    requires
        validators@.len() <= MAX_VALIDATORS,
    ensures
        r == spec_eligible_score_sum(validators@),
{
    let mut sum: u64 = 0;
    let mut j: usize = 0;
    proof {
        assert(spec_eligible_score_sum(validators@.take(0int)) == 0);
    }
    while j < validators.len()
        invariant
            j <= validators@.len() <= MAX_VALIDATORS,
            sum == spec_eligible_score_sum(validators@.take(j as int)),
            sum <= j * (u32::MAX as int),
        decreases validators@.len() - j,
    {
        let v = validators[j];
        proof {
            assert(validators@.take((j + 1) as int).drop_last() =~= validators@.take(j as int));
        }
        if v.score >= MIN_VALIDATOR_SCORE {
            sum = sum + (v.score as u64);
        }
        j = j + 1;
    }
    proof {
        assert(validators@.take(validators@.len() as int) =~= validators@);
    }
    sum
}

/// When no validator is eligible, the split is empty.
proof fn lemma_allocations_of_zero_sum(vs: Seq<Validator>, total_amount: int)
    requires
        spec_eligible_score_sum(vs) == 0,
    ensures
        spec_allocations(vs, total_amount, 0) == Seq::<ValidatorAllocation>::empty(),
    decreases vs.len(),
{
    if vs.len() > 0 {
        lemma_score_sum_nonneg(vs.drop_last());
        lemma_allocations_of_zero_sum(vs.drop_last(), total_amount);
    }
}

/// One slice of a proportional split is between zero and the whole
/// amount.
proof fn lemma_portion_bounds(total_amount: int, score: int, total_score: int)
    requires
        0 <= total_amount <= AMOUNT_LIMIT,
        0 <= score <= total_score,
        0 < total_score <= u64::MAX as int,
    ensures
        0 <= total_amount * score <= AMOUNT_LIMIT * (u64::MAX as int),
        0 <= total_amount * score / total_score <= total_amount,
{
    assert(0 <= total_amount * score <= AMOUNT_LIMIT * (u64::MAX as int)) by (nonlinear_arith)
        requires
            0 <= total_amount <= AMOUNT_LIMIT,
            0 <= score <= u64::MAX as int,
    ;
    assert(0 <= total_amount * score) by (nonlinear_arith)
        requires
            0 <= total_amount,
            0 <= score,
    ;
    vstd::arithmetic::div_mod::lemma_div_pos_is_pos(total_amount * score, total_score);
    assert(total_amount * score <= total_score * total_amount) by (nonlinear_arith)
        requires
            0 <= total_amount,
            score <= total_score,
    ;
    vstd::arithmetic::div_mod::lemma_multiply_divide_le(
        total_amount * score,
        total_score,
        total_amount,
    );
}

} // verus!
