use vstd::prelude::*;
use std::collections::HashMap;
use crate::errors::Error;
use crate::health::{compute_health_factor, health_inputs_ok, spec_health_factor};
use crate::interest::{accrue, accrue_in_range, spec_accrue};
use crate::numbers::{AMOUNT_LIMIT, BPS_DENOMINATOR, RATE_LIMIT, RATE_PRECISION};
use crate::position::Position;

verus! {

broadcast use vstd::std_specs::hash::group_hash_axioms;

/// Collateral value a position may borrow against, in units of the
/// native asset at the `RATE_PRECISION` scale of the health factor:
/// `collateral * exchange_rate * cf_bps / (BPS_DENOMINATOR *
/// RATE_PRECISION)`.
pub open spec fn spec_max_borrow(collateral: int, exchange_rate: int, cf_bps: int) -> int {
    collateral * exchange_rate * cf_bps / (BPS_DENOMINATOR * RATE_PRECISION)
}

/// Collateral seized by a liquidator who repays `debt`: face value plus
/// the liquidation bonus, converted to the staked asset at the current
/// exchange rate, capped at the collateral actually present. The cap
/// means a deeply underwater position pays the liquidator less than the
/// nominal bonus — a shortfall absorbed by the protocol.
pub open spec fn spec_seize(
    collateral: int,
    debt: int,
    bonus_bps: int,
    exchange_rate: int,
) -> int {
    let with_bonus = debt * (BPS_DENOMINATOR + bonus_bps) / (BPS_DENOMINATOR as int);
    let nominal = with_bonus * (RATE_PRECISION as int) / exchange_rate;
    if nominal > collateral {
        collateral
    } else {
        nominal
    }
}

/// What a successful liquidation moved: the liquidator paid
/// `debt_repaid` of the native asset into custody and received
/// `collateral_seized` of the staked asset.
#[derive(Clone, Copy, Debug, PartialEq, Eq, Structural)]
pub struct LiquidationReceipt {
    pub liquidator: u64,
    pub borrower: u64,
    pub debt_repaid: i128,
    pub collateral_seized: i128,
}

/// The collateralized lending engine: per-account positions, pool
/// aggregates, and the protocol risk parameters. Pure state: the host
/// shell authenticates callers, performs the asset transfers each
/// operation reports, and persists the state — committing it only when
/// those transfers succeed, so that every operation is atomic.
///
/// Accounts are identified by opaque numeric ids; the host keeps the
/// mapping from ledger addresses to ids.
#[derive(Clone, Debug)]
pub struct LendingProtocol {
    /// Principal allowed to change the risk parameters.
    pub admin: u64,
    /// Maximum loan-to-value ratio for new borrowing, in basis points.
    pub collateral_factor_bps: i128,
    /// Loan-to-value ratio past which a position may be liquidated, in
    /// basis points; at least the collateral factor by convention.
    pub liquidation_threshold_bps: i128,
    /// Extra collateral value awarded to a liquidator, in basis points.
    pub liquidation_bonus_bps: i128,
    /// Annualized interest rate on outstanding debt, in basis points.
    pub borrow_rate_bps: i128,
    /// Value of one unit of the staked asset in the native asset, scaled
    /// by `RATE_PRECISION`; supplied by the rate oracle.
    pub exchange_rate: i128,
    /// Running sum of all collateral held in custody.
    pub total_collateral: i128,
    /// Running sum of all outstanding debt, interest included.
    pub total_borrowed: i128,
    /// Position of each account that ever touched the engine.
    pub positions: HashMap<u64, Position>,
}

impl LendingProtocol {
    /// The position stored for `account`; an account never seen has the
    /// implicit empty position.
    pub open spec fn position_of(self, account: u64) -> Position {
        if self.positions@.contains_key(account) {
            self.positions@[account]
        } else {
            Position { collateral: 0, debt: 0, last_update: 0 }
        }
    }

    /// Well-formedness: parameters in range, aggregates within the
    /// amount cap, and every stored position well formed — in
    /// particular, collateral and debt non-negative, always.
    pub open spec fn wf(self) -> bool {
        &&& 0 < self.collateral_factor_bps <= BPS_DENOMINATOR
        &&& 0 < self.liquidation_threshold_bps <= BPS_DENOMINATOR
        &&& 0 <= self.liquidation_bonus_bps <= BPS_DENOMINATOR
        &&& 0 <= self.borrow_rate_bps <= BPS_DENOMINATOR
        &&& 0 < self.exchange_rate <= RATE_LIMIT
        &&& 0 <= self.total_collateral <= AMOUNT_LIMIT
        &&& 0 <= self.total_borrowed <= AMOUNT_LIMIT
        &&& forall|a: u64|
            self.positions@.contains_key(a) ==> (#[trigger] self.positions@[a]).wf()
    }

    /// Two engine states that agree on everything but the positions and
    /// the pool aggregates.
    pub open spec fn same_config(self, other: LendingProtocol) -> bool {
        &&& self.admin == other.admin
        &&& self.collateral_factor_bps == other.collateral_factor_bps
        &&& self.liquidation_threshold_bps == other.liquidation_threshold_bps
        &&& self.liquidation_bonus_bps == other.liquidation_bonus_bps
        &&& self.borrow_rate_bps == other.borrow_rate_bps
        &&& self.exchange_rate == other.exchange_rate
    }

    /// What the 128-bit arithmetic and the running sums demand of an
    /// operation on `account` at time `now`: the clock is monotonic and
    /// within the cap, the accrued debt stays under the amount cap, the
    /// realized interest still fits in the debt aggregate, and the
    /// aggregates cover the position they are about to be adjusted by.
    /// Any state reached from `initialize` through the engine's own
    /// operations under a bounded clock satisfies the covering clauses.
    pub open spec fn op_in_range(self, account: u64, now: u64) -> bool {
        let p = self.position_of(account);
        let q = spec_accrue(p, now, self.borrow_rate_bps as int);
        &&& accrue_in_range(p, now, self.borrow_rate_bps as int)
        &&& self.total_borrowed + (q.debt - p.debt) <= AMOUNT_LIMIT
        &&& p.debt <= self.total_borrowed
        &&& p.collateral <= self.total_collateral
    }

    /// The stored position of `account`, or the implicit empty one.
    pub fn stored_position(&self, account: u64) -> (p: Position)
        ensures
            p == self.position_of(account),
    {
        match self.positions.get(&account) {
            Some(p) => *p,
            None => Position { collateral: 0, debt: 0, last_update: 0 },
        }
    }

    /// Fresh engine. Fails with `InvalidAmount` iff a factor is outside
    /// (0, 10_000] basis points or the borrow rate is above 10_000. The
    /// exchange rate starts at 1.0 and the liquidation bonus at 5%.
    pub fn initialize(
        admin: u64,
        collateral_factor_bps: u32,
        liquidation_threshold_bps: u32,
        borrow_rate_bps: u32,
    ) -> (r: Result<LendingProtocol, Error>)
        ensures
            r is Ok <==> {
                &&& 0 < collateral_factor_bps <= BPS_DENOMINATOR
                &&& 0 < liquidation_threshold_bps <= BPS_DENOMINATOR
                &&& borrow_rate_bps <= BPS_DENOMINATOR
            },
            r matches Ok(e) ==> {
                &&& e.wf()
                &&& e.admin == admin
                &&& e.collateral_factor_bps == collateral_factor_bps as i128
                &&& e.liquidation_threshold_bps == liquidation_threshold_bps as i128
                &&& e.liquidation_bonus_bps == 500
                &&& e.borrow_rate_bps == borrow_rate_bps as i128
                &&& e.exchange_rate == RATE_PRECISION
                &&& e.total_collateral == 0
                &&& e.total_borrowed == 0
                &&& e.positions@ == Map::<u64, Position>::empty()
            },
            r matches Err(e) ==> e == Error::InvalidAmount,
    {
        if collateral_factor_bps == 0 || collateral_factor_bps > 10_000 {
            return Err(Error::InvalidAmount);
        }
        if liquidation_threshold_bps == 0 || liquidation_threshold_bps > 10_000 {
            return Err(Error::InvalidAmount);
        }
        if borrow_rate_bps > 10_000 {
            return Err(Error::InvalidAmount);
        }
        Ok(LendingProtocol {
            admin,
            collateral_factor_bps: collateral_factor_bps as i128,
            liquidation_threshold_bps: liquidation_threshold_bps as i128,
            liquidation_bonus_bps: 500,
            borrow_rate_bps: borrow_rate_bps as i128,
            exchange_rate: RATE_PRECISION,
            total_collateral: 0,
            total_borrowed: 0,
            positions: HashMap::new(),
        })
    }

    /// Take `amount` of the staked asset into custody for `account`.
    ///
    /// Fails with `InvalidAmount` iff `amount <= 0`; deposits never need
    /// a solvency check. On success the host must pull `amount` of the
    /// staked asset from the account, discarding the new state if that
    /// transfer fails. Pending interest is realized into the position
    /// and the debt aggregate.
    pub fn deposit_collateral(&mut self, account: u64, amount: i128, now: u64) -> (r: Result<
        (),
        Error,
    >)
        requires
            old(self).wf(),
            old(self).op_in_range(account, now),
            old(self).position_of(account).collateral + amount <= AMOUNT_LIMIT,
            old(self).total_collateral + amount <= AMOUNT_LIMIT,
        ensures
            final(self).wf(),
            r is Ok <==> amount > 0,
            r matches Err(e) ==> e == Error::InvalidAmount && *final(self) == *old(self),
            r is Ok ==> ({
                let q = spec_accrue(
                    old(self).position_of(account),
                    now,
                    old(self).borrow_rate_bps as int,
                );
                let p1 = (Position {
                    collateral: (q.collateral + amount) as i128,
                    debt: q.debt,
                    last_update: now,
                });
                &&& final(self).positions@ == old(self).positions@.insert(account, p1)
                &&& final(self).total_collateral == old(self).total_collateral + amount
                &&& final(self).total_borrowed == old(self).total_borrowed + (q.debt
                    - old(self).position_of(account).debt)
                &&& final(self).same_config(*old(self))
            }),
    {
        if amount <= 0 {
            return Err(Error::InvalidAmount);
        }
        let p = self.stored_position(account);
        let q = accrue(&p, now, self.borrow_rate_bps);
        let interest: i128 = q.debt - p.debt;
        let p1 = Position {
            collateral: q.collateral + amount,
            debt: q.debt,
            last_update: now,
        };
        self.positions.insert(account, p1);
        self.total_collateral = self.total_collateral + amount;
        self.total_borrowed = self.total_borrowed + interest;
        Ok(())
    }

    /// Release `amount` of the staked asset back to `account`.
    ///
    /// Fails with `InvalidAmount` iff `amount <= 0`; with
    /// `InsufficientCollateral` iff the position holds less than
    /// `amount`; with `UnhealthyWithdrawal` iff the position has debt and
    /// the withdrawal would drop its collateral-factor health below 1.0.
    /// Nothing is committed on failure. On success the host must send
    /// `amount` of the staked asset to the account.
    pub fn withdraw_collateral(&mut self, account: u64, amount: i128, now: u64) -> (r: Result<
        (),
        Error,
    >)
        requires
            old(self).wf(),
            old(self).op_in_range(account, now),
        ensures
            final(self).wf(),
            ({
                let p = old(self).position_of(account);
                let q = spec_accrue(p, now, old(self).borrow_rate_bps as int);
                r == (if amount <= 0 {
                    Err::<(), Error>(Error::InvalidAmount)
                } else if p.collateral < amount {
                    Err::<(), Error>(Error::InsufficientCollateral)
                } else if q.debt > 0 && spec_health_factor(
                    p.collateral - amount,
                    q.debt as int,
                    old(self).collateral_factor_bps as int,
                    old(self).exchange_rate as int,
                ) < RATE_PRECISION {
                    Err::<(), Error>(Error::UnhealthyWithdrawal)
                } else {
                    Ok::<(), Error>(())
                })
            }),
            r is Err ==> *final(self) == *old(self),
            r is Ok ==> ({
                let p = old(self).position_of(account);
                let q = spec_accrue(p, now, old(self).borrow_rate_bps as int);
                let p1 = (Position {
                    collateral: (q.collateral - amount) as i128,
                    debt: q.debt,
                    last_update: now,
                });
                &&& final(self).positions@ == old(self).positions@.insert(account, p1)
                &&& final(self).total_collateral == old(self).total_collateral - amount
                &&& final(self).total_borrowed == old(self).total_borrowed + (q.debt - p.debt)
                &&& final(self).same_config(*old(self))
            }),
            // A withdrawal never leaves an indebted position below the
            // collateral-factor solvency line.
            r is Ok ==> ({
                let q = spec_accrue(
                    old(self).position_of(account),
                    now,
                    old(self).borrow_rate_bps as int,
                );
                q.debt > 0 ==> spec_health_factor(
                    final(self).position_of(account).collateral as int,
                    q.debt as int,
                    old(self).collateral_factor_bps as int,
                    old(self).exchange_rate as int,
                ) >= RATE_PRECISION
            }),
    {
        if amount <= 0 {
            return Err(Error::InvalidAmount);
        }
        let p = self.stored_position(account);
        if p.collateral < amount {
            return Err(Error::InsufficientCollateral);
        }
        let q = accrue(&p, now, self.borrow_rate_bps);
        let new_collateral: i128 = q.collateral - amount;
        if q.debt > 0 {
            let hf = compute_health_factor(
                new_collateral,
                q.debt,
                self.collateral_factor_bps,
                self.exchange_rate,
            );
            if hf < RATE_PRECISION {
                return Err(Error::UnhealthyWithdrawal);
            }
        }
        let interest: i128 = q.debt - p.debt;
        let p1 = Position { collateral: new_collateral, debt: q.debt, last_update: now };
        self.positions.insert(account, p1);
        self.total_collateral = self.total_collateral - amount;
        self.total_borrowed = self.total_borrowed + interest;
        Ok(())
    }

    /// Lend `amount` of the native asset to `account` against its
    /// collateral.
    ///
    /// Fails with `InvalidAmount` iff `amount <= 0`; with
    /// `BorrowLimitExceeded` iff the accrued debt plus `amount` would
    /// pass the collateral-factor limit; with `InsufficientLiquidity`
    /// iff the engine's native reserve (read by the host and passed in)
    /// is below `amount`. Nothing is committed on failure. On success
    /// the host must send `amount` of the native asset to the account —
    /// and the resulting position is provably still solvent.
    pub fn borrow(&mut self, account: u64, amount: i128, now: u64, reserve: i128) -> (r: Result<
        (),
        Error,
    >)
        requires
            old(self).wf(),
            old(self).op_in_range(account, now),
            spec_accrue(
                old(self).position_of(account),
                now,
                old(self).borrow_rate_bps as int,
            ).debt + amount <= AMOUNT_LIMIT,
            old(self).total_borrowed + (spec_accrue(
                old(self).position_of(account),
                now,
                old(self).borrow_rate_bps as int,
            ).debt - old(self).position_of(account).debt) + amount <= AMOUNT_LIMIT,
        ensures
            final(self).wf(),
            ({
                let p = old(self).position_of(account);
                let q = spec_accrue(p, now, old(self).borrow_rate_bps as int);
                r == (if amount <= 0 {
                    Err::<(), Error>(Error::InvalidAmount)
                } else if q.debt + amount > spec_max_borrow(
                    q.collateral as int,
                    old(self).exchange_rate as int,
                    old(self).collateral_factor_bps as int,
                ) {
                    Err::<(), Error>(Error::BorrowLimitExceeded)
                } else if reserve < amount {
                    Err::<(), Error>(Error::InsufficientLiquidity)
                } else {
                    Ok::<(), Error>(())
                })
            }),
            r is Err ==> *final(self) == *old(self),
            r is Ok ==> ({
                let p = old(self).position_of(account);
                let q = spec_accrue(p, now, old(self).borrow_rate_bps as int);
                let p1 = (Position {
                    collateral: q.collateral,
                    debt: (q.debt + amount) as i128,
                    last_update: now,
                });
                &&& final(self).positions@ == old(self).positions@.insert(account, p1)
                &&& final(self).total_collateral == old(self).total_collateral
                &&& final(self).total_borrowed == old(self).total_borrowed + (q.debt - p.debt)
                    + amount
                &&& final(self).same_config(*old(self))
            }),
            // A successful borrow never drives the collateral-factor
            // health factor below 1.0.
            r is Ok ==> spec_health_factor(
                final(self).position_of(account).collateral as int,
                final(self).position_of(account).debt as int,
                old(self).collateral_factor_bps as int,
                old(self).exchange_rate as int,
            ) >= RATE_PRECISION,
    {
        if amount <= 0 {
            return Err(Error::InvalidAmount);
        }
        let p = self.stored_position(account);
        let q = accrue(&p, now, self.borrow_rate_bps);
        proof {
            crate::health::lemma_health_products_fit(
                q.collateral as int,
                q.debt as int,
                self.collateral_factor_bps as int,
                self.exchange_rate as int,
            );
        }
        let max_borrow: i128 = q.collateral * self.exchange_rate * self.collateral_factor_bps
            / (BPS_DENOMINATOR * RATE_PRECISION);
        let new_debt: i128 = q.debt + amount;
        if new_debt > max_borrow {
            return Err(Error::BorrowLimitExceeded);
        }
        if reserve < amount {
            return Err(Error::InsufficientLiquidity);
        }
        proof {
            lemma_borrow_within_limit_is_healthy(
                q.collateral as int,
                new_debt as int,
                self.collateral_factor_bps as int,
                self.exchange_rate as int,
            );
        }
        let interest: i128 = q.debt - p.debt;
        let p1 = Position { collateral: q.collateral, debt: new_debt, last_update: now };
        self.positions.insert(account, p1);
        self.total_borrowed = self.total_borrowed + interest + amount;
        Ok(())
    }

    /// Pay back up to `amount` of the account's debt.
    ///
    /// Fails with `InvalidAmount` iff `amount <= 0`; with `NoDebt` iff
    /// the position owes nothing. Otherwise exactly
    /// `min(amount, accrued debt)` changes hands — repaying more than
    /// owed caps at the outstanding debt, and the excess is never
    /// pulled from the account. The host must pull the returned amount
    /// of the native asset from the account.
    pub fn repay(&mut self, account: u64, amount: i128, now: u64) -> (r: Result<i128, Error>)
        requires
            old(self).wf(),
            old(self).op_in_range(account, now),
        ensures
            final(self).wf(),
            ({
                let p = old(self).position_of(account);
                let q = spec_accrue(p, now, old(self).borrow_rate_bps as int);
                r == (if amount <= 0 {
                    Err::<i128, Error>(Error::InvalidAmount)
                } else if p.debt == 0 {
                    Err::<i128, Error>(Error::NoDebt)
                } else if amount > q.debt {
                    Ok::<i128, Error>(q.debt)
                } else {
                    Ok::<i128, Error>(amount)
                })
            }),
            r is Err ==> *final(self) == *old(self),
            r matches Ok(repaid) ==> ({
                let p = old(self).position_of(account);
                let q = spec_accrue(p, now, old(self).borrow_rate_bps as int);
                let p1 = (Position {
                    collateral: q.collateral,
                    debt: (q.debt - repaid) as i128,
                    last_update: now,
                });
                &&& 0 < repaid <= amount
                &&& repaid <= q.debt
                &&& final(self).positions@ == old(self).positions@.insert(account, p1)
                &&& final(self).total_collateral == old(self).total_collateral
                &&& final(self).total_borrowed == old(self).total_borrowed + (q.debt - p.debt)
                    - repaid
                &&& final(self).same_config(*old(self))
            }),
    {
        if amount <= 0 {
            return Err(Error::InvalidAmount);
        }
        let p = self.stored_position(account);
        if p.debt == 0 {
            return Err(Error::NoDebt);
        }
        let q = accrue(&p, now, self.borrow_rate_bps);
        let repaid: i128 = if amount > q.debt {
            q.debt
        } else {
            amount
        };
        let interest: i128 = q.debt - p.debt;
        let p1 = Position { collateral: q.collateral, debt: q.debt - repaid, last_update: now };
        self.positions.insert(account, p1);
        self.total_borrowed = self.total_borrowed + interest - repaid;
        Ok(repaid)
    }

    /// Close an undercollateralized position.
    ///
    /// Fails with `NoDebt` iff the borrower owes nothing; with
    /// `PositionHealthy` iff the liquidation-threshold health factor is
    /// at least 1.0 — healthy positions are never liquidated, even in
    /// part. Otherwise the liquidator repays the entire accrued debt and
    /// seizes collateral worth the debt plus the liquidation bonus,
    /// capped at the collateral present; what remains stays attributed
    /// to the borrower. The host must pull `debt_repaid` of the native
    /// asset from the liquidator and send them `collateral_seized` of
    /// the staked asset.
    pub fn liquidate(&mut self, liquidator: u64, borrower: u64, now: u64) -> (r: Result<
        LiquidationReceipt,
        Error,
    >)
        requires
            old(self).wf(),
            old(self).op_in_range(borrower, now),
        ensures
            final(self).wf(),
            ({
                let p = old(self).position_of(borrower);
                let q = spec_accrue(p, now, old(self).borrow_rate_bps as int);
                r == (if p.debt == 0 {
                    Err::<LiquidationReceipt, Error>(Error::NoDebt)
                } else if spec_health_factor(
                    q.collateral as int,
                    q.debt as int,
                    old(self).liquidation_threshold_bps as int,
                    old(self).exchange_rate as int,
                ) >= RATE_PRECISION {
                    Err::<LiquidationReceipt, Error>(Error::PositionHealthy)
                } else {
                    Ok::<LiquidationReceipt, Error>(LiquidationReceipt {
                        liquidator,
                        borrower,
                        debt_repaid: q.debt,
                        collateral_seized: spec_seize(
                            q.collateral as int,
                            q.debt as int,
                            old(self).liquidation_bonus_bps as int,
                            old(self).exchange_rate as int,
                        ) as i128,
                    })
                })
            }),
            r is Err ==> *final(self) == *old(self),
            r matches Ok(receipt) ==> ({
                let p = old(self).position_of(borrower);
                let q = spec_accrue(p, now, old(self).borrow_rate_bps as int);
                let p1 = (Position {
                    collateral: (q.collateral - receipt.collateral_seized) as i128,
                    debt: 0,
                    last_update: now,
                });
                &&& 0 <= receipt.collateral_seized <= q.collateral
                &&& receipt.debt_repaid == q.debt
                &&& final(self).positions@ == old(self).positions@.insert(borrower, p1)
                &&& final(self).total_collateral == old(self).total_collateral
                    - receipt.collateral_seized
                &&& final(self).total_borrowed == old(self).total_borrowed - p.debt
                &&& final(self).same_config(*old(self))
            }),
            // Liquidation fires only below the liquidation threshold,
            // and always clears the debt entirely.
            r is Ok ==> ({
                let p = old(self).position_of(borrower);
                let q = spec_accrue(p, now, old(self).borrow_rate_bps as int);
                &&& spec_health_factor(
                    q.collateral as int,
                    q.debt as int,
                    old(self).liquidation_threshold_bps as int,
                    old(self).exchange_rate as int,
                ) < RATE_PRECISION
                &&& final(self).position_of(borrower).debt == 0
            }),
    {
        let p = self.stored_position(borrower);
        if p.debt == 0 {
            return Err(Error::NoDebt);
        }
        let q = accrue(&p, now, self.borrow_rate_bps);
        let hf = compute_health_factor(
            q.collateral,
            q.debt,
            self.liquidation_threshold_bps,
            self.exchange_rate,
        );
        if hf >= RATE_PRECISION {
            return Err(Error::PositionHealthy);
        }
        proof {
            lemma_seize_bounds(
                q.collateral as int,
                q.debt as int,
                self.liquidation_bonus_bps as int,
                self.exchange_rate as int,
            );
        }
        let debt_with_bonus: i128 = q.debt * (BPS_DENOMINATOR + self.liquidation_bonus_bps)
            / BPS_DENOMINATOR;
        let nominal: i128 = debt_with_bonus * RATE_PRECISION / self.exchange_rate;
        let seized: i128 = if nominal > q.collateral {
            q.collateral
        } else {
            nominal
        };
        let interest: i128 = q.debt - p.debt;
        let p1 = Position { collateral: q.collateral - seized, debt: 0, last_update: now };
        self.positions.insert(borrower, p1);
        self.total_collateral = self.total_collateral - seized;
        self.total_borrowed = self.total_borrowed + interest - q.debt;
        Ok(LiquidationReceipt {
            liquidator,
            borrower,
            debt_repaid: q.debt,
            collateral_seized: seized,
        })
    }

    /// The liquidation-threshold health factor the read path reports for
    /// `account` at `now`: pending interest applied first, so the value
    /// does not depend on when the position was last touched.
    pub open spec fn spec_observed_health_factor(self, account: u64, now: u64) -> int {
        let q = spec_accrue(self.position_of(account), now, self.borrow_rate_bps as int);
        spec_health_factor(
            q.collateral as int,
            q.debt as int,
            self.liquidation_threshold_bps as int,
            self.exchange_rate as int,
        )
    }

    /// Stored collateral and debt of `account`, as last committed.
    pub fn get_position(&self, account: u64) -> (r: (i128, i128))
        ensures
            r.0 == self.position_of(account).collateral,
            r.1 == self.position_of(account).debt,
    {
        let p = self.stored_position(account);
        (p.collateral, p.debt)
    }

    /// The position as it stands at `now`, pending interest applied.
    /// Read-only: the accrued value is reported, not committed.
    pub fn get_position_info(&self, account: u64, now: u64) -> (q: Position)
        requires
            self.wf(),
            accrue_in_range(self.position_of(account), now, self.borrow_rate_bps as int),
        ensures
            q == spec_accrue(self.position_of(account), now, self.borrow_rate_bps as int),
    {
        let p = self.stored_position(account);
        accrue(&p, now, self.borrow_rate_bps)
    }

    /// Liquidation-threshold health factor of `account` at `now`, scaled
    /// by `RATE_PRECISION`; `i128::MAX` for a debt-free position. A pure
    /// function of the engine state and the clock: reading it commits
    /// nothing, so repeated reads with no intervening mutation agree.
    pub fn get_health_factor(&self, account: u64, now: u64) -> (hf: i128)
        requires
            self.wf(),
            accrue_in_range(self.position_of(account), now, self.borrow_rate_bps as int),
        ensures
            hf == self.spec_observed_health_factor(account, now),
    {
        let p = self.stored_position(account);
        let q = accrue(&p, now, self.borrow_rate_bps);
        compute_health_factor(
            q.collateral,
            q.debt,
            self.liquidation_threshold_bps,
            self.exchange_rate,
        )
    }

    /// How much more the account could borrow at `now`: the
    /// collateral-factor limit minus the accrued debt, floored at zero.
    pub fn get_max_borrow_amount(&self, account: u64, now: u64) -> (r: i128)
        requires
            self.wf(),
            accrue_in_range(self.position_of(account), now, self.borrow_rate_bps as int),
        ensures
            ({
                let q = spec_accrue(self.position_of(account), now, self.borrow_rate_bps as int);
                let limit = spec_max_borrow(
                    q.collateral as int,
                    self.exchange_rate as int,
                    self.collateral_factor_bps as int,
                );
                r == (if limit > q.debt {
                    limit - q.debt
                } else {
                    0
                })
            }),
    {
        let p = self.stored_position(account);
        let q = accrue(&p, now, self.borrow_rate_bps);
        proof {
            crate::health::lemma_health_products_fit(
                q.collateral as int,
                q.debt as int,
                self.collateral_factor_bps as int,
                self.exchange_rate as int,
            );
        }
        let limit: i128 = q.collateral * self.exchange_rate * self.collateral_factor_bps
            / (BPS_DENOMINATOR * RATE_PRECISION);
        if limit > q.debt {
            limit - q.debt
        } else {
            0
        }
    }

    /// The pool aggregates: total collateral in custody and total debt
    /// outstanding.
    pub fn get_protocol_stats(&self) -> (r: (i128, i128))
        ensures
            r.0 == self.total_collateral,
            r.1 == self.total_borrowed,
    {
        (self.total_collateral, self.total_borrowed)
    }

    /// The exchange rate the engine currently prices collateral at.
    pub fn get_exchange_rate(&self) -> (r: i128)
        ensures
            r == self.exchange_rate,
    {
        self.exchange_rate
    }

    /// The collateral factor, in basis points.
    pub fn get_collateral_factor(&self) -> (r: i128)
        ensures
            r == self.collateral_factor_bps,
    {
        self.collateral_factor_bps
    }

    /// The liquidation threshold, in basis points.
    pub fn get_liquidation_threshold(&self) -> (r: i128)
        ensures
            r == self.liquidation_threshold_bps,
    {
        self.liquidation_threshold_bps
    }

    /// The annualized borrow rate, in basis points.
    pub fn get_borrow_rate(&self) -> (r: i128)
        ensures
            r == self.borrow_rate_bps,
    {
        self.borrow_rate_bps
    }

    /// The liquidation bonus, in basis points.
    pub fn get_liquidation_bonus(&self) -> (r: i128)
        ensures
            r == self.liquidation_bonus_bps,
    {
        self.liquidation_bonus_bps
    }

    /// Set the exchange rate from the oracle. Admin only: fails with
    /// `Unauthorized` iff the caller is not the admin, and with
    /// `InvalidAmount` iff the rate is outside (0, `RATE_LIMIT`].
    pub fn update_exchange_rate(&mut self, caller: u64, rate: i128) -> (r: Result<(), Error>)
        ensures
            r == (if caller != old(self).admin {
                Err::<(), Error>(Error::Unauthorized)
            } else if rate <= 0 || rate > RATE_LIMIT {
                Err::<(), Error>(Error::InvalidAmount)
            } else {
                Ok::<(), Error>(())
            }),
            r is Err ==> *final(self) == *old(self),
            r is Ok ==> *final(self) == (LendingProtocol { exchange_rate: rate, ..*old(self) }),
    {
        if caller != self.admin {
            return Err(Error::Unauthorized);
        }
        if rate <= 0 || rate > RATE_LIMIT {
            return Err(Error::InvalidAmount);
        }
        self.exchange_rate = rate;
        Ok(())
    }

    /// Set the collateral factor. Admin only; the factor must lie in
    /// (0, 10_000] basis points.
    pub fn update_collateral_factor(&mut self, caller: u64, new_cf_bps: u32) -> (r: Result<
        (),
        Error,
    >)
        ensures
            r == (if caller != old(self).admin {
                Err::<(), Error>(Error::Unauthorized)
            } else if new_cf_bps == 0 || new_cf_bps > BPS_DENOMINATOR {
                Err::<(), Error>(Error::InvalidAmount)
            } else {
                Ok::<(), Error>(())
            }),
            r is Err ==> *final(self) == *old(self),
            r is Ok ==> *final(self) == (LendingProtocol {
                collateral_factor_bps: new_cf_bps as i128,
                ..*old(self)
            }),
    {
        if caller != self.admin {
            return Err(Error::Unauthorized);
        }
        if new_cf_bps == 0 || new_cf_bps > 10_000 {
            return Err(Error::InvalidAmount);
        }
        self.collateral_factor_bps = new_cf_bps as i128;
        Ok(())
    }

    /// Set the liquidation threshold. Admin only; the threshold must lie
    /// in (0, 10_000] basis points.
    pub fn update_liquidation_threshold(&mut self, caller: u64, new_lt_bps: u32) -> (r: Result<
        (),
        Error,
    >)
        ensures
            r == (if caller != old(self).admin {
                Err::<(), Error>(Error::Unauthorized)
            } else if new_lt_bps == 0 || new_lt_bps > BPS_DENOMINATOR {
                Err::<(), Error>(Error::InvalidAmount)
            } else {
                Ok::<(), Error>(())
            }),
            r is Err ==> *final(self) == *old(self),
            r is Ok ==> *final(self) == (LendingProtocol {
                liquidation_threshold_bps: new_lt_bps as i128,
                ..*old(self)
            }),
    {
        if caller != self.admin {
            return Err(Error::Unauthorized);
        }
        if new_lt_bps == 0 || new_lt_bps > 10_000 {
            return Err(Error::InvalidAmount);
        }
        self.liquidation_threshold_bps = new_lt_bps as i128;
        Ok(())
    }

    /// Set the annualized borrow rate. Admin only; the rate must be at
    /// most 10_000 basis points.
    pub fn update_borrow_rate(&mut self, caller: u64, new_rate_bps: u32) -> (r: Result<(), Error>)
        ensures
            r == (if caller != old(self).admin {
                Err::<(), Error>(Error::Unauthorized)
            } else if new_rate_bps > BPS_DENOMINATOR {
                Err::<(), Error>(Error::InvalidAmount)
            } else {
                Ok::<(), Error>(())
            }),
            r is Err ==> *final(self) == *old(self),
            r is Ok ==> *final(self) == (LendingProtocol {
                borrow_rate_bps: new_rate_bps as i128,
                ..*old(self)
            }),
    {
        if caller != self.admin {
            return Err(Error::Unauthorized);
        }
        if new_rate_bps > 10_000 {
            return Err(Error::InvalidAmount);
        }
        self.borrow_rate_bps = new_rate_bps as i128;
        Ok(())
    }
}

/// Collateral and debt are never negative: in any well-formed engine —
/// and every operation both demands and re-establishes well-formedness
/// — every account's position keeps both fields at or above zero.
pub proof fn lemma_positions_never_negative(e: LendingProtocol, account: u64)
    requires
        e.wf(),
    ensures
        e.position_of(account).collateral >= 0,
        e.position_of(account).debt >= 0,
{
}

/// The health-factor read path is idempotent: with no intervening
/// mutation, two reads of the same engine at the same time return the
/// same value. Both are pinned to `spec_observed_health_factor`, a pure
/// function of the state and the clock.
pub proof fn lemma_health_factor_idempotent(
    e: LendingProtocol,
    account: u64,
    now: u64,
    r1: i128,
    r2: i128,
)
    requires
        r1 == e.spec_observed_health_factor(account, now),
        r2 == e.spec_observed_health_factor(account, now),
    ensures
        r1 == r2,
{
}

/// A debt within the collateral-factor borrowing limit keeps the
/// collateral-factor health factor at or above break-even: the borrow
/// gate and the solvency definition agree.
pub proof fn lemma_borrow_within_limit_is_healthy(
    collateral: int,
    debt: int,
    cf_bps: int,
    exchange_rate: int,
)
    requires
        health_inputs_ok(collateral, debt, cf_bps, exchange_rate),
        0 < debt,
        debt <= spec_max_borrow(collateral, exchange_rate, cf_bps),
    ensures
        spec_health_factor(collateral, debt, cf_bps, exchange_rate) >= RATE_PRECISION,
{
    let value = collateral * exchange_rate * cf_bps;
    let scale = (BPS_DENOMINATOR * RATE_PRECISION) as int;
    let den = (BPS_DENOMINATOR as int) * debt;
    crate::health::lemma_health_products_fit(collateral, debt, cf_bps, exchange_rate);
    vstd::arithmetic::div_mod::lemma_fundamental_div_mod(value, scale);
    assert(debt * scale <= (value / scale) * scale) by (nonlinear_arith)
        requires
            debt <= value / scale,
            scale > 0,
    ;
    assert((value / scale) * scale <= value) by (nonlinear_arith)
        requires
            value == scale * (value / scale) + value % scale,
            value % scale >= 0,
    ;
    assert(debt * scale == RATE_PRECISION * den) by (nonlinear_arith)
        requires
            scale == (BPS_DENOMINATOR * RATE_PRECISION) as int,
            den == (BPS_DENOMINATOR as int) * debt,
    ;
    vstd::arithmetic::div_mod::lemma_div_multiples_vanish(RATE_PRECISION as int, den);
    vstd::arithmetic::div_mod::lemma_div_is_ordered(RATE_PRECISION * den, value, den);
}

/// The seize amount is non-negative, never exceeds the collateral, and
/// its intermediate products stay inside the 128-bit range.
pub proof fn lemma_seize_bounds(collateral: int, debt: int, bonus_bps: int, exchange_rate: int)
    requires
        0 <= collateral <= AMOUNT_LIMIT,
        0 <= debt <= AMOUNT_LIMIT,
        0 <= bonus_bps <= BPS_DENOMINATOR,
        0 < exchange_rate <= RATE_LIMIT,
    ensures
        0 <= debt * ((BPS_DENOMINATOR + bonus_bps) as int) <= 2 * AMOUNT_LIMIT * BPS_DENOMINATOR,
        ({
            let with_bonus = debt * ((BPS_DENOMINATOR + bonus_bps) as int) / (
            BPS_DENOMINATOR as int);
            &&& 0 <= with_bonus <= 2 * AMOUNT_LIMIT
            &&& 0 <= with_bonus * (RATE_PRECISION as int) <= 2 * AMOUNT_LIMIT * RATE_PRECISION
        }),
        0 <= spec_seize(collateral, debt, bonus_bps, exchange_rate) <= collateral,
{
    let factor = (BPS_DENOMINATOR + bonus_bps) as int;
    assert(0 <= debt * factor <= 2 * AMOUNT_LIMIT * BPS_DENOMINATOR) by (nonlinear_arith)
        requires
            0 <= debt <= AMOUNT_LIMIT,
            (BPS_DENOMINATOR as int) <= factor <= 2 * BPS_DENOMINATOR,
    ;
    let with_bonus = debt * factor / (BPS_DENOMINATOR as int);
    assert(0 <= with_bonus && with_bonus * (BPS_DENOMINATOR as int) <= debt * factor)
        by (nonlinear_arith)
        requires
            0 <= debt * factor,
            with_bonus == debt * factor / (BPS_DENOMINATOR as int),
    ;
    assert(with_bonus <= 2 * AMOUNT_LIMIT) by (nonlinear_arith)
        requires
            with_bonus * (BPS_DENOMINATOR as int) <= 2 * AMOUNT_LIMIT * BPS_DENOMINATOR,
            (BPS_DENOMINATOR as int) > 0,
    ;
    assert(0 <= with_bonus * (RATE_PRECISION as int) <= 2 * AMOUNT_LIMIT * RATE_PRECISION)
        by (nonlinear_arith)
        requires
            0 <= with_bonus <= 2 * AMOUNT_LIMIT,
    ;
    let nominal = with_bonus * (RATE_PRECISION as int) / exchange_rate;
    vstd::arithmetic::div_mod::lemma_div_pos_is_pos(with_bonus * (RATE_PRECISION as int), exchange_rate);
}

} // verus!
