use vstd::prelude::*;
use crate::errors::Error;
use crate::numbers::{AMOUNT_LIMIT, BPS_DENOMINATOR, RATE_PRECISION};

verus! {

/// Share of gross staking rewards kept for the protocol treasury, in
/// basis points (10%).
pub const PROTOCOL_FEE_BPS: i128 = 1000;

/// How much sXLM a deposit mints: at the going rate
/// `sxlm_supply / total_xlm_staked`, or one-to-one for the first
/// deposit.
pub open spec fn spec_mint_amount(xlm_amount: int, total_xlm_staked: int, sxlm_supply: int) -> int {
    if sxlm_supply == 0 || total_xlm_staked == 0 {
        xlm_amount
    } else {
        xlm_amount * sxlm_supply / total_xlm_staked
    }
}

/// How much XLM a burn of sXLM redeems: its share of the staked total,
/// zero when nothing is in circulation.
pub open spec fn spec_redemption_amount(
    sxlm_amount: int,
    total_xlm_staked: int,
    sxlm_supply: int,
) -> int {
    if sxlm_supply == 0 {
        0
    } else {
        sxlm_amount * total_xlm_staked / sxlm_supply
    }
}

/// XLM value of one sXLM, scaled by `RATE_PRECISION`; one-to-one while
/// nothing is in circulation. Rewards raise it, slashing lowers it.
pub open spec fn spec_exchange_rate(total_xlm_staked: int, sxlm_supply: int) -> int {
    if sxlm_supply == 0 {
        RATE_PRECISION as int
    } else {
        total_xlm_staked * (RATE_PRECISION as int) / sxlm_supply
    }
}

/// Where a redemption's XLM comes from: straight out of the liquidity
/// buffer, or through the delayed-withdrawal queue when the buffer
/// cannot cover it.
#[derive(Clone, Copy, Debug, PartialEq, Eq, Structural)]
pub enum WithdrawalOutcome {
    /// Pay the amount out immediately from the buffer.
    Instant(i128),
    /// Hand the amount to the withdrawal queue for the unbonding wait.
    Queued(i128),
}

/// The liquid-staking pool: XLM under stake against the circulating
/// sXLM supply, with a buffer for instant redemptions. Pure state: the
/// host performs the transfers, the token mints and burns, and the
/// queue hand-offs that the operations report.
#[derive(Clone, Copy, Debug)]
pub struct StakingPool {
    /// Principal allowed to accrue rewards, fund the buffer and pause.
    pub admin: u64,
    /// XLM under stake (principal plus accrued rewards).
    pub total_xlm_staked: i128,
    /// Circulating sXLM.
    pub total_sxlm_supply: i128,
    /// XLM held back for instant redemptions.
    pub liquidity_buffer: i128,
    /// Protocol fees collected from gross rewards, awaiting payout.
    pub treasury_balance: i128,
    /// While set, deposits and withdrawals are refused.
    pub paused: bool,
}

impl StakingPool {
    /// All balances non-negative and within the amount cap.
    pub open spec fn wf(self) -> bool {
        &&& 0 <= self.total_xlm_staked <= AMOUNT_LIMIT
        &&& 0 <= self.total_sxlm_supply <= AMOUNT_LIMIT
        &&& 0 <= self.liquidity_buffer <= AMOUNT_LIMIT
        &&& 0 <= self.treasury_balance <= AMOUNT_LIMIT
    }

    /// Fresh pool: nothing staked, nothing circulating, unpaused.
    pub fn initialize(admin: u64) -> (s: StakingPool)
        ensures
            s == (StakingPool {
                admin,
                total_xlm_staked: 0,
                total_sxlm_supply: 0,
                liquidity_buffer: 0,
                treasury_balance: 0,
                paused: false,
            }),
            s.wf(),
    {
        StakingPool {
            admin,
            total_xlm_staked: 0,
            total_sxlm_supply: 0,
            liquidity_buffer: 0,
            treasury_balance: 0,
            paused: false,
        }
    }

    /// sXLM minted for an XLM deposit of `xlm_amount` given the pool
    /// totals: `xlm_amount * sxlm_supply / total_xlm_staked`, or
    /// one-to-one for the first deposit.
    pub fn calculate_sxlm_mint_amount(
        xlm_amount: i128,
        total_xlm_staked: i128,
        sxlm_supply: i128,
    ) -> (r: i128)
        requires
            0 <= xlm_amount <= AMOUNT_LIMIT,
            0 <= total_xlm_staked <= AMOUNT_LIMIT,
            0 <= sxlm_supply <= AMOUNT_LIMIT,
        ensures
            r == spec_mint_amount(xlm_amount as int, total_xlm_staked as int, sxlm_supply as int),
            r >= 0,
    {
        if sxlm_supply == 0 || total_xlm_staked == 0 {
            return xlm_amount;
        }
        proof {
            assert(0 <= xlm_amount * sxlm_supply <= AMOUNT_LIMIT * AMOUNT_LIMIT)
                by (nonlinear_arith)
                requires
                    0 <= xlm_amount <= AMOUNT_LIMIT,
                    0 <= sxlm_supply <= AMOUNT_LIMIT,
            ;
            vstd::arithmetic::div_mod::lemma_div_pos_is_pos(
                xlm_amount * sxlm_supply,
                total_xlm_staked as int,
            );
        }
        xlm_amount * sxlm_supply / total_xlm_staked
    }

    /// XLM redeemed for burning `sxlm_amount` given the pool totals:
    /// `sxlm_amount * total_xlm_staked / sxlm_supply`, or zero while
    /// nothing is in circulation.
    pub fn calculate_xlm_redemption_amount(
        sxlm_amount: i128,
        total_xlm_staked: i128,
        sxlm_supply: i128,
    ) -> (r: i128)
        requires
            0 <= sxlm_amount <= AMOUNT_LIMIT,
            0 <= total_xlm_staked <= AMOUNT_LIMIT,
            0 <= sxlm_supply <= AMOUNT_LIMIT,
        ensures
            r == spec_redemption_amount(
                sxlm_amount as int,
                total_xlm_staked as int,
                sxlm_supply as int,
            ),
            r >= 0,
            sxlm_amount <= sxlm_supply ==> r <= total_xlm_staked,
    {
        if sxlm_supply == 0 {
            return 0;
        }
        proof {
            assert(0 <= sxlm_amount * total_xlm_staked <= AMOUNT_LIMIT * AMOUNT_LIMIT)
                by (nonlinear_arith)
                requires
                    0 <= sxlm_amount <= AMOUNT_LIMIT,
                    0 <= total_xlm_staked <= AMOUNT_LIMIT,
            ;
            vstd::arithmetic::div_mod::lemma_div_pos_is_pos(
                sxlm_amount * total_xlm_staked,
                sxlm_supply as int,
            );
            if sxlm_amount <= sxlm_supply {
                assert(sxlm_amount * total_xlm_staked <= sxlm_supply * total_xlm_staked)
                    by (nonlinear_arith)
                    requires
                        sxlm_amount <= sxlm_supply,
                        total_xlm_staked >= 0,
                ;
                vstd::arithmetic::div_mod::lemma_div_is_ordered(
                    sxlm_amount * total_xlm_staked,
                    sxlm_supply * total_xlm_staked,
                    sxlm_supply as int,
                );
                vstd::arithmetic::div_mod::lemma_div_multiples_vanish(
                    total_xlm_staked as int,
                    sxlm_supply as int,
                );
            }
        }
        sxlm_amount * total_xlm_staked / sxlm_supply
    }

    /// Stake `xlm_amount`, minting sXLM at the going rate.
    ///
    /// Fails with `ContractPaused` iff paused, and with `InvalidAmount`
    /// iff `xlm_amount <= 0`. On success the host must pull
    /// `xlm_amount` XLM from the depositor and mint them the returned
    /// amount of sXLM.
    pub fn deposit(&mut self, xlm_amount: i128) -> (r: Result<i128, Error>)
        requires
            old(self).wf(),
            xlm_amount <= AMOUNT_LIMIT,
            old(self).total_xlm_staked + xlm_amount <= AMOUNT_LIMIT,
            old(self).total_sxlm_supply + spec_mint_amount(
                xlm_amount as int,
                old(self).total_xlm_staked as int,
                old(self).total_sxlm_supply as int,
            ) <= AMOUNT_LIMIT,
        ensures
            final(self).wf(),
            ({
                let minted = spec_mint_amount(
                    xlm_amount as int,
                    old(self).total_xlm_staked as int,
                    old(self).total_sxlm_supply as int,
                );
                r == (if old(self).paused {
                    Err::<i128, Error>(Error::ContractPaused)
                } else if xlm_amount <= 0 {
                    Err::<i128, Error>(Error::InvalidAmount)
                } else {
                    Ok::<i128, Error>(minted as i128)
                })
            }),
            r is Err ==> *final(self) == *old(self),
            r matches Ok(minted) ==> *final(self) == (StakingPool {
                total_xlm_staked: (old(self).total_xlm_staked + xlm_amount) as i128,
                total_sxlm_supply: (old(self).total_sxlm_supply + minted) as i128,
                ..*old(self)
            }),
    {
        if self.paused {
            return Err(Error::ContractPaused);
        }
        if xlm_amount <= 0 {
            return Err(Error::InvalidAmount);
        }
        let minted = StakingPool::calculate_sxlm_mint_amount(
            xlm_amount,
            self.total_xlm_staked,
            self.total_sxlm_supply,
        );
        self.total_xlm_staked = self.total_xlm_staked + xlm_amount;
        self.total_sxlm_supply = self.total_sxlm_supply + minted;
        Ok(minted)
    }

    /// Redeem `sxlm_amount` of the caller's sXLM for XLM at the going
    /// rate.
    ///
    /// Fails with `ContractPaused` iff paused; with `InvalidAmount` iff
    /// `sxlm_amount <= 0`; with `InsufficientBalance` iff the caller's
    /// token balance (read by the host and passed in) or the
    /// circulating supply is below `sxlm_amount`. On success the host
    /// must burn `sxlm_amount` sXLM from the caller and either pay the
    /// returned XLM amount out immediately (`Instant`) or enqueue it
    /// for the unbonding wait (`Queued`).
    pub fn request_withdrawal(&mut self, user_balance: i128, sxlm_amount: i128) -> (r: Result<
        WithdrawalOutcome,
        Error,
    >)
        requires
            old(self).wf(),
        ensures
            final(self).wf(),
            ({
                let xlm = spec_redemption_amount(
                    sxlm_amount as int,
                    old(self).total_xlm_staked as int,
                    old(self).total_sxlm_supply as int,
                );
                r == (if old(self).paused {
                    Err::<WithdrawalOutcome, Error>(Error::ContractPaused)
                } else if sxlm_amount <= 0 {
                    Err::<WithdrawalOutcome, Error>(Error::InvalidAmount)
                } else if user_balance < sxlm_amount || old(self).total_sxlm_supply < sxlm_amount {
                    Err::<WithdrawalOutcome, Error>(Error::InsufficientBalance)
                } else if old(self).liquidity_buffer >= xlm {
                    Ok::<WithdrawalOutcome, Error>(WithdrawalOutcome::Instant(xlm as i128))
                } else {
                    Ok::<WithdrawalOutcome, Error>(WithdrawalOutcome::Queued(xlm as i128))
                })
            }),
            r is Err ==> *final(self) == *old(self),
            r matches Ok(WithdrawalOutcome::Instant(xlm)) ==> *final(self) == (StakingPool {
                total_xlm_staked: (old(self).total_xlm_staked - xlm) as i128,
                total_sxlm_supply: (old(self).total_sxlm_supply - sxlm_amount) as i128,
                liquidity_buffer: (old(self).liquidity_buffer - xlm) as i128,
                ..*old(self)
            }),
            r matches Ok(WithdrawalOutcome::Queued(xlm)) ==> *final(self) == (StakingPool {
                total_xlm_staked: (old(self).total_xlm_staked - xlm) as i128,
                total_sxlm_supply: (old(self).total_sxlm_supply - sxlm_amount) as i128,
                ..*old(self)
            }),
    {
        if self.paused {
            return Err(Error::ContractPaused);
        }
        if sxlm_amount <= 0 {
            return Err(Error::InvalidAmount);
        }
        if user_balance < sxlm_amount || self.total_sxlm_supply < sxlm_amount {
            return Err(Error::InsufficientBalance);
        }
        let xlm = StakingPool::calculate_xlm_redemption_amount(
            sxlm_amount,
            self.total_xlm_staked,
            self.total_sxlm_supply,
        );
        self.total_sxlm_supply = self.total_sxlm_supply - sxlm_amount;
        self.total_xlm_staked = self.total_xlm_staked - xlm;
        if self.liquidity_buffer >= xlm {
            self.liquidity_buffer = self.liquidity_buffer - xlm;
            Ok(WithdrawalOutcome::Instant(xlm))
        } else {
            Ok(WithdrawalOutcome::Queued(xlm))
        }
    }

    /// Record staking rewards, raising the exchange rate for every
    /// holder. Fails with `Unauthorized` iff the caller is not the
    /// admin, and with `InvalidAmount` iff the amount is not positive.
    pub fn accrue_rewards(&mut self, caller: u64, reward_amount: i128) -> (r: Result<(), Error>)
        requires
            old(self).wf(),
            old(self).total_xlm_staked + reward_amount <= AMOUNT_LIMIT,
        ensures
            final(self).wf(),
            r == (if caller != old(self).admin {
                Err::<(), Error>(Error::Unauthorized)
            } else if reward_amount <= 0 {
                Err::<(), Error>(Error::InvalidAmount)
            } else {
                Ok::<(), Error>(())
            }),
            r is Err ==> *final(self) == *old(self),
            r is Ok ==> *final(self) == (StakingPool {
                total_xlm_staked: (old(self).total_xlm_staked + reward_amount) as i128,
                ..*old(self)
            }),
    {
        if caller != self.admin {
            return Err(Error::Unauthorized);
        }
        if reward_amount <= 0 {
            return Err(Error::InvalidAmount);
        }
        self.total_xlm_staked = self.total_xlm_staked + reward_amount;
        Ok(())
    }

    /// Fund the instant-redemption buffer. Admin only; the host must
    /// pull the amount of XLM from the admin on success.
    pub fn add_liquidity(&mut self, caller: u64, amount: i128) -> (r: Result<(), Error>)
        requires
            old(self).wf(),
            old(self).liquidity_buffer + amount <= AMOUNT_LIMIT,
        ensures
            final(self).wf(),
            r == (if caller != old(self).admin {
                Err::<(), Error>(Error::Unauthorized)
            } else if amount <= 0 {
                Err::<(), Error>(Error::InvalidAmount)
            } else {
                Ok::<(), Error>(())
            }),
            r is Err ==> *final(self) == *old(self),
            r is Ok ==> *final(self) == (StakingPool {
                liquidity_buffer: (old(self).liquidity_buffer + amount) as i128,
                ..*old(self)
            }),
    {
        if caller != self.admin {
            return Err(Error::Unauthorized);
        }
        if amount <= 0 {
            return Err(Error::InvalidAmount);
        }
        self.liquidity_buffer = self.liquidity_buffer + amount;
        Ok(())
    }

    /// Record gross staking rewards, keeping the protocol fee for the
    /// treasury; the remainder raises the exchange rate. Fails with
    /// `Unauthorized` iff the caller is not the admin and with
    /// `InvalidAmount` iff the amount is not positive.
    pub fn add_rewards(&mut self, caller: u64, amount: i128) -> (r: Result<(), Error>)
        requires
            old(self).wf(),
            amount <= AMOUNT_LIMIT,
            old(self).total_xlm_staked + amount <= AMOUNT_LIMIT,
            old(self).treasury_balance + amount <= AMOUNT_LIMIT,
        ensures
            final(self).wf(),
            ({
                let fee = amount * PROTOCOL_FEE_BPS / (BPS_DENOMINATOR as int);
                r == (if caller != old(self).admin {
                    Err::<(), Error>(Error::Unauthorized)
                } else if amount <= 0 {
                    Err::<(), Error>(Error::InvalidAmount)
                } else {
                    Ok::<(), Error>(())
                }) && (r is Ok ==> *final(self) == (StakingPool {
                    total_xlm_staked: (old(self).total_xlm_staked + (amount - fee)) as i128,
                    treasury_balance: (old(self).treasury_balance + fee) as i128,
                    ..*old(self)
                }))
            }),
            r is Err ==> *final(self) == *old(self),
    {
        if caller != self.admin {
            return Err(Error::Unauthorized);
        }
        if amount <= 0 {
            return Err(Error::InvalidAmount);
        }
        proof {
            assert(0 <= amount * PROTOCOL_FEE_BPS <= AMOUNT_LIMIT * PROTOCOL_FEE_BPS)
                by (nonlinear_arith)
                requires
                    0 < amount <= AMOUNT_LIMIT,
            ;
            vstd::arithmetic::div_mod::lemma_div_pos_is_pos(
                amount * PROTOCOL_FEE_BPS,
                BPS_DENOMINATOR as int,
            );
            assert(amount * PROTOCOL_FEE_BPS <= (BPS_DENOMINATOR as int) * amount)
                by (nonlinear_arith)
                requires
                    0 < amount,
                    PROTOCOL_FEE_BPS <= BPS_DENOMINATOR,
            ;
            vstd::arithmetic::div_mod::lemma_multiply_divide_le(
                amount * PROTOCOL_FEE_BPS,
                BPS_DENOMINATOR as int,
                amount as int,
            );
        }
        let fee: i128 = amount * PROTOCOL_FEE_BPS / BPS_DENOMINATOR;
        let net_reward: i128 = amount - fee;
        self.treasury_balance = self.treasury_balance + fee;
        self.total_xlm_staked = self.total_xlm_staked + net_reward;
        Ok(())
    }

    /// Pay the collected fees out; returns the amount the host must
    /// transfer to the treasury account. Fails with `Unauthorized` iff
    /// the caller is not the admin and with `InsufficientBalance` iff
    /// nothing has been collected.
    pub fn withdraw_fees(&mut self, caller: u64) -> (r: Result<i128, Error>)
        requires
            old(self).wf(),
        ensures
            final(self).wf(),
            r == (if caller != old(self).admin {
                Err::<i128, Error>(Error::Unauthorized)
            } else if old(self).treasury_balance <= 0 {
                Err::<i128, Error>(Error::InsufficientBalance)
            } else {
                Ok::<i128, Error>(old(self).treasury_balance)
            }),
            r is Err ==> *final(self) == *old(self),
            r is Ok ==> *final(self) == (StakingPool { treasury_balance: 0, ..*old(self) }),
    {
        if caller != self.admin {
            return Err(Error::Unauthorized);
        }
        if self.treasury_balance <= 0 {
            return Err(Error::InsufficientBalance);
        }
        let paid = self.treasury_balance;
        self.treasury_balance = 0;
        Ok(paid)
    }

    /// Write a slashing loss off the staked total, lowering the
    /// exchange rate for every holder. Fails with `Unauthorized` iff
    /// the caller is not the admin, with `InvalidAmount` iff the
    /// amount is not positive, and with `InsufficientBalance` iff the
    /// loss exceeds what is staked.
    pub fn apply_slashing(&mut self, caller: u64, slash_amount: i128) -> (r: Result<(), Error>)
        requires
            old(self).wf(),
        ensures
            final(self).wf(),
            r == (if caller != old(self).admin {
                Err::<(), Error>(Error::Unauthorized)
            } else if slash_amount <= 0 {
                Err::<(), Error>(Error::InvalidAmount)
            } else if slash_amount > old(self).total_xlm_staked {
                Err::<(), Error>(Error::InsufficientBalance)
            } else {
                Ok::<(), Error>(())
            }),
            r is Err ==> *final(self) == *old(self),
            r is Ok ==> *final(self) == (StakingPool {
                total_xlm_staked: (old(self).total_xlm_staked - slash_amount) as i128,
                ..*old(self)
            }),
    {
        if caller != self.admin {
            return Err(Error::Unauthorized);
        }
        if slash_amount <= 0 {
            return Err(Error::InvalidAmount);
        }
        if slash_amount > self.total_xlm_staked {
            return Err(Error::InsufficientBalance);
        }
        self.total_xlm_staked = self.total_xlm_staked - slash_amount;
        Ok(())
    }

    /// Stop deposits and withdrawals. Admin only.
    pub fn pause(&mut self, caller: u64) -> (r: Result<(), Error>)
        ensures
            r == (if caller != old(self).admin {
                Err::<(), Error>(Error::Unauthorized)
            } else {
                Ok::<(), Error>(())
            }),
            r is Err ==> *final(self) == *old(self),
            r is Ok ==> *final(self) == (StakingPool { paused: true, ..*old(self) }),
    {
        if caller != self.admin {
            return Err(Error::Unauthorized);
        }
        self.paused = true;
        Ok(())
    }

    /// Resume deposits and withdrawals. Admin only.
    pub fn unpause(&mut self, caller: u64) -> (r: Result<(), Error>)
        ensures
            r == (if caller != old(self).admin {
                Err::<(), Error>(Error::Unauthorized)
            } else {
                Ok::<(), Error>(())
            }),
            r is Err ==> *final(self) == *old(self),
            r is Ok ==> *final(self) == (StakingPool { paused: false, ..*old(self) }),
    {
        if caller != self.admin {
            return Err(Error::Unauthorized);
        }
        self.paused = false;
        Ok(())
    }

    /// XLM value of one sXLM, scaled by `RATE_PRECISION`. This is the
    /// feed the lending engine's exchange rate is set from.
    pub fn get_exchange_rate(&self) -> (r: i128)
        requires
            self.wf(),
        ensures
            r == spec_exchange_rate(self.total_xlm_staked as int, self.total_sxlm_supply as int),
            r >= 0,
    {
        if self.total_sxlm_supply == 0 {
            return RATE_PRECISION;
        }
        proof {
            assert(0 <= self.total_xlm_staked * RATE_PRECISION <= AMOUNT_LIMIT * RATE_PRECISION)
                by (nonlinear_arith)
                requires
                    0 <= self.total_xlm_staked <= AMOUNT_LIMIT,
            ;
            vstd::arithmetic::div_mod::lemma_div_pos_is_pos(
                self.total_xlm_staked * RATE_PRECISION,
                self.total_sxlm_supply as int,
            );
        }
        self.total_xlm_staked * RATE_PRECISION / self.total_sxlm_supply
    }

    /// XLM under stake.
    pub fn get_total_staked(&self) -> (r: i128)
        ensures
            r == self.total_xlm_staked,
    {
        self.total_xlm_staked
    }

    /// Circulating sXLM.
    pub fn get_total_supply(&self) -> (r: i128)
        ensures
            r == self.total_sxlm_supply,
    {
        self.total_sxlm_supply
    }
}

} // verus!
