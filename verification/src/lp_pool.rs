use vstd::prelude::*;
use std::collections::HashMap;
use crate::errors::Error;
use crate::numbers::{AMOUNT_LIMIT, BPS_DENOMINATOR, RATE_PRECISION};

verus! {

broadcast use vstd::std_specs::hash::group_hash_axioms;

/// One Newton step for the integer square root of `n` from the iterate
/// `x`: the next iterate still lies at or above the true root.
proof fn lemma_newton_step_stays_above(n: int, x: int)
    requires
        1 <= n,
        1 <= x,
    ensures
        ({
            let y = (x + n / x) / 2;
            &&& 0 <= y
            &&& (y + 1) * (y + 1) > n
        }),
{
    let q = n / x;
    let y = (x + q) / 2;
    vstd::arithmetic::div_mod::lemma_fundamental_div_mod(n, x);
    vstd::arithmetic::div_mod::lemma_div_pos_is_pos(n, x);
    vstd::arithmetic::div_mod::lemma_fundamental_div_mod(x + q, 2);
    assert(2 * (y + 1) >= x + q + 1);
    assert((x + q + 1) * (x + q + 1) >= 4 * (x * (q + 1))) by (nonlinear_arith);
    assert(x * (q + 1) > n) by (nonlinear_arith)
        requires
            n == x * q + n % x,
            n % x < x,
    ;
    assert(4 * ((y + 1) * (y + 1)) >= (x + q + 1) * (x + q + 1)) by (nonlinear_arith)
        requires
            2 * (y + 1) >= x + q + 1,
            x + q + 1 >= 0,
    ;
    assert((y + 1) * (y + 1) > n) by (nonlinear_arith)
        requires
            4 * ((y + 1) * (y + 1)) >= (x + q + 1) * (x + q + 1),
            (x + q + 1) * (x + q + 1) >= 4 * (x * (q + 1)),
            x * (q + 1) > n,
    ;
    vstd::arithmetic::div_mod::lemma_div_pos_is_pos(x + q, 2);
}

/// Integer square root: the largest `r` with `r * r <= n`, and `0` for
/// non-positive `n`.
pub open spec fn spec_isqrt(n: int) -> int
    decreases n,
{
    if n <= 0 {
        0
    } else {
        let below = spec_isqrt(n - 1);
        if (below + 1) * (below + 1) <= n {
            below + 1
        } else {
            below
        }
    }
}

/// `spec_isqrt(n)` squares to at most `n` and is the largest such
/// value.
pub proof fn lemma_isqrt_bounds(n: int)
    requires
        n >= 0,
    ensures
        0 <= spec_isqrt(n),
        spec_isqrt(n) * spec_isqrt(n) <= n,
        (spec_isqrt(n) + 1) * (spec_isqrt(n) + 1) > n,
    decreases n,
{
    if n > 0 {
        lemma_isqrt_bounds(n - 1);
        let below = spec_isqrt(n - 1);
        if (below + 1) * (below + 1) <= n {
            assert((below + 2) * (below + 2) > n) by (nonlinear_arith)
                requires
                    (below + 1) * (below + 1) > n - 1,
                    below >= 0,
            ;
        }
    }
}

/// Only one non-negative integer squares to at most `n` while its
/// successor squares past `n`.
pub proof fn lemma_isqrt_unique(n: int, r: int)
    requires
        0 <= r,
        r * r <= n,
        (r + 1) * (r + 1) > n,
    ensures
        r == spec_isqrt(n),
{
    lemma_isqrt_bounds(n);
    let s = spec_isqrt(n);
    if r < s {
        assert((r + 1) * (r + 1) <= s * s) by (nonlinear_arith)
            requires
                0 <= r + 1 <= s,
        ;
    }
    if s < r {
        assert((s + 1) * (s + 1) <= r * r) by (nonlinear_arith)
            requires
                0 <= s + 1 <= r,
        ;
    }
}

/// Integer square root by Newton's method: the largest `r` with
/// `r * r <= n`, and `0` for non-positive `n`. The input cap keeps the
/// iterate sums inside 128 bits.
pub fn isqrt(n: i128) -> (r: i128)
    requires
        n <= AMOUNT_LIMIT * AMOUNT_LIMIT,
    ensures
        r == spec_isqrt(n as int),
        n <= 0 ==> r == 0,
        n > 0 ==> 1 <= r && r * r <= n && (r + 1) * (r + 1) > n,
{
    if n <= 0 {
        return 0;
    }
    let mut x: i128 = n;
    let mut y: i128 = (x + 1) / 2;
    proof {
        vstd::arithmetic::div_mod::lemma_div_by_self(n as int);
        lemma_newton_step_stays_above(n as int, n as int);
        assert((n + 1) * (n + 1) > n) by (nonlinear_arith)
            requires
                n >= 1,
        ;
    }
    while y < x
        invariant
            1 <= n <= AMOUNT_LIMIT * AMOUNT_LIMIT,
            1 <= x <= n,
            (x + 1) * (x + 1) > n,
            0 <= y,
            (y + 1) * (y + 1) > n,
            y == (x + n / x) / 2,
        decreases x,
    {
        x = y;
        proof {
            assert(x >= 1) by (nonlinear_arith)
                requires
                    ((x as int) + 1) * ((x as int) + 1) > n as int,
                    n >= 1,
                    x >= 0,
            ;
            assert((n as int) <= (x as int) * (n as int)) by (nonlinear_arith)
                requires
                    x >= 1,
                    n >= 1,
            ;
            lemma_newton_step_stays_above(n as int, x as int);
            vstd::arithmetic::div_mod::lemma_div_pos_is_pos(n as int, x as int);
            vstd::arithmetic::div_mod::lemma_multiply_divide_le(n as int, x as int, n as int)
        }
        y = (x + n / x) / 2;
    }
    proof {
        let q = (n as int) / (x as int);
        vstd::arithmetic::div_mod::lemma_fundamental_div_mod((x as int) + q, 2);
        assert(q >= x as int) by (nonlinear_arith)
            requires
                (x as int) + q == 2 * (((x as int) + q) / 2) + ((x as int) + q) % 2,
                0 <= ((x as int) + q) % 2 < 2,
                ((x as int) + q) / 2 >= x as int,
        ;
        vstd::arithmetic::div_mod::lemma_fundamental_div_mod(n as int, x as int);
        assert(x * x <= n) by (nonlinear_arith)
            requires
                (n as int) == (x as int) * q + (n as int) % (x as int),
                (n as int) % (x as int) >= 0,
                q >= x as int,
                x >= 1,
        ;
        lemma_isqrt_unique(n as int, x as int);
    }
    x
}

/// What a constant-product swap pays out: the input is shaved by the
/// fee, and the output keeps `reserve_in * reserve_out` from shrinking
/// below its old value divided into the grown input reserve:
///
///   `reserve_out - reserve_in * reserve_out
///        / (reserve_in + amount_after_fee)`
pub open spec fn spec_swap_output(
    amount: int,
    fee_bps: int,
    reserve_in: int,
    reserve_out: int,
) -> int {
    let after_fee = amount * ((BPS_DENOMINATOR as int) - fee_bps) / (BPS_DENOMINATOR as int);
    reserve_out - reserve_in * reserve_out / (reserve_in + after_fee)
}

/// The constant-product pool between XLM and sXLM: reserves, the
/// liquidity-provider token supply, and each provider's LP balance.
/// Pure state: the host performs the transfers the operations report.
#[derive(Clone, Debug)]
pub struct LpPoolContract {
    /// XLM side of the pool.
    pub reserve_xlm: i128,
    /// sXLM side of the pool.
    pub reserve_sxlm: i128,
    /// Circulating LP tokens.
    pub total_lp_supply: i128,
    /// Swap fee, in basis points, kept in the pool for the providers.
    pub fee_bps: i128,
    /// LP tokens held by each provider.
    pub lp_balances: HashMap<u64, i128>,
}

impl LpPoolContract {
    /// LP balance of `user`; zero for a provider never seen.
    pub open spec fn lp_balance_of(self, user: u64) -> i128 {
        if self.lp_balances@.contains_key(user) {
            self.lp_balances@[user]
        } else {
            0
        }
    }

    /// Reserves, supply and balances non-negative and capped; a live
    /// pool keeps both reserves positive.
    pub open spec fn wf(self) -> bool {
        &&& 0 <= self.reserve_xlm <= AMOUNT_LIMIT
        &&& 0 <= self.reserve_sxlm <= AMOUNT_LIMIT
        &&& 0 <= self.total_lp_supply <= AMOUNT_LIMIT
        &&& 0 <= self.fee_bps <= BPS_DENOMINATOR
        &&& self.total_lp_supply > 0 ==> self.reserve_xlm > 0 && self.reserve_sxlm > 0
        &&& forall|u: u64|
            self.lp_balances@.contains_key(u) ==> 0 <= #[trigger] self.lp_balances@[u]
                <= AMOUNT_LIMIT
    }

    /// Fresh, empty pool. Fails with `InvalidAmount` iff the fee is
    /// above 10_000 basis points.
    pub fn initialize(fee_bps: u32) -> (r: Result<LpPoolContract, Error>)
        ensures
            r is Ok <==> fee_bps <= BPS_DENOMINATOR,
            r matches Ok(p) ==> ({
                &&& p.wf()
                &&& p.reserve_xlm == 0
                &&& p.reserve_sxlm == 0
                &&& p.total_lp_supply == 0
                &&& p.fee_bps == fee_bps as i128
                &&& p.lp_balances@ == Map::<u64, i128>::empty()
            }),
            r matches Err(e) ==> e == Error::InvalidAmount,
    {
        if fee_bps > 10_000 {
            return Err(Error::InvalidAmount);
        }
        Ok(LpPoolContract {
            reserve_xlm: 0,
            reserve_sxlm: 0,
            total_lp_supply: 0,
            fee_bps: fee_bps as i128,
            lp_balances: HashMap::new(),
        })
    }

    /// The LP balance held by `user`.
    pub fn get_lp_balance(&self, user: u64) -> (r: i128)
        ensures
            r == self.lp_balance_of(user),
    {
        match self.lp_balances.get(&user) {
            Some(b) => *b,
            None => 0,
        }
    }

    /// Both reserves: `(reserve_xlm, reserve_sxlm)`.
    pub fn get_reserves(&self) -> (r: (i128, i128))
        ensures
            r.0 == self.reserve_xlm,
            r.1 == self.reserve_sxlm,
    {
        (self.reserve_xlm, self.reserve_sxlm)
    }

    /// LP tokens minted for offering `xlm_amount` and `sxlm_amount`:
    /// the geometric mean for the first deposit, else the limiting
    /// side's share of the supply.
    pub open spec fn spec_lp_minted(self, xlm_amount: int, sxlm_amount: int) -> int {
        if self.total_lp_supply == 0 {
            spec_isqrt(xlm_amount * sxlm_amount)
        } else {
            let lp_from_xlm = xlm_amount * self.total_lp_supply / (self.reserve_xlm as int);
            let lp_from_sxlm = sxlm_amount * self.total_lp_supply / (self.reserve_sxlm as int);
            if lp_from_xlm < lp_from_sxlm {
                lp_from_xlm
            } else {
                lp_from_sxlm
            }
        }
    }

    /// Provide liquidity: both assets move into the pool in proportion
    /// to the reserves, and the provider is minted the returned LP
    /// amount. Only the proportional amounts are taken — the excess on
    /// the non-limiting side stays with the provider.
    ///
    /// Fails with `InvalidAmount` iff either offered amount is
    /// non-positive, and with `InsufficientLiquidity` iff the
    /// proportional deposit rounds to nothing. On success the host must
    /// pull the two returned actual amounts from the provider.
    pub fn add_liquidity(&mut self, user: u64, xlm_amount: i128, sxlm_amount: i128) -> (r: Result<
        (i128, i128, i128),
        Error,
    >)
        requires
            old(self).wf(),
            xlm_amount <= AMOUNT_LIMIT,
            sxlm_amount <= AMOUNT_LIMIT,
            old(self).reserve_xlm + xlm_amount <= AMOUNT_LIMIT,
            old(self).reserve_sxlm + sxlm_amount <= AMOUNT_LIMIT,
            old(self).total_lp_supply + old(self).spec_lp_minted(
                xlm_amount as int,
                sxlm_amount as int,
            ) <= AMOUNT_LIMIT,
            old(self).lp_balance_of(user) + old(self).spec_lp_minted(
                xlm_amount as int,
                sxlm_amount as int,
            ) <= AMOUNT_LIMIT,
        ensures
            final(self).wf(),
            r is Err ==> *final(self) == *old(self),
            ({
                let minted = old(self).spec_lp_minted(xlm_amount as int, sxlm_amount as int);
                let lp_from_xlm = xlm_amount * old(self).total_lp_supply / (
                old(self).reserve_xlm as int);
                let lp_from_sxlm = sxlm_amount * old(self).total_lp_supply / (
                old(self).reserve_sxlm as int);
                let actual_xlm: int = if old(self).total_lp_supply == 0 || lp_from_xlm
                    < lp_from_sxlm {
                    xlm_amount as int
                } else {
                    lp_from_sxlm * old(self).reserve_xlm / (old(self).total_lp_supply as int)
                };
                let actual_sxlm: int = if old(self).total_lp_supply == 0 || lp_from_xlm
                    >= lp_from_sxlm {
                    sxlm_amount as int
                } else {
                    lp_from_xlm * old(self).reserve_sxlm / (old(self).total_lp_supply as int)
                };
                &&& r == (if xlm_amount <= 0 || sxlm_amount <= 0 {
                    Err::<(i128, i128, i128), Error>(Error::InvalidAmount)
                } else if minted <= 0 || actual_xlm <= 0 || actual_sxlm <= 0 {
                    Err::<(i128, i128, i128), Error>(Error::InsufficientLiquidity)
                } else {
                    Ok::<(i128, i128, i128), Error>(
                        (actual_xlm as i128, actual_sxlm as i128, minted as i128),
                    )
                })
                &&& (r matches Ok(out) ==> {
                    &&& final(self).reserve_xlm == old(self).reserve_xlm + out.0
                    &&& final(self).reserve_sxlm == old(self).reserve_sxlm + out.1
                    &&& final(self).total_lp_supply == old(self).total_lp_supply + out.2
                    &&& final(self).lp_balances@ == old(self).lp_balances@.insert(
                        user,
                        (old(self).lp_balance_of(user) + out.2) as i128,
                    )
                    &&& final(self).fee_bps == old(self).fee_bps
                })
            }),
    {
        if xlm_amount <= 0 || sxlm_amount <= 0 {
            return Err(Error::InvalidAmount);
        }
        let total_lp = self.total_lp_supply;
        let (actual_xlm, actual_sxlm, lp_minted): (i128, i128, i128) = if total_lp == 0 {
            proof {
                assert(0 <= xlm_amount * sxlm_amount <= AMOUNT_LIMIT * AMOUNT_LIMIT)
                    by (nonlinear_arith)
                    requires
                        0 < xlm_amount <= AMOUNT_LIMIT,
                        0 < sxlm_amount <= AMOUNT_LIMIT,
                ;
            }
            let minted = isqrt(xlm_amount * sxlm_amount);
            (xlm_amount, sxlm_amount, minted)
        } else {
            proof {
                lemma_share_products_fit(
                    xlm_amount as int,
                    sxlm_amount as int,
                    self.total_lp_supply as int,
                    self.reserve_xlm as int,
                    self.reserve_sxlm as int,
                );
            }
            let lp_from_xlm: i128 = xlm_amount * total_lp / self.reserve_xlm;
            let lp_from_sxlm: i128 = sxlm_amount * total_lp / self.reserve_sxlm;
            if lp_from_xlm < lp_from_sxlm {
                proof {
                    lemma_proportional_side_is_bounded(
                        lp_from_xlm as int,
                        sxlm_amount as int,
                        self.total_lp_supply as int,
                        self.reserve_sxlm as int,
                    );
                }
                let needed_sxlm: i128 = lp_from_xlm * self.reserve_sxlm / total_lp;
                (xlm_amount, needed_sxlm, lp_from_xlm)
            } else {
                proof {
                    lemma_proportional_side_is_bounded(
                        lp_from_sxlm as int,
                        xlm_amount as int,
                        self.total_lp_supply as int,
                        self.reserve_xlm as int,
                    );
                }
                let needed_xlm: i128 = lp_from_sxlm * self.reserve_xlm / total_lp;
                (needed_xlm, sxlm_amount, lp_from_sxlm)
            }
        };
        if lp_minted <= 0 || actual_xlm <= 0 || actual_sxlm <= 0 {
            return Err(Error::InsufficientLiquidity);
        }
        let user_lp = self.get_lp_balance(user);
        self.reserve_xlm = self.reserve_xlm + actual_xlm;
        self.reserve_sxlm = self.reserve_sxlm + actual_sxlm;
        self.total_lp_supply = self.total_lp_supply + lp_minted;
        self.lp_balances.insert(user, user_lp + lp_minted);
        Ok((actual_xlm, actual_sxlm, lp_minted))
    }

    /// Redeem `lp_amount` LP tokens for both assets in proportion to
    /// the reserves.
    ///
    /// Fails with `InvalidAmount` iff `lp_amount <= 0`; with
    /// `InsufficientBalance` iff the provider's LP balance (or the
    /// supply itself) is below `lp_amount`; with
    /// `InsufficientLiquidity` iff either side's payout rounds to
    /// nothing. On success the host must send the two returned amounts
    /// to the provider.
    pub fn remove_liquidity(&mut self, user: u64, lp_amount: i128) -> (r: Result<
        (i128, i128),
        Error,
    >)
        requires
            old(self).wf(),
        ensures
            final(self).wf(),
            r is Err ==> *final(self) == *old(self),
            ({
                let xlm_out = lp_amount * old(self).reserve_xlm / (old(self).total_lp_supply as int);
                let sxlm_out = lp_amount * old(self).reserve_sxlm / (
                old(self).total_lp_supply as int);
                &&& r == (if lp_amount <= 0 {
                    Err::<(i128, i128), Error>(Error::InvalidAmount)
                } else if old(self).lp_balance_of(user) < lp_amount || old(self).total_lp_supply
                    < lp_amount {
                    Err::<(i128, i128), Error>(Error::InsufficientBalance)
                } else if xlm_out <= 0 || sxlm_out <= 0 {
                    Err::<(i128, i128), Error>(Error::InsufficientLiquidity)
                } else {
                    Ok::<(i128, i128), Error>((xlm_out as i128, sxlm_out as i128))
                })
                &&& (r matches Ok(out) ==> {
                    &&& final(self).reserve_xlm == old(self).reserve_xlm - out.0
                    &&& final(self).reserve_sxlm == old(self).reserve_sxlm - out.1
                    &&& final(self).total_lp_supply == old(self).total_lp_supply - lp_amount
                    &&& final(self).lp_balances@ == old(self).lp_balances@.insert(
                        user,
                        (old(self).lp_balance_of(user) - lp_amount) as i128,
                    )
                    &&& final(self).fee_bps == old(self).fee_bps
                })
            }),
    {
        if lp_amount <= 0 {
            return Err(Error::InvalidAmount);
        }
        let user_lp = self.get_lp_balance(user);
        if user_lp < lp_amount || self.total_lp_supply < lp_amount {
            return Err(Error::InsufficientBalance);
        }
        proof {
            lemma_payout_is_proportional(
                lp_amount as int,
                self.reserve_xlm as int,
                self.total_lp_supply as int,
            );
            lemma_payout_is_proportional(
                lp_amount as int,
                self.reserve_sxlm as int,
                self.total_lp_supply as int,
            );
        }
        let xlm_out: i128 = lp_amount * self.reserve_xlm / self.total_lp_supply;
        let sxlm_out: i128 = lp_amount * self.reserve_sxlm / self.total_lp_supply;
        if xlm_out <= 0 || sxlm_out <= 0 {
            return Err(Error::InsufficientLiquidity);
        }
        self.reserve_xlm = self.reserve_xlm - xlm_out;
        self.reserve_sxlm = self.reserve_sxlm - sxlm_out;
        self.total_lp_supply = self.total_lp_supply - lp_amount;
        self.lp_balances.insert(user, user_lp - lp_amount);
        Ok((xlm_out, sxlm_out))
    }

    /// Swap `xlm_amount` XLM for sXLM under the constant-product rule,
    /// the fee staying in the pool.
    ///
    /// Fails with `InvalidAmount` iff `xlm_amount <= 0`; with
    /// `InsufficientLiquidity` iff a reserve is empty or the output
    /// would round to nothing or drain the sXLM side; with
    /// `SlippageExceeded` iff the output is below `min_out`. On success
    /// the host must pull `xlm_amount` XLM from the trader and send
    /// them the returned sXLM.
    pub fn swap_xlm_to_sxlm(&mut self, xlm_amount: i128, min_out: i128) -> (r: Result<i128, Error>)
        requires
            old(self).wf(),
            xlm_amount <= AMOUNT_LIMIT,
            old(self).reserve_xlm + xlm_amount <= AMOUNT_LIMIT,
        ensures
            final(self).wf(),
            r is Err ==> *final(self) == *old(self),
            ({
                let out = spec_swap_output(
                    xlm_amount as int,
                    old(self).fee_bps as int,
                    old(self).reserve_xlm as int,
                    old(self).reserve_sxlm as int,
                );
                &&& r == (if xlm_amount <= 0 {
                    Err::<i128, Error>(Error::InvalidAmount)
                } else if old(self).reserve_xlm <= 0 || old(self).reserve_sxlm <= 0 {
                    Err::<i128, Error>(Error::InsufficientLiquidity)
                } else if out <= 0 || out >= old(self).reserve_sxlm {
                    Err::<i128, Error>(Error::InsufficientLiquidity)
                } else if out < min_out {
                    Err::<i128, Error>(Error::SlippageExceeded)
                } else {
                    Ok::<i128, Error>(out as i128)
                })
                &&& (r matches Ok(out_amt) ==> *final(self) == (LpPoolContract {
                    reserve_xlm: (old(self).reserve_xlm + xlm_amount) as i128,
                    reserve_sxlm: (old(self).reserve_sxlm - out_amt) as i128,
                    ..*old(self)
                }))
            }),
    {
        if xlm_amount <= 0 {
            return Err(Error::InvalidAmount);
        }
        if self.reserve_xlm <= 0 || self.reserve_sxlm <= 0 {
            return Err(Error::InsufficientLiquidity);
        }
        let out = swap_output(xlm_amount, self.fee_bps, self.reserve_xlm, self.reserve_sxlm);
        if out <= 0 || out >= self.reserve_sxlm {
            return Err(Error::InsufficientLiquidity);
        }
        if out < min_out {
            return Err(Error::SlippageExceeded);
        }
        self.reserve_xlm = self.reserve_xlm + xlm_amount;
        self.reserve_sxlm = self.reserve_sxlm - out;
        Ok(out)
    }

    /// Swap `sxlm_amount` sXLM for XLM under the constant-product rule,
    /// the fee staying in the pool.
    ///
    /// The failure cases mirror `swap_xlm_to_sxlm` with the sides
    /// exchanged. On success the host must pull `sxlm_amount` sXLM from
    /// the trader and send them the returned XLM.
    pub fn swap_sxlm_to_xlm(&mut self, sxlm_amount: i128, min_out: i128) -> (r: Result<
        i128,
        Error,
    >)
        requires
            old(self).wf(),
            sxlm_amount <= AMOUNT_LIMIT,
            old(self).reserve_sxlm + sxlm_amount <= AMOUNT_LIMIT,
        ensures
            final(self).wf(),
            r is Err ==> *final(self) == *old(self),
            ({
                let out = spec_swap_output(
                    sxlm_amount as int,
                    old(self).fee_bps as int,
                    old(self).reserve_sxlm as int,
                    old(self).reserve_xlm as int,
                );
                &&& r == (if sxlm_amount <= 0 {
                    Err::<i128, Error>(Error::InvalidAmount)
                } else if old(self).reserve_xlm <= 0 || old(self).reserve_sxlm <= 0 {
                    Err::<i128, Error>(Error::InsufficientLiquidity)
                } else if out <= 0 || out >= old(self).reserve_xlm {
                    Err::<i128, Error>(Error::InsufficientLiquidity)
                } else if out < min_out {
                    Err::<i128, Error>(Error::SlippageExceeded)
                } else {
                    Ok::<i128, Error>(out as i128)
                })
                &&& (r matches Ok(out_amt) ==> *final(self) == (LpPoolContract {
                    reserve_sxlm: (old(self).reserve_sxlm + sxlm_amount) as i128,
                    reserve_xlm: (old(self).reserve_xlm - out_amt) as i128,
                    ..*old(self)
                }))
            }),
    {
        if sxlm_amount <= 0 {
            return Err(Error::InvalidAmount);
        }
        if self.reserve_xlm <= 0 || self.reserve_sxlm <= 0 {
            return Err(Error::InsufficientLiquidity);
        }
        let out = swap_output(sxlm_amount, self.fee_bps, self.reserve_sxlm, self.reserve_xlm);
        if out <= 0 || out >= self.reserve_xlm {
            return Err(Error::InsufficientLiquidity);
        }
        if out < min_out {
            return Err(Error::SlippageExceeded);
        }
        self.reserve_sxlm = self.reserve_sxlm + sxlm_amount;
        self.reserve_xlm = self.reserve_xlm - out;
        Ok(out)
    }

    /// Price of sXLM in XLM implied by the reserves, scaled by
    /// `RATE_PRECISION`; one-to-one while the pool is empty.
    pub fn get_price(&self) -> (r: i128)
        requires
            self.wf(),
        ensures
            r == (if self.reserve_sxlm == 0 {
                RATE_PRECISION as int
            } else {
                self.reserve_xlm * (RATE_PRECISION as int) / (self.reserve_sxlm as int)
            }),
    {
        if self.reserve_sxlm == 0 {
            return RATE_PRECISION;
        }
        proof {
            assert(0 <= self.reserve_xlm * RATE_PRECISION <= AMOUNT_LIMIT * RATE_PRECISION)
                by (nonlinear_arith)
                requires
                    0 <= self.reserve_xlm <= AMOUNT_LIMIT,
            ;
        }
        self.reserve_xlm * RATE_PRECISION / self.reserve_sxlm
    }
}

/// Constant-product payout: shave the fee off the input, grow the input
/// reserve by what is left, and pay out what keeps the reserve product
/// from shrinking.
fn swap_output(amount: i128, fee_bps: i128, reserve_in: i128, reserve_out: i128) -> (out: i128)
    requires
        0 < amount <= AMOUNT_LIMIT,
        0 <= fee_bps <= BPS_DENOMINATOR,
        0 < reserve_in <= AMOUNT_LIMIT,
        0 < reserve_out <= AMOUNT_LIMIT,
    ensures
        out == spec_swap_output(
            amount as int,
            fee_bps as int,
            reserve_in as int,
            reserve_out as int,
        ),
        out <= reserve_out,
{
    proof {
        assert(0 <= amount * (BPS_DENOMINATOR - fee_bps) <= AMOUNT_LIMIT * BPS_DENOMINATOR)
            by (nonlinear_arith)
            requires
                0 < amount <= AMOUNT_LIMIT,
                0 <= BPS_DENOMINATOR - fee_bps <= BPS_DENOMINATOR,
        ;
        vstd::arithmetic::div_mod::lemma_div_pos_is_pos(
            amount * (BPS_DENOMINATOR - fee_bps),
            BPS_DENOMINATOR as int,
        );
        assert(amount * (BPS_DENOMINATOR - fee_bps) <= (BPS_DENOMINATOR as int) * amount)
            by (nonlinear_arith)
            requires
                0 < amount,
                0 <= BPS_DENOMINATOR - fee_bps <= BPS_DENOMINATOR,
        ;
        vstd::arithmetic::div_mod::lemma_multiply_divide_le(
            amount * (BPS_DENOMINATOR - fee_bps),
            BPS_DENOMINATOR as int,
            amount as int,
        );
    }
    let after_fee: i128 = amount * (BPS_DENOMINATOR - fee_bps) / BPS_DENOMINATOR;
    proof {
        assert(0 <= reserve_in * reserve_out <= AMOUNT_LIMIT * AMOUNT_LIMIT) by (nonlinear_arith)
            requires
                0 < reserve_in <= AMOUNT_LIMIT,
                0 < reserve_out <= AMOUNT_LIMIT,
        ;
        vstd::arithmetic::div_mod::lemma_div_pos_is_pos(
            reserve_in * reserve_out,
            reserve_in + after_fee,
        );
    }
    let kept: i128 = reserve_in * reserve_out / (reserve_in + after_fee);
    reserve_out - kept
}

/// Products and quotients of capped amounts stay inside 128 bits, and a
/// share of `b` measured by `a / d` stays under whichever factor the
/// denominator covers.
proof fn lemma_mul_div_bounds(a: int, b: int, d: int)
    requires
        0 <= a <= AMOUNT_LIMIT,
        0 <= b <= AMOUNT_LIMIT,
        0 < d,
    ensures
        0 <= a * b <= AMOUNT_LIMIT * AMOUNT_LIMIT,
        0 <= a * b / d,
        b <= d ==> a * b / d <= a,
        a <= d ==> a * b / d <= b,
{
    assert(0 <= a * b <= AMOUNT_LIMIT * AMOUNT_LIMIT) by (nonlinear_arith)
        requires
            0 <= a <= AMOUNT_LIMIT,
            0 <= b <= AMOUNT_LIMIT,
    ;
    vstd::arithmetic::div_mod::lemma_div_pos_is_pos(a * b, d);
    if b <= d {
        assert(a * b <= d * a) by (nonlinear_arith)
            requires
                0 <= a,
                b <= d,
        ;
        vstd::arithmetic::div_mod::lemma_multiply_divide_le(a * b, d, a);
    }
    if a <= d {
        assert(a * b <= d * b) by (nonlinear_arith)
            requires
                0 <= b,
                a <= d,
        ;
        vstd::arithmetic::div_mod::lemma_multiply_divide_le(a * b, d, b);
    }
}

/// The products the proportional-share formulas take stay inside 128
/// bits, and the quotients are non-negative.
proof fn lemma_share_products_fit(a: int, b: int, t: int, dx: int, dy: int)
    requires
        0 <= a <= AMOUNT_LIMIT,
        0 <= b <= AMOUNT_LIMIT,
        0 <= t <= AMOUNT_LIMIT,
        0 < dx,
        0 < dy,
    ensures
        0 <= a * t <= AMOUNT_LIMIT * AMOUNT_LIMIT,
        0 <= b * t <= AMOUNT_LIMIT * AMOUNT_LIMIT,
        0 <= a * t / dx,
        0 <= b * t / dy,
{
    lemma_mul_div_bounds(a, t, dx);
    lemma_mul_div_bounds(b, t, dy);
}

/// The non-limiting side of a proportional deposit never takes more
/// than what was offered: if `lp_share` is at most the LP value of
/// `offered`, then converting it back through the reserve stays within
/// `offered`.
proof fn lemma_proportional_side_is_bounded(
    lp_share: int,
    offered: int,
    total_lp: int,
    reserve: int,
)
    requires
        0 < total_lp <= AMOUNT_LIMIT,
        0 < reserve <= AMOUNT_LIMIT,
        0 <= lp_share,
        0 <= offered <= AMOUNT_LIMIT,
        lp_share <= offered * total_lp / reserve,
    ensures
        0 <= lp_share * reserve <= AMOUNT_LIMIT * AMOUNT_LIMIT,
        0 <= lp_share * reserve / total_lp <= offered,
{
    let lp_value = offered * total_lp / reserve;
    vstd::arithmetic::div_mod::lemma_fundamental_div_mod(offered * total_lp, reserve);
    assert(lp_value * reserve <= offered * total_lp) by (nonlinear_arith)
        requires
            offered * total_lp == reserve * lp_value + (offered * total_lp) % reserve,
            (offered * total_lp) % reserve >= 0,
    ;
    assert(lp_share * reserve <= lp_value * reserve) by (nonlinear_arith)
        requires
            lp_share <= lp_value,
            reserve > 0,
    ;
    assert(0 <= offered * total_lp <= AMOUNT_LIMIT * AMOUNT_LIMIT) by (nonlinear_arith)
        requires
            0 <= offered <= AMOUNT_LIMIT,
            0 <= total_lp <= AMOUNT_LIMIT,
    ;
    assert(0 <= lp_share * reserve) by (nonlinear_arith)
        requires
            0 <= lp_share,
            0 < reserve,
    ;
    assert(lp_share * reserve <= total_lp * offered) by (nonlinear_arith)
        requires
            lp_share * reserve <= offered * total_lp,
    ;
    vstd::arithmetic::div_mod::lemma_multiply_divide_le(lp_share * reserve, total_lp, offered);
    vstd::arithmetic::div_mod::lemma_div_pos_is_pos(lp_share * reserve, total_lp);
}

/// A payout proportional to an LP share never exceeds the reserve, is
/// strictly below it for a partial share, and drains it exactly for the
/// whole supply.
proof fn lemma_payout_is_proportional(lp: int, reserve: int, total: int)
    requires
        0 < lp <= total <= AMOUNT_LIMIT,
        0 <= reserve <= AMOUNT_LIMIT,
    ensures
        0 <= lp * reserve <= AMOUNT_LIMIT * AMOUNT_LIMIT,
        0 <= lp * reserve / total <= reserve,
        lp < total && reserve > 0 ==> lp * reserve / total < reserve,
        lp == total ==> lp * reserve / total == reserve,
{
    lemma_mul_div_bounds(lp, reserve, total);
    if lp < total && reserve > 0 {
        assert(lp * reserve < total * reserve) by (nonlinear_arith)
            requires
                lp < total,
                reserve > 0,
        ;
        vstd::arithmetic::div_mod::lemma_multiply_divide_lt(lp * reserve, total, reserve);
    }
    if lp == total {
        vstd::arithmetic::div_mod::lemma_div_multiples_vanish(reserve, total);
        assert(lp * reserve == total * reserve) by (nonlinear_arith)
            requires
                lp == total,
        ;
    }
}

} // verus!
