use vstd::prelude::*;
use std::collections::HashMap;
use crate::errors::Error;
use crate::numbers::AMOUNT_LIMIT;

verus! {

broadcast use vstd::std_specs::hash::group_hash_axioms;

/// Scale of the allowance key packing: one above `u64::MAX`.
pub const KEY_SCALE: u128 = 0x1_0000_0000_0000_0000;

/// An owner–spender pair packed into one map key: the owner in the
/// high 64 bits, the spender in the low ones. The sum never reaches
/// 2^128, so the narrowing below loses nothing.
pub open spec fn spec_allowance_key(from: u64, spender: u64) -> u128 {
    ((from as int) * (KEY_SCALE as int) + (spender as int)) as u128
}

/// Refuses a negative amount with `InvalidAmount`; every token entry
/// point runs its amount through this first.
pub fn check_nonnegative(amount: i128) -> (r: Result<(), Error>)
    ensures
        r is Ok <==> amount >= 0,
        r matches Err(e) ==> e == Error::InvalidAmount,
{
    if amount < 0 {
        Err(Error::InvalidAmount)
    } else {
        Ok(())
    }
}

/// The sXLM token ledger: balances, allowances and the circulating
/// supply. Minting and burning are reserved for the configured minter
/// (the staking pool); administration for the admin. Pure state:
/// authentication of `from` and `spender` is the host's duty.
#[derive(Clone, Debug)]
pub struct SxlmToken {
    /// Principal allowed to rotate the minter and itself.
    pub admin: u64,
    /// Principal allowed to mint and burn (the staking pool).
    pub minter: u64,
    /// Decimal places of the token, metadata only.
    pub decimals: u32,
    /// Circulating supply.
    pub supply: i128,
    /// Balance of each holder.
    pub balances: HashMap<u64, i128>,
    /// Remaining allowance of each owner–spender pair, keyed by
    /// `spec_allowance_key`.
    pub allowances: HashMap<u128, i128>,
}

impl SxlmToken {
    /// Balance of `id`; zero for a holder never seen.
    pub open spec fn balance_of(self, id: u64) -> i128 {
        if self.balances@.contains_key(id) {
            self.balances@[id]
        } else {
            0
        }
    }

    /// Allowance of `spender` over `from`'s tokens; zero if never set.
    pub open spec fn allowance_of(self, from: u64, spender: u64) -> i128 {
        if self.allowances@.contains_key(spec_allowance_key(from, spender)) {
            self.allowances@[spec_allowance_key(from, spender)]
        } else {
            0
        }
    }

    /// Supply, balances and allowances non-negative and capped.
    pub open spec fn wf(self) -> bool {
        &&& 0 <= self.supply <= AMOUNT_LIMIT
        &&& forall|id: u64|
            self.balances@.contains_key(id) ==> 0 <= #[trigger] self.balances@[id] <= AMOUNT_LIMIT
        &&& forall|k: u128|
            self.allowances@.contains_key(k) ==> 0 <= #[trigger] self.allowances@[k]
                <= AMOUNT_LIMIT
    }

    /// Fresh ledger: nothing minted, nothing allowed.
    pub fn initialize(admin: u64, minter: u64, decimals: u32) -> (t: SxlmToken)
        ensures
            t.wf(),
            t.admin == admin,
            t.minter == minter,
            t.decimals == decimals,
            t.supply == 0,
            t.balances@ == Map::<u64, i128>::empty(),
            t.allowances@ == Map::<u128, i128>::empty(),
    {
        SxlmToken {
            admin,
            minter,
            decimals,
            supply: 0,
            balances: HashMap::new(),
            allowances: HashMap::new(),
        }
    }

    /// Create `amount` tokens for `to`. Fails with `InvalidAmount` iff
    /// the amount is negative and with `Unauthorized` iff the caller is
    /// not the minter.
    pub fn mint(&mut self, caller: u64, to: u64, amount: i128) -> (r: Result<(), Error>)
        requires
            old(self).wf(),
            old(self).balance_of(to) + amount <= AMOUNT_LIMIT,
            old(self).supply + amount <= AMOUNT_LIMIT,
        ensures
            final(self).wf(),
            r == (if amount < 0 {
                Err::<(), Error>(Error::InvalidAmount)
            } else if caller != old(self).minter {
                Err::<(), Error>(Error::Unauthorized)
            } else {
                Ok::<(), Error>(())
            }),
            r is Err ==> *final(self) == *old(self),
            r is Ok ==> {
                &&& final(self).balances@ == old(self).balances@.insert(
                    to,
                    (old(self).balance_of(to) + amount) as i128,
                )
                &&& final(self).supply == old(self).supply + amount
                &&& final(self).allowances@ == old(self).allowances@
                &&& final(self).admin == old(self).admin
                &&& final(self).minter == old(self).minter
                &&& final(self).decimals == old(self).decimals
            },
    {
        if amount < 0 {
            return Err(Error::InvalidAmount);
        }
        if caller != self.minter {
            return Err(Error::Unauthorized);
        }
        let balance = self.balance(to);
        self.balances.insert(to, balance + amount);
        self.supply = self.supply + amount;
        Ok(())
    }

    /// Destroy `amount` of `from`'s tokens. Fails with `InvalidAmount`
    /// iff the amount is negative, with `Unauthorized` iff the caller
    /// is not the minter, and with `InsufficientBalance` iff the
    /// balance (or the supply) does not cover the amount.
    pub fn burn(&mut self, caller: u64, from: u64, amount: i128) -> (r: Result<(), Error>)
        requires
            old(self).wf(),
        ensures
            final(self).wf(),
            r == (if amount < 0 {
                Err::<(), Error>(Error::InvalidAmount)
            } else if caller != old(self).minter {
                Err::<(), Error>(Error::Unauthorized)
            } else if old(self).balance_of(from) < amount || old(self).supply < amount {
                Err::<(), Error>(Error::InsufficientBalance)
            } else {
                Ok::<(), Error>(())
            }),
            r is Err ==> *final(self) == *old(self),
            r is Ok ==> {
                &&& final(self).balances@ == old(self).balances@.insert(
                    from,
                    (old(self).balance_of(from) - amount) as i128,
                )
                &&& final(self).supply == old(self).supply - amount
                &&& final(self).allowances@ == old(self).allowances@
                &&& final(self).admin == old(self).admin
                &&& final(self).minter == old(self).minter
                &&& final(self).decimals == old(self).decimals
            },
    {
        if amount < 0 {
            return Err(Error::InvalidAmount);
        }
        if caller != self.minter {
            return Err(Error::Unauthorized);
        }
        let balance = self.balance(from);
        if balance < amount || self.supply < amount {
            return Err(Error::InsufficientBalance);
        }
        self.balances.insert(from, balance - amount);
        self.supply = self.supply - amount;
        Ok(())
    }

    /// Move `amount` from `from` to `to`. Fails with `InvalidAmount`
    /// iff the amount is negative and with `InsufficientBalance` iff
    /// `from` holds less than `amount`. A self-transfer leaves the
    /// ledger as it was.
    pub fn transfer(&mut self, from: u64, to: u64, amount: i128) -> (r: Result<(), Error>)
        requires
            old(self).wf(),
            from != to ==> old(self).balance_of(to) + amount <= AMOUNT_LIMIT,
        ensures
            final(self).wf(),
            r == (if amount < 0 {
                Err::<(), Error>(Error::InvalidAmount)
            } else if old(self).balance_of(from) < amount {
                Err::<(), Error>(Error::InsufficientBalance)
            } else {
                Ok::<(), Error>(())
            }),
            r is Err ==> *final(self) == *old(self),
            r is Ok && from != to ==> final(self).balances@ == old(self).balances@.insert(
                from,
                (old(self).balance_of(from) - amount) as i128,
            ).insert(to, (old(self).balance_of(to) + amount) as i128),
            r is Ok && from == to ==> final(self).balances@ == old(self).balances@.insert(
                from,
                old(self).balance_of(from),
            ),
            r is Ok ==> {
                &&& final(self).supply == old(self).supply
                &&& final(self).allowances@ == old(self).allowances@
                &&& final(self).admin == old(self).admin
                &&& final(self).minter == old(self).minter
                &&& final(self).decimals == old(self).decimals
            },
    {
        if amount < 0 {
            return Err(Error::InvalidAmount);
        }
        let from_balance = self.balance(from);
        if from_balance < amount {
            return Err(Error::InsufficientBalance);
        }
        self.balances.insert(from, from_balance - amount);
        let to_balance = self.balance(to);
        self.balances.insert(to, to_balance + amount);
        Ok(())
    }

    /// Let `spender` move up to `amount` of `from`'s tokens. Fails with
    /// `InvalidAmount` iff the amount is negative. The expiration
    /// ledger is the host's concern and is ignored here.
    pub fn approve(
        &mut self,
        from: u64,
        spender: u64,
        amount: i128,
        _expiration_ledger: u32,
    ) -> (r: Result<(), Error>)
        requires
            old(self).wf(),
            amount <= AMOUNT_LIMIT,
        ensures
            final(self).wf(),
            r == (if amount < 0 {
                Err::<(), Error>(Error::InvalidAmount)
            } else {
                Ok::<(), Error>(())
            }),
            r is Err ==> *final(self) == *old(self),
            r is Ok ==> {
                &&& final(self).allowances@ == old(self).allowances@.insert(
                    spec_allowance_key(from, spender),
                    amount,
                )
                &&& final(self).balances@ == old(self).balances@
                &&& final(self).supply == old(self).supply
                &&& final(self).admin == old(self).admin
                &&& final(self).minter == old(self).minter
                &&& final(self).decimals == old(self).decimals
            },
    {
        if amount < 0 {
            return Err(Error::InvalidAmount);
        }
        let key = allowance_key(from, spender);
        self.allowances.insert(key, amount);
        Ok(())
    }

    /// Move `amount` from `from` to `to` on `spender`'s authority.
    /// Fails with `InvalidAmount` iff the amount is negative, with
    /// `InsufficientAllowance` iff the allowance does not cover it, and
    /// with `InsufficientBalance` iff `from`'s balance does not. The
    /// allowance is spent by the amount moved.
    pub fn transfer_from(
        &mut self,
        spender: u64,
        from: u64,
        to: u64,
        amount: i128,
    ) -> (r: Result<(), Error>)
        requires
            old(self).wf(),
            from != to ==> old(self).balance_of(to) + amount <= AMOUNT_LIMIT,
        ensures
            final(self).wf(),
            r == (if amount < 0 {
                Err::<(), Error>(Error::InvalidAmount)
            } else if old(self).allowance_of(from, spender) < amount {
                Err::<(), Error>(Error::InsufficientAllowance)
            } else if old(self).balance_of(from) < amount {
                Err::<(), Error>(Error::InsufficientBalance)
            } else {
                Ok::<(), Error>(())
            }),
            r is Err ==> *final(self) == *old(self),
            r is Ok && from != to ==> final(self).balances@ == old(self).balances@.insert(
                from,
                (old(self).balance_of(from) - amount) as i128,
            ).insert(to, (old(self).balance_of(to) + amount) as i128),
            r is Ok && from == to ==> final(self).balances@ == old(self).balances@.insert(
                from,
                old(self).balance_of(from),
            ),
            r is Ok ==> {
                &&& final(self).allowances@ == old(self).allowances@.insert(
                    spec_allowance_key(from, spender),
                    (old(self).allowance_of(from, spender) - amount) as i128,
                )
                &&& final(self).supply == old(self).supply
                &&& final(self).admin == old(self).admin
                &&& final(self).minter == old(self).minter
                &&& final(self).decimals == old(self).decimals
            },
    {
        if amount < 0 {
            return Err(Error::InvalidAmount);
        }
        let current_allowance = self.allowance(from, spender);
        if current_allowance < amount {
            return Err(Error::InsufficientAllowance);
        }
        let from_balance = self.balance(from);
        if from_balance < amount {
            return Err(Error::InsufficientBalance);
        }
        let key = allowance_key(from, spender);
        self.allowances.insert(key, current_allowance - amount);
        self.balances.insert(from, from_balance - amount);
        let to_balance = self.balance(to);
        self.balances.insert(to, to_balance + amount);
        Ok(())
    }

    /// Balance of `id`.
    pub fn balance(&self, id: u64) -> (r: i128)
        ensures
            r == self.balance_of(id),
    {
        match self.balances.get(&id) {
            Some(b) => *b,
            None => 0,
        }
    }

    /// Remaining allowance of `spender` over `from`'s tokens.
    pub fn allowance(&self, from: u64, spender: u64) -> (r: i128)
        ensures
            r == self.allowance_of(from, spender),
    {
        let key = allowance_key(from, spender);
        match self.allowances.get(&key) {
            Some(a) => *a,
            None => 0,
        }
    }

    /// Circulating supply.
    pub fn total_supply(&self) -> (r: i128)
        ensures
            r == self.supply,
    {
        self.supply
    }

    /// Hand mint-and-burn authority to `new_minter`. Fails with
    /// `Unauthorized` iff the caller is not the admin.
    pub fn set_minter(&mut self, caller: u64, new_minter: u64) -> (r: Result<(), Error>)
        ensures
            r == (if caller != old(self).admin {
                Err::<(), Error>(Error::Unauthorized)
            } else {
                Ok::<(), Error>(())
            }),
            r is Err ==> *final(self) == *old(self),
            r is Ok ==> *final(self) == (SxlmToken { minter: new_minter, ..*old(self) }),
    {
        if caller != self.admin {
            return Err(Error::Unauthorized);
        }
        self.minter = new_minter;
        Ok(())
    }

    /// Hand the admin role to `new_admin`. Fails with `Unauthorized`
    /// iff the caller is not the admin.
    pub fn set_admin(&mut self, caller: u64, new_admin: u64) -> (r: Result<(), Error>)
        ensures
            r == (if caller != old(self).admin {
                Err::<(), Error>(Error::Unauthorized)
            } else {
                Ok::<(), Error>(())
            }),
            r is Err ==> *final(self) == *old(self),
            r is Ok ==> *final(self) == (SxlmToken { admin: new_admin, ..*old(self) }),
    {
        if caller != self.admin {
            return Err(Error::Unauthorized);
        }
        self.admin = new_admin;
        Ok(())
    }
}

/// The packed allowance key, computed without overflow: the owner in
/// the high 64 bits, the spender in the low ones.
fn allowance_key(from: u64, spender: u64) -> (k: u128)
    ensures
        k == spec_allowance_key(from, spender),
{
    proof {
        assert((from as int) * (KEY_SCALE as int) + (spender as int) <= u128::MAX as int)
            by (nonlinear_arith)
            requires
                0 <= from as int <= 0xffff_ffff_ffff_ffff as int,
                0 <= spender as int <= 0xffff_ffff_ffff_ffff as int,
                KEY_SCALE as int == 0x1_0000_0000_0000_0000 as int,
        ;
    }
    (from as u128) * KEY_SCALE + (spender as u128)
}

} // verus!
