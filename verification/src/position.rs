use vstd::prelude::*;
use crate::numbers::{AMOUNT_LIMIT, TIME_LIMIT};

verus! {

/// One account's standing in the lending engine: collateral held in
/// custody on its behalf, debt owed (inclusive of realized interest), and
/// the timestamp of the last accrual or mutation.
#[derive(Clone, Copy, Debug, PartialEq, Eq, Structural)]
pub struct Position {
    /// Staked-asset amount held in custody for the account.
    pub collateral: i128,
    /// Native-asset amount owed, as of `last_update`.
    pub debt: i128,
    /// Timestamp (monotonic, seconds) of the last accrual or mutation.
    pub last_update: u64,
}

impl Position {
    /// Both balances non-negative and within the amount cap, the
    /// timestamp within the clock cap. Holds for every position the
    /// lending engine stores.
    pub open spec fn wf(self) -> bool {
        &&& 0 <= self.collateral <= AMOUNT_LIMIT
        &&& 0 <= self.debt <= AMOUNT_LIMIT
        &&& self.last_update <= TIME_LIMIT
    }
}

} // verus!
