//! Verified core of an sXLM liquid-staking protocol: a collateralized
//! lending engine (positions, interest accrual, health factors,
//! liquidation), the staking pool's exchange-rate arithmetic, a
//! constant-product swap pool, the sXLM token ledger, a
//! delayed-withdrawal queue, governance, and validator allocation.
//!
//! Every state machine here is pure: it works on plain values and owns its
//! state. Host concerns — authentication, durable storage, asset transfers,
//! event publication — live outside the library, which hands back the
//! actions (amounts to move, receipts to publish) for the host to perform.

pub mod errors;
pub mod numbers;
pub mod position;
pub mod health;
pub mod interest;
pub mod lending;
pub mod staking;
pub mod lp_pool;
pub mod token;
pub mod queue;
pub mod governance;
pub mod validators;
pub mod seq_util;
