use vstd::prelude::*;

verus! {

/// Every way an operation of the protocol can be refused.
///
/// All errors abort the triggering operation with no state change: the
/// engines in this crate validate first and commit only on success, so a
/// caller that receives an `Err` holds the state it started with.
#[derive(Clone, Copy, Debug, PartialEq, Eq, Structural)]
pub enum Error {
    /// The component was asked to initialize twice; raised by the host
    /// shell that owns the durable storage, never by the engines
    /// themselves.
    AlreadyInitialized,
    /// The component was used before being initialized; raised by the
    /// host shell, never by the engines themselves.
    NotInitialized,
    /// The caller is not the principal the operation is reserved for.
    Unauthorized,
    /// A non-positive (or, for the token, negative) amount was passed.
    InvalidAmount,
    /// The position holds less collateral than the operation needs.
    InsufficientCollateral,
    /// A borrow would push the debt past the collateral-factor limit.
    BorrowLimitExceeded,
    /// A withdrawal would leave an indebted position undercollateralized.
    UnhealthyWithdrawal,
    /// The solvency ratio is below the break-even threshold. The
    /// lending engine reports the finer-grained `BorrowLimitExceeded`
    /// and `UnhealthyWithdrawal` instead; this variant stands for
    /// callers that fold the solvency family into one refusal.
    HealthFactorTooLow,
    /// The pool lacks the reserve to honor the request.
    InsufficientLiquidity,
    /// Repay or liquidate was attempted on a position owing nothing.
    NoDebt,
    /// Liquidation was attempted on a solvent position.
    PositionHealthy,
    /// The asset gateway refused a transfer; raised by the host shell,
    /// never by the engines themselves.
    TransferFailed,
    /// The account holds fewer tokens than the operation needs.
    InsufficientBalance,
    /// The spender's allowance does not cover the transfer.
    InsufficientAllowance,
    /// A swap produced less than the caller's declared minimum.
    SlippageExceeded,
    /// The component is paused.
    ContractPaused,
    /// No withdrawal request exists under the given id.
    RequestNotFound,
    /// The withdrawal request is not in the status the operation needs.
    InvalidStatus,
    /// The withdrawal request has not been marked ready.
    NotReadyToClaim,
    /// The withdrawal request's unbonding period has not elapsed.
    StillLocked,
    /// Only pending withdrawal requests can be cancelled.
    CannotCancel,
    /// No proposal exists under the given id.
    ProposalNotFound,
    /// The proposal is no longer open for votes.
    ProposalNotActive,
    /// Only passed proposals can be executed.
    ProposalNotPassed,
    /// The proposal was already carried out.
    ProposalAlreadyExecuted,
    /// The proposal's voting period has closed.
    VotingPeriodEnded,
    /// The proposal's voting period is still running.
    VotingPeriodNotEnded,
    /// The voter already cast a ballot on this proposal.
    AlreadyVoted,
    /// A passed proposal's execution delay has not elapsed.
    ExecutionDelayNotMet,
    /// The validator set is already at its size cap.
    TooManyValidators,
    /// The validator's score is below the admission floor.
    ScoreTooLow,
    /// No validator is registered under the given address.
    ValidatorNotFound,
    /// Stake cannot be allocated while no validator is registered.
    NoValidators,
}

} // verus!
