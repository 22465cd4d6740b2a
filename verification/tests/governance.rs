use sxlm_protocol::errors::Error;
use sxlm_protocol::governance::{
    Governance, ProposalStatus, VoteChoice, EXECUTION_DELAY, VOTING_PERIOD,
};

const ADMIN: u64 = 0;
const PROPOSER: u64 = 1;
const VOTER: u64 = 2;
const VOTER2: u64 = 3;
const SUPPLY: i128 = 1000_0000000;

fn setup() -> Governance {
    Governance::initialize(ADMIN)
}

#[test]
fn governance_test_initialize() {
    let gov = setup();
    let (total, active) = gov.get_stats();
    assert_eq!(total, 0);
    assert_eq!(active, 0);
}

#[test]
fn test_create_proposal() {
    let mut gov = setup();
    let id = gov.create_proposal(PROPOSER, 50_0000000, 1000).unwrap();
    assert_eq!(id, 0);

    let proposal = gov.get_proposal_info(id).unwrap();
    assert_eq!(proposal.proposer, PROPOSER);
    assert_eq!(proposal.status, ProposalStatus::Active);
    assert_eq!(proposal.voting_ends_at, 1000 + VOTING_PERIOD);
    assert_eq!(proposal.execution_time, 1000 + VOTING_PERIOD + EXECUTION_DELAY);

    // A proposer holding no sXLM is refused.
    assert_eq!(gov.create_proposal(VOTER, 0, 1000), Err(Error::Unauthorized));
}

#[test]
fn test_vote() {
    let mut gov = setup();
    let id = gov.create_proposal(PROPOSER, 50_0000000, 0).unwrap();

    gov.vote(VOTER, id, VoteChoice::For, 300_0000000, 10).unwrap();
    let proposal = gov.get_proposal_info(id).unwrap();
    assert_eq!(proposal.votes_for, 300_0000000);
    assert_eq!(proposal.votes_against, 0);

    let ballot = gov.get_user_vote(VOTER, id).unwrap();
    assert_eq!(ballot.voting_power, 300_0000000);
    assert_eq!(ballot.choice, VoteChoice::For);
}

#[test]
fn test_double_vote() {
    let mut gov = setup();
    let id = gov.create_proposal(PROPOSER, 50_0000000, 0).unwrap();
    gov.vote(VOTER, id, VoteChoice::For, 100, 10).unwrap();
    assert_eq!(
        gov.vote(VOTER, id, VoteChoice::Against, 100, 20),
        Err(Error::AlreadyVoted)
    );
}

#[test]
fn test_vote_against() {
    let mut gov = setup();
    let id = gov.create_proposal(PROPOSER, 50_0000000, 0).unwrap();
    gov.vote(VOTER, id, VoteChoice::Against, 200_0000000, 10).unwrap();
    let proposal = gov.get_proposal_info(id).unwrap();
    assert_eq!(proposal.votes_against, 200_0000000);

    // More against than for: the proposal fails at the close.
    gov.vote(VOTER2, id, VoteChoice::For, 100_0000000, 20).unwrap();
    gov.finalize_proposal(id, SUPPLY, VOTING_PERIOD + 1).unwrap();
    assert_eq!(gov.get_proposal_info(id).unwrap().status, ProposalStatus::Failed);
}

#[test]
fn test_finalize_passes_with_quorum() {
    let mut gov = setup();
    let id = gov.create_proposal(PROPOSER, 50_0000000, 0).unwrap();

    // Quorum is 10% of the supply; 300 of 1000 is enough.
    gov.vote(VOTER, id, VoteChoice::For, 300_0000000, 10).unwrap();
    gov.finalize_proposal(id, SUPPLY, VOTING_PERIOD + 1).unwrap();
    assert_eq!(gov.get_proposal_info(id).unwrap().status, ProposalStatus::Passed);
}

#[test]
fn test_finalize_fails_without_quorum() {
    let mut gov = setup();
    let id = gov.create_proposal(PROPOSER, 50_0000000, 0).unwrap();

    // 50 of 1000 misses the 10% quorum.
    gov.vote(VOTER, id, VoteChoice::For, 50_0000000, 10).unwrap();
    gov.finalize_proposal(id, SUPPLY, VOTING_PERIOD + 1).unwrap();
    assert_eq!(gov.get_proposal_info(id).unwrap().status, ProposalStatus::Failed);
}

#[test]
fn test_execute_too_early() {
    let mut gov = setup();
    let id = gov.create_proposal(PROPOSER, 50_0000000, 0).unwrap();
    gov.vote(VOTER, id, VoteChoice::For, 300_0000000, 10).unwrap();
    gov.finalize_proposal(id, SUPPLY, VOTING_PERIOD + 1).unwrap();

    // The execution delay has not elapsed yet.
    assert_eq!(
        gov.execute_proposal(ADMIN, id, VOTING_PERIOD + 2),
        Err(Error::ExecutionDelayNotMet)
    );

    gov.execute_proposal(ADMIN, id, VOTING_PERIOD + EXECUTION_DELAY).unwrap();
    let proposal = gov.get_proposal_info(id).unwrap();
    assert_eq!(proposal.status, ProposalStatus::Executed);
    assert!(proposal.executed);
}

#[test]
fn test_execute_failed_proposal() {
    let mut gov = setup();
    let id = gov.create_proposal(PROPOSER, 50_0000000, 0).unwrap();
    gov.finalize_proposal(id, SUPPLY, VOTING_PERIOD + 1).unwrap();
    assert_eq!(
        gov.execute_proposal(ADMIN, id, VOTING_PERIOD + EXECUTION_DELAY),
        Err(Error::ProposalNotPassed)
    );
}

#[test]
fn test_cancel_proposal() {
    let mut gov = setup();
    let id = gov.create_proposal(PROPOSER, 50_0000000, 0).unwrap();
    assert_eq!(gov.cancel_proposal(VOTER, id), Err(Error::Unauthorized));
    gov.cancel_proposal(ADMIN, id).unwrap();
    assert_eq!(gov.get_proposal_info(id).unwrap().status, ProposalStatus::Cancelled);
}

#[test]
fn test_active_proposals_and_stats() {
    let mut gov = setup();
    let id1 = gov.create_proposal(PROPOSER, 1, 0).unwrap();
    gov.create_proposal(PROPOSER, 1, 0).unwrap();
    gov.cancel_proposal(ADMIN, id1).unwrap();

    let active = gov.get_active_proposals();
    assert_eq!(active.len(), 1);
    let (total, n_active) = gov.get_stats();
    assert_eq!(total, 2);
    assert_eq!(n_active, 1);
}

#[test]
fn test_governance_error_paths() {
    let mut gov = setup();
    assert_eq!(
        gov.vote(VOTER, 9, VoteChoice::For, 10, 0),
        Err(Error::ProposalNotFound)
    );
    assert!(gov.get_proposal_info(9).is_err());

    let id = gov.create_proposal(PROPOSER, 1, 0).unwrap();
    assert_eq!(
        gov.vote(VOTER, id, VoteChoice::For, 10, VOTING_PERIOD + 1),
        Err(Error::VotingPeriodEnded)
    );
    assert_eq!(gov.vote(VOTER, id, VoteChoice::For, 0, 10), Err(Error::InvalidAmount));
    assert_eq!(
        gov.finalize_proposal(id, SUPPLY, VOTING_PERIOD),
        Err(Error::VotingPeriodNotEnded)
    );
    assert_eq!(gov.execute_proposal(VOTER, id, 0), Err(Error::Unauthorized));
    assert_eq!(
        gov.execute_proposal(ADMIN, id, u64::MAX),
        Err(Error::ProposalNotPassed)
    );

    gov.cancel_proposal(ADMIN, id).unwrap();
    assert_eq!(
        gov.vote(VOTER, id, VoteChoice::For, 10, 10),
        Err(Error::ProposalNotActive)
    );
}
