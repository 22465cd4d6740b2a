use vstd::prelude::*;
use std::collections::HashMap;
use crate::errors::Error;
use crate::numbers::{AMOUNT_LIMIT, TIME_LIMIT};
use crate::seq_util::lemma_filter_take_step;

verus! {

broadcast use vstd::std_specs::hash::group_hash_axioms;

/// How long a proposal accepts votes, in seconds (seven days).
pub const VOTING_PERIOD: u64 = 604_800;

/// Wait between a proposal passing and its execution, in seconds (two
/// days).
pub const EXECUTION_DELAY: u64 = 172_800;

/// Share of the token supply that must vote for a proposal to count,
/// in percent.
pub const QUORUM_PERCENTAGE: i128 = 10;

/// Life of a proposal: open for votes, settled either way, carried
/// out, or withdrawn by the admin.
#[derive(Clone, Copy, Debug, PartialEq, Eq, Structural)]
pub enum ProposalStatus {
    Active,
    Passed,
    Failed,
    Executed,
    Cancelled,
}

/// The three ways to vote.
#[derive(Clone, Copy, Debug, PartialEq, Eq, Structural)]
pub enum VoteChoice {
    For,
    Against,
    Abstain,
}

/// One proposal and its tally. The title and description are metadata
/// the host keeps alongside; the engine tracks what the rules read.
#[derive(Clone, Copy, Debug, PartialEq, Eq, Structural)]
pub struct Proposal {
    /// Position in the proposal list; ids are handed out sequentially.
    pub id: u64,
    /// Account that raised it.
    pub proposer: u64,
    /// Where it stands.
    pub status: ProposalStatus,
    /// Voting power cast for it.
    pub votes_for: i128,
    /// Voting power cast against it.
    pub votes_against: i128,
    /// Voting power cast in abstention.
    pub votes_abstain: i128,
    /// When it was raised.
    pub created_at: u64,
    /// When voting closes.
    pub voting_ends_at: u64,
    /// Earliest time a passed proposal may be executed.
    pub execution_time: u64,
    /// Whether it has been carried out.
    pub executed: bool,
}

/// One recorded vote.
#[derive(Clone, Copy, Debug, PartialEq, Eq, Structural)]
pub struct Vote {
    pub voter: u64,
    pub proposal_id: u64,
    pub choice: VoteChoice,
    pub voting_power: i128,
    pub timestamp: u64,
}

/// A voter–proposal pair packed into one map key: the voter in the
/// high 64 bits. The sum never reaches 2^128, so the narrowing loses
/// nothing.
pub open spec fn spec_vote_key(voter: u64, proposal_id: u64) -> u128 {
    ((voter as int) * (crate::token::KEY_SCALE as int) + (proposal_id as int)) as u128
}

/// Whether a closed tally carries the proposal: the turnout reaches
/// the quorum share of the token supply, and strictly more power was
/// for than against.
pub open spec fn spec_proposal_passes(p: Proposal, total_supply: int) -> bool {
    let quorum = total_supply * QUORUM_PERCENTAGE / 100;
    &&& p.votes_for + p.votes_against + p.votes_abstain >= quorum
    &&& p.votes_for > p.votes_against
}

/// The governance engine: proposals, their tallies, and who has voted.
/// Voting power is the voter's sXLM balance, read by the host from the
/// token and passed in. Pure state: the host authenticates every
/// caller.
#[derive(Clone, Debug)]
pub struct Governance {
    /// Principal allowed to execute and cancel proposals.
    pub admin: u64,
    /// All proposals ever raised, indexed by their id.
    pub proposals: Vec<Proposal>,
    /// Each cast vote, keyed by `spec_vote_key`.
    pub votes: HashMap<u128, Vote>,
}

impl Governance {
    /// Every proposal sits at the index its id names, with
    /// non-negative, capped tallies.
    pub open spec fn wf(self) -> bool {
        forall|i: int|
            0 <= i < self.proposals@.len() ==> {
                let p = #[trigger] self.proposals@[i];
                &&& p.id == i
                &&& 0 <= p.votes_for <= AMOUNT_LIMIT
                &&& 0 <= p.votes_against <= AMOUNT_LIMIT
                &&& 0 <= p.votes_abstain <= AMOUNT_LIMIT
            }
    }

    /// Whether `voter` has already voted on `proposal_id`.
    pub open spec fn spec_has_voted(self, voter: u64, proposal_id: u64) -> bool {
        self.votes@.contains_key(spec_vote_key(voter, proposal_id))
    }

    /// Fresh engine with no proposals.
    pub fn initialize(admin: u64) -> (g: Governance)
        ensures
            g.wf(),
            g.admin == admin,
            g.proposals@ == Seq::<Proposal>::empty(),
            g.votes@ == Map::<u128, Vote>::empty(),
    {
        Governance { admin, proposals: Vec::new(), votes: HashMap::new() }
    }

    /// Raise a proposal; returns its id. Voting runs one voting period
    /// from `now`, and execution waits one delay beyond that. Fails
    /// with `Unauthorized` iff the proposer holds no sXLM (their
    /// balance is read by the host and passed in).
    pub fn create_proposal(&mut self, proposer: u64, proposer_balance: i128, now: u64) -> (r:
        Result<u64, Error>)
        requires
            old(self).wf(),
            now <= TIME_LIMIT,
        ensures
            final(self).wf(),
            final(self).admin == old(self).admin,
            r == (if proposer_balance == 0 {
                Err::<u64, Error>(Error::Unauthorized)
            } else {
                Ok::<u64, Error>(old(self).proposals@.len() as u64)
            }),
            r is Err ==> *final(self) == *old(self),
            r matches Ok(id) ==> {
                &&& final(self).proposals@ == old(self).proposals@.push(
                    Proposal {
                        id,
                        proposer,
                        status: ProposalStatus::Active,
                        votes_for: 0,
                        votes_against: 0,
                        votes_abstain: 0,
                        created_at: now,
                        voting_ends_at: (now + VOTING_PERIOD) as u64,
                        execution_time: (now + VOTING_PERIOD + EXECUTION_DELAY) as u64,
                        executed: false,
                    },
                )
                &&& final(self).votes@ == old(self).votes@
            },
    {
        if proposer_balance == 0 {
            return Err(Error::Unauthorized);
        }
        let id: u64 = self.proposals.len() as u64;
        let proposal = Proposal {
            id,
            proposer,
            status: ProposalStatus::Active,
            votes_for: 0,
            votes_against: 0,
            votes_abstain: 0,
            created_at: now,
            voting_ends_at: now + VOTING_PERIOD,
            execution_time: now + VOTING_PERIOD + EXECUTION_DELAY,
            executed: false,
        };
        self.proposals.push(proposal);
        Ok(id)
    }

    /// Cast `voter`'s ballot with their sXLM balance as power (read by
    /// the host and passed in).
    ///
    /// Fails with `ProposalNotFound` iff no proposal has the id; with
    /// `ProposalNotActive` iff it is settled; with `VotingPeriodEnded`
    /// iff `now` is past the close; with `AlreadyVoted` iff the voter
    /// already voted on it; with `InvalidAmount` iff the power is zero.
    pub fn vote(
        &mut self,
        voter: u64,
        proposal_id: u64,
        choice: VoteChoice,
        voting_power: i128,
        now: u64,
    ) -> (r: Result<(), Error>)
        requires
            old(self).wf(),
            0 <= voting_power,
            proposal_id < old(self).proposals@.len() ==> {
                let p = old(self).proposals@[proposal_id as int];
                &&& p.votes_for + voting_power <= AMOUNT_LIMIT
                &&& p.votes_against + voting_power <= AMOUNT_LIMIT
                &&& p.votes_abstain + voting_power <= AMOUNT_LIMIT
            },
        ensures
            final(self).wf(),
            final(self).admin == old(self).admin,
            ({
                let p = old(self).proposals@[proposal_id as int];
                r == (if proposal_id >= old(self).proposals@.len() {
                    Err::<(), Error>(Error::ProposalNotFound)
                } else if p.status != ProposalStatus::Active {
                    Err::<(), Error>(Error::ProposalNotActive)
                } else if now > p.voting_ends_at {
                    Err::<(), Error>(Error::VotingPeriodEnded)
                } else if old(self).spec_has_voted(voter, proposal_id) {
                    Err::<(), Error>(Error::AlreadyVoted)
                } else if voting_power == 0 {
                    Err::<(), Error>(Error::InvalidAmount)
                } else {
                    Ok::<(), Error>(())
                })
            }),
            r is Err ==> *final(self) == *old(self),
            r is Ok ==> ({
                let p = old(self).proposals@[proposal_id as int];
                let tallied = (Proposal {
                    votes_for: if choice == VoteChoice::For {
                        (p.votes_for + voting_power) as i128
                    } else {
                        p.votes_for
                    },
                    votes_against: if choice == VoteChoice::Against {
                        (p.votes_against + voting_power) as i128
                    } else {
                        p.votes_against
                    },
                    votes_abstain: if choice == VoteChoice::Abstain {
                        (p.votes_abstain + voting_power) as i128
                    } else {
                        p.votes_abstain
                    },
                    ..p
                });
                &&& final(self).proposals@ == old(self).proposals@.update(
                    proposal_id as int,
                    tallied,
                )
                &&& final(self).votes@ == old(self).votes@.insert(
                    spec_vote_key(voter, proposal_id),
                    Vote { voter, proposal_id, choice, voting_power, timestamp: now },
                )
            }),
    {
        if proposal_id >= self.proposals.len() as u64 {
            return Err(Error::ProposalNotFound);
        }
        let idx = proposal_id as usize;
        let mut proposal = self.proposals[idx];
        if proposal.status != ProposalStatus::Active {
            return Err(Error::ProposalNotActive);
        }
        if now > proposal.voting_ends_at {
            return Err(Error::VotingPeriodEnded);
        }
        if self.has_voted(voter, proposal_id) {
            return Err(Error::AlreadyVoted);
        }
        if voting_power == 0 {
            return Err(Error::InvalidAmount);
        }
        let vote = Vote { voter, proposal_id, choice, voting_power, timestamp: now };
        let key = vote_key(voter, proposal_id);
        self.votes.insert(key, vote);
        match choice {
            VoteChoice::For => {
                proposal.votes_for = proposal.votes_for + voting_power;
            },
            VoteChoice::Against => {
                proposal.votes_against = proposal.votes_against + voting_power;
            },
            VoteChoice::Abstain => {
                proposal.votes_abstain = proposal.votes_abstain + voting_power;
            },
        }
        self.proposals[idx] = proposal;
        Ok(())
    }

    /// Settle a proposal once voting has closed: it passes iff the
    /// turnout reaches the quorum share of the token supply (read by
    /// the host and passed in) and more power was for than against.
    ///
    /// Fails with `ProposalNotFound` iff no proposal has the id; with
    /// `VotingPeriodNotEnded` iff `now` is not past the close; with
    /// `ProposalNotActive` iff it was already settled.
    pub fn finalize_proposal(&mut self, proposal_id: u64, total_supply: i128, now: u64) -> (r:
        Result<(), Error>)
        requires
            old(self).wf(),
            0 <= total_supply <= AMOUNT_LIMIT,
        ensures
            final(self).wf(),
            final(self).admin == old(self).admin,
            ({
                let p = old(self).proposals@[proposal_id as int];
                r == (if proposal_id >= old(self).proposals@.len() {
                    Err::<(), Error>(Error::ProposalNotFound)
                } else if now <= p.voting_ends_at {
                    Err::<(), Error>(Error::VotingPeriodNotEnded)
                } else if p.status != ProposalStatus::Active {
                    Err::<(), Error>(Error::ProposalNotActive)
                } else {
                    Ok::<(), Error>(())
                })
            }),
            r is Err ==> *final(self) == *old(self),
            r is Ok ==> ({
                let p = old(self).proposals@[proposal_id as int];
                let settled = (Proposal {
                    status: if spec_proposal_passes(p, total_supply as int) {
                        ProposalStatus::Passed
                    } else {
                        ProposalStatus::Failed
                    },
                    ..p
                });
                &&& final(self).proposals@ == old(self).proposals@.update(
                    proposal_id as int,
                    settled,
                )
                &&& final(self).votes@ == old(self).votes@
            }),
    {
        if proposal_id >= self.proposals.len() as u64 {
            return Err(Error::ProposalNotFound);
        }
        let idx = proposal_id as usize;
        let mut proposal = self.proposals[idx];
        if now <= proposal.voting_ends_at {
            return Err(Error::VotingPeriodNotEnded);
        }
        if proposal.status != ProposalStatus::Active {
            return Err(Error::ProposalNotActive);
        }
        proof {
            assert(0 <= total_supply * QUORUM_PERCENTAGE <= AMOUNT_LIMIT * QUORUM_PERCENTAGE)
                by (nonlinear_arith)
                requires
                    0 <= total_supply <= AMOUNT_LIMIT,
            ;
        }
        let quorum_needed: i128 = total_supply * QUORUM_PERCENTAGE / 100;
        let total_votes: i128 = proposal.votes_for + proposal.votes_against
            + proposal.votes_abstain;
        let passed = total_votes >= quorum_needed && proposal.votes_for > proposal.votes_against;
        proposal.status = if passed {
            ProposalStatus::Passed
        } else {
            ProposalStatus::Failed
        };
        self.proposals[idx] = proposal;
        Ok(())
    }

    /// Carry out a passed proposal. Fails with `Unauthorized` iff the
    /// caller is not the admin; with `ProposalNotFound` iff no proposal
    /// has the id; with `ProposalNotPassed` iff it did not pass; with
    /// `ExecutionDelayNotMet` iff `now` is before the execution time;
    /// with `ProposalAlreadyExecuted` iff it was already carried out.
    pub fn execute_proposal(&mut self, caller: u64, proposal_id: u64, now: u64) -> (r: Result<
        (),
        Error,
    >)
        requires
            old(self).wf(),
        ensures
            final(self).wf(),
            final(self).admin == old(self).admin,
            ({
                let p = old(self).proposals@[proposal_id as int];
                r == (if caller != old(self).admin {
                    Err::<(), Error>(Error::Unauthorized)
                } else if proposal_id >= old(self).proposals@.len() {
                    Err::<(), Error>(Error::ProposalNotFound)
                } else if p.status != ProposalStatus::Passed {
                    Err::<(), Error>(Error::ProposalNotPassed)
                } else if now < p.execution_time {
                    Err::<(), Error>(Error::ExecutionDelayNotMet)
                } else if p.executed {
                    Err::<(), Error>(Error::ProposalAlreadyExecuted)
                } else {
                    Ok::<(), Error>(())
                })
            }),
            r is Err ==> *final(self) == *old(self),
            r is Ok ==> {
                &&& final(self).proposals@ == old(self).proposals@.update(
                    proposal_id as int,
                    (Proposal {
                        status: ProposalStatus::Executed,
                        executed: true,
                        ..old(self).proposals@[proposal_id as int]
                    }),
                )
                &&& final(self).votes@ == old(self).votes@
            },
    {
        if caller != self.admin {
            return Err(Error::Unauthorized);
        }
        if proposal_id >= self.proposals.len() as u64 {
            return Err(Error::ProposalNotFound);
        }
        let idx = proposal_id as usize;
        let mut proposal = self.proposals[idx];
        if proposal.status != ProposalStatus::Passed {
            return Err(Error::ProposalNotPassed);
        }
        if now < proposal.execution_time {
            return Err(Error::ExecutionDelayNotMet);
        }
        if proposal.executed {
            return Err(Error::ProposalAlreadyExecuted);
        }
        proposal.executed = true;
        proposal.status = ProposalStatus::Executed;
        self.proposals[idx] = proposal;
        Ok(())
    }

    /// Withdraw a proposal, whatever its state. Fails with
    /// `Unauthorized` iff the caller is not the admin and with
    /// `ProposalNotFound` iff no proposal has the id.
    pub fn cancel_proposal(&mut self, caller: u64, proposal_id: u64) -> (r: Result<(), Error>)
        requires
            old(self).wf(),
        ensures
            final(self).wf(),
            final(self).admin == old(self).admin,
            r == (if caller != old(self).admin {
                Err::<(), Error>(Error::Unauthorized)
            } else if proposal_id >= old(self).proposals@.len() {
                Err::<(), Error>(Error::ProposalNotFound)
            } else {
                Ok::<(), Error>(())
            }),
            r is Err ==> *final(self) == *old(self),
            r is Ok ==> {
                &&& final(self).proposals@ == old(self).proposals@.update(
                    proposal_id as int,
                    (Proposal {
                        status: ProposalStatus::Cancelled,
                        ..old(self).proposals@[proposal_id as int]
                    }),
                )
                &&& final(self).votes@ == old(self).votes@
            },
    {
        if caller != self.admin {
            return Err(Error::Unauthorized);
        }
        if proposal_id >= self.proposals.len() as u64 {
            return Err(Error::ProposalNotFound);
        }
        let idx = proposal_id as usize;
        let mut proposal = self.proposals[idx];
        proposal.status = ProposalStatus::Cancelled;
        self.proposals[idx] = proposal;
        Ok(())
    }

    /// The proposal under `proposal_id`, or `ProposalNotFound`.
    pub fn get_proposal_info(&self, proposal_id: u64) -> (r: Result<Proposal, Error>)
        ensures
            r == (if proposal_id < self.proposals@.len() {
                Ok::<Proposal, Error>(self.proposals@[proposal_id as int])
            } else {
                Err::<Proposal, Error>(Error::ProposalNotFound)
            }),
    {
        if proposal_id < self.proposals.len() as u64 {
            Ok(self.proposals[proposal_id as usize])
        } else {
            Err(Error::ProposalNotFound)
        }
    }

    /// Every proposal still open for votes, in order.
    pub fn get_active_proposals(&self) -> (r: Vec<Proposal>)
        ensures
            r@ == self.proposals@.filter(|p: Proposal| p.status == ProposalStatus::Active),
    {
        let mut out: Vec<Proposal> = Vec::new();
        let mut i: usize = 0;
        proof {
            assert(self.proposals@.take(0int).filter(
                |p: Proposal| p.status == ProposalStatus::Active,
            ) =~= Seq::<Proposal>::empty());
        }
        while i < self.proposals.len()
            invariant
                i <= self.proposals@.len(),
                out@ == self.proposals@.take(i as int).filter(
                    |p: Proposal| p.status == ProposalStatus::Active,
                ),
            decreases self.proposals@.len() - i,
        {
            let proposal = self.proposals[i];
            proof {
                lemma_filter_take_step(
                    self.proposals@,
                    i as int,
                    |p: Proposal| p.status == ProposalStatus::Active,
                );
            }
            if proposal.status == ProposalStatus::Active {
                out.push(proposal);
            }
            i = i + 1;
        }
        proof {
            assert(self.proposals@.take(self.proposals@.len() as int) =~= self.proposals@);
        }
        out
    }

    /// The ballot `user` cast on `proposal_id`, if any.
    pub fn get_user_vote(&self, user: u64, proposal_id: u64) -> (r: Option<Vote>)
        ensures
            r == (if self.spec_has_voted(user, proposal_id) {
                Some(self.votes@[spec_vote_key(user, proposal_id)])
            } else {
                None::<Vote>
            }),
    {
        let key = vote_key(user, proposal_id);
        match self.votes.get(&key) {
            Some(v) => Some(*v),
            None => None,
        }
    }

    /// How many proposals were ever raised, and how many are still
    /// open.
    pub fn get_stats(&self) -> (r: (u64, u64))
        ensures
            r.0 == self.proposals@.len(),
            r.1 == self.proposals@.filter(|p: Proposal| p.status == ProposalStatus::Active).len(),
    {
        let active = self.get_active_proposals();
        proof {
            vstd::prelude::Seq::lemma_filter_len(
                self.proposals@,
                |p: Proposal| p.status == ProposalStatus::Active,
            );
        }
        (self.proposals.len() as u64, active.len() as u64)
    }

    /// Whether `voter` has already voted on `proposal_id`.
    pub fn has_voted(&self, voter: u64, proposal_id: u64) -> (r: bool)
        ensures
            r == self.spec_has_voted(voter, proposal_id),
    {
        let key = vote_key(voter, proposal_id);
        self.votes.contains_key(&key)
    }
}

/// The packed vote key, computed without overflow.
fn vote_key(voter: u64, proposal_id: u64) -> (k: u128)
    ensures
        k == spec_vote_key(voter, proposal_id),
{
    proof {
        assert((voter as int) * (crate::token::KEY_SCALE as int) + (proposal_id as int)
            <= u128::MAX as int) by (nonlinear_arith)
            requires
                0 <= voter as int <= 0xffff_ffff_ffff_ffff as int,
                0 <= proposal_id as int <= 0xffff_ffff_ffff_ffff as int,
                crate::token::KEY_SCALE as int == 0x1_0000_0000_0000_0000 as int,
        ;
    }
    (voter as u128) * crate::token::KEY_SCALE + (proposal_id as u128)
}

} // verus!
