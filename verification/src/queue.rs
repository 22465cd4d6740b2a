use vstd::prelude::*;
use crate::errors::Error;
use crate::numbers::{AMOUNT_LIMIT, TIME_LIMIT};
use crate::seq_util::lemma_filter_take_step;

verus! {

/// Unbonding wait between a queued withdrawal and its claim, in
/// seconds (seven days).
pub const UNBONDING_PERIOD: u64 = 604_800;

/// Life of a withdrawal request: enqueued, cleared for payout, paid
/// out, or abandoned by its owner before clearance.
#[derive(Clone, Copy, Debug, PartialEq, Eq, Structural)]
pub enum WithdrawalStatus {
    Pending,
    Ready,
    Claimed,
    Cancelled,
}

/// One queued withdrawal: who gets how much XLM, and when it unlocks.
#[derive(Clone, Copy, Debug, PartialEq, Eq, Structural)]
pub struct WithdrawalRequest {
    /// Position in the queue; ids are handed out sequentially.
    pub id: u64,
    /// Account the payout belongs to.
    pub user: u64,
    /// XLM owed.
    pub xlm_amount: i128,
    /// Where the request stands.
    pub status: WithdrawalStatus,
    /// When it was enqueued.
    pub created_at: u64,
    /// When the unbonding wait ends.
    pub unlock_time: u64,
}

/// The delayed-withdrawal queue: requests the staking pool could not
/// pay out instantly, waiting out the unbonding period. Pure state:
/// the host authenticates callers and performs the payout a claim
/// reports.
#[derive(Clone, Debug)]
pub struct WithdrawalQueue {
    /// Principal allowed to mark requests ready.
    pub admin: u64,
    /// The only principal allowed to enqueue (the staking pool).
    pub staking_pool: u64,
    /// All requests ever made, indexed by their id.
    pub requests: Vec<WithdrawalRequest>,
}

impl WithdrawalQueue {
    /// Every request sits at the index its id names and carries a
    /// positive, capped amount.
    pub open spec fn wf(self) -> bool {
        forall|i: int|
            0 <= i < self.requests@.len() ==> {
                let r = #[trigger] self.requests@[i];
                &&& r.id == i
                &&& 0 < r.xlm_amount <= AMOUNT_LIMIT
            }
    }

    /// Fresh, empty queue.
    pub fn initialize(admin: u64, staking_pool: u64) -> (q: WithdrawalQueue)
        ensures
            q.wf(),
            q.admin == admin,
            q.staking_pool == staking_pool,
            q.requests@ == Seq::<WithdrawalRequest>::empty(),
    {
        WithdrawalQueue { admin, staking_pool, requests: Vec::new() }
    }

    /// Append a request for `user`, unlocking one unbonding period from
    /// `now`; returns its id. Fails with `Unauthorized` iff the caller
    /// is not the staking pool, and with `InvalidAmount` iff the amount
    /// is not positive.
    pub fn enqueue(&mut self, caller: u64, user: u64, xlm_amount: i128, now: u64) -> (r: Result<
        u64,
        Error,
    >)
        requires
            old(self).wf(),
            xlm_amount <= AMOUNT_LIMIT,
            now <= TIME_LIMIT,
        ensures
            final(self).wf(),
            final(self).admin == old(self).admin,
            final(self).staking_pool == old(self).staking_pool,
            r == (if caller != old(self).staking_pool {
                Err::<u64, Error>(Error::Unauthorized)
            } else if xlm_amount <= 0 {
                Err::<u64, Error>(Error::InvalidAmount)
            } else {
                Ok::<u64, Error>(old(self).requests@.len() as u64)
            }),
            r is Err ==> *final(self) == *old(self),
            r matches Ok(id) ==> final(self).requests@ == old(self).requests@.push(
                WithdrawalRequest {
                    id,
                    user,
                    xlm_amount,
                    status: WithdrawalStatus::Pending,
                    created_at: now,
                    unlock_time: (now + UNBONDING_PERIOD) as u64,
                },
            ),
    {
        if caller != self.staking_pool {
            return Err(Error::Unauthorized);
        }
        if xlm_amount <= 0 {
            return Err(Error::InvalidAmount);
        }
        let id: u64 = self.requests.len() as u64;
        let request = WithdrawalRequest {
            id,
            user,
            xlm_amount,
            status: WithdrawalStatus::Pending,
            created_at: now,
            unlock_time: now + UNBONDING_PERIOD,
        };
        self.requests.push(request);
        Ok(id)
    }

    /// Clear a pending request for payout. Fails with `Unauthorized`
    /// iff the caller is not the admin, with `RequestNotFound` iff no
    /// request has the id, and with `InvalidStatus` iff the request is
    /// not pending.
    pub fn mark_ready(&mut self, caller: u64, request_id: u64) -> (r: Result<(), Error>)
        requires
            old(self).wf(),
        ensures
            final(self).wf(),
            final(self).admin == old(self).admin,
            final(self).staking_pool == old(self).staking_pool,
            r == (if caller != old(self).admin {
                Err::<(), Error>(Error::Unauthorized)
            } else if request_id >= old(self).requests@.len() {
                Err::<(), Error>(Error::RequestNotFound)
            } else if old(self).requests@[request_id as int].status != WithdrawalStatus::Pending {
                Err::<(), Error>(Error::InvalidStatus)
            } else {
                Ok::<(), Error>(())
            }),
            r is Err ==> *final(self) == *old(self),
            r is Ok ==> final(self).requests@ == old(self).requests@.update(
                request_id as int,
                (WithdrawalRequest {
                    status: WithdrawalStatus::Ready,
                    ..old(self).requests@[request_id as int]
                }),
            ),
    {
        if caller != self.admin {
            return Err(Error::Unauthorized);
        }
        if request_id >= self.requests.len() as u64 {
            return Err(Error::RequestNotFound);
        }
        let idx = request_id as usize;
        let mut request = self.requests[idx];
        if request.status != WithdrawalStatus::Pending {
            return Err(Error::InvalidStatus);
        }
        request.status = WithdrawalStatus::Ready;
        self.requests[idx] = request;
        Ok(())
    }

    /// Pay out a ready request whose unbonding wait has elapsed;
    /// returns the XLM amount the host must transfer to the request's
    /// user (whom the host has authenticated). Fails with
    /// `RequestNotFound` iff no request has the id, with
    /// `NotReadyToClaim` iff the request is not ready, and with
    /// `StillLocked` iff `now` is before the unlock time.
    pub fn claim(&mut self, request_id: u64, now: u64) -> (r: Result<i128, Error>)
        requires
            old(self).wf(),
        ensures
            final(self).wf(),
            final(self).admin == old(self).admin,
            final(self).staking_pool == old(self).staking_pool,
            r == (if request_id >= old(self).requests@.len() {
                Err::<i128, Error>(Error::RequestNotFound)
            } else if old(self).requests@[request_id as int].status != WithdrawalStatus::Ready {
                Err::<i128, Error>(Error::NotReadyToClaim)
            } else if now < old(self).requests@[request_id as int].unlock_time {
                Err::<i128, Error>(Error::StillLocked)
            } else {
                Ok::<i128, Error>(old(self).requests@[request_id as int].xlm_amount)
            }),
            r is Err ==> *final(self) == *old(self),
            r is Ok ==> final(self).requests@ == old(self).requests@.update(
                request_id as int,
                (WithdrawalRequest {
                    status: WithdrawalStatus::Claimed,
                    ..old(self).requests@[request_id as int]
                }),
            ),
    {
        if request_id >= self.requests.len() as u64 {
            return Err(Error::RequestNotFound);
        }
        let idx = request_id as usize;
        let mut request = self.requests[idx];
        if request.status != WithdrawalStatus::Ready {
            return Err(Error::NotReadyToClaim);
        }
        if now < request.unlock_time {
            return Err(Error::StillLocked);
        }
        request.status = WithdrawalStatus::Claimed;
        self.requests[idx] = request;
        Ok(request.xlm_amount)
    }

    /// Abandon a pending request. The host authenticates the caller as
    /// the request's user; this fails with `Unauthorized` iff the
    /// caller is someone else, with `RequestNotFound` iff no request
    /// has the id, and with `CannotCancel` iff the request is no
    /// longer pending.
    pub fn cancel_withdrawal(&mut self, caller: u64, request_id: u64) -> (r: Result<(), Error>)
        requires
            old(self).wf(),
        ensures
            final(self).wf(),
            final(self).admin == old(self).admin,
            final(self).staking_pool == old(self).staking_pool,
            r == (if request_id >= old(self).requests@.len() {
                Err::<(), Error>(Error::RequestNotFound)
            } else if caller != old(self).requests@[request_id as int].user {
                Err::<(), Error>(Error::Unauthorized)
            } else if old(self).requests@[request_id as int].status != WithdrawalStatus::Pending {
                Err::<(), Error>(Error::CannotCancel)
            } else {
                Ok::<(), Error>(())
            }),
            r is Err ==> *final(self) == *old(self),
            r is Ok ==> final(self).requests@ == old(self).requests@.update(
                request_id as int,
                (WithdrawalRequest {
                    status: WithdrawalStatus::Cancelled,
                    ..old(self).requests@[request_id as int]
                }),
            ),
    {
        if request_id >= self.requests.len() as u64 {
            return Err(Error::RequestNotFound);
        }
        let idx = request_id as usize;
        let mut request = self.requests[idx];
        if caller != request.user {
            return Err(Error::Unauthorized);
        }
        if request.status != WithdrawalStatus::Pending {
            return Err(Error::CannotCancel);
        }
        request.status = WithdrawalStatus::Cancelled;
        self.requests[idx] = request;
        Ok(())
    }

    /// Clear every listed id that names a pending request; ids that
    /// name nothing, or requests past pending, are skipped. Fails with
    /// `Unauthorized` iff the caller is not the admin.
    pub fn batch_mark_ready(&mut self, caller: u64, request_ids: &Vec<u64>) -> (r: Result<
        (),
        Error,
    >)
        requires
            old(self).wf(),
        ensures
            final(self).wf(),
            final(self).admin == old(self).admin,
            final(self).staking_pool == old(self).staking_pool,
            r == (if caller != old(self).admin {
                Err::<(), Error>(Error::Unauthorized)
            } else {
                Ok::<(), Error>(())
            }),
            r is Err ==> *final(self) == *old(self),
            r is Ok ==> final(self).requests@.len() == old(self).requests@.len(),
            r is Ok ==> forall|j: int|
                0 <= j < old(self).requests@.len() ==> #[trigger] final(self).requests@[j] == (
                if request_ids@.contains(old(self).requests@[j].id) && old(
                    self,
                ).requests@[j].status == WithdrawalStatus::Pending {
                    WithdrawalRequest {
                        status: WithdrawalStatus::Ready,
                        ..old(self).requests@[j]
                    }
                } else {
                    old(self).requests@[j]
                }),
    {
        if caller != self.admin {
            return Err(Error::Unauthorized);
        }
        let mut k: usize = 0;
        while k < request_ids.len()
            invariant
                old(self).wf(),
                self.wf(),
                self.admin == old(self).admin,
                self.staking_pool == old(self).staking_pool,
                k <= request_ids@.len(),
                self.requests@.len() == old(self).requests@.len(),
                forall|j: int|
                    0 <= j < old(self).requests@.len() ==> #[trigger] self.requests@[j] == (
                    if (exists|m: int|
                        0 <= m < k && request_ids@[m] == old(self).requests@[j].id) && old(
                        self,
                    ).requests@[j].status == WithdrawalStatus::Pending {
                        WithdrawalRequest {
                            status: WithdrawalStatus::Ready,
                            ..old(self).requests@[j]
                        }
                    } else {
                        old(self).requests@[j]
                    }),
            decreases request_ids@.len() - k,
        {
            let id = request_ids[k];
            if id < self.requests.len() as u64 {
                let idx = id as usize;
                let mut request = self.requests[idx];
                if request.status == WithdrawalStatus::Pending {
                    request.status = WithdrawalStatus::Ready;
                    self.requests[idx] = request;
                }
            }
            k = k + 1;
        }
        Ok(())
    }

    /// The request under `request_id`, if any.
    pub fn get_request(&self, request_id: u64) -> (r: Option<WithdrawalRequest>)
        ensures
            r == (if request_id < self.requests@.len() {
                Some(self.requests@[request_id as int])
            } else {
                None::<WithdrawalRequest>
            }),
    {
        if request_id < self.requests.len() as u64 {
            Some(self.requests[request_id as usize])
        } else {
            None
        }
    }

    /// Every request belonging to `user`, in queue order.
    pub fn get_user_requests(&self, user: u64) -> (r: Vec<WithdrawalRequest>)
        ensures
            r@ == self.requests@.filter(|q: WithdrawalRequest| q.user == user),
    {
        let mut out: Vec<WithdrawalRequest> = Vec::new();
        let mut i: usize = 0;
        proof {
            assert(self.requests@.take(0int).filter(|q: WithdrawalRequest| q.user == user)
                =~= Seq::<WithdrawalRequest>::empty());
        }
        while i < self.requests.len()
            invariant
                i <= self.requests@.len(),
                out@ == self.requests@.take(i as int).filter(
                    |q: WithdrawalRequest| q.user == user,
                ),
            decreases self.requests@.len() - i,
        {
            let request = self.requests[i];
            proof {
                lemma_filter_take_step(self.requests@, i as int, |q: WithdrawalRequest| q.user == user);
            }
            if request.user == user {
                out.push(request);
            }
            i = i + 1;
        }
        proof {
            assert(self.requests@.take(self.requests@.len() as int) =~= self.requests@);
        }
        out
    }

    /// Every request still pending, in queue order.
    pub fn get_pending_requests(&self) -> (r: Vec<WithdrawalRequest>)
        ensures
            r@ == self.requests@.filter(
                |q: WithdrawalRequest| q.status == WithdrawalStatus::Pending,
            ),
    {
        let mut out: Vec<WithdrawalRequest> = Vec::new();
        let mut i: usize = 0;
        proof {
            assert(self.requests@.take(0int).filter(
                |q: WithdrawalRequest| q.status == WithdrawalStatus::Pending,
            ) =~= Seq::<WithdrawalRequest>::empty());
        }
        while i < self.requests.len()
            invariant
                i <= self.requests@.len(),
                out@ == self.requests@.take(i as int).filter(
                    |q: WithdrawalRequest| q.status == WithdrawalStatus::Pending,
                ),
            decreases self.requests@.len() - i,
        {
            let request = self.requests[i];
            proof {
                lemma_filter_take_step(
                    self.requests@,
                    i as int,
                    |q: WithdrawalRequest| q.status == WithdrawalStatus::Pending,
                );
            }
            if request.status == WithdrawalStatus::Pending {
                out.push(request);
            }
            i = i + 1;
        }
        proof {
            assert(self.requests@.take(self.requests@.len() as int) =~= self.requests@);
        }
        out
    }

    /// How many requests the queue has ever taken.
    pub fn get_queue_size(&self) -> (r: usize)
        ensures
            r == self.requests@.len(),
    {
        self.requests.len()
    }
}

} // verus!
