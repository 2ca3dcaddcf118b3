use vstd::prelude::*;

use crate::errors::EscrowError;
use crate::events::Event;
use crate::ledger::{payment, percentage_sum};
use crate::lifecycle::{
    accept_step, approve_step, cancel_step, complete_step, deposit_step, dispute_step, job_wf,
    lemma_steps_keep_job, new_job_step,
};
use crate::types::{Address, Job, JobStatus, JobView, Milestone, Transfer};

verus! {

/// The mathematical value of an `EscrowContract`.
pub struct EscrowView {
    /// The escrow's own account, which holds funds between deposit and payout.
    pub address: Address,
    /// The asset that every transfer moves, once configured.
    pub asset: Option<Address>,
    /// The job with id `i + 1` at position `i`.
    pub jobs: Seq<JobView>,
    /// Notifications not yet taken by the host, oldest first.
    pub events: Seq<Event>,
}

impl EscrowView {
    /// Job ids are their position plus one, every job is well formed, and a
    /// job that holds or has paid out escrowed funds implies a configured asset.
    pub open spec fn wf(self) -> bool {
        forall|i: int|
            0 <= i < self.jobs.len() ==> {
                &&& (#[trigger] self.jobs[i]).id == i + 1
                &&& job_wf(self.jobs[i])
                &&& (self.jobs[i].status == JobStatus::Funded || self.jobs[i].status
                    == JobStatus::Completed) ==> self.asset is Some
            }
    }

    pub open spec fn job(self, job_id: u64) -> Option<JobView> {
        if 1 <= job_id <= self.jobs.len() {
            Some(self.jobs[job_id - 1])
        } else {
            None
        }
    }

    pub open spec fn with_job(self, job_id: u64, j: JobView) -> EscrowView {
        EscrowView { jobs: self.jobs.update(job_id - 1, j), ..self }
    }

    pub open spec fn emit(self, e: Event) -> EscrowView {
        EscrowView { events: self.events.push(e), ..self }
    }

    /// Refuses an operation that would move funds, once every other check
    /// has passed, while no asset is configured.
    pub open spec fn with_asset(self, outcome: Result<EscrowView, EscrowError>) -> Result<
        EscrowView,
        EscrowError,
    > {
        if outcome is Ok && self.asset is None {
            Err(EscrowError::NotInitialized)
        } else {
            outcome
        }
    }

    /// Commits a job-level step on job `job_id` together with its event.
    pub open spec fn commit(
        self,
        job_id: u64,
        step: Result<JobView, EscrowError>,
        e: Event,
    ) -> Result<EscrowView, EscrowError> {
        match step {
            Ok(v) => Ok(self.with_job(job_id, v).emit(e)),
            Err(err) => Err(err),
        }
    }
}

pub open spec fn create_job_outcome(
    s: EscrowView,
    client: Address,
    budget: i128,
    ms: Seq<Milestone>,
    now: u64,
) -> Result<EscrowView, EscrowError> {
    let id = (s.jobs.len() + 1) as u64;
    match new_job_step(id, client, budget, ms, now) {
        Err(e) => Err(e),
        Ok(j) => Ok(
            EscrowView { jobs: s.jobs.push(j), ..s }.emit(Event::JobCreated { job_id: id, client }),
        ),
    }
}

pub open spec fn accept_job_outcome(s: EscrowView, job_id: u64, freelancer: Address) -> Result<
    EscrowView,
    EscrowError,
> {
    match s.job(job_id) {
        None => Err(EscrowError::JobNotFound),
        Some(j) => s.commit(
            job_id,
            accept_step(j, freelancer),
            Event::JobAccepted { job_id, freelancer },
        ),
    }
}

pub open spec fn deposit_funds_outcome(
    s: EscrowView,
    caller: Address,
    job_id: u64,
    amount: i128,
) -> Result<EscrowView, EscrowError> {
    s.with_asset(
        match s.job(job_id) {
            None => Err(EscrowError::JobNotFound),
            Some(j) => s.commit(
                job_id,
                deposit_step(j, caller, amount),
                Event::FundsDeposited { job_id, amount },
            ),
        },
    )
}

pub open spec fn complete_milestone_outcome(
    s: EscrowView,
    caller: Address,
    job_id: u64,
    milestone_id: u64,
) -> Result<EscrowView, EscrowError> {
    match s.job(job_id) {
        None => Err(EscrowError::JobNotFound),
        Some(j) => s.commit(
            job_id,
            complete_step(j, caller, milestone_id),
            Event::MilestoneCompleted { job_id, milestone_id },
        ),
    }
}

pub open spec fn approve_milestone_outcome(
    s: EscrowView,
    caller: Address,
    job_id: u64,
    milestone_id: u64,
) -> Result<EscrowView, EscrowError> {
    s.with_asset(
        match s.job(job_id) {
            None => Err(EscrowError::JobNotFound),
            Some(j) => s.commit(
                job_id,
                approve_step(j, caller, milestone_id),
                Event::MilestonePaid {
                    job_id,
                    milestone_id,
                    amount: payment(
                        j.budget as int,
                        j.milestones[milestone_id - 1].percentage as int,
                    ) as i128,
                },
            ),
        },
    )
}

pub open spec fn initiate_dispute_outcome(
    s: EscrowView,
    caller: Address,
    job_id: u64,
    reason: String,
) -> Result<EscrowView, EscrowError> {
    match s.job(job_id) {
        None => Err(EscrowError::JobNotFound),
        Some(j) => s.commit(
            job_id,
            dispute_step(j, caller),
            Event::DisputeInitiated { job_id, initiator: caller, reason },
        ),
    }
}

pub open spec fn cancel_job_outcome(s: EscrowView, caller: Address, job_id: u64) -> Result<
    EscrowView,
    EscrowError,
> {
    match s.job(job_id) {
        None => Err(EscrowError::JobNotFound),
        Some(j) => {
            let outcome = s.commit(
                job_id,
                cancel_step(j, caller),
                Event::JobCancelled { job_id, cancelled_by: caller },
            );
            if j.status == JobStatus::Funded {
                s.with_asset(outcome)
            } else {
                outcome
            }
        },
    }
}

/// `r` reports `outcome`: the escrow became what `outcome` gives on success
/// and did not change on failure.
pub open spec fn committed<T>(
    outcome: Result<EscrowView, EscrowError>,
    pre: EscrowView,
    post: EscrowView,
    r: Result<T, EscrowError>,
) -> bool {
    match outcome {
        Ok(s) => r is Ok && post == s,
        Err(e) => r is Err && r->Err_0 == e && post == pre,
    }
}

/// The job store and lifecycle engine of one escrow account.
pub struct EscrowContract {
    address: Address,
    asset: Option<Address>,
    jobs: Vec<Job>,
    events: Vec<Event>,
}

impl View for EscrowContract {
    type V = EscrowView;

    closed spec fn view(&self) -> EscrowView {
        EscrowView {
            address: self.address,
            asset: self.asset,
            jobs: self.jobs@.map_values(|j: Job| j@),
            events: self.events@,
        }
    }
}

proof fn lemma_job_replaced(pre: Seq<Job>, post: Seq<Job>, idx: int)
    requires
        0 <= idx < pre.len(),
        post == pre.update(idx, post[idx]),
    ensures
        post.map_values(|j: Job| j@) == pre.map_values(|j: Job| j@).update(idx, post[idx]@),
        post[idx] == pre[idx] ==> post == pre,
{
    assert(post.map_values(|j: Job| j@) =~= pre.map_values(|j: Job| j@).update(idx, post[idx]@));
    if post[idx] == pre[idx] {
        assert(post =~= pre);
    }
}

impl EscrowContract {
    /// An escrow held by account `address`, with no asset configured and no jobs.
    pub fn new(address: Address) -> (r: EscrowContract)
        ensures
            r@ == (EscrowView { address, asset: None, jobs: Seq::empty(), events: Seq::empty() }),
            r@.wf(),
    {
        let r = EscrowContract { address, asset: None, jobs: Vec::new(), events: Vec::new() };
        assert(r@.jobs =~= Seq::<JobView>::empty());
        r
    }
    /// The escrow's own account.
    pub fn address(&self) -> (r: Address)
        ensures
            r == self@.address,
    {
        self.address
    }

    /// The configured asset, if any.
    pub fn asset(&self) -> (r: Option<Address>)
        ensures
            r == self@.asset,
    {
        self.asset
    }

    /// Configures, once, the asset that every transfer moves.
    pub fn initialize(&mut self, asset: Address) -> (r: Result<(), EscrowError>)
        requires
            old(self)@.wf(),
        ensures
            final(self)@.wf(),
            old(self)@.asset is Some ==> r == Err::<(), EscrowError>(
                EscrowError::AlreadyInitialized,
            ) && final(self)@ == old(self)@,
            old(self)@.asset is None ==> r is Ok && final(self)@ == (EscrowView {
                asset: Some(asset),
                ..old(self)@
            }),
    {
        if self.asset.is_some() {
            return Err(EscrowError::AlreadyInitialized);
        }
        self.asset = Some(asset);
        Ok(())
    }

    fn index_of(&self, job_id: u64) -> (r: Option<usize>)
        requires
            self@.wf(),
        ensures
            self@.jobs.len() == self.jobs@.len(),
            self@.job(job_id) is None <==> r is None,
            r is Some ==> {
                let i = r->Some_0 as int;
                &&& i == job_id - 1
                &&& i < self.jobs@.len()
                &&& self@.job(job_id) == Some(self.jobs@[i]@)
                &&& self@.jobs[i] == self.jobs@[i]@
                &&& job_wf(self.jobs@[i]@)
                &&& self.jobs@[i]@.id == job_id
            },
    {
        if job_id == 0 || job_id > self.jobs.len() as u64 {
            None
        } else {
            let i = (job_id - 1) as usize;
            assert(self@.jobs[i as int] == self.jobs@[i as int]@);
            Some(i)
        }
    }

    /// The job with id `job_id`.
    pub fn get_job(&self, job_id: u64) -> (r: Result<&Job, EscrowError>)
        requires
            self@.wf(),
        ensures
            self@.job(job_id) is None ==> r is Err && r->Err_0 == EscrowError::JobNotFound,
            self@.job(job_id) is Some ==> r is Ok && (r->Ok_0)@ == self@.job(job_id)->Some_0,
    {
        match self.index_of(job_id) {
            None => Err(EscrowError::JobNotFound),
            Some(idx) => Ok(&self.jobs[idx]),
        }
    }

    /// Posts a job for `client` with the given budget and milestones, at
    /// time `now`. The milestones are numbered 1..N in the order given and
    /// start pending; the job gets the next id, starting at 1.
    pub fn create_job(
        &mut self,
        client: Address,
        budget: i128,
        milestones: Vec<Milestone>,
        now: u64,
    ) -> (r: Result<u64, EscrowError>)
        requires
            old(self)@.wf(),
            budget > 0,
            old(self)@.jobs.len() < u64::MAX,
        ensures
            final(self)@.wf(),
            committed(
                create_job_outcome(old(self)@, client, budget, milestones@, now),
                old(self)@,
                final(self)@,
                r,
            ),
            r is Ok ==> r->Ok_0 == old(self)@.jobs.len() + 1,
            r is Ok ==> percentage_sum(milestones@) == 100,
            milestones@.len() > 0 && percentage_sum(milestones@) != 100 ==> r == Err::<
                u64,
                EscrowError,
            >(EscrowError::InvalidMilestonePercentages),
    {
        let id = self.jobs.len() as u64 + 1;
        let job = match Job::new(id, client, budget, milestones, now) {
            Ok(job) => job,
            Err(e) => {
                return Err(e);
            },
        };
        let ghost pre = self.jobs@;
        self.jobs.push(job);
        proof {
            assert(self.jobs@.map_values(|j: Job| j@) =~= pre.map_values(|j: Job| j@).push(job@));
        }
        self.events.push(Event::JobCreated { job_id: id, client });
        Ok(id)
    }

    /// Assigns `freelancer` to open job `job_id`. Any caller may do so.
    pub fn accept_job(&mut self, job_id: u64, freelancer: Address) -> (r: Result<(), EscrowError>)
        requires
            old(self)@.wf(),
        ensures
            final(self)@.wf(),
            committed(accept_job_outcome(old(self)@, job_id, freelancer), old(self)@, final(self)@, r),
    {
        let idx = match self.index_of(job_id) {
            Some(i) => i,
            None => {
                return Err(EscrowError::JobNotFound);
            },
        };
        let ghost pre = self.jobs@;
        proof {
            lemma_steps_keep_job(pre[idx as int]@, freelancer, freelancer, 0, 0);
        }
        let r = self.jobs[idx].accept(freelancer);
        proof {
            lemma_job_replaced(pre, self.jobs@, idx as int);
        }
        if let Err(e) = r {
            return Err(e);
        }
        self.events.push(Event::JobAccepted { job_id, freelancer });
        Ok(())
    }

    /// The client `caller` escrows `amount`, which must be the budget of job
    /// `job_id`. On success the host must carry out the returned transfer
    /// from the client to the escrow, or abandon the operation.
    pub fn deposit_funds(&mut self, caller: Address, job_id: u64, amount: i128) -> (r: Result<
        Transfer,
        EscrowError,
    >)
        requires
            old(self)@.wf(),
        ensures
            final(self)@.wf(),
            committed(
                deposit_funds_outcome(old(self)@, caller, job_id, amount),
                old(self)@,
                final(self)@,
                r,
            ),
            r is Ok ==> r->Ok_0 == (Transfer {
                asset: old(self)@.asset->Some_0,
                from: caller,
                to: old(self)@.address,
                amount: old(self)@.job(job_id)->Some_0.budget,
            }),
    {
        let idx = match self.index_of(job_id) {
            Some(i) => i,
            None => {
                return Err(EscrowError::JobNotFound);
            },
        };
        if let Err(e) = self.jobs[idx].check_fund(caller, amount) {
            return Err(e);
        }
        let asset = match self.asset {
            Some(a) => a,
            None => {
                return Err(EscrowError::NotInitialized);
            },
        };
        let ghost pre = self.jobs@;
        proof {
            lemma_steps_keep_job(pre[idx as int]@, caller, caller, amount, 0);
        }
        let r = self.jobs[idx].fund(caller, amount);
        proof {
            lemma_job_replaced(pre, self.jobs@, idx as int);
        }
        if let Err(e) = r {
            return Err(e);
        }
        self.events.push(Event::FundsDeposited { job_id, amount });
        Ok(Transfer { asset, from: caller, to: self.address, amount })
    }

    /// The freelancer `caller` delivers milestone `milestone_id` of job `job_id`.
    pub fn complete_milestone(&mut self, caller: Address, job_id: u64, milestone_id: u64) -> (r:
        Result<(), EscrowError>)
        requires
            old(self)@.wf(),
        ensures
            final(self)@.wf(),
            committed(
                complete_milestone_outcome(old(self)@, caller, job_id, milestone_id),
                old(self)@,
                final(self)@,
                r,
            ),
    {
        let idx = match self.index_of(job_id) {
            Some(i) => i,
            None => {
                return Err(EscrowError::JobNotFound);
            },
        };
        let ghost pre = self.jobs@;
        proof {
            lemma_steps_keep_job(pre[idx as int]@, caller, caller, 0, milestone_id);
        }
        let r = self.jobs[idx].complete_milestone(caller, milestone_id);
        proof {
            lemma_job_replaced(pre, self.jobs@, idx as int);
        }
        if let Err(e) = r {
            return Err(e);
        }
        self.events.push(Event::MilestoneCompleted { job_id, milestone_id });
        Ok(())
    }

    /// The client `caller` approves delivered milestone `milestone_id` of job
    /// `job_id`; the job completes once every milestone is paid. On success
    /// the host must carry out the returned payment from the escrow to the
    /// freelancer, or abandon the operation.
    pub fn approve_milestone(&mut self, caller: Address, job_id: u64, milestone_id: u64) -> (r:
        Result<Transfer, EscrowError>)
        requires
            old(self)@.wf(),
        ensures
            final(self)@.wf(),
            committed(
                approve_milestone_outcome(old(self)@, caller, job_id, milestone_id),
                old(self)@,
                final(self)@,
                r,
            ),
            r is Ok ==> {
                let j = old(self)@.job(job_id)->Some_0;
                r->Ok_0 == (Transfer {
                    asset: old(self)@.asset->Some_0,
                    from: old(self)@.address,
                    to: j.freelancer->Some_0,
                    amount: payment(
                        j.budget as int,
                        j.milestones[milestone_id - 1].percentage as int,
                    ) as i128,
                })
            },
    {
        let idx = match self.index_of(job_id) {
            Some(i) => i,
            None => {
                return Err(EscrowError::JobNotFound);
            },
        };
        if let Err(e) = self.jobs[idx].check_approve(caller, milestone_id) {
            return Err(e);
        }
        let asset = match self.asset {
            Some(a) => a,
            None => {
                return Err(EscrowError::NotInitialized);
            },
        };
        let ghost pre = self.jobs@;
        proof {
            lemma_steps_keep_job(pre[idx as int]@, caller, caller, 0, milestone_id);
        }
        let r = self.jobs[idx].approve_milestone(caller, milestone_id);
        proof {
            lemma_job_replaced(pre, self.jobs@, idx as int);
        }
        let amount = match r {
            Ok(a) => a,
            Err(e) => {
                return Err(e);
            },
        };
        let freelancer = self.jobs[idx].freelancer.unwrap();
        self.events.push(Event::MilestonePaid { job_id, milestone_id, amount });
        Ok(Transfer { asset, from: self.address, to: freelancer, amount })
    }

    /// The client or the freelancer `caller` flags job `job_id` as disputed.
    pub fn initiate_dispute(&mut self, caller: Address, job_id: u64, reason: String) -> (r: Result<
        (),
        EscrowError,
    >)
        requires
            old(self)@.wf(),
        ensures
            final(self)@.wf(),
            committed(
                initiate_dispute_outcome(old(self)@, caller, job_id, reason),
                old(self)@,
                final(self)@,
                r,
            ),
    {
        let idx = match self.index_of(job_id) {
            Some(i) => i,
            None => {
                return Err(EscrowError::JobNotFound);
            },
        };
        let ghost pre = self.jobs@;
        proof {
            lemma_steps_keep_job(pre[idx as int]@, caller, caller, 0, 0);
        }
        let r = self.jobs[idx].dispute(caller);
        proof {
            lemma_job_replaced(pre, self.jobs@, idx as int);
        }
        if let Err(e) = r {
            return Err(e);
        }
        self.events.push(Event::DisputeInitiated { job_id, initiator: caller, reason });
        Ok(())
    }

    /// `caller` cancels job `job_id`: an open job by its client, a funded job
    /// by either party. A funded job's whole budget goes back to the client
    /// through the returned transfer, which the host must carry out or
    /// abandon the operation; an open job moves no funds.
    pub fn cancel_job(&mut self, caller: Address, job_id: u64) -> (r: Result<
        Option<Transfer>,
        EscrowError,
    >)
        requires
            old(self)@.wf(),
        ensures
            final(self)@.wf(),
            committed(cancel_job_outcome(old(self)@, caller, job_id), old(self)@, final(self)@, r),
            r is Ok ==> {
                let j = old(self)@.job(job_id)->Some_0;
                &&& final(self)@.job(job_id)->Some_0.status == JobStatus::Cancelled
                &&& r->Ok_0 == if j.status == JobStatus::Funded {
                    Some(
                        Transfer {
                            asset: old(self)@.asset->Some_0,
                            from: old(self)@.address,
                            to: j.client,
                            amount: j.budget,
                        },
                    )
                } else {
                    None
                }
            },
    {
        let idx = match self.index_of(job_id) {
            Some(i) => i,
            None => {
                return Err(EscrowError::JobNotFound);
            },
        };
        if let Err(e) = self.jobs[idx].check_cancel(caller) {
            return Err(e);
        }
        let asset = if self.jobs[idx].status == JobStatus::Funded {
            match self.asset {
                Some(a) => Some(a),
                None => {
                    return Err(EscrowError::NotInitialized);
                },
            }
        } else {
            None
        };
        let ghost pre = self.jobs@;
        proof {
            lemma_steps_keep_job(pre[idx as int]@, caller, caller, 0, 0);
        }
        let r = self.jobs[idx].cancel(caller);
        proof {
            lemma_job_replaced(pre, self.jobs@, idx as int);
        }
        let refund = match r {
            Ok(refund) => refund,
            Err(e) => {
                return Err(e);
            },
        };
        let client = self.jobs[idx].client;
        self.events.push(Event::JobCancelled { job_id, cancelled_by: caller });
        match (refund, asset) {
            (Some(amount), Some(asset)) => Ok(
                Some(Transfer { asset, from: self.address, to: client, amount }),
            ),
            _ => Ok(None),
        }
    }

    /// Hands the host the notifications left by operations since the last
    /// call, oldest first.
    pub fn take_events(&mut self) -> (r: Vec<Event>)
        requires
            old(self)@.wf(),
        ensures
            final(self)@.wf(),
            r@ == old(self)@.events,
            final(self)@ == (EscrowView { events: Seq::empty(), ..old(self)@ }),
    {
        let mut out: Vec<Event> = Vec::new();
        std::mem::swap(&mut out, &mut self.events);
        out
    }
}

} // verus!
