use vstd::prelude::*;

use crate::errors::EscrowError;
use crate::ledger::{
    due_after, lemma_percentage_le_sum, lemma_percentage_sum_weights, payment, payment_for,
    percentage_sum, validate_due_dates, validate_percentages,
};
use crate::types::{Address, Job, JobStatus, JobView, Milestone, MilestoneStatus};

verus! {

/// A job as `create_job` makes it: a positive budget, a non-empty milestone
/// set weighing 100% in all, milestone ids numbered 1..N in order.
pub open spec fn job_wf(j: JobView) -> bool {
    &&& j.budget > 0
    &&& j.milestones.len() > 0
    &&& percentage_sum(j.milestones) == 100
    &&& forall|k: int|
        0 <= k < j.milestones.len() ==> (#[trigger] j.milestones[k]).id == k + 1
            && j.milestones[k].percentage <= 100
}

/// The milestones with the one at `idx` moved to status `st`.
pub open spec fn with_milestone_status(ms: Seq<Milestone>, idx: int, st: MilestoneStatus) -> Seq<
    Milestone,
> {
    ms.update(idx, Milestone { status: st, ..ms[idx] })
}

/// Every milestone has been paid.
pub open spec fn all_paid(ms: Seq<Milestone>) -> bool {
    forall|k: int| 0 <= k < ms.len() ==> (#[trigger] ms[k]).status == MilestoneStatus::Paid
}

/// The job has a milestone with id `milestone_id`.
pub open spec fn has_milestone(j: JobView, milestone_id: u64) -> bool {
    1 <= milestone_id <= j.milestones.len()
}

/// Assigning a freelancer to an open job. The caller is not checked.
pub open spec fn accept_step(j: JobView, freelancer: Address) -> Result<JobView, EscrowError> {
    if j.status != JobStatus::Open {
        Err(EscrowError::JobNotOpen)
    } else {
        Ok(JobView { status: JobStatus::InProgress, freelancer: Some(freelancer), ..j })
    }
}

/// The client escrowing exactly the budget of a job in progress.
pub open spec fn deposit_step(j: JobView, caller: Address, amount: i128) -> Result<
    JobView,
    EscrowError,
> {
    if caller != j.client {
        Err(EscrowError::Unauthorized)
    } else if j.status != JobStatus::InProgress {
        Err(EscrowError::InvalidJobStatus)
    } else if amount != j.budget {
        Err(EscrowError::InvalidAmount)
    } else {
        Ok(JobView { status: JobStatus::Funded, ..j })
    }
}

/// The freelancer marking a pending milestone of a funded job as delivered.
pub open spec fn complete_step(j: JobView, caller: Address, milestone_id: u64) -> Result<
    JobView,
    EscrowError,
> {
    if j.freelancer is None {
        Err(EscrowError::NoFreelancer)
    } else if j.freelancer != Some(caller) {
        Err(EscrowError::Unauthorized)
    } else if j.status != JobStatus::Funded {
        Err(EscrowError::InvalidJobStatus)
    } else if !has_milestone(j, milestone_id) {
        Err(EscrowError::MilestoneNotFound)
    } else if j.milestones[milestone_id - 1].status != MilestoneStatus::Pending {
        Err(EscrowError::InvalidMilestoneStatus)
    } else {
        Ok(
            JobView {
                milestones: with_milestone_status(
                    j.milestones,
                    milestone_id - 1,
                    MilestoneStatus::Completed,
                ),
                ..j
            },
        )
    }
}

/// The client accepting a delivered milestone of a funded job: it becomes
/// paid, and the job is completed once every milestone is paid.
pub open spec fn approve_step(j: JobView, caller: Address, milestone_id: u64) -> Result<
    JobView,
    EscrowError,
> {
    if caller != j.client {
        Err(EscrowError::Unauthorized)
    } else if j.status != JobStatus::Funded {
        Err(EscrowError::InvalidJobStatus)
    } else if j.freelancer is None {
        Err(EscrowError::NoFreelancer)
    } else if !has_milestone(j, milestone_id) {
        Err(EscrowError::MilestoneNotFound)
    } else if j.milestones[milestone_id - 1].status != MilestoneStatus::Completed {
        Err(EscrowError::InvalidMilestoneStatus)
    } else {
        let ms = with_milestone_status(j.milestones, milestone_id - 1, MilestoneStatus::Paid);
        Ok(
            JobView {
                milestones: ms,
                status: if all_paid(ms) {
                    JobStatus::Completed
                } else {
                    JobStatus::Funded
                },
                ..j
            },
        )
    }
}

/// Either party flagging a job in progress or funded as disputed.
pub open spec fn dispute_step(j: JobView, caller: Address) -> Result<JobView, EscrowError> {
    if j.freelancer is None {
        Err(EscrowError::NoFreelancer)
    } else if caller != j.client && j.freelancer != Some(caller) {
        Err(EscrowError::Unauthorized)
    } else if j.status != JobStatus::InProgress && j.status != JobStatus::Funded {
        Err(EscrowError::InvalidJobStatus)
    } else {
        Ok(JobView { status: JobStatus::Disputed, ..j })
    }
}

/// Cancelling: an open job by its client, a funded job by either party.
pub open spec fn cancel_step(j: JobView, caller: Address) -> Result<JobView, EscrowError> {
    if j.status == JobStatus::Open {
        if caller != j.client {
            Err(EscrowError::Unauthorized)
        } else {
            Ok(JobView { status: JobStatus::Cancelled, ..j })
        }
    } else if j.status == JobStatus::Funded {
        if caller != j.client && j.freelancer != Some(caller) {
            Err(EscrowError::Unauthorized)
        } else {
            Ok(JobView { status: JobStatus::Cancelled, ..j })
        }
    } else {
        Err(EscrowError::InvalidJobStatus)
    }
}

/// `r` reports `step`, and the job changed to what `step` gives on success
/// and not at all on failure.
pub open spec fn step_taken<T>(step: Result<JobView, EscrowError>, pre: Job, post: Job, r: Result<
    T,
    EscrowError,
>) -> bool {
    match step {
        Ok(v) => r is Ok && post@ == v,
        Err(e) => r is Err && r->Err_0 == e && post == pre,
    }
}

/// Whether `step` succeeds, and if not, why.
pub open spec fn verdict(step: Result<JobView, EscrowError>) -> Result<(), EscrowError> {
    match step {
        Ok(_) => Ok(()),
        Err(e) => Err(e),
    }
}

/// A successful step leaves a well-formed job with the same id, client and
/// budget.
pub open spec fn keeps_job(j: JobView, step: Result<JobView, EscrowError>) -> bool {
    step is Ok ==> {
        let v = step->Ok_0;
        &&& job_wf(v)
        &&& v.id == j.id
        &&& v.client == j.client
        &&& v.budget == j.budget
    }
}

proof fn lemma_status_update_keeps_wf(j: JobView, idx: int, st: MilestoneStatus)
    requires
        job_wf(j),
        0 <= idx < j.milestones.len(),
    ensures
        job_wf(JobView { milestones: with_milestone_status(j.milestones, idx, st), ..j }),
        job_wf(
            JobView {
                milestones: with_milestone_status(j.milestones, idx, st),
                status: JobStatus::Completed,
                ..j
            },
        ),
        job_wf(
            JobView {
                milestones: with_milestone_status(j.milestones, idx, st),
                status: JobStatus::Funded,
                ..j
            },
        ),
{
    let ms = with_milestone_status(j.milestones, idx, st);
    assert forall|k: int| 0 <= k < ms.len() implies (#[trigger] ms[k]).percentage
        == j.milestones[k].percentage by {}
    lemma_percentage_sum_weights(ms, j.milestones);
    assert forall|k: int| 0 <= k < ms.len() implies (#[trigger] ms[k]).id == k + 1
        && ms[k].percentage <= 100 by {
        assert(j.milestones[k].id == k + 1);
    }
}

/// Every transition of a well-formed job leaves it well formed, with its
/// id, client and budget as they were.
pub proof fn lemma_steps_keep_job(
    j: JobView,
    caller: Address,
    freelancer: Address,
    amount: i128,
    milestone_id: u64,
)
    requires
        job_wf(j),
    ensures
        keeps_job(j, accept_step(j, freelancer)),
        keeps_job(j, deposit_step(j, caller, amount)),
        keeps_job(j, complete_step(j, caller, milestone_id)),
        keeps_job(j, approve_step(j, caller, milestone_id)),
        keeps_job(j, dispute_step(j, caller)),
        keeps_job(j, cancel_step(j, caller)),
{
    if has_milestone(j, milestone_id) {
        lemma_status_update_keeps_wf(j, milestone_id - 1, MilestoneStatus::Completed);
        lemma_status_update_keeps_wf(j, milestone_id - 1, MilestoneStatus::Paid);
    }
}

/// Why a milestone set is refused at creation, checked in this order.
pub open spec fn milestone_set_check(ms: Seq<Milestone>, now: u64) -> Result<(), EscrowError> {
    if ms.len() == 0 {
        Err(EscrowError::NoMilestones)
    } else if percentage_sum(ms) != 100 {
        Err(EscrowError::InvalidMilestonePercentages)
    } else if !due_after(ms, now) {
        Err(EscrowError::InvalidMilestoneDates)
    } else {
        Ok(())
    }
}

/// The milestones as stored: numbered 1..N in order, all pending.
pub open spec fn numbered(ms: Seq<Milestone>) -> Seq<Milestone> {
    Seq::new(
        ms.len(),
        |k: int| Milestone { id: (k + 1) as u64, status: MilestoneStatus::Pending, ..ms[k] },
    )
}

/// A job posted by `client` at time `now`, or why its milestones are refused.
pub open spec fn new_job_step(
    id: u64,
    client: Address,
    budget: i128,
    ms: Seq<Milestone>,
    now: u64,
) -> Result<JobView, EscrowError> {
    match milestone_set_check(ms, now) {
        Err(e) => Err(e),
        Ok(_) => Ok(
            JobView {
                id,
                client,
                freelancer: None,
                budget,
                status: JobStatus::Open,
                milestones: numbered(ms),
            },
        ),
    }
}

fn number_milestones(milestones: Vec<Milestone>) -> (r: Vec<Milestone>)
    ensures
        r@ == numbered(milestones@),
{
    let mut ms = milestones;
    let mut i: usize = 0;
    while i < ms.len()
        invariant
            0 <= i <= ms@.len(),
            ms@.len() == milestones@.len(),
            forall|k: int| 0 <= k < i ==> #[trigger] ms@[k] == numbered(milestones@)[k],
            forall|k: int| i <= k < ms@.len() ==> #[trigger] ms@[k] == milestones@[k],
        decreases ms@.len() - i,
    {
        ms[i].id = (i + 1) as u64;
        ms[i].status = MilestoneStatus::Pending;
        i = i + 1;
    }
    assert(ms@ =~= numbered(milestones@));
    ms
}

fn all_milestones_paid(ms: &Vec<Milestone>) -> (r: bool)
    ensures
        r == all_paid(ms@),
{
    let mut i: usize = 0;
    while i < ms.len()
        invariant
            0 <= i <= ms@.len(),
            forall|k: int| 0 <= k < i ==> (#[trigger] ms@[k]).status == MilestoneStatus::Paid,
        decreases ms@.len() - i,
    {
        if ms[i].status != MilestoneStatus::Paid {
            return false;
        }
        i = i + 1;
    }
    true
}

impl Job {
    /// Posts job `id` for `client` at time `now`: the milestones are
    /// numbered 1..N in the order given and start pending.
    pub fn new(id: u64, client: Address, budget: i128, milestones: Vec<Milestone>, now: u64) -> (r:
        Result<Job, EscrowError>)
        requires
            budget > 0,
        ensures
            match new_job_step(id, client, budget, milestones@, now) {
                Ok(v) => r is Ok && r->Ok_0@ == v && job_wf(v),
                Err(e) => r is Err && r->Err_0 == e,
            },
    {
        if milestones.len() == 0 {
            return Err(EscrowError::NoMilestones);
        }
        match validate_percentages(&milestones) {
            Ok(()) => {},
            Err(e) => {
                return Err(e);
            },
        }
        match validate_due_dates(&milestones, now) {
            Ok(()) => {},
            Err(e) => {
                return Err(e);
            },
        }
        let ghost given = milestones@;
        let ms = number_milestones(milestones);
        proof {
            assert forall|k: int| 0 <= k < ms@.len() implies (#[trigger] ms@[k]).percentage
                == given[k].percentage by {}
            lemma_percentage_sum_weights(ms@, given);
            assert forall|k: int| 0 <= k < ms@.len() implies (#[trigger] ms@[k]).percentage
                <= 100 by {
                lemma_percentage_le_sum(ms@, k);
            }
        }
        Ok(Job { id, client, freelancer: None, budget, status: JobStatus::Open, milestones: ms })
    }

    /// Whether this job is as `Job::new` makes it and the transitions keep it.
    pub fn is_well_formed(&self) -> (r: bool)
        ensures
            r == job_wf(self@),
    {
        if self.budget <= 0 || self.milestones.len() == 0 {
            return false;
        }
        match validate_percentages(&self.milestones) {
            Ok(()) => {},
            Err(_) => {
                return false;
            },
        }
        let mut i: usize = 0;
        while i < self.milestones.len()
            invariant
                0 <= i <= self.milestones@.len(),
                forall|k: int|
                    0 <= k < i ==> (#[trigger] self.milestones@[k]).id == k + 1
                        && self.milestones@[k].percentage <= 100,
            decreases self.milestones@.len() - i,
        {
            if self.milestones[i].id != i as u64 + 1 || self.milestones[i].percentage > 100 {
                assert(self@.milestones[i as int] == self.milestones@[i as int]);
                return false;
            }
            i = i + 1;
        }
        true
    }

    /// Assigns `freelancer` to this open job and starts it.
    pub fn accept(&mut self, freelancer: Address) -> (r: Result<(), EscrowError>)
        ensures
            step_taken(accept_step(old(self)@, freelancer), *old(self), *final(self), r),
    {
        if self.status != JobStatus::Open {
            return Err(EscrowError::JobNotOpen);
        }
        self.freelancer = Some(freelancer);
        self.status = JobStatus::InProgress;
        Ok(())
    }

    /// Whether `caller` may escrow `amount` for this job now, and if not, why.
    pub fn check_fund(&self, caller: Address, amount: i128) -> (r: Result<(), EscrowError>)
        ensures
            r == verdict(deposit_step(self@, caller, amount)),
    {
        if caller != self.client {
            return Err(EscrowError::Unauthorized);
        }
        if self.status != JobStatus::InProgress {
            return Err(EscrowError::InvalidJobStatus);
        }
        if amount != self.budget {
            return Err(EscrowError::InvalidAmount);
        }
        Ok(())
    }

    /// Records that `caller` escrowed `amount` for this job.
    pub fn fund(&mut self, caller: Address, amount: i128) -> (r: Result<(), EscrowError>)
        ensures
            step_taken(deposit_step(old(self)@, caller, amount), *old(self), *final(self), r),
    {
        if let Err(e) = self.check_fund(caller, amount) {
            return Err(e);
        }
        self.status = JobStatus::Funded;
        Ok(())
    }

    /// Marks milestone `milestone_id` as delivered by `caller`.
    pub fn complete_milestone(&mut self, caller: Address, milestone_id: u64) -> (r: Result<
        (),
        EscrowError,
    >)
        ensures
            step_taken(
                complete_step(old(self)@, caller, milestone_id),
                *old(self),
                *final(self),
                r,
            ),
    {
        match self.freelancer {
            None => {
                return Err(EscrowError::NoFreelancer);
            },
            Some(f) => {
                if caller != f {
                    return Err(EscrowError::Unauthorized);
                }
            },
        }
        if self.status != JobStatus::Funded {
            return Err(EscrowError::InvalidJobStatus);
        }
        if milestone_id == 0 || milestone_id > self.milestones.len() as u64 {
            return Err(EscrowError::MilestoneNotFound);
        }
        let idx = (milestone_id - 1) as usize;
        if self.milestones[idx].status != MilestoneStatus::Pending {
            return Err(EscrowError::InvalidMilestoneStatus);
        }
        self.milestones[idx].status = MilestoneStatus::Completed;
        assert(self.milestones@ =~= with_milestone_status(
            old(self).milestones@,
            idx as int,
            MilestoneStatus::Completed,
        ));
        Ok(())
    }
    /// Whether `caller` may approve milestone `milestone_id` now, and if not, why.
    pub fn check_approve(&self, caller: Address, milestone_id: u64) -> (r: Result<(), EscrowError>)
        ensures
            r == verdict(approve_step(self@, caller, milestone_id)),
    {
        if caller != self.client {
            return Err(EscrowError::Unauthorized);
        }
        if self.status != JobStatus::Funded {
            return Err(EscrowError::InvalidJobStatus);
        }
        if self.freelancer.is_none() {
            return Err(EscrowError::NoFreelancer);
        }
        if milestone_id == 0 || milestone_id > self.milestones.len() as u64 {
            return Err(EscrowError::MilestoneNotFound);
        }
        let idx = (milestone_id - 1) as usize;
        if self.milestones[idx].status != MilestoneStatus::Completed {
            return Err(EscrowError::InvalidMilestoneStatus);
        }
        Ok(())
    }

    /// Accepts delivered milestone `milestone_id` on behalf of `caller` and
    /// returns the amount it releases to the freelancer.
    pub fn approve_milestone(&mut self, caller: Address, milestone_id: u64) -> (r: Result<
        i128,
        EscrowError,
    >)
        requires
            job_wf(old(self)@),
        ensures
            step_taken(
                approve_step(old(self)@, caller, milestone_id),
                *old(self),
                *final(self),
                r,
            ),
            r is Ok ==> r->Ok_0 == payment(
                old(self).budget as int,
                old(self).milestones@[milestone_id - 1].percentage as int,
            ),
    {
        if caller != self.client {
            return Err(EscrowError::Unauthorized);
        }
        if self.status != JobStatus::Funded {
            return Err(EscrowError::InvalidJobStatus);
        }
        if self.freelancer.is_none() {
            return Err(EscrowError::NoFreelancer);
        }
        if milestone_id == 0 || milestone_id > self.milestones.len() as u64 {
            return Err(EscrowError::MilestoneNotFound);
        }
        let idx = (milestone_id - 1) as usize;
        if self.milestones[idx].status != MilestoneStatus::Completed {
            return Err(EscrowError::InvalidMilestoneStatus);
        }
        let amount = payment_for(self.budget, self.milestones[idx].percentage);
        self.milestones[idx].status = MilestoneStatus::Paid;
        assert(self.milestones@ =~= with_milestone_status(
            old(self).milestones@,
            idx as int,
            MilestoneStatus::Paid,
        ));
        if all_milestones_paid(&self.milestones) {
            self.status = JobStatus::Completed;
        }
        Ok(amount)
    }

    /// Flags this job as disputed on behalf of `caller`.
    pub fn dispute(&mut self, caller: Address) -> (r: Result<(), EscrowError>)
        ensures
            step_taken(dispute_step(old(self)@, caller), *old(self), *final(self), r),
    {
        match self.freelancer {
            None => {
                return Err(EscrowError::NoFreelancer);
            },
            Some(f) => {
                if caller != self.client && caller != f {
                    return Err(EscrowError::Unauthorized);
                }
            },
        }
        if self.status != JobStatus::InProgress && self.status != JobStatus::Funded {
            return Err(EscrowError::InvalidJobStatus);
        }
        self.status = JobStatus::Disputed;
        Ok(())
    }

    /// Whether `caller` may cancel this job now, and if not, why.
    pub fn check_cancel(&self, caller: Address) -> (r: Result<(), EscrowError>)
        ensures
            r == verdict(cancel_step(self@, caller)),
    {
        match self.status {
            JobStatus::Open => {
                if caller != self.client {
                    return Err(EscrowError::Unauthorized);
                }
            },
            JobStatus::Funded => {
                let is_freelancer = match self.freelancer {
                    Some(f) => caller == f,
                    None => false,
                };
                if caller != self.client && !is_freelancer {
                    return Err(EscrowError::Unauthorized);
                }
            },
            _ => {
                return Err(EscrowError::InvalidJobStatus);
            },
        }
        Ok(())
    }

    /// Cancels this job on behalf of `caller`, returning the amount to
    /// refund to the client: the whole budget if it was escrowed.
    pub fn cancel(&mut self, caller: Address) -> (r: Result<Option<i128>, EscrowError>)
        ensures
            step_taken(cancel_step(old(self)@, caller), *old(self), *final(self), r),
            r is Ok ==> r->Ok_0 == if old(self).status == JobStatus::Funded {
                Some(old(self).budget)
            } else {
                None
            },
    {
        if let Err(e) = self.check_cancel(caller) {
            return Err(e);
        }
        let refund = if self.status == JobStatus::Funded {
            Some(self.budget)
        } else {
            None
        };
        self.status = JobStatus::Cancelled;
        Ok(refund)
    }
}

} // verus!

verus! {

/// The transitions of the job lifecycle: `Open -> InProgress -> Funded ->
/// {Completed | Disputed | Cancelled}`, with `InProgress -> Disputed` and
/// `Open -> Cancelled`.
pub open spec fn status_edge(from: JobStatus, to: JobStatus) -> bool {
    ||| from == JobStatus::Open && to == JobStatus::InProgress
    ||| from == JobStatus::Open && to == JobStatus::Cancelled
    ||| from == JobStatus::InProgress && to == JobStatus::Funded
    ||| from == JobStatus::InProgress && to == JobStatus::Disputed
    ||| from == JobStatus::Funded && to == JobStatus::Completed
    ||| from == JobStatus::Funded && to == JobStatus::Disputed
    ||| from == JobStatus::Funded && to == JobStatus::Cancelled
}

/// A successful step keeps the job's status or moves it along one edge.
pub open spec fn advances(j: JobView, step: Result<JobView, EscrowError>) -> bool {
    step is Ok ==> step->Ok_0.status == j.status || status_edge(j.status, step->Ok_0.status)
}

/// Statuses only move along the lifecycle's edges; an operation attempted
/// by its rightful party from a status it does not start from is refused
/// for that status (a refused operation changes nothing: see the
/// operations of `EscrowContract`).
pub proof fn lemma_status_only_advances(
    j: JobView,
    caller: Address,
    freelancer: Address,
    amount: i128,
    milestone_id: u64,
)
    ensures
        advances(j, accept_step(j, freelancer)),
        advances(j, deposit_step(j, caller, amount)),
        advances(j, complete_step(j, caller, milestone_id)),
        advances(j, approve_step(j, caller, milestone_id)),
        advances(j, dispute_step(j, caller)),
        advances(j, cancel_step(j, caller)),
        j.status != JobStatus::Open ==> accept_step(j, freelancer) == Err::<JobView, EscrowError>(
            EscrowError::JobNotOpen,
        ),
        caller == j.client && j.status != JobStatus::InProgress ==> deposit_step(j, caller, amount)
            == Err::<JobView, EscrowError>(EscrowError::InvalidJobStatus),
        j.freelancer == Some(caller) && j.status != JobStatus::Funded ==> complete_step(
            j,
            caller,
            milestone_id,
        ) == Err::<JobView, EscrowError>(EscrowError::InvalidJobStatus),
        caller == j.client && j.status != JobStatus::Funded ==> approve_step(j, caller, milestone_id)
            == Err::<JobView, EscrowError>(EscrowError::InvalidJobStatus),
        j.freelancer is Some && (caller == j.client || j.freelancer == Some(caller)) && j.status
            != JobStatus::InProgress && j.status != JobStatus::Funded ==> dispute_step(j, caller)
            == Err::<JobView, EscrowError>(EscrowError::InvalidJobStatus),
        j.status != JobStatus::Open && j.status != JobStatus::Funded ==> cancel_step(j, caller)
            == Err::<JobView, EscrowError>(EscrowError::InvalidJobStatus),
{
}

/// Only the designated party may act: anyone but the client is refused a
/// deposit, an approval and the cancelling of an open job, and anyone but
/// the assigned freelancer is refused the completion of a milestone.
pub proof fn lemma_only_designated_role(
    j: JobView,
    caller: Address,
    amount: i128,
    milestone_id: u64,
)
    ensures
        caller != j.client ==> deposit_step(j, caller, amount) == Err::<JobView, EscrowError>(
            EscrowError::Unauthorized,
        ),
        caller != j.client ==> approve_step(j, caller, milestone_id) == Err::<
            JobView,
            EscrowError,
        >(EscrowError::Unauthorized),
        caller != j.client && j.status == JobStatus::Open ==> cancel_step(j, caller) == Err::<
            JobView,
            EscrowError,
        >(EscrowError::Unauthorized),
        j.freelancer is Some && j.freelancer != Some(caller) ==> complete_step(
            j,
            caller,
            milestone_id,
        ) == Err::<JobView, EscrowError>(EscrowError::Unauthorized),
{
}

/// Approving the milestones `ids` one after another, stopping at the first
/// refusal.
pub open spec fn approve_all(j: JobView, caller: Address, ids: Seq<u64>) -> Result<
    JobView,
    EscrowError,
>
    decreases ids.len(),
{
    if ids.len() == 0 {
        Ok(j)
    } else {
        match approve_step(j, caller, ids[0]) {
            Ok(v) => approve_all(v, caller, ids.drop_first()),
            Err(e) => Err(e),
        }
    }
}

proof fn lemma_approve_remaining(j: JobView, caller: Address, ids: Seq<u64>)
    requires
        job_wf(j),
        j.status == JobStatus::Funded,
        j.freelancer is Some,
        caller == j.client,
        ids.len() > 0,
        ids.no_duplicates(),
        forall|i: int|
            0 <= i < ids.len() ==> has_milestone(j, #[trigger] ids[i]) && j.milestones[ids[i]
                - 1].status == MilestoneStatus::Completed,
        forall|k: int|
            0 <= k < j.milestones.len() && !ids.contains((k + 1) as u64) ==> (#[trigger] j.milestones[k]).status
                == MilestoneStatus::Paid,
    ensures
        approve_all(j, caller, ids) is Ok,
        approve_all(j, caller, ids)->Ok_0.status == JobStatus::Completed,
        all_paid(approve_all(j, caller, ids)->Ok_0.milestones),
    decreases ids.len(),
{
    let first = ids[0];
    assert(has_milestone(j, first));
    let ms = with_milestone_status(j.milestones, first - 1, MilestoneStatus::Paid);
    lemma_status_update_keeps_wf(j, first - 1, MilestoneStatus::Paid);
    assert(approve_step(j, caller, first) is Ok);
    let rest = ids.drop_first();
    if ids.len() == 1 {
        assert forall|k: int| 0 <= k < ms.len() implies (#[trigger] ms[k]).status
            == MilestoneStatus::Paid by {
            if k != first - 1 {
                assert(j.milestones[k].id == k + 1);
                if ids.contains((k + 1) as u64) {
                    let i = choose|i: int| 0 <= i < ids.len() && ids[i] == (k + 1) as u64;
                    assert(i == 0);
                }
            }
        }
        assert(rest.len() == 0);
        let v = approve_step(j, caller, first)->Ok_0;
        assert(approve_all(v, caller, rest) == Ok::<JobView, EscrowError>(v));
    } else {
        let second = ids[1];
        assert(has_milestone(j, second));
        assert(second != first);
        assert(ms[second - 1].status == MilestoneStatus::Completed);
        let v = approve_step(j, caller, first)->Ok_0;
        assert(v.status == JobStatus::Funded);
        assert forall|i: int| 0 <= i < rest.len() implies has_milestone(v, #[trigger] rest[i])
            && v.milestones[rest[i] - 1].status == MilestoneStatus::Completed by {
            assert(rest[i] == ids[i + 1]);
            assert(ids[i + 1] != ids[0]);
        }
        assert forall|k: int|
            0 <= k < v.milestones.len() && !rest.contains((k + 1) as u64) implies (
            #[trigger] v.milestones[k]).status == MilestoneStatus::Paid by {
            if k != first - 1 {
                if ids.contains((k + 1) as u64) {
                    let i = choose|i: int| 0 <= i < ids.len() && ids[i] == (k + 1) as u64;
                    assert(j.milestones[k].id == k + 1);
                    if i > 0 {
                        assert(rest[i - 1] == ids[i]);
                    } else {
                        assert((k + 1) as u64 == first);
                    }
                }
            }
        }
        assert(rest.no_duplicates()) by {
            assert forall|a: int, b: int|
                0 <= a < rest.len() && 0 <= b < rest.len() && a != b implies rest[a]
                != rest[b] by {
                assert(rest[a] == ids[a + 1] && rest[b] == ids[b + 1]);
            }
        }
        lemma_approve_remaining(v, caller, rest);
        assert(approve_all(j, caller, ids) == approve_all(v, caller, rest));
    }
}

/// Once every milestone of a funded job has been delivered, the client
/// approving each of them exactly once, in any order, succeeds at every
/// step and leaves every milestone paid and the job completed.
pub proof fn lemma_approving_every_milestone_completes(
    j: JobView,
    caller: Address,
    order: Seq<u64>,
)
    requires
        job_wf(j),
        j.status == JobStatus::Funded,
        j.freelancer is Some,
        caller == j.client,
        forall|k: int|
            0 <= k < j.milestones.len() ==> (#[trigger] j.milestones[k]).status
                == MilestoneStatus::Completed,
        order.no_duplicates(),
        forall|i: int| 0 <= i < order.len() ==> has_milestone(j, #[trigger] order[i]),
        forall|k: int| 0 <= k < j.milestones.len() ==> order.contains(#[trigger] ((k + 1) as u64)),
    ensures
        approve_all(j, caller, order) is Ok,
        approve_all(j, caller, order)->Ok_0.status == JobStatus::Completed,
        all_paid(approve_all(j, caller, order)->Ok_0.milestones),
{
    assert(order.contains((0 + 1) as u64));
    assert forall|i: int| 0 <= i < order.len() implies has_milestone(j, #[trigger] order[i])
        && j.milestones[order[i] - 1].status == MilestoneStatus::Completed by {}
    assert forall|k: int|
        0 <= k < j.milestones.len() && !order.contains((k + 1) as u64) implies (
        #[trigger] j.milestones[k]).status == MilestoneStatus::Paid by {
        assert(order.contains((k + 1) as u64));
    }
    lemma_approve_remaining(j, caller, order);
}

} // verus!

verus! {

/// One lifecycle operation on a job, with its arguments.
pub enum Action {
    Accept { freelancer: Address },
    Deposit { caller: Address, amount: i128 },
    Complete { caller: Address, milestone_id: u64 },
    Approve { caller: Address, milestone_id: u64 },
    Dispute { caller: Address },
    Cancel { caller: Address },
}

/// What `a` does to job `j`.
pub open spec fn step(j: JobView, a: Action) -> Result<JobView, EscrowError> {
    match a {
        Action::Accept { freelancer } => accept_step(j, freelancer),
        Action::Deposit { caller, amount } => deposit_step(j, caller, amount),
        Action::Complete { caller, milestone_id } => complete_step(j, caller, milestone_id),
        Action::Approve { caller, milestone_id } => approve_step(j, caller, milestone_id),
        Action::Dispute { caller } => dispute_step(j, caller),
        Action::Cancel { caller } => cancel_step(j, caller),
    }
}

/// The job after attempting `actions` in turn; a refused action leaves it
/// as it was.
pub open spec fn run(j: JobView, actions: Seq<Action>) -> JobView
    decreases actions.len(),
{
    if actions.len() == 0 {
        j
    } else {
        let next = match step(j, actions[0]) {
            Ok(v) => v,
            Err(_) => j,
        };
        run(next, actions.drop_first())
    }
}

/// The statuses reachable from `from` along the lifecycle's edges, in any
/// number of steps.
pub open spec fn reaches(from: JobStatus, to: JobStatus) -> bool {
    from == to || match from {
        JobStatus::Open => true,
        JobStatus::InProgress => to != JobStatus::Open,
        JobStatus::Funded => to == JobStatus::Completed || to == JobStatus::Disputed || to
            == JobStatus::Cancelled,
        _ => false,
    }
}

/// The position of a milestone status in `Pending -> Completed -> Paid`.
pub open spec fn rank(s: MilestoneStatus) -> int {
    match s {
        MilestoneStatus::Pending => 0,
        MilestoneStatus::Completed => 1,
        MilestoneStatus::Paid => 2,
    }
}

/// `b` is `a` with some milestone statuses moved forward, and nothing else
/// changed.
pub open spec fn milestones_advance(a: Seq<Milestone>, b: Seq<Milestone>) -> bool {
    &&& a.len() == b.len()
    &&& forall|k: int|
        0 <= k < a.len() ==> #[trigger] b[k] == Milestone { status: b[k].status, ..a[k] } && rank(
            a[k].status,
        ) <= rank(b[k].status)
}

/// What stays fixed and what only moves forward from `j` to `r`.
pub open spec fn evolves_to(j: JobView, r: JobView) -> bool {
    &&& job_wf(r)
    &&& r.id == j.id
    &&& r.client == j.client
    &&& r.budget == j.budget
    &&& reaches(j.status, r.status)
    &&& milestones_advance(j.milestones, r.milestones)
}

proof fn lemma_step_evolves(j: JobView, a: Action)
    requires
        job_wf(j),
    ensures
        step(j, a) is Ok ==> evolves_to(j, step(j, a)->Ok_0),
{
    let (caller, freelancer, amount, milestone_id) = match a {
        Action::Accept { freelancer } => (freelancer, freelancer, 0i128, 0u64),
        Action::Deposit { caller, amount } => (caller, caller, amount, 0u64),
        Action::Complete { caller, milestone_id } => (caller, caller, 0i128, milestone_id),
        Action::Approve { caller, milestone_id } => (caller, caller, 0i128, milestone_id),
        Action::Dispute { caller } => (caller, caller, 0i128, 0u64),
        Action::Cancel { caller } => (caller, caller, 0i128, 0u64),
    };
    lemma_steps_keep_job(j, caller, freelancer, amount, milestone_id);
    lemma_status_only_advances(j, caller, freelancer, amount, milestone_id);
    if step(j, a) is Ok {
        let v = step(j, a)->Ok_0;
        assert(step(j, a) == match a {
            Action::Accept { .. } => accept_step(j, freelancer),
            Action::Deposit { .. } => deposit_step(j, caller, amount),
            Action::Complete { .. } => complete_step(j, caller, milestone_id),
            Action::Approve { .. } => approve_step(j, caller, milestone_id),
            Action::Dispute { .. } => dispute_step(j, caller),
            Action::Cancel { .. } => cancel_step(j, caller),
        });
        assert forall|k: int| 0 <= k < j.milestones.len() implies #[trigger] v.milestones[k]
            == Milestone { status: v.milestones[k].status, ..j.milestones[k] } && rank(
            j.milestones[k].status,
        ) <= rank(v.milestones[k].status) by {}
    }
}

/// Whatever operations are attempted on a well-formed job, and in whatever
/// order, its status only moves forward along the lifecycle's edges, each
/// milestone's status only moves forward along `Pending -> Completed ->
/// Paid`, and its id, client, budget and milestone ids, weights and
/// descriptions never change. (A refused operation changes nothing: see the
/// operations of `Job` and `EscrowContract`.)
pub proof fn lemma_lifecycle_only_advances(j: JobView, actions: Seq<Action>)
    requires
        job_wf(j),
    ensures
        evolves_to(j, run(j, actions)),
    decreases actions.len(),
{
    if actions.len() == 0 {
        assert(milestones_advance(j.milestones, j.milestones));
    } else {
        lemma_step_evolves(j, actions[0]);
        let next = match step(j, actions[0]) {
            Ok(v) => v,
            Err(_) => j,
        };
        assert(evolves_to(j, next)) by {
            if step(j, actions[0]) is Err {
                assert(milestones_advance(j.milestones, j.milestones));
            }
        }
        lemma_lifecycle_only_advances(next, actions.drop_first());
        let r = run(j, actions);
        assert(r == run(next, actions.drop_first()));
        assert forall|k: int| 0 <= k < j.milestones.len() implies #[trigger] r.milestones[k]
            == Milestone { status: r.milestones[k].status, ..j.milestones[k] } && rank(
            j.milestones[k].status,
        ) <= rank(r.milestones[k].status) by {
            assert(next.milestones[k] == Milestone {
                status: next.milestones[k].status,
                ..j.milestones[k]
            });
        }
    }
}

} // verus!

verus! {

/// The freelancer delivering and the client then approving each milestone
/// of `ids` in turn, stopping at the first refusal.
pub open spec fn deliver_and_approve(
    j: JobView,
    client: Address,
    freelancer: Address,
    ids: Seq<u64>,
) -> Result<JobView, EscrowError>
    decreases ids.len(),
{
    if ids.len() == 0 {
        Ok(j)
    } else {
        match complete_step(j, freelancer, ids[0]) {
            Err(e) => Err(e),
            Ok(v) => match approve_step(v, client, ids[0]) {
                Err(e) => Err(e),
                Ok(w) => deliver_and_approve(w, client, freelancer, ids.drop_first()),
            },
        }
    }
}

proof fn lemma_deliver_and_approve_remaining(
    j: JobView,
    client: Address,
    freelancer: Address,
    ids: Seq<u64>,
)
    requires
        job_wf(j),
        j.status == JobStatus::Funded,
        j.freelancer == Some(freelancer),
        client == j.client,
        ids.len() > 0,
        ids.no_duplicates(),
        forall|i: int|
            0 <= i < ids.len() ==> has_milestone(j, #[trigger] ids[i]) && j.milestones[ids[i]
                - 1].status == MilestoneStatus::Pending,
        forall|k: int|
            0 <= k < j.milestones.len() && !ids.contains((k + 1) as u64) ==> (#[trigger] j.milestones[k]).status
                == MilestoneStatus::Paid,
    ensures
        deliver_and_approve(j, client, freelancer, ids) is Ok,
        deliver_and_approve(j, client, freelancer, ids)->Ok_0.status == JobStatus::Completed,
        all_paid(deliver_and_approve(j, client, freelancer, ids)->Ok_0.milestones),
    decreases ids.len(),
{
    let first = ids[0];
    assert(has_milestone(j, first));
    lemma_status_update_keeps_wf(j, first - 1, MilestoneStatus::Completed);
    assert(complete_step(j, freelancer, first) is Ok);
    let v = complete_step(j, freelancer, first)->Ok_0;
    assert(approve_step(v, client, first) is Ok);
    lemma_status_update_keeps_wf(v, first - 1, MilestoneStatus::Paid);
    let w = approve_step(v, client, first)->Ok_0;
    let ms = w.milestones;
    assert(ms =~= with_milestone_status(j.milestones, first - 1, MilestoneStatus::Paid));
    let rest = ids.drop_first();
    if ids.len() == 1 {
        assert forall|k: int| 0 <= k < ms.len() implies (#[trigger] ms[k]).status
            == MilestoneStatus::Paid by {
            if k != first - 1 {
                assert(j.milestones[k].id == k + 1);
                if ids.contains((k + 1) as u64) {
                    let i = choose|i: int| 0 <= i < ids.len() && ids[i] == (k + 1) as u64;
                    assert(i == 0);
                }
            }
        }
        assert(w.status == JobStatus::Completed);
        assert(deliver_and_approve(w, client, freelancer, rest) == Ok::<JobView, EscrowError>(w));
    } else {
        let second = ids[1];
        assert(has_milestone(j, second));
        assert(second != first);
        assert(ms[second - 1].status == MilestoneStatus::Pending);
        assert(w.status == JobStatus::Funded);
        assert forall|i: int| 0 <= i < rest.len() implies has_milestone(w, #[trigger] rest[i])
            && w.milestones[rest[i] - 1].status == MilestoneStatus::Pending by {
            assert(rest[i] == ids[i + 1]);
            assert(ids[i + 1] != ids[0]);
        }
        assert forall|k: int|
            0 <= k < w.milestones.len() && !rest.contains((k + 1) as u64) implies (
            #[trigger] w.milestones[k]).status == MilestoneStatus::Paid by {
            if k != first - 1 {
                if ids.contains((k + 1) as u64) {
                    let i = choose|i: int| 0 <= i < ids.len() && ids[i] == (k + 1) as u64;
                    assert(j.milestones[k].id == k + 1);
                    if i > 0 {
                        assert(rest[i - 1] == ids[i]);
                    } else {
                        assert((k + 1) as u64 == first);
                    }
                }
            }
        }
        assert(rest.no_duplicates()) by {
            assert forall|a: int, b: int|
                0 <= a < rest.len() && 0 <= b < rest.len() && a != b implies rest[a]
                != rest[b] by {
                assert(rest[a] == ids[a + 1] && rest[b] == ids[b + 1]);
            }
        }
        lemma_deliver_and_approve_remaining(w, client, freelancer, rest);
        assert(deliver_and_approve(j, client, freelancer, ids) == deliver_and_approve(
            w,
            client,
            freelancer,
            rest,
        ));
    }
}

/// On a funded job whose milestones are all pending, the freelancer
/// delivering and the client approving each milestone exactly once, in any
/// order, succeeds at every call (so the job stays funded until the last
/// approval) and leaves every milestone paid and the job completed.
pub proof fn lemma_delivering_and_approving_every_milestone_completes(
    j: JobView,
    client: Address,
    freelancer: Address,
    order: Seq<u64>,
)
    requires
        job_wf(j),
        j.status == JobStatus::Funded,
        j.freelancer == Some(freelancer),
        client == j.client,
        forall|k: int|
            0 <= k < j.milestones.len() ==> (#[trigger] j.milestones[k]).status
                == MilestoneStatus::Pending,
        order.no_duplicates(),
        forall|i: int| 0 <= i < order.len() ==> has_milestone(j, #[trigger] order[i]),
        forall|k: int| 0 <= k < j.milestones.len() ==> order.contains(#[trigger] ((k + 1) as u64)),
    ensures
        deliver_and_approve(j, client, freelancer, order) is Ok,
        deliver_and_approve(j, client, freelancer, order)->Ok_0.status == JobStatus::Completed,
        all_paid(deliver_and_approve(j, client, freelancer, order)->Ok_0.milestones),
{
    assert(order.contains((0 + 1) as u64));
    assert forall|i: int| 0 <= i < order.len() implies has_milestone(j, #[trigger] order[i])
        && j.milestones[order[i] - 1].status == MilestoneStatus::Pending by {}
    assert forall|k: int|
        0 <= k < j.milestones.len() && !order.contains((k + 1) as u64) implies (
        #[trigger] j.milestones[k]).status == MilestoneStatus::Paid by {
        assert(order.contains((k + 1) as u64));
    }
    lemma_deliver_and_approve_remaining(j, client, freelancer, order);
}

} // verus!
