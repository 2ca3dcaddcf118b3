use vstd::prelude::*;

verus! {

/// An authenticated identity: a client, a freelancer, the escrow itself or
/// the asset being escrowed.
#[derive(Clone, Copy, Debug, PartialEq, Eq, Structural, Hash)]
pub struct Address(pub u64);

/// Where a job stands in its lifecycle.
#[derive(Clone, Copy, Debug, PartialEq, Eq, Structural, Hash)]
pub enum JobStatus {
    Open,
    InProgress,
    Funded,
    Completed,
    Disputed,
    Cancelled,
}

/// Where a milestone stands: `Pending -> Completed -> Paid`.
#[derive(Clone, Copy, Debug, PartialEq, Eq, Structural, Hash)]
pub enum MilestoneStatus {
    Pending,
    Completed,
    Paid,
}

/// One weighted deliverable of a job.
#[derive(Clone, Debug, PartialEq, Eq)]
pub struct Milestone {
    pub id: u64,
    pub title: String,
    pub description: String,
    pub percentage: u32,
    pub due_date: u64,
    pub status: MilestoneStatus,
}

/// One engagement between a client and a freelancer.
#[derive(Clone, Debug, PartialEq, Eq)]
pub struct Job {
    pub id: u64,
    pub client: Address,
    pub freelancer: Option<Address>,
    pub budget: i128,
    pub status: JobStatus,
    pub milestones: Vec<Milestone>,
}

/// The mathematical value of a `Job`: its milestones as a sequence.
pub struct JobView {
    pub id: u64,
    pub client: Address,
    pub freelancer: Option<Address>,
    pub budget: i128,
    pub status: JobStatus,
    pub milestones: Seq<Milestone>,
}

impl View for Job {
    type V = JobView;

    open spec fn view(&self) -> JobView {
        JobView {
            id: self.id,
            client: self.client,
            freelancer: self.freelancer,
            budget: self.budget,
            status: self.status,
            milestones: self.milestones@,
        }
    }
}

} // verus!

verus! {

/// A movement of the escrowed asset that the host must carry out for an
/// operation to take effect.
#[derive(Clone, Copy, Debug, PartialEq, Eq, Structural)]
pub struct Transfer {
    pub asset: Address,
    pub from: Address,
    pub to: Address,
    pub amount: i128,
}

} // verus!
