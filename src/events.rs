use vstd::prelude::*;

use crate::types::Address;

verus! {

/// The notification that a successful operation leaves for the host to
/// publish, carrying the operation's key arguments.
#[derive(Clone, Debug, PartialEq, Eq)]
pub enum Event {
    JobCreated { job_id: u64, client: Address },
    JobAccepted { job_id: u64, freelancer: Address },
    FundsDeposited { job_id: u64, amount: i128 },
    MilestoneCompleted { job_id: u64, milestone_id: u64 },
    MilestonePaid { job_id: u64, milestone_id: u64, amount: i128 },
    DisputeInitiated { job_id: u64, initiator: Address, reason: String },
    JobCancelled { job_id: u64, cancelled_by: Address },
}

} // verus!
