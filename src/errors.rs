use vstd::prelude::*;

verus! {

/// Every way an escrow operation can be refused. A refused operation
/// changes nothing.
#[derive(Clone, Copy, Debug, PartialEq, Eq, Structural, PartialOrd, Ord)]
pub enum EscrowError {
    NotInitialized,
    AlreadyInitialized,
    JobNotFound,
    JobNotOpen,
    NoFreelancer,
    NoMilestones,
    InvalidMilestonePercentages,
    InvalidJobStatus,
    InvalidMilestoneStatus,
    MilestoneNotFound,
    Unauthorized,
    InvalidAmount,
    InvalidMilestoneDates,
}

} // verus!
