//! A milestone-based escrow engine between a client and a freelancer.
//!
//! The job lifecycle, its authorization rules and its fund accounting are
//! verified. Persistence, caller authentication, the movement of the asset
//! and the publication of notifications belong to the host: every operation
//! that moves value hands back a `Transfer` describing exactly what the host
//! must move, and every successful operation leaves one `Event` to publish.
pub mod contract;
mod errors;
mod events;
pub mod ledger;
pub mod lifecycle;
mod types;

pub use contract::{EscrowContract, EscrowView};
pub use errors::EscrowError;
pub use events::Event;
pub use ledger::{payment_for, validate_due_dates, validate_percentages};
pub use types::{Address, Job, JobStatus, JobView, Milestone, MilestoneStatus, Transfer};
