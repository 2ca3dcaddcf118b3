use escrow::{Address, EscrowContract, EscrowError, JobStatus, Milestone, MilestoneStatus};

const NOW: u64 = 0;

fn milestone(title: &str, description: &str, percentage: u32, due_date: u64) -> Milestone {
    Milestone {
        id: 0,
        title: title.to_string(),
        description: description.to_string(),
        percentage,
        due_date,
        status: MilestoneStatus::Pending,
    }
}

fn design_and_development() -> Vec<Milestone> {
    vec![
        milestone("Design", "Create initial design", 30, 1234567890),
        milestone("Development", "Implement features", 70, 1234567890),
    ]
}

fn create_milestones() -> Vec<Milestone> {
    vec![
        milestone("Design", "Create UI/UX design", 30, 1000),
        milestone("Development", "Implement features", 70, 2000),
    ]
}

fn escrow_with_asset() -> EscrowContract {
    let mut escrow = EscrowContract::new(Address(100));
    escrow.initialize(Address(200)).unwrap();
    escrow
}

#[test]
fn test_initialize() {
    let client = Address(1);
    let freelancer = Address(2);
    let mut escrow = EscrowContract::new(Address(100));
    assert_eq!(escrow.initialize(Address(200)), Ok(()));
    assert_eq!(escrow.asset(), Some(Address(200)));
    let milestones = vec![
        milestone("milestone1", "", 50, 10),
        milestone("milestone2", "", 50, 10),
    ];
    let job_id = escrow.create_job(client, 1000, milestones, NOW).unwrap();
    escrow.accept_job(job_id, freelancer).unwrap();

    let job = escrow.get_job(job_id).unwrap();
    assert_eq!(job.client, client);
    assert_eq!(job.freelancer, Some(freelancer));
    assert_eq!(job.budget, 1000);
    let titles: Vec<&str> = job.milestones.iter().map(|m| m.title.as_str()).collect();
    assert_eq!(titles, vec!["milestone1", "milestone2"]);
}

#[test]
fn test_create_job() {
    let client = Address(1);
    let mut escrow = EscrowContract::new(Address(100));

    let job_id = escrow.create_job(client, 1000, design_and_development(), NOW).unwrap();
    assert_eq!(job_id, 1);

    let job = escrow.get_job(job_id).unwrap();
    assert_eq!(job.client, client);
    assert_eq!(job.freelancer, None);
    assert_eq!(job.budget, 1000);
    assert_eq!(job.status, JobStatus::Open);
    assert_eq!(job.milestones.len(), 2);
}

#[test]
fn test_accept_job() {
    let client = Address(1);
    let freelancer = Address(2);
    let mut escrow = escrow_with_asset();

    let job_id = escrow.create_job(client, 1000, design_and_development(), NOW).unwrap();
    escrow.accept_job(job_id, freelancer).unwrap();

    let job = escrow.get_job(job_id).unwrap();
    assert_eq!(job.status, JobStatus::InProgress);
    assert_eq!(job.freelancer, Some(freelancer));
}

#[test]
fn test_deposit_funds() {
    let client = Address(1);
    let freelancer = Address(2);
    let mut escrow = escrow_with_asset();

    let job_id = escrow.create_job(client, 1000, design_and_development(), NOW).unwrap();
    escrow.accept_job(job_id, freelancer).unwrap();
    escrow.deposit_funds(client, job_id, 1000).unwrap();

    let job = escrow.get_job(job_id).unwrap();
    assert_eq!(job.status, JobStatus::Funded);
}

#[test]
fn test_complete_and_approve_milestone() {
    let client = Address(1);
    let freelancer = Address(2);
    let mut escrow = escrow_with_asset();

    let job_id = escrow.create_job(client, 1000, design_and_development(), NOW).unwrap();
    escrow.accept_job(job_id, freelancer).unwrap();
    escrow.deposit_funds(client, job_id, 1000).unwrap();

    escrow.complete_milestone(freelancer, job_id, 1).unwrap();
    escrow.approve_milestone(client, job_id, 1).unwrap();

    let job = escrow.get_job(job_id).unwrap();
    assert_eq!(job.milestones[0].status, MilestoneStatus::Paid);
}

#[test]
fn test_unauthorized_operations() {
    let client = Address(1);
    let freelancer = Address(2);
    let unauthorized = Address(3);
    let mut escrow = escrow_with_asset();

    let job_id = escrow.create_job(client, 1000, design_and_development(), NOW).unwrap();
    escrow.accept_job(job_id, freelancer).unwrap();
    escrow.deposit_funds(client, job_id, 1000).unwrap();

    // Accepting carries no caller check: a funded job is refused for its status.
    let result = escrow.accept_job(job_id, freelancer);
    assert_eq!(result, Err(EscrowError::JobNotOpen));

    let result = escrow.complete_milestone(unauthorized, job_id, 1);
    assert_eq!(result, Err(EscrowError::Unauthorized));

    let result = escrow.approve_milestone(unauthorized, job_id, 1);
    assert_eq!(result, Err(EscrowError::Unauthorized));
}

#[test]
fn test_multiple_jobs() {
    let client1 = Address(1);
    let client2 = Address(2);
    let mut escrow = escrow_with_asset();

    let job_id1 = escrow.create_job(client1, 5000, create_milestones(), NOW).unwrap();
    let job_id2 = escrow.create_job(client2, 8000, create_milestones(), NOW).unwrap();

    let job1 = escrow.get_job(job_id1).unwrap();
    let job2 = escrow.get_job(job_id2).unwrap();
    assert_ne!(job1.id, job2.id);
    assert_eq!(job1.budget, 5000);
    assert_eq!(job2.budget, 8000);
}

#[test]
fn test_authorization_checks() {
    let client = Address(1);
    let freelancer = Address(2);
    let unauthorized = Address(3);
    let mut escrow = escrow_with_asset();

    let job_id = escrow.create_job(client, 10000, create_milestones(), NOW).unwrap();
    escrow.accept_job(job_id, freelancer).unwrap();

    let result = escrow.deposit_funds(unauthorized, job_id, 10000);
    assert_eq!(result, Err(EscrowError::Unauthorized));

    escrow.deposit_funds(client, job_id, 10000).unwrap();

    let result = escrow.complete_milestone(unauthorized, job_id, 1);
    assert_eq!(result, Err(EscrowError::Unauthorized));

    escrow.complete_milestone(freelancer, job_id, 1).unwrap();

    let result = escrow.approve_milestone(unauthorized, job_id, 1);
    assert_eq!(result, Err(EscrowError::Unauthorized));

    escrow.approve_milestone(client, job_id, 1).unwrap();
}
