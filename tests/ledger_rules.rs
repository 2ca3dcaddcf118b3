use escrow::{
    payment_for, validate_due_dates, validate_percentages, Address, EscrowContract, EscrowError,
    Milestone, MilestoneStatus,
};

fn weighted(percentages: &[u32], due_date: u64) -> Vec<Milestone> {
    percentages
        .iter()
        .map(|p| Milestone {
            id: 0,
            title: "step".to_string(),
            description: String::new(),
            percentage: *p,
            due_date,
            status: MilestoneStatus::Pending,
        })
        .collect()
}

#[test]
fn percentages_must_sum_to_one_hundred() {
    assert_eq!(validate_percentages(&weighted(&[30, 70], 5)), Ok(()));
    assert_eq!(validate_percentages(&weighted(&[100], 5)), Ok(()));
    assert_eq!(validate_percentages(&weighted(&[0, 100, 0], 5)), Ok(()));
    assert_eq!(
        validate_percentages(&weighted(&[30, 60], 5)),
        Err(EscrowError::InvalidMilestonePercentages)
    );
    assert_eq!(
        validate_percentages(&weighted(&[60, 60], 5)),
        Err(EscrowError::InvalidMilestonePercentages)
    );
    assert_eq!(
        validate_percentages(&weighted(&[u32::MAX, u32::MAX], 5)),
        Err(EscrowError::InvalidMilestonePercentages)
    );
    assert_eq!(validate_percentages(&weighted(&[], 5)), Err(EscrowError::InvalidMilestonePercentages));
}

#[test]
fn due_dates_must_follow_now() {
    assert_eq!(validate_due_dates(&weighted(&[50, 50], 11), 10), Ok(()));
    assert_eq!(validate_due_dates(&weighted(&[50, 50], 10), 10), Err(EscrowError::InvalidMilestoneDates));
    assert_eq!(validate_due_dates(&weighted(&[50, 50], 9), 10), Err(EscrowError::InvalidMilestoneDates));
}

#[test]
fn create_job_rejects_malformed_milestone_sets() {
    let mut escrow = EscrowContract::new(Address(100));
    let client = Address(1);
    assert_eq!(escrow.create_job(client, 1000, Vec::new(), 0), Err(EscrowError::NoMilestones));
    assert_eq!(
        escrow.create_job(client, 1000, weighted(&[30, 60], 5), 0),
        Err(EscrowError::InvalidMilestonePercentages)
    );
    assert_eq!(
        escrow.create_job(client, 1000, weighted(&[50, 60], 5), 0),
        Err(EscrowError::InvalidMilestonePercentages)
    );
    assert_eq!(
        escrow.create_job(client, 1000, weighted(&[50, 50], 5), 5),
        Err(EscrowError::InvalidMilestoneDates)
    );
    assert!(matches!(escrow.get_job(1), Err(EscrowError::JobNotFound)));
    assert_eq!(escrow.create_job(client, 1000, weighted(&[50, 50], 6), 5), Ok(1));
}

#[test]
fn create_job_numbers_milestones_and_resets_status() {
    let mut escrow = EscrowContract::new(Address(100));
    let mut ms = weighted(&[20, 30, 50], 9);
    ms[1].id = 77;
    ms[2].status = MilestoneStatus::Paid;
    let id = escrow.create_job(Address(1), 10, ms, 0).unwrap();
    let job = escrow.get_job(id).unwrap();
    let ids: Vec<u64> = job.milestones.iter().map(|m| m.id).collect();
    assert_eq!(ids, vec![1, 2, 3]);
    assert!(job.milestones.iter().all(|m| m.status == MilestoneStatus::Pending));
    let weights: Vec<u32> = job.milestones.iter().map(|m| m.percentage).collect();
    assert_eq!(weights, vec![20, 30, 50]);
}

#[test]
fn payments_round_down() {
    assert_eq!(payment_for(1000, 30), 300);
    assert_eq!(payment_for(1000, 70), 700);
    assert_eq!(payment_for(1000, 30) + payment_for(1000, 70), 1000);
    assert_eq!(payment_for(7, 50), 3);
    assert_eq!(payment_for(7, 50) + payment_for(7, 50), 6);
    assert_eq!(payment_for(99, 1), 0);
    assert_eq!(payment_for(5, 0), 0);
    assert_eq!(payment_for(0, 100), 0);
}

#[test]
fn payments_do_not_overflow_at_the_largest_budget() {
    assert_eq!(payment_for(i128::MAX, 100), i128::MAX);
    assert_eq!(payment_for(i128::MAX, 50), i128::MAX / 2);
    assert_eq!(payment_for(i128::MAX, 1), i128::MAX / 100);
}
