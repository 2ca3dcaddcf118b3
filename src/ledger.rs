use vstd::prelude::*;

use crate::errors::EscrowError;
use crate::types::Milestone;

verus! {

/// The sum of the milestones' percentages.
pub open spec fn percentage_sum(ms: Seq<Milestone>) -> int
    decreases ms.len(),
{
    if ms.len() == 0 {
        0
    } else {
        percentage_sum(ms.drop_last()) + ms.last().percentage
    }
}

/// Every milestone falls due strictly after `now`.
pub open spec fn due_after(ms: Seq<Milestone>, now: u64) -> bool {
    forall|i: int| 0 <= i < ms.len() ==> #[trigger] ms[i].due_date > now
}

/// The share of `budget` that a milestone of weight `percentage` releases,
/// rounded down.
pub open spec fn payment(budget: int, percentage: int) -> int {
    budget * percentage / 100
}

/// What paying every milestone releases in all.
pub open spec fn payments_total(budget: int, ms: Seq<Milestone>) -> int
    decreases ms.len(),
{
    if ms.len() == 0 {
        0
    } else {
        payments_total(budget, ms.drop_last()) + payment(budget, ms.last().percentage as int)
    }
}

/// What rounding down loses over all milestones, in hundredths.
pub open spec fn rounding_total(budget: int, ms: Seq<Milestone>) -> int
    decreases ms.len(),
{
    if ms.len() == 0 {
        0
    } else {
        rounding_total(budget, ms.drop_last()) + (budget * ms.last().percentage) % 100
    }
}

proof fn lemma_percentage_sum_prefix(ms: Seq<Milestone>, i: int, j: int)
    requires
        0 <= i <= j <= ms.len(),
    ensures
        percentage_sum(ms.take(i)) <= percentage_sum(ms.take(j)),
    decreases j - i,
{
    if i < j {
        lemma_percentage_sum_prefix(ms, i, j - 1);
        assert(ms.take(j).drop_last() =~= ms.take(j - 1));
    }
}

/// Accepts a milestone set exactly when its percentages add up to 100.
pub fn validate_percentages(milestones: &Vec<Milestone>) -> (r: Result<(), EscrowError>)
    ensures
        r is Ok <==> percentage_sum(milestones@) == 100,
        r is Err ==> r == Err::<(), EscrowError>(EscrowError::InvalidMilestonePercentages),
{
    let mut sum: u64 = 0;
    let mut i: usize = 0;
    while i < milestones.len()
        invariant
            0 <= i <= milestones@.len(),
            sum == percentage_sum(milestones@.take(i as int)),
            sum <= 100,
        decreases milestones@.len() - i,
    {
        assert(milestones@.take(i + 1).drop_last() =~= milestones@.take(i as int));
        sum = sum + milestones[i].percentage as u64;
        i = i + 1;
        if sum > 100 {
            proof {
                lemma_percentage_sum_prefix(milestones@, i as int, milestones@.len() as int);
                assert(milestones@.take(milestones@.len() as int) =~= milestones@);
            }
            return Err(EscrowError::InvalidMilestonePercentages);
        }
    }
    assert(milestones@.take(i as int) =~= milestones@);
    if sum == 100 {
        Ok(())
    } else {
        Err(EscrowError::InvalidMilestonePercentages)
    }
}

/// Accepts a milestone set exactly when every milestone falls due after `now`.
pub fn validate_due_dates(milestones: &Vec<Milestone>, now: u64) -> (r: Result<(), EscrowError>)
    ensures
        r is Ok <==> due_after(milestones@, now),
        r is Err ==> r == Err::<(), EscrowError>(EscrowError::InvalidMilestoneDates),
{
    let mut i: usize = 0;
    while i < milestones.len()
        invariant
            0 <= i <= milestones@.len(),
            forall|k: int| 0 <= k < i ==> #[trigger] milestones@[k].due_date > now,
        decreases milestones@.len() - i,
    {
        if milestones[i].due_date <= now {
            return Err(EscrowError::InvalidMilestoneDates);
        }
        i = i + 1;
    }
    Ok(())
}

/// The amount a milestone of weight `percentage` releases from `budget`:
/// `budget * percentage / 100`, rounded down, computed without overflow.
pub fn payment_for(budget: i128, percentage: u32) -> (r: i128)
    requires
        budget >= 0,
        percentage <= 100,
    ensures
        r == payment(budget as int, percentage as int),
        0 <= r <= budget,
{
    let b = budget as u128;
    let p = percentage as u128;
    let q = b / 100;
    let rem = b % 100;
    assert(q * p <= b) by (nonlinear_arith)
        requires q == b / 100, p <= 100;
    assert(rem * p < 10000) by (nonlinear_arith)
        requires rem < 100, p <= 100;
    let r = q * p + rem * p / 100;
    assert(r == (b * p) / 100 && r <= b) by (nonlinear_arith)
        requires
            q == b / 100,
            rem == b % 100,
            r == q * p + rem * p / 100,
            p <= 100,
            b >= 0,
    ;
    r as i128
}

proof fn lemma_totals(budget: int, ms: Seq<Milestone>)
    requires
        budget >= 0,
    ensures
        100 * payments_total(budget, ms) + rounding_total(budget, ms)
            == budget * percentage_sum(ms),
        0 <= rounding_total(budget, ms) <= 99 * ms.len(),
        rounding_total(budget, ms) == 0 <==> forall|i: int|
            0 <= i < ms.len() ==> (budget * #[trigger] ms[i].percentage) % 100 == 0,
    decreases ms.len(),
{
    if ms.len() > 0 {
        let init = ms.drop_last();
        let p = ms.last().percentage as int;
        lemma_totals(budget, init);
        assert(100 * payment(budget, p) + (budget * p) % 100 == budget * p) by (nonlinear_arith)
            requires budget >= 0, p >= 0;
        assert(budget * percentage_sum(ms) == budget * percentage_sum(init) + budget * p)
            by (nonlinear_arith)
            requires percentage_sum(ms) == percentage_sum(init) + p;
        assert((budget * p) % 100 >= 0);
        if rounding_total(budget, ms) == 0 {
            assert forall|i: int| 0 <= i < ms.len() implies (budget
                * #[trigger] ms[i].percentage) % 100 == 0 by {
                if i < ms.len() - 1 {
                    assert(init[i] == ms[i]);
                }
            }
        }
        if forall|i: int| 0 <= i < ms.len() ==> (budget * #[trigger] ms[i].percentage) % 100
            == 0 {
            assert forall|i: int| 0 <= i < init.len() implies (budget
                * #[trigger] init[i].percentage) % 100 == 0 by {
                assert(init[i] == ms[i]);
            }
            assert(ms[ms.len() - 1] == ms.last());
        }
    }
}

/// Paying every milestone of a set whose percentages add up to 100 never
/// releases more than the budget, falls short of it by less than one unit
/// per milestone, and releases all of it exactly when no milestone's share
/// needs rounding.
pub proof fn lemma_payments_within_budget(budget: i128, milestones: Seq<Milestone>)
    requires
        budget >= 0,
        percentage_sum(milestones) == 100,
    ensures
        payments_total(budget as int, milestones) <= budget,
        budget - payments_total(budget as int, milestones) <= milestones.len() - 1,
        payments_total(budget as int, milestones) == budget <==> forall|i: int|
            0 <= i < milestones.len() ==> (budget * #[trigger] milestones[i].percentage) % 100
                == 0,
{
    lemma_totals(budget as int, milestones);
}

} // verus!

verus! {

/// Two milestone sets with the same weights, position by position, weigh
/// the same in all.
pub(crate) proof fn lemma_percentage_sum_weights(a: Seq<Milestone>, b: Seq<Milestone>)
    requires
        a.len() == b.len(),
        forall|k: int| 0 <= k < a.len() ==> (#[trigger] a[k]).percentage == b[k].percentage,
    ensures
        percentage_sum(a) == percentage_sum(b),
    decreases a.len(),
{
    if a.len() > 0 {
        let (ia, ib) = (a.drop_last(), b.drop_last());
        assert forall|k: int| 0 <= k < ia.len() implies (#[trigger] ia[k]).percentage
            == ib[k].percentage by {
            assert(ia[k] == a[k] && ib[k] == b[k]);
        }
        lemma_percentage_sum_weights(ia, ib);
        assert(a.last() == a[a.len() - 1] && b.last() == b[b.len() - 1]);
    }
}

/// No milestone weighs more than the whole set.
pub(crate) proof fn lemma_percentage_le_sum(ms: Seq<Milestone>, k: int)
    requires
        0 <= k < ms.len(),
    ensures
        ms[k].percentage <= percentage_sum(ms),
    decreases ms.len(),
{
    lemma_percentage_sum_nonneg(ms.drop_last());
    if k < ms.len() - 1 {
        lemma_percentage_le_sum(ms.drop_last(), k);
        assert(ms.drop_last()[k] == ms[k]);
    }
}

proof fn lemma_percentage_sum_nonneg(ms: Seq<Milestone>)
    ensures
        percentage_sum(ms) >= 0,
    decreases ms.len(),
{
    if ms.len() > 0 {
        lemma_percentage_sum_nonneg(ms.drop_last());
    }
}

} // verus!
