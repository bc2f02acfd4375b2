//! People's points: one per verified event, plus their bonus points.
use vstd::prelude::*;

verus! {

/// The sum of `points`, as `i32` arithmetic gives it.
pub open spec fn sum_points(points: Seq<i32>) -> int
    decreases points.len(),
{
    if points.len() == 0 {
        0
    } else {
        sum_points(points.drop_last()) + points.last()
    }
}

/// Whether every running total of `points` fits in an `i32`.
pub open spec fn sums_fit(points: Seq<i32>) -> bool {
    forall|k: int| 0 <= k <= points.len() ==> i32::MIN <= #[trigger] sum_points(points.take(k)) <= i32::MAX
}

/// The sum of a person's bonus points.
pub fn bonus_total(points: &Vec<i32>) -> (total: i32)
    requires
        sums_fit(points@),
    ensures
        total == sum_points(points@),
{
    let mut total: i32 = 0;
    let mut i: usize = 0;
    assert(points@.take(0) =~= Seq::<i32>::empty());
    while i < points.len()
        invariant
            i <= points@.len(),
            sums_fit(points@),
            total == sum_points(points@.take(i as int)),
        decreases points@.len() - i,
    {
        assert(points@.take(i + 1).drop_last() =~= points@.take(i as int));
        assert(i32::MIN <= sum_points(points@.take(i + 1)) <= i32::MAX);
        total = total + points[i];
        i = i + 1;
    }
    assert(points@.take(points@.len() as int) =~= points@);
    total
}

/// A person's points: their count of verified events (missing counts as zero) plus the
/// sum of their bonus points, each taken as a `usize` as the pages do.
pub open spec fn person_points_of(event_count: Option<i64>, bonus_points: Seq<i32>) -> int {
    let e = match event_count { Some(c) => c, None => 0 };
    (e as usize) + (sum_points(bonus_points) as i32 as usize)
}

/// A person's points, as the people pages show them.
pub fn person_points(event_count: Option<i64>, bonus_points: &Vec<i32>) -> (pts: usize)
    requires
        sums_fit(bonus_points@),
        person_points_of(event_count, bonus_points@) <= usize::MAX,
    ensures
        pts == person_points_of(event_count, bonus_points@),
{
    let e: i64 = match event_count { Some(c) => c, None => 0 };
    let b = bonus_total(bonus_points);
    proof {
        assert(sum_points(bonus_points@.take(bonus_points@.len() as int)) == sum_points(bonus_points@)) by {
            assert(bonus_points@.take(bonus_points@.len() as int) =~= bonus_points@);
        }
    }
    (e as usize) + (b as usize)
}


/// The points the people pages show are the count of verified events plus the sum of
/// the bonus points, a missing count counting as zero (for counts and sums that are
/// not negative and fit, as the pages take them).
pub proof fn lemma_points_are_events_plus_bonus(events: i64, bonus_points: Seq<i32>)
    requires
        0 <= events <= usize::MAX,
        0 <= sum_points(bonus_points) <= i32::MAX,
    ensures
        person_points_of(Some(events), bonus_points) == events + sum_points(bonus_points),
        person_points_of(None, bonus_points) == sum_points(bonus_points),
{
}

} // verus!
