//! The buckets that the allocation strategies produce, and what is said of a
//! sequence of them.

use super::timestamp::Timestamp;
use vstd::prelude::*;

verus! {

/// One second of the window and the number of rows that fall into it.
#[derive(Clone, Copy, Debug, PartialEq, Eq, Structural)]
pub struct DataPoint {
    pub timestamp: Timestamp,
    pub rows_to_add: i16,
}

impl DataPoint {
    /// The point that puts `rows_to_add` rows on the second at `timestamp`.
    pub fn new(timestamp: Timestamp, rows_to_add: i16) -> (p: DataPoint)
        ensures
            p.timestamp == timestamp,
            p.rows_to_add == rows_to_add,
    {
        DataPoint { timestamp, rows_to_add }
    }

    /// The second that the rows fall into.
    pub fn timestamp(&self) -> (t: Timestamp)
        ensures
            t == self.timestamp,
    {
        self.timestamp
    }

    /// The number of rows that fall into the second.
    pub fn rows_to_add(&self) -> (n: i16)
        ensures
            n == self.rows_to_add,
    {
        self.rows_to_add
    }
}

/// The sum of the counts of `points`.
pub open spec fn total_rows(points: Seq<DataPoint>) -> int
    decreases points.len(),
{
    if points.len() == 0 {
        0
    } else {
        total_rows(points.drop_last()) + points.last().rows_to_add
    }
}

/// No count of `points` is negative.
pub open spec fn all_non_negative(points: Seq<DataPoint>) -> bool {
    forall|i: int| 0 <= i < points.len() ==> (#[trigger] points[i]).rows_to_add >= 0
}

/// No count of `points` is above `ceiling`.
pub open spec fn all_at_most(points: Seq<DataPoint>, ceiling: int) -> bool {
    forall|i: int| 0 <= i < points.len() ==> (#[trigger] points[i]).rows_to_add <= ceiling
}

/// The points stand one second apart, the first of them at `start`.
pub open spec fn timed_from(points: Seq<DataPoint>, start: Timestamp) -> bool {
    forall|i: int| 0 <= i < points.len() ==> (#[trigger] points[i]).timestamp == start.after(i)
}

/// `after` holds the same instants as `before`, in the same order.
pub open spec fn same_instants(before: Seq<DataPoint>, after: Seq<DataPoint>) -> bool {
    &&& before.len() == after.len()
    &&& forall|i: int|
        0 <= i < before.len() ==> (#[trigger] after[i]).timestamp == before[i].timestamp
}

/// Appending a point adds its count to the sum.
pub proof fn lemma_total_rows_push(points: Seq<DataPoint>, point: DataPoint)
    ensures
        total_rows(points.push(point)) == total_rows(points) + point.rows_to_add,
{
    assert(points.push(point).drop_last() =~= points);
}

/// Replacing one point changes the sum by the difference of the two counts.
pub proof fn lemma_total_rows_update(points: Seq<DataPoint>, i: int, point: DataPoint)
    requires
        0 <= i < points.len(),
    ensures
        total_rows(points.update(i, point)) == total_rows(points) - points[i].rows_to_add
            + point.rows_to_add,
    decreases points.len(),
{
    if i == points.len() - 1 {
        assert(points.update(i, point).drop_last() =~= points.drop_last());
    } else {
        lemma_total_rows_update(points.drop_last(), i, point);
        assert(points.update(i, point).drop_last() =~= points.drop_last().update(i, point));
    }
}

/// The sum of a concatenation is the sum of the sums.
pub proof fn lemma_total_rows_concat(left: Seq<DataPoint>, right: Seq<DataPoint>)
    ensures
        total_rows(left + right) == total_rows(left) + total_rows(right),
    decreases right.len(),
{
    if right.len() == 0 {
        assert(left + right =~= left);
    } else {
        lemma_total_rows_concat(left, right.drop_last());
        assert((left + right).drop_last() =~= left + right.drop_last());
    }
}

/// Where no count is negative, the sum is not, and no count is above it.
pub proof fn lemma_counts_at_most_total(points: Seq<DataPoint>)
    requires
        all_non_negative(points),
    ensures
        total_rows(points) >= 0,
        all_at_most(points, total_rows(points)),
    decreases points.len(),
{
    if points.len() > 0 {
        let front = points.drop_last();
        assert forall|j: int| 0 <= j < front.len() implies (#[trigger] front[j]).rows_to_add
            >= 0 by {
            assert(front[j] == points[j]);
        }
        lemma_counts_at_most_total(front);
        assert forall|i: int| 0 <= i < points.len() implies (#[trigger] points[i]).rows_to_add
            <= total_rows(points) by {
            if i < front.len() {
                assert(points[i] == front[i]);
            }
        }
    }
}

} // verus!
