//! The early-fill strategy: random counts from the start of the window, one
//! per second, until the requested rows are spent.

use super::datapoint::{
    all_at_most, all_non_negative, lemma_total_rows_push, timed_from, total_rows, DataPoint,
};
use super::random::random_in_range;
use super::timestamp::Timestamp;
use vstd::prelude::*;

verus! {

/// The most rows that one second may draw: a hundredth of the total, rounded
/// up, and never less than one.
pub open spec fn early_fill_ceiling(total: int) -> int {
    if (total + 99) / 100 < 1 {
        1
    } else {
        (total + 99) / 100
    }
}

/// Whether every draw fits a point's 16-bit count.
pub open spec fn early_fill_fits(total: int) -> bool {
    early_fill_ceiling(total) <= i16::MAX
}

/// What a second receives when it drew `draw` rows with `sum` of the `total`
/// already spent: the draw, or what is left of the total where the draw asks
/// for more.
pub open spec fn clamped_draw(sum: int, total: int, draw: int) -> int {
    if sum + draw > total {
        total - sum
    } else {
        draw
    }
}

/// Every count of `points` is at least one.
pub open spec fn all_positive(points: Seq<DataPoint>) -> bool {
    forall|i: int| 0 <= i < points.len() ==> (#[trigger] points[i]).rows_to_add >= 1
}

/// No proper, non-empty prefix of `points` has spent `total` rows yet.
pub open spec fn stops_when_spent(points: Seq<DataPoint>, total: int) -> bool {
    forall|k: int| 1 <= k < points.len() ==> #[trigger] total_rows(points.take(k)) < total
}

/// The most rows that one second may draw out of `total`.
pub fn early_fill_ceiling_of(total: u32) -> (ceiling: u32)
    ensures
        ceiling == early_fill_ceiling(total as int),
{
    let hundredth: u64 = ((total as u64) + 99) / 100;
    if hundredth < 1 {
        1
    } else {
        hundredth as u32
    }
}

/// Cuts `draw` down to what is left of `total` after `sum`.
pub fn clamp_draw(sum: u32, total: u32, draw: u32) -> (rows: u32)
    requires
        sum <= total,
    ensures
        rows == clamped_draw(sum as int, total as int, draw as int),
{
    if draw > total - sum {
        total - sum
    } else {
        draw
    }
}

/// `points` are an early fill of `total` rows over the `duration` seconds
/// from `start`: one point for each second from the start on, each with a
/// count between one and the ceiling, but for a last count cut down to the
/// rows that were left. The points end with the second that spends the last
/// row, and with the window where the rows outlast it, which they cannot do
/// in a window of as many seconds as there are rows.
pub open spec fn is_early_fill(
    points: Seq<DataPoint>,
    start: Timestamp,
    duration: int,
    total: int,
) -> bool {
    &&& 1 <= points.len() <= duration
    &&& timed_from(points, start)
    &&& all_non_negative(points)
    &&& all_at_most(points, early_fill_ceiling(total))
    &&& total > 0 ==> all_positive(points)
    &&& stops_when_spent(points, total)
    &&& total_rows(points) <= total
    &&& total_rows(points) < total ==> points.len() == duration
    &&& duration >= total ==> total_rows(points) == total
}

/// Gives each second from `start_time` on a random count between one and a
/// hundredth of `num_entries_to_generate`, cut down to what is left of the
/// total, and stops with the second that spends the last row. Seconds after
/// it get no point. Where the window ends first, the counts stay short of
/// the total.
pub fn generate_datapoints_early_fill(
    start_time: Timestamp,
    duration_in_seconds: i64,
    num_entries_to_generate: u32,
) -> (points: Vec<DataPoint>)
    requires
        duration_in_seconds > 0,
        start_time.wf(),
        start_time.can_shift(duration_in_seconds - 1),
        early_fill_fits(num_entries_to_generate as int),
    ensures
        is_early_fill(
            points@,
            start_time,
            duration_in_seconds as int,
            num_entries_to_generate as int,
        ),
{
    let ceiling: u32 = early_fill_ceiling_of(num_entries_to_generate);
    let mut points: Vec<DataPoint> = Vec::new();
    let mut sum: u32 = 0;
    let mut i: i64 = 0;
    let mut spent: bool = false;
    while i < duration_in_seconds && !spent
        invariant
            0 <= i <= duration_in_seconds,
            start_time.wf(),
            start_time.can_shift(duration_in_seconds - 1),
            ceiling == early_fill_ceiling(num_entries_to_generate as int),
            1 <= ceiling <= i16::MAX,
            points@.len() == i,
            sum == total_rows(points@),
            sum <= num_entries_to_generate,
            spent ==> i >= 1 && sum == num_entries_to_generate,
            !spent && i > 0 ==> sum < num_entries_to_generate,
            num_entries_to_generate > 0 ==> sum >= i,
            timed_from(points@, start_time),
            all_non_negative(points@),
            all_at_most(points@, ceiling as int),
            num_entries_to_generate > 0 ==> all_positive(points@),
            stops_when_spent(points@, num_entries_to_generate as int),
        decreases duration_in_seconds - i,
    {
        let draw: i64 = random_in_range(1, ceiling as i64 + 1);
        let rows: u32 = clamp_draw(sum, num_entries_to_generate, draw as u32);
        sum = sum + rows;
        let timestamp: Timestamp = start_time.checked_add_seconds(i).unwrap();
        let point = DataPoint { timestamp, rows_to_add: rows as i16 };
        proof {
            lemma_total_rows_push(points@, point);
            let grown = points@.push(point);
            assert forall|k: int| 1 <= k <= i implies #[trigger] grown.take(k) == points@.take(
                k,
            ) by {
                assert(grown.take(k) =~= points@.take(k));
            }
            assert(points@.take(i as int) =~= points@);
        }
        points.push(point);
        i = i + 1;
        if sum == num_entries_to_generate {
            spent = true;
        }
    }
    points
}

} // verus!
