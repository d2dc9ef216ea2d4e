//! The even strategy: a flat fill of the window, then random transfers of
//! rows from one second to another.

use super::datapoint::{
    all_at_most, all_non_negative, lemma_counts_at_most_total, lemma_total_rows_push,
    lemma_total_rows_update, same_instants, timed_from, total_rows, DataPoint,
};
use super::random::{distinct_pair, pick_2_random_datapoint, random_in_range};
use super::timestamp::Timestamp;
use vstd::prelude::*;

verus! {

/// What every slot but the last receives in a flat fill.
pub open spec fn even_base(total: int, slots: int) -> int {
    total / slots
}

/// What the last slot receives in a flat fill: all that the others left.
pub open spec fn even_last(total: int, slots: int) -> int {
    total - even_base(total, slots) * (slots - 1)
}

/// The count of slot `i` in a flat fill of `total` over `slots` slots.
pub open spec fn even_count(total: int, slots: int, i: int) -> int {
    if i == slots - 1 {
        even_last(total, slots)
    } else {
        even_base(total, slots)
    }
}

/// Whether every count of a flat fill fits a point's 16-bit count.
pub open spec fn even_fits(total: int, slots: int) -> bool {
    even_last(total, slots) <= i16::MAX
}

/// The number of transfers that follow a flat fill of `total` rows: a fifth
/// of the total, rounded to the nearest integer.
pub open spec fn shuffle_rounds(total: int) -> int {
    (2 * total + 5) / 10
}

/// The flat fill of `total` rows over `slots` seconds from `start`.
pub open spec fn flat_fill(start: Timestamp, slots: int, total: int) -> Seq<DataPoint> {
    Seq::new(
        slots as nat,
        |i: int|
            DataPoint {
                timestamp: start.after(i),
                rows_to_add: even_count(total, slots, i) as i16,
            },
    )
}

/// `after` is `before` with `delta` rows moved from slot `first` to slot
/// `second`.
pub open spec fn is_transfer(
    before: Seq<DataPoint>,
    after: Seq<DataPoint>,
    first: int,
    second: int,
    delta: int,
) -> bool {
    after == before.update(
        first,
        DataPoint {
            timestamp: before[first].timestamp,
            rows_to_add: (before[first].rows_to_add - delta) as i16,
        },
    ).update(
        second,
        DataPoint {
            timestamp: before[second].timestamp,
            rows_to_add: (before[second].rows_to_add + delta) as i16,
        },
    )
}

/// Whether `delta` rows can leave a slot that holds `source` rows for one
/// that holds `target`: something moves, at least one row stays behind, and
/// the receiving count stays within its 16 bits.
pub open spec fn can_transfer(source: int, target: int, delta: int) -> bool {
    1 <= delta < source && target + delta <= i16::MAX
}

/// `after` is what a round makes of `before` when it picked the slots
/// `first` and `second` and drew `delta` rows: the transfer, where
/// [`can_transfer`] allows it, and nothing where not.
pub open spec fn is_step(
    before: Seq<DataPoint>,
    after: Seq<DataPoint>,
    first: int,
    second: int,
    delta: int,
) -> bool {
    if can_transfer(
        before[first].rows_to_add as int,
        before[second].rows_to_add as int,
        delta,
    ) {
        is_transfer(before, after, first, second, delta)
    } else {
        after == before
    }
}

/// `after` is what one round of a shuffle may make of `before`: the round
/// picks two different slots and, where the first holds two rows or more,
/// draws a part of them, never all, to move to the second. Rows stay where
/// they are only if the first slot holds fewer than two or the second would
/// outgrow its 16 bits. Fewer than two slots leave nothing to pick.
pub open spec fn is_round(before: Seq<DataPoint>, after: Seq<DataPoint>) -> bool {
    if before.len() < 2 {
        after == before
    } else {
        exists|first: int, second: int, delta: int|
            {
                &&& distinct_pair(before.len() as int, first, second)
                &&& before[first].rows_to_add >= 2 ==> 1 <= delta < before[first].rows_to_add
                &&& #[trigger] is_step(before, after, first, second, delta)
            }
    }
}

/// `after` is what a shuffle of `rounds` rounds may make of `before`.
pub open spec fn is_shuffle(before: Seq<DataPoint>, after: Seq<DataPoint>, rounds: nat) -> bool
    decreases rounds,
{
    if rounds == 0 {
        after == before
    } else {
        exists|mid: Seq<DataPoint>|
            is_shuffle(before, mid, (rounds - 1) as nat) && #[trigger] is_round(mid, after)
    }
}

/// A shuffle of fewer than two points leaves them as they are, however many
/// rounds it has.
pub proof fn lemma_shuffle_idle(points: Seq<DataPoint>, rounds: nat)
    requires
        points.len() < 2,
    ensures
        is_shuffle(points, points, rounds),
    decreases rounds,
{
    if rounds > 0 {
        lemma_shuffle_idle(points, (rounds - 1) as nat);
        assert(is_round(points, points));
    }
}

/// However many rounds a shuffle has, it neither makes nor loses a row: it
/// keeps the sum, the instants, and every count at or above zero.
pub proof fn lemma_shuffle_conserves(before: Seq<DataPoint>, after: Seq<DataPoint>, rounds: nat)
    requires
        is_shuffle(before, after, rounds),
    ensures
        same_instants(before, after),
        total_rows(after) == total_rows(before),
        all_non_negative(before) ==> all_non_negative(after),
    decreases rounds,
{
    if rounds > 0 {
        let mid = choose|mid: Seq<DataPoint>|
            is_shuffle(before, mid, (rounds - 1) as nat) && #[trigger] is_round(mid, after);
        lemma_shuffle_conserves(before, mid, (rounds - 1) as nat);
        if mid.len() >= 2 {
            let (first, second, delta) = choose|first: int, second: int, delta: int|
                {
                    &&& distinct_pair(mid.len() as int, first, second)
                    &&& mid[first].rows_to_add >= 2 ==> 1 <= delta < mid[first].rows_to_add
                    &&& #[trigger] is_step(mid, after, first, second, delta)
                };
            if can_transfer(
                mid[first].rows_to_add as int,
                mid[second].rows_to_add as int,
                delta,
            ) {
                lemma_transfer_conserves(mid, after, first, second, delta);
            }
        }
    }
}

/// A transfer that [`can_transfer`] allows neither makes nor loses a row: it
/// keeps the sum, the instants, and every count at or above zero.
pub proof fn lemma_transfer_conserves(
    before: Seq<DataPoint>,
    after: Seq<DataPoint>,
    first: int,
    second: int,
    delta: int,
)
    requires
        0 <= first < before.len(),
        0 <= second < before.len(),
        first != second,
        can_transfer(
            before[first].rows_to_add as int,
            before[second].rows_to_add as int,
            delta,
        ),
        is_transfer(before, after, first, second, delta),
    ensures
        same_instants(before, after),
        total_rows(after) == total_rows(before),
        all_non_negative(before) ==> all_non_negative(after),
{
    let lighter = DataPoint {
        timestamp: before[first].timestamp,
        rows_to_add: (before[first].rows_to_add - delta) as i16,
    };
    let heavier = DataPoint {
        timestamp: before[second].timestamp,
        rows_to_add: (before[second].rows_to_add + delta) as i16,
    };
    lemma_total_rows_update(before, first, lighter);
    lemma_total_rows_update(before.update(first, lighter), second, heavier);
    if all_non_negative(before) {
        assert(before[first].rows_to_add >= 0 && before[second].rows_to_add >= 0);
    }
}

/// The base of a flat fill is at most its last count, and neither is
/// negative.
pub proof fn lemma_even_split(total: int, slots: int)
    requires
        total >= 0,
        slots > 0,
    ensures
        0 <= even_base(total, slots) <= even_last(total, slots),
        even_last(total, slots) == even_base(total, slots) + total % slots,
        even_last(total, slots) <= total,
{
    vstd::arithmetic::div_mod::lemma_fundamental_div_mod(total, slots);
    vstd::arithmetic::div_mod::lemma_div_pos_is_pos(total, slots);
    vstd::arithmetic::div_mod::lemma_mod_bound(total, slots);
    let base = total / slots;
    assert(slots * base == base * (slots - 1) + base) by (nonlinear_arith);
    assert(base * (slots - 1) >= 0) by (nonlinear_arith)
        requires
            base >= 0,
            slots - 1 >= 0,
    ;
}

/// Puts `total / slots` rows on every second of the window but the last,
/// which takes the rest.
pub fn fill_evenly(start: Timestamp, slots: i64, total: u32) -> (points: Vec<DataPoint>)
    requires
        slots > 0,
        start.wf(),
        start.can_shift(slots - 1),
        even_fits(total as int, slots as int),
    ensures
        points@ == flat_fill(start, slots as int, total as int),
        timed_from(points@, start),
        all_non_negative(points@),
        total_rows(points@) == total,
{
    let base: i64 = (total as i64) / slots;
    let last: i64 = slots - 1;
    proof {
        lemma_even_split(total as int, slots as int);
        assert(base * last <= total) by (nonlinear_arith)
            requires
                base == even_base(total as int, slots as int),
                last == slots - 1,
                even_last(total as int, slots as int) == total - base * last,
                even_last(total as int, slots as int) >= 0,
        ;
    }
    let mut points: Vec<DataPoint> = Vec::new();
    let mut i: i64 = 0;
    while i < last
        invariant
            0 <= i <= last,
            last == slots - 1,
            base == even_base(total as int, slots as int),
            0 <= base <= i16::MAX,
            start.wf(),
            start.can_shift(slots - 1),
            points@.len() == i,
            total_rows(points@) == base * i,
            forall|j: int|
                0 <= j < i ==> (#[trigger] points@[j]) == (DataPoint {
                    timestamp: start.after(j),
                    rows_to_add: base as i16,
                }),
        decreases last - i,
    {
        let timestamp: Timestamp = start.checked_add_seconds(i).unwrap();
        let point = DataPoint { timestamp, rows_to_add: base as i16 };
        proof {
            lemma_total_rows_push(points@, point);
            assert(base * (i + 1) == base * i + base) by (nonlinear_arith);
        }
        points.push(point);
        i = i + 1;
    }
    let rest: i64 = (total as i64) - base * last;
    let timestamp: Timestamp = start.checked_add_seconds(last).unwrap();
    let point = DataPoint { timestamp, rows_to_add: rest as i16 };
    proof {
        lemma_total_rows_push(points@, point);
    }
    points.push(point);
    proof {
        assert(points@ =~= flat_fill(start, slots as int, total as int));
    }
    points
}

/// Moves `delta` rows from slot `first` to slot `second` where
/// [`can_transfer`] allows it, and leaves the points alone where not.
pub fn move_rows(points: &mut Vec<DataPoint>, first: usize, second: usize, delta: i16)
    requires
        first < old(points)@.len(),
        second < old(points)@.len(),
        first != second,
    ensures
        can_transfer(
            old(points)@[first as int].rows_to_add as int,
            old(points)@[second as int].rows_to_add as int,
            delta as int,
        ) ==> is_transfer(old(points)@, final(points)@, first as int, second as int, delta as int),
        !can_transfer(
            old(points)@[first as int].rows_to_add as int,
            old(points)@[second as int].rows_to_add as int,
            delta as int,
        ) ==> final(points)@ == old(points)@,
        same_instants(old(points)@, final(points)@),
        total_rows(final(points)@) == total_rows(old(points)@),
        all_non_negative(old(points)@) ==> all_non_negative(final(points)@),
{
    let source: DataPoint = points[first];
    let target: DataPoint = points[second];
    if delta >= 1 && delta < source.rows_to_add && target.rows_to_add <= i16::MAX - delta {
        let lighter = DataPoint {
            timestamp: source.timestamp,
            rows_to_add: source.rows_to_add - delta,
        };
        let heavier = DataPoint {
            timestamp: target.timestamp,
            rows_to_add: target.rows_to_add + delta,
        };
        points.set(first, lighter);
        points.set(second, heavier);
        proof {
            lemma_transfer_conserves(
                old(points)@,
                points@,
                first as int,
                second as int,
                delta as int,
            );
        }
    }
}

/// Runs `rounds` rounds over `points`: each round picks two different slots
/// at random and, where the first holds two rows or more, moves a random
/// part of them, never all, to the second, unless that would take the
/// second beyond its 16 bits. Fewer than two slots leave nothing to move.
pub fn shuffle_rows(points: &mut Vec<DataPoint>, rounds: u32)
    requires
        old(points)@.len() <= i64::MAX,
    ensures
        is_shuffle(old(points)@, final(points)@, rounds as nat),
        same_instants(old(points)@, final(points)@),
        total_rows(final(points)@) == total_rows(old(points)@),
        all_non_negative(old(points)@) ==> all_non_negative(final(points)@),
{
    let slots: usize = points.len();
    if slots < 2 {
        proof {
            lemma_shuffle_idle(points@, rounds as nat);
        }
        return ;
    }
    let mut round: u32 = 0;
    while round < rounds
        invariant
            slots == points@.len(),
            2 <= slots <= i64::MAX,
            round <= rounds,
            is_shuffle(old(points)@, points@, round as nat),
        decreases rounds - round,
    {
        let ghost mid = points@;
        proof {
            lemma_shuffle_conserves(old(points)@, mid, round as nat);
        }
        let (first_slot, second_slot) = pick_2_random_datapoint(slots as i64);
        let available: i16 = points[first_slot as usize].rows_to_add;
        let ghost mut drawn: int = 0;
        if available >= 2 {
            let delta: i64 = random_in_range(1, available as i64);
            proof {
                drawn = delta as int;
            }
            move_rows(points, first_slot as usize, second_slot as usize, delta as i16);
        }
        proof {
            assert(is_step(mid, points@, first_slot as int, second_slot as int, drawn));
            assert(is_round(mid, points@));
        }
        round = round + 1;
    }
    proof {
        lemma_shuffle_conserves(old(points)@, points@, rounds as nat);
    }
}

/// The number of transfers that follow a flat fill of `total` rows.
pub fn shuffle_rounds_of(total: u32) -> (rounds: u32)
    ensures
        rounds == shuffle_rounds(total as int),
{
    ((2 * (total as u64) + 5) / 10) as u32
}

/// `points` spread `total` rows over the `duration` seconds from `start`:
/// they are what a shuffle of a fifth as many rounds as there are rows may
/// make of the flat fill. So there is one point for each second, no count
/// is below zero or above the total, and all the rows are among them.
pub open spec fn is_even_distribution(
    points: Seq<DataPoint>,
    start: Timestamp,
    duration: int,
    total: int,
) -> bool {
    &&& is_shuffle(flat_fill(start, duration, total), points, shuffle_rounds(total) as nat)
    &&& points.len() == duration
    &&& timed_from(points, start)
    &&& all_non_negative(points)
    &&& all_at_most(points, total)
    &&& total_rows(points) == total
}

/// Spreads `num_entries_to_generate` rows over the `duration_in_seconds`
/// seconds that start at `start_time`: a flat fill, then random transfers
/// between the seconds.
pub fn generate_datapoints_even(
    start_time: Timestamp,
    duration_in_seconds: i64,
    num_entries_to_generate: u32,
) -> (points: Vec<DataPoint>)
    requires
        duration_in_seconds > 0,
        start_time.wf(),
        start_time.can_shift(duration_in_seconds - 1),
        even_fits(num_entries_to_generate as int, duration_in_seconds as int),
    ensures
        is_even_distribution(
            points@,
            start_time,
            duration_in_seconds as int,
            num_entries_to_generate as int,
        ),
{
    let mut points: Vec<DataPoint> = fill_evenly(
        start_time,
        duration_in_seconds,
        num_entries_to_generate,
    );
    shuffle_rows(&mut points, shuffle_rounds_of(num_entries_to_generate));
    proof {
        lemma_counts_at_most_total(points@);
    }
    points
}

} // verus!
