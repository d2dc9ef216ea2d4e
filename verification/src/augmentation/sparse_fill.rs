//! The sparse-fill strategy: the rows are shared out among a few zones, the
//! zones land on candidate spans of the window, and each span that holds
//! rows is filled evenly. The other spans stay empty.

use super::datapoint::{
    all_at_most, all_non_negative, lemma_counts_at_most_total, lemma_total_rows_concat,
    total_rows, DataPoint,
};
use super::even::{
    even_fits, even_last, generate_datapoints_even, is_even_distribution, lemma_even_split,
};
use super::timestamp::Timestamp;
use super::zone::{
    generate_sparse_fill_zone_shares, is_zone_sharing, lemma_share_at_most_total, DataZone,
    MAX_ZONES, MIN_ZONES,
};
use super::zone_layout::{
    allocated_rows, allocations, count_gaps, generate_sparse_fill_zone_and_boundaries,
    is_placement,
    lemma_span_bounds, lemma_span_step, spans_window, window_fits, zone_span,
};
use vstd::prelude::*;

verus! {

/// The number of candidate spans that the window is cut into for each zone.
pub const DEFAULT_SPARSE_FILL_ZONE_GENERATION_FACTOR: u32 = 3;

/// The number of seconds of `zone` that receive a point: the seconds from
/// its start up to its end, the end left out, and one second where that
/// leaves fewer than two.
pub open spec fn zone_slots(zone: DataZone) -> int {
    if zone.end_time.secs - zone.start_time.secs < 2 {
        1
    } else {
        zone.end_time.secs - zone.start_time.secs
    }
}

/// Whether `zone` can be filled: the number of its seconds can be
/// represented, and its rows fit the counts of a flat fill.
pub open spec fn zone_fillable(zone: DataZone) -> bool {
    &&& zone.start_time.wf()
    &&& zone.end_time.secs - zone.start_time.secs <= i64::MAX
    &&& even_fits(zone.num_rows_to_add as int, zone_slots(zone))
}

/// `points` fill `zone`: they spread its rows evenly over its seconds, from
/// its start on.
pub open spec fn is_zone_fill(zone: DataZone, points: Seq<DataPoint>) -> bool {
    is_even_distribution(
        points,
        zone.start_time,
        zone_slots(zone),
        zone.num_rows_to_add as int,
    )
}

/// `points` are what `zones` emit: the fills of the zones that hold rows, in
/// the order of the zones, and nothing for a gap.
pub open spec fn is_emission(zones: Seq<DataZone>, points: Seq<DataPoint>) -> bool
    decreases zones.len(),
{
    if zones.len() == 0 {
        points.len() == 0
    } else if zones.last().is_gap() {
        is_emission(zones.drop_last(), points)
    } else {
        let cut = points.len() - zone_slots(zones.last());
        &&& cut >= 0
        &&& is_emission(zones.drop_last(), points.take(cut))
        &&& is_zone_fill(zones.last(), points.skip(cut))
    }
}

/// What zones emit holds the rows allotted to them, and no count below
/// zero.
pub proof fn lemma_emission_conserves(zones: Seq<DataZone>, points: Seq<DataPoint>)
    requires
        is_emission(zones, points),
    ensures
        total_rows(points) == allocated_rows(zones),
        all_non_negative(points),
    decreases zones.len(),
{
    if zones.len() == 0 {
        assert(allocations(zones) =~= Seq::<u32>::empty());
    } else {
        let front = zones.drop_last();
        assert(allocations(zones).drop_last() =~= allocations(front));
        if zones.last().is_gap() {
            lemma_emission_conserves(front, points);
        } else {
            let cut = points.len() - zone_slots(zones.last());
            lemma_emission_conserves(front, points.take(cut));
            lemma_total_rows_concat(points.take(cut), points.skip(cut));
            assert(points.take(cut) + points.skip(cut) =~= points);
            assert forall|i: int| 0 <= i < points.len() implies (#[trigger] points[i]).rows_to_add
                >= 0 by {
                if i < cut {
                    assert(points[i] == points.take(cut)[i]);
                } else {
                    assert(points[i] == points.skip(cut)[i - cut]);
                }
            }
        }
    }
}

/// The seconds of `points` rise from one point to the next.
pub open spec fn rises(points: Seq<DataPoint>) -> bool {
    forall|a: int, b: int|
        0 <= a < b < points.len() ==> (#[trigger] points[a]).timestamp.secs < (
        #[trigger] points[b]).timestamp.secs
}

/// Every second of `points` lies at or after `from` and before `before`.
pub open spec fn lies_within(points: Seq<DataPoint>, from: int, before: int) -> bool {
    forall|i: int| 0 <= i < points.len() ==> from <= (#[trigger] points[i]).timestamp.secs < before
}

/// Where every candidate span is at least a second long, what the first `k`
/// spans emit rises in time and ends before span `k` starts, or before the
/// window ends if there is no such span.
pub proof fn lemma_emission_in_order(
    zones: Seq<DataZone>,
    start: Timestamp,
    duration: int,
    k: int,
    points: Seq<DataPoint>,
)
    requires
        duration >= zones.len(),
        start.can_shift(duration),
        spans_window(zones, start, duration),
        0 <= k <= zones.len(),
        is_emission(zones.take(k), points),
    ensures
        rises(points),
        lies_within(
            points,
            start.secs as int,
            if k == zones.len() {
                start.secs + duration
            } else {
                start.secs + zone_span(duration, zones.len() as int) * k
            },
        ),
    decreases k,
{
    if k > 0 {
        let count = zones.len() as int;
        let span = zone_span(duration, count);
        let zone = zones[k - 1];
        lemma_span_bounds(duration, count);
        lemma_span_step(duration, count, k - 1);
        assert(span * k == span * (k - 1) + span) by (nonlinear_arith);
        assert(zones.take(k).drop_last() =~= zones.take(k - 1));
        assert(zones.take(k).last() == zone);
        assert(zone.start_time.secs == start.secs + span * (k - 1));
        if zone.is_gap() {
            lemma_emission_in_order(zones, start, duration, k - 1, points);
        } else {
            let cut = points.len() - zone_slots(zone);
            let front = points.take(cut);
            let chunk = points.skip(cut);
            lemma_emission_in_order(zones, start, duration, k - 1, front);
            assert forall|i: int| 0 <= i < points.len() implies (#[trigger] points[i])
                == if i < cut {
                front[i]
            } else {
                chunk[i - cut]
            } by {}
            assert forall|i: int| cut <= i < points.len() implies (
            #[trigger] points[i]).timestamp.secs == zone.start_time.secs + (i - cut) by {
                assert(chunk[i - cut].timestamp == zone.start_time.after(i - cut));
            }
            assert forall|a: int, b: int| 0 <= a < b < points.len() implies (
            #[trigger] points[a]).timestamp.secs < (#[trigger] points[b]).timestamp.secs by {
                if b < cut {
                    assert(front[a].timestamp.secs < front[b].timestamp.secs);
                } else if a < cut {
                    assert(front[a].timestamp.secs < zone.start_time.secs);
                }
            }
        }
    }
}

/// Fills the seconds of `data_zone` with its rows: a flat fill, then random
/// transfers between the seconds. A zone shorter than two seconds puts all
/// its rows on its first second.
pub fn generate_sparse_fill_zone_datapoints(data_zone: &DataZone) -> (points: Vec<DataPoint>)
    requires
        zone_fillable(*data_zone),
    ensures
        is_zone_fill(*data_zone, points@),
{
    let slots: i64 = if data_zone.end_time.secs < data_zone.start_time.secs {
        1
    } else {
        let duration: i64 = data_zone.end_time.secs - data_zone.start_time.secs;
        if duration < 2 {
            1
        } else {
            duration
        }
    };
    generate_datapoints_even(data_zone.start_time, slots, data_zone.num_rows_to_add)
}

/// Emits the points of every zone that holds rows, in the order of the
/// zones.
pub fn emit_zone_datapoints(zones: &Vec<DataZone>) -> (points: Vec<DataPoint>)
    requires
        forall|i: int|
            0 <= i < zones@.len() && !(#[trigger] zones@[i]).is_gap() ==> zone_fillable(zones@[i]),
    ensures
        is_emission(zones@, points@),
        all_non_negative(points@),
        total_rows(points@) == allocated_rows(zones@),
{
    let mut points: Vec<DataPoint> = Vec::new();
    let mut i: usize = 0;
    while i < zones.len()
        invariant
            0 <= i <= zones@.len(),
            forall|k: int|
                0 <= k < zones@.len() && !(#[trigger] zones@[k]).is_gap() ==> zone_fillable(
                    zones@[k],
                ),
            is_emission(zones@.take(i as int), points@),
        decreases zones@.len() - i,
    {
        let ghost before = points@;
        proof {
            assert(zones@.take(i + 1).drop_last() =~= zones@.take(i as int));
        }
        if zones[i].num_rows_to_add > 0 {
            let mut filled: Vec<DataPoint> = generate_sparse_fill_zone_datapoints(&zones[i]);
            proof {
                let chunk = filled@;
                assert((before + chunk).take((before + chunk).len() - chunk.len()) =~= before);
                assert((before + chunk).skip((before + chunk).len() - chunk.len()) =~= chunk);
            }
            points.append(&mut filled);
        }
        i = i + 1;
    }
    proof {
        assert(zones@.take(i as int) =~= zones@);
        lemma_emission_conserves(zones@, points@);
    }
    points
}

/// `zones` are a layout that a sparse fill of `total` rows may choose: the
/// rows are shared out among three to six zones, the window is cut into
/// [`DEFAULT_SPARSE_FILL_ZONE_GENERATION_FACTOR`] candidate spans for each of
/// them, and each share that holds rows has a span to itself. So at least
/// two spans for each zone stay gaps.
pub open spec fn is_sparse_layout(
    zones: Seq<DataZone>,
    start: Timestamp,
    duration: int,
    total: int,
) -> bool {
    exists|shares: Seq<u32>, slots: Seq<int>|
        {
            &&& is_zone_sharing(shares, total)
            &&& zones.len() == DEFAULT_SPARSE_FILL_ZONE_GENERATION_FACTOR * shares.len()
            &&& count_gaps(zones) >= zones.len() - shares.len()
            &&& spans_window(zones, start, duration)
            &&& #[trigger] is_placement(shares, zones, slots)
        }
}

/// `points` are a sparse fill of `total` rows over the `duration` seconds
/// from `start`: what the zones of some layout emit, with no count below
/// zero or above the total, and all the rows among them.
pub open spec fn is_sparse_fill(
    points: Seq<DataPoint>,
    start: Timestamp,
    duration: int,
    total: int,
) -> bool {
    &&& exists|zones: Seq<DataZone>|
        is_sparse_layout(zones, start, duration, total) && #[trigger] is_emission(zones, points)
    &&& all_non_negative(points)
    &&& all_at_most(points, total)
    &&& total_rows(points) == total
}

/// The largest count that a flat fill over `slots` seconds can hold when it
/// spreads `total` rows or fewer: that of all the rows, or that of the most
/// rows that leave the last second one short of another round.
pub open spec fn largest_count(total: int, slots: int) -> int {
    if total / slots >= 1 && slots - 2 > total % slots {
        total / slots + slots - 2
    } else {
        total / slots + total % slots
    }
}

/// The seconds that receive a point in each candidate span but the last,
/// when a window of `duration` seconds is cut into `count` spans.
pub open spec fn inner_slots(duration: int, count: int) -> int {
    if zone_span(duration, count) - 1 < 2 {
        1
    } else {
        zone_span(duration, count) - 1
    }
}

/// The seconds that receive a point in the last candidate span.
pub open spec fn last_slots(duration: int, count: int) -> int {
    if duration - zone_span(duration, count) * (count - 1) < 2 {
        1
    } else {
        duration - zone_span(duration, count) * (count - 1)
    }
}

/// Whether any share of `total` rows fits the counts of any of `count`
/// candidate spans of a window of `duration` seconds.
pub open spec fn layout_fits(duration: int, count: int, total: int) -> bool {
    &&& largest_count(total, inner_slots(duration, count)) <= i16::MAX
    &&& largest_count(total, last_slots(duration, count)) <= i16::MAX
}

/// Whether a sparse fill of `total` rows over `duration` seconds keeps every
/// count within its 16 bits, whatever it draws: however many zones there
/// are, any share of the rows fits any candidate span.
pub open spec fn sparse_fill_fits(duration: int, total: int) -> bool {
    forall|zones: int|
        MIN_ZONES <= zones <= MAX_ZONES ==> #[trigger] layout_fits(
            duration,
            DEFAULT_SPARSE_FILL_ZONE_GENERATION_FACTOR * zones,
            total,
        )
}

/// No flat fill of `share` rows, `total` at most, has a count above
/// [`largest_count`].
pub proof fn lemma_largest_count(total: int, slots: int, share: int)
    requires
        0 <= share <= total,
        slots > 0,
    ensures
        even_last(share, slots) <= largest_count(total, slots),
{
    lemma_even_split(share, slots);
    vstd::arithmetic::div_mod::lemma_fundamental_div_mod(total, slots);
    vstd::arithmetic::div_mod::lemma_fundamental_div_mod(share, slots);
    vstd::arithmetic::div_mod::lemma_mod_bound(total, slots);
    vstd::arithmetic::div_mod::lemma_mod_bound(share, slots);
    vstd::arithmetic::div_mod::lemma_div_is_ordered(share, total, slots);
    let q = total / slots;
    let a = share / slots;
    if a == q {
        assert(share % slots <= total % slots);
    } else {
        assert(a <= q - 1);
    }
}

/// Some flat fill of `total` rows or fewer has a count of
/// [`largest_count`].
pub proof fn lemma_largest_count_reached(total: int, slots: int) -> (share: int)
    requires
        0 <= total,
        slots > 0,
    ensures
        0 <= share <= total,
        even_last(share, slots) == largest_count(total, slots),
{
    vstd::arithmetic::div_mod::lemma_fundamental_div_mod(total, slots);
    vstd::arithmetic::div_mod::lemma_mod_bound(total, slots);
    vstd::arithmetic::div_mod::lemma_div_pos_is_pos(total, slots);
    let q = total / slots;
    if q >= 1 && slots - 2 > total % slots {
        let share = slots * q - 1;
        assert(slots * q >= slots) by (nonlinear_arith)
            requires
                q >= 1,
                slots > 0,
        ;
        assert(share == slots * (q - 1) + (slots - 1)) by (nonlinear_arith)
            requires
                share == slots * q - 1,
        ;
        vstd::arithmetic::div_mod::lemma_fundamental_div_mod_converse(
            share,
            slots,
            q - 1,
            slots - 1,
        );
        lemma_even_split(share, slots);
        share
    } else {
        lemma_even_split(total, slots);
        total
    }
}

/// The seconds that receive a point in a candidate span are those that the
/// length of the window and the number of spans give, and a span starts
/// inside the window.
pub proof fn lemma_span_within_window(
    zones: Seq<DataZone>,
    start: Timestamp,
    duration: int,
    i: int,
)
    requires
        duration >= 0,
        spans_window(zones, start, duration),
        window_fits(start, duration, zones.len() as int),
        0 <= i < zones.len(),
    ensures
        zones[i].end_time.secs - zones[i].start_time.secs <= duration,
        start.secs <= zones[i].start_time.secs <= start.secs + duration,
        zone_slots(zones[i]) == if i == zones.len() - 1 {
            last_slots(duration, zones.len() as int)
        } else {
            inner_slots(duration, zones.len() as int)
        },
{
    let count = zones.len() as int;
    lemma_span_bounds(duration, count);
    lemma_span_step(duration, count, i);
    assert(zone_span(duration, count) * 0 == 0) by (nonlinear_arith);
}

/// The largest count that a flat fill over `slots` seconds can hold when it
/// spreads `total` rows or fewer.
pub fn largest_count_of(total: u32, slots: i64) -> (count: i64)
    requires
        slots > 0,
    ensures
        count == largest_count(total as int, slots as int),
{
    let quotient: i64 = (total as i64) / slots;
    let rest: i64 = (total as i64) % slots;
    proof {
        vstd::arithmetic::div_mod::lemma_fundamental_div_mod(total as int, slots as int);
        vstd::arithmetic::div_mod::lemma_mod_bound(total as int, slots as int);
        vstd::arithmetic::div_mod::lemma_div_pos_is_pos(total as int, slots as int);
        assert(quotient <= total) by (nonlinear_arith)
            requires
                total == slots * quotient + rest,
                rest >= 0,
                quotient >= 0,
                slots >= 1,
        ;
    }
    if quotient >= 1 && slots - 2 > rest {
        assert(slots <= total) by (nonlinear_arith)
            requires
                total == slots * quotient + rest,
                rest >= 0,
                quotient >= 1,
                slots >= 1,
        ;
        quotient + slots - 2
    } else {
        quotient + rest
    }
}

/// Whether [`layout_fits`] holds.
pub fn layout_fits_of(duration_in_seconds: i64, count: i64, total: u32) -> (fits: bool)
    requires
        duration_in_seconds >= 0,
        count > 0,
    ensures
        fits == layout_fits(duration_in_seconds as int, count as int, total as int),
{
    proof {
        lemma_span_bounds(duration_in_seconds as int, count as int);
        lemma_span_step(duration_in_seconds as int, count as int, count - 1);
    }
    let span: i64 = duration_in_seconds / count;
    let inner: i64 = if span - 1 < 2 {
        1
    } else {
        span - 1
    };
    let rest: i64 = duration_in_seconds - span * (count - 1);
    let last: i64 = if rest < 2 {
        1
    } else {
        rest
    };
    largest_count_of(total, inner) <= i16::MAX as i64 && largest_count_of(total, last)
        <= i16::MAX as i64
}

/// Whether [`sparse_fill_fits`] holds.
pub fn sparse_fill_fits_of(duration_in_seconds: i64, total: u32) -> (fits: bool)
    requires
        duration_in_seconds >= 0,
    ensures
        fits == sparse_fill_fits(duration_in_seconds as int, total as int),
{
    let mut zones: u32 = MIN_ZONES;
    while zones <= MAX_ZONES
        invariant
            MIN_ZONES <= zones <= MAX_ZONES + 1,
            duration_in_seconds >= 0,
            forall|z: int|
                MIN_ZONES <= z < zones ==> #[trigger] layout_fits(
                    duration_in_seconds as int,
                    DEFAULT_SPARSE_FILL_ZONE_GENERATION_FACTOR * z,
                    total as int,
                ),
        decreases MAX_ZONES + 1 - zones,
    {
        let count: i64 = (DEFAULT_SPARSE_FILL_ZONE_GENERATION_FACTOR * zones) as i64;
        if !layout_fits_of(duration_in_seconds, count, total) {
            return false;
        }
        zones = zones + 1;
    }
    true
}

/// In a window long enough to give every candidate span a second, a sparse
/// fill rises in time and stays within the window.
pub proof fn lemma_sparse_fill_in_order(
    points: Seq<DataPoint>,
    start: Timestamp,
    duration: int,
    total: int,
)
    requires
        duration >= DEFAULT_SPARSE_FILL_ZONE_GENERATION_FACTOR * MAX_ZONES,
        start.can_shift(duration),
        is_sparse_fill(points, start, duration, total),
    ensures
        rises(points),
        lies_within(points, start.secs as int, start.secs + duration),
{
    let zones = choose|zones: Seq<DataZone>|
        is_sparse_layout(zones, start, duration, total) && #[trigger] is_emission(zones, points);
    assert(zones.take(zones.len() as int) =~= zones);
    lemma_emission_in_order(zones, start, duration, zones.len() as int, points);
}

/// Shares `num_entries_to_generate` rows out among three to six zones, lets
/// each zone land on a candidate span of the window picked at random, and
/// fills every span that holds rows; the seconds of the other spans get no
/// point.
pub fn generate_datapoints_sparse_fill(
    start_time: Timestamp,
    duration_in_seconds: i64,
    num_entries_to_generate: u32,
) -> (points: Vec<DataPoint>)
    requires
        duration_in_seconds > 0,
        start_time.wf(),
        window_fits(
            start_time,
            duration_in_seconds as int,
            DEFAULT_SPARSE_FILL_ZONE_GENERATION_FACTOR * MAX_ZONES,
        ),
        sparse_fill_fits(duration_in_seconds as int, num_entries_to_generate as int),
    ensures
        is_sparse_fill(
            points@,
            start_time,
            duration_in_seconds as int,
            num_entries_to_generate as int,
        ),
{
    let zone_allocations: Vec<u32> = generate_sparse_fill_zone_shares(num_entries_to_generate);
    let zones: Vec<DataZone> = generate_sparse_fill_zone_and_boundaries(
        &zone_allocations,
        DEFAULT_SPARSE_FILL_ZONE_GENERATION_FACTOR,
        start_time,
        duration_in_seconds,
    );
    proof {
        assert forall|i: int|
            0 <= i < zones@.len() && !(#[trigger] zones@[i]).is_gap() implies zone_fillable(
            zones@[i],
        ) by {
            lemma_span_within_window(zones@, start_time, duration_in_seconds as int, i);
            lemma_share_at_most_total(allocations(zones@), i);
            assert(layout_fits(
                duration_in_seconds as int,
                DEFAULT_SPARSE_FILL_ZONE_GENERATION_FACTOR * (zone_allocations@.len() as int),
                num_entries_to_generate as int,
            ));
            lemma_largest_count(
                num_entries_to_generate as int,
                zone_slots(zones@[i]),
                zones@[i].num_rows_to_add as int,
            );
        }
    }
    let points: Vec<DataPoint> = emit_zone_datapoints(&zones);
    proof {
        lemma_counts_at_most_total(points@);
        let slots = choose|slots: Seq<int>| is_placement(zone_allocations@, zones@, slots);
        assert(is_placement(zone_allocations@, zones@, slots));
        assert(is_sparse_layout(
            zones@,
            start_time,
            duration_in_seconds as int,
            num_entries_to_generate as int,
        ));
    }
    points
}

} // verus!
