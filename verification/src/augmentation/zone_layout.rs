//! Where the zones of a sparse fill come to lie: the window is cut into
//! candidate spans, and each zone's rows land on a span of their own.

use super::random::random_in_range;
use super::timestamp::Timestamp;
use super::zone::{lemma_total_shares_update, total_shares, DataZone};
use vstd::prelude::*;

verus! {

/// The length in seconds of each candidate span but the last, when a window
/// of `duration` seconds is cut into `count` of them.
pub open spec fn zone_span(duration: int, count: int) -> int {
    duration / count
}

/// Where candidate span `i` starts.
pub open spec fn zone_start(start: Timestamp, duration: int, count: int, i: int) -> Timestamp {
    start.after(zone_span(duration, count) * i)
}

/// Where candidate span `i` ends: one second before the next span starts,
/// and with the window for the last span.
pub open spec fn zone_end(start: Timestamp, duration: int, count: int, i: int) -> Timestamp {
    if i == count - 1 {
        start.after(duration)
    } else {
        zone_start(start, duration, count, i).after(zone_span(duration, count) - 1)
    }
}

/// `zones` are the candidate spans of the window of `duration` seconds from
/// `start`, in time order.
pub open spec fn spans_window(zones: Seq<DataZone>, start: Timestamp, duration: int) -> bool {
    forall|i: int|
        #![trigger zones[i]]
        0 <= i < zones.len() ==> {
            &&& zones[i].start_time == zone_start(start, duration, zones.len() as int, i)
            &&& zones[i].end_time == zone_end(start, duration, zones.len() as int, i)
        }
}

/// Whether every instant that the candidate spans name can be represented:
/// the end of the window and, where the spans are shorter than a second, the
/// second before its start.
pub open spec fn window_fits(start: Timestamp, duration: int, count: int) -> bool {
    &&& start.can_shift(duration)
    &&& duration < count ==> start.can_shift(-1)
}

/// The rows allotted to each of `zones`, in order.
pub open spec fn allocations(zones: Seq<DataZone>) -> Seq<u32> {
    Seq::new(zones.len(), |i: int| zones[i].num_rows_to_add)
}

/// The rows allotted to all of `zones` together.
pub open spec fn allocated_rows(zones: Seq<DataZone>) -> int {
    total_shares(allocations(zones))
}

/// The number of gaps among `zones`.
pub open spec fn count_gaps(zones: Seq<DataZone>) -> int
    decreases zones.len(),
{
    if zones.len() == 0 {
        0
    } else {
        count_gaps(zones.drop_last()) + if zones.last().is_gap() {
            1int
        } else {
            0int
        }
    }
}

/// `slots` names, for each share, the zone it landed on: a share that holds
/// rows has a zone to itself, with exactly its rows, and every zone that no
/// such share landed on is a gap.
pub open spec fn is_placement(shares: Seq<u32>, zones: Seq<DataZone>, slots: Seq<int>) -> bool {
    &&& slots.len() == shares.len()
    &&& forall|j: int| 0 <= j < slots.len() ==> 0 <= #[trigger] slots[j] < zones.len()
    &&& forall|j: int|
        0 <= j < slots.len() && shares[j] > 0 ==> zones[#[trigger] slots[j]].num_rows_to_add
            == shares[j]
    &&& forall|j: int, k: int|
        0 <= j < k < slots.len() && shares[j] > 0 && shares[k] > 0 ==> #[trigger] slots[j]
            != #[trigger] slots[k]
    &&& forall|i: int|
        0 <= i < zones.len() && !(#[trigger] zones[i]).is_gap() ==> exists|j: int|
            0 <= j < slots.len() && shares[j] > 0 && #[trigger] slots[j] == i
}

/// The spans tile the window: the first starts with it, the last ends with
/// it, and each other span ends one second before the next one starts.
///
/// This holds wherever a span is at least a second long, and for shorter
/// spans unless the window starts inside a leap second.
pub proof fn lemma_spans_tile_window(zones: Seq<DataZone>, start: Timestamp, duration: int)
    requires
        zones.len() > 0,
        duration >= 0,
        spans_window(zones, start, duration),
        window_fits(start, duration, zones.len() as int),
        duration >= zones.len() || !start.is_leap(),
    ensures
        zones[0].start_time == start,
        zones[zones.len() - 1].end_time == start.after(duration),
        forall|i: int|
            0 <= i < zones.len() - 1 ==> (#[trigger] zones[i]).end_time.secs + 1 == zones[i
                + 1].start_time.secs,
        duration >= zones.len() ==> forall|i: int|
            0 <= i < zones.len() ==> (#[trigger] zones[i]).start_time.secs
                <= zones[i].end_time.secs,
{
    let count = zones.len() as int;
    let span = zone_span(duration, count);
    lemma_span_bounds(duration, count);
    assert(span * 0 == 0) by (nonlinear_arith);
    assert(zones[0].start_time == zone_start(start, duration, count, 0));
    assert forall|i: int| 0 <= i < count - 1 implies (#[trigger] zones[i]).end_time.secs + 1
        == zones[i + 1].start_time.secs by {
        lemma_span_step(duration, count, i);
        lemma_span_step(duration, count, i + 1);
        assert(span * (i + 1) == span * i + span) by (nonlinear_arith);
        assert(zones[i + 1].start_time == zone_start(start, duration, count, i + 1));
    }
    if duration >= count {
        assert forall|i: int| 0 <= i < count implies (#[trigger] zones[i]).start_time.secs
            <= zones[i].end_time.secs by {
            lemma_span_step(duration, count, i);
            if i < count - 1 {
                lemma_span_step(duration, count, i + 1);
            }
        }
    }
}

/// A span is never negative, and `count` of them are no longer than the
/// window; a window of at least `count` seconds makes each span at least a
/// second long.
pub proof fn lemma_span_bounds(duration: int, count: int)
    requires
        duration >= 0,
        count > 0,
    ensures
        0 <= zone_span(duration, count),
        zone_span(duration, count) * count <= duration,
        duration >= count ==> zone_span(duration, count) >= 1,
        duration < count ==> zone_span(duration, count) == 0,
{
    vstd::arithmetic::div_mod::lemma_fundamental_div_mod(duration, count);
    vstd::arithmetic::div_mod::lemma_mod_bound(duration, count);
    vstd::arithmetic::div_mod::lemma_div_pos_is_pos(duration, count);
    let span = duration / count;
    assert(span * count == count * span) by (nonlinear_arith);
    if duration >= count {
        assert(span >= 1) by (nonlinear_arith)
            requires
                duration == count * span + duration % count,
                0 <= duration % count < count,
                duration >= count,
                count > 0,
        ;
    } else {
        vstd::arithmetic::div_mod::lemma_basic_div(duration, count);
    }
}

/// The offset of span `i` lies in the window, a span's length before the
/// window's end.
pub proof fn lemma_span_step(duration: int, count: int, i: int)
    requires
        duration >= 0,
        count > 0,
        0 <= i < count,
    ensures
        0 <= zone_span(duration, count) * i,
        zone_span(duration, count) * i + zone_span(duration, count) <= duration,
{
    lemma_span_bounds(duration, count);
    let span = zone_span(duration, count);
    assert(0 <= span * i && span * i + span <= span * count) by (nonlinear_arith)
        requires
            span >= 0,
            0 <= i < count,
    ;
}

/// Cuts the window of `duration_in_seconds` seconds from `start_time` into
/// `count` candidate spans, all of them gaps.
pub fn zone_boundaries(count: usize, start_time: Timestamp, duration_in_seconds: i64) -> (zones:
    Vec<DataZone>)
    requires
        0 < count <= i64::MAX,
        duration_in_seconds >= 0,
        start_time.wf(),
        window_fits(start_time, duration_in_seconds as int, count as int),
    ensures
        zones@.len() == count,
        spans_window(zones@, start_time, duration_in_seconds as int),
        forall|i: int| 0 <= i < count ==> (#[trigger] zones@[i]).is_gap(),
{
    let span: i64 = duration_in_seconds / (count as i64);
    proof {
        lemma_span_bounds(duration_in_seconds as int, count as int);
    }
    let mut zones: Vec<DataZone> = Vec::new();
    let mut zone_idx: usize = 0;
    while zone_idx < count
        invariant
            0 <= zone_idx <= count,
            0 < count <= i64::MAX,
            duration_in_seconds >= 0,
            start_time.wf(),
            span == zone_span(duration_in_seconds as int, count as int),
            window_fits(start_time, duration_in_seconds as int, count as int),
            zones@.len() == zone_idx,
            forall|i: int|
                #![trigger zones@[i]]
                0 <= i < zone_idx ==> {
                    &&& zones@[i].start_time == zone_start(
                        start_time,
                        duration_in_seconds as int,
                        count as int,
                        i,
                    )
                    &&& zones@[i].end_time == zone_end(
                        start_time,
                        duration_in_seconds as int,
                        count as int,
                        i,
                    )
                    &&& zones@[i].is_gap()
                },
        decreases count - zone_idx,
    {
        proof {
            lemma_span_bounds(duration_in_seconds as int, count as int);
            lemma_span_step(duration_in_seconds as int, count as int, zone_idx as int);
        }
        let offset: i64 = span * (zone_idx as i64);
        let opens: Timestamp = start_time.checked_add_seconds(offset).unwrap();
        let reach: i64 = if zone_idx == count - 1 {
            duration_in_seconds
        } else {
            span - 1
        };
        let from: Timestamp = if zone_idx == count - 1 {
            start_time
        } else {
            opens
        };
        let closes: Timestamp = from.checked_add_seconds(reach).unwrap();
        zones.push(DataZone::new(opens, closes));
        zone_idx = zone_idx + 1;
    }
    zones
}

/// Counting the gaps of a prefix one zone further adds that zone if it is a
/// gap.
pub proof fn lemma_count_gaps_step(zones: Seq<DataZone>, i: int)
    requires
        0 <= i < zones.len(),
    ensures
        count_gaps(zones.take(i + 1)) == count_gaps(zones.take(i)) + if zones[i].is_gap() {
            1int
        } else {
            0int
        },
        0 <= count_gaps(zones.take(i)) <= i,
    decreases i,
{
    assert(zones.take(i + 1).drop_last() =~= zones.take(i));
    if i > 0 {
        lemma_count_gaps_step(zones, i - 1);
    }
}

/// A prefix has no more gaps than the whole, and the whole no more than it
/// has zones.
pub proof fn lemma_count_gaps_prefix(zones: Seq<DataZone>, i: int)
    requires
        0 <= i <= zones.len(),
    ensures
        0 <= count_gaps(zones.take(i)) <= count_gaps(zones) <= zones.len(),
    decreases zones.len() - i,
{
    if i == zones.len() {
        assert(zones.take(i) =~= zones);
        if i > 0 {
            lemma_count_gaps_step(zones, i - 1);
        }
    } else {
        lemma_count_gaps_step(zones, i);
        lemma_count_gaps_prefix(zones, i + 1);
    }
}

/// Filling one gap leaves one gap fewer, or as many where nothing was put
/// into it.
pub proof fn lemma_count_gaps_update(zones: Seq<DataZone>, i: int, zone: DataZone)
    requires
        0 <= i < zones.len(),
        zones[i].is_gap(),
    ensures
        count_gaps(zones.update(i, zone)) == count_gaps(zones) - if zone.is_gap() {
            0int
        } else {
            1int
        },
    decreases zones.len(),
{
    if i == zones.len() - 1 {
        assert(zones.update(i, zone).drop_last() =~= zones.drop_last());
    } else {
        lemma_count_gaps_update(zones.drop_last(), i, zone);
        assert(zones.update(i, zone).drop_last() =~= zones.drop_last().update(i, zone));
    }
}

/// The number of gaps among `zones`.
pub fn count_gaps_of(zones: &Vec<DataZone>) -> (gaps: usize)
    ensures
        gaps == count_gaps(zones@),
{
    let mut gaps: usize = 0;
    let mut i: usize = 0;
    while i < zones.len()
        invariant
            0 <= i <= zones@.len(),
            gaps == count_gaps(zones@.take(i as int)),
            gaps <= i,
        decreases zones@.len() - i,
    {
        proof {
            lemma_count_gaps_step(zones@, i as int);
        }
        if zones[i].num_rows_to_add == 0 {
            gaps = gaps + 1;
        }
        i = i + 1;
    }
    proof {
        assert(zones@.take(i as int) =~= zones@);
    }
    gaps
}

/// The index of the gap that has exactly `rank` gaps before it.
pub fn nth_gap(zones: &Vec<DataZone>, rank: usize) -> (idx: usize)
    requires
        rank < count_gaps(zones@),
    ensures
        idx < zones@.len(),
        zones@[idx as int].is_gap(),
        count_gaps(zones@.take(idx as int)) == rank,
{
    let count: usize = zones.len();
    let mut seen: usize = 0;
    let mut i: usize = 0;
    proof {
        lemma_count_gaps_prefix(zones@, 0);
    }
    while zones[i].num_rows_to_add != 0 || seen < rank
        invariant
            count == zones@.len(),
            0 <= i < count,
            seen == count_gaps(zones@.take(i as int)),
            seen <= rank < count_gaps(zones@),
        decreases count - i,
    {
        proof {
            lemma_count_gaps_step(zones@, i as int);
            lemma_count_gaps_prefix(zones@, i + 1);
            if i + 1 == count {
                assert(zones@.take(i + 1) =~= zones@);
            }
        }
        if zones[i].num_rows_to_add == 0 {
            seen = seen + 1;
        }
        i = i + 1;
    }
    i
}

/// Allots `rows` to the gap at `idx`.
pub fn fill_gap(zones: &mut Vec<DataZone>, idx: usize, rows: u32)
    requires
        idx < old(zones)@.len(),
        old(zones)@[idx as int].is_gap(),
    ensures
        final(zones)@ == old(zones)@.update(
            idx as int,
            DataZone {
                start_time: old(zones)@[idx as int].start_time,
                end_time: old(zones)@[idx as int].end_time,
                num_rows_to_add: rows,
            },
        ),
        allocated_rows(final(zones)@) == allocated_rows(old(zones)@) + rows,
        count_gaps(final(zones)@) >= count_gaps(old(zones)@) - 1,
{
    let zone: DataZone = zones[idx];
    let filled = DataZone {
        start_time: zone.start_time,
        end_time: zone.end_time,
        num_rows_to_add: rows,
    };
    proof {
        lemma_count_gaps_update(zones@, idx as int, filled);
        lemma_total_shares_update(allocations(zones@), idx as int, rows);
        assert(allocations(zones@.update(idx as int, filled)) =~= allocations(zones@).update(
            idx as int,
            rows,
        ));
    }
    zones.set(idx, filled);
}

/// `after` has the spans of `before`, whatever rows they hold.
pub open spec fn same_spans(before: Seq<DataZone>, after: Seq<DataZone>) -> bool {
    &&& before.len() == after.len()
    &&& forall|i: int|
        #![trigger after[i]]
        0 <= i < before.len() ==> {
            &&& after[i].start_time == before[i].start_time
            &&& after[i].end_time == before[i].end_time
        }
}

/// Lets each share land on a gap picked at random among the gaps that are
/// left. A share without rows leaves its gap a gap.
pub fn place_shares(zones: &mut Vec<DataZone>, shares: &Vec<u32>)
    requires
        shares@.len() <= old(zones)@.len() <= i64::MAX,
        forall|i: int| 0 <= i < old(zones)@.len() ==> (#[trigger] old(zones)@[i]).is_gap(),
    ensures
        same_spans(old(zones)@, final(zones)@),
        exists|slots: Seq<int>| is_placement(shares@, final(zones)@, slots),
        allocated_rows(final(zones)@) == total_shares(shares@),
        count_gaps(final(zones)@) >= old(zones)@.len() - shares@.len(),
{
    let ghost mut slots: Seq<int> = Seq::empty();
    proof {
        lemma_all_gaps(zones@, zones@.len() as int);
        assert(zones@.take(zones@.len() as int) =~= zones@);
        lemma_no_shares(allocations(zones@));
        assert(shares@.take(0) =~= Seq::<u32>::empty());
    }
    let mut j: usize = 0;
    while j < shares.len()
        invariant
            0 <= j <= shares@.len(),
            shares@.len() <= zones@.len() <= i64::MAX,
            same_spans(old(zones)@, zones@),
            count_gaps(zones@) >= zones@.len() - j,
            allocated_rows(zones@) == total_shares(shares@.take(j as int)),
            is_placement(shares@.take(j as int), zones@, slots),
        decreases shares@.len() - j,
    {
        proof {
            lemma_count_gaps_prefix(zones@, 0);
        }
        let gaps: usize = count_gaps_of(zones);
        let rank: i64 = random_in_range(0, gaps as i64);
        let idx: usize = nth_gap(zones, rank as usize);
        let ghost before = zones@;
        fill_gap(zones, idx, shares[j]);
        proof {
            let placed = shares@.take(j as int);
            let grown = shares@.take(j + 1);
            assert(grown.drop_last() =~= placed);
            let landed = slots.push(idx as int);
            assert forall|k: int| 0 <= k < landed.len() && grown[k] > 0 implies zones@[
                #[trigger] landed[k]].num_rows_to_add == grown[k] by {
                if k < j {
                    assert(landed[k] == slots[k]);
                    assert(before[slots[k]].num_rows_to_add == placed[k]);
                }
            }
            assert forall|k: int, l: int|
                0 <= k < l < landed.len() && grown[k] > 0 && grown[l] > 0 implies (
            #[trigger] landed[k]) != (#[trigger] landed[l]) by {
                assert(landed[k] == slots[k]);
                assert(before[slots[k]].num_rows_to_add == placed[k]);
                if l < j {
                    assert(landed[l] == slots[l]);
                }
            }
            assert forall|i: int|
                0 <= i < zones@.len() && !(#[trigger] zones@[i]).is_gap() implies exists|k: int|
                0 <= k < landed.len() && grown[k] > 0 && #[trigger] landed[k] == i by {
                if i == idx {
                    assert(landed[j as int] == i);
                } else {
                    assert(!before[i].is_gap());
                    let k = choose|k: int|
                        0 <= k < slots.len() && placed[k] > 0 && #[trigger] slots[k] == i;
                    assert(landed[k] == i);
                }
            }
            slots = landed;
        }
        j = j + 1;
    }
    proof {
        assert(shares@.take(j as int) =~= shares@);
    }
}

/// Where every zone is a gap, there are as many gaps as zones.
pub proof fn lemma_all_gaps(zones: Seq<DataZone>, i: int)
    requires
        0 <= i <= zones.len(),
        forall|k: int| 0 <= k < zones.len() ==> (#[trigger] zones[k]).is_gap(),
    ensures
        count_gaps(zones.take(i)) == i,
    decreases i,
{
    if i > 0 {
        lemma_all_gaps(zones, i - 1);
        lemma_count_gaps_step(zones, i - 1);
    }
}

/// Shares that are all zero sum to zero.
pub proof fn lemma_no_shares(shares: Seq<u32>)
    requires
        forall|i: int| 0 <= i < shares.len() ==> #[trigger] shares[i] == 0,
    ensures
        total_shares(shares) == 0,
    decreases shares.len(),
{
    if shares.len() > 0 {
        lemma_no_shares(shares.drop_last());
    }
}

/// Cuts the window into `generation_factor` candidate spans for each share
/// and lets each share land on a span of its own, picked at random; the
/// other spans stay gaps.
pub fn generate_sparse_fill_zone_and_boundaries(
    data_zones_to_be_generated: &Vec<u32>,
    generation_factor: u32,
    start_time: Timestamp,
    duration_in_seconds: i64,
) -> (zones: Vec<DataZone>)
    requires
        generation_factor > 0,
        data_zones_to_be_generated@.len() > 0,
        generation_factor * data_zones_to_be_generated@.len() <= usize::MAX,
        generation_factor * data_zones_to_be_generated@.len() <= i64::MAX,
        duration_in_seconds >= 0,
        start_time.wf(),
        window_fits(
            start_time,
            duration_in_seconds as int,
            generation_factor * data_zones_to_be_generated@.len(),
        ),
    ensures
        zones@.len() == generation_factor * data_zones_to_be_generated@.len(),
        spans_window(zones@, start_time, duration_in_seconds as int),
        exists|slots: Seq<int>| is_placement(data_zones_to_be_generated@, zones@, slots),
        allocated_rows(zones@) == total_shares(data_zones_to_be_generated@),
        count_gaps(zones@) >= zones@.len() - data_zones_to_be_generated@.len(),
{
    let wanted: usize = data_zones_to_be_generated.len();
    proof {
        assert(wanted <= generation_factor * wanted) by (nonlinear_arith)
            requires
                generation_factor >= 1,
                wanted >= 0,
        ;
        assert(generation_factor * wanted > 0) by (nonlinear_arith)
            requires
                generation_factor >= 1,
                wanted >= 1,
        ;
    }
    let data_zones_len: usize = (generation_factor as usize) * wanted;
    let mut zones: Vec<DataZone> = zone_boundaries(
        data_zones_len,
        start_time,
        duration_in_seconds,
    );
    place_shares(&mut zones, data_zones_to_be_generated);
    zones
}

} // verus!
