//! The zones of the sparse-fill strategy: how the rows are shared out among
//! them, and where in the window they come to lie.

use super::random::{distinct_pair, pick_2_random_datapoint, random_in_range};
use super::timestamp::Timestamp;
use vstd::prelude::*;

verus! {

/// A candidate span of the window, from `start_time` to `end_time`
/// inclusive, and the rows allotted to it. A span without rows is a gap.
#[derive(Clone, Copy, Debug, PartialEq, Eq, Structural)]
pub struct DataZone {
    pub start_time: Timestamp,
    pub end_time: Timestamp,
    pub num_rows_to_add: u32,
}

impl DataZone {
    /// A gap between the two instants.
    pub fn new(start_time: Timestamp, end_time: Timestamp) -> (zone: DataZone)
        ensures
            zone == (DataZone { start_time, end_time, num_rows_to_add: 0 }),
    {
        DataZone { start_time, end_time, num_rows_to_add: 0 }
    }

    /// Whether no rows are allotted to this span.
    pub open spec fn is_gap(self) -> bool {
        self.num_rows_to_add == 0
    }
}

/// The sum of `shares`.
pub open spec fn total_shares(shares: Seq<u32>) -> int
    decreases shares.len(),
{
    if shares.len() == 0 {
        0
    } else {
        total_shares(shares.drop_last()) + shares.last()
    }
}

/// Appending a share adds it to the sum.
pub proof fn lemma_total_shares_push(shares: Seq<u32>, share: u32)
    ensures
        total_shares(shares.push(share)) == total_shares(shares) + share,
{
    assert(shares.push(share).drop_last() =~= shares);
}

/// Replacing one share changes the sum by the difference of the two.
pub proof fn lemma_total_shares_update(shares: Seq<u32>, i: int, share: u32)
    requires
        0 <= i < shares.len(),
    ensures
        total_shares(shares.update(i, share)) == total_shares(shares) - shares[i] + share,
    decreases shares.len(),
{
    if i == shares.len() - 1 {
        assert(shares.update(i, share).drop_last() =~= shares.drop_last());
    } else {
        lemma_total_shares_update(shares.drop_last(), i, share);
        assert(shares.update(i, share).drop_last() =~= shares.drop_last().update(i, share));
    }
}

/// No share exceeds the sum.
pub proof fn lemma_share_at_most_total(shares: Seq<u32>, i: int)
    requires
        0 <= i < shares.len(),
    ensures
        shares[i] <= total_shares(shares),
    decreases shares.len(),
{
    lemma_total_shares_non_negative(shares.drop_last());
    if i < shares.len() - 1 {
        lemma_share_at_most_total(shares.drop_last(), i);
    }
}

/// A sum of shares is never negative.
pub proof fn lemma_total_shares_non_negative(shares: Seq<u32>)
    ensures
        total_shares(shares) >= 0,
    decreases shares.len(),
{
    if shares.len() > 0 {
        lemma_total_shares_non_negative(shares.drop_last());
    }
}

/// The share of part `i` when `total` is split into `parts`: the quotient for
/// every part but the last, which takes the rest.
pub open spec fn even_share(total: int, parts: int, i: int) -> int {
    if i == parts - 1 {
        total - (total / parts) * (parts - 1)
    } else {
        total / parts
    }
}

/// The even split of `total` into `parts` shares.
pub open spec fn even_shares(total: int, parts: int) -> Seq<u32> {
    Seq::new(parts as nat, |i: int| even_share(total, parts, i) as u32)
}

/// Splits `total` into `parts` shares: the quotient for each but the last,
/// which takes the rest.
pub fn split_evenly(total: u32, parts: u32) -> (shares: Vec<u32>)
    requires
        parts > 0,
    ensures
        shares@ == even_shares(total as int, parts as int),
        total_shares(shares@) == total,
{
    let quotient: u32 = total / parts;
    let last: u32 = parts - 1;
    proof {
        vstd::arithmetic::div_mod::lemma_fundamental_div_mod(total as int, parts as int);
        vstd::arithmetic::div_mod::lemma_mod_bound(total as int, parts as int);
        assert(parts * quotient == quotient * last + quotient) by (nonlinear_arith)
            requires
                last == parts - 1,
        ;
        assert(quotient * last >= 0) by (nonlinear_arith)
            requires
                quotient >= 0,
                last >= 0,
        ;
    }
    let mut shares: Vec<u32> = Vec::new();
    let mut i: u32 = 0;
    while i < last
        invariant
            0 <= i <= last,
            quotient == (total as int) / (parts as int),
            last == parts - 1,
            shares@.len() == i,
            total_shares(shares@) == quotient * i,
            forall|j: int| 0 <= j < i ==> (#[trigger] shares@[j]) == quotient,
        decreases last - i,
    {
        proof {
            lemma_total_shares_push(shares@, quotient);
            assert(quotient * (i + 1) == quotient * i + quotient) by (nonlinear_arith);
        }
        shares.push(quotient);
        i = i + 1;
    }
    let rest: u32 = total - quotient * last;
    proof {
        lemma_total_shares_push(shares@, rest);
    }
    shares.push(rest);
    proof {
        assert(shares@ =~= even_shares(total as int, parts as int));
    }
    shares
}

/// `after` is `before` with `delta` moved from share `first` to share
/// `second`.
pub open spec fn is_share_transfer(
    before: Seq<u32>,
    after: Seq<u32>,
    first: int,
    second: int,
    delta: int,
) -> bool {
    after == before.update(first, (before[first] - delta) as u32).update(
        second,
        (before[second] + delta) as u32,
    )
}

/// Whether `delta` can leave a share of `source` for one of `target`:
/// something moves, at least one row stays behind, and the receiving share
/// stays within its 32 bits.
pub open spec fn can_move_share(source: int, target: int, delta: int) -> bool {
    1 <= delta < source && target + delta <= u32::MAX
}

/// `after` is what a round makes of `before` when it picked the shares
/// `first` and `second` and drew `delta` rows: the transfer, where
/// [`can_move_share`] allows it, and nothing where not.
pub open spec fn is_share_step(
    before: Seq<u32>,
    after: Seq<u32>,
    first: int,
    second: int,
    delta: int,
) -> bool {
    if can_move_share(before[first] as int, before[second] as int, delta) {
        is_share_transfer(before, after, first, second, delta)
    } else {
        after == before
    }
}

/// `after` is what one round of a shuffle may make of `before`: the round
/// picks two different shares and, where the first holds two rows or more,
/// draws a part of them, never all, to move to the second. Rows stay where
/// they are only if the first share holds fewer than two or the second
/// would outgrow its 32 bits. Fewer than two shares leave nothing to pick.
pub open spec fn is_share_round(before: Seq<u32>, after: Seq<u32>) -> bool {
    if before.len() < 2 {
        after == before
    } else {
        exists|first: int, second: int, delta: int|
            {
                &&& distinct_pair(before.len() as int, first, second)
                &&& before[first] >= 2 ==> 1 <= delta < before[first]
                &&& #[trigger] is_share_step(before, after, first, second, delta)
            }
    }
}

/// `after` is what a shuffle of `rounds` rounds may make of `before`.
pub open spec fn is_share_shuffle(before: Seq<u32>, after: Seq<u32>, rounds: nat) -> bool
    decreases rounds,
{
    if rounds == 0 {
        after == before
    } else {
        exists|mid: Seq<u32>|
            is_share_shuffle(before, mid, (rounds - 1) as nat) && #[trigger] is_share_round(
                mid,
                after,
            )
    }
}

/// A transfer that [`can_move_share`] allows keeps the number of shares and
/// their sum.
pub proof fn lemma_share_transfer_conserves(
    before: Seq<u32>,
    after: Seq<u32>,
    first: int,
    second: int,
    delta: int,
)
    requires
        0 <= first < before.len(),
        0 <= second < before.len(),
        first != second,
        can_move_share(before[first] as int, before[second] as int, delta),
        is_share_transfer(before, after, first, second, delta),
    ensures
        after.len() == before.len(),
        total_shares(after) == total_shares(before),
{
    let lighter = (before[first] - delta) as u32;
    lemma_total_shares_update(before, first, lighter);
    lemma_total_shares_update(
        before.update(first, lighter),
        second,
        (before[second] + delta) as u32,
    );
}

/// A shuffle of fewer than two shares leaves them as they are, however many
/// rounds it has.
pub proof fn lemma_share_shuffle_idle(shares: Seq<u32>, rounds: nat)
    requires
        shares.len() < 2,
    ensures
        is_share_shuffle(shares, shares, rounds),
    decreases rounds,
{
    if rounds > 0 {
        lemma_share_shuffle_idle(shares, (rounds - 1) as nat);
        assert(is_share_round(shares, shares));
    }
}

/// However many rounds a shuffle has, it keeps the number of shares and
/// their sum.
pub proof fn lemma_share_shuffle_conserves(before: Seq<u32>, after: Seq<u32>, rounds: nat)
    requires
        is_share_shuffle(before, after, rounds),
    ensures
        after.len() == before.len(),
        total_shares(after) == total_shares(before),
    decreases rounds,
{
    if rounds > 0 {
        let mid = choose|mid: Seq<u32>|
            is_share_shuffle(before, mid, (rounds - 1) as nat) && #[trigger] is_share_round(
                mid,
                after,
            );
        lemma_share_shuffle_conserves(before, mid, (rounds - 1) as nat);
        if mid.len() >= 2 {
            let (first, second, delta) = choose|first: int, second: int, delta: int|
                {
                    &&& distinct_pair(mid.len() as int, first, second)
                    &&& mid[first] >= 2 ==> 1 <= delta < mid[first]
                    &&& #[trigger] is_share_step(mid, after, first, second, delta)
                };
            if can_move_share(mid[first] as int, mid[second] as int, delta) {
                lemma_share_transfer_conserves(mid, after, first, second, delta);
            }
        }
    }
}

/// Moves `delta` from share `first` to share `second` where
/// [`can_move_share`] allows it, and leaves the shares alone where not.
pub fn move_share(shares: &mut Vec<u32>, first: usize, second: usize, delta: u32)
    requires
        first < old(shares)@.len(),
        second < old(shares)@.len(),
        first != second,
    ensures
        can_move_share(
            old(shares)@[first as int] as int,
            old(shares)@[second as int] as int,
            delta as int,
        ) ==> is_share_transfer(
            old(shares)@,
            final(shares)@,
            first as int,
            second as int,
            delta as int,
        ),
        !can_move_share(
            old(shares)@[first as int] as int,
            old(shares)@[second as int] as int,
            delta as int,
        ) ==> final(shares)@ == old(shares)@,
        final(shares)@.len() == old(shares)@.len(),
        total_shares(final(shares)@) == total_shares(old(shares)@),
{
    let source: u32 = shares[first];
    let target: u32 = shares[second];
    if delta >= 1 && delta < source && target <= u32::MAX - delta {
        shares.set(first, source - delta);
        shares.set(second, target + delta);
        proof {
            lemma_share_transfer_conserves(
                old(shares)@,
                shares@,
                first as int,
                second as int,
                delta as int,
            );
        }
    }
}

/// Runs `rounds` rounds over `shares`: each round picks two different shares
/// at random and, where the first holds two rows or more, moves a random
/// part of them, never all, to the second, unless that would take the
/// second beyond its 32 bits. Fewer than two shares leave nothing to move.
pub fn shuffle_shares(shares: &mut Vec<u32>, rounds: u32)
    requires
        old(shares)@.len() <= i64::MAX,
    ensures
        is_share_shuffle(old(shares)@, final(shares)@, rounds as nat),
        final(shares)@.len() == old(shares)@.len(),
        total_shares(final(shares)@) == total_shares(old(shares)@),
{
    let parts: usize = shares.len();
    if parts < 2 {
        proof {
            lemma_share_shuffle_idle(shares@, rounds as nat);
        }
        return ;
    }
    let mut round: u32 = 0;
    while round < rounds
        invariant
            parts == shares@.len(),
            2 <= parts <= i64::MAX,
            round <= rounds,
            is_share_shuffle(old(shares)@, shares@, round as nat),
        decreases rounds - round,
    {
        let ghost mid = shares@;
        proof {
            lemma_share_shuffle_conserves(old(shares)@, mid, round as nat);
        }
        let (first_slot, second_slot) = pick_2_random_datapoint(parts as i64);
        let upper_bound: u32 = shares[first_slot as usize];
        let ghost mut drawn: int = 0;
        if upper_bound >= 2 {
            let delta: i64 = random_in_range(1, upper_bound as i64);
            proof {
                drawn = delta as int;
            }
            move_share(shares, first_slot as usize, second_slot as usize, delta as u32);
        }
        proof {
            assert(is_share_step(mid, shares@, first_slot as int, second_slot as int, drawn));
            assert(is_share_round(mid, shares@));
        }
        round = round + 1;
    }
    proof {
        lemma_share_shuffle_conserves(old(shares)@, shares@, rounds as nat);
    }
}

/// The fewest zones that a sparse fill makes.
pub const MIN_ZONES: u32 = 3;

/// The most zones that a sparse fill makes.
pub const MAX_ZONES: u32 = 6;

/// The number of transfers that follow the even split among zones, for each
/// zone.
pub const SHUFFLES_PER_ZONE: u32 = 5;

/// `shares` are a way to share `total` rows out among zones: what a shuffle
/// of five rounds for each zone may make of the even split among three to
/// six zones.
pub open spec fn is_zone_sharing(shares: Seq<u32>, total: int) -> bool {
    &&& MIN_ZONES <= shares.len() <= MAX_ZONES
    &&& is_share_shuffle(
        even_shares(total, shares.len() as int),
        shares,
        (SHUFFLES_PER_ZONE * shares.len()) as nat,
    )
    &&& total_shares(shares) == total
}

/// Shares `total` rows out among a random number of zones, between
/// [`MIN_ZONES`] and [`MAX_ZONES`]: an even split, then
/// [`SHUFFLES_PER_ZONE`] random transfers for each zone.
pub fn generate_sparse_fill_zone_shares(total: u32) -> (shares: Vec<u32>)
    ensures
        is_zone_sharing(shares@, total as int),
{
    let num_of_zone: i64 = random_in_range(MIN_ZONES as i64, MAX_ZONES as i64 + 1);
    let mut shares: Vec<u32> = split_evenly(total, num_of_zone as u32);
    shuffle_shares(&mut shares, (num_of_zone as u32) * SHUFFLES_PER_ZONE);
    shares
}

} // verus!
