//! The random draws that the allocation strategies make.

use rand::Rng;
use vstd::prelude::*;

verus! {

/// Draws an integer from `low..high` with the thread-local generator, through
/// `rand::Rng::random_range` on the handle that `rand::rng` returns.
///
/// The call panics on an empty range, so `low < high` is demanded. Of the
/// outcome only the range is claimed: two calls may differ.
#[verifier::external_body]
pub(crate) fn random_in_range(low: i64, high: i64) -> (r: i64)
    requires
        low < high,
    ensures
        low <= r < high,
{
    rand::rng().random_range(low..high)
}

/// Whether `(first, second)` are two different indices below `slots_length`.
pub open spec fn distinct_pair(slots_length: int, first: int, second: int) -> bool {
    &&& 0 <= first < slots_length
    &&& 0 <= second < slots_length
    &&& first != second
}

/// The pair that two draws stand for: `first` is the first draw, and the
/// second draw, taken among the `slots_length - 1` other indices, steps over
/// `first`.
pub open spec fn pair_of_draws(first: int, other: int) -> (int, int) {
    if other >= first {
        (first, other + 1)
    } else {
        (first, other)
    }
}

/// Turns a draw below `slots_length` and a draw below `slots_length - 1` into
/// two different indices.
pub fn pair_from_draws(slots_length: i64, first: i64, other: i64) -> (pair: (i64, i64))
    requires
        slots_length >= 2,
        0 <= first < slots_length,
        0 <= other < slots_length - 1,
    ensures
        (pair.0 as int, pair.1 as int) == pair_of_draws(first as int, other as int),
        distinct_pair(slots_length as int, pair.0 as int, pair.1 as int),
{
    if other >= first {
        (first, other + 1)
    } else {
        (first, other)
    }
}

/// Picks two different indices below `slots_length` at random; every ordered
/// pair of different indices is as likely as any other.
pub fn pick_2_random_datapoint(slots_length: i64) -> (pair: (i64, i64))
    requires
        slots_length >= 2,
    ensures
        distinct_pair(slots_length as int, pair.0 as int, pair.1 as int),
{
    let first: i64 = random_in_range(0, slots_length);
    let other: i64 = random_in_range(0, slots_length - 1);
    pair_from_draws(slots_length, first, other)
}

} // verus!
