//! Durations written as a number and a unit, such as `10m` or `3h`.

use super::error::GenerateError;
use crate::text::same_text;
use vstd::prelude::*;
use vstd::string::{StrSliceExecFns, StringExecFns};

verus! {

/// Whether `c` is one of the ten ASCII digits.
pub open spec fn is_digit(c: char) -> bool {
    '0' <= c && c <= '9'
}

/// The number that the digit `c` stands for.
pub open spec fn digit_value(c: char) -> int {
    c as int - '0' as int
}

/// The number that `digits` spell in base ten.
pub open spec fn decimal_value(digits: Seq<char>) -> int
    decreases digits.len(),
{
    if digits.len() == 0 {
        0
    } else {
        decimal_value(digits.drop_last()) * 10 + digit_value(digits.last())
    }
}

/// Whether `idx` is the place of the first character of `s` that is no
/// digit.
pub open spec fn splits_at(s: Seq<char>, idx: int) -> bool {
    &&& 0 <= idx < s.len()
    &&& !is_digit(s[idx])
    &&& forall|j: int| 0 <= j < idx ==> is_digit(#[trigger] s[j])
}

/// The number and the unit that `s` is made of: the digits in front of its
/// first other character, read in base ten, and the rest. There is none
/// where `s` holds digits only, starts with something else, or spells a
/// number beyond 64 bits.
pub open spec fn duration_parts(s: Seq<char>) -> Option<(int, Seq<char>)> {
    if exists|idx: int| splits_at(s, idx) {
        let idx = choose|idx: int| splits_at(s, idx);
        if idx > 0 && decimal_value(s.take(idx)) <= i64::MAX {
            Some((decimal_value(s.take(idx)), s.skip(idx)))
        } else {
            None
        }
    } else {
        None
    }
}

/// The seconds that one of `unit` lasts, and zero for a unit that is not
/// known.
pub open spec fn unit_seconds(unit: Seq<char>) -> int {
    if unit == "s"@ {
        1
    } else if unit == "m"@ {
        60
    } else if unit == "h"@ {
        3_600
    } else if unit == "d"@ {
        86_400
    } else {
        0
    }
}

/// The seconds that the duration `s` lasts, where it has a number and a
/// unit.
pub open spec fn duration_seconds(s: Seq<char>) -> Option<int> {
    match duration_parts(s) {
        Some((number, unit)) => Some(number * unit_seconds(unit)),
        None => None,
    }
}

/// A string has one first character that is no digit, or none.
pub proof fn lemma_split_unique(s: Seq<char>, a: int, b: int)
    requires
        splits_at(s, a),
        splits_at(s, b),
    ensures
        a == b,
{
    if a < b {
        assert(is_digit(s[a]));
    } else if b < a {
        assert(is_digit(s[b]));
    }
}

/// Reading one digit more never makes the number smaller.
pub proof fn lemma_decimal_value_grows(digits: Seq<char>, shorter: int, longer: int)
    requires
        0 <= shorter <= longer <= digits.len(),
        forall|j: int| 0 <= j < digits.len() ==> is_digit(#[trigger] digits[j]),
    ensures
        0 <= decimal_value(digits.take(shorter)) <= decimal_value(digits.take(longer)),
    decreases longer,
{
    if longer == 0 {
        assert(digits.take(0).len() == 0);
    } else {
        assert(digits.take(longer).drop_last() =~= digits.take(longer - 1));
        assert(is_digit(digits[longer - 1]));
        if shorter < longer {
            lemma_decimal_value_grows(digits, shorter, longer - 1);
        } else {
            lemma_decimal_value_grows(digits, longer - 1, longer - 1);
        }
    }
}

/// Where the first character of `s` that is no digit stands at `idx`, the
/// digits before it are the number and the rest is the unit.
pub proof fn lemma_duration_parts_at(s: Seq<char>, idx: int)
    requires
        splits_at(s, idx),
    ensures
        duration_parts(s) == if idx > 0 && decimal_value(s.take(idx)) <= i64::MAX {
            Some((decimal_value(s.take(idx)), s.skip(idx)))
        } else {
            None
        },
{
    lemma_split_unique(s, choose|at: int| splits_at(s, at), idx);
}

/// A duration is never negative.
pub proof fn lemma_duration_seconds_non_negative(s: Seq<char>)
    ensures
        duration_seconds(s) matches Some(length) ==> length >= 0,
{
    if let Some((number, unit)) = duration_parts(s) {
        let idx = choose|idx: int| splits_at(s, idx);
        let digits = s.take(idx);
        lemma_decimal_value_grows(digits, 0, idx);
        assert(digits.take(idx) =~= digits);
        assert(number * unit_seconds(unit) >= 0) by (nonlinear_arith)
            requires
                number >= 0,
                unit_seconds(unit) >= 0,
        ;
    }
}

/// Splits a duration into its number and its unit: the digits in front of
/// the first character that is no digit, and all that follows them.
pub fn parse_time_duration_value_and_unit(value: String) -> (parts: Option<(i64, String)>)
    ensures
        match parts {
            Some((number, unit)) => number >= 0 && duration_parts(value@) == Some(
                (number as int, unit@),
            ),
            None => duration_parts(value@).is_none(),
        },
{
    let text: &str = value.as_str();
    let length: usize = text.unicode_len();
    let mut idx: usize = 0;
    while idx < length && '0' <= text.get_char(idx) && text.get_char(idx) <= '9'
        invariant
            length == text@.len(),
            0 <= idx <= length,
            forall|j: int| 0 <= j < idx ==> is_digit(#[trigger] text@[j]),
        decreases length - idx,
    {
        idx = idx + 1;
    }
    if idx == length {
        proof {
            assert forall|at: int| !splits_at(text@, at) by {
                if 0 <= at < text@.len() {
                    assert(is_digit(text@[at]));
                }
            }
        }
        return None;
    }
    proof {
        lemma_duration_parts_at(text@, idx as int);
    }
    if idx == 0 {
        return None;
    }
    let ghost digits = text@.take(idx as int);
    let mut number: i64 = 0;
    let mut j: usize = 0;
    while j < idx
        invariant
            length == text@.len(),
            0 <= j <= idx < length,
            text@ == value@,
            digits == text@.take(idx as int),
            forall|k: int| 0 <= k < digits.len() ==> is_digit(#[trigger] digits[k]),
            decimal_value(digits) > i64::MAX ==> duration_parts(text@).is_none(),
            number == decimal_value(digits.take(j as int)),
            number >= 0,
        decreases idx - j,
    {
        let c: char = text.get_char(j);
        proof {
            assert(digits[j as int] == text@[j as int]);
            assert(is_digit(digits[j as int]));
        }
        let digit: i64 = (c as u32 - '0' as u32) as i64;
        proof {
            assert(digits.take(j + 1).drop_last() =~= digits.take(j as int));
            lemma_decimal_value_grows(digits, j + 1, idx as int);
            assert(digits.take(idx as int) =~= digits);
        }
        if number > (i64::MAX - digit) / 10 {
            return None;
        }
        number = number * 10 + digit;
        j = j + 1;
    }
    proof {
        assert(digits.take(idx as int) =~= digits);
        assert(text@.subrange(idx as int, length as int) =~= text@.skip(idx as int));
    }
    let unit: String = String::from_str(text.substring_char(idx, length));
    Some((number, unit))
}

/// Reads a duration and gives its length in seconds. A unit other than `s`,
/// `m`, `h` and `d` makes the duration zero seconds long.
pub fn parse_time_duration(value: String) -> (seconds: Result<i64, GenerateError>)
    ensures
        match duration_seconds(value@) {
            None => seconds == Err::<i64, GenerateError>(GenerateError::DurationParse),
            Some(length) => if length <= i64::MAX {
                seconds == Ok::<i64, GenerateError>(length as i64)
            } else {
                seconds == Err::<i64, GenerateError>(GenerateError::DurationOutOfRange)
            },
        },
{
    let (number, unit) = match parse_time_duration_value_and_unit(value) {
        Some(parts) => parts,
        None => {
            return Err(GenerateError::DurationParse);
        },
    };
    let each: i64 = if same_text(unit.as_str(), "s") {
        1
    } else if same_text(unit.as_str(), "m") {
        60
    } else if same_text(unit.as_str(), "h") {
        3_600
    } else if same_text(unit.as_str(), "d") {
        86_400
    } else {
        0
    };
    match number.checked_mul(each) {
        Some(length) => Ok(length),
        None => Err(GenerateError::DurationOutOfRange),
    }
}

} // verus!
