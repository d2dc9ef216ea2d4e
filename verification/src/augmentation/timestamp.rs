//! Instants with second granularity and a sub-second remainder.

use vstd::prelude::*;

verus! {

/// Nanosecond remainders from this value upward denote a leap second.
pub const LEAP_NANOS: u32 = 1_000_000_000;

/// Nanosecond remainders from this value upward denote no instant: a leap
/// second is a second long.
pub const END_NANOS: u32 = 2_000_000_000;

/// The Unix second of the earliest instant that `chrono` holds as a
/// `DateTime<Utc>`: the start of the year 262144 BCE.
pub const MIN_CALENDAR_SECS: i64 = -8_334_601_228_800;

/// The Unix second of the latest instant that `chrono` holds as a
/// `DateTime<Utc>`: the last second of the year 262142 CE.
pub const MAX_CALENDAR_SECS: i64 = 8_210_266_876_799;

/// An instant on the UTC time line: whole seconds since the Unix epoch and the
/// nanoseconds past that second.
///
/// A remainder of [`LEAP_NANOS`] or more stands for a leap second that follows
/// the second `secs`. A remainder of [`END_NANOS`] or more stands for
/// nothing: see [`Timestamp::wf`].
#[derive(Clone, Copy, Debug, PartialEq, Eq, Structural)]
pub struct Timestamp {
    pub secs: i64,
    pub nanos: u32,
}

impl Timestamp {
    /// Whether the two numbers denote an instant: the remainder stays within
    /// the second, or within the leap second that follows it.
    pub open spec fn wf(self) -> bool {
        self.nanos < END_NANOS
    }

    /// Whether this instant lies inside a leap second.
    pub open spec fn is_leap(self) -> bool {
        self.nanos >= LEAP_NANOS
    }

    /// Whether this instant can have been read from a clock: it lies within
    /// the years that `chrono` holds, and in no leap second.
    pub open spec fn is_clock_reading(self) -> bool {
        &&& MIN_CALENDAR_SECS <= self.secs <= MAX_CALENDAR_SECS
        &&& !self.is_leap()
    }

    /// The Unix second of the instant `k` seconds away from this one, counted
    /// as `chrono` counts when whole seconds are added to a `DateTime`.
    ///
    /// A leap second counts as part of the second it follows: stepping forward
    /// out of it lands `k` seconds later, stepping backward starts from the
    /// second after.
    pub open spec fn secs_after(self, k: int) -> int {
        if self.is_leap() && k < 0 {
            self.secs + 1 + k
        } else {
            self.secs + k
        }
    }

    /// The nanosecond remainder of the instant `k` seconds away from this one:
    /// a step out of a leap second leaves the leap behind.
    pub open spec fn nanos_after(self, k: int) -> u32 {
        if self.is_leap() && k != 0 {
            (self.nanos - LEAP_NANOS) as u32
        } else {
            self.nanos
        }
    }

    /// Whether the instant `k` seconds away can be represented.
    pub open spec fn can_shift(self, k: int) -> bool {
        i64::MIN <= self.secs_after(k) <= i64::MAX
    }

    /// The instant `k` whole seconds away from this one.
    pub open spec fn after(self, k: int) -> Timestamp {
        Timestamp { secs: self.secs_after(k) as i64, nanos: self.nanos_after(k) }
    }

    /// The instant `nanos` nanoseconds past the Unix second `secs`.
    pub fn new(secs: i64, nanos: u32) -> (t: Timestamp)
        ensures
            t.secs == secs,
            t.nanos == nanos,
    {
        Timestamp { secs, nanos }
    }

    /// Moves this instant by `k` whole seconds, or returns `None` where the
    /// result has no representation.
    pub fn checked_add_seconds(self, k: i64) -> (r: Option<Timestamp>)
        requires
            self.wf(),
        ensures
            r.is_some() <==> self.can_shift(k as int),
            r.is_some() ==> r.unwrap() == self.after(k as int) && r.unwrap().wf(),
    {
        let leap: bool = self.nanos >= LEAP_NANOS;
        let base: i64 = if leap && k < 0 {
            // `k + 1` first: `secs + 1` alone may overflow where the sum does not.
            match self.secs.checked_add(k + 1) {
                Some(s) => s,
                None => {
                    return None;
                },
            }
        } else {
            match self.secs.checked_add(k) {
                Some(s) => s,
                None => {
                    return None;
                },
            }
        };
        let nanos: u32 = if leap && k != 0 {
            self.nanos - LEAP_NANOS
        } else {
            self.nanos
        };
        Some(Timestamp { secs: base, nanos })
    }
}

/// Steps in one direction add up: `a` seconds and then `b` more lead where
/// `a + b` seconds lead, and an instant stays an instant on the way.
pub proof fn lemma_steps_add_up(start: Timestamp, a: int, b: int)
    requires
        start.wf(),
        (a >= 0 && b >= 0) || (a <= 0 && b <= 0),
        start.can_shift(a),
        start.can_shift(a + b),
    ensures
        start.after(a).wf(),
        start.after(a).after(b) == start.after(a + b),
{
}

/// What `chrono::DateTime::parse_from_str` makes of `value` under `format`:
/// the Unix second and the nanosecond remainder of the instant it reads, as
/// `DateTime::timestamp` and `DateTime::timestamp_subsec_nanos` give them,
/// or the words of the error it returns.
pub uninterp spec fn parsed_timestamp(value: Seq<char>, format: Seq<char>) -> Result<
    (i64, u32),
    Seq<char>,
>;

/// Reads `value` as an instant written in `format`, with
/// `chrono::DateTime::parse_from_str`.
///
/// The contract names the outcome: the same two texts give the same instant
/// or the same error wherever they are read, since the text must state its
/// own offset from UTC. The instant comes back as the values of
/// `DateTime::timestamp` and `DateTime::timestamp_subsec_nanos`, the error
/// as its `Display` text. Of the instant one thing more is claimed: its
/// remainder stays below [`END_NANOS`], the bound that `chrono` keeps for
/// the nanoseconds of every time of day.
#[verifier::external_body]
pub(crate) fn parse_timestamp(value: &str, format: &str) -> (parsed: Result<Timestamp, String>)
    ensures
        parsed matches Ok(instant) ==> instant.wf(),
        match parsed {
            Ok(instant) => parsed_timestamp(value@, format@) == Ok::<(i64, u32), Seq<char>>(
                (instant.secs, instant.nanos),
            ),
            Err(reason) => parsed_timestamp(value@, format@) == Err::<(i64, u32), Seq<char>>(
                reason@,
            ),
        },
{
    match chrono::DateTime::parse_from_str(value, format) {
        Ok(instant) => Ok(
            Timestamp { secs: instant.timestamp(), nanos: instant.timestamp_subsec_nanos() },
        ),
        Err(reason) => Err(reason.to_string()),
    }
}

/// Reads the clock with `chrono::Utc::now`, and gives the instant as the
/// values of `DateTime::timestamp` and `DateTime::timestamp_subsec_nanos`.
///
/// The outcome is another one at every call. Claimed is what holds of each:
/// it lies between the earliest and the latest `DateTime<Utc>`, and in no
/// leap second, since it is made from whole seconds and a remainder below
/// one second. The call takes a system clock that stands at or after the
/// Unix epoch for granted.
#[verifier::external_body]
pub(crate) fn current_timestamp() -> (now: Timestamp)
    ensures
        now.is_clock_reading(),
{
    let now = chrono::Utc::now();
    Timestamp { secs: now.timestamp(), nanos: now.timestamp_subsec_nanos() }
}

} // verus!
