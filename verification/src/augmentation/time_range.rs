//! The window that a run covers: where it starts and where it ends.

use super::duration::{
    duration_seconds, lemma_duration_seconds_non_negative, parse_time_duration,
};
use super::error::GenerateError;
use super::timestamp::{
    current_timestamp, parse_timestamp, parsed_timestamp, Timestamp, MAX_CALENDAR_SECS,
};
use crate::config::{text_of, Config};
use vstd::prelude::*;

verus! {

/// The window that starts at `start` and lasts as long as `duration` says:
/// it ends where it starts if no duration is given.
pub open spec fn window_of(start: Timestamp, duration: Option<Seq<char>>) -> Result<
    (Timestamp, Timestamp),
    GenerateError,
> {
    match duration {
        None => Ok((start, start)),
        Some(text) => match duration_seconds(text) {
            None => Err(GenerateError::DurationParse),
            Some(length) => if length > i64::MAX {
                Err(GenerateError::DurationOutOfRange)
            } else if !start.can_shift(length) {
                Err(GenerateError::WindowOutOfRange)
            } else {
                Ok((start, start.after(length)))
            },
        },
    }
}

/// Whether `cfg` says all that the start of the window asks for: a fixed
/// start needs its timestamp and the format to read it with.
pub open spec fn names_start(cfg: Config) -> bool {
    cfg.use_now_as_timestamp == Some(false) ==> cfg.start_timestamp.is_some()
        && cfg.timestamp_format.is_some()
}

/// `error` reports that `value` does not follow `format`, for the reason
/// that `reason` gives.
pub open spec fn is_timestamp_error(
    error: GenerateError,
    value: Seq<char>,
    format: Seq<char>,
    reason: Seq<char>,
) -> bool {
    match error {
        GenerateError::TimestampParse { value: v, format: f, reason: r } => v@ == value && f@
            == format && r@ == reason,
        _ => false,
    }
}

/// The window from `start` that lasts as long as `generation_duration` says.
pub fn time_range_from(start: Timestamp, generation_duration: &Option<String>) -> (range: Result<
    (Timestamp, Timestamp),
    GenerateError,
>)
    requires
        start.wf(),
    ensures
        range == window_of(start, text_of(*generation_duration)),
{
    match generation_duration {
        None => Ok((start, start)),
        Some(text) => {
            let length: i64 = match parse_time_duration(text.clone()) {
                Ok(length) => length,
                Err(error) => {
                    return Err(error);
                },
            };
            proof {
                lemma_duration_seconds_non_negative(text@);
            }
            match start.checked_add_seconds(length) {
                Some(end) => Ok((start, end)),
                None => Err(GenerateError::WindowOutOfRange),
            }
        },
    }
}

/// Where the window starts: now, unless `cfg` asks for a fixed start, which
/// is then read from its timestamp with its format.
pub fn start_of_range(cfg: &Config) -> (start: Result<Timestamp, GenerateError>)
    requires
        names_start(*cfg),
    ensures
        cfg.use_now_as_timestamp == Some(false) ==> match parsed_timestamp(
            cfg.start_timestamp.unwrap()@,
            cfg.timestamp_format.unwrap()@,
        ) {
            Ok((secs, nanos)) => start == Ok::<Timestamp, GenerateError>(
                Timestamp { secs, nanos },
            ),
            Err(reason) => start.is_err() && is_timestamp_error(
                start.unwrap_err(),
                cfg.start_timestamp.unwrap()@,
                cfg.timestamp_format.unwrap()@,
                reason,
            ),
        },
        cfg.use_now_as_timestamp != Some(false) ==> start.is_ok()
            && start.unwrap().is_clock_reading(),
        start matches Ok(instant) ==> instant.wf(),
{
    match cfg.use_now_as_timestamp {
        Some(false) => {
            let value: &String = cfg.start_timestamp.as_ref().unwrap();
            let format: &String = cfg.timestamp_format.as_ref().unwrap();
            match parse_timestamp(value.as_str(), format.as_str()) {
                Ok(start) => Ok(start),
                Err(reason) => Err(
                    GenerateError::TimestampParse {
                        value: value.clone(),
                        format: format.clone(),
                        reason,
                    },
                ),
            }
        },
        _ => Ok(current_timestamp()),
    }
}

/// Whether a window of the length that `duration` gives ends within reach
/// wherever a clock may have it start: no duration is given, or one of so
/// many seconds that the last year of the calendar leaves room for them.
pub open spec fn lasts_within_reach(duration: Option<Seq<char>>) -> bool {
    match duration {
        None => true,
        Some(text) => duration_seconds(text) matches Some(length) && length <= i64::MAX
            - MAX_CALENDAR_SECS,
    }
}

/// Resolves the window of a run: its start as [`start_of_range`] gives it,
/// read once, and its end as far behind as the generation duration says. A
/// start that cannot be read comes before a duration that cannot. A window
/// that starts now is resolved whenever its duration is within reach.
pub fn generate_time_range(cfg: &Config) -> (range: Result<(Timestamp, Timestamp), GenerateError>)
    requires
        names_start(*cfg),
    ensures
        cfg.use_now_as_timestamp == Some(false) ==> match parsed_timestamp(
            cfg.start_timestamp.unwrap()@,
            cfg.timestamp_format.unwrap()@,
        ) {
            Ok((secs, nanos)) => range == window_of(
                Timestamp { secs, nanos },
                text_of(cfg.generation_duration),
            ),
            Err(reason) => range.is_err() && is_timestamp_error(
                range.unwrap_err(),
                cfg.start_timestamp.unwrap()@,
                cfg.timestamp_format.unwrap()@,
                reason,
            ),
        },
        cfg.use_now_as_timestamp != Some(false) ==> exists|now: Timestamp|
            now.is_clock_reading() && range == #[trigger] window_of(
                now,
                text_of(cfg.generation_duration),
            ),
        cfg.use_now_as_timestamp != Some(false) && lasts_within_reach(
            text_of(cfg.generation_duration),
        ) ==> range.is_ok(),
        range matches Ok((start, end)) ==> start.wf() && end.wf(),
{
    proof {
        if cfg.generation_duration.is_some() {
            lemma_duration_seconds_non_negative(cfg.generation_duration.unwrap()@);
        }
    }
    match start_of_range(cfg) {
        Ok(start) => time_range_from(start, &cfg.generation_duration),
        Err(error) => Err(error),
    }
}

} // verus!
