//! The way from the settings of a run to its distribution.

use super::datapoint::DataPoint;
use super::duration::{
    duration_seconds, lemma_duration_seconds_non_negative, parse_time_duration,
};
use super::early_fill::{
    early_fill_ceiling_of, early_fill_fits, generate_datapoints_early_fill, is_early_fill,
};
use super::error::GenerateError;
use super::even::{even_fits, generate_datapoints_even, is_even_distribution, lemma_even_split};
use super::sparse_fill::{
    generate_datapoints_sparse_fill, is_sparse_fill, sparse_fill_fits, sparse_fill_fits_of,
    DEFAULT_SPARSE_FILL_ZONE_GENERATION_FACTOR,
};
use crate::text::{lowercase_of, same_text, to_lowercase};
use super::time_range::{
    is_timestamp_error, names_start, start_of_range, time_range_from, window_of,
};
use super::timestamp::{parsed_timestamp, Timestamp};
use super::zone::MAX_ZONES;
use super::zone_layout::window_fits;
use crate::config::Config;
use vstd::prelude::*;
use vstd::string::StringExecFns;

verus! {

/// The shapes that a distribution can take.
#[derive(Clone, Copy, Debug, PartialEq, Eq, Structural)]
pub enum DistributionModel {
    Even,
    EarlyFill,
    SparseFill,
}

/// The shape that `name` stands for, if any.
pub open spec fn model_named(name: Seq<char>) -> Option<DistributionModel> {
    if name == "even"@ {
        Some(DistributionModel::Even)
    } else if name == "early_fill"@ {
        Some(DistributionModel::EarlyFill)
    } else if name == "sparse_fill"@ {
        Some(DistributionModel::SparseFill)
    } else {
        None
    }
}

/// Whether every instant that `model` names in the window of `duration`
/// seconds from `start` can be represented.
pub open spec fn window_allows(model: DistributionModel, start: Timestamp, duration: int) -> bool {
    match model {
        DistributionModel::SparseFill => window_fits(
            start,
            duration,
            DEFAULT_SPARSE_FILL_ZONE_GENERATION_FACTOR * MAX_ZONES,
        ),
        _ => start.can_shift(duration - 1),
    }
}

/// Whether `model` can keep every count within its 16 bits when it spreads
/// `total` rows over `duration` seconds.
pub open spec fn counts_allow(model: DistributionModel, duration: int, total: int) -> bool {
    match model {
        DistributionModel::Even => even_fits(total, duration),
        DistributionModel::EarlyFill => early_fill_fits(total),
        DistributionModel::SparseFill => sparse_fill_fits(duration, total),
    }
}

/// `points` are a distribution of `total` rows over the `duration` seconds
/// from `start` in the shape of `model`.
pub open spec fn is_distribution(
    model: DistributionModel,
    points: Seq<DataPoint>,
    start: Timestamp,
    duration: int,
    total: int,
) -> bool {
    match model {
        DistributionModel::Even => is_even_distribution(points, start, duration, total),
        DistributionModel::EarlyFill => is_early_fill(points, start, duration, total),
        DistributionModel::SparseFill => is_sparse_fill(points, start, duration, total),
    }
}

/// `error` reports that `model` names no strategy.
pub open spec fn is_model_error(error: GenerateError, model: Seq<char>) -> bool {
    match error {
        GenerateError::UnsupportedModel { model: m } => m@ == model,
        _ => false,
    }
}

/// `outcome` is what the strategy called `model` owes for `total` rows over
/// the `duration` seconds from `start`: a name that is not known is refused
/// first, then a window shorter than a second, then a window that reaches
/// beyond the instants that can be represented, then rows that the counts
/// cannot hold; anything else gets its distribution.
pub open spec fn is_outcome(
    model: Seq<char>,
    start: Timestamp,
    duration: int,
    total: int,
    outcome: Result<Vec<DataPoint>, GenerateError>,
) -> bool {
    match model_named(model) {
        None => outcome.is_err() && is_model_error(outcome.unwrap_err(), model),
        Some(shape) => if duration <= 0 {
            outcome == Err::<Vec<DataPoint>, GenerateError>(GenerateError::ZeroDuration)
        } else if !window_allows(shape, start, duration) {
            outcome == Err::<Vec<DataPoint>, GenerateError>(GenerateError::WindowOutOfRange)
        } else if !counts_allow(shape, duration, total) {
            outcome == Err::<Vec<DataPoint>, GenerateError>(GenerateError::CountOutOfRange)
        } else {
            outcome.is_ok() && is_distribution(shape, outcome.unwrap()@, start, duration, total)
        },
    }
}

/// The shape that `name` stands for, if any.
pub fn model_from_name(name: &str) -> (model: Option<DistributionModel>)
    ensures
        model == model_named(name@),
{
    if same_text(name, "even") {
        Some(DistributionModel::Even)
    } else if same_text(name, "early_fill") {
        Some(DistributionModel::EarlyFill)
    } else if same_text(name, "sparse_fill") {
        Some(DistributionModel::SparseFill)
    } else {
        None
    }
}

/// Whether [`window_allows`] holds.
fn window_is_allowed(
    model: DistributionModel,
    start_time: Timestamp,
    duration_in_seconds: i64,
) -> (fits: bool)
    requires
        duration_in_seconds > 0,
        start_time.wf(),
    ensures
        fits == window_allows(model, start_time, duration_in_seconds as int),
{
    match model {
        DistributionModel::SparseFill => {
            let spans: i64 = (DEFAULT_SPARSE_FILL_ZONE_GENERATION_FACTOR * MAX_ZONES) as i64;
            start_time.checked_add_seconds(duration_in_seconds).is_some() && (duration_in_seconds
                >= spans || start_time.checked_add_seconds(-1).is_some())
        },
        _ => start_time.checked_add_seconds(duration_in_seconds - 1).is_some(),
    }
}

/// Whether [`counts_allow`] holds.
fn counts_are_allowed(
    model: DistributionModel,
    duration_in_seconds: i64,
    total: u32,
) -> (fits: bool)
    requires
        duration_in_seconds > 0,
    ensures
        fits == counts_allow(model, duration_in_seconds as int, total as int),
{
    match model {
        DistributionModel::Even => {
            proof {
                lemma_even_split(total as int, duration_in_seconds as int);
            }
            (total as i64) / duration_in_seconds + (total as i64) % duration_in_seconds
                <= i16::MAX as i64
        },
        DistributionModel::EarlyFill => early_fill_ceiling_of(total) <= i16::MAX as u32,
        DistributionModel::SparseFill => sparse_fill_fits_of(duration_in_seconds, total),
    }
}

/// Spreads `num_entries_to_generate` rows over the `duration_in_seconds`
/// seconds from `start_time` with the strategy that `model` names, in lower
/// case: `even`, `early_fill` or `sparse_fill`.
pub fn generate_datapoints_with(
    model: &str,
    start_time: Timestamp,
    duration_in_seconds: i64,
    num_entries_to_generate: u32,
) -> (outcome: Result<Vec<DataPoint>, GenerateError>)
    requires
        start_time.wf(),
    ensures
        is_outcome(
            model@,
            start_time,
            duration_in_seconds as int,
            num_entries_to_generate as int,
            outcome,
        ),
{
    let shape: DistributionModel = match model_from_name(model) {
        Some(shape) => shape,
        None => {
            return Err(GenerateError::UnsupportedModel { model: String::from_str(model) });
        },
    };
    if duration_in_seconds <= 0 {
        return Err(GenerateError::ZeroDuration);
    }
    if !window_is_allowed(shape, start_time, duration_in_seconds) {
        return Err(GenerateError::WindowOutOfRange);
    }
    if !counts_are_allowed(shape, duration_in_seconds, num_entries_to_generate) {
        return Err(GenerateError::CountOutOfRange);
    }
    match shape {
        DistributionModel::Even => Ok(
            generate_datapoints_even(start_time, duration_in_seconds, num_entries_to_generate),
        ),
        DistributionModel::EarlyFill => Ok(
            generate_datapoints_early_fill(
                start_time,
                duration_in_seconds,
                num_entries_to_generate,
            ),
        ),
        DistributionModel::SparseFill => Ok(
            generate_datapoints_sparse_fill(
                start_time,
                duration_in_seconds,
                num_entries_to_generate,
            ),
        ),
    }
}

/// Whether `cfg` says all that a run asks for: how long it lasts, how many
/// rows it spreads, in which shape, and where it starts.
pub open spec fn names_run(cfg: Config) -> bool {
    &&& names_start(cfg)
    &&& cfg.generation_duration.is_some()
    &&& cfg.number_of_entries.is_some()
    &&& cfg.distribution_by.is_some()
}

/// `outcome` is what a run set up by `cfg` owes when its window starts at
/// `start`: the error of a window that cannot be resolved, and else what the
/// strategy that `cfg` names, folded to lower case, owes for that window.
pub open spec fn is_run_outcome(
    cfg: Config,
    start: Timestamp,
    outcome: Result<Vec<DataPoint>, GenerateError>,
) -> bool {
    match window_of(start, Some(cfg.generation_duration.unwrap()@)) {
        Err(error) => outcome == Err::<Vec<DataPoint>, GenerateError>(error),
        Ok(_) => is_outcome(
            lowercase_of(cfg.distribution_by.unwrap()@),
            start,
            duration_seconds(cfg.generation_duration.unwrap()@).unwrap(),
            cfg.number_of_entries.unwrap() as int,
            outcome,
        ),
    }
}

/// Produces the distribution of a run set up by `cfg` whose window starts
/// at `start_time`.
pub fn generate_datapoints_from(cfg: &Config, start_time: Timestamp) -> (outcome: Result<
    Vec<DataPoint>,
    GenerateError,
>)
    requires
        names_run(*cfg),
        start_time.wf(),
    ensures
        is_run_outcome(*cfg, start_time, outcome),
{
    match time_range_from(start_time, &cfg.generation_duration) {
        Ok(_) => {},
        Err(error) => {
            return Err(error);
        },
    }
    let generation_duration: &String = cfg.generation_duration.as_ref().unwrap();
    proof {
        lemma_duration_seconds_non_negative(generation_duration@);
    }
    let duration_in_seconds: i64 = match parse_time_duration(generation_duration.clone()) {
        Ok(length) => length,
        Err(error) => {
            return Err(error);
        },
    };
    let num_entries_to_generate: u32 = cfg.number_of_entries.unwrap();
    let model: String = to_lowercase(cfg.distribution_by.as_ref().unwrap().as_str());
    generate_datapoints_with(
        model.as_str(),
        start_time,
        duration_in_seconds,
        num_entries_to_generate,
    )
}

/// Produces the distribution of a run set up by `cfg`: resolves the start
/// of its window, reading the clock or the fixed timestamp once, and hands
/// the rest to [`generate_datapoints_from`].
pub fn generate_datapoints(cfg: &Config) -> (outcome: Result<Vec<DataPoint>, GenerateError>)
    requires
        names_run(*cfg),
    ensures
        cfg.use_now_as_timestamp == Some(false) ==> match parsed_timestamp(
            cfg.start_timestamp.unwrap()@,
            cfg.timestamp_format.unwrap()@,
        ) {
            Ok((secs, nanos)) => is_run_outcome(*cfg, Timestamp { secs, nanos }, outcome),
            Err(reason) => outcome.is_err() && is_timestamp_error(
                outcome.unwrap_err(),
                cfg.start_timestamp.unwrap()@,
                cfg.timestamp_format.unwrap()@,
                reason,
            ),
        },
        cfg.use_now_as_timestamp != Some(false) ==> exists|now: Timestamp|
            now.is_clock_reading() && #[trigger] is_run_outcome(*cfg, now, outcome),
{
    match start_of_range(cfg) {
        Ok(start_time) => generate_datapoints_from(cfg, start_time),
        Err(error) => Err(error),
    }
}

} // verus!
