//! What can keep the engine from producing a distribution.

use vstd::prelude::*;
use vstd::string::StringExecFns;

verus! {

/// The reasons for which no distribution is produced.
#[derive(Debug, PartialEq, Eq)]
pub enum GenerateError {
    /// The fixed start timestamp `value` does not follow `format`; `reason`
    /// is what the parser said of it.
    TimestampParse { value: String, format: String, reason: String },
    /// The duration has no digits in front, no unit behind them, or a number
    /// too large to read.
    DurationParse,
    /// The duration is longer than can be counted in seconds.
    DurationOutOfRange,
    /// The window ends, or a candidate span of it starts, beyond the instants
    /// that can be represented.
    WindowOutOfRange,
    /// The window is not a second long.
    ZeroDuration,
    /// The strategy has no way to keep every count within its 16 bits.
    CountOutOfRange,
    /// `model` names no strategy.
    UnsupportedModel { model: String },
}

impl GenerateError {
    /// The text of [`GenerateError::message`].
    pub open spec fn message_text(self) -> Seq<char> {
        match self {
            GenerateError::TimestampParse { value, format, reason } => {
                "failed to parse start_timestamp ["@ + value@ + "] with format ["@ + format@
                    + "]: "@ + reason@
            },
            GenerateError::DurationParse => "failed to parse time duration value and unit"@,
            GenerateError::DurationOutOfRange => {
                "time duration is too long to count in seconds"@
            },
            GenerateError::WindowOutOfRange => {
                "time range reaches beyond the instants that can be represented"@
            },
            GenerateError::ZeroDuration => "time duration must be at least one second"@,
            GenerateError::CountOutOfRange => "number of entries is too large for one datapoint"@,
            GenerateError::UnsupportedModel { model } => {
                "unknown distribution model ["@ + model@ + "]"@
            },
        }
    }

    /// The error in words, naming the values that caused it.
    pub fn message(&self) -> (text: String)
        ensures
            text@ == self.message_text(),
    {
        match self {
            GenerateError::TimestampParse { value, format, reason } => {
                let mut text = String::from_str("failed to parse start_timestamp [");
                text.append(value.as_str());
                text.append("] with format [");
                text.append(format.as_str());
                text.append("]: ");
                text.append(reason.as_str());
                text
            },
            GenerateError::DurationParse => {
                String::from_str("failed to parse time duration value and unit")
            },
            GenerateError::DurationOutOfRange => {
                String::from_str("time duration is too long to count in seconds")
            },
            GenerateError::WindowOutOfRange => {
                String::from_str("time range reaches beyond the instants that can be represented")
            },
            GenerateError::ZeroDuration => {
                String::from_str("time duration must be at least one second")
            },
            GenerateError::CountOutOfRange => {
                String::from_str("number of entries is too large for one datapoint")
            },
            GenerateError::UnsupportedModel { model } => {
                let mut text = String::from_str("unknown distribution model [");
                text.append(model.as_str());
                text.append("]");
                text
            },
        }
    }
}

} // verus!
