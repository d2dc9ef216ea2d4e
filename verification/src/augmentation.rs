//! The distribution engine: time-range resolution, duration parsing and the
//! allocation strategies.

pub mod datapoint;
pub mod duration;
pub mod early_fill;
pub mod error;
pub mod even;
pub mod generate;
pub mod random;
pub mod sparse_fill;
pub mod time_range;
pub mod timestamp;
pub mod zone;
pub mod zone_layout;

pub use datapoint::DataPoint;
pub use duration::{parse_time_duration, parse_time_duration_value_and_unit};
pub use early_fill::generate_datapoints_early_fill;
pub use error::GenerateError;
pub use even::generate_datapoints_even;
pub use generate::{generate_datapoints, generate_datapoints_from, generate_datapoints_with};
pub use random::pick_2_random_datapoint;
pub use sparse_fill::{generate_datapoints_sparse_fill, generate_sparse_fill_zone_datapoints};
pub use time_range::generate_time_range;
pub use timestamp::Timestamp;
pub use zone::DataZone;
pub use zone_layout::generate_sparse_fill_zone_and_boundaries;
