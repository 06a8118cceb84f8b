//! Random sampling of records: fixed-size reservoir sampling, independent
//! percentage sampling, and key-consistent (grouped) percentage sampling of
//! tabular rows.

pub mod config;
pub mod error;
pub mod hash;
pub mod percentage;
mod random;
pub mod rate;
pub mod reservoir;

pub use config::{Config, Mode};
pub use error::{Error, Result};
pub use hash::{calculate_hash, CsvHashSampler, RowStep};
pub use percentage::{percentage_sample_iter, PercentageSampleIter};
pub use rate::SampleRate;
pub use reservoir::{reservoir_sample, Reservoir};
