use vstd::prelude::*;

use crate::error::Error;
use crate::rate::SampleRate;

verus! {

/// The options of one sampling run.
#[derive(Debug)]
pub struct Config {
    /// The number of records to keep by reservoir sampling.
    pub sample_size: Option<usize>,
    /// The probability with which each record (or key value) is kept.
    pub percentage: Option<SampleRate>,
    /// The first line is a header: it is passed through, never sampled.
    pub csv_mode: bool,
    /// The seed of the generator, for a reproducible run.
    pub seed: Option<u64>,
    /// The column whose value decides grouped sampling.
    pub hash_column: Option<String>,
}

/// The selector that a valid configuration asks for.
#[derive(Debug)]
pub enum Mode {
    /// Fixed-size reservoir sampling of this many records.
    Reservoir(usize),
    /// Independent percentage sampling.
    Percentage(SampleRate),
    /// Grouped percentage sampling keyed on the named column.
    Grouped(SampleRate, String),
}

impl Config {
    /// Checks the options against each other: a sample size must be
    /// positive, a size or a percentage must be given, and grouped sampling
    /// needs both header mode and a percentage.
    pub fn validate(&self) -> (r: Result<(), Error>)
        ensures
            self.sample_size == Some(0usize) ==> r == Err::<(), Error>(Error::InvalidSampleSize),
            self.sample_size != Some(0usize) && self.sample_size is None && self.percentage is None
                ==> r matches Err(Error::MissingRequiredOption(_)),
            self.sample_size != Some(0usize) && (self.sample_size is Some || self.percentage is Some)
                && self.hash_column is Some && !self.csv_mode ==> r == Err::<(), Error>(
                Error::HashRequiresCsvMode,
            ),
            self.sample_size != Some(0usize) && (self.sample_size is Some || self.percentage is Some)
                && self.hash_column is Some && self.csv_mode && self.percentage is None ==> r
                == Err::<(), Error>(Error::HashRequiresPercentage),
            r is Ok <==> {
                &&& self.sample_size != Some(0usize)
                &&& self.sample_size is Some || self.percentage is Some
                &&& self.hash_column is Some ==> self.csv_mode && self.percentage is Some
            },
    {
        if let Some(size) = self.sample_size {
            if size == 0 {
                return Err(Error::InvalidSampleSize);
            }
        }
        if self.sample_size.is_none() && self.percentage.is_none() {
            return Err(
                Error::MissingRequiredOption(
                    "either sample size or percentage must be specified".to_string(),
                ),
            );
        }
        if self.hash_column.is_some() {
            if !self.csv_mode {
                return Err(Error::HashRequiresCsvMode);
            }
            if self.percentage.is_none() {
                return Err(Error::HashRequiresPercentage);
            }
        }
        Ok(())
    }

    /// The selector to run: grouped sampling when header mode, a percentage
    /// and a key column are all given; otherwise reservoir sampling for a
    /// size alone and percentage sampling for a percentage alone. `None`
    /// when the options name no single selector.
    pub fn mode(&self) -> (r: Option<Mode>)
        ensures
            self.csv_mode && self.percentage is Some && self.hash_column is Some ==> r == Some(
                Mode::Grouped(self.percentage.unwrap(), self.hash_column.unwrap()),
            ),
            !(self.csv_mode && self.percentage is Some && self.hash_column is Some) ==> r == match (
                self.sample_size,
                self.percentage,
            ) {
                (Some(k), None) => Some(Mode::Reservoir(k)),
                (None, Some(p)) => Some(Mode::Percentage(p)),
                _ => None::<Mode>,
            },
    {
        if self.csv_mode {
            if let Some(p) = self.percentage {
                if let Some(column) = &self.hash_column {
                    return Some(Mode::Grouped(p, column.clone()));
                }
            }
        }
        match (self.sample_size, self.percentage) {
            (Some(k), None) => Some(Mode::Reservoir(k)),
            (None, Some(p)) => Some(Mode::Percentage(p)),
            _ => None,
        }
    }
}

} // verus!
