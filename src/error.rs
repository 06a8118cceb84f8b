use vstd::prelude::*;

verus! {

/// The opaque I/O error that decoding input may produce; the library only
/// carries it through to its caller.
#[verifier::external_type_specification]
#[verifier::external_body]
pub struct ExIoError(std::io::Error);

/// Every failure the sampling library reports.
#[derive(Debug)]
pub enum Error {
    /// A fixed sample size of zero was requested.
    InvalidSampleSize,
    /// A seed could not be read as a number.
    InvalidSeedValue,
    /// A percentage outside `[0, 100]` was requested.
    InvalidPercentage,
    /// Grouped sampling was requested without tabular (header) mode.
    HashRequiresCsvMode,
    /// Grouped sampling was requested without a percentage.
    HashRequiresPercentage,
    /// Neither a sample size nor a percentage was given.
    MissingRequiredOption(String),
    /// The designated column is not named in the header.
    ColumnNotFound(String),
    /// Reading or decoding the input failed.
    IoError(std::io::Error),
}

impl From<std::io::Error> for Error {
    fn from(err: std::io::Error) -> (r: Self)
        ensures
            r == Error::IoError(err),
    {
        Error::IoError(err)
    }
}

impl vstd::std_specs::convert::FromSpecImpl<std::io::Error> for Error {
    open spec fn obeys_from_spec() -> bool {
        true
    }

    open spec fn from_spec(err: std::io::Error) -> Error {
        Error::IoError(err)
    }
}

/// The result of a fallible operation of the library.
pub type Result<T> = std::result::Result<T, Error>;

} // verus!
