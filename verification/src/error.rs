//! Errors of the conversion pipeline.

use vstd::prelude::*;

verus! {

/// The error type of the `csv` crate, carried through unchanged.
#[verifier::external_type_specification]
#[verifier::external_body]
pub struct ExCsvError(csv::Error);

/// The clock error of std, returned when the system time is before the epoch.
#[verifier::external_type_specification]
#[verifier::external_body]
pub struct ExSystemTimeError(std::time::SystemTimeError);

/// Why a conversion step failed.
#[derive(Debug)]
pub enum ConvertError {
    /// The CSV input could not be parsed.
    Csv(csv::Error),
    /// A Parquet output was requested for a table without columns.
    NoDataToWrite,
    /// A Delta Lake conversion was requested for a table without columns.
    NoDataToConvert,
    /// The system clock reads a time before the Unix epoch.
    Clock(std::time::SystemTimeError),
    /// The clock reading, in milliseconds, leaves no room for the one-second
    /// offset of the INSERT commit within `i64`.
    TimestampOverflow,
}

} // verus!
