//! Error taxonomy for the downloader: fatal configuration errors that abort
//! a run before any network activity, and the per-request retry exhaustion
//! error recovered at its call site.
use vstd::prelude::*;

verus! {

/// Errors reported by the library.
#[derive(Clone, Copy, Debug, PartialEq, Eq, Structural)]
pub enum Error {
    /// A user-supplied date string does not have one of the accepted shapes.
    InvalidDate,
    /// The base output directory is missing or not a directory.
    OutputDirectoryDoesNotExist,
    /// The resolved from-date is strictly after the resolved until-date.
    DateRangeBackwards,
    /// A single request's retries were exhausted without a transport success.
    FetchExhausted,
}

impl Error {
    /// A human-readable description of the error.
    pub fn message(&self) -> (r: &'static str)
        ensures
            self is InvalidDate ==> r@ == "Invalid date"@,
            self is OutputDirectoryDoesNotExist ==> r@ == "Output directory does not exist"@,
            self is DateRangeBackwards ==> r@ == "From date is after until date"@,
            self is FetchExhausted ==> r@ == "Fetch retries exhausted"@,
    {
        match self {
            Error::InvalidDate => "Invalid date",
            Error::OutputDirectoryDoesNotExist => "Output directory does not exist",
            Error::DateRangeBackwards => "From date is after until date",
            Error::FetchExhausted => "Fetch retries exhausted",
        }
    }
}

} // verus!
