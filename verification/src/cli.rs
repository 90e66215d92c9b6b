//! The command-line surface, as plain values: the target URL, the two
//! range boundaries, the output directory, and the verbosity flag.
//! Argument parsing itself is the binary's; the library only consumes the
//! parsed values.
use vstd::prelude::*;

verus! {

/// The program's arguments.
#[derive(Debug)]
pub struct Cli {
    /// The URL prefix to query the Wayback Machine for. A protocol prefix
    /// is accepted but not necessary.
    pub url: String,
    /// Match captures after this date. Valid formats: `YYYY-MM-DD`,
    /// `YYYY-MM`, `YYYY`.
    pub from_date: String,
    /// Match captures before this date. Same formats.
    pub until_date: String,
    /// The directory the captures are stored beneath.
    pub output_directory: String,
    /// Whether to log captures that are already downloaded.
    pub verbose: bool,
}

} // verus!
