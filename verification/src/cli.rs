//! Command-line option values. Parsing the actual arguments and wiring up
//! logging happen in the surrounding program; this type only carries the
//! resulting values.

use vstd::prelude::*;

verus! {

/// The options the program is started with.
#[derive(Debug)]
pub struct CliOpt {
    /// Path of the configuration file.
    pub config_file: String,
    /// Silence all output.
    pub quiet: bool,
    /// Verbosity level: how many times the verbose flag was given.
    pub verbose: usize,
}

} // verus!
