//! What the command line asks for.

use vstd::prelude::*;

verus! {

/// The arguments of the command line, as plain values.
#[derive(Debug, Clone)]
pub struct Cli {
    /// The directories to clean; none stands for the current directory.
    pub directories: Vec<String>,
    /// The path of a configuration file.
    pub config: Option<String>,
    /// Whether files are only reported, and left as they are.
    pub dry_run: bool,
    /// Whether more is told.
    pub verbose: bool,
    /// Whether directories below the given ones are cleaned too.
    pub recursive: bool,
    /// The number of workers; the number of cores where the user gave none.
    pub threads: usize,
}

} // verus!
