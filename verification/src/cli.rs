//! The command-line surface, as plain data.
//!
//! The binary parses the actual command line and hands the library this
//! model of it: the optional storage-path overrides and the chosen
//! subcommand.

use vstd::prelude::*;

verus! {

/// A command-line invocation failed.
#[derive(Debug, Clone, Copy, PartialEq, Eq, Structural)]
pub struct CLIError;

/// The subcommand the user chose.
#[derive(Debug, Clone, Copy, PartialEq, Eq, Structural)]
pub enum Command {
    /// Start tracking time.
    Start,
    /// Stop tracking time.
    Stop,
    /// Report the tracked time.
    Report,
}

/// The parsed command line.
#[derive(Debug)]
pub struct Cli {
    /// Path to the database directory, when overridden.
    pub db_dir: Option<String>,
    /// Path to the lockfile, when overridden.
    pub lockfile: Option<String>,
    /// The subcommand to run.
    pub command: Command,
}

} // verus!
