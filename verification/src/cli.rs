//! The parsed command surface. Argument parsing itself happens outside
//! the library; these are the plain values it hands in, and the one
//! piece of configuration logic the core consumes.

use vstd::prelude::*;

verus! {

/// The parsed command line.
#[derive(Debug)]
pub struct Cli {
    pub command: Commands,
}

/// Possible commands to run.
#[derive(Debug)]
pub enum Commands {
    /// Runs a ROM.
    Run { path: String, ips: Option<u64> },
    /// Disassembles a ROM.
    Disassemble { path: String, output_file: Option<String> },
}

/// The instructions-per-second rate to run at: the configured value, or
/// 700 where none was given.
pub fn effective_ips(ips: Option<u64>) -> (r: u64)
    ensures
        r == match ips {
            Some(v) => v,
            None => 700u64,
        },
{
    match ips {
        Some(v) => v,
        None => 700,
    }
}

} // verus!
