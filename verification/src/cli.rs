//! The command-line surface as plain data: which command runs and with
//! which options. Argument parsing itself happens outside the library.

use vstd::prelude::*;

verus! {

/// The parsed invocation: the command, whether writes and upgrades are
/// suppressed, and an optional custom checklist path.
#[derive(Debug)]
pub struct Cli {
    pub command: Commands,
    pub dry_run: bool,
    pub config: Option<String>,
}

/// The two commands: rewrite the checklist from the installed inventory,
/// or upgrade the enabled outdated packages.
#[derive(Debug, Clone, Copy)]
pub enum Commands {
    Dump,
    Upgrade,
}

} // verus!
