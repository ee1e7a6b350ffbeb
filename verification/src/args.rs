//! The command-line surface of the tool, as plain data. The host's
//! argument parser fills a mirror of these types and converts; nothing
//! here reads the process environment.

use vstd::prelude::*;

verus! {

/// The tool's command line: one subcommand.
#[derive(Debug, PartialEq)]
pub struct PcliArgs {
    pub cmd: Cmd,
}

/// The subcommands the tool offers.
#[derive(Debug, PartialEq)]
pub enum Cmd {
    /// run app
    Run(RunCommand),
    /// list all installed apps
    List,
    /// install app
    Install,
    /// search apps from registry
    Search,
    /// create new app
    New,
}

/// What the run subcommand needs: the script to execute.
#[derive(Debug, PartialEq)]
pub struct RunCommand {
    pub path: String,
}

} // verus!
