use vstd::prelude::*;

verus! {

/// The selected subcommand with what was given to it.
#[derive(Debug, Clone)]
pub enum Command {
    /// Install packages.
    Link {
        /// Packages to install.
        packages: Vec<String>,
        /// Take files that already stand in the target tree into the package.
        adopt: bool,
    },
    /// Remove packages.
    Unlink {
        /// Packages to remove.
        packages: Vec<String>,
    },
}

/// What the command line said.
#[derive(Debug, Clone)]
pub struct Cli {
    /// Map `dot-` at the start of names in the package to `.` in target names.
    pub dotfiles: bool,
    /// Do not change any files.
    pub dry_run: bool,
    /// Print more about the files being processed.
    pub verbose: bool,
    /// Directory in which the links are made.
    pub target: Option<String>,
    /// The selected command.
    pub command: Command,
}

} // verus!
