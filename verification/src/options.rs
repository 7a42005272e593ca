use crate::cli::Cli;
use crate::config::Config;
use vstd::prelude::*;

verus! {

/// What is done with the packages.
#[derive(Debug, Clone, Copy, PartialEq, Eq, Structural)]
pub enum Command {
    /// Install packages.
    Link,
    /// Remove packages.
    Unlink,
}

/// The settled options of one run. Every option has a value here.
#[derive(Debug)]
pub struct Options {
    /// Map `dot-` at the start of names in the package to `.` in target names.
    pub dotfiles: bool,
    /// Do not change any files.
    pub dry_run: bool,
    /// Print more about the files being processed.
    pub verbose: bool,
    /// Directory in which the links are made.
    pub target: String,
    /// The selected command.
    pub command: Command,
    /// Take files that already stand in the target tree into the package.
    pub adopt: bool,
    /// The packages to install or remove.
    pub packages: Vec<String>,
}

/// Why the options could not be settled.
#[derive(Debug)]
pub enum MergeError {
    /// No target was given and no home directory is known.
    NoHome,
    /// The target names a variable that could not be looked up.
    Lookup { variable: String },
}

/// The strings of a list as character sequences.
pub open spec fn strings_view(list: Seq<String>) -> Seq<Seq<char>> {
    Seq::new(list.len(), |i: int| list[i]@)
}

/// An option set on the command line or in the configuration.
pub open spec fn flag(cli: bool, config: Option<bool>) -> bool {
    cli || config == Some(true)
}

/// Whether the command line asks for adoption: only `link` can.
pub open spec fn cli_adopt(cli: Cli) -> bool {
    match cli.command {
        crate::cli::Command::Link { adopt, .. } => adopt,
        crate::cli::Command::Unlink { .. } => false,
    }
}

/// The packages named on the command line.
pub open spec fn cli_packages(cli: Cli) -> Seq<Seq<char>> {
    match cli.command {
        crate::cli::Command::Link { packages, .. } => strings_view(packages@),
        crate::cli::Command::Unlink { packages } => strings_view(packages@),
    }
}

/// The command that the command line selects.
pub open spec fn cli_command(cli: Cli) -> Command {
    match cli.command {
        crate::cli::Command::Link { .. } => Command::Link,
        crate::cli::Command::Unlink { .. } => Command::Unlink,
    }
}

/// The target as written, before expansion: the command line's, else the
/// configuration's, else the home directory.
pub open spec fn raw_target(cli: Cli, config: Config, home: Option<String>) -> Option<Seq<char>> {
    match (cli.target, config.target, home) {
        (Some(t), _, _) => Some(t@),
        (None, Some(t), _) => Some(t@),
        (None, None, Some(h)) => Some(h@),
        (None, None, None) => None,
    }
}

/// A copy of a list of strings.
pub fn clone_strings(list: &Vec<String>) -> (copy: Vec<String>)
    ensures
        strings_view(copy@) == strings_view(list@),
{
    let mut copy: Vec<String> = Vec::new();
    let mut i: usize = 0;
    while i < list.len()
        invariant
            i <= list.len(),
            copy@.len() == i,
            forall|j: int| 0 <= j < i ==> (#[trigger] copy@[j])@ == list@[j]@,
        decreases list.len() - i,
    {
        copy.push(list[i].clone());
        i += 1;
    }
    assert(strings_view(copy@) =~= strings_view(list@));
    copy
}

/// Calls `dirs::home_dir`. What it returns depends on the user and the
/// machine, so nothing is said of it.
#[verifier::external_body]
fn home_dir() -> (home: Option<String>) {
    dirs::home_dir().and_then(|p| p.into_os_string().into_string().ok())
}

/// Calls `shellexpand::full`, which expands a leading tilde and the
/// variables that the process was started with. The result depends on those,
/// so nothing is said of it; an error carries the name of the variable that
/// was not found.
#[verifier::external_body]
pub(crate) fn expand(raw: &str) -> (expanded: Result<String, String>) {
    match shellexpand::full(raw) {
        Ok(s) => Ok(s.into_owned()),
        Err(e) => Err(e.var_name),
    }
}

impl Options {
    /// The options that the command line and the configuration give together,
    /// with `target` as the expanded target directory. A flag holds if either
    /// side sets it.
    pub open spec fn settled(&self, cli: Cli, config: Config, target: Seq<char>) -> bool {
        &&& self.dotfiles == flag(cli.dotfiles, config.dotfiles)
        &&& self.verbose == flag(cli.verbose, config.verbose)
        &&& self.adopt == flag(cli_adopt(cli), config.adopt)
        &&& self.dry_run == cli.dry_run
        &&& self.command == cli_command(cli)
        &&& self.target@ == target
        &&& strings_view(self.packages@) == cli_packages(cli)
    }

    /// Settles the options once the target directory is known.
    pub fn with_target(cli: &Cli, config: &Config, target: String) -> (options: Options)
        ensures
            options.settled(*cli, *config, target@),
    {
        let dotfiles = cli.dotfiles || config.dotfiles == Some(true);
        let verbose = cli.verbose || config.verbose == Some(true);
        let asked = match &cli.command {
            crate::cli::Command::Link { adopt, .. } => *adopt,
            crate::cli::Command::Unlink { .. } => false,
        };
        let adopt = asked || config.adopt == Some(true);
        let command = match &cli.command {
            crate::cli::Command::Link { .. } => Command::Link,
            crate::cli::Command::Unlink { .. } => Command::Unlink,
        };
        let packages = match &cli.command {
            crate::cli::Command::Link { packages, .. } => clone_strings(packages),
            crate::cli::Command::Unlink { packages } => clone_strings(packages),
        };
        Options { dotfiles, dry_run: cli.dry_run, verbose, target, command, adopt, packages }
    }

    /// The target as written, before expansion.
    pub fn pick_target(cli: &Cli, config: &Config, home: Option<String>) -> (raw: Option<String>)
        ensures
            match raw {
                Some(t) => raw_target(*cli, *config, home) == Some(t@),
                None => raw_target(*cli, *config, home).is_none(),
            },
    {
        match &cli.target {
            Some(t) => Some(t.clone()),
            None => match &config.target {
                Some(t) => Some(t.clone()),
                None => home,
            },
        }
    }

    /// Merges the command line with the configuration. The target is the
    /// command line's, else the configuration's, else the home directory,
    /// with tilde and variables expanded. A target is always found where
    /// either side names one; whether its expansion succeeds is up to the
    /// variables that the process was started with.
    pub fn merge(cli: &Cli, config: &Config) -> (merged: Result<Options, MergeError>)
        ensures
            match merged {
                Ok(options) => options.settled(*cli, *config, options.target@),
                Err(MergeError::NoHome) => cli.target.is_none() && config.target.is_none(),
                Err(MergeError::Lookup { .. }) => true,
            },
    {
        let raw = match Options::pick_target(cli, config, home_dir()) {
            Some(raw) => raw,
            None => {
                return Err(MergeError::NoHome);
            },
        };
        match expand(raw.as_str()) {
            Ok(target) => Ok(Options::with_target(cli, config, target)),
            Err(variable) => Err(MergeError::Lookup { variable }),
        }
    }
}

} // verus!
