use vstd::prelude::*;

verus! {

/// The options that a configuration file may set. Each may be absent.
#[derive(Debug, Clone)]
pub struct Config {
    pub verbose: Option<bool>,
    pub dotfiles: Option<bool>,
    pub target: Option<String>,
    pub adopt: Option<bool>,
}

impl Config {
    /// A configuration that sets nothing.
    pub fn empty() -> (config: Config)
        ensures
            config.verbose.is_none(),
            config.dotfiles.is_none(),
            config.target.is_none(),
            config.adopt.is_none(),
    {
        Config { verbose: None, dotfiles: None, target: None, adopt: None }
    }
}

} // verus!
