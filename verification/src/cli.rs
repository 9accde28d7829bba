//! The commands that the tool takes.

use vstd::prelude::*;

verus! {

/// What was asked on the command line.
#[derive(Debug, Clone, PartialEq, Eq)]
pub struct Cli {
    pub command: Commands,
}

/// The commands.
#[derive(Debug, Clone, PartialEq, Eq)]
pub enum Commands {
    /// Search for mods.
    Search(SearchArgs),
    /// Show what the registry publishes for a mod.
    Info(InfoArgs),
    /// Install a mod.
    Install(InstallArgs),
    /// List the installed mods.
    List,
    /// Show an installed mod.
    Show(ShowArgs),
    /// Check for updates.
    Update(UpdateArgs),
}

#[derive(Debug, Clone, PartialEq, Eq)]
pub struct SearchArgs {
    /// What to search for.
    pub query: String,
}

#[derive(Debug, Clone, PartialEq, Eq)]
pub struct InfoArgs {
    /// Name of the mod.
    pub name: String,
}

#[derive(Debug, Clone, PartialEq, Eq)]
pub struct InstallArgs {
    /// Name of the mod.
    pub name: String,
}

#[derive(Debug, Clone, PartialEq, Eq)]
pub struct ShowArgs {
    /// Name of the mod.
    pub name: String,
}

#[derive(Debug, Clone, PartialEq, Eq)]
pub struct UpdateArgs {
    /// Whether to install the updates that are found.
    pub install: bool,
}

impl Commands {
    /// Whether the command works on the remote registry. Listing and showing
    /// installed mods need the managed directory only.
    pub fn needs_registry(&self) -> (needed: bool)
        ensures
            needed == !(self is List || self is Show),
    {
        match self {
            Commands::List => false,
            Commands::Show(_) => false,
            _ => true,
        }
    }
}

} // verus!
