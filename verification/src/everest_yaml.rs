//! The manifest document of an archive: the list of mods that it declares.

use vstd::prelude::*;

verus! {

/// A required or optional dependency of a mod.
#[derive(Debug, Clone, PartialEq, Eq)]
pub struct Dependency {
    pub name: String,
    pub version: Option<String>,
}

/// One mod that a manifest declares.
#[derive(Debug, Clone, PartialEq, Eq)]
pub struct ModMetadata {
    pub name: String,
    pub version: String,
    pub dll: Option<String>,
    pub dependencies: Option<Vec<Dependency>>,
    pub optional_dependencies: Option<Vec<Dependency>>,
}

/// All the mods that a manifest declares, in its order.
#[derive(Debug, Clone, PartialEq, Eq)]
pub struct ModMetadataList(pub Vec<ModMetadata>);

impl ModMetadataList {
    /// The mod that identifies the archive: the first that the manifest
    /// declares.
    pub fn get_main_mod(&self) -> (main: Option<&ModMetadata>)
        ensures
            match main {
                Some(first) => self.0@.len() > 0 && *first == self.0@[0],
                None => self.0@.len() == 0,
            },
    {
        if self.0.len() == 0 {
            None
        } else {
            Some(&self.0[0])
        }
    }
}

} // verus!
