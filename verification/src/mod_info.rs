//! The catalog of published mods, found by the mod's name.

use vstd::prelude::*;
use crate::named::{
    answering, collect_named, entries_of, find_named, lookup, names_unique, search_named, targets,
    Named,
};
use crate::text::{trim_white_space, trimmed};

verus! {

/// What the catalog publishes for one mod.
#[derive(Debug, Clone, PartialEq, Eq)]
pub struct ModInfo {
    /// Name of the mod: the key under which the catalog holds the entry.
    pub name: String,
    /// Version string, as its author wrote it.
    pub version: String,
    /// Time of the last update.
    pub last_update: i64,
    /// Where the published file is downloaded from.
    pub url: String,
    /// Fingerprints of the published files of this mod.
    pub hash: Vec<String>,
    /// Category of the mod.
    pub gamebanana_type: Option<String>,
    /// Identifier of the mod's page.
    pub gamebanana_id: Option<i32>,
}

impl Named for ModInfo {
    open spec fn name_spec(&self) -> Seq<char> {
        self.name@
    }

    open spec fn renamed(self, name: String) -> ModInfo {
        ModInfo { name, ..self }
    }

    fn name_str(&self) -> (name: &str) {
        self.name.as_str()
    }

    fn with_name(self, name: String) -> (out: ModInfo) {
        let mut out = self;
        out.name = name;
        out
    }

    proof fn lemma_renamed(self, name: String) {
    }
}

/// The whole catalog. No two entries have the same name when the catalog
/// was made by `from`.
#[derive(Debug, Clone, PartialEq, Eq)]
pub struct ModCatalog {
    pub mods: Vec<ModInfo>,
}

impl ModCatalog {
    /// The address of the catalog document, as the text published at the
    /// list address gives it: that text without the white space around it.
    pub fn address_in(listing: &str) -> (address: String)
        ensures
            address@ == trimmed(listing@),
    {
        trim_white_space(listing)
    }

    /// The catalog that a decoded document describes: each pair is the key
    /// of an entry and the record under it. Each record gets its key as its
    /// name, and a later pair replaces an earlier one with the same key.
    pub fn from(pairs: Vec<(String, ModInfo)>) -> (catalog: ModCatalog)
        ensures
            catalog.mods@ == entries_of(pairs@),
            names_unique(catalog.mods@),
    {
        ModCatalog { mods: collect_named(pairs) }
    }

    /// The entries whose name holds `query`, both taken in lower case, in
    /// the catalog's order.
    pub fn search(&self, query: &str) -> (found: Vec<&ModInfo>)
        ensures
            targets(found@) == self.mods@.filter(answering(query@)),
    {
        search_named(&self.mods, query)
    }

    /// The entry whose name is exactly `name`.
    pub fn get_mod(&self, name: &str) -> (found: Option<&ModInfo>)
        ensures
            match found {
                Some(entry) => lookup(self.mods@, name@) == Some(*entry),
                None => lookup(self.mods@, name@) is None,
            },
    {
        match find_named(&self.mods, name) {
            Some(i) => Some(&self.mods[i]),
            None => None,
        }
    }
}

} // verus!
