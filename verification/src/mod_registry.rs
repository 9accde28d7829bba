//! The remote registry: what is published for each mod, found by the mod's
//! name.

use vstd::prelude::*;
use crate::fingerprint::{fingerprint_listed, has_fingerprint};
use crate::named::{
    answering, collect_named, entries_of, find_named, lookup, names_unique, search_named, targets,
    Named,
};

verus! {

/// What the registry publishes for one mod.
#[derive(Debug, Clone, PartialEq, Eq)]
pub struct RemoteModInfo {
    /// Name of the mod: the key under which the registry holds the entry.
    pub name: String,
    /// Version string, as its author wrote it.
    pub version: String,
    /// Size of the published file in bytes.
    pub file_size: u64,
    /// Time of the last update.
    pub updated_at: u64,
    /// Where the published file is downloaded from.
    pub download_url: String,
    /// Fingerprints of the published files of this mod.
    pub checksums: Vec<String>,
    /// Category of the mod.
    pub gamebanana_type: String,
    /// Identifier of the mod's page.
    pub gamebanana_id: u32,
}

impl Named for RemoteModInfo {
    open spec fn name_spec(&self) -> Seq<char> {
        self.name@
    }

    open spec fn renamed(self, name: String) -> RemoteModInfo {
        RemoteModInfo { name, ..self }
    }

    fn name_str(&self) -> (name: &str) {
        self.name.as_str()
    }

    fn with_name(self, name: String) -> (out: RemoteModInfo) {
        let mut out = self;
        out.name = name;
        out
    }

    proof fn lemma_renamed(self, name: String) {
    }
}

impl RemoteModInfo {
    /// Whether `checksum` is the fingerprint of one of the published files.
    pub fn has_matching_hash(&self, checksum: &str) -> (found: bool)
        ensures
            found == fingerprint_listed(self.checksums.deep_view(), checksum@),
    {
        has_fingerprint(&self.checksums, checksum)
    }
}

/// The whole registry. No two entries have the same name when the registry
/// was made by `from`.
#[derive(Debug, Clone, PartialEq, Eq)]
pub struct ModRegistry {
    pub entries: Vec<RemoteModInfo>,
}

impl ModRegistry {
    /// The registry that a decoded document describes: each pair is the key
    /// of an entry and the record under it. Each record gets its key as its
    /// name, and a later pair replaces an earlier one with the same key.
    pub fn from(pairs: Vec<(String, RemoteModInfo)>) -> (registry: ModRegistry)
        ensures
            registry.entries@ == entries_of(pairs@),
            names_unique(registry.entries@),
    {
        ModRegistry { entries: collect_named(pairs) }
    }

    /// The entries whose name holds `query`, both taken in lower case, in
    /// the registry's order.
    pub fn search(&self, query: &str) -> (found: Vec<&RemoteModInfo>)
        ensures
            targets(found@) == self.entries@.filter(answering(query@)),
    {
        search_named(&self.entries, query)
    }

    /// The entry whose name is exactly `name`.
    pub fn get_mod_info(&self, name: &str) -> (found: Option<&RemoteModInfo>)
        ensures
            match found {
                Some(entry) => lookup(self.entries@, name@) == Some(*entry),
                None => lookup(self.entries@, name@) is None,
            },
    {
        match find_named(&self.entries, name) {
            Some(i) => Some(&self.entries[i]),
            None => None,
        }
    }
}

} // verus!
