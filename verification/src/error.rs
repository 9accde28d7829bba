//! The errors that the library reports.

use std::collections::VecDeque;
use vstd::prelude::*;
use crate::installed_mods::ModManifest;

verus! {

/// Why an archive could not be opened as a zip container.
#[derive(Debug, Clone, PartialEq, Eq)]
pub enum ZipFailure {
    /// Reading the archive's bytes failed.
    Io(String),
    /// The bytes are not a valid zip archive.
    InvalidArchive(String),
    /// The archive uses a feature that is not supported.
    UnsupportedArchive(String),
    /// The entry asked for is not in the archive.
    FileNotFound,
    /// The password given is wrong.
    InvalidPassword,
    /// Any other failure.
    Other,
}

/// Why a scan, a lookup in an archive or a download failed.
#[derive(Debug, Clone, PartialEq, Eq)]
pub enum Error {
    /// Reading or writing failed.
    Io(String),
    /// An archive could not be opened.
    Zip(ZipFailure),
    /// A manifest or registry document could not be decoded.
    Yaml(String),
    /// The managed directory does not exist.
    MissingModsDirectory,
    /// A manifest decoded to an empty list of mods.
    NoEntriesInModManifest(VecDeque<ModManifest>),
    /// A downloaded file does not have any of the expected fingerprints.
    InvalidChecksum { file: String, computed: String, expected: Vec<String> },
    /// A network request failed.
    Request(String),
}

} // verus!
