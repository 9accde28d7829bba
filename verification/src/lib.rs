//! Synchronisation of a local collection of mod archives with a remote
//! registry.
//!
//! The library decides; its caller reads, writes and talks to the network.
//! - `fingerprint`: the content fingerprint of a byte stream.
//! - `fileutil`: the archives of the managed directory and the manifest
//!   inside an archive.
//! - `installed_mods`: the scan of the managed directory and the inventory
//!   it gives, sorted by name.
//! - `mod_registry`, `mod_info`: the remote registry and the catalog, found
//!   by name.
//! - `download`: the updates that an inventory requires, and the name of a
//!   downloaded file.
//! - `transfer`: one download, step by step, and what it does to the
//!   managed directory.
//! - `named`, `order`, `text`: lookups by name, the order of names, and
//!   strings as sequences of characters.

pub mod cli;
pub mod constant;
pub mod download;
pub mod error;
pub mod everest_yaml;
pub mod fileutil;
pub mod fingerprint;
pub mod installed_mods;
pub mod mod_info;
pub mod mod_registry;
pub mod named;
pub mod order;
pub mod text;
pub mod transfer;
