//! Names and addresses that the library is built around.

use vstd::prelude::*;

verus! {

/// Where the registry document is published.
pub const MOD_REGISTRY_URL: &'static str = "https://maddie480.ovh/celeste/everest_update.yaml";

/// The canonical file name of the manifest inside an archive.
pub const MOD_MANIFEST_FILE: &'static str = "everest.yaml";

/// The short form of the manifest's file name, which some archives use.
pub const MOD_MANIFEST_FILE_SHORT: &'static str = "everest.yml";

/// The extension of an archive's file name, with its dot.
pub const ARCHIVE_EXTENSION: &'static str = ".zip";

/// The managed directory, relative to the user's home directory.
pub const STEAM_MODS_DIRECTORY_PATH: &'static str = ".local/share/Steam/steamapps/common/Celeste/Mods";

} // verus!
