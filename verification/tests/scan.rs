use std::collections::VecDeque;
use std::io::{Cursor, Write};

use everest_sync::cli::{Commands, SearchArgs, ShowArgs, UpdateArgs};
use everest_sync::download::ModDownloader;
use everest_sync::error::Error;
use everest_sync::everest_yaml::{ModMetadata, ModMetadataList};
use everest_sync::fileutil::hash_file;
use everest_sync::installed_mods::{
    sort_by_name, InventoryScan, LocalModInfo, ModManifest, PendingArchive, SkipReason,
    SkippedArchive,
};
use zip::write::{SimpleFileOptions, ZipWriter};

fn zip_with(entries: &[(&str, &[u8])]) -> Vec<u8> {
    let mut zip = ZipWriter::new(Cursor::new(Vec::new()));
    for (name, content) in entries {
        zip.start_file(*name, SimpleFileOptions::default()).unwrap();
        zip.write_all(content).unwrap();
    }
    zip.finish().unwrap().into_inner()
}

fn manifest(name: &str, version: &str) -> ModManifest {
    ModManifest {
        name: name.to_string(),
        version: version.to_string(),
        dll: None,
        dependencies: None,
        optional_dependencies: None,
    }
}

fn row(name: &str, path: &str) -> LocalModInfo {
    LocalModInfo {
        archive_path: path.to_string(),
        mod_name: name.to_string(),
        version: "1".to_string(),
        checksum: "0".to_string(),
    }
}

#[test]
fn archive_without_manifest_is_left_out_without_error() {
    let archive = zip_with(&[("Maps/level.bin", b"level")]);
    let mut scan = InventoryScan::new();
    let pending = scan.examine("/mods/Assets.zip".to_string(), &archive);
    assert_eq!(pending, None);
    assert!(scan.found.is_empty());
    assert_eq!(
        scan.skipped,
        vec![SkippedArchive {
            archive_path: "/mods/Assets.zip".to_string(),
            reason: SkipReason::ManifestAbsent
        }]
    );
    let (inventory, skipped) = scan.finish();
    assert!(inventory.is_empty());
    assert_eq!(skipped.len(), 1);
}

#[test]
fn archive_with_manifest_is_handed_out_with_its_fingerprint() {
    let archive = zip_with(&[("everest.yaml", b"\xEF\xBB\xBF- Name: FrogMod")]);
    let mut scan = InventoryScan::new();
    let pending = scan.examine("/mods/FrogMod.zip".to_string(), &archive);
    assert_eq!(
        pending,
        Some(PendingArchive {
            archive_path: "/mods/FrogMod.zip".to_string(),
            checksum: hash_file(&archive),
            manifest: b"- Name: FrogMod".to_vec(),
        })
    );
    assert!(scan.found.is_empty());
    assert!(scan.skipped.is_empty());
}

#[test]
fn only_the_first_declared_mod_identifies_the_archive() {
    let archive = zip_with(&[("everest.yaml", b"- Name: A\n- Name: B\n")]);
    let mut scan = InventoryScan::new();
    let pending = scan.examine("/mods/Pack.zip".to_string(), &archive).unwrap();
    let decoded = VecDeque::from(vec![manifest("A", "1.0.0"), manifest("B", "2.0.0")]);
    scan.record(pending, Ok(decoded));
    let (inventory, skipped) = scan.finish();
    assert_eq!(
        inventory,
        vec![LocalModInfo {
            archive_path: "Pack.zip".to_string(),
            mod_name: "A".to_string(),
            version: "1.0.0".to_string(),
            checksum: hash_file(&archive),
        }]
    );
    assert!(skipped.is_empty());
}

#[test]
fn broken_archive_is_left_out_and_the_scan_goes_on() {
    let good = zip_with(&[("everest.yaml", b"- Name: FrogMod")]);
    let mut scan = InventoryScan::new();
    assert_eq!(scan.examine("/mods/Broken.zip".to_string(), b"not a zip file"), None);
    let pending = scan.examine("/mods/FrogMod.zip".to_string(), &good).unwrap();
    scan.record(pending, Ok(VecDeque::from(vec![manifest("FrogMod", "1.0.0")])));
    assert_eq!(scan.skipped.len(), 1);
    assert_eq!(scan.skipped[0].archive_path, "/mods/Broken.zip");
    assert!(matches!(scan.skipped[0].reason, SkipReason::Failed(Error::Zip(_))));
    assert_eq!(scan.found.len(), 1);
    assert_eq!(scan.found[0].mod_name, "FrogMod");
}

#[test]
fn undecodable_manifest_leaves_the_archive_out() {
    let archive = zip_with(&[("everest.yaml", b"invalid: [yaml: content")]);
    let mut scan = InventoryScan::new();
    let pending = scan.examine("/mods/Bad.zip".to_string(), &archive).unwrap();
    scan.record(pending, Err("did not find expected ',' or ']'".to_string()));
    assert!(scan.found.is_empty());
    assert_eq!(
        scan.skipped,
        vec![SkippedArchive {
            archive_path: "/mods/Bad.zip".to_string(),
            reason: SkipReason::Failed(Error::Yaml("did not find expected ',' or ']'".to_string())),
        }]
    );
}

#[test]
fn manifest_without_entries_leaves_the_archive_out() {
    let archive = zip_with(&[("everest.yaml", b"[]")]);
    let mut scan = InventoryScan::new();
    let pending = scan.examine("/mods/Empty.zip".to_string(), &archive).unwrap();
    scan.record(pending, Ok(VecDeque::new()));
    assert!(scan.found.is_empty());
    assert_eq!(
        scan.skipped[0].reason,
        SkipReason::Failed(Error::NoEntriesInModManifest(VecDeque::new()))
    );
}

#[test]
fn unreadable_file_is_left_out() {
    let mut scan = InventoryScan::new();
    scan.skip("/mods/Locked.zip".to_string(), Error::Io("permission denied".to_string()));
    assert_eq!(
        scan.skipped,
        vec![SkippedArchive {
            archive_path: "/mods/Locked.zip".to_string(),
            reason: SkipReason::Failed(Error::Io("permission denied".to_string())),
        }]
    );
    assert!(scan.found.is_empty());
}

#[test]
fn main_entry_is_the_first() {
    let entries = VecDeque::from(vec![manifest("A", "1"), manifest("B", "2")]);
    assert_eq!(ModManifest::main_entry(entries), Ok(manifest("A", "1")));
    assert_eq!(
        ModManifest::main_entry(VecDeque::new()),
        Err(Error::NoEntriesInModManifest(VecDeque::new()))
    );
}

#[test]
fn main_mod_of_a_list_is_the_first() {
    let metadata = |name: &str, version: &str| ModMetadata {
        name: name.to_string(),
        version: version.to_string(),
        dll: None,
        dependencies: None,
        optional_dependencies: None,
    };
    let list = ModMetadataList(vec![metadata("FrogMod", "1.0.0"), metadata("Other", "2")]);
    let frog_mod = list.get_main_mod().unwrap();
    assert_eq!(frog_mod.name, "FrogMod");
    assert_eq!(frog_mod.version, "1.0.0");
    assert!(ModMetadataList(Vec::new()).get_main_mod().is_none());
}

#[test]
fn inventory_row_keeps_the_file_name_of_the_path() {
    let info = LocalModInfo::new(
        "/home/user/Celeste/Mods/FrogMod.zip".to_string(),
        manifest("FrogMod", "1.0.0"),
        "f437bf0515368130".to_string(),
    );
    assert_eq!(info.archive_path, "FrogMod.zip");
    assert_eq!(info.mod_name, "FrogMod");
    assert_eq!(info.version, "1.0.0");
    assert_eq!(info.checksum, "f437bf0515368130");
    let bare = LocalModInfo::new("FrogMod.zip".to_string(), manifest("F", "1"), String::new());
    assert_eq!(bare.archive_path, "FrogMod.zip");
    let directory = LocalModInfo::new("Mods/".to_string(), manifest("F", "1"), String::new());
    assert_eq!(directory.archive_path, "Mods/");
    let empty = LocalModInfo::new(String::new(), manifest("F", "1"), String::new());
    assert_eq!(empty.archive_path, "");
}

#[test]
fn inventory_is_sorted_by_name_in_byte_order() {
    let mods = vec![
        row("frog", "1.zip"),
        row("Zebra", "2.zip"),
        row("apple", "3.zip"),
        row("Apple", "4.zip"),
        row("", "5.zip"),
        row("App", "6.zip"),
    ];
    let names: Vec<String> = sort_by_name(mods).into_iter().map(|m| m.mod_name).collect();
    assert_eq!(names, vec!["", "App", "Apple", "Zebra", "apple", "frog"]);
}

#[test]
fn mods_of_one_name_keep_their_order() {
    let mods = vec![
        row("Frog", "b.zip"),
        row("Apple", "x.zip"),
        row("Frog", "a.zip"),
        row("Frog", "c.zip"),
    ];
    let paths: Vec<String> = sort_by_name(mods).into_iter().map(|m| m.archive_path).collect();
    assert_eq!(paths, vec!["x.zip", "b.zip", "a.zip", "c.zip"]);
    assert!(sort_by_name(Vec::new()).is_empty());
}

#[test]
fn finished_scan_is_sorted_and_lists_what_was_left_out() {
    let mut scan = InventoryScan::new();
    for (file, name) in [("z.zip", "Zebra"), ("a.zip", "Apple"), ("m.zip", "Mango")] {
        let archive = zip_with(&[("everest.yaml", name.as_bytes())]);
        let pending = scan.examine(format!("/mods/{}", file), &archive).unwrap();
        scan.record(pending, Ok(VecDeque::from(vec![manifest(name, "1")])));
    }
    scan.examine("/mods/none.zip".to_string(), &zip_with(&[]));
    let downloader = ModDownloader::new("/mods");
    let installed = downloader.list_installed_mods(scan.clone());
    let names: Vec<&str> = installed.iter().map(|m| m.mod_name.as_str()).collect();
    assert_eq!(names, vec!["Apple", "Mango", "Zebra"]);
    let (inventory, skipped) = scan.finish();
    assert_eq!(inventory, installed);
    assert_eq!(skipped.len(), 1);
    assert_eq!(skipped[0].archive_path, "/mods/none.zip");
}

#[test]
fn only_commands_on_the_registry_need_it() {
    assert!(!Commands::List.needs_registry());
    assert!(!Commands::Show(ShowArgs { name: "FrogMod".to_string() }).needs_registry());
    assert!(Commands::Search(SearchArgs { query: "frog".to_string() }).needs_registry());
    assert!(Commands::Update(UpdateArgs { install: false }).needs_registry());
}
