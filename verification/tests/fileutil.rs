use std::io::{Cursor, Write};

use everest_sync::error::{Error, ZipFailure};
use everest_sync::fileutil::{
    archive_name, find_installed_mod_archives, find_manifest_entry, manifest_name,
    read_manifest_file_from_zip, strip_utf8_bom, DirectoryEntry,
};
use zip::write::{SimpleFileOptions, ZipWriter};

const MOD_MANIFEST_FILE: &str = "everest.yaml";

// The bytes of a zip archive with the given entries, in the given order.
fn zip_with(entries: &[(&str, &[u8])]) -> Vec<u8> {
    let mut zip = ZipWriter::new(Cursor::new(Vec::new()));
    for (name, content) in entries {
        zip.start_file(*name, SimpleFileOptions::default()).unwrap();
        zip.write_all(content).unwrap();
    }
    zip.finish().unwrap().into_inner()
}

// The bytes of a zip archive with a manifest, or with nothing in it.
fn create_test_zip(manifest_content: Option<&[u8]>) -> Vec<u8> {
    match manifest_content {
        Some(content) => zip_with(&[(MOD_MANIFEST_FILE, content)]),
        None => zip_with(&[]),
    }
}

#[test]
fn test_read_manifest_file_success() {
    let content = b"test manifest content".to_vec();
    let temp_zip = create_test_zip(Some(&content));

    let result = read_manifest_file_from_zip(&temp_zip);

    assert!(result.is_ok());
    assert_eq!(result.unwrap(), Some(content));
}

#[test]
fn test_read_manifest_file_with_utf8_bom() {
    let mut content = vec![0xEF, 0xBB, 0xBF]; // UTF-8 BOM
    content.extend_from_slice(b"test manifest content");
    let expected_content = b"test manifest content".to_vec();
    let temp_zip = create_test_zip(Some(&content));

    let result = read_manifest_file_from_zip(&temp_zip);

    assert!(result.is_ok());
    assert_eq!(result.unwrap(), Some(expected_content));
}

#[test]
fn test_read_manifest_file_not_found() {
    let temp_zip = create_test_zip(None);

    let result = read_manifest_file_from_zip(&temp_zip);

    assert!(result.is_ok());
    assert_eq!(result.unwrap(), None);
}

#[test]
fn test_read_invalid_zip_file() {
    let result = read_manifest_file_from_zip(b"not a zip file");

    assert!(result.is_err());
    assert!(matches!(
        result.unwrap_err(),
        Error::Zip(ZipFailure::InvalidArchive(_))
    ));
}

#[test]
fn manifest_with_and_without_bom_read_the_same() {
    let plain = b"- Name: FrogMod\n  Version: 1.0.0\n".to_vec();
    let mut marked = vec![0xEF, 0xBB, 0xBF];
    marked.extend_from_slice(&plain);
    let from_plain = read_manifest_file_from_zip(&create_test_zip(Some(&plain))).unwrap();
    let from_marked = read_manifest_file_from_zip(&create_test_zip(Some(&marked))).unwrap();
    assert_eq!(from_plain, from_marked);
    assert_eq!(from_plain, Some(plain));
}

#[test]
fn only_one_bom_is_stripped() {
    let twice = vec![0xEF, 0xBB, 0xBF, 0xEF, 0xBB, 0xBF, b'x'];
    assert_eq!(strip_utf8_bom(twice), vec![0xEF, 0xBB, 0xBF, b'x']);
}

#[test]
fn strip_bom_leaves_other_data_alone() {
    assert_eq!(strip_utf8_bom(vec![]), Vec::<u8>::new());
    assert_eq!(strip_utf8_bom(vec![0xEF, 0xBB]), vec![0xEF, 0xBB]);
    assert_eq!(strip_utf8_bom(vec![0xEF, 0xBB, 0xBF]), Vec::<u8>::new());
    assert_eq!(strip_utf8_bom(vec![0xEF, 0xBB, 0xBE, 1]), vec![0xEF, 0xBB, 0xBE, 1]);
    assert_eq!(strip_utf8_bom(b"abc".to_vec()), b"abc".to_vec());
}

#[test]
fn manifest_is_found_in_a_subdirectory() {
    let archive = zip_with(&[
        ("Graphics/atlas.png", b"png"),
        ("FrogMod/everest.yaml", b"nested"),
    ]);
    assert_eq!(read_manifest_file_from_zip(&archive).unwrap(), Some(b"nested".to_vec()));
}

#[test]
fn manifest_name_is_matched_without_regard_to_case() {
    let archive = zip_with(&[("Everest.YAML", b"upper")]);
    assert_eq!(read_manifest_file_from_zip(&archive).unwrap(), Some(b"upper".to_vec()));
}

#[test]
fn manifest_may_use_the_short_extension() {
    let archive = zip_with(&[("everest.yml", b"short")]);
    assert_eq!(read_manifest_file_from_zip(&archive).unwrap(), Some(b"short".to_vec()));
}

#[test]
fn first_manifest_candidate_wins() {
    let archive = zip_with(&[
        ("readme.txt", b"text"),
        ("a/everest.yaml", b"first"),
        ("everest.yaml", b"second"),
    ]);
    assert_eq!(read_manifest_file_from_zip(&archive).unwrap(), Some(b"first".to_vec()));
}

#[test]
fn archive_with_other_entries_only_has_no_manifest() {
    let archive = zip_with(&[("everest.yaml.bak", b"x"), ("Maps/level.bin", b"y")]);
    assert_eq!(read_manifest_file_from_zip(&archive).unwrap(), None);
}

#[test]
fn truncated_archive_is_an_archive_error() {
    let archive = create_test_zip(Some(b"content"));
    let result = read_manifest_file_from_zip(&archive[..archive.len() / 2]);
    assert!(matches!(result, Err(Error::Zip(_))));
}

#[test]
fn manifest_names() {
    assert!(manifest_name("everest.yaml"));
    assert!(manifest_name("everest.yml"));
    assert!(manifest_name("EVEREST.YAML"));
    assert!(manifest_name("some/dir/Everest.Yml"));
    assert!(!manifest_name("everest.yaml/"));
    assert!(!manifest_name("everest.yam"));
    assert!(!manifest_name("everest.json"));
    assert!(!manifest_name(""));
}

#[test]
fn find_manifest_entry_gives_the_lowest_index() {
    let names: Vec<String> =
        ["a.txt", "x/EVEREST.yaml", "everest.yaml"].iter().map(|s| s.to_string()).collect();
    assert_eq!(find_manifest_entry(&names), Some(1));
    let none: Vec<String> = ["a.txt", "b.bin"].iter().map(|s| s.to_string()).collect();
    assert_eq!(find_manifest_entry(&none), None);
    assert_eq!(find_manifest_entry(&Vec::new()), None);
}

#[test]
fn archive_names() {
    assert!(archive_name("FrogMod.zip"));
    assert!(archive_name("a.zip"));
    assert!(archive_name("..zip"));
    assert!(!archive_name(".zip"));
    assert!(!archive_name("FrogMod.ZIP"));
    assert!(!archive_name("FrogMod.zip.bak"));
    assert!(!archive_name("zip"));
    assert!(!archive_name(""));
}

fn entry(name: &str, is_file: bool) -> DirectoryEntry {
    DirectoryEntry { name: name.to_string(), is_file }
}

#[test]
fn missing_directory_fails_the_listing() {
    let result = find_installed_mod_archives(false, vec![entry("FrogMod.zip", true)]);
    assert_eq!(result, Err(Error::MissingModsDirectory));
}

#[test]
fn listing_keeps_archive_files_in_order() {
    let entries = vec![
        entry("b.zip", true),
        entry("notes.txt", true),
        entry("folder.zip", false),
        entry("a.zip", true),
        entry("Cache", false),
    ];
    let result = find_installed_mod_archives(true, entries);
    assert_eq!(result, Ok(vec!["b.zip".to_string(), "a.zip".to_string()]));
    assert_eq!(find_installed_mod_archives(true, Vec::new()), Ok(Vec::new()));
}
