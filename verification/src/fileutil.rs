//! Archives: which files of the managed directory are archives, what is in
//! one, and where its manifest is.

use std::io::{Cursor, Read};
use vstd::prelude::*;
use zip::result::ZipError;
use zip::ZipArchive;
use crate::constant::{ARCHIVE_EXTENSION, MOD_MANIFEST_FILE, MOD_MANIFEST_FILE_SHORT};
use crate::error::{Error, ZipFailure};
use crate::fingerprint::{fingerprint_of, ContentHasher};
use crate::text::{chars_of, ends_with, ends_with_chars, lowercase_ascii, lowercase_chars};

verus! {

/// The names of the entries of the zip archive `archive`, in the order of
/// their indexes, as `zip::ZipArchive::new` and `ZipArchive::file_names` give
/// them; or why `ZipArchive::new` cannot open the archive.
pub uninterp spec fn zip_directory(archive: Seq<u8>) -> Result<Seq<Seq<char>>, ZipFailure>;

/// What the entry with the index `index` of the zip archive `archive` holds
/// once decompressed, as `ZipArchive::by_index` and reading the entry to its
/// end give it; `None` where the archive cannot be opened, has no such entry
/// or the entry cannot be read.
pub uninterp spec fn zip_entry_data(archive: Seq<u8>, index: int) -> Option<Seq<u8>>;

/// `zip::ZipArchive::new` on the bytes, then `ZipArchive::file_names`: the
/// names of the archive's entries in the order of their indexes, or the
/// failure of `new`, variant by variant.
#[verifier::external_body]
fn list_entries(archive: &[u8]) -> (listing: Result<Vec<String>, ZipFailure>)
    ensures
        match listing {
            Ok(names) => zip_directory(archive@) == Ok::<Seq<Seq<char>>, ZipFailure>(
                names.deep_view(),
            ),
            Err(failure) => zip_directory(archive@) == Err::<Seq<Seq<char>>, ZipFailure>(failure),
        },
{
    match ZipArchive::new(Cursor::new(archive)) {
        Ok(opened) => Ok(opened.file_names().map(String::from).collect()),
        Err(ZipError::Io(e)) => Err(ZipFailure::Io(e.to_string())),
        Err(ZipError::InvalidArchive(m)) => Err(ZipFailure::InvalidArchive(m.into_owned())),
        Err(ZipError::UnsupportedArchive(m)) => Err(ZipFailure::UnsupportedArchive(m.to_owned())),
        Err(ZipError::FileNotFound) => Err(ZipFailure::FileNotFound),
        Err(ZipError::InvalidPassword) => Err(ZipFailure::InvalidPassword),
        Err(_) => Err(ZipFailure::Other),
    }
}

/// `zip::ZipArchive::new` on the bytes, then `ZipArchive::by_index` and
/// `Read::read_to_end` on the entry: what the entry holds, or the message of
/// the step that failed.
#[verifier::external_body]
fn read_entry(archive: &[u8], index: usize) -> (data: Result<Vec<u8>, String>)
    ensures
        match data {
            Ok(bytes) => zip_entry_data(archive@, index as int) == Some(bytes@),
            Err(_) => zip_entry_data(archive@, index as int) is None,
        },
{
    let mut opened = ZipArchive::new(Cursor::new(archive)).map_err(|e| e.to_string())?;
    let mut entry = opened.by_index(index).map_err(|e| e.to_string())?;
    let mut bytes = Vec::new();
    entry.read_to_end(&mut bytes).map_err(|e| e.to_string())?;
    Ok(bytes)
}

/// Whether an entry named `name` is a manifest: its name, in lower case,
/// ends with the manifest's file name or with the short form of it. The
/// directories before the file name do not matter.
pub open spec fn is_manifest_name(name: Seq<char>) -> bool {
    ends_with(lowercase_ascii(name), MOD_MANIFEST_FILE@) || ends_with(
        lowercase_ascii(name),
        MOD_MANIFEST_FILE_SHORT@,
    )
}

/// How many names stand in `names` before the first manifest name: the index
/// of the manifest's entry, or the length of `names` if there is none.
pub open spec fn manifest_index(names: Seq<Seq<char>>) -> int
    decreases names.len(),
{
    if names.len() == 0 {
        0
    } else if is_manifest_name(names[0]) {
        0
    } else {
        1 + manifest_index(names.drop_first())
    }
}

/// Whether `data` starts with the three bytes of the UTF-8 byte-order mark.
pub open spec fn has_bom(data: Seq<u8>) -> bool {
    data.len() >= 3 && data[0] == 0xEF && data[1] == 0xBB && data[2] == 0xBF
}

/// `data` without the byte-order mark that it starts with, if it starts
/// with one.
pub open spec fn without_bom(data: Seq<u8>) -> Seq<u8> {
    if has_bom(data) {
        data.skip(3)
    } else {
        data
    }
}

/// What looking for the manifest of an archive comes to.
pub enum ManifestLookup {
    /// The archive cannot be opened.
    Unopened(ZipFailure),
    /// The archive has no entry with a manifest name.
    Absent,
    /// The archive has such an entry, and it cannot be read.
    Unreadable,
    /// The manifest: what the entry holds, without a leading byte-order mark.
    Found(Seq<u8>),
}

/// What looking for the manifest of the archive `archive` comes to. Of
/// several entries with a manifest name, the one with the lowest index is
/// the manifest.
pub open spec fn manifest_in(archive: Seq<u8>) -> ManifestLookup {
    match zip_directory(archive) {
        Err(failure) => ManifestLookup::Unopened(failure),
        Ok(names) => if manifest_index(names) == names.len() {
            ManifestLookup::Absent
        } else {
            match zip_entry_data(archive, manifest_index(names)) {
                Some(data) => ManifestLookup::Found(without_bom(data)),
                None => ManifestLookup::Unreadable,
            }
        },
    }
}

/// The manifest's index is in range exactly when some name is a manifest
/// name; the name there is one, and no name before it is.
pub proof fn lemma_manifest_index(names: Seq<Seq<char>>)
    ensures
        0 <= manifest_index(names) <= names.len(),
        manifest_index(names) < names.len() ==> is_manifest_name(names[manifest_index(names)]),
        forall|j: int| 0 <= j < manifest_index(names) ==> !is_manifest_name(#[trigger] names[j]),
        manifest_index(names) == names.len() <==> forall|j: int|
            0 <= j < names.len() ==> !is_manifest_name(#[trigger] names[j]),
    decreases names.len(),
{
    if names.len() == 0 {
    } else if is_manifest_name(names[0]) {
    } else {
        let rest = names.drop_first();
        lemma_manifest_index(rest);
        let k = manifest_index(rest);
        if k < rest.len() {
            assert(names[k + 1] == rest[k]);
        }
        assert forall|j: int| 0 <= j < 1 + k implies !is_manifest_name(#[trigger] names[j]) by {
            if j > 0 {
                assert(rest[j - 1] == names[j]);
            }
        }
        if forall|j: int| 0 <= j < names.len() ==> !is_manifest_name(#[trigger] names[j]) {
            assert forall|j: int| 0 <= j < rest.len() implies !is_manifest_name(
                #[trigger] rest[j],
            ) by {
                assert(rest[j] == names[j + 1]);
            }
        }
    }
}

/// An archive that can be opened and has no entry with a manifest name has
/// no manifest: looking for it fails in no way.
pub proof fn lemma_archive_without_manifest_entry(archive: Seq<u8>, names: Seq<Seq<char>>)
    requires
        zip_directory(archive) == Ok::<Seq<Seq<char>>, ZipFailure>(names),
        forall|j: int| 0 <= j < names.len() ==> !is_manifest_name(#[trigger] names[j]),
    ensures
        manifest_in(archive) == ManifestLookup::Absent,
{
    lemma_manifest_index(names);
}

/// A manifest with a byte-order mark before it is read as the same manifest
/// without the mark, unless the manifest itself starts with the mark's bytes.
pub proof fn lemma_bom_is_transparent(content: Seq<u8>)
    requires
        !has_bom(content),
    ensures
        without_bom(seq![0xEFu8, 0xBBu8, 0xBFu8] + content) == content,
        without_bom(content) == content,
{
    let marked = seq![0xEFu8, 0xBBu8, 0xBFu8] + content;
    assert(has_bom(marked));
    assert(marked.skip(3) =~= content);
}

/// Whether an entry named `name` is a manifest.
pub fn manifest_name(name: &str) -> (found: bool)
    ensures
        found == is_manifest_name(name@),
{
    let lower = lowercase_chars(&chars_of(name));
    ends_with_chars(&lower, &chars_of(MOD_MANIFEST_FILE)) || ends_with_chars(
        &lower,
        &chars_of(MOD_MANIFEST_FILE_SHORT),
    )
}

/// The index of the first entry that is a manifest, among the entries named
/// `names` in the order of their indexes.
pub fn find_manifest_entry(names: &Vec<String>) -> (found: Option<usize>)
    ensures
        match found {
            Some(i) => i < names.len() && i == manifest_index(names.deep_view()),
            None => manifest_index(names.deep_view()) == names.len(),
        },
{
    let ghost all = names.deep_view();
    let mut i: usize = 0;
    proof {
        assert(all.skip(0) == all);
    }
    while i < names.len()
        invariant
            i <= names.len(),
            all == names.deep_view(),
            manifest_index(all) == i + manifest_index(all.skip(i as int)),
        decreases names.len() - i,
    {
        proof {
            assert(all.skip(i as int)[0] == names[i as int]@);
            assert(all.skip(i as int).drop_first() == all.skip(i + 1));
        }
        if manifest_name(names[i].as_str()) {
            return Some(i);
        }
        i += 1;
    }
    None
}

/// `data` without the byte-order mark that it starts with, if it starts
/// with one.
pub fn strip_utf8_bom(data: Vec<u8>) -> (out: Vec<u8>)
    ensures
        out@ == without_bom(data@),
{
    if data.len() >= 3 && data[0] == 0xEF && data[1] == 0xBB && data[2] == 0xBF {
        let mut data = data;
        data.split_off(3)
    } else {
        data
    }
}

/// The manifest of the archive whose bytes are `archive`: what the first
/// entry with a manifest name holds, without a leading byte-order mark.
/// `Ok(None)` where the archive has no such entry; an error where the archive
/// cannot be opened or the entry cannot be read.
pub fn read_manifest_file_from_zip(archive: &[u8]) -> (manifest: Result<Option<Vec<u8>>, Error>)
    ensures
        match manifest_in(archive@) {
            ManifestLookup::Unopened(failure) => manifest == Err::<Option<Vec<u8>>, Error>(
                Error::Zip(failure),
            ),
            ManifestLookup::Absent => manifest == Ok::<Option<Vec<u8>>, Error>(None),
            ManifestLookup::Unreadable => manifest matches Err(Error::Io(_)),
            ManifestLookup::Found(content) => manifest matches Ok(Some(bytes)) && bytes@
                == content,
        },
{
    let names = match list_entries(archive) {
        Ok(names) => names,
        Err(failure) => {
            return Err(Error::Zip(failure));
        },
    };
    match find_manifest_entry(&names) {
        Some(index) => match read_entry(archive, index) {
            Ok(data) => Ok(Some(strip_utf8_bom(data))),
            Err(message) => Err(Error::Io(message)),
        },
        None => Ok(None),
    }
}

/// The fingerprint of a file that holds `content`.
pub fn hash_file(content: &[u8]) -> (fingerprint: String)
    ensures
        fingerprint@ == fingerprint_of(content@),
{
    let mut hasher = ContentHasher::new();
    hasher.update(content);
    proof {
        assert(Seq::<u8>::empty() + content@ == content@);
    }
    hasher.fingerprint()
}

/// One entry of a directory listing.
#[derive(Debug, Clone, PartialEq, Eq)]
pub struct DirectoryEntry {
    /// The entry's name inside the directory.
    pub name: String,
    /// Whether the entry is a regular file.
    pub is_file: bool,
}

/// Whether a file named `name` is an archive: its extension is `zip`.
pub open spec fn is_archive_name(name: Seq<char>) -> bool {
    ends_with(name, ARCHIVE_EXTENSION@) && name.len() > ARCHIVE_EXTENSION@.len()
}

/// The name of `entry` if it is an archive file.
pub open spec fn archive_of(entry: DirectoryEntry) -> Option<Seq<char>> {
    if entry.is_file && is_archive_name(entry.name@) {
        Some(entry.name@)
    } else {
        None
    }
}

/// Whether a file named `name` is an archive.
pub fn archive_name(name: &str) -> (found: bool)
    ensures
        found == is_archive_name(name@),
{
    let chars = chars_of(name);
    let extension = chars_of(ARCHIVE_EXTENSION);
    ends_with_chars(&chars, &extension) && chars.len() > extension.len()
}

/// The archives of the managed directory: the names of the regular files
/// among `entries` whose extension is `zip`, in the order of the listing.
/// A directory that does not exist is an error.
pub fn find_installed_mod_archives(directory_exists: bool, entries: Vec<DirectoryEntry>) -> (archives:
    Result<Vec<String>, Error>)
    ensures
        !directory_exists ==> archives == Err::<Vec<String>, Error>(Error::MissingModsDirectory),
        directory_exists ==> (archives matches Ok(names) && names.deep_view()
            == entries@.filter_map(|entry: DirectoryEntry| archive_of(entry))),
{
    if !directory_exists {
        return Err(Error::MissingModsDirectory);
    }
    let mut mod_archives: Vec<String> = Vec::new();
    let ghost all = entries@;
    let ghost f = |entry: DirectoryEntry| archive_of(entry);
    for entry in it: entries
        invariant
            it.seq() == all,
            f == |entry: DirectoryEntry| archive_of(entry),
            mod_archives.deep_view() == all.take(it.index() as int).filter_map(f),
    {
        proof {
            assert(all.take(it.index() + 1).drop_last() == all.take(it.index() as int));
        }
        if entry.is_file && archive_name(entry.name.as_str()) {
            let ghost before = mod_archives.deep_view();
            mod_archives.push(entry.name);
            proof {
                assert(mod_archives.deep_view() == before.push(entry.name@));
            }
        }
    }
    proof {
        assert(all.take(all.len() as int) == all);
    }
    Ok(mod_archives)
}

} // verus!
