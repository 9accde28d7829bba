//! Installed mods: the manifest embedded in an archive and the inventory row
//! derived from it.

use std::collections::VecDeque;
use vstd::prelude::*;
use crate::error::Error;
use crate::fileutil::{hash_file, manifest_in, read_manifest_file_from_zip, ManifestLookup};
use crate::fingerprint::fingerprint_of;
use vstd::utf8::encode_utf8;
use crate::order::{lemma_bytes_le_total, lemma_bytes_le_transitive, name_le, name_precedes};
use crate::text::{after_last, chars_of, last_segment_start, string_from};

verus! {

/// A mod's manifest, as decoded from the `everest.yaml` of its archive.
#[derive(Debug, Clone, PartialEq, Eq)]
pub struct ModManifest {
    pub name: String,
    pub version: String,
    pub dll: Option<String>,
    pub dependencies: Option<Vec<Dependency>>,
    pub optional_dependencies: Option<Vec<Dependency>>,
}

/// A required or optional dependency of a mod.
#[derive(Debug, Clone, PartialEq, Eq)]
pub struct Dependency {
    pub name: String,
    pub version: Option<String>,
}

/// All installed mods that have a valid manifest.
pub type InstalledModList = Vec<LocalModInfo>;

/// One installed mod.
#[derive(Debug, Clone, PartialEq, Eq)]
pub struct LocalModInfo {
    /// File name of the archive inside the managed directory.
    pub archive_path: String,
    /// Name of the mod, from its manifest.
    pub mod_name: String,
    /// Version of the mod, from its manifest.
    pub version: String,
    /// Fingerprint of the whole archive file.
    pub checksum: String,
}

/// What a `LocalModInfo` holds, as plain sequences of characters.
pub struct LocalModView {
    pub archive_path: Seq<char>,
    pub mod_name: Seq<char>,
    pub version: Seq<char>,
    pub checksum: Seq<char>,
}

impl View for LocalModInfo {
    type V = LocalModView;

    open spec fn view(&self) -> LocalModView {
        LocalModView {
            archive_path: self.archive_path@,
            mod_name: self.mod_name@,
            version: self.version@,
            checksum: self.checksum@,
        }
    }
}

impl DeepView for LocalModInfo {
    type V = LocalModView;

    open spec fn deep_view(&self) -> LocalModView {
        self@
    }
}

/// The final component of `path`: what stands behind its last `/`. A path
/// that ends in `/` has no final component and stands for itself.
pub open spec fn file_name_of(path: Seq<char>) -> Seq<char> {
    if after_last(path, '/').len() == 0 {
        path
    } else {
        after_last(path, '/')
    }
}

impl ModManifest {
    /// The entry that identifies an archive: the first that its manifest
    /// declares. A manifest without entries is an error.
    pub fn main_entry(entries: VecDeque<ModManifest>) -> (result: Result<ModManifest, Error>)
        ensures
            entries@.len() > 0 ==> result == Ok::<ModManifest, Error>(entries@[0]),
            entries@.len() == 0 ==> result == Err::<ModManifest, Error>(
                Error::NoEntriesInModManifest(entries),
            ),
    {
        if entries.len() == 0 {
            return Err(Error::NoEntriesInModManifest(entries));
        }
        let mut entries = entries;
        match entries.pop_front() {
            Some(first) => Ok(first),
            None => Err(Error::NoEntriesInModManifest(entries)),
        }
    }
}

impl LocalModInfo {
    /// The inventory row for the archive at `archive_path`, whose manifest
    /// entry is `manifest` and whose fingerprint is `checksum`. Of the path
    /// only the file name is kept.
    pub fn new(archive_path: String, manifest: ModManifest, checksum: String) -> (info:
        LocalModInfo)
        ensures
            info.archive_path@ == file_name_of(archive_path@),
            info.mod_name == manifest.name,
            info.version == manifest.version,
            info.checksum == checksum,
    {
        let chars = chars_of(archive_path.as_str());
        let start = last_segment_start(&chars, '/');
        let archive_filename = if start == chars.len() {
            archive_path
        } else {
            string_from(&chars, start, chars.len())
        };
        LocalModInfo {
            archive_path: archive_filename,
            mod_name: manifest.name,
            version: manifest.version,
            checksum,
        }
    }
}

/// Why an archive is not in the inventory.
#[derive(Debug, Clone, PartialEq, Eq)]
pub enum SkipReason {
    /// The archive has no manifest. This is no error: such archives bundle
    /// assets without metadata.
    ManifestAbsent,
    /// The archive or its manifest could not be read or decoded.
    Failed(Error),
}

/// An archive that a scan left out, with the reason.
#[derive(Debug, Clone, PartialEq, Eq)]
pub struct SkippedArchive {
    pub archive_path: String,
    pub reason: SkipReason,
}

/// An archive whose manifest was found and is still to be decoded.
#[derive(Debug, Clone, PartialEq, Eq)]
pub struct PendingArchive {
    /// Path of the archive.
    pub archive_path: String,
    /// Fingerprint of the whole archive file.
    pub checksum: String,
    /// The manifest's bytes.
    pub manifest: Vec<u8>,
}

/// A scan of the managed directory, archive by archive: the inventory so
/// far, and the archives left out so far.
#[derive(Debug, Clone, PartialEq, Eq)]
pub struct InventoryScan {
    pub found: Vec<LocalModInfo>,
    pub skipped: Vec<SkippedArchive>,
}

/// The inventory row of the archive `pending` whose manifest declares
/// `main` first.
pub open spec fn row_of(pending: PendingArchive, main: ModManifest) -> LocalModView {
    LocalModView {
        archive_path: file_name_of(pending.archive_path@),
        mod_name: main.name@,
        version: main.version@,
        checksum: pending.checksum@,
    }
}

/// Whether `mods` is in the order of its mods' names.
pub open spec fn sorted_by_name(mods: Seq<LocalModInfo>) -> bool {
    forall|i: int, j: int|
        0 <= i < j < mods.len() ==> name_le(
            (#[trigger] mods[i]).mod_name@,
            (#[trigger] mods[j]).mod_name@,
        )
}

/// Whether `sorted` holds the first `count` mods of `input`, each once, in
/// the order of their names, and mods of one name in the order in which
/// `input` holds them. `origin` says where in `input` each mod of `sorted`
/// comes from.
pub open spec fn stable_sort_of(
    sorted: Seq<LocalModInfo>,
    input: Seq<LocalModInfo>,
    origin: Seq<int>,
    count: int,
) -> bool {
    &&& sorted.len() == count
    &&& origin.len() == count
    &&& count <= input.len()
    &&& forall|i: int|
        0 <= i < count ==> 0 <= #[trigger] origin[i] < count && sorted[i] == input[origin[i]]
    &&& forall|i: int, j: int|
        0 <= i < j < count ==> #[trigger] origin[i] != #[trigger] origin[j]
    &&& sorted_by_name(sorted)
    &&& forall|i: int, j: int|
        0 <= i < j < count && name_le(
            (#[trigger] sorted[j]).mod_name@,
            (#[trigger] sorted[i]).mod_name@,
        ) ==> origin[i] < origin[j]
}

/// Whether `sorted` is `input` sorted by name, mods of one name staying in
/// the order in which `input` holds them.
pub open spec fn sorted_inventory_of(sorted: Seq<LocalModInfo>, input: Seq<LocalModInfo>) -> bool {
    exists|origin: Seq<int>| stable_sort_of(sorted, input, origin, input.len() as int)
}

/// Putting the next mod of `input` behind the mods that do not stand after
/// it keeps the order and who came first.
proof fn lemma_insert_keeps_order(
    sorted: Seq<LocalModInfo>,
    input: Seq<LocalModInfo>,
    origin: Seq<int>,
    count: int,
    at: int,
)
    requires
        stable_sort_of(sorted, input, origin, count),
        count < input.len(),
        0 <= at <= count,
        at > 0 ==> name_le(sorted[at - 1].mod_name@, input[count].mod_name@),
        forall|j: int|
            at <= j < count ==> !name_le((#[trigger] sorted[j]).mod_name@, input[count].mod_name@),
    ensures
        stable_sort_of(sorted.insert(at, input[count]), input, origin.insert(at, count), count + 1),
{
    let next = input[count];
    let after = sorted.insert(at, next);
    let from = origin.insert(at, count);
    assert forall|i: int| 0 <= i < count + 1 implies 0 <= #[trigger] from[i] < count + 1
        && after[i] == input[from[i]] by {
        if i < at {
            assert(from[i] == origin[i]);
        } else if i > at {
            assert(from[i] == origin[i - 1]);
        }
    }
    assert forall|i: int, j: int| 0 <= i < j < count + 1 implies #[trigger] from[i]
        != #[trigger] from[j] by {
        let a = if i < at { i } else { i - 1 };
        let b = if j < at { j } else { j - 1 };
        if i != at && j != at {
            assert(origin[a] != origin[b]);
        } else if i == at {
            assert(from[j] == origin[b]);
        } else {
            assert(from[i] == origin[a]);
        }
    }
    assert forall|i: int, j: int| 0 <= i < j < count + 1 implies name_le(
        (#[trigger] after[i]).mod_name@,
        (#[trigger] after[j]).mod_name@,
    ) by {
        let a = if i < at { i } else { i - 1 };
        let b = if j < at { j } else { j - 1 };
        if i != at && j != at {
            assert(name_le(sorted[a].mod_name@, sorted[b].mod_name@));
        } else if i == at {
            assert(!name_le(sorted[b].mod_name@, next.mod_name@));
            lemma_bytes_le_total(encode_utf8(sorted[b].mod_name@), encode_utf8(next.mod_name@));
        } else {
            if a < at - 1 {
                assert(name_le(sorted[a].mod_name@, sorted[at - 1].mod_name@));
                lemma_bytes_le_transitive(
                    encode_utf8(sorted[a].mod_name@),
                    encode_utf8(sorted[at - 1].mod_name@),
                    encode_utf8(next.mod_name@),
                );
            }
        }
    }
    assert forall|i: int, j: int|
        0 <= i < j < count + 1 && name_le(
            (#[trigger] after[j]).mod_name@,
            (#[trigger] after[i]).mod_name@,
        ) implies from[i] < from[j] by {
        let a = if i < at { i } else { i - 1 };
        let b = if j < at { j } else { j - 1 };
        if i != at && j != at {
            assert(name_le(sorted[b].mod_name@, sorted[a].mod_name@));
            assert(origin[a] < origin[b]);
        } else if i == at {
            assert(!name_le(sorted[b].mod_name@, next.mod_name@));
        } else {
            assert(from[i] == origin[a]);
        }
    }
}

/// The inventory `mods` sorted by the names of its mods, in byte order.
/// Mods of one name stay in the order in which `mods` holds them.
pub fn sort_by_name(mods: Vec<LocalModInfo>) -> (sorted: Vec<LocalModInfo>)
    ensures
        sorted_inventory_of(sorted@, mods@),
        sorted_by_name(sorted@),
        sorted@.to_multiset() == mods@.to_multiset(),
{
    let mut sorted: Vec<LocalModInfo> = Vec::new();
    let ghost all = mods@;
    let ghost mut origin: Seq<int> = Seq::empty();
    proof {
        assert(all.take(0) == Seq::<LocalModInfo>::empty());
    }
    for next in it: mods
        invariant
            it.seq() == all,
            stable_sort_of(sorted@, all, origin, it.index() as int),
            sorted@.to_multiset() == all.take(it.index() as int).to_multiset(),
    {
        let ghost count = it.index() as int;
        let mut at: usize = sorted.len();
        while at > 0 && !name_precedes(sorted[at - 1].mod_name.as_str(), next.mod_name.as_str())
            invariant
                at <= sorted.len(),
                forall|j: int|
                    at <= j < sorted.len() ==> !name_le(
                        (#[trigger] sorted@[j]).mod_name@,
                        next.mod_name@,
                    ),
            decreases at,
        {
            at -= 1;
        }
        let ghost before = sorted@;
        proof {
            lemma_insert_keeps_order(before, all, origin, count, at as int);
            origin = origin.insert(at as int, count);
        }
        sorted.insert(at, next);
        proof {
            broadcast use vstd::seq_lib::group_to_multiset_ensures;

            assert(sorted@.remove(at as int) == before);
            assert(all.take(count + 1) == all.take(count).push(next));
            assert(sorted@.to_multiset().count(next) > 0) by {
                assert(sorted@[at as int] == next);
                assert(sorted@.contains(next));
            }
            assert(sorted@.to_multiset() =~= before.to_multiset().insert(next));
        }
    }
    proof {
        assert(all.take(all.len() as int) == all);
    }
    sorted
}

impl InventoryScan {
    /// A scan that has seen no archive yet.
    pub fn new() -> (scan: InventoryScan)
        ensures
            scan.found@.len() == 0,
            scan.skipped@.len() == 0,
    {
        InventoryScan { found: Vec::new(), skipped: Vec::new() }
    }

    /// Leaves out the archive at `archive_path`, which could not be read.
    pub fn skip(&mut self, archive_path: String, error: Error)
        ensures
            final(self).found@ == old(self).found@,
            final(self).skipped@ == old(self).skipped@.push(
                SkippedArchive { archive_path, reason: SkipReason::Failed(error) },
            ),
    {
        self.skipped.push(SkippedArchive { archive_path, reason: SkipReason::Failed(error) });
    }

    /// Looks into the archive at `archive_path`, whose file holds `archive`.
    /// Where it has a manifest, the manifest is handed out to be decoded,
    /// together with the fingerprint of the whole file. Where it has none,
    /// or cannot be read, the archive is left out and the scan goes on: no
    /// archive makes a scan fail.
    pub fn examine(&mut self, archive_path: String, archive: &[u8]) -> (pending: Option<
        PendingArchive,
    >)
        ensures
            final(self).found@ == old(self).found@,
            match manifest_in(archive@) {
                ManifestLookup::Found(content) => {
                    &&& final(self).skipped@ == old(self).skipped@
                    &&& pending matches Some(p)
                    &&& p.archive_path == archive_path
                    &&& p.checksum@ == fingerprint_of(archive@)
                    &&& p.manifest@ == content
                },
                ManifestLookup::Absent => {
                    &&& pending is None
                    &&& final(self).skipped@ == old(self).skipped@.push(
                        SkippedArchive { archive_path, reason: SkipReason::ManifestAbsent },
                    )
                },
                ManifestLookup::Unopened(failure) => {
                    &&& pending is None
                    &&& final(self).skipped@ == old(self).skipped@.push(
                        SkippedArchive {
                            archive_path,
                            reason: SkipReason::Failed(Error::Zip(failure)),
                        },
                    )
                },
                ManifestLookup::Unreadable => {
                    &&& pending is None
                    &&& final(self).skipped@.len() == old(self).skipped@.len() + 1
                    &&& final(self).skipped@.drop_last() == old(self).skipped@
                    &&& final(self).skipped@.last().archive_path == archive_path
                    &&& final(self).skipped@.last().reason matches SkipReason::Failed(Error::Io(_))
                },
            },
    {
        match read_manifest_file_from_zip(archive) {
            Ok(Some(manifest)) => {
                let checksum = hash_file(archive);
                Some(PendingArchive { archive_path, checksum, manifest })
            },
            Ok(None) => {
                self.skipped.push(
                    SkippedArchive { archive_path, reason: SkipReason::ManifestAbsent },
                );
                None
            },
            Err(error) => {
                let ghost before = self.skipped@;
                self.skipped.push(SkippedArchive { archive_path, reason: SkipReason::Failed(error) });
                proof {
                    assert(self.skipped@.drop_last() == before);
                }
                None
            },
        }
    }

    /// Takes the decoded manifest of the archive `pending`. The first mod
    /// that the manifest declares gives the archive its row in the
    /// inventory, whatever else the manifest declares. An archive whose
    /// manifest could not be decoded, or declares nothing, is left out.
    pub fn record(&mut self, pending: PendingArchive, decoded: Result<VecDeque<ModManifest>, String>)
        ensures
            match decoded {
                Ok(entries) => if entries@.len() > 0 {
                    &&& final(self).skipped@ == old(self).skipped@
                    &&& final(self).found.deep_view() == old(self).found.deep_view().push(
                        row_of(pending, entries@[0]),
                    )
                } else {
                    &&& final(self).found@ == old(self).found@
                    &&& final(self).skipped@ == old(self).skipped@.push(
                        SkippedArchive {
                            archive_path: pending.archive_path,
                            reason: SkipReason::Failed(Error::NoEntriesInModManifest(entries)),
                        },
                    )
                },
                Err(message) => {
                    &&& final(self).found@ == old(self).found@
                    &&& final(self).skipped@ == old(self).skipped@.push(
                        SkippedArchive {
                            archive_path: pending.archive_path,
                            reason: SkipReason::Failed(Error::Yaml(message)),
                        },
                    )
                },
            },
    {
        let PendingArchive { archive_path, checksum, manifest: _ } = pending;
        let main = match decoded {
            Ok(entries) => ModManifest::main_entry(entries),
            Err(message) => Err(Error::Yaml(message)),
        };
        match main {
            Ok(manifest) => {
                let ghost before = self.found.deep_view();
                let info = LocalModInfo::new(archive_path, manifest, checksum);
                self.found.push(info);
                proof {
                    assert(self.found.deep_view() == before.push(info@));
                }
            },
            Err(error) => {
                self.skipped.push(SkippedArchive { archive_path, reason: SkipReason::Failed(error) });
            },
        }
    }

    /// Ends the scan: the inventory, sorted by the names of the mods in byte
    /// order, and the archives that were left out, in the order in which
    /// they were met.
    pub fn finish(self) -> (result: (InstalledModList, Vec<SkippedArchive>))
        ensures
            sorted_inventory_of(result.0@, self.found@),
            result.0@.to_multiset() == self.found@.to_multiset(),
            result.1 == self.skipped,
    {
        (sort_by_name(self.found), self.skipped)
    }
}

} // verus!
