//! Updates: which installed mods are stale, and the replacement of one
//! archive by a freshly downloaded, verified one.

use vstd::prelude::*;
use vstd::slice::slice_subrange;
use crate::constant::{ARCHIVE_EXTENSION, MOD_REGISTRY_URL};
use crate::fingerprint::{fingerprint_listed, fingerprint_of, ContentHasher};
use crate::installed_mods::{sorted_inventory_of, InstalledModList, InventoryScan, LocalModInfo};
use crate::mod_registry::{ModRegistry, RemoteModInfo};
use crate::named::{has_name, lemma_first_index, lookup};
use crate::text::{after_last, chars_of, join, last_segment_start, string_from, trim, trim_chars};
use crate::transfer::{initial, Download};

verus! {

/// One required update: an installed mod whose fingerprint is not among
/// those that the registry publishes for it.
#[derive(Debug, Clone, PartialEq, Eq)]
pub struct AvailableUpdateInfo {
    /// Name of the mod.
    pub name: String,
    /// Version that is installed.
    pub current_version: String,
    /// Version that the registry publishes.
    pub available_version: String,
    /// Where the published file is downloaded from.
    pub url: String,
    /// Fingerprints of the published files.
    pub hash: Vec<String>,
    /// File name of the installed archive that the update replaces.
    pub existing_path: String,
}

/// What an `AvailableUpdateInfo` holds, as plain sequences of characters.
pub struct UpdateView {
    pub name: Seq<char>,
    pub current_version: Seq<char>,
    pub available_version: Seq<char>,
    pub url: Seq<char>,
    pub hash: Seq<Seq<char>>,
    pub existing_path: Seq<char>,
}

impl View for AvailableUpdateInfo {
    type V = UpdateView;

    open spec fn view(&self) -> UpdateView {
        UpdateView {
            name: self.name@,
            current_version: self.current_version@,
            available_version: self.available_version@,
            url: self.url@,
            hash: self.hash.deep_view(),
            existing_path: self.existing_path@,
        }
    }
}

impl DeepView for AvailableUpdateInfo {
    type V = UpdateView;

    open spec fn deep_view(&self) -> UpdateView {
        self@
    }
}

/// What an optional string holds.
pub open spec fn option_view(value: Option<String>) -> Option<Seq<char>> {
    match value {
        Some(s) => Some(s@),
        None => None,
    }
}

/// Whether the installed mod `local` is stale: the registry has an entry
/// under its name, and its fingerprint is none of that entry's.
pub open spec fn is_stale(local: LocalModInfo, registry: Seq<RemoteModInfo>) -> bool {
    lookup(registry, local.mod_name@) matches Some(remote) && !fingerprint_listed(
        remote.checksums.deep_view(),
        local.checksum@,
    )
}

/// The update that replaces `local` by what `remote` publishes.
pub open spec fn update_to(local: LocalModInfo, remote: RemoteModInfo) -> UpdateView {
    UpdateView {
        name: local.mod_name@,
        current_version: local.version@,
        available_version: remote.version@,
        url: remote.download_url@,
        hash: remote.checksums.deep_view(),
        existing_path: local.archive_path@,
    }
}

/// The update that `local` requires, if it requires one.
pub open spec fn update_for(local: LocalModInfo, registry: Seq<RemoteModInfo>) -> Option<
    UpdateView,
> {
    if is_stale(local, registry) {
        Some(update_to(local, lookup(registry, local.mod_name@)->0))
    } else {
        None
    }
}

/// The updates that an inventory requires: one for each stale mod, in the
/// inventory's order.
pub open spec fn plan(locals: Seq<LocalModInfo>, registry: Seq<RemoteModInfo>) -> Seq<UpdateView> {
    locals.filter_map(|local: LocalModInfo| update_for(local, registry))
}

/// The updates that the inventory `installed` requires against `registry`:
/// one for each stale mod, in the inventory's order.
pub fn plan_updates(installed: Vec<LocalModInfo>, registry: &ModRegistry) -> (updates: Vec<
    AvailableUpdateInfo,
>)
    ensures
        updates.deep_view() == plan(installed@, registry.entries@),
{
    let mut updates: Vec<AvailableUpdateInfo> = Vec::new();
    let ghost all = installed@;
    let ghost f = |local: LocalModInfo| update_for(local, registry.entries@);
    for local_mod in it: installed
        invariant
            it.seq() == all,
            f == |local: LocalModInfo| update_for(local, registry.entries@),
            updates.deep_view() == all.take(it.index() as int).filter_map(f),
    {
        proof {
            assert(all.take(it.index() + 1).drop_last() == all.take(it.index() as int));
        }
        if let Some(remote_mod) = registry.get_mod_info(local_mod.mod_name.as_str()) {
            if !remote_mod.has_matching_hash(local_mod.checksum.as_str()) {
                let ghost before = updates.deep_view();
                let update = AvailableUpdateInfo {
                    name: local_mod.mod_name,
                    current_version: local_mod.version,
                    available_version: remote_mod.version.clone(),
                    url: remote_mod.download_url.clone(),
                    hash: remote_mod.checksums.clone(),
                    existing_path: local_mod.archive_path,
                };
                proof {
                    assert(update.hash.deep_view() =~= remote_mod.checksums.deep_view());
                }
                updates.push(update);
                proof {
                    assert(updates.deep_view() == before.push(update@));
                }
            }
        }
    }
    proof {
        assert(all.take(all.len() as int) == all);
    }
    updates
}

/// Whether `task` is the update that the `j`-th installed mod requires.
pub open spec fn planned_for(
    locals: Seq<LocalModInfo>,
    registry: Seq<RemoteModInfo>,
    j: int,
    task: UpdateView,
) -> bool {
    0 <= j < locals.len() && is_stale(locals[j], registry) && task == update_to(
        locals[j],
        lookup(registry, locals[j].mod_name@)->0,
    )
}

/// Whether `task` is the update that some stale installed mod requires.
pub open spec fn planned_for_some(
    locals: Seq<LocalModInfo>,
    registry: Seq<RemoteModInfo>,
    task: UpdateView,
) -> bool {
    exists|j: int| planned_for(locals, registry, j, task)
}

/// Every planned update is the one that some stale installed mod requires.
pub proof fn lemma_plan_lists_only_stale(locals: Seq<LocalModInfo>, registry: Seq<RemoteModInfo>)
    ensures
        forall|i: int|
            0 <= i < plan(locals, registry).len() ==> planned_for_some(
                locals,
                registry,
                #[trigger] plan(locals, registry)[i],
            ),
{
    let f = |local: LocalModInfo| update_for(local, registry);
    let tasks = plan(locals, registry);
    assert forall|i: int| 0 <= i < tasks.len() implies planned_for_some(
        locals,
        registry,
        #[trigger] tasks[i],
    ) by {
        assert(tasks.contains(tasks[i]));
        locals.lemma_filter_map_contains(f, tasks[i]);
        let t = choose|t: LocalModInfo| #[trigger] locals.contains(t) && f(t) == Some(tasks[i]);
        let j = choose|j: int| 0 <= j < locals.len() && locals[j] == t;
        assert(planned_for(locals, registry, j, tasks[i]));
    }
}

/// No update is planned for a mod name that the registry does not hold.
pub proof fn lemma_plan_only_tracked(locals: Seq<LocalModInfo>, registry: Seq<RemoteModInfo>)
    ensures
        forall|i: int|
            0 <= i < plan(locals, registry).len() ==> has_name(
                registry,
                (#[trigger] plan(locals, registry)[i]).name,
            ),
{
    let tasks = plan(locals, registry);
    lemma_plan_lists_only_stale(locals, registry);
    assert forall|i: int| 0 <= i < tasks.len() implies has_name(
        registry,
        (#[trigger] tasks[i]).name,
    ) by {
        let j = choose|j: int| planned_for(locals, registry, j, tasks[i]);
        lemma_first_index(registry, locals[j].mod_name@);
    }
}

/// Whether the `j`-th installed mod is the one that `task` replaces, and its
/// fingerprint is none of those that `task` expects.
pub open spec fn replaces_stale(locals: Seq<LocalModInfo>, j: int, task: UpdateView) -> bool {
    0 <= j < locals.len() && locals[j].mod_name@ == task.name && locals[j].archive_path@
        == task.existing_path && !fingerprint_listed(task.hash, locals[j].checksum@)
}

/// Whether `task` replaces some installed mod whose fingerprint is none of
/// those that `task` expects.
pub open spec fn replaces_some_stale(locals: Seq<LocalModInfo>, task: UpdateView) -> bool {
    exists|j: int| replaces_stale(locals, j, task)
}

/// No update is planned for an installed mod whose fingerprint is one of
/// those that the registry publishes under its name: every planned update
/// replaces an archive whose fingerprint is none of those it expects.
pub proof fn lemma_plan_skips_current(locals: Seq<LocalModInfo>, registry: Seq<RemoteModInfo>)
    ensures
        forall|i: int|
            0 <= i < plan(locals, registry).len() ==> replaces_some_stale(
                locals,
                #[trigger] plan(locals, registry)[i],
            ),
{
    let tasks = plan(locals, registry);
    lemma_plan_lists_only_stale(locals, registry);
    assert forall|i: int| 0 <= i < tasks.len() implies replaces_some_stale(
        locals,
        #[trigger] tasks[i],
    ) by {
        let j = choose|j: int| planned_for(locals, registry, j, tasks[i]);
        assert(replaces_stale(locals, j, tasks[i]));
    }
}

/// An inventory in which no mod is stale requires no update. So planning
/// again, once every planned update has been installed, plans nothing.
pub proof fn lemma_plan_of_current_is_empty(
    locals: Seq<LocalModInfo>,
    registry: Seq<RemoteModInfo>,
)
    requires
        forall|j: int| 0 <= j < locals.len() ==> !is_stale(#[trigger] locals[j], registry),
    ensures
        plan(locals, registry).len() == 0,
{
    lemma_plan_lists_only_stale(locals, registry);
    if plan(locals, registry).len() > 0 {
        let t = plan(locals, registry)[0];
        let j = choose|j: int| planned_for(locals, registry, j, t);
        assert(is_stale(locals[j], registry));
    }
}

/// The settings of one synchronisation run.
#[derive(Debug, Clone, PartialEq, Eq)]
pub struct ModDownloader {
    registry_url: String,
    download_dir: String,
}

impl ModDownloader {
    /// The settings for the managed directory `download_dir`, with the
    /// registry at its published address.
    pub fn new(download_dir: &str) -> (downloader: ModDownloader)
        ensures
            downloader.download_dir_spec() == download_dir@,
            downloader.registry_url_spec() == MOD_REGISTRY_URL@,
    {
        ModDownloader {
            registry_url: MOD_REGISTRY_URL.to_owned(),
            download_dir: download_dir.to_owned(),
        }
    }

    /// The managed directory.
    pub closed spec fn download_dir_spec(&self) -> Seq<char> {
        self.download_dir@
    }

    /// The address of the registry document.
    pub closed spec fn registry_url_spec(&self) -> Seq<char> {
        self.registry_url@
    }

    /// The managed directory.
    pub fn download_dir(&self) -> (dir: &str)
        ensures
            dir@ == self.download_dir_spec(),
    {
        self.download_dir.as_str()
    }

    /// The address of the registry document.
    pub fn registry_url(&self) -> (url: &str)
        ensures
            url@ == self.registry_url_spec(),
    {
        self.registry_url.as_str()
    }

    /// The installed mods that a finished scan of the managed directory
    /// found, sorted by name in byte order. Archives that the scan left out
    /// are not among them.
    pub fn list_installed_mods(&self, scan: InventoryScan) -> (installed: InstalledModList)
        ensures
            sorted_inventory_of(installed@, scan.found@),
            installed@.to_multiset() == scan.found@.to_multiset(),
    {
        scan.finish().0
    }

    /// A pending download of the mod `name` from `url`, for a fresh install:
    /// no file is replaced. The new file must have one of the fingerprints
    /// `expected_hash`.
    pub fn download_mod(&self, url: &str, name: &str, expected_hash: &[String]) -> (download:
        Download)
        ensures
            download.wf(),
            download@ == initial(
                name@,
                url@,
                expected_hash.deep_view(),
                Seq::empty(),
                None,
            ),
    {
        let mut expected: Vec<String> = Vec::new();
        let mut i: usize = 0;
        while i < expected_hash.len()
            invariant
                i <= expected_hash.len(),
                expected.deep_view() == expected_hash.deep_view().take(i as int),
            decreases expected_hash.len() - i,
        {
            let ghost before = expected.deep_view();
            expected.push(expected_hash[i].clone());
            proof {
                assert(expected.deep_view() =~= before.push(expected_hash@[i as int]@));
            }
            i += 1;
        }
        proof {
            assert(expected.deep_view() =~= expected_hash.deep_view());
        }
        Download::new(name.to_owned(), url.to_owned(), expected, String::new(), None)
    }

    /// The updates that the inventory `installed` requires against
    /// `mod_registry`: one for each stale mod, in the inventory's order.
    pub fn check_updates(&self, installed: Vec<LocalModInfo>, mod_registry: &ModRegistry) -> (updates:
        Vec<AvailableUpdateInfo>)
        ensures
            updates.deep_view() == plan(installed@, mod_registry.entries@),
    {
        plan_updates(installed, mod_registry)
    }
}

/// How many bytes of a file are hashed at a time.
pub const HASH_CHUNK_SIZE: usize = 8192;

/// The fingerprint of a file that holds `content`, computed chunk by chunk.
pub fn sync_hash_file(content: &[u8]) -> (fingerprint: String)
    ensures
        fingerprint@ == fingerprint_of(content@),
{
    let mut hasher = ContentHasher::new();
    let mut done: usize = 0;
    proof {
        assert(content@.take(0) == Seq::<u8>::empty());
    }
    while done < content.len()
        invariant
            done <= content.len(),
            hasher.wf(),
            hasher@ == content@.take(done as int),
        decreases content.len() - done,
    {
        let end: usize = if content.len() - done > HASH_CHUNK_SIZE {
            done + HASH_CHUNK_SIZE
        } else {
            content.len()
        };
        hasher.update(slice_subrange(content, done, end));
        proof {
            assert(content@.take(done as int) + content@.subrange(done as int, end as int)
                == content@.take(end as int));
        }
        done = end;
    }
    proof {
        assert(content@.take(content.len() as int) == content@);
    }
    hasher.fingerprint()
}

/// The path of the URL that `url` is parsed to, as `url::Url::parse` and
/// `url::Url::path` give it; `None` where `url` is not an absolute URL.
pub uninterp spec fn url_path_of(url: Seq<char>) -> Option<Seq<char>>;

/// `url::Url::parse`, then `url::Url::path`: the path of the URL written in
/// `url`, or `None` where `url` cannot be parsed.
#[verifier::external_body]
fn parse_url_path(url: &str) -> (path: Option<String>)
    ensures
        option_view(path) == url_path_of(url@),
{
    match url::Url::parse(url) {
        Ok(parsed) => Some(parsed.path().to_owned()),
        Err(_) => None,
    }
}

/// `uuid::Uuid::new_v4`, written out: a random identifier. Nothing is
/// promised of it.
#[verifier::external_body]
pub(crate) fn fresh_identifier() -> (id: String) {
    uuid::Uuid::new_v4().to_string()
}

/// The last segment of a URL's path, if the path starts with `/` and the
/// segment is not empty.
pub open spec fn last_segment(path: Seq<char>) -> Option<Seq<char>> {
    if path.len() > 0 && path[0] == '/' && after_last(path, '/').len() > 0 {
        Some(after_last(path, '/'))
    } else {
        None
    }
}

/// The file name that a URL gives: the last segment of its path.
pub open spec fn file_name_from_url(url: Seq<char>) -> Option<Seq<char>> {
    match url_path_of(url) {
        Some(path) => last_segment(path),
        None => None,
    }
}

/// The file name that an `ETag` header gives: its value without the quotes
/// around it, with the archive extension.
pub open spec fn file_name_from_etag(etag: Seq<char>) -> Seq<char> {
    trim(etag, '"') + ARCHIVE_EXTENSION@
}

/// The file name for a download of which nothing else gives a name.
pub open spec fn placeholder_name(unique: Seq<char>) -> Seq<char> {
    "unknown-mod_"@ + unique + ARCHIVE_EXTENSION@
}

/// The file name chosen for a download: from the URL if it gives one, else
/// from the `ETag` header if there is one, else the placeholder.
pub open spec fn chosen_name(url: Seq<char>, etag: Option<Seq<char>>, unique: Seq<char>) -> Seq<
    char,
> {
    match file_name_from_url(url) {
        Some(name) => name,
        None => match etag {
            Some(value) => file_name_from_etag(value),
            None => placeholder_name(unique),
        },
    }
}

/// The last segment of the path `path` of a URL.
pub fn last_path_segment(path: &str) -> (segment: Option<String>)
    ensures
        option_view(segment) == last_segment(path@),
{
    let chars = chars_of(path);
    if chars.len() == 0 || chars[0] != '/' {
        return None;
    }
    let start = last_segment_start(&chars, '/');
    if start == chars.len() {
        None
    } else {
        Some(string_from(&chars, start, chars.len()))
    }
}

/// The file name that the URL `url` gives.
pub fn extract_filename_from_url(url: &str) -> (name: Option<String>)
    ensures
        option_view(name) == file_name_from_url(url@),
{
    match parse_url_path(url) {
        Some(path) => last_path_segment(path.as_str()),
        None => None,
    }
}

/// The file name that the value of an `ETag` header gives.
pub fn extract_filename_from_etag(etag: Option<&str>) -> (name: Option<String>)
    ensures
        match etag {
            Some(value) => option_view(name) == Some(file_name_from_etag(value@)),
            None => name is None,
        },
{
    match etag {
        Some(value) => {
            let bare = trim_chars(&chars_of(value), '"');
            Some(join(bare.as_str(), ARCHIVE_EXTENSION))
        },
        None => None,
    }
}

/// The file name chosen among what the URL gives, what the `ETag` header
/// gives, and the placeholder made from `unique`.
pub fn choose_filename(from_url: Option<String>, from_etag: Option<String>, unique: &str) -> (name:
    String)
    ensures
        name@ == match from_url {
            Some(n) => n@,
            None => match from_etag {
                Some(e) => e@,
                None => placeholder_name(unique@),
            },
        },
{
    match from_url {
        Some(n) => n,
        None => match from_etag {
            Some(e) => e,
            None => {
                let head = join("unknown-mod_", unique);
                join(head.as_str(), ARCHIVE_EXTENSION)
            },
        },
    }
}

/// The file name for a download from the final URL `url` whose response
/// carried the `ETag` value `etag`. Where neither gives a name, the name is
/// a placeholder made from a fresh random identifier.
pub fn determine_filename(url: &str, etag: Option<&str>) -> (name: String)
    ensures
        match file_name_from_url(url@) {
            Some(n) => name@ == n,
            None => match etag {
                Some(value) => name@ == file_name_from_etag(value@),
                None => exists|unique: Seq<char>| name@ == placeholder_name(unique),
            },
        },
{
    let from_url = extract_filename_from_url(url);
    let from_etag = extract_filename_from_etag(etag);
    if from_url.is_none() && from_etag.is_none() {
        let unique = fresh_identifier();
        let name = choose_filename(from_url, from_etag, unique.as_str());
        assert(name@ == placeholder_name(unique@));
        name
    } else {
        choose_filename(from_url, from_etag, "")
    }
}

} // verus!
