//! The replacement of one archive, step by step.
//!
//! A download is a small machine. Its caller does the outside work (the
//! request, the file, the stream) and tells the machine what happened; the
//! machine answers with what to do next. A model of the managed directory
//! says what those answers do to the files in it.

use vstd::prelude::*;
use crate::constant::ARCHIVE_EXTENSION;
use crate::download::{
    choose_filename, chosen_name, extract_filename_from_etag, extract_filename_from_url,
    fresh_identifier, option_view, AvailableUpdateInfo,
};
use crate::error::Error;
use crate::fingerprint::{fingerprint_listed, fingerprint_of, has_fingerprint, ContentHasher};
use crate::text::{decimal, decimal_string, join};

verus! {

/// How far a download has come.
#[derive(Debug, Clone, Copy, PartialEq, Eq, Structural)]
pub enum DownloadPhase {
    /// The request has not been answered yet.
    Pending,
    /// The response's body is being written to the new file.
    Downloading,
    /// The body has ended; the new file is not yet judged.
    Verifying,
    /// The new file has an expected fingerprint and has replaced the old one.
    Committed,
    /// The new file has no expected fingerprint and is to be removed.
    RolledBack,
    /// The request, the stream or the file failed.
    Failed,
}

impl DownloadPhase {
    /// Whether the download has ended.
    pub open spec fn is_terminal(self) -> bool {
        self is Committed || self is RolledBack || self is Failed
    }

    /// The place of the phase in the order in which phases follow each other.
    pub open spec fn rank(self) -> int {
        match self {
            DownloadPhase::Pending => 0,
            DownloadPhase::Downloading => 1,
            DownloadPhase::Verifying => 2,
            _ => 3,
        }
    }
}

/// What the caller of a download tells it.
#[derive(Debug, Clone, PartialEq, Eq)]
pub enum DownloadEvent {
    /// The request was answered: with this status, from this final URL, with
    /// this `ETag` value and this content length. `unique` is an identifier
    /// that no other download has.
    Response {
        status: u16,
        url: String,
        etag: Option<String>,
        content_length: Option<u64>,
        unique: String,
    },
    /// The next chunk of the body arrived.
    Chunk(Vec<u8>),
    /// The body has ended.
    EndOfStream,
    /// The new file is written out in full.
    Stored,
    /// The request, the stream or the file failed.
    Failure(Error),
}

/// What a download tells its caller to do.
#[derive(Debug, Clone, PartialEq, Eq)]
pub enum DownloadAction {
    /// Nothing: the event does not concern the download in its phase.
    Ignore,
    /// Create the new file under this name in the managed directory.
    Create { file_name: String },
    /// Append the chunk to the new file and show this position as progress.
    Write { chunk: Vec<u8>, position: u64 },
    /// Write the new file out in full and show the transfer as complete.
    Finish,
    /// Keep the new file, remove this file if it exists, and report the
    /// update to this version as done.
    Commit { remove: Option<String>, version: String },
    /// Remove the new file and report that its fingerprint is none of the
    /// expected ones.
    Rollback { discard: String, computed: String, expected: Vec<String> },
    /// Report that the response had a status other than success.
    Reject { status: u16 },
    /// Report the failure.
    Fail { error: Error },
}

/// A download, as plain values.
pub struct DownloadView {
    pub name: Seq<char>,
    pub url: Seq<char>,
    pub expected: Seq<Seq<char>>,
    pub version: Seq<char>,
    pub superseded: Option<Seq<char>>,
    pub phase: DownloadPhase,
    pub file_name: Seq<char>,
    pub total_size: u64,
    pub position: u64,
    pub received: Seq<u8>,
}

/// An event, as plain values.
pub enum EventView {
    Response {
        status: u16,
        url: Seq<char>,
        etag: Option<Seq<char>>,
        content_length: Option<u64>,
        unique: Seq<char>,
    },
    Chunk(Seq<u8>),
    EndOfStream,
    Stored,
    Failure(Error),
}

/// An action, as plain values.
pub enum ActionView {
    Ignore,
    Create { file_name: Seq<char> },
    Write { chunk: Seq<u8>, position: u64 },
    Finish,
    Commit { remove: Option<Seq<char>>, version: Seq<char> },
    Rollback { discard: Seq<char>, computed: Seq<char>, expected: Seq<Seq<char>> },
    Reject { status: u16 },
    Fail { error: Error },
}

impl View for DownloadEvent {
    type V = EventView;

    open spec fn view(&self) -> EventView {
        match *self {
            DownloadEvent::Response { status, url, etag, content_length, unique } => {
                EventView::Response {
                    status,
                    url: url@,
                    etag: option_view(etag),
                    content_length,
                    unique: unique@,
                }
            },
            DownloadEvent::Chunk(chunk) => EventView::Chunk(chunk@),
            DownloadEvent::EndOfStream => EventView::EndOfStream,
            DownloadEvent::Stored => EventView::Stored,
            DownloadEvent::Failure(error) => EventView::Failure(error),
        }
    }
}

impl View for DownloadAction {
    type V = ActionView;

    open spec fn view(&self) -> ActionView {
        match *self {
            DownloadAction::Ignore => ActionView::Ignore,
            DownloadAction::Create { file_name } => ActionView::Create { file_name: file_name@ },
            DownloadAction::Write { chunk, position } => ActionView::Write {
                chunk: chunk@,
                position,
            },
            DownloadAction::Finish => ActionView::Finish,
            DownloadAction::Commit { remove, version } => ActionView::Commit {
                remove: option_view(remove),
                version: version@,
            },
            DownloadAction::Rollback { discard, computed, expected } => ActionView::Rollback {
                discard: discard@,
                computed: computed@,
                expected: expected.deep_view(),
            },
            DownloadAction::Reject { status } => ActionView::Reject { status },
            DownloadAction::Fail { error } => ActionView::Fail { error },
        }
    }
}

/// Whether a response status means success.
pub open spec fn is_success(status: u16) -> bool {
    200 <= status < 300
}

/// The name of the new file for a download that chose the name `name`.
pub open spec fn destination_name(name: Seq<char>) -> Seq<char> {
    name + ARCHIVE_EXTENSION@
}

/// The position to show once `len` more bytes have arrived: the bytes so
/// far, but never more than the total.
pub open spec fn advanced(position: u64, len: nat, total_size: u64) -> u64 {
    if position + len <= total_size {
        (position + len) as u64
    } else {
        total_size
    }
}

/// What is reported of a response whose status is not a success.
pub open spec fn rejection_message(status: u16) -> Seq<char> {
    "response status "@ + decimal(status as nat)
}

/// The download at its start: nothing asked, nothing received.
pub open spec fn initial(
    name: Seq<char>,
    url: Seq<char>,
    expected: Seq<Seq<char>>,
    version: Seq<char>,
    superseded: Option<Seq<char>>,
) -> DownloadView {
    DownloadView {
        name,
        url,
        expected,
        version,
        superseded,
        phase: DownloadPhase::Pending,
        file_name: Seq::empty(),
        total_size: 0,
        position: 0,
        received: Seq::empty(),
    }
}

/// The download in the phase `Failed`, otherwise unchanged.
pub open spec fn failed(s: DownloadView) -> DownloadView {
    DownloadView { phase: DownloadPhase::Failed, ..s }
}

/// What a pending download does on an event.
pub open spec fn on_pending(s: DownloadView, e: EventView) -> (DownloadView, ActionView) {
    match e {
        EventView::Response { status, url, etag, content_length, unique } => {
            if is_success(status) {
                let file_name = destination_name(chosen_name(url, etag, unique));
                (
                    DownloadView {
                        phase: DownloadPhase::Downloading,
                        file_name,
                        total_size: match content_length {
                            Some(n) => n,
                            None => 0,
                        },
                        position: 0,
                        ..s
                    },
                    ActionView::Create { file_name },
                )
            } else {
                (failed(s), ActionView::Reject { status })
            }
        },
        EventView::Failure(error) => (failed(s), ActionView::Fail { error }),
        _ => (s, ActionView::Ignore),
    }
}

/// What a download that is receiving the body does on an event.
pub open spec fn on_downloading(s: DownloadView, e: EventView) -> (DownloadView, ActionView) {
    match e {
        EventView::Chunk(chunk) => {
            let position = advanced(s.position, chunk.len(), s.total_size);
            (
                DownloadView { position, received: s.received + chunk, ..s },
                ActionView::Write { chunk, position },
            )
        },
        EventView::EndOfStream => (
            DownloadView { phase: DownloadPhase::Verifying, ..s },
            ActionView::Finish,
        ),
        EventView::Failure(error) => (failed(s), ActionView::Fail { error }),
        _ => (s, ActionView::Ignore),
    }
}

/// What a download whose body has ended does on an event.
pub open spec fn on_verifying(s: DownloadView, e: EventView) -> (DownloadView, ActionView) {
    match e {
        EventView::Stored => {
            let computed = fingerprint_of(s.received);
            if fingerprint_listed(s.expected, computed) {
                (
                    DownloadView { phase: DownloadPhase::Committed, ..s },
                    ActionView::Commit { remove: s.superseded, version: s.version },
                )
            } else {
                (
                    DownloadView { phase: DownloadPhase::RolledBack, ..s },
                    ActionView::Rollback { discard: s.file_name, computed, expected: s.expected },
                )
            }
        },
        EventView::Failure(error) => (failed(s), ActionView::Fail { error }),
        _ => (s, ActionView::Ignore),
    }
}

/// The download after an event, and what its caller is to do.
pub open spec fn transition(s: DownloadView, e: EventView) -> (DownloadView, ActionView) {
    match s.phase {
        DownloadPhase::Pending => on_pending(s, e),
        DownloadPhase::Downloading => on_downloading(s, e),
        DownloadPhase::Verifying => on_verifying(s, e),
        _ => (s, ActionView::Ignore),
    }
}

impl DownloadEvent {
    /// The event that the request was answered with the status `status`
    /// from the final URL `url`, with the `ETag` value `etag` and the
    /// content length `content_length`. The event gets a fresh random
    /// identifier.
    pub fn response(
        status: u16,
        url: String,
        etag: Option<String>,
        content_length: Option<u64>,
    ) -> (event: DownloadEvent)
        ensures
            (event matches DownloadEvent::Response {
                status: s,
                url: u,
                etag: e,
                content_length: c,
                ..
            } && s == status && u == url && e == etag && c == content_length),
    {
        DownloadEvent::Response { status, url, etag, content_length, unique: fresh_identifier() }
    }
}

impl DownloadAction {
    /// What the action reports of the download, if it ends the download:
    /// the version that a committed download installed, or why the download
    /// failed.
    pub fn outcome(self) -> (outcome: Option<Result<String, Error>>)
        ensures
            match self@ {
                ActionView::Commit { version, .. } => outcome matches Some(Ok(v)) && v@ == version,
                ActionView::Rollback { discard, computed, expected } => {
                    &&& outcome matches Some(
                        Err(Error::InvalidChecksum { file, computed: c, expected: e }),
                    )
                    &&& file@ == discard
                    &&& c@ == computed
                    &&& e.deep_view() == expected
                },
                ActionView::Reject { status } => outcome matches Some(Err(Error::Request(message)))
                    && message@ == rejection_message(status),
                ActionView::Fail { error } => outcome == Some(Err::<String, Error>(error)),
                _ => outcome is None,
            },
    {
        match self {
            DownloadAction::Commit { remove: _, version } => Some(Ok(version)),
            DownloadAction::Rollback { discard, computed, expected } => Some(
                Err(Error::InvalidChecksum { file: discard, computed, expected }),
            ),
            DownloadAction::Reject { status } => {
                let number = decimal_string(status as u64);
                Some(Err(Error::Request(join("response status ", number.as_str()))))
            },
            DownloadAction::Fail { error } => Some(Err(error)),
            _ => None,
        }
    }
}

/// One download: the task it serves and what it has received so far.
pub struct Download {
    name: String,
    url: String,
    expected: Vec<String>,
    version: String,
    superseded: Option<String>,
    phase: DownloadPhase,
    file_name: String,
    total_size: u64,
    position: u64,
    hasher: ContentHasher,
}

impl View for Download {
    type V = DownloadView;

    closed spec fn view(&self) -> DownloadView {
        DownloadView {
            name: self.name@,
            url: self.url@,
            expected: self.expected.deep_view(),
            version: self.version@,
            superseded: option_view(self.superseded),
            phase: self.phase,
            file_name: self.file_name@,
            total_size: self.total_size,
            position: self.position,
            received: self.hasher@,
        }
    }
}

impl Download {
    /// Whether the download is one that `new` made and `step` moved.
    pub closed spec fn wf(&self) -> bool {
        self.hasher.wf() && self.position <= self.total_size
    }

    /// A pending download of the mod `name` from `url`. The new file must
    /// have one of the fingerprints `expected`; on success it replaces the
    /// file `superseded`, if there is one, and the mod is at `version`.
    pub fn new(
        name: String,
        url: String,
        expected: Vec<String>,
        version: String,
        superseded: Option<String>,
    ) -> (download: Download)
        ensures
            download.wf(),
            download@ == initial(
                name@,
                url@,
                expected.deep_view(),
                version@,
                option_view(superseded),
            ),
    {
        Download {
            name,
            url,
            expected,
            version,
            superseded,
            phase: DownloadPhase::Pending,
            file_name: String::new(),
            total_size: 0,
            position: 0,
            hasher: ContentHasher::new(),
        }
    }

    /// A pending download that installs the update `update`.
    pub fn for_update(update: AvailableUpdateInfo) -> (download: Download)
        ensures
            download.wf(),
            download@ == initial(
                update@.name,
                update@.url,
                update@.hash,
                update@.available_version,
                Some(update@.existing_path),
            ),
    {
        Download::new(
            update.name,
            update.url,
            update.hash,
            update.available_version,
            Some(update.existing_path),
        )
    }

    /// The phase that the download is in.
    pub fn phase(&self) -> (phase: DownloadPhase)
        ensures
            phase == self@.phase,
    {
        self.phase
    }

    /// The address to request.
    pub fn url(&self) -> (url: &str)
        ensures
            url@ == self@.url,
    {
        self.url.as_str()
    }

    /// The name of the mod.
    pub fn name(&self) -> (name: &str)
        ensures
            name@ == self@.name,
    {
        self.name.as_str()
    }

    /// The name of the new file in the managed directory; empty while the
    /// download is pending.
    pub fn file_name(&self) -> (file_name: &str)
        ensures
            file_name@ == self@.file_name,
    {
        self.file_name.as_str()
    }

    /// The total to show progress against; 0 where the response gave none.
    pub fn total_size(&self) -> (total_size: u64)
        ensures
            total_size == self@.total_size,
    {
        self.total_size
    }

    /// The fingerprint of the bytes received so far.
    pub fn fingerprint(&self) -> (computed: String)
        requires
            self.wf(),
        ensures
            computed@ == fingerprint_of(self@.received),
    {
        self.hasher.fingerprint()
    }

    fn fail(&mut self)
        requires
            old(self).wf(),
        ensures
            final(self).wf(),
            final(self)@ == failed(old(self)@),
    {
        self.phase = DownloadPhase::Failed;
    }

    fn step_pending(&mut self, event: DownloadEvent) -> (action: DownloadAction)
        requires
            old(self).wf(),
            old(self)@.phase is Pending,
        ensures
            final(self).wf(),
            (final(self)@, action@) == on_pending(old(self)@, event@),
    {
        match event {
            DownloadEvent::Response { status, url, etag, content_length, unique } => {
                if 200 <= status && status < 300 {
                    let from_url = extract_filename_from_url(url.as_str());
                    let from_etag = extract_filename_from_etag(
                        match &etag {
                            Some(value) => Some(value.as_str()),
                            None => None,
                        },
                    );
                    let name = choose_filename(from_url, from_etag, unique.as_str());
                    let file_name = join(name.as_str(), ARCHIVE_EXTENSION);
                    self.file_name = file_name.clone();
                    self.total_size = match content_length {
                        Some(n) => n,
                        None => 0,
                    };
                    self.position = 0;
                    self.phase = DownloadPhase::Downloading;
                    DownloadAction::Create { file_name }
                } else {
                    self.fail();
                    DownloadAction::Reject { status }
                }
            },
            DownloadEvent::Failure(error) => {
                self.fail();
                DownloadAction::Fail { error }
            },
            _ => DownloadAction::Ignore,
        }
    }

    fn step_downloading(&mut self, event: DownloadEvent) -> (action: DownloadAction)
        requires
            old(self).wf(),
            old(self)@.phase is Downloading,
        ensures
            final(self).wf(),
            (final(self)@, action@) == on_downloading(old(self)@, event@),
    {
        match event {
            DownloadEvent::Chunk(chunk) => {
                self.hasher.update(chunk.as_slice());
                let room: u64 = self.total_size - self.position;
                let position: u64 = if chunk.len() as u64 <= room {
                    self.position + chunk.len() as u64
                } else {
                    self.total_size
                };
                self.position = position;
                DownloadAction::Write { chunk, position }
            },
            DownloadEvent::EndOfStream => {
                self.phase = DownloadPhase::Verifying;
                DownloadAction::Finish
            },
            DownloadEvent::Failure(error) => {
                self.fail();
                DownloadAction::Fail { error }
            },
            _ => DownloadAction::Ignore,
        }
    }

    fn step_verifying(&mut self, event: DownloadEvent) -> (action: DownloadAction)
        requires
            old(self).wf(),
            old(self)@.phase is Verifying,
        ensures
            final(self).wf(),
            (final(self)@, action@) == on_verifying(old(self)@, event@),
    {
        match event {
            DownloadEvent::Stored => {
                let computed = self.hasher.fingerprint();
                if has_fingerprint(&self.expected, computed.as_str()) {
                    self.phase = DownloadPhase::Committed;
                    DownloadAction::Commit {
                        remove: self.superseded.clone(),
                        version: self.version.clone(),
                    }
                } else {
                    self.phase = DownloadPhase::RolledBack;
                    let expected = self.expected.clone();
                    proof {
                        assert(expected.deep_view() =~= self.expected.deep_view());
                    }
                    DownloadAction::Rollback { discard: self.file_name.clone(), computed, expected }
                }
            },
            DownloadEvent::Failure(error) => {
                self.fail();
                DownloadAction::Fail { error }
            },
            _ => DownloadAction::Ignore,
        }
    }

    /// Takes one event and says what to do next.
    pub fn step(&mut self, event: DownloadEvent) -> (action: DownloadAction)
        requires
            old(self).wf(),
        ensures
            final(self).wf(),
            (final(self)@, action@) == transition(old(self)@, event@),
    {
        match self.phase {
            DownloadPhase::Pending => self.step_pending(event),
            DownloadPhase::Downloading => self.step_downloading(event),
            DownloadPhase::Verifying => self.step_verifying(event),
            _ => DownloadAction::Ignore,
        }
    }
}

/// The files of the managed directory: what each file name holds.
pub type Files = Map<Seq<char>, Seq<u8>>;

/// The managed directory once the caller has done `action` for a download
/// whose new file is `new_file`.
pub open spec fn effect(files: Files, new_file: Seq<char>, action: ActionView) -> Files {
    match action {
        ActionView::Create { file_name } => files.insert(file_name, Seq::empty()),
        ActionView::Write { chunk, .. } => files.insert(new_file, files[new_file] + chunk),
        ActionView::Commit { remove: Some(old_file), .. } => files.remove(old_file),
        ActionView::Rollback { discard, .. } => files.remove(discard),
        _ => files,
    }
}

/// The download and the managed directory after the events `events`, each
/// answered by the caller as the download told it.
pub open spec fn run(s: DownloadView, files: Files, events: Seq<EventView>) -> (
    DownloadView,
    Files,
)
    decreases events.len(),
{
    if events.len() == 0 {
        (s, files)
    } else {
        let (before, files_before) = run(s, files, events.drop_last());
        let (after, action) = transition(before, events.last());
        (after, effect(files_before, after.file_name, action))
    }
}

/// Whether two downloads serve the same task.
pub open spec fn same_task(a: DownloadView, b: DownloadView) -> bool {
    a.name == b.name && a.url == b.url && a.expected == b.expected && a.version == b.version
        && a.superseded == b.superseded
}

/// The managed directory `files` with the new file of `s` holding what `s`
/// has received.
pub open spec fn with_new_file(files: Files, s: DownloadView) -> Files {
    files.insert(s.file_name, s.received)
}

/// `files` without the file that `s` replaces.
pub open spec fn without_superseded(files: Files, s: DownloadView) -> Files {
    match s.superseded {
        Some(old_file) => files.remove(old_file),
        None => files,
    }
}

/// What holds of a download `s` and the managed directory `files` that a
/// run has led to from the pending download `start` and the directory
/// `before`.
pub open spec fn reached(start: DownloadView, before: Files, s: DownloadView, files: Files) -> bool {
    &&& same_task(start, s)
    &&& s.position <= s.total_size
    &&& match s.phase {
        DownloadPhase::Pending => files == before && s.received == Seq::<u8>::empty(),
        DownloadPhase::Downloading | DownloadPhase::Verifying => files == with_new_file(before, s),
        DownloadPhase::Committed => fingerprint_listed(s.expected, fingerprint_of(s.received))
            && files == without_superseded(with_new_file(before, s), s),
        DownloadPhase::RolledBack => !fingerprint_listed(s.expected, fingerprint_of(s.received))
            && files == before.remove(s.file_name),
        DownloadPhase::Failed => files == before || files == with_new_file(before, s),
    }
}

/// A download that has ended stays as it is, whatever it is told, and asks
/// for nothing more.
pub proof fn lemma_terminal_phases_absorb(s: DownloadView, e: EventView)
    requires
        s.phase.is_terminal(),
    ensures
        transition(s, e) == (s, ActionView::Ignore),
{
}

/// No download goes back to an earlier phase, and none leaves its task.
pub proof fn lemma_phases_only_advance(s: DownloadView, e: EventView)
    ensures
        transition(s, e).0.phase.rank() >= s.phase.rank(),
        same_task(s, transition(s, e).0),
{
}

/// One step keeps what `reached` says.
proof fn lemma_step_keeps_reached(
    start: DownloadView,
    before: Files,
    s: DownloadView,
    files: Files,
    e: EventView,
)
    requires
        reached(start, before, s, files),
    ensures
        reached(
            start,
            before,
            transition(s, e).0,
            effect(files, transition(s, e).0.file_name, transition(s, e).1),
        ),
{
    let (after, action) = transition(s, e);
    let files_after = effect(files, after.file_name, action);
    match s.phase {
        DownloadPhase::Pending => {
            if after.phase is Downloading {
                assert(files_after =~= with_new_file(before, after));
            }
        },
        DownloadPhase::Downloading => {
            if e is Chunk {
                assert(files_after =~= with_new_file(before, after));
            }
        },
        DownloadPhase::Verifying => {
            if after.phase is RolledBack {
                assert(files_after =~= before.remove(after.file_name));
            }
            if after.phase is Committed {
                assert(files_after =~= without_superseded(with_new_file(before, after), after));
            }
        },
        _ => {},
    }
}

/// Every run from a pending download that has received nothing leads to a
/// download and a managed directory of which `reached` holds.
pub proof fn lemma_run_reaches(start: DownloadView, before: Files, events: Seq<EventView>)
    requires
        start.phase is Pending,
        start.received == Seq::<u8>::empty(),
        start.position <= start.total_size,
    ensures
        reached(start, before, run(start, before, events).0, run(start, before, events).1),
    decreases events.len(),
{
    if events.len() > 0 {
        lemma_run_reaches(start, before, events.drop_last());
        let (s, files) = run(start, before, events.drop_last());
        lemma_step_keeps_reached(start, before, s, files, events.last());
    }
}

/// If a download ends rolled back, its new file is not in the managed
/// directory, the fingerprint of what it received is none of the expected
/// ones, and the file it was to replace is as it was before, provided that
/// the new file did not get that file's name.
pub proof fn lemma_rollback_leaves_superseded(
    start: DownloadView,
    before: Files,
    events: Seq<EventView>,
)
    requires
        start.phase is Pending,
        start.received == Seq::<u8>::empty(),
        start.position <= start.total_size,
        run(start, before, events).0.phase is RolledBack,
    ensures
        ({
            let (end, files) = run(start, before, events);
            &&& !files.dom().contains(end.file_name)
            &&& !fingerprint_listed(start.expected, fingerprint_of(end.received))
            &&& start.superseded matches Some(old_file) ==> old_file != end.file_name ==> {
                &&& files.dom().contains(old_file) == before.dom().contains(old_file)
                &&& before.dom().contains(old_file) ==> files[old_file] == before[old_file]
            }
        }),
{
    lemma_run_reaches(start, before, events);
}

/// If a download ends committed, the file it was to replace is not in the
/// managed directory, the fingerprint of what it received is one of the
/// expected ones, and the new file holds what was received, provided that
/// the new file did not get the replaced file's name.
pub proof fn lemma_commit_replaces_superseded(
    start: DownloadView,
    before: Files,
    events: Seq<EventView>,
)
    requires
        start.phase is Pending,
        start.received == Seq::<u8>::empty(),
        start.position <= start.total_size,
        run(start, before, events).0.phase is Committed,
    ensures
        ({
            let (end, files) = run(start, before, events);
            &&& start.superseded matches Some(old_file) ==> !files.dom().contains(old_file)
            &&& fingerprint_listed(start.expected, fingerprint_of(end.received))
            &&& start.superseded != Some(end.file_name) ==> files.dom().contains(end.file_name)
                && files[end.file_name] == end.received
        }),
{
    lemma_run_reaches(start, before, events);
}

/// Whatever a download is told, it leaves every file alone but its new file
/// and, once committed, the file it replaces.
pub proof fn lemma_run_touches_own_files_only(
    start: DownloadView,
    before: Files,
    events: Seq<EventView>,
    other: Seq<char>,
)
    requires
        start.phase is Pending,
        start.received == Seq::<u8>::empty(),
        start.position <= start.total_size,
        other != run(start, before, events).0.file_name,
        start.superseded != Some(other) || !(run(start, before, events).0.phase is Committed),
    ensures
        ({
            let (end, files) = run(start, before, events);
            &&& files.dom().contains(other) == before.dom().contains(other)
            &&& before.dom().contains(other) ==> files[other] == before[other]
        }),
{
    lemma_run_reaches(start, before, events);
}

} // verus!
