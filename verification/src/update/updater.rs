use vstd::prelude::*;
use crate::update::error::{Error, ErrorView};
use crate::update::info::{FileInfo, FileInfoView, Info, InfoView, files_view};
use crate::update::hash::{HashAlgorithm, algorithm_named, convert_hash_algorithm};
use crate::foreign::{
    crockford_decode, digest, digest_input_limit, join_url, joins_below, path_eq, path_join, path_starts_with,
    spec_crockford_decode, spec_digest, spec_join_url, spec_path_eq, spec_path_join,
    spec_path_starts_with, spec_to_lowercase,
};
use crate::text::{at_or_within, concat, copy_strings, spec_starts_with, starts_with, strings_view, text_at_or_within};

verus! {

/// Messages sent from the update task.
#[derive(Debug)]
pub enum Message {
    /// (id, total_size, path) Created a new download state
    AddState(u32, u64, Option<String>),
    /// (id, done) Updated download with done bytes downloaded
    UpdateState(u32, u64),
    /// Fetch of files to update completed
    FetchDone,
    /// Unnecessary files deletion completed
    CleanDone,
    /// Update completed
    DownloadDone,
    /// (err) Download interrupted with err
    Interrupted(Box<Error>),
}

pub enum MessageView {
    AddState(u32, u64, Option<Seq<char>>),
    UpdateState(u32, u64),
    FetchDone,
    CleanDone,
    DownloadDone,
    Interrupted(ErrorView),
}

impl View for Message {
    type V = MessageView;

    open spec fn view(&self) -> MessageView {
        match self {
            Message::AddState(id, size, name) => MessageView::AddState(*id, *size, match name {
                Some(n) => Some(n@),
                None => None,
            }),
            Message::UpdateState(id, done) => MessageView::UpdateState(*id, *done),
            Message::FetchDone => MessageView::FetchDone,
            Message::CleanDone => MessageView::CleanDone,
            Message::DownloadDone => MessageView::DownloadDone,
            Message::Interrupted(e) => MessageView::Interrupted((**e)@),
        }
    }
}


/// State of a download: bytes already downloaded out of a total.
pub struct DownloadState {
    done: u64,
    total: u64,
}

impl DownloadState {
    /// The progress never exceeds the total.
    #[verifier::type_invariant]
    spec fn inv(self) -> bool {
        self.done <= self.total
    }

    pub closed spec fn spec_done(self) -> u64 {
        self.done
    }

    pub closed spec fn spec_total(self) -> u64 {
        self.total
    }

    /// Creates a download state with nothing downloaded yet.
    pub fn new(total: u64) -> (s: Self)
        ensures
            s.spec_done() == 0,
            s.spec_total() == total,
    {
        DownloadState { done: 0, total }
    }

    /// Amount of bytes already downloaded.
    pub fn done(&self) -> (d: u64)
        ensures
            d == self.spec_done(),
            d <= self.spec_total(),
    {
        proof { use_type_invariant(self); }
        self.done
    }

    /// Total amount of bytes of the download.
    pub fn total(&self) -> (t: u64)
        ensures
            t == self.spec_total(),
    {
        self.total
    }

    /// Records `done` downloaded bytes, clamped to the total.
    pub fn set_done(&mut self, done: u64)
        ensures
            final(self).spec_total() == old(self).spec_total(),
            final(self).spec_done() == if done <= old(self).spec_total() { done } else { old(self).spec_total() },
    {
        let total = self.total;
        self.done = if done <= total { done } else { total };
    }
}

} // verus!

verus! {

/// The progress of one download, reported under an id.
pub struct DownloadStateHandle {
    pub id: u32,
    pub state: DownloadState,
}

impl DownloadStateHandle {
    /// A download of `total_size` bytes reported under `id`, and the message
    /// that announces it.
    pub fn new(id: u32, total_size: u64, name: Option<String>) -> (r: (Self, Message))
        ensures
            r.0.id == id,
            r.0.state.spec_done() == 0,
            r.0.state.spec_total() == total_size,
            r.1 == Message::AddState(id, total_size, name),
    {
        (DownloadStateHandle { id, state: DownloadState::new(total_size) }, Message::AddState(id, total_size, name))
    }

    /// Bytes downloaded so far (never more than the total).
    pub fn done(&self) -> (d: u64)
        ensures
            d == self.state.spec_done(),
    {
        self.state.done()
    }

    /// Records `done` downloaded bytes and returns the message that reports
    /// them; the message carries `done` itself, the state keeps it clamped to
    /// the total.
    pub fn set_done(&mut self, done: u64) -> (m: Message)
        ensures
            final(self).id == old(self).id,
            final(self).state.spec_total() == old(self).state.spec_total(),
            final(self).state.spec_done() == if done <= old(self).state.spec_total() {
                done
            } else {
                old(self).state.spec_total()
            },
            m == Message::UpdateState(old(self).id, done),
    {
        self.state.set_done(done);
        Message::UpdateState(self.id, done)
    }

    /// Records that a chunk of `len` more bytes arrived, and returns the
    /// message that reports the new amount.
    pub fn add_chunk(&mut self, len: u64) -> (m: Message)
        requires
            old(self).state.spec_done() + len <= u64::MAX,
        ensures
            final(self).id == old(self).id,
            final(self).state.spec_total() == old(self).state.spec_total(),
            m == Message::UpdateState(old(self).id, (old(self).state.spec_done() + len) as u64),
            final(self).state.spec_done() == if old(self).state.spec_done() + len <= old(self).state.spec_total() {
                (old(self).state.spec_done() + len) as u64
            } else {
                old(self).state.spec_total()
            },
    {
        let new = self.done() + len;
        self.set_done(new)
    }
}

// ------------------------------------------------------------------ the update

/// The text of the panic that ends an update whose interruption could not
/// be reported.
pub const UNREPORTED_INTERRUPTION: &'static str = "called `Result::unwrap()` on an `Err` value: SendError { .. }";

/// A download that the update registered: its id, size and local path.
pub struct PendingDownload {
    pub id: u32,
    pub size: u64,
    pub path: String,
}

/// Where the update stands, and what it waits for.
pub enum Phase {
    AwaitInfo,
    AwaitExists { file: usize, url: String, path: String },
    AwaitContent { file: usize, url: String, path: String, algorithm: HashAlgorithm },
    AwaitResponse { file: usize, path: String },
    AwaitAddSent { file: usize, path: String, size: u64 },
    AwaitFetchDoneSent,
    AwaitScan,
    AwaitRemoval { scanned: usize },
    AwaitCleanDoneSent,
    AwaitDownload { download: usize },
    AwaitDownloadDoneSent,
    AwaitInterruptSent,
    Finished,
}

pub enum PhaseView {
    AwaitInfo,
    AwaitExists { file: nat, url: Seq<char>, path: Seq<char> },
    AwaitContent { file: nat, url: Seq<char>, path: Seq<char>, algorithm: HashAlgorithm },
    AwaitResponse { file: nat, path: Seq<char> },
    AwaitAddSent { file: nat, path: Seq<char>, size: u64 },
    AwaitFetchDoneSent,
    AwaitScan,
    AwaitRemoval { scanned: nat },
    AwaitCleanDoneSent,
    AwaitDownload { download: nat },
    AwaitDownloadDoneSent,
    AwaitInterruptSent,
    Finished,
}

impl View for Phase {
    type V = PhaseView;

    open spec fn view(&self) -> PhaseView {
        match self {
            Phase::AwaitInfo => PhaseView::AwaitInfo,
            Phase::AwaitExists { file, url, path } => PhaseView::AwaitExists { file: *file as nat, url: url@, path: path@ },
            Phase::AwaitContent { file, url, path, algorithm } => PhaseView::AwaitContent {
                file: *file as nat,
                url: url@,
                path: path@,
                algorithm: *algorithm,
            },
            Phase::AwaitResponse { file, path } => PhaseView::AwaitResponse { file: *file as nat, path: path@ },
            Phase::AwaitAddSent { file, path, size } => PhaseView::AwaitAddSent { file: *file as nat, path: path@, size: *size },
            Phase::AwaitFetchDoneSent => PhaseView::AwaitFetchDoneSent,
            Phase::AwaitScan => PhaseView::AwaitScan,
            Phase::AwaitRemoval { scanned } => PhaseView::AwaitRemoval { scanned: *scanned as nat },
            Phase::AwaitCleanDoneSent => PhaseView::AwaitCleanDoneSent,
            Phase::AwaitDownload { download } => PhaseView::AwaitDownload { download: *download as nat },
            Phase::AwaitDownloadDoneSent => PhaseView::AwaitDownloadDoneSent,
            Phase::AwaitInterruptSent => PhaseView::AwaitInterruptSent,
            Phase::Finished => PhaseView::Finished,
        }
    }
}

/// Outside work that the update asks its driver to do.
pub enum UpdateAction {
    /// Fetch the description of the files from the update server.
    FetchInfo { url: String },
    /// Tell whether a local file exists.
    CheckExists { path: String },
    /// Read a local file.
    ReadFile { path: String },
    /// Request a file from the server (its response is kept for a later
    /// download).
    Request { url: String },
    /// Send a progress message.
    Send(Message),
    /// List the files under a directory, leaving out the ignored ones.
    Scan { root: String, ignored: Vec<String> },
    /// Remove a local file.
    Remove { path: String },
    /// Download the next kept response into its file, reporting progress
    /// under its id.
    Download { id: u32, size: u64, path: String },
    /// Stop the program with this message.
    Panic { message: String },
    /// The update is over.
    Finish,
}

pub enum ActionView {
    FetchInfo(Seq<char>),
    CheckExists(Seq<char>),
    ReadFile(Seq<char>),
    Request(Seq<char>),
    Send(MessageView),
    Scan(Seq<char>, Seq<Seq<char>>),
    Remove(Seq<char>),
    Download(u32, u64, Seq<char>),
    Panic(Seq<char>),
    Finish,
}

impl View for UpdateAction {
    type V = ActionView;

    open spec fn view(&self) -> ActionView {
        match self {
            UpdateAction::FetchInfo { url } => ActionView::FetchInfo(url@),
            UpdateAction::CheckExists { path } => ActionView::CheckExists(path@),
            UpdateAction::ReadFile { path } => ActionView::ReadFile(path@),
            UpdateAction::Request { url } => ActionView::Request(url@),
            UpdateAction::Send(m) => ActionView::Send(m@),
            UpdateAction::Scan { root, ignored } => ActionView::Scan(root@, strings_view(ignored@)),
            UpdateAction::Remove { path } => ActionView::Remove(path@),
            UpdateAction::Download { id, size, path } => ActionView::Download(*id, *size, path@),
            UpdateAction::Panic { message } => ActionView::Panic(message@),
            UpdateAction::Finish => ActionView::Finish,
        }
    }
}

/// What came of the outside work that the update asked for.
pub enum UpdateEvent {
    Fetched(Info),
    Exists(bool),
    Content(Vec<u8>),
    Responded { content_length: Option<u64> },
    Sent,
    Scanned(Vec<String>),
    Removed,
    Downloaded,
    Failed(Error),
}

pub enum EventView {
    Fetched(InfoView),
    Exists(bool),
    Content(Seq<u8>),
    Responded(Option<u64>),
    Sent,
    Scanned(Seq<Seq<char>>),
    Removed,
    Downloaded,
    Failed(ErrorView),
}

impl View for UpdateEvent {
    type V = EventView;

    open spec fn view(&self) -> EventView {
        match self {
            UpdateEvent::Fetched(info) => EventView::Fetched(info@),
            UpdateEvent::Exists(b) => EventView::Exists(*b),
            UpdateEvent::Content(bytes) => EventView::Content(bytes@),
            UpdateEvent::Responded { content_length } => EventView::Responded(*content_length),
            UpdateEvent::Sent => EventView::Sent,
            UpdateEvent::Scanned(files) => EventView::Scanned(strings_view(files@)),
            UpdateEvent::Removed => EventView::Removed,
            UpdateEvent::Downloaded => EventView::Downloaded,
            UpdateEvent::Failed(e) => EventView::Failed(e@),
        }
    }
}

pub struct UpdaterView {
    pub fetch_url: Seq<char>,
    pub dir: Seq<char>,
    pub phase: PhaseView,
    pub info: InfoView,
    pub next_id: u32,
    pub downloads: Seq<(u32, u64, Seq<char>)>,
    pub scanned: Seq<Seq<char>>,
}

pub open spec fn downloads_view(d: Seq<PendingDownload>) -> Seq<(u32, u64, Seq<char>)> {
    d.map_values(|p: PendingDownload| (p.id, p.size, p.path@))
}

/// Whether a file of the server lies under one of the ignored paths, read
/// as a text prefix.
pub open spec fn file_ignored(path: Seq<char>, ignored: Seq<Seq<char>>) -> bool {
    exists|k: int| 0 <= k < ignored.len() && spec_starts_with(path, ignored[k])
}

/// The first file at or after `i` that is not ignored (or the number of
/// files).
pub open spec fn next_file(info: InfoView, i: nat) -> nat
    decreases info.files.len() - i,
{
    if i >= info.files.len() {
        info.files.len()
    } else if file_ignored(info.files[i as int].path, info.ignored_files) {
        next_file(info, i + 1)
    } else {
        i
    }
}

/// Whether a local file is one of the server's files (compared as paths).
pub open spec fn is_required(dir: Seq<char>, info: InfoView, file: Seq<char>) -> bool {
    exists|k: int| 0 <= k < info.files.len() && spec_path_eq(file, spec_path_join(dir, info.files[k].path))
}

/// Whether a local file lies under one of the ignored paths (compared as paths).
pub open spec fn is_kept(dir: Seq<char>, info: InfoView, file: Seq<char>) -> bool {
    exists|k: int| 0 <= k < info.ignored_files.len() && spec_path_starts_with(file, spec_path_join(dir, info.ignored_files[k]))
}

/// The first scanned file at or after `j` that is to be removed (or the
/// number of scanned files).
pub open spec fn next_removal(dir: Seq<char>, info: InfoView, scanned: Seq<Seq<char>>, j: nat) -> nat
    decreases scanned.len() - j,
{
    if j >= scanned.len() {
        scanned.len()
    } else if !is_required(dir, info, scanned[j as int]) && !is_kept(dir, info, scanned[j as int]) {
        j
    } else {
        next_removal(dir, info, scanned, j + 1)
    }
}

/// Stops the update with an error: the interruption is reported.
pub open spec fn interrupt(s: UpdaterView, e: ErrorView) -> (UpdaterView, ActionView) {
    (UpdaterView { phase: PhaseView::AwaitInterruptSent, ..s }, ActionView::Send(MessageView::Interrupted(e)))
}

/// Goes on with the files of the server from the `i`-th: the next file that
/// is not ignored gets its URL and local path and is looked up on disk;
/// when none is left, the end of the fetch is reported.
pub open spec fn check_files_from(s: UpdaterView, i: nat) -> (UpdaterView, ActionView) {
    let j = next_file(s.info, i);
    if j >= s.info.files.len() {
        (UpdaterView { phase: PhaseView::AwaitFetchDoneSent, ..s }, ActionView::Send(MessageView::FetchDone))
    } else {
        let f = s.info.files[j as int];
        match spec_join_url(s.info.base_url, f.path) {
            None => interrupt(s, ErrorView::Url),
            Some(url) => {
                let path = spec_path_join(s.dir, f.path);
                (UpdaterView { phase: PhaseView::AwaitExists { file: j, url, path }, ..s }, ActionView::CheckExists(path))
            },
        }
    }
}

/// Goes on with the scanned files from the `j`-th: the next one that the
/// server does not list and that lies under no ignored path is removed; when
/// none is left, the end of the cleaning is reported.
pub open spec fn clean_from(s: UpdaterView, j: nat) -> (UpdaterView, ActionView) {
    let k = next_removal(s.dir, s.info, s.scanned, j);
    if k >= s.scanned.len() {
        (UpdaterView { phase: PhaseView::AwaitCleanDoneSent, ..s }, ActionView::Send(MessageView::CleanDone))
    } else {
        (UpdaterView { phase: PhaseView::AwaitRemoval { scanned: k }, ..s }, ActionView::Remove(s.scanned[k as int]))
    }
}

/// Goes on with the registered downloads from the `k`-th; when none is
/// left, the end of the downloads is reported.
pub open spec fn download_from(s: UpdaterView, k: nat) -> (UpdaterView, ActionView) {
    if k < s.downloads.len() {
        let d = s.downloads[k as int];
        (UpdaterView { phase: PhaseView::AwaitDownload { download: k }, ..s }, ActionView::Download(d.0, d.1, d.2))
    } else {
        (UpdaterView { phase: PhaseView::AwaitDownloadDoneSent, ..s }, ActionView::Send(MessageView::DownloadDone))
    }
}

/// Whether the update waits for this kind of event.
pub open spec fn expects(s: UpdaterView, e: EventView) -> bool {
    s.phase is Finished || match e {
        EventView::Failed(_) => !(s.phase is Finished),
        EventView::Fetched(_) => s.phase is AwaitInfo,
        EventView::Exists(_) => s.phase is AwaitExists,
        EventView::Content(_) => s.phase is AwaitContent,
        EventView::Responded(_) => s.phase is AwaitResponse,
        EventView::Sent => s.phase is AwaitAddSent || s.phase is AwaitFetchDoneSent || s.phase is AwaitCleanDoneSent
            || s.phase is AwaitDownloadDoneSent || s.phase is AwaitInterruptSent,
        EventView::Scanned(_) => s.phase is AwaitScan,
        EventView::Removed => s.phase is AwaitRemoval,
        EventView::Downloaded => s.phase is AwaitDownload,
    }
}

/// Whether the update can take in an event without running out of ids
/// (they are `u32`) or handing `ring` more bytes than it digests.
pub open spec fn within_limits(s: UpdaterView, e: EventView) -> bool {
    &&& (s.phase is AwaitAddSent && e is Sent) ==> s.next_id < u32::MAX
    &&& e matches EventView::Content(bytes) ==> bytes.len() < digest_input_limit()
    &&& e matches EventView::Scanned(files) ==> all_in_dir(files, s.dir)
}

/// Every path of `files` is, as text, the directory `dir` or a path inside it.
pub open spec fn all_in_dir(files: Seq<Seq<char>>, dir: Seq<char>) -> bool {
    forall|i: int| 0 <= i < files.len() ==> text_at_or_within(#[trigger] files[i], dir)
}

/// How the update moves on when an event comes: the new state, and the
/// outside work to do next.
pub open spec fn next(s: UpdaterView, e: EventView) -> (UpdaterView, ActionView) {
    match s.phase {
        PhaseView::Finished => (s, ActionView::Finish),
        PhaseView::AwaitInterruptSent => match e {
            EventView::Failed(_) => (
                UpdaterView { phase: PhaseView::Finished, ..s },
                ActionView::Panic(UNREPORTED_INTERRUPTION@),
            ),
            _ => (UpdaterView { phase: PhaseView::Finished, ..s }, ActionView::Finish),
        },
        _ => match e {
            EventView::Failed(err) => interrupt(s, err),
            _ => match s.phase {
                PhaseView::AwaitInfo => match e {
                    EventView::Fetched(info) => check_files_from(
                        UpdaterView { info, next_id: 0, downloads: Seq::empty(), scanned: Seq::empty(), ..s },
                        0,
                    ),
                    _ => (s, ActionView::Finish),
                },
                PhaseView::AwaitExists { file, url, path } => match e {
                    EventView::Exists(false) => (
                        UpdaterView { phase: PhaseView::AwaitResponse { file, path }, ..s },
                        ActionView::Request(url),
                    ),
                    _ => if s.info.files[file as int].placeholder {
                        check_files_from(s, file + 1)
                    } else {
                        match algorithm_named(spec_to_lowercase(s.info.algorithm)) {
                            None => (
                                UpdaterView { phase: PhaseView::Finished, ..s },
                                ActionView::Panic("Unknown algorithm: "@ + s.info.algorithm),
                            ),
                            Some(algorithm) => (
                                UpdaterView { phase: PhaseView::AwaitContent { file, url, path, algorithm }, ..s },
                                ActionView::ReadFile(path),
                            ),
                        }
                    },
                },
                PhaseView::AwaitContent { file, url, path, algorithm } => match e {
                    EventView::Content(bytes) => match spec_crockford_decode(s.info.files[file as int].hash) {
                        None => interrupt(s, ErrorView::Other("Could not parse hash"@)),
                        Some(remote) => if spec_digest(algorithm, bytes) != remote {
                            (UpdaterView { phase: PhaseView::AwaitResponse { file, path }, ..s }, ActionView::Request(url))
                        } else {
                            check_files_from(s, file + 1)
                        },
                    },
                    _ => (s, ActionView::Finish),
                },
                PhaseView::AwaitResponse { file, path } => match e {
                    EventView::Responded(Some(size)) => (
                        UpdaterView { phase: PhaseView::AwaitAddSent { file, path, size }, ..s },
                        ActionView::Send(MessageView::AddState(s.next_id, size, Some(path))),
                    ),
                    _ => interrupt(s, ErrorView::Other("Failed to get content length"@)),
                },
                PhaseView::AwaitAddSent { file, path, size } => check_files_from(
                    UpdaterView {
                        downloads: s.downloads.push((s.next_id, size, path)),
                        next_id: (s.next_id + 1) as u32,
                        ..s
                    },
                    file + 1,
                ),
                PhaseView::AwaitFetchDoneSent => (
                    UpdaterView { phase: PhaseView::AwaitScan, ..s },
                    ActionView::Scan(s.dir, s.info.ignored_files),
                ),
                PhaseView::AwaitScan => match e {
                    EventView::Scanned(files) => clean_from(UpdaterView { scanned: files, ..s }, 0),
                    _ => (s, ActionView::Finish),
                },
                PhaseView::AwaitRemoval { scanned } => clean_from(s, scanned + 1),
                PhaseView::AwaitCleanDoneSent => download_from(s, 0),
                PhaseView::AwaitDownload { download } => download_from(s, download + 1),
                _ => (UpdaterView { phase: PhaseView::Finished, ..s }, ActionView::Finish),
            },
        },
    }
}

proof fn lemma_next_removal_removable(dir: Seq<char>, info: InfoView, scanned: Seq<Seq<char>>, j: nat)
    ensures
        next_removal(dir, info, scanned, j) < scanned.len() ==> {
            let k = next_removal(dir, info, scanned, j);
            !is_required(dir, info, scanned[k as int]) && !is_kept(dir, info, scanned[k as int])
        },
    decreases scanned.len() - j,
{
    if j < scanned.len() {
        lemma_next_removal_removable(dir, info, scanned, j + 1);
    }
}

/// Cleaning passes over a scanned file only where the update server lists
/// it or it lies under an ignored path: every file between where the
/// cleaning goes on and the next file it removes is one of those.
pub proof fn lemma_cleaning_passes_over_only_kept_files(dir: Seq<char>, info: InfoView, scanned: Seq<Seq<char>>, j: nat)
    requires
        j <= scanned.len(),
    ensures
        forall|k: int| j <= k < next_removal(dir, info, scanned, j) ==>
            is_required(dir, info, #[trigger] scanned[k]) || is_kept(dir, info, scanned[k]),
    decreases scanned.len() - j,
{
    if j < scanned.len() {
        lemma_cleaning_passes_over_only_kept_files(dir, info, scanned, j + 1);
    }
}

/// Whether `p` is the game directory joined with the server's path of its
/// `k`-th file, and, where that path joins below the directory, starts with
/// the directory (as `Path::starts_with` sees it).
pub open spec fn joined_in_dir(dir: Seq<char>, info: InfoView, k: int, p: Seq<char>) -> bool {
    &&& 0 <= k < info.files.len()
    &&& p == spec_path_join(dir, info.files[k].path)
    &&& joins_below(dir, info.files[k].path) ==> spec_path_starts_with(p, dir)
}

/// Whether `p` is the game directory joined with one of the server's paths
/// (see [`joined_in_dir`]).
pub open spec fn in_game_dir(dir: Seq<char>, info: InfoView, p: Seq<char>) -> bool {
    exists|k: int| #[trigger] joined_in_dir(dir, info, k, p)
}

/// Every path the update holds to look up, read or download to is the game
/// directory joined with one of the server's paths.
pub open spec fn paths_in_game_dir(s: UpdaterView) -> bool {
    &&& forall|i: int| 0 <= i < s.downloads.len() ==> in_game_dir(s.dir, s.info, #[trigger] s.downloads[i].2)
    &&& match s.phase {
        PhaseView::AwaitExists { file, path, .. } => joined_in_dir(s.dir, s.info, file as int, path),
        PhaseView::AwaitContent { file, path, .. } => joined_in_dir(s.dir, s.info, file as int, path),
        PhaseView::AwaitResponse { file, path } => joined_in_dir(s.dir, s.info, file as int, path),
        PhaseView::AwaitAddSent { file, path, .. } => joined_in_dir(s.dir, s.info, file as int, path),
        _ => true,
    }
}

/// The registered downloads go to paths in the game directory.
pub open spec fn downloads_in_game_dir(s: UpdaterView) -> bool {
    forall|i: int| 0 <= i < s.downloads.len() ==> in_game_dir(s.dir, s.info, #[trigger] s.downloads[i].2)
}

/// A path that the update looks up on disk or downloads to is the game
/// directory joined with one of the server's paths, and where that path
/// joins below the directory, it starts with the directory.
pub open spec fn writes_within_dir(s: UpdaterView, a: ActionView) -> bool {
    &&& a matches ActionView::CheckExists(p) ==> in_game_dir(s.dir, s.info, p)
    &&& a matches ActionView::Download(_, _, p) ==> in_game_dir(s.dir, s.info, p)
}

/// A path that the update removes is, as text, none of the paths where the
/// server's files go and none of the ignored paths of the game directory.
pub open spec fn removal_spares_named_paths(s: UpdaterView, a: ActionView) -> bool {
    a matches ActionView::Remove(p) ==> {
        &&& text_at_or_within(p, s.dir)
        &&& forall|k: int| 0 <= k < s.info.files.len() ==> p != #[trigger] spec_path_join(s.dir, s.info.files[k].path)
        &&& forall|k: int| 0 <= k < s.info.ignored_files.len() ==> p != #[trigger] spec_path_join(s.dir, s.info.ignored_files[k])
    }
}

/// The update removes only files that the update server does not list,
/// that lie under no ignored path, and that are, as text, the game
/// directory or paths inside it (the walk of the directory finds only
/// those).
pub proof fn lemma_removes_only_unlisted_files(s: UpdaterView, e: EventView)
    requires
        wf(s),
        expects(s, e),
        within_limits(s, e),
    ensures
        next(s, e).1 matches ActionView::Remove(p) ==> {
            &&& !is_required(s.dir, s.info, p)
            &&& !is_kept(s.dir, s.info, p)
            &&& text_at_or_within(p, s.dir)
        },
{
    match s.phase {
        PhaseView::AwaitScan => match e {
            EventView::Scanned(files) => lemma_next_removal_removable(s.dir, s.info, files, 0),
            _ => {},
        },
        PhaseView::AwaitRemoval { scanned } => lemma_next_removal_removable(s.dir, s.info, s.scanned, scanned + 1),
        _ => {},
    }
}

/// Cleaning goes through the scanned files in order and removes every one
/// that the update server does not list and that lies under no ignored
/// path: on the scan's result, and after each removal, the next action
/// removes the first such file after the one last removed (at or after the
/// first file on the scan's result), and the end of the cleaning is
/// reported only when no such file is left.
pub proof fn lemma_cleaning_removes_every_unlisted_file(s: UpdaterView, e: EventView)
    requires
        wf(s),
        expects(s, e),
        within_limits(s, e),
        (s.phase is AwaitScan && e is Scanned) || (s.phase is AwaitRemoval && e is Removed),
    ensures
        ({
            let (t, a) = next(s, e);
            let from: int = match s.phase {
                PhaseView::AwaitRemoval { scanned } => (scanned + 1) as int,
                _ => 0,
            };
            &&& t.dir == s.dir && t.info == s.info
            &&& (s.phase is AwaitRemoval ==> t.scanned == s.scanned)
            &&& (e matches EventView::Scanned(files) ==> t.scanned == files)
            &&& match a {
                ActionView::Remove(p) => t.phase matches PhaseView::AwaitRemoval { scanned: k } && {
                    &&& from <= k < t.scanned.len()
                    &&& p == t.scanned[k as int]
                    &&& !is_required(t.dir, t.info, p)
                    &&& !is_kept(t.dir, t.info, p)
                    &&& forall|m: int| from <= m < k ==> is_required(t.dir, t.info, #[trigger] t.scanned[m])
                        || is_kept(t.dir, t.info, t.scanned[m])
                },
                ActionView::Send(MessageView::CleanDone) => forall|m: int| from <= m < t.scanned.len() ==>
                    is_required(t.dir, t.info, #[trigger] t.scanned[m]) || is_kept(t.dir, t.info, t.scanned[m]),
                _ => false,
            }
        }),
{
    match s.phase {
        PhaseView::AwaitScan => match e {
            EventView::Scanned(files) => {
                lemma_next_removal_bounds(s.dir, s.info, files, 0);
                lemma_next_removal_removable(s.dir, s.info, files, 0);
                lemma_cleaning_passes_over_only_kept_files(s.dir, s.info, files, 0);
            },
            _ => {},
        },
        PhaseView::AwaitRemoval { scanned } => {
            lemma_next_removal_bounds(s.dir, s.info, s.scanned, scanned + 1);
            lemma_next_removal_removable(s.dir, s.info, s.scanned, scanned + 1);
            lemma_cleaning_passes_over_only_kept_files(s.dir, s.info, s.scanned, scanned + 1);
        },
        _ => {},
    }
}

/// Checking the server's files from the `i`-th on, the update passes over
/// exactly the files whose path starts (as text) with one of the ignored
/// paths, wherever that path stands in the list: it looks next at the first
/// file from `i` on whose path starts with none of them, and reports the
/// end of the fetch only when every file left starts with one of them.
pub proof fn lemma_checking_skips_exactly_ignored_files(s: UpdaterView, i: nat)
    requires
        i <= s.info.files.len(),
    ensures
        ({
            let (t, a) = check_files_from(s, i);
            let ig = s.info.ignored_files;
            let files = s.info.files;
            let skipped = |m: int| exists|k: int| 0 <= k < ig.len() && spec_starts_with(files[m].path, #[trigger] ig[k]);
            &&& t.info == s.info
            &&& match t.phase {
                PhaseView::AwaitExists { file: g, .. } => {
                    &&& i <= g < files.len()
                    &&& forall|k: int| 0 <= k < ig.len() ==> !spec_starts_with(files[g as int].path, #[trigger] ig[k])
                    &&& forall|m: int| i <= m < g ==> #[trigger] skipped(m)
                },
                PhaseView::AwaitFetchDoneSent => forall|m: int| i <= m < files.len() ==> #[trigger] skipped(m),
                _ => true,
            }
        }),
    decreases s.info.files.len() - i,
{
    lemma_next_file_bounds(s.info, i);
    lemma_next_file_skips(s.info, i);
}

proof fn lemma_next_file_skips(info: InfoView, i: nat)
    requires
        i <= info.files.len(),
    ensures
        forall|m: int| i <= m < next_file(info, i) ==> file_ignored(#[trigger] info.files[m].path, info.ignored_files),
    decreases info.files.len() - i,
{
    if i < info.files.len() {
        lemma_next_file_skips(info, i + 1);
    }
}

/// The update looks at a server file (and so may download it) only where
/// its path starts with none of the ignored paths.
pub proof fn lemma_never_checks_an_ignored_file(s: UpdaterView, e: EventView)
    requires
        wf(s),
        expects(s, e),
        within_limits(s, e),
    ensures
        next(s, e).0.phase matches PhaseView::AwaitExists { file: g, .. } ==> forall|k: int|
            0 <= k < next(s, e).0.info.ignored_files.len() ==> !spec_starts_with(
                next(s, e).0.info.files[g as int].path,
                #[trigger] next(s, e).0.info.ignored_files[k],
            ),
{
    match s.phase {
        PhaseView::AwaitInfo => match e {
            EventView::Fetched(info) => {
                let s1 = UpdaterView { info, next_id: 0, downloads: Seq::empty(), scanned: Seq::empty(), ..s };
                lemma_checking_skips_exactly_ignored_files(s1, 0);
            },
            _ => {},
        },
        PhaseView::AwaitExists { file, .. } => lemma_checking_skips_exactly_ignored_files(s, file + 1),
        PhaseView::AwaitContent { file, .. } => lemma_checking_skips_exactly_ignored_files(s, file + 1),
        PhaseView::AwaitAddSent { file, path, size } => {
            let s1 = UpdaterView {
                downloads: s.downloads.push((s.next_id, size, path)),
                next_id: (s.next_id + 1) as u32,
                ..s
            };
            lemma_checking_skips_exactly_ignored_files(s1, file + 1);
        },
        _ => {},
    }
}

/// Every download is announced under an id that no download registered
/// before has: the number of downloads registered so far.
pub proof fn lemma_announced_ids_are_fresh(s: UpdaterView, e: EventView)
    requires
        wf(s),
        expects(s, e),
        within_limits(s, e),
    ensures
        next(s, e).1 matches ActionView::Send(MessageView::AddState(id, _, _)) ==> {
            &&& id == s.downloads.len()
            &&& forall|k: int| 0 <= k < s.downloads.len() ==> s.downloads[k].0 != id
        },
{
}

/// Each download's id is its position among the downloads.
pub open spec fn downloads_numbered(d: Seq<(u32, u64, Seq<char>)>) -> bool {
    forall|k: int| 0 <= k < d.len() ==> d[k].0 == k
}

/// The downloads are numbered from 0 in the order they were registered,
/// and the positions that the phase names are within what they index.
pub open spec fn wf(s: UpdaterView) -> bool {
    &&& s.next_id == s.downloads.len()
    &&& downloads_numbered(s.downloads)
    &&& all_in_dir(s.scanned, s.dir)
    &&& match s.phase {
        PhaseView::AwaitExists { file, .. } => file < s.info.files.len() && s.downloads.len() <= file,
        PhaseView::AwaitContent { file, .. } => file < s.info.files.len() && s.downloads.len() <= file,
        PhaseView::AwaitResponse { file, .. } => file < s.info.files.len() && s.downloads.len() <= file,
        PhaseView::AwaitAddSent { file, .. } => file < s.info.files.len() && s.downloads.len() <= file,
        PhaseView::AwaitRemoval { scanned } => scanned < s.scanned.len(),
        PhaseView::AwaitDownload { download } => download < s.downloads.len(),
        _ => true,
    }
}

/// Brings the game directory in line with what the update server lists:
/// downloads the missing and changed files, removes the files that the
/// server no longer lists, and reports its progress as it goes.
///
/// The update does its outside work through its driver: start it with
/// [`Updater::new`], perform each [`UpdateAction`] and hand the outcome back
/// to [`Updater::step`], until the action is `Finish` (or `Panic`).
pub struct Updater {
    fetch_url: String,
    download_dir: String,
    phase: Phase,
    info: Info,
    next_id: u32,
    downloads: Vec<PendingDownload>,
    scanned: Vec<String>,
}

impl View for Updater {
    type V = UpdaterView;

    closed spec fn view(&self) -> UpdaterView {
        UpdaterView {
            fetch_url: self.fetch_url@,
            dir: self.download_dir@,
            phase: self.phase@,
            info: self.info@,
            next_id: self.next_id,
            downloads: downloads_view(self.downloads@),
            scanned: strings_view(self.scanned@),
        }
    }
}


/// Whether two byte strings are equal.
fn bytes_eq(a: &Vec<u8>, b: &Vec<u8>) -> (r: bool)
    ensures
        r == (a@ == b@),
{
    if a.len() != b.len() {
        return false;
    }
    let mut i: usize = 0;
    while i < a.len()
        invariant
            a@.len() == b@.len(),
            i <= a@.len(),
            forall|j: int| 0 <= j < i ==> a@[j] == b@[j],
        decreases a@.len() - i,
    {
        if a[i] != b[i] {
            return false;
        }
        i = i + 1;
    }
    assert(a@ =~= b@);
    true
}

proof fn lemma_next_file_bounds(info: InfoView, i: nat)
    ensures
        i <= info.files.len() ==> i <= next_file(info, i) <= info.files.len(),
        next_file(info, i) < info.files.len() ==> !file_ignored(info.files[next_file(info, i) as int].path, info.ignored_files),
    decreases info.files.len() - i,
{
    if i < info.files.len() {
        lemma_next_file_bounds(info, i + 1);
    }
}

proof fn lemma_next_removal_bounds(dir: Seq<char>, info: InfoView, scanned: Seq<Seq<char>>, j: nat)
    ensures
        j <= scanned.len() ==> j <= next_removal(dir, info, scanned, j) <= scanned.len(),
    decreases scanned.len() - j,
{
    if j < scanned.len() {
        lemma_next_removal_bounds(dir, info, scanned, j + 1);
    }
}

impl Updater {
    /// Starts an update that fetches its description from `fetch_url` and
    /// keeps `download_dir` up to date; the first work to do is the fetch.
    pub fn new(fetch_url: String, download_dir: String) -> (r: (Updater, UpdateAction))
        ensures
            r.0@.fetch_url == fetch_url@,
            r.0@.dir == download_dir@,
            r.0@.phase == PhaseView::AwaitInfo,
            r.0@.next_id == 0,
            r.0@.downloads == Seq::<(u32, u64, Seq<char>)>::empty(),
            r.0@.scanned == Seq::<Seq<char>>::empty(),
            r.0@.info.files == Seq::<FileInfoView>::empty(),
            r.0@.info.ignored_files == Seq::<Seq<char>>::empty(),
            wf(r.0@),
            paths_in_game_dir(r.0@),
            r.1@ == ActionView::FetchInfo(fetch_url@),
    {
        let url = fetch_url.clone();
        let u = Updater {
            fetch_url,
            download_dir,
            phase: Phase::AwaitInfo,
            info: Info { base_url: String::new(), algorithm: String::new(), files: Vec::new(), ignored_files: Vec::new() },
            next_id: 0,
            downloads: Vec::new(),
            scanned: Vec::new(),
        };
        proof {
            assert(files_view(u.info.files@) =~= Seq::<FileInfoView>::empty());
            assert(strings_view(u.info.ignored_files@) =~= Seq::<Seq<char>>::empty());
            assert(downloads_view(u.downloads@) =~= Seq::<(u32, u64, Seq<char>)>::empty());
            assert(strings_view(u.scanned@) =~= Seq::<Seq<char>>::empty());
        }
        (u, UpdateAction::FetchInfo { url })
    }

    fn fail(&mut self, e: Error) -> (a: UpdateAction)
        ensures
            (final(self)@, a@) == interrupt(old(self)@, e@),
    {
        self.phase = Phase::AwaitInterruptSent;
        UpdateAction::Send(Message::Interrupted(Box::new(e)))
    }

    fn is_file_ignored(&self, path: &String) -> (r: bool)
        ensures
            r == file_ignored(path@, self@.info.ignored_files),
    {
        let ghost ig = self@.info.ignored_files;
        let mut k: usize = 0;
        while k < self.info.ignored_files.len()
            invariant
                ig == strings_view(self.info.ignored_files@),
                k <= ig.len(),
                forall|m: int| 0 <= m < k ==> !spec_starts_with(path@, ig[m]),
            decreases ig.len() - k,
        {
            if starts_with(path.as_str(), self.info.ignored_files[k].as_str()) {
                assert(spec_starts_with(path@, ig[k as int]));
                return true;
            }
            k = k + 1;
        }
        false
    }

    fn check_files_from(&mut self, i: usize) -> (a: UpdateAction)
        requires
            downloads_in_game_dir(old(self)@),
            all_in_dir(old(self)@.scanned, old(self)@.dir),
            downloads_numbered(old(self)@.downloads),
            i <= old(self)@.info.files.len(),
            old(self)@.downloads.len() <= i,
            old(self)@.next_id == old(self)@.downloads.len(),
        ensures
            (final(self)@, a@) == check_files_from(old(self)@, i as nat),
            wf(final(self)@),
            writes_within_dir(final(self)@, a@),
            paths_in_game_dir(final(self)@),
    {
        let ghost s = self@;
        let mut j = i;
        while j < self.info.files.len() && self.is_file_ignored(&self.info.files[j].path)
            invariant
                self@ == s,
                i <= j <= s.info.files.len(),
                next_file(s.info, i as nat) == next_file(s.info, j as nat),
            decreases s.info.files.len() - j,
        {
            j = j + 1;
        }
        proof { lemma_next_file_bounds(s.info, j as nat); }
        if j == self.info.files.len() {
            self.phase = Phase::AwaitFetchDoneSent;
            return UpdateAction::Send(Message::FetchDone);
        }
        let joined = join_url(self.info.base_url.as_str(), self.info.files[j].path.as_str());
        match joined {
            Err(e) => {
                let a = self.fail(Error::Url(e));
                assert(interrupt(s, ErrorView::Url).1 is Send);
                a
            },
            Ok(url) => {
                let path = path_join(self.download_dir.as_str(), self.info.files[j].path.as_str());
                assert(s.info.files[j as int] == self.info.files@[j as int]@);
                let p = path.clone();
                self.phase = Phase::AwaitExists { file: j, url, path };
                let a = UpdateAction::CheckExists { path: p };
                assert(a@ == ActionView::CheckExists(spec_path_join(s.dir, s.info.files[j as int].path)));
                assert(self@.info == s.info && self@.dir == s.dir);
                assert(joined_in_dir(s.dir, s.info, j as int, spec_path_join(s.dir, s.info.files[j as int].path)));
                a
            },
        }
    }

    fn all_in_dir(&self, files: &Vec<String>) -> (r: bool)
        ensures
            r == all_in_dir(strings_view(files@), self@.dir),
    {
        let mut i: usize = 0;
        while i < files.len()
            invariant
                i <= files@.len(),
                forall|j: int| 0 <= j < i ==> text_at_or_within(#[trigger] files@[j]@, self@.dir),
            decreases files@.len() - i,
        {
            if !at_or_within(files[i].as_str(), self.download_dir.as_str()) {
                assert(strings_view(files@)[i as int] == files@[i as int]@);
                return false;
            }
            i = i + 1;
        }
        assert forall|j: int| 0 <= j < strings_view(files@).len() implies text_at_or_within(
            #[trigger] strings_view(files@)[j],
            self@.dir,
        ) by {
            assert(strings_view(files@)[j] == files@[j]@);
        }
        true
    }

    fn is_required(&self, file: &String) -> (r: bool)
        ensures
            r == is_required(self@.dir, self@.info, file@),
            !r ==> forall|m: int| 0 <= m < self@.info.files.len() ==> file@ != #[trigger] spec_path_join(self@.dir, self@.info.files[m].path),
    {
        let ghost s = self@;
        let mut k: usize = 0;
        while k < self.info.files.len()
            invariant
                self@ == s,
                k <= s.info.files.len(),
                forall|m: int| 0 <= m < k ==> !spec_path_eq(file@, spec_path_join(s.dir, s.info.files[m].path)),
                forall|m: int| 0 <= m < k ==> file@ != #[trigger] spec_path_join(s.dir, s.info.files[m].path),
            decreases s.info.files.len() - k,
        {
            let required = path_join(self.download_dir.as_str(), self.info.files[k].path.as_str());
            assert(s.info.files[k as int] == self.info.files@[k as int]@);
            if path_eq(file.as_str(), required.as_str()) {
                return true;
            }
            k = k + 1;
        }
        false
    }

    fn is_kept(&self, file: &String) -> (r: bool)
        ensures
            r == is_kept(self@.dir, self@.info, file@),
            !r ==> forall|m: int| 0 <= m < self@.info.ignored_files.len() ==> file@ != #[trigger] spec_path_join(self@.dir, self@.info.ignored_files[m]),
    {
        let ghost s = self@;
        let mut k: usize = 0;
        while k < self.info.ignored_files.len()
            invariant
                self@ == s,
                k <= s.info.ignored_files.len(),
                forall|m: int| 0 <= m < k ==> !spec_path_starts_with(file@, spec_path_join(s.dir, s.info.ignored_files[m])),
                forall|m: int| 0 <= m < k ==> file@ != #[trigger] spec_path_join(s.dir, s.info.ignored_files[m]),
            decreases s.info.ignored_files.len() - k,
        {
            let base = path_join(self.download_dir.as_str(), self.info.ignored_files[k].as_str());
            assert(s.info.ignored_files[k as int] == self.info.ignored_files@[k as int]@);
            if path_starts_with(file.as_str(), base.as_str()) {
                return true;
            }
            k = k + 1;
        }
        false
    }

    fn clean_from(&mut self, j: usize) -> (a: UpdateAction)
        requires
            downloads_in_game_dir(old(self)@),
            all_in_dir(old(self)@.scanned, old(self)@.dir),
            downloads_numbered(old(self)@.downloads),
            j <= old(self)@.scanned.len(),
            old(self)@.next_id == old(self)@.downloads.len(),
        ensures
            (final(self)@, a@) == clean_from(old(self)@, j as nat),
            wf(final(self)@),
            writes_within_dir(final(self)@, a@),
            paths_in_game_dir(final(self)@),
            removal_spares_named_paths(final(self)@, a@),
    {
        let ghost s = self@;
        let mut k = j;
        while k < self.scanned.len() && (self.is_required(&self.scanned[k]) || self.is_kept(&self.scanned[k]))
            invariant
                self@ == s,
                j <= k <= s.scanned.len(),
                next_removal(s.dir, s.info, s.scanned, j as nat) == next_removal(s.dir, s.info, s.scanned, k as nat),
            decreases s.scanned.len() - k,
        {
            k = k + 1;
        }
        proof { lemma_next_removal_bounds(s.dir, s.info, s.scanned, k as nat); }
        if k == self.scanned.len() {
            self.phase = Phase::AwaitCleanDoneSent;
            UpdateAction::Send(Message::CleanDone)
        } else {
            let path = self.scanned[k].clone();
            self.phase = Phase::AwaitRemoval { scanned: k };
            UpdateAction::Remove { path }
        }
    }

    fn download_from(&mut self, k: usize) -> (a: UpdateAction)
        requires
            downloads_in_game_dir(old(self)@),
            all_in_dir(old(self)@.scanned, old(self)@.dir),
            downloads_numbered(old(self)@.downloads),
            k <= old(self)@.downloads.len(),
            old(self)@.next_id == old(self)@.downloads.len(),
        ensures
            (final(self)@, a@) == download_from(old(self)@, k as nat),
            wf(final(self)@),
            writes_within_dir(final(self)@, a@),
            paths_in_game_dir(final(self)@),
    {
        if k < self.downloads.len() {
            let id = self.downloads[k].id;
            let size = self.downloads[k].size;
            let path = self.downloads[k].path.clone();
            self.phase = Phase::AwaitDownload { download: k };
            UpdateAction::Download { id, size, path }
        } else {
            self.phase = Phase::AwaitDownloadDoneSent;
            UpdateAction::Send(Message::DownloadDone)
        }
    }

    /// Moves the update on from `phase` (neither finished nor reporting an
    /// interruption) on an event that is not a failure.
    fn advance(&mut self, phase: Phase, event: UpdateEvent) -> (a: UpdateAction)
        requires
            wf(UpdaterView { phase: phase@, ..old(self)@ }),
            expects(UpdaterView { phase: phase@, ..old(self)@ }, event@),
            within_limits(UpdaterView { phase: phase@, ..old(self)@ }, event@),
            !(phase is Finished),
            !(phase is AwaitInterruptSent),
            !(event is Failed),
            paths_in_game_dir(UpdaterView { phase: phase@, ..old(self)@ }),
        ensures
            (final(self)@, a@) == next(UpdaterView { phase: phase@, ..old(self)@ }, event@),
            wf(final(self)@),
            removal_spares_named_paths(final(self)@, a@),
            writes_within_dir(final(self)@, a@),
            paths_in_game_dir(final(self)@),
    {
        match phase {
            Phase::AwaitInfo => match event {
                UpdateEvent::Fetched(info) => {
                    self.info = info;
                    self.next_id = 0;
                    self.downloads = Vec::new();
                    self.scanned = Vec::new();
                    proof {
                        assert(downloads_view(self.downloads@) =~= Seq::<(u32, u64, Seq<char>)>::empty());
                        assert(strings_view(self.scanned@) =~= Seq::<Seq<char>>::empty());
                    }
                    self.check_files_from(0)
                },
                _ => UpdateAction::Finish,
            },
            Phase::AwaitExists { file, url, path } => match event {
                UpdateEvent::Exists(false) => {
                    self.phase = Phase::AwaitResponse { file, path };
                    UpdateAction::Request { url }
                },
                _ => {
                    let n = self.info.files.len();
                    assert(file < n);
                    if self.info.files[file].placeholder {
                        self.check_files_from(file + 1)
                    } else {
                        match convert_hash_algorithm(self.info.algorithm.as_str()) {
                            None => {
                                self.phase = Phase::Finished;
                                UpdateAction::Panic { message: concat("Unknown algorithm: ", self.info.algorithm.as_str()) }
                            },
                            Some(algorithm) => {
                                let p = path.clone();
                                self.phase = Phase::AwaitContent { file, url, path, algorithm };
                                UpdateAction::ReadFile { path: p }
                            },
                        }
                    }
                },
            },
            Phase::AwaitContent { file, url, path, algorithm } => match event {
                UpdateEvent::Content(bytes) => {
                    let n = self.info.files.len();
                    assert(file < n);
                    let local = digest(algorithm, bytes.as_slice());
                    match crockford_decode(self.info.files[file].hash.as_str()) {
                        None => {
                            self.fail(Error::Other("Could not parse hash".to_owned()))
                        },
                        Some(remote) => {
                            if !bytes_eq(&local, &remote) {
                                self.phase = Phase::AwaitResponse { file, path };
                                UpdateAction::Request { url }
                            } else {
                                self.check_files_from(file + 1)
                            }
                        },
                    }
                },
                _ => UpdateAction::Finish,
            },
            Phase::AwaitResponse { file, path } => match event {
                UpdateEvent::Responded { content_length: Some(size) } => {
                    let name = path.clone();
                    self.phase = Phase::AwaitAddSent { file, path, size };
                    UpdateAction::Send(Message::AddState(self.next_id, size, Some(name)))
                },
                _ => {
                    self.fail(Error::Other("Failed to get content length".to_owned()))
                },
            },
            Phase::AwaitAddSent { file, path, size } => {
                let n = self.info.files.len();
                assert(file < n);
                let ghost before = downloads_view(self.downloads@);
                self.downloads.push(PendingDownload { id: self.next_id, size, path });
                proof {
                    assert(downloads_view(self.downloads@) =~= before.push((old(self).next_id, size, path@)));
                }
                self.next_id = self.next_id + 1;
                self.check_files_from(file + 1)
            },
            Phase::AwaitFetchDoneSent => {
                let root = self.download_dir.clone();
                let ignored = copy_strings(&self.info.ignored_files);
                self.phase = Phase::AwaitScan;
                UpdateAction::Scan { root, ignored }
            },
            Phase::AwaitScan => match event {
                UpdateEvent::Scanned(files) => {
                    self.scanned = files;
                    self.clean_from(0)
                },
                _ => UpdateAction::Finish,
            },
            Phase::AwaitRemoval { scanned } => {
                let n = self.scanned.len();
                assert(scanned < n);
                self.clean_from(scanned + 1)
            },
            Phase::AwaitCleanDoneSent => {
                self.download_from(0)
            },
            Phase::AwaitDownload { download } => {
                self.download_from(download + 1)
            },
            _ => {
                self.phase = Phase::Finished;
                UpdateAction::Finish
            },
        }
    }

    /// Whether the update waits for an event of this kind, and the event
    /// keeps the update within its limits (the counterpart of the
    /// requirements of [`Self::step`] that callers run).
    pub fn accepts(&self, event: &UpdateEvent) -> (r: bool)
        ensures
            r == (expects(self@, event@) && within_limits(self@, event@)),
    {
        let expected = match &self.phase {
            Phase::Finished => true,
            phase => match event {
                UpdateEvent::Failed(_) => true,
                UpdateEvent::Fetched(_) => matches!(phase, Phase::AwaitInfo),
                UpdateEvent::Exists(_) => matches!(phase, Phase::AwaitExists { .. }),
                UpdateEvent::Content(_) => matches!(phase, Phase::AwaitContent { .. }),
                UpdateEvent::Responded { .. } => matches!(phase, Phase::AwaitResponse { .. }),
                UpdateEvent::Sent => match phase {
                    Phase::AwaitAddSent { .. } | Phase::AwaitFetchDoneSent | Phase::AwaitCleanDoneSent
                    | Phase::AwaitDownloadDoneSent | Phase::AwaitInterruptSent => true,
                    _ => false,
                },
                UpdateEvent::Scanned(_) => matches!(phase, Phase::AwaitScan),
                UpdateEvent::Removed => matches!(phase, Phase::AwaitRemoval { .. }),
                UpdateEvent::Downloaded => matches!(phase, Phase::AwaitDownload { .. }),
            },
        };
        let ids_left = match (&self.phase, event) {
            (Phase::AwaitAddSent { .. }, UpdateEvent::Sent) => self.next_id < u32::MAX,
            _ => true,
        };
        let digestible = match event {
            UpdateEvent::Content(bytes) => (bytes.len() as u64) < 0x2000_0000_0000_0000u64,
            _ => true,
        };
        let in_dir = match event {
            UpdateEvent::Scanned(files) => self.all_in_dir(files),
            _ => true,
        };
        expected && ids_left && digestible && in_dir
    }

    /// Hands the outcome of the last outside work to the update, and returns
    /// the next work to do.  A path it removes is, as text, the game
    /// directory or a path inside it, and none of the listed or ignored
    /// paths; a path it looks up or downloads to is the game directory joined
    /// with one of the server's paths, and starts with the directory wherever
    /// that path joins below it.
    pub fn step(&mut self, event: UpdateEvent) -> (a: UpdateAction)
        requires
            wf(old(self)@),
            paths_in_game_dir(old(self)@),
            expects(old(self)@, event@),
            within_limits(old(self)@, event@),
        ensures
            (final(self)@, a@) == next(old(self)@, event@),
            wf(final(self)@),
            removal_spares_named_paths(final(self)@, a@),
            writes_within_dir(final(self)@, a@),
            paths_in_game_dir(final(self)@),
    {
        let mut phase = Phase::Finished;
        std::mem::swap(&mut phase, &mut self.phase);
        match phase {
            Phase::Finished => UpdateAction::Finish,
            Phase::AwaitInterruptSent => match event {
                UpdateEvent::Failed(_) => UpdateAction::Panic { message: UNREPORTED_INTERRUPTION.to_owned() },
                _ => UpdateAction::Finish,
            },
            phase => match event {
                UpdateEvent::Failed(err) => self.fail(err),
                event => self.advance(phase, event),
            },
        }
    }
}

} // verus!

verus! {

// ------------------------------------------------------------------ what the update downloads

/// The paths of the registered downloads, in order.
pub open spec fn download_paths(d: Seq<(u32, u64, Seq<char>)>) -> Seq<Seq<char>> {
    d.map_values(|x: (u32, u64, Seq<char>)| x.2)
}

/// Whether a file of the server has to be downloaded, given what the disk
/// holds (a path maps to its content where the file exists): it is missing,
/// or it is not a placeholder and the digest of its content differs from
/// its listed hash.
pub open spec fn needs_download(dir: Seq<char>, info: InfoView, disk: Map<Seq<char>, Seq<u8>>, f: FileInfoView) -> bool {
    let p = spec_path_join(dir, f.path);
    ||| !disk.contains_key(p)
    ||| !f.placeholder && match (algorithm_named(spec_to_lowercase(info.algorithm)), spec_crockford_decode(f.hash)) {
        (Some(a), Some(remote)) => spec_digest(a, disk[p]) != remote,
        _ => false,
    }
}

/// The local paths of the first `n` files of the server that are not
/// ignored and have to be downloaded, in order.
pub open spec fn planned_downloads(dir: Seq<char>, info: InfoView, disk: Map<Seq<char>, Seq<u8>>, n: nat) -> Seq<Seq<char>>
    decreases n,
{
    if n == 0 {
        Seq::empty()
    } else {
        let prev = planned_downloads(dir, info, disk, (n - 1) as nat);
        let f = info.files[n - 1];
        if !file_ignored(f.path, info.ignored_files) && needs_download(dir, info, disk, f) {
            prev.push(spec_path_join(dir, f.path))
        } else {
            prev
        }
    }
}

/// Whether the update has so far registered exactly the downloads that the
/// disk calls for, and the file it is looking at is the one its phase says.
pub open spec fn on_plan(s: UpdaterView, disk: Map<Seq<char>, Seq<u8>>) -> bool {
    let looked_at = |file: nat, path: Seq<char>| {
        &&& file < s.info.files.len()
        &&& download_paths(s.downloads) == planned_downloads(s.dir, s.info, disk, file)
        &&& path == spec_path_join(s.dir, s.info.files[file as int].path)
        &&& !file_ignored(s.info.files[file as int].path, s.info.ignored_files)
    };
    match s.phase {
        PhaseView::AwaitExists { file, path, .. } => looked_at(file, path),
        PhaseView::AwaitContent { file, path, algorithm, .. } => {
            &&& looked_at(file, path)
            &&& disk.contains_key(path)
            &&& !s.info.files[file as int].placeholder
            &&& algorithm_named(spec_to_lowercase(s.info.algorithm)) == Some(algorithm)
        },
        PhaseView::AwaitResponse { file, path } => looked_at(file, path) && needs_download(
            s.dir,
            s.info,
            disk,
            s.info.files[file as int],
        ),
        PhaseView::AwaitAddSent { file, path, .. } => looked_at(file, path) && needs_download(
            s.dir,
            s.info,
            disk,
            s.info.files[file as int],
        ),
        PhaseView::AwaitFetchDoneSent => download_paths(s.downloads) == planned_downloads(s.dir, s.info, disk, s.info.files.len()),
        _ => true,
    }
}

/// Whether an event tells the truth about the disk.
pub open spec fn agrees_with_disk(s: UpdaterView, e: EventView, disk: Map<Seq<char>, Seq<u8>>) -> bool {
    match (s.phase, e) {
        (PhaseView::AwaitExists { path, .. }, EventView::Exists(b)) => b == disk.contains_key(path),
        (PhaseView::AwaitContent { path, .. }, EventView::Content(c)) => disk.contains_key(path) && c == disk[path],
        _ => true,
    }
}

proof fn lemma_skipping_ignored_files(dir: Seq<char>, info: InfoView, disk: Map<Seq<char>, Seq<u8>>, i: nat)
    requires
        i <= info.files.len(),
    ensures
        planned_downloads(dir, info, disk, next_file(info, i)) == planned_downloads(dir, info, disk, i),
    decreases info.files.len() - i,
{
    if i < info.files.len() && file_ignored(info.files[i as int].path, info.ignored_files) {
        lemma_skipping_ignored_files(dir, info, disk, i + 1);
    }
}

proof fn lemma_checking_from_keeps_plan(s: UpdaterView, disk: Map<Seq<char>, Seq<u8>>, i: nat)
    requires
        i <= s.info.files.len(),
        download_paths(s.downloads) == planned_downloads(s.dir, s.info, disk, i),
    ensures
        on_plan(check_files_from(s, i).0, disk),
{
    lemma_skipping_ignored_files(s.dir, s.info, disk, i);
    lemma_next_file_bounds(s.info, i);
}

/// The update goes through the server's files in order and registers
/// exactly the downloads that the disk calls for: every step keeps it on
/// plan, so that when it reports the end of the fetch it has registered the
/// missing files and the files whose content does not match their hash
/// (placeholders only when missing), leaving out the ignored ones.
pub proof fn lemma_update_follows_plan(s: UpdaterView, e: EventView, disk: Map<Seq<char>, Seq<u8>>)
    requires
        wf(s),
        expects(s, e),
        within_limits(s, e),
        on_plan(s, disk),
        agrees_with_disk(s, e, disk),
    ensures
        on_plan(next(s, e).0, disk),
{
    match s.phase {
        PhaseView::AwaitInfo => match e {
            EventView::Fetched(info) => {
                let s1 = UpdaterView { info, next_id: 0, downloads: Seq::empty(), scanned: Seq::empty(), ..s };
                assert(download_paths(s1.downloads) =~= Seq::<Seq<char>>::empty());
                lemma_checking_from_keeps_plan(s1, disk, 0);
            },
            _ => {},
        },
        PhaseView::AwaitExists { file, .. } => match e {
            EventView::Exists(true) => {
                if s.info.files[file as int].placeholder {
                    lemma_checking_from_keeps_plan(s, disk, file + 1);
                }
            },
            _ => {},
        },
        PhaseView::AwaitContent { file, algorithm, .. } => match e {
            EventView::Content(bytes) => {
                let f = s.info.files[file as int];
                match spec_crockford_decode(f.hash) {
                    Some(remote) => if spec_digest(algorithm, bytes) == remote {
                        assert(!needs_download(s.dir, s.info, disk, f));
                        assert(planned_downloads(s.dir, s.info, disk, file + 1) == planned_downloads(s.dir, s.info, disk, file));
                        lemma_checking_from_keeps_plan(s, disk, file + 1);
                    },
                    None => {},
                }
            },
            _ => {},
        },
        PhaseView::AwaitAddSent { file, path, size } => match e {
            EventView::Sent => {
                let s1 = UpdaterView {
                    downloads: s.downloads.push((s.next_id, size, path)),
                    next_id: (s.next_id + 1) as u32,
                    ..s
                };
                assert(download_paths(s1.downloads) =~= download_paths(s.downloads).push(path));
                lemma_checking_from_keeps_plan(s1, disk, file + 1);
            },
            _ => {},
        },
        _ => {},
    }
}

} // verus!
