//! The e-reader's folder download, as a state machine: from its state and
//! what just happened, it decides the next thing to do. Every listed file
//! that has a size and is not on the device yet is downloaded, in the
//! listing's order; the first error stops the work with a message.
use vstd::prelude::*;
use crate::drive::{DriveFile, DriveFileView, files_view};
use crate::progress::percent;
use crate::ui::{download_start_text, download_start_spec, finished_text, finished_spec, progress_text, progress_spec};

verus! {

/// Where the download stands. Each index names a file of the listing;
/// `Reading` and `Pausing` keep the last percentage shown.
#[derive(Debug, Clone, Copy, PartialEq, Eq, Structural)]
pub enum SyncPhase {
    /// Nothing done yet.
    Begin,
    /// The listing was asked for.
    Listing,
    /// The target directory is being created.
    CreatingDir,
    /// Whether the file is already on the device is being checked.
    Checking(usize),
    /// The message that its download starts is being shown.
    Announcing(usize),
    /// Its download is being started.
    Starting(usize),
    /// Its next chunk is being read.
    Reading(usize, u64),
    /// Its progress is being shown, or the task is yielding.
    Pausing(usize, u64),
    /// Its finished download is being moved into place.
    Renaming(usize),
    /// All is done, or the work stopped.
    Done,
}

/// What just happened.
#[derive(Debug)]
pub enum SyncEvent {
    /// The task begins.
    Start,
    /// The listing came, or failed with a message.
    Listed(Result<Vec<DriveFile>, String>),
    /// The target directory exists now, or could not be made.
    DirCreated(Result<(), String>),
    /// Whether the file is already on the device.
    Exists(bool),
    /// The text was shown, the task yielded, or the file was moved.
    Done,
    /// The download started, or failed to.
    DownloadStarted(Result<(), String>),
    /// A chunk was copied (`Some` with the bytes so far), the content ended
    /// (`None`), or the copy failed.
    Chunk(Result<Option<u64>, String>),
}

/// What to do next.
#[derive(Debug)]
pub enum SyncAction {
    /// Nothing: the event does not fit the state.
    Idle,
    /// Ask for the listing.
    ListFiles,
    /// Create the target directory.
    CreateDir,
    /// Check whether the file `name` is on the device.
    CheckExists { name: String },
    /// Show the text under the hourglass.
    ShowText(String),
    /// Start the download of the file `id` into the temporary file for `name`.
    StartDownload { id: String, name: String },
    /// Copy the next chunk.
    ReadChunk,
    /// Let the event loop run.
    Yield,
    /// Move the temporary file for `name` into place; one more file is done.
    RenameAndCount { name: String },
    /// Show the error and stop, removing the temporary file when asked.
    Fail { title: String, message: String, remove_temp: bool },
    /// Show the final message and stop.
    Finish(String),
}

/// The model of a [`SyncEvent`].
pub enum SyncEventView {
    Start,
    Listed(Result<Seq<DriveFileView>, Seq<char>>),
    DirCreated(Result<(), Seq<char>>),
    Exists(bool),
    Done,
    DownloadStarted(Result<(), Seq<char>>),
    Chunk(Result<Option<u64>, Seq<char>>),
}

/// The model of a [`SyncAction`].
pub enum SyncActionView {
    Idle,
    ListFiles,
    CreateDir,
    CheckExists(Seq<char>),
    ShowText(Seq<char>),
    StartDownload(Seq<char>, Seq<char>),
    ReadChunk,
    Yield,
    RenameAndCount(Seq<char>),
    Fail(Seq<char>, Seq<char>, bool),
    Finish(Seq<char>),
}

/// The model of a [`SyncState`]: the listed files, the phase, and the count
/// of files downloaded.
pub struct SyncStateView {
    pub files: Seq<DriveFileView>,
    pub phase: SyncPhase,
    pub count: nat,
}

/// A result whose error message is a string, with the message as a sequence.
pub open spec fn err_view<T>(r: Result<T, String>) -> Result<T, Seq<char>> {
    match r {
        Ok(v) => Ok(v),
        Err(m) => Err(m@),
    }
}

impl View for SyncEvent {
    type V = SyncEventView;

    open spec fn view(&self) -> SyncEventView {
        match self {
            SyncEvent::Start => SyncEventView::Start,
            SyncEvent::Listed(r) => SyncEventView::Listed(match r {
                Ok(fs) => Ok(files_view(fs@)),
                Err(m) => Err(m@),
            }),
            SyncEvent::DirCreated(r) => SyncEventView::DirCreated(err_view(*r)),
            SyncEvent::Exists(b) => SyncEventView::Exists(*b),
            SyncEvent::Done => SyncEventView::Done,
            SyncEvent::DownloadStarted(r) => SyncEventView::DownloadStarted(err_view(*r)),
            SyncEvent::Chunk(r) => SyncEventView::Chunk(err_view(*r)),
        }
    }
}

impl View for SyncAction {
    type V = SyncActionView;

    open spec fn view(&self) -> SyncActionView {
        match self {
            SyncAction::Idle => SyncActionView::Idle,
            SyncAction::ListFiles => SyncActionView::ListFiles,
            SyncAction::CreateDir => SyncActionView::CreateDir,
            SyncAction::CheckExists { name } => SyncActionView::CheckExists(name@),
            SyncAction::ShowText(t) => SyncActionView::ShowText(t@),
            SyncAction::StartDownload { id, name } => SyncActionView::StartDownload(id@, name@),
            SyncAction::ReadChunk => SyncActionView::ReadChunk,
            SyncAction::Yield => SyncActionView::Yield,
            SyncAction::RenameAndCount { name } => SyncActionView::RenameAndCount(name@),
            SyncAction::Fail { title, message, remove_temp } => SyncActionView::Fail(title@, message@, *remove_temp),
            SyncAction::Finish(t) => SyncActionView::Finish(t@),
        }
    }
}

/// The index of the first file at or after `from` that has a size.
pub open spec fn next_sized(files: Seq<DriveFileView>, from: int) -> Option<int>
    decreases files.len() - from,
{
    if from < 0 || from >= files.len() {
        None
    } else if files[from].size.is_some() {
        Some(from)
    } else {
        next_sized(files, from + 1)
    }
}

/// Going on with the files from `from`: check the next file with a size, or
/// finish with the count.
pub open spec fn advance_spec(s: SyncStateView, from: int) -> (SyncStateView, SyncActionView) {
    match next_sized(s.files, from) {
        Some(j) => (SyncStateView { phase: SyncPhase::Checking(j as usize), ..s }, SyncActionView::CheckExists(s.files[j].name)),
        None => (SyncStateView { phase: SyncPhase::Done, ..s }, SyncActionView::Finish(finished_spec(s.count))),
    }
}

/// The state that the work stops in, with the error to show.
pub open spec fn fail_spec(s: SyncStateView, title: Seq<char>, message: Seq<char>, remove_temp: bool) -> (SyncStateView, SyncActionView) {
    (SyncStateView { phase: SyncPhase::Done, ..s }, SyncActionView::Fail(title, message, remove_temp))
}

/// The next state and action for the state `s` and the event `e`.
pub open spec fn sync_step_spec(s: SyncStateView, e: SyncEventView) -> (SyncStateView, SyncActionView) {
    match (s.phase, e) {
        (SyncPhase::Begin, SyncEventView::Start) => (SyncStateView { phase: SyncPhase::Listing, ..s }, SyncActionView::ListFiles),
        (SyncPhase::Listing, SyncEventView::Listed(Ok(fs))) => (SyncStateView { files: fs, phase: SyncPhase::CreatingDir, ..s }, SyncActionView::CreateDir),
        (SyncPhase::Listing, SyncEventView::Listed(Err(m))) => fail_spec(s, "Failed to list files"@, m, false),
        (SyncPhase::CreatingDir, SyncEventView::DirCreated(Ok(_))) => advance_spec(s, 0),
        (SyncPhase::CreatingDir, SyncEventView::DirCreated(Err(m))) => fail_spec(s, "Failed to create target dir"@, m, false),
        (SyncPhase::Checking(j), SyncEventView::Exists(true)) => advance_spec(s, j + 1),
        (SyncPhase::Checking(j), SyncEventView::Exists(false)) => (SyncStateView { phase: SyncPhase::Announcing(j), ..s },
            SyncActionView::ShowText(download_start_spec(s.files[j as int].name))),
        (SyncPhase::Announcing(j), SyncEventView::Done) => (SyncStateView { phase: SyncPhase::Starting(j), ..s },
            SyncActionView::StartDownload(s.files[j as int].id, s.files[j as int].name)),
        (SyncPhase::Starting(j), SyncEventView::DownloadStarted(Ok(_))) => (SyncStateView { phase: SyncPhase::Reading(j, 0), ..s }, SyncActionView::ReadChunk),
        (SyncPhase::Starting(j), SyncEventView::DownloadStarted(Err(m))) => fail_spec(s, "Failed to download file"@, m, true),
        (SyncPhase::Reading(j, _), SyncEventView::Chunk(Ok(None))) => (SyncStateView { phase: SyncPhase::Renaming(j), count: s.count + 1, ..s },
            SyncActionView::RenameAndCount(s.files[j as int].name)),
        (SyncPhase::Reading(j, prev), SyncEventView::Chunk(Ok(Some(ready)))) => {
            let p = (ready * 100) / (s.files[j as int].size.unwrap() as int);
            if p != prev {
                (SyncStateView { phase: SyncPhase::Pausing(j, p as u64), ..s }, SyncActionView::ShowText(progress_spec(s.files[j as int].name, p as nat)))
            } else {
                (SyncStateView { phase: SyncPhase::Pausing(j, prev), ..s }, SyncActionView::Yield)
            }
        },
        (SyncPhase::Reading(j, _), SyncEventView::Chunk(Err(m))) => fail_spec(s, "Failed to download next chunk"@, m, true),
        (SyncPhase::Pausing(j, p), SyncEventView::Done) => (SyncStateView { phase: SyncPhase::Reading(j, p), ..s }, SyncActionView::ReadChunk),
        (SyncPhase::Renaming(j), SyncEventView::Done) => advance_spec(s, j + 1),
        _ => (s, SyncActionView::Idle),
    }
}

proof fn lemma_next_sized(files: Seq<DriveFileView>, from: int)
    requires
        0 <= from,
    ensures
        match next_sized(files, from) {
            Some(k) => from <= k < files.len() && files[k].size.is_some()
                && forall|m: int| from <= m < k ==> files[m].size.is_none(),
            None => forall|m: int| from <= m < files.len() ==> files[m].size.is_none(),
        },
    decreases files.len() - from,
{
    if from < files.len() && files[from].size.is_none() {
        lemma_next_sized(files, from + 1);
    }
}

/// A file that is already on the device is skipped and the work goes on:
/// after it, the next file with a size is checked, the one with the
/// smallest index after it; only when no file after it has a size does the
/// work finish, with the count so far. Nothing else changes.
pub proof fn lemma_existing_file_skipped(s: SyncStateView, j: usize)
    requires
        s.phase == SyncPhase::Checking(j),
    ensures
        ({
            let (t, a) = sync_step_spec(s, SyncEventView::Exists(true));
            &&& t.files == s.files
            &&& t.count == s.count
            &&& (exists|k: int| j < k < s.files.len() && #[trigger] s.files[k].size.is_some()) ==> exists|k: int|
                j < k < s.files.len() && #[trigger] s.files[k].size.is_some()
                && (forall|m: int| j < m < k ==> s.files[m].size.is_none())
                && t.phase == SyncPhase::Checking(k as usize)
                && a == SyncActionView::CheckExists(s.files[k].name)
            &&& (forall|k: int| j < k < s.files.len() ==> s.files[k].size.is_none()) ==> t.phase == SyncPhase::Done
                && a == SyncActionView::Finish(finished_spec(s.count))
        }),
{
    lemma_next_sized(s.files, j + 1);
    match next_sized(s.files, j + 1) {
        Some(k) => {
            assert(s.files[k].size.is_some());
        },
        None => {},
    }
}

/// A file with a size that is not on the device is downloaded: its start
/// is announced, then its download is started with its id and name.
pub proof fn lemma_missing_file_downloaded(s: SyncStateView, j: usize)
    requires
        s.phase == SyncPhase::Checking(j),
    ensures
        ({
            let (t, a) = sync_step_spec(s, SyncEventView::Exists(false));
            let (u, b) = sync_step_spec(t, SyncEventView::Done);
            &&& a == SyncActionView::ShowText(download_start_spec(s.files[j as int].name))
            &&& b == SyncActionView::StartDownload(s.files[j as int].id, s.files[j as int].name)
            &&& u == SyncStateView { phase: SyncPhase::Starting(j), ..s }
        }),
{
}

/// Whether `t` and `a` go on with the files of `s` from the index `from`:
/// the first file at or after `from` that has a size is checked next; when
/// no such file is left, the work finishes with the count of `s`. The files
/// and the count stay as they are.
pub open spec fn goes_on_from(s: SyncStateView, from: int, t: SyncStateView, a: SyncActionView) -> bool {
    &&& t.files == s.files
    &&& t.count == s.count
    &&& (exists|k: int| from <= k < s.files.len() && #[trigger] s.files[k].size.is_some()) ==> exists|k: int|
        from <= k < s.files.len() && #[trigger] s.files[k].size.is_some()
        && (forall|m: int| from <= m < k ==> s.files[m].size.is_none())
        && t.phase == SyncPhase::Checking(k as usize)
        && a == SyncActionView::CheckExists(s.files[k].name)
    &&& (forall|k: int| from <= k < s.files.len() ==> s.files[k].size.is_none()) ==> t.phase == SyncPhase::Done
        && a == SyncActionView::Finish(finished_spec(s.count))
}

proof fn lemma_advance_goes_on(s: SyncStateView, from: int)
    requires
        0 <= from,
    ensures
        goes_on_from(s, from, advance_spec(s, from).0, advance_spec(s, from).1),
{
    lemma_next_sized(s.files, from);
    match next_sized(s.files, from) {
        Some(k) => {
            assert(s.files[k].size.is_some());
        },
        None => {},
    }
}

/// Once the target directory exists, the work begins with the first listed
/// file that has a size, or finishes at once when no file has one.
pub proof fn lemma_work_begins_with_first_sized(s: SyncStateView)
    requires
        s.phase == SyncPhase::CreatingDir,
    ensures
        ({
            let (t, a) = sync_step_spec(s, SyncEventView::DirCreated(Ok(())));
            goes_on_from(s, 0, t, a)
        }),
{
    lemma_advance_goes_on(s, 0);
}

/// A listing that came is kept whole, in its order, and the target
/// directory is made next.
pub proof fn lemma_listing_kept(s: SyncStateView, fs: Seq<DriveFileView>)
    requires
        s.phase == SyncPhase::Listing,
    ensures
        sync_step_spec(s, SyncEventView::Listed(Ok(fs)))
            == (SyncStateView { files: fs, phase: SyncPhase::CreatingDir, count: s.count }, SyncActionView::CreateDir),
{
}

/// When a file's content has ended, it is moved into place and counted:
/// the count grows by exactly one, and once it is moved the work goes on
/// with the next file after it that has a size, or finishes with the new
/// count.
pub proof fn lemma_finished_download_counted(s: SyncStateView, j: usize, p: u64)
    requires
        s.phase == SyncPhase::Reading(j, p),
    ensures
        ({
            let (t, a) = sync_step_spec(s, SyncEventView::Chunk(Ok(None)));
            let (u, b) = sync_step_spec(t, SyncEventView::Done);
            &&& t == SyncStateView { phase: SyncPhase::Renaming(j), count: s.count + 1, ..s }
            &&& a == SyncActionView::RenameAndCount(s.files[j as int].name)
            &&& goes_on_from(t, j + 1, u, b)
        }),
{
    let t = SyncStateView { phase: SyncPhase::Renaming(j), count: s.count + 1, ..s };
    lemma_advance_goes_on(t, j + 1);
}

/// After a chunk, the percentage `p` of the file that has come is the whole
/// number with `p * size <= 100 * ready < (p + 1) * size`; it is shown only
/// when it differs from the one shown last, and otherwise the task just
/// yields. Either way the next chunk is read after that, and the files and
/// the count stay.
pub proof fn lemma_progress_shown(s: SyncStateView, j: usize, prev: u64, ready: u64, size: u64)
    requires
        s.phase == SyncPhase::Reading(j, prev),
        j < s.files.len(),
        s.files[j as int].size == Some(size),
        size > 0,
        ready * 100 <= u64::MAX,
    ensures
        ({
            let (t, a) = sync_step_spec(s, SyncEventView::Chunk(Ok(Some(ready))));
            let (u, b) = sync_step_spec(t, SyncEventView::Done);
            exists|p: u64| {
                &&& p * size <= ready * 100 < (p + 1) * size
                &&& t.files == s.files && t.count == s.count
                &&& p != prev ==> t.phase == SyncPhase::Pausing(j, p)
                    && a == SyncActionView::ShowText(progress_spec(s.files[j as int].name, p as nat))
                &&& p == prev ==> t.phase == SyncPhase::Pausing(j, prev) && a == SyncActionView::Yield
                &&& u == SyncStateView { phase: SyncPhase::Reading(j, p), ..s }
                &&& b == SyncActionView::ReadChunk
            }
        }),
{
    let r: int = ready * 100;
    let q: int = r / (size as int);
    assert(q * size <= r < (q + 1) * size && 0 <= q <= r) by (nonlinear_arith)
        requires
            r >= 0,
            size > 0,
            q == r / (size as int),
    ;
    let p = q as u64;
    assert(p == q);
    let (t, a) = sync_step_spec(s, SyncEventView::Chunk(Ok(Some(ready))));
    let (u, b) = sync_step_spec(t, SyncEventView::Done);
    assert(p * size <= ready * 100 < (p + 1) * size);
    assert(t.files == s.files && t.count == s.count);
    assert(p != prev ==> t.phase == SyncPhase::Pausing(j, p)
        && a == SyncActionView::ShowText(progress_spec(s.files[j as int].name, p as nat)));
    assert(p == prev ==> t.phase == SyncPhase::Pausing(j, prev) && a == SyncActionView::Yield);
    assert(u == SyncStateView { phase: SyncPhase::Reading(j, p), ..s });
}

/// Every error stops the work: the state is done, the files and the count
/// stay, and the error's message is shown under a title that says what
/// failed; the partly downloaded file is removed only for errors of the
/// download itself.
pub proof fn lemma_errors_stop(s: SyncStateView, m: Seq<char>)
    ensures
        s.phase == SyncPhase::Listing ==> sync_step_spec(s, SyncEventView::Listed(Err(m)))
            == (SyncStateView { phase: SyncPhase::Done, ..s }, SyncActionView::Fail("Failed to list files"@, m, false)),
        s.phase == SyncPhase::CreatingDir ==> sync_step_spec(s, SyncEventView::DirCreated(Err(m)))
            == (SyncStateView { phase: SyncPhase::Done, ..s }, SyncActionView::Fail("Failed to create target dir"@, m, false)),
        s.phase is Starting ==> sync_step_spec(s, SyncEventView::DownloadStarted(Err(m)))
            == (SyncStateView { phase: SyncPhase::Done, ..s }, SyncActionView::Fail("Failed to download file"@, m, true)),
        s.phase is Reading ==> sync_step_spec(s, SyncEventView::Chunk(Err(m)))
            == (SyncStateView { phase: SyncPhase::Done, ..s }, SyncActionView::Fail("Failed to download next chunk"@, m, true)),
        s.phase == SyncPhase::Done ==> forall|e: SyncEventView| #[trigger] sync_step_spec(s, e) == (s, SyncActionView::Idle),
{
}

/// What the step needs of a chunk's count: the percentage must be
/// computable, so the file's size is not zero and a hundred times the count
/// fits in 64 bits.
pub open spec fn step_ok(s: SyncStateView, e: SyncEventView) -> bool {
    match (s.phase, e) {
        (SyncPhase::Reading(j, _), SyncEventView::Chunk(Ok(Some(ready)))) => {
            &&& 0 <= j < s.files.len()
            &&& s.files[j as int].size matches Some(size) && size > 0
            &&& ready * 100 <= u64::MAX
        },
        _ => true,
    }
}

/// The state of the download of a folder.
pub struct SyncState {
    files: Vec<DriveFile>,
    phase: SyncPhase,
    count: u64,
}

impl View for SyncState {
    type V = SyncStateView;

    closed spec fn view(&self) -> SyncStateView {
        SyncStateView { files: files_view(self.files@), phase: self.phase, count: self.count as nat }
    }
}

/// The facts that every state keeps: each index names a file with a size,
/// and no more files were counted than come before it.
pub open spec fn sync_wf(s: SyncStateView) -> bool {
    &&& s.count <= s.files.len()
    &&& match s.phase {
        SyncPhase::Begin | SyncPhase::Listing | SyncPhase::CreatingDir => s.count == 0,
        SyncPhase::Checking(j) | SyncPhase::Announcing(j) | SyncPhase::Starting(j) | SyncPhase::Reading(j, _)
        | SyncPhase::Pausing(j, _) => j < s.files.len() && s.count <= j && s.files[j as int].size.is_some(),
        SyncPhase::Renaming(j) => j < s.files.len() && s.count <= j + 1,
        _ => true,
    }
}

impl SyncState {
    #[verifier::type_invariant]
    spec fn sync_inv(self) -> bool {
        sync_wf(self@)
    }

    /// The state before anything was done.
    pub fn new() -> (r: SyncState)
        ensures
            r@ == (SyncStateView { files: seq![], phase: SyncPhase::Begin, count: 0 }),
    {
        let files: Vec<DriveFile> = Vec::new();
        assert(files_view(files@) =~= Seq::<DriveFileView>::empty());
        SyncState { files, phase: SyncPhase::Begin, count: 0 }
    }

    /// The number of files downloaded so far.
    pub fn count(&self) -> (r: u64)
        ensures
            r == self@.count,
    {
        self.count
    }

    /// Whether a chunk count of `ready` bytes now fits the step's needs.
    pub fn chunk_ok(&self, ready: u64) -> (r: bool)
        ensures
            r == step_ok(self@, SyncEventView::Chunk(Ok(Some(ready)))),
    {
        proof { use_type_invariant(self); }
        match self.phase {
            SyncPhase::Reading(j, _) => match self.files[j].size {
                Some(size) => size > 0 && ready <= u64::MAX / 100,
                None => false,
            },
            _ => true,
        }
    }
}

fn advance(files: Vec<DriveFile>, count: u64, from: usize) -> (r: (SyncState, SyncAction))
    requires
        count <= from,
        from <= files@.len(),
    ensures
        (r.0@, r.1@) == advance_spec(SyncStateView { files: files_view(files@), phase: SyncPhase::Begin, count: count as nat }, from as int),
{
    let ghost fv = files_view(files@);
    let mut i = from;
    while i < files.len() && files[i].size.is_none()
        invariant
            from <= i <= files@.len(),
            fv == files_view(files@),
            fv.len() == files@.len(),
            next_sized(fv, from as int) == next_sized(fv, i as int),
        decreases files.len() - i,
    {
        assert(fv[i as int] == files@[i as int]@);
        i = i + 1;
    }
    if i < files.len() {
        assert(fv[i as int] == files@[i as int]@);
        let name = files[i].name.clone();
        (SyncState { files, phase: SyncPhase::Checking(i), count }, SyncAction::CheckExists { name })
    } else {
        let text = finished_text(count);
        (SyncState { files, phase: SyncPhase::Done, count }, SyncAction::Finish(text))
    }
}

fn step_owned(s: SyncState, event: SyncEvent) -> (r: (SyncState, SyncAction))
    requires
        step_ok(s@, event@),
    ensures
        (r.0@, r.1@) == sync_step_spec(s@, event@),
{
    proof { use_type_invariant(&s); }
    let ghost sv = s@;
    let SyncState { files, phase, count } = s;
    let ghost fv = files_view(files@);
    assert(fv.len() == files@.len());
    assert(sv == SyncStateView { files: fv, phase, count: count as nat });
    assert(sync_wf(sv));
    let n = files.len();
    match (phase, event) {
        (SyncPhase::Begin, SyncEvent::Start) => (SyncState { files, phase: SyncPhase::Listing, count }, SyncAction::ListFiles),
        (SyncPhase::Listing, SyncEvent::Listed(Ok(fs))) => {
            assert(files_view(fs@).len() == fs@.len());
            (SyncState { files: fs, phase: SyncPhase::CreatingDir, count: 0 }, SyncAction::CreateDir)
        },
        (SyncPhase::Listing, SyncEvent::Listed(Err(m))) => (SyncState { files, phase: SyncPhase::Done, count },
            SyncAction::Fail { title: String::from_str("Failed to list files"), message: m, remove_temp: false }),
        (SyncPhase::CreatingDir, SyncEvent::DirCreated(Ok(_))) => advance(files, count, 0),
        (SyncPhase::CreatingDir, SyncEvent::DirCreated(Err(m))) => (SyncState { files, phase: SyncPhase::Done, count },
            SyncAction::Fail { title: String::from_str("Failed to create target dir"), message: m, remove_temp: false }),
        (SyncPhase::Checking(j), SyncEvent::Exists(true)) => advance(files, count, j + 1),
        (SyncPhase::Checking(j), SyncEvent::Exists(false)) => {
            assert(fv[j as int] == files@[j as int]@);
            let text = download_start_text(files[j].name.as_str());
            (SyncState { files, phase: SyncPhase::Announcing(j), count }, SyncAction::ShowText(text))
        },
        (SyncPhase::Announcing(j), SyncEvent::Done) => {
            assert(fv[j as int] == files@[j as int]@);
            let id = files[j].id.clone();
            let name = files[j].name.clone();
            (SyncState { files, phase: SyncPhase::Starting(j), count }, SyncAction::StartDownload { id, name })
        },
        (SyncPhase::Starting(j), SyncEvent::DownloadStarted(Ok(_))) => (SyncState { files, phase: SyncPhase::Reading(j, 0), count }, SyncAction::ReadChunk),
        (SyncPhase::Starting(j), SyncEvent::DownloadStarted(Err(m))) => (SyncState { files, phase: SyncPhase::Done, count },
            SyncAction::Fail { title: String::from_str("Failed to download file"), message: m, remove_temp: true }),
        (SyncPhase::Reading(j, _), SyncEvent::Chunk(Ok(None))) => {
            assert(fv[j as int] == files@[j as int]@);
            let name = files[j].name.clone();
            (SyncState { files, phase: SyncPhase::Renaming(j), count: count + 1 }, SyncAction::RenameAndCount { name })
        },
        (SyncPhase::Reading(j, prev), SyncEvent::Chunk(Ok(Some(ready)))) => {
            assert(fv[j as int] == files@[j as int]@);
            let size = match files[j].size {
                Some(size) => size,
                None => 1,
            };
            let p = percent(ready, size);
            if p != prev {
                let text = progress_text(files[j].name.as_str(), p);
                (SyncState { files, phase: SyncPhase::Pausing(j, p), count }, SyncAction::ShowText(text))
            } else {
                (SyncState { files, phase: SyncPhase::Pausing(j, prev), count }, SyncAction::Yield)
            }
        },
        (SyncPhase::Reading(j, _), SyncEvent::Chunk(Err(m))) => (SyncState { files, phase: SyncPhase::Done, count },
            SyncAction::Fail { title: String::from_str("Failed to download next chunk"), message: m, remove_temp: true }),
        (SyncPhase::Pausing(j, p), SyncEvent::Done) => (SyncState { files, phase: SyncPhase::Reading(j, p), count }, SyncAction::ReadChunk),
        (SyncPhase::Renaming(j), SyncEvent::Done) => advance(files, count, j + 1),
        (phase, _) => (SyncState { files, phase, count }, SyncAction::Idle),
    }
}

/// Decides what to do next, from the state and what just happened, and
/// moves the state on.
pub fn sync_step(state: &mut SyncState, event: SyncEvent) -> (action: SyncAction)
    requires
        step_ok(old(state)@, event@),
    ensures
        (final(state)@, action@) == sync_step_spec(old(state)@, event@),
{
    let mut current = SyncState::new();
    std::mem::swap(&mut current, state);
    let (next, action) = step_owned(current, event);
    *state = next;
    action
}

} // verus!
