//! The executor: runs a plan one step at a time. It tells the host which
//! operation comes next, takes the outcome, and decides how the cycle goes
//! on: completed, skipped or aborted. The order is fixed: deletions on the
//! server, deletions locally, downloads, uploads.

use vstd::prelude::*;
use vstd::hash_map::StringHashMap;
use vstd::hash_set::StringHashSet;
use crate::listing::{entries, text_of, FileItem, RemoteIndex};
use crate::paths::{parent, parent_of};
use crate::commit::{commit, warning_text, SyncOutcome};
use crate::pathset::{build_set, lemma_views_push, strictly_sorted, views};
use crate::plan::{build_plan, known_hashes, PlanModel};
use crate::state::{hash_map, index_hashes, texts, HashEntry, SyncStateFile};
use crate::status::{Phase, SyncProgress};
use crate::text::{chars_of, contains_chars, join3, occurs_in};

verus! {

/// Where a cycle stands.
#[derive(Clone, Copy, PartialEq, Eq, Structural, Debug)]
pub enum Stage {
    /// About to delete an item on the server.
    DeleteRemote,
    /// About to delete an item locally.
    DeleteLocal,
    /// About to remove a directory that a local deletion may have emptied.
    Prune,
    /// About to ask whether a download's target is already there.
    Probe,
    /// About to download an item.
    Download,
    /// About to remove the local copy of a file that the server has lost.
    Discard,
    /// About to upload an item.
    Upload,
    /// Every item has been dealt with.
    Finished,
}

/// What the host is to do next.
#[derive(Clone, Copy, PartialEq, Eq, Structural, Debug)]
pub enum Action {
    /// Delete the path on the server; a path the server lacks counts as deleted.
    DeleteRemote,
    /// Remove the local file if it exists and is a regular file.
    DeleteLocal,
    /// Remove the local directory if it is empty.
    RemoveDir,
    /// Say whether the path is a regular local file.
    Probe,
    /// Fetch the file, create its parent directories and write it.
    Download,
    /// Remove the local file if it exists and is a regular file.
    Discard,
    /// Send the local file if it exists and is a regular file.
    Upload,
    /// Nothing is left to do: the cycle can be committed.
    Finish,
    /// The cycle has failed: nothing more is to be done.
    Abort,
}

/// The next operation and the path it is about, relative to the sync root.
pub struct Step {
    pub action: Action,
    pub path: String,
}

/// How a download ended.
pub enum Downloaded {
    /// The bytes were fetched and written; the count is their number.
    Stored(u64),
    /// The bytes were fetched, and writing them was refused for want of
    /// permission.
    Denied(u64),
    /// The bytes were fetched, and writing them failed otherwise.
    WriteFailed(String),
    /// The transport failed, with its message.
    Failed(String),
}

/// How an upload ended.
pub enum Uploaded {
    /// The file was sent; the count is its size.
    Sent(u64),
    /// The file is no longer there.
    Absent,
    /// The transport failed, with its message.
    Failed(String),
}

/// The sum, or the largest `u64` where the sum is beyond it.
pub open spec fn capped(n: int) -> int {
    if n > u64::MAX {
        u64::MAX as int
    } else {
        n
    }
}

/// The message of a failed operation: what was tried, on which path, and
/// the error.
pub open spec fn failure_text(what: Seq<char>, path: Seq<char>, error: Seq<char>) -> Seq<char> {
    what + path + ": "@ + error
}

/// A cycle as the contracts read it.
pub ghost struct CycleModel {
    pub plan: PlanModel,
    /// The server's hashes, by path.
    pub known: Map<Seq<char>, Seq<char>>,
    /// The paths that the previous cycle downloaded.
    pub prev_downloaded: Set<Seq<char>>,
    pub stage: Stage,
    /// Index of the current item in its list.
    pub index: int,
    /// The directory to remove, in stage `Prune`.
    pub dir: Seq<char>,
    /// The hashes known to match on both sides.
    pub hashes: Map<Seq<char>, Seq<char>>,
    pub completed_downloads: Seq<Seq<char>>,
    pub skipped_downloads: Seq<Seq<char>>,
    pub completed_uploads: Seq<Seq<char>>,
    pub skipped_uploads: Seq<Seq<char>>,
    pub bytes_downloaded: int,
    pub bytes_uploaded: int,
    /// The message of the error that aborted the cycle.
    pub failure: Option<Seq<char>>,
}

impl CycleModel {
    /// The list that the current stage works through.
    pub open spec fn items(self) -> Seq<Seq<char>> {
        match self.stage {
            Stage::DeleteRemote => self.plan.to_delete_remote,
            Stage::DeleteLocal | Stage::Prune => self.plan.to_delete_local,
            Stage::Probe | Stage::Download | Stage::Discard => self.plan.to_download,
            Stage::Upload => self.plan.to_upload,
            Stage::Finished => Seq::empty(),
        }
    }

    /// The current item.
    pub open spec fn path(self) -> Seq<char> {
        self.items()[self.index]
    }

    /// The current item exists, what was transferred or skipped was planned,
    /// no upload is counted as skipped twice, and the byte totals fit.
    pub open spec fn wf(self) -> bool {
        &&& self.stage != Stage::Finished ==> 0 <= self.index < self.items().len()
        &&& self.stage == Stage::Finished ==> self.index == 0
        &&& forall|p: Seq<char>| #[trigger]
            self.completed_downloads.contains(p) ==> self.plan.to_download.contains(p)
        &&& forall|p: Seq<char>| #[trigger]
            self.skipped_downloads.contains(p) ==> self.plan.to_download.contains(p)
        &&& forall|p: Seq<char>| #[trigger]
            self.completed_uploads.contains(p) ==> self.plan.to_upload.contains(p)
        &&& forall|p: Seq<char>| #[trigger]
            self.skipped_uploads.contains(p) ==> self.plan.to_upload.contains(p)
        &&& self.skipped_uploads.no_duplicates()
        &&& 0 <= self.bytes_downloaded <= u64::MAX
        &&& 0 <= self.bytes_uploaded <= u64::MAX
    }

    /// What the host is to do next.
    pub open spec fn action(self) -> Action {
        if self.failure is Some {
            Action::Abort
        } else {
            match self.stage {
                Stage::DeleteRemote => Action::DeleteRemote,
                Stage::DeleteLocal => Action::DeleteLocal,
                Stage::Prune => Action::RemoveDir,
                Stage::Probe => Action::Probe,
                Stage::Download => Action::Download,
                Stage::Discard => Action::Discard,
                Stage::Upload => Action::Upload,
                Stage::Finished => Action::Finish,
            }
        }
    }

    /// The path that the next operation is about; none once the cycle has
    /// finished or failed.
    pub open spec fn subject(self) -> Seq<char> {
        if self.failure is Some || self.stage == Stage::Finished {
            Seq::empty()
        } else if self.stage == Stage::Prune {
            self.dir
        } else {
            self.path()
        }
    }

    /// The phase that is reported for the current stage.
    pub open spec fn phase(self) -> Phase {
        match self.stage {
            Stage::DeleteRemote => Phase::DeleteServer,
            Stage::DeleteLocal | Stage::Prune => Phase::DeleteLocal,
            Stage::Probe | Stage::Download | Stage::Discard => Phase::Download,
            Stage::Upload => Phase::Upload,
            Stage::Finished => Phase::Idle,
        }
    }

    /// The number of planned items that is reported: the sum over the four
    /// phases, and 0 once the cycle has finished.
    pub open spec fn total(self) -> int {
        if self.stage == Stage::Finished {
            0
        } else {
            (self.plan.to_delete_remote.len() + self.plan.to_delete_local.len()
                + self.plan.to_download.len() + self.plan.to_upload.len()) as int
        }
    }

    /// The number of items dealt with that is reported: those before the
    /// current one, and 0 once the cycle has finished.
    pub open spec fn done(self) -> int {
        match self.stage {
            Stage::DeleteRemote => self.index,
            Stage::DeleteLocal | Stage::Prune => self.plan.to_delete_remote.len() + self.index,
            Stage::Probe | Stage::Download | Stage::Discard => self.plan.to_delete_remote.len()
                + self.plan.to_delete_local.len() + self.index,
            Stage::Upload => self.plan.to_delete_remote.len() + self.plan.to_delete_local.len()
                + self.plan.to_download.len() + self.index,
            Stage::Finished => 0,
        }
    }

    /// A download may be skipped when its target already exists and either
    /// the previous cycle downloaded the path or the recorded hash is the
    /// server's current one.
    pub open spec fn may_skip(self, p: Seq<char>) -> bool {
        ||| self.prev_downloaded.contains(p)
        ||| (self.known.contains_key(p) && self.hashes.contains_key(p) && self.hashes[p]
            == self.known[p])
    }

    /// At upload `i`, or finished where the uploads are through.
    pub open spec fn at_upload(self, i: int) -> CycleModel {
        if i < self.plan.to_upload.len() {
            CycleModel { stage: Stage::Upload, index: i, ..self }
        } else {
            CycleModel { stage: Stage::Finished, index: 0, ..self }
        }
    }

    /// At download `i`: first a probe where the download may be skipped; on
    /// to the uploads where the downloads are through.
    pub open spec fn at_download(self, i: int) -> CycleModel {
        if i < self.plan.to_download.len() {
            if self.may_skip(self.plan.to_download[i]) {
                CycleModel { stage: Stage::Probe, index: i, ..self }
            } else {
                CycleModel { stage: Stage::Download, index: i, ..self }
            }
        } else {
            self.at_upload(0)
        }
    }

    /// At local deletion `i`, or on to the downloads.
    pub open spec fn at_delete_local(self, i: int) -> CycleModel {
        if i < self.plan.to_delete_local.len() {
            CycleModel { stage: Stage::DeleteLocal, index: i, ..self }
        } else {
            self.at_download(0)
        }
    }

    /// At remote deletion `i`, or on to the local deletions.
    pub open spec fn at_delete_remote(self, i: int) -> CycleModel {
        if i < self.plan.to_delete_remote.len() {
            CycleModel { stage: Stage::DeleteRemote, index: i, ..self }
        } else {
            self.at_delete_local(0)
        }
    }

    /// The cycle aborted by an error at the current item.
    pub open spec fn failed(self, what: Seq<char>, error: Seq<char>) -> CycleModel {
        CycleModel { failure: Some(failure_text(what, self.path(), error)), ..self }
    }

    /// After a remote deletion: on to the next item, or aborted by the error.
    pub open spec fn remote_deleted(self, error: Option<Seq<char>>) -> CycleModel {
        match error {
            None => self.at_delete_remote(self.index + 1),
            Some(e) => self.failed("Delete server "@, e),
        }
    }

    /// After a local deletion: where the file was there, its directory is
    /// tried next, unless that is the root; else on to the next item.
    pub open spec fn local_deleted(self, present: bool) -> CycleModel {
        if present && parent(self.path()) is Some {
            CycleModel { stage: Stage::Prune, dir: parent(self.path())->0, ..self }
        } else {
            self.at_delete_local(self.index + 1)
        }
    }

    /// After the attempt to remove an empty directory: where it was removed,
    /// its own directory is tried next, unless that is the root; else on to
    /// the next item.
    pub open spec fn dir_removed(self, removed: bool) -> CycleModel {
        if removed && parent(self.dir) is Some {
            CycleModel { dir: parent(self.dir)->0, ..self }
        } else {
            self.at_delete_local(self.index + 1)
        }
    }

    /// After a probe: a target that is there is left alone, one that is
    /// missing is downloaded.
    pub open spec fn probed(self, present: bool) -> CycleModel {
        if present {
            self.at_download(self.index + 1)
        } else {
            CycleModel { stage: Stage::Download, ..self }
        }
    }

    /// After a download.
    pub open spec fn downloaded(self, outcome: Downloaded) -> CycleModel {
        let p = self.path();
        match outcome {
            Downloaded::Stored(n) => CycleModel {
                bytes_downloaded: capped(self.bytes_downloaded + n),
                completed_downloads: self.completed_downloads.push(p),
                hashes: if self.known.contains_key(p) {
                    self.hashes.insert(p, self.known[p])
                } else {
                    self.hashes
                },
                ..self
            }.at_download(self.index + 1),
            Downloaded::Denied(n) => CycleModel {
                bytes_downloaded: capped(self.bytes_downloaded + n),
                skipped_downloads: self.skipped_downloads.push(p),
                ..self
            }.at_download(self.index + 1),
            Downloaded::WriteFailed(e) => self.failed("Download "@, e@),
            Downloaded::Failed(e) => if occurs_in("404"@, e@) {
                CycleModel {
                    stage: Stage::Discard,
                    skipped_downloads: self.skipped_downloads.push(p),
                    ..self
                }
            } else {
                self.failed("Download "@, e@)
            },
        }
    }

    /// After the local copy of a lost file was discarded.
    pub open spec fn discarded(self) -> CycleModel {
        self.at_download(self.index + 1)
    }

    /// After an upload.
    pub open spec fn uploaded(self, outcome: Uploaded) -> CycleModel {
        let p = self.path();
        match outcome {
            Uploaded::Sent(n) => CycleModel {
                bytes_uploaded: capped(self.bytes_uploaded + n),
                completed_uploads: self.completed_uploads.push(p),
                ..self
            }.at_upload(self.index + 1),
            Uploaded::Absent => CycleModel {
                skipped_uploads: if self.skipped_uploads.contains(p) {
                    self.skipped_uploads
                } else {
                    self.skipped_uploads.push(p)
                },
                ..self
            }.at_upload(self.index + 1),
            Uploaded::Failed(e) => self.failed("Upload "@, e@),
        }
    }
}

/// A cycle at its start: nothing done, at the first item of the plan.
pub open spec fn begin(
    plan: PlanModel,
    known: Map<Seq<char>, Seq<char>>,
    prev_downloaded: Set<Seq<char>>,
) -> CycleModel {
    CycleModel {
        plan,
        known,
        prev_downloaded,
        stage: Stage::Finished,
        index: 0,
        dir: Seq::empty(),
        hashes: plan.hashes,
        completed_downloads: Seq::empty(),
        skipped_downloads: Seq::empty(),
        completed_uploads: Seq::empty(),
        skipped_uploads: Seq::empty(),
        bytes_downloaded: 0,
        bytes_uploaded: 0,
        failure: None,
    }.at_delete_remote(0)
}

/// The paths verified in sync when the cycle ends: those on both sides
/// after the deletions, the completed downloads and the completed uploads.
pub open spec fn new_synced(m: CycleModel) -> Set<Seq<char>> {
    m.plan.base_synced.to_set() + m.completed_downloads.to_set() + m.completed_uploads.to_set()
}

/// The error of a failed operation, if it failed.
pub open spec fn error_of(result: Result<(), String>) -> Option<Seq<char>> {
    match result {
        Ok(_) => None,
        Err(e) => Some(e@),
    }
}

/// A running cycle. The host asks for the next operation, performs it and
/// hands in the outcome with the method for that operation; an outcome for
/// an operation that is not the pending one changes nothing.
pub struct SyncCycle {
    to_delete_remote: Vec<String>,
    to_delete_local: Vec<String>,
    to_download: Vec<String>,
    to_upload: Vec<String>,
    base_synced: Vec<String>,
    hash_log: Vec<HashEntry>,
    guardrail_tripped: bool,
    planned: Ghost<PlanModel>,
    known: StringHashMap<String>,
    hashes: StringHashMap<String>,
    prev_downloaded: StringHashSet,
    stage: Stage,
    index: usize,
    dir: String,
    completed_downloads: Vec<String>,
    skipped_downloads: Vec<String>,
    completed_uploads: Vec<String>,
    skipped_uploads: Vec<String>,
    skipped_upload_set: StringHashSet,
    bytes_downloaded: u64,
    bytes_uploaded: u64,
    failure: Option<String>,
}

impl View for SyncCycle {
    type V = CycleModel;

    closed spec fn view(&self) -> CycleModel {
        CycleModel {
            plan: self.planned@,
            known: texts(self.known@),
            prev_downloaded: self.prev_downloaded@,
            stage: self.stage,
            index: self.index as int,
            dir: self.dir@,
            hashes: texts(self.hashes@),
            completed_downloads: views(self.completed_downloads@),
            skipped_downloads: views(self.skipped_downloads@),
            completed_uploads: views(self.completed_uploads@),
            skipped_uploads: views(self.skipped_uploads@),
            bytes_downloaded: self.bytes_downloaded as int,
            bytes_uploaded: self.bytes_uploaded as int,
            failure: text_of(self.failure),
        }
    }
}

/// A list within `all` stays within it when an element of `all` is added,
/// and stays free of repetition when the element is new.
pub proof fn lemma_push_within(list: Seq<Seq<char>>, x: Seq<char>, all: Seq<Seq<char>>)
    requires
        forall|p: Seq<char>| #[trigger] list.contains(p) ==> all.contains(p),
        all.contains(x),
    ensures
        forall|p: Seq<char>| #[trigger] list.push(x).contains(p) ==> all.contains(p),
        list.no_duplicates() && !list.contains(x) ==> list.push(x).no_duplicates(),
{
    assert forall|p: Seq<char>| #[trigger] list.push(x).contains(p) implies all.contains(p) by {
        let k = choose|k: int| 0 <= k < list.push(x).len() && list.push(x)[k] == p;
        if k < list.len() {
            assert(list[k] == p);
            assert(list.contains(p));
        }
    }
    if list.no_duplicates() && !list.contains(x) {
        assert forall|i: int, j: int|
            0 <= i < list.push(x).len() && 0 <= j < list.push(x).len() && i != j implies list.push(
            x,
        )[i] != list.push(x)[j] by {
            if i < list.len() && j < list.len() {
            } else if i < list.len() {
                assert(list.contains(list[i]));
            } else {
                assert(list.contains(list[j]));
            }
        }
    }
}

fn add_capped(a: u64, b: u64) -> (r: u64)
    ensures
        r == capped(a + b),
{
    if b > u64::MAX - a {
        u64::MAX
    } else {
        a + b
    }
}

fn count_capped(a: usize, b: usize, c: usize, d: usize) -> (r: u64)
    ensures
        r == capped(a + b + c + d),
{
    add_capped(add_capped(add_capped(a as u64, b as u64), c as u64), d as u64)
}

impl SyncCycle {
    /// The lists and lookups are those of the plan, and the counters are in
    /// step with the lists.
    pub closed spec fn wf(&self) -> bool {
        &&& views(self.to_delete_remote@) == self.planned@.to_delete_remote
        &&& views(self.to_delete_local@) == self.planned@.to_delete_local
        &&& views(self.to_download@) == self.planned@.to_download
        &&& views(self.to_upload@) == self.planned@.to_upload
        &&& views(self.base_synced@) == self.planned@.base_synced
        &&& self.guardrail_tripped == self.planned@.guardrail_tripped
        &&& hash_map(self.hash_log@) == texts(self.hashes@)
        &&& self.skipped_upload_set@ == views(self.skipped_uploads@).to_set()
        &&& self@.wf()
    }

    proof fn lemma_in_range(&self)
        requires
            self.wf(),
            self.stage != Stage::Finished,
        ensures
            self.index < usize::MAX,
            self.index < match self.stage {
                Stage::DeleteRemote => self.to_delete_remote.len(),
                Stage::DeleteLocal | Stage::Prune => self.to_delete_local.len(),
                Stage::Probe | Stage::Download | Stage::Discard => self.to_download.len(),
                Stage::Upload => self.to_upload.len(),
                Stage::Finished => 0,
            },
    {
        assert(self@.index < self@.items().len());
        assert(views(self.to_delete_remote@).len() == self.to_delete_remote.len());
        assert(views(self.to_delete_local@).len() == self.to_delete_local.len());
        assert(views(self.to_download@).len() == self.to_download.len());
        assert(views(self.to_upload@).len() == self.to_upload.len());
    }

    /// Plans a cycle and puts it at its first step.
    pub fn start(state: &SyncStateFile, local: &Vec<FileItem>, remote: &Vec<FileItem>) -> (c:
        SyncCycle)
        ensures
            c.wf(),
            c@.wf(),
            c@.plan.realises(views(state.paths@), state.hashes(), entries(local@), entries(remote@)),
            c@ == begin(c@.plan, known_hashes(entries(remote@)), state.downloaded()),
    {
        let plan = build_plan(state, local, remote);
        let ghost planned = plan@;
        let known = RemoteIndex::build(remote).into_known();
        let hashes = index_hashes(&plan.file_hashes);
        let prev_downloaded = build_set(&state.downloaded_paths);
        let mut c = SyncCycle {
            to_delete_remote: plan.to_delete_remote,
            to_delete_local: plan.to_delete_local,
            to_download: plan.to_download,
            to_upload: plan.to_upload,
            base_synced: plan.base_synced,
            hash_log: plan.file_hashes,
            guardrail_tripped: plan.guardrail_tripped,
            planned: Ghost(planned),
            known,
            hashes,
            prev_downloaded,
            stage: Stage::Finished,
            index: 0,
            dir: String::new(),
            completed_downloads: Vec::new(),
            skipped_downloads: Vec::new(),
            completed_uploads: Vec::new(),
            skipped_uploads: Vec::new(),
            skipped_upload_set: StringHashSet::new(),
            bytes_downloaded: 0,
            bytes_uploaded: 0,
            failure: None,
        };
        proof {
            assert(texts(c.known@) =~= known_hashes(entries(remote@)));
            assert(views(c.skipped_uploads@).to_set() =~= Set::<Seq<char>>::empty());
            assert(views(c.completed_downloads@) =~= Seq::<Seq<char>>::empty());
            assert(views(c.skipped_downloads@) =~= Seq::<Seq<char>>::empty());
            assert(views(c.completed_uploads@) =~= Seq::<Seq<char>>::empty());
            assert(views(c.skipped_uploads@) =~= Seq::<Seq<char>>::empty());
        }
        c.goto_delete_remote(0);
        c
    }

    fn can_skip(&self, i: usize) -> (r: bool)
        requires
            self.wf(),
            i < self.to_download.len(),
        ensures
            r == self@.may_skip(self@.plan.to_download[i as int]),
    {
        let p = self.to_download[i].as_str();
        if self.prev_downloaded.contains(p) {
            return true;
        }
        match self.known.get(p) {
            None => false,
            Some(k) => match self.hashes.get(p) {
                None => false,
                Some(h) => *h == *k,
            },
        }
    }

    fn goto_upload(&mut self, i: usize)
        requires
            old(self).wf(),
            i <= old(self).to_upload.len(),
        ensures
            final(self).wf(),
            final(self)@ == old(self)@.at_upload(i as int),
    {
        if i < self.to_upload.len() {
            self.stage = Stage::Upload;
            self.index = i;
        } else {
            self.stage = Stage::Finished;
            self.index = 0;
        }
    }

    fn goto_download(&mut self, i: usize)
        requires
            old(self).wf(),
            i <= old(self).to_download.len(),
        ensures
            final(self).wf(),
            final(self)@ == old(self)@.at_download(i as int),
    {
        if i < self.to_download.len() {
            if self.can_skip(i) {
                self.stage = Stage::Probe;
            } else {
                self.stage = Stage::Download;
            }
            self.index = i;
        } else {
            self.goto_upload(0);
        }
    }

    fn goto_delete_local(&mut self, i: usize)
        requires
            old(self).wf(),
            i <= old(self).to_delete_local.len(),
        ensures
            final(self).wf(),
            final(self)@ == old(self)@.at_delete_local(i as int),
    {
        if i < self.to_delete_local.len() {
            self.stage = Stage::DeleteLocal;
            self.index = i;
        } else {
            self.goto_download(0);
        }
    }

    fn goto_delete_remote(&mut self, i: usize)
        requires
            old(self).wf(),
            i <= old(self).to_delete_remote.len(),
        ensures
            final(self).wf(),
            final(self)@ == old(self)@.at_delete_remote(i as int),
    {
        if i < self.to_delete_remote.len() {
            self.stage = Stage::DeleteRemote;
            self.index = i;
        } else {
            self.goto_delete_local(0);
        }
    }

    fn fail(&mut self, what: &str, path: &str, error: &str)
        requires
            old(self).wf(),
            old(self)@.stage != Stage::Finished,
            path@ == old(self)@.path(),
        ensures
            final(self).wf(),
            final(self)@ == old(self)@.failed(what@, error@),
    {
        let mut msg = join3(what, path, ": ");
        msg.append(error);
        self.failure = Some(msg);
    }

    /// Whether the guardrail held the remote deletions back.
    pub fn guardrail_tripped(&self) -> (r: bool)
        requires
            self.wf(),
        ensures
            r == self@.plan.guardrail_tripped,
    {
        self.guardrail_tripped
    }

    /// How many items the plan holds for the four phases: remote deletions,
    /// local deletions, downloads, uploads.
    pub fn planned_counts(&self) -> (r: (usize, usize, usize, usize))
        requires
            self.wf(),
        ensures
            r == (
                self@.plan.to_delete_remote.len() as usize,
                self@.plan.to_delete_local.len() as usize,
                self@.plan.to_download.len() as usize,
                self@.plan.to_upload.len() as usize,
            ),
    {
        (
            self.to_delete_remote.len(),
            self.to_delete_local.len(),
            self.to_download.len(),
            self.to_upload.len(),
        )
    }

    /// The next operation for the host.
    pub fn next_step(&self) -> (step: Step)
        requires
            self.wf(),
        ensures
            step.action == self@.action(),
            step.path@ == self@.subject(),
    {
        if self.failure.is_some() {
            return Step { action: Action::Abort, path: String::new() };
        }
        match self.stage {
            Stage::DeleteRemote => Step {
                action: Action::DeleteRemote,
                path: self.to_delete_remote[self.index].clone(),
            },
            Stage::DeleteLocal => Step {
                action: Action::DeleteLocal,
                path: self.to_delete_local[self.index].clone(),
            },
            Stage::Prune => Step { action: Action::RemoveDir, path: self.dir.clone() },
            Stage::Probe => Step { action: Action::Probe, path: self.to_download[self.index].clone() },
            Stage::Download => Step {
                action: Action::Download,
                path: self.to_download[self.index].clone(),
            },
            Stage::Discard => Step {
                action: Action::Discard,
                path: self.to_download[self.index].clone(),
            },
            Stage::Upload => Step { action: Action::Upload, path: self.to_upload[self.index].clone() },
            Stage::Finished => Step { action: Action::Finish, path: String::new() },
        }
    }

    /// The progress to report before the next operation.
    pub fn progress(&self) -> (p: SyncProgress)
        requires
            self.wf(),
        ensures
            p.phase@ == self@.phase().name(),
            p.current == capped(self@.done()),
            p.total == capped(self@.total()),
    {
        let a = self.to_delete_remote.len();
        let b = self.to_delete_local.len();
        let c = self.to_download.len();
        let d = self.to_upload.len();
        let total = count_capped(a, b, c, d);
        let i = self.index;
        match self.stage {
            Stage::DeleteRemote => SyncProgress {
                phase: Phase::DeleteServer.as_str().to_owned(),
                current: count_capped(i, 0, 0, 0),
                total,
            },
            Stage::DeleteLocal | Stage::Prune => SyncProgress {
                phase: Phase::DeleteLocal.as_str().to_owned(),
                current: count_capped(a, i, 0, 0),
                total,
            },
            Stage::Probe | Stage::Download | Stage::Discard => SyncProgress {
                phase: Phase::Download.as_str().to_owned(),
                current: count_capped(a, b, i, 0),
                total,
            },
            Stage::Upload => SyncProgress {
                phase: Phase::Upload.as_str().to_owned(),
                current: count_capped(a, b, c, i),
                total,
            },
            Stage::Finished => SyncProgress {
                phase: Phase::Idle.as_str().to_owned(),
                current: 0,
                total: 0,
            },
        }
    }

    /// Takes the outcome of a deletion on the server. An error aborts the
    /// cycle.
    pub fn remote_deleted(&mut self, result: Result<(), String>)
        requires
            old(self).wf(),
        ensures
            final(self).wf(),
            final(self)@.wf(),
            final(self)@ == if old(self)@.action() == Action::DeleteRemote {
                old(self)@.remote_deleted(error_of(result))
            } else {
                old(self)@
            },
    {
        if self.failure.is_some() || self.stage != Stage::DeleteRemote {
            return ;
        }
        proof {
            self.lemma_in_range();
        }
        match result {
            Ok(_) => {
                self.goto_delete_remote(self.index + 1);
            },
            Err(e) => {
                let path = self.to_delete_remote[self.index].clone();
                self.fail("Delete server ", path.as_str(), e.as_str());
            },
        }
    }

    /// Takes the outcome of a local deletion: whether the file was there.
    pub fn local_deleted(&mut self, present: bool)
        requires
            old(self).wf(),
        ensures
            final(self).wf(),
            final(self)@.wf(),
            final(self)@ == if old(self)@.action() == Action::DeleteLocal {
                old(self)@.local_deleted(present)
            } else {
                old(self)@
            },
    {
        if self.failure.is_some() || self.stage != Stage::DeleteLocal {
            return ;
        }
        proof {
            self.lemma_in_range();
        }
        if present {
            match parent_of(self.to_delete_local[self.index].as_str()) {
                Some(d) => {
                    self.stage = Stage::Prune;
                    self.dir = d;
                    return ;
                },
                None => {},
            }
        }
        self.goto_delete_local(self.index + 1);
    }

    /// Takes the outcome of the attempt to remove a directory: whether it
    /// was empty and is gone.
    pub fn dir_removed(&mut self, removed: bool)
        requires
            old(self).wf(),
        ensures
            final(self).wf(),
            final(self)@.wf(),
            final(self)@ == if old(self)@.action() == Action::RemoveDir {
                old(self)@.dir_removed(removed)
            } else {
                old(self)@
            },
    {
        if self.failure.is_some() || self.stage != Stage::Prune {
            return ;
        }
        proof {
            self.lemma_in_range();
        }
        if removed {
            match parent_of(self.dir.as_str()) {
                Some(d) => {
                    self.dir = d;
                    return ;
                },
                None => {},
            }
        }
        self.goto_delete_local(self.index + 1);
    }

    /// Takes the outcome of a probe: whether the target is there.
    pub fn probed(&mut self, present: bool)
        requires
            old(self).wf(),
        ensures
            final(self).wf(),
            final(self)@.wf(),
            final(self)@ == if old(self)@.action() == Action::Probe {
                old(self)@.probed(present)
            } else {
                old(self)@
            },
    {
        if self.failure.is_some() || self.stage != Stage::Probe {
            return ;
        }
        proof {
            self.lemma_in_range();
        }
        if present {
            self.goto_download(self.index + 1);
        } else {
            self.stage = Stage::Download;
        }
    }

    /// Takes the outcome of a download.
    pub fn downloaded(&mut self, outcome: Downloaded)
        requires
            old(self).wf(),
        ensures
            final(self).wf(),
            final(self)@.wf(),
            final(self)@ == if old(self)@.action() == Action::Download {
                old(self)@.downloaded(outcome)
            } else {
                old(self)@
            },
    {
        if self.failure.is_some() || self.stage != Stage::Download {
            return ;
        }
        proof {
            self.lemma_in_range();
        }
        let path = self.to_download[self.index].clone();
        proof {
            assert(self@.plan.to_download[self.index as int] == path@);
            assert(self@.plan.to_download.contains(path@));
        }
        match outcome {
            Downloaded::Stored(n) => {
                self.bytes_downloaded = add_capped(self.bytes_downloaded, n);
                match self.known.get(path.as_str()) {
                    Some(h) => {
                        let server = h.clone();
                        let ghost log = self.hash_log@;
                        let ghost before = self.hashes@;
                        self.hash_log.push(HashEntry { path: path.clone(), hash: server.clone() });
                        self.hashes.insert(path.clone(), server);
                        proof {
                            assert(self.hash_log@.drop_last() =~= log);
                            assert(texts(self.hashes@) =~= texts(before).insert(
                                path@,
                                old(self)@.known[path@],
                            ));
                        }
                    },
                    None => {},
                }
                proof {
                    lemma_views_push(self.completed_downloads@, path);
                    lemma_push_within(
                        views(self.completed_downloads@),
                        path@,
                        self@.plan.to_download,
                    );
                }
                self.completed_downloads.push(path);
                self.goto_download(self.index + 1);
            },
            Downloaded::Denied(n) => {
                self.bytes_downloaded = add_capped(self.bytes_downloaded, n);
                proof {
                    lemma_views_push(self.skipped_downloads@, path);
                    lemma_push_within(views(self.skipped_downloads@), path@, self@.plan.to_download);
                }
                self.skipped_downloads.push(path);
                self.goto_download(self.index + 1);
            },
            Downloaded::WriteFailed(e) => {
                self.fail("Download ", path.as_str(), e.as_str());
            },
            Downloaded::Failed(e) => {
                let text = chars_of(e.as_str());
                let gone = chars_of("404");
                if contains_chars(&text, &gone) {
                    proof {
                        lemma_views_push(self.skipped_downloads@, path);
                        lemma_push_within(
                            views(self.skipped_downloads@),
                            path@,
                            self@.plan.to_download,
                        );
                    }
                    self.skipped_downloads.push(path);
                    self.stage = Stage::Discard;
                } else {
                    self.fail("Download ", path.as_str(), e.as_str());
                }
            },
        }
    }

    /// Takes note that the local copy of a lost file has been dealt with.
    pub fn discarded(&mut self)
        requires
            old(self).wf(),
        ensures
            final(self).wf(),
            final(self)@.wf(),
            final(self)@ == if old(self)@.action() == Action::Discard {
                old(self)@.discarded()
            } else {
                old(self)@
            },
    {
        if self.failure.is_some() || self.stage != Stage::Discard {
            return ;
        }
        proof {
            self.lemma_in_range();
        }
        self.goto_download(self.index + 1);
    }

    /// Takes the outcome of an upload.
    pub fn uploaded(&mut self, outcome: Uploaded)
        requires
            old(self).wf(),
        ensures
            final(self).wf(),
            final(self)@.wf(),
            final(self)@ == if old(self)@.action() == Action::Upload {
                old(self)@.uploaded(outcome)
            } else {
                old(self)@
            },
    {
        if self.failure.is_some() || self.stage != Stage::Upload {
            return ;
        }
        proof {
            self.lemma_in_range();
        }
        let path = self.to_upload[self.index].clone();
        proof {
            assert(self@.plan.to_upload[self.index as int] == path@);
            assert(self@.plan.to_upload.contains(path@));
        }
        match outcome {
            Uploaded::Sent(n) => {
                self.bytes_uploaded = add_capped(self.bytes_uploaded, n);
                proof {
                    lemma_views_push(self.completed_uploads@, path);
                    lemma_push_within(views(self.completed_uploads@), path@, self@.plan.to_upload);
                }
                self.completed_uploads.push(path);
                self.goto_upload(self.index + 1);
            },
            Uploaded::Absent => {
                if !self.skipped_upload_set.contains(path.as_str()) {
                    proof {
                        lemma_views_push(self.skipped_uploads@, path);
                        views(self.skipped_uploads@).lemma_push_to_set_commute(path@);
                        lemma_push_within(views(self.skipped_uploads@), path@, self@.plan.to_upload);
                    }
                    self.skipped_upload_set.insert(path.clone());
                    self.skipped_uploads.push(path);
                }
                self.goto_upload(self.index + 1);
            },
            Uploaded::Failed(e) => {
                self.fail("Upload ", path.as_str(), e.as_str());
            },
        }
    }

    /// Ends the cycle. One that ran through is committed: the state to
    /// persist holds the verified paths, sorted, no downloaded paths, and
    /// the known hashes. One that failed hands back its error, and there is
    /// no new state.
    pub fn finish(self) -> (r: Result<SyncOutcome, String>)
        requires
            self.wf(),
            self@.action() == Action::Finish || self@.action() == Action::Abort,
        ensures
            match r {
                Err(e) => self@.failure == Some(e@),
                Ok(o) => {
                    &&& self@.failure is None
                    &&& strictly_sorted(views(o.state.paths@))
                    &&& o.state.synced() == new_synced(self@)
                    &&& o.state.downloaded_paths@.len() == 0
                    &&& o.state.hashes() == self@.hashes
                    &&& o.bytes_downloaded == self@.bytes_downloaded
                    &&& o.bytes_uploaded == self@.bytes_uploaded
                    &&& text_of(o.warning) == warning_text(
                        self@.skipped_downloads.len(),
                        self@.skipped_uploads.len(),
                    )
                },
            },
    {
        match self.failure {
            Some(e) => Err(e),
            None => Ok(
                commit(
                    &self.base_synced,
                    &self.completed_downloads,
                    &self.completed_uploads,
                    self.hash_log,
                    self.bytes_downloaded,
                    self.bytes_uploaded,
                    self.skipped_downloads.len(),
                    self.skipped_uploads.len(),
                ),
            ),
        }
    }
}

} // verus!
