//! The reconciler: from the last-synced paths, the local listing and the
//! remote listing it derives what one cycle deletes on either side, what it
//! downloads and what it uploads.

use vstd::prelude::*;
use vstd::hash_set::StringHashSet;
use crate::listing::{
    current, current_paths, entries, known_hash, listed_hash, listed_mtime, listed_paths, path_set, text_of, text_of_ref,
    Entry, FileItem, RemoteIndex,
};
use crate::paths::{ignored, is_ignored};
use crate::pathset::{
    build_set, by_depth, collect_missing, insert_sorted, lemma_by_depth, lemma_missing_from,
    lemma_views_push, missing_from, sort_by_depth, strictly_sorted, views,
};
use crate::state::{hash_map, HashEntry, SyncStateFile};

verus! {

/// More remote deletions than this, and more than there are local files,
/// and the cycle deletes nothing on the server.
pub const MASS_DELETE_LIMIT: usize = 50;

/// The paths of the entries that `keep` holds of, in listing order.
pub open spec fn selected(e: Seq<Entry>, keep: spec_fn(Entry) -> bool) -> Seq<Seq<char>>
    decreases e.len(),
{
    if e.len() == 0 {
        Seq::empty()
    } else {
        let r = selected(e.drop_last(), keep);
        if keep(e.last()) {
            r.push(e.last().path)
        } else {
            r
        }
    }
}

/// The server's hash is known and the local content has that hash.
pub open spec fn hash_matches(e: Entry, server: Option<Seq<char>>) -> bool {
    server is Some && e.hash == server
}

/// The synced paths that are gone locally and not ignored, each once.
pub open spec fn delete_remote_candidates(paths: Seq<Seq<char>>, local: Seq<Entry>) -> Seq<
    Seq<char>,
> {
    missing_from(paths, path_set(local))
}

/// The mass-delete guardrail: there are more than 50 candidates for remote
/// deletion, and more of them than there are local files that are not
/// ignored.
pub open spec fn guardrail_trips(paths: Seq<Seq<char>>, local: Seq<Entry>) -> bool {
    let n = delete_remote_candidates(paths, local).len();
    n > MASS_DELETE_LIMIT && n > current(local).len()
}

/// What the cycle deletes on the server, deepest first: the candidates, or
/// nothing where the guardrail trips.
pub open spec fn planned_remote_deletes(paths: Seq<Seq<char>>, local: Seq<Entry>) -> Seq<
    Seq<char>,
> {
    if guardrail_trips(paths, local) {
        Seq::empty()
    } else {
        by_depth(delete_remote_candidates(paths, local))
    }
}

/// What the cycle deletes locally, deepest first: the synced paths that the
/// server no longer lists and that are not ignored.
pub open spec fn planned_local_deletes(paths: Seq<Seq<char>>, remote: Seq<Entry>) -> Seq<
    Seq<char>,
> {
    by_depth(missing_from(paths, path_set(remote)))
}

/// A remote entry that has no local file, is not ignored and is not about
/// to be deleted on the server.
pub open spec fn is_remote_only(local: Set<Seq<char>>, doomed: Set<Seq<char>>) -> spec_fn(
    Entry,
) -> bool {
    |r: Entry| !local.contains(r.path) && !ignored(r.path) && !doomed.contains(r.path)
}

/// A local entry whose remote copy is newer by its stamp, unless the
/// server's known hash equals the local one.
pub open spec fn download_wanted(l: Entry, remote: Seq<Entry>) -> bool {
    &&& !ignored(l.path)
    &&& path_set(remote).contains(l.path)
    &&& listed_mtime(remote, l.path) > l.mtime
    &&& !hash_matches(l, known_hash(remote, l.path))
}

/// A local entry whose remote copy is newer by its stamp while the hashes
/// agree: nothing is transferred and the hash is recorded.
pub open spec fn hash_confirmed(l: Entry, remote: Seq<Entry>) -> bool {
    &&& !ignored(l.path)
    &&& path_set(remote).contains(l.path)
    &&& listed_mtime(remote, l.path) > l.mtime
    &&& hash_matches(l, known_hash(remote, l.path))
}

/// A local entry that goes to the server: the server does not list it, or
/// the local file is newer by its stamp and the listed hash does not equal
/// the local one.
pub open spec fn upload_wanted(l: Entry, remote: Seq<Entry>) -> bool {
    &&& !ignored(l.path)
    &&& (!path_set(remote).contains(l.path) || (!hash_matches(l, listed_hash(remote, l.path))
        && l.mtime > listed_mtime(remote, l.path)))
}

/// The test whether a local entry is downloaded, for a remote listing.
pub open spec fn is_stale(remote: Seq<Entry>) -> spec_fn(Entry) -> bool {
    |l: Entry| download_wanted(l, remote)
}

/// The test whether a local entry is uploaded, for a remote listing.
pub open spec fn is_upload(remote: Seq<Entry>) -> spec_fn(Entry) -> bool {
    |l: Entry| upload_wanted(l, remote)
}

/// The test whether a local entry is also on the server and not ignored.
pub open spec fn is_shared(remote: Set<Seq<char>>) -> spec_fn(Entry) -> bool {
    |l: Entry| remote.contains(l.path) && !ignored(l.path)
}

/// The paths the cycle downloads: the remote-only paths and the stale local
/// ones.
pub open spec fn planned_downloads(paths: Seq<Seq<char>>, local: Seq<Entry>, remote: Seq<Entry>) -> Set<
    Seq<char>,
> {
    selected(
        remote,
        is_remote_only(path_set(local), planned_remote_deletes(paths, local).to_set()),
    ).to_set() + selected(local, is_stale(remote)).to_set()
}

/// The paths the cycle uploads, in the order of the local listing.
pub open spec fn planned_uploads(local: Seq<Entry>, remote: Seq<Entry>) -> Seq<Seq<char>> {
    selected(local, is_upload(remote))
}

/// The paths that are on both sides once the deletions are done, ignored
/// paths left out.
pub open spec fn base_synced(paths: Seq<Seq<char>>, local: Seq<Entry>, remote: Seq<Entry>) -> Set<
    Seq<char>,
> {
    Set::new(
        |p: Seq<char>|
            {
                &&& path_set(local).contains(p)
                &&& !planned_local_deletes(paths, remote).contains(p)
                &&& path_set(remote).contains(p)
                &&& !planned_remote_deletes(paths, local).contains(p)
                &&& !ignored(p)
            },
    )
}

/// The known hashes after planning: those of the state, and the server's
/// hash for each local entry that it confirms.
pub open spec fn confirmed_hashes(
    hashes: Map<Seq<char>, Seq<char>>,
    local: Seq<Entry>,
    remote: Seq<Entry>,
) -> Map<Seq<char>, Seq<char>>
    decreases local.len(),
{
    if local.len() == 0 {
        hashes
    } else {
        let m = confirmed_hashes(hashes, local.drop_last(), remote);
        let l = local.last();
        if hash_confirmed(l, remote) {
            m.insert(l.path, known_hash(remote, l.path)->0)
        } else {
            m
        }
    }
}

/// The server's known hashes, by path.
pub open spec fn known_hashes(remote: Seq<Entry>) -> Map<Seq<char>, Seq<char>> {
    Map::new(
        |p: Seq<char>| known_hash(remote, p) is Some,
        |p: Seq<char>| known_hash(remote, p)->0,
    )
}

/// The plan of one cycle.
pub struct SyncPlan {
    /// Paths to delete on the server, deepest first.
    pub to_delete_remote: Vec<String>,
    /// Paths to delete locally, deepest first.
    pub to_delete_local: Vec<String>,
    /// Paths to download, sorted, each once.
    pub to_download: Vec<String>,
    /// Paths to upload, in the order of the local listing.
    pub to_upload: Vec<String>,
    /// Paths on both sides after the deletions, sorted, each once.
    pub base_synced: Vec<String>,
    /// The state's hashes followed by those confirmed while planning.
    pub file_hashes: Vec<HashEntry>,
    /// Whether the guardrail held the remote deletions back.
    pub guardrail_tripped: bool,
}

/// A plan as the contracts read it.
pub ghost struct PlanModel {
    pub to_delete_remote: Seq<Seq<char>>,
    pub to_delete_local: Seq<Seq<char>>,
    pub to_download: Seq<Seq<char>>,
    pub to_upload: Seq<Seq<char>>,
    pub base_synced: Seq<Seq<char>>,
    pub hashes: Map<Seq<char>, Seq<char>>,
    pub guardrail_tripped: bool,
}

impl View for SyncPlan {
    type V = PlanModel;

    open spec fn view(&self) -> PlanModel {
        PlanModel {
            to_delete_remote: views(self.to_delete_remote@),
            to_delete_local: views(self.to_delete_local@),
            to_download: views(self.to_download@),
            to_upload: views(self.to_upload@),
            base_synced: views(self.base_synced@),
            hashes: hash_map(self.file_hashes@),
            guardrail_tripped: self.guardrail_tripped,
        }
    }
}

impl PlanModel {
    /// The plan is the one that the reconciler derives from these inputs:
    /// the last-synced paths, the known hashes and the two listings.
    pub open spec fn realises(
        self,
        paths: Seq<Seq<char>>,
        hashes: Map<Seq<char>, Seq<char>>,
        local: Seq<Entry>,
        remote: Seq<Entry>,
    ) -> bool {
        &&& self.to_delete_remote == planned_remote_deletes(paths, local)
        &&& self.to_delete_local == planned_local_deletes(paths, remote)
        &&& strictly_sorted(self.to_download)
        &&& self.to_download.to_set() == planned_downloads(paths, local, remote)
        &&& self.to_upload == planned_uploads(local, remote)
        &&& strictly_sorted(self.base_synced)
        &&& self.base_synced.to_set() == base_synced(paths, local, remote)
        &&& self.hashes == confirmed_hashes(hashes, local, remote)
        &&& self.guardrail_tripped == guardrail_trips(paths, local)
    }
}

/// One more entry either adds its path to the selection or leaves it.
pub proof fn lemma_selected_step(e: Seq<Entry>, keep: spec_fn(Entry) -> bool, i: int)
    requires
        0 <= i < e.len(),
    ensures
        selected(e.take(i + 1), keep) == if keep(e[i]) {
            selected(e.take(i), keep).push(e[i].path)
        } else {
            selected(e.take(i), keep)
        },
{
    assert(e.take(i + 1).drop_last() =~= e.take(i));
    assert(e.take(i + 1).last() == e[i]);
}

/// A path is selected exactly when some entry with that path is kept.
pub proof fn lemma_selected(e: Seq<Entry>, keep: spec_fn(Entry) -> bool)
    ensures
        selected(e, keep).len() <= e.len(),
        forall|p: Seq<char>| #[trigger]
            selected(e, keep).contains(p) <==> exists|i: int|
                0 <= i < e.len() && (#[trigger] e[i]).path == p && keep(e[i]),
    decreases e.len(),
{
    let out = selected(e, keep);
    if e.len() > 0 {
        let rest = e.drop_last();
        let r = selected(rest, keep);
        lemma_selected(rest, keep);
        assert forall|p: Seq<char>| #[trigger]
            out.contains(p) <==> exists|i: int|
                0 <= i < e.len() && (#[trigger] e[i]).path == p && keep(e[i]) by {
            if out.contains(p) {
                let k = choose|k: int| 0 <= k < out.len() && out[k] == p;
                if k < r.len() {
                    assert(r[k] == p);
                    assert(r.contains(p));
                    let i = choose|i: int|
                        0 <= i < rest.len() && (#[trigger] rest[i]).path == p && keep(rest[i]);
                    assert(e[i].path == p && keep(e[i]));
                } else {
                    assert(e[e.len() - 1].path == p && keep(e[e.len() - 1]));
                }
            }
            if exists|i: int| 0 <= i < e.len() && (#[trigger] e[i]).path == p && keep(e[i]) {
                let i = choose|i: int| 0 <= i < e.len() && (#[trigger] e[i]).path == p && keep(e[i]);
                if i < rest.len() {
                    assert(rest[i].path == p && keep(rest[i]));
                    assert(r.contains(p));
                    let k = choose|k: int| 0 <= k < r.len() && r[k] == p;
                    assert(out[k] == p);
                } else {
                    assert(out[out.len() - 1] == p);
                }
            }
        }
    }
}

/// The shared paths of the two listings are the base of the synced set: no
/// planned deletion touches a path that both sides list.
pub proof fn lemma_shared_is_base(paths: Seq<Seq<char>>, local: Seq<Entry>, remote: Seq<Entry>)
    ensures
        selected(local, is_shared(path_set(remote))).to_set() == base_synced(paths, local, remote),
{
    let shared = selected(local, is_shared(path_set(remote)));
    lemma_selected(local, is_shared(path_set(remote)));
    lemma_missing_from(paths, path_set(local));
    lemma_missing_from(paths, path_set(remote));
    lemma_by_depth(missing_from(paths, path_set(local)));
    lemma_by_depth(missing_from(paths, path_set(remote)));
    assert forall|p: Seq<char>| shared.to_set().contains(p) <==> base_synced(
        paths,
        local,
        remote,
    ).contains(p) by {
        let dl = planned_local_deletes(paths, remote);
        let dr = planned_remote_deletes(paths, local);
        if dl.contains(p) {
            assert(dl.to_set().contains(p));
            assert(missing_from(paths, path_set(remote)).contains(p));
        }
        if dr.contains(p) {
            assert(dr.to_set().contains(p));
            assert(missing_from(paths, path_set(local)).contains(p));
        }
        if path_set(local).contains(p) && path_set(remote).contains(p) && !ignored(p) {
            let i = choose|i: int| 0 <= i < local.len() && (#[trigger] local[i]).path == p;
            assert(is_shared(path_set(remote))(local[i]));
        }
    }
    assert(shared.to_set() =~= base_synced(paths, local, remote));
}

/// Whether the server's hash is known and equals the local one.
fn same_hash(local: &Option<String>, server: Option<&String>) -> (r: bool)
    ensures
        r == (text_of_ref(server) is Some && text_of(*local) == text_of_ref(server)),
{
    match server {
        None => false,
        Some(s) => match local {
            None => false,
            Some(l) => *l == *s,
        },
    }
}

/// What the reconciler decides for one local entry.
struct Verdict {
    download: bool,
    confirmed: bool,
    upload: bool,
}

fn judge(l: &FileItem, remote: &Vec<FileItem>, idx: &RemoteIndex) -> (v: Verdict)
    requires
        idx.wf(),
        idx.listing() == entries(remote@),
    ensures
        v.download == download_wanted(l@, entries(remote@)),
        v.confirmed == hash_confirmed(l@, entries(remote@)),
        v.upload == upload_wanted(l@, entries(remote@)),
{
    if is_ignored(l.path.as_str()) {
        return Verdict { download: false, confirmed: false, upload: false };
    }
    match idx.lookup(remote, l.path.as_str()) {
        None => Verdict { download: false, confirmed: false, upload: true },
        Some(r) => {
            let newer_remote = r.mtime > l.mtime;
            let known_same = same_hash(&l.hash, idx.known_hash(l.path.as_str()));
            let listed_same = match &r.hash {
                Some(h) => same_hash(&l.hash, Some(h)),
                None => false,
            };
            Verdict {
                download: newer_remote && !known_same,
                confirmed: newer_remote && known_same,
                upload: !listed_same && l.mtime > r.mtime,
            }
        },
    }
}

/// Adds the remote-only paths to the sorted list `out`.
fn add_remote_only(
    out: &mut Vec<String>,
    remote: &Vec<FileItem>,
    local: &StringHashSet,
    doomed: &StringHashSet,
)
    requires
        strictly_sorted(views(old(out)@)),
    ensures
        strictly_sorted(views(final(out)@)),
        views(final(out)@).to_set() == views(old(out)@).to_set() + selected(
            entries(remote@),
            is_remote_only(local@, doomed@),
        ).to_set(),
{
    let ghost e = entries(remote@);
    let ghost keep = is_remote_only(local@, doomed@);
    let ghost start = views(out@).to_set();
    let mut i: usize = 0;
    assert(selected(e.take(0), keep).to_set() =~= Set::<Seq<char>>::empty());
    assert(start + Set::<Seq<char>>::empty() =~= start);
    while i < remote.len()
        invariant
            i <= remote.len(),
            e == entries(remote@),
            keep == is_remote_only(local@, doomed@),
            strictly_sorted(views(out@)),
            views(out@).to_set() == start + selected(e.take(i as int), keep).to_set(),
        decreases remote.len() - i,
    {
        let path = &remote[i].path;
        proof {
            lemma_selected_step(e, keep, i as int);
            selected(e.take(i as int), keep).lemma_push_to_set_commute(e[i as int].path);
        }
        if !local.contains(path.as_str()) && !is_ignored(path.as_str()) && !doomed.contains(
            path.as_str(),
        ) {
            insert_sorted(out, path.clone());
            assert(views(out@).to_set() =~= start + selected(e.take(i + 1), keep).to_set());
        }
        i += 1;
    }
    assert(e.take(remote.len() as int) =~= e);
}

/// Goes through the local listing: adds the stale paths to the sorted list
/// `downloads`, collects the uploads and the shared paths, and records the
/// confirmed hashes.
fn reconcile_local(
    local: &Vec<FileItem>,
    remote: &Vec<FileItem>,
    idx: &RemoteIndex,
    downloads: &mut Vec<String>,
    hashes: &mut Vec<HashEntry>,
) -> (r: (Vec<String>, Vec<String>))
    requires
        idx.wf(),
        idx.listing() == entries(remote@),
        strictly_sorted(views(old(downloads)@)),
    ensures
        strictly_sorted(views(final(downloads)@)),
        views(final(downloads)@).to_set() == views(old(downloads)@).to_set() + selected(
            entries(local@),
            is_stale(entries(remote@)),
        ).to_set(),
        hash_map(final(hashes)@) == confirmed_hashes(
            hash_map(old(hashes)@),
            entries(local@),
            entries(remote@),
        ),
        views(r.0@) == selected(entries(local@), is_upload(entries(remote@))),
        strictly_sorted(views(r.1@)),
        views(r.1@).to_set() == selected(
            entries(local@),
            is_shared(path_set(entries(remote@))),
        ).to_set(),
{
    let ghost l = entries(local@);
    let ghost e = entries(remote@);
    let ghost stale = is_stale(e);
    let ghost up = is_upload(e);
    let ghost both = is_shared(path_set(e));
    let ghost start = views(downloads@).to_set();
    let ghost known = hash_map(hashes@);
    let mut uploads: Vec<String> = Vec::new();
    let mut shared: Vec<String> = Vec::new();
    let mut i: usize = 0;
    proof {
        assert(selected(l.take(0), stale).to_set() =~= Set::<Seq<char>>::empty());
        assert(start + Set::<Seq<char>>::empty() =~= start);
        assert(views(uploads@) =~= selected(l.take(0), up));
        assert(views(shared@).to_set() =~= selected(l.take(0), both).to_set());
    }
    while i < local.len()
        invariant
            i <= local.len(),
            idx.wf(),
            idx.listing() == e,
            l == entries(local@),
            e == entries(remote@),
            stale == is_stale(e),
            up == is_upload(e),
            both == is_shared(path_set(e)),
            strictly_sorted(views(downloads@)),
            views(downloads@).to_set() == start + selected(l.take(i as int), stale).to_set(),
            hash_map(hashes@) == confirmed_hashes(known, l.take(i as int), e),
            views(uploads@) == selected(l.take(i as int), up),
            strictly_sorted(views(shared@)),
            views(shared@).to_set() == selected(l.take(i as int), both).to_set(),
        decreases local.len() - i,
    {
        let item = &local[i];
        let verdict = judge(item, remote, idx);
        proof {
            lemma_selected_step(l, stale, i as int);
            lemma_selected_step(l, up, i as int);
            lemma_selected_step(l, both, i as int);
            selected(l.take(i as int), stale).lemma_push_to_set_commute(l[i as int].path);
            selected(l.take(i as int), both).lemma_push_to_set_commute(l[i as int].path);
            assert(l.take(i + 1).drop_last() =~= l.take(i as int));
            assert(l.take(i + 1).last() == l[i as int]);
        }
        if verdict.download {
            insert_sorted(downloads, item.path.clone());
            assert(views(downloads@).to_set() =~= start + selected(l.take(i + 1), stale).to_set());
        }
        if verdict.confirmed {
            match idx.known_hash(item.path.as_str()) {
                Some(h) => {
                    let ghost before = hashes@;
                    hashes.push(HashEntry { path: item.path.clone(), hash: h.clone() });
                    assert(hashes@.drop_last() =~= before);
                },
                None => {},
            }
        }
        if verdict.upload {
            proof {
                lemma_views_push(uploads@, item.path);
            }
            uploads.push(item.path.clone());
        }
        if idx.contains(item.path.as_str()) && !is_ignored(item.path.as_str()) {
            insert_sorted(&mut shared, item.path.clone());
        }
        i += 1;
    }
    assert(l.take(local.len() as int) =~= l);
    (uploads, shared)
}

/// Plans one cycle from the state of the previous one and the two listings.
pub fn build_plan(state: &SyncStateFile, local: &Vec<FileItem>, remote: &Vec<FileItem>) -> (plan:
    SyncPlan)
    ensures
        plan@.realises(views(state.paths@), state.hashes(), entries(local@), entries(remote@)),
{
    let ghost paths = views(state.paths@);
    let ghost l = entries(local@);
    let ghost e = entries(remote@);
    let local_set = listed_paths(local);
    let remote_set = listed_paths(remote);
    let idx = RemoteIndex::build(remote);

    let candidates = collect_missing(&state.paths, &local_set);
    let local_count = current_paths(local).len();
    let tripped = candidates.len() > MASS_DELETE_LIMIT && candidates.len() > local_count;
    let to_delete_remote = if tripped {
        Vec::new()
    } else {
        sort_by_depth(&candidates)
    };
    assert(views(to_delete_remote@) =~= planned_remote_deletes(paths, l));
    let gone_remote = collect_missing(&state.paths, &remote_set);
    let to_delete_local = sort_by_depth(&gone_remote);

    let doomed = build_set(&to_delete_remote);
    let mut to_download: Vec<String> = Vec::new();
    assert(views(to_download@).to_set() =~= Set::<Seq<char>>::empty());
    add_remote_only(&mut to_download, remote, &local_set, &doomed);
    let mut file_hashes = clone_hashes(&state.file_hashes);
    let lists = reconcile_local(local, remote, &idx, &mut to_download, &mut file_hashes);
    proof {
        lemma_shared_is_base(paths, l, e);
        assert(views(to_download@).to_set() =~= planned_downloads(paths, l, e));
    }
    SyncPlan {
        to_delete_remote,
        to_delete_local,
        to_download,
        to_upload: lists.0,
        base_synced: lists.1,
        file_hashes,
        guardrail_tripped: tripped,
    }
}

/// A copy of a list of hash entries.
pub fn clone_hashes(list: &Vec<HashEntry>) -> (out: Vec<HashEntry>)
    ensures
        out@.len() == list@.len(),
        forall|i: int|
            0 <= i < list@.len() ==> (#[trigger] out@[i]).path@ == list@[i].path@ && out@[i].hash@
                == list@[i].hash@,
        hash_map(out@) == hash_map(list@),
{
    let mut out: Vec<HashEntry> = Vec::new();
    let mut i: usize = 0;
    while i < list.len()
        invariant
            i <= list.len(),
            out@.len() == i,
            forall|k: int|
                0 <= k < i ==> (#[trigger] out@[k]).path@ == list@[k].path@ && out@[k].hash@
                    == list@[k].hash@,
            hash_map(out@) == hash_map(list@.take(i as int)),
        decreases list.len() - i,
    {
        let ghost before = out@;
        out.push(HashEntry { path: list[i].path.clone(), hash: list[i].hash.clone() });
        proof {
            assert(out@.drop_last() =~= before);
            assert(list@.take(i + 1).drop_last() =~= list@.take(i as int));
        }
        i += 1;
    }
    assert(list@.take(list.len() as int) =~= list@);
    out
}

} // verus!
