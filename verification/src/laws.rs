//! What holds of every plan and of every cycle: the synced set lies on both
//! sides, ignored names stay out, no path is deleted and transferred at
//! once, equal content is not transferred, a settled pair of sides needs
//! no transfer, the guardrail stops every remote deletion, every cycle
//! comes to an end, and only verified hashes are recorded.

use vstd::prelude::*;
use crate::executor::{new_synced, Action, CycleModel, Downloaded, Stage, Uploaded};
use crate::listing::{
    current, known_hash, last_hashed, last_index, lemma_path_set, listed_hash, listed_mtime, path_set,
    Entry,
};
use crate::paths::{ignored, last_separator, parent};
use crate::pathset::{lemma_by_depth, lemma_missing_from, missing_from, strictly_sorted};
use crate::text::{lemma_lex_total, lex_lt};
use crate::plan::{
    confirmed_hashes, delete_remote_candidates, download_wanted, guardrail_trips, hash_confirmed,
    hash_matches, is_remote_only, is_stale, is_upload, lemma_selected, planned_remote_deletes,
    selected, upload_wanted, PlanModel,
};

verus! {

/// What lies in the planned lists, path by path.
pub proof fn lemma_plan_members(
    plan: PlanModel,
    paths: Seq<Seq<char>>,
    hashes: Map<Seq<char>, Seq<char>>,
    local: Seq<Entry>,
    remote: Seq<Entry>,
)
    requires
        plan.realises(paths, hashes, local, remote),
    ensures
        forall|p: Seq<char>| #[trigger]
            plan.to_delete_remote.contains(p) <==> (!guardrail_trips(paths, local)
                && paths.contains(p) && !path_set(local).contains(p) && !ignored(p)),
        forall|p: Seq<char>| #[trigger]
            plan.to_delete_local.contains(p) <==> (paths.contains(p) && !path_set(
                remote,
            ).contains(p) && !ignored(p)),
        forall|p: Seq<char>| #[trigger]
            plan.to_download.contains(p) <==> ((path_set(remote).contains(p) && !path_set(
                local,
            ).contains(p) && !ignored(p) && !plan.to_delete_remote.contains(p)) || exists|i: int|
                0 <= i < local.len() && (#[trigger] local[i]).path == p && download_wanted(
                    local[i],
                    remote,
                )),
        forall|p: Seq<char>| #[trigger]
            plan.to_upload.contains(p) <==> exists|i: int|
                0 <= i < local.len() && (#[trigger] local[i]).path == p && upload_wanted(
                    local[i],
                    remote,
                ),
        forall|p: Seq<char>| #[trigger]
            plan.base_synced.contains(p) <==> (path_set(local).contains(p) && path_set(
                remote,
            ).contains(p) && !ignored(p)),
        plan.to_delete_remote.no_duplicates(),
        plan.to_delete_local.no_duplicates(),
{
    let cand = delete_remote_candidates(paths, local);
    let gone = missing_from(paths, path_set(remote));
    lemma_missing_from(paths, path_set(local));
    lemma_missing_from(paths, path_set(remote));
    lemma_by_depth(cand);
    lemma_by_depth(gone);
    let doomed = planned_remote_deletes(paths, local).to_set();
    let only = is_remote_only(path_set(local), doomed);
    lemma_selected(remote, only);
    lemma_selected(local, is_stale(remote));
    lemma_selected(local, is_upload(remote));
    assert forall|p: Seq<char>| #[trigger]
        plan.to_delete_remote.contains(p) <==> (!guardrail_trips(paths, local) && paths.contains(p)
            && !path_set(local).contains(p) && !ignored(p)) by {
        if !guardrail_trips(paths, local) {
            assert(plan.to_delete_remote.to_set().contains(p) <==> cand.to_set().contains(p));
        }
    }
    assert forall|p: Seq<char>| #[trigger]
        plan.to_delete_local.contains(p) <==> (paths.contains(p) && !path_set(remote).contains(
            p,
        ) && !ignored(p)) by {
        assert(plan.to_delete_local.to_set().contains(p) <==> gone.to_set().contains(p));
    }
    assert forall|p: Seq<char>| #[trigger]
        plan.to_download.contains(p) <==> ((path_set(remote).contains(p) && !path_set(
            local,
        ).contains(p) && !ignored(p) && !plan.to_delete_remote.contains(p)) || exists|i: int|
            0 <= i < local.len() && (#[trigger] local[i]).path == p && download_wanted(
                local[i],
                remote,
            )) by {
        assert(plan.to_download.to_set().contains(p) <==> (selected(remote, only).contains(p)
            || selected(local, is_stale(remote)).contains(p)));
        if selected(remote, only).contains(p) {
            let i = choose|i: int|
                0 <= i < remote.len() && (#[trigger] remote[i]).path == p && only(remote[i]);
            assert(!doomed.contains(p));
        }
        if path_set(remote).contains(p) && !path_set(local).contains(p) && !ignored(p)
            && !plan.to_delete_remote.contains(p) {
            let i = choose|i: int| 0 <= i < remote.len() && (#[trigger] remote[i]).path == p;
            assert(!doomed.contains(p));
            assert(only(remote[i]));
        }
        if selected(local, is_stale(remote)).contains(p) {
            let i = choose|i: int|
                0 <= i < local.len() && (#[trigger] local[i]).path == p && is_stale(remote)(
                    local[i],
                );
            assert(download_wanted(local[i], remote));
        }
        if exists|i: int|
            0 <= i < local.len() && (#[trigger] local[i]).path == p && download_wanted(
                local[i],
                remote,
            ) {
            let i = choose|i: int|
                0 <= i < local.len() && (#[trigger] local[i]).path == p && download_wanted(
                    local[i],
                    remote,
                );
            assert(is_stale(remote)(local[i]));
        }
    }
    assert forall|p: Seq<char>| #[trigger]
        plan.to_upload.contains(p) <==> exists|i: int|
            0 <= i < local.len() && (#[trigger] local[i]).path == p && upload_wanted(
                local[i],
                remote,
            ) by {
        if plan.to_upload.contains(p) {
            let i = choose|i: int|
                0 <= i < local.len() && (#[trigger] local[i]).path == p && is_upload(remote)(
                    local[i],
                );
            assert(upload_wanted(local[i], remote));
        }
        if exists|i: int|
            0 <= i < local.len() && (#[trigger] local[i]).path == p && upload_wanted(
                local[i],
                remote,
            ) {
            let i = choose|i: int|
                0 <= i < local.len() && (#[trigger] local[i]).path == p && upload_wanted(
                    local[i],
                    remote,
                );
            assert(is_upload(remote)(local[i]));
        }
    }
    assert forall|p: Seq<char>| #[trigger]
        plan.base_synced.contains(p) <==> (path_set(local).contains(p) && path_set(
            remote,
        ).contains(p) && !ignored(p)) by {
        assert(plan.base_synced.to_set().contains(p) <==> plan.base_synced.contains(p));
    }
}

/// Ignored names stay out of the plan. No ignored path is deleted on the
/// server, deleted locally, downloaded, uploaded or counted as in sync.
pub proof fn lemma_plan_leaves_ignored_out(
    plan: PlanModel,
    paths: Seq<Seq<char>>,
    hashes: Map<Seq<char>, Seq<char>>,
    local: Seq<Entry>,
    remote: Seq<Entry>,
)
    requires
        plan.realises(paths, hashes, local, remote),
    ensures
        forall|p: Seq<char>|
            ignored(p) ==> !plan.to_delete_remote.contains(p) && !plan.to_delete_local.contains(p)
                && !plan.to_download.contains(p) && !plan.to_upload.contains(p)
                && !plan.base_synced.contains(p),
{
    lemma_plan_members(plan, paths, hashes, local, remote);
}

/// Ignored names stay out of the synced set that a cycle commits.
pub proof fn lemma_synced_leaves_ignored_out(
    m: CycleModel,
    paths: Seq<Seq<char>>,
    hashes: Map<Seq<char>, Seq<char>>,
    local: Seq<Entry>,
    remote: Seq<Entry>,
)
    requires
        m.wf(),
        m.plan.realises(paths, hashes, local, remote),
    ensures
        forall|p: Seq<char>| new_synced(m).contains(p) ==> !ignored(p),
{
    lemma_plan_members(m.plan, paths, hashes, local, remote);
    assert forall|p: Seq<char>| new_synced(m).contains(p) implies !ignored(p) by {
        if m.completed_downloads.contains(p) {
            assert(m.plan.to_download.contains(p));
        }
        if m.completed_uploads.contains(p) {
            assert(m.plan.to_upload.contains(p));
        }
    }
}

/// No path is deleted on one side and transferred in the same cycle: a
/// path deleted on the server is neither downloaded nor uploaded, and a
/// path deleted locally is not downloaded.
pub proof fn lemma_deletions_exclude_transfers(
    plan: PlanModel,
    paths: Seq<Seq<char>>,
    hashes: Map<Seq<char>, Seq<char>>,
    local: Seq<Entry>,
    remote: Seq<Entry>,
)
    requires
        plan.realises(paths, hashes, local, remote),
    ensures
        forall|p: Seq<char>| !(plan.to_delete_remote.contains(p) && plan.to_download.contains(p)),
        forall|p: Seq<char>| !(plan.to_delete_remote.contains(p) && plan.to_upload.contains(p)),
        forall|p: Seq<char>| !(plan.to_delete_local.contains(p) && plan.to_download.contains(p)),
{
    lemma_plan_members(plan, paths, hashes, local, remote);
    assert forall|p: Seq<char>| plan.to_upload.contains(p) implies path_set(local).contains(p) by {
        let i = choose|i: int|
            0 <= i < local.len() && (#[trigger] local[i]).path == p && upload_wanted(
                local[i],
                remote,
            );
    }
}

/// A path is both deleted locally and uploaded exactly when it was in
/// sync, is still there locally, is not ignored, and the server no longer
/// lists it. Where no such path exists, no local deletion is also an
/// upload.
pub proof fn lemma_local_deletions_and_uploads(
    plan: PlanModel,
    paths: Seq<Seq<char>>,
    hashes: Map<Seq<char>, Seq<char>>,
    local: Seq<Entry>,
    remote: Seq<Entry>,
)
    requires
        plan.realises(paths, hashes, local, remote),
    ensures
        forall|p: Seq<char>|
            (plan.to_delete_local.contains(p) && plan.to_upload.contains(p)) <==> (paths.contains(
                p,
            ) && path_set(local).contains(p) && !ignored(p) && !path_set(remote).contains(p)),
        (forall|p: Seq<char>|
            paths.contains(p) && path_set(local).contains(p) && !ignored(p) ==> path_set(
                remote,
            ).contains(p)) ==> forall|p: Seq<char>|
            !(plan.to_delete_local.contains(p) && plan.to_upload.contains(p)),
{
    lemma_plan_members(plan, paths, hashes, local, remote);
    assert forall|p: Seq<char>|
        (plan.to_delete_local.contains(p) && plan.to_upload.contains(p)) <==> (paths.contains(p)
            && path_set(local).contains(p) && !ignored(p) && !path_set(remote).contains(p)) by {
        if plan.to_upload.contains(p) {
            let i = choose|i: int|
                0 <= i < local.len() && (#[trigger] local[i]).path == p && upload_wanted(
                    local[i],
                    remote,
                );
        }
        if paths.contains(p) && path_set(local).contains(p) && !ignored(p) && !path_set(
            remote,
        ).contains(p) {
            let i = choose|i: int| 0 <= i < local.len() && (#[trigger] local[i]).path == p;
            assert(upload_wanted(local[i], remote));
        }
    }
}

/// Equal content is not transferred. Where the server's listing gives the
/// hash `h` for a path and every local entry for the path has that hash,
/// the path is neither downloaded nor uploaded, whatever the stamps say.
pub proof fn lemma_equal_content_is_not_transferred(
    plan: PlanModel,
    paths: Seq<Seq<char>>,
    hashes: Map<Seq<char>, Seq<char>>,
    local: Seq<Entry>,
    remote: Seq<Entry>,
    p: Seq<char>,
    h: Seq<char>,
)
    requires
        plan.realises(paths, hashes, local, remote),
        path_set(local).contains(p),
        forall|i: int| 0 <= i < local.len() && (#[trigger] local[i]).path == p ==> local[i].hash
            == Some(h),
        listed_hash(remote, p) == Some(h),
    ensures
        !plan.to_download.contains(p),
        !plan.to_upload.contains(p),
{
    lemma_plan_members(plan, paths, hashes, local, remote);
    lemma_listed_hash_is_known(remote, p, remote.len() as int);
    lemma_path_set(remote, p);
    if plan.to_download.contains(p) {
        let i = choose|i: int|
            0 <= i < local.len() && (#[trigger] local[i]).path == p && download_wanted(
                local[i],
                remote,
            );
        assert(hash_matches(local[i], known_hash(remote, p)));
    }
    if plan.to_upload.contains(p) {
        let i = choose|i: int|
            0 <= i < local.len() && (#[trigger] local[i]).path == p && upload_wanted(
                local[i],
                remote,
            );
        assert(hash_matches(local[i], listed_hash(remote, p)));
    }
}

/// Where the last entry for a path carries a hash, that entry is also the
/// last one for the path that carries a hash.
pub proof fn lemma_listed_hash_is_known(e: Seq<Entry>, p: Seq<char>, n: int)
    requires
        0 <= n <= e.len(),
        last_index(e, p, n) >= 0,
        e[last_index(e, p, n)].hash is Some,
    ensures
        last_hashed(e, p, n) == last_index(e, p, n),
    decreases n,
{
    if n > 0 && e[n - 1].path != p {
        lemma_listed_hash_is_known(e, p, n - 1);
    }
}

/// A second cycle transfers nothing. Where every last-synced path is still
/// on both sides, every path that is not ignored is on both sides or on
/// neither, and every local file either has the hash that the server lists
/// for it or has the server's stamp, the plan deletes nothing, downloads
/// nothing and uploads nothing.
pub proof fn lemma_settled_sides_need_no_transfer(
    plan: PlanModel,
    paths: Seq<Seq<char>>,
    hashes: Map<Seq<char>, Seq<char>>,
    local: Seq<Entry>,
    remote: Seq<Entry>,
)
    requires
        plan.realises(paths, hashes, local, remote),
        forall|p: Seq<char>|
            paths.contains(p) ==> path_set(local).contains(p) && path_set(remote).contains(p),
        forall|p: Seq<char>|
            !ignored(p) ==> (path_set(local).contains(p) <==> path_set(remote).contains(p)),
        forall|i: int|
            0 <= i < local.len() ==> hash_matches(
                #[trigger] local[i],
                listed_hash(remote, local[i].path),
            ) || local[i].mtime == listed_mtime(remote, local[i].path),
    ensures
        plan.to_delete_remote.len() == 0,
        plan.to_delete_local.len() == 0,
        plan.to_download.len() == 0,
        plan.to_upload.len() == 0,
{
    lemma_plan_members(plan, paths, hashes, local, remote);
    assert forall|p: Seq<char>| !plan.to_delete_remote.contains(p) by {}
    assert forall|p: Seq<char>| !plan.to_delete_local.contains(p) by {}
    assert forall|p: Seq<char>| !plan.to_download.contains(p) by {
        if plan.to_download.contains(p) {
            if exists|i: int|
                0 <= i < local.len() && (#[trigger] local[i]).path == p && download_wanted(
                    local[i],
                    remote,
                ) {
                let i = choose|i: int|
                    0 <= i < local.len() && (#[trigger] local[i]).path == p && download_wanted(
                        local[i],
                        remote,
                    );
                lemma_path_set(remote, p);
                if hash_matches(local[i], listed_hash(remote, p)) {
                    lemma_listed_hash_is_known(remote, p, remote.len() as int);
                }
            }
        }
    }
    assert forall|p: Seq<char>| !plan.to_upload.contains(p) by {
        if plan.to_upload.contains(p) {
            let i = choose|i: int|
                0 <= i < local.len() && (#[trigger] local[i]).path == p && upload_wanted(
                    local[i],
                    remote,
                );
            assert(path_set(local).contains(p));
        }
    }
    lemma_empty(plan.to_delete_remote);
    lemma_empty(plan.to_delete_local);
    lemma_empty(plan.to_download);
    lemma_empty(plan.to_upload);
}

proof fn lemma_empty(s: Seq<Seq<char>>)
    requires
        forall|p: Seq<char>| !s.contains(p),
    ensures
        s.len() == 0,
{
    if s.len() > 0 {
        assert(s.contains(s[0]));
    }
}

/// The guardrail stops every remote deletion. Where the candidates for
/// remote deletion are more than 50 and more than the local files that are
/// not ignored, the plan deletes nothing on the server, and a cycle on that
/// plan never asks for a remote deletion.
pub proof fn lemma_guardrail_stops_remote_deletes(
    m: CycleModel,
    paths: Seq<Seq<char>>,
    hashes: Map<Seq<char>, Seq<char>>,
    local: Seq<Entry>,
    remote: Seq<Entry>,
)
    requires
        m.wf(),
        m.plan.realises(paths, hashes, local, remote),
        delete_remote_candidates(paths, local).len() > 50,
        delete_remote_candidates(paths, local).len() > current(local).len(),
    ensures
        m.plan.guardrail_tripped,
        m.plan.to_delete_remote.len() == 0,
        m.action() != Action::DeleteRemote,
{
}

/// A remote deletion is only ever asked for a path that the plan deletes
/// on the server, and every other operation for a path of its own list.
pub proof fn lemma_steps_follow_the_plan(m: CycleModel)
    requires
        m.wf(),
    ensures
        m.action() == Action::DeleteRemote ==> m.plan.to_delete_remote.contains(m.subject()),
        m.action() == Action::DeleteLocal ==> m.plan.to_delete_local.contains(m.subject()),
        m.action() == Action::Probe || m.action() == Action::Download || m.action()
            == Action::Discard ==> m.plan.to_download.contains(m.subject()),
        m.action() == Action::Upload ==> m.plan.to_upload.contains(m.subject()),
{
    if m.stage != Stage::Finished {
        assert(m.items()[m.index] == m.path());
    }
}

/// No operation on a file is asked for an ignored path: none is deleted on
/// either side, probed, downloaded, discarded or uploaded.
pub proof fn lemma_steps_leave_ignored_alone(
    m: CycleModel,
    paths: Seq<Seq<char>>,
    hashes: Map<Seq<char>, Seq<char>>,
    local: Seq<Entry>,
    remote: Seq<Entry>,
)
    requires
        m.wf(),
        m.plan.realises(paths, hashes, local, remote),
    ensures
        m.action() == Action::DeleteRemote || m.action() == Action::DeleteLocal || m.action()
            == Action::Probe || m.action() == Action::Download || m.action() == Action::Discard
            || m.action() == Action::Upload ==> !ignored(m.subject()),
{
    lemma_steps_follow_the_plan(m);
    lemma_plan_leaves_ignored_out(m.plan, paths, hashes, local, remote);
}

/// No step changes the plan.
pub proof fn lemma_plan_is_kept(
    m: CycleModel,
    error: Option<Seq<char>>,
    flag: bool,
    down: Downloaded,
    up: Uploaded,
)
    ensures
        m.remote_deleted(error).plan == m.plan,
        m.local_deleted(flag).plan == m.plan,
        m.dir_removed(flag).plan == m.plan,
        m.probed(flag).plan == m.plan,
        m.downloaded(down).plan == m.plan,
        m.discarded().plan == m.plan,
        m.uploaded(up).plan == m.plan,
{
}

/// The local files after the cycle, as far as the cycle can tell: those
/// listed and not deleted, those a download wrote, and those an upload read.
pub open spec fn local_after(local: Seq<Entry>, m: CycleModel) -> Set<Seq<char>> {
    path_set(local).difference(m.plan.to_delete_local.to_set()) + m.completed_downloads.to_set()
        + m.completed_uploads.to_set()
}

/// The files on the server after the cycle, as far as the cycle can tell:
/// those listed and not deleted, and those an upload stored.
pub open spec fn remote_after(remote: Seq<Entry>, m: CycleModel) -> Set<Seq<char>> {
    path_set(remote).difference(m.plan.to_delete_remote.to_set()) + m.completed_uploads.to_set()
}

/// The synced set lies on both sides. Every path that a cycle commits as
/// in sync is among the local files and among the server's files after the
/// cycle.
pub proof fn lemma_synced_lies_on_both_sides(
    m: CycleModel,
    paths: Seq<Seq<char>>,
    hashes: Map<Seq<char>, Seq<char>>,
    local: Seq<Entry>,
    remote: Seq<Entry>,
)
    requires
        m.wf(),
        m.plan.realises(paths, hashes, local, remote),
    ensures
        new_synced(m).subset_of(local_after(local, m)),
        new_synced(m).subset_of(remote_after(remote, m)),
{
    lemma_plan_members(m.plan, paths, hashes, local, remote);
    assert forall|p: Seq<char>| new_synced(m).contains(p) implies local_after(local, m).contains(
        p,
    ) && remote_after(remote, m).contains(p) by {
        if m.plan.base_synced.contains(p) {
            assert(!m.plan.to_delete_local.contains(p));
            assert(!m.plan.to_delete_remote.contains(p));
        }
        if m.completed_downloads.contains(p) {
            assert(m.plan.to_download.contains(p));
            if exists|i: int|
                0 <= i < local.len() && (#[trigger] local[i]).path == p && download_wanted(
                    local[i],
                    remote,
                ) {
                let i = choose|i: int|
                    0 <= i < local.len() && (#[trigger] local[i]).path == p && download_wanted(
                        local[i],
                        remote,
                    );
                assert(path_set(local).contains(p));
            }
            assert(path_set(remote).contains(p));
            assert(!m.plan.to_delete_remote.contains(p));
        }
    }
}

/// How many items a cycle has behind it: every item once the cycle has
/// finished.
pub open spec fn position(m: CycleModel) -> int {
    if m.stage == Stage::Finished {
        (m.plan.to_delete_remote.len() + m.plan.to_delete_local.len()
            + m.plan.to_download.len() + m.plan.to_upload.len()) as int
    } else {
        m.done()
    }
}

/// How many operations the current item can still take at most.
pub open spec fn steps_left(m: CycleModel) -> int {
    match m.stage {
        Stage::DeleteRemote | Stage::Upload | Stage::Discard => 1,
        Stage::DeleteLocal => (m.path().len() + 2) as int,
        Stage::Prune => (m.dir.len() + 1) as int,
        Stage::Probe => 3,
        Stage::Download => 2,
        Stage::Finished => 0,
    }
}

/// `after` is further on than `before`: it has failed, or it has more
/// items behind it, or it is at the same item with fewer operations left.
pub open spec fn further(before: CycleModel, after: CycleModel) -> bool {
    ||| after.failure is Some
    ||| position(after) > position(before)
    ||| (position(after) == position(before) && 0 <= steps_left(after) < steps_left(before))
}

/// Every cycle comes to an end: each outcome that the host hands in takes
/// the cycle further, and no item takes more operations than its path is
/// long, so after finitely many operations the cycle has finished or
/// failed.
pub proof fn lemma_every_step_advances(
    m: CycleModel,
    error: Option<Seq<char>>,
    flag: bool,
    down: Downloaded,
    up: Uploaded,
)
    requires
        m.wf(),
        m.failure is None,
    ensures
        0 <= position(m) <= m.plan.to_delete_remote.len() + m.plan.to_delete_local.len()
            + m.plan.to_download.len() + m.plan.to_upload.len(),
        m.action() == Action::DeleteRemote ==> further(m, m.remote_deleted(error)),
        m.action() == Action::DeleteLocal ==> further(m, m.local_deleted(flag)),
        m.action() == Action::RemoveDir ==> further(m, m.dir_removed(flag)),
        m.action() == Action::Probe ==> further(m, m.probed(flag)),
        m.action() == Action::Download ==> further(m, m.downloaded(down)),
        m.action() == Action::Discard ==> further(m, m.discarded()),
        m.action() == Action::Upload ==> further(m, m.uploaded(up)),
{
    if m.stage == Stage::DeleteLocal {
        lemma_parent_is_shorter(m.path());
    }
    if m.stage == Stage::Prune {
        lemma_parent_is_shorter(m.dir);
    }
}

/// The directory that holds a path has a shorter name than the path.
pub proof fn lemma_parent_is_shorter(p: Seq<char>)
    ensures
        parent(p) is Some ==> parent(p)->0.len() < p.len(),
{
    lemma_last_separator(p, p.len() as int);
}

proof fn lemma_last_separator(p: Seq<char>, end: int)
    requires
        0 <= end <= p.len(),
    ensures
        -1 <= last_separator(p, end) < end,
    decreases end,
{
    if end > 0 && p[end - 1] != '/' {
        lemma_last_separator(p, end - 1);
    }
}

/// A sorted list without repetition is determined by the set of its
/// elements: two strictly sorted lists of the same paths are the same list.
pub proof fn lemma_sorted_list_is_unique(a: Seq<Seq<char>>, b: Seq<Seq<char>>)
    requires
        strictly_sorted(a),
        strictly_sorted(b),
        a.to_set() == b.to_set(),
    ensures
        a == b,
    decreases a.len(),
{
    if a.len() == 0 {
        if b.len() > 0 {
            assert(b.to_set().contains(b[0]));
            assert(a.contains(b[0]));
        }
        assert(a =~= b);
    } else {
        assert(a.to_set().contains(a.last()));
        assert(b.contains(a.last()));
        let k = choose|k: int| 0 <= k < b.len() && b[k] == a.last();
        assert(b.to_set().contains(b.last()));
        assert(a.contains(b.last()));
        let j = choose|j: int| 0 <= j < a.len() && a[j] == b.last();
        if j < a.len() - 1 && k < b.len() - 1 {
            assert(lex_lt(a[j], a[a.len() - 1]));
            assert(lex_lt(b[k], b[b.len() - 1]));
            lemma_lex_total(a.last(), b.last());
        }
        assert(a.last() == b.last()) by {
            if j < a.len() - 1 {
                assert(lex_lt(a[j], a[a.len() - 1]));
                if k < b.len() - 1 {
                } else {
                    assert(b[k] == b.last());
                }
            }
        }
        let a0 = a.drop_last();
        let b0 = b.drop_last();
        assert forall|p: Seq<char>| a0.to_set().contains(p) <==> b0.to_set().contains(p) by {
            if a0.contains(p) {
                let i = choose|i: int| 0 <= i < a0.len() && a0[i] == p;
                assert(lex_lt(a[i], a[a.len() - 1]));
                lemma_lex_total(p, a.last());
                assert(a.to_set().contains(a[i]));
                assert(b.contains(p));
                let i2 = choose|i2: int| 0 <= i2 < b.len() && b[i2] == p;
                assert(b0[i2] == p);
            }
            if b0.contains(p) {
                let i = choose|i: int| 0 <= i < b0.len() && b0[i] == p;
                assert(lex_lt(b[i], b[b.len() - 1]));
                lemma_lex_total(p, b.last());
                assert(b.to_set().contains(b[i]));
                assert(a.contains(p));
                let i2 = choose|i2: int| 0 <= i2 < a.len() && a[i2] == p;
                assert(a0[i2] == p);
            }
        }
        assert(a0.to_set() =~= b0.to_set());
        assert(strictly_sorted(a0)) by {
            assert forall|i: int, j: int| 0 <= i < j < a0.len() implies lex_lt(
                #[trigger] a0[i],
                #[trigger] a0[j],
            ) by {
                assert(lex_lt(a[i], a[j]));
            }
        }
        assert(strictly_sorted(b0)) by {
            assert forall|i: int, j: int| 0 <= i < j < b0.len() implies lex_lt(
                #[trigger] b0[i],
                #[trigger] b0[j],
            ) by {
                assert(lex_lt(b[i], b[j]));
            }
        }
        lemma_sorted_list_is_unique(a0, b0);
        assert(a =~= a0.push(a.last()));
        assert(b =~= b0.push(b.last()));
    }
}

/// A recorded hash is a verified one. Each hash that the plan holds was
/// in the state before, or is the server's hash for the path and the hash
/// of a local file at that path.
pub proof fn lemma_planned_hashes_are_verified(
    hashes: Map<Seq<char>, Seq<char>>,
    local: Seq<Entry>,
    remote: Seq<Entry>,
    p: Seq<char>,
)
    requires
        confirmed_hashes(hashes, local, remote).contains_key(p),
    ensures
        (hashes.contains_key(p) && confirmed_hashes(hashes, local, remote)[p] == hashes[p]) || (
        known_hash(remote, p) == Some(confirmed_hashes(hashes, local, remote)[p]) && exists|i: int|
            0 <= i < local.len() && (#[trigger] local[i]).path == p && local[i].hash == Some(
                confirmed_hashes(hashes, local, remote)[p],
            )),
    decreases local.len(),
{
    if local.len() > 0 {
        let rest = local.drop_last();
        let l = local.last();
        if hash_confirmed(l, remote) && l.path == p {
            assert(local[local.len() - 1].path == p);
        } else {
            assert(confirmed_hashes(hashes, rest, remote).contains_key(p));
            lemma_planned_hashes_are_verified(hashes, rest, remote, p);
            if exists|i: int|
                0 <= i < rest.len() && (#[trigger] rest[i]).path == p && rest[i].hash == Some(
                    confirmed_hashes(hashes, rest, remote)[p],
                ) {
                let i = choose|i: int|
                    0 <= i < rest.len() && (#[trigger] rest[i]).path == p && rest[i].hash == Some(
                        confirmed_hashes(hashes, rest, remote)[p],
                    );
                assert(local[i].path == p);
            }
        }
    }
}

/// A hash is recorded while the cycle runs only for a completed download,
/// and it is the server's hash for that path.
pub proof fn lemma_recorded_hash_is_of_a_download(m: CycleModel, outcome: Downloaded, p: Seq<char>)
    requires
        m.wf(),
        m.action() == Action::Download,
        m.downloaded(outcome).hashes.contains_key(p),
    ensures
        (m.hashes.contains_key(p) && m.downloaded(outcome).hashes[p] == m.hashes[p]) || (
        outcome is Stored && p == m.path() && m.known.contains_key(p) && m.downloaded(
            outcome,
        ).hashes[p] == m.known[p] && m.downloaded(outcome).completed_downloads.contains(p)),
{
    if outcome is Stored && p == m.path() && m.known.contains_key(p) {
        assert(m.completed_downloads.push(p)[m.completed_downloads.len() as int] == p);
    }
}

/// No other step records a hash.
pub proof fn lemma_other_steps_record_no_hash(
    m: CycleModel,
    error: Option<Seq<char>>,
    flag: bool,
    up: Uploaded,
)
    ensures
        m.remote_deleted(error).hashes == m.hashes,
        m.local_deleted(flag).hashes == m.hashes,
        m.dir_removed(flag).hashes == m.hashes,
        m.probed(flag).hashes == m.hashes,
        m.discarded().hashes == m.hashes,
        m.uploaded(up).hashes == m.hashes,
{
}

} // verus!
