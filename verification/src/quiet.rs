//! A cycle in a quiet world: nothing but the cycle changes the two sides,
//! and the host answers truthfully. Here the synced set lies on both sides
//! as they really are, and a second cycle finds nothing to transfer.

use vstd::prelude::*;
use crate::executor::{
    begin, lemma_push_within, new_synced, Action, CycleModel, Downloaded, Stage, Uploaded,
};
use crate::laws::{
    lemma_deletions_exclude_transfers, lemma_plan_members, lemma_settled_sides_need_no_transfer,
    position,
};
use crate::listing::{listed_hash, listed_mtime, path_set, Entry};
use crate::paths::ignored;
use crate::plan::{download_wanted, hash_matches, upload_wanted, PlanModel};

verus! {

/// The two sides, as the sets of the paths of their files.
pub ghost struct Sides {
    pub local: Set<Seq<char>>,
    pub remote: Set<Seq<char>>,
}

/// A cycle together with the sides it works on.
pub ghost struct Moment {
    pub cycle: CycleModel,
    pub sides: Sides,
}

/// One operation in a quiet world: the host does what the cycle asks and
/// says what happened. A deletion removes the file; a probe tells whether
/// the file is there; a download fetches a file that the server has and
/// writes it, unless writing is refused; an upload sends the file if it is
/// there. No transport fails and no file appears or vanishes by itself.
pub open spec fn quiet_step(before: Moment, after: Moment) -> bool {
    let m = before.cycle;
    let w = before.sides;
    let p = m.path();
    match m.action() {
        Action::DeleteRemote => after == Moment {
            cycle: m.remote_deleted(None),
            sides: Sides { remote: w.remote.remove(p), ..w },
        },
        Action::DeleteLocal => after == Moment {
            cycle: m.local_deleted(w.local.contains(p)),
            sides: Sides { local: w.local.remove(p), ..w },
        },
        Action::RemoveDir => after.sides == w && (after.cycle == m.dir_removed(true) || after.cycle
            == m.dir_removed(false)),
        Action::Probe => after == Moment { cycle: m.probed(w.local.contains(p)), sides: w },
        Action::Download => w.remote.contains(p) && exists|n: u64|
            after == (Moment {
                cycle: #[trigger] m.downloaded(Downloaded::Stored(n)),
                sides: Sides { local: w.local.insert(p), ..w },
            }) || after == (Moment { cycle: #[trigger] m.downloaded(Downloaded::Denied(n)), sides: w }),
        Action::Upload => if w.local.contains(p) {
            exists|n: u64|
                after == (Moment {
                    cycle: #[trigger] m.uploaded(Uploaded::Sent(n)),
                    sides: Sides { remote: w.remote.insert(p), ..w },
                })
        } else {
            after == Moment { cycle: m.uploaded(Uploaded::Absent), sides: w }
        },
        Action::Discard | Action::Finish | Action::Abort => false,
    }
}

/// A run in a quiet world: it starts at `start`, and each moment follows
/// from the one before by one operation.
pub open spec fn quiet_run(run: Seq<Moment>, start: Moment) -> bool {
    &&& run.len() > 0
    &&& run[0] == start
    &&& forall|i: int| 0 <= i < run.len() - 1 ==> quiet_step(#[trigger] run[i], run[i + 1])
}

/// None of the first `n` paths of `list` is in `s`.
spec fn none_in(list: Seq<Seq<char>>, n: int, s: Set<Seq<char>>) -> bool {
    forall|k: int| 0 <= k < n && k < list.len() ==> !s.contains(#[trigger] list[k])
}

/// Each of the first `n` paths of `list` is in `s` or among `skipped`.
spec fn each_in(list: Seq<Seq<char>>, n: int, s: Set<Seq<char>>, skipped: Seq<Seq<char>>) -> bool {
    forall|k: int|
        0 <= k < n && k < list.len() ==> s.contains(#[trigger] list[k]) || skipped.contains(list[k])
}

/// What holds at every moment of a quiet run that started from the sides
/// `l` and `r`.
spec fn kept(at: Moment, l: Set<Seq<char>>, r: Set<Seq<char>>) -> bool {
    let m = at.cycle;
    let w = at.sides;
    let plan = m.plan;
    let a = plan.to_delete_remote.len() as int;
    let b = plan.to_delete_local.len() as int;
    let c = plan.to_download.len() as int;
    let at_deletions = m.stage == Stage::DeleteRemote || m.stage == Stage::DeleteLocal || m.stage
        == Stage::Prune;
    &&& m.wf()
    &&& m.failure is None
    &&& m.stage != Stage::Discard
    &&& forall|x: Seq<char>|
        l.contains(x) && !plan.to_delete_local.contains(x) ==> #[trigger] w.local.contains(x)
    &&& forall|x: Seq<char>|
        r.contains(x) && !plan.to_delete_remote.contains(x) ==> #[trigger] w.remote.contains(x)
    &&& forall|x: Seq<char>| #[trigger]
        w.local.contains(x) ==> l.contains(x) || m.completed_downloads.contains(x)
    &&& forall|x: Seq<char>| #[trigger]
        w.remote.contains(x) ==> r.contains(x) || m.completed_uploads.contains(x)
    &&& forall|x: Seq<char>| #[trigger] m.completed_downloads.contains(x) ==> w.local.contains(x)
    &&& forall|x: Seq<char>| #[trigger]
        m.completed_uploads.contains(x) ==> w.local.contains(x) && w.remote.contains(x)
    &&& at_deletions ==> m.completed_downloads.len() == 0 && m.skipped_downloads.len() == 0
    &&& m.stage != Stage::Upload && m.stage != Stage::Finished ==> m.completed_uploads.len() == 0
        && m.skipped_uploads.len() == 0
    &&& m.stage == Stage::Prune ==> !w.local.contains(m.path())
    &&& none_in(plan.to_delete_remote, position(m), w.remote)
    &&& none_in(plan.to_delete_local, position(m) - a, w.local)
    &&& each_in(plan.to_download, position(m) - a - b, w.local, m.skipped_downloads)
    &&& each_in(plan.to_upload, position(m) - a - b - c, w.remote, m.skipped_uploads)
}

/// Where a cycle stands once it is put at an item, or behind the last one.
proof fn lemma_put_at(m: CycleModel, i: int)
    requires
        m.wf(),
        0 <= i,
    ensures
        i <= m.plan.to_upload.len() ==> m.at_upload(i).wf() && position(m.at_upload(i))
            == m.plan.to_delete_remote.len() + m.plan.to_delete_local.len()
            + m.plan.to_download.len() + i && (m.at_upload(i).stage == Stage::Upload
            || m.at_upload(i).stage == Stage::Finished),
        i <= m.plan.to_download.len() ==> m.at_download(i).wf() && position(m.at_download(i))
            == m.plan.to_delete_remote.len() + m.plan.to_delete_local.len() + i && m.at_download(
            i,
        ).stage != Stage::DeleteRemote && m.at_download(i).stage != Stage::DeleteLocal
            && m.at_download(i).stage != Stage::Prune && m.at_download(i).stage != Stage::Discard,
        i <= m.plan.to_delete_local.len() ==> m.at_delete_local(i).wf() && position(
            m.at_delete_local(i),
        ) == m.plan.to_delete_remote.len() + i && m.at_delete_local(i).stage != Stage::DeleteRemote
            && m.at_delete_local(i).stage != Stage::Prune && m.at_delete_local(i).stage
            != Stage::Discard,
        i <= m.plan.to_delete_remote.len() ==> m.at_delete_remote(i).wf() && position(
            m.at_delete_remote(i),
        ) == i && m.at_delete_remote(i).stage != Stage::Prune && m.at_delete_remote(i).stage
            != Stage::Discard,
{
}

/// A cycle at its start is well formed, and nothing is behind it.
proof fn lemma_begin(
    plan: PlanModel,
    known: Map<Seq<char>, Seq<char>>,
    prev: Set<Seq<char>>,
    l: Set<Seq<char>>,
    r: Set<Seq<char>>,
)
    ensures
        kept(Moment { cycle: begin(plan, known, prev), sides: Sides { local: l, remote: r } }, l, r),
{
    let blank = CycleModel {
        plan,
        known,
        prev_downloaded: prev,
        stage: Stage::Finished,
        index: 0,
        dir: Seq::empty(),
        hashes: plan.hashes,
        completed_downloads: Seq::empty(),
        skipped_downloads: Seq::empty(),
        completed_uploads: Seq::empty(),
        skipped_uploads: Seq::empty(),
        bytes_downloaded: 0,
        bytes_uploaded: 0,
        failure: None,
    };
    assert(blank.wf());
    lemma_put_at(blank, 0);
}

proof fn lemma_keeps_delete_remote(
    before: Moment,
    after: Moment,
    paths: Seq<Seq<char>>,
    hashes: Map<Seq<char>, Seq<char>>,
    local: Seq<Entry>,
    remote: Seq<Entry>,
)
    requires
        before.cycle.plan.realises(paths, hashes, local, remote),
        kept(before, path_set(local), path_set(remote)),
        quiet_step(before, after),
        before.cycle.action() == Action::DeleteRemote,
    ensures
        kept(after, path_set(local), path_set(remote)),
        after.cycle.plan == before.cycle.plan,
{
    let m = before.cycle;
    let w = before.sides;
    let p = m.path();
    let plan = m.plan;
    lemma_plan_members(plan, paths, hashes, local, remote);
    assert(m.items()[m.index] == p);
    assert(m.items().contains(p));
    lemma_put_at(m, m.index + 1);
}

proof fn lemma_keeps_delete_local(
    before: Moment,
    after: Moment,
    paths: Seq<Seq<char>>,
    hashes: Map<Seq<char>, Seq<char>>,
    local: Seq<Entry>,
    remote: Seq<Entry>,
)
    requires
        before.cycle.plan.realises(paths, hashes, local, remote),
        kept(before, path_set(local), path_set(remote)),
        quiet_step(before, after),
        before.cycle.action() == Action::DeleteLocal,
    ensures
        kept(after, path_set(local), path_set(remote)),
        after.cycle.plan == before.cycle.plan,
{
    let m = before.cycle;
    let w = before.sides;
    let p = m.path();
    let plan = m.plan;
    lemma_plan_members(plan, paths, hashes, local, remote);
    assert(m.items()[m.index] == p);
    assert(m.items().contains(p));
    lemma_put_at(m, m.index + 1);
}

proof fn lemma_keeps_remove_dir(
    before: Moment,
    after: Moment,
    paths: Seq<Seq<char>>,
    hashes: Map<Seq<char>, Seq<char>>,
    local: Seq<Entry>,
    remote: Seq<Entry>,
)
    requires
        before.cycle.plan.realises(paths, hashes, local, remote),
        kept(before, path_set(local), path_set(remote)),
        quiet_step(before, after),
        before.cycle.action() == Action::RemoveDir,
    ensures
        kept(after, path_set(local), path_set(remote)),
        after.cycle.plan == before.cycle.plan,
{
    let m = before.cycle;
    let w = before.sides;
    let p = m.path();
    let plan = m.plan;
    lemma_plan_members(plan, paths, hashes, local, remote);
    assert(m.items()[m.index] == p);
    assert(m.items().contains(p));
    lemma_put_at(m, m.index + 1);
}

proof fn lemma_keeps_probe(
    before: Moment,
    after: Moment,
    paths: Seq<Seq<char>>,
    hashes: Map<Seq<char>, Seq<char>>,
    local: Seq<Entry>,
    remote: Seq<Entry>,
)
    requires
        before.cycle.plan.realises(paths, hashes, local, remote),
        kept(before, path_set(local), path_set(remote)),
        quiet_step(before, after),
        before.cycle.action() == Action::Probe,
    ensures
        kept(after, path_set(local), path_set(remote)),
        after.cycle.plan == before.cycle.plan,
{
    let m = before.cycle;
    let w = before.sides;
    let p = m.path();
    let plan = m.plan;
    lemma_plan_members(plan, paths, hashes, local, remote);
    assert(m.items()[m.index] == p);
    assert(m.items().contains(p));
    lemma_put_at(m, m.index + 1);
}

proof fn lemma_keeps_download(
    before: Moment,
    after: Moment,
    paths: Seq<Seq<char>>,
    hashes: Map<Seq<char>, Seq<char>>,
    local: Seq<Entry>,
    remote: Seq<Entry>,
)
    requires
        before.cycle.plan.realises(paths, hashes, local, remote),
        kept(before, path_set(local), path_set(remote)),
        quiet_step(before, after),
        before.cycle.action() == Action::Download,
    ensures
        kept(after, path_set(local), path_set(remote)),
        after.cycle.plan == before.cycle.plan,
{
    let m = before.cycle;
    let w = before.sides;
    let p = m.path();
    let plan = m.plan;
    let m2 = after.cycle;
    let w2 = after.sides;
    let l = path_set(local);
    let r = path_set(remote);
    let a = plan.to_delete_remote.len() as int;
    let b = plan.to_delete_local.len() as int;
    lemma_plan_members(plan, paths, hashes, local, remote);
    lemma_deletions_exclude_transfers(plan, paths, hashes, local, remote);
    assert(plan.to_download[m.index] == p);
    assert(plan.to_download.contains(p));
    let n = choose|n: u64|
        after == (Moment {
            cycle: #[trigger] m.downloaded(Downloaded::Stored(n)),
            sides: Sides { local: w.local.insert(p), ..w },
        }) || after == (Moment {
            cycle: #[trigger] m.downloaded(Downloaded::Denied(n)),
            sides: w,
        });
    let stored = after == (Moment {
        cycle: m.downloaded(Downloaded::Stored(n)),
        sides: Sides { local: w.local.insert(p), ..w },
    });
    let mid = if stored {
        CycleModel {
            bytes_downloaded: crate::executor::capped(m.bytes_downloaded + n),
            completed_downloads: m.completed_downloads.push(p),
            hashes: if m.known.contains_key(p) {
                m.hashes.insert(p, m.known[p])
            } else {
                m.hashes
            },
            ..m
        }
    } else {
        CycleModel {
            bytes_downloaded: crate::executor::capped(m.bytes_downloaded + n),
            skipped_downloads: m.skipped_downloads.push(p),
            ..m
        }
    };
    lemma_push_within(m.completed_downloads, p, plan.to_download);
    lemma_push_within(m.skipped_downloads, p, plan.to_download);
    assert(mid.wf());
    lemma_put_at(mid, m.index + 1);
    assert(m2 == mid.at_download(m.index + 1));
    assert(position(m) == a + b + m.index);
    assert(position(m2) == a + b + m.index + 1);
    assert forall|x: Seq<char>| #[trigger] m2.completed_downloads.contains(x) implies w2.local.contains(
        x,
    ) by {
        lemma_pushed(m.completed_downloads, p, x);
    }
    assert forall|x: Seq<char>| #[trigger] w2.local.contains(x) implies l.contains(x)
        || m2.completed_downloads.contains(x) by {
        lemma_pushed(m.completed_downloads, p, x);
        lemma_pushed(m.completed_downloads, p, p);
    }
    assert forall|x: Seq<char>| #[trigger] m2.completed_uploads.contains(x) implies w2.local.contains(
        x,
    ) && w2.remote.contains(x) by {
        assert(m.completed_uploads.len() == 0);
    }
    assert(none_in(plan.to_delete_local, position(m2) - a, w2.local)) by {
        assert forall|k: int|
            0 <= k < position(m2) - a && k < plan.to_delete_local.len() implies !w2.local.contains(
            #[trigger] plan.to_delete_local[k],
        ) by {
            assert(plan.to_delete_local.contains(plan.to_delete_local[k]));
            assert(!w.local.contains(plan.to_delete_local[k]));
        }
    }
    assert(each_in(plan.to_download, position(m2) - a - b, w2.local, m2.skipped_downloads)) by {
        assert forall|k: int|
            0 <= k < position(m2) - a - b && k < plan.to_download.len() implies w2.local.contains(
            #[trigger] plan.to_download[k],
        ) || m2.skipped_downloads.contains(plan.to_download[k]) by {
            lemma_pushed(m.skipped_downloads, p, plan.to_download[k]);
            if k < m.index {
                assert(w.local.contains(plan.to_download[k]) || m.skipped_downloads.contains(
                    plan.to_download[k],
                ));
            }
        }
    }
    assert(none_in(plan.to_delete_remote, position(m2), w2.remote));
    assert(each_in(plan.to_upload, position(m2) - a - b - plan.to_download.len(), w2.remote, m2.skipped_uploads));
}

proof fn lemma_keeps_upload(
    before: Moment,
    after: Moment,
    paths: Seq<Seq<char>>,
    hashes: Map<Seq<char>, Seq<char>>,
    local: Seq<Entry>,
    remote: Seq<Entry>,
)
    requires
        before.cycle.plan.realises(paths, hashes, local, remote),
        kept(before, path_set(local), path_set(remote)),
        quiet_step(before, after),
        before.cycle.action() == Action::Upload,
    ensures
        kept(after, path_set(local), path_set(remote)),
        after.cycle.plan == before.cycle.plan,
{
    let m = before.cycle;
    let w = before.sides;
    let p = m.path();
    let plan = m.plan;
    let m2 = after.cycle;
    let w2 = after.sides;
    let l = path_set(local);
    let r = path_set(remote);
    let a = plan.to_delete_remote.len() as int;
    let b = plan.to_delete_local.len() as int;
    let c = plan.to_download.len() as int;
    lemma_plan_members(plan, paths, hashes, local, remote);
    lemma_deletions_exclude_transfers(plan, paths, hashes, local, remote);
    assert(plan.to_upload[m.index] == p);
    assert(plan.to_upload.contains(p));
    let sent = w.local.contains(p);
    let n = if sent {
        choose|n: u64|
            after == (Moment {
                cycle: #[trigger] m.uploaded(Uploaded::Sent(n)),
                sides: Sides { remote: w.remote.insert(p), ..w },
            })
    } else {
        0
    };
    let mid = if sent {
        CycleModel {
            bytes_uploaded: crate::executor::capped(m.bytes_uploaded + n),
            completed_uploads: m.completed_uploads.push(p),
            ..m
        }
    } else {
        CycleModel {
            skipped_uploads: if m.skipped_uploads.contains(p) {
                m.skipped_uploads
            } else {
                m.skipped_uploads.push(p)
            },
            ..m
        }
    };
    lemma_push_within(m.completed_uploads, p, plan.to_upload);
    lemma_push_within(m.skipped_uploads, p, plan.to_upload);
    assert(mid.wf());
    lemma_put_at(mid, m.index + 1);
    assert(m2 == mid.at_upload(m.index + 1));
    assert(position(m) == a + b + c + m.index);
    assert(position(m2) == a + b + c + m.index + 1);
    assert forall|x: Seq<char>| #[trigger] m2.completed_uploads.contains(x) implies w2.local.contains(
        x,
    ) && w2.remote.contains(x) by {
        lemma_pushed(m.completed_uploads, p, x);
    }
    assert forall|x: Seq<char>| #[trigger] w2.remote.contains(x) implies r.contains(x)
        || m2.completed_uploads.contains(x) by {
        lemma_pushed(m.completed_uploads, p, x);
        lemma_pushed(m.completed_uploads, p, p);
    }
    assert(none_in(plan.to_delete_remote, position(m2), w2.remote)) by {
        assert forall|k: int|
            0 <= k < position(m2) && k < plan.to_delete_remote.len() implies !w2.remote.contains(
            #[trigger] plan.to_delete_remote[k],
        ) by {
            assert(plan.to_delete_remote.contains(plan.to_delete_remote[k]));
            assert(!w.remote.contains(plan.to_delete_remote[k]));
        }
    }
    assert(each_in(plan.to_upload, position(m2) - a - b - c, w2.remote, m2.skipped_uploads)) by {
        assert forall|k: int|
            0 <= k < position(m2) - a - b - c && k < plan.to_upload.len() implies w2.remote.contains(
            #[trigger] plan.to_upload[k],
        ) || m2.skipped_uploads.contains(plan.to_upload[k]) by {
            lemma_pushed(m.skipped_uploads, p, plan.to_upload[k]);
            lemma_pushed(m.skipped_uploads, p, p);
            if k < m.index {
                assert(w.remote.contains(plan.to_upload[k]) || m.skipped_uploads.contains(
                    plan.to_upload[k],
                ));
            }
        }
    }
    assert(none_in(plan.to_delete_local, position(m2) - a, w2.local));
    assert(each_in(plan.to_download, position(m2) - a - b, w2.local, m2.skipped_downloads));
}

/// One operation in a quiet world keeps what holds at every moment.
proof fn lemma_quiet_step_keeps(
    before: Moment,
    after: Moment,
    paths: Seq<Seq<char>>,
    hashes: Map<Seq<char>, Seq<char>>,
    local: Seq<Entry>,
    remote: Seq<Entry>,
)
    requires
        before.cycle.plan.realises(paths, hashes, local, remote),
        kept(before, path_set(local), path_set(remote)),
        quiet_step(before, after),
    ensures
        kept(after, path_set(local), path_set(remote)),
        after.cycle.plan == before.cycle.plan,
{
    match before.cycle.action() {
        Action::DeleteRemote => lemma_keeps_delete_remote(before, after, paths, hashes, local, remote),
        Action::DeleteLocal => lemma_keeps_delete_local(before, after, paths, hashes, local, remote),
        Action::RemoveDir => lemma_keeps_remove_dir(before, after, paths, hashes, local, remote),
        Action::Probe => lemma_keeps_probe(before, after, paths, hashes, local, remote),
        Action::Download => lemma_keeps_download(before, after, paths, hashes, local, remote),
        Action::Upload => lemma_keeps_upload(before, after, paths, hashes, local, remote),
        _ => {},
    }
}

/// What a list holds once an element is added.
proof fn lemma_pushed(list: Seq<Seq<char>>, x: Seq<char>, y: Seq<char>)
    ensures
        list.push(x).contains(y) <==> list.contains(y) || y == x,
{
    if list.push(x).contains(y) {
        let k = choose|k: int| 0 <= k < list.push(x).len() && list.push(x)[k] == y;
        if k < list.len() {
            assert(list[k] == y);
        }
    }
    if list.contains(y) {
        let k = choose|k: int| 0 <= k < list.len() && list[k] == y;
        assert(list.push(x)[k] == y);
    }
    if y == x {
        assert(list.push(x)[list.len() as int] == y);
    }
}

/// What holds at the start holds at every moment of a quiet run.
proof fn lemma_quiet_run_keeps(
    run: Seq<Moment>,
    plan: PlanModel,
    known: Map<Seq<char>, Seq<char>>,
    prev: Set<Seq<char>>,
    paths: Seq<Seq<char>>,
    hashes: Map<Seq<char>, Seq<char>>,
    local: Seq<Entry>,
    remote: Seq<Entry>,
    i: int,
)
    requires
        plan.realises(paths, hashes, local, remote),
        quiet_run(
            run,
            Moment {
                cycle: begin(plan, known, prev),
                sides: Sides { local: path_set(local), remote: path_set(remote) },
            },
        ),
        0 <= i < run.len(),
    ensures
        kept(run[i], path_set(local), path_set(remote)),
        run[i].cycle.plan == plan,
    decreases i,
{
    if i == 0 {
        lemma_begin(plan, known, prev, path_set(local), path_set(remote));
        lemma_put_at(
            CycleModel {
                plan,
                known,
                prev_downloaded: prev,
                stage: Stage::Finished,
                index: 0,
                dir: Seq::empty(),
                hashes: plan.hashes,
                completed_downloads: Seq::empty(),
                skipped_downloads: Seq::empty(),
                completed_uploads: Seq::empty(),
                skipped_uploads: Seq::empty(),
                bytes_downloaded: 0,
                bytes_uploaded: 0,
                failure: None,
            },
            0,
        );
    } else {
        lemma_quiet_run_keeps(run, plan, known, prev, paths, hashes, local, remote, i - 1);
        assert(quiet_step(run[i - 1], run[i]));
        lemma_quiet_step_keeps(run[i - 1], run[i], paths, hashes, local, remote);
    }
}

/// In a quiet world the synced set lies on both sides. At every moment of
/// a cycle that started from the two listings, each path that the cycle
/// would commit as in sync is a local file and a file on the server.
pub proof fn lemma_quiet_cycle_syncs_what_is_on_both_sides(
    run: Seq<Moment>,
    plan: PlanModel,
    known: Map<Seq<char>, Seq<char>>,
    prev: Set<Seq<char>>,
    paths: Seq<Seq<char>>,
    hashes: Map<Seq<char>, Seq<char>>,
    local: Seq<Entry>,
    remote: Seq<Entry>,
)
    requires
        plan.realises(paths, hashes, local, remote),
        quiet_run(
            run,
            Moment {
                cycle: begin(plan, known, prev),
                sides: Sides { local: path_set(local), remote: path_set(remote) },
            },
        ),
    ensures
        new_synced(run.last().cycle).subset_of(run.last().sides.local),
        new_synced(run.last().cycle).subset_of(run.last().sides.remote),
{
    let end = run.last();
    lemma_quiet_run_keeps(run, plan, known, prev, paths, hashes, local, remote, run.len() - 1);
    lemma_plan_members(plan, paths, hashes, local, remote);
    assert forall|x: Seq<char>| new_synced(end.cycle).contains(x) implies end.sides.local.contains(
        x,
    ) && end.sides.remote.contains(x) by {
        if plan.base_synced.contains(x) {
            assert(!plan.to_delete_local.contains(x));
            assert(!plan.to_delete_remote.contains(x));
        }
        if end.cycle.completed_downloads.contains(x) {
            assert(plan.to_download.contains(x));
            if exists|i: int|
                0 <= i < local.len() && (#[trigger] local[i]).path == x && download_wanted(
                    local[i],
                    remote,
                ) {
                let i = choose|i: int|
                    0 <= i < local.len() && (#[trigger] local[i]).path == x && download_wanted(
                        local[i],
                        remote,
                    );
                assert(path_set(local).contains(x));
            }
            assert(!plan.to_delete_remote.contains(x));
        }
    }
}

/// In a quiet world a second cycle transfers nothing. Let a first cycle
/// run through without skipping a transfer, and let a second cycle start
/// from what the first left: the committed paths and the two sides as they
/// then are. If every local file then has the hash that the server lists
/// for it, or the server's stamp, the second plan deletes nothing,
/// downloads nothing and uploads nothing.
pub proof fn lemma_second_cycle_transfers_nothing(
    run: Seq<Moment>,
    plan: PlanModel,
    known: Map<Seq<char>, Seq<char>>,
    prev: Set<Seq<char>>,
    paths: Seq<Seq<char>>,
    hashes: Map<Seq<char>, Seq<char>>,
    local: Seq<Entry>,
    remote: Seq<Entry>,
    second: PlanModel,
    paths2: Seq<Seq<char>>,
    hashes2: Map<Seq<char>, Seq<char>>,
    local2: Seq<Entry>,
    remote2: Seq<Entry>,
)
    requires
        plan.realises(paths, hashes, local, remote),
        quiet_run(
            run,
            Moment {
                cycle: begin(plan, known, prev),
                sides: Sides { local: path_set(local), remote: path_set(remote) },
            },
        ),
        run.last().cycle.action() == Action::Finish,
        run.last().cycle.skipped_downloads.len() == 0,
        run.last().cycle.skipped_uploads.len() == 0,
        paths2.to_set() == new_synced(run.last().cycle),
        path_set(local2) == run.last().sides.local,
        path_set(remote2) == run.last().sides.remote,
        forall|i: int|
            0 <= i < local2.len() ==> hash_matches(
                #[trigger] local2[i],
                listed_hash(remote2, local2[i].path),
            ) || local2[i].mtime == listed_mtime(remote2, local2[i].path),
        second.realises(paths2, hashes2, local2, remote2),
    ensures
        second.to_delete_remote.len() == 0,
        second.to_delete_local.len() == 0,
        second.to_download.len() == 0,
        second.to_upload.len() == 0,
{
    let end = run.last();
    let m = end.cycle;
    let w = end.sides;
    lemma_quiet_run_keeps(run, plan, known, prev, paths, hashes, local, remote, run.len() - 1);
    lemma_quiet_cycle_syncs_what_is_on_both_sides(
        run,
        plan,
        known,
        prev,
        paths,
        hashes,
        local,
        remote,
    );
    lemma_plan_members(plan, paths, hashes, local, remote);
    assert forall|x: Seq<char>| paths2.contains(x) implies path_set(local2).contains(x)
        && path_set(remote2).contains(x) by {
        assert(paths2.to_set().contains(x));
    }
    assert forall|x: Seq<char>| !ignored(x) implies (path_set(local2).contains(x) <==> path_set(
        remote2,
    ).contains(x)) by {
        if w.local.contains(x) && !w.remote.contains(x) {
            if path_set(local).contains(x) {
                if path_set(remote).contains(x) {
                    assert(!plan.to_delete_remote.contains(x));
                } else {
                    let i = choose|i: int| 0 <= i < local.len() && (#[trigger] local[i]).path == x;
                    assert(upload_wanted(local[i], remote));
                    assert(plan.to_upload.contains(x));
                    let k = choose|k: int| 0 <= k < plan.to_upload.len() && plan.to_upload[k] == x;
                    assert(w.remote.contains(plan.to_upload[k]) || m.skipped_uploads.contains(
                        plan.to_upload[k],
                    ));
                    lemma_nothing_in_empty(m.skipped_uploads, x);
                }
            } else {
                assert(m.completed_downloads.contains(x));
                assert(plan.to_download.contains(x));
                assert(path_set(remote).contains(x));
                assert(!plan.to_delete_remote.contains(x));
            }
        }
        if w.remote.contains(x) && !w.local.contains(x) {
            if path_set(remote).contains(x) {
                if plan.to_delete_remote.contains(x) {
                    let k = choose|k: int|
                        0 <= k < plan.to_delete_remote.len() && plan.to_delete_remote[k] == x;
                    assert(!w.remote.contains(plan.to_delete_remote[k]));
                }
                if path_set(local).contains(x) {
                    assert(!plan.to_delete_local.contains(x));
                } else {
                    assert(plan.to_download.contains(x));
                    let k = choose|k: int|
                        0 <= k < plan.to_download.len() && plan.to_download[k] == x;
                    assert(w.local.contains(plan.to_download[k]) || m.skipped_downloads.contains(
                        plan.to_download[k],
                    ));
                    lemma_nothing_in_empty(m.skipped_downloads, x);
                }
            } else {
                assert(m.completed_uploads.contains(x));
            }
        }
    }
    lemma_settled_sides_need_no_transfer(second, paths2, hashes2, local2, remote2);
}

proof fn lemma_nothing_in_empty(list: Seq<Seq<char>>, x: Seq<char>)
    requires
        list.len() == 0,
    ensures
        !list.contains(x),
{
}

} // verus!
