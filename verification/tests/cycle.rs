use std::collections::BTreeMap;
use std::collections::BTreeSet;

use brandybox::driver::terminal_status;
use brandybox::commit::SyncOutcome;
use brandybox::executor::{Action, Downloaded, Step, SyncCycle, Uploaded};
use brandybox::listing::FileItem;
use brandybox::paths::is_ignored;
use brandybox::plan::build_plan;
use brandybox::state::{HashEntry, SyncStateFile};
use brandybox::status::{SyncProgress, SyncStatus};

/// The two sides as a test sees them, with the faults to inject.
struct World {
    local: BTreeSet<String>,
    dirs: BTreeSet<String>,
    remote: BTreeSet<String>,
    write_denied: BTreeSet<String>,
    gone_on_server: BTreeSet<String>,
    vanish_before_upload: BTreeSet<String>,
    delete_error: Option<String>,
    download_error: Option<String>,
    upload_error: Option<String>,
    sizes: BTreeMap<String, u64>,
    log: Vec<String>,
    progress: Vec<(String, u64, u64)>,
}

impl World {
    fn new(local: &[&str], remote: &[&str]) -> World {
        let mut dirs = BTreeSet::new();
        for p in local {
            let mut at = p.to_string();
            while let Some(i) = at.rfind('/') {
                at.truncate(i);
                dirs.insert(at.clone());
            }
        }
        World {
            local: local.iter().map(|p| p.to_string()).collect(),
            dirs,
            remote: remote.iter().map(|p| p.to_string()).collect(),
            write_denied: BTreeSet::new(),
            gone_on_server: BTreeSet::new(),
            vanish_before_upload: BTreeSet::new(),
            delete_error: None,
            download_error: None,
            upload_error: None,
            sizes: BTreeMap::new(),
            log: Vec::new(),
            progress: Vec::new(),
        }
    }

    fn dir_is_empty(&self, dir: &str) -> bool {
        let prefix = format!("{}/", dir);
        !self.local.iter().any(|p| p.starts_with(&prefix))
            && !self.dirs.iter().any(|d| d.starts_with(&prefix))
    }

    fn size(&self, path: &str) -> u64 {
        *self.sizes.get(path).unwrap_or(&10)
    }
}

fn note(world: &mut World, p: SyncProgress) {
    world.progress.push((p.phase, p.current, p.total));
}

/// Runs the cycle against the world until it finishes or fails.
fn run(cycle: &mut SyncCycle, world: &mut World) {
    loop {
        let Step { action, path } = cycle.next_step();
        if action == Action::Finish || action == Action::Abort {
            return;
        }
        if action != Action::RemoveDir && action != Action::Discard {
            let p = cycle.progress();
            if world.progress.last().map(|l| l.1) != Some(p.current)
                || world.progress.last().map(|l| l.0.clone()) != Some(p.phase.clone())
            {
                note(world, p);
            }
        }
        world.log.push(format!("{:?} {}", action, path));
        match action {
            Action::DeleteRemote => {
                let result = match &world.delete_error {
                    Some(e) => Err(e.clone()),
                    None => {
                        world.remote.remove(&path);
                        Ok(())
                    }
                };
                cycle.remote_deleted(result);
            }
            Action::DeleteLocal => {
                let present = world.local.remove(&path);
                cycle.local_deleted(present);
            }
            Action::RemoveDir => {
                let removed = world.dirs.contains(&path) && world.dir_is_empty(&path);
                if removed {
                    world.dirs.remove(&path);
                }
                cycle.dir_removed(removed);
            }
            Action::Probe => {
                let present = world.local.contains(&path);
                cycle.probed(present);
            }
            Action::Download => {
                let outcome = if let Some(e) = &world.download_error {
                    Downloaded::Failed(e.clone())
                } else if world.gone_on_server.contains(&path) {
                    Downloaded::Failed("404 Not Found".to_string())
                } else if world.write_denied.contains(&path) {
                    Downloaded::Denied(world.size(&path))
                } else {
                    world.local.insert(path.clone());
                    Downloaded::Stored(world.size(&path))
                };
                cycle.downloaded(outcome);
            }
            Action::Discard => {
                world.local.remove(&path);
                cycle.discarded();
            }
            Action::Upload => {
                if world.vanish_before_upload.contains(&path) {
                    world.local.remove(&path);
                }
                let outcome = if !world.local.contains(&path) {
                    Uploaded::Absent
                } else if let Some(e) = &world.upload_error {
                    Uploaded::Failed(e.clone())
                } else {
                    world.remote.insert(path.clone());
                    Uploaded::Sent(world.size(&path))
                };
                cycle.uploaded(outcome);
            }
            Action::Finish | Action::Abort => unreachable!(),
        }
    }
}

fn state(paths: &[&str]) -> SyncStateFile {
    SyncStateFile {
        paths: paths.iter().map(|p| p.to_string()).collect(),
        downloaded_paths: Vec::new(),
        file_hashes: Vec::new(),
    }
}

fn item(path: &str, mtime: i64, hash: Option<&str>) -> FileItem {
    FileItem { path: path.to_string(), mtime, hash: hash.map(|h| h.to_string()) }
}

fn strings(v: &[&str]) -> Vec<String> {
    v.iter().map(|s| s.to_string()).collect()
}

fn count(log: &[String], prefix: &str) -> usize {
    log.iter().filter(|l| l.starts_with(prefix)).count()
}

fn committed(r: Result<SyncOutcome, String>) -> SyncOutcome {
    match r {
        Ok(o) => o,
        Err(e) => panic!("cycle failed: {}", e),
    }
}

#[test]
fn local_delete_propagates_to_server() {
    let st = state(&["DJI_0011.MP4"]);
    let local: Vec<FileItem> = Vec::new();
    let remote = vec![item("DJI_0011.MP4", 100, None)];
    let plan = build_plan(&st, &local, &remote);
    assert_eq!(plan.to_delete_remote, strings(&["DJI_0011.MP4"]));
    assert!(plan.to_download.is_empty());

    let mut world = World::new(&[], &["DJI_0011.MP4"]);
    let mut cycle = SyncCycle::start(&st, &local, &remote);
    run(&mut cycle, &mut world);
    assert_eq!(count(&world.log, "DeleteRemote"), 1);
    assert_eq!(world.log, strings(&["DeleteRemote DJI_0011.MP4"]));
    assert!(world.remote.is_empty());
    let out = committed(cycle.finish());
    assert!(out.state.paths.is_empty());
    assert!(out.warning.is_none());
}

#[test]
fn remote_new_file_downloads() {
    let st = state(&[]);
    let local: Vec<FileItem> = Vec::new();
    let remote = vec![item("notes.txt", 100, Some("H"))];
    let mut world = World::new(&[], &["notes.txt"]);
    world.sizes.insert("notes.txt".to_string(), 42);
    let mut cycle = SyncCycle::start(&st, &local, &remote);
    run(&mut cycle, &mut world);
    assert_eq!(world.log, strings(&["Download notes.txt"]));
    assert!(world.local.contains("notes.txt"));
    let out = committed(cycle.finish());
    assert_eq!(out.state.paths, strings(&["notes.txt"]));
    assert!(out.state.downloaded_paths.is_empty());
    assert_eq!(out.state.file_hashes.len(), 1);
    assert_eq!(out.state.file_hashes[0].path, "notes.txt");
    assert_eq!(out.state.file_hashes[0].hash, "H");
    assert_eq!(out.bytes_downloaded, 42);
    assert_eq!(out.bytes_uploaded, 0);
    assert!(out.warning.is_none());
}

#[test]
fn clock_skew_false_conflict() {
    let st = state(&[]);
    let local = vec![item("a.bin", 100, Some("H"))];
    let remote = vec![item("a.bin", 200, Some("H"))];
    let plan = build_plan(&st, &local, &remote);
    assert!(plan.to_download.is_empty());
    assert!(plan.to_upload.is_empty());
    assert_eq!(plan.file_hashes.len(), 1);
    assert_eq!(plan.file_hashes[0].path, "a.bin");
    assert_eq!(plan.file_hashes[0].hash, "H");

    let mut world = World::new(&["a.bin"], &["a.bin"]);
    let mut cycle = SyncCycle::start(&st, &local, &remote);
    run(&mut cycle, &mut world);
    assert!(world.log.is_empty());
    let out = committed(cycle.finish());
    assert_eq!(out.state.paths, strings(&["a.bin"]));
}

#[test]
fn clock_skew_the_other_way_uploads_nothing() {
    let st = state(&["a.bin"]);
    let local = vec![item("a.bin", 300, Some("H"))];
    let remote = vec![item("a.bin", 200, Some("H"))];
    let plan = build_plan(&st, &local, &remote);
    assert!(plan.to_download.is_empty());
    assert!(plan.to_upload.is_empty());
    assert!(plan.file_hashes.is_empty());
}

#[test]
fn first_run_safety() {
    let names: Vec<String> = (1..=100).map(|i| format!("file{}", i)).collect();
    let st = SyncStateFile {
        paths: names.clone(),
        downloaded_paths: Vec::new(),
        file_hashes: Vec::new(),
    };
    let local = vec![item("file1", 10, None)];
    let remote: Vec<FileItem> = names.iter().map(|n| item(n, 10, None)).collect();
    let plan = build_plan(&st, &local, &remote);
    assert!(plan.guardrail_tripped);
    assert!(plan.to_delete_remote.is_empty());
    assert_eq!(plan.to_download.len(), 99);
    assert!(!plan.to_download.contains(&"file1".to_string()));

    let remote_names: Vec<&str> = names.iter().map(|n| n.as_str()).collect();
    let mut world = World::new(&["file1"], &remote_names);
    let mut cycle = SyncCycle::start(&st, &local, &remote);
    run(&mut cycle, &mut world);
    assert_eq!(count(&world.log, "DeleteRemote"), 0);
    assert_eq!(count(&world.log, "Download"), 99);
    assert_eq!(world.remote.len(), 100);
    let out = committed(cycle.finish());
    let mut want = names.clone();
    want.sort();
    assert_eq!(out.state.paths, want);
}

#[test]
fn guardrail_needs_more_than_fifty() {
    let names: Vec<String> = (1..=50).map(|i| format!("q{:02}", i)).collect();
    let st = SyncStateFile {
        paths: names.clone(),
        downloaded_paths: Vec::new(),
        file_hashes: Vec::new(),
    };
    let local: Vec<FileItem> = Vec::new();
    let remote: Vec<FileItem> = names.iter().map(|n| item(n, 10, None)).collect();
    let plan = build_plan(&st, &local, &remote);
    assert!(!plan.guardrail_tripped);
    assert_eq!(plan.to_delete_remote, names);
    assert!(plan.to_download.is_empty());
}

#[test]
fn guardrail_needs_more_than_the_local_files() {
    let gone: Vec<String> = (1..=51).map(|i| format!("gone{:02}", i)).collect();
    let kept: Vec<String> = (1..=51).map(|i| format!("kept{:02}", i)).collect();
    let st = SyncStateFile {
        paths: gone.clone(),
        downloaded_paths: Vec::new(),
        file_hashes: Vec::new(),
    };
    let local: Vec<FileItem> = kept.iter().map(|n| item(n, 10, None)).collect();
    let plan = build_plan(&st, &local, &Vec::new());
    assert!(!plan.guardrail_tripped);
    assert_eq!(plan.to_delete_remote.len(), 51);

    let fewer: Vec<FileItem> = kept.iter().take(50).map(|n| item(n, 10, None)).collect();
    let plan = build_plan(&st, &fewer, &Vec::new());
    assert!(plan.guardrail_tripped);
    assert!(plan.to_delete_remote.is_empty());
}

#[test]
fn permission_denied_on_one_download() {
    let st = state(&[]);
    let local: Vec<FileItem> = Vec::new();
    let remote = vec![item("a", 1, None), item("b", 1, None)];
    let mut world = World::new(&[], &["a", "b"]);
    world.write_denied.insert("a".to_string());
    let mut cycle = SyncCycle::start(&st, &local, &remote);
    run(&mut cycle, &mut world);
    assert_eq!(world.log, strings(&["Download a", "Download b"]));
    let result = cycle.finish();
    match terminal_status(&result) {
        SyncStatus::Warning(msg) => assert_eq!(
            msg,
            "1 download(s) skipped (permission denied or file gone on server)"
        ),
        _ => panic!("expected a warning"),
    }
    let out = committed(result);
    assert_eq!(out.state.paths, strings(&["b"]));
    assert!(!out.state.paths.contains(&"a".to_string()));
    assert_eq!(out.bytes_downloaded, 20);
}

#[test]
fn upload_target_vanished() {
    let st = state(&[]);
    let local = vec![item("x.tmp", 5, None)];
    let remote: Vec<FileItem> = Vec::new();
    let mut world = World::new(&["x.tmp"], &[]);
    world.vanish_before_upload.insert("x.tmp".to_string());
    let mut cycle = SyncCycle::start(&st, &local, &remote);
    run(&mut cycle, &mut world);
    assert_eq!(world.log, strings(&["Upload x.tmp"]));
    assert!(world.remote.is_empty());
    let result = cycle.finish();
    match terminal_status(&result) {
        SyncStatus::Warning(msg) => {
            assert_eq!(msg, "1 upload(s) skipped (files removed during sync)")
        }
        _ => panic!("expected a warning"),
    }
    let out = committed(result);
    assert!(out.state.paths.is_empty());
    assert_eq!(out.bytes_uploaded, 0);
}

#[test]
fn both_kinds_of_skip_are_counted() {
    let st = state(&[]);
    let local = vec![item("u1", 5, None), item("u2", 5, None)];
    let remote = vec![item("d1", 1, None), item("d2", 1, None), item("d3", 1, None)];
    let mut world = World::new(&["u1", "u2"], &["d1", "d2", "d3"]);
    world.write_denied.insert("d1".to_string());
    world.gone_on_server.insert("d2".to_string());
    world.vanish_before_upload.insert("u2".to_string());
    let mut cycle = SyncCycle::start(&st, &local, &remote);
    run(&mut cycle, &mut world);
    let out = committed(cycle.finish());
    assert_eq!(
        out.warning,
        Some(
            "2 download(s) skipped (permission denied or file gone on server); 1 upload(s) skipped (files removed during sync)"
                .to_string()
        )
    );
    assert_eq!(out.state.paths, strings(&["d3", "u1"]));
}

#[test]
fn server_lost_file_is_discarded_locally() {
    let st = state(&[]);
    let local = vec![item("old.txt", 1, None)];
    let remote = vec![item("old.txt", 9, None)];
    let mut world = World::new(&["old.txt"], &["old.txt"]);
    world.gone_on_server.insert("old.txt".to_string());
    let mut cycle = SyncCycle::start(&st, &local, &remote);
    run(&mut cycle, &mut world);
    assert_eq!(world.log, strings(&["Download old.txt", "Discard old.txt"]));
    assert!(!world.local.contains("old.txt"));
    let out = committed(cycle.finish());
    assert_eq!(
        out.warning,
        Some("1 download(s) skipped (permission denied or file gone on server)".to_string())
    );
}

#[test]
fn remote_delete_error_aborts() {
    let st = state(&["a.txt", "b.txt"]);
    let local: Vec<FileItem> = Vec::new();
    let remote = vec![item("a.txt", 1, None), item("b.txt", 1, None)];
    let mut world = World::new(&[], &["a.txt", "b.txt"]);
    world.delete_error = Some("500 Internal Server Error".to_string());
    let mut cycle = SyncCycle::start(&st, &local, &remote);
    run(&mut cycle, &mut world);
    assert_eq!(world.log, strings(&["DeleteRemote a.txt"]));
    assert_eq!(cycle.next_step().action, Action::Abort);
    let result = cycle.finish();
    match terminal_status(&result) {
        SyncStatus::Error(msg) => {
            assert_eq!(msg, "Delete server a.txt: 500 Internal Server Error")
        }
        _ => panic!("expected an error"),
    }
    assert_eq!(result.err(), Some("Delete server a.txt: 500 Internal Server Error".to_string()));
}

#[test]
fn download_transport_error_aborts() {
    let st = state(&[]);
    let remote = vec![item("a", 1, None), item("b", 1, None)];
    let mut world = World::new(&[], &["a", "b"]);
    world.download_error = Some("connection reset".to_string());
    let mut cycle = SyncCycle::start(&st, &Vec::new(), &remote);
    run(&mut cycle, &mut world);
    assert_eq!(world.log, strings(&["Download a"]));
    assert_eq!(cycle.finish().err(), Some("Download a: connection reset".to_string()));
}

#[test]
fn download_write_error_aborts() {
    let st = state(&[]);
    let remote = vec![item("a", 1, None)];
    let mut cycle = SyncCycle::start(&st, &Vec::new(), &remote);
    assert_eq!(cycle.next_step().action, Action::Download);
    cycle.downloaded(Downloaded::WriteFailed("disk full".to_string()));
    assert_eq!(cycle.next_step().action, Action::Abort);
    assert_eq!(cycle.next_step().path, "");
    assert_eq!(cycle.finish().err(), Some("Download a: disk full".to_string()));
}

#[test]
fn upload_error_aborts() {
    let st = state(&[]);
    let local = vec![item("a", 1, None), item("b", 1, None)];
    let mut world = World::new(&["a", "b"], &[]);
    world.upload_error = Some("413 Payload Too Large".to_string());
    let mut cycle = SyncCycle::start(&st, &local, &Vec::new());
    run(&mut cycle, &mut world);
    assert_eq!(world.log, strings(&["Upload a"]));
    assert_eq!(cycle.finish().err(), Some("Upload a: 413 Payload Too Large".to_string()));
}

#[test]
fn phases_run_in_fixed_order_with_progress() {
    let st = state(&["gone_local.txt", "gone_remote.txt"]);
    let local = vec![item("gone_remote.txt", 1, None), item("new_local.txt", 1, None)];
    let remote = vec![item("gone_local.txt", 1, None), item("new_remote.txt", 1, None)];
    let mut world = World::new(
        &["gone_remote.txt", "new_local.txt"],
        &["gone_local.txt", "new_remote.txt"],
    );
    let mut cycle = SyncCycle::start(&st, &local, &remote);
    run(&mut cycle, &mut world);
    assert_eq!(
        world.log,
        strings(&[
            "DeleteRemote gone_local.txt",
            "DeleteLocal gone_remote.txt",
            "Download new_remote.txt",
            "Upload gone_remote.txt",
            "Upload new_local.txt",
        ])
    );
    assert_eq!(
        world.progress,
        vec![
            ("delete_server".to_string(), 0, 5),
            ("delete_local".to_string(), 1, 5),
            ("download".to_string(), 2, 5),
            ("upload".to_string(), 3, 5),
            ("upload".to_string(), 4, 5),
        ]
    );
    let idle = cycle.progress();
    assert_eq!((idle.phase.as_str(), idle.current, idle.total), ("idle", 0, 0));
    let out = committed(cycle.finish());
    assert_eq!(out.state.paths, strings(&["new_local.txt", "new_remote.txt"]));
    assert_eq!(
        out.warning,
        Some("1 upload(s) skipped (files removed during sync)".to_string())
    );
}

#[test]
fn local_delete_prunes_empty_directories_up_to_the_root() {
    let st = state(&["a/b/c/deep.txt", "a/keep.txt", "top.txt"]);
    let local = vec![
        item("a/b/c/deep.txt", 1, None),
        item("a/keep.txt", 1, None),
        item("top.txt", 1, None),
    ];
    let remote = vec![item("a/keep.txt", 1, None)];
    let mut world = World::new(&["a/b/c/deep.txt", "a/keep.txt", "top.txt"], &["a/keep.txt"]);
    let mut cycle = SyncCycle::start(&st, &local, &remote);
    run(&mut cycle, &mut world);
    let deletes: Vec<String> = world
        .log
        .iter()
        .filter(|l| l.starts_with("DeleteLocal") || l.starts_with("RemoveDir"))
        .cloned()
        .collect();
    assert_eq!(
        deletes,
        strings(&[
            "DeleteLocal a/b/c/deep.txt",
            "RemoveDir a/b/c",
            "RemoveDir a/b",
            "RemoveDir a",
            "DeleteLocal top.txt",
        ])
    );
    assert!(world.dirs.contains("a"));
    assert!(!world.dirs.contains("a/b"));
}

#[test]
fn missing_local_file_is_not_pruned() {
    let st = state(&["a/x.txt"]);
    let mut cycle = SyncCycle::start(&st, &Vec::new(), &Vec::new());
    // Gone on both sides: deleted on the server first, then locally.
    assert_eq!(cycle.next_step().action, Action::DeleteRemote);
    cycle.remote_deleted(Ok(()));
    assert_eq!(cycle.next_step().action, Action::DeleteLocal);
    cycle.local_deleted(false);
    assert_eq!(cycle.next_step().action, Action::Finish);
}

#[test]
fn previously_downloaded_file_is_probed_and_skipped() {
    let st = SyncStateFile {
        paths: Vec::new(),
        downloaded_paths: strings(&["big.iso"]),
        file_hashes: Vec::new(),
    };
    let local = vec![item("big.iso", 1, None)];
    let remote = vec![item("big.iso", 9, None)];
    let mut world = World::new(&["big.iso"], &["big.iso"]);
    let mut cycle = SyncCycle::start(&st, &local, &remote);
    run(&mut cycle, &mut world);
    assert_eq!(world.log, strings(&["Probe big.iso"]));
    let out = committed(cycle.finish());
    assert_eq!(out.state.paths, strings(&["big.iso"]));
    assert!(out.warning.is_none());
}

#[test]
fn recorded_hash_that_is_current_skips_the_download() {
    let st = SyncStateFile {
        paths: strings(&["doc.txt"]),
        downloaded_paths: Vec::new(),
        file_hashes: vec![HashEntry { path: "doc.txt".to_string(), hash: "H1".to_string() }],
    };
    // The host could not hash the local file, so the plan wants the download.
    let local = vec![item("doc.txt", 1, None)];
    let remote = vec![item("doc.txt", 9, Some("H1"))];
    let mut world = World::new(&["doc.txt"], &["doc.txt"]);
    let mut cycle = SyncCycle::start(&st, &local, &remote);
    run(&mut cycle, &mut world);
    assert_eq!(world.log, strings(&["Probe doc.txt"]));

    // A recorded hash that is out of date does not skip it.
    let remote = vec![item("doc.txt", 9, Some("H2"))];
    let mut world = World::new(&["doc.txt"], &["doc.txt"]);
    let mut cycle = SyncCycle::start(&st, &local, &remote);
    run(&mut cycle, &mut world);
    assert_eq!(world.log, strings(&["Download doc.txt"]));
    let out = committed(cycle.finish());
    assert_eq!(out.state.file_hashes.last().map(|h| h.hash.clone()), Some("H2".to_string()));
}

#[test]
fn probe_that_finds_nothing_downloads() {
    let st = SyncStateFile {
        paths: Vec::new(),
        downloaded_paths: strings(&["big.iso"]),
        file_hashes: Vec::new(),
    };
    let remote = vec![item("big.iso", 9, None)];
    let mut world = World::new(&[], &["big.iso"]);
    let mut cycle = SyncCycle::start(&st, &Vec::new(), &remote);
    run(&mut cycle, &mut world);
    assert_eq!(world.log, strings(&["Probe big.iso", "Download big.iso"]));
}

#[test]
fn second_cycle_transfers_nothing() {
    let st = state(&[]);
    let local = vec![item("up.txt", 5, Some("U"))];
    let remote = vec![item("down.txt", 3, Some("D"))];
    let mut world = World::new(&["up.txt"], &["down.txt"]);
    let mut cycle = SyncCycle::start(&st, &local, &remote);
    run(&mut cycle, &mut world);
    let out = committed(cycle.finish());
    assert_eq!(out.state.paths, strings(&["down.txt", "up.txt"]));

    // The sides after the cycle: the download was written later than the
    // server's copy, the upload was stored later than the local file.
    let local = vec![item("down.txt", 50, Some("D")), item("up.txt", 5, Some("U"))];
    let remote = vec![item("down.txt", 3, Some("D")), item("up.txt", 60, Some("U"))];
    let mut world = World::new(&["down.txt", "up.txt"], &["down.txt", "up.txt"]);
    let mut cycle = SyncCycle::start(&out.state, &local, &remote);
    run(&mut cycle, &mut world);
    assert!(world.log.is_empty());
    let again = committed(cycle.finish());
    assert_eq!(again.state.paths, strings(&["down.txt", "up.txt"]));
}

#[test]
fn synced_paths_lie_on_both_sides() {
    let st = state(&["both.txt", "gone_local.txt", "gone_remote.txt"]);
    let local = vec![
        item("both.txt", 1, None),
        item("gone_remote.txt", 1, None),
        item("new_local.txt", 1, None),
        item("Thumbs.db", 1, None),
    ];
    let remote = vec![
        item("both.txt", 1, None),
        item("gone_local.txt", 1, None),
        item("new_remote.txt", 1, None),
        item(".git/config", 1, None),
    ];
    let mut world = World::new(
        &["both.txt", "gone_remote.txt", "new_local.txt", "Thumbs.db"],
        &["both.txt", "gone_local.txt", "new_remote.txt", ".git/config"],
    );
    let mut cycle = SyncCycle::start(&st, &local, &remote);
    run(&mut cycle, &mut world);
    let out = committed(cycle.finish());
    for p in &out.state.paths {
        assert!(world.local.contains(p), "{} is not local", p);
        assert!(world.remote.contains(p), "{} is not remote", p);
        assert!(!is_ignored(p));
    }
    assert_eq!(out.state.paths, strings(&["both.txt", "new_local.txt", "new_remote.txt"]));
}

#[test]
fn byte_totals_saturate() {
    let st = state(&[]);
    let remote = vec![item("a", 1, None), item("b", 1, None)];
    let mut world = World::new(&[], &["a", "b"]);
    world.sizes.insert("a".to_string(), u64::MAX - 1);
    world.sizes.insert("b".to_string(), 7);
    let mut cycle = SyncCycle::start(&st, &Vec::new(), &remote);
    run(&mut cycle, &mut world);
    let out = committed(cycle.finish());
    assert_eq!(out.bytes_downloaded, u64::MAX);
}

#[test]
fn outcome_of_an_operation_that_is_not_pending_changes_nothing() {
    let st = state(&[]);
    let remote = vec![item("a", 1, None)];
    let mut cycle = SyncCycle::start(&st, &Vec::new(), &remote);
    assert_eq!(cycle.next_step().action, Action::Download);
    cycle.uploaded(Uploaded::Sent(5));
    cycle.remote_deleted(Err("x".to_string()));
    cycle.local_deleted(true);
    cycle.dir_removed(true);
    cycle.probed(true);
    cycle.discarded();
    let step = cycle.next_step();
    assert_eq!((step.action, step.path.as_str()), (Action::Download, "a"));
    let p = cycle.progress();
    assert_eq!((p.phase.as_str(), p.current, p.total), ("download", 0, 1));
    cycle.downloaded(Downloaded::Stored(3));
    assert_eq!(cycle.next_step().action, Action::Finish);
    cycle.downloaded(Downloaded::Failed("late".to_string()));
    let out = committed(cycle.finish());
    assert_eq!(out.state.paths, strings(&["a"]));
    assert_eq!((out.bytes_downloaded, out.bytes_uploaded), (3, 0));
}

#[test]
fn a_failed_cycle_takes_no_more_outcomes() {
    let st = state(&[]);
    let local = vec![item("a", 1, None), item("b", 1, None)];
    let mut cycle = SyncCycle::start(&st, &local, &Vec::new());
    cycle.uploaded(Uploaded::Failed("boom".to_string()));
    assert_eq!(cycle.next_step().action, Action::Abort);
    cycle.uploaded(Uploaded::Sent(1));
    assert_eq!(cycle.next_step().action, Action::Abort);
    assert_eq!(cycle.finish().err(), Some("Upload a: boom".to_string()));
}

#[test]
fn no_operation_touches_an_ignored_path() {
    let st = SyncStateFile {
        paths: strings(&[".DS_Store", "a/Thumbs.db", ".git/HEAD", "a/Desktop.ini", "old.txt"]),
        downloaded_paths: strings(&["b/.directory"]),
        file_hashes: Vec::new(),
    };
    let local = vec![
        item(".DS_Store", 9, None),
        item("a/Thumbs.db", 9, None),
        item("b/.directory", 1, None),
        item("new_local.txt", 1, None),
    ];
    let remote = vec![
        item(".git/HEAD", 9, None),
        item("a/Desktop.ini", 9, None),
        item("b/.directory", 9, None),
        item("new_remote.txt", 1, None),
    ];
    let mut world = World::new(
        &[".DS_Store", "a/Thumbs.db", "b/.directory", "new_local.txt"],
        &[".git/HEAD", "a/Desktop.ini", "b/.directory", "new_remote.txt"],
    );
    let mut cycle = SyncCycle::start(&st, &local, &remote);
    run(&mut cycle, &mut world);
    assert_eq!(
        world.log,
        strings(&[
            "DeleteRemote old.txt",
            "DeleteLocal old.txt",
            "Download new_remote.txt",
            "Upload new_local.txt",
        ])
    );
    for p in [".DS_Store", "a/Thumbs.db", "b/.directory"] {
        assert!(world.local.contains(p), "{} was removed", p);
    }
    for p in [".git/HEAD", "a/Desktop.ini", "b/.directory"] {
        assert!(world.remote.contains(p), "{} was deleted", p);
    }
    let out = committed(cycle.finish());
    assert_eq!(out.state.paths, strings(&["new_local.txt", "new_remote.txt"]));

    // The state with nothing but an ignored name, and nothing on either side.
    let st = state(&[".DS_Store"]);
    let cycle = SyncCycle::start(&st, &Vec::new(), &Vec::new());
    assert_eq!(cycle.next_step().action, Action::Finish);
    assert!(committed(cycle.finish()).state.paths.is_empty());
}
