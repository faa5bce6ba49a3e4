use brandybox::listing::FileItem;
use brandybox::plan::build_plan;
use brandybox::state::SyncStateFile;

fn remote(path: &str, mtime: i64, hash: Option<&str>) -> FileItem {
    FileItem { path: path.to_string(), mtime, hash: hash.map(|h| h.to_string()) }
}

/// A file that was in sync and has been deleted locally is deleted on the
/// server and not downloaded again.
#[test]
fn delete_local_then_sync_removes_from_server_not_download() {
    let state = SyncStateFile {
        paths: vec!["DJI_0011.MP4".to_string()],
        downloaded_paths: Vec::new(),
        file_hashes: Vec::new(),
    };
    let current_local: Vec<FileItem> = Vec::new();
    let current_remote = vec![remote("DJI_0011.MP4", 100, None)];

    let plan = build_plan(&state, &current_local, &current_remote);
    assert!(
        plan.to_delete_remote.contains(&"DJI_0011.MP4".to_string()),
        "file deleted locally must be in to_delete_remote so it is removed from server"
    );
    assert!(
        !plan.to_download.contains(&"DJI_0011.MP4".to_string()),
        "file deleted locally must not be in to_download (must not be re-downloaded)"
    );
}
