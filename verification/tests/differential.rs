use std::collections::{HashMap, HashSet};
use std::path::Path;

use brandybox::api::ApiClient;
use brandybox::listing::FileItem;
use brandybox::paths::{is_ignored, path_depth};
use brandybox::plan::build_plan;
use brandybox::state::{HashEntry, SyncStateFile};

/// A small deterministic generator.
struct Rng(u64);

impl Rng {
    fn next(&mut self) -> u64 {
        self.0 = self.0.wrapping_mul(6364136223846793005).wrapping_add(1442695040888963407);
        self.0 >> 33
    }

    fn below(&mut self, n: u64) -> u64 {
        self.next() % n
    }

    fn pick<'a>(&mut self, from: &[&'a str]) -> &'a str {
        from[self.below(from.len() as u64) as usize]
    }
}

const SEGMENTS: [&str; 12] = [
    "a", "b", "docs", ".git", "Thumbs.db", ".DS_Store", "x.txt", "Desktop.ini", ".directory",
    "ä", ".gitignore", "z",
];

fn random_path(rng: &mut Rng) -> String {
    let n = 1 + rng.below(4);
    let mut parts = Vec::new();
    for _ in 0..n {
        parts.push(rng.pick(&SEGMENTS));
    }
    parts.join("/")
}

fn random_item(rng: &mut Rng) -> FileItem {
    let hash = match rng.below(3) {
        0 => None,
        1 => Some("h1".to_string()),
        _ => Some("h2".to_string()),
    };
    FileItem { path: random_path(rng), mtime: rng.below(4) as i64 - 1, hash }
}

/// The ignore rule, read off the standard library's notion of a file name.
fn ignored_by_file_name(path: &str) -> bool {
    let normalized = path.replace('\\', "/");
    if normalized.contains("/.git/") || normalized.starts_with(".git/") {
        return true;
    }
    let name = Path::new(&normalized).file_name().and_then(|n| n.to_str()).unwrap_or("");
    [".directory", "Thumbs.db", "Desktop.ini", ".DS_Store"].contains(&name)
}

#[test]
fn ignore_rule_agrees_with_file_names() {
    let pieces = ["", "/", ".", "..", "a", "Thumbs.db", ".git", ".DS_Store", "\\", "x.git", "b"];
    let mut rng = Rng(7);
    for _ in 0..20000 {
        let n = rng.below(6);
        let mut s = String::new();
        for _ in 0..n {
            s.push_str(rng.pick(&pieces));
            if rng.below(2) == 0 {
                s.push('/');
            }
        }
        assert_eq!(is_ignored(&s), ignored_by_file_name(&s), "{:?}", s);
    }
}

/// The plan, computed with hash sets and hash maps.
struct Reference {
    to_delete_remote: HashSet<String>,
    to_delete_local: HashSet<String>,
    to_download: Vec<String>,
    to_upload: Vec<String>,
    base_synced: HashSet<String>,
    file_hashes: HashMap<String, String>,
}

fn reference(state: &SyncStateFile, local: &[FileItem], remote: &[FileItem]) -> Reference {
    let last_synced: HashSet<String> = state.paths.iter().cloned().collect();
    let mut file_hashes: HashMap<String, String> =
        state.file_hashes.iter().map(|e| (e.path.clone(), e.hash.clone())).collect();
    let local_by_path: HashMap<String, i64> =
        local.iter().map(|i| (i.path.clone(), i.mtime)).collect();
    let remote_by_path: HashMap<String, i64> =
        remote.iter().map(|i| (i.path.clone(), i.mtime)).collect();
    let remote_hashes: HashMap<String, String> = remote
        .iter()
        .filter_map(|i| i.hash.clone().map(|h| (i.path.clone(), h)))
        .collect();
    let remote_by_item: HashMap<String, &FileItem> =
        remote.iter().map(|i| (i.path.clone(), i)).collect();
    let current_local: HashSet<String> = local_by_path.keys().cloned().collect();
    let current_remote: HashSet<String> = remote_by_path.keys().cloned().collect();
    let counted_local = current_local.iter().filter(|p| !ignored_by_file_name(p)).count();

    let mut to_delete_remote: HashSet<String> = last_synced
        .difference(&current_local)
        .filter(|p| !ignored_by_file_name(p))
        .cloned()
        .collect();
    if to_delete_remote.len() > 50 && to_delete_remote.len() > counted_local {
        to_delete_remote.clear();
    }
    let to_delete_local: HashSet<String> = last_synced
        .difference(&current_remote)
        .filter(|p| !ignored_by_file_name(p))
        .cloned()
        .collect();

    let remaining_local: HashSet<String> =
        current_local.difference(&to_delete_local).cloned().collect();
    let remaining_remote: HashSet<String> =
        current_remote.difference(&to_delete_remote).cloned().collect();
    let base_synced: HashSet<String> = remaining_local
        .intersection(&remaining_remote)
        .filter(|p| !ignored_by_file_name(p))
        .cloned()
        .collect();

    let mut to_download: Vec<String> = current_remote
        .difference(&current_local)
        .filter(|p| !ignored_by_file_name(p))
        .cloned()
        .collect();
    to_download.retain(|p| !to_delete_remote.contains(p));
    for item in local {
        if !ignored_by_file_name(&item.path) && current_remote.contains(&item.path) {
            let remote_mtime = remote_by_path.get(&item.path).copied().unwrap_or(0);
            if remote_mtime > item.mtime {
                if let Some(server_hash) = remote_hashes.get(&item.path) {
                    if item.hash.as_ref() == Some(server_hash) {
                        file_hashes.insert(item.path.clone(), server_hash.clone());
                        continue;
                    }
                }
                to_download.push(item.path.clone());
            }
        }
    }
    to_download.sort();
    to_download.dedup();

    let to_upload: Vec<String> = local
        .iter()
        .filter(|i| !ignored_by_file_name(&i.path))
        .filter(|i| match remote_by_item.get(&i.path) {
            None => true,
            Some(r) => {
                if r.hash.is_some() && i.hash == r.hash {
                    return false;
                }
                i.mtime > r.mtime
            }
        })
        .map(|i| i.path.clone())
        .collect();

    Reference { to_delete_remote, to_delete_local, to_download, to_upload, base_synced, file_hashes }
}

fn as_set(v: &[String]) -> HashSet<String> {
    v.iter().cloned().collect()
}

fn deepest_first(v: &[String]) -> bool {
    v.windows(2).all(|w| path_depth(&w[0]) >= path_depth(&w[1]))
}

fn compare(state: &SyncStateFile, local: &[FileItem], remote: &[FileItem]) {
    let local_vec: Vec<FileItem> = local
        .iter()
        .map(|i| FileItem { path: i.path.clone(), mtime: i.mtime, hash: i.hash.clone() })
        .collect();
    let remote_vec: Vec<FileItem> = remote
        .iter()
        .map(|i| FileItem { path: i.path.clone(), mtime: i.mtime, hash: i.hash.clone() })
        .collect();
    let plan = build_plan(state, &local_vec, &remote_vec);
    let want = reference(state, local, remote);

    assert_eq!(as_set(&plan.to_delete_remote), want.to_delete_remote);
    assert_eq!(plan.to_delete_remote.len(), want.to_delete_remote.len());
    assert!(deepest_first(&plan.to_delete_remote));
    assert_eq!(as_set(&plan.to_delete_local), want.to_delete_local);
    assert_eq!(plan.to_delete_local.len(), want.to_delete_local.len());
    assert!(deepest_first(&plan.to_delete_local));
    assert_eq!(plan.to_download, want.to_download);
    assert_eq!(plan.to_upload, want.to_upload);
    assert_eq!(as_set(&plan.base_synced), want.base_synced);
    let hashes: HashMap<String, String> =
        plan.file_hashes.iter().map(|e| (e.path.clone(), e.hash.clone())).collect();
    assert_eq!(hashes, want.file_hashes);

    // What holds of every plan.
    for p in plan
        .to_delete_remote
        .iter()
        .chain(&plan.to_delete_local)
        .chain(&plan.to_download)
        .chain(&plan.to_upload)
        .chain(&plan.base_synced)
    {
        assert!(!is_ignored(p), "{} is ignored", p);
    }
    for p in &plan.to_delete_remote {
        assert!(!plan.to_download.contains(p));
        assert!(!plan.to_upload.contains(p));
    }
    for p in &plan.to_delete_local {
        assert!(!plan.to_download.contains(p));
    }
    if plan.guardrail_tripped {
        assert!(plan.to_delete_remote.is_empty());
    }
}

#[test]
fn plans_agree_with_the_computation_on_sets() {
    let mut rng = Rng(42);
    for _ in 0..3000 {
        let state = SyncStateFile {
            paths: (0..rng.below(8)).map(|_| random_path(&mut rng)).collect(),
            downloaded_paths: Vec::new(),
            file_hashes: (0..rng.below(3))
                .map(|_| HashEntry { path: random_path(&mut rng), hash: "h0".to_string() })
                .collect(),
        };
        let local: Vec<FileItem> = (0..rng.below(8)).map(|_| random_item(&mut rng)).collect();
        let remote: Vec<FileItem> = (0..rng.below(8)).map(|_| random_item(&mut rng)).collect();
        compare(&state, &local, &remote);
    }
}

#[test]
fn large_plans_agree_with_the_computation_on_sets() {
    let mut rng = Rng(9);
    for round in 0..20 {
        let synced: Vec<String> = (0..120).map(|i| format!("d{}/f{}", i % 7, i)).collect();
        let keep = rng.below(120) as usize;
        let local: Vec<FileItem> = synced
            .iter()
            .take(keep)
            .map(|p| FileItem { path: p.clone(), mtime: 1, hash: None })
            .collect();
        let remote: Vec<FileItem> = synced
            .iter()
            .skip(round)
            .map(|p| FileItem { path: p.clone(), mtime: 1, hash: None })
            .collect();
        let state = SyncStateFile {
            paths: synced,
            downloaded_paths: Vec::new(),
            file_hashes: Vec::new(),
        };
        compare(&state, &local, &remote);
    }
}

#[test]
fn equal_hashes_stop_both_transfers_whatever_the_stamps() {
    for (local_mtime, remote_mtime) in [(1, 2), (2, 1), (5, 5), (-3, 100), (100, -3)] {
        let local = vec![FileItem {
            path: "same.bin".to_string(),
            mtime: local_mtime,
            hash: Some("H".to_string()),
        }];
        let remote = vec![FileItem {
            path: "same.bin".to_string(),
            mtime: remote_mtime,
            hash: Some("H".to_string()),
        }];
        let plan = build_plan(&SyncStateFile::empty(), &local, &remote);
        assert!(plan.to_download.is_empty());
        assert!(plan.to_upload.is_empty());
    }
}

#[test]
fn unknown_hash_never_counts_as_equal() {
    let local = vec![FileItem { path: "f".to_string(), mtime: 1, hash: None }];
    let remote = vec![FileItem { path: "f".to_string(), mtime: 2, hash: None }];
    let plan = build_plan(&SyncStateFile::empty(), &local, &remote);
    assert_eq!(plan.to_download, vec!["f".to_string()]);
    let remote = vec![FileItem { path: "f".to_string(), mtime: 0, hash: Some("H".to_string()) }];
    let plan = build_plan(&SyncStateFile::empty(), &local, &remote);
    assert_eq!(plan.to_upload, vec!["f".to_string()]);
}

#[test]
fn stale_state_deletes_locally_and_uploads_the_same_path() {
    // In sync before, still there locally, gone on the server.
    let state = SyncStateFile {
        paths: vec!["a".to_string()],
        downloaded_paths: Vec::new(),
        file_hashes: Vec::new(),
    };
    let local = vec![FileItem { path: "a".to_string(), mtime: 1, hash: None }];
    let plan = build_plan(&state, &local, &Vec::new());
    assert_eq!(plan.to_delete_local, vec!["a".to_string()]);
    assert_eq!(plan.to_upload, vec!["a".to_string()]);
}

#[test]
fn url_encoding_agrees_with_the_encoder() {
    let client = ApiClient::new("http://h".to_string());
    let mut rng = Rng(3);
    let alphabet: Vec<char> =
        "abcXYZ019-_.~ /?&=%+#'\"\\äß€😀\n\t".chars().collect();
    for _ in 0..500 {
        let n = rng.below(12);
        let s: String =
            (0..n).map(|_| alphabet[rng.below(alphabet.len() as u64) as usize]).collect();
        let url = client.delete_file(&s).url;
        assert_eq!(url, format!("http://h/api/files/delete?path={}", urlencoding::encode(&s)));
        let tail = &url["http://h/api/files/delete?path=".len()..];
        assert!(tail.bytes().all(|b| b.is_ascii_alphanumeric() || b"-_.~%".contains(&b)));
        assert_eq!(urlencoding::decode(tail).unwrap(), s);
    }
}

#[test]
fn guardrail_counts_only_local_files_that_are_not_ignored() {
    let gone: Vec<String> = (1..=55).map(|i| format!("gone{:02}", i)).collect();
    let state = SyncStateFile {
        paths: gone.clone(),
        downloaded_paths: Vec::new(),
        file_hashes: Vec::new(),
    };
    // Sixty local entries, all of them ignored: none counts.
    let ignored_only: Vec<FileItem> = (1..=60)
        .map(|i| FileItem { path: format!("d{}/Thumbs.db", i), mtime: 1, hash: None })
        .collect();
    let plan = build_plan(&state, &ignored_only, &Vec::new());
    assert!(plan.guardrail_tripped);
    assert!(plan.to_delete_remote.is_empty());
    compare(&state, &ignored_only, &Vec::new());

    // Fifty-five local files that count: the deletions go ahead.
    let counted: Vec<FileItem> = (1..=55)
        .map(|i| FileItem { path: format!("kept{:02}", i), mtime: 1, hash: None })
        .collect();
    let plan = build_plan(&state, &counted, &Vec::new());
    assert!(!plan.guardrail_tripped);
    assert_eq!(plan.to_delete_remote.len(), 55);

    // One fewer, and ignored entries beside them: held back.
    let mut mixed: Vec<FileItem> = (1..=54)
        .map(|i| FileItem { path: format!("kept{:02}", i), mtime: 1, hash: None })
        .collect();
    mixed.extend(ignored_only);
    let plan = build_plan(&state, &mixed, &Vec::new());
    assert!(plan.guardrail_tripped);
    assert!(plan.to_delete_remote.is_empty());
    compare(&state, &mixed, &Vec::new());
}

#[test]
fn ignored_names_in_the_state_are_not_deleted_locally() {
    let state = SyncStateFile {
        paths: vec![
            ".DS_Store".to_string(),
            "docs/Thumbs.db".to_string(),
            ".git/config".to_string(),
            "docs/gone.txt".to_string(),
        ],
        downloaded_paths: Vec::new(),
        file_hashes: Vec::new(),
    };
    let local = vec![
        FileItem { path: ".DS_Store".to_string(), mtime: 1, hash: None },
        FileItem { path: "docs/gone.txt".to_string(), mtime: 1, hash: None },
    ];
    let plan = build_plan(&state, &local, &Vec::new());
    assert_eq!(plan.to_delete_local, vec!["docs/gone.txt".to_string()]);
    assert!(plan.to_delete_remote.is_empty());
    assert!(plan.to_download.is_empty());
    assert_eq!(plan.to_upload, vec!["docs/gone.txt".to_string()]);
    assert!(plan.base_synced.is_empty());

    let empty = build_plan(
        &SyncStateFile {
            paths: vec![".DS_Store".to_string()],
            downloaded_paths: Vec::new(),
            file_hashes: Vec::new(),
        },
        &Vec::new(),
        &Vec::new(),
    );
    assert!(empty.to_delete_local.is_empty());
    assert!(empty.to_delete_remote.is_empty());
}
