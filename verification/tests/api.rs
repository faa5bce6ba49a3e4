use brandybox::api::{
    is_success, read_reply, upload_timeout_secs, ApiClient, Header, Method, Next, Payload,
    Reading, Reply, Transfer,
};
use brandybox::hasher::{compute_file_hash, hash_candidates};
use brandybox::listing::FileItem;

fn pairs(h: &[Header]) -> Vec<(String, String)> {
    h.iter().map(|x| (x.name.clone(), x.value.clone())).collect()
}

fn pair(a: &str, b: &str) -> (String, String) {
    (a.to_string(), b.to_string())
}

fn status(code: u16, line: &str, body: &str) -> Reply {
    Reply::Status { code, line: line.to_string(), body: body.to_string() }
}

#[test]
fn new_client_has_no_token() {
    let mut c = ApiClient::new("http://host:8081/".to_string());
    assert_eq!(c.base_url, "http://host:8081/");
    assert!(c.access_token.is_none());
    c.set_access_token(Some("tok".to_string()));
    assert_eq!(c.access_token, Some("tok".to_string()));
    assert_eq!(c.base_url, "http://host:8081/");
    c.set_access_token(None);
    assert!(c.access_token.is_none());
}

#[test]
fn login_and_refresh_requests() {
    let c = ApiClient::new("http://host:8081//".to_string());
    let r = c.login("me@example.org", "secret");
    assert_eq!(r.method, Method::Post);
    assert_eq!(r.url, "http://host:8081/api/auth/login");
    assert_eq!(pairs(&r.headers), vec![pair("content-type", "application/json")]);
    assert_eq!(r.timeout_secs, 30);
    match r.payload {
        Payload::Login { email, password } => {
            assert_eq!(email, "me@example.org");
            assert_eq!(password, "secret");
        }
        _ => panic!("wrong payload"),
    }
    let r = c.refresh("rrr");
    assert_eq!(r.method, Method::Post);
    assert_eq!(r.url, "http://host:8081/api/auth/refresh");
    match r.payload {
        Payload::Refresh { refresh_token } => assert_eq!(refresh_token, "rrr"),
        _ => panic!("wrong payload"),
    }
}

#[test]
fn authorised_requests_carry_the_token() {
    let mut c = ApiClient::new("https://b.example".to_string());
    assert_eq!(pairs(&c.headers()), vec![pair("accept", "application/json")]);
    c.set_access_token(Some("abc".to_string()));
    let auth = vec![pair("accept", "application/json"), pair("authorization", "Bearer abc")];
    assert_eq!(pairs(&c.headers()), auth);

    let r = c.me();
    assert_eq!((r.method, r.url.as_str(), r.timeout_secs), (Method::Get, "https://b.example/api/users/me", 30));
    assert_eq!(pairs(&r.headers), auth);
    assert!(matches!(r.payload, Payload::Empty));
    let r = c.get_storage();
    assert_eq!((r.method, r.url.as_str(), r.timeout_secs), (Method::Get, "https://b.example/api/files/storage", 30));
    let r = c.list_users();
    assert_eq!((r.method, r.url.as_str(), r.timeout_secs), (Method::Get, "https://b.example/api/users", 30));
    let r = c.list_files();
    assert_eq!((r.method, r.url.as_str(), r.timeout_secs), (Method::Get, "https://b.example/api/files/list", 60));

    let r = c.change_password("old", "new");
    assert_eq!((r.method, r.url.as_str()), (Method::Post, "https://b.example/api/auth/change-password"));
    let mut with_json = auth.clone();
    with_json.push(pair("content-type", "application/json"));
    assert_eq!(pairs(&r.headers), with_json);
    match r.payload {
        Payload::ChangePassword { current_password, new_password } => {
            assert_eq!(current_password, "old");
            assert_eq!(new_password, "new");
        }
        _ => panic!("wrong payload"),
    }

    let r = c.create_user("u@x.org", "U", "X");
    assert_eq!((r.method, r.url.as_str()), (Method::Post, "https://b.example/api/users"));
    match r.payload {
        Payload::CreateUser { email, first_name, last_name } => {
            assert_eq!((email.as_str(), first_name.as_str(), last_name.as_str()), ("u@x.org", "U", "X"));
        }
        _ => panic!("wrong payload"),
    }
    let r = c.update_user_storage_limit("u@x.org", Some(1024));
    assert_eq!((r.method, r.url.as_str()), (Method::Patch, "https://b.example/api/users/u%40x.org"));
    assert!(matches!(r.payload, Payload::UpdateUser { storage_limit_bytes: Some(1024) }));
    let r = c.delete_user("u+v@x.org");
    assert_eq!((r.method, r.url.as_str()), (Method::Delete, "https://b.example/api/users/u%2Bv%40x.org"));
}

#[test]
fn file_requests_encode_the_path() {
    let mut c = ApiClient::new("https://b.example/".to_string());
    c.set_access_token(Some("t".to_string()));
    let r = c.delete_file("dir/a b.txt");
    assert_eq!(r.method, Method::Delete);
    assert_eq!(r.url, "https://b.example/api/files/delete?path=dir%2Fa%20b.txt");
    assert_eq!(r.timeout_secs, 30);
    let r = c.download_file("Ünï/ç.bin");
    assert_eq!(r.method, Method::Get);
    assert_eq!(r.url, "https://b.example/api/files/download?path=%C3%9Cn%C3%AF%2F%C3%A7.bin");
    assert_eq!(r.timeout_secs, 600);
    let r = c.upload_file("plain-name_1.~x", 3 * 1048576 + 5);
    assert_eq!(r.method, Method::Post);
    assert_eq!(r.url, "https://b.example/api/files/upload?path=plain-name_1.~x");
    assert_eq!(r.timeout_secs, 600 + 3 * 60);
    assert!(matches!(r.payload, Payload::File));
    assert_eq!(
        pairs(&r.headers),
        vec![
            pair("accept", "application/json"),
            pair("authorization", "Bearer t"),
            pair("content-type", "application/octet-stream"),
        ]
    );
}

#[test]
fn upload_timeout_grows_with_the_size_up_to_a_cap() {
    assert_eq!(upload_timeout_secs(0), 600);
    assert_eq!(upload_timeout_secs(1048575), 600);
    assert_eq!(upload_timeout_secs(1048576), 660);
    assert_eq!(upload_timeout_secs(1200 * 1048576), 600 + 1200 * 60);
    assert_eq!(upload_timeout_secs(1201 * 1048576), 600 + 1200 * 60);
    assert_eq!(upload_timeout_secs(u64::MAX), 72600);
}

#[test]
fn success_is_two_hundred_to_two_ninety_nine() {
    assert!(!is_success(199));
    assert!(is_success(200));
    assert!(is_success(204));
    assert!(is_success(299));
    assert!(!is_success(300));
    assert!(!is_success(404));
}

#[test]
fn replies_are_read_by_kind() {
    assert_eq!(read_reply(status(200, "200 OK", "{}"), Reading::Plain), Ok("{}".to_string()));
    assert_eq!(
        read_reply(status(401, "401 Unauthorized", "{\"detail\":\"no\"}"), Reading::Plain),
        Err("401 Unauthorized".to_string())
    );
    assert_eq!(
        read_reply(status(401, "401 Unauthorized", "{\"detail\":\"no\"}"), Reading::WithBody),
        Err("401 Unauthorized {\"detail\":\"no\"}".to_string())
    );
    assert_eq!(read_reply(status(404, "404 Not Found", "x"), Reading::GoneIsFine), Ok(String::new()));
    assert_eq!(
        read_reply(status(404, "404 Not Found", "x"), Reading::Plain),
        Err("404 Not Found".to_string())
    );
    assert_eq!(
        read_reply(status(500, "500 Internal Server Error", ""), Reading::GoneIsFine),
        Err("500 Internal Server Error".to_string())
    );
    assert_eq!(read_reply(status(204, "204 No Content", ""), Reading::GoneIsFine), Ok(String::new()));
    assert_eq!(
        read_reply(Reply::Failed("timed out".to_string()), Reading::WithBody),
        Err("timed out".to_string())
    );
    assert_eq!(
        read_reply(Reply::Unreadable, Reading::Plain),
        Err("failed to read response body".to_string())
    );
}

#[test]
fn transfer_is_tried_three_times() {
    let mut t = Transfer::new();
    match t.after(Reply::Failed("reset".to_string())) {
        Next::Again(secs) => assert_eq!(secs, 2),
        _ => panic!("expected another attempt"),
    }
    match t.after(status(502, "502 Bad Gateway", "  \n")) {
        Next::Again(secs) => assert_eq!(secs, 4),
        _ => panic!("expected another attempt"),
    }
    match t.after(status(507, "507 Insufficient Storage", " quota exceeded \n")) {
        Next::GiveUp(e) => assert_eq!(e, "507 Insufficient Storage: quota exceeded"),
        _ => panic!("expected the end"),
    }
    assert_eq!(t.failed, 3);
}

#[test]
fn transfer_ends_with_the_first_success() {
    let mut t = Transfer::new();
    assert!(matches!(t.after(Reply::Unreadable), Next::Again(2)));
    assert!(matches!(t.after(status(200, "200 OK", "")), Next::Done));
    assert_eq!(t.failed, 1);
    let mut t = Transfer::new();
    assert!(matches!(t.after(Reply::Failed("a".to_string())), Next::Again(2)));
    assert!(matches!(t.after(Reply::Failed("b".to_string())), Next::Again(4)));
    match t.after(status(404, "404 Not Found", "")) {
        Next::GiveUp(e) => assert_eq!(e, "404 Not Found"),
        _ => panic!("expected the end"),
    }
}

#[test]
fn content_hash_is_lowercase_hex_sha256() {
    assert_eq!(
        compute_file_hash(&b"abc".to_vec()),
        "ba7816bf8f01cfea414140de5dae2223b00361a396177a9cb410ff61f20015ad"
    );
    assert_eq!(
        compute_file_hash(&Vec::new()),
        "e3b0c44298fc1c149afbf4c8996fb92427ae41e4649b934ca495991b7852b855"
    );
}

#[test]
fn content_hash_has_the_shape_of_a_digest() {
    for content in [Vec::new(), vec![0u8], vec![255u8; 1000], b"Brandy Box".to_vec()] {
        let h = compute_file_hash(&content);
        assert_eq!(h.chars().count(), 64);
        assert!(h.chars().all(|c| c.is_ascii_digit() || ('a'..='f').contains(&c)));
        assert_eq!(h, compute_file_hash(&content));
    }
    assert_ne!(compute_file_hash(&vec![0u8]), compute_file_hash(&vec![1u8]));
}

#[test]
fn files_to_hash() {
    let item = |p: &str, m: i64, h: Option<&str>| FileItem {
        path: p.to_string(),
        mtime: m,
        hash: h.map(|x| x.to_string()),
    };
    let local = vec![
        item("hashed.txt", 5, None),
        item("unhashed.txt", 5, None),
        item("local_only.txt", 5, None),
        item("sub/Thumbs.db", 5, None),
        item("twice_newer.txt", 5, None),
        item("twice_older.txt", 50, None),
    ];
    let remote = vec![
        item("hashed.txt", 1, Some("h")),
        item("unhashed.txt", 9, None),
        item("sub/Thumbs.db", 9, Some("h")),
        item("twice_newer.txt", 9, Some("h")),
        item("twice_newer.txt", 9, None),
        item("twice_older.txt", 9, Some("h")),
        item("twice_older.txt", 9, None),
    ];
    assert_eq!(
        hash_candidates(&local, &remote),
        vec!["hashed.txt".to_string(), "twice_newer.txt".to_string()]
    );
}
