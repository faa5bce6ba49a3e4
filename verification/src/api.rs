//! The client side of the backend's HTTP interface, as far as it computes:
//! the requests for each operation, the reading of the replies, and the
//! retries of the file transfers. Sending is the host's part.

use vstd::prelude::*;
use vstd::string::StringSliceAdditionalSpecFns;
use crate::listing::text_of;
use crate::text::{drop_trailing, join3, trim, trim_end_of, trimmed, Strip};

verus! {

/// The client: where the backend is, and the access token once logged in.
#[derive(Clone)]
pub struct ApiClient {
    pub base_url: String,
    pub access_token: Option<String>,
}

/// The tokens that a login or a refresh hands out.
pub struct LoginResponse {
    pub access_token: String,
    pub refresh_token: String,
    pub _expires_in: Option<u64>,
}

/// A user account.
pub struct User {
    pub email: String,
    pub first_name: Option<String>,
    pub last_name: Option<String>,
    pub is_admin: Option<bool>,
    pub storage_limit_bytes: Option<i64>,
}

/// How much storage a user has used and may use.
pub struct StorageInfo {
    pub used_bytes: i64,
    pub limit_bytes: Option<i64>,
}

/// The method of a request.
#[derive(Clone, Copy, PartialEq, Eq, Structural, Debug)]
pub enum Method {
    Get,
    Post,
    Patch,
    Delete,
}

/// One header of a request.
pub struct Header {
    pub name: String,
    pub value: String,
}

/// What a request carries. The JSON payloads are given by their fields; the
/// host writes them as JSON objects with these field names.
pub enum Payload {
    Empty,
    Login { email: String, password: String },
    Refresh { refresh_token: String },
    ChangePassword { current_password: String, new_password: String },
    CreateUser { email: String, first_name: String, last_name: String },
    UpdateUser { storage_limit_bytes: Option<i64> },
    /// The bytes of the file that is uploaded.
    File,
}

/// A request for the host to send.
pub struct Request {
    pub method: Method,
    pub url: String,
    pub headers: Vec<Header>,
    pub payload: Payload,
    pub timeout_secs: u64,
}

/// What came back for a request.
pub enum Reply {
    /// A response: its status code, the status as the transport prints it
    /// (code and reason), and the body as text.
    Status { code: u16, line: String, body: String },
    /// A successful response whose body could not be read.
    Unreadable,
    /// No response: the transport's error.
    Failed(String),
}

/// Seconds a plain request may take.
pub const REQUEST_TIMEOUT_SECS: u64 = 30;

/// Seconds the listing may take.
pub const LIST_TIMEOUT_SECS: u64 = 60;

/// Seconds a download may take.
pub const DOWNLOAD_TIMEOUT_SECS: u64 = 600;

/// How often a transfer is tried.
pub const TRANSFER_ATTEMPTS: u64 = 3;

/// A byte that a URL holds as it is: a letter, a digit, `-`, `.`, `_`, `~`.
pub open spec fn is_unreserved(b: u8) -> bool {
    ||| (0x30 <= b && b <= 0x39)
    ||| (0x41 <= b && b <= 0x5a)
    ||| (0x61 <= b && b <= 0x7a)
    ||| b == 0x2d
    ||| b == 0x2e
    ||| b == 0x5f
    ||| b == 0x7e
}

/// The upper-case hex digit for `d`.
pub open spec fn hex_upper(d: u8) -> char {
    if d < 10 {
        (0x30 + d) as char
    } else {
        (0x41 + d - 10) as char
    }
}

/// The bytes percent-encoded: an unreserved byte stands for itself, any
/// other as `%` and its two upper-case hex digits.
pub open spec fn percent_encoded(bytes: Seq<u8>) -> Seq<char>
    decreases bytes.len(),
{
    if bytes.len() == 0 {
        Seq::empty()
    } else {
        let b = bytes.last();
        percent_encoded(bytes.drop_last()) + if is_unreserved(b) {
            seq![b as char]
        } else {
            seq!['%', hex_upper(b >> 4), hex_upper(b & 15)]
        }
    }
}

/// `urlencoding::encode`: percent-encodes every byte of the text's UTF-8
/// form except letters, digits, `-`, `_`, `.` and `~`, with upper-case hex
/// digits.
#[verifier::external_body]
fn url_encode(text: &str) -> (r: String)
    ensures
        r@ == percent_encoded(text.spec_bytes()),
{
    urlencoding::encode(text).into_owned()
}

/// The address of an endpoint: the base address without trailing `/`,
/// followed by the endpoint's path.
pub open spec fn endpoint(base: Seq<char>, path: Seq<char>) -> Seq<char> {
    drop_trailing(base, Strip::Char('/')) + path
}

/// The address of an endpoint that takes a path or a name in its query or
/// its last segment, percent-encoded.
pub open spec fn endpoint_for(base: Seq<char>, path: Seq<char>, subject: Seq<u8>) -> Seq<char> {
    endpoint(base, path) + percent_encoded(subject)
}

/// Headers as pairs of name and value.
pub open spec fn header_views(h: Seq<Header>) -> Seq<(Seq<char>, Seq<char>)> {
    Seq::new(h.len(), |i: int| (h[i].name@, h[i].value@))
}

/// The headers of an authorised request: JSON is accepted, and the access
/// token, where there is one, is the bearer.
pub open spec fn auth_headers(token: Option<Seq<char>>) -> Seq<(Seq<char>, Seq<char>)> {
    let accept = seq![("accept"@, "application/json"@)];
    match token {
        Some(t) => accept.push(("authorization"@, "Bearer "@ + t)),
        None => accept,
    }
}

/// The header that marks a JSON body.
pub open spec fn json_header() -> (Seq<char>, Seq<char>) {
    ("content-type"@, "application/json"@)
}

/// The header that marks a body of raw bytes.
pub open spec fn bytes_header() -> (Seq<char>, Seq<char>) {
    ("content-type"@, "application/octet-stream"@)
}

/// Seconds an upload of `len` bytes may take: ten minutes, and one more
/// minute for each full MiB, up to 1200 of them.
pub open spec fn upload_timeout(len: nat) -> nat {
    let mib = len / 1048576;
    (600 + (if mib > 1200 { 1200 } else { mib }) * 60) as nat
}

/// Whether a status code tells success: 200 to 299.
pub open spec fn status_ok(code: u16) -> bool {
    200 <= code <= 299
}

/// Whether a status code tells success.
pub fn is_success(code: u16) -> (r: bool)
    ensures
        r == status_ok(code),
{
    200 <= code && code <= 299
}

/// Seconds an upload of `len` bytes may take.
pub fn upload_timeout_secs(len: u64) -> (r: u64)
    ensures
        r == upload_timeout(len as nat),
{
    let mib = len / 1048576;
    let extra = if mib > 1200 {
        1200
    } else {
        mib
    };
    600 + extra * 60
}

fn header(name: &str, value: &str) -> (h: Header)
    ensures
        h.name@ == name@,
        h.value@ == value@,
{
    Header { name: name.to_owned(), value: value.to_owned() }
}

impl ApiClient {
    /// A client for the backend at `base_url`, not logged in.
    pub fn new(base_url: String) -> (c: ApiClient)
        ensures
            c.base_url == base_url,
            c.access_token is None,
    {
        ApiClient { base_url, access_token: None }
    }

    /// Sets or clears the access token.
    pub fn set_access_token(&mut self, token: Option<String>)
        ensures
            final(self).access_token == token,
            final(self).base_url == old(self).base_url,
    {
        self.access_token = token;
    }

    fn url(&self, path: &str) -> (r: String)
        ensures
            r@ == endpoint(self.base_url@, path@),
    {
        let mut r = trim_end_of(self.base_url.as_str(), '/');
        r.append(path);
        r
    }

    fn url_for(&self, path: &str, subject: &str) -> (r: String)
        ensures
            r@ == endpoint_for(self.base_url@, path@, subject.spec_bytes()),
    {
        let mut r = self.url(path);
        let enc = url_encode(subject);
        r.append(enc.as_str());
        r
    }

    /// The headers of an authorised request.
    pub fn headers(&self) -> (h: Vec<Header>)
        ensures
            header_views(h@) == auth_headers(text_of(self.access_token)),
    {
        let mut h: Vec<Header> = Vec::new();
        h.push(header("accept", "application/json"));
        match &self.access_token {
            Some(t) => {
                let mut v = "Bearer ".to_owned();
                v.append(t.as_str());
                h.push(Header { name: "authorization".to_owned(), value: v });
            },
            None => {},
        }
        assert(header_views(h@) =~= auth_headers(text_of(self.access_token)));
        h
    }

    fn json_headers(&self, authorised: bool) -> (h: Vec<Header>)
        ensures
            header_views(h@) == if authorised {
                auth_headers(text_of(self.access_token)).push(json_header())
            } else {
                seq![json_header()]
            },
    {
        let mut h: Vec<Header> = if authorised {
            self.headers()
        } else {
            Vec::new()
        };
        let ghost before = header_views(h@);
        h.push(header("content-type", "application/json"));
        assert(header_views(h@) =~= before.push(json_header()));
        h
    }

    /// The request that logs in with a password.
    pub fn login(&self, email: &str, password: &str) -> (r: Request)
        ensures
            r.method == Method::Post,
            r.url@ == endpoint(self.base_url@, "/api/auth/login"@),
            header_views(r.headers@) == seq![json_header()],
            r.payload matches Payload::Login { email: e, password: p } && e@ == email@ && p@
                == password@,
            r.timeout_secs == REQUEST_TIMEOUT_SECS,
    {
        Request {
            method: Method::Post,
            url: self.url("/api/auth/login"),
            headers: self.json_headers(false),
            payload: Payload::Login { email: email.to_owned(), password: password.to_owned() },
            timeout_secs: REQUEST_TIMEOUT_SECS,
        }
    }

    /// The request that trades a refresh token for new tokens.
    pub fn refresh(&self, refresh_token: &str) -> (r: Request)
        ensures
            r.method == Method::Post,
            r.url@ == endpoint(self.base_url@, "/api/auth/refresh"@),
            header_views(r.headers@) == seq![json_header()],
            r.payload matches Payload::Refresh { refresh_token: t } && t@ == refresh_token@,
            r.timeout_secs == REQUEST_TIMEOUT_SECS,
    {
        Request {
            method: Method::Post,
            url: self.url("/api/auth/refresh"),
            headers: self.json_headers(false),
            payload: Payload::Refresh { refresh_token: refresh_token.to_owned() },
            timeout_secs: REQUEST_TIMEOUT_SECS,
        }
    }

    fn get(&self, path: &str, timeout_secs: u64) -> (r: Request)
        ensures
            r.method == Method::Get,
            r.url@ == endpoint(self.base_url@, path@),
            header_views(r.headers@) == auth_headers(text_of(self.access_token)),
            r.payload is Empty,
            r.timeout_secs == timeout_secs,
    {
        Request {
            method: Method::Get,
            url: self.url(path),
            headers: self.headers(),
            payload: Payload::Empty,
            timeout_secs,
        }
    }

    /// The request for the logged-in user's account.
    pub fn me(&self) -> (r: Request)
        ensures
            r.method == Method::Get,
            r.url@ == endpoint(self.base_url@, "/api/users/me"@),
            header_views(r.headers@) == auth_headers(text_of(self.access_token)),
            r.payload is Empty,
            r.timeout_secs == REQUEST_TIMEOUT_SECS,
    {
        self.get("/api/users/me", REQUEST_TIMEOUT_SECS)
    }

    /// The request that changes the password.
    pub fn change_password(&self, current: &str, new_pass: &str) -> (r: Request)
        ensures
            r.method == Method::Post,
            r.url@ == endpoint(self.base_url@, "/api/auth/change-password"@),
            header_views(r.headers@) == auth_headers(text_of(self.access_token)).push(
                json_header(),
            ),
            r.payload matches Payload::ChangePassword { current_password: c, new_password: n }
                && c@ == current@ && n@ == new_pass@,
            r.timeout_secs == REQUEST_TIMEOUT_SECS,
    {
        Request {
            method: Method::Post,
            url: self.url("/api/auth/change-password"),
            headers: self.json_headers(true),
            payload: Payload::ChangePassword {
                current_password: current.to_owned(),
                new_password: new_pass.to_owned(),
            },
            timeout_secs: REQUEST_TIMEOUT_SECS,
        }
    }

    /// The request for the storage figures.
    pub fn get_storage(&self) -> (r: Request)
        ensures
            r.method == Method::Get,
            r.url@ == endpoint(self.base_url@, "/api/files/storage"@),
            header_views(r.headers@) == auth_headers(text_of(self.access_token)),
            r.payload is Empty,
            r.timeout_secs == REQUEST_TIMEOUT_SECS,
    {
        self.get("/api/files/storage", REQUEST_TIMEOUT_SECS)
    }

    /// The request for the remote listing.
    pub fn list_files(&self) -> (r: Request)
        ensures
            r.method == Method::Get,
            r.url@ == endpoint(self.base_url@, "/api/files/list"@),
            header_views(r.headers@) == auth_headers(text_of(self.access_token)),
            r.payload is Empty,
            r.timeout_secs == LIST_TIMEOUT_SECS,
    {
        self.get("/api/files/list", LIST_TIMEOUT_SECS)
    }

    /// The request that uploads `len` bytes as the file `path`.
    pub fn upload_file(&self, path: &str, len: u64) -> (r: Request)
        ensures
            r.method == Method::Post,
            r.url@ == endpoint_for(self.base_url@, "/api/files/upload?path="@, path.spec_bytes()),
            header_views(r.headers@) == auth_headers(text_of(self.access_token)).push(
                bytes_header(),
            ),
            r.payload is File,
            r.timeout_secs == upload_timeout(len as nat),
    {
        let mut h = self.headers();
        let ghost before = header_views(h@);
        h.push(header("content-type", "application/octet-stream"));
        assert(header_views(h@) =~= before.push(bytes_header()));
        Request {
            method: Method::Post,
            url: self.url_for("/api/files/upload?path=", path),
            headers: h,
            payload: Payload::File,
            timeout_secs: upload_timeout_secs(len),
        }
    }

    /// The request that downloads the file `path`.
    pub fn download_file(&self, path: &str) -> (r: Request)
        ensures
            r.method == Method::Get,
            r.url@ == endpoint_for(self.base_url@, "/api/files/download?path="@, path.spec_bytes()),
            header_views(r.headers@) == auth_headers(text_of(self.access_token)),
            r.payload is Empty,
            r.timeout_secs == DOWNLOAD_TIMEOUT_SECS,
    {
        Request {
            method: Method::Get,
            url: self.url_for("/api/files/download?path=", path),
            headers: self.headers(),
            payload: Payload::Empty,
            timeout_secs: DOWNLOAD_TIMEOUT_SECS,
        }
    }

    /// The request that deletes the file `path` on the server.
    pub fn delete_file(&self, path: &str) -> (r: Request)
        ensures
            r.method == Method::Delete,
            r.url@ == endpoint_for(self.base_url@, "/api/files/delete?path="@, path.spec_bytes()),
            header_views(r.headers@) == auth_headers(text_of(self.access_token)),
            r.payload is Empty,
            r.timeout_secs == REQUEST_TIMEOUT_SECS,
    {
        Request {
            method: Method::Delete,
            url: self.url_for("/api/files/delete?path=", path),
            headers: self.headers(),
            payload: Payload::Empty,
            timeout_secs: REQUEST_TIMEOUT_SECS,
        }
    }

    /// The request for the list of users.
    pub fn list_users(&self) -> (r: Request)
        ensures
            r.method == Method::Get,
            r.url@ == endpoint(self.base_url@, "/api/users"@),
            header_views(r.headers@) == auth_headers(text_of(self.access_token)),
            r.payload is Empty,
            r.timeout_secs == REQUEST_TIMEOUT_SECS,
    {
        self.get("/api/users", REQUEST_TIMEOUT_SECS)
    }

    /// The request that creates a user.
    pub fn create_user(&self, email: &str, first_name: &str, last_name: &str) -> (r: Request)
        ensures
            r.method == Method::Post,
            r.url@ == endpoint(self.base_url@, "/api/users"@),
            header_views(r.headers@) == auth_headers(text_of(self.access_token)).push(
                json_header(),
            ),
            r.payload matches Payload::CreateUser { email: e, first_name: f, last_name: l } && e@
                == email@ && f@ == first_name@ && l@ == last_name@,
            r.timeout_secs == REQUEST_TIMEOUT_SECS,
    {
        Request {
            method: Method::Post,
            url: self.url("/api/users"),
            headers: self.json_headers(true),
            payload: Payload::CreateUser {
                email: email.to_owned(),
                first_name: first_name.to_owned(),
                last_name: last_name.to_owned(),
            },
            timeout_secs: REQUEST_TIMEOUT_SECS,
        }
    }

    /// The request that sets or lifts a user's storage limit.
    pub fn update_user_storage_limit(&self, email: &str, limit_bytes: Option<i64>) -> (r: Request)
        ensures
            r.method == Method::Patch,
            r.url@ == endpoint_for(self.base_url@, "/api/users/"@, email.spec_bytes()),
            header_views(r.headers@) == auth_headers(text_of(self.access_token)).push(
                json_header(),
            ),
            r.payload matches Payload::UpdateUser { storage_limit_bytes: l } && l == limit_bytes,
            r.timeout_secs == REQUEST_TIMEOUT_SECS,
    {
        Request {
            method: Method::Patch,
            url: self.url_for("/api/users/", email),
            headers: self.json_headers(true),
            payload: Payload::UpdateUser { storage_limit_bytes: limit_bytes },
            timeout_secs: REQUEST_TIMEOUT_SECS,
        }
    }

    /// The request that deletes a user.
    pub fn delete_user(&self, email: &str) -> (r: Request)
        ensures
            r.method == Method::Delete,
            r.url@ == endpoint_for(self.base_url@, "/api/users/"@, email.spec_bytes()),
            header_views(r.headers@) == auth_headers(text_of(self.access_token)),
            r.payload is Empty,
            r.timeout_secs == REQUEST_TIMEOUT_SECS,
    {
        Request {
            method: Method::Delete,
            url: self.url_for("/api/users/", email),
            headers: self.headers(),
            payload: Payload::Empty,
            timeout_secs: REQUEST_TIMEOUT_SECS,
        }
    }
}

/// How the reply to a request is read.
#[derive(Clone, Copy, PartialEq, Eq, Structural, Debug)]
pub enum Reading {
    /// A refusal is reported by its status alone.
    Plain,
    /// A refusal is reported by its status and its body: login and refresh.
    WithBody,
    /// As `Plain`, and a 404 counts as success: deleting a file.
    GoneIsFine,
}

/// What a reply means: the body of a success, or the error as text.
pub open spec fn reply_read(reply: Reply, how: Reading) -> Result<Seq<char>, Seq<char>> {
    match reply {
        Reply::Failed(e) => Err(e@),
        Reply::Unreadable => Err("failed to read response body"@),
        Reply::Status { code, line, body } => if how == Reading::GoneIsFine && code == 404 {
            Ok(Seq::empty())
        } else if status_ok(code) {
            Ok(body@)
        } else if how == Reading::WithBody {
            Err(line@ + " "@ + body@)
        } else {
            Err(line@)
        },
    }
}

/// The characters of a result of texts.
pub open spec fn result_text(r: Result<String, String>) -> Result<Seq<char>, Seq<char>> {
    match r {
        Ok(s) => Ok(s@),
        Err(e) => Err(e@),
    }
}

/// Reads the reply to a request that is sent once.
pub fn read_reply(reply: Reply, how: Reading) -> (r: Result<String, String>)
    ensures
        result_text(r) == reply_read(reply, how),
{
    match reply {
        Reply::Failed(e) => Err(e),
        Reply::Unreadable => Err("failed to read response body".to_owned()),
        Reply::Status { code, line, body } => {
            if how == Reading::GoneIsFine && code == 404 {
                Ok(String::new())
            } else if is_success(code) {
                Ok(body)
            } else if how == Reading::WithBody {
                Err(join3(line.as_str(), " ", body.as_str()))
            } else {
                Err(line)
            }
        },
    }
}

/// The error that a failed attempt of a transfer leaves: the transport's
/// error; for a refusal its status, and its body where that is not blank.
pub open spec fn attempt_error(reply: Reply) -> Seq<char> {
    match reply {
        Reply::Failed(e) => e@,
        Reply::Unreadable => "failed to read response body"@,
        Reply::Status { code, line, body } => if trimmed(body@).len() == 0 {
            line@
        } else {
            line@ + ": "@ + trimmed(body@)
        },
    }
}

/// Whether an attempt of a transfer succeeded.
pub open spec fn attempt_ok(reply: Reply) -> bool {
    reply matches Reply::Status { code, .. } && status_ok(code)
}

/// Seconds to wait after the failed attempt number `attempt`, counted from
/// 0: two seconds more after each.
pub open spec fn backoff(attempt: nat) -> nat {
    2 * (attempt + 1)
}

/// How a transfer goes on after an attempt.
pub enum Next {
    /// The transfer is done.
    Done,
    /// Wait this many seconds, then send the request again.
    Again(u64),
    /// The transfer has failed for good, with the last attempt's error.
    GiveUp(String),
}

/// The retries of one file transfer: up to three attempts, with a growing
/// pause between them.
pub struct Transfer {
    /// Failed attempts so far.
    pub failed: u64,
}

impl Transfer {
    /// A transfer before its first attempt.
    pub fn new() -> (t: Transfer)
        ensures
            t.failed == 0,
    {
        Transfer { failed: 0 }
    }

    /// Takes the reply to an attempt and says how the transfer goes on: done
    /// on success; after the first and the second failure another attempt,
    /// two and four seconds later; after the third the last error.
    pub fn after(&mut self, reply: Reply) -> (next: Next)
        ensures
            attempt_ok(reply) ==> next is Done && final(self).failed == old(self).failed,
            !attempt_ok(reply) && old(self).failed + 1 < TRANSFER_ATTEMPTS ==> next
                == Next::Again(backoff(old(self).failed as nat) as u64) && final(self).failed
                == old(self).failed + 1,
            !attempt_ok(reply) && old(self).failed + 1 >= TRANSFER_ATTEMPTS ==> (next matches Next::GiveUp(
                e,
            ) && e@ == attempt_error(reply)) && final(self).failed == TRANSFER_ATTEMPTS,
    {
        let error = match reply {
            Reply::Failed(e) => e,
            Reply::Unreadable => "failed to read response body".to_owned(),
            Reply::Status { code, line, body } => {
                if is_success(code) {
                    return Next::Done;
                }
                let text = trim(body.as_str());
                if text.as_str().is_empty() {
                    line
                } else {
                    join3(line.as_str(), ": ", text.as_str())
                }
            },
        };
        let attempt = self.failed;
        if attempt < TRANSFER_ATTEMPTS - 1 {
            self.failed = attempt + 1;
            Next::Again(2 * (attempt + 1))
        } else {
            self.failed = TRANSFER_ATTEMPTS;
            Next::GiveUp(error)
        }
    }
}

} // verus!
