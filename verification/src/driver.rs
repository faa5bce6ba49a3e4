//! The driver's decisions: whether a cycle may start, when the background
//! loop runs one, and which status a cycle ends in.

use vstd::prelude::*;
use crate::credentials::{is_overridden, overridden};
use crate::commit::SyncOutcome;
use crate::status::{Reporter, SyncStatus};
use crate::text::{chars_of, contains_chars, occurs_in};

verus! {

/// Seconds between two runs of the background loop.
pub const BACKGROUND_SYNC_INTERVAL_SECS: u64 = 60;

/// Seconds before the first run of the background loop.
pub const BACKGROUND_SYNC_INITIAL_DELAY_SECS: u64 = 15;

/// Whether a cycle may start, and with which access token: the sync folder
/// must be set, and a token must be at hand. The folder is tested first.
pub fn check_can_sync(folder_set: bool, token: Option<String>) -> (r: Result<String, String>)
    ensures
        !folder_set ==> r is Err && r->Err_0@ == "Sync folder not set"@,
        folder_set && token is None ==> r is Err && r->Err_0@ == "Not logged in"@,
        folder_set && token is Some ==> r == Ok::<String, String>(token->0),
{
    if !folder_set {
        return Err("Sync folder not set".to_owned());
    }
    match token {
        Some(t) => Ok(t),
        None => Err("Not logged in".to_owned()),
    }
}

/// Whether the background loop runs a cycle now: no cycle is running, a
/// sync folder is set, and an access token can be had.
pub fn background_due(cell: &Reporter, folder_set: bool, token_at_hand: bool) -> (r: bool)
    ensures
        r == (!(cell.status is Syncing) && folder_set && token_at_hand),
{
    let running = match &cell.status {
        SyncStatus::Syncing => true,
        _ => false,
    };
    !running && folder_set && token_at_hand
}

/// The status that a cycle ends in: `Synced`; `Warning` with the message
/// where transfers were skipped; `Error` with the message where it failed.
pub fn terminal_status(result: &Result<SyncOutcome, String>) -> (s: SyncStatus)
    ensures
        match result {
            Ok(o) => match o.warning {
                Some(w) => s matches SyncStatus::Warning(m) && m@ == w@,
                None => s is Synced,
            },
            Err(e) => s matches SyncStatus::Error(m) && m@ == e@,
        },
{
    match result {
        Ok(o) => match &o.warning {
            Some(w) => SyncStatus::Warning(w.clone()),
            None => SyncStatus::Synced,
        },
        Err(e) => SyncStatus::Error(e.clone()),
    }
}

/// Marks the start of a cycle: the status becomes `Syncing` before the
/// first remote call; the progress stays.
pub fn begin_cycle(cell: &mut Reporter)
    ensures
        final(cell).status is Syncing,
        final(cell).progress == old(cell).progress,
{
    cell.status = SyncStatus::Syncing;
}

/// Marks the end of a cycle: the status becomes the one that the cycle
/// ends in; the progress stays.
pub fn end_cycle(cell: &mut Reporter, result: &Result<SyncOutcome, String>)
    ensures
        match result {
            Ok(o) => match o.warning {
                Some(w) => final(cell).status matches SyncStatus::Warning(m) && m@ == w@,
                None => final(cell).status is Synced,
            },
            Err(e) => final(cell).status matches SyncStatus::Error(m) && m@ == e@,
        },
        final(cell).progress == old(cell).progress,
{
    cell.status = terminal_status(result);
}

/// The message shown for a failed login: a refusal with status 401 reads
/// as wrong credentials, any other error as itself.
pub fn login_error(error: String) -> (r: String)
    ensures
        r@ == if occurs_in("401"@, error@) {
            "Invalid email or password."@
        } else {
            error@
        },
{
    let text = chars_of(error.as_str());
    let code = chars_of("401");
    if contains_chars(&text, &code) {
        "Invalid email or password.".to_owned()
    } else {
        error
    }
}

/// Whether the instance lock is taken at start: not while the
/// configuration directory is overridden.
pub fn lock_needed(override_dir: &Option<String>) -> (r: bool)
    ensures
        r == !overridden(*override_dir),
{
    !is_overridden(override_dir)
}

} // verus!
