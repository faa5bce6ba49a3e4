//! What the engine reports to a user interface: the phase and the counters
//! of the running cycle, and the status between cycles.

use vstd::prelude::*;
use crate::listing::text_of;

verus! {

/// The phases a cycle goes through.
#[derive(Clone, Copy, PartialEq, Eq, Structural, Debug)]
pub enum Phase {
    Listing,
    DeleteServer,
    DeleteLocal,
    Download,
    Upload,
    Idle,
}

impl Phase {
    /// The name under which the phase is reported.
    pub open spec fn name(self) -> Seq<char> {
        match self {
            Phase::Listing => "listing"@,
            Phase::DeleteServer => "delete_server"@,
            Phase::DeleteLocal => "delete_local"@,
            Phase::Download => "download"@,
            Phase::Upload => "upload"@,
            Phase::Idle => "idle"@,
        }
    }

    /// The name under which the phase is reported.
    pub fn as_str(self) -> (s: &'static str)
        ensures
            s@ == self.name(),
    {
        match self {
            Phase::Listing => "listing",
            Phase::DeleteServer => "delete_server",
            Phase::DeleteLocal => "delete_local",
            Phase::Download => "download",
            Phase::Upload => "upload",
            Phase::Idle => "idle",
        }
    }
}

/// Progress of the running cycle: the phase, the items done and the items
/// planned.
#[derive(Clone, Debug)]
pub struct SyncProgress {
    pub phase: String,
    pub current: u64,
    pub total: u64,
}

/// Progress as it is handed to the user interface.
#[derive(Debug)]
pub struct SyncProgressPayload {
    pub phase: String,
    pub current: u64,
    pub total: u64,
}

/// The status between and during cycles.
#[derive(Clone, Debug)]
pub enum SyncStatus {
    Idle,
    Syncing,
    Synced,
    Warning(String),
    Error(String),
}

impl SyncStatus {
    /// The word that names the status.
    pub open spec fn name(self) -> Seq<char> {
        match self {
            SyncStatus::Idle => "idle"@,
            SyncStatus::Syncing => "syncing"@,
            SyncStatus::Synced => "synced"@,
            SyncStatus::Warning(_) => "warning"@,
            SyncStatus::Error(_) => "error"@,
        }
    }

    /// The message that a warning or an error carries.
    pub open spec fn message(self) -> Option<Seq<char>> {
        match self {
            SyncStatus::Warning(m) => Some(m@),
            SyncStatus::Error(m) => Some(m@),
            _ => None,
        }
    }
}

/// The cells that the engine writes and the user interface reads.
pub struct Reporter {
    pub status: SyncStatus,
    pub progress: Option<SyncProgress>,
}

impl Reporter {
    /// The cells before any cycle: idle, no progress.
    pub fn new() -> (cell: Reporter)
        ensures
            cell.status == SyncStatus::Idle,
            cell.progress is None,
    {
        Reporter { status: SyncStatus::Idle, progress: None }
    }
}

/// The status as a word and, for a warning or an error, its message.
pub fn get_sync_status(cell: &Reporter) -> (r: (String, Option<String>))
    ensures
        r.0@ == cell.status.name(),
        text_of(r.1) == cell.status.message(),
{
    match &cell.status {
        SyncStatus::Idle => ("idle".to_owned(), None),
        SyncStatus::Syncing => ("syncing".to_owned(), None),
        SyncStatus::Synced => ("synced".to_owned(), None),
        SyncStatus::Warning(msg) => ("warning".to_owned(), Some(msg.clone())),
        SyncStatus::Error(msg) => ("error".to_owned(), Some(msg.clone())),
    }
}

/// Replaces the status; the progress stays.
pub fn set_sync_status(cell: &mut Reporter, status: SyncStatus)
    ensures
        final(cell).status == status,
        final(cell).progress == old(cell).progress,
{
    cell.status = status;
}

/// The progress last reported, if any.
pub fn get_sync_progress(cell: &Reporter) -> (r: Option<SyncProgress>)
    ensures
        r is Some == cell.progress is Some,
        r is Some ==> r->0.phase@ == cell.progress->0.phase@ && r->0.current
            == cell.progress->0.current && r->0.total == cell.progress->0.total,
{
    match &cell.progress {
        Some(p) => Some(SyncProgress { phase: p.phase.clone(), current: p.current, total: p.total }),
        None => None,
    }
}

/// Reports progress; the status stays.
pub fn set_progress(cell: &mut Reporter, phase: &str, current: u64, total: u64)
    ensures
        final(cell).status == old(cell).status,
        final(cell).progress is Some,
        final(cell).progress->0.phase@ == phase@,
        final(cell).progress->0.current == current,
        final(cell).progress->0.total == total,
{
    cell.progress = Some(SyncProgress { phase: phase.to_owned(), current, total });
}

/// Progress in the form that the user interface takes.
pub fn progress_payload(p: SyncProgress) -> (r: SyncProgressPayload)
    ensures
        r.phase == p.phase,
        r.current == p.current,
        r.total == p.total,
{
    SyncProgressPayload { phase: p.phase, current: p.current, total: p.total }
}

} // verus!
