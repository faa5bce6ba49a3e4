//! The commit of a cycle: the paths that count as verified in sync, the
//! state to persist, and the warning when transfers were skipped.

use vstd::prelude::*;
use crate::listing::text_of;
use crate::pathset::{insert_all_sorted, strictly_sorted, views};
use crate::state::{HashEntry, SyncStateFile};
use crate::text::{decimal, push_decimal};

verus! {

/// The warning of a cycle that skipped transfers: the counts of skipped
/// downloads and of skipped uploads, each where it is not 0.
pub open spec fn warning_text(skipped_downloads: nat, skipped_uploads: nat) -> Option<Seq<char>> {
    let down = decimal(skipped_downloads)
        + " download(s) skipped (permission denied or file gone on server)"@;
    let up = decimal(skipped_uploads) + " upload(s) skipped (files removed during sync)"@;
    if skipped_downloads > 0 && skipped_uploads > 0 {
        Some(down + "; "@ + up)
    } else if skipped_downloads > 0 {
        Some(down)
    } else if skipped_uploads > 0 {
        Some(up)
    } else {
        None
    }
}

/// What a cycle that ran through hands back: the state to persist, the byte
/// totals, and the warning if transfers were skipped.
pub struct SyncOutcome {
    pub state: SyncStateFile,
    pub bytes_downloaded: u64,
    pub bytes_uploaded: u64,
    pub warning: Option<String>,
}

/// The warning for the given counts of skipped transfers.
pub fn warning_message(skipped_downloads: usize, skipped_uploads: usize) -> (r: Option<String>)
    ensures
        text_of(r) == warning_text(skipped_downloads as nat, skipped_uploads as nat),
{
    if skipped_downloads == 0 && skipped_uploads == 0 {
        return None;
    }
    let mut msg = String::new();
    if skipped_downloads > 0 {
        push_decimal(&mut msg, skipped_downloads as u64);
        msg.append(" download(s) skipped (permission denied or file gone on server)");
        if skipped_uploads > 0 {
            msg.append("; ");
        }
    }
    if skipped_uploads > 0 {
        push_decimal(&mut msg, skipped_uploads as u64);
        msg.append(" upload(s) skipped (files removed during sync)");
    }
    proof {
        let down = decimal(skipped_downloads as nat)
            + " download(s) skipped (permission denied or file gone on server)"@;
        let up = decimal(skipped_uploads as nat) + " upload(s) skipped (files removed during sync)"@;
        if skipped_downloads > 0 && skipped_uploads > 0 {
            assert(msg@ =~= down + "; "@ + up);
        } else if skipped_downloads > 0 {
            assert(msg@ =~= down);
        } else {
            assert(msg@ =~= up);
        }
    }
    Some(msg)
}

/// Commits a cycle that ran through. The new synced paths are those on both
/// sides after the deletions together with the completed downloads and the
/// completed uploads, sorted, each once; no downloaded paths are kept; the
/// hashes are handed on as they are.
pub fn commit(
    base_synced: &Vec<String>,
    completed_downloads: &Vec<String>,
    completed_uploads: &Vec<String>,
    file_hashes: Vec<HashEntry>,
    bytes_downloaded: u64,
    bytes_uploaded: u64,
    skipped_downloads: usize,
    skipped_uploads: usize,
) -> (o: SyncOutcome)
    ensures
        strictly_sorted(views(o.state.paths@)),
        o.state.synced() == views(base_synced@).to_set() + views(completed_downloads@).to_set()
            + views(completed_uploads@).to_set(),
        o.state.downloaded_paths@.len() == 0,
        o.state.file_hashes == file_hashes,
        o.bytes_downloaded == bytes_downloaded,
        o.bytes_uploaded == bytes_uploaded,
        text_of(o.warning) == warning_text(skipped_downloads as nat, skipped_uploads as nat),
{
    let mut paths: Vec<String> = Vec::new();
    assert(views(paths@).to_set() =~= Set::<Seq<char>>::empty());
    insert_all_sorted(&mut paths, base_synced);
    insert_all_sorted(&mut paths, completed_downloads);
    insert_all_sorted(&mut paths, completed_uploads);
    assert(views(paths@).to_set() =~= views(base_synced@).to_set() + views(
        completed_downloads@,
    ).to_set() + views(completed_uploads@).to_set());
    SyncOutcome {
        state: SyncStateFile { paths, downloaded_paths: Vec::new(), file_hashes },
        bytes_downloaded,
        bytes_uploaded,
        warning: warning_message(skipped_downloads, skipped_uploads),
    }
}

} // verus!
