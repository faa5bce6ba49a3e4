//! The local scanner's part that computes: from the files that the host
//! found under the sync root to the local listing.

use vstd::prelude::*;
use crate::listing::{entries, Entry, FileItem};
use crate::paths::{ignored, is_ignored, normalize, normalized};

verus! {

/// A regular file that the host found under the sync root: its path
/// relative to the root, with the host's separators, and its stamp.
pub struct FoundFile {
    pub relative: String,
    pub mtime: i64,
}

/// The local listing for the files found: each path in `/`-form, ignored
/// paths left out, no hash yet.
pub open spec fn scanned(found: Seq<FoundFile>) -> Seq<Entry>
    decreases found.len(),
{
    if found.len() == 0 {
        Seq::empty()
    } else {
        let rest = scanned(found.drop_last());
        let path = normalized(found.last().relative@);
        if ignored(path) {
            rest
        } else {
            rest.push(Entry { path, mtime: found.last().mtime as int, hash: None })
        }
    }
}

/// Nothing ignored is listed.
pub proof fn lemma_scanned_leaves_ignored_out(found: Seq<FoundFile>)
    ensures
        forall|i: int| 0 <= i < scanned(found).len() ==> !ignored(#[trigger] scanned(found)[i].path),
    decreases found.len(),
{
    if found.len() > 0 {
        lemma_scanned_leaves_ignored_out(found.drop_last());
    }
}

/// The local listing for the files that the host found.
pub fn list_local(found: &Vec<FoundFile>) -> (out: Vec<FileItem>)
    ensures
        entries(out@) == scanned(found@),
{
    let mut out: Vec<FileItem> = Vec::new();
    let mut i: usize = 0;
    assert(entries(out@) =~= scanned(found@.take(0)));
    while i < found.len()
        invariant
            i <= found.len(),
            entries(out@) == scanned(found@.take(i as int)),
        decreases found.len() - i,
    {
        let path = normalize(found[i].relative.as_str());
        proof {
            assert(found@.take(i + 1).drop_last() =~= found@.take(i as int));
            assert(found@.take(i + 1).last() == found@[i as int]);
        }
        if !is_ignored(path.as_str()) {
            let ghost before = entries(out@);
            out.push(FileItem { path, mtime: found[i].mtime, hash: None });
            assert(entries(out@) =~= before.push(out@[out.len() - 1]@));
        }
        i += 1;
    }
    assert(found@.take(found.len() as int) =~= found@);
    out
}

} // verus!
