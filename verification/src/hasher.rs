//! Content digests: the hex SHA-256 by which the two sides recognise equal
//! content, and the choice of the local files that need one.

use vstd::prelude::*;
use sha2::{Digest, Sha256};
use crate::listing::{
    entries, known_hash, listed_hash, listed_mtime, path_set, Entry, FileItem, RemoteIndex,
};
use crate::paths::{ignored, is_ignored};
use crate::pathset::{lemma_views_push, views};
use crate::plan::{
    download_wanted, hash_confirmed, lemma_selected_step, selected, upload_wanted,
};

verus! {

/// The SHA-256 digest of `bytes`, written as lowercase hex.
pub uninterp spec fn sha256_hex(bytes: Seq<u8>) -> Seq<char>;

/// A lowercase hex digit.
pub open spec fn is_lower_hex(c: char) -> bool {
    ('0' <= c && c <= '9') || ('a' <= c && c <= 'f')
}

/// The shape of a digest: 64 lowercase hex digits.
pub open spec fn is_digest_text(s: Seq<char>) -> bool {
    s.len() == 64 && forall|i: int| 0 <= i < 64 ==> is_lower_hex(#[trigger] s[i])
}

/// `sha2::Sha256`: the digest of the whole input, formatted by the digest's
/// `LowerHex`. The result is the named digest of the bytes; the digest has
/// 32 bytes, and each is written as two digits out of `0123456789abcdef`.
#[verifier::external_body]
fn sha256_lower_hex(bytes: &[u8]) -> (r: String)
    ensures
        r@ == sha256_hex(bytes@),
        is_digest_text(r@),
{
    let mut hasher = Sha256::new();
    hasher.update(bytes);
    format!("{:x}", hasher.finalize())
}

/// The content digest of a file, from its bytes: 64 lowercase hex digits
/// that depend on the bytes alone.
pub fn compute_file_hash(content: &Vec<u8>) -> (r: String)
    ensures
        r@ == sha256_hex(content@),
        is_digest_text(r@),
{
    sha256_lower_hex(content.as_slice())
}

/// A local entry whose content the reconciler compares with the server's:
/// the path is not ignored, the server lists it, and either its last entry
/// for the path carries a hash, or it is newer by its stamp and some entry
/// for the path carries one.
pub open spec fn hash_wanted(l: Entry, remote: Seq<Entry>) -> bool {
    &&& !ignored(l.path)
    &&& path_set(remote).contains(l.path)
    &&& (listed_hash(remote, l.path) is Some || (listed_mtime(remote, l.path) > l.mtime
        && known_hash(remote, l.path) is Some))
}

/// The test whether a local entry is to be hashed, for a remote listing.
pub open spec fn needs_hash(remote: Seq<Entry>) -> spec_fn(Entry) -> bool {
    |l: Entry| hash_wanted(l, remote)
}

/// The local paths whose files are to be hashed before the cycle is
/// planned, in the order of the local listing.
pub fn hash_candidates(local: &Vec<FileItem>, remote: &Vec<FileItem>) -> (out: Vec<String>)
    ensures
        views(out@) == selected(entries(local@), needs_hash(entries(remote@))),
{
    let ghost l = entries(local@);
    let ghost e = entries(remote@);
    let ghost keep = needs_hash(e);
    let idx = RemoteIndex::build(remote);
    let mut out: Vec<String> = Vec::new();
    let mut i: usize = 0;
    assert(views(out@) =~= selected(l.take(0), keep));
    while i < local.len()
        invariant
            i <= local.len(),
            idx.wf(),
            idx.listing() == e,
            l == entries(local@),
            e == entries(remote@),
            keep == needs_hash(e),
            views(out@) == selected(l.take(i as int), keep),
        decreases local.len() - i,
    {
        let item = &local[i];
        proof {
            lemma_selected_step(l, keep, i as int);
        }
        let wanted = if is_ignored(item.path.as_str()) {
            false
        } else {
            match idx.lookup(remote, item.path.as_str()) {
                None => false,
                Some(r) => r.hash.is_some() || (r.mtime > item.mtime && idx.known_hash(
                    item.path.as_str(),
                ).is_some()),
            }
        };
        if wanted {
            proof {
                lemma_views_push(out@, item.path);
            }
            out.push(item.path.clone());
        }
        i += 1;
    }
    assert(l.take(local.len() as int) =~= l);
    out
}

/// Hashing the candidates is enough: for a local entry that is no
/// candidate, the reconciler decides the same whatever hash the entry
/// carries.
pub proof fn lemma_other_hashes_are_not_read(l: Entry, other: Entry, remote: Seq<Entry>)
    requires
        !hash_wanted(l, remote),
        other.path == l.path,
        other.mtime == l.mtime,
    ensures
        download_wanted(other, remote) == download_wanted(l, remote),
        upload_wanted(other, remote) == upload_wanted(l, remote),
        hash_confirmed(other, remote) == hash_confirmed(l, remote),
{
}

} // verus!
