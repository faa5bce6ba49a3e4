//! The durable sync state: the paths verified in sync after the previous
//! cycle, the paths that cycle downloaded, and the content hashes known to
//! match on both sides.

use vstd::prelude::*;
use vstd::hash_map::StringHashMap;
use crate::pathset::views;

verus! {

/// One known content hash: the hex SHA-256 that both sides hold for `path`.
pub struct HashEntry {
    pub path: String,
    pub hash: String,
}

/// The state document. `file_hashes` is read as a mapping in which a later
/// entry for a path replaces an earlier one.
pub struct SyncStateFile {
    pub paths: Vec<String>,
    pub downloaded_paths: Vec<String>,
    pub file_hashes: Vec<HashEntry>,
}

/// The mapping that a list of hash entries stands for.
pub open spec fn hash_map(list: Seq<HashEntry>) -> Map<Seq<char>, Seq<char>>
    decreases list.len(),
{
    if list.len() == 0 {
        Map::empty()
    } else {
        hash_map(list.drop_last()).insert(list.last().path@, list.last().hash@)
    }
}

/// A mapping to strings, read as a mapping to their characters.
pub open spec fn texts(m: Map<Seq<char>, String>) -> Map<Seq<char>, Seq<char>> {
    Map::new(|p: Seq<char>| m.contains_key(p), |p: Seq<char>| m[p]@)
}

impl SyncStateFile {
    /// The paths believed in sync.
    pub open spec fn synced(&self) -> Set<Seq<char>> {
        views(self.paths@).to_set()
    }

    /// The paths downloaded by the previous cycle.
    pub open spec fn downloaded(&self) -> Set<Seq<char>> {
        views(self.downloaded_paths@).to_set()
    }

    /// The known hashes.
    pub open spec fn hashes(&self) -> Map<Seq<char>, Seq<char>> {
        hash_map(self.file_hashes@)
    }

    /// The empty document: what a missing or unreadable state file stands for.
    pub fn empty() -> (s: SyncStateFile)
        ensures
            s.paths@.len() == 0,
            s.downloaded_paths@.len() == 0,
            s.file_hashes@.len() == 0,
    {
        SyncStateFile { paths: Vec::new(), downloaded_paths: Vec::new(), file_hashes: Vec::new() }
    }
}

impl Default for SyncStateFile {
    fn default() -> (s: SyncStateFile)
        ensures
            s.paths@.len() == 0,
            s.downloaded_paths@.len() == 0,
            s.file_hashes@.len() == 0,
    {
        SyncStateFile::empty()
    }
}

/// The state that a cycle starts from: the document that was read, or the
/// empty document where it is missing or malformed.
pub fn load_sync_state(document: Option<SyncStateFile>) -> (s: SyncStateFile)
    ensures
        document is Some ==> s == document->0,
        document is None ==> s.paths@.len() == 0 && s.downloaded_paths@.len() == 0
            && s.file_hashes@.len() == 0,
{
    match document {
        Some(d) => d,
        None => SyncStateFile::empty(),
    }
}

/// Forgets everything: the document becomes the empty one, so that the next
/// cycle starts as on a new device.
pub fn clear_sync_state(state: &mut SyncStateFile)
    ensures
        final(state).paths@.len() == 0,
        final(state).downloaded_paths@.len() == 0,
        final(state).file_hashes@.len() == 0,
{
    state.paths = Vec::new();
    state.downloaded_paths = Vec::new();
    state.file_hashes = Vec::new();
}

/// The mapping of a list of hash entries, for lookups.
pub fn index_hashes(list: &Vec<HashEntry>) -> (m: StringHashMap<String>)
    ensures
        texts(m@) == hash_map(list@),
{
    let mut m: StringHashMap<String> = StringHashMap::new();
    let mut i: usize = 0;
    assert(texts(m@) =~= hash_map(list@.take(0)));
    while i < list.len()
        invariant
            i <= list.len(),
            texts(m@) == hash_map(list@.take(i as int)),
        decreases list.len() - i,
    {
        let ghost before = m@;
        m.insert(list[i].path.clone(), list[i].hash.clone());
        proof {
            assert(list@.take(i + 1).drop_last() =~= list@.take(i as int));
            assert(texts(m@) =~= texts(before).insert(list@[i as int].path@, list@[i as int].hash@));
        }
        i += 1;
    }
    assert(list@.take(list.len() as int) =~= list@);
    m
}

} // verus!
