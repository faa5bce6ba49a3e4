//! The two listings a cycle starts from: the files found under the sync
//! root and the files the server reports, with the lookups the reconciler
//! makes in them.

use vstd::prelude::*;
use vstd::hash_map::StringHashMap;
use vstd::hash_set::StringHashSet;
use crate::paths::{ignored, is_ignored};

verus! {

/// What the reconciler reads of one listed file.
pub ghost struct Entry {
    /// Path relative to the sync root, in `/`-form.
    pub path: Seq<char>,
    /// Modification stamp; a later change has a larger stamp.
    pub mtime: int,
    /// Hex SHA-256 of the content, where it is known.
    pub hash: Option<Seq<char>>,
}

/// A listed file, found under the sync root or reported by the server.
/// `mtime` is an ordered stamp of the modification time: only its order
/// against other stamps is read. `hash` is the hex SHA-256 of the content:
/// in a remote listing where the server sent one, in a local listing where
/// the host could read the file.
pub struct FileItem {
    pub path: String,
    pub mtime: i64,
    pub hash: Option<String>,
}

/// The characters of an optional string.
pub open spec fn text_of(h: Option<String>) -> Option<Seq<char>> {
    match h {
        Some(s) => Some(s@),
        None => None,
    }
}

/// The characters of an optional borrowed string.
pub open spec fn text_of_ref(h: Option<&String>) -> Option<Seq<char>> {
    match h {
        Some(s) => Some(s@),
        None => None,
    }
}

impl View for FileItem {
    type V = Entry;

    open spec fn view(&self) -> Entry {
        Entry { path: self.path@, mtime: self.mtime as int, hash: text_of(self.hash) }
    }
}

/// The entries of a listing.
pub open spec fn entries(v: Seq<FileItem>) -> Seq<Entry> {
    Seq::new(v.len(), |i: int| v[i]@)
}

/// The paths that a listing names.
pub open spec fn path_set(e: Seq<Entry>) -> Set<Seq<char>> {
    Set::new(|p: Seq<char>| exists|i: int| 0 <= i < e.len() && (#[trigger] e[i]).path == p)
}

/// The paths that a listing names and that are not ignored.
pub open spec fn current(e: Seq<Entry>) -> Set<Seq<char>> {
    Set::new(|p: Seq<char>| path_set(e).contains(p) && !ignored(p))
}

/// Index of the last of the first `n` entries that names `p`, or -1.
pub open spec fn last_index(e: Seq<Entry>, p: Seq<char>, n: int) -> int
    decreases n,
{
    if n <= 0 {
        -1
    } else if e[n - 1].path == p {
        n - 1
    } else {
        last_index(e, p, n - 1)
    }
}

/// Index of the last of the first `n` entries that names `p` and carries a
/// hash, or -1.
pub open spec fn last_hashed(e: Seq<Entry>, p: Seq<char>, n: int) -> int
    decreases n,
{
    if n <= 0 {
        -1
    } else if e[n - 1].path == p && e[n - 1].hash is Some {
        n - 1
    } else {
        last_hashed(e, p, n - 1)
    }
}

/// The stamp a listing gives for `p`: that of its last entry for `p`, and 0
/// where it has none.
pub open spec fn listed_mtime(e: Seq<Entry>, p: Seq<char>) -> int {
    let i = last_index(e, p, e.len() as int);
    if i < 0 {
        0
    } else {
        e[i].mtime
    }
}

/// The hash in the listing's last entry for `p`.
pub open spec fn listed_hash(e: Seq<Entry>, p: Seq<char>) -> Option<Seq<char>> {
    let i = last_index(e, p, e.len() as int);
    if i < 0 {
        None
    } else {
        e[i].hash
    }
}

/// The hash of the last entry for `p` that carries one.
pub open spec fn known_hash(e: Seq<Entry>, p: Seq<char>) -> Option<Seq<char>> {
    let i = last_hashed(e, p, e.len() as int);
    if i < 0 {
        None
    } else {
        e[i].hash
    }
}

/// `last_index` finds an entry exactly when the listing names the path.
pub proof fn lemma_last_index(e: Seq<Entry>, p: Seq<char>, n: int)
    requires
        0 <= n <= e.len(),
    ensures
        -1 <= last_index(e, p, n) < n,
        last_index(e, p, n) >= 0 ==> e[last_index(e, p, n)].path == p,
        last_index(e, p, n) >= 0 <==> exists|i: int| 0 <= i < n && (#[trigger] e[i]).path == p,
    decreases n,
{
    if n > 0 {
        if e[n - 1].path != p {
            lemma_last_index(e, p, n - 1);
        }
    }
}

/// `last_hashed` points at an entry for the path that carries a hash.
pub proof fn lemma_last_hashed(e: Seq<Entry>, p: Seq<char>, n: int)
    requires
        0 <= n <= e.len(),
    ensures
        -1 <= last_hashed(e, p, n) < n,
        last_hashed(e, p, n) >= 0 ==> e[last_hashed(e, p, n)].path == p && e[last_hashed(
            e,
            p,
            n,
        )].hash is Some,
        last_hashed(e, p, n) >= 0 <==> exists|i: int|
            0 <= i < n && (#[trigger] e[i]).path == p && e[i].hash is Some,
    decreases n,
{
    if n > 0 {
        if !(e[n - 1].path == p && e[n - 1].hash is Some) {
            lemma_last_hashed(e, p, n - 1);
        }
    }
}

/// A listing names `p` exactly when it has a last entry for it.
pub proof fn lemma_path_set(e: Seq<Entry>, p: Seq<char>)
    ensures
        path_set(e).contains(p) <==> last_index(e, p, e.len() as int) >= 0,
        path_set(e).finite(),
        path_set(e).len() <= e.len(),
{
    lemma_last_index(e, p, e.len() as int);
    lemma_path_set_finite(e);
}

proof fn lemma_path_set_finite(e: Seq<Entry>)
    ensures
        path_set(e).finite(),
        path_set(e).len() <= e.len(),
    decreases e.len(),
{
    if e.len() == 0 {
        assert(path_set(e) =~= Set::<Seq<char>>::empty());
    } else {
        let rest = e.drop_last();
        lemma_path_set_finite(rest);
        assert forall|p: Seq<char>| path_set(e).contains(p) <==> path_set(rest).insert(
            e.last().path,
        ).contains(p) by {
            if path_set(e).contains(p) {
                let i = choose|i: int| 0 <= i < e.len() && (#[trigger] e[i]).path == p;
                if i < rest.len() {
                    assert(rest[i].path == p);
                }
            }
            if path_set(rest).contains(p) {
                let i = choose|i: int| 0 <= i < rest.len() && (#[trigger] rest[i]).path == p;
                assert(e[i].path == p);
            }
            if p == e.last().path {
                assert(e[e.len() - 1].path == p);
            }
        }
        assert(path_set(e) =~= path_set(rest).insert(e.last().path));
    }
}

/// The set of the paths in a listing.
pub fn listed_paths(local: &Vec<FileItem>) -> (s: StringHashSet)
    ensures
        s@ == path_set(entries(local@)),
{
    let ghost e = entries(local@);
    let mut s = StringHashSet::new();
    let mut i: usize = 0;
    assert(path_set(e.take(0)) =~= Set::<Seq<char>>::empty());
    while i < local.len()
        invariant
            i <= local.len(),
            e == entries(local@),
            s@ == path_set(e.take(i as int)),
        decreases local.len() - i,
    {
        s.insert(local[i].path.clone());
        proof {
            let a = e.take(i as int);
            let b = e.take(i + 1);
            assert forall|p: Seq<char>| path_set(b).contains(p) <==> path_set(a).insert(
                e[i as int].path,
            ).contains(p) by {
                if path_set(b).contains(p) {
                    let k = choose|k: int| 0 <= k < b.len() && (#[trigger] b[k]).path == p;
                    if k < i {
                        assert(a[k].path == p);
                    }
                }
                if path_set(a).contains(p) {
                    let k = choose|k: int| 0 <= k < a.len() && (#[trigger] a[k]).path == p;
                    assert(b[k].path == p);
                }
                if p == e[i as int].path {
                    assert(b[i as int].path == p);
                }
            }
            assert(path_set(b) =~= path_set(a).insert(e[i as int].path));
        }
        i += 1;
    }
    assert(e.take(local.len() as int) =~= e);
    s
}

/// The set of the paths in a listing that are not ignored.
pub fn current_paths(list: &Vec<FileItem>) -> (s: StringHashSet)
    ensures
        s@ == current(entries(list@)),
{
    let ghost e = entries(list@);
    let mut s = StringHashSet::new();
    let mut i: usize = 0;
    assert(current(e.take(0)) =~= Set::<Seq<char>>::empty());
    while i < list.len()
        invariant
            i <= list.len(),
            e == entries(list@),
            s@ == current(e.take(i as int)),
        decreases list.len() - i,
    {
        let ghost a = e.take(i as int);
        let ghost b = e.take(i + 1);
        let ghost x = e[i as int].path;
        proof {
            assert forall|p: Seq<char>| path_set(b).contains(p) <==> path_set(a).contains(p) || p
                == x by {
                if path_set(b).contains(p) {
                    let k = choose|k: int| 0 <= k < b.len() && (#[trigger] b[k]).path == p;
                    if k < i {
                        assert(a[k].path == p);
                    }
                }
                if path_set(a).contains(p) {
                    let k = choose|k: int| 0 <= k < a.len() && (#[trigger] a[k]).path == p;
                    assert(b[k].path == p);
                }
                if p == x {
                    assert(b[i as int].path == p);
                }
            }
        }
        if !is_ignored(list[i].path.as_str()) {
            s.insert(list[i].path.clone());
            assert(s@ =~= current(b));
        } else {
            assert(current(a) =~= current(b));
        }
        i += 1;
    }
    assert(e.take(list.len() as int) =~= e);
    s
}

/// Lookups into a remote listing by path.
pub struct RemoteIndex {
    last: StringHashMap<usize>,
    known: StringHashMap<String>,
    listing: Ghost<Seq<Entry>>,
}

impl RemoteIndex {
    /// The listing that the index was read from.
    pub closed spec fn listing(&self) -> Seq<Entry> {
        self.listing@
    }

    /// The index answers for its listing.
    pub closed spec fn wf(&self) -> bool {
        let e = self.listing@;
        &&& forall|p: Seq<char>| #[trigger]
            self.last@.contains_key(p) <==> last_index(e, p, e.len() as int) >= 0
        &&& forall|p: Seq<char>| #[trigger]
            self.last@.contains_key(p) ==> self.last@[p] as int == last_index(e, p, e.len() as int)
        &&& forall|p: Seq<char>| #[trigger]
            self.known@.contains_key(p) <==> last_hashed(e, p, e.len() as int) >= 0
        &&& forall|p: Seq<char>| #[trigger]
            self.known@.contains_key(p) ==> Some(self.known@[p]@) == e[last_hashed(
                e,
                p,
                e.len() as int,
            )].hash
    }

    /// Reads a remote listing into an index.
    pub fn build(remote: &Vec<FileItem>) -> (idx: RemoteIndex)
        ensures
            idx.wf(),
            idx.listing() == entries(remote@),
    {
        let ghost e = entries(remote@);
        let mut last: StringHashMap<usize> = StringHashMap::new();
        let mut known: StringHashMap<String> = StringHashMap::new();
        let mut i: usize = 0;
        while i < remote.len()
            invariant
                i <= remote.len(),
                e == entries(remote@),
                forall|p: Seq<char>| #[trigger]
                    last@.contains_key(p) <==> last_index(e, p, i as int) >= 0,
                forall|p: Seq<char>| #[trigger]
                    last@.contains_key(p) ==> last@[p] as int == last_index(e, p, i as int),
                forall|p: Seq<char>| #[trigger]
                    known@.contains_key(p) <==> last_hashed(e, p, i as int) >= 0,
                forall|p: Seq<char>| #[trigger]
                    known@.contains_key(p) ==> Some(known@[p]@) == e[last_hashed(e, p, i as int)].hash,
            decreases remote.len() - i,
        {
            last.insert(remote[i].path.clone(), i);
            match &remote[i].hash {
                Some(h) => {
                    known.insert(remote[i].path.clone(), h.clone());
                },
                None => {},
            }
            i += 1;
        }
        RemoteIndex { last, known, listing: Ghost(e) }
    }

    /// Whether the listing names `p`.
    pub fn contains(&self, p: &str) -> (r: bool)
        requires
            self.wf(),
        ensures
            r == path_set(self.listing()).contains(p@),
    {
        proof {
            lemma_path_set(self.listing(), p@);
        }
        self.last.contains_key(p)
    }

    /// The listing's last entry for `p`.
    pub fn lookup<'a>(&self, remote: &'a Vec<FileItem>, p: &str) -> (r: Option<&'a FileItem>)
        requires
            self.wf(),
            self.listing() == entries(remote@),
        ensures
            r is Some == path_set(entries(remote@)).contains(p@),
            r is Some ==> r->0.path@ == p@ && r->0.mtime == listed_mtime(entries(remote@), p@)
                && text_of(r->0.hash) == listed_hash(entries(remote@), p@),
    {
        let ghost e = entries(remote@);
        proof {
            lemma_path_set(e, p@);
            lemma_last_index(e, p@, e.len() as int);
        }
        match self.last.get(p) {
            Some(i) => Some(&remote[*i]),
            None => None,
        }
    }

    /// The hash of the last entry for `p` that carries one.
    pub fn known_hash(&self, p: &str) -> (r: Option<&String>)
        requires
            self.wf(),
        ensures
            text_of_ref(r) == known_hash(self.listing(), p@),
    {
        proof {
            lemma_last_hashed(self.listing(), p@, self.listing().len() as int);
        }
        self.known.get(p)
    }

    /// The known hashes alone, as a mapping.
    pub fn into_known(self) -> (m: StringHashMap<String>)
        requires
            self.wf(),
        ensures
            forall|p: Seq<char>| #[trigger]
                m@.contains_key(p) <==> known_hash(self.listing(), p) is Some,
            forall|p: Seq<char>| #[trigger]
                m@.contains_key(p) ==> Some(m@[p]@) == known_hash(self.listing(), p),
    {
        proof {
            let e = self.listing();
            assert forall|p: Seq<char>| #[trigger]
                self.known@.contains_key(p) <==> known_hash(e, p) is Some by {
                lemma_last_hashed(e, p, e.len() as int);
            }
        }
        self.known
    }
}

} // verus!
