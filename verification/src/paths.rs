//! Relative paths in `/`-form: separator normalisation, the names that are
//! never synchronised, nesting depth and parent directories.

use vstd::prelude::*;
use crate::text::{chars_of, contains_chars, matches_at, occurs_at, occurs_in, string_of};

verus! {

/// The path with every backslash replaced by a forward slash.
pub open spec fn normalized(p: Seq<char>) -> Seq<char> {
    Seq::new(p.len(), |i: int| if p[i] == '\\' { '/' } else { p[i] })
}

/// Index at which the segment that ends at `end` begins: just behind the
/// last `/` before `end`, or 0.
pub open spec fn segment_start(n: Seq<char>, end: int) -> int
    decreases end,
{
    if end <= 0 {
        0
    } else if n[end - 1] == '/' {
        end
    } else {
        segment_start(n, end - 1)
    }
}

/// Bounds of the last segment of `n[..end]` that is neither empty nor `.`;
/// trailing separators and `.` segments are passed over. Where there is no
/// such segment the span is that of the first segment.
pub open spec fn name_span(n: Seq<char>, end: int) -> (int, int)
    decreases end,
{
    let start = segment_start(n, end);
    if 0 < start <= end && (start == end || (end - start == 1 && n[start] == '.')) {
        name_span(n, start - 1)
    } else {
        (start, end)
    }
}

/// The file name of a normalised path: its last segment that is neither
/// empty nor `.`.
pub open spec fn file_name(n: Seq<char>) -> Seq<char> {
    let span = name_span(n, n.len() as int);
    n.subrange(span.0, span.1)
}

/// The file names that are never synchronised.
pub open spec fn is_ignored_name(name: Seq<char>) -> bool {
    ||| name == ".directory"@
    ||| name == "Thumbs.db"@
    ||| name == "Desktop.ini"@
    ||| name == ".DS_Store"@
}

/// A path is ignored when it lies inside a `.git` directory or its file
/// name is one of the ignored names. The test reads the normalised path.
pub open spec fn ignored(p: Seq<char>) -> bool {
    let n = normalized(p);
    ||| occurs_in("/.git/"@, n)
    ||| occurs_at(".git/"@, n, 0)
    ||| is_ignored_name(file_name(n))
}

/// Number of `/` in the path: how deep the file lies below the root.
pub open spec fn depth(p: Seq<char>) -> nat
    decreases p.len(),
{
    if p.len() == 0 {
        0
    } else {
        depth(p.drop_last()) + if p.last() == '/' { 1nat } else { 0nat }
    }
}

/// Index of the last `/` of `p[..end]`, or -1 where there is none.
pub open spec fn last_separator(p: Seq<char>, end: int) -> int
    decreases end,
{
    if end <= 0 {
        -1
    } else if p[end - 1] == '/' {
        end - 1
    } else {
        last_separator(p, end - 1)
    }
}

/// The directory that holds `p`, relative to the root: the text before the
/// last `/`. A path without `/` lies in the root itself and has no parent.
pub open spec fn parent(p: Seq<char>) -> Option<Seq<char>> {
    let at = last_separator(p, p.len() as int);
    if at < 0 {
        None
    } else {
        Some(p.take(at))
    }
}

/// The characters of `path` with separators normalised.
pub fn normalized_chars(path: &str) -> (n: Vec<char>)
    ensures
        n@ == normalized(path@),
{
    let mut n = chars_of(path);
    let mut i: usize = 0;
    while i < n.len()
        invariant
            i <= n.len(),
            n.len() == path@.len(),
            forall|k: int| 0 <= k < i ==> n@[k] == normalized(path@)[k],
            forall|k: int| i <= k < n.len() ==> n@[k] == path@[k],
        decreases n.len() - i,
    {
        if n[i] == '\\' {
            n.set(i, '/');
        }
        i += 1;
    }
    assert(n@ =~= normalized(path@));
    n
}

/// The path with every backslash replaced by a forward slash.
pub fn normalize(path: &str) -> (r: String)
    ensures
        r@ == normalized(path@),
{
    let n = normalized_chars(path);
    let r = string_of(&n, 0, n.len());
    assert(n@.subrange(0, n.len() as int) =~= n@);
    r
}

/// Bounds of the file name within the normalised characters `n`.
fn name_bounds(n: &Vec<char>) -> (span: (usize, usize))
    ensures
        span.0 <= span.1 <= n.len(),
        (span.0 as int, span.1 as int) == name_span(n@, n.len() as int),
{
    let mut end: usize = n.len();
    loop
        invariant
            end <= n.len(),
            name_span(n@, n.len() as int) == name_span(n@, end as int),
        decreases end,
    {
        let mut start: usize = end;
        while start > 0 && n[start - 1] != '/'
            invariant
                start <= end <= n.len(),
                segment_start(n@, end as int) == segment_start(n@, start as int),
            decreases start,
        {
            start -= 1;
        }
        let passed = start == end || (end - start == 1 && n[start] == '.');
        if start > 0 && passed {
            end = start - 1;
        } else {
            return (start, end);
        }
    }
}

/// Whether `n[from..to]` spells `word`.
fn spells(n: &Vec<char>, from: usize, to: usize, word: &str) -> (r: bool)
    requires
        from <= to <= n.len(),
    ensures
        r == (n@.subrange(from as int, to as int) == word@),
{
    let w = chars_of(word);
    if w.len() != to - from {
        return false;
    }
    let r = matches_at(n, &w, from);
    r
}

/// Whether a path is left out of every synchronisation.
pub fn is_ignored(path_str: &str) -> (r: bool)
    ensures
        r == ignored(path_str@),
{
    let n = normalized_chars(path_str);
    let inner = chars_of("/.git/");
    let head = chars_of(".git/");
    if contains_chars(&n, &inner) || matches_at(&n, &head, 0) {
        return true;
    }
    let span = name_bounds(&n);
    spells(&n, span.0, span.1, ".directory") || spells(&n, span.0, span.1, "Thumbs.db") || spells(
        &n,
        span.0,
        span.1,
        "Desktop.ini",
    ) || spells(&n, span.0, span.1, ".DS_Store")
}

/// Number of `/` in the path.
pub fn path_depth(path: &str) -> (d: usize)
    ensures
        d == depth(path@),
{
    let v = chars_of(path);
    let mut d: usize = 0;
    let mut i: usize = 0;
    while i < v.len()
        invariant
            i <= v.len(),
            d <= i,
            d == depth(v@.take(i as int)),
        decreases v.len() - i,
    {
        assert(v@.take(i + 1).drop_last() =~= v@.take(i as int));
        if v[i] == '/' {
            d += 1;
        }
        i += 1;
    }
    assert(v@.take(v.len() as int) =~= v@);
    d
}

/// The directory that holds `path`, or `None` where that is the root.
pub fn parent_of(path: &str) -> (r: Option<String>)
    ensures
        r is Some == parent(path@) is Some,
        r is Some ==> r->0@ == parent(path@)->0,
{
    let v = chars_of(path);
    let mut end: usize = v.len();
    while end > 0 && v[end - 1] != '/'
        invariant
            end <= v.len(),
            last_separator(v@, v.len() as int) == last_separator(v@, end as int),
        decreases end,
    {
        end -= 1;
    }
    if end == 0 {
        None
    } else {
        Some(string_of(&v, 0, end - 1))
    }
}

} // verus!
