//! Lists of paths seen as sequences and sets of character sequences:
//! membership, strictly sorted lists, and lists ordered deepest first.

use vstd::prelude::*;
use vstd::hash_set::StringHashSet;
use crate::paths::{depth, ignored, is_ignored, path_depth};
use crate::text::{lemma_lex_total, lemma_lex_transitive, lex_lt, str_lt};

verus! {

/// The paths of a list of strings, as character sequences.
pub open spec fn views(v: Seq<String>) -> Seq<Seq<char>> {
    Seq::new(v.len(), |i: int| v[i]@)
}

/// Every element is strictly below each later one: sorted, nothing twice.
pub open spec fn strictly_sorted(s: Seq<Seq<char>>) -> bool {
    forall|i: int, j: int| 0 <= i < j < s.len() ==> lex_lt(#[trigger] s[i], #[trigger] s[j])
}

/// No later element lies deeper than an earlier one.
pub open spec fn deepest_first(s: Seq<Seq<char>>) -> bool {
    forall|i: int, j: int| 0 <= i < j < s.len() ==> depth(#[trigger] s[i]) >= depth(#[trigger] s[j])
}

/// Where `x` goes into a deepest-first list: behind the last element that
/// is at least as deep.
pub open spec fn depth_slot(r: Seq<Seq<char>>, x: Seq<char>) -> int
    decreases r.len(),
{
    if r.len() == 0 {
        0
    } else if depth(r.last()) >= depth(x) {
        r.len() as int
    } else {
        depth_slot(r.drop_last(), x)
    }
}

/// The elements of `s` ordered deepest first; elements of equal depth keep
/// the order they have in `s`.
pub open spec fn by_depth(s: Seq<Seq<char>>) -> Seq<Seq<char>>
    decreases s.len(),
{
    if s.len() == 0 {
        Seq::empty()
    } else {
        let r = by_depth(s.drop_last());
        r.insert(depth_slot(r, s.last()), s.last())
    }
}

/// The elements of `paths` that are not in `present` and not ignored, each
/// once, in the order of their first occurrence.
pub open spec fn missing_from(paths: Seq<Seq<char>>, present: Set<Seq<char>>) -> Seq<Seq<char>>
    decreases paths.len(),
{
    if paths.len() == 0 {
        Seq::empty()
    } else {
        let r = missing_from(paths.drop_last(), present);
        let x = paths.last();
        if !present.contains(x) && !ignored(x) && !r.contains(x) {
            r.push(x)
        } else {
            r
        }
    }
}

/// The paths of a list with one more string are those of the list with
/// one more path.
pub proof fn lemma_views_push(v: Seq<String>, x: String)
    ensures
        views(v.push(x)) == views(v).push(x@),
{
    assert(views(v.push(x)) =~= views(v).push(x@));
}

/// The slot lies in the list; what is behind it is less deep than `x`, and
/// what is just before it is at least as deep.
pub proof fn lemma_depth_slot_bounds(r: Seq<Seq<char>>, x: Seq<char>)
    ensures
        0 <= depth_slot(r, x) <= r.len(),
        forall|k: int| depth_slot(r, x) <= k < r.len() ==> depth(#[trigger] r[k]) < depth(x),
        depth_slot(r, x) > 0 ==> depth(r[depth_slot(r, x) - 1]) >= depth(x),
    decreases r.len(),
{
    if r.len() > 0 && depth(r.last()) < depth(x) {
        let rest = r.drop_last();
        lemma_depth_slot_bounds(rest, x);
        assert forall|k: int| depth_slot(r, x) <= k < r.len() implies depth(#[trigger] r[k])
            < depth(x) by {
            if k < rest.len() {
                assert(rest[k] == r[k]);
            }
        }
        if depth_slot(r, x) > 0 {
            assert(rest[depth_slot(r, x) - 1] == r[depth_slot(r, x) - 1]);
        }
    }
}

/// Ordering by depth keeps the elements and puts the deepest first.
pub proof fn lemma_by_depth(s: Seq<Seq<char>>)
    ensures
        by_depth(s).len() == s.len(),
        by_depth(s).to_set() == s.to_set(),
        deepest_first(by_depth(s)),
        s.no_duplicates() ==> by_depth(s).no_duplicates(),
    decreases s.len(),
{
    if s.len() == 0 {
        assert(by_depth(s).to_set() =~= s.to_set());
    } else {
        let r = by_depth(s.drop_last());
        let x = s.last();
        let at = depth_slot(r, x);
        let out = r.insert(at, x);
        lemma_by_depth(s.drop_last());
        lemma_depth_slot_bounds(r, x);
        assert forall|p: Seq<char>| out.to_set().contains(p) <==> s.to_set().contains(p) by {
            if out.contains(p) {
                let k = choose|k: int| 0 <= k < out.len() && out[k] == p;
                if k < at {
                    assert(r[k] == p);
                    assert(r.to_set().contains(p));
                } else if k > at {
                    assert(r[k - 1] == p);
                    assert(r.to_set().contains(p));
                }
                if s.drop_last().to_set().contains(p) {
                    let m = choose|m: int| 0 <= m < s.drop_last().len() && s.drop_last()[m] == p;
                    assert(s[m] == p);
                } else {
                    assert(s[s.len() - 1] == p);
                }
            }
            if s.contains(p) {
                let m = choose|m: int| 0 <= m < s.len() && s[m] == p;
                if m == s.len() - 1 {
                    assert(out[at] == p);
                } else {
                    assert(s.drop_last()[m] == p);
                    assert(r.to_set().contains(p));
                    let k = choose|k: int| 0 <= k < r.len() && r[k] == p;
                    if k < at {
                        assert(out[k] == p);
                    } else {
                        assert(out[k + 1] == p);
                    }
                }
            }
        }
        assert(out.to_set() =~= s.to_set());
        assert forall|i: int, j: int| 0 <= i < j < out.len() implies depth(#[trigger] out[i])
            >= depth(#[trigger] out[j]) by {
            let a = if i < at { r[i] } else if i == at { x } else { r[i - 1] };
            let b = if j < at { r[j] } else if j == at { x } else { r[j - 1] };
            assert(out[i] == a && out[j] == b);
            if j == at {
                assert(depth(r[at - 1]) >= depth(x));
                if i < at - 1 {
                    assert(depth(r[i]) >= depth(r[at - 1]));
                }
            }
        }
        if s.no_duplicates() {
            assert(s.drop_last().no_duplicates());
            assert(!r.contains(x)) by {
                if r.contains(x) {
                    assert(r.to_set().contains(x));
                    assert(s.drop_last().contains(x));
                    let m = choose|m: int| 0 <= m < s.drop_last().len() && s.drop_last()[m] == x;
                    assert(s[m] == s[s.len() - 1]);
                }
            }
            assert forall|i: int, j: int| 0 <= i < out.len() && 0 <= j < out.len() && i
                != j implies out[i] != out[j] by {
                let ri = if i < at { i } else { i - 1 };
                let rj = if j < at { j } else { j - 1 };
                if i != at && j != at {
                    assert(out[i] == r[ri] && out[j] == r[rj]);
                } else if i == at {
                    assert(out[j] == r[rj]);
                    assert(r.contains(r[rj]));
                } else {
                    assert(out[i] == r[ri]);
                    assert(r.contains(r[ri]));
                }
            }
        }
    }
}

/// What `missing_from` holds: each wanted path once.
pub proof fn lemma_missing_from(paths: Seq<Seq<char>>, present: Set<Seq<char>>)
    ensures
        missing_from(paths, present).no_duplicates(),
        missing_from(paths, present).len() <= paths.len(),
        forall|p: Seq<char>| #[trigger]
            missing_from(paths, present).contains(p) <==> (paths.contains(p)
                && !present.contains(p) && !ignored(p)),
    decreases paths.len(),
{
    let out = missing_from(paths, present);
    if paths.len() > 0 {
        let rest = paths.drop_last();
        let r = missing_from(rest, present);
        let x = paths.last();
        lemma_missing_from(rest, present);
        assert forall|p: Seq<char>| #[trigger]
            out.contains(p) <==> (paths.contains(p) && !present.contains(p) && !ignored(p)) by {
            if out.contains(p) {
                let k = choose|k: int| 0 <= k < out.len() && out[k] == p;
                if k < r.len() {
                    assert(r[k] == p);
                    assert(r.contains(p));
                    let m = choose|m: int| 0 <= m < rest.len() && rest[m] == p;
                    assert(paths[m] == p);
                } else {
                    assert(p == x);
                    assert(paths[paths.len() - 1] == p);
                }
            }
            if paths.contains(p) && !present.contains(p) && !ignored(p) {
                let m = choose|m: int| 0 <= m < paths.len() && paths[m] == p;
                if m < rest.len() {
                    assert(rest[m] == p);
                    assert(r.contains(p));
                    let k = choose|k: int| 0 <= k < r.len() && r[k] == p;
                    assert(out[k] == p);
                } else if r.contains(p) {
                    let k = choose|k: int| 0 <= k < r.len() && r[k] == p;
                    assert(out[k] == p);
                } else {
                    assert(out[r.len() as int] == p);
                }
            }
        }
    }
}

/// The set of the paths in `v`.
pub fn build_set(v: &Vec<String>) -> (s: StringHashSet)
    ensures
        s@ == views(v@).to_set(),
{
    let mut s = StringHashSet::new();
    let mut i: usize = 0;
    assert(views(v@.take(0)).to_set() =~= Set::<Seq<char>>::empty());
    while i < v.len()
        invariant
            i <= v.len(),
            s@ == views(v@.take(i as int)).to_set(),
        decreases v.len() - i,
    {
        s.insert(v[i].clone());
        proof {
            assert(v@.take(i + 1) =~= v@.take(i as int).push(v@[i as int]));
            lemma_views_push(v@.take(i as int), v@[i as int]);
            views(v@.take(i as int)).lemma_push_to_set_commute(v@[i as int]@);
        }
        i += 1;
    }
    assert(v@.take(v.len() as int) =~= v@);
    s
}

/// The paths of `paths` that `present` lacks and that are not ignored, each
/// once, in order.
pub fn collect_missing(paths: &Vec<String>, present: &StringHashSet) -> (out: Vec<String>)
    ensures
        views(out@) == missing_from(views(paths@), present@),
{
    let mut out: Vec<String> = Vec::new();
    let mut seen = StringHashSet::new();
    let mut i: usize = 0;
    assert(views(paths@).take(0) =~= Seq::<Seq<char>>::empty());
    assert(views(out@) =~= Seq::<Seq<char>>::empty());
    assert(views(out@).to_set() =~= Set::<Seq<char>>::empty());
    while i < paths.len()
        invariant
            i <= paths.len(),
            views(out@) == missing_from(views(paths@).take(i as int), present@),
            seen@ == views(out@).to_set(),
        decreases paths.len() - i,
    {
        let p = &paths[i];
        proof {
            assert(views(paths@).take(i + 1).drop_last() =~= views(paths@).take(i as int));
            assert(views(paths@).take(i + 1).last() == p@);
        }
        if !present.contains(p.as_str()) && !is_ignored(p.as_str())
            && !seen.contains(p.as_str()) {
            proof {
                lemma_views_push(out@, *p);
                views(out@).lemma_push_to_set_commute(p@);
            }
            seen.insert(p.clone());
            out.push(p.clone());
        }
        i += 1;
    }
    assert(views(paths@).take(paths.len() as int) =~= views(paths@));
    out
}

/// Puts `x` into the strictly sorted list `v`, unless it is there already.
pub fn insert_sorted(v: &mut Vec<String>, x: String)
    requires
        strictly_sorted(views(old(v)@)),
    ensures
        strictly_sorted(views(final(v)@)),
        views(final(v)@).to_set() == views(old(v)@).to_set().insert(x@),
        final(v).len() <= old(v).len() + 1,
{
    let ghost before = views(v@);
    let mut j: usize = v.len();
    while j > 0 && str_lt(x.as_str(), v[j - 1].as_str())
        invariant
            j <= v.len(),
            v@ == old(v)@,
            before == views(v@),
            forall|k: int| j <= k < v.len() ==> lex_lt(x@, #[trigger] before[k]),
        decreases j,
    {
        j -= 1;
    }
    if j > 0 && v[j - 1] == x {
        assert(before[j - 1] == x@);
        assert(before.to_set().contains(x@));
        assert(before.to_set().insert(x@) =~= before.to_set());
        return ;
    }
    v.insert(j, x);
    proof {
        let after = views(v@);
        assert(after =~= before.insert(j as int, x@));
        if j > 0 {
            lemma_lex_total(x@, before[j - 1]);
        }
        assert forall|a: int, b: int| 0 <= a < b < after.len() implies lex_lt(
            #[trigger] after[a],
            #[trigger] after[b],
        ) by {
            if b == j {
                if a < j - 1 {
                    assert(lex_lt(before[a], before[j - 1]));
                    lemma_lex_transitive(before[a], before[j - 1], x@);
                }
            } else if a == j {
                assert(after[b] == before[b - 1]);
            } else if a < j && b > j {
                assert(after[a] == before[a] && after[b] == before[b - 1]);
                if a < b - 1 {
                    assert(lex_lt(before[a], before[b - 1]));
                }
            } else if a < j {
                assert(after[a] == before[a] && after[b] == before[b]);
            } else {
                assert(after[a] == before[a - 1] && after[b] == before[b - 1]);
            }
        }
        assert forall|p: Seq<char>| after.to_set().contains(p) <==> before.to_set().insert(
            x@,
        ).contains(p) by {
            if after.contains(p) {
                let k = choose|k: int| 0 <= k < after.len() && after[k] == p;
                if k < j {
                    assert(before[k] == p);
                } else if k > j {
                    assert(before[k - 1] == p);
                }
            }
            if before.contains(p) {
                let k = choose|k: int| 0 <= k < before.len() && before[k] == p;
                if k < j {
                    assert(after[k] == p);
                } else {
                    assert(after[k + 1] == p);
                }
            }
            if p == x@ {
                assert(after[j as int] == p);
            }
        }
        assert(after.to_set() =~= before.to_set().insert(x@));
    }
}

/// Puts every path of `more` into the strictly sorted list `v`.
pub fn insert_all_sorted(v: &mut Vec<String>, more: &Vec<String>)
    requires
        strictly_sorted(views(old(v)@)),
    ensures
        strictly_sorted(views(final(v)@)),
        views(final(v)@).to_set() == views(old(v)@).to_set() + views(more@).to_set(),
{
    let ghost start = views(v@).to_set();
    let mut i: usize = 0;
    assert(views(more@.take(0)).to_set() =~= Set::<Seq<char>>::empty());
    assert(start + Set::<Seq<char>>::empty() =~= start);
    while i < more.len()
        invariant
            i <= more.len(),
            strictly_sorted(views(v@)),
            views(v@).to_set() == start + views(more@.take(i as int)).to_set(),
        decreases more.len() - i,
    {
        proof {
            assert(more@.take(i + 1) =~= more@.take(i as int).push(more@[i as int]));
            lemma_views_push(more@.take(i as int), more@[i as int]);
            views(more@.take(i as int)).lemma_push_to_set_commute(more@[i as int]@);
        }
        insert_sorted(v, more[i].clone());
        assert(views(v@).to_set() =~= start + views(more@.take(i + 1)).to_set());
        i += 1;
    }
    assert(more@.take(more.len() as int) =~= more@);
}

/// The paths of `v` ordered deepest first, ties in their given order.
pub fn sort_by_depth(v: &Vec<String>) -> (out: Vec<String>)
    ensures
        views(out@) == by_depth(views(v@)),
{
    let mut out: Vec<String> = Vec::new();
    let mut depths: Vec<usize> = Vec::new();
    let mut i: usize = 0;
    assert(views(v@).take(0) =~= Seq::<Seq<char>>::empty());
    assert(views(out@) =~= Seq::<Seq<char>>::empty());
    while i < v.len()
        invariant
            i <= v.len(),
            views(out@) == by_depth(views(v@).take(i as int)),
            depths.len() == out.len(),
            forall|k: int| 0 <= k < out.len() ==> depths@[k] == depth(#[trigger] views(out@)[k]),
        decreases v.len() - i,
    {
        let x = v[i].clone();
        let d = path_depth(x.as_str());
        let ghost r = views(out@);
        let mut j: usize = out.len();
        assert(r.take(out.len() as int) =~= r);
        while j > 0 && depths[j - 1] < d
            invariant
                j <= out.len(),
                depths.len() == out.len(),
                r == views(out@),
                d == depth(x@),
                forall|k: int| 0 <= k < out.len() ==> depths@[k] == depth(#[trigger] r[k]),
                depth_slot(r, x@) == depth_slot(r.take(j as int), x@),
            decreases j,
        {
            assert(r.take(j as int).drop_last() =~= r.take(j - 1));
            j -= 1;
        }
        proof {
            assert(r.take(out.len() as int) =~= r);
            if j > 0 {
                assert(r.take(j as int).last() == r[j - 1]);
            }
            assert(depth_slot(r, x@) == j);
            assert(views(v@).take(i + 1).drop_last() =~= views(v@).take(i as int));
            assert(views(v@).take(i + 1).last() == x@);
        }
        out.insert(j, x);
        depths.insert(j, d);
        proof {
            assert(views(out@) =~= r.insert(j as int, x@));
            assert forall|k: int| 0 <= k < out.len() implies depths@[k] == depth(
                #[trigger] views(out@)[k],
            ) by {
                if k < j {
                    assert(views(out@)[k] == r[k]);
                } else if k > j {
                    assert(views(out@)[k] == r[k - 1]);
                }
            }
        }
        i += 1;
    }
    assert(views(v@).take(v.len() as int) =~= views(v@));
    out
}

} // verus!
