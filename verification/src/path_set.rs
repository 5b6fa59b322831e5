//! Sorted sets of paths built from candidate lists, as a sort followed by a
//! dedup (or inserts into a `BTreeSet`) build them: path order, one entry per
//! path, each entry the first candidate with its path.

use vstd::prelude::*;

use crate::path::{
    contains_path, insert_path_sorted, lemma_path_lt_facts, path_key, path_less, path_lt, sorted_paths,
};

verus! {

/// `v[j]` is kept, and no earlier kept entry of `v` has its path.
pub open spec fn first_kept(v: Seq<String>, keep: spec_fn(Seq<char>) -> bool, j: int) -> bool {
    &&& 0 <= j < v.len()
    &&& keep(v[j]@)
    &&& forall|k: int| 0 <= k < j && keep(#[trigger] v[k]@) ==> path_key(v[k]@) != path_key(v[j]@)
}

/// `s` is the first kept entry of `cands[..n]` with its path.
pub open spec fn kept_represented(
    s: Seq<char>,
    cands: Seq<String>,
    keep: spec_fn(Seq<char>) -> bool,
    n: int,
) -> bool {
    exists|j: int| 0 <= j < n && #[trigger] first_kept(cands, keep, j) && cands[j]@ == s
}

/// `r` is the sorted set of the kept paths of `cands[..n]`, each represented
/// by its first occurrence.
pub open spec fn kept_set_of_prefix(
    r: Seq<String>,
    cands: Seq<String>,
    keep: spec_fn(Seq<char>) -> bool,
    n: int,
) -> bool {
    &&& sorted_paths(r)
    &&& forall|k: int| 0 <= k < r.len() ==> kept_represented(#[trigger] r[k]@, cands, keep, n)
    &&& forall|j: int| 0 <= j < n && keep(#[trigger] cands[j]@) ==> contains_path(r, cands[j]@)
}

/// `r` is the sorted set of the kept paths of `cands`.
pub open spec fn kept_set(r: Seq<String>, cands: Seq<String>, keep: spec_fn(Seq<char>) -> bool) -> bool {
    kept_set_of_prefix(r, cands, keep, cands.len() as int)
}

/// Keeps every path.
pub open spec fn keep_all() -> spec_fn(Seq<char>) -> bool {
    |s: Seq<char>| true
}

/// `r` is `cands` sorted by path, with repeated paths dropped after their
/// first occurrence.
pub open spec fn sorted_dedup(r: Seq<String>, cands: Seq<String>) -> bool {
    kept_set(r, cands, keep_all())
}

pub proof fn lemma_kept_empty(cands: Seq<String>, keep: spec_fn(Seq<char>) -> bool)
    ensures
        kept_set_of_prefix(Seq::empty(), cands, keep, 0),
{
}

/// A candidate that is not kept, or whose path is already in the set, leaves
/// the set as it is.
pub proof fn lemma_kept_skip(
    r: Seq<String>,
    cands: Seq<String>,
    keep: spec_fn(Seq<char>) -> bool,
    i: int,
)
    requires
        0 <= i < cands.len(),
        kept_set_of_prefix(r, cands, keep, i),
        !keep(cands[i]@) || contains_path(r, cands[i]@),
    ensures
        kept_set_of_prefix(r, cands, keep, i + 1),
{
    assert forall|m: int| 0 <= m < r.len() implies kept_represented(
        #[trigger] r[m]@,
        cands,
        keep,
        i + 1,
    ) by {
        assert(kept_represented(r[m]@, cands, keep, i));
        let j = choose|j: int| 0 <= j < i && #[trigger] first_kept(cands, keep, j) && cands[j]@ == r[m]@;
    }
    assert forall|j: int| 0 <= j < i + 1 && keep(#[trigger] cands[j]@) implies contains_path(
        r,
        cands[j]@,
    ) by {}
}

/// A kept candidate whose path is new is inserted at position `k`.
pub proof fn lemma_kept_insert(
    before: Seq<String>,
    after: Seq<String>,
    cands: Seq<String>,
    keep: spec_fn(Seq<char>) -> bool,
    i: int,
    k: int,
)
    requires
        0 <= i < cands.len(),
        kept_set_of_prefix(before, cands, keep, i),
        keep(cands[i]@),
        !contains_path(before, cands[i]@),
        sorted_paths(after),
        0 <= k <= before.len(),
        after[k]@ == cands[i]@,
        after == before.insert(k, after[k]),
    ensures
        kept_set_of_prefix(after, cands, keep, i + 1),
{
    assert(first_kept(cands, keep, i)) by {
        assert forall|q: int| 0 <= q < i && keep(#[trigger] cands[q]@) implies path_key(cands[q]@)
            != path_key(cands[i]@) by {
            if path_key(cands[q]@) == path_key(cands[i]@) {
                assert(contains_path(before, cands[q]@));
                let w = choose|w: int|
                    0 <= w < before.len() && path_key(#[trigger] before[w]@) == path_key(cands[q]@);
                assert(path_key(before[w]@) == path_key(cands[i]@));
            }
        }
    }
    assert forall|m: int| 0 <= m < after.len() implies kept_represented(
        #[trigger] after[m]@,
        cands,
        keep,
        i + 1,
    ) by {
        if m < k {
            assert(after[m] == before[m]);
            assert(kept_represented(before[m]@, cands, keep, i));
            let j = choose|j: int|
                0 <= j < i && #[trigger] first_kept(cands, keep, j) && cands[j]@ == before[m]@;
        } else if m > k {
            assert(after[m] == before[m - 1]);
            assert(kept_represented(before[m - 1]@, cands, keep, i));
            let j = choose|j: int|
                0 <= j < i && #[trigger] first_kept(cands, keep, j) && cands[j]@ == before[m - 1]@;
        } else {
            assert(cands[i]@ == after[m]@);
        }
    }
    assert forall|j: int| 0 <= j < i + 1 && keep(#[trigger] cands[j]@) implies contains_path(
        after,
        cands[j]@,
    ) by {
        if j < i {
            assert(contains_path(before, cands[j]@));
            let w = choose|w: int|
                0 <= w < before.len() && path_key(#[trigger] before[w]@) == path_key(cands[j]@);
            if w < k {
                assert(after[w] == before[w]);
            } else {
                assert(after[w + 1] == before[w]);
            }
        } else {
            assert(path_key(after[k]@) == path_key(cands[j]@));
        }
    }
}

/// Extends the set of the kept paths of `cands[..i]` with `cands[i]`, which
/// is kept.
pub(crate) fn add_kept(
    set: &mut Vec<String>,
    cands: &Vec<String>,
    i: usize,
    Ghost(keep): Ghost<spec_fn(Seq<char>) -> bool>,
)
    requires
        i < cands.len(),
        keep(cands@[i as int]@),
        kept_set_of_prefix(old(set)@, cands@, keep, i as int),
    ensures
        kept_set_of_prefix(final(set)@, cands@, keep, i + 1),
{
    let ghost before = set@;
    let c = cands[i].clone();
    insert_path_sorted(set, c);
    proof {
        if contains_path(before, cands@[i as int]@) {
            lemma_kept_skip(set@, cands@, keep, i as int);
        } else {
            let k = choose|k: int| 0 <= k <= before.len() && set@ == before.insert(k, c);
            assert(set@[k] == c);
            lemma_kept_insert(before, set@, cands@, keep, i as int, k);
        }
    }
}

/// `v` sorted by path, with repeated paths dropped after their first
/// occurrence.
pub fn sort_dedup_paths(v: &Vec<String>) -> (r: Vec<String>)
    ensures
        sorted_dedup(r@, v@),
{
    let mut r: Vec<String> = Vec::new();
    let mut i: usize = 0;
    while i < v.len()
        invariant
            i <= v.len(),
            kept_set_of_prefix(r@, v@, keep_all(), i as int),
        decreases v.len() - i,
    {
        add_kept(&mut r, v, i, Ghost(keep_all()));
        i = i + 1;
    }
    r
}

/// Where a stable insertion puts `x` into `s`: before the first path that
/// comes after it.
pub open spec fn path_insert_pos(s: Seq<String>, x: String) -> int
    decreases s.len(),
{
    if s.len() == 0 || path_lt(x@, s[0]@) {
        0
    } else {
        1 + path_insert_pos(s.drop_first(), x)
    }
}

/// `s` sorted by path, equal paths in their given order (as a stable sort of
/// `PathBuf`s orders them).
pub open spec fn path_sort_stable(s: Seq<String>) -> Seq<String>
    decreases s.len(),
{
    if s.len() == 0 {
        s
    } else {
        let r = path_sort_stable(s.drop_last());
        r.insert(path_insert_pos(r, s.last()), s.last())
    }
}

/// No path of `s` comes before an earlier one.
pub open spec fn paths_in_order(s: Seq<String>) -> bool {
    forall|i: int, j: int| 0 <= i < j < s.len() ==> !path_lt(#[trigger] s[j]@, #[trigger] s[i]@)
}

proof fn lemma_path_insert_pos(s: Seq<String>, x: String, i: int)
    requires
        0 <= i <= s.len(),
        forall|j: int| 0 <= j < i ==> !path_lt(x@, #[trigger] s[j]@),
        i == s.len() || path_lt(x@, s[i]@),
    ensures
        path_insert_pos(s, x) == i,
    decreases s.len(),
{
    if i > 0 {
        let t = s.drop_first();
        assert forall|j: int| 0 <= j < i - 1 implies !path_lt(x@, #[trigger] t[j]@) by {
            assert(t[j] == s[j + 1]);
        }
        if i - 1 < t.len() {
            assert(t[i - 1] == s[i]);
        }
        assert(!path_lt(x@, s[0]@));
        lemma_path_insert_pos(t, x, i - 1);
    }
}

proof fn lemma_path_insert_pos_bounds(s: Seq<String>, x: String)
    ensures
        0 <= path_insert_pos(s, x) <= s.len(),
        forall|j: int| 0 <= j < path_insert_pos(s, x) ==> !path_lt(x@, #[trigger] s[j]@),
        path_insert_pos(s, x) < s.len() ==> path_lt(x@, s[path_insert_pos(s, x)]@),
    decreases s.len(),
{
    if s.len() > 0 && !path_lt(x@, s[0]@) {
        let t = s.drop_first();
        lemma_path_insert_pos_bounds(t, x);
        assert forall|j: int| 0 <= j < path_insert_pos(s, x) implies !path_lt(x@, #[trigger] s[j]@) by {
            if j > 0 {
                assert(s[j] == t[j - 1]);
            }
        }
        if path_insert_pos(s, x) < s.len() {
            assert(s[path_insert_pos(s, x)] == t[path_insert_pos(t, x)]);
        }
    }
}

/// A stable sort of paths yields its input in path order, as a permutation.
pub proof fn law_path_sort_stable_sorted_permutation(s: Seq<String>)
    ensures
        paths_in_order(path_sort_stable(s)),
        path_sort_stable(s).to_multiset() == s.to_multiset(),
    decreases s.len(),
{
    broadcast use vstd::seq_lib::group_to_multiset_ensures;

    if s.len() > 0 {
        let init = s.drop_last();
        let x = s.last();
        law_path_sort_stable_sorted_permutation(init);
        let r = path_sort_stable(init);
        lemma_path_insert_pos_bounds(r, x);
        let p = path_insert_pos(r, x);
        let w = r.insert(p, x);
        assert forall|i: int, j: int| 0 <= i < j < w.len() implies !path_lt(
            #[trigger] w[j]@,
            #[trigger] w[i]@,
        ) by {
            if j < p {
                assert(w[i] == r[i] && w[j] == r[j]);
            } else if j == p {
                assert(w[i] == r[i]);
            } else if i == p {
                assert(w[j] == r[j - 1]);
                if path_lt(r[j - 1]@, x@) {
                    assert(path_lt(x@, r[p]@));
                    lemma_path_lt_facts(r[j - 1]@, x@, r[p]@);
                    if j - 1 > p {
                        assert(!path_lt(r[j - 1]@, r[p]@));
                    } else {
                        lemma_path_lt_facts(r[p]@, x@, r[p]@);
                    }
                }
            } else if i < p {
                assert(w[i] == r[i] && w[j] == r[j - 1]);
            } else {
                assert(w[i] == r[i - 1] && w[j] == r[j - 1]);
            }
        }
        assert(s =~= init.push(x));
    }
}

/// `v` sorted by path, equal paths in their given order.
pub fn sort_paths_stable(v: Vec<String>) -> (r: Vec<String>)
    ensures
        r@ == path_sort_stable(v@),
{
    let mut r: Vec<String> = Vec::new();
    let mut i: usize = 0;
    while i < v.len()
        invariant
            i <= v.len(),
            r@ == path_sort_stable(v@.take(i as int)),
        decreases v.len() - i,
    {
        proof {
            assert(v@.take(i + 1).drop_last() =~= v@.take(i as int));
            assert(v@.take(i + 1).last() == v@[i as int]);
        }
        let x = v[i].clone();
        let mut p: usize = 0;
        while p < r.len() && !path_less(x.as_str(), r[p].as_str())
            invariant
                p <= r.len(),
                forall|j: int| 0 <= j < p ==> !path_lt(x@, #[trigger] r@[j]@),
            decreases r.len() - p,
        {
            p = p + 1;
        }
        proof {
            lemma_path_insert_pos(r@, x, p as int);
        }
        r.insert(p, x);
        i = i + 1;
    }
    assert(v@.take(v@.len() as int) =~= v@);
    r
}

} // verus!
