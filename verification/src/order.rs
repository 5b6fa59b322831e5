//! Lexicographic orders on sequences, as `Ord` for strings and paths defines
//! them, with the lemmas that make them strict total orders.

use vstd::prelude::*;

verus! {

/// `elt` is a strict total order on `T`.
pub open spec fn strict_total<T>(elt: spec_fn(T, T) -> bool) -> bool {
    &&& forall|x: T| !#[trigger] elt(x, x)
    &&& forall|x: T, y: T, z: T| #[trigger] elt(x, y) && #[trigger] elt(y, z) ==> elt(x, z)
    &&& forall|x: T, y: T| x != y ==> #[trigger] elt(x, y) || #[trigger] elt(y, x)
}

/// `a` and `b` agree before index `k`, and `a` is smaller at `k` (or ends there
/// while `b` goes on).
pub open spec fn lex_lt_at<T>(a: Seq<T>, b: Seq<T>, elt: spec_fn(T, T) -> bool, k: int) -> bool {
    &&& 0 <= k <= a.len()
    &&& k <= b.len()
    &&& forall|j: int| 0 <= j < k ==> a[j] == b[j]
    &&& (k == a.len() && k < b.len()) || (k < a.len() && k < b.len() && elt(a[k], b[k]))
}

/// The lexicographic order induced by `elt`.
pub open spec fn lex_lt<T>(a: Seq<T>, b: Seq<T>, elt: spec_fn(T, T) -> bool) -> bool {
    exists|k: int| #[trigger] lex_lt_at(a, b, elt, k)
}

/// The order of characters by code point, which is also the byte order of
/// their UTF-8 encodings.
pub open spec fn char_lt(x: char, y: char) -> bool {
    (x as int) < (y as int)
}

/// The order of strings: lexicographic by code point.
pub open spec fn str_lt(a: Seq<char>, b: Seq<char>) -> bool {
    lex_lt(a, b, |x: char, y: char| char_lt(x, y))
}

pub proof fn lemma_char_lt_strict_total()
    ensures
        strict_total(|x: char, y: char| char_lt(x, y)),
{
    let elt = |x: char, y: char| char_lt(x, y);
    assert forall|x: char, y: char| x != y implies #[trigger] elt(x, y) || #[trigger] elt(y, x) by {
        assert((x as int) != (y as int));
    }
}

pub proof fn lemma_lex_irreflexive<T>(a: Seq<T>, elt: spec_fn(T, T) -> bool)
    requires
        strict_total(elt),
    ensures
        !lex_lt(a, a, elt),
{
    if lex_lt(a, a, elt) {
        let k = choose|k: int| #[trigger] lex_lt_at(a, a, elt, k);
        assert(!elt(a[k], a[k]));
    }
}

pub proof fn lemma_lex_transitive<T>(a: Seq<T>, b: Seq<T>, c: Seq<T>, elt: spec_fn(T, T) -> bool)
    requires
        strict_total(elt),
        lex_lt(a, b, elt),
        lex_lt(b, c, elt),
    ensures
        lex_lt(a, c, elt),
{
    let k1 = choose|k: int| #[trigger] lex_lt_at(a, b, elt, k);
    let k2 = choose|k: int| #[trigger] lex_lt_at(b, c, elt, k);
    if k1 < k2 {
        assert(lex_lt_at(a, c, elt, k1));
    } else if k2 < k1 {
        assert(lex_lt_at(a, c, elt, k2));
    } else {
        if k1 < a.len() {
            assert(elt(a[k1], b[k1]) && elt(b[k1], c[k1]));
        }
        assert(lex_lt_at(a, c, elt, k1));
    }
}

pub proof fn lemma_lex_total<T>(a: Seq<T>, b: Seq<T>, elt: spec_fn(T, T) -> bool)
    requires
        strict_total(elt),
        a != b,
    ensures
        lex_lt(a, b, elt) || lex_lt(b, a, elt),
{
    let m = if a.len() < b.len() { a.len() as int } else { b.len() as int };
    if forall|j: int| 0 <= j < m ==> a[j] == b[j] {
        if a.len() < b.len() {
            assert(lex_lt_at(a, b, elt, m));
        } else if b.len() < a.len() {
            assert(lex_lt_at(b, a, elt, m));
        } else {
            assert(a =~= b);
        }
    } else {
        let k = choose|k: int| 0 <= k < m && a[k] != b[k] && forall|j: int|
            0 <= j < k ==> a[j] == b[j];
        assert(exists|k: int| 0 <= k < m && a[k] != b[k]);
        lemma_first_difference(a, b, m);
        let k = choose|k: int|
            0 <= k < m && a[k] != b[k] && forall|j: int| 0 <= j < k ==> #[trigger] a[j] == b[j];
        if elt(a[k], b[k]) {
            assert(lex_lt_at(a, b, elt, k));
        } else {
            assert(elt(b[k], a[k]));
            assert(lex_lt_at(b, a, elt, k));
        }
    }
}

proof fn lemma_first_difference<T>(a: Seq<T>, b: Seq<T>, m: int)
    requires
        0 <= m <= a.len(),
        m <= b.len(),
        exists|k: int| 0 <= k < m && a[k] != b[k],
    ensures
        exists|k: int|
            0 <= k < m && a[k] != b[k] && forall|j: int| 0 <= j < k ==> #[trigger] a[j] == b[j],
    decreases m,
{
    if exists|k: int| 0 <= k < m - 1 && a[k] != b[k] {
        lemma_first_difference(a, b, m - 1);
    } else {
        assert(a[m - 1] != b[m - 1]);
        assert(forall|j: int| 0 <= j < m - 1 ==> #[trigger] a[j] == b[j]);
    }
}

/// Whether `a` comes before `b` in string order.
pub fn string_lt(a: &str, b: &str) -> (r: bool)
    ensures
        r == str_lt(a@, b@),
{
    let n = a.unicode_len();
    let m = b.unicode_len();
    let mut i: usize = 0;
    let ghost elt = |x: char, y: char| char_lt(x, y);
    proof {
        lemma_char_lt_strict_total();
    }
    while i < n && i < m
        invariant
            n == a@.len(),
            m == b@.len(),
            i <= n,
            i <= m,
            forall|j: int| 0 <= j < i ==> a@[j] == b@[j],
            elt == (|x: char, y: char| char_lt(x, y)),
        decreases n - i,
    {
        let x = a.get_char(i);
        let y = b.get_char(i);
        if x != y {
            proof {
                lemma_char_lt_strict_total();
                if char_lt(x, y) {
                    assert(lex_lt_at(a@, b@, elt, i as int));
                } else {
                    assert(lex_lt_at(b@, a@, elt, i as int));
                    lemma_lex_irreflexive(a@, elt);
                    if lex_lt(a@, b@, elt) {
                        lemma_lex_transitive(a@, b@, a@, elt);
                    }
                }
            }
            return x < y;
        }
        i = i + 1;
    }
    proof {
        lemma_char_lt_strict_total();
        if i < m {
            assert(lex_lt_at(a@, b@, elt, i as int));
        } else {
            if lex_lt(a@, b@, elt) {
                let k = choose|k: int| #[trigger] lex_lt_at(a@, b@, elt, k);
                assert(false);
            }
        }
    }
    i < m
}

} // verus!
