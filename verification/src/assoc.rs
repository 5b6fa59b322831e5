//! Association lists: vectors of key/value pairs with distinct keys, read as
//! maps.

use vstd::prelude::*;

verus! {

/// The map that an association list denotes, keys and values taken through
/// `kf` and `vf`; a later pair overrides an earlier one with an equal key.
pub open spec fn assoc_map<K, V, KV, VV>(
    v: Seq<(K, V)>,
    kf: spec_fn(K) -> KV,
    vf: spec_fn(V) -> VV,
) -> Map<KV, VV>
    decreases v.len(),
{
    if v.len() == 0 {
        Map::empty()
    } else {
        assoc_map(v.drop_last(), kf, vf).insert(kf(v.last().0), vf(v.last().1))
    }
}

/// No two pairs of `v` have equal keys.
pub open spec fn unique_keys<K, V, KV>(v: Seq<(K, V)>, kf: spec_fn(K) -> KV) -> bool {
    forall|i: int, j: int| 0 <= i < j < v.len() ==> kf(#[trigger] v[i].0) != kf(#[trigger] v[j].0)
}

/// With distinct keys, the map holds `k` exactly when some pair has it, and
/// then its value is that pair's.
pub proof fn lemma_assoc_lookup<K, V, KV, VV>(
    v: Seq<(K, V)>,
    kf: spec_fn(K) -> KV,
    vf: spec_fn(V) -> VV,
    k: KV,
)
    requires
        unique_keys(v, kf),
    ensures
        assoc_map(v, kf, vf).contains_key(k) <==> exists|i: int|
            0 <= i < v.len() && kf(#[trigger] v[i].0) == k,
        forall|i: int|
            0 <= i < v.len() && kf(#[trigger] v[i].0) == k ==> assoc_map(v, kf, vf)[k] == vf(v[i].1),
    decreases v.len(),
{
    if v.len() > 0 {
        let init = v.drop_last();
        assert(unique_keys(init, kf)) by {
            assert forall|i: int, j: int| 0 <= i < j < init.len() implies kf(#[trigger] init[i].0)
                != kf(#[trigger] init[j].0) by {
                assert(init[i] == v[i] && init[j] == v[j]);
            }
        }
        lemma_assoc_lookup(init, kf, vf, k);
        if assoc_map(init, kf, vf).contains_key(k) {
            let i = choose|i: int| 0 <= i < init.len() && kf(#[trigger] init[i].0) == k;
            assert(v[i] == init[i]);
        }
        assert forall|i: int| 0 <= i < v.len() && kf(#[trigger] v[i].0) == k implies assoc_map(
            v,
            kf,
            vf,
        )[k] == vf(v[i].1) by {
            if i < v.len() - 1 {
                assert(v[i] == init[i]);
                assert(kf(v.last().0) != k);
            }
        }
        if exists|i: int| 0 <= i < v.len() && kf(#[trigger] v[i].0) == k {
            let i = choose|i: int| 0 <= i < v.len() && kf(#[trigger] v[i].0) == k;
            if i < v.len() - 1 {
                assert(init[i] == v[i]);
            }
        }
    }
}

/// Replacing the value of pair `i` updates the map at its key.
pub proof fn lemma_assoc_update<K, V, KV, VV>(
    v: Seq<(K, V)>,
    kf: spec_fn(K) -> KV,
    vf: spec_fn(V) -> VV,
    i: int,
    p: (K, V),
)
    requires
        unique_keys(v, kf),
        0 <= i < v.len(),
        kf(v[i].0) == kf(p.0),
    ensures
        unique_keys(v.update(i, p), kf),
        assoc_map(v.update(i, p), kf, vf) == assoc_map(v, kf, vf).insert(kf(p.0), vf(p.1)),
{
    let w = v.update(i, p);
    assert(unique_keys(w, kf)) by {
        assert forall|a: int, b: int| 0 <= a < b < w.len() implies kf(#[trigger] w[a].0) != kf(
            #[trigger] w[b].0,
        ) by {
            if a == i {
                assert(kf(v[b].0) != kf(v[i].0));
            } else if b == i {
                assert(kf(v[a].0) != kf(v[i].0));
            }
        }
    }
    let m = assoc_map(v, kf, vf).insert(kf(p.0), vf(p.1));
    assert forall|k: KV| #[trigger] assoc_map(w, kf, vf).contains_key(k) == m.contains_key(k) && (
    assoc_map(w, kf, vf).contains_key(k) ==> assoc_map(w, kf, vf)[k] == m[k]) by {
        lemma_assoc_lookup(v, kf, vf, k);
        lemma_assoc_lookup(w, kf, vf, k);
        if k == kf(p.0) {
            assert(kf(w[i].0) == k);
        } else {
            if exists|j: int| 0 <= j < v.len() && kf(#[trigger] v[j].0) == k {
                let j = choose|j: int| 0 <= j < v.len() && kf(#[trigger] v[j].0) == k;
                assert(w[j] == v[j]);
            }
            if exists|j: int| 0 <= j < w.len() && kf(#[trigger] w[j].0) == k {
                let j = choose|j: int| 0 <= j < w.len() && kf(#[trigger] w[j].0) == k;
                assert(w[j] == v[j]);
            }
        }
    }
    assert(assoc_map(w, kf, vf) =~= m);
}

/// Appending a pair with a new key inserts it into the map.
pub proof fn lemma_assoc_push<K, V, KV, VV>(
    v: Seq<(K, V)>,
    kf: spec_fn(K) -> KV,
    vf: spec_fn(V) -> VV,
    p: (K, V),
)
    requires
        unique_keys(v, kf),
        !assoc_map(v, kf, vf).contains_key(kf(p.0)),
    ensures
        unique_keys(v.push(p), kf),
        assoc_map(v.push(p), kf, vf) == assoc_map(v, kf, vf).insert(kf(p.0), vf(p.1)),
{
    lemma_assoc_lookup(v, kf, vf, kf(p.0));
    let w = v.push(p);
    assert(w.drop_last() =~= v);
    assert forall|a: int, b: int| 0 <= a < b < w.len() implies kf(#[trigger] w[a].0) != kf(
        #[trigger] w[b].0,
    ) by {
        if b == v.len() {
            assert(w[a] == v[a]);
        } else {
            assert(w[a] == v[a] && w[b] == v[b]);
        }
    }
}

} // verus!
