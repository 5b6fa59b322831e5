//! Artifact providers, and the artifacts that each action requires.
//!
//! An action is identified by its [`BuildPlanNode`]; several artifacts may
//! name the same provider.

use vstd::prelude::*;

use super::artifact::{keys_view, ArtifactKey, ArtifactKeyView};
use crate::assoc::{assoc_map, lemma_assoc_lookup, lemma_assoc_push, lemma_assoc_update, unique_keys};
use crate::model::BuildPlanNode;

verus! {

/// A list of artifacts of one action, each once, in insertion order.
pub type NodeArtifacts = Vec<(BuildPlanNode, Vec<ArtifactKey>)>;

/// The value of an artifact key.
pub open spec fn key_value() -> spec_fn(ArtifactKey) -> ArtifactKeyView {
    |k: ArtifactKey| k@
}

/// A node as itself.
pub open spec fn node_value() -> spec_fn(BuildPlanNode) -> BuildPlanNode {
    |n: BuildPlanNode| n
}

/// The values of a list of artifacts.
pub open spec fn list_value() -> spec_fn(Vec<ArtifactKey>) -> Seq<ArtifactKeyView> {
    |v: Vec<ArtifactKey>| keys_view(v@)
}

/// The artifacts listed for each node.
pub open spec fn node_map(v: Seq<(BuildPlanNode, Vec<ArtifactKey>)>) -> Map<
    BuildPlanNode,
    Seq<ArtifactKeyView>,
> {
    assoc_map(v, node_value(), list_value())
}

/// The artifacts listed for `n` in `m`, none when it has no entry.
pub open spec fn entries(m: Map<BuildPlanNode, Seq<ArtifactKeyView>>, n: BuildPlanNode) -> Seq<
    ArtifactKeyView,
> {
    if m.contains_key(n) {
        m[n]
    } else {
        Seq::empty()
    }
}

/// `s` with `a` added at the end, unless it holds `a` already.
pub open spec fn set_add(s: Seq<ArtifactKeyView>, a: ArtifactKeyView) -> Seq<ArtifactKeyView> {
    if s.contains(a) {
        s
    } else {
        s.push(a)
    }
}

/// No artifact occurs twice in `s`.
pub open spec fn distinct_keys(s: Seq<ArtifactKeyView>) -> bool {
    forall|i: int, j: int| 0 <= i < j < s.len() ==> #[trigger] s[i] != #[trigger] s[j]
}

/// A node list is well formed: one entry per node, and each entry lists an
/// artifact at most once.
pub open spec fn node_list_wf(v: Seq<(BuildPlanNode, Vec<ArtifactKey>)>) -> bool {
    &&& unique_keys(v, node_value())
    &&& forall|i: int| 0 <= i < v.len() ==> distinct_keys(keys_view((#[trigger] v[i]).1@))
}

/// The index of `k` in `v`, if present.
fn index_of_key(v: &Vec<ArtifactKey>, k: &ArtifactKey) -> (r: Option<usize>)
    ensures
        match r {
            Some(i) => i < v@.len() && v@[i as int]@ == k@,
            None => !keys_view(v@).contains(k@),
        },
{
    let mut i: usize = 0;
    while i < v.len()
        invariant
            i <= v.len(),
            forall|j: int| 0 <= j < i ==> v@[j]@ != k@,
        decreases v.len() - i,
    {
        if v[i].same_as(k) {
            return Some(i);
        }
        i = i + 1;
    }
    proof {
        if keys_view(v@).contains(k@) {
            let j = choose|j: int| 0 <= j < keys_view(v@).len() && keys_view(v@)[j] == k@;
            assert(v@[j]@ == k@);
        }
    }
    None
}

/// The index of `n`'s entry in `v`, if present.
fn index_of_node(v: &NodeArtifacts, n: BuildPlanNode) -> (r: Option<usize>)
    requires
        node_list_wf(v@),
    ensures
        match r {
            Some(i) => i < v@.len() && v@[i as int].0 == n && node_map(v@).contains_key(n)
                && node_map(v@)[n] == keys_view(v@[i as int].1@),
            None => !node_map(v@).contains_key(n),
        },
{
    let mut i: usize = 0;
    while i < v.len()
        invariant
            i <= v.len(),
            node_list_wf(v@),
            forall|j: int| 0 <= j < i ==> #[trigger] v@[j].0 != n,
        decreases v.len() - i,
    {
        if v[i].0 == n {
            proof {
                lemma_assoc_lookup(v@, node_value(), list_value(), n);
                assert(node_value()(v@[i as int].0) == n);
            }
            return Some(i);
        }
        i = i + 1;
    }
    proof {
        lemma_assoc_lookup(v@, node_value(), list_value(), n);
        if exists|j: int| 0 <= j < v@.len() && node_value()(#[trigger] v@[j].0) == n {
            let j = choose|j: int| 0 <= j < v@.len() && node_value()(#[trigger] v@[j].0) == n;
            assert(v@[j].0 != n);
        }
    }
    None
}

/// Adds `a` to the artifacts listed for `n`.
fn add_to_node(v: &mut NodeArtifacts, n: BuildPlanNode, a: ArtifactKey)
    requires
        node_list_wf(old(v)@),
    ensures
        node_list_wf(final(v)@),
        node_map(final(v)@) == node_map(old(v)@).insert(
            n,
            set_add(entries(node_map(old(v)@), n), a@),
        ),
{
    match index_of_node(v, n) {
        Some(i) => {
            let ghost before = v@;
            let (node, mut keys) = v.remove(i);
            let ghost old_keys = keys@;
            let found = index_of_key(&keys, &a);
            let absent = found.is_none();
            match found {
                Some(idx) => {
                    proof {
                        assert(keys_view(old_keys)[idx as int] == a@);
                    }
                },
                None => {
                    keys.push(a);
                },
            }
            let ghost entry = (node, keys);
            v.insert(i, (node, keys));
            proof {
                assert(v@ =~= before.update(i as int, entry));
                assert(keys_view(entry.1@) =~= set_add(keys_view(old_keys), a@)) by {
                    if absent {
                        assert(keys_view(entry.1@) =~= keys_view(old_keys).push(a@));
                    } else {
                        assert(entry.1@ == old_keys);
                    }
                }
                lemma_assoc_update(before, node_value(), list_value(), i as int, entry);
                assert(distinct_keys(keys_view(entry.1@))) by {
                    assert(distinct_keys(keys_view(before[i as int].1@)));
                    if absent {
                        let s = keys_view(entry.1@);
                        assert forall|x: int, y: int| 0 <= x < y < s.len() implies #[trigger] s[x]
                            != #[trigger] s[y] by {
                            if y == s.len() - 1 {
                                assert(s[x] == keys_view(old_keys)[x]);
                                assert(keys_view(old_keys).contains(s[x]));
                            } else {
                                assert(s[x] == keys_view(old_keys)[x]);
                                assert(s[y] == keys_view(old_keys)[y]);
                            }
                        }
                    }
                }
                assert forall|j: int| 0 <= j < v@.len() implies distinct_keys(
                    keys_view((#[trigger] v@[j]).1@),
                ) by {
                    if j != i {
                        assert(v@[j] == before[j]);
                    }
                }
            }
        },
        None => {
            let ghost before = v@;
            let mut keys: Vec<ArtifactKey> = Vec::new();
            keys.push(a);
            let ghost entry = (n, keys);
            proof {
                lemma_assoc_push(before, node_value(), list_value(), entry);
                assert(keys_view(entry.1@) =~= set_add(Seq::empty(), a@));
            }
            v.push((n, keys));
            proof {
                assert(v@ == before.push(entry));
                assert forall|j: int| 0 <= j < v@.len() implies distinct_keys(
                    keys_view((#[trigger] v@[j]).1@),
                ) by {
                    if j < before.len() {
                        assert(v@[j] == before[j]);
                    }
                }
            }
        },
    }
}

/// The pairs of node `n` with each of `ks`.
pub open spec fn node_pairs(n: BuildPlanNode, ks: Seq<ArtifactKeyView>) -> Seq<
    (BuildPlanNode, ArtifactKeyView),
> {
    ks.map_values(|a: ArtifactKeyView| (n, a))
}

/// Every node paired with each of its artifacts, entry by entry.
pub open spec fn flat_pairs(v: Seq<(BuildPlanNode, Vec<ArtifactKey>)>) -> Seq<
    (BuildPlanNode, ArtifactKeyView),
>
    decreases v.len(),
{
    if v.len() == 0 {
        Seq::empty()
    } else {
        flat_pairs(v.drop_last()) + node_pairs(v.last().0, keys_view(v.last().1@))
    }
}

/// The values of a list of node and artifact pairs.
pub open spec fn pairs_view(r: Seq<(BuildPlanNode, ArtifactKey)>) -> Seq<
    (BuildPlanNode, ArtifactKeyView),
> {
    r.map_values(|p: (BuildPlanNode, ArtifactKey)| (p.0, p.1@))
}

/// In a well-formed node list, the flattened pairs are those of the map, each
/// once.
proof fn lemma_flat_pairs(v: Seq<(BuildPlanNode, Vec<ArtifactKey>)>)
    requires
        node_list_wf(v),
    ensures
        forall|c: BuildPlanNode, a: ArtifactKeyView|
            #[trigger] flat_pairs(v).contains((c, a)) <==> (node_map(v).contains_key(c)
                && node_map(v)[c].contains(a)),
        forall|x: int, y: int|
            0 <= x < y < flat_pairs(v).len() ==> #[trigger] flat_pairs(v)[x] != #[trigger] flat_pairs(
                v,
            )[y],
    decreases v.len(),
{
    if v.len() > 0 {
        let init = v.drop_last();
        let last = v.last();
        assert(node_list_wf(init)) by {
            assert forall|i: int, j: int| 0 <= i < j < init.len() implies node_value()(
                #[trigger] init[i].0,
            ) != node_value()(#[trigger] init[j].0) by {
                assert(init[i] == v[i] && init[j] == v[j]);
            }
            assert forall|i: int| 0 <= i < init.len() implies distinct_keys(
                keys_view((#[trigger] init[i]).1@),
            ) by {
                assert(init[i] == v[i]);
            }
        }
        lemma_flat_pairs(init);
        lemma_assoc_lookup(init, node_value(), list_value(), last.0);
        assert(!node_map(init).contains_key(last.0)) by {
            if node_map(init).contains_key(last.0) {
                let j = choose|j: int| 0 <= j < init.len() && node_value()(#[trigger] init[j].0) == last.0;
                assert(v[j] == init[j]);
                assert(node_value()(v[j].0) != node_value()(v[v.len() - 1].0));
            }
        }
        let fi = flat_pairs(init);
        let np = node_pairs(last.0, keys_view(last.1@));
        let f = flat_pairs(v);
        assert(f == fi + np);
        assert(distinct_keys(keys_view(last.1@))) by {
            assert(v[v.len() - 1] == last);
        }
        assert forall|c: BuildPlanNode, a: ArtifactKeyView|
            #[trigger] f.contains((c, a)) <==> (node_map(v).contains_key(c) && node_map(v)[c].contains(
                a,
            )) by {
            if f.contains((c, a)) {
                let q = choose|q: int| 0 <= q < f.len() && f[q] == (c, a);
                if q < fi.len() {
                    assert(fi[q] == (c, a));
                    assert(fi.contains((c, a)));
                    assert(c != last.0);
                } else {
                    assert(np[q - fi.len()] == (c, a));
                    assert(keys_view(last.1@)[q - fi.len()] == a);
                }
            }
            if node_map(v).contains_key(c) && node_map(v)[c].contains(a) {
                if c == last.0 {
                    let w = choose|w: int| 0 <= w < keys_view(last.1@).len() && keys_view(last.1@)[w] == a;
                    assert(f[fi.len() + w] == np[w]);
                } else {
                    assert(fi.contains((c, a)));
                    let q = choose|q: int| 0 <= q < fi.len() && fi[q] == (c, a);
                    assert(f[q] == fi[q]);
                }
            }
        }
        assert forall|x: int, y: int| 0 <= x < y < f.len() implies #[trigger] f[x] != #[trigger] f[y] by {
            if y < fi.len() {
                assert(f[x] == fi[x] && f[y] == fi[y]);
            } else if x >= fi.len() {
                assert(f[x] == np[x - fi.len()] && f[y] == np[y - fi.len()]);
                assert(keys_view(last.1@)[x - fi.len()] != keys_view(last.1@)[y - fi.len()]);
            } else {
                assert(f[x] == fi[x]);
                assert(fi.contains(fi[x]));
                assert(f[y] == np[y - fi.len()]);
                assert(f[y].0 == last.0);
                assert(fi.contains((fi[x].0, fi[x].1)));
                assert(node_map(init).contains_key(fi[x].0));
            }
        }
    }
}

/// Artifact providers and the artifact requirements of each action.
#[derive(Debug)]
pub struct ArtifactPlan {
    /// The provider of each artifact.
    pub providers: Vec<(ArtifactKey, BuildPlanNode)>,
    /// The artifacts each provider provides.
    pub artifacts_by_provider: NodeArtifacts,
    /// The artifacts each consumer requires.
    pub requirements_by_consumer: NodeArtifacts,
}

/// The value of an [`ArtifactPlan`].
pub struct ArtifactPlanView {
    pub providers: Map<ArtifactKeyView, BuildPlanNode>,
    pub provided: Map<BuildPlanNode, Seq<ArtifactKeyView>>,
    pub required: Map<BuildPlanNode, Seq<ArtifactKeyView>>,
}

impl View for ArtifactPlan {
    type V = ArtifactPlanView;

    open spec fn view(&self) -> ArtifactPlanView {
        ArtifactPlanView {
            providers: assoc_map(self.providers@, key_value(), node_value()),
            provided: node_map(self.artifacts_by_provider@),
            required: node_map(self.requirements_by_consumer@),
        }
    }
}

/// Every artifact that a consumer requires has a provider.
pub open spec fn all_provided(p: ArtifactPlanView) -> bool {
    forall|c: BuildPlanNode, a: ArtifactKeyView|
        p.required.contains_key(c) && #[trigger] p.required[c].contains(a)
            ==> #[trigger] p.providers.contains_key(a)
}

impl ArtifactPlan {
    /// Whether the plan is consistent: one provider entry per artifact, one
    /// entry per node, and no artifact listed twice for one node.
    pub open spec fn wf(&self) -> bool {
        &&& unique_keys(self.providers@, key_value())
        &&& node_list_wf(self.artifacts_by_provider@)
        &&& node_list_wf(self.requirements_by_consumer@)
    }

    /// An empty plan.
    pub fn new() -> (r: ArtifactPlan)
        ensures
            r.wf(),
            r@.providers == Map::<ArtifactKeyView, BuildPlanNode>::empty(),
            r@.provided == Map::<BuildPlanNode, Seq<ArtifactKeyView>>::empty(),
            r@.required == Map::<BuildPlanNode, Seq<ArtifactKeyView>>::empty(),
    {
        ArtifactPlan {
            providers: Vec::new(),
            artifacts_by_provider: Vec::new(),
            requirements_by_consumer: Vec::new(),
        }
    }

    /// Records that `consumer` requires `artifact`. Providers are untouched:
    /// a requirement may name an artifact that nothing provides yet.
    pub fn require(&mut self, consumer: BuildPlanNode, artifact: ArtifactKey)
        requires
            old(self).wf(),
        ensures
            final(self).wf(),
            final(self)@.providers == old(self)@.providers,
            final(self)@.provided == old(self)@.provided,
            final(self)@.required == old(self)@.required.insert(
                consumer,
                set_add(entries(old(self)@.required, consumer), artifact@),
            ),
    {
        add_to_node(&mut self.requirements_by_consumer, consumer, artifact);
    }

    /// The index of `artifact`'s provider entry, if any.
    fn provider_index(&self, artifact: &ArtifactKey) -> (r: Option<usize>)
        requires
            self.wf(),
        ensures
            match r {
                Some(i) => i < self.providers@.len() && self.providers@[i as int].0@ == artifact@
                    && self@.providers.contains_key(artifact@) && self@.providers[artifact@]
                    == self.providers@[i as int].1,
                None => !self@.providers.contains_key(artifact@),
            },
    {
        let mut i: usize = 0;
        while i < self.providers.len()
            invariant
                i <= self.providers.len(),
                self.wf(),
                forall|j: int| 0 <= j < i ==> (#[trigger] self.providers@[j]).0@ != artifact@,
            decreases self.providers.len() - i,
        {
            if self.providers[i].0.same_as(artifact) {
                proof {
                    lemma_assoc_lookup(self.providers@, key_value(), node_value(), artifact@);
                    assert(key_value()(self.providers@[i as int].0) == artifact@);
                }
                return Some(i);
            }
            i = i + 1;
        }
        proof {
            lemma_assoc_lookup(self.providers@, key_value(), node_value(), artifact@);
            if exists|j: int|
                0 <= j < self.providers@.len() && key_value()(#[trigger] self.providers@[j].0)
                    == artifact@ {
                let j = choose|j: int|
                    0 <= j < self.providers@.len() && key_value()(#[trigger] self.providers@[j].0)
                        == artifact@;
                assert(self.providers@[j].0@ != artifact@);
            }
        }
        None
    }

    /// Records that `provider` provides `artifact`. An artifact has one
    /// provider; providing it again from the same one changes nothing.
    pub fn provide(&mut self, provider: BuildPlanNode, artifact: ArtifactKey)
        requires
            old(self).wf(),
            old(self)@.providers.contains_key(artifact@) ==> old(self)@.providers[artifact@]
                == provider,
        ensures
            final(self).wf(),
            final(self)@.providers == old(self)@.providers.insert(artifact@, provider),
            final(self)@.provided == old(self)@.provided.insert(
                provider,
                set_add(entries(old(self)@.provided, provider), artifact@),
            ),
            final(self)@.required == old(self)@.required,
    {
        match self.provider_index(&artifact) {
            Some(_) => {
                proof {
                    assert(self@.providers.insert(artifact@, provider) =~= self@.providers);
                }
            },
            None => {
                let ghost before = self.providers@;
                let entry = (artifact.duplicate(), provider);
                proof {
                    lemma_assoc_push(before, key_value(), node_value(), entry);
                }
                self.providers.push(entry);
            },
        }
        add_to_node(&mut self.artifacts_by_provider, provider, artifact);
    }

    /// The provider of `artifact`, if any.
    pub fn provider(&self, artifact: &ArtifactKey) -> (r: Option<BuildPlanNode>)
        requires
            self.wf(),
        ensures
            match r {
                Some(n) => self@.providers.contains_key(artifact@) && self@.providers[artifact@] == n,
                None => !self@.providers.contains_key(artifact@),
            },
    {
        match self.provider_index(artifact) {
            Some(i) => Some(self.providers[i].1),
            None => None,
        }
    }

    /// The artifacts that `provider` provides, in the order they were first
    /// provided.
    pub fn provided_by(&self, provider: BuildPlanNode) -> (r: Vec<ArtifactKey>)
        requires
            self.wf(),
        ensures
            keys_view(r@) == entries(self@.provided, provider),
    {
        match index_of_node(&self.artifacts_by_provider, provider) {
            Some(i) => copy_keys(&self.artifacts_by_provider[i].1),
            None => {
                let r: Vec<ArtifactKey> = Vec::new();
                assert(keys_view(r@) =~= Seq::<ArtifactKeyView>::empty());
                r
            },
        }
    }

    /// Every requirement, as a consumer and an artifact: each pair once.
    pub fn requirements(&self) -> (r: Vec<(BuildPlanNode, ArtifactKey)>)
        requires
            self.wf(),
        ensures
            forall|i: int|
                0 <= i < r@.len() ==> self@.required.contains_key((#[trigger] r@[i]).0)
                    && self@.required[r@[i].0].contains(r@[i].1@),
            forall|c: BuildPlanNode, a: ArtifactKeyView|
                self@.required.contains_key(c) && #[trigger] self@.required[c].contains(a)
                    ==> exists|i: int| 0 <= i < r@.len() && #[trigger] r@[i].0 == c && r@[i].1@ == a,
            forall|i: int, j: int|
                0 <= i < j < r@.len() ==> (#[trigger] r@[i]).0 != (#[trigger] r@[j]).0 || r@[i].1@
                    != r@[j].1@,
    {
        let v = &self.requirements_by_consumer;
        let mut r: Vec<(BuildPlanNode, ArtifactKey)> = Vec::new();
        let mut i: usize = 0;
        while i < v.len()
            invariant
                i <= v.len(),
                pairs_view(r@) == flat_pairs(v@.take(i as int)),
            decreases v.len() - i,
        {
            let node = v[i].0;
            let keys = &v[i].1;
            let ghost start = pairs_view(r@);
            let mut k: usize = 0;
            while k < keys.len()
                invariant
                    k <= keys.len(),
                    pairs_view(r@) == start + node_pairs(node, keys_view(keys@).take(k as int)),
                decreases keys.len() - k,
            {
                let ghost before = pairs_view(r@);
                let dup = keys[k].duplicate();
                r.push((node, dup));
                proof {
                    assert(pairs_view(r@) =~= before.push((node, dup@)));
                    assert(keys_view(keys@).take(k + 1) =~= keys_view(keys@).take(k as int).push(
                        keys@[k as int]@,
                    ));
                    assert(node_pairs(node, keys_view(keys@).take(k + 1)) =~= node_pairs(
                        node,
                        keys_view(keys@).take(k as int),
                    ).push((node, keys@[k as int]@)));
                    assert(pairs_view(r@) =~= start + node_pairs(node, keys_view(keys@).take(k + 1)));
                }
                k = k + 1;
            }
            proof {
                assert(keys_view(keys@).take(keys@.len() as int) =~= keys_view(keys@));
                assert(v@.take(i + 1).drop_last() =~= v@.take(i as int));
            }
            i = i + 1;
        }
        proof {
            assert(v@.take(v@.len() as int) =~= v@);
            lemma_flat_pairs(v@);
            let pv = pairs_view(r@);
            assert forall|q: int| 0 <= q < r@.len() implies self@.required.contains_key(
                (#[trigger] r@[q]).0,
            ) && self@.required[r@[q].0].contains(r@[q].1@) by {
                assert(pv[q] == (r@[q].0, r@[q].1@));
                assert(pv.contains(pv[q]));
            }
            assert forall|c: BuildPlanNode, a: ArtifactKeyView|
                self@.required.contains_key(c) && #[trigger] self@.required[c].contains(a) implies exists|q: int|
                    0 <= q < r@.len() && #[trigger] r@[q].0 == c && r@[q].1@ == a by {
                assert(pv.contains((c, a)));
                let q = choose|q: int| 0 <= q < pv.len() && pv[q] == (c, a);
                assert(r@[q].0 == c && r@[q].1@ == a);
            }
            assert forall|x: int, y: int| 0 <= x < y < r@.len() implies (#[trigger] r@[x]).0 != (
            #[trigger] r@[y]).0 || r@[x].1@ != r@[y].1@ by {
                assert(pv[x] != pv[y]);
            }
        }
        r
    }

    /// Whether every required artifact has a provider.
    pub fn is_fully_provided(&self) -> (r: bool)
        requires
            self.wf(),
        ensures
            r == all_provided(self@),
    {
        let reqs = self.requirements();
        let mut i: usize = 0;
        while i < reqs.len()
            invariant
                i <= reqs.len(),
                self.wf(),
                forall|q: int|
                    0 <= q < reqs@.len() ==> self@.required.contains_key((#[trigger] reqs@[q]).0)
                        && self@.required[reqs@[q].0].contains(reqs@[q].1@),
                forall|c: BuildPlanNode, a: ArtifactKeyView|
                    self@.required.contains_key(c) && #[trigger] self@.required[c].contains(a)
                        ==> exists|q: int|
                        0 <= q < reqs@.len() && #[trigger] reqs@[q].0 == c && reqs@[q].1@ == a,
                forall|q: int| 0 <= q < i ==> self@.providers.contains_key((#[trigger] reqs@[q]).1@),
            decreases reqs.len() - i,
        {
            if self.provider_index(&reqs[i].1).is_none() {
                return false;
            }
            i = i + 1;
        }
        proof {
            assert forall|c: BuildPlanNode, a: ArtifactKeyView|
                self@.required.contains_key(c) && #[trigger] self@.required[c].contains(
                    a,
                ) implies #[trigger] self@.providers.contains_key(a) by {
                let q = choose|q: int|
                    0 <= q < reqs@.len() && #[trigger] reqs@[q].0 == c && reqs@[q].1@ == a;
                assert(self@.providers.contains_key(reqs@[q].1@));
            }
        }
        true
    }

    /// Checks a finished plan: every required artifact has a provider. A plan
    /// with an unprovided requirement is a bug in its construction, which
    /// `requires` rules out.
    pub fn validate(&self)
        requires
            self.wf(),
            all_provided(self@),
    {
        let ok = self.is_fully_provided();
        assert(ok);
    }

    /// The artifacts that `consumer` requires, each with its provider, in the
    /// order they were first required.
    pub fn dependencies(&self, consumer: BuildPlanNode) -> (r: Vec<(BuildPlanNode, ArtifactKey)>)
        requires
            self.wf(),
            forall|k: int|
                0 <= k < entries(self@.required, consumer).len() ==> self@.providers.contains_key(
                    #[trigger] entries(self@.required, consumer)[k],
                ),
        ensures
            r@.len() == entries(self@.required, consumer).len(),
            forall|k: int|
                0 <= k < r@.len() ==> (#[trigger] r@[k]).1@ == entries(self@.required, consumer)[k]
                    && r@[k].0 == self@.providers[r@[k].1@],
    {
        let mut r: Vec<(BuildPlanNode, ArtifactKey)> = Vec::new();
        match index_of_node(&self.requirements_by_consumer, consumer) {
            Some(e) => {
                let keys = &self.requirements_by_consumer[e].1;
                let ghost req = entries(self@.required, consumer);
                assert(req == keys_view(keys@));
                let mut k: usize = 0;
                while k < keys.len()
                    invariant
                        k <= keys.len(),
                        self.wf(),
                        req == keys_view(keys@),
                        forall|q: int| 0 <= q < req.len() ==> self@.providers.contains_key(#[trigger] req[q]),
                        r@.len() == k,
                        forall|q: int|
                            0 <= q < k ==> (#[trigger] r@[q]).1@ == req[q] && r@[q].0
                                == self@.providers[r@[q].1@],
                    decreases keys.len() - k,
                {
                    let key = &keys[k];
                    assert(req[k as int] == key@);
                    let p = match self.provider_index(key) {
                        Some(t) => self.providers[t].1,
                        None => {
                            proof {
                                assert(false);
                            }
                            consumer
                        },
                    };
                    r.push((p, key.duplicate()));
                    k = k + 1;
                }
            },
            None => {},
        }
        r
    }
}

/// A copy of a list of artifact keys.
fn copy_keys(v: &Vec<ArtifactKey>) -> (r: Vec<ArtifactKey>)
    ensures
        keys_view(r@) == keys_view(v@),
{
    let mut r: Vec<ArtifactKey> = Vec::new();
    let mut i: usize = 0;
    while i < v.len()
        invariant
            i <= v.len(),
            r@.len() == i,
            forall|j: int| 0 <= j < i ==> (#[trigger] r@[j])@ == v@[j]@,
        decreases v.len() - i,
    {
        r.push(v[i].duplicate());
        i = i + 1;
    }
    assert(keys_view(r@) =~= keys_view(v@));
    r
}

} // verus!
