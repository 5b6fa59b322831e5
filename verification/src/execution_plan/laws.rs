//! What composing execution plans keeps, and what it gives back.

use vstd::prelude::*;

use super::plan::{
    artifact_for_path, ExecutionActionView, any_declared, first_declared, matches_existing, merge_prefix, merge_step, new_declarations,
    plan_wf, DeclaredOutputView, ExecutionPlanView, MergeState, MergeStep,
};
use super::ActionId;
use crate::build_plan::artifact::PathKey;

verus! {

/// Every action of `p` has an output, each of its outputs is declared as
/// produced by it, and each declared output is an output of its producer:
/// the shape of every plan that a builder assembles from actions with outputs.
pub open spec fn self_produced(p: ExecutionPlanView) -> bool {
    &&& forall|a: int| 0 <= a < p.actions.len() ==> (#[trigger] p.actions[a]).outputs.len() > 0
    &&& forall|a: int, j: int|
        0 <= a < p.actions.len() && 0 <= j < p.actions[a].outputs.len() ==> p.outputs[
        #[trigger] p.actions[a].outputs[j]].producer.0 == a
    &&& forall|k: PathKey| #[trigger]
        p.outputs.contains_key(k) ==> p.actions[p.outputs[k].producer.0 as int].outputs.contains(k)
}

/// The ids `0..n`.
pub open spec fn first_ids(n: nat) -> Seq<ActionId> {
    Seq::new(n, |i: int| ActionId(i as usize))
}

proof fn lemma_first_declared_valid(outs: Map<PathKey, DeclaredOutputView>, ks: Seq<PathKey>)
    requires
        exists|j: int| 0 <= j < ks.len() && outs.contains_key(#[trigger] ks[j]),
    ensures
        0 <= first_declared(outs, ks) < ks.len(),
        outs.contains_key(ks[first_declared(outs, ks)]),
    decreases ks.len(),
{
    if !outs.contains_key(ks[0]) {
        let j = choose|j: int| 0 <= j < ks.len() && outs.contains_key(#[trigger] ks[j]);
        let rest = ks.drop_first();
        assert(rest[j - 1] == ks[j]);
        lemma_first_declared_valid(outs, rest);
        assert(ks[first_declared(outs, ks)] == rest[first_declared(outs, rest)]);
    }
}

/// Composing actions into a plan keeps what the plan had: its actions stay in
/// place, its declared outputs stay declared as they were, and its requested
/// artifacts are untouched. Each returned id names an action of the composed
/// plan identical to the incoming action it stands for. A conflict names a
/// path that the plan declares and that the rejected action also outputs.
pub proof fn law_merge_keeps_plan(
    p: ExecutionPlanView,
    acts: Seq<super::plan::ExecutionActionView>,
    incoming: Map<PathKey, DeclaredOutputView>,
    n: nat,
)
    requires
        n <= acts.len(),
        p.actions.len() + n <= usize::MAX,
    ensures
        ({
            let st = merge_prefix(p, acts, incoming, n);
            &&& p.actions.len() <= st.plan.actions.len() <= p.actions.len() + st.ids.len()
            &&& st.plan.actions.take(p.actions.len() as int) == p.actions
            &&& p.outputs.submap_of(st.plan.outputs)
            &&& st.plan.requested == p.requested
            &&& st.ids.len() <= n
            &&& (st.conflict is None ==> st.ids.len() == n)
            &&& forall|i: int|
                0 <= i < st.ids.len() ==> (#[trigger] st.ids[i]).0 < st.plan.actions.len()
                    && st.plan.actions[st.ids[i].0 as int] == acts[i]
            &&& (st.conflict matches Some(k) ==> st.ids.len() < n && st.plan.outputs.contains_key(k)
                && acts[st.ids.len() as int].outputs.contains(k))
        }),
    decreases n,
{
    if n > 0 {
        law_merge_keeps_plan(p, acts, incoming, (n - 1) as nat);
        let prev = merge_prefix(p, acts, incoming, (n - 1) as nat);
        let st = merge_prefix(p, acts, incoming, n);
        if prev.conflict is None {
            let a = acts[n - 1];
            let q = prev.plan;
            if !any_declared(q, a) {
                let id = ActionId(q.actions.len() as usize);
                let nd = new_declarations(a.outputs, id, incoming);
                assert(st.plan.actions == q.actions.push(a));
                assert(st.plan.actions.take(p.actions.len() as int) =~= p.actions) by {
                    assert(q.actions.take(p.actions.len() as int) == p.actions);
                }
                assert(q.outputs.submap_of(st.plan.outputs)) by {
                    assert forall|k: PathKey| #[trigger] q.outputs.contains_key(k) implies st.plan.outputs.contains_key(
                        k,
                    ) && st.plan.outputs[k] == q.outputs[k] by {
                        if nd.contains_key(k) {
                            let j = choose|j: int| 0 <= j < a.outputs.len() && a.outputs[j] == k;
                            assert(q.outputs.contains_key(a.outputs[j]));
                        }
                    }
                }
                assert forall|i: int| 0 <= i < st.ids.len() implies (#[trigger] st.ids[i]).0
                    < st.plan.actions.len() && st.plan.actions[st.ids[i].0 as int] == acts[i] by {
                    if i < prev.ids.len() {
                        assert(st.ids[i] == prev.ids[i]);
                    }
                }
            } else if matches_existing(q, a, incoming) {
                assert forall|i: int| 0 <= i < st.ids.len() implies (#[trigger] st.ids[i]).0
                    < st.plan.actions.len() && st.plan.actions[st.ids[i].0 as int] == acts[i] by {
                    if i < prev.ids.len() {
                        assert(st.ids[i] == prev.ids[i]);
                    }
                }
            } else {
                lemma_first_declared_valid(q.outputs, a.outputs);
                let j = first_declared(q.outputs, a.outputs);
                assert(a.outputs[j] == a.outputs[j]);
            }
        }
    }
}

/// Composing a self-produced plan `q` into an empty plan reproduces it: no
/// conflict, its actions and declared outputs as they were, and each action
/// keeping its own id.
pub proof fn law_merge_into_empty(p: ExecutionPlanView, q: ExecutionPlanView)
    requires
        p.actions.len() == 0,
        p.outputs == Map::<PathKey, DeclaredOutputView>::empty(),
        plan_wf(q),
        self_produced(q),
        q.actions.len() <= usize::MAX,
    ensures
        merge_prefix(p, q.actions, q.outputs, q.actions.len()) == (MergeState {
            plan: ExecutionPlanView { actions: q.actions, outputs: q.outputs, requested: p.requested },
            ids: first_ids(q.actions.len()),
            conflict: None,
        }),
{
    lemma_merge_into_empty_prefix(p, q, q.actions.len());
    let st = merge_prefix(p, q.actions, q.outputs, q.actions.len());
    assert(q.actions.take(q.actions.len() as int) =~= q.actions);
    assert(st.plan.outputs =~= q.outputs);
}

proof fn lemma_merge_into_empty_prefix(p: ExecutionPlanView, q: ExecutionPlanView, n: nat)
    requires
        p.actions.len() == 0,
        p.outputs == Map::<PathKey, DeclaredOutputView>::empty(),
        plan_wf(q),
        self_produced(q),
        q.actions.len() <= usize::MAX,
        n <= q.actions.len(),
    ensures
        ({
            let st = merge_prefix(p, q.actions, q.outputs, n);
            &&& st.conflict is None
            &&& st.ids == first_ids(n)
            &&& st.plan.actions == q.actions.take(n as int)
            &&& st.plan.outputs == Map::new(
                |k: PathKey| q.outputs.contains_key(k) && q.outputs[k].producer.0 < n,
                |k: PathKey| q.outputs[k],
            )
            &&& st.plan.requested == p.requested
        }),
    decreases n,
{
    if n == 0 {
        assert(q.actions.take(0) =~= Seq::<super::plan::ExecutionActionView>::empty());
        assert(first_ids(0) =~= Seq::<ActionId>::empty());
        assert(Map::new(
            |k: PathKey| q.outputs.contains_key(k) && q.outputs[k].producer.0 < 0,
            |k: PathKey| q.outputs[k],
        ) =~= Map::<PathKey, DeclaredOutputView>::empty());
    } else {
        lemma_merge_into_empty_prefix(p, q, (n - 1) as nat);
        let prev = merge_prefix(p, q.actions, q.outputs, (n - 1) as nat);
        let a = q.actions[n - 1];
        let m = n - 1;
        assert(!any_declared(prev.plan, a)) by {
            assert forall|j: int| 0 <= j < a.outputs.len() implies !prev.plan.outputs.contains_key(
                #[trigger] a.outputs[j],
            ) by {
                assert(q.outputs[q.actions[m].outputs[j]].producer.0 == m);
            }
        }
        let id = ActionId(prev.plan.actions.len() as usize);
        assert(id.0 == m);
        let st = merge_prefix(p, q.actions, q.outputs, n);
        assert(st.ids =~= first_ids(n)) by {
            assert(st.ids == prev.ids.push(id));
        }
        assert(st.plan.actions =~= q.actions.take(n as int));
        let nd = new_declarations(a.outputs, id, q.outputs);
        let target = Map::new(
            |k: PathKey| q.outputs.contains_key(k) && q.outputs[k].producer.0 < n,
            |k: PathKey| q.outputs[k],
        );
        assert forall|k: PathKey| #[trigger] st.plan.outputs.contains_key(k) == target.contains_key(k)
            && (st.plan.outputs.contains_key(k) ==> st.plan.outputs[k] == target[k]) by {
            if a.outputs.contains(k) {
                let j = choose|j: int| 0 <= j < a.outputs.len() && a.outputs[j] == k;
                assert(q.outputs.contains_key(q.actions[m].outputs[j]));
                assert(q.outputs[q.actions[m].outputs[j]].producer.0 == m);
                assert(q.outputs[k].producer == id);
                assert(q.outputs[k].path == k);
                assert(nd[k] == q.outputs[k]);
            } else if q.outputs.contains_key(k) && q.outputs[k].producer.0 == m {
                assert(q.actions[q.outputs[k].producer.0 as int].outputs.contains(k));
            }
        }
        assert(st.plan.outputs =~= target);
    }
}

/// Composing a self-produced plan `q` into a plan that holds exactly its
/// actions and declared outputs changes nothing and gives each action back
/// its own id.
pub proof fn law_merge_idempotent(p: ExecutionPlanView, q: ExecutionPlanView)
    requires
        p.actions == q.actions,
        p.outputs == q.outputs,
        plan_wf(q),
        self_produced(q),
        q.actions.len() <= usize::MAX,
    ensures
        merge_prefix(p, q.actions, q.outputs, q.actions.len()) == (MergeState {
            plan: p,
            ids: first_ids(q.actions.len()),
            conflict: None,
        }),
{
    lemma_merge_idempotent_prefix(p, q, q.actions.len());
}

proof fn lemma_merge_idempotent_prefix(p: ExecutionPlanView, q: ExecutionPlanView, n: nat)
    requires
        p.actions == q.actions,
        p.outputs == q.outputs,
        plan_wf(q),
        self_produced(q),
        q.actions.len() <= usize::MAX,
        n <= q.actions.len(),
    ensures
        merge_prefix(p, q.actions, q.outputs, n) == (MergeState {
            plan: p,
            ids: first_ids(n),
            conflict: None,
        }),
    decreases n,
{
    if n == 0 {
        assert(first_ids(0) =~= Seq::<ActionId>::empty());
    } else {
        lemma_merge_idempotent_prefix(p, q, (n - 1) as nat);
        let m = n - 1;
        let a = q.actions[m];
        let k0 = a.outputs[0];
        assert(a.outputs.len() > 0);
        assert(p.outputs.contains_key(q.actions[m].outputs[0]));
        assert(any_declared(p, a));
        let e = p.outputs[k0].producer;
        assert(e.0 == m);
        assert(matches_existing(p, a, q.outputs)) by {
            assert forall|j: int| 0 <= j < a.outputs.len() implies {
                let k = #[trigger] a.outputs[j];
                &&& p.outputs.contains_key(k)
                &&& p.outputs[k].producer == e
                &&& q.outputs.contains_key(k)
                &&& p.outputs[k].artifact == q.outputs[k].artifact
            } by {
                assert(q.outputs.contains_key(q.actions[m].outputs[j]));
                assert(q.outputs[q.actions[m].outputs[j]].producer.0 == m);
            }
        }
        assert(merge_step(p, a, q.outputs) == MergeStep::Merged(p, e));
        assert(e == ActionId(m as usize));
        assert(first_ids(n) =~= first_ids(m as nat).push(e));
    }
}

/// What composing the first `n` actions leaves: each composed action sits in
/// the plan at its returned id, and each of its outputs is declared as
/// produced there, with the artifact that `incoming` gives it.
pub open spec fn composed(st: MergeState, acts: Seq<ExecutionActionView>, incoming: Map<PathKey, DeclaredOutputView>, n: nat) -> bool {
    &&& st.ids.len() == n
    &&& forall|i: int| 0 <= i < n ==> (#[trigger] st.ids[i]).0 < st.plan.actions.len() && st.plan.actions[st.ids[i].0 as int] == acts[i]
    &&& forall|i: int, j: int|
        0 <= i < n && 0 <= j < acts[i].outputs.len() ==> {
            let k = #[trigger] acts[i].outputs[j];
            &&& st.plan.outputs.contains_key(k)
            &&& st.plan.outputs[k].producer == st.ids[i]
            &&& st.plan.outputs[k].artifact == incoming[k].artifact
        }
}

proof fn lemma_merge_composed(
    c: ExecutionPlanView,
    acts: Seq<ExecutionActionView>,
    incoming: Map<PathKey, DeclaredOutputView>,
    n: nat,
)
    requires
        n <= acts.len(),
        c.actions.len() + n <= usize::MAX,
        merge_prefix(c, acts, incoming, n).conflict is None,
    ensures
        composed(merge_prefix(c, acts, incoming, n), acts, incoming, n),
        merge_prefix(c, acts, incoming, n).plan.actions.len() <= c.actions.len() + n,
    decreases n,
{
    if n > 0 {
        let m = (n - 1) as nat;
        let prev = merge_prefix(c, acts, incoming, m);
        if prev.conflict is Some {
            assert(merge_prefix(c, acts, incoming, n) == prev);
        } else {
            lemma_merge_composed(c, acts, incoming, m);
            let q = prev.plan;
            let a = acts[m as int];
            let st = merge_prefix(c, acts, incoming, n);
            if !any_declared(q, a) {
                let id = ActionId(q.actions.len() as usize);
                let nd = new_declarations(a.outputs, id, incoming);
                assert(id.0 == q.actions.len());
                assert(st.plan.actions == q.actions.push(a));
                assert(st.plan.outputs == q.outputs.union_prefer_right(nd));
                assert(st.ids == prev.ids.push(id));
                assert forall|i: int, j: int|
                    0 <= i < n && 0 <= j < acts[i].outputs.len() implies {
                        let k = #[trigger] acts[i].outputs[j];
                        &&& st.plan.outputs.contains_key(k)
                        &&& st.plan.outputs[k].producer == st.ids[i]
                        &&& st.plan.outputs[k].artifact == incoming[k].artifact
                    } by {
                    let k = acts[i].outputs[j];
                    if i < m {
                        assert(q.outputs.contains_key(k));
                        if nd.contains_key(k) {
                            let t = choose|t: int| 0 <= t < a.outputs.len() && a.outputs[t] == k;
                            assert(q.outputs.contains_key(a.outputs[t]));
                        }
                        assert(st.ids[i] == prev.ids[i]);
                    } else {
                        assert(a.outputs[j] == k);
                        assert(nd.contains_key(k));
                    }
                }
                assert forall|i: int| 0 <= i < n implies (#[trigger] st.ids[i]).0 < st.plan.actions.len()
                    && st.plan.actions[st.ids[i].0 as int] == acts[i] by {
                    if i < m {
                        assert(st.ids[i] == prev.ids[i]);
                    }
                }
            } else if matches_existing(q, a, incoming) {
                let e = q.outputs[a.outputs[0]].producer;
                assert(st.plan == q);
                assert(st.ids == prev.ids.push(e));
                assert forall|i: int, j: int|
                    0 <= i < n && 0 <= j < acts[i].outputs.len() implies {
                        let k = #[trigger] acts[i].outputs[j];
                        &&& st.plan.outputs.contains_key(k)
                        &&& st.plan.outputs[k].producer == st.ids[i]
                        &&& st.plan.outputs[k].artifact == incoming[k].artifact
                    } by {
                    if i < m {
                        assert(st.ids[i] == prev.ids[i]);
                    } else {
                        assert(a.outputs[j] == acts[i].outputs[j]);
                    }
                }
                assert forall|i: int| 0 <= i < n implies (#[trigger] st.ids[i]).0 < st.plan.actions.len()
                    && st.plan.actions[st.ids[i].0 as int] == acts[i] by {
                    if i < m {
                        assert(st.ids[i] == prev.ids[i]);
                    }
                }
            }
        }
    }
}

proof fn lemma_merge_again_prefix(
    p2: ExecutionPlanView,
    st: MergeState,
    acts: Seq<ExecutionActionView>,
    incoming: Map<PathKey, DeclaredOutputView>,
    n: nat,
    m: nat,
)
    requires
        m <= n <= acts.len(),
        composed(st, acts, incoming, n),
        p2.actions == st.plan.actions,
        p2.outputs == st.plan.outputs,
        forall|i: int| 0 <= i < n ==> (#[trigger] acts[i]).outputs.len() > 0,
        forall|i: int, j: int|
            0 <= i < n && 0 <= j < acts[i].outputs.len() ==> incoming.contains_key(#[trigger] acts[i].outputs[j]),
    ensures
        merge_prefix(p2, acts, incoming, m) == (MergeState { plan: p2, ids: st.ids.take(m as int), conflict: None }),
    decreases m,
{
    if m == 0 {
        assert(st.ids.take(0) =~= Seq::<ActionId>::empty());
    } else {
        let k1 = (m - 1) as nat;
        lemma_merge_again_prefix(p2, st, acts, incoming, n, k1);
        let i = k1 as int;
        let a = acts[i];
        let e = st.ids[i];
        assert(a.outputs.len() > 0);
        assert(p2.outputs.contains_key(acts[i].outputs[0]));
        assert(any_declared(p2, a));
        assert(p2.outputs[a.outputs[0]].producer == e);
        assert(matches_existing(p2, a, incoming)) by {
            assert forall|j: int| 0 <= j < a.outputs.len() implies {
                let k = #[trigger] a.outputs[j];
                &&& p2.outputs.contains_key(k)
                &&& p2.outputs[k].producer == e
                &&& incoming.contains_key(k)
                &&& p2.outputs[k].artifact == incoming[k].artifact
            } by {
                assert(a.outputs[j] == acts[i].outputs[j]);
            }
        }
        assert(merge_step(p2, a, incoming) == MergeStep::Merged(p2, e));
        assert(st.ids.take(m as int) =~= st.ids.take(k1 as int).push(e));
    }
}

/// Merging the same actions a second time changes nothing and gives back
/// the same ids: after composing `acts` (each with an output, each output
/// declared by their plan's `incoming`) into `c` without a conflict,
/// composing them again into a plan with the result's actions and declared
/// outputs keeps that plan as it is and returns the first composition's ids.
pub proof fn law_merge_twice_same_ids(
    c: ExecutionPlanView,
    p2: ExecutionPlanView,
    acts: Seq<ExecutionActionView>,
    incoming: Map<PathKey, DeclaredOutputView>,
)
    requires
        c.actions.len() + acts.len() <= usize::MAX,
        forall|i: int| 0 <= i < acts.len() ==> (#[trigger] acts[i]).outputs.len() > 0,
        forall|i: int, j: int|
            0 <= i < acts.len() && 0 <= j < acts[i].outputs.len() ==> incoming.contains_key(#[trigger] acts[i].outputs[j]),
        merge_prefix(c, acts, incoming, acts.len()).conflict is None,
        p2.actions == merge_prefix(c, acts, incoming, acts.len()).plan.actions,
        p2.outputs == merge_prefix(c, acts, incoming, acts.len()).plan.outputs,
    ensures
        merge_prefix(p2, acts, incoming, acts.len()) == (MergeState {
            plan: p2,
            ids: merge_prefix(c, acts, incoming, acts.len()).ids,
            conflict: None,
        }),
{
    let st = merge_prefix(c, acts, incoming, acts.len());
    lemma_merge_composed(c, acts, incoming, acts.len());
    lemma_merge_again_prefix(p2, st, acts, incoming, acts.len(), acts.len());
    assert(st.ids.take(acts.len() as int) =~= st.ids);
}

/// The plan after adding action `a` as action number `p.actions.len()`, its
/// outputs declared as produced by it: what a builder's `add_action` makes.
pub open spec fn with_action(
    p: ExecutionPlanView,
    a: ExecutionActionView,
    sem: Seq<(crate::build_plan::artifact::ArtifactKeyView, Seq<PathKey>)>,
) -> ExecutionPlanView {
    ExecutionPlanView {
        actions: p.actions.push(a),
        outputs: p.outputs.union_prefer_right(
            Map::new(
                |k: PathKey| a.outputs.contains(k),
                |k: PathKey|
                    DeclaredOutputView {
                        producer: ActionId(p.actions.len() as usize),
                        path: k,
                        artifact: artifact_for_path(sem, k),
                    },
            ),
        ),
        requested: p.requested,
    }
}

/// A plan with no actions and no declared outputs is self-produced.
pub proof fn law_empty_plan_self_produced(p: ExecutionPlanView)
    requires
        p.actions.len() == 0,
        p.outputs == Map::<PathKey, DeclaredOutputView>::empty(),
    ensures
        self_produced(p),
{
}

/// Adding an action that has outputs, none declared yet, to a self-produced
/// plan leaves it self-produced; so every plan a builder assembles from
/// actions with outputs is one that the merge laws speak of.
pub proof fn law_add_action_keeps_self_produced(
    p: ExecutionPlanView,
    a: ExecutionActionView,
    sem: Seq<(crate::build_plan::artifact::ArtifactKeyView, Seq<PathKey>)>,
)
    requires
        self_produced(p),
        plan_wf(p),
        p.actions.len() < usize::MAX,
        a.outputs.len() > 0,
        forall|i: int| 0 <= i < a.outputs.len() ==> !p.outputs.contains_key(#[trigger] a.outputs[i]),
    ensures
        self_produced(with_action(p, a, sem)),
{
    let q = with_action(p, a, sem);
    let n = p.actions.len() as int;
    assert forall|i: int, j: int|
        0 <= i < q.actions.len() && 0 <= j < q.actions[i].outputs.len() implies q.outputs[
        #[trigger] q.actions[i].outputs[j]].producer.0 == i by {
        if i < n {
            let k = p.actions[i].outputs[j];
            assert(p.outputs.contains_key(k));
            if a.outputs.contains(k) {
                let t = choose|t: int| 0 <= t < a.outputs.len() && a.outputs[t] == k;
                assert(!p.outputs.contains_key(a.outputs[t]));
            }
        } else {
            assert(a.outputs.contains(a.outputs[j]));
        }
    }
    assert forall|k: PathKey| #[trigger] q.outputs.contains_key(k) implies q.actions[q.outputs[
        k].producer.0 as int].outputs.contains(k) by {
        if a.outputs.contains(k) {
        } else {
            assert(p.outputs.contains_key(k));
            assert(q.actions[p.outputs[k].producer.0 as int] == p.actions[p.outputs[k].producer.0 as int]);
        }
    }
}

} // verus!
