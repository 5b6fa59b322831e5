//! The realized outputs and dependency artifacts of one action, and the
//! selection of their paths while a command is lowered.

use vstd::prelude::*;

use crate::build_plan::artifact::ArtifactKey;

verus! {

/// One logical artifact with its concrete paths.
#[derive(Debug, Clone)]
pub struct RealizedArtifact {
    pub artifact: ArtifactKey,
    pub paths: Vec<String>,
}

/// The artifacts an action outputs and the artifacts it depends on.
#[derive(Debug, Clone)]
pub struct ActionArtifacts {
    pub outputs: Vec<RealizedArtifact>,
    pub dependencies: Vec<RealizedArtifact>,
}

/// `sel` records, for each artifact of `v`, a verdict that `matches` can
/// give on it.
pub open spec fn selection<F: Fn(&ArtifactKey) -> bool>(matches: F, v: Seq<RealizedArtifact>, sel: Seq<bool>) -> bool {
    &&& sel.len() == v.len()
    &&& forall|i: int| 0 <= i < v.len() ==> matches.ensures((&v[i].artifact,), #[trigger] sel[i])
}

/// `matches` accepts every artifact.
pub open spec fn total<F: Fn(&ArtifactKey) -> bool>(matches: F) -> bool {
    forall|a: &ArtifactKey| #[trigger] matches.requires((a,))
}

/// `matches` accepts at most one artifact of `v`, and an accepted artifact
/// has at most one path.
pub open spec fn at_most_one<F: Fn(&ArtifactKey) -> bool>(matches: F, v: Seq<RealizedArtifact>) -> bool {
    &&& forall|i: int, j: int, bi: bool, bj: bool|
        0 <= i < v.len() && 0 <= j < v.len() && i != j && matches.ensures((&v[i].artifact,), bi)
            && matches.ensures((&v[j].artifact,), bj) ==> !(bi && bj)
    &&& forall|i: int, b: bool| 0 <= i < v.len() && matches.ensures((&v[i].artifact,), b) && b ==> v[i].paths@.len() <= 1
}

/// The paths of the artifacts of `v` that `sel` selects, artifact after
/// artifact.
pub open spec fn selected_paths(v: Seq<RealizedArtifact>, sel: Seq<bool>) -> Seq<String>
    decreases v.len(),
{
    if v.len() == 0 {
        Seq::empty()
    } else {
        let r = selected_paths(v.drop_last(), sel.drop_last());
        if sel.last() {
            r + v.last().paths@
        } else {
            r
        }
    }
}

/// The path of an artifact that has one, `None` for one without paths.
pub fn optional_single_realized_path(artifact: &RealizedArtifact) -> (r: Option<String>)
    requires
        artifact.paths@.len() <= 1,
    ensures
        match r {
            Some(p) => artifact.paths@ == seq![p],
            None => artifact.paths@.len() == 0,
        },
{
    if artifact.paths.len() == 1 {
        let p = artifact.paths[0].clone();
        assert(artifact.paths@ =~= seq![p]);
        Some(p)
    } else {
        None
    }
}

/// The path of the one artifact of `realized` that `matches` accepts; `None`
/// when it accepts none, or the accepted artifact has no path.
pub fn single_matching_path<F: Fn(&ArtifactKey) -> bool>(realized: &Vec<RealizedArtifact>, matches: F) -> (r: Option<String>)
    requires
        total(matches),
        at_most_one(matches, realized@),
    ensures
        exists|sel: Seq<bool>| #[trigger] selection(matches, realized@, sel) && match r {
            Some(p) => exists|i: int| 0 <= i < sel.len() && sel[i] && realized@[i].paths@ == seq![p],
            None => forall|i: int| 0 <= i < sel.len() && sel[i] ==> realized@[i].paths@.len() == 0,
        },
{
    let mut found: Option<usize> = None;
    let ghost mut sel: Seq<bool> = Seq::empty();
    let mut i: usize = 0;
    while i < realized.len()
        invariant
            i <= realized.len(),
            total(matches),
            at_most_one(matches, realized@),
            sel.len() == i,
            forall|k: int| 0 <= k < i ==> matches.ensures((&realized@[k].artifact,), #[trigger] sel[k]),
            match found {
                Some(f) => f < i && sel[f as int] && forall|k: int| 0 <= k < i && k != f ==> !sel[k],
                None => forall|k: int| 0 <= k < i ==> !sel[k],
            },
        decreases realized.len() - i,
    {
        assert(matches.requires((&realized@[i as int].artifact,)));
        let b = matches(&realized[i].artifact);
        proof {
            sel = sel.push(b);
        }
        if b {
            match found {
                Some(f) => {
                    assert(!(sel[f as int] && sel[i as int]));
                },
                None => {},
            }
            found = Some(i);
        }
        i = i + 1;
    }
    assert(selection(matches, realized@, sel));
    match found {
        Some(f) => {
            assert(realized@[f as int].paths@.len() <= 1);
            let r = optional_single_realized_path(&realized[f]);
            proof {
                if r is None {
                    assert forall|k: int| 0 <= k < sel.len() && sel[k] implies realized@[k].paths@.len() == 0 by {
                        assert(k == f);
                    }
                }
            }
            r
        },
        None => None,
    }
}

impl ActionArtifacts {
    /// The path of the action's one output, which has one path.
    pub fn single_output_path(&self) -> (r: String)
        requires
            self.outputs@.len() == 1,
            self.outputs@[0].paths@.len() == 1,
        ensures
            r == self.outputs@[0].paths@[0],
    {
        match optional_single_realized_path(&self.outputs[0]) {
            Some(p) => p,
            None => {
                proof {
                    assert(false);
                }
                String::new()
            },
        }
    }

    /// The path of the output that `matches` accepts, if any.
    pub fn optional_single_output_path_matching<F: Fn(&ArtifactKey) -> bool>(&self, matches: F) -> (r: Option<String>)
        requires
            total(matches),
            at_most_one(matches, self.outputs@),
        ensures
            exists|sel: Seq<bool>| #[trigger] selection(matches, self.outputs@, sel) && match r {
                Some(p) => exists|i: int| 0 <= i < sel.len() && sel[i] && self.outputs@[i].paths@ == seq![p],
                None => forall|i: int| 0 <= i < sel.len() && sel[i] ==> self.outputs@[i].paths@.len() == 0,
            },
    {
        single_matching_path(&self.outputs, matches)
    }

    /// The path of the output that `matches` accepts, which has one.
    pub fn single_output_path_matching<F: Fn(&ArtifactKey) -> bool>(&self, matches: F) -> (r: String)
        requires
            total(matches),
            at_most_one(matches, self.outputs@),
            forall|sel: Seq<bool>| #[trigger] selection(matches, self.outputs@, sel) ==> exists|i: int|
                0 <= i < sel.len() && sel[i] && self.outputs@[i].paths@.len() == 1,
        ensures
            exists|sel: Seq<bool>| #[trigger] selection(matches, self.outputs@, sel) && exists|i: int|
                0 <= i < sel.len() && sel[i] && self.outputs@[i].paths@ == seq![r],
    {
        match self.optional_single_output_path_matching(matches) {
            Some(p) => p,
            None => {
                proof {
                    let sel = choose|sel: Seq<bool>| #[trigger] selection(matches, self.outputs@, sel) && forall|i: int|
                        0 <= i < sel.len() && sel[i] ==> self.outputs@[i].paths@.len() == 0;
                    let i = choose|i: int| 0 <= i < sel.len() && sel[i] && self.outputs@[i].paths@.len() == 1;
                    assert(false);
                }
                String::new()
            },
        }
    }

    /// The path of the dependency that `matches` accepts, which has one.
    pub fn single_dependency_path_matching<F: Fn(&ArtifactKey) -> bool>(&self, matches: F) -> (r: String)
        requires
            total(matches),
            at_most_one(matches, self.dependencies@),
            forall|sel: Seq<bool>| #[trigger] selection(matches, self.dependencies@, sel) ==> exists|i: int|
                0 <= i < sel.len() && sel[i] && self.dependencies@[i].paths@.len() == 1,
        ensures
            exists|sel: Seq<bool>| #[trigger] selection(matches, self.dependencies@, sel) && exists|i: int|
                0 <= i < sel.len() && sel[i] && self.dependencies@[i].paths@ == seq![r],
    {
        match single_matching_path(&self.dependencies, matches) {
            Some(p) => p,
            None => {
                proof {
                    let sel = choose|sel: Seq<bool>| #[trigger] selection(matches, self.dependencies@, sel) && forall|i: int|
                        0 <= i < sel.len() && sel[i] ==> self.dependencies@[i].paths@.len() == 0;
                    let i = choose|i: int| 0 <= i < sel.len() && sel[i] && self.dependencies@[i].paths@.len() == 1;
                    assert(false);
                }
                String::new()
            },
        }
    }

    /// The paths of every dependency that `matches` accepts, in order.
    pub fn dependency_paths_matching<F: Fn(&ArtifactKey) -> bool>(&self, matches: F) -> (r: Vec<String>)
        requires
            total(matches),
        ensures
            exists|sel: Seq<bool>| #[trigger] selection(matches, self.dependencies@, sel) && r@ == selected_paths(
                self.dependencies@,
                sel,
            ),
    {
        let mut r: Vec<String> = Vec::new();
        let ghost mut sel: Seq<bool> = Seq::empty();
        let mut i: usize = 0;
        while i < self.dependencies.len()
            invariant
                i <= self.dependencies.len(),
                total(matches),
                sel.len() == i,
                forall|k: int| 0 <= k < i ==> matches.ensures((&self.dependencies@[k].artifact,), #[trigger] sel[k]),
                r@ == selected_paths(self.dependencies@.take(i as int), sel),
            decreases self.dependencies.len() - i,
        {
            assert(matches.requires((&self.dependencies@[i as int].artifact,)));
            let b = matches(&self.dependencies[i].artifact);
            let ghost prev = sel;
            proof {
                sel = sel.push(b);
                assert(self.dependencies@.take(i + 1).drop_last() =~= self.dependencies@.take(i as int));
                assert(sel.drop_last() =~= prev);
            }
            if b {
                let paths = &self.dependencies[i].paths;
                let mut j: usize = 0;
                let ghost base = r@;
                while j < paths.len()
                    invariant
                        j <= paths.len(),
                        r@ == base + paths@.take(j as int),
                    decreases paths.len() - j,
                {
                    r.push(paths[j].clone());
                    assert(paths@.take(j + 1) =~= paths@.take(j as int).push(paths@[j as int]));
                    j = j + 1;
                }
                assert(paths@.take(paths.len() as int) =~= paths@);
            }
            i = i + 1;
        }
        assert(self.dependencies@.take(self.dependencies.len() as int) =~= self.dependencies@);
        assert(selection(matches, self.dependencies@, sel));
        r
    }
}

} // verus!
