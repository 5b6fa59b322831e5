//! The dependency files a native executable is linked from, in link order.

use vstd::prelude::*;

use super::action_artifacts::{selected_paths, selection, total, ActionArtifacts, RealizedArtifact};
use crate::build_plan::artifact::ArtifactKey;
use crate::model::PackageId;

verus! {

/// The paths of the artifacts of `v` that `p` accepts, artifact after
/// artifact.
pub open spec fn paths_where(v: Seq<RealizedArtifact>, p: spec_fn(ArtifactKey) -> bool) -> Seq<String>
    decreases v.len(),
{
    if v.len() == 0 {
        Seq::empty()
    } else {
        let r = paths_where(v.drop_last(), p);
        if p(v.last().artifact) {
            r + v.last().paths@
        } else {
            r
        }
    }
}

/// A selection made by a test that decides `p` selects what `p` accepts.
proof fn lemma_selected_where<F: Fn(&ArtifactKey) -> bool>(
    matches: F,
    v: Seq<RealizedArtifact>,
    sel: Seq<bool>,
    p: spec_fn(ArtifactKey) -> bool,
)
    requires
        selection(matches, v, sel),
        forall|a: &ArtifactKey, b: bool| matches.ensures((a,), b) ==> b == p(*a),
    ensures
        selected_paths(v, sel) == paths_where(v, p),
    decreases v.len(),
{
    if v.len() > 0 {
        let n = v.len() - 1;
        assert(matches.ensures((&v[n].artifact,), sel[n]));
        assert(selection(matches, v.drop_last(), sel.drop_last())) by {
            assert forall|i: int| 0 <= i < v.drop_last().len() implies matches.ensures(
                (&v.drop_last()[i].artifact,),
                #[trigger] sel.drop_last()[i],
            ) by {
                assert(v.drop_last()[i] == v[i]);
                assert(sel.drop_last()[i] == sel[i]);
            }
        }
        lemma_selected_where(matches, v.drop_last(), sel.drop_last(), p);
    }
}

/// A linked core.
pub open spec fn is_linked_core(a: ArtifactKey) -> bool {
    a is LinkedCore
}

/// The runtime library.
pub open spec fn is_runtime(a: ArtifactKey) -> bool {
    a is RuntimeLibrary
}

/// The C stub library of package `p`.
pub open spec fn is_stub_library_of(a: ArtifactKey, p: PackageId) -> bool {
    a matches ArtifactKey::CStubLibrary { package } && package == p
}

/// The C stub libraries of `packages`, package after package.
pub open spec fn stub_library_paths(v: Seq<RealizedArtifact>, packages: Seq<PackageId>) -> Seq<String>
    decreases packages.len(),
{
    if packages.len() == 0 {
        Seq::empty()
    } else {
        stub_library_paths(v, packages.drop_last()) + paths_where(
            v,
            |a: ArtifactKey| is_stub_library_of(a, packages.last()),
        )
    }
}

/// The dependency paths of `artifacts` that `p` accepts, by a total test.
fn dependency_paths_where<F: Fn(&ArtifactKey) -> bool>(
    artifacts: &ActionArtifacts,
    matches: F,
    p: Ghost<spec_fn(ArtifactKey) -> bool>,
) -> (r: Vec<String>)
    requires
        total(matches),
        forall|a: &ArtifactKey, b: bool| matches.ensures((a,), b) ==> b == p@(*a),
    ensures
        r@ == paths_where(artifacts.dependencies@, p@),
{
    let r = artifacts.dependency_paths_matching(matches);
    proof {
        let sel = choose|sel: Seq<bool>| #[trigger] selection(matches, artifacts.dependencies@, sel) && r@
            == selected_paths(artifacts.dependencies@, sel);
        lemma_selected_where(matches, artifacts.dependencies@, sel, p@);
    }
    r
}

/// Appends `src`.
fn append_all(dst: &mut Vec<String>, src: Vec<String>)
    ensures
        final(dst)@ == old(dst)@ + src@,
{
    let ghost start = dst@;
    let mut i: usize = 0;
    while i < src.len()
        invariant
            i <= src.len(),
            dst@ == start + src@.take(i as int),
        decreases src.len() - i,
    {
        dst.push(src[i].clone());
        proof {
            assert(src@.take(i + 1) =~= src@.take(i as int).push(src@[i as int]));
        }
        i = i + 1;
    }
    assert(src@.take(src@.len() as int) =~= src@);
}

/// The dependency files of a native executable, in link order: the linked
/// core, the C stub libraries of `link_c_stubs` (package after package) and
/// then the runtime library, which is a static archive that the others may
/// need; without the linked core (`include_linked_core` false, as when the
/// executable is run by TCC against a shared runtime), the runtime comes
/// first and the stubs after it.
pub fn native_executable_dependency_paths(
    artifacts: &ActionArtifacts,
    link_c_stubs: &Vec<PackageId>,
    include_linked_core: bool,
) -> (r: Vec<String>)
    ensures
        r@ == (if include_linked_core {
            paths_where(artifacts.dependencies@, |a: ArtifactKey| is_linked_core(a))
        } else {
            paths_where(artifacts.dependencies@, |a: ArtifactKey| is_runtime(a))
        }) + stub_library_paths(artifacts.dependencies@, link_c_stubs@) + (if include_linked_core {
            paths_where(artifacts.dependencies@, |a: ArtifactKey| is_runtime(a))
        } else {
            Seq::empty()
        }),
{
    let ghost deps = artifacts.dependencies@;
    let core_test = |a: &ArtifactKey| -> (b: bool)
        ensures
            b == is_linked_core(*a),
        {
            match a {
                ArtifactKey::LinkedCore { .. } => true,
                _ => false,
            }
        };
    let runtime_test = |a: &ArtifactKey| -> (b: bool)
        ensures
            b == is_runtime(*a),
        {
            match a {
                ArtifactKey::RuntimeLibrary => true,
                _ => false,
            }
        };
    let mut sources: Vec<String> = Vec::new();
    if include_linked_core {
        let first = dependency_paths_where(artifacts, core_test, Ghost(|a: ArtifactKey| is_linked_core(a)));
        append_all(&mut sources, first);
    } else {
        let first = dependency_paths_where(artifacts, runtime_test, Ghost(|a: ArtifactKey| is_runtime(a)));
        append_all(&mut sources, first);
    }
    let ghost head = sources@;
    assert(head =~= Seq::<String>::empty() + head);
    let mut i: usize = 0;
    while i < link_c_stubs.len()
        invariant
            i <= link_c_stubs.len(),
            deps == artifacts.dependencies@,
            sources@ == head + stub_library_paths(deps, link_c_stubs@.take(i as int)),
        decreases link_c_stubs.len() - i,
    {
        let package = link_c_stubs[i];
        let stub_test = move |a: &ArtifactKey| -> (b: bool)
            ensures
                b == is_stub_library_of(*a, package),
            {
                match a {
                    ArtifactKey::CStubLibrary { package: actual } => *actual == package,
                    _ => false,
                }
            };
        let found = dependency_paths_where(
            artifacts,
            stub_test,
            Ghost(|a: ArtifactKey| is_stub_library_of(a, package)),
        );
        append_all(&mut sources, found);
        proof {
            assert(link_c_stubs@.take(i + 1).drop_last() =~= link_c_stubs@.take(i as int));
            assert(link_c_stubs@.take(i + 1).last() == package);
        }
        i = i + 1;
    }
    assert(link_c_stubs@.take(link_c_stubs@.len() as int) =~= link_c_stubs@);
    if include_linked_core {
        let last = dependency_paths_where(artifacts, runtime_test, Ghost(|a: ArtifactKey| is_runtime(a)));
        append_all(&mut sources, last);
    } else {
        assert(sources@ =~= sources@ + Seq::<String>::empty());
    }
    sources
}

} // verus!
