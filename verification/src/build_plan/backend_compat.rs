//! Whether the selected backend can build a dependency, and what the build
//! says when it cannot or when a package leaves its backends undeclared.

use vstd::prelude::*;

use crate::build_action_plan::view::node_target;
use crate::build_plan::prebuild::BuildPlanConstructError;
use crate::model::{backend_flag, BuildPlanNode, BuildTarget, TargetBackend, TargetKind};
use crate::order::{char_lt, lex_lt_at, str_lt};
use crate::text::{append_str, owned};

verus! {

/// The backends in the order of their names.
pub open spec fn backends_by_name() -> Seq<TargetBackend> {
    seq![
        TargetBackend::Js,
        TargetBackend::LLVM,
        TargetBackend::Native,
        TargetBackend::Wasm,
        TargetBackend::WasmGC,
    ]
}

/// The names of the backends of `order` that `set` holds, in that order.
pub open spec fn names_in(order: Seq<TargetBackend>, set: Seq<TargetBackend>) -> Seq<Seq<char>>
    decreases order.len(),
{
    if order.len() == 0 {
        Seq::empty()
    } else {
        let rest = names_in(order.drop_last(), set);
        if set.contains(order.last()) {
            rest.push(backend_flag(order.last()))
        } else {
            rest
        }
    }
}

/// The names of the backends in `set`, sorted.
pub open spec fn supported_backend_names(set: Seq<TargetBackend>) -> Seq<Seq<char>> {
    names_in(backends_by_name(), set)
}

/// `words` separated by `, `.
pub open spec fn join_comma(words: Seq<Seq<char>>) -> Seq<char>
    decreases words.len(),
{
    if words.len() == 0 {
        Seq::empty()
    } else if words.len() == 1 {
        words[0]
    } else {
        join_comma(words.drop_last()) + ", "@ + words.last()
    }
}

/// `words` as a bracketed list: `[a, b]`.
pub open spec fn bracketed(words: Seq<Seq<char>>) -> Seq<char> {
    "["@ + join_comma(words) + "]"@
}

/// The names of the backends, in their order, are strictly increasing.
proof fn lemma_backend_names_increase()
    ensures
        forall|i: int, j: int|
            0 <= i < j < 5 ==> str_lt(
                backend_flag(#[trigger] backends_by_name()[i]),
                backend_flag(#[trigger] backends_by_name()[j]),
            ),
{
    reveal_strlit("js");
    reveal_strlit("llvm");
    reveal_strlit("native");
    reveal_strlit("wasm");
    reveal_strlit("wasm-gc");
    let elt = |x: char, y: char| char_lt(x, y);
    let js = "js"@;
    let llvm = "llvm"@;
    let native = "native"@;
    let wasm = "wasm"@;
    let wasm_gc = "wasm-gc"@;
    assert(lex_lt_at(js, llvm, elt, 0));
    assert(lex_lt_at(js, native, elt, 0));
    assert(lex_lt_at(js, wasm, elt, 0));
    assert(lex_lt_at(js, wasm_gc, elt, 0));
    assert(lex_lt_at(llvm, native, elt, 0));
    assert(lex_lt_at(llvm, wasm, elt, 0));
    assert(lex_lt_at(llvm, wasm_gc, elt, 0));
    assert(lex_lt_at(native, wasm, elt, 0));
    assert(lex_lt_at(native, wasm_gc, elt, 0));
    assert(lex_lt_at(wasm, wasm_gc, elt, 4));
}

/// Every name that `names_in(order, set)` lists is the name of one of the
/// backends of `order` that `set` holds.
proof fn lemma_names_in_members(order: Seq<TargetBackend>, set: Seq<TargetBackend>)
    ensures
        forall|x: int|
            #![trigger names_in(order, set)[x]]
            0 <= x < names_in(order, set).len() ==> exists|k: int|
                0 <= k < order.len() && set.contains(#[trigger] order[k]) && names_in(order, set)[x]
                    == backend_flag(order[k]),
    decreases order.len(),
{
    if order.len() > 0 {
        let prefix = order.drop_last();
        lemma_names_in_members(prefix, set);
        let names = names_in(order, set);
        let before = names_in(prefix, set);
        assert forall|x: int| #![trigger names[x]] 0 <= x < names.len() implies exists|k: int|
            0 <= k < order.len() && set.contains(#[trigger] order[k]) && names[x] == backend_flag(
                order[k],
            ) by {
            if x < before.len() {
                assert(names[x] == before[x]);
                let k = choose|k: int|
                    0 <= k < prefix.len() && set.contains(#[trigger] prefix[k]) && before[x] == backend_flag(
                        prefix[k],
                    );
                assert(order[k] == prefix[k]);
            } else {
                let k = order.len() - 1;
                assert(set.contains(order[k]) && names[x] == backend_flag(order[k]));
            }
        }
    }
}

/// A prefix of the backends by name lists its names in increasing order,
/// each taken from a position before the prefix's end.
proof fn lemma_names_in_prefix_sorted(n: int, set: Seq<TargetBackend>)
    requires
        0 <= n <= 5,
    ensures
        forall|x: int, y: int|
            0 <= x < y < names_in(backends_by_name().take(n), set).len() ==> str_lt(
                #[trigger] names_in(backends_by_name().take(n), set)[x],
                #[trigger] names_in(backends_by_name().take(n), set)[y],
            ),
        forall|x: int|
            0 <= x < names_in(backends_by_name().take(n), set).len() ==> exists|k: int|
                0 <= k < n && #[trigger] names_in(backends_by_name().take(n), set)[x] == backend_flag(
                    backends_by_name()[k],
                ),
    decreases n,
{
    lemma_backend_names_increase();
    let order = backends_by_name().take(n);
    lemma_names_in_members(order, set);
    if n > 0 {
        lemma_names_in_prefix_sorted(n - 1, set);
        let prev = backends_by_name().take(n - 1);
        assert(order.drop_last() =~= prev);
        let names = names_in(order, set);
        let before = names_in(prev, set);
        assert forall|x: int| 0 <= x < names.len() implies exists|k: int|
            0 <= k < n && #[trigger] names[x] == backend_flag(backends_by_name()[k]) by {
            let k = choose|k: int|
                0 <= k < order.len() && set.contains(#[trigger] order[k]) && names_in(order, set)[x]
                    == backend_flag(order[k]);
            assert(order[k] == backends_by_name()[k]);
        }
        assert forall|x: int, y: int| 0 <= x < y < names.len() implies str_lt(
            #[trigger] names[x],
            #[trigger] names[y],
        ) by {
            if y < before.len() {
                assert(names[x] == before[x] && names[y] == before[y]);
            } else {
                assert(names[y] == backend_flag(backends_by_name()[n - 1]));
                assert(names[x] == before[x]);
                let k = choose|k: int| 0 <= k < n - 1 && #[trigger] before[x] == backend_flag(backends_by_name()[k]);
                assert(str_lt(backend_flag(backends_by_name()[k]), backend_flag(backends_by_name()[n - 1])));
            }
        }
    }
}

/// The list of supported backends that an incompatibility names is sorted
/// by name, and holds exactly the names of the backends that can build the
/// dependency.
pub proof fn law_supported_backend_names_sorted(set: Seq<TargetBackend>)
    ensures
        forall|x: int, y: int|
            0 <= x < y < supported_backend_names(set).len() ==> str_lt(
                #[trigger] supported_backend_names(set)[x],
                #[trigger] supported_backend_names(set)[y],
            ),
        forall|b: TargetBackend|
            set.contains(b) <==> #[trigger] supported_backend_names(set).contains(backend_flag(b)),
{
    assert(backends_by_name().take(5) =~= backends_by_name());
    lemma_names_in_prefix_sorted(5, set);
    lemma_names_in_members(backends_by_name(), set);
    lemma_names_in_complete(backends_by_name(), set);
    assert forall|b: TargetBackend| #[trigger]
        supported_backend_names(set).contains(backend_flag(b)) implies set.contains(b) by {
        let x = choose|x: int|
            0 <= x < supported_backend_names(set).len() && supported_backend_names(set)[x] == backend_flag(
                b,
            );
        let k = choose|k: int|
            0 <= k < backends_by_name().len() && set.contains(#[trigger] backends_by_name()[k]) && names_in(
                backends_by_name(),
                set,
            )[x] == backend_flag(backends_by_name()[k]);
        lemma_backend_flag_injective(b, backends_by_name()[k]);
    }
    assert forall|b: TargetBackend| set.contains(b) implies #[trigger] supported_backend_names(
        set,
    ).contains(backend_flag(b)) by {
        let k: int = match b {
            TargetBackend::Js => 0,
            TargetBackend::LLVM => 1,
            TargetBackend::Native => 2,
            TargetBackend::Wasm => 3,
            TargetBackend::WasmGC => 4,
        };
        assert(backends_by_name()[k] == b);
    }
}

/// The length and first character of a backend's name.
pub open spec fn flag_signature(b: TargetBackend) -> (int, char) {
    match b {
        TargetBackend::Js => (2, 'j'),
        TargetBackend::LLVM => (4, 'l'),
        TargetBackend::Native => (6, 'n'),
        TargetBackend::Wasm => (4, 'w'),
        TargetBackend::WasmGC => (7, 'w'),
    }
}

proof fn lemma_flag_signature(b: TargetBackend)
    ensures
        backend_flag(b).len() == flag_signature(b).0,
        backend_flag(b)[0] == flag_signature(b).1,
{
    reveal_strlit("js");
    reveal_strlit("llvm");
    reveal_strlit("native");
    reveal_strlit("wasm");
    reveal_strlit("wasm-gc");
}

/// Distinct backends have distinct names.
proof fn lemma_backend_flag_injective(a: TargetBackend, b: TargetBackend)
    requires
        backend_flag(a) == backend_flag(b),
    ensures
        a == b,
{
    lemma_flag_signature(a);
    lemma_flag_signature(b);
}

/// Every backend of `order` that `set` holds has its name listed.
proof fn lemma_names_in_complete(order: Seq<TargetBackend>, set: Seq<TargetBackend>)
    ensures
        forall|k: int|
            0 <= k < order.len() && set.contains(#[trigger] order[k]) ==> names_in(order, set).contains(
                backend_flag(order[k]),
            ),
    decreases order.len(),
{
    if order.len() > 0 {
        let prefix = order.drop_last();
        lemma_names_in_complete(prefix, set);
        assert forall|k: int| 0 <= k < order.len() && set.contains(#[trigger] order[k]) implies names_in(
            order,
            set,
        ).contains(backend_flag(order[k])) by {
            if k < prefix.len() {
                assert(order[k] == prefix[k]);
                let x = choose|x: int|
                    0 <= x < names_in(prefix, set).len() && names_in(prefix, set)[x] == backend_flag(
                        prefix[k],
                    );
                assert(names_in(order, set)[x] == names_in(prefix, set)[x]);
            } else {
                assert(names_in(order, set).last() == backend_flag(order[k]));
                assert(names_in(order, set)[names_in(order, set).len() - 1] == backend_flag(order[k]));
            }
        }
    }
}

/// Whether `set` holds `b`.
fn holds_backend(set: &Vec<TargetBackend>, b: TargetBackend) -> (r: bool)
    ensures
        r == set@.contains(b),
{
    let mut i: usize = 0;
    while i < set.len()
        invariant
            i <= set.len(),
            forall|j: int| 0 <= j < i ==> set@[j] != b,
        decreases set.len() - i,
    {
        if set[i] == b {
            return true;
        }
        i = i + 1;
    }
    false
}

/// The names of the backends in `set`, sorted, as a bracketed list.
pub fn supported_backends_list(set: &Vec<TargetBackend>) -> (r: String)
    ensures
        r@ == bracketed(supported_backend_names(set@)),
{
    let order: [TargetBackend; 5] = [
        TargetBackend::Js,
        TargetBackend::LLVM,
        TargetBackend::Native,
        TargetBackend::Wasm,
        TargetBackend::WasmGC,
    ];
    assert(order@ =~= backends_by_name());
    let mut body = String::new();
    let ghost mut names: Seq<Seq<char>> = Seq::empty();
    let mut empty = true;
    let mut i: usize = 0;
    while i < 5
        invariant
            i <= 5,
            order@ == backends_by_name(),
            names == names_in(backends_by_name().take(i as int), set@),
            body@ == join_comma(names),
            empty == (names.len() == 0),
        decreases 5 - i,
    {
        proof {
            assert(backends_by_name().take(i + 1).drop_last() =~= backends_by_name().take(i as int));
            assert(backends_by_name().take(i + 1).last() == order@[i as int]);
        }
        let b = order[i];
        if holds_backend(set, b) {
            if !empty {
                append_str(&mut body, ", ");
            }
            append_str(&mut body, b.to_flag());
            empty = false;
            proof {
                let old_names = names;
                names = names.push(backend_flag(b));
                assert(names.drop_last() =~= old_names);
                if old_names.len() == 0 {
                    assert(body@ =~= join_comma(names));
                }
            }
        }
        i = i + 1;
    }
    assert(backends_by_name().take(5) =~= backends_by_name());
    let mut r = owned("[");
    append_str(&mut r, body.as_str());
    append_str(&mut r, "]");
    r
}

/// Whether `set` lets the selected backend build the dependency.
pub open spec fn backend_realizable(selected: TargetBackend, set: Seq<TargetBackend>) -> bool {
    set.contains(selected)
}

/// Checks the import edge `importer -> dependency` (full package names)
/// against the selected backend: the dependency can be built when its
/// realizable backends `dependency_realizable` include the selected one;
/// otherwise the error names the backend, both packages, the sorted list of
/// backends that can build the dependency, and the edge.
pub fn check_backend_compatibility_for_dep(
    selected_backend: TargetBackend,
    importer: &str,
    dependency: &str,
    dependency_realizable: &Vec<TargetBackend>,
) -> (r: Result<(), BuildPlanConstructError>)
    ensures
        r is Ok <==> backend_realizable(selected_backend, dependency_realizable@),
        r matches Err(e) ==> e matches BuildPlanConstructError::BackendIncompatibleDependency {
            backend,
            importer: i,
            dependency: d,
            supported_backends,
            path,
        } && backend == selected_backend && i@ == importer@ && d@ == dependency@ && supported_backends@
            == bracketed(supported_backend_names(dependency_realizable@)) && path@ == importer@ + " -> "@
            + dependency@,
{
    if holds_backend(dependency_realizable, selected_backend) {
        return Ok(());
    }
    let supported_backends = supported_backends_list(dependency_realizable);
    let mut path = owned(importer);
    append_str(&mut path, " -> ");
    append_str(&mut path, dependency);
    Err(
        BuildPlanConstructError::BackendIncompatibleDependency {
            backend: selected_backend,
            importer: owned(importer),
            dependency: owned(dependency),
            supported_backends,
            path,
        },
    )
}

/// The target whose imports a node brings in, when checking the backend of
/// an `.mi` dependency: the source of a virtual package, or the node's own
/// target.
pub open spec fn mi_importer(node: BuildPlanNode) -> Option<BuildTarget> {
    match node {
        BuildPlanNode::BuildVirtual(p) => Some(BuildTarget { package: p, kind: TargetKind::Source }),
        _ => node_target(node),
    }
}

/// The target whose imports a node brings in, for `.mi` dependencies.
pub fn mi_importer_target(node: BuildPlanNode) -> (r: Option<BuildTarget>)
    ensures
        r == mi_importer(node),
{
    match node {
        BuildPlanNode::BuildVirtual(p) => Some(BuildTarget { package: p, kind: TargetKind::Source }),
        BuildPlanNode::Check(t) | BuildPlanNode::EmitProof(t) | BuildPlanNode::Prove(t)
        | BuildPlanNode::BuildCore(t) | BuildPlanNode::LinkCore(t) | BuildPlanNode::MakeExecutable(t)
        | BuildPlanNode::GenerateDsym(t) | BuildPlanNode::GenerateTestInfo(t)
        | BuildPlanNode::GenerateMbti(t) => Some(t),
        _ => None,
    }
}

/// Whether the build warns that the importer leaves `supported_targets`
/// undeclared while its dependency declares it: only for packages that are
/// not single files, for edges between distinct packages, and once per
/// importer (`already_warned`).
pub fn warns_missing_supported_targets(
    importer_is_single_file: bool,
    importer_declares: bool,
    same_package: bool,
    dependency_declares: bool,
    already_warned: bool,
) -> (r: bool)
    ensures
        r == (!importer_is_single_file && !importer_declares && !same_package && dependency_declares
            && !already_warned),
{
    !importer_is_single_file && !importer_declares && !same_package && dependency_declares && !already_warned
}

/// The warning for an importer that leaves `supported_targets` undeclared.
pub fn missing_supported_targets_warning(importer: &str, dependency: &str) -> (r: String)
    ensures
        r@ == "Package `"@ + importer@ + "` does not declare `supported_targets`, but depends on `"@
            + dependency@ + "` which declares it. Consider declaring `supported_targets` explicitly"@,
{
    let mut r = owned("Package `");
    append_str(&mut r, importer);
    append_str(&mut r, "` does not declare `supported_targets`, but depends on `");
    append_str(&mut r, dependency);
    append_str(&mut r, "` which declares it. Consider declaring `supported_targets` explicitly");
    r
}

} // verus!
