//! The `all_pkgs.json` metadata: every package of a build with the `.mi` file
//! that it produces, which the compiler reads to resolve indirect
//! dependencies.

use vstd::prelude::*;

use crate::build_lower::artifact::kind_suffix;
use crate::build_lower::layout::{alias_of, package_file, LegacyLayout, MI_EXTENSION};
use crate::discover::model::{valid_id, DiscoverResult};
use crate::model::{BuildTarget, PackageId, TargetBackend, TargetKind};
use crate::text::owned;
use crate::order::{
    lemma_char_lt_strict_total, lemma_lex_irreflexive, lemma_lex_transitive, str_lt, string_lt,
};
use crate::text::str_eq;

verus! {

broadcast use vstd::seq_lib::group_to_multiset_ensures;

/// The file name of the metadata.
pub const ALL_PKGS_JSON: &'static str = "all_pkgs.json";

/// One package of the metadata: its module, its path in the module, and its
/// `.mi` file.
#[derive(Debug, Clone, PartialEq, Eq)]
pub struct PackageArtifactJSON {
    pub root: String,
    pub rel: String,
    pub artifact: String,
}

/// The metadata: the packages of a build, sorted by module and path.
#[derive(Debug, Clone, PartialEq, Eq)]
pub struct AllPkgsJSON {
    pub packages: Vec<PackageArtifactJSON>,
}

/// The order of entries: by module, then by path in the module.
pub open spec fn entry_lt(a: PackageArtifactJSON, b: PackageArtifactJSON) -> bool {
    str_lt(a.root@, b.root@) || (a.root@ == b.root@ && str_lt(a.rel@, b.rel@))
}

/// Where a stable insertion puts `x` into `s`: before the first entry greater
/// than it.
pub open spec fn insert_pos(s: Seq<PackageArtifactJSON>, x: PackageArtifactJSON) -> int
    decreases s.len(),
{
    if s.len() == 0 || entry_lt(x, s[0]) {
        0
    } else {
        1 + insert_pos(s.drop_first(), x)
    }
}

/// `s` sorted by [`entry_lt`], entries with equal keys in their given order.
pub open spec fn sort_stable(s: Seq<PackageArtifactJSON>) -> Seq<PackageArtifactJSON>
    decreases s.len(),
{
    if s.len() == 0 {
        s
    } else {
        let r = sort_stable(s.drop_last());
        r.insert(insert_pos(r, s.last()), s.last())
    }
}

/// The entries of packages other than `abort`, in order.
pub open spec fn without_abort(
    entries: Seq<(PackageId, PackageArtifactJSON)>,
    abort: Option<PackageId>,
) -> Seq<PackageArtifactJSON>
    decreases entries.len(),
{
    if entries.len() == 0 {
        Seq::empty()
    } else {
        let rest = without_abort(entries.drop_last(), abort);
        if abort == Some(entries.last().0) {
            rest
        } else {
            rest.push(entries.last().1)
        }
    }
}

/// Whether no entry of `s` is ordered before an earlier one.
pub open spec fn sorted_entries(s: Seq<PackageArtifactJSON>) -> bool {
    forall|i: int, j: int| 0 <= i < j < s.len() ==> !entry_lt(#[trigger] s[j], #[trigger] s[i])
}

proof fn lemma_entry_lt_order()
    ensures
        forall|a: PackageArtifactJSON| !entry_lt(a, a),
        forall|a: PackageArtifactJSON, b: PackageArtifactJSON, c: PackageArtifactJSON|
            #[trigger] entry_lt(a, b) && #[trigger] entry_lt(b, c) ==> entry_lt(a, c),
{
    lemma_char_lt_strict_total();
    assert forall|a: PackageArtifactJSON| !entry_lt(a, a) by {
        lemma_lex_irreflexive(a.root@, |x: char, y: char| crate::order::char_lt(x, y));
        lemma_lex_irreflexive(a.rel@, |x: char, y: char| crate::order::char_lt(x, y));
    }
    assert forall|a: PackageArtifactJSON, b: PackageArtifactJSON, c: PackageArtifactJSON|
        #[trigger] entry_lt(a, b) && #[trigger] entry_lt(b, c) implies entry_lt(a, c) by {
        let elt = |x: char, y: char| crate::order::char_lt(x, y);
        if str_lt(a.root@, b.root@) && str_lt(b.root@, c.root@) {
            lemma_lex_transitive(a.root@, b.root@, c.root@, elt);
        } else if str_lt(a.root@, b.root@) {
        } else if str_lt(b.root@, c.root@) {
        } else {
            lemma_lex_transitive(a.rel@, b.rel@, c.rel@, elt);
        }
    }
}

proof fn lemma_insert_pos(s: Seq<PackageArtifactJSON>, x: PackageArtifactJSON, i: int)
    requires
        0 <= i <= s.len(),
        forall|j: int| 0 <= j < i ==> !entry_lt(x, #[trigger] s[j]),
        i == s.len() || entry_lt(x, s[i]),
    ensures
        insert_pos(s, x) == i,
    decreases s.len(),
{
    if i > 0 {
        let t = s.drop_first();
        assert forall|j: int| 0 <= j < i - 1 implies !entry_lt(x, #[trigger] t[j]) by {
            assert(t[j] == s[j + 1]);
        }
        if i - 1 < t.len() {
            assert(t[i - 1] == s[i]);
        }
        assert(!entry_lt(x, s[0]));
        lemma_insert_pos(t, x, i - 1);
    }
}

proof fn lemma_insert_pos_bounds(s: Seq<PackageArtifactJSON>, x: PackageArtifactJSON)
    ensures
        0 <= insert_pos(s, x) <= s.len(),
        forall|j: int| 0 <= j < insert_pos(s, x) ==> !entry_lt(x, #[trigger] s[j]),
        insert_pos(s, x) < s.len() ==> entry_lt(x, s[insert_pos(s, x)]),
    decreases s.len(),
{
    if s.len() > 0 && !entry_lt(x, s[0]) {
        let t = s.drop_first();
        lemma_insert_pos_bounds(t, x);
        assert forall|j: int| 0 <= j < insert_pos(s, x) implies !entry_lt(x, #[trigger] s[j]) by {
            if j > 0 {
                assert(s[j] == t[j - 1]);
            }
        }
        if insert_pos(s, x) < s.len() {
            assert(s[insert_pos(s, x)] == t[insert_pos(t, x)]);
        }
    }
}

/// A stable sort yields its input sorted, as a permutation.
pub proof fn law_sort_stable_sorted_permutation(s: Seq<PackageArtifactJSON>)
    ensures
        sorted_entries(sort_stable(s)),
        sort_stable(s).to_multiset() == s.to_multiset(),
    decreases s.len(),
{
    if s.len() > 0 {
        let init = s.drop_last();
        let x = s.last();
        law_sort_stable_sorted_permutation(init);
        let r = sort_stable(init);
        lemma_insert_pos_bounds(r, x);
        lemma_entry_lt_order();
        let p = insert_pos(r, x);
        let w = r.insert(p, x);
        assert forall|i: int, j: int| 0 <= i < j < w.len() implies !entry_lt(
            #[trigger] w[j],
            #[trigger] w[i],
        ) by {
            if j < p {
                assert(w[i] == r[i] && w[j] == r[j]);
            } else if j == p {
                assert(w[i] == r[i]);
            } else if i == p {
                assert(w[j] == r[j - 1]);
                if entry_lt(r[j - 1], x) {
                    assert(entry_lt(x, r[p]));
                    if j - 1 > p {
                        assert(!entry_lt(r[j - 1], r[p]));
                    }
                }
            } else if i < p {
                assert(w[i] == r[i] && w[j] == r[j - 1]);
            } else {
                assert(w[i] == r[i - 1] && w[j] == r[j - 1]);
            }
        }
        assert(s =~= init.push(x));
    }
}

impl PackageArtifactJSON {
    /// A copy of this entry.
    pub fn duplicate(&self) -> (r: PackageArtifactJSON)
        ensures
            r == *self,
    {
        PackageArtifactJSON {
            root: self.root.clone(),
            rel: self.rel.clone(),
            artifact: self.artifact.clone(),
        }
    }
}

/// Whether entry `a` orders before entry `b`.
fn entry_less(a: &PackageArtifactJSON, b: &PackageArtifactJSON) -> (r: bool)
    ensures
        r == entry_lt(*a, *b),
{
    string_lt(a.root.as_str(), b.root.as_str()) || (str_eq(a.root.as_str(), b.root.as_str())
        && string_lt(a.rel.as_str(), b.rel.as_str()))
}

/// The metadata of a build: every package but the core `abort` package (left
/// out as the earlier metadata did), sorted by module and path, packages with
/// equal keys in their given order.
///
/// `entries` holds each package with its module name, its path in the module
/// and its `.mi` file.
pub fn all_pkgs_json_of_entries(entries: Vec<(PackageId, PackageArtifactJSON)>, abort_pkg: Option<PackageId>) -> (r:
    AllPkgsJSON)
    ensures
        r.packages@ == sort_stable(without_abort(entries@, abort_pkg)),
{
    let mut packages: Vec<PackageArtifactJSON> = Vec::new();
    let mut i: usize = 0;
    while i < entries.len()
        invariant
            i <= entries.len(),
            packages@ == sort_stable(without_abort(entries@.take(i as int), abort_pkg)),
        decreases entries.len() - i,
    {
        proof {
            assert(entries@.take(i + 1).drop_last() =~= entries@.take(i as int));
            assert(entries@.take(i + 1).last() == entries@[i as int]);
        }
        let skip = match abort_pkg {
            Some(a) => a == entries[i].0,
            None => false,
        };
        if !skip {
            let x = entries[i].1.duplicate();
            let mut p: usize = 0;
            while p < packages.len() && !entry_less(&x, &packages[p])
                invariant
                    p <= packages.len(),
                    forall|j: int| 0 <= j < p ==> !entry_lt(x, #[trigger] packages@[j]),
                decreases packages.len() - p,
            {
                p = p + 1;
            }
            proof {
                lemma_insert_pos(packages@, x, p as int);
                let pre = without_abort(entries@.take(i as int), abort_pkg);
                assert(without_abort(entries@.take(i + 1), abort_pkg) == pre.push(x));
                assert(pre.push(x).drop_last() =~= pre);
            }
            packages.insert(p, x);
        }
        i = i + 1;
    }
    proof {
        assert(entries@.take(entries@.len() as int) =~= entries@);
    }
    AllPkgsJSON { packages }
}

/// Whether `e` is the metadata entry of package `i` of `pkgs`: its module's
/// name, its path in the module, and the `.mi` of its source target.
pub open spec fn entry_of(
    layout: LegacyLayout,
    pkgs: DiscoverResult,
    backend: TargetBackend,
    i: int,
    e: PackageArtifactJSON,
) -> bool {
    let p = pkgs@.packages[i];
    &&& e.root@ == p.module_name@
    &&& e.rel@ == p.package_path@
    &&& e.artifact@ == package_file(layout, p, backend, alias_of(p) + kind_suffix(TargetKind::Source) + MI_EXTENSION@)
}

/// Generates `all_pkgs.json` for the packages of `pkg_dirs` whose `.mi` files
/// `layout` places for `backend`: every package but the core `abort`
/// package, sorted by module and path.
pub fn gen_all_pkgs_json(pkg_dirs: &DiscoverResult, layout: &LegacyLayout, backend: TargetBackend) -> (r:
    AllPkgsJSON)
    ensures
        exists|es: Seq<(PackageId, PackageArtifactJSON)>|
            {
                &&& es.len() == pkg_dirs@.packages.len()
                &&& forall|i: int| 0 <= i < es.len() ==> (#[trigger] es[i]).0 == PackageId(i as u64)
                &&& forall|i: int|
                    0 <= i < es.len() && pkg_dirs@.abort != Some(PackageId(i as u64)) ==> entry_of(
                        *layout,
                        *pkg_dirs,
                        backend,
                        i,
                        #[trigger] es[i].1,
                    )
                &&& r.packages@ == sort_stable(without_abort(es, pkg_dirs@.abort))
            },
{
    let n = pkg_dirs.package_count();
    let abort = pkg_dirs.abort_pkg();
    let mut entries: Vec<(PackageId, PackageArtifactJSON)> = Vec::new();
    let mut i: usize = 0;
    while i < n
        invariant
            n == pkg_dirs@.packages.len(),
            abort == pkg_dirs@.abort,
            i <= n,
            entries@.len() == i,
            forall|k: int| 0 <= k < i ==> (#[trigger] entries@[k]).0 == PackageId(k as u64),
            forall|k: int|
                0 <= k < i && abort != Some(PackageId(k as u64)) ==> entry_of(
                    *layout,
                    *pkg_dirs,
                    backend,
                    k,
                    #[trigger] entries@[k].1,
                ),
        decreases n - i,
    {
        let id = PackageId(i as u64);
        let is_abort = match abort {
            Some(a) => a == id,
            None => false,
        };
        if is_abort {
            entries.push((id, PackageArtifactJSON { root: String::new(), rel: String::new(), artifact: String::new() }));
        } else {
            assert(valid_id(pkg_dirs@, id));
            let pkg = pkg_dirs.get_package(id);
            let artifact = layout.mi_of_build_target(pkg_dirs, &BuildTarget { package: id, kind: TargetKind::Source }, backend);
            entries.push((
                id,
                PackageArtifactJSON {
                    root: owned(pkg.module_name.as_str()),
                    rel: owned(pkg.package_path.as_str()),
                    artifact,
                },
            ));
        }
        i = i + 1;
    }
    let r = all_pkgs_json_of_entries(entries, abort);
    assert(r.packages@ == sort_stable(without_abort(entries@, pkg_dirs@.abort)));
    r
}

} // verus!
