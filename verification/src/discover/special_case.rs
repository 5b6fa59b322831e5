//! Standard-library packages that discovery treats specially.

use vstd::prelude::*;

use super::model::{
    lemma_modules_valid, package_name, DiscoverError, DiscoverResult,
    DiscoveredPackage,
};
use crate::execution_plan::copy_strings;
use crate::model::{ModuleId, PackageId};
use crate::path_set::{path_sort_stable, sort_paths_stable};
use crate::text::owned;

verus! {

/// `b` is `a` with only its source files possibly changed.
pub open spec fn same_but_sources(a: DiscoveredPackage, b: DiscoveredPackage) -> bool {
    &&& b.root_path == a.root_path
    &&& b.module == a.module
    &&& b.module_name == a.module_name
    &&& b.package_path == a.package_path
    &&& b.is_single_file == a.is_single_file
    &&& b.raw == a.raw
    &&& b.mbt_lex_files == a.mbt_lex_files
    &&& b.mbt_yacc_files == a.mbt_yacc_files
    &&& b.mbt_md_files == a.mbt_md_files
    &&& b.c_stub_files == a.c_stub_files
    &&& b.mbtp_files == a.mbtp_files
    &&& b.c_stub_header_files == a.c_stub_header_files
    &&& b.virtual_mbti_files == a.virtual_mbti_files
    &&& b.is_stdlib == a.is_stdlib
}

/// When the standard-library module `stdlib` has both a `builtin` and a
/// `coverage` package, builtin's sources become its own and coverage's,
/// sorted by path; otherwise nothing changes.
pub fn inject_core_coverage_into_builtin(stdlib: Option<ModuleId>, res: &mut DiscoverResult) -> (r:
    Result<(), DiscoverError>)
    requires
        old(res).wf(),
    ensures
        r is Ok,
        final(res).wf(),
        match stdlib {
            Some(s) if old(res)@.modules.contains_key((s, "builtin"@)) && old(res)@.modules.contains_key(
                (s, "coverage"@),
            ) => {
                let b = old(res)@.modules[(s, "builtin"@)].0 as int;
                let c = old(res)@.modules[(s, "coverage"@)].0 as int;
                &&& final(res)@.modules == old(res)@.modules
                &&& final(res)@.names == old(res)@.names
                &&& final(res)@.abort == old(res)@.abort
                &&& final(res)@.packages.len() == old(res)@.packages.len()
                &&& forall|i: int| 0 <= i < old(res)@.packages.len() && i != b ==> final(res)@.packages[i] == old(res)@.packages[i]
                &&& same_but_sources(old(res)@.packages[b], final(res)@.packages[b])
                &&& final(res)@.packages[b].source_files@ == path_sort_stable(
                    old(res)@.packages[b].source_files@ + old(res)@.packages[c].source_files@,
                )
            },
            _ => *final(res) == *old(res),
        },
{
    proof {
        reveal_strlit("builtin");
        reveal_strlit("coverage");
    }
    let stdlib = match stdlib {
        Some(s) => s,
        None => return Ok(()),
    };
    let builtin_id = match res.get_package_id(stdlib, "builtin") {
        Some(id) => id,
        None => return Ok(()),
    };
    let coverage_id = match res.get_package_id(stdlib, "coverage") {
        Some(id) => id,
        None => return Ok(()),
    };
    proof {
        lemma_modules_valid(*res, (stdlib, "builtin"@));
        lemma_modules_valid(*res, (stdlib, "coverage"@));
    }
    let coverage_files = copy_strings(&res.get_package(coverage_id).source_files);
    let builtin = res.get_package_mut(builtin_id);
    let mut files = copy_strings(&builtin.source_files);
    let mut i: usize = 0;
    while i < coverage_files.len()
        invariant
            i <= coverage_files.len(),
            files@ == builtin.source_files@ + coverage_files@.take(i as int),
        decreases coverage_files.len() - i,
    {
        files.push(coverage_files[i].clone());
        assert(coverage_files@.take(i + 1) =~= coverage_files@.take(i as int).push(coverage_files@[i as int]));
        i = i + 1;
    }
    assert(coverage_files@.take(coverage_files.len() as int) =~= coverage_files@);
    builtin.source_files = sort_paths_stable(files);
    Ok(())
}

/// Adds the standard library's `abort` package, found in module `stdlib`, at
/// path `abort` with its imports cleared (the bundled core provides them),
/// and marks it as the abort package. Nothing changes without a standard
/// library.
pub fn inject_std_abort(stdlib: Option<(ModuleId, DiscoveredPackage)>, res: &mut DiscoverResult) -> (r:
    Result<(), DiscoverError>)
    requires
        old(res).wf(),
    ensures
        final(res).wf(),
        match stdlib {
            None => r is Ok && *final(res) == *old(res),
            Some((m, pkg)) => {
                let id = PackageId(old(res)@.packages.len() as u64);
                &&& final(res)@.packages.len() == old(res)@.packages.len() + 1
                &&& final(res)@.packages.take(old(res)@.packages.len() as int) == old(res)@.packages
                &&& final(res)@.modules == old(res)@.modules.insert((m, "abort"@), id)
                &&& final(res)@.names == old(res)@.names.insert(package_name(pkg), id)
                &&& final(res)@.packages[old(res)@.packages.len() as int].raw.imports@.len() == 0
                &&& final(res)@.packages[old(res)@.packages.len() as int].raw.test_imports@.len() == 0
                &&& final(res)@.packages[old(res)@.packages.len() as int].raw.wbtest_imports@.len() == 0
                &&& final(res)@.packages[old(res)@.packages.len() as int].module_name == pkg.module_name
                &&& final(res)@.packages[old(res)@.packages.len() as int].package_path == pkg.package_path
                &&& final(res)@.packages[old(res)@.packages.len() as int].source_files == pkg.source_files
                &&& match r {
                    Ok(()) => !old(res)@.names.contains_key(package_name(pkg)) && final(res)@.abort
                        == Some(id),
                    Err(_) => old(res)@.names.contains_key(package_name(pkg)) && final(res)@.abort
                        == old(res)@.abort,
                }
            },
        },
{
    proof {
        reveal_strlit("abort");
    }
    let (stdlib, mut pkg) = match stdlib {
        Some(p) => p,
        None => return Ok(()),
    };
    pkg.raw.imports = Vec::new();
    pkg.raw.test_imports = Vec::new();
    pkg.raw.wbtest_imports = Vec::new();
    let id = match res.add_package(stdlib, owned("abort"), pkg) {
        Ok(id) => id,
        Err(e) => return Err(e),
    };
    res.set_abort_pkg(id);
    Ok(())
}

} // verus!
