//! The files of one package folder, sorted into the package's lists, and the
//! C stub paths a package declares, checked and placed in its folder.

use vstd::prelude::*;

use crate::build_plan::prebuild::{normalize_relative, relative_normalized};
use crate::path_set::{path_sort_stable, sort_paths_stable};
use crate::text::{append_str, owned, starts_with, str_eq, str_starts_with};

verus! {

/// The kinds of source file a package folder holds, as their names tell.
#[derive(Clone, Copy, Debug, PartialEq, Eq, Structural)]
pub enum PackageSourceFileKind {
    Mbt,
    MbtMd,
    Mbtp,
    Mbl,
    Mby,
}

/// One entry directly inside a package folder.
#[derive(Clone, Debug)]
pub struct PackageDirEntry {
    pub path: String,
    /// Whether the entry is a file or a symbolic link (directories are not
    /// part of the package).
    pub is_file: bool,
    /// The kind of source file its name denotes, if any.
    pub kind: Option<PackageSourceFileKind>,
}

/// The source files of a package, one list per kind, each sorted by path.
#[derive(Clone, Debug)]
pub struct PackageSourceFiles {
    pub source_files: Vec<String>,
    pub mbt_lex_files: Vec<String>,
    pub mbt_yacc_files: Vec<String>,
    pub mbt_md_files: Vec<String>,
    pub mbtp_files: Vec<String>,
}

/// The paths of the files of `entries` of kind `kind`, in their order.
pub open spec fn files_of_kind(entries: Seq<PackageDirEntry>, kind: PackageSourceFileKind) -> Seq<String>
    decreases entries.len(),
{
    if entries.len() == 0 {
        Seq::empty()
    } else {
        let rest = files_of_kind(entries.drop_last(), kind);
        let e = entries.last();
        if e.is_file && e.kind == Some(kind) {
            rest.push(e.path)
        } else {
            rest
        }
    }
}

/// The sorted list of the files of `entries` of kind `kind`.
pub open spec fn sorted_files_of_kind(entries: Seq<PackageDirEntry>, kind: PackageSourceFileKind) -> Seq<String> {
    path_sort_stable(files_of_kind(entries, kind))
}

/// Sorts the entries of a package folder into its source lists: each list
/// holds the files (and symbolic links) of one kind, sorted by path;
/// directories and files of no kind are left out.
pub fn collect_package_source_files(entries: &Vec<PackageDirEntry>) -> (r: PackageSourceFiles)
    ensures
        r.source_files@ == sorted_files_of_kind(entries@, PackageSourceFileKind::Mbt),
        r.mbt_md_files@ == sorted_files_of_kind(entries@, PackageSourceFileKind::MbtMd),
        r.mbtp_files@ == sorted_files_of_kind(entries@, PackageSourceFileKind::Mbtp),
        r.mbt_lex_files@ == sorted_files_of_kind(entries@, PackageSourceFileKind::Mbl),
        r.mbt_yacc_files@ == sorted_files_of_kind(entries@, PackageSourceFileKind::Mby),
{
    let mut mbt: Vec<String> = Vec::new();
    let mut md: Vec<String> = Vec::new();
    let mut mbtp: Vec<String> = Vec::new();
    let mut mbl: Vec<String> = Vec::new();
    let mut mby: Vec<String> = Vec::new();
    let mut i: usize = 0;
    while i < entries.len()
        invariant
            i <= entries.len(),
            mbt@ == files_of_kind(entries@.take(i as int), PackageSourceFileKind::Mbt),
            md@ == files_of_kind(entries@.take(i as int), PackageSourceFileKind::MbtMd),
            mbtp@ == files_of_kind(entries@.take(i as int), PackageSourceFileKind::Mbtp),
            mbl@ == files_of_kind(entries@.take(i as int), PackageSourceFileKind::Mbl),
            mby@ == files_of_kind(entries@.take(i as int), PackageSourceFileKind::Mby),
        decreases entries.len() - i,
    {
        proof {
            assert(entries@.take(i + 1).drop_last() =~= entries@.take(i as int));
            assert(entries@.take(i + 1).last() == entries@[i as int]);
        }
        let e = &entries[i];
        if e.is_file {
            match e.kind {
                Some(PackageSourceFileKind::Mbt) => mbt.push(e.path.clone()),
                Some(PackageSourceFileKind::MbtMd) => md.push(e.path.clone()),
                Some(PackageSourceFileKind::Mbtp) => mbtp.push(e.path.clone()),
                Some(PackageSourceFileKind::Mbl) => mbl.push(e.path.clone()),
                Some(PackageSourceFileKind::Mby) => mby.push(e.path.clone()),
                None => {},
            }
        }
        i = i + 1;
    }
    proof {
        assert(entries@.take(entries@.len() as int) =~= entries@);
    }
    PackageSourceFiles {
        source_files: sort_paths_stable(mbt),
        mbt_lex_files: sort_paths_stable(mbl),
        mbt_yacc_files: sort_paths_stable(mby),
        mbt_md_files: sort_paths_stable(md),
        mbtp_files: sort_paths_stable(mbtp),
    }
}

/// A normalized relative path that leaves its folder: its first component
/// is `..`.
pub open spec fn escapes_parent(n: Seq<char>) -> bool {
    n == ".."@ || starts_with(n, "../"@)
}

/// Where the normalized relative path `n` lies under `root`, as
/// `RelativePath::to_path` places it: `root` itself when `n` is empty,
/// otherwise `n` after `root` and a separator (none after an empty `root`).
pub open spec fn placed_under(root: Seq<char>, n: Seq<char>) -> Seq<char> {
    if n.len() == 0 {
        root
    } else if root.len() == 0 {
        n
    } else {
        root + "/"@ + n
    }
}

/// The normalized relative path `n` placed under `root`.
pub fn place_under(root: &str, n: &str) -> (r: String)
    ensures
        r@ == placed_under(root@, n@),
{
    if n.unicode_len() == 0 {
        owned(root)
    } else if root.unicode_len() == 0 {
        owned(n)
    } else {
        let mut r = owned(root);
        append_str(&mut r, "/");
        append_str(&mut r, n);
        r
    }
}

/// The C stub files `stubs`, declared relative to the package folder `root`,
/// placed in that folder once normalized. A stub whose normalized path leaves
/// the folder is refused: the first such stub, as declared, is the error.
pub fn resolve_c_stub_paths(root: &str, stubs: &Vec<String>) -> (r: Result<Vec<String>, String>)
    ensures
        match r {
            Ok(v) => {
                &&& v@.len() == stubs@.len()
                &&& forall|i: int|
                    0 <= i < stubs@.len() ==> !escapes_parent(relative_normalized(#[trigger] stubs@[i]@))
                &&& forall|i: int|
                    0 <= i < stubs@.len() ==> #[trigger] v@[i]@ == placed_under(
                        root@,
                        relative_normalized(stubs@[i]@),
                    )
            },
            Err(s) => exists|i: int|
                0 <= i < stubs@.len() && s@ == stubs@[i]@ && escapes_parent(
                    relative_normalized(#[trigger] stubs@[i]@),
                ) && forall|j: int| 0 <= j < i ==> !escapes_parent(relative_normalized(#[trigger] stubs@[j]@)),
        },
{
    let mut out: Vec<String> = Vec::new();
    let mut i: usize = 0;
    while i < stubs.len()
        invariant
            i <= stubs.len(),
            out@.len() == i,
            forall|k: int| 0 <= k < i ==> !escapes_parent(relative_normalized(#[trigger] stubs@[k]@)),
            forall|k: int|
                0 <= k < i ==> #[trigger] out@[k]@ == placed_under(root@, relative_normalized(stubs@[k]@)),
        decreases stubs.len() - i,
    {
        let n = normalize_relative(stubs[i].as_str());
        if str_eq(n.as_str(), "..") || str_starts_with(n.as_str(), "../") {
            return Err(stubs[i].clone());
        }
        out.push(place_under(root, n.as_str()));
        i = i + 1;
    }
    Ok(out)
}

} // verus!
