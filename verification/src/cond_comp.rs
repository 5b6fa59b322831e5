//! Conditional compilation: which source files a package compiles for a
//! backend, and which kind of test each file holds.

use vstd::prelude::*;

use crate::model::{backend_of_name, OptLevel, TargetBackend};
use crate::path::{file_name, path_file_name};
use crate::text::{ends_with, str_ends_with, str_eq, substring};

verus! {

/// The kind of test a file holds.
#[derive(Debug, Clone, Copy, PartialEq, Eq, Structural)]
pub enum FileTestKind {
    NoTest,
    Whitebox,
    Blackbox,
}

/// The test kind of a name already stripped of `.mbt` and of any backend
/// suffix: `_wbtest` names whitebox tests, `_test` blackbox tests.
pub open spec fn file_test_kind(s: Seq<char>) -> FileTestKind {
    if ends_with(s, "_wbtest"@) {
        FileTestKind::Whitebox
    } else if ends_with(s, "_test"@) {
        FileTestKind::Blackbox
    } else {
        FileTestKind::NoTest
    }
}

/// The test kind of a file, by its name already stripped of `.mbt` and of any
/// backend suffix.
pub fn get_file_test_kind(stripped_name: &str) -> (r: FileTestKind)
    ensures
        r == file_test_kind(stripped_name@),
{
    if str_ends_with(stripped_name, "_wbtest") {
        FileTestKind::Whitebox
    } else if str_ends_with(stripped_name, "_test") {
        FileTestKind::Blackbox
    } else {
        FileTestKind::NoTest
    }
}

/// The index of the last `c` in `s`, if any.
pub open spec fn last_index_of(s: Seq<char>, c: char) -> Option<int>
    decreases s.len(),
{
    if s.len() == 0 {
        None
    } else if s.last() == c {
        Some(s.len() - 1)
    } else {
        last_index_of(s.drop_last(), c)
    }
}

proof fn lemma_last_index_of(s: Seq<char>, c: char)
    ensures
        match last_index_of(s, c) {
            Some(i) => 0 <= i < s.len() && s[i] == c && forall|j: int| i < j < s.len() ==> s[j] != c,
            None => forall|j: int| 0 <= j < s.len() ==> s[j] != c,
        },
    decreases s.len(),
{
    if s.len() > 0 && s.last() != c {
        lemma_last_index_of(s.drop_last(), c);
        assert forall|j: int| 0 <= j < s.len() - 1 implies s[j] == s.drop_last()[j] by {}
    }
}

/// The backend named after the last `.` of a name already stripped of `.mbt`,
/// and the name without it; the name as it is when its last suffix names no
/// backend.
pub open spec fn file_target_backend(s: Seq<char>) -> (Option<TargetBackend>, Seq<char>) {
    match last_index_of(s, '.') {
        Some(i) => match backend_of_name(s.subrange(i + 1, s.len() as int)) {
            Some(b) => (Some(b), s.subrange(0, i)),
            None => (None, s),
        },
        None => (None, s),
    }
}

/// The backend that a name, already stripped of `.mbt`, is restricted to by
/// its last suffix, and the name without that suffix.
pub fn get_file_target_backend(stripped_filename: &str) -> (r: (Option<TargetBackend>, String))
    ensures
        r.0 == file_target_backend(stripped_filename@).0,
        r.1@ == file_target_backend(stripped_filename@).1,
{
    let ghost s = stripped_filename@;
    let n = stripped_filename.unicode_len();
    let mut i: usize = n;
    while i > 0
        invariant
            i <= n,
            n == s.len(),
            s == stripped_filename@,
            forall|j: int| i <= j < n ==> s[j] != '.',
        decreases i,
    {
        if stripped_filename.get_char(i - 1) == '.' {
            proof {
                lemma_last_index_of(s, '.');
                match last_index_of(s, '.') {
                    Some(k) => {
                        if k < i - 1 {
                            assert(s[i - 1] == '.');
                        } else if k > i - 1 {
                            assert(s[k] == '.');
                        }
                    },
                    None => {
                        assert(s[i - 1] == '.');
                    },
                }
            }
            let suffix = substring(stripped_filename, i, n);
            return match TargetBackend::str_to_backend(suffix.as_str()) {
                Some(b) => (Some(b), substring(stripped_filename, 0, i - 1)),
                None => (None, crate::text::owned(stripped_filename)),
            };
        }
        i = i - 1;
    }
    proof {
        lemma_last_index_of(s, '.');
        if let Some(k) = last_index_of(s, '.') {
            assert(s[k] == '.');
        }
    }
    (None, crate::text::owned(stripped_filename))
}

/// Whether `name` ends with `.mbt` or `.mbt.md`.
pub open spec fn is_source_name(name: Seq<char>) -> bool {
    ends_with(name, ".mbt"@) || ends_with(name, ".mbt.md"@)
}

/// `name` without its `.mbt` or `.mbt.md` extension.
pub open spec fn source_stem(name: Seq<char>) -> Seq<char> {
    if ends_with(name, ".mbt"@) {
        name.subrange(0, name.len() - 4)
    } else {
        name.subrange(0, name.len() - 7)
    }
}

/// Whether, and as which test kind, a file named `name` is compiled for
/// `actual_backend` when only its name decides: a file whose name restricts it
/// to another backend is left out.
pub open spec fn filename_compile_kind(name: Seq<char>, actual_backend: TargetBackend) -> Option<
    FileTestKind,
> {
    let (backend, remaining) = file_target_backend(source_stem(name));
    match backend {
        Some(b) => if b != actual_backend {
            None
        } else {
            Some(file_test_kind(remaining))
        },
        None => Some(file_test_kind(remaining)),
    }
}

fn strip_source_extension(name: &str) -> (r: String)
    requires
        is_source_name(name@),
    ensures
        r@ == source_stem(name@),
{
    proof {
        reveal_strlit(".mbt");
        reveal_strlit(".mbt.md");
    }
    let n = name.unicode_len();
    if str_ends_with(name, ".mbt") {
        substring(name, 0, n - 4)
    } else {
        substring(name, 0, n - 7)
    }
}

/// Whether, and as which test kind, a file named `name` is compiled for
/// `actual_backend`, by its name alone.
pub fn should_compile_using_filename_without_test_kind(
    name: &str,
    actual_backend: TargetBackend,
) -> (r: Option<FileTestKind>)
    requires
        is_source_name(name@),
    ensures
        r == filename_compile_kind(name@, actual_backend),
{
    let filename = strip_source_extension(name);
    let (backend, remaining) = get_file_target_backend(filename.as_str());
    if let Some(b) = backend {
        if b != actual_backend {
            return None;
        }
    }
    Some(get_file_test_kind(remaining.as_str()))
}

/// The test kind of a file whose package states a compile condition for it:
/// `None` when the condition, evaluated for the current build, does not hold.
pub open spec fn cond_compile_kind(name: Seq<char>, holds: bool) -> Option<FileTestKind> {
    if !holds {
        None
    } else {
        Some(file_test_kind(name.subrange(0, name.len() - 4)))
    }
}

/// Whether, and as which test kind, a file with a compile condition in its
/// package is compiled; `holds` is the condition evaluated for the current
/// optimization level and backend.
pub fn should_compile_using_pkg_cond_expr_without_test_kind(name: &str, holds: bool) -> (r: Option<
    FileTestKind,
>)
    requires
        holds ==> ends_with(name@, ".mbt"@),
    ensures
        r == cond_compile_kind(name@, holds),
{
    if !holds {
        None
    } else {
        proof {
            reveal_strlit(".mbt");
        }
        let n = name.unicode_len();
        let stem = substring(name, 0, n - 4);
        Some(get_file_test_kind(stem.as_str()))
    }
}

/// The test kind of a file, by its full name: `.mbt.md` files are blackbox
/// tests; otherwise `.mbt` and any backend suffix are stripped first.
pub open spec fn full_file_test_kind(name: Seq<char>) -> FileTestKind {
    if ends_with(name, ".mbt"@) {
        file_test_kind(file_target_backend(name.subrange(0, name.len() - 4)).1)
    } else if ends_with(name, ".mbt.md"@) {
        FileTestKind::Blackbox
    } else {
        file_test_kind(file_target_backend(name).1)
    }
}

/// The test kind of a file, by its full name.
pub fn get_file_test_kind_full(file_name: &str) -> (r: FileTestKind)
    ensures
        r == full_file_test_kind(file_name@),
{
    proof {
        reveal_strlit(".mbt");
    }
    let stripped = if str_ends_with(file_name, ".mbt") {
        let n = file_name.unicode_len();
        substring(file_name, 0, n - 4)
    } else if str_ends_with(file_name, ".mbt.md") {
        return FileTestKind::Blackbox;
    } else {
        crate::text::owned(file_name)
    };
    let (_backend, remaining) = get_file_target_backend(stripped.as_str());
    get_file_test_kind(remaining.as_str())
}

/// The compile condition that a package states for `name`, evaluated, if it
/// states one.
pub open spec fn stated_condition(conds: Seq<(String, bool)>, name: Seq<char>) -> Option<bool> {
    if exists|i: int| 0 <= i < conds.len() && #[trigger] conds[i].0@ == name {
        Some(conds[choose|i: int| 0 <= i < conds.len() && #[trigger] conds[i].0@ == name].1)
    } else {
        None
    }
}

/// Whether, and as which test kind, the file at `path` is compiled.
pub open spec fn classify_file(
    path: Seq<char>,
    conds: Seq<(String, bool)>,
    backend: TargetBackend,
) -> Option<FileTestKind> {
    let name = file_name(path).unwrap();
    match stated_condition(conds, name) {
        Some(holds) => cond_compile_kind(name, holds),
        None => filename_compile_kind(name, backend),
    }
}

/// The files a package compiles for `backend`, each with its test kind.
pub open spec fn classified(
    files: Seq<String>,
    conds: Seq<(String, bool)>,
    backend: TargetBackend,
) -> Seq<(Seq<char>, FileTestKind)>
    decreases files.len(),
{
    if files.len() == 0 {
        Seq::empty()
    } else {
        let rest = classified(files.drop_last(), conds, backend);
        match classify_file(files.last()@, conds, backend) {
            Some(k) => rest.push((files.last()@, k)),
            None => rest,
        }
    }
}

/// Whether every file can be classified: it has a file name, and that name
/// ends with `.mbt` when the package states a holding condition for it and
/// with `.mbt` or `.mbt.md` otherwise.
pub open spec fn classifiable(files: Seq<String>, conds: Seq<(String, bool)>) -> bool {
    forall|i: int|
        0 <= i < files.len() ==> {
            let p = #[trigger] files[i]@;
            &&& file_name(p) is Some
            &&& match stated_condition(conds, file_name(p).unwrap()) {
                Some(holds) => holds ==> ends_with(file_name(p).unwrap(), ".mbt"@),
                None => is_source_name(file_name(p).unwrap()),
            }
        }
}

/// No file name occurs twice among the stated conditions.
pub open spec fn distinct_names(conds: Seq<(String, bool)>) -> bool {
    forall|i: int, j: int| 0 <= i < j < conds.len() ==> #[trigger] conds[i].0@ != #[trigger] conds[j].0@
}

fn find_condition(conds: &Vec<(String, bool)>, name: &str) -> (r: Option<bool>)
    requires
        distinct_names(conds@),
    ensures
        r == stated_condition(conds@, name@),
{
    let mut i: usize = 0;
    while i < conds.len()
        invariant
            i <= conds.len(),
            distinct_names(conds@),
            forall|j: int| 0 <= j < i ==> #[trigger] conds@[j].0@ != name@,
        decreases conds.len() - i,
    {
        if str_eq(conds[i].0.as_str(), name) {
            proof {
                let c = choose|c: int| 0 <= c < conds@.len() && #[trigger] conds@[c].0@ == name@;
                if c != i {
                    if c < i {
                        assert(conds@[c].0@ != name@);
                    } else {
                        assert(conds@[i as int].0@ != conds@[c].0@);
                    }
                }
            }
            return Some(conds[i].1);
        }
        i = i + 1;
    }
    None
}

/// The files that are compiled for `backend`, each with its test kind, in
/// order.
///
/// `conditions` holds the file names for which the package states a compile
/// condition, each with that condition evaluated for the current optimization
/// level and backend. Other files are decided by their names.
pub fn classify_files(
    files: &Vec<String>,
    conditions: &Vec<(String, bool)>,
    backend: TargetBackend,
) -> (r: Vec<(String, FileTestKind)>)
    requires
        distinct_names(conditions@),
        classifiable(files@, conditions@),
    ensures
        r@.len() == classified(files@, conditions@, backend).len(),
        forall|i: int|
            0 <= i < r@.len() ==> (#[trigger] r@[i]).0@ == classified(files@, conditions@, backend)[i].0
                && r@[i].1 == classified(files@, conditions@, backend)[i].1,
{
    let mut r: Vec<(String, FileTestKind)> = Vec::new();
    let mut i: usize = 0;
    while i < files.len()
        invariant
            i <= files.len(),
            distinct_names(conditions@),
            classifiable(files@, conditions@),
            r@.len() == classified(files@.take(i as int), conditions@, backend).len(),
            forall|k: int|
                0 <= k < r@.len() ==> (#[trigger] r@[k]).0@ == classified(
                    files@.take(i as int),
                    conditions@,
                    backend,
                )[k].0 && r@[k].1 == classified(files@.take(i as int), conditions@, backend)[k].1,
        decreases files.len() - i,
    {
        let path = files[i].as_str();
        proof {
            assert(files@[i as int]@ == path@);
        }
        let name = match path_file_name(path) {
            Some(n) => n,
            None => {
                proof {
                    assert(false);
                }
                String::new()
            },
        };
        let kind = match find_condition(conditions, name.as_str()) {
            Some(holds) => should_compile_using_pkg_cond_expr_without_test_kind(name.as_str(), holds),
            None => should_compile_using_filename_without_test_kind(name.as_str(), backend),
        };
        proof {
            assert(files@.take(i + 1).drop_last() =~= files@.take(i as int));
            assert(files@.take(i + 1).last() == files@[i as int]);
        }
        match kind {
            Some(k) => {
                r.push((files[i].clone(), k));
            },
            None => {},
        }
        i = i + 1;
    }
    proof {
        assert(files@.take(files@.len() as int) =~= files@);
    }
    r
}

/// The backends and optimization levels under which a file compiles, as
/// metadata reports it.
#[derive(Clone, Debug)]
pub struct CompileCondition {
    pub backend: Vec<TargetBackend>,
    pub optlevel: Vec<OptLevel>,
}

/// The condition a package states for the file named `name`: the first one
/// stated for that name, if any.
pub open spec fn first_condition(conds: Seq<(String, CompileCondition)>, name: Seq<char>) -> Option<
    CompileCondition,
>
    decreases conds.len(),
{
    if conds.len() == 0 {
        None
    } else if conds[0].0@ == name {
        Some(conds[0].1)
    } else {
        first_condition(conds.drop_first(), name)
    }
}

/// The metadata of the file at `path`: its test kind and the condition under
/// which it compiles. A condition the package states for the file's name
/// stands as it is, and the test kind comes from the name without its
/// extension; otherwise the name decides: a backend suffix restricts the file
/// to that backend (every backend of `all_backends` without one) at every
/// optimization level of `all_optlevels`, and the test kind comes from the
/// name without extension and suffix.
pub open spec fn file_metadata_ok(
    path: Seq<char>,
    conds: Seq<(String, CompileCondition)>,
    all_backends: Seq<TargetBackend>,
    all_optlevels: Seq<OptLevel>,
    kind: FileTestKind,
    cond: CompileCondition,
) -> bool {
    let name = file_name(path).unwrap();
    let stem = source_stem(name);
    match first_condition(conds, name) {
        Some(c) => kind == file_test_kind(stem) && cond.backend@ == c.backend@ && cond.optlevel@ == c.optlevel@,
        None => {
            let (b, rest) = file_target_backend(stem);
            &&& kind == file_test_kind(rest)
            &&& cond.backend@ == match b {
                Some(x) => seq![x],
                None => all_backends,
            }
            &&& cond.optlevel@ == all_optlevels
        },
    }
}

fn copy_backends(v: &Vec<TargetBackend>) -> (r: Vec<TargetBackend>)
    ensures
        r@ == v@,
{
    let mut r: Vec<TargetBackend> = Vec::new();
    let mut i: usize = 0;
    while i < v.len()
        invariant
            i <= v.len(),
            r@ == v@.take(i as int),
        decreases v.len() - i,
    {
        r.push(v[i]);
        assert(v@.take(i + 1) =~= v@.take(i as int).push(v@[i as int]));
        i = i + 1;
    }
    assert(v@.take(v@.len() as int) =~= v@);
    r
}

fn copy_optlevels(v: &Vec<OptLevel>) -> (r: Vec<OptLevel>)
    ensures
        r@ == v@,
{
    let mut r: Vec<OptLevel> = Vec::new();
    let mut i: usize = 0;
    while i < v.len()
        invariant
            i <= v.len(),
            r@ == v@.take(i as int),
        decreases v.len() - i,
    {
        r.push(v[i]);
        assert(v@.take(i + 1) =~= v@.take(i as int).push(v@[i as int]));
        i = i + 1;
    }
    assert(v@.take(v@.len() as int) =~= v@);
    r
}

fn find_compile_condition<'a>(conds: &'a Vec<(String, CompileCondition)>, name: &str) -> (r: Option<&'a CompileCondition>)
    ensures
        match r {
            Some(c) => first_condition(conds@, name@) == Some(*c),
            None => first_condition(conds@, name@) is None,
        },
{
    let mut i: usize = 0;
    assert(conds@.subrange(0, conds@.len() as int) =~= conds@);
    while i < conds.len()
        invariant
            i <= conds.len(),
            first_condition(conds@, name@) == first_condition(conds@.subrange(i as int, conds@.len() as int), name@),
        decreases conds.len() - i,
    {
        proof {
            let rest = conds@.subrange(i as int, conds@.len() as int);
            assert(rest[0] == conds@[i as int]);
            assert(rest.drop_first() =~= conds@.subrange(i + 1, conds@.len() as int));
        }
        if str_eq(conds[i].0.as_str(), name) {
            return Some(&conds[i].1);
        }
        i = i + 1;
    }
    assert(conds@.subrange(conds@.len() as int, conds@.len() as int) =~= Seq::<(String, CompileCondition)>::empty());
    None
}

/// Each file with its test kind and the condition under which it compiles,
/// in order, without leaving any file out. `conditions` holds the
/// conditions the package states, by file name.
pub fn file_metadatas(
    files: &Vec<String>,
    conditions: &Vec<(String, CompileCondition)>,
    all_backends: &Vec<TargetBackend>,
    all_optlevels: &Vec<OptLevel>,
) -> (r: Vec<(String, FileTestKind, CompileCondition)>)
    requires
        forall|i: int|
            0 <= i < files@.len() ==> file_name(#[trigger] files@[i]@) is Some && is_source_name(
                file_name(files@[i]@).unwrap(),
            ),
    ensures
        r@.len() == files@.len(),
        forall|i: int|
            0 <= i < r@.len() ==> (#[trigger] r@[i]).0 == files@[i] && file_metadata_ok(
                files@[i]@,
                conditions@,
                all_backends@,
                all_optlevels@,
                r@[i].1,
                r@[i].2,
            ),
{
    let mut r: Vec<(String, FileTestKind, CompileCondition)> = Vec::new();
    let mut i: usize = 0;
    while i < files.len()
        invariant
            i <= files.len(),
            r@.len() == i,
            forall|j: int|
                0 <= j < files@.len() ==> file_name(#[trigger] files@[j]@) is Some && is_source_name(
                    file_name(files@[j]@).unwrap(),
                ),
            forall|j: int|
                0 <= j < i ==> (#[trigger] r@[j]).0 == files@[j] && file_metadata_ok(
                    files@[j]@,
                    conditions@,
                    all_backends@,
                    all_optlevels@,
                    r@[j].1,
                    r@[j].2,
                ),
        decreases files.len() - i,
    {
        let path = files[i].as_str();
        proof {
            assert(files@[i as int]@ == path@);
        }
        let name = match path_file_name(path) {
            Some(n) => n,
            None => {
                proof {
                    assert(false);
                }
                String::new()
            },
        };
        let stem = strip_source_extension(name.as_str());
        let entry = match find_compile_condition(conditions, name.as_str()) {
            Some(c) => {
                let kind = get_file_test_kind(stem.as_str());
                (files[i].clone(), kind, CompileCondition {
                    backend: copy_backends(&c.backend),
                    optlevel: copy_optlevels(&c.optlevel),
                })
            },
            None => {
                let (backend, rest) = get_file_target_backend(stem.as_str());
                let kind = get_file_test_kind(rest.as_str());
                let backends = match backend {
                    Some(b) => {
                        let mut v: Vec<TargetBackend> = Vec::new();
                        v.push(b);
                        v
                    },
                    None => copy_backends(all_backends),
                };
                (files[i].clone(), kind, CompileCondition { backend: backends, optlevel: copy_optlevels(all_optlevels) })
            },
        };
        r.push(entry);
        i = i + 1;
    }
    r
}

} // verus!
