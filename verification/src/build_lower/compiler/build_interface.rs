//! `moonc build-interface`: building a `.mi` interface from a `.mbti`
//! contract, the reverse of `mooninfo`. Used for virtual packages.

use vstd::prelude::*;

use super::args::{opt_pair, opt_view, push_arg, push_opt_pair, push_pair};
use super::build_common::{mi_dep_args, push_mi_deps};
use super::{
    compiled_name_suffix, name_and_dir, CmdlineAbstraction, CompiledPackageName, MiDependency,
};
use crate::text::append_str;

verus! {

/// The invocation of `moonc build-interface`.
#[derive(Debug)]
pub struct MooncBuildInterface {
    /// The source `.mbti` contract.
    pub mbti_input: String,
    /// The `.mi` output.
    pub mi_output: String,
    /// Interface dependencies, each rendered as `<path>:<alias>`.
    pub mi_deps: Vec<MiDependency>,
    /// The package name.
    pub package_name: CompiledPackageName,
    /// The package's source directory.
    pub package_source: String,
    /// The standard library's core file; `None` for no standard library.
    pub stdlib_core_file: Option<String>,
    /// Whether to report diagnostics as JSON.
    pub json_errors: bool,
}

impl MooncBuildInterface {
    /// An invocation without a standard library that reports JSON errors.
    pub fn new(
        mbti_input: String,
        mi_output: String,
        mi_deps: Vec<MiDependency>,
        package_name: CompiledPackageName,
        package_source: String,
    ) -> (r: MooncBuildInterface)
        ensures
            r == (MooncBuildInterface {
                mbti_input,
                mi_output,
                mi_deps,
                package_name,
                package_source,
                stdlib_core_file: None,
                json_errors: true,
            }),
    {
        MooncBuildInterface {
            mbti_input,
            mi_output,
            mi_deps,
            package_name,
            package_source,
            stdlib_core_file: None,
            json_errors: true,
        }
    }
}

impl CmdlineAbstraction for MooncBuildInterface {
    open spec fn args_view(&self) -> Seq<Seq<char>> {
        let name = self.package_name.fqn.name@ + compiled_name_suffix(self.package_name.kind);
        seq!["build-interface"@, self.mbti_input@, "-o"@, self.mi_output@] + mi_dep_args(
            self.mi_deps@,
        ) + seq![
            "-pkg"@,
            name,
            "-pkg-sources"@,
            name_and_dir(name, self.package_source@),
            "-virtual"@,
        ] + opt_pair("-std-path"@, opt_view(self.stdlib_core_file)) + (if self.json_errors {
            seq!["-error-format"@, "json"@]
        } else {
            Seq::empty()
        })
    }

    fn to_args(&self, args: &mut Vec<String>) {
        let ghost before = args.deep_view();
        push_arg(args, "build-interface");
        push_arg(args, self.mbti_input.as_str());
        push_pair(args, "-o", self.mi_output.as_str());
        let ghost s1 = args.deep_view();
        push_mi_deps(args, &self.mi_deps);
        let name = self.package_name.to_string();
        let mut src = name.clone();
        append_str(&mut src, ":");
        append_str(&mut src, self.package_source.as_str());
        let ghost s2 = args.deep_view();
        push_pair(args, "-pkg", name.as_str());
        push_pair(args, "-pkg-sources", src.as_str());
        push_arg(args, "-virtual");
        let ghost s3 = args.deep_view();
        push_opt_pair(args, "-std-path", &self.stdlib_core_file);
        let ghost s4 = args.deep_view();
        if self.json_errors {
            push_pair(args, "-error-format", "json");
        }
        proof {
            let name_v = self.package_name.fqn.name@ + compiled_name_suffix(self.package_name.kind);
            assert(s1 =~= before + seq!["build-interface"@, self.mbti_input@, "-o"@, self.mi_output@]);
            assert(src@ =~= name_and_dir(name_v, self.package_source@));
            assert(s3 =~= s2 + seq![
                "-pkg"@,
                name_v,
                "-pkg-sources"@,
                name_and_dir(name_v, self.package_source@),
                "-virtual"@,
            ]);
            assert(args.deep_view() =~= s4 + (if self.json_errors {
                seq!["-error-format"@, "json"@]
            } else {
                Seq::empty()
            }));
            assert(args.deep_view() =~= before + self.args_view());
        }
    }
}

} // verus!
