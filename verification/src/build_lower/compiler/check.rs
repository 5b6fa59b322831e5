//! The `moonc check` invocation: it checks a package's sources and writes
//! the `.mi` interface of the package, without producing a `.core` file.

use vstd::prelude::*;

use super::args::{flag_if, opt_pair, opt_view, push_all, push_arg, push_flag_if, push_pair};
use super::build_common::{error_format_args, list_args, mi_dep_args, set_args_if, virtual_impl_args, BuildCommonArgs};
use super::{
    name_and_dir, CmdlineAbstraction, MOONC_ALLOW_ALERT_SET, MOONC_ALLOW_WARNING_SET,
    MOONC_DENY_ALERT_SET, MOONC_DENY_WARNING_SET,
};
use crate::model::backend_flag;

verus! {

/// The invocation of `moonc check`.
///
/// The patch-file, doctest, workspace-root, all-packages and test-kind
/// arguments are taken as given, already rendered, and placed at their
/// positions in the command.
#[derive(Debug)]
pub struct MooncCheck {
    /// The arguments shared with the other build-like commands.
    pub common: BuildCommonArgs,
    /// The patch-file arguments, first after the command name.
    pub patch_file_args: Vec<String>,
    /// Whether no `.mi` file is written.
    pub no_mi: bool,
    /// The arguments naming the sources compiled only for their doctests.
    pub doctest_only_args: Vec<String>,
    /// The arguments that include doctests in a blackbox test.
    pub include_doctests_args: Vec<String>,
    /// The `.mi` output.
    pub mi_out: String,
    /// Whether the package is a single file.
    pub single_file: bool,
    /// The test-kind arguments of the target.
    pub test_kind_args: Vec<String>,
    /// The workspace-root arguments.
    pub workspace_root_args: Vec<String>,
    /// The arguments naming the build's package list.
    pub all_pkgs_args: Vec<String>,
    /// Extra flags, appended last.
    pub extra_flags: Vec<String>,
}

/// The deny-all warning and alert lists, when warnings are denied.
pub open spec fn deny_all_args(c: BuildCommonArgs) -> Seq<Seq<char>> {
    if c.warn_config is DenyAll {
        seq!["-w"@, MOONC_DENY_WARNING_SET@, "-alert"@, MOONC_DENY_ALERT_SET@]
    } else {
        Seq::empty()
    }
}

/// The command name, the patch file, the `.mi` switch, the error format and
/// the warning and alert lists, then the sources.
pub open spec fn check_head(c: MooncCheck) -> Seq<Seq<char>> {
    seq!["check"@] + c.patch_file_args.deep_view() + flag_if(c.no_mi, "-no-mi"@) + error_format_args(
        c.common.error_format,
    ) + deny_all_args(c.common) + c.common.mbt_sources.deep_view() + c.doctest_only_args.deep_view()
        + c.include_doctests_args.deep_view()
}

/// The custom and allow-all warning and alert lists, the output and the
/// package.
pub open spec fn check_middle(c: MooncCheck) -> Seq<Seq<char>> {
    list_args("-w"@, c.common.warn_config) + list_args("-alert"@, c.common.alert_config) + set_args_if(
        c.common.warn_config,
        false,
        "-w"@,
        MOONC_ALLOW_WARNING_SET@,
    ) + set_args_if(c.common.alert_config, false, "-alert"@, MOONC_ALLOW_ALERT_SET@) + (if c.no_mi {
        Seq::empty()
    } else {
        seq!["-o"@, c.mi_out@]
    }) + seq!["-pkg"@, c.common.package_name.name@] + flag_if(c.common.is_main, "-is-main"@)
        + flag_if(c.single_file, "-single-file"@)
}

/// The standard library, the dependencies, the package sources, the target,
/// the virtual package checks, the workspace, the package list and the extra
/// flags.
pub open spec fn check_tail(c: MooncCheck) -> Seq<Seq<char>> {
    opt_pair("-std-path"@, opt_view(c.common.stdlib_core_file)) + mi_dep_args(c.common.mi_deps@)
        + seq!["-pkg-sources"@, name_and_dir(c.common.package_name.name@, c.common.package_source@)]
        + seq!["-target"@, backend_flag(c.common.target_backend)] + c.test_kind_args.deep_view()
        + opt_pair("-check-mi"@, opt_view(c.common.check_mi)) + virtual_impl_args(
        c.common.virtual_implementation,
        false,
    ) + c.workspace_root_args.deep_view() + c.all_pkgs_args.deep_view() + c.extra_flags.deep_view()
}

/// The arguments of `moonc check` for `c`.
pub open spec fn check_args(c: MooncCheck) -> Seq<Seq<char>> {
    check_head(c) + check_middle(c) + check_tail(c)
}

impl MooncCheck {
    fn push_head(&self, args: &mut Vec<String>)
        ensures
            final(args).deep_view() == old(args).deep_view() + check_head(*self),
    {
        let ghost before = args.deep_view();
        let ghost c = *self;
        push_arg(args, "check");
        push_all(args, &self.patch_file_args);
        push_flag_if(args, self.no_mi, "-no-mi");
        let ghost a1 = seq!["check"@] + c.patch_file_args.deep_view() + flag_if(c.no_mi, "-no-mi"@);
        assert(args.deep_view() =~= before + a1);
        self.common.add_error_format(args);
        let ghost a2 = a1 + error_format_args(c.common.error_format);
        assert(args.deep_view() =~= before + a2);
        self.common.add_warn_alert_deny_all_combined(args);
        let ghost a3 = a2 + deny_all_args(c.common);
        assert(args.deep_view() =~= before + a3);
        self.common.add_mbt_sources(args);
        let ghost a4 = a3 + c.common.mbt_sources.deep_view();
        assert(args.deep_view() =~= before + a4);
        push_all(args, &self.doctest_only_args);
        let ghost a5 = a4 + c.doctest_only_args.deep_view();
        assert(args.deep_view() =~= before + a5);
        push_all(args, &self.include_doctests_args);
        assert(args.deep_view() =~= before + check_head(c));
    }

    fn push_middle(&self, args: &mut Vec<String>)
        ensures
            final(args).deep_view() == old(args).deep_view() + check_middle(*self),
    {
        let ghost before = args.deep_view();
        let ghost c = *self;
        self.common.add_custom_warn_alert_lists(args);
        let ghost a1 = list_args("-w"@, c.common.warn_config) + list_args("-alert"@, c.common.alert_config);
        assert(args.deep_view() =~= before + a1);
        self.common.add_warn_alert_allow_all(args);
        let ghost a2 = a1 + set_args_if(c.common.warn_config, false, "-w"@, MOONC_ALLOW_WARNING_SET@)
            + set_args_if(c.common.alert_config, false, "-alert"@, MOONC_ALLOW_ALERT_SET@);
        assert(args.deep_view() =~= before + a2);
        if !self.no_mi {
            push_pair(args, "-o", self.mi_out.as_str());
        }
        let ghost a3 = a2 + (if c.no_mi {
            Seq::<Seq<char>>::empty()
        } else {
            seq!["-o"@, c.mi_out@]
        });
        assert(args.deep_view() =~= before + a3);
        self.common.add_package_config(args);
        let ghost a4 = a3 + seq!["-pkg"@, c.common.package_name.name@];
        assert(args.deep_view() =~= before + a4);
        self.common.add_is_main(args);
        let ghost a5 = a4 + flag_if(c.common.is_main, "-is-main"@);
        assert(args.deep_view() =~= before + a5);
        push_flag_if(args, self.single_file, "-single-file");
        assert(args.deep_view() =~= before + check_middle(c));
    }

    fn push_tail(&self, args: &mut Vec<String>)
        ensures
            final(args).deep_view() == old(args).deep_view() + check_tail(*self),
    {
        let ghost before = args.deep_view();
        let ghost c = *self;
        self.common.add_stdlib_path(args);
        let ghost a1 = opt_pair("-std-path"@, opt_view(c.common.stdlib_core_file));
        assert(args.deep_view() =~= before + a1);
        self.common.add_mi_dependencies(args);
        let ghost a2 = a1 + mi_dep_args(c.common.mi_deps@);
        assert(args.deep_view() =~= before + a2);
        self.common.add_package_sources(args);
        let ghost a3 = a2 + seq![
            "-pkg-sources"@,
            name_and_dir(c.common.package_name.name@, c.common.package_source@),
        ];
        assert(args.deep_view() =~= before + a3);
        self.common.add_target_backend(args);
        let ghost a4 = a3 + seq!["-target"@, backend_flag(c.common.target_backend)];
        assert(args.deep_view() =~= before + a4);
        push_all(args, &self.test_kind_args);
        let ghost a5 = a4 + c.test_kind_args.deep_view();
        assert(args.deep_view() =~= before + a5);
        self.common.add_virtual_package_check(args);
        let ghost a6 = a5 + opt_pair("-check-mi"@, opt_view(c.common.check_mi));
        assert(args.deep_view() =~= before + a6);
        self.common.add_virtual_package_implementation_check(args);
        let ghost a7 = a6 + virtual_impl_args(c.common.virtual_implementation, false);
        assert(args.deep_view() =~= before + a7);
        push_all(args, &self.workspace_root_args);
        let ghost a8 = a7 + c.workspace_root_args.deep_view();
        assert(args.deep_view() =~= before + a8);
        push_all(args, &self.all_pkgs_args);
        let ghost a9 = a8 + c.all_pkgs_args.deep_view();
        assert(args.deep_view() =~= before + a9);
        push_all(args, &self.extra_flags);
        assert(args.deep_view() =~= before + check_tail(c));
    }
}

impl CmdlineAbstraction for MooncCheck {
    open spec fn args_view(&self) -> Seq<Seq<char>> {
        check_args(*self)
    }

    fn to_args(&self, args: &mut Vec<String>) {
        let ghost before = args.deep_view();
        self.push_head(args);
        self.push_middle(args);
        assert(args.deep_view() =~= before + (check_head(*self) + check_middle(*self)));
        self.push_tail(args);
        assert(args.deep_view() =~= before + check_args(*self));
    }
}

} // verus!
