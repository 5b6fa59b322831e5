//! Arguments shared by the build-like commands of `moonc`.

use vstd::prelude::*;

use super::args::{
    flag_if, opt_pair, opt_view, push_all, push_flag_if, push_opt_pair, push_pair,
};
use super::{
    mi_alias_arg, name_and_dir, ErrorFormat, MiDependency, PackageFQN,
    VirtualPackageImplementation, WarnAlertConfig, MOONC_ALLOW_ALERT_SET, MOONC_ALLOW_WARNING_SET,
    MOONC_DENY_ALERT_SET, MOONC_DENY_WARNING_SET,
};
use crate::model::{backend_flag, TargetBackend};
use crate::text::{append_str, concat2};

verus! {

/// `-error-format json` for JSON reports.
pub open spec fn error_format_args(e: ErrorFormat) -> Seq<Seq<char>> {
    match e {
        ErrorFormat::Json => seq!["-error-format"@, "json"@],
        ErrorFormat::Regular => Seq::empty(),
    }
}

/// The value of an optional alias.
pub open spec fn alias_view(dep: MiDependency) -> Option<Seq<char>> {
    opt_view(dep.alias)
}

/// `-i dep` for each interface dependency.
pub open spec fn mi_dep_args(deps: Seq<MiDependency>) -> Seq<Seq<char>>
    decreases deps.len(),
{
    if deps.len() == 0 {
        Seq::empty()
    } else {
        mi_dep_args(deps.drop_last()) + seq![
            "-i"@,
            mi_alias_arg(deps.last().path@, alias_view(deps.last())),
        ]
    }
}

/// `flag list` when `c` is a list.
pub open spec fn list_args(flag: Seq<char>, c: WarnAlertConfig) -> Seq<Seq<char>> {
    match c {
        WarnAlertConfig::List(l) => seq![flag, l@],
        _ => Seq::empty(),
    }
}

/// `flag set` when `c` is `target`'s variant.
pub open spec fn set_args_if(c: WarnAlertConfig, deny: bool, flag: Seq<char>, set: Seq<char>) -> Seq<
    Seq<char>,
> {
    if (deny && c is DenyAll) || (!deny && c is AllowAll) {
        seq![flag, set]
    } else {
        Seq::empty()
    }
}

/// The arguments that the virtual package implementation `v` adds to a check,
/// or, with `build`, to a build.
pub open spec fn virtual_impl_args(v: Option<VirtualPackageImplementation>, build: bool) -> Seq<
    Seq<char>,
> {
    match v {
        Some(i) => if build {
            seq![
                "-check-mi"@,
                i.mi_path@,
                "-impl-virtual"@,
                "-no-mi"@,
                "-pkg-sources"@,
                name_and_dir(i.package_name.name@, i.package_path@),
            ]
        } else {
            seq![
                "-check-mi"@,
                i.mi_path@,
                "-pkg-sources"@,
                name_and_dir(i.package_name.name@, i.package_path@),
            ]
        },
        None => Seq::empty(),
    }
}

/// Appends `-i dep` for each of `deps`.
pub fn push_mi_deps(args: &mut Vec<String>, deps: &Vec<MiDependency>)
    ensures
        final(args).deep_view() == old(args).deep_view() + mi_dep_args(deps@),
{
    let ghost before = args.deep_view();
    let mut i: usize = 0;
    while i < deps.len()
        invariant
            i <= deps.len(),
            args.deep_view() == before + mi_dep_args(deps@.take(i as int)),
        decreases deps.len() - i,
    {
        let a = deps[i].to_alias_arg();
        push_pair(args, "-i", a.as_str());
        proof {
            let t = deps@.take(i + 1);
            assert(t.drop_last() =~= deps@.take(i as int));
            assert(args.deep_view() =~= before + mi_dep_args(t));
        }
        i = i + 1;
    }
    assert(deps@.take(deps@.len() as int) =~= deps@);
}

/// Arguments shared by the build-like commands of `moonc`.
#[derive(Debug)]
pub struct BuildCommonArgs {
    pub error_format: ErrorFormat,
    pub warn_config: WarnAlertConfig,
    pub alert_config: WarnAlertConfig,
    pub mbt_sources: Vec<String>,
    pub mi_deps: Vec<MiDependency>,
    /// The name of the current package.
    pub package_name: PackageFQN,
    /// The source directory of the current package.
    pub package_source: String,
    pub is_main: bool,
    /// The standard library's core file; `None` for no standard library.
    pub stdlib_core_file: Option<String>,
    pub target_backend: TargetBackend,
    pub check_mi: Option<String>,
    pub virtual_implementation: Option<VirtualPackageImplementation>,
}

impl BuildCommonArgs {
    /// The arguments with default values for everything but the given ones.
    pub fn new(
        mbt_sources: Vec<String>,
        mi_deps: Vec<MiDependency>,
        package_name: PackageFQN,
        package_source: String,
        target_backend: TargetBackend,
    ) -> (r: BuildCommonArgs)
        ensures
            r == (BuildCommonArgs {
                error_format: ErrorFormat::Regular,
                warn_config: WarnAlertConfig::Default,
                alert_config: WarnAlertConfig::Default,
                mbt_sources,
                mi_deps,
                package_name,
                package_source,
                is_main: false,
                stdlib_core_file: None,
                target_backend,
                check_mi: None,
                virtual_implementation: None,
            }),
    {
        BuildCommonArgs {
            error_format: ErrorFormat::Regular,
            warn_config: WarnAlertConfig::Default,
            alert_config: WarnAlertConfig::Default,
            mbt_sources,
            mi_deps,
            package_name,
            package_source,
            is_main: false,
            stdlib_core_file: None,
            target_backend,
            check_mi: None,
            virtual_implementation: None,
        }
    }

    /// Adds the error format.
    pub fn add_error_format(&self, args: &mut Vec<String>)
        ensures
            final(args).deep_view() == old(args).deep_view() + error_format_args(self.error_format),
    {
        let ghost before = args.deep_view();
        if self.error_format == ErrorFormat::Json {
            push_pair(args, "-error-format", "json");
        }
        assert(args.deep_view() =~= before + error_format_args(self.error_format));
    }

    /// Adds the source files.
    pub fn add_mbt_sources(&self, args: &mut Vec<String>)
        ensures
            final(args).deep_view() == old(args).deep_view() + self.mbt_sources.deep_view(),
    {
        push_all(args, &self.mbt_sources);
    }

    /// Adds the custom warning and alert lists.
    pub fn add_custom_warn_alert_lists(&self, args: &mut Vec<String>)
        ensures
            final(args).deep_view() == old(args).deep_view() + list_args("-w"@, self.warn_config)
                + list_args("-alert"@, self.alert_config),
    {
        let ghost before = args.deep_view();
        if let WarnAlertConfig::List(w) = &self.warn_config {
            push_pair(args, "-w", w.as_str());
        }
        let ghost mid = args.deep_view();
        assert(mid =~= before + list_args("-w"@, self.warn_config));
        if let WarnAlertConfig::List(a) = &self.alert_config {
            push_pair(args, "-alert", a.as_str());
        }
        assert(args.deep_view() =~= mid + list_args("-alert"@, self.alert_config));
    }

    /// Adds the package name.
    pub fn add_package_config(&self, args: &mut Vec<String>)
        ensures
            final(args).deep_view() == old(args).deep_view() + seq!["-pkg"@, self.package_name.name@],
    {
        push_pair(args, "-pkg", self.package_name.name.as_str());
    }

    /// Adds `-is-main` for a main package.
    pub fn add_is_main(&self, args: &mut Vec<String>)
        ensures
            final(args).deep_view() == old(args).deep_view() + flag_if(self.is_main, "-is-main"@),
    {
        push_flag_if(args, self.is_main, "-is-main");
    }

    /// Adds `-is-main` for a main package when `condition` also holds.
    pub fn add_is_main_with_condition(&self, args: &mut Vec<String>, condition: bool)
        ensures
            final(args).deep_view() == old(args).deep_view() + flag_if(
                self.is_main && condition,
                "-is-main"@,
            ),
    {
        push_flag_if(args, self.is_main && condition, "-is-main");
    }

    /// Adds the standard library path.
    pub fn add_stdlib_path(&self, args: &mut Vec<String>)
        ensures
            final(args).deep_view() == old(args).deep_view() + opt_pair(
                "-std-path"@,
                opt_view(self.stdlib_core_file),
            ),
    {
        push_opt_pair(args, "-std-path", &self.stdlib_core_file);
    }

    /// Adds the interface dependencies.
    pub fn add_mi_dependencies(&self, args: &mut Vec<String>)
        ensures
            final(args).deep_view() == old(args).deep_view() + mi_dep_args(self.mi_deps@),
    {
        push_mi_deps(args, &self.mi_deps);
    }

    /// Adds the package's source definition.
    pub fn add_package_sources(&self, args: &mut Vec<String>)
        ensures
            final(args).deep_view() == old(args).deep_view() + seq![
                "-pkg-sources"@,
                name_and_dir(self.package_name.name@, self.package_source@),
            ],
    {
        let mut s = concat2(self.package_name.name.as_str(), ":");
        append_str(&mut s, self.package_source.as_str());
        push_pair(args, "-pkg-sources", s.as_str());
    }

    /// Adds the target backend.
    pub fn add_target_backend(&self, args: &mut Vec<String>)
        ensures
            final(args).deep_view() == old(args).deep_view() + seq![
                "-target"@,
                backend_flag(self.target_backend),
            ],
    {
        push_pair(args, "-target", self.target_backend.to_flag());
    }

    /// Adds the virtual package check.
    pub fn add_virtual_package_check(&self, args: &mut Vec<String>)
        ensures
            final(args).deep_view() == old(args).deep_view() + opt_pair(
                "-check-mi"@,
                opt_view(self.check_mi),
            ),
    {
        push_opt_pair(args, "-check-mi", &self.check_mi);
    }

    /// Adds the deny-all warning and alert lists together, when warnings are
    /// denied.
    pub fn add_warn_alert_deny_all_combined(&self, args: &mut Vec<String>)
        ensures
            final(args).deep_view() == old(args).deep_view() + (if self.warn_config is DenyAll {
                seq!["-w"@, MOONC_DENY_WARNING_SET@, "-alert"@, MOONC_DENY_ALERT_SET@]
            } else {
                Seq::empty()
            }),
    {
        let ghost before = args.deep_view();
        if let WarnAlertConfig::DenyAll = self.warn_config {
            push_pair(args, "-w", MOONC_DENY_WARNING_SET);
            push_pair(args, "-alert", MOONC_DENY_ALERT_SET);
        }
        assert(args.deep_view() =~= before + (if self.warn_config is DenyAll {
            seq!["-w"@, MOONC_DENY_WARNING_SET@, "-alert"@, MOONC_DENY_ALERT_SET@]
        } else {
            Seq::empty()
        }));
    }

    /// Adds the deny-all warning list and the deny-all alert list, each when
    /// its kind is denied.
    pub fn add_warn_alert_deny_all_separate(&self, args: &mut Vec<String>)
        ensures
            final(args).deep_view() == old(args).deep_view() + set_args_if(
                self.warn_config,
                true,
                "-w"@,
                MOONC_DENY_WARNING_SET@,
            ) + set_args_if(self.alert_config, true, "-alert"@, MOONC_DENY_ALERT_SET@),
    {
        let ghost before = args.deep_view();
        if let WarnAlertConfig::DenyAll = self.warn_config {
            push_pair(args, "-w", MOONC_DENY_WARNING_SET);
        }
        let ghost mid = args.deep_view();
        assert(mid =~= before + set_args_if(self.warn_config, true, "-w"@, MOONC_DENY_WARNING_SET@));
        if let WarnAlertConfig::DenyAll = self.alert_config {
            push_pair(args, "-alert", MOONC_DENY_ALERT_SET);
        }
        assert(args.deep_view() =~= mid + set_args_if(
            self.alert_config,
            true,
            "-alert"@,
            MOONC_DENY_ALERT_SET@,
        ));
    }

    /// Adds the allow-all warning list and the allow-all alert list, each
    /// when its kind is allowed.
    pub fn add_warn_alert_allow_all(&self, args: &mut Vec<String>)
        ensures
            final(args).deep_view() == old(args).deep_view() + set_args_if(
                self.warn_config,
                false,
                "-w"@,
                MOONC_ALLOW_WARNING_SET@,
            ) + set_args_if(self.alert_config, false, "-alert"@, MOONC_ALLOW_ALERT_SET@),
    {
        let ghost before = args.deep_view();
        if let WarnAlertConfig::AllowAll = self.warn_config {
            push_pair(args, "-w", MOONC_ALLOW_WARNING_SET);
        }
        let ghost mid = args.deep_view();
        assert(mid =~= before + set_args_if(self.warn_config, false, "-w"@, MOONC_ALLOW_WARNING_SET@));
        if let WarnAlertConfig::AllowAll = self.alert_config {
            push_pair(args, "-alert", MOONC_ALLOW_ALERT_SET);
        }
        assert(args.deep_view() =~= mid + set_args_if(
            self.alert_config,
            false,
            "-alert"@,
            MOONC_ALLOW_ALERT_SET@,
        ));
    }

    /// Adds the virtual package implementation, as a check sees it.
    pub fn add_virtual_package_implementation_check(&self, args: &mut Vec<String>)
        ensures
            final(args).deep_view() == old(args).deep_view() + virtual_impl_args(
                self.virtual_implementation,
                false,
            ),
    {
        push_virtual_impl(args, &self.virtual_implementation, false);
    }

    /// Adds the virtual package implementation, as a build sees it.
    pub fn add_virtual_package_implementation_build(&self, args: &mut Vec<String>)
        ensures
            final(args).deep_view() == old(args).deep_view() + virtual_impl_args(
                self.virtual_implementation,
                true,
            ),
    {
        push_virtual_impl(args, &self.virtual_implementation, true);
    }
}

/// Appends the arguments of a virtual package implementation.
pub fn push_virtual_impl(
    args: &mut Vec<String>,
    v: &Option<VirtualPackageImplementation>,
    build: bool,
)
    ensures
        final(args).deep_view() == old(args).deep_view() + virtual_impl_args(*v, build),
{
    let ghost before = args.deep_view();
    if let Some(i) = v {
        let mut src = concat2(i.package_name.name.as_str(), ":");
        append_str(&mut src, i.package_path.as_str());
        push_pair(args, "-check-mi", i.mi_path.as_str());
        if build {
            push_pair(args, "-impl-virtual", "-no-mi");
        }
        push_pair(args, "-pkg-sources", src.as_str());
    }
    assert(args.deep_view() =~= before + virtual_impl_args(*v, build));
}

} // verus!
