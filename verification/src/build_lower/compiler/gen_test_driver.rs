//! `moon generate-test-info` and `moon render-test-driver`.

use vstd::prelude::*;

use super::args::{
    flag_if, flagged, lemma_arg_inside, opt_pair, opt_view, push_all, push_arg, push_each_with_flag,
    push_flag_if, push_opt_pair, push_pair,
};
use super::CmdlineAbstraction;
use crate::model::{backend_flag, TargetBackend};
use crate::text::{concat2, decimal, decimal_digits};

verus! {

/// The kind of test driver, by the visibility its tests have.
#[derive(Debug, Clone, Copy, PartialEq, Eq, Structural)]
pub enum DriverKind {
    Internal,
    Whitebox,
    Blackbox,
}

/// The name of a driver kind on the command line.
pub open spec fn driver_kind_name(k: DriverKind) -> Seq<char> {
    match k {
        DriverKind::Internal => "internal"@,
        DriverKind::Whitebox => "whitebox"@,
        DriverKind::Blackbox => "blackbox"@,
    }
}

impl DriverKind {
    /// The name of this kind on the command line.
    pub fn to_flag(self) -> (r: &'static str)
        ensures
            r@ == driver_kind_name(self),
    {
        match self {
            DriverKind::Internal => "internal",
            DriverKind::Whitebox => "whitebox",
            DriverKind::Blackbox => "blackbox",
        }
    }
}

/// The invocation of `moon generate-test-info`.
#[derive(Debug)]
pub struct MoonGenTestInfo {
    /// The source files to include.
    pub files: Vec<String>,
    /// Files of which only the tests in documentation comments are included.
    pub doctest_only_files: Vec<String>,
    /// The test metadata output (JSON).
    pub output_metadata: String,
    /// The backend of the collected metadata.
    pub target_backend: TargetBackend,
    /// The kind of test.
    pub driver_kind: DriverKind,
    /// The patch file, if any.
    pub patch_file: Option<String>,
}

impl CmdlineAbstraction for MoonGenTestInfo {
    open spec fn args_view(&self) -> Seq<Seq<char>> {
        seq!["generate-test-info"@, "--output-metadata"@, self.output_metadata@]
            + self.files.deep_view() + flagged("--doctest-only"@, self.doctest_only_files.deep_view())
            + opt_pair("--patch-file"@, opt_view(self.patch_file)) + seq![
            "--target"@,
            backend_flag(self.target_backend),
            "--driver-kind"@,
            driver_kind_name(self.driver_kind),
        ]
    }

    fn to_args(&self, args: &mut Vec<String>) {
        let ghost before = args.deep_view();
        push_arg(args, "generate-test-info");
        push_pair(args, "--output-metadata", self.output_metadata.as_str());
        push_all(args, &self.files);
        push_each_with_flag(args, "--doctest-only", &self.doctest_only_files);
        push_opt_pair(args, "--patch-file", &self.patch_file);
        push_pair(args, "--target", self.target_backend.to_flag());
        push_pair(args, "--driver-kind", self.driver_kind.to_flag());
        assert(args.deep_view() =~= before + self.args_view());
    }
}

/// The invocation of `moon render-test-driver`.
#[derive(Debug)]
pub struct MoonRenderTestDriver {
    /// The test metadata input (JSON).
    pub input_metadata: String,
    /// The generated test driver (`.mbt`).
    pub output_driver: String,
    /// The package the driver is generated for.
    pub pkg_name: String,
    /// Whether to generate a benchmark driver.
    pub bench: bool,
    /// Whether coverage is enabled.
    pub enable_coverage: bool,
    /// The package that provides coverage; `@self` names the package itself.
    pub coverage_package_override: Option<String>,
    /// The most `async test`s run at once.
    pub max_concurrent_tests: Option<u32>,
}

/// `d` with coverage switched to `on`.
pub open spec fn driver_with_coverage(d: MoonRenderTestDriver, on: bool) -> MoonRenderTestDriver {
    MoonRenderTestDriver { enable_coverage: on, ..d }
}

/// A driver rendered with coverage asks for it: its arguments are those of
/// the same driver without coverage with `--enable-coverage` added once,
/// right after the package name (and `--bench`).
pub proof fn law_render_driver_coverage(d: MoonRenderTestDriver)
    ensures
        d.enable_coverage ==> d.args_view().contains("--enable-coverage"@),
        ({
            let off = driver_with_coverage(d, false).args_view();
            let on = driver_with_coverage(d, true).args_view();
            exists|k: int|
                #![trigger off.insert(k, "--enable-coverage"@)]
                7 <= k <= 8 && k <= off.len() && off[5] == "--pkg-name"@ && off[6] == d.pkg_name@ && on
                    == off.insert(k, "--enable-coverage"@)
        }),
{
    let d0 = driver_with_coverage(d, false);
    let d1 = driver_with_coverage(d, true);
    let a = seq![
        "render-test-driver"@,
        "--input-metadata"@,
        d.input_metadata@,
        "--output-driver"@,
        d.output_driver@,
        "--pkg-name"@,
        d.pkg_name@,
    ];
    let p = flag_if(d.bench, "--bench"@);
    let e = "--enable-coverage"@;
    let b = (match d.coverage_package_override {
        Some(o) => seq!["--coverage-package-override="@ + o@],
        None => Seq::empty(),
    }) + opt_pair("--max-concurrent-tests"@, opt_decimal(d.max_concurrent_tests));
    let q = Seq::<Seq<char>>::empty();
    lemma_arg_inside(a, p, e, q, b);
    assert(d1.args_view() =~= a + (p + seq![e] + q) + b);
    assert(d0.args_view() =~= a + (p + q) + b);
    let k = (a.len() + p.len()) as int;
    assert(d0.args_view()[5] == a[5]);
    assert(d0.args_view()[6] == a[6]);
    assert(d1.args_view() == d0.args_view().insert(k, e));
    if d.enable_coverage {
        assert(d1 == d);
        assert(d1.args_view()[k] == e);
    }
}

/// A benchmark driver asks for one: its arguments are those of the same
/// driver for tests with `--bench` added once, right after the package name.
pub proof fn law_render_driver_bench(d: MoonRenderTestDriver)
    ensures
        d.bench ==> d.args_view().contains("--bench"@),
        ({
            let off = MoonRenderTestDriver { bench: false, ..d }.args_view();
            let on = MoonRenderTestDriver { bench: true, ..d }.args_view();
            off[5] == "--pkg-name"@ && off[6] == d.pkg_name@ && on == off.insert(7, "--bench"@)
        }),
{
    let d0 = MoonRenderTestDriver { bench: false, ..d };
    let d1 = MoonRenderTestDriver { bench: true, ..d };
    let a = seq![
        "render-test-driver"@,
        "--input-metadata"@,
        d.input_metadata@,
        "--output-driver"@,
        d.output_driver@,
        "--pkg-name"@,
        d.pkg_name@,
    ];
    let p = Seq::<Seq<char>>::empty();
    let e = "--bench"@;
    let q = flag_if(d.enable_coverage, "--enable-coverage"@);
    let b = (match d.coverage_package_override {
        Some(o) => seq!["--coverage-package-override="@ + o@],
        None => Seq::empty(),
    }) + opt_pair("--max-concurrent-tests"@, opt_decimal(d.max_concurrent_tests));
    lemma_arg_inside(a, p, e, q, b);
    assert(d1.args_view() =~= a + (p + seq![e] + q) + b);
    assert(d0.args_view() =~= a + (p + q) + b);
    assert(d0.args_view()[5] == a[5]);
    assert(d0.args_view()[6] == a[6]);
    if d.bench {
        assert(d1 == d);
        assert(d1.args_view()[7] == e);
    }
}

/// The value of an optional count, in decimal.
pub open spec fn opt_decimal(o: Option<u32>) -> Option<Seq<char>> {
    match o {
        Some(n) => Some(decimal_digits(n as nat)),
        None => None,
    }
}

impl CmdlineAbstraction for MoonRenderTestDriver {
    open spec fn args_view(&self) -> Seq<Seq<char>> {
        seq![
            "render-test-driver"@,
            "--input-metadata"@,
            self.input_metadata@,
            "--output-driver"@,
            self.output_driver@,
            "--pkg-name"@,
            self.pkg_name@,
        ] + flag_if(self.bench, "--bench"@) + flag_if(self.enable_coverage, "--enable-coverage"@)
            + (match self.coverage_package_override {
            Some(p) => seq!["--coverage-package-override="@ + p@],
            None => Seq::empty(),
        }) + opt_pair("--max-concurrent-tests"@, opt_decimal(self.max_concurrent_tests))
    }

    fn to_args(&self, args: &mut Vec<String>) {
        let ghost before = args.deep_view();
        push_arg(args, "render-test-driver");
        push_pair(args, "--input-metadata", self.input_metadata.as_str());
        push_pair(args, "--output-driver", self.output_driver.as_str());
        push_pair(args, "--pkg-name", self.pkg_name.as_str());
        push_flag_if(args, self.bench, "--bench");
        push_flag_if(args, self.enable_coverage, "--enable-coverage");
        let ghost mid = args.deep_view();
        if let Some(p) = &self.coverage_package_override {
            let a = concat2("--coverage-package-override=", p.as_str());
            push_arg(args, a.as_str());
        }
        let ghost mid2 = args.deep_view();
        if let Some(n) = self.max_concurrent_tests {
            let d = decimal(n as u64);
            push_pair(args, "--max-concurrent-tests", d.as_str());
        }
        proof {
            assert(mid2 =~= mid + (match self.coverage_package_override {
                Some(p) => seq!["--coverage-package-override="@ + p@],
                None => Seq::empty(),
            }));
            assert(args.deep_view() =~= mid2 + opt_pair(
                "--max-concurrent-tests"@,
                opt_decimal(self.max_concurrent_tests),
            ));
            assert(args.deep_view() =~= before + self.args_view());
        }
    }
}

} // verus!
