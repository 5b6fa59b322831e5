//! `moondoc`: documentation generation.

use vstd::prelude::*;

use super::args::{flag_if, opt_pair, opt_view, push_arg, push_flag_if, push_opt_pair, push_pair};
use super::CmdlineAbstraction;

verus! {

/// The invocation of `moondoc`, which reads packages, their sources and built
/// interfaces, and renders documentation.
#[derive(Debug)]
pub struct MoondocCommand {
    /// The source directory to document.
    pub source_dir: String,
    /// The output directory.
    pub output_dir: String,
    /// The standard library's core bundle, if any.
    pub std_path: Option<String>,
    /// The `packages.json` metadata file.
    pub packages_json: String,
    /// Whether to render HTML for serving.
    pub serve_mode: bool,
}

impl MoondocCommand {
    pub fn new(
        source_dir: String,
        output_dir: String,
        std_path: Option<String>,
        packages_json: String,
        serve_mode: bool,
    ) -> (r: MoondocCommand)
        ensures
            r == (MoondocCommand { source_dir, output_dir, std_path, packages_json, serve_mode }),
    {
        MoondocCommand { source_dir, output_dir, std_path, packages_json, serve_mode }
    }
}

impl CmdlineAbstraction for MoondocCommand {
    open spec fn args_view(&self) -> Seq<Seq<char>> {
        seq![self.source_dir@, "-o"@, self.output_dir@] + opt_pair(
            "-std-path"@,
            opt_view(self.std_path),
        ) + seq!["-packages-json"@, self.packages_json@] + flag_if(self.serve_mode, "-serve-mode"@)
    }

    fn to_args(&self, args: &mut Vec<String>) {
        let ghost before = args.deep_view();
        push_arg(args, self.source_dir.as_str());
        push_pair(args, "-o", self.output_dir.as_str());
        push_opt_pair(args, "-std-path", &self.std_path);
        push_pair(args, "-packages-json", self.packages_json.as_str());
        push_flag_if(args, self.serve_mode, "-serve-mode");
        assert(args.deep_view() =~= before + self.args_view());
    }
}

} // verus!
