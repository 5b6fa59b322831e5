//! `moon tool generate-node-test-package-config`.

use vstd::prelude::*;

use super::args::push_pair;
use super::CmdlineAbstraction;

verus! {

/// The invocation that writes the package configuration of Node.js tests.
#[derive(Debug)]
pub struct MoonGenerateNodeTestPackageConfig {
    pub output: String,
}

impl CmdlineAbstraction for MoonGenerateNodeTestPackageConfig {
    open spec fn args_view(&self) -> Seq<Seq<char>> {
        seq!["tool"@, "generate-node-test-package-config"@, "--output"@, self.output@]
    }

    fn to_args(&self, args: &mut Vec<String>) {
        let ghost before = args.deep_view();
        push_pair(args, "tool", "generate-node-test-package-config");
        push_pair(args, "--output", self.output.as_str());
        assert(args.deep_view() =~= before + self.args_view());
    }
}

} // verus!
