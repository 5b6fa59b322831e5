//! `moonc bundle-core`: bundling several `.core` files into one.

use vstd::prelude::*;

use super::args::{push_all, push_arg, push_pair};
use super::CmdlineAbstraction;

verus! {

/// The invocation of `moonc bundle-core`, which bundles `.core` files into one
/// (used by the standard library).
#[derive(Debug)]
pub struct MooncBundleCore {
    /// The `.core` files to bundle, in order.
    pub core_deps: Vec<String>,
    /// The bundled `.core` file.
    pub output_path: String,
    /// Extra arguments appended at the end.
    pub extra_args: Vec<String>,
}

impl MooncBundleCore {
    /// An invocation without extra arguments.
    pub fn new(core_deps: Vec<String>, output_path: String) -> (r: MooncBundleCore)
        ensures
            r.core_deps == core_deps,
            r.output_path == output_path,
            r.extra_args@.len() == 0,
    {
        MooncBundleCore { core_deps, output_path, extra_args: Vec::new() }
    }
}

impl CmdlineAbstraction for MooncBundleCore {
    open spec fn args_view(&self) -> Seq<Seq<char>> {
        seq!["bundle-core"@] + self.core_deps.deep_view() + seq!["-o"@, self.output_path@]
            + self.extra_args.deep_view()
    }

    fn to_args(&self, args: &mut Vec<String>) {
        let ghost before = args.deep_view();
        push_arg(args, "bundle-core");
        push_all(args, &self.core_deps);
        push_pair(args, "-o", self.output_path.as_str());
        push_all(args, &self.extra_args);
        assert(args.deep_view() =~= before + self.args_view());
    }
}

} // verus!
