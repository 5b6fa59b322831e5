//! `mooninfo`: rendering a `.mi` interface as a textual `.mbti` file.

use vstd::prelude::*;

use super::args::{flag_if, push_arg, push_flag_if};
use super::CmdlineAbstraction;
use crate::text::concat2;

verus! {

/// The invocation of `mooninfo`, which renders a `.mi` or `.core` file as
/// text; the build only turns `.mi` files into `.mbti` files with it.
#[derive(Debug)]
pub struct Mooninfo {
    /// The input `.mi` file.
    pub mi_in: String,
    /// The output `.mbti` file.
    pub out: String,
    /// Whether to write full package names in place of aliases.
    pub no_alias: bool,
}

impl CmdlineAbstraction for Mooninfo {
    open spec fn args_view(&self) -> Seq<Seq<char>> {
        seq!["-format=text"@, self.mi_in@, "-o="@ + self.out@] + flag_if(self.no_alias, "-no-alias"@)
    }

    fn to_args(&self, args: &mut Vec<String>) {
        let ghost before = args.deep_view();
        push_arg(args, "-format=text");
        push_arg(args, self.mi_in.as_str());
        let o = concat2("-o=", self.out.as_str());
        push_arg(args, o.as_str());
        push_flag_if(args, self.no_alias, "-no-alias");
        assert(args.deep_view() =~= before + self.args_view());
    }
}

} // verus!
