//! Choosing how a moonc command line reaches the process: inline, or through
//! a response file when it is long.

use vstd::prelude::*;

use super::LoweringError;
use crate::execution_plan::{LoweredCommand, LoweredCommandExecution, LoweredResponseFile};
use crate::shell::{has_nul_word, join_native, shlex_join};
use crate::text::{
    char_is_white_space, concat2, is_white_space, join_sep, join_with, owned, push_char,
    str_contains_char, str_eq, utf8_len, utf8_len_at_least,
};

verus! {

/// The command length, in UTF-8 bytes, from which a response file is used.
///
/// A portable margin below the Windows process limit of 32,767 UTF-16 code
/// units; the UTF-8 byte length over-approximates that measure.
pub const RESPONSE_FILE_THRESHOLD: usize = 16384;

/// Why a response file cannot carry `arg` unchanged, if it cannot.
pub open spec fn rsp_reason(arg: Seq<char>) -> Option<Seq<char>> {
    if arg.len() == 0 {
        Some("the argument is empty"@)
    } else if is_white_space(arg[0]) || is_white_space(arg.last()) {
        Some("leading or trailing whitespace would be trimmed"@)
    } else if arg.contains('\r') || arg.contains('\n') {
        Some("line breaks delimit arguments"@)
    } else if arg[0] == '#' {
        Some("the argument would be parsed as a comment"@)
    } else if arg == "-rsp-file"@ {
        Some("nested response files are not supported"@)
    } else {
        None
    }
}

/// The content of a response file carrying `words`: one argument per line,
/// each line ended by a line break.
pub open spec fn rsp_content(words: Seq<Seq<char>>) -> Seq<char> {
    join_sep(words, '\n') + seq!['\n']
}

/// The first argument that a response file cannot carry, if any.
pub open spec fn first_rejected(words: Seq<Seq<char>>, i: int) -> bool {
    &&& 0 <= i < words.len()
    &&& rsp_reason(words[i]) is Some
    &&& forall|j: int| 0 <= j < i ==> rsp_reason(#[trigger] words[j]) is None
}

/// Why a response file cannot carry `arg` unchanged, if it cannot.
fn reject_reason(arg: &str) -> (r: Option<&'static str>)
    ensures
        match r {
            Some(reason) => rsp_reason(arg@) == Some(reason@),
            None => rsp_reason(arg@) is None,
        },
{
    let n = arg.unicode_len();
    if n == 0 {
        return Some("the argument is empty");
    }
    if char_is_white_space(arg.get_char(0)) || char_is_white_space(arg.get_char(n - 1)) {
        return Some("leading or trailing whitespace would be trimmed");
    }
    if str_contains_char(arg, '\r') || str_contains_char(arg, '\n') {
        return Some("line breaks delimit arguments");
    }
    if arg.get_char(0) == '#' {
        return Some("the argument would be parsed as a comment");
    }
    if str_eq(arg, "-rsp-file") {
        return Some("nested response files are not supported");
    }
    None
}

/// Encodes arguments in the line-based format that `moonc -rsp-file` reads.
///
/// Fails on the first argument that the format would change.
pub fn encode(args: &[String]) -> (r: Result<String, LoweringError>)
    ensures
        match r {
            Ok(content) => (forall|i: int|
                0 <= i < args@.len() ==> rsp_reason(#[trigger] args@[i]@) is None) && content@
                == rsp_content(args.deep_view()) && rsp_read(content@) == args.deep_view(),
            Err(LoweringError::MooncResponseFile { index, reason }) => first_rejected(
                args.deep_view(),
                index as int,
            ) && rsp_reason(args@[index as int]@) == Some(reason@),
        },
{
    let ghost words = args.deep_view();
    let mut i: usize = 0;
    while i < args.len()
        invariant
            i <= args.len(),
            words == args.deep_view(),
            forall|j: int| 0 <= j < i ==> rsp_reason(#[trigger] args@[j]@) is None,
        decreases args.len() - i,
    {
        match reject_reason(args[i].as_str()) {
            Some(reason) => {
                proof {
                    assert forall|j: int| 0 <= j < i implies rsp_reason(#[trigger] words[j])
                        is None by {
                        assert(words[j] == args@[j]@);
                    }
                    assert(words[i as int] == args@[i as int]@);
                }
                return Err(LoweringError::MooncResponseFile { index: i, reason });
            },
            None => {},
        }
        i = i + 1;
    }
    let mut content = join_with(args, '\n');
    push_char(&mut content, '\n');
    proof {
        assert forall|j: int| 0 <= j < words.len() implies rsp_reason(#[trigger] words[j]) is None by {
            assert(words[j] == args@[j]@);
        }
        law_rsp_content_round_trip(words);
    }
    Ok(content)
}

/// The response file path for a command whose primary output is `output`.
pub open spec fn rsp_path(output: Seq<char>) -> Seq<char> {
    output + ".rsp"@
}

/// The command that runs `executable` on the response file at `path`.
pub open spec fn rsp_command_words(executable: Seq<char>, path: Seq<char>) -> Seq<Seq<char>> {
    seq![executable, "-rsp-file"@, path]
}

/// Lowers a moonc argument vector whose inline rendering is `inline`.
///
/// A command shorter than [`RESPONSE_FILE_THRESHOLD`] bytes is sent inline.
/// A longer one keeps its logical arguments and is sent as `moonc -rsp-file
/// <output>.rsp`, with every argument but the executable in the response file.
pub fn lower_rendered(args: Vec<String>, inline: String, primary_output: &str) -> (r: Result<
    LoweredCommand,
    LoweringError,
>)
    requires
        args@.len() > 0,
        !has_nul_word(args.deep_view()),
        !primary_output@.contains('\0'),
    ensures
        utf8_len(inline@) < RESPONSE_FILE_THRESHOLD ==> (r matches Ok(c) && c.args@ == args@
            && c.execution == LoweredCommandExecution::Inline(inline) && c.cwd is None
            && c.env@.len() == 0),
        utf8_len(inline@) >= RESPONSE_FILE_THRESHOLD ==> match r {
            Ok(c) => {
                &&& forall|i: int|
                    1 <= i < args@.len() ==> rsp_reason(#[trigger] args@[i]@) is None
                &&& c.args@ == args@
                &&& c.cwd is None
                &&& c.env@.len() == 0
                &&& c.execution matches LoweredCommandExecution::ResponseFile { command, file }
                &&& command@ == shlex_join(rsp_command_words(args@[0]@, rsp_path(primary_output@)))
                &&& file.path@ == rsp_path(primary_output@)
                &&& file.content@ == rsp_content(args.deep_view().drop_first())
            },
            Err(LoweringError::MooncResponseFile { index, reason }) => first_rejected(
                args.deep_view().drop_first(),
                index as int,
            ) && rsp_reason(args@[index + 1]@) == Some(reason@),
        },
{
    if !utf8_len_at_least(inline.as_str(), RESPONSE_FILE_THRESHOLD) {
        return Ok(
            LoweredCommand {
                args,
                execution: LoweredCommandExecution::Inline(inline),
                cwd: None,
                env: Vec::new(),
            },
        );
    }
    let tail = args.as_slice().split_at(1).1;
    proof {
        assert(tail.deep_view() =~= args.deep_view().drop_first());
    }
    let content = match encode(tail) {
        Ok(c) => c,
        Err(e) => {
            proof {
                if let LoweringError::MooncResponseFile { index, reason } = e {
                    assert(tail@[index as int] == args@[index + 1]);
                }
            }
            return Err(e);
        },
    };
    let path = concat2(primary_output, ".rsp");
    let mut words: Vec<String> = Vec::new();
    words.push(args[0].clone());
    words.push(owned("-rsp-file"));
    words.push(path.clone());
    let command = match join_native(&words) {
        Some(c) => c,
        None => {
            proof {
                reveal_strlit("-rsp-file");
                reveal_strlit(".rsp");
                assert(!args.deep_view()[0].contains('\0'));
                assert(words.deep_view() =~= seq![args@[0]@, "-rsp-file"@, path@]);
                assert(!"-rsp-file"@.contains('\0'));
                assert(!path@.contains('\0')) by {
                    if path@.contains('\0') {
                        let w = choose|w: int| 0 <= w < path@.len() && path@[w] == '\0';
                        if w < primary_output@.len() {
                            assert(primary_output@[w] == '\0');
                        } else {
                            assert(".rsp"@[w - primary_output@.len()] == '\0');
                        }
                    }
                }
                assert(false);
            }
            String::new()
        },
    };
    proof {
        assert(words.deep_view() =~= rsp_command_words(args@[0]@, rsp_path(primary_output@)));
        assert forall|i: int| 1 <= i < args@.len() implies rsp_reason(#[trigger] args@[i]@)
            is None by {
            assert(tail@[i - 1] == args@[i]);
        }
    }
    let c = LoweredCommand {
        args,
        execution: LoweredCommandExecution::Inline(String::new()),
        cwd: None,
        env: Vec::new(),
    };
    Ok(c.with_response_file(command, LoweredResponseFile { path, content }))
}

/// Lowers a moonc argument vector, choosing its process transport by the
/// length of its inline rendering.
pub fn lower(args: Vec<String>, primary_output: &str) -> (r: Result<LoweredCommand, LoweringError>)
    requires
        args@.len() > 0,
        !has_nul_word(args.deep_view()),
        !primary_output@.contains('\0'),
    ensures
        ({
            let inline = shlex_join(args.deep_view());
            &&& utf8_len(inline) < RESPONSE_FILE_THRESHOLD ==> (r matches Ok(c) && c.args@ == args@
                && c.execution is Inline && c.execution->Inline_0@ == inline && c.cwd is None
                && c.env@.len() == 0)
            &&& utf8_len(inline) >= RESPONSE_FILE_THRESHOLD ==> match r {
                Ok(c) => {
                    &&& forall|i: int|
                        1 <= i < args@.len() ==> rsp_reason(#[trigger] args@[i]@) is None
                    &&& c.args@ == args@
                    &&& c.cwd is None
                    &&& c.env@.len() == 0
                    &&& c.execution matches LoweredCommandExecution::ResponseFile { command, file }
                    &&& command@ == shlex_join(
                        rsp_command_words(args@[0]@, rsp_path(primary_output@)),
                    )
                    &&& file.path@ == rsp_path(primary_output@)
                    &&& file.content@ == rsp_content(args.deep_view().drop_first())
                },
                Err(LoweringError::MooncResponseFile { index, reason }) => first_rejected(
                    args.deep_view().drop_first(),
                    index as int,
                ) && rsp_reason(args@[index + 1]@) == Some(reason@),
            }
        }),
{
    let inline = match join_native(&args) {
        Some(c) => c,
        None => {
            proof {
                assert(false);
            }
            String::new()
        },
    };
    lower_rendered(args, inline, primary_output)
}

/// The lines of `s`: the text between line breaks, the last line being what
/// follows the last break.
pub open spec fn split_lines(s: Seq<char>) -> Seq<Seq<char>>
    decreases s.len(),
{
    if s.len() == 0 {
        seq![Seq::empty()]
    } else if s.last() == '\n' {
        split_lines(s.drop_last()).push(Seq::empty())
    } else {
        let r = split_lines(s.drop_last());
        r.update(r.len() - 1, r.last().push(s.last()))
    }
}

/// `s` without leading whitespace.
pub open spec fn trim_start(s: Seq<char>) -> Seq<char>
    decreases s.len(),
{
    if s.len() > 0 && is_white_space(s[0]) {
        trim_start(s.drop_first())
    } else {
        s
    }
}

/// `s` without trailing whitespace.
pub open spec fn trim_end(s: Seq<char>) -> Seq<char>
    decreases s.len(),
{
    if s.len() > 0 && is_white_space(s.last()) {
        trim_end(s.drop_last())
    } else {
        s
    }
}

/// The arguments that response-file lines stand for: each line trimmed,
/// lines left empty and comment lines (starting with `#`) skipped.
pub open spec fn rsp_arguments(lines: Seq<Seq<char>>) -> Seq<Seq<char>>
    decreases lines.len(),
{
    if lines.len() == 0 {
        Seq::empty()
    } else {
        let r = rsp_arguments(lines.drop_last());
        let l = trim_end(trim_start(lines.last()));
        if l.len() == 0 || l[0] == '#' {
            r
        } else {
            r.push(l)
        }
    }
}

/// The arguments that `moonc -rsp-file` reads from `content`.
pub open spec fn rsp_read(content: Seq<char>) -> Seq<Seq<char>> {
    rsp_arguments(split_lines(content))
}

/// Appending text without line breaks extends the last line.
proof fn lemma_split_lines_extend(a: Seq<char>, b: Seq<char>)
    requires
        !b.contains('\n'),
    ensures
        split_lines(a + b) == split_lines(a).update(
            split_lines(a).len() - 1,
            split_lines(a).last() + b,
        ),
        split_lines(a).len() > 0,
    decreases b.len(),
{
    if b.len() == 0 {
        assert(a + b =~= a);
        lemma_split_lines_nonempty(a);
        assert(split_lines(a).last() + b =~= split_lines(a).last());
        assert(split_lines(a).update(split_lines(a).len() - 1, split_lines(a).last()) =~= split_lines(a));
    } else {
        let b0 = b.drop_last();
        assert(!b0.contains('\n')) by {
            if b0.contains('\n') {
                let k = choose|k: int| 0 <= k < b0.len() && b0[k] == '\n';
                assert(b[k] == '\n');
            }
        }
        lemma_split_lines_extend(a, b0);
        assert((a + b).drop_last() =~= a + b0);
        assert(b.last() != '\n') by {
            assert(b[b.len() - 1] == b.last());
        }
        assert((a + b).last() == b.last());
        assert(split_lines(a).last() + b0 + seq![b.last()] =~= split_lines(a).last() + b);
        assert((split_lines(a).last() + b0).push(b.last()) =~= split_lines(a).last() + b);
    }
}

proof fn lemma_split_lines_nonempty(a: Seq<char>)
    ensures
        split_lines(a).len() > 0,
    decreases a.len(),
{
    if a.len() > 0 {
        lemma_split_lines_nonempty(a.drop_last());
    }
}

/// The lines of words joined by line breaks are the words, when no word
/// holds a line break.
proof fn lemma_split_joined(ws: Seq<Seq<char>>)
    requires
        ws.len() > 0,
        forall|i: int| 0 <= i < ws.len() ==> !(#[trigger] ws[i]).contains('\n'),
    ensures
        split_lines(join_sep(ws, '\n')) == ws,
    decreases ws.len(),
{
    if ws.len() == 1 {
        lemma_split_lines_extend(Seq::empty(), ws[0]);
        assert(Seq::<char>::empty() + ws[0] =~= ws[0]);
        assert(Seq::<char>::empty() + ws[0] =~= ws[0]);
        assert(split_lines(ws[0]) =~= ws);
    } else {
        let init = ws.drop_last();
        lemma_split_joined(init);
        let j = join_sep(init, '\n');
        let jn = j + seq!['\n'];
        assert(jn.drop_last() =~= j);
        assert(split_lines(jn) == split_lines(j).push(Seq::empty()));
        lemma_split_lines_extend(jn, ws.last());
        assert(join_sep(ws, '\n') == jn + ws.last());
        assert(Seq::<char>::empty() + ws.last() =~= ws.last());
        assert(split_lines(jn + ws.last()) =~= ws);
    }
}

/// Reading back a response file gives the words written, when each word
/// is one that a response file carries unchanged.
pub proof fn law_rsp_content_round_trip(words: Seq<Seq<char>>)
    requires
        forall|i: int| 0 <= i < words.len() ==> rsp_reason(#[trigger] words[i]) is None,
    ensures
        rsp_read(rsp_content(words)) == words,
{
    let j = join_sep(words, '\n');
    let c = rsp_content(words);
    assert(c.drop_last() =~= j);
    assert(c.last() == '\n');
    assert(split_lines(c) == split_lines(j).push(Seq::empty()));
    let empty = Seq::<char>::empty();
    assert(trim_end(trim_start(empty)) =~= empty);
    if words.len() == 0 {
        assert(j =~= empty);
        assert(split_lines(j) =~= seq![empty]);
        assert(split_lines(c) =~= seq![empty, empty]);
        assert(seq![empty, empty].drop_last() =~= seq![empty]);
        assert(seq![empty].drop_last() =~= Seq::<Seq<char>>::empty());
        assert(seq![empty].last() == empty);
        assert(seq![empty, empty].last() == empty);
        assert(rsp_arguments(Seq::<Seq<char>>::empty()) =~= Seq::<Seq<char>>::empty());
        assert(rsp_arguments(seq![empty]) =~= Seq::<Seq<char>>::empty());
    } else {
        assert forall|i: int| 0 <= i < words.len() implies !(#[trigger] words[i]).contains('\n') by {
            assert(rsp_reason(words[i]) is None);
        }
        lemma_split_joined(words);
        let lines = words.push(empty);
        assert(split_lines(c) =~= lines);
        lemma_rsp_arguments_words(words);
        assert(lines.drop_last() =~= words);
    }
}

proof fn lemma_rsp_arguments_words(words: Seq<Seq<char>>)
    requires
        forall|i: int| 0 <= i < words.len() ==> rsp_reason(#[trigger] words[i]) is None,
    ensures
        rsp_arguments(words) == words,
    decreases words.len(),
{
    if words.len() > 0 {
        let init = words.drop_last();
        assert forall|i: int| 0 <= i < init.len() implies rsp_reason(#[trigger] init[i]) is None by {
            assert(init[i] == words[i]);
        }
        lemma_rsp_arguments_words(init);
        let w = words.last();
        assert(rsp_reason(words[words.len() - 1]) is None);
        assert(trim_start(w) == w);
        assert(trim_end(w) == w);
        assert(init.push(w) =~= words);
    }
}

} // verus!
