//! Rendering argument vectors as shell command lines.

use vstd::prelude::*;

verus! {

/// The command line that `shlex` renders for `words`: each word quoted for a
/// POSIX shell where needed, separated by single spaces.
pub uninterp spec fn shlex_join(words: Seq<Seq<char>>) -> Seq<char>;

/// Whether some word holds a NUL character, which no shell word can carry.
pub open spec fn has_nul_word(words: Seq<Seq<char>>) -> bool {
    exists|i: int| 0 <= i < words.len() && #[trigger] words[i].contains('\0')
}

/// Joins `words` into one shell command line.
///
/// Trusted: calls `shlex::try_join`. Its source quotes every word and joins
/// them with single spaces, and fails only with `QuoteError::Nul`, when a word
/// contains a NUL byte (a UTF-8 string has one exactly when it holds `'\0'`).
/// The quoting itself is not restated; the result is named by `shlex_join`.
#[verifier::external_body]
pub fn join_native(words: &Vec<String>) -> (r: Option<String>)
    ensures
        r is None <==> has_nul_word(words.deep_view()),
        r matches Some(s) ==> s@ == shlex_join(words.deep_view()),
{
    shlex::try_join(words.iter().map(|w| w.as_str())).ok()
}

} // verus!
