//! Compiled regular expressions.
//!
//! A [`Pattern`] is known by the text it was compiled from. What that text
//! matches is the business of the `regex` crate; here it only has a name.
use regex::Regex;
use vstd::prelude::*;

use crate::text::join3;

verus! {

/// `regex::Regex`, whose inside is not looked at.
#[verifier::external_type_specification]
#[verifier::external_body]
pub struct ExRegex(regex::Regex);

/// What is wrong with a regular expression, in the words of `regex::Error`, or
/// `None` where `Regex::new` compiles it. A syntax error depends on the text
/// alone; the limit on the compiled size also counts words of memory, so the
/// width of a word in bits is an argument.
pub uninterp spec fn regex_error(source: Seq<char>, word_bits: nat) -> Option<Seq<char>>;

/// Whether the regular expression `source`, once compiled, finds a match in
/// `text`, as `Regex::is_match` answers.
pub uninterp spec fn source_is_match(source: Seq<char>, text: Seq<char>) -> bool;

/// What is wrong with a regular expression on the machine at hand.
pub open spec fn error_here(source: Seq<char>) -> Option<Seq<char>> {
    regex_error(source, usize::BITS as nat)
}

/// A compiled regular expression together with its text. The fields are private
/// and [`Pattern::compile`] is the only function that fills them, so the two
/// always belong together.
pub struct Pattern {
    source: String,
    compiled: Regex,
}

impl View for Pattern {
    type V = Seq<char>;

    closed spec fn view(&self) -> Seq<char> {
        self.source@
    }
}

impl Pattern {
    /// Calls `regex::Regex::new`: either the text compiles, and the pattern
    /// remembers it, or the error's message comes back. Whether it compiles and
    /// what the message says depend on nothing but the text and the width of a
    /// machine word.
    #[verifier::external_body]
    pub(crate) fn compile(source: &str) -> (r: Result<Pattern, String>)
        ensures
            r matches Ok(p) ==> p@ == source@ && regex_error(source@, usize::BITS as nat) is None,
            r matches Err(message) ==> regex_error(source@, usize::BITS as nat) == Some(message@),
    {
        match Regex::new(source) {
            Ok(compiled) => Ok(Pattern { source: source.to_string(), compiled }),
            Err(e) => Err(e.to_string()),
        }
    }

    /// Calls `regex::Regex::is_match`: whether there is a match anywhere in
    /// `text`. The answer depends on nothing but the text of the regular
    /// expression, which `Regex::new` compiled with its default settings, and
    /// `text`.
    #[verifier::external_body]
    pub(crate) fn is_match(&self, text: &str) -> (b: bool)
        ensures
            b == source_is_match(self@, text@),
    {
        self.compiled.is_match(text)
    }
}

/// The regular expression that matches where `source` matches a whole text.
pub open spec fn anchored(source: Seq<char>) -> Seq<char> {
    "^(?:"@ + source + ")$"@
}

/// Anchors a regular expression so that it has to match a whole text.
pub fn anchor(source: &str) -> (r: String)
    ensures
        r@ == anchored(source@),
{
    join3("^(?:", source, ")$")
}

} // verus!
