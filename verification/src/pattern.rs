//! Regular expressions, compiled by the `regex` crate and named by their source.

use vstd::prelude::*;
use crate::text::collapse_whitespace;

verus! {

#[verifier::external_type_specification]
#[verifier::external_body]
pub struct ExRegex(regex::Regex);

/// A compiled regular expression together with the pattern it was compiled from.
/// Only `Pattern::compile` makes one, so the two always agree.
pub struct Pattern {
    source: String,
    compiled: regex::Regex,
}

impl View for Pattern {
    type V = Seq<char>;

    /// The pattern the expression was compiled from.
    closed spec fn view(&self) -> Seq<char> {
        self.source@
    }
}

/// What `regex::Regex::replace` returns for the expression compiled from
/// `pattern`: `text` with its leftmost-first match replaced by `replacement`.
pub uninterp spec fn regex_replace_leftmost(pattern: Seq<char>, text: Seq<char>, replacement: Seq<char>) -> Seq<char>;

/// What `regex::Regex::replace_all` returns for the expression compiled from
/// `pattern`: `text` with every non-overlapping match replaced by `replacement`.
pub uninterp spec fn regex_replace_every(pattern: Seq<char>, text: Seq<char>, replacement: Seq<char>) -> Seq<char>;

/// Whether `regex::Regex::new` accepts `pattern` (it is valid syntax and fits
/// the default size limits).
pub uninterp spec fn regex_compiles(pattern: Seq<char>) -> bool;

impl Pattern {
    /// `regex::Regex::new(source)`: the compiled expression, or `None` when the
    /// pattern is not a valid regular expression or exceeds the default size
    /// limits. Which patterns those are is named by `regex_compiles`, a function
    /// of the pattern alone; nothing more is claimed of it.
    #[verifier::external_body]
    pub fn compile(source: &str) -> (r: Option<Pattern>)
        ensures
            r is Some <==> regex_compiles(source@),
            r matches Some(p) ==> p@ == source@,
    {
        regex::Regex::new(source).ok().map(|compiled| Pattern { source: source.to_string(), compiled })
    }

    /// `regex::Regex::replace`: `text` with the leftmost-first match replaced by
    /// `replacement`; a function of the pattern and the two strings.
    #[verifier::external_body]
    pub fn replace_leftmost(&self, text: &str, replacement: &str) -> (r: String)
        ensures
            r@ == regex_replace_leftmost(self@, text@, replacement@),
    {
        self.compiled.replace(text, replacement).into_owned()
    }

    /// `regex::Regex::replace_all`: `text` with every non-overlapping match
    /// replaced by `replacement`; a function of the pattern and the two strings.
    /// For the pattern `\s+` (one or more characters of the Unicode
    /// `White_Space` class) and the replacement `" "`, each leftmost match is a
    /// whole run of such characters, so the result is the text with every run
    /// collapsed to one space.
    #[verifier::external_body]
    pub fn replace_every(&self, text: &str, replacement: &str) -> (r: String)
        ensures
            r@ == regex_replace_every(self@, text@, replacement@),
            self@ == "\\s+"@ && replacement@ == " "@ ==> r@ == collapse_whitespace(text@),
    {
        self.compiled.replace_all(text, replacement).into_owned()
    }
}

} // verus!
