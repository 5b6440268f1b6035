//! Regular expressions: compiling a pattern, and asking the compiled
//! pattern about a text.

use vstd::prelude::*;

verus! {

/// Whether the regular expression compiler accepts `pattern`.
pub uninterp spec fn regex_compiles(pattern: Seq<char>) -> bool;

/// Whether the regular expression `pattern` matches somewhere in `text`.
pub uninterp spec fn regex_is_match(pattern: Seq<char>, text: Seq<char>) -> bool;

/// The leftmost part of `text` that the regular expression `pattern`
/// matches, if it matches anywhere.
pub uninterp spec fn regex_first_match(pattern: Seq<char>, text: Seq<char>) -> Option<Seq<char>>;

/// `text` with each part that the regular expression `pattern` matches,
/// found from left to right and not overlapping, replaced by what the
/// replacement `replacement` expands to for it.
pub uninterp spec fn regex_replaced(pattern: Seq<char>, text: Seq<char>, replacement: Seq<char>) -> Seq<char>;

/// The characters that have a meaning of their own in a regular
/// expression.
pub open spec fn is_meta_character(c: char) -> bool {
    c == '\\' || c == '.' || c == '+' || c == '*' || c == '?' || c == '(' || c == ')' || c == '|'
        || c == '[' || c == ']' || c == '{' || c == '}' || c == '^' || c == '$' || c == '#' || c
        == '&' || c == '-' || c == '~'
}

/// `text` with a backslash in front of each meta character.
pub open spec fn escaped(text: Seq<char>) -> Seq<char>
    decreases text.len(),
{
    if text.len() == 0 {
        Seq::empty()
    } else if is_meta_character(text.last()) {
        escaped(text.drop_last()).push('\\').push(text.last())
    } else {
        escaped(text.drop_last()).push(text.last())
    }
}

/// A compiled regular expression together with the pattern it was compiled
/// from.
#[derive(Debug)]
pub struct Pattern {
    source: String,
    regex: regex::Regex,
}

impl View for Pattern {
    type V = Seq<char>;

    closed spec fn view(&self) -> Seq<char> {
        self.source@
    }
}

/// Why a pattern was refused.
#[derive(Debug, PartialEq, Eq)]
pub struct PatternError {
    /// What the compiler said of the pattern.
    pub message: String,
}

/// `regex::escape`: every meta character of the text gets a backslash in
/// front of it, and nothing else changes.
#[verifier::external_body]
fn regex_escape(text: &str) -> (quoted: String)
    ensures
        quoted@ == escaped(text@),
{
    regex::escape(text)
}

/// `regex::Regex::new`: the compiler answers with a compiled expression
/// exactly when it accepts the pattern, and the expression keeps the
/// pattern; where it refuses the pattern, it answers with its error, here by
/// the text that the error displays.
#[verifier::external_body]
fn regex_new(source: &str) -> (compiled: Result<Pattern, String>)
    ensures
        compiled is Ok <==> regex_compiles(source@),
        compiled is Ok ==> compiled->Ok_0@ == source@,
{
    match regex::Regex::new(source) {
        Ok(regex) => Ok(Pattern { source: source.to_string(), regex }),
        Err(error) => Err(error.to_string()),
    }
}

/// `regex::Regex::is_match`: whether the expression matches somewhere in
/// the text.
#[verifier::external_body]
fn regex_matches(pattern: &Pattern, text: &str) -> (found: bool)
    ensures
        found == regex_is_match(pattern@, text@),
{
    pattern.regex.is_match(text)
}

/// `regex::Regex::find`: the leftmost match in the text, as a string of
/// its own.
#[verifier::external_body]
fn regex_find(pattern: &Pattern, text: &str) -> (found: Option<String>)
    ensures
        found is Some <==> regex_first_match(pattern@, text@) is Some,
        found is Some ==> found->0@ == regex_first_match(pattern@, text@)->0,
{
    pattern.regex.find(text).map(|found| found.as_str().to_string())
}

/// `regex::Regex::replace_all`: the text with every match replaced by the
/// expansion of the replacement.
#[verifier::external_body]
fn regex_replace_all(pattern: &Pattern, text: &str, replacement: &str) -> (replaced: String)
    ensures
        replaced@ == regex_replaced(pattern@, text@, replacement@),
{
    pattern.regex.replace_all(text, replacement).into_owned()
}

/// `text` with every meta character escaped, so that as a regular
/// expression it matches `text` literally.
pub fn escape(text: &str) -> (quoted: String)
    ensures
        quoted@ == escaped(text@),
{
    regex_escape(text)
}

impl Pattern {
    /// Compiles `source`. The error tells why the compiler refused it.
    pub fn compile(source: &str) -> (compiled: Result<Pattern, PatternError>)
        ensures
            compiled is Ok <==> regex_compiles(source@),
            compiled is Ok ==> compiled->Ok_0@ == source@,
    {
        match regex_new(source) {
            Ok(pattern) => Ok(pattern),
            Err(message) => Err(PatternError { message }),
        }
    }

    /// The pattern this expression was compiled from.
    pub fn as_str(&self) -> (source: &str)
        ensures
            source@ == self@,
    {
        self.source.as_str()
    }

    /// Whether the expression matches somewhere in `text`.
    pub fn is_match(&self, text: &str) -> (found: bool)
        ensures
            found == regex_is_match(self@, text@),
    {
        regex_matches(self, text)
    }

    /// `text` with each match of the expression replaced by what
    /// `replacement` expands to for it.
    pub fn replace_all(&self, text: &str, replacement: &str) -> (replaced: String)
        ensures
            replaced@ == regex_replaced(self@, text@, replacement@),
    {
        regex_replace_all(self, text, replacement)
    }

    /// The leftmost part of `text` that the expression matches.
    pub fn find(&self, text: &str) -> (found: Option<String>)
        ensures
            found is Some <==> regex_first_match(self@, text@) is Some,
            found is Some ==> found->0@ == regex_first_match(self@, text@)->0,
    {
        regex_find(self, text)
    }
}

} // verus!
