//! Matching the address of a page against glob patterns.

use vstd::prelude::*;
use crate::pattern::{escape, escaped, regex_compiles, regex_is_match, Pattern, PatternError};
use crate::text::{from_chars, push_chars, to_chars};
use crate::website::Website;

verus! {

/// Whether the escaped form of `/**` stands in `text` at `at`.
pub open spec fn slash_superglob_at(text: Seq<char>, at: int) -> bool {
    at + 5 <= text.len() && text[at] == '/' && text[at + 1] == '\\' && text[at + 2] == '*' && text[at
        + 3] == '\\' && text[at + 4] == '*'
}

/// Whether the escaped form of `**` stands in `text` at `at`.
pub open spec fn superglob_at(text: Seq<char>, at: int) -> bool {
    at + 4 <= text.len() && text[at] == '\\' && text[at + 1] == '*' && text[at + 2] == '\\' && text[at
        + 3] == '*'
}

/// Whether the escaped form of `/*` stands in `text` at `at`.
pub open spec fn slash_glob_at(text: Seq<char>, at: int) -> bool {
    at + 3 <= text.len() && text[at] == '/' && text[at + 1] == '\\' && text[at + 2] == '*'
}

/// Whether the escaped form of `*` stands in `text` at `at`.
pub open spec fn glob_at(text: Seq<char>, at: int) -> bool {
    at + 2 <= text.len() && text[at] == '\\' && text[at + 1] == '*'
}

/// The part of the escaped pattern `text` from `at` on, with each glob
/// replaced by the expression it stands for; where several globs begin at
/// one place, the longest is taken.
pub open spec fn globs_replaced(text: Seq<char>, at: int) -> Seq<char>
    decreases text.len() - at,
{
    if at < 0 || at >= text.len() {
        Seq::empty()
    } else if slash_superglob_at(text, at) {
        "(?:/.*)?"@ + globs_replaced(text, at + 5)
    } else if superglob_at(text, at) {
        ".*"@ + globs_replaced(text, at + 4)
    } else if slash_glob_at(text, at) {
        "(?:/[^/]*)?"@ + globs_replaced(text, at + 3)
    } else if glob_at(text, at) {
        "[^/]*"@ + globs_replaced(text, at + 2)
    } else {
        seq![text[at]] + globs_replaced(text, at + 1)
    }
}

/// The regular expression that the glob `pattern` stands for: the pattern
/// taken literally but for its globs, and anchored at both ends.
pub open spec fn glob_regex(pattern: Seq<char>) -> Seq<char> {
    "^"@ + globs_replaced(escaped(pattern), 0) + "$"@
}

/// Lemma: what `globs_replaced` gives from `at` on, split at the end of
/// the glob or character that stands at `at`.
proof fn lemma_globs_replaced_step(text: Seq<char>, at: int)
    requires
        0 <= at < text.len(),
    ensures
        slash_superglob_at(text, at) ==> globs_replaced(text, at) == "(?:/.*)?"@ + globs_replaced(
            text,
            at + 5,
        ),
        !slash_superglob_at(text, at) && superglob_at(text, at) ==> globs_replaced(text, at) == ".*"@
            + globs_replaced(text, at + 4),
        !slash_superglob_at(text, at) && !superglob_at(text, at) && slash_glob_at(text, at)
            ==> globs_replaced(text, at) == "(?:/[^/]*)?"@ + globs_replaced(text, at + 3),
        !slash_superglob_at(text, at) && !superglob_at(text, at) && !slash_glob_at(text, at) && glob_at(
            text,
            at,
        ) ==> globs_replaced(text, at) == "[^/]*"@ + globs_replaced(text, at + 2),
        !slash_superglob_at(text, at) && !superglob_at(text, at) && !slash_glob_at(text, at) && !glob_at(
            text,
            at,
        ) ==> globs_replaced(text, at) == seq![text[at]] + globs_replaced(text, at + 1),
{
}

/// Replaces each glob of the escaped pattern `text` by the expression it
/// stands for.
fn replace_globs(text: &Vec<char>) -> (out: Vec<char>)
    ensures
        out@ == globs_replaced(text@, 0),
{
    let mut out: Vec<char> = Vec::new();
    let n = text.len();
    let mut at: usize = 0;
    while at < n
        invariant
            n == text.len(),
            at <= n,
            out@ + globs_replaced(text@, at as int) == globs_replaced(text@, 0),
        decreases n - at,
    {
        proof {
            lemma_globs_replaced_step(text@, at as int);
        }
        let ghost before = out@;
        let ghost here = globs_replaced(text@, at as int);
        let slash = text[at] == '/';
        let first = if slash { at + 1 } else { at };
        let star = n - first >= 2 && text[first] == '\\' && text[first + 1] == '*';
        let second = star && n - first >= 4 && text[first + 2] == '\\' && text[first + 3] == '*';
        if slash && second {
            push_chars(&mut out, "(?:/.*)?");
            at += 5;
        } else if !slash && second {
            push_chars(&mut out, ".*");
            at += 4;
        } else if slash && star {
            push_chars(&mut out, "(?:/[^/]*)?");
            at += 3;
        } else if !slash && star {
            push_chars(&mut out, "[^/]*");
            at += 2;
        } else {
            out.push(text[at]);
            assert(out@ =~= before + seq![text@[at as int]]);
            at += 1;
        }
        assert(out@ + globs_replaced(text@, at as int) =~= before + here);
    }
    assert(out@ + Seq::<char>::empty() =~= out@);
    out
}

/// Something that accepts or refuses a page.
pub trait Matcher {
    /// Whether a page asked for at `url` is accepted.
    spec fn accepts(&self, url: Seq<char>) -> bool;

    /// Whether `website` is accepted.
    fn matches(&self, website: &Website) -> (accepted: bool)
        ensures
            accepted == self.accepts(website.request_url@),
    ;
}

/// Accepts the pages whose address matches a glob pattern.
#[derive(Debug)]
pub struct URLMatcher {
    re: Pattern,
}

impl View for URLMatcher {
    type V = Seq<char>;

    /// The regular expression that the glob of this matcher stands for.
    closed spec fn view(&self) -> Seq<char> {
        self.re@
    }
}

impl URLMatcher {
    /// The matcher for the glob `pattern`.
    pub fn new(pattern: &str) -> (matcher: Result<URLMatcher, PatternError>)
        ensures
            matcher is Ok <==> regex_compiles(glob_regex(pattern@)),
            matcher is Ok ==> matcher->Ok_0@ == glob_regex(pattern@),
    {
        match URLMatcher::compile_pattern(pattern) {
            Ok(re) => Ok(URLMatcher { re }),
            Err(error) => Err(error),
        }
    }

    /// The compiled regular expression that the glob `pattern` stands
    /// for.
    pub fn compile_pattern(pattern: &str) -> (compiled: Result<Pattern, PatternError>)
        ensures
            compiled is Ok <==> regex_compiles(glob_regex(pattern@)),
            compiled is Ok ==> compiled->Ok_0@ == glob_regex(pattern@),
    {
        let quoted = escape(pattern);
        let mut body = replace_globs(&to_chars(quoted.as_str()));
        let mut expression: Vec<char> = Vec::new();
        push_chars(&mut expression, "^");
        expression.append(&mut body);
        push_chars(&mut expression, "$");
        assert(expression@ =~= glob_regex(pattern@));
        Pattern::compile(from_chars(&expression).as_str())
    }

    /// The regular expression that the glob of this matcher stands for.
    pub fn as_str(&self) -> (source: &str)
        ensures
            source@ == self@,
    {
        self.re.as_str()
    }

    /// Whether the whole of `url` matches the glob of this matcher.
    pub fn matches_url(&self, url: &str) -> (accepted: bool)
        ensures
            accepted == regex_is_match(self@, url@),
    {
        self.re.is_match(url)
    }
}

impl Matcher for URLMatcher {
    open spec fn accepts(&self, url: Seq<char>) -> bool {
        regex_is_match(self@, url)
    }

    fn matches(&self, website: &Website) -> (accepted: bool) {
        self.matches_url(website.request_url.as_str())
    }
}

} // verus!
