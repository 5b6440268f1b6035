//! A list of rules, and the choice of the rule that a page is extracted
//! with.

use vstd::prelude::*;
use crate::extractor::{document_tidy_all, yields, Extraction};
use crate::rule::{applicable, Rule, RuleModel};
use crate::website::Website;

verus! {

/// Why nothing was extracted from a page.
#[derive(Clone, Copy, Debug, PartialEq, Eq, Structural)]
pub enum ExtractError {
    /// The page has no parsed document.
    NoDocument,
    /// No rule is for the address of the page.
    NoMatchingRule,
    /// The document of the page is being written to and cannot be read.
    Unreadable,
}

impl ExtractError {
    /// The error in words.
    pub fn message(&self) -> (message: &'static str)
        ensures
            message@ == match self {
                ExtractError::NoDocument => "This website has no DOM"@,
                ExtractError::NoMatchingRule => "No rule matching this website"@,
                ExtractError::Unreadable => "The document of this website is being written to"@,
            },
    {
        match self {
            ExtractError::NoDocument => "This website has no DOM",
            ExtractError::NoMatchingRule => "No rule matching this website",
            ExtractError::Unreadable => "The document of this website is being written to",
        }
    }
}

/// Rules in the order in which they are tried.
#[derive(Debug)]
pub struct Rules {
    rules: Vec<Rule>,
}

/// The values of a sequence of rules, in order.
pub open spec fn rules_view(rules: Seq<Rule>) -> Seq<RuleModel> {
    Seq::new(rules.len(), |i: int| rules[i]@)
}

impl View for Rules {
    type V = Seq<RuleModel>;

    closed spec fn view(&self) -> Seq<RuleModel> {
        rules_view(self.rules@)
    }
}

/// The place of the first rule of `rules`, from the one at `from` on, that
/// is for `url`; the length of `rules` where none is.
pub open spec fn first_applicable(rules: Seq<RuleModel>, url: Seq<char>, from: int) -> int
    decreases rules.len() - from,
{
    if from < 0 || from >= rules.len() {
        rules.len() as int
    } else if applicable(rules[from].matchers, url) {
        from
    } else {
        first_applicable(rules, url, from + 1)
    }
}

impl Default for Rules {
    /// No rules.
    fn default() -> (rules: Rules)
        ensures
            rules@ == Seq::<RuleModel>::empty(),
    {
        let rules = Rules { rules: Vec::new() };
        assert(rules@ =~= Seq::empty());
        rules
    }
}

impl Rules {
    /// The given rules, in their order.
    pub fn new(rules: Vec<Rule>) -> (list: Rules)
        ensures
            list@ == rules_view(rules@),
    {
        Rules { rules }
    }

    /// The rules, in the order in which they are tried.
    pub fn rules(&self) -> (rules: &Vec<Rule>)
        ensures
            rules_view(rules@) == self@,
    {
        &self.rules
    }

    /// Adds the rules of `other` behind those of this list, in their
    /// order.
    pub fn append(&mut self, other: Rules)
        ensures
            final(self)@ == old(self)@ + other@,
    {
        let mut other = other;
        let ghost added = other@;
        self.rules.append(&mut other.rules);
        assert(self@ =~= old(self)@ + added);
    }

    /// Extracts the documents of `website` with the first rule that is
    /// for its address. A page without a document gives `NoDocument`, a
    /// page that no rule is for `NoMatchingRule`, and a page whose document
    /// is being written to `Unreadable`.
    pub fn extract(&self, website: &Website) -> (extraction: Result<Extraction, ExtractError>)
        ensures
            website.dom is None ==> extraction == Err::<Extraction, ExtractError>(ExtractError::NoDocument),
            website.dom is Some && first_applicable(self@, website.request_url@, 0) == self@.len()
                ==> extraction == Err::<Extraction, ExtractError>(ExtractError::NoMatchingRule),
            website.dom is Some && first_applicable(self@, website.request_url@, 0) < self@.len() ==> {
                ||| extraction == Err::<Extraction, ExtractError>(ExtractError::Unreadable)
                ||| {
                    &&& extraction is Ok
                    &&& yields(
                        self@[first_applicable(self@, website.request_url@, 0)].extractor,
                        extraction->Ok_0@,
                    )
                    &&& document_tidy_all(extraction->Ok_0@.documents)
                }
            },
    {
        if website.dom.is_none() {
            return Err(ExtractError::NoDocument);
        }
        let dom = website.dom.as_ref().unwrap();
        let mut i: usize = 0;
        while i < self.rules.len()
            invariant
                i <= self.rules.len(),
                website.dom is Some,
                first_applicable(self@, website.request_url@, 0) == first_applicable(
                    self@,
                    website.request_url@,
                    i as int,
                ),
            decreases self.rules.len() - i,
        {
            assert(self@[i as int] == self.rules[i as int]@);
            if self.rules[i].applies_to(website) {
                return match self.rules[i].extractor().extract(dom) {
                    Some(extraction) => Ok(extraction),
                    None => Err(ExtractError::Unreadable),
                };
            }
            i += 1;
        }
        Err(ExtractError::NoMatchingRule)
    }
}

} // verus!
