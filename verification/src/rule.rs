//! A rule: a name, the addresses it is meant for, and the extractor for
//! the pages at those addresses.

use vstd::prelude::*;
use crate::extractor::{Extractor, ExtractorModel};
use crate::matcher::URLMatcher;
use crate::pattern::regex_is_match;
use crate::website::Website;

verus! {

/// A named extractor with the matchers that say which pages it is for.
#[derive(Debug)]
pub struct Rule {
    name: String,
    matchers: Vec<URLMatcher>,
    extractor: Extractor,
}

/// The mathematical value of a [`Rule`].
pub struct RuleModel {
    pub name: Seq<char>,
    /// The regular expression of each matcher.
    pub matchers: Seq<Seq<char>>,
    pub extractor: ExtractorModel,
}

/// The values of a sequence of matchers, in order.
pub open spec fn matchers_view(matchers: Seq<URLMatcher>) -> Seq<Seq<char>> {
    Seq::new(matchers.len(), |i: int| matchers[i]@)
}

/// Whether one of the regular expressions of `matchers` matches `url`.
pub open spec fn applicable(matchers: Seq<Seq<char>>, url: Seq<char>) -> bool {
    exists|i: int| 0 <= i < matchers.len() && regex_is_match(#[trigger] matchers[i], url)
}

impl View for Rule {
    type V = RuleModel;

    closed spec fn view(&self) -> RuleModel {
        RuleModel { name: self.name@, matchers: matchers_view(self.matchers@), extractor: self.extractor@ }
    }
}

impl Rule {
    /// A rule without matchers: it is for no page yet.
    pub fn new(name: String, extractor: Extractor) -> (rule: Rule)
        ensures
            rule@ == (RuleModel { name: name@, matchers: Seq::empty(), extractor: extractor@ }),
    {
        let rule = Rule { name, matchers: Vec::new(), extractor };
        assert(matchers_view(rule.matchers@) =~= Seq::empty());
        rule
    }

    /// Adds a matcher: the rule is then also for the pages that it
    /// accepts.
    pub fn add_matcher(&mut self, matcher: URLMatcher)
        ensures
            final(self)@ == (RuleModel { matchers: old(self)@.matchers.push(matcher@), ..old(self)@ }),
    {
        let ghost added = matcher@;
        self.matchers.push(matcher);
        assert(matchers_view(self.matchers@) =~= matchers_view(old(self).matchers@).push(added));
    }

    /// The name of the rule.
    pub fn name(&self) -> (name: &str)
        ensures
            name@ == self@.name,
    {
        self.name.as_str()
    }

    /// The extractor of the rule.
    pub fn extractor(&self) -> (extractor: &Extractor)
        ensures
            extractor@ == self@.extractor,
    {
        &self.extractor
    }

    /// The matchers of the rule, in the order in which they were added.
    pub fn matchers(&self) -> (matchers: &Vec<URLMatcher>)
        ensures
            matchers_view(matchers@) == self@.matchers,
    {
        &self.matchers
    }

    /// Whether the rule is for `website`: whether one of its matchers
    /// accepts the address the page was asked for.
    pub fn applies_to(&self, website: &Website) -> (applies: bool)
        ensures
            applies == applicable(self@.matchers, website.request_url@),
    {
        let mut i: usize = 0;
        while i < self.matchers.len()
            invariant
                i <= self.matchers.len(),
                forall|j: int| 0 <= j < i ==> !regex_is_match(#[trigger] self@.matchers[j], website.request_url@),
            decreases self.matchers.len() - i,
        {
            assert(self@.matchers[i as int] == self.matchers[i as int]@);
            if self.matchers[i].matches_url(website.request_url.as_str()) {
                return true;
            }
            i += 1;
        }
        false
    }
}

} // verus!
