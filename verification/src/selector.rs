//! Selectors: a semantic role, the query that finds its elements, and a
//! priority; and the order in which competing selectors are tried.

use vstd::prelude::*;
use crate::dom::{open_node, ReadableNode};

verus! {

/// The semantic role that a selector gives to the elements it matches.
#[derive(Copy, Clone, Debug, PartialEq, Eq, Structural)]
pub enum SelectorKind {
    Date,
    Emphasis,
    Header1,
    Header2,
    Header3,
    Image,
    Link,
    List,
    ListItem,
    Paragraph,
    PublicationDate,
    Title,
}

impl SelectorKind {
    /// The name under which a rule definition gives the query of this role.
    pub open spec fn spec_name(&self) -> Seq<char> {
        match self {
            SelectorKind::Date => "date"@,
            SelectorKind::Emphasis => "emphasis"@,
            SelectorKind::Header1 => "header1"@,
            SelectorKind::Header2 => "header2"@,
            SelectorKind::Header3 => "header3"@,
            SelectorKind::Image => "image"@,
            SelectorKind::Link => "link"@,
            SelectorKind::List => "list"@,
            SelectorKind::ListItem => "list-item"@,
            SelectorKind::Paragraph => "paragraph"@,
            SelectorKind::PublicationDate => "publicaton-date"@,
            SelectorKind::Title => "title"@,
        }
    }

    /// The name under which a rule definition gives the query of this role.
    pub fn name(&self) -> (name: &'static str)
        ensures
            name@ == self.spec_name(),
    {
        match self {
            SelectorKind::Date => "date",
            SelectorKind::Emphasis => "emphasis",
            SelectorKind::Header1 => "header1",
            SelectorKind::Header2 => "header2",
            SelectorKind::Header3 => "header3",
            SelectorKind::Image => "image",
            SelectorKind::Link => "link",
            SelectorKind::List => "list",
            SelectorKind::ListItem => "list-item",
            SelectorKind::Paragraph => "paragraph",
            SelectorKind::PublicationDate => "publicaton-date",
            SelectorKind::Title => "title",
        }
    }

    /// The name of this role as an owned string.
    pub fn to_string(&self) -> (name: String)
        ensures
            name@ == self.spec_name(),
    {
        self.name().to_owned()
    }
}

/// Every role, in the order in which a rule definition is read.
pub open spec fn spec_all_selector_kinds() -> Seq<SelectorKind> {
    seq![
        SelectorKind::Date,
        SelectorKind::Emphasis,
        SelectorKind::Header1,
        SelectorKind::Header2,
        SelectorKind::Header3,
        SelectorKind::Image,
        SelectorKind::Link,
        SelectorKind::List,
        SelectorKind::ListItem,
        SelectorKind::Paragraph,
        SelectorKind::PublicationDate,
        SelectorKind::Title,
    ]
}

/// Every role, in the order in which a rule definition is read.
pub fn all_selector_kinds() -> (kinds: Vec<SelectorKind>)
    ensures
        kinds@ == spec_all_selector_kinds(),
{
    let kinds = vec![
        SelectorKind::Date,
        SelectorKind::Emphasis,
        SelectorKind::Header1,
        SelectorKind::Header2,
        SelectorKind::Header3,
        SelectorKind::Image,
        SelectorKind::Link,
        SelectorKind::List,
        SelectorKind::ListItem,
        SelectorKind::Paragraph,
        SelectorKind::PublicationDate,
        SelectorKind::Title,
    ];
    assert(kinds@ =~= spec_all_selector_kinds());
    kinds
}

/// Whether the selector compiler accepts `source` as a list of CSS
/// selectors.
pub uninterp spec fn selector_compiles(source: Seq<char>) -> bool;

/// A compiled query together with the text it was compiled from.
#[derive(Debug)]
pub struct Query {
    source: String,
    compiled: kuchiki::Selectors,
}

impl View for Query {
    type V = Seq<char>;

    closed spec fn view(&self) -> Seq<char> {
        self.source@
    }
}

/// `kuchiki::Selectors::compile`: the compiler answers with a query exactly
/// when it accepts the text, and the query keeps that text.
#[verifier::external_body]
fn compile_selectors(source: &str) -> (compiled: Option<Query>)
    ensures
        compiled is Some <==> selector_compiles(source@),
        compiled is Some ==> compiled->0@ == source@,
{
    match kuchiki::Selectors::compile(source) {
        Ok(compiled) => Some(Query { source: source.to_string(), compiled }),
        Err(()) => None,
    }
}

/// `kuchiki::Selectors::matches`: whether the node is an element that one
/// of the selectors of the query matches, as the document stands at the
/// time of the call. The node is one of a document that nothing is being
/// written to, so that every cell that the matching reads can be borrowed.
#[verifier::external_body]
fn selectors_match(query: &Query, node: &ReadableNode) -> (matched: bool) {
    node.node().clone().into_element_ref().map_or(false, |element| query.compiled.matches(&element))
}

impl Query {
    /// Whether `node` is an element that this query matches, as the
    /// document stands at the time of the call. Nothing matches in a
    /// document that is being written to.
    pub fn matches(&self, node: &kuchiki::NodeRef) -> (matched: bool) {
        match open_node(node) {
            Some(node) => selectors_match(self, &node),
            None => false,
        }
    }

    /// Whether `node` is an element that this query matches.
    pub(crate) fn matches_node(&self, node: &ReadableNode) -> (matched: bool) {
        selectors_match(self, node)
    }

    /// Compiles a list of CSS selectors. `None` when the text is no valid
    /// selector list.
    pub fn compile(source: &str) -> (query: Option<Query>)
        ensures
            query is Some <==> selector_compiles(source@),
            query is Some ==> query->0@ == source@,
    {
        compile_selectors(source)
    }

    /// The text this query was compiled from.
    pub fn source(&self) -> (source: &str)
        ensures
            source@ == self@,
    {
        self.source.as_str()
    }
}

/// A query with the role it gives and the priority it is tried with.
#[derive(Debug)]
pub struct Selector {
    kind: SelectorKind,
    query: Query,
    priority: u16,
}

/// The mathematical value of a [`Selector`].
pub struct SelectorModel {
    pub kind: SelectorKind,
    pub query: Seq<char>,
    pub priority: u16,
}

impl View for Selector {
    type V = SelectorModel;

    closed spec fn view(&self) -> SelectorModel {
        SelectorModel { kind: self.kind, query: self.query@, priority: self.priority }
    }
}

impl Selector {
    /// A selector of priority 0.
    pub fn new(kind: SelectorKind, query: Query) -> (selector: Selector)
        ensures
            selector@ == (SelectorModel { kind, query: query@, priority: 0 }),
    {
        Selector { kind, query, priority: 0 }
    }

    /// The same selector with priority `p`; among competing selectors the
    /// higher priority wins.
    pub fn priority(self, p: u16) -> (selector: Selector)
        ensures
            selector@ == (SelectorModel { priority: p, ..self@ }),
    {
        Selector { kind: self.kind, query: self.query, priority: p }
    }

    /// The role of this selector.
    pub fn kind(&self) -> (kind: SelectorKind)
        ensures
            kind == self@.kind,
    {
        self.kind
    }

    /// The query of this selector.
    pub fn query(&self) -> (query: &Query)
        ensures
            query@ == self@.query,
    {
        &self.query
    }

    /// The priority of this selector.
    pub fn rank(&self) -> (priority: u16)
        ensures
            priority == self@.priority,
    {
        self.priority
    }
}

/// The values of a sequence of selectors, in order.
pub open spec fn selectors_view(selectors: Seq<Selector>) -> Seq<SelectorModel> {
    Seq::new(selectors.len(), |i: int| selectors[i]@)
}

/// Where a selector of priority `priority` goes into `order`: behind every
/// leading selector whose priority is at least `priority`, before the first
/// one of lower priority.
pub open spec fn insertion_index(order: Seq<SelectorModel>, priority: u16) -> int
    decreases order.len(),
{
    if order.len() == 0 || order[0].priority < priority {
        0
    } else {
        1 + insertion_index(order.drop_first(), priority)
    }
}

/// `order` with `selector` added at its place.
pub open spec fn place(order: Seq<SelectorModel>, selector: SelectorModel) -> Seq<SelectorModel> {
    order.insert(insertion_index(order, selector.priority), selector)
}

/// Priorities never rise from one selector to the next.
pub open spec fn descending(order: Seq<SelectorModel>) -> bool {
    forall|i: int, j: int| 0 <= i < j < order.len() ==> order[i].priority >= order[j].priority
}

/// The insertion index lies within the sequence, everything before it has
/// a priority of at least `priority`, and the selector at it, if any, has a
/// lower one.
pub proof fn lemma_insertion_index(order: Seq<SelectorModel>, priority: u16)
    ensures
        0 <= insertion_index(order, priority) <= order.len(),
        forall|i: int| 0 <= i < insertion_index(order, priority) ==> order[i].priority >= priority,
        insertion_index(order, priority) < order.len() ==> order[insertion_index(order, priority)].priority
            < priority,
    decreases order.len(),
{
    if order.len() == 0 || order[0].priority < priority {
    } else {
        let rest = order.drop_first();
        lemma_insertion_index(rest, priority);
        assert forall|i: int| 0 <= i < insertion_index(order, priority) implies order[i].priority >= priority by {
            if i > 0 {
                assert(order[i] == rest[i - 1]);
            }
        }
        if insertion_index(order, priority) < order.len() {
            assert(order[insertion_index(order, priority)] == rest[insertion_index(rest, priority)]);
        }
    }
}

/// Placing a selector into a descending order leaves it descending.
pub proof fn lemma_place_keeps_descending(order: Seq<SelectorModel>, selector: SelectorModel)
    requires
        descending(order),
    ensures
        descending(place(order, selector)),
{
    let k = insertion_index(order, selector.priority);
    lemma_insertion_index(order, selector.priority);
    let placed = place(order, selector);
    assert forall|i: int, j: int| 0 <= i < j < placed.len() implies placed[i].priority >= placed[j].priority by {
        if j < k {
            assert(placed[i] == order[i] && placed[j] == order[j]);
        } else if j == k {
            assert(placed[i] == order[i]);
        } else if i == k {
            assert(placed[j] == order[j - 1]);
            assert(order[k].priority >= order[j - 1].priority || k == j - 1);
        } else if i < k {
            assert(placed[i] == order[i] && placed[j] == order[j - 1]);
        } else {
            assert(placed[i] == order[i - 1] && placed[j] == order[j - 1]);
        }
    }
}

/// The order that results from inserting the selectors of `inserted` one
/// after another into an empty set.
pub open spec fn arrange(inserted: Seq<SelectorModel>) -> Seq<SelectorModel>
    decreases inserted.len(),
{
    if inserted.len() == 0 {
        Seq::empty()
    } else {
        place(arrange(inserted.drop_last()), inserted.last())
    }
}

/// For each place of `arrange(inserted)`, the number of the insertion that
/// filled it.
pub open spec fn arrange_sources(inserted: Seq<SelectorModel>) -> Seq<int>
    decreases inserted.len(),
{
    if inserted.len() == 0 {
        Seq::empty()
    } else {
        arrange_sources(inserted.drop_last()).insert(
            insertion_index(arrange(inserted.drop_last()), inserted.last().priority),
            inserted.len() - 1,
        )
    }
}

/// Whatever selectors are inserted in whatever sequence, the resulting
/// order holds each inserted selector exactly once, never rises in
/// priority, and among selectors of equal priority keeps the one inserted
/// first in front.
pub proof fn lemma_arrange_is_descending_and_stable(inserted: Seq<SelectorModel>)
    ensures
        arrange(inserted).len() == inserted.len(),
        arrange_sources(inserted).len() == inserted.len(),
        forall|k: int|
            0 <= k < inserted.len() ==> 0 <= #[trigger] arrange_sources(inserted)[k] < inserted.len()
                && arrange(inserted)[k] == inserted[arrange_sources(inserted)[k]],
        forall|a: int, b: int|
            0 <= a < b < inserted.len() ==> arrange_sources(inserted)[a] != arrange_sources(inserted)[b],
        forall|a: int, b: int|
            0 <= a < b < inserted.len() ==> arrange(inserted)[a].priority > arrange(inserted)[b].priority
                || (arrange(inserted)[a].priority == arrange(inserted)[b].priority
                && arrange_sources(inserted)[a] < arrange_sources(inserted)[b]),
        descending(arrange(inserted)),
    decreases inserted.len(),
{
    if inserted.len() > 0 {
        let before = inserted.drop_last();
        let added = inserted.last();
        lemma_arrange_is_descending_and_stable(before);
        let order = arrange(before);
        let sources = arrange_sources(before);
        let k = insertion_index(order, added.priority);
        lemma_insertion_index(order, added.priority);
        let new_order = arrange(inserted);
        let new_sources = arrange_sources(inserted);
        assert(new_order == order.insert(k, added));
        assert(new_sources == sources.insert(k, inserted.len() - 1));
        assert forall|i: int| 0 <= i < inserted.len() implies 0 <= #[trigger] new_sources[i] < inserted.len()
            && new_order[i] == inserted[new_sources[i]] by {
            if i < k {
                assert(new_sources[i] == sources[i]);
                assert(new_order[i] == order[i]);
                assert(before[sources[i]] == inserted[sources[i]]);
            } else if i > k {
                assert(new_sources[i] == sources[i - 1]);
                assert(new_order[i] == order[i - 1]);
                assert(before[sources[i - 1]] == inserted[sources[i - 1]]);
            }
        }
        assert forall|a: int, b: int| 0 <= a < b < inserted.len() implies new_sources[a] != new_sources[b]
            && (new_order[a].priority > new_order[b].priority || (new_order[a].priority
            == new_order[b].priority && new_sources[a] < new_sources[b])) by {
            let sa = if a < k { a } else { a - 1 };
            let sb = if b < k { b } else { b - 1 };
            if a != k {
                assert(new_sources[a] == sources[sa] && new_order[a] == order[sa]);
            }
            if b != k {
                assert(new_sources[b] == sources[sb] && new_order[b] == order[sb]);
            }
            if a == k {
                assert(descending(order));
                assert(order[k].priority >= order[sb].priority);
            }
        }
        assert(descending(new_order));
    }
}

} // verus!
