//! The extractor: a set of selectors in the order in which they are tried,
//! and the walk that turns an element tree into documents.

use vstd::prelude::*;
use vstd::string::StringExecFns;
use crate::date::{parse_date, Date};
use crate::dom::{
    lemma_element_children, node_attributes, node_children, node_element_name, node_text, nodes_view,
    open_node, Element, ElementModel, Node, NodeModel, ReadableNode,
};
use crate::harvest::{
    append_text, applied, ascii_lower, ascii_lowercase, dated, document_of, document_tidy, effect,
    empty_harvest, gathered, harvest_of, ignores_text, lemma_document_is_tidy, parse_u32,
    visited, Effect, Harvest, PartError,
};
use crate::part::{lemma_part_view, parts_text, parts_view, Document, DocumentModel, Part};
use crate::selector::{
    descending, insertion_index, lemma_place_keeps_descending, place, selectors_view, Query,
    Selector, SelectorKind, SelectorModel,
};
use crate::text::to_chars;

verus! {

/// What an extractor is configured with besides its selectors.
#[derive(Debug)]
pub struct ExtractorOptions {
    /// The format of the dates in the document, in `strftime` notation.
    pub date_format: Option<String>,
    /// Where set, each element that this query matches is a document of
    /// its own; where not, the whole tree is one document.
    pub root_selector: Option<Query>,
}

/// The mathematical value of [`ExtractorOptions`].
pub struct ExtractorOptionsModel {
    pub date_format: Option<Seq<char>>,
    pub root_selector: Option<Seq<char>>,
}

impl View for ExtractorOptions {
    type V = ExtractorOptionsModel;

    open spec fn view(&self) -> ExtractorOptionsModel {
        ExtractorOptionsModel {
            date_format: match self.date_format {
                Some(format) => Some(format@),
                None => None,
            },
            root_selector: match self.root_selector {
                Some(query) => Some(query@),
                None => None,
            },
        }
    }
}

impl Default for ExtractorOptions {
    /// No date format and no root selector.
    fn default() -> (options: ExtractorOptions)
        ensures
            options@ == (ExtractorOptionsModel { date_format: None, root_selector: None }),
    {
        ExtractorOptions { date_format: None, root_selector: None }
    }
}

/// A set of selectors, kept in the order in which they are tried, with the
/// options of the extraction.
#[derive(Debug)]
pub struct Extractor {
    selectors: Vec<Selector>,
    options: ExtractorOptions,
}

/// The mathematical value of an [`Extractor`].
pub struct ExtractorModel {
    pub selectors: Seq<SelectorModel>,
    pub options: ExtractorOptionsModel,
}

impl View for Extractor {
    type V = ExtractorModel;

    closed spec fn view(&self) -> ExtractorModel {
        ExtractorModel { selectors: selectors_view(self.selectors@), options: self.options@ }
    }
}

impl Extractor {
    /// An extractor without selectors.
    pub fn new(options: ExtractorOptions) -> (extractor: Extractor)
        ensures
            extractor@ == (ExtractorModel { selectors: Seq::empty(), options: options@ }),
    {
        let extractor = Extractor { selectors: Vec::new(), options };
        assert(selectors_view(extractor.selectors@) =~= Seq::empty());
        extractor
    }

    /// Adds a selector: behind every selector of the same or a higher
    /// priority, before those of lower priority.
    pub fn add_selector(&mut self, selector: Selector)
        ensures
            final(self)@.selectors == place(old(self)@.selectors, selector@),
            final(self)@.options == old(self)@.options,
            descending(old(self)@.selectors) ==> descending(final(self)@.selectors),
    {
        let ghost before = selectors_view(self.selectors@);
        let priority = selector.rank();
        let mut index: usize = 0;
        assert(before.skip(0) =~= before);
        while index < self.selectors.len() && self.selectors[index].rank() >= priority
            invariant
                index <= self.selectors.len(),
                selectors_view(self.selectors@) == before,
                priority == selector@.priority,
                insertion_index(before, priority) == index + insertion_index(
                    before.skip(index as int),
                    priority,
                ),
            decreases self.selectors.len() - index,
        {
            proof {
                let rest = before.skip(index as int);
                assert(rest[0] == self.selectors[index as int]@);
                assert(rest.drop_first() =~= before.skip(index + 1));
            }
            index += 1;
        }
        proof {
            let rest = before.skip(index as int);
            if index < self.selectors.len() {
                assert(rest[0] == self.selectors[index as int]@);
            }
            assert(insertion_index(before, priority) == index);
            if descending(before) {
                lemma_place_keeps_descending(before, selector@);
            }
        }
        let ghost added = selector@;
        self.selectors.insert(index, selector);
        assert(selectors_view(self.selectors@) =~= place(before, added));
    }

    /// The selectors, in the order in which they are tried.
    pub fn selectors(&self) -> (selectors: &Vec<Selector>)
        ensures
            selectors_view(selectors@) == self@.selectors,
    {
        &self.selectors
    }

    /// The options this extractor was made with.
    pub fn options(&self) -> (options: &ExtractorOptions)
        ensures
            options@ == self@.options,
    {
        &self.options
    }
}

/// What the walk has gathered so far.
#[derive(Debug)]
pub struct ExtractorResult {
    /// The title of the document, once one was found.
    pub title: Option<Vec<Part>>,
    /// The date of publication, once one was found.
    pub publication_date: Option<Date>,
    /// The parts gathered for the element whose children are being
    /// visited.
    pub parent_children: Vec<Part>,
    /// The elements given up so far, each by its reason.
    pub errors: Vec<PartError>,
}

impl View for ExtractorResult {
    type V = Harvest;

    open spec fn view(&self) -> Harvest {
        Harvest {
            parts: parts_view(self.parent_children@),
            title: match self.title {
                Some(parts) => Some(parts_view(parts@)),
                None => None,
            },
            publication_date: self.publication_date,
            errors: self.errors@,
        }
    }
}

/// `c` with an ASCII capital turned into its small letter.
fn to_ascii_lower(c: char) -> (lower: char)
    ensures
        lower == ascii_lower(c),
{
    if 'A' <= c && c <= 'Z' {
        ((c as u8) + 32) as char
    } else {
        c
    }
}

/// Whether `name` is `word` but for the case of its ASCII letters.
fn is_lowercase_of(name: &Vec<char>, word: &str) -> (same: bool)
    ensures
        same == (ascii_lowercase(name@) == word@),
{
    let letters = to_chars(word);
    if name.len() != letters.len() {
        return false;
    }
    let mut i: usize = 0;
    while i < name.len()
        invariant
            i <= name.len(),
            name.len() == letters.len(),
            letters@ == word@,
            forall|j: int| 0 <= j < i ==> ascii_lower(name@[j]) == word@[j],
        decreases name.len() - i,
    {
        if to_ascii_lower(name[i]) != letters[i] {
            assert(ascii_lowercase(name@)[i as int] != word@[i as int]);
            return false;
        }
        i += 1;
    }
    assert(ascii_lowercase(name@) =~= word@);
    true
}

/// Whether text directly below an element of the name `name` is left
/// out.
pub fn is_text_ignored(name: &str) -> (ignored: bool)
    ensures
        ignored == ignores_text(name@),
{
    let name = to_chars(name);
    is_lowercase_of(&name, "script") || is_lowercase_of(&name, "style")
}

/// Adds `text` at the end of `parts`: joined to the last part where that
/// is a text, as a part of its own where it is not.
pub fn push_text(parts: &mut Vec<Part>, text: String)
    ensures
        parts_view(final(parts)@) == append_text(parts_view(old(parts)@), text@),
{
    let ghost before = parts_view(parts@);
    match parts.pop() {
        Some(Part::Text(last)) => {
            let joined = last.concat(text.as_str());
            parts.push(Part::Text(joined));
            assert(parts_view(parts@) =~= append_text(before, text@));
        },
        Some(other) => {
            parts.push(other);
            parts.push(Part::Text(text));
            assert(parts_view(parts@) =~= append_text(before, text@));
        },
        None => {
            parts.push(Part::Text(text));
            assert(parts_view(parts@) =~= append_text(before, text@));
        },
    }
}

/// The text of `content`: the texts in it, at whatever depth, joined in
/// order.
pub fn text(content: &Vec<Part>) -> (joined: String)
    ensures
        joined@ == parts_text(parts_view(content@), 0),
{
    Part::text_of(content)
}

impl Extractor {
    /// The date that the text of `content` holds under the date format of
    /// this extractor.
    pub fn parse_date(&self, content: &Vec<Part>) -> (date: Result<Date, PartError>)
        ensures
            date == dated(self@.options.date_format, parts_view(content@)),
    {
        match &self.options.date_format {
            Some(format) => match parse_date(format.as_str(), text(content).as_str()) {
                Ok(date) => Ok(date),
                Err(error) => Err(PartError::Date(error)),
            },
            None => Err(PartError::NoDateFormat),
        }
    }

    /// Closes an element of role `kind` whose children gave `children`:
    /// adds its part to the parts of the parent, or sets the title or the
    /// date of publication. Where the element cannot be made into a part,
    /// nothing changes and the reason is returned.
    pub fn handle_part(
        &self,
        kind: SelectorKind,
        node: &Element,
        children: Vec<Part>,
        result: &mut ExtractorResult,
    ) -> (done: Result<(), PartError>)
        ensures
            match effect(kind, node@.attributes, parts_view(children@), self@.options.date_format) {
                Ok(effect) => done is Ok && final(result)@ == applied(old(result)@, effect),
                Err(error) => done == Err::<(), PartError>(error) && final(result)@ == old(result)@,
            },
    {
        let ghost before = result@;
        let ghost content = parts_view(children@);
        let part = match kind {
            SelectorKind::Date => match self.parse_date(&children) {
                Ok(date) => Part::Date(date),
                Err(error) => {
                    return Err(error);
                },
            },
            SelectorKind::Emphasis => Part::Emphasis(children),
            SelectorKind::Header1 => Part::Header1(children),
            SelectorKind::Header2 => Part::Header2(children),
            SelectorKind::Header3 => Part::Header3(children),
            SelectorKind::Image => {
                let url = match node.attribute("src") {
                    Some(url) => url.clone(),
                    None => {
                        return Err(PartError::NoSrc);
                    },
                };
                let legend = match node.attribute("title") {
                    Some(legend) => Some(legend.clone()),
                    None => None,
                };
                let width = match node.attribute("width") {
                    Some(width) => parse_u32(width.as_str()),
                    None => None,
                };
                let height = match node.attribute("height") {
                    Some(height) => parse_u32(height.as_str()),
                    None => None,
                };
                Part::Image { url, width, height, legend }
            },
            SelectorKind::Link => {
                let url = match node.attribute("href") {
                    Some(url) => url.clone(),
                    None => {
                        return Err(PartError::NoHref);
                    },
                };
                Part::Link { url, content: children }
            },
            SelectorKind::List => Part::List(children),
            SelectorKind::ListItem => Part::ListItem(children),
            SelectorKind::Paragraph => Part::Paragraph(children),
            SelectorKind::PublicationDate => {
                match self.parse_date(&children) {
                    Ok(date) => {
                        result.publication_date = Some(date);
                        assert(result@ == applied(before, Effect::Published(date)));
                        return Ok(());
                    },
                    Err(error) => {
                        return Err(error);
                    },
                }
            },
            SelectorKind::Title => {
                result.title = Some(children);
                assert(result@ == applied(before, Effect::Title(content)));
                return Ok(());
            },
        };
        proof {
            lemma_part_view(part);
        }
        let ghost added = part@;
        result.parent_children.push(part);
        assert(result@.parts =~= before.parts.push(added));
        assert(result@ == applied(before, Effect::Append(added)));
        Ok(())
    }

    /// Visits the children of `root` in order and gathers what they give
    /// into `result`.
    pub fn extract_document_rec(&self, root: &Element, result: &mut ExtractorResult)
        ensures
            final(result)@ == gathered(
                root@.children,
                0,
                ignores_text(root@.name),
                self@.options.date_format,
                old(result)@,
            ),
        decreases root,
    {
        let ignore_text = is_text_ignored(root.name.as_str());
        let ghost format = self@.options.date_format;
        let ghost start = result@;
        let ghost children = root@.children;
        proof {
            lemma_element_children(*root);
        }
        let mut i: usize = 0;
        while i < root.children.len()
            invariant
                i <= root.children.len(),
                children == nodes_view(root.children@),
                children == root@.children,
                format == self@.options.date_format,
                ignore_text == ignores_text(root@.name),
                gathered(children, i as int, ignore_text, format, result@) == gathered(
                    children,
                    0,
                    ignore_text,
                    format,
                    start,
                ),
            decreases root.children.len() - i,
        {
            let ghost before = result@;
            assert(children[i as int] == root.children[i as int]@);
            match &root.children[i] {
                Node::Element(child) => match child.role {
                    Some(kind) => {
                        let mut parts: Vec<Part> = Vec::new();
                        std::mem::swap(&mut result.parent_children, &mut parts);
                        assert(result@ == (Harvest { parts: Seq::empty(), ..before })) by {
                            assert(result@.parts =~= Seq::empty());
                        }
                        self.extract_document_rec(child, result);
                        let ghost inner = result@;
                        std::mem::swap(&mut result.parent_children, &mut parts);
                        assert(result@ == (Harvest { parts: before.parts, ..inner }));
                        match self.handle_part(kind, child, parts, result) {
                            Ok(()) => {},
                            Err(error) => {
                                result.errors.push(error);
                            },
                        }
                        assert(result@ == visited(children[i as int], ignore_text, format, before));
                    },
                    None => {
                        self.extract_document_rec(child, result);
                        assert(result@ == visited(children[i as int], ignore_text, format, before));
                    },
                },
                Node::Text(text) => {
                    if !ignore_text && !text.as_str().is_empty() {
                        push_text(&mut result.parent_children, text.clone());
                    }
                    assert(result@ == visited(children[i as int], ignore_text, format, before));
                },
            }
            i += 1;
        }
    }

    /// The document that the tree below `root` gives, with the elements
    /// that were given up on the way.
    pub fn extract_document(&self, root: &Element) -> (extracted: (Document, Vec<PartError>))
        ensures
            extracted.0@ == document_of(harvest_of(root@, self@.options.date_format)),
            extracted.1@ == harvest_of(root@, self@.options.date_format).errors,
            document_tidy(extracted.0@),
    {
        proof {
            lemma_document_is_tidy(root@, self@.options.date_format);
        }
        let mut result = ExtractorResult {
            title: None,
            publication_date: None,
            parent_children: Vec::new(),
            errors: Vec::new(),
        };
        assert(result@ == empty_harvest()) by {
            assert(result@.parts =~= Seq::empty());
        }
        self.extract_document_rec(root, &mut result);
        let document = Document {
            title: result.title,
            publication_date: result.publication_date,
            content: result.parent_children,
        };
        (document, result.errors)
    }
}

/// How many levels below the node it is given a tree is read. An element at
/// this depth is read as if it had no children.
pub const DEPTH_LIMIT: usize = 512;

/// The role, if there is one, is the role of one of the selectors.
pub open spec fn role_from(role: Option<SelectorKind>, selectors: Seq<SelectorModel>) -> bool {
    role is Some ==> exists|i: int| 0 <= i < selectors.len() && (#[trigger] selectors[i]).kind == role->0
}

/// Every role in the tree of `element` is the role of one of the
/// selectors.
pub open spec fn conforms(element: ElementModel, selectors: Seq<SelectorModel>) -> bool
    decreases element,
{
    role_from(element.role, selectors) && forall|i: int|
        0 <= i < element.children.len() ==> match #[trigger] element.children[i] {
            NodeModel::Element(child) => conforms(child, selectors),
            NodeModel::Text(_) => true,
        }
}

/// No element of the tree of `element` stands more than `limit` levels
/// below it.
pub open spec fn within_depth(element: ElementModel, limit: nat) -> bool
    decreases element,
{
    forall|i: int|
        0 <= i < element.children.len() ==> match #[trigger] element.children[i] {
            NodeModel::Element(child) => limit > 0 && within_depth(child, (limit - 1) as nat),
            NodeModel::Text(_) => true,
        }
}

/// No element of the tree of `element`, the element itself included, has
/// the mark of a root.
pub open spec fn unmarked(element: ElementModel) -> bool
    decreases element,
{
    !element.root && forall|i: int|
        0 <= i < element.children.len() ==> match #[trigger] element.children[i] {
            NodeModel::Element(child) => unmarked(child),
            NodeModel::Text(_) => true,
        }
}

/// Whether `tree` is a tree as `extractor` reads one: every role in it is
/// the role of one of the selectors, it is no deeper than the limit, and
/// without a root selector no element has the mark of a root.
pub open spec fn reads_as(extractor: ExtractorModel, tree: ElementModel) -> bool {
    &&& conforms(tree, extractor.selectors)
    &&& within_depth(tree, DEPTH_LIMIT as nat)
    &&& extractor.options.root_selector is None ==> unmarked(tree)
}

/// The role that the selectors give to an element, where `outcomes` says
/// of each selector, in the order of the set and from the one at `from` on,
/// whether its query matches the element: the role of the first selector
/// that matches, and none where no selector does. A selector without an
/// outcome counts as one that does not match.
pub open spec fn role_given(selectors: Seq<SelectorModel>, outcomes: Seq<bool>, from: int) -> Option<
    SelectorKind,
>
    decreases selectors.len() - from,
{
    if from < 0 || from >= selectors.len() || from >= outcomes.len() {
        None
    } else if outcomes[from] {
        Some(selectors[from].kind)
    } else {
        role_given(selectors, outcomes, from + 1)
    }
}

/// A role that the outcomes give is the role of one of the selectors.
pub proof fn lemma_role_given_is_from(selectors: Seq<SelectorModel>, outcomes: Seq<bool>, from: int)
    requires
        0 <= from,
    ensures
        role_from(role_given(selectors, outcomes, from), selectors),
    decreases selectors.len() - from,
{
    if from < selectors.len() && from < outcomes.len() {
        if outcomes[from] {
            assert(selectors[from].kind == role_given(selectors, outcomes, from)->0);
        } else {
            lemma_role_given_is_from(selectors, outcomes, from + 1);
        }
    }
}

impl Extractor {
    /// For each selector, in the order of the set, whether its query
    /// matches `node` as the document stands at the time of the call.
    fn outcomes_for(&self, node: &ReadableNode) -> (outcomes: Vec<bool>)
        ensures
            outcomes.len() == self@.selectors.len(),
    {
        let mut outcomes: Vec<bool> = Vec::new();
        let mut i: usize = 0;
        while i < self.selectors.len()
            invariant
                i <= self.selectors.len(),
                outcomes.len() == i,
            decreases self.selectors.len() - i,
        {
            outcomes.push(self.selectors[i].query().matches_node(node));
            i += 1;
        }
        outcomes
    }

    /// The role that the selectors of this extractor give to an element,
    /// where `outcomes` says of each selector, in the order of the set,
    /// whether its query matches the element: the role of the first
    /// selector that matches.
    pub fn first_role(&self, outcomes: &Vec<bool>) -> (role: Option<SelectorKind>)
        ensures
            role == role_given(self@.selectors, outcomes@, 0),
    {
        let mut i: usize = 0;
        while i < self.selectors.len() && i < outcomes.len()
            invariant
                i <= self.selectors.len(),
                i <= outcomes.len(),
                role_given(self@.selectors, outcomes@, 0) == role_given(self@.selectors, outcomes@, i as int),
            decreases self.selectors.len() - i,
        {
            assert(self@.selectors[i as int] == self.selectors[i as int]@);
            if outcomes[i] {
                return Some(self.selectors[i].kind());
            }
            i += 1;
        }
        None
    }

    /// The role of the first selector, in the order of the set, whose
    /// query matches `node`: each query is asked, and `first_role` decides
    /// from what they answer.
    fn role_of(&self, node: &ReadableNode) -> (role: Option<SelectorKind>)
        ensures
            role_from(role, self@.selectors),
    {
        let outcomes = self.outcomes_for(node);
        let role = self.first_role(&outcomes);
        proof {
            lemma_role_given_is_from(self@.selectors, outcomes@, 0);
        }
        role
    }

    /// Reads the tree of `node`, an element of the name `name` or a node
    /// that is no element, down to `depth` levels below it. Each element
    /// gets the role of the first selector that matches it, and the mark of
    /// a root where the root selector matches it. The element that comes
    /// back has the name `name`; with a `depth` of 0 it has no children.
    fn classify(&self, node: &ReadableNode, name: String, depth: usize) -> (element: Element)
        ensures
            element@.name == name@,
            depth == 0 ==> element@.children.len() == 0,
            conforms(element@, self@.selectors),
            within_depth(element@, depth as nat),
            self@.options.root_selector is None ==> unmarked(element@),
        decreases depth,
    {
        let attributes = node_attributes(node);
        let role = self.role_of(node);
        let root = match &self.options.root_selector {
            Some(root_selector) => root_selector.matches_node(node),
            None => false,
        };
        let mut children: Vec<Node> = Vec::new();
        if depth > 0 {
            let nodes = node_children(node);
            let mut i: usize = 0;
            while i < nodes.len()
                invariant
                    i <= nodes.len(),
                    depth > 0,
                    forall|j: int|
                        0 <= j < children.len() ==> match #[trigger] children[j] {
                            Node::Element(child) => {
                                &&& conforms(child@, self@.selectors)
                                &&& within_depth(child@, (depth - 1) as nat)
                                &&& self@.options.root_selector is None ==> unmarked(child@)
                            },
                            Node::Text(_) => true,
                        },
                decreases nodes.len() - i,
            {
                let child = match node_element_name(&nodes[i]) {
                    Some(name) => Node::Element(self.classify(&nodes[i], name, depth - 1)),
                    None => Node::Text(node_text(&nodes[i])),
                };
                children.push(child);
                i += 1;
            }
        }
        let element = Element { name, attributes, role, root, children };
        proof {
            lemma_element_children(element);
            assert forall|i: int| 0 <= i < element@.children.len() implies match #[trigger] element@.children[i] {
                NodeModel::Element(child) => {
                    &&& conforms(child, self@.selectors)
                    &&& depth > 0
                    &&& within_depth(child, (depth - 1) as nat)
                    &&& self@.options.root_selector is None ==> unmarked(child)
                },
                NodeModel::Text(_) => true,
            } by {
                assert(element@.children[i] == children[i]@);
                match children[i] {
                    Node::Element(child) => {},
                    Node::Text(_) => {},
                }
            }
        }
        element
    }

    /// Whether `tree` is a tree as this extractor reads one: every role
    /// in it is the role of one of the selectors, and it is no deeper than
    /// the limit.
    pub open spec fn reads(&self, tree: ElementModel) -> bool {
        reads_as(self@, tree)
    }

    /// The tree of `root` as plain values, read `DEPTH_LIMIT` levels deep:
    /// each element with the role of the first selector that matches it
    /// and with the mark of a root where the root selector matches it, as
    /// the document stands at the time of the call. `None` where the
    /// document is being written to and cannot be read.
    pub fn snapshot(&self, root: &kuchiki::NodeRef) -> (tree: Option<Element>)
        ensures
            tree is Some ==> self.reads(tree->0@),
    {
        match open_node(root) {
            Some(node) => {
                let name = match node_element_name(&node) {
                    Some(name) => name,
                    None => String::new(),
                };
                Some(self.classify(&node, name, DEPTH_LIMIT))
            },
            None => None,
        }
    }

    /// Finds in the tree of `root` the elements at which a document
    /// begins, and adds them to `trees` in document order. Without a root
    /// selector `root` is the one such element. With one, each element that
    /// bears the mark of a root is one, and what lies below such an element
    /// is not searched for further roots.
    pub fn extract_rec<'a>(&self, root: &'a Element, trees: &mut Vec<&'a Element>)
        ensures
            elements_view(final(trees)@) == elements_view(old(trees)@) + document_roots(
                self@.options.root_selector is Some,
                root@,
            ),
        decreases root,
    {
        let ghost split = self@.options.root_selector is Some;
        let ghost before = elements_view(trees@);
        if self.options.root_selector.is_none() || root.root {
            trees.push(root);
            assert(elements_view(trees@) =~= before + seq![root@]);
        } else {
            let ghost children = root@.children;
            proof {
                lemma_element_children(*root);
            }
            let mut i: usize = 0;
            assert(elements_view(trees@) + roots_below(split, children, 0) =~= before + roots_below(
                split,
                children,
                0,
            ));
            while i < root.children.len()
                invariant
                    i <= root.children.len(),
                    split == (self@.options.root_selector is Some),
                    children == nodes_view(root.children@),
                    elements_view(trees@) + roots_below(split, children, i as int) == before + roots_below(
                        split,
                        children,
                        0,
                    ),
                decreases root.children.len() - i,
            {
                let ghost found = elements_view(trees@);
                assert(children[i as int] == root.children[i as int]@);
                match &root.children[i] {
                    Node::Element(child) => {
                        self.extract_rec(child, trees);
                    },
                    Node::Text(_) => {
                        assert(elements_view(trees@) =~= found + Seq::<ElementModel>::empty());
                    },
                }
                assert(elements_view(trees@) + roots_below(split, children, i + 1) =~= found + roots_below(
                    split,
                    children,
                    i as int,
                ));
                i += 1;
            }
            assert(elements_view(trees@) + roots_below(split, children, i as int) =~= elements_view(trees@));
        }
    }

    /// The elements of `tree` at which a document begins, in document
    /// order.
    pub fn roots<'a>(&self, tree: &'a Element) -> (trees: Vec<&'a Element>)
        ensures
            elements_view(trees@) == document_roots(self@.options.root_selector is Some, tree@),
    {
        let mut trees: Vec<&'a Element> = Vec::new();
        assert(elements_view(trees@) =~= Seq::empty());
        self.extract_rec(tree, &mut trees);
        assert(elements_view(trees@) =~= document_roots(self@.options.root_selector is Some, tree@));
        trees
    }
}

/// The elements of `tree` at which a document begins, in document order.
/// Where the page is not split, `tree` itself is the one such element.
/// Where it is, each element with the mark of a root is one, but for those
/// that stand below another one.
pub open spec fn document_roots(split: bool, tree: ElementModel) -> Seq<ElementModel>
    decreases tree, 0int,
{
    if !split || tree.root {
        seq![tree]
    } else {
        roots_below(split, tree.children, 0)
    }
}

/// The elements at which a document begins in the trees of `children`,
/// from the child at `from` on.
pub open spec fn roots_below(split: bool, children: Seq<NodeModel>, from: int) -> Seq<ElementModel>
    decreases children, children.len() - from,
{
    if from < 0 || from >= children.len() {
        Seq::empty()
    } else {
        (match children[from] {
            NodeModel::Element(child) => document_roots(split, child),
            NodeModel::Text(_) => Seq::empty(),
        }) + roots_below(split, children, from + 1)
    }
}

/// Where the page is split, a document begins only at an element with the
/// mark of a root: every element that `document_roots` finds has it, and a
/// tree without a mark holds no document.
pub proof fn lemma_roots_are_marked(tree: ElementModel)
    ensures
        forall|i: int| 0 <= i < document_roots(true, tree).len() ==> (#[trigger] document_roots(true, tree)[i]).root,
        unmarked(tree) ==> document_roots(true, tree).len() == 0,
    decreases tree, 0int,
{
    if !tree.root {
        lemma_roots_below_are_marked(tree.children, 0);
    }
}

/// The same of the trees of the children from the one at `from` on.
pub proof fn lemma_roots_below_are_marked(children: Seq<NodeModel>, from: int)
    ensures
        forall|i: int| 0 <= i < roots_below(true, children, from).len() ==> (#[trigger] roots_below(true, children, from)[i]).root,
        (forall|i: int|
            0 <= i < children.len() ==> match #[trigger] children[i] {
                NodeModel::Element(child) => unmarked(child),
                NodeModel::Text(_) => true,
            }) ==> roots_below(true, children, from).len() == 0,
    decreases children, children.len() - from,
{
    if 0 <= from < children.len() {
        lemma_roots_below_are_marked(children, from + 1);
        match children[from] {
            NodeModel::Element(child) => {
                lemma_roots_are_marked(child);
            },
            NodeModel::Text(_) => {},
        }
    }
}

/// What an extraction gives: the documents found, in document order, and
/// the elements that were given up on the way, each by its reason.
#[derive(Debug, PartialEq, Eq)]
pub struct Extraction {
    pub documents: Vec<Document>,
    pub errors: Vec<PartError>,
}

/// The mathematical value of an [`Extraction`].
pub struct ExtractionModel {
    pub documents: Seq<DocumentModel>,
    pub errors: Seq<PartError>,
}

/// The values of a sequence of documents, in order.
pub open spec fn documents_view(documents: Seq<Document>) -> Seq<DocumentModel> {
    Seq::new(documents.len(), |i: int| documents[i]@)
}

/// The values of a sequence of trees, in order.
pub open spec fn elements_view(trees: Seq<&Element>) -> Seq<ElementModel> {
    Seq::new(trees.len(), |i: int| trees[i]@)
}

impl View for Extraction {
    type V = ExtractionModel;

    open spec fn view(&self) -> ExtractionModel {
        ExtractionModel { documents: documents_view(self.documents@), errors: self.errors@ }
    }
}

/// What the trees of `trees` give, one document for each tree: the
/// documents in the order of the trees, and the elements given up, those of
/// an earlier tree first.
pub open spec fn extracted(trees: Seq<ElementModel>, format: Option<Seq<char>>) -> ExtractionModel
    decreases trees.len(),
{
    if trees.len() == 0 {
        ExtractionModel { documents: Seq::empty(), errors: Seq::empty() }
    } else {
        let before = extracted(trees.drop_last(), format);
        let harvest = harvest_of(trees.last(), format);
        ExtractionModel {
            documents: before.documents.push(document_of(harvest)),
            errors: before.errors + harvest.errors,
        }
    }
}

/// Whatever the trees and whatever the date format: one document comes out
/// for each tree, and in none of them do two texts stand next to each
/// other, at whatever depth.
pub proof fn lemma_extracted_is_tidy(trees: Seq<ElementModel>, format: Option<Seq<char>>)
    ensures
        extracted(trees, format).documents.len() == trees.len(),
        forall|i: int| 0 <= i < trees.len() ==> document_tidy(#[trigger] extracted(trees, format).documents[i]),
    decreases trees.len(),
{
    if trees.len() > 0 {
        lemma_extracted_is_tidy(trees.drop_last(), format);
        lemma_document_is_tidy(trees.last(), format);
    }
}

/// In none of the documents do two texts stand next to each other, at
/// whatever depth.
pub open spec fn document_tidy_all(documents: Seq<DocumentModel>) -> bool {
    forall|i: int| 0 <= i < documents.len() ==> document_tidy(#[trigger] documents[i])
}

/// Whether `extraction` is what some tree gives that `extractor` may have
/// read: one document for each element of the tree at which a document
/// begins, in document order.
pub open spec fn yields(extractor: ExtractorModel, extraction: ExtractionModel) -> bool {
    exists|tree: ElementModel|
        reads_as(extractor, tree) && extraction == #[trigger] extracted(
            document_roots(extractor.options.root_selector is Some, tree),
            extractor.options.date_format,
        )
}

impl Extractor {
    /// Gathers one document from each tree of `trees`.
    pub fn extract_all(&self, trees: &Vec<&Element>) -> (extraction: Extraction)
        ensures
            extraction@ == extracted(elements_view(trees@), self@.options.date_format),
    {
        let mut documents: Vec<Document> = Vec::new();
        let mut errors: Vec<PartError> = Vec::new();
        let ghost format = self@.options.date_format;
        let ghost models = elements_view(trees@);
        let mut i: usize = 0;
        while i < trees.len()
            invariant
                i <= trees.len(),
                format == self@.options.date_format,
                models == elements_view(trees@),
                documents_view(documents@) == extracted(models.take(i as int), format).documents,
                errors@ == extracted(models.take(i as int), format).errors,
            decreases trees.len() - i,
        {
            let (document, mut given_up) = self.extract_document(trees[i]);
            proof {
                let head = models.take(i + 1);
                assert(head.drop_last() =~= models.take(i as int));
                assert(head.last() == trees[i as int]@);
            }
            let ghost before = documents_view(documents@);
            let ghost added = document@;
            documents.push(document);
            errors.append(&mut given_up);
            assert(documents_view(documents@) =~= before.push(added));
            i += 1;
        }
        assert(models.take(trees.len() as int) =~= models);
        Extraction { documents, errors }
    }

    /// Extracts the documents of the tree of `root`. The tree is read as
    /// plain values, each element with the role of the first selector that
    /// matches it; the elements at which a document begins are found; and
    /// one document is gathered from each. An element that cannot be made
    /// into the part of its role is given up: it adds nothing to the
    /// document, and its reason is among the errors. `None` where the
    /// document is being written to and cannot be read.
    pub fn extract(&self, root: &kuchiki::NodeRef) -> (extraction: Option<Extraction>)
        ensures
            extraction is Some ==> {
                &&& yields(self@, extraction->0@)
                &&& self@.options.root_selector is None ==> extraction->0@.documents.len() == 1
                &&& document_tidy_all(extraction->0@.documents)
            },
    {
        match self.snapshot(root) {
            Some(tree) => {
                let trees = self.roots(&tree);
                let extraction = self.extract_all(&trees);
                proof {
                    lemma_extracted_is_tidy(elements_view(trees@), self@.options.date_format);
                }
                Some(extraction)
            },
            None => None,
        }
    }
}

} // verus!
