//! The element tree as the extraction reads it: plain values, with the
//! role that the selectors give to each element.

use vstd::prelude::*;
use crate::selector::SelectorKind;

verus! {

/// An attribute of an element.
#[derive(Clone, Debug, PartialEq, Eq)]
pub struct Attribute {
    /// The namespace of the name; empty for the attributes of plain HTML.
    pub namespace: String,
    /// The name within its namespace.
    pub name: String,
    pub value: String,
}

/// The mathematical value of an [`Attribute`].
pub struct AttributeModel {
    pub namespace: Seq<char>,
    pub name: Seq<char>,
    pub value: Seq<char>,
}

impl View for Attribute {
    type V = AttributeModel;

    open spec fn view(&self) -> AttributeModel {
        AttributeModel { namespace: self.namespace@, name: self.name@, value: self.value@ }
    }
}

/// The values of a sequence of attributes, in order.
pub open spec fn attributes_view(attributes: Seq<Attribute>) -> Seq<AttributeModel> {
    Seq::new(attributes.len(), |i: int| attributes[i]@)
}

/// The value of the first attribute without a namespace whose name is
/// `name`.
pub open spec fn attribute(attributes: Seq<AttributeModel>, name: Seq<char>) -> Option<Seq<char>>
    decreases attributes.len(),
{
    if attributes.len() == 0 {
        None
    } else if attributes[0].namespace.len() == 0 && attributes[0].name == name {
        Some(attributes[0].value)
    } else {
        attribute(attributes.drop_first(), name)
    }
}

/// An element with what lies below it.
#[derive(Debug, PartialEq, Eq)]
pub struct Element {
    /// The local name of the tag; empty for a node that is no element,
    /// such as the node of the whole document.
    pub name: String,
    pub attributes: Vec<Attribute>,
    /// The role of the first selector that matches the element, if one
    /// does.
    pub role: Option<SelectorKind>,
    /// Whether the root selector matches the element: whether a document
    /// begins at it.
    pub root: bool,
    pub children: Vec<Node>,
}

/// A child of an element.
#[derive(Debug, PartialEq, Eq)]
pub enum Node {
    Element(Element),
    /// A child that is no element, by the text it holds.
    Text(String),
}

/// The mathematical value of an [`Element`].
pub struct ElementModel {
    pub name: Seq<char>,
    pub attributes: Seq<AttributeModel>,
    pub role: Option<SelectorKind>,
    pub root: bool,
    pub children: Seq<NodeModel>,
}

/// The mathematical value of a [`Node`].
pub enum NodeModel {
    Element(ElementModel),
    Text(Seq<char>),
}

/// The value of an element.
pub open spec fn element_view(element: Element) -> ElementModel
    decreases element,
{
    ElementModel {
        name: element.name@,
        attributes: attributes_view(element.attributes@),
        role: element.role,
        root: element.root,
        children: Seq::new(
            element.children.len() as nat,
            |i: int|
                if 0 <= i < element.children.len() {
                    node_view(element.children[i])
                } else {
                    arbitrary()
                },
        ),
    }
}

/// The value of a node.
pub open spec fn node_view(node: Node) -> NodeModel
    decreases node,
{
    match node {
        Node::Element(element) => NodeModel::Element(element_view(element)),
        Node::Text(text) => NodeModel::Text(text@),
    }
}

impl View for Element {
    type V = ElementModel;

    open spec fn view(&self) -> ElementModel {
        element_view(*self)
    }
}

impl View for Node {
    type V = NodeModel;

    open spec fn view(&self) -> NodeModel {
        node_view(*self)
    }
}

/// The values of a sequence of nodes, in order.
pub open spec fn nodes_view(nodes: Seq<Node>) -> Seq<NodeModel> {
    Seq::new(nodes.len(), |i: int| nodes[i]@)
}

/// The children of an element's value are the values of its children.
pub proof fn lemma_element_children(element: Element)
    ensures
        element@.children == nodes_view(element.children@),
        element@.name == element.name@,
        element@.attributes == attributes_view(element.attributes@),
        element@.role == element.role,
        element@.root == element.root,
{
    assert(element@.children =~= nodes_view(element.children@));
}

impl Element {
    /// An element without a role, at which no document begins.
    pub fn new(name: String, attributes: Vec<Attribute>, children: Vec<Node>) -> (element: Element)
        ensures
            element.name == name,
            element.attributes == attributes,
            element.role is None,
            !element.root,
            element.children == children,
    {
        Element { name, attributes, role: None, root: false, children }
    }

    /// The same element with the role `role`.
    pub fn with_role(self, role: SelectorKind) -> (element: Element)
        ensures
            element.name == self.name,
            element.attributes == self.attributes,
            element.role == Some(role),
            element.root == self.root,
            element.children == self.children,
    {
        Element {
            name: self.name,
            attributes: self.attributes,
            role: Some(role),
            root: self.root,
            children: self.children,
        }
    }

    /// The same element as one at which a document begins.
    pub fn as_root(self) -> (element: Element)
        ensures
            element.name == self.name,
            element.attributes == self.attributes,
            element.role == self.role,
            element.root,
            element.children == self.children,
    {
        Element {
            name: self.name,
            attributes: self.attributes,
            role: self.role,
            root: true,
            children: self.children,
        }
    }

    /// The value of the attribute `name`: of the first attribute without
    /// a namespace that has this name.
    pub fn attribute(&self, name: &str) -> (value: Option<&String>)
        ensures
            value is Some <==> attribute(self@.attributes, name@) is Some,
            value is Some ==> value->0@ == attribute(self@.attributes, name@)->0,
    {
        let mut i: usize = 0;
        let wanted = name.to_owned();
        proof {
            lemma_element_children(*self);
            assert(self@.attributes.skip(0) =~= self@.attributes);
        }
        while i < self.attributes.len()
            invariant
                i <= self.attributes.len(),
                wanted@ == name@,
                self@.attributes == attributes_view(self.attributes@),
                attribute(self@.attributes, name@) == attribute(self@.attributes.skip(i as int), name@),
            decreases self.attributes.len() - i,
        {
            let candidate = &self.attributes[i];
            proof {
                let rest = self@.attributes.skip(i as int);
                assert(rest[0] == candidate@);
                assert(rest.drop_first() =~= self@.attributes.skip(i + 1));
            }
            if candidate.namespace.as_str().is_empty() && candidate.name == wanted {
                return Some(&candidate.value);
            }
            i += 1;
        }
        None
    }
}

/// A node of a parsed document of which nothing was being written to when
/// the node was opened. Only `open_node` makes one, and from it
/// `node_children`; none is ever handed out of a call into this crate, so
/// that no other code runs between the opening and the reading.
pub(crate) struct ReadableNode {
    node: kuchiki::NodeRef,
}

impl ReadableNode {
    /// The node itself.
    pub(crate) fn node(&self) -> &kuchiki::NodeRef {
        &self.node
    }
}

/// `RefCell::try_borrow` on each cell of the document that holds `node`,
/// from its topmost ancestor down: the attributes of each element and the
/// content of each text, comment and processing instruction. The node comes
/// back where each of them can be borrowed, `None` where one of them is
/// borrowed for writing.
#[verifier::external_body]
pub(crate) fn open_node(node: &kuchiki::NodeRef) -> (opened: Option<ReadableNode>) {
    let top = node.inclusive_ancestors().last().unwrap_or_else(|| node.clone());
    let readable = top.inclusive_descendants().all(
        |each| match each.data() {
            kuchiki::NodeData::Element(element) => element.attributes.try_borrow().is_ok(),
            kuchiki::NodeData::Text(text) | kuchiki::NodeData::Comment(text) => text.try_borrow().is_ok(),
            kuchiki::NodeData::ProcessingInstruction(pair) => pair.try_borrow().is_ok(),
            _ => true,
        },
    );
    if readable {
        Some(ReadableNode { node: node.clone() })
    } else {
        None
    }
}

/// `kuchiki::NodeRef::children`: the children of the node, in document
/// order.
#[verifier::external_body]
pub(crate) fn node_children(node: &ReadableNode) -> (children: Vec<ReadableNode>) {
    node.node.children().map(|node| ReadableNode { node }).collect()
}

/// `kuchiki::Node::as_element`, for the name: the local name of the tag
/// where the node is an element, `None` where it is not.
#[verifier::external_body]
pub(crate) fn node_element_name(node: &ReadableNode) -> (name: Option<String>) {
    node.node.as_element().map(|element| element.name.local.to_string())
}

/// `kuchiki::Node::as_element`, for the attributes: each attribute of the
/// element with its namespace, its local name and its value; nothing where
/// the node is no element.
#[verifier::external_body]
pub(crate) fn node_attributes(node: &ReadableNode) -> (attributes: Vec<Attribute>) {
    match node.node.as_element().map(|element| element.attributes.try_borrow()) {
        Some(Ok(attributes)) => attributes.map.iter().map(
            |(name, attribute)|
                Attribute {
                    namespace: name.ns.to_string(),
                    name: name.local.to_string(),
                    value: attribute.value.clone(),
                },
        ).collect(),
        _ => Vec::new(),
    }
}

/// `kuchiki::NodeRef::inclusive_descendants` with `text_nodes`: the texts
/// of the node and of what lies below it, joined in document order, each
/// read with `RefCell::try_borrow`.
#[verifier::external_body]
pub(crate) fn node_text(node: &ReadableNode) -> (text: String) {
    kuchiki::iter::NodeIterator::text_nodes(node.node.inclusive_descendants()).map(
        |text| text.try_borrow().map(|text| text.clone()).unwrap_or_default(),
    ).collect()
}

} // verus!
