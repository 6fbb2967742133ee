//! The document model: a tagged-variant tree standing for a parsed HTML page.
//!
//! A `Document` holds the ordered children of the page's `<body>`. Each node
//! is an element (with an optional anchor identifier, its inner markup kept
//! verbatim, and its children), a text node, or an opaque node (a comment,
//! doctype, or similar: it may carry children in the tree but has no markup
//! of its own that could be extracted).

use vstd::prelude::*;

verus! {

/// An element node: one section of the page.
pub struct Element {
    /// The anchor identifier, derived from an `id`-like attribute.
    pub anchor: Option<String>,
    /// The element's inner markup, verbatim.
    pub markup: String,
    /// The ordered child nodes.
    pub children: Vec<Node>,
}

/// One node of the parsed tree.
pub enum Node {
    Element(Element),
    Text(String),
    Opaque(Vec<Node>),
}

/// A parsed HTML document: the ordered children of its `<body>` element.
pub struct Document {
    pub body: Vec<Node>,
}

/// The ordered children of a node. Text nodes have none.
pub open spec fn children_of(n: Node) -> Seq<Node> {
    match n {
        Node::Element(e) => e.children@,
        Node::Text(_) => Seq::empty(),
        Node::Opaque(cs) => cs@,
    }
}

/// The first child of a node, if any.
pub open spec fn first_child(n: Node) -> Option<Node> {
    if children_of(n).len() > 0 {
        Some(children_of(n)[0])
    } else {
        None
    }
}

/// Whether the node is an element, i.e. has extractable markup.
pub open spec fn is_element(n: Node) -> bool {
    n is Element
}

/// The inner markup of an element node; empty for any other node.
pub open spec fn markup_of(n: Node) -> Seq<char> {
    match n {
        Node::Element(e) => e.markup@,
        _ => Seq::empty(),
    }
}

/// The text content of a node's first child, when that child is a text node.
pub open spec fn spec_first_child_text(node: Option<Node>) -> Option<Seq<char>> {
    match node {
        Some(n) => match first_child(n) {
            Some(Node::Text(t)) => Some(t@),
            _ => None,
        },
        None => None,
    }
}

/// The heading token of a section node: the first text content found by
/// descending into the node's first child's first child. Used purely for
/// classification against the part-of-speech vocabulary.
pub open spec fn heading_token(n: Node) -> Option<Seq<char>> {
    spec_first_child_text(first_child(n))
}

/// Lifts an optional node reference to the optional node it refers to.
pub open spec fn opt_node(node: Option<&Node>) -> Option<Node> {
    match node {
        Some(n) => Some(*n),
        None => None,
    }
}

/// The first child of a node, if any.
pub fn first_child_ref(n: &Node) -> (r: Option<&Node>)
    ensures
        match r {
            Some(c) => first_child(*n) == Some(*c),
            None => first_child(*n) is None,
        },
{
    match n {
        Node::Element(e) => {
            if e.children.len() > 0 {
                Some(&e.children[0])
            } else {
                None
            }
        },
        Node::Text(_) => None,
        Node::Opaque(cs) => {
            if cs.len() > 0 {
                Some(&cs[0])
            } else {
                None
            }
        },
    }
}

/// The children of a node; `None` for a text node, which has none.
pub fn children_ref(n: &Node) -> (r: Option<&Vec<Node>>)
    ensures
        match r {
            Some(v) => children_of(*n) == v@,
            None => children_of(*n) == Seq::<Node>::empty(),
        },
{
    match n {
        Node::Element(e) => Some(&e.children),
        Node::Text(_) => None,
        Node::Opaque(cs) => Some(cs),
    }
}

/// The text content of the given node's first child, when that child is a
/// text node; `None` otherwise.
pub fn get_first_child_text<'a>(node: Option<&'a Node>) -> (r: Option<&'a String>)
    ensures
        match r {
            Some(t) => spec_first_child_text(opt_node(node)) == Some(t@),
            None => spec_first_child_text(opt_node(node)) is None,
        },
{
    match node {
        Some(n) => match first_child_ref(n) {
            Some(Node::Text(t)) => Some(t),
            _ => None,
        },
        None => None,
    }
}

/// The heading token of a section node: the first text content of its first
/// child's first child.
pub fn heading_of<'a>(n: &'a Node) -> (r: Option<&'a String>)
    ensures
        match r {
            Some(t) => heading_token(*n) == Some(t@),
            None => heading_token(*n) is None,
        },
{
    get_first_child_text(first_child_ref(n))
}

} // verus!
