//! The HTML document tree, as the `soup` crate parses and queries it.
//!
//! Nodes are `html5ever`'s reference-counted DOM nodes, opaque here. Each
//! node carries where it was found: the document parsed from a text, or the
//! `i`-th node that a query finds under another node. Parsing and querying
//! are functions of the text alone, so what a query finds, and a node's
//! text, attributes and HTML, are named by where the node was found.
use std::rc::Rc;
use vstd::prelude::*;
use soup::NodeExt;
use soup::QueryBuilderExt;

verus! {

#[verifier::external_type_specification]
#[verifier::external_body]
pub struct ExDomNode(html5ever::rcdom::Node);

/// A query of `soup`'s: the elements with a class, the elements with a tag
/// name, or the elements whose attribute has a value.
pub enum Query {
    Class(Seq<char>),
    Tag(Seq<char>),
    Attr(Seq<char>, Seq<char>),
}

/// Where a node was found: the document that `soup::Soup::new` parses from
/// a text, or the `index`-th node (from 0, in document order) that a query
/// finds under another node.
pub enum NodeAt {
    Document(Seq<char>),
    Found(Box<NodeAt>, Query, nat),
}

/// The `i`-th node that `q` finds under the node at `at`.
pub open spec fn found(at: NodeAt, q: Query, i: nat) -> NodeAt {
    NodeAt::Found(Box::new(at), q, i)
}

/// How many nodes `soup`'s query `q` finds under the node at `at`
/// (`find_all`).
pub uninterp spec fn found_count(at: NodeAt, q: Query) -> nat;

/// The text of the node at `at`, as `NodeExt::text` gives it.
pub uninterp spec fn text_of(at: NodeAt) -> Seq<char>;

/// The value of the attribute `name` of the node at `at`, as `NodeExt::get`
/// gives it.
pub uninterp spec fn attr_of(at: NodeAt, name: Seq<char>) -> Option<Seq<char>>;

/// The HTML of the node at `at`, as `NodeExt::display` gives it.
pub uninterp spec fn html_of(at: NodeAt) -> Seq<char>;

/// A node of a parsed page, with where it was found.
pub struct DomNode {
    node: Rc<html5ever::rcdom::Node>,
    at: Ghost<NodeAt>,
}

impl DomNode {
    /// Where the node was found.
    pub closed spec fn at(&self) -> NodeAt {
        self.at@
    }
}

/// The kinds of query, with their texts.
pub enum QueryKind {
    Class,
    Tag,
    Attr,
}

/// The query of kind `kind` with the texts `a` (and `b`, the value, for an
/// attribute).
pub open spec fn query_of(kind: QueryKind, a: Seq<char>, b: Seq<char>) -> Query {
    match kind {
        QueryKind::Class => Query::Class(a),
        QueryKind::Tag => Query::Tag(a),
        QueryKind::Attr => Query::Attr(a, b),
    }
}

/// The node `n` of the document parsed from `html`.
fn document_node(n: Rc<html5ever::rcdom::Node>, html: &str) -> (d: DomNode)
    ensures
        d.at() == NodeAt::Document(html@),
{
    DomNode { node: n, at: Ghost(NodeAt::Document(html@)) }
}

/// The node `n`, found as the `i`-th result of a query under `parent`.
fn found_node(n: Rc<html5ever::rcdom::Node>, parent: &DomNode, kind: QueryKind, a: &str, b: &str, i: usize) -> (d: DomNode)
    ensures
        d.at() == found(parent.at(), query_of(kind, a@, b@), i as nat),
{
    DomNode { node: n, at: Ghost(found(parent.at(), query_of(kind, a@, b@), i as nat)) }
}

/// Trusted: parses `html` with `soup::Soup::new` and returns the document's
/// root node.
#[verifier::external_body]
pub(crate) fn parse_document(html: &str) -> (d: DomNode)
    ensures
        d.at() == NodeAt::Document(html@),
{
    document_node(soup::Soup::new(html).get_handle(), html)
}

/// Trusted: `class(name).find_all()` on `node`, collected in document
/// order: as many nodes as the query finds, each where it was found.
#[verifier::external_body]
pub(crate) fn find_all_class(node: &DomNode, name: &str) -> (r: Vec<DomNode>)
    ensures
        r@.len() == found_count(node.at(), Query::Class(name@)),
        forall|i: int| 0 <= i < r@.len() ==> (#[trigger] r@[i]).at() == found(node.at(), Query::Class(name@), i as nat),
{
    node.node.class(name).find_all().enumerate().map(|(i, n)| found_node(n, node, QueryKind::Class, name, "", i)).collect()
}

/// Trusted: `tag(name).find_all()` on `node`, collected in document order:
/// as many nodes as the query finds, each where it was found.
#[verifier::external_body]
pub(crate) fn find_all_tag(node: &DomNode, name: &str) -> (r: Vec<DomNode>)
    ensures
        r@.len() == found_count(node.at(), Query::Tag(name@)),
        forall|i: int| 0 <= i < r@.len() ==> (#[trigger] r@[i]).at() == found(node.at(), Query::Tag(name@), i as nat),
{
    node.node.tag(name).find_all().enumerate().map(|(i, n)| found_node(n, node, QueryKind::Tag, name, "", i)).collect()
}

/// Trusted: `class(name).find()` on `node`: the first node the query finds,
/// if it finds any (`find` takes the first result of the same iteration
/// as `find_all`).
#[verifier::external_body]
pub(crate) fn find_class(node: &DomNode, name: &str) -> (r: Option<DomNode>)
    ensures
        r is Some <==> found_count(node.at(), Query::Class(name@)) > 0,
        r matches Some(d) ==> d.at() == found(node.at(), Query::Class(name@), 0),
{
    node.node.class(name).find().map(|n| found_node(n, node, QueryKind::Class, name, "", 0))
}

/// Trusted: `tag(name).find()` on `node`: the first node the query finds,
/// if it finds any.
#[verifier::external_body]
pub(crate) fn find_tag(node: &DomNode, name: &str) -> (r: Option<DomNode>)
    ensures
        r is Some <==> found_count(node.at(), Query::Tag(name@)) > 0,
        r matches Some(d) ==> d.at() == found(node.at(), Query::Tag(name@), 0),
{
    node.node.tag(name).find().map(|n| found_node(n, node, QueryKind::Tag, name, "", 0))
}

/// Trusted: `attr(name, value).find()` on `node`: the first element whose
/// attribute `name` matches `value`, if any.
#[verifier::external_body]
pub(crate) fn find_attr(node: &DomNode, name: &str, value: &str) -> (r: Option<DomNode>)
    ensures
        r is Some <==> found_count(node.at(), Query::Attr(name@, value@)) > 0,
        r matches Some(d) ==> d.at() == found(node.at(), Query::Attr(name@, value@), 0),
{
    node.node.attr(name, value).find().map(|n| found_node(n, node, QueryKind::Attr, name, value, 0))
}

/// Trusted: `NodeExt::text`, the node's text.
#[verifier::external_body]
pub(crate) fn node_text(node: &DomNode) -> (s: String)
    ensures
        s@ == text_of(node.at()),
{
    node.node.text()
}

/// Trusted: `NodeExt::get`, the value of the node's attribute `name`, if it
/// has one.
#[verifier::external_body]
pub(crate) fn node_attr(node: &DomNode, name: &str) -> (r: Option<String>)
    ensures
        crate::sources::page::text_view(r) == attr_of(node.at(), name@),
{
    node.node.get(name)
}

/// Trusted: `NodeExt::display`, the node's HTML.
#[verifier::external_body]
pub(crate) fn node_display(node: &DomNode) -> (s: String)
    ensures
        s@ == html_of(node.at()),
{
    node.node.display()
}

} // verus!
