//! HTML trees as plain values, and the parser and serializer of `html5ever`.
use crate::text::{byte_len, bytes_up_to, char_width, chars_of, utf8_width};
use html5ever::serialize::{SerializeOpts, TraversalScope};
use html5ever::tendril::TendrilSink;
use html5ever::{Attribute, LocalName, Namespace, ParseOpts, QualName};
use markup5ever_rcdom::{Node, NodeData, RcDom, SerializableHandle};
use std::cell::RefCell;
use std::rc::Rc;
use vstd::prelude::*;

verus! {

/// An attribute of an element: its namespace, local name and value.
pub struct Attr {
    pub ns: String,
    pub name: String,
    pub value: String,
}

/// What one node of a document is, apart from its place in the tree.
pub enum NodeKind {
    Document,
    /// The name, public id and system id of a document type.
    Doctype(String, String, String),
    Text(String),
    Comment(String),
    Element { ns: String, tag: String, attrs: Vec<Attr> },
    /// The target and the contents of a processing instruction.
    Instruction(String, String),
}

/// The text of an [`Attr`].
#[verifier::ext_equal]
pub struct AttrModel {
    pub ns: Seq<char>,
    pub name: Seq<char>,
    pub value: Seq<char>,
}

/// The text of a [`NodeKind`].
#[verifier::ext_equal]
pub enum Kind {
    Document,
    Doctype(Seq<char>, Seq<char>, Seq<char>),
    Text(Seq<char>),
    Comment(Seq<char>),
    Element { ns: Seq<char>, tag: Seq<char>, attrs: Seq<AttrModel> },
    Instruction(Seq<char>, Seq<char>),
}

impl View for Attr {
    type V = AttrModel;

    open spec fn view(&self) -> AttrModel {
        AttrModel { ns: self.ns@, name: self.name@, value: self.value@ }
    }
}

pub open spec fn attr_views(attrs: Seq<Attr>) -> Seq<AttrModel> {
    attrs.map_values(|a: Attr| a@)
}

impl View for NodeKind {
    type V = Kind;

    open spec fn view(&self) -> Kind {
        match *self {
            NodeKind::Document => Kind::Document,
            NodeKind::Doctype(name, public_id, system_id) => Kind::Doctype(
                name@,
                public_id@,
                system_id@,
            ),
            NodeKind::Text(text) => Kind::Text(text@),
            NodeKind::Comment(text) => Kind::Comment(text@),
            NodeKind::Element { ns, tag, attrs } => Kind::Element {
                ns: ns@,
                tag: tag@,
                attrs: attr_views(attrs@),
            },
            NodeKind::Instruction(target, contents) => Kind::Instruction(target@, contents@),
        }
    }
}

/// A node with everything below it.
#[verifier::ext_equal]
pub struct HtmlTree {
    pub kind: Kind,
    pub children: Seq<HtmlTree>,
}

/// How many nodes a tree has.
pub open spec fn tree_size(t: HtmlTree) -> nat
    decreases t, t.children.len() + 1,
{
    1 + forest_size(t, t.children.len())
}

/// How many nodes the first `n` subtrees below the root of `t` have.
pub open spec fn forest_size(t: HtmlTree, n: nat) -> nat
    decreases t, n,
{
    if n == 0 || n > t.children.len() {
        0
    } else {
        forest_size(t, (n - 1) as nat) + tree_size(t.children[n - 1])
    }
}

/// A tree in which no node is a document node.
pub open spec fn no_document(t: HtmlTree) -> bool
    decreases t,
{
    &&& t.kind != Kind::Document
    &&& forall|i: int| 0 <= i < t.children.len() ==> no_document(#[trigger] t.children[i])
}

/// Trees in which no node is a document node.
pub open spec fn none_is_document(s: Seq<HtmlTree>) -> bool {
    forall|i: int| 0 <= i < s.len() ==> no_document(#[trigger] s[i])
}

/// A node of `markup5ever_rcdom`.
#[verifier::external_type_specification]
#[verifier::external_body]
pub struct ExNode(markup5ever_rcdom::Node);

/// What a node of `markup5ever_rcdom` holds: its data and, in order, its children. A
/// tree that is dropped takes the children from its nodes, those that are still held
/// among them. So this is said only of nodes inside the types of this file: a
/// [`Parsed`] holds its root for as long as a [`Handle`] into it is around, and a
/// [`Built`] is the only way to its node.
pub uninterp spec fn node_tree(n: Rc<Node>) -> HtmlTree;

/// A parsed tree, held by its root.
pub(crate) struct Parsed {
    root: Rc<Node>,
}

/// A node of a parsed tree, which is held meanwhile.
pub(crate) struct Handle<'a> {
    node: Rc<Node>,
    owner: &'a Parsed,
}

/// A tree that was put together. Nothing else holds any of its nodes.
pub(crate) struct Built {
    node: Rc<Node>,
}

/// What `html5ever::parse_document` makes of a text.
pub uninterp spec fn parsed_document(html: Seq<char>) -> HtmlTree;

/// What `html5ever::parse_fragment` makes of a text inside an element of the given name.
pub uninterp spec fn parsed_fragment(context: Seq<char>, html: Seq<char>) -> HtmlTree;

/// What `html5ever::serialize` writes for a tree, with or without its root.
pub uninterp spec fn serialized(t: HtmlTree, with_root: bool) -> Seq<char>;

/// The most bytes that a character takes in the parser's buffers: a null character can
/// be replaced by one of three bytes, and a character reference stands for at most one
/// byte more than it is written with.
pub open spec fn buffered(c: char) -> nat {
    if c == '\0' {
        3
    } else if c == '&' {
        2
    } else {
        utf8_width(c)
    }
}

/// The most bytes that a text takes in the parser's buffers.
pub open spec fn buffered_len(s: Seq<char>) -> nat
    decreases s.len(),
{
    if s.len() == 0 {
        0
    } else {
        buffered(s[0]) + buffered_len(s.skip(1))
    }
}

/// A character at which the parser cuts text into pieces.
pub open spec fn cuts(c: char) -> bool {
    c == '<' || c == '&' || c == '\0' || c == ' ' || c == '\t' || c == '\n' || c == '\r' || c
        == '\u{c}'
}

/// A text that the parser takes as one piece.
pub open spec fn one_piece(s: Seq<char>) -> bool {
    forall|i: int| 0 <= i < s.len() ==> !cuts(#[trigger] s[i])
}

/// A text that the parser's buffers can hold, whatever its markup: a buffer that is added
/// to grows up to the greatest power of two that is a 32-bit number, and one that is not
/// added to can have any 32-bit size. Which buffers a longer text fills is known only once
/// it is parsed.
pub open spec fn parsable(html: Seq<char>) -> bool {
    buffered_len(html) <= 0x8000_0000 || one_piece(html) && byte_len(html) <= u32::MAX
}

/// Whether the parser's buffers can hold a text.
pub(crate) fn can_parse(html: &str) -> (r: bool)
    ensures
        r == parsable(html@),
{
    let v = chars_of(html);
    let mut i: usize = 0;
    let mut left: usize = 0x8000_0000;
    assert(v@.skip(0) == v@);
    while i < v.len()
        invariant
            i <= v@.len(),
            v@ == html@,
            left <= 0x8000_0000,
            buffered_len(html@) == 0x8000_0000 - left + buffered_len(v@.skip(i as int)),
        decreases v@.len() - i,
    {
        let c = v[i];
        let n: usize = if c == '\0' {
            3
        } else if c == '&' {
            2
        } else {
            char_width(c)
        };
        assert(v@.skip(i as int).skip(1) == v@.skip(i + 1));
        if n > left {
            return is_one_piece(&v) && bytes_up_to(html, u32::MAX as usize).is_some();
        }
        left = left - n;
        i = i + 1;
    }
    true
}

fn is_one_piece(v: &Vec<char>) -> (r: bool)
    ensures
        r == one_piece(v@),
{
    let mut i: usize = 0;
    while i < v.len()
        invariant
            i <= v@.len(),
            forall|j: int| 0 <= j < i ==> !cuts(#[trigger] v@[j]),
        decreases v@.len() - i,
    {
        let c = v[i];
        if c == '<' || c == '&' || c == '\0' || c == ' ' || c == '\t' || c == '\n' || c == '\r' || c
            == '\u{c}' {
            assert(cuts(v@[i as int]));
            return false;
        }
        i = i + 1;
    }
    true
}

/// The texts of a node fit the serializer's buffers.
pub open spec fn kind_fits(k: Kind) -> bool {
    match k {
        Kind::Document => true,
        Kind::Doctype(a, b, c) => byte_len(a) <= u32::MAX && byte_len(b) <= u32::MAX && byte_len(c)
            <= u32::MAX,
        Kind::Text(t) => byte_len(t) <= u32::MAX,
        Kind::Comment(t) => byte_len(t) <= u32::MAX,
        Kind::Element { attrs, .. } => attrs_fit(attrs),
        Kind::Instruction(a, b) => byte_len(a) <= u32::MAX && byte_len(b) <= u32::MAX,
    }
}

pub open spec fn attrs_fit(attrs: Seq<AttrModel>) -> bool {
    forall|i: int| 0 <= i < attrs.len() ==> byte_len((#[trigger] attrs[i]).value) <= u32::MAX
}

/// Calls `html5ever::parse_document` with default options. The result holds the
/// document node of the tree, which depends on the text alone; no node below it
/// is a document node. Text that does not fit a buffer panics there.
#[verifier::external_body]
fn open_document(html: &str) -> (r: Parsed)
    requires
        parsable(html@),
    ensures
        node_tree(r.root) == parsed_document(html@),
        node_tree(r.root).kind == Kind::Document,
        none_is_document(node_tree(r.root).children),
{
    Parsed { root: html5ever::parse_document(RcDom::default(), ParseOpts::default()).one(html).document }
}

/// Calls `html5ever::parse_fragment` with default options, in the context of an
/// HTML element of the given name that does not allow scripting. The result holds
/// the document node of the tree, which depends on the two texts alone; no node
/// below it is a document node. Text that does not fit a buffer panics there.
#[verifier::external_body]
fn open_fragment(context: &str, html: &str) -> (r: Parsed)
    requires
        parsable(html@),
    ensures
        node_tree(r.root) == parsed_fragment(context@, html@),
        none_is_document(node_tree(r.root).children),
{
    let name = QualName::new(None, Namespace::from(HTML_NS), LocalName::from(context));
    Parsed { root: html5ever::parse_fragment(RcDom::default(), ParseOpts::default(), name, Vec::new(), false).one(html).document }
}

/// An attribute with this namespace, local name and value.
fn attr(ns: &str, name: &str, value: &str) -> (r: Attr)
    ensures
        r@ == (AttrModel { ns: ns@, name: name@, value: value@ }),
{
    Attr { ns: ns.to_owned(), name: name.to_owned(), value: value.to_owned() }
}

/// Reads `Node::data` of `markup5ever_rcdom`. No text of a node is longer than
/// its buffer type can hold.
#[verifier::external_body]
fn kind_of(h: &Handle) -> (r: NodeKind)
    ensures
        r@ == node_tree(h.node).kind,
        kind_fits(r@),
{
    match &h.node.data {
        NodeData::Document => NodeKind::Document,
        NodeData::Doctype { name, public_id, system_id } => NodeKind::Doctype(name.to_string(), public_id.to_string(), system_id.to_string()),
        NodeData::Text { contents } => NodeKind::Text(contents.borrow().to_string()),
        NodeData::Comment { contents } => NodeKind::Comment(contents.to_string()),
        NodeData::Element { name, attrs, .. } => NodeKind::Element { ns: name.ns.to_string(), tag: name.local.to_string(),
            attrs: attrs.borrow().iter().map(|a| attr(&a.name.ns, &a.name.local, &a.value)).collect() },
        NodeData::ProcessingInstruction { target, contents } => NodeKind::Instruction(target.to_string(), contents.to_string()),
    }
}

/// Reads `Node::children` of `markup5ever_rcdom`.
#[verifier::external_body]
fn children_of<'a>(h: &Handle<'a>) -> (r: Vec<Handle<'a>>)
    ensures
        r@.map_values(|c: Handle<'a>| node_tree(c.node)) == node_tree(h.node).children,
{
    h.node.children.borrow().iter().map(|c| Handle { node: c.clone(), owner: h.owner }).collect()
}

impl Parsed {
    pub(crate) closed spec fn tree(&self) -> HtmlTree {
        node_tree(self.root)
    }

    /// Parses a document.
    pub(crate) fn document(html: &str) -> (r: Parsed)
        requires
            parsable(html@),
        ensures
            r.tree() == parsed_document(html@),
            r.tree().kind == Kind::Document,
            none_is_document(r.tree().children),
    {
        open_document(html)
    }

    /// Parses what stands inside an element of the given name.
    pub(crate) fn fragment(context: &str, html: &str) -> (r: Parsed)
        requires
            parsable(html@),
        ensures
            r.tree() == parsed_fragment(context@, html@),
            none_is_document(r.tree().children),
    {
        open_fragment(context, html)
    }

    /// The root of the tree.
    pub(crate) fn top(&self) -> (r: Handle<'_>)
        ensures
            r.tree() == self.tree(),
    {
        Handle { node: self.root.clone(), owner: self }
    }
}

impl<'a> Handle<'a> {
    pub(crate) closed spec fn tree(&self) -> HtmlTree {
        node_tree(self.node)
    }

    pub(crate) fn kind(&self) -> (r: NodeKind)
        ensures
            r@ == self.tree().kind,
            kind_fits(r@),
    {
        kind_of(self)
    }

    pub(crate) fn children(&self) -> (r: Vec<Handle<'a>>)
        ensures
            handle_trees(r@) == self.tree().children,
    {
        let r = children_of(self);
        assert(handle_trees(r@) =~= r@.map_values(|c: Handle<'a>| node_tree(c.node)));
        r
    }
}

/// The trees of a list of nodes.
pub(crate) open spec fn handle_trees(s: Seq<Handle>) -> Seq<HtmlTree> {
    s.map_values(|h: Handle| h.tree())
}

/// Makes an element with `Node::new` of `markup5ever_rcdom` and gives it its children.
#[verifier::external_body]
fn put_element(ns: &str, tag: &str, attrs: &Vec<Attr>, children: Vec<Built>) -> (r: Built)
    requires
        attrs_fit(attr_views(attrs@)),
    ensures
        node_tree(r.node) == (HtmlTree {
            kind: Kind::Element { ns: ns@, tag: tag@, attrs: attr_views(attrs@) },
            children: children@.map_values(|c: Built| node_tree(c.node)),
        }),
{
    let node = Node::new(NodeData::Element {
        name: QualName::new(None, Namespace::from(ns), LocalName::from(tag)),
        attrs: RefCell::new(attrs.iter().map(|a| Attribute { name: QualName::new(None, Namespace::from(a.ns.as_str()), LocalName::from(a.name.as_str())), value: a.value.as_str().into() }).collect()),
        template_contents: RefCell::new(None),
        mathml_annotation_xml_integration_point: false,
    });
    *node.children.borrow_mut() = children.into_iter().map(|c| c.node).collect();
    Built { node }
}

/// Makes a node other than an element with `Node::new` of `markup5ever_rcdom`
/// and gives it its children.
#[verifier::external_body]
fn put_plain(kind: &NodeKind, children: Vec<Built>) -> (r: Built)
    requires
        kind_fits(kind@),
        !(kind is Element),
    ensures
        node_tree(r.node) == (HtmlTree {
            kind: kind@,
            children: children@.map_values(|c: Built| node_tree(c.node)),
        }),
{
    let node = Node::new(match kind {
        NodeKind::Doctype(a, b, c) => NodeData::Doctype { name: a.as_str().into(), public_id: b.as_str().into(), system_id: c.as_str().into() },
        NodeKind::Text(t) => NodeData::Text { contents: RefCell::new(t.as_str().into()) },
        NodeKind::Comment(t) => NodeData::Comment { contents: t.as_str().into() },
        NodeKind::Instruction(a, b) => NodeData::ProcessingInstruction { target: a.as_str().into(), contents: b.as_str().into() },
        _ => NodeData::Document,
    });
    *node.children.borrow_mut() = children.into_iter().map(|c| c.node).collect();
    Built { node }
}

/// Calls `html5ever::serialize` on a node, with the node itself or with its
/// children only. What is written depends on the tree alone. The call does not
/// take a document node among what it writes.
#[verifier::external_body]
fn write_out(h: &Built, with_root: bool) -> (r: String)
    requires
        with_root ==> no_document(node_tree(h.node)),
        none_is_document(node_tree(h.node).children),
    ensures
        r@ == serialized(node_tree(h.node), with_root),
{
    let scope = if with_root { TraversalScope::IncludeNode } else { TraversalScope::ChildrenOnly(None) };
    let mut buf = Vec::new();
    let opts = SerializeOpts { traversal_scope: scope, ..SerializeOpts::default() };
    let _ = html5ever::serialize(&mut buf, &SerializableHandle::from(h.node.clone()), opts);
    String::from_utf8_lossy(&buf).into_owned()
}

impl Built {
    pub(crate) closed spec fn tree(&self) -> HtmlTree {
        node_tree(self.node)
    }

    /// An element with its children.
    pub(crate) fn element(ns: &str, tag: &str, attrs: &Vec<Attr>, children: Vec<Built>) -> (r: Built)
        requires
            attrs_fit(attr_views(attrs@)),
        ensures
            r.tree() == (HtmlTree {
                kind: Kind::Element { ns: ns@, tag: tag@, attrs: attr_views(attrs@) },
                children: built_trees(children@),
            }),
    {
        assert(built_trees(children@) =~= children@.map_values(|c: Built| node_tree(c.node)));
        put_element(ns, tag, attrs, children)
    }

    /// A node other than an element with its children.
    pub(crate) fn plain(kind: &NodeKind, children: Vec<Built>) -> (r: Built)
        requires
            kind_fits(kind@),
            !(kind is Element),
        ensures
            r.tree() == (HtmlTree { kind: kind@, children: built_trees(children@) }),
    {
        assert(built_trees(children@) =~= children@.map_values(|c: Built| node_tree(c.node)));
        put_plain(kind, children)
    }

    /// The tree as HTML, with its root or with what is below it only.
    pub(crate) fn serialize(&self, with_root: bool) -> (r: String)
        requires
            with_root ==> no_document(self.tree()),
            none_is_document(self.tree().children),
        ensures
            r@ == serialized(self.tree(), with_root),
    {
        write_out(self, with_root)
    }
}

/// The trees of a list of nodes that were put together.
pub(crate) open spec fn built_trees(s: Seq<Built>) -> Seq<HtmlTree> {
    s.map_values(|b: Built| b.tree())
}

/// The namespace of HTML elements.
pub const HTML_NS: &'static str = "http://www.w3.org/1999/xhtml";

} // verus!
