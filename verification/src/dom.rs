//! A document as a table of nodes with stable ids.
pub mod change;
pub mod edit;
pub mod find;
pub mod html;
pub mod laws;
pub mod model;
pub mod pick;
pub mod read;
pub mod selector;

use crate::dom::edit::{
    appended, appending_keeps_trees, below, cleared, clearing_keeps_trees, clearing_keeps_walks,
    embeds, embeds_frame, forest_grows, freed, graft_keeps_trees, graft_keeps_walks, grafted, lone,
    removed, removing_keeps_trees, without,
};
use crate::dom::html::{
    attr_views, attrs_fit, built_trees, can_parse, forest_size, handle_trees, kind_fits,
    no_document, parsable, parsed_document, parsed_fragment, serialized, tree_size, Attr, AttrModel,
    Built, Handle, HtmlTree, Kind, NodeKind, Parsed, HTML_NS,
};
use crate::dom::model::{
    agrees, any_kind, evolves, first_named, first_named_below, found, found_below, hides_text, ids,
    known, known_only, known_only_adds, known_only_picks, linked, own_text, plain,
    ranked, rooted, subtree, subtree_step, text_below, text_of, texts_fit, tree_like, walkable,
    NodeModel, IdTree,
};
use crate::dom::selector::{parsed_selector, selects, Selector, SimpleSelector};
use crate::text::{byte_len, decimal, push_decimal, same, trim, trimmed};
use vstd::prelude::*;
use vstd::string::*;

verus! {

/// Why an operation on a document fails.
#[derive(Debug)]
pub enum Error {
    Parse(String),
    Serialize(String),
    UnknownNode(u32),
}

/// An error in words.
pub open spec fn error_text(e: Error) -> Seq<char> {
    match e {
        Error::Parse(m) => "parse error: "@ + m@,
        Error::Serialize(m) => "serialize error: "@ + m@,
        Error::UnknownNode(id) => "unknown node id "@ + decimal(id as nat),
    }
}

impl Error {
    /// The error in words.
    pub fn message(&self) -> (r: String)
        ensures
            r@ == error_text(*self),
    {
        match self {
            Error::Parse(m) => {
                let mut s = "parse error: ".to_owned();
                s.append(m.as_str());
                s
            },
            Error::Serialize(m) => {
                let mut s = "serialize error: ".to_owned();
                s.append(m.as_str());
                s
            },
            Error::UnknownNode(id) => {
                let mut s = "unknown node id ".to_owned();
                push_decimal(&mut s, *id as u64);
                s
            },
        }
    }
}

/// Stable identity of a node. Ids are never reused.
#[derive(Debug, Copy, Clone, PartialEq, Eq, Hash, Structural)]
pub struct NodeId(pub u32);

impl NodeId {
    /// The id of the document node.
    pub fn document() -> (r: NodeId)
        ensures
            r == NodeId(0),
    {
        NodeId(0)
    }

    pub fn raw(self) -> (r: u32)
        ensures
            r == self.0,
    {
        self.0
    }
}

/// One entry of the table of a [`Document`].
pub struct NodeEntry {
    kind: NodeKind,
    parent: Option<usize>,
    children: Vec<usize>,
    live: bool,
}

pub struct Document {
    nodes: Vec<NodeEntry>,
}

spec fn positions(s: Seq<usize>) -> Seq<int> {
    s.map_values(|i: usize| i as int)
}

impl View for NodeEntry {
    type V = NodeModel;

    closed spec fn view(&self) -> NodeModel {
        NodeModel {
            kind: self.kind@,
            parent: match self.parent {
                Some(p) => Some(p as int),
                None => None,
            },
            children: positions(self.children@),
            live: self.live,
        }
    }
}

impl View for Document {
    type V = Seq<NodeModel>;

    closed spec fn view(&self) -> Seq<NodeModel> {
        self.nodes@.map_values(|n: NodeEntry| n@)
    }
}

/// The ids as positions in the table.
pub open spec fn raw_ids(v: Seq<NodeId>) -> Seq<int> {
    v.map_values(|n: NodeId| n.0 as int)
}

pub open spec fn raw_id(r: Option<NodeId>) -> Option<int> {
    match r {
        Some(id) => Some(id.0 as int),
        None => None,
    }
}

pub open spec fn first_of(s: Seq<int>) -> Option<int> {
    if s.len() > 0 {
        Some(s[0])
    } else {
        None
    }
}

pub open spec fn text_view(r: Option<String>) -> Option<Seq<char>> {
    match r {
        Some(s) => Some(s@),
        None => None,
    }
}

/// The elements with exactly this name.
pub open spec fn is_tag(tag: Seq<char>) -> spec_fn(Kind) -> bool {
    |k: Kind| k is Element && k->tag == tag
}

/// The elements that a selector matches.
pub open spec fn is_selected(sel: Selector) -> spec_fn(Kind) -> bool {
    |k: Kind| selects(sel, k)
}

/// The first element with this name at or below `id`, where `id` is known.
pub open spec fn tag_below(d: Seq<NodeModel>, id: int, tag: Seq<char>) -> Option<int> {
    if known(d, id) {
        first_named(d, subtree(d, id), is_tag(tag))
    } else {
        None
    }
}

/// The known nodes below `id` that a selector matches, in document order.
pub open spec fn selected_below(d: Seq<NodeModel>, id: int, selector: Seq<char>) -> Seq<int> {
    match parsed_selector(selector) {
        Some(sel) if known(d, id) => {
            let t = subtree(d, id);
            known_only(d, found_below(t, t.children.len(), is_selected(sel)))
        },
        _ => seq![],
    }
}

/// The parent of `id`, where both are known.
pub open spec fn parent_at(d: Seq<NodeModel>, id: int) -> Option<int> {
    if known(d, id) && d[id].parent is Some && known(d, d[id].parent->0) {
        d[id].parent
    } else {
        None
    }
}

/// The text at or below `id`, where `id` is known.
pub open spec fn text_at(d: Seq<NodeModel>, id: int, raw: bool) -> Seq<char> {
    if known(d, id) {
        text_of(subtree(d, id), raw)
    } else {
        seq![]
    }
}

/// The position of the first attribute with this local name, or how many there are.
pub open spec fn attr_pos(attrs: Seq<AttrModel>, name: Seq<char>) -> int
    decreases attrs.len(),
{
    if attrs.len() == 0 || attrs[0].name == name {
        0
    } else {
        1 + attr_pos(attrs.skip(1), name)
    }
}

/// The value of the first attribute with this local name.
pub open spec fn attr_value(k: Kind, name: Seq<char>) -> Option<Seq<char>> {
    match k {
        Kind::Element { attrs, .. } => {
            let i = attr_pos(attrs, name);
            if i < attrs.len() {
                Some(attrs[i].value)
            } else {
                None
            }
        },
        _ => None,
    }
}

/// The attribute of a node of the document.
pub open spec fn attr_at(d: Seq<NodeModel>, id: int, name: Seq<char>) -> Option<Seq<char>> {
    if known(d, id) {
        attr_value(d[id].kind, name)
    } else {
        None
    }
}

/// The name of an element of the document.
pub open spec fn tag_at(d: Seq<NodeModel>, id: int) -> Option<Seq<char>> {
    if known(d, id) && d[id].kind is Element {
        Some(d[id].kind->tag)
    } else {
        None
    }
}

/// The attributes once `name` has the given value: the first one of that name
/// takes it, and where there is none, one is added.
pub open spec fn with_attr(
    attrs: Seq<AttrModel>,
    name: Seq<char>,
    value: Seq<char>,
) -> Seq<AttrModel> {
    let i = attr_pos(attrs, name);
    if i < attrs.len() {
        attrs.update(i, AttrModel { value, ..attrs[i] })
    } else {
        attrs.push(AttrModel { ns: seq![], name, value })
    }
}

/// The attributes that have another local name.
pub open spec fn without_attr(attrs: Seq<AttrModel>, name: Seq<char>) -> Seq<AttrModel>
    decreases attrs.len(),
{
    if attrs.len() == 0 {
        seq![]
    } else if attrs.last().name == name {
        without_attr(attrs.drop_last(), name)
    } else {
        without_attr(attrs.drop_last(), name).push(attrs.last())
    }
}

/// The entry with other attributes, where it is an element.
pub open spec fn with_attrs(n: NodeModel, attrs: Seq<AttrModel>) -> NodeModel {
    match n.kind {
        Kind::Element { ns, tag, .. } => NodeModel { kind: Kind::Element { ns, tag, attrs }, ..n },
        _ => n,
    }
}

/// What a walk looks for.
enum Probe {
    Any,
    Tag(String),
    Select(SimpleSelector),
}

impl Probe {
    spec fn sought(&self) -> spec_fn(Kind) -> bool {
        match *self {
            Probe::Any => any_kind(),
            Probe::Tag(t) => is_tag(t@),
            Probe::Select(s) => is_selected(s@),
        }
    }

    fn holds(&self, kind: &NodeKind) -> (r: bool)
        ensures
            r == (self.sought())(kind@),
    {
        match self {
            Probe::Any => true,
            Probe::Tag(t) => match kind {
                NodeKind::Element { ns: _, tag, attrs: _ } => same(tag.as_str(), t.as_str()),
                _ => false,
            },
            Probe::Select(s) => s.matches(kind),
        }
    }
}

fn attr_index(attrs: &Vec<Attr>, name: &str) -> (r: usize)
    ensures
        r == attr_pos(attr_views(attrs@), name@),
        r <= attrs@.len(),
{
    let ghost all = attr_views(attrs@);
    let mut i: usize = 0;
    assert(all.skip(0) == all);
    while i < attrs.len()
        invariant
            i <= attrs@.len(),
            all == attr_views(attrs@),
            attr_pos(all, name@) == i + attr_pos(all.skip(i as int), name@),
        decreases attrs@.len() - i,
    {
        assert(all.skip(i as int)[0] == attrs@[i as int]@);
        if same(attrs[i].name.as_str(), name) {
            return i;
        }
        assert(all.skip(i as int).skip(1) == all.skip(i + 1));
        i = i + 1;
    }
    i
}

/// How many nodes a tree of the parser has, if they are at most `limit`.
fn count_nodes(h: &Handle, limit: usize) -> (r: Option<usize>)
    ensures
        match r {
            Some(n) => n == tree_size(h.tree()) && n <= limit,
            None => tree_size(h.tree()) > limit,
        },
    decreases h.tree(),
{
    let ghost t = h.tree();
    let kids = h.children();
    assert(kids@.len() == t.children.len());
    if limit == 0 {
        return None;
    }
    let mut left: usize = limit - 1;
    let mut i: usize = 0;
    while i < kids.len()
        invariant
            i <= kids@.len(),
            t == h.tree(),
            handle_trees(kids@) == t.children,
            left + 1 + forest_size(t, i as nat) == limit,
        decreases kids@.len() - i,
    {
        assert(handle_trees(kids@)[i as int] == kids@[i as int].tree());
        proof {
            forest_grows(t, (i + 1) as nat, t.children.len());
        }
        match count_nodes(&kids[i], left) {
            Some(n) => {
                left = left - n;
            },
            None => {
                return None;
            },
        }
        i = i + 1;
    }
    Some(limit - left)
}

impl Document {
    /// The document is a forest of nodes, the first of which is the document node.
    pub open spec fn valid(&self) -> bool {
        tree_like(self@) && rooted(self@)
    }

    /// Assigns ids to every node of a tree, parents before their children.
    fn intern_tree(&mut self, h: &Handle, parent: Option<usize>) -> (r: usize)
        requires
            old(self)@.len() + tree_size(h.tree()) <= u32::MAX,
        ensures
            r == old(self)@.len(),
            final(self)@.len() == old(self)@.len() + tree_size(h.tree()),
            forall|i: int| 0 <= i < old(self)@.len() ==> #[trigger] final(self)@[i] == old(self)@[i],
            embeds(
                final(self)@,
                r as int,
                match parent {
                    Some(p) => Some(p as int),
                    None => None,
                },
                h.tree(),
            ),
            texts_fit(old(self)@) ==> texts_fit(final(self)@),
        decreases h.tree(),
    {
        let ghost t = h.tree();
        let ghost before = self@;
        let id: usize = self.nodes.len();
        let kind = h.kind();
        let kids = h.children();
        assert(kids@.len() == t.children.len());
        let mut children: Vec<usize> = Vec::new();
        self.nodes.push(NodeEntry { kind: NodeKind::Document, parent: None, children: Vec::new(), live: true });
        assert(self@.drop_last() == before);
        assert(texts_fit(before) ==> texts_fit(self@)) by {
            assert forall|k: int| texts_fit(before) && 0 <= k < self@.len() implies kind_fits(
                (#[trigger] self@[k]).kind,
            ) by {
                if k < id {
                    assert(self@[k] == before[k]);
                }
            }
        }
        let mut i: usize = 0;
        while i < kids.len()
            invariant
                i <= kids@.len(),
                t == h.tree(),
                handle_trees(kids@) == t.children,
                before.len() + tree_size(t) <= u32::MAX,
                id == before.len(),
                self@.len() == id + 1 + forest_size(t, i as nat),
                children@.len() == i,
                forall|k: int| 0 <= k < id ==> #[trigger] self@[k] == before[k],
                forall|j: int|
                    0 <= j < i ==> {
                        &&& children@[j] == edit::child_place(t, id as int, j)
                        &&& embeds(self@, children@[j] as int, Some(id as int), t.children[j])
                    },
                texts_fit(before) ==> texts_fit(self@),
            decreases kids@.len() - i,
        {
            assert(handle_trees(kids@)[i as int] == kids@[i as int].tree());
            proof {
                forest_grows(t, i as nat, t.children.len());
            }
            let ghost earlier = self@;
            let c = self.intern_tree(&kids[i], Some(id));
            children.push(c);
            proof {
                assert forall|j: int| 0 <= j < i implies embeds(
                    self@,
                    children@[j] as int,
                    Some(id as int),
                    t.children[j],
                ) by {
                    forest_grows(t, j as nat, i as nat);
                    embeds_frame(earlier, self@, children@[j] as int, Some(id as int), t.children[j]);
                }
            }
            i = i + 1;
        }
        let ghost grown = self@;
        self.nodes.set(id, NodeEntry { kind, parent, children, live: true });
        proof {
            assert(self@ =~= grown.update(id as int, self.nodes@[id as int]@));
            let p = match parent {
                Some(p) => Some(p as int),
                None => None,
            };
            assert forall|j: int|
                #![trigger edit::child_place(t, id as int, j)]
                0 <= j < t.children.len() implies {
                &&& self@[id as int].children[j] == edit::child_place(t, id as int, j)
                &&& embeds(
                    self@,
                    edit::child_place(t, id as int, j),
                    Some(id as int),
                    t.children[j],
                )
            } by {
                let c = edit::child_place(t, id as int, j);
                assert(children@[j] == c);
                forest_grows(t, j as nat, t.children.len());
                embeds_frame(grown, self@, c, Some(id as int), t.children[j]);
            }
        }
        id
    }

    /// Parses a complete HTML document and assigns ids to every node. A text that may
    /// not fit the parser's buffers is refused, and so is a tree of more nodes than ids.
    pub fn parse(html: &str) -> (r: Result<Document, Error>)
        ensures
            match r {
                Ok(doc) => {
                    let t = parsed_document(html@);
                    &&& parsable(html@)
                    &&& tree_size(t) <= u32::MAX
                    &&& doc.valid()
                    &&& texts_fit(doc@)
                    &&& doc@.len() == tree_size(t)
                    &&& embeds(doc@, 0, None, t)
                    &&& plain(subtree(doc@, 0)) == t
                },
                Err(e) => e is Parse && !(parsable(html@) && tree_size(parsed_document(html@))
                    <= u32::MAX),
            },
    {
        if !can_parse(html) {
            return Err(Error::Parse("document too large".to_owned()));
        }
        let parsed = Parsed::document(html);
        let root = parsed.top();
        let count = count_nodes(&root, u32::MAX as usize);
        if count.is_none() {
            return Err(Error::Parse("document too large".to_owned()));
        }
        let mut doc = Document { nodes: Vec::new() };
        let ghost empty = doc@;
        assert(ranked(empty, Seq::<nat>::empty()));
        doc.intern_tree(&root, None);
        proof {
            let t = root.tree();
            graft_keeps_trees(empty, doc@, None, t);
            edit::embedded_kinds_below(doc@, 0, None, t, t.children.len());
        }
        Ok(doc)
    }

    fn live_entry(&self, id: NodeId) -> (r: Result<usize, Error>)
        ensures
            match r {
                Ok(i) => i == id.0 && known(self@, id.0 as int) && i < self.nodes@.len(),
                Err(e) => !known(self@, id.0 as int) && e == Error::UnknownNode(id.0),
            },
    {
        let i: usize = id.0 as usize;
        if i < self.nodes.len() && self.nodes[i].live {
            Ok(i)
        } else {
            Err(Error::UnknownNode(id.0))
        }
    }

    // ---- walks -----------------------------------------------------------

    /// Collects what is looked for at and below a node.
    fn collect(&self, i: usize, probe: &Probe, out: &mut Vec<NodeId>, rank: Ghost<Seq<nat>>)
        requires
            linked(self@),
            ranked(self@, rank@),
            i < self.nodes@.len(),
        ensures
            raw_ids(final(out)@) == raw_ids(old(out)@) + found(
                subtree(self@, i as int),
                probe.sought(),
            ),
        decreases rank@[i as int], 1int,
    {
        let ghost t = subtree(self@, i as int);
        let ghost p = probe.sought();
        let ghost before = raw_ids(out@);
        proof {
            subtree_step(self@, i as int);
        }
        if probe.holds(&self.nodes[i].kind) {
            let ghost prior = out@;
            out.push(NodeId(i as u32));
            assert(raw_ids(out@) == raw_ids(prior).push(i as int));
        }
        let ghost head = if p(t.kind) {
            seq![t.id]
        } else {
            seq![]
        };
        assert(raw_ids(out@) =~= before + head);
        self.collect_below(i, probe, out, rank);
        assert(before + head + found_below(t, t.children.len(), p) =~= before + found(t, p));
    }

    /// Collects what is looked for below a node.
    fn collect_below(&self, i: usize, probe: &Probe, out: &mut Vec<NodeId>, rank: Ghost<Seq<nat>>)
        requires
            linked(self@),
            ranked(self@, rank@),
            i < self.nodes@.len(),
        ensures
            raw_ids(final(out)@) == raw_ids(old(out)@) + found_below(
                subtree(self@, i as int),
                subtree(self@, i as int).children.len(),
                probe.sought(),
            ),
        decreases rank@[i as int], 0int,
    {
        let ghost t = subtree(self@, i as int);
        let ghost p = probe.sought();
        let ghost before = raw_ids(out@);
        proof {
            subtree_step(self@, i as int);
        }
        assert(raw_ids(out@) =~= before + found_below(t, 0, p));
        let mut k: usize = 0;
        while k < self.nodes[i].children.len()
            invariant
                linked(self@),
                ranked(self@, rank@),
                i < self.nodes@.len(),
                k <= self.nodes@[i as int].children@.len(),
                t == subtree(self@, i as int),
                p == probe.sought(),
                t.children.len() == self@[i as int].children.len(),
                forall|j: int|
                    0 <= j < t.children.len() ==> #[trigger] t.children[j] == subtree(
                        self@,
                        self@[i as int].children[j],
                    ),
                raw_ids(out@) == before + found_below(t, k as nat, p),
            decreases self.nodes@[i as int].children@.len() - k,
        {
            let c: usize = self.nodes[i].children[k];
            assert(self@[i as int].children[k as int] == c);
            assert(rank@[self@[i as int].children[k as int]] < rank@[i as int]);
            self.collect(c, probe, out, rank);
            assert(t.children[k as int] == subtree(self@, c as int));
            assert(before + found_below(t, k as nat, p) + found(t.children[k as int], p) =~= before
                + found_below(t, (k + 1) as nat, p));
            k = k + 1;
        }
    }

    /// The first node that is looked for; nothing below it is looked at.
    fn first(&self, i: usize, probe: &Probe, rank: Ghost<Seq<nat>>) -> (r: Option<NodeId>)
        requires
            linked(self@),
            ranked(self@, rank@),
            i < self.nodes@.len(),
        ensures
            raw_id(r) == first_named(self@, subtree(self@, i as int), probe.sought()),
        decreases rank@[i as int],
    {
        let ghost t = subtree(self@, i as int);
        let ghost p = probe.sought();
        proof {
            subtree_step(self@, i as int);
        }
        if probe.holds(&self.nodes[i].kind) {
            if self.nodes[i].live {
                return Some(NodeId(i as u32));
            }
            return None;
        }
        let mut k: usize = 0;
        while k < self.nodes[i].children.len()
            invariant
                linked(self@),
                ranked(self@, rank@),
                i < self.nodes@.len(),
                k <= self.nodes@[i as int].children@.len(),
                t == subtree(self@, i as int),
                p == probe.sought(),
                t.children.len() == self@[i as int].children.len(),
                forall|j: int|
                    0 <= j < t.children.len() ==> #[trigger] t.children[j] == subtree(
                        self@,
                        self@[i as int].children[j],
                    ),
                first_named_below(self@, t, k as nat, p) is None,
                first_named(self@, t, p) == first_named_below(self@, t, t.children.len(), p),
            decreases self.nodes@[i as int].children@.len() - k,
        {
            let c: usize = self.nodes[i].children[k];
            assert(self@[i as int].children[k as int] == c);
            assert(rank@[self@[i as int].children[k as int]] < rank@[i as int]);
            let r = self.first(c, probe, rank);
            assert(t.children[k as int] == subtree(self@, c as int));
            if r.is_some() {
                proof {
                    first_named_stays(self@, t, (k + 1) as nat, t.children.len(), p);
                }
                return r;
            }
            k = k + 1;
        }
        None
    }

    /// The first known node that is looked for, at or below a node.
    fn first_known(&self, i: usize, probe: &Probe, rank: Ghost<Seq<nat>>) -> (r: Option<NodeId>)
        requires
            linked(self@),
            ranked(self@, rank@),
            i < self.nodes@.len(),
        ensures
            raw_id(r) == first_of(
                known_only(self@, found(subtree(self@, i as int), probe.sought())),
            ),
        decreases rank@[i as int], 1int,
    {
        let ghost t = subtree(self@, i as int);
        let ghost p = probe.sought();
        let ghost below = found_below(t, t.children.len(), p);
        proof {
            subtree_step(self@, i as int);
        }
        if probe.holds(&self.nodes[i].kind) && self.nodes[i].live {
            proof {
                known_only_adds(self@, seq![t.id], below);
                model::known_only_one(self@, t.id);
            }
            return Some(NodeId(i as u32));
        }
        proof {
            if p(t.kind) {
                known_only_adds(self@, seq![t.id], below);
                model::known_only_one(self@, t.id);
                assert(known_only(self@, found(t, p)) =~= known_only(self@, below));
            } else {
                assert(found(t, p) =~= below);
            }
        }
        self.first_known_below(i, probe, rank)
    }

    /// The first known node that is looked for, below a node.
    fn first_known_below(&self, i: usize, probe: &Probe, rank: Ghost<Seq<nat>>) -> (r: Option<
        NodeId,
    >)
        requires
            linked(self@),
            ranked(self@, rank@),
            i < self.nodes@.len(),
        ensures
            raw_id(r) == first_of(
                known_only(
                    self@,
                    found_below(
                        subtree(self@, i as int),
                        subtree(self@, i as int).children.len(),
                        probe.sought(),
                    ),
                ),
            ),
        decreases rank@[i as int], 0int,
    {
        let ghost t = subtree(self@, i as int);
        let ghost p = probe.sought();
        proof {
            subtree_step(self@, i as int);
        }
        let mut k: usize = 0;
        while k < self.nodes[i].children.len()
            invariant
                linked(self@),
                ranked(self@, rank@),
                i < self.nodes@.len(),
                k <= self.nodes@[i as int].children@.len(),
                t == subtree(self@, i as int),
                p == probe.sought(),
                t.children.len() == self@[i as int].children.len(),
                forall|j: int|
                    0 <= j < t.children.len() ==> #[trigger] t.children[j] == subtree(
                        self@,
                        self@[i as int].children[j],
                    ),
                known_only(self@, found_below(t, k as nat, p)).len() == 0,
            decreases self.nodes@[i as int].children@.len() - k,
        {
            let c: usize = self.nodes[i].children[k];
            assert(self@[i as int].children[k as int] == c);
            assert(rank@[self@[i as int].children[k as int]] < rank@[i as int]);
            let r = self.first_known(c, probe, rank);
            assert(t.children[k as int] == subtree(self@, c as int));
            proof {
                known_only_adds(
                    self@,
                    found_below(t, k as nat, p),
                    found(t.children[k as int], p),
                );
                assert(known_only(self@, found_below(t, (k + 1) as nat, p)) =~= known_only(
                    self@,
                    found(t.children[k as int], p),
                ));
            }
            if r.is_some() {
                proof {
                    found_starts(self@, t, (k + 1) as nat, t.children.len(), p);
                }
                return r;
            }
            k = k + 1;
        }
        None
    }

    /// The ids of a list that are still known.
    fn keep_known(&self, list: Vec<NodeId>) -> (r: Vec<NodeId>)
        requires
            forall|i: int| 0 <= i < list@.len() ==> (#[trigger] list@[i]).0 < self@.len(),
        ensures
            raw_ids(r@) == known_only(self@, raw_ids(list@)),
    {
        let mut out: Vec<NodeId> = Vec::new();
        let ghost all = raw_ids(list@);
        let mut k: usize = 0;
        assert(raw_ids(out@) =~= known_only(self@, all.take(0)));
        while k < list.len()
            invariant
                k <= list@.len(),
                all == raw_ids(list@),
                forall|i: int| 0 <= i < list@.len() ==> (#[trigger] list@[i]).0 < self@.len(),
                raw_ids(out@) == known_only(self@, all.take(k as int)),
            decreases list@.len() - k,
        {
            let c: usize = list[k].0 as usize;
            assert(all[k as int] == c);
            assert(all.take(k + 1).drop_last() =~= all.take(k as int));
            if self.nodes[c].live {
                let ghost prior = out@;
                out.push(NodeId(c as u32));
                assert(raw_ids(out@) =~= raw_ids(prior).push(c as int));
            }
            k = k + 1;
        }
        assert(all.take(k as int) =~= all);
        out
    }

    fn collect_text(&self, i: usize, raw: bool, out: &mut String, rank: Ghost<Seq<nat>>)
        requires
            linked(self@),
            ranked(self@, rank@),
            i < self.nodes@.len(),
        ensures
            final(out)@ == old(out)@ + text_of(subtree(self@, i as int), raw),
        decreases rank@[i as int],
    {
        let ghost t = subtree(self@, i as int);
        let ghost before = out@;
        proof {
            subtree_step(self@, i as int);
        }
        if !raw && conceals(&self.nodes[i].kind) {
            assert(before + Seq::<char>::empty() == before);
            return;
        }
        if let NodeKind::Text(s) = &self.nodes[i].kind {
            out.append(s.as_str());
        }
        let ghost own = own_text(t.kind);
        assert(out@ == before + own + text_below(t, 0, raw));
        let mut k: usize = 0;
        while k < self.nodes[i].children.len()
            invariant
                linked(self@),
                ranked(self@, rank@),
                i < self.nodes@.len(),
                k <= self.nodes@[i as int].children@.len(),
                t == subtree(self@, i as int),
                t.children.len() == self@[i as int].children.len(),
                forall|j: int|
                    0 <= j < t.children.len() ==> #[trigger] t.children[j] == subtree(
                        self@,
                        self@[i as int].children[j],
                    ),
                out@ == before + own + text_below(t, k as nat, raw),
            decreases self.nodes@[i as int].children@.len() - k,
        {
            let c: usize = self.nodes[i].children[k];
            assert(self@[i as int].children[k as int] == c);
            assert(rank@[self@[i as int].children[k as int]] < rank@[i as int]);
            self.collect_text(c, raw, out, rank);
            assert(t.children[k as int] == subtree(self@, c as int));
            assert(before + own + text_below(t, k as nat, raw) + text_of(t.children[k as int], raw)
                == before + own + text_below(t, (k + 1) as nat, raw));
            k = k + 1;
        }
        assert(before + own + text_below(t, t.children.len(), raw) == before + text_of(t, raw));
    }

    /// The tree at `i` as nodes of the parser.
    fn build(&self, i: usize, rank: Ghost<Seq<nat>>) -> (r: Built)
        requires
            linked(self@),
            ranked(self@, rank@),
            texts_fit(self@),
            i < self.nodes@.len(),
        ensures
            r.tree() == plain(subtree(self@, i as int)),
        decreases rank@[i as int],
    {
        let ghost t = subtree(self@, i as int);
        proof {
            subtree_step(self@, i as int);
        }
        let mut kids: Vec<Built> = Vec::new();
        let mut k: usize = 0;
        while k < self.nodes[i].children.len()
            invariant
                linked(self@),
                ranked(self@, rank@),
                texts_fit(self@),
                i < self.nodes@.len(),
                k <= self.nodes@[i as int].children@.len(),
                t == subtree(self@, i as int),
                t.children.len() == self@[i as int].children.len(),
                forall|j: int|
                    0 <= j < t.children.len() ==> #[trigger] t.children[j] == subtree(
                        self@,
                        self@[i as int].children[j],
                    ),
                kids@.len() == k,
                forall|j: int| 0 <= j < k ==> (#[trigger] kids@[j]).tree() == plain(t.children[j]),
            decreases self.nodes@[i as int].children@.len() - k,
        {
            let c: usize = self.nodes[i].children[k];
            assert(self@[i as int].children[k as int] == c);
            assert(rank@[self@[i as int].children[k as int]] < rank@[i as int]);
            let kid = self.build(c, rank);
            assert(t.children[k as int] == subtree(self@, c as int));
            kids.push(kid);
            k = k + 1;
        }
        assert(built_trees(kids@) =~= plain(t).children);
        assert(self@[i as int].kind == self.nodes@[i as int].kind@);
        assert(kind_fits(self@[i as int].kind));
        match &self.nodes[i].kind {
            NodeKind::Element { ns, tag, attrs } => Built::element(
                ns.as_str(),
                tag.as_str(),
                attrs,
                kids,
            ),
            other => Built::plain(other, kids),
        }
    }
}

impl Document {
    // ---- reading ---------------------------------------------------------

    pub fn document_node(&self) -> (r: NodeId)
        ensures
            r == NodeId(0),
    {
        NodeId::document()
    }

    /// How many ids have been handed out.
    pub fn node_count(&self) -> (r: usize)
        ensures
            r == self@.len(),
    {
        self.nodes.len()
    }

    fn find_descendant(&self, root: NodeId, tag: &str) -> (r: Result<Option<NodeId>, Error>)
        requires
            walkable(self@),
        ensures
            match r {
                Ok(f) => known(self@, root.0 as int) && raw_id(f) == tag_below(
                    self@,
                    root.0 as int,
                    tag@,
                ),
                Err(e) => !known(self@, root.0 as int) && e == Error::UnknownNode(root.0),
            },
    {
        match self.live_entry(root) {
            Ok(i) => {
                let rank: Ghost<Seq<nat>> = Ghost(choose|rank: Seq<nat>| ranked(self@, rank));
                Ok(self.first(i, &Probe::Tag(tag.to_owned()), rank))
            },
            Err(e) => Err(e),
        }
    }

    fn find_tag(&self, tag: &str) -> (r: Option<NodeId>)
        requires
            walkable(self@),
        ensures
            raw_id(r) == tag_below(self@, 0, tag@),
    {
        match self.find_descendant(NodeId::document(), tag) {
            Ok(r) => r,
            Err(_) => None,
        }
    }

    pub fn html_root(&self) -> (r: Option<NodeId>)
        requires
            walkable(self@),
        ensures
            raw_id(r) == tag_below(self@, 0, "html"@),
    {
        self.find_tag("html")
    }

    pub fn head(&self) -> (r: Option<NodeId>)
        requires
            walkable(self@),
        ensures
            raw_id(r) == tag_below(self@, 0, "head"@),
    {
        self.find_tag("head")
    }

    pub fn body(&self) -> (r: Option<NodeId>)
        requires
            walkable(self@),
        ensures
            raw_id(r) == tag_below(self@, 0, "body"@),
    {
        self.find_tag("body")
    }

    pub fn tag_name(&self, id: NodeId) -> (r: Option<String>)
        ensures
            text_view(r) == tag_at(self@, id.0 as int),
    {
        match self.live_entry(id) {
            Ok(i) => match &self.nodes[i].kind {
                NodeKind::Element { ns: _, tag, attrs: _ } => Some(tag.clone()),
                _ => None,
            },
            Err(_) => None,
        }
    }

    pub fn get_attribute(&self, id: NodeId, name: &str) -> (r: Option<String>)
        ensures
            text_view(r) == attr_at(self@, id.0 as int, name@),
    {
        match self.live_entry(id) {
            Ok(i) => match &self.nodes[i].kind {
                NodeKind::Element { ns: _, tag: _, attrs } => {
                    let k: usize = attr_index(attrs, name);
                    if k < attrs.len() {
                        Some(attrs[k].value.clone())
                    } else {
                        None
                    }
                },
                _ => None,
            },
            Err(_) => None,
        }
    }

    /// The children that are still known, in order.
    pub fn children(&self, id: NodeId) -> (r: Vec<NodeId>)
        requires
            linked(self@),
        ensures
            raw_ids(r@) == (if known(self@, id.0 as int) {
                known_only(self@, self@[id.0 as int].children)
            } else {
                seq![]
            }),
    {
        let mut out: Vec<NodeId> = Vec::new();
        let i: usize = match self.live_entry(id) {
            Ok(i) => i,
            Err(_) => {
                assert(raw_ids(out@) == Seq::<int>::empty());
                return out;
            },
        };
        let ghost all = self@[i as int].children;
        let mut k: usize = 0;
        assert(raw_ids(out@) == known_only(self@, all.take(0)));
        while k < self.nodes[i].children.len()
            invariant
                linked(self@),
                i < self.nodes@.len(),
                all == self@[i as int].children,
                k <= self.nodes@[i as int].children@.len(),
                raw_ids(out@) == known_only(self@, all.take(k as int)),
            decreases self.nodes@[i as int].children@.len() - k,
        {
            let c: usize = self.nodes[i].children[k];
            assert(self@[i as int].children[k as int] == c);
            assert(all.take(k + 1).drop_last() == all.take(k as int));
            if self.nodes[c].live {
                let ghost prior = out@;
                out.push(NodeId(c as u32));
                assert(raw_ids(out@) == raw_ids(prior).push(c as int));
            }
            k = k + 1;
        }
        assert(all.take(k as int) == all);
        out
    }

    /// The parent of a node, where both are known.
    pub fn parent(&self, id: NodeId) -> (r: Option<NodeId>)
        requires
            linked(self@),
        ensures
            raw_id(r) == parent_at(self@, id.0 as int),
    {
        match self.live_entry(id) {
            Ok(i) => match self.nodes[i].parent {
                Some(p) => {
                    assert(self@[i as int].parent == Some(p as int));
                    assert(model::parent_in_range(self@, self@[i as int].parent));
                    if self.nodes[p].live {
                        Some(NodeId(p as u32))
                    } else {
                        None
                    }
                },
                None => None,
            },
            Err(_) => None,
        }
    }

    /// The text at and below a node, without that of scripts, styles and the like.
    pub fn text_content(&self, id: NodeId) -> (r: String)
        requires
            walkable(self@),
        ensures
            r@ == text_at(self@, id.0 as int, false),
    {
        self.text(id, false)
    }

    /// The text at and below a node, with that of scripts, styles and the like.
    pub fn raw_text_content(&self, id: NodeId) -> (r: String)
        requires
            walkable(self@),
        ensures
            r@ == text_at(self@, id.0 as int, true),
    {
        self.text(id, true)
    }

    fn text(&self, id: NodeId, raw: bool) -> (r: String)
        requires
            walkable(self@),
        ensures
            r@ == text_at(self@, id.0 as int, raw),
    {
        let mut out = String::new();
        match self.live_entry(id) {
            Ok(i) => {
                let rank: Ghost<Seq<nat>> = Ghost(choose|rank: Seq<nat>| ranked(self@, rank));
                self.collect_text(i, raw, &mut out, rank);
                assert(out@ == text_of(subtree(self@, i as int), raw));
            },
            Err(_) => {},
        }
        out
    }

    /// The first element of the document whose `id` attribute has this value.
    pub fn get_element_by_id(&self, target: &str) -> (r: Option<NodeId>)
        requires
            walkable(self@),
        ensures
            raw_id(r) == (if known(self@, 0) {
                first_named(self@, subtree(self@, 0), is_selected(Selector::Id(target@)))
            } else {
                None
            }),
    {
        match self.live_entry(NodeId::document()) {
            Ok(i) => {
                let rank: Ghost<Seq<nat>> = Ghost(choose|rank: Seq<nat>| ranked(self@, rank));
                self.first(i, &Probe::Select(SimpleSelector::Id(target.to_owned())), rank)
            },
            Err(_) => None,
        }
    }

    /// The first element of the document that the selector matches.
    pub fn query_selector(&self, selector: &str) -> (r: Option<NodeId>)
        requires
            walkable(self@),
        ensures
            raw_id(r) == first_of(selected_below(self@, 0, selector@)),
    {
        self.query_selector_within(NodeId::document(), selector)
    }

    /// Every element of the document that the selector matches.
    pub fn query_selector_all(&self, selector: &str) -> (r: Vec<NodeId>)
        requires
            walkable(self@),
        ensures
            raw_ids(r@) == selected_below(self@, 0, selector@),
    {
        self.query_selector_all_within(NodeId::document(), selector)
    }

    /// The first element below `root` that the selector matches.
    pub fn query_selector_within(&self, root: NodeId, selector: &str) -> (r: Option<NodeId>)
        requires
            walkable(self@),
        ensures
            raw_id(r) == first_of(selected_below(self@, root.0 as int, selector@)),
    {
        let sel = match SimpleSelector::parse(selector) {
            Some(sel) => sel,
            None => {
                return None;
            },
        };
        match self.live_entry(root) {
            Ok(i) => {
                let rank: Ghost<Seq<nat>> = Ghost(choose|rank: Seq<nat>| ranked(self@, rank));
                self.first_known_below(i, &Probe::Select(sel), rank)
            },
            Err(_) => None,
        }
    }

    /// Every element below `root` that the selector matches.
    pub fn query_selector_all_within(&self, root: NodeId, selector: &str) -> (r: Vec<NodeId>)
        requires
            walkable(self@),
        ensures
            raw_ids(r@) == selected_below(self@, root.0 as int, selector@),
    {
        let mut out: Vec<NodeId> = Vec::new();
        assert(raw_ids(out@) == Seq::<int>::empty());
        let sel = match SimpleSelector::parse(selector) {
            Some(sel) => sel,
            None => {
                return out;
            },
        };
        match self.live_entry(root) {
            Ok(i) => {
                let rank: Ghost<Seq<nat>> = Ghost(choose|rank: Seq<nat>| ranked(self@, rank));
                self.collect_below(i, &Probe::Select(sel), &mut out, rank);
                let ghost p = is_selected(sel@);
                let ghost t = subtree(self@, i as int);
                assert(raw_ids(out@) =~= found_below(t, t.children.len(), p));
                proof {
                    subtree_step(self@, i as int);
                    model::found_below_is_placed(self@, rank@, i as int, t.children.len(), p);
                    assert forall|k: int| 0 <= k < out@.len() implies (#[trigger] out@[k]).0
                        < self@.len() by {
                        assert(raw_ids(out@)[k] == out@[k].0);
                    }
                }
                self.keep_known(out)
            },
            Err(_) => out,
        }
    }

    /// The text of the first `title` element, trimmed.
    pub fn title(&self) -> (r: Option<String>)
        requires
            walkable(self@),
        ensures
            text_view(r) == (match tag_below(self@, 0, "title"@) {
                Some(i) => Some(trimmed(text_at(self@, i, false))),
                None => None,
            }),
    {
        match self.find_tag("title") {
            Some(id) => Some(trim(self.text_content(id).as_str()).to_owned()),
            None => None,
        }
    }

    /// The text of the first `body` element.
    pub fn body_text(&self) -> (r: String)
        requires
            walkable(self@),
        ensures
            r@ == (match tag_below(self@, 0, "body"@) {
                Some(i) => text_at(self@, i, false),
                None => seq![],
            }),
    {
        match self.body() {
            Some(id) => self.text_content(id),
            None => String::new(),
        }
    }

    /// The HTML of each child's own children.
    pub fn inner_html(&self, id: NodeId) -> (r: String)
        requires
            walkable(self@),
            texts_fit(self@),
            known(self@, id.0 as int) ==> forall|j: int|
                0 <= j < self@[id.0 as int].children.len() ==> no_document(
                    plain(subtree(self@, #[trigger] self@[id.0 as int].children[j])),
                ),
        ensures
            r@ == (if known(self@, id.0 as int) {
                inner_text(self@, self@[id.0 as int].children)
            } else {
                seq![]
            }),
    {
        let mut out = String::new();
        let i: usize = match self.live_entry(id) {
            Ok(i) => i,
            Err(_) => {
                return out;
            },
        };
        let rank: Ghost<Seq<nat>> = Ghost(choose|rank: Seq<nat>| ranked(self@, rank));
        let ghost all = self@[i as int].children;
        let mut k: usize = 0;
        assert(out@ == inner_text(self@, all.take(0)));
        while k < self.nodes[i].children.len()
            invariant
                walkable(self@),
                texts_fit(self@),
                ranked(self@, rank@),
                i < self.nodes@.len(),
                all == self@[i as int].children,
                k <= self.nodes@[i as int].children@.len(),
                forall|j: int|
                    0 <= j < all.len() ==> no_document(plain(subtree(self@, #[trigger] all[j]))),
                out@ == inner_text(self@, all.take(k as int)),
            decreases self.nodes@[i as int].children@.len() - k,
        {
            let c: usize = self.nodes[i].children[k];
            assert(self@[i as int].children[k as int] == c);
            assert(all.take(k + 1).drop_last() == all.take(k as int));
            let h = self.build(c, rank);
            assert(all[k as int] == c);
            out.append(h.serialize(false).as_str());
            k = k + 1;
        }
        assert(all.take(k as int) == all);
        out
    }

    /// The HTML of a node with its children.
    pub fn outer_html(&self, id: NodeId) -> (r: String)
        requires
            walkable(self@),
            texts_fit(self@),
            known(self@, id.0 as int) ==> no_document(plain(subtree(self@, id.0 as int))),
        ensures
            r@ == (if known(self@, id.0 as int) {
                serialized(plain(subtree(self@, id.0 as int)), true)
            } else {
                seq![]
            }),
    {
        match self.live_entry(id) {
            Ok(i) => {
                let rank: Ghost<Seq<nat>> = Ghost(choose|rank: Seq<nat>| ranked(self@, rank));
                let h = self.build(i, rank);
                h.serialize(true)
            },
            Err(_) => String::new(),
        }
    }

    /// The HTML of the whole document.
    pub fn serialize(&self) -> (r: String)
        requires
            walkable(self@),
            rooted(self@),
            texts_fit(self@),
            forall|j: int|
                0 <= j < self@[0].children.len() ==> no_document(
                    plain(subtree(self@, #[trigger] self@[0].children[j])),
                ),
        ensures
            r@ == serialized(plain(subtree(self@, 0)), false),
    {
        let rank: Ghost<Seq<nat>> = Ghost(choose|rank: Seq<nat>| ranked(self@, rank));
        let h = self.build(0, rank);
        proof {
            subtree_step(self@, 0);
            let t = subtree(self@, 0);
            assert forall|j: int| 0 <= j < plain(t).children.len() implies no_document(
                #[trigger] plain(t).children[j],
            ) by {
                assert(t.children[j] == subtree(self@, self@[0].children[j]));
            }
        }
        h.serialize(false)
    }
}

impl Document {
    /// Whether an id stands for a node that has not been forgotten.
    pub fn is_known(&self, id: NodeId) -> (r: bool)
        ensures
            r == known(self@, id.0 as int),
    {
        self.live_entry(id).is_ok()
    }

    /// Whether a node stands at or below another.
    pub fn holds(&self, top: NodeId, id: NodeId) -> (r: bool)
        requires
            walkable(self@),
        ensures
            r == (known(self@, top.0 as int) && ids(subtree(self@, top.0 as int)).contains(
                id.0 as int,
            )),
    {
        let i: usize = match self.live_entry(top) {
            Ok(i) => i,
            Err(_) => {
                return false;
            },
        };
        let rank: Ghost<Seq<nat>> = Ghost(choose|rank: Seq<nat>| ranked(self@, rank));
        let mut list: Vec<NodeId> = Vec::new();
        self.collect(i, &Probe::Any, &mut list, rank);
        let ghost all = ids(subtree(self@, i as int));
        assert(raw_ids(list@) =~= all);
        let mut k: usize = 0;
        while k < list.len()
            invariant
                k <= list@.len(),
                known(self@, top.0 as int),
                all == ids(subtree(self@, top.0 as int)),
                all == raw_ids(list@),
                forall|j: int| 0 <= j < k ==> all[j] != id.0 as int,
            decreases list@.len() - k,
        {
            assert(all[k as int] == list@[k as int].0);
            if list[k].0 == id.0 {
                return true;
            }
            k = k + 1;
        }
        false
    }

    // ---- changing --------------------------------------------------------

    fn set_parent(&mut self, i: usize, p: Option<usize>)
        requires
            i < old(self)@.len(),
        ensures
            final(self)@ == old(self)@.update(
                i as int,
                NodeModel {
                    parent: match p {
                        Some(q) => Some(q as int),
                        None => None,
                    },
                    ..old(self)@[i as int]
                },
            ),
    {
        let ghost before = self@;
        self.nodes[i].parent = p;
        assert(self@ =~= before.update(i as int, self.nodes@[i as int]@));
    }

    fn set_children(&mut self, i: usize, children: Vec<usize>)
        requires
            i < old(self)@.len(),
        ensures
            final(self)@ == old(self)@.update(
                i as int,
                NodeModel { children: positions(children@), ..old(self)@[i as int] },
            ),
    {
        let ghost before = self@;
        self.nodes[i].children = children;
        assert(self@ =~= before.update(i as int, self.nodes@[i as int]@));
    }

    fn add_child(&mut self, i: usize, c: usize)
        requires
            i < old(self)@.len(),
        ensures
            final(self)@ == old(self)@.update(
                i as int,
                NodeModel {
                    children: old(self)@[i as int].children.push(c as int),
                    ..old(self)@[i as int]
                },
            ),
    {
        let ghost before = self@;
        self.nodes[i].children.push(c);
        assert(self@[i as int].children =~= before[i as int].children.push(c as int));
        assert(self@ =~= before.update(i as int, self.nodes@[i as int]@));
    }

    fn drop_child(&mut self, i: usize, c: usize)
        requires
            i < old(self)@.len(),
        ensures
            final(self)@ == old(self)@.update(
                i as int,
                NodeModel {
                    children: without(old(self)@[i as int].children, c as int),
                    ..old(self)@[i as int]
                },
            ),
    {
        let mut kept: Vec<usize> = Vec::new();
        let ghost all = self@[i as int].children;
        let mut k: usize = 0;
        assert(positions(kept@) == without(all.take(0), c as int));
        while k < self.nodes[i].children.len()
            invariant
                i < self.nodes@.len(),
                self@ == old(self)@,
                all == self@[i as int].children,
                k <= self.nodes@[i as int].children@.len(),
                positions(kept@) == without(all.take(k as int), c as int),
            decreases self.nodes@[i as int].children@.len() - k,
        {
            let x: usize = self.nodes[i].children[k];
            assert(all[k as int] == x);
            assert(all.take(k + 1).drop_last() == all.take(k as int));
            if x != c {
                let ghost prior = kept@;
                kept.push(x);
                assert(positions(kept@) == positions(prior).push(x as int));
            }
            k = k + 1;
        }
        assert(all.take(k as int) == all);
        self.set_children(i, kept);
    }

    /// Sets an attribute of an element; other nodes stay as they are.
    pub fn set_attribute(&mut self, id: NodeId, name: &str, value: &str) -> (r: Result<(), Error>)
        ensures
            match r {
                Ok(_) => known(old(self)@, id.0 as int) && final(self)@ == old(self)@.update(
                    id.0 as int,
                    with_attrs(
                        old(self)@[id.0 as int],
                        with_attr(old(self)@[id.0 as int].kind->attrs, name@, value@),
                    ),
                ),
                Err(e) => !known(old(self)@, id.0 as int) && final(self)@ == old(self)@ && e
                    == Error::UnknownNode(id.0),
            },
            evolves(old(self)@, final(self)@),
            walkable(old(self)@) ==> walkable(final(self)@),
            old(self).valid() ==> final(self).valid(),
            texts_fit(old(self)@) && byte_len(value@) <= u32::MAX ==> texts_fit(final(self)@),
    {
        let i: usize = match self.live_entry(id) {
            Ok(i) => i,
            Err(e) => {
                return Err(e);
            },
        };
        let ghost before = self@;
        let ghost kind = self@[i as int].kind;
        match &mut self.nodes[i].kind {
            NodeKind::Element { ns: _, tag: _, attrs } => {
                let ghost prior = attr_views(attrs@);
                let k: usize = attr_index(attrs, name);
                if k < attrs.len() {
                    attrs[k].value = value.to_owned();
                    assert(attr_views(attrs@) =~= with_attr(prior, name@, value@));
                } else {
                    attrs.push(
                        Attr { ns: String::new(), name: name.to_owned(), value: value.to_owned() },
                    );
                    assert(attr_views(attrs@) =~= with_attr(prior, name@, value@));
                }
            },
            _ => {},
        }
        proof {
            assert(self@ =~= before.update(i as int, self.nodes@[i as int]@));
            same_links_same_trees(before, self@);
            if kind is Element && texts_fit(before) && byte_len(value@) <= u32::MAX {
                assert(kind_fits(before[i as int].kind));
                assert(kind_fits(self@[i as int].kind));
            }
        }
        Ok(())
    }

    /// Takes every attribute of this name from an element.
    pub fn remove_attribute(&mut self, id: NodeId, name: &str) -> (r: Result<(), Error>)
        ensures
            match r {
                Ok(_) => known(old(self)@, id.0 as int) && final(self)@ == old(self)@.update(
                    id.0 as int,
                    with_attrs(
                        old(self)@[id.0 as int],
                        without_attr(old(self)@[id.0 as int].kind->attrs, name@),
                    ),
                ),
                Err(e) => !known(old(self)@, id.0 as int) && final(self)@ == old(self)@ && e
                    == Error::UnknownNode(id.0),
            },
            evolves(old(self)@, final(self)@),
            walkable(old(self)@) ==> walkable(final(self)@),
            old(self).valid() ==> final(self).valid(),
            texts_fit(old(self)@) ==> texts_fit(final(self)@),
    {
        let i: usize = match self.live_entry(id) {
            Ok(i) => i,
            Err(e) => {
                return Err(e);
            },
        };
        let ghost before = self@;
        let ghost kind = self@[i as int].kind;
        match &mut self.nodes[i].kind {
            NodeKind::Element { ns: _, tag: _, attrs } => {
                let ghost all = attr_views(attrs@);
                let ghost list = attrs@;
                let mut kept: Vec<Attr> = Vec::new();
                let mut rest: Vec<Attr> = Vec::new();
                rest.append(attrs);
                assert(rest@ =~= list);
                let n: usize = rest.len();
                let mut k: usize = 0;
                assert(attr_views(kept@) == without_attr(all.take(0), name@));
                assert(rest@ == list.skip(0));
                while k < n
                    invariant
                        k <= n,
                        n == list.len(),
                        rest@ == list.skip(k as int),
                        all == attr_views(list),
                        attr_views(kept@) == without_attr(all.take(k as int), name@),
                        attrs_fit(all) ==> attrs_fit(attr_views(kept@)),
                    decreases n - k,
                {
                    let a = rest.remove(0);
                    assert(a == list[k as int]);
                    assert(rest@ =~= list.skip(k + 1));
                    assert(all[k as int] == a@);
                    assert(all.take(k + 1).drop_last() == all.take(k as int));
                    if !same(a.name.as_str(), name) {
                        let ghost prior = kept@;
                        kept.push(a);
                        assert(attr_views(kept@) =~= attr_views(prior).push(a@));
                    }
                    k = k + 1;
                }
                assert(all.take(k as int) == all);
                attrs.append(&mut kept);
                assert(attr_views(attrs@) =~= without_attr(all, name@));
            },
            _ => {},
        }
        proof {
            assert(self@ =~= before.update(i as int, self.nodes@[i as int]@));
            same_links_same_trees(before, self@);
            if kind is Element && texts_fit(before) {
                assert(kind_fits(before[i as int].kind));
                assert(kind_fits(self@[i as int].kind));
            }
        }
        Ok(())
    }

    fn add_entry(&mut self, kind: NodeKind) -> (r: usize)
        requires
            old(self)@.len() < u32::MAX,
        ensures
            r == old(self)@.len(),
            final(self)@ == old(self)@.push(
                NodeModel { kind: kind@, parent: None, children: seq![], live: true },
            ),
    {
        let ghost before = self@;
        let id: usize = self.nodes.len();
        self.nodes.push(NodeEntry { kind, parent: None, children: Vec::new(), live: true });
        assert(self@[id as int].children =~= seq![]);
        assert(self@ =~= before.push(self.nodes@[id as int]@));
        id
    }

    /// Makes an element that hangs nowhere yet.
    pub fn create_element(&mut self, tag: &str) -> (r: NodeId)
        requires
            old(self)@.len() < u32::MAX,
        ensures
            r.0 == old(self)@.len(),
            final(self)@ == old(self)@.push(
                NodeModel {
                    kind: Kind::Element { ns: HTML_NS@, tag: tag@, attrs: seq![] },
                    parent: None,
                    children: seq![],
                    live: true,
                },
            ),
            evolves(old(self)@, final(self)@),
            walkable(old(self)@) ==> walkable(final(self)@),
            old(self).valid() ==> final(self).valid(),
            texts_fit(old(self)@) ==> texts_fit(final(self)@),
    {
        let ghost before = self@;
        let kind = NodeKind::Element {
            ns: HTML_NS.to_owned(),
            tag: tag.to_owned(),
            attrs: Vec::new(),
        };
        assert(attr_views(kind->attrs@) =~= seq![]);
        let id: usize = self.add_entry(kind);
        proof {
            leaf_keeps_trees(before, kind@, self@);
        }
        NodeId(id as u32)
    }

    /// Makes a text node that hangs nowhere yet.
    pub fn create_text_node(&mut self, text: &str) -> (r: NodeId)
        requires
            old(self)@.len() < u32::MAX,
        ensures
            r.0 == old(self)@.len(),
            final(self)@ == old(self)@.push(
                NodeModel { kind: Kind::Text(text@), parent: None, children: seq![], live: true },
            ),
            evolves(old(self)@, final(self)@),
            walkable(old(self)@) ==> walkable(final(self)@),
            old(self).valid() ==> final(self).valid(),
            texts_fit(old(self)@) && byte_len(text@) <= u32::MAX ==> texts_fit(final(self)@),
    {
        let ghost before = self@;
        let kind = NodeKind::Text(text.to_owned());
        let id: usize = self.add_entry(kind);
        proof {
            leaf_keeps_trees(before, kind@, self@);
        }
        NodeId(id as u32)
    }

    /// Makes `child` the last child of `parent`, whatever it hung on before.
    pub fn append_child(&mut self, parent: NodeId, child: NodeId) -> (r: Result<(), Error>)
        requires
            linked(old(self)@),
        ensures
            match r {
                Ok(_) => {
                    &&& known(old(self)@, parent.0 as int)
                    &&& known(old(self)@, child.0 as int)
                    &&& final(self)@ == appended(old(self)@, parent.0 as int, child.0 as int)
                },
                Err(e) => {
                    &&& final(self)@ == old(self)@
                    &&& e == (if known(old(self)@, parent.0 as int) {
                        Error::UnknownNode(child.0)
                    } else {
                        Error::UnknownNode(parent.0)
                    })
                    &&& !(known(old(self)@, parent.0 as int) && known(old(self)@, child.0 as int))
                },
            },
            linked(final(self)@),
            evolves(old(self)@, final(self)@),
            r is Err || !ids(subtree(old(self)@, child.0 as int)).contains(parent.0 as int) ==> {
                &&& walkable(old(self)@) ==> walkable(final(self)@)
                &&& old(self).valid() ==> final(self).valid()
            },
            texts_fit(old(self)@) ==> texts_fit(final(self)@),
    {
        let p: usize = match self.live_entry(parent) {
            Ok(i) => i,
            Err(e) => {
                return Err(e);
            },
        };
        let c: usize = match self.live_entry(child) {
            Ok(i) => i,
            Err(e) => {
                return Err(e);
            },
        };
        let ghost before = self@;
        if let Some(q) = self.nodes[c].parent {
            assert(before[c as int].parent == Some(q as int));
            assert(model::parent_in_range(before, before[c as int].parent));
            proof {
                edit::without_keeps_the_rest(before[q as int].children, c as int);
            }
            self.drop_child(q, c);
            self.set_parent(c, None);
        }
        assert(self@ == edit::detached(before, c as int));
        assert(linked(self@)) by {
            links_without(before, self@, c as int);
        }
        let ghost off = self@;
        self.set_parent(c, Some(p));
        self.add_child(p, c);
        proof {
            assert(self@ == appended(before, p as int, c as int));
            assert forall|i: int, j: int|
                0 <= i < self@.len() && 0 <= j < self@[i].children.len() implies 0
                <= #[trigger] self@[i].children[j] < self@.len() by {
                if i == p && j == off[i].children.len() {
                } else {
                    assert(self@[i].children[j] == off[i].children[j]);
                }
            }
            assert forall|i: int| 0 <= i < self@.len() implies model::parent_in_range(
                self@,
                #[trigger] self@[i].parent,
            ) by {
                assert(model::parent_in_range(off, off[i].parent));
            }
            if walkable(before) && !ids(subtree(before, c as int)).contains(p as int) {
                edit::appending_keeps_walks(before, p as int, c as int);
            }
            if tree_like(before) && !ids(subtree(before, c as int)).contains(p as int) {
                appending_keeps_trees(before, p as int, c as int);
            }
        }
        Ok(())
    }

    /// Takes `child` from the children of `parent`. The child then has no parent.
    pub fn remove_child(&mut self, parent: NodeId, child: NodeId) -> (r: Result<(), Error>)
        requires
            linked(old(self)@),
        ensures
            match r {
                Ok(_) => {
                    &&& known(old(self)@, parent.0 as int)
                    &&& known(old(self)@, child.0 as int)
                    &&& final(self)@ == removed(old(self)@, parent.0 as int, child.0 as int)
                },
                Err(e) => {
                    &&& final(self)@ == old(self)@
                    &&& e == (if known(old(self)@, parent.0 as int) {
                        Error::UnknownNode(child.0)
                    } else {
                        Error::UnknownNode(parent.0)
                    })
                    &&& !(known(old(self)@, parent.0 as int) && known(old(self)@, child.0 as int))
                },
            },
            linked(final(self)@),
            evolves(old(self)@, final(self)@),
            walkable(old(self)@) ==> walkable(final(self)@),
            old(self).valid() && (r is Err || old(self)@[child.0 as int].parent is None || old(
                self,
            )@[child.0 as int].parent == Some(parent.0 as int)) ==> final(self).valid(),
            texts_fit(old(self)@) ==> texts_fit(final(self)@),
    {
        let p: usize = match self.live_entry(parent) {
            Ok(i) => i,
            Err(e) => {
                return Err(e);
            },
        };
        let c: usize = match self.live_entry(child) {
            Ok(i) => i,
            Err(e) => {
                return Err(e);
            },
        };
        let ghost before = self@;
        self.drop_child(p, c);
        self.set_parent(c, None);
        proof {
            assert(self@ == removed(before, p as int, c as int));
            edit::without_keeps_the_rest(before[p as int].children, c as int);
            links_without(before, self@, c as int);
            if walkable(before) {
                edit::dropping_keeps_walks(before, self@, c as int);
            }
            if tree_like(before) && (before[c as int].parent is None || before[c as int].parent
                == Some(p as int)) {
                removing_keeps_trees(before, p as int, c as int);
            }
        }
        Ok(())
    }
}

impl Document {
    /// Makes the node at `i` unknown.
    fn bury(&mut self, i: usize)
        requires
            i < old(self)@.len(),
        ensures
            final(self)@ == old(self)@.update(
                i as int,
                NodeModel { live: false, parent: None, ..old(self)@[i as int] },
            ),
    {
        let ghost before = self@;
        self.nodes[i].live = false;
        self.nodes[i].parent = None;
        assert(self@ =~= before.update(i as int, self.nodes@[i as int]@));
    }

    /// Whether no node but the one at `p` has the one at `c` among its children.
    fn is_lone(&self, p: usize, c: usize) -> (r: bool)
        ensures
            r == lone(self@, p as int, c as int),
    {
        let mut q: usize = 0;
        while q < self.nodes.len()
            invariant
                q <= self.nodes@.len(),
                forall|x: int|
                    0 <= x < q && x != p ==> !(#[trigger] self@[x]).children.contains(c as int),
            decreases self.nodes@.len() - q,
        {
            if q != p {
                let mut k: usize = 0;
                while k < self.nodes[q].children.len()
                    invariant
                        q < self.nodes@.len(),
                        q != p,
                        k <= self.nodes@[q as int].children@.len(),
                        forall|j: int| 0 <= j < k ==> #[trigger] self@[q as int].children[j] != c,
                    decreases self.nodes@[q as int].children@.len() - k,
                {
                    assert(self@[q as int].children[k as int] == self.nodes@[q as int].children@[k as int]);
                    if self.nodes[q].children[k] == c {
                        assert(self@[q as int].children.contains(c as int));
                        return false;
                    }
                    k = k + 1;
                }
            }
            q = q + 1;
        }
        true
    }

    /// The ids of everything below entry `i`, or of what is freed with it.
    fn ids_below(&self, i: usize, freed_only: bool) -> (list: Vec<NodeId>)
        requires
            walkable(self@),
            known(self@, i as int),
        ensures
            forall|x: int|
                #[trigger] raw_ids(list@).contains(x) <==> (if freed_only {
                    freed(self@, i as int, x)
                } else {
                    below(self@, i as int, x)
                }),
    {
        let ghost d = self@;
        let ghost kids = d[i as int].children;
        let rank: Ghost<Seq<nat>> = Ghost(choose|rank: Seq<nat>| ranked(self@, rank));
        let mut list: Vec<NodeId> = Vec::new();
        let mut k: usize = 0;
        while k < self.nodes[i].children.len()
            invariant
                self@ == d,
                walkable(d),
                ranked(d, rank@),
                i < self.nodes@.len(),
                kids == d[i as int].children,
                k <= self.nodes@[i as int].children@.len(),
                forall|j: int, x: int|
                    0 <= j < k && (freed_only ==> lone(d, i as int, kids[j])) && #[trigger] ids(
                        subtree(d, kids[j]),
                    ).contains(x) ==> raw_ids(list@).contains(x),
                forall|x: int|
                    #[trigger] raw_ids(list@).contains(x) ==> exists|j: int|
                        0 <= j < k && (freed_only ==> lone(d, i as int, kids[j])) && #[trigger] ids(
                            subtree(d, kids[j]),
                        ).contains(x),
            decreases self.nodes@[i as int].children@.len() - k,
        {
            let c: usize = self.nodes[i].children[k];
            assert(kids[k as int] == c);
            if !freed_only || self.is_lone(i, c) {
                let ghost prior = raw_ids(list@);
                let ghost more = ids(subtree(d, c as int));
                self.collect(c, &Probe::Any, &mut list, rank);
                proof {
                    let all = raw_ids(list@);
                    assert(all == prior + more);
                    assert forall|j: int, x: int|
                        0 <= j < k + 1 && (freed_only ==> lone(d, i as int, kids[j]))
                            && #[trigger] ids(subtree(d, kids[j])).contains(x) implies all.contains(
                        x,
                    ) by {
                        if j < k {
                            assert(prior.contains(x));
                            let m = choose|m: int| 0 <= m < prior.len() && prior[m] == x;
                            assert(all[m] == x);
                        } else {
                            let m = choose|m: int| 0 <= m < more.len() && more[m] == x;
                            assert(all[prior.len() + m] == x);
                        }
                    }
                    assert forall|x: int| #[trigger] all.contains(x) implies exists|j: int|
                        0 <= j < k + 1 && (freed_only ==> lone(d, i as int, kids[j]))
                            && #[trigger] ids(subtree(d, kids[j])).contains(x) by {
                        let m = choose|m: int| 0 <= m < all.len() && all[m] == x;
                        if m < prior.len() {
                            assert(prior[m] == x);
                            assert(prior.contains(x));
                        } else {
                            assert(more[m - prior.len()] == x);
                            assert(ids(subtree(d, kids[k as int])).contains(x));
                        }
                    }
                }
            }
            k = k + 1;
        }
        let ghost all = raw_ids(list@);
        proof {
            let p = i as int;
            assert forall|x: int| #[trigger] all.contains(x) <==> (if freed_only {
                freed(d, p, x)
            } else {
                below(d, p, x)
            }) by {
                if all.contains(x) {
                    let j = choose|j: int|
                        0 <= j < k && (freed_only ==> lone(d, p, kids[j])) && #[trigger] ids(
                            subtree(d, kids[j]),
                        ).contains(x);
                    assert(ids(subtree(d, d[p].children[j])).contains(x));
                }
                if freed_only && freed(d, p, x) {
                    let j = choose|j: int|
                        0 <= j < d[p].children.len() && lone(d, p, d[p].children[j]) && ids(
                            subtree(d, #[trigger] d[p].children[j]),
                        ).contains(x);
                    assert(ids(subtree(d, kids[j])).contains(x));
                }
                if !freed_only && below(d, p, x) {
                    let j = choose|j: int|
                        0 <= j < d[p].children.len() && ids(
                            subtree(d, #[trigger] d[p].children[j]),
                        ).contains(x);
                    assert(ids(subtree(d, kids[j])).contains(x));
                }
            }
        }
        list
    }

    /// Makes the nodes of a list unknown.
    fn bury_all(&mut self, list: &Vec<NodeId>)
        requires
            forall|x: int| #[trigger] raw_ids(list@).contains(x) ==> x < old(self)@.len(),
        ensures
            final(self)@.len() == old(self)@.len(),
            forall|x: int|
                0 <= x < old(self)@.len() ==> #[trigger] final(self)@[x] == (if raw_ids(
                    list@,
                ).contains(x) {
                    NodeModel { live: false, parent: None, ..old(self)@[x] }
                } else {
                    old(self)@[x]
                }),
    {
        let ghost d = self@;
        let ghost all = raw_ids(list@);
        let mut m: usize = 0;
        while m < list.len()
            invariant
                self@.len() == d.len(),
                m <= list@.len(),
                all == raw_ids(list@),
                forall|x: int| #[trigger] all.contains(x) ==> x < d.len(),
                forall|x: int|
                    0 <= x < d.len() ==> #[trigger] self@[x] == (if all.take(m as int).contains(x) {
                        NodeModel { live: false, parent: None, ..d[x] }
                    } else {
                        d[x]
                    }),
            decreases list@.len() - m,
        {
            let x: usize = list[m].0 as usize;
            assert(all[m as int] == x);
            assert(all.contains(x as int));
            proof {
                one_more(all, m as int);
            }
            self.bury(x);
            m = m + 1;
        }
        assert(all.take(m as int) == all);
    }

    /// Takes the children from the nodes of a list.
    fn cut_all(&mut self, list: &Vec<NodeId>)
        requires
            forall|x: int| #[trigger] raw_ids(list@).contains(x) ==> x < old(self)@.len(),
        ensures
            final(self)@.len() == old(self)@.len(),
            forall|x: int|
                0 <= x < old(self)@.len() ==> #[trigger] final(self)@[x] == (if raw_ids(
                    list@,
                ).contains(x) {
                    NodeModel { children: seq![], ..old(self)@[x] }
                } else {
                    old(self)@[x]
                }),
    {
        let ghost d = self@;
        let ghost all = raw_ids(list@);
        assert(positions(Seq::<usize>::empty()) =~= Seq::<int>::empty());
        let mut m: usize = 0;
        while m < list.len()
            invariant
                self@.len() == d.len(),
                m <= list@.len(),
                all == raw_ids(list@),
                positions(Seq::<usize>::empty()) == Seq::<int>::empty(),
                forall|x: int| #[trigger] all.contains(x) ==> x < d.len(),
                forall|x: int|
                    0 <= x < d.len() ==> #[trigger] self@[x] == (if all.take(m as int).contains(x) {
                        NodeModel { children: seq![], ..d[x] }
                    } else {
                        d[x]
                    }),
            decreases list@.len() - m,
        {
            let x: usize = list[m].0 as usize;
            assert(all[m as int] == x);
            assert(all.contains(x as int));
            proof {
                one_more(all, m as int);
            }
            self.set_children(x, Vec::new());
            m = m + 1;
        }
        assert(all.take(m as int) == all);
    }

    /// Forgets everything below entry `i`.
    fn clear(&mut self, i: usize)
        requires
            walkable(old(self)@),
            known(old(self)@, i as int),
        ensures
            cleared(old(self)@, final(self)@, i as int),
    {
        let ghost d = self@;
        let list = self.ids_below(i, false);
        let loose = self.ids_below(i, true);
        proof {
            edit::below_is_walked(d, i as int);
        }
        self.bury_all(&list);
        self.cut_all(&loose);
        let ghost e = self@;
        self.set_children(i, Vec::new());
        assert(positions(Seq::<usize>::empty()) =~= Seq::<int>::empty());
        assert forall|x: int| 0 <= x < d.len() implies #[trigger] self@[x] == (if below(
            d,
            i as int,
            x,
        ) {
            NodeModel {
                live: false,
                parent: None,
                children: if freed(d, i as int, x) {
                    seq![]
                } else {
                    d[x].children
                },
                ..d[x]
            }
        } else if x == i {
            NodeModel { children: seq![], ..d[x] }
        } else {
            d[x]
        }) by {
            assert(raw_ids(list@).contains(x) <==> below(d, i as int, x));
            assert(raw_ids(loose@).contains(x) <==> freed(d, i as int, x));
            if x != i {
                assert(self@[x] == e[x]);
            }
        }
    }

    /// Replaces everything below a node by one text node.
    pub fn set_text_content(&mut self, id: NodeId, text: &str) -> (r: Result<(), Error>)
        requires
            walkable(old(self)@),
            old(self)@.len() < u32::MAX,
        ensures
            match r {
                Ok(_) => {
                    &&& known(old(self)@, id.0 as int)
                    &&& refilled(
                        old(self)@,
                        final(self)@,
                        id.0 as int,
                        seq![HtmlTree { kind: Kind::Text(text@), children: seq![] }],
                    )
                },
                Err(e) => !known(old(self)@, id.0 as int) && final(self)@ == old(self)@ && e
                    == Error::UnknownNode(id.0),
            },
            walkable(final(self)@),
            evolves(old(self)@, final(self)@),
            old(self).valid() ==> final(self).valid(),
            texts_fit(old(self)@) && byte_len(text@) <= u32::MAX ==> texts_fit(final(self)@),
    {
        let i: usize = match self.live_entry(id) {
            Ok(i) => i,
            Err(e) => {
                return Err(e);
            },
        };
        let ghost d = self@;
        self.clear(i);
        let ghost e = self@;
        proof {
            clearing_keeps_walks(d, e, i as int);
        }
        let n: usize = self.add_entry(NodeKind::Text(text.to_owned()));
        self.set_parent(n, Some(i));
        self.add_child(i, n);
        proof {
            let t = HtmlTree { kind: Kind::Text(text@), children: seq![] };
            assert(forest_size(t, 0) == 0);
            assert(tree_size(t) == 1);
            assert(embeds(self@, n as int, Some(i as int), t));
            assert(grafted(e, self@, Some(i as int), t));
            graft_keeps_walks(e, self@, Some(i as int), t);
            if tree_like(d) {
                clearing_keeps_trees(d, e, i as int);
                graft_keeps_trees(e, self@, Some(i as int), t);
            }
            let mid = seq![e, self@];
            assert(grown(mid, i as int, seq![t]));
            assert(refilled_by(d, self@, i as int, seq![t], mid));
            assert forall|k: int| 0 <= k < self@.len() && texts_fit(d) && byte_len(text@)
                <= u32::MAX implies kind_fits((#[trigger] self@[k]).kind) by {
                if k < d.len() {
                    assert(self@[k].kind == e[k].kind);
                    assert(e[k].kind == d[k].kind);
                    assert(kind_fits(d[k].kind));
                }
            }
            assert forall|k: int| 0 < k < self@.len() && rooted(d) implies (#[trigger] self@[k]).kind
                != Kind::Document by {
                if k < d.len() {
                    assert(self@[k].kind == e[k].kind);
                    assert(e[k].kind == d[k].kind);
                }
            }
            assert(self@[0].kind == e[0].kind);
            assert(e[0].kind == d[0].kind);
        }
        Ok(())
    }

    /// Replaces everything below a node by what `html` parses to inside an
    /// element of its name. A text that is too large is refused.
    pub fn set_inner_html(&mut self, id: NodeId, html: &str) -> (r: Result<(), Error>)
        requires
            walkable(old(self)@),
        ensures
            ({
                let context = fragment_context(old(self)@[id.0 as int].kind);
                let t = parsed_fragment(context, html@);
                match r {
                    Ok(_) => {
                        &&& known(old(self)@, id.0 as int)
                        &&& parsable(html@)
                        &&& old(self)@.len() + tree_size(t) <= u32::MAX
                        &&& refilled(old(self)@, final(self)@, id.0 as int, fragment_nodes(t))
                    },
                    Err(e) => {
                        &&& final(self)@ == old(self)@
                        &&& if known(old(self)@, id.0 as int) {
                            e is Parse && !(parsable(html@) && old(self)@.len() + tree_size(t)
                                <= u32::MAX)
                        } else {
                            e == Error::UnknownNode(id.0)
                        }
                    },
                }
            }),
            walkable(final(self)@),
            evolves(old(self)@, final(self)@),
            old(self).valid() ==> final(self).valid(),
            texts_fit(old(self)@) ==> texts_fit(final(self)@),
    {
        let i: usize = match self.live_entry(id) {
            Ok(i) => i,
            Err(e) => {
                return Err(e);
            },
        };
        let context: String = match &self.nodes[i].kind {
            NodeKind::Element { ns: _, tag, attrs: _ } => tag.clone(),
            _ => "body".to_owned(),
        };
        if !can_parse(html) {
            return Err(Error::Parse("fragment too large".to_owned()));
        }
        let parsed = Parsed::fragment(context.as_str(), html);
        let root = parsed.top();
        let ghost t = root.tree();
        let limit: usize = u32::MAX as usize - self.nodes.len();
        if count_nodes(&root, limit).is_none() {
            return Err(Error::Parse("fragment too large".to_owned()));
        }
        let ghost d = self@;
        self.clear(i);
        let ghost e = self@;
        proof {
            clearing_keeps_walks(d, e, i as int);
            if tree_like(d) {
                clearing_keeps_trees(d, e, i as int);
            }
            assert forall|k: int| 0 <= k < e.len() implies (#[trigger] e[k]).kind == d[k].kind by {}
        }
        let tops = root.children();
        assert(handle_trees(tops@).len() == t.children.len());
        let mut kids: Vec<Handle> = Vec::new();
        if tops.len() > 0 {
            assert(handle_trees(tops@)[0] == t.children[0]);
            kids = tops[0].children();
            proof {
                forest_grows(t, 0, t.children.len());
            }
        }
        assert(handle_trees(kids@) =~= fragment_nodes(t));
        let ghost list = fragment_nodes(t);
        let ghost mut mid: Seq<Seq<NodeModel>> = seq![e];
        let ghost top = if t.children.len() > 0 {
            t.children[0]
        } else {
            t
        };
        assert(texts_fit(d) ==> texts_fit(e));
        let mut k: usize = 0;
        while k < kids.len()
            invariant
                k <= kids@.len(),
                kids@.len() > 0 ==> top.children == list && tree_size(top) <= tree_size(t),
                handle_trees(kids@) == list,
                forall|j: int| 0 <= j < list.len() ==> no_document(#[trigger] list[j]),
                d.len() + tree_size(t) <= u32::MAX,
                d.len() == e.len(),
                known(e, i as int),
                walkable(self@),
                tree_like(d) ==> tree_like(self@),
                rooted(d) ==> rooted(self@),
                evolves(d, self@),
                mid.len() == k + 1,
                mid[0] == e,
                mid[k as int] == self@,
                grown(mid, i as int, list.take(k as int)),
                known(self@, i as int),
                k > 0 ==> self@.len() == e.len() + forest_size(top, k as nat),
                k == 0 ==> self@ == e,
                texts_fit(d) ==> texts_fit(self@),
            decreases kids@.len() - k,
        {
            let ghost prior = self@;
            assert(handle_trees(kids@)[k as int] == kids@[k as int].tree());
            let ghost kid = list[k as int];
            proof {
                forest_grows(top, k as nat, top.children.len());
                assert(forest_size(top, 0) == 0);
                assert(tree_size(top) == 1 + forest_size(top, top.children.len()));
            }
            let c: usize = self.intern_tree(&kids[k], Some(i));
            let ghost interned = self@;
            self.add_child(i, c);
            proof {
                embeds_frame(interned, self@, c as int, Some(i as int), kid);
                assert(grafted(prior, self@, Some(i as int), kid));
                graft_keeps_walks(prior, self@, Some(i as int), kid);
                if tree_like(d) {
                    graft_keeps_trees(prior, self@, Some(i as int), kid);
                }
                edit::embedded_kinds(self@, c as int, Some(i as int), kid);
                assert forall|x: int| 0 < x < self@.len() && rooted(d) implies (#[trigger] self@[x]).kind
                    != Kind::Document by {
                    if x < prior.len() {
                        assert(self@[x].kind == prior[x].kind);
                    }
                }
                assert(self@[0].kind == prior[0].kind);
                let wider = mid.push(self@);
                assert(grown(wider, i as int, list.take(k + 1))) by {
                    assert forall|j: int| 0 <= j < k + 1 implies #[trigger] grafted(
                        wider[j],
                        wider[j + 1],
                        Some(i as int),
                        list.take(k + 1)[j],
                    ) by {
                        if j < k {
                            assert(grafted(mid[j], mid[j + 1], Some(i as int), list.take(k as int)[j]));
                            assert(list.take(k + 1)[j] == list.take(k as int)[j]);
                        }
                    }
                }
                mid = wider;
                assert(evolves(d, self@)) by {
                    assert forall|x: int| 0 <= x < d.len() && (#[trigger] self@[x]).live implies d[x].live by {
                        assert(prior[x].live);
                    }
                }
                assert(texts_fit(prior) ==> texts_fit(interned));
                assert forall|x: int| 0 <= x < self@.len() && texts_fit(d) implies kind_fits(
                    (#[trigger] self@[x]).kind,
                ) by {
                    assert(self@[x].kind == interned[x].kind);
                }
            }
            k = k + 1;
        }
        proof {
            assert(list.take(k as int) == list);
            assert(refilled_by(d, self@, i as int, list, mid));
        }
        Ok(())
    }
}

/// The element name in whose context a fragment below a node is parsed.
pub open spec fn fragment_context(k: Kind) -> Seq<char> {
    if k is Element {
        k->tag
    } else {
        "body"@
    }
}

/// The nodes of a parsed fragment: what stands below the first node of its tree.
pub open spec fn fragment_nodes(t: HtmlTree) -> Seq<HtmlTree> {
    if t.children.len() > 0 {
        t.children[0].children
    } else {
        seq![]
    }
}

/// Each table of `mid` is the one before it with the next of `trees` as the last
/// child of `p`.
pub open spec fn grown(mid: Seq<Seq<NodeModel>>, p: int, trees: Seq<HtmlTree>) -> bool {
    &&& mid.len() == trees.len() + 1
    &&& forall|j: int|
        0 <= j < trees.len() ==> #[trigger] grafted(mid[j], mid[j + 1], Some(p), trees[j])
}

pub open spec fn refilled_by(
    d: Seq<NodeModel>,
    e: Seq<NodeModel>,
    p: int,
    trees: Seq<HtmlTree>,
    mid: Seq<Seq<NodeModel>>,
) -> bool {
    &&& grown(mid, p, trees)
    &&& cleared(d, mid[0], p)
    &&& mid.last() == e
}

/// `e` is `d` with everything below `p` forgotten and `trees` put there instead,
/// under new ids.
pub open spec fn refilled(
    d: Seq<NodeModel>,
    e: Seq<NodeModel>,
    p: int,
    trees: Seq<HtmlTree>,
) -> bool {
    exists|mid: Seq<Seq<NodeModel>>| refilled_by(d, e, p, trees, mid)
}

/// One more of a list.
proof fn one_more(s: Seq<int>, m: int)
    requires
        0 <= m < s.len(),
    ensures
        forall|y: int|
            #[trigger] s.take(m + 1).contains(y) <==> s.take(m).contains(y) || y == s[m],
{
    let up = s.take(m + 1);
    assert forall|y: int| #[trigger] up.contains(y) <==> s.take(m).contains(y) || y == s[m] by {
        if s.take(m).contains(y) {
            let n = choose|n: int| 0 <= n < m && s.take(m)[n] == y;
            assert(up[n] == y);
        }
        assert(up[m] == s[m]);
        if up.contains(y) && y != s[m] {
            let n = choose|n: int| 0 <= n < up.len() && up[n] == y;
            assert(s.take(m)[n] == y);
        }
    }
}

/// Entries that differ only in what they are have the same links.
proof fn same_links_same_trees(d: Seq<NodeModel>, e: Seq<NodeModel>)
    requires
        d.len() == e.len(),
        forall|i: int|
            0 <= i < d.len() ==> (#[trigger] e[i]).children == d[i].children && e[i].parent
                == d[i].parent && e[i].live == d[i].live,
    ensures
        walkable(d) ==> walkable(e),
        tree_like(d) ==> tree_like(e),
        evolves(d, e),
{
    if walkable(d) {
        let rank = choose|rank: Seq<nat>| ranked(d, rank);
        assert forall|i: int, j: int|
            0 <= i < e.len() && 0 <= j < e[i].children.len() implies rank[#[trigger] e[i].children[j]]
            < rank[i] && 0 <= e[i].children[j] < e.len() by {
            assert(e[i].children[j] == d[i].children[j]);
        }
        assert(ranked(e, rank));
        assert forall|i: int| 0 <= i < e.len() implies model::parent_in_range(
            e,
            #[trigger] e[i].parent,
        ) by {
            assert(model::parent_in_range(d, d[i].parent));
        }
    }
    if tree_like(d) {
        assert forall|i: int| 0 <= i < e.len() implies #[trigger] agrees(e, i) by {
            assert(agrees(d, i));
            assert forall|j: int| 0 <= j < e[i].children.len() implies e[#[trigger] e[i].children[j]].parent
                == Some(i) by {
                assert(e[i].children[j] == d[i].children[j]);
            }
            assert(model::parent_in_range(d, d[i].parent));
        }
    }
}

/// Lists that lose entries, and parents that are lost, leave no link out of range.
proof fn links_without(d: Seq<NodeModel>, e: Seq<NodeModel>, c: int)
    requires
        linked(d),
        d.len() == e.len(),
        forall|i: int|
            0 <= i < d.len() ==> (#[trigger] e[i]).children == d[i].children || e[i].children
                == without(d[i].children, c),
        forall|i: int|
            0 <= i < d.len() ==> (#[trigger] e[i]).parent == d[i].parent || e[i].parent is None,
    ensures
        linked(e),
{
    assert forall|i: int, j: int| 0 <= i < e.len() && 0 <= j < e[i].children.len() implies 0
        <= #[trigger] e[i].children[j] < e.len() by {
        edit::without_keeps_the_rest(d[i].children, c);
        let x = e[i].children[j];
        assert(e[i].children.contains(x));
        assert(d[i].children.contains(x));
        let k = choose|k: int| 0 <= k < d[i].children.len() && d[i].children[k] == x;
        assert(0 <= d[i].children[k] < d.len());
    }
    assert forall|i: int| 0 <= i < e.len() implies model::parent_in_range(
        e,
        #[trigger] e[i].parent,
    ) by {
        assert(model::parent_in_range(d, d[i].parent));
    }
}

/// A single node is a tree.
proof fn leaf_keeps_trees(d: Seq<NodeModel>, kind: Kind, e: Seq<NodeModel>)
    requires
        e == d.push(NodeModel { kind, parent: None, children: seq![], live: true }),
        e.len() <= u32::MAX,
    ensures
        walkable(d) ==> walkable(e),
        tree_like(d) ==> tree_like(e),
        evolves(d, e),
{
    if walkable(d) {
        let t = HtmlTree { kind, children: seq![] };
        assert(forest_size(t, 0) == 0);
        assert(tree_size(t) == 1);
        assert(embeds(e, d.len() as int, None, t));
        graft_keeps_walks(d, e, None, t);
        if tree_like(d) {
            graft_keeps_trees(d, e, None, t);
        }
    }
}

/// The HTML inside each of the nodes `s`, one after the other.
pub open spec fn inner_text(d: Seq<NodeModel>, s: Seq<int>) -> Seq<char>
    decreases s.len(),
{
    if s.len() == 0 {
        seq![]
    } else {
        inner_text(d, s.drop_last()) + serialized(plain(subtree(d, s.last())), false)
    }
}

/// Whether a node's text is never shown.
fn conceals(kind: &NodeKind) -> (r: bool)
    ensures
        r == hides_text(kind@),
{
    match kind {
        NodeKind::Element { ns: _, tag, attrs: _ } => same(tag.as_str(), "script") || same(
            tag.as_str(),
            "style",
        ) || same(tag.as_str(), "noscript") || same(tag.as_str(), "template"),
        _ => false,
    }
}

/// What a selector selects is known, and has the kind that the selector asks for.
pub proof fn selected_are_known(d: Seq<NodeModel>, root: int, selector: Seq<char>)
    requires
        walkable(d),
    ensures
        forall|i: int|
            0 <= i < selected_below(d, root, selector).len() ==> {
                let x = #[trigger] selected_below(d, root, selector)[i];
                known(d, x) && selects(parsed_selector(selector)->0, d[x].kind)
            },
{
    if parsed_selector(selector) is Some && known(d, root) {
        let p = is_selected(parsed_selector(selector)->0);
        let rank = choose|rank: Seq<nat>| ranked(d, rank);
        subtree_step(d, root);
        let n = subtree(d, root).children.len();
        let all = found_below(subtree(d, root), n, p);
        model::found_below_is_placed(d, rank, root, n, p);
        model::found_below_satisfies(d, rank, root, n, p);
        known_only_picks(d, all);
        let some = selected_below(d, root, selector);
        assert forall|i: int| 0 <= i < some.len() implies {
            let x = #[trigger] some[i];
            known(d, x) && selects(parsed_selector(selector)->0, d[x].kind)
        } by {
            assert(some.contains(some[i]));
            let k = choose|k: int| 0 <= k < all.len() && all[k] == some[i];
            assert(p(d[all[k]].kind));
        }
    }
}

/// In a forest, everything that a selector matches below a known node is selected.
pub proof fn trees_select_all(d: Seq<NodeModel>, root: int, selector: Seq<char>)
    requires
        tree_like(d),
        known(d, root),
        parsed_selector(selector) is Some,
    ensures
        ({
            let t = subtree(d, root);
            let p = is_selected(parsed_selector(selector)->0);
            &&& selected_below(d, root, selector) == found_below(t, t.children.len(), p)
            &&& !(d[root].kind is Element) ==> selected_below(d, root, selector) == found(t, p)
        }),
{
    let p = is_selected(parsed_selector(selector)->0);
    let rank = choose|rank: Seq<nat>| ranked(d, rank);
    subtree_step(d, root);
    let t = subtree(d, root);
    let n = t.children.len();
    model::found_below_is_known(d, rank, root, n, p);
    known_only_picks(d, found_below(t, n, p));
    if !(d[root].kind is Element) {
        assert(found(t, p) =~= found_below(t, n, p));
    }
}

/// What is found in the first subtrees comes first.
proof fn found_starts(d: Seq<NodeModel>, t: IdTree, n: nat, m: nat, p: spec_fn(Kind) -> bool)
    requires
        n <= m <= t.children.len(),
        known_only(d, found_below(t, n, p)).len() > 0,
    ensures
        known_only(d, found_below(t, m, p)).len() > 0,
        known_only(d, found_below(t, m, p))[0] == known_only(d, found_below(t, n, p))[0],
    decreases m,
{
    if n < m {
        found_starts(d, t, n, (m - 1) as nat, p);
        known_only_adds(d, found_below(t, (m - 1) as nat, p), found(t.children[m - 1], p));
    }
}

/// What is first in the first subtrees is first in all of them.
proof fn first_named_stays(d: Seq<NodeModel>, t: IdTree, n: nat, m: nat, p: spec_fn(Kind) -> bool)
    requires
        n <= m <= t.children.len(),
        first_named_below(d, t, n, p) is Some,
    ensures
        first_named_below(d, t, m, p) == first_named_below(d, t, n, p),
    decreases m,
{
    if n < m {
        first_named_stays(d, t, n, (m - 1) as nat, p);
    }
}

} // verus!
