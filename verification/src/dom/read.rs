//! What a document says of its nodes, and what a change does to them.
use crate::dom::edit::{appended, detached, removed, without};
use crate::dom::find::{has_attr_named, nodes_come_before_their_children};
use crate::dom::html::{serialized, Kind};
use crate::dom::laws::trees_name_the_first;
use crate::dom::model::{
    any_kind, found, found_below, hides_text, ids, known, known_only, known_only_picks, own_text,
    plain, ranked, subtree, subtree_step, text_below, text_of, tree_like, walkable, NodeModel,
};
use crate::dom::{
    first_of, inner_text, is_tag, raw_id, raw_ids, tag_at, tag_below, text_at, Document, NodeId,
};
use crate::text::trimmed;
use vstd::prelude::*;
use vstd::string::*;

verus! {

// ---- texts -----------------------------------------------------------------------

/// The whole text of a node is that of every text node in its tree, in document order.
pub proof fn raw_text_is_all_text(d: Seq<NodeModel>, id: int)
    requires
        walkable(d),
        known(d, id),
    ensures
        text_at(d, id, true) == ids(subtree(d, id)).map_values(
            |i: int|
                match d[i].kind {
                    Kind::Text(t) => t,
                    _ => seq![],
                },
        ).flatten(),
{
    let rank = choose|rank: Seq<nat>| ranked(d, rank);
    raw_text_of(d, rank, id);
}

spec fn texts_of(d: Seq<NodeModel>, s: Seq<int>) -> Seq<Seq<char>> {
    s.map_values(
        |i: int|
            match d[i].kind {
                Kind::Text(t) => t,
                _ => seq![],
            },
    )
}

proof fn raw_text_of(d: Seq<NodeModel>, rank: Seq<nat>, id: int)
    requires
        walkable(d),
        ranked(d, rank),
        0 <= id < d.len(),
    ensures
        text_of(subtree(d, id), true) == texts_of(d, ids(subtree(d, id))).flatten(),
    decreases rank[id], d[id].children.len() + 1,
{
    subtree_step(d, id);
    let t = subtree(d, id);
    raw_text_below(d, rank, id, d[id].children.len());
    let rest = found_below(t, t.children.len(), any_kind());
    assert(ids(t) =~= seq![id] + rest);
    let a = texts_of(d, seq![id]);
    let b = texts_of(d, rest);
    assert(texts_of(d, ids(t)) =~= a + b);
    vstd::seq_lib::lemma_flatten_concat(a, b);
    a.lemma_flatten_one_element();
    assert(a.first() == own_text(t.kind));
}

proof fn raw_text_below(d: Seq<NodeModel>, rank: Seq<nat>, id: int, n: nat)
    requires
        walkable(d),
        ranked(d, rank),
        0 <= id < d.len(),
        n <= d[id].children.len(),
    ensures
        text_below(subtree(d, id), n, true) == texts_of(
            d,
            found_below(subtree(d, id), n, any_kind()),
        ).flatten(),
    decreases rank[id], n,
{
    subtree_step(d, id);
    let t = subtree(d, id);
    if n == 0 {
        assert(texts_of(d, found_below(t, n, any_kind())) =~= seq![]);
    } else {
        let m = (n - 1) as nat;
        let c = d[id].children[m as int];
        raw_text_below(d, rank, id, m);
        assert(rank[c] < rank[id]);
        raw_text_of(d, rank, c);
        assert(t.children[m as int] == subtree(d, c));
        let a = found_below(t, m, any_kind());
        let b = ids(subtree(d, c));
        assert(texts_of(d, a + b) =~= texts_of(d, a) + texts_of(d, b));
        vstd::seq_lib::lemma_flatten_concat(texts_of(d, a), texts_of(d, b));
    }
}

/// The text of a node is its own, then that of its children in order; within a script, a
/// style, a noscript or a template there is none.
pub proof fn text_leaves_out_scripts(d: Seq<NodeModel>, id: int)
    requires
        walkable(d),
        0 <= id < d.len(),
    ensures
        ({
            let k = d[id].kind;
            let hidden = k is Element && (k->tag == "script"@ || k->tag == "style"@ || k->tag
                == "noscript"@ || k->tag == "template"@);
            &&& hidden ==> text_of(subtree(d, id), false).len() == 0
            &&& !hidden ==> text_of(subtree(d, id), false) == (match k {
                Kind::Text(t) => t,
                _ => seq![],
            }) + d[id].children.map_values(|c: int| text_of(subtree(d, c), false)).flatten()
        }),
        known(d, id) ==> text_at(d, id, false) == text_of(subtree(d, id), false),
        !known(d, id) ==> text_at(d, id, false).len() == 0,
{
    subtree_step(d, id);
    children_texts(d, id, d[id].children.len());
    assert(d[id].children.take(d[id].children.len() as int) =~= d[id].children);
}

proof fn children_texts(d: Seq<NodeModel>, id: int, n: nat)
    requires
        walkable(d),
        0 <= id < d.len(),
        n <= d[id].children.len(),
    ensures
        text_below(subtree(d, id), n, false) == d[id].children.take(n as int).map_values(
            |c: int| text_of(subtree(d, c), false),
        ).flatten(),
    decreases n,
{
    subtree_step(d, id);
    let f = |c: int| text_of(subtree(d, c), false);
    let s = d[id].children.take(n as int).map_values(f);
    if n == 0 {
        assert(s =~= seq![]);
    } else {
        let m = (n - 1) as nat;
        children_texts(d, id, m);
        let before = d[id].children.take(m as int).map_values(f);
        let last = text_of(subtree(d, d[id].children[m as int]), false);
        assert(s =~= before.push(last));
        before.lemma_flatten_push(last);
        assert(subtree(d, id).children[m as int] == subtree(d, d[id].children[m as int]));
    }
}

/// What a document answers for a node's text.
pub proof fn documents_give_texts(doc: &Document, id: NodeId, shown: String, whole: String)
    requires
        call_ensures(Document::text_content, (doc, id), shown),
        call_ensures(Document::raw_text_content, (doc, id), whole),
    ensures
        shown@ == text_at(doc@, id.0 as int, false),
        whole@ == text_at(doc@, id.0 as int, true),
{
}

// ---- named elements --------------------------------------------------------------

/// The first element of this tag, in document order, if there is any.
pub open spec fn is_first_tagged(d: Seq<NodeModel>, tag: Seq<char>, r: Option<int>) -> bool {
    let order = ids(subtree(d, 0));
    match r {
        Some(i) => exists|j: int|
            {
                &&& 0 <= j < order.len()
                &&& #[trigger] order[j] == i
                &&& d[i].kind is Element && d[i].kind->tag == tag
                &&& forall|k: int|
                    0 <= k < j ==> !(d[#[trigger] order[k]].kind is Element
                        && d[order[k]].kind->tag == tag)
            },
        None => forall|k: int|
            0 <= k < order.len() ==> !(d[#[trigger] order[k]].kind is Element
                && d[order[k]].kind->tag == tag),
    }
}

proof fn tagged_is_first(d: Seq<NodeModel>, tag: Seq<char>)
    requires
        tree_like(d),
        known(d, 0),
    ensures
        is_first_tagged(d, tag, tag_below(d, 0, tag)),
{
    trees_name_the_first(d, 0, tag);
    let rank = choose|rank: Seq<nat>| ranked(d, rank);
    found_first(d, rank, 0, is_tag(tag));
    let order = ids(subtree(d, 0));
    let f = found(subtree(d, 0), is_tag(tag));
    if f.len() > 0 {
        let j = choose|j: int|
            {
                &&& 0 <= j < order.len()
                &&& #[trigger] order[j] == f[0]
                &&& is_tag(tag)(d[order[j]].kind)
                &&& forall|k: int| 0 <= k < j ==> !is_tag(tag)(d[#[trigger] order[k]].kind)
            };
        assert(order[j] == f[0]);
        assert forall|k: int| 0 <= k < j implies !(d[#[trigger] order[k]].kind is Element
            && d[order[k]].kind->tag == tag) by {
            assert(!is_tag(tag)(d[order[k]].kind));
        }
    } else {
        assert forall|k: int| 0 <= k < order.len() implies !(d[#[trigger] order[k]].kind is Element
            && d[order[k]].kind->tag == tag) by {
            assert(!is_tag(tag)(d[order[k]].kind));
        }
    }
}

/// The first that is found is the first of the tree that satisfies.
proof fn found_first(d: Seq<NodeModel>, rank: Seq<nat>, id: int, p: spec_fn(Kind) -> bool)
    requires
        walkable(d),
        ranked(d, rank),
        0 <= id < d.len(),
    ensures
        first_in(d, ids(subtree(d, id)), found(subtree(d, id), p), p),
    decreases rank[id], d[id].children.len() + 1,
{
    subtree_step(d, id);
    let t = subtree(d, id);
    let rest = found_below(t, t.children.len(), any_kind());
    let f = found_below(t, t.children.len(), p);
    found_first_below(d, rank, id, d[id].children.len(), p);
    assert(ids(t) =~= seq![id] + rest);
    let one: Seq<int> = if p(t.kind) {
        seq![id]
    } else {
        seq![]
    };
    let whole = seq![id];
    assert(first_in(d, whole, one, p)) by {
        if p(t.kind) {
            assert(whole[0] == one[0]);
        }
    }
    first_of_sum(d, whole, rest, one, f, p);
}

spec fn first_in(d: Seq<NodeModel>, order: Seq<int>, f: Seq<int>, p: spec_fn(Kind) -> bool) -> bool {
    if f.len() > 0 {
        exists|j: int|
            {
                &&& 0 <= j < order.len()
                &&& #[trigger] order[j] == f[0]
                &&& p(d[order[j]].kind)
                &&& forall|k: int| 0 <= k < j ==> !p(d[#[trigger] order[k]].kind)
            }
    } else {
        forall|k: int| 0 <= k < order.len() ==> !p(d[#[trigger] order[k]].kind)
    }
}

proof fn first_of_sum(
    d: Seq<NodeModel>,
    a: Seq<int>,
    b: Seq<int>,
    f: Seq<int>,
    g: Seq<int>,
    p: spec_fn(Kind) -> bool,
)
    requires
        first_in(d, a, f, p),
        first_in(d, b, g, p),
    ensures
        first_in(d, a + b, f + g, p),
{
    let order = a + b;
    let all = f + g;
    if f.len() > 0 {
        let j = choose|j: int|
            {
                &&& 0 <= j < a.len()
                &&& #[trigger] a[j] == f[0]
                &&& p(d[a[j]].kind)
                &&& forall|k: int| 0 <= k < j ==> !p(d[#[trigger] a[k]].kind)
            };
        assert(order[j] == all[0]);
        assert forall|k: int| 0 <= k < j implies !p(d[#[trigger] order[k]].kind) by {
            assert(order[k] == a[k]);
        }
    } else if g.len() > 0 {
        let j = choose|j: int|
            {
                &&& 0 <= j < b.len()
                &&& #[trigger] b[j] == g[0]
                &&& p(d[b[j]].kind)
                &&& forall|k: int| 0 <= k < j ==> !p(d[#[trigger] b[k]].kind)
            };
        assert(order[a.len() + j] == all[0]);
        assert forall|k: int| 0 <= k < a.len() + j implies !p(d[#[trigger] order[k]].kind) by {
            if k < a.len() {
                assert(order[k] == a[k]);
            } else {
                assert(order[k] == b[k - a.len()]);
            }
        }
    } else {
        assert forall|k: int| 0 <= k < order.len() implies !p(d[#[trigger] order[k]].kind) by {
            if k < a.len() {
                assert(order[k] == a[k]);
            } else {
                assert(order[k] == b[k - a.len()]);
            }
        }
    }
}

proof fn found_first_below(
    d: Seq<NodeModel>,
    rank: Seq<nat>,
    id: int,
    n: nat,
    p: spec_fn(Kind) -> bool,
)
    requires
        walkable(d),
        ranked(d, rank),
        0 <= id < d.len(),
        n <= d[id].children.len(),
    ensures
        first_in(
            d,
            found_below(subtree(d, id), n, any_kind()),
            found_below(subtree(d, id), n, p),
            p,
        ),
    decreases rank[id], n,
{
    subtree_step(d, id);
    let t = subtree(d, id);
    if n > 0 {
        let m = (n - 1) as nat;
        let c = d[id].children[m as int];
        found_first_below(d, rank, id, m, p);
        assert(rank[c] < rank[id]);
        found_first(d, rank, c, p);
        assert(t.children[m as int] == subtree(d, c));
        first_of_sum(
            d,
            found_below(t, m, any_kind()),
            ids(subtree(d, c)),
            found_below(t, m, p),
            found(subtree(d, c), p),
            p,
        );
    }
}

/// The root, the head and the body of a document are its first elements of these tags.
pub proof fn main_elements_are_the_first(
    doc: &Document,
    html: Option<NodeId>,
    head: Option<NodeId>,
    body: Option<NodeId>,
)
    requires
        doc.valid(),
        known(doc@, 0),
        call_ensures(Document::html_root, (doc,), html),
        call_ensures(Document::head, (doc,), head),
        call_ensures(Document::body, (doc,), body),
    ensures
        is_first_tagged(doc@, "html"@, raw_id(html)),
        is_first_tagged(doc@, "head"@, raw_id(head)),
        is_first_tagged(doc@, "body"@, raw_id(body)),
{
    tagged_is_first(doc@, "html"@);
    tagged_is_first(doc@, "head"@);
    tagged_is_first(doc@, "body"@);
}

/// The title of a document is the text of its first title element, without space around
/// it; its body's text is that of its first body.
pub proof fn titles_and_bodies_are_the_first(
    doc: &Document,
    title: Option<String>,
    body: String,
)
    requires
        doc.valid(),
        known(doc@, 0),
        call_ensures(Document::title, (doc,), title),
        call_ensures(Document::body_text, (doc,), body),
    ensures
        title is None ==> is_first_tagged(doc@, "title"@, None),
        title matches Some(t) ==> exists|i: int|
            #[trigger] is_first_tagged(doc@, "title"@, Some(i)) && t@ == trimmed(
                text_at(doc@, i, false),
            ),
        is_first_tagged(doc@, "body"@, None) && body@.len() == 0 || exists|i: int|
            #[trigger] is_first_tagged(doc@, "body"@, Some(i)) && body@ == text_at(
                doc@,
                i,
                false,
            ),
{
    tagged_is_first(doc@, "title"@);
    tagged_is_first(doc@, "body"@);
    if title is Some {
        let i = tag_below(doc@, 0, "title"@)->0;
        assert(is_first_tagged(doc@, "title"@, Some(i)));
    }
    if tag_below(doc@, 0, "body"@) is Some {
        let i = tag_below(doc@, 0, "body"@)->0;
        assert(is_first_tagged(doc@, "body"@, Some(i)));
    }
}

/// The tag of a node is its own; only elements have one.
pub proof fn only_elements_have_tags(doc: &Document, id: NodeId, r: Option<String>)
    requires
        call_ensures(Document::tag_name, (doc, id), r),
    ensures
        r is Some <==> known(doc@, id.0 as int) && doc@[id.0 as int].kind is Element,
        r matches Some(t) ==> t@ == doc@[id.0 as int].kind->tag,
{
}

/// In a tree a node's children are all there, in order, and it is the parent of each.
pub proof fn children_know_their_parent(
    doc: &Document,
    id: NodeId,
    all: Vec<NodeId>,
    j: int,
    up: Option<NodeId>,
)
    requires
        doc.valid(),
        known(doc@, id.0 as int),
        call_ensures(Document::children, (doc, id), all),
        0 <= j < all@.len(),
        call_ensures(Document::parent, (doc, all@[j]), up),
    ensures
        raw_ids(all@) == doc@[id.0 as int].children,
        up == Some(id),
{
    let d = doc@;
    let i = id.0 as int;
    let s = d[i].children;
    assert(crate::dom::model::agrees(d, i));
    assert forall|k: int| 0 <= k < s.len() implies d[#[trigger] s[k]].live by {
        assert(d[s[k]].parent == Some(i));
        assert(crate::dom::model::agrees(d, s[k]));
    }
    known_only_picks(d, s);
    assert(raw_ids(all@) == s);
    assert(raw_ids(all@)[j] == all@[j].0);
    assert(d[s[j]].parent == Some(i));
}

// ---- HTML ------------------------------------------------------------------------

/// The HTML within a node is that of its children, one behind the other.
pub proof fn inner_html_is_that_of_the_children(d: Seq<NodeModel>, s: Seq<int>)
    ensures
        inner_text(d, s) == s.map_values(|c: int| serialized(plain(subtree(d, c)), false)).flatten(),
    decreases s.len(),
{
    let f = |c: int| serialized(plain(subtree(d, c)), false);
    if s.len() == 0 {
        assert(s.map_values(f) =~= seq![]);
    } else {
        inner_html_is_that_of_the_children(d, s.drop_last());
        let before = s.drop_last().map_values(f);
        assert(s.map_values(f) =~= before.push(f(s.last())));
        before.lemma_flatten_push(f(s.last()));
    }
}

/// What a document answers for a node's HTML.
pub proof fn documents_give_html(
    doc: &Document,
    id: NodeId,
    inner: String,
    outer: String,
    whole: String,
)
    requires
        known(doc@, id.0 as int),
        call_ensures(Document::inner_html, (doc, id), inner),
        call_ensures(Document::outer_html, (doc, id), outer),
        call_ensures(Document::serialize, (doc,), whole),
    ensures
        inner@ == doc@[id.0 as int].children.map_values(
            |c: int| serialized(plain(subtree(doc@, c)), false),
        ).flatten(),
        outer@ == serialized(plain(subtree(doc@, id.0 as int)), true),
        whole@ == serialized(plain(subtree(doc@, 0)), false),
{
    inner_html_is_that_of_the_children(doc@, doc@[id.0 as int].children);
}

// ---- moving ----------------------------------------------------------------------

proof fn without_is_filtered(s: Seq<int>, c: int)
    ensures
        without(s, c) == s.filter(|x: int| x != c),
    decreases s.len(),
{
    reveal(Seq::filter);
    if s.len() > 0 {
        without_is_filtered(s.drop_last(), c);
    }
}

/// A node that is appended stands last below its new parent and nowhere else; every other
/// node stays where it was, in the same order, and what the nodes are does not change.
pub proof fn appending_moves_one_node(d: Seq<NodeModel>, p: int, c: int, q: int)
    requires
        tree_like(d),
        known(d, p),
        known(d, c),
        c != p,
        0 <= q < d.len(),
    ensures
        ({
            let e = appended(d, p, c);
            &&& e.len() == d.len()
            &&& e[p].children == d[p].children.filter(|x: int| x != c).push(c)
            &&& q != p ==> e[q].children == d[q].children.filter(|x: int| x != c)
            &&& e[c].parent == Some(p)
            &&& q != c ==> e[q].parent == d[q].parent
            &&& e[q].kind == d[q].kind
            &&& e[q].live == d[q].live
        }),
{
    without_is_filtered(d[p].children, c);
    without_is_filtered(d[q].children, c);
    assert(crate::dom::model::agrees(d, c));
    assert(crate::dom::model::agrees(d, p));
    assert(crate::dom::model::agrees(d, q));
    if d[c].parent != Some(q) {
        if d[q].children.contains(c) {
            let j = choose|j: int| 0 <= j < d[q].children.len() && d[q].children[j] == c;
            assert(d[d[q].children[j]].parent == Some(q));
        }
        nothing_is_cut(d[q].children, c);
    }
    if d[c].parent != Some(p) {
        if d[p].children.contains(c) {
            let j = choose|j: int| 0 <= j < d[p].children.len() && d[p].children[j] == c;
            assert(d[d[p].children[j]].parent == Some(p));
        }
        nothing_is_cut(d[p].children, c);
    }
    if d[c].parent == Some(c) {
        let rank = choose|rank: Seq<nat>| ranked(d, rank);
        assert(d[c].children.contains(c));
        let j = choose|j: int| 0 <= j < d[c].children.len() && d[c].children[j] == c;
        assert(rank[d[c].children[j]] < rank[c]);
    }
}

proof fn nothing_is_cut(s: Seq<int>, c: int)
    requires
        !s.contains(c),
    ensures
        s.filter(|x: int| x != c) == s,
    decreases s.len(),
{
    reveal(Seq::filter);
    if s.len() > 0 {
        assert(s[s.len() - 1] != c);
        assert forall|i: int| 0 <= i < s.drop_last().len() implies s.drop_last()[i] != c by {
            assert(s.drop_last()[i] == s[i]);
        }
        nothing_is_cut(s.drop_last(), c);
        assert(s =~= s.drop_last().push(s.last()));
    } else {
        assert(s.filter(|x: int| x != c) =~= s);
    }
}

/// A node that is removed is below nothing; the others keep their places.
pub proof fn removing_takes_one_node(d: Seq<NodeModel>, p: int, c: int, q: int)
    requires
        tree_like(d),
        known(d, p),
        known(d, c),
        c != p,
        d[c].parent == Some(p),
        0 <= q < d.len(),
    ensures
        ({
            let e = removed(d, p, c);
            &&& e.len() == d.len()
            &&& e[p].children == d[p].children.filter(|x: int| x != c)
            &&& q != p ==> e[q].children == d[q].children
            &&& e[c].parent is None
            &&& q != c ==> e[q].parent == d[q].parent
            &&& e[q].kind == d[q].kind
            &&& e[q].live == d[q].live
        }),
{
    without_is_filtered(d[p].children, c);
}

} // verus!
