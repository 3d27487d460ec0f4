//! What holds of every document, whatever was done to it.
use crate::dom::edit::{
    appended, below, below_is_walked, clearing_keeps_walks, detached, detaching_keeps_trees,
    graft_keeps_walks, grafted,
};
use crate::dom::html::{no_document, AttrModel, HtmlTree, Kind};
use crate::dom::model::{
    agrees, first_named_is_found, found, hides_text, ids, ids_step, known, own_text, plain, ranked,
    rooted, subtree, subtree_frame, subtree_step, text_below, text_of, topped, tree_like, walkable,
    NodeModel,
};
use crate::dom::{
    attr_pos, attr_value, first_of, grown, is_tag, refilled, refilled_by, tag_below, text_at,
    with_attr, with_attrs, without_attr,
};
use vstd::prelude::*;

verus! {

pub proof fn attr_pos_is_first(attrs: Seq<AttrModel>, name: Seq<char>)
    ensures
        0 <= attr_pos(attrs, name) <= attrs.len(),
        attr_pos(attrs, name) < attrs.len() ==> attrs[attr_pos(attrs, name)].name == name,
        forall|i: int| 0 <= i < attr_pos(attrs, name) ==> (#[trigger] attrs[i]).name != name,
    decreases attrs.len(),
{
    if attrs.len() > 0 && attrs[0].name != name {
        attr_pos_is_first(attrs.skip(1), name);
        assert forall|i: int| 0 <= i < attr_pos(attrs, name) implies (#[trigger] attrs[i]).name
            != name by {
            if i > 0 {
                assert(attrs.skip(1)[i - 1] == attrs[i]);
            }
        }
    }
}

proof fn attr_pos_unique(attrs: Seq<AttrModel>, name: Seq<char>, k: int)
    requires
        0 <= k <= attrs.len(),
        k < attrs.len() ==> attrs[k].name == name,
        forall|i: int| 0 <= i < k ==> (#[trigger] attrs[i]).name != name,
    ensures
        attr_pos(attrs, name) == k,
{
    attr_pos_is_first(attrs, name);
    let p = attr_pos(attrs, name);
    if p < k {
        assert(attrs[p].name == name);
    }
    if k < p {
        assert(attrs[k].name == name);
    }
}

/// What was set is what is read, and every other attribute stays as it was.
pub proof fn attribute_reads_back(
    n: NodeModel,
    name: Seq<char>,
    value: Seq<char>,
    other: Seq<char>,
)
    requires
        n.kind is Element,
        other != name,
    ensures
        ({
            let set = with_attrs(n, with_attr(n.kind->attrs, name, value));
            &&& attr_value(set.kind, name) == Some(value)
            &&& attr_value(set.kind, other) == attr_value(n.kind, other)
        }),
{
    let attrs = n.kind->attrs;
    let after = with_attr(attrs, name, value);
    attr_pos_is_first(attrs, name);
    attr_pos_is_first(attrs, other);
    attr_pos_unique(after, name, attr_pos(attrs, name));
    let k = attr_pos(attrs, other);
    if k < attrs.len() {
        attr_pos_unique(after, other, k);
    } else {
        attr_pos_unique(after, other, after.len() as int);
    }
}

proof fn without_attr_keeps_the_rest(attrs: Seq<AttrModel>, name: Seq<char>, other: Seq<char>)
    requires
        other != name,
    ensures
        forall|i: int|
            0 <= i < without_attr(attrs, name).len() ==> (#[trigger] without_attr(
                attrs,
                name,
            )[i]).name != name,
        without_attr(attrs, name).len() <= attrs.len(),
        ({
            let w = without_attr(attrs, name);
            let k = attr_pos(attrs, other);
            let m = attr_pos(w, other);
            &&& (m < w.len()) == (k < attrs.len())
            &&& m < w.len() ==> w[m] == attrs[k]
        }),
    decreases attrs.len(),
{
    if attrs.len() > 0 {
        let front = attrs.drop_last();
        without_attr_keeps_the_rest(front, name, other);
        let wf = without_attr(front, name);
        let w = without_attr(attrs, name);
        attr_pos_is_first(front, other);
        attr_pos_is_first(attrs, other);
        attr_pos_is_first(wf, other);
        attr_pos_is_first(w, other);
        let k = attr_pos(front, other);
        let m = attr_pos(wf, other);
        assert(forall|i: int| 0 <= i < front.len() ==> #[trigger] attrs[i] == front[i]);
        assert(forall|i: int| 0 <= i < wf.len() ==> #[trigger] w[i] == wf[i]);
        if k < front.len() {
            attr_pos_unique(attrs, other, k);
            attr_pos_unique(w, other, m);
        } else if attrs.last().name == other {
            attr_pos_unique(attrs, other, front.len() as int);
            attr_pos_unique(w, other, wf.len() as int);
        } else {
            attr_pos_unique(attrs, other, attrs.len() as int);
            attr_pos_unique(w, other, w.len() as int);
        }
    }
}

/// A removed attribute is gone, and every other attribute stays as it was.
pub proof fn removed_attribute_is_gone(n: NodeModel, name: Seq<char>, other: Seq<char>)
    requires
        n.kind is Element,
        other != name,
    ensures
        ({
            let cut = with_attrs(n, without_attr(n.kind->attrs, name));
            &&& attr_value(cut.kind, name) is None
            &&& attr_value(cut.kind, other) == attr_value(n.kind, other)
        }),
{
    let attrs = n.kind->attrs;
    without_attr_keeps_the_rest(attrs, name, other);
    let w = without_attr(attrs, name);
    attr_pos_is_first(w, name);
    if attr_pos(w, name) < w.len() {
        assert(w[attr_pos(w, name)].name == name);
    }
}

/// An appended node is the last child of its parent, and of no other node.
pub proof fn appended_child_is_last(d: Seq<NodeModel>, p: int, c: int)
    requires
        tree_like(d),
        known(d, p),
        known(d, c),
        !ids(subtree(d, c)).contains(p),
    ensures
        ({
            let e = appended(d, p, c);
            &&& e[p].children.len() > 0 && e[p].children.last() == c
            &&& e[c].parent == Some(p)
            &&& forall|i: int| 0 <= i < e.len() && i != p ==> !(#[trigger] e[i]).children.contains(c)
        }),
{
    crate::dom::edit::appending_keeps_trees(d, p, c);
    detaching_keeps_trees(d, c);
    subtree_step(d, c);
    ids_step(subtree(d, c));
    let e = appended(d, p, c);
    assert(e[p].children == detached(d, c)[p].children.push(c));
    assert forall|i: int| 0 <= i < e.len() && i != p implies !(#[trigger] e[i]).children.contains(
        c,
    ) by {
        assert(agrees(e, i));
        if e[i].children.contains(c) {
            let k = choose|k: int| 0 <= k < e[i].children.len() && e[i].children[k] == c;
            assert(e[e[i].children[k]].parent == Some(i));
        }
    }
}

/// Below a node that was refilled stand exactly the given trees.
pub proof fn refilled_holds_the_trees(
    d: Seq<NodeModel>,
    e: Seq<NodeModel>,
    p: int,
    trees: Seq<HtmlTree>,
)
    requires
        walkable(d),
        known(d, p),
        refilled(d, e, p, trees),
        e.len() <= u32::MAX,
    ensures
        walkable(e),
        known(e, p),
        e[p].kind == d[p].kind,
        plain(subtree(e, p)) == (HtmlTree { kind: d[p].kind, children: trees }),
{
    let mid = choose|mid: Seq<Seq<NodeModel>>| refilled_by(d, e, p, trees, mid);
    clearing_keeps_walks(d, mid[0], p);
    growth_is_exact(mid, p, trees, trees.len());
    assert(trees.take(trees.len() as int) == trees);
}

proof fn lengths_grow(mid: Seq<Seq<NodeModel>>, p: int, trees: Seq<HtmlTree>, k: int)
    requires
        grown(mid, p, trees),
        0 <= k <= trees.len(),
    ensures
        mid[k].len() <= mid.last().len(),
    decreases trees.len() - k,
{
    if k < trees.len() {
        assert(grafted(mid[k], mid[k + 1], Some(p), trees[k]));
        lengths_grow(mid, p, trees, k + 1);
    }
}

proof fn growth_is_exact(mid: Seq<Seq<NodeModel>>, p: int, trees: Seq<HtmlTree>, k: nat)
    requires
        grown(mid, p, trees),
        k <= trees.len(),
        walkable(mid[0]),
        known(mid[0], p),
        mid[0][p].children.len() == 0,
        mid.last().len() <= u32::MAX,
    ensures
        walkable(mid[k as int]),
        known(mid[k as int], p),
        mid[k as int][p].kind == mid[0][p].kind,
        plain(subtree(mid[k as int], p)) == (HtmlTree {
            kind: mid[0][p].kind,
            children: trees.take(k as int),
        }),
    decreases k,
{
    if k == 0 {
        subtree_step(mid[0], p);
        assert(plain(subtree(mid[0], p)).children =~= trees.take(0));
    } else {
        let j = (k - 1) as nat;
        growth_is_exact(mid, p, trees, j);
        let a = mid[j as int];
        let b = mid[k as int];
        let t = trees[j as int];
        assert(grafted(mid[j as int], mid[j as int + 1], Some(p), trees[j as int]));
        lengths_grow(mid, p, trees, k as int);
        graft_keeps_walks(a, b, Some(p), t);
        graft_adds_one(a, b, p, t);
        assert(trees.take(k as int) == trees.take(j as int).push(t));
    }
}

proof fn graft_keeps_child(a: Seq<NodeModel>, b: Seq<NodeModel>, p: int, t: HtmlTree, j: int)
    requires
        walkable(a),
        walkable(b),
        grafted(a, b, Some(p), t),
        0 <= j < a[p].children.len(),
    ensures
        b[p].children[j] == a[p].children[j],
        subtree(b, a[p].children[j]) == subtree(a, a[p].children[j]),
{
    below_is_walked(a, p);
    let c = a[p].children[j];
    assert forall|i: int|
        #![trigger b[i]]
        ids(subtree(a, c)).contains(i) implies b[i].kind == a[i].kind && b[i].children
        == a[i].children by {
        assert(ids(subtree(a, a[p].children[j])).contains(i));
        assert(below(a, p, i));
        assert(b[i] == a[i]);
    }
    subtree_frame(a, b, c);
}

proof fn graft_adds_one(a: Seq<NodeModel>, b: Seq<NodeModel>, p: int, t: HtmlTree)
    requires
        walkable(a),
        walkable(b),
        grafted(a, b, Some(p), t),
        plain(subtree(b, a.len() as int)) == t,
    ensures
        plain(subtree(b, p)) == (HtmlTree {
            kind: a[p].kind,
            children: plain(subtree(a, p)).children.push(t),
        }),
{
    subtree_step(a, p);
    subtree_step(b, p);
    let n = a[p].children.len() as int;
    let ta = subtree(a, p);
    let tb = subtree(b, p);
    let x = plain(ta).children;
    let y = plain(tb).children;
    assert(b[p].children == a[p].children.push(a.len() as int));
    assert(y.len() == n + 1 && x.len() == n);
    assert forall|j: int| 0 <= j < y.len() implies y[j] == x.push(t)[j] by {
        assert(y[j] == plain(tb.children[j]));
        assert(tb.children[j] == subtree(b, b[p].children[j]));
        if j < n {
            graft_keeps_child(a, b, p, t, j);
            assert(ta.children[j] == subtree(a, a[p].children[j]));
            assert(x[j] == plain(ta.children[j]));
        }
    }
    assert(y =~= x.push(t));
}

/// The text that was put into a node is the text read from it, unless the node
/// is itself a text node or hides its text.
pub proof fn text_reads_back(d: Seq<NodeModel>, e: Seq<NodeModel>, p: int, text: Seq<char>)
    requires
        walkable(d),
        known(d, p),
        e.len() <= u32::MAX,
        refilled(d, e, p, seq![HtmlTree { kind: Kind::Text(text), children: seq![] }]),
        !(d[p].kind is Text),
    ensures
        text_at(e, p, true) == text,
        !hides_text(d[p].kind) ==> text_at(e, p, false) == text,
{
    let leaf = HtmlTree { kind: Kind::Text(text), children: seq![] };
    refilled_holds_the_trees(d, e, p, seq![leaf]);
    let t = subtree(e, p);
    assert(plain(t).children[0] == leaf);
    assert(t.children.len() == 1);
    let c = t.children[0];
    assert(plain(c) == leaf);
    assert(plain(c).children.len() == c.children.len());
    subtree_step(e, p);
    assert forall|raw: bool| #[trigger] text_of(c, raw) == text by {
        assert(text_below(c, 0, raw) =~= seq![]);
        assert(own_text(c.kind) + text_below(c, 0, raw) =~= text);
    }
    assert forall|raw: bool| text_below(t, 1, raw) =~= #[trigger] text_of(c, raw) by {
        assert(text_below(t, 0, raw) =~= seq![]);
    }
    assert(text_of(c, true) == text && text_of(c, false) == text);
    assert(own_text(t.kind) =~= seq![]);
    assert(own_text(t.kind) + text_below(t, 1, true) =~= text);
    assert(own_text(t.kind) + text_below(t, 1, false) =~= text);
}

/// Everything that stood below a refilled node is unknown afterwards.
pub proof fn replaced_nodes_are_forgotten(
    d: Seq<NodeModel>,
    e: Seq<NodeModel>,
    p: int,
    trees: Seq<HtmlTree>,
    i: int,
)
    requires
        walkable(d),
        known(d, p),
        refilled(d, e, p, trees),
        below(d, p, i),
    ensures
        !known(e, i),
{
    let mid = choose|mid: Seq<Seq<NodeModel>>| refilled_by(d, e, p, trees, mid);
    below_is_walked(d, p);
    stays_forgotten(mid, p, trees, trees.len(), i);
}

proof fn stays_forgotten(
    mid: Seq<Seq<NodeModel>>,
    p: int,
    trees: Seq<HtmlTree>,
    k: nat,
    i: int,
)
    requires
        grown(mid, p, trees),
        k <= trees.len(),
        0 <= i < mid[0].len(),
        i != p,
        !mid[0][i].live,
    ensures
        i < mid[k as int].len(),
        !mid[k as int][i].live,
    decreases k,
{
    if k > 0 {
        let j = k - 1;
        stays_forgotten(mid, p, trees, (k - 1) as nat, i);
        assert(grafted(mid[j], mid[j + 1], Some(p), trees[j]));
    }
}

/// While the document node hangs on no other node, no other node has it below itself.
pub proof fn document_stays_on_top(d: Seq<NodeModel>, id: int)
    requires
        walkable(d),
        rooted(d),
        topped(d),
        0 < id < d.len(),
    ensures
        no_document(plain(subtree(d, id))),
{
    let rank = choose|rank: Seq<nat>| ranked(d, rank);
    no_document_below(d, rank, id);
}

proof fn no_document_below(d: Seq<NodeModel>, rank: Seq<nat>, id: int)
    requires
        walkable(d),
        rooted(d),
        topped(d),
        ranked(d, rank),
        0 < id < d.len(),
    ensures
        no_document(plain(subtree(d, id))),
    decreases rank[id],
{
    subtree_step(d, id);
    let t = subtree(d, id);
    assert forall|j: int| 0 <= j < plain(t).children.len() implies no_document(
        #[trigger] plain(t).children[j],
    ) by {
        let c = d[id].children[j];
        assert(rank[d[id].children[j]] < rank[id]);
        no_document_below(d, rank, c);
        assert(t.children[j] == subtree(d, c));
    }
}

/// In a forest, the first element of a name is the first that is found.
pub proof fn trees_name_the_first(d: Seq<NodeModel>, id: int, tag: Seq<char>)
    requires
        tree_like(d),
        known(d, id),
    ensures
        tag_below(d, id, tag) == first_of(found(subtree(d, id), is_tag(tag))),
{
    let rank = choose|rank: Seq<nat>| ranked(d, rank);
    first_named_is_found(d, rank, id, is_tag(tag));
}

/// In a forest, a document node without a parent hangs on no other.
pub proof fn trees_are_topped(d: Seq<NodeModel>)
    requires
        tree_like(d),
        d.len() > 0,
        d[0].parent is None,
    ensures
        topped(d),
{
    assert forall|i: int, j: int|
        0 <= i < d.len() && 0 <= j < d[i].children.len() implies #[trigger] d[i].children[j] != 0 by {
        assert(agrees(d, i));
        assert(d[d[i].children[j]].parent == Some(i));
    }
}

} // verus!
