//! What each change of a document does.
use crate::dom::html::{parsable, parsed_fragment, tree_size, HtmlTree, Kind};
use crate::dom::laws::{attribute_reads_back, refilled_holds_the_trees, removed_attribute_is_gone};
use crate::dom::model::{hides_text, ids, known, plain, subtree, walkable, NodeModel};
use crate::dom::{
    attr_at, fragment_context, fragment_nodes, text_at, Document, Error, NodeId,
};
use vstd::prelude::*;
use vstd::string::*;

verus! {

/// An attribute that is set is read back; the node's others, and every other node, stay.
pub proof fn set_attributes_are_read_back(
    doc: &mut Document,
    id: NodeId,
    name: &str,
    value: &str,
    r: Result<(), Error>,
    other: Seq<char>,
    i: int,
)
    requires
        call_ensures(Document::set_attribute, (doc, id, name, value), r),
        other != name@,
        i != id.0,
    ensures
        r is Ok <==> known(old(doc)@, id.0 as int),
        r is Ok && old(doc)@[id.0 as int].kind is Element ==> attr_at(
            final(doc)@,
            id.0 as int,
            name@,
        ) == Some(value@) && attr_at(final(doc)@, id.0 as int, other) == attr_at(
            old(doc)@,
            id.0 as int,
            other,
        ),
        0 <= i < old(doc)@.len() ==> final(doc)@[i] == old(doc)@[i],
        final(doc)@.len() == old(doc)@.len(),
        r matches Err(e) ==> e == Error::UnknownNode(id.0) && final(doc)@ == old(doc)@,
{
    if r is Ok && old(doc)@[id.0 as int].kind is Element {
        attribute_reads_back(old(doc)@[id.0 as int], name@, value@, other);
    }
}

/// An attribute that is removed is gone; the node's others, and every other node, stay.
pub proof fn removed_attributes_are_gone(
    doc: &mut Document,
    id: NodeId,
    name: &str,
    r: Result<(), Error>,
    other: Seq<char>,
    i: int,
)
    requires
        call_ensures(Document::remove_attribute, (doc, id, name), r),
        other != name@,
        i != id.0,
    ensures
        r is Ok <==> known(old(doc)@, id.0 as int),
        r is Ok && old(doc)@[id.0 as int].kind is Element ==> attr_at(
            final(doc)@,
            id.0 as int,
            name@,
        ) is None && attr_at(final(doc)@, id.0 as int, other) == attr_at(
            old(doc)@,
            id.0 as int,
            other,
        ),
        0 <= i < old(doc)@.len() ==> final(doc)@[i] == old(doc)@[i],
        final(doc)@.len() == old(doc)@.len(),
{
    if r is Ok && old(doc)@[id.0 as int].kind is Element {
        removed_attribute_is_gone(old(doc)@[id.0 as int], name@, other);
    }
}

/// A node that is created is a new one, with nothing in it and nothing around it; every
/// other stays.
pub proof fn created_nodes_are_new(
    doc: &mut Document,
    tag: &str,
    e: NodeId,
    doc2: &mut Document,
    text: &str,
    t: NodeId,
    i: int,
)
    requires
        call_ensures(Document::create_element, (doc, tag), e),
        call_ensures(Document::create_text_node, (doc2, text), t),
        old(doc)@.len() < u32::MAX,
        old(doc2)@.len() < u32::MAX,
    ensures
        !known(old(doc)@, e.0 as int) && known(final(doc)@, e.0 as int),
        final(doc)@[e.0 as int].kind is Element && final(doc)@[e.0 as int].kind->tag == tag@
            && final(doc)@[e.0 as int].kind->attrs.len() == 0,
        final(doc)@[e.0 as int].children.len() == 0 && final(doc)@[e.0 as int].parent is None,
        0 <= i < old(doc)@.len() ==> final(doc)@[i] == old(doc)@[i],
        !known(old(doc2)@, t.0 as int) && known(final(doc2)@, t.0 as int),
        final(doc2)@[t.0 as int].kind == Kind::Text(text@),
        final(doc2)@[t.0 as int].children.len() == 0 && final(doc2)@[t.0 as int].parent is None,
{
}

/// A child that is appended stands last below its parent, and nowhere else; it can be
/// appended if and only if both are known.
pub proof fn appended_children_stand_last(
    doc: &mut Document,
    parent: NodeId,
    child: NodeId,
    r: Result<(), Error>,
    q: int,
)
    requires
        call_ensures(Document::append_child, (doc, parent, child), r),
        old(doc).valid(),
        parent != child,
        0 <= q < old(doc)@.len(),
    ensures
        r is Ok <==> known(old(doc)@, parent.0 as int) && known(old(doc)@, child.0 as int),
        r is Ok ==> {
            let d = old(doc)@;
            let e = final(doc)@;
            let c = child.0 as int;
            let p = parent.0 as int;
            &&& e[p].children == d[p].children.filter(|x: int| x != c).push(c)
            &&& q != p ==> e[q].children == d[q].children.filter(|x: int| x != c)
            &&& e[c].parent == Some(p)
            &&& e[q].kind == d[q].kind
        },
        r is Err ==> final(doc)@ == old(doc)@,
{
    if r is Ok {
        crate::dom::read::appending_moves_one_node(
            old(doc)@,
            parent.0 as int,
            child.0 as int,
            q,
        );
    }
}

/// A child that is removed is below nothing, and the others keep their places.
pub proof fn removed_children_are_below_nothing(
    doc: &mut Document,
    parent: NodeId,
    child: NodeId,
    r: Result<(), Error>,
    q: int,
)
    requires
        call_ensures(Document::remove_child, (doc, parent, child), r),
        old(doc).valid(),
        parent != child,
        0 <= q < old(doc)@.len(),
        0 <= child.0 < old(doc)@.len(),
        old(doc)@[child.0 as int].parent == Some(parent.0 as int),
    ensures
        r is Ok <==> known(old(doc)@, parent.0 as int) && known(old(doc)@, child.0 as int),
        r is Ok ==> {
            let d = old(doc)@;
            let e = final(doc)@;
            let c = child.0 as int;
            let p = parent.0 as int;
            &&& e[p].children == d[p].children.filter(|x: int| x != c)
            &&& q != p ==> e[q].children == d[q].children
            &&& e[c].parent is None
            &&& e[q].kind == d[q].kind
        },
        r is Err ==> final(doc)@ == old(doc)@,
{
    if r is Ok {
        crate::dom::read::removing_takes_one_node(
            old(doc)@,
            parent.0 as int,
            child.0 as int,
            q,
        );
    }
}

/// A text that is set is the node's whole text: it is read back, and what was in the node
/// is gone.
pub proof fn set_texts_are_read_back(
    doc: &mut Document,
    id: NodeId,
    text: &str,
    r: Result<(), Error>,
)
    requires
        call_ensures(Document::set_text_content, (doc, id, text), r),
        walkable(old(doc)@),
        final(doc)@.len() <= u32::MAX,
    ensures
        r is Ok <==> known(old(doc)@, id.0 as int),
        r is Ok && !(old(doc)@[id.0 as int].kind is Text) ==> text_at(
            final(doc)@,
            id.0 as int,
            true,
        ) == text@ && (!hides_text(old(doc)@[id.0 as int].kind) ==> text_at(
            final(doc)@,
            id.0 as int,
            false,
        ) == text@),
        r is Err ==> final(doc)@ == old(doc)@,
{
    if r is Ok && !(old(doc)@[id.0 as int].kind is Text) {
        crate::dom::laws::text_reads_back(old(doc)@, final(doc)@, id.0 as int, text@);
    }
}

/// HTML that is set is what the node then holds: the nodes that it is parsed as, in the
/// place of those that were there.
pub proof fn set_html_is_what_is_held(
    doc: &mut Document,
    id: NodeId,
    html: &str,
    r: Result<(), Error>,
)
    requires
        call_ensures(Document::set_inner_html, (doc, id, html), r),
        walkable(old(doc)@),
        final(doc)@.len() <= u32::MAX,
    ensures
        r is Ok ==> known(old(doc)@, id.0 as int) && plain(subtree(final(doc)@, id.0 as int)).kind
            == old(doc)@[id.0 as int].kind,
        r is Ok && old(doc)@[id.0 as int].kind is Element ==> plain(
            subtree(final(doc)@, id.0 as int),
        ).children == fragment_nodes(
            parsed_fragment(old(doc)@[id.0 as int].kind->tag, html@),
        ),
        r is Err ==> final(doc)@ == old(doc)@,
        !known(old(doc)@, id.0 as int) ==> r is Err && r->Err_0 == Error::UnknownNode(id.0),
{
    if r is Ok {
        let k = old(doc)@[id.0 as int].kind;
        let trees = fragment_nodes(parsed_fragment(fragment_context(k), html@));
        refilled_holds_the_trees(old(doc)@, final(doc)@, id.0 as int, trees);
    }
}

/// The element of an id is the first with it, in document order.
pub proof fn ids_name_the_first(doc: &Document, id: &str, r: Option<NodeId>)
    requires
        call_ensures(Document::get_element_by_id, (doc, id), r),
        doc.valid(),
        known(doc@, 0),
    ensures
        r matches Some(n) ==> known(doc@, n.0 as int) && crate::dom::find::has_attr(
            doc@[n.0 as int].kind,
            "id"@,
            id@,
        ) && ids(subtree(doc@, 0)).contains(n.0 as int),
        forall|i: int|
            #[trigger] ids(subtree(doc@, 0)).contains(i) && crate::dom::find::has_attr(
                doc@[i].kind,
                "id"@,
                id@,
            ) ==> r is Some,
{
    let d = doc@;
    let sel = crate::dom::selector::Selector::Id(id@);
    let p = crate::dom::is_selected(sel);
    let rank = choose|rank: Seq<nat>| crate::dom::model::ranked(d, rank);
    crate::dom::model::first_named_is_found(d, rank, 0, p);
    crate::dom::model::found_is_known(d, rank, 0, p);
    crate::dom::model::found_satisfies(d, rank, 0, p);
    let f = crate::dom::model::found(subtree(d, 0), p);
    crate::dom::find::found_is_filtered(d, 0, p);
    let order = ids(subtree(d, 0));
    let q = |i: int| p(d[i].kind);
    assert(f == order.filter(q));
    if r is Some {
        let NodeId(raw) = r->0;
        let n = raw as int;
        assert(f[0] == n);
        assert(selects_id(sel, d[n].kind));
        let attrs = d[n].kind->attrs;
        let i = choose|i: int|
            0 <= i < attrs.len() && crate::dom::selector::attr_matches(sel, #[trigger] attrs[i]);
        assert(attrs[i].name == "id"@ && attrs[i].value == id@);
        crate::dom::find::kept_were_there(order, q, 0);
        let j = choose|j: int| 0 <= j < order.len() && #[trigger] order[j] == f[0] && q(order[j]);
        assert(order[j] == n);
    }
    assert forall|i: int|
        #[trigger] ids(subtree(d, 0)).contains(i) && crate::dom::find::has_attr(
            d[i].kind,
            "id"@,
            id@,
        ) implies r is Some by {
        let attrs = d[i].kind->attrs;
        let k = choose|k: int|
            0 <= k < attrs.len() && (#[trigger] attrs[k]).name == "id"@ && attrs[k].value == id@;
        assert(crate::dom::selector::attr_matches(sel, attrs[k]));
        assert(q(i));
        let j = choose|j: int| 0 <= j < order.len() && order[j] == i;
        crate::dom::find::those_there_are_kept(order, q, j);
        assert(f.len() > 0);
    }
}

spec fn selects_id(sel: crate::dom::selector::Selector, k: Kind) -> bool {
    crate::dom::selector::selects(sel, k)
}

} // verus!
