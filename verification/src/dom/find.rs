//! What is found in a document, and in what order.
use crate::dom::html::{AttrModel, Kind, NodeKind};
use crate::dom::model::{
    acyclic, any_kind, found, found_below, ids, ids_step, known, known_only, known_only_picks,
    linked, ranked, subtree, subtree_step, tree_like, walkable, IdTree, NodeModel,
};
use crate::dom::selector::{
    attr_matches, bracketed, is_tag_char, parsed_selector, quoted, selects, unquoted, Selector,
    SimpleSelector,
};
use crate::dom::{is_selected, selected_below, Document, NodeId};
use crate::text::{
    ascii_lower, ascii_words, first_pos, first_pos_is_first, is_whitespace, same_ignoring_case,
    trimmed, trimmed_keeps_clean,
};
use vstd::prelude::*;
use vstd::string::*;

verus! {

// ---- document order --------------------------------------------------------------

/// A chain of nodes, each a child of the one before it.
pub open spec fn is_chain(d: Seq<NodeModel>, path: Seq<int>) -> bool {
    forall|i: int|
        0 <= i < path.len() - 1 ==> #[trigger] d[path[i]].children.contains(path[i + 1])
}

/// The node is the other one or below it.
pub open spec fn reaches(d: Seq<NodeModel>, top: int, id: int) -> bool {
    exists|path: Seq<int>|
        #[trigger] is_chain(d, path) && path.len() > 0 && path[0] == top && path.last() == id
}

/// What a node's tree holds is what can be reached from it through children.
pub proof fn trees_hold_what_is_reached(d: Seq<NodeModel>, top: int, id: int)
    requires
        walkable(d),
        0 <= top < d.len(),
    ensures
        ids(subtree(d, top)).contains(id) <==> reaches(d, top, id),
{
    let rank = choose|rank: Seq<nat>| ranked(d, rank);
    if ids(subtree(d, top)).contains(id) {
        held_is_reached(d, rank, top, id);
    }
    if reaches(d, top, id) {
        let path = choose|path: Seq<int>|
            #[trigger] is_chain(d, path) && path.len() > 0 && path[0] == top && path.last() == id;
        reached_is_held(d, path, top);
    }
}

proof fn held_is_reached(d: Seq<NodeModel>, rank: Seq<nat>, top: int, id: int)
    requires
        walkable(d),
        ranked(d, rank),
        0 <= top < d.len(),
        ids(subtree(d, top)).contains(id),
    ensures
        reaches(d, top, id),
    decreases rank[top],
{
    subtree_step(d, top);
    ids_step(subtree(d, top));
    if id == top {
        let path = seq![top];
        assert(is_chain(d, path));
    } else {
        let t = subtree(d, top);
        let j = choose|j: int|
            0 <= j < t.children.len() && #[trigger] ids(t.children[j]).contains(id);
        let c = d[top].children[j];
        assert(t.children[j] == subtree(d, c));
        assert(rank[c] < rank[top]);
        held_is_reached(d, rank, c, id);
        let rest = choose|path: Seq<int>|
            #[trigger] is_chain(d, path) && path.len() > 0 && path[0] == c && path.last() == id;
        let path = seq![top] + rest;
        assert forall|i: int| 0 <= i < path.len() - 1 implies #[trigger] d[path[i]].children.contains(
            path[i + 1],
        ) by {
            if i > 0 {
                assert(path[i] == rest[i - 1] && path[i + 1] == rest[i - 1 + 1]);
                assert(d[rest[i - 1]].children.contains(rest[i - 1 + 1]));
            } else {
                assert(d[top].children[j] == path[1]);
            }
        }
        assert(is_chain(d, path));
        assert(path.last() == id);
    }
}

proof fn reached_is_held(d: Seq<NodeModel>, path: Seq<int>, top: int)
    requires
        walkable(d),
        is_chain(d, path),
        path.len() > 0,
        path[0] == top,
        0 <= top < d.len(),
    ensures
        ids(subtree(d, top)).contains(path.last()),
    decreases path.len(),
{
    subtree_step(d, top);
    ids_step(subtree(d, top));
    if path.len() > 1 {
        assert(d[path[0]].children.contains(path[0int + 1]));
        let j = choose|j: int| 0 <= j < d[top].children.len() && d[top].children[j] == path[1];
        let rest = path.skip(1);
        assert forall|i: int| 0 <= i < rest.len() - 1 implies #[trigger] d[rest[i]].children.contains(
            rest[i + 1],
        ) by {
            assert(d[path[i + 1]].children.contains(path[i + 1 + 1]));
        }
        assert(rest[0] == path[1]);
        reached_is_held(d, rest, path[1]);
        assert(rest.last() == path.last());
        assert(subtree(d, top).children[j] == subtree(d, path[1]));
        assert(ids(subtree(d, top).children[j]).contains(path.last()));
    }
}

/// Document order: a node comes first, then the trees of its children, each whole and in
/// their order.
pub proof fn nodes_come_before_their_children(d: Seq<NodeModel>, id: int)
    requires
        walkable(d),
        0 <= id < d.len(),
    ensures
        ids(subtree(d, id)) == seq![id] + d[id].children.map_values(
            |c: int| ids(subtree(d, c)),
        ).flatten(),
{
    subtree_step(d, id);
    let t = subtree(d, id);
    children_in_order(d, id, d[id].children.len());
    assert(d[id].children.take(d[id].children.len() as int) =~= d[id].children);
}

proof fn children_in_order(d: Seq<NodeModel>, id: int, n: nat)
    requires
        walkable(d),
        0 <= id < d.len(),
        n <= d[id].children.len(),
    ensures
        found_below(subtree(d, id), n, any_kind()) == d[id].children.take(n as int).map_values(
            |c: int| ids(subtree(d, c)),
        ).flatten(),
    decreases n,
{
    subtree_step(d, id);
    let f = |c: int| ids(subtree(d, c));
    let s = d[id].children.take(n as int).map_values(f);
    if n == 0 {
        assert(s =~= seq![]);
    } else {
        let m = (n - 1) as nat;
        children_in_order(d, id, m);
        let before = d[id].children.take(m as int).map_values(f);
        let last = ids(subtree(d, d[id].children[m as int]));
        assert(s =~= before.push(last));
        before.lemma_flatten_push(last);
        assert(subtree(d, id).children[m as int] == subtree(d, d[id].children[m as int]));
    }
}

proof fn found_in_order(d: Seq<NodeModel>, rank: Seq<nat>, id: int, p: spec_fn(Kind) -> bool)
    requires
        walkable(d),
        ranked(d, rank),
        0 <= id < d.len(),
    ensures
        found(subtree(d, id), p) == ids(subtree(d, id)).filter(|i: int| p(d[i].kind)),
    decreases rank[id], d[id].children.len() + 1,
{
    subtree_step(d, id);
    let t = subtree(d, id);
    let q = |i: int| p(d[i].kind);
    below_in_order(d, rank, id, d[id].children.len(), p);
    let rest = found_below(t, t.children.len(), any_kind());
    assert(ids(t) =~= seq![id] + rest);
    filter_front(id, rest, q);
}

/// What is found in a tree is what satisfies, of all its nodes in document order.
pub proof fn found_is_filtered(d: Seq<NodeModel>, id: int, p: spec_fn(Kind) -> bool)
    requires
        walkable(d),
        0 <= id < d.len(),
    ensures
        found(subtree(d, id), p) == ids(subtree(d, id)).filter(|i: int| p(d[i].kind)),
{
    let rank = choose|rank: Seq<nat>| ranked(d, rank);
    found_in_order(d, rank, id, p);
}

proof fn below_in_order(
    d: Seq<NodeModel>,
    rank: Seq<nat>,
    id: int,
    n: nat,
    p: spec_fn(Kind) -> bool,
)
    requires
        walkable(d),
        ranked(d, rank),
        0 <= id < d.len(),
        n <= d[id].children.len(),
    ensures
        found_below(subtree(d, id), n, p) == found_below(subtree(d, id), n, any_kind()).filter(
            |i: int| p(d[i].kind),
        ),
    decreases rank[id], n,
{
    subtree_step(d, id);
    let t = subtree(d, id);
    let q = |i: int| p(d[i].kind);
    if n == 0 {
        reveal(Seq::filter);
        assert(found_below(t, n, any_kind()).filter(q) =~= seq![]);
    } else {
        let m = (n - 1) as nat;
        let c = d[id].children[m as int];
        below_in_order(d, rank, id, m, p);
        assert(rank[c] < rank[id]);
        found_in_order(d, rank, c, p);
        assert(t.children[m as int] == subtree(d, c));
        Seq::filter_distributes_over_add(
            found_below(t, m, any_kind()),
            ids(subtree(d, c)),
            q,
        );
    }
}

proof fn filter_front(x: int, s: Seq<int>, q: spec_fn(int) -> bool)
    ensures
        (seq![x] + s).filter(q) == (if q(x) {
            seq![x]
        } else {
            seq![]
        }) + s.filter(q),
{
    Seq::filter_distributes_over_add(seq![x], s, q);
    reveal(Seq::filter);
    let one = seq![x];
    assert(one.drop_last() =~= seq![]);
    assert(one.drop_last().filter(q) =~= seq![]);
    assert(one.filter(q) =~= if q(x) {
        seq![x]
    } else {
        seq![]
    });
}

/// What a selector finds below a node: of all that is below it, in document order, those
/// that are known and that it selects, and no others.
pub proof fn selectors_find_in_order(d: Seq<NodeModel>, root: int, text: Seq<char>, sel: Selector)
    requires
        walkable(d),
        known(d, root),
        parsed_selector(text) == Some(sel),
    ensures
        ids(subtree(d, root)).len() > 0,
        selected_below(d, root, text) == ids(subtree(d, root)).skip(1).filter(
            |i: int| known(d, i) && selects(sel, d[i].kind),
        ),
{
    let rank = choose|rank: Seq<nat>| ranked(d, rank);
    subtree_step(d, root);
    let t = subtree(d, root);
    let p = is_selected(sel);
    let rest = found_below(t, t.children.len(), any_kind());
    assert(ids(t) =~= seq![root] + rest);
    assert(ids(t).skip(1) =~= rest);
    below_in_order(d, rank, root, d[root].children.len(), p);
    crate::dom::model::found_below_is_placed(
        d,
        rank,
        root,
        d[root].children.len(),
        any_kind(),
    );
    known_after_filter(d, rest, p, sel);
}

proof fn known_after_filter(d: Seq<NodeModel>, s: Seq<int>, p: spec_fn(Kind) -> bool, sel: Selector)
    requires
        p == is_selected(sel),
        forall|i: int| 0 <= i < s.len() ==> 0 <= #[trigger] s[i] < d.len(),
    ensures
        known_only(d, s.filter(|i: int| p(d[i].kind))) == s.filter(
            |i: int| known(d, i) && selects(sel, d[i].kind),
        ),
    decreases s.len(),
{
    reveal(Seq::filter);
    let q = |i: int| p(d[i].kind);
    let r = |i: int| known(d, i) && selects(sel, d[i].kind);
    if s.len() > 0 {
        let before = s.drop_last();
        known_after_filter(d, before, p, sel);
        let x = s.last();
        assert(0 <= s[s.len() - 1] < d.len());
        assert(q(x) == selects(sel, d[x].kind));
        if q(x) {
            assert(s.filter(q) =~= before.filter(q).push(x));
            assert(s.filter(q).drop_last() =~= before.filter(q));
        }
    }
}

/// A node is found by a selector if and only if it is known, can be reached from the root
/// through children, is not the root itself, and is selected.
pub proof fn selectors_find_all_and_only(
    d: Seq<NodeModel>,
    root: int,
    text: Seq<char>,
    sel: Selector,
    id: int,
)
    requires
        tree_like(d),
        known(d, root),
        parsed_selector(text) == Some(sel),
        id != root,
    ensures
        selected_below(d, root, text).contains(id) <==> known(d, id) && reaches(d, root, id)
            && selects(sel, d[id].kind),
{
    selectors_find_in_order(d, root, text, sel);
    trees_hold_what_is_reached(d, root, id);
    let all = ids(subtree(d, root));
    let r = |i: int| known(d, i) && selects(sel, d[i].kind);
    subtree_step(d, root);
    let rest = all.skip(1);
    assert(all[0] == root);
    if selected_below(d, root, text).contains(id) {
        let k = choose|k: int|
            0 <= k < rest.filter(r).len() && rest.filter(r)[k] == id;
        kept_were_there(rest, r, k);
        let j = choose|j: int| 0 <= j < rest.len() && #[trigger] rest[j] == id && r(rest[j]);
        assert(all[j + 1] == id);
        assert(all.contains(id));
    }
    if known(d, id) && reaches(d, root, id) && selects(sel, d[id].kind) {
        let j = choose|j: int| 0 <= j < all.len() && all[j] == id;
        assert(j > 0);
        assert(rest[j - 1] == id);
        those_there_are_kept(rest, r, j - 1);
    }
}

/// What is kept of a list was there, and satisfies.
pub proof fn kept_were_there(s: Seq<int>, p: spec_fn(int) -> bool, i: int)
    requires
        0 <= i < s.filter(p).len(),
    ensures
        exists|j: int| 0 <= j < s.len() && #[trigger] s[j] == s.filter(p)[i] && p(s[j]),
    decreases s.len(),
{
    reveal(Seq::filter);
    if s.len() > 0 {
        let before = s.drop_last().filter(p);
        if i < before.len() {
            kept_were_there(s.drop_last(), p, i);
            let j = choose|j: int|
                0 <= j < s.drop_last().len() && #[trigger] s.drop_last()[j] == before[i] && p(
                    s.drop_last()[j],
                );
            assert(s[j] == s.drop_last()[j]);
            assert(s.filter(p)[i] == before[i]);
        } else {
            assert(s[s.len() - 1] == s.filter(p)[i]);
        }
    }
}

/// What was there and satisfies is kept.
pub proof fn those_there_are_kept(s: Seq<int>, p: spec_fn(int) -> bool, j: int)
    requires
        0 <= j < s.len(),
        p(s[j]),
    ensures
        s.filter(p).contains(s[j]),
    decreases s.len(),
{
    reveal(Seq::filter);
    let before = s.drop_last().filter(p);
    if j < s.len() - 1 {
        those_there_are_kept(s.drop_last(), p, j);
        let k = choose|k: int| 0 <= k < before.len() && before[k] == s[j];
        assert(s.filter(p)[k] == s[j]);
    } else {
        assert(s.filter(p) == before.push(s.last()));
        assert(s.filter(p)[before.len() as int] == s[j]);
    }
}

proof fn first_filtered(s: Seq<int>, p: spec_fn(int) -> bool)
    ensures
        s.filter(p).len() == 0 ==> forall|j: int| 0 <= j < s.len() ==> !p(#[trigger] s[j]),
        s.filter(p).len() > 0 ==> exists|j: int|
            0 <= j < s.len() && #[trigger] s[j] == s.filter(p)[0] && p(s[j]) && forall|i: int|
                0 <= i < j ==> !p(#[trigger] s[i]),
    decreases s.len(),
{
    reveal(Seq::filter);
    if s.len() > 0 {
        let front = s.drop_last();
        first_filtered(front, p);
        assert forall|j: int| 0 <= j < front.len() implies #[trigger] front[j] == s[j] by {}
        if front.filter(p).len() > 0 {
            let j = choose|j: int|
                0 <= j < front.len() && #[trigger] front[j] == front.filter(p)[0] && p(front[j])
                    && forall|i: int| 0 <= i < j ==> !p(#[trigger] front[i]);
            assert(s.filter(p)[0] == front.filter(p)[0]);
            assert(s[j] == front[j]);
            assert forall|i: int| 0 <= i < j implies !p(#[trigger] s[i]) by {
                assert(!p(front[i]));
            }
        } else {
            assert forall|j: int| 0 <= j < front.len() implies !p(#[trigger] s[j]) by {
                assert(!p(front[j]));
            }
            if p(s.last()) {
                assert(s[s.len() - 1] == s.filter(p)[0]);
            }
        }
    }
}

/// The first node that a selector finds is the first below the root, in document order,
/// that is known and selected; there is none if and only if nothing below is.
pub proof fn first_found_is_first(
    d: Seq<NodeModel>,
    root: int,
    text: Seq<char>,
    sel: Selector,
)
    requires
        walkable(d),
        known(d, root),
        parsed_selector(text) == Some(sel),
    ensures
        ({
            let s = selected_below(d, root, text);
            let order = ids(subtree(d, root));
            &&& s.len() == 0 ==> forall|j: int|
                0 < j < order.len() ==> !(known(d, #[trigger] order[j]) && selects(
                    sel,
                    d[order[j]].kind,
                ))
            &&& s.len() > 0 ==> exists|j: int|
                {
                    &&& 0 < j < order.len()
                    &&& #[trigger] order[j] == s[0]
                    &&& known(d, s[0]) && selects(sel, d[s[0]].kind)
                    &&& forall|i: int|
                        0 < i < j ==> !(known(d, #[trigger] order[i]) && selects(
                            sel,
                            d[order[i]].kind,
                        ))
                }
        }),
{
    selectors_find_in_order(d, root, text, sel);
    let order = ids(subtree(d, root));
    let rest = order.skip(1);
    let r = |i: int| known(d, i) && selects(sel, d[i].kind);
    let s = selected_below(d, root, text);
    first_filtered(rest, r);
    if s.len() == 0 {
        assert forall|j: int| 0 < j < order.len() implies !(known(d, #[trigger] order[j])
            && selects(sel, d[order[j]].kind)) by {
            assert(rest[j - 1] == order[j]);
            assert(!r(rest[j - 1]));
        }
    } else {
        let k = choose|j: int|
            0 <= j < rest.len() && #[trigger] rest[j] == rest.filter(r)[0] && r(rest[j])
                && forall|i: int| 0 <= i < j ==> !r(#[trigger] rest[i]);
        assert(order[k + 1] == s[0]);
        assert forall|i: int| 0 < i < k + 1 implies !(known(d, #[trigger] order[i]) && selects(
            sel,
            d[order[i]].kind,
        )) by {
            assert(rest[i - 1] == order[i]);
            assert(!r(rest[i - 1]));
        }
    }
}

// ---- selectors -------------------------------------------------------------------

/// An element has an attribute of this name with this value.
pub open spec fn has_attr(k: Kind, name: Seq<char>, value: Seq<char>) -> bool {
    k is Element && exists|i: int|
        0 <= i < k->attrs.len() && (#[trigger] k->attrs[i]).name == name && k->attrs[i].value
            == value
}

/// An element has an attribute of this name.
pub open spec fn has_attr_named(k: Kind, name: Seq<char>) -> bool {
    k is Element && exists|i: int|
        0 <= i < k->attrs.len() && (#[trigger] k->attrs[i]).name == name
}

/// A text without space at its end, which may be empty.
pub open spec fn ends_clean(s: Seq<char>) -> bool {
    s.len() == 0 || !is_whitespace(s.last())
}

/// A text without space at either end, which may be empty.
pub open spec fn is_clean(s: Seq<char>) -> bool {
    s.len() == 0 || !is_whitespace(s[0]) && !is_whitespace(s.last())
}

proof fn clean_stays(s: Seq<char>)
    requires
        is_clean(s),
    ensures
        trimmed(s) == s,
{
    if s.len() > 0 {
        trimmed_keeps_clean(s);
    }
}

/// `#x` selects the elements whose id is x.
pub proof fn ids_select_by_id(
    input: &str,
    id: Seq<char>,
    r: Option<SimpleSelector>,
    kind: &NodeKind,
    b: bool,
)
    requires
        input@ == "#"@ + id,
        ends_clean(id),
        call_ensures(SimpleSelector::parse, (input,), r),
        r matches Some(sel) ==> call_ensures(SimpleSelector::matches, (&sel, kind), b),
    ensures
        r is Some,
        b <==> has_attr(kind@, "id"@, id),
{
    reveal_strlit("#");
    let s = input@;
    assert(s[0] == '#');
    assert(s.last() == if id.len() > 0 {
        id.last()
    } else {
        '#'
    });
    trimmed_keeps_clean(s);
    assert(s.skip(1) =~= id);
    let sel = r->0;
    if b {
        let attrs = kind@->attrs;
        let i = choose|i: int| 0 <= i < attrs.len() && attr_matches(sel@, #[trigger] attrs[i]);
        assert(attrs[i].value == id);
    }
    if has_attr(kind@, "id"@, id) {
        let attrs = kind@->attrs;
        let i = choose|i: int|
            0 <= i < attrs.len() && (#[trigger] attrs[i]).name == "id"@ && attrs[i].value == id;
        assert(attr_matches(sel@, attrs[i]));
    }
}

/// `.x` selects the elements that have x among the words of their class.
pub proof fn classes_select_by_word(
    input: &str,
    c: Seq<char>,
    r: Option<SimpleSelector>,
    kind: &NodeKind,
    b: bool,
)
    requires
        input@ == "."@ + c,
        ends_clean(c),
        call_ensures(SimpleSelector::parse, (input,), r),
        r matches Some(sel) ==> call_ensures(SimpleSelector::matches, (&sel, kind), b),
    ensures
        r is Some,
        b <==> kind@ is Element && exists|i: int|
            0 <= i < kind@->attrs.len() && (#[trigger] kind@->attrs[i]).name == "class"@
                && ascii_words(kind@->attrs[i].value).contains(c),
{
    reveal_strlit(".");
    let s = input@;
    assert(s[0] == '.');
    assert(s.last() == if c.len() > 0 {
        c.last()
    } else {
        '.'
    });
    trimmed_keeps_clean(s);
    assert(s.skip(1) =~= c);
    let sel = r->0;
    let attrs = kind@->attrs;
    if b {
        let i = choose|i: int| 0 <= i < attrs.len() && attr_matches(sel@, #[trigger] attrs[i]);
        assert(attrs[i].name == "class"@);
    }
    if kind@ is Element && exists|i: int|
        0 <= i < attrs.len() && (#[trigger] attrs[i]).name == "class"@ && ascii_words(
            attrs[i].value,
        ).contains(c) {
        let i = choose|i: int|
            0 <= i < attrs.len() && (#[trigger] attrs[i]).name == "class"@ && ascii_words(
                attrs[i].value,
            ).contains(c);
        assert(attr_matches(sel@, attrs[i]));
    }
}

/// `[x]` selects the elements that have an attribute x.
pub proof fn brackets_select_by_attribute(
    input: &str,
    name: Seq<char>,
    r: Option<SimpleSelector>,
    kind: &NodeKind,
    b: bool,
)
    requires
        input@ == "["@ + name + "]"@,
        is_clean(name),
        !name.contains('='),
        call_ensures(SimpleSelector::parse, (input,), r),
        r matches Some(sel) ==> call_ensures(SimpleSelector::matches, (&sel, kind), b),
    ensures
        r is Some,
        b <==> has_attr_named(kind@, name),
{
    reveal_strlit("[");
    reveal_strlit("]");
    let s = input@;
    assert(s[0] == '[' && s.last() == ']');
    trimmed_keeps_clean(s);
    let inner = s.subrange(1, s.len() - 1);
    assert(inner =~= name);
    first_pos_is_first(inner, '=');
    if first_pos(inner, '=') < inner.len() {
        assert(name[first_pos(inner, '=')] == '=');
        assert(name.contains('='));
    }
    clean_stays(name);
    let sel = r->0;
    let attrs = kind@->attrs;
    if b {
        let i = choose|i: int| 0 <= i < attrs.len() && attr_matches(sel@, #[trigger] attrs[i]);
        assert(attrs[i].name == name);
    }
    if has_attr_named(kind@, name) {
        let i = choose|i: int| 0 <= i < attrs.len() && (#[trigger] attrs[i]).name == name;
        assert(attr_matches(sel@, attrs[i]));
    }
}

/// `[x=y]`, `[x="y"]` and `[x='y']` select the elements whose attribute x is y.
pub proof fn brackets_select_by_value(
    input: &str,
    name: Seq<char>,
    written: Seq<char>,
    value: Seq<char>,
    r: Option<SimpleSelector>,
    kind: &NodeKind,
    b: bool,
)
    requires
        input@ == "["@ + name + "="@ + written + "]"@,
        is_clean(name),
        !name.contains('='),
        written == "\""@ + value + "\""@ || written == "'"@ + value + "'"@ || written == value
            && is_clean(value) && !quoted(value),
        call_ensures(SimpleSelector::parse, (input,), r),
        r matches Some(sel) ==> call_ensures(SimpleSelector::matches, (&sel, kind), b),
    ensures
        r is Some,
        b <==> has_attr(kind@, name, value),
{
    reveal_strlit("[");
    reveal_strlit("]");
    reveal_strlit("=");
    reveal_strlit("\"");
    reveal_strlit("'");
    let s = input@;
    assert(s[0] == '[' && s.last() == ']');
    trimmed_keeps_clean(s);
    let inner = s.subrange(1, s.len() - 1);
    assert(inner =~= name + "="@ + written);
    first_pos_is_first(inner, '=');
    let k = first_pos(inner, '=');
    assert(inner[name.len() as int] == '=');
    if k < name.len() {
        assert(inner[k] == name[k]);
        assert(name.contains('='));
    }
    assert(k == name.len());
    assert(inner.take(k) =~= name);
    assert(inner.skip(k + 1) =~= written);
    clean_stays(name);
    clean_stays(written);
    if quoted(written) {
        assert(written.subrange(1, written.len() - 1) =~= value);
    }
    let sel = r->0;
    let attrs = kind@->attrs;
    if b {
        let i = choose|i: int| 0 <= i < attrs.len() && attr_matches(sel@, #[trigger] attrs[i]);
        assert(attrs[i].name == name && attrs[i].value == value);
    }
    if has_attr(kind@, name, value) {
        let i = choose|i: int|
            0 <= i < attrs.len() && (#[trigger] attrs[i]).name == name && attrs[i].value == value;
        assert(attr_matches(sel@, attrs[i]));
    }
}

/// A name selects the elements of that tag, in any case; a word with any other character
/// than letters, digits, hyphens and underscores selects nothing.
pub proof fn names_select_by_tag(
    input: &str,
    r: Option<SimpleSelector>,
    kind: &NodeKind,
    b: bool,
)
    requires
        input@.len() > 0,
        forall|i: int|
            0 <= i < input@.len() ==> 'a' <= #[trigger] input@[i] <= 'z' || 'A' <= input@[i] <= 'Z'
                || '0' <= input@[i] <= '9' || input@[i] == '-' || input@[i] == '_',
        call_ensures(SimpleSelector::parse, (input,), r),
        r matches Some(sel) ==> call_ensures(SimpleSelector::matches, (&sel, kind), b),
    ensures
        r is Some,
        b <==> kind@ is Element && same_ignoring_case(kind@->tag, input@),
{
    let s = input@;
    let c = s[0];
    let e = s[s.len() - 1];
    assert('a' <= c <= 'z' || 'A' <= c <= 'Z' || '0' <= c <= '9' || c == '-' || c == '_');
    assert('a' <= e <= 'z' || 'A' <= e <= 'Z' || '0' <= e <= '9' || e == '-' || e == '_');
    trimmed_keeps_clean(s);
    assert forall|i: int| 0 <= i < s.len() implies is_tag_char(#[trigger] s[i]) by {}
    assert(ascii_lower(ascii_lower(s)) =~= ascii_lower(s));
}

/// Anything but an element is selected by nothing.
pub proof fn only_elements_are_selected(sel: &SimpleSelector, kind: &NodeKind, b: bool)
    requires
        call_ensures(SimpleSelector::matches, (sel, kind), b),
        !(kind@ is Element),
    ensures
        !b,
{
}

/// A document's queries: all that is found, and the first of it.
pub proof fn queries_agree(
    doc: &Document,
    root: NodeId,
    text: &str,
    one: Option<NodeId>,
    all: Vec<NodeId>,
    first: Option<NodeId>,
    every: Vec<NodeId>,
)
    requires
        call_ensures(Document::query_selector_within, (doc, root, text), one),
        call_ensures(Document::query_selector_all_within, (doc, root, text), all),
        call_ensures(Document::query_selector, (doc, text), first),
        call_ensures(Document::query_selector_all, (doc, text), every),
    ensures
        one is Some <==> all@.len() > 0,
        one matches Some(n) ==> n == all@[0],
        first is Some <==> every@.len() > 0,
        first matches Some(n) ==> n == every@[0],
        root.0 == 0 ==> crate::dom::raw_ids(every@) == crate::dom::raw_ids(all@),
        crate::dom::raw_ids(all@) == selected_below(doc@, root.0 as int, text@),
{
    assert(crate::dom::raw_ids(all@).len() == all@.len());
    assert(crate::dom::raw_ids(every@).len() == every@.len());
    if all@.len() > 0 {
        assert(crate::dom::raw_ids(all@)[0] == all@[0].0);
    }
    if every@.len() > 0 {
        assert(crate::dom::raw_ids(every@)[0] == every@[0].0);
    }
}

} // verus!
