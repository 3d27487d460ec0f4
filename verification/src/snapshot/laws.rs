//! What the selectors of a snapshot are good for.
use crate::dom::html::{AttrModel, Kind};
use crate::dom::laws::attr_pos_is_first;
use crate::dom::model::{
    found, found_below, ids, ids_step, known, ranked, rooted, subtree, subtree_step,
    tree_like, NodeModel,
};
use crate::dom::selector::{
    attr_matches, bracketed, is_tag_char, parsed_selector, selects, unquoted, Selector,
};
use crate::dom::{attr_at, attr_pos, is_selected, selected_below};
use crate::snapshot::{
    attr_selector, best_selector, lower_tag, sole_match, telling_attr, telling_class,
};
use crate::text::{
    ascii_lower, ascii_words, first_pos, first_pos_is_first, is_whitespace, trimmed,
    trimmed_keeps_clean,
};
use vstd::prelude::*;
use vstd::string::*;

verus! {

/// A name that a selector can hold.
pub open spec fn plain_tag(t: Seq<char>) -> bool {
    t.len() > 0 && forall|i: int| 0 <= i < t.len() ==> is_tag_char(#[trigger] t[i])
}

/// The attribute of an element has a value that a selector holds as it is: without
/// whitespace at its edges, and not in quotes.
pub open spec fn plain_value(d: Seq<NodeModel>, id: int, name: Seq<char>) -> bool {
    attr_at(d, id, name) matches Some(v) ==> unquoted(trimmed(v)) == Some(v)
}

/// What the selector of an element is made of comes out of it as it went in. It does
/// not for values with whitespace at their edges or in quotes, nor for names of
/// elements with characters that selectors do not know.
pub open spec fn reads_back(d: Seq<NodeModel>, id: int) -> bool {
    let classes = match attr_at(d, id, "class"@) {
        Some(c) => ascii_words(c),
        None => seq![],
    };
    if attr_at(d, id, "id"@) matches Some(v) && v.len() > 0 && sole_match(d, "#"@ + v) {
        !is_whitespace(attr_at(d, id, "id"@)->0.last())
    } else if sole_match(d, lower_tag(d, id)) {
        plain_tag(lower_tag(d, id))
    } else if telling_attr(d, id, "name"@) is Some {
        plain_value(d, id, "name"@)
    } else if telling_attr(d, id, "data-testid"@) is Some {
        plain_value(d, id, "data-testid"@)
    } else if telling_attr(d, id, "role"@) is Some {
        plain_value(d, id, "role"@)
    } else if telling_class(d, classes) is Some {
        !is_whitespace(telling_class(d, classes)->0.last())
    } else {
        plain_tag(lower_tag(d, id))
    }
}

/// What is found below a child is found below its parent.
proof fn child_is_found(t: crate::dom::model::IdTree, n: nat, j: int, p: spec_fn(Kind) -> bool, i: int)
    requires
        0 <= j < n <= t.children.len(),
        found(t.children[j], p).contains(i),
    ensures
        found_below(t, n, p).contains(i),
    decreases n,
{
    let before = found_below(t, (n - 1) as nat, p);
    let last = found(t.children[n - 1], p);
    assert(found_below(t, n, p) == before + last);
    if j == n - 1 {
        let k = choose|k: int| 0 <= k < last.len() && last[k] == i;
        assert((before + last)[before.len() + k] == i);
    } else {
        child_is_found(t, (n - 1) as nat, j, p, i);
        let k = choose|k: int| 0 <= k < before.len() && before[k] == i;
        assert((before + last)[k] == i);
    }
}

/// A node below another is found there by what holds of it.
proof fn node_is_found(
    d: Seq<NodeModel>,
    rank: Seq<nat>,
    id: int,
    p: spec_fn(Kind) -> bool,
    i: int,
)
    requires
        tree_like(d),
        ranked(d, rank),
        0 <= id < d.len(),
        ids(subtree(d, id)).contains(i),
        p(d[i].kind),
    ensures
        found(subtree(d, id), p).contains(i),
    decreases rank[id],
{
    let t = subtree(d, id);
    subtree_step(d, id);
    ids_step(t);
    let rest = found_below(t, t.children.len(), p);
    if i == t.id {
        assert(found(t, p) == seq![t.id] + rest);
        assert((seq![t.id] + rest)[0] == i);
    } else {
        let j = choose|j: int|
            0 <= j < t.children.len() && #[trigger] ids(t.children[j]).contains(i);
        let c = d[id].children[j];
        assert(t.children[j] == subtree(d, c));
        assert(rank[c] < rank[id]);
        node_is_found(d, rank, c, p, i);
        child_is_found(t, t.children.len(), j, p, i);
        let k = choose|k: int| 0 <= k < rest.len() && rest[k] == i;
        let own = if p(t.kind) {
            seq![t.id]
        } else {
            seq![]
        };
        assert(found(t, p) == own + rest);
        assert((own + rest)[own.len() + k] == i);
    }
}

/// An element of the document is among those that a selector selects which holds of it.
proof fn element_is_selected(d: Seq<NodeModel>, id: int, text: Seq<char>, sel: Selector)
    requires
        tree_like(d),
        rooted(d),
        known(d, 0),
        ids(subtree(d, 0)).contains(id),
        parsed_selector(text) == Some(sel),
        selects(sel, d[id].kind),
    ensures
        selected_below(d, 0, text).contains(id),
{
    let rank = choose|rank: Seq<nat>| ranked(d, rank);
    node_is_found(d, rank, 0, is_selected(sel), id);
    crate::dom::trees_select_all(d, 0, text);
}

/// `[name=value]` is read as an attribute and its value.
proof fn attr_selector_is_read(name: Seq<char>, v: Seq<char>)
    requires
        name.len() > 0,
        !is_whitespace(name[0]),
        !is_whitespace(name.last()),
        forall|i: int| 0 <= i < name.len() ==> name[i] != '=',
        unquoted(trimmed(v)) == Some(v),
    ensures
        parsed_selector(attr_selector(name, v)) == Some(Selector::Attr { name, value: Some(v) }),
{
    reveal_strlit("[");
    reveal_strlit("=");
    reveal_strlit("]");
    let s = attr_selector(name, v);
    let inner = name + seq!['='] + v;
    assert(s =~= seq!['['] + inner + seq![']']);
    trimmed_keeps_clean(s);
    assert(bracketed(s) == Some(inner)) by {
        assert(s.subrange(1, s.len() - 1) =~= inner);
    }
    let k = first_pos(inner, '=');
    first_pos_is_first(inner, '=');
    assert(inner[name.len() as int] == '=');
    assert(k == name.len()) by {
        if k < name.len() {
            assert(inner[k] == name[k]);
        }
    }
    assert(inner.take(k) =~= name);
    assert(inner.skip(k + 1) =~= v);
    trimmed_keeps_clean(name);
}

/// The first attribute of a name makes the selectors match that ask for its value.
proof fn attribute_is_matched(attrs: Seq<AttrModel>, name: Seq<char>, sel: Selector)
    requires
        attr_pos(attrs, name) < attrs.len(),
        !(sel is Tag),
        attr_matches(
            sel,
            AttrModel { ns: attrs[attr_pos(attrs, name)].ns, name, value: attrs[attr_pos(attrs, name)].value },
        ),
    ensures
        exists|i: int| 0 <= i < attrs.len() && attr_matches(sel, #[trigger] attrs[i]),
{
    attr_pos_is_first(attrs, name);
    let i = attr_pos(attrs, name);
    assert(attrs[i] == (AttrModel { ns: attrs[i].ns, name, value: attrs[i].value }));
    assert(attr_matches(sel, attrs[i]));
}

proof fn telling_attr_finds(d: Seq<NodeModel>, id: int, name: Seq<char>)
    requires
        tree_like(d),
        rooted(d),
        known(d, 0),
        known(d, id),
        ids(subtree(d, 0)).contains(id),
        name.len() > 0,
        !is_whitespace(name[0]),
        !is_whitespace(name.last()),
        forall|i: int| 0 <= i < name.len() ==> name[i] != '=',
        telling_attr(d, id, name) is Some,
        plain_value(d, id, name),
    ensures
        selected_below(d, 0, telling_attr(d, id, name)->0).contains(id),
{
    let v = attr_at(d, id, name)->0;
    attr_selector_is_read(name, v);
    let sel = Selector::Attr { name, value: Some(v) };
    attribute_is_matched(d[id].kind->attrs, name, sel);
    element_is_selected(d, id, attr_selector(name, v), sel);
}

proof fn telling_class_is_one(d: Seq<NodeModel>, classes: Seq<Seq<char>>) -> (c: Seq<char>)
    requires
        telling_class(d, classes) is Some,
    ensures
        classes.contains(c),
        telling_class(d, classes)->0 == "."@ + c,
    decreases classes.len(),
{
    if sole_match(d, "."@ + classes[0]) {
        classes[0]
    } else {
        let c = telling_class_is_one(d, classes.skip(1));
        let k = choose|k: int| 0 <= k < classes.skip(1).len() && classes.skip(1)[k] == c;
        assert(classes[k + 1] == c);
        c
    }
}

proof fn tag_finds(d: Seq<NodeModel>, id: int)
    requires
        tree_like(d),
        rooted(d),
        known(d, 0),
        known(d, id),
        d[id].kind is Element,
        ids(subtree(d, 0)).contains(id),
        plain_tag(lower_tag(d, id)),
    ensures
        selected_below(d, 0, lower_tag(d, id)).contains(id),
{
    let t = lower_tag(d, id);
    assert(is_tag_char(t[0]) && is_tag_char(t.last()));
    trimmed_keeps_clean(t);
    let sel = Selector::Tag(ascii_lower(t));
    assert(ascii_lower(t) =~= t);
    assert(parsed_selector(t) == Some(sel));
    element_is_selected(d, id, t, sel);
}

/// The selector of an element of the document finds that element; where the selector
/// matches one element alone, it is this one.
pub proof fn selector_finds_its_element(d: Seq<NodeModel>, id: int)
    requires
        tree_like(d),
        rooted(d),
        known(d, 0),
        known(d, id),
        d[id].kind is Element,
        ids(subtree(d, 0)).contains(id),
        reads_back(d, id),
    ensures
        selected_below(d, 0, best_selector(d, id)).contains(id),
        sole_match(d, best_selector(d, id)) ==> selected_below(d, 0, best_selector(d, id))
            == seq![id],
{
    let classes = match attr_at(d, id, "class"@) {
        Some(c) => ascii_words(c),
        None => seq![],
    };
    let best = best_selector(d, id);
    if attr_at(d, id, "id"@) matches Some(v) && v.len() > 0 && sole_match(d, "#"@ + v) {
        let v = attr_at(d, id, "id"@)->0;
        reveal_strlit("#");
        let s = "#"@ + v;
        assert(s =~= seq!['#'] + v);
        trimmed_keeps_clean(s);
        assert(s.skip(1) =~= v);
        attribute_is_matched(d[id].kind->attrs, "id"@, Selector::Id(v));
        element_is_selected(d, id, s, Selector::Id(v));
    } else if sole_match(d, lower_tag(d, id)) {
        tag_finds(d, id);
    } else if telling_attr(d, id, "name"@) is Some {
        reveal_strlit("name");
        telling_attr_finds(d, id, "name"@);
    } else if telling_attr(d, id, "data-testid"@) is Some {
        reveal_strlit("data-testid");
        telling_attr_finds(d, id, "data-testid"@);
    } else if telling_attr(d, id, "role"@) is Some {
        reveal_strlit("role");
        telling_attr_finds(d, id, "role"@);
    } else if telling_class(d, classes) is Some {
        let c = telling_class_is_one(d, classes);
        reveal_strlit(".");
        let s = "."@ + c;
        assert(s =~= seq!['.'] + c);
        trimmed_keeps_clean(s);
        assert(s.skip(1) =~= c);
        attribute_is_matched(d[id].kind->attrs, "class"@, Selector::Class(c));
        element_is_selected(d, id, s, Selector::Class(c));
    } else {
        tag_finds(d, id);
    }
    let list = selected_below(d, 0, best);
    let k = choose|k: int| 0 <= k < list.len() && list[k] == id;
    if list.len() == 1 {
        assert(list =~= seq![id]);
    }
}

} // verus!
