//! What a snapshot says of a page, in terms of the page's elements.
use crate::dom::find::has_attr_named;
use crate::dom::html::{AttrModel, Kind};
use crate::dom::laws::{attr_pos_is_first, attribute_reads_back};
use crate::dom::model::{known, NodeModel};
use crate::dom::{
    attr_at, attr_pos, attr_value, parent_at, selected_below, selected_are_known, tag_at,
    tag_below, text_at, with_attr, with_attrs, Document,
};
use crate::snapshot::{
    action_views, best_selector, collapse_whitespace, truncate_with_marker, unique_selector, button_model, field_kind, field_model, fields_below, fields_of,
    form_actions, form_model, heading_models, input_views, label_above, label_for, label_of,
    link_models, meta_model, resolve_href, snapshot_model, stray_models, trimmed_text, ActionModel,
    ButtonSnapshot, FormModel, FormSnapshot, HeadingModel, HeadingSnapshot, InputModel,
    InputSnapshot, InteractiveElement, LinkModel, LinkSnapshot, PageSnapshot, SnapshotOpts,
};
use crate::text::{ascii_lower, decimal, digit, same_ignoring_case, trimmed, upper_text};
use crate::urls::joined_url;
use vstd::prelude::*;
use vstd::string::*;

verus! {

// ---- attributes ------------------------------------------------------------------

/// The first attribute of this name that the element has is this.
pub open spec fn carries(k: Kind, name: Seq<char>, value: Seq<char>) -> bool {
    k is Element && exists|i: int|
        {
            &&& 0 <= i < k->attrs.len()
            &&& (#[trigger] k->attrs[i]).name == name
            &&& k->attrs[i].value == value
            &&& forall|j: int| 0 <= j < i ==> (#[trigger] k->attrs[j]).name != name
        }
}

/// A value that is given if and only if the element has an attribute of this name, and
/// is then the attribute's.
pub open spec fn given_by(r: Option<String>, k: Kind, name: Seq<char>) -> bool {
    match r {
        Some(s) => carries(k, name, s@),
        None => !has_attr_named(k, name),
    }
}

/// An attribute is looked up by its name: the first of that name counts.
pub proof fn attributes_are_found_by_name(k: Kind, name: Seq<char>, value: Seq<char>)
    ensures
        carries(k, name, value) <==> attr_value(k, name) == Some(value),
        has_attr_named(k, name) <==> attr_value(k, name) is Some,
{
    if k is Element {
        let attrs = k->attrs;
        attr_pos_is_first(attrs, name);
        let p = attr_pos(attrs, name);
        if carries(k, name, value) {
            let i = choose|i: int|
                {
                    &&& 0 <= i < k->attrs.len()
                    &&& (#[trigger] k->attrs[i]).name == name
                    &&& k->attrs[i].value == value
                    &&& forall|j: int| 0 <= j < i ==> (#[trigger] k->attrs[j]).name != name
                };
            if i < p {
                assert(attrs[i].name != name);
            }
            if p < i {
                assert(attrs[p].name != name);
            }
        }
        if attr_value(k, name) == Some(value) {
            assert(k->attrs[p].name == name);
        }
        if has_attr_named(k, name) {
            let i = choose|i: int| 0 <= i < attrs.len() && (#[trigger] attrs[i]).name == name;
            if i < p {
                assert(attrs[i].name != name);
            }
        }
    }
}

proof fn shown_is_given(d: Seq<NodeModel>, id: int, name: Seq<char>, r: Option<String>)
    requires
        known(d, id),
        crate::dom::text_view(r) == attr_at(d, id, name),
    ensures
        given_by(r, d[id].kind, name),
{
    match r {
        Some(s) => {
            attributes_are_found_by_name(d[id].kind, name, s@);
        },
        None => {
            attributes_are_found_by_name(d[id].kind, name, seq![]);
        },
    }
}

/// What a document says of an attribute is what its element has.
pub proof fn attributes_are_read_as_they_are(
    doc: &Document,
    id: crate::dom::NodeId,
    name: &str,
    r: Option<String>,
)
    requires
        call_ensures(Document::get_attribute, (doc, id, name), r),
    ensures
        known(doc@, id.0 as int) ==> given_by(r, doc@[id.0 as int].kind, name@),
        !known(doc@, id.0 as int) ==> r is None,
{
    if known(doc@, id.0 as int) {
        shown_is_given(doc@, id.0 as int, name@, r);
    }
}

// ---- fields ----------------------------------------------------------------------

/// What a snapshot says of a field: its name, its value and its placeholder are its
/// attributes of these names, it is required if it has an attribute that says so, and its
/// kind is its tag, or, for an input, its type.
pub open spec fn describes_field(d: Seq<NodeModel>, id: int, f: InputSnapshot) -> bool {
    let k = d[id].kind;
    &&& known(d, id)
    &&& k is Element
    &&& given_by(f.name, k, "name"@)
    &&& given_by(f.value, k, "value"@)
    &&& given_by(f.placeholder, k, "placeholder"@)
    &&& f.required <==> has_attr_named(k, "required"@)
    &&& ascii_lower(k->tag) != "input"@ ==> f.kind@ == ascii_lower(k->tag)
    &&& ascii_lower(k->tag) == "input"@ && !has_attr_named(k, "type"@) ==> f.kind@ == "text"@
    &&& ascii_lower(k->tag) == "input"@ ==> forall|t: Seq<char>|
        #[trigger] carries(k, "type"@, t) ==> f.kind@ == ascii_lower(t)
    &&& f.selector@ == best_selector(d, id)
    &&& crate::dom::text_view(f.label) == label_of(d, id)
}

proof fn field_is_described(d: Seq<NodeModel>, id: int, f: InputSnapshot)
    requires
        known(d, id),
        d[id].kind is Element,
        f@ == field_model(d, id),
    ensures
        describes_field(d, id, f),
{
    let k = d[id].kind;
    shown_is_given(d, id, "name"@, f.name);
    shown_is_given(d, id, "value"@, f.value);
    shown_is_given(d, id, "placeholder"@, f.placeholder);
    attributes_are_found_by_name(k, "required"@, seq![]);
    attributes_are_found_by_name(k, "type"@, seq![]);
    reveal_strlit("text");
    assert(ascii_lower("text"@) =~= "text"@);
    assert(f@.kind == f.kind@);
    assert forall|t: Seq<char>| ascii_lower(k->tag) == "input"@ && #[trigger] carries(
        k,
        "type"@,
        t,
    ) implies f.kind@ == ascii_lower(t) by {
        attributes_are_found_by_name(k, "type"@, t);
    }
    assert(tag_at(d, id) == Some(k->tag));
}

proof fn fields_are_elements(d: Seq<NodeModel>, root: int)
    requires
        crate::dom::model::walkable(d),
    ensures
        forall|i: int|
            0 <= i < fields_below(d, root).len() ==> known(d, #[trigger] fields_below(d, root)[i])
                && d[fields_below(d, root)[i]].kind is Element,
{
    selected_are_known(d, root, "input"@);
    selected_are_known(d, root, "textarea"@);
    selected_are_known(d, root, "select"@);
    let a = selected_below(d, root, "input"@);
    let b = selected_below(d, root, "textarea"@);
    let c = selected_below(d, root, "select"@);
    let all = fields_below(d, root);
    assert forall|i: int| 0 <= i < all.len() implies known(d, #[trigger] all[i])
        && d[all[i]].kind is Element by {
        if i < a.len() {
            assert(all[i] == a[i]);
        } else if i < a.len() + b.len() {
            assert(all[i] == b[i - a.len()]);
        } else {
            assert(all[i] == c[i - a.len() - b.len()]);
        }
    }
}

/// A form of the page is described with every field below it: first the inputs, then the
/// text areas, then the lists, each in document order.
pub proof fn forms_are_described(
    doc: &Document,
    url: &str,
    opts: SnapshotOpts,
    r: PageSnapshot,
    k: int,
)
    requires
        crate::dom::model::walkable(doc@),
        call_ensures(PageSnapshot::from_document, (doc, url, opts), r),
        0 <= k < r.forms@.len(),
    ensures
        ({
            let d = doc@;
            let ids = selected_below(d, 0, "form"@);
            let form = ids[k];
            let f = r.forms@[k];
            let fields = selected_below(d, form, "input"@) + selected_below(d, form, "textarea"@)
                + selected_below(d, form, "select"@);
            &&& r.forms@.len() == ids.len()
            &&& given_by(f.action, d[form].kind, "action"@)
            &&& !has_attr_named(d[form].kind, "method"@) ==> f.method@ == "GET"@
            &&& forall|m: Seq<char>|
                #[trigger] carries(d[form].kind, "method"@, m) ==> f.method@ == upper_text(m)
            &&& f.selector@ == best_selector(d, form)
            &&& f.fields@.len() == fields.len()
            &&& forall|j: int|
                0 <= j < fields.len() ==> describes_field(d, fields[j], #[trigger] f.fields@[j])
        }),
{
    let d = doc@;
    let ids = selected_below(d, 0, "form"@);
    selected_are_known(d, 0, "form"@);
    let model = snapshot_model(d, url@, opts.max_text_summary_bytes as int);
    assert(r@.forms.len() == r.forms@.len());
    assert(model.forms.len() == ids.len());
    let form = ids[k];
    let f = r.forms@[k];
    assert(r@.forms[k] == f@);
    assert(model.forms[k] == form_model(d, form));
    assert(f@ == form_model(d, form));
    assert(known(d, ids[k]));
    assert(text_of_action(f) == attr_at(d, form, "action"@));
    shown_is_given(d, form, "action"@, f.action);
    attributes_are_found_by_name(d[form].kind, "method"@, seq![]);
    assert(f@.method == f.method@);
    assert forall|m: Seq<char>| #[trigger] carries(d[form].kind, "method"@, m) implies f.method@
        == upper_text(m) by {
        attributes_are_found_by_name(d[form].kind, "method"@, m);
    }
    let fields = fields_below(d, form);
    fields_are_elements(d, form);
    assert(f@.fields == input_views(f.fields@));
    assert(f@.fields.len() == fields.len());
    assert forall|j: int| 0 <= j < fields.len() implies describes_field(
        d,
        fields[j],
        #[trigger] f.fields@[j],
    ) by {
        assert(input_views(f.fields@)[j] == f.fields@[j]@);
        assert(f@.fields[j] == field_model(d, fields[j]));
        assert(known(d, fields[j]));
        field_is_described(d, fields[j], f.fields@[j]);
    }
}

spec fn text_of_action(f: FormSnapshot) -> Option<Seq<char>> {
    f@.action
}

/// The fields that stand in no form are described too, all of them and no others, in the
/// same order.
pub proof fn stray_fields_are_described(
    doc: &Document,
    url: &str,
    opts: SnapshotOpts,
    r: PageSnapshot,
)
    requires
        crate::dom::model::walkable(doc@),
        call_ensures(PageSnapshot::from_document, (doc, url, opts), r),
    ensures
        ({
            let d = doc@;
            let forms = selected_below(d, 0, "form"@);
            let fields = selected_below(d, 0, "input"@) + selected_below(d, 0, "textarea"@)
                + selected_below(d, 0, "select"@);
            let stray = fields.filter(|i: int| in_no_form(d, forms, i));
            &&& r.inputs@.len() == stray.len()
            &&& forall|j: int|
                0 <= j < stray.len() ==> describes_field(d, stray[j], #[trigger] r.inputs@[j])
        }),
{
    let d = doc@;
    let forms = selected_below(d, 0, "form"@);
    let fields = fields_below(d, 0);
    let stray = fields.filter(|i: int| in_no_form(d, forms, i));
    fields_are_elements(d, 0);
    strays_are_filtered(d, forms, fields);
    filtered_are_elements(d, fields, |i: int| in_no_form(d, forms, i));
    assert(r@.inputs == input_views(r.inputs@));
    assert(r@.inputs == stray.map_values(|i: int| field_model(d, i)));
    assert forall|j: int| 0 <= j < stray.len() implies describes_field(
        d,
        stray[j],
        #[trigger] r.inputs@[j],
    ) by {
        assert(input_views(r.inputs@)[j] == r.inputs@[j]@);
        assert(known(d, stray[j]));
        field_is_described(d, stray[j], r.inputs@[j]);
    }
}

/// The field is below this form.
pub open spec fn in_form(d: Seq<NodeModel>, form: int, id: int) -> bool {
    ||| selected_below(d, form, "input"@).contains(id)
    ||| selected_below(d, form, "textarea"@).contains(id)
    ||| selected_below(d, form, "select"@).contains(id)
}

/// The field is below none of these forms.
pub open spec fn in_no_form(d: Seq<NodeModel>, forms: Seq<int>, id: int) -> bool {
    forall|k: int| 0 <= k < forms.len() ==> !#[trigger] in_form(d, forms[k], id)
}

proof fn taken_is_in_a_form(d: Seq<NodeModel>, forms: Seq<int>, id: int)
    ensures
        fields_of(d, forms).contains(id) <==> !in_no_form(d, forms, id),
    decreases forms.len(),
{
    if forms.len() > 0 {
        let front = forms.drop_last();
        let x = forms.last();
        taken_is_in_a_form(d, front, id);
        let a = selected_below(d, x, "input"@);
        let b = selected_below(d, x, "textarea"@);
        let c = selected_below(d, x, "select"@);
        in_sum(a, b, id);
        in_sum(a + b, c, id);
        in_sum(fields_of(d, front), fields_below(d, x), id);
        assert(fields_below(d, x).contains(id) <==> in_form(d, x, id));
        assert(forms[forms.len() - 1] == x);
        if in_no_form(d, forms, id) {
            assert forall|k: int| 0 <= k < front.len() implies !#[trigger] in_form(
                d,
                front[k],
                id,
            ) by {
                assert(!in_form(d, forms[k], id));
            }
            assert(!in_form(d, forms[forms.len() - 1], id));
        } else {
            let k = choose|k: int| 0 <= k < forms.len() && #[trigger] in_form(d, forms[k], id);
            if k < front.len() {
                assert(in_form(d, front[k], id));
                assert(!in_no_form(d, front, id));
            }
        }
    }
}

proof fn in_sum(a: Seq<int>, b: Seq<int>, x: int)
    ensures
        (a + b).contains(x) <==> a.contains(x) || b.contains(x),
{
    if a.contains(x) {
        let i = choose|i: int| 0 <= i < a.len() && a[i] == x;
        assert((a + b)[i] == x);
    }
    if b.contains(x) {
        let i = choose|i: int| 0 <= i < b.len() && b[i] == x;
        assert((a + b)[a.len() + i] == x);
    }
}

proof fn strays_are_filtered(d: Seq<NodeModel>, forms: Seq<int>, fields: Seq<int>)
    ensures
        stray_models(d, fields, fields_of(d, forms)) == fields.filter(
            |i: int| in_no_form(d, forms, i),
        ).map_values(|i: int| field_model(d, i)),
    decreases fields.len(),
{
    reveal(Seq::filter);
    let p = |i: int| in_no_form(d, forms, i);
    let f = |i: int| field_model(d, i);
    if fields.len() == 0 {
        assert(fields.filter(p).map_values(f) =~= seq![]);
    } else {
        strays_are_filtered(d, forms, fields.drop_last());
        taken_is_in_a_form(d, forms, fields.last());
        if p(fields.last()) {
            assert(fields.filter(p).map_values(f) =~= fields.drop_last().filter(p).map_values(
                f,
            ).push(f(fields.last())));
        }
    }
}

proof fn filtered_are_elements(d: Seq<NodeModel>, s: Seq<int>, p: spec_fn(int) -> bool)
    requires
        forall|i: int| 0 <= i < s.len() ==> known(d, #[trigger] s[i]) && d[s[i]].kind is Element,
    ensures
        forall|i: int|
            0 <= i < s.filter(p).len() ==> known(d, #[trigger] s.filter(p)[i])
                && d[s.filter(p)[i]].kind is Element,
    decreases s.len(),
{
    reveal(Seq::filter);
    if s.len() > 0 {
        let front = s.drop_last();
        assert forall|i: int| 0 <= i < front.len() implies known(d, #[trigger] front[i])
            && d[front[i]].kind is Element by {
            assert(front[i] == s[i]);
        }
        filtered_are_elements(d, front, p);
        assert(known(d, s[s.len() - 1]));
        assert forall|i: int| 0 <= i < s.filter(p).len() implies known(
            d,
            #[trigger] s.filter(p)[i],
        ) && d[s.filter(p)[i]].kind is Element by {
            if i < front.filter(p).len() {
                assert(s.filter(p)[i] == front.filter(p)[i]);
            } else {
                assert(s.filter(p)[i] == s[s.len() - 1]);
            }
        }
    }
}

/// A value that is set on a field is the one that is shown; a placeholder that is set
/// leaves the value as it was, and a value that is set leaves the rest.
pub proof fn set_values_are_shown(
    d: Seq<NodeModel>,
    e: Seq<NodeModel>,
    id: int,
    name: Seq<char>,
    v: Seq<char>,
    f: InputSnapshot,
    g: InputSnapshot,
)
    requires
        describes_field(d, id, f),
        describes_field(e, id, g),
        e == d.update(id, with_attrs(d[id], with_attr(d[id].kind->attrs, name, v))),
    ensures
        name == "value"@ ==> g.value is Some && g.value->0@ == v,
        name != "value"@ ==> crate::dom::text_view(g.value) == crate::dom::text_view(f.value),
        name == "placeholder"@ ==> g.placeholder is Some && g.placeholder->0@ == v,
        name != "placeholder"@ ==> crate::dom::text_view(g.placeholder) == crate::dom::text_view(
            f.placeholder,
        ),
        name == "name"@ ==> g.name is Some && g.name->0@ == v,
        name != "name"@ ==> crate::dom::text_view(g.name) == crate::dom::text_view(f.name),
        name == "required"@ ==> g.required,
        name != "required"@ ==> g.required == f.required,
{
    let k = d[id].kind;
    let l = e[id].kind;
    assert(l == with_attrs(d[id], with_attr(k->attrs, name, v)).kind);
    one_is_kept(d, e, id, name, v, "value"@, f.value, g.value);
    one_is_kept(d, e, id, name, v, "placeholder"@, f.placeholder, g.placeholder);
    one_is_kept(d, e, id, name, v, "name"@, f.name, g.name);
    attributes_are_found_by_name(k, "required"@, seq![]);
    attributes_are_found_by_name(l, "required"@, seq![]);
    if name != "required"@ {
        attribute_reads_back(d[id], name, v, "required"@);
    } else {
        let other = name.push(' ');
        assert(other.len() != name.len());
        attribute_reads_back(d[id], name, v, other);
    }
}

proof fn one_is_kept(
    d: Seq<NodeModel>,
    e: Seq<NodeModel>,
    id: int,
    name: Seq<char>,
    v: Seq<char>,
    wanted: Seq<char>,
    was: Option<String>,
    now: Option<String>,
)
    requires
        known(d, id),
        d[id].kind is Element,
        e == d.update(id, with_attrs(d[id], with_attr(d[id].kind->attrs, name, v))),
        given_by(was, d[id].kind, wanted),
        given_by(now, e[id].kind, wanted),
    ensures
        name == wanted ==> now is Some && now->0@ == v,
        name != wanted ==> crate::dom::text_view(now) == crate::dom::text_view(was),
{
    let k = d[id].kind;
    let l = e[id].kind;
    let other = name.push(' ');
    assert(other.len() != name.len());
    attribute_reads_back(d[id], name, v, if name == wanted {
        other
    } else {
        wanted
    });
    attributes_are_found_by_name(k, wanted, seq![]);
    attributes_are_found_by_name(l, wanted, seq![]);
    if was is Some {
        attributes_are_found_by_name(k, wanted, was->0@);
    }
    if now is Some {
        attributes_are_found_by_name(l, wanted, now->0@);
    }
}

// ---- links and buttons -----------------------------------------------------------

/// What a snapshot says of a link.
pub open spec fn describes_link(d: Seq<NodeModel>, url: Seq<char>, id: int, l: LinkSnapshot) -> bool {
    &&& l.text@ == trimmed(text_at(d, id, false))
    &&& l.selector@ == best_selector(d, id)
    &&& exists|h: Seq<char>|
        #[trigger] carries(d[id].kind, "href"@, h) && (joined_url(url, h) matches Ok(u) ==> l.href@
            == u) && (joined_url(url, h) is Err ==> l.href@ == h)
}

/// The links of a page are its elements `a` that have a target, all of them, in document
/// order.
pub proof fn links_are_described(doc: &Document, url: &str, opts: SnapshotOpts, r: PageSnapshot)
    requires
        crate::dom::model::walkable(doc@),
        call_ensures(PageSnapshot::from_document, (doc, url, opts), r),
    ensures
        ({
            let d = doc@;
            let links = selected_below(d, 0, "a"@).filter(
                |i: int| has_attr_named(d[i].kind, "href"@),
            );
            &&& r.links@.len() == links.len()
            &&& forall|j: int|
                0 <= j < links.len() ==> describes_link(d, url@, links[j], #[trigger] r.links@[j])
        }),
{
    let d = doc@;
    let all = selected_below(d, 0, "a"@);
    let links = all.filter(|i: int| has_attr_named(d[i].kind, "href"@));
    selected_are_known(d, 0, "a"@);
    assert forall|i: int| 0 <= i < all.len() implies known(d, #[trigger] all[i])
        && d[all[i]].kind is Element by {}
    linked_are_filtered(d, url@, all);
    let models = link_models(d, url@, all);
    assert(r@.links == models);
    assert(r@.links.len() == r.links@.len());
    assert forall|j: int| 0 <= j < links.len() implies describes_link(
        d,
        url@,
        links[j],
        #[trigger] r.links@[j],
    ) by {
        let l = r.links@[j];
        assert(r@.links[j] == l@);
        assert(shows_link(d, url@, links[j], models[j]));
        let h = attr_at(d, links[j], "href"@)->0;
        attributes_are_found_by_name(d[links[j]].kind, "href"@, h);
        assert(carries(d[links[j]].kind, "href"@, h));
    }
}

spec fn shows_link(d: Seq<NodeModel>, url: Seq<char>, id: int, m: LinkModel) -> bool {
    &&& known(d, id)
    &&& attr_at(d, id, "href"@) is Some
    &&& m == (LinkModel {
        selector: best_selector(d, id),
        text: trimmed_text(d, id),
        href: crate::snapshot::resolved_href(url, attr_at(d, id, "href"@)->0),
    })
}

proof fn linked_are_filtered(d: Seq<NodeModel>, url: Seq<char>, s: Seq<int>)
    requires
        forall|i: int| 0 <= i < s.len() ==> known(d, #[trigger] s[i]) && d[s[i]].kind is Element,
    ensures
        ({
            let f = s.filter(|i: int| has_attr_named(d[i].kind, "href"@));
            &&& link_models(d, url, s).len() == f.len()
            &&& forall|j: int|
                0 <= j < f.len() ==> shows_link(d, url, f[j], #[trigger] link_models(d, url, s)[j])
        }),
    decreases s.len(),
{
    reveal(Seq::filter);
    let p = |i: int| has_attr_named(d[i].kind, "href"@);
    if s.len() > 0 {
        let front = s.drop_last();
        assert forall|i: int| 0 <= i < front.len() implies known(d, #[trigger] front[i])
            && d[front[i]].kind is Element by {
            assert(front[i] == s[i]);
        }
        linked_are_filtered(d, url, front);
        let x = s.last();
        assert(known(d, s[s.len() - 1]));
        attributes_are_found_by_name(d[x].kind, "href"@, seq![]);
        let before = link_models(d, url, front);
        let f = front.filter(p);
        let now = link_models(d, url, s);
        assert forall|j: int| 0 <= j < s.filter(p).len() implies shows_link(
            d,
            url,
            s.filter(p)[j],
            #[trigger] now[j],
        ) by {
            if j < f.len() {
                assert(shows_link(d, url, f[j], before[j]));
                assert(s.filter(p)[j] == f[j]);
                assert(now[j] == before[j]);
            }
        }
    }
}

/// A reference is resolved against the page where that can be done, and stays as it is
/// where it cannot.
pub proof fn references_are_resolved(page_url: &str, href: &str, r: String)
    requires
        call_ensures(resolve_href, (page_url, href), r),
    ensures
        joined_url(page_url@, href@) matches Ok(u) ==> r@ == u,
        joined_url(page_url@, href@) is Err ==> r@ == href@,
{
}

/// The buttons of a page are its elements of that tag, in document order: each with its
/// text, and with its type, which is submit where it says none.
pub proof fn buttons_are_described(
    doc: &Document,
    url: &str,
    opts: SnapshotOpts,
    r: PageSnapshot,
    j: int,
)
    requires
        crate::dom::model::walkable(doc@),
        call_ensures(PageSnapshot::from_document, (doc, url, opts), r),
        0 <= j < r.buttons@.len(),
    ensures
        ({
            let d = doc@;
            let ids = selected_below(d, 0, "button"@);
            let b = r.buttons@[j];
            let k = d[ids[j]].kind;
            &&& r.buttons@.len() == ids.len()
            &&& b.text@ == trimmed(text_at(d, ids[j], false))
            &&& b.selector@ == best_selector(d, ids[j])
            &&& !has_attr_named(k, "type"@) ==> b.kind@ == "submit"@
            &&& forall|t: Seq<char>| #[trigger] carries(k, "type"@, t) ==> b.kind@ == t
        }),
{
    let d = doc@;
    let ids = selected_below(d, 0, "button"@);
    selected_are_known(d, 0, "button"@);
    assert(r@.buttons.len() == r.buttons@.len());
    let b = r.buttons@[j];
    assert(r@.buttons[j] == b@);
    assert(b@ == button_model(d, ids[j]));
    assert(known(d, ids[j]));
    let k = d[ids[j]].kind;
    attributes_are_found_by_name(k, "type"@, seq![]);
    assert forall|t: Seq<char>| #[trigger] carries(k, "type"@, t) implies b.kind@ == t by {
        attributes_are_found_by_name(k, "type"@, t);
    }
}

// ---- headings, title and meta ----------------------------------------------------

spec fn headings_at(d: Seq<NodeModel>, n: nat) -> Seq<HeadingModel> {
    selected_below(d, 0, "h"@ + decimal(n)).map_values(
        |i: int| HeadingModel { level: n as int, text: trimmed_text(d, i) },
    )
}

/// The headings of one level, in document order.
pub open spec fn headings_of(d: Seq<NodeModel>, tag: Seq<char>, level: int) -> Seq<HeadingModel> {
    selected_below(d, 0, tag).map_values(
        |i: int| HeadingModel { level, text: trimmed(text_at(d, i, false)) },
    )
}

/// The headings of a page come by level, from the first to the sixth, and within a level
/// in document order.
pub proof fn headings_come_by_level(doc: &Document, url: &str, opts: SnapshotOpts, r: PageSnapshot)
    requires
        call_ensures(PageSnapshot::from_document, (doc, url, opts), r),
    ensures
        r@.headings == headings_of(doc@, "h1"@, 1) + headings_of(doc@, "h2"@, 2) + headings_of(
            doc@,
            "h3"@,
            3,
        ) + headings_of(doc@, "h4"@, 4) + headings_of(doc@, "h5"@, 5) + headings_of(
            doc@,
            "h6"@,
            6,
        ),
        r@.headings.len() == r.headings@.len(),
        forall|i: int|
            0 <= i < r.headings@.len() ==> r@.headings[i].level == (#[trigger] r.headings@[i]).level
                && r@.headings[i].text == r.headings@[i].text@,
{
    let d = doc@;
    reveal_strlit("h");
    reveal_strlit("h1");
    reveal_strlit("h2");
    reveal_strlit("h3");
    reveal_strlit("h4");
    reveal_strlit("h5");
    reveal_strlit("h6");
    assert("h"@ + decimal(1) =~= "h1"@);
    assert("h"@ + decimal(2) =~= "h2"@);
    assert("h"@ + decimal(3) =~= "h3"@);
    assert("h"@ + decimal(4) =~= "h4"@);
    assert("h"@ + decimal(5) =~= "h5"@);
    assert("h"@ + decimal(6) =~= "h6"@);
    reveal_with_fuel(heading_models, 7);
    assert(headings_at(d, 1) =~= headings_of(d, "h1"@, 1));
    assert(headings_at(d, 2) =~= headings_of(d, "h2"@, 2));
    assert(headings_at(d, 3) =~= headings_of(d, "h3"@, 3));
    assert(headings_at(d, 4) =~= headings_of(d, "h4"@, 4));
    assert(headings_at(d, 5) =~= headings_of(d, "h5"@, 5));
    assert(headings_at(d, 6) =~= headings_of(d, "h6"@, 6));
    assert(heading_models(d, 0) + headings_at(d, 1) =~= headings_of(d, "h1"@, 1));
    assert(heading_models(d, 1) =~= headings_of(d, "h1"@, 1));
    assert(heading_models(d, 2) =~= heading_models(d, 1) + headings_of(d, "h2"@, 2));
    assert(heading_models(d, 3) =~= heading_models(d, 2) + headings_of(d, "h3"@, 3));
    assert(heading_models(d, 4) =~= heading_models(d, 3) + headings_of(d, "h4"@, 4));
    assert(heading_models(d, 5) =~= heading_models(d, 4) + headings_of(d, "h5"@, 5));
    assert(heading_models(d, 6) =~= heading_models(d, 5) + headings_of(d, "h6"@, 6));
    assert forall|i: int| 0 <= i < r.headings@.len() implies r@.headings[i].level == (
    #[trigger] r.headings@[i]).level && r@.headings[i].text == r.headings@[i].text@ by {
        assert(r@.headings[i] == r.headings@[i]@);
    }
}

/// The key under which a meta element is kept: its property, or else its name.
pub open spec fn meta_key(k: Kind, key: Seq<char>) -> bool {
    carries(k, "property"@, key) || !has_attr_named(k, "property"@) && carries(k, "name"@, key)
}

/// What a page says of itself: under each key the content of the last meta element that
/// has both, and nothing else.
pub proof fn meta_elements_are_kept(
    doc: &Document,
    url: &str,
    opts: SnapshotOpts,
    r: PageSnapshot,
    key: Seq<char>,
)
    requires
        crate::dom::model::walkable(doc@),
        call_ensures(PageSnapshot::from_document, (doc, url, opts), r),
    ensures
        ({
            let d = doc@;
            let metas = selected_below(d, 0, "meta"@);
            &&& r.meta@.dom().contains(key) <==> exists|j: int|
                0 <= j < metas.len() && meta_key(d[#[trigger] metas[j]].kind, key)
                    && has_attr_named(d[metas[j]].kind, "content"@)
            &&& r.meta@.dom().contains(key) ==> exists|j: int|
                {
                    &&& 0 <= j < metas.len()
                    &&& meta_key(d[#[trigger] metas[j]].kind, key)
                    &&& carries(d[metas[j]].kind, "content"@, r.meta@[key])
                    &&& forall|i: int|
                        j < i < metas.len() ==> !(meta_key(d[#[trigger] metas[i]].kind, key)
                            && has_attr_named(d[metas[i]].kind, "content"@))
                }
        }),
{
    let d = doc@;
    let metas = selected_below(d, 0, "meta"@);
    selected_are_known(d, 0, "meta"@);
    assert forall|i: int| 0 <= i < metas.len() implies known(d, #[trigger] metas[i]) by {}
    metas_are_kept(d, metas, key);
    assert(r@.meta == r.meta@);
}

proof fn metas_are_kept(d: Seq<NodeModel>, s: Seq<int>, key: Seq<char>)
    requires
        forall|i: int| 0 <= i < s.len() ==> known(d, #[trigger] s[i]),
    ensures
        ({
            let m = meta_model(d, s);
            &&& m.dom().contains(key) <==> exists|j: int|
                0 <= j < s.len() && meta_key(d[#[trigger] s[j]].kind, key) && has_attr_named(
                    d[s[j]].kind,
                    "content"@,
                )
            &&& m.dom().contains(key) ==> exists|j: int|
                {
                    &&& 0 <= j < s.len()
                    &&& meta_key(d[#[trigger] s[j]].kind, key)
                    &&& carries(d[s[j]].kind, "content"@, m[key])
                    &&& forall|i: int|
                        j < i < s.len() ==> !(meta_key(d[#[trigger] s[i]].kind, key)
                            && has_attr_named(d[s[i]].kind, "content"@))
                }
        }),
    decreases s.len(),
{
    if s.len() > 0 {
        let front = s.drop_last();
        let x = s.last();
        let n: int = s.len() - 1;
        assert(s[n] == x);
        assert(known(d, s[n]));
        assert forall|i: int| 0 <= i < front.len() implies known(d, #[trigger] front[i]) by {
            assert(front[i] == s[i]);
        }
        metas_are_kept(d, front, key);
        let k = d[x].kind;
        let m = meta_model(d, front);
        let now = meta_model(d, s);
        attributes_are_found_by_name(k, "property"@, key);
        attributes_are_found_by_name(k, "name"@, key);
        attributes_are_found_by_name(k, "content"@, seq![]);
        if attr_at(d, x, "content"@) is Some {
            attributes_are_found_by_name(k, "content"@, attr_at(d, x, "content"@)->0);
        }
        if attr_at(d, x, "property"@) is Some {
            attributes_are_found_by_name(k, "property"@, attr_at(d, x, "property"@)->0);
        }
        let here = meta_key(k, key) && has_attr_named(k, "content"@);
        if here {
            assert(now.dom().contains(key));
            assert(carries(d[s[n]].kind, "content"@, now[key]));
        } else {
            assert(now.dom().contains(key) == m.dom().contains(key));
            if m.dom().contains(key) {
                assert(now[key] == m[key]);
                let j = choose|j: int|
                    {
                        &&& 0 <= j < front.len()
                        &&& meta_key(d[#[trigger] front[j]].kind, key)
                        &&& carries(d[front[j]].kind, "content"@, m[key])
                        &&& forall|i: int|
                            j < i < front.len() ==> !(meta_key(d[#[trigger] front[i]].kind, key)
                                && has_attr_named(d[front[i]].kind, "content"@))
                    };
                assert(s[j] == front[j]);
                attributes_are_found_by_name(d[s[j]].kind, "content"@, m[key]);
                assert(has_attr_named(d[s[j]].kind, "content"@));
                assert forall|i: int| j < i < s.len() implies !(meta_key(
                    d[#[trigger] s[i]].kind,
                    key,
                ) && has_attr_named(d[s[i]].kind, "content"@)) by {
                    if i < n {
                        assert(front[i] == s[i]);
                    }
                }
            }
            if exists|j: int|
                0 <= j < s.len() && meta_key(d[#[trigger] s[j]].kind, key) && has_attr_named(
                    d[s[j]].kind,
                    "content"@,
                ) {
                let j = choose|j: int|
                    0 <= j < s.len() && meta_key(d[#[trigger] s[j]].kind, key) && has_attr_named(
                        d[s[j]].kind,
                        "content"@,
                    );
                assert(front[j] == s[j]);
            }
        }
    }
}

/// A snapshot is of the page's URL, and its title is the page's, without space around it.
pub proof fn pages_are_named(doc: &Document, url: &str, opts: SnapshotOpts, r: PageSnapshot)
    requires
        call_ensures(PageSnapshot::from_document, (doc, url, opts), r),
    ensures
        r.url@ == url@,
        tag_below(doc@, 0, "title"@) is None ==> r.title@.len() == 0,
        tag_below(doc@, 0, "title"@) matches Some(i) ==> r.title@ == trimmed(
            text_at(doc@, i, false),
        ),
{
    assert(r@.url == r.url@);
    assert(r@.title == r.title@);
}

// ---- labels ----------------------------------------------------------------------

/// A field's label is the text of the first label element that is for it and has any.
pub proof fn labels_are_for_their_field(d: Seq<NodeModel>, id: int, own: Seq<char>, j: int)
    requires
        known(d, id),
        carries(d[id].kind, "id"@, own),
        0 <= j < selected_below(d, 0, "label"@).len(),
        crate::dom::model::walkable(d),
        carries(d[selected_below(d, 0, "label"@)[j]].kind, "for"@, own),
        trimmed(text_at(d, selected_below(d, 0, "label"@)[j], false)).len() > 0,
        forall|i: int|
            0 <= i < j ==> !(carries(
                d[#[trigger] selected_below(d, 0, "label"@)[i]].kind,
                "for"@,
                own,
            ) && trimmed(text_at(d, selected_below(d, 0, "label"@)[i], false)).len() > 0),
    ensures
        label_of(d, id) == Some(trimmed(text_at(d, selected_below(d, 0, "label"@)[j], false))),
{
    let labels = selected_below(d, 0, "label"@);
    selected_are_known(d, 0, "label"@);
    attributes_are_found_by_name(d[id].kind, "id"@, own);
    assert(known(d, labels[j]));
    attributes_are_found_by_name(d[labels[j]].kind, "for"@, own);
    assert forall|i: int| 0 <= i < j implies !(attr_at(d, #[trigger] labels[i], "for"@) == Some(own)
        && trimmed_text(d, labels[i]).len() > 0) by {
        assert(known(d, labels[i]));
        attributes_are_found_by_name(d[labels[i]].kind, "for"@, own);
    }
    first_label(d, labels, own, j);
}

proof fn first_label(d: Seq<NodeModel>, labels: Seq<int>, own: Seq<char>, j: int)
    requires
        0 <= j < labels.len(),
        attr_at(d, labels[j], "for"@) == Some(own),
        trimmed_text(d, labels[j]).len() > 0,
        forall|i: int|
            0 <= i < j ==> !(attr_at(d, #[trigger] labels[i], "for"@) == Some(own) && trimmed_text(
                d,
                labels[i],
            ).len() > 0),
    ensures
        label_for(d, labels, own) == Some(trimmed_text(d, labels[j])),
    decreases j,
{
    if j > 0 {
        let rest = labels.skip(1);
        assert(!(attr_at(d, labels[0], "for"@) == Some(own) && trimmed_text(d, labels[0]).len()
            > 0));
        assert forall|i: int| 0 <= i < j - 1 implies !(attr_at(d, #[trigger] rest[i], "for"@)
            == Some(own) && trimmed_text(d, rest[i]).len() > 0) by {
            assert(rest[i] == labels[i + 1]);
        }
        first_label(d, rest, own, j - 1);
    }
}

/// A field without such a label has the text of a label element that it stands in.
pub proof fn labels_are_around_their_field(d: Seq<NodeModel>, id: int, p: int)
    requires
        known(d, id),
        !has_attr_named(d[id].kind, "id"@),
        d[id].parent == Some(p),
        known(d, p),
        d[p].kind is Element,
        same_ignoring_case(d[p].kind->tag, "label"@),
        trimmed(text_at(d, p, false)).len() > 0,
    ensures
        label_of(d, id) == Some(trimmed(text_at(d, p, false))),
{
    attributes_are_found_by_name(d[id].kind, "id"@, seq![]);
    assert(parent_at(d, id) == Some(p));
    assert(d.len() > 0);
}

/// An element that is a label with a text.
pub open spec fn is_label(d: Seq<NodeModel>, p: int) -> bool {
    &&& known(d, p)
    &&& d[p].kind is Element
    &&& same_ignoring_case(d[p].kind->tag, "label"@)
    &&& trimmed(text_at(d, p, false)).len() > 0
}

/// However deep a field stands in it, the nearest label around it is its label.
pub proof fn nearest_label_around_counts(d: Seq<NodeModel>, id: int, path: Seq<int>)
    requires
        known(d, id),
        !has_attr_named(d[id].kind, "id"@),
        path.len() > 1,
        path.len() - 1 <= d.len(),
        path[0] == id,
        forall|i: int|
            0 <= i < path.len() - 1 ==> (#[trigger] d[path[i]]).parent == Some(path[i + 1]),
        forall|i: int| 0 <= i < path.len() ==> known(d, #[trigger] path[i]),
        is_label(d, path.last()),
        forall|i: int| 0 < i < path.len() - 1 ==> !is_label(d, #[trigger] path[i]),
    ensures
        label_of(d, id) == Some(trimmed(text_at(d, path.last(), false))),
{
    attributes_are_found_by_name(d[id].kind, "id"@, seq![]);
    assert(d[path[0]].parent == Some(path[0int + 1]));
    assert(known(d, path[1]));
    up_to_the_label(d, path, 1, d.len());
}

proof fn up_to_the_label(d: Seq<NodeModel>, path: Seq<int>, k: int, steps: nat)
    requires
        1 <= k < path.len(),
        path.len() - k <= steps,
        forall|i: int|
            0 <= i < path.len() - 1 ==> (#[trigger] d[path[i]]).parent == Some(path[i + 1]),
        forall|i: int| 0 <= i < path.len() ==> known(d, #[trigger] path[i]),
        is_label(d, path.last()),
        forall|i: int| 0 < i < path.len() - 1 ==> !is_label(d, #[trigger] path[i]),
    ensures
        label_above(d, Some(path[k]), steps) == Some(trimmed(text_at(d, path.last(), false))),
    decreases path.len() - k,
{
    assert(known(d, path[k]));
    if k < path.len() - 1 {
        assert(!is_label(d, path[k]));
        assert(d[path[k]].parent == Some(path[k + 1]));
        assert(known(d, path[k + 1]));
        up_to_the_label(d, path, k + 1, (steps - 1) as nat);
    }
}

// ---- what can be acted on --------------------------------------------------------

/// A form is listed under its action, and then each of its fields.
pub open spec fn form_entries(f: FormModel) -> Seq<ActionModel> {
    seq![
        ActionModel {
            kind: "form"@,
            selector: f.selector,
            label: match f.action {
                Some(a) => a,
                None => seq![],
            },
        },
    ] + f.fields.map_values(|m: InputModel| field_entry(m))
}

/// A field is listed under its label, or else its placeholder, or else its name.
pub open spec fn field_entry(m: InputModel) -> ActionModel {
    ActionModel {
        kind: m.kind,
        selector: m.selector,
        label: match (m.label, m.placeholder, m.name) {
            (Some(l), _, _) => l,
            (None, Some(p), _) => p,
            (None, None, Some(n)) => n,
            (None, None, None) => seq![],
        },
    }
}

/// Everything that can be acted on is listed, numbered from 0: each form followed by its
/// fields, then the other fields, the links and the buttons, each under its own selector.
pub proof fn everything_is_listed(doc: &Document, url: &str, opts: SnapshotOpts, r: PageSnapshot)
    requires
        call_ensures(PageSnapshot::from_document, (doc, url, opts), r),
    ensures
        action_views(r.interactive@) == r@.forms.map_values(
            |f: FormModel| form_entries(f),
        ).flatten() + r@.inputs.map_values(|m: InputModel| field_entry(m)) + r@.links.map_values(
            |m: LinkModel| ActionModel { kind: "link"@, selector: m.selector, label: m.text },
        ) + r@.buttons.map_values(
            |m: crate::snapshot::ButtonModel|
                ActionModel { kind: "button"@, selector: m.selector, label: m.text },
        ),
        forall|i: int|
            0 <= i < r.interactive@.len() ==> (#[trigger] r.interactive@[i]).index == i,
{
    forms_are_listed(r@.forms);
    assert(r@.interactive == action_views(r.interactive@));
    assert(crate::snapshot::field_actions(r@.inputs) =~= r@.inputs.map_values(
        |m: InputModel| field_entry(m),
    ));
    assert(r@.links.map_values(|m: LinkModel| crate::snapshot::link_action(m))
        =~= r@.links.map_values(
        |m: LinkModel| ActionModel { kind: "link"@, selector: m.selector, label: m.text },
    ));
    assert(r@.buttons.map_values(
        |m: crate::snapshot::ButtonModel| crate::snapshot::button_action(m),
    ) =~= r@.buttons.map_values(
        |m: crate::snapshot::ButtonModel|
            ActionModel { kind: "button"@, selector: m.selector, label: m.text },
    ));
}

proof fn forms_are_listed(s: Seq<FormModel>)
    ensures
        form_actions(s) == s.map_values(|f: FormModel| form_entries(f)).flatten(),
    decreases s.len(),
{
    let g = |f: FormModel| form_entries(f);
    if s.len() == 0 {
        assert(s.map_values(g) =~= seq![]);
    } else {
        forms_are_listed(s.drop_last());
        let before = s.drop_last().map_values(g);
        assert(s.map_values(g) =~= before.push(form_entries(s.last())));
        before.lemma_flatten_push(form_entries(s.last()));
        assert(crate::snapshot::field_actions(s.last().fields) =~= s.last().fields.map_values(
            |m: InputModel| field_entry(m),
        ));
        assert(form_actions(s) =~= form_actions(s.drop_last()) + form_entries(s.last()));
    }
}

// ---- selectors -----------------------------------------------------------------------

/// The one element that a selector finds in the document.
pub open spec fn finds_one(d: Seq<NodeModel>, selector: Seq<char>) -> bool {
    selected_below(d, 0, selector).len() == 1
}

/// An element is named by the first of these that finds only one: its id, its tag, its
/// name, its test id, its role, one of its classes; else by its tag.
pub proof fn elements_are_named_by_what_tells_them(
    doc: &Document,
    id: crate::dom::NodeId,
    r: String,
    v: Seq<char>,
)
    requires
        call_ensures(unique_selector, (doc, id), r),
        known(doc@, id.0 as int),
        doc@[id.0 as int].kind is Element,
    ensures
        ({
            let d = doc@;
            let k = d[id.0 as int].kind;
            let tag = ascii_lower(k->tag);
            let by_id = carries(k, "id"@, v) && v.len() > 0 && finds_one(d, "#"@ + v);
            let no_id = !has_attr_named(k, "id"@);
            let no_name = !has_attr_named(k, "name"@);
            let no_test = !has_attr_named(k, "data-testid"@);
            let no_role = !has_attr_named(k, "role"@);
            let no_class = !has_attr_named(k, "class"@);
            &&& by_id ==> r@ == "#"@ + v
            &&& no_id && finds_one(d, tag) ==> r@ == tag
            &&& no_id && !finds_one(d, tag) && carries(k, "name"@, v) && v.len() > 0 && finds_one(
                d,
                "["@ + "name"@ + "="@ + v + "]"@,
            ) ==> r@ == "["@ + "name"@ + "="@ + v + "]"@
            &&& no_id && !finds_one(d, tag) && no_name && carries(k, "data-testid"@, v) && v.len()
                > 0 && finds_one(d, "["@ + "data-testid"@ + "="@ + v + "]"@) ==> r@ == "["@
                + "data-testid"@ + "="@ + v + "]"@
            &&& no_id && !finds_one(d, tag) && no_name && no_test && carries(k, "role"@, v)
                && v.len() > 0 && finds_one(d, "["@ + "role"@ + "="@ + v + "]"@) ==> r@ == "["@
                + "role"@ + "="@ + v + "]"@
            &&& no_id && no_name && no_test && no_role && no_class ==> r@ == tag
        }),
{
    let d = doc@;
    let k = d[id.0 as int].kind;
    attributes_are_found_by_name(k, "id"@, v);
    attributes_are_found_by_name(k, "name"@, v);
    attributes_are_found_by_name(k, "data-testid"@, v);
    attributes_are_found_by_name(k, "role"@, v);
    attributes_are_found_by_name(k, "class"@, v);
    assert(tag_at(d, id.0 as int) == Some(k->tag));
}

/// An index stands for the selector of the element at its place.
pub proof fn indices_stand_for_selectors(snap: &PageSnapshot, index: u32, r: Option<String>)
    requires
        call_ensures(PageSnapshot::selector_for_index, (snap, index), r),
        crate::snapshot::well_indexed(snap.interactive@),
        index < snap.interactive@.len(),
    ensures
        r is Some && r->0@ == snap.interactive@[index as int].selector@,
{
    crate::snapshot::index_is_position(snap.interactive@, index as int);
}

/// Space is collapsed to the words with one space between them; what is too long is cut
/// and marked.
pub proof fn summaries_are_words_and_fit(s: &str, c: String, max: usize, t: String)
    requires
        call_ensures(collapse_whitespace, (s,), c),
        call_ensures(truncate_with_marker, (s, max), t),
    ensures
        c@ == crate::text::joined(crate::snapshot::words(s@), seq![' ']),
        crate::text::byte_len(c@) <= max ==> t@ == c@,
        max >= 6 ==> crate::text::byte_len(t@) <= max,
        crate::text::byte_len(c@) > max ==> exists|n: int|
            0 <= n <= c@.len() && t@ == #[trigger] c@.take(n) + " […]"@,
{
    crate::snapshot::collapsed_is_the_words(s@);
    if max >= 6 {
        crate::snapshot::shortened_fits(s@, max as int);
    }
    if crate::text::byte_len(c@) > max {
        let m: int = if max >= 6 {
            max - 6
        } else {
            0
        };
        crate::text::laws::longest_start_fits(c@, m);
        let n = crate::text::fitting(c@, m);
        assert(t@ == c@.take(n) + " […]"@);
    }
}

} // verus!
