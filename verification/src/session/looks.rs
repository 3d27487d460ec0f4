//! What is seen, found and waited for on a page.
use crate::dom::find::has_attr_named;
use crate::dom::html::{parsed_document, serialized, HtmlTree, Kind};
use crate::dom::model::{any_kind, walkable, NodeModel};
use crate::dom::pick::{html_text, picked, picked_below};
use crate::dom::selector::{parsed_selector, selects, Selector};
use crate::dom::{attr_value, is_selected, selected_below, text_at, Document};
use crate::select::{attr_values, matches_in, readable, select_attr, select_text};
use crate::session::page::{
    clickables, contains_ignore_ascii_case, decode_page, exact_hit, find_by_text,
    has_text_ignoring_case, partial_hit, read_page, resolve_target, text_hit, wait_for_selector,
    wait_for_text, Hit, WaitStep,
};
use crate::session::{BrowseError, BrowseErrorModel, ReadMode, Target};
use crate::snapshot::pages::{attributes_are_found_by_name, carries};
use crate::snapshot::{selector_at, trimmed_text, well_indexed, PageSnapshot};
use crate::text::{ascii_lower, debugged, decimal, has_text, occurs_at, same_ignoring_case, trimmed, views};
use vstd::prelude::*;
use vstd::string::*;
use vstd::utf8::{encode_utf8, valid_utf8};

verus! {

// ---- what is read ------------------------------------------------------------------

/// Every node of a tree comes before those below it, and those in the order of the
/// children.
pub proof fn trees_come_before_their_children(t: HtmlTree)
    ensures
        picked(t, any_kind()) == seq![t] + t.children.map_values(
            |c: HtmlTree| picked(c, any_kind()),
        ).flatten(),
{
    children_trees(t, t.children.len());
    assert(t.children.take(t.children.len() as int) =~= t.children);
}

proof fn children_trees(t: HtmlTree, n: nat)
    requires
        n <= t.children.len(),
    ensures
        picked_below(t, n, any_kind()) == t.children.take(n as int).map_values(
            |c: HtmlTree| picked(c, any_kind()),
        ).flatten(),
    decreases n,
{
    let f = |c: HtmlTree| picked(c, any_kind());
    let s = t.children.take(n as int).map_values(f);
    if n == 0 {
        assert(s =~= seq![]);
    } else {
        let m = (n - 1) as nat;
        children_trees(t, m);
        let before = t.children.take(m as int).map_values(f);
        let last = picked(t.children[m as int], any_kind());
        assert(s =~= before.push(last));
        before.lemma_flatten_push(last);
    }
}

proof fn picked_in_order(t: HtmlTree, p: spec_fn(Kind) -> bool)
    ensures
        picked(t, p) == picked(t, any_kind()).filter(|x: HtmlTree| p(x.kind)),
    decreases t, t.children.len() + 1,
{
    let q = |x: HtmlTree| p(x.kind);
    below_in_order(t, t.children.len(), p);
    let rest = picked_below(t, t.children.len(), any_kind());
    assert(picked(t, any_kind()) =~= seq![t] + rest);
    Seq::filter_distributes_over_add(seq![t], rest, q);
    reveal(Seq::filter);
    let one = seq![t];
    assert(one.drop_last() =~= seq![]);
    assert(one.drop_last().filter(q) =~= seq![]);
    assert(one.filter(q) =~= if q(t) {
        seq![t]
    } else {
        seq![]
    });
}

proof fn below_in_order(t: HtmlTree, n: nat, p: spec_fn(Kind) -> bool)
    requires
        n <= t.children.len(),
    ensures
        picked_below(t, n, p) == picked_below(t, n, any_kind()).filter(|x: HtmlTree| p(x.kind)),
    decreases t, n,
{
    let q = |x: HtmlTree| p(x.kind);
    if n == 0 {
        reveal(Seq::filter);
        assert(picked_below(t, n, any_kind()).filter(q) =~= seq![]);
    } else {
        let m = (n - 1) as nat;
        below_in_order(t, m, p);
        picked_in_order(t.children[m as int], p);
        Seq::filter_distributes_over_add(
            picked_below(t, m, any_kind()),
            picked(t.children[m as int], any_kind()),
            q,
        );
    }
}

/// What a selector matches in a page is every node of its document that it selects, in
/// document order, and no other.
pub proof fn matches_are_all_that_is_selected(html: Seq<char>, text: Seq<char>, sel: Selector)
    requires
        parsed_selector(text) == Some(sel),
    ensures
        matches_in(html, text) == picked(parsed_document(html), any_kind()).filter(
            |t: HtmlTree| selects(sel, t.kind),
        ),
{
    let p = is_selected(sel);
    picked_in_order(parsed_document(html), p);
    let q = |t: HtmlTree| selects(sel, t.kind);
    let r = |x: HtmlTree| p(x.kind);
    assert(q =~= r);
}

/// Reading the texts of a page is selecting them, one for each match.
pub proof fn reading_texts_is_selecting_them(
    html: &str,
    selector: &str,
    r: Result<Vec<String>, BrowseError>,
    s: Result<Vec<String>, crate::dom::Error>,
)
    requires
        call_ensures(read_page, (html, selector, &ReadMode::Text), r),
        call_ensures(select_text, (html, selector), s),
    ensures
        r is Ok <==> s is Ok,
        r is Ok <==> readable(html@),
        r is Ok ==> views(r->Ok_0@) == views(s->Ok_0@),
        r matches Ok(v) ==> v@.len() == matches_in(html@, selector@).len() && forall|i: int|
            0 <= i < v@.len() ==> (#[trigger] v@[i])@ == html_text(
                matches_in(html@, selector@)[i],
                false,
            ),
{
    if r is Ok {
        let v = r->Ok_0;
        assert(views(v@).len() == v@.len());
        assert forall|i: int| 0 <= i < v@.len() implies (#[trigger] v@[i])@ == html_text(
            matches_in(html@, selector@)[i],
            false,
        ) by {
            assert(views(v@)[i] == v@[i]@);
        }
    }
}

/// Reading the HTML of a page gives that of each match, with the element itself.
pub proof fn reading_html_gives_each_match(
    html: &str,
    selector: &str,
    r: Result<Vec<String>, BrowseError>,
)
    requires
        call_ensures(read_page, (html, selector, &ReadMode::Html), r),
    ensures
        r is Ok <==> readable(html@),
        r matches Ok(v) ==> v@.len() == matches_in(html@, selector@).len() && forall|i: int|
            0 <= i < v@.len() ==> (#[trigger] v@[i])@ == serialized(
                matches_in(html@, selector@)[i],
                true,
            ),
{
    if r is Ok {
        let v = r->Ok_0;
        assert(views(v@).len() == v@.len());
        assert forall|i: int| 0 <= i < v@.len() implies (#[trigger] v@[i])@ == serialized(
            matches_in(html@, selector@)[i],
            true,
        ) by {
            assert(views(v@)[i] == v@[i]@);
        }
    }
}

/// Reading an attribute gives its value for each match that has it, in order; a match
/// without it is left out.
pub proof fn reading_attributes_gives_their_values(
    html: &str,
    selector: &str,
    attr: &str,
    name: String,
    r: Result<Vec<String>, BrowseError>,
    s: Result<Vec<String>, crate::dom::Error>,
)
    requires
        name@ == attr@,
        call_ensures(read_page, (html, selector, &ReadMode::Attr(name)), r),
        call_ensures(select_attr, (html, selector, attr), s),
    ensures
        r is Ok <==> s is Ok,
        r is Ok <==> readable(html@),
        r is Ok ==> views(r->Ok_0@) == views(s->Ok_0@),
        r matches Ok(v) ==> {
            let having = matches_in(html@, selector@).filter(
                |t: HtmlTree| has_attr_named(t.kind, attr@),
            );
            &&& v@.len() == having.len()
            &&& forall|i: int|
                0 <= i < v@.len() ==> carries(having[i].kind, attr@, (#[trigger] v@[i])@)
        },
{
    if r is Ok {
        let v = r->Ok_0;
        let trees = matches_in(html@, selector@);
        let having = trees.filter(|t: HtmlTree| has_attr_named(t.kind, attr@));
        values_are_filtered(trees, attr@);
        assert(views(v@).len() == v@.len());
        assert forall|i: int| 0 <= i < v@.len() implies carries(
            having[i].kind,
            attr@,
            (#[trigger] v@[i])@,
        ) by {
            assert(views(v@)[i] == v@[i]@);
            assert(carries(having[i].kind, attr@, attr_values(trees, attr@)[i]));
        }
    }
}

proof fn values_are_filtered(trees: Seq<HtmlTree>, name: Seq<char>)
    ensures
        ({
            let having = trees.filter(|t: HtmlTree| has_attr_named(t.kind, name));
            &&& attr_values(trees, name).len() == having.len()
            &&& forall|i: int|
                0 <= i < having.len() ==> carries(
                    having[i].kind,
                    name,
                    #[trigger] attr_values(trees, name)[i],
                )
        }),
    decreases trees.len(),
{
    reveal(Seq::filter);
    let p = |t: HtmlTree| has_attr_named(t.kind, name);
    if trees.len() > 0 {
        let front = trees.drop_last();
        values_are_filtered(front, name);
        let k = trees.last().kind;
        attributes_are_found_by_name(k, name, seq![]);
        let before = attr_values(front, name);
        let f = front.filter(p);
        let now = attr_values(trees, name);
        if attr_value(k, name) is Some {
            attributes_are_found_by_name(k, name, attr_value(k, name)->0);
        }
        assert forall|i: int| 0 <= i < trees.filter(p).len() implies carries(
            trees.filter(p)[i].kind,
            name,
            #[trigger] now[i],
        ) by {
            if i < f.len() {
                assert(carries(f[i].kind, name, before[i]));
                assert(now[i] == before[i]);
            }
        }
    }
}

/// A page is the text whose UTF-8 its bytes are.
pub proof fn pages_are_read_as_utf8(body: &[u8], r: Result<String, BrowseError>)
    requires
        call_ensures(decode_page, (body,), r),
    ensures
        r is Ok <==> valid_utf8(body@),
        r matches Ok(s) ==> encode_utf8(s@) == body@,
        r matches Err(e) ==> e is NotUtf8,
{
}

// ---- finding by text -----------------------------------------------------------------

/// A text contains another, whatever the case of either.
pub proof fn texts_are_found_in_any_case(hay: &str, needle: &str, r: bool)
    requires
        call_ensures(contains_ignore_ascii_case, (hay, needle), r),
    ensures
        r <==> exists|a: Seq<char>, n: Seq<char>, b: Seq<char>|
            hay@ == #[trigger] ((a + n) + b) && same_ignoring_case(n, needle@),
{
    let h = hay@;
    let low = ascii_lower(h);
    let want = ascii_lower(needle@);
    if r {
        if needle@.len() == 0 {
            let e: Seq<char> = seq![];
            assert(h =~= (e + e) + h);
            assert(ascii_lower(e) =~= ascii_lower(needle@));
        } else {
            let i = choose|i: int| #[trigger] occurs_at(low, want, i);
            let k = i + want.len();
            let n = h.subrange(i, k);
            assert(h =~= (h.take(i) + n) + h.skip(k));
            assert(ascii_lower(n) =~= low.subrange(i, k));
        }
    }
    if exists|a: Seq<char>, n: Seq<char>, b: Seq<char>|
        h == #[trigger] ((a + n) + b) && same_ignoring_case(n, needle@) {
        let (a, n, b) = choose|a: Seq<char>, n: Seq<char>, b: Seq<char>|
            h == #[trigger] ((a + n) + b) && same_ignoring_case(n, needle@);
        assert(ascii_lower(n).len() == n.len());
        assert(ascii_lower(needle@).len() == needle@.len());
        let i: int = a.len() as int;
        assert(low.subrange(i, i + want.len()) =~= ascii_lower(n));
        assert(occurs_at(low, want, i));
    }
}

proof fn exact_is_first(d: Seq<NodeModel>, s: Seq<int>, needle: Seq<char>)
    ensures
        exact_hit(d, s, needle) is None ==> forall|j: int|
            0 <= j < s.len() ==> !same_ignoring_case(trimmed_text(d, #[trigger] s[j]), needle),
        exact_hit(d, s, needle) matches Some(x) ==> exists|j: int|
            0 <= j < s.len() && #[trigger] s[j] == x && same_ignoring_case(
                trimmed_text(d, s[j]),
                needle,
            ) && forall|i: int|
                0 <= i < j ==> !same_ignoring_case(trimmed_text(d, #[trigger] s[i]), needle),
    decreases s.len(),
{
    if s.len() > 0 {
        if same_ignoring_case(trimmed_text(d, s[0]), needle) {
            assert(s[0] == exact_hit(d, s, needle)->0);
        } else {
            let rest = s.skip(1);
            exact_is_first(d, rest, needle);
            assert forall|j: int| 0 < j < s.len() implies #[trigger] s[j] == rest[j - 1] by {}
            if exact_hit(d, s, needle) is Some {
                let x = exact_hit(d, s, needle)->0;
                let j = choose|j: int|
                    0 <= j < rest.len() && #[trigger] rest[j] == x && same_ignoring_case(
                        trimmed_text(d, rest[j]),
                        needle,
                    ) && forall|i: int|
                        0 <= i < j ==> !same_ignoring_case(
                            trimmed_text(d, #[trigger] rest[i]),
                            needle,
                        );
                assert(s[j + 1] == x);
                assert forall|i: int| 0 <= i < j + 1 implies !same_ignoring_case(
                    trimmed_text(d, #[trigger] s[i]),
                    needle,
                ) by {
                    if i > 0 {
                        assert(rest[i - 1] == s[i]);
                    }
                }
            }
        }
    }
}

proof fn partial_is_first(d: Seq<NodeModel>, s: Seq<int>, needle: Seq<char>)
    ensures
        partial_hit(d, s, needle) is None ==> forall|j: int|
            0 <= j < s.len() ==> !has_text_ignoring_case(trimmed_text(d, #[trigger] s[j]), needle),
        partial_hit(d, s, needle) matches Some(x) ==> exists|j: int|
            0 <= j < s.len() && #[trigger] s[j] == x && has_text_ignoring_case(
                trimmed_text(d, s[j]),
                needle,
            ) && forall|i: int|
                0 <= i < j ==> !has_text_ignoring_case(trimmed_text(d, #[trigger] s[i]), needle),
    decreases s.len(),
{
    if s.len() > 0 {
        if has_text_ignoring_case(trimmed_text(d, s[0]), needle) {
            assert(s[0] == partial_hit(d, s, needle)->0);
        } else {
            let rest = s.skip(1);
            partial_is_first(d, rest, needle);
            assert forall|j: int| 0 < j < s.len() implies #[trigger] s[j] == rest[j - 1] by {}
            if partial_hit(d, s, needle) is Some {
                let x = partial_hit(d, s, needle)->0;
                let j = choose|j: int|
                    0 <= j < rest.len() && #[trigger] rest[j] == x && has_text_ignoring_case(
                        trimmed_text(d, rest[j]),
                        needle,
                    ) && forall|i: int|
                        0 <= i < j ==> !has_text_ignoring_case(
                            trimmed_text(d, #[trigger] rest[i]),
                            needle,
                        );
                assert(s[j + 1] == x);
                assert forall|i: int| 0 <= i < j + 1 implies !has_text_ignoring_case(
                    trimmed_text(d, #[trigger] s[i]),
                    needle,
                ) by {
                    if i > 0 {
                        assert(rest[i - 1] == s[i]);
                    }
                }
            }
        }
    }
}

/// The links of a page and then its buttons, each in document order.
pub open spec fn things_to_click(d: Seq<NodeModel>) -> Seq<int> {
    selected_below(d, 0, "a"@) + selected_below(d, 0, "button"@)
}

/// What a text finds is the first link, or else button, that has just this text, in any
/// case; where none has, the first whose text holds it; where none does, nothing. What is
/// given back leads to that very element.
pub proof fn texts_find_what_they_name(
    doc: &Document,
    text: &str,
    r: Result<Hit, BrowseError>,
)
    requires
        walkable(doc@),
        call_ensures(find_by_text, (doc, text), r),
    ensures
        ({
            let d = doc@;
            let s = things_to_click(d);
            let want = trimmed(text@);
            let exact = |j: int| same_ignoring_case(trimmed(text_at(d, s[j], false)), want);
            let part = |j: int| has_text_ignoring_case(trimmed(text_at(d, s[j], false)), want);
            let none_exact = forall|j: int| 0 <= j < s.len() ==> !#[trigger] exact(j);
            let none_part = forall|j: int| 0 <= j < s.len() ==> !#[trigger] part(j);
            &&& r is Err <==> none_exact && none_part
            &&& r matches Err(e) ==> e@ is NoMatch
            &&& r matches Ok(h) ==> {
                let list = selected_below(d, 0, h.selector@);
                &&& h.nth < list.len()
                &&& exists|j: int|
                    {
                        &&& 0 <= j < s.len()
                        &&& #[trigger] s[j] == list[h.nth as int]
                        &&& (!none_exact ==> exact(j) && forall|i: int|
                            0 <= i < j ==> !#[trigger] exact(i))
                        &&& (none_exact ==> part(j) && forall|i: int|
                            0 <= i < j ==> !#[trigger] part(i))
                    }
            }
        }),
{
    let d = doc@;
    let s = things_to_click(d);
    let want = trimmed(text@);
    exact_is_first(d, s, want);
    partial_is_first(d, s, want);
    let exact = |j: int| same_ignoring_case(trimmed(text_at(d, s[j], false)), want);
    let part = |j: int| has_text_ignoring_case(trimmed(text_at(d, s[j], false)), want);
    assert(clickables(d) == s);
    match exact_hit(d, s, want) {
        Some(x) => {
            let j = choose|j: int|
                0 <= j < s.len() && #[trigger] s[j] == x && same_ignoring_case(
                    trimmed_text(d, s[j]),
                    want,
                ) && forall|i: int|
                    0 <= i < j ==> !same_ignoring_case(trimmed_text(d, #[trigger] s[i]), want);
            assert(exact(j));
            assert forall|i: int| 0 <= i < j implies !#[trigger] exact(i) by {
                assert(!same_ignoring_case(trimmed_text(d, s[i]), want));
            }
            assert(s[j] == selected_below(d, 0, r->Ok_0.selector@)[r->Ok_0.nth as int]);
        },
        None => {
            assert forall|j: int| 0 <= j < s.len() implies !#[trigger] exact(j) by {
                assert(!same_ignoring_case(trimmed_text(d, s[j]), want));
            }
            match partial_hit(d, s, want) {
                Some(x) => {
                    let j = choose|j: int|
                        0 <= j < s.len() && #[trigger] s[j] == x && has_text_ignoring_case(
                            trimmed_text(d, s[j]),
                            want,
                        ) && forall|i: int|
                            0 <= i < j ==> !has_text_ignoring_case(
                                trimmed_text(d, #[trigger] s[i]),
                                want,
                            );
                    assert(part(j));
                    assert forall|i: int| 0 <= i < j implies !#[trigger] part(i) by {
                        assert(!has_text_ignoring_case(trimmed_text(d, s[i]), want));
                    }
                    assert(s[j] == selected_below(d, 0, r->Ok_0.selector@)[r->Ok_0.nth as int]);
                },
                None => {
                    assert forall|j: int| 0 <= j < s.len() implies !#[trigger] part(j) by {
                        assert(!has_text_ignoring_case(trimmed_text(d, s[j]), want));
                    }
                },
            }
        },
    }
}

// ---- waiting ---------------------------------------------------------------------------

/// A selector that matches ends the wait at once; one that does not is looked for again
/// after a twentieth of a second, until the time has passed, which is a failure.
pub proof fn selectors_are_waited_for(
    html: &str,
    selector: &str,
    elapsed_ms: u64,
    timeout_ms: u64,
    r: WaitStep,
)
    requires
        readable(html@),
        call_ensures(wait_for_selector, (html, selector, elapsed_ms, timeout_ms), r),
    ensures
        r is Ready <==> matches_in(html@, selector@).len() > 0,
        !(r is Ready) && elapsed_ms < timeout_ms ==> r == WaitStep::Sleep(50),
        !(r is Ready) && elapsed_ms >= timeout_ms ==> r is Fail && r->Fail_0 is NoMatch,
        !(r is Ready) && elapsed_ms >= timeout_ms ==> r->Fail_0->NoMatch_0@ == debugged(selector@)
            + " (waited "@ + decimal(timeout_ms as nat) + "ms)"@,
{
    if !(r is Ready) && elapsed_ms >= timeout_ms {
        assert(r->Fail_0@ is NoMatch);
    }
}

/// A text is waited for in the same way: a wait ends only when it is there or the time has
/// passed.
pub proof fn texts_are_waited_for(
    html: &str,
    needle: &str,
    elapsed_ms: u64,
    timeout_ms: u64,
    r: WaitStep,
)
    requires
        readable(html@),
        call_ensures(wait_for_text, (html, needle, elapsed_ms, timeout_ms), r),
    ensures
        !(r is Ready) && elapsed_ms < timeout_ms ==> r == WaitStep::Sleep(50),
        !(r is Ready) && elapsed_ms >= timeout_ms ==> r is Fail && r->Fail_0 is NoMatch,
        !(r is Ready) && elapsed_ms >= timeout_ms ==> r->Fail_0->NoMatch_0@ == "text "@ + debugged(
            needle@,
        ) + " (waited "@ + decimal(timeout_ms as nat) + "ms)"@,
        needle@.len() == 0 ==> r is Ready,
        r is Ready ==> exists|d: Seq<NodeModel>|
            #[trigger] crate::session::page::page_table(html@, d) && has_text_ignoring_case(
                match crate::dom::tag_below(d, 0, "body"@) {
                    Some(i) => text_at(d, i, false),
                    None => seq![],
                },
                needle@,
            ),
        !(r is Ready) ==> exists|d: Seq<NodeModel>|
            #[trigger] crate::session::page::page_table(html@, d) && !has_text_ignoring_case(
                match crate::dom::tag_below(d, 0, "body"@) {
                    Some(i) => text_at(d, i, false),
                    None => seq![],
                },
                needle@,
            ),
{
    if r is Fail {
        assert(r->Fail_0@ is NoMatch);
    }
}

/// A target is its selector, or the selector of the element with its index.
pub proof fn targets_are_their_selectors(
    target: &Target,
    snapshot: &PageSnapshot,
    r: Result<String, BrowseError>,
)
    requires
        call_ensures(resolve_target, (target, snapshot), r),
        well_indexed(snapshot.interactive@),
    ensures
        *target matches Target::Selector(s) ==> r is Ok && r->Ok_0@ == s@,
        *target matches Target::Index(i) ==> i < snapshot.interactive@.len() ==> r is Ok
            && r->Ok_0@ == snapshot.interactive@[i as int].selector@,
{
    if let Target::Index(i) = *target {
        if i < snapshot.interactive@.len() {
            crate::snapshot::index_is_position(snapshot.interactive@, i as int);
        }
    }
}

} // verus!
