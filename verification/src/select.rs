//! Text and attributes of the elements that a selector matches.
use crate::dom::html::{parsable, parsed_document, tree_size, HtmlTree};
use crate::dom::model::{known, ranked, subtree};
use crate::dom::pick::{found_is_picked, html_text, picked, text_without_ids, trees_at};
use crate::dom::selector::parsed_selector;
use crate::dom::{attr_value, is_selected, raw_ids, selected_are_known, selected_below, text_view,
    trees_select_all, Document, Error};
use crate::text::views;
use vstd::prelude::*;

verus! {

/// The elements of an HTML text that a selector matches, in document order;
/// none, where the selector cannot be read.
pub open spec fn matches_in(html: Seq<char>, selector: Seq<char>) -> Seq<HtmlTree> {
    match parsed_selector(selector) {
        Some(sel) => picked(parsed_document(html), is_selected(sel)),
        None => seq![],
    }
}

/// A text that a document can be made of.
pub open spec fn readable(html: Seq<char>) -> bool {
    parsable(html) && tree_size(parsed_document(html)) <= u32::MAX
}

/// The values of an attribute of those trees whose root has it.
pub open spec fn attr_values(trees: Seq<HtmlTree>, name: Seq<char>) -> Seq<Seq<char>>
    decreases trees.len(),
{
    if trees.len() == 0 {
        seq![]
    } else {
        match attr_value(trees.last().kind, name) {
            Some(v) => attr_values(trees.drop_last(), name).push(v),
            None => attr_values(trees.drop_last(), name),
        }
    }
}

/// What is selected in a parsed document.
pub proof fn selection(doc: &Document, html: Seq<char>, selector: Seq<char>)
    requires
        doc.valid(),
        crate::dom::edit::embeds(doc@, 0, None, parsed_document(html)),
        crate::dom::model::plain(subtree(doc@, 0)) == parsed_document(html),
    ensures
        trees_at(doc@, selected_below(doc@, 0, selector)) == matches_in(html, selector),
        forall|i: int|
            0 <= i < selected_below(doc@, 0, selector).len() ==> known(
                doc@,
                #[trigger] selected_below(doc@, 0, selector)[i],
            ),
{
    let d = doc@;
    match parsed_selector(selector) {
        Some(sel) => {
            let rank = choose|rank: Seq<nat>| ranked(d, rank);
            found_is_picked(d, rank, 0, is_selected(sel));
            trees_select_all(d, 0, selector);
            selected_are_known(d, 0, selector);
        },
        None => {
            assert(trees_at(d, seq![]) =~= seq![]);
        },
    }
}

/// The text of every element that the selector matches, in document order.
pub fn select_text(html: &str, selector: &str) -> (r: Result<Vec<String>, Error>)
    ensures
        match r {
            Ok(v) => readable(html@) && views(v@) == matches_in(html@, selector@).map_values(
                |t: HtmlTree| html_text(t, false),
            ),
            Err(e) => e is Parse && !readable(html@),
        },
{
    let doc = match Document::parse(html) {
        Ok(doc) => doc,
        Err(e) => {
            return Err(e);
        },
    };
    let list = doc.query_selector_all(selector);
    let ghost trees = matches_in(html@, selector@);
    let ghost texts = trees.map_values(|t: HtmlTree| html_text(t, false));
    proof {
        selection(&doc, html@, selector@);
    }
    let mut out: Vec<String> = Vec::new();
    let mut i: usize = 0;
    assert(views(out@) =~= texts.take(0));
    while i < list.len()
        invariant
            i <= list@.len(),
            doc.valid(),
            trees_at(doc@, raw_ids(list@)) == trees,
            texts == trees.map_values(|t: HtmlTree| html_text(t, false)),
            forall|j: int|
                0 <= j < raw_ids(list@).len() ==> known(doc@, #[trigger] raw_ids(list@)[j]),
            views(out@) == texts.take(i as int),
        decreases list@.len() - i,
    {
        let ghost id = list@[i as int].0 as int;
        assert(raw_ids(list@)[i as int] == id);
        assert(trees[i as int] == crate::dom::model::plain(subtree(doc@, id)));
        proof {
            text_without_ids(subtree(doc@, id), false);
        }
        let ghost prior = out@;
        out.push(doc.text_content(list[i]));
        assert(views(out@) =~= views(prior).push(texts[i as int]));
        assert(texts.take(i + 1) =~= texts.take(i as int).push(texts[i as int]));
        i = i + 1;
    }
    assert(texts.take(i as int) =~= texts);
    Ok(out)
}

/// The named attribute of every element that the selector matches and that has it.
pub fn select_attr(html: &str, selector: &str, attr: &str) -> (r: Result<Vec<String>, Error>)
    ensures
        match r {
            Ok(v) => readable(html@) && views(v@) == attr_values(
                matches_in(html@, selector@),
                attr@,
            ),
            Err(e) => e is Parse && !readable(html@),
        },
{
    let doc = match Document::parse(html) {
        Ok(doc) => doc,
        Err(e) => {
            return Err(e);
        },
    };
    let list = doc.query_selector_all(selector);
    let ghost trees = matches_in(html@, selector@);
    proof {
        selection(&doc, html@, selector@);
    }
    let mut out: Vec<String> = Vec::new();
    let mut i: usize = 0;
    assert(views(out@) =~= attr_values(trees.take(0), attr@));
    while i < list.len()
        invariant
            i <= list@.len(),
            doc.valid(),
            trees_at(doc@, raw_ids(list@)) == trees,
            forall|j: int|
                0 <= j < raw_ids(list@).len() ==> known(doc@, #[trigger] raw_ids(list@)[j]),
            views(out@) == attr_values(trees.take(i as int), attr@),
        decreases list@.len() - i,
    {
        let ghost id = list@[i as int].0 as int;
        assert(raw_ids(list@)[i as int] == id);
        assert(trees[i as int] == crate::dom::model::plain(subtree(doc@, id)));
        assert(trees.take(i + 1).drop_last() =~= trees.take(i as int));
        let value = doc.get_attribute(list[i], attr);
        assert(text_view(value) == attr_value(trees[i as int].kind, attr@));
        if let Some(v) = value {
            let ghost prior = out@;
            out.push(v);
            assert(views(out@) =~= views(prior).push(v@));
        }
        i = i + 1;
    }
    assert(trees.take(i as int) =~= trees);
    Ok(out)
}

} // verus!
