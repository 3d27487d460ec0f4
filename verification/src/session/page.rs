//! What is read from a page, and what is done with it next.
use crate::dom::edit::embeds;
use crate::dom::html::{parsed_document, serialized, tree_size, HtmlTree};
use crate::dom::laws::{document_stays_on_top, trees_are_topped};
use crate::dom::model::{known, plain, subtree, texts_fit, tree_like, walkable, NodeModel};
use crate::dom::pick::{html_text, trees_at};
use crate::dom::{raw_ids, selected_are_known, selected_below, tag_below, text_at, Document, NodeId};
use crate::select::{attr_values, matches_in, readable, select_attr, select_text, selection};
use crate::session::{BrowseError, BrowseErrorModel, ReadMode, Target, WAIT_POLL_INTERVAL_MS};
use crate::snapshot::{
    best_selector, selector_at, snapshot_model, trimmed_text,
    unique_selector, well_indexed, PageSnapshot, SnapshotOpts,
};
use crate::text::{
    ascii_lower, contains, debug_text, debugged, decimal, eq_ignore_ascii_case, from_utf8, has_text,
    push_decimal, same_ignoring_case, to_ascii_lowercase, trim, trimmed, views,
};
use vstd::prelude::*;
use vstd::string::*;
use vstd::utf8::*;

verus! {

/// `d` is the node table of the page.
pub open spec fn page_table(html: Seq<char>, d: Seq<NodeModel>) -> bool {
    &&& readable(html)
    &&& tree_like(d)
    &&& d.len() == tree_size(parsed_document(html))
    &&& embeds(d, 0, None, parsed_document(html))
}

fn dom_error(e: crate::dom::Error) -> (r: BrowseError)
    requires
        e is Parse,
    ensures
        r@ == BrowseErrorModel::Dom("parse error: "@ + e->Parse_0@),
{
    match e {
        crate::dom::Error::Parse(m) => {
            let mut s = "parse error: ".to_owned();
            s.append(m.as_str());
            BrowseError::Dom(s)
        },
        _ => BrowseError::ActorGone,
    }
}

/// The text of a page that was fetched; it has to be UTF-8.
pub fn decode_page(body: &[u8]) -> (r: Result<String, BrowseError>)
    ensures
        match r {
            Ok(s) => valid_utf8(body@) && body@ == encode_utf8(s@),
            Err(e) => e is NotUtf8 && !valid_utf8(body@),
        },
{
    match from_utf8(body) {
        Some(s) => {
            proof {
                encode_utf8_valid_utf8(s@);
            }
            Ok(s)
        },
        None => Err(BrowseError::NotUtf8),
    }
}

/// The snapshot of a page; a page that cannot be read has none.
pub open spec fn snapshot_of(
    html: Seq<char>,
    url: Seq<char>,
    max: int,
    r: Result<PageSnapshot, BrowseError>,
) -> bool {
    match r {
        Ok(snap) => well_indexed(snap.interactive@) && exists|d: Seq<NodeModel>|
            #[trigger] page_table(html, d) && snap@ == snapshot_model(d, url, max),
        Err(e) => e is Dom && !readable(html),
    }
}

pub fn page_snapshot(html: &str, url: &str, opts: SnapshotOpts) -> (r: Result<
    PageSnapshot,
    BrowseError,
>)
    ensures
        snapshot_of(html@, url@, opts.max_text_summary_bytes as int, r),
{
    let doc = match Document::parse(html) {
        Ok(doc) => doc,
        Err(e) => {
            return Err(dom_error(e));
        },
    };
    assert(page_table(html@, doc@));
    Ok(PageSnapshot::from_document(&doc, url, opts))
}

/// What is read from every element that a selector matches.
pub open spec fn read_texts(html: Seq<char>, selector: Seq<char>, mode: ReadMode) -> Seq<Seq<char>> {
    let trees = matches_in(html, selector);
    match mode {
        ReadMode::Text => trees.map_values(|t: HtmlTree| html_text(t, false)),
        ReadMode::Html => trees.map_values(|t: HtmlTree| serialized(t, true)),
        ReadMode::Attr(name) => attr_values(trees, name@),
    }
}

/// What is read from every element of a page that a selector matches, in document
/// order; nothing where the selector cannot be read.
pub open spec fn reads(
    html: Seq<char>,
    selector: Seq<char>,
    mode: ReadMode,
    r: Result<Vec<String>, BrowseError>,
) -> bool {
    match r {
        Ok(v) => readable(html) && views(v@) == read_texts(html, selector, mode),
        Err(e) => e is Dom && !readable(html),
    }
}

pub fn read_page(html: &str, selector: &str, mode: &ReadMode) -> (r: Result<
    Vec<String>,
    BrowseError,
>)
    ensures
        reads(html@, selector@, *mode, r),
{
    let found = match mode {
        ReadMode::Text => select_text(html, selector),
        ReadMode::Html => select_html(html, selector),
        ReadMode::Attr(name) => select_attr(html, selector, name.as_str()),
    };
    match found {
        Ok(v) => Ok(v),
        Err(e) => Err(dom_error(e)),
    }
}

/// The HTML of every element that the selector matches, in document order.
fn select_html(html: &str, selector: &str) -> (r: Result<Vec<String>, crate::dom::Error>)
    ensures
        match r {
            Ok(v) => readable(html@) && views(v@) == matches_in(html@, selector@).map_values(
                |t: HtmlTree| serialized(t, true),
            ),
            Err(e) => e is Parse && !readable(html@),
        },
{
    let doc = match Document::parse(html) {
        Ok(doc) => doc,
        Err(e) => {
            return Err(e);
        },
    };
    let list = doc.query_selector_all(selector);
    let ghost trees = matches_in(html@, selector@);
    let ghost texts = trees.map_values(|t: HtmlTree| serialized(t, true));
    proof {
        selection(&doc, html@, selector@);
        selected_are_elements(&doc, selector@);
    }
    let mut out: Vec<String> = Vec::new();
    let mut i: usize = 0;
    assert(views(out@) =~= texts.take(0));
    while i < list.len()
        invariant
            i <= list@.len(),
            doc.valid(),
            texts_fit(doc@),
            doc@[0].parent is None,
            trees_at(doc@, raw_ids(list@)) == trees,
            texts == trees.map_values(|t: HtmlTree| serialized(t, true)),
            forall|j: int|
                0 <= j < raw_ids(list@).len() ==> known(doc@, #[trigger] raw_ids(list@)[j])
                    && raw_ids(list@)[j] > 0,
            views(out@) == texts.take(i as int),
        decreases list@.len() - i,
    {
        let ghost id = list@[i as int].0 as int;
        assert(raw_ids(list@)[i as int] == id);
        assert(trees[i as int] == plain(subtree(doc@, id)));
        proof {
            trees_are_topped(doc@);
            document_stays_on_top(doc@, id);
        }
        let ghost prior = out@;
        out.push(doc.outer_html(list[i]));
        assert(views(out@) =~= views(prior).push(texts[i as int]));
        assert(texts.take(i + 1) =~= texts.take(i as int).push(texts[i as int]));
        i = i + 1;
    }
    assert(texts.take(i as int) =~= texts);
    Ok(out)
}

/// What a selector matches is an element, so never the document node.
proof fn selected_are_elements(doc: &Document, selector: Seq<char>)
    requires
        doc.valid(),
    ensures
        forall|i: int|
            0 <= i < selected_below(doc@, 0, selector).len() ==> #[trigger] selected_below(
                doc@,
                0,
                selector,
            )[i] > 0,
{
    selected_are_known(doc@, 0, selector);
    assert forall|i: int| 0 <= i < selected_below(doc@, 0, selector).len() implies #[trigger]
        selected_below(doc@, 0, selector)[i] > 0 by {
        assert(known(doc@, selected_below(doc@, 0, selector)[i]));
    }
}

// ---- finding by text -----------------------------------------------------------

/// `needle` stands in `hay` in whatever ASCII case.
pub open spec fn has_text_ignoring_case(hay: Seq<char>, needle: Seq<char>) -> bool {
    needle.len() == 0 || has_text(ascii_lower(hay), ascii_lower(needle))
}

pub fn contains_ignore_ascii_case(haystack: &str, needle: &str) -> (r: bool)
    ensures
        r == has_text_ignoring_case(haystack@, needle@),
{
    if needle.is_empty() {
        return true;
    }
    let h = to_ascii_lowercase(haystack);
    let n = to_ascii_lowercase(needle);
    contains(h.as_str(), n.as_str())
}

/// The links, then the buttons of a document.
pub open spec fn clickables(d: Seq<NodeModel>) -> Seq<int> {
    selected_below(d, 0, "a"@) + selected_below(d, 0, "button"@)
}

/// The first of the given elements whose text is exactly the wanted one, in
/// whatever ASCII case.
pub open spec fn exact_hit(d: Seq<NodeModel>, s: Seq<int>, needle: Seq<char>) -> Option<int>
    decreases s.len(),
{
    if s.len() == 0 {
        None
    } else if same_ignoring_case(trimmed_text(d, s[0]), needle) {
        Some(s[0])
    } else {
        exact_hit(d, s.skip(1), needle)
    }
}

/// The first of the given elements whose text holds the wanted one, in whatever
/// ASCII case.
pub open spec fn partial_hit(d: Seq<NodeModel>, s: Seq<int>, needle: Seq<char>) -> Option<int>
    decreases s.len(),
{
    if s.len() == 0 {
        None
    } else if has_text_ignoring_case(trimmed_text(d, s[0]), needle) {
        Some(s[0])
    } else {
        partial_hit(d, s.skip(1), needle)
    }
}

/// The link or button with the given text: an exact match before a partial one.
pub open spec fn text_hit(d: Seq<NodeModel>, needle: Seq<char>) -> Option<int> {
    if exact_hit(d, clickables(d), needle) is Some {
        exact_hit(d, clickables(d), needle)
    } else {
        partial_hit(d, clickables(d), needle)
    }
}

/// One element of a page: its place among those that a selector matches.
pub struct Hit {
    pub selector: String,
    pub nth: usize,
}

/// The hit is the element `id`. It is told by its selector where that matches it alone,
/// and else by its place among the links or the buttons.
pub open spec fn hits(d: Seq<NodeModel>, id: int, h: Hit) -> bool {
    let list = selected_below(d, 0, h.selector@);
    &&& h.nth < list.len()
    &&& list[h.nth as int] == id
    &&& if selected_below(d, 0, best_selector(d, id)) == seq![id] {
        h.selector@ == best_selector(d, id)
    } else {
        h.selector@ == "a"@ || h.selector@ == "button"@
    }
}

/// How to address the element at a place among the links and buttons.
fn address(doc: &Document, list: &Vec<NodeId>, links: usize, k: usize) -> (r: Hit)
    requires
        walkable(doc@),
        raw_ids(list@) == clickables(doc@),
        links == selected_below(doc@, 0, "a"@).len(),
        k < list@.len(),
    ensures
        hits(doc@, list@[k as int].0 as int, r),
{
    let ghost d = doc@;
    let ghost id = list@[k as int].0 as int;
    let best = unique_selector(doc, list[k]);
    let same = doc.query_selector_all(best.as_str());
    let ghost found = raw_ids(same@);
    if same.len() == 1 && same[0].0 == list[k].0 {
        assert(found[0] == id);
        assert(found =~= seq![id]);
        return Hit { selector: best, nth: 0 };
    }
    assert(found != seq![id]) by {
        if found == seq![id] {
            assert(found.len() == 1 && found[0] == id);
            assert(found[0] == same@[0].0);
        }
    }
    assert(raw_ids(list@).len() == list@.len());
    assert(raw_ids(list@)[k as int] == id);
    if k < links {
        assert(clickables(d)[k as int] == selected_below(d, 0, "a"@)[k as int]);
        Hit { selector: "a".to_owned(), nth: k }
    } else {
        assert(clickables(d)[k as int] == selected_below(d, 0, "button"@)[k - links]);
        Hit { selector: "button".to_owned(), nth: k - links }
    }
}

/// The link or button with the given text.
pub fn find_by_text(doc: &Document, text: &str) -> (r: Result<Hit, BrowseError>)
    requires
        walkable(doc@),
    ensures
        match text_hit(doc@, trimmed(text@)) {
            Some(id) => r is Ok && hits(doc@, id, r->Ok_0),
            None => r is Err && r->Err_0@ == BrowseErrorModel::NoMatch(
                "text: "@ + debugged(trimmed(text@)),
            ),
        },
{
    let ghost d = doc@;
    let needle = trim(text);
    let mut list = doc.query_selector_all("a");
    let links: usize = list.len();
    assert(raw_ids(list@).len() == links);
    let mut buttons = doc.query_selector_all("button");
    let ghost a = list@;
    let ghost b = buttons@;
    list.append(&mut buttons);
    let ghost all = raw_ids(list@);
    assert(all =~= clickables(d)) by {
        assert(raw_ids(list@) =~= raw_ids(a) + raw_ids(b));
    }
    let mut partial: Option<usize> = None;
    assert(all.skip(0) =~= all);
    let mut i: usize = 0;
    while i < list.len()
        invariant
            i <= list@.len(),
            walkable(d),
            d == doc@,
            all == raw_ids(list@),
            all == clickables(d),
            links == selected_below(d, 0, "a"@).len(),
            needle@ == trimmed(text@),
            exact_hit(d, all, needle@) == exact_hit(d, all.skip(i as int), needle@),
            partial is None ==> partial_hit(d, all, needle@) == partial_hit(
                d,
                all.skip(i as int),
                needle@,
            ),
            partial is Some ==> partial->Some_0 < i && partial_hit(d, all, needle@) == Some(
                list@[partial->Some_0 as int].0 as int,
            ),
        decreases list@.len() - i,
    {
        assert(all.skip(i as int)[0] == list@[i as int].0);
        assert(all.skip(i as int).skip(1) =~= all.skip(i + 1));
        let content = doc.text_content(list[i]);
        let body = trim(content.as_str());
        if eq_ignore_ascii_case(body, needle) {
            return Ok(address(doc, &list, links, i));
        }
        if partial.is_none() && contains_ignore_ascii_case(body, needle) {
            partial = Some(i);
        }
        i = i + 1;
    }
    match partial {
        Some(k) => Ok(address(doc, &list, links, k)),
        None => {
            let mut m = "text: ".to_owned();
            m.append(debug_text(needle).as_str());
            Err(BrowseError::NoMatch(m))
        },
    }
}

/// The link or button of a page with the given text, or why there is none.
pub open spec fn names_text(
    html: Seq<char>,
    text: Seq<char>,
    r: Result<Hit, BrowseError>,
) -> bool {
    if !readable(html) {
        r is Err && r->Err_0 is Dom
    } else {
        exists|d: Seq<NodeModel>|
            #[trigger] page_table(html, d) && (match text_hit(d, trimmed(text)) {
                Some(id) => r is Ok && hits(d, id, r->Ok_0),
                None => r is Err && r->Err_0@ == BrowseErrorModel::NoMatch(
                    "text: "@ + debugged(trimmed(text)),
                ),
            })
    }
}

pub fn click_text_selector(html: &str, text: &str) -> (r: Result<Hit, BrowseError>)
    ensures
        names_text(html@, text@, r),
{
    let doc = match Document::parse(html) {
        Ok(doc) => doc,
        Err(e) => {
            return Err(dom_error(e));
        },
    };
    assert(page_table(html@, doc@));
    find_by_text(&doc, text)
}

// ---- waiting -------------------------------------------------------------------

/// What to do with a page that is waited for.
pub enum WaitStep {
    /// It is as it should be.
    Ready,
    /// Look again after this many milliseconds.
    Sleep(u64),
    Fail(BrowseError),
}

/// The error when the time is up.
pub open spec fn timeout_text(what: Seq<char>, timeout_ms: u64) -> Seq<char> {
    what + " (waited "@ + decimal(timeout_ms as nat) + "ms)"@
}

fn wait_step(there: bool, what: String, elapsed_ms: u64, timeout_ms: u64) -> (r: WaitStep)
    ensures
        match r {
            WaitStep::Ready => there,
            WaitStep::Sleep(ms) => !there && elapsed_ms < timeout_ms && ms == WAIT_POLL_INTERVAL_MS,
            WaitStep::Fail(e) => !there && elapsed_ms >= timeout_ms && e@
                == BrowseErrorModel::NoMatch(timeout_text(what@, timeout_ms)),
        },
{
    if there {
        WaitStep::Ready
    } else if elapsed_ms >= timeout_ms {
        let mut m = what;
        m.append(" (waited ");
        push_decimal(&mut m, timeout_ms);
        m.append("ms)");
        WaitStep::Fail(BrowseError::NoMatch(m))
    } else {
        WaitStep::Sleep(WAIT_POLL_INTERVAL_MS)
    }
}

/// What a look at a page gives on which a selector is waited for, `elapsed_ms` after
/// the wait began.
pub open spec fn waits_for_selector(
    html: Seq<char>,
    selector: Seq<char>,
    elapsed_ms: u64,
    timeout_ms: u64,
    r: WaitStep,
) -> bool {
    if !readable(html) {
        r is Fail && r->Fail_0 is Dom
    } else if matches_in(html, selector).len() > 0 {
        r is Ready
    } else if elapsed_ms >= timeout_ms {
        r is Fail && r->Fail_0@ == BrowseErrorModel::NoMatch(
            timeout_text(debugged(selector), timeout_ms),
        )
    } else {
        r == WaitStep::Sleep(WAIT_POLL_INTERVAL_MS)
    }
}

pub fn wait_for_selector(html: &str, selector: &str, elapsed_ms: u64, timeout_ms: u64) -> (r:
    WaitStep)
    ensures
        waits_for_selector(html@, selector@, elapsed_ms, timeout_ms, r),
{
    let doc = match Document::parse(html) {
        Ok(doc) => doc,
        Err(e) => {
            return WaitStep::Fail(dom_error(e));
        },
    };
    let list = doc.query_selector_all(selector);
    proof {
        selection(&doc, html@, selector@);
        assert(trees_at(doc@, raw_ids(list@)).len() == list@.len());
    }
    wait_step(list.len() > 0, debug_text(selector), elapsed_ms, timeout_ms)
}

/// What a look at a page gives on which a text is waited for, in whatever ASCII case,
/// `elapsed_ms` after the wait began.
pub open spec fn waits_for_text(
    html: Seq<char>,
    needle: Seq<char>,
    elapsed_ms: u64,
    timeout_ms: u64,
    r: WaitStep,
) -> bool {
    if !readable(html) {
        r is Fail && r->Fail_0 is Dom
    } else {
        exists|d: Seq<NodeModel>|
            #[trigger] page_table(html, d) && ({
                let body = match tag_below(d, 0, "body"@) {
                    Some(i) => text_at(d, i, false),
                    None => seq![],
                };
                if has_text_ignoring_case(body, needle) {
                    r is Ready
                } else if elapsed_ms >= timeout_ms {
                    r is Fail && r->Fail_0@ == BrowseErrorModel::NoMatch(
                        timeout_text("text "@ + debugged(needle), timeout_ms),
                    )
                } else {
                    r == WaitStep::Sleep(WAIT_POLL_INTERVAL_MS)
                }
            })
    }
}

pub fn wait_for_text(html: &str, needle: &str, elapsed_ms: u64, timeout_ms: u64) -> (r: WaitStep)
    ensures
        waits_for_text(html@, needle@, elapsed_ms, timeout_ms, r),
{
    let doc = match Document::parse(html) {
        Ok(doc) => doc,
        Err(e) => {
            return WaitStep::Fail(dom_error(e));
        },
    };
    assert(page_table(html@, doc@));
    let body = doc.body_text();
    let there = contains_ignore_ascii_case(body.as_str(), needle);
    let mut what = "text ".to_owned();
    what.append(debug_text(needle).as_str());
    wait_step(there, what, elapsed_ms, timeout_ms)
}

// ---- addressing ------------------------------------------------------------------

/// The selector that a target stands for on a page: an index is looked up in the
/// page's snapshot.
pub fn resolve_target(target: &Target, snapshot: &PageSnapshot) -> (r: Result<String, BrowseError>)
    ensures
        match *target {
            Target::Selector(s) => r is Ok && r->Ok_0@ == s@,
            Target::Index(i) => match selector_at(snapshot.interactive@, i as int) {
                Some(s) => r is Ok && r->Ok_0@ == s,
                None => r is Err && r->Err_0@ == BrowseErrorModel::NoMatch(
                    "@"@ + decimal(i as nat),
                ),
            },
        },
{
    match target {
        Target::Selector(s) => Ok(s.clone()),
        Target::Index(i) => match snapshot.selector_for_index(*i) {
            Some(s) => Ok(s),
            None => {
                let mut m = "@".to_owned();
                push_decimal(&mut m, *i as u64);
                Err(BrowseError::NoMatch(m))
            },
        },
    }
}

} // verus!
