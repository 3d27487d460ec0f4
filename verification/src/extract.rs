//! What a page says, read off its bytes without a document tree.
use crate::snapshot::{resolve_href, resolved_href};
use crate::text::{trim, trimmed};
use core::cell::RefCell;
use lol_html::html_content::{Element, EndTag, TextChunk};
use lol_html::{DocumentContentHandlers, ElementContentHandlers, HtmlRewriter, Settings};
use std::borrow::Cow;
use std::sync::mpsc::channel;
use vstd::prelude::*;
use vstd::string::*;

pub mod laws;

verus! {

#[derive(Debug)]
pub enum Error {
    /// The scanner gave up on the page.
    Rewriter(String),
}

impl Error {
    pub fn message(&self) -> (r: String)
        ensures
            r@ == "html rewriter: "@ + self->Rewriter_0@,
    {
        match self {
            Error::Rewriter(e) => {
                let mut s = "html rewriter: ".to_owned();
                s.append(e.as_str());
                s
            },
        }
    }
}

#[derive(Clone, Debug, PartialEq, Eq)]
pub struct Link {
    pub url: String,
    pub text: String,
}

/// The contents of a [`Link`].
#[verifier::ext_equal]
pub struct LinkModel {
    pub url: Seq<char>,
    pub text: Seq<char>,
}

impl View for Link {
    type V = LinkModel;

    open spec fn view(&self) -> LinkModel {
        LinkModel { url: self.url@, text: self.text@ }
    }
}

pub open spec fn link_views(s: Seq<Link>) -> Seq<LinkModel> {
    s.map_values(|l: Link| l@)
}

// ---- scanning ------------------------------------------------------------------

/// Something that the scanner meets on its way through a page.
#[derive(Debug)]
pub enum ScanEvent {
    /// An element that was looked for starts; with the attribute that was asked for.
    Start(Option<String>),
    /// A piece of text, as it is written.
    Text(String),
    /// An element that was looked for ends.
    End,
}

/// The contents of a [`ScanEvent`].
#[verifier::ext_equal]
pub enum EventModel {
    Start(Option<Seq<char>>),
    Text(Seq<char>),
    End,
}

impl View for ScanEvent {
    type V = EventModel;

    open spec fn view(&self) -> EventModel {
        match *self {
            ScanEvent::Start(a) => EventModel::Start(crate::dom::text_view(a)),
            ScanEvent::Text(s) => EventModel::Text(s@),
            ScanEvent::End => EventModel::End,
        }
    }
}

pub open spec fn event_views(s: Seq<ScanEvent>) -> Seq<EventModel> {
    s.map_values(|e: ScanEvent| e@)
}

/// Where in a page elements start, each with one attribute.
pub open spec fn start_views(s: Seq<(usize, Option<String>)>) -> Seq<(usize, Option<Seq<char>>)> {
    s.map_values(|e: (usize, Option<String>)| (e.0, crate::dom::text_view(e.1)))
}

/// Where in a page there is text.
pub open spec fn text_views(s: Seq<(usize, String)>) -> Seq<(usize, Seq<char>)> {
    s.map_values(|e: (usize, String)| (e.0, e.1@))
}

/// Where the elements that a selector matches start, counted in bytes, each with
/// one attribute, as the rewriter of `lol_html` reports them.
pub uninterp spec fn element_starts(
    html: Seq<u8>,
    selector: Seq<char>,
    attribute: Seq<char>,
) -> Result<Seq<(usize, Option<Seq<char>>)>, Seq<char>>;

/// Runs `lol_html::HtmlRewriter` over a page with a handler for the elements that
/// the selector matches, and gives where each starts and the attribute, or the
/// rewriter's error. The result depends on the arguments alone.
#[verifier::external_body]
fn scan_starts(html: &[u8], selector: &str, attribute: &str) -> (r: Result<
    Vec<(usize, Option<String>)>,
    String,
>)
    ensures
        match r {
            Ok(v) => element_starts(html@, selector@, attribute@) == Ok::<_, Seq<char>>(
                start_views(v@),
            ),
            Err(e) => element_starts(html@, selector@, attribute@) == Err::<
                Seq<(usize, Option<Seq<char>>)>,
                _,
            >(e@),
        },
{
    let starts = RefCell::new(Vec::new());
    let handlers = ElementContentHandlers::default().element(|el: &mut Element| {
        let at = el.source_location().bytes().start;
        Ok(starts.borrow_mut().push((at, el.get_attribute(attribute))))
    });
    let selector = Cow::Owned(selector.parse().map_err(|e| format!("{e}"))?);
    let settings = Settings { element_content_handlers: vec![(selector, handlers)], ..Settings::new() };
    let mut rewriter = HtmlRewriter::new(settings, |_: &[u8]| {});
    rewriter.write(html).and_then(|_| rewriter.end()).map_err(|e| e.to_string())?;
    Ok(starts.take())
}

/// Where the end tags of the elements that a selector matches stand, counted in
/// bytes, as the rewriter of `lol_html` reports them.
pub uninterp spec fn element_ends(html: Seq<u8>, selector: Seq<char>) -> Result<
    Seq<usize>,
    Seq<char>,
>;

/// Runs `lol_html::HtmlRewriter` over a page with a handler for the end tags of
/// the elements that the selector matches, and gives where each stands, or the
/// rewriter's error. The result depends on the page and the selector alone.
#[verifier::external_body]
fn scan_ends(html: &[u8], selector: &str) -> (r: Result<Vec<usize>, String>)
    ensures
        match r {
            Ok(v) => element_ends(html@, selector@) == Ok::<_, Seq<char>>(v@),
            Err(e) => element_ends(html@, selector@) == Err::<Seq<usize>, _>(e@),
        },
{
    let (met, ends) = channel();
    let handlers = ElementContentHandlers::default().element(|el: &mut Element| {
        let met = met.clone();
        Ok(el.on_end_tag(Box::new(move |t: &mut EndTag| Ok(met.send(t.source_location().bytes().start)?)))?)
    });
    let selector = Cow::Owned(selector.parse().map_err(|e| format!("{e}"))?);
    let mut rewriter = HtmlRewriter::new(
        Settings { element_content_handlers: vec![(selector, handlers)], ..Settings::new() },
        |_: &[u8]| {},
    );
    rewriter.write(html).and_then(|_| rewriter.end()).map_err(|e| e.to_string())?;
    Ok(ends.try_iter().collect())
}

/// The text inside the elements that a selector matches, in pieces, and where each
/// stands, counted in bytes, as the rewriter of `lol_html` reports them.
pub uninterp spec fn element_texts(html: Seq<u8>, selector: Seq<char>) -> Result<
    Seq<(usize, Seq<char>)>,
    Seq<char>,
>;

/// Runs `lol_html::HtmlRewriter` over a page with a handler for the text inside the
/// elements that the selector matches, and gives the pieces and where each stands,
/// or the rewriter's error. The result depends on the page and the selector alone.
#[verifier::external_body]
fn scan_texts(html: &[u8], selector: &str) -> (r: Result<Vec<(usize, String)>, String>)
    ensures
        match r {
            Ok(v) => element_texts(html@, selector@) == Ok::<_, Seq<char>>(text_views(v@)),
            Err(e) => element_texts(html@, selector@) == Err::<Seq<(usize, Seq<char>)>, _>(e@),
        },
{
    let texts = RefCell::new(Vec::new());
    let handlers = ElementContentHandlers::default().text(|t: &mut TextChunk| {
        let at = t.source_location().bytes().start;
        Ok(texts.borrow_mut().push((at, t.as_str().to_owned())))
    });
    let selector = Cow::Owned(selector.parse().map_err(|e| format!("{e}"))?);
    let settings = Settings { element_content_handlers: vec![(selector, handlers)], ..Settings::new() };
    let mut rewriter = HtmlRewriter::new(settings, |_: &[u8]| {});
    rewriter.write(html).and_then(|_| rewriter.end()).map_err(|e| e.to_string())?;
    Ok(texts.take())
}

/// All text of a page, in pieces, and where each stands, counted in bytes, as the
/// rewriter of `lol_html` reports them.
pub uninterp spec fn page_texts(html: Seq<u8>) -> Result<Seq<(usize, Seq<char>)>, Seq<char>>;

/// Runs `lol_html::HtmlRewriter` over a page with a handler for all text of it, and
/// gives the pieces and where each stands, or the rewriter's error. The result
/// depends on the page alone.
#[verifier::external_body]
fn scan_page(html: &[u8]) -> (r: Result<Vec<(usize, String)>, String>)
    ensures
        match r {
            Ok(v) => page_texts(html@) == Ok::<_, Seq<char>>(text_views(v@)),
            Err(e) => page_texts(html@) == Err::<Seq<(usize, Seq<char>)>, _>(e@),
        },
{
    let texts = RefCell::new(Vec::new());
    let handlers = DocumentContentHandlers::default().text(|t: &mut TextChunk| {
        let at = t.source_location().bytes().start;
        Ok(texts.borrow_mut().push((at, t.as_str().to_owned())))
    });
    let settings = Settings { document_content_handlers: vec![handlers], ..Settings::new() };
    let mut rewriter = HtmlRewriter::new(settings, |_: &[u8]| {});
    rewriter.write(html).and_then(|_| rewriter.end()).map_err(|e| e.to_string())?;
    Ok(texts.take())
}

/// All that was met, in the order in which it stands in the page. Text that is
/// left over from what stands before a tag is reported at the tag, and comes first.
pub open spec fn merged(
    starts: Seq<(usize, Option<Seq<char>>)>,
    ends: Seq<usize>,
    texts: Seq<(usize, Seq<char>)>,
) -> Seq<EventModel>
    decreases starts.len() + ends.len() + texts.len(),
{
    if texts.len() > 0 && (starts.len() == 0 || texts[0].0 <= starts[0].0) && (ends.len() == 0
        || texts[0].0 <= ends[0]) {
        seq![EventModel::Text(texts[0].1)] + merged(starts, ends, texts.skip(1))
    } else if ends.len() > 0 && (starts.len() == 0 || ends[0] <= starts[0].0) {
        seq![EventModel::End] + merged(starts, ends.skip(1), texts)
    } else if starts.len() > 0 {
        seq![EventModel::Start(starts[0].1)] + merged(starts.skip(1), ends, texts)
    } else {
        seq![]
    }
}

/// Puts what was met in the order in which it stands in the page.
pub fn merge(
    starts: &Vec<(usize, Option<String>)>,
    ends: &Vec<usize>,
    texts: &Vec<(usize, String)>,
) -> (r: Vec<ScanEvent>)
    ensures
        event_views(r@) == merged(start_views(starts@), ends@, text_views(texts@)),
{
    let ghost (ss, tt) = (start_views(starts@), text_views(texts@));
    let mut out: Vec<ScanEvent> = Vec::new();
    let mut i: usize = 0;
    let mut j: usize = 0;
    let mut k: usize = 0;
    assert(ss.skip(0) =~= ss && ends@.skip(0) =~= ends@ && tt.skip(0) =~= tt);
    assert(event_views(out@) + merged(ss, ends@, tt) =~= merged(ss, ends@, tt));
    while i < starts.len() || j < ends.len() || k < texts.len()
        invariant
            i <= starts@.len(),
            j <= ends@.len(),
            k <= texts@.len(),
            ss == start_views(starts@),
            tt == text_views(texts@),
            event_views(out@) + merged(
                ss.skip(i as int),
                ends@.skip(j as int),
                tt.skip(k as int),
            ) == merged(ss, ends@, tt),
        decreases (starts@.len() - i) + (ends@.len() - j) + (texts@.len() - k),
    {
        let ghost before = out@;
        let ghost (s, e, t) = (ss.skip(i as int), ends@.skip(j as int), tt.skip(k as int));
        assert(i < ss.len() ==> s.skip(1) =~= ss.skip(i + 1));
        assert(j < ends@.len() ==> e.skip(1) =~= ends@.skip(j + 1));
        assert(k < tt.len() ==> t.skip(1) =~= tt.skip(k + 1));
        if k < texts.len() && (i >= starts.len() || texts[k].0 <= starts[i].0) && (j >= ends.len()
            || texts[k].0 <= ends[j]) {
            let ev = ScanEvent::Text(texts[k].1.clone());
            out.push(ev);
            k = k + 1;
            assert(event_views(out@) =~= event_views(before).push(ev@));
            assert(event_views(out@) + merged(s, e, t.skip(1)) =~= event_views(before) + merged(
                s,
                e,
                t,
            ));
        } else if j < ends.len() && (i >= starts.len() || ends[j] <= starts[i].0) {
            let ev = ScanEvent::End;
            out.push(ev);
            j = j + 1;
            assert(event_views(out@) =~= event_views(before).push(ev@));
            assert(event_views(out@) + merged(s, e.skip(1), t) =~= event_views(before) + merged(
                s,
                e,
                t,
            ));
        } else {
            let ev = ScanEvent::Start(
                match &starts[i].1 {
                    Some(a) => Some(a.clone()),
                    None => None,
                },
            );
            out.push(ev);
            i = i + 1;
            assert(event_views(out@) =~= event_views(before).push(ev@));
            assert(event_views(out@) + merged(s.skip(1), e, t) =~= event_views(before) + merged(
                s,
                e,
                t,
            ));
        }
    }
    assert(event_views(out@) =~= merged(ss, ends@, tt));
    out
}

/// What was met, or the first error: that of the ends, the starts or the texts.
pub open spec fn joined(
    ends: Result<Seq<usize>, Seq<char>>,
    starts: Result<Seq<(usize, Option<Seq<char>>)>, Seq<char>>,
    texts: Result<Seq<(usize, Seq<char>)>, Seq<char>>,
) -> Result<Seq<EventModel>, Seq<char>> {
    match (ends, starts, texts) {
        (Ok(e), Ok(s), Ok(t)) => Ok(merged(s, e, t)),
        (Err(m), _, _) => Err(m),
        (_, Err(m), _) => Err(m),
        (_, _, Err(m)) => Err(m),
    }
}

/// What is met of the title of a page.
pub open spec fn title_events(html: Seq<u8>) -> Result<Seq<EventModel>, Seq<char>> {
    joined(Ok(seq![]), element_starts(html, "title"@, ""@), element_texts(html, "title"@))
}

/// What is met of the text of a page and of the elements whose text is not seen.
pub open spec fn text_events(html: Seq<u8>) -> Result<Seq<EventModel>, Seq<char>> {
    joined(element_ends(html, UNSEEN@), element_starts(html, UNSEEN@, ""@), page_texts(html))
}

/// What is met of the links of a page.
pub open spec fn link_events(html: Seq<u8>) -> Result<Seq<EventModel>, Seq<char>> {
    joined(
        element_ends(html, "a[href]"@),
        element_starts(html, "a[href]"@, "href"@),
        element_texts(html, "a[href]"@),
    )
}

/// What `html_escape::decode_html_entities` makes of a text.
pub uninterp spec fn unescaped(s: Seq<char>) -> Seq<char>;

/// Calls `html_escape::decode_html_entities`. The result depends on the text alone.
#[verifier::external_body]
fn unescape(s: &str) -> (r: String)
    ensures
        r@ == unescaped(s@),
{
    html_escape::decode_html_entities(s).into_owned()
}

// ---- the title -----------------------------------------------------------------

/// Whether an element that was looked for was met.
pub open spec fn starts(ev: Seq<EventModel>) -> bool {
    exists|i: int| 0 <= i < ev.len() && (#[trigger] ev[i]) is Start
}

/// All text that was met.
pub open spec fn all_text(ev: Seq<EventModel>) -> Seq<char>
    decreases ev.len(),
{
    if ev.len() == 0 {
        seq![]
    } else {
        all_text(ev.drop_last()) + (match ev.last() {
            EventModel::Text(s) => s,
            _ => seq![],
        })
    }
}

/// The title in what was met: all text inside `<title>` elements, where there is one.
pub open spec fn title_of(ev: Seq<EventModel>) -> Option<Seq<char>> {
    if starts(ev) {
        Some(all_text(ev))
    } else {
        None
    }
}

pub fn title_from(events: &Vec<ScanEvent>) -> (r: Option<String>)
    ensures
        crate::dom::text_view(r) == title_of(event_views(events@)),
{
    let ghost all = event_views(events@);
    let mut seen = false;
    let mut title = String::new();
    assert(title@ =~= all_text(all.take(0)));
    let mut i: usize = 0;
    while i < events.len()
        invariant
            i <= events@.len(),
            all == event_views(events@),
            seen == starts(all.take(i as int)),
            title@ == all_text(all.take(i as int)),
        decreases events@.len() - i,
    {
        let ghost prior = all.take(i as int);
        let ghost now = all.take(i + 1);
        assert(now.drop_last() =~= prior);
        assert(now.last() == events@[i as int]@);
        assert(now[i as int] == events@[i as int]@);
        proof {
            if starts(prior) {
                let k = choose|k: int| 0 <= k < prior.len() && (#[trigger] prior[k]) is Start;
                assert(now[k] is Start);
            } else if starts(now) {
                let k = choose|k: int| 0 <= k < now.len() && (#[trigger] now[k]) is Start;
                assert(k < i ==> prior[k] is Start);
            }
        }
        match &events[i] {
            ScanEvent::Start(_) => {
                seen = true;
            },
            ScanEvent::Text(s) => {
                title.append(s.as_str());
            },
            ScanEvent::End => {},
        }
        assert(title@ =~= all_text(now));
        i = i + 1;
    }
    assert(all.take(i as int) =~= all);
    if seen {
        Some(title)
    } else {
        None
    }
}

/// The text of the `<title>`, where there is one.
pub fn extract_title(html: &[u8]) -> (r: Result<Option<String>, Error>)
    ensures
        match r {
            Ok(t) => title_events(html@) is Ok && crate::dom::text_view(t) == title_of(
                title_events(html@)->Ok_0,
            ),
            Err(e) => title_events(html@) == Err::<Seq<EventModel>, _>(e->Rewriter_0@),
        },
{
    let ends: Vec<usize> = Vec::new();
    assert(ends@ =~= seq![]);
    match scan_starts(html, "title", "") {
        Ok(starts) => match scan_texts(html, "title") {
            Ok(texts) => Ok(title_from(&merge(&starts, &ends, &texts))),
            Err(e) => Err(Error::Rewriter(e)),
        },
        Err(e) => Err(Error::Rewriter(e)),
    }
}

// ---- the text ------------------------------------------------------------------

/// The elements whose text is not seen.
pub const UNSEEN: &'static str = "head, script, style, noscript, template";

/// How many elements have started and not ended.
pub open spec fn depth(ev: Seq<EventModel>) -> int
    decreases ev.len(),
{
    if ev.len() == 0 {
        0
    } else {
        depth(ev.drop_last()) + (match ev.last() {
            EventModel::Start(_) => 1int,
            EventModel::Text(_) => 0int,
            EventModel::End => -1int,
        })
    }
}

/// The text that was met outside the elements that were looked for, with its
/// entities decoded.
pub open spec fn visible_text(ev: Seq<EventModel>) -> Seq<char>
    decreases ev.len(),
{
    if ev.len() == 0 {
        seq![]
    } else {
        visible_text(ev.drop_last()) + (match ev.last() {
            EventModel::Text(s) => if depth(ev.drop_last()) == 0 {
                unescaped(s)
            } else {
                seq![]
            },
            _ => seq![],
        })
    }
}

pub fn text_from(events: &Vec<ScanEvent>) -> (r: String)
    ensures
        r@ == visible_text(event_views(events@)),
{
    let ghost all = event_views(events@);
    let mut started: usize = 0;
    let mut ended: usize = 0;
    let mut out = String::new();
    assert(out@ =~= visible_text(all.take(0)));
    let mut i: usize = 0;
    while i < events.len()
        invariant
            i <= events@.len(),
            all == event_views(events@),
            started <= i,
            ended <= i,
            depth(all.take(i as int)) == started - ended,
            out@ == visible_text(all.take(i as int)),
        decreases events@.len() - i,
    {
        let ghost now = all.take(i + 1);
        assert(now.drop_last() =~= all.take(i as int));
        assert(now.last() == events@[i as int]@);
        match &events[i] {
            ScanEvent::Start(_) => {
                started = started + 1;
            },
            ScanEvent::Text(s) => {
                if started == ended {
                    out.append(unescape(s.as_str()).as_str());
                }
            },
            ScanEvent::End => {
                ended = ended + 1;
            },
        }
        assert(out@ =~= visible_text(now));
        i = i + 1;
    }
    assert(all.take(i as int) =~= all);
    out
}

/// The visible text of a page: all of it but that of `<head>`, `<script>`,
/// `<style>`, `<noscript>` and `<template>`.
pub fn extract_text(html: &[u8]) -> (r: Result<String, Error>)
    ensures
        match r {
            Ok(t) => text_events(html@) is Ok && t@ == visible_text(text_events(html@)->Ok_0),
            Err(e) => text_events(html@) == Err::<Seq<EventModel>, _>(e->Rewriter_0@),
        },
{
    match scan_ends(html, UNSEEN) {
        Ok(ends) => match scan_starts(html, UNSEEN, "") {
            Ok(starts) => match scan_page(html) {
                Ok(texts) => Ok(text_from(&merge(&starts, &ends, &texts))),
                Err(e) => Err(Error::Rewriter(e)),
            },
            Err(e) => Err(Error::Rewriter(e)),
        },
        Err(e) => Err(Error::Rewriter(e)),
    }
}

// ---- the links -----------------------------------------------------------------

/// The links met so far, and the one that is still open.
#[verifier::ext_equal]
pub struct LinkScan {
    pub open: Option<(Seq<char>, Seq<char>)>,
    pub links: Seq<LinkModel>,
}

/// What an event does to the links. A link that starts takes the place of one that
/// is open; one that ends is done, with its text trimmed.
pub open spec fn link_step(s: LinkScan, base: Seq<char>, e: EventModel) -> LinkScan {
    match e {
        EventModel::Start(href) => LinkScan {
            open: Some(
                (
                    resolved_href(
                        base,
                        match href {
                            Some(h) => h,
                            None => seq![],
                        },
                    ),
                    seq![],
                ),
            ),
            ..s
        },
        EventModel::Text(t) => match s.open {
            Some((url, text)) => LinkScan { open: Some((url, text + unescaped(t))), ..s },
            None => s,
        },
        EventModel::End => match s.open {
            Some((url, text)) => LinkScan {
                open: None,
                links: s.links.push(LinkModel { url, text: trimmed(text) }),
            },
            None => s,
        },
    }
}

pub open spec fn link_scan(base: Seq<char>, ev: Seq<EventModel>) -> LinkScan
    decreases ev.len(),
{
    if ev.len() == 0 {
        LinkScan { open: None, links: seq![] }
    } else {
        link_step(link_scan(base, ev.drop_last()), base, ev.last())
    }
}

pub fn links_from(events: &Vec<ScanEvent>, base: &str) -> (r: Vec<Link>)
    ensures
        link_views(r@) == link_scan(base@, event_views(events@)).links,
{
    let ghost all = event_views(events@);
    let mut links: Vec<Link> = Vec::new();
    let mut open = false;
    let mut url = String::new();
    let mut text = String::new();
    assert(link_views(links@) =~= seq![]);
    let mut i: usize = 0;
    while i < events.len()
        invariant
            i <= events@.len(),
            all == event_views(events@),
            link_scan(base@, all.take(i as int)) == (LinkScan {
                open: if open {
                    Some((url@, text@))
                } else {
                    None
                },
                links: link_views(links@),
            }),
        decreases events@.len() - i,
    {
        let ghost before = LinkScan {
            open: if open {
                Some((url@, text@))
            } else {
                None
            },
            links: link_views(links@),
        };
        let ghost now = all.take(i + 1);
        assert(now.drop_last() =~= all.take(i as int));
        assert(now.last() == events@[i as int]@);
        match &events[i] {
            ScanEvent::Start(href) => {
                let given = match href {
                    Some(h) => h.clone(),
                    None => String::new(),
                };
                assert(href is None ==> given@ =~= seq![]);
                url = resolve_href(base, given.as_str());
                text = String::new();
                assert(text@ =~= seq![]);
                open = true;
            },
            ScanEvent::Text(s) => {
                if open {
                    text.append(unescape(s.as_str()).as_str());
                }
            },
            ScanEvent::End => {
                if open {
                    let ghost prior = links@;
                    let l = Link { url: url.clone(), text: trim(text.as_str()).to_owned() };
                    links.push(l);
                    assert(link_views(links@) =~= link_views(prior).push(l@));
                    open = false;
                }
            },
        }
        assert(link_scan(base@, now) =~= link_step(before, base@, now.last()));
        i = i + 1;
    }
    assert(all.take(i as int) =~= all);
    links
}

/// The links of a page, resolved against `base`, with their text.
pub fn extract_links(html: &[u8], base: &str) -> (r: Result<Vec<Link>, Error>)
    ensures
        match r {
            Ok(v) => link_events(html@) is Ok && link_views(v@) == link_scan(
                base@,
                link_events(html@)->Ok_0,
            ).links,
            Err(e) => link_events(html@) == Err::<Seq<EventModel>, _>(e->Rewriter_0@),
        },
{
    match scan_ends(html, "a[href]") {
        Ok(ends) => match scan_starts(html, "a[href]", "href") {
            Ok(starts) => match scan_texts(html, "a[href]") {
                Ok(texts) => Ok(links_from(&merge(&starts, &ends, &texts), base)),
                Err(e) => Err(Error::Rewriter(e)),
            },
            Err(e) => Err(Error::Rewriter(e)),
        },
        Err(e) => Err(Error::Rewriter(e)),
    }
}

// ---- laws ----------------------------------------------------------------------

/// Text inside an element that is not seen leaves no trace in the text of a page.
pub proof fn unseen_text_is_left_out(ev: Seq<EventModel>, s: Seq<char>)
    requires
        depth(ev) != 0,
    ensures
        visible_text(ev.push(EventModel::Text(s))) == visible_text(ev),
{
    assert(ev.push(EventModel::Text(s)).drop_last() =~= ev);
    assert(visible_text(ev.push(EventModel::Text(s))) =~= visible_text(ev));
}

/// A link that starts, holds some text and ends adds itself to the links before
/// it, whatever came before.
pub proof fn whole_link_is_found(ev: Seq<EventModel>, base: Seq<char>, href: Seq<char>, s: Seq<char>)
    ensures
        link_scan(
            base,
            ev.push(EventModel::Start(Some(href))).push(EventModel::Text(s)).push(EventModel::End),
        ).links == link_scan(base, ev).links.push(
            LinkModel { url: resolved_href(base, href), text: trimmed(unescaped(s)) },
        ),
{
    let a = ev.push(EventModel::Start(Some(href)));
    let b = a.push(EventModel::Text(s));
    let c = b.push(EventModel::End);
    assert(a.drop_last() =~= ev);
    assert(b.drop_last() =~= a);
    assert(c.drop_last() =~= b);
    let empty: Seq<char> = seq![];
    assert(empty + unescaped(s) =~= unescaped(s));
    assert(link_scan(base, a) == link_step(link_scan(base, ev), base, a.last()));
    assert(link_scan(base, b) == link_step(link_scan(base, a), base, b.last()));
    assert(link_scan(base, c) == link_step(link_scan(base, b), base, c.last()));
}

} // verus!
