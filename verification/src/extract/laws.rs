//! What is read off a page, in terms of what the page holds.
use crate::extract::{
    all_text, depth, element_ends, element_starts, element_texts, event_views, extract_links,
    extract_text, extract_title, link_scan, link_step, link_views, links_from, merged, page_texts,
    starts, text_from, title_from, unescaped, visible_text, Error, EventModel, Link, LinkModel,
    LinkScan, ScanEvent,
};
use crate::text::trimmed;
use crate::urls::joined_url;
use vstd::prelude::*;
use vstd::string::*;

verus! {

// ---- the order of events -----------------------------------------------------------

/// The events of a page keep every start, end and text, each kind in its own order.
pub proof fn events_keep_everything(
    s: Seq<(usize, Option<Seq<char>>)>,
    e: Seq<usize>,
    t: Seq<(usize, Seq<char>)>,
)
    ensures
        merged(s, e, t).len() == s.len() + e.len() + t.len(),
        merged(s, e, t).filter(|ev: EventModel| ev is Start) == s.map_values(
            |x: (usize, Option<Seq<char>>)| EventModel::Start(x.1),
        ),
        merged(s, e, t).filter(|ev: EventModel| ev is Text) == t.map_values(
            |x: (usize, Seq<char>)| EventModel::Text(x.1),
        ),
        merged(s, e, t).filter(|ev: EventModel| ev is End) == e.map_values(
            |x: usize| EventModel::End,
        ),
    decreases s.len() + e.len() + t.len(),
{
    let ps = |ev: EventModel| ev is Start;
    let pt = |ev: EventModel| ev is Text;
    let pe = |ev: EventModel| ev is End;
    let ms = |x: (usize, Option<Seq<char>>)| EventModel::Start(x.1);
    let mt = |x: (usize, Seq<char>)| EventModel::Text(x.1);
    let me = |x: usize| EventModel::End;
    if t.len() > 0 && (s.len() == 0 || t[0].0 <= s[0].0) && (e.len() == 0 || t[0].0 <= e[0]) {
        let rest = merged(s, e, t.skip(1));
        events_keep_everything(s, e, t.skip(1));
        filter_from_front(EventModel::Text(t[0].1), rest, ps);
        filter_from_front(EventModel::Text(t[0].1), rest, pt);
        filter_from_front(EventModel::Text(t[0].1), rest, pe);
        assert(seq![EventModel::Text(t[0].1)] + t.skip(1).map_values(mt) =~= t.map_values(mt));
    } else if e.len() > 0 && (s.len() == 0 || e[0] <= s[0].0) {
        let rest = merged(s, e.skip(1), t);
        events_keep_everything(s, e.skip(1), t);
        filter_from_front(EventModel::End, rest, ps);
        filter_from_front(EventModel::End, rest, pt);
        filter_from_front(EventModel::End, rest, pe);
        assert(seq![EventModel::End] + e.skip(1).map_values(me) =~= e.map_values(me));
    } else if s.len() > 0 {
        let rest = merged(s.skip(1), e, t);
        events_keep_everything(s.skip(1), e, t);
        filter_from_front(EventModel::Start(s[0].1), rest, ps);
        filter_from_front(EventModel::Start(s[0].1), rest, pt);
        filter_from_front(EventModel::Start(s[0].1), rest, pe);
        assert(seq![EventModel::Start(s[0].1)] + s.skip(1).map_values(ms) =~= s.map_values(ms));
    } else {
        reveal(Seq::filter);
        assert(s.map_values(ms) =~= seq![]);
        assert(t.map_values(mt) =~= seq![]);
        assert(e.map_values(me) =~= seq![]);
        assert(merged(s, e, t).filter(ps) =~= seq![]);
        assert(merged(s, e, t).filter(pt) =~= seq![]);
        assert(merged(s, e, t).filter(pe) =~= seq![]);
    }
}

proof fn filter_from_front(x: EventModel, s: Seq<EventModel>, p: spec_fn(EventModel) -> bool)
    ensures
        (seq![x] + s).filter(p) == (if p(x) {
            seq![x] + s.filter(p)
        } else {
            s.filter(p)
        }),
    decreases s.len(),
{
    reveal(Seq::filter);
    let all = seq![x] + s;
    if s.len() == 0 {
        assert(all.drop_last() =~= seq![]);
        assert(all.drop_last().filter(p) =~= seq![]);
        assert(s.filter(p) =~= seq![]);
        assert(all.last() == x);
        if p(x) {
            assert(all.filter(p) =~= seq![x]);
        }
    } else {
        assert(all.drop_last() =~= seq![x] + s.drop_last());
        assert(all.last() == s.last());
        filter_from_front(x, s.drop_last(), p);
        if p(x) && p(s.last()) {
            assert((seq![x] + s.drop_last().filter(p)).push(s.last()) =~= seq![x]
                + s.drop_last().filter(p).push(s.last()));
        }
    }
}

/// Whatever stands before a place in the page comes before whatever stands behind it.
pub proof fn events_come_in_page_order(
    s1: Seq<(usize, Option<Seq<char>>)>,
    e1: Seq<usize>,
    t1: Seq<(usize, Seq<char>)>,
    s2: Seq<(usize, Option<Seq<char>>)>,
    e2: Seq<usize>,
    t2: Seq<(usize, Seq<char>)>,
    place: usize,
)
    requires
        forall|i: int| 0 <= i < s1.len() ==> (#[trigger] s1[i]).0 < place,
        forall|i: int| 0 <= i < e1.len() ==> #[trigger] e1[i] < place,
        forall|i: int| 0 <= i < t1.len() ==> (#[trigger] t1[i]).0 < place,
        forall|i: int| 0 <= i < s2.len() ==> (#[trigger] s2[i]).0 >= place,
        forall|i: int| 0 <= i < e2.len() ==> #[trigger] e2[i] >= place,
        forall|i: int| 0 <= i < t2.len() ==> (#[trigger] t2[i]).0 >= place,
    ensures
        merged(s1 + s2, e1 + e2, t1 + t2) == merged(s1, e1, t1) + merged(s2, e2, t2),
    decreases s1.len() + e1.len() + t1.len(),
{
    let s = s1 + s2;
    let e = e1 + e2;
    let t = t1 + t2;
    if s1.len() > 0 {
        assert(s[0] == s1[0]);
        assert(s.skip(1) =~= s1.skip(1) + s2);
    } else {
        assert(s =~= s2);
        assert(s.len() > 0 ==> s[0] == s2[0]);
    }
    if e1.len() > 0 {
        assert(e[0] == e1[0]);
        assert(e.skip(1) =~= e1.skip(1) + e2);
    } else {
        assert(e =~= e2);
        assert(e.len() > 0 ==> e[0] == e2[0]);
    }
    if t1.len() > 0 {
        assert(t[0] == t1[0]);
        assert(t.skip(1) =~= t1.skip(1) + t2);
    } else {
        assert(t =~= t2);
        assert(t.len() > 0 ==> t[0] == t2[0]);
    }
    let rest = merged(s2, e2, t2);
    if t1.len() > 0 && (s1.len() == 0 || t1[0].0 <= s1[0].0) && (e1.len() == 0 || t1[0].0
        <= e1[0]) {
        events_come_in_page_order(s1, e1, t1.skip(1), s2, e2, t2, place);
        assert(seq![EventModel::Text(t[0].1)] + (merged(s1, e1, t1.skip(1)) + rest) =~= seq![
            EventModel::Text(t[0].1),
        ] + merged(s1, e1, t1.skip(1)) + rest);
    } else if e1.len() > 0 && (s1.len() == 0 || e1[0] <= s1[0].0) {
        events_come_in_page_order(s1, e1.skip(1), t1, s2, e2, t2, place);
        assert(seq![EventModel::End] + (merged(s1, e1.skip(1), t1) + rest) =~= seq![
            EventModel::End,
        ] + merged(s1, e1.skip(1), t1) + rest);
    } else if s1.len() > 0 {
        events_come_in_page_order(s1.skip(1), e1, t1, s2, e2, t2, place);
        assert(seq![EventModel::Start(s[0].1)] + (merged(s1.skip(1), e1, t1) + rest) =~= seq![
            EventModel::Start(s[0].1),
        ] + merged(s1.skip(1), e1, t1) + rest);
    } else {
        assert(seq![] + rest =~= rest);
        assert(merged(s1, e1, t1) =~= seq![]);
        assert(merged(s1, e1, t1) + rest =~= rest);
    }
}

// ---- the title -----------------------------------------------------------------------

/// The title is every piece of text in the page's title elements, in order, as it stands;
/// there is one if and only if a title element starts.
pub proof fn titles_are_all_their_text(
    html: &[u8],
    r: Result<Option<String>, Error>,
    s: Seq<(usize, Option<Seq<char>>)>,
    t: Seq<(usize, Seq<char>)>,
)
    requires
        call_ensures(extract_title, (html,), r),
        element_starts(html@, "title"@, ""@) == Ok::<_, Seq<char>>(s),
        element_texts(html@, "title"@) == Ok::<_, Seq<char>>(t),
    ensures
        r is Ok,
        r->Ok_0 is Some <==> s.len() > 0,
        r->Ok_0 matches Some(title) ==> title@ == t.map_values(
            |x: (usize, Seq<char>)| x.1,
        ).flatten(),
{
    let none: Seq<usize> = seq![];
    let ev = merged(s, none, t);
    events_keep_everything(s, none, t);
    all_text_is_flat(ev);
    let ps = |e: EventModel| e is Start;
    let ms = |x: (usize, Option<Seq<char>>)| EventModel::Start(x.1);
    if starts(ev) {
        let i = choose|i: int| 0 <= i < ev.len() && (#[trigger] ev[i]) is Start;
        kept_by_filter(ev, ps, i);
        assert(s.map_values(ms).len() == s.len());
    }
    if s.len() > 0 {
        assert(ev.filter(ps).len() > 0);
        let x = ev.filter(ps)[0];
        assert(x == s.map_values(ms)[0]);
        assert(ev.filter(ps).contains(x));
        kept_is_there(ev, ps, 0);
    }
    let mt = |x: (usize, Seq<char>)| EventModel::Text(x.1);
    let words = t.map_values(mt).map_values(
        |e: EventModel|
            match e {
                EventModel::Text(s) => s,
                _ => seq![],
            },
    );
    assert(words =~= t.map_values(|x: (usize, Seq<char>)| x.1));
}

proof fn kept_by_filter(s: Seq<EventModel>, p: spec_fn(EventModel) -> bool, i: int)
    requires
        0 <= i < s.len(),
        p(s[i]),
    ensures
        s.filter(p).len() > 0,
    decreases s.len(),
{
    reveal(Seq::filter);
    if i < s.len() - 1 {
        kept_by_filter(s.drop_last(), p, i);
    }
}

proof fn kept_is_there(s: Seq<EventModel>, p: spec_fn(EventModel) -> bool, i: int)
    requires
        0 <= i < s.filter(p).len(),
    ensures
        exists|j: int| 0 <= j < s.len() && #[trigger] s[j] == s.filter(p)[i] && p(s[j]),
    decreases s.len(),
{
    reveal(Seq::filter);
    if s.len() > 0 {
        let before = s.drop_last().filter(p);
        if i < before.len() {
            kept_is_there(s.drop_last(), p, i);
            let j = choose|j: int|
                0 <= j < s.drop_last().len() && #[trigger] s.drop_last()[j] == before[i] && p(
                    s.drop_last()[j],
                );
            assert(s[j] == s.drop_last()[j]);
            assert(s.filter(p)[i] == before[i]);
        } else {
            assert(s[s.len() - 1] == s.filter(p)[i]);
        }
    }
}

proof fn all_text_is_flat(ev: Seq<EventModel>)
    ensures
        all_text(ev) == ev.filter(|e: EventModel| e is Text).map_values(
            |e: EventModel|
                match e {
                    EventModel::Text(s) => s,
                    _ => seq![],
                },
        ).flatten(),
    decreases ev.len(),
{
    reveal(Seq::filter);
    let p = |e: EventModel| e is Text;
    let f = |e: EventModel|
        match e {
            EventModel::Text(s) => s,
            _ => seq![],
        };
    if ev.len() == 0 {
        assert(ev.filter(p).map_values(f) =~= seq![]);
    } else {
        all_text_is_flat(ev.drop_last());
        let before = ev.drop_last().filter(p).map_values(f);
        if ev.last() is Text {
            assert(ev.filter(p).map_values(f) =~= before.push(ev.last()->Text_0));
            before.lemma_flatten_push(ev.last()->Text_0);
        } else {
            assert(all_text(ev) =~= all_text(ev.drop_last()));
        }
    }
}

// ---- the text ------------------------------------------------------------------------

/// How often an unseen element has started, less how often one has ended.
proof fn depth_counts(ev: Seq<EventModel>)
    ensures
        depth(ev) == ev.filter(|e: EventModel| e is Start).len() - ev.filter(
            |e: EventModel| e is End,
        ).len(),
    decreases ev.len(),
{
    reveal(Seq::filter);
    if ev.len() > 0 {
        depth_counts(ev.drop_last());
    }
}

/// A piece of text is seen if and only if every unseen element that started before it has
/// ended; what is seen is added behind what was, with its character references read.
pub proof fn text_is_seen_outside_unseen_elements(
    before: &Vec<ScanEvent>,
    s: String,
    after: &Vec<ScanEvent>,
    a: String,
    b: String,
)
    requires
        after@ == before@.push(ScanEvent::Text(s)),
        call_ensures(text_from, (before,), a),
        call_ensures(text_from, (after,), b),
    ensures
        event_views(before@).filter(|e: EventModel| e is Start).len() == event_views(
            before@,
        ).filter(|e: EventModel| e is End).len() ==> b@ == a@ + unescaped(s@),
        event_views(before@).filter(|e: EventModel| e is Start).len() != event_views(
            before@,
        ).filter(|e: EventModel| e is End).len() ==> b@ == a@,
{
    depth_counts(event_views(before@));
    let v = event_views(after@);
    assert(v =~= event_views(before@).push(EventModel::Text(s@)));
    assert(v.drop_last() =~= event_views(before@));
    assert(visible_text(v.drop_last()) + seq![] =~= visible_text(v.drop_last()));
}

/// A start or an end is no text.
pub proof fn tags_are_no_text(
    before: &Vec<ScanEvent>,
    tag: ScanEvent,
    after: &Vec<ScanEvent>,
    a: String,
    b: String,
)
    requires
        !(tag is Text),
        after@ == before@.push(tag),
        call_ensures(text_from, (before,), a),
        call_ensures(text_from, (after,), b),
    ensures
        b@ == a@,
{
    let v = event_views(after@);
    assert(v =~= event_views(before@).push(tag@));
    assert(v.drop_last() =~= event_views(before@));
    assert(visible_text(v.drop_last()) + seq![] =~= visible_text(v.drop_last()));
}

/// The page's text is what is seen of all its text, where what is in the head, in scripts,
/// styles, noscripts and templates is not.
pub proof fn page_text_is_what_is_seen(
    html: &[u8],
    r: Result<String, Error>,
    s: Seq<(usize, Option<Seq<char>>)>,
    e: Seq<usize>,
    t: Seq<(usize, Seq<char>)>,
    events: &Vec<ScanEvent>,
    seen: String,
)
    requires
        call_ensures(extract_text, (html,), r),
        element_starts(html@, "head, script, style, noscript, template"@, ""@) == Ok::<
            _,
            Seq<char>,
        >(s),
        element_ends(html@, "head, script, style, noscript, template"@) == Ok::<_, Seq<char>>(e),
        page_texts(html@) == Ok::<_, Seq<char>>(t),
        event_views(events@) == merged(s, e, t),
        call_ensures(text_from, (events,), seen),
    ensures
        r is Ok,
        r->Ok_0@ == seen@,
{
}

// ---- the links -----------------------------------------------------------------------

/// The pieces of text within a link, as events.
pub open spec fn pieces_of_text(pieces: Seq<Seq<char>>) -> Seq<EventModel> {
    pieces.map_values(|s: Seq<char>| EventModel::Text(s))
}

/// A link that starts, holds any number of pieces of text and ends is added behind the
/// links before it. Its text is all the pieces, in order, their character references
/// read, without the space around the whole. Its URL is its target, resolved against the
/// page's where that can be done.
pub proof fn links_hold_all_their_text(
    before: &Vec<ScanEvent>,
    href: Option<Seq<char>>,
    pieces: Seq<Seq<char>>,
    after: &Vec<ScanEvent>,
    base: &str,
    a: Vec<Link>,
    b: Vec<Link>,
)
    requires
        event_views(after@) == event_views(before@) + seq![EventModel::Start(href)]
            + pieces_of_text(pieces) + seq![EventModel::End],
        call_ensures(links_from, (before, base), a),
        call_ensures(links_from, (after, base), b),
    ensures
        b@.len() == a@.len() + 1,
        link_views(b@).take(a@.len() as int) == link_views(a@),
        b@.last().text@ == trimmed(
            pieces.map_values(|s: Seq<char>| unescaped(s)).flatten(),
        ),
        href matches Some(h) ==> joined_url(base@, h) matches Ok(u) ==> b@.last().url@ == u,
        href matches Some(h) ==> joined_url(base@, h) is Err ==> b@.last().url@ == h,
{
    let v = event_views(before@);
    let opened = v + seq![EventModel::Start(href)];
    let held = opened + pieces_of_text(pieces);
    let all = event_views(after@);
    assert(opened.drop_last() =~= v);
    assert(all.drop_last() =~= held);
    assert(all.last() == EventModel::End);
    pieces_add_up(base@, opened, pieces);
    let (url, _) = link_scan(base@, opened).open->0;
    let text = pieces.map_values(|s: Seq<char>| unescaped(s)).flatten();
    let none: Seq<char> = seq![];
    assert(none + text =~= text);
    let was = link_scan(base@, v).links;
    let now = link_scan(base@, all).links;
    assert(now == was.push(LinkModel { url, text: trimmed(text) }));
    assert(link_views(b@) == now);
    assert(link_views(a@) == was);
    assert(link_views(b@).len() == b@.len());
    assert(link_views(a@).len() == a@.len());
    assert(now.take(was.len() as int) =~= was);
    assert(link_views(b@)[b@.len() - 1] == b@.last()@);
}

proof fn pieces_add_up(base: Seq<char>, opened: Seq<EventModel>, pieces: Seq<Seq<char>>)
    requires
        link_scan(base, opened).open is Some,
    ensures
        ({
            let a = link_scan(base, opened);
            let b = link_scan(base, opened + pieces_of_text(pieces));
            let text = pieces.map_values(|s: Seq<char>| unescaped(s)).flatten();
            let (url, held) = a.open->0;
            b.links == a.links && b.open == Some((url, held + text))
        }),
    decreases pieces.len(),
{
    let f = |s: Seq<char>| unescaped(s);
    let a = link_scan(base, opened);
    let b = opened + pieces_of_text(pieces);
    let (url, held) = a.open->0;
    if pieces.len() == 0 {
        assert(b =~= opened);
        assert(pieces.map_values(f) =~= seq![]);
        assert(held + seq![] =~= held);
    } else {
        let fewer = pieces.drop_last();
        pieces_add_up(base, opened, fewer);
        assert(b.drop_last() =~= opened + pieces_of_text(fewer));
        assert(b.last() == EventModel::Text(pieces.last()));
        assert(pieces.map_values(f) =~= fewer.map_values(f).push(unescaped(pieces.last())));
        fewer.map_values(f).lemma_flatten_push(unescaped(pieces.last()));
        assert(held + fewer.map_values(f).flatten() + unescaped(pieces.last()) =~= held
            + pieces.map_values(f).flatten());
    }
}

/// Outside a link nothing is added: neither by text nor by an end.
pub proof fn nothing_outside_a_link_is_one(
    before: &Vec<ScanEvent>,
    event: ScanEvent,
    after: &Vec<ScanEvent>,
    base: &str,
    a: Vec<Link>,
    b: Vec<Link>,
)
    requires
        event is End,
        after@ == before@.push(event),
        before@.len() == 0 || before@.last() is End,
        call_ensures(links_from, (before, base), a),
        call_ensures(links_from, (after, base), b),
    ensures
        link_views(b@) == link_views(a@),
{
    let v = event_views(after@);
    assert(v =~= event_views(before@).push(event@));
    assert(v.drop_last() =~= event_views(before@));
    let u = event_views(before@);
    if u.len() > 0 {
        assert(u.last() == before@.last()@);
    }
}

/// What has been found stays: whatever comes later only adds links.
pub proof fn found_links_stay(
    before: &Vec<ScanEvent>,
    event: ScanEvent,
    after: &Vec<ScanEvent>,
    base: &str,
    a: Vec<Link>,
    b: Vec<Link>,
)
    requires
        after@ == before@.push(event),
        call_ensures(links_from, (before, base), a),
        call_ensures(links_from, (after, base), b),
    ensures
        a@.len() <= b@.len(),
        link_views(b@).take(a@.len() as int) == link_views(a@),
        !(event is End) ==> b@.len() == a@.len(),
{
    let v = event_views(after@);
    assert(v =~= event_views(before@).push(event@));
    assert(v.drop_last() =~= event_views(before@));
    assert(link_views(b@).len() == b@.len());
    assert(link_views(a@).len() == a@.len());
    assert(link_views(b@).take(a@.len() as int) =~= link_views(a@));
}

/// The page's links are those of its elements `a` with a target, in page order.
pub proof fn page_links_are_its_anchors(
    html: &[u8],
    base: &str,
    r: Result<Vec<Link>, Error>,
    s: Seq<(usize, Option<Seq<char>>)>,
    e: Seq<usize>,
    t: Seq<(usize, Seq<char>)>,
    events: &Vec<ScanEvent>,
    found: Vec<Link>,
)
    requires
        call_ensures(extract_links, (html, base), r),
        element_starts(html@, "a[href]"@, "href"@) == Ok::<_, Seq<char>>(s),
        element_ends(html@, "a[href]"@) == Ok::<_, Seq<char>>(e),
        element_texts(html@, "a[href]"@) == Ok::<_, Seq<char>>(t),
        event_views(events@) == merged(s, e, t),
        call_ensures(links_from, (events, base), found),
    ensures
        r is Ok,
        link_views(r->Ok_0@) == link_views(found@),
{
}

} // verus!
