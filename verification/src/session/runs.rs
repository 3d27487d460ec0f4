//! What whole steps come to, from call to call.
use crate::json::laws::unescaped;
use crate::json::JsonModel;
use crate::select::readable;
use crate::session::actor::{Actor, Stage, Work};
use crate::session::chain::{ChainRun, Primitive};
use crate::session::history::{History, Nav, NavStep};
use crate::session::page::{click_text_selector, page_snapshot, Hit};
use crate::session::{
    js_string, unquote_eval_result, BrowseError, BrowseErrorModel, ChainStepOutput, FormIntel,
    Target,
};
use crate::snapshot::{PageSnapshot, SnapshotOpts};
use crate::text::{has_text, pair_views};
use crate::urls::joined_url;
use crate::urls::laws::{form_fields, forms_read_back};
use vstd::prelude::*;
use vstd::string::*;
use vstd::utf8::{decode_utf8, encode_utf8_decode_utf8};

verus! {

// ---- steps ---------------------------------------------------------------------------

/// A click that finds its element and leads nowhere ends in a snapshot of the page, and
/// the session stays where it was.
pub proof fn clicks_end_in_a_snapshot(
    a: &mut Actor,
    selector: String,
    w1: Work,
    b: &mut Actor,
    value: String,
    w2: Work,
    c: &mut Actor,
    w3: Work,
    d: &mut Actor,
    html: String,
    elapsed_ms: u64,
    w4: Work,
)
    requires
        call_ensures(Actor::begin, (a, Primitive::Click(Target::Selector(selector))), w1),
        *old(b) == *final(a),
        call_ensures(Actor::evaluated, (b, Ok::<String, String>(value)), w2),
        *old(c) == *final(b),
        call_ensures(Actor::pending, (c, None::<String>), w3),
        *old(d) == *final(c),
        call_ensures(Actor::page, (d, Ok::<String, String>(html), elapsed_ms), w4),
        readable(html@),
    ensures
        w1 is Eval && w2 is Pending && w3 is Html,
        w4 is Done && w4->Done_0 is Ok && w4->Done_0->Ok_0 is Snapshot,
        w4->Done_0->Ok_0->Snapshot_0.url@ == old(a).history@.current,
        final(d).history@ == old(a).history@,
        final(d).stage is Idle,
{
    let h = old(a).history@;
    let e = *old(d);
    let snap = choose|snap: Result<PageSnapshot, BrowseError>| #[trigger]
        crate::session::page::snapshot_of(html@, e.history@.current, e.summary_bytes as int, snap)
            && final(d).stage is Idle && w4 is Done && crate::session::actor::shown(
            e.stage->Showing_0,
            snap,
            w4->Done_0,
        );
    assert(snap is Ok);
    assert(snap->Ok_0@.url == snap->Ok_0.url@);
    assert(e.history@ =~= h);
}

/// A step whose script finds no element fails with the selector; one whose script fails
/// otherwise, with the message. The session stays where it was.
pub proof fn steps_without_an_element_fail(
    a: &mut Actor,
    p: Primitive,
    selector: String,
    v: String,
    w1: Work,
    b: &mut Actor,
    message: String,
    w2: Work,
)
    requires
        p == Primitive::Click(Target::Selector(selector)) || p == Primitive::Fill(
            Target::Selector(selector),
            v,
        ) || p == Primitive::PressKey(Target::Selector(selector), v) || p
            == Primitive::SelectOption(Target::Selector(selector), v) || p == Primitive::Submit(
            Target::Selector(selector),
        ),
        call_ensures(Actor::begin, (a, p), w1),
        *old(b) == *final(a),
        call_ensures(Actor::evaluated, (b, Err::<String, String>(message)), w2),
    ensures
        w2 is Done && w2->Done_0 is Err,
        has_text(message@, "no match"@) && !has_text(message@, "no enclosing form"@)
            ==> w2->Done_0->Err_0@ == BrowseErrorModel::NoMatch(selector@),
        final(b).history@ == old(a).history@,
        final(b).stage is Idle,
{
}

/// An expression that fails ends the step with what went wrong.
pub proof fn failed_expressions_say_why(
    a: &mut Actor,
    expr: String,
    w1: Work,
    b: &mut Actor,
    message: String,
    w2: Work,
)
    requires
        call_ensures(Actor::begin, (a, Primitive::Eval(expr)), w1),
        *old(b) == *final(a),
        call_ensures(Actor::evaluated, (b, Err::<String, String>(message)), w2),
    ensures
        w1 is Eval && w1->Eval_0@ == expr@,
        w2 is Done && w2->Done_0 is Err && w2->Done_0->Err_0 is Js
            && w2->Done_0->Err_0->Js_0@ == message@,
        final(b).history@ == old(a).history@,
{
    assert(w2->Done_0->Err_0@ == BrowseErrorModel::Js(message@));
}

/// A click that leads to another page: that page is asked for with GET, and once it is
/// there the session is on it, and can go back to where it was.
pub proof fn clicks_lead_to_pages(
    a: &mut Actor,
    selector: String,
    w1: Work,
    b: &mut Actor,
    value: String,
    w2: Work,
    c: &mut Actor,
    url: String,
    w3: Work,
    d: &mut Actor,
    w4: Work,
    e: &mut Actor,
    w5: Work,
)
    requires
        call_ensures(Actor::begin, (a, Primitive::Click(Target::Selector(selector))), w1),
        *old(b) == *final(a),
        call_ensures(Actor::evaluated, (b, Ok::<String, String>(value)), w2),
        *old(c) == *final(b),
        call_ensures(Actor::pending, (c, Some(url)), w3),
        *old(d) == *final(c),
        call_ensures(Actor::loaded, (d, Ok::<(), BrowseError>(())), w4),
        *old(e) == *final(d),
        call_ensures(Actor::pending, (e, None::<String>), w5),
        old(a).history@.current.len() > 0,
        url@ != old(a).history@.current,
    ensures
        w3 is Load && w3->Load_0.url@ == url@ && w3->Load_0.method@ == "GET"@
            && w3->Load_0.body@.len() == 0,
        w4 is Pending && w5 is Html,
        final(e).history@.current == url@,
        final(e).history@.back == old(a).history@.back.push(old(a).history@.current),
        final(e).history@.forward.len() == 0,
{
    assert(w3->Load_0@.url == w3->Load_0.url@);
    assert(w3->Load_0@.body == w3->Load_0.body@);
}

/// Going back asks for the page before and is there once it has come; where it came from
/// can be gone forward to.
pub proof fn going_back_goes_back(
    a: &mut Actor,
    w1: Work,
    b: &mut Actor,
    w2: Work,
    c: &mut Actor,
    w3: Work,
)
    requires
        old(a).valid(),
        call_ensures(Actor::begin, (a, Primitive::Back), w1),
        old(a).history@.back.len() > 0,
        old(a).history@.current.len() > 0,
        *old(b) == *final(a),
        call_ensures(Actor::loaded, (b, Ok::<(), BrowseError>(())), w2),
        *old(c) == *final(b),
        call_ensures(Actor::pending, (c, None::<String>), w3),
    ensures
        w1 is Load && w1->Load_0.url@ == old(a).history@.back.last() && w1->Load_0.method@
            == "GET"@,
        final(c).history@.current == old(a).history@.back.last(),
        final(c).history@.back == old(a).history@.back.drop_last(),
        final(c).history@.forward == old(a).history@.forward.push(old(a).history@.current),
{
    assert(w1->Load_0@.url == w1->Load_0.url@);
}

/// Going forward asks for the page that was left and is there once it has come; where it
/// came from can be gone back to.
pub proof fn going_forward_goes_forward(
    a: &mut Actor,
    w1: Work,
    b: &mut Actor,
    w2: Work,
    c: &mut Actor,
    w3: Work,
)
    requires
        old(a).valid(),
        call_ensures(Actor::begin, (a, Primitive::Forward), w1),
        old(a).history@.forward.len() > 0,
        old(a).history@.current.len() > 0,
        *old(b) == *final(a),
        call_ensures(Actor::loaded, (b, Ok::<(), BrowseError>(())), w2),
        *old(c) == *final(b),
        call_ensures(Actor::pending, (c, None::<String>), w3),
    ensures
        w1 is Load && w1->Load_0.url@ == old(a).history@.forward.last() && w1->Load_0.method@
            == "GET"@,
        final(c).history@.current == old(a).history@.forward.last(),
        final(c).history@.forward == old(a).history@.forward.drop_last(),
        final(c).history@.back == old(a).history@.back.push(old(a).history@.current),
{
    assert(w1->Load_0@.url == w1->Load_0.url@);
}

/// With nowhere to go, neither does anything but fail.
pub proof fn nowhere_to_go_fails(a: &mut Actor, p: Primitive, w: Work)
    requires
        call_ensures(Actor::begin, (a, p), w),
        p is Back && old(a).history@.back.len() == 0 || p is Forward
            && old(a).history@.forward.len() == 0,
    ensures
        w is Done && w->Done_0 is Err && w->Done_0->Err_0 is Io,
        final(a).history@ == old(a).history@ && final(a).stage is Idle,
{
    assert(w->Done_0->Err_0@ is Io);
}

/// A form that is not sent with GET is posted to where its action leads, with all of its
/// fields; once the answer is there the session is on it.
pub proof fn submitted_forms_are_posted(
    a: &mut Actor,
    selector: String,
    w1: Work,
    b: &mut Actor,
    raw: String,
    w2: Work,
    c: &mut Actor,
    form: FormIntel,
    w3: Work,
    d: &mut Actor,
    w4: Work,
)
    requires
        call_ensures(Actor::begin, (a, Primitive::Submit(Target::Selector(selector))), w1),
        *old(b) == *final(a),
        call_ensures(Actor::evaluated, (b, Ok::<String, String>(raw)), w2),
        *old(c) == *final(b),
        call_ensures(Actor::described, (c, Ok::<FormIntel, String>(form)), w3),
        form.action is Some && form.action->0@.len() > 0,
        form.method@ != "GET"@,
        joined_url(old(a).history@.current, form.action->0@) is Ok,
        *old(d) == *final(c),
        call_ensures(Actor::loaded, (d, Ok::<(), BrowseError>(())), w4),
    ensures
        w1 is Eval && w2 is Form,
        w3 is Load,
        w3->Load_0.url@ == joined_url(old(a).history@.current, form.action->0@)->Ok_0,
        w3->Load_0.method@ == "POST"@,
        form_fields(decode_utf8(w3->Load_0.body@)) == pair_views(form.fields@),
        final(d).history@.current == w3->Load_0.url@,
{
    forms_read_back(pair_views(form.fields@));
    encode_utf8_decode_utf8(crate::urls::form_encoded(pair_views(form.fields@)));
    assert(w3->Load_0@.url == w3->Load_0.url@ && w3->Load_0@.method == w3->Load_0.method@);
    assert(w3->Load_0@.body == w3->Load_0.body@);
}

/// A click on a text clicks the element that the text finds, at its very place.
pub proof fn texts_are_clicked_where_they_are(
    a: &mut Actor,
    text: String,
    w1: Work,
    b: &mut Actor,
    html: String,
    elapsed_ms: u64,
    w2: Work,
)
    requires
        call_ensures(Actor::begin, (a, Primitive::ClickText(text)), w1),
        *old(b) == *final(a),
        call_ensures(Actor::page, (b, Ok::<String, String>(html), elapsed_ms), w2),
    ensures
        w1 is Html,
        exists|hit: Result<Hit, BrowseError>|
            {
                &&& #[trigger] crate::session::page::names_text(html@, text@, hit)
                &&& hit matches Ok(h) ==> w2 is Eval && w2->Eval_0@
                    == crate::session::click_nth_source(h.selector@, h.nth as int)
                &&& hit matches Err(e) ==> w2 == Work::Done(Err(e))
            },
        final(b).history@ == old(a).history@,
{
}

/// What is waited for and is not there is looked for again after the pause.
pub proof fn waits_look_again(
    a: &mut Actor,
    what: String,
    timeout_ms: u64,
    w1: Work,
    b: &mut Actor,
    html: String,
    elapsed_ms: u64,
    w2: Work,
    c: &mut Actor,
    w3: Work,
)
    requires
        call_ensures(Actor::begin, (a, Primitive::WaitFor(what, timeout_ms)), w1),
        *old(b) == *final(a),
        call_ensures(Actor::page, (b, Ok::<String, String>(html), elapsed_ms), w2),
        readable(html@),
        crate::select::matches_in(html@, what@).len() == 0,
        *old(c) == *final(b),
        call_ensures(Actor::slept, (c,), w3),
    ensures
        elapsed_ms < timeout_ms ==> w2 == Work::Sleep(50) && w3 is Html && final(c).stage
            == final(a).stage,
        elapsed_ms >= timeout_ms ==> w2 is Done && w2->Done_0 is Err,
{
}

/// What is waited for and is there ends the wait in a look at the page.
pub proof fn waits_end_when_it_is_there(
    a: &mut Actor,
    what: String,
    timeout_ms: u64,
    w1: Work,
    b: &mut Actor,
    html: String,
    elapsed_ms: u64,
    w2: Work,
)
    requires
        call_ensures(Actor::begin, (a, Primitive::WaitFor(what, timeout_ms)), w1),
        *old(b) == *final(a),
        call_ensures(Actor::page, (b, Ok::<String, String>(html), elapsed_ms), w2),
        readable(html@),
        crate::select::matches_in(html@, what@).len() > 0,
    ensures
        w1 is Html && w2 is Html && final(b).stage is Showing,
        final(b).history@ == old(a).history@,
{
}

/// A page that cannot be had from the browser ends the step with what went wrong.
pub proof fn lost_pages_end_the_step(a: &mut Actor, message: String, elapsed_ms: u64, w: Work)
    requires
        call_ensures(Actor::page, (a, Err::<String, String>(message), elapsed_ms), w),
    ensures
        w is Done && w->Done_0 is Err && w->Done_0->Err_0 is Js && w->Done_0->Err_0->Js_0@
            == message@,
        final(a).stage is Idle && final(a).history@ == old(a).history@,
{
    assert(w->Done_0->Err_0@ == BrowseErrorModel::Js(message@));
}

// ---- history -------------------------------------------------------------------------

/// What is taken off the way back is the last of it; where the session went back from can
/// then be gone forward to.
pub proof fn ways_back_are_last_first(
    a: &mut History,
    url: Result<String, BrowseError>,
    b: &mut History,
    from: String,
)
    requires
        call_ensures(History::take_back, (a,), url),
        *old(b) == *final(a),
        call_ensures(History::went_back, (b, from), ()),
        from@.len() > 0,
    ensures
        old(a)@.back.len() > 0 <==> url is Ok,
        url matches Ok(u) ==> u@ == old(a)@.back.last() && final(a)@.back
            == old(a)@.back.drop_last() && final(b)@.forward == old(a)@.forward.push(from@)
            && final(b)@.back == final(a)@.back && final(b)@.current == old(a)@.current,
{
}

/// The way forward is taken in the same manner.
pub proof fn ways_forward_are_last_first(
    a: &mut History,
    url: Result<String, BrowseError>,
    b: &mut History,
    from: String,
)
    requires
        call_ensures(History::take_forward, (a,), url),
        *old(b) == *final(a),
        call_ensures(History::went_forward, (b, from), ()),
        from@.len() > 0,
    ensures
        old(a)@.forward.len() > 0 <==> url is Ok,
        url matches Ok(u) ==> u@ == old(a)@.forward.last() && final(a)@.forward
            == old(a)@.forward.drop_last() && final(b)@.back == old(a)@.back.push(from@)
            && final(b)@.forward == final(a)@.forward && final(b)@.current == old(a)@.current,
{
}

/// A visit that arrives: the session is there, can go back to where it was, and can no
/// longer go forward.
pub proof fn arrivals_are_recorded(
    h: &History,
    url: &str,
    nav: Nav,
    a: &mut History,
    step: NavStep,
)
    requires
        call_ensures(History::begin, (h, url, true), nav),
        *old(a) == *h,
        call_ensures(History::loaded, (a, nav, None::<String>), step),
        h@.current.len() > 0,
        h@.current != url@,
    ensures
        step is Arrived,
        final(a)@.current == url@,
        final(a)@.back == h@.back.push(h@.current),
        final(a)@.forward.len() == 0,
{
}

/// A page that leads on is followed, up to ten times.
pub proof fn pages_are_followed_ten_times(a: &mut History, nav: Nav, next: String, step: NavStep)
    requires
        call_ensures(History::loaded, (a, nav, Some(next)), step),
    ensures
        nav.loads < 10 ==> step is Load && step->Load_0.url@ == next@ && step->Load_0.loads
            == nav.loads + 1 && step->Load_0.prev@ == nav.prev@,
        nav.loads >= 10 ==> step is Fail && step->Fail_0 is Io,
        final(a)@.current == nav.url@ && final(a)@.back == old(a)@.back && final(a)@.forward
            == old(a)@.forward,
{
    if nav.loads >= 10 {
        assert(step->Fail_0@ is Io);
    }
}

/// The pages that an action leads to are counted the same way.
pub proof fn actions_lead_on_ten_times(loads: u32, r: Result<(), BrowseError>)
    requires
        call_ensures(History::may_drain, (loads,), r),
    ensures
        r is Ok <==> loads <= 10,
{
}

/// After an action that left the page, the session is where it landed, and can go back.
pub proof fn landings_are_recorded(a: &mut History, url: &str, b: &mut History, prev: String)
    requires
        call_ensures(History::landed, (a, url), ()),
        *old(b) == *final(a),
        call_ensures(History::settled, (b, prev), ()),
        prev@.len() > 0,
        prev@ != url@,
    ensures
        final(b)@.current == url@,
        final(b)@.back == old(a)@.back.push(prev@),
        final(b)@.forward.len() == 0,
{
}

// ---- chains --------------------------------------------------------------------------

/// A chain takes its steps in order, each once, and stops at the first that fails.
pub proof fn chains_take_their_steps_in_order(
    steps: Vec<Primitive>,
    run: ChainRun,
    a: &mut ChainRun,
    p: Option<Primitive>,
    b: &mut ChainRun,
    result: Result<ChainStepOutput, BrowseError>,
    c: &mut ChainRun,
    q: Option<Primitive>,
)
    requires
        call_ensures(ChainRun::new, (steps,), run),
        *old(a) == run,
        call_ensures(ChainRun::next, (a,), p),
        *old(b) == *final(a),
        call_ensures(ChainRun::record, (b, result), ()),
        *old(c) == *final(b),
        call_ensures(ChainRun::next, (c,), q),
    ensures
        steps@.len() == 0 ==> p is None,
        steps@.len() > 0 ==> p == Some(steps@[0]),
        steps@.len() > 1 && result is Ok ==> q == Some(steps@[1]),
        result is Err ==> q is None && final(c).failed == Some(result->Err_0),
        result matches Ok(out) ==> final(c).outputs@ == seq![out],
{
    if result is Ok {
        assert(final(c).outputs@ =~= seq![result->Ok_0]);
    }
}

// ---- texts in scripts ----------------------------------------------------------------

/// A text within a script is quoted, and reads back as it was.
pub proof fn script_texts_are_quoted(s: &str, r: String)
    requires
        call_ensures(js_string, (s,), r),
    ensures
        r@.len() >= 2 && r@[0] == '"' && r@.last() == '"',
        unescaped(r@.subrange(1, r@.len() - 1)) == s@,
{
    crate::json::laws::quotes_enclose(s@);
}

/// A result that is a JSON string is what the string holds; any other is itself.
pub proof fn results_are_unquoted(s: &str, r: String, t: Seq<char>)
    requires
        call_ensures(unquote_eval_result, (s,), r),
    ensures
        crate::json::json_in(s@) == Some(JsonModel::Text(t)) ==> r@ == t,
        crate::json::json_in(s@) is None ==> r@ == s@,
        crate::json::json_in(s@) matches Some(j) ==> !(j is Text) ==> r@ == s@,
{
}

/// A snapshot of a page has its URL, and there is one of every page that can be read.
pub proof fn readable_pages_have_snapshots(
    html: &str,
    url: &str,
    opts: SnapshotOpts,
    r: Result<PageSnapshot, BrowseError>,
)
    requires
        call_ensures(page_snapshot, (html, url, opts), r),
    ensures
        r is Ok <==> readable(html@),
        r matches Ok(s) ==> s.url@ == url@,
{
    if r is Ok {
        assert(r->Ok_0@.url == r->Ok_0.url@);
    }
}

/// A text is clicked on the page only where the page can be read.
pub proof fn unreadable_pages_are_not_clicked(html: &str, text: &str, r: Result<Hit, BrowseError>)
    requires
        call_ensures(click_text_selector, (html, text), r),
        !readable(html@),
    ensures
        r is Err && r->Err_0 is Dom,
{
}

} // verus!
