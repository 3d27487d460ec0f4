//! A session at work: what it needs next to carry out a step, and what it makes of
//! what it is given.
use crate::dom::text_view;
use crate::fetch::client::{FetchRequest, RequestModel};
use crate::session::chain::Primitive;
use crate::session::history::{
    arrived, forward_undoes_back, gone_back, gone_forward, no_blanks, visit_is_undone_by_back,
    History, HistoryModel, Nav, NavStep,
};
use crate::session::page::{
    click_text_selector, names_text, page_snapshot, read_page, reads, resolve_target, snapshot_of,
    wait_for_selector, wait_for_text, waits_for_selector, waits_for_text, Hit, WaitStep,
};
use crate::session::{
    click_nth_script, click_nth_source, click_script, click_source, fill_script, fill_source,
    form_error, form_failure, form_script, form_source, form_unread, key_script, key_source,
    option_error, option_failure, plan_submit, script_error, script_failure, select_script,
    select_source, submits, unquote_eval_result, unquoted_result, unread_form, BrowseError,
    BrowseErrorModel, ChainStepOutput, FormIntel, ReadMode, SubmitPlan, Target, MAX_NAV_HOPS,
};
use crate::snapshot::{selector_at, PageSnapshot, SnapshotOpts};
use crate::text::decimal;
use vstd::prelude::*;
use vstd::string::*;

verus! {

/// What a session needs from outside.
pub enum Work {
    /// Fetch a page, load it, and run its scripts.
    Load(FetchRequest),
    /// Run a script on the page.
    Eval(String),
    /// Read this text as the description of a form in JSON.
    Form(String),
    /// Say which page the scripts have asked for.
    Pending,
    /// Give the page as HTML.
    Html,
    /// Let this many milliseconds pass.
    Sleep(u64),
    /// Nothing: the step is over.
    Done(Result<ChainStepOutput, BrowseError>),
}

/// Where a navigation leads in the history, and from where.
pub enum Trip {
    Away,
    Back(String),
    Forward(String),
}

/// The text of a [`Trip`].
pub enum TripModel {
    Away,
    Back(Seq<char>),
    Forward(Seq<char>),
}

impl View for Trip {
    type V = TripModel;

    open spec fn view(&self) -> TripModel {
        match *self {
            Trip::Away => TripModel::Away,
            Trip::Back(s) => TripModel::Back(s@),
            Trip::Forward(s) => TripModel::Forward(s@),
        }
    }
}

/// What is waited for, and for how many milliseconds.
pub enum Wait {
    Selector(String, u64),
    Text(String, u64),
}

/// How far a step has come.
pub enum Stage {
    /// No step is under way.
    Idle,
    /// The page is to tell which element an index stands for.
    Resolving(Primitive),
    /// A script works on an element; where it chooses an option, with its value.
    Acting(String, Option<String>),
    /// A script describes the form at an element.
    Forming(String),
    /// What the script gave for the form at an element is read.
    Describing(String, String),
    /// A form is posted; its answer is the page at this URL.
    Posting(String),
    /// The page handles its form.
    Dispatching,
    /// An expression is evaluated.
    Evaluating,
    /// A page of a navigation is loaded.
    Loading(Nav, Trip),
    /// The page is loaded, and its scripts may ask for another.
    Arriving(Nav, Trip),
    /// From this page on, and after this many others, the scripts may ask for another;
    /// with what was evaluated.
    Draining(String, u32, Option<String>),
    /// The page at the first URL, which the scripts asked for, is loaded; the rest is as
    /// in `Draining`.
    Following(String, String, u32, Option<String>),
    /// The page is to be shown, with what was evaluated.
    Showing(Option<String>),
    Reading(String, ReadMode),
    /// The page is to tell which element has a text.
    Choosing(String),
    /// The page is looked at for what is waited for.
    Waiting(Wait),
    /// The next look is due later.
    Napping(Wait),
    /// A pause.
    Resting,
}

/// A session: where it is, and what it is doing.
pub struct Actor {
    pub history: History,
    pub stage: Stage,
    /// The most bytes of text in a snapshot.
    pub summary_bytes: usize,
}

// ---- what a step comes to ------------------------------------------------------

/// A plain request for a page.
pub open spec fn get_request(url: Seq<char>) -> RequestModel {
    RequestModel { url, method: "GET"@, headers: seq![], body: seq![] }
}

/// What is needed is what the stage waits for.
pub open spec fn fits(s: Stage, w: Work) -> bool {
    match s {
        Stage::Idle => w is Done,
        Stage::Acting(_, _) | Stage::Forming(_) | Stage::Dispatching | Stage::Evaluating => w is Eval,
        Stage::Describing(_, _) => w is Form,
        Stage::Posting(_) | Stage::Loading(_, _) | Stage::Following(_, _, _, _) => w is Load,
        Stage::Arriving(_, _) | Stage::Draining(_, _, _) => w is Pending,
        Stage::Resolving(_) | Stage::Showing(_) | Stage::Reading(_, _) | Stage::Choosing(_)
        | Stage::Waiting(_) => w is Html,
        Stage::Napping(_) | Stage::Resting => w is Sleep,
    }
}

/// The step fails.
pub open spec fn fails(b: Actor, w: Work, e: BrowseErrorModel) -> bool {
    b.stage is Idle && w is Done && w->Done_0 is Err && w->Done_0->Err_0@ == e
}

/// The page is shown next.
pub open spec fn shows(b: Actor, w: Work, result: Option<Seq<char>>) -> bool {
    w is Html && b.stage is Showing && text_view(b.stage->Showing_0) == result
}

/// The page that the scripts ask for is looked at next.
pub open spec fn drains(
    b: Actor,
    w: Work,
    from: Seq<char>,
    loads: int,
    result: Option<Seq<char>>,
) -> bool {
    &&& w is Pending && b.stage is Draining
    &&& b.stage->Draining_0@ == from
    &&& b.stage->Draining_1 == loads
    &&& text_view(b.stage->Draining_2) == result
}

/// A script works on an element next.
pub open spec fn acts(
    b: Actor,
    w: Work,
    source: Seq<char>,
    selector: Seq<char>,
    option: Option<Seq<char>>,
) -> bool {
    &&& w is Eval && w->Eval_0@ == source
    &&& b.stage is Acting && b.stage->Acting_0@ == selector && text_view(b.stage->Acting_1)
        == option
}

/// A page of a navigation is loaded next.
pub open spec fn travels(
    b: Actor,
    w: Work,
    url: Seq<char>,
    prev: Seq<char>,
    recorded: bool,
    loads: int,
    trip: TripModel,
) -> bool {
    &&& w is Load && w->Load_0@ == get_request(url)
    &&& b.stage is Loading
    &&& b.stage->Loading_0.url@ == url
    &&& b.stage->Loading_0.prev@ == prev
    &&& b.stage->Loading_0.recorded == recorded
    &&& b.stage->Loading_0.loads == loads
    &&& b.stage->Loading_1@ == trip
}

/// The element that a step is about, where it is about one.
pub open spec fn target_of(p: Primitive) -> Option<Target> {
    match p {
        Primitive::Click(t) => Some(t),
        Primitive::Fill(t, _) => Some(t),
        Primitive::Submit(t) => Some(t),
        Primitive::Read(t, _) => Some(t),
        Primitive::SelectOption(t, _) => Some(t),
        Primitive::PressKey(t, _) => Some(t),
        _ => None,
    }
}

/// What a step on an element comes to once its selector is known.
pub open spec fn on_element(p: Primitive, s: Seq<char>, w: Work, b: Actor) -> bool {
    match p {
        Primitive::Click(_) => acts(b, w, click_source(s), s, None),
        Primitive::Fill(_, v) => acts(b, w, fill_source(s, v@), s, None),
        Primitive::SelectOption(_, v) => acts(b, w, select_source(s, v@), s, Some(v@)),
        Primitive::PressKey(_, k) => acts(b, w, key_source(s, k@), s, None),
        Primitive::Submit(_) => {
            &&& w is Eval && w->Eval_0@ == form_source(s)
            &&& b.stage is Forming && b.stage->Forming_0@ == s
        },
        Primitive::Read(_, mode) => {
            &&& w is Html
            &&& b.stage is Reading && b.stage->Reading_0@ == s && b.stage->Reading_1 == mode
        },
        _ => false,
    }
}

/// What a step comes to at first.
pub open spec fn begins(a: Actor, p: Primitive, w: Work, b: Actor) -> bool {
    let h = a.history@;
    match p {
        Primitive::Goto(url) => b.history@ == h && travels(
            b,
            w,
            url@,
            h.current,
            true,
            0,
            TripModel::Away,
        ),
        Primitive::Eval(expr) => b.history@ == h && w == Work::Eval(expr) && b.stage is Evaluating,
        Primitive::Snapshot => b.history@ == h && shows(b, w, None),
        Primitive::ClickText(text) => b.history@ == h && w is Html && b.stage == Stage::Choosing(
            text,
        ),
        Primitive::WaitFor(s, ms) => b.history@ == h && w is Html && b.stage == Stage::Waiting(
            Wait::Selector(s, ms),
        ),
        Primitive::WaitForText(s, ms) => b.history@ == h && w is Html && b.stage == Stage::Waiting(
            Wait::Text(s, ms),
        ),
        Primitive::Wait(ms) => b.history@ == h && w == Work::Sleep(ms) && b.stage is Resting,
        Primitive::Back => if h.back.len() == 0 {
            b.history@ == h && fails(b, w, BrowseErrorModel::Io("history empty"@))
        } else {
            b.history@ == (HistoryModel { back: h.back.drop_last(), ..h }) && travels(
                b,
                w,
                h.back.last(),
                h.current,
                false,
                0,
                TripModel::Back(h.current),
            )
        },
        Primitive::Forward => if h.forward.len() == 0 {
            b.history@ == h && fails(b, w, BrowseErrorModel::Io("forward stack empty"@))
        } else {
            b.history@ == (HistoryModel { forward: h.forward.drop_last(), ..h }) && travels(
                b,
                w,
                h.forward.last(),
                h.current,
                false,
                0,
                TripModel::Forward(h.current),
            )
        },
        _ => b.history@ == h && match target_of(p) {
            Some(Target::Selector(s)) => on_element(p, s@, w, b),
            Some(Target::Index(_)) => w is Html && b.stage == Stage::Resolving(p),
            None => false,
        },
    }
}

/// The history after a trip has come to its end.
pub open spec fn returned(h: HistoryModel, trip: TripModel) -> HistoryModel {
    match trip {
        TripModel::Away => h,
        TripModel::Back(from) => if from.len() > 0 {
            HistoryModel { forward: h.forward.push(from), ..h }
        } else {
            h
        },
        TripModel::Forward(from) => if from.len() > 0 {
            HistoryModel { back: h.back.push(from), ..h }
        } else {
            h
        },
    }
}

/// What a step comes to once a page is loaded.
pub open spec fn after_load(a: Actor, r: Result<(), BrowseError>, w: Work, b: Actor) -> bool {
    let h = a.history@;
    match r {
        Err(e) => b.history@ == h && b.stage is Idle && w == Work::Done(Err(e)),
        Ok(_) => match a.stage {
            Stage::Loading(nav, trip) => b.history@ == h && w is Pending && b.stage
                == Stage::Arriving(nav, trip),
            Stage::Posting(url) => b.history@ == (HistoryModel { current: url@, ..h }) && drains(
                b,
                w,
                h.current,
                0,
                None,
            ),
            Stage::Following(url, from, loads, result) => {
                &&& b.history@ == (HistoryModel { current: url@, ..h })
                &&& if loads < MAX_NAV_HOPS {
                    drains(b, w, from@, loads + 1, text_view(result))
                } else {
                    fails(
                        b,
                        w,
                        BrowseErrorModel::Io(
                            "exceeded MAX_NAV_HOPS (10) draining post-action navigations"@,
                        ),
                    )
                }
            },
            _ => false,
        },
    }
}

/// What a step comes to once it is known which page the scripts have asked for.
pub open spec fn after_pending(a: Actor, next: Option<String>, w: Work, b: Actor) -> bool {
    let h = a.history@;
    match a.stage {
        Stage::Arriving(nav, trip) => match next {
            Some(url) => {
                &&& b.history@ == (HistoryModel { current: nav.url@, ..h })
                &&& if nav.loads < MAX_NAV_HOPS {
                    travels(b, w, url@, nav.prev@, nav.recorded, nav.loads + 1, trip@)
                } else {
                    fails(
                        b,
                        w,
                        BrowseErrorModel::Io(
                            "exceeded MAX_NAV_HOPS (10) following location.href chain"@,
                        ),
                    )
                }
            },
            None => {
                &&& b.history@ == returned(arrived(h, nav.url@, nav.prev@, nav.recorded), trip@)
                &&& shows(b, w, None)
            },
        },
        Stage::Draining(from, loads, result) => match next {
            Some(url) => {
                &&& b.history@ == h
                &&& w is Load && w->Load_0@ == get_request(url@)
                &&& b.stage == Stage::Following(url, from, loads, result)
            },
            None => {
                &&& b.history@ == arrived(h, h.current, from@, true)
                &&& shows(b, w, text_view(result))
            },
        },
        _ => false,
    }
}

/// What the submission of a form comes to once the form is described.
pub open spec fn after_form(
    current: Seq<char>,
    selector: Seq<char>,
    form: FormIntel,
    plan: Result<SubmitPlan, BrowseError>,
    w: Work,
    b: Actor,
) -> bool {
    submits(selector, current, form, plan) && match plan {
        Err(e) => b.stage is Idle && w == Work::Done(Err(e)),
        Ok(SubmitPlan::Visit(url)) => travels(b, w, url@, current, true, 0, TripModel::Away),
        Ok(SubmitPlan::Post(req)) => {
            &&& w == Work::Load(req)
            &&& b.stage is Posting && b.stage->Posting_0@ == req.url@
        },
        Ok(SubmitPlan::Dispatch(script)) => w == Work::Eval(script) && b.stage is Dispatching,
    }
}

/// What a step comes to once the description of a form is read, or cannot be.
pub open spec fn after_description(
    a: Actor,
    r: Result<FormIntel, String>,
    w: Work,
    b: Actor,
) -> bool {
    b.history@ == a.history@ && match a.stage {
        Stage::Describing(s, raw) => match r {
            Ok(form) => exists|plan: Result<SubmitPlan, BrowseError>| #[trigger]
                after_form(a.history@.current, s@, form, plan, w, b),
            Err(m) => fails(b, w, form_unread(raw@, m@)),
        },
        _ => false,
    }
}

/// What a step comes to once a script has run.
pub open spec fn after_eval(a: Actor, r: Result<String, String>, w: Work, b: Actor) -> bool {
    b.history@ == a.history@ && match a.stage {
        Stage::Acting(s, option) => match r {
            Ok(_) => drains(b, w, a.history@.current, 0, None),
            Err(m) => fails(
                b,
                w,
                match option {
                    Some(v) => option_error(s@, v@, m@),
                    None => script_error(s@, m@),
                },
            ),
        },
        Stage::Evaluating => match r {
            Ok(v) => drains(b, w, a.history@.current, 0, Some(v@)),
            Err(m) => fails(b, w, BrowseErrorModel::Js(m@)),
        },
        Stage::Dispatching => match r {
            Ok(_) => drains(b, w, a.history@.current, 0, None),
            Err(m) => fails(b, w, BrowseErrorModel::Js(m@)),
        },
        Stage::Forming(s) => match r {
            Ok(raw) => {
                &&& w is Form && w->Form_0@ == unquoted_result(raw@)
                &&& b.stage == Stage::Describing(s, raw)
            },
            Err(m) => fails(b, w, form_error(s@, m@)),
        },
        _ => false,
    }
}

/// What a snapshot is given back as: alone, or with what was evaluated.
pub open spec fn shown(
    result: Option<String>,
    snap: Result<PageSnapshot, BrowseError>,
    r: Result<ChainStepOutput, BrowseError>,
) -> bool {
    match snap {
        Err(e) => r == Err::<ChainStepOutput, _>(e),
        Ok(s) => r is Ok && r->Ok_0 == (match result {
            None => ChainStepOutput::Snapshot(s),
            Some(v) => ChainStepOutput::Eval { result: v, snapshot: s },
        }),
    }
}

/// What a look at a page gives on which something is waited for.
pub open spec fn looks(html: Seq<char>, wait: Wait, elapsed_ms: u64, st: WaitStep) -> bool {
    match wait {
        Wait::Selector(s, ms) => waits_for_selector(html, s@, elapsed_ms, ms, st),
        Wait::Text(s, ms) => waits_for_text(html, s@, elapsed_ms, ms, st),
    }
}

/// What a step comes to once it has the page.
pub open spec fn after_page(a: Actor, html: Seq<char>, elapsed_ms: u64, w: Work, b: Actor) -> bool {
    let url = a.history@.current;
    let max = a.summary_bytes as int;
    b.history@ == a.history@ && match a.stage {
        Stage::Showing(result) => exists|snap: Result<PageSnapshot, BrowseError>| #[trigger]
            snapshot_of(html, url, max, snap) && b.stage is Idle && w is Done && shown(
                result,
                snap,
                w->Done_0,
            ),
        Stage::Reading(s, mode) => {
            &&& b.stage is Idle
            &&& w is Done
            &&& exists|v: Result<Vec<String>, BrowseError>| #[trigger]
                reads(html, s@, mode, v) && match v {
                    Ok(x) => w->Done_0 == Ok::<_, BrowseError>(ChainStepOutput::Reads(x)),
                    Err(e) => w->Done_0 == Err::<ChainStepOutput, _>(e),
                }
        },
        Stage::Choosing(text) => exists|v: Result<Hit, BrowseError>| #[trigger]
            names_text(html, text@, v) && match v {
                Ok(h) => acts(
                    b,
                    w,
                    click_nth_source(h.selector@, h.nth as int),
                    h.selector@,
                    None,
                ),
                Err(e) => b.stage is Idle && w == Work::Done(Err(e)),
            },
        Stage::Waiting(wait) => exists|st: WaitStep| #[trigger]
            looks(html, wait, elapsed_ms, st) && match st {
                WaitStep::Ready => shows(b, w, None),
                WaitStep::Sleep(ms) => w == Work::Sleep(ms) && b.stage == Stage::Napping(wait),
                WaitStep::Fail(e) => b.stage is Idle && w == Work::Done(Err(e)),
            },
        Stage::Resolving(p) => exists|snap: Result<PageSnapshot, BrowseError>| #[trigger]
            snapshot_of(html, url, max, snap) && match (snap, target_of(p)) {
                (Ok(s), Some(Target::Index(i))) => match selector_at(s.interactive@, i as int) {
                    Some(sel) => on_element(p, sel, w, b),
                    None => fails(b, w, BrowseErrorModel::NoMatch("@"@ + decimal(i as nat))),
                },
                (Err(e), _) => b.stage is Idle && w == Work::Done(Err(e)),
                _ => false,
            },
        _ => false,
    }
}

impl Actor {
    /// The history holds no blanks, pages that scripts ask for are followed up to the
    /// limit, and what is looked up on the page is an index.
    pub open spec fn valid(&self) -> bool {
        no_blanks(self.history@) && match self.stage {
            Stage::Draining(_, loads, _) => loads <= MAX_NAV_HOPS,
            Stage::Following(_, _, loads, _) => loads <= MAX_NAV_HOPS,
            Stage::Resolving(p) => target_of(p) is Some && target_of(p)->0 is Index,
            _ => true,
        }
    }

    pub fn new(summary_bytes: usize) -> (r: Actor)
        ensures
            r.valid(),
            r.stage is Idle,
            r.history@ == (HistoryModel { current: seq![], back: seq![], forward: seq![] }),
            r.summary_bytes == summary_bytes,
    {
        Actor { history: History::new(), stage: Stage::Idle, summary_bytes }
    }

    fn go(&mut self, url: &str, recorded: bool, trip: Trip) -> (w: Work)
        requires
            no_blanks(old(self).history@),
        ensures
            final(self).valid(),
            final(self).history@ == old(self).history@,
            final(self).summary_bytes == old(self).summary_bytes,
            travels(*final(self), w, url@, old(self).history@.current, recorded, 0, trip@),
    {
        let nav = self.history.begin(url, recorded);
        self.stage = Stage::Loading(nav, trip);
        Work::Load(FetchRequest::new(url))
    }

    /// Goes on with a step on an element whose selector is known.
    fn on_element(&mut self, p: Primitive, selector: String) -> (w: Work)
        requires
            no_blanks(old(self).history@),
            target_of(p) is Some,
        ensures
            final(self).valid(),
            final(self).history@ == old(self).history@,
            final(self).summary_bytes == old(self).summary_bytes,
            on_element(p, selector@, w, *final(self)),
    {
        match p {
            Primitive::Click(_) => {
                let script = click_script(selector.as_str());
                self.stage = Stage::Acting(selector, None);
                Work::Eval(script)
            },
            Primitive::Fill(_, v) => {
                let script = fill_script(selector.as_str(), v.as_str());
                self.stage = Stage::Acting(selector, None);
                Work::Eval(script)
            },
            Primitive::SelectOption(_, v) => {
                let script = select_script(selector.as_str(), v.as_str());
                self.stage = Stage::Acting(selector, Some(v));
                Work::Eval(script)
            },
            Primitive::PressKey(_, k) => {
                let script = key_script(selector.as_str(), k.as_str());
                self.stage = Stage::Acting(selector, None);
                Work::Eval(script)
            },
            Primitive::Submit(_) => {
                let script = form_script(selector.as_str());
                self.stage = Stage::Forming(selector);
                Work::Eval(script)
            },
            Primitive::Read(_, mode) => {
                self.stage = Stage::Reading(selector, mode);
                Work::Html
            },
            _ => Work::Html,
        }
    }

    /// Begins a step that is about an element.
    fn on_target(&mut self, p: Primitive, selector: Option<String>) -> (w: Work)
        requires
            no_blanks(old(self).history@),
            target_of(p) is Some,
            match target_of(p)->0 {
                Target::Selector(s) => selector is Some && selector->0@ == s@,
                Target::Index(_) => selector is None,
            },
        ensures
            final(self).valid(),
            final(self).history@ == old(self).history@,
            final(self).summary_bytes == old(self).summary_bytes,
            fits(final(self).stage, w),
            begins(*old(self), p, w, *final(self)),
    {
        match selector {
            Some(s) => self.on_element(p, s),
            None => {
                self.stage = Stage::Resolving(p);
                Work::Html
            },
        }
    }

    /// Begins a step.
    pub fn begin(&mut self, p: Primitive) -> (w: Work)
        requires
            old(self).valid(),
            old(self).stage is Idle,
        ensures
            final(self).valid(),
            final(self).summary_bytes == old(self).summary_bytes,
            fits(final(self).stage, w),
            begins(*old(self), p, w, *final(self)),
    {
        match p {
            Primitive::Goto(url) => self.go(url.as_str(), true, Trip::Away),
            Primitive::Eval(expr) => {
                self.stage = Stage::Evaluating;
                Work::Eval(expr)
            },
            Primitive::Snapshot => {
                self.stage = Stage::Showing(None);
                Work::Html
            },
            Primitive::ClickText(text) => {
                self.stage = Stage::Choosing(text);
                Work::Html
            },
            Primitive::WaitFor(s, ms) => {
                self.stage = Stage::Waiting(Wait::Selector(s, ms));
                Work::Html
            },
            Primitive::WaitForText(s, ms) => {
                self.stage = Stage::Waiting(Wait::Text(s, ms));
                Work::Html
            },
            Primitive::Wait(ms) => {
                self.stage = Stage::Resting;
                Work::Sleep(ms)
            },
            Primitive::Back => match self.history.take_back() {
                Ok(url) => {
                    let from = self.history.current_url.clone();
                    self.go(url.as_str(), false, Trip::Back(from))
                },
                Err(e) => Work::Done(Err(e)),
            },
            Primitive::Forward => match self.history.take_forward() {
                Ok(url) => {
                    let from = self.history.current_url.clone();
                    self.go(url.as_str(), false, Trip::Forward(from))
                },
                Err(e) => Work::Done(Err(e)),
            },
            Primitive::Click(t) => {
                let s = selector_in(&t);
                self.on_target(Primitive::Click(t), s)
            },
            Primitive::Fill(t, v) => {
                let s = selector_in(&t);
                self.on_target(Primitive::Fill(t, v), s)
            },
            Primitive::Submit(t) => {
                let s = selector_in(&t);
                self.on_target(Primitive::Submit(t), s)
            },
            Primitive::Read(t, mode) => {
                let s = selector_in(&t);
                self.on_target(Primitive::Read(t, mode), s)
            },
            Primitive::SelectOption(t, v) => {
                let s = selector_in(&t);
                self.on_target(Primitive::SelectOption(t, v), s)
            },
            Primitive::PressKey(t, k) => {
                let s = selector_in(&t);
                self.on_target(Primitive::PressKey(t, k), s)
            },
        }
    }

    fn take_stage(&mut self) -> (s: Stage)
        ensures
            s == old(self).stage,
            *final(self) == (Actor { stage: Stage::Idle, ..*old(self) }),
    {
        let mut s = Stage::Idle;
        core::mem::swap(&mut self.stage, &mut s);
        s
    }

    /// A page has been loaded, or could not be.
    pub fn loaded(&mut self, r: Result<(), BrowseError>) -> (w: Work)
        requires
            old(self).valid(),
            old(self).stage is Loading || old(self).stage is Posting || old(self).stage is Following,
        ensures
            final(self).valid(),
            final(self).summary_bytes == old(self).summary_bytes,
            fits(final(self).stage, w),
            after_load(*old(self), r, w, *final(self)),
    {
        let stage = self.take_stage();
        if let Err(e) = r {
            return Work::Done(Err(e));
        }
        match stage {
            Stage::Loading(nav, trip) => {
                self.stage = Stage::Arriving(nav, trip);
                Work::Pending
            },
            Stage::Posting(url) => {
                let from = self.history.current_url.clone();
                self.history.landed(url.as_str());
                self.stage = Stage::Draining(from, 0, None);
                Work::Pending
            },
            Stage::Following(url, from, loads, result) => {
                self.history.landed(url.as_str());
                match History::may_drain(loads + 1) {
                    Ok(_) => {
                        self.stage = Stage::Draining(from, loads + 1, result);
                        Work::Pending
                    },
                    Err(e) => Work::Done(Err(e)),
                }
            },
            _ => Work::Pending,
        }
    }

    /// The page that the scripts have asked for is known.
    pub fn pending(&mut self, next: Option<String>) -> (w: Work)
        requires
            old(self).valid(),
            old(self).stage is Arriving || old(self).stage is Draining,
        ensures
            final(self).valid(),
            final(self).summary_bytes == old(self).summary_bytes,
            fits(final(self).stage, w),
            after_pending(*old(self), next, w, *final(self)),
    {
        match self.take_stage() {
            Stage::Arriving(nav, trip) => match self.history.loaded(nav, next) {
                NavStep::Load(nav) => {
                    let req = FetchRequest::new(nav.url.as_str());
                    self.stage = Stage::Loading(nav, trip);
                    Work::Load(req)
                },
                NavStep::Arrived => {
                    match trip {
                        Trip::Away => {},
                        Trip::Back(from) => self.history.went_back(from),
                        Trip::Forward(from) => self.history.went_forward(from),
                    }
                    self.stage = Stage::Showing(None);
                    Work::Html
                },
                NavStep::Fail(e) => Work::Done(Err(e)),
            },
            Stage::Draining(from, loads, result) => match next {
                Some(url) => {
                    let req = FetchRequest::new(url.as_str());
                    self.stage = Stage::Following(url, from, loads, result);
                    Work::Load(req)
                },
                None => {
                    self.history.settled(from);
                    self.stage = Stage::Showing(result);
                    Work::Html
                },
            },
            _ => Work::Html,
        }
    }

    /// The description of a form is read, or cannot be for a reason.
    pub fn described(&mut self, r: Result<FormIntel, String>) -> (w: Work)
        requires
            old(self).valid(),
            old(self).stage is Describing,
        ensures
            final(self).valid(),
            final(self).summary_bytes == old(self).summary_bytes,
            fits(final(self).stage, w),
            after_description(*old(self), r, w, *final(self)),
    {
        let (selector, raw) = match self.take_stage() {
            Stage::Describing(selector, raw) => (selector, raw),
            _ => (String::new(), String::new()),
        };
        let ghost current = self.history@.current;
        let f = match r {
            Ok(f) => f,
            Err(m) => {
                return Work::Done(Err(unread_form(raw.as_str(), m.as_str())));
            },
        };
        let plan = plan_submit(selector.as_str(), self.history.current_url.as_str(), &f);
        let ghost chosen = plan;
        let w = match plan {
            Err(e) => Work::Done(Err(e)),
            Ok(SubmitPlan::Visit(url)) => self.go(url.as_str(), true, Trip::Away),
            Ok(SubmitPlan::Post(req)) => {
                self.stage = Stage::Posting(req.url.clone());
                Work::Load(req)
            },
            Ok(SubmitPlan::Dispatch(script)) => {
                self.stage = Stage::Dispatching;
                Work::Eval(script)
            },
        };
        assert(after_form(current, selector@, f, chosen, w, *self));
        w
    }

    /// A script has run, or failed with a message.
    pub fn evaluated(&mut self, r: Result<String, String>) -> (w: Work)
        requires
            old(self).valid(),
            old(self).stage is Acting || old(self).stage is Forming || old(self).stage
                is Dispatching || old(self).stage is Evaluating,
        ensures
            final(self).valid(),
            final(self).summary_bytes == old(self).summary_bytes,
            fits(final(self).stage, w),
            after_eval(*old(self), r, w, *final(self)),
    {
        match self.take_stage() {
            Stage::Acting(selector, option) => match r {
                Ok(_) => {
                    self.stage = Stage::Draining(self.history.current_url.clone(), 0, None);
                    Work::Pending
                },
                Err(m) => match option {
                    Some(v) => Work::Done(
                        Err(option_failure(selector.as_str(), v.as_str(), m.as_str())),
                    ),
                    None => Work::Done(Err(script_failure(selector.as_str(), m.as_str()))),
                },
            },
            Stage::Evaluating => match r {
                Ok(v) => {
                    self.stage = Stage::Draining(self.history.current_url.clone(), 0, Some(v));
                    Work::Pending
                },
                Err(m) => Work::Done(Err(BrowseError::Js(m))),
            },
            Stage::Dispatching => match r {
                Ok(_) => {
                    self.stage = Stage::Draining(self.history.current_url.clone(), 0, None);
                    Work::Pending
                },
                Err(m) => Work::Done(Err(BrowseError::Js(m))),
            },
            Stage::Forming(selector) => match r {
                Ok(raw) => {
                    let text = unquote_eval_result(raw.as_str());
                    self.stage = Stage::Describing(selector, raw);
                    Work::Form(text)
                },
                Err(m) => Work::Done(Err(form_failure(selector.as_str(), m.as_str()))),
            },
            _ => Work::Pending,
        }
    }

    fn snapshot(&self, html: &str) -> (r: Result<PageSnapshot, BrowseError>)
        ensures
            snapshot_of(html@, self.history@.current, self.summary_bytes as int, r),
    {
        let opts = SnapshotOpts { max_text_summary_bytes: self.summary_bytes };
        page_snapshot(html, self.history.current_url.as_str(), opts)
    }

    /// The page is known, or could not be had; where it is waited for something,
    /// `elapsed_ms` after the wait began.
    pub fn page(&mut self, r: Result<String, String>, elapsed_ms: u64) -> (w: Work)
        requires
            old(self).valid(),
            old(self).stage is Showing || old(self).stage is Reading || old(self).stage is Choosing
                || old(self).stage is Waiting || old(self).stage is Resolving,
        ensures
            final(self).valid(),
            final(self).summary_bytes == old(self).summary_bytes,
            final(self).history@ == old(self).history@,
            fits(final(self).stage, w),
            match r {
                Ok(html) => after_page(*old(self), html@, elapsed_ms, w, *final(self)),
                Err(m) => fails(*final(self), w, BrowseErrorModel::Js(m@)),
            },
    {
        let stage = self.take_stage();
        let html = match r {
            Ok(html) => html,
            Err(m) => {
                return Work::Done(Err(BrowseError::Js(m)));
            },
        };
        match stage {
            Stage::Showing(result) => {
                let snap = self.snapshot(html.as_str());
                let ghost seen = snap;
                let out = match snap {
                    Err(e) => Err(e),
                    Ok(s) => match result {
                        None => Ok(ChainStepOutput::Snapshot(s)),
                        Some(v) => Ok(ChainStepOutput::Eval { result: v, snapshot: s }),
                    },
                };
                assert(shown(result, seen, out));
                Work::Done(out)
            },
            Stage::Reading(selector, mode) => {
                let found = read_page(html.as_str(), selector.as_str(), &mode);
                assert(reads(html@, selector@, mode, found));
                match found {
                    Ok(v) => Work::Done(Ok(ChainStepOutput::Reads(v))),
                    Err(e) => Work::Done(Err(e)),
                }
            },
            Stage::Choosing(text) => {
                let found = click_text_selector(html.as_str(), text.as_str());
                assert(names_text(html@, text@, found));
                match found {
                    Ok(hit) => {
                        let script = click_nth_script(hit.selector.as_str(), hit.nth);
                        self.stage = Stage::Acting(hit.selector, None);
                        Work::Eval(script)
                    },
                    Err(e) => Work::Done(Err(e)),
                }
            },
            Stage::Waiting(wait) => {
                let st = match &wait {
                    Wait::Selector(s, ms) => wait_for_selector(
                        html.as_str(),
                        s.as_str(),
                        elapsed_ms,
                        *ms,
                    ),
                    Wait::Text(s, ms) => wait_for_text(html.as_str(), s.as_str(), elapsed_ms, *ms),
                };
                assert(looks(html@, wait, elapsed_ms, st));
                match st {
                    WaitStep::Ready => {
                        self.stage = Stage::Showing(None);
                        Work::Html
                    },
                    WaitStep::Sleep(ms) => {
                        self.stage = Stage::Napping(wait);
                        Work::Sleep(ms)
                    },
                    WaitStep::Fail(e) => Work::Done(Err(e)),
                }
            },
            Stage::Resolving(p) => {
                let snap = self.snapshot(html.as_str());
                assert(snapshot_of(html@, self.history@.current, self.summary_bytes as int, snap));
                match snap {
                    Err(e) => Work::Done(Err(e)),
                    Ok(s) => {
                        let selector = match &p {
                            Primitive::Click(t) => resolve_target(t, &s),
                            Primitive::Fill(t, _) => resolve_target(t, &s),
                            Primitive::Submit(t) => resolve_target(t, &s),
                            Primitive::Read(t, _) => resolve_target(t, &s),
                            Primitive::SelectOption(t, _) => resolve_target(t, &s),
                            Primitive::PressKey(t, _) => resolve_target(t, &s),
                            _ => Err(BrowseError::ActorGone),
                        };
                        match selector {
                            Ok(sel) => self.on_element(p, sel),
                            Err(e) => Work::Done(Err(e)),
                        }
                    },
                }
            },
            _ => Work::Html,
        }
    }

    /// The time has passed.
    pub fn slept(&mut self) -> (w: Work)
        requires
            old(self).valid(),
            old(self).stage is Napping || old(self).stage is Resting,
        ensures
            final(self).valid(),
            final(self).summary_bytes == old(self).summary_bytes,
            final(self).history@ == old(self).history@,
            fits(final(self).stage, w),
            match old(self).stage {
                Stage::Napping(wait) => w is Html && final(self).stage == Stage::Waiting(wait),
                _ => shows(*final(self), w, None),
            },
    {
        match self.take_stage() {
            Stage::Napping(wait) => {
                self.stage = Stage::Waiting(wait);
                Work::Html
            },
            _ => {
                self.stage = Stage::Showing(None);
                Work::Html
            },
        }
    }
}

/// The selector that a target is, where it is one.
fn selector_in(t: &Target) -> (r: Option<String>)
    ensures
        match *t {
            Target::Selector(s) => r is Some && r->0@ == s@,
            Target::Index(_) => r is None,
        },
{
    match t {
        Target::Selector(s) => Some(s.clone()),
        Target::Index(_) => None,
    }
}

// ---- laws ----------------------------------------------------------------------

/// Going back ends, where the page asks for no other, in the history that going back
/// leads to.
pub proof fn back_ends_in_the_page_before(
    a: Actor,
    w: Work,
    b: Actor,
    w2: Work,
    c: Actor,
    w3: Work,
    d: Actor,
)
    requires
        a.history@.back.len() > 0,
        a.history@.current.len() > 0,
        begins(a, Primitive::Back, w, b),
        after_load(b, Ok(()), w2, c),
        after_pending(c, None, w3, d),
    ensures
        d.history@ == gone_back(a.history@),
        shows(d, w3, None),
{
}

/// Going forward ends, where the page asks for no other, in the history that going
/// forward leads to.
pub proof fn forward_ends_in_the_page_after(
    a: Actor,
    w: Work,
    b: Actor,
    w2: Work,
    c: Actor,
    w3: Work,
    d: Actor,
)
    requires
        a.history@.forward.len() > 0,
        a.history@.current.len() > 0,
        begins(a, Primitive::Forward, w, b),
        after_load(b, Ok(()), w2, c),
        after_pending(c, None, w3, d),
    ensures
        d.history@ == gone_forward(a.history@),
        shows(d, w3, None),
{
}

/// Going back and then forward, between pages that ask for no others, leads to where
/// the session was: the page is loaded again, and the history is what it was.
pub proof fn forward_follows_back_home(
    a: Actor,
    w: Work,
    b: Actor,
    w2: Work,
    c: Actor,
    w3: Work,
    d: Actor,
    html: Seq<char>,
    elapsed_ms: u64,
    w4: Work,
    e: Actor,
    w5: Work,
    f: Actor,
    w6: Work,
    g: Actor,
    w7: Work,
    k: Actor,
)
    requires
        a.valid(),
        a.history@.back.len() > 0,
        a.history@.current.len() > 0,
        begins(a, Primitive::Back, w, b),
        after_load(b, Ok(()), w2, c),
        after_pending(c, None, w3, d),
        after_page(d, html, elapsed_ms, w4, e),
        begins(e, Primitive::Forward, w5, f),
        after_load(f, Ok(()), w6, g),
        after_pending(g, None, w7, k),
    ensures
        w5 is Load && w5->Load_0@ == get_request(a.history@.current),
        k.history@ == a.history@,
        shows(k, w7, None),
{
    back_ends_in_the_page_before(a, w, b, w2, c, w3, d);
    assert(a.history@.back.last() == a.history@.back[a.history@.back.len() - 1]);
    forward_ends_in_the_page_after(e, w5, f, w6, g, w7, k);
    forward_undoes_back(a.history@);
}

/// A page that a script leads to can be gone back from, to the page of the script, and
/// nothing can be gone forward to after it.
pub proof fn scripts_lead_on_as_visits_do(
    a: Actor,
    url: String,
    value: String,
    w: Work,
    b: Actor,
    w2: Work,
    c: Actor,
    w3: Work,
    d: Actor,
    w4: Work,
    e: Actor,
)
    requires
        a.stage is Acting || a.stage is Evaluating || a.stage is Dispatching,
        a.history@.current.len() > 0,
        a.history@.current != url@,
        after_eval(a, Ok(value), w, b),
        after_pending(b, Some(url), w2, c),
        after_load(c, Ok(()), w3, d),
        after_pending(d, None, w4, e),
    ensures
        e.history@ == arrived(a.history@, url@, a.history@.current, true),
        e.history@.forward.len() == 0,
        gone_back(e.history@).current == a.history@.current,
        gone_back(e.history@).back == a.history@.back,
{
    visit_is_undone_by_back(a.history@, url@);
}

/// A script that fails leaves the session where it is, and the step is over.
pub proof fn failed_scripts_move_nothing(a: Actor, message: String, w: Work, b: Actor)
    requires
        a.stage is Acting || a.stage is Evaluating || a.stage is Dispatching || a.stage is Forming,
        after_eval(a, Err(message), w, b),
    ensures
        b.history@ == a.history@,
        b.stage is Idle,
        w is Done && w->Done_0 is Err,
{
}

/// Pages that scripts ask for one after the other are loaded one more often than the
/// limit says, and no more: the page after that ends the step.
pub proof fn following_is_bounded(
    a: Actor,
    url: Option<String>,
    w: Work,
    b: Actor,
    w2: Work,
    c: Actor,
)
    requires
        a.valid(),
        a.stage is Draining,
        url is Some,
        after_pending(a, url, w, b),
        after_load(b, Ok(()), w2, c),
    ensures
        a.stage->Draining_1 < MAX_NAV_HOPS ==> drains(
            c,
            w2,
            a.stage->Draining_0@,
            a.stage->Draining_1 + 1,
            text_view(a.stage->Draining_2),
        ),
        a.stage->Draining_1 >= MAX_NAV_HOPS ==> c.stage is Idle && w2 is Done && w2->Done_0 is Err,
{
}

} // verus!
