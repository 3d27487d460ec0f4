//! What each step of a session comes to, from its beginning to its end.
use crate::json::json_quoted;
use crate::session::actor::{
    after_description, after_eval, after_load, after_page, after_pending, begins, Actor, Stage,
    Work,
};
use crate::session::chain::{plan_command, plan_step, ChainFailure, ChainRun, Command, Plan, Primitive};
use crate::session::{
    form_failure, key_code_for, option_failure, script_failure, BrowseError, BrowseErrorModel,
    ChainStep, ChainStepOutput, FormIntel, ReadMode, Target,
};
use crate::snapshot::{selector_at, InteractiveElement, PageSnapshot};
use crate::text::{debugged, decimal, has_text};
use vstd::prelude::*;
use vstd::string::*;

verus! {

// ---- keys ----------------------------------------------------------------------

/// The named keys have the codes that pages know them by.
pub proof fn named_keys_have_their_codes(key: &str, code: u32)
    requires
        call_ensures(key_code_for, (key,), code),
    ensures
        key@ == "Enter"@ ==> code == 13,
        key@ == "Tab"@ ==> code == 9,
        key@ == "Escape"@ ==> code == 27,
        key@ == "Esc"@ ==> code == 27,
        key@ == "Backspace"@ ==> code == 8,
        key@ == "Delete"@ ==> code == 46,
        key@ == "ArrowLeft"@ ==> code == 37,
        key@ == "ArrowUp"@ ==> code == 38,
        key@ == "ArrowRight"@ ==> code == 39,
        key@ == "ArrowDown"@ ==> code == 40,
        key@ == "Space"@ ==> code == 32,
        key@ == " "@ ==> code == 32,
{
    reveal_strlit("Enter");
    reveal_strlit("Tab");
    reveal_strlit("Escape");
    reveal_strlit("Esc");
    reveal_strlit("Backspace");
    reveal_strlit("Delete");
    reveal_strlit("ArrowLeft");
    reveal_strlit("ArrowUp");
    reveal_strlit("ArrowRight");
    reveal_strlit("ArrowDown");
    reveal_strlit("Space");
    reveal_strlit(" ");
    assert("Tab"@[0] != "Enter"@[0]);
    assert("Escape"@[1] != "Enter"@[1]);
    assert("Backspace"@[0] != "Enter"@[0]);
    assert("Delete"@[0] != "Enter"@[0]);
    assert("ArrowUp"@[0] != "Enter"@[0]);
    assert("ArrowLeft"@[5] != "ArrowRight"@[5]);
    assert("Space"@[0] != "Enter"@[0]);
    assert("Delete"@.len() == "Escape"@.len() && "Delete"@[0] != "Escape"@[0]);
    assert("ArrowDown"@.len() == "Backspace"@.len() && "ArrowDown"@[0] != "Backspace"@[0]);
    assert("ArrowLeft"@.len() == "Backspace"@.len() && "ArrowLeft"@[0] != "Backspace"@[0]);
    assert("ArrowDown"@[5] != "ArrowLeft"@[5]);
    assert("ArrowRight"@.len() == 10 && "ArrowUp"@.len() == 7 && "ArrowLeft"@.len() == 9);
    assert("Enter"@.len() == 5 && "Tab"@.len() == 3 && "Escape"@.len() == 6 && "Esc"@.len() == 3);
    assert("Backspace"@.len() == 9 && "Delete"@.len() == 6 && "ArrowDown"@.len() == 9);
    assert(" "@.len() == 1);
}

/// A letter has the code of its capital, whichever case it is in, and a digit its own.
pub proof fn letters_and_digits_have_their_codes(key: &str, code: u32)
    requires
        call_ensures(key_code_for, (key,), code),
        key@.len() == 1,
    ensures
        'a' <= key@[0] <= 'z' ==> code == key@[0] as int - 'a' as int + 'A' as int,
        'A' <= key@[0] <= 'Z' ==> code == key@[0] as int,
        '0' <= key@[0] <= '9' ==> code == key@[0] as int,
{
    reveal_strlit("Enter");
    reveal_strlit("Tab");
    reveal_strlit("Escape");
    reveal_strlit("Esc");
    reveal_strlit("Backspace");
    reveal_strlit("Delete");
    reveal_strlit("ArrowLeft");
    reveal_strlit("ArrowUp");
    reveal_strlit("ArrowRight");
    reveal_strlit("ArrowDown");
    reveal_strlit("Space");
    reveal_strlit(" ");
}

// ---- failures ------------------------------------------------------------------

/// Where a script finds no element, the step says that the selector matches nothing;
/// any other failure keeps its message.
pub proof fn missing_elements_are_no_matches(selector: &str, message: &str, r: BrowseError)
    requires
        call_ensures(script_failure, (selector, message), r) || call_ensures(
            form_failure,
            (selector, message),
            r,
        ) && !has_text(message@, "no enclosing form"@),
    ensures
        has_text(message@, "no match"@) ==> r@ == BrowseErrorModel::NoMatch(selector@),
        !has_text(message@, "no match"@) ==> r@ == BrowseErrorModel::Js(message@),
{
}

/// An element without a form around it is an error of its own.
pub proof fn formless_elements_are_named(selector: &str, message: &str, r: BrowseError)
    requires
        call_ensures(form_failure, (selector, message), r),
        has_text(message@, "no enclosing form"@),
        !has_text(message@, "no match"@),
    ensures
        r@ == BrowseErrorModel::Io(
            "selector "@ + debugged(selector@) + " is not a form and is not inside one"@,
        ),
{
}

/// Where an option cannot be chosen, the error says whether the element is missing, is no
/// list of options, or has no such option.
pub proof fn missing_options_are_named(
    selector: &str,
    value: &str,
    message: &str,
    r: BrowseError,
)
    requires
        call_ensures(option_failure, (selector, value, message), r),
    ensures
        has_text(message@, "no match"@) ==> r@ == BrowseErrorModel::NoMatch(selector@),
        !has_text(message@, "no match"@) && has_text(message@, "not a select"@) ==> r@
            == BrowseErrorModel::Io("element "@ + debugged(selector@) + " is not a <select>"@),
        !has_text(message@, "no match"@) && !has_text(message@, "not a select"@) && has_text(
            message@,
            "no option matches"@,
        ) ==> r@ == BrowseErrorModel::NoMatch(
            "option "@ + debugged(value@) + " in "@ + debugged(selector@),
        ),
        !has_text(message@, "no match"@) && !has_text(message@, "not a select"@) && !has_text(
            message@,
            "no option matches"@,
        ) ==> r@ == BrowseErrorModel::Js(message@),
{
}

// ---- visits --------------------------------------------------------------------

/// A visit asks for its page with GET and nothing else. Where the page comes and asks for
/// no other, the session is there: the page before can be gone back to, nothing can be
/// gone forward to, and what is shown is a snapshot of the page under its URL.
pub proof fn visits_end_at_their_page(
    a: Actor,
    url: String,
    w: Work,
    b: Actor,
    w2: Work,
    c: Actor,
    w3: Work,
    d: Actor,
    html: Seq<char>,
    elapsed_ms: u64,
    w4: Work,
    e: Actor,
)
    requires
        begins(a, Primitive::Goto(url), w, b),
        after_load(b, Ok(()), w2, c),
        after_pending(c, None, w3, d),
        after_page(d, html, elapsed_ms, w4, e),
        crate::select::readable(html),
    ensures
        w is Load,
        w->Load_0.url@ == url@,
        w->Load_0.method@ == "GET"@,
        w->Load_0.headers@.len() == 0,
        w->Load_0.body@.len() == 0,
        b.history@ == a.history@,
        e.history@.current == url@,
        a.history@.current.len() > 0 && a.history@.current != url@ ==> e.history@.back
            == a.history@.back.push(a.history@.current) && e.history@.forward.len() == 0,
        a.history@.current.len() == 0 || a.history@.current == url@ ==> e.history@.back
            == a.history@.back && e.history@.forward == a.history@.forward,
        w4 is Done && w4->Done_0 is Ok && w4->Done_0->Ok_0 is Snapshot,
        w4->Done_0->Ok_0->Snapshot_0.url@ == url@,
        e.stage is Idle,
{
    assert(w->Load_0@.headers.len() == w->Load_0.headers@.len());
    assert(w->Load_0@.body == w->Load_0.body@);
    let snap = choose|snap: Result<PageSnapshot, BrowseError>| #[trigger]
        crate::session::page::snapshot_of(html, d.history@.current, d.summary_bytes as int, snap)
            && e.stage is Idle && w4 is Done && crate::session::actor::shown(
            d.stage->Showing_0,
            snap,
            w4->Done_0,
        );
    assert(snap is Ok);
    assert(snap->Ok_0@.url == snap->Ok_0.url@);
}

/// A page that cannot be had ends the step with its error, and the session stays.
pub proof fn failed_loads_move_nothing(
    a: Actor,
    e: BrowseError,
    w: Work,
    b: Actor,
)
    requires
        after_load(a, Err(e), w, b),
    ensures
        w == Work::Done(Err(e)),
        b.history@ == a.history@,
        b.stage is Idle,
{
}

/// A page that asks for another while it is visited is left for that one, which is asked
/// for with GET.
pub proof fn pages_lead_on(a: Actor, url: String, w: Work, b: Actor)
    requires
        a.stage is Arriving,
        a.stage->Arriving_0.loads < 10,
        after_pending(a, Some(url), w, b),
    ensures
        w is Load && w->Load_0.url@ == url@ && w->Load_0.method@ == "GET"@,
        b.stage is Loading && b.stage->Loading_0.loads == a.stage->Arriving_0.loads + 1,
        b.stage->Loading_0.prev@ == a.stage->Arriving_0.prev@,
        b.stage->Loading_0.recorded == a.stage->Arriving_0.recorded,
        b.history@.back == a.history@.back && b.history@.forward == a.history@.forward,
{
}

/// A chain of pages that goes on past the limit ends the step with an error.
pub proof fn endless_pages_are_left(a: Actor, url: String, w: Work, b: Actor)
    requires
        a.stage is Arriving,
        a.stage->Arriving_0.loads >= 10,
        after_pending(a, Some(url), w, b),
    ensures
        w is Done && w->Done_0 is Err && w->Done_0->Err_0 is Io,
        b.stage is Idle,
{
}

// ---- steps on elements ---------------------------------------------------------

/// A script that is run for a step: it is the whole of the work, and the history stays.
spec fn runs(a: Actor, p: Primitive, w: Work, b: Actor) -> bool {
    begins(a, p, w, b) && w is Eval && b.history@ == a.history@
}

/// A click on a selector runs the script of a click on it, a fill that of a fill, and so
/// on: each step has the script of its own kind.
pub proof fn steps_run_their_scripts(
    a: Actor,
    s: String,
    v: String,
    sel: &str,
    val: &str,
    click: String,
    fill: String,
    option: String,
    key: String,
    form: String,
    w1: Work,
    b1: Actor,
    w2: Work,
    b2: Actor,
    w3: Work,
    b3: Actor,
    w4: Work,
    b4: Actor,
    w5: Work,
    b5: Actor,
)
    requires
        sel@ == s@,
        val@ == v@,
        call_ensures(crate::session::click_script, (sel,), click),
        call_ensures(crate::session::fill_script, (sel, val), fill),
        call_ensures(crate::session::select_script, (sel, val), option),
        call_ensures(crate::session::key_script, (sel, val), key),
        call_ensures(crate::session::form_script, (sel,), form),
        begins(a, Primitive::Click(Target::Selector(s)), w1, b1),
        begins(a, Primitive::Fill(Target::Selector(s), v), w2, b2),
        begins(a, Primitive::SelectOption(Target::Selector(s), v), w3, b3),
        begins(a, Primitive::PressKey(Target::Selector(s), v), w4, b4),
        begins(a, Primitive::Submit(Target::Selector(s)), w5, b5),
    ensures
        w1 is Eval && w1->Eval_0@ == click@,
        w2 is Eval && w2->Eval_0@ == fill@,
        w3 is Eval && w3->Eval_0@ == option@,
        w4 is Eval && w4->Eval_0@ == key@,
        w5 is Eval && w5->Eval_0@ == form@,
        b1.history@ == a.history@ && b2.history@ == a.history@ && b3.history@ == a.history@,
        b4.history@ == a.history@ && b5.history@ == a.history@,
{
}

/// An expression is evaluated as it is, and what it gives comes back with a snapshot of
/// the page as it is after it.
pub proof fn evaluations_give_their_value(
    a: Actor,
    expr: String,
    w: Work,
    b: Actor,
    value: String,
    w2: Work,
    c: Actor,
    w3: Work,
    d: Actor,
    html: Seq<char>,
    elapsed_ms: u64,
    w4: Work,
    e: Actor,
)
    requires
        begins(a, Primitive::Eval(expr), w, b),
        after_eval(b, Ok(value), w2, c),
        after_pending(c, None, w3, d),
        after_page(d, html, elapsed_ms, w4, e),
        crate::select::readable(html),
    ensures
        w is Eval && w->Eval_0@ == expr@,
        w4 is Done && w4->Done_0 is Ok,
        w4->Done_0->Ok_0 is Eval,
        w4->Done_0->Ok_0->Eval_result@ == value@,
        w4->Done_0->Ok_0->Eval_snapshot.url@ == a.history@.current,
        e.history@ == a.history@,
{
    let snap = choose|snap: Result<PageSnapshot, BrowseError>| #[trigger]
        crate::session::page::snapshot_of(html, d.history@.current, d.summary_bytes as int, snap)
            && e.stage is Idle && w4 is Done && crate::session::actor::shown(
            d.stage->Showing_0,
            snap,
            w4->Done_0,
        );
    assert(snap is Ok);
    assert(snap->Ok_0@.url == snap->Ok_0.url@);
    assert(e.history@ =~= a.history@);
}

/// What is read of a page is what its elements give, and nothing else happens.
pub proof fn reads_give_what_the_page_holds(
    a: Actor,
    s: String,
    mode: ReadMode,
    w: Work,
    b: Actor,
    html: &str,
    sel: &str,
    read: Result<Vec<String>, BrowseError>,
    elapsed_ms: u64,
    w2: Work,
    c: Actor,
)
    requires
        sel@ == s@,
        begins(a, Primitive::Read(Target::Selector(s), mode), w, b),
        after_page(b, html@, elapsed_ms, w2, c),
        call_ensures(crate::session::page::read_page, (html, sel, &mode), read),
    ensures
        w is Html,
        w2 is Done,
        read is Ok <==> w2->Done_0 is Ok,
        read matches Ok(v) ==> w2->Done_0->Ok_0 is Reads && crate::text::views(
            w2->Done_0->Ok_0->Reads_0@,
        ) == crate::text::views(v@),
        c.history@ == a.history@,
        c.stage is Idle,
{
}

/// A pause lasts as long as it was asked to, and ends in a look at the page.
pub proof fn pauses_last(a: Actor, ms: u64, w: Work, b: Actor)
    requires
        begins(a, Primitive::Wait(ms), w, b),
    ensures
        w == Work::Sleep(ms),
        b.stage is Resting,
        b.history@ == a.history@,
{
}

/// What is waited for is looked for at once, on the page as it is.
pub proof fn waits_look_at_once(
    a: Actor,
    what: String,
    ms: u64,
    w: Work,
    b: Actor,
    w2: Work,
    b2: Actor,
)
    requires
        begins(a, Primitive::WaitFor(what, ms), w, b),
        begins(a, Primitive::WaitForText(what, ms), w2, b2),
    ensures
        w is Html && w2 is Html,
        b.history@ == a.history@ && b2.history@ == a.history@,
{
}

/// No element has an index beyond the others.
proof fn no_index_beyond(s: Seq<InteractiveElement>, n: int, index: int)
    requires
        n <= index,
        forall|j: int| 0 <= j < s.len() ==> (#[trigger] s[j]).index < n,
    ensures
        selector_at(s, index) is None,
    decreases s.len(),
{
    if s.len() > 0 {
        assert(s[0].index < n);
        assert forall|j: int| 0 <= j < s.skip(1).len() implies (#[trigger] s.skip(1)[j]).index
            < n by {
            assert(s.skip(1)[j] == s[j + 1]);
        }
        no_index_beyond(s.skip(1), n, index);
    }
}

/// An element that is named by its index is the one with that index in the snapshot of
/// the page: the step goes on as it would with its selector.
pub proof fn indices_stand_for_their_elements(
    a: Actor,
    i: u32,
    w: Work,
    b: Actor,
    html: Seq<char>,
    elapsed_ms: u64,
    w2: Work,
    c: Actor,
)
    requires
        begins(a, Primitive::Click(Target::Index(i)), w, b),
        after_page(b, html, elapsed_ms, w2, c),
        crate::select::readable(html),
    ensures
        w is Html,
        c.history@ == a.history@,
        exists|snap: PageSnapshot|
            {
                &&& #[trigger] crate::session::page::snapshot_of(
                    html,
                    a.history@.current,
                    b.summary_bytes as int,
                    Ok::<PageSnapshot, BrowseError>(snap),
                )
                &&& i < snap.interactive@.len() ==> w2 is Eval && w2->Eval_0@
                    == crate::session::click_source(snap.interactive@[i as int].selector@)
                &&& i >= snap.interactive@.len() ==> w2 is Done && w2->Done_0 is Err
                    && w2->Done_0->Err_0@ == BrowseErrorModel::NoMatch("@"@ + decimal(i as nat))
            },
{
    let url = a.history@.current;
    let max = b.summary_bytes as int;
    let snap = choose|snap: Result<PageSnapshot, BrowseError>| #[trigger]
        crate::session::page::snapshot_of(html, url, max, snap) && match (
            snap,
            crate::session::actor::target_of(b.stage->Resolving_0),
        ) {
            (Ok(s), Some(Target::Index(i))) => match crate::snapshot::selector_at(
                s.interactive@,
                i as int,
            ) {
                Some(sel) => crate::session::actor::on_element(b.stage->Resolving_0, sel, w2, c),
                None => crate::session::actor::fails(
                    c,
                    w2,
                    BrowseErrorModel::NoMatch("@"@ + decimal(i as nat)),
                ),
            },
            (Err(e), _) => c.stage is Idle && w2 == Work::Done(Err(e)),
            _ => false,
        };
    assert(snap is Ok);
    let s = snap->Ok_0;
    if i < s.interactive@.len() {
        crate::snapshot::index_is_position(s.interactive@, i as int);
    } else {
        no_index_beyond(s.interactive@, s.interactive@.len() as int, i as int);
    }
    assert(crate::session::page::snapshot_of(html, url, max, Ok::<PageSnapshot, BrowseError>(s)));
}

/// A form that cannot be read ends the step, with the reason and what was given.
pub proof fn unread_forms_say_why(a: Actor, reason: String, w: Work, b: Actor)
    requires
        a.stage is Describing,
        after_description(a, Err(reason), w, b),
    ensures
        w is Done && w->Done_0 is Err && w->Done_0->Err_0 is Io,
        has_text(w->Done_0->Err_0->Io_0@, reason@),
        has_text(w->Done_0->Err_0->Io_0@, a.stage->Describing_1@),
        b.history@ == a.history@,
{
    let head = "parsing form intel JSON failed: "@;
    let mid = " (raw: "@;
    let raw = a.stage->Describing_1@;
    let all = w->Done_0->Err_0->Io_0@;
    assert(all == head + reason@ + mid + raw + ")"@);
    assert(all.subrange(head.len() as int, head.len() + reason@.len() as int) =~= reason@);
    assert(crate::text::occurs_at(all, reason@, head.len() as int));
    let k: int = head.len() + reason@.len() + mid.len() as int;
    assert(all.subrange(k, k + raw.len()) =~= raw);
    assert(crate::text::occurs_at(all, raw, k));
}

// ---- chains --------------------------------------------------------------------

/// Each step of a chain is what the command of the same name is.
pub proof fn steps_do_what_commands_do(
    t: Target,
    s: String,
    v: String,
    mode: ReadMode,
    ms: u64,
    p: Primitive,
    plan: Plan,
)
    ensures
        call_ensures(plan_step, (ChainStep::Click(t),), p) && call_ensures(
            plan_command,
            (Command::ClickTarget { target: t },),
            plan,
        ) ==> p == Primitive::Click(t) && plan == Plan::One(p),
        call_ensures(plan_step, (ChainStep::Fill { target: t, value: v },), p) && call_ensures(
            plan_command,
            (Command::FillTarget { target: t, value: v },),
            plan,
        ) ==> p == Primitive::Fill(t, v) && plan == Plan::One(p),
        call_ensures(plan_step, (ChainStep::Submit(t),), p) && call_ensures(
            plan_command,
            (Command::SubmitTarget { target: t },),
            plan,
        ) ==> p == Primitive::Submit(t) && plan == Plan::One(p),
        call_ensures(plan_step, (ChainStep::Read { target: t, mode },), p) && call_ensures(
            plan_command,
            (Command::ReadTarget { target: t, mode },),
            plan,
        ) ==> p == Primitive::Read(t, mode) && plan == Plan::One(p),
        call_ensures(plan_step, (ChainStep::Goto(s),), p) && call_ensures(
            plan_command,
            (Command::Goto { url: s },),
            plan,
        ) ==> p == Primitive::Goto(s) && plan == Plan::One(p),
        call_ensures(plan_step, (ChainStep::Eval(s),), p) && call_ensures(
            plan_command,
            (Command::Eval { expr: s },),
            plan,
        ) ==> p == Primitive::Eval(s) && plan == Plan::One(p),
        call_ensures(plan_step, (ChainStep::PressKey { target: t, key: v },), p) && call_ensures(
            plan_command,
            (Command::PressKey { target: t, key: v },),
            plan,
        ) ==> p == Primitive::PressKey(t, v) && plan == Plan::One(p),
        call_ensures(plan_step, (ChainStep::SelectOption { target: t, value: v },), p)
            && call_ensures(plan_command, (Command::SelectOption { target: t, value: v },), plan)
            ==> p == Primitive::SelectOption(t, v) && plan == Plan::One(p),
        call_ensures(plan_step, (ChainStep::ClickText(s),), p) && call_ensures(
            plan_command,
            (Command::ClickText { text: s },),
            plan,
        ) ==> p == Primitive::ClickText(s) && plan == Plan::One(p),
        call_ensures(plan_step, (ChainStep::WaitFor { selector: s, timeout_ms: ms },), p)
            && call_ensures(plan_command, (Command::WaitFor { selector: s, timeout_ms: ms },), plan)
            ==> p == Primitive::WaitFor(s, ms) && plan == Plan::One(p),
        call_ensures(plan_step, (ChainStep::WaitForText { needle: s, timeout_ms: ms },), p)
            && call_ensures(
            plan_command,
            (Command::WaitForText { needle: s, timeout_ms: ms },),
            plan,
        ) ==> p == Primitive::WaitForText(s, ms) && plan == Plan::One(p),
        call_ensures(plan_step, (ChainStep::Wait { ms },), p) && call_ensures(
            plan_command,
            (Command::WaitMs { ms },),
            plan,
        ) ==> p == Primitive::Wait(ms) && plan == Plan::One(p),
        call_ensures(plan_step, (ChainStep::Snapshot,), p) && call_ensures(
            plan_command,
            (Command::Snapshot,),
            plan,
        ) ==> p is Snapshot && plan == Plan::One(p),
        call_ensures(plan_step, (ChainStep::Back,), p) && call_ensures(
            plan_command,
            (Command::Back,),
            plan,
        ) ==> p is Back && plan == Plan::One(p),
        call_ensures(plan_step, (ChainStep::Forward,), p) && call_ensures(
            plan_command,
            (Command::Forward,),
            plan,
        ) ==> p is Forward && plan == Plan::One(p),
{
}

/// A command on a selector is the command on a target that is this selector.
pub proof fn selectors_are_targets(s: String, v: String, mode: ReadMode, plan: Plan)
    ensures
        call_ensures(plan_command, (Command::Click { selector: s },), plan) ==> plan == Plan::One(
            Primitive::Click(Target::Selector(s)),
        ),
        call_ensures(plan_command, (Command::Fill { selector: s, value: v },), plan) ==> plan
            == Plan::One(Primitive::Fill(Target::Selector(s), v)),
        call_ensures(plan_command, (Command::Submit { selector: s },), plan) ==> plan == Plan::One(
            Primitive::Submit(Target::Selector(s)),
        ),
        call_ensures(plan_command, (Command::Read { selector: s, mode },), plan) ==> plan
            == Plan::One(Primitive::Read(Target::Selector(s), mode)),
{
}

/// A chain is all of its steps, in order.
pub proof fn chains_keep_every_step(steps: Vec<ChainStep>, plan: Plan, i: int, p: Primitive)
    requires
        call_ensures(plan_command, (Command::Chain { steps },), plan),
        0 <= i < steps@.len(),
        call_ensures(plan_step, (steps@[i],), p),
    ensures
        plan is Many && plan->Many_0@.len() == steps@.len() && plan->Many_0@[i] == p,
{
}

/// A chain that is over gives every output, in order; where a step failed, with the error.
pub proof fn chains_give_every_output(run: ChainRun, r: Result<Vec<ChainStepOutput>, ChainFailure>)
    requires
        call_ensures(ChainRun::finish, (run,), r),
    ensures
        run.failed is None ==> r is Ok && r->Ok_0@ == run.outputs@,
        run.failed is Some ==> r is Err && r->Err_0.done@ == run.outputs@ && Some(r->Err_0.error)
            == run.failed,
{
}

} // verus!
