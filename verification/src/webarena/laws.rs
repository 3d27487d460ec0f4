//! What an agent's run comes to, in terms of what was said.
use crate::json::laws::{members_are_found_by_name, says, says_nothing};
use crate::json::{Json, JsonModel};
use crate::session::chain::Command;
use crate::session::{ModeModel, TargetModel};
use crate::text::{
    ascii_lower, byte_len, debugged, decimal, has_text, joined, lower_text, occurs_at, replaced,
    trimmed, views,
};
use crate::webarena::agent::{
    element_line, element_lines, format_followup_turn, format_user_turn, page_prompt,
    snapshot_for_prompt, AgentRun, Need, RunModel, StopModel,
};
use crate::webarena::config::{
    absent, check_string_match, first_failure, known_variables, rubric_verdict, to_task,
    url_map_from_variables, variable_map, ReferenceAnswers, WebArenaConfig, WebArenaEval,
};
use crate::webarena::llm::{
    block_json, block_to_api, message_json, message_to_api, parse_assistant_turn, read_reply,
    request_json, with_block, ScriptedClient, AnthropicClient, AssistantTurn, Block, BlockModel, Message,
    MessageModel, Role, TurnModel,
};
use crate::webarena::summary::{at_most, median_ms, passes, time_total, times, totals, Totals};
use crate::webarena::task::{default_max_steps, Task};
use crate::webarena::tools::{
    plan_outcome, plan_tool, string_field, tool_plan, truncate_for_brief, DispatchOutcome,
    OutcomeModel, PlanModel, ToolPlan,
};
use crate::webarena::trajectory::{CallModel, StopReason, Trajectory};
use crate::webarena::urlmap::{
    apply_url_map, entries_map, first_at, placeholders, substituted, UrlMap,
};
use crate::snapshot::{InteractiveElement, PageSnapshot};
use vstd::prelude::*;
use vstd::relations::{sorted_by, total_ordering};
use vstd::string::*;
use vstd::utf8::encode_utf8;

verus! {

// ---- tools -----------------------------------------------------------------------

proof fn tools_are_told_apart()
    ensures
        "fill"@ != "click"@,
        "submit"@ != "click"@,
        "submit"@ != "fill"@,
        "click_text"@ != "click"@,
        "click_text"@ != "fill"@,
        "click_text"@ != "submit"@,
        "select_option"@ != "click"@,
        "select_option"@ != "fill"@,
        "select_option"@ != "submit"@,
        "select_option"@ != "click_text"@,
        "press_key"@ != "click"@,
        "press_key"@ != "fill"@,
        "press_key"@ != "submit"@,
        "press_key"@ != "click_text"@,
        "press_key"@ != "select_option"@,
        "goto"@ != "click"@,
        "goto"@ != "fill"@,
        "goto"@ != "submit"@,
        "goto"@ != "click_text"@,
        "goto"@ != "select_option"@,
        "goto"@ != "press_key"@,
        "read"@ != "click"@,
        "read"@ != "fill"@,
        "read"@ != "submit"@,
        "read"@ != "click_text"@,
        "read"@ != "select_option"@,
        "read"@ != "press_key"@,
        "read"@ != "goto"@,
        "wait_for"@ != "click"@,
        "wait_for"@ != "fill"@,
        "wait_for"@ != "submit"@,
        "wait_for"@ != "click_text"@,
        "wait_for"@ != "select_option"@,
        "wait_for"@ != "press_key"@,
        "wait_for"@ != "goto"@,
        "wait_for"@ != "read"@,
        "back"@ != "click"@,
        "back"@ != "fill"@,
        "back"@ != "submit"@,
        "back"@ != "click_text"@,
        "back"@ != "select_option"@,
        "back"@ != "press_key"@,
        "back"@ != "goto"@,
        "back"@ != "read"@,
        "back"@ != "wait_for"@,
        "done"@ != "click"@,
        "done"@ != "fill"@,
        "done"@ != "submit"@,
        "done"@ != "click_text"@,
        "done"@ != "select_option"@,
        "done"@ != "press_key"@,
        "done"@ != "goto"@,
        "done"@ != "read"@,
        "done"@ != "wait_for"@,
        "done"@ != "back"@,
{
    reveal_strlit("click");
    reveal_strlit("fill");
    reveal_strlit("submit");
    reveal_strlit("click_text");
    reveal_strlit("select_option");
    reveal_strlit("press_key");
    reveal_strlit("goto");
    reveal_strlit("read");
    reveal_strlit("wait_for");
    reveal_strlit("back");
    reveal_strlit("done");
    assert("click"@.len() == 5 && "fill"@.len() == 4 && "submit"@.len() == 6);
    assert("click_text"@.len() == 10 && "select_option"@.len() == 13 && "press_key"@.len() == 9);
    assert("goto"@.len() == 4 && "read"@.len() == 4 && "wait_for"@.len() == 8);
    assert("back"@.len() == 4 && "done"@.len() == 4);
    assert("fill"@[0] == 'f' && "goto"@[0] == 'g' && "read"@[0] == 'r' && "back"@[0] == 'b'
        && "done"@[0] == 'd');
}

/// What a call is aimed at: the element of its index, or else its selector.
pub open spec fn aims_at(input: JsonModel, t: TargetModel) -> bool {
    match t {
        TargetModel::Index(i) => exists|n: u64|
            n == i && #[trigger] says(input, "index"@, JsonModel::Unsigned(n)),
        TargetModel::Selector(s) => says_nothing(input, "index"@) && s.len() > 0 && says(
            input,
            "selector"@,
            JsonModel::Text(s),
        ),
    }
}

proof fn aimed_is_read(input: JsonModel, t: TargetModel)
    requires
        aims_at(input, t),
    ensures
        crate::webarena::tools::call_target(input) == Some(t),
{
    match t {
        TargetModel::Index(i) => {
            let n = choose|n: u64| n == i && #[trigger] says(input, "index"@, JsonModel::Unsigned(n));
            members_are_found_by_name(input, "index"@, JsonModel::Unsigned(n));
        },
        TargetModel::Selector(s) => {
            members_are_found_by_name(input, "index"@, JsonModel::Null);
            members_are_found_by_name(input, "selector"@, JsonModel::Text(s));
        },
    }
}

/// A tool that acts on an element acts on the one that its call is aimed at, with what the
/// call says.
pub proof fn tools_act_on_their_target(
    name: &str,
    input: &Json,
    t: TargetModel,
    v: Seq<char>,
    r: Result<ToolPlan, String>,
)
    requires
        call_ensures(plan_tool, (name, input), r),
        aims_at(input@, t),
    ensures
        name@ == "click"@ ==> r is Ok && r->Ok_0@ == PlanModel::Click(t),
        name@ == "submit"@ ==> r is Ok && r->Ok_0@ == PlanModel::Submit(t),
        name@ == "fill"@ && says(input@, "value"@, JsonModel::Text(v)) ==> r is Ok && r->Ok_0@
            == PlanModel::Fill(t, v),
        name@ == "select_option"@ && says(input@, "value"@, JsonModel::Text(v)) ==> r is Ok
            && r->Ok_0@ == PlanModel::SelectOption(t, v),
        name@ == "press_key"@ && says(input@, "key"@, JsonModel::Text(v)) ==> r is Ok && r->Ok_0@
            == PlanModel::PressKey(t, v),
        (name@ == "fill"@ || name@ == "select_option"@) && says_nothing(input@, "value"@)
            ==> r is Err,
        name@ == "press_key"@ && says_nothing(input@, "key"@) ==> r is Err,
{
    tools_are_told_apart();
    aimed_is_read(input@, t);
    members_are_found_by_name(input@, "value"@, JsonModel::Text(v));
    members_are_found_by_name(input@, "key"@, JsonModel::Text(v));
}

/// A call that is aimed at nothing is refused.
pub proof fn aimless_calls_are_refused(name: &str, input: &Json, r: Result<ToolPlan, String>)
    requires
        call_ensures(plan_tool, (name, input), r),
        says_nothing(input@, "index"@),
        says_nothing(input@, "selector"@),
        name@ == "click"@ || name@ == "submit"@ || name@ == "fill"@ || name@ == "select_option"@
            || name@ == "press_key"@ || name@ == "read"@,
    ensures
        r is Err,
{
    tools_are_told_apart();
    members_are_found_by_name(input@, "index"@, JsonModel::Null);
    members_are_found_by_name(input@, "selector"@, JsonModel::Null);
}

/// The tools that take one text take it as it is, and are refused without it.
pub proof fn tools_take_their_text(
    name: &str,
    input: &Json,
    v: Seq<char>,
    r: Result<ToolPlan, String>,
)
    requires
        call_ensures(plan_tool, (name, input), r),
    ensures
        name@ == "click_text"@ && says(input@, "text"@, JsonModel::Text(v)) ==> r is Ok && r->Ok_0@
            == PlanModel::ClickText(v),
        name@ == "goto"@ && says(input@, "url"@, JsonModel::Text(v)) ==> r is Ok && r->Ok_0@
            == PlanModel::Goto(v),
        name@ == "done"@ && says(input@, "answer"@, JsonModel::Text(v)) ==> r is Ok && r->Ok_0@
            == PlanModel::Done(v),
        name@ == "click_text"@ && says_nothing(input@, "text"@) ==> r is Err,
        name@ == "goto"@ && says_nothing(input@, "url"@) ==> r is Err,
        name@ == "done"@ && says_nothing(input@, "answer"@) ==> r is Err,
        name@ == "back"@ ==> r is Ok && r->Ok_0@ is Back,
{
    tools_are_told_apart();
    members_are_found_by_name(input@, "text"@, JsonModel::Text(v));
    members_are_found_by_name(input@, "url"@, JsonModel::Text(v));
    members_are_found_by_name(input@, "answer"@, JsonModel::Text(v));
}

/// A read is of the texts where it says no more, else of the HTML or of an attribute.
pub proof fn reads_say_their_mode(
    input: &Json,
    name: &str,
    t: TargetModel,
    attr: Seq<char>,
    r: Result<ToolPlan, String>,
)
    requires
        call_ensures(plan_tool, (name, input), r),
        name@ == "read"@,
        aims_at(input@, t),
    ensures
        says_nothing(input@, "mode"@) ==> r is Ok && r->Ok_0@ == PlanModel::Read(
            t,
            ModeModel::Text,
        ),
        says(input@, "mode"@, JsonModel::Text("text"@)) ==> r is Ok && r->Ok_0@ == PlanModel::Read(
            t,
            ModeModel::Text,
        ),
        says(input@, "mode"@, JsonModel::Text("html"@)) ==> r is Ok && r->Ok_0@ == PlanModel::Read(
            t,
            ModeModel::Html,
        ),
        says(input@, "mode"@, JsonModel::Text("attr:"@ + attr)) ==> r is Ok && r->Ok_0@
            == PlanModel::Read(t, ModeModel::Attr(attr)),
{
    tools_are_told_apart();
    aimed_is_read(input@, t);
    members_are_found_by_name(input@, "mode"@, JsonModel::Text("text"@));
    members_are_found_by_name(input@, "mode"@, JsonModel::Text("html"@));
    let s = "attr:"@ + attr;
    members_are_found_by_name(input@, "mode"@, JsonModel::Text(s));
    reveal_strlit("text");
    reveal_strlit("html");
    reveal_strlit("attr:");
    assert("text"@[0] == 't' && "html"@[0] == 'h' && s[0] == 'a');
    assert("text"@.len() == 4 && "html"@.len() == 4);
    assert(s.take(5) =~= "attr:"@);
    assert(s.skip(5) =~= attr);
}

/// A wait is for a selector or for a text, not for both and not for neither, and lasts
/// five seconds where it does not say how long.
pub proof fn waits_are_for_one_thing(
    name: &str,
    input: &Json,
    v: Seq<char>,
    n: u64,
    r: Result<ToolPlan, String>,
)
    requires
        call_ensures(plan_tool, (name, input), r),
        name@ == "wait_for"@,
        says(input@, "timeout_ms"@, JsonModel::Unsigned(n)) || says_nothing(input@, "timeout_ms"@)
            && n == 5000,
    ensures
        says(input@, "selector"@, JsonModel::Text(v)) && says_nothing(input@, "text"@) ==> r is Ok
            && r->Ok_0@ == PlanModel::WaitFor(v, n),
        says(input@, "text"@, JsonModel::Text(v)) && says_nothing(input@, "selector"@) ==> r is Ok
            && r->Ok_0@ == PlanModel::WaitForText(v, n),
        says_nothing(input@, "selector"@) && says_nothing(input@, "text"@) ==> r is Err,
        forall|w: Seq<char>|
            says(input@, "selector"@, JsonModel::Text(v)) && #[trigger] says(
                input@,
                "text"@,
                JsonModel::Text(w),
            ) ==> r is Err,
{
    tools_are_told_apart();
    members_are_found_by_name(input@, "timeout_ms"@, JsonModel::Unsigned(n));
    members_are_found_by_name(input@, "selector"@, JsonModel::Text(v));
    members_are_found_by_name(input@, "text"@, JsonModel::Text(v));
    assert forall|w: Seq<char>|
        says(input@, "selector"@, JsonModel::Text(v)) && #[trigger] says(
            input@,
            "text"@,
            JsonModel::Text(w),
        ) implies r is Err by {
        members_are_found_by_name(input@, "text"@, JsonModel::Text(w));
    }
}

/// A plan is carried out by the command of its kind, on the same element and with the same
/// text; `done` is none.
pub proof fn plans_are_carried_out(plan: &ToolPlan, r: Option<Command>)
    requires
        call_ensures(ToolPlan::command, (plan,), r),
    ensures
        r is None <==> plan is Done,
        plan is Click ==> r->0 is ClickTarget && r->0->ClickTarget_target@ == plan->Click_0@,
        plan is Fill ==> r->0 is FillTarget && r->0->FillTarget_target@ == plan->Fill_0@
            && r->0->FillTarget_value@ == plan->Fill_1@,
        plan is Submit ==> r->0 is SubmitTarget && r->0->SubmitTarget_target@ == plan->Submit_0@,
        plan is ClickText ==> r->0 is ClickText && r->0->text@ == plan->ClickText_0@,
        plan is SelectOption ==> r->0 is SelectOption && r->0->SelectOption_target@
            == plan->SelectOption_0@ && r->0->SelectOption_value@ == plan->SelectOption_1@,
        plan is PressKey ==> r->0 is PressKey && r->0->PressKey_target@ == plan->PressKey_0@
            && r->0->key@ == plan->PressKey_1@,
        plan is Goto ==> r->0 is Goto && r->0->url@ == plan->Goto_0@,
        plan is Read ==> r->0 is ReadTarget && r->0->ReadTarget_target@ == plan->Read_0@
            && r->0->ReadTarget_mode@ == plan->Read_1@,
        plan is WaitFor ==> r->0 is WaitFor && r->0->WaitFor_selector@ == plan->WaitFor_0@
            && r->0->WaitFor_timeout_ms == plan->WaitFor_1,
        plan is WaitForText ==> r->0 is WaitForText && r->0->needle@ == plan->WaitForText_0@
            && r->0->WaitForText_timeout_ms == plan->WaitForText_1,
        plan is Back ==> r->0 is Back,
{
}

/// `done` ends a run with its answer; every other tool lets it go on. What a read gave is
/// told with the number of matches.
pub proof fn only_done_is_the_end(
    plan: &ToolPlan,
    found: &Vec<String>,
    brief: String,
    whole: &str,
    r: DispatchOutcome,
)
    requires
        call_ensures(plan_outcome, (plan, found), r),
        whole@ == joined(views(found@), "\n"@),
        call_ensures(truncate_for_brief, (whole,), brief),
    ensures
        r is Done <==> plan is Done,
        plan is Done ==> r->answer@ == plan->Done_0@,
        plan is Read ==> r->brief@ == "read returned "@ + decimal(found@.len()) + " match(es): "@
            + brief@,
        plan is Goto ==> r->brief@ == "goto "@ + plan->Goto_0@,
        plan is Click ==> r->brief@ == "click ok"@,
        plan is Fill ==> r->brief@ == "fill ok ("@ + decimal(plan->Fill_1@.len()) + " chars)"@,
{
    assert(views(found@).len() == found@.len());
}

/// What is told in brief is all of it where it fits in 400 bytes, else its start and a
/// mark.
pub proof fn briefs_start_the_text(s: &str, r: String)
    requires
        call_ensures(truncate_for_brief, (s,), r),
    ensures
        byte_len(s@) <= 400 ==> r@ == s@,
        byte_len(s@) > 400 ==> exists|n: int|
            {
                &&& 0 <= n < s@.len()
                &&& r@ == #[trigger] s@.take(n) + " […]"@
                &&& byte_len(s@.take(n)) <= 400
                &&& byte_len(s@.take(n + 1)) > 400
            },
{
    crate::text::laws::longest_start_fits(s@, 400);
    let n = crate::text::fitting(s@, 400);
    if byte_len(s@) > 400 {
        if n == s@.len() {
            assert(s@.take(n) =~= s@);
        }
        assert(r@ == s@.take(n) + " […]"@);
    }
}

// ---- judging -----------------------------------------------------------------------

proof fn absent_are_filtered(answer: Seq<char>, needles: Seq<Seq<char>>)
    ensures
        absent(answer, needles) == needles.filter(|n: Seq<char>| !has_text(answer, lower_text(n))),
    decreases needles.len(),
{
    reveal(Seq::filter);
    if needles.len() > 0 {
        absent_are_filtered(answer, needles.drop_last());
    }
}

proof fn none_filtered(answer: Seq<char>, needles: Seq<Seq<char>>)
    ensures
        absent(answer, needles).len() == 0 <==> forall|i: int|
            0 <= i < needles.len() ==> has_text(answer, lower_text(#[trigger] needles[i])),
    decreases needles.len(),
{
    if needles.len() > 0 {
        let front = needles.drop_last();
        none_filtered(answer, front);
        let n = needles.len() - 1;
        assert(needles[n] == needles.last());
        assert forall|i: int| 0 <= i < front.len() implies #[trigger] front[i] == needles[i] by {}
        if forall|i: int|
            0 <= i < needles.len() ==> has_text(answer, lower_text(#[trigger] needles[i])) {
            assert forall|i: int| 0 <= i < front.len() implies has_text(
                answer,
                lower_text(#[trigger] front[i]),
            ) by {
                assert(has_text(answer, lower_text(needles[i])));
            }
            assert(has_text(answer, lower_text(needles[n])));
        }
        if absent(answer, needles).len() == 0 {
            assert forall|i: int| 0 <= i < needles.len() implies has_text(
                answer,
                lower_text(#[trigger] needles[i]),
            ) by {
                if i < n {
                    assert(has_text(answer, lower_text(front[i])));
                }
            }
        }
    }
}

/// The references of an answer are met: it is the exact one, in lower case and without the
/// space around it, where there is one, and it holds every fragment, in lower case.
pub open spec fn meets(refs: ReferenceAnswers, lower: Seq<char>) -> bool {
    &&& refs.exact_match matches Some(e) ==> lower == lower_text(trimmed(e@))
    &&& forall|i: int|
        0 <= i < refs.must_include@.len() ==> has_text(
            lower,
            lower_text((#[trigger] refs.must_include@[i])@),
        )
    &&& forall|i: int|
        0 <= i < refs.fuzzy_match@.len() ==> has_text(
            lower,
            lower_text((#[trigger] refs.fuzzy_match@[i])@),
        )
}

/// An answer matches if and only if there are references and it meets them.
pub proof fn answers_match_their_references(
    eval: &WebArenaEval,
    answer: &str,
    lower: &str,
    r: Result<(), String>,
)
    requires
        call_ensures(check_string_match, (eval, answer, lower), r),
    ensures
        r is Ok <==> (eval.reference_answers matches Some(refs) && meets(refs, lower@)),
{
    if eval.reference_answers is Some {
        match_is_meeting(eval.reference_answers->0, answer@, lower@);
    }
}

proof fn match_is_meeting(refs: ReferenceAnswers, answer: Seq<char>, lower: Seq<char>)
    ensures
        crate::webarena::config::mismatch(Some(refs), answer, lower) is None <==> meets(
            refs,
            lower,
        ),
{
    let a = views(refs.must_include@);
    let b = views(refs.fuzzy_match@);
    none_filtered(lower, a);
    none_filtered(lower, b);
    assert forall|i: int| 0 <= i < a.len() implies #[trigger] a[i] == refs.must_include@[i]@ by {}
    assert forall|i: int| 0 <= i < b.len() implies #[trigger] b[i] == refs.fuzzy_match@[i]@ by {}
    if meets(refs, lower) {
        assert forall|i: int| 0 <= i < a.len() implies has_text(lower, lower_text(#[trigger] a[i])) by {
            assert(has_text(lower, lower_text(refs.must_include@[i]@)));
        }
        assert forall|i: int| 0 <= i < b.len() implies has_text(lower, lower_text(#[trigger] b[i])) by {
            assert(has_text(lower, lower_text(refs.fuzzy_match@[i]@)));
        }
    }
    if crate::webarena::config::mismatch(Some(refs), answer, lower) is None {
        assert forall|i: int| 0 <= i < refs.must_include@.len() implies has_text(
            lower,
            lower_text((#[trigger] refs.must_include@[i])@),
        ) by {
            assert(has_text(lower, lower_text(a[i])));
        }
        assert forall|i: int| 0 <= i < refs.fuzzy_match@.len() implies has_text(
            lower,
            lower_text((#[trigger] refs.fuzzy_match@[i])@),
        ) by {
            assert(has_text(lower, lower_text(b[i])));
        }
    }
}

/// A run passes its rubric if and only if it ended with an answer, every check is one of
/// the answer's text, and, where there is any, the answer meets the references.
pub proof fn rubrics_pass_what_meets_them(eval: &WebArenaEval, traj: &Trajectory)
    ensures
        rubric_verdict(eval, traj).success <==> {
            &&& traj.stop_reason is Done
            &&& traj.answer is Some
            &&& forall|i: int|
                0 <= i < eval.eval_types@.len() ==> (#[trigger] eval.eval_types@[i])@
                    == "string_match"@
            &&& eval.eval_types@.len() > 0 ==> (eval.reference_answers matches Some(refs) && meets(
                refs,
                lower_text(trimmed(traj.answer->0@)),
            ))
        },
{
    if traj.stop_reason is Done && traj.answer is Some {
        let answer = trimmed(traj.answer->0@);
        let kinds = views(eval.eval_types@);
        no_failure(kinds, eval.reference_answers, answer);
        if eval.reference_answers is Some {
            match_is_meeting(eval.reference_answers->0, answer, lower_text(answer));
        }
        assert forall|i: int| 0 <= i < kinds.len() implies #[trigger] kinds[i]
            == eval.eval_types@[i]@ by {}
        if forall|i: int|
            0 <= i < eval.eval_types@.len() ==> (#[trigger] eval.eval_types@[i])@
                == "string_match"@ {
            assert forall|i: int| 0 <= i < kinds.len() implies #[trigger] kinds[i]
                == "string_match"@ by {
                assert(eval.eval_types@[i]@ == "string_match"@);
            }
        }
        if forall|i: int| 0 <= i < kinds.len() ==> #[trigger] kinds[i] == "string_match"@ {
            assert forall|i: int| 0 <= i < eval.eval_types@.len() implies (
            #[trigger] eval.eval_types@[i])@ == "string_match"@ by {
                assert(kinds[i] == "string_match"@);
            }
        }
    }
}

proof fn no_failure(kinds: Seq<Seq<char>>, refs: Option<ReferenceAnswers>, answer: Seq<char>)
    ensures
        first_failure(kinds, refs, answer) is None <==> (forall|i: int|
            0 <= i < kinds.len() ==> #[trigger] kinds[i] == "string_match"@) && (kinds.len() > 0
            ==> crate::webarena::config::mismatch(refs, answer, lower_text(answer)) is None),
    decreases kinds.len(),
{
    if kinds.len() > 0 {
        let rest = kinds.skip(1);
        no_failure(rest, refs, answer);
        assert forall|i: int| 0 < i < kinds.len() implies #[trigger] kinds[i] == rest[i - 1] by {}
        assert forall|i: int| 0 <= i < rest.len() implies #[trigger] rest[i] == kinds[i + 1] by {}
        if forall|i: int| 0 <= i < kinds.len() ==> #[trigger] kinds[i] == "string_match"@ {
            assert(kinds[0] == "string_match"@);
            assert forall|i: int| 0 <= i < rest.len() implies #[trigger] rest[i]
                == "string_match"@ by {
                assert(kinds[i + 1] == "string_match"@);
            }
        }
        if first_failure(kinds, refs, answer) is None {
            assert(kinds[0] == "string_match"@);
            assert forall|i: int| 0 <= i < kinds.len() implies #[trigger] kinds[i]
                == "string_match"@ by {
                if i > 0 {
                    assert(rest[i - 1] == "string_match"@);
                }
            }
        }
    }
}

/// A run passes a task if and only if it ended with an answer in which every expected text
/// stands, both trimmed and in any ASCII case; else the reason says what was missing, in
/// the order in which it was expected.
pub proof fn missing_fragments_are_named(task: &Task, traj: &Trajectory)
    ensures
        ({
            let v = crate::webarena::judge::substring_verdict(task, traj);
            let missing = views(task.expected@).filter(
                |e: Seq<char>|
                    !has_text(ascii_lower(trimmed(traj.answer->0@)), ascii_lower(trimmed(e))),
            );
            let ended = traj.stop_reason is Done;
            &&& v.success <==> ended && traj.answer is Some && missing.len() == 0
            &&& v.success ==> v.reason.len() == 0
            &&& ended && traj.answer is Some && missing.len() > 0 ==> v.reason
                == "missing expected fragments: ["@ + joined(
                missing.map_values(|t: Seq<char>| debugged(t)),
                ", "@,
            ) + "]"@
            &&& ended && traj.answer is None ==> v.reason == "no answer captured"@
            &&& traj.stop_reason is MaxSteps ==> v.reason
                == "trajectory did not terminate via done: MaxSteps"@
            &&& traj.stop_reason matches StopReason::Error(m) ==> v.reason
                == "trajectory did not terminate via done: Error("@ + debugged(m@) + ")"@
        }),
{
    missing_are_filtered(traj.answer->0@, views(task.expected@));
    let missing = views(task.expected@).filter(
        |e: Seq<char>| !has_text(ascii_lower(trimmed(traj.answer->0@)), ascii_lower(trimmed(e))),
    );
    let list = joined(missing.map_values(|t: Seq<char>| debugged(t)), ", "@);
    reveal_strlit("missing expected fragments: ");
    reveal_strlit("missing expected fragments: [");
    reveal_strlit("[");
    assert("missing expected fragments: "@ + ("["@ + list + "]"@)
        =~= "missing expected fragments: ["@ + list + "]"@);
    reveal_strlit("trajectory did not terminate via done: ");
    reveal_strlit("trajectory did not terminate via done: MaxSteps");
    reveal_strlit("trajectory did not terminate via done: Error(");
    reveal_strlit("MaxSteps");
    reveal_strlit("Error(");
    assert("trajectory did not terminate via done: "@ + "MaxSteps"@
        =~= "trajectory did not terminate via done: MaxSteps"@);
    if traj.stop_reason is Error {
        let m = debugged(traj.stop_reason->Error_0@);
        assert("trajectory did not terminate via done: "@ + ("Error("@ + m + ")"@)
            =~= "trajectory did not terminate via done: Error("@ + m + ")"@);
    }
}

proof fn missing_are_filtered(answer: Seq<char>, expected: Seq<Seq<char>>)
    ensures
        crate::webarena::judge::missing_in(answer, expected) == expected.filter(
            |e: Seq<char>| !has_text(ascii_lower(trimmed(answer)), ascii_lower(trimmed(e))),
        ),
    decreases expected.len(),
{
    reveal(Seq::filter);
    if expected.len() > 0 {
        missing_are_filtered(answer, expected.drop_last());
    }
}

/// What an answer lacks of its references is named: the exact answer before the texts that
/// it must hold, and those before the ones that it should.
pub proof fn lacking_answers_are_told(
    eval: &WebArenaEval,
    traj: &Trajectory,
    refs: ReferenceAnswers,
)
    requires
        traj.stop_reason is Done,
        traj.answer is Some,
        eval.eval_types@.len() > 0,
        eval.eval_types@[0]@ == "string_match"@,
        eval.reference_answers == Some(refs),
    ensures
        ({
            let v = rubric_verdict(eval, traj);
            let answer = trimmed(traj.answer->0@);
            let lacks = |n: Seq<char>| !has_text(lower_text(answer), lower_text(n));
            let quoted = |n: Seq<char>| debugged(n);
            let must = views(refs.must_include@).filter(lacks);
            let should = views(refs.fuzzy_match@).filter(lacks);
            let exact = refs.exact_match matches Some(e) ==> lower_text(answer) == lower_text(
                trimmed(e@),
            );
            &&& !exact ==> v.reason == "exact_match expected "@ + debugged(refs.exact_match->0@)
                + ", got "@ + debugged(answer)
            &&& exact && must.len() > 0 ==> v.reason == "must_include missing: "@ + ("["@ + joined(
                must.map_values(quoted),
                ", "@,
            ) + "]"@)
            &&& exact && must.len() == 0 && should.len() > 0 ==> v.reason
                == "fuzzy_match (substring approximation) missing: "@ + ("["@ + joined(
                should.map_values(quoted),
                ", "@,
            ) + "]"@)
        }),
{
    let answer = trimmed(traj.answer->0@);
    let kinds = views(eval.eval_types@);
    assert(kinds[0] == "string_match"@);
    absent_are_filtered(lower_text(answer), views(refs.must_include@));
    absent_are_filtered(lower_text(answer), views(refs.fuzzy_match@));
}

/// A check of another kind fails, and says that it cannot be made.
pub proof fn other_checks_fail(eval: &WebArenaEval, traj: &Trajectory)
    requires
        traj.stop_reason is Done,
        traj.answer is Some,
        eval.eval_types@.len() > 0,
        eval.eval_types@[0]@ != "string_match"@,
    ensures
        ({
            let v = rubric_verdict(eval, traj);
            let kind = eval.eval_types@[0]@;
            &&& !v.success
            &&& kind == "url_match"@ ==> v.reason
                == "url_match eval not yet supported — Trajectory needs a final_url field; track in a follow-up issue"@
            &&& kind == "program_html"@ ==> v.reason
                == "program_html eval not yet supported — needs a post-task DOM fetch + lxml-style locator port"@
            &&& kind != "url_match"@ && kind != "program_html"@ ==> v.reason
                == "unknown eval type: "@ + debugged(kind)
        }),
{
    reveal_strlit("url_match");
    reveal_strlit("program_html");
    assert("url_match"@.len() == 9 && "program_html"@.len() == 12);
    let kinds = views(eval.eval_types@);
    assert(kinds[0] == eval.eval_types@[0]@);
}

// ---- tasks -------------------------------------------------------------------------

/// A task is its configuration's: its number, its page, its intent, and its limit, or the
/// given one where it has none.
pub proof fn tasks_are_as_configured(
    cfg: &WebArenaConfig,
    map: &UrlMap,
    limit: u32,
    r: Result<Task, String>,
    url: Result<String, String>,
    start: &str,
)
    requires
        call_ensures(to_task, (cfg, map, limit), r),
        start@ == cfg.start_url@,
        call_ensures(apply_url_map, (start, map), url),
    ensures
        r is Ok <==> url is Ok,
        r matches Ok(t) ==> {
            &&& t.start_url@ == url->Ok_0@
            &&& t.instruction@ == cfg.intent@
            &&& cfg.max_steps matches Some(n) ==> t.max_steps == n
            &&& cfg.max_steps is None ==> t.max_steps == limit
            &&& cfg.task_id >= 0 ==> t.id@ == decimal(cfg.task_id as nat)
            &&& cfg.task_id < 0 ==> t.id@ == "-"@ + decimal((-cfg.task_id) as nat)
            &&& t.expected@.len() == 0
        },
{
}

/// Unless it says otherwise, a task has twenty steps.
pub proof fn tasks_have_twenty_steps(r: u32)
    requires
        call_ensures(default_max_steps, (), r),
    ensures
        r == 20,
{
}

/// The sites that a URL may name.
pub proof fn sites_have_names(r: Vec<String>)
    requires
        call_ensures(known_variables, (), r),
    ensures
        views(r@) == seq![
            "SHOPPING"@,
            "SHOPPING_ADMIN"@,
            "MAP"@,
            "REDDIT"@,
            "GITLAB"@,
            "WIKIPEDIA"@,
            "HOMEPAGE"@,
        ],
{
}

/// A variable that is set stands for its value between double underscores; the last of a
/// name counts, and one that is not set, or empty, stands for nothing.
pub proof fn variables_stand_for_their_values(
    vars: &Vec<(String, Option<String>)>,
    r: UrlMap,
    i: int,
)
    requires
        call_ensures(url_map_from_variables, (vars,), r),
        0 <= i < vars@.len(),
        vars@[i].1 is Some,
        vars@[i].1->0@.len() > 0,
        forall|j: int|
            i < j < vars@.len() ==> (#[trigger] vars@[j]).0@ != vars@[i].0@ || vars@[j].1 is None
                || vars@[j].1->0@.len() == 0,
    ensures
        entries_map(r@).dom().contains("__"@ + vars@[i].0@ + "__"@),
        entries_map(r@)["__"@ + vars@[i].0@ + "__"@] == vars@[i].1->0@,
{
    last_variable(vars@, i);
}

proof fn last_variable(vars: Seq<(String, Option<String>)>, i: int)
    requires
        0 <= i < vars.len(),
        vars[i].1 is Some,
        vars[i].1->0@.len() > 0,
        forall|j: int|
            i < j < vars.len() ==> (#[trigger] vars[j]).0@ != vars[i].0@ || vars[j].1 is None
                || vars[j].1->0@.len() == 0,
    ensures
        variable_map(vars).dom().contains("__"@ + vars[i].0@ + "__"@),
        variable_map(vars)["__"@ + vars[i].0@ + "__"@] == vars[i].1->0@,
    decreases vars.len(),
{
    let n = vars.len() - 1;
    if i < n {
        let front = vars.drop_last();
        assert(front[i] == vars[i]);
        assert forall|j: int| i < j < front.len() implies (#[trigger] front[j]).0@ != front[i].0@
            || front[j].1 is None || front[j].1->0@.len() == 0 by {
            assert(front[j] == vars[j]);
        }
        last_variable(front, i);
        let a = "__"@ + vars[i].0@ + "__"@;
        let b = "__"@ + vars[n].0@ + "__"@;
        if a == b {
            reveal_strlit("__");
            assert(a.len() == vars[i].0@.len() + 4);
            assert(a.subrange(2, a.len() - 2) =~= vars[i].0@);
            assert(b.subrange(2, b.len() - 2) =~= vars[n].0@);
        }
    }
}

// ---- URLs --------------------------------------------------------------------------

/// A placeholder that the map knows is replaced where it stands.
pub proof fn placeholders_are_replaced(
    url: &str,
    map: &UrlMap,
    a: Seq<char>,
    key: Seq<char>,
    value: Seq<char>,
    b: Seq<char>,
    r: Result<String, String>,
)
    requires
        call_ensures(apply_url_map, (url, map), r),
        map@ == seq![(key, value)],
        key.len() > 0,
        url@ == a + key + b,
        forall|i: int| 0 <= i < a.len() ==> !(#[trigger] occurs_at(a + key + b, key, i)),
        !has_text(b, key),
    ensures
        r matches Ok(s) ==> s@ == a + value + b,
        !has_text(a + value + b, "__"@) ==> r is Ok,
{
    let entries = map@;
    assert(entries.drop_last() =~= seq![]);
    assert(substituted(url@, entries.drop_last()) == url@);
    assert(entries.last() == (key, value));
    crate::text::laws::first_place_is_replaced(a, key, b, value);
    crate::text::laws::nothing_else_is_replaced(b, key, value);
    let text = a + value + b;
    assert(substituted(url@, entries) == text);
    if !has_text(text, "__"@) {
        crate::webarena::urlmap::plain_urls_pass(text, seq![]);
    }
}

/// A placeholder that is left is refused.
pub proof fn unknown_placeholders_are_refused(
    url: &str,
    map: &UrlMap,
    a: Seq<char>,
    name: Seq<char>,
    b: Seq<char>,
    r: Result<String, String>,
)
    requires
        call_ensures(apply_url_map, (url, map), r),
        substituted(url@, map@) == a + "__"@ + name + "__"@ + b,
        name.len() > 0,
        !a.contains('_'),
        !name.contains('_'),
    ensures
        r is Err,
{
    reveal_strlit("__");
    let u = "__"@;
    let s = a + u + name + u + b;
    let n: int = a.len() as int;
    assert(s.subrange(n, n + 2) =~= u);
    assert(occurs_at(s, u, n));
    assert forall|j: int| 0 <= j < n implies !#[trigger] occurs_at(s, u, j) by {
        if occurs_at(s, u, j) {
            assert(s.subrange(j, j + 2)[0] == '_');
            assert(s[j] == a[j]);
            assert(a.contains('_'));
        }
    }
    assert(first_at(s, u, n));
    let x = choose|i: int| first_at(s, u, i);
    first_is_one(s, u, n, x);
    let tail = s.skip(n + 2);
    let m: int = name.len() as int;
    assert(tail =~= name + u + b);
    assert(tail.subrange(m, m + 2) =~= u);
    assert(occurs_at(tail, u, m));
    assert forall|j: int| 0 <= j < m implies !#[trigger] occurs_at(tail, u, j) by {
        if occurs_at(tail, u, j) {
            assert(tail.subrange(j, j + 2)[0] == '_');
            assert(tail[j] == name[j]);
            assert(name.contains('_'));
        }
    }
    assert(first_at(tail, u, m));
    let y = choose|i: int| first_at(tail, u, i);
    first_is_one(tail, u, m, y);
    assert(placeholders(s).len() > 0);
}

proof fn first_is_one(s: Seq<char>, u: Seq<char>, a: int, b: int)
    requires
        first_at(s, u, a),
        first_at(s, u, b),
    ensures
        a == b,
{
    if a < b {
        assert(!occurs_at(s, u, a));
    }
    if b < a {
        assert(!occurs_at(s, u, b));
    }
}

// ---- totals ------------------------------------------------------------------------

proof fn passes_are_filtered(s: Seq<(String, bool, u64, String)>)
    ensures
        passes(s) == s.filter(|e: (String, bool, u64, String)| e.1).len(),
    decreases s.len(),
{
    reveal(Seq::filter);
    if s.len() > 0 {
        passes_are_filtered(s.drop_last());
    }
}

/// The time of two lists together is that of the one and that of the other; that of one
/// run is its own.
pub proof fn times_add_up(
    a: Seq<(String, bool, u64, String)>,
    b: Seq<(String, bool, u64, String)>,
    x: (String, bool, u64, String),
)
    ensures
        time_total(a + b) == time_total(a) + time_total(b),
        time_total(seq![x]) == x.2,
    decreases b.len(),
{
    let one = seq![x];
    assert(one.drop_last() =~= seq![]);
    assert(time_total(one.drop_last()) == 0);
    if b.len() == 0 {
        assert(a + b =~= a);
    } else {
        times_add_up(a, b.drop_last(), x);
        assert((a + b).drop_last() =~= a + b.drop_last());
        assert((a + b).last() == b.last());
    }
}

/// The totals of a list of runs: how many passed, how long all took, and the time that is
/// in the middle once all are in order.
pub proof fn totals_count_every_run(summary: &[(String, bool, u64, String)], r: Totals, m: u64)
    requires
        call_ensures(totals, (summary,), r),
        call_ensures(median_ms, (summary,), m),
    ensures
        r.passed == summary@.filter(|e: (String, bool, u64, String)| e.1).len(),
        r.total_ms == time_total(summary@),
        r.median_ms == m,
        summary@.len() == 0 ==> m == 0,
        summary@.len() > 0 ==> exists|t: Seq<u64>|
            {
                &&& t.to_multiset() == summary@.map_values(
                    |e: (String, bool, u64, String)| e.2,
                ).to_multiset()
                &&& forall|i: int, j: int|
                    0 <= i < j < t.len() ==> #[trigger] t[i] <= #[trigger] t[j]
                &&& t.len() == summary@.len()
                &&& m == #[trigger] t[summary@.len() as int / 2]
            },
{
    passes_are_filtered(summary@);
    let s = times(summary@);
    assert(s =~= summary@.map_values(|e: (String, bool, u64, String)| e.2));
    if summary@.len() > 0 {
        let t = s.sort_by(at_most());
        assert(total_ordering(at_most()));
        s.lemma_sort_by_ensures(at_most());
        s.to_multiset_ensures();
        t.to_multiset_ensures();
        assert(s.to_multiset() == t.to_multiset());
        assert(t.len() == s.len());
        assert forall|i: int, j: int| 0 <= i < j < t.len() implies #[trigger] t[i]
            <= #[trigger] t[j] by {
            assert(at_most()(t[i], t[j]));
        }
        assert(m == t[summary@.len() as int / 2]);
    }
}

// ---- the wire ----------------------------------------------------------------------

/// What a block says in JSON, by its kind.
pub proof fn blocks_say_what_they_are(b: &Block, r: Json)
    requires
        call_ensures(block_to_api, (b,), r),
    ensures
        b@ matches BlockModel::Text(t) ==> says(r@, "type"@, JsonModel::Text("text"@)) && says(
            r@,
            "text"@,
            JsonModel::Text(t),
        ),
        b@ matches BlockModel::ToolUse(id, call) ==> says(
            r@,
            "type"@,
            JsonModel::Text("tool_use"@),
        ) && says(r@, "id"@, JsonModel::Text(id)) && says(r@, "name"@, JsonModel::Text(call.name))
            && says(r@, "input"@, call.input),
        b@ matches BlockModel::ToolResult(id, content, bad) ==> says(
            r@,
            "type"@,
            JsonModel::Text("tool_result"@),
        ) && says(r@, "tool_use_id"@, JsonModel::Text(id)) && says(
            r@,
            "content"@,
            JsonModel::Text(content),
        ) && says(r@, "is_error"@, JsonModel::Bool(bad)),
{
    reveal_strlit("type");
    reveal_strlit("text");
    reveal_strlit("id");
    reveal_strlit("name");
    reveal_strlit("input");
    reveal_strlit("tool_use_id");
    reveal_strlit("content");
    reveal_strlit("is_error");
    assert("type"@.len() == 4 && "text"@.len() == 4 && "id"@.len() == 2 && "name"@.len() == 4);
    assert("type"@[1] == 'y' && "text"@[1] == 'e' && "name"@[0] == 'n' && "type"@[0] == 't');
    assert("input"@.len() == 5 && "tool_use_id"@.len() == 11 && "content"@.len() == 7);
    assert("is_error"@.len() == 8);
    assert(r@->Object_0[0].0 == "type"@);
    match b@ {
        BlockModel::Text(t) => {
            assert(r@->Object_0[1].0 == "text"@);
        },
        BlockModel::ToolUse(id, call) => {
            assert(r@->Object_0[1].0 == "id"@);
            assert(r@->Object_0[2].0 == "name"@);
            assert(r@->Object_0[3].0 == "input"@);
        },
        BlockModel::ToolResult(id, content, bad) => {
            assert(r@->Object_0[1].0 == "tool_use_id"@);
            assert(r@->Object_0[2].0 == "content"@);
            assert(r@->Object_0[3].0 == "is_error"@);
        },
    }
}

/// A message says who speaks, and has every block, in order.
pub proof fn messages_say_who_speaks(m: &Message, r: Json)
    requires
        call_ensures(message_to_api, (m,), r),
    ensures
        m.role == Role::User ==> says(r@, "role"@, JsonModel::Text("user"@)),
        m.role == Role::Assistant ==> says(r@, "role"@, JsonModel::Text("assistant"@)),
        says(
            r@,
            "content"@,
            JsonModel::Array(m@.content.map_values(|b: BlockModel| block_json(b))),
        ),
{
    reveal_strlit("role");
    reveal_strlit("content");
    assert("role"@.len() == 4 && "content"@.len() == 7);
    assert(r@->Object_0[0].0 == "role"@);
    assert(r@->Object_0[1].0 == "content"@);
}

/// A request to the model says which model, how many tokens, the system prompt, every tool
/// and every message, in order.
pub proof fn requests_say_everything(
    c: &AnthropicClient,
    system: &str,
    messages: &Vec<Message>,
    tools: &Vec<Json>,
    r: Json,
)
    requires
        call_ensures(AnthropicClient::request_body, (c, system, messages, tools), r),
    ensures
        says(r@, "model"@, JsonModel::Text(c.model@)),
        says(r@, "max_tokens"@, JsonModel::Unsigned(c.max_tokens as u64)),
        says(r@, "system"@, JsonModel::Text(system@)),
        says(r@, "tools"@, JsonModel::Array(crate::json::json_views(tools@))),
        says(
            r@,
            "messages"@,
            JsonModel::Array(messages@.map_values(|m: Message| message_json(m@))),
        ),
{
    reveal_strlit("model");
    reveal_strlit("max_tokens");
    reveal_strlit("system");
    reveal_strlit("tools");
    reveal_strlit("messages");
    assert("model"@.len() == 5 && "max_tokens"@.len() == 10 && "system"@.len() == 6);
    assert("tools"@.len() == 5 && "messages"@.len() == 8);
    assert("model"@[0] == 'm' && "tools"@[0] == 't');
    assert(r@->Object_0[0].0 == "model"@);
    assert(r@->Object_0[1].0 == "max_tokens"@);
    assert(r@->Object_0[2].0 == "system"@);
    assert(r@->Object_0[3].0 == "tools"@);
    assert(r@->Object_0[4].0 == "messages"@);
    assert(crate::webarena::llm::message_views(messages@).map_values(
        |m: MessageModel| message_json(m),
    ) =~= messages@.map_values(|m: Message| message_json(m@)));
}

/// A request to the model is posted to its endpoint as JSON, under the key, with the body
/// that says everything.
pub proof fn requests_are_posted(
    c: &AnthropicClient,
    system: &str,
    messages: &Vec<Message>,
    tools: &Vec<Json>,
    body: Json,
    text: String,
    r: crate::fetch::client::FetchRequest,
)
    requires
        call_ensures(AnthropicClient::request_body, (c, system, messages, tools), body),
        call_ensures(Json::to_text, (&body,), text),
        call_ensures(AnthropicClient::request, (c, system, messages, tools), r),
    ensures
        r.url@ == c.endpoint@,
        r.method@ == "POST"@,
        r.body@ == encode_utf8(text@),
        r@.headers.contains(("content-type"@, "application/json"@)),
        r@.headers.contains(("x-api-key"@, c.api_key@)),
        r@.headers.contains(("anthropic-version"@, "2023-06-01"@)),
        r@.headers.len() == 3,
{
    assert(r@.url == r.url@ && r@.method == r.method@ && r@.body == r.body@);
    assert(r@.headers[0] == ("content-type"@, "application/json"@));
    assert(r@.headers[1] == ("x-api-key"@, c.api_key@));
    assert(r@.headers[2] == ("anthropic-version"@, "2023-06-01"@));
}

/// A client needs a key.
pub proof fn clients_need_a_key(
    key: Option<String>,
    model: &str,
    r: Result<AnthropicClient, String>,
)
    requires
        call_ensures(AnthropicClient::from_env, (key, model), r),
    ensures
        r is Ok <==> key is Some && key->0@.len() > 0,
        r matches Ok(c) ==> c.api_key@ == key->0@ && c.model@ == model@ && c.max_tokens == 4096
            && c.endpoint@ == "https://api.anthropic.com/v1/messages"@,
{
}

/// A block of the reply is told by its kind: text is added to the text, on a line of its
/// own, a call behind the calls, and any other kind is passed over.
pub proof fn replies_are_read_block_by_block(t: TurnModel, b: JsonModel, id: Seq<char>, v: Seq<char>, input: JsonModel)
    ensures
        says(b, "type"@, JsonModel::Text("text"@)) && says(b, "text"@, JsonModel::Text(v))
            ==> with_block(t, b) is Ok && with_block(t, b)->Ok_0.calls == t.calls && (t.text.len()
            == 0 ==> with_block(t, b)->Ok_0.text == v) && (t.text.len() > 0 ==> with_block(
            t,
            b,
        )->Ok_0.text == t.text + "\n"@ + v),
        says(b, "type"@, JsonModel::Text("tool_use"@)) && says(b, "id"@, JsonModel::Text(id))
            && says(b, "name"@, JsonModel::Text(v)) && says(b, "input"@, input) ==> with_block(t, b)
            is Ok && with_block(t, b)->Ok_0.text == t.text && with_block(t, b)->Ok_0.calls
            == t.calls.push((id, CallModel { name: v, input })),
        says(b, "type"@, JsonModel::Text("tool_use"@)) && (says_nothing(b, "id"@) || says_nothing(
            b,
            "name"@,
        )) ==> with_block(t, b) is Err,
        says_nothing(b, "type"@) ==> with_block(t, b) == Ok::<TurnModel, Seq<char>>(t),
{
    reveal_strlit("text");
    reveal_strlit("tool_use");
    assert("text"@.len() == 4 && "tool_use"@.len() == 8);
    members_are_found_by_name(b, "type"@, JsonModel::Text("text"@));
    members_are_found_by_name(b, "type"@, JsonModel::Text("tool_use"@));
    members_are_found_by_name(b, "text"@, JsonModel::Text(v));
    members_are_found_by_name(b, "id"@, JsonModel::Text(id));
    members_are_found_by_name(b, "name"@, JsonModel::Text(v));
    members_are_found_by_name(b, "input"@, input);
}

/// A turn is read off all the blocks of a reply, in order; a reply without them is refused.
pub proof fn turns_are_read_off_all_blocks(
    response: &Json,
    blocks: Seq<JsonModel>,
    b: JsonModel,
    r: Result<AssistantTurn, String>,
    longer: &Json,
    s: Result<AssistantTurn, String>,
)
    requires
        says(response@, "content"@, JsonModel::Array(blocks)),
        call_ensures(parse_assistant_turn, (response,), r),
        says(longer@, "content"@, JsonModel::Array(blocks.push(b))),
        call_ensures(parse_assistant_turn, (longer,), s),
    ensures
        r matches Ok(t) ==> crate::webarena::llm::turn_view(s) == with_block(t@, b),
        r is Err ==> s is Err,
        blocks.len() == 0 ==> r is Ok && r->Ok_0@.text.len() == 0 && r->Ok_0@.calls.len() == 0,
{
    members_are_found_by_name(response@, "content"@, JsonModel::Array(blocks));
    members_are_found_by_name(longer@, "content"@, JsonModel::Array(blocks.push(b)));
    assert(blocks.push(b).drop_last() =~= blocks);
}

/// A reply counts if its status says success, from 200 to 299.
pub proof fn only_success_is_read(status: u16, body: &Vec<u8>, r: Result<Json, String>)
    requires
        100 <= status < 1000,
        call_ensures(read_reply, (status, body), r),
    ensures
        !(200 <= status <= 299) ==> r is Err,
        200 <= status <= 299 ==> (r matches Ok(j) ==> crate::json::json_in_bytes(body@) == Ok::<
            JsonModel,
            Seq<char>,
        >(j@)) && (r is Err <==> crate::json::json_in_bytes(body@) is Err),
{
}

// ---- prompts -----------------------------------------------------------------------

proof fn every_element_has_a_line(s: Seq<InteractiveElement>)
    ensures
        element_lines(s) == s.map_values(
            |e: InteractiveElement| element_line(e.index as nat, e@),
        ).flatten(),
    decreases s.len(),
{
    let f = |e: InteractiveElement| element_line(e.index as nat, e@);
    if s.len() == 0 {
        assert(s.map_values(f) =~= seq![]);
    } else {
        every_element_has_a_line(s.drop_last());
        let before = s.drop_last().map_values(f);
        assert(s.map_values(f) =~= before.push(f(s.last())));
        before.lemma_flatten_push(f(s.last()));
    }
}

/// A prompt shows the page: its URL, its title where it has one, a line for each element
/// that can be acted on, under its index, and its text.
pub proof fn prompts_show_the_page(snap: &PageSnapshot, r: String)
    requires
        call_ensures(snapshot_for_prompt, (snap,), r),
    ensures
        ({
            let title = if snap.title@.len() > 0 {
                "Title: "@ + snap.title@ + "\n"@
            } else {
                seq![]
            };
            let lines = if snap.interactive@.len() > 0 {
                snap.interactive@.map_values(
                    |e: InteractiveElement|
                        "  ["@ + decimal(e.index as nat) + "] "@ + e.kind@ + " — "@ + e.label@
                            + " ("@ + e.selector@ + ")\n"@,
                ).flatten()
            } else {
                "  (none — page has no forms, fields, links, or buttons)\n"@
            };
            let text = if snap.text_summary@.len() > 0 {
                "\nText summary:\n"@ + snap.text_summary@ + "\n"@
            } else {
                seq![]
            };
            r@ == "URL: "@ + snap.url@ + "\n"@ + title + "\nInteractive elements:\n"@ + lines + text
        }),
{
    every_element_has_a_line(snap.interactive@);
    assert(snap.interactive@.map_values(
        |e: InteractiveElement| element_line(e.index as nat, e@),
    ) =~= snap.interactive@.map_values(
        |e: InteractiveElement|
            "  ["@ + decimal(e.index as nat) + "] "@ + e.kind@ + " — "@ + e.label@ + " ("@
                + e.selector@ + ")\n"@,
    ));
}

/// The first turn says the task and shows the page; a later one shows the page as it is
/// then.
pub proof fn turns_show_the_page(
    instruction: &str,
    snap: &PageSnapshot,
    page: String,
    first: String,
    later: String,
)
    requires
        call_ensures(snapshot_for_prompt, (snap,), page),
        call_ensures(format_user_turn, (instruction, snap), first),
        call_ensures(format_followup_turn, (snap,), later),
    ensures
        first@ == "Task: "@ + instruction@ + "\n\n--- current page ---\n"@ + page@,
        later@ == "--- current page after the last action ---\n"@ + page@,
{
}

// ---- runs --------------------------------------------------------------------------

/// A run begins with the task and the page, and asks for a turn if it has any.
pub proof fn runs_begin_with_the_task(task: &Task, snap: &PageSnapshot, r: AgentRun, said: String, instruction: &str)
    requires
        call_ensures(AgentRun::start, (task, snap), r),
        instruction@ == task.instruction@,
        call_ensures(format_user_turn, (instruction, snap), said),
    ensures
        r@.task_id == task.id@,
        task.max_steps > 0 ==> r@.need == Need::Turn,
        task.max_steps == 0 ==> r@.need == Need::Nothing,
        r@.turns_left == task.max_steps,
        r@.messages.len() == 1,
        r@.messages[0].role == Role::User,
        r@.messages[0].content == seq![BlockModel::Text(said@)],
        r@.steps.len() == 0 && r@.answer is None,
{
}

/// A turn takes one of those that are left. Its text and its calls are kept, and become a
/// message; a turn without a call is the end, and an error.
pub proof fn turns_are_kept(run: &mut AgentRun, turn: AssistantTurn)
    requires
        call_ensures(AgentRun::turn, (run, turn), ()),
        old(run)@.turns_left > 0,
    ensures
        final(run)@.turns_left == old(run)@.turns_left - 1,
        turn.calls@.len() > 0 ==> final(run)@.need == Need::Outcome && final(run)@.stop_reason
            == old(run)@.stop_reason,
        turn.calls@.len() == 0 ==> final(run)@.need == Need::Nothing
            && final(run)@.stop_reason is Error,
        final(run)@.calls == turn@.calls,
        final(run)@.text == turn.text@,
        final(run)@.steps == old(run)@.steps && final(run)@.answer == old(run)@.answer,
        turn.text@.len() > 0 || turn.calls@.len() > 0 ==> final(run)@.messages.len()
            == old(run)@.messages.len() + 1 && final(run)@.messages.last().role
            == Role::Assistant && final(run)@.messages.drop_last() == old(run)@.messages,
        turn.text@.len() > 0 ==> final(run)@.messages.last().content[0] == BlockModel::Text(
            turn.text@,
        ),
        forall|i: int|
            0 <= i < turn.calls@.len() ==> final(run)@.messages.last().content.contains(
                BlockModel::ToolUse((#[trigger] turn.calls@[i]).0@, turn.calls@[i].1@),
            ),
{
    let a = old(run)@;
    let b = final(run)@;
    let t = turn@;
    let blocks = crate::webarena::agent::turn_blocks(t);
    assert(t.calls.len() == turn.calls@.len());
    if turn.text@.len() > 0 || turn.calls@.len() > 0 {
        assert(blocks.len() > 0);
        assert(b.messages.drop_last() =~= a.messages);
    }
    if turn.text@.len() > 0 {
        assert(blocks[0] == BlockModel::Text(t.text));
    }
    assert forall|i: int| 0 <= i < turn.calls@.len() implies b.messages.last().content.contains(
        BlockModel::ToolUse((#[trigger] turn.calls@[i]).0@, turn.calls@[i].1@),
    ) by {
        let k: int = blocks.len() - t.calls.len() + i;
        assert(t.calls[i] == (turn.calls@[i].0@, turn.calls@[i].1@));
        assert(blocks[k] == BlockModel::ToolUse(turn.calls@[i].0@, turn.calls@[i].1@));
    }
}

/// What came of a call is kept as a step, under its number, and is answered to the model;
/// `done` is the end, with its answer.
pub proof fn outcomes_are_kept(run: &mut AgentRun, outcome: Result<DispatchOutcome, String>)
    requires
        call_ensures(AgentRun::outcome, (run, outcome), ()),
        old(run)@.calls.len() > 0,
    ensures
        ({
            let a = old(run)@;
            let b = final(run)@;
            let (id, call) = a.calls[0];
            let step = b.steps.last();
            &&& b.steps.len() == a.steps.len() + 1
            &&& b.steps.drop_last() == a.steps
            &&& step.call == call && step.tool_use_id == id && step.assistant_text == a.text
            &&& step.is_error <==> outcome is Err
            &&& outcome matches Err(e) ==> step.result == e@
            &&& outcome matches Ok(DispatchOutcome::Continue { brief }) ==> step.result == brief@
            &&& b.calls == a.calls.skip(1)
            &&& b.results == a.results.push(
                BlockModel::ToolResult(id, step.result, outcome is Err),
            )
            &&& outcome matches Ok(DispatchOutcome::Done { answer }) ==> b.need == Need::Nothing
                && b.answer == Some(answer@) && b.stop_reason == StopModel::Done
            &&& !(outcome is Ok && outcome->Ok_0 is Done) ==> b.answer == a.answer && b.stop_reason
                == a.stop_reason && (a.calls.len() == 1 ==> b.need == Need::Snapshot) && (
            a.calls.len() > 1 ==> b.need == Need::Outcome)
            &&& b.turns_left == a.turns_left && b.messages == a.messages
        }),
{
    let a = old(run)@;
    let b = final(run)@;
    assert(b.steps.drop_last() =~= a.steps);
}

/// A look at the page answers every call of the turn, and asks for the next turn if any is
/// left.
pub proof fn looks_answer_the_turn(run: &mut AgentRun, snap: &PageSnapshot, said: String)
    requires
        call_ensures(AgentRun::look, (run, snap), ()),
        call_ensures(format_followup_turn, (snap,), said),
    ensures
        ({
            let a = old(run)@;
            let b = final(run)@;
            &&& a.turns_left > 0 ==> b.need == Need::Turn
            &&& a.turns_left == 0 ==> b.need == Need::Nothing
            &&& b.messages.len() == a.messages.len() + 1
            &&& b.messages.drop_last() == a.messages
            &&& b.messages.last().role == Role::User
            &&& b.messages.last().content == a.results.push(BlockModel::Text(said@))
            &&& b.results.len() == 0
            &&& b.steps == a.steps && b.answer == a.answer && b.turns_left == a.turns_left
        }),
{
    assert(final(run)@.messages.drop_last() =~= old(run)@.messages);
}

/// A run that is over is told with its answer, every step, its time and why it ended.
pub proof fn runs_are_told(run: AgentRun, elapsed_ms: u64, r: Trajectory)
    requires
        call_ensures(AgentRun::finish, (run, elapsed_ms), r),
    ensures
        r.task_id@ == run@.task_id,
        r.elapsed_ms == elapsed_ms,
        run@.answer is None <==> r.answer is None,
        run@.answer matches Some(a) ==> r.answer->0@ == a,
        r.steps@.len() == run@.steps.len(),
        run@.stop_reason is Done <==> r.stop_reason is Done,
        run@.stop_reason is MaxSteps <==> r.stop_reason is MaxSteps,
{
    assert(crate::webarena::trajectory::step_views(r.steps@).len() == r.steps@.len());
}

// ---- the rest ------------------------------------------------------------------------

/// A target is read off a call as it is aimed.
pub proof fn targets_are_read_as_aimed(
    input: &Json,
    t: TargetModel,
    r: Result<crate::session::Target, String>,
)
    requires
        call_ensures(crate::webarena::tools::parse_target, (input,), r),
    ensures
        aims_at(input@, t) ==> r is Ok && r->Ok_0@ == t,
        says_nothing(input@, "index"@) && says_nothing(input@, "selector"@) ==> r is Err,
{
    if aims_at(input@, t) {
        aimed_is_read(input@, t);
    }
    members_are_found_by_name(input@, "index"@, JsonModel::Null);
    members_are_found_by_name(input@, "selector"@, JsonModel::Null);
}

/// The tools that are offered, by name and in order.
pub proof fn tools_are_offered_by_name(r: Vec<Json>)
    requires
        call_ensures(crate::webarena::tools::tool_schemas, (), r),
    ensures
        r@.len() == 11,
        says(r@[0]@, "name"@, JsonModel::Text("click"@)),
        says(r@[1]@, "name"@, JsonModel::Text("fill"@)),
        says(r@[2]@, "name"@, JsonModel::Text("submit"@)),
        says(r@[3]@, "name"@, JsonModel::Text("click_text"@)),
        says(r@[4]@, "name"@, JsonModel::Text("select_option"@)),
        says(r@[5]@, "name"@, JsonModel::Text("press_key"@)),
        says(r@[6]@, "name"@, JsonModel::Text("goto"@)),
        says(r@[7]@, "name"@, JsonModel::Text("read"@)),
        says(r@[8]@, "name"@, JsonModel::Text("wait_for"@)),
        says(r@[9]@, "name"@, JsonModel::Text("back"@)),
        says(r@[10]@, "name"@, JsonModel::Text("done"@)),
{
    let v = crate::json::json_views(r@);
    assert(v.len() == r@.len());
    assert forall|i: int| 0 <= i < 11 implies says(
        #[trigger] r@[i]@,
        "name"@,
        r@[i]@->Object_0[0].1,
    ) by {
        assert(v[i] == r@[i]@);
        assert(r@[i]@->Object_0[0].0 == "name"@);
    }
    assert(v[0] == r@[0]@ && v[1] == r@[1]@ && v[2] == r@[2]@ && v[3] == r@[3]@);
    assert(v[4] == r@[4]@ && v[5] == r@[5]@ && v[6] == r@[6]@ && v[7] == r@[7]@);
    assert(v[8] == r@[8]@ && v[9] == r@[9]@ && v[10] == r@[10]@);
}

/// A tool takes these arguments, each with its type, and cannot do without those that are
/// needed.
pub open spec fn takes(
    tool: JsonModel,
    args: Seq<(Seq<char>, Seq<char>)>,
    needed: Seq<Seq<char>>,
) -> bool {
    exists|schema: JsonModel, props: JsonModel|
        {
            &&& #[trigger] says(tool, "input_schema"@, schema)
            &&& #[trigger] says(schema, "properties"@, props)
            &&& says(schema, "type"@, JsonModel::Text("object"@))
            &&& props is Object
            &&& props->Object_0.len() == args.len()
            &&& forall|i: int|
                0 <= i < args.len() ==> #[trigger] props->Object_0[i] == (
                    args[i].0,
                    JsonModel::Object(seq![("type"@, JsonModel::Text(args[i].1))]),
                )
            &&& needed.len() == 0 ==> says_nothing(schema, "required"@)
            &&& needed.len() > 0 ==> says(
                schema,
                "required"@,
                JsonModel::Array(needed.map_values(|n: Seq<char>| JsonModel::Text(n))),
            )
        }
}

/// What each tool takes. All that act on an element take its selector or its number.
pub proof fn tools_say_what_they_take(r: Vec<Json>)
    requires
        call_ensures(crate::webarena::tools::tool_schemas, (), r),
    ensures
        ({
            let s = ("selector"@, "string"@);
            let n = ("index"@, "integer"@);
            &&& takes(r@[0]@, seq![s, n], seq![])
            &&& takes(r@[1]@, seq![s, n, ("value"@, "string"@)], seq!["value"@])
            &&& takes(r@[2]@, seq![s, n], seq![])
            &&& takes(r@[3]@, seq![("text"@, "string"@)], seq!["text"@])
            &&& takes(r@[4]@, seq![s, n, ("value"@, "string"@)], seq!["value"@])
            &&& takes(r@[5]@, seq![s, n, ("key"@, "string"@)], seq!["key"@])
            &&& takes(r@[6]@, seq![("url"@, "string"@)], seq!["url"@])
            &&& takes(r@[7]@, seq![s, n, ("mode"@, "string"@)], seq![])
            &&& takes(
                r@[8]@,
                seq![s, ("text"@, "string"@), ("timeout_ms"@, "integer"@)],
                seq![],
            )
            &&& takes(r@[9]@, seq![], seq![])
            &&& takes(r@[10]@, seq![("answer"@, "string"@)], seq!["answer"@])
        }),
{
    let v = crate::json::json_views(r@);
    assert(v.len() == r@.len());
    let s = ("selector"@, "string"@);
    let n = ("index"@, "integer"@);
    let t = crate::webarena::tools::target_props();
    assert(t =~= seq![s, n]);
    assert(t.push(("value"@, "string"@)) =~= seq![s, n, ("value"@, "string"@)]);
    assert(t.push(("key"@, "string"@)) =~= seq![s, n, ("key"@, "string"@)]);
    assert(t.push(("mode"@, "string"@)) =~= seq![s, n, ("mode"@, "string"@)]);
    assert(v[0] == r@[0]@ && v[1] == r@[1]@ && v[2] == r@[2]@ && v[3] == r@[3]@);
    assert(v[4] == r@[4]@ && v[5] == r@[5]@ && v[6] == r@[6]@ && v[7] == r@[7]@);
    assert(v[8] == r@[8]@ && v[9] == r@[9]@ && v[10] == r@[10]@);
    schema_takes(r@[0]@, seq![s, n], seq![]);
    schema_takes(r@[1]@, seq![s, n, ("value"@, "string"@)], seq!["value"@]);
    schema_takes(r@[2]@, seq![s, n], seq![]);
    schema_takes(r@[3]@, seq![("text"@, "string"@)], seq!["text"@]);
    schema_takes(r@[4]@, seq![s, n, ("value"@, "string"@)], seq!["value"@]);
    schema_takes(r@[5]@, seq![s, n, ("key"@, "string"@)], seq!["key"@]);
    schema_takes(r@[6]@, seq![("url"@, "string"@)], seq!["url"@]);
    schema_takes(r@[7]@, seq![s, n, ("mode"@, "string"@)], seq![]);
    schema_takes(
        r@[8]@,
        seq![s, ("text"@, "string"@), ("timeout_ms"@, "integer"@)],
        seq![],
    );
    schema_takes(r@[9]@, seq![], seq![]);
    schema_takes(r@[10]@, seq![("answer"@, "string"@)], seq!["answer"@]);
}

proof fn schema_takes(
    tool: JsonModel,
    args: Seq<(Seq<char>, Seq<char>)>,
    needed: Seq<Seq<char>>,
)
    requires
        tool is Object,
        tool->Object_0.len() == 3,
        tool->Object_0[0].0 == "name"@,
        tool->Object_0[1].0 == "description"@,
        tool->Object_0[2] == ("input_schema"@, crate::webarena::tools::schema_model(args, needed)),
    ensures
        takes(tool, args, needed),
{
    reveal_strlit("name");
    reveal_strlit("description");
    reveal_strlit("input_schema");
    reveal_strlit("type");
    reveal_strlit("properties");
    reveal_strlit("required");
    let schema = tool->Object_0[2].1;
    let m = schema->Object_0;
    let props = m[1].1;
    assert(m[0] == ("type"@, JsonModel::Text("object"@)));
    assert(m[1].0 == "properties"@);
    assert("properties"@ != "type"@ && "required"@ != "type"@ && "required"@ != "properties"@) by {
        assert("properties"@.len() == 10 && "type"@.len() == 4 && "required"@.len() == 8);
    }
    assert("input_schema"@ != "name"@ && "input_schema"@ != "description"@) by {
        assert("input_schema"@.len() == 12 && "name"@.len() == 4 && "description"@.len() == 11);
    }
    assert(tool->Object_0[2] == ("input_schema"@, schema));
    assert(says(tool, "input_schema"@, schema));
    assert(says(schema, "properties"@, props));
    assert(says(schema, "type"@, JsonModel::Text("object"@)));
    if needed.len() > 0 {
        assert(m[2].0 == "required"@);
    }
}

/// A run that did not end with an answer is told apart.
pub proof fn only_answers_are_judged(traj: &Trajectory, r: Option<String>)
    requires
        call_ensures(crate::webarena::judge::check_answered, (traj,), r),
    ensures
        r is None <==> traj.stop_reason is Done && traj.answer is Some,
{
}

/// Scripted turns come in order, each once, and then there are none.
pub proof fn scripted_turns_come_in_order(
    turns: Vec<AssistantTurn>,
    c: ScriptedClient,
    a: &mut ScriptedClient,
    first: Result<AssistantTurn, String>,
    b: &mut ScriptedClient,
    second: Result<AssistantTurn, String>,
)
    requires
        call_ensures(ScriptedClient::new, (turns,), c),
        *old(a) == c,
        call_ensures(ScriptedClient::next_turn, (a,), first),
        *old(b) == *final(a),
        call_ensures(ScriptedClient::next_turn, (b,), second),
    ensures
        turns@.len() > 0 <==> first is Ok,
        first is Ok ==> first->Ok_0 == turns@[0],
        turns@.len() > 1 <==> second is Ok,
        second is Ok ==> second->Ok_0 == turns@[1],
{
}

} // verus!
