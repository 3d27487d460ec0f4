//! The loop of an agent: a model is shown a page, asks for tools, and is shown
//! what came of them.
use crate::snapshot::{ActionModel, InteractiveElement, PageSnapshot};
use crate::text::{decimal, push_decimal};
use crate::webarena::llm::{
    block_views, call_views, message_views, AssistantTurn, Block, BlockModel, Message,
    MessageModel, Role, TurnModel,
};
use crate::webarena::task::Task;
use crate::webarena::tools::{DispatchOutcome, OutcomeModel};
use crate::webarena::trajectory::{
    step_views, CallModel, StepModel, StopReason, ToolCall, Trajectory, TrajectoryStep,
};
use vstd::prelude::*;
use vstd::string::*;

verus! {

/// What the model is told before anything else.
pub const SYSTEM_PROMPT: &'static str =
    "You drive a headless browser through structured tools. Each user turn includes the current page snapshot — forms, links, buttons, an `interactive` list with stable indices. Reference elements by `index` whenever possible. Issue tool calls until you've completed the user's task, then call `done` with a concise final answer.";

// ---- prompts -------------------------------------------------------------------

/// The line that shows an element.
pub open spec fn element_line(index: nat, e: ActionModel) -> Seq<char> {
    "  ["@ + decimal(index) + "] "@ + e.kind + " — "@ + e.label + " ("@ + e.selector + ")\n"@
}

/// The lines of a list of elements, under the indices that they carry.
pub open spec fn element_lines(s: Seq<InteractiveElement>) -> Seq<char>
    decreases s.len(),
{
    if s.len() == 0 {
        seq![]
    } else {
        element_lines(s.drop_last()) + element_line(s.last().index as nat, s.last()@)
    }
}

/// The page as the model sees it: its URL, its title, what can be acted on, and
/// the start of its text.
pub open spec fn page_prompt(snap: &PageSnapshot) -> Seq<char> {
    "URL: "@ + snap.url@ + "\n"@ + (if snap.title@.len() > 0 {
        "Title: "@ + snap.title@ + "\n"@
    } else {
        seq![]
    }) + "\nInteractive elements:\n"@ + (if snap.interactive@.len() == 0 {
        "  (none — page has no forms, fields, links, or buttons)\n"@
    } else {
        element_lines(snap.interactive@)
    }) + (if snap.text_summary@.len() > 0 {
        "\nText summary:\n"@ + snap.text_summary@ + "\n"@
    } else {
        seq![]
    })
}

fn push_element(out: &mut String, e: &InteractiveElement)
    ensures
        final(out)@ == old(out)@ + element_line(e.index as nat, e@),
{
    let ghost before = out@;
    out.append("  [");
    push_decimal(out, e.index as u64);
    out.append("] ");
    out.append(e.kind.as_str());
    out.append(" — ");
    out.append(e.label.as_str());
    out.append(" (");
    out.append(e.selector.as_str());
    out.append(")\n");
    assert(out@ =~= before + element_line(e.index as nat, e@));
}

pub fn snapshot_for_prompt(snap: &PageSnapshot) -> (r: String)
    ensures
        r@ == page_prompt(snap),
{
    let mut out = "URL: ".to_owned();
    out.append(snap.url.as_str());
    out.append("\n");
    let ghost head = out@;
    let ghost title = if snap.title@.len() > 0 {
        "Title: "@ + snap.title@ + "\n"@
    } else {
        seq![]
    };
    if !snap.title.as_str().is_empty() {
        out.append("Title: ");
        out.append(snap.title.as_str());
        out.append("\n");
    }
    assert(out@ =~= head + title);
    out.append("\nInteractive elements:\n");
    let ghost top = out@;
    if snap.interactive.len() == 0 {
        out.append("  (none — page has no forms, fields, links, or buttons)\n");
    }
    let ghost mid = out@;
    let mut i: usize = 0;
    assert(out@ =~= mid + element_lines(snap.interactive@.take(0)));
    while i < snap.interactive.len()
        invariant
            i <= snap.interactive@.len(),
            out@ == mid + element_lines(snap.interactive@.take(i as int)),
        decreases snap.interactive@.len() - i,
    {
        push_element(&mut out, &snap.interactive[i]);
        let ghost s = snap.interactive@.take(i + 1);
        assert(s.drop_last() =~= snap.interactive@.take(i as int));
        assert(s.last() == snap.interactive@[i as int]);
        assert(out@ =~= mid + element_lines(s));
        i = i + 1;
    }
    assert(snap.interactive@.take(i as int) =~= snap.interactive@);
    let ghost list = if snap.interactive@.len() == 0 {
        "  (none — page has no forms, fields, links, or buttons)\n"@
    } else {
        element_lines(snap.interactive@)
    };
    assert(out@ =~= top + list);
    if !snap.text_summary.as_str().is_empty() {
        out.append("\nText summary:\n");
        out.append(snap.text_summary.as_str());
        out.append("\n");
    }
    assert(out@ =~= page_prompt(snap));
    out
}

pub open spec fn user_prompt(instruction: Seq<char>, snap: &PageSnapshot) -> Seq<char> {
    "Task: "@ + instruction + "\n\n--- current page ---\n"@ + page_prompt(snap)
}

pub fn format_user_turn(instruction: &str, snap: &PageSnapshot) -> (r: String)
    ensures
        r@ == user_prompt(instruction@, snap),
{
    let mut s = "Task: ".to_owned();
    s.append(instruction);
    s.append("\n\n--- current page ---\n");
    s.append(snapshot_for_prompt(snap).as_str());
    s
}

pub open spec fn followup_prompt(snap: &PageSnapshot) -> Seq<char> {
    "--- current page after the last action ---\n"@ + page_prompt(snap)
}

pub fn format_followup_turn(snap: &PageSnapshot) -> (r: String)
    ensures
        r@ == followup_prompt(snap),
{
    let mut s = "--- current page after the last action ---\n".to_owned();
    s.append(snapshot_for_prompt(snap).as_str());
    s
}

// ---- the loop ------------------------------------------------------------------

/// What a run needs next.
#[derive(Clone, Copy, Debug, PartialEq, Eq, Structural)]
pub enum Need {
    /// The model's next turn.
    Turn,
    /// What came of the next call of the turn.
    Outcome,
    /// A snapshot of the page as it is now.
    Snapshot,
    /// Nothing: the run is over.
    Nothing,
}

/// A run in progress.
#[derive(Debug)]
pub struct AgentRun {
    task_id: String,
    need: Need,
    /// How many turns the model may still take.
    turns_left: u32,
    messages: Vec<Message>,
    steps: Vec<TrajectoryStep>,
    /// The text of the turn.
    text: String,
    /// The calls of the turn that have no outcome yet.
    calls: Vec<(String, ToolCall)>,
    /// The results of the turn so far.
    results: Vec<Block>,
    answer: Option<String>,
    stop_reason: StopReason,
}

/// Why a run stops.
#[verifier::ext_equal]
pub enum StopModel {
    Done,
    MaxSteps,
    Error(Seq<char>),
}

pub open spec fn stop_view(r: StopReason) -> StopModel {
    match r {
        StopReason::Done => StopModel::Done,
        StopReason::MaxSteps => StopModel::MaxSteps,
        StopReason::Error(e) => StopModel::Error(e@),
    }
}

/// The contents of an [`AgentRun`].
#[verifier::ext_equal]
pub struct RunModel {
    pub task_id: Seq<char>,
    pub need: Need,
    pub turns_left: nat,
    pub messages: Seq<MessageModel>,
    pub steps: Seq<StepModel>,
    pub text: Seq<char>,
    pub calls: Seq<(Seq<char>, CallModel)>,
    pub results: Seq<BlockModel>,
    pub answer: Option<Seq<char>>,
    pub stop_reason: StopModel,
}

impl View for AgentRun {
    type V = RunModel;

    closed spec fn view(&self) -> RunModel {
        RunModel {
            task_id: self.task_id@,
            need: self.need,
            turns_left: self.turns_left as nat,
            messages: message_views(self.messages@),
            steps: step_views(self.steps@),
            text: self.text@,
            calls: call_views(self.calls@),
            results: block_views(self.results@),
            answer: crate::dom::text_view(self.answer),
            stop_reason: stop_view(self.stop_reason),
        }
    }
}

/// A run of a task that starts on a page.
pub open spec fn begun(id: Seq<char>, max_steps: nat, prompt: Seq<char>) -> RunModel {
    RunModel {
        task_id: id,
        need: if max_steps == 0 {
            Need::Nothing
        } else {
            Need::Turn
        },
        turns_left: max_steps,
        messages: seq![MessageModel { role: Role::User, content: seq![BlockModel::Text(prompt)] }],
        steps: seq![],
        text: seq![],
        calls: seq![],
        results: seq![],
        answer: None,
        stop_reason: StopModel::MaxSteps,
    }
}

/// What a turn of the model leaves in the conversation: its text where there is
/// one, then its calls.
pub open spec fn turn_blocks(t: TurnModel) -> Seq<BlockModel> {
    (if t.text.len() > 0 {
        seq![BlockModel::Text(t.text)]
    } else {
        seq![]
    }) + t.calls.map_values(|c: (Seq<char>, CallModel)| BlockModel::ToolUse(c.0, c.1))
}

/// A run after a turn of the model. A turn without a call ends it.
pub open spec fn after_turn(run: RunModel, t: TurnModel) -> RunModel {
    let blocks = turn_blocks(t);
    RunModel {
        need: if t.calls.len() == 0 {
            Need::Nothing
        } else {
            Need::Outcome
        },
        turns_left: (run.turns_left - 1) as nat,
        messages: if blocks.len() > 0 {
            run.messages.push(MessageModel { role: Role::Assistant, content: blocks })
        } else {
            run.messages
        },
        text: t.text,
        calls: t.calls,
        results: seq![],
        stop_reason: if t.calls.len() == 0 {
            StopModel::Error("model returned no tool call"@)
        } else {
            run.stop_reason
        },
        ..run
    }
}

/// The text that goes back to the model for an outcome.
pub open spec fn outcome_text(o: Result<OutcomeModel, Seq<char>>) -> Seq<char> {
    match o {
        Ok(OutcomeModel::Done(a)) => "done — answer captured ("@ + decimal(a.len()) + " chars)"@,
        Ok(OutcomeModel::Continue(brief)) => brief,
        Err(e) => e,
    }
}

/// A run after its next call came to something. `done` ends it; after any other
/// call the next one follows, and after the last call of the turn a snapshot.
pub open spec fn after_outcome(run: RunModel, o: Result<OutcomeModel, Seq<char>>) -> RunModel {
    let (id, call) = run.calls[0];
    let text = outcome_text(o);
    let step = StepModel {
        assistant_text: run.text,
        call,
        tool_use_id: id,
        result: text,
        is_error: o is Err,
    };
    let done = o is Ok && o->Ok_0 is Done;
    RunModel {
        need: if done {
            Need::Nothing
        } else if run.calls.len() == 1 {
            Need::Snapshot
        } else {
            Need::Outcome
        },
        steps: run.steps.push(step),
        calls: run.calls.skip(1),
        results: run.results.push(BlockModel::ToolResult(id, text, o is Err)),
        answer: if done {
            Some(o->Ok_0->Done_0)
        } else {
            run.answer
        },
        stop_reason: if done {
            StopModel::Done
        } else {
            run.stop_reason
        },
        ..run
    }
}

/// A run after the page has been looked at: the results of the turn and the page
/// go to the model, which takes its next turn if it has one left.
pub open spec fn after_look(run: RunModel, prompt: Seq<char>) -> RunModel {
    RunModel {
        need: if run.turns_left == 0 {
            Need::Nothing
        } else {
            Need::Turn
        },
        messages: run.messages.push(
            MessageModel { role: Role::User, content: run.results.push(BlockModel::Text(prompt)) },
        ),
        results: seq![],
        ..run
    }
}

/// What holds of every run.
pub open spec fn sound(run: RunModel) -> bool {
    &&& run.need == Need::Turn ==> run.turns_left > 0
    &&& run.need == Need::Outcome ==> run.calls.len() > 0
    &&& run.answer is Some <==> run.stop_reason is Done
    &&& run.need != Need::Nothing ==> run.stop_reason is MaxSteps
    &&& run.need == Need::Nothing && run.stop_reason is MaxSteps ==> run.turns_left == 0
}

pub open spec fn outcome_view(r: Result<DispatchOutcome, String>) -> Result<
    OutcomeModel,
    Seq<char>,
> {
    match r {
        Ok(o) => Ok(o@),
        Err(e) => Err(e@),
    }
}

impl AgentRun {
    /// Starts a task on the page that it opened.
    pub fn start(task: &Task, snap: &PageSnapshot) -> (r: AgentRun)
        ensures
            r@ == begun(task.id@, task.max_steps as nat, user_prompt(task.instruction@, snap)),
            sound(r@),
    {
        let mut content: Vec<Block> = Vec::new();
        content.push(Block::Text { text: format_user_turn(task.instruction.as_str(), snap) });
        let ghost prompt = user_prompt(task.instruction@, snap);
        assert(block_views(content@) =~= seq![BlockModel::Text(prompt)]);
        let mut messages: Vec<Message> = Vec::new();
        messages.push(Message { role: Role::User, content });
        let r = AgentRun {
            task_id: task.id.clone(),
            need: if task.max_steps == 0 {
                Need::Nothing
            } else {
                Need::Turn
            },
            turns_left: task.max_steps,
            messages,
            steps: Vec::new(),
            text: String::new(),
            calls: Vec::new(),
            results: Vec::new(),
            answer: None,
            stop_reason: StopReason::MaxSteps,
        };
        assert(r@ =~= begun(task.id@, task.max_steps as nat, prompt));
        r
    }

    /// What the run needs next.
    pub fn need(&self) -> (r: Need)
        ensures
            r == self@.need,
    {
        self.need
    }

    /// The conversation so far.
    pub fn messages(&self) -> (r: &Vec<Message>)
        ensures
            message_views(r@) == self@.messages,
    {
        &self.messages
    }

    /// The call whose outcome is needed.
    pub fn call(&self) -> (r: &ToolCall)
        requires
            sound(self@),
            self@.need == Need::Outcome,
        ensures
            r@ == self@.calls[0].1,
    {
        assert(self@.calls.len() == self.calls@.len());
        &self.calls[0].1
    }

    /// Takes a turn of the model.
    pub fn turn(&mut self, turn: AssistantTurn)
        requires
            sound(old(self)@),
            old(self)@.need == Need::Turn,
        ensures
            final(self)@ == after_turn(old(self)@, turn@),
            sound(final(self)@),
    {
        let ghost before = self@;
        let mut blocks: Vec<Block> = Vec::new();
        if !turn.text.as_str().is_empty() {
            blocks.push(Block::Text { text: turn.text.clone() });
        }
        let ghost head = block_views(blocks@);
        assert(head =~= if turn.text@.len() > 0 {
            seq![BlockModel::Text(turn.text@)]
        } else {
            seq![]
        });
        let ghost uses = turn@.calls.map_values(
            |c: (Seq<char>, CallModel)| BlockModel::ToolUse(c.0, c.1),
        );
        let mut i: usize = 0;
        assert(block_views(blocks@) =~= head + uses.take(0));
        while i < turn.calls.len()
            invariant
                i <= turn.calls@.len(),
                uses == call_views(turn.calls@).map_values(
                    |c: (Seq<char>, CallModel)| BlockModel::ToolUse(c.0, c.1),
                ),
                block_views(blocks@) == head + uses.take(i as int),
            decreases turn.calls@.len() - i,
        {
            let ghost prior = blocks@;
            let b = Block::ToolUse { id: turn.calls[i].0.clone(), call: turn.calls[i].1.copy() };
            blocks.push(b);
            assert(block_views(blocks@) =~= block_views(prior).push(b@));
            assert(uses[i as int] == b@);
            assert(uses.take(i + 1) =~= uses.take(i as int).push(uses[i as int]));
            i = i + 1;
        }
        assert(uses.take(i as int) =~= uses);
        assert(block_views(blocks@) =~= turn_blocks(turn@));
        assert(turn_blocks(turn@).len() == blocks@.len());
        if blocks.len() > 0 {
            let ghost prior = self.messages@;
            let m = Message { role: Role::Assistant, content: blocks };
            self.messages.push(m);
            assert(message_views(self.messages@) =~= message_views(prior).push(m@));
        }
        self.turns_left = self.turns_left - 1;
        assert(turn@.calls.len() == turn.calls@.len());
        if turn.calls.len() == 0 {
            self.stop_reason = StopReason::Error("model returned no tool call".to_owned());
            self.need = Need::Nothing;
        } else {
            self.need = Need::Outcome;
        }
        self.text = turn.text;
        self.calls = turn.calls;
        self.results = Vec::new();
        assert(block_views(self.results@) =~= seq![]);
        assert(self@ =~= after_turn(before, turn@));
    }

    /// Takes what came of the call that [`AgentRun::call`] gave.
    pub fn outcome(&mut self, outcome: Result<DispatchOutcome, String>)
        requires
            sound(old(self)@),
            old(self)@.need == Need::Outcome,
        ensures
            final(self)@ == after_outcome(old(self)@, outcome_view(outcome)),
            sound(final(self)@),
    {
        let ghost before = self@;
        let ghost o = outcome_view(outcome);
        assert(before.calls.len() == self.calls@.len());
        let ghost calls = self.calls@;
        let (id, call) = self.calls.remove(0);
        assert(call_views(self.calls@) =~= before.calls.skip(1));
        assert(before.calls[0] == (id@, call@));
        let mut is_error = false;
        let text: String;
        let mut done = false;
        match outcome {
            Ok(DispatchOutcome::Done { answer }) => {
                let mut s = "done — answer captured (".to_owned();
                push_decimal(&mut s, answer.as_str().unicode_len() as u64);
                s.append(" chars)");
                text = s;
                self.answer = Some(answer);
                self.stop_reason = StopReason::Done;
                done = true;
            },
            Ok(DispatchOutcome::Continue { brief }) => {
                text = brief;
            },
            Err(e) => {
                text = e;
                is_error = true;
            },
        }
        assert(text@ == outcome_text(o));
        let b = Block::ToolResult { tool_use_id: id.clone(), content: text.clone(), is_error };
        let ghost results = self.results@;
        self.results.push(b);
        assert(block_views(self.results@) =~= block_views(results).push(b@));
        let s = TrajectoryStep {
            assistant_text: self.text.clone(),
            call,
            tool_use_id: id,
            result: text,
            is_error,
        };
        let ghost steps = self.steps@;
        self.steps.push(s);
        assert(step_views(self.steps@) =~= step_views(steps).push(s@));
        if done {
            self.need = Need::Nothing;
        } else if self.calls.len() == 0 {
            self.need = Need::Snapshot;
        } else {
            self.need = Need::Outcome;
        }
        assert(self@ =~= after_outcome(before, o));
    }

    /// Takes a snapshot of the page after the calls of a turn.
    pub fn look(&mut self, snap: &PageSnapshot)
        requires
            sound(old(self)@),
            old(self)@.need == Need::Snapshot,
        ensures
            final(self)@ == after_look(old(self)@, followup_prompt(snap)),
            sound(final(self)@),
    {
        let ghost before = self@;
        let mut content: Vec<Block> = Vec::new();
        core::mem::swap(&mut self.results, &mut content);
        let ghost prior = content@;
        let b = Block::Text { text: format_followup_turn(snap) };
        content.push(b);
        assert(block_views(content@) =~= block_views(prior).push(b@));
        let ghost said = self.messages@;
        let m = Message { role: Role::User, content };
        self.messages.push(m);
        assert(message_views(self.messages@) =~= message_views(said).push(m@));
        self.need = if self.turns_left == 0 {
            Need::Nothing
        } else {
            Need::Turn
        };
        assert(self@ =~= after_look(before, followup_prompt(snap)));
    }

    /// The run as it is to be scored.
    pub fn finish(self, elapsed_ms: u64) -> (r: Trajectory)
        ensures
            r.task_id@ == self@.task_id,
            crate::dom::text_view(r.answer) == self@.answer,
            step_views(r.steps@) == self@.steps,
            r.elapsed_ms == elapsed_ms,
            stop_view(r.stop_reason) == self@.stop_reason,
    {
        Trajectory {
            task_id: self.task_id,
            answer: self.answer,
            steps: self.steps,
            elapsed_ms,
            stop_reason: self.stop_reason,
        }
    }
}

// ---- laws ----------------------------------------------------------------------

/// A run stays sound whatever the model, the tools and the page come up with, and
/// each turn of the model uses up one of those it has left.
pub proof fn runs_stay_sound(
    run: RunModel,
    t: TurnModel,
    o: Result<OutcomeModel, Seq<char>>,
    prompt: Seq<char>,
)
    requires
        sound(run),
    ensures
        run.need == Need::Turn ==> sound(after_turn(run, t)) && after_turn(run, t).turns_left
            == run.turns_left - 1,
        run.need == Need::Outcome ==> sound(after_outcome(run, o)) && after_outcome(
            run,
            o,
        ).turns_left == run.turns_left,
        run.need == Need::Snapshot ==> sound(after_look(run, prompt)) && after_look(
            run,
            prompt,
        ).turns_left == run.turns_left,
{
}

/// A call that fails does not end a run: it is recorded as an error, and the run
/// goes on with the next call or a snapshot.
pub proof fn failed_calls_do_not_end_a_run(run: RunModel, e: Seq<char>)
    requires
        sound(run),
        run.need == Need::Outcome,
    ensures
        after_outcome(run, Err(e)).need != Need::Nothing,
        after_outcome(run, Err(e)).steps.last().is_error,
        after_outcome(run, Err(e)).steps.last().result == e,
{
}

/// A run after the calls of a turn have come to something, one after the other.
pub open spec fn after_outcomes(
    run: RunModel,
    os: Seq<Result<OutcomeModel, Seq<char>>>,
) -> RunModel
    decreases os.len(),
{
    if os.len() == 0 {
        run
    } else {
        after_outcome(after_outcomes(run, os.drop_last()), os.last())
    }
}

/// Every call of a turn gets one result, under its own id and in the order of the
/// calls, and then the page is looked at.
pub proof fn every_call_is_answered(run: RunModel, os: Seq<Result<OutcomeModel, Seq<char>>>)
    requires
        sound(run),
        run.need == Need::Outcome,
        run.results.len() == 0,
        os.len() == run.calls.len(),
        forall|i: int|
            0 <= i < os.len() ==> !((#[trigger] os[i]) is Ok && os[i]->Ok_0 is Done),
    ensures
        after_outcomes(run, os).need == Need::Snapshot,
        after_outcomes(run, os).results.len() == run.calls.len(),
        after_outcomes(run, os).steps.len() == run.steps.len() + run.calls.len(),
        forall|i: int|
            0 <= i < run.calls.len() ==> #[trigger] after_outcomes(run, os).results[i]
                == BlockModel::ToolResult(run.calls[i].0, outcome_text(os[i]), os[i] is Err),
{
    some_calls_are_answered(run, os);
}

proof fn some_calls_are_answered(run: RunModel, os: Seq<Result<OutcomeModel, Seq<char>>>)
    requires
        sound(run),
        run.need == Need::Outcome,
        run.results.len() == 0,
        os.len() <= run.calls.len(),
        forall|i: int|
            0 <= i < os.len() ==> !((#[trigger] os[i]) is Ok && os[i]->Ok_0 is Done),
    ensures
        after_outcomes(run, os).need == (if os.len() == run.calls.len() {
            Need::Snapshot
        } else {
            Need::Outcome
        }),
        after_outcomes(run, os).calls == run.calls.skip(os.len() as int),
        after_outcomes(run, os).steps.len() == run.steps.len() + os.len(),
        after_outcomes(run, os).results.len() == os.len(),
        forall|i: int|
            0 <= i < os.len() ==> #[trigger] after_outcomes(run, os).results[i]
                == BlockModel::ToolResult(run.calls[i].0, outcome_text(os[i]), os[i] is Err),
    decreases os.len(),
{
    if os.len() == 0 {
        assert(run.calls.skip(0) =~= run.calls);
    } else {
        let front = os.drop_last();
        assert forall|i: int| 0 <= i < front.len() implies !((#[trigger] front[i]) is Ok
            && front[i]->Ok_0 is Done) by {
            assert(front[i] == os[i]);
        }
        some_calls_are_answered(run, front);
        let mid = after_outcomes(run, front);
        assert(mid.calls.skip(1) =~= run.calls.skip(os.len() as int));
        assert(mid.calls[0] == run.calls[os.len() - 1]);
        assert(os[os.len() - 1] == os.last());
        assert forall|i: int| 0 <= i < os.len() implies #[trigger] after_outcomes(run, os).results[i]
            == BlockModel::ToolResult(run.calls[i].0, outcome_text(os[i]), os[i] is Err) by {
            if i < front.len() {
                assert(front[i] == os[i]);
                assert(after_outcomes(run, os).results[i] == mid.results[i]);
            }
        }
    }
}

/// A run that is over either has an answer, or says that its turns ran out or that
/// the model made no call.
pub proof fn runs_end_for_a_reason(run: RunModel)
    requires
        sound(run),
        run.need == Need::Nothing,
    ensures
        run.stop_reason is Done ==> run.answer is Some,
        run.stop_reason is MaxSteps ==> run.turns_left == 0 && run.answer is None,
        run.stop_reason is Error ==> run.answer is None,
{
}

} // verus!
