//! Commands, what each of them comes down to, and chains of steps.
use crate::session::{BrowseError, ChainStep, ChainStepOutput, ReadMode, Target};
use vstd::prelude::*;
use vstd::string::*;

verus! {

/// A command to a session.
pub enum Command {
    Goto { url: String },
    Click { selector: String },
    Fill { selector: String, value: String },
    Submit { selector: String },
    Read { selector: String, mode: ReadMode },
    Eval { expr: String },
    Snapshot,
    ClickTarget { target: Target },
    FillTarget { target: Target, value: String },
    SubmitTarget { target: Target },
    ReadTarget { target: Target, mode: ReadMode },
    ClickText { text: String },
    SelectOption { target: Target, value: String },
    PressKey { target: Target, key: String },
    WaitFor { selector: String, timeout_ms: u64 },
    WaitForText { needle: String, timeout_ms: u64 },
    WaitMs { ms: u64 },
    Back,
    Forward,
    Chain { steps: Vec<ChainStep> },
}

/// One thing that a session does. Those that take a target first find out which
/// selector it stands for.
pub enum Primitive {
    Goto(String),
    Click(Target),
    Fill(Target, String),
    Submit(Target),
    Read(Target, ReadMode),
    Eval(String),
    Snapshot,
    ClickText(String),
    SelectOption(Target, String),
    PressKey(Target, String),
    WaitFor(String, u64),
    WaitForText(String, u64),
    Wait(u64),
    Back,
    Forward,
}

/// What a session does for a command.
pub enum Plan {
    One(Primitive),
    /// One after the other, up to the first that fails.
    Many(Vec<Primitive>),
}

/// What a step of a chain comes down to.
pub open spec fn step_primitive(s: ChainStep) -> Primitive {
    match s {
        ChainStep::Click(target) => Primitive::Click(target),
        ChainStep::Fill { target, value } => Primitive::Fill(target, value),
        ChainStep::Submit(target) => Primitive::Submit(target),
        ChainStep::Goto(url) => Primitive::Goto(url),
        ChainStep::Read { target, mode } => Primitive::Read(target, mode),
        ChainStep::Eval(expr) => Primitive::Eval(expr),
        ChainStep::Snapshot => Primitive::Snapshot,
        ChainStep::PressKey { target, key } => Primitive::PressKey(target, key),
        ChainStep::SelectOption { target, value } => Primitive::SelectOption(target, value),
        ChainStep::ClickText(text) => Primitive::ClickText(text),
        ChainStep::WaitFor { selector, timeout_ms } => Primitive::WaitFor(selector, timeout_ms),
        ChainStep::WaitForText { needle, timeout_ms } => Primitive::WaitForText(needle, timeout_ms),
        ChainStep::Wait { ms } => Primitive::Wait(ms),
        ChainStep::Back => Primitive::Back,
        ChainStep::Forward => Primitive::Forward,
    }
}

pub fn plan_step(s: ChainStep) -> (r: Primitive)
    ensures
        r == step_primitive(s),
{
    match s {
        ChainStep::Click(target) => Primitive::Click(target),
        ChainStep::Fill { target, value } => Primitive::Fill(target, value),
        ChainStep::Submit(target) => Primitive::Submit(target),
        ChainStep::Goto(url) => Primitive::Goto(url),
        ChainStep::Read { target, mode } => Primitive::Read(target, mode),
        ChainStep::Eval(expr) => Primitive::Eval(expr),
        ChainStep::Snapshot => Primitive::Snapshot,
        ChainStep::PressKey { target, key } => Primitive::PressKey(target, key),
        ChainStep::SelectOption { target, value } => Primitive::SelectOption(target, value),
        ChainStep::ClickText(text) => Primitive::ClickText(text),
        ChainStep::WaitFor { selector, timeout_ms } => Primitive::WaitFor(selector, timeout_ms),
        ChainStep::WaitForText { needle, timeout_ms } => Primitive::WaitForText(needle, timeout_ms),
        ChainStep::Wait { ms } => Primitive::Wait(ms),
        ChainStep::Back => Primitive::Back,
        ChainStep::Forward => Primitive::Forward,
    }
}

pub open spec fn step_primitives(s: Seq<ChainStep>) -> Seq<Primitive> {
    s.map_values(|x: ChainStep| step_primitive(x))
}

/// What a command comes down to: a selector is a target, and a chain is its steps.
pub open spec fn command_plan(c: Command, p: Plan) -> bool {
    match c {
        Command::Goto { url } => p == Plan::One(Primitive::Goto(url)),
        Command::Click { selector } => p == Plan::One(
            Primitive::Click(Target::Selector(selector)),
        ),
        Command::Fill { selector, value } => p == Plan::One(
            Primitive::Fill(Target::Selector(selector), value),
        ),
        Command::Submit { selector } => p == Plan::One(
            Primitive::Submit(Target::Selector(selector)),
        ),
        Command::Read { selector, mode } => p == Plan::One(
            Primitive::Read(Target::Selector(selector), mode),
        ),
        Command::Eval { expr } => p == Plan::One(Primitive::Eval(expr)),
        Command::Snapshot => p == Plan::One(Primitive::Snapshot),
        Command::ClickTarget { target } => p == Plan::One(Primitive::Click(target)),
        Command::FillTarget { target, value } => p == Plan::One(Primitive::Fill(target, value)),
        Command::SubmitTarget { target } => p == Plan::One(Primitive::Submit(target)),
        Command::ReadTarget { target, mode } => p == Plan::One(Primitive::Read(target, mode)),
        Command::ClickText { text } => p == Plan::One(Primitive::ClickText(text)),
        Command::SelectOption { target, value } => p == Plan::One(
            Primitive::SelectOption(target, value),
        ),
        Command::PressKey { target, key } => p == Plan::One(Primitive::PressKey(target, key)),
        Command::WaitFor { selector, timeout_ms } => p == Plan::One(
            Primitive::WaitFor(selector, timeout_ms),
        ),
        Command::WaitForText { needle, timeout_ms } => p == Plan::One(
            Primitive::WaitForText(needle, timeout_ms),
        ),
        Command::WaitMs { ms } => p == Plan::One(Primitive::Wait(ms)),
        Command::Back => p == Plan::One(Primitive::Back),
        Command::Forward => p == Plan::One(Primitive::Forward),
        Command::Chain { steps } => p is Many && p->Many_0@ == step_primitives(steps@),
    }
}

fn plan_steps(steps: Vec<ChainStep>) -> (r: Vec<Primitive>)
    ensures
        r@ == step_primitives(steps@),
{
    let ghost list = steps@;
    let ghost all = step_primitives(list);
    let mut rest = steps;
    let mut out: Vec<Primitive> = Vec::new();
    let n: usize = rest.len();
    let mut i: usize = 0;
    assert(rest@ =~= list.skip(0));
    while i < n
        invariant
            i <= n,
            n == list.len(),
            rest@ == list.skip(i as int),
            all == step_primitives(list),
            out@ == all.take(i as int),
        decreases n - i,
    {
        let s = rest.remove(0);
        assert(rest@ =~= list.skip(i + 1));
        out.push(plan_step(s));
        assert(all.take(i + 1) =~= all.take(i as int).push(all[i as int]));
        i = i + 1;
    }
    assert(all.take(i as int) =~= all);
    out
}

/// Decides what a session does for a command.
pub fn plan_command(c: Command) -> (r: Plan)
    ensures
        command_plan(c, r),
{
    match c {
        Command::Goto { url } => Plan::One(Primitive::Goto(url)),
        Command::Click { selector } => Plan::One(Primitive::Click(Target::Selector(selector))),
        Command::Fill { selector, value } => Plan::One(
            Primitive::Fill(Target::Selector(selector), value),
        ),
        Command::Submit { selector } => Plan::One(Primitive::Submit(Target::Selector(selector))),
        Command::Read { selector, mode } => Plan::One(
            Primitive::Read(Target::Selector(selector), mode),
        ),
        Command::Eval { expr } => Plan::One(Primitive::Eval(expr)),
        Command::Snapshot => Plan::One(Primitive::Snapshot),
        Command::ClickTarget { target } => Plan::One(Primitive::Click(target)),
        Command::FillTarget { target, value } => Plan::One(Primitive::Fill(target, value)),
        Command::SubmitTarget { target } => Plan::One(Primitive::Submit(target)),
        Command::ReadTarget { target, mode } => Plan::One(Primitive::Read(target, mode)),
        Command::ClickText { text } => Plan::One(Primitive::ClickText(text)),
        Command::SelectOption { target, value } => Plan::One(
            Primitive::SelectOption(target, value),
        ),
        Command::PressKey { target, key } => Plan::One(Primitive::PressKey(target, key)),
        Command::WaitFor { selector, timeout_ms } => Plan::One(
            Primitive::WaitFor(selector, timeout_ms),
        ),
        Command::WaitForText { needle, timeout_ms } => Plan::One(
            Primitive::WaitForText(needle, timeout_ms),
        ),
        Command::WaitMs { ms } => Plan::One(Primitive::Wait(ms)),
        Command::Back => Plan::One(Primitive::Back),
        Command::Forward => Plan::One(Primitive::Forward),
        Command::Chain { steps } => Plan::Many(plan_steps(steps)),
    }
}

/// How far a chain got that failed: the failure, and what came of the steps before it.
pub struct ChainFailure {
    pub error: BrowseError,
    pub done: Vec<ChainStepOutput>,
}

/// A chain under way: what is left to do, what has come of it so far, and the
/// failure that ended it.
pub struct ChainRun {
    pub rest: Vec<Primitive>,
    pub outputs: Vec<ChainStepOutput>,
    pub failed: Option<BrowseError>,
}

impl ChainRun {
    pub fn new(steps: Vec<Primitive>) -> (r: ChainRun)
        ensures
            r.rest@ == steps@,
            r.outputs@.len() == 0,
            r.failed is None,
    {
        ChainRun { rest: steps, outputs: Vec::new(), failed: None }
    }

    /// The next thing to do; nothing once a step has failed.
    pub fn next(&mut self) -> (r: Option<Primitive>)
        ensures
            final(self).outputs@ == old(self).outputs@,
            final(self).failed == old(self).failed,
            if old(self).failed is Some || old(self).rest@.len() == 0 {
                r is None && final(self).rest@ == old(self).rest@
            } else {
                r == Some(old(self).rest@[0]) && final(self).rest@ == old(self).rest@.skip(1)
            },
    {
        if self.failed.is_some() || self.rest.len() == 0 {
            return None;
        }
        let ghost before = self.rest@;
        let p = self.rest.remove(0);
        assert(self.rest@ =~= before.skip(1));
        Some(p)
    }

    /// Records what came of a step.
    pub fn record(&mut self, result: Result<ChainStepOutput, BrowseError>)
        requires
            old(self).failed is None,
        ensures
            final(self).rest@ == old(self).rest@,
            match result {
                Ok(out) => {
                    &&& final(self).outputs@ == old(self).outputs@.push(out)
                    &&& final(self).failed is None
                },
                Err(e) => {
                    &&& final(self).outputs@ == old(self).outputs@
                    &&& final(self).failed == Some(e)
                },
            },
    {
        match result {
            Ok(out) => self.outputs.push(out),
            Err(e) => {
                self.failed = Some(e);
            },
        }
    }

    /// What came of the chain: the outputs of its steps, and where one failed, those
    /// of the steps before it beside the failure.
    pub fn finish(self) -> (r: Result<Vec<ChainStepOutput>, ChainFailure>)
        ensures
            match self.failed {
                Some(e) => r is Err && r->Err_0.error == e && r->Err_0.done@ == self.outputs@,
                None => r is Ok && r->Ok_0@ == self.outputs@,
            },
    {
        match self.failed {
            Some(error) => Err(ChainFailure { error, done: self.outputs }),
            None => Ok(self.outputs),
        }
    }
}

/// A chain addressed by selectors does what the single commands do, one after the
/// other.
pub proof fn chain_does_what_its_steps_do(steps: Vec<ChainStep>, p: Plan, i: int)
    requires
        command_plan(Command::Chain { steps }, p),
        0 <= i < steps@.len(),
    ensures
        p->Many_0@[i] == step_primitive(steps@[i]),
        p->Many_0@.len() == steps@.len(),
{
}

} // verus!
