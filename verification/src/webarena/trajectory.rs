//! What an agent did with a task.
use crate::json::{Json, JsonModel};
use crate::text::{debug_text, debugged};
use vstd::prelude::*;
use vstd::string::*;

verus! {

/// A tool call of the model: the tool's name and its arguments.
#[derive(Debug)]
pub struct ToolCall {
    pub name: String,
    pub input: Json,
}

/// The contents of a [`ToolCall`].
#[verifier::ext_equal]
pub struct CallModel {
    pub name: Seq<char>,
    pub input: JsonModel,
}

impl View for ToolCall {
    type V = CallModel;

    open spec fn view(&self) -> CallModel {
        CallModel { name: self.name@, input: self.input@ }
    }
}

impl ToolCall {
    pub fn copy(&self) -> (r: ToolCall)
        ensures
            r@ == self@,
    {
        ToolCall { name: self.name.clone(), input: self.input.copy() }
    }
}

/// Why a run ended.
#[derive(Debug)]
pub enum StopReason {
    /// The model called `done`.
    Done,
    /// The turns ran out.
    MaxSteps,
    Error(String),
}

/// A reason other than `Done` as `{:?}` writes it.
pub open spec fn reason_text(r: StopReason) -> Seq<char> {
    match r {
        StopReason::Done => "Done"@,
        StopReason::MaxSteps => "MaxSteps"@,
        StopReason::Error(e) => "Error("@ + debugged(e@) + ")"@,
    }
}

impl StopReason {
    pub fn text(&self) -> (r: String)
        ensures
            r@ == reason_text(*self),
    {
        match self {
            StopReason::Done => "Done".to_owned(),
            StopReason::MaxSteps => "MaxSteps".to_owned(),
            StopReason::Error(e) => {
                let mut s = "Error(".to_owned();
                s.append(debug_text(e.as_str()).as_str());
                s.append(")");
                s
            },
        }
    }
}

/// One tool call of a run, and what came of it.
#[derive(Debug)]
pub struct TrajectoryStep {
    pub assistant_text: String,
    pub call: ToolCall,
    pub tool_use_id: String,
    pub result: String,
    pub is_error: bool,
}

/// The contents of a [`TrajectoryStep`].
#[verifier::ext_equal]
pub struct StepModel {
    pub assistant_text: Seq<char>,
    pub call: CallModel,
    pub tool_use_id: Seq<char>,
    pub result: Seq<char>,
    pub is_error: bool,
}

impl View for TrajectoryStep {
    type V = StepModel;

    open spec fn view(&self) -> StepModel {
        StepModel {
            assistant_text: self.assistant_text@,
            call: self.call@,
            tool_use_id: self.tool_use_id@,
            result: self.result@,
            is_error: self.is_error,
        }
    }
}

pub open spec fn step_views(s: Seq<TrajectoryStep>) -> Seq<StepModel> {
    s.map_values(|x: TrajectoryStep| x@)
}

/// A run of an agent.
#[derive(Debug)]
pub struct Trajectory {
    pub task_id: String,
    /// What the model answered with `done`.
    pub answer: Option<String>,
    pub steps: Vec<TrajectoryStep>,
    pub elapsed_ms: u64,
    pub stop_reason: StopReason,
}

} // verus!
