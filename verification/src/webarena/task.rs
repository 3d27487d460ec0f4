//! Task definitions.
use crate::text::{trim_left, trim_start};
use vstd::prelude::*;
use vstd::string::*;

verus! {

#[derive(Debug)]
pub struct Task {
    pub id: String,
    pub start_url: String,
    /// What the agent is asked to do.
    pub instruction: String,
    /// Texts that the answer must hold.
    pub expected: Vec<String>,
    /// The most turns that the agent gets.
    pub max_steps: u32,
}

/// The turns of a task that does not say how many it gets.
pub fn default_max_steps() -> (r: u32)
    ensures
        r == 20,
{
    20
}

/// Whether a text of tasks holds a list of them rather than a single one.
pub fn holds_list(raw: &str) -> (r: bool)
    ensures
        r == (trim_start(raw@).len() > 0 && trim_start(raw@)[0] == '['),
{
    let t = trim_left(raw);
    t.unicode_len() > 0 && t.get_char(0) == '['
}

} // verus!
