//! How runs are scored.
use crate::text::{
    ascii_lower, contains, debug_list, debugged_list, has_text, to_ascii_lowercase, trim, trimmed,
    views,
};
use crate::webarena::task::Task;
use crate::webarena::trajectory::{reason_text, StopReason, Trajectory};
use vstd::prelude::*;
use vstd::string::*;

verus! {

#[derive(Debug)]
pub struct Verdict {
    pub success: bool,
    /// Why not; empty on success.
    pub reason: String,
}

/// The contents of a [`Verdict`].
#[verifier::ext_equal]
pub struct VerdictModel {
    pub success: bool,
    pub reason: Seq<char>,
}

impl View for Verdict {
    type V = VerdictModel;

    open spec fn view(&self) -> VerdictModel {
        VerdictModel { success: self.success, reason: self.reason@ }
    }
}

impl Verdict {
    pub fn passed() -> (r: Verdict)
        ensures
            r@ == pass(),
    {
        let r = Verdict { success: true, reason: String::new() };
        assert(r@.reason =~= seq![]);
        r
    }

    pub fn failed(reason: String) -> (r: Verdict)
        ensures
            r@ == fail(reason@),
    {
        Verdict { success: false, reason }
    }
}

pub open spec fn pass() -> VerdictModel {
    VerdictModel { success: true, reason: seq![] }
}

pub open spec fn fail(reason: Seq<char>) -> VerdictModel {
    VerdictModel { success: false, reason }
}

/// Scores the run of a task.
pub trait Judge {
    /// What the score is.
    spec fn verdict(&self, task: &Task, traj: &Trajectory) -> VerdictModel;

    fn score(&self, task: &Task, traj: &Trajectory) -> (r: Verdict)
        ensures
            r@ == self.verdict(task, traj),
    ;
}

/// Why a run cannot be scored by its answer: it did not end with `done`, or gave none.
pub open spec fn unanswered(traj: &Trajectory) -> Option<Seq<char>> {
    if !(traj.stop_reason is Done) {
        Some("trajectory did not terminate via done: "@ + reason_text(traj.stop_reason))
    } else if traj.answer is None {
        Some("no answer captured"@)
    } else {
        None
    }
}

pub fn check_answered(traj: &Trajectory) -> (r: Option<String>)
    ensures
        crate::dom::text_view(r) == unanswered(traj),
{
    match traj.stop_reason {
        StopReason::Done => match traj.answer {
            Some(_) => None,
            None => Some("no answer captured".to_owned()),
        },
        _ => {
            let mut s = "trajectory did not terminate via done: ".to_owned();
            s.append(traj.stop_reason.text().as_str());
            Some(s)
        },
    }
}

/// A text as it is compared: trimmed, and with its ASCII letters in lower case.
pub open spec fn comparable(s: Seq<char>) -> Seq<char> {
    ascii_lower(trimmed(s))
}

/// Those of the given texts that the answer does not hold.
pub open spec fn missing_in(answer: Seq<char>, expected: Seq<Seq<char>>) -> Seq<Seq<char>>
    decreases expected.len(),
{
    if expected.len() == 0 {
        seq![]
    } else {
        let before = missing_in(answer, expected.drop_last());
        if has_text(comparable(answer), comparable(expected.last())) {
            before
        } else {
            before.push(expected.last())
        }
    }
}

/// Passes a run whose answer holds every expected text, trimmed and in whatever ASCII case.
pub struct SubstringJudge;

pub open spec fn substring_verdict(task: &Task, traj: &Trajectory) -> VerdictModel {
    match unanswered(traj) {
        Some(reason) => fail(reason),
        None => {
            let missing = missing_in(traj.answer->0@, views(task.expected@));
            if missing.len() == 0 {
                pass()
            } else {
                fail("missing expected fragments: "@ + debugged_list(missing))
            }
        },
    }
}

impl Judge for SubstringJudge {
    open spec fn verdict(&self, task: &Task, traj: &Trajectory) -> VerdictModel {
        substring_verdict(task, traj)
    }

    fn score(&self, task: &Task, traj: &Trajectory) -> (r: Verdict) {
        if let Some(reason) = check_answered(traj) {
            return Verdict::failed(reason);
        }
        let answer = match &traj.answer {
            Some(a) => to_ascii_lowercase(trim(a.as_str())),
            None => {
                return Verdict::passed();
            },
        };
        let ghost all = views(task.expected@);
        let ghost given = traj.answer->0@;
        let mut missing: Vec<String> = Vec::new();
        assert(views(missing@) =~= missing_in(given, all.take(0)));
        let mut i: usize = 0;
        while i < task.expected.len()
            invariant
                i <= task.expected@.len(),
                all == views(task.expected@),
                answer@ == comparable(given),
                views(missing@) == missing_in(given, all.take(i as int)),
            decreases task.expected@.len() - i,
        {
            assert(all.take(i + 1).drop_last() =~= all.take(i as int));
            assert(all.take(i + 1).last() == task.expected@[i as int]@);
            if !contains(
                answer.as_str(),
                to_ascii_lowercase(trim(task.expected[i].as_str())).as_str(),
            ) {
                let ghost prior = missing@;
                missing.push(task.expected[i].clone());
                assert(views(missing@) =~= views(prior).push(task.expected@[i as int]@));
            }
            i = i + 1;
        }
        assert(all.take(i as int) =~= all);
        assert(views(missing@).len() == missing@.len());
        if missing.len() == 0 {
            Verdict::passed()
        } else {
            let mut s = "missing expected fragments: ".to_owned();
            s.append(debug_list(&missing).as_str());
            Verdict::failed(s)
        }
    }
}

/// A run passes exactly when it ended with `done`, gave an answer, and the answer
/// holds every expected text, trimmed and in whatever ASCII case.
pub proof fn passing_means_every_fragment(task: &Task, traj: &Trajectory)
    ensures
        substring_verdict(task, traj).success <==> traj.stop_reason is Done && traj.answer is Some
            && forall|i: int|
            0 <= i < task.expected@.len() ==> has_text(
                comparable(traj.answer->0@),
                comparable((#[trigger] task.expected@[i])@),
            ),
{
    if traj.answer is Some {
        let all = views(task.expected@);
        none_missing(traj.answer->0@, all);
        assert forall|i: int| 0 <= i < all.len() implies #[trigger] all[i] == task.expected@[i]@ by {}
        if missing_in(traj.answer->0@, all).len() == 0 {
            assert forall|i: int| 0 <= i < task.expected@.len() implies has_text(
                comparable(traj.answer->0@),
                comparable((#[trigger] task.expected@[i])@),
            ) by {
                assert(has_text(comparable(traj.answer->0@), comparable(all[i])));
            }
        } else {
            let i = choose|i: int|
                0 <= i < all.len() && !has_text(
                    comparable(traj.answer->0@),
                    comparable(#[trigger] all[i]),
                );
            assert(task.expected@[i]@ == all[i]);
        }
    }
}

proof fn none_missing(answer: Seq<char>, expected: Seq<Seq<char>>)
    ensures
        missing_in(answer, expected).len() == 0 <==> forall|i: int|
            0 <= i < expected.len() ==> has_text(
                comparable(answer),
                comparable(#[trigger] expected[i]),
            ),
    decreases expected.len(),
{
    if expected.len() > 0 {
        let front = expected.drop_last();
        none_missing(answer, front);
        assert(forall|i: int| 0 <= i < front.len() ==> #[trigger] front[i] == expected[i]);
        if missing_in(answer, expected).len() == 0 {
            assert forall|i: int| 0 <= i < expected.len() implies has_text(
                comparable(answer),
                comparable(#[trigger] expected[i]),
            ) by {
                if i < front.len() {
                    assert(front[i] == expected[i]);
                }
            }
        } else if forall|i: int|
            0 <= i < expected.len() ==> has_text(
                comparable(answer),
                comparable(#[trigger] expected[i]),
            ) {
            assert forall|i: int| 0 <= i < front.len() implies has_text(
                comparable(answer),
                comparable(#[trigger] front[i]),
            ) by {
                assert(front[i] == expected[i]);
            }
            assert(expected[expected.len() - 1] == expected.last());
        }
    }
}

} // verus!
