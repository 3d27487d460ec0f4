//! WebArena tasks: their format, and the rubric that scores them.
use crate::dom::text_view;
use crate::json::{push_signed, signed};
use crate::text::{
    contains, debug_list, debug_text, debugged, debugged_list, has_text, same, lowercase, trim,
    trimmed, lower_text, views,
};
use crate::webarena::judge::{check_answered, fail, pass, unanswered, Judge, Verdict, VerdictModel};
use crate::webarena::task::Task;
use crate::webarena::trajectory::Trajectory;
use crate::webarena::urlmap::{apply_url_map, ordered_set, placeholders, substituted, UrlMap};
use vstd::prelude::*;
use vstd::string::*;

verus! {

/// One task, with the fields that are read.
#[derive(Debug)]
pub struct WebArenaConfig {
    pub task_id: i64,
    pub sites: Vec<String>,
    pub start_url: String,
    pub intent: String,
    pub eval: WebArenaEval,
    pub max_steps: Option<u32>,
}

/// How a task is scored.
#[derive(Debug)]
pub struct WebArenaEval {
    pub eval_types: Vec<String>,
    pub reference_answers: Option<ReferenceAnswers>,
    pub reference_url: Option<String>,
}

/// What the answer is held against; all of it must hold.
#[derive(Debug)]
pub struct ReferenceAnswers {
    pub exact_match: Option<String>,
    pub must_include: Vec<String>,
    pub fuzzy_match: Vec<String>,
}

impl Default for WebArenaEval {
    fn default() -> (r: WebArenaEval)
        ensures
            r.eval_types@.len() == 0,
            r.reference_answers is None,
            r.reference_url is None,
    {
        WebArenaEval { eval_types: Vec::new(), reference_answers: None, reference_url: None }
    }
}

impl Default for ReferenceAnswers {
    fn default() -> (r: ReferenceAnswers)
        ensures
            r.exact_match is None,
            r.must_include@.len() == 0,
            r.fuzzy_match@.len() == 0,
    {
        ReferenceAnswers { exact_match: None, must_include: Vec::new(), fuzzy_match: Vec::new() }
    }
}

/// The environment variables that name the sites.
pub open spec fn site_variables() -> Seq<Seq<char>> {
    seq![
        "SHOPPING"@,
        "SHOPPING_ADMIN"@,
        "MAP"@,
        "REDDIT"@,
        "GITLAB"@,
        "WIKIPEDIA"@,
        "HOMEPAGE"@,
    ]
}

pub fn known_variables() -> (r: Vec<String>)
    ensures
        views(r@) == site_variables(),
{
    let mut v: Vec<String> = Vec::new();
    v.push("SHOPPING".to_owned());
    v.push("SHOPPING_ADMIN".to_owned());
    v.push("MAP".to_owned());
    v.push("REDDIT".to_owned());
    v.push("GITLAB".to_owned());
    v.push("WIKIPEDIA".to_owned());
    v.push("HOMEPAGE".to_owned());
    assert(views(v@) =~= site_variables());
    v
}

/// `__NAME__` for every variable that is set and not empty.
pub open spec fn variable_map(vars: Seq<(String, Option<String>)>) -> Map<Seq<char>, Seq<char>>
    decreases vars.len(),
{
    if vars.len() == 0 {
        Map::empty()
    } else {
        let before = variable_map(vars.drop_last());
        match vars.last().1 {
            Some(v) if v@.len() > 0 => before.insert("__"@ + vars.last().0@ + "__"@, v@),
            _ => before,
        }
    }
}

/// The placeholders that variables stand for, given their values.
pub fn url_map_from_variables(vars: &Vec<(String, Option<String>)>) -> (r: UrlMap)
    ensures
        crate::webarena::urlmap::entries_map(r@) == variable_map(vars@),
{
    let mut map = UrlMap::new();
    assert(vars@.take(0) =~= seq![]);
    let mut i: usize = 0;
    while i < vars.len()
        invariant
            i <= vars@.len(),
            crate::webarena::urlmap::entries_map(map@) == variable_map(vars@.take(i as int)),
        decreases vars@.len() - i,
    {
        assert(vars@.take(i + 1).drop_last() =~= vars@.take(i as int));
        assert(vars@.take(i + 1).last() == vars@[i as int]);
        if let Some(v) = &vars[i].1 {
            if !v.as_str().is_empty() {
                let mut key = "__".to_owned();
                key.append(vars[i].0.as_str());
                key.append("__");
                map.insert(key, v.clone());
            }
        }
        i = i + 1;
    }
    assert(vars@.take(i as int) =~= vars@);
    map
}

/// A task for the agent, with the placeholders of its URL replaced.
pub fn to_task(cfg: &WebArenaConfig, url_map: &UrlMap, default_max_steps: u32) -> (r: Result<
    Task,
    String,
>)
    ensures
        ({
            let url = substituted(cfg.start_url@, url_map@);
            match r {
                Ok(t) => {
                    &&& placeholders(url).len() == 0
                    &&& t.id@ == signed(cfg.task_id as int)
                    &&& t.start_url@ == url
                    &&& t.instruction@ == cfg.intent@
                    &&& t.expected@.len() == 0
                    &&& t.max_steps == (match cfg.max_steps {
                        Some(n) => n,
                        None => default_max_steps,
                    })
                },
                Err(e) => placeholders(url).len() > 0 && exists|list: Seq<Seq<char>>|
                    #[trigger] ordered_set(list, placeholders(url)) && e@
                        == "url has unresolved placeholders: "@ + debugged_list(list)
                        + "; populate them via env vars or a CLI map"@,
            }
        }),
{
    let start_url = match apply_url_map(cfg.start_url.as_str(), url_map) {
        Ok(u) => u,
        Err(e) => {
            return Err(e);
        },
    };
    let mut id = String::new();
    push_signed(&mut id, cfg.task_id);
    assert(id@ =~= signed(cfg.task_id as int));
    Ok(
        Task {
            id,
            start_url,
            instruction: cfg.intent.clone(),
            expected: Vec::new(),
            max_steps: match cfg.max_steps {
                Some(n) => n,
                None => default_max_steps,
            },
        },
    )
}

/// Those of the given texts whose lower case the answer, given in lower case, does not hold.
pub open spec fn absent(answer_lower: Seq<char>, needles: Seq<Seq<char>>) -> Seq<Seq<char>>
    decreases needles.len(),
{
    if needles.len() == 0 {
        seq![]
    } else {
        let before = absent(answer_lower, needles.drop_last());
        if has_text(answer_lower, lower_text(needles.last())) {
            before
        } else {
            before.push(needles.last())
        }
    }
}

/// Why an answer does not match, given also in lower case.
pub open spec fn mismatch(
    refs: Option<ReferenceAnswers>,
    answer: Seq<char>,
    answer_lower: Seq<char>,
) -> Option<Seq<char>> {
    match refs {
        None => Some("string_match declared without reference_answers"@),
        Some(r) => {
            let missing = absent(answer_lower, views(r.must_include@));
            let fuzzy = absent(answer_lower, views(r.fuzzy_match@));
            if r.exact_match is Some && answer_lower != lower_text(
                trimmed(r.exact_match->0@),
            ) {
                Some(
                    "exact_match expected "@ + debugged(r.exact_match->0@) + ", got "@ + debugged(
                        answer,
                    ),
                )
            } else if missing.len() > 0 {
                Some("must_include missing: "@ + debugged_list(missing))
            } else if fuzzy.len() > 0 {
                Some(
                    "fuzzy_match (substring approximation) missing: "@ + debugged_list(fuzzy),
                )
            } else {
                None
            }
        },
    }
}

fn find_absent(answer_lower: &str, needles: &Vec<String>) -> (r: Vec<String>)
    ensures
        views(r@) == absent(answer_lower@, views(needles@)),
{
    let ghost all = views(needles@);
    let mut out: Vec<String> = Vec::new();
    assert(views(out@) =~= absent(answer_lower@, all.take(0)));
    let mut i: usize = 0;
    while i < needles.len()
        invariant
            i <= needles@.len(),
            all == views(needles@),
            views(out@) == absent(answer_lower@, all.take(i as int)),
        decreases needles@.len() - i,
    {
        assert(all.take(i + 1).drop_last() =~= all.take(i as int));
        assert(all.take(i + 1).last() == needles@[i as int]@);
        if !contains(answer_lower, lowercase(needles[i].as_str()).as_str()) {
            let ghost prior = out@;
            out.push(needles[i].clone());
            assert(views(out@) =~= views(prior).push(needles@[i as int]@));
        }
        i = i + 1;
    }
    assert(all.take(i as int) =~= all);
    out
}

/// Holds an answer, given also in lower case, against the reference answers.
pub fn check_string_match(eval: &WebArenaEval, answer: &str, answer_lower: &str) -> (r: Result<
    (),
    String,
>)
    ensures
        match r {
            Ok(_) => mismatch(eval.reference_answers, answer@, answer_lower@) is None,
            Err(e) => mismatch(eval.reference_answers, answer@, answer_lower@) == Some(e@),
        },
{
    let refs = match &eval.reference_answers {
        Some(r) => r,
        None => {
            return Err("string_match declared without reference_answers".to_owned());
        },
    };
    if let Some(expected) = &refs.exact_match {
        let want = lowercase(trim(expected.as_str()));
        if !same(answer_lower, want.as_str()) {
            let mut m = "exact_match expected ".to_owned();
            m.append(debug_text(expected.as_str()).as_str());
            m.append(", got ");
            m.append(debug_text(answer).as_str());
            return Err(m);
        }
    }
    let missing = find_absent(answer_lower, &refs.must_include);
    assert(views(missing@).len() == missing@.len());
    if missing.len() > 0 {
        let mut m = "must_include missing: ".to_owned();
        m.append(debug_list(&missing).as_str());
        return Err(m);
    }
    let fuzzy = find_absent(answer_lower, &refs.fuzzy_match);
    assert(views(fuzzy@).len() == fuzzy@.len());
    if fuzzy.len() > 0 {
        let mut m = "fuzzy_match (substring approximation) missing: ".to_owned();
        m.append(debug_list(&fuzzy).as_str());
        return Err(m);
    }
    Ok(())
}

/// Why a declared kind of check does not hold of an answer.
pub open spec fn check_failure(
    kind: Seq<char>,
    refs: Option<ReferenceAnswers>,
    answer: Seq<char>,
) -> Option<Seq<char>> {
    if kind == "string_match"@ {
        mismatch(refs, answer, lower_text(answer))
    } else if kind == "url_match"@ {
        Some(
            "url_match eval not yet supported — Trajectory needs a final_url field; track in a follow-up issue"@,
        )
    } else if kind == "program_html"@ {
        Some(
            "program_html eval not yet supported — needs a post-task DOM fetch + lxml-style locator port"@,
        )
    } else {
        Some("unknown eval type: "@ + debugged(kind))
    }
}

/// The first failure among the declared kinds of checks.
pub open spec fn first_failure(
    kinds: Seq<Seq<char>>,
    refs: Option<ReferenceAnswers>,
    answer: Seq<char>,
) -> Option<Seq<char>>
    decreases kinds.len(),
{
    if kinds.len() == 0 {
        None
    } else if check_failure(kinds[0], refs, answer) is Some {
        check_failure(kinds[0], refs, answer)
    } else {
        first_failure(kinds.skip(1), refs, answer)
    }
}

fn run_check(kind: &str, eval: &WebArenaEval, answer: &str, answer_lower: &str) -> (r: Option<String>)
    requires
        answer_lower@ == lower_text(answer@),
    ensures
        text_view(r) == check_failure(kind@, eval.reference_answers, answer@),
{
    if same(kind, "string_match") {
        match check_string_match(eval, answer, answer_lower) {
            Ok(_) => None,
            Err(e) => Some(e),
        }
    } else if same(kind, "url_match") {
        Some(
            "url_match eval not yet supported — Trajectory needs a final_url field; track in a follow-up issue".to_owned(),
        )
    } else if same(kind, "program_html") {
        Some(
            "program_html eval not yet supported — needs a post-task DOM fetch + lxml-style locator port".to_owned(),
        )
    } else {
        let mut m = "unknown eval type: ".to_owned();
        m.append(debug_text(kind).as_str());
        Some(m)
    }
}

/// Scores a run by the rubric of its task.
pub struct WebArenaJudge {
    pub eval: WebArenaEval,
}

pub open spec fn rubric_verdict(eval: &WebArenaEval, traj: &Trajectory) -> VerdictModel {
    match unanswered(traj) {
        Some(reason) => fail(reason),
        None => match first_failure(
            views(eval.eval_types@),
            eval.reference_answers,
            trimmed(traj.answer->0@),
        ) {
            Some(reason) => fail(reason),
            None => pass(),
        },
    }
}

impl Judge for WebArenaJudge {
    open spec fn verdict(&self, task: &Task, traj: &Trajectory) -> VerdictModel {
        rubric_verdict(&self.eval, traj)
    }

    fn score(&self, task: &Task, traj: &Trajectory) -> (r: Verdict) {
        if let Some(reason) = check_answered(traj) {
            return Verdict::failed(reason);
        }
        let answer = match &traj.answer {
            Some(a) => trim(a.as_str()),
            None => {
                return Verdict::passed();
            },
        };
        let lower = lowercase(answer);
        let kinds = &self.eval.eval_types;
        let ghost all = views(kinds@);
        let ghost refs = self.eval.reference_answers;
        assert(all.skip(0) =~= all);
        let mut i: usize = 0;
        while i < kinds.len()
            invariant
                i <= kinds@.len(),
                all == views(kinds@),
                *kinds == self.eval.eval_types,
                refs == self.eval.reference_answers,
                lower@ == lower_text(answer@),
                unanswered(traj) is None,
                answer@ == trimmed(traj.answer->0@),
                first_failure(all, refs, answer@) == first_failure(
                    all.skip(i as int),
                    refs,
                    answer@,
                ),
            decreases kinds@.len() - i,
        {
            assert(all.skip(i as int)[0] == kinds@[i as int]@);
            assert(all.skip(i as int).skip(1) =~= all.skip(i + 1));
            if let Some(reason) = run_check(kinds[i].as_str(), &self.eval, answer, lower.as_str()) {
                return Verdict::failed(reason);
            }
            i = i + 1;
        }
        Verdict::passed()
    }
}

/// A run that ended with `done` and gave an answer passes a rubric without checks.
pub proof fn no_checks_pass(eval: &WebArenaEval, traj: &Trajectory)
    requires
        eval.eval_types@.len() == 0,
        traj.stop_reason is Done,
        traj.answer is Some,
    ensures
        rubric_verdict(eval, traj) == pass(),
{
}

} // verus!
