use bouncy::webarena::config::{
    known_variables, to_task, url_map_from_variables, ReferenceAnswers, WebArenaConfig,
    WebArenaEval, WebArenaJudge,
};
use bouncy::webarena::judge::{Judge, SubstringJudge};
use bouncy::webarena::task::Task;
use bouncy::webarena::trajectory::{StopReason, Trajectory};
use bouncy::webarena::urlmap::{apply_url_map, UrlMap};

fn task(expected: &[&str]) -> Task {
    Task {
        id: "t".into(),
        start_url: "http://x/".into(),
        instruction: "go".into(),
        expected: expected.iter().map(|s| s.to_string()).collect(),
        max_steps: 5,
    }
}

fn done_traj(answer: &str) -> Trajectory {
    Trajectory {
        task_id: "t".into(),
        answer: Some(answer.into()),
        steps: vec![],
        elapsed_ms: 1,
        stop_reason: StopReason::Done,
    }
}

#[test]
fn judge_passes_when_all_fragments_present() {
    let v = SubstringJudge.score(&task(&["welcome", "alice"]), &done_traj("Welcome, Alice!"));
    assert!(v.success, "got: {:?}", v);
}

#[test]
fn judge_fails_listing_missing_fragments() {
    let v = SubstringJudge.score(&task(&["welcome", "bob"]), &done_traj("Welcome, Alice!"));
    assert!(!v.success);
    assert!(v.reason.contains("bob"), "got: {}", v.reason);
}

#[test]
fn judge_trims_what_it_compares() {
    let v = SubstringJudge.score(&task(&[" alice ", "\n"]), &done_traj(" Welcome, Alice!"));
    assert!(v.success, "got: {:?}", v);
    let v = SubstringJudge.score(&task(&[" bob "]), &done_traj("Alice"));
    assert_eq!(v.reason, "missing expected fragments: [\" bob \"]");
}

#[test]
fn judge_passes_with_no_expected_when_done() {
    let v = SubstringJudge.score(&task(&[]), &done_traj("anything"));
    assert!(v.success);
}

#[test]
fn judge_fails_when_trajectory_didnt_terminate_via_done() {
    let traj = Trajectory {
        stop_reason: StopReason::MaxSteps,
        ..done_traj("doesn't matter")
    };
    let v = SubstringJudge.score(&task(&["x"]), &traj);
    assert!(!v.success);
    assert!(v.reason.contains("did not terminate"), "got: {}", v.reason);
}

#[test]
fn runs_without_an_answer_fail() {
    let traj = Trajectory {
        answer: None,
        ..done_traj("")
    };
    let v = SubstringJudge.score(&task(&[]), &traj);
    assert!(!v.success);
    assert_eq!(v.reason, "no answer captured");
}

#[test]
fn apply_url_map_replaces_known_placeholders() {
    let mut m = UrlMap::new();
    m.insert("__SHOPPING__".into(), "http://localhost:7770".into());
    let out = apply_url_map("__SHOPPING__/checkout", &m).unwrap();
    assert_eq!(out, "http://localhost:7770/checkout");
}

#[test]
fn apply_url_map_errors_on_unknown_placeholder() {
    let m = UrlMap::new();
    let err = apply_url_map("__SHOPPING__/x", &m).unwrap_err();
    assert!(err.contains("__SHOPPING__"), "got: {err}");
}

#[test]
fn apply_url_map_passes_through_when_no_placeholders() {
    let m = UrlMap::new();
    assert_eq!(
        apply_url_map("https://example.com/", &m).unwrap(),
        "https://example.com/"
    );
}

#[test]
fn judge_passes_exact_match_case_insensitive() {
    let eval = WebArenaEval {
        eval_types: vec!["string_match".into()],
        reference_answers: Some(ReferenceAnswers {
            exact_match: Some("$23.99".into()),
            ..Default::default()
        }),
        reference_url: None,
    };
    let v = WebArenaJudge { eval }.score(&task(&[]), &done_traj("  $23.99 "));
    assert!(v.success, "got: {v:?}");
}

#[test]
fn judge_fails_exact_match_mismatch_with_clear_message() {
    let eval = WebArenaEval {
        eval_types: vec!["string_match".into()],
        reference_answers: Some(ReferenceAnswers {
            exact_match: Some("$23.99".into()),
            ..Default::default()
        }),
        reference_url: None,
    };
    let v = WebArenaJudge { eval }.score(&task(&[]), &done_traj("$24.00"));
    assert!(!v.success);
    assert!(v.reason.contains("$23.99"), "got: {}", v.reason);
    assert!(v.reason.contains("$24.00"), "got: {}", v.reason);
}

#[test]
fn judge_must_include_lists_missing_fragments() {
    let eval = WebArenaEval {
        eval_types: vec!["string_match".into()],
        reference_answers: Some(ReferenceAnswers {
            must_include: vec!["alice".into(), "premium".into()],
            ..Default::default()
        }),
        reference_url: None,
    };
    let v = WebArenaJudge { eval }.score(
        &task(&[]),
        &done_traj("Alice signed up but didn't choose a tier"),
    );
    assert!(!v.success);
    assert!(v.reason.contains("premium"), "got: {}", v.reason);
    assert!(!v.reason.contains("alice"), "got: {}", v.reason);
}

#[test]
fn judge_fuzzy_match_uses_substring_approximation() {
    let eval = WebArenaEval {
        eval_types: vec!["string_match".into()],
        reference_answers: Some(ReferenceAnswers {
            fuzzy_match: vec!["a positive review".into()],
            ..Default::default()
        }),
        reference_url: None,
    };
    let v = WebArenaJudge { eval }.score(
        &task(&[]),
        &done_traj("This is a positive review of the item."),
    );
    assert!(v.success, "got: {v:?}");
}

#[test]
fn judge_unknown_eval_type_fails_loudly() {
    let eval = WebArenaEval {
        eval_types: vec!["bonkers_match".into()],
        reference_answers: None,
        reference_url: None,
    };
    let v = WebArenaJudge { eval }.score(&task(&[]), &done_traj("anything"));
    assert!(!v.success);
    assert!(v.reason.contains("bonkers_match"), "got: {}", v.reason);
}

#[test]
fn judge_url_match_returns_typed_not_implemented() {
    let eval = WebArenaEval {
        eval_types: vec!["url_match".into()],
        reference_answers: None,
        reference_url: Some("http://x/done".into()),
    };
    let v = WebArenaJudge { eval }.score(&task(&[]), &done_traj("anything"));
    assert!(!v.success);
    assert!(v.reason.contains("url_match"), "got: {}", v.reason);
    assert!(v.reason.contains("not yet supported"), "got: {}", v.reason);
}

#[test]
fn judge_passes_when_no_eval_types_and_done() {
    let v = WebArenaJudge {
        eval: WebArenaEval::default(),
    }
    .score(&task(&[]), &done_traj("anything"));
    assert!(v.success, "got: {v:?}");
}

#[test]
fn judge_fails_when_trajectory_didnt_terminate() {
    let traj = Trajectory {
        stop_reason: StopReason::MaxSteps,
        ..done_traj("doesn't matter")
    };
    let v = WebArenaJudge {
        eval: WebArenaEval::default(),
    }
    .score(&task(&[]), &traj);
    assert!(!v.success);
    assert!(v.reason.contains("did not terminate"), "got: {}", v.reason);
}

#[test]
fn config_to_task_resolves_placeholder() {
    let cfg = WebArenaConfig {
        task_id: 1,
        sites: vec!["shopping".into()],
        start_url: "__SHOPPING__/cart".into(),
        intent: "?".into(),
        eval: WebArenaEval::default(),
        max_steps: None,
    };
    let mut m = UrlMap::new();
    m.insert("__SHOPPING__".into(), "http://localhost:7770".into());
    let t = to_task(&cfg, &m, 30).unwrap();
    assert_eq!(t.id, "1");
    assert_eq!(t.start_url, "http://localhost:7770/cart");
    assert_eq!(t.max_steps, 30);
}

#[test]
fn config_to_task_errors_when_placeholder_missing() {
    let cfg = WebArenaConfig {
        task_id: 1,
        sites: vec![],
        start_url: "__SHOPPING__/x".into(),
        intent: "?".into(),
        eval: WebArenaEval::default(),
        max_steps: None,
    };
    let m = UrlMap::new();
    assert!(to_task(&cfg, &m, 30).is_err());
}

#[test]
fn variables_that_are_set_become_placeholders() {
    assert!(known_variables().contains(&"SHOPPING".to_string()));
    let m = url_map_from_variables(&vec![
        ("SHOPPING".to_string(), Some("http://s".to_string())),
        ("REDDIT".to_string(), None),
    ]);
    assert!(!m.is_empty());
    assert_eq!(apply_url_map("__SHOPPING__/", &m).unwrap(), "http://s/");
    assert!(apply_url_map("__REDDIT__/", &m).is_err());
}

#[test]
fn reasons_are_put_in_words() {
    assert_eq!(StopReason::Done.text(), "Done");
    assert_eq!(StopReason::MaxSteps.text(), "MaxSteps");
    assert_eq!(StopReason::Error("x".to_string()).text(), "Error(\"x\")");
}
