use bouncy::json::{parse_json, Json};
use bouncy::session::chain::Command;
use bouncy::session::{ReadMode, Target};
use bouncy::snapshot::{InteractiveElement, PageSnapshot};
use bouncy::textmap::TextMap;
use bouncy::webarena::agent::{
    format_followup_turn, format_user_turn, snapshot_for_prompt, AgentRun, Need, SYSTEM_PROMPT,
};
use bouncy::webarena::llm::{
    block_to_api, message_to_api, parse_assistant_turn, read_reply, AnthropicClient, AssistantTurn,
    Block, Message, Role, ScriptedClient,
};
use bouncy::webarena::summary::{median_ms, totals};
use bouncy::webarena::task::{default_max_steps, holds_list, Task};
use bouncy::webarena::tools::{
    parse_target, plan_outcome, plan_tool, string_field, tool_schemas, truncate_for_brief,
    DispatchOutcome, ToolPlan, BRIEF_CAP,
};
use bouncy::webarena::trajectory::{StopReason, ToolCall};

fn empty_snapshot() -> PageSnapshot {
    PageSnapshot {
        url: "https://x.test/".into(),
        title: "Demo".into(),
        forms: vec![],
        links: vec![],
        buttons: vec![],
        inputs: vec![],
        headings: vec![],
        interactive: vec![],
        text_summary: "hello".into(),
        meta: TextMap::new(),
    }
}

fn json(text: &str) -> Json {
    parse_json(text).expect("json fixture")
}

#[test]
fn snapshot_for_prompt_renders_url_title_and_interactive() {
    let snap = PageSnapshot {
        interactive: vec![
            InteractiveElement {
                index: 0,
                kind: "link".into(),
                selector: "a".into(),
                label: "About".into(),
            },
            InteractiveElement {
                index: 1,
                kind: "button".into(),
                selector: "#go".into(),
                label: "Go".into(),
            },
        ],
        ..empty_snapshot()
    };
    let out = snapshot_for_prompt(&snap);
    assert!(out.contains("URL: https://x.test/"));
    assert!(out.contains("Title: Demo"));
    assert!(out.contains("[0] link — About (a)"));
    assert!(out.contains("[1] button — Go (#go)"));
}

#[test]
fn snapshot_for_prompt_handles_empty_interactive() {
    let snap = empty_snapshot();
    let out = snapshot_for_prompt(&snap);
    assert!(out.contains("(none"));
}

#[test]
fn format_user_turn_includes_task_and_snapshot() {
    let snap = empty_snapshot();
    let out = format_user_turn("click sign up", &snap);
    assert!(out.contains("Task: click sign up"));
    assert!(out.contains("URL: https://x.test/"));
}

#[test]
fn prompts_are_written_in_full() {
    let mut snap = empty_snapshot();
    assert_eq!(
        snapshot_for_prompt(&snap),
        "URL: https://x.test/\nTitle: Demo\n\nInteractive elements:\n  (none — page has no forms, fields, links, or buttons)\n\nText summary:\nhello\n"
    );
    snap.title = String::new();
    snap.text_summary = String::new();
    assert_eq!(
        format_followup_turn(&snap),
        "--- current page after the last action ---\nURL: https://x.test/\n\nInteractive elements:\n  (none — page has no forms, fields, links, or buttons)\n"
    );
    assert!(SYSTEM_PROMPT.starts_with("You drive a headless browser"));
}

// ---- tools ----

#[test]
fn tool_schemas_include_done_and_indexed_targets() {
    let schemas = tool_schemas();
    let names: Vec<&str> = schemas.iter().map(|s| s.get_str("name").unwrap()).collect();
    assert!(names.contains(&"click"));
    assert!(names.contains(&"fill"));
    assert!(names.contains(&"done"));
    assert!(names.contains(&"click_text"));
    assert!(names.contains(&"select_option"));
    assert!(names.contains(&"press_key"));
    assert!(names.contains(&"wait_for"));
}

#[test]
fn parse_target_prefers_index_over_selector() {
    let input = json(r##"{"index": 5, "selector": "#x"}"##);
    let t = parse_target(&input).unwrap();
    assert!(matches!(t, Target::Index(5)));
}

#[test]
fn parse_target_falls_back_to_selector() {
    let input = json(r#"{"selector": "h1"}"#);
    let t = parse_target(&input).unwrap();
    match t {
        Target::Selector(s) => assert_eq!(s, "h1"),
        _ => panic!("expected Selector"),
    }
}

#[test]
fn parse_target_errors_when_neither_present() {
    assert!(parse_target(&json("{}")).is_err());
    assert!(parse_target(&json(r#"{"selector": ""}"#)).is_err());
}

#[test]
fn string_field_errors_when_missing() {
    assert!(string_field(&json("{}"), "x").is_err());
    assert!(string_field(&json(r#"{"x": "ok"}"#), "x").is_ok());
}

#[test]
fn truncate_for_brief_caps_long_strings() {
    let long = "a".repeat(BRIEF_CAP * 2);
    let out = truncate_for_brief(&long);
    assert!(out.ends_with("[…]"));
    assert!(out.len() <= BRIEF_CAP + 6);
}

#[test]
fn truncate_for_brief_passes_short_through() {
    assert_eq!(truncate_for_brief("hello"), "hello");
}

#[test]
fn schemas_describe_their_arguments() {
    let schemas = tool_schemas();
    assert_eq!(schemas.len(), 11);
    let fill = schemas
        .iter()
        .find(|s| s.get_str("name") == Some("fill"))
        .unwrap();
    assert_eq!(
        fill.get("input_schema").unwrap().to_text(),
        r#"{"type":"object","properties":{"selector":{"type":"string"},"index":{"type":"integer"},"value":{"type":"string"}},"required":["value"]}"#
    );
    let back = schemas
        .iter()
        .find(|s| s.get_str("name") == Some("back"))
        .unwrap();
    assert_eq!(
        back.get("input_schema").unwrap().to_text(),
        r#"{"type":"object","properties":{}}"#
    );
}

#[test]
fn calls_are_planned_or_refused() {
    match plan_tool("fill", &json(r#"{"selector":"h1","value":"x"}"#)) {
        Ok(ToolPlan::Fill(Target::Selector(s), v)) => {
            assert_eq!(s, "h1");
            assert_eq!(v, "x");
        }
        _ => panic!("expected Fill"),
    }
    assert_eq!(
        plan_tool("fill", &json(r#"{"selector":"h1"}"#)).err(),
        Some("missing string field \"value\"".to_string())
    );
    assert_eq!(
        plan_tool("click", &json("{}")).err(),
        Some("missing selector or index in tool args".to_string())
    );
    assert_eq!(
        plan_tool("fly", &json("{}")).err(),
        Some("unknown tool \"fly\"".to_string())
    );
    assert_eq!(
        plan_tool("wait_for", &json("{}")).err(),
        Some("wait_for requires exactly one of selector / text".to_string())
    );
    assert_eq!(
        plan_tool("read", &json(r#"{"index":1,"mode":"x"}"#)).err(),
        Some("unknown read mode \"x\"".to_string())
    );
    assert!(matches!(
        plan_tool("wait_for", &json(r#"{"text":"hi"}"#)),
        Ok(ToolPlan::WaitForText(_, 5000))
    ));
    assert!(matches!(plan_tool("back", &json("{}")), Ok(ToolPlan::Back)));
    assert!(matches!(
        parse_target(&json(r#"{"index":4294967301}"#)),
        Ok(Target::Index(5))
    ));
}

#[test]
fn outcomes_are_put_in_words() {
    let brief = |p: ToolPlan, m: Vec<String>| match plan_outcome(&p, &m) {
        DispatchOutcome::Continue { brief } => brief,
        DispatchOutcome::Done { answer } => panic!("done: {answer}"),
    };
    assert_eq!(
        brief(
            ToolPlan::Fill(Target::Index(0), "äb".to_string()),
            vec![]
        ),
        "fill ok (2 chars)"
    );
    assert_eq!(
        brief(ToolPlan::ClickText("a\"b".to_string()), vec![]),
        "click_text ok (\"a\\\"b\")"
    );
    assert_eq!(
        brief(
            ToolPlan::Read(Target::Index(0), bouncy::session::ReadMode::Text),
            vec!["x".to_string(), "y".to_string()]
        ),
        "read returned 2 match(es): x\ny"
    );
    assert_eq!(
        brief(ToolPlan::Goto("https://x/".to_string()), vec![]),
        "goto https://x/"
    );
    match plan_outcome(&ToolPlan::Done("yes".to_string()), &vec![]) {
        DispatchOutcome::Done { answer } => assert_eq!(answer, "yes"),
        _ => panic!("expected Done"),
    }
}

// ---- the wire ----

#[test]
fn scripted_client_pops_in_order() {
    let mut s = ScriptedClient::new(vec![
        AssistantTurn {
            text: "first".into(),
            calls: vec![],
        },
        AssistantTurn {
            text: "second".into(),
            calls: vec![],
        },
    ]);
    assert_eq!(s.next_turn().unwrap().text, "first");
    assert_eq!(s.next_turn().unwrap().text, "second");
    assert!(s.next_turn().is_err());
}

#[test]
fn parse_assistant_turn_extracts_text_and_tool_calls() {
    let response = json(
        r#"{
            "content": [
                {"type": "text", "text": "I'll click."},
                {"type": "tool_use", "id": "call_1", "name": "click", "input": {"index": 3}}
            ]
        }"#,
    );
    let t = parse_assistant_turn(&response).unwrap();
    assert_eq!(t.text, "I'll click.");
    assert_eq!(t.calls.len(), 1);
    assert_eq!(t.calls[0].0, "call_1");
    assert_eq!(t.calls[0].1.name, "click");
}

#[test]
fn parse_assistant_turn_handles_no_tool_calls() {
    let response = json(r#"{"content": [{"type": "text", "text": "just text"}]}"#);
    let t = parse_assistant_turn(&response).unwrap();
    assert_eq!(t.text, "just text");
    assert!(t.calls.is_empty());
}

#[test]
fn block_to_api_serializes_tool_use() {
    let b = Block::ToolUse {
        id: "x".into(),
        call: ToolCall {
            name: "fill".into(),
            input: json(r#"{"value": "y"}"#),
        },
    };
    let v = block_to_api(&b);
    assert_eq!(v.get_str("type"), Some("tool_use"));
    assert_eq!(v.get_str("id"), Some("x"));
    assert_eq!(v.get_str("name"), Some("fill"));
    assert_eq!(v.get("input").unwrap().get_str("value"), Some("y"));
}

#[test]
fn block_to_api_serializes_tool_result_with_error_flag() {
    let b = Block::ToolResult {
        tool_use_id: "x".into(),
        content: "oops".into(),
        is_error: true,
    };
    let v = block_to_api(&b);
    assert_eq!(v.get_str("type"), Some("tool_result"));
    assert_eq!(v.get("is_error").unwrap().as_bool(), Some(true));
}

#[test]
fn anthropic_client_from_env_errors_when_unset() {
    let r = AnthropicClient::from_env(None, "model-x");
    assert_eq!(r.err(), Some("ANTHROPIC_API_KEY not set".to_string()));
    let r = AnthropicClient::from_env(Some(String::new()), "model-x");
    assert_eq!(r.err(), Some("ANTHROPIC_API_KEY is empty".to_string()));
    let c = AnthropicClient::from_env(Some("k".to_string()), "model-x").unwrap();
    assert_eq!(c.max_tokens, 4096);
}

#[test]
fn requests_hold_the_conversation() {
    let c = AnthropicClient::from_env(Some("k".to_string()), "m").unwrap();
    let messages = vec![Message {
        role: Role::User,
        content: vec![Block::Text {
            text: "hi".to_string(),
        }],
    }];
    let body = c.request_body("sys", &messages, &vec![json(r#"{"name":"t"}"#)]);
    assert_eq!(
        body.to_text(),
        r#"{"model":"m","max_tokens":4096,"system":"sys","tools":[{"name":"t"}],"messages":[{"role":"user","content":[{"type":"text","text":"hi"}]}]}"#
    );
    let m = Message {
        role: Role::Assistant,
        content: vec![],
    };
    assert_eq!(
        message_to_api(&m).to_text(),
        r#"{"role":"assistant","content":[]}"#
    );
}

#[test]
fn broken_replies_are_refused() {
    let err = |text: &str| parse_assistant_turn(&json(text)).err().unwrap();
    assert_eq!(
        err(r#"{"a":1}"#),
        "response missing content array: {\"a\":1}"
    );
    assert_eq!(
        err(r#"{"content":[{"type":"tool_use"}]}"#),
        "tool_use missing id"
    );
    assert_eq!(
        err(r#"{"content":[{"type":"tool_use","id":"x"}]}"#),
        "tool_use missing name"
    );
    let t = parse_assistant_turn(&json(
        r#"{"content":[{"type":"text","text":"a"},{"type":"other"},{"type":"text","text":"b"},{"type":"tool_use","id":"i","name":"n"}]}"#,
    ))
    .unwrap();
    assert_eq!(t.text, "a\nb");
    assert!(matches!(t.calls[0].1.input, Json::Null));
}

#[test]
fn replies_are_read_by_status() {
    assert_eq!(
        read_reply(200, &b"{\"a\":true}".to_vec())
            .unwrap()
            .to_text(),
        r#"{"a":true}"#
    );
    assert!(read_reply(200, &b"{".to_vec()).is_err());
    assert_eq!(
        read_reply(404, &b"no\xff".to_vec()).err(),
        Some("anthropic api 404 Not Found: no\u{fffd}".to_string())
    );
}

#[test]
fn calls_read_back_from_the_wire() {
    let b = Block::ToolUse {
        id: "i".to_string(),
        call: ToolCall {
            name: "click".to_string(),
            input: json(r#"{"index":2}"#),
        },
    };
    let reply = Json::object(vec![(
        "content".to_string(),
        Json::array(vec![block_to_api(&b)]),
    )]);
    let t = parse_assistant_turn(&reply).unwrap();
    assert_eq!(t.calls[0].0, "i");
    assert_eq!(t.calls[0].1.name, "click");
    assert_eq!(t.calls[0].1.input.to_text(), r#"{"index":2}"#);
}

// ---- the loop ----

fn task(max_steps: u32) -> Task {
    Task {
        id: "t".into(),
        start_url: "http://x/".into(),
        instruction: "go".into(),
        expected: vec![],
        max_steps,
    }
}

fn turn(text: &str, calls: &[(&str, &str)]) -> AssistantTurn {
    AssistantTurn {
        text: text.to_string(),
        calls: calls
            .iter()
            .map(|(id, name)| {
                (
                    id.to_string(),
                    ToolCall {
                        name: name.to_string(),
                        input: Json::Null,
                    },
                )
            })
            .collect(),
    }
}

#[test]
fn a_run_ends_with_done() {
    let snap = empty_snapshot();
    let mut run = AgentRun::start(&task(3), &snap);
    assert_eq!(run.need(), Need::Turn);
    assert_eq!(run.messages().len(), 1);
    run.turn(turn("look", &[("a", "click"), ("b", "back")]));
    assert_eq!(run.need(), Need::Outcome);
    assert_eq!(run.call().name, "click");
    run.outcome(Err("no match".to_string()));
    assert_eq!(run.need(), Need::Outcome);
    assert_eq!(run.call().name, "back");
    run.outcome(Ok(DispatchOutcome::Continue {
        brief: "back ok".to_string(),
    }));
    assert_eq!(run.need(), Need::Snapshot);
    run.look(&snap);
    assert_eq!(run.messages().len(), 3);
    match &run.messages()[2].content[0] {
        Block::ToolResult {
            tool_use_id,
            content,
            is_error,
        } => {
            assert_eq!(tool_use_id, "a");
            assert_eq!(content, "no match");
            assert!(*is_error);
        }
        other => panic!("got {other:?}"),
    }
    assert_eq!(run.messages()[2].content.len(), 3);
    run.turn(turn("", &[("c", "done"), ("d", "click")]));
    run.outcome(Ok(DispatchOutcome::Done {
        answer: "42".to_string(),
    }));
    assert_eq!(run.need(), Need::Nothing);
    let t = run.finish(7);
    assert_eq!(t.answer.as_deref(), Some("42"));
    assert_eq!(t.elapsed_ms, 7);
    assert!(matches!(t.stop_reason, StopReason::Done));
    assert_eq!(t.steps.len(), 3);
    assert!(t.steps[0].is_error);
    assert_eq!(t.steps[2].result, "done — answer captured (2 chars)");
}

#[test]
fn a_run_ends_when_its_turns_run_out() {
    let snap = empty_snapshot();
    let mut run = AgentRun::start(&task(1), &snap);
    run.turn(turn("", &[("a", "back")]));
    run.outcome(Ok(DispatchOutcome::Continue {
        brief: "back ok".to_string(),
    }));
    run.look(&snap);
    assert_eq!(run.need(), Need::Nothing);
    let t = run.finish(0);
    assert!(matches!(t.stop_reason, StopReason::MaxSteps));
    assert!(t.answer.is_none());
    assert_eq!(AgentRun::start(&task(0), &snap).need(), Need::Nothing);
}

#[test]
fn a_run_ends_without_a_call() {
    let mut run = AgentRun::start(&task(3), &empty_snapshot());
    run.turn(turn("hm", &[]));
    assert_eq!(run.messages().len(), 2);
    let t = run.finish(0);
    assert_eq!(
        t.stop_reason.text(),
        "Error(\"model returned no tool call\")"
    );
}

// ---- the summary ----

#[test]
fn median_ms_returns_middle_after_sort() {
    let s = vec![
        ("a".into(), true, 10, String::new()),
        ("b".into(), true, 50, String::new()),
        ("c".into(), false, 30, String::new()),
    ];
    assert_eq!(median_ms(&s), 30);
}

#[test]
fn median_ms_zero_when_empty() {
    assert_eq!(median_ms(&[]), 0);
}

#[test]
fn totals_count_passes_and_times() {
    let s = vec![
        ("a".to_string(), true, 10, String::new()),
        ("b".to_string(), false, 50, String::new()),
    ];
    let t = totals(&s);
    assert_eq!(t.passed, 1);
    assert_eq!(t.total_ms, 60);
    assert_eq!(t.median_ms, 50);
}

#[test]
fn task_files_hold_one_task_or_a_list() {
    assert!(holds_list(" \n[{}]"));
    assert!(!holds_list("{}"));
    assert!(!holds_list(""));
    assert_eq!(default_max_steps(), 20);
}

#[test]
fn plans_become_commands() {
    let plan = plan_tool("fill", &json(r##"{"selector":"#q","value":"x"}"##)).unwrap();
    match plan.command() {
        Some(Command::FillTarget { target: Target::Selector(s), value }) => {
            assert_eq!(s, "#q");
            assert_eq!(value, "x");
        }
        _ => panic!("a fill"),
    }
    let plan = plan_tool("read", &json(r#"{"index":3,"mode":"attr:href"}"#)).unwrap();
    match plan.command() {
        Some(Command::ReadTarget { target: Target::Index(3), mode: ReadMode::Attr(n) }) => {
            assert_eq!(n, "href")
        }
        _ => panic!("a read"),
    }
    let plan = plan_tool("done", &json(r#"{"answer":"42"}"#)).unwrap();
    assert!(plan.command().is_none());
}

#[test]
fn request_for_a_turn_carries_the_key_and_the_body() {
    let client = AnthropicClient::from_env(Some("k".to_string()), "model-x").unwrap();
    let req = client.request("be brief", &vec![], &vec![]);
    assert_eq!(req.url, "https://api.anthropic.com/v1/messages");
    assert_eq!(req.method, "POST");
    assert_eq!(
        req.headers,
        vec![
            ("content-type".to_string(), "application/json".to_string()),
            ("x-api-key".to_string(), "k".to_string()),
            ("anthropic-version".to_string(), "2023-06-01".to_string()),
        ]
    );
    assert_eq!(
        String::from_utf8(req.body).unwrap(),
        client.request_body("be brief", &vec![], &vec![]).to_text()
    );
}
