use bouncy::dom::Document;
use bouncy::session::chain::{plan_command, plan_step, ChainRun, Command, Plan, Primitive};
use bouncy::session::history::{History, NavStep};
use bouncy::session::page::{
    click_text_selector, contains_ignore_ascii_case, decode_page, find_by_text, page_snapshot,
    read_page, resolve_target, wait_for_selector, wait_for_text, WaitStep,
};
use bouncy::session::{
    click_script, fill_script, form_failure, js_string, key_code_for, key_script, option_failure,
    plan_submit, script_failure, unquote_eval_result, unread_form, BrowseError, BrowseOpts, ChainStep,
    ChainStepOutput, FormIntel, ReadMode, SubmitPlan, Target,
};
use bouncy::snapshot::SnapshotOpts;
use bouncy::urls::{has_room_for_query, UrlPieces};

#[test]
fn js_string_escapes_special_chars() {
    assert_eq!(js_string("hello"), "\"hello\"");
    assert_eq!(js_string("a\"b"), "\"a\\\"b\"");
    assert_eq!(js_string("line1\nline2"), "\"line1\\nline2\"");
    assert_eq!(js_string("</script>"), "\"</script>\"");
}

#[test]
fn browse_opts_default_is_sane() {
    let opts = BrowseOpts::default();
    assert!(opts.user_agent.is_none());
    assert!(!opts.stealth);
    assert_eq!(opts.snapshot_opts.max_text_summary_bytes, 2048);
}

#[test]
fn read_mode_variants_are_distinct() {
    let _ = ReadMode::Text;
    let _ = ReadMode::Html;
    let _ = ReadMode::Attr("href".into());
}

fn arrive(h: &mut History, url: &str) {
    let nav = h.begin(url, true);
    assert!(matches!(h.loaded(nav, None), NavStep::Arrived));
}

#[test]
fn history_goes_back_and_forward() {
    let mut h = History::new();
    arrive(&mut h, "http://a/");
    arrive(&mut h, "http://b/");
    let to = h.take_back().unwrap();
    assert_eq!(to, "http://a/");
    let nav = h.begin(&to, false);
    assert!(matches!(h.loaded(nav, None), NavStep::Arrived));
    h.went_back("http://b/".to_string());
    let to = h.take_forward().unwrap();
    assert_eq!(to, "http://b/");
    let nav = h.begin(&to, false);
    assert!(matches!(h.loaded(nav, None), NavStep::Arrived));
    h.went_forward("http://a/".to_string());
    assert!(h.take_forward().is_err());
    assert_eq!(h.take_back().unwrap(), "http://a/");
}

#[test]
fn navigations_follow_pages_that_ask_for_others() {
    let mut h = History::new();
    let nav = h.begin("http://a/", true);
    let nav = match h.loaded(nav, Some("http://b/".to_string())) {
        NavStep::Load(n) => n,
        _ => panic!("expected Load"),
    };
    assert!(matches!(h.loaded(nav, None), NavStep::Arrived));
    let mut nav = h.begin("http://loop/", true);
    let mut loads = 0;
    loop {
        loads += 1;
        assert!(loads < 50);
        nav = match h.loaded(nav, Some("http://loop/".to_string())) {
            NavStep::Load(n) => n,
            NavStep::Fail(BrowseError::Io(m)) => {
                assert!(!m.is_empty());
                break;
            }
            _ => panic!("expected a failure"),
        };
    }
}

const PAGE: &str = "<body><h1>Hello World</h1><a href='/x'>More</a><button>Go on</button><button>Go</button></body>";

#[test]
fn pages_are_read_in_every_mode() {
    assert_eq!(read_page(PAGE, "h1", &ReadMode::Text).unwrap(), vec!["Hello World"]);
    assert_eq!(
        read_page(PAGE, "a", &ReadMode::Html).unwrap(),
        vec!["<a href=\"/x\">More</a>"]
    );
    assert_eq!(
        read_page(PAGE, "a", &ReadMode::Attr("href".to_string())).unwrap(),
        vec!["/x"]
    );
    assert!(matches!(
        read_page(PAGE, "h7", &ReadMode::Text),
        Err(BrowseError::NoMatch(_)) | Ok(_)
    ));
    let snap = page_snapshot(PAGE, "http://x.test/", SnapshotOpts::default()).unwrap();
    assert_eq!(snap.links[0].href, "http://x.test/x");
}

#[test]
fn texts_are_found_exactly_before_in_part() {
    let doc = Document::parse("<button id=a>Go on</button><button id=b> go </button>").unwrap();
    let found = |text: &str| match find_by_text(&doc, text) {
        Ok(h) => (h.selector, h.nth),
        Err(e) => panic!("{e:?}"),
    };
    assert_eq!(found("Go"), ("#b".to_string(), 0));
    assert_eq!(found("ON"), ("#a".to_string(), 0));
    assert!(matches!(
        find_by_text(&doc, "stop"),
        Err(BrowseError::NoMatch(_))
    ));
    match click_text_selector("<a id=z href=/>Now</a>", "now") {
        Ok(h) => assert_eq!((h.selector.as_str(), h.nth), ("#z", 0)),
        Err(e) => panic!("{e:?}"),
    }
    match click_text_selector("<a href=/1>One</a><a href=/2>Two</a>", "Two") {
        Ok(h) => assert_eq!((h.selector.as_str(), h.nth), ("a", 1)),
        Err(e) => panic!("{e:?}"),
    }
    assert!(contains_ignore_ascii_case("Hello", "LL"));
    assert!(!contains_ignore_ascii_case("Hello", "lo!"));
}

#[test]
fn waits_end_with_a_match_or_in_time() {
    assert!(matches!(wait_for_selector(PAGE, "h1", 0, 100), WaitStep::Ready));
    assert!(matches!(wait_for_selector(PAGE, "h2", 0, 100), WaitStep::Sleep(50)));
    assert!(matches!(wait_for_selector(PAGE, "h2", 100, 100), WaitStep::Fail(_)));
    assert!(matches!(wait_for_text(PAGE, "World", 0, 100), WaitStep::Ready));
    assert!(matches!(wait_for_text(PAGE, "Moon", 100, 100), WaitStep::Fail(_)));
}

#[test]
fn targets_are_selectors_or_positions() {
    let snap = page_snapshot(PAGE, "http://x.test/", SnapshotOpts::default()).unwrap();
    assert_eq!(resolve_target(&Target::selector("p"), &snap).unwrap(), "p");
    assert_eq!(resolve_target(&Target::index(0), &snap).unwrap(), "a");
    assert!(matches!(
        resolve_target(&Target::index(99), &snap),
        Err(BrowseError::NoMatch(_))
    ));
}

#[test]
fn scripts_quote_what_they_are_given() {
    assert!(click_script("a\"b").contains("document.querySelector(\"a\\\"b\")"));
    let s = fill_script("#q", "x'y");
    assert!(s.contains("\"#q\"") && s.contains("\"x'y\""));
    assert_eq!(key_code_for("Enter"), 13);
    assert!(key_script("#q", "Enter").contains("13"));
}

#[test]
fn failures_of_scripts_are_told_apart() {
    assert!(matches!(script_failure("a", "Uncaught Error: no match"), BrowseError::NoMatch(_)));
    assert!(matches!(script_failure("a", "boom"), BrowseError::Js(_)));
    assert!(matches!(form_failure("a", "no match"), BrowseError::NoMatch(_)));
    assert!(matches!(option_failure("a", "v", "no option matches"), BrowseError::NoMatch(_)));
    assert!(matches!(option_failure("a", "v", "boom"), BrowseError::Js(_)));
}

#[test]
fn forms_are_submitted_by_method() {
    let form = FormIntel {
        action: Some("/s".to_string()),
        method: "GET".to_string(),
        fields: vec![("q".to_string(), "a b".to_string())],
    };
    match plan_submit("form", "http://x.test/p", &form).ok().unwrap() {
        SubmitPlan::Visit(u) => assert_eq!(u, "http://x.test/s?q=a+b"),
        _ => panic!("expected Visit"),
    }
    let form = FormIntel {
        method: "POST".to_string(),
        ..form
    };
    match plan_submit("form", "http://x.test/p", &form).ok().unwrap() {
        SubmitPlan::Post(r) => {
            assert_eq!(r.method, "POST");
            assert_eq!(r.body, b"q=a+b");
            assert_eq!(r.url, "http://x.test/s");
        }
        _ => panic!("expected Post"),
    }
    let form = FormIntel {
        action: None,
        ..form
    };
    assert!(matches!(
        plan_submit("form", "http://x.test/p", &form),
        Ok(SubmitPlan::Dispatch(_))
    ));
    let form = FormIntel {
        action: Some("http://[".to_string()),
        ..form
    };
    assert!(matches!(
        plan_submit("form", "http://x.test/p", &form),
        Err(BrowseError::Url(_))
    ));
}

#[test]
fn form_reports_are_unquoted() {
    assert_eq!(unquote_eval_result("\"x\""), "x");
    assert_eq!(unquote_eval_result("x"), "x");
    assert_eq!(unquote_eval_result("\"{\\\"a\\\":1}\""), "{\"a\":1}");
    match unread_form("raw", "why") {
        BrowseError::Io(m) => assert_eq!(m, "parsing form intel JSON failed: why (raw: raw)"),
        e => panic!("{e:?}"),
    }
}

#[test]
fn chains_stop_at_the_first_failure() {
    let plan = plan_command(Command::Chain {
        steps: vec![
            ChainStep::Goto("http://a/".to_string()),
            ChainStep::Back,
            ChainStep::Forward,
        ],
    });
    let steps = match plan {
        Plan::Many(v) => v,
        _ => panic!("expected Many"),
    };
    assert_eq!(steps.len(), 3);
    let mut run = ChainRun::new(steps);
    assert!(matches!(run.next(), Some(Primitive::Goto(_))));
    run.record(Ok(ChainStepOutput::Reads(vec!["x".to_string()])));
    assert!(matches!(run.next(), Some(Primitive::Back)));
    run.record(Err(BrowseError::ActorGone));
    assert!(run.next().is_none());
    let failure = match run.finish() {
        Err(f) => f,
        Ok(_) => panic!("the chain failed"),
    };
    assert!(matches!(failure.error, BrowseError::ActorGone));
    assert_eq!(failure.done.len(), 1);
    assert!(matches!(&failure.done[0], ChainStepOutput::Reads(v) if v == &vec!["x".to_string()]));
    assert!(matches!(
        plan_step(ChainStep::Wait { ms: 5 }),
        Primitive::Wait(5)
    ));
}

#[test]
fn failed_chains_give_what_was_done() {
    let steps = vec![Primitive::Snapshot, Primitive::Back, Primitive::Forward];
    let mut run = ChainRun::new(steps);
    assert!(matches!(run.next(), Some(Primitive::Snapshot)));
    let snap = page_snapshot(PAGE, "http://x.test/", SnapshotOpts::default()).unwrap();
    run.record(Ok(ChainStepOutput::Snapshot(snap)));
    run.next();
    run.record(Err(BrowseError::NoMatch("#nope".to_string())));
    assert!(run.next().is_none());
    match run.finish() {
        Err(f) => {
            assert!(matches!(f.error, BrowseError::NoMatch(s) if s == "#nope"));
            assert_eq!(f.done.len(), 1);
            assert!(matches!(f.done[0], ChainStepOutput::Snapshot(_)));
        }
        Ok(_) => panic!("the chain failed"),
    }
}

#[test]
fn pages_are_read_as_utf8() {
    assert_eq!(decode_page("h\u{e9}".as_bytes()).unwrap(), "h\u{e9}");
    assert_eq!(decode_page(b"").unwrap(), "");
    assert!(matches!(decode_page(b"a\xff"), Err(BrowseError::NotUtf8)));
}

#[test]
fn lone_quotes_match_nothing_on_a_page() {
    assert!(matches!(
        read_page(PAGE, "[a=\"]", &ReadMode::Text),
        Ok(v) if v.is_empty()
    ));
    assert!(matches!(
        wait_for_selector(PAGE, "[a=']", 0, 100),
        WaitStep::Sleep(50)
    ));
}

#[test]
fn fields_go_behind_the_query_and_before_the_fragment() {
    let submit = |action: &str, fields: &[(&str, &str)]| {
        let form = FormIntel {
            action: Some(action.to_string()),
            method: "GET".to_string(),
            fields: fields.iter().map(|(n, v)| (n.to_string(), v.to_string())).collect(),
        };
        match plan_submit("form", "http://x.test/", &form) {
            Ok(SubmitPlan::Visit(u)) => u,
            _ => panic!("expected Visit"),
        }
    };
    assert_eq!(submit("/p#f", &[("a", "b c")]), "http://x.test/p?a=b+c#f");
    assert_eq!(submit("/p?q=1", &[("a", "&"), ("b", "")]), "http://x.test/p?q=1&a=%26&b=");
    assert_eq!(submit("/p?#f", &[("a", "b")]), "http://x.test/p?a=b#f");
    assert_eq!(submit("/p?q=1#f", &[]), "http://x.test/p?q=1#f");
    assert_eq!(submit("/p", &[]), "http://x.test/p?");
    assert_eq!(submit("mailto:a", &[("s", "t")]), "mailto:a?s=t");
}

#[test]
fn urls_in_parts_have_room_for_a_query() {
    let pieces = UrlPieces {
        before: "http://x.test/p".to_string(),
        query: Some("q".to_string()),
        fragment: Some("f".to_string()),
    };
    assert!(has_room_for_query(&pieces, &vec![("a".to_string(), "b".to_string())]));
    assert_eq!(pieces.text(), "http://x.test/p?q#f");
}

#[test]
fn session_errors_are_put_in_words() {
    assert_eq!(
        BrowseError::NoMatch("a".to_string()).message(),
        "selector matched no elements: \"a\""
    );
    assert_eq!(
        BrowseError::ActorGone.message(),
        "session actor disappeared"
    );
    assert_eq!(BrowseError::NotUtf8.message(), "body is not valid UTF-8");
    assert_eq!(BrowseError::Url("u".to_string()).message(), "invalid url: u");
    assert_eq!(BrowseError::Io("i".to_string()).message(), "io: i");
    assert_eq!(
        BrowseError::Fetch("f".to_string()).message(),
        "fetch error: f"
    );
    assert_eq!(
        BrowseError::Js("j".to_string()).message(),
        "js runtime error: j"
    );
    assert_eq!(
        BrowseError::Dom("d".to_string()).message(),
        "html parse error: d"
    );
}
