use bouncy::cli::command::{
    parse_read_mode, read_line, report, split_first_word, summarize, Operation, Typed,
};
use bouncy::cli::request::{
    base64_encode, build_blocklist, build_client, build_request, choose_body, follow, millis,
    needs_js, parse_header, print_lines, print_links, render, DumpFormat, OutputError,
};
use bouncy::extract::Link;
use bouncy::session::chain::Command;
use bouncy::session::{ChainStepOutput, ReadMode};
use bouncy::snapshot::PageSnapshot;
use bouncy::textmap::TextMap;

#[test]
fn parse_click_takes_selector() {
    match Operation::parse("click h1.title").unwrap() {
        Operation::Click(s) => assert_eq!(s, "h1.title"),
        _ => panic!("expected Click"),
    }
}

#[test]
fn parse_fill_keeps_value_with_spaces_intact() {
    match Operation::parse("fill input[name=msg] hello world").unwrap() {
        Operation::Fill { selector, value } => {
            assert_eq!(selector, "input[name=msg]");
            assert_eq!(value, "hello world");
        }
        _ => panic!("expected Fill"),
    }
}

#[test]
fn parse_read_defaults_to_text_mode() {
    match Operation::parse("read h1").unwrap() {
        Operation::Read { selector, mode } => {
            assert_eq!(selector, "h1");
            assert!(matches!(mode, ReadMode::Text));
        }
        _ => panic!("expected Read"),
    }
}

#[test]
fn parse_read_attr_mode() {
    match Operation::parse("read a attr:href").unwrap() {
        Operation::Read { selector, mode } => {
            assert_eq!(selector, "a");
            match mode {
                ReadMode::Attr(n) => assert_eq!(n, "href"),
                _ => panic!("expected Attr"),
            }
        }
        _ => panic!("expected Read"),
    }
}

#[test]
fn parse_eval_keeps_expr_with_dots_and_parens() {
    match Operation::parse("eval document.querySelector('h1').textContent").unwrap() {
        Operation::Eval(e) => assert_eq!(e, "document.querySelector('h1').textContent"),
        _ => panic!("expected Eval"),
    }
}

#[test]
fn parse_snapshot() {
    assert!(matches!(
        Operation::parse("snapshot").unwrap(),
        Operation::Snapshot
    ));
}

#[test]
fn parse_unknown_command_errors_with_helpful_message() {
    let err = Operation::parse("scroll down").unwrap_err();
    let msg = err.to_string();
    assert!(msg.contains("unknown command"), "got: {msg}");
    assert!(msg.contains("scroll"), "got: {msg}");
}

#[test]
fn parse_missing_args_errors() {
    assert!(Operation::parse("click").is_err());
    assert!(Operation::parse("fill").is_err());
    assert!(Operation::parse("submit").is_err());
    assert!(Operation::parse("goto").is_err());
    assert!(Operation::parse("read").is_err());
    assert!(Operation::parse("eval").is_err());
}

#[test]
fn parse_read_mode_unknown_errors() {
    assert!(parse_read_mode("foo").is_err());
}

#[test]
fn parse_read_mode_html_and_text() {
    assert!(matches!(parse_read_mode("text").unwrap(), ReadMode::Text));
    assert!(matches!(parse_read_mode("html").unwrap(), ReadMode::Html));
    assert!(matches!(parse_read_mode("").unwrap(), ReadMode::Text));
}

#[test]
fn split_first_word_basic() {
    assert_eq!(split_first_word("hello world"), ("hello", " world"));
    assert_eq!(split_first_word("alone"), ("alone", ""));
    assert_eq!(split_first_word(""), ("", ""));
}

#[test]
fn commands_that_lack_something_say_what() {
    let err = |s: &str| Operation::parse(s).unwrap_err();
    assert_eq!(err("click"), "click requires a selector");
    assert_eq!(err("fill  "), "fill requires a selector");
    assert_eq!(err("goto"), "goto requires a URL");
    assert_eq!(err("eval"), "eval requires an expression");
    assert_eq!(err("  "), "empty command");
    assert_eq!(
        err("read a b"),
        "unknown read mode \"b\" — expected: text | html | attr:NAME"
    );
    assert_eq!(
        err("fly"),
        "unknown command \"fly\" — try: click | fill | submit | goto | read | eval | snapshot | help"
    );
}

#[test]
fn operations_become_commands() {
    match Operation::parse("submit form#a").unwrap().command() {
        Command::Submit { selector } => assert_eq!(selector, "form#a"),
        _ => panic!("expected Submit"),
    }
    match Operation::parse("goto https://x/").unwrap().command() {
        Command::Goto { url } => assert_eq!(url, "https://x/"),
        _ => panic!("expected Goto"),
    }
}

#[test]
fn typed_lines_are_told_apart() {
    assert!(matches!(read_line("  "), Typed::Nothing));
    assert!(matches!(read_line(" quit\n"), Typed::Quit));
    assert!(matches!(read_line("exit"), Typed::Quit));
    assert!(matches!(read_line("?"), Typed::Help));
    assert!(matches!(read_line("help"), Typed::Help));
    assert!(matches!(
        read_line("click a"),
        Typed::Run(Operation::Click(_))
    ));
    assert!(matches!(read_line("click"), Typed::Wrong(_)));
}

#[test]
fn pages_are_summed_up_in_one_line() {
    let snap = PageSnapshot {
        url: "https://x/".into(),
        title: "a\"b".into(),
        forms: vec![],
        links: vec![],
        buttons: vec![],
        inputs: vec![],
        headings: vec![],
        interactive: vec![],
        text_summary: String::new(),
        meta: TextMap::new(),
    };
    assert_eq!(
        summarize(&snap),
        "snapshot @ https://x/ — title=\"a\\\"b\", 0 forms, 0 links, 0 buttons, 0 inputs, 0 headings"
    );
}

// ---- requests ----

#[test]
fn headers_are_divided_at_the_first_colon() {
    assert_eq!(parse_header("A : b: c "), Ok(("A", "b: c ")));
    assert_eq!(
        parse_header("nothing"),
        Err("invalid --header \"nothing\" (expected `Name: Value`)".to_string())
    );
}

#[test]
fn base64_follows_the_alphabet() {
    assert_eq!(base64_encode(b""), "");
    assert_eq!(base64_encode(b"f"), "Zg==");
    assert_eq!(base64_encode(b"fo"), "Zm8=");
    assert_eq!(base64_encode(b"foo"), "Zm9v");
    assert_eq!(base64_encode(b"foobar"), "Zm9vYmFy");
    assert_eq!(base64_encode(b"\xff\xfe\xfd"), "//79");
    assert_eq!(base64_encode(b"\xfb\xef\xbe"), "++++");
    assert_eq!(base64_encode(b"user:pass"), "dXNlcjpwYXNz");
}

#[test]
fn requests_are_built_from_the_command_line() {
    let r = build_request(
        "https://x/",
        "POST",
        &vec!["X-A: 1".to_string()],
        true,
        Some("user:pass"),
        Some(b"{}".to_vec()),
    )
    .unwrap();
    assert_eq!(r.url, "https://x/");
    assert_eq!(r.method, "POST");
    assert_eq!(r.body, b"{}");
    let headers: Vec<(&str, &str)> = r
        .headers
        .iter()
        .map(|(a, b)| (a.as_str(), b.as_str()))
        .collect();
    assert_eq!(
        headers,
        vec![
            ("X-A", "1"),
            ("Content-Type", "application/json"),
            ("Authorization", "Basic dXNlcjpwYXNz")
        ]
    );
}

#[test]
fn given_headers_win_over_implied_ones() {
    let r = build_request(
        "https://x/",
        "GET",
        &vec!["content-TYPE: a/b".to_string()],
        true,
        None,
        None,
    )
    .unwrap();
    assert_eq!(r.headers.len(), 1);
    let e = build_request(
        "https://x/",
        "GET",
        &vec!["authorization: x".to_string()],
        false,
        Some("u:p"),
        None,
    );
    assert_eq!(
        e.err(),
        Some("--auth conflicts with an explicit Authorization header — pick one".to_string())
    );
    assert!(build_request(
        "https://x/",
        "GET",
        &vec!["bad".to_string()],
        false,
        None,
        None
    )
    .is_err());
}

#[test]
fn bodies_are_chosen_in_order() {
    assert_eq!(
        choose_body(Some("a"), Some(b"b".to_vec()), Some("c")),
        Some(b"a".to_vec())
    );
    assert_eq!(
        choose_body(None, Some(b"b".to_vec()), Some("c")),
        Some(b"b".to_vec())
    );
    assert_eq!(choose_body(None, None, Some("c")), Some(b"c".to_vec()));
    assert_eq!(choose_body(None, None, None), None);
}

#[test]
fn blocklists_join_known_and_given_hosts() {
    assert!(build_blocklist(false, &vec![]).is_none());
    let given = build_blocklist(false, &vec![" Ads.Test ".to_string()]).unwrap();
    assert!(given.blocks("https://ads.test/"));
    assert!(!given.blocks("https://doubleclick.net/"));
    let both = build_blocklist(true, &vec!["ads.test".to_string()]).unwrap();
    assert!(both.blocks("https://sub.ads.test/"));
    assert!(both.blocks("https://doubleclick.net/"));
}

#[test]
fn output_is_one_thing_per_line() {
    assert_eq!(
        print_lines(&vec!["a".to_string(), "b".to_string()]),
        "a\nb\n"
    );
    let links = vec![Link {
        url: "https://x/".to_string(),
        text: "X".to_string(),
    }];
    assert_eq!(print_links(&links), "https://x/\tX\n");
    assert!(needs_js(false, true, false));
    assert!(!needs_js(false, false, false));
}

#[test]
fn clients_are_built_from_the_command_line() {
    let b = build_client(
        None,
        Some("p:1"),
        30,
        None,
        &vec!["a.pem".to_string(), "b.pem".to_string()],
        Some("me/1"),
        3,
    );
    assert_eq!(b.proxy.as_deref(), Some("p:1"));
    assert_eq!(b.request_timeout_ms, Some(30_000));
    assert_eq!(b.extra_ca_files, vec!["a.pem", "b.pem"]);
    assert_eq!(b.max_redirects, 3);
    let f = b.build().unwrap();
    assert_eq!(f.user_agent, "me/1");
    assert!(f.cookie_jar().is_none());
    let b = build_client(None, None, 0, None, &vec![], None, 10);
    assert_eq!(b.request_timeout_ms, None);
    assert_eq!(millis(u64::MAX), u64::MAX);
}

#[test]
fn pages_are_followed_a_few_times() {
    let mut hops = 0;
    assert!(follow(&mut hops, None).is_none());
    for _ in 0..10 {
        let r = follow(&mut hops, Some("https://x/".to_string())).unwrap();
        assert_eq!((r.url.as_str(), r.method.as_str()), ("https://x/", "GET"));
    }
    assert!(follow(&mut hops, Some("https://x/".to_string())).is_none());
}

#[test]
fn pages_are_put_out_in_every_form() {
    let page = b"<title>T</title><body><p class=a>one</p><a href=b>two</a></body>".to_vec();
    let out = |d: DumpFormat, s: Option<&str>, a: Option<&str>, u: &str| {
        render(page.clone(), d, s, a, u).map(|b| String::from_utf8(b).unwrap())
    };
    assert_eq!(
        out(DumpFormat::Html, None, None, "").unwrap().as_bytes(),
        page.as_slice()
    );
    assert!(out(DumpFormat::Text, None, None, "")
        .unwrap()
        .contains("onetwo"));
    assert_eq!(
        out(DumpFormat::Links, None, None, "https://x/").unwrap(),
        "https://x/b\ttwo\n"
    );
    assert!(matches!(
        out(DumpFormat::Links, None, None, "nowhere"),
        Err(OutputError::NoUrl)
    ));
    assert_eq!(out(DumpFormat::Html, Some("p"), None, "").unwrap(), "one\n");
    assert_eq!(
        out(DumpFormat::Html, Some("p"), Some("class"), "").unwrap(),
        "a\n"
    );
    assert!(matches!(
        render(b"\xff".to_vec(), DumpFormat::Html, Some("p"), None, ""),
        Err(OutputError::NotUtf8)
    ));
}

#[test]
fn steps_are_reported_line_by_line() {
    let reads = ChainStepOutput::Reads(vec!["a".to_string(), "b\"".to_string()]);
    assert_eq!(
        report(&reads, false),
        vec!["  ↳ a".to_string(), "  ↳ b\"".to_string()]
    );
    assert_eq!(report(&reads, true), vec![r#"["a","b\""]"#.to_string()]);
}
