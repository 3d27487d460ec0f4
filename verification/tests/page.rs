use bouncy::cdp::{
    answer, classify_result, evaluation_result, navigation_result, Action, RpcRequest, Session,
};
use bouncy::js::{
    after_script, eval_alone, eval_on_page, next_stealth_seed, node_arg, resolve_url, seed_script,
    wait_over, Error, Page, ScriptOutcome,
};
use bouncy::json::{parse_bytes, parse_json, Json};
use http::{HeaderMap, HeaderValue};

fn page(html: &str) -> Page {
    Page::load(html, "http://x.test/dir/").unwrap()
}

#[test]
fn inline_scripts_are_those_without_src() {
    let p = page("<script>a()</script><script src=x.js>b()</script><script> \n</script><script>c()</script>");
    assert_eq!(p.inline_scripts(), vec!["a()", "c()"]);
}

#[test]
fn pages_are_dumped_and_searched() {
    let p = page("<p id=a>x</p>");
    assert_eq!(
        p.dump_html(),
        "<html><head></head><body><p id=\"a\">x</p></body></html>"
    );
    let n = p.query_selector("#a").unwrap();
    assert_eq!(p.outer_html(n).as_deref(), Some("<p id=\"a\">x</p>"));
    assert_eq!(p.outer_html(4_000_000), None);
    assert_eq!(p.query_selector("#b"), None);
}

#[test]
fn the_last_navigation_counts() {
    let mut p = page("");
    assert!(!p.nav_to(""));
    assert_eq!(p.take_pending_nav(), None);
    assert!(p.nav_to("/one"));
    assert!(p.nav_to("two"));
    assert_eq!(p.take_pending_nav().as_deref(), Some("http://x.test/dir/two"));
    assert_eq!(p.take_pending_nav(), None);
    assert!(p.nav_to("https://y.test"));
    assert_eq!(p.take_pending_nav().as_deref(), Some("https://y.test"));
}

#[test]
fn script_requests_carry_cookies_that_were_set() {
    let mut p = page("");
    let first = p.plan_fetch("/login", "", "").unwrap();
    assert_eq!(first.url, "http://x.test/login");
    assert_eq!(first.method, "GET");
    assert!(first.headers.is_empty());
    let mut headers = HeaderMap::new();
    headers.append("set-cookie", HeaderValue::from_static("a=1"));
    let (status, body) = p.take_reply(&first.url, 200, &headers, b"ok\xff");
    assert_eq!(status, 200);
    assert_eq!(body, "ok\u{fffd}");
    let second = p.plan_fetch("/me", "POST", "b").unwrap();
    assert_eq!(second.method, "POST");
    assert_eq!(second.body, b"b");
    assert_eq!(
        second.headers,
        vec![("Cookie".to_string(), "a=1".to_string())]
    );
    let other = p.plan_fetch("http://y.test/", "", "").unwrap();
    assert!(other.headers.is_empty());
}

#[test]
fn script_addresses_are_resolved() {
    assert_eq!(resolve_url("", "http://a/"), Ok("http://a/".to_string()));
    assert_eq!(
        resolve_url("", "a"),
        Err("relative url with no base".to_string())
    );
    assert_eq!(
        resolve_url("http://a/b/c", "d"),
        Ok("http://a/b/d".to_string())
    );
    let mut p = page("");
    p.base_url = String::new();
    assert_eq!(
        p.plan_fetch("x\"y", "", "").err(),
        Some("fetch: bad url \"x\\\"y\": relative url with no base".to_string())
    );
}

#[test]
fn engine_answers_are_read() {
    let text = |o: ScriptOutcome| eval_on_page(o).map_err(|e| e.message());
    assert_eq!(text(ScriptOutcome::Value("3".to_string())), Ok("3".to_string()));
    assert_eq!(
        text(ScriptOutcome::NotCompiled(None)),
        Err("compile error: <compile error>".to_string())
    );
    assert_eq!(
        text(ScriptOutcome::NotCompiled(Some("x".to_string()))),
        Err("compile error: x".to_string())
    );
    assert_eq!(
        text(ScriptOutcome::Stopped(false, None)),
        Err("runtime error: <runtime error>".to_string())
    );
    assert_eq!(
        text(ScriptOutcome::Stopped(false, Some("boom".to_string()))),
        Err("runtime error: boom".to_string())
    );
    let nav = Err("execution halted by queued navigation".to_string());
    assert_eq!(text(ScriptOutcome::Stopped(true, None)), nav);
    assert_eq!(
        text(ScriptOutcome::Stopped(
            false,
            Some("Uncaught Error: bouncy:nav-terminated".to_string())
        )),
        nav
    );
    assert_eq!(
        text(ScriptOutcome::NoText),
        Err("conversion error".to_string())
    );
    assert!(matches!(
        eval_alone(ScriptOutcome::Stopped(true, None)),
        Err(Error::Runtime(_))
    ));
    assert!(matches!(
        eval_alone(ScriptOutcome::NoSource),
        Err(Error::Convert)
    ));
    assert!(after_script(Err(Error::NavTerminated)).is_ok());
    assert!(after_script(Ok(String::new())).is_ok());
    assert!(after_script(Err(Error::Convert)).is_err());
}

#[test]
fn seeds_are_mixed() {
    let reference = |nanos: u64, counter: u64| {
        let mut x = nanos.wrapping_mul(0x9E37_79B9_7F4A_7C15) ^ counter;
        x ^= x >> 33;
        x = x.wrapping_mul(0xff51_afd7_ed55_8ccd);
        x ^= x >> 33;
        (x as u32) ^ ((x >> 32) as u32)
    };
    assert_eq!(next_stealth_seed(0, 0), 0);
    for n in [1u64, 77, 1_700_000_000_000_000_000, u64::MAX] {
        for c in 0..4 {
            assert_eq!(next_stealth_seed(n, c), reference(n, c));
        }
    }
    assert_eq!(seed_script(7), "globalThis.__bouncy_stealth_seed = 7;");
}

#[test]
fn nodes_and_waits_of_scripts() {
    assert_eq!(node_arg(Some(3)).map(|n| n.raw()), Some(3));
    assert_eq!(node_arg(Some(u32::MAX)), None);
    assert_eq!(node_arg(None), None);
    assert_eq!(wait_over(true, 9, 0), Some(true));
    assert_eq!(wait_over(false, 5, 5), Some(false));
    assert_eq!(wait_over(false, 4, 5), None);
}

// ---- the debugging protocol ----

fn req(method: &str, params: &str) -> RpcRequest {
    RpcRequest {
        id: 7,
        method: method.to_string(),
        params: parse_json(params).unwrap(),
        session_id: None,
    }
}

fn reply(a: Action) -> String {
    match a {
        Action::Reply(j) => j.to_text(),
        Action::Fail(m) => format!("error {m}"),
        Action::Evaluate(e) => format!("evaluate {e}"),
        Action::Navigate(r) => format!("navigate {} {:?}", r.url, r.headers),
    }
}

#[test]
fn requests_are_planned() {
    let p = page("<p id=a>x</p>");
    let mut s = Session::new();
    let mut ask = |m: &str, params: &str| reply(s.plan(&req(m, params), &p));
    assert_eq!(ask("Page.enable", "{}"), "{}");
    assert_eq!(ask("Nothing.known", "{}"), "{}");
    assert_eq!(ask("Input.dispatchMouseEvent", "{}"), "{}");
    assert_eq!(
        ask("Browser.getVersion", "{}"),
        r#"{"protocolVersion":"1.3","product":"bouncy/0.0.0","revision":"@","userAgent":"bouncy/0.0.0","jsVersion":"v8"}"#
    );
    assert_eq!(
        ask("Runtime.evaluate", r#"{"expression":"1+1"}"#),
        "evaluate 1+1"
    );
    assert_eq!(ask("Runtime.evaluate", "{}"), "evaluate ");
    assert_eq!(
        ask("DOM.querySelector", r##"{"selector":"#b"}"##),
        r#"{"nodeId":0}"#
    );
    assert_eq!(
        ask("DOM.querySelector", "{}"),
        "error DOM.querySelector: missing selector"
    );
    let n = p.query_selector("#a").unwrap();
    assert_eq!(
        ask("DOM.getOuterHTML", &format!("{{\"nodeId\":{n}}}")),
        r#"{"outerHTML":"<p id=\"a\">x</p>"}"#
    );
    assert_eq!(
        ask("DOM.getOuterHTML", r#"{"nodeId":99999}"#),
        "error DOM.getOuterHTML: unknown nodeId 99999"
    );
    assert_eq!(
        ask("DOM.getOuterHTML", "{}"),
        "error DOM.getOuterHTML: missing nodeId"
    );
    assert_eq!(
        ask("Network.setExtraHTTPHeaders", "{}"),
        "error Network.setExtraHTTPHeaders: missing headers"
    );
    assert_eq!(
        ask(
            "Network.setExtraHTTPHeaders",
            r#"{"headers":{"X-A":"1","X-B":2}}"#
        ),
        "{}"
    );
    assert_eq!(
        ask("Page.navigate", r#"{"url":"http://y/"}"#),
        "navigate http://y/ [(\"X-A\", \"1\")]"
    );
    assert_eq!(ask("Page.navigate", "{}"), "error Page.navigate: missing url");
}

#[test]
fn requests_that_cannot_be_planned_are_seen() {
    assert!(Session::can_plan(&req("Page.enable", "{}")));
    assert!(Session::can_plan(&req(
        "DOM.querySelector",
        r#"{"selector":"p"}"#
    )));
    assert!(Session::can_plan(&req(
        "DOM.querySelector",
        r#"{"selector":"[a=']"}"#
    )));
    assert!(!Session::can_plan(&req(
        "DOM.getOuterHTML",
        r#"{"nodeId":0}"#
    )));
}

#[test]
fn values_are_classified_by_their_text() {
    let text = |s: &str, n: Option<&str>| classify_result(s, n).to_text();
    assert_eq!(
        text("null", None),
        r#"{"type":"object","subtype":"null","value":null}"#
    );
    assert_eq!(text("undefined", None), r#"{"type":"undefined"}"#);
    assert_eq!(text("true", None), r#"{"type":"boolean","value":true}"#);
    assert_eq!(text("false", None), r#"{"type":"boolean","value":false}"#);
    assert_eq!(
        text("3", Some("3.0")),
        r#"{"type":"number","value":3.0}"#
    );
    assert_eq!(text("x", None), r#"{"type":"string","value":"x"}"#);
}

#[test]
fn results_are_wrapped() {
    assert_eq!(
        evaluation_result(Ok("x"), None).to_text(),
        r#"{"result":{"type":"string","value":"x"}}"#
    );
    assert_eq!(
        evaluation_result(Err("boom"), None).to_text(),
        r#"{"result":{"type":"undefined"},"exceptionDetails":{"exceptionId":1,"text":"boom"}}"#
    );
    assert_eq!(
        navigation_result(None).to_text(),
        r#"{"frameId":"frame-1","loaderId":"loader-1"}"#
    );
    assert_eq!(
        navigation_result(Some("e")).to_text(),
        r#"{"frameId":"frame-1","loaderId":"loader-1","errorText":"e"}"#
    );
}

#[test]
fn answers_carry_id_and_session() {
    let r = req("a", "{}");
    assert_eq!(
        answer(&r, Ok(Json::Bool(true))).to_text(),
        r#"{"id":7,"result":true}"#
    );
    let r = RpcRequest {
        id: -3,
        session_id: Some("s".to_string()),
        ..r
    };
    assert_eq!(
        answer(&r, Err("no".to_string())).to_text(),
        r#"{"id":-3,"error":{"code":-32000,"message":"no"},"sessionId":"s"}"#
    );
}

// ---- JSON ----

#[test]
fn json_is_read_and_written() {
    let text = r#"{"a":[1,-2,3.5,true,false,null,"x\"\\\n\u0001"],"b":{}}"#;
    let j = parse_json(text).unwrap();
    assert_eq!(j.to_text(), text);
    assert_eq!(j.copy().to_text(), text);
    let a = j.get("a").unwrap().as_array().unwrap();
    assert_eq!(a[0].as_u64(), Some(1));
    assert_eq!(a[1].as_u64(), None);
    assert!(matches!(a[1], Json::Negative(-2)));
    assert_eq!(a[3].as_bool(), Some(true));
    assert_eq!(a[6].as_str(), Some("x\"\\\n\u{1}"));
    assert!(j.get("b").unwrap().as_object().unwrap().is_empty());
    assert!(j.get("c").is_none());
    assert!(parse_json("{").is_none());
    assert_eq!(parse_bytes(b"[1]").unwrap().to_text(), "[1]");
    assert!(parse_bytes(b"[").is_err());
    assert_eq!(
        parse_json("-9223372036854775808").unwrap().to_text(),
        "-9223372036854775808"
    );
    assert_eq!(
        parse_json(r#"{"a":[],"b":{},"c":[1]}"#).unwrap().to_pretty(),
        "{\n  \"a\": [],\n  \"b\": {},\n  \"c\": [\n    1\n  ]\n}"
    );
}
