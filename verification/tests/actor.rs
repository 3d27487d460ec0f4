use bouncy::session::actor::{Actor, Stage, Work};
use bouncy::session::chain::Primitive;
use bouncy::session::{
    click_nth_script, click_script, form_script, BrowseError, ChainStepOutput, FormIntel, ReadMode,
    Target,
};

fn at(url: &str) -> Actor {
    let mut a = Actor::new(2048);
    visit(&mut a, url);
    a
}

fn visit(a: &mut Actor, url: &str) {
    match a.begin(Primitive::Goto(url.to_string())) {
        Work::Load(req) => {
            assert_eq!(req.url, url);
            assert_eq!(req.method, "GET");
        }
        _ => panic!("a page is loaded first"),
    }
    assert!(matches!(a.loaded(Ok(())), Work::Pending));
    assert!(matches!(a.pending(None), Work::Html));
    let out = a.page(Ok("<h1>x</h1>".to_string()), 0);
    assert!(matches!(out, Work::Done(Ok(ChainStepOutput::Snapshot(_)))));
}

fn loads(w: Work) -> String {
    match w {
        Work::Load(req) => req.url,
        _ => panic!("a page is loaded"),
    }
}

fn script(w: Work) -> String {
    match w {
        Work::Eval(s) => s,
        _ => panic!("a script is run"),
    }
}

fn described(w: Work) -> String {
    match w {
        Work::Form(s) => s,
        _ => panic!("a form is read"),
    }
}

fn form_of(action: Option<&str>, method: &str, fields: &[(&str, &str)]) -> FormIntel {
    FormIntel {
        action: action.map(str::to_string),
        method: method.to_string(),
        fields: fields.iter().map(|(n, v)| (n.to_string(), v.to_string())).collect(),
    }
}

fn failure(w: Work) -> BrowseError {
    match w {
        Work::Done(Err(e)) => e,
        _ => panic!("the step fails"),
    }
}

#[test]
fn goto_ends_in_a_snapshot_of_the_page() {
    let mut a = at("http://a/");
    assert_eq!(a.history.current_url, "http://a/");
    assert!(matches!(a.begin(Primitive::Snapshot), Work::Html));
    match a.page(Ok("<title>T</title>".to_string()), 0) {
        Work::Done(Ok(ChainStepOutput::Snapshot(s))) => {
            assert_eq!(s.title, "T");
            assert_eq!(s.url, "http://a/");
        }
        _ => panic!("a snapshot is given"),
    }
    assert!(matches!(a.stage, Stage::Idle));
}

#[test]
fn goto_follows_the_scripts_and_records_where_it_was() {
    let mut a = at("http://a/");
    assert_eq!(loads(a.begin(Primitive::Goto("http://b/".to_string()))), "http://b/");
    assert!(matches!(a.loaded(Ok(())), Work::Pending));
    assert_eq!(loads(a.pending(Some("http://c/".to_string()))), "http://c/");
    assert!(matches!(a.loaded(Ok(())), Work::Pending));
    assert!(matches!(a.pending(None), Work::Html));
    assert_eq!(a.history.current_url, "http://c/");
    assert_eq!(a.history.back_stack, vec!["http://a/".to_string()]);
}

#[test]
fn goto_gives_up_after_too_many_pages() {
    let mut a = Actor::new(2048);
    let mut w = a.begin(Primitive::Goto("http://a/0".to_string()));
    for i in 1..=11 {
        loads(w);
        assert!(matches!(a.loaded(Ok(())), Work::Pending));
        w = a.pending(Some(format!("http://a/{i}")));
    }
    match failure(w) {
        BrowseError::Io(m) => {
            assert_eq!(m, "exceeded MAX_NAV_HOPS (10) following location.href chain")
        }
        e => panic!("{e:?}"),
    }
}

#[test]
fn failed_load_leaves_the_session_where_it_is() {
    let mut a = at("http://a/");
    loads(a.begin(Primitive::Goto("http://b/".to_string())));
    let e = failure(a.loaded(Err(BrowseError::NotUtf8)));
    assert!(matches!(e, BrowseError::NotUtf8));
    assert_eq!(a.history.current_url, "http://a/");
    assert!(matches!(a.stage, Stage::Idle));
}

#[test]
fn back_and_forward_load_the_pages_of_the_history() {
    let mut a = at("http://a/");
    visit(&mut a, "http://b/");
    assert_eq!(loads(a.begin(Primitive::Back)), "http://a/");
    assert!(matches!(a.loaded(Ok(())), Work::Pending));
    assert!(matches!(a.pending(None), Work::Html));
    assert_eq!(a.history.current_url, "http://a/");
    assert_eq!(a.history.forward_stack, vec!["http://b/".to_string()]);
    a.page(Ok(String::new()), 0);
    assert_eq!(loads(a.begin(Primitive::Forward)), "http://b/");
    assert!(matches!(a.loaded(Ok(())), Work::Pending));
    assert!(matches!(a.pending(None), Work::Html));
    assert_eq!(a.history.back_stack, vec!["http://a/".to_string()]);
    assert!(a.history.forward_stack.is_empty());
}

#[test]
fn back_without_a_history_fails() {
    let mut a = at("http://a/");
    match failure(a.begin(Primitive::Back)) {
        BrowseError::Io(m) => assert_eq!(m, "history empty"),
        e => panic!("{e:?}"),
    }
    match failure(a.begin(Primitive::Forward)) {
        BrowseError::Io(m) => assert_eq!(m, "forward stack empty"),
        e => panic!("{e:?}"),
    }
}

#[test]
fn click_runs_its_script_and_follows_the_page() {
    let mut a = at("http://a/");
    let target = Target::Selector("#go".to_string());
    assert_eq!(script(a.begin(Primitive::Click(target))), click_script("#go"));
    assert!(matches!(a.evaluated(Ok("\"ok\"".to_string())), Work::Pending));
    assert_eq!(loads(a.pending(Some("http://b/".to_string()))), "http://b/");
    assert!(matches!(a.loaded(Ok(())), Work::Pending));
    assert!(matches!(a.pending(None), Work::Html));
    assert_eq!(a.history.current_url, "http://b/");
    assert_eq!(a.history.back_stack, vec!["http://a/".to_string()]);
}

#[test]
fn click_on_nothing_is_no_match() {
    let mut a = at("http://a/");
    script(a.begin(Primitive::Click(Target::Selector("#go".to_string()))));
    match failure(a.evaluated(Err("Error: no match".to_string()))) {
        BrowseError::NoMatch(s) => assert_eq!(s, "#go"),
        e => panic!("{e:?}"),
    }
    script(a.begin(Primitive::Click(Target::Selector("#go".to_string()))));
    match failure(a.evaluated(Err("boom".to_string()))) {
        BrowseError::Js(s) => assert_eq!(s, "boom"),
        e => panic!("{e:?}"),
    }
}

#[test]
fn clicks_that_lead_on_forever_are_given_up() {
    let mut a = at("http://a/");
    script(a.begin(Primitive::Click(Target::Selector("#go".to_string()))));
    let mut w = a.evaluated(Ok(String::new()));
    for i in 0..11 {
        assert!(matches!(w, Work::Pending));
        loads(a.pending(Some(format!("http://a/{i}"))));
        w = a.loaded(Ok(()));
    }
    match failure(w) {
        BrowseError::Io(m) => {
            assert_eq!(m, "exceeded MAX_NAV_HOPS (10) draining post-action navigations")
        }
        e => panic!("{e:?}"),
    }
    assert_eq!(a.history.current_url, "http://a/10");
}

#[test]
fn index_is_looked_up_on_the_page() {
    let page = "<a href=/x id=one>One</a><button id=two>Two</button>";
    let mut a = at("http://a/");
    assert!(matches!(a.begin(Primitive::Click(Target::Index(1))), Work::Html));
    assert_eq!(script(a.page(Ok(page.to_string()), 0)), click_script("#two"));
    assert!(matches!(a.evaluated(Ok(String::new())), Work::Pending));
    assert!(matches!(a.pending(None), Work::Html));
    a.page(Ok(page.to_string()), 0);
    assert!(matches!(a.begin(Primitive::Click(Target::Index(9))), Work::Html));
    match failure(a.page(Ok(page.to_string()), 0)) {
        BrowseError::NoMatch(s) => assert_eq!(s, "@9"),
        e => panic!("{e:?}"),
    }
}

#[test]
fn eval_gives_its_result_with_the_page() {
    let mut a = at("http://a/");
    assert_eq!(script(a.begin(Primitive::Eval("1+1".to_string()))), "1+1");
    assert!(matches!(a.evaluated(Ok("2".to_string())), Work::Pending));
    assert!(matches!(a.pending(None), Work::Html));
    match a.page(Ok("<title>T</title>".to_string()), 0) {
        Work::Done(Ok(ChainStepOutput::Eval { result, snapshot })) => {
            assert_eq!(result, "2");
            assert_eq!(snapshot.title, "T");
        }
        _ => panic!("a result is given"),
    }
}

#[test]
fn read_gives_the_texts() {
    let mut a = at("http://a/");
    let target = Target::Selector("li".to_string());
    assert!(matches!(a.begin(Primitive::Read(target, ReadMode::Text)), Work::Html));
    match a.page(Ok("<li>a</li><li>b</li>".to_string()), 0) {
        Work::Done(Ok(ChainStepOutput::Reads(v))) => {
            assert_eq!(v, vec!["a".to_string(), "b".to_string()])
        }
        _ => panic!("texts are given"),
    }
}

#[test]
fn page_that_cannot_be_had_is_an_engine_error() {
    let mut a = at("http://a/");
    assert!(matches!(a.begin(Primitive::Snapshot), Work::Html));
    match failure(a.page(Err("gone".to_string()), 0)) {
        BrowseError::Js(m) => assert_eq!(m, "gone"),
        e => panic!("{e:?}"),
    }
}

#[test]
fn get_form_is_a_visit() {
    let mut a = at("http://a/p");
    let target = Target::Selector("form".to_string());
    assert_eq!(script(a.begin(Primitive::Submit(target))), form_script("form"));
    assert_eq!(described(a.evaluated(Ok("\"{}\"".to_string()))), "{}");
    let form = form_of(Some("/s"), "GET", &[("q", "x y")]);
    assert_eq!(loads(a.described(Ok(form))), "http://a/s?q=x+y");
    assert!(matches!(a.loaded(Ok(())), Work::Pending));
    assert!(matches!(a.pending(None), Work::Html));
    assert_eq!(a.history.back_stack, vec!["http://a/p".to_string()]);
}

#[test]
fn post_form_is_posted() {
    let mut a = at("http://a/p");
    script(a.begin(Primitive::Submit(Target::Selector("form".to_string()))));
    assert_eq!(described(a.evaluated(Ok("{}".to_string()))), "{}");
    match a.described(Ok(form_of(Some("/s"), "POST", &[("q", "x y")]))) {
        Work::Load(req) => {
            assert_eq!(req.url, "http://a/s");
            assert_eq!(req.method, "POST");
            assert_eq!(req.body, b"q=x+y".to_vec());
        }
        _ => panic!("the form is sent"),
    }
    assert!(matches!(a.loaded(Ok(())), Work::Pending));
    assert_eq!(a.history.current_url, "http://a/s");
    assert!(matches!(a.pending(None), Work::Html));
    assert_eq!(a.history.back_stack, vec!["http://a/p".to_string()]);
}

#[test]
fn back_leads_from_where_a_click_led() {
    let mut a = at("http://a/");
    visit(&mut a, "http://b/");
    visit(&mut a, "http://c/");
    assert_eq!(loads(a.begin(Primitive::Back)), "http://b/");
    a.loaded(Ok(()));
    a.pending(None);
    a.page(Ok(String::new()), 0);
    script(a.begin(Primitive::Click(Target::Selector("a".to_string()))));
    a.evaluated(Ok(String::new()));
    assert_eq!(loads(a.pending(Some("http://d/".to_string()))), "http://d/");
    a.loaded(Ok(()));
    a.pending(None);
    a.page(Ok(String::new()), 0);
    assert!(a.history.forward_stack.is_empty());
    assert_eq!(loads(a.begin(Primitive::Back)), "http://b/");
}

#[test]
fn script_without_a_new_page_leaves_the_history() {
    let mut a = at("http://a/");
    visit(&mut a, "http://b/");
    a.begin(Primitive::Eval("1".to_string()));
    a.evaluated(Ok("1".to_string()));
    assert!(matches!(a.pending(None), Work::Html));
    assert_eq!(a.history.current_url, "http://b/");
    assert_eq!(a.history.back_stack, vec!["http://a/".to_string()]);
}

#[test]
fn form_that_cannot_be_read_is_an_error() {
    let mut a = at("http://a/p");
    script(a.begin(Primitive::Submit(Target::Selector("form".to_string()))));
    assert_eq!(described(a.evaluated(Ok("\"[]\"".to_string()))), "[]");
    match failure(a.described(Err("why".to_string()))) {
        BrowseError::Io(m) => {
            assert_eq!(m, "parsing form intel JSON failed: why (raw: \"[]\")")
        }
        e => panic!("{e:?}"),
    }
    assert_eq!(a.history.current_url, "http://a/p");
}

#[test]
fn forward_undoes_back_from_page_to_page() {
    let mut a = at("http://a/");
    visit(&mut a, "http://b/");
    assert_eq!(loads(a.begin(Primitive::Back)), "http://a/");
    a.loaded(Ok(()));
    a.pending(None);
    a.page(Ok(String::new()), 0);
    assert_eq!(loads(a.begin(Primitive::Forward)), "http://b/");
    a.loaded(Ok(()));
    a.pending(None);
    match a.page(Ok(String::new()), 0) {
        Work::Done(Ok(ChainStepOutput::Snapshot(s))) => assert_eq!(s.url, "http://b/"),
        _ => panic!("a snapshot is given"),
    }
    assert_eq!(a.history.current_url, "http://b/");
    assert_eq!(a.history.back_stack, vec!["http://a/".to_string()]);
    assert!(a.history.forward_stack.is_empty());
    match failure(a.begin(Primitive::Forward)) {
        BrowseError::Io(m) => assert_eq!(m, "forward stack empty"),
        e => panic!("{e:?}"),
    }
}

#[test]
fn form_without_an_action_is_left_to_the_page() {
    let mut a = at("http://a/p");
    script(a.begin(Primitive::Submit(Target::Selector("form".to_string()))));
    described(a.evaluated(Ok("{}".to_string())));
    let s = script(a.described(Ok(form_of(None, "GET", &[]))));
    assert!(s.contains("new Event('submit'"));
    assert!(matches!(a.evaluated(Ok(String::new())), Work::Pending));
    assert!(matches!(a.pending(None), Work::Html));
}

#[test]
fn wait_looks_sleeps_and_gives_up() {
    let mut a = at("http://a/");
    let step = Primitive::WaitFor("#x".to_string(), 100);
    assert!(matches!(a.begin(step), Work::Html));
    assert!(matches!(a.page(Ok("<p>".to_string()), 10), Work::Sleep(50)));
    assert!(matches!(a.slept(), Work::Html));
    match failure(a.page(Ok("<p>".to_string()), 100)) {
        BrowseError::NoMatch(m) => assert_eq!(m, "\"#x\" (waited 100ms)"),
        e => panic!("{e:?}"),
    }
    let step = Primitive::WaitForText("ready".to_string(), 100);
    assert!(matches!(a.begin(step), Work::Html));
    assert!(matches!(a.page(Ok("<p>Ready".to_string()), 0), Work::Html));
    assert!(matches!(a.stage, Stage::Showing(None)));
}

#[test]
fn pause_ends_in_a_snapshot() {
    let mut a = at("http://a/");
    assert!(matches!(a.begin(Primitive::Wait(7)), Work::Sleep(7)));
    assert!(matches!(a.slept(), Work::Html));
    let out = a.page(Ok(String::new()), 0);
    assert!(matches!(out, Work::Done(Ok(ChainStepOutput::Snapshot(_)))));
}

#[test]
fn click_text_clicks_the_element_with_the_text() {
    let mut a = at("http://a/");
    assert!(matches!(a.begin(Primitive::ClickText("two".to_string())), Work::Html));
    let page = "<a href=/x id=one>One</a><button id=two>Two</button>";
    let two = click_nth_script("#two", 0);
    assert_eq!(script(a.page(Ok(page.to_string()), 0)), two);
    a.evaluated(Ok(String::new()));
    a.pending(None);
    a.page(Ok(String::new()), 0);
    a.begin(Primitive::ClickText("three".to_string()));
    assert!(matches!(failure(a.page(Ok(page.to_string()), 0)), BrowseError::NoMatch(_)));
}

#[test]
fn click_text_tells_plain_links_apart() {
    let mut a = at("http://a/");
    a.begin(Primitive::ClickText("Two".to_string()));
    let page = "<a href=\"/1\">One</a><a href=\"/2\">Two</a>";
    assert_eq!(
        script(a.page(Ok(page.to_string()), 0)),
        "(function(){ var e = document.querySelectorAll(\"a\")[1]; \
         if (!e) throw new Error('no match'); e.click(); return 'ok'; })()"
    );
}
