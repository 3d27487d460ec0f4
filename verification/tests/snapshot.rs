use bouncy::dom::Document;
use bouncy::snapshot::{
    collapse_whitespace, truncate_with_marker, unique_selector, PageSnapshot,
    SnapshotOpts, TRUNCATION_MARKER,
};

fn parse(html: &str) -> Document {
    Document::parse(html).expect("parse fixture")
}

#[test]
fn truncate_returns_input_unchanged_when_under_cap() {
    assert_eq!(truncate_with_marker("hello", 100), "hello");
}

#[test]
fn truncate_appends_marker_when_over_cap() {
    let s = "abcdefghijklmnopqrstuvwxyz";
    let out = truncate_with_marker(s, 10);
    assert!(out.ends_with(TRUNCATION_MARKER), "got: {out}");
    assert!(out.len() <= 10);
}

#[test]
fn truncate_respects_utf8_boundaries() {
    let s = "naïve naïve naïve";
    for cap in 1..=s.len() {
        let out = truncate_with_marker(s, cap);
        assert!(out.is_char_boundary(out.len()), "cap={cap}, out={out}");
    }
}

#[test]
fn truncate_collapses_whitespace_runs() {
    let s = "  hello   \n\n  world  ";
    assert_eq!(truncate_with_marker(s, 100), "hello world");
}

#[test]
fn unique_selector_uses_id_when_unique() {
    let doc = parse(r#"<html><body><div id="main">x</div><div>y</div></body></html>"#);
    let main = doc.query_selector("#main").unwrap();
    assert_eq!(unique_selector(&doc, main), "#main");
}

#[test]
fn unique_selector_uses_bare_tag_when_only_one_on_page() {
    let doc = parse(r#"<html><body><input name="email" type="email"></body></html>"#);
    let inp = doc.query_selector("input").unwrap();
    assert_eq!(unique_selector(&doc, inp), "input");
}

#[test]
fn unique_selector_uses_name_when_tag_is_ambiguous() {
    let doc = parse(
        r#"<html><body>
                 <input name="user" type="text">
                 <input name="email" type="email">
               </body></html>"#,
    );
    let inputs = doc.query_selector_all("input");
    assert_eq!(unique_selector(&doc, inputs[1]), "[name=email]");
}

#[test]
fn unique_selector_uses_data_testid_when_id_and_name_absent() {
    let doc = parse(
        r#"<html><body>
                 <button>Plain</button>
                 <button data-testid="go">Go</button>
               </body></html>"#,
    );
    let btns = doc.query_selector_all("button");
    assert_eq!(unique_selector(&doc, btns[1]), "[data-testid=go]");
}

#[test]
fn unique_selector_uses_class_when_no_id_name_or_testid_helps() {
    let doc = parse(
        r#"<html><body>
                 <div>a</div>
                 <div class="hero special">b</div>
               </body></html>"#,
    );
    let divs = doc.query_selector_all("div");
    let sel = unique_selector(&doc, divs[1]);
    assert!(sel == ".hero" || sel == ".special", "got: {sel}");
}

#[test]
fn unique_selector_falls_back_to_bare_tag_when_nothing_disambiguates() {
    let doc = parse(
        r#"<html><body>
                 <ul><li>a</li><li>b</li><li>c</li></ul>
               </body></html>"#,
    );
    let ul = doc.query_selector("ul").unwrap();
    let lis = doc.query_selector_all_within(ul, "li");
    assert_eq!(unique_selector(&doc, lis[1]), "li");
}

#[test]
fn unique_selector_handles_id_collisions_by_falling_through() {
    let doc = parse(
        r#"<html><body>
                 <span id="x" name="first">a</span>
                 <span id="x" name="second">b</span>
               </body></html>"#,
    );
    let spans = doc.query_selector_all("span");
    let sel = unique_selector(&doc, spans[1]);
    assert_eq!(sel, "[name=second]");
}

#[test]
fn snapshot_captures_title_and_url() {
    let doc = parse(r#"<html><head><title>Demo</title></head><body></body></html>"#);
    let snap = PageSnapshot::from_document(&doc, "https://x.test/", SnapshotOpts::default());
    assert_eq!(snap.title, "Demo");
    assert_eq!(snap.url, "https://x.test/");
}

#[test]
fn snapshot_collects_headings_in_document_order_with_levels() {
    let doc = parse(
        r#"<html><body>
                <h1>Top</h1><h2>Sub A</h2><h3>Deep</h3><h2>Sub B</h2>
            </body></html>"#,
    );
    let snap = PageSnapshot::from_document(&doc, "https://x.test/", SnapshotOpts::default());
    let levels: Vec<u8> = snap.headings.iter().map(|h| h.level).collect();
    let texts: Vec<&str> = snap.headings.iter().map(|h| h.text.as_str()).collect();
    assert_eq!(levels.iter().filter(|&&l| l == 1).count(), 1);
    assert_eq!(levels.iter().filter(|&&l| l == 2).count(), 2);
    assert_eq!(levels.iter().filter(|&&l| l == 3).count(), 1);
    assert!(texts.contains(&"Top"));
    assert!(texts.contains(&"Sub A"));
    assert!(texts.contains(&"Sub B"));
    assert!(texts.contains(&"Deep"));
}

#[test]
fn snapshot_resolves_relative_links_against_page_url() {
    let doc = parse(
        r#"<html><body>
                <a href="/signup">Sign up</a>
                <a href="https://other.test/x">External</a>
                <a>plain</a>
            </body></html>"#,
    );
    let snap = PageSnapshot::from_document(&doc, "https://x.test/foo", SnapshotOpts::default());
    assert_eq!(snap.links.len(), 2);
    let signup = snap.links.iter().find(|l| l.text == "Sign up").unwrap();
    assert_eq!(signup.href, "https://x.test/signup");
    let ext = snap.links.iter().find(|l| l.text == "External").unwrap();
    assert_eq!(ext.href, "https://other.test/x");
}

#[test]
fn snapshot_extracts_form_with_method_action_and_fields() {
    let doc = parse(
        r#"<html><body>
                <form id="login" action="/auth" method="post">
                  <label for="u">Username</label>
                  <input id="u" name="u" type="text" required>
                  <input name="p" type="password" placeholder="password">
                  <button type="submit">Sign in</button>
                </form>
            </body></html>"#,
    );
    let snap = PageSnapshot::from_document(&doc, "https://x.test/", SnapshotOpts::default());
    assert_eq!(snap.forms.len(), 1);
    let form = &snap.forms[0];
    assert_eq!(form.selector, "#login");
    assert_eq!(form.action.as_deref(), Some("/auth"));
    assert_eq!(form.method, "POST");
    assert_eq!(form.fields.len(), 2);

    let u = &form.fields[0];
    assert_eq!(u.name.as_deref(), Some("u"));
    assert_eq!(u.kind, "text");
    assert_eq!(u.label.as_deref(), Some("Username"));
    assert!(u.required);

    let p = &form.fields[1];
    assert_eq!(p.kind, "password");
    assert_eq!(p.placeholder.as_deref(), Some("password"));
    assert!(!p.required);
}

#[test]
fn snapshot_treats_textarea_and_select_as_fields() {
    let doc = parse(
        r#"<html><body>
              <form action="/m">
                <textarea name="msg"></textarea>
                <select name="topic"><option>a</option><option>b</option></select>
              </form>
            </body></html>"#,
    );
    let snap = PageSnapshot::from_document(&doc, "https://x.test/", SnapshotOpts::default());
    let form = &snap.forms[0];
    let kinds: Vec<&str> = form.fields.iter().map(|f| f.kind.as_str()).collect();
    assert!(kinds.contains(&"textarea"));
    assert!(kinds.contains(&"select"));
}

#[test]
fn snapshot_separates_stray_inputs_from_form_fields() {
    let doc = parse(
        r#"<html><body>
              <form action="/x"><input name="a"></form>
              <input name="loose">
            </body></html>"#,
    );
    let snap = PageSnapshot::from_document(&doc, "https://x.test/", SnapshotOpts::default());
    assert_eq!(snap.forms[0].fields.len(), 1);
    assert_eq!(snap.forms[0].fields[0].name.as_deref(), Some("a"));
    assert_eq!(snap.inputs.len(), 1);
    assert_eq!(snap.inputs[0].name.as_deref(), Some("loose"));
}

#[test]
fn snapshot_buttons_default_to_submit_kind() {
    let doc = parse(
        r#"<html><body>
              <button>Default</button>
              <button type="button">Plain</button>
            </body></html>"#,
    );
    let snap = PageSnapshot::from_document(&doc, "https://x.test/", SnapshotOpts::default());
    assert_eq!(snap.buttons.len(), 2);
    let default = snap.buttons.iter().find(|b| b.text == "Default").unwrap();
    let plain = snap.buttons.iter().find(|b| b.text == "Plain").unwrap();
    assert_eq!(default.kind, "submit");
    assert_eq!(plain.kind, "button");
}

#[test]
fn snapshot_collects_meta_by_property_or_name() {
    let doc = parse(
        r#"<html><head>
                 <meta property="og:title" content="Hello">
                 <meta name="description" content="A page">
                 <meta name="twitter:card" content="summary">
                 <meta property="">
               </head><body></body></html>"#,
    );
    let snap = PageSnapshot::from_document(&doc, "https://x.test/", SnapshotOpts::default());
    assert_eq!(snap.meta.get("og:title").map(|s| s.as_str()), Some("Hello"));
    assert_eq!(
        snap.meta.get("description").map(|s| s.as_str()),
        Some("A page")
    );
    assert_eq!(
        snap.meta.get("twitter:card").map(|s| s.as_str()),
        Some("summary")
    );
}

#[test]
fn snapshot_text_summary_truncates_at_cap() {
    let doc = parse("<html><body>aaaaaaaaaaaaaaaaaaaaaaaaaaaaaa</body></html>");
    let snap = PageSnapshot::from_document(
        &doc,
        "https://x.test/",
        SnapshotOpts {
            max_text_summary_bytes: 10,
        },
    );
    assert!(
        snap.text_summary.ends_with(TRUNCATION_MARKER),
        "got: {}",
        snap.text_summary
    );
    assert!(snap.text_summary.len() <= 10);
}

#[test]
fn snapshot_empty_document_produces_empty_collections() {
    let doc = parse("<html><body></body></html>");
    let snap = PageSnapshot::from_document(&doc, "https://x.test/", SnapshotOpts::default());
    assert_eq!(snap.title, "");
    assert!(snap.forms.is_empty());
    assert!(snap.links.is_empty());
    assert!(snap.buttons.is_empty());
    assert!(snap.inputs.is_empty());
    assert!(snap.headings.is_empty());
    assert!(snap.meta.is_empty());
    assert_eq!(snap.text_summary, "");
}

#[test]
fn snapshot_label_associated_via_for_attribute() {
    let doc = parse(
        r#"<html><body>
                <label for="email">Email address</label>
                <form action="/x"><input id="email" name="email" type="email"></form>
            </body></html>"#,
    );
    let snap = PageSnapshot::from_document(&doc, "https://x.test/", SnapshotOpts::default());
    let field = &snap.forms[0].fields[0];
    assert_eq!(field.label.as_deref(), Some("Email address"));
}

#[test]
fn snapshot_label_associated_via_ancestor_label() {
    let doc = parse(
        r#"<html><body>
                <form action="/x">
                  <label>Subscribe? <input name="sub" type="checkbox"></label>
                </form>
            </body></html>"#,
    );
    let snap = PageSnapshot::from_document(&doc, "https://x.test/", SnapshotOpts::default());
    let field = &snap.forms[0].fields[0];
    assert!(
        field
            .label
            .as_deref()
            .is_some_and(|l| l.contains("Subscribe")),
        "got: {:?}",
        field.label
    );
}

#[test]
fn interactive_elements_are_found_by_their_index() {
    let doc = parse(
        r#"<form id="f"><input id="q" name="q"></form><input id="stray">
           <a id="l" href="/x">More</a><button id="b">Go</button>"#,
    );
    let snap = PageSnapshot::from_document(&doc, "https://x.test/", SnapshotOpts::default());
    let selectors: Vec<&str> = snap
        .interactive
        .iter()
        .map(|e| e.selector.as_str())
        .collect();
    assert_eq!(selectors, vec!["#f", "#q", "#stray", "#l", "#b"]);
    for (i, e) in snap.interactive.iter().enumerate() {
        assert_eq!(e.index, i);
        assert_eq!(
            snap.selector_for_index(i as u32).as_deref(),
            Some(e.selector.as_str())
        );
    }
    assert_eq!(snap.selector_for_index(5), None);
}

#[test]
fn shortened_texts_fit_and_start_like_the_text() {
    let s = "αβγδεζηθικλμνξοπρστυφχψω";
    for cap in 6..s.len() {
        let out = truncate_with_marker(s, cap);
        assert!(out.len() <= cap, "cap={cap}");
        let kept = out.strip_suffix(TRUNCATION_MARKER).unwrap();
        assert!(s.starts_with(kept));
    }
    assert_eq!(truncate_with_marker(s, s.len()), s);
}

#[test]
fn whitespace_runs_become_single_spaces() {
    assert_eq!(collapse_whitespace(" a\t\n b  c "), "a b c");
    assert_eq!(collapse_whitespace(" \n "), "");
}

#[test]
fn a_second_collapse_changes_nothing() {
    for s in [" a\t\n b  c ", "", " \u{a0}x\u{2003}\n", "plain", " \n "] {
        let once = collapse_whitespace(s);
        assert_eq!(once, s.split_whitespace().collect::<Vec<_>>().join(" "));
        assert_eq!(collapse_whitespace(&once), once);
    }
}

#[test]
fn pages_with_lone_quotes_in_names_have_snapshots() {
    let snap = PageSnapshot::from_document(
        &parse("<input name='&quot;'><input name=b>"),
        "http://x.test/",
        SnapshotOpts::default(),
    );
    assert_eq!(snap.inputs.len(), 2);
}

#[test]
fn selectors_find_their_elements() {
    let doc = parse(
        "<form id=f><input name=a><input name=b data-testid=t><p role=r>x</p><p class='c d'>y</p>\
         <p>z</p><p>w</p></form>",
    );
    for (tag, n) in [("form", 1), ("input", 2), ("p", 4)] {
        let all = doc.query_selector_all(tag);
        assert_eq!(all.len(), n);
        for id in all {
            let sel = unique_selector(&doc, id);
            let found = doc.query_selector_all(&sel);
            assert!(found.iter().any(|f| f.raw() == id.raw()), "{sel}");
            if found.len() == 1 {
                assert_eq!(found[0].raw(), id.raw());
            }
        }
    }
    let quoted = parse("<input name=\"'a'\"><input name=a>");
    let first = quoted.query_selector("input").unwrap();
    let sel = unique_selector(&quoted, first);
    assert_eq!(sel, "[name='a']");
    assert_ne!(quoted.query_selector(&sel).unwrap().raw(), first.raw());
}
