use bouncy::select::{select_attr, select_text};

const SAMPLE: &str = r#"
        <html><body>
            <h1 id="main">Hello</h1>
            <h1 class="sub">World</h1>
            <a href="https://a.example">Link A</a>
            <a>No href</a>
            <a href="https://b.example">Link B</a>
        </body></html>
    "#;

#[test]
fn select_text_returns_text_of_each_match_in_doc_order() {
    let out = select_text(SAMPLE, "h1").unwrap();
    assert_eq!(out, vec!["Hello", "World"]);
}

#[test]
fn select_text_class_selector() {
    let out = select_text(SAMPLE, ".sub").unwrap();
    assert_eq!(out, vec!["World"]);
}

#[test]
fn select_text_id_selector() {
    let out = select_text(SAMPLE, "#main").unwrap();
    assert_eq!(out, vec!["Hello"]);
}

#[test]
fn select_text_no_match_returns_empty() {
    let out = select_text(SAMPLE, "h2").unwrap();
    assert!(out.is_empty());
}

#[test]
fn select_text_empty_html_returns_empty() {
    let out = select_text("", "h1").unwrap();
    assert!(out.is_empty());
}

#[test]
fn select_text_malformed_html_recovers() {
    let out = select_text("<h1>Hi", "h1").unwrap();
    assert_eq!(out, vec!["Hi"]);
}

#[test]
fn select_attr_returns_attribute_values_skipping_absent() {
    let out = select_attr(SAMPLE, "a", "href").unwrap();
    assert_eq!(out, vec!["https://a.example", "https://b.example"]);
}

#[test]
fn select_attr_no_match_returns_empty() {
    let out = select_attr(SAMPLE, "img", "src").unwrap();
    assert!(out.is_empty());
}

#[test]
fn select_attr_missing_attribute_on_all_matches_returns_empty() {
    let out = select_attr(SAMPLE, "h1", "href").unwrap();
    assert!(out.is_empty());
}

#[test]
fn select_text_nested_text_is_concatenated() {
    let html = r#"<div class="card"><span>Hello </span><strong>world</strong></div>"#;
    let out = select_text(html, ".card").unwrap();
    assert_eq!(out, vec!["Hello world"]);
}

#[test]
fn selectors_with_attributes_match_quoted_and_plain_values() {
    let html = r#"<p lang="en">a</p><p lang="de">b</p><p>c</p>"#;
    assert_eq!(select_text(html, "[lang]").unwrap(), vec!["a", "b"]);
    assert_eq!(select_text(html, "[lang=de]").unwrap(), vec!["b"]);
    assert_eq!(select_text(html, "[lang=\"en\"]").unwrap(), vec!["a"]);
    assert_eq!(select_text(html, "[lang='en']").unwrap(), vec!["a"]);
}

#[test]
fn text_of_scripts_is_not_selected() {
    let html = "<div>a<script>b</script>c</div>";
    assert_eq!(select_text(html, "div").unwrap(), vec!["ac"]);
}

#[test]
fn selectors_that_cannot_be_read_match_nothing() {
    assert!(select_text("<p>x</p>", "p > a").unwrap().is_empty());
    assert!(select_text("<p>x</p>", "").unwrap().is_empty());
}

#[test]
fn lone_quotes_select_nothing() {
    assert_eq!(select_text("<p>x</p>", "[a=\"]").unwrap(), Vec::<String>::new());
    assert!(select_attr("<p a='\"'>x</p>", "[a=\"]", "a").unwrap().is_empty());
}
