use bouncy::extract::{
    extract_links, extract_text, extract_title, links_from, text_from, title_from, Error, ScanEvent,
};

const STATIC_FIXTURE: &str = r#"
<!doctype html>
<html lang="en">
<head>
  <title>Demo Page</title>
  <style>.x { color: red; }</style>
  <script>console.log('hi');</script>
</head>
<body>
  <header><h1>Hello</h1></header>
  <nav>
    <a href="/about">About</a>
    <a href="https://example.com/help">Help</a>
    <a href="page.html"><span>Span text</span></a>
  </nav>
  <article>
    <p>First paragraph.</p>
    <p>Second <strong>paragraph</strong>.</p>
    <noscript>You need JS.</noscript>
  </article>
  <footer>End.</footer>
</body>
</html>
"#;

#[test]
fn title_returns_title_text() {
    let t = extract_title(STATIC_FIXTURE.as_bytes()).unwrap();
    assert_eq!(t.as_deref(), Some("Demo Page"));
}

#[test]
fn title_missing_yields_none() {
    let t = extract_title(b"<html><body>no title</body></html>").unwrap();
    assert_eq!(t, None);
}

#[test]
fn links_resolves_relative_against_base() {
    let base = "https://site.test/path/";
    let links = extract_links(STATIC_FIXTURE.as_bytes(), base).unwrap();
    let urls: Vec<&str> = links.iter().map(|l| l.url.as_str()).collect();
    assert!(urls.contains(&"https://site.test/about"));
    assert!(urls.contains(&"https://example.com/help"));
    assert!(urls.contains(&"https://site.test/path/page.html"));
    assert_eq!(links.len(), 3);
}

#[test]
fn links_capture_text_including_descendants() {
    let base = "https://site.test/";
    let links = extract_links(STATIC_FIXTURE.as_bytes(), base).unwrap();
    let third = links.iter().find(|l| l.url.ends_with("page.html")).unwrap();
    assert_eq!(third.text, "Span text");
}

#[test]
fn text_skips_script_and_style() {
    let txt = extract_text(STATIC_FIXTURE.as_bytes()).unwrap();
    assert!(!txt.contains("console.log"), "script content leaked: {txt}");
    assert!(!txt.contains("color: red"), "style content leaked: {txt}");
    assert!(txt.contains("Hello"));
    assert!(txt.contains("First paragraph"));
    assert!(txt.contains("Second paragraph."), "got: {txt:?}");
}

#[test]
fn text_skips_noscript() {
    let txt = extract_text(STATIC_FIXTURE.as_bytes()).unwrap();
    assert!(!txt.contains("You need JS"), "noscript leaked: {txt}");
}

#[test]
fn empty_html_does_not_panic() {
    assert_eq!(extract_title(b"").unwrap(), None);
    assert_eq!(extract_text(b"").unwrap(), "");
    let base = "https://x.test/";
    assert!(extract_links(b"", base).unwrap().is_empty());
}

#[test]
fn text_decodes_html_entities() {
    let html = b"<html><body><p>&copy; 2026 &amp; &#169; &#xA9; &nbsp;ok</p></body></html>";
    let txt = extract_text(html).unwrap();
    assert!(
        txt.contains("\u{00A9}"),
        "expected © (U+00A9), got: {txt:?}"
    );
    assert!(txt.contains(" & "), "&amp; not decoded: {txt:?}");
    assert!(!txt.contains("&copy;"), "literal &copy; leaked: {txt:?}");
    assert!(
        !txt.contains("&#169"),
        "numeric entity not decoded: {txt:?}"
    );
}

#[test]
fn link_text_decodes_entities() {
    let base = "https://x.test/";
    let links = extract_links(
        b"<html><body><a href='/'>Tom &amp; Jerry</a></body></html>",
        base,
    )
    .unwrap();
    assert_eq!(links.len(), 1);
    assert_eq!(links[0].text, "Tom & Jerry");
}

fn text(s: &str) -> ScanEvent {
    ScanEvent::Text(s.to_string())
}

#[test]
fn titles_are_all_text_of_what_was_met() {
    assert_eq!(title_from(&vec![]), None);
    assert_eq!(title_from(&vec![text("x")]), None);
    let events = vec![ScanEvent::Start(None), text("a"), text("b")];
    assert_eq!(title_from(&events).as_deref(), Some("ab"));
    assert_eq!(
        title_from(&vec![ScanEvent::Start(None)]).as_deref(),
        Some("")
    );
}

#[test]
fn text_inside_unseen_elements_is_left_out() {
    let events = vec![
        text("a"),
        ScanEvent::Start(None),
        text("x"),
        ScanEvent::Start(None),
        text("y"),
        ScanEvent::End,
        text("z"),
        ScanEvent::End,
        text("&lt;b"),
    ];
    assert_eq!(text_from(&events), "a<b");
}

#[test]
fn links_end_with_their_end_tag() {
    let events = vec![
        text("before"),
        ScanEvent::Start(Some("/a".to_string())),
        text(" one "),
        ScanEvent::End,
        text("between"),
        ScanEvent::End,
        ScanEvent::Start(Some("/b".to_string())),
        ScanEvent::Start(Some("/c".to_string())),
        text("two"),
        ScanEvent::End,
        ScanEvent::Start(None),
        text("open"),
    ];
    let links = links_from(&events, "https://x.test/");
    assert_eq!(links.len(), 2);
    assert_eq!(links[0].url, "https://x.test/a");
    assert_eq!(links[0].text, "one");
    assert_eq!(links[1].url, "https://x.test/c");
    assert_eq!(links[1].text, "two");
}

#[test]
fn links_without_a_readable_base_stay_as_they_are() {
    let links = extract_links(b"<a href='x'>y</a>", "nowhere").unwrap();
    assert_eq!(links[0].url, "x");
}

#[test]
fn scan_errors_are_put_in_words() {
    assert_eq!(
        Error::Rewriter("bad".to_string()).message(),
        "html rewriter: bad"
    );
    let r = extract_links(b"<svg><a href='/x'/></svg>", "https://x.test/");
    assert!(r.is_err());
}
