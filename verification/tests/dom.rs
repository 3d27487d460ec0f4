use bouncy::dom::{Document, Error, NodeId};

const PAGE: &str = r#"<!doctype html>
<html><head><title>X</title></head>
<body>
  <h1 id="title">Hello</h1>
  <ul id="items">
    <li class="item" data-id="1">A</li>
    <li class="item" data-id="2">B</li>
  </ul>
</body></html>"#;

#[test]
fn body_and_html_root_addressable() {
    let doc = Document::parse(PAGE).unwrap();
    let html = doc.html_root().unwrap();
    let body = doc.body().unwrap();
    assert_eq!(doc.tag_name(html).as_deref(), Some("html"));
    assert_eq!(doc.tag_name(body).as_deref(), Some("body"));
    assert_ne!(html, body);
    assert_ne!(html, NodeId::document());
}

#[test]
fn get_element_by_id() {
    let doc = Document::parse(PAGE).unwrap();
    let title = doc.get_element_by_id("title").unwrap();
    assert_eq!(doc.tag_name(title).as_deref(), Some("h1"));
    assert_eq!(doc.text_content(title).trim(), "Hello");

    let items = doc.get_element_by_id("items").unwrap();
    let kids = doc
        .children(items)
        .into_iter()
        .filter(|c| doc.tag_name(*c).is_some())
        .collect::<Vec<_>>();
    assert_eq!(kids.len(), 2);
}

#[test]
fn read_attribute() {
    let doc = Document::parse(PAGE).unwrap();
    let items = doc.get_element_by_id("items").unwrap();
    let first_li = doc
        .children(items)
        .into_iter()
        .find(|c| doc.tag_name(*c).as_deref() == Some("li"))
        .unwrap();
    assert_eq!(
        doc.get_attribute(first_li, "class").as_deref(),
        Some("item")
    );
    assert_eq!(doc.get_attribute(first_li, "data-id").as_deref(), Some("1"));
    assert_eq!(doc.get_attribute(first_li, "missing"), None);
}

#[test]
fn set_attribute_round_trip() {
    let mut doc = Document::parse(PAGE).unwrap();
    let body = doc.body().unwrap();
    doc.set_attribute(body, "data-ready", "1").unwrap();
    assert_eq!(doc.get_attribute(body, "data-ready").as_deref(), Some("1"));
    doc.set_attribute(body, "data-ready", "2").unwrap();
    assert_eq!(doc.get_attribute(body, "data-ready").as_deref(), Some("2"));
    doc.remove_attribute(body, "data-ready").unwrap();
    assert_eq!(doc.get_attribute(body, "data-ready"), None);
}

#[test]
fn set_text_content_replaces_children() {
    let mut doc = Document::parse(PAGE).unwrap();
    let title = doc.get_element_by_id("title").unwrap();
    doc.set_text_content(title, "Updated").unwrap();
    assert_eq!(doc.text_content(title), "Updated");
}

#[test]
fn create_and_append_child() {
    let mut doc = Document::parse(PAGE).unwrap();
    let items = doc.get_element_by_id("items").unwrap();
    let li = doc.create_element("li");
    doc.set_attribute(li, "class", "item").unwrap();
    doc.set_attribute(li, "data-id", "3").unwrap();
    let txt = doc.create_text_node("C");
    doc.append_child(li, txt).unwrap();
    doc.append_child(items, li).unwrap();

    let elements = doc
        .children(items)
        .into_iter()
        .filter(|c| doc.tag_name(*c).as_deref() == Some("li"))
        .collect::<Vec<_>>();
    assert_eq!(elements.len(), 3);
    assert_eq!(doc.text_content(elements[2]).trim(), "C");
    assert_eq!(
        doc.get_attribute(elements[2], "data-id").as_deref(),
        Some("3")
    );
}

#[test]
fn set_inner_html_replaces_subtree() {
    let mut doc = Document::parse(PAGE).unwrap();
    let title = doc.get_element_by_id("title").unwrap();
    doc.set_inner_html(title, "New <em>Hi</em>").unwrap();
    let kids: Vec<_> = doc.children(title);
    let tags: Vec<_> = kids
        .iter()
        .map(|id| doc.tag_name(*id).unwrap_or_default())
        .collect();
    assert!(tags.iter().any(|t| t == "em"), "tags: {tags:?}");
    assert!(
        doc.text_content(title).contains("Hi"),
        "got: {}",
        doc.text_content(title)
    );
}

#[test]
fn remove_child() {
    let mut doc = Document::parse(PAGE).unwrap();
    let items = doc.get_element_by_id("items").unwrap();
    let lis: Vec<_> = doc
        .children(items)
        .into_iter()
        .filter(|c| doc.tag_name(*c).as_deref() == Some("li"))
        .collect();
    assert_eq!(lis.len(), 2);
    doc.remove_child(items, lis[0]).unwrap();
    let after: Vec<_> = doc
        .children(items)
        .into_iter()
        .filter(|c| doc.tag_name(*c).as_deref() == Some("li"))
        .collect();
    assert_eq!(after.len(), 1);
}

#[test]
fn outer_html_round_trips() {
    let doc = Document::parse(PAGE).unwrap();
    let title = doc.get_element_by_id("title").unwrap();
    let outer = doc.outer_html(title);
    assert!(outer.contains("<h1"), "got: {outer}");
    assert!(outer.contains("Hello"), "got: {outer}");
    assert!(outer.contains("</h1>"), "got: {outer}");
}

#[test]
fn parses_and_serialises_round_trip_text() {
    let src = "<!doctype html><html><head><title>X</title></head><body><p>hi</p></body></html>";
    let doc = Document::parse(src).unwrap();
    let s = doc.serialize();
    assert!(s.contains("<title>X</title>"), "got: {s}");
    assert!(s.contains("<p>hi</p>"), "got: {s}");
}

#[test]
fn extracts_title() {
    let doc = Document::parse(
        "<!doctype html><html><head><title>Hello</title></head><body></body></html>",
    )
    .unwrap();
    assert_eq!(doc.title().as_deref(), Some("Hello"));
}

#[test]
fn missing_title_yields_none() {
    let doc = Document::parse("<html><body><h1>x</h1></body></html>").unwrap();
    assert_eq!(doc.title(), None);
}

#[test]
fn body_text_skips_script_and_style() {
    let doc = Document::parse(
        r#"<html>
            <head><style>.a{color:red}</style></head>
            <body>
              <script>console.log('x')</script>
              <p>visible</p>
            </body>
        </html>"#,
    )
    .unwrap();
    let body = doc.body_text();
    assert!(body.contains("visible"));
    assert!(!body.contains("color:red"), "style leaked: {body}");
    assert!(!body.contains("console.log"), "script leaked: {body}");
}

#[test]
fn empty_input_does_not_panic() {
    let doc = Document::parse("").unwrap();
    assert_eq!(doc.title(), None);
    assert_eq!(doc.body_text(), "");
}

#[test]
fn unknown_nodes_are_refused_and_empty() {
    let mut doc = Document::parse(PAGE).unwrap();
    let gone = NodeId(4_000_000);
    assert!(!doc.is_known(gone));
    assert_eq!(doc.tag_name(gone), None);
    assert_eq!(doc.text_content(gone), "");
    assert_eq!(doc.outer_html(gone), "");
    assert!(doc.children(gone).is_empty());
    assert_eq!(doc.parent(gone), None);
    match doc.set_attribute(gone, "a", "b") {
        Err(Error::UnknownNode(n)) => assert_eq!(n, 4_000_000),
        other => panic!("got {other:?}"),
    }
    let e = doc.append_child(gone, gone).unwrap_err();
    assert_eq!(e.message(), "unknown node id 4000000");
    assert_eq!(Error::Parse("x".to_string()).message(), "parse error: x");
    assert_eq!(
        Error::Serialize("x".to_string()).message(),
        "serialize error: x"
    );
}

#[test]
fn replaced_nodes_are_forgotten() {
    let mut doc = Document::parse(PAGE).unwrap();
    let items = doc.get_element_by_id("items").unwrap();
    let li = doc.query_selector("li").unwrap();
    assert!(doc.holds(items, li));
    doc.set_inner_html(items, "<li>only</li>").unwrap();
    assert!(!doc.is_known(li));
    assert!(!doc.holds(items, li));
    assert_eq!(doc.text_content(items), "only");
    assert_eq!(doc.query_selector_all("li").len(), 1);
}

#[test]
fn nodes_move_when_they_are_appended_elsewhere() {
    let mut doc = Document::parse("<div id=a><b>x</b></div><div id=c></div>").unwrap();
    let a = doc.get_element_by_id("a").unwrap();
    let c = doc.get_element_by_id("c").unwrap();
    let b = doc.query_selector("b").unwrap();
    doc.append_child(c, b).unwrap();
    assert_eq!(doc.parent(b), Some(c));
    assert!(doc.children(a).is_empty());
    assert_eq!(doc.outer_html(c), "<div id=\"c\"><b>x</b></div>");
    assert!(doc.holds(c, b));
    assert!(!doc.holds(b, c));
}

#[test]
fn raw_text_holds_the_text_of_scripts() {
    let doc = Document::parse("<script>var a = 1;</script>").unwrap();
    let s = doc.query_selector("script").unwrap();
    assert_eq!(doc.text_content(s), "");
    assert_eq!(doc.raw_text_content(s), "var a = 1;");
}

#[test]
fn the_document_is_node_zero() {
    let doc = Document::parse("<p>x</p>").unwrap();
    assert_eq!(NodeId::document().raw(), 0);
    assert_eq!(doc.document_node(), NodeId::document());
    assert_eq!(doc.tag_name(NodeId::document()), None);
    assert_eq!(doc.parent(doc.html_root().unwrap()), Some(NodeId::document()));
    assert_eq!(doc.tag_name(doc.head().unwrap()).as_deref(), Some("head"));
    assert_eq!(doc.node_count(), 6);
}

#[test]
fn searches_below_a_node_stay_below_it() {
    let doc = Document::parse("<div id=a><i>1</i></div><div id=b><i>2</i></div>").unwrap();
    let b = doc.get_element_by_id("b").unwrap();
    let i = doc.query_selector_within(b, "i").unwrap();
    assert_eq!(doc.text_content(i), "2");
    assert_eq!(doc.query_selector_all_within(b, "i").len(), 1);
    assert_eq!(doc.query_selector_all("i").len(), 2);
}

#[test]
fn inner_html_shows_what_the_children_hold() {
    let doc = Document::parse("<div id=a><p><b>x</b></p><p>y</p></div>").unwrap();
    let a = doc.get_element_by_id("a").unwrap();
    assert_eq!(doc.inner_html(a), "<b>x</b>y");
}

#[test]
fn a_lone_quote_is_no_selector() {
    let doc = Document::parse("<p a='\"'>x</p><p a=b>y</p>").unwrap();
    assert_eq!(doc.query_selector_all("[a=\"b\"]").len(), 1);
    assert_eq!(doc.query_selector_all("[a]").len(), 2);
    assert!(doc.query_selector_all("[a=\"]").is_empty());
    assert!(doc.query_selector("[a=']").is_none());
}

#[test]
fn an_element_is_not_below_itself() {
    let doc = Document::parse("<div id='a'><div id='b'></div></div>").unwrap();
    let a = doc.get_element_by_id("a").unwrap();
    let b = doc.get_element_by_id("b").unwrap();
    assert!(doc.query_selector_all_within(a, "div") == vec![b]);
    assert!(doc.query_selector_within(a, "div") == Some(b));
    assert!(doc.query_selector_within(a, "#a").is_none());
    assert!(doc.query_selector_all_within(b, "div").is_empty());
    assert!(doc.query_selector_all("div") == vec![a, b]);
}

#[test]
fn node_taken_from_the_wrong_parent_stays_listed() {
    let mut doc =
        Document::parse("<div id=a><b><i>x</i></b></div><div id=c></div>").unwrap();
    let a = doc.get_element_by_id("a").unwrap();
    let c = doc.get_element_by_id("c").unwrap();
    let b = doc.query_selector("b").unwrap();
    doc.remove_child(c, b).unwrap();
    assert_eq!(doc.parent(b), None);
    assert_eq!(doc.children(a), vec![b]);
    doc.append_child(c, b).unwrap();
    assert_eq!(doc.parent(b), Some(c));
    assert_eq!(doc.children(a), vec![b]);
    assert_eq!(doc.children(c), vec![b]);
    assert_eq!(doc.body_text(), "xx");

    doc.set_text_content(a, "y").unwrap();
    assert!(!doc.is_known(b));
    assert!(doc.children(c).is_empty());
    assert_eq!(doc.outer_html(c), "<div id=\"c\"><b><i>x</i></b></div>");
    assert_eq!(doc.query_selector("b"), None);
    assert!(doc.query_selector_all("i").is_empty());
    assert_eq!(doc.body_text(), "yx");

    doc.set_text_content(c, "z").unwrap();
    assert_eq!(doc.body_text(), "yz");
}

#[test]
fn what_is_freed_loses_its_children_everywhere() {
    let html = "<div id=p><u><b><i>x</i></b></u></div><div id=c></div>";
    let mut doc = Document::parse(html).unwrap();
    let p = doc.get_element_by_id("p").unwrap();
    let c = doc.get_element_by_id("c").unwrap();
    let b = doc.query_selector("b").unwrap();
    doc.remove_child(c, b).unwrap();
    doc.append_child(c, b).unwrap();
    doc.set_text_content(p, "y").unwrap();
    assert_eq!(doc.outer_html(c), "<div id=\"c\"><b></b></div>");
}
