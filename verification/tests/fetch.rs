use bouncy::fetch::blocklist::TrackerBlocklist;
use bouncy::fetch::client::{
    check_trust, default_user_agent, harvest_cookies, is_redirect, receive, Error, FetchRequest,
    Fetcher, Response, Step,
};
use bouncy::fetch::cookies::CookieJar;
use bouncy::fetch::decode::{
    decode_body, decode_brotli, decode_deflate, decode_gzip, is_known_encoding,
};
use http::{HeaderMap, HeaderValue};
use std::io::Write;

fn hosts(list: &[&str]) -> Vec<String> {
    list.iter().map(|s| s.to_string()).collect()
}

#[test]
fn blocklist_matches_exact_host() {
    let bl = TrackerBlocklist::from_hosts(&hosts(&["google-analytics.com"]));
    assert!(bl.blocks("https://google-analytics.com/collect"));
}

#[test]
fn blocklist_matches_subdomains() {
    let bl = TrackerBlocklist::from_hosts(&hosts(&["google-analytics.com"]));
    assert!(bl.blocks("https://www.google-analytics.com/collect"));
    assert!(bl.blocks("https://ssl.google-analytics.com/collect"));
}

#[test]
fn blocklist_entries_may_have_a_port() {
    let bl = TrackerBlocklist::from_hosts(&hosts(&["ads.test:8080"]));
    assert!(bl.blocks("http://ads.test:8080/"));
    assert!(bl.blocks("http://x.ads.test:8080/"));
    assert!(!bl.blocks("http://ads.test/"));
    assert!(!bl.blocks("http://xads.test:8080/"));
}

#[test]
fn blocklist_does_not_match_unrelated_hosts() {
    let bl = TrackerBlocklist::from_hosts(&hosts(&["google-analytics.com"]));
    assert!(!bl.blocks("https://example.com/"));
    assert!(!bl.blocks("https://notgoogle-analytics.com/"));
}

#[test]
fn default_set_blocks_known_trackers() {
    let bl = TrackerBlocklist::default_set();
    for u in [
        "https://www.google-analytics.com/collect",
        "https://googletagmanager.com/gtm.js",
        "https://doubleclick.net/x",
        "https://connect.facebook.net/en_US/fbevents.js",
    ] {
        assert!(bl.blocks(u), "expected default set to block {u}");
    }
    assert!(!bl.blocks("https://example.com/"));
}

#[test]
fn jar_round_trips_to_json() {
    let mut jar = CookieJar::new();
    jar.set("https://x.test", "session", "abc123");
    jar.set("https://x.test", "csrf", "z9");
    jar.set("https://other.test", "n", "v");

    let json = jar.to_json();
    let restored = CookieJar::from_json(&json).expect("parse jar");
    assert_eq!(
        restored.get("https://x.test", "session").as_deref(),
        Some("abc123")
    );
    assert_eq!(
        restored.get("https://x.test", "csrf").as_deref(),
        Some("z9")
    );
    assert_eq!(
        restored.get("https://other.test", "n").as_deref(),
        Some("v")
    );
    assert_eq!(restored.get("https://x.test", "missing"), None);
}

#[test]
fn jars_are_read_from_files() {
    let mut jar = CookieJar::new();
    jar.set("https://x.test", "a", "1");
    let again = CookieJar::from_bytes(jar.to_json().as_bytes()).unwrap();
    assert_eq!(again.get("https://x.test", "a").as_deref(), Some("1"));
    assert!(CookieJar::from_bytes(b"").is_some());
    assert!(CookieJar::from_bytes(b"[]").is_none());
    assert!(CookieJar::from_bytes(b"\xff").is_none());
    assert!(CookieJar::from_json("{").is_none());
}

#[test]
fn cookies_go_out_in_order_for_their_origin() {
    let mut jar = CookieJar::new();
    jar.record_set_cookie("https://x.test", " b = 2 ; Path=/");
    jar.record_set_cookie("https://x.test", "a=1");
    jar.record_set_cookie("https://x.test", "=nothing");
    jar.record_set_cookie("https://x.test", "nothing");
    assert_eq!(
        jar.cookie_header("https://x.test").as_deref(),
        Some("a=1; b=2")
    );
    assert_eq!(jar.cookie_header("https://y.test"), None);
}

#[test]
fn agents_are_chosen_by_request_then_client_then_default() {
    assert!(default_user_agent().starts_with("bouncy/"));
    let agent = |f: &Fetcher, r: FetchRequest| {
        f.prepare(&r)
            .unwrap()
            .headers
            .iter()
            .filter(|(n, _)| n.eq_ignore_ascii_case("user-agent"))
            .map(|(_, v)| v.clone())
            .collect::<Vec<_>>()
    };
    let plain = Fetcher::new().unwrap();
    assert_eq!(
        agent(&plain, FetchRequest::new("https://x.test/")),
        vec![default_user_agent()]
    );
    let named = Fetcher::builder().user_agent("me/1").build().unwrap();
    assert_eq!(
        agent(&named, FetchRequest::new("https://x.test/")),
        vec!["me/1".to_string()]
    );
    assert_eq!(
        agent(
            &named,
            FetchRequest::new("https://x.test/").header("USER-agent", "you/2")
        ),
        vec!["you/2".to_string()]
    );
    assert!(Fetcher::builder().user_agent("").build().is_err());
    assert!(Fetcher::builder().user_agent("a\nb").build().is_err());
}

#[test]
fn requests_that_cannot_be_sent_are_refused() {
    let f = Fetcher::new().unwrap();
    let err = |r: FetchRequest| f.prepare(&r).err().unwrap();
    assert!(matches!(
        err(FetchRequest::new("ftp://x.test/")),
        Error::Scheme(_)
    ));
    assert!(matches!(err(FetchRequest::new("http://[")), Error::Uri(_)));
    assert!(matches!(
        err(FetchRequest::new("http://x.test/").method("B D")),
        Error::InvalidMethod(_)
    ));
    assert!(matches!(
        err(FetchRequest::new("http://x.test/").header("a b", "c")),
        Error::HeaderName(_)
    ));
    assert!(matches!(
        err(FetchRequest::new("http://x.test/").header("a", "c\n")),
        Error::HeaderValue(_)
    ));
}

#[test]
fn encodings_are_asked_for_unless_the_request_does() {
    let f = Fetcher::new().unwrap();
    let has = |r: FetchRequest| {
        f.prepare(&r)
            .unwrap()
            .headers
            .iter()
            .filter(|(n, _)| n.eq_ignore_ascii_case("accept-encoding"))
            .map(|(_, v)| v.clone())
            .collect::<Vec<_>>()
    };
    assert_eq!(has(FetchRequest::new("https://x.test/")).len(), 1);
    assert_eq!(
        has(FetchRequest::new("https://x.test/").header("accept-encoding", "identity")),
        vec!["identity".to_string()]
    );
}

#[test]
fn cookies_of_the_jar_are_sent() {
    let mut jar = CookieJar::new();
    jar.set("https://x.test", "a", "1");
    let f = Fetcher::builder().cookie_jar(jar).build().unwrap();
    let q = f.prepare(&FetchRequest::new("https://x.test/p")).unwrap();
    assert!(q
        .headers
        .iter()
        .any(|(n, v)| n.eq_ignore_ascii_case("cookie") && v == "a=1"));
    let q = f.prepare(&FetchRequest::new("https://y.test/p")).unwrap();
    assert!(!q
        .headers
        .iter()
        .any(|(n, _)| n.eq_ignore_ascii_case("cookie")));
}

fn answer(status: u16, location: Option<&str>) -> Response {
    let mut headers = HeaderMap::new();
    if let Some(l) = location {
        headers.insert("location", HeaderValue::from_str(l).unwrap());
    }
    Response {
        status,
        body: b"x".to_vec(),
        headers,
    }
}

#[test]
fn redirects_are_followed_and_bounded() {
    let f = Fetcher::builder().max_redirects(2).build().unwrap();
    let first = match f.begin(FetchRequest::new("http://x.test/a/b").method("POST").body_str("q")) {
        Step::Send(ex) => ex,
        _ => panic!("expected Send"),
    };
    let second = match f.advance(first, answer(303, Some("../c"))) {
        Step::Send(ex) => ex,
        _ => panic!("expected Send"),
    };
    assert_eq!(second.req.url, "http://x.test/c");
    assert_eq!(second.req.method, "GET");
    assert!(second.req.body.is_empty());
    let third = match f.advance(second, answer(308, Some("http://y.test/"))) {
        Step::Send(ex) => ex,
        _ => panic!("expected Send"),
    };
    assert_eq!(third.req.url, "http://y.test/");
    match f.advance(third, answer(302, Some("/"))) {
        Step::Fail(e) => assert_eq!(e.message(), "too many redirects (cap: 2)"),
        _ => panic!("expected Fail"),
    }
}

#[test]
fn permanent_redirects_keep_method_and_body() {
    let f = Fetcher::new().unwrap();
    let ex = match f.begin(FetchRequest::new("http://x.test/").method("PUT").body_str("q")) {
        Step::Send(ex) => ex,
        _ => panic!("expected Send"),
    };
    match f.advance(ex, answer(308, Some("/n"))) {
        Step::Send(n) => {
            assert_eq!(n.req.method, "PUT");
            assert_eq!(n.req.body, b"q");
        }
        _ => panic!("expected Send"),
    }
}

#[test]
fn redirects_without_a_place_end_or_fail() {
    let f = Fetcher::new().unwrap();
    let start = || match f.begin(FetchRequest::new("http://x.test/")) {
        Step::Send(ex) => ex,
        _ => panic!("expected Send"),
    };
    assert!(matches!(f.advance(start(), answer(302, None)), Step::Done(_)));
    assert!(matches!(f.advance(start(), answer(200, Some("/"))), Step::Done(_)));
    match f.advance(start(), answer(302, Some("http://["))) {
        Step::Fail(e) => assert_eq!(
            e.message(),
            "redirect Location \"http://[\" could not be resolved against http://x.test/"
        ),
        _ => panic!("expected Fail"),
    }
    let none = Fetcher::builder().max_redirects(0).build().unwrap();
    let ex = match none.begin(FetchRequest::new("http://x.test/")) {
        Step::Send(ex) => ex,
        _ => panic!("expected Send"),
    };
    assert!(matches!(
        none.advance(ex, answer(302, Some("/"))),
        Step::Done(_)
    ));
    assert!(is_redirect(301) && !is_redirect(304) && !is_redirect(200));
}

#[test]
fn blocked_requests_are_answered_at_once() {
    let f = Fetcher::builder()
        .tracker_blocklist(TrackerBlocklist::from_hosts(&hosts(&["ads.test"])))
        .build()
        .unwrap();
    match f.begin(FetchRequest::new("https://x.ads.test/")) {
        Step::Done(r) => {
            assert_eq!(r.status, 204);
            assert!(r.body.is_empty());
        }
        _ => panic!("expected Done"),
    }
    assert!(matches!(
        f.begin(FetchRequest::new("https://x.test/")),
        Step::Send(_)
    ));
}

#[test]
fn blocked_redirects_are_answered_at_once() {
    let f = Fetcher::builder()
        .tracker_blocklist(TrackerBlocklist::from_hosts(&hosts(&["ads.test"])))
        .build()
        .unwrap();
    let ex = match f.begin(FetchRequest::new("https://x.test/")) {
        Step::Send(ex) => ex,
        _ => panic!("expected Send"),
    };
    match f.advance(ex, answer(302, Some("https://ads.test/pixel"))) {
        Step::Done(r) => {
            assert_eq!(r.status, 204);
            assert!(r.body.is_empty());
            assert!(r.headers.is_empty());
        }
        _ => panic!("expected Done"),
    }
}

#[test]
fn posts_become_gets_when_moved() {
    let f = Fetcher::new().unwrap();
    for status in [301, 302, 303] {
        let req = FetchRequest::new("http://x.test/").method("post").body_str("q");
        let ex = match f.begin(req) {
            Step::Send(ex) => ex,
            _ => panic!("expected Send"),
        };
        match f.advance(ex, answer(status, Some("/n"))) {
            Step::Send(n) => {
                assert_eq!(n.req.method, "GET");
                assert!(n.req.body.is_empty());
            }
            _ => panic!("expected Send"),
        }
    }
}

#[test]
fn listed_hosts_come_once_each() {
    let bl = TrackerBlocklist::from_hosts(&hosts(&["Ads.test", " ads.test ", "b.test", ""]));
    let mut listed = bl.hosts_iter();
    listed.sort();
    assert_eq!(listed, vec!["ads.test", "b.test"]);
    let mut again = TrackerBlocklist::from_hosts(&bl.hosts_iter()).hosts_iter();
    again.sort();
    assert_eq!(again, listed);
    assert!(TrackerBlocklist::new().hosts_iter().is_empty());
}

#[test]
fn newer_cookies_replace_older_ones() {
    let mut jar = CookieJar::new();
    assert!(jar.get("https://x.test", "n").is_none());
    jar.set("https://x.test", "n", "1");
    jar.set("https://x.test", "n", "2");
    assert_eq!(jar.get("https://x.test", "n").as_deref(), Some("2"));
}

fn gzipped(data: &[u8]) -> Vec<u8> {
    let mut e = flate2::write::GzEncoder::new(Vec::new(), flate2::Compression::default());
    e.write_all(data).unwrap();
    e.finish().unwrap()
}

#[test]
fn bodies_are_decoded() {
    let text = b"hello hello hello";
    assert_eq!(decode_gzip(&gzipped(text)).unwrap(), text);
    let mut e = flate2::write::ZlibEncoder::new(Vec::new(), flate2::Compression::default());
    e.write_all(text).unwrap();
    let zlib = e.finish().unwrap();
    assert_eq!(decode_deflate(&zlib).unwrap(), text);
    let mut e = flate2::write::DeflateEncoder::new(Vec::new(), flate2::Compression::default());
    e.write_all(text).unwrap();
    let raw = e.finish().unwrap();
    assert_eq!(decode_deflate(&raw).unwrap(), text);
    let mut br = Vec::new();
    {
        let mut w = brotli::CompressorWriter::new(&mut br, 4096, 5, 22);
        w.write_all(text).unwrap();
    }
    assert_eq!(decode_brotli(&br).unwrap(), text);
    assert!(decode_gzip(b"no").is_err());
    assert_eq!(
        decode_body(&Some("x-own".to_string()), b"as is".to_vec()).unwrap(),
        b"as is"
    );
    assert_eq!(decode_body(&None, b"as is".to_vec()).unwrap(), b"as is");
    assert!(is_known_encoding("br") && is_known_encoding("gzip"));
    assert!(!is_known_encoding("x-own"));
}

#[test]
fn responses_lose_the_encoding_they_were_decoded_from() {
    let mut headers = HeaderMap::new();
    headers.insert("content-encoding", HeaderValue::from_static("gzip"));
    headers.insert("x", HeaderValue::from_static("y"));
    let r = receive(200, headers, gzipped(b"body")).unwrap();
    assert_eq!(r.body, b"body");
    assert!(r.headers.get("content-encoding").is_none());
    assert!(r.headers.get("x").is_some());
}

#[test]
fn set_cookies_are_harvested_for_the_origin() {
    let mut headers = HeaderMap::new();
    headers.append("set-cookie", HeaderValue::from_static("a=1; Path=/"));
    headers.append("set-cookie", HeaderValue::from_static("b=2"));
    let mut jar = CookieJar::new();
    harvest_cookies(&mut jar, "https://x.test:8443/p", &headers);
    assert_eq!(jar.get("https://x.test:8443", "a").as_deref(), Some("1"));
    assert_eq!(jar.get("https://x.test:8443", "b").as_deref(), Some("2"));
    assert_eq!(jar.get("https://x.test", "a"), None);
    harvest_cookies(&mut jar, "nowhere", &headers);
}

#[test]
fn proxies_are_read_with_and_without_a_scheme() {
    let f = Fetcher::builder().proxy("proxy.test:3128").build().unwrap();
    assert_eq!(f.proxy.as_deref(), Some("http://proxy.test:3128"));
    let f = Fetcher::builder().proxy("http://p:1").build().unwrap();
    assert_eq!(f.proxy.as_deref(), Some("http://p:1"));
    assert!(Fetcher::builder().proxy("http://[").build().is_err());
}

#[test]
fn trust_needs_certificates() {
    assert!(check_trust(1, &vec![]).is_ok());
    assert!(check_trust(0, &vec![("a.pem".to_string(), 2)]).is_ok());
    assert_eq!(
        check_trust(5, &vec![("a.pem".to_string(), 0)])
            .err()
            .unwrap()
            .message(),
        "tls config: ca-file a.pem contained no certificates"
    );
    assert_eq!(
        check_trust(0, &vec![]).err().unwrap().message(),
        "tls config: trust store is empty (no native or user-supplied roots)"
    );
}

#[test]
fn errors_are_put_in_words() {
    assert_eq!(
        Error::Timeout(1500).message(),
        "request timed out after 1.5s"
    );
    assert_eq!(
        Error::Scheme("ftp".to_string()).message(),
        "unsupported scheme \"ftp\" (bouncy-fetch only speaks http/https)"
    );
    assert_eq!(
        Error::HeaderValue("a".to_string()).message(),
        "invalid header value for \"a\""
    );
    assert_eq!(Error::Uri("u".to_string()).message(), "invalid uri: u");
    assert_eq!(
        Error::Build("b".to_string()).message(),
        "request build error: b"
    );
    assert_eq!(Error::Client("c".to_string()).message(), "client error: c");
    assert_eq!(Error::Body("d".to_string()).message(), "body error: d");
    assert_eq!(
        Error::InvalidMethod("M M".to_string()).message(),
        "invalid method \"M M\""
    );
    assert_eq!(
        Error::HeaderName("h h".to_string()).message(),
        "invalid header name \"h h\""
    );
}

#[test]
fn cookies_that_are_set_are_sent_back() {
    let mut headers = HeaderMap::new();
    headers.append("set-cookie", HeaderValue::from_static("a=1"));
    headers.append("set-cookie", HeaderValue::from_static("a=2; Path=/"));
    headers.append("set-cookie", HeaderValue::from_static("b=3"));
    let mut f = Fetcher::builder()
        .cookie_jar(CookieJar::new())
        .build()
        .unwrap();
    harvest_cookies(
        f.cookie_jar.as_mut().unwrap(),
        "https://x.test/login",
        &headers,
    );
    let q = f.prepare(&FetchRequest::new("https://x.test/me")).unwrap();
    assert!(q.headers.contains(&("cookie".to_string(), "a=2; b=3".to_string())));
    assert!(f.cookie_jar().is_some());
    assert!(f.tracker_blocklist().is_none());
}
