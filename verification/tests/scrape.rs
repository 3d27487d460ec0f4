use bouncy::cli::dashboard::{
    handle_key, percentile, truncate, AppState, Key, Phase, UrlState,
};
use bouncy::cli::scrape::{
    backoff_ms, format_summary, host_of, is_transient_status, page_selection, page_title, queue,
    sort_rows, worker_of, Admission, Attempts, HostLimiter, RetryStep, ScrapeEvent, ScrapeRow,
    UrlRun,
};
use bouncy::json::parse_json;

#[test]
fn is_transient_handles_canonical_codes() {
    assert!(is_transient_status(408));
    assert!(is_transient_status(429));
    assert!(is_transient_status(500));
    assert!(is_transient_status(502));
    assert!(is_transient_status(503));
    assert!(is_transient_status(504));
    assert!(is_transient_status(599));
}

#[test]
fn is_transient_rejects_non_transient_codes() {
    assert!(!is_transient_status(200));
    assert!(!is_transient_status(201));
    assert!(!is_transient_status(301));
    assert!(!is_transient_status(400));
    assert!(!is_transient_status(404));
    assert!(!is_transient_status(407));
}

#[test]
fn backoff_grows_exponentially() {
    assert_eq!(backoff_ms(250, 0), 250);
    assert_eq!(backoff_ms(250, 1), 500);
    assert_eq!(backoff_ms(250, 2), 1000);
    assert_eq!(backoff_ms(250, 3), 2000);
    assert_eq!(backoff_ms(250, 4), 4000);
}

#[test]
fn backoff_caps_at_30s() {
    assert_eq!(backoff_ms(250, 7), 30_000);
    assert_eq!(backoff_ms(250, 100), 30_000);
    assert_eq!(backoff_ms(1_000_000, 0), 30_000);
}

#[test]
fn small_delays_grow_up_to_the_cap() {
    assert_eq!(backoff_ms(1, 8), 256);
    assert_eq!(backoff_ms(1, 14), 16_384);
    assert_eq!(backoff_ms(1, 15), 30_000);
    assert_eq!(backoff_ms(u64::MAX, u32::MAX), 30_000);
}

#[test]
fn selected_values_are_an_extra_column() {
    let mut one = row("https://a", "Alpha", 142, 200);
    one.selected = Some(vec!["x".to_string()]);
    let mut two = row("https://b", "Bravo", 3, 200);
    two.selected = Some(vec!["x".to_string(), "y".to_string()]);
    assert_eq!(
        format_summary(&vec![one, two], "text", 142, 1, "142.0"),
        "142ms\thttps://a\tAlpha\tx\n3ms\thttps://b\tBravo\tx, y\n"
    );
}

#[test]
fn backoff_handles_zero_base() {
    assert_eq!(backoff_ms(0, 0), 0);
    assert_eq!(backoff_ms(0, 5), 0);
}

fn row(url: &str, title: &str, time_ms: u64, status: u16) -> ScrapeRow {
    ScrapeRow {
        url: url.into(),
        title: title.into(),
        eval: None,
        time_ms,
        worker: 0,
        retries: 0,
        status,
        selected: None,
    }
}

#[test]
fn format_text_summary_emits_one_line_per_row() {
    let rows = vec![
        row("https://a", "Alpha", 142, 200),
        row("https://b", "Bravo", 311, 200),
    ];
    let s = format_summary(&rows, "text", 500, 4, "226.5");
    assert_eq!(s, "142ms\thttps://a\tAlpha\n311ms\thttps://b\tBravo\n");
}

#[test]
fn format_json_summary_includes_report_envelope() {
    let rows = vec![row("https://a", "T", 100, 200)];
    let s = format_summary(&rows, "json", 200, 8, "100.0");
    let v: serde_json::Value = serde_json::from_str(&s).unwrap();
    assert_eq!(v["total_urls"], 1);
    assert_eq!(v["concurrency"], 8);
    assert_eq!(v["total_time_ms"], 200);
    assert_eq!(v["avg_time_ms"], 100.0);
    assert_eq!(v["results"][0]["url"], "https://a");
    assert_eq!(v["results"][0]["status"], 200);
    assert!(s.ends_with('\n'));
}

#[test]
fn format_summary_empty_rows() {
    assert_eq!(format_summary(&vec![], "text", 0, 1, "0.0"), "");
    let v: serde_json::Value =
        serde_json::from_str(&format_summary(&vec![], "json", 0, 1, "0.0")).unwrap();
    assert_eq!(v["total_urls"], 0);
    assert_eq!(v["results"].as_array().unwrap().len(), 0);
}

#[test]
fn format_summary_unknown_format_falls_back_to_json() {
    let rows = vec![row("https://a", "T", 1, 200)];
    let s = format_summary(&rows, "yaml", 1, 1, "1.0");
    assert!(serde_json::from_str::<serde_json::Value>(&s).is_ok());
}

#[test]
fn reports_are_indented_like_serde_json_does() {
    let mut r = row("https://a", "T\n", 1, 200);
    r.eval = Some("2".to_string());
    r.selected = Some(vec!["x".to_string(), "y".to_string()]);
    let s = format_summary(&vec![r], "json", 1, 1, "1.0");
    assert_eq!(
        s,
        "{\n  \"total_urls\": 1,\n  \"concurrency\": 1,\n  \"total_time_ms\": 1,\n  \"avg_time_ms\": 1.0,\n  \"results\": [\n    {\n      \"url\": \"https://a\",\n      \"title\": \"T\\n\",\n      \"eval\": \"2\",\n      \"time_ms\": 1,\n      \"worker\": 0,\n      \"retries\": 0,\n      \"status\": 200,\n      \"selected\": [\n        \"x\",\n        \"y\"\n      ]\n    }\n  ]\n}\n"
    );
    let j = parse_json(&s).unwrap();
    let v: serde_json::Value = serde_json::from_str(&s).unwrap();
    assert_eq!(j.to_pretty(), serde_json::to_string_pretty(&v).unwrap());
    assert_eq!(j.to_text(), serde_json::to_string(&v).unwrap());
}

#[test]
fn host_of_extracts_hostname() {
    assert_eq!(
        host_of("https://example.com/path"),
        Some("example.com".into())
    );
    assert_eq!(host_of("http://Example.COM/"), Some("example.com".into()));
    assert_eq!(
        host_of("https://sub.example.com:8443/x"),
        Some("sub.example.com".into())
    );
}

#[test]
fn host_of_handles_ipv6_bracketed() {
    assert_eq!(host_of("http://[::1]:8080/"), Some("[::1]".into()));
}

#[test]
fn host_of_returns_none_for_non_url() {
    assert_eq!(host_of("/relative/path"), None);
    assert_eq!(host_of("not-a-url"), None);
    assert_eq!(host_of(""), None);
}

#[test]
fn host_limiter_blocks_past_per_host_limit() {
    let mut limiter = HostLimiter::new(2);
    assert_eq!(limiter.acquire(Some("example.com")), Admission::Admitted);
    assert_eq!(limiter.acquire(Some("example.com")), Admission::Admitted);
    assert_eq!(limiter.acquire(Some("example.com")), Admission::Full);
    limiter.release("example.com");
    assert_eq!(limiter.acquire(Some("Example.com")), Admission::Admitted);
}

#[test]
fn host_limiter_does_not_block_different_hosts() {
    let mut limiter = HostLimiter::new(1);
    assert_eq!(limiter.acquire(Some("a.example")), Admission::Admitted);
    assert_eq!(limiter.acquire(Some("b.example")), Admission::Admitted);
    assert_eq!(limiter.acquire(Some("a.example")), Admission::Full);
}

#[test]
fn host_limiter_bypasses_when_host_is_none() {
    let mut limiter = HostLimiter::new(1);
    assert_eq!(limiter.acquire(None), Admission::Unlimited);
    assert_eq!(limiter.acquire(None), Admission::Unlimited);
}

#[test]
fn host_limiter_treats_zero_limit_as_one() {
    let limiter = HostLimiter::new(0);
    assert_eq!(limiter.limit, 1);
}

#[test]
fn attempts_are_repeated_while_retries_are_left() {
    let mut a = Attempts::new(2, 100);
    assert_eq!(
        a.answered(503),
        RetryStep::Wait {
            attempt: 0,
            backoff_ms: 100
        }
    );
    assert_eq!(
        a.failed("reset".to_string()),
        RetryStep::Wait {
            attempt: 1,
            backoff_ms: 200
        }
    );
    assert_eq!(a.failed("again".to_string()), RetryStep::GiveUp);
    assert_eq!(a.retries, 2);
    assert_eq!(a.last_error.as_deref(), Some("again"));
    assert_eq!(a.answered(503), RetryStep::Accept);
    let mut b = Attempts::new(2, 100);
    assert_eq!(b.answered(404), RetryStep::Accept);
    assert_eq!(b.retries, 0);
}

#[test]
fn pages_give_their_title_and_selection() {
    let body = b"<title>T</title><p>a</p><p class=x>b</p>";
    assert_eq!(page_title(body), "T");
    assert_eq!(page_title(b"<p>"), "");
    assert_eq!(page_selection(body, None, None), None);
    assert_eq!(
        page_selection(body, Some("p"), None),
        Some(vec!["a".to_string(), "b".to_string()])
    );
    assert_eq!(
        page_selection(body, Some("p"), Some("class")),
        Some(vec!["x".to_string()])
    );
    assert_eq!(page_selection(b"\xff", Some("p"), None), None);
}

#[test]
fn rows_are_sorted_by_worker_and_url() {
    let mut rows = vec![
        row("https://c", "1", 0, 0),
        row("https://a", "2", 0, 0),
        row("https://b", "3", 0, 0),
        row("https://a", "4", 0, 0),
    ];
    rows[0].worker = 1;
    let out = sort_rows(rows);
    let titles: Vec<&str> = out.iter().map(|r| r.title.as_str()).collect();
    assert_eq!(titles, vec!["2", "4", "3", "1"]);
    assert_eq!(worker_of(7, 3), 1);
    assert_eq!(worker_of(7, 0), 0);
}

#[test]
fn urls_are_queued_in_order() {
    let events = queue(&vec!["a".to_string(), "b".to_string()]);
    assert!(matches!(&events[0], ScrapeEvent::Queued { url, index: 0 } if url == "a"));
    assert!(matches!(&events[1], ScrapeEvent::Queued { url, index: 1 } if url == "b"));
    assert_eq!(events.len(), 2);
}

#[test]
fn urls_run_until_an_answer_stands() {
    let mut run = UrlRun::new("https://a/".to_string(), 5, 3, 1, 100);
    assert_eq!(run.worker, 2);
    assert!(matches!(
        run.started(),
        ScrapeEvent::RequestStart { attempt: 0, .. }
    ));
    let (events, step) = run.answered(503, 7, 20);
    assert_eq!(
        step,
        RetryStep::Wait {
            attempt: 0,
            backoff_ms: 100
        }
    );
    assert!(matches!(
        events[0],
        ScrapeEvent::Response {
            status: 503,
            body_size: 7,
            latency_ms: 20,
            ..
        }
    ));
    assert!(matches!(
        events[1],
        ScrapeEvent::BackoffStart {
            attempt: 0,
            backoff_ms: 100,
            ..
        }
    ));
    assert!(matches!(
        run.started(),
        ScrapeEvent::RequestStart { attempt: 1, .. }
    ));
    let (events, step) = run.answered(200, 7, 20);
    assert_eq!((events.len(), step), (1, RetryStep::Accept));
    let body = b"<title>T</title><p>x</p>";
    let (event, row) = run.completed(200, body, Some("1".to_string()), Some("p"), None, 55);
    assert!(matches!(
        event,
        ScrapeEvent::Completed {
            final_status: 200,
            total_time_ms: 55,
            retries: 1,
            ..
        }
    ));
    assert_eq!(row.title, "T");
    assert_eq!(row.selected, Some(vec!["x".to_string()]));
    assert_eq!((row.status, row.retries, row.worker), (200, 1, 2));
}

#[test]
fn urls_that_never_answer_fail() {
    let mut run = UrlRun::new("u".to_string(), 1, 3, 0, 100);
    let (events, step) = run.failed("reset".to_string());
    assert_eq!((events.len(), step), (0, RetryStep::GiveUp));
    let (event, row) = run.gave_up(9);
    match event {
        ScrapeEvent::Failed {
            url,
            error,
            attempts,
        } => assert_eq!((url.as_str(), error.as_str(), attempts), ("u", "reset", 1)),
        _ => panic!("expected Failed"),
    }
    assert_eq!(
        (row.status, row.retries, row.time_ms, row.worker),
        (0, 0, 9, 1)
    );
}

// ---- the live view ----

fn ev_queued(url: &str, idx: usize) -> ScrapeEvent {
    ScrapeEvent::Queued {
        url: url.to_string(),
        index: idx,
    }
}
fn ev_request(url: &str, attempt: u32) -> ScrapeEvent {
    ScrapeEvent::RequestStart {
        url: url.to_string(),
        attempt,
    }
}
fn ev_completed(url: &str, status: u16, ms: u64) -> ScrapeEvent {
    ScrapeEvent::Completed {
        url: url.to_string(),
        final_status: status,
        title: "ok".into(),
        total_time_ms: ms,
        retries: 0,
        eval: None,
    }
}
fn ev_failed(url: &str) -> ScrapeEvent {
    ScrapeEvent::Failed {
        url: url.to_string(),
        error: "boom".into(),
        attempts: 1,
    }
}

fn state_of<'a>(s: &'a AppState, url: &str) -> &'a UrlState {
    s.url_state(url).expect("a known URL")
}

#[test]
fn queued_event_inserts_url_in_phase_queued() {
    let mut s = AppState::new(2, 0);
    s.apply(ev_queued("https://a", 0), 0);
    s.apply(ev_queued("https://b", 1), 0);
    assert_eq!(s.url_count(), 2);
    assert_eq!(state_of(&s, "https://a").phase, Phase::Queued);
    assert_eq!(state_of(&s, "https://b").phase, Phase::Queued);
    assert_eq!(s.active, 0);
    assert_eq!(s.completed, 0);
}

#[test]
fn request_start_increments_active_and_attempts() {
    let mut s = AppState::new(1, 0);
    s.apply(ev_queued("https://a", 0), 0);
    s.apply(ev_request("https://a", 0), 0);
    assert_eq!(state_of(&s, "https://a").phase, Phase::InFlight);
    assert_eq!(state_of(&s, "https://a").attempts, 1);
    assert_eq!(s.active, 1);
    s.apply(ev_request("https://a", 1), 0);
    assert_eq!(state_of(&s, "https://a").attempts, 2);
    assert_eq!(s.active, 1);
}

#[test]
fn completed_decrements_active_and_records_stats() {
    let mut s = AppState::new(1, 0);
    s.apply(ev_queued("https://a", 0), 0);
    s.apply(ev_request("https://a", 0), 0);
    s.apply(ev_completed("https://a", 200, 142), 0);
    assert_eq!(state_of(&s, "https://a").phase, Phase::Done);
    assert_eq!(state_of(&s, "https://a").status, Some(200));
    assert_eq!(state_of(&s, "https://a").latency_ms, Some(142));
    assert_eq!(s.active, 0);
    assert_eq!(s.completed, 1);
    assert_eq!(s.status_hist.get(&200), Some(&1));
    assert_eq!(s.latencies, vec![142]);
}

#[test]
fn failed_decrements_active_and_increments_failed_count() {
    let mut s = AppState::new(1, 0);
    s.apply(ev_queued("https://a", 0), 0);
    s.apply(ev_request("https://a", 0), 0);
    s.apply(ev_failed("https://a"), 0);
    assert_eq!(state_of(&s, "https://a").phase, Phase::Failed);
    assert_eq!(s.failed, 1);
    assert_eq!(s.active, 0);
}

#[test]
fn completed_after_failed_doesnt_double_count() {
    let mut s = AppState::new(1, 0);
    s.apply(ev_queued("https://a", 0), 0);
    s.apply(ev_request("https://a", 0), 0);
    s.apply(ev_completed("https://a", 200, 100), 0);
    s.apply(ev_completed("https://a", 200, 100), 0);
    assert_eq!(s.completed, 1);
}

#[test]
fn repeated_completions_count_once() {
    let mut s = AppState::new(1, 0);
    s.apply(ev_queued("https://a", 0), 0);
    s.apply(ev_request("https://a", 0), 0);
    s.apply(ev_completed("https://a", 200, 100), 0);
    s.apply(ev_completed("https://a", 200, 100), 0);
    assert_eq!((s.completed, s.active), (1, 0));
    assert_eq!(s.status_hist.get(&200), Some(&1));
    assert_eq!(s.status_hist.len(), 1);
    assert_eq!(s.latencies, vec![100]);
}

#[test]
fn status_histogram_aggregates_by_code() {
    let mut s = AppState::new(3, 0);
    for url in ["https://a", "https://b", "https://c"] {
        s.apply(ev_queued(url, 0), 0);
        s.apply(ev_request(url, 0), 0);
    }
    s.apply(ev_completed("https://a", 200, 50), 0);
    s.apply(ev_completed("https://b", 200, 60), 0);
    s.apply(ev_completed("https://c", 503, 70), 0);
    assert_eq!(s.status_hist.get(&200), Some(&2));
    assert_eq!(s.status_hist.get(&503), Some(&1));
}

#[test]
fn percentile_handles_known_distributions() {
    let v: Vec<u64> = (1..=100).collect();
    assert_eq!(percentile(&v, 50), Some(51));
    assert_eq!(percentile(&v, 95), Some(95));
    assert_eq!(percentile(&v, 100), Some(100));
    assert_eq!(percentile(&v, 0), Some(1));
}

#[test]
fn percentile_empty_returns_none() {
    let v: Vec<u64> = vec![];
    assert_eq!(percentile(&v, 50), None);
}

#[test]
fn percentile_single_value() {
    let v = vec![42u64];
    assert_eq!(percentile(&v, 50), Some(42));
    assert_eq!(percentile(&v, 95), Some(42));
}

#[test]
fn latency_stats_after_three_completions() {
    let mut s = AppState::new(3, 0);
    s.apply(ev_completed("https://a", 200, 100), 0);
    s.apply(ev_completed("https://b", 200, 200), 0);
    s.apply(ev_completed("https://c", 200, 300), 0);
    let (p50, p95, max) = s.latency_stats();
    assert_eq!(p50, Some(200));
    assert_eq!(p95, Some(300));
    assert_eq!(max, Some(300));
}

#[test]
fn truncate_handles_short_and_long_strings() {
    assert_eq!(truncate("abc", 10), "abc");
    assert_eq!(truncate("abcdefghij", 5), "abcd…");
}

#[test]
fn percentiles_are_those_of_floating_point() {
    for n in 1..400usize {
        let v: Vec<u64> = (0..n as u64).collect();
        for p in 0..=100u32 {
            let at = ((n as f64 - 1.0) * p as f64 / 100.0).round() as u64;
            assert_eq!(percentile(&v, p), Some(at), "n={n} p={p}");
        }
        for (p, q) in [(50, 0.50), (95, 0.95)] {
            let at = ((n as f64 - 1.0) * q).round() as u64;
            assert_eq!(percentile(&v, p), Some(at), "n={n} p={p}");
        }
    }
    assert_eq!(percentile(&[1, 2], 1000), Some(2));
}

#[test]
fn throughput_forgets_what_is_old() {
    let mut s = AppState::new(3, 1_000);
    s.apply(ev_failed("https://a"), 2_000);
    s.apply(ev_failed("https://b"), 9_000);
    assert_eq!(s.throughput_now(9_500), (2, 8_500));
    assert_eq!(s.throughput_now(12_500), (1, 10_000));
    assert_eq!(s.throughput.len(), 1);
    assert_eq!(s.throughput_now(19_001), (0, 10_000));
}

#[test]
fn keys_move_the_mark_and_quit() {
    let mut s = AppState::new(3, 0);
    handle_key(Key::Down, &mut s);
    assert_eq!(s.selected, 0);
    for i in 0..15 {
        s.apply(ev_queued(&format!("https://{i}"), i), 0);
    }
    handle_key(Key::Char('j'), &mut s);
    handle_key(Key::PageDown, &mut s);
    assert_eq!(s.selected, 11);
    handle_key(Key::PageDown, &mut s);
    assert_eq!(s.selected, 14);
    handle_key(Key::Up, &mut s);
    handle_key(Key::Char('k'), &mut s);
    assert_eq!(s.selected, 12);
    handle_key(Key::PageUp, &mut s);
    handle_key(Key::PageUp, &mut s);
    assert_eq!(s.selected, 0);
    handle_key(Key::Other, &mut s);
    handle_key(Key::Char('x'), &mut s);
    assert!(!s.quit);
    handle_key(Key::Char('q'), &mut s);
    assert!(s.quit);
}

#[test]
fn rows_and_headings_are_written_out() {
    let mut s = AppState::new(2, 0);
    s.apply(ev_queued("https://a", 0), 0);
    assert_eq!(s.header_text(), " bouncy scrape — 0/2 done · 0 active ");
    let (phase, before, url, after) = s.row(0);
    assert_eq!(phase, Phase::Queued);
    assert_eq!(url, "https://a");
    assert_eq!(before, "  ···       —  ");
    assert_eq!(after, "");
    s.apply(ev_request("https://a", 1), 0);
    s.apply(
        ScrapeEvent::Response {
            url: "https://a".to_string(),
            status: 503,
            body_size: 0,
            latency_ms: 1,
        },
        0,
    );
    s.apply(
        ScrapeEvent::BackoffStart {
            url: "https://a".to_string(),
            attempt: 1,
            backoff_ms: 5,
        },
        0,
    );
    assert_eq!(s.row(0).0, Phase::BackingOff);
    assert_eq!(s.row(0).1, "  503       — (try 2)  ");
    s.apply(ev_completed("https://a", 200, 1234), 0);
    s.finished = true;
    assert_eq!(
        s.header_text(),
        " bouncy scrape — 1/2 done · 0 active · ✔ finished "
    );
    let (_, before, _, after) = s.row(0);
    assert_eq!(before, "  200  1234ms (try 2)  ");
    assert_eq!(after, "  \"ok\"");
}
