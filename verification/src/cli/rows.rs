//! What comes of scraping, page by page.
use crate::cli::scrape::{
    backoff, backoff_ms, event_views, format_summary, is_transient_status, page_selection,
    page_title, queue, report_json, row_json, row_views, rows_text, sort_rows, sorted_rows,
    sorting_sorts, worker_of, Admission, Attempts, EventModel, HostLimiter, RetryStep, RowModel,
    ScrapeEvent, ScrapeRow, UrlRun,
};
use crate::extract::extract_title;
use crate::json::laws::{says, says_nothing};
use crate::json::{pretty_text, JsonModel};
use crate::select::{select_attr, select_text};
use crate::sort::text_le;
use crate::text::{ascii_lower, decimal, joined, views};
use vstd::arithmetic::power2::{lemma2_to64, lemma_pow2_unfold, pow2};
use vstd::prelude::*;
use vstd::string::*;
use vstd::utf8::encode_utf8;

verus! {

// ---- retries ---------------------------------------------------------------------

/// The statuses that may pass: a timeout, too many requests, and every server error.
pub proof fn passing_statuses(status: u16, r: bool)
    requires
        call_ensures(is_transient_status, (status,), r),
    ensures
        r <==> status == 408 || status == 429 || 500 <= status < 600,
{
}

/// Waits double, from the one that was asked for up to half a minute.
pub proof fn waits_double(base_ms: u64, n: u32, a: u64, first: u64, b: u64)
    requires
        n < u32::MAX,
        call_ensures(backoff_ms, (base_ms, 0u32), first),
        call_ensures(backoff_ms, (base_ms, n), a),
        call_ensures(backoff_ms, (base_ms, (n + 1) as u32), b),
    ensures
        base_ms < 30_000 ==> first == base_ms,
        base_ms >= 30_000 ==> first == 30_000,
        2 * a < 30_000 ==> b == 2 * a,
        2 * a >= 30_000 ==> b == 30_000,
{
    lemma2_to64();
    lemma_pow2_unfold((n + 1) as nat);
    let x = base_ms as nat;
    let p = pow2(n as nat);
    let q = pow2((n + 1) as nat);
    assert(q == 2 * p);
    assert(x * q == 2 * (x * p)) by (nonlinear_arith)
        requires
            q == 2 * p,
    ;
    assert(x * 1 == x);
}

/// A status that may pass is tried again as long as tries are left, after the wait that is
/// due; any other, or the last, is accepted.
pub proof fn passing_answers_are_tried_again(a: &mut Attempts, status: u16, r: RetryStep, due: u64)
    requires
        call_ensures(Attempts::answered, (a, status), r),
        call_ensures(backoff_ms, (old(a).delay_ms, old(a).retries), due),
    ensures
        (status == 408 || status == 429 || 500 <= status < 600) && old(a).retries < old(a).retry
            ==> r == (RetryStep::Wait { attempt: old(a).retries, backoff_ms: due })
            && final(a).retries == old(a).retries + 1,
        !(status == 408 || status == 429 || 500 <= status < 600) || old(a).retries
            >= old(a).retry ==> r == RetryStep::Accept && final(a).retries == old(a).retries,
        final(a).retry == old(a).retry && final(a).delay_ms == old(a).delay_ms,
        final(a).last_error == old(a).last_error,
{
}

/// A failure is tried again in the same way, and is given up with the last try; what went
/// wrong is kept.
pub proof fn failures_are_tried_again(a: &mut Attempts, error: String, r: RetryStep, due: u64)
    requires
        call_ensures(Attempts::failed, (a, error), r),
        call_ensures(backoff_ms, (old(a).delay_ms, old(a).retries), due),
    ensures
        old(a).retries < old(a).retry ==> r == (RetryStep::Wait {
            attempt: old(a).retries,
            backoff_ms: due,
        }) && final(a).retries == old(a).retries + 1,
        old(a).retries >= old(a).retry ==> r == RetryStep::GiveUp && final(a).retries
            == old(a).retries,
        final(a).last_error == Some(error),
        final(a).retry == old(a).retry && final(a).delay_ms == old(a).delay_ms,
{
}

/// At first nothing has been tried.
pub proof fn tries_start_at_none(retry: u32, delay_ms: u64, r: Attempts)
    requires
        call_ensures(Attempts::new, (retry, delay_ms), r),
    ensures
        r.retry == retry && r.delay_ms == delay_ms && r.retries == 0 && r.last_error is None,
{
}

// ---- one host at a time ------------------------------------------------------------

/// A place that is taken is given back: what a host had before, in whatever case its name
/// is written, it has again, and no other host is touched.
pub proof fn places_are_given_back(
    a: &mut HostLimiter,
    host: &str,
    r: Admission,
    b: &mut HostLimiter,
    same: &str,
    other: Seq<char>,
)
    requires
        call_ensures(HostLimiter::acquire, (a, Some(host)), r),
        r == Admission::Admitted,
        *old(b) == *final(a),
        ascii_lower(same@) == ascii_lower(host@),
        call_ensures(HostLimiter::release, (b, same), ()),
    ensures
        crate::cli::scrape::places(final(b).busy@, other) == crate::cli::scrape::places(
            old(a).busy@,
            other,
        ),
        crate::cli::scrape::places(final(a).busy@, ascii_lower(host@))
            == crate::cli::scrape::places(old(a).busy@, ascii_lower(host@)) + 1,
        final(b).limit == old(a).limit,
{
}

/// A host is admitted if and only if it has fewer places than the limit; a URL without one
/// always is.
pub proof fn hosts_are_held_to_their_limit(a: &mut HostLimiter, host: &str, r: Admission)
    requires
        call_ensures(HostLimiter::acquire, (a, Some(host)), r),
    ensures
        crate::cli::scrape::places(old(a).busy@, ascii_lower(host@)) < old(a).limit <==> r
            == Admission::Admitted,
        crate::cli::scrape::places(old(a).busy@, ascii_lower(host@)) >= old(a).limit <==> r
            == Admission::Full,
{
}

/// There is always room for one, and at first no host has a place.
pub proof fn limits_are_at_least_one(limit: usize, r: HostLimiter, host: Seq<char>)
    requires
        call_ensures(HostLimiter::new, (limit,), r),
    ensures
        limit > 0 ==> r.limit == limit,
        limit == 0 ==> r.limit == 1,
        crate::cli::scrape::places(r.busy@, host) == 0,
{
}

// ---- pages -------------------------------------------------------------------------

/// Every URL is queued, in order, under its place.
pub proof fn every_url_is_queued(urls: &Vec<String>, r: Vec<ScrapeEvent>, i: int)
    requires
        call_ensures(queue, (urls,), r),
    ensures
        r@.len() == urls@.len(),
        0 <= i < r@.len() ==> r@[i] is Queued && r@[i]->Queued_url@ == urls@[i]@ && r@[i]->index
            == i,
{
    assert(event_views(r@).len() == r@.len());
    assert(urls.len() == urls@.len());
    if 0 <= i < r@.len() {
        assert(event_views(r@)[i] == r@[i]@);
    }
}

/// The workers take turns.
pub proof fn workers_take_turns(index: usize, concurrency: usize, r: usize)
    requires
        call_ensures(worker_of, (index, concurrency), r),
    ensures
        concurrency > 0 ==> r < concurrency && exists|k: int|
            #![trigger k * concurrency as int]
            k >= 0 && index == k * concurrency as int + r,
        concurrency == 0 ==> r == 0,
{
    if concurrency > 0 {
        let c = concurrency as int;
        let k = index as int / c;
        vstd::arithmetic::div_mod::lemma_fundamental_div_mod(index as int, c);
        vstd::arithmetic::div_mod::lemma_mod_bound(index as int, c);
        vstd::arithmetic::div_mod::lemma_div_pos_is_pos(index as int, c);
        assert(c * k == k * c) by (nonlinear_arith);
    }
}

/// The title of a scraped page is the one that its bytes give, or none.
pub proof fn titles_are_those_of_the_page(
    body: &[u8],
    r: String,
    title: Result<Option<String>, crate::extract::Error>,
)
    requires
        call_ensures(page_title, (body,), r),
        call_ensures(extract_title, (body,), title),
    ensures
        title matches Ok(Some(t)) ==> r@ == t@,
        title is Err ==> r@.len() == 0,
        title matches Ok(None) ==> r@.len() == 0,
{
}

/// What is selected of a scraped page is what the selector gives on its text.
pub proof fn selections_are_those_of_the_page(
    body: &[u8],
    html: &str,
    selector: &str,
    attr: &str,
    r: Option<Vec<String>>,
    found: Result<Vec<String>, crate::dom::Error>,
    r2: Option<Vec<String>>,
    found2: Result<Vec<String>, crate::dom::Error>,
    none: Option<Vec<String>>,
)
    requires
        body@ == encode_utf8(html@),
        call_ensures(page_selection, (body, Some(selector), None::<&str>), r),
        call_ensures(select_text, (html, selector), found),
        call_ensures(page_selection, (body, Some(selector), Some(attr)), r2),
        call_ensures(select_attr, (html, selector, attr), found2),
        call_ensures(page_selection, (body, None::<&str>, None::<&str>), none),
    ensures
        r is Some <==> found is Ok,
        r is Some ==> views(r->0@) == views(found->Ok_0@),
        r2 is Some <==> found2 is Ok,
        r2 is Some ==> views(r2->0@) == views(found2->Ok_0@),
        none is None,
{
    vstd::utf8::encode_utf8_valid_utf8(html@);
    assert forall|h: Seq<char>| body@ == #[trigger] encode_utf8(h) implies h == html@ by {
        vstd::utf8::encode_utf8_decode_utf8(h);
        vstd::utf8::encode_utf8_decode_utf8(html@);
    }
}

/// A page that was had is reported with its URL, its status, its title, how long it took,
/// who fetched it and how often it was tried again.
pub proof fn pages_are_reported(
    run: UrlRun,
    status: u16,
    body: &[u8],
    eval: Option<String>,
    select: Option<&str>,
    attr: Option<&str>,
    time_ms: u64,
    r: (ScrapeEvent, ScrapeRow),
    title: String,
    selected: Option<Vec<String>>,
)
    requires
        call_ensures(UrlRun::completed, (run, status, body, eval, select, attr, time_ms), r),
        call_ensures(page_title, (body,), title),
    ensures
        r.0 is Completed,
        r.0->Completed_url@ == run.url@ && r.1.url@ == run.url@,
        r.0->final_status == status && r.1.status == status,
        r.0->title@ == title@ && r.1.title@ == title@,
        r.0->total_time_ms == time_ms && r.1.time_ms == time_ms,
        r.0->retries == run.attempts.retries && r.1.retries == run.attempts.retries,
        r.1.worker == run.worker,
        crate::dom::text_view(r.0->eval) == crate::dom::text_view(eval),
        crate::dom::text_view(r.1.eval) == crate::dom::text_view(eval),
        select is None ==> r.1.selected is None,
{
    assert(r.1@.url == r.1.url@ && r.1@.title == r.1.title@);
    assert(r.1@.eval == crate::dom::text_view(r.1.eval));
}

/// A page that was not had is reported with status 0, the last error and the number of
/// tries.
pub proof fn lost_pages_are_reported(run: UrlRun, time_ms: u64, r: (ScrapeEvent, ScrapeRow))
    requires
        call_ensures(UrlRun::gave_up, (run, time_ms), r),
    ensures
        r.0 is Failed,
        r.0->Failed_url@ == run.url@ && r.1.url@ == run.url@,
        run.attempts.last_error matches Some(e) ==> r.0->error@ == e@,
        run.attempts.retries < u32::MAX ==> r.0->attempts == run.attempts.retries + 1,
        r.1.status == 0 && r.1.title@.len() == 0 && r.1.eval is None && r.1.selected is None,
        r.1.time_ms == time_ms && r.1.worker == run.worker && r.1.retries == run.attempts.retries,
{
    assert(r.1@.url == r.1.url@ && r.1@.title == r.1.title@);
    assert(r.1@.eval == crate::dom::text_view(r.1.eval));
}

/// A try begins under its number; its answer is told, and so is the wait behind it.
pub proof fn tries_are_told(
    run: &mut UrlRun,
    began: ScrapeEvent,
    status: u16,
    body_size: usize,
    latency_ms: u64,
    r: (Vec<ScrapeEvent>, RetryStep),
)
    requires
        call_ensures(UrlRun::started, (&*old(run),), began),
        call_ensures(UrlRun::answered, (run, status, body_size, latency_ms), r),
    ensures
        began is RequestStart && began->RequestStart_url@ == old(run).url@
            && began->RequestStart_attempt == old(run).attempts.retries,
        r.0@.len() >= 1,
        r.0@[0] is Response && r.0@[0]->Response_url@ == old(run).url@ && r.0@[0]->status == status
            && r.0@[0]->body_size == body_size && r.0@[0]->latency_ms == latency_ms,
        r.1 matches RetryStep::Wait { attempt, backoff_ms } ==> r.0@.len() == 2
            && r.0@[1] is BackoffStart && r.0@[1]->BackoffStart_url@ == old(run).url@
            && r.0@[1]->BackoffStart_attempt == attempt && r.0@[1]->backoff_ms == backoff_ms,
        !(r.1 is Wait) ==> r.0@.len() == 1,
        final(run).url == old(run).url && final(run).worker == old(run).worker,
{
    assert(began@ is RequestStart);
    let v = event_views(r.0@);
    assert(v.len() == r.0@.len());
    assert(v[0] == r.0@[0]@);
    if r.1 is Wait {
        assert(v[1] == r.0@[1]@);
    }
}

// ---- rows --------------------------------------------------------------------------

/// Rows that are sorted are the same rows, by worker and, for one worker, by URL.
pub proof fn rows_are_sorted(rows: Vec<ScrapeRow>, r: Vec<ScrapeRow>, i: int, j: int)
    requires
        call_ensures(sort_rows, (rows,), r),
        0 <= i < j < r@.len(),
    ensures
        r@[i].worker <= r@[j].worker,
        r@[i].worker == r@[j].worker ==> text_le(r@[i].url@, r@[j].url@),
        row_views(r@).to_multiset() == row_views(rows@).to_multiset(),
{
    sorting_sorts(row_views(rows@));
    let s = sorted_rows(row_views(rows@));
    assert(s == row_views(r@));
    assert(s[i] == r@[i]@ && s[j] == r@[j]@);
}

/// Texts are ordered by their first difference.
pub proof fn texts_are_ordered_by_first_difference(
    p: Seq<char>,
    a: Seq<char>,
    b: Seq<char>,
)
    ensures
        a.len() > 0 && b.len() > 0 && a[0] != b[0] ==> (text_le(p + a, p + b) <==> a[0] < b[0]),
        a.len() == 0 ==> text_le(p + a, p + b),
        a.len() > 0 && b.len() == 0 ==> !text_le(p + a, p + b),
    decreases p.len(),
{
    if p.len() == 0 {
        assert(p + a =~= a);
        assert(p + b =~= b);
    } else {
        let q = p.skip(1);
        texts_are_ordered_by_first_difference(q, a, b);
        assert((p + a).skip(1) =~= q + a);
        assert((p + b).skip(1) =~= q + b);
        assert((p + a)[0] == (p + b)[0]);
    }
}

/// The text of a row: its time, its URL and its title between tabs, and what was selected.
pub open spec fn row_line(r: RowModel) -> Seq<char> {
    decimal(r.time_ms as nat) + "ms\t"@ + r.url + "\t"@ + r.title + (match r.selected {
        Some(v) => "\t"@ + joined(v, ", "@),
        None => seq![],
    }) + "\n"@
}

/// A report in text has a line for each row, in order.
pub proof fn reports_have_a_line_for_each_row(
    rows: &Vec<ScrapeRow>,
    format: &str,
    total_time_ms: u64,
    concurrency: usize,
    avg_time_ms: &str,
    r: String,
)
    requires
        call_ensures(format_summary, (rows, format, total_time_ms, concurrency, avg_time_ms), r),
        format@ == "text"@,
    ensures
        r@ == row_views(rows@).map_values(|m: RowModel| row_line(m)).flatten(),
{
    lines_are_flat(row_views(rows@));
}

proof fn lines_are_flat(s: Seq<RowModel>)
    ensures
        rows_text(s) == s.map_values(|m: RowModel| row_line(m)).flatten(),
    decreases s.len(),
{
    let f = |m: RowModel| row_line(m);
    if s.len() == 0 {
        assert(s.map_values(f) =~= seq![]);
    } else {
        lines_are_flat(s.drop_last());
        let before = s.drop_last().map_values(f);
        assert(s.map_values(f) =~= before.push(f(s.last())));
        before.lemma_flatten_push(f(s.last()));
        assert(rows_text(s) =~= rows_text(s.drop_last()) + row_line(s.last()));
    }
}

/// What a row says in JSON.
pub proof fn rows_say_everything(m: RowModel)
    ensures
        says(row_json(m), "url"@, JsonModel::Text(m.url)),
        says(row_json(m), "title"@, JsonModel::Text(m.title)),
        m.eval matches Some(e) ==> says(row_json(m), "eval"@, JsonModel::Text(e)),
        m.eval is None ==> says(row_json(m), "eval"@, JsonModel::Null),
        says(row_json(m), "time_ms"@, JsonModel::Unsigned(m.time_ms)),
        says(row_json(m), "worker"@, JsonModel::Unsigned(m.worker as u64)),
        says(row_json(m), "retries"@, JsonModel::Unsigned(m.retries as u64)),
        says(row_json(m), "status"@, JsonModel::Unsigned(m.status as u64)),
        m.selected is None ==> says_nothing(row_json(m), "selected"@),
        m.selected matches Some(v) ==> says(
            row_json(m),
            "selected"@,
            JsonModel::Array(v.map_values(|s: Seq<char>| JsonModel::Text(s))),
        ),
{
    reveal_strlit("url");
    reveal_strlit("title");
    reveal_strlit("eval");
    reveal_strlit("time_ms");
    reveal_strlit("worker");
    reveal_strlit("retries");
    reveal_strlit("status");
    reveal_strlit("selected");
    assert("url"@.len() == 3 && "title"@.len() == 5 && "eval"@.len() == 4);
    assert("time_ms"@.len() == 7 && "worker"@.len() == 6 && "retries"@.len() == 7);
    assert("status"@.len() == 6 && "selected"@.len() == 8);
    assert("time_ms"@[0] == 't' && "retries"@[0] == 'r');
    assert("worker"@[0] == 'w' && "status"@[0] == 's');
    let j = row_json(m);
    assert(j->Object_0[0].0 == "url"@);
    assert(j->Object_0[1].0 == "title"@);
    assert(j->Object_0[2].0 == "eval"@);
    assert(j->Object_0[3].0 == "time_ms"@);
    assert(j->Object_0[4].0 == "worker"@);
    assert(j->Object_0[5].0 == "retries"@);
    assert(j->Object_0[6].0 == "status"@);
    if m.selected is Some {
        assert(j->Object_0[7].0 == "selected"@);
    }
}

/// A report in JSON says how many URLs there were, how many at a time, how long all took
/// and how long one on average, and has every row, in order.
pub proof fn reports_say_everything(
    rows: &Vec<ScrapeRow>,
    format: &str,
    total_time_ms: u64,
    concurrency: usize,
    avg_time_ms: &str,
    r: String,
)
    requires
        call_ensures(format_summary, (rows, format, total_time_ms, concurrency, avg_time_ms), r),
        format@ != "text"@,
    ensures
        exists|j: JsonModel|
            {
                &&& r@ == #[trigger] pretty_text(j, seq![]) + "\n"@
                &&& says(j, "total_urls"@, JsonModel::Unsigned(rows@.len() as u64))
                &&& says(j, "concurrency"@, JsonModel::Unsigned(concurrency as u64))
                &&& says(j, "total_time_ms"@, JsonModel::Unsigned(total_time_ms))
                &&& says(j, "avg_time_ms"@, JsonModel::Decimal(avg_time_ms@))
                &&& says(
                    j,
                    "results"@,
                    JsonModel::Array(row_views(rows@).map_values(|m: RowModel| row_json(m))),
                )
            },
{
    reveal_strlit("total_urls");
    reveal_strlit("concurrency");
    reveal_strlit("total_time_ms");
    reveal_strlit("avg_time_ms");
    reveal_strlit("results");
    assert("total_urls"@.len() == 10 && "concurrency"@.len() == 11 && "total_time_ms"@.len()
        == 13);
    assert("avg_time_ms"@.len() == 11 && "results"@.len() == 7);
    assert("concurrency"@[0] == 'c' && "avg_time_ms"@[0] == 'a');
    let j = report_json(row_views(rows@), total_time_ms, concurrency, avg_time_ms@);
    assert(row_views(rows@).len() == rows@.len());
    assert(j->Object_0[0].0 == "total_urls"@);
    assert(j->Object_0[1].0 == "concurrency"@);
    assert(j->Object_0[2].0 == "total_time_ms"@);
    assert(j->Object_0[3].0 == "avg_time_ms"@);
    assert(j->Object_0[4].0 == "results"@);
    assert(r@ == pretty_text(j, seq![]) + "\n"@);
}

/// The host of a URL is its own, in lower case.
pub proof fn hosts_are_in_lower_case(url: &str, r: Option<String>)
    requires
        call_ensures(crate::cli::scrape::host_of, (url,), r),
    ensures
        r is Some <==> crate::urls::parsed_url(url@) is Some && crate::urls::parsed_url(
            url@,
        )->0.host is Some,
        r matches Some(h) ==> h@ == ascii_lower(crate::urls::parsed_url(url@)->0.host->0),
{
}

/// A page that leads on is asked for with GET, up to ten times.
pub proof fn pages_are_followed(
    hops: &mut u32,
    pending: Option<String>,
    r: Option<crate::fetch::client::FetchRequest>,
)
    requires
        call_ensures(crate::cli::request::follow, (hops, pending), r),
    ensures
        r is Some <==> pending is Some && *old(hops) < 10,
        r matches Some(q) ==> q.url@ == pending->0@ && q.method@ == "GET"@ && q.body@.len() == 0
            && *final(hops) == *old(hops) + 1,
        r is None ==> *final(hops) == *old(hops),
{
    if r is Some {
        let q = r->0;
        assert(q@.url == q.url@ && q@.method == q.method@ && q@.body == q.body@);
    }
}

/// Texts that are sorted are the same texts, in order.
pub proof fn texts_are_sorted(v: &mut Vec<String>, i: int, j: int)
    requires
        call_ensures(crate::sort::sort_texts, (v,), ()),
        0 <= i < j < final(v)@.len(),
    ensures
        text_le(final(v)@[i]@, final(v)@[j]@),
        views(final(v)@).to_multiset() == views(old(v)@).to_multiset(),
{
    let s = views(final(v)@);
    assert(s[i] == final(v)@[i]@ && s[j] == final(v)@[j]@);
    assert(text_le(s[i], s[j]));
}

} // verus!
