//! What the dashboard shows, in terms of what has happened.
use crate::cli::dashboard::{
    consistent, counted, cut, entered, fresh, handle_key, percentile, ranked, recent, truncate,
    url_at, url_pos, AppModel, AppState, Key, Phase, UrlModel, UrlState,
};
use crate::cli::scrape::ScrapeEvent;
use crate::webarena::summary::at_most;
use vstd::prelude::*;
use vstd::relations::{sorted_by, total_ordering};
use vstd::string::*;

verus! {

/// The URL stands at this place, and at none before it.
pub open spec fn stands(urls: Seq<(Seq<char>, UrlModel)>, url: Seq<char>, i: int) -> bool {
    &&& 0 <= i < urls.len()
    &&& urls[i].0 == url
    &&& forall|j: int| 0 <= j < i ==> (#[trigger] urls[j]).0 != url
}

proof fn pos_is_first(urls: Seq<(Seq<char>, UrlModel)>, url: Seq<char>)
    ensures
        0 <= url_pos(urls, url) <= urls.len(),
        url_pos(urls, url) < urls.len() ==> stands(urls, url, url_pos(urls, url)),
        forall|j: int| 0 <= j < url_pos(urls, url) ==> (#[trigger] urls[j]).0 != url,
    decreases urls.len(),
{
    if urls.len() > 0 && urls[0].0 != url {
        pos_is_first(urls.skip(1), url);
        assert forall|j: int| 0 <= j < url_pos(urls, url) implies (#[trigger] urls[j]).0 != url by {
            if j > 0 {
                assert(urls.skip(1)[j - 1] == urls[j]);
            }
        }
    }
}

proof fn standing_is_pos(urls: Seq<(Seq<char>, UrlModel)>, url: Seq<char>, i: int)
    requires
        stands(urls, url, i),
    ensures
        url_pos(urls, url) == i,
{
    pos_is_first(urls, url);
    let k = url_pos(urls, url);
    if i < k {
        assert(urls[i].0 != url);
    }
    if k < i {
        assert(urls[k].0 != url);
    }
}

proof fn entering(urls: Seq<(Seq<char>, UrlModel)>, url: Seq<char>)
    ensures
        ({
            let e = entered(urls, url);
            let k = url_pos(e, url);
            &&& stands(e, url, k)
            &&& e.len() >= urls.len()
            &&& forall|j: int| 0 <= j < urls.len() ==> #[trigger] e[j] == urls[j]
            &&& url_pos(urls, url) < urls.len() ==> e == urls
            &&& url_pos(urls, url) == urls.len() ==> k == urls.len() && e[k].1 == fresh()
        }),
{
    pos_is_first(urls, url);
    let e = entered(urls, url);
    pos_is_first(e, url);
    if url_pos(urls, url) == urls.len() {
        let n: int = urls.len() as int;
        assert(e[n].0 == url);
        assert forall|j: int| 0 <= j < n implies (#[trigger] e[j]).0 != url by {
            assert(e[j] == urls[j]);
        }
        standing_is_pos(e, url, n);
    }
}

/// The URL of an event.
pub open spec fn event_url(ev: ScrapeEvent) -> Seq<char> {
    match ev {
        ScrapeEvent::Queued { url, .. } => url@,
        ScrapeEvent::RequestStart { url, .. } => url@,
        ScrapeEvent::Response { url, .. } => url@,
        ScrapeEvent::BackoffStart { url, .. } => url@,
        ScrapeEvent::Completed { url, .. } => url@,
        ScrapeEvent::Failed { url, .. } => url@,
    }
}

/// An event is recorded under its URL, and under no other: a try puts it in flight, a wait
/// backs it off, an answer gives its status, its end what came of it.
pub proof fn events_are_recorded(state: &mut AppState, ev: ScrapeEvent, now_ms: u64)
    requires
        old(state).valid(),
        call_ensures(AppState::apply, (state, ev, now_ms), ()),
        ev is RequestStart ==> ev->RequestStart_attempt < u32::MAX,
        ev is BackoffStart ==> ev->BackoffStart_attempt < u32::MAX,
    ensures
        ({
            let url = event_url(ev);
            let before = old(state)@.urls;
            let after = final(state)@.urls;
            &&& before.len() <= after.len()
            &&& forall|j: int|
                0 <= j < before.len() && (#[trigger] before[j]).0 != url ==> after[j] == before[j]
            &&& (ev is Queued || ev is RequestStart || ev is Completed || ev is Failed)
                ==> exists|i: int|
                {
                    &&& #[trigger] stands(after, url, i)
                    &&& ev is Queued && i == before.len() ==> after[i].1.phase == Phase::Queued
                    &&& ev is Queued && i < before.len() ==> after[i] == before[i]
                    &&& ev is RequestStart ==> after[i].1.phase == Phase::InFlight
                        && after[i].1.attempts == ev->RequestStart_attempt + 1
                    &&& ev is Completed ==> after[i].1.phase == Phase::Done && after[i].1.status
                        == Some(ev->final_status) && after[i].1.latency_ms == Some(
                        ev->total_time_ms,
                    ) && after[i].1.title == Some(ev->title@)
                    &&& ev is Failed ==> after[i].1.phase == Phase::Failed && after[i].1.last_error
                        == Some(ev->error@) && after[i].1.attempts == ev->Failed_attempts
                }
            &&& ev is Response || ev is BackoffStart ==> after.len() == before.len()
            &&& forall|i: int| #[trigger]
                stands(before, url, i) ==> after[i].0 == url && (ev is Response
                    ==> after[i].1.status == Some(ev->status) && after[i].1.phase
                    == before[i].1.phase) && (ev is BackoffStart ==> after[i].1.phase
                    == Phase::BackingOff && after[i].1.attempts == ev->BackoffStart_attempt + 1)
        }),
{
    let url = event_url(ev);
    let before = old(state)@.urls;
    let after = final(state)@.urls;
    pos_is_first(before, url);
    entering(before, url);
    let e = entered(before, url);
    let k = url_pos(e, url);
    assert(e.len() <= before.len() + 1);
    if ev is Queued || ev is RequestStart || ev is Completed || ev is Failed {
        assert(after.len() == e.len());
        assert(after[k].0 == url);
        assert forall|j: int| 0 <= j < k implies (#[trigger] after[j]).0 != url by {
            assert(e[j].0 != url);
            assert(after[j] == e[j]);
        }
        assert(stands(after, url, k));
    }
    assert forall|i: int| #[trigger] stands(before, url, i) implies after[i].0 == url && (
    ev is Response ==> after[i].1.status == Some(ev->status) && after[i].1.phase
        == before[i].1.phase) && (ev is BackoffStart ==> after[i].1.phase == Phase::BackingOff
        && after[i].1.attempts == ev->BackoffStart_attempt + 1) by {
        standing_is_pos(before, url, i);
    }
    assert forall|j: int| 0 <= j < before.len() && (#[trigger] before[j]).0
        != url implies after[j] == before[j] by {
        assert(e[j] == before[j]);
    }
}

/// A URL that ends for the first time is counted once: among the completed with its time
/// and its status, or among the failed; and every end counts towards the pace.
pub proof fn ends_are_counted(state: &mut AppState, ev: ScrapeEvent, now_ms: u64, i: int)
    requires
        old(state).valid(),
        call_ensures(AppState::apply, (state, ev, now_ms), ()),
        stands(old(state)@.urls, event_url(ev), i),
        ev is Completed || ev is Failed,
    ensures
        ({
            let was = old(state)@.urls[i].1.phase;
            let open = was == Phase::Queued || was == Phase::InFlight || was == Phase::BackingOff;
            let a = old(state)@;
            let b = final(state)@;
            &&& ev is Completed && open ==> b.completed == a.completed + 1 && b.failed == a.failed
                && b.latencies == a.latencies.push(ev->total_time_ms) && b.status_hist.dom().contains(
                ev->final_status,
            )
            &&& ev is Completed && open && a.status_hist.dom().contains(ev->final_status)
                && a.status_hist[ev->final_status] < u32::MAX ==> b.status_hist[ev->final_status]
                == a.status_hist[ev->final_status] + 1
            &&& ev is Completed && open && !a.status_hist.dom().contains(ev->final_status)
                ==> b.status_hist[ev->final_status] == 1
            &&& ev is Failed && open ==> b.failed == a.failed + 1 && b.completed == a.completed
                && b.latencies == a.latencies && b.status_hist == a.status_hist
            &&& !open ==> b.completed == a.completed && b.failed == a.failed && b.latencies
                == a.latencies && b.status_hist == a.status_hist
            &&& b.throughput == a.throughput.push(now_ms)
            &&& (was == Phase::InFlight || was == Phase::BackingOff) && a.active > 0 ==> b.active
                == a.active - 1
            &&& was == Phase::Queued || !open ==> b.active == a.active
        }),
{
    standing_is_pos(old(state)@.urls, event_url(ev), i);
    entering(old(state)@.urls, event_url(ev));
}

/// A first try makes a URL active; another one does not.
pub proof fn first_tries_are_counted(state: &mut AppState, ev: ScrapeEvent, now_ms: u64, i: int)
    requires
        old(state).valid(),
        call_ensures(AppState::apply, (state, ev, now_ms), ()),
        stands(old(state)@.urls, event_url(ev), i),
        ev is RequestStart,
    ensures
        old(state)@.urls[i].1.phase == Phase::Queued ==> final(state)@.active == old(state)@.active
            + 1,
        old(state)@.urls[i].1.phase != Phase::Queued ==> final(state)@.active
            == old(state)@.active,
        final(state)@.completed == old(state)@.completed && final(state)@.failed
            == old(state)@.failed,
{
    standing_is_pos(old(state)@.urls, event_url(ev), i);
    entering(old(state)@.urls, event_url(ev));
}

/// What is shown of a URL is what was recorded under it.
pub proof fn states_are_found_by_url(state: &AppState, url: &str, r: Option<&UrlState>, i: int)
    requires
        call_ensures(AppState::url_state, (state, url), r),
    ensures
        stands(state@.urls, url@, i) ==> r is Some && r->0@ == state@.urls[i].1,
        r is None <==> forall|j: int| 0 <= j < state@.urls.len() ==> (#[trigger] state@.urls[j]).0
            != url@,
{
    pos_is_first(state@.urls, url@);
    if stands(state@.urls, url@, i) {
        standing_is_pos(state@.urls, url@, i);
    }
    let k = url_pos(state@.urls, url@);
    if k < state@.urls.len() {
        assert(state@.urls[k].0 == url@);
    }
}

// ---- times -------------------------------------------------------------------------

/// A percentile is the value at the rank nearest to that share of the way from the least
/// to the greatest.
pub proof fn percentiles_are_nearest_ranks(sorted: &[u64], percent: u32, r: Option<u64>)
    requires
        call_ensures(percentile, (sorted, percent), r),
    ensures
        r is None <==> sorted@.len() == 0,
        r is Some && percent <= 100 ==> exists|i: int|
            {
                &&& 0 <= i < sorted@.len()
                &&& r->0 == #[trigger] sorted@[i]
                &&& -100 <= 200 * i - 2 * ((sorted@.len() - 1) * percent) <= 100
            },
        r is Some && percent == 0 ==> r->0 == sorted@[0],
        r is Some && percent >= 100 ==> r->0 == sorted@.last(),
{
    if sorted@.len() > 0 {
        let n: int = sorted@.len() - 1;
        let p: int = if percent > 100 {
            100
        } else {
            percent as int
        };
        let x: int = n * p;
        assert(0 <= x <= n * 100) by (nonlinear_arith)
            requires
                0 <= p <= 100,
                n >= 0,
                x == n * p,
        ;
        assert(n * p * 2 == x * 2);
        let i = (x * 2 + 100) / 200;
        assert(0 <= i <= n);
        assert(-100 <= 200 * i - 2 * x <= 100);
        assert(r->0 == sorted@[i]);
        if percent == 0 {
            assert(x == 0) by (nonlinear_arith)
                requires
                    x == n * p,
                    p == 0,
            ;
        }
    }
}

/// The last of the times that are told is the greatest: it is one of them, and none is
/// greater.
pub proof fn greatest_time_is_told(
    state: &AppState,
    r: (Option<u64>, Option<u64>, Option<u64>),
    i: int,
)
    requires
        call_ensures(AppState::latency_stats, (state,), r),
        0 <= i < state@.latencies.len(),
    ensures
        r.0 is Some && r.1 is Some && r.2 is Some,
        state@.latencies[i] <= r.2->0,
        state@.latencies.contains(r.2->0),
        r.0->0 <= r.1->0 <= r.2->0,
        state@.latencies.contains(r.0->0) && state@.latencies.contains(r.1->0),
{
    let s = state@.latencies;
    let t = s.sort_by(at_most());
    assert(total_ordering(at_most()));
    s.lemma_sort_by_ensures(at_most());
    assert(s.to_multiset() == t.to_multiset());
    s.to_multiset_ensures();
    t.to_multiset_ensures();
    assert(t.len() == s.len());
    let n: int = t.len() - 1;
    assert(s.contains(s[i]));
    assert(t.to_multiset().count(s[i]) > 0);
    assert(t.contains(s[i]));
    let j = choose|j: int| 0 <= j < t.len() && t[j] == s[i];
    let a = (n * 50 * 2 + 100) / 200;
    let b = (n * 95 * 2 + 100) / 200;
    let c = (n * 100 * 2 + 100) / 200;
    assert(0 <= a <= b <= c == n);
    in_order(t, j, n);
    in_order(t, a, b);
    in_order(t, b, n);
    assert(t.contains(t[a]) && t.contains(t[b]) && t.contains(t[n]));
    assert(s.to_multiset().count(t[a]) > 0);
    assert(s.to_multiset().count(t[b]) > 0);
    assert(s.to_multiset().count(t[n]) > 0);
}

proof fn in_order(t: Seq<u64>, i: int, j: int)
    requires
        sorted_by(t, at_most()),
        0 <= i <= j < t.len(),
    ensures
        t[i] <= t[j],
{
    if i < j {
        assert(at_most()(t[i], t[j]));
    }
}

/// The pace counts what has ended within the last ten seconds, or since the start where
/// that is less.
pub proof fn pace_is_of_the_last_seconds(state: &mut AppState, now_ms: u64, r: (usize, u64))
    requires
        call_ensures(AppState::throughput_now, (state, now_ms), r),
        old(state)@.started_at_ms <= now_ms,
        forall|i: int, j: int|
            0 <= i <= j < old(state)@.throughput.len() ==> old(state)@.throughput[i]
                <= old(state)@.throughput[j],
    ensures
        r.0 == old(state)@.throughput.filter(|t: u64| t + 10_000 >= now_ms).len(),
        now_ms - old(state)@.started_at_ms < 10_000 ==> r.1 == now_ms
            - old(state)@.started_at_ms,
        now_ms - old(state)@.started_at_ms >= 10_000 ==> r.1 == 10_000,
{
    recent_is_filtered(old(state)@.throughput, now_ms - 10_000, now_ms);
}

proof fn recent_is_filtered(times: Seq<u64>, cutoff: int, now_ms: u64)
    requires
        cutoff == now_ms - 10_000,
        forall|i: int, j: int| 0 <= i <= j < times.len() ==> times[i] <= times[j],
    ensures
        recent(times, cutoff) == times.filter(|t: u64| t + 10_000 >= now_ms),
    decreases times.len(),
{
    let p = |t: u64| t + 10_000 >= now_ms;
    if times.len() > 0 && times[0] < cutoff {
        let rest = times.skip(1);
        assert forall|i: int, j: int| 0 <= i <= j < rest.len() implies rest[i] <= rest[j] by {
            assert(times[i + 1] <= times[j + 1]);
        }
        recent_is_filtered(rest, cutoff, now_ms);
        assert(times =~= seq![times[0]] + rest);
        Seq::filter_distributes_over_add(seq![times[0]], rest, p);
        reveal(Seq::filter);
        let one = seq![times[0]];
        assert(one.drop_last() =~= seq![]);
        assert(one.drop_last().filter(p) =~= seq![]);
        assert(one.filter(p) =~= seq![]);
        assert(seq![] + rest.filter(p) =~= rest.filter(p));
    } else {
        assert forall|i: int| 0 <= i < times.len() implies p(#[trigger] times[i]) by {
            assert(times[0] <= times[i]);
        }
        all_kept(times, p);
    }
}

proof fn all_kept(s: Seq<u64>, p: spec_fn(u64) -> bool)
    requires
        forall|i: int| 0 <= i < s.len() ==> p(#[trigger] s[i]),
    ensures
        s.filter(p) == s,
    decreases s.len(),
{
    reveal(Seq::filter);
    if s.len() > 0 {
        assert forall|i: int| 0 <= i < s.drop_last().len() implies p(#[trigger] s.drop_last()[i]) by {
            assert(p(s[i]));
        }
        all_kept(s.drop_last(), p);
        assert(p(s[s.len() - 1]));
        assert(s =~= s.drop_last().push(s.last()));
    } else {
        assert(s.filter(p) =~= s);
    }
}

// ---- keys --------------------------------------------------------------------------

/// Down and `j` go to the next row, up and `k` to the one before, the page keys ten rows,
/// never past either end; `q`, in either case, and Escape leave.
pub proof fn keys_move_and_leave(key: Key, state: &mut AppState)
    requires
        old(state).valid(),
        call_ensures(handle_key, (key, state), ()),
    ensures
        ({
            let at = old(state)@.selected;
            let to = final(state)@.selected;
            let last: int = old(state)@.urls.len() - 1;
            let left = key == Key::Char('q') || key == Key::Char('Q') || key == Key::Esc;
            &&& final(state)@.quit <==> old(state)@.quit || left
            &&& (key == Key::Down || key == Key::Char('j')) && at < last ==> to == at + 1
            &&& (key == Key::Down || key == Key::Char('j')) && at >= last ==> to == at
            &&& (key == Key::Up || key == Key::Char('k')) && at > 0 ==> to == at - 1
            &&& (key == Key::Up || key == Key::Char('k')) && at == 0 ==> to == 0
            &&& key == Key::PageDown && at + 10 <= last ==> to == at + 10
            &&& key == Key::PageDown && at + 10 > last && last >= 0 ==> to == last
            &&& key == Key::PageUp && at >= 10 ==> to == at - 10
            &&& key == Key::PageUp && at < 10 ==> to == 0
            &&& left || key == Key::Other ==> to == at
            &&& final(state)@.urls == old(state)@.urls
            &&& final(state)@.completed == old(state)@.completed
            &&& final(state)@.active == old(state)@.active
            &&& final(state)@.failed == old(state)@.failed
        }),
{
}

/// A text that is cut is its start and a mark, as long as there is room; one that fits
/// stays whole.
pub proof fn cut_texts_start_the_same(s: &str, max: usize, r: String)
    requires
        call_ensures(truncate, (s, max), r),
    ensures
        s@.len() <= max ==> r@ == s@,
        s@.len() > max > 0 ==> r@.len() == max && r@.last() == '…' && r@.drop_last() == s@.take(
            max - 1,
        ),
{
    if s@.len() > max > 0 {
        assert(r@.drop_last() =~= s@.take(max - 1));
    }
}

/// A row shows its URL's phase, and its URL, cut where it is long.
pub proof fn rows_show_their_url(
    state: &AppState,
    k: usize,
    r: (Phase, String, String, String),
)
    requires
        call_ensures(AppState::row, (state, k), r),
        k < state@.urls.len(),
    ensures
        r.0 == state@.urls[k as int].1.phase,
        state@.urls[k as int].0.len() <= 60 ==> r.2@ == state@.urls[k as int].0,
        state@.urls[k as int].1.title is None ==> r.3@.len() == 0,
        state@.urls[k as int].1.title matches Some(t) ==> (0 < t.len() <= 40 ==> r.3@ == "  \""@ + t
            + "\""@),
{
}

} // verus!
