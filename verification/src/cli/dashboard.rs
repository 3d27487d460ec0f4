//! The state behind the live view of a scrape.
use crate::cli::scrape::ScrapeEvent;
use crate::dom::text_view;
use crate::text::{decimal, push_decimal};
use crate::webarena::summary::{at_most, sort_numbers};
use indexmap::IndexMap;
use std::collections::{BTreeMap, VecDeque};
use vstd::prelude::*;
use vstd::string::*;

verus! {

/// How far back throughput is measured.
pub const THROUGHPUT_WINDOW_MS: u64 = 10_000;

#[derive(Clone, Copy, Debug, PartialEq, Eq, Structural)]
pub enum Phase {
    Queued,
    InFlight,
    BackingOff,
    Done,
    Failed,
}

/// What is known of a URL.
#[derive(Clone, Debug)]
pub struct UrlState {
    pub phase: Phase,
    pub attempts: u32,
    pub status: Option<u16>,
    pub latency_ms: Option<u64>,
    pub title: Option<String>,
    pub last_error: Option<String>,
}

/// The contents of a [`UrlState`].
#[verifier::ext_equal]
pub struct UrlModel {
    pub phase: Phase,
    pub attempts: u32,
    pub status: Option<u16>,
    pub latency_ms: Option<u64>,
    pub title: Option<Seq<char>>,
    pub last_error: Option<Seq<char>>,
}

impl View for UrlState {
    type V = UrlModel;

    open spec fn view(&self) -> UrlModel {
        UrlModel {
            phase: self.phase,
            attempts: self.attempts,
            status: self.status,
            latency_ms: self.latency_ms,
            title: text_view(self.title),
            last_error: text_view(self.last_error),
        }
    }
}

/// A URL of which nothing is known yet.
pub open spec fn fresh() -> UrlModel {
    UrlModel {
        phase: Phase::Queued,
        attempts: 0,
        status: None,
        latency_ms: None,
        title: None,
        last_error: None,
    }
}

impl UrlState {
    pub fn new() -> (r: UrlState)
        ensures
            r@ == fresh(),
    {
        UrlState {
            phase: Phase::Queued,
            attempts: 0,
            status: None,
            latency_ms: None,
            title: None,
            last_error: None,
        }
    }
}

// ---- URLs in the order in which they come ------------------------------------------

/// A map of the `indexmap` crate.
#[verifier::external_type_specification]
#[verifier::external_body]
#[verifier::reject_recursive_types(K)]
#[verifier::reject_recursive_types(V)]
#[verifier::reject_recursive_types(S)]
pub struct ExIndexMap<K, V, S>(IndexMap<K, V, S>);

/// The keys and values of a map, in the order in which the keys came.
pub uninterp spec fn slots(m: IndexMap<String, usize>) -> Seq<(Seq<char>, usize)>;

/// Calls `IndexMap::new`: the map holds nothing.
#[verifier::external_body]
fn no_slots() -> (r: IndexMap<String, usize>)
    ensures
        slots(r).len() == 0,
{
    IndexMap::new()
}

/// Calls `IndexMap::get`: the value under the key, where the map has the key.
#[verifier::external_body]
fn get_slot(m: &IndexMap<String, usize>, key: &str) -> (r: Option<usize>)
    ensures
        match r {
            Some(v) => exists|i: int| 0 <= i < slots(*m).len() && slots(*m)[i] == (key@, v),
            None => forall|i: int| 0 <= i < slots(*m).len() ==> (#[trigger] slots(*m)[i]).0 != key@,
        },
{
    m.get(key).copied()
}

/// Calls `IndexMap::get_index`: the key at a position, where there is one.
#[verifier::external_body]
fn key_at(m: &IndexMap<String, usize>, i: usize) -> (r: Option<String>)
    ensures
        match r {
            Some(k) => i < slots(*m).len() && slots(*m)[i as int].0 == k@,
            None => i >= slots(*m).len(),
        },
{
    m.get_index(i).map(|e| e.0.clone())
}

/// Calls `IndexMap::insert` with a key that the map does not have: the key goes
/// behind all others.
#[verifier::external_body]
fn add_slot(m: &mut IndexMap<String, usize>, key: String, slot: usize)
    requires
        forall|i: int| 0 <= i < slots(*old(m)).len() ==> (#[trigger] slots(*old(m))[i]).0 != key@,
    ensures
        slots(*final(m)) == slots(*old(m)).push((key@, slot)),
{
    m.insert(key, slot);
}

/// The position of a URL in a list, or the length of the list.
pub open spec fn url_pos(urls: Seq<(Seq<char>, UrlModel)>, url: Seq<char>) -> int
    decreases urls.len(),
{
    if urls.len() == 0 || urls[0].0 == url {
        0
    } else {
        1 + url_pos(urls.skip(1), url)
    }
}

/// The list with the URL in it, behind all others where it is new.
pub open spec fn entered(urls: Seq<(Seq<char>, UrlModel)>, url: Seq<char>) -> Seq<
    (Seq<char>, UrlModel),
> {
    if url_pos(urls, url) < urls.len() {
        urls
    } else {
        urls.push((url, fresh()))
    }
}

/// What is known of a URL on the list.
pub open spec fn url_at(urls: Seq<(Seq<char>, UrlModel)>, url: Seq<char>) -> UrlModel {
    urls[url_pos(urls, url)].1
}

/// The list with something else known of a URL on it.
pub open spec fn with_url(
    urls: Seq<(Seq<char>, UrlModel)>,
    url: Seq<char>,
    m: UrlModel,
) -> Seq<(Seq<char>, UrlModel)> {
    urls.update(url_pos(urls, url), (url, m))
}

proof fn url_pos_is(urls: Seq<(Seq<char>, UrlModel)>, url: Seq<char>, k: int)
    requires
        0 <= k <= urls.len(),
        k < urls.len() ==> urls[k].0 == url,
        forall|i: int| 0 <= i < k ==> (#[trigger] urls[i]).0 != url,
    ensures
        url_pos(urls, url) == k,
    decreases urls.len(),
{
    if k > 0 {
        assert(urls[0].0 != url);
        let rest = urls.skip(1);
        assert forall|i: int| 0 <= i < k - 1 implies (#[trigger] rest[i]).0 != url by {
            assert(rest[i] == urls[i + 1]);
        }
        if k < urls.len() {
            assert(rest[k - 1] == urls[k]);
        }
        url_pos_is(rest, url, k - 1);
    }
}

// ---- the state -----------------------------------------------------------------

/// What is known of each URL, in the order in which the URLs came.
pub struct UrlTable {
    slots: IndexMap<String, usize>,
    states: Vec<UrlState>,
}

/// The state of the view.
pub struct AppState {
    pub urls: UrlTable,
    pub completed: usize,
    pub active: usize,
    pub failed: usize,
    /// How many URLs ended with each status.
    pub status_hist: BTreeMap<u16, u32>,
    /// How long the URLs took that completed.
    pub latencies: Vec<u64>,
    /// When URLs completed or failed, in milliseconds.
    pub throughput: VecDeque<u64>,
    pub started_at_ms: u64,
    /// The position of the URL that is marked.
    pub selected: usize,
    pub finished: bool,
    pub quit: bool,
    pub total_urls: usize,
}

/// The contents of an [`AppState`].
#[verifier::ext_equal]
pub struct AppModel {
    pub urls: Seq<(Seq<char>, UrlModel)>,
    pub completed: int,
    pub active: int,
    pub failed: int,
    pub status_hist: Map<u16, u32>,
    pub latencies: Seq<u64>,
    pub throughput: Seq<u64>,
    pub started_at_ms: u64,
    pub selected: int,
    pub finished: bool,
    pub quit: bool,
    pub total_urls: usize,
}

spec fn url_views(
    keys: Seq<(Seq<char>, usize)>,
    states: Seq<UrlState>,
) -> Seq<(Seq<char>, UrlModel)> {
    Seq::new(states.len(), |i: int| (keys[i].0, states[i]@))
}

impl View for UrlTable {
    type V = Seq<(Seq<char>, UrlModel)>;

    closed spec fn view(&self) -> Seq<(Seq<char>, UrlModel)> {
        url_views(slots(self.slots), self.states@)
    }
}

impl View for AppState {
    type V = AppModel;

    open spec fn view(&self) -> AppModel {
        AppModel {
            urls: self.urls@,
            completed: self.completed as int,
            active: self.active as int,
            failed: self.failed as int,
            status_hist: self.status_hist@,
            latencies: self.latencies@,
            throughput: self.throughput@,
            started_at_ms: self.started_at_ms,
            selected: self.selected as int,
            finished: self.finished,
            quit: self.quit,
            total_urls: self.total_urls,
        }
    }
}

/// How many of the URLs have not been asked for yet.
pub open spec fn waiting(urls: Seq<(Seq<char>, UrlModel)>) -> nat
    decreases urls.len(),
{
    if urls.len() == 0 {
        0
    } else {
        waiting(urls.drop_last()) + (if urls.last().1.phase == Phase::Queued {
            1nat
        } else {
            0nat
        })
    }
}

/// What holds of every state: no URL is listed twice, no more URLs are active than
/// have been asked for, each completion has its time, and a URL on the list is
/// marked.
pub open spec fn consistent(m: AppModel) -> bool {
    &&& forall|i: int, j: int|
        0 <= i < j < m.urls.len() ==> (#[trigger] m.urls[i]).0 != (#[trigger] m.urls[j]).0
    &&& 0 <= m.active
    &&& m.active + waiting(m.urls) <= m.urls.len()
    &&& m.completed == m.latencies.len()
    &&& 0 <= m.failed
    &&& 0 <= m.selected
    &&& m.selected < m.urls.len() || m.selected == 0
}

/// The number of completions with a status.
pub open spec fn counted(hist: Map<u16, u32>, status: u16) -> nat {
    if hist.dom().contains(status) {
        hist[status] as nat
    } else {
        0
    }
}

/// A URL is neither done nor failed.
pub open spec fn open_phase(p: Phase) -> bool {
    p != Phase::Done && p != Phase::Failed
}

/// A URL that ends is no longer active.
pub open spec fn active_after(active: int, p: Phase) -> int {
    if (p == Phase::InFlight || p == Phase::BackingOff) && active > 0 {
        active - 1
    } else {
        active
    }
}

/// The state after an event at a time.
pub open spec fn after_event(m: AppModel, ev: ScrapeEvent, now_ms: u64) -> AppModel {
    match ev {
        ScrapeEvent::Queued { url, index } => AppModel { urls: entered(m.urls, url@), ..m },
        ScrapeEvent::RequestStart { url, attempt } => {
            let urls = entered(m.urls, url@);
            let u = url_at(urls, url@);
            AppModel {
                urls: with_url(
                    urls,
                    url@,
                    UrlModel { phase: Phase::InFlight, attempts: (attempt + 1) as u32, ..u },
                ),
                active: if u.phase == Phase::Queued {
                    m.active + 1
                } else {
                    m.active
                },
                ..m
            }
        },
        ScrapeEvent::Response { url, status, body_size, latency_ms } => if url_pos(m.urls, url@)
            < m.urls.len() {
            let u = url_at(m.urls, url@);
            AppModel {
                urls: with_url(m.urls, url@, UrlModel { status: Some(status), ..u }),
                ..m
            }
        } else {
            m
        },
        ScrapeEvent::BackoffStart { url, attempt, backoff_ms } => if url_pos(m.urls, url@)
            < m.urls.len() {
            let u = url_at(m.urls, url@);
            AppModel {
                urls: with_url(
                    m.urls,
                    url@,
                    UrlModel { phase: Phase::BackingOff, attempts: (attempt + 1) as u32, ..u },
                ),
                ..m
            }
        } else {
            m
        },
        ScrapeEvent::Completed { url, final_status, title, total_time_ms, retries, eval } => {
            let urls = entered(m.urls, url@);
            let u = url_at(urls, url@);
            AppModel {
                urls: with_url(
                    urls,
                    url@,
                    UrlModel {
                        phase: Phase::Done,
                        status: Some(final_status),
                        latency_ms: Some(total_time_ms),
                        title: Some(title@),
                        ..u
                    },
                ),
                active: active_after(m.active, u.phase),
                completed: if open_phase(u.phase) {
                    m.completed + 1
                } else {
                    m.completed
                },
                latencies: if open_phase(u.phase) {
                    m.latencies.push(total_time_ms)
                } else {
                    m.latencies
                },
                status_hist: if open_phase(u.phase) {
                    m.status_hist.insert(
                        final_status,
                        (counted(m.status_hist, final_status) + 1) as u32,
                    )
                } else {
                    m.status_hist
                },
                throughput: m.throughput.push(now_ms),
                ..m
            }
        },
        ScrapeEvent::Failed { url, error, attempts } => {
            let urls = entered(m.urls, url@);
            let u = url_at(urls, url@);
            AppModel {
                urls: with_url(
                    urls,
                    url@,
                    UrlModel {
                        phase: Phase::Failed,
                        last_error: Some(error@),
                        attempts,
                        ..u
                    },
                ),
                active: active_after(m.active, u.phase),
                failed: if open_phase(u.phase) {
                    m.failed + 1
                } else {
                    m.failed
                },
                throughput: m.throughput.push(now_ms),
                ..m
            }
        },
    }
}

/// The numbers that an event counts up can take it.
pub open spec fn has_room(m: AppModel, ev: ScrapeEvent) -> bool {
    match ev {
        ScrapeEvent::RequestStart { attempt, .. } => attempt < u32::MAX,
        ScrapeEvent::BackoffStart { attempt, .. } => attempt < u32::MAX,
        ScrapeEvent::Completed { final_status, .. } => counted(m.status_hist, final_status)
            < u32::MAX,
        ScrapeEvent::Failed { .. } => m.failed < usize::MAX,
        _ => true,
    }
}

proof fn waiting_after_update(urls: Seq<(Seq<char>, UrlModel)>, k: int, e: (Seq<char>, UrlModel))
    requires
        0 <= k < urls.len(),
    ensures
        waiting(urls.update(k, e)) == waiting(urls) - (if urls[k].1.phase == Phase::Queued {
            1int
        } else {
            0int
        }) + (if e.1.phase == Phase::Queued {
            1int
        } else {
            0int
        }),
    decreases urls.len(),
{
    let up = urls.update(k, e);
    if k == urls.len() - 1 {
        assert(up.drop_last() =~= urls.drop_last());
    } else {
        waiting_after_update(urls.drop_last(), k, e);
        assert(up.drop_last() =~= urls.drop_last().update(k, e));
        assert(up.last() == urls.last());
    }
}

proof fn waiting_after_enter(urls: Seq<(Seq<char>, UrlModel)>, url: Seq<char>)
    ensures
        entered(urls, url).len() - waiting(entered(urls, url)) == urls.len() - waiting(urls),
{
    assert(urls.push((url, fresh())).drop_last() =~= urls);
}

impl AppState {
    /// What the parts of the state have to do with each other.
    pub closed spec fn linked(&self) -> bool {
        &&& slots(self.urls.slots).len() == self.urls.states@.len()
        &&& forall|i: int|
            0 <= i < self.urls.states@.len() ==> (#[trigger] slots(self.urls.slots)[i]).1 == i
    }

    pub open spec fn valid(&self) -> bool {
        self.linked() && consistent(self@)
    }

    pub fn new(total_urls: usize, now_ms: u64) -> (r: AppState)
        ensures
            r.valid(),
            r@ == (AppModel {
                urls: seq![],
                completed: 0,
                active: 0,
                failed: 0,
                status_hist: Map::empty(),
                latencies: seq![],
                throughput: seq![],
                started_at_ms: now_ms,
                selected: 0,
                finished: false,
                quit: false,
                total_urls,
            }),
    {
        let r = AppState {
            urls: UrlTable { slots: no_slots(), states: Vec::new() },
            completed: 0,
            active: 0,
            failed: 0,
            status_hist: BTreeMap::new(),
            latencies: Vec::new(),
            throughput: VecDeque::new(),
            started_at_ms: now_ms,
            selected: 0,
            finished: false,
            quit: false,
            total_urls,
        };
        assert(r@.urls =~= seq![]);
        r
    }

    /// How many URLs are on the list.
    pub fn url_count(&self) -> (r: usize)
        ensures
            r == self@.urls.len(),
    {
        self.urls.states.len()
    }

    fn position(&self, url: &str) -> (r: Option<usize>)
        requires
            self.valid(),
        ensures
            match r {
                Some(k) => k == url_pos(self@.urls, url@) && k < self@.urls.len()
                    && self@.urls[k as int].0 == url@ && k < self.urls.states@.len(),
                None => url_pos(self@.urls, url@) == self@.urls.len() && forall|i: int|
                    0 <= i < slots(self.urls.slots).len() ==> (#[trigger] slots(self.urls.slots)[i]).0
                        != url@,
            },
    {
        let r = get_slot(&self.urls.slots, url);
        proof {
            let urls = self@.urls;
            match r {
                Some(k) => {
                    let i = choose|i: int|
                        0 <= i < slots(self.urls.slots).len() && slots(self.urls.slots)[i] == (url@, k);
                    assert(slots(self.urls.slots)[i].1 == i);
                    assert(urls[i].0 == url@);
                    assert forall|j: int| 0 <= j < i implies (#[trigger] urls[j]).0 != url@ by {
                        assert(urls[j].0 != urls[i].0);
                    }
                    url_pos_is(urls, url@, i);
                },
                None => {
                    assert forall|j: int| 0 <= j < urls.len() implies (#[trigger] urls[j]).0 != url@ by {
                        assert(slots(self.urls.slots)[j].0 != url@);
                    }
                    url_pos_is(urls, url@, urls.len() as int);
                },
            }
        }
        r
    }

    /// What is known of a URL.
    pub fn url_state(&self, url: &str) -> (r: Option<&UrlState>)
        requires
            self.valid(),
        ensures
            match r {
                Some(s) => url_pos(self@.urls, url@) < self@.urls.len() && s@ == url_at(
                    self@.urls,
                    url@,
                ),
                None => url_pos(self@.urls, url@) == self@.urls.len(),
            },
    {
        match self.position(url) {
            Some(k) => Some(&self.urls.states[k]),
            None => None,
        }
    }

    /// Puts a URL on the list and gives its position.
    fn enter(&mut self, url: &String) -> (k: usize)
        requires
            old(self).valid(),
        ensures
            final(self).valid(),
            final(self)@ == (AppModel { urls: entered(old(self)@.urls, url@), ..old(self)@ }),
            k == url_pos(final(self)@.urls, url@),
            k < final(self)@.urls.len(),
            final(self)@.urls[k as int].0 == url@,
            k < final(self).urls.states@.len(),
    {
        match self.position(url.as_str()) {
            Some(k) => k,
            None => {
                let ghost before = self@;
                let k: usize = self.urls.states.len();
                let ghost keys = slots(self.urls.slots);
                add_slot(&mut self.urls.slots, url.clone(), k);
                self.urls.states.push(UrlState::new());
                proof {
                    let urls = self@.urls;
                    assert(urls =~= before.urls.push((url@, fresh())));
                    waiting_after_enter(before.urls, url@);
                    assert forall|i: int, j: int| 0 <= i < j < urls.len() implies (
                    #[trigger] urls[i]).0 != (#[trigger] urls[j]).0 by {
                        assert(urls[i] == before.urls[i]);
                        if j < k {
                            assert(urls[j] == before.urls[j]);
                        } else {
                            assert(keys[i].0 != url@);
                        }
                    }
                    assert forall|i: int| 0 <= i < self.urls.states@.len() implies (
                    #[trigger] slots(self.urls.slots)[i]).1 == i by {
                        if i < k {
                            assert(slots(self.urls.slots)[i] == keys[i]);
                        }
                    }
                    assert forall|i: int| 0 <= i < k implies (#[trigger] urls[i]).0 != url@ by {
                        assert(keys[i].0 != url@);
                    }
                    url_pos_is(urls, url@, k as int);
                    assert(self@ =~= (AppModel { urls: entered(before.urls, url@), ..before }));
                }
                k
            },
        }
    }

    /// Changes what is known of the URL at a position.
    fn set(&mut self, k: usize, s: UrlState)
        requires
            old(self).valid(),
            k < old(self)@.urls.len(),
            s.phase != Phase::Queued || old(self)@.urls[k as int].1.phase == Phase::Queued,
        ensures
            final(self).linked(),
            final(self)@ == (AppModel {
                urls: old(self)@.urls.update(k as int, (old(self)@.urls[k as int].0, s@)),
                ..old(self)@
            }),
            consistent(final(self)@),
            waiting(final(self)@.urls) == waiting(old(self)@.urls) - (if old(
                self,
            )@.urls[k as int].1.phase == Phase::Queued && s.phase != Phase::Queued {
                1int
            } else {
                0int
            }),
    {
        let ghost before = self@;
        let ghost name = self@.urls[k as int].0;
        assert(k < self.urls.states@.len());
        self.urls.states[k] = s;
        proof {
            assert(self@.urls =~= before.urls.update(k as int, (name, s@)));
            waiting_after_update(before.urls, k as int, (name, s@));
            assert forall|i: int, j: int| 0 <= i < j < self@.urls.len() implies (
            #[trigger] self@.urls[i]).0 != (#[trigger] self@.urls[j]).0 by {
                assert(before.urls[i].0 != before.urls[j].0);
            }
            assert(self@ =~= (AppModel {
                urls: before.urls.update(k as int, (name, s@)),
                ..before
            }));
        }
    }

    /// Takes note of an event.
    pub fn apply(&mut self, ev: ScrapeEvent, now_ms: u64)
        requires
            old(self).valid(),
            has_room(old(self)@, ev),
        ensures
            final(self).valid(),
            final(self)@ == after_event(old(self)@, ev, now_ms),
    {
        broadcast use vstd::std_specs::btree::group_btree_axioms;

        let ghost before = self@;
        match ev {
            ScrapeEvent::Queued { url, index: _ } => {
                let _ = self.enter(&url);
            },
            ScrapeEvent::RequestStart { url, attempt } => {
                let k: usize = self.enter(&url);
                let ghost mid = self@;
                let mut s = copy_state(&self.urls.states[k]);
                let fresh: bool = s.phase == Phase::Queued;
                s.phase = Phase::InFlight;
                s.attempts = attempt + 1;
                self.set(k, s);
                if fresh {
                    assert(self@.urls.len() == self.urls.states.len());
                    self.active = self.active + 1;
                }
                assert(self@ =~= after_event(before, ev, now_ms));
            },
            ScrapeEvent::Response { url, status, body_size: _, latency_ms: _ } => {
                if let Some(k) = self.position(url.as_str()) {
                    let mut s = copy_state(&self.urls.states[k]);
                    s.status = Some(status);
                    self.set(k, s);
                    assert(self@ =~= after_event(before, ev, now_ms));
                }
            },
            ScrapeEvent::BackoffStart { url, attempt, backoff_ms: _ } => {
                if let Some(k) = self.position(url.as_str()) {
                    let mut s = copy_state(&self.urls.states[k]);
                    s.phase = Phase::BackingOff;
                    s.attempts = attempt + 1;
                    self.set(k, s);
                    assert(self@ =~= after_event(before, ev, now_ms));
                }
            },
            ScrapeEvent::Completed { url, final_status, title, total_time_ms, retries: _, eval: _ } => {
                let k: usize = self.enter(&url);
                let mut s = copy_state(&self.urls.states[k]);
                let phase = s.phase;
                s.phase = Phase::Done;
                s.status = Some(final_status);
                s.latency_ms = Some(total_time_ms);
                s.title = Some(title);
                self.set(k, s);
                if phase != Phase::Done && phase != Phase::Failed {
                    if (phase == Phase::InFlight || phase == Phase::BackingOff) && self.active > 0 {
                        self.active = self.active - 1;
                    }
                    self.latencies.push(total_time_ms);
                    assert(self.completed < self.latencies.len());
                    self.completed = self.completed + 1;
                    let n: u32 = match self.status_hist.get(&final_status) {
                        Some(n) => *n,
                        None => 0,
                    };
                    assert(n == counted(before.status_hist, final_status));
                    self.status_hist.insert(final_status, n + 1);
                }
                self.throughput.push_back(now_ms);
                assert(self@ =~= after_event(before, ev, now_ms));
            },
            ScrapeEvent::Failed { url, error, attempts } => {
                let k: usize = self.enter(&url);
                let mut s = copy_state(&self.urls.states[k]);
                let phase = s.phase;
                s.phase = Phase::Failed;
                s.last_error = Some(error);
                s.attempts = attempts;
                self.set(k, s);
                if phase != Phase::Done && phase != Phase::Failed {
                    if (phase == Phase::InFlight || phase == Phase::BackingOff) && self.active > 0 {
                        self.active = self.active - 1;
                    }
                    self.failed = self.failed + 1;
                }
                self.throughput.push_back(now_ms);
                assert(self@ =~= after_event(before, ev, now_ms));
            },
        }
    }
}

fn copy_text(s: &Option<String>) -> (r: Option<String>)
    ensures
        text_view(r) == text_view(*s),
{
    match s {
        Some(t) => Some(t.clone()),
        None => None,
    }
}

fn copy_state(s: &UrlState) -> (r: UrlState)
    ensures
        r@ == s@,
{
    UrlState {
        phase: s.phase,
        attempts: s.attempts,
        status: s.status,
        latency_ms: s.latency_ms,
        title: copy_text(&s.title),
        last_error: copy_text(&s.last_error),
    }
}

// ---- what is shown -------------------------------------------------------------

/// The number at a percentage of a list in order: the nearest position, the upper
/// one of two that are equally near.
pub open spec fn ranked(sorted: Seq<u64>, percent: int) -> Option<u64> {
    if sorted.len() == 0 {
        None
    } else {
        let p = if percent > 100 {
            100
        } else {
            percent
        };
        Some(sorted[((sorted.len() - 1) * p * 2 + 100) / 200])
    }
}

proof fn rank_is_position(n: int, p: int)
    requires
        n >= 1,
        0 <= p <= 100,
    ensures
        0 <= ((n - 1) * p * 2 + 100) / 200 <= n - 1,
        (n - 1) * p * 2 + 100 == (2 * p) * (n - 1) + 100,
        ((n - 1) / 100) * p * 100 + ((n - 1) % 100) * p == (n - 1) * p,
        0 <= ((n - 1) % 100) * p * 2 + 100 < 20_000,
        ((n - 1) * p * 2 + 100) / 200 == (n - 1) / 100 * p + (((n - 1) % 100) * p * 2 + 100) / 200,
{
    let m = n - 1;
    let q = m / 100;
    let r = m % 100;
    assert(m == q * 100 + r);
    assert(m * p == q * p * 100 + r * p) by (nonlinear_arith)
        requires
            m == q * 100 + r,
    ;
    assert(0 <= r * p <= 99 * 100) by (nonlinear_arith)
        requires
            0 <= r <= 99,
            0 <= p <= 100,
    ;
    assert(0 <= m * p <= m * 100) by (nonlinear_arith)
        requires
            0 <= m,
            0 <= p <= 100,
    ;
    assert(m * p * 2 == 2 * (m * p));
    assert((2 * p) * m == 2 * (m * p)) by (nonlinear_arith);
    let k = q * p;
    let t = r * p;
    assert(m * p == k * 100 + t);
    assert(m * p * 2 + 100 == k * 200 + (t * 2 + 100));
    assert(r * p * 2 == t * 2);
    assert((k * 200 + (t * 2 + 100)) / 200 == k + (t * 2 + 100) / 200);
}

/// The number at a percentage of a list in order.
pub fn percentile(sorted: &[u64], percent: u32) -> (r: Option<u64>)
    ensures
        r == ranked(sorted@, percent as int),
{
    if sorted.len() == 0 {
        return None;
    }
    let p: usize = if percent > 100 {
        100
    } else {
        percent as usize
    };
    let m: usize = sorted.len() - 1;
    proof {
        rank_is_position(sorted@.len() as int, p as int);
    }
    assert(m / 100 * p <= m) by (nonlinear_arith)
        requires
            p <= 100,
            m >= 0,
    ;
    assert((m % 100) * p <= 99 * 100) by (nonlinear_arith)
        requires
            p <= 100,
            m % 100 <= 99,
    ;
    let at: usize = m / 100 * p + ((m % 100) * p * 2 + 100) / 200;
    Some(sorted[at])
}

impl AppState {
    /// The times at half and at 95 percent of the completed URLs, and the longest.
    pub fn latency_stats(&self) -> (r: (Option<u64>, Option<u64>, Option<u64>))
        ensures
            ({
                let sorted = self@.latencies.sort_by(at_most());
                &&& r.0 == ranked(sorted, 50)
                &&& r.1 == ranked(sorted, 95)
                &&& r.2 == ranked(sorted, 100)
            }),
    {
        let sorted = sort_numbers(&self.latencies);
        (
            percentile(sorted.as_slice(), 50),
            percentile(sorted.as_slice(), 95),
            percentile(sorted.as_slice(), 100),
        )
    }

    /// How many URLs ended within the window, and how much of it has passed, in
    /// milliseconds. What is older is forgotten.
    pub fn throughput_now(&mut self, now_ms: u64) -> (r: (usize, u64))
        requires
            old(self).valid(),
            old(self)@.started_at_ms <= now_ms,
        ensures
            final(self).valid(),
            final(self)@ == (AppModel {
                throughput: recent(old(self)@.throughput, now_ms - THROUGHPUT_WINDOW_MS),
                ..old(self)@
            }),
            r.0 == final(self)@.throughput.len(),
            r.1 == (if now_ms - old(self)@.started_at_ms < THROUGHPUT_WINDOW_MS {
                now_ms - old(self)@.started_at_ms
            } else {
                THROUGHPUT_WINDOW_MS as int
            }),
    {
        let ghost before = self@;
        let ghost cutoff = now_ms - THROUGHPUT_WINDOW_MS;
        let ghost all = self.throughput@;
        while self.throughput.len() > 0 && now_ms >= THROUGHPUT_WINDOW_MS && self.throughput[0]
            < now_ms - THROUGHPUT_WINDOW_MS
            invariant
                self.valid(),
                all == before.throughput,
                cutoff == now_ms - THROUGHPUT_WINDOW_MS,
                self@ == (AppModel { throughput: self.throughput@, ..before }),
                recent(all, cutoff) == recent(self.throughput@, cutoff),
            decreases self.throughput@.len(),
        {
            let ghost prior = self.throughput@;
            let _ = self.throughput.pop_front();
            assert(self.throughput@ =~= prior.skip(1));
            assert(self@ =~= (AppModel { throughput: self.throughput@, ..before }));
        }
        assert(recent(self.throughput@, cutoff) == self.throughput@);
        let passed: u64 = now_ms - self.started_at_ms;
        let window: u64 = if passed < THROUGHPUT_WINDOW_MS {
            passed
        } else {
            THROUGHPUT_WINDOW_MS
        };
        (self.throughput.len(), window)
    }
}

/// The times without those before a point at its start.
pub open spec fn recent(times: Seq<u64>, cutoff: int) -> Seq<u64>
    decreases times.len(),
{
    if times.len() > 0 && times[0] < cutoff {
        recent(times.skip(1), cutoff)
    } else {
        times
    }
}

/// A key that was pressed.
#[derive(Clone, Copy, Debug, PartialEq, Eq, Structural)]
pub enum Key {
    Char(char),
    Esc,
    Down,
    Up,
    PageDown,
    PageUp,
    Other,
}

/// How far a key moves the mark; none, where it does something else.
pub open spec fn movement(key: Key) -> int {
    match key {
        Key::Down => 1,
        Key::Up => -1,
        Key::PageDown => 10,
        Key::PageUp => -10,
        Key::Char(c) => if c == 'j' {
            1
        } else if c == 'k' {
            -1
        } else {
            0
        },
        _ => 0,
    }
}

pub open spec fn quits(key: Key) -> bool {
    key == Key::Char('q') || key == Key::Char('Q') || key == Key::Esc
}

/// A position moved by some steps, held to the list.
pub open spec fn moved(at: int, by: int, len: int) -> int {
    if at + by < 0 {
        0
    } else if by > 0 && at + by > len - 1 {
        if len > 0 {
            len - 1
        } else {
            0
        }
    } else {
        at + by
    }
}

/// Takes note of a key.
pub fn handle_key(key: Key, state: &mut AppState)
    requires
        old(state).valid(),
    ensures
        final(state).valid(),
        final(state)@ == (AppModel {
            quit: old(state)@.quit || quits(key),
            selected: moved(old(state)@.selected, movement(key), old(state)@.urls.len() as int),
            ..old(state)@
        }),
{
    let ghost before = state@;
    let last: usize = if state.urls.states.len() == 0 {
        0
    } else {
        state.urls.states.len() - 1
    };
    assert(before.urls.len() == state.urls.states@.len());
    match key {
        Key::Esc => {
            state.quit = true;
        },
        Key::Char(c) => {
            if c == 'q' || c == 'Q' {
                state.quit = true;
            } else if c == 'j' {
                state.step_down(1, last);
            } else if c == 'k' {
                state.step_up(1);
            }
        },
        Key::Down => state.step_down(1, last),
        Key::Up => state.step_up(1),
        Key::PageDown => state.step_down(10, last),
        Key::PageUp => state.step_up(10),
        Key::Other => {},
    }
    assert(state@ =~= (AppModel { quit: state@.quit, selected: state@.selected, ..before }));
}

impl AppState {
    fn step_down(&mut self, by: usize, last: usize)
        requires
            old(self).valid(),
            by > 0,
            last == (if old(self)@.urls.len() == 0 {
                0
            } else {
                old(self)@.urls.len() - 1
            }),
        ensures
            final(self).valid(),
            final(self)@ == (AppModel {
                selected: moved(old(self)@.selected, by as int, old(self)@.urls.len() as int),
                ..old(self)@
            }),
    {
        let ghost before = self@;
        if last - self.selected < by {
            self.selected = last;
        } else {
            self.selected = self.selected + by;
        }
        assert(self@ =~= (AppModel { selected: self@.selected, ..before }));
    }

    fn step_up(&mut self, by: usize)
        requires
            old(self).valid(),
            by > 0,
        ensures
            final(self).valid(),
            final(self)@ == (AppModel {
                selected: moved(old(self)@.selected, -(by as int), old(self)@.urls.len() as int),
                ..old(self)@
            }),
    {
        let ghost before = self@;
        if self.selected < by {
            self.selected = 0;
        } else {
            self.selected = self.selected - by;
        }
        assert(self@ =~= (AppModel { selected: self@.selected, ..before }));
    }
}

/// A text of at most so many characters, the last of them a mark where something
/// was left out.
pub open spec fn cut(s: Seq<char>, max: int) -> Seq<char> {
    if s.len() <= max {
        s
    } else if max > 0 {
        s.take(max - 1).push('…')
    } else {
        seq!['…']
    }
}

pub fn truncate(s: &str, max: usize) -> (r: String)
    ensures
        r@ == cut(s@, max as int),
{
    let n: usize = s.unicode_len();
    if n <= max {
        return s.to_owned();
    }
    let keep: usize = if max > 0 {
        max - 1
    } else {
        0
    };
    assert(s@.subrange(0, keep as int) =~= s@.take(keep as int));
    let mut out = s.substring_char(0, keep).to_owned();
    out.push('…');
    assert(max == 0 ==> out@ =~= seq!['…']);
    out
}

/// A text with spaces in front, up to a width.
pub open spec fn padded(s: Seq<char>, width: int) -> Seq<char> {
    if s.len() < width {
        Seq::new((width - s.len()) as nat, |i: int| ' ') + s
    } else {
        s
    }
}

fn pad(s: &str, width: usize) -> (r: String)
    ensures
        r@ == padded(s@, width as int),
{
    let n: usize = s.unicode_len();
    let mut out = String::new();
    let mut i: usize = n;
    while i < width
        invariant
            n == s@.len(),
            n <= i,
            i <= width || i == n,
            out@ == Seq::new((i - n) as nat, |k: int| ' '),
        decreases width - i,
    {
        let ghost before = out@;
        out.push(' ');
        i = i + 1;
        assert(out@ =~= Seq::new((i - n) as nat, |k: int| ' '));
    }
    out.append(s);
    assert(out@ =~= padded(s@, width as int));
    out
}

/// The heading: how many URLs have ended, of how many, and how many are active.
pub open spec fn heading(m: AppModel) -> Seq<char> {
    " bouncy scrape — "@ + decimal((m.completed + m.failed) as nat) + "/"@ + decimal(
        if m.total_urls as nat >= m.urls.len() {
            m.total_urls as nat
        } else {
            m.urls.len()
        },
    ) + " done · "@ + decimal(m.active as nat) + " active"@ + (if m.finished {
        " · ✔ finished"@
    } else {
        seq![]
    }) + " "@
}

/// What stands in front of a URL: its status, its time, and which try it is.
pub open spec fn row_prefix(u: UrlModel) -> Seq<char> {
    " "@ + padded(
        match u.status {
            Some(c) => decimal(c as nat),
            None => "···"@,
        },
        4,
    ) + " "@ + padded(
        match u.latency_ms {
            Some(ms) => decimal(ms as nat) + "ms"@,
            None => "—"@,
        },
        7,
    ) + (if u.attempts > 1 {
        " (try "@ + decimal(u.attempts as nat) + ")"@
    } else {
        seq![]
    }) + "  "@
}

/// What stands behind a URL: its title, where it has one.
pub open spec fn row_suffix(u: UrlModel) -> Seq<char> {
    match u.title {
        Some(t) => if t.len() > 0 {
            "  \""@ + cut(t, 40) + "\""@
        } else {
            seq![]
        },
        None => seq![],
    }
}

impl AppState {
    pub fn header_text(&self) -> (r: String)
        requires
            self.valid(),
            self@.completed + self@.failed <= u64::MAX,
        ensures
            r@ == heading(self@),
    {
        let mut s = " bouncy scrape — ".to_owned();
        push_decimal(&mut s, self.completed as u64 + self.failed as u64);
        s.append("/");
        let total: usize = if self.total_urls >= self.urls.states.len() {
            self.total_urls
        } else {
            self.urls.states.len()
        };
        assert(self@.urls.len() == self.urls.states@.len());
        push_decimal(&mut s, total as u64);
        s.append(" done · ");
        push_decimal(&mut s, self.active as u64);
        s.append(" active");
        let ghost so_far = s@;
        if self.finished {
            s.append(" · ✔ finished");
        }
        assert(!self.finished ==> s@ =~= so_far + seq![]);
        s.append(" ");
        s
    }

    /// What is shown of the URL at a position: its phase, what stands before it, the
    /// URL, and what stands behind it.
    pub fn row(&self, k: usize) -> (r: (Phase, String, String, String))
        requires
            self.valid(),
            k < self@.urls.len(),
        ensures
            r.0 == self@.urls[k as int].1.phase,
            r.1@ == row_prefix(self@.urls[k as int].1),
            r.2@ == cut(self@.urls[k as int].0, 60),
            r.3@ == row_suffix(self@.urls[k as int].1),
    {
        assert(self@.urls.len() == self.urls.states@.len());
        let url = match key_at(&self.urls.slots, k) {
            Some(u) => u,
            None => String::new(),
        };
        let u = &self.urls.states[k];
        assert(self@.urls[k as int].1 == u@);
        let mut s = " ".to_owned();
        let status = match u.status {
            Some(c) => crate::text::decimal_string(c as u64),
            None => "···".to_owned(),
        };
        s.append(pad(status.as_str(), 4).as_str());
        s.append(" ");
        let time = match u.latency_ms {
            Some(ms) => {
                let mut t = crate::text::decimal_string(ms);
                t.append("ms");
                t
            },
            None => "—".to_owned(),
        };
        s.append(pad(time.as_str(), 7).as_str());
        let ghost so_far = s@;
        if u.attempts > 1 {
            s.append(" (try ");
            push_decimal(&mut s, u.attempts as u64);
            s.append(")");
        }
        assert(s@ =~= so_far + (if u.attempts > 1 {
            " (try "@ + decimal(u.attempts as nat) + ")"@
        } else {
            seq![]
        }));
        s.append("  ");
        let mut suffix = String::new();
        if let Some(t) = &u.title {
            if !t.as_str().is_empty() {
                suffix.append("  \"");
                suffix.append(truncate(t.as_str(), 40).as_str());
                suffix.append("\"");
            }
        }
        assert(suffix@ =~= row_suffix(u@));
        (u.phase, s, truncate(url.as_str(), 60), suffix)
    }
}

// ---- laws ----------------------------------------------------------------------

/// A URL that completes twice is counted once.
pub proof fn completions_count_once(m: AppModel, ev: ScrapeEvent, now_ms: u64)
    requires
        consistent(m),
        ev is Completed,
    ensures
        ({
            let once = after_event(m, ev, now_ms);
            let twice = after_event(once, ev, now_ms);
            &&& twice.completed == once.completed
            &&& twice.active == once.active
            &&& twice.status_hist == once.status_hist
            &&& twice.latencies == once.latencies
        }),
{
    let url = ev->Completed_url@;
    let urls = entered(m.urls, url);
    entered_has_it(m.urls, url);
    let k = url_pos(urls, url);
    let once = after_event(m, ev, now_ms);
    assert forall|i: int| 0 <= i < k implies (#[trigger] once.urls[i]).0 != url by {
        url_pos_first(urls, url, i);
    }
    url_pos_is(once.urls, url, k);
}

/// Events never take a URL off the list, and never move it.
pub proof fn urls_keep_their_places(m: AppModel, ev: ScrapeEvent, now_ms: u64, i: int)
    requires
        consistent(m),
        0 <= i < m.urls.len(),
    ensures
        i < after_event(m, ev, now_ms).urls.len(),
        after_event(m, ev, now_ms).urls[i].0 == m.urls[i].0,
{
    let url = match ev {
        ScrapeEvent::Queued { url, .. } => url@,
        ScrapeEvent::RequestStart { url, .. } => url@,
        ScrapeEvent::Response { url, .. } => url@,
        ScrapeEvent::BackoffStart { url, .. } => url@,
        ScrapeEvent::Completed { url, .. } => url@,
        ScrapeEvent::Failed { url, .. } => url@,
    };
    entered_has_it(m.urls, url);
    url_pos_at(m.urls, url);
    url_pos_at(entered(m.urls, url), url);
}

proof fn url_pos_at(urls: Seq<(Seq<char>, UrlModel)>, url: Seq<char>)
    ensures
        0 <= url_pos(urls, url) <= urls.len(),
        url_pos(urls, url) < urls.len() ==> urls[url_pos(urls, url)].0 == url,
    decreases urls.len(),
{
    if urls.len() > 0 && urls[0].0 != url {
        url_pos_at(urls.skip(1), url);
    }
}

proof fn url_pos_first(urls: Seq<(Seq<char>, UrlModel)>, url: Seq<char>, i: int)
    requires
        0 <= i < url_pos(urls, url),
        i < urls.len(),
    ensures
        urls[i].0 != url,
    decreases urls.len(),
{
    if i > 0 {
        url_pos_first(urls.skip(1), url, i - 1);
    }
}

proof fn entered_has_it(urls: Seq<(Seq<char>, UrlModel)>, url: Seq<char>)
    ensures
        0 <= url_pos(entered(urls, url), url) < entered(urls, url).len(),
{
    url_pos_at(urls, url);
    if url_pos(urls, url) == urls.len() {
        let all = urls.push((url, fresh()));
        assert forall|i: int| 0 <= i < urls.len() implies (#[trigger] all[i]).0 != url by {
            url_pos_first(urls, url, i);
        }
        url_pos_is(all, url, urls.len() as int);
    }
}

/// A URL is asked for, or waits to be asked for again.
pub open spec fn active_phase(p: Phase) -> bool {
    p == Phase::InFlight || p == Phase::BackingOff
}

/// How many of the URLs are active.
pub open spec fn active_urls(urls: Seq<(Seq<char>, UrlModel)>) -> nat
    decreases urls.len(),
{
    if urls.len() == 0 {
        0
    } else {
        active_urls(urls.drop_last()) + (if active_phase(urls.last().1.phase) {
            1nat
        } else {
            0nat
        })
    }
}

/// How many of the URLs have ended.
pub open spec fn ended_urls(urls: Seq<(Seq<char>, UrlModel)>) -> nat
    decreases urls.len(),
{
    if urls.len() == 0 {
        0
    } else {
        ended_urls(urls.drop_last()) + (if open_phase(urls.last().1.phase) {
            0nat
        } else {
            1nat
        })
    }
}

/// The counts are those of the list: so many URLs are active, and so many have ended.
pub open spec fn counts_agree(m: AppModel) -> bool {
    &&& m.active == active_urls(m.urls)
    &&& m.completed + m.failed == ended_urls(m.urls)
}

/// An event comes when it may: no URL is asked for again once it has ended, and none
/// waits to be asked for again before it was asked for.
pub open spec fn in_order(m: AppModel, ev: ScrapeEvent) -> bool {
    match ev {
        ScrapeEvent::RequestStart { url, .. } => url_pos(m.urls, url@) < m.urls.len() ==> open_phase(
            url_at(m.urls, url@).phase,
        ),
        ScrapeEvent::BackoffStart { url, .. } => url_pos(m.urls, url@) < m.urls.len()
            && active_phase(url_at(m.urls, url@).phase),
        _ => true,
    }
}

proof fn counts_after_update(urls: Seq<(Seq<char>, UrlModel)>, k: int, e: (Seq<char>, UrlModel))
    requires
        0 <= k < urls.len(),
    ensures
        active_urls(urls.update(k, e)) == active_urls(urls) - (if active_phase(urls[k].1.phase) {
            1int
        } else {
            0int
        }) + (if active_phase(e.1.phase) {
            1int
        } else {
            0int
        }),
        ended_urls(urls.update(k, e)) == ended_urls(urls) - (if open_phase(urls[k].1.phase) {
            0int
        } else {
            1int
        }) + (if open_phase(e.1.phase) {
            0int
        } else {
            1int
        }),
        active_phase(urls[k].1.phase) ==> active_urls(urls) > 0,
    decreases urls.len(),
{
    let up = urls.update(k, e);
    if k == urls.len() - 1 {
        assert(up.drop_last() =~= urls.drop_last());
    } else {
        counts_after_update(urls.drop_last(), k, e);
        assert(up.drop_last() =~= urls.drop_last().update(k, e));
        assert(up.last() == urls.last());
    }
}

/// As long as events come in order, as many URLs are active as are in flight or
/// backing off, and as many have completed or failed as have ended.
pub proof fn counts_stay_in_step(m: AppModel, ev: ScrapeEvent, now_ms: u64)
    requires
        consistent(m),
        counts_agree(m),
        in_order(m, ev),
    ensures
        counts_agree(after_event(m, ev, now_ms)),
{
    let url = match ev {
        ScrapeEvent::Queued { url, .. } => url@,
        ScrapeEvent::RequestStart { url, .. } => url@,
        ScrapeEvent::Response { url, .. } => url@,
        ScrapeEvent::BackoffStart { url, .. } => url@,
        ScrapeEvent::Completed { url, .. } => url@,
        ScrapeEvent::Failed { url, .. } => url@,
    };
    let urls = entered(m.urls, url);
    entered_has_it(m.urls, url);
    url_pos_at(m.urls, url);
    url_pos_at(urls, url);
    assert(m.urls.push((url, fresh())).drop_last() =~= m.urls);
    assert(active_urls(urls) == active_urls(m.urls) && ended_urls(urls) == ended_urls(m.urls));
    let next = after_event(m, ev, now_ms);
    let k = url_pos(urls, url);
    if url_pos(m.urls, url) < m.urls.len() {
        assert(urls == m.urls);
        assert(next.urls =~= urls.update(k, next.urls[k]));
        counts_after_update(urls, k, next.urls[k]);
    } else if !(ev is Queued || ev is Response || ev is BackoffStart) {
        if k < m.urls.len() {
            assert(urls[k] == m.urls[k]);
            url_pos_first(m.urls, url, k);
        }
        assert(next.urls =~= urls.update(k, next.urls[k]));
        counts_after_update(urls, k, next.urls[k]);
    }
}

/// A view that has seen no event counts nothing, as its list is empty.
pub proof fn counts_start_in_step(m: AppModel)
    requires
        m.urls.len() == 0,
        m.active == 0,
        m.completed == 0,
        m.failed == 0,
    ensures
        counts_agree(m),
{
}

} // verus!
