//! Scraping many pages: which answers are worth another try, how long to wait, how
//! many requests one host gets at a time, and what is reported.
use crate::dom::html::HtmlTree;
use crate::dom::pick::html_text;
use crate::dom::text_view;
use crate::extract::{extract_title, title_events, title_of};
use crate::json::{json_views, pretty_text, Json, JsonModel};
use crate::select::{attr_values, matches_in, readable, select_attr, select_text};
use crate::sort::{not_after, text_le, text_le_total, text_le_transitive};
use crate::text::{
    ascii_lower, decimal, from_utf8, join, joined, push_decimal, same, to_ascii_lowercase, views,
};
use crate::urls::{parse_url, parsed_url};
use vstd::arithmetic::power2::{
    lemma2_to64, lemma_pow2_strictly_increases, lemma_pow2_unfold, pow2,
};
use vstd::prelude::*;
use vstd::string::*;
use vstd::utf8::{encode_utf8, valid_utf8};

verus! {

// ---- events --------------------------------------------------------------------

/// What happens to a URL on its way through a scrape.
#[derive(Clone, Debug)]
pub enum ScrapeEvent {
    /// Comes for every URL before anything is fetched.
    Queued { url: String, index: usize },
    /// An attempt starts; the first is attempt 0.
    RequestStart { url: String, attempt: u32 },
    /// The server answered.
    Response { url: String, status: u16, body_size: usize, latency_ms: u64 },
    /// The next attempt waits.
    BackoffStart { url: String, attempt: u32, backoff_ms: u64 },
    Completed {
        url: String,
        final_status: u16,
        title: String,
        total_time_ms: u64,
        retries: u32,
        eval: Option<String>,
    },
    /// Every attempt failed.
    Failed { url: String, error: String, attempts: u32 },
}

/// The contents of a [`ScrapeEvent`].
#[verifier::ext_equal]
pub enum EventModel {
    Queued { url: Seq<char>, index: usize },
    RequestStart { url: Seq<char>, attempt: u32 },
    Response { url: Seq<char>, status: u16, body_size: usize, latency_ms: u64 },
    BackoffStart { url: Seq<char>, attempt: u32, backoff_ms: u64 },
    Completed {
        url: Seq<char>,
        final_status: u16,
        title: Seq<char>,
        total_time_ms: u64,
        retries: u32,
        eval: Option<Seq<char>>,
    },
    Failed { url: Seq<char>, error: Seq<char>, attempts: u32 },
}

impl View for ScrapeEvent {
    type V = EventModel;

    open spec fn view(&self) -> EventModel {
        match *self {
            ScrapeEvent::Queued { url, index } => EventModel::Queued { url: url@, index },
            ScrapeEvent::RequestStart { url, attempt } => EventModel::RequestStart {
                url: url@,
                attempt,
            },
            ScrapeEvent::Response { url, status, body_size, latency_ms } => EventModel::Response {
                url: url@,
                status,
                body_size,
                latency_ms,
            },
            ScrapeEvent::BackoffStart { url, attempt, backoff_ms } => EventModel::BackoffStart {
                url: url@,
                attempt,
                backoff_ms,
            },
            ScrapeEvent::Completed {
                url,
                final_status,
                title,
                total_time_ms,
                retries,
                eval,
            } => EventModel::Completed {
                url: url@,
                final_status,
                title: title@,
                total_time_ms,
                retries,
                eval: text_view(eval),
            },
            ScrapeEvent::Failed { url, error, attempts } => EventModel::Failed {
                url: url@,
                error: error@,
                attempts,
            },
        }
    }
}

pub open spec fn event_views(s: Seq<ScrapeEvent>) -> Seq<EventModel> {
    s.map_values(|e: ScrapeEvent| e@)
}

/// The events that come first: every URL is queued, in order.
pub fn queue(urls: &Vec<String>) -> (r: Vec<ScrapeEvent>)
    ensures
        event_views(r@) == Seq::new(
            urls@.len(),
            |i: int| EventModel::Queued { url: urls@[i]@, index: i as usize },
        ),
{
    let ghost want = Seq::new(
        urls@.len(),
        |i: int| EventModel::Queued { url: urls@[i]@, index: i as usize },
    );
    let mut out: Vec<ScrapeEvent> = Vec::new();
    let mut i: usize = 0;
    assert(event_views(out@) =~= want.take(0));
    while i < urls.len()
        invariant
            i <= urls@.len(),
            want == Seq::new(
                urls@.len(),
                |i: int| EventModel::Queued { url: urls@[i]@, index: i as usize },
            ),
            event_views(out@) == want.take(i as int),
        decreases urls@.len() - i,
    {
        let ghost prior = out@;
        let e = ScrapeEvent::Queued { url: urls[i].clone(), index: i };
        out.push(e);
        assert(event_views(out@) =~= event_views(prior).push(e@));
        assert(want.take(i + 1) =~= want.take(i as int).push(want[i as int]));
        i = i + 1;
    }
    assert(want.take(i as int) =~= want);
    out
}

// ---- retries -------------------------------------------------------------------

/// Answers that may be different next time: timeouts, too many requests, and
/// errors of the server.
pub open spec fn transient(status: int) -> bool {
    status == 408 || status == 429 || 500 <= status <= 599
}

pub fn is_transient_status(status: u16) -> (r: bool)
    ensures
        r == transient(status as int),
{
    status == 408 || status == 429 || (500 <= status && status <= 599)
}

/// The wait before the next attempt: it doubles with every attempt, and is never
/// more than half a minute.
pub open spec fn backoff(base_ms: nat, attempt: nat) -> nat {
    if base_ms * pow2(attempt) < 30_000 {
        base_ms * pow2(attempt)
    } else {
        30_000
    }
}

pub fn backoff_ms(base_ms: u64, attempt: u32) -> (r: u64)
    ensures
        r == backoff(base_ms as nat, attempt as nat),
{
    proof {
        lemma2_to64();
    }
    if base_ms == 0 {
        assert(base_ms * pow2(attempt as nat) == 0) by (nonlinear_arith)
            requires
                base_ms == 0,
        ;
        return 0;
    }
    let mut ms: u64 = base_ms;
    let mut k: u32 = 0;
    assert(base_ms * pow2(0) == base_ms);
    while k < attempt && ms < 30_000
        invariant
            k <= attempt,
            ms == base_ms * pow2(k as nat),
        decreases attempt - k,
    {
        proof {
            lemma_pow2_unfold((k + 1) as nat);
            let p = pow2(k as nat);
            assert(base_ms * (2 * p) == 2 * (base_ms * p)) by (nonlinear_arith);
        }
        ms = ms * 2;
        k = k + 1;
    }
    if ms < 30_000 {
        ms
    } else {
        proof {
            if k < attempt {
                lemma_pow2_strictly_increases(k as nat, attempt as nat);
            }
            let p = pow2(k as nat);
            let q = pow2(attempt as nat);
            assert(base_ms * p <= base_ms * q) by (nonlinear_arith)
                requires
                    p <= q,
            ;
        }
        30_000
    }
}

/// What follows an attempt.
#[derive(Clone, Copy, Debug, PartialEq, Eq, Structural)]
pub enum RetryStep {
    /// The answer stands.
    Accept,
    /// There is no answer, and no attempt left.
    GiveUp,
    /// Another attempt, after a wait.
    Wait { attempt: u32, backoff_ms: u64 },
}

/// The attempts for one URL.
#[derive(Debug)]
pub struct Attempts {
    /// The most retries.
    pub retry: u32,
    pub delay_ms: u64,
    pub retries: u32,
    pub last_error: Option<String>,
}

impl Attempts {
    pub fn new(retry: u32, delay_ms: u64) -> (r: Attempts)
        ensures
            r.retry == retry,
            r.delay_ms == delay_ms,
            r.retries == 0,
            r.last_error is None,
    {
        Attempts { retry, delay_ms, retries: 0, last_error: None }
    }

    fn wait(&mut self) -> (r: RetryStep)
        requires
            old(self).retries < old(self).retry,
        ensures
            r == (RetryStep::Wait {
                attempt: old(self).retries,
                backoff_ms: backoff(
                    old(self).delay_ms as nat,
                    old(self).retries as nat,
                ) as u64,
            }),
            *final(self) == (Attempts {
                retries: (old(self).retries + 1) as u32,
                ..*old(self)
            }),
    {
        let attempt: u32 = self.retries;
        let backoff_ms: u64 = backoff_ms(self.delay_ms, attempt);
        self.retries = attempt + 1;
        RetryStep::Wait { attempt, backoff_ms }
    }

    /// The server answered. An answer that may be different next time is asked for
    /// again while there are retries left.
    pub fn answered(&mut self, status: u16) -> (r: RetryStep)
        requires
            old(self).retries <= old(self).retry,
        ensures
            final(self).retries <= final(self).retry,
            if transient(status as int) && old(self).retries < old(self).retry {
                &&& r == (RetryStep::Wait {
                    attempt: old(self).retries,
                    backoff_ms: backoff(
                        old(self).delay_ms as nat,
                        old(self).retries as nat,
                    ) as u64,
                })
                &&& *final(self) == (Attempts {
                    retries: (old(self).retries + 1) as u32,
                    ..*old(self)
                })
            } else {
                r == RetryStep::Accept && *final(self) == *old(self)
            },
    {
        if !is_transient_status(status) || self.retries >= self.retry {
            return RetryStep::Accept;
        }
        self.wait()
    }

    /// There was no answer.
    pub fn failed(&mut self, error: String) -> (r: RetryStep)
        requires
            old(self).retries <= old(self).retry,
        ensures
            final(self).retries <= final(self).retry,
            final(self).last_error == Some(error),
            final(self).retry == old(self).retry,
            final(self).delay_ms == old(self).delay_ms,
            if old(self).retries < old(self).retry {
                &&& r == (RetryStep::Wait {
                    attempt: old(self).retries,
                    backoff_ms: backoff(
                        old(self).delay_ms as nat,
                        old(self).retries as nat,
                    ) as u64,
                })
                &&& final(self).retries == old(self).retries + 1
            } else {
                r == RetryStep::GiveUp && final(self).retries == old(self).retries
            },
    {
        self.last_error = Some(error);
        if self.retries >= self.retry {
            return RetryStep::GiveUp;
        }
        self.wait()
    }
}

// ---- one host at a time ----------------------------------------------------------

/// The host of a URL in lower case, where the URL can be read and has one.
pub open spec fn host_in(url: Seq<char>) -> Option<Seq<char>> {
    match parsed_url(url) {
        Some(u) => match u.host {
            Some(h) => Some(ascii_lower(h)),
            None => None,
        },
        None => None,
    }
}

pub fn host_of(url: &str) -> (r: Option<String>)
    ensures
        text_view(r) == host_in(url@),
{
    match parse_url(url) {
        Some(u) => match u.host {
            Some(h) => Some(to_ascii_lowercase(h.as_str())),
            None => None,
        },
        None => None,
    }
}

/// Whether a request may start.
#[derive(Clone, Copy, Debug, PartialEq, Eq, Structural)]
pub enum Admission {
    /// The URL has no host, and no limit applies.
    Unlimited,
    /// The request holds one of the places of its host.
    Admitted,
    /// All places of the host are taken.
    Full,
}

/// How many requests each host has at the moment.
pub open spec fn places(s: Seq<(String, usize)>, host: Seq<char>) -> nat
    decreases s.len(),
{
    if s.len() == 0 {
        0
    } else if s[0].0@ == host {
        s[0].1 as nat
    } else {
        places(s.skip(1), host)
    }
}

/// Limits how many requests go to one host at a time.
#[derive(Debug)]
pub struct HostLimiter {
    pub limit: usize,
    /// The hosts that have had requests, and how many they have now.
    pub busy: Vec<(String, usize)>,
}

impl HostLimiter {
    /// No host has more requests than it may have.
    pub open spec fn valid(&self) -> bool {
        &&& self.limit >= 1
        &&& forall|host: Seq<char>| #[trigger] places(self.busy@, host) <= self.limit
    }

    /// A limiter with at least one place for each host.
    pub fn new(limit: usize) -> (r: HostLimiter)
        ensures
            r.valid(),
            r.limit == (if limit == 0 {
                1
            } else {
                limit
            }),
            forall|host: Seq<char>| #[trigger] places(r.busy@, host) == 0,
    {
        HostLimiter {
            limit: if limit == 0 {
                1
            } else {
                limit
            },
            busy: Vec::new(),
        }
    }

    fn position(&self, host: &str) -> (i: usize)
        ensures
            i <= self.busy@.len(),
            i < self.busy@.len() ==> self.busy@[i as int].0@ == host@ && places(self.busy@, host@)
                == self.busy@[i as int].1,
            i == self.busy@.len() ==> places(self.busy@, host@) == 0,
            forall|j: int| 0 <= j < i ==> (#[trigger] self.busy@[j]).0@ != host@,
    {
        let mut i: usize = 0;
        assert(self.busy@.skip(0) =~= self.busy@);
        while i < self.busy.len()
            invariant
                i <= self.busy@.len(),
                places(self.busy@, host@) == places(self.busy@.skip(i as int), host@),
                forall|j: int| 0 <= j < i ==> (#[trigger] self.busy@[j]).0@ != host@,
            decreases self.busy@.len() - i,
        {
            assert(self.busy@.skip(i as int)[0] == self.busy@[i as int]);
            if same(self.busy[i].0.as_str(), host) {
                return i;
            }
            assert(self.busy@.skip(i as int).skip(1) =~= self.busy@.skip(i + 1));
            i = i + 1;
        }
        i
    }

    /// Takes a place for a request to a host, where one is free.
    pub fn acquire(&mut self, host: Option<&str>) -> (r: Admission)
        requires
            old(self).valid(),
        ensures
            final(self).valid(),
            final(self).limit == old(self).limit,
            match host {
                None => r == Admission::Unlimited && *final(self) == *old(self),
                Some(h) => {
                    let key = ascii_lower(h@);
                    let now = places(old(self).busy@, key);
                    if now < old(self).limit {
                        &&& r == Admission::Admitted
                        &&& forall|x: Seq<char>| #[trigger]
                            places(final(self).busy@, x) == (if x == key {
                                now + 1
                            } else {
                                places(old(self).busy@, x)
                            })
                    } else {
                        r == Admission::Full && *final(self) == *old(self)
                    }
                },
            },
    {
        let host = match host {
            Some(h) => to_ascii_lowercase(h),
            None => {
                return Admission::Unlimited;
            },
        };
        let i: usize = self.position(host.as_str());
        let ghost before = self.busy@;
        let ghost key = host@;
        if i == self.busy.len() {
            self.busy.push((host, 1));
            proof {
                assert forall|x: Seq<char>| #[trigger] places(self.busy@, x) == (if x == key {
                    1
                } else {
                    places(before, x)
                }) by {
                    places_after_push(before, self.busy@.last(), x);
                }
            }
            return Admission::Admitted;
        }
        let n: usize = self.busy[i].1;
        assert(places(before, key) == n);
        if n >= self.limit {
            return Admission::Full;
        }
        self.busy[i].1 = n + 1;
        proof {
            assert forall|x: Seq<char>| #[trigger] places(self.busy@, x) == (if x == key {
                n + 1
            } else {
                places(before, x) as int
            }) by {
                assert(self.busy@ =~= before.update(i as int, self.busy@[i as int]));
                places_after_update(before, i as int, self.busy@[i as int], x);
            }
        }
        Admission::Admitted
    }

    /// Gives the place of a request to a host back.
    pub fn release(&mut self, host: &str)
        requires
            old(self).valid(),
            places(old(self).busy@, ascii_lower(host@)) > 0,
        ensures
            final(self).valid(),
            final(self).limit == old(self).limit,
            forall|x: Seq<char>| #[trigger]
                places(final(self).busy@, x) == (if x == ascii_lower(host@) {
                    places(old(self).busy@, x) - 1
                } else {
                    places(old(self).busy@, x) as int
                }),
    {
        let host = to_ascii_lowercase(host);
        let i: usize = self.position(host.as_str());
        let ghost before = self.busy@;
        let ghost key = host@;
        let n: usize = self.busy[i].1;
        self.busy[i].1 = n - 1;
        proof {
            assert forall|x: Seq<char>| #[trigger] places(self.busy@, x) == (if x == key {
                n - 1
            } else {
                places(before, x) as int
            }) by {
                assert(self.busy@ =~= before.update(i as int, self.busy@[i as int]));
                places_after_update(before, i as int, self.busy@[i as int], x);
            }
        }
    }
}

proof fn places_after_push(s: Seq<(String, usize)>, e: (String, usize), x: Seq<char>)
    requires
        forall|j: int| 0 <= j < s.len() ==> (#[trigger] s[j]).0@ != e.0@,
    ensures
        places(s.push(e), x) == (if x == e.0@ {
            e.1 as nat
        } else {
            places(s, x)
        }),
    decreases s.len(),
{
    let all = s.push(e);
    if s.len() == 0 {
        assert(all.skip(1) =~= s);
    } else {
        assert(all[0] == s[0]);
        let rest = s.skip(1);
        assert forall|j: int| 0 <= j < rest.len() implies (#[trigger] rest[j]).0@ != e.0@ by {
            assert(rest[j] == s[j + 1]);
        }
        places_after_push(rest, e, x);
        assert(all.skip(1) =~= rest.push(e));
        assert(s[0].0@ != e.0@);
    }
}

proof fn places_after_update(s: Seq<(String, usize)>, i: int, e: (String, usize), x: Seq<char>)
    requires
        0 <= i < s.len(),
        s[i].0@ == e.0@,
        forall|j: int| 0 <= j < i ==> (#[trigger] s[j]).0@ != e.0@,
    ensures
        places(s.update(i, e), x) == (if x == e.0@ {
            e.1 as nat
        } else {
            places(s, x)
        }),
    decreases s.len(),
{
    let all = s.update(i, e);
    if i == 0 {
        assert(all.skip(1) =~= s.skip(1));
    } else {
        assert(all[0] == s[0]);
        assert(s[0].0@ != e.0@);
        let rest = s.skip(1);
        assert forall|j: int| 0 <= j < i - 1 implies (#[trigger] rest[j]).0@ != e.0@ by {
            assert(rest[j] == s[j + 1]);
        }
        places_after_update(rest, i - 1, e, x);
        assert(all.skip(1) =~= rest.update(i - 1, e));
    }
}

// ---- rows ----------------------------------------------------------------------

/// What came of one URL.
#[derive(Clone, Debug)]
pub struct ScrapeRow {
    pub url: String,
    pub title: String,
    pub eval: Option<String>,
    pub time_ms: u64,
    pub worker: usize,
    /// How many retries it took.
    pub retries: u32,
    /// The status of the last answer; 0 where there was none.
    pub status: u16,
    /// What the selector found, where there was one.
    pub selected: Option<Vec<String>>,
}

/// The contents of a [`ScrapeRow`].
#[verifier::ext_equal]
pub struct RowModel {
    pub url: Seq<char>,
    pub title: Seq<char>,
    pub eval: Option<Seq<char>>,
    pub time_ms: u64,
    pub worker: usize,
    pub retries: u32,
    pub status: u16,
    pub selected: Option<Seq<Seq<char>>>,
}

impl View for ScrapeRow {
    type V = RowModel;

    open spec fn view(&self) -> RowModel {
        RowModel {
            url: self.url@,
            title: self.title@,
            eval: text_view(self.eval),
            time_ms: self.time_ms,
            worker: self.worker,
            retries: self.retries,
            status: self.status,
            selected: match self.selected {
                Some(v) => Some(views(v@)),
                None => None,
            },
        }
    }
}

pub open spec fn row_views(s: Seq<ScrapeRow>) -> Seq<RowModel> {
    s.map_values(|r: ScrapeRow| r@)
}

/// The title of a page; empty where it has none.
pub open spec fn title_in(body: Seq<u8>) -> Seq<char> {
    match title_events(body) {
        Ok(ev) => match title_of(ev) {
            Some(t) => t,
            None => seq![],
        },
        Err(_) => seq![],
    }
}

pub fn page_title(body: &[u8]) -> (r: String)
    ensures
        r@ == title_in(body@),
{
    match extract_title(body) {
        Ok(Some(t)) => t,
        _ => {
            let s = String::new();
            assert(s@ =~= seq![]);
            s
        },
    }
}

/// What a selector finds on a page: texts, or values of an attribute.
pub open spec fn found_texts(
    html: Seq<char>,
    selector: Seq<char>,
    attr: Option<Seq<char>>,
) -> Seq<Seq<char>> {
    match attr {
        Some(name) => attr_values(matches_in(html, selector), name),
        None => matches_in(html, selector).map_values(|t: HtmlTree| html_text(t, false)),
    }
}

/// What the selector finds on a page, where there is a selector and the page can
/// be read.
pub open spec fn selects(
    body: Seq<u8>,
    select: Option<Seq<char>>,
    attr: Option<Seq<char>>,
    found: Option<Seq<Seq<char>>>,
) -> bool {
    match found {
        Some(v) => select is Some && exists|html: Seq<char>|
            body == #[trigger] encode_utf8(html) && readable(html) && v == found_texts(
                html,
                select->0,
                attr,
            ),
        None => select is None || !valid_utf8(body) || exists|html: Seq<char>|
            body == #[trigger] encode_utf8(html) && !readable(html),
    }
}

pub fn page_selection(body: &[u8], select: Option<&str>, attr: Option<&str>) -> (r: Option<
    Vec<String>,
>)
    ensures
        selects(
            body@,
            match select {
                Some(s) => Some(s@),
                None => None,
            },
            match attr {
                Some(a) => Some(a@),
                None => None,
            },
            match r {
                Some(v) => Some(views(v@)),
                None => None,
            },
        ),
{
    let selector = match select {
        Some(s) => s,
        None => {
            return None;
        },
    };
    let html = match from_utf8(body) {
        Some(s) => s,
        None => {
            return None;
        },
    };
    let result = match attr {
        Some(name) => select_attr(html.as_str(), selector, name),
        None => select_text(html.as_str(), selector),
    };
    assert(body@ == encode_utf8(html@));
    match result {
        Ok(v) => Some(v),
        Err(_) => None,
    }
}

/// The worker that a URL belongs to.
pub fn worker_of(index: usize, concurrency: usize) -> (r: usize)
    ensures
        r == index as int % (if concurrency == 0 {
            1int
        } else {
            concurrency as int
        }),
{
    if concurrency == 0 {
        0
    } else {
        index % concurrency
    }
}

// ---- the way of one URL ----------------------------------------------------------

/// One URL on its way through a scrape.
#[derive(Debug)]
pub struct UrlRun {
    pub url: String,
    pub worker: usize,
    pub attempts: Attempts,
}

/// The wait that follows an attempt, where one does.
pub open spec fn wait_events(url: Seq<char>, step: RetryStep) -> Seq<EventModel> {
    match step {
        RetryStep::Wait { attempt, backoff_ms } => seq![
            EventModel::BackoffStart { url, attempt, backoff_ms },
        ],
        _ => seq![],
    }
}

impl UrlRun {
    /// No more retries were made than may be.
    pub open spec fn valid(&self) -> bool {
        self.attempts.retries <= self.attempts.retry
    }

    pub fn new(url: String, index: usize, concurrency: usize, retry: u32, delay_ms: u64) -> (r:
        UrlRun)
        ensures
            r.valid(),
            r.url == url,
            r.worker == index as int % (if concurrency == 0 {
                1int
            } else {
                concurrency as int
            }),
            r.attempts.retry == retry,
            r.attempts.delay_ms == delay_ms,
            r.attempts.retries == 0,
            r.attempts.last_error is None,
    {
        UrlRun {
            url,
            worker: worker_of(index, concurrency),
            attempts: Attempts::new(retry, delay_ms),
        }
    }

    /// An attempt starts.
    pub fn started(&self) -> (r: ScrapeEvent)
        ensures
            r@ == (EventModel::RequestStart { url: self.url@, attempt: self.attempts.retries }),
    {
        ScrapeEvent::RequestStart { url: self.url.clone(), attempt: self.attempts.retries }
    }

    fn push_wait(&self, step: RetryStep, events: &mut Vec<ScrapeEvent>)
        ensures
            event_views(final(events)@) == event_views(old(events)@) + wait_events(self.url@, step),
    {
        let ghost prior = events@;
        if let RetryStep::Wait { attempt, backoff_ms } = step {
            let e = ScrapeEvent::BackoffStart { url: self.url.clone(), attempt, backoff_ms };
            events.push(e);
            assert(event_views(events@) =~= event_views(prior) + wait_events(self.url@, step));
        } else {
            assert(event_views(events@) =~= event_views(prior) + wait_events(self.url@, step));
        }
    }

    /// The server answered: what is told, and what follows.
    pub fn answered(&mut self, status: u16, body_size: usize, latency_ms: u64) -> (r: (
        Vec<ScrapeEvent>,
        RetryStep,
    ))
        requires
            old(self).valid(),
        ensures
            final(self).valid(),
            final(self).url == old(self).url,
            final(self).worker == old(self).worker,
            if transient(status as int) && old(self).attempts.retries < old(self).attempts.retry {
                &&& r.1 == (RetryStep::Wait {
                    attempt: old(self).attempts.retries,
                    backoff_ms: backoff(
                        old(self).attempts.delay_ms as nat,
                        old(self).attempts.retries as nat,
                    ) as u64,
                })
                &&& final(self).attempts == (Attempts {
                    retries: (old(self).attempts.retries + 1) as u32,
                    ..old(self).attempts
                })
            } else {
                r.1 == RetryStep::Accept && final(self).attempts == old(self).attempts
            },
            event_views(r.0@) == seq![
                EventModel::Response { url: old(self).url@, status, body_size, latency_ms },
            ] + wait_events(old(self).url@, r.1),
    {
        let e = ScrapeEvent::Response { url: self.url.clone(), status, body_size, latency_ms };
        let mut events: Vec<ScrapeEvent> = Vec::new();
        events.push(e);
        assert(event_views(events@) =~= seq![e@]);
        let step = self.attempts.answered(status);
        self.push_wait(step, &mut events);
        (events, step)
    }

    /// There was no answer: what is told, and what follows.
    pub fn failed(&mut self, error: String) -> (r: (Vec<ScrapeEvent>, RetryStep))
        requires
            old(self).valid(),
        ensures
            final(self).valid(),
            final(self).url == old(self).url,
            final(self).worker == old(self).worker,
            final(self).attempts.last_error == Some(error),
            final(self).attempts.retry == old(self).attempts.retry,
            final(self).attempts.delay_ms == old(self).attempts.delay_ms,
            if old(self).attempts.retries < old(self).attempts.retry {
                &&& r.1 == (RetryStep::Wait {
                    attempt: old(self).attempts.retries,
                    backoff_ms: backoff(
                        old(self).attempts.delay_ms as nat,
                        old(self).attempts.retries as nat,
                    ) as u64,
                })
                &&& final(self).attempts.retries == old(self).attempts.retries + 1
            } else {
                &&& r.1 == RetryStep::GiveUp
                &&& final(self).attempts.retries == old(self).attempts.retries
            },
            event_views(r.0@) == wait_events(old(self).url@, r.1),
    {
        let mut events: Vec<ScrapeEvent> = Vec::new();
        assert(event_views(events@) =~= seq![]);
        let step = self.attempts.failed(error);
        self.push_wait(step, &mut events);
        assert(event_views(events@) =~= wait_events(self.url@, step));
        (events, step)
    }

    /// The answer stands: what is told, and the row, with the title of the page and
    /// what the selector finds on it.
    pub fn completed(
        self,
        status: u16,
        body: &[u8],
        eval: Option<String>,
        select: Option<&str>,
        attr: Option<&str>,
        time_ms: u64,
    ) -> (r: (ScrapeEvent, ScrapeRow))
        ensures
            r.0@ == (EventModel::Completed {
                url: self.url@,
                final_status: status,
                title: title_in(body@),
                total_time_ms: time_ms,
                retries: self.attempts.retries,
                eval: text_view(eval),
            }),
            r.1@ == (RowModel {
                url: self.url@,
                title: title_in(body@),
                eval: text_view(eval),
                time_ms,
                worker: self.worker,
                retries: self.attempts.retries,
                status,
                selected: r.1@.selected,
            }),
            selects(
                body@,
                match select {
                    Some(s) => Some(s@),
                    None => None,
                },
                match attr {
                    Some(a) => Some(a@),
                    None => None,
                },
                r.1@.selected,
            ),
    {
        let title = page_title(body);
        let selected = page_selection(body, select, attr);
        let said = match &eval {
            Some(v) => Some(v.clone()),
            None => None,
        };
        let retries: u32 = self.attempts.retries;
        let event = ScrapeEvent::Completed {
            url: self.url.clone(),
            final_status: status,
            title: title.clone(),
            total_time_ms: time_ms,
            retries,
            eval: said,
        };
        let row = ScrapeRow {
            url: self.url,
            title,
            eval,
            time_ms,
            worker: self.worker,
            retries,
            status,
            selected,
        };
        (event, row)
    }

    /// There is no answer, and no attempt left: what is told, and the row.
    pub fn gave_up(self, time_ms: u64) -> (r: (ScrapeEvent, ScrapeRow))
        ensures
            r.0@ == (EventModel::Failed {
                url: self.url@,
                error: match self.attempts.last_error {
                    Some(e) => e@,
                    None => "fetch failed"@,
                },
                attempts: if self.attempts.retries == u32::MAX {
                    u32::MAX
                } else {
                    (self.attempts.retries + 1) as u32
                },
            }),
            r.1@ == (RowModel {
                url: self.url@,
                title: seq![],
                eval: None,
                time_ms,
                worker: self.worker,
                retries: self.attempts.retries,
                status: 0,
                selected: None,
            }),
    {
        let retries: u32 = self.attempts.retries;
        let error = match self.attempts.last_error {
            Some(e) => e,
            None => "fetch failed".to_owned(),
        };
        let event = ScrapeEvent::Failed {
            url: self.url.clone(),
            error,
            attempts: if retries == u32::MAX {
                u32::MAX
            } else {
                retries + 1
            },
        };
        let title = String::new();
        assert(title@ =~= seq![]);
        let row = ScrapeRow {
            url: self.url,
            title,
            eval: None,
            time_ms,
            worker: self.worker,
            retries,
            status: 0,
            selected: None,
        };
        (event, row)
    }
}

// ---- order ---------------------------------------------------------------------

/// A row does not belong behind another: by worker, then by URL.
pub open spec fn row_le(a: RowModel, b: RowModel) -> bool {
    a.worker < b.worker || (a.worker == b.worker && text_le(a.url, b.url))
}

/// A row put in its place, behind those that it does not belong in front of.
pub open spec fn placed(s: Seq<RowModel>, x: RowModel) -> Seq<RowModel>
    decreases s.len(),
{
    if s.len() == 0 || row_le(s.last(), x) {
        s.push(x)
    } else {
        placed(s.drop_last(), x).push(s.last())
    }
}

/// Rows in order; those that are alike stay as they come.
pub open spec fn sorted_rows(s: Seq<RowModel>) -> Seq<RowModel>
    decreases s.len(),
{
    if s.len() == 0 {
        seq![]
    } else {
        placed(sorted_rows(s.drop_last()), s.last())
    }
}

fn row_not_after(a: &ScrapeRow, b: &ScrapeRow) -> (r: bool)
    ensures
        r == row_le(a@, b@),
{
    a.worker < b.worker || (a.worker == b.worker && not_after(a.url.as_str(), b.url.as_str()))
}

/// Puts rows in order.
pub fn sort_rows(rows: Vec<ScrapeRow>) -> (r: Vec<ScrapeRow>)
    ensures
        row_views(r@) == sorted_rows(row_views(rows@)),
{
    let ghost all = row_views(rows@);
    let n: usize = rows.len();
    let mut rest = rows;
    let mut out: Vec<ScrapeRow> = Vec::new();
    let mut k: usize = 0;
    assert(row_views(out@) =~= sorted_rows(all.take(0)));
    assert(rest@ =~= rows@.skip(0));
    while k < n
        invariant
            k <= n,
            n == rows@.len(),
            all == row_views(rows@),
            rest@ == rows@.skip(k as int),
            row_views(out@) == sorted_rows(all.take(k as int)),
        decreases n - k,
    {
        let item = rest.remove(0);
        assert(rest@ =~= rows@.skip(k + 1));
        let ghost x = item@;
        let ghost s = row_views(out@);
        let ghost prior = out@;
        let mut at: usize = out.len();
        assert(s.take(at as int) =~= s);
        assert(s.skip(at as int) =~= seq![]);
        assert(placed(s, x) =~= placed(s.take(at as int), x) + s.skip(at as int));
        while at > 0 && !row_not_after(&out[at - 1], &item)
            invariant
                at <= out@.len(),
                out@ == prior,
                s == row_views(out@),
                x == item@,
                placed(s, x) == placed(s.take(at as int), x) + s.skip(at as int),
            decreases at,
        {
            let ghost t = s.take(at as int);
            assert(t.last() == out@[at - 1]@);
            assert(t.drop_last() =~= s.take(at - 1));
            assert(placed(t, x) == placed(s.take(at - 1), x).push(t.last()));
            assert(placed(s, x) =~= placed(s.take(at - 1), x) + s.skip(at - 1));
            at = at - 1;
        }
        proof {
            let t = s.take(at as int);
            if at > 0 {
                assert(t.last() == out@[at - 1]@);
            }
            assert(placed(t, x) == t.push(x));
            assert(placed(s, x) =~= s.insert(at as int, x));
        }
        out.insert(at, item);
        proof {
            assert(row_views(out@) =~= s.insert(at as int, x));
            assert(all.take(k + 1).drop_last() =~= all.take(k as int));
            assert(all.take(k + 1).last() == x);
        }
        k = k + 1;
    }
    assert(all.take(k as int) =~= all);
    out
}

/// Rows that are put in order are in order, and are the same rows.
pub proof fn sorting_sorts(s: Seq<RowModel>)
    ensures
        forall|i: int, j: int|
            0 <= i < j < sorted_rows(s).len() ==> row_le(
                #[trigger] sorted_rows(s)[i],
                #[trigger] sorted_rows(s)[j],
            ),
        sorted_rows(s).to_multiset() == s.to_multiset(),
    decreases s.len(),
{
    if s.len() > 0 {
        sorting_sorts(s.drop_last());
        placing_keeps_order(sorted_rows(s.drop_last()), s.last());
        assert(s =~= s.drop_last().push(s.last()));
        vstd::seq_lib::to_multiset_build(s.drop_last(), s.last());
    } else {
        assert(s =~= seq![]);
    }
}

proof fn row_le_total(a: RowModel, b: RowModel)
    ensures
        row_le(a, b) || row_le(b, a),
{
    text_le_total(a.url, b.url);
}

proof fn row_le_transitive(a: RowModel, b: RowModel, c: RowModel)
    requires
        row_le(a, b),
        row_le(b, c),
    ensures
        row_le(a, c),
{
    if a.worker == b.worker && b.worker == c.worker {
        text_le_transitive(a.url, b.url, c.url);
    }
}

proof fn placing_keeps_order(s: Seq<RowModel>, x: RowModel)
    requires
        forall|i: int, j: int|
            0 <= i < j < s.len() ==> row_le(#[trigger] s[i], #[trigger] s[j]),
    ensures
        forall|i: int, j: int|
            0 <= i < j < placed(s, x).len() ==> row_le(
                #[trigger] placed(s, x)[i],
                #[trigger] placed(s, x)[j],
            ),
        placed(s, x).to_multiset() == s.to_multiset().insert(x),
        forall|i: int|
            0 <= i < placed(s, x).len() ==> (#[trigger] placed(s, x)[i] == x || s.contains(
                placed(s, x)[i],
            )),
    decreases s.len(),
{
    if s.len() == 0 || row_le(s.last(), x) {
        assert forall|i: int, j: int| 0 <= i < j < placed(s, x).len() implies row_le(
            #[trigger] placed(s, x)[i],
            #[trigger] placed(s, x)[j],
        ) by {
            if j == s.len() && i < s.len() - 1 {
                assert(row_le(s[i], s[s.len() - 1]));
                row_le_transitive(s[i], s.last(), x);
            }
        }
        vstd::seq_lib::to_multiset_build(s, x);
        assert forall|i: int| 0 <= i < placed(s, x).len() implies (#[trigger] placed(s, x)[i] == x
            || s.contains(placed(s, x)[i])) by {
            if i < s.len() {
                assert(placed(s, x)[i] == s[i]);
            }
        }
    } else {
        let front = s.drop_last();
        assert forall|i: int, j: int| 0 <= i < j < front.len() implies row_le(
            #[trigger] front[i],
            #[trigger] front[j],
        ) by {
            assert(row_le(s[i], s[j]));
        }
        placing_keeps_order(front, x);
        row_le_total(s.last(), x);
        let p = placed(front, x);
        assert forall|i: int| 0 <= i < p.len() implies row_le(#[trigger] p[i], s.last()) by {
            if p[i] != x {
                let k = choose|k: int| 0 <= k < front.len() && front[k] == p[i];
                assert(row_le(s[k], s[s.len() - 1]));
            }
        }
        assert forall|i: int, j: int| 0 <= i < j < placed(s, x).len() implies row_le(
            #[trigger] placed(s, x)[i],
            #[trigger] placed(s, x)[j],
        ) by {
            if j < p.len() {
                assert(row_le(p[i], p[j]));
            }
        }
        assert forall|i: int| 0 <= i < placed(s, x).len() implies (#[trigger] placed(s, x)[i] == x
            || s.contains(placed(s, x)[i])) by {
            if i < p.len() {
                if p[i] != x {
                    let k = choose|k: int| 0 <= k < front.len() && front[k] == p[i];
                    assert(s[k] == p[i]);
                }
            } else {
                assert(s[s.len() - 1] == placed(s, x)[i]);
            }
        }
        vstd::seq_lib::to_multiset_build(p, s.last());
        assert(s =~= front.push(s.last()));
        vstd::seq_lib::to_multiset_build(front, s.last());
        assert(placed(s, x).to_multiset() =~= s.to_multiset().insert(x));
    }
}

// ---- the report ----------------------------------------------------------------

/// What was selected on a page, as one more column.
pub open spec fn selected_column(r: RowModel) -> Seq<char> {
    match r.selected {
        Some(v) => "\t"@ + joined(v, ", "@),
        None => seq![],
    }
}

/// A line for each row: its time, its URL and its title, and what was selected where
/// there was a selector.
pub open spec fn rows_text(s: Seq<RowModel>) -> Seq<char>
    decreases s.len(),
{
    if s.len() == 0 {
        seq![]
    } else {
        rows_text(s.drop_last()) + decimal(s.last().time_ms as nat) + "ms\t"@ + s.last().url
            + "\t"@ + s.last().title + selected_column(s.last()) + "\n"@
    }
}

pub open spec fn text_or_null(s: Option<Seq<char>>) -> JsonModel {
    match s {
        Some(t) => JsonModel::Text(t),
        None => JsonModel::Null,
    }
}

/// A row as JSON. What was selected is left out where there was no selector.
pub open spec fn row_json(r: RowModel) -> JsonModel {
    let base = seq![
        ("url"@, JsonModel::Text(r.url)),
        ("title"@, JsonModel::Text(r.title)),
        ("eval"@, text_or_null(r.eval)),
        ("time_ms"@, JsonModel::Unsigned(r.time_ms)),
        ("worker"@, JsonModel::Unsigned(r.worker as u64)),
        ("retries"@, JsonModel::Unsigned(r.retries as u64)),
        ("status"@, JsonModel::Unsigned(r.status as u64)),
    ];
    JsonModel::Object(
        match r.selected {
            Some(v) => base.push(
                ("selected"@, JsonModel::Array(v.map_values(|s: Seq<char>| JsonModel::Text(s)))),
            ),
            None => base,
        },
    )
}

/// The report of a scrape as JSON.
pub open spec fn report_json(
    rows: Seq<RowModel>,
    total_time_ms: u64,
    concurrency: usize,
    avg_time_ms: Seq<char>,
) -> JsonModel {
    JsonModel::Object(
        seq![
            ("total_urls"@, JsonModel::Unsigned(rows.len() as u64)),
            ("concurrency"@, JsonModel::Unsigned(concurrency as u64)),
            ("total_time_ms"@, JsonModel::Unsigned(total_time_ms)),
            ("avg_time_ms"@, JsonModel::Decimal(avg_time_ms)),
            ("results"@, JsonModel::Array(rows.map_values(|r: RowModel| row_json(r)))),
        ],
    )
}

fn row_to_json(r: &ScrapeRow) -> (j: Json)
    ensures
        j@ == row_json(r@),
{
    let mut m: Vec<(String, Json)> = Vec::new();
    m.push(("url".to_owned(), Json::text(r.url.as_str())));
    m.push(("title".to_owned(), Json::text(r.title.as_str())));
    m.push(
        (
            "eval".to_owned(),
            match &r.eval {
                Some(s) => Json::text(s.as_str()),
                None => Json::Null,
            },
        ),
    );
    m.push(("time_ms".to_owned(), Json::Unsigned(r.time_ms)));
    m.push(("worker".to_owned(), Json::Unsigned(r.worker as u64)));
    m.push(("retries".to_owned(), Json::Unsigned(r.retries as u64)));
    m.push(("status".to_owned(), Json::Unsigned(r.status as u64)));
    if let Some(v) = &r.selected {
        let ghost want = views(v@).map_values(|s: Seq<char>| JsonModel::Text(s));
        let mut list: Vec<Json> = Vec::new();
        let mut i: usize = 0;
        while i < v.len()
            invariant
                i <= v@.len(),
                want == views(v@).map_values(|s: Seq<char>| JsonModel::Text(s)),
                json_views(list@) == want.take(i as int),
            decreases v@.len() - i,
        {
            let ghost prior = list@;
            let j = Json::text(v[i].as_str());
            list.push(j);
            assert(json_views(list@) =~= json_views(prior).push(j@));
            assert(want.take(i + 1) =~= want.take(i as int).push(want[i as int]));
            i = i + 1;
        }
        assert(want.take(i as int) =~= want);
        m.push(("selected".to_owned(), Json::array(list)));
    }
    let j = Json::object(m);
    assert(j@->Object_0 =~= row_json(r@)->Object_0);
    j
}

/// The rows as text or, unless text is asked for, as JSON. The average time comes
/// as it is to be written.
pub fn format_summary(
    rows: &Vec<ScrapeRow>,
    format: &str,
    total_time_ms: u64,
    concurrency: usize,
    avg_time_ms: &str,
) -> (r: String)
    ensures
        r@ == (if format@ == "text"@ {
            rows_text(row_views(rows@))
        } else {
            pretty_text(
                report_json(row_views(rows@), total_time_ms, concurrency, avg_time_ms@),
                seq![],
            ) + "\n"@
        }),
{
    let ghost all = row_views(rows@);
    if same(format, "text") {
        let mut out = String::new();
        assert(out@ =~= rows_text(all.take(0)));
        let mut i: usize = 0;
        while i < rows.len()
            invariant
                i <= rows@.len(),
                all == row_views(rows@),
                out@ == rows_text(all.take(i as int)),
            decreases rows@.len() - i,
        {
            push_decimal(&mut out, rows[i].time_ms);
            out.append("ms\t");
            out.append(rows[i].url.as_str());
            out.append("\t");
            out.append(rows[i].title.as_str());
            let ghost before = out@;
            match &rows[i].selected {
                Some(v) => {
                    out.append("\t");
                    out.append(join(v, ", ").as_str());
                },
                None => {},
            }
            assert(out@ =~= before + selected_column(rows@[i as int]@));
            out.append("\n");
            assert(all.take(i + 1).drop_last() =~= all.take(i as int));
            assert(all.take(i + 1).last() == rows@[i as int]@);
            i = i + 1;
        }
        assert(all.take(i as int) =~= all);
        return out;
    }
    let ghost want = all.map_values(|r: RowModel| row_json(r));
    let mut list: Vec<Json> = Vec::new();
    let mut i: usize = 0;
    while i < rows.len()
        invariant
            i <= rows@.len(),
            all == row_views(rows@),
            want == all.map_values(|r: RowModel| row_json(r)),
            json_views(list@) == want.take(i as int),
        decreases rows@.len() - i,
    {
        let ghost prior = list@;
        let j = row_to_json(&rows[i]);
        list.push(j);
        assert(json_views(list@) =~= json_views(prior).push(j@));
        assert(want.take(i + 1) =~= want.take(i as int).push(want[i as int]));
        i = i + 1;
    }
    assert(want.take(i as int) =~= want);
    let mut m: Vec<(String, Json)> = Vec::new();
    m.push(("total_urls".to_owned(), Json::Unsigned(rows.len() as u64)));
    m.push(("concurrency".to_owned(), Json::Unsigned(concurrency as u64)));
    m.push(("total_time_ms".to_owned(), Json::Unsigned(total_time_ms)));
    m.push(("avg_time_ms".to_owned(), Json::Decimal(avg_time_ms.to_owned())));
    m.push(("results".to_owned(), Json::array(list)));
    let j = Json::object(m);
    assert(j@->Object_0 =~= report_json(
        all,
        total_time_ms,
        concurrency,
        avg_time_ms@,
    )->Object_0);
    let mut s = j.to_pretty();
    s.append("\n");
    s
}

// ---- laws ----------------------------------------------------------------------

/// The wait never shrinks from one attempt to the next, and never exceeds half a
/// minute.
pub proof fn backoff_grows_to_its_cap(base_ms: nat, attempt: nat)
    ensures
        backoff(base_ms, attempt) <= backoff(base_ms, attempt + 1) <= 30_000,
{
    lemma_pow2_strictly_increases(attempt, attempt + 1);
    let p = pow2(attempt);
    let q = pow2(attempt + 1);
    assert(base_ms * p <= base_ms * q) by (nonlinear_arith)
        requires
            p <= q,
    ;
}

} // verus!
