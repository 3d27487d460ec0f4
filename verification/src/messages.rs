//! What is said when something goes wrong, and what is printed.
use crate::cli::command::{report, summarize};
use crate::cli::dashboard::{AppState, Phase};
use crate::fetch::client::Error as FetchError;
use crate::json::{json_text, JsonModel};
use crate::session::{BrowseError, ChainStepOutput};
use crate::snapshot::PageSnapshot;
use crate::text::{debugged, decimal, joined, views};
use crate::webarena::trajectory::StopReason;
use vstd::prelude::*;
use vstd::string::*;

verus! {

/// Every error of a request says what it is and names what it is about.
pub proof fn request_errors_say_what_they_are(e: &FetchError, r: String)
    requires
        call_ensures(FetchError::message, (e,), r),
    ensures
        *e matches FetchError::Uri(m) ==> r@ == "invalid uri: "@ + m@,
        *e matches FetchError::Scheme(m) ==> r@ == "unsupported scheme "@ + debugged(m@)
            + " (bouncy-fetch only speaks http/https)"@,
        *e matches FetchError::Build(m) ==> r@ == "request build error: "@ + m@,
        *e matches FetchError::Client(m) ==> r@ == "client error: "@ + m@,
        *e matches FetchError::Body(m) ==> r@ == "body error: "@ + m@,
        *e matches FetchError::Tls(m) ==> r@ == "tls config: "@ + m@,
        *e matches FetchError::HeaderName(m) ==> r@ == "invalid header name "@ + debugged(m@),
        *e matches FetchError::HeaderValue(m) ==> r@ == "invalid header value for "@ + debugged(
            m@,
        ),
        *e matches FetchError::InvalidMethod(m) ==> r@ == "invalid method "@ + debugged(m@),
        *e matches FetchError::Timeout(ms) ==> r@ == "request timed out after "@
            + crate::fetch::client::duration_text(ms),
        *e matches FetchError::TooManyRedirects(n) ==> r@ == "too many redirects (cap: "@
            + decimal(n as nat) + ")"@,
        *e matches FetchError::BadRedirectLocation(l, u) ==> r@ == "redirect Location "@
            + debugged(l@) + " could not be resolved against "@ + u@,
{
}

/// Every error of a session does.
pub proof fn session_errors_say_what_they_are(e: &BrowseError, r: String)
    requires
        call_ensures(BrowseError::message, (e,), r),
    ensures
        *e matches BrowseError::Fetch(m) ==> r@ == "fetch error: "@ + m@,
        *e matches BrowseError::Js(m) ==> r@ == "js runtime error: "@ + m@,
        *e matches BrowseError::Dom(m) ==> r@ == "html parse error: "@ + m@,
        *e is NotUtf8 ==> r@ == "body is not valid UTF-8"@,
        *e is ActorGone ==> r@ == "session actor disappeared"@,
        *e matches BrowseError::NoMatch(m) ==> r@ == "selector matched no elements: "@ + debugged(
            m@,
        ),
        *e matches BrowseError::Url(m) ==> r@ == "invalid url: "@ + m@,
        *e matches BrowseError::Io(m) ==> r@ == "io: "@ + m@,
{
}

/// Every error of a script, of a document and of a scan does.
pub proof fn other_errors_say_what_they_are(
    e: &crate::js::Error,
    r: String,
    d: &crate::dom::Error,
    s: String,
    x: &crate::extract::Error,
    t: String,
)
    requires
        call_ensures(crate::js::Error::message, (e,), r),
        call_ensures(crate::dom::Error::message, (d,), s),
        call_ensures(crate::extract::Error::message, (x,), t),
    ensures
        *e matches crate::js::Error::Compile(m) ==> r@ == "compile error: "@ + m@,
        *e matches crate::js::Error::Runtime(m) ==> r@ == "runtime error: "@ + m@,
        *e is Convert ==> r@ == "conversion error"@,
        *e is NavTerminated ==> r@ == "execution halted by queued navigation"@,
        *d matches crate::dom::Error::Parse(m) ==> s@ == "parse error: "@ + m@,
        *d matches crate::dom::Error::Serialize(m) ==> s@ == "serialize error: "@ + m@,
        *d matches crate::dom::Error::UnknownNode(id) ==> s@ == "unknown node id "@ + decimal(
            id as nat,
        ),
        t@ == "html rewriter: "@ + x->Rewriter_0@,
{
}

/// Why a run ended is told by name.
pub proof fn ends_are_told_by_name(e: &StopReason, r: String)
    requires
        call_ensures(StopReason::text, (e,), r),
    ensures
        *e is Done ==> r@ == "Done"@,
        *e is MaxSteps ==> r@ == "MaxSteps"@,
        *e matches StopReason::Error(m) ==> r@ == "Error("@ + debugged(m@) + ")"@,
{
}

/// A snapshot in one line: its URL, its title, and how many it has of everything.
pub proof fn snapshots_are_counted_in_one_line(s: &PageSnapshot, r: String)
    requires
        call_ensures(summarize, (s,), r),
    ensures
        r@ == "snapshot @ "@ + s.url@ + " — title="@ + debugged(s.title@) + ", "@ + decimal(
            s.forms@.len(),
        ) + " forms, "@ + decimal(s.links@.len()) + " links, "@ + decimal(s.buttons@.len())
            + " buttons, "@ + decimal(s.inputs@.len()) + " inputs, "@ + decimal(s.headings@.len())
            + " headings"@,
{
}

/// What a step gave is printed: a snapshot in one line, a value behind an arrow; as JSON,
/// a list of texts or the value by its name.
pub proof fn outputs_are_printed(
    s: PageSnapshot,
    snap: &ChainStepOutput,
    line: String,
    a: Vec<String>,
    found: Vec<String>,
    texts: &ChainStepOutput,
    b: Vec<String>,
    value: String,
    eval: &ChainStepOutput,
    c: Vec<String>,
    d: Vec<String>,
)
    requires
        *snap == ChainStepOutput::Snapshot(s),
        call_ensures(summarize, (&s,), line),
        call_ensures(report, (snap, false), a),
        *texts == ChainStepOutput::Reads(found),
        call_ensures(report, (texts, true), b),
        *eval == (ChainStepOutput::Eval { result: value, snapshot: s }),
        call_ensures(report, (eval, false), c),
        call_ensures(report, (eval, true), d),
    ensures
        views(a@) == seq!["  ↳ "@ + line@],
        views(b@) == seq![
            json_text(
                JsonModel::Array(found@.map_values(|t: String| JsonModel::Text(t@))),
            ),
        ],
        views(c@) == seq!["  ↳ "@ + value@],
        views(d@) == seq![json_text(JsonModel::Object(seq![("eval"@, JsonModel::Text(value@))]))],
{
    assert(views(found@).map_values(|t: Seq<char>| JsonModel::Text(t)) =~= found@.map_values(
        |t: String| JsonModel::Text(t@),
    ));
}

/// The dashboard's heading: how many are done, of how many, how many are active, and
/// whether all are.
pub proof fn headings_count(state: &AppState, r: String)
    requires
        call_ensures(AppState::header_text, (state,), r),
        state.valid(),
    ensures
        ({
            let m = state@;
            let all = if m.total_urls as nat >= m.urls.len() {
                m.total_urls as nat
            } else {
                m.urls.len()
            };
            r@ == " bouncy scrape — "@ + decimal((m.completed + m.failed) as nat) + "/"@ + decimal(
                all,
            ) + " done · "@ + decimal(m.active as nat) + " active"@ + (if m.finished {
                " · ✔ finished"@
            } else {
                seq![]
            }) + " "@
        }),
{
}

/// Text set to the right in a number of places, as far as there is room.
pub open spec fn to_the_right(s: Seq<char>, width: int) -> Seq<char> {
    if s.len() < width {
        Seq::new((width - s.len()) as nat, |i: int| ' ') + s
    } else {
        s
    }
}

/// The front of a row: its status and its time, each in its place, and the number of tries
/// where there was more than one.
pub proof fn rows_start_with_status_and_time(
    state: &AppState,
    k: usize,
    r: (Phase, String, String, String),
)
    requires
        call_ensures(AppState::row, (state, k), r),
        k < state@.urls.len(),
    ensures
        ({
            let u = state@.urls[k as int].1;
            let status = match u.status {
                Some(c) => decimal(c as nat),
                None => "···"@,
            };
            let time = match u.latency_ms {
                Some(ms) => decimal(ms as nat) + "ms"@,
                None => "—"@,
            };
            let tries = if u.attempts > 1 {
                " (try "@ + decimal(u.attempts as nat) + ")"@
            } else {
                seq![]
            };
            r.1@ == " "@ + to_the_right(status, 4) + " "@ + to_the_right(time, 7) + tries + "  "@
        }),
{
}

/// The URL of a row and its title, each in so many places at most: what is longer loses its
/// end to an ellipsis.
pub proof fn rows_show_url_and_title(
    state: &AppState,
    k: usize,
    r: (Phase, String, String, String),
)
    requires
        call_ensures(AppState::row, (state, k), r),
        k < state@.urls.len(),
    ensures
        r.0 == state@.urls[k as int].1.phase,
        ({
            let url = state@.urls[k as int].0;
            &&& url.len() <= 60 ==> r.2@ == url
            &&& url.len() > 60 ==> r.2@.len() == 60 && r.2@.take(59) == url.take(59)
                && r.2@.last() == '…'
        }),
        match state@.urls[k as int].1.title {
            Some(t) => {
                &&& t.len() == 0 ==> r.3@.len() == 0
                &&& 0 < t.len() <= 40 ==> r.3@ == "  \""@ + t + "\""@
                &&& t.len() > 40 ==> r.3@ == "  \""@ + t.take(39).push('…') + "\""@
            },
            None => r.3@.len() == 0,
        },
{
    let url = state@.urls[k as int].0;
    if url.len() > 60 {
        assert(r.2@.take(59) =~= url.take(59));
    }
}

/// A header that is none is named as it was given.
pub proof fn bad_headers_are_quoted(raw: &str, r: Result<(&str, &str), String>)
    requires
        call_ensures(crate::cli::request::parse_header, (raw,), r),
    ensures
        r matches Err(e) ==> e@ == "invalid --header "@ + debugged(raw@)
            + " (expected `Name: Value`)"@,
{
}

/// A list of texts is written in brackets: each more stands quoted behind a comma.
pub proof fn lists_are_written_in_brackets(v: &Vec<String>, r: String, w: &Vec<String>, s: String, t: String)
    requires
        call_ensures(crate::text::debug_list, (v,), r),
        call_ensures(crate::text::debug_list, (w,), s),
        w@ == v@.push(t),
    ensures
        v@.len() == 0 ==> r@ == "["@ + "]"@ && s@ == "["@ + debugged(t@) + "]"@,
        v@.len() > 0 ==> s@ == r@.drop_last() + ", "@ + debugged(t@) + "]"@,
{
    let f = |x: Seq<char>| debugged(x);
    let a = views(v@).map_values(f);
    let b = views(w@).map_values(f);
    reveal_strlit("]");
    reveal_strlit("[");
    assert(b =~= a.push(debugged(t@)));
    assert(b.drop_last() =~= a);
    if v@.len() == 0 {
        assert(a =~= seq![]);
        assert("["@ + Seq::<char>::empty() + "]"@ =~= "["@ + "]"@);
    } else {
        assert(r@.drop_last() =~= "["@ + joined(a, ", "@));
        assert(s@ =~= r@.drop_last() + ", "@ + debugged(t@) + "]"@);
    }
}

} // verus!
