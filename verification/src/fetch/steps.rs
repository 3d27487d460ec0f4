//! What each step of a request comes to.
use crate::fetch::blocklist::{blocked, TrackerBlocklist};
use crate::fetch::client::{
    bad_header, check_request, check_trust, default_headers, empty_file, names, receive, refusal,
    sent_headers, without_body_headers, Error, ErrorModel, Exchange, FetchRequest, Fetcher,
    FetcherBuilder, Response, Step,
};
use crate::fetch::cookies::CookieJar;
use crate::fetch::decode::{gunzipped, inflated, unbrotlied, unzlibbed};
use crate::fetch::headers::{
    header_text, header_values, is_header_name, is_header_value, is_token, parsed_uri, visible_text,
};
use crate::text::{all_ascii, ascii_lower, ascii_upper, has_text, occurs_at, same_ignoring_case, trimmed, upper_text};
use crate::urls::{joined_url, parsed_url};
use http::{HeaderMap, HeaderValue};
use vstd::prelude::*;
use vstd::string::*;
use vstd::utf8::encode_utf8;

verus! {

/// The first header of a name, in lower case, holds this text: its bytes are characters
/// that can be seen, spaces or tabs.
pub open spec fn shows(h: HeaderMap<HeaderValue>, name: Seq<char>, text: Seq<char>) -> bool {
    &&& header_values(h).dom().contains(name)
    &&& header_values(h)[name].len() > 0
    &&& header_values(h)[name][0].len() == text.len()
    &&& forall|i: int|
        0 <= i < text.len() ==> {
            let b = #[trigger] header_values(h)[name][0][i];
            (32 <= b < 127 || b == 9) && text[i] as int == b as int
        }
}

proof fn shown_is_read(h: HeaderMap<HeaderValue>, name: Seq<char>, text: Seq<char>)
    requires
        shows(h, name, text),
    ensures
        header_text(h, name) == Some(text),
{
    let b = header_values(h)[name][0];
    assert forall|i: int| 0 <= i < b.len() implies 32 <= (#[trigger] b[i]) < 127 || b[i] == 9 by {
        assert(header_values(h)[name][0][i] == b[i]);
    }
    let t = visible_text(b)->0;
    assert forall|i: int| 0 <= i < t.len() implies t[i] == text[i] by {
        assert(header_values(h)[name][0][i] == b[i]);
    }
    assert(t =~= text);
}

proof fn location_is_lower()
    ensures
        ascii_lower("location"@) == "location"@,
        ascii_lower("content-encoding"@) == "content-encoding"@,
        ascii_lower("content-length"@) == "content-length"@,
{
    reveal_strlit("location");
    reveal_strlit("content-encoding");
    reveal_strlit("content-length");
    assert(ascii_lower("location"@) =~= "location"@);
    assert(ascii_lower("content-encoding"@) =~= "content-encoding"@);
    assert(ascii_lower("content-length"@) =~= "content-length"@);
}

// ---- redirects -------------------------------------------------------------------

/// An answer with status 301, 302, 303, 307 or 308 and a Location is followed, as long
/// as redirects are left and the host is not blocked: the next request goes to the
/// Location, resolved against the URL of the last one.
pub proof fn redirects_lead_to_their_location(
    f: &Fetcher,
    ex: Exchange,
    resp: Response,
    r: Step,
    location: Seq<char>,
    next: Seq<char>,
)
    requires
        call_ensures(Fetcher::advance, (f, ex, resp), r),
        resp.status == 301 || resp.status == 302 || resp.status == 303 || resp.status == 307
            || resp.status == 308,
        ex.hops < f.max_redirects,
        shows(resp.headers, "location"@, location),
        joined_url(ex.req.url@, location) == Ok::<Seq<char>, Seq<char>>(next),
        f.tracker_blocklist matches Some(list) ==> parsed_url(next) matches Some(u) ==> !blocked(
            list@,
            u,
        ),
    ensures
        r is Send,
        r->Send_0.req.url@ == next,
        r->Send_0.hops == ex.hops + 1,
{
    shown_is_read(resp.headers, "location"@, location);
    location_is_lower();
    assert(r->Send_0.req@.url == r->Send_0.req.url@);
    assert(ex.req@.url == ex.req.url@);
}

/// Every other status ends the exchange with the answer as it is.
pub proof fn other_answers_are_final(f: &Fetcher, ex: Exchange, resp: Response, r: Step)
    requires
        call_ensures(Fetcher::advance, (f, ex, resp), r),
        resp.status != 301,
        resp.status != 302,
        resp.status != 303,
        resp.status != 307,
        resp.status != 308,
    ensures
        r == Step::Done(resp),
{
}

/// So does a redirect that says nowhere to go, and any redirect where none are followed.
pub proof fn redirects_to_nowhere_are_final(f: &Fetcher, ex: Exchange, resp: Response, r: Step)
    requires
        call_ensures(Fetcher::advance, (f, ex, resp), r),
        f.max_redirects == 0 || ex.hops < f.max_redirects && !header_values(
            resp.headers,
        ).dom().contains("location"@),
    ensures
        r == Step::Done(resp),
{
    location_is_lower();
}

/// With no redirect left, one more fails, and the error names the limit.
pub proof fn redirects_run_out(f: &Fetcher, ex: Exchange, resp: Response, r: Step)
    requires
        call_ensures(Fetcher::advance, (f, ex, resp), r),
        resp.status == 301 || resp.status == 302 || resp.status == 303 || resp.status == 307
            || resp.status == 308,
        f.max_redirects > 0,
        ex.hops >= f.max_redirects,
    ensures
        r is Fail,
        r->Fail_0 is TooManyRedirects,
        r->Fail_0->TooManyRedirects_0 == f.max_redirects,
{
    assert(r->Fail_0@ == ErrorModel::TooManyRedirects(f.max_redirects));
}

/// A Location that resolves to nothing fails, and the error names it.
pub proof fn bad_locations_are_named(
    f: &Fetcher,
    ex: Exchange,
    resp: Response,
    r: Step,
    location: Seq<char>,
)
    requires
        call_ensures(Fetcher::advance, (f, ex, resp), r),
        resp.status == 301 || resp.status == 302 || resp.status == 303 || resp.status == 307
            || resp.status == 308,
        ex.hops < f.max_redirects,
        shows(resp.headers, "location"@, location),
        joined_url(ex.req.url@, location) is Err,
    ensures
        r is Fail,
        r->Fail_0 is BadRedirectLocation,
        r->Fail_0->BadRedirectLocation_0@ == location,
        r->Fail_0->BadRedirectLocation_1@ == ex.req.url@,
{
    shown_is_read(resp.headers, "location"@, location);
    location_is_lower();
    assert(r->Fail_0@ == ErrorModel::BadRedirectLocation(location, ex.req.url@));
}

/// A blocked host is never asked, whether first or after a redirect: the answer is 204,
/// with no body and no headers.
pub proof fn blocked_hosts_are_never_asked(
    f: &Fetcher,
    list: TrackerBlocklist,
    req: FetchRequest,
    ex: Exchange,
    resp: Response,
    r: Step,
    location: Seq<char>,
    next: Seq<char>,
)
    requires
        f.tracker_blocklist == Some(list),
        parsed_url(next) is Some,
        blocked(list@, parsed_url(next)->0),
        call_ensures(Fetcher::begin, (f, req), r) && req.url@ == next || call_ensures(
            Fetcher::advance,
            (f, ex, resp),
            r,
        ) && (resp.status == 301 || resp.status == 302 || resp.status == 303 || resp.status == 307
            || resp.status == 308) && ex.hops < f.max_redirects && shows(
            resp.headers,
            "location"@,
            location,
        ) && joined_url(ex.req.url@, location) == Ok::<Seq<char>, Seq<char>>(next),
    ensures
        r is Done,
        r->Done_0.status == 204,
        r->Done_0.body@.len() == 0,
        forall|name: Seq<char>| !(#[trigger] header_values(r->Done_0.headers).dom().contains(name)),
{
    location_is_lower();
    if call_ensures(Fetcher::begin, (f, req), r) && req.url@ == next {
    } else {
        shown_is_read(resp.headers, "location"@, location);
    }
    assert(header_values(r->Done_0.headers).dom() == Set::<Seq<char>>::empty());
}

/// Any other request is sent as it is, with no redirect behind it.
pub proof fn requests_begin_as_they_are(f: &Fetcher, req: FetchRequest, r: Step)
    requires
        call_ensures(Fetcher::begin, (f, req), r),
        f.tracker_blocklist matches Some(list) ==> parsed_url(req.url@) matches Some(u) ==> !blocked(
            list@,
            u,
        ),
    ensures
        r is Send,
        r->Send_0.req == req,
        r->Send_0.hops == 0,
{
}

/// After 307 and 308 the same request goes out again, to the new place.
pub proof fn repeated_requests_are_the_same(f: &Fetcher, ex: Exchange, resp: Response, r: Step)
    requires
        call_ensures(Fetcher::advance, (f, ex, resp), r),
        resp.status == 307 || resp.status == 308,
        r is Send,
    ensures
        r->Send_0.req.method@ == ex.req.method@,
        r->Send_0.req@.headers == ex.req@.headers,
        r->Send_0.req.body@ == ex.req.body@,
{
    assert(r->Send_0.req@.method == r->Send_0.req.method@);
    assert(ex.req@.method == ex.req.method@);
    assert(r->Send_0.req@.body == r->Send_0.req.body@);
    assert(ex.req@.body == ex.req.body@);
}

/// After 301, 302 and 303 the request goes on without its body. GET and HEAD, in any
/// case, stay; any other method becomes GET. The headers stay, but for Content-Length and
/// Content-Type where there was a body.
pub proof fn see_other_requests_lose_their_body(
    f: &Fetcher,
    ex: Exchange,
    resp: Response,
    r: Step,
)
    requires
        call_ensures(Fetcher::advance, (f, ex, resp), r),
        resp.status == 301 || resp.status == 302 || resp.status == 303,
        r is Send,
    ensures
        r->Send_0.req.body@.len() == 0,
        same_ignoring_case(ex.req.method@, "get"@) || same_ignoring_case(ex.req.method@, "head"@)
            ==> r->Send_0.req.method@ == ex.req.method@,
        all_ascii(ex.req.method@) && !same_ignoring_case(ex.req.method@, "get"@)
            && !same_ignoring_case(ex.req.method@, "head"@) ==> r->Send_0.req.method@ == "GET"@,
        ex.req.body@.len() == 0 ==> r->Send_0.req@.headers == ex.req@.headers,
        ex.req.body@.len() > 0 ==> r->Send_0.req@.headers == ex.req@.headers.filter(
            |h: (Seq<char>, Seq<char>)|
                !same_ignoring_case(h.0, "content-length"@) && !same_ignoring_case(
                    h.0,
                    "content-type"@,
                ),
        ),
{
    let m = ex.req.method@;
    assert(r->Send_0.req@.method == r->Send_0.req.method@);
    assert(ex.req@.method == m);
    assert(r->Send_0.req@.body == r->Send_0.req.body@);
    assert(ex.req@.body == ex.req.body@);
    reveal_strlit("get");
    reveal_strlit("head");
    reveal_strlit("GET");
    reveal_strlit("HEAD");
    upper_and_lower(m, "get"@, "GET"@);
    upper_and_lower(m, "head"@, "HEAD"@);
    body_headers_are_left_out(ex.req@.headers);
}

proof fn upper_and_lower(m: Seq<char>, low: Seq<char>, up: Seq<char>)
    requires
        low.len() == up.len(),
        forall|i: int| 0 <= i < up.len() ==> 'A' <= #[trigger] up[i] <= 'Z',
        forall|i: int| 0 <= i < up.len() ==> 'a' <= #[trigger] low[i] <= 'z',
        forall|i: int| 0 <= i < up.len() ==> low[i] as int == #[trigger] up[i] as int + 32,
    ensures
        same_ignoring_case(m, low) ==> upper_text(m) == up,
        all_ascii(m) && upper_text(m) == up ==> same_ignoring_case(m, low),
{
    if same_ignoring_case(m, low) {
        assert(ascii_lower(m).len() == m.len());
        assert(ascii_lower(low).len() == low.len());
        assert forall|i: int| 0 <= i < m.len() implies #[trigger] m[i] <= '\u{7f}' && ascii_upper(
            m,
        )[i] == up[i] by {
            assert(ascii_lower(m)[i] == ascii_lower(low)[i]);
            assert('A' <= up[i] <= 'Z');
            assert('a' <= low[i] <= 'z');
        }
        assert(ascii_upper(m) =~= up);
    }
    if all_ascii(m) && upper_text(m) == up {
        assert(ascii_upper(m).len() == m.len());
        assert forall|i: int| 0 <= i < m.len() implies ascii_lower(m)[i] == ascii_lower(low)[i] by {
            assert(ascii_upper(m)[i] == up[i]);
            assert('A' <= up[i] <= 'Z');
            assert('a' <= low[i] <= 'z');
        }
        assert(ascii_lower(m) =~= ascii_lower(low));
    }
}

proof fn body_headers_are_left_out(headers: Seq<(Seq<char>, Seq<char>)>)
    ensures
        without_body_headers(headers) == headers.filter(
            |h: (Seq<char>, Seq<char>)|
                !same_ignoring_case(h.0, "content-length"@) && !same_ignoring_case(
                    h.0,
                    "content-type"@,
                ),
        ),
    decreases headers.len(),
{
    reveal(Seq::filter);
    reveal_strlit("content-length");
    reveal_strlit("content-type");
    assert(ascii_lower("content-length"@) =~= "content-length"@);
    assert(ascii_lower("content-type"@) =~= "content-type"@);
    if headers.len() > 0 {
        body_headers_are_left_out(headers.drop_last());
    }
}

// ---- requests --------------------------------------------------------------------

/// A request can be sent if and only if its URL is one of http or https, its method is a
/// token and each of its headers has a valid name and a valid value.
pub proof fn only_valid_requests_are_sent(
    f: &Fetcher,
    req: &FetchRequest,
    r: Result<FetchRequest, Error>,
)
    requires
        call_ensures(Fetcher::prepare, (f, req), r),
    ensures
        r is Ok <==> {
            &&& parsed_uri(req.url@) == Ok::<Option<Seq<char>>, Seq<char>>(Some("http"@))
                || parsed_uri(req.url@) == Ok::<Option<Seq<char>>, Seq<char>>(Some("https"@))
            &&& is_token(req.method@)
            &&& forall|i: int|
                0 <= i < req.headers@.len() ==> is_header_name((#[trigger] req.headers@[i]).0@)
                    && is_header_value(encode_utf8(req.headers@[i].1@))
        },
        r matches Ok(out) ==> out.url@ == req.url@ && out.method@ == req.method@ && out.body@
            == req.body@,
{
    good_headers(req@.headers);
    assert(req@.url == req.url@ && req@.method == req.method@);
    let hs = req@.headers;
    assert forall|i: int| 0 <= i < hs.len() implies (#[trigger] hs[i]).0 == req.headers@[i].0@
        && hs[i].1 == req.headers@[i].1@ by {}
    if bad_header(hs) is None {
        assert forall|i: int| 0 <= i < req.headers@.len() implies is_header_name(
            (#[trigger] req.headers@[i]).0@,
        ) && is_header_value(encode_utf8(req.headers@[i].1@)) by {
            assert(is_header_name(hs[i].0));
        }
    }
    if forall|i: int|
        0 <= i < req.headers@.len() ==> is_header_name((#[trigger] req.headers@[i]).0@)
            && is_header_value(encode_utf8(req.headers@[i].1@)) {
        assert forall|i: int| 0 <= i < hs.len() implies is_header_name((#[trigger] hs[i]).0)
            && is_header_value(encode_utf8(hs[i].1)) by {
            assert(is_header_name(req.headers@[i].0@));
        }
    }
}

proof fn good_headers(hs: Seq<(Seq<char>, Seq<char>)>)
    ensures
        bad_header(hs) is None <==> forall|i: int|
            0 <= i < hs.len() ==> is_header_name((#[trigger] hs[i]).0) && is_header_value(
                encode_utf8(hs[i].1),
            ),
    decreases hs.len(),
{
    if hs.len() > 0 {
        good_headers(hs.skip(1));
        assert forall|i: int| 0 < i < hs.len() implies #[trigger] hs[i] == hs.skip(1)[i - 1] by {}
        if forall|i: int|
            0 <= i < hs.len() ==> is_header_name((#[trigger] hs[i]).0) && is_header_value(
                encode_utf8(hs[i].1),
            ) {
            assert forall|i: int| 0 <= i < hs.skip(1).len() implies is_header_name(
                (#[trigger] hs.skip(1)[i]).0,
            ) && is_header_value(encode_utf8(hs.skip(1)[i].1)) by {
                assert(is_header_name(hs[i + 1].0));
            }
            assert(is_header_name(hs[0].0));
        }
    }
}

/// A request that is refused is told the first reason: its URL, its scheme, its method, or
/// the first of its headers that is not valid, by name.
pub proof fn refusals_name_the_first_reason(req: &FetchRequest, r: Option<Error>, i: int)
    requires
        call_ensures(check_request, (req,), r),
    ensures
        parsed_uri(req.url@) matches Err(m) ==> (r matches Some(Error::Uri(t)) && t@ == m),
        parsed_uri(req.url@) matches Ok(None) ==> (r matches Some(Error::Scheme(t)) && t@.len()
            == 0),
        parsed_uri(req.url@) matches Ok(Some(s)) ==> {
            &&& s != "http"@ && s != "https"@ ==> (r matches Some(Error::Scheme(t)) && t@ == s)
            &&& (s == "http"@ || s == "https"@) && !is_token(req.method@) ==> (
            r matches Some(Error::InvalidMethod(t)) && t@ == req.method@)
            &&& (s == "http"@ || s == "https"@) && is_token(req.method@) && first_bad(
                req.headers@,
                i,
            ) && !is_header_name(req.headers@[i].0@) ==> (r matches Some(Error::HeaderName(t))
                && t@ == req.headers@[i].0@)
            &&& (s == "http"@ || s == "https"@) && is_token(req.method@) && first_bad(
                req.headers@,
                i,
            ) && is_header_name(req.headers@[i].0@) ==> (r matches Some(Error::HeaderValue(t))
                && t@ == req.headers@[i].0@)
        },
{
    let hs = req@.headers;
    assert(req@.url == req.url@ && req@.method == req.method@);
    assert(hs.len() == req.headers@.len());
    assert forall|j: int| 0 <= j < hs.len() implies (#[trigger] hs[j]).0 == req.headers@[j].0@
        && hs[j].1 == req.headers@[j].1@ by {}
    if first_bad(req.headers@, i) {
        assert forall|j: int| 0 <= j < i implies is_header_name((#[trigger] hs[j]).0)
            && is_header_value(encode_utf8(hs[j].1)) by {
            assert(is_header_name(req.headers@[j].0@));
        }
        bad_header_at(hs, i);
    }
    match r {
        Some(e) => {
            assert(refusal(req@) == Some(e@));
        },
        None => {},
    }
}

/// The first header whose name or value is not valid.
pub open spec fn first_bad(headers: Seq<(String, String)>, i: int) -> bool {
    &&& 0 <= i < headers.len()
    &&& !is_header_name(headers[i].0@) || !is_header_value(encode_utf8(headers[i].1@))
    &&& forall|j: int|
        0 <= j < i ==> is_header_name((#[trigger] headers[j]).0@) && is_header_value(
            encode_utf8(headers[j].1@),
        )
}

proof fn bad_header_at(hs: Seq<(Seq<char>, Seq<char>)>, i: int)
    requires
        0 <= i < hs.len(),
        !is_header_name(hs[i].0) || !is_header_value(encode_utf8(hs[i].1)),
        forall|j: int|
            0 <= j < i ==> is_header_name((#[trigger] hs[j]).0) && is_header_value(
                encode_utf8(hs[j].1),
            ),
    ensures
        bad_header(hs) == Some(
            if !is_header_name(hs[i].0) {
                ErrorModel::HeaderName(hs[i].0)
            } else {
                ErrorModel::HeaderValue(hs[i].0)
            },
        ),
    decreases i,
{
    if i > 0 {
        assert(is_header_name(hs[0].0));
        let rest = hs.skip(1);
        assert(rest[i - 1] == hs[i]);
        assert forall|j: int| 0 <= j < i - 1 implies is_header_name((#[trigger] rest[j]).0)
            && is_header_value(encode_utf8(rest[j].1)) by {
            assert(rest[j] == hs[j + 1]);
        }
        bad_header_at(rest, i - 1);
    }
}

/// The request's own headers go out first, as they are. Behind them, each only where the
/// request has none of that name: what encodings are read, the client's name, and the
/// cookies for the URL.
pub proof fn headers_are_completed(
    f: &Fetcher,
    req: &FetchRequest,
    out: FetchRequest,
)
    requires
        call_ensures(Fetcher::prepare, (f, req), Ok::<FetchRequest, Error>(out)),
    ensures
        out@.headers.len() >= req@.headers.len(),
        out@.headers.take(req@.headers.len() as int) == req@.headers,
        (exists|i: int|
            0 <= i < req@.headers.len() && same_ignoring_case(
                (#[trigger] req@.headers[i]).0,
                "accept-encoding"@,
            )) || out@.headers.contains(("accept-encoding"@, "gzip, deflate, br"@)),
        (exists|i: int|
            0 <= i < req@.headers.len() && same_ignoring_case(
                (#[trigger] req@.headers[i]).0,
                "user-agent"@,
            )) || out@.headers.contains(("user-agent"@, f.user_agent@)),
        forall|i: int|
            req@.headers.len() <= i < out@.headers.len() ==> {
                let h = #[trigger] out@.headers[i];
                ||| h == ("accept-encoding"@, "gzip, deflate, br"@)
                ||| h == ("user-agent"@, f.user_agent@)
                ||| h.0 == "cookie"@ && f.cookie_jar is Some
            },
        forall|i: int, j: int|
            0 <= i < req@.headers.len() <= j < out@.headers.len() ==> !same_ignoring_case(
                (#[trigger] req@.headers[i]).0,
                (#[trigger] out@.headers[j]).0,
            ),
{
    let hs = req@.headers;
    let c = choose|c: Option<Seq<char>>|
        crate::text::pair_views(out.headers@) == #[trigger] sent_headers(hs, f.user_agent@, c) && (
        c is Some ==> f.cookie_jar is Some);
    let sent = sent_headers(hs, f.user_agent@, c);
    assert(out@.headers == sent);
    let base = default_headers(hs, f.user_agent@);
    assert(sent.take(hs.len() as int) =~= hs);
    if !names(hs, "accept-encoding"@) {
        assert(sent[hs.len() as int] == ("accept-encoding"@, "gzip, deflate, br"@));
    }
    if !names(hs, "user-agent"@) {
        assert(sent[base.len() - 1] == ("user-agent"@, f.user_agent@));
    }
    assert forall|i: int, j: int|
        0 <= i < hs.len() <= j < sent.len() && same_ignoring_case(
            (#[trigger] hs[i]).0,
            (#[trigger] sent[j]).0,
        ) implies false by {
        assert(names(hs, sent[j].0));
    }
}

/// Cookies that are kept for the URL's origin go out with a request that brings none of
/// its own.
pub proof fn kept_cookies_go_out(
    f: &Fetcher,
    jar: CookieJar,
    req: &FetchRequest,
    out: FetchRequest,
    origin: &str,
    name: Seq<char>,
)
    requires
        call_ensures(Fetcher::prepare, (f, req), Ok::<FetchRequest, Error>(out)),
        f.cookie_jar == Some(jar),
        parsed_url(req.url@) is Some,
        crate::urls::origin_of(parsed_url(req.url@)->0) == Some(origin@),
        jar@.dom().contains(origin@),
        jar@[origin@].dom().contains(name),
        forall|i: int|
            0 <= i < req@.headers.len() ==> !same_ignoring_case(
                (#[trigger] req@.headers[i]).0,
                "cookie"@,
            ),
    ensures
        exists|c: Seq<char>|
            {
                &&& #[trigger] crate::fetch::cookies::is_cookie_header(jar@[origin@], c)
                &&& is_header_value(encode_utf8(c)) ==> out@.headers.last() == ("cookie"@, c)
                    && out@.headers.len() > 0
            },
{
    let hs = req@.headers;
    let m = crate::fetch::client::cookies_for(jar@, req.url@);
    assert(m == jar@[origin@]);
    assert(m.dom().contains(name));
    let c = choose|c: Option<Seq<char>>|
        crate::text::pair_views(out.headers@) == #[trigger] sent_headers(hs, f.user_agent@, c)
            && match c {
            Some(h) => m.dom() != Set::<Seq<char>>::empty()
                && crate::fetch::cookies::is_cookie_header(m, h),
            None => m.dom() == Set::<Seq<char>>::empty(),
        };
    if c is None {
        assert(!Set::<Seq<char>>::empty().contains(name));
    }
    assert(crate::fetch::cookies::is_cookie_header(m, c->0));
    assert(!names(hs, "cookie"@));
    assert(out@.headers == sent_headers(hs, f.user_agent@, c));
}

/// A request is what was asked for, step by step.
pub proof fn requests_are_built_as_told(
    url: &str,
    m: &str,
    name: &str,
    value: &str,
    body: &str,
    bytes: Vec<u8>,
    a: FetchRequest,
    b: FetchRequest,
    c: FetchRequest,
    d: FetchRequest,
    e: FetchRequest,
)
    requires
        call_ensures(FetchRequest::new, (url,), a),
        call_ensures(FetchRequest::method, (a, m), b),
        call_ensures(FetchRequest::header, (b, name, value), c),
        call_ensures(FetchRequest::body_str, (c, body), d),
        call_ensures(FetchRequest::body_bytes, (c, bytes), e),
    ensures
        a.url@ == url@ && a.method@ == "GET"@ && a@.headers.len() == 0 && a.body@.len() == 0,
        d.url@ == url@ && d.method@ == m@ && d@.headers == seq![(name@, value@)],
        d.body@ == encode_utf8(body@),
        e.url@ == url@ && e.method@ == m@ && e@.headers == seq![(name@, value@)],
        e.body@ == bytes@,
{
    assert(a@.url == a.url@ && a@.method == a.method@ && a@.body == a.body@);
    assert(d@.url == d.url@ && d@.method == d.method@ && d@.body == d.body@);
    assert(e@.url == e.url@ && e@.method == e.method@ && e@.body == e.body@);
    assert(c@.headers =~= seq![(name@, value@)]);
}

// ---- answers ---------------------------------------------------------------------

/// The answer's encoding, as its header says it: without the space around it, in any case.
pub open spec fn says_encoding(h: HeaderMap<HeaderValue>, e: Seq<char>) -> bool {
    exists|t: Seq<char>|
        #[trigger] shows(h, "content-encoding"@, t) && same_ignoring_case(trimmed(t), e)
}

proof fn encoding_is_read(h: HeaderMap<HeaderValue>, e: Seq<char>)
    requires
        says_encoding(h, e),
    ensures
        crate::fetch::client::encoding_of(h) == Some(ascii_lower(e)),
{
    let t = choose|t: Seq<char>|
        #[trigger] shows(h, "content-encoding"@, t) && same_ignoring_case(trimmed(t), e);
    shown_is_read(h, "content-encoding"@, t);
    location_is_lower();
}

/// What is left of the headers once a body has been decoded: all but the two that
/// described the encoded one.
pub open spec fn decoded_headers(before: HeaderMap<HeaderValue>, after: HeaderMap<HeaderValue>) -> bool {
    &&& !header_values(after).dom().contains("content-encoding"@)
    &&& !header_values(after).dom().contains("content-length"@)
    &&& forall|name: Seq<char>|
        name != "content-encoding"@ && name != "content-length"@ ==> (
        #[trigger] header_values(after).dom().contains(name) <==> header_values(
            before,
        ).dom().contains(name)) && header_values(after)[name] == header_values(before)[name]
}

/// A gzip body is read as one: what it holds is what the answer holds, and the headers
/// that spoke of the encoded body go.
pub proof fn gzip_bodies_are_unpacked(
    status: u16,
    headers: HeaderMap<HeaderValue>,
    raw: Vec<u8>,
    r: Result<Response, Error>,
)
    requires
        call_ensures(receive, (status, headers, raw), r),
        says_encoding(headers, "gzip"@) || says_encoding(headers, "x-gzip"@),
    ensures
        r is Ok <==> gunzipped(raw@) is Ok,
        r matches Ok(a) ==> a.status == status && a.body@ == gunzipped(raw@)->Ok_0
            && decoded_headers(headers, a.headers),
{
    literals_are_lower();
    location_is_lower();
    if says_encoding(headers, "gzip"@) {
        encoding_is_read(headers, "gzip"@);
    } else {
        encoding_is_read(headers, "x-gzip"@);
    }
}

/// A brotli body is read as one.
pub proof fn brotli_bodies_are_unpacked(
    status: u16,
    headers: HeaderMap<HeaderValue>,
    raw: Vec<u8>,
    r: Result<Response, Error>,
)
    requires
        call_ensures(receive, (status, headers, raw), r),
        says_encoding(headers, "br"@),
    ensures
        r is Ok <==> unbrotlied(raw@) is Ok,
        r matches Ok(a) ==> a.status == status && a.body@ == unbrotlied(raw@)->Ok_0
            && decoded_headers(headers, a.headers),
{
    literals_are_lower();
    location_is_lower();
    encoding_is_read(headers, "br"@);
}

/// A deflate body is read with a zlib header around it, or, where that fails, without.
pub proof fn deflate_bodies_are_unpacked(
    status: u16,
    headers: HeaderMap<HeaderValue>,
    raw: Vec<u8>,
    r: Result<Response, Error>,
)
    requires
        call_ensures(receive, (status, headers, raw), r),
        says_encoding(headers, "deflate"@),
    ensures
        r is Ok <==> unzlibbed(raw@) is Ok || inflated(raw@) is Ok,
        r matches Ok(a) ==> a.status == status && decoded_headers(headers, a.headers) && (
        unzlibbed(raw@) is Ok ==> a.body@ == unzlibbed(raw@)->Ok_0) && (unzlibbed(raw@) is Err
            ==> a.body@ == inflated(raw@)->Ok_0),
{
    literals_are_lower();
    location_is_lower();
    encoding_is_read(headers, "deflate"@);
}

proof fn literals_are_lower()
    ensures
        ascii_lower("gzip"@) == "gzip"@,
        ascii_lower("x-gzip"@) == "x-gzip"@,
        ascii_lower("deflate"@) == "deflate"@,
        ascii_lower("br"@) == "br"@,
        "deflate"@ != "gzip"@,
        "deflate"@ != "x-gzip"@,
        "br"@ != "gzip"@,
        "br"@ != "x-gzip"@,
        "br"@ != "deflate"@,
{
    reveal_strlit("gzip");
    reveal_strlit("x-gzip");
    reveal_strlit("deflate");
    reveal_strlit("br");
    assert(ascii_lower("gzip"@) =~= "gzip"@);
    assert(ascii_lower("x-gzip"@) =~= "x-gzip"@);
    assert(ascii_lower("deflate"@) =~= "deflate"@);
    assert(ascii_lower("br"@) =~= "br"@);
    assert("br"@.len() == 2);
    assert("gzip"@.len() == 4);
    assert("x-gzip"@.len() == 6);
    assert("deflate"@.len() == 7);
}

/// A body that is not said to be encoded is the answer's, byte for byte, and so are the
/// headers.
pub proof fn plain_bodies_stay(
    status: u16,
    headers: HeaderMap<HeaderValue>,
    raw: Vec<u8>,
    r: Result<Response, Error>,
)
    requires
        call_ensures(receive, (status, headers, raw), r),
        !header_values(headers).dom().contains("content-encoding"@),
    ensures
        r is Ok,
        r->Ok_0.status == status,
        r->Ok_0.body@ == raw@,
        header_values(r->Ok_0.headers) == header_values(headers),
{
    location_is_lower();
}

// ---- settings --------------------------------------------------------------------

/// A client is what its settings say, each of them, and what they do not say is the
/// default.
pub proof fn clients_are_built_as_told(
    b: FetcherBuilder,
    idle: u64,
    b1: FetcherBuilder,
    per_host: usize,
    b2: FetcherBuilder,
    timeout: u64,
    b3: FetcherBuilder,
    jar: CookieJar,
    b4: FetcherBuilder,
    list: TrackerBlocklist,
    b5: FetcherBuilder,
    hops: u32,
    b6: FetcherBuilder,
    agent: &str,
    b7: FetcherBuilder,
    ca: &str,
    b8: FetcherBuilder,
    f: Fetcher,
)
    requires
        call_ensures(Fetcher::builder, (), b),
        call_ensures(FetcherBuilder::pool_idle_timeout, (b, idle), b1),
        call_ensures(FetcherBuilder::pool_max_idle_per_host, (b1, per_host), b2),
        call_ensures(FetcherBuilder::request_timeout, (b2, timeout), b3),
        call_ensures(FetcherBuilder::cookie_jar, (b3, jar), b4),
        call_ensures(FetcherBuilder::tracker_blocklist, (b4, list), b5),
        call_ensures(FetcherBuilder::max_redirects, (b5, hops), b6),
        call_ensures(FetcherBuilder::user_agent, (b6, agent), b7),
        call_ensures(FetcherBuilder::ca_file, (b7, ca), b8),
        call_ensures(FetcherBuilder::build, (b8,), Ok::<Fetcher, Error>(f)),
    ensures
        f.pool_idle_timeout_ms == idle,
        f.pool_max_idle_per_host == per_host,
        f.request_timeout_ms == Some(timeout),
        f.cookie_jar == Some(jar),
        f.tracker_blocklist == Some(list),
        f.max_redirects == hops,
        f.user_agent@ == agent@,
        crate::text::views(f.extra_ca_files@) == seq![ca@],
        f.proxy is None,
{
    assert(crate::text::views(f.extra_ca_files@) =~= seq![ca@]);
}

/// With no settings at all: ten redirects, no limit on time, idle connections for a minute
/// and a half, sixteen to a host, no proxy, no cookies and nothing blocked.
pub proof fn clients_have_defaults(b: FetcherBuilder, f: Fetcher, g: Fetcher)
    requires
        call_ensures(Fetcher::builder, (), b),
        call_ensures(FetcherBuilder::build, (b,), Ok::<Fetcher, Error>(f)),
        call_ensures(Fetcher::new, (), Ok::<Fetcher, Error>(g)),
    ensures
        f.max_redirects == 10 && g.max_redirects == 10,
        f.request_timeout_ms is None && g.request_timeout_ms is None,
        f.pool_idle_timeout_ms == 90_000,
        f.pool_max_idle_per_host == 16,
        f.proxy is None && g.proxy is None,
        f.cookie_jar is None && g.cookie_jar is None,
        f.tracker_blocklist is None && g.tracker_blocklist is None,
        f.extra_ca_files@.len() == 0,
        f.user_agent@ == "bouncy/"@ + "0.1.0"@ + " (+"@ + "https://bouncy.example/"@ + ")"@,
        g.user_agent@ == f.user_agent@,
{
}

/// A proxy is kept as it is where it says a scheme, and is one of http where it does not.
pub proof fn proxies_have_a_scheme(
    b: FetcherBuilder,
    url: &str,
    c: FetcherBuilder,
    f: Fetcher,
    rest: Seq<char>,
)
    requires
        call_ensures(FetcherBuilder::proxy, (b, url), c),
        call_ensures(FetcherBuilder::build, (c,), Ok::<Fetcher, Error>(f)),
    ensures
        f.proxy is Some,
        has_text(url@, "://"@) ==> f.proxy->0@ == url@,
        !has_text(url@, "://"@) ==> f.proxy->0@ == "http://"@ + url@,
{
}

/// A client trusts someone if and only if there are certificates: native ones or a file's,
/// and no file without any.
pub proof fn trust_needs_certificates(
    native: usize,
    files: &Vec<(String, usize)>,
    r: Result<(), Error>,
)
    requires
        call_ensures(check_trust, (native, files), r),
    ensures
        r is Ok <==> {
            &&& native > 0 || files@.len() > 0
            &&& forall|i: int| 0 <= i < files@.len() ==> (#[trigger] files@[i]).1 > 0
        },
        r matches Err(e) ==> e is Tls,
        forall|i: int|
            #![trigger files@[i]]
            0 <= i < files@.len() && files@[i].1 == 0 && (forall|j: int|
                0 <= j < i ==> (#[trigger] files@[j]).1 > 0) ==> has_text(
                r->Err_0->Tls_0@,
                files@[i].0@,
            ),
{
    let e = empty_file(files@);
    first_empty(files@);
    if r is Err {
        assert(r->Err_0@ is Tls);
    }
    assert forall|i: int|
        #![trigger files@[i]]
        0 <= i < files@.len() && files@[i].1 == 0 && (forall|j: int|
            0 <= j < i ==> (#[trigger] files@[j]).1 > 0) implies has_text(
        r->Err_0->Tls_0@,
        files@[i].0@,
    ) by {
        let path = files@[i].0@;
        let t = r->Err_0->Tls_0@;
        assert(e == Some(path));
        assert(t == "ca-file "@ + path + " contained no certificates"@);
        let k: int = "ca-file "@.len() as int;
        assert(t.subrange(k, k + path.len()) =~= path);
        assert(occurs_at(t, path, k));
    }
}

proof fn first_empty(files: Seq<(String, usize)>)
    ensures
        empty_file(files) is None <==> forall|i: int|
            0 <= i < files.len() ==> (#[trigger] files[i]).1 > 0,
        forall|i: int|
            #![trigger files[i]]
            0 <= i < files.len() && files[i].1 == 0 && (forall|j: int|
                0 <= j < i ==> (#[trigger] files[j]).1 > 0) ==> empty_file(files) == Some(
                files[i].0@,
            ),
    decreases files.len(),
{
    if files.len() > 0 {
        let rest = files.skip(1);
        first_empty(rest);
        assert forall|i: int| 0 < i < files.len() implies #[trigger] files[i] == rest[i - 1] by {}
        assert forall|i: int| 0 <= i < rest.len() implies #[trigger] rest[i] == files[i + 1] by {}
        assert forall|i: int|
            #![trigger files[i]]
            0 <= i < files.len() && files[i].1 == 0 && (forall|j: int|
                0 <= j < i ==> (#[trigger] files[j]).1 > 0) implies empty_file(files) == Some(
            files[i].0@,
        ) by {
            if i > 0 {
                assert(files[0].1 > 0);
                assert(rest[i - 1].1 == 0);
                assert forall|j: int| 0 <= j < i - 1 implies (#[trigger] rest[j]).1 > 0 by {
                    assert(files[j + 1].1 > 0);
                }
            }
        }
        if forall|i: int| 0 <= i < files.len() ==> (#[trigger] files[i]).1 > 0 {
            assert(files[0].1 > 0);
            assert forall|i: int| 0 <= i < rest.len() implies (#[trigger] rest[i]).1 > 0 by {
                assert(files[i + 1].1 > 0);
            }
        }
    }
}

} // verus!
