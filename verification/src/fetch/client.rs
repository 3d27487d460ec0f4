//! Requests, the client's settings, and what the client does at each step.
use crate::fetch::blocklist::{blocked, TrackerBlocklist};
use crate::fetch::cookies::{cookies_of, is_cookie_header, set_cookie_pair, with_cookie, CookieJar};
use crate::fetch::decode::{decode_body, decoded, is_known_encoding, known_encoding};
use crate::fetch::headers::{
    byte_views, first_text, get_all, header_text, header_values, is_header_name, is_header_value,
    is_token, no_headers, parse_uri, parsed_uri, remove, to_str, valid_method, valid_name,
    valid_value, values_of, visible_text,
};
use crate::text::{
    ascii_lower, contains, debug_text, debugged, decimal, eq_ignore_ascii_case, has_text,
    pair_views, push_decimal, same, same_ignoring_case, to_ascii_lowercase, trim, trimmed,
    upper_text, uppercase,
};
use crate::urls::{join_url, joined_url, origin_for, origin_of, parsed_url};
use http::{HeaderMap, HeaderValue};
use vstd::prelude::*;
use vstd::string::*;
use vstd::utf8::encode_utf8;

verus! {

/// Why a request fails.
#[derive(Debug)]
pub enum Error {
    Uri(String),
    Scheme(String),
    Build(String),
    Client(String),
    Body(String),
    Tls(String),
    HeaderName(String),
    HeaderValue(String),
    InvalidMethod(String),
    /// The request took longer than this many milliseconds.
    Timeout(u64),
    TooManyRedirects(u32),
    /// A `Location` that cannot be resolved, and the URL that it came from.
    BadRedirectLocation(String, String),
}

/// The text of an [`Error`].
pub enum ErrorModel {
    Uri(Seq<char>),
    Scheme(Seq<char>),
    Build(Seq<char>),
    Client(Seq<char>),
    Body(Seq<char>),
    Tls(Seq<char>),
    HeaderName(Seq<char>),
    HeaderValue(Seq<char>),
    InvalidMethod(Seq<char>),
    Timeout(u64),
    TooManyRedirects(u32),
    BadRedirectLocation(Seq<char>, Seq<char>),
}

impl View for Error {
    type V = ErrorModel;

    open spec fn view(&self) -> ErrorModel {
        match *self {
            Error::Uri(m) => ErrorModel::Uri(m@),
            Error::Scheme(m) => ErrorModel::Scheme(m@),
            Error::Build(m) => ErrorModel::Build(m@),
            Error::Client(m) => ErrorModel::Client(m@),
            Error::Body(m) => ErrorModel::Body(m@),
            Error::Tls(m) => ErrorModel::Tls(m@),
            Error::HeaderName(m) => ErrorModel::HeaderName(m@),
            Error::HeaderValue(m) => ErrorModel::HeaderValue(m@),
            Error::InvalidMethod(m) => ErrorModel::InvalidMethod(m@),
            Error::Timeout(ms) => ErrorModel::Timeout(ms),
            Error::TooManyRedirects(n) => ErrorModel::TooManyRedirects(n),
            Error::BadRedirectLocation(l, u) => ErrorModel::BadRedirectLocation(l@, u@),
        }
    }
}

/// What `{:?}` writes for a `Duration` of so many milliseconds.
pub uninterp spec fn duration_text(ms: u64) -> Seq<char>;

/// Writes a `std::time::Duration` with `{:?}`. The text depends on the number of
/// milliseconds alone.
#[verifier::external_body]
fn debug_duration(ms: u64) -> (r: String)
    ensures
        r@ == duration_text(ms),
{
    format!("{:?}", std::time::Duration::from_millis(ms))
}

/// An error in words.
pub open spec fn error_text(e: ErrorModel) -> Seq<char> {
    match e {
        ErrorModel::Uri(m) => "invalid uri: "@ + m,
        ErrorModel::Scheme(m) => "unsupported scheme "@ + debugged(m)
            + " (bouncy-fetch only speaks http/https)"@,
        ErrorModel::Build(m) => "request build error: "@ + m,
        ErrorModel::Client(m) => "client error: "@ + m,
        ErrorModel::Body(m) => "body error: "@ + m,
        ErrorModel::Tls(m) => "tls config: "@ + m,
        ErrorModel::HeaderName(m) => "invalid header name "@ + debugged(m),
        ErrorModel::HeaderValue(m) => "invalid header value for "@ + debugged(m),
        ErrorModel::InvalidMethod(m) => "invalid method "@ + debugged(m),
        ErrorModel::Timeout(ms) => "request timed out after "@ + duration_text(ms),
        ErrorModel::TooManyRedirects(n) => "too many redirects (cap: "@ + decimal(n as nat)
            + ")"@,
        ErrorModel::BadRedirectLocation(l, u) => "redirect Location "@ + debugged(l)
            + " could not be resolved against "@ + u,
    }
}

impl Error {
    /// The error in words.
    pub fn message(&self) -> (r: String)
        ensures
            r@ == error_text(self@),
    {
        let mut s = String::new();
        match self {
            Error::Uri(m) => {
                s = "invalid uri: ".to_owned();
                s.append(m.as_str());
            },
            Error::Scheme(m) => {
                s = "unsupported scheme ".to_owned();
                s.append(debug_text(m.as_str()).as_str());
                s.append(" (bouncy-fetch only speaks http/https)");
            },
            Error::Build(m) => {
                s = "request build error: ".to_owned();
                s.append(m.as_str());
            },
            Error::Client(m) => {
                s = "client error: ".to_owned();
                s.append(m.as_str());
            },
            Error::Body(m) => {
                s = "body error: ".to_owned();
                s.append(m.as_str());
            },
            Error::Tls(m) => {
                s = "tls config: ".to_owned();
                s.append(m.as_str());
            },
            Error::HeaderName(m) => {
                s = "invalid header name ".to_owned();
                s.append(debug_text(m.as_str()).as_str());
            },
            Error::HeaderValue(m) => {
                s = "invalid header value for ".to_owned();
                s.append(debug_text(m.as_str()).as_str());
            },
            Error::InvalidMethod(m) => {
                s = "invalid method ".to_owned();
                s.append(debug_text(m.as_str()).as_str());
            },
            Error::Timeout(ms) => {
                s = "request timed out after ".to_owned();
                s.append(debug_duration(*ms).as_str());
            },
            Error::TooManyRedirects(n) => {
                s = "too many redirects (cap: ".to_owned();
                push_decimal(&mut s, *n as u64);
                s.append(")");
            },
            Error::BadRedirectLocation(l, u) => {
                s = "redirect Location ".to_owned();
                s.append(debug_text(l.as_str()).as_str());
                s.append(" could not be resolved against ");
                s.append(u.as_str());
            },
        }
        s
    }
}

pub struct Response {
    pub status: u16,
    pub body: Vec<u8>,
    pub headers: HeaderMap<HeaderValue>,
}

/// A request: method, URL, headers and body.
pub struct FetchRequest {
    pub url: String,
    pub method: String,
    pub headers: Vec<(String, String)>,
    pub body: Vec<u8>,
}

/// The text of a [`FetchRequest`].
#[verifier::ext_equal]
pub struct RequestModel {
    pub url: Seq<char>,
    pub method: Seq<char>,
    pub headers: Seq<(Seq<char>, Seq<char>)>,
    pub body: Seq<u8>,
}

impl View for FetchRequest {
    type V = RequestModel;

    open spec fn view(&self) -> RequestModel {
        RequestModel {
            url: self.url@,
            method: self.method@,
            headers: pair_views(self.headers@),
            body: self.body@,
        }
    }
}

impl FetchRequest {
    pub fn new(url: &str) -> (r: FetchRequest)
        ensures
            r@ == (RequestModel { url: url@, method: "GET"@, headers: seq![], body: seq![] }),
    {
        let r = FetchRequest {
            url: url.to_owned(),
            method: "GET".to_owned(),
            headers: Vec::new(),
            body: Vec::new(),
        };
        assert(r@.headers =~= seq![]);
        r
    }

    pub fn method(self, m: &str) -> (r: FetchRequest)
        ensures
            r@ == (RequestModel { method: m@, ..self@ }),
    {
        FetchRequest { url: self.url, method: m.to_owned(), headers: self.headers, body: self.body }
    }

    pub fn header(self, name: &str, value: &str) -> (r: FetchRequest)
        ensures
            r@ == (RequestModel { headers: self@.headers.push((name@, value@)), ..self@ }),
    {
        let mut headers = self.headers;
        headers.push((name.to_owned(), value.to_owned()));
        assert(pair_views(headers@) =~= self@.headers.push((name@, value@)));
        FetchRequest { url: self.url, method: self.method, headers, body: self.body }
    }

    pub fn body_str(self, body: &str) -> (r: FetchRequest)
        ensures
            r@ == (RequestModel { body: encode_utf8(body@), ..self@ }),
    {
        let body = body.as_bytes_vec();
        FetchRequest { url: self.url, method: self.method, headers: self.headers, body }
    }

    pub fn body_bytes(self, body: Vec<u8>) -> (r: FetchRequest)
        ensures
            r@ == (RequestModel { body: body@, ..self@ }),
    {
        FetchRequest { url: self.url, method: self.method, headers: self.headers, body }
    }
}

// ---- settings --------------------------------------------------------------

pub const VERSION: &'static str = "0.1.0";

pub const HOMEPAGE: &'static str = "https://bouncy.example/";

/// How the client names itself unless it is told otherwise.
pub open spec fn default_agent() -> Seq<char> {
    "bouncy/"@ + VERSION@ + " (+"@ + HOMEPAGE@ + ")"@
}

pub fn default_user_agent() -> (r: String)
    ensures
        r@ == default_agent(),
{
    let mut s = "bouncy/".to_owned();
    s.append(VERSION);
    s.append(" (+");
    s.append(HOMEPAGE);
    s.append(")");
    s
}

/// Settings of a client, one method for each.
pub struct FetcherBuilder {
    pub pool_idle_timeout_ms: u64,
    pub pool_max_idle_per_host: usize,
    pub proxy: Option<String>,
    pub request_timeout_ms: Option<u64>,
    pub cookie_jar: Option<CookieJar>,
    pub tracker_blocklist: Option<TrackerBlocklist>,
    pub extra_ca_files: Vec<String>,
    pub max_redirects: u32,
    pub user_agent: Option<String>,
}

impl Default for FetcherBuilder {
    fn default() -> (r: FetcherBuilder)
        ensures
            r.pool_idle_timeout_ms == 90_000,
            r.pool_max_idle_per_host == 16,
            r.proxy is None,
            r.request_timeout_ms is None,
            r.cookie_jar is None,
            r.tracker_blocklist is None,
            r.extra_ca_files@.len() == 0,
            r.max_redirects == 10,
            r.user_agent is None,
    {
        FetcherBuilder {
            pool_idle_timeout_ms: 90_000,
            pool_max_idle_per_host: 16,
            proxy: None,
            request_timeout_ms: None,
            cookie_jar: None,
            tracker_blocklist: None,
            extra_ca_files: Vec::new(),
            max_redirects: 10,
            user_agent: None,
        }
    }
}

impl FetcherBuilder {
    pub fn pool_idle_timeout(self, ms: u64) -> (r: FetcherBuilder)
        ensures
            r == (FetcherBuilder { pool_idle_timeout_ms: ms, ..self }),
    {
        let mut r = self;
        r.pool_idle_timeout_ms = ms;
        r
    }

    pub fn pool_max_idle_per_host(self, n: usize) -> (r: FetcherBuilder)
        ensures
            r == (FetcherBuilder { pool_max_idle_per_host: n, ..self }),
    {
        let mut r = self;
        r.pool_max_idle_per_host = n;
        r
    }

    /// Sends every request through an HTTP CONNECT proxy: `http://host:port` or `host:port`.
    pub fn proxy(self, url: &str) -> (r: FetcherBuilder)
        ensures
            r.proxy is Some && r.proxy->0@ == url@,
            r == (FetcherBuilder { proxy: r.proxy, ..self }),
    {
        let mut r = self;
        r.proxy = Some(url.to_owned());
        r
    }

    /// The most milliseconds that a whole request may take.
    pub fn request_timeout(self, ms: u64) -> (r: FetcherBuilder)
        ensures
            r == (FetcherBuilder { request_timeout_ms: Some(ms), ..self }),
    {
        let mut r = self;
        r.request_timeout_ms = Some(ms);
        r
    }

    pub fn cookie_jar(self, jar: CookieJar) -> (r: FetcherBuilder)
        ensures
            r == (FetcherBuilder { cookie_jar: Some(jar), ..self }),
    {
        let mut r = self;
        r.cookie_jar = Some(jar);
        r
    }

    pub fn tracker_blocklist(self, list: TrackerBlocklist) -> (r: FetcherBuilder)
        ensures
            r == (FetcherBuilder { tracker_blocklist: Some(list), ..self }),
    {
        let mut r = self;
        r.tracker_blocklist = Some(list);
        r
    }

    /// Trusts the certificates of one more PEM file.
    pub fn ca_file(self, path: &str) -> (r: FetcherBuilder)
        ensures
            crate::text::views(r.extra_ca_files@) == crate::text::views(self.extra_ca_files@).push(
                path@,
            ),
            r == (FetcherBuilder { extra_ca_files: r.extra_ca_files, ..self }),
    {
        let mut r = self;
        r.extra_ca_files.push(path.to_owned());
        assert(crate::text::views(r.extra_ca_files@) =~= crate::text::views(
            self.extra_ca_files@,
        ).push(path@));
        r
    }

    /// The most redirects that are followed; with 0 none is.
    pub fn max_redirects(self, n: u32) -> (r: FetcherBuilder)
        ensures
            r == (FetcherBuilder { max_redirects: n, ..self }),
    {
        let mut r = self;
        r.max_redirects = n;
        r
    }

    /// The name by which the client identifies itself.
    pub fn user_agent(self, s: &str) -> (r: FetcherBuilder)
        ensures
            r.user_agent is Some && r.user_agent->0@ == s@,
            r == (FetcherBuilder { user_agent: r.user_agent, ..self }),
    {
        let mut r = self;
        r.user_agent = Some(s.to_owned());
        r
    }

    /// Settles the settings. A name that is empty or that no header can hold is
    /// refused, and so is a proxy that is no URI.
    pub fn build(self) -> (r: Result<Fetcher, Error>)
        ensures
            match r {
                Ok(f) => {
                    &&& agent_ok(self.user_agent)
                    &&& self.proxy is Some ==> parsed_uri(proxy_text(self.proxy->0@)) is Ok
                    &&& f.user_agent@ == agent_of(self.user_agent)
                    &&& crate::dom::text_view(f.proxy) == (match self.proxy {
                        Some(p) => Some(proxy_text(p@)),
                        None => None,
                    })
                    &&& f.pool_idle_timeout_ms == self.pool_idle_timeout_ms
                    &&& f.pool_max_idle_per_host == self.pool_max_idle_per_host
                    &&& f.request_timeout_ms == self.request_timeout_ms
                    &&& f.cookie_jar == self.cookie_jar
                    &&& f.tracker_blocklist == self.tracker_blocklist
                    &&& f.extra_ca_files == self.extra_ca_files
                    &&& f.max_redirects == self.max_redirects
                },
                Err(e) => if agent_ok(self.user_agent) {
                    self.proxy is Some && parsed_uri(proxy_text(self.proxy->0@)) is Err && e@
                        == ErrorModel::Uri(parsed_uri(proxy_text(self.proxy->0@))->Err_0)
                } else {
                    e@ == ErrorModel::HeaderValue("user-agent"@)
                },
            },
    {
        let user_agent = match self.user_agent {
            Some(ua) => {
                if ua.as_str().is_empty() || !valid_value(ua.as_str()) {
                    return Err(Error::HeaderValue("user-agent".to_owned()));
                }
                ua
            },
            None => default_user_agent(),
        };
        let proxy = match self.proxy {
            Some(p) => {
                let text = if contains(p.as_str(), "://") {
                    p
                } else {
                    let mut t = "http://".to_owned();
                    t.append(p.as_str());
                    t
                };
                match parse_uri(text.as_str()) {
                    Ok(_) => Some(text),
                    Err(m) => {
                        return Err(Error::Uri(m));
                    },
                }
            },
            None => None,
        };
        Ok(
            Fetcher {
                pool_idle_timeout_ms: self.pool_idle_timeout_ms,
                pool_max_idle_per_host: self.pool_max_idle_per_host,
                proxy,
                request_timeout_ms: self.request_timeout_ms,
                cookie_jar: self.cookie_jar,
                tracker_blocklist: self.tracker_blocklist,
                extra_ca_files: self.extra_ca_files,
                max_redirects: self.max_redirects,
                user_agent,
            },
        )
    }
}

/// A name that the client can send, or none at all.
pub open spec fn agent_ok(ua: Option<String>) -> bool {
    ua matches Some(s) ==> s@.len() > 0 && is_header_value(encode_utf8(s@))
}

pub open spec fn agent_of(ua: Option<String>) -> Seq<char> {
    match ua {
        Some(s) => s@,
        None => default_agent(),
    }
}

/// A proxy as a URI: one without a scheme is reached over HTTP.
pub open spec fn proxy_text(p: Seq<char>) -> Seq<char> {
    if has_text(p, "://"@) {
        p
    } else {
        "http://"@ + p
    }
}

/// The settled settings of a client.
pub struct Fetcher {
    pub pool_idle_timeout_ms: u64,
    pub pool_max_idle_per_host: usize,
    pub proxy: Option<String>,
    pub request_timeout_ms: Option<u64>,
    pub cookie_jar: Option<CookieJar>,
    pub tracker_blocklist: Option<TrackerBlocklist>,
    pub extra_ca_files: Vec<String>,
    pub max_redirects: u32,
    pub user_agent: String,
}

// ---- what is sent ------------------------------------------------------------

/// A header of this name is among the given ones.
pub open spec fn names(headers: Seq<(Seq<char>, Seq<char>)>, name: Seq<char>) -> bool {
    exists|i: int| 0 <= i < headers.len() && same_ignoring_case((#[trigger] headers[i]).0, name)
}

/// The first header that cannot be sent, and why.
pub open spec fn bad_header(headers: Seq<(Seq<char>, Seq<char>)>) -> Option<ErrorModel>
    decreases headers.len(),
{
    if headers.len() == 0 {
        None
    } else if !is_header_name(headers[0].0) {
        Some(ErrorModel::HeaderName(headers[0].0))
    } else if !is_header_value(encode_utf8(headers[0].1)) {
        Some(ErrorModel::HeaderValue(headers[0].0))
    } else {
        bad_header(headers.skip(1))
    }
}

/// Why a request cannot be sent at all.
pub open spec fn refusal(req: RequestModel) -> Option<ErrorModel> {
    match parsed_uri(req.url) {
        Err(m) => Some(ErrorModel::Uri(m)),
        Ok(None) => Some(ErrorModel::Scheme(seq![])),
        Ok(Some(s)) => if s != "http"@ && s != "https"@ {
            Some(ErrorModel::Scheme(s))
        } else if !is_token(req.method) {
            Some(ErrorModel::InvalidMethod(req.method))
        } else {
            bad_header(req.headers)
        },
    }
}

/// The request's own headers, with an encoding and a name where it has none.
pub open spec fn default_headers(headers: Seq<(Seq<char>, Seq<char>)>, agent: Seq<char>) -> Seq<
    (Seq<char>, Seq<char>),
> {
    let with_encoding = if names(headers, "accept-encoding"@) {
        headers
    } else {
        headers.push(("accept-encoding"@, "gzip, deflate, br"@))
    };
    if names(headers, "user-agent"@) {
        with_encoding
    } else {
        with_encoding.push(("user-agent"@, agent))
    }
}

/// The headers of a request, with the given cookies where it names none itself
/// and a header can hold them.
pub open spec fn sent_headers(
    headers: Seq<(Seq<char>, Seq<char>)>,
    agent: Seq<char>,
    cookies: Option<Seq<char>>,
) -> Seq<(Seq<char>, Seq<char>)> {
    let base = default_headers(headers, agent);
    match cookies {
        Some(c) if !names(headers, "cookie"@) && is_header_value(encode_utf8(c)) => base.push(
            ("cookie"@, c),
        ),
        _ => base,
    }
}

fn has_header(headers: &Vec<(String, String)>, name: &str) -> (r: bool)
    ensures
        r == names(pair_views(headers@), name@),
{
    let ghost all = pair_views(headers@);
    let mut i: usize = 0;
    while i < headers.len()
        invariant
            i <= headers@.len(),
            all == pair_views(headers@),
            forall|j: int| 0 <= j < i ==> !same_ignoring_case((#[trigger] all[j]).0, name@),
        decreases headers@.len() - i,
    {
        assert(all[i as int].0 == headers@[i as int].0@);
        if eq_ignore_ascii_case(headers[i].0.as_str(), name) {
            return true;
        }
        i = i + 1;
    }
    false
}

fn check_headers(headers: &Vec<(String, String)>) -> (r: Option<Error>)
    ensures
        match r {
            Some(e) => bad_header(pair_views(headers@)) == Some(e@),
            None => bad_header(pair_views(headers@)) is None,
        },
{
    let ghost all = pair_views(headers@);
    let mut i: usize = 0;
    assert(all.skip(0) =~= all);
    while i < headers.len()
        invariant
            i <= headers@.len(),
            all == pair_views(headers@),
            bad_header(all) == bad_header(all.skip(i as int)),
        decreases headers@.len() - i,
    {
        assert(all.skip(i as int)[0] == (headers@[i as int].0@, headers@[i as int].1@));
        if !valid_name(headers[i].0.as_str()) {
            return Some(Error::HeaderName(headers[i].0.clone()));
        }
        if !valid_value(headers[i].1.as_str()) {
            return Some(Error::HeaderValue(headers[i].0.clone()));
        }
        assert(all.skip(i as int).skip(1) =~= all.skip(i + 1));
        i = i + 1;
    }
    None
}

/// Why a request cannot be sent, if there is a reason.
pub fn check_request(req: &FetchRequest) -> (r: Option<Error>)
    ensures
        match r {
            Some(e) => refusal(req@) == Some(e@),
            None => refusal(req@) is None,
        },
{
    match parse_uri(req.url.as_str()) {
        Err(m) => Some(Error::Uri(m)),
        Ok(None) => {
            let e = Error::Scheme(String::new());
            assert(e@ == ErrorModel::Scheme(seq![]));
            Some(e)
        },
        Ok(Some(s)) => {
            if !same(s.as_str(), "http") && !same(s.as_str(), "https") {
                Some(Error::Scheme(s))
            } else if !valid_method(req.method.as_str()) {
                Some(Error::InvalidMethod(req.method.clone()))
            } else {
                check_headers(&req.headers)
            }
        },
    }
}

fn copy_pairs(v: &Vec<(String, String)>) -> (r: Vec<(String, String)>)
    ensures
        pair_views(r@) == pair_views(v@),
{
    let mut out: Vec<(String, String)> = Vec::new();
    let mut i: usize = 0;
    while i < v.len()
        invariant
            i <= v@.len(),
            pair_views(out@) == pair_views(v@).take(i as int),
        decreases v@.len() - i,
    {
        let ghost prior = out@;
        out.push((v[i].0.clone(), v[i].1.clone()));
        assert(pair_views(out@) =~= pair_views(prior).push((v@[i as int].0@, v@[i as int].1@)));
        assert(pair_views(v@).take(i + 1) =~= pair_views(v@).take(i as int).push(
            pair_views(v@)[i as int],
        ));
        i = i + 1;
    }
    assert(pair_views(v@).take(i as int) =~= pair_views(v@));
    out
}

fn push_pair(v: &mut Vec<(String, String)>, name: &str, value: &str)
    ensures
        pair_views(final(v)@) == pair_views(old(v)@).push((name@, value@)),
{
    let ghost before = v@;
    v.push((name.to_owned(), value.to_owned()));
    assert(pair_views(v@) =~= pair_views(before).push((name@, value@)));
}

/// The headers that go out with a request, given the cookies for its origin.
pub fn headers_to_send(
    headers: &Vec<(String, String)>,
    agent: &str,
    cookies: &Option<String>,
) -> (r: Vec<(String, String)>)
    ensures
        pair_views(r@) == sent_headers(
            pair_views(headers@),
            agent@,
            crate::dom::text_view(*cookies),
        ),
{
    let mut out = copy_pairs(headers);
    if !has_header(headers, "accept-encoding") {
        push_pair(&mut out, "accept-encoding", "gzip, deflate, br");
    }
    if !has_header(headers, "user-agent") {
        push_pair(&mut out, "user-agent", agent);
    }
    if let Some(c) = cookies {
        if !has_header(headers, "cookie") && valid_value(c.as_str()) {
            push_pair(&mut out, "cookie", c.as_str());
        }
    }
    out
}

/// The cookies that belong to a URL.
pub open spec fn cookies_for(
    jar: Map<Seq<char>, Map<Seq<char>, Seq<char>>>,
    url: Seq<char>,
) -> Map<Seq<char>, Seq<char>> {
    if parsed_url(url) is Some && origin_of(parsed_url(url)->0) is Some {
        cookies_of(jar, origin_of(parsed_url(url)->0)->0)
    } else {
        Map::empty()
    }
}

/// What the jar sends along to a URL, where it has cookies for it.
pub fn cookies_to_send(jar: &Option<CookieJar>, url: &str) -> (r: Option<String>)
    ensures
        match r {
            Some(h) => jar is Some && cookies_for(jar->0@, url@).dom() != Set::<Seq<char>>::empty()
                && is_cookie_header(cookies_for(jar->0@, url@), h@),
            None => jar is None || cookies_for(jar->0@, url@).dom() == Set::<Seq<char>>::empty(),
        },
{
    match jar {
        Some(jar) => match origin_for(url) {
            Some(o) => jar.cookie_header(o.as_str()),
            None => {
                assert(cookies_for(jar@, url@).dom() =~= Set::<Seq<char>>::empty());
                None
            },
        },
        None => None,
    }
}

impl Fetcher {
    /// A client with the default settings.
    pub fn new() -> (r: Result<Fetcher, Error>)
        ensures
            match r {
                Ok(f) => f.user_agent@ == default_agent() && f.proxy is None && f.cookie_jar is None
                    && f.tracker_blocklist is None && f.max_redirects == 10
                    && f.request_timeout_ms is None,
                Err(_) => false,
            },
    {
        Fetcher::builder().build()
    }

    pub fn builder() -> (r: FetcherBuilder)
        ensures
            r.max_redirects == 10,
            r.proxy is None,
            r.user_agent is None,
            r.cookie_jar is None,
            r.tracker_blocklist is None,
            r.request_timeout_ms is None,
            r.pool_idle_timeout_ms == 90_000,
            r.pool_max_idle_per_host == 16,
            r.extra_ca_files@.len() == 0,
    {
        FetcherBuilder::default()
    }

    /// The cookies of the client, where it keeps any.
    pub fn cookie_jar(&self) -> (r: Option<&CookieJar>)
        ensures
            match r {
                Some(jar) => self.cookie_jar == Some(*jar),
                None => self.cookie_jar is None,
            },
    {
        match &self.cookie_jar {
            Some(jar) => Some(jar),
            None => None,
        }
    }

    /// The hosts that the client does not talk to, where there is a list.
    pub fn tracker_blocklist(&self) -> (r: Option<&TrackerBlocklist>)
        ensures
            match r {
                Some(list) => self.tracker_blocklist == Some(*list),
                None => self.tracker_blocklist is None,
            },
    {
        match &self.tracker_blocklist {
            Some(list) => Some(list),
            None => None,
        }
    }

    /// What goes out for a request: its method, URL and body as they are, and
    /// its headers with those that the client adds.
    pub fn prepare(&self, req: &FetchRequest) -> (r: Result<FetchRequest, Error>)
        ensures
            match r {
                Ok(out) => {
                    &&& refusal(req@) is None
                    &&& out.url@ == req.url@
                    &&& out.method@ == req.method@
                    &&& out.body@ == req.body@
                    &&& exists|c: Option<Seq<char>>|
                        {
                            &&& pair_views(out.headers@) == #[trigger] sent_headers(
                                req@.headers,
                                self.user_agent@,
                                c,
                            )
                            &&& match c {
                                Some(h) => self.cookie_jar is Some && cookies_for(
                                    self.cookie_jar->0@,
                                    req.url@,
                                ).dom() != Set::<Seq<char>>::empty() && is_cookie_header(
                                    cookies_for(self.cookie_jar->0@, req.url@),
                                    h,
                                ),
                                None => self.cookie_jar is None || cookies_for(
                                    self.cookie_jar->0@,
                                    req.url@,
                                ).dom() == Set::<Seq<char>>::empty(),
                            }
                        }
                },
                Err(e) => refusal(req@) == Some(e@),
            },
    {
        if let Some(e) = check_request(req) {
            return Err(e);
        }
        let cookies = cookies_to_send(&self.cookie_jar, req.url.as_str());
        let headers = headers_to_send(&req.headers, self.user_agent.as_str(), &cookies);
        Ok(
            FetchRequest {
                url: req.url.clone(),
                method: req.method.clone(),
                headers,
                body: vstd::slice::slice_to_vec(req.body.as_slice()),
            },
        )
    }
}

// ---- what comes back ---------------------------------------------------------

/// The jar after every `Set-Cookie` value that is visible ASCII, in order.
pub open spec fn harvested(
    jar: Map<Seq<char>, Map<Seq<char>, Seq<char>>>,
    origin: Seq<char>,
    values: Seq<Seq<u8>>,
) -> Map<Seq<char>, Map<Seq<char>, Seq<char>>>
    decreases values.len(),
{
    if values.len() == 0 {
        jar
    } else {
        let before = harvested(jar, origin, values.drop_last());
        match visible_text(values.last()) {
            Some(raw) => match set_cookie_pair(raw) {
                Some((name, value)) => with_cookie(before, origin, name, value),
                None => before,
            },
            None => before,
        }
    }
}

/// Records the cookies that a response sets for the origin of its URL.
pub fn harvest_cookies(jar: &mut CookieJar, url: &str, headers: &HeaderMap<HeaderValue>)
    ensures
        final(jar)@ == (if parsed_url(url@) is Some && origin_of(parsed_url(url@)->0) is Some {
            harvested(
                old(jar)@,
                origin_of(parsed_url(url@)->0)->0,
                values_of(*headers, ascii_lower("set-cookie"@)),
            )
        } else {
            old(jar)@
        }),
{
    let origin = match origin_for(url) {
        Some(o) => o,
        None => {
            return;
        },
    };
    let list = get_all(headers, "set-cookie");
    let ghost all = byte_views(list@);
    let ghost start = jar@;
    let mut i: usize = 0;
    assert(all.take(0) =~= seq![]);
    while i < list.len()
        invariant
            i <= list@.len(),
            all == byte_views(list@),
            jar@ == harvested(start, origin@, all.take(i as int)),
        decreases list@.len() - i,
    {
        assert(all.take(i + 1).drop_last() =~= all.take(i as int));
        assert(all.take(i + 1).last() == list@[i as int]@);
        if let Some(raw) = to_str(&list[i]) {
            jar.record_set_cookie(origin.as_str(), raw.as_str());
        }
        i = i + 1;
    }
    assert(all.take(i as int) =~= all);
}

/// The encoding that a response names, trimmed and in lower case.
pub open spec fn encoding_of(h: HeaderMap<HeaderValue>) -> Option<Seq<char>> {
    match header_text(h, ascii_lower("content-encoding"@)) {
        Some(t) => Some(ascii_lower(trimmed(t))),
        None => None,
    }
}

/// A response as the caller sees it: the body decoded, and then without the
/// headers that described its encoding.
pub fn receive(status: u16, headers: HeaderMap<HeaderValue>, raw: Vec<u8>) -> (r: Result<
    Response,
    Error,
>)
    ensures
        match r {
            Ok(resp) => {
                &&& decoded(encoding_of(headers), raw@) == Ok::<_, Seq<char>>(resp.body@)
                &&& resp.status == status
                &&& header_values(resp.headers) == (if encoding_of(headers) is Some
                    && known_encoding(encoding_of(headers)->0) {
                    header_values(headers).remove(ascii_lower("content-encoding"@)).remove(
                        ascii_lower("content-length"@),
                    )
                } else {
                    header_values(headers)
                })
            },
            Err(e) => e is Tls && decoded(encoding_of(headers), raw@) == Err::<Seq<u8>, _>(
                e->Tls_0@,
            ),
        },
{
    let encoding = match first_text(&headers, "content-encoding") {
        Some(t) => Some(to_ascii_lowercase(trim(t.as_str()))),
        None => None,
    };
    let body = match decode_body(&encoding, raw) {
        Ok(b) => b,
        Err(e) => {
            return Err(e);
        },
    };
    let mut headers = headers;
    if let Some(e) = &encoding {
        if is_known_encoding(e.as_str()) {
            remove(&mut headers, "content-encoding");
            remove(&mut headers, "content-length");
        }
    }
    Ok(Response { status, body, headers })
}

// ---- redirects -----------------------------------------------------------------

pub open spec fn redirects(status: int) -> bool {
    status == 301 || status == 302 || status == 303 || status == 307 || status == 308
}

pub fn is_redirect(status: u16) -> (r: bool)
    ensures
        r == redirects(status as int),
{
    status == 301 || status == 302 || status == 303 || status == 307 || status == 308
}

/// The headers that do not describe a body.
pub open spec fn without_body_headers(headers: Seq<(Seq<char>, Seq<char>)>) -> Seq<
    (Seq<char>, Seq<char>),
>
    decreases headers.len(),
{
    if headers.len() == 0 {
        seq![]
    } else {
        let before = without_body_headers(headers.drop_last());
        let name = ascii_lower(headers.last().0);
        if name == "content-length"@ || name == "content-type"@ {
            before
        } else {
            before.push(headers.last())
        }
    }
}

/// The request that follows a redirect: after 301, 302 and 303 without a body,
/// and as GET unless it was GET or HEAD; after 307 and 308 as it was.
pub open spec fn redirected(req: RequestModel, status: int, next: Seq<char>) -> RequestModel {
    if 301 <= status <= 303 {
        let upper = upper_text(req.method);
        RequestModel {
            url: next,
            method: if upper != "GET"@ && upper != "HEAD"@ {
                "GET"@
            } else {
                req.method
            },
            headers: if req.body.len() > 0 {
                without_body_headers(req.headers)
            } else {
                req.headers
            },
            body: seq![],
        }
    } else {
        RequestModel { url: next, ..req }
    }
}

pub fn rewrite_for_redirect(req: FetchRequest, status: u16, next_url: String) -> (r: FetchRequest)
    ensures
        r@ == redirected(req@, status as int, next_url@),
{
    if !(301 <= status && status <= 303) {
        return FetchRequest {
            url: next_url,
            method: req.method,
            headers: req.headers,
            body: req.body,
        };
    }
    let upper = uppercase(req.method.as_str());
    let method = if !same(upper.as_str(), "GET") && !same(upper.as_str(), "HEAD") {
        "GET".to_owned()
    } else {
        req.method
    };
    if req.body.len() == 0 {
        let r = FetchRequest { url: next_url, method, headers: req.headers, body: Vec::new() };
        assert(r@.body =~= seq![]);
        return r;
    }
    let ghost all = pair_views(req.headers@);
    let mut kept: Vec<(String, String)> = Vec::new();
    assert(pair_views(kept@) =~= without_body_headers(all.take(0)));
    let mut i: usize = 0;
    while i < req.headers.len()
        invariant
            i <= req.headers@.len(),
            all == pair_views(req.headers@),
            pair_views(kept@) == without_body_headers(all.take(i as int)),
        decreases req.headers@.len() - i,
    {
        let name = to_ascii_lowercase(req.headers[i].0.as_str());
        assert(all.take(i + 1).drop_last() =~= all.take(i as int));
        assert(all.take(i + 1).last() == (req.headers@[i as int].0@, req.headers@[i as int].1@));
        if !same(name.as_str(), "content-length") && !same(name.as_str(), "content-type") {
            push_pair(&mut kept, req.headers[i].0.as_str(), req.headers[i].1.as_str());
        }
        i = i + 1;
    }
    assert(all.take(i as int) =~= all);
    let r = FetchRequest { url: next_url, method, headers: kept, body: Vec::new() };
    assert(r@.body =~= seq![]);
    r
}

/// A request under way: what is sent next, and how many redirects led to it.
pub struct Exchange {
    pub req: FetchRequest,
    pub hops: u32,
}

/// What to do at one step of a request.
pub enum Step {
    /// Send the request of the exchange.
    Send(Exchange),
    /// The request is answered.
    Done(Response),
    /// The request fails.
    Fail(Error),
}

/// A request to this URL is not sent: its host is blocked.
pub open spec fn stops(list: Option<TrackerBlocklist>, url: Seq<char>) -> bool {
    list is Some && parsed_url(url) is Some && blocked(list->0@, parsed_url(url)->0)
}

/// The answer to a request that is not sent: 204, without a body and without headers.
pub open spec fn no_content(r: Response) -> bool {
    r.status == 204 && r.body@.len() == 0 && header_values(r.headers).dom() == Set::<
        Seq<char>,
    >::empty()
}

impl Fetcher {
    /// Whether a request to this URL is not sent.
    fn is_stopped(&self, url: &str) -> (r: bool)
        ensures
            r == stops(self.tracker_blocklist, url@),
    {
        match &self.tracker_blocklist {
            Some(list) => list.blocks(url),
            None => false,
        }
    }

    /// Begins a request: one to a blocked host is answered at once, with 204 and
    /// an empty body.
    pub fn begin(&self, req: FetchRequest) -> (r: Step)
        ensures
            match r {
                Step::Done(resp) => stops(self.tracker_blocklist, req.url@) && no_content(resp),
                Step::Send(ex) => !stops(self.tracker_blocklist, req.url@) && ex.req == req
                    && ex.hops == 0,
                Step::Fail(_) => false,
            },
    {
        if self.is_stopped(req.url.as_str()) {
            return Step::Done(Response { status: 204, body: Vec::new(), headers: no_headers() });
        }
        Step::Send(Exchange { req, hops: 0 })
    }

    /// Goes on after a response to the request of an exchange: follows a redirect
    /// that names a place to go, as long as redirects are left. One that leads to a
    /// blocked host is answered at once, with 204 and an empty body.
    pub fn advance(&self, ex: Exchange, resp: Response) -> (r: Step)
        ensures
            ({
                let location = header_text(resp.headers, ascii_lower("location"@));
                let next = joined_url(ex.req.url@, location->0);
                let follows = redirects(resp.status as int) && self.max_redirects > 0;
                let leads = follows && ex.hops < self.max_redirects && location is Some
                    && next is Ok;
                let stop = leads && stops(self.tracker_blocklist, next->Ok_0);
                match r {
                    Step::Done(d) => if stop {
                        no_content(d)
                    } else {
                        d == resp && (!follows || ex.hops < self.max_redirects && location is None)
                    },
                    Step::Fail(e) => follows && if ex.hops >= self.max_redirects {
                        e@ == ErrorModel::TooManyRedirects(self.max_redirects)
                    } else {
                        location is Some && next is Err && e@ == ErrorModel::BadRedirectLocation(
                            location->0,
                            ex.req.url@,
                        )
                    },
                    Step::Send(n) => {
                        &&& leads
                        &&& !stop
                        &&& n.hops == ex.hops + 1
                        &&& n.req@ == redirected(ex.req@, resp.status as int, next->Ok_0)
                    },
                }
            }),
    {
        if !is_redirect(resp.status) || self.max_redirects == 0 {
            return Step::Done(resp);
        }
        if ex.hops >= self.max_redirects {
            return Step::Fail(Error::TooManyRedirects(self.max_redirects));
        }
        let location = match first_text(&resp.headers, "location") {
            Some(l) => l,
            None => {
                return Step::Done(resp);
            },
        };
        match join_url(ex.req.url.as_str(), location.as_str()) {
            Ok(next) => {
                if self.is_stopped(next.as_str()) {
                    return Step::Done(
                        Response { status: 204, body: Vec::new(), headers: no_headers() },
                    );
                }
                let hops: u32 = ex.hops + 1;
                Step::Send(
                    Exchange { req: rewrite_for_redirect(ex.req, resp.status, next), hops },
                )
            },
            Err(_) => Step::Fail(Error::BadRedirectLocation(location, ex.req.url)),
        }
    }
}

// ---- trust ---------------------------------------------------------------------

/// The first file that gave no certificate.
pub open spec fn empty_file(files: Seq<(String, usize)>) -> Option<Seq<char>>
    decreases files.len(),
{
    if files.len() == 0 {
        None
    } else if files[0].1 == 0 {
        Some(files[0].0@)
    } else {
        empty_file(files.skip(1))
    }
}

/// Decides on the certificates that were loaded: `native` of the system, and from
/// each file the given number. A file without any is refused, and so is a store
/// without any.
pub fn check_trust(native: usize, files: &Vec<(String, usize)>) -> (r: Result<(), Error>)
    ensures
        match r {
            Ok(_) => empty_file(files@) is None && (native > 0 || files@.len() > 0),
            Err(e) => match empty_file(files@) {
                Some(path) => e@ == ErrorModel::Tls(
                    "ca-file "@ + path + " contained no certificates"@,
                ),
                None => native == 0 && files@.len() == 0 && e@ == ErrorModel::Tls(
                    "trust store is empty (no native or user-supplied roots)"@,
                ),
            },
        },
{
    let mut i: usize = 0;
    assert(files@.skip(0) =~= files@);
    while i < files.len()
        invariant
            i <= files@.len(),
            empty_file(files@) == empty_file(files@.skip(i as int)),
        decreases files@.len() - i,
    {
        assert(files@.skip(i as int)[0] == files@[i as int]);
        if files[i].1 == 0 {
            let mut m = "ca-file ".to_owned();
            m.append(files[i].0.as_str());
            m.append(" contained no certificates");
            return Err(Error::Tls(m));
        }
        assert(files@.skip(i as int).skip(1) =~= files@.skip(i + 1));
        i = i + 1;
    }
    if native == 0 && files.len() == 0 {
        return Err(
            Error::Tls("trust store is empty (no native or user-supplied roots)".to_owned()),
        );
    }
    Ok(())
}

} // verus!
