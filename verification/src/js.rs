//! What a page holds while scripts run on it, and what the script engine's
//! answers mean.
use crate::dom::html::{no_document, parsed_document, serialized, tree_size};
use crate::dom::laws::{document_stays_on_top, trees_are_topped};
use crate::dom::model::{known, plain, rooted, subtree, texts_fit, topped, walkable, NodeModel};
use crate::dom::{
    attr_at, first_of, raw_ids, selected_below, text_at, Document, NodeId,
};
use crate::fetch::client::{harvest_cookies, harvested, FetchRequest};
use crate::fetch::cookies::{cookies_of, is_cookie_header, CookieJar};
use crate::fetch::headers::values_of;
use crate::text::{
    ascii_lower, contains, debug_text, debugged, decimal, from_utf8_lossy, has_prefix, has_text,
    push_decimal, starts_with, trim, trimmed, utf8_lossy, views,
};
use crate::urls::{join_url, joined_url, origin_for, origin_of, parsed_url};
use http::{HeaderMap, HeaderValue};
use vstd::prelude::*;
use vstd::string::*;
use vstd::utf8::encode_utf8;

pub mod laws;

verus! {

#[derive(Debug)]
pub enum Error {
    Compile(String),
    Runtime(String),
    Convert,
    /// The script was stopped because it asked for another page.
    NavTerminated,
}

/// The contents of an [`Error`].
pub enum ErrorModel {
    Compile(Seq<char>),
    Runtime(Seq<char>),
    Convert,
    NavTerminated,
}

impl View for Error {
    type V = ErrorModel;

    open spec fn view(&self) -> ErrorModel {
        match *self {
            Error::Compile(m) => ErrorModel::Compile(m@),
            Error::Runtime(m) => ErrorModel::Runtime(m@),
            Error::Convert => ErrorModel::Convert,
            Error::NavTerminated => ErrorModel::NavTerminated,
        }
    }
}

/// An error in words.
pub open spec fn error_text(e: ErrorModel) -> Seq<char> {
    match e {
        ErrorModel::Compile(m) => "compile error: "@ + m,
        ErrorModel::Runtime(m) => "runtime error: "@ + m,
        ErrorModel::Convert => "conversion error"@,
        ErrorModel::NavTerminated => "execution halted by queued navigation"@,
    }
}

impl Error {
    /// The error in words.
    pub fn message(&self) -> (r: String)
        ensures
            r@ == error_text(self@),
    {
        match self {
            Error::Compile(m) => {
                let mut s = "compile error: ".to_owned();
                s.append(m.as_str());
                s
            },
            Error::Runtime(m) => {
                let mut s = "runtime error: ".to_owned();
                s.append(m.as_str());
                s
            },
            Error::Convert => "conversion error".to_owned(),
            Error::NavTerminated => "execution halted by queued navigation".to_owned(),
        }
    }
}

// ---- what an evaluation comes to -----------------------------------------------

/// What a script throws when it asks for another page.
pub const NAV_MARKER: &'static str = "bouncy:nav-terminated";

/// What the engine says of a script.
pub enum ScriptOutcome {
    /// The source cannot be handed over.
    NoSource,
    /// It does not compile; with the engine's message, where there is one.
    NotCompiled(Option<String>),
    /// It did not run to its end; with whether it was stopped from outside, and
    /// the engine's message, where there is one.
    Stopped(bool, Option<String>),
    /// Its value has no text.
    NoText,
    Value(String),
}

pub open spec fn message_or(m: Option<String>, other: Seq<char>) -> Seq<char> {
    match m {
        Some(s) => s@,
        None => other,
    }
}

/// What an evaluation on a page gives.
pub open spec fn page_result(o: ScriptOutcome) -> Result<Seq<char>, ErrorModel> {
    match o {
        ScriptOutcome::NoSource => Err(ErrorModel::Convert),
        ScriptOutcome::NotCompiled(m) => Err(
            ErrorModel::Compile(message_or(m, "<compile error>"@)),
        ),
        ScriptOutcome::Stopped(terminated, m) => {
            let text = message_or(m, seq![]);
            if terminated || has_text(text, NAV_MARKER@) {
                Err(ErrorModel::NavTerminated)
            } else if text.len() == 0 {
                Err(ErrorModel::Runtime("<runtime error>"@))
            } else {
                Err(ErrorModel::Runtime(text))
            }
        },
        ScriptOutcome::NoText => Err(ErrorModel::Convert),
        ScriptOutcome::Value(s) => Ok(s@),
    }
}

pub open spec fn result_view(r: Result<String, Error>) -> Result<Seq<char>, ErrorModel> {
    match r {
        Ok(s) => Ok(s@),
        Err(e) => Err(e@),
    }
}

/// Reads what the engine says of a script that ran on a page.
pub fn eval_on_page(o: ScriptOutcome) -> (r: Result<String, Error>)
    ensures
        result_view(r) == page_result(o),
{
    match o {
        ScriptOutcome::NoSource => Err(Error::Convert),
        ScriptOutcome::NotCompiled(m) => match m {
            Some(s) => Err(Error::Compile(s)),
            None => Err(Error::Compile("<compile error>".to_owned())),
        },
        ScriptOutcome::Stopped(terminated, m) => {
            let text = match m {
                Some(s) => s,
                None => {
                    let s = String::new();
                    assert(s@ =~= seq![]);
                    s
                },
            };
            if terminated || contains(text.as_str(), NAV_MARKER) {
                Err(Error::NavTerminated)
            } else if text.as_str().is_empty() {
                Err(Error::Runtime("<runtime error>".to_owned()))
            } else {
                Err(Error::Runtime(text))
            }
        },
        ScriptOutcome::NoText => Err(Error::Convert),
        ScriptOutcome::Value(s) => Ok(s),
    }
}

/// What an evaluation away from any page gives: there a script cannot ask for
/// another page.
pub open spec fn lone_result(o: ScriptOutcome) -> Result<Seq<char>, ErrorModel> {
    match o {
        ScriptOutcome::Stopped(_, m) => Err(
            ErrorModel::Runtime(message_or(m, "<runtime error>"@)),
        ),
        other => page_result(other),
    }
}

/// Reads what the engine says of a script that ran away from any page.
pub fn eval_alone(o: ScriptOutcome) -> (r: Result<String, Error>)
    ensures
        result_view(r) == lone_result(o),
{
    match o {
        ScriptOutcome::Stopped(_, m) => match m {
            Some(s) => Err(Error::Runtime(s)),
            None => Err(Error::Runtime("<runtime error>".to_owned())),
        },
        other => eval_on_page(other),
    }
}

/// What the result of one inline script means for the others: an error ends them,
/// unless the script only asked for another page.
pub fn after_script(result: Result<String, Error>) -> (r: Result<(), Error>)
    ensures
        match result {
            Ok(_) => r is Ok,
            Err(e) => if e is NavTerminated {
                r is Ok
            } else {
                r == Err::<(), Error>(e)
            },
        },
{
    match result {
        Ok(_) => Ok(()),
        Err(Error::NavTerminated) => Ok(()),
        Err(e) => Err(e),
    }
}

// ---- URLs ----------------------------------------------------------------------

/// An address that a script gives, resolved against the page's.
pub open spec fn script_url(base: Seq<char>, target: Seq<char>) -> Result<Seq<char>, Seq<char>> {
    if has_prefix(target, "http://"@) || has_prefix(target, "https://"@) {
        Ok(target)
    } else if base.len() == 0 {
        Err("relative url with no base"@)
    } else {
        joined_url(base, target)
    }
}

pub fn resolve_url(base: &str, target: &str) -> (r: Result<String, String>)
    ensures
        crate::urls::text_result(r) == script_url(base@, target@),
{
    if starts_with(target, "http://") || starts_with(target, "https://") {
        return Ok(target.to_owned());
    }
    if base.is_empty() {
        return Err("relative url with no base".to_owned());
    }
    join_url(base, target)
}

// ---- the page ------------------------------------------------------------------

/// A page that is loaded: its document, its address, the cookies that its scripts
/// were given, and the page that they have asked for.
pub struct Page {
    pub doc: Document,
    pub base_url: String,
    pub cookies: CookieJar,
    pub pending_nav: Option<String>,
}

/// The page that scripts have asked for, after one asks for an address.
pub open spec fn asked_for(
    pending: Option<Seq<char>>,
    base: Seq<char>,
    url: Seq<char>,
) -> Option<Seq<char>> {
    if url.len() == 0 {
        pending
    } else {
        Some(
            match script_url(base, url) {
                Ok(u) => u,
                Err(_) => url,
            },
        )
    }
}

/// The text of the inline scripts among the given elements: those without `src`
/// that hold more than whitespace.
pub open spec fn script_texts(d: Seq<NodeModel>, s: Seq<int>) -> Seq<Seq<char>>
    decreases s.len(),
{
    if s.len() == 0 {
        seq![]
    } else {
        let before = script_texts(d, s.drop_last());
        let text = text_at(d, s.last(), true);
        if attr_at(d, s.last(), "src"@) is None && trimmed(text).len() > 0 {
            before.push(text)
        } else {
            before
        }
    }
}

impl Page {
    /// No walk through the document goes on for ever, its document node is the only
    /// one and hangs on nothing, and its texts fit the serializer.
    pub open spec fn valid(&self) -> bool {
        walkable(self.doc@) && rooted(self.doc@) && topped(self.doc@) && texts_fit(self.doc@)
    }

    /// Loads a page.
    pub fn load(html: &str, base_url: &str) -> (r: Result<Page, Error>)
        ensures
            match r {
                Ok(p) => {
                    &&& crate::select::readable(html@)
                    &&& p.valid()
                    &&& plain(subtree(p.doc@, 0)) == parsed_document(html@)
                    &&& p.doc@.len() == tree_size(parsed_document(html@))
                    &&& p.base_url@ == base_url@
                    &&& p.cookies@.dom() == Set::<Seq<char>>::empty()
                    &&& p.pending_nav is None
                },
                Err(e) => e is Compile && !crate::select::readable(html@),
            },
    {
        match Document::parse(html) {
            Ok(doc) => {
                proof {
                    trees_are_topped(doc@);
                }
                Ok(
                    Page {
                        doc,
                        base_url: base_url.to_owned(),
                        cookies: CookieJar::new(),
                        pending_nav: None,
                    },
                )
            },
            Err(e) => Err(Error::Compile(e.message())),
        }
    }

    /// The inline scripts, in document order.
    pub fn inline_scripts(&self) -> (r: Vec<String>)
        requires
            walkable(self.doc@),
        ensures
            views(r@) == script_texts(self.doc@, selected_below(self.doc@, 0, "script"@)),
    {
        proof {
            reveal_strlit("script");
            crate::text::trimmed_keeps_start("script"@);
        }
        let list = self.doc.query_selector_all("script");
        let ghost d = self.doc@;
        let ghost all = raw_ids(list@);
        let mut out: Vec<String> = Vec::new();
        assert(views(out@) =~= script_texts(d, all.take(0)));
        let mut k: usize = 0;
        while k < list.len()
            invariant
                k <= list@.len(),
                d == self.doc@,
                walkable(d),
                all == raw_ids(list@),
                views(out@) == script_texts(d, all.take(k as int)),
            decreases list@.len() - k,
        {
            assert(all.take(k + 1).drop_last() =~= all.take(k as int));
            assert(all.take(k + 1).last() == list@[k as int].0);
            let text = self.doc.raw_text_content(list[k]);
            if self.doc.get_attribute(list[k], "src").is_none() && !trim(
                text.as_str(),
            ).is_empty() {
                let ghost prior = out@;
                out.push(text);
                assert(views(out@) =~= views(prior).push(text@));
            }
            k = k + 1;
        }
        assert(all.take(k as int) =~= all);
        out
    }

    /// The page as HTML.
    pub fn dump_html(&self) -> (r: String)
        requires
            self.valid(),
        ensures
            r@ == serialized(plain(subtree(self.doc@, 0)), false),
    {
        proof {
            let d = self.doc@;
            assert forall|j: int| 0 <= j < d[0].children.len() implies no_document(
                plain(subtree(d, #[trigger] d[0].children[j])),
            ) by {
                document_stays_on_top(d, d[0].children[j]);
            }
        }
        self.doc.serialize()
    }

    /// The first element that a selector matches, by its number.
    pub fn query_selector(&self, selector: &str) -> (r: Option<u32>)
        requires
            walkable(self.doc@),
        ensures
            match r {
                Some(n) => first_of(selected_below(self.doc@, 0, selector@)) == Some(n as int),
                None => first_of(selected_below(self.doc@, 0, selector@)) is None,
            },
    {
        match self.doc.query_selector(selector) {
            Some(id) => Some(id.raw()),
            None => None,
        }
    }

    /// The HTML of an element; none where there is no such element.
    pub fn outer_html(&self, raw: u32) -> (r: Option<String>)
        requires
            self.valid(),
            raw > 0,
        ensures
            match r {
                Some(html) => known(self.doc@, raw as int) && html@ == serialized(
                    plain(subtree(self.doc@, raw as int)),
                    true,
                ),
                None => !known(self.doc@, raw as int),
            },
    {
        let id = NodeId(raw);
        if !self.doc.is_known(id) {
            return None;
        }
        proof {
            document_stays_on_top(self.doc@, raw as int);
        }
        Some(self.doc.outer_html(id))
    }

    /// A script asks for another page. Where it names one, the script is to be
    /// stopped, and the page that it asked for last is remembered.
    pub fn nav_to(&mut self, url: &str) -> (stop: bool)
        ensures
            stop == (url@.len() > 0),
            *final(self) == (Page { pending_nav: final(self).pending_nav, ..*old(self) }),
            crate::dom::text_view(final(self).pending_nav) == asked_for(
                crate::dom::text_view(old(self).pending_nav),
                old(self).base_url@,
                url@,
            ),
    {
        if url.is_empty() {
            return false;
        }
        let resolved = match resolve_url(self.base_url.as_str(), url) {
            Ok(u) => u,
            Err(_) => url.to_owned(),
        };
        self.pending_nav = Some(resolved);
        true
    }

    /// Gives the page that scripts have asked for, once.
    pub fn take_pending_nav(&mut self) -> (r: Option<String>)
        ensures
            r == old(self).pending_nav,
            *final(self) == (Page { pending_nav: None, ..*old(self) }),
    {
        let mut r: Option<String> = None;
        core::mem::swap(&mut self.pending_nav, &mut r);
        r
    }

    /// The request that a script makes, or why there is none. A request that names
    /// no method is a `GET`; cookies of its origin go with it.
    pub fn plan_fetch(&self, url: &str, method: &str, body: &str) -> (r: Result<
        FetchRequest,
        String,
    >)
        ensures
            match script_url(self.base_url@, url@) {
                Err(e) => r is Err && r->Err_0@ == "fetch: bad url "@ + debugged(url@) + ": "@ + e,
                Ok(target) => {
                    &&& r is Ok
                    &&& r->Ok_0@.url == target
                    &&& r->Ok_0@.method == (if method@.len() == 0 {
                        "GET"@
                    } else {
                        method@
                    })
                    &&& r->Ok_0@.body == (if body@.len() == 0 {
                        seq![]
                    } else {
                        encode_utf8(body@)
                    })
                    &&& sends_cookies(self.cookies@, target, r->Ok_0@.headers)
                },
            },
    {
        let target = match resolve_url(self.base_url.as_str(), url) {
            Ok(u) => u,
            Err(e) => {
                let mut m = "fetch: bad url ".to_owned();
                m.append(debug_text(url).as_str());
                m.append(": ");
                m.append(e.as_str());
                return Err(m);
            },
        };
        let mut req = FetchRequest::new(target.as_str());
        if !method.is_empty() {
            req = req.method(method);
        }
        if !body.is_empty() {
            req = req.body_str(body);
        }
        if let Some(origin) = origin_for(target.as_str()) {
            if let Some(cookies) = self.cookies.cookie_header(origin.as_str()) {
                req = req.header("Cookie", cookies.as_str());
                assert(req@.headers =~= seq![("Cookie"@, cookies@)]);
            }
        }
        Ok(req)
    }

    /// Takes the answer to a request of a script: the cookies that it sets are kept,
    /// and the script gets its status and its text.
    pub fn take_reply(
        &mut self,
        url: &str,
        status: u16,
        headers: &HeaderMap<HeaderValue>,
        body: &[u8],
    ) -> (r: (u16, String))
        ensures
            r.0 == status,
            r.1@ == utf8_lossy(body@),
            *final(self) == (Page { cookies: final(self).cookies, ..*old(self) }),
            final(self).cookies@ == (if parsed_url(url@) is Some && origin_of(
                parsed_url(url@)->0,
            ) is Some {
                harvested(
                    old(self).cookies@,
                    origin_of(parsed_url(url@)->0)->0,
                    values_of(*headers, ascii_lower("set-cookie"@)),
                )
            } else {
                old(self).cookies@
            }),
    {
        harvest_cookies(&mut self.cookies, url, headers);
        (status, from_utf8_lossy(body))
    }
}

/// The headers are the cookies of the URL's origin, where it has some, and nothing
/// else.
pub open spec fn sends_cookies(
    jar: Map<Seq<char>, Map<Seq<char>, Seq<char>>>,
    url: Seq<char>,
    headers: Seq<(Seq<char>, Seq<char>)>,
) -> bool {
    let origin = match parsed_url(url) {
        Some(u) => origin_of(u),
        None => None,
    };
    if origin is Some && cookies_of(jar, origin->0).dom() != Set::<Seq<char>>::empty() {
        headers.len() == 1 && headers[0].0 == "Cookie"@ && is_cookie_header(
            cookies_of(jar, origin->0),
            headers[0].1,
        )
    } else {
        headers.len() == 0
    }
}

// ---- seeds ---------------------------------------------------------------------

/// A number mixed from a time and a counter.
pub open spec fn mixed_seed(nanos: u64, counter: u64) -> u32 {
    let a = (nanos as int * 0x9E37_79B9_7F4A_7C15int % 0x1_0000_0000_0000_0000int) as u64 ^ counter;
    let b = a ^ (a >> 33);
    let c = (b as int * 0xff51_afd7_ed55_8ccdint % 0x1_0000_0000_0000_0000int) as u64;
    let e = c ^ (c >> 33);
    ((e % 0x1_0000_0000) as u32) ^ ((e >> 32) as u32)
}

/// The seed of a session that starts at a time; the counter tells sessions apart
/// that start together.
pub fn next_stealth_seed(nanos: u64, counter: u64) -> (r: u32)
    ensures
        r == mixed_seed(nanos, counter),
{
    let a: u64 = nanos.wrapping_mul(0x9E37_79B9_7F4A_7C15) ^ counter;
    let b: u64 = a ^ (a >> 33);
    let c: u64 = b.wrapping_mul(0xff51_afd7_ed55_8ccd);
    let e: u64 = c ^ (c >> 33);
    let low: u64 = e % 0x1_0000_0000;
    (low as u32) ^ ((e >> 32) as u32)
}

/// The script that hands the seed to a page.
pub fn seed_script(seed: u32) -> (r: String)
    ensures
        r@ == "globalThis.__bouncy_stealth_seed = "@ + decimal(seed as nat) + ";"@,
{
    let mut s = "globalThis.__bouncy_stealth_seed = ".to_owned();
    push_decimal(&mut s, seed as u64);
    s.append(";");
    s
}

/// The node that a script names by its number; the largest number names none.
pub fn node_arg(n: Option<u32>) -> (r: Option<NodeId>)
    ensures
        match r {
            Some(id) => n == Some(id.0) && id.0 != u32::MAX,
            None => n is None || n == Some(u32::MAX),
        },
{
    match n {
        Some(n) => if n == u32::MAX {
            None
        } else {
            Some(NodeId(n))
        },
        None => None,
    }
}

// ---- waiting -------------------------------------------------------------------

/// How long to wait between two looks at a page.
pub const POLL_MS: u64 = 5;

/// What a look at a page means for a wait: it is over where the element is there
/// or the time is up.
pub fn wait_over(found: bool, elapsed_ms: u64, timeout_ms: u64) -> (r: Option<bool>)
    ensures
        r == (if found {
            Some(true)
        } else if elapsed_ms >= timeout_ms {
            Some(false)
        } else {
            None
        }),
{
    if found {
        Some(true)
    } else if elapsed_ms >= timeout_ms {
        Some(false)
    } else {
        None
    }
}

// ---- laws ----------------------------------------------------------------------

/// Of the pages that scripts ask for, the last one counts.
pub proof fn last_navigation_wins(
    pending: Option<Seq<char>>,
    base: Seq<char>,
    first: Seq<char>,
    last: Seq<char>,
)
    requires
        last.len() > 0,
    ensures
        asked_for(asked_for(pending, base, first), base, last) == asked_for(None, base, last),
{
}

/// A script that was stopped because it asked for another page does not keep the
/// scripts behind it from running.
pub proof fn navigation_is_no_failure(terminated: bool, message: String)
    requires
        terminated || has_text(message@, NAV_MARKER@),
    ensures
        page_result(ScriptOutcome::Stopped(terminated, Some(message))) == Err::<
            Seq<char>,
            ErrorModel,
        >(ErrorModel::NavTerminated),
{
}

} // verus!
