//! A browsing session: what each step asks for, and what becomes of the answers.
pub mod actor;
pub mod chain;
pub mod history;
pub mod laws;
pub mod looks;
pub mod page;
pub mod runs;
pub mod steps;

use crate::fetch::client::{FetchRequest, RequestModel};
use crate::json::{json_in, json_quoted, parse_json, quote, JsonModel};
use crate::snapshot::{PageSnapshot, SnapshotOpts, DEFAULT_TEXT_SUMMARY_BYTES};
use crate::text::{
    contains, debug_text, debugged, decimal, has_text, pair_views, push_decimal, same,
};
use crate::urls::{
    append_query, encode_form, form_encoded, has_room_for_query, join_pieces, joined_pieces,
    joined_url, query_fits, url_text, with_query,
};
use vstd::prelude::*;
use vstd::string::*;
use vstd::utf8::encode_utf8;

verus! {

/// The most `location.href` navigations that are followed in one go.
pub const MAX_NAV_HOPS: u32 = 10;

/// The milliseconds between two looks at a page that is waited for.
pub const WAIT_POLL_INTERVAL_MS: u64 = 50;

/// Why a step of a session fails.
#[derive(Debug)]
pub enum BrowseError {
    Fetch(String),
    Js(String),
    Dom(String),
    NotUtf8,
    ActorGone,
    NoMatch(String),
    Url(String),
    Io(String),
}

/// The text of a [`BrowseError`].
pub enum BrowseErrorModel {
    Fetch(Seq<char>),
    Js(Seq<char>),
    Dom(Seq<char>),
    NotUtf8,
    ActorGone,
    NoMatch(Seq<char>),
    Url(Seq<char>),
    Io(Seq<char>),
}

impl View for BrowseError {
    type V = BrowseErrorModel;

    open spec fn view(&self) -> BrowseErrorModel {
        match *self {
            BrowseError::Fetch(m) => BrowseErrorModel::Fetch(m@),
            BrowseError::Js(m) => BrowseErrorModel::Js(m@),
            BrowseError::Dom(m) => BrowseErrorModel::Dom(m@),
            BrowseError::NotUtf8 => BrowseErrorModel::NotUtf8,
            BrowseError::ActorGone => BrowseErrorModel::ActorGone,
            BrowseError::NoMatch(m) => BrowseErrorModel::NoMatch(m@),
            BrowseError::Url(m) => BrowseErrorModel::Url(m@),
            BrowseError::Io(m) => BrowseErrorModel::Io(m@),
        }
    }
}

/// An error in words.
pub open spec fn error_text(e: BrowseErrorModel) -> Seq<char> {
    match e {
        BrowseErrorModel::Fetch(m) => "fetch error: "@ + m,
        BrowseErrorModel::Js(m) => "js runtime error: "@ + m,
        BrowseErrorModel::Dom(m) => "html parse error: "@ + m,
        BrowseErrorModel::NotUtf8 => "body is not valid UTF-8"@,
        BrowseErrorModel::ActorGone => "session actor disappeared"@,
        BrowseErrorModel::NoMatch(m) => "selector matched no elements: "@ + debugged(m),
        BrowseErrorModel::Url(m) => "invalid url: "@ + m,
        BrowseErrorModel::Io(m) => "io: "@ + m,
    }
}

fn two(a: &str, b: &str) -> (r: String)
    ensures
        r@ == a@ + b@,
{
    let mut s = a.to_owned();
    s.append(b);
    s
}

fn three(a: &str, b: &str, c: &str) -> (r: String)
    ensures
        r@ == a@ + b@ + c@,
{
    let mut s = a.to_owned();
    s.append(b);
    s.append(c);
    s
}

impl BrowseError {
    /// The error in words.
    pub fn message(&self) -> (r: String)
        ensures
            r@ == error_text(self@),
    {
        match self {
            BrowseError::Fetch(m) => two("fetch error: ", m.as_str()),
            BrowseError::Js(m) => two("js runtime error: ", m.as_str()),
            BrowseError::Dom(m) => two("html parse error: ", m.as_str()),
            BrowseError::NotUtf8 => "body is not valid UTF-8".to_owned(),
            BrowseError::ActorGone => "session actor disappeared".to_owned(),
            BrowseError::NoMatch(m) => two(
                "selector matched no elements: ",
                debug_text(m.as_str()).as_str(),
            ),
            BrowseError::Url(m) => two("invalid url: ", m.as_str()),
            BrowseError::Io(m) => two("io: ", m.as_str()),
        }
    }
}

/// How a session is set up.
pub struct BrowseOpts {
    pub user_agent: Option<String>,
    pub stealth: bool,
    pub snapshot_opts: SnapshotOpts,
}

impl Default for BrowseOpts {
    fn default() -> (r: BrowseOpts)
        ensures
            r.user_agent is None,
            !r.stealth,
            r.snapshot_opts.max_text_summary_bytes == DEFAULT_TEXT_SUMMARY_BYTES,
    {
        BrowseOpts { user_agent: None, stealth: false, snapshot_opts: SnapshotOpts::default() }
    }
}

/// What to read from each matched element.
#[derive(Clone, Debug)]
pub enum ReadMode {
    /// The visible text.
    Text,
    /// The element as HTML.
    Html,
    /// An attribute; elements without it are left out.
    Attr(String),
}

/// How an element is addressed: by selector, or by its index in the snapshot.
#[derive(Clone, Debug)]
pub enum Target {
    Selector(String),
    Index(u32),
}

/// The text of a [`Target`].
pub enum TargetModel {
    Selector(Seq<char>),
    Index(u32),
}

impl View for Target {
    type V = TargetModel;

    open spec fn view(&self) -> TargetModel {
        match *self {
            Target::Selector(s) => TargetModel::Selector(s@),
            Target::Index(i) => TargetModel::Index(i),
        }
    }
}

/// The text of a [`ReadMode`].
pub enum ModeModel {
    Text,
    Html,
    Attr(Seq<char>),
}

impl View for ReadMode {
    type V = ModeModel;

    open spec fn view(&self) -> ModeModel {
        match *self {
            ReadMode::Text => ModeModel::Text,
            ReadMode::Html => ModeModel::Html,
            ReadMode::Attr(n) => ModeModel::Attr(n@),
        }
    }
}

impl Target {
    pub fn selector(s: &str) -> (r: Target)
        ensures
            r@ == TargetModel::Selector(s@),
    {
        Target::Selector(s.to_owned())
    }

    pub fn index(i: u32) -> (r: Target)
        ensures
            r@ == TargetModel::Index(i),
    {
        Target::Index(i)
    }
}

/// One step of a chain.
#[derive(Clone, Debug)]
pub enum ChainStep {
    Click(Target),
    Fill { target: Target, value: String },
    Submit(Target),
    Goto(String),
    Read { target: Target, mode: ReadMode },
    Eval(String),
    Snapshot,
    PressKey { target: Target, key: String },
    SelectOption { target: Target, value: String },
    /// Clicks the first link or button with this text.
    ClickText(String),
    WaitFor { selector: String, timeout_ms: u64 },
    WaitForText { needle: String, timeout_ms: u64 },
    Wait { ms: u64 },
    Back,
    Forward,
}

/// What an evaluation gave, and the page after it.
pub struct EvalResult {
    pub result: String,
    pub snapshot: PageSnapshot,
}

/// What one step of a chain gave.
pub enum ChainStepOutput {
    Snapshot(PageSnapshot),
    Reads(Vec<String>),
    Eval { result: String, snapshot: PageSnapshot },
}

// ---- scripts -------------------------------------------------------------------

/// A text as a JavaScript string.
pub fn js_string(s: &str) -> (r: String)
    ensures
        r@ == json_quoted(s@),
{
    quote(s)
}

pub const CLICK_HEAD: &'static str = "(function(){ var e = document.querySelector(";

pub const CLICK_TAIL: &'static str = "); if (!e) throw new Error('no match'); e.click(); return 'ok'; })()";

/// The script that clicks an element.
pub open spec fn click_source(selector: Seq<char>) -> Seq<char> {
    CLICK_HEAD@ + json_quoted(selector) + CLICK_TAIL@
}

pub fn click_script(selector: &str) -> (r: String)
    ensures
        r@ == click_source(selector@),
{
    three(CLICK_HEAD, js_string(selector).as_str(), CLICK_TAIL)
}

pub const NTH_HEAD: &'static str = "(function(){ var e = document.querySelectorAll(";

pub const NTH_TAIL: &'static str = "]; if (!e) throw new Error('no match'); e.click(); return 'ok'; })()";

/// The script that clicks the element at a place among those that a selector matches.
pub open spec fn click_nth_source(selector: Seq<char>, nth: int) -> Seq<char> {
    NTH_HEAD@ + json_quoted(selector) + ")["@ + decimal(nth as nat) + NTH_TAIL@
}

pub fn click_nth_script(selector: &str, nth: usize) -> (r: String)
    ensures
        r@ == click_nth_source(selector@, nth as int),
{
    let mut s = NTH_HEAD.to_owned();
    s.append(js_string(selector).as_str());
    s.append(")[");
    push_decimal(&mut s, nth as u64);
    s.append(NTH_TAIL);
    s
}

pub const FILL_HEAD: &'static str = "(function(){
            var e = document.querySelector(";

pub const FILL_MIDDLE: &'static str = ");
            if (!e) throw new Error('no match');
            e.value = ";

pub const FILL_TAIL: &'static str = ";
            e.dispatchEvent(new Event('input', {bubbles:true}));
            e.dispatchEvent(new Event('change', {bubbles:true}));
            return 'ok';
        })()";

/// The script that sets the value of a field.
pub open spec fn fill_source(selector: Seq<char>, value: Seq<char>) -> Seq<char> {
    FILL_HEAD@ + json_quoted(selector) + FILL_MIDDLE@ + json_quoted(value) + FILL_TAIL@
}

pub fn fill_script(selector: &str, value: &str) -> (r: String)
    ensures
        r@ == fill_source(selector@, value@),
{
    let mut s = three(FILL_HEAD, js_string(selector).as_str(), FILL_MIDDLE);
    s.append(js_string(value).as_str());
    s.append(FILL_TAIL);
    s
}

pub const FORM_HEAD: &'static str = "(function(){
            var node = document.querySelector(";

pub const FORM_TAIL: &'static str = ");
            if (!node) throw new Error('no match');
            var form = node;
            while (form && form.tagName !== 'FORM') form = form.parentNode;
            if (!form) throw new Error('no enclosing form');
            var action = form.getAttribute('action');
            var method = (form.getAttribute('method') || 'GET').toUpperCase();
            var fields = [];
            // A selector names one clause, so the three kinds of fields are
            // collected one after the other, each in document order.
            function collect(tag) {
                var list = form.querySelectorAll(tag);
                for (var i = 0; i < list.length; i++) {
                    var e = list[i];
                    var name = e.getAttribute('name');
                    if (!name) continue;
                    var type = (e.getAttribute('type') || '').toLowerCase();
                    // Unchecked boxes and buttons are not sent.
                    if ((type === 'checkbox' || type === 'radio')
                        && e.getAttribute('checked') === null) continue;
                    // Nor are disabled fields.
                    if (e.getAttribute('disabled') !== null) continue;
                    var value = e.value;
                    if (value === undefined || value === null) {
                        value = e.getAttribute('value') || '';
                    }
                    fields.push([name, String(value)]);
                }
            }
            collect('input');
            collect('textarea');
            collect('select');
            return JSON.stringify({action: action, method: method, fields: fields});
        })()";

/// The script that describes the form at or around an element as JSON.
pub open spec fn form_source(selector: Seq<char>) -> Seq<char> {
    FORM_HEAD@ + json_quoted(selector) + FORM_TAIL@
}

pub fn form_script(selector: &str) -> (r: String)
    ensures
        r@ == form_source(selector@),
{
    three(FORM_HEAD, js_string(selector).as_str(), FORM_TAIL)
}

pub const SUBMIT_HEAD: &'static str = "(function(){
                    var node = document.querySelector(";

pub const SUBMIT_TAIL: &'static str = ");
                    var form = node;
                    while (form && form.tagName !== 'FORM') form = form.parentNode;
                    form.dispatchEvent(new Event('submit', {bubbles:true, cancelable:true}));
                    return 'ok';
                })()";

/// The script that sends a form the event that it is submitted.
pub open spec fn submit_source(selector: Seq<char>) -> Seq<char> {
    SUBMIT_HEAD@ + json_quoted(selector) + SUBMIT_TAIL@
}

pub fn submit_script(selector: &str) -> (r: String)
    ensures
        r@ == submit_source(selector@),
{
    three(SUBMIT_HEAD, js_string(selector).as_str(), SUBMIT_TAIL)
}

pub const SELECT_HEAD: &'static str = "(function(){
            var e = document.querySelector(";

pub const SELECT_MIDDLE: &'static str = ");
            if (!e) throw new Error('no match');
            if (e.tagName !== 'SELECT') throw new Error('not a select');
            var want = ";

pub const SELECT_TAIL: &'static str = ";
            var matched = -1;
            var opts = e.querySelectorAll('option');
            for (var i = 0; i < opts.length; i++) {
                var v = opts[i].getAttribute('value');
                if (v === null) v = (opts[i].textContent || '').trim();
                if (v === want) { matched = i; break; }
            }
            if (matched < 0) {
                for (var j = 0; j < opts.length; j++) {
                    if ((opts[j].textContent || '').trim() === want) { matched = j; break; }
                }
            }
            if (matched < 0) throw new Error('no option matches');
            e.value = opts[matched].getAttribute('value') !== null
                      ? opts[matched].getAttribute('value')
                      : (opts[matched].textContent || '').trim();
            e.dispatchEvent(new Event('input', {bubbles:true}));
            e.dispatchEvent(new Event('change', {bubbles:true}));
            return 'ok';
        })()";

/// The script that chooses an option of a selection.
pub open spec fn select_source(selector: Seq<char>, value: Seq<char>) -> Seq<char> {
    SELECT_HEAD@ + json_quoted(selector) + SELECT_MIDDLE@ + json_quoted(value) + SELECT_TAIL@
}

pub fn select_script(selector: &str, value: &str) -> (r: String)
    ensures
        r@ == select_source(selector@, value@),
{
    let mut s = three(SELECT_HEAD, js_string(selector).as_str(), SELECT_MIDDLE);
    s.append(js_string(value).as_str());
    s.append(SELECT_TAIL);
    s
}

pub const KEY_HEAD: &'static str = "(function(){
            var e = document.querySelector(";

pub const KEY_NAME: &'static str = ");
            if (!e) throw new Error('no match');
            var key = ";

pub const KEY_CODE: &'static str = ";
            var code = ";

pub const KEY_PRINTABLE: &'static str = ";
            var printable = ";

pub const KEY_TAIL: &'static str = ";
            function fire(type) {
                var ev = new KeyboardEvent(type, {
                    key: key, code: key, keyCode: code, which: code,
                    bubbles: true, cancelable: true,
                });
                e.dispatchEvent(ev);
            }
            fire('keydown');
            if (printable) fire('keypress');
            fire('keyup');
            return 'ok';
        })()";

/// The code of a key by its name; that of a character is its own in upper case.
pub open spec fn key_code(key: Seq<char>) -> u32 {
    if key == "Enter"@ {
        13
    } else if key == "Tab"@ {
        9
    } else if key == "Escape"@ || key == "Esc"@ {
        27
    } else if key == "Backspace"@ {
        8
    } else if key == "Delete"@ {
        46
    } else if key == "ArrowUp"@ {
        38
    } else if key == "ArrowDown"@ {
        40
    } else if key == "ArrowLeft"@ {
        37
    } else if key == "ArrowRight"@ {
        39
    } else if key == " "@ || key == "Space"@ {
        32
    } else if key.len() == 1 {
        if 97 <= key[0] as u32 <= 122 {
            (key[0] as u32 - 32) as u32
        } else {
            key[0] as u32
        }
    } else {
        0
    }
}

pub fn key_code_for(key: &str) -> (r: u32)
    ensures
        r == key_code(key@),
{
    if same(key, "Enter") {
        13
    } else if same(key, "Tab") {
        9
    } else if same(key, "Escape") || same(key, "Esc") {
        27
    } else if same(key, "Backspace") {
        8
    } else if same(key, "Delete") {
        46
    } else if same(key, "ArrowUp") {
        38
    } else if same(key, "ArrowDown") {
        40
    } else if same(key, "ArrowLeft") {
        37
    } else if same(key, "ArrowRight") {
        39
    } else if same(key, " ") || same(key, "Space") {
        32
    } else if key.unicode_len() == 1 {
        let c: u32 = key.get_char(0) as u32;
        if 97 <= c && c <= 122 {
            c - 32
        } else {
            c
        }
    } else {
        0
    }
}

pub open spec fn bool_text(b: bool) -> Seq<char> {
    if b {
        "true"@
    } else {
        "false"@
    }
}

/// The script that presses a key on an element: down, up, and between them, for a
/// single character, a press.
pub open spec fn key_source(selector: Seq<char>, key: Seq<char>) -> Seq<char> {
    KEY_HEAD@ + json_quoted(selector) + KEY_NAME@ + json_quoted(key) + KEY_CODE@ + decimal(
        key_code(key) as nat,
    ) + KEY_PRINTABLE@ + bool_text(key.len() == 1) + KEY_TAIL@
}

pub fn key_script(selector: &str, key: &str) -> (r: String)
    ensures
        r@ == key_source(selector@, key@),
{
    let mut s = three(KEY_HEAD, js_string(selector).as_str(), KEY_NAME);
    s.append(js_string(key).as_str());
    s.append(KEY_CODE);
    push_decimal(&mut s, key_code_for(key) as u64);
    s.append(KEY_PRINTABLE);
    if key.unicode_len() == 1 {
        s.append("true");
    } else {
        s.append("false");
    }
    s.append(KEY_TAIL);
    s
}

/// The error for a script that failed on an element: the element was not found,
/// or the script's own.
pub open spec fn script_error(selector: Seq<char>, message: Seq<char>) -> BrowseErrorModel {
    if has_text(message, "no match"@) {
        BrowseErrorModel::NoMatch(selector)
    } else {
        BrowseErrorModel::Js(message)
    }
}

pub fn script_failure(selector: &str, message: &str) -> (r: BrowseError)
    ensures
        r@ == script_error(selector@, message@),
{
    if contains(message, "no match") {
        BrowseError::NoMatch(selector.to_owned())
    } else {
        BrowseError::Js(message.to_owned())
    }
}

/// The error for a form that was not found.
pub open spec fn form_error(selector: Seq<char>, message: Seq<char>) -> BrowseErrorModel {
    if has_text(message, "no match"@) {
        BrowseErrorModel::NoMatch(selector)
    } else if has_text(message, "no enclosing form"@) {
        BrowseErrorModel::Io(
            "selector "@ + debugged(selector) + " is not a form and is not inside one"@,
        )
    } else {
        BrowseErrorModel::Js(message)
    }
}

pub fn form_failure(selector: &str, message: &str) -> (r: BrowseError)
    ensures
        r@ == form_error(selector@, message@),
{
    if contains(message, "no match") {
        BrowseError::NoMatch(selector.to_owned())
    } else if contains(message, "no enclosing form") {
        BrowseError::Io(
            three(
                "selector ",
                debug_text(selector).as_str(),
                " is not a form and is not inside one",
            ),
        )
    } else {
        BrowseError::Js(message.to_owned())
    }
}

/// The error for an option that could not be chosen.
pub open spec fn option_error(
    selector: Seq<char>,
    value: Seq<char>,
    message: Seq<char>,
) -> BrowseErrorModel {
    if has_text(message, "no match"@) {
        BrowseErrorModel::NoMatch(selector)
    } else if has_text(message, "not a select"@) {
        BrowseErrorModel::Io("element "@ + debugged(selector) + " is not a <select>"@)
    } else if has_text(message, "no option matches"@) {
        BrowseErrorModel::NoMatch("option "@ + debugged(value) + " in "@ + debugged(selector))
    } else {
        BrowseErrorModel::Js(message)
    }
}

pub fn option_failure(selector: &str, value: &str, message: &str) -> (r: BrowseError)
    ensures
        r@ == option_error(selector@, value@, message@),
{
    if contains(message, "no match") {
        BrowseError::NoMatch(selector.to_owned())
    } else if contains(message, "not a select") {
        BrowseError::Io(three("element ", debug_text(selector).as_str(), " is not a <select>"))
    } else if contains(message, "no option matches") {
        let mut m = three("option ", debug_text(value).as_str(), " in ");
        m.append(debug_text(selector).as_str());
        BrowseError::NoMatch(m)
    } else {
        BrowseError::Js(message.to_owned())
    }
}

// ---- submitting ----------------------------------------------------------------

/// What a form says of itself.
pub struct FormIntel {
    pub action: Option<String>,
    pub method: String,
    pub fields: Vec<(String, String)>,
}

/// What the form script's result holds: JSON, or a JSON string of JSON.
pub open spec fn unquoted_result(s: Seq<char>) -> Seq<char> {
    match json_in(s) {
        Some(JsonModel::Text(t)) => t,
        _ => s,
    }
}

pub fn unquote_eval_result(s: &str) -> (r: String)
    ensures
        r@ == unquoted_result(s@),
{
    match parse_json(s) {
        Some(j) => match j.as_str() {
            Some(t) => t.to_owned(),
            None => s.to_owned(),
        },
        None => s.to_owned(),
    }
}

/// Why a form cannot be submitted whose description cannot be read.
pub open spec fn form_unread(raw: Seq<char>, reason: Seq<char>) -> BrowseErrorModel {
    BrowseErrorModel::Io("parsing form intel JSON failed: "@ + reason + " (raw: "@ + raw + ")"@)
}

/// The error for what the form script gave, where it cannot be read for this reason.
pub fn unread_form(raw: &str, reason: &str) -> (r: BrowseError)
    ensures
        r@ == form_unread(raw@, reason@),
{
    let mut s = "parsing form intel JSON failed: ".to_owned();
    s.append(reason);
    s.append(" (raw: ");
    s.append(raw);
    s.append(")");
    BrowseError::Io(s)
}

/// How a form is submitted.
pub enum SubmitPlan {
    /// Go to this URL.
    Visit(String),
    /// Send this request, and load its answer as the page at its URL.
    Post(FetchRequest),
    /// Run this script: the page handles its form itself.
    Dispatch(String),
}

/// The request that posts a form.
pub open spec fn post_request(url: Seq<char>, fields: Seq<(Seq<char>, Seq<char>)>) -> RequestModel {
    RequestModel {
        url,
        method: "POST"@,
        headers: seq![("Content-Type"@, "application/x-www-form-urlencoded"@)],
        body: encode_utf8(form_encoded(fields)),
    }
}

/// How a form is submitted: one with an action over HTTP, with its fields in the URL
/// for GET and in the body for anything else; one without by its page.
pub open spec fn submits(
    selector: Seq<char>,
    current_url: Seq<char>,
    form: FormIntel,
    r: Result<SubmitPlan, BrowseError>,
) -> bool {
    let fields = pair_views(form.fields@);
    if form.action is Some && form.action->0@.len() > 0 {
        match joined_url(current_url, form.action->0@) {
            Err(m) => r is Err && r->Err_0@ == BrowseErrorModel::Url(m),
            Ok(t) => if form.method@ == "GET"@ {
                let p = joined_pieces(current_url, form.action->0@)->Ok_0;
                if query_fits(p, fields) {
                    r is Ok && r->Ok_0 is Visit && r->Ok_0->Visit_0@ == url_text(
                        with_query(p, fields),
                    )
                } else {
                    r is Err && r->Err_0@ == BrowseErrorModel::Url(t)
                }
            } else {
                r is Ok && r->Ok_0 is Post && r->Ok_0->Post_0@ == post_request(t, fields)
            },
        }
    } else {
        r is Ok && r->Ok_0 is Dispatch && r->Ok_0->Dispatch_0@ == submit_source(selector)
    }
}

/// Decides how a form is submitted.
pub fn plan_submit(selector: &str, current_url: &str, form: &FormIntel) -> (r: Result<
    SubmitPlan,
    BrowseError,
>)
    ensures
        submits(selector@, current_url@, *form, r),
{
    if let Some(action) = &form.action {
        if !action.as_str().is_empty() {
            let pieces = match join_pieces(current_url, action.as_str()) {
                Ok(p) => p,
                Err(m) => {
                    return Err(BrowseError::Url(m));
                },
            };
            let target = pieces.text();
            if same(form.method.as_str(), "GET") {
                if !has_room_for_query(&pieces, &form.fields) {
                    return Err(BrowseError::Url(target));
                }
                return match append_query(current_url, action.as_str(), &form.fields) {
                    Some(u) => Ok(SubmitPlan::Visit(u)),
                    None => Err(BrowseError::Url(target)),
                };
            }
            let body = encode_form(&form.fields);
            let req = FetchRequest::new(target.as_str()).method("POST").header(
                "Content-Type",
                "application/x-www-form-urlencoded",
            ).body_str(body.as_str());
            assert(req@.headers =~= seq![("Content-Type"@, "application/x-www-form-urlencoded"@)]);
            return Ok(SubmitPlan::Post(req));
        }
    }
    Ok(SubmitPlan::Dispatch(submit_script(selector)))
}

} // verus!
