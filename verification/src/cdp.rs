//! The requests of a debugging client, and what they are answered.
use crate::fetch::client::{FetchRequest, RequestModel};
use crate::json::{
    member, member_views, text_member, unsigned_member, Json, JsonModel,
};
use crate::js::Page;
use crate::dom::html::serialized;
use crate::dom::model::{known, plain, subtree};
use crate::dom::{first_of, selected_below};
use crate::text::{decimal, pair_views, push_decimal, same};
use vstd::prelude::*;
use vstd::string::*;

pub mod laws;

verus! {

/// A request of the client.
pub struct RpcRequest {
    pub id: i64,
    pub method: String,
    pub params: Json,
    pub session_id: Option<String>,
}

/// What a request needs.
pub enum Action {
    /// Nothing more: this is the result.
    Reply(Json),
    /// Nothing more: the request fails, with this message.
    Fail(String),
    /// An expression to be evaluated on the page.
    Evaluate(String),
    /// A page to be fetched and loaded.
    Navigate(FetchRequest),
}

/// The contents of an [`Action`].
pub enum ActionModel {
    Reply(JsonModel),
    Fail(Seq<char>),
    Evaluate(Seq<char>),
    Navigate(RequestModel),
}

impl View for Action {
    type V = ActionModel;

    open spec fn view(&self) -> ActionModel {
        match *self {
            Action::Reply(j) => ActionModel::Reply(j@),
            Action::Fail(m) => ActionModel::Fail(m@),
            Action::Evaluate(e) => ActionModel::Evaluate(e@),
            Action::Navigate(q) => ActionModel::Navigate(q@),
        }
    }
}

/// A session of a client: one page, and the headers that go with every request for
/// a page.
pub struct Session {
    pub extra_headers: Vec<(String, String)>,
}

// ---- results -------------------------------------------------------------------

pub open spec fn nothing() -> JsonModel {
    JsonModel::Object(seq![])
}

/// What the client is told of the browser.
pub open spec fn version_json() -> JsonModel {
    JsonModel::Object(
        seq![
            ("protocolVersion"@, JsonModel::Text("1.3"@)),
            ("product"@, JsonModel::Text("bouncy/0.0.0"@)),
            ("revision"@, JsonModel::Text("@"@)),
            ("userAgent"@, JsonModel::Text("bouncy/0.0.0"@)),
            ("jsVersion"@, JsonModel::Text("v8"@)),
        ],
    )
}

fn empty_object() -> (r: Json)
    ensures
        r@ == nothing(),
{
    let members: Vec<(String, Json)> = Vec::new();
    assert(member_views(members@) =~= seq![]);
    Json::object(members)
}

fn version() -> (r: Json)
    ensures
        r@ == version_json(),
{
    let mut m: Vec<(String, Json)> = Vec::new();
    m.push(("protocolVersion".to_owned(), Json::text("1.3")));
    m.push(("product".to_owned(), Json::text("bouncy/0.0.0")));
    m.push(("revision".to_owned(), Json::text("@")));
    m.push(("userAgent".to_owned(), Json::text("bouncy/0.0.0")));
    m.push(("jsVersion".to_owned(), Json::text("v8")));
    let r = Json::object(m);
    assert(r@->Object_0 =~= version_json()->Object_0);
    r
}

/// The text members of an object, in order; nothing else is kept.
pub open spec fn text_members(s: Seq<(Seq<char>, JsonModel)>) -> Seq<(Seq<char>, Seq<char>)>
    decreases s.len(),
{
    if s.len() == 0 {
        seq![]
    } else {
        match s.last().1 {
            JsonModel::Text(v) => text_members(s.drop_last()).push((s.last().0, v)),
            _ => text_members(s.drop_last()),
        }
    }
}

/// The number of the first element that the selector matches; 0 where none is.
pub open spec fn matched_node(page: &Page, selector: Seq<char>) -> u64 {
    match first_of(selected_below(page.doc@, 0, selector)) {
        Some(n) => n as u64,
        None => 0,
    }
}

/// The number of a node, cut to 32 bits.
pub open spec fn node_number(n: u64) -> u32 {
    (n % 0x1_0000_0000) as u32
}

/// What a request for the HTML of a node gives.
pub open spec fn html_action(page: &Page, n: u64) -> ActionModel {
    if known(page.doc@, node_number(n) as int) {
        ActionModel::Reply(
            JsonModel::Object(
                seq![
                    (
                        "outerHTML"@,
                        JsonModel::Text(
                            serialized(plain(subtree(page.doc@, node_number(n) as int)), true),
                        ),
                    ),
                ],
            ),
        )
    } else {
        ActionModel::Fail("DOM.getOuterHTML: unknown nodeId "@ + decimal(n as nat))
    }
}

/// What a request needs. Methods that are not known are answered with nothing.
pub open spec fn planned(
    headers: Seq<(Seq<char>, Seq<char>)>,
    page: &Page,
    method: Seq<char>,
    params: JsonModel,
) -> ActionModel {
    if method == "Browser.getVersion"@ {
        ActionModel::Reply(version_json())
    } else if method == "Runtime.evaluate"@ {
        ActionModel::Evaluate(
            match text_member(params, "expression"@) {
                Some(e) => e,
                None => seq![],
            },
        )
    } else if method == "Page.navigate"@ {
        match text_member(params, "url"@) {
            Some(url) => ActionModel::Navigate(
                RequestModel { url, method: "GET"@, headers, body: seq![] },
            ),
            None => ActionModel::Fail("Page.navigate: missing url"@),
        }
    } else if method == "DOM.querySelector"@ {
        match text_member(params, "selector"@) {
            Some(s) => ActionModel::Reply(
                JsonModel::Object(seq![("nodeId"@, JsonModel::Unsigned(matched_node(page, s)))]),
            ),
            None => ActionModel::Fail("DOM.querySelector: missing selector"@),
        }
    } else if method == "DOM.getOuterHTML"@ {
        match unsigned_member(params, "nodeId"@) {
            Some(n) => html_action(page, n),
            None => ActionModel::Fail("DOM.getOuterHTML: missing nodeId"@),
        }
    } else if method == "Network.setExtraHTTPHeaders"@ {
        match member(params, "headers"@) {
            Some(JsonModel::Object(_)) => ActionModel::Reply(nothing()),
            _ => ActionModel::Fail("Network.setExtraHTTPHeaders: missing headers"@),
        }
    } else {
        ActionModel::Reply(nothing())
    }
}

/// The headers that go with requests for pages after a request of the client. New
/// ones take the place of all others.
pub open spec fn headers_after(
    headers: Seq<(Seq<char>, Seq<char>)>,
    method: Seq<char>,
    params: JsonModel,
) -> Seq<(Seq<char>, Seq<char>)> {
    match member(params, "headers"@) {
        Some(JsonModel::Object(s)) => if method == "Network.setExtraHTTPHeaders"@ {
            text_members(s)
        } else {
            headers
        },
        _ => headers,
    }
}

/// The requests that the page can answer: the document itself has no HTML of its own.
pub open spec fn answerable(method: Seq<char>, params: JsonModel) -> bool {
    method == "DOM.getOuterHTML"@ && unsigned_member(params, "nodeId"@) is Some ==> node_number(
        unsigned_member(params, "nodeId"@)->0,
    ) > 0
}

impl Session {
    pub fn new() -> (r: Session)
        ensures
            r.extra_headers@.len() == 0,
    {
        Session { extra_headers: Vec::new() }
    }

    /// Whether [`Session::plan`] may be asked about a request.
    pub fn can_plan(req: &RpcRequest) -> (r: bool)
        ensures
            r == answerable(req.method@, req.params@),
    {
        if same(req.method.as_str(), "DOM.getOuterHTML") {
            if let Some(n) = req.params.get_u64("nodeId") {
                return n % 0x1_0000_0000 > 0;
            }
        }
        true
    }

    /// Decides what a request needs.
    pub fn plan(&mut self, req: &RpcRequest, page: &Page) -> (r: Action)
        requires
            page.valid(),
            answerable(req.method@, req.params@),
        ensures
            r@ == planned(pair_views(old(self).extra_headers@), page, req.method@, req.params@),
            pair_views(final(self).extra_headers@) == headers_after(
                pair_views(old(self).extra_headers@),
                req.method@,
                req.params@,
            ),
    {
        let method = req.method.as_str();
        if same(method, "Browser.getVersion") {
            proof {
                methods_differ();
            }
            Action::Reply(version())
        } else if same(method, "Runtime.evaluate") {
            proof {
                methods_differ();
            }
            let r = match req.params.get_str("expression") {
                Some(e) => Action::Evaluate(e.to_owned()),
                None => {
                    let none = String::new();
                    assert(none@ =~= seq![]);
                    Action::Evaluate(none)
                },
            };
            r
        } else if same(method, "Page.navigate") {
            proof {
                methods_differ();
            }
            match req.params.get_str("url") {
                Some(url) => Action::Navigate(self.page_request(url)),
                None => Action::Fail("Page.navigate: missing url".to_owned()),
            }
        } else if same(method, "DOM.querySelector") {
            proof {
                methods_differ();
            }
            match req.params.get_str("selector") {
                Some(s) => {
                    let n: u64 = match page.query_selector(s) {
                        Some(n) => n as u64,
                        None => 0,
                    };
                    let mut m: Vec<(String, Json)> = Vec::new();
                    m.push(("nodeId".to_owned(), Json::Unsigned(n)));
                    assert(member_views(m@) =~= seq![("nodeId"@, JsonModel::Unsigned(n))]);
                    Action::Reply(Json::object(m))
                },
                None => Action::Fail("DOM.querySelector: missing selector".to_owned()),
            }
        } else if same(method, "DOM.getOuterHTML") {
            proof {
                methods_differ();
            }
            match req.params.get_u64("nodeId") {
                Some(n) => {
                    let k: u64 = n % 0x1_0000_0000;
                    match page.outer_html(k as u32) {
                        Some(html) => {
                            let mut m: Vec<(String, Json)> = Vec::new();
                            m.push(("outerHTML".to_owned(), Json::text(html.as_str())));
                            assert(member_views(m@) =~= seq![
                                ("outerHTML"@, JsonModel::Text(html@)),
                            ]);
                            Action::Reply(Json::object(m))
                        },
                        None => {
                            let mut e = "DOM.getOuterHTML: unknown nodeId ".to_owned();
                            push_decimal(&mut e, n);
                            Action::Fail(e)
                        },
                    }
                },
                None => Action::Fail("DOM.getOuterHTML: missing nodeId".to_owned()),
            }
        } else if same(method, "Network.setExtraHTTPHeaders") {
            let given = match req.params.get("headers") {
                Some(j) => j.as_object(),
                None => None,
            };
            match given {
                Some(list) => {
                    self.extra_headers = only_texts(list);
                    Action::Reply(empty_object())
                },
                None => Action::Fail("Network.setExtraHTTPHeaders: missing headers".to_owned()),
            }
        } else {
            Action::Reply(empty_object())
        }
    }

    fn page_request(&self, url: &str) -> (r: FetchRequest)
        ensures
            r@ == (RequestModel {
                url: url@,
                method: "GET"@,
                headers: pair_views(self.extra_headers@),
                body: seq![],
            }),
    {
        let mut req = FetchRequest::new(url);
        let ghost all = pair_views(self.extra_headers@);
        let mut i: usize = 0;
        assert(all.take(0) =~= seq![]);
        while i < self.extra_headers.len()
            invariant
                i <= self.extra_headers@.len(),
                all == pair_views(self.extra_headers@),
                req@ == (RequestModel {
                    url: url@,
                    method: "GET"@,
                    headers: all.take(i as int),
                    body: seq![],
                }),
            decreases self.extra_headers@.len() - i,
        {
            req = req.header(self.extra_headers[i].0.as_str(), self.extra_headers[i].1.as_str());
            assert(all.take(i + 1) =~= all.take(i as int).push(all[i as int]));
            i = i + 1;
        }
        assert(all.take(i as int) =~= all);
        req
    }
}

proof fn methods_differ()
    ensures
        "Network.setExtraHTTPHeaders"@ != "Browser.getVersion"@,
        "Network.setExtraHTTPHeaders"@ != "Runtime.evaluate"@,
        "Network.setExtraHTTPHeaders"@ != "Page.navigate"@,
        "Network.setExtraHTTPHeaders"@ != "DOM.querySelector"@,
        "Network.setExtraHTTPHeaders"@ != "DOM.getOuterHTML"@,
{
    reveal_strlit("Network.setExtraHTTPHeaders");
    reveal_strlit("Browser.getVersion");
    reveal_strlit("Runtime.evaluate");
    reveal_strlit("Page.navigate");
    reveal_strlit("DOM.querySelector");
    reveal_strlit("DOM.getOuterHTML");
    assert("Network.setExtraHTTPHeaders"@[0] == 'N');
    assert("Browser.getVersion"@[0] == 'B');
    assert("Runtime.evaluate"@[0] == 'R');
    assert("Page.navigate"@[0] == 'P');
    assert("DOM.querySelector"@[0] == 'D');
    assert("DOM.getOuterHTML"@[0] == 'D');
}

fn only_texts(list: &Vec<(String, Json)>) -> (r: Vec<(String, String)>)
    ensures
        pair_views(r@) == text_members(member_views(list@)),
{
    let ghost all = member_views(list@);
    let mut out: Vec<(String, String)> = Vec::new();
    assert(pair_views(out@) =~= text_members(all.take(0)));
    let mut i: usize = 0;
    while i < list.len()
        invariant
            i <= list@.len(),
            all == member_views(list@),
            pair_views(out@) == text_members(all.take(i as int)),
        decreases list@.len() - i,
    {
        assert(all.take(i + 1).drop_last() =~= all.take(i as int));
        assert(all.take(i + 1).last() == (list@[i as int].0@, list@[i as int].1@));
        if let Some(s) = list[i].1.as_str() {
            let ghost prior = out@;
            out.push((list[i].0.clone(), s.to_owned()));
            assert(pair_views(out@) =~= pair_views(prior).push((list@[i as int].0@, s@)));
        }
        i = i + 1;
    }
    assert(all.take(i as int) =~= all);
    out
}

// ---- values --------------------------------------------------------------------

/// What the client is told of a value: its type is guessed from its text. `number`
/// is the text as a number, where it is a finite one.
pub open spec fn remote_object(s: Seq<char>, number: Option<Seq<char>>) -> JsonModel {
    JsonModel::Object(
        if s == "null"@ {
            seq![
                ("type"@, JsonModel::Text("object"@)),
                ("subtype"@, JsonModel::Text("null"@)),
                ("value"@, JsonModel::Null),
            ]
        } else if s == "undefined"@ {
            seq![("type"@, JsonModel::Text("undefined"@))]
        } else if s == "true"@ {
            seq![("type"@, JsonModel::Text("boolean"@)), ("value"@, JsonModel::Bool(true))]
        } else if s == "false"@ {
            seq![("type"@, JsonModel::Text("boolean"@)), ("value"@, JsonModel::Bool(false))]
        } else if number is Some {
            seq![("type"@, JsonModel::Text("number"@)), ("value"@, JsonModel::Decimal(number->0))]
        } else {
            seq![("type"@, JsonModel::Text("string"@)), ("value"@, JsonModel::Text(s))]
        },
    )
}

pub fn classify_result(s: &str, number: Option<&str>) -> (r: Json)
    ensures
        r@ == remote_object(
            s@,
            match number {
                Some(n) => Some(n@),
                None => None,
            },
        ),
{
    let ghost want = remote_object(
        s@,
        match number {
            Some(n) => Some(n@),
            None => None,
        },
    );
    let mut m: Vec<(String, Json)> = Vec::new();
    if same(s, "null") {
        m.push(("type".to_owned(), Json::text("object")));
        m.push(("subtype".to_owned(), Json::text("null")));
        m.push(("value".to_owned(), Json::Null));
    } else if same(s, "undefined") {
        m.push(("type".to_owned(), Json::text("undefined")));
    } else if same(s, "true") {
        m.push(("type".to_owned(), Json::text("boolean")));
        m.push(("value".to_owned(), Json::Bool(true)));
    } else if same(s, "false") {
        m.push(("type".to_owned(), Json::text("boolean")));
        m.push(("value".to_owned(), Json::Bool(false)));
    } else if let Some(n) = number {
        m.push(("type".to_owned(), Json::text("number")));
        m.push(("value".to_owned(), Json::Decimal(n.to_owned())));
    } else {
        m.push(("type".to_owned(), Json::text("string")));
        m.push(("value".to_owned(), Json::text(s)));
    }
    let r = Json::object(m);
    assert(r@->Object_0 =~= want->Object_0);
    r
}

/// The result of an evaluation: the value, or what went wrong.
pub open spec fn evaluation_json(
    value: Result<Seq<char>, Seq<char>>,
    number: Option<Seq<char>>,
) -> JsonModel {
    JsonModel::Object(
        match value {
            Ok(s) => seq![("result"@, remote_object(s, number))],
            Err(e) => seq![
                ("result"@, JsonModel::Object(seq![("type"@, JsonModel::Text("undefined"@))])),
                (
                    "exceptionDetails"@,
                    JsonModel::Object(
                        seq![
                            ("exceptionId"@, JsonModel::Unsigned(1)),
                            ("text"@, JsonModel::Text(e)),
                        ],
                    ),
                ),
            ],
        },
    )
}

pub fn evaluation_result(value: Result<&str, &str>, number: Option<&str>) -> (r: Json)
    ensures
        r@ == evaluation_json(
            match value {
                Ok(s) => Ok(s@),
                Err(e) => Err(e@),
            },
            match number {
                Some(n) => Some(n@),
                None => None,
            },
        ),
{
    let mut m: Vec<(String, Json)> = Vec::new();
    match value {
        Ok(s) => {
            let v = classify_result(s, number);
            m.push(("result".to_owned(), v));
            assert(member_views(m@) =~= seq![("result"@, v@)]);
        },
        Err(e) => {
            let mut none: Vec<(String, Json)> = Vec::new();
            none.push(("type".to_owned(), Json::text("undefined")));
            assert(member_views(none@) =~= seq![("type"@, JsonModel::Text("undefined"@))]);
            let mut details: Vec<(String, Json)> = Vec::new();
            details.push(("exceptionId".to_owned(), Json::Unsigned(1)));
            details.push(("text".to_owned(), Json::text(e)));
            assert(member_views(details@) =~= seq![
                ("exceptionId"@, JsonModel::Unsigned(1)),
                ("text"@, JsonModel::Text(e@)),
            ]);
            let a = Json::object(none);
            let b = Json::object(details);
            m.push(("result".to_owned(), a));
            m.push(("exceptionDetails".to_owned(), b));
            assert(member_views(m@) =~= seq![("result"@, a@), ("exceptionDetails"@, b@)]);
        },
    }
    Json::object(m)
}

/// The result of a navigation; with what the page's scripts stumbled over, where
/// they did.
pub open spec fn navigation_json(error: Option<Seq<char>>) -> JsonModel {
    let base = seq![
        ("frameId"@, JsonModel::Text("frame-1"@)),
        ("loaderId"@, JsonModel::Text("loader-1"@)),
    ];
    JsonModel::Object(
        match error {
            Some(e) => base.push(("errorText"@, JsonModel::Text(e))),
            None => base,
        },
    )
}

pub fn navigation_result(error: Option<&str>) -> (r: Json)
    ensures
        r@ == navigation_json(
            match error {
                Some(e) => Some(e@),
                None => None,
            },
        ),
{
    let mut m: Vec<(String, Json)> = Vec::new();
    m.push(("frameId".to_owned(), Json::text("frame-1")));
    m.push(("loaderId".to_owned(), Json::text("loader-1")));
    if let Some(e) = error {
        m.push(("errorText".to_owned(), Json::text(e)));
    }
    let r = Json::object(m);
    assert(r@->Object_0 =~= navigation_json(
        match error {
            Some(e) => Some(e@),
            None => None,
        },
    )->Object_0);
    r
}

// ---- answers -------------------------------------------------------------------

/// A number as JSON.
pub open spec fn number_json(n: i64) -> JsonModel {
    if n < 0 {
        JsonModel::Negative(n)
    } else {
        JsonModel::Unsigned(n as u64)
    }
}

/// The answer to a request: its id, its result or its error, and the session that
/// it named.
pub open spec fn answer_json(
    id: i64,
    session_id: Option<Seq<char>>,
    result: Result<JsonModel, Seq<char>>,
) -> JsonModel {
    let base = seq![
        ("id"@, number_json(id)),
        match result {
            Ok(value) => ("result"@, value),
            Err(message) => (
                "error"@,
                JsonModel::Object(
                    seq![
                        ("code"@, JsonModel::Negative(-32000i64 as i64)),
                        ("message"@, JsonModel::Text(message)),
                    ],
                ),
            ),
        },
    ];
    JsonModel::Object(
        match session_id {
            Some(s) => base.push(("sessionId"@, JsonModel::Text(s))),
            None => base,
        },
    )
}

pub open spec fn json_result(r: Result<Json, String>) -> Result<JsonModel, Seq<char>> {
    match r {
        Ok(j) => Ok(j@),
        Err(e) => Err(e@),
    }
}

/// The answer to a request.
pub fn answer(req: &RpcRequest, result: Result<Json, String>) -> (r: Json)
    ensures
        r@ == answer_json(
            req.id,
            crate::dom::text_view(req.session_id),
            json_result(result),
        ),
{
    let ghost want = answer_json(
        req.id,
        crate::dom::text_view(req.session_id),
        json_result(result),
    );
    let mut m: Vec<(String, Json)> = Vec::new();
    let id = if req.id < 0 {
        Json::Negative(req.id)
    } else {
        Json::Unsigned(req.id as u64)
    };
    m.push(("id".to_owned(), id));
    match result {
        Ok(j) => m.push(("result".to_owned(), j)),
        Err(e) => {
            let mut details: Vec<(String, Json)> = Vec::new();
            details.push(("code".to_owned(), Json::Negative(-32000)));
            details.push(("message".to_owned(), Json::Text(e)));
            let d = Json::object(details);
            assert(d@->Object_0 =~= seq![
                ("code"@, JsonModel::Negative(-32000i64 as i64)),
                ("message"@, JsonModel::Text(e@)),
            ]);
            m.push(("error".to_owned(), d));
        },
    }
    if let Some(s) = &req.session_id {
        m.push(("sessionId".to_owned(), Json::text(s.as_str())));
    }
    let r = Json::object(m);
    assert(r@->Object_0 =~= want->Object_0);
    r
}

// ---- laws ----------------------------------------------------------------------

/// Every request is answered under its own id.
pub proof fn answers_carry_their_id(
    id: i64,
    session_id: Option<Seq<char>>,
    result: Result<JsonModel, Seq<char>>,
)
    ensures
        member(answer_json(id, session_id, result), "id"@) == Some(number_json(id)),
{
    assert(answer_json(id, session_id, result)->Object_0[0] == ("id"@, number_json(id)));
}

/// The headers that a client sets go with the next page that it asks for.
pub proof fn set_headers_go_out(
    headers: Seq<(Seq<char>, Seq<char>)>,
    page: &Page,
    given: Seq<(Seq<char>, JsonModel)>,
    set: JsonModel,
    navigate: JsonModel,
)
    requires
        member(set, "headers"@) == Some(JsonModel::Object(given)),
        text_member(navigate, "url"@) is Some,
    ensures
        ({
            let after = headers_after(headers, "Network.setExtraHTTPHeaders"@, set);
            let a = planned(after, page, "Page.navigate"@, navigate);
            a is Navigate && a->Navigate_0.headers == text_members(given)
        }),
{
    reveal_strlit("Page.navigate");
    reveal_strlit("Browser.getVersion");
    reveal_strlit("Runtime.evaluate");
    assert("Page.navigate"@[0] == 'P');
    assert("Browser.getVersion"@[0] == 'B');
    assert("Runtime.evaluate"@[0] == 'R');
}

} // verus!
