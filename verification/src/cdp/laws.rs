//! What a debugging client is answered, in terms of the page that it asks about.
use crate::cdp::{
    answer, classify_result, evaluation_result, headers_after, navigation_result, node_number,
    planned, text_members, Action, ActionModel, RpcRequest, Session,
};
use crate::dom::find::first_found_is_first;
use crate::dom::html::serialized;
use crate::dom::model::{ids, known, plain, subtree, subtree_step};
use crate::dom::selector::{parsed_selector, selects, Selector};
use crate::dom::{first_of, selected_below};
use crate::js::Page;
use crate::json::laws::{members_are_found_by_name, says, says_nothing};
use crate::json::{Json, JsonModel};
use crate::text::pair_views;
use vstd::prelude::*;
use vstd::string::*;

verus! {

proof fn methods_are_told_apart()
    ensures
        "Runtime.evaluate"@ != "Browser.getVersion"@,
        "Page.navigate"@ != "Browser.getVersion"@,
        "Page.navigate"@ != "Runtime.evaluate"@,
        "DOM.querySelector"@ != "Browser.getVersion"@,
        "DOM.querySelector"@ != "Runtime.evaluate"@,
        "DOM.querySelector"@ != "Page.navigate"@,
        "DOM.getOuterHTML"@ != "Browser.getVersion"@,
        "DOM.getOuterHTML"@ != "Runtime.evaluate"@,
        "DOM.getOuterHTML"@ != "Page.navigate"@,
        "DOM.getOuterHTML"@ != "DOM.querySelector"@,
        "Network.setExtraHTTPHeaders"@ != "Browser.getVersion"@,
        "Network.setExtraHTTPHeaders"@ != "Runtime.evaluate"@,
        "Network.setExtraHTTPHeaders"@ != "Page.navigate"@,
        "Network.setExtraHTTPHeaders"@ != "DOM.querySelector"@,
        "Network.setExtraHTTPHeaders"@ != "DOM.getOuterHTML"@,
{
    reveal_strlit("Browser.getVersion");
    reveal_strlit("Runtime.evaluate");
    reveal_strlit("Page.navigate");
    reveal_strlit("DOM.querySelector");
    reveal_strlit("DOM.getOuterHTML");
    reveal_strlit("Network.setExtraHTTPHeaders");
    assert("Browser.getVersion"@[0] == 'B');
    assert("Runtime.evaluate"@[0] == 'R');
    assert("Page.navigate"@[0] == 'P');
    assert("DOM.querySelector"@[0] == 'D' && "DOM.querySelector"@[4] == 'q');
    assert("DOM.getOuterHTML"@[0] == 'D' && "DOM.getOuterHTML"@[4] == 'g');
    assert("Network.setExtraHTTPHeaders"@[0] == 'N');
}

/// An answer that says the number of one node.
pub open spec fn names_node(a: ActionModel, n: int) -> bool {
    a is Reply && exists|m: u64|
        m == n && #[trigger] says(a->Reply_0, "nodeId"@, JsonModel::Unsigned(m))
}

/// A selector is answered with the number of a node of the page: the first below the
/// document, in document order, that is known and that it selects. Where there is none
/// the number is 0, and there is none only then.
pub proof fn queries_name_the_first_match(
    headers: Seq<(Seq<char>, Seq<char>)>,
    page: &Page,
    params: JsonModel,
    text: Seq<char>,
    sel: Selector,
)
    requires
        page.valid(),
        known(page.doc@, 0),
        says(params, "selector"@, JsonModel::Text(text)),
        parsed_selector(text) == Some(sel),
    ensures
        ({
            let d = page.doc@;
            let a = planned(headers, page, "DOM.querySelector"@, params);
            let order = ids(subtree(d, 0));
            &&& (exists|j: int|
                0 < j < order.len() && known(d, #[trigger] order[j]) && selects(
                    sel,
                    d[order[j]].kind,
                )) ==> exists|j: int|
                {
                    &&& 0 < j < order.len()
                    &&& known(d, #[trigger] order[j]) && selects(sel, d[order[j]].kind)
                    &&& forall|i: int|
                        0 < i < j ==> !(known(d, #[trigger] order[i]) && selects(
                            sel,
                            d[order[i]].kind,
                        ))
                    &&& order[j] > 0
                    &&& names_node(a, order[j])
                }
            &&& !(exists|j: int|
                0 < j < order.len() && known(d, #[trigger] order[j]) && selects(
                    sel,
                    d[order[j]].kind,
                )) ==> names_node(a, 0)
        }),
{
    methods_are_told_apart();
    members_are_found_by_name(params, "selector"@, JsonModel::Text(text));
    let d = page.doc@;
    let a = planned(headers, page, "DOM.querySelector"@, params);
    let order = ids(subtree(d, 0));
    let s = selected_below(d, 0, text);
    first_found_is_first(d, 0, text, sel);
    let reply = a->Reply_0->Object_0;
    assert(reply[0].0 == "nodeId"@);
    let m = reply[0].1->Unsigned_0;
    assert(a->Reply_0->Object_0[0] == ("nodeId"@, JsonModel::Unsigned(m)));
    assert(says(a->Reply_0, "nodeId"@, JsonModel::Unsigned(m)));
    if s.len() == 0 {
        assert(m == 0);
        if exists|j: int|
            0 < j < order.len() && known(d, #[trigger] order[j]) && selects(sel, d[order[j]].kind) {
            let j = choose|j: int|
                0 < j < order.len() && known(d, #[trigger] order[j]) && selects(
                    sel,
                    d[order[j]].kind,
                );
            assert(!(known(d, order[j]) && selects(sel, d[order[j]].kind)));
        }
    } else {
        let j = choose|j: int|
            {
                &&& 0 < j < order.len()
                &&& #[trigger] order[j] == s[0]
                &&& known(d, s[0]) && selects(sel, d[s[0]].kind)
                &&& forall|i: int|
                    0 < i < j ==> !(known(d, #[trigger] order[i]) && selects(
                        sel,
                        d[order[i]].kind,
                    ))
            };
        assert(known(d, order[j]));
        assert(d[0].kind is Document);
        assert(m == order[j]);
    }
}

/// A text that is no selector finds nothing.
pub proof fn bad_selectors_name_nothing(
    headers: Seq<(Seq<char>, Seq<char>)>,
    page: &Page,
    params: JsonModel,
    text: Seq<char>,
)
    requires
        says(params, "selector"@, JsonModel::Text(text)),
        parsed_selector(text) is None,
    ensures
        names_node(planned(headers, page, "DOM.querySelector"@, params), 0),
{
    methods_are_told_apart();
    members_are_found_by_name(params, "selector"@, JsonModel::Text(text));
    let a = planned(headers, page, "DOM.querySelector"@, params);
    assert(a->Reply_0->Object_0[0] == ("nodeId"@, JsonModel::Unsigned(0)));
    assert(says(a->Reply_0, "nodeId"@, JsonModel::Unsigned(0)));
}

/// The HTML of a node that a query named is that of this very node, with all below it.
pub proof fn named_nodes_give_their_html(
    headers: Seq<(Seq<char>, Seq<char>)>,
    page: &Page,
    query: JsonModel,
    text: Seq<char>,
    node: JsonModel,
    n: u64,
)
    requires
        page.valid(),
        says(query, "selector"@, JsonModel::Text(text)),
        names_node(planned(headers, page, "DOM.querySelector"@, query), n as int),
        n > 0,
        says(node, "nodeId"@, JsonModel::Unsigned(n)),
    ensures
        ({
            let a = planned(headers, page, "DOM.getOuterHTML"@, node);
            &&& a is Reply
            &&& says(
                a->Reply_0,
                "outerHTML"@,
                JsonModel::Text(serialized(plain(subtree(page.doc@, n as int)), true)),
            )
        }),
{
    methods_are_told_apart();
    members_are_found_by_name(query, "selector"@, JsonModel::Text(text));
    members_are_found_by_name(node, "nodeId"@, JsonModel::Unsigned(n));
    let q = planned(headers, page, "DOM.querySelector"@, query);
    let d = page.doc@;
    let s = selected_below(d, 0, text);
    crate::dom::selected_are_known(d, 0, text);
    let m = choose|m: u64|
        m == n && #[trigger] says(q->Reply_0, "nodeId"@, JsonModel::Unsigned(m));
    members_are_found_by_name(q->Reply_0, "nodeId"@, JsonModel::Unsigned(m));
    assert(q->Reply_0->Object_0[0].0 == "nodeId"@);
    assert(s.len() > 0);
    assert(known(d, s[0]));
    assert(n == s[0]);
    assert(node_number(n) == n);
    let a = planned(headers, page, "DOM.getOuterHTML"@, node);
    assert(a->Reply_0->Object_0[0] == (
        "outerHTML"@,
        JsonModel::Text(serialized(plain(subtree(d, n as int)), true)),
    ));
}

/// A number that no node has is refused.
pub proof fn unknown_nodes_are_refused(
    headers: Seq<(Seq<char>, Seq<char>)>,
    page: &Page,
    node: JsonModel,
    n: u64,
)
    requires
        n <= u32::MAX,
        !known(page.doc@, n as int),
        says(node, "nodeId"@, JsonModel::Unsigned(n)),
    ensures
        planned(headers, page, "DOM.getOuterHTML"@, node) is Fail,
{
    methods_are_told_apart();
    members_are_found_by_name(node, "nodeId"@, JsonModel::Unsigned(n));
    assert(node_number(n) == n);
}

/// What a request needs and does not bring is refused.
pub proof fn missing_parameters_are_refused(
    headers: Seq<(Seq<char>, Seq<char>)>,
    page: &Page,
    params: JsonModel,
)
    ensures
        says_nothing(params, "selector"@) ==> planned(headers, page, "DOM.querySelector"@, params)
            is Fail,
        says_nothing(params, "nodeId"@) ==> planned(headers, page, "DOM.getOuterHTML"@, params)
            is Fail,
        says_nothing(params, "url"@) ==> planned(headers, page, "Page.navigate"@, params) is Fail,
        says_nothing(params, "headers"@) ==> planned(
            headers,
            page,
            "Network.setExtraHTTPHeaders"@,
            params,
        ) is Fail,
{
    methods_are_told_apart();
    members_are_found_by_name(params, "selector"@, JsonModel::Null);
    members_are_found_by_name(params, "nodeId"@, JsonModel::Null);
    members_are_found_by_name(params, "url"@, JsonModel::Null);
    members_are_found_by_name(params, "headers"@, JsonModel::Null);
}

/// The expression that is evaluated is the one that was sent.
pub proof fn expressions_are_evaluated_as_sent(
    headers: Seq<(Seq<char>, Seq<char>)>,
    page: &Page,
    params: JsonModel,
    text: Seq<char>,
)
    requires
        says(params, "expression"@, JsonModel::Text(text)),
    ensures
        planned(headers, page, "Runtime.evaluate"@, params) == ActionModel::Evaluate(text),
{
    methods_are_told_apart();
    members_are_found_by_name(params, "expression"@, JsonModel::Text(text));
}

/// A page is asked for with GET, without a body, under its URL and with the headers that
/// were set.
pub proof fn pages_are_asked_for(
    headers: Seq<(Seq<char>, Seq<char>)>,
    page: &Page,
    params: JsonModel,
    url: Seq<char>,
)
    requires
        says(params, "url"@, JsonModel::Text(url)),
    ensures
        ({
            let a = planned(headers, page, "Page.navigate"@, params);
            &&& a is Navigate
            &&& a->Navigate_0.url == url
            &&& a->Navigate_0.method == "GET"@
            &&& a->Navigate_0.headers == headers
            &&& a->Navigate_0.body.len() == 0
        }),
{
    methods_are_told_apart();
    members_are_found_by_name(params, "url"@, JsonModel::Text(url));
}

/// A method that is not known, of those that are asked as a matter of form, is answered
/// with an empty object, and changes nothing.
pub proof fn other_methods_are_accepted(
    headers: Seq<(Seq<char>, Seq<char>)>,
    page: &Page,
    method: Seq<char>,
    params: JsonModel,
)
    requires
        method != "Browser.getVersion"@,
        method != "Runtime.evaluate"@,
        method != "Page.navigate"@,
        method != "DOM.querySelector"@,
        method != "DOM.getOuterHTML"@,
        method != "Network.setExtraHTTPHeaders"@,
    ensures
        planned(headers, page, method, params) is Reply,
        planned(headers, page, method, params)->Reply_0 is Object,
        planned(headers, page, method, params)->Reply_0->Object_0.len() == 0,
        headers_after(headers, method, params) == headers,
{
}

/// The version that is answered: the protocol's, and the product's name twice.
pub proof fn versions_are_told(
    headers: Seq<(Seq<char>, Seq<char>)>,
    page: &Page,
    params: JsonModel,
)
    ensures
        ({
            let a = planned(headers, page, "Browser.getVersion"@, params);
            &&& a is Reply
            &&& says(a->Reply_0, "protocolVersion"@, JsonModel::Text("1.3"@))
            &&& says(a->Reply_0, "product"@, JsonModel::Text("bouncy/0.0.0"@))
            &&& says(a->Reply_0, "userAgent"@, JsonModel::Text("bouncy/0.0.0"@))
        }),
{
    reveal_strlit("protocolVersion");
    reveal_strlit("product");
    reveal_strlit("revision");
    reveal_strlit("userAgent");
    let j = planned(headers, page, "Browser.getVersion"@, params)->Reply_0;
    let s = j->Object_0;
    assert("protocolVersion"@.len() == 15 && "product"@.len() == 7 && "userAgent"@.len() == 9);
    assert("revision"@.len() == 8);
    assert(j->Object_0[0] == ("protocolVersion"@, JsonModel::Text("1.3"@)));
    assert(j->Object_0[1] == ("product"@, JsonModel::Text("bouncy/0.0.0"@)));
    assert(j->Object_0[2].0 == "revision"@);
    assert(j->Object_0[3] == ("userAgent"@, JsonModel::Text("bouncy/0.0.0"@)));
}

/// The headers that are set are those with a text for a value, in order; those that were
/// set before are gone.
pub proof fn set_headers_replace_the_others(
    headers: Seq<(Seq<char>, Seq<char>)>,
    params: JsonModel,
    given: Seq<(Seq<char>, JsonModel)>,
)
    requires
        says(params, "headers"@, JsonModel::Object(given)),
    ensures
        headers_after(headers, "Network.setExtraHTTPHeaders"@, params) == given.filter(
            |m: (Seq<char>, JsonModel)| m.1 is Text,
        ).map_values(|m: (Seq<char>, JsonModel)| (m.0, m.1->Text_0)),
{
    members_are_found_by_name(params, "headers"@, JsonModel::Object(given));
    texts_are_filtered(given);
}

proof fn texts_are_filtered(s: Seq<(Seq<char>, JsonModel)>)
    ensures
        text_members(s) == s.filter(|m: (Seq<char>, JsonModel)| m.1 is Text).map_values(
            |m: (Seq<char>, JsonModel)| (m.0, m.1->Text_0),
        ),
    decreases s.len(),
{
    reveal(Seq::filter);
    let p = |m: (Seq<char>, JsonModel)| m.1 is Text;
    let f = |m: (Seq<char>, JsonModel)| (m.0, m.1->Text_0);
    if s.len() == 0 {
        assert(s.filter(p).map_values(f) =~= text_members(s));
    } else {
        texts_are_filtered(s.drop_last());
        if s.last().1 is Text {
            assert(s.filter(p).map_values(f) =~= s.drop_last().filter(p).map_values(f).push(
                (s.last().0, s.last().1->Text_0),
            ));
        }
    }
}

// ---- values ----------------------------------------------------------------------

/// What a script gives back is described by its type: null, undefined, a truth value, a
/// number, or else a text.
pub proof fn values_are_described_by_type(s: &str, number: Option<&str>, r: Json)
    requires
        call_ensures(classify_result, (s, number), r),
    ensures
        s@ == "null"@ ==> says(r@, "type"@, JsonModel::Text("object"@)) && says(
            r@,
            "subtype"@,
            JsonModel::Text("null"@),
        ) && says(r@, "value"@, JsonModel::Null),
        s@ == "undefined"@ ==> says(r@, "type"@, JsonModel::Text("undefined"@)) && says_nothing(
            r@,
            "value"@,
        ),
        s@ == "true"@ ==> says(r@, "type"@, JsonModel::Text("boolean"@)) && says(
            r@,
            "value"@,
            JsonModel::Bool(true),
        ),
        s@ == "false"@ ==> says(r@, "type"@, JsonModel::Text("boolean"@)) && says(
            r@,
            "value"@,
            JsonModel::Bool(false),
        ),
        s@ != "null"@ && s@ != "undefined"@ && s@ != "true"@ && s@ != "false"@ && number is Some
            ==> says(r@, "type"@, JsonModel::Text("number"@)) && says(
            r@,
            "value"@,
            JsonModel::Decimal(number->0@),
        ),
        s@ != "null"@ && s@ != "undefined"@ && s@ != "true"@ && s@ != "false"@ && number is None
            ==> says(r@, "type"@, JsonModel::Text("string"@)) && says(
            r@,
            "value"@,
            JsonModel::Text(s@),
        ),
{
    reveal_strlit("null");
    reveal_strlit("undefined");
    reveal_strlit("true");
    reveal_strlit("false");
    reveal_strlit("type");
    reveal_strlit("subtype");
    reveal_strlit("value");
    assert("null"@[0] == 'n' && "undefined"@[0] == 'u' && "true"@[0] == 't' && "false"@[0] == 'f');
    assert("type"@.len() == 4 && "subtype"@.len() == 7 && "value"@.len() == 5);
    let m = r@->Object_0;
    assert(r@->Object_0[0].0 == "type"@);
    if s@ == "null"@ {
        assert(r@->Object_0[1].0 == "subtype"@);
        assert(r@->Object_0[2].0 == "value"@);
    } else if s@ == "undefined"@ {
    } else {
        assert(r@->Object_0[1].0 == "value"@);
    }
}

/// A value is answered as the result; an error as what went wrong.
pub proof fn evaluations_are_answered(
    value: Result<&str, &str>,
    number: Option<&str>,
    described: Json,
    r: Json,
)
    requires
        call_ensures(evaluation_result, (value, number), r),
        value matches Ok(s) ==> call_ensures(classify_result, (s, number), described),
    ensures
        value is Ok ==> says(r@, "result"@, described@) && says_nothing(r@, "exceptionDetails"@),
        value matches Err(e) ==> exists|details: JsonModel|
            #[trigger] says(r@, "exceptionDetails"@, details) && says(
                details,
                "text"@,
                JsonModel::Text(e@),
            ),
{
    reveal_strlit("result");
    reveal_strlit("exceptionDetails");
    reveal_strlit("exceptionId");
    reveal_strlit("text");
    assert("result"@.len() == 6 && "exceptionDetails"@.len() == 16);
    assert("exceptionId"@.len() == 11 && "text"@.len() == 4);
    let m = r@->Object_0;
    assert(r@->Object_0[0].0 == "result"@);
    if value is Err {
        assert(r@->Object_0[1].0 == "exceptionDetails"@);
        let details = r@->Object_0[1].1;
        assert(details->Object_0[0].0 == "exceptionId"@);
        assert(details->Object_0[1] == ("text"@, JsonModel::Text(value->Err_0@)));
        assert(says(r@, "exceptionDetails"@, details));
        assert(says(details, "text"@, JsonModel::Text(value->Err_0@)));
    }
}

/// A page that could be had is answered without an error, one that could not with it.
pub proof fn navigations_are_answered(error: Option<&str>, r: Json)
    requires
        call_ensures(navigation_result, (error,), r),
    ensures
        says(r@, "frameId"@, JsonModel::Text("frame-1"@)),
        says(r@, "loaderId"@, JsonModel::Text("loader-1"@)),
        error is None ==> says_nothing(r@, "errorText"@),
        error matches Some(e) ==> says(r@, "errorText"@, JsonModel::Text(e@)),
{
    reveal_strlit("frameId");
    reveal_strlit("loaderId");
    reveal_strlit("errorText");
    assert("frameId"@.len() == 7 && "loaderId"@.len() == 8 && "errorText"@.len() == 9);
    assert(r@->Object_0[0] == ("frameId"@, JsonModel::Text("frame-1"@)));
    assert(r@->Object_0[1] == ("loaderId"@, JsonModel::Text("loader-1"@)));
    if error is Some {
        assert(r@->Object_0[2] == ("errorText"@, JsonModel::Text(error->0@)));
    }
}

/// Every answer carries the number of its request, and its session where it had one; a
/// result is answered as it is, and a failure with its message.
pub proof fn answers_belong_to_their_request(
    req: &RpcRequest,
    result: Result<Json, String>,
    r: Json,
)
    requires
        call_ensures(answer, (req, result), r),
    ensures
        req.id >= 0 ==> says(r@, "id"@, JsonModel::Unsigned(req.id as u64)),
        req.id < 0 ==> says(r@, "id"@, JsonModel::Negative(req.id)),
        result matches Ok(j) ==> says(r@, "result"@, j@) && says_nothing(r@, "error"@),
        result matches Err(m) ==> says_nothing(r@, "result"@) && exists|e: JsonModel|
            #[trigger] says(r@, "error"@, e) && says(e, "message"@, JsonModel::Text(m@)) && says(
                e,
                "code"@,
                JsonModel::Negative((-32000) as i64),
            ),
        req.session_id matches Some(s) ==> says(r@, "sessionId"@, JsonModel::Text(s@)),
        req.session_id is None ==> says_nothing(r@, "sessionId"@),
{
    reveal_strlit("id");
    reveal_strlit("result");
    reveal_strlit("error");
    reveal_strlit("sessionId");
    reveal_strlit("code");
    reveal_strlit("message");
    assert("id"@.len() == 2 && "result"@.len() == 6 && "error"@.len() == 5);
    assert("sessionId"@.len() == 9 && "code"@.len() == 4 && "message"@.len() == 7);
    assert(r@->Object_0[0].0 == "id"@);
    if result is Ok {
        assert(r@->Object_0[1] == ("result"@, result->Ok_0@));
    } else {
        assert(r@->Object_0[1].0 == "error"@);
        let e = r@->Object_0[1].1;
        assert(e->Object_0[0] == ("code"@, JsonModel::Negative((-32000) as i64)));
        assert(e->Object_0[1] == ("message"@, JsonModel::Text(result->Err_0@)));
        assert(says(r@, "error"@, e));
    }
    if req.session_id is Some {
        assert(r@->Object_0[2] == ("sessionId"@, JsonModel::Text(req.session_id->0@)));
    }
}

/// A session answers as said above, from the headers that it holds, and a headers request
/// is the only one that changes them.
pub proof fn sessions_answer_so(s: &mut Session, req: &RpcRequest, page: &Page, r: Action)
    requires
        call_ensures(Session::plan, (s, req, page), r),
    ensures
        r@ == planned(pair_views(old(s).extra_headers@), page, req.method@, req.params@),
        req.method@ != "Network.setExtraHTTPHeaders"@ ==> pair_views(final(s).extra_headers@)
            == pair_views(old(s).extra_headers@),
        req.method@ == "Network.setExtraHTTPHeaders"@ ==> pair_views(final(s).extra_headers@)
            == headers_after(
            pair_views(old(s).extra_headers@),
            "Network.setExtraHTTPHeaders"@,
            req.params@,
        ),
{
}

/// A new session has no headers of its own.
pub proof fn sessions_start_plain(r: Session)
    requires
        call_ensures(Session::new, (), r),
    ensures
        r.extra_headers@.len() == 0,
{
}

} // verus!
