//! The tools of the agent: what they are called with, and what a call comes to.

use crate::json::{json_views, member_views, text_member, unsigned_member, Json, JsonModel};
use crate::session::chain::Command;
use crate::session::{ModeModel, ReadMode, Target, TargetModel};
use crate::text::{
    byte_len, byte_len_concat, byte_prefix, debug_text, debugged, decimal, fitting, fitting_fits,
    has_prefix, join, joined, push_decimal, same, strip_prefix, views,
};
use vstd::prelude::*;
use vstd::string::*;

verus! {

pub open spec fn str_pairs(v: Seq<(&'static str, &'static str)>) -> Seq<(Seq<char>, Seq<char>)> {
    v.map_values(|p: (&'static str, &'static str)| (p.0@, p.1@))
}

pub open spec fn str_views(v: Seq<&'static str>) -> Seq<Seq<char>> {
    v.map_values(|s: &'static str| s@)
}

/// A JSON schema of an object with the given members, each with its type.
pub open spec fn schema_model(
    props: Seq<(Seq<char>, Seq<char>)>,
    required: Seq<Seq<char>>,
) -> JsonModel {
    let base = seq![
        ("type"@, JsonModel::Text("object"@)),
        (
            "properties"@,
            JsonModel::Object(
                props.map_values(
                    |p: (Seq<char>, Seq<char>)|
                        (p.0, JsonModel::Object(seq![("type"@, JsonModel::Text(p.1))])),
                ),
            ),
        ),
    ];
    JsonModel::Object(
        if required.len() > 0 {
            base.push(
                (
                    "required"@,
                    JsonModel::Array(required.map_values(|r: Seq<char>| JsonModel::Text(r))),
                ),
            )
        } else {
            base
        },
    )
}

/// The description of a tool.
pub open spec fn tool_model(
    name: Seq<char>,
    description: Seq<char>,
    props: Seq<(Seq<char>, Seq<char>)>,
    required: Seq<Seq<char>>,
) -> JsonModel {
    JsonModel::Object(
        seq![
            ("name"@, JsonModel::Text(name)),
            ("description"@, JsonModel::Text(description)),
            ("input_schema"@, schema_model(props, required)),
        ],
    )
}

pub open spec fn target_props() -> Seq<(Seq<char>, Seq<char>)> {
    seq![("selector"@, "string"@), ("index"@, "integer"@)]
}

/// The tools of the agent.
pub open spec fn tool_models() -> Seq<JsonModel> {
    seq![
        tool_model(
            "click"@,
            "Fire a synthetic click on an element. Pass either `selector` (CSS) or `index` (integer from the current snapshot's interactive list)."@,
            target_props(),
            seq![],
        ),
        tool_model(
            "fill"@,
            "Set a form field's value and dispatch input + change events. Pass either `selector` or `index`, plus the new `value`."@,
            target_props().push(("value"@, "string"@)),
            seq!["value"@],
        ),
        tool_model(
            "submit"@,
            "Submit a form (or the form containing the matched submit button). Pass either `selector` or `index`."@,
            target_props(),
            seq![],
        ),
        tool_model(
            "click_text"@,
            "Click the first link or button whose visible text matches. Trimmed + ASCII-case-insensitive; exact match preferred."@,
            seq![("text"@, "string"@)],
            seq!["text"@],
        ),
        tool_model(
            "select_option"@,
            "Set a <select>'s value (matches against option.value first, then option text). Pass either `selector` or `index`."@,
            target_props().push(("value"@, "string"@)),
            seq!["value"@],
        ),
        tool_model(
            "press_key"@,
            "Dispatch a keyboard event on an element. `key` is a single character or a named key (Enter, Tab, Escape, Backspace, ArrowUp/Down/Left/Right)."@,
            target_props().push(("key"@, "string"@)),
            seq!["key"@],
        ),
        tool_model(
            "goto"@,
            "Navigate the session to a fresh URL. Cookies and session state are preserved."@,
            seq![("url"@, "string"@)],
            seq!["url"@],
        ),
        tool_model(
            "read"@,
            "Read text / HTML / attribute values from elements matching `selector` or `index`. `mode` is text (default) | html | attr:NAME."@,
            target_props().push(("mode"@, "string"@)),
            seq![],
        ),
        tool_model(
            "wait_for"@,
            "Block until a CSS selector matches or text appears in the body. Pass exactly one of `selector` / `text`. Defaults to a 5s timeout."@,
            seq![("selector"@, "string"@), ("text"@, "string"@), ("timeout_ms"@, "integer"@)],
            seq![],
        ),
        tool_model("back"@, "Re-navigate to the previously visited URL."@, seq![], seq![]),
        tool_model(
            "done"@,
            "Signal task completion. `answer` is the final text answer (when the task asks a question) or a brief summary of what was accomplished. The agent loop terminates after this."@,
            seq![("answer"@, "string"@)],
            seq!["answer"@],
        ),
    ]
}

fn field(key: &str, value: Json) -> (r: (String, Json))
    ensures
        r.0@ == key@,
        r.1@ == value@,
{
    (key.to_owned(), value)
}

fn schema(props: Vec<(&'static str, &'static str)>, required: Vec<&'static str>) -> (r: Json)
    ensures
        r@ == schema_model(str_pairs(props@), str_views(required@)),
{
    let ghost pv = str_pairs(props@);
    let ghost want = pv.map_values(
        |p: (Seq<char>, Seq<char>)|
            (p.0, JsonModel::Object(seq![("type"@, JsonModel::Text(p.1))])),
    );
    let mut properties: Vec<(String, Json)> = Vec::new();
    let mut i: usize = 0;
    while i < props.len()
        invariant
            i <= props@.len(),
            pv == str_pairs(props@),
            want == pv.map_values(
                |p: (Seq<char>, Seq<char>)|
                    (p.0, JsonModel::Object(seq![("type"@, JsonModel::Text(p.1))])),
            ),
            member_views(properties@) == want.take(i as int),
        decreases props@.len() - i,
    {
        let mut kind: Vec<(String, Json)> = Vec::new();
        kind.push(field("type", Json::text(props[i].1)));
        assert(member_views(kind@) =~= seq![("type"@, JsonModel::Text(props@[i as int].1@))]);
        let ghost prior = properties@;
        let f = field(props[i].0, Json::object(kind));
        properties.push(f);
        assert(member_views(properties@) =~= member_views(prior).push((f.0@, f.1@)));
        assert(want[i as int] == (f.0@, f.1@));
        assert(want.take(i + 1) =~= want.take(i as int).push(want[i as int]));
        i = i + 1;
    }
    assert(want.take(i as int) =~= want);
    let mut members: Vec<(String, Json)> = Vec::new();
    members.push(field("type", Json::text("object")));
    members.push(field("properties", Json::object(properties)));
    let ghost base = member_views(members@);
    assert(base =~= seq![
        ("type"@, JsonModel::Text("object"@)),
        ("properties"@, JsonModel::Object(want)),
    ]);
    if required.len() > 0 {
        let ghost rv = str_views(required@);
        let ghost names = rv.map_values(|r: Seq<char>| JsonModel::Text(r));
        let mut list: Vec<Json> = Vec::new();
        let mut k: usize = 0;
        while k < required.len()
            invariant
                k <= required@.len(),
                rv == str_views(required@),
                names == rv.map_values(|r: Seq<char>| JsonModel::Text(r)),
                json_views(list@) == names.take(k as int),
            decreases required@.len() - k,
        {
            let ghost prior = list@;
            let j = Json::text(required[k]);
            list.push(j);
            assert(json_views(list@) =~= json_views(prior).push(j@));
            assert(names.take(k + 1) =~= names.take(k as int).push(names[k as int]));
            k = k + 1;
        }
        assert(names.take(k as int) =~= names);
        let ghost prior = members@;
        let f = field("required", Json::array(list));
        members.push(f);
        assert(member_views(members@) =~= member_views(prior).push((f.0@, f.1@)));
    }
    Json::object(members)
}

fn tool(
    name: &str,
    description: &str,
    props: Vec<(&'static str, &'static str)>,
    required: Vec<&'static str>,
) -> (r: Json)
    ensures
        r@ == tool_model(name@, description@, str_pairs(props@), str_views(required@)),
{
    let mut members: Vec<(String, Json)> = Vec::new();
    members.push(field("name", Json::text(name)));
    members.push(field("description", Json::text(description)));
    members.push(field("input_schema", schema(props, required)));
    assert(member_views(members@) =~= seq![
        ("name"@, JsonModel::Text(name@)),
        ("description"@, JsonModel::Text(description@)),
        ("input_schema"@, schema_model(str_pairs(props@), str_views(required@))),
    ]);
    Json::object(members)
}

/// The descriptions of the tools that the model may call.
pub fn tool_schemas() -> (r: Vec<Json>)
    ensures
        json_views(r@) == tool_models(),
{
    let none: Vec<&'static str> = Vec::new();
    assert(str_views(none@) =~= seq![]);
    let mut v: Vec<Json> = Vec::new();
    let target = vec![("selector", "string"), ("index", "integer")];
    assert(str_pairs(target@) =~= target_props());
    v.push(
        tool(
            "click",
            "Fire a synthetic click on an element. Pass either `selector` (CSS) or `index` (integer from the current snapshot's interactive list).",
            target,
            none,
        ),
    );
    let props = vec![("selector", "string"), ("index", "integer"), ("value", "string")];
    let required = vec!["value"];
    assert(str_pairs(props@) =~= target_props().push(("value"@, "string"@)));
    assert(str_views(required@) =~= seq!["value"@]);
    v.push(
        tool(
            "fill",
            "Set a form field's value and dispatch input + change events. Pass either `selector` or `index`, plus the new `value`.",
            props,
            required,
        ),
    );
    let target = vec![("selector", "string"), ("index", "integer")];
    assert(str_pairs(target@) =~= target_props());
    let none: Vec<&'static str> = Vec::new();
    assert(str_views(none@) =~= seq![]);
    v.push(
        tool(
            "submit",
            "Submit a form (or the form containing the matched submit button). Pass either `selector` or `index`.",
            target,
            none,
        ),
    );
    let props = vec![("text", "string")];
    let required = vec!["text"];
    assert(str_pairs(props@) =~= seq![("text"@, "string"@)]);
    assert(str_views(required@) =~= seq!["text"@]);
    v.push(
        tool(
            "click_text",
            "Click the first link or button whose visible text matches. Trimmed + ASCII-case-insensitive; exact match preferred.",
            props,
            required,
        ),
    );
    let props = vec![("selector", "string"), ("index", "integer"), ("value", "string")];
    let required = vec!["value"];
    assert(str_pairs(props@) =~= target_props().push(("value"@, "string"@)));
    assert(str_views(required@) =~= seq!["value"@]);
    v.push(
        tool(
            "select_option",
            "Set a <select>'s value (matches against option.value first, then option text). Pass either `selector` or `index`.",
            props,
            required,
        ),
    );
    let props = vec![("selector", "string"), ("index", "integer"), ("key", "string")];
    let required = vec!["key"];
    assert(str_pairs(props@) =~= target_props().push(("key"@, "string"@)));
    assert(str_views(required@) =~= seq!["key"@]);
    v.push(
        tool(
            "press_key",
            "Dispatch a keyboard event on an element. `key` is a single character or a named key (Enter, Tab, Escape, Backspace, ArrowUp/Down/Left/Right).",
            props,
            required,
        ),
    );
    let props = vec![("url", "string")];
    let required = vec!["url"];
    assert(str_pairs(props@) =~= seq![("url"@, "string"@)]);
    assert(str_views(required@) =~= seq!["url"@]);
    v.push(
        tool(
            "goto",
            "Navigate the session to a fresh URL. Cookies and session state are preserved.",
            props,
            required,
        ),
    );
    let props = vec![("selector", "string"), ("index", "integer"), ("mode", "string")];
    assert(str_pairs(props@) =~= target_props().push(("mode"@, "string"@)));
    let none: Vec<&'static str> = Vec::new();
    assert(str_views(none@) =~= seq![]);
    v.push(
        tool(
            "read",
            "Read text / HTML / attribute values from elements matching `selector` or `index`. `mode` is text (default) | html | attr:NAME.",
            props,
            none,
        ),
    );
    let props = vec![("selector", "string"), ("text", "string"), ("timeout_ms", "integer")];
    assert(str_pairs(props@) =~= seq![
        ("selector"@, "string"@),
        ("text"@, "string"@),
        ("timeout_ms"@, "integer"@),
    ]);
    let none: Vec<&'static str> = Vec::new();
    assert(str_views(none@) =~= seq![]);
    v.push(
        tool(
            "wait_for",
            "Block until a CSS selector matches or text appears in the body. Pass exactly one of `selector` / `text`. Defaults to a 5s timeout.",
            props,
            none,
        ),
    );
    let props: Vec<(&'static str, &'static str)> = Vec::new();
    assert(str_pairs(props@) =~= seq![]);
    let none: Vec<&'static str> = Vec::new();
    assert(str_views(none@) =~= seq![]);
    v.push(tool("back", "Re-navigate to the previously visited URL.", props, none));
    let props = vec![("answer", "string")];
    let required = vec!["answer"];
    assert(str_pairs(props@) =~= seq![("answer"@, "string"@)]);
    assert(str_views(required@) =~= seq!["answer"@]);
    v.push(
        tool(
            "done",
            "Signal task completion. `answer` is the final text answer (when the task asks a question) or a brief summary of what was accomplished. The agent loop terminates after this.",
            props,
            required,
        ),
    );
    assert(json_views(v@) =~= tool_models());
    v
}

// ---- arguments -----------------------------------------------------------------

/// The element that a call addresses: by index before by selector.
pub open spec fn call_target(input: JsonModel) -> Option<TargetModel> {
    if unsigned_member(input, "index"@) is Some {
        Some(TargetModel::Index((unsigned_member(input, "index"@)->0 % 0x1_0000_0000) as u32))
    } else {
        match text_member(input, "selector"@) {
            Some(s) if s.len() > 0 => Some(TargetModel::Selector(s)),
            _ => None,
        }
    }
}

pub fn parse_target(input: &Json) -> (r: Result<Target, String>)
    ensures
        match r {
            Ok(t) => call_target(input@) == Some(t@),
            Err(e) => call_target(input@) is None && e@
                == "missing selector or index in tool args"@,
        },
{
    if let Some(i) = input.get_u64("index") {
        let n: u64 = i % 0x1_0000_0000;
        return Ok(Target::Index(n as u32));
    }
    if let Some(s) = input.get_str("selector") {
        if !s.is_empty() {
            return Ok(Target::selector(s));
        }
    }
    Err("missing selector or index in tool args".to_owned())
}

pub fn string_field(input: &Json, key: &str) -> (r: Result<String, String>)
    ensures
        match r {
            Ok(s) => text_member(input@, key@) == Some(s@),
            Err(e) => text_member(input@, key@) is None && e@ == "missing string field "@
                + debugged(key@),
        },
{
    match input.get_str(key) {
        Some(s) => Ok(s.to_owned()),
        None => {
            let mut m = "missing string field ".to_owned();
            m.append(debug_text(key).as_str());
            Err(m)
        },
    }
}

/// How elements are read: their text unless `mode` says otherwise.
pub open spec fn call_mode(input: JsonModel) -> Result<ModeModel, Seq<char>> {
    match text_member(input, "mode"@) {
        None => Ok(ModeModel::Text),
        Some(s) => if s.len() == 0 || s == "text"@ {
            Ok(ModeModel::Text)
        } else if s == "html"@ {
            Ok(ModeModel::Html)
        } else if has_prefix(s, "attr:"@) {
            Ok(ModeModel::Attr(s.skip(5)))
        } else {
            Err("unknown read mode "@ + debugged(s))
        },
    }
}

fn parse_mode(input: &Json) -> (r: Result<ReadMode, String>)
    ensures
        match r {
            Ok(m) => call_mode(input@) == Ok::<_, Seq<char>>(m@),
            Err(e) => call_mode(input@) == Err::<ModeModel, _>(e@),
        },
{
    let s = match input.get_str("mode") {
        Some(s) => s,
        None => {
            return Ok(ReadMode::Text);
        },
    };
    proof {
        reveal_strlit("attr:");
    }
    if s.is_empty() || same(s, "text") {
        Ok(ReadMode::Text)
    } else if same(s, "html") {
        Ok(ReadMode::Html)
    } else if let Some(name) = strip_prefix(s, "attr:") {
        Ok(ReadMode::Attr(name.to_owned()))
    } else {
        let mut m = "unknown read mode ".to_owned();
        m.append(debug_text(s).as_str());
        Err(m)
    }
}

/// What a call of a tool asks the session to do.
pub enum ToolPlan {
    Click(Target),
    Fill(Target, String),
    Submit(Target),
    ClickText(String),
    SelectOption(Target, String),
    PressKey(Target, String),
    Goto(String),
    Read(Target, ReadMode),
    WaitFor(String, u64),
    WaitForText(String, u64),
    Back,
    /// Nothing: the task is done, with this answer.
    Done(String),
}

/// The text of a [`ToolPlan`].
pub enum PlanModel {
    Click(TargetModel),
    Fill(TargetModel, Seq<char>),
    Submit(TargetModel),
    ClickText(Seq<char>),
    SelectOption(TargetModel, Seq<char>),
    PressKey(TargetModel, Seq<char>),
    Goto(Seq<char>),
    Read(TargetModel, ModeModel),
    WaitFor(Seq<char>, u64),
    WaitForText(Seq<char>, u64),
    Back,
    Done(Seq<char>),
}

impl View for ToolPlan {
    type V = PlanModel;

    open spec fn view(&self) -> PlanModel {
        match *self {
            ToolPlan::Click(t) => PlanModel::Click(t@),
            ToolPlan::Fill(t, v) => PlanModel::Fill(t@, v@),
            ToolPlan::Submit(t) => PlanModel::Submit(t@),
            ToolPlan::ClickText(s) => PlanModel::ClickText(s@),
            ToolPlan::SelectOption(t, v) => PlanModel::SelectOption(t@, v@),
            ToolPlan::PressKey(t, k) => PlanModel::PressKey(t@, k@),
            ToolPlan::Goto(u) => PlanModel::Goto(u@),
            ToolPlan::Read(t, m) => PlanModel::Read(t@, m@),
            ToolPlan::WaitFor(s, ms) => PlanModel::WaitFor(s@, ms),
            ToolPlan::WaitForText(s, ms) => PlanModel::WaitForText(s@, ms),
            ToolPlan::Back => PlanModel::Back,
            ToolPlan::Done(a) => PlanModel::Done(a@),
        }
    }
}

pub open spec fn no_target() -> Seq<char> {
    "missing selector or index in tool args"@
}

pub open spec fn no_field(key: Seq<char>) -> Seq<char> {
    "missing string field "@ + debugged(key)
}

/// A plan on a target alone.
pub open spec fn on_target(
    input: JsonModel,
    f: spec_fn(TargetModel) -> PlanModel,
) -> Result<PlanModel, Seq<char>> {
    match call_target(input) {
        Some(t) => Ok(f(t)),
        None => Err(no_target()),
    }
}

/// A plan on a target with a text.
pub open spec fn on_target_with(
    input: JsonModel,
    key: Seq<char>,
    f: spec_fn(TargetModel, Seq<char>) -> PlanModel,
) -> Result<PlanModel, Seq<char>> {
    match call_target(input) {
        Some(t) => match text_member(input, key) {
            Some(v) => Ok(f(t, v)),
            None => Err(no_field(key)),
        },
        None => Err(no_target()),
    }
}

/// A plan with a text alone.
pub open spec fn with_text(
    input: JsonModel,
    key: Seq<char>,
    f: spec_fn(Seq<char>) -> PlanModel,
) -> Result<PlanModel, Seq<char>> {
    match text_member(input, key) {
        Some(v) => Ok(f(v)),
        None => Err(no_field(key)),
    }
}

/// What a call of a tool asks for, or why it cannot be understood.
pub open spec fn tool_plan(name: Seq<char>, input: JsonModel) -> Result<PlanModel, Seq<char>> {
    if name == "click"@ {
        on_target(input, |t: TargetModel| PlanModel::Click(t))
    } else if name == "fill"@ {
        on_target_with(input, "value"@, |t: TargetModel, v: Seq<char>| PlanModel::Fill(t, v))
    } else if name == "submit"@ {
        on_target(input, |t: TargetModel| PlanModel::Submit(t))
    } else if name == "click_text"@ {
        with_text(input, "text"@, |s: Seq<char>| PlanModel::ClickText(s))
    } else if name == "select_option"@ {
        on_target_with(
            input,
            "value"@,
            |t: TargetModel, v: Seq<char>| PlanModel::SelectOption(t, v),
        )
    } else if name == "press_key"@ {
        on_target_with(input, "key"@, |t: TargetModel, k: Seq<char>| PlanModel::PressKey(t, k))
    } else if name == "goto"@ {
        with_text(input, "url"@, |s: Seq<char>| PlanModel::Goto(s))
    } else if name == "read"@ {
        match call_target(input) {
            Some(t) => match call_mode(input) {
                Ok(m) => Ok(PlanModel::Read(t, m)),
                Err(e) => Err(e),
            },
            None => Err(no_target()),
        }
    } else if name == "wait_for"@ {
        let ms: u64 = match unsigned_member(input, "timeout_ms"@) {
            Some(n) => n,
            None => 5000,
        };
        match (text_member(input, "selector"@), text_member(input, "text"@)) {
            (Some(s), None) => Ok(PlanModel::WaitFor(s, ms)),
            (None, Some(t)) => Ok(PlanModel::WaitForText(t, ms)),
            _ => Err("wait_for requires exactly one of selector / text"@),
        }
    } else if name == "back"@ {
        Ok(PlanModel::Back)
    } else if name == "done"@ {
        with_text(input, "answer"@, |s: Seq<char>| PlanModel::Done(s))
    } else {
        Err("unknown tool "@ + debugged(name))
    }
}

pub open spec fn plan_view(r: Result<ToolPlan, String>) -> Result<PlanModel, Seq<char>> {
    match r {
        Ok(p) => Ok(p@),
        Err(e) => Err(e@),
    }
}

fn target_and(input: &Json, key: &str) -> (r: Result<(Target, String), String>)
    ensures
        match r {
            Ok((t, s)) => call_target(input@) == Some(t@) && text_member(input@, key@) == Some(s@),
            Err(e) => if call_target(input@) is None {
                e@ == no_target()
            } else {
                text_member(input@, key@) is None && e@ == no_field(key@)
            },
        },
{
    match parse_target(input) {
        Ok(t) => match string_field(input, key) {
            Ok(s) => Ok((t, s)),
            Err(e) => Err(e),
        },
        Err(e) => Err(e),
    }
}

/// Decides what a call of a tool asks for.
pub fn plan_tool(name: &str, input: &Json) -> (r: Result<ToolPlan, String>)
    ensures
        plan_view(r) == tool_plan(name@, input@),
{
    if same(name, "click") {
        match parse_target(input) {
            Ok(t) => Ok(ToolPlan::Click(t)),
            Err(e) => Err(e),
        }
    } else if same(name, "fill") {
        match target_and(input, "value") {
            Ok((t, v)) => Ok(ToolPlan::Fill(t, v)),
            Err(e) => Err(e),
        }
    } else if same(name, "submit") {
        match parse_target(input) {
            Ok(t) => Ok(ToolPlan::Submit(t)),
            Err(e) => Err(e),
        }
    } else if same(name, "click_text") {
        match string_field(input, "text") {
            Ok(s) => Ok(ToolPlan::ClickText(s)),
            Err(e) => Err(e),
        }
    } else if same(name, "select_option") {
        match target_and(input, "value") {
            Ok((t, v)) => Ok(ToolPlan::SelectOption(t, v)),
            Err(e) => Err(e),
        }
    } else if same(name, "press_key") {
        match target_and(input, "key") {
            Ok((t, k)) => Ok(ToolPlan::PressKey(t, k)),
            Err(e) => Err(e),
        }
    } else if same(name, "goto") {
        match string_field(input, "url") {
            Ok(s) => Ok(ToolPlan::Goto(s)),
            Err(e) => Err(e),
        }
    } else if same(name, "read") {
        match parse_target(input) {
            Ok(t) => match parse_mode(input) {
                Ok(m) => Ok(ToolPlan::Read(t, m)),
                Err(e) => Err(e),
            },
            Err(e) => Err(e),
        }
    } else if same(name, "wait_for") {
        let ms: u64 = match input.get_u64("timeout_ms") {
            Some(n) => n,
            None => 5000,
        };
        match (input.get_str("selector"), input.get_str("text")) {
            (Some(s), None) => Ok(ToolPlan::WaitFor(s.to_owned(), ms)),
            (None, Some(t)) => Ok(ToolPlan::WaitForText(t.to_owned(), ms)),
            _ => Err("wait_for requires exactly one of selector / text".to_owned()),
        }
    } else if same(name, "back") {
        Ok(ToolPlan::Back)
    } else if same(name, "done") {
        match string_field(input, "answer") {
            Ok(s) => Ok(ToolPlan::Done(s)),
            Err(e) => Err(e),
        }
    } else {
        let mut m = "unknown tool ".to_owned();
        m.append(debug_text(name).as_str());
        Err(m)
    }
}

// ---- results -------------------------------------------------------------------

/// What a call of a tool came to.
#[derive(Debug)]
pub enum DispatchOutcome {
    /// The call is done; the agent goes on.
    Continue { brief: String },
    /// The task is done.
    Done { answer: String },
}

/// The contents of a [`DispatchOutcome`].
pub enum OutcomeModel {
    Continue(Seq<char>),
    Done(Seq<char>),
}

impl View for DispatchOutcome {
    type V = OutcomeModel;

    open spec fn view(&self) -> OutcomeModel {
        match *self {
            DispatchOutcome::Continue { brief } => OutcomeModel::Continue(brief@),
            DispatchOutcome::Done { answer } => OutcomeModel::Done(answer@),
        }
    }
}

/// The most bytes of what is read that go back to the model.
pub const BRIEF_CAP: usize = 400;

/// A text, shortened where it is longer than the cap.
pub open spec fn brief_text(s: Seq<char>) -> Seq<char> {
    if byte_len(s) <= BRIEF_CAP {
        s
    } else {
        s.take(fitting(s, BRIEF_CAP as int)) + " […]"@
    }
}

pub fn truncate_for_brief(s: &str) -> (r: String)
    ensures
        r@ == brief_text(s@),
{
    let (n, whole) = byte_prefix(s, BRIEF_CAP);
    if whole {
        return s.to_owned();
    }
    assert(s@.subrange(0, n as int) =~= s@.take(n as int));
    let mut out = s.substring_char(0, n).to_owned();
    out.append(" […]");
    out
}

/// A shortened text takes at most the cap and the mark behind it.
pub proof fn brief_is_bounded(s: Seq<char>)
    ensures
        byte_len(brief_text(s)) <= BRIEF_CAP + 6,
{
    if byte_len(s) > BRIEF_CAP {
        fitting_fits(s, BRIEF_CAP as int);
        byte_len_concat(s.take(fitting(s, BRIEF_CAP as int)), " […]"@);
        reveal_strlit(" […]");
        let m = " […]"@;
        assert(m =~= seq![' ', '[', '…', ']']);
        reveal_with_fuel(byte_len, 5);
        assert(m.skip(1).skip(1).skip(1).skip(1).len() == 0);
        assert(byte_len(m) == 6);
    }
}

/// The command that carries out a plan, where there is something to do.
pub open spec fn carries_out(p: PlanModel, c: Option<Command>) -> bool {
    match p {
        PlanModel::Click(t) => c matches Some(Command::ClickTarget { target }) && target@ == t,
        PlanModel::Fill(t, v) => c matches Some(Command::FillTarget { target, value }) && target@
            == t && value@ == v,
        PlanModel::Submit(t) => c matches Some(Command::SubmitTarget { target }) && target@ == t,
        PlanModel::ClickText(s) => c matches Some(Command::ClickText { text }) && text@ == s,
        PlanModel::SelectOption(t, v) => c matches Some(Command::SelectOption { target, value })
            && target@ == t && value@ == v,
        PlanModel::PressKey(t, k) => c matches Some(Command::PressKey { target, key }) && target@
            == t && key@ == k,
        PlanModel::Goto(u) => c matches Some(Command::Goto { url }) && url@ == u,
        PlanModel::Read(t, m) => c matches Some(Command::ReadTarget { target, mode }) && target@
            == t && mode@ == m,
        PlanModel::WaitFor(s, ms) => c matches Some(Command::WaitFor { selector, timeout_ms })
            && selector@ == s && timeout_ms == ms,
        PlanModel::WaitForText(s, ms) => c matches Some(Command::WaitForText { needle, timeout_ms })
            && needle@ == s && timeout_ms == ms,
        PlanModel::Back => c == Some(Command::Back),
        PlanModel::Done(_) => c is None,
    }
}

fn copy_target(t: &Target) -> (r: Target)
    ensures
        r@ == t@,
{
    match t {
        Target::Selector(s) => Target::Selector(s.clone()),
        Target::Index(i) => Target::Index(*i),
    }
}

fn copy_mode(m: &ReadMode) -> (r: ReadMode)
    ensures
        r@ == m@,
{
    match m {
        ReadMode::Text => ReadMode::Text,
        ReadMode::Html => ReadMode::Html,
        ReadMode::Attr(name) => ReadMode::Attr(name.clone()),
    }
}

impl ToolPlan {
    /// The command that carries out the plan; none where the task is done.
    pub fn command(&self) -> (r: Option<Command>)
        ensures
            carries_out(self@, r),
    {
        Some(
            match self {
                ToolPlan::Click(t) => Command::ClickTarget { target: copy_target(t) },
                ToolPlan::Fill(t, v) => Command::FillTarget {
                    target: copy_target(t),
                    value: v.clone(),
                },
                ToolPlan::Submit(t) => Command::SubmitTarget { target: copy_target(t) },
                ToolPlan::ClickText(s) => Command::ClickText { text: s.clone() },
                ToolPlan::SelectOption(t, v) => Command::SelectOption {
                    target: copy_target(t),
                    value: v.clone(),
                },
                ToolPlan::PressKey(t, k) => Command::PressKey {
                    target: copy_target(t),
                    key: k.clone(),
                },
                ToolPlan::Goto(u) => Command::Goto { url: u.clone() },
                ToolPlan::Read(t, m) => Command::ReadTarget {
                    target: copy_target(t),
                    mode: copy_mode(m),
                },
                ToolPlan::WaitFor(s, ms) => Command::WaitFor {
                    selector: s.clone(),
                    timeout_ms: *ms,
                },
                ToolPlan::WaitForText(s, ms) => Command::WaitForText {
                    needle: s.clone(),
                    timeout_ms: *ms,
                },
                ToolPlan::Back => Command::Back,
                ToolPlan::Done(_) => {
                    return None;
                },
            },
        )
    }
}

/// What goes back to the model once the session has done what a plan asked for;
/// `matches` is what was read, for a plan that reads.
pub open spec fn plan_brief(p: PlanModel, matches: Seq<Seq<char>>) -> Seq<char> {
    match p {
        PlanModel::Click(_) => "click ok"@,
        PlanModel::Fill(_, v) => "fill ok ("@ + decimal(v.len()) + " chars)"@,
        PlanModel::Submit(_) => "submit ok"@,
        PlanModel::ClickText(s) => "click_text ok ("@ + debugged(s) + ")"@,
        PlanModel::SelectOption(_, _) => "select_option ok"@,
        PlanModel::PressKey(_, k) => "press_key ok ("@ + k + ")"@,
        PlanModel::Goto(u) => "goto "@ + u,
        PlanModel::Read(_, _) => "read returned "@ + decimal(matches.len()) + " match(es): "@
            + brief_text(joined(matches, "\n"@)),
        PlanModel::WaitFor(_, _) => "wait_for ok"@,
        PlanModel::WaitForText(_, _) => "wait_for ok"@,
        PlanModel::Back => "back ok"@,
        PlanModel::Done(a) => a,
    }
}

/// The outcome of a plan that the session has carried out.
pub fn plan_outcome(plan: &ToolPlan, matches: &Vec<String>) -> (r: DispatchOutcome)
    ensures
        r@ == (match plan@ {
            PlanModel::Done(a) => OutcomeModel::Done(a),
            p => OutcomeModel::Continue(plan_brief(p, views(matches@))),
        }),
{
    let mut s = String::new();
    match plan {
        ToolPlan::Click(_) => s = "click ok".to_owned(),
        ToolPlan::Fill(_, v) => {
            s = "fill ok (".to_owned();
            push_decimal(&mut s, v.as_str().unicode_len() as u64);
            s.append(" chars)");
        },
        ToolPlan::Submit(_) => s = "submit ok".to_owned(),
        ToolPlan::ClickText(t) => {
            s = "click_text ok (".to_owned();
            s.append(debug_text(t.as_str()).as_str());
            s.append(")");
        },
        ToolPlan::SelectOption(_, _) => s = "select_option ok".to_owned(),
        ToolPlan::PressKey(_, k) => {
            s = "press_key ok (".to_owned();
            s.append(k.as_str());
            s.append(")");
        },
        ToolPlan::Goto(u) => {
            s = "goto ".to_owned();
            s.append(u.as_str());
        },
        ToolPlan::Read(_, _) => {
            s = "read returned ".to_owned();
            push_decimal(&mut s, matches.len() as u64);
            s.append(" match(es): ");
            s.append(truncate_for_brief(join(matches, "\n").as_str()).as_str());
        },
        ToolPlan::WaitFor(_, _) => s = "wait_for ok".to_owned(),
        ToolPlan::WaitForText(_, _) => s = "wait_for ok".to_owned(),
        ToolPlan::Back => s = "back ok".to_owned(),
        ToolPlan::Done(a) => {
            return DispatchOutcome::Done { answer: a.clone() };
        },
    }
    DispatchOutcome::Continue { brief: s }
}

/// The name that a tool's description gives.
pub open spec fn tool_name(tool: JsonModel) -> Option<Seq<char>> {
    text_member(tool, "name"@)
}

/// Whether a tool of this name is offered to the model.
pub open spec fn offered(name: Seq<char>) -> bool {
    exists|i: int|
        0 <= i < tool_models().len() && tool_name(#[trigger] tool_models()[i]) == Some(name)
}

proof fn named(name: Seq<char>, d: Seq<char>, p: Seq<(Seq<char>, Seq<char>)>, r: Seq<Seq<char>>)
    ensures
        tool_name(tool_model(name, d, p, r)) == Some(name),
{
    assert(tool_model(name, d, p, r)->Object_0[0] == ("name"@, JsonModel::Text(name)));
}

/// A call of a tool that is not offered to the model is refused.
pub proof fn other_tools_are_refused(name: Seq<char>, input: JsonModel)
    requires
        !offered(name),
    ensures
        tool_plan(name, input) == Err::<PlanModel, Seq<char>>("unknown tool "@ + debugged(name)),
{
    let t = tool_models();
    assert forall|n: Seq<char>, d: Seq<char>, p: Seq<(Seq<char>, Seq<char>)>, r: Seq<Seq<char>>|
        tool_name(#[trigger] tool_model(n, d, p, r)) == Some(n) by {
        named(n, d, p, r);
    }
    assert(tool_name(t[0]) == Some("click"@));
    assert(tool_name(t[1]) == Some("fill"@));
    assert(tool_name(t[2]) == Some("submit"@));
    assert(tool_name(t[3]) == Some("click_text"@));
    assert(tool_name(t[4]) == Some("select_option"@));
    assert(tool_name(t[5]) == Some("press_key"@));
    assert(tool_name(t[6]) == Some("goto"@));
    assert(tool_name(t[7]) == Some("read"@));
    assert(tool_name(t[8]) == Some("wait_for"@));
    assert(tool_name(t[9]) == Some("back"@));
    assert(tool_name(t[10]) == Some("done"@));
}

/// A call of an offered tool is understood when it brings the arguments that the
/// tool asks for.
pub proof fn offered_tools_are_understood(input: JsonModel)
    ensures
        call_target(input) is Some ==> {
            &&& tool_plan("click"@, input) is Ok
            &&& tool_plan("submit"@, input) is Ok
            &&& text_member(input, "mode"@) is None ==> tool_plan("read"@, input) is Ok
            &&& text_member(input, "value"@) is Some ==> tool_plan("fill"@, input) is Ok
            &&& text_member(input, "value"@) is Some ==> tool_plan("select_option"@, input) is Ok
            &&& text_member(input, "key"@) is Some ==> tool_plan("press_key"@, input) is Ok
        },
        text_member(input, "text"@) is Some ==> tool_plan("click_text"@, input) is Ok,
        text_member(input, "url"@) is Some ==> tool_plan("goto"@, input) is Ok,
        text_member(input, "selector"@) is Some != text_member(input, "text"@) is Some
            ==> tool_plan("wait_for"@, input) is Ok,
        tool_plan("back"@, input) is Ok,
        text_member(input, "answer"@) is Some ==> tool_plan("done"@, input) is Ok,
{
    reveal_strlit("click");
    reveal_strlit("fill");
    reveal_strlit("submit");
    reveal_strlit("click_text");
    reveal_strlit("select_option");
    reveal_strlit("press_key");
    reveal_strlit("goto");
    reveal_strlit("read");
    reveal_strlit("wait_for");
    reveal_strlit("back");
    reveal_strlit("done");
    assert("fill"@[0] == 'f' && "goto"@[0] == 'g' && "read"@[0] == 'r' && "back"@[0] == 'b'
        && "done"@[0] == 'd');
    assert("click"@.len() == 5 && "submit"@.len() == 6 && "click_text"@.len() == 10
        && "select_option"@.len() == 13 && "press_key"@.len() == 9 && "wait_for"@.len() == 8);
    assert("fill"@.len() == 4 && "goto"@.len() == 4 && "read"@.len() == 4 && "back"@.len() == 4
        && "done"@.len() == 4);
}

} // verus!
