//! The conversation with a model, and the form it has on the wire.
use crate::fetch::client::{FetchRequest, RequestModel};
use crate::json::{
    json_in_bytes, json_text, json_views, member, parse_bytes, text_member, Json, JsonModel,
};
use crate::text::{from_utf8_lossy, same, utf8_lossy};
use crate::webarena::trajectory::{CallModel, ToolCall};
use vstd::prelude::*;
use vstd::string::*;
use vstd::utf8::*;

verus! {

/// A part of a message: a text, a call that the model makes, or what came of one.
#[derive(Debug)]
pub enum Block {
    Text { text: String },
    ToolUse { id: String, call: ToolCall },
    ToolResult { tool_use_id: String, content: String, is_error: bool },
}

/// The contents of a [`Block`].
#[verifier::ext_equal]
pub enum BlockModel {
    Text(Seq<char>),
    ToolUse(Seq<char>, CallModel),
    ToolResult(Seq<char>, Seq<char>, bool),
}

impl View for Block {
    type V = BlockModel;

    open spec fn view(&self) -> BlockModel {
        match *self {
            Block::Text { text } => BlockModel::Text(text@),
            Block::ToolUse { id, call } => BlockModel::ToolUse(id@, call@),
            Block::ToolResult { tool_use_id, content, is_error } => BlockModel::ToolResult(
                tool_use_id@,
                content@,
                is_error,
            ),
        }
    }
}

pub open spec fn block_views(s: Seq<Block>) -> Seq<BlockModel> {
    s.map_values(|b: Block| b@)
}

#[derive(Clone, Copy, Debug, PartialEq, Eq, Structural)]
pub enum Role {
    User,
    Assistant,
}

#[derive(Debug)]
pub struct Message {
    pub role: Role,
    pub content: Vec<Block>,
}

/// The contents of a [`Message`].
#[verifier::ext_equal]
pub struct MessageModel {
    pub role: Role,
    pub content: Seq<BlockModel>,
}

impl View for Message {
    type V = MessageModel;

    open spec fn view(&self) -> MessageModel {
        MessageModel { role: self.role, content: block_views(self.content@) }
    }
}

pub open spec fn message_views(s: Seq<Message>) -> Seq<MessageModel> {
    s.map_values(|m: Message| m@)
}

/// What the model says in one turn: a text, and the calls that it makes, each
/// with the id under which it wants the result.
#[derive(Debug)]
pub struct AssistantTurn {
    pub text: String,
    pub calls: Vec<(String, ToolCall)>,
}

/// The contents of an [`AssistantTurn`].
#[verifier::ext_equal]
pub struct TurnModel {
    pub text: Seq<char>,
    pub calls: Seq<(Seq<char>, CallModel)>,
}

pub open spec fn call_views(s: Seq<(String, ToolCall)>) -> Seq<(Seq<char>, CallModel)> {
    s.map_values(|p: (String, ToolCall)| (p.0@, p.1@))
}

impl View for AssistantTurn {
    type V = TurnModel;

    open spec fn view(&self) -> TurnModel {
        TurnModel { text: self.text@, calls: call_views(self.calls@) }
    }
}

// ---- scripted turns ------------------------------------------------------------

/// A client that gives turns which were written down before.
pub struct ScriptedClient {
    turns: Vec<AssistantTurn>,
}

impl ScriptedClient {
    pub closed spec fn turns(&self) -> Seq<AssistantTurn> {
        self.turns@
    }

    pub fn new(turns: Vec<AssistantTurn>) -> (r: ScriptedClient)
        ensures
            r.turns() == turns@,
    {
        ScriptedClient { turns }
    }

    /// Gives the next turn.
    pub fn next_turn(&mut self) -> (r: Result<AssistantTurn, String>)
        ensures
            match r {
                Ok(t) => old(self).turns().len() > 0 && t == old(self).turns()[0]
                    && final(self).turns() == old(self).turns().skip(1),
                Err(e) => old(self).turns().len() == 0 && final(self).turns() == old(self).turns()
                    && e@ == "scripted client ran out of turns"@,
            },
    {
        if self.turns.len() == 0 {
            return Err("scripted client ran out of turns".to_owned());
        }
        let ghost before = self.turns@;
        let t = self.turns.remove(0);
        assert(self.turns@ =~= before.skip(1));
        Ok(t)
    }
}

// ---- the wire ------------------------------------------------------------------

/// A client of the Messages API.
#[derive(Debug)]
pub struct AnthropicClient {
    pub api_key: String,
    pub model: String,
    pub max_tokens: u32,
    pub endpoint: String,
}

impl AnthropicClient {
    /// A client with the key that the environment holds under `ANTHROPIC_API_KEY`.
    pub fn from_env(key: Option<String>, model: &str) -> (r: Result<AnthropicClient, String>)
        ensures
            match r {
                Ok(c) => key is Some && key->0@.len() > 0 && c.api_key@ == key->0@ && c.model@
                    == model@ && c.max_tokens == 4096 && c.endpoint@
                    == "https://api.anthropic.com/v1/messages"@,
                Err(e) => if key is None {
                    e@ == "ANTHROPIC_API_KEY not set"@
                } else {
                    key->0@.len() == 0 && e@ == "ANTHROPIC_API_KEY is empty"@
                },
            },
    {
        match key {
            None => Err("ANTHROPIC_API_KEY not set".to_owned()),
            Some(api_key) => if api_key.as_str().is_empty() {
                Err("ANTHROPIC_API_KEY is empty".to_owned())
            } else {
                Ok(
                    AnthropicClient {
                        api_key,
                        model: model.to_owned(),
                        max_tokens: 4096,
                        endpoint: "https://api.anthropic.com/v1/messages".to_owned(),
                    },
                )
            },
        }
    }

    /// The body of the request for the next turn.
    pub fn request_body(&self, system: &str, messages: &Vec<Message>, tools: &Vec<Json>) -> (r:
        Json)
        ensures
            r@ == request_json(
                self.model@,
                self.max_tokens,
                system@,
                message_views(messages@),
                json_views(tools@),
            ),
    {
        let ghost all = message_views(messages@);
        let ghost want = all.map_values(|m: MessageModel| message_json(m));
        let mut list: Vec<Json> = Vec::new();
        let mut i: usize = 0;
        while i < messages.len()
            invariant
                i <= messages@.len(),
                all == message_views(messages@),
                want == all.map_values(|m: MessageModel| message_json(m)),
                json_views(list@) == want.take(i as int),
            decreases messages@.len() - i,
        {
            let ghost prior = list@;
            let j = message_to_api(&messages[i]);
            list.push(j);
            assert(json_views(list@) =~= json_views(prior).push(j@));
            assert(want.take(i + 1) =~= want.take(i as int).push(want[i as int]));
            i = i + 1;
        }
        assert(want.take(i as int) =~= want);
        let mut offered: Vec<Json> = Vec::new();
        let ghost models = json_views(tools@);
        let mut k: usize = 0;
        while k < tools.len()
            invariant
                k <= tools@.len(),
                models == json_views(tools@),
                json_views(offered@) == models.take(k as int),
            decreases tools@.len() - k,
        {
            let ghost prior = offered@;
            let j = tools[k].copy();
            offered.push(j);
            assert(json_views(offered@) =~= json_views(prior).push(j@));
            assert(models.take(k + 1) =~= models.take(k as int).push(models[k as int]));
            k = k + 1;
        }
        assert(models.take(k as int) =~= models);
        let mut members: Vec<(String, Json)> = Vec::new();
        members.push(("model".to_owned(), Json::text(self.model.as_str())));
        members.push(("max_tokens".to_owned(), Json::Unsigned(self.max_tokens as u64)));
        members.push(("system".to_owned(), Json::text(system)));
        members.push(("tools".to_owned(), Json::array(offered)));
        members.push(("messages".to_owned(), Json::array(list)));
        let r = Json::object(members);
        assert(r@->Object_0 =~= request_json(
            self.model@,
            self.max_tokens,
            system@,
            all,
            models,
        )->Object_0);
        r
    }
}

impl AnthropicClient {
    /// The request for the next turn.
    pub fn request(&self, system: &str, messages: &Vec<Message>, tools: &Vec<Json>) -> (r:
        FetchRequest)
        ensures
            r@ == (RequestModel {
                url: self.endpoint@,
                method: "POST"@,
                headers: seq![
                    ("content-type"@, "application/json"@),
                    ("x-api-key"@, self.api_key@),
                    ("anthropic-version"@, "2023-06-01"@),
                ],
                body: encode_utf8(
                    json_text(
                        request_json(
                            self.model@,
                            self.max_tokens,
                            system@,
                            message_views(messages@),
                            json_views(tools@),
                        ),
                    ),
                ),
            }),
    {
        let body = self.request_body(system, messages, tools).to_text();
        let r = FetchRequest::new(self.endpoint.as_str())
            .method("POST")
            .header("content-type", "application/json")
            .header("x-api-key", self.api_key.as_str())
            .header("anthropic-version", "2023-06-01")
            .body_str(body.as_str());
        assert(r@.headers =~= seq![
            ("content-type"@, "application/json"@),
            ("x-api-key"@, self.api_key@),
            ("anthropic-version"@, "2023-06-01"@),
        ]);
        r
    }
}

/// A block as the Messages API has it.
pub open spec fn block_json(b: BlockModel) -> JsonModel {
    JsonModel::Object(
        match b {
            BlockModel::Text(text) => seq![
                ("type"@, JsonModel::Text("text"@)),
                ("text"@, JsonModel::Text(text)),
            ],
            BlockModel::ToolUse(id, call) => seq![
                ("type"@, JsonModel::Text("tool_use"@)),
                ("id"@, JsonModel::Text(id)),
                ("name"@, JsonModel::Text(call.name)),
                ("input"@, call.input),
            ],
            BlockModel::ToolResult(id, content, is_error) => seq![
                ("type"@, JsonModel::Text("tool_result"@)),
                ("tool_use_id"@, JsonModel::Text(id)),
                ("content"@, JsonModel::Text(content)),
                ("is_error"@, JsonModel::Bool(is_error)),
            ],
        },
    )
}

pub open spec fn role_text(r: Role) -> Seq<char> {
    match r {
        Role::User => "user"@,
        Role::Assistant => "assistant"@,
    }
}

/// A message as the Messages API has it.
pub open spec fn message_json(m: MessageModel) -> JsonModel {
    JsonModel::Object(
        seq![
            ("role"@, JsonModel::Text(role_text(m.role))),
            (
                "content"@,
                JsonModel::Array(m.content.map_values(|b: BlockModel| block_json(b))),
            ),
        ],
    )
}

/// The request for the next turn.
pub open spec fn request_json(
    model: Seq<char>,
    max_tokens: u32,
    system: Seq<char>,
    messages: Seq<MessageModel>,
    tools: Seq<JsonModel>,
) -> JsonModel {
    JsonModel::Object(
        seq![
            ("model"@, JsonModel::Text(model)),
            ("max_tokens"@, JsonModel::Unsigned(max_tokens as u64)),
            ("system"@, JsonModel::Text(system)),
            ("tools"@, JsonModel::Array(tools)),
            (
                "messages"@,
                JsonModel::Array(messages.map_values(|m: MessageModel| message_json(m))),
            ),
        ],
    )
}

pub fn block_to_api(b: &Block) -> (r: Json)
    ensures
        r@ == block_json(b@),
{
    let mut m: Vec<(String, Json)> = Vec::new();
    match b {
        Block::Text { text } => {
            m.push(("type".to_owned(), Json::text("text")));
            m.push(("text".to_owned(), Json::text(text.as_str())));
        },
        Block::ToolUse { id, call } => {
            m.push(("type".to_owned(), Json::text("tool_use")));
            m.push(("id".to_owned(), Json::text(id.as_str())));
            m.push(("name".to_owned(), Json::text(call.name.as_str())));
            m.push(("input".to_owned(), call.input.copy()));
        },
        Block::ToolResult { tool_use_id, content, is_error } => {
            m.push(("type".to_owned(), Json::text("tool_result")));
            m.push(("tool_use_id".to_owned(), Json::text(tool_use_id.as_str())));
            m.push(("content".to_owned(), Json::text(content.as_str())));
            m.push(("is_error".to_owned(), Json::Bool(*is_error)));
        },
    }
    let r = Json::object(m);
    assert(r@->Object_0 =~= block_json(b@)->Object_0);
    r
}

pub fn message_to_api(m: &Message) -> (r: Json)
    ensures
        r@ == message_json(m@),
{
    let role = match m.role {
        Role::User => "user",
        Role::Assistant => "assistant",
    };
    let ghost all = block_views(m.content@);
    let ghost want = all.map_values(|b: BlockModel| block_json(b));
    let mut list: Vec<Json> = Vec::new();
    let mut i: usize = 0;
    while i < m.content.len()
        invariant
            i <= m.content@.len(),
            all == block_views(m.content@),
            want == all.map_values(|b: BlockModel| block_json(b)),
            json_views(list@) == want.take(i as int),
        decreases m.content@.len() - i,
    {
        let ghost prior = list@;
        let j = block_to_api(&m.content[i]);
        list.push(j);
        assert(json_views(list@) =~= json_views(prior).push(j@));
        assert(want.take(i + 1) =~= want.take(i as int).push(want[i as int]));
        i = i + 1;
    }
    assert(want.take(i as int) =~= want);
    let mut members: Vec<(String, Json)> = Vec::new();
    members.push(("role".to_owned(), Json::text(role)));
    members.push(("content".to_owned(), Json::array(list)));
    let r = Json::object(members);
    assert(r@->Object_0 =~= message_json(m@)->Object_0);
    r
}

/// What a block of a reply adds to a turn, or what it lacks.
pub open spec fn with_block(t: TurnModel, b: JsonModel) -> Result<TurnModel, Seq<char>> {
    if text_member(b, "type"@) == Some("text"@) {
        match text_member(b, "text"@) {
            Some(s) => Ok(
                TurnModel {
                    text: if t.text.len() > 0 {
                        t.text + "\n"@ + s
                    } else {
                        s
                    },
                    ..t
                },
            ),
            None => Ok(t),
        }
    } else if text_member(b, "type"@) == Some("tool_use"@) {
        match (text_member(b, "id"@), text_member(b, "name"@)) {
            (None, _) => Err("tool_use missing id"@),
            (_, None) => Err("tool_use missing name"@),
            (Some(id), Some(name)) => Ok(
                TurnModel {
                    calls: t.calls.push(
                        (
                            id,
                            CallModel {
                                name,
                                input: match member(b, "input"@) {
                                    Some(j) => j,
                                    None => JsonModel::Null,
                                },
                            },
                        ),
                    ),
                    ..t
                },
            ),
        }
    } else {
        Ok(t)
    }
}

/// The turn that the blocks of a reply make up, from the first to the last.
pub open spec fn turn_of(blocks: Seq<JsonModel>) -> Result<TurnModel, Seq<char>>
    decreases blocks.len(),
{
    if blocks.len() == 0 {
        Ok(TurnModel { text: seq![], calls: seq![] })
    } else {
        match turn_of(blocks.drop_last()) {
            Ok(t) => with_block(t, blocks.last()),
            Err(e) => Err(e),
        }
    }
}

/// The turn in a reply of the Messages API, or what is wrong with the reply.
pub open spec fn turn_in(response: JsonModel) -> Result<TurnModel, Seq<char>> {
    match member(response, "content"@) {
        Some(JsonModel::Array(blocks)) => turn_of(blocks),
        _ => Err("response missing content array: "@ + json_text(response)),
    }
}

pub open spec fn turn_view(r: Result<AssistantTurn, String>) -> Result<TurnModel, Seq<char>> {
    match r {
        Ok(t) => Ok(t@),
        Err(e) => Err(e@),
    }
}

proof fn turn_stays_wrong(blocks: Seq<JsonModel>, n: int)
    requires
        0 <= n <= blocks.len(),
        turn_of(blocks.take(n)) is Err,
    ensures
        turn_of(blocks) == turn_of(blocks.take(n)),
    decreases blocks.len() - n,
{
    if n == blocks.len() {
        assert(blocks.take(n) =~= blocks);
    } else {
        assert(blocks.take(n + 1).drop_last() =~= blocks.take(n));
        turn_stays_wrong(blocks, n + 1);
    }
}

pub fn parse_assistant_turn(response: &Json) -> (r: Result<AssistantTurn, String>)
    ensures
        turn_view(r) == turn_in(response@),
{
    let content = match response.get("content") {
        Some(j) => j.as_array(),
        None => None,
    };
    let blocks = match content {
        Some(v) => v,
        None => {
            let mut m = "response missing content array: ".to_owned();
            m.append(response.to_text().as_str());
            return Err(m);
        },
    };
    let ghost all = json_views(blocks@);
    let mut text = String::new();
    let mut calls: Vec<(String, ToolCall)> = Vec::new();
    assert(text@ =~= seq![]);
    assert(call_views(calls@) =~= seq![]);
    let mut i: usize = 0;
    while i < blocks.len()
        invariant
            i <= blocks@.len(),
            all == json_views(blocks@),
            turn_in(response@) == turn_of(all),
            turn_of(all.take(i as int)) == Ok::<_, Seq<char>>(
                TurnModel { text: text@, calls: call_views(calls@) },
            ),
        decreases blocks@.len() - i,
    {
        let b = &blocks[i];
        let ghost t = TurnModel { text: text@, calls: call_views(calls@) };
        proof {
            assert(all.take(i + 1).drop_last() =~= all.take(i as int));
            assert(all.take(i + 1).last() == b@);
            assert(turn_of(all.take(i + 1)) == with_block(t, b@));
            if with_block(t, b@) is Err {
                turn_stays_wrong(all, i + 1);
            }
        }
        let kind = b.get_str("type");
        if kind.is_some() && same(kind.unwrap(), "text") {
            if let Some(s) = b.get_str("text") {
                if !text.as_str().is_empty() {
                    text.append("\n");
                }
                let ghost before = text@;
                text.append(s);
                assert(t.text.len() == 0 ==> text@ =~= s@);
            }
        } else if kind.is_some() && same(kind.unwrap(), "tool_use") {
            proof {
                reveal_strlit("text");
                reveal_strlit("tool_use");
            }
            let id = match b.get_str("id") {
                Some(s) => s.to_owned(),
                None => {
                    return Err("tool_use missing id".to_owned());
                },
            };
            let name = match b.get_str("name") {
                Some(s) => s.to_owned(),
                None => {
                    return Err("tool_use missing name".to_owned());
                },
            };
            let input = match b.get("input") {
                Some(j) => j.copy(),
                None => Json::Null,
            };
            let ghost prior = calls@;
            let call = ToolCall { name, input };
            let ghost entry = (id@, call@);
            calls.push((id, call));
            assert(call_views(calls@) =~= call_views(prior).push(entry));
        }
        i = i + 1;
    }
    assert(all.take(i as int) =~= all);
    Ok(AssistantTurn { text, calls })
}

/// What `http::StatusCode` writes for a status: the number and its usual name.
pub uninterp spec fn status_line(code: u16) -> Seq<char>;

/// Calls `http::StatusCode::from_u16` and `to_string`. The text depends on the
/// number alone.
#[verifier::external_body]
fn status_text(code: u16) -> (r: String)
    requires
        100 <= code < 1000,
    ensures
        r@ == status_line(code),
{
    match http::StatusCode::from_u16(code) {
        Ok(s) => s.to_string(),
        Err(_) => String::new(),
    }
}

/// The reply of the API to a request, or why there is none.
pub open spec fn reply_json(status: u16, body: Seq<u8>) -> Result<JsonModel, Seq<char>> {
    if 200 <= status < 300 {
        json_in_bytes(body)
    } else {
        Err("anthropic api "@ + status_line(status) + ": "@ + utf8_lossy(body))
    }
}

/// Reads the answer to a request.
pub fn read_reply(status: u16, body: &Vec<u8>) -> (r: Result<Json, String>)
    requires
        100 <= status < 1000,
    ensures
        match r {
            Ok(j) => reply_json(status, body@) == Ok::<_, Seq<char>>(j@),
            Err(e) => reply_json(status, body@) == Err::<JsonModel, _>(e@),
        },
{
    if status < 200 || status >= 300 {
        let mut m = "anthropic api ".to_owned();
        m.append(status_text(status).as_str());
        m.append(": ");
        m.append(from_utf8_lossy(body).as_str());
        return Err(m);
    }
    parse_bytes(body)
}

proof fn first_member(s: Seq<(Seq<char>, JsonModel)>, key: Seq<char>, i: int)
    requires
        0 <= i < s.len(),
        s[i].0 == key,
        forall|j: int| 0 <= j < i ==> (#[trigger] s[j]).0 != key,
    ensures
        member(JsonModel::Object(s), key) == Some(s[i].1),
    decreases i,
{
    if i > 0 {
        assert(s[0].0 != key);
        let rest = s.skip(1);
        assert forall|j: int| 0 <= j < i - 1 implies (#[trigger] rest[j]).0 != key by {
            assert(rest[j] == s[j + 1]);
        }
        first_member(rest, key, i - 1);
    }
}

/// A call that goes out on the wire is read back as the same call under the same id.
pub proof fn calls_read_back(id: Seq<char>, call: CallModel, t: TurnModel)
    ensures
        with_block(t, block_json(BlockModel::ToolUse(id, call))) == Ok::<TurnModel, Seq<char>>(
            TurnModel { calls: t.calls.push((id, call)), ..t },
        ),
{
    let j = block_json(BlockModel::ToolUse(id, call));
    let s = j->Object_0;
    reveal_strlit("type");
    reveal_strlit("id");
    reveal_strlit("name");
    reveal_strlit("input");
    reveal_strlit("text");
    reveal_strlit("tool_use");
    assert("type"@.len() == 4 && "id"@.len() == 2 && "name"@.len() == 4 && "input"@.len() == 5);
    assert("type"@[0] == 't' && "name"@[0] == 'n');
    assert("text"@.len() == 4 && "tool_use"@.len() == 8);
    first_member(s, "type"@, 0);
    first_member(s, "id"@, 1);
    first_member(s, "name"@, 2);
    first_member(s, "input"@, 3);
}

} // verus!
