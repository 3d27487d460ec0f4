//! JSON values, and the reader and writer of `serde_json`.
use crate::text::same;
use serde_json::Value;
use vstd::prelude::*;
use vstd::string::*;

pub mod laws;

verus! {

/// A JSON value.
#[derive(Debug)]
pub enum Json {
    Null,
    Bool(bool),
    /// A number that is not negative and has no fraction.
    Unsigned(u64),
    /// A negative number without a fraction.
    Negative(i64),
    /// Any other number, as it is written.
    Decimal(String),
    Text(String),
    Array(Vec<Json>),
    /// Keys and values, in order.
    Object(Vec<(String, Json)>),
}

/// The contents of a [`Json`].
#[verifier::ext_equal]
pub enum JsonModel {
    Null,
    Bool(bool),
    Unsigned(u64),
    Negative(i64),
    Decimal(Seq<char>),
    Text(Seq<char>),
    Array(Seq<JsonModel>),
    Object(Seq<(Seq<char>, JsonModel)>),
}

pub open spec fn json_view(j: Json) -> JsonModel
    decreases j,
{
    match j {
        Json::Null => JsonModel::Null,
        Json::Bool(b) => JsonModel::Bool(b),
        Json::Unsigned(n) => JsonModel::Unsigned(n),
        Json::Negative(n) => JsonModel::Negative(n),
        Json::Decimal(s) => JsonModel::Decimal(s@),
        Json::Text(s) => JsonModel::Text(s@),
        Json::Array(v) => JsonModel::Array(
            Seq::new(
                v@.len(),
                |i: int|
                    if 0 <= i < v@.len() {
                        json_view(v@[i])
                    } else {
                        JsonModel::Null
                    },
            ),
        ),
        Json::Object(v) => JsonModel::Object(
            Seq::new(
                v@.len(),
                |i: int|
                    if 0 <= i < v@.len() {
                        (v@[i].0@, json_view(v@[i].1))
                    } else {
                        (seq![], JsonModel::Null)
                    },
            ),
        ),
    }
}

impl View for Json {
    type V = JsonModel;

    open spec fn view(&self) -> JsonModel {
        json_view(*self)
    }
}

pub open spec fn json_views(v: Seq<Json>) -> Seq<JsonModel> {
    v.map_values(|j: Json| j@)
}

pub open spec fn member_views(v: Seq<(String, Json)>) -> Seq<(Seq<char>, JsonModel)> {
    v.map_values(|p: (String, Json)| (p.0@, p.1@))
}

/// The position of the first member with this key, or how many members there are.
pub open spec fn member_pos(s: Seq<(Seq<char>, JsonModel)>, key: Seq<char>) -> int
    decreases s.len(),
{
    if s.len() == 0 || s[0].0 == key {
        0
    } else {
        1 + member_pos(s.skip(1), key)
    }
}

/// The value under a key of an object; nothing has members but an object.
pub open spec fn member(j: JsonModel, key: Seq<char>) -> Option<JsonModel> {
    match j {
        JsonModel::Object(s) => {
            let k = member_pos(s, key);
            if 0 <= k < s.len() {
                Some(s[k].1)
            } else {
                None
            }
        },
        _ => None,
    }
}

/// The text under a key.
pub open spec fn text_member(j: JsonModel, key: Seq<char>) -> Option<Seq<char>> {
    match member(j, key) {
        Some(JsonModel::Text(s)) => Some(s),
        _ => None,
    }
}

/// The number under a key, where it is not negative and has no fraction.
pub open spec fn unsigned_member(j: JsonModel, key: Seq<char>) -> Option<u64> {
    match member(j, key) {
        Some(JsonModel::Unsigned(n)) => Some(n),
        _ => None,
    }
}

proof fn array_view(v: Vec<Json>)
    ensures
        Json::Array(v)@ == JsonModel::Array(json_views(v@)),
{
    assert(Json::Array(v)@->Array_0 =~= json_views(v@));
}

proof fn object_view(v: Vec<(String, Json)>)
    ensures
        Json::Object(v)@ == JsonModel::Object(member_views(v@)),
{
    assert(Json::Object(v)@->Object_0 =~= member_views(v@));
}

impl Json {
    pub fn text(s: &str) -> (r: Json)
        ensures
            r@ == JsonModel::Text(s@),
    {
        Json::Text(s.to_owned())
    }

    pub fn array(v: Vec<Json>) -> (r: Json)
        ensures
            r@ == JsonModel::Array(json_views(v@)),
    {
        proof {
            array_view(v);
        }
        Json::Array(v)
    }

    pub fn object(v: Vec<(String, Json)>) -> (r: Json)
        ensures
            r@ == JsonModel::Object(member_views(v@)),
    {
        proof {
            object_view(v);
        }
        Json::Object(v)
    }

    /// The value under a key.
    pub fn get(&self, key: &str) -> (r: Option<&Json>)
        ensures
            match r {
                Some(j) => member(self@, key@) == Some(j@),
                None => member(self@, key@) is None,
            },
    {
        match self {
            Json::Object(v) => {
                let ghost all = member_views(v@);
                proof {
                    object_view(*v);
                    assert(all.skip(0) =~= all);
                }
                let mut i: usize = 0;
                while i < v.len()
                    invariant
                        i <= v@.len(),
                        all == member_views(v@),
                        self@ == JsonModel::Object(all),
                        member_pos(all, key@) == i + member_pos(all.skip(i as int), key@),
                    decreases v@.len() - i,
                {
                    assert(all.skip(i as int)[0] == (v@[i as int].0@, v@[i as int].1@));
                    if same(v[i].0.as_str(), key) {
                        return Some(&v[i].1);
                    }
                    assert(all.skip(i as int).skip(1) =~= all.skip(i + 1));
                    i = i + 1;
                }
                None
            },
            _ => None,
        }
    }

    pub fn as_str(&self) -> (r: Option<&str>)
        ensures
            match r {
                Some(s) => self@ == JsonModel::Text(s@),
                None => !(self@ is Text),
            },
    {
        match self {
            Json::Text(s) => Some(s.as_str()),
            _ => None,
        }
    }

    pub fn as_u64(&self) -> (r: Option<u64>)
        ensures
            match r {
                Some(n) => self@ == JsonModel::Unsigned(n),
                None => !(self@ is Unsigned),
            },
    {
        match self {
            Json::Unsigned(n) => Some(*n),
            _ => None,
        }
    }

    pub fn as_bool(&self) -> (r: Option<bool>)
        ensures
            match r {
                Some(b) => self@ == JsonModel::Bool(b),
                None => !(self@ is Bool),
            },
    {
        match self {
            Json::Bool(b) => Some(*b),
            _ => None,
        }
    }

    pub fn as_array(&self) -> (r: Option<&Vec<Json>>)
        ensures
            match r {
                Some(v) => self@ == JsonModel::Array(json_views(v@)),
                None => !(self@ is Array),
            },
    {
        match self {
            Json::Array(v) => {
                proof {
                    array_view(*v);
                }
                Some(v)
            },
            _ => None,
        }
    }

    pub fn as_object(&self) -> (r: Option<&Vec<(String, Json)>>)
        ensures
            match r {
                Some(v) => self@ == JsonModel::Object(member_views(v@)),
                None => !(self@ is Object),
            },
    {
        match self {
            Json::Object(v) => {
                proof {
                    object_view(*v);
                }
                Some(v)
            },
            _ => None,
        }
    }

    /// The text under a key.
    pub fn get_str(&self, key: &str) -> (r: Option<&str>)
        ensures
            match r {
                Some(s) => text_member(self@, key@) == Some(s@),
                None => text_member(self@, key@) is None,
            },
    {
        match self.get(key) {
            Some(j) => j.as_str(),
            None => None,
        }
    }

    pub fn get_u64(&self, key: &str) -> (r: Option<u64>)
        ensures
            r == unsigned_member(self@, key@),
    {
        match self.get(key) {
            Some(j) => j.as_u64(),
            None => None,
        }
    }

    /// The same value once more.
    pub fn copy(&self) -> (r: Json)
        ensures
            r@ == self@,
        decreases *self,
    {
        match self {
            Json::Null => Json::Null,
            Json::Bool(b) => Json::Bool(*b),
            Json::Unsigned(n) => Json::Unsigned(*n),
            Json::Negative(n) => Json::Negative(*n),
            Json::Decimal(s) => Json::Decimal(s.clone()),
            Json::Text(s) => Json::Text(s.clone()),
            Json::Array(v) => {
                let mut out: Vec<Json> = Vec::new();
                let mut i: usize = 0;
                while i < v.len()
                    invariant
                        i <= v@.len(),
                        *self == Json::Array(*v),
                        json_views(out@) == json_views(v@).take(i as int),
                    decreases v@.len() - i,
                {
                    let ghost prior = out@;
                    assert((*self)->Array_0@[i as int] == v@[i as int]);
                    assert(decreases_to!(*self => (*self)->Array_0@[i as int]));
                    let c = v[i].copy();
                    out.push(c);
                    assert(json_views(out@) =~= json_views(prior).push(c@));
                    assert(json_views(v@).take(i + 1) =~= json_views(v@).take(i as int).push(
                        json_views(v@)[i as int],
                    ));
                    i = i + 1;
                }
                assert(json_views(v@).take(i as int) =~= json_views(v@));
                proof {
                    array_view(*v);
                }
                Json::array(out)
            },
            Json::Object(v) => {
                let mut out: Vec<(String, Json)> = Vec::new();
                let mut i: usize = 0;
                while i < v.len()
                    invariant
                        i <= v@.len(),
                        *self == Json::Object(*v),
                        member_views(out@) == member_views(v@).take(i as int),
                    decreases v@.len() - i,
                {
                    let ghost prior = out@;
                    assert((*self)->Object_0@[i as int] == v@[i as int]);
                    assert(decreases_to!(*self => (*self)->Object_0@[i as int].1));
                    let c = v[i].1.copy();
                    out.push((v[i].0.clone(), c));
                    assert(member_views(out@) =~= member_views(prior).push((v@[i as int].0@, c@)));
                    assert(member_views(v@).take(i + 1) =~= member_views(v@).take(i as int).push(
                        member_views(v@)[i as int],
                    ));
                    i = i + 1;
                }
                assert(member_views(v@).take(i as int) =~= member_views(v@));
                proof {
                    object_view(*v);
                }
                Json::object(out)
            },
        }
    }
}

// ---- reading and writing -----------------------------------------------------

/// A value of `serde_json`.
#[verifier::external_type_specification]
#[verifier::external_body]
pub struct ExValue(Value);

/// What a value of `serde_json` holds; the members of an object in its own order.
pub uninterp spec fn value_model(v: Value) -> JsonModel;

/// What `serde_json::from_str` reads from a text.
pub uninterp spec fn json_in(text: Seq<char>) -> Option<JsonModel>;

pub open spec fn value_models(v: Seq<Value>) -> Seq<JsonModel> {
    v.map_values(|x: Value| value_model(x))
}

pub open spec fn value_members(v: Seq<(String, Value)>) -> Seq<(Seq<char>, JsonModel)> {
    v.map_values(|p: (String, Value)| (p.0@, value_model(p.1)))
}

/// One level of a value of `serde_json`.
enum Opened {
    Leaf(Json),
    Array(Vec<Value>),
    Object(Vec<(String, Value)>),
}

spec fn opened_model(o: Opened) -> JsonModel {
    match o {
        Opened::Leaf(j) => j@,
        Opened::Array(v) => JsonModel::Array(value_models(v@)),
        Opened::Object(v) => JsonModel::Object(value_members(v@)),
    }
}

/// Calls `serde_json::from_str`. The result depends on the text alone.
#[verifier::external_body]
fn read_value(text: &str) -> (r: Option<Value>)
    ensures
        match r {
            Some(v) => json_in(text@) == Some(value_model(v)),
            None => json_in(text@) is None,
        },
{
    serde_json::from_str(text).ok()
}

/// Takes a `serde_json::Value` apart, one level deep.
#[verifier::external_body]
fn open_value(v: Value) -> (r: Opened)
    ensures
        opened_model(r) == value_model(v),
        r matches Opened::Leaf(j) ==> !(j is Array) && !(j is Object),
{
    match v {
        Value::Null => Opened::Leaf(Json::Null),
        Value::Bool(b) => Opened::Leaf(Json::Bool(b)),
        Value::Number(n) => Opened::Leaf(match (n.as_u64(), n.as_i64()) {
            (Some(u), _) => Json::Unsigned(u),
            (None, Some(i)) => Json::Negative(i),
            (None, None) => Json::Decimal(n.to_string()),
        }),
        Value::String(s) => Opened::Leaf(Json::Text(s)),
        Value::Array(v) => Opened::Array(v),
        Value::Object(m) => Opened::Object(m.into_iter().collect()),
    }
}

fn from_value(v: Value) -> (r: Json)
    ensures
        r@ == value_model(v),
    decreases value_model(v),
{
    let ghost whole = value_model(v);
    match open_value(v) {
        Opened::Leaf(j) => j,
        Opened::Array(list) => {
            let ghost all = value_models(list@);
            let mut rest = list;
            let mut out: Vec<Json> = Vec::new();
            let n: usize = rest.len();
            let mut i: usize = 0;
            assert(rest@ =~= list@.skip(0));
            while i < n
                invariant
                    i <= n,
                    n == list@.len(),
                    rest@ == list@.skip(i as int),
                    all == value_models(list@),
                    whole == JsonModel::Array(all),
                    whole == value_model(v),
                    json_views(out@) == all.take(i as int),
                decreases n - i,
            {
                let x = rest.remove(0);
                assert(rest@ =~= list@.skip(i + 1));
                assert(all[i as int] == value_model(x));
                assert(whole->Array_0[i as int] == value_model(x));
                assert(decreases_to!(whole => whole->Array_0[i as int]));
                let ghost prior = out@;
                let j = from_value(x);
                out.push(j);
                assert(json_views(out@) =~= json_views(prior).push(j@));
                assert(all.take(i + 1) =~= all.take(i as int).push(all[i as int]));
                i = i + 1;
            }
            assert(all.take(i as int) =~= all);
            Json::array(out)
        },
        Opened::Object(list) => {
            let ghost all = value_members(list@);
            let mut rest = list;
            let mut out: Vec<(String, Json)> = Vec::new();
            let n: usize = rest.len();
            let mut i: usize = 0;
            assert(rest@ =~= list@.skip(0));
            while i < n
                invariant
                    i <= n,
                    n == list@.len(),
                    rest@ == list@.skip(i as int),
                    all == value_members(list@),
                    whole == JsonModel::Object(all),
                    whole == value_model(v),
                    member_views(out@) == all.take(i as int),
                decreases n - i,
            {
                let (key, x) = rest.remove(0);
                assert(rest@ =~= list@.skip(i + 1));
                assert(all[i as int] == (key@, value_model(x)));
                assert(whole->Object_0[i as int].1 == value_model(x));
                assert(decreases_to!(whole => whole->Object_0[i as int].1));
                let ghost prior = out@;
                let j = from_value(x);
                out.push((key, j));
                assert(member_views(out@) =~= member_views(prior).push((key@, j@)));
                assert(all.take(i + 1) =~= all.take(i as int).push(all[i as int]));
                i = i + 1;
            }
            assert(all.take(i as int) =~= all);
            Json::object(out)
        },
    }
}

/// Reads a JSON text.
pub fn parse_json(text: &str) -> (r: Option<Json>)
    ensures
        match r {
            Some(j) => json_in(text@) == Some(j@),
            None => json_in(text@) is None,
        },
{
    match read_value(text) {
        Some(v) => Some(from_value(v)),
        None => None,
    }
}

/// What `serde_json::from_slice` reads from bytes, or what it says is wrong with them.
pub uninterp spec fn json_in_bytes(bytes: Seq<u8>) -> Result<JsonModel, Seq<char>>;

/// Calls `serde_json::from_slice`. The result depends on the bytes alone.
#[verifier::external_body]
fn read_bytes(bytes: &[u8]) -> (r: Result<Value, String>)
    ensures
        match r {
            Ok(v) => json_in_bytes(bytes@) == Ok::<_, Seq<char>>(value_model(v)),
            Err(e) => json_in_bytes(bytes@) == Err::<JsonModel, _>(e@),
        },
{
    serde_json::from_slice(bytes).map_err(|e| e.to_string())
}

/// Reads JSON from bytes.
pub fn parse_bytes(bytes: &[u8]) -> (r: Result<Json, String>)
    ensures
        match r {
            Ok(j) => json_in_bytes(bytes@) == Ok::<_, Seq<char>>(j@),
            Err(e) => json_in_bytes(bytes@) == Err::<JsonModel, _>(e@),
        },
{
    match read_bytes(bytes) {
        Ok(v) => Ok(from_value(v)),
        Err(e) => Err(e),
    }
}

/// A digit of a number in base sixteen.
pub open spec fn hex_digit(n: nat) -> char {
    if n < 10 {
        ((48 + n) as u32) as char
    } else {
        ((87 + n) as u32) as char
    }
}

/// A character as it stands inside a JSON string.
pub open spec fn escaped_char(c: char) -> Seq<char> {
    if c == '"' {
        seq!['\\', '"']
    } else if c == '\\' {
        seq!['\\', '\\']
    } else if c == '\u{8}' {
        seq!['\\', 'b']
    } else if c == '\t' {
        seq!['\\', 't']
    } else if c == '\n' {
        seq!['\\', 'n']
    } else if c == '\u{c}' {
        seq!['\\', 'f']
    } else if c == '\r' {
        seq!['\\', 'r']
    } else if (c as u32) < 32 {
        seq![
            '\\',
            'u',
            '0',
            '0',
            hex_digit((c as u32 / 16) as nat),
            hex_digit((c as u32 % 16) as nat),
        ]
    } else {
        seq![c]
    }
}

pub open spec fn escaped(s: Seq<char>) -> Seq<char>
    decreases s.len(),
{
    if s.len() == 0 {
        seq![]
    } else {
        escaped(s.drop_last()) + escaped_char(s.last())
    }
}

/// A text as a JSON string.
pub open spec fn json_quoted(s: Seq<char>) -> Seq<char> {
    "\""@ + escaped(s) + "\""@
}

/// Calls `serde_json::to_string` on a text: it stands between quotes, with
/// quotes, backslashes and control characters escaped.
#[verifier::external_body]
pub(crate) fn quote(s: &str) -> (r: String)
    ensures
        r@ == json_quoted(s@),
{
    serde_json::to_string(s).unwrap_or_default()
}

/// A value as compact JSON.
pub open spec fn json_text(j: JsonModel) -> Seq<char>
    decreases j, 1int, 0nat,
{
    match j {
        JsonModel::Null => "null"@,
        JsonModel::Bool(b) => if b {
            "true"@
        } else {
            "false"@
        },
        JsonModel::Unsigned(n) => crate::text::decimal(n as nat),
        JsonModel::Negative(n) => signed(n as int),
        JsonModel::Decimal(s) => s,
        JsonModel::Text(s) => json_quoted(s),
        JsonModel::Array(v) => "["@ + items_text(j, v.len()) + "]"@,
        JsonModel::Object(v) => "{"@ + members_text(j, v.len()) + "}"@,
    }
}

/// A whole number in decimal.
pub open spec fn signed(n: int) -> Seq<char> {
    if n < 0 {
        "-"@ + crate::text::decimal((-n) as nat)
    } else {
        crate::text::decimal(n as nat)
    }
}

/// The first `n` items of an array, with commas between them.
pub open spec fn items_text(j: JsonModel, n: nat) -> Seq<char>
    decreases j, 0int, n,
{
    if j is Array && 0 < n <= j->Array_0.len() {
        items_text(j, (n - 1) as nat) + (if n > 1 {
            ","@
        } else {
            seq![]
        }) + json_text(j->Array_0[n - 1])
    } else {
        seq![]
    }
}

/// The first `n` members of an object, with commas between them.
pub open spec fn members_text(j: JsonModel, n: nat) -> Seq<char>
    decreases j, 0int, n,
{
    if j is Object && 0 < n <= j->Object_0.len() {
        members_text(j, (n - 1) as nat) + (if n > 1 {
            ","@
        } else {
            seq![]
        }) + json_quoted(j->Object_0[n - 1].0) + ":"@ + json_text(j->Object_0[n - 1].1)
    } else {
        seq![]
    }
}

pub fn push_signed(s: &mut String, n: i64)
    ensures
        final(s)@ == old(s)@ + signed(n as int),
{
    let ghost before = s@;
    if n < 0 {
        s.append("-");
        let m: u64 = if n == i64::MIN {
            9223372036854775808
        } else {
            (-n) as u64
        };
        crate::text::push_decimal(s, m);
        assert(before + "-"@ + crate::text::decimal(m as nat) =~= before + ("-"@
            + crate::text::decimal(m as nat)));
    } else {
        crate::text::push_decimal(s, n as u64);
    }
}

impl Json {
    fn push_text(&self, out: &mut String)
        ensures
            final(out)@ == old(out)@ + json_text(self@),
        decreases *self,
    {
        let ghost before = out@;
        match self {
            Json::Null => out.append("null"),
            Json::Bool(b) => {
                if *b {
                    out.append("true")
                } else {
                    out.append("false")
                }
            },
            Json::Unsigned(n) => crate::text::push_decimal(out, *n),
            Json::Negative(n) => push_signed(out, *n),
            Json::Decimal(s) => out.append(s.as_str()),
            Json::Text(s) => out.append(quote(s.as_str()).as_str()),
            Json::Array(v) => {
                let ghost m = self@;
                proof {
                    array_view(*v);
                    assert(before + "["@ + items_text(m, 0) =~= before + "["@);
                }
                out.append("[");
                let mut i: usize = 0;
                while i < v.len()
                    invariant
                        i <= v@.len(),
                        *self == Json::Array(*v),
                        m == JsonModel::Array(json_views(v@)),
                        out@ == before + "["@ + items_text(m, i as nat),
                    decreases v@.len() - i,
                {
                    let ghost sep = if i > 0 {
                        ","@
                    } else {
                        seq![]
                    };
                    if i > 0 {
                        out.append(",");
                    }
                    assert((*self)->Array_0@[i as int] == v@[i as int]);
                    assert(decreases_to!(*self => (*self)->Array_0@[i as int]));
                    v[i].push_text(out);
                    assert(out@ =~= before + "["@ + items_text(m, i as nat) + sep + json_text(
                        v@[i as int]@,
                    ));
                    assert(json_views(v@)[i as int] == v@[i as int]@);
                    assert(out@ =~= before + "["@ + (items_text(m, i as nat) + sep + json_text(
                        v@[i as int]@,
                    )));
                    i = i + 1;
                }
                out.append("]");
                assert(out@ =~= before + ("["@ + items_text(m, v@.len()) + "]"@));
            },
            Json::Object(v) => {
                let ghost m = self@;
                proof {
                    object_view(*v);
                    assert(before + "{"@ + members_text(m, 0) =~= before + "{"@);
                }
                out.append("{");
                let mut i: usize = 0;
                while i < v.len()
                    invariant
                        i <= v@.len(),
                        *self == Json::Object(*v),
                        m == JsonModel::Object(member_views(v@)),
                        out@ == before + "{"@ + members_text(m, i as nat),
                    decreases v@.len() - i,
                {
                    let ghost sep = if i > 0 {
                        ","@
                    } else {
                        seq![]
                    };
                    if i > 0 {
                        out.append(",");
                    }
                    out.append(quote(v[i].0.as_str()).as_str());
                    out.append(":");
                    assert((*self)->Object_0@[i as int] == v@[i as int]);
                    assert(decreases_to!(*self => (*self)->Object_0@[i as int].1));
                    v[i].1.push_text(out);
                    assert(member_views(v@)[i as int] == (v@[i as int].0@, v@[i as int].1@));
                    assert(out@ =~= before + "{"@ + (members_text(m, i as nat) + sep + json_quoted(
                        v@[i as int].0@,
                    ) + ":"@ + json_text(v@[i as int].1@)));
                    i = i + 1;
                }
                out.append("}");
                assert(out@ =~= before + ("{"@ + members_text(m, v@.len()) + "}"@));
            },
        }
    }

    /// The value as compact JSON.
    pub fn to_text(&self) -> (r: String)
        ensures
            r@ == json_text(self@),
    {
        let mut s = String::new();
        self.push_text(&mut s);
        assert(s@ =~= json_text(self@));
        s
    }
}

// ---- indented text -------------------------------------------------------------

/// A value as indented JSON, behind the given indentation.
pub open spec fn pretty_text(j: JsonModel, ind: Seq<char>) -> Seq<char>
    decreases j, 1int, 0nat,
{
    match j {
        JsonModel::Array(v) => if v.len() == 0 {
            "[]"@
        } else {
            "["@ + pretty_items(j, v.len(), ind + "  "@) + "\n"@ + ind + "]"@
        },
        JsonModel::Object(v) => if v.len() == 0 {
            "{}"@
        } else {
            "{"@ + pretty_members(j, v.len(), ind + "  "@) + "\n"@ + ind + "}"@
        },
        _ => json_text(j),
    }
}

/// The first `n` items of an array, each on a line of its own.
pub open spec fn pretty_items(j: JsonModel, n: nat, ind: Seq<char>) -> Seq<char>
    decreases j, 0int, n,
{
    if j is Array && 0 < n <= j->Array_0.len() {
        pretty_items(j, (n - 1) as nat, ind) + (if n > 1 {
            ","@
        } else {
            seq![]
        }) + "\n"@ + ind + pretty_text(j->Array_0[n - 1], ind)
    } else {
        seq![]
    }
}

/// The first `n` members of an object, each on a line of its own.
pub open spec fn pretty_members(j: JsonModel, n: nat, ind: Seq<char>) -> Seq<char>
    decreases j, 0int, n,
{
    if j is Object && 0 < n <= j->Object_0.len() {
        pretty_members(j, (n - 1) as nat, ind) + (if n > 1 {
            ","@
        } else {
            seq![]
        }) + "\n"@ + ind + json_quoted(j->Object_0[n - 1].0) + ": "@ + pretty_text(
            j->Object_0[n - 1].1,
            ind,
        )
    } else {
        seq![]
    }
}

impl Json {
    fn push_pretty(&self, out: &mut String, ind: &str)
        ensures
            final(out)@ == old(out)@ + pretty_text(self@, ind@),
        decreases *self,
    {
        let ghost before = out@;
        let mut inner = ind.to_owned();
        inner.append("  ");
        match self {
            Json::Array(v) => {
                let ghost m = self@;
                proof {
                    array_view(*v);
                }
                if v.len() == 0 {
                    out.append("[]");
                    return;
                }
                out.append("[");
                assert(out@ =~= before + "["@ + pretty_items(m, 0, inner@));
                let mut i: usize = 0;
                while i < v.len()
                    invariant
                        i <= v@.len(),
                        *self == Json::Array(*v),
                        m == JsonModel::Array(json_views(v@)),
                        out@ == before + "["@ + pretty_items(m, i as nat, inner@),
                    decreases v@.len() - i,
                {
                    let ghost sep = if i > 0 {
                        ","@
                    } else {
                        seq![]
                    };
                    if i > 0 {
                        out.append(",");
                    }
                    out.append("\n");
                    out.append(inner.as_str());
                    assert((*self)->Array_0@[i as int] == v@[i as int]);
                    assert(decreases_to!(*self => (*self)->Array_0@[i as int]));
                    v[i].push_pretty(out, inner.as_str());
                    assert(json_views(v@)[i as int] == v@[i as int]@);
                    assert(out@ =~= before + "["@ + (pretty_items(m, i as nat, inner@) + sep
                        + "\n"@ + inner@ + pretty_text(v@[i as int]@, inner@)));
                    i = i + 1;
                }
                out.append("\n");
                out.append(ind);
                out.append("]");
                assert(out@ =~= before + ("["@ + pretty_items(m, v@.len(), inner@) + "\n"@ + ind@
                    + "]"@));
            },
            Json::Object(v) => {
                let ghost m = self@;
                proof {
                    object_view(*v);
                }
                if v.len() == 0 {
                    out.append("{}");
                    return;
                }
                out.append("{");
                assert(out@ =~= before + "{"@ + pretty_members(m, 0, inner@));
                let mut i: usize = 0;
                while i < v.len()
                    invariant
                        i <= v@.len(),
                        *self == Json::Object(*v),
                        m == JsonModel::Object(member_views(v@)),
                        out@ == before + "{"@ + pretty_members(m, i as nat, inner@),
                    decreases v@.len() - i,
                {
                    let ghost sep = if i > 0 {
                        ","@
                    } else {
                        seq![]
                    };
                    if i > 0 {
                        out.append(",");
                    }
                    out.append("\n");
                    out.append(inner.as_str());
                    out.append(quote(v[i].0.as_str()).as_str());
                    out.append(": ");
                    assert((*self)->Object_0@[i as int] == v@[i as int]);
                    assert(decreases_to!(*self => (*self)->Object_0@[i as int].1));
                    v[i].1.push_pretty(out, inner.as_str());
                    assert(member_views(v@)[i as int] == (v@[i as int].0@, v@[i as int].1@));
                    assert(out@ =~= before + "{"@ + (pretty_members(m, i as nat, inner@) + sep
                        + "\n"@ + inner@ + json_quoted(v@[i as int].0@) + ": "@ + pretty_text(
                        v@[i as int].1@,
                        inner@,
                    )));
                    i = i + 1;
                }
                out.append("\n");
                out.append(ind);
                out.append("}");
                assert(out@ =~= before + ("{"@ + pretty_members(m, v@.len(), inner@) + "\n"@ + ind@
                    + "}"@));
            },
            _ => self.push_text(out),
        }
    }

    /// The value as indented JSON.
    pub fn to_pretty(&self) -> (r: String)
        ensures
            r@ == pretty_text(self@, seq![]),
    {
        let mut s = String::new();
        let none = String::new();
        self.push_pretty(&mut s, none.as_str());
        assert(none@ =~= seq![]);
        assert(s@ =~= pretty_text(self@, seq![]));
        s
    }
}

} // verus!
