//! What JSON says, and how it is written.
use crate::json::{
    escaped, escaped_char, hex_digit, json_quoted, member, items_text, json_text, member_pos, members_text, pretty_items,
    pretty_members, pretty_text, Json, JsonModel,
};
use crate::text::{decimal, joined};
use vstd::prelude::*;
use vstd::string::*;

verus! {

/// The first member of this name has this value.
pub open spec fn says(j: JsonModel, key: Seq<char>, value: JsonModel) -> bool {
    j is Object && exists|i: int|
        {
            &&& 0 <= i < j->Object_0.len()
            &&& #[trigger] j->Object_0[i] == (key, value)
            &&& forall|k: int| 0 <= k < i ==> (#[trigger] j->Object_0[k]).0 != key
        }
}

/// No member has this name.
pub open spec fn says_nothing(j: JsonModel, key: Seq<char>) -> bool {
    j is Object ==> forall|i: int| 0 <= i < j->Object_0.len() ==> (#[trigger] j->Object_0[i]).0 != key
}

proof fn member_pos_is_first(s: Seq<(Seq<char>, JsonModel)>, key: Seq<char>)
    ensures
        0 <= member_pos(s, key) <= s.len(),
        member_pos(s, key) < s.len() ==> s[member_pos(s, key)].0 == key,
        forall|i: int| 0 <= i < member_pos(s, key) ==> (#[trigger] s[i]).0 != key,
    decreases s.len(),
{
    if s.len() > 0 && s[0].0 != key {
        member_pos_is_first(s.skip(1), key);
        assert forall|i: int| 0 <= i < member_pos(s, key) implies (#[trigger] s[i]).0 != key by {
            if i > 0 {
                assert(s.skip(1)[i - 1] == s[i]);
            }
        }
    }
}

/// A member is looked up by its name: the first of that name counts.
pub proof fn members_are_found_by_name(j: JsonModel, key: Seq<char>, value: JsonModel)
    ensures
        says(j, key, value) <==> member(j, key) == Some(value),
        says_nothing(j, key) <==> member(j, key) is None,
{
    if j is Object {
        let s = j->Object_0;
        member_pos_is_first(s, key);
        let k = member_pos(s, key);
        if says(j, key, value) {
            let i = choose|i: int|
                {
                    &&& 0 <= i < j->Object_0.len()
                    &&& #[trigger] j->Object_0[i] == (key, value)
                    &&& forall|k: int| 0 <= k < i ==> (#[trigger] j->Object_0[k]).0 != key
                };
            if i < k {
                assert(s[i].0 != key);
            }
            if k < i {
                assert(s[k].0 != key);
            }
        }
        if member(j, key) == Some(value) {
            assert(j->Object_0[k] == (key, value));
        }
        if says_nothing(j, key) && k < s.len() {
            assert(s[k].0 != key);
        }
    }
}

/// What is read of a member is what it says: its text where it is text, its number where
/// it is an unsigned number, and nothing where it is neither.
pub proof fn members_are_read_as_they_are(
    j: &Json,
    key: &str,
    value: JsonModel,
    text: Option<&str>,
    number: Option<u64>,
    any: Option<&Json>,
)
    requires
        says(j@, key@, value),
        call_ensures(Json::get_str, (j, key), text),
        call_ensures(Json::get_u64, (j, key), number),
        call_ensures(Json::get, (j, key), any),
    ensures
        any is Some && any->0@ == value,
        value is Text <==> text is Some,
        text matches Some(s) ==> value->Text_0 == s@,
        value is Unsigned <==> number is Some,
        number matches Some(n) ==> value->Unsigned_0 == n,
{
    members_are_found_by_name(j@, key@, value);
}

/// What is missing is not read.
pub proof fn missing_members_are_not_read(
    j: &Json,
    key: &str,
    text: Option<&str>,
    number: Option<u64>,
    any: Option<&Json>,
)
    requires
        says_nothing(j@, key@),
        call_ensures(Json::get_str, (j, key), text),
        call_ensures(Json::get_u64, (j, key), number),
        call_ensures(Json::get, (j, key), any),
    ensures
        text is None && number is None && any is None,
{
    members_are_found_by_name(j@, key@, JsonModel::Null);
}

// ---- quoting -----------------------------------------------------------------------

/// The value of a hexadecimal digit in lower case.
pub open spec fn hex_value(c: char) -> int {
    if '0' <= c <= '9' {
        c as int - '0' as int
    } else {
        c as int - 'a' as int + 10
    }
}

/// Reads the characters of a JSON string, without its quotes.
pub open spec fn unescaped(s: Seq<char>) -> Seq<char>
    decreases s.len(),
{
    if s.len() == 0 {
        seq![]
    } else if s[0] != '\\' {
        seq![s[0]] + unescaped(s.skip(1))
    } else if s.len() >= 6 && s[1] == 'u' {
        seq![
            (4096 * hex_value(s[2]) + 256 * hex_value(s[3]) + 16 * hex_value(s[4]) + hex_value(
                s[5],
            )) as char,
        ] + unescaped(s.skip(6))
    } else if s.len() >= 2 {
        seq![
            if s[1] == 'n' {
                '\n'
            } else if s[1] == 't' {
                '\t'
            } else if s[1] == 'r' {
                '\r'
            } else if s[1] == 'b' {
                '\u{8}'
            } else if s[1] == 'f' {
                '\u{c}'
            } else {
                s[1]
            },
        ] + unescaped(s.skip(2))
    } else {
        seq![]
    }
}

proof fn one_reads_back(c: char, rest: Seq<char>)
    ensures
        unescaped(escaped_char(c) + rest) == seq![c] + unescaped(rest),
{
    let e = escaped_char(c);
    let all = e + rest;
    if c == '"' || c == '\\' || c == '\u{8}' || c == '\t' || c == '\n' || c == '\u{c}' || c
        == '\r' {
        assert(all.skip(2) =~= rest);
        assert(all[0] == '\\');
        assert(all[1] == e[1]);
    } else if (c as u32) < 32 {
        assert(all.skip(6) =~= rest);
        assert(all[0] == '\\' && all[1] == 'u' && all[2] == '0' && all[3] == '0');
        assert(all[4] == e[4] && all[5] == e[5]);
        assert(hex_value(all[4]) == c as int / 16);
        assert(hex_value(all[5]) == c as int % 16);
        assert(16 * (c as int / 16) + c as int % 16 == c as int);
    } else {
        assert(all.skip(1) =~= rest);
        assert(all[0] == c);
    }
}

proof fn escaped_from_front(c: char, s: Seq<char>)
    ensures
        escaped(seq![c] + s) == escaped_char(c) + escaped(s),
    decreases s.len(),
{
    let all = seq![c] + s;
    if s.len() == 0 {
        assert(all.drop_last() =~= seq![]);
        assert(all.last() == c);
        assert(escaped(all.drop_last()) =~= seq![]);
        assert(escaped(all) =~= escaped_char(c));
        assert(escaped_char(c) + escaped(s) =~= escaped_char(c));
    } else {
        escaped_from_front(c, s.drop_last());
        assert(all.drop_last() =~= seq![c] + s.drop_last());
        assert(all.last() == s.last());
        assert(escaped_char(c) + escaped(s.drop_last()) + escaped_char(s.last()) =~= escaped_char(
            c,
        ) + (escaped(s.drop_last()) + escaped_char(s.last())));
    }
}

/// A text that is written as JSON reads back as it was.
pub proof fn quoted_texts_read_back(s: Seq<char>)
    ensures
        unescaped(escaped(s)) == s,
    decreases s.len(),
{
    if s.len() == 0 {
        assert(unescaped(escaped(s)) =~= s);
    } else {
        let rest = s.skip(1);
        assert(s =~= seq![s[0]] + rest);
        escaped_from_front(s[0], rest);
        one_reads_back(s[0], escaped(rest));
        quoted_texts_read_back(rest);
    }
}

/// Within the quotes there is no bare quote and no control character.
pub proof fn quoted_texts_stay_within_their_quotes(s: Seq<char>, i: int)
    requires
        0 <= i < escaped(s).len(),
    ensures
        escaped(s)[i] as u32 >= 32,
        escaped(s)[i] == '"' ==> i > 0 && escaped(s)[i - 1] == '\\',
    decreases s.len(),
{
    let front = escaped(s.drop_last());
    let e = escaped_char(s.last());
    assert(escaped(s) == front + e);
    if i < front.len() {
        quoted_texts_stay_within_their_quotes(s.drop_last(), i);
        assert(escaped(s)[i] == front[i]);
        if i > 0 {
            assert(escaped(s)[i - 1] == front[i - 1]);
        }
    } else {
        assert(escaped(s)[i] == e[i - front.len()]);
        if i > front.len() {
            assert(escaped(s)[i - 1] == e[i - 1 - front.len()]);
        }
    }
}

/// A quoted text: its quotes, and between them what reads back as the text.
pub proof fn quotes_enclose(s: Seq<char>)
    ensures
        json_quoted(s).len() >= 2,
        json_quoted(s)[0] == '"' && json_quoted(s).last() == '"',
        unescaped(json_quoted(s).subrange(1, json_quoted(s).len() - 1)) == s,
{
    reveal_strlit("\"");
    quoted_texts_read_back(s);
    assert(json_quoted(s).subrange(1, json_quoted(s).len() - 1) =~= escaped(s));
}

// ---- writing -----------------------------------------------------------------------

/// A member as it is written.
pub open spec fn member_text(m: (Seq<char>, JsonModel)) -> Seq<char> {
    json_quoted(m.0) + ":"@ + json_text(m.1)
}

/// What is simple is written as itself: the words for nothing and for truth, digits for a
/// number, and a text within quotes.
pub proof fn simple_values_are_written(j: &Json, r: String)
    requires
        call_ensures(Json::to_text, (j,), r),
    ensures
        j@ is Null ==> r@ == "null"@,
        j@ == JsonModel::Bool(true) ==> r@ == "true"@,
        j@ == JsonModel::Bool(false) ==> r@ == "false"@,
        j@ matches JsonModel::Unsigned(n) ==> r@ == decimal(n as nat),
        j@ matches JsonModel::Negative(n) ==> n < 0 ==> r@ == "-"@ + decimal((-n) as nat),
        j@ matches JsonModel::Decimal(s) ==> r@ == s,
        j@ matches JsonModel::Text(s) ==> r@ == json_quoted(s),
{
}

/// An array is written as its items between brackets, with commas between them, and an
/// object as its members between braces, every one of them and in order.
pub proof fn arrays_and_objects_are_written_whole(j: &Json, r: String)
    requires
        call_ensures(Json::to_text, (j,), r),
    ensures
        j@ matches JsonModel::Array(v) ==> r@ == "["@ + joined(
            v.map_values(|x: JsonModel| json_text(x)),
            ","@,
        ) + "]"@,
        j@ matches JsonModel::Object(v) ==> r@ == "{"@ + joined(
            v.map_values(|m: (Seq<char>, JsonModel)| member_text(m)),
            ","@,
        ) + "}"@,
{
    if j@ is Array {
        let v = j@->Array_0;
        items_are_joined(j@, v.len());
        assert(v.take(v.len() as int) =~= v);
    }
    if j@ is Object {
        let v = j@->Object_0;
        members_are_joined(j@, v.len());
        assert(v.take(v.len() as int) =~= v);
    }
}

proof fn items_are_joined(j: JsonModel, n: nat)
    requires
        j is Array,
        n <= j->Array_0.len(),
    ensures
        items_text(j, n) == joined(
            j->Array_0.take(n as int).map_values(|x: JsonModel| json_text(x)),
            ","@,
        ),
    decreases n,
{
    let f = |x: JsonModel| json_text(x);
    let s = j->Array_0.take(n as int).map_values(f);
    if n > 0 {
        let m = (n - 1) as nat;
        items_are_joined(j, m);
        let t = j->Array_0.take(m as int).map_values(f);
        assert(s.drop_last() =~= t);
        assert(s.last() == json_text(j->Array_0[n - 1]));
        if n == 1 {
            assert(items_text(j, 0) =~= seq![]);
            assert(items_text(j, n) =~= s[0]);
        } else {
            assert(items_text(j, n) =~= joined(t, ","@) + ","@ + s.last());
        }
    } else {
        assert(s =~= seq![]);
    }
}

proof fn members_are_joined(j: JsonModel, n: nat)
    requires
        j is Object,
        n <= j->Object_0.len(),
    ensures
        members_text(j, n) == joined(
            j->Object_0.take(n as int).map_values(|m: (Seq<char>, JsonModel)| member_text(m)),
            ","@,
        ),
    decreases n,
{
    let f = |m: (Seq<char>, JsonModel)| member_text(m);
    let s = j->Object_0.take(n as int).map_values(f);
    if n > 0 {
        let m = (n - 1) as nat;
        members_are_joined(j, m);
        let t = j->Object_0.take(m as int).map_values(f);
        assert(s.drop_last() =~= t);
        assert(s.last() == member_text(j->Object_0[n - 1]));
        if n == 1 {
            assert(members_text(j, 0) =~= seq![]);
            assert(members_text(j, n) =~= s[0]);
        } else {
            assert(members_text(j, n) =~= joined(t, ","@) + ","@ + s.last());
        }
    } else {
        assert(s =~= seq![]);
    }
}

/// Written with indentation, each item or member stands on a line of its own, two spaces
/// further in than what it belongs to.
pub proof fn indented_values_stand_line_by_line(j: JsonModel, ind: Seq<char>)
    ensures
        j matches JsonModel::Array(v) ==> v.len() > 0 ==> pretty_text(j, ind) == "["@ + joined(
            v.map_values(|x: JsonModel| "\n"@ + (ind + "  "@) + pretty_text(x, ind + "  "@)),
            ","@,
        ) + "\n"@ + ind + "]"@,
        j matches JsonModel::Object(v) ==> v.len() > 0 ==> pretty_text(j, ind) == "{"@ + joined(
            v.map_values(
                |m: (Seq<char>, JsonModel)|
                    "\n"@ + (ind + "  "@) + json_quoted(m.0) + ": "@ + pretty_text(
                        m.1,
                        ind + "  "@,
                    ),
            ),
            ","@,
        ) + "\n"@ + ind + "}"@,
        !(j is Array) && !(j is Object) ==> pretty_text(j, ind) == json_text(j),
{
    let further = ind + "  "@;
    if j is Array {
        let v = j->Array_0;
        lines_are_joined(j, v.len(), further);
        assert(v.take(v.len() as int) =~= v);
    }
    if j is Object {
        let v = j->Object_0;
        member_lines_are_joined(j, v.len(), further);
        assert(v.take(v.len() as int) =~= v);
    }
}

proof fn lines_are_joined(j: JsonModel, n: nat, ind: Seq<char>)
    requires
        j is Array,
        n <= j->Array_0.len(),
    ensures
        pretty_items(j, n, ind) == joined(
            j->Array_0.take(n as int).map_values(
                |x: JsonModel| "\n"@ + ind + pretty_text(x, ind),
            ),
            ","@,
        ),
    decreases n,
{
    let f = |x: JsonModel| "\n"@ + ind + pretty_text(x, ind);
    let s = j->Array_0.take(n as int).map_values(f);
    if n > 0 {
        let m = (n - 1) as nat;
        lines_are_joined(j, m, ind);
        let t = j->Array_0.take(m as int).map_values(f);
        assert(s.drop_last() =~= t);
        assert(s.last() == f(j->Array_0[n - 1]));
        if n == 1 {
            assert(pretty_items(j, 0, ind) =~= seq![]);
            assert(pretty_items(j, n, ind) =~= s[0]);
        } else {
            assert(pretty_items(j, n, ind) =~= joined(t, ","@) + ","@ + s.last());
        }
    } else {
        assert(s =~= seq![]);
    }
}

proof fn member_lines_are_joined(j: JsonModel, n: nat, ind: Seq<char>)
    requires
        j is Object,
        n <= j->Object_0.len(),
    ensures
        pretty_members(j, n, ind) == joined(
            j->Object_0.take(n as int).map_values(
                |m: (Seq<char>, JsonModel)|
                    "\n"@ + ind + json_quoted(m.0) + ": "@ + pretty_text(m.1, ind),
            ),
            ","@,
        ),
    decreases n,
{
    let f = |m: (Seq<char>, JsonModel)|
        "\n"@ + ind + json_quoted(m.0) + ": "@ + pretty_text(m.1, ind);
    let s = j->Object_0.take(n as int).map_values(f);
    if n > 0 {
        let m = (n - 1) as nat;
        member_lines_are_joined(j, m, ind);
        let t = j->Object_0.take(m as int).map_values(f);
        assert(s.drop_last() =~= t);
        assert(s.last() == f(j->Object_0[n - 1]));
        if n == 1 {
            assert(pretty_members(j, 0, ind) =~= seq![]);
            assert(pretty_members(j, n, ind) =~= s[0]);
        } else {
            assert(pretty_members(j, n, ind) =~= joined(t, ","@) + ","@ + s.last());
        }
    } else {
        assert(s =~= seq![]);
    }
}

/// What a value is taken for is what it is.
pub proof fn values_are_what_they_are(
    j: &Json,
    s: Option<&str>,
    n: Option<u64>,
    b: Option<bool>,
    a: Option<&Vec<Json>>,
    o: Option<&Vec<(String, Json)>>,
)
    requires
        call_ensures(Json::as_str, (j,), s),
        call_ensures(Json::as_u64, (j,), n),
        call_ensures(Json::as_bool, (j,), b),
        call_ensures(Json::as_array, (j,), a),
        call_ensures(Json::as_object, (j,), o),
    ensures
        j@ is Text <==> s is Some,
        s is Some ==> j@->Text_0 == s->0@,
        j@ is Unsigned <==> n is Some,
        n is Some ==> j@->Unsigned_0 == n->0,
        j@ is Bool <==> b is Some,
        b is Some ==> j@->Bool_0 == b->0,
        j@ is Array <==> a is Some,
        j@ is Object <==> o is Some,
{
}

} // verus!
