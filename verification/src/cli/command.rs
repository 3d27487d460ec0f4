//! The commands of a browse session, as they are typed.
use crate::json::{json_text, json_views, Json, JsonModel};
use crate::session::chain::Command;
use crate::session::{ChainStepOutput, ModeModel, ReadMode};
use crate::snapshot::PageSnapshot;
use crate::text::{
    char_is_whitespace, chars_of, debug_text, debugged, decimal, has_prefix, is_whitespace,
    push_decimal, same, strip_prefix, trim, trim_left, trim_start, trimmed,
    views,
};
use vstd::prelude::*;
use vstd::string::*;

verus! {

// ---- words ---------------------------------------------------------------------

/// How many characters come before the first whitespace.
pub open spec fn word_end(s: Seq<char>) -> int
    decreases s.len(),
{
    if s.len() == 0 || is_whitespace(s[0]) {
        0
    } else {
        1 + word_end(s.skip(1))
    }
}

pub open spec fn first_word(s: Seq<char>) -> Seq<char> {
    s.take(word_end(s))
}

pub open spec fn after_word(s: Seq<char>) -> Seq<char> {
    s.skip(word_end(s))
}

/// Splits a text in front of its first whitespace.
pub fn split_first_word(s: &str) -> (r: (&str, &str))
    ensures
        r.0@ == first_word(s@),
        r.1@ == after_word(s@),
{
    let v = chars_of(s);
    let mut i: usize = 0;
    assert(v@.skip(0) =~= v@);
    while i < v.len() && !char_is_whitespace(v[i])
        invariant
            i <= v@.len(),
            v@ == s@,
            word_end(v@) == i + word_end(v@.skip(i as int)),
        decreases v@.len() - i,
    {
        assert(v@.skip(i as int).skip(1) =~= v@.skip(i + 1));
        i = i + 1;
    }
    assert(s@.subrange(0, i as int) =~= s@.take(i as int));
    assert(s@.subrange(i as int, v@.len() as int) =~= s@.skip(i as int));
    (s.substring_char(0, i), s.substring_char(i, v.len()))
}

// ---- modes ---------------------------------------------------------------------

/// The way of reading that a text names.
pub open spec fn read_mode(s: Seq<char>) -> Result<ModeModel, Seq<char>> {
    if s.len() == 0 || s == "text"@ {
        Ok(ModeModel::Text)
    } else if s == "html"@ {
        Ok(ModeModel::Html)
    } else if has_prefix(s, "attr:"@) {
        Ok(ModeModel::Attr(s.skip(5)))
    } else {
        Err("unknown read mode "@ + debugged(s) + " — expected: text | html | attr:NAME"@)
    }
}

pub fn parse_read_mode(s: &str) -> (r: Result<ReadMode, String>)
    ensures
        match r {
            Ok(m) => read_mode(s@) == Ok::<_, Seq<char>>(m@),
            Err(e) => read_mode(s@) == Err::<ModeModel, _>(e@),
        },
{
    proof {
        reveal_strlit("attr:");
    }
    if s.is_empty() || same(s, "text") {
        Ok(ReadMode::Text)
    } else if same(s, "html") {
        Ok(ReadMode::Html)
    } else if let Some(name) = strip_prefix(s, "attr:") {
        Ok(ReadMode::Attr(name.to_owned()))
    } else {
        let mut m = "unknown read mode ".to_owned();
        m.append(debug_text(s).as_str());
        m.append(" — expected: text | html | attr:NAME");
        Err(m)
    }
}

// ---- operations ----------------------------------------------------------------

#[derive(Debug)]
pub enum Operation {
    Click(String),
    Fill { selector: String, value: String },
    Submit(String),
    Goto(String),
    Read { selector: String, mode: ReadMode },
    Eval(String),
    Snapshot,
}

/// The contents of an [`Operation`].
pub enum OperationModel {
    Click(Seq<char>),
    Fill(Seq<char>, Seq<char>),
    Submit(Seq<char>),
    Goto(Seq<char>),
    Read(Seq<char>, ModeModel),
    Eval(Seq<char>),
    Snapshot,
}

impl View for Operation {
    type V = OperationModel;

    open spec fn view(&self) -> OperationModel {
        match *self {
            Operation::Click(s) => OperationModel::Click(s@),
            Operation::Fill { selector, value } => OperationModel::Fill(selector@, value@),
            Operation::Submit(s) => OperationModel::Submit(s@),
            Operation::Goto(u) => OperationModel::Goto(u@),
            Operation::Read { selector, mode } => OperationModel::Read(selector@, mode@),
            Operation::Eval(e) => OperationModel::Eval(e@),
            Operation::Snapshot => OperationModel::Snapshot,
        }
    }
}

/// An operation on all that follows the verb, which must be something.
pub open spec fn on_rest(
    rest: Seq<char>,
    f: spec_fn(Seq<char>) -> OperationModel,
    lacking: Seq<char>,
) -> Result<OperationModel, Seq<char>> {
    if rest.len() > 0 {
        Ok(f(rest))
    } else {
        Err(lacking)
    }
}

/// The operation that a line asks for, or what is wrong with the line.
pub open spec fn parsed_operation(line: Seq<char>) -> Result<OperationModel, Seq<char>> {
    let verb = first_word(trimmed(line));
    let rest = trimmed(after_word(trimmed(line)));
    if verb == "click"@ {
        on_rest(rest, |s: Seq<char>| OperationModel::Click(s), "click requires a selector"@)
    } else if verb == "fill"@ {
        if first_word(rest).len() > 0 {
            Ok(OperationModel::Fill(first_word(rest), trim_start(after_word(rest))))
        } else {
            Err("fill requires a selector"@)
        }
    } else if verb == "submit"@ {
        on_rest(rest, |s: Seq<char>| OperationModel::Submit(s), "submit requires a selector"@)
    } else if verb == "goto"@ {
        on_rest(rest, |s: Seq<char>| OperationModel::Goto(s), "goto requires a URL"@)
    } else if verb == "read"@ {
        if first_word(rest).len() > 0 {
            match read_mode(trimmed(after_word(rest))) {
                Ok(mode) => Ok(OperationModel::Read(first_word(rest), mode)),
                Err(e) => Err(e),
            }
        } else {
            Err("read requires a selector"@)
        }
    } else if verb == "eval"@ {
        on_rest(rest, |s: Seq<char>| OperationModel::Eval(s), "eval requires an expression"@)
    } else if verb == "snapshot"@ {
        Ok(OperationModel::Snapshot)
    } else if verb.len() == 0 {
        Err("empty command"@)
    } else {
        Err(
            "unknown command "@ + debugged(verb)
                + " — try: click | fill | submit | goto | read | eval | snapshot | help"@,
        )
    }
}

pub open spec fn operation_view(r: Result<Operation, String>) -> Result<
    OperationModel,
    Seq<char>,
> {
    match r {
        Ok(o) => Ok(o@),
        Err(e) => Err(e@),
    }
}

impl Operation {
    pub fn parse(line: &str) -> (r: Result<Operation, String>)
        ensures
            operation_view(r) == parsed_operation(line@),
    {
        let (verb, rest) = split_first_word(trim(line));
        let rest = trim(rest);
        if same(verb, "click") {
            if rest.is_empty() {
                return Err("click requires a selector".to_owned());
            }
            Ok(Operation::Click(rest.to_owned()))
        } else if same(verb, "fill") {
            let (selector, value) = split_first_word(rest);
            if selector.is_empty() {
                return Err("fill requires a selector".to_owned());
            }
            Ok(
                Operation::Fill {
                    selector: selector.to_owned(),
                    value: trim_left(value).to_owned(),
                },
            )
        } else if same(verb, "submit") {
            if rest.is_empty() {
                return Err("submit requires a selector".to_owned());
            }
            Ok(Operation::Submit(rest.to_owned()))
        } else if same(verb, "goto") {
            if rest.is_empty() {
                return Err("goto requires a URL".to_owned());
            }
            Ok(Operation::Goto(rest.to_owned()))
        } else if same(verb, "read") {
            let (selector, mode) = split_first_word(rest);
            if selector.is_empty() {
                return Err("read requires a selector".to_owned());
            }
            match parse_read_mode(trim(mode)) {
                Ok(mode) => Ok(Operation::Read { selector: selector.to_owned(), mode }),
                Err(e) => Err(e),
            }
        } else if same(verb, "eval") {
            if rest.is_empty() {
                return Err("eval requires an expression".to_owned());
            }
            Ok(Operation::Eval(rest.to_owned()))
        } else if same(verb, "snapshot") {
            Ok(Operation::Snapshot)
        } else if verb.is_empty() {
            Err("empty command".to_owned())
        } else {
            let mut m = "unknown command ".to_owned();
            m.append(debug_text(verb).as_str());
            m.append(" — try: click | fill | submit | goto | read | eval | snapshot | help");
            Err(m)
        }
    }

    /// What the session is told to do.
    pub fn command(self) -> (r: Command)
        ensures
            match self {
                Operation::Click(selector) => r == (Command::Click { selector }),
                Operation::Fill { selector, value } => r == (Command::Fill { selector, value }),
                Operation::Submit(selector) => r == (Command::Submit { selector }),
                Operation::Goto(url) => r == (Command::Goto { url }),
                Operation::Read { selector, mode } => r == (Command::Read { selector, mode }),
                Operation::Eval(expr) => r == (Command::Eval { expr }),
                Operation::Snapshot => r == Command::Snapshot,
            },
    {
        match self {
            Operation::Click(selector) => Command::Click { selector },
            Operation::Fill { selector, value } => Command::Fill { selector, value },
            Operation::Submit(selector) => Command::Submit { selector },
            Operation::Goto(url) => Command::Goto { url },
            Operation::Read { selector, mode } => Command::Read { selector, mode },
            Operation::Eval(expr) => Command::Eval { expr },
            Operation::Snapshot => Command::Snapshot,
        }
    }
}

/// What a line that is typed at the prompt asks for.
#[derive(Debug)]
pub enum Typed {
    /// Nothing: another prompt.
    Nothing,
    Quit,
    Help,
    Run(Operation),
    /// A line that cannot be understood, and why.
    Wrong(String),
}

/// Reads a line that was typed at the prompt.
pub fn read_line(line: &str) -> (r: Typed)
    ensures
        ({
            let t = trimmed(line@);
            if t.len() == 0 {
                r is Nothing
            } else if t == "exit"@ || t == "quit"@ {
                r is Quit
            } else if t == "help"@ || t == "?"@ {
                r is Help
            } else {
                match parsed_operation(line@) {
                    Ok(m) => r is Run && r->Run_0@ == m,
                    Err(e) => r is Wrong && r->Wrong_0@ == e,
                }
            }
        }),
{
    let t = trim(line);
    proof {
        crate::text::trimmed_edges(line@);
    }
    if t.is_empty() {
        Typed::Nothing
    } else if same(t, "exit") || same(t, "quit") {
        Typed::Quit
    } else if same(t, "help") || same(t, "?") {
        Typed::Help
    } else {
        match Operation::parse(t) {
            Ok(o) => Typed::Run(o),
            Err(e) => Typed::Wrong(e),
        }
    }
}

// ---- what is printed -----------------------------------------------------------

/// A page in one line.
pub open spec fn summary_line(s: &PageSnapshot) -> Seq<char> {
    "snapshot @ "@ + s.url@ + " — title="@ + debugged(s.title@) + ", "@ + decimal(s.forms@.len())
        + " forms, "@ + decimal(s.links@.len()) + " links, "@ + decimal(s.buttons@.len())
        + " buttons, "@ + decimal(s.inputs@.len()) + " inputs, "@ + decimal(s.headings@.len())
        + " headings"@
}

pub fn summarize(s: &PageSnapshot) -> (r: String)
    ensures
        r@ == summary_line(s),
{
    let mut out = "snapshot @ ".to_owned();
    out.append(s.url.as_str());
    out.append(" — title=");
    out.append(debug_text(s.title.as_str()).as_str());
    out.append(", ");
    push_decimal(&mut out, s.forms.len() as u64);
    out.append(" forms, ");
    push_decimal(&mut out, s.links.len() as u64);
    out.append(" links, ");
    push_decimal(&mut out, s.buttons.len() as u64);
    out.append(" buttons, ");
    push_decimal(&mut out, s.inputs.len() as u64);
    out.append(" inputs, ");
    push_decimal(&mut out, s.headings.len() as u64);
    out.append(" headings");
    out
}

/// What is printed for a step. A page that is wanted as JSON is not among the lines.
pub open spec fn report_lines(out: ChainStepOutput, json: bool) -> Seq<Seq<char>> {
    match out {
        ChainStepOutput::Snapshot(s) => if json {
            seq![]
        } else {
            seq!["  ↳ "@ + summary_line(&s)]
        },
        ChainStepOutput::Reads(found) => if json {
            seq![
                json_text(
                    JsonModel::Array(views(found@).map_values(|t: Seq<char>| JsonModel::Text(t))),
                ),
            ]
        } else {
            views(found@).map_values(|t: Seq<char>| "  ↳ "@ + t)
        },
        ChainStepOutput::Eval { result, .. } => if json {
            seq![json_text(JsonModel::Object(seq![("eval"@, JsonModel::Text(result@))]))]
        } else {
            seq!["  ↳ "@ + result@]
        },
    }
}

fn arrow(text: &str) -> (r: String)
    ensures
        r@ == "  ↳ "@ + text@,
{
    let mut s = "  ↳ ".to_owned();
    s.append(text);
    s
}

/// The lines to print for a step; none for a page that is wanted as JSON.
pub fn report(out: &ChainStepOutput, json: bool) -> (r: Vec<String>)
    ensures
        views(r@) == report_lines(*out, json),
{
    let mut lines: Vec<String> = Vec::new();
    match out {
        ChainStepOutput::Snapshot(s) => {
            if !json {
                lines.push(arrow(summarize(s).as_str()));
            }
        },
        ChainStepOutput::Reads(found) => {
            if json {
                let mut items: Vec<Json> = Vec::new();
                let ghost want = views(found@).map_values(|t: Seq<char>| JsonModel::Text(t));
                let mut i: usize = 0;
                while i < found.len()
                    invariant
                        i <= found@.len(),
                        want == views(found@).map_values(|t: Seq<char>| JsonModel::Text(t)),
                        json_views(items@) == want.take(i as int),
                    decreases found@.len() - i,
                {
                    let ghost prior = items@;
                    let j = Json::text(found[i].as_str());
                    items.push(j);
                    assert(json_views(items@) =~= json_views(prior).push(j@));
                    assert(want.take(i + 1) =~= want.take(i as int).push(want[i as int]));
                    i = i + 1;
                }
                assert(want.take(i as int) =~= want);
                lines.push(Json::array(items).to_text());
            } else {
                let ghost want = report_lines(*out, json);
                let mut i: usize = 0;
                while i < found.len()
                    invariant
                        i <= found@.len(),
                        want == views(found@).map_values(|t: Seq<char>| "  ↳ "@ + t),
                        views(lines@) == want.take(i as int),
                    decreases found@.len() - i,
                {
                    let ghost prior = lines@;
                    let line = arrow(found[i].as_str());
                    lines.push(line);
                    assert(views(lines@) =~= views(prior).push(line@));
                    assert(want.take(i + 1) =~= want.take(i as int).push(want[i as int]));
                    i = i + 1;
                }
                assert(want.take(i as int) =~= want);
            }
        },
        ChainStepOutput::Eval { result, snapshot: _ } => {
            if json {
                let mut members: Vec<(String, Json)> = Vec::new();
                members.push(("eval".to_owned(), Json::text(result.as_str())));
                let j = Json::object(members);
                assert(j@->Object_0 =~= seq![("eval"@, JsonModel::Text(result@))]);
                lines.push(j.to_text());
            } else {
                lines.push(arrow(result.as_str()));
            }
        },
    }
    assert(views(lines@) =~= report_lines(*out, json));
    lines
}

// ---- laws ----------------------------------------------------------------------

/// A `fill` gives its selector and its value as they were typed, the spaces inside
/// the value with them.
pub proof fn fill_keeps_its_value(selector: Seq<char>, value: Seq<char>)
    requires
        selector.len() > 0,
        forall|i: int| 0 <= i < selector.len() ==> !is_whitespace(#[trigger] selector[i]),
        value.len() > 0,
        !is_whitespace(value[0]),
        !is_whitespace(value.last()),
    ensures
        parsed_operation("fill "@ + selector + " "@ + value) == Ok::<OperationModel, Seq<char>>(
            OperationModel::Fill(selector, value),
        ),
{
    reveal_strlit("fill ");
    reveal_strlit("fill");
    reveal_strlit("click");
    reveal_strlit(" ");
    let line = "fill "@ + selector + " "@ + value;
    assert("fill"@.len() == 4 && "click"@.len() == 5);
    edges_stay(line);
    let verb = "fill"@;
    assert forall|i: int| 0 <= i < verb.len() implies !is_whitespace(#[trigger] verb[i]) by {
        assert(verb[0] == 'f' && verb[1] == 'i' && verb[2] == 'l' && verb[3] == 'l');
    }
    let tail = " "@ + selector + " "@ + value;
    assert(line =~= verb + tail);
    assert(tail[0] == ' ');
    word_then_space(verb, tail);
    let rest = selector + " "@ + value;
    assert(tail.skip(1) =~= rest);
    edges_stay(rest);
    assert(trim_start(tail) == trim_start(rest));
    assert(trim_start(rest) == rest);
    assert(trimmed(tail) == rest);
    let last = " "@ + value;
    assert(rest =~= selector + last);
    word_then_space(selector, last);
    assert(last.skip(1) =~= value);
    assert(trim_start(last) == trim_start(value));
    assert(trim_start(value) == value);
}

/// A text that neither starts nor ends with whitespace stays as it is.
proof fn edges_stay(s: Seq<char>)
    requires
        s.len() > 0,
        !is_whitespace(s[0]),
        !is_whitespace(s.last()),
    ensures
        trimmed(s) == s,
        trim_start(s) == s,
{
}

proof fn word_then_space(word: Seq<char>, tail: Seq<char>)
    requires
        forall|i: int| 0 <= i < word.len() ==> !is_whitespace(#[trigger] word[i]),
        tail.len() > 0,
        is_whitespace(tail[0]),
    ensures
        first_word(word + tail) == word,
        after_word(word + tail) == tail,
    decreases word.len(),
{
    ends_there(word, tail);
    assert((word + tail).take(word.len() as int) =~= word);
    assert((word + tail).skip(word.len() as int) =~= tail);
}

proof fn ends_there(word: Seq<char>, tail: Seq<char>)
    requires
        forall|i: int| 0 <= i < word.len() ==> !is_whitespace(#[trigger] word[i]),
        tail.len() > 0,
        is_whitespace(tail[0]),
    ensures
        word_end(word + tail) == word.len(),
    decreases word.len(),
{
    let s = word + tail;
    if word.len() == 0 {
        assert(s =~= tail);
    } else {
        assert(s[0] == word[0]);
        let rest = word.skip(1);
        assert forall|i: int| 0 <= i < rest.len() implies !is_whitespace(#[trigger] rest[i]) by {
            assert(rest[i] == word[i + 1]);
        }
        ends_there(rest, tail);
        assert(s.skip(1) =~= rest + tail);
    }
}

} // verus!
