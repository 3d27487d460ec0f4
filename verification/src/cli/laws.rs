//! What is typed and what is sent, in terms of the words that say it.
use crate::cli::command::{
    after_word, first_word, parse_read_mode, parsed_operation, read_line, read_mode, report,
    split_first_word, word_end, Operation, OperationModel, Typed,
};
use crate::cli::request::{
    base64, base64_digit, base64_encode, base64_quad, build_blocklist, build_client, build_request,
    choose_body, header_pair, header_pairs, lines_text, millis, needs_js, parse_header,
    print_lines, print_links, render, DumpFormat, OutputError,
};
use crate::extract::{extract_links, extract_text, Link};
use crate::fetch::blocklist::{default_trackers, host_entry, kept_hosts, TrackerBlocklist};
use crate::fetch::client::{names, FetchRequest, FetcherBuilder};
use crate::fetch::cookies::CookieJar;
use crate::select::{select_attr, select_text};
use crate::session::chain::Command;
use crate::session::{ChainStepOutput, ReadMode};
use crate::text::{
    first_pos, first_pos_is_first, is_whitespace, same_ignoring_case, trim_start, trimmed,
    trimmed_edges, trimmed_keeps_clean, views,
};
use vstd::prelude::*;
use vstd::string::*;
use vstd::utf8::{encode_utf8, valid_utf8};

verus! {

// ---- words -----------------------------------------------------------------------

proof fn word_end_is_first_space(s: Seq<char>)
    ensures
        0 <= word_end(s) <= s.len(),
        forall|i: int| 0 <= i < word_end(s) ==> !is_whitespace(#[trigger] s[i]),
        word_end(s) < s.len() ==> is_whitespace(s[word_end(s)]),
    decreases s.len(),
{
    if s.len() > 0 && !is_whitespace(s[0]) {
        word_end_is_first_space(s.skip(1));
        assert forall|i: int| 0 <= i < word_end(s) implies !is_whitespace(#[trigger] s[i]) by {
            if i > 0 {
                assert(s.skip(1)[i - 1] == s[i]);
            }
        }
    }
}

/// A line is its first word and the rest: the word holds no space, and the rest is empty
/// or starts with one.
pub proof fn lines_start_with_a_word(s: &str, r: (&str, &str))
    requires
        call_ensures(split_first_word, (s,), r),
    ensures
        s@ == r.0@ + r.1@,
        forall|i: int| 0 <= i < r.0@.len() ==> !is_whitespace(#[trigger] r.0@[i]),
        r.1@.len() > 0 ==> is_whitespace(r.1@[0]),
{
    word_end_is_first_space(s@);
    assert(s@ =~= r.0@ + r.1@);
    assert forall|i: int| 0 <= i < r.0@.len() implies !is_whitespace(#[trigger] r.0@[i]) by {
        assert(r.0@[i] == s@[i]);
    }
}

/// A word: not empty, and without space.
pub open spec fn is_word(w: Seq<char>) -> bool {
    w.len() > 0 && forall|i: int| 0 <= i < w.len() ==> !is_whitespace(#[trigger] w[i])
}

/// A text that is not empty and has no space at its ends.
pub open spec fn is_solid(s: Seq<char>) -> bool {
    s.len() > 0 && !is_whitespace(s[0]) && !is_whitespace(s.last())
}

proof fn word_and_rest(w: Seq<char>, rest: Seq<char>)
    requires
        is_word(w),
        is_solid(rest),
    ensures
        ({
            let line = w + seq![' '] + rest;
            &&& trimmed(line) == line
            &&& first_word(line) == w
            &&& trimmed(after_word(line)) == rest
            &&& trim_start(after_word(line)) == rest
        }),
{
    let line = w + seq![' '] + rest;
    assert(line[0] == w[0]);
    assert(line.last() == rest.last());
    trimmed_keeps_clean(line);
    word_end_is_first_space(line);
    let k = word_end(line);
    assert(line[w.len() as int] == ' ');
    if k < w.len() {
        assert(line[k] == w[k]);
    }
    assert(k == w.len());
    assert(first_word(line) =~= w);
    let tail = after_word(line);
    assert(tail =~= seq![' '] + rest);
    assert(tail.skip(1) =~= rest);
    assert(tail[0] == ' ');
    assert(trim_start(rest) == rest);
    assert(trim_start(tail) == rest);
    trimmed_keeps_clean(rest);
    assert(trimmed(tail) == crate::text::trim_end(trim_start(tail)));
    assert(trimmed(rest) == crate::text::trim_end(trim_start(rest)));
}

proof fn lone_word(w: Seq<char>)
    requires
        is_word(w),
    ensures
        trimmed(w) == w,
        first_word(w) == w,
        trimmed(after_word(w)).len() == 0,
{
    trimmed_keeps_clean(w);
    word_end_is_first_space(w);
    let k = word_end(w);
    if k < w.len() {
        assert(!is_whitespace(w[k]));
    }
    assert(first_word(w) =~= w);
    assert(after_word(w) =~= seq![]);
}

proof fn verbs_are_words()
    ensures
        is_word("click"@),
        is_word("fill"@),
        is_word("submit"@),
        is_word("goto"@),
        is_word("read"@),
        is_word("eval"@),
        is_word("snapshot"@),
        "fill"@ != "click"@,
        "submit"@ != "click"@,
        "submit"@ != "fill"@,
        "goto"@ != "click"@,
        "goto"@ != "fill"@,
        "goto"@ != "submit"@,
        "read"@ != "click"@,
        "read"@ != "fill"@,
        "read"@ != "submit"@,
        "read"@ != "goto"@,
        "eval"@ != "click"@,
        "eval"@ != "fill"@,
        "eval"@ != "submit"@,
        "eval"@ != "goto"@,
        "eval"@ != "read"@,
        "snapshot"@ != "click"@,
        "snapshot"@ != "fill"@,
        "snapshot"@ != "submit"@,
        "snapshot"@ != "goto"@,
        "snapshot"@ != "read"@,
        "snapshot"@ != "eval"@,
{
    reveal_strlit("click");
    reveal_strlit("fill");
    reveal_strlit("submit");
    reveal_strlit("goto");
    reveal_strlit("read");
    reveal_strlit("eval");
    reveal_strlit("snapshot");
    assert("click"@[0] == 'c' && "fill"@[0] == 'f' && "submit"@[0] == 's' && "goto"@[0] == 'g');
    assert("read"@[0] == 'r' && "eval"@[0] == 'e' && "snapshot"@[0] == 's' && "snapshot"@[1]
        == 'n' && "submit"@[1] == 'u');
}

/// `click`, `submit`, `goto` and `eval` are run on all that follows them.
pub proof fn verbs_take_the_rest(
    line: &str,
    rest: Seq<char>,
    r: Result<Operation, String>,
    c: Command,
)
    requires
        is_solid(rest),
        call_ensures(Operation::parse, (line,), r),
        r matches Ok(o) ==> call_ensures(Operation::command, (o,), c),
    ensures
        line@ == "click"@ + seq![' '] + rest ==> r is Ok && c is Click && c->Click_selector@ == rest,
        line@ == "submit"@ + seq![' '] + rest ==> r is Ok && c is Submit && c->Submit_selector@
            == rest,
        line@ == "goto"@ + seq![' '] + rest ==> r is Ok && c is Goto && c->Goto_url@ == rest,
        line@ == "eval"@ + seq![' '] + rest ==> r is Ok && c is Eval && c->Eval_expr@ == rest,
{
    verbs_are_words();
    word_and_rest("click"@, rest);
    word_and_rest("submit"@, rest);
    word_and_rest("goto"@, rest);
    word_and_rest("eval"@, rest);
    if r is Ok {
        assert(r->Ok_0@ == parsed_operation(line@)->Ok_0);
    }
}

/// Each of them alone is refused, for want of what to run on.
pub proof fn verbs_need_the_rest(line: &str, r: Result<Operation, String>)
    requires
        call_ensures(Operation::parse, (line,), r),
        line@ == "click"@ || line@ == "submit"@ || line@ == "goto"@ || line@ == "eval"@ || line@
            == "fill"@ || line@ == "read"@,
    ensures
        r is Err,
{
    verbs_are_words();
    lone_word(line@);
    let rest = trimmed(after_word(line@));
    word_end_is_first_space(rest);
    assert(first_word(rest).len() == 0);
}

/// A read is of its selector: of the texts where it says no more, else as it says.
pub proof fn reads_are_as_they_say(
    line: &str,
    selector: Seq<char>,
    mode: Seq<char>,
    r: Result<Operation, String>,
)
    requires
        is_word(selector),
        is_solid(mode),
        call_ensures(Operation::parse, (line,), r),
    ensures
        line@ == "read"@ + seq![' '] + selector ==> r is Ok && r->Ok_0 is Read
            && r->Ok_0->Read_selector@ == selector && r->Ok_0->mode is Text,
        line@ == "read"@ + seq![' '] + (selector + seq![' '] + mode) && mode == "html"@ ==> r is Ok
            && r->Ok_0 is Read && r->Ok_0->Read_selector@ == selector && r->Ok_0->mode is Html,
        line@ == "read"@ + seq![' '] + (selector + seq![' '] + mode) && mode == "text"@ ==> r is Ok
            && r->Ok_0 is Read && r->Ok_0->Read_selector@ == selector && r->Ok_0->mode is Text,
        forall|name: Seq<char>|
            line@ == "read"@ + seq![' '] + (selector + seq![' '] + mode) && mode == #[trigger] (
            "attr:"@ + name) ==> r is Ok && r->Ok_0 is Read && r->Ok_0->Read_selector@ == selector
                && r->Ok_0->mode is Attr && r->Ok_0->mode->Attr_0@ == name,
{
    verbs_are_words();
    let both = selector + seq![' '] + mode;
    assert(both[0] == selector[0]);
    assert(both.last() == mode.last());
    word_and_rest("read"@, selector);
    word_and_rest("read"@, both);
    word_and_rest(selector, mode);
    lone_word(selector);
    reveal_strlit("text");
    reveal_strlit("html");
    reveal_strlit("attr:");
    assert("text"@[0] == 't' && "html"@[0] == 'h' && "attr:"@[0] == 'a');
    assert("text"@.len() == 4 && "html"@.len() == 4 && "attr:"@.len() == 5);
    if r is Ok {
        assert(r->Ok_0@ == parsed_operation(line@)->Ok_0);
    }
    assert forall|name: Seq<char>|
        line@ == "read"@ + seq![' '] + both && mode == #[trigger] ("attr:"@ + name) implies r is Ok
        && r->Ok_0 is Read && r->Ok_0->Read_selector@ == selector && r->Ok_0->mode is Attr
        && r->Ok_0->mode->Attr_0@ == name by {
        assert(mode[0] == 'a');
        assert(mode.take(5) =~= "attr:"@);
        assert(mode.skip(5) =~= name);
    }
}

/// A mode is written as `text`, `html` or `attr:` and a name; nothing stands for `text`,
/// and anything else is refused.
pub proof fn modes_are_written_so(s: &str, r: Result<ReadMode, String>)
    requires
        call_ensures(parse_read_mode, (s,), r),
    ensures
        s@.len() == 0 || s@ == "text"@ ==> r is Ok && r->Ok_0 is Text,
        s@ == "html"@ ==> r is Ok && r->Ok_0 is Html,
        r is Ok ==> s@.len() == 0 || s@ == "text"@ || s@ == "html"@ || s@.len() >= 5 && s@.take(5)
            == "attr:"@,
        s@.len() >= 5 && s@.take(5) == "attr:"@ ==> r is Ok && r->Ok_0 is Attr
            && r->Ok_0->Attr_0@ == s@.skip(5),
{
    reveal_strlit("text");
    reveal_strlit("html");
    reveal_strlit("attr:");
    assert("text"@.len() == 4 && "html"@.len() == 4 && "attr:"@.len() == 5);
    assert("text"@[0] == 't' && "html"@[0] == 'h');
    if r is Ok {
        assert(r->Ok_0@ == read_mode(s@)->Ok_0);
    }
}

/// A line that says to leave or to help does that, an empty one does nothing, and every
/// other is run, or refused, as the operation that it is.
pub proof fn lines_are_read_as_they_are(line: &str, r: Typed, o: Result<Operation, String>)
    requires
        call_ensures(read_line, (line,), r),
        call_ensures(Operation::parse, (line,), o),
    ensures
        trimmed(line@).len() == 0 ==> r is Nothing,
        trimmed(line@) == "exit"@ || trimmed(line@) == "quit"@ ==> r is Quit,
        trimmed(line@) == "help"@ || trimmed(line@) == "?"@ ==> r is Help,
        trimmed(line@).len() > 0 && trimmed(line@) != "exit"@ && trimmed(line@) != "quit"@
            && trimmed(line@) != "help"@ && trimmed(line@) != "?"@ ==> {
            &&& o is Ok <==> r is Run
            &&& o is Err <==> r is Wrong
            &&& o is Ok ==> r->Run_0@ == o->Ok_0@
            &&& o is Err ==> r->Wrong_0@ == o->Err_0@
        },
{
    reveal_strlit("exit");
    reveal_strlit("quit");
    reveal_strlit("help");
    reveal_strlit("?");
    assert("exit"@[0] == 'e' && "quit"@[0] == 'q' && "help"@[0] == 'h' && "?"@[0] == '?');
}

/// Every text that was read is printed on a line of its own, behind an arrow.
pub proof fn reads_are_printed_line_by_line(found: Vec<String>, out: &ChainStepOutput, r: Vec<String>)
    requires
        *out == ChainStepOutput::Reads(found),
        call_ensures(report, (out, false), r),
    ensures
        r@.len() == found@.len(),
        forall|i: int| 0 <= i < r@.len() ==> (#[trigger] r@[i])@ == "  ↳ "@ + found@[i]@,
{
    assert(views(r@).len() == r@.len());
    assert(views(found@).len() == found@.len());
    assert forall|i: int| 0 <= i < r@.len() implies (#[trigger] r@[i])@ == "  ↳ "@ + found@[i]@ by {
        assert(views(r@)[i] == r@[i]@);
        assert(views(found@)[i] == found@[i]@);
    }
}

// ---- headers -----------------------------------------------------------------------

/// A header is its name, a colon and its value; the space around the name and before the
/// value does not count, and a line without a colon is none.
pub proof fn headers_are_parted_at_the_colon(
    raw: &str,
    name: Seq<char>,
    value: Seq<char>,
    r: Result<(&str, &str), String>,
)
    requires
        call_ensures(parse_header, (raw,), r),
    ensures
        !raw@.contains(':') <==> r is Err,
        raw@ == name + seq![':', ' '] + value && is_solid(name) && !name.contains(':') && is_solid(
            value,
        ) ==> r is Ok && r->Ok_0.0@ == name && r->Ok_0.1@ == value,
{
    first_pos_is_first(raw@, ':');
    let k = first_pos(raw@, ':');
    if raw@.contains(':') {
        let i = choose|i: int| 0 <= i < raw@.len() && raw@[i] == ':';
        assert(k <= i);
    }
    if k < raw@.len() {
        assert(raw@[k] == ':');
        assert(raw@.contains(':'));
    }
    if raw@ == name + seq![':', ' '] + value && is_solid(name) && !name.contains(':') && is_solid(
        value,
    ) {
        assert(raw@[name.len() as int] == ':');
        if k < name.len() {
            assert(raw@[k] == name[k]);
            assert(name.contains(':'));
        }
        assert(raw@.take(k) =~= name);
        let tail = raw@.skip(k + 1);
        assert(tail =~= seq![' '] + value);
        assert(tail.skip(1) =~= value);
        assert(tail[0] == ' ');
        assert(trim_start(value) == value);
        assert(trim_start(tail) == value);
        trimmed_keeps_clean(name);
    }
}

proof fn all_pairs(raws: Seq<Seq<char>>)
    ensures
        header_pairs(raws) is Ok <==> forall|i: int|
            0 <= i < raws.len() ==> header_pair(#[trigger] raws[i]) is Some,
        header_pairs(raws) matches Ok(h) ==> h.len() == raws.len() && forall|i: int|
            0 <= i < raws.len() ==> header_pair(raws[i]) == Some(#[trigger] h[i]),
    decreases raws.len(),
{
    if raws.len() > 0 {
        let front = raws.drop_last();
        all_pairs(front);
        assert forall|i: int| 0 <= i < front.len() implies #[trigger] front[i] == raws[i] by {}
        let n = raws.len() - 1;
        assert(raws[n] == raws.last());
        if header_pairs(raws) is Ok {
            let h = header_pairs(raws)->Ok_0;
            let g = header_pairs(front)->Ok_0;
            assert forall|i: int| 0 <= i < raws.len() implies header_pair(raws[i]) == Some(
                #[trigger] h[i],
            ) by {
                if i < n {
                    assert(h[i] == g[i]);
                    assert(header_pair(front[i]) == Some(g[i]));
                }
            }
            assert forall|i: int| 0 <= i < raws.len() implies header_pair(#[trigger] raws[i]) is Some by {
                assert(header_pair(raws[i]) == Some(h[i]));
            }
        }
        if forall|i: int| 0 <= i < raws.len() ==> header_pair(#[trigger] raws[i]) is Some {
            assert forall|i: int| 0 <= i < front.len() implies header_pair(
                #[trigger] front[i],
            ) is Some by {
                assert(header_pair(raws[i]) is Some);
            }
            assert(header_pair(raws[n]) is Some);
        }
    }
}

/// A request goes to its URL with its method and its body. Its headers are those that were
/// given, in order, and behind them what the other options say; a header that is none is
/// refused.
pub proof fn requests_are_described_in_full(
    url: &str,
    method: &str,
    headers: &Vec<String>,
    json: bool,
    body: Option<Vec<u8>>,
    r: Result<FetchRequest, String>,
)
    requires
        call_ensures(build_request, (url, method, headers, json, None::<&str>, body), r),
    ensures
        r is Ok <==> forall|i: int| 0 <= i < headers@.len() ==> (#[trigger] headers@[i])@.contains(':'),
        r matches Ok(q) ==> {
            &&& q.url@ == url@
            &&& q.method@ == method@
            &&& body matches Some(b) ==> q.body@ == b@
            &&& body is None ==> q.body@.len() == 0
            &&& q.headers@.len() >= headers@.len()
            &&& forall|i: int|
                0 <= i < headers@.len() ==> header_pair(headers@[i]@) == Some(
                    ((#[trigger] q.headers@[i]).0@, q.headers@[i].1@),
                )
            &&& !json ==> q.headers@.len() == headers@.len()
            &&& json ==> q.headers@.len() <= headers@.len() + 1
            &&& json ==> exists|i: int|
                0 <= i < q.headers@.len() && same_ignoring_case(
                    (#[trigger] q.headers@[i]).0@,
                    "content-type"@,
                )
            &&& q.headers@.len() > headers@.len() ==> q.headers@.last().0@ == "Content-Type"@
                && q.headers@.last().1@ == "application/json"@
        },
{
    let raws = views(headers@);
    all_pairs(raws);
    assert forall|i: int| 0 <= i < headers@.len() implies (header_pair(raws[i]) is Some <==> (
    #[trigger] headers@[i])@.contains(':')) by {
        assert(raws[i] == headers@[i]@);
        first_pos_is_first(raws[i], ':');
        let k = first_pos(raws[i], ':');
        if raws[i].contains(':') {
            let j = choose|j: int| 0 <= j < raws[i].len() && raws[i][j] == ':';
            assert(k <= j);
        }
    }
    if forall|i: int| 0 <= i < headers@.len() ==> (#[trigger] headers@[i])@.contains(':') {
        assert forall|i: int| 0 <= i < raws.len() implies header_pair(#[trigger] raws[i]) is Some by {
            assert(headers@[i]@.contains(':'));
        }
    }
    if r is Ok {
        let q = r->Ok_0;
        assert(q@.url == q.url@ && q@.method == q.method@ && q@.body == q.body@);
        assert(q@.headers.len() == q.headers@.len());
        assert forall|i: int| 0 <= i < q.headers@.len() implies q@.headers[i] == (
            (#[trigger] q.headers@[i]).0@,
            q.headers@[i].1@,
        ) by {}
        let given = header_pairs(raws)->Ok_0;
        reveal_strlit("Content-Type");
        reveal_strlit("content-type");
        assert(crate::text::ascii_lower("Content-Type"@) =~= crate::text::ascii_lower(
            "content-type"@,
        ));
        assert forall|i: int| 0 <= i < headers@.len() implies header_pair(headers@[i]@) == Some(
            ((#[trigger] q.headers@[i]).0@, q.headers@[i].1@),
        ) by {
            assert(raws[i] == headers@[i]@);
            assert(header_pair(raws[i]) == Some(given[i]));
            assert(q@.headers[i] == given[i]);
        }
        if forall|i: int| 0 <= i < raws.len() ==> header_pair(#[trigger] raws[i]) is Some {
            assert forall|i: int| 0 <= i < headers@.len() implies (#[trigger] headers@[i])@.contains(
                ':',
            ) by {
                assert(header_pair(raws[i]) is Some);
            }
        }
        if json {
            if names(given, "content-type"@) {
                let i = choose|i: int|
                    0 <= i < given.len() && same_ignoring_case(
                        (#[trigger] given[i]).0,
                        "content-type"@,
                    );
                assert(q@.headers[i] == given[i]);
                assert(q.headers@[i].0@ == given[i].0);
            } else {
                let n = q.headers@.len() - 1;
                assert(q@.headers[n].0 == "Content-Type"@);
                assert(same_ignoring_case(q.headers@[n].0@, "content-type"@));
            }
        }
    }
}

/// Credentials go out as a basic authorization, the last header; they are refused where a
/// header says another.
pub proof fn credentials_are_sent(
    url: &str,
    method: &str,
    headers: &Vec<String>,
    json: bool,
    creds: &str,
    body: Option<Vec<u8>>,
    r: Result<FetchRequest, String>,
    written: String,
    bytes: &[u8],
)
    requires
        call_ensures(build_request, (url, method, headers, json, Some(creds), body), r),
        bytes@ == encode_utf8(creds@),
        call_ensures(base64_encode, (bytes,), written),
    ensures
        r matches Ok(q) ==> q.headers@.len() > 0 && q.headers@.last().0@ == "Authorization"@
            && q.headers@.last().1@ == "Basic "@ + written@ && q.url@ == url@ && q.method@
            == method@,
        r is Ok ==> forall|i: int|
            0 <= i < headers@.len() ==> !(header_pair((#[trigger] headers@[i])@) matches Some(p)
                && same_ignoring_case(p.0, "authorization"@)),
{
    let raws = views(headers@);
    all_pairs(raws);
    if r is Ok {
        let q = r->Ok_0;
        assert(q@.url == q.url@ && q@.method == q.method@);
        let n = q.headers@.len() - 1;
        assert(q@.headers.len() == q.headers@.len());
        assert(q@.headers[n] == (q.headers@[n].0@, q.headers@[n].1@));
        let given = header_pairs(raws)->Ok_0;
        assert forall|i: int| 0 <= i < headers@.len() implies !(header_pair(
            (#[trigger] headers@[i])@,
        ) matches Some(p) && same_ignoring_case(p.0, "authorization"@)) by {
            assert(raws[i] == headers@[i]@);
            assert(header_pair(raws[i]) == Some(given[i]));
            if same_ignoring_case(given[i].0, "authorization"@) {
                assert(names(given, "authorization"@));
            }
        }
    }
}

/// The body is what was given as one; else what a file holds; else the JSON.
pub proof fn bodies_are_chosen_in_turn(
    body: Option<&str>,
    file: Option<Vec<u8>>,
    json: Option<&str>,
    r: Option<Vec<u8>>,
)
    requires
        call_ensures(choose_body, (body, file, json), r),
    ensures
        r is None <==> body is None && file is None && json is None,
        body matches Some(b) ==> r->0@ == encode_utf8(b@),
        body is None ==> (file matches Some(f) ==> r->0@ == f@),
        body is None && file is None ==> (json matches Some(j) ==> r->0@ == encode_utf8(j@)),
{
}

// ---- base64 ------------------------------------------------------------------------

/// The digits of base64, each at the place of its value.
pub proof fn base64_has_its_alphabet(n: int)
    requires
        0 <= n < 64,
    ensures
        base64_digit(n)
            == "ABCDEFGHIJKLMNOPQRSTUVWXYZabcdefghijklmnopqrstuvwxyz0123456789+/"@[n],
{
    reveal_strlit("ABCDEFGHIJKLMNOPQRSTUVWXYZabcdefghijklmnopqrstuvwxyz0123456789+/");
    reveal(base64_digit);
    if n < 26 {
    } else if n < 52 {
    } else if n < 62 {
    } else {
    }
}

/// The value of a digit.
pub open spec fn base64_value(c: char) -> int {
    if 'A' <= c <= 'Z' {
        c as int - 'A' as int
    } else if 'a' <= c <= 'z' {
        c as int - 'a' as int + 26
    } else if '0' <= c <= '9' {
        c as int - '0' as int + 52
    } else if c == '+' {
        62
    } else {
        63
    }
}

/// Reads base64: each four digits are three bytes, or fewer where the last are filled up
/// with `=`.
pub open spec fn base64_bytes(s: Seq<char>) -> Seq<u8>
    decreases s.len(),
{
    if s.len() < 4 {
        seq![]
    } else {
        let n = 262144 * base64_value(s[0]) + 4096 * base64_value(s[1]) + (if s[2] == '=' {
            0
        } else {
            64 * base64_value(s[2])
        }) + (if s[3] == '=' {
            0
        } else {
            base64_value(s[3])
        });
        let a = (n / 65536) as u8;
        let b = (n / 256 % 256) as u8;
        let c = (n % 256) as u8;
        if s[2] == '=' {
            seq![a]
        } else if s[3] == '=' {
            seq![a, b]
        } else {
            seq![a, b, c] + base64_bytes(s.skip(4))
        }
    }
}

proof fn digit_reads_back(n: int)
    requires
        0 <= n < 64,
    ensures
        base64_value(base64_digit(n)) == n,
        base64_digit(n) != '=',
{
    reveal(base64_digit);
}

proof fn bytes_of_three(a: int, b: int, c: int, n: int)
    requires
        n == a * 65536 + b * 256 + c,
        0 <= a < 256,
        0 <= b < 256,
        0 <= c < 256,
    ensures
        a == n / 65536,
        b == n / 256 % 256,
        c == n % 256,
        0 <= n < 16777216,
        c == 0 ==> n % 64 == 0,
        b == 0 && c == 0 ==> n / 64 % 64 == 0,
{
}

proof fn digits_of_four(n: int)
    requires
        0 <= n < 16777216,
    ensures
        262144 * (n / 262144) + 4096 * (n / 4096 % 64) + 64 * (n / 64 % 64) + n % 64 == n,
        0 <= n / 262144 < 64,
{
    assert(n / 64 / 64 == n / 4096);
    assert(n / 4096 / 64 == n / 262144);
}

proof fn quad_reads_back(a: u8, b: u8, c: u8)
    ensures
        ({
            let q = base64_quad(a, b, c);
            let n = a as int * 65536 + b as int * 256 + c as int;
            &&& q.len() == 4
            &&& 262144 * base64_value(q[0]) + 4096 * base64_value(q[1]) + 64 * base64_value(q[2])
                + base64_value(q[3]) == n
            &&& q[0] != '=' && q[1] != '=' && q[2] != '=' && q[3] != '='
            &&& n / 65536 == a && n / 256 % 256 == b && n % 256 == c
            &&& c == 0 ==> base64_value(q[3]) == 0
            &&& b == 0 && c == 0 ==> base64_value(q[2]) == 0
        }),
{
    let n = a as int * 65536 + b as int * 256 + c as int;
    bytes_of_three(a as int, b as int, c as int, n);
    digits_of_four(n);
    digit_reads_back(n / 262144);
    digit_reads_back(n / 4096 % 64);
    digit_reads_back(n / 64 % 64);
    digit_reads_back(n % 64);
}

/// What is written in base64 reads back as it was, byte for byte.
pub proof fn base64_reads_back(s: Seq<u8>)
    ensures
        base64_bytes(base64(s)) == s,
    decreases s.len(),
{
    let t = base64(s);
    if s.len() == 0 {
        assert(base64_bytes(t) =~= s);
    } else if s.len() == 1 {
        quad_reads_back(s[0], 0, 0);
        let q = base64_quad(s[0], 0, 0);
        assert(t[0] == q[0] && t[1] == q[1] && t[2] == '=' && t[3] == '=');
        assert(base64_bytes(t) =~= s);
    } else if s.len() == 2 {
        quad_reads_back(s[0], s[1], 0);
        let q = base64_quad(s[0], s[1], 0);
        assert(t[0] == q[0] && t[1] == q[1] && t[2] == q[2] && t[3] == '=');
        assert(base64_bytes(t) =~= s);
    } else {
        quad_reads_back(s[0], s[1], s[2]);
        let q = base64_quad(s[0], s[1], s[2]);
        base64_reads_back(s.skip(3));
        assert(t[0] == q[0] && t[1] == q[1] && t[2] == q[2] && t[3] == q[3]);
        assert(t.skip(4) =~= base64(s.skip(3)));
        assert(base64_bytes(t) =~= seq![s[0], s[1], s[2]] + s.skip(3));
        assert(base64_bytes(t) =~= s);
    }
}

/// The encoding of bytes reads back as these bytes.
pub proof fn encodings_read_back(input: &[u8], r: String)
    requires
        call_ensures(base64_encode, (input,), r),
    ensures
        base64_bytes(r@) == input@,
        r@.len() == 4 * ((input@.len() + 2) / 3),
{
    base64_reads_back(input@);
    encoded_len(input@);
}

proof fn encoded_len(s: Seq<u8>)
    ensures
        base64(s).len() == 4 * ((s.len() + 2) / 3),
    decreases s.len(),
{
    if s.len() >= 3 {
        encoded_len(s.skip(3));
    }
}

// ---- the other options -------------------------------------------------------------

/// The list of blocked hosts holds what was asked for: each extra host, as an entry, and
/// the known trackers where they are to be blocked; there is none where nothing is.
pub proof fn asked_for_hosts_are_blocked(
    block_trackers: bool,
    extra: &Vec<String>,
    r: Option<TrackerBlocklist>,
    trackers: TrackerBlocklist,
)
    requires
        call_ensures(build_blocklist, (block_trackers, extra), r),
        call_ensures(TrackerBlocklist::default_set, (), trackers),
    ensures
        r is None <==> !block_trackers && extra@.len() == 0,
        r matches Some(list) ==> {
            &&& forall|i: int|
                0 <= i < extra@.len() && host_entry((#[trigger] extra@[i])@).len() > 0
                    ==> list@.contains(host_entry(extra@[i]@))
            &&& block_trackers ==> forall|h: Seq<char>| #[trigger]
                trackers@.contains(h) ==> list@.contains(h)
            &&& forall|h: Seq<char>| #[trigger]
                list@.contains(h) ==> block_trackers && trackers@.contains(h) || exists|i: int|
                    0 <= i < extra@.len() && host_entry((#[trigger] extra@[i])@) == h
        },
{
    if r is Some {
        let list = r->0;
        let d: Seq<Seq<char>> = if block_trackers {
            default_trackers()
        } else {
            seq![]
        };
        let v = views(extra@);
        let all = d + v;
        assert forall|i: int|
            0 <= i < extra@.len() && host_entry((#[trigger] extra@[i])@).len()
                > 0 implies list@.contains(host_entry(extra@[i]@)) by {
            assert(v[i] == extra@[i]@);
            assert(all[d.len() + i] == v[i]);
            assert(host_entry(all[d.len() + i]) == host_entry(extra@[i]@));
        }
        assert forall|h: Seq<char>| block_trackers && #[trigger] trackers@.contains(h) implies list@.contains(
            h,
        ) by {
            let i = choose|i: int|
                0 <= i < default_trackers().len() && host_entry(#[trigger] default_trackers()[i])
                    == h;
            assert(all[i] == default_trackers()[i]);
            assert(host_entry(all[i]) == h);
        }
        assert forall|h: Seq<char>| #[trigger] list@.contains(h) implies block_trackers
            && trackers@.contains(h) || exists|i: int|
            0 <= i < extra@.len() && host_entry((#[trigger] extra@[i])@) == h by {
            let i = choose|i: int| 0 <= i < all.len() && host_entry(#[trigger] all[i]) == h;
            if i < d.len() {
                assert(all[i] == default_trackers()[i]);
                assert(host_entry(default_trackers()[i]) == h);
            } else {
                assert(all[i] == v[i - d.len()]);
                assert(v[i - d.len()] == extra@[i - d.len()]@);
            }
        }
    }
}

/// Every known tracker is on the default list, and nothing else.
pub proof fn default_list_is_the_known_trackers(r: TrackerBlocklist)
    requires
        call_ensures(TrackerBlocklist::default_set, (), r),
    ensures
        r@.contains("google-analytics.com"@),
        r@.contains("googletagmanager.com"@),
        r@.contains("doubleclick.net"@),
        r@.contains("googlesyndication.com"@),
        r@.contains("googleadservices.com"@),
        r@.contains("google-tag.com"@),
        r@.contains("connect.facebook.net"@),
        r@.contains("scorecardresearch.com"@),
        r@.contains("mixpanel.com"@),
        r@.contains("segment.com"@),
        r@.contains("segment.io"@),
        r@.contains("hotjar.com"@),
        r@.contains("fullstory.com"@),
        r@.contains("amplitude.com"@),
        forall|h: Seq<char>| #[trigger]
            r@.contains(h) ==> h == "google-analytics.com"@ || h == "googletagmanager.com"@ || h
                == "doubleclick.net"@ || h == "googlesyndication.com"@ || h
                == "googleadservices.com"@ || h == "google-tag.com"@ || h == "connect.facebook.net"@
                || h == "scorecardresearch.com"@ || h == "mixpanel.com"@ || h == "segment.com"@ || h
                == "segment.io"@ || h == "hotjar.com"@ || h == "fullstory.com"@ || h
                == "amplitude.com"@,
{
    reveal_strlit("google-analytics.com");
    reveal_strlit("googletagmanager.com");
    reveal_strlit("doubleclick.net");
    reveal_strlit("googlesyndication.com");
    reveal_strlit("googleadservices.com");
    reveal_strlit("google-tag.com");
    reveal_strlit("connect.facebook.net");
    reveal_strlit("scorecardresearch.com");
    reveal_strlit("mixpanel.com");
    reveal_strlit("segment.com");
    reveal_strlit("segment.io");
    reveal_strlit("hotjar.com");
    reveal_strlit("fullstory.com");
    reveal_strlit("amplitude.com");
    let s = default_trackers();
    is_entry(s[0]);
    is_entry(s[1]);
    is_entry(s[2]);
    is_entry(s[3]);
    is_entry(s[4]);
    is_entry(s[5]);
    is_entry(s[6]);
    is_entry(s[7]);
    is_entry(s[8]);
    is_entry(s[9]);
    is_entry(s[10]);
    is_entry(s[11]);
    is_entry(s[12]);
    is_entry(s[13]);
    assert forall|h: Seq<char>| #[trigger] r@.contains(h) implies h == "google-analytics.com"@ || h
        == "googletagmanager.com"@ || h == "doubleclick.net"@ || h == "googlesyndication.com"@ || h
        == "googleadservices.com"@ || h == "google-tag.com"@ || h == "connect.facebook.net"@ || h
        == "scorecardresearch.com"@ || h == "mixpanel.com"@ || h == "segment.com"@ || h
        == "segment.io"@ || h == "hotjar.com"@ || h == "fullstory.com"@ || h
        == "amplitude.com"@ by {
        let i = choose|i: int| 0 <= i < s.len() && host_entry(#[trigger] s[i]) == h;
        assert(host_entry(s[i]) == s[i]);
    }
}

proof fn is_entry(s: Seq<char>)
    requires
        s.len() > 0,
        forall|i: int|
            0 <= i < s.len() ==> 'a' <= #[trigger] s[i] <= 'z' || s[i] == '-' || s[i] == '.',
    ensures
        host_entry(s) == s,
{
    let a = s[0];
    let z = s[s.len() - 1];
    assert('a' <= a <= 'z' || a == '-' || a == '.');
    assert('a' <= z <= 'z' || z == '-' || z == '.');
    trimmed_keeps_clean(s);
    assert(crate::text::ascii_lower(s) =~= s);
}

/// A page is run with its scripts if and only if something asks for them.
pub proof fn scripts_run_where_asked(eval: bool, selector: bool, stealth: bool, r: bool)
    requires
        call_ensures(needs_js, (eval, selector, stealth), r),
    ensures
        eval ==> r,
        selector ==> r,
        stealth ==> r,
        !eval && !selector && !stealth ==> !r,
{
}

/// Lines are printed one behind the other, each ended.
pub proof fn lines_are_printed_in_order(lines: &Vec<String>, r: String)
    requires
        call_ensures(print_lines, (lines,), r),
    ensures
        r@ == views(lines@).map_values(|l: Seq<char>| l + "\n"@).flatten(),
{
    lines_are_flat(views(lines@));
}

proof fn lines_are_flat(lines: Seq<Seq<char>>)
    ensures
        lines_text(lines) == lines.map_values(|l: Seq<char>| l + "\n"@).flatten(),
    decreases lines.len(),
{
    let f = |l: Seq<char>| l + "\n"@;
    if lines.len() == 0 {
        assert(lines.map_values(f) =~= seq![]);
    } else {
        lines_are_flat(lines.drop_last());
        let before = lines.drop_last().map_values(f);
        assert(lines.map_values(f) =~= before.push(f(lines.last())));
        before.lemma_flatten_push(f(lines.last()));
        assert(lines_text(lines) =~= lines_text(lines.drop_last()) + f(lines.last()));
    }
}

/// Links are printed as their URL, a tab and their text.
pub proof fn links_are_printed_in_order(links: &Vec<Link>, r: String)
    requires
        call_ensures(print_links, (links,), r),
    ensures
        r@ == links@.map_values(|l: Link| l.url@ + "\t"@ + l.text@ + "\n"@).flatten(),
{
    let lines = crate::cli::request::link_lines(crate::extract::link_views(links@));
    lines_are_flat(lines);
    assert(lines.map_values(|l: Seq<char>| l + "\n"@) =~= links@.map_values(
        |l: Link| l.url@ + "\t"@ + l.text@ + "\n"@,
    ));
}

/// Seconds are a thousand milliseconds each, as far as they can be counted.
pub proof fn seconds_are_thousands(secs: u64, r: u64)
    requires
        call_ensures(millis, (secs,), r),
    ensures
        secs <= u64::MAX / 1000 ==> r == secs * 1000,
        secs > u64::MAX / 1000 ==> r == u64::MAX,
{
}

/// A client is built from its options; no limit on time stands as 0.
pub proof fn clients_follow_their_options(
    jar: Option<CookieJar>,
    proxy: Option<&str>,
    timeout_secs: u64,
    blocklist: Option<TrackerBlocklist>,
    ca_files: &Vec<String>,
    user_agent: Option<&str>,
    max_redirects: u32,
    r: FetcherBuilder,
)
    requires
        call_ensures(
            build_client,
            (jar, proxy, timeout_secs, blocklist, ca_files, user_agent, max_redirects),
            r,
        ),
    ensures
        timeout_secs == 0 ==> r.request_timeout_ms is None,
        0 < timeout_secs <= u64::MAX / 1000 ==> r.request_timeout_ms == Some(
            (timeout_secs * 1000) as u64,
        ),
        r.cookie_jar == jar,
        r.tracker_blocklist == blocklist,
        r.max_redirects == max_redirects,
        proxy matches Some(p) ==> r.proxy is Some && r.proxy->0@ == p@,
        proxy is None ==> r.proxy is None,
        user_agent matches Some(u) ==> r.user_agent is Some && r.user_agent->0@ == u@,
        user_agent is None ==> r.user_agent is None,
        views(r.extra_ca_files@) == views(ca_files@),
{
}

/// What is put out of a page: the page itself, its text, or its links, line by line.
pub proof fn pages_are_put_out(
    body: Vec<u8>,
    bytes: &[u8],
    dump: DumpFormat,
    url: &str,
    r: Result<Vec<u8>, OutputError>,
    text: Result<String, crate::extract::Error>,
    links: Result<Vec<Link>, crate::extract::Error>,
    printed: String,
)
    requires
        bytes@ == body@,
        call_ensures(render, (body, dump, None::<&str>, None::<&str>, url), r),
        call_ensures(extract_text, (bytes,), text),
        call_ensures(extract_links, (bytes, url), links),
        links matches Ok(v) ==> call_ensures(print_links, (&v,), printed),
        crate::urls::parsed_url(url@) is Some,
    ensures
        dump == DumpFormat::Html ==> r is Ok && r->Ok_0@ == body@,
        dump == DumpFormat::Text ==> (r is Ok <==> text is Ok) && (r is Ok ==> r->Ok_0@
            == encode_utf8(text->Ok_0@)),
        dump == DumpFormat::Links ==> (r is Ok <==> links is Ok) && (r is Ok ==> r->Ok_0@
            == encode_utf8(printed@)),
{
}

/// What is selected of a page is put out line by line, whatever else would be.
pub proof fn selections_are_put_out(
    body: Vec<u8>,
    dump: DumpFormat,
    selector: &str,
    url: &str,
    html: &str,
    r: Result<Vec<u8>, OutputError>,
    found: Result<Vec<String>, crate::dom::Error>,
    printed: String,
    attr: &str,
    r2: Result<Vec<u8>, OutputError>,
    found2: Result<Vec<String>, crate::dom::Error>,
    printed2: String,
)
    requires
        body@ == encode_utf8(html@),
        call_ensures(render, (body, dump, Some(selector), None::<&str>, url), r),
        call_ensures(select_text, (html, selector), found),
        found matches Ok(v) ==> call_ensures(print_lines, (&v,), printed),
        call_ensures(render, (body, dump, Some(selector), Some(attr), url), r2),
        call_ensures(select_attr, (html, selector, attr), found2),
        found2 matches Ok(v) ==> call_ensures(print_lines, (&v,), printed2),
    ensures
        r is Ok <==> found is Ok,
        r is Ok ==> r->Ok_0@ == encode_utf8(printed@),
        r2 is Ok <==> found2 is Ok,
        r2 is Ok ==> r2->Ok_0@ == encode_utf8(printed2@),
{
    vstd::utf8::encode_utf8_valid_utf8(html@);
    assert forall|h: Seq<char>| body@ == #[trigger] encode_utf8(h) implies h == html@ by {
        vstd::utf8::encode_utf8_decode_utf8(h);
        vstd::utf8::encode_utf8_decode_utf8(html@);
    }
}

} // verus!
