//! A structured view of a page: what is on it, and the selectors to use next.
use crate::dom::model::{known, walkable, NodeModel};
use crate::dom::{
    attr_at, parent_at, raw_ids, selected_below, tag_at, tag_below, text_at, text_view, Document,
    NodeId,
};
use crate::text::{
    ascii_lower, ascii_words, byte_len, byte_len_concat, byte_prefix, char_is_whitespace, chars_of,
    eq_ignore_ascii_case, fitting, fitting_fits, is_whitespace, joined, same, same_ignoring_case,
    split_ascii_whitespace, to_ascii_lowercase, trim, trimmed, upper_text, uppercase, views,
};
use crate::textmap::TextMap;
use crate::urls::{join_url, joined_url};
use vstd::prelude::*;
use vstd::string::*;

pub mod laws;
pub mod pages;

verus! {

pub const DEFAULT_TEXT_SUMMARY_BYTES: usize = 2048;

/// What a shortened text ends in.
pub const TRUNCATION_MARKER: &'static str = " […]";

#[derive(Clone, Debug)]
pub struct FormSnapshot {
    pub selector: String,
    pub action: Option<String>,
    /// In upper case; `"GET"` where the form has no `method`.
    pub method: String,
    pub fields: Vec<InputSnapshot>,
}

#[derive(Clone, Debug)]
pub struct InputSnapshot {
    pub selector: String,
    /// The `type` of an input; the element name of other fields.
    pub kind: String,
    pub name: Option<String>,
    /// The text of the label that belongs to the field.
    pub label: Option<String>,
    pub value: Option<String>,
    pub placeholder: Option<String>,
    pub required: bool,
}

#[derive(Clone, Debug)]
pub struct LinkSnapshot {
    pub selector: String,
    pub text: String,
    /// The absolute URL where the page URL can be read, else the attribute as it stands.
    pub href: String,
}

#[derive(Clone, Debug)]
pub struct ButtonSnapshot {
    pub selector: String,
    pub text: String,
    pub kind: String,
}

#[derive(Clone, Debug)]
pub struct HeadingSnapshot {
    pub level: u8,
    pub text: String,
}

/// One entry of the indexed list of things that can be acted on.
#[derive(Clone, Debug)]
pub struct InteractiveElement {
    pub index: usize,
    pub kind: String,
    pub selector: String,
    pub label: String,
}

/// How a snapshot is made.
#[derive(Clone, Copy, Debug)]
pub struct SnapshotOpts {
    /// The most bytes that `text_summary` may take.
    pub max_text_summary_bytes: usize,
}

impl Default for SnapshotOpts {
    fn default() -> (r: SnapshotOpts)
        ensures
            r.max_text_summary_bytes == DEFAULT_TEXT_SUMMARY_BYTES,
    {
        SnapshotOpts { max_text_summary_bytes: DEFAULT_TEXT_SUMMARY_BYTES }
    }
}

pub struct PageSnapshot {
    pub url: String,
    pub title: String,
    pub forms: Vec<FormSnapshot>,
    pub links: Vec<LinkSnapshot>,
    pub buttons: Vec<ButtonSnapshot>,
    /// The fields that stand in no form.
    pub inputs: Vec<InputSnapshot>,
    pub headings: Vec<HeadingSnapshot>,
    /// Forms with their fields, fields in no form, links and buttons; the index
    /// of each is its position.
    pub interactive: Vec<InteractiveElement>,
    /// The visible text of the body, shortened.
    pub text_summary: String,
    /// `<meta>` contents by `property` or `name`.
    pub meta: TextMap,
}

// ---- whitespace and length -------------------------------------------------

/// The text with every run of whitespace as one space; `after` says that
/// whitespace or the start of the text comes right before.
pub open spec fn spaced(s: Seq<char>, after: bool) -> Seq<char>
    decreases s.len(),
{
    if s.len() == 0 {
        seq![]
    } else if is_whitespace(s[0]) {
        (if after {
            seq![]
        } else {
            seq![' ']
        }) + spaced(s.skip(1), true)
    } else {
        seq![s[0]] + spaced(s.skip(1), false)
    }
}

pub open spec fn without_last_space(s: Seq<char>) -> Seq<char> {
    if s.len() > 0 && s.last() == ' ' {
        s.drop_last()
    } else {
        s
    }
}

/// The text with whitespace runs as single spaces and none at its ends.
pub open spec fn collapsed(s: Seq<char>) -> Seq<char> {
    without_last_space(spaced(s, true))
}

pub fn collapse_whitespace(s: &str) -> (r: String)
    ensures
        r@ == collapsed(s@),
{
    let v = chars_of(s);
    let mut out: Vec<char> = Vec::new();
    let mut after: bool = true;
    let mut i: usize = 0;
    assert(v@.skip(0) == v@);
    assert(Seq::<char>::empty() + spaced(s@, true) == spaced(s@, true));
    while i < v.len()
        invariant
            i <= v@.len(),
            v@ == s@,
            spaced(s@, true) == out@ + spaced(v@.skip(i as int), after),
        decreases v@.len() - i,
    {
        let ghost rest = v@.skip(i as int);
        let ghost prior = out@;
        assert(rest.skip(1) == v@.skip(i + 1));
        let c: char = v[i];
        if char_is_whitespace(c) {
            if !after {
                out.push(' ');
                assert(prior + (seq![' '] + spaced(rest.skip(1), true)) == out@ + spaced(
                    rest.skip(1),
                    true,
                ));
                after = true;
            } else {
                assert(Seq::<char>::empty() + spaced(rest.skip(1), true) == spaced(
                    rest.skip(1),
                    true,
                ));
            }
        } else {
            out.push(c);
            assert(prior + (seq![c] + spaced(rest.skip(1), false)) == out@ + spaced(
                rest.skip(1),
                false,
            ));
            after = false;
        }
        i = i + 1;
    }
    assert(out@ + Seq::<char>::empty() == out@);
    let n: usize = out.len();
    if n > 0 && out[n - 1] == ' ' {
        out.pop();
    }
    crate::text::string_of(out.as_slice())
}

/// The runs of characters between whitespace, none of them empty; `word` is the start
/// of the first.
pub open spec fn words_from(s: Seq<char>, word: Seq<char>) -> Seq<Seq<char>>
    decreases s.len(),
{
    let first = if word.len() > 0 {
        seq![word]
    } else {
        seq![]
    };
    if s.len() == 0 {
        first
    } else if is_whitespace(s[0]) {
        first + words_from(s.skip(1), seq![])
    } else {
        words_from(s.skip(1), word.push(s[0]))
    }
}

/// The words of a text.
pub open spec fn words(s: Seq<char>) -> Seq<Seq<char>> {
    words_from(s, seq![])
}

/// A word: not empty, and without whitespace.
pub open spec fn is_word(w: Seq<char>) -> bool {
    w.len() > 0 && forall|i: int| 0 <= i < w.len() ==> !is_whitespace(#[trigger] w[i])
}

proof fn words_are_words(s: Seq<char>, word: Seq<char>)
    requires
        word.len() > 0 ==> is_word(word),
    ensures
        forall|i: int| 0 <= i < words_from(s, word).len() ==> is_word(#[trigger] words_from(s, word)[i]),
    decreases s.len(),
{
    if s.len() > 0 {
        if is_whitespace(s[0]) {
            let rest = words_from(s.skip(1), seq![]);
            words_are_words(s.skip(1), seq![]);
            let first: Seq<Seq<char>> = if word.len() > 0 {
                seq![word]
            } else {
                seq![]
            };
            assert(words_from(s, word) =~= first + rest);
            assert forall|i: int| 0 <= i < (first + rest).len() implies is_word(
                #[trigger] (first + rest)[i],
            ) by {
                if i >= first.len() {
                    assert((first + rest)[i] == rest[i - first.len()]);
                }
            }
        } else {
            let next = word.push(s[0]);
            assert(is_word(next)) by {
                assert forall|i: int| 0 <= i < next.len() implies !is_whitespace(#[trigger] next[i]) by {
                    if i < word.len() {
                        assert(next[i] == word[i]);
                    }
                }
            }
            words_are_words(s.skip(1), next);
            assert(words_from(s, word) == words_from(s.skip(1), next));
        }
    } else if word.len() > 0 {
        assert(words_from(s, word) =~= seq![word]);
        assert(seq![word][0] == word);
    }
}

/// A text gives no words where it gives nothing but spaces.
proof fn words_need_text(s: Seq<char>, word: Seq<char>)
    ensures
        words_from(s, seq![]).len() == 0 <==> spaced(s, true).len() == 0,
        word.len() > 0 ==> words_from(s, word).len() > 0,
    decreases s.len(),
{
    if s.len() > 0 {
        let one = Seq::<char>::empty().push(s[0]);
        words_need_text(s.skip(1), one);
        words_need_text(s.skip(1), word.push(s[0]));
    }
}

proof fn joined_from_front(a: Seq<char>, parts: Seq<Seq<char>>, sep: Seq<char>)
    requires
        parts.len() > 0,
    ensures
        joined(seq![a] + parts, sep) == a + sep + joined(parts, sep),
    decreases parts.len(),
{
    let all = seq![a] + parts;
    assert(all.last() == parts.last());
    assert(all.drop_last() =~= seq![a] + parts.drop_last());
    if parts.len() == 1 {
        assert(all.drop_last() =~= seq![a]);
        assert(joined(seq![a], sep) == a);
        assert(joined(all, sep) =~= a + sep + parts[0]);
    } else {
        joined_from_front(a, parts.drop_last(), sep);
        assert(joined(all, sep) =~= a + sep + joined(parts, sep));
    }
}

proof fn collapsing_joins(s: Seq<char>, word: Seq<char>)
    requires
        word.len() > 0 ==> is_word(word),
    ensures
        word.len() == 0 ==> without_last_space(spaced(s, true)) == joined(
            words_from(s, seq![]),
            seq![' '],
        ),
        word.len() > 0 ==> without_last_space(word + spaced(s, false)) == joined(
            words_from(s, word),
            seq![' '],
        ),
    decreases s.len(),
{
    let empty = Seq::<char>::empty();
    if s.len() == 0 {
        assert(word + spaced(s, false) =~= word);
        if word.len() > 0 {
            assert(!is_whitespace(word[word.len() - 1]));
        }
    } else if is_whitespace(s[0]) {
        let rest = s.skip(1);
        collapsing_joins(rest, empty);
        if word.len() > 0 {
            words_need_text(rest, empty);
            let r = spaced(rest, true);
            let ws = words_from(rest, empty);
            assert(words_from(s, word) =~= seq![word] + ws);
            if ws.len() == 0 {
                assert(r =~= empty);
                assert(word + spaced(s, false) =~= word.push(' '));
                assert(word.push(' ').drop_last() =~= word);
                assert(seq![word] + ws =~= seq![word]);
            } else {
                joined_from_front(word, ws, seq![' ']);
                let all = word + spaced(s, false);
                assert(all =~= word + seq![' '] + r);
                assert(all.last() == r.last());
                assert(without_last_space(all) =~= word + seq![' '] + without_last_space(r));
            }
        } else {
            assert(words_from(s, empty) =~= words_from(rest, empty));
        }
    } else {
        let next = word.push(s[0]);
        assert(is_word(next)) by {
            assert forall|i: int| 0 <= i < next.len() implies !is_whitespace(#[trigger] next[i]) by {
                if i < word.len() {
                    assert(next[i] == word[i]);
                }
            }
        }
        collapsing_joins(s.skip(1), next);
        assert(next + spaced(s.skip(1), false) =~= word + (seq![s[0]] + spaced(s.skip(1), false)));
        if word.len() == 0 {
            assert(word =~= empty);
            assert(word + spaced(s, true) =~= spaced(s, true));
        }
    }
}

/// Collapsing whitespace joins the words of a text by single spaces.
pub proof fn collapsed_is_the_words(s: Seq<char>)
    ensures
        collapsed(s) == joined(words(s), seq![' ']),
{
    collapsing_joins(s, seq![]);
}

/// A word in front of a text is its first word, where whitespace or nothing follows.
proof fn word_is_read(w: Seq<char>, t: Seq<char>, start: Seq<char>)
    requires
        forall|i: int| 0 <= i < w.len() ==> !is_whitespace(#[trigger] w[i]),
    ensures
        words_from(w + t, start) == words_from(t, start + w),
    decreases w.len(),
{
    if w.len() == 0 {
        assert(w + t =~= t);
        assert(start + w =~= start);
    } else {
        let all = w + t;
        assert(all[0] == w[0]);
        assert(all.skip(1) =~= w.skip(1) + t);
        assert forall|i: int| 0 <= i < w.skip(1).len() implies !is_whitespace(
            #[trigger] w.skip(1)[i],
        ) by {
            assert(w.skip(1)[i] == w[i + 1]);
        }
        word_is_read(w.skip(1), t, start.push(w[0]));
        assert(start.push(w[0]) + w.skip(1) =~= start + w);
    }
}

proof fn joined_words_read_back(ws: Seq<Seq<char>>)
    requires
        forall|i: int| 0 <= i < ws.len() ==> is_word(#[trigger] ws[i]),
    ensures
        words(joined(ws, seq![' '])) == ws,
    decreases ws.len(),
{
    let empty = Seq::<char>::empty();
    if ws.len() == 0 {
        assert(words(joined(ws, seq![' '])) =~= ws);
    } else if ws.len() == 1 {
        let w = ws[0];
        word_is_read(w, empty, empty);
        assert(w + empty =~= w);
        assert(empty + w =~= w);
        assert(words(w) =~= ws);
    } else {
        let w = ws[0];
        let rest = ws.skip(1);
        assert(ws =~= seq![w] + rest);
        assert forall|i: int| 0 <= i < rest.len() implies is_word(#[trigger] rest[i]) by {
            assert(rest[i] == ws[i + 1]);
        }
        joined_from_front(w, rest, seq![' ']);
        joined_words_read_back(rest);
        let tail = seq![' '] + joined(rest, seq![' ']);
        assert(joined(ws, seq![' ']) =~= w + tail);
        word_is_read(w, tail, empty);
        assert(empty + w =~= w);
        assert(tail.skip(1) =~= joined(rest, seq![' ']));
        assert(words_from(tail, w) =~= seq![w] + rest);
    }
}

/// Collapsing whitespace a second time changes nothing.
pub proof fn collapsing_twice_changes_nothing(s: Seq<char>)
    ensures
        collapsed(collapsed(s)) == collapsed(s),
{
    collapsed_is_the_words(s);
    words_are_words(s, seq![]);
    joined_words_read_back(words(s));
    collapsed_is_the_words(collapsed(s));
}

/// The text with single spaces, shortened to `max` bytes where it is longer.
pub open spec fn shortened(s: Seq<char>, max: int) -> Seq<char> {
    let c = collapsed(s);
    if byte_len(c) <= max {
        c
    } else {
        c.take(fitting(c, if max >= 6 { max - 6 } else { 0 })) + TRUNCATION_MARKER@
    }
}

pub fn truncate_with_marker(s: &str, max_bytes: usize) -> (r: String)
    ensures
        r@ == shortened(s@, max_bytes as int),
{
    let text = collapse_whitespace(s);
    let (_, whole) = byte_prefix(text.as_str(), max_bytes);
    if whole {
        return text;
    }
    let target: usize = max_bytes.saturating_sub(6);
    let (n, _) = byte_prefix(text.as_str(), target);
    assert(text@.subrange(0, n as int) == text@.take(n as int));
    let mut out = text.as_str().substring_char(0, n).to_owned();
    out.append(TRUNCATION_MARKER);
    out
}

/// A shortened text takes no more bytes than allowed, wherever the marker alone fits.
pub proof fn shortened_fits(s: Seq<char>, max: int)
    requires
        max >= 6,
    ensures
        byte_len(shortened(s, max)) <= max,
{
    let c = collapsed(s);
    if byte_len(c) > max {
        fitting_fits(c, max - 6);
        byte_len_concat(c.take(fitting(c, max - 6)), TRUNCATION_MARKER@);
        reveal_strlit(" […]");
        let m = TRUNCATION_MARKER@;
        assert(m =~= seq![' ', '[', '…', ']']);
        reveal_with_fuel(byte_len, 5);
        assert(m.skip(1).skip(1).skip(1).skip(1).len() == 0);
        assert(byte_len(m) == 6);
    }
}

/// A shortened text is a start of the text with single spaces, with the marker
/// behind it wherever something is missing.
pub proof fn shortened_starts_the_text(s: Seq<char>, max: int)
    requires
        max >= 0,
    ensures
        shortened(s, max) == collapsed(s) || exists|n: int|
            0 <= n <= collapsed(s).len() && shortened(s, max) == #[trigger] collapsed(s).take(n)
                + TRUNCATION_MARKER@,
{
    let c = collapsed(s);
    let k = if max >= 6 {
        max - 6
    } else {
        0
    };
    fitting_fits(c, k);
    assert(collapsed(s).take(fitting(c, k)) == c.take(fitting(c, k)));
}

// ---- selectors ---------------------------------------------------------------

/// Exactly one element of the document is matched.
pub open spec fn sole_match(d: Seq<NodeModel>, selector: Seq<char>) -> bool {
    selected_below(d, 0, selector).len() == 1
}

/// `[name=value]`
pub open spec fn attr_selector(name: Seq<char>, value: Seq<char>) -> Seq<char> {
    "["@ + name + "="@ + value + "]"@
}

/// The element's name in lower case, or `*`.
pub open spec fn lower_tag(d: Seq<NodeModel>, id: int) -> Seq<char> {
    ascii_lower(
        match tag_at(d, id) {
            Some(t) => t,
            None => "*"@,
        },
    )
}

/// `[name=value]` for an attribute that the element has, is not empty and tells it apart.
pub open spec fn telling_attr(d: Seq<NodeModel>, id: int, name: Seq<char>) -> Option<Seq<char>> {
    match attr_at(d, id, name) {
        Some(v) if v.len() > 0 && sole_match(d, attr_selector(name, v)) => Some(
            attr_selector(name, v),
        ),
        _ => None,
    }
}

/// `.class` for the first of the given classes that tells an element apart.
pub open spec fn telling_class(d: Seq<NodeModel>, classes: Seq<Seq<char>>) -> Option<Seq<char>>
    decreases classes.len(),
{
    if classes.len() == 0 {
        None
    } else if sole_match(d, "."@ + classes[0]) {
        Some("."@ + classes[0])
    } else {
        telling_class(d, classes.skip(1))
    }
}

/// The first of `#id`, the bare tag, `[name=..]`, `[data-testid=..]`, `[role=..]`
/// and `.class` that matches this element alone; the bare tag where none does.
pub open spec fn best_selector(d: Seq<NodeModel>, id: int) -> Seq<char> {
    let tag = lower_tag(d, id);
    let classes = match attr_at(d, id, "class"@) {
        Some(c) => ascii_words(c),
        None => seq![],
    };
    if attr_at(d, id, "id"@) matches Some(v) && v.len() > 0 && sole_match(d, "#"@ + v) {
        "#"@ + attr_at(d, id, "id"@)->0
    } else if sole_match(d, tag) {
        tag
    } else if telling_attr(d, id, "name"@) is Some {
        telling_attr(d, id, "name"@)->0
    } else if telling_attr(d, id, "data-testid"@) is Some {
        telling_attr(d, id, "data-testid"@)->0
    } else if telling_attr(d, id, "role"@) is Some {
        telling_attr(d, id, "role"@)->0
    } else if telling_class(d, classes) is Some {
        telling_class(d, classes)->0
    } else {
        tag
    }
}

fn is_unique(doc: &Document, selector: &str) -> (r: bool)
    requires
        walkable(doc@),
    ensures
        r == sole_match(doc@, selector@),
{
    let list = doc.query_selector_all(selector);
    assert(raw_ids(list@).len() == list@.len());
    list.len() == 1
}

fn attr_selector_text(name: &str, value: &str) -> (r: String)
    ensures
        r@ == attr_selector(name@, value@),
{
    let mut s = "[".to_owned();
    s.append(name);
    s.append("=");
    s.append(value);
    s.append("]");
    s
}

fn try_attr(doc: &Document, id: NodeId, name: &str) -> (r: Option<String>)
    requires
        walkable(doc@),
    ensures
        text_view(r) == telling_attr(doc@, id.0 as int, name@),
{
    match doc.get_attribute(id, name) {
        Some(v) => {
            if v.as_str().is_empty() {
                return None;
            }
            let sel = attr_selector_text(name, v.as_str());
            if is_unique(doc, sel.as_str()) {
                Some(sel)
            } else {
                None
            }
        },
        None => None,
    }
}

fn lower_tag_of(doc: &Document, id: NodeId) -> (r: String)
    ensures
        r@ == lower_tag(doc@, id.0 as int),
{
    match doc.tag_name(id) {
        Some(t) => to_ascii_lowercase(t.as_str()),
        None => to_ascii_lowercase("*"),
    }
}

/// A selector for the element, one that matches it alone wherever one of the
/// usual kinds does.
pub fn unique_selector(doc: &Document, id: NodeId) -> (r: String)
    requires
        walkable(doc@),
    ensures
        r@ == best_selector(doc@, id.0 as int),
{
    let ghost d = doc@;
    let ghost i = id.0 as int;
    let tag = lower_tag_of(doc, id);
    if let Some(v) = doc.get_attribute(id, "id") {
        if !v.as_str().is_empty() {
            let mut sel = "#".to_owned();
            sel.append(v.as_str());
            if is_unique(doc, sel.as_str()) {
                return sel;
            }
        }
    }
    if is_unique(doc, tag.as_str()) {
        return tag;
    }
    if let Some(sel) = try_attr(doc, id, "name") {
        return sel;
    }
    if let Some(sel) = try_attr(doc, id, "data-testid") {
        return sel;
    }
    if let Some(sel) = try_attr(doc, id, "role") {
        return sel;
    }
    if let Some(class) = doc.get_attribute(id, "class") {
        let classes = split_ascii_whitespace(class.as_str());
        let mut k: usize = 0;
        assert(views(classes@).skip(0) =~= views(classes@));
        while k < classes.len()
            invariant
                k <= classes@.len(),
                walkable(doc@),
                d == doc@,
                i == id.0 as int,
                tag@ == lower_tag(d, i),
                !(attr_at(d, i, "id"@) matches Some(v) && v.len() > 0 && sole_match(d, "#"@ + v)),
                !sole_match(d, tag@),
                telling_attr(d, i, "name"@) is None,
                telling_attr(d, i, "data-testid"@) is None,
                telling_attr(d, i, "role"@) is None,
                attr_at(d, i, "class"@) == Some(class@),
                views(classes@) == ascii_words(class@),
                telling_class(d, views(classes@)) == telling_class(d, views(classes@).skip(k as int)),
            decreases classes@.len() - k,
        {
            let ghost rest = views(classes@).skip(k as int);
            assert(rest[0] == classes@[k as int]@);
            assert(rest.skip(1) =~= views(classes@).skip(k + 1));
            let mut sel = ".".to_owned();
            sel.append(classes[k].as_str());
            if is_unique(doc, sel.as_str()) {
                return sel;
            }
            k = k + 1;
        }
        assert(telling_class(d, views(classes@)) is None);
    }
    tag
}

// ---- fields and labels -------------------------------------------------------

/// The text of a [`InputSnapshot`].
#[verifier::ext_equal]
pub struct InputModel {
    pub selector: Seq<char>,
    pub kind: Seq<char>,
    pub name: Option<Seq<char>>,
    pub label: Option<Seq<char>>,
    pub value: Option<Seq<char>>,
    pub placeholder: Option<Seq<char>>,
    pub required: bool,
}

impl View for InputSnapshot {
    type V = InputModel;

    open spec fn view(&self) -> InputModel {
        InputModel {
            selector: self.selector@,
            kind: self.kind@,
            name: text_view(self.name),
            label: text_view(self.label),
            value: text_view(self.value),
            placeholder: text_view(self.placeholder),
            required: self.required,
        }
    }
}

pub open spec fn input_views(s: Seq<InputSnapshot>) -> Seq<InputModel> {
    s.map_values(|i: InputSnapshot| i@)
}

/// The trimmed text of a node.
pub open spec fn trimmed_text(d: Seq<NodeModel>, id: int) -> Seq<char> {
    trimmed(text_at(d, id, false))
}

/// The text of the first of the given labels that is for `target` and has any.
pub open spec fn label_for(d: Seq<NodeModel>, labels: Seq<int>, target: Seq<char>) -> Option<
    Seq<char>,
>
    decreases labels.len(),
{
    if labels.len() == 0 {
        None
    } else if attr_at(d, labels[0], "for"@) == Some(target) && trimmed_text(d, labels[0]).len()
        > 0 {
        Some(trimmed_text(d, labels[0]))
    } else {
        label_for(d, labels.skip(1), target)
    }
}

/// The text of the nearest label with any, among `from` and what is above it, at
/// most `steps` nodes up.
pub open spec fn label_above(d: Seq<NodeModel>, from: Option<int>, steps: nat) -> Option<Seq<char>>
    decreases steps,
{
    match from {
        Some(p) if steps > 0 => {
            if tag_at(d, p) is Some && same_ignoring_case(tag_at(d, p)->0, "label"@)
                && trimmed_text(d, p).len() > 0 {
                Some(trimmed_text(d, p))
            } else {
                label_above(d, parent_at(d, p), (steps - 1) as nat)
            }
        },
        _ => None,
    }
}

/// The label of a field: one that names the field's id, else one around it.
pub open spec fn label_of(d: Seq<NodeModel>, id: int) -> Option<Seq<char>> {
    let named = match attr_at(d, id, "id"@) {
        Some(v) => label_for(d, selected_below(d, 0, "label"@), v),
        None => None,
    };
    if named is Some {
        named
    } else {
        label_above(d, parent_at(d, id), d.len())
    }
}

fn find_label(doc: &Document, nid: NodeId) -> (r: Option<String>)
    requires
        walkable(doc@),
    ensures
        text_view(r) == label_of(doc@, nid.0 as int),
{
    let ghost d = doc@;
    let ghost id = nid.0 as int;
    if let Some(v) = doc.get_attribute(nid, "id") {
        let labels = doc.query_selector_all("label");
        let ghost all = raw_ids(labels@);
        let mut k: usize = 0;
        assert(all.skip(0) =~= all);
        while k < labels.len()
            invariant
                k <= labels@.len(),
                walkable(doc@),
                d == doc@,
                id == nid.0 as int,
                attr_at(d, id, "id"@) == Some(v@),
                all == raw_ids(labels@),
                all == selected_below(d, 0, "label"@),
                label_for(d, all, v@) == label_for(d, all.skip(k as int), v@),
            decreases labels@.len() - k,
        {
            assert(all.skip(k as int)[0] == labels@[k as int].0);
            assert(all.skip(k as int).skip(1) =~= all.skip(k + 1));
            if let Some(target) = doc.get_attribute(labels[k], "for") {
                if same(target.as_str(), v.as_str()) {
                    let content = doc.text_content(labels[k]);
                    let text = trim(content.as_str());
                    if !text.is_empty() {
                        return Some(text.to_owned());
                    }
                }
            }
            k = k + 1;
        }
        assert(label_for(d, all, v@) is None);
    }
    let mut cur = doc.parent(nid);
    let mut left: usize = doc.node_count();
    while left > 0
        invariant
            walkable(doc@),
            d == doc@,
            id == nid.0 as int,
            label_of(d, id) == label_above(d, crate::dom::raw_id(cur), left as nat),
        decreases left,
    {
        let p = match cur {
            Some(p) => p,
            None => {
                return None;
            },
        };
        if let Some(tag) = doc.tag_name(p) {
            if eq_ignore_ascii_case(tag.as_str(), "label") {
                let content = doc.text_content(p);
                let text = trim(content.as_str());
                if !text.is_empty() {
                    return Some(text.to_owned());
                }
            }
        }
        cur = doc.parent(p);
        left = left - 1;
    }
    None
}

/// The kind of a field.
pub open spec fn field_kind(d: Seq<NodeModel>, id: int) -> Seq<char> {
    let tag = match tag_at(d, id) {
        Some(t) => ascii_lower(t),
        None => seq![],
    };
    if tag == "input"@ {
        match attr_at(d, id, "type"@) {
            Some(t) => ascii_lower(t),
            None => ascii_lower("text"@),
        }
    } else {
        tag
    }
}

pub open spec fn field_model(d: Seq<NodeModel>, id: int) -> InputModel {
    InputModel {
        selector: best_selector(d, id),
        kind: field_kind(d, id),
        name: attr_at(d, id, "name"@),
        label: label_of(d, id),
        value: attr_at(d, id, "value"@),
        placeholder: attr_at(d, id, "placeholder"@),
        required: attr_at(d, id, "required"@) is Some,
    }
}

fn input_snapshot(doc: &Document, nid: NodeId) -> (r: InputSnapshot)
    requires
        walkable(doc@),
    ensures
        r@ == field_model(doc@, nid.0 as int),
{
    let tag = match doc.tag_name(nid) {
        Some(t) => to_ascii_lowercase(t.as_str()),
        None => String::new(),
    };
    let kind = if same(tag.as_str(), "input") {
        match doc.get_attribute(nid, "type") {
            Some(t) => to_ascii_lowercase(t.as_str()),
            None => to_ascii_lowercase("text"),
        }
    } else {
        tag
    };
    let required = doc.get_attribute(nid, "required");
    InputSnapshot {
        selector: unique_selector(doc, nid),
        kind,
        name: doc.get_attribute(nid, "name"),
        label: find_label(doc, nid),
        value: doc.get_attribute(nid, "value"),
        placeholder: doc.get_attribute(nid, "placeholder"),
        required: required.is_some(),
    }
}

/// The fields at or below a node: inputs, then text areas, then selections.
pub open spec fn fields_below(d: Seq<NodeModel>, root: int) -> Seq<int> {
    selected_below(d, root, "input"@) + selected_below(d, root, "textarea"@) + selected_below(
        d,
        root,
        "select"@,
    )
}

fn field_ids(doc: &Document, root: NodeId) -> (r: Vec<NodeId>)
    requires
        walkable(doc@),
    ensures
        raw_ids(r@) == fields_below(doc@, root.0 as int),
{
    let mut out = doc.query_selector_all_within(root, "input");
    let mut areas = doc.query_selector_all_within(root, "textarea");
    let mut selects = doc.query_selector_all_within(root, "select");
    let ghost a = out@;
    let ghost b = areas@;
    let ghost c = selects@;
    out.append(&mut areas);
    out.append(&mut selects);
    assert(raw_ids(out@) =~= raw_ids(a) + raw_ids(b) + raw_ids(c));
    out
}

// ---- the whole page ----------------------------------------------------------

#[verifier::ext_equal]
pub struct FormModel {
    pub selector: Seq<char>,
    pub action: Option<Seq<char>>,
    pub method: Seq<char>,
    pub fields: Seq<InputModel>,
}

#[verifier::ext_equal]
pub struct LinkModel {
    pub selector: Seq<char>,
    pub text: Seq<char>,
    pub href: Seq<char>,
}

#[verifier::ext_equal]
pub struct ButtonModel {
    pub selector: Seq<char>,
    pub text: Seq<char>,
    pub kind: Seq<char>,
}

#[verifier::ext_equal]
pub struct HeadingModel {
    pub level: int,
    pub text: Seq<char>,
}

#[verifier::ext_equal]
pub struct ActionModel {
    pub kind: Seq<char>,
    pub selector: Seq<char>,
    pub label: Seq<char>,
}

#[verifier::ext_equal]
pub struct SnapshotModel {
    pub url: Seq<char>,
    pub title: Seq<char>,
    pub forms: Seq<FormModel>,
    pub links: Seq<LinkModel>,
    pub buttons: Seq<ButtonModel>,
    pub inputs: Seq<InputModel>,
    pub headings: Seq<HeadingModel>,
    pub interactive: Seq<ActionModel>,
    pub text_summary: Seq<char>,
    pub meta: Map<Seq<char>, Seq<char>>,
}

impl View for FormSnapshot {
    type V = FormModel;

    open spec fn view(&self) -> FormModel {
        FormModel {
            selector: self.selector@,
            action: text_view(self.action),
            method: self.method@,
            fields: input_views(self.fields@),
        }
    }
}

impl View for LinkSnapshot {
    type V = LinkModel;

    open spec fn view(&self) -> LinkModel {
        LinkModel { selector: self.selector@, text: self.text@, href: self.href@ }
    }
}

impl View for ButtonSnapshot {
    type V = ButtonModel;

    open spec fn view(&self) -> ButtonModel {
        ButtonModel { selector: self.selector@, text: self.text@, kind: self.kind@ }
    }
}

impl View for HeadingSnapshot {
    type V = HeadingModel;

    open spec fn view(&self) -> HeadingModel {
        HeadingModel { level: self.level as int, text: self.text@ }
    }
}

impl View for InteractiveElement {
    type V = ActionModel;

    open spec fn view(&self) -> ActionModel {
        ActionModel { kind: self.kind@, selector: self.selector@, label: self.label@ }
    }
}

impl View for PageSnapshot {
    type V = SnapshotModel;

    open spec fn view(&self) -> SnapshotModel {
        SnapshotModel {
            url: self.url@,
            title: self.title@,
            forms: self.forms@.map_values(|f: FormSnapshot| f@),
            links: self.links@.map_values(|l: LinkSnapshot| l@),
            buttons: self.buttons@.map_values(|b: ButtonSnapshot| b@),
            inputs: input_views(self.inputs@),
            headings: self.headings@.map_values(|h: HeadingSnapshot| h@),
            interactive: action_views(self.interactive@),
            text_summary: self.text_summary@,
            meta: self.meta@,
        }
    }
}

pub open spec fn action_views(s: Seq<InteractiveElement>) -> Seq<ActionModel> {
    s.map_values(|e: InteractiveElement| e@)
}

/// The index of each element is its position.
pub open spec fn well_indexed(s: Seq<InteractiveElement>) -> bool {
    forall|i: int| 0 <= i < s.len() ==> (#[trigger] s[i]).index == i
}

pub open spec fn form_model(d: Seq<NodeModel>, id: int) -> FormModel {
    FormModel {
        selector: best_selector(d, id),
        action: attr_at(d, id, "action"@),
        method: match attr_at(d, id, "method"@) {
            Some(m) => upper_text(m),
            None => "GET"@,
        },
        fields: fields_below(d, id).map_values(|i: int| field_model(d, i)),
    }
}

/// The fields of all the given forms.
pub open spec fn fields_of(d: Seq<NodeModel>, forms: Seq<int>) -> Seq<int>
    decreases forms.len(),
{
    if forms.len() == 0 {
        seq![]
    } else {
        fields_of(d, forms.drop_last()) + fields_below(d, forms.last())
    }
}

/// Those of the given fields that are not among the taken ones.
pub open spec fn stray_models(d: Seq<NodeModel>, fields: Seq<int>, taken: Seq<int>) -> Seq<
    InputModel,
>
    decreases fields.len(),
{
    if fields.len() == 0 {
        seq![]
    } else if taken.contains(fields.last()) {
        stray_models(d, fields.drop_last(), taken)
    } else {
        stray_models(d, fields.drop_last(), taken).push(field_model(d, fields.last()))
    }
}

/// The absolute URL where there is one, else the reference as it stands.
pub open spec fn resolved_href(url: Seq<char>, href: Seq<char>) -> Seq<char> {
    match joined_url(url, href) {
        Ok(u) => u,
        Err(_) => href,
    }
}

/// Those of the given elements that have a target.
pub open spec fn link_models(d: Seq<NodeModel>, url: Seq<char>, s: Seq<int>) -> Seq<LinkModel>
    decreases s.len(),
{
    if s.len() == 0 {
        seq![]
    } else {
        let before = link_models(d, url, s.drop_last());
        match attr_at(d, s.last(), "href"@) {
            Some(h) => before.push(
                LinkModel {
                    selector: best_selector(d, s.last()),
                    text: trimmed_text(d, s.last()),
                    href: resolved_href(url, h),
                },
            ),
            None => before,
        }
    }
}

pub open spec fn button_model(d: Seq<NodeModel>, id: int) -> ButtonModel {
    ButtonModel {
        selector: best_selector(d, id),
        text: trimmed_text(d, id),
        kind: match attr_at(d, id, "type"@) {
            Some(t) => t,
            None => "submit"@,
        },
    }
}

/// The headings of the first `n` levels, level by level.
pub open spec fn heading_models(d: Seq<NodeModel>, n: nat) -> Seq<HeadingModel>
    decreases n,
{
    if n == 0 {
        seq![]
    } else {
        heading_models(d, (n - 1) as nat) + selected_below(
            d,
            0,
            "h"@ + crate::text::decimal(n),
        ).map_values(|i: int| HeadingModel { level: n as int, text: trimmed_text(d, i) })
    }
}

/// The contents of the given elements by `property` or `name`; later ones replace
/// earlier ones.
pub open spec fn meta_model(d: Seq<NodeModel>, s: Seq<int>) -> Map<Seq<char>, Seq<char>>
    decreases s.len(),
{
    if s.len() == 0 {
        Map::empty()
    } else {
        let before = meta_model(d, s.drop_last());
        let id = s.last();
        let key = if attr_at(d, id, "property"@) is Some {
            attr_at(d, id, "property"@)
        } else {
            attr_at(d, id, "name"@)
        };
        match (key, attr_at(d, id, "content"@)) {
            (Some(k), Some(v)) => before.insert(k, v),
            _ => before,
        }
    }
}

pub open spec fn field_action(m: InputModel) -> ActionModel {
    ActionModel {
        kind: m.kind,
        selector: m.selector,
        label: if m.label is Some {
            m.label->0
        } else if m.placeholder is Some {
            m.placeholder->0
        } else if m.name is Some {
            m.name->0
        } else {
            seq![]
        },
    }
}

pub open spec fn field_actions(s: Seq<InputModel>) -> Seq<ActionModel> {
    s.map_values(|m: InputModel| field_action(m))
}

/// Each form, with its fields behind it.
pub open spec fn form_actions(s: Seq<FormModel>) -> Seq<ActionModel>
    decreases s.len(),
{
    if s.len() == 0 {
        seq![]
    } else {
        let f = s.last();
        form_actions(s.drop_last()).push(
            ActionModel {
                kind: "form"@,
                selector: f.selector,
                label: match f.action {
                    Some(a) => a,
                    None => seq![],
                },
            },
        ) + field_actions(f.fields)
    }
}

pub open spec fn link_action(m: LinkModel) -> ActionModel {
    ActionModel { kind: "link"@, selector: m.selector, label: m.text }
}

pub open spec fn button_action(m: ButtonModel) -> ActionModel {
    ActionModel { kind: "button"@, selector: m.selector, label: m.text }
}

/// What can be acted on: forms with their fields, other fields, links, buttons.
pub open spec fn actions(
    forms: Seq<FormModel>,
    inputs: Seq<InputModel>,
    links: Seq<LinkModel>,
    buttons: Seq<ButtonModel>,
) -> Seq<ActionModel> {
    form_actions(forms) + field_actions(inputs) + links.map_values(|m: LinkModel| link_action(m))
        + buttons.map_values(|m: ButtonModel| button_action(m))
}

/// The snapshot of a document at a URL.
pub open spec fn snapshot_model(d: Seq<NodeModel>, url: Seq<char>, max: int) -> SnapshotModel {
    let form_ids = selected_below(d, 0, "form"@);
    let forms = form_ids.map_values(|i: int| form_model(d, i));
    let inputs = stray_models(d, fields_below(d, 0), fields_of(d, form_ids));
    let links = link_models(d, url, selected_below(d, 0, "a"@));
    let buttons = selected_below(d, 0, "button"@).map_values(|i: int| button_model(d, i));
    SnapshotModel {
        url,
        title: match tag_below(d, 0, "title"@) {
            Some(i) => trimmed_text(d, i),
            None => seq![],
        },
        forms,
        links,
        buttons,
        inputs,
        headings: heading_models(d, 6),
        interactive: actions(forms, inputs, links, buttons),
        text_summary: shortened(
            match tag_below(d, 0, "body"@) {
                Some(i) => text_at(d, i, false),
                None => seq![],
            },
            max,
        ),
        meta: meta_model(d, selected_below(d, 0, "meta"@)),
    }
}

/// What is selected stands in the document.
pub(crate) proof fn selected_in_range(d: Seq<NodeModel>, root: int, selector: Seq<char>)
    requires
        walkable(d),
    ensures
        forall|i: int|
            0 <= i < selected_below(d, root, selector).len() ==> 0 <= #[trigger] selected_below(
                d,
                root,
                selector,
            )[i] < d.len(),
{
    crate::dom::selected_are_known(d, root, selector);
    assert forall|i: int| 0 <= i < selected_below(d, root, selector).len() implies 0
        <= #[trigger] selected_below(d, root, selector)[i] < d.len() by {
        assert(known(d, selected_below(d, root, selector)[i]));
    }
}

proof fn fields_in_range(d: Seq<NodeModel>, root: int)
    requires
        walkable(d),
    ensures
        forall|i: int|
            0 <= i < fields_below(d, root).len() ==> 0 <= #[trigger] fields_below(d, root)[i]
                < d.len(),
{
    selected_in_range(d, root, "input"@);
    selected_in_range(d, root, "textarea"@);
    selected_in_range(d, root, "select"@);
    let a = selected_below(d, root, "input"@);
    let b = selected_below(d, root, "textarea"@);
    let c = selected_below(d, root, "select"@);
    assert forall|i: int| 0 <= i < fields_below(d, root).len() implies 0 <= #[trigger] fields_below(
        d,
        root,
    )[i] < d.len() by {
        if i < a.len() {
            assert(fields_below(d, root)[i] == a[i]);
        } else if i < a.len() + b.len() {
            assert(fields_below(d, root)[i] == b[i - a.len()]);
        } else {
            assert(fields_below(d, root)[i] == c[i - a.len() - b.len()]);
        }
    }
}

fn form_snapshot(doc: &Document, fid: NodeId, taken: &mut Vec<NodeId>) -> (r: FormSnapshot)
    requires
        walkable(doc@),
        0 <= fid.0 < doc@.len(),
    ensures
        r@ == form_model(doc@, fid.0 as int),
        raw_ids(final(taken)@) == raw_ids(old(taken)@) + fields_below(doc@, fid.0 as int),
{
    let ghost d = doc@;
    let mut list = field_ids(doc, fid);
    let ghost all = raw_ids(list@);
    let mut fields: Vec<InputSnapshot> = Vec::new();
    proof {
        fields_in_range(d, fid.0 as int);
    }
    let mut k: usize = 0;
    while k < list.len()
        invariant
            k <= list@.len(),
            walkable(d),
            d == doc@,
            all == raw_ids(list@),
            all == fields_below(d, fid.0 as int),
            forall|i: int| 0 <= i < all.len() ==> 0 <= #[trigger] all[i] < d.len(),
            input_views(fields@) == all.take(k as int).map_values(|i: int| field_model(d, i)),
        decreases list@.len() - k,
    {
        assert(all[k as int] == list@[k as int].0);
        let ghost prior = fields@;
        let f = input_snapshot(doc, list[k]);
        fields.push(f);
        assert(input_views(fields@) =~= input_views(prior).push(f@));
        assert(all.take(k + 1) =~= all.take(k as int).push(all[k as int]));
        assert(all.take(k + 1).map_values(|i: int| field_model(d, i)) =~= all.take(
            k as int,
        ).map_values(|i: int| field_model(d, i)).push(field_model(d, all[k as int])));
        k = k + 1;
    }
    assert(all.take(k as int) =~= all);
    let ghost before = taken@;
    taken.append(&mut list);
    assert(raw_ids(taken@) =~= raw_ids(before) + all);
    FormSnapshot {
        selector: unique_selector(doc, fid),
        action: doc.get_attribute(fid, "action"),
        method: match doc.get_attribute(fid, "method") {
            Some(m) => uppercase(m.as_str()),
            None => "GET".to_owned(),
        },
        fields,
    }
}

fn contains_id(list: &Vec<NodeId>, id: NodeId) -> (r: bool)
    ensures
        r == raw_ids(list@).contains(id.0 as int),
{
    let mut k: usize = 0;
    while k < list.len()
        invariant
            k <= list@.len(),
            forall|j: int| 0 <= j < k ==> #[trigger] raw_ids(list@)[j] != id.0 as int,
        decreases list@.len() - k,
    {
        assert(raw_ids(list@)[k as int] == list@[k as int].0);
        if list[k].0 == id.0 {
            return true;
        }
        k = k + 1;
    }
    false
}

fn stray_inputs(doc: &Document, taken: &Vec<NodeId>) -> (r: Vec<InputSnapshot>)
    requires
        walkable(doc@),
    ensures
        input_views(r@) == stray_models(doc@, fields_below(doc@, 0), raw_ids(taken@)),
{
    let ghost d = doc@;
    let list = field_ids(doc, NodeId::document());
    let ghost all = raw_ids(list@);
    let mut out: Vec<InputSnapshot> = Vec::new();
    proof {
        fields_in_range(d, 0);
    }
    assert(input_views(out@) =~= stray_models(d, all.take(0), raw_ids(taken@)));
    let mut k: usize = 0;
    while k < list.len()
        invariant
            k <= list@.len(),
            walkable(d),
            d == doc@,
            all == raw_ids(list@),
            forall|i: int| 0 <= i < all.len() ==> 0 <= #[trigger] all[i] < d.len(),
            input_views(out@) == stray_models(d, all.take(k as int), raw_ids(taken@)),
        decreases list@.len() - k,
    {
        assert(all[k as int] == list@[k as int].0);
        assert(all.take(k + 1).drop_last() =~= all.take(k as int));
        if !contains_id(taken, list[k]) {
            let ghost prior = out@;
            let f = input_snapshot(doc, list[k]);
            out.push(f);
            assert(input_views(out@) =~= input_views(prior).push(f@));
        }
        k = k + 1;
    }
    assert(all.take(k as int) =~= all);
    out
}

fn collect_links(doc: &Document, url: &str) -> (r: Vec<LinkSnapshot>)
    requires
        walkable(doc@),
    ensures
        r@.map_values(|l: LinkSnapshot| l@) == link_models(
            doc@,
            url@,
            selected_below(doc@, 0, "a"@),
        ),
{
    let ghost d = doc@;
    proof {
        selected_in_range(d, 0, "a"@);
    }
    let list = doc.query_selector_all("a");
    let ghost all = raw_ids(list@);
    let mut out: Vec<LinkSnapshot> = Vec::new();
    assert(out@.map_values(|l: LinkSnapshot| l@) =~= link_models(d, url@, all.take(0)));
    let mut k: usize = 0;
    while k < list.len()
        invariant
            k <= list@.len(),
            walkable(d),
            d == doc@,
            all == raw_ids(list@),
            forall|i: int| 0 <= i < all.len() ==> 0 <= #[trigger] all[i] < d.len(),
            out@.map_values(|l: LinkSnapshot| l@) == link_models(d, url@, all.take(k as int)),
        decreases list@.len() - k,
    {
        assert(all[k as int] == list@[k as int].0);
        assert(all.take(k + 1).drop_last() =~= all.take(k as int));
        if let Some(href) = doc.get_attribute(list[k], "href") {
            let content = doc.text_content(list[k]);
            let link = LinkSnapshot {
                selector: unique_selector(doc, list[k]),
                text: trim(content.as_str()).to_owned(),
                href: resolve_href(url, href.as_str()),
            };
            let ghost prior = out@;
            out.push(link);
            assert(out@.map_values(|l: LinkSnapshot| l@) =~= prior.map_values(
                |l: LinkSnapshot| l@,
            ).push(link@));
        }
        k = k + 1;
    }
    assert(all.take(k as int) =~= all);
    out
}

pub fn resolve_href(page_url: &str, href: &str) -> (r: String)
    ensures
        r@ == resolved_href(page_url@, href@),
{
    match join_url(page_url, href) {
        Ok(u) => u,
        Err(_) => href.to_owned(),
    }
}

fn collect_buttons(doc: &Document) -> (r: Vec<ButtonSnapshot>)
    requires
        walkable(doc@),
    ensures
        r@.map_values(|b: ButtonSnapshot| b@) == selected_below(doc@, 0, "button"@).map_values(
            |i: int| button_model(doc@, i),
        ),
{
    let ghost d = doc@;
    proof {
        selected_in_range(d, 0, "button"@);
    }
    let list = doc.query_selector_all("button");
    let ghost all = raw_ids(list@);
    let ghost models = all.map_values(|i: int| button_model(d, i));
    let mut out: Vec<ButtonSnapshot> = Vec::new();
    let mut k: usize = 0;
    while k < list.len()
        invariant
            k <= list@.len(),
            walkable(d),
            d == doc@,
            all == raw_ids(list@),
            models == all.map_values(|i: int| button_model(d, i)),
            forall|i: int| 0 <= i < all.len() ==> 0 <= #[trigger] all[i] < d.len(),
            out@.map_values(|b: ButtonSnapshot| b@) == models.take(k as int),
        decreases list@.len() - k,
    {
        assert(all[k as int] == list@[k as int].0);
        let content = doc.text_content(list[k]);
        let button = ButtonSnapshot {
            selector: unique_selector(doc, list[k]),
            text: trim(content.as_str()).to_owned(),
            kind: match doc.get_attribute(list[k], "type") {
                Some(t) => t,
                None => "submit".to_owned(),
            },
        };
        let ghost prior = out@;
        out.push(button);
        assert(out@.map_values(|b: ButtonSnapshot| b@) =~= prior.map_values(
            |b: ButtonSnapshot| b@,
        ).push(button@));
        assert(models.take(k + 1) =~= models.take(k as int).push(models[k as int]));
        k = k + 1;
    }
    assert(models.take(k as int) =~= models);
    out
}

fn collect_headings(doc: &Document) -> (r: Vec<HeadingSnapshot>)
    requires
        walkable(doc@),
    ensures
        r@.map_values(|h: HeadingSnapshot| h@) == heading_models(doc@, 6),
{
    let ghost d = doc@;
    let mut out: Vec<HeadingSnapshot> = Vec::new();
    assert(out@.map_values(|h: HeadingSnapshot| h@) =~= heading_models(d, 0));
    let mut level: u8 = 1;
    while level <= 6
        invariant
            1 <= level <= 7,
            walkable(d),
            d == doc@,
            out@.map_values(|h: HeadingSnapshot| h@) == heading_models(d, (level - 1) as nat),
        decreases 7 - level,
    {
        let mut sel = "h".to_owned();
        crate::text::push_decimal(&mut sel, level as u64);
        let list = doc.query_selector_all(sel.as_str());
        let ghost all = raw_ids(list@);
        let ghost models = all.map_values(
            |i: int| HeadingModel { level: level as int, text: trimmed_text(d, i) },
        );
        let ghost before = heading_models(d, (level - 1) as nat);
        assert(before + models.take(0) =~= before);
        let mut k: usize = 0;
        while k < list.len()
            invariant
                k <= list@.len(),
                walkable(d),
                d == doc@,
                all == raw_ids(list@),
                models == all.map_values(
                    |i: int| HeadingModel { level: level as int, text: trimmed_text(d, i) },
                ),
                out@.map_values(|h: HeadingSnapshot| h@) == before + models.take(k as int),
            decreases list@.len() - k,
        {
            assert(all[k as int] == list@[k as int].0);
            let content = doc.text_content(list[k]);
            let h = HeadingSnapshot { level, text: trim(content.as_str()).to_owned() };
            let ghost prior = out@;
            out.push(h);
            assert(out@.map_values(|h: HeadingSnapshot| h@) =~= prior.map_values(
                |h: HeadingSnapshot| h@,
            ).push(h@));
            assert(before + models.take(k + 1) =~= (before + models.take(k as int)).push(
                models[k as int],
            ));
            k = k + 1;
        }
        assert(models.take(k as int) =~= models);
        assert(before + models =~= heading_models(d, level as nat));
        level = level + 1;
    }
    out
}

fn collect_meta(doc: &Document) -> (r: TextMap)
    requires
        walkable(doc@),
    ensures
        r@ == meta_model(doc@, selected_below(doc@, 0, "meta"@)),
{
    let ghost d = doc@;
    let list = doc.query_selector_all("meta");
    let ghost all = raw_ids(list@);
    let mut out = TextMap::new();
    let mut k: usize = 0;
    assert(all.take(0) =~= seq![]);
    while k < list.len()
        invariant
            k <= list@.len(),
            walkable(d),
            d == doc@,
            all == raw_ids(list@),
            out@ == meta_model(d, all.take(k as int)),
        decreases list@.len() - k,
    {
        assert(all[k as int] == list@[k as int].0);
        assert(all.take(k + 1).drop_last() =~= all.take(k as int));
        let key = match doc.get_attribute(list[k], "property") {
            Some(p) => Some(p),
            None => doc.get_attribute(list[k], "name"),
        };
        let value = doc.get_attribute(list[k], "content");
        if let Some(key) = key {
            if let Some(value) = value {
                out.insert(key, value);
            }
        }
        k = k + 1;
    }
    assert(all.take(k as int) =~= all);
    out
}

fn push_action(out: &mut Vec<InteractiveElement>, kind: &str, selector: &str, label: &str)
    requires
        well_indexed(old(out)@),
    ensures
        well_indexed(final(out)@),
        action_views(final(out)@) == action_views(old(out)@).push(
            ActionModel { kind: kind@, selector: selector@, label: label@ },
        ),
{
    let ghost before = out@;
    let e = InteractiveElement {
        index: out.len(),
        kind: kind.to_owned(),
        selector: selector.to_owned(),
        label: label.to_owned(),
    };
    out.push(e);
    assert(action_views(out@) =~= action_views(before).push(e@));
}

fn push_fields(out: &mut Vec<InteractiveElement>, fields: &Vec<InputSnapshot>)
    requires
        well_indexed(old(out)@),
    ensures
        well_indexed(final(out)@),
        action_views(final(out)@) == action_views(old(out)@) + field_actions(input_views(fields@)),
{
    let ghost before = action_views(out@);
    let ghost all = field_actions(input_views(fields@));
    assert(before + all.take(0) =~= before);
    let mut k: usize = 0;
    while k < fields.len()
        invariant
            k <= fields@.len(),
            well_indexed(out@),
            all == field_actions(input_views(fields@)),
            action_views(out@) == before + all.take(k as int),
        decreases fields@.len() - k,
    {
        let f = &fields[k];
        let label: &str = match &f.label {
            Some(l) => l.as_str(),
            None => match &f.placeholder {
                Some(p) => p.as_str(),
                None => match &f.name {
                    Some(n) => n.as_str(),
                    None => "",
                },
            },
        };
        proof {
            reveal_strlit("");
            assert(""@ =~= seq![]);
        }
        assert(all[k as int] == field_action(f@));
        push_action(out, f.kind.as_str(), f.selector.as_str(), label);
        assert(before + all.take(k + 1) =~= (before + all.take(k as int)).push(all[k as int]));
        k = k + 1;
    }
    assert(all.take(k as int) =~= all);
}

fn list_actions(
    forms: &Vec<FormSnapshot>,
    inputs: &Vec<InputSnapshot>,
    links: &Vec<LinkSnapshot>,
    buttons: &Vec<ButtonSnapshot>,
) -> (out: Vec<InteractiveElement>)
    ensures
        well_indexed(out@),
        action_views(out@) == actions(
            forms@.map_values(|f: FormSnapshot| f@),
            input_views(inputs@),
            links@.map_values(|l: LinkSnapshot| l@),
            buttons@.map_values(|b: ButtonSnapshot| b@),
        ),
{
    let ghost fm = forms@.map_values(|f: FormSnapshot| f@);
    let ghost lm = links@.map_values(|l: LinkSnapshot| l@).map_values(|m: LinkModel| link_action(m));
    let ghost bm = buttons@.map_values(|b: ButtonSnapshot| b@).map_values(
        |m: ButtonModel| button_action(m),
    );
    let mut out: Vec<InteractiveElement> = Vec::new();
    assert(action_views(out@) =~= form_actions(fm.take(0)));
    let mut k: usize = 0;
    while k < forms.len()
        invariant
            k <= forms@.len(),
            well_indexed(out@),
            fm == forms@.map_values(|f: FormSnapshot| f@),
            action_views(out@) == form_actions(fm.take(k as int)),
        decreases forms@.len() - k,
    {
        let f = &forms[k];
        let label: &str = match &f.action {
            Some(a) => a.as_str(),
            None => "",
        };
        proof {
            reveal_strlit("");
            assert(""@ =~= seq![]);
        }
        assert(fm.take(k + 1).drop_last() =~= fm.take(k as int));
        assert(fm.take(k + 1).last() == f@);
        push_action(&mut out, "form", f.selector.as_str(), label);
        push_fields(&mut out, &f.fields);
        k = k + 1;
    }
    assert(fm.take(k as int) =~= fm);
    push_fields(&mut out, inputs);
    let ghost before = action_views(out@);
    assert(before + lm.take(0) =~= before);
    k = 0;
    while k < links.len()
        invariant
            k <= links@.len(),
            well_indexed(out@),
            lm == links@.map_values(|l: LinkSnapshot| l@).map_values(|m: LinkModel| link_action(m)),
            action_views(out@) == before + lm.take(k as int),
        decreases links@.len() - k,
    {
        push_action(&mut out, "link", links[k].selector.as_str(), links[k].text.as_str());
        assert(before + lm.take(k + 1) =~= (before + lm.take(k as int)).push(lm[k as int]));
        k = k + 1;
    }
    assert(lm.take(k as int) =~= lm);
    let ghost before = action_views(out@);
    assert(before + bm.take(0) =~= before);
    k = 0;
    while k < buttons.len()
        invariant
            k <= buttons@.len(),
            well_indexed(out@),
            bm == buttons@.map_values(|b: ButtonSnapshot| b@).map_values(
                |m: ButtonModel| button_action(m),
            ),
            action_views(out@) == before + bm.take(k as int),
        decreases buttons@.len() - k,
    {
        push_action(&mut out, "button", buttons[k].selector.as_str(), buttons[k].text.as_str());
        assert(before + bm.take(k + 1) =~= (before + bm.take(k as int)).push(bm[k as int]));
        k = k + 1;
    }
    assert(bm.take(k as int) =~= bm);
    out
}

/// The selector of the first element with this index.
pub open spec fn selector_at(s: Seq<InteractiveElement>, index: int) -> Option<Seq<char>>
    decreases s.len(),
{
    if s.len() == 0 {
        None
    } else if s[0].index == index {
        Some(s[0].selector@)
    } else {
        selector_at(s.skip(1), index)
    }
}

impl PageSnapshot {
    /// The snapshot of a document at a URL.
    pub fn from_document(doc: &Document, url: &str, opts: SnapshotOpts) -> (r: PageSnapshot)
        requires
            walkable(doc@),
        ensures
            r@ == snapshot_model(doc@, url@, opts.max_text_summary_bytes as int),
            well_indexed(r.interactive@),
    {
        let ghost d = doc@;
        let title = match doc.title() {
            Some(t) => t,
            None => String::new(),
        };
        let text_summary = truncate_with_marker(
            doc.body_text().as_str(),
            opts.max_text_summary_bytes,
        );
        let meta = collect_meta(doc);
        proof {
            selected_in_range(d, 0, "form"@);
        }
        let form_ids = doc.query_selector_all("form");
        let ghost all = raw_ids(form_ids@);
        let ghost models = all.map_values(|i: int| form_model(d, i));
        let mut taken: Vec<NodeId> = Vec::new();
        let mut forms: Vec<FormSnapshot> = Vec::new();
        assert(raw_ids(taken@) =~= fields_of(d, all.take(0)));
        let mut k: usize = 0;
        while k < form_ids.len()
            invariant
                k <= form_ids@.len(),
                walkable(d),
                d == doc@,
                all == raw_ids(form_ids@),
                models == all.map_values(|i: int| form_model(d, i)),
                forall|i: int| 0 <= i < all.len() ==> 0 <= #[trigger] all[i] < d.len(),
                raw_ids(taken@) == fields_of(d, all.take(k as int)),
                forms@.map_values(|f: FormSnapshot| f@) == models.take(k as int),
            decreases form_ids@.len() - k,
        {
            assert(all[k as int] == form_ids@[k as int].0);
            assert(all.take(k + 1).drop_last() =~= all.take(k as int));
            let f = form_snapshot(doc, form_ids[k], &mut taken);
            let ghost prior = forms@;
            forms.push(f);
            assert(forms@.map_values(|f: FormSnapshot| f@) =~= prior.map_values(
                |f: FormSnapshot| f@,
            ).push(f@));
            assert(models.take(k + 1) =~= models.take(k as int).push(models[k as int]));
            k = k + 1;
        }
        assert(all.take(k as int) =~= all);
        assert(models.take(k as int) =~= models);
        let inputs = stray_inputs(doc, &taken);
        let links = collect_links(doc, url);
        let buttons = collect_buttons(doc);
        let headings = collect_headings(doc);
        let interactive = list_actions(&forms, &inputs, &links, &buttons);
        PageSnapshot {
            url: url.to_owned(),
            title,
            forms,
            links,
            buttons,
            inputs,
            headings,
            interactive,
            text_summary,
            meta,
        }
    }

    /// The selector of the interactive element with this index.
    pub fn selector_for_index(&self, index: u32) -> (r: Option<String>)
        ensures
            text_view(r) == selector_at(self.interactive@, index as int),
    {
        let mut k: usize = 0;
        let ghost all = self.interactive@;
        assert(all.skip(0) =~= all);
        while k < self.interactive.len()
            invariant
                k <= self.interactive@.len(),
                all == self.interactive@,
                selector_at(all, index as int) == selector_at(all.skip(k as int), index as int),
            decreases self.interactive@.len() - k,
        {
            assert(all.skip(k as int)[0] == all[k as int]);
            assert(all.skip(k as int).skip(1) =~= all.skip(k + 1));
            if self.interactive[k].index == index as usize {
                return Some(self.interactive[k].selector.clone());
            }
            k = k + 1;
        }
        None
    }
}

/// In a snapshot of a document the element with an index is the one at that position.
pub proof fn index_is_position(s: Seq<InteractiveElement>, index: int)
    requires
        well_indexed(s),
        0 <= index < s.len(),
    ensures
        selector_at(s, index) == Some(s[index].selector@),
{
    position_from(s, 0, index);
    assert(s.skip(0) =~= s);
}

proof fn position_from(s: Seq<InteractiveElement>, k: int, index: int)
    requires
        well_indexed(s),
        0 <= k <= index < s.len(),
    ensures
        selector_at(s.skip(k), index) == Some(s[index].selector@),
    decreases index - k,
{
    assert(s.skip(k)[0] == s[k]);
    if k < index {
        assert(s.skip(k).skip(1) =~= s.skip(k + 1));
        position_from(s, k + 1, index);
    }
}

} // verus!
