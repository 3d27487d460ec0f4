//! Single-clause CSS selectors: `tag`, `#id`, `.class`, `[attr]`, `[attr=value]`.
use crate::dom::html::{attr_views, Attr, AttrModel, Kind, NodeKind};
use crate::text::{
    ascii_lower, ascii_words, char_is_ascii_alphanumeric, chars_of, eq_ignore_ascii_case, first_pos,
    is_ascii_alphanumeric, same, same_ignoring_case, split_ascii_whitespace, split_once,
    to_ascii_lowercase, trim, trimmed, views,
};
use vstd::prelude::*;
use vstd::string::*;

verus! {

#[derive(Debug)]
pub enum SimpleSelector {
    Tag(String),
    Id(String),
    Class(String),
    Attr { name: String, value: Option<String> },
}

/// The text of a [`SimpleSelector`].
pub enum Selector {
    Tag(Seq<char>),
    Id(Seq<char>),
    Class(Seq<char>),
    Attr { name: Seq<char>, value: Option<Seq<char>> },
}

impl View for SimpleSelector {
    type V = Selector;

    open spec fn view(&self) -> Selector {
        match *self {
            SimpleSelector::Tag(t) => Selector::Tag(t@),
            SimpleSelector::Id(t) => Selector::Id(t@),
            SimpleSelector::Class(t) => Selector::Class(t@),
            SimpleSelector::Attr { name, value } => Selector::Attr {
                name: name@,
                value: match value {
                    Some(v) => Some(v@),
                    None => None,
                },
            },
        }
    }
}

/// Starts and ends with the same kind of quote.
pub open spec fn quoted(v: Seq<char>) -> bool {
    v.len() > 0 && (v[0] == '"' && v.last() == '"' || v[0] == '\'' && v.last() == '\'')
}

/// A value without its quotes; none where it is a single quote, which nothing closes.
pub open spec fn unquoted(v: Seq<char>) -> Option<Seq<char>> {
    if !quoted(v) {
        Some(v)
    } else if v.len() >= 2 {
        Some(v.subrange(1, v.len() - 1))
    } else {
        None
    }
}

/// What stands between the brackets of a trimmed attribute selector.
pub open spec fn bracketed(s: Seq<char>) -> Option<Seq<char>> {
    if s.len() >= 2 && s[0] == '[' && s.last() == ']' {
        Some(s.subrange(1, s.len() - 1))
    } else {
        None
    }
}

pub open spec fn is_tag_char(c: char) -> bool {
    is_ascii_alphanumeric(c) || c == '-' || c == '_'
}

/// The grammar of selectors.
pub open spec fn parsed_selector(input: Seq<char>) -> Option<Selector> {
    let s = trimmed(input);
    if s.len() == 0 {
        None
    } else if s[0] == '#' {
        Some(Selector::Id(s.skip(1)))
    } else if s[0] == '.' {
        Some(Selector::Class(s.skip(1)))
    } else if bracketed(s) is Some {
        let inner = bracketed(s)->0;
        let k = first_pos(inner, '=');
        if k < inner.len() {
            match unquoted(trimmed(inner.skip(k + 1))) {
                Some(v) => Some(Selector::Attr { name: trimmed(inner.take(k)), value: Some(v) }),
                None => None,
            }
        } else {
            Some(Selector::Attr { name: trimmed(inner), value: None })
        }
    } else if forall|i: int| 0 <= i < s.len() ==> is_tag_char(#[trigger] s[i]) {
        Some(Selector::Tag(ascii_lower(s)))
    } else {
        None
    }
}

/// One attribute of an element makes the selector match it.
pub open spec fn attr_matches(sel: Selector, a: AttrModel) -> bool {
    match sel {
        Selector::Tag(t) => false,
        Selector::Id(v) => a.name == "id"@ && a.value == v,
        Selector::Class(c) => a.name == "class"@ && ascii_words(a.value).contains(c),
        Selector::Attr { name, value } => a.name == name && (value matches Some(v) ==> a.value
            == v),
    }
}

/// The elements that a selector matches.
pub open spec fn selects(sel: Selector, k: Kind) -> bool {
    match k {
        Kind::Element { tag, attrs, .. } => match sel {
            Selector::Tag(t) => same_ignoring_case(tag, t),
            _ => exists|i: int| 0 <= i < attrs.len() && attr_matches(sel, #[trigger] attrs[i]),
        },
        _ => false,
    }
}

impl SimpleSelector {
    /// Reads a selector; one that cannot be read matches nothing.
    pub fn parse(input: &str) -> (r: Option<SimpleSelector>)
        ensures
            match r {
                Some(sel) => parsed_selector(input@) == Some(sel@),
                None => parsed_selector(input@) is None,
            },
    {
        let s = trim(input);
        let v = chars_of(s);
        let n: usize = v.len();
        if n == 0 {
            return None;
        }
        if v[0] == '#' {
            assert(s@.subrange(1, n as int) == s@.skip(1));
            return Some(SimpleSelector::Id(s.substring_char(1, n).to_owned()));
        }
        if v[0] == '.' {
            assert(s@.subrange(1, n as int) == s@.skip(1));
            return Some(SimpleSelector::Class(s.substring_char(1, n).to_owned()));
        }
        if n >= 2 && v[0] == '[' && v[n - 1] == ']' {
            let inner = s.substring_char(1, n - 1);
            return match split_once(inner, '=') {
                Some((a, b)) => match Self::unquote(trim(b)) {
                    Some(v) => Some(
                        SimpleSelector::Attr { name: trim(a).to_owned(), value: Some(v) },
                    ),
                    None => None,
                },
                None => Some(SimpleSelector::Attr { name: trim(inner).to_owned(), value: None }),
            };
        }
        let mut i: usize = 0;
        while i < n
            invariant
                i <= n,
                n == v@.len(),
                v@ == s@,
                s@ == trimmed(input@),
                s@.len() > 0,
                s@[0] != '#' && s@[0] != '.',
                bracketed(s@) is None,
                forall|j: int| 0 <= j < i ==> is_tag_char(#[trigger] s@[j]),
            decreases n - i,
        {
            let c: char = v[i];
            if !(char_is_ascii_alphanumeric(c) || c == '-' || c == '_') {
                assert(!is_tag_char(s@[i as int]));
                return None;
            }
            i = i + 1;
        }
        Some(SimpleSelector::Tag(to_ascii_lowercase(s)))
    }

    fn unquote(v: &str) -> (r: Option<String>)
        ensures
            match r {
                Some(t) => unquoted(v@) == Some(t@),
                None => unquoted(v@) is None,
            },
    {
        let w = chars_of(v);
        let n: usize = w.len();
        if n == 1 && (w[0] == '"' || w[0] == '\'') {
            return None;
        }
        if n >= 2 && (w[0] == '"' && w[n - 1] == '"' || w[0] == '\'' && w[n - 1] == '\'') {
            Some(v.substring_char(1, n - 1).to_owned())
        } else {
            Some(v.to_owned())
        }
    }

    fn attr_matches(&self, a: &Attr) -> (r: bool)
        ensures
            r == attr_matches(self@, a@),
    {
        match self {
            SimpleSelector::Tag(_) => false,
            SimpleSelector::Id(v) => same(a.name.as_str(), "id") && same(
                a.value.as_str(),
                v.as_str(),
            ),
            SimpleSelector::Class(c) => same(a.name.as_str(), "class") && has_word(
                a.value.as_str(),
                c.as_str(),
            ),
            SimpleSelector::Attr { name, value } => same(a.name.as_str(), name.as_str())
                && match value {
                Some(v) => same(a.value.as_str(), v.as_str()),
                None => true,
            },
        }
    }

    pub fn matches(&self, kind: &NodeKind) -> (r: bool)
        ensures
            r == selects(self@, kind@),
    {
        match kind {
            NodeKind::Element { ns: _, tag, attrs } => {
                if let SimpleSelector::Tag(t) = self {
                    return eq_ignore_ascii_case(tag.as_str(), t.as_str());
                }
                let mut i: usize = 0;
                while i < attrs.len()
                    invariant
                        i <= attrs@.len(),
                        kind@ is Element,
                        kind@->attrs == attr_views(attrs@),
                        !(self@ is Tag),
                        forall|j: int|
                            0 <= j < i ==> !attr_matches(self@, #[trigger] attr_views(attrs@)[j]),
                    decreases attrs@.len() - i,
                {
                    assert(attr_views(attrs@)[i as int] == attrs@[i as int]@);
                    if self.attr_matches(&attrs[i]) {
                        return true;
                    }
                    i = i + 1;
                }
                false
            },
            _ => false,
        }
    }
}

fn has_word(text: &str, word: &str) -> (r: bool)
    ensures
        r == ascii_words(text@).contains(word@),
{
    let words = split_ascii_whitespace(text);
    let mut i: usize = 0;
    while i < words.len()
        invariant
            i <= words@.len(),
            views(words@) == ascii_words(text@),
            forall|j: int| 0 <= j < i ==> #[trigger] views(words@)[j] != word@,
        decreases words@.len() - i,
    {
        assert(views(words@)[i as int] == words@[i as int]@);
        if same(words[i].as_str(), word) {
            return true;
        }
        i = i + 1;
    }
    false
}

} // verus!
