//! HTTP names and values, and the header map of `http`.
use crate::text::{ascii_lower, is_ascii_alphanumeric};
use http::{HeaderMap, HeaderName, HeaderValue, Method};
use vstd::prelude::*;
use vstd::string::*;
use vstd::utf8::encode_utf8;

verus! {

/// The header map of `http`.
#[verifier::external_type_specification]
#[verifier::external_body]
#[verifier::reject_recursive_types(T)]
pub struct ExHeaderMap<T>(HeaderMap<T>);

/// The header value of `http`.
#[verifier::external_type_specification]
#[verifier::external_body]
pub struct ExHeaderValue(HeaderValue);

/// What a lookup by text finds in a header map of `http`: for each name that is found,
/// in lower case, its values in the order in which they came. A name without values is
/// not in the map.
pub uninterp spec fn header_values(h: HeaderMap<HeaderValue>) -> Map<Seq<char>, Seq<Seq<u8>>>;

/// The values under a name, in order.
pub open spec fn values_of(h: HeaderMap<HeaderValue>, name: Seq<char>) -> Seq<Seq<u8>> {
    if header_values(h).dom().contains(name) {
        header_values(h)[name]
    } else {
        seq![]
    }
}

pub open spec fn byte_views(v: Seq<Vec<u8>>) -> Seq<Seq<u8>> {
    v.map_values(|b: Vec<u8>| b@)
}

/// Calls `http::HeaderMap::new`: a map without headers.
#[verifier::external_body]
pub(crate) fn no_headers() -> (r: HeaderMap<HeaderValue>)
    ensures
        header_values(r).dom() == Set::<Seq<char>>::empty(),
{
    HeaderMap::new()
}

/// Calls `http::HeaderMap::get_all`: the values under a name, which is compared
/// without regard to case, in the order in which they came.
#[verifier::external_body]
pub(crate) fn get_all(h: &HeaderMap<HeaderValue>, name: &str) -> (r: Vec<Vec<u8>>)
    ensures
        byte_views(r@) == values_of(*h, ascii_lower(name@)),
{
    h.get_all(name).iter().map(|v| v.as_bytes().to_vec()).collect()
}

/// Calls `http::HeaderMap::remove`: takes every value under a name out of the map.
#[verifier::external_body]
pub(crate) fn remove(h: &mut HeaderMap<HeaderValue>, name: &str)
    ensures
        header_values(*final(h)) == header_values(*old(h)).remove(ascii_lower(name@)),
{
    h.remove(name);
}

/// The characters of a token.
pub open spec fn is_token_char(c: char) -> bool {
    is_ascii_alphanumeric(c) || c == '!' || c == '#' || c == '$' || c == '%' || c == '&' || c
        == '\'' || c == '*' || c == '+' || c == '-' || c == '.' || c == '^' || c == '_' || c == '`'
        || c == '|' || c == '~'
}

pub open spec fn is_token(s: Seq<char>) -> bool {
    s.len() > 0 && forall|i: int| 0 <= i < s.len() ==> is_token_char(#[trigger] s[i])
}

/// A token that a header can be named by.
pub open spec fn is_header_name(s: Seq<char>) -> bool {
    is_token(s) && s.len() <= 65535
}

/// Bytes that a header can hold: no control character but the tab.
pub open spec fn is_header_value(b: Seq<u8>) -> bool {
    forall|i: int| 0 <= i < b.len() ==> (#[trigger] b[i]) >= 32 && b[i] != 127 || b[i] == 9
}

/// Calls `http::HeaderName::try_from` on the bytes of a text.
#[verifier::external_body]
pub(crate) fn valid_name(name: &str) -> (r: bool)
    ensures
        r == is_header_name(name@),
{
    HeaderName::try_from(name.as_bytes()).is_ok()
}

/// Calls `http::HeaderValue::try_from` on the bytes of a text.
#[verifier::external_body]
pub(crate) fn valid_value(value: &str) -> (r: bool)
    ensures
        r == is_header_value(encode_utf8(value@)),
{
    HeaderValue::try_from(value.as_bytes()).is_ok()
}

/// Calls `http::Method::from_bytes` on the bytes of a text.
#[verifier::external_body]
pub(crate) fn valid_method(method: &str) -> (r: bool)
    ensures
        r == is_token(method@),
{
    Method::from_bytes(method.as_bytes()).is_ok()
}

/// What `http::Uri::from_str` makes of a text: its scheme, if it has one, or why
/// it is none.
pub uninterp spec fn parsed_uri(text: Seq<char>) -> Result<Option<Seq<char>>, Seq<char>>;

/// Calls `http::Uri::from_str` and `http::Uri::scheme_str`. The result depends on
/// the text alone.
#[verifier::external_body]
pub(crate) fn parse_uri(text: &str) -> (r: Result<Option<String>, String>)
    ensures
        match r {
            Ok(Some(s)) => parsed_uri(text@) == Ok::<_, Seq<char>>(Some(s@)),
            Ok(None) => parsed_uri(text@) == Ok::<_, Seq<char>>(None::<Seq<char>>),
            Err(e) => parsed_uri(text@) == Err::<Option<Seq<char>>, _>(e@),
        },
{
    let uri = text.parse::<http::Uri>().map_err(|e| e.to_string())?;
    Ok(uri.scheme_str().map(str::to_string))
}

/// The text of bytes that are visible ASCII or tabs.
pub open spec fn visible_text(b: Seq<u8>) -> Option<Seq<char>> {
    if forall|i: int| 0 <= i < b.len() ==> 32 <= (#[trigger] b[i]) < 127 || b[i] == 9 {
        Some(Seq::new(b.len(), |i: int| b[i] as char))
    } else {
        None
    }
}

/// A header value as text, where it is visible ASCII.
pub fn to_str(b: &Vec<u8>) -> (r: Option<String>)
    ensures
        crate::dom::text_view(r) == visible_text(b@),
{
    let mut s = String::new();
    let mut i: usize = 0;
    while i < b.len()
        invariant
            i <= b@.len(),
            forall|j: int| 0 <= j < i ==> 32 <= (#[trigger] b@[j]) < 127 || b@[j] == 9,
            s@.len() == i,
            forall|j: int| 0 <= j < i ==> #[trigger] s@[j] == b@[j] as char,
        decreases b@.len() - i,
    {
        let x: u8 = b[i];
        if !(32 <= x && x < 127 || x == 9) {
            return None;
        }
        s.push(x as char);
        i = i + 1;
    }
    assert(s@ =~= Seq::new(b@.len(), |i: int| b@[i] as char));
    Some(s)
}

/// The first value under a name as text, where there is one that is visible ASCII.
pub open spec fn header_text(h: HeaderMap<HeaderValue>, name: Seq<char>) -> Option<Seq<char>> {
    if values_of(h, name).len() > 0 {
        visible_text(values_of(h, name)[0])
    } else {
        None
    }
}

pub fn first_text(h: &HeaderMap<HeaderValue>, name: &str) -> (r: Option<String>)
    ensures
        crate::dom::text_view(r) == header_text(*h, ascii_lower(name@)),
{
    let all = get_all(h, name);
    if all.len() == 0 {
        assert(byte_views(all@).len() == 0);
        return None;
    }
    assert(byte_views(all@)[0] == all@[0]@);
    to_str(&all[0])
}

} // verus!
