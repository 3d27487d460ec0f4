//! URLs as plain values, and the parser of `url`.
use crate::dom::text_view;
use crate::text::{byte_len, bytes_up_to, decimal, pair_views, push_decimal};
use vstd::prelude::*;
use vstd::string::*;
use vstd::utf8::encode_utf8;

pub mod laws;

verus! {

/// The parts of a URL that the library reads.
pub struct UrlParts {
    pub scheme: String,
    pub host: Option<String>,
    /// The port, where the URL names one that its scheme does not imply.
    pub port: Option<u16>,
}

/// The text of a [`UrlParts`].
pub struct UrlModel {
    pub scheme: Seq<char>,
    pub host: Option<Seq<char>>,
    pub port: Option<u16>,
}

impl View for UrlParts {
    type V = UrlModel;

    open spec fn view(&self) -> UrlModel {
        UrlModel {
            scheme: self.scheme@,
            host: match self.host {
                Some(h) => Some(h@),
                None => None,
            },
            port: self.port,
        }
    }
}

/// What `url::Url::parse` reads from a text: its scheme, host and port.
pub uninterp spec fn parsed_url(text: Seq<char>) -> Option<UrlModel>;

/// A URL in parts: what comes before its query, its query, and its fragment.
pub struct UrlPieces {
    pub before: String,
    pub query: Option<String>,
    pub fragment: Option<String>,
}

/// The text of [`UrlPieces`].
#[verifier::ext_equal]
pub struct PiecesModel {
    pub before: Seq<char>,
    pub query: Option<Seq<char>>,
    pub fragment: Option<Seq<char>>,
}

impl View for UrlPieces {
    type V = PiecesModel;

    open spec fn view(&self) -> PiecesModel {
        PiecesModel {
            before: self.before@,
            query: text_view(self.query),
            fragment: text_view(self.fragment),
        }
    }
}

/// The URL that the parts make.
pub open spec fn url_text(p: PiecesModel) -> Seq<char> {
    let with_query = match p.query {
        Some(q) => p.before + "?"@ + q,
        None => p.before,
    };
    match p.fragment {
        Some(f) => with_query + "#"@ + f,
        None => with_query,
    }
}

/// What `url::Url::join` makes of a reference against a base, or why the one or
/// the other cannot be read.
pub uninterp spec fn joined_pieces(base: Seq<char>, reference: Seq<char>) -> Result<
    PiecesModel,
    Seq<char>,
>;

/// The URL that a reference leads to from a base, or why the one or the other cannot
/// be read.
pub open spec fn joined_url(base: Seq<char>, reference: Seq<char>) -> Result<Seq<char>, Seq<char>> {
    match joined_pieces(base, reference) {
        Ok(p) => Ok(url_text(p)),
        Err(m) => Err(m),
    }
}

/// Calls `url::Url::parse` and reads the scheme, host and port of its result,
/// which depend on the text alone.
#[verifier::external_body]
pub(crate) fn parse_url(text: &str) -> (r: Option<UrlParts>)
    ensures
        match r {
            Some(u) => parsed_url(text@) == Some(u@),
            None => parsed_url(text@) is None,
        },
{
    let url = url::Url::parse(text).ok()?;
    Some(UrlParts { scheme: url.scheme().to_string(), host: url.host_str().map(str::to_string), port: url.port() })
}

/// Calls `url::Url::join` on a base read by `url::Url::parse`, and takes the URL apart
/// at its query and its fragment. The result depends on the two texts alone; there is
/// none where the base is no URL.
#[verifier::external_body]
pub(crate) fn join_pieces(base: &str, reference: &str) -> (r: Result<UrlPieces, String>)
    ensures
        match r {
            Ok(p) => joined_pieces(base@, reference@) == Ok::<_, Seq<char>>(p@),
            Err(m) => joined_pieces(base@, reference@) == Err::<PiecesModel, _>(m@),
        },
        parsed_url(base@) is None ==> r is Err,
{
    let url = url::Url::parse(base).and_then(|b| b.join(reference)).map_err(|e| e.to_string())?;
    Ok(UrlPieces {
        before: url[..url::Position::AfterPath].to_string(),
        query: url.query().map(str::to_string),
        fragment: url.fragment().map(str::to_string),
    })
}

/// The URL that a reference leads to from a base.
pub(crate) fn join_url(base: &str, reference: &str) -> (r: Result<String, String>)
    ensures
        text_result(r) == joined_url(base@, reference@),
        parsed_url(base@) is None ==> r is Err,
{
    match join_pieces(base, reference) {
        Ok(p) => Ok(p.text()),
        Err(m) => Err(m),
    }
}

impl UrlPieces {
    /// The URL that the parts make.
    pub fn text(&self) -> (r: String)
        ensures
            r@ == url_text(self@),
    {
        let mut s = self.before.clone();
        if let Some(q) = &self.query {
            s.append("?");
            s.append(q.as_str());
        }
        if let Some(f) = &self.fragment {
            s.append("#");
            s.append(f.as_str());
        }
        s
    }
}

pub open spec fn text_result(r: Result<String, String>) -> Result<Seq<char>, Seq<char>> {
    match r {
        Ok(s) => Ok(s@),
        Err(e) => Err(e@),
    }
}

/// A byte that a form holds as it is.
pub open spec fn form_plain(b: u8) -> bool {
    48 <= b <= 57 || 65 <= b <= 90 || 97 <= b <= 122 || b == 42 || b == 45 || b == 46 || b == 95
}

/// A digit of base sixteen, in upper case.
pub open spec fn upper_hex(n: int) -> char {
    if n < 10 {
        ((48 + n) as u32) as char
    } else {
        ((55 + n) as u32) as char
    }
}

/// How a byte stands in a form.
pub open spec fn form_byte(b: u8) -> Seq<char> {
    if form_plain(b) {
        seq![(b as u32) as char]
    } else if b == 32 {
        seq!['+']
    } else {
        seq!['%', upper_hex(b as int / 16), upper_hex(b as int % 16)]
    }
}

/// How bytes stand in a form.
pub open spec fn form_bytes(bytes: Seq<u8>) -> Seq<char>
    decreases bytes.len(),
{
    if bytes.len() == 0 {
        seq![]
    } else {
        form_byte(bytes[0]) + form_bytes(bytes.skip(1))
    }
}

/// How a name and a value stand in a form.
pub open spec fn form_pair(pair: (Seq<char>, Seq<char>)) -> Seq<char> {
    form_bytes(encode_utf8(pair.0)) + "="@ + form_bytes(encode_utf8(pair.1))
}

/// What `url::form_urlencoded::Serializer` writes for pairs.
pub open spec fn form_encoded(pairs: Seq<(Seq<char>, Seq<char>)>) -> Seq<char>
    decreases pairs.len(),
{
    if pairs.len() == 0 {
        seq![]
    } else if pairs.len() == 1 {
        form_pair(pairs[0])
    } else {
        form_pair(pairs[0]) + "&"@ + form_encoded(pairs.skip(1))
    }
}

/// A query with pairs behind what it holds.
pub open spec fn extended(query: Option<Seq<char>>, pairs: Seq<(Seq<char>, Seq<char>)>) -> Seq<char> {
    match query {
        Some(q) => if q.len() > 0 && pairs.len() > 0 {
            q + "&"@ + form_encoded(pairs)
        } else {
            q + form_encoded(pairs)
        },
        None => form_encoded(pairs),
    }
}

/// A URL with pairs behind what its query holds.
pub open spec fn with_query(p: PiecesModel, pairs: Seq<(Seq<char>, Seq<char>)>) -> PiecesModel {
    PiecesModel { query: Some(extended(p.query, pairs)), ..p }
}

/// With the pairs in its query, the query and the fragment of the URL start at 32-bit
/// positions.
pub open spec fn query_fits(p: PiecesModel, pairs: Seq<(Seq<char>, Seq<char>)>) -> bool {
    &&& p.query is None ==> byte_len(p.before) <= u32::MAX
    &&& p.fragment is Some ==> byte_len(p.before) + 1 + byte_len(extended(p.query, pairs))
        <= u32::MAX
}

/// Whether pairs can be put behind what the query of a URL holds.
pub fn has_room_for_query(p: &UrlPieces, pairs: &Vec<(String, String)>) -> (r: bool)
    ensures
        r == query_fits(p@, pair_views(pairs@)),
{
    let most: usize = u32::MAX as usize;
    let before: Option<usize> = bytes_up_to(p.before.as_str(), most);
    if p.query.is_none() && before.is_none() {
        return false;
    }
    if p.fragment.is_none() {
        return true;
    }
    let coded = encode_form(pairs);
    assert(pair_views(pairs@).len() == pairs@.len());
    let query = match &p.query {
        Some(q) => {
            let mut s = q.clone();
            proof {
                reveal_strlit("&");
            }
            if !q.as_str().is_empty() && pairs.len() > 0 {
                s.append("&");
            }
            s.append(coded.as_str());
            s
        },
        None => coded,
    };
    match (before, bytes_up_to(query.as_str(), most)) {
        (Some(a), Some(b)) => a as u64 + 1 + b as u64 <= most as u64,
        _ => false,
    }
}

/// Calls `url::Url::query_pairs_mut` on what `url::Url::join` makes of a reference
/// against a base, and appends the pairs with `extend_pairs`: they are written behind
/// what the query holds, and nothing else changes. A query or a fragment that would not
/// start at a 32-bit position panics there.
#[verifier::external_body]
pub(crate) fn append_query(base: &str, reference: &str, pairs: &Vec<(String, String)>) -> (r: Option<String>)
    requires
        joined_pieces(base@, reference@) is Ok,
        query_fits(joined_pieces(base@, reference@)->Ok_0, pair_views(pairs@)),
    ensures
        r is Some,
        r->0@ == url_text(with_query(joined_pieces(base@, reference@)->Ok_0, pair_views(pairs@))),
{
    let mut url = url::Url::parse(base).and_then(|b| b.join(reference)).ok()?;
    url.query_pairs_mut().extend_pairs(pairs);
    Some(url.to_string())
}

/// Calls `url::form_urlencoded::Serializer` on pairs: each name, `=` and its value,
/// with `&` between the pairs. In a name and a value, letters, digits and `*-._` stand as
/// they are, a space is `+`, and any other byte is `%` with two digits.
#[verifier::external_body]
pub(crate) fn encode_form(pairs: &Vec<(String, String)>) -> (r: String)
    ensures
        r@ == form_encoded(pair_views(pairs@)),
{
    url::form_urlencoded::Serializer::new(String::new()).extend_pairs(pairs).finish()
}

/// The origin of a URL: `scheme://host`, with `:port` where the URL has one.
pub open spec fn origin_of(u: UrlModel) -> Option<Seq<char>> {
    match u.host {
        Some(h) => Some(u.scheme + "://"@ + h + port_suffix(u.port)),
        None => None,
    }
}

pub open spec fn port_suffix(port: Option<u16>) -> Seq<char> {
    match port {
        Some(p) => ":"@ + decimal(p as nat),
        None => seq![],
    }
}

/// The origin of a parsed URL.
pub fn origin_from_parts(u: &UrlParts) -> (r: Option<String>)
    ensures
        match r {
            Some(o) => origin_of(u@) == Some(o@),
            None => origin_of(u@) is None,
        },
{
    match &u.host {
        Some(h) => {
            let mut o = u.scheme.clone();
            o.append("://");
            o.append(h.as_str());
            push_port(&mut o, u.port);
            Some(o)
        },
        None => None,
    }
}

pub fn push_port(s: &mut String, port: Option<u16>)
    ensures
        final(s)@ == old(s)@ + port_suffix(port),
{
    let ghost before = s@;
    if let Some(p) = port {
        s.append(":");
        push_decimal(s, p as u64);
        assert(before + ":"@ + decimal(p as nat) == before + (":"@ + decimal(p as nat)));
    }
}

/// The origin of a URL, where it can be read and has a host.
pub fn origin_for(url: &str) -> (r: Option<String>)
    ensures
        match r {
            Some(o) => parsed_url(url@) is Some && origin_of(parsed_url(url@)->0) == Some(o@),
            None => parsed_url(url@) is None || origin_of(parsed_url(url@)->0) is None,
        },
{
    match parse_url(url) {
        Some(u) => origin_from_parts(&u),
        None => None,
    }
}

/// A reference resolved against a base: `None` where either cannot be read.
pub fn resolve_url(base: &str, location: &str) -> (r: Option<String>)
    ensures
        match r {
            Some(u) => joined_url(base@, location@) == Ok::<_, Seq<char>>(u@),
            None => joined_url(base@, location@) is Err,
        },
{
    match join_url(base, location) {
        Ok(u) => Some(u),
        Err(_) => None,
    }
}

} // verus!
