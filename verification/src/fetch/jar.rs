//! What is kept between requests, and what is refused.
use crate::fetch::blocklist::{blocked, covers, host_entry, kept_hosts, TrackerBlocklist};
use crate::fetch::client::{
    default_user_agent, harvest_cookies, is_redirect, rewrite_for_redirect, Error, FetchRequest,
};
use crate::fetch::cookies::{
    cookie_texts, cookies_of, is_cookie_header, set_cookie_pair, CookieJar,
};
use crate::fetch::decode::{
    decode_brotli, decode_deflate, decode_gzip, gunzipped, inflated, unbrotlied, unzlibbed,
};
use crate::fetch::headers::{first_text, header_values};
use crate::fetch::steps::shows;
use crate::sort::{in_order, text_le};
use crate::text::{
    ascii_lower, decimal, first_pos, first_pos_is_first, is_whitespace, joined, pieces, trimmed,
    trimmed_keeps_clean, views,
};
use crate::urls::{origin_for, parsed_url, UrlModel};
use http::{HeaderMap, HeaderValue};
use vstd::prelude::*;
use vstd::string::*;

verus! {

// ---- cookies -------------------------------------------------------------------------

/// A cookie that is set is the one that is read, under its origin and its name; every
/// other cookie stays what it was.
pub proof fn set_cookies_are_read(
    jar: &mut CookieJar,
    origin: &str,
    name: &str,
    value: &str,
    after: &CookieJar,
    r: Option<String>,
    before: &CookieJar,
    other_origin: &str,
    other_name: &str,
    was: Option<String>,
    is: Option<String>,
)
    requires
        call_ensures(CookieJar::set, (jar, origin, name, value), ()),
        *after == *final(jar),
        *before == *old(jar),
        call_ensures(CookieJar::get, (after, origin, name), r),
        call_ensures(CookieJar::get, (before, other_origin, other_name), was),
        call_ensures(CookieJar::get, (after, other_origin, other_name), is),
    ensures
        r is Some && r->0@ == value@,
        other_origin@ != origin@ || other_name@ != name@ ==> crate::dom::text_view(is)
            == crate::dom::text_view(was),
{
}

/// A text without space at its ends.
pub open spec fn is_solid(s: Seq<char>) -> bool {
    s.len() > 0 && !is_whitespace(s[0]) && !is_whitespace(s.last())
}

proof fn first_piece(a: Seq<char>, c: char, b: Seq<char>)
    requires
        !a.contains(c),
    ensures
        pieces(a + seq![c] + b, c)[0] == a,
        pieces(a, c)[0] == a,
{
    let s = a + seq![c] + b;
    first_pos_is_first(s, c);
    first_pos_is_first(a, c);
    let k = first_pos(s, c);
    assert(s[a.len() as int] == c);
    if k < a.len() {
        assert(s[k] == a[k]);
        assert(a.contains(c));
    }
    assert(s.take(k) =~= a);
    assert(pieces(s, c) =~= seq![s.take(k)] + pieces(s.skip(k + 1), c));
    if first_pos(a, c) < a.len() {
        assert(a[first_pos(a, c)] == c);
        assert(a.contains(c));
    }
}

/// What an answer sets is its first pair: the name before the equals sign and the value
/// behind it, up to the first semicolon. Attributes behind that do not count.
pub proof fn answers_set_their_first_pair(name: Seq<char>, value: Seq<char>, rest: Seq<char>)
    requires
        is_solid(name),
        is_solid(value),
        !name.contains('='),
        !name.contains(';'),
        !value.contains(';'),
    ensures
        set_cookie_pair(name + seq!['='] + value) == Some((name, value)),
        set_cookie_pair(name + seq!['='] + value + seq![';'] + rest) == Some((name, value)),
{
    let p = name + seq!['='] + value;
    assert(!p.contains(';')) by {
        if p.contains(';') {
            let i = choose|i: int| 0 <= i < p.len() && p[i] == ';';
            if i < name.len() {
                assert(name[i] == ';');
            } else if i > name.len() {
                assert(value[i - name.len() - 1] == ';');
            }
        }
    }
    first_piece(p, ';', rest);
    assert(p[0] == name[0] && p.last() == value.last());
    trimmed_keeps_clean(p);
    trimmed_keeps_clean(name);
    trimmed_keeps_clean(value);
    first_pos_is_first(p, '=');
    let k = first_pos(p, '=');
    assert(p[name.len() as int] == '=');
    if k < name.len() {
        assert(p[k] == name[k]);
        assert(name.contains('='));
    }
    assert(p.take(k) =~= name);
    assert(p.skip(k + 1) =~= value);
}

/// What an answer sets is kept under its origin.
pub proof fn answers_are_kept(
    jar: &mut CookieJar,
    origin: &str,
    raw: &str,
    name: Seq<char>,
    value: Seq<char>,
    rest: Seq<char>,
    after: &CookieJar,
    key: &str,
    r: Option<String>,
)
    requires
        call_ensures(CookieJar::record_set_cookie, (jar, origin, raw), ()),
        raw@ == name + seq!['='] + value + seq![';'] + rest,
        is_solid(name),
        is_solid(value),
        !name.contains('='),
        !name.contains(';'),
        !value.contains(';'),
        *after == *final(jar),
        key@ == name,
        call_ensures(CookieJar::get, (after, origin, key), r),
    ensures
        r is Some && r->0@ == value,
{
    answers_set_their_first_pair(name, value, rest);
}

/// One cookie is sent as its name, an equals sign and its value.
pub proof fn one_cookie_is_sent(
    jar: &CookieJar,
    origin: &str,
    name: Seq<char>,
    value: Seq<char>,
    r: Option<String>,
)
    requires
        call_ensures(CookieJar::cookie_header, (jar, origin), r),
        jar@.dom().contains(origin@),
        jar@[origin@] == Map::<Seq<char>, Seq<char>>::empty().insert(name, value),
    ensures
        r is Some && r->0@ == name + "="@ + value,
{
    let m = jar@[origin@];
    assert(m.dom().contains(name));
    assert(!Set::<Seq<char>>::empty().contains(name));
    let h = r->0@;
    let (names, parts) = choose|names: Seq<Seq<char>>, parts: Seq<Seq<char>>|
        {
            &&& names.no_duplicates()
            &&& names.to_set() == m.dom()
            &&& #[trigger] in_order(parts)
            &&& parts.to_multiset() == (#[trigger] cookie_texts(m, names)).to_multiset()
            &&& h == joined(parts, "; "@)
        };
    assert(names.to_set().contains(name));
    let i = choose|i: int| 0 <= i < names.len() && names[i] == name;
    assert forall|j: int| 0 <= j < names.len() implies names[j] == name by {
        assert(names.to_set().contains(names[j]));
        assert(m.dom().contains(names[j]));
    }
    if names.len() > 1 {
        assert(names[0] == names[1]);
    }
    let t = cookie_texts(m, names);
    parts.to_multiset_ensures();
    t.to_multiset_ensures();
    assert(parts.len() == 1);
    assert(parts.contains(parts[0]));
    assert(t.to_multiset().count(parts[0]) > 0);
    assert(t.contains(parts[0]));
    assert(t[0] == name + "="@ + value);
}

/// No cookies are sent where none are kept.
pub proof fn no_cookies_are_sent(jar: &CookieJar, origin: &str, r: Option<String>)
    requires
        call_ensures(CookieJar::cookie_header, (jar, origin), r),
        !jar@.dom().contains(origin@),
    ensures
        r is None,
{
    assert(cookies_of(jar@, origin@).dom() =~= Set::empty());
}

/// Parts are sent in order, one behind the other with a semicolon and a space between.
pub proof fn two_cookies_are_sent_in_order(m: Map<Seq<char>, Seq<char>>, h: Seq<char>, a: Seq<char>, b: Seq<char>)
    requires
        is_cookie_header(m, h),
        a != b,
        forall|k: Seq<char>| #[trigger] m.dom().contains(k) <==> k == a || k == b,
    ensures
        ({
            let x = a + "="@ + m[a];
            let y = b + "="@ + m[b];
            h == x + "; "@ + y && text_le(x, y) || h == y + "; "@ + x && text_le(y, x)
        }),
{
    let x = a + "="@ + m[a];
    let y = b + "="@ + m[b];
    let (names, parts) = choose|names: Seq<Seq<char>>, parts: Seq<Seq<char>>|
        {
            &&& names.no_duplicates()
            &&& names.to_set() == m.dom()
            &&& #[trigger] in_order(parts)
            &&& parts.to_multiset() == (#[trigger] cookie_texts(m, names)).to_multiset()
            &&& h == joined(parts, "; "@)
        };
    assert(m.dom().contains(a) && m.dom().contains(b));
    assert(names.to_set().contains(a) && names.to_set().contains(b));
    let i = choose|i: int| 0 <= i < names.len() && names[i] == a;
    let j = choose|j: int| 0 <= j < names.len() && names[j] == b;
    assert forall|k: int| 0 <= k < names.len() implies names[k] == a || names[k] == b by {
        assert(names.to_set().contains(names[k]));
        assert(m.dom().contains(names[k]));
    }
    if names.len() > 2 {
        let k: int = if i != 0 && j != 0 {
            0
        } else if i != 1 && j != 1 {
            1
        } else {
            2
        };
        assert(names[k] == a || names[k] == b);
        assert(k != i && k != j);
    }
    assert(names.len() == 2);
    let t = cookie_texts(m, names);
    assert(t[i] == x && t[j] == y);
    parts.to_multiset_ensures();
    t.to_multiset_ensures();
    assert(parts.len() == 2);
    let u = seq![x, y];
    let v = seq![y, x];
    assert(t =~= u || t =~= v);
    two_of_two(parts, t);
    assert(parts =~= u || parts =~= v);
    assert(text_le(parts[0], parts[1]));
    assert(parts.drop_last() =~= seq![parts[0]]);
    assert(joined(parts.drop_last(), "; "@) == parts[0]);
}

proof fn two_of_two(a: Seq<Seq<char>>, b: Seq<Seq<char>>)
    requires
        a.len() == 2,
        b.len() == 2,
        a.to_multiset() == b.to_multiset(),
    ensures
        a == b || a[0] == b[1] && a[1] == b[0],
{
    a.to_multiset_ensures();
    b.to_multiset_ensures();
    assert(a.contains(a[0]) && a.contains(a[1]) && b.contains(b[0]) && b.contains(b[1]));
    assert(b.to_multiset().count(a[0]) > 0 && b.to_multiset().count(a[1]) > 0);
    assert(a.to_multiset().count(b[0]) > 0 && a.to_multiset().count(b[1]) > 0);
    assert(b.contains(a[0]) && b.contains(a[1]));
    assert(a.contains(b[0]) && a.contains(b[1]));
    if a[0] == b[0] && a[1] == b[1] {
        assert(a =~= b);
    }
}

/// Different cookies of an answer are all kept, the last of a name for good.
pub proof fn answers_with_cookies_are_harvested(
    jar: &mut CookieJar,
    url: &str,
    headers: &HeaderMap<HeaderValue>,
    origin: Seq<char>,
)
    requires
        call_ensures(harvest_cookies, (jar, url, headers), ()),
        parsed_url(url@) is Some,
        crate::urls::origin_of(parsed_url(url@)->0) == Some(origin),
    ensures
        !header_values(*headers).dom().contains("set-cookie"@) ==> final(jar)@ == old(jar)@,
        header_values(*headers).dom().contains("set-cookie"@) ==> final(jar)@
            == crate::fetch::client::harvested(
            old(jar)@,
            origin,
            header_values(*headers)["set-cookie"@],
        ),
{
    reveal_strlit("set-cookie");
    assert(ascii_lower("set-cookie"@) =~= "set-cookie"@);
}

/// The origin of a URL is its scheme, its host, and its port where it names one.
pub proof fn origins_name_scheme_host_and_port(url: &str, u: UrlModel, r: Option<String>)
    requires
        call_ensures(origin_for, (url,), r),
        parsed_url(url@) == Some(u),
    ensures
        r is Some <==> u.host is Some,
        u.host is Some && u.port is None ==> r->0@ == u.scheme + "://"@ + u.host->0,
        u.host is Some && u.port is Some ==> r->0@ == u.scheme + "://"@ + u.host->0 + ":"@
            + decimal(u.port->0 as nat),
{
    if u.host is Some {
        assert(u.scheme + "://"@ + u.host->0 + seq![] =~= u.scheme + "://"@ + u.host->0);
        if u.port is Some {
            assert(u.scheme + "://"@ + u.host->0 + (":"@ + decimal(u.port->0 as nat)) =~= u.scheme
                + "://"@ + u.host->0 + ":"@ + decimal(u.port->0 as nat));
        }
    }
}

// ---- blocked hosts -------------------------------------------------------------------

/// A list blocks each of its hosts, and all below them.
pub proof fn listed_hosts_are_blocked(
    list: &TrackerBlocklist,
    url: &str,
    entry: Seq<char>,
    sub: Seq<char>,
    scheme: Seq<char>,
    port: Option<u16>,
    r: bool,
)
    requires
        call_ensures(TrackerBlocklist::blocks, (list, url), r),
        list@.contains(entry),
        ascii_lower(entry) == entry,
        parsed_url(url@) == Some(UrlModel { scheme, host: Some(entry), port }) || parsed_url(url@)
            == Some(UrlModel { scheme, host: Some(sub + "."@ + entry), port }),
    ensures
        r,
{
    crate::fetch::blocklist::entry_blocks_its_subdomains(list@, entry, sub, scheme, port);
}

/// Nothing is blocked by an empty list, nor what is no URL with a host.
pub proof fn nothing_else_is_blocked(list: &TrackerBlocklist, url: &str, r: bool)
    requires
        call_ensures(TrackerBlocklist::blocks, (list, url), r),
        (forall|h: Seq<char>| !(#[trigger] list@.contains(h))) || parsed_url(url@) is None
            || parsed_url(url@)->0.host is None,
    ensures
        !r,
{
}

/// A list that is made of hosts holds each of them, without the space around it and in
/// lower case, and no other.
pub proof fn lists_hold_their_hosts(hs: &Vec<String>, r: TrackerBlocklist, h: Seq<char>)
    requires
        call_ensures(TrackerBlocklist::from_hosts, (hs,), r),
    ensures
        r@.contains(h) <==> h.len() > 0 && exists|i: int|
            0 <= i < hs@.len() && ascii_lower(trimmed((#[trigger] hs@[i])@)) == h,
{
    let v = views(hs@);
    if r@.contains(h) {
        let i = choose|i: int| 0 <= i < v.len() && host_entry(#[trigger] v[i]) == h;
        assert(v[i] == hs@[i]@);
    }
    if h.len() > 0 && exists|i: int|
        0 <= i < hs@.len() && ascii_lower(trimmed((#[trigger] hs@[i])@)) == h {
        let i = choose|i: int| 0 <= i < hs@.len() && ascii_lower(trimmed((#[trigger] hs@[i])@)) == h;
        assert(v[i] == hs@[i]@);
        assert(host_entry(v[i]) == h);
    }
}

// ---- decoding and headers ------------------------------------------------------------

/// Each decoding gives what its format holds, and fails where that fails.
pub proof fn formats_are_decoded(
    input: &[u8],
    g: Result<Vec<u8>, Error>,
    b: Result<Vec<u8>, Error>,
    d: Result<Vec<u8>, Error>,
)
    requires
        call_ensures(decode_gzip, (input,), g),
        call_ensures(decode_brotli, (input,), b),
        call_ensures(decode_deflate, (input,), d),
    ensures
        g is Ok <==> gunzipped(input@) is Ok,
        g is Ok ==> g->Ok_0@ == gunzipped(input@)->Ok_0,
        b is Ok <==> unbrotlied(input@) is Ok,
        b is Ok ==> b->Ok_0@ == unbrotlied(input@)->Ok_0,
        d is Ok <==> unzlibbed(input@) is Ok || inflated(input@) is Ok,
        unzlibbed(input@) is Ok ==> d->Ok_0@ == unzlibbed(input@)->Ok_0,
        unzlibbed(input@) is Err && inflated(input@) is Ok ==> d->Ok_0@ == inflated(input@)->Ok_0,
{
}

/// A header is read by its name in any case: the first of it, where its bytes are text.
pub proof fn headers_are_read_by_name(
    h: &HeaderMap<HeaderValue>,
    name: &str,
    low: Seq<char>,
    text: Seq<char>,
    r: Option<String>,
)
    requires
        call_ensures(first_text, (h, name), r),
        ascii_lower(name@) == low,
    ensures
        shows(*h, low, text) ==> r is Some && r->0@ == text,
        !header_values(*h).dom().contains(low) ==> r is None,
{
    if shows(*h, low, text) {
        let b = header_values(*h)[low][0];
        assert forall|i: int| 0 <= i < b.len() implies 32 <= (#[trigger] b[i]) < 127 || b[i]
            == 9 by {
            assert(header_values(*h)[low][0][i] == b[i]);
        }
        let t = crate::fetch::headers::visible_text(b)->0;
        assert forall|i: int| 0 <= i < t.len() implies t[i] == text[i] by {
            assert(header_values(*h)[low][0][i] == b[i]);
        }
        assert(t =~= text);
    }
}

/// The statuses that redirect.
pub proof fn statuses_that_redirect(status: u16, r: bool)
    requires
        call_ensures(is_redirect, (status,), r),
    ensures
        r <==> status == 301 || status == 302 || status == 303 || status == 307 || status == 308,
{
}

/// A redirected request goes to the next URL; after 307 and 308 it is else as it was, and
/// after 301, 302 and 303 it has no body, and a POST is a GET.
pub proof fn redirected_requests_go_on(
    req: FetchRequest,
    status: u16,
    next: String,
    r: FetchRequest,
)
    requires
        call_ensures(rewrite_for_redirect, (req, status, next), r),
    ensures
        r.url@ == next@,
        status == 307 || status == 308 ==> r.method@ == req.method@ && r.body@ == req.body@
            && r@.headers == req@.headers,
        301 <= status <= 303 ==> r.body@.len() == 0,
        301 <= status <= 303 && (req.method@ == "POST"@ || req.method@ == "post"@) ==> r.method@
            == "GET"@,
        301 <= status <= 303 && req.method@ == "GET"@ ==> r.method@ == "GET"@,
{
    assert(r@.url == r.url@ && r@.method == r.method@ && r@.body == r.body@);
    assert(req@.method == req.method@ && req@.body == req.body@);
    if 301 <= status <= 303 && (req.method@ == "POST"@ || req.method@ == "post"@) {
        crate::fetch::laws::post_becomes_get(req@, status as int, next@);
    }
}

/// The client's own name.
pub proof fn clients_are_named(r: String)
    requires
        call_ensures(default_user_agent, (), r),
    ensures
        r@ == "bouncy/"@ + "0.1.0"@ + " (+"@ + "https://bouncy.example/"@ + ")"@,
{
}

} // verus!
