//! What holds of every request.
use crate::fetch::client::{
    cookies_for, default_headers, harvested, names, redirected, sent_headers, RequestModel,
};
use crate::fetch::cookies::{
    cookie_at, cookie_texts, cookies_of, is_cookie_header, set_cookie_pair,
};
use crate::fetch::decode::{decoded, known_encoding};
use crate::fetch::headers::visible_text;
use crate::sort::in_order;
use crate::text::{
    all_ascii, ascii_lower, ascii_upper, has_text, joined, occurs_at, same_ignoring_case,
    upper_text,
};
use crate::urls::{origin_of, parsed_url};
use vstd::prelude::*;

verus! {

/// A name that the request gives itself, in whatever case, is the one that goes
/// out: the client's own name is not added.
pub proof fn own_agent_wins(
    headers: Seq<(Seq<char>, Seq<char>)>,
    agent: Seq<char>,
    other: Seq<char>,
    cookies: Option<Seq<char>>,
)
    requires
        names(headers, "user-agent"@),
    ensures
        sent_headers(headers, agent, cookies) == sent_headers(headers, other, cookies),
{
}

/// A request without a name goes out under the client's.
pub proof fn client_agent_is_sent(
    headers: Seq<(Seq<char>, Seq<char>)>,
    agent: Seq<char>,
    cookies: Option<Seq<char>>,
)
    requires
        !names(headers, "user-agent"@),
    ensures
        sent_headers(headers, agent, cookies).contains(("user-agent"@, agent)),
{
    let base = default_headers(headers, agent);
    let sent = sent_headers(headers, agent, cookies);
    assert(sent[base.len() - 1] == ("user-agent"@, agent));
}

/// An encoding that the request asks for itself is the only one asked for.
pub proof fn own_encoding_wins(
    headers: Seq<(Seq<char>, Seq<char>)>,
    agent: Seq<char>,
    cookies: Option<Seq<char>>,
    i: int,
)
    requires
        names(headers, "accept-encoding"@),
        headers.len() <= i < sent_headers(headers, agent, cookies).len(),
    ensures
        !same_ignoring_case(sent_headers(headers, agent, cookies)[i].0, "accept-encoding"@),
{
    reveal_strlit("accept-encoding");
    reveal_strlit("user-agent");
    reveal_strlit("cookie");
    assert(ascii_lower("user-agent"@).len() != ascii_lower("accept-encoding"@).len());
    assert(ascii_lower("cookie"@).len() != ascii_lower("accept-encoding"@).len());
}

/// The headers of a request go out first, unchanged and in order.
pub proof fn own_headers_go_out(
    headers: Seq<(Seq<char>, Seq<char>)>,
    agent: Seq<char>,
    cookies: Option<Seq<char>>,
)
    ensures
        sent_headers(headers, agent, cookies).len() >= headers.len(),
        sent_headers(headers, agent, cookies).take(headers.len() as int) == headers,
{
    assert(sent_headers(headers, agent, cookies).take(headers.len() as int) =~= headers);
}

/// After 301, 302 and 303 nothing is posted again: the body is gone, and a
/// method other than GET and HEAD becomes GET.
pub proof fn see_other_becomes_get(req: RequestModel, status: int, next: Seq<char>)
    requires
        301 <= status <= 303,
    ensures
        redirected(req, status, next).url == next,
        redirected(req, status, next).body.len() == 0,
        upper_text(req.method) != "GET"@ && upper_text(req.method) != "HEAD"@
            ==> redirected(req, status, next).method == "GET"@,
{
}

/// A POST that is redirected with 301, 302 or 303 is sent on as GET.
pub proof fn post_becomes_get(req: RequestModel, status: int, next: Seq<char>)
    requires
        301 <= status <= 303,
        req.method == "POST"@ || req.method == "post"@,
    ensures
        redirected(req, status, next).method == "GET"@,
{
    reveal_strlit("POST");
    reveal_strlit("post");
    reveal_strlit("GET");
    reveal_strlit("HEAD");
    assert(all_ascii("POST"@) && all_ascii("post"@));
    assert(ascii_upper(req.method)[0] == 'P');
}

/// After 307 and 308 the same request goes to the new place.
pub proof fn permanent_redirect_repeats(req: RequestModel, status: int, next: Seq<char>)
    requires
        status == 307 || status == 308,
    ensures
        redirected(req, status, next) == (RequestModel { url: next, ..req }),
{
}

/// However a request is redirected, it is sent at most once more than redirects
/// are allowed: each step that sends again counts one more, up to the limit.
pub proof fn redirects_are_bounded(hops: Seq<int>, max: int)
    requires
        hops.len() > 0,
        hops[0] == 0,
        max >= 0,
        forall|i: int|
            0 < i < hops.len() ==> #[trigger] hops[i] == hops[i - 1] + 1 && hops[i - 1] < max,
    ensures
        hops.len() <= max + 1,
{
    counted(hops, max, hops.len() - 1);
}

proof fn counted(hops: Seq<int>, max: int, k: int)
    requires
        hops[0] == 0,
        max >= 0,
        0 <= k < hops.len(),
        forall|i: int|
            0 < i < hops.len() ==> #[trigger] hops[i] == hops[i - 1] + 1 && hops[i - 1] < max,
    ensures
        hops[k] == k,
        k <= max,
    decreases k,
{
    if k > 0 {
        counted(hops, max, k - 1);
        assert(hops[k] == hops[k - 1] + 1);
    }
}

/// A body under an encoding that is not known comes back as it is.
pub proof fn unknown_encoding_passes(encoding: Option<Seq<char>>, body: Seq<u8>)
    requires
        encoding matches Some(e) ==> !known_encoding(e),
    ensures
        decoded(encoding, body) == Ok::<Seq<u8>, Seq<char>>(body),
{
}

/// The name and the value that a `Set-Cookie` value sets.
pub open spec fn cookie_set(value: Seq<u8>) -> Option<(Seq<char>, Seq<char>)> {
    match visible_text(value) {
        Some(raw) => set_cookie_pair(raw),
        None => None,
    }
}

/// A part of a text that is joined occurs in it.
proof fn part_occurs(parts: Seq<Seq<char>>, sep: Seq<char>, i: int)
    requires
        0 <= i < parts.len(),
    ensures
        has_text(joined(parts, sep), parts[i]),
    decreases parts.len(),
{
    let all = joined(parts, sep);
    if parts.len() == 1 {
        assert(all.subrange(0, parts[i].len() as int) =~= parts[i]);
        assert(occurs_at(all, parts[i], 0));
    } else {
        let front = joined(parts.drop_last(), sep);
        if i == parts.len() - 1 {
            let k: int = (front.len() + sep.len()) as int;
            assert(all.subrange(k, k + parts[i].len()) =~= parts[i]);
            assert(occurs_at(all, parts[i], k));
        } else {
            part_occurs(parts.drop_last(), sep, i);
            let k = choose|k: int| #[trigger] occurs_at(front, parts[i], k);
            assert(all.subrange(k, k + parts[i].len()) =~= front.subrange(k, k + parts[i].len()));
            assert(occurs_at(all, parts[i], k));
        }
    }
}

/// The last value that is set under a name is the one that is kept.
proof fn last_value_is_kept(
    jar: Map<Seq<char>, Map<Seq<char>, Seq<char>>>,
    origin: Seq<char>,
    values: Seq<Seq<u8>>,
    i: int,
    name: Seq<char>,
    value: Seq<char>,
)
    requires
        0 <= i < values.len(),
        cookie_set(values[i]) == Some((name, value)),
        forall|j: int|
            i < j < values.len() ==> ((#[trigger] cookie_set(values[j])) matches Some(c) ==> c.0
                != name),
    ensures
        cookie_at(harvested(jar, origin, values), origin, name) == Some(value),
    decreases values.len(),
{
    let front = values.drop_last();
    let before = harvested(jar, origin, front);
    if i < values.len() - 1 {
        assert(cookie_set(front[i]) == Some((name, value)));
        assert forall|j: int| i < j < front.len() implies ((#[trigger] cookie_set(
            front[j],
        )) matches Some(c) ==> c.0 != name) by {
            assert(cookie_set(values[j]) == cookie_set(front[j]));
        }
        last_value_is_kept(jar, origin, front, i, name, value);
        let last = cookie_set(values[values.len() - 1]);
        assert(last matches Some(c) ==> c.0 != name);
    }
}

/// A cookie that a response sets, and sets to nothing else after that, goes out
/// with the next request to the same origin.
pub proof fn set_cookie_is_sent_back(
    jar: Map<Seq<char>, Map<Seq<char>, Seq<char>>>,
    origin: Seq<char>,
    values: Seq<Seq<u8>>,
    i: int,
    name: Seq<char>,
    value: Seq<char>,
    next: Seq<char>,
    header: Seq<char>,
)
    requires
        0 <= i < values.len(),
        cookie_set(values[i]) == Some((name, value)),
        forall|j: int|
            i < j < values.len() ==> ((#[trigger] cookie_set(values[j])) matches Some(c) ==> c.0
                != name),
        parsed_url(next) is Some,
        origin_of(parsed_url(next)->0) == Some(origin),
        is_cookie_header(cookies_for(harvested(jar, origin, values), next), header),
    ensures
        has_text(header, name + "="@ + value),
{
    last_value_is_kept(jar, origin, values, i, name, value);
    let m = cookies_of(harvested(jar, origin, values), origin);
    let (names, parts) = choose|names: Seq<Seq<char>>, parts: Seq<Seq<char>>|
        {
            &&& names.no_duplicates()
            &&& names.to_set() == m.dom()
            &&& #[trigger] in_order(parts)
            &&& parts.to_multiset() == (#[trigger] cookie_texts(m, names)).to_multiset()
            &&& header == joined(parts, "; "@)
        };
    assert(names.to_set().contains(name));
    let k = choose|k: int| 0 <= k < names.len() && names[k] == name;
    let texts = cookie_texts(m, names);
    let text = name + "="@ + value;
    assert(texts[k] == text);
    texts.to_multiset_ensures();
    parts.to_multiset_ensures();
    assert(texts.contains(text));
    assert(texts.to_multiset().contains(text));
    assert(parts.to_multiset().contains(text));
    assert(parts.contains(text));
    let n = choose|n: int| 0 <= n < parts.len() && parts[n] == text;
    part_occurs(parts, "; "@, n);
}

} // verus!
