//! Requests and output of a single fetch, as the command line describes them.
use crate::cli::scrape::found_texts;
use crate::extract::{
    extract_links, extract_text, link_events, link_scan, link_views, text_events, visible_text,
    Link, LinkModel,
};
use crate::fetch::blocklist::{
    default_trackers, entries_stay, host_entry, kept_hosts, TrackerBlocklist,
};
use crate::fetch::client::{names, FetchRequest, Fetcher, FetcherBuilder, RequestModel};
use crate::fetch::cookies::CookieJar;
use crate::select::{readable, select_attr, select_text};
use crate::session::MAX_NAV_HOPS;
use crate::text::{
    debug_text, debugged, eq_ignore_ascii_case, first_pos, from_utf8, split_once, trim, trim_left,
    trim_start, trimmed, views,
};
use crate::urls::{parse_url, parsed_url};
use vstd::prelude::*;
use vstd::string::*;
use vstd::utf8::{encode_utf8, valid_utf8};

verus! {

// ---- headers -------------------------------------------------------------------

/// The name and the value of a header that is written as `Name: Value`.
pub open spec fn header_pair(raw: Seq<char>) -> Option<(Seq<char>, Seq<char>)> {
    let k = first_pos(raw, ':');
    if k < raw.len() {
        Some((trimmed(raw.take(k)), trim_start(raw.skip(k + 1))))
    } else {
        None
    }
}

pub open spec fn bad_header_text(raw: Seq<char>) -> Seq<char> {
    "invalid --header "@ + debugged(raw) + " (expected `Name: Value`)"@
}

pub fn parse_header(raw: &str) -> (r: Result<(&str, &str), String>)
    ensures
        match r {
            Ok((name, value)) => header_pair(raw@) == Some((name@, value@)),
            Err(e) => header_pair(raw@) is None && e@ == bad_header_text(raw@),
        },
{
    proof {
        crate::text::first_pos_is_first(raw@, ':');
    }
    match split_once(raw, ':') {
        Some((name, value)) => Ok((trim(name), trim_left(value))),
        None => {
            let mut m = "invalid --header ".to_owned();
            m.append(debug_text(raw).as_str());
            m.append(" (expected `Name: Value`)");
            Err(m)
        },
    }
}

/// All headers, or what is wrong with the first that cannot be read.
pub open spec fn header_pairs(raws: Seq<Seq<char>>) -> Result<
    Seq<(Seq<char>, Seq<char>)>,
    Seq<char>,
>
    decreases raws.len(),
{
    if raws.len() == 0 {
        Ok(seq![])
    } else {
        match header_pairs(raws.drop_last()) {
            Ok(h) => match header_pair(raws.last()) {
                Some(p) => Ok(h.push(p)),
                None => Err(bad_header_text(raws.last())),
            },
            Err(e) => Err(e),
        }
    }
}

proof fn header_stays_wrong(raws: Seq<Seq<char>>, n: int)
    requires
        0 <= n <= raws.len(),
        header_pairs(raws.take(n)) is Err,
    ensures
        header_pairs(raws) == header_pairs(raws.take(n)),
    decreases raws.len() - n,
{
    if n == raws.len() {
        assert(raws.take(n) =~= raws);
    } else {
        assert(raws.take(n + 1).drop_last() =~= raws.take(n));
        header_stays_wrong(raws, n + 1);
    }
}

// ---- base64 --------------------------------------------------------------------

/// The character for a number below 64.
#[verifier::opaque]
pub open spec fn base64_digit(n: int) -> char {
    if n < 26 {
        ((65 + n) as u32) as char
    } else if n < 52 {
        ((71 + n) as u32) as char
    } else if n < 62 {
        ((n - 4) as u32) as char
    } else if n == 62 {
        '+'
    } else {
        '/'
    }
}

/// The four digits of three bytes.
pub open spec fn base64_quad(a: u8, b: u8, c: u8) -> Seq<char> {
    let n = a as int * 65536 + b as int * 256 + c as int;
    seq![
        base64_digit(n / 262144),
        base64_digit(n / 4096 % 64),
        base64_digit(n / 64 % 64),
        base64_digit(n % 64),
    ]
}

/// Bytes in base64: four digits for every three of them, filled up with `=`.
pub open spec fn base64(s: Seq<u8>) -> Seq<char>
    decreases s.len(),
{
    if s.len() == 0 {
        seq![]
    } else if s.len() == 1 {
        base64_quad(s[0], 0, 0).take(2) + seq!['=', '=']
    } else if s.len() == 2 {
        base64_quad(s[0], s[1], 0).take(3) + seq!['=']
    } else {
        base64_quad(s[0], s[1], s[2]) + base64(s.skip(3))
    }
}

fn base64_char(n: u32) -> (r: char)
    requires
        n < 64,
    ensures
        r == base64_digit(n as int),
{
    proof {
        reveal(base64_digit);
    }
    if n < 26 {
        (65 + n as u8) as char
    } else if n < 52 {
        (71 + n as u8) as char
    } else if n < 62 {
        (n as u8 - 4) as char
    } else if n == 62 {
        '+'
    } else {
        '/'
    }
}

pub fn base64_encode(input: &[u8]) -> (r: String)
    ensures
        r@ == base64(input@),
{
    let mut out = String::new();
    let mut i: usize = 0;
    assert(input@.skip(0) =~= input@);
    assert(out@ + base64(input@) =~= base64(input@));
    while input.len() - i >= 3
        invariant
            i <= input@.len(),
            out@ + base64(input@.skip(i as int)) == base64(input@),
        decreases input@.len() - i,
    {
        let ghost before = out@;
        let ghost rest = input@.skip(i as int);
        let n: u32 = input[i] as u32 * 65536 + input[i + 1] as u32 * 256 + input[i + 2] as u32;
        out.push(base64_char(n / 262144));
        out.push(base64_char(n / 4096 % 64));
        out.push(base64_char(n / 64 % 64));
        out.push(base64_char(n % 64));
        assert(rest.skip(3) =~= input@.skip(i + 3));
        assert(out@ =~= before + base64_quad(rest[0], rest[1], rest[2]));
        assert(out@ + base64(rest.skip(3)) =~= before + base64(rest));
        i = i + 3;
    }
    let ghost before = out@;
    let ghost rest = input@.skip(i as int);
    if input.len() - i == 1 {
        let n: u32 = input[i] as u32 * 65536;
        out.push(base64_char(n / 262144));
        out.push(base64_char(n / 4096 % 64));
        out.push('=');
        out.push('=');
        assert(out@ =~= before + base64(rest));
    } else if input.len() - i == 2 {
        let n: u32 = input[i] as u32 * 65536 + input[i + 1] as u32 * 256;
        out.push(base64_char(n / 262144));
        out.push(base64_char(n / 4096 % 64));
        out.push(base64_char(n / 64 % 64));
        out.push('=');
        assert(out@ =~= before + base64(rest));
    } else {
        assert(out@ =~= before + base64(rest));
    }
    out
}

// ---- the request ---------------------------------------------------------------

/// The bytes that a request carries: the text that was given, else the contents of
/// the file, else the JSON.
pub fn choose_body(body: Option<&str>, file: Option<Vec<u8>>, json: Option<&str>) -> (r: Option<
    Vec<u8>,
>)
    ensures
        match r {
            Some(b) => if body is Some {
                b@ == encode_utf8(body->0@)
            } else if file is Some {
                b == file->0
            } else {
                json is Some && b@ == encode_utf8(json->0@)
            },
            None => body is None && file is None && json is None,
        },
{
    match body {
        Some(s) => Some(s.as_bytes_vec()),
        None => match file {
            Some(b) => Some(b),
            None => match json {
                Some(s) => Some(s.as_bytes_vec()),
                None => None,
            },
        },
    }
}

/// The request that the command line describes, or why there is none. JSON brings
/// its content type unless one is given; credentials become an `Authorization`
/// header, and there may be no other.
pub open spec fn described_request(
    url: Seq<char>,
    method: Seq<char>,
    headers: Seq<Seq<char>>,
    json: bool,
    auth: Option<Seq<char>>,
    body: Option<Seq<u8>>,
) -> Result<RequestModel, Seq<char>> {
    match header_pairs(headers) {
        Err(e) => Err(e),
        Ok(given) => {
            let typed = if json && !names(given, "content-type"@) {
                given.push(("Content-Type"@, "application/json"@))
            } else {
                given
            };
            let body = match body {
                Some(b) => b,
                None => seq![],
            };
            match auth {
                None => Ok(RequestModel { url, method, headers: typed, body }),
                Some(creds) => if names(given, "authorization"@) {
                    Err("--auth conflicts with an explicit Authorization header — pick one"@)
                } else {
                    Ok(
                        RequestModel {
                            url,
                            method,
                            headers: typed.push(
                                ("Authorization"@, "Basic "@ + base64(encode_utf8(creds))),
                            ),
                            body,
                        },
                    )
                },
            }
        },
    }
}

pub fn build_request(
    url: &str,
    method: &str,
    headers: &Vec<String>,
    json: bool,
    auth: Option<&str>,
    body: Option<Vec<u8>>,
) -> (r: Result<FetchRequest, String>)
    ensures
        ({
            let want = described_request(
                url@,
                method@,
                views(headers@),
                json,
                match auth {
                    Some(c) => Some(c@),
                    None => None,
                },
                match body {
                    Some(b) => Some(b@),
                    None => None,
                },
            );
            match r {
                Ok(q) => want == Ok::<_, Seq<char>>(q@),
                Err(e) => want == Err::<RequestModel, _>(e@),
            }
        }),
{
    let mut req = FetchRequest::new(url).method(method);
    let ghost raws = views(headers@);
    let mut typed = false;
    let mut signed = false;
    let mut i: usize = 0;
    assert(raws.take(0) =~= seq![]);
    while i < headers.len()
        invariant
            i <= headers@.len(),
            raws == views(headers@),
            req@ == (RequestModel { url: url@, method: method@, headers: req@.headers, body: seq![] }),
            header_pairs(raws.take(i as int)) == Ok::<_, Seq<char>>(req@.headers),
            typed == names(req@.headers, "content-type"@),
            signed == names(req@.headers, "authorization"@),
        decreases headers@.len() - i,
    {
        let ghost before = req@.headers;
        proof {
            assert(raws.take(i + 1).drop_last() =~= raws.take(i as int));
            assert(raws.take(i + 1).last() == headers@[i as int]@);
            if header_pair(headers@[i as int]@) is None {
                header_stays_wrong(raws, i + 1);
            }
        }
        let (name, value) = match parse_header(headers[i].as_str()) {
            Ok(p) => p,
            Err(e) => {
                return Err(e);
            },
        };
        if eq_ignore_ascii_case(name, "content-type") {
            typed = true;
        }
        if eq_ignore_ascii_case(name, "authorization") {
            signed = true;
        }
        req = req.header(name, value);
        proof {
            names_grow(before, (name@, value@), "content-type"@);
            names_grow(before, (name@, value@), "authorization"@);
        }
        i = i + 1;
    }
    assert(raws.take(i as int) =~= raws);
    if json && !typed {
        req = req.header("Content-Type", "application/json");
    }
    if let Some(creds) = auth {
        if signed {
            return Err(
                "--auth conflicts with an explicit Authorization header — pick one".to_owned(),
            );
        }
        let mut v = "Basic ".to_owned();
        v.append(base64_encode(creds.as_bytes_vec().as_slice()).as_str());
        req = req.header("Authorization", v.as_str());
    }
    if let Some(b) = body {
        req = req.body_bytes(b);
    }
    Ok(req)
}

proof fn names_grow(
    headers: Seq<(Seq<char>, Seq<char>)>,
    p: (Seq<char>, Seq<char>),
    name: Seq<char>,
)
    ensures
        names(headers.push(p), name) == (names(headers, name)
            || crate::text::same_ignoring_case(p.0, name)),
{
    let all = headers.push(p);
    if names(headers, name) {
        let k = choose|k: int|
            0 <= k < headers.len() && crate::text::same_ignoring_case((#[trigger] headers[k]).0, name);
        assert(all[k] == headers[k]);
    }
    assert(all[headers.len() as int] == p);
    if names(all, name) {
        let k = choose|k: int|
            0 <= k < all.len() && crate::text::same_ignoring_case((#[trigger] all[k]).0, name);
        if k < headers.len() {
            assert(headers[k] == all[k]);
        }
    }
}

/// The first three bytes, with zeros for those that are missing.
spec fn filled(s: Seq<u8>) -> (u8, u8, u8) {
    (
        s[0],
        if s.len() > 1 {
            s[1]
        } else {
            0
        },
        if s.len() > 2 {
            s[2]
        } else {
            0
        },
    )
}

proof fn base64_len(s: Seq<u8>)
    ensures
        base64(s).len() == (s.len() + 2) / 3 * 4,
    decreases s.len(),
{
    if s.len() >= 3 {
        base64_len(s.skip(3));
    }
}

proof fn digits_differ(m: int, n: int)
    requires
        0 <= m < 64,
        0 <= n < 64,
        base64_digit(m) == base64_digit(n),
    ensures
        m == n,
{
    reveal(base64_digit);
}

proof fn digit_is_no_filler(n: int)
    requires
        0 <= n < 64,
    ensures
        base64_digit(n) != '=',
{
    reveal(base64_digit);
}

/// A number below 2^24 is made up of its four digits in base 64.
proof fn four_digits(n: int)
    requires
        0 <= n < 16777216,
    ensures
        n == n / 262144 * 262144 + n / 4096 % 64 * 4096 + n / 64 % 64 * 64 + n % 64,
        0 <= n / 262144 < 64,
{
    assert(n / 64 / 64 == n / 4096);
    assert(n / 4096 / 64 == n / 262144);
}

/// Three bytes are read off their number.
proof fn three_bytes(a: u8, b: u8, c: u8, n: int)
    requires
        n == a as int * 65536 + b as int * 256 + c as int,
    ensures
        a == n / 65536,
        b == n / 256 % 256,
        c == n % 256,
        0 <= n < 16777216,
{
}

proof fn quads_differ(a: (u8, u8, u8), b: (u8, u8, u8))
    requires
        base64_quad(a.0, a.1, a.2) == base64_quad(b.0, b.1, b.2),
    ensures
        a == b,
{
    let m = a.0 as int * 65536 + a.1 as int * 256 + a.2 as int;
    let n = b.0 as int * 65536 + b.1 as int * 256 + b.2 as int;
    let x = base64_quad(a.0, a.1, a.2);
    let y = base64_quad(b.0, b.1, b.2);
    three_bytes(a.0, a.1, a.2, m);
    three_bytes(b.0, b.1, b.2, n);
    four_digits(m);
    four_digits(n);
    assert(x[0] == y[0] && x[1] == y[1] && x[2] == y[2] && x[3] == y[3]);
    digits_differ(m / 262144, n / 262144);
    digits_differ(m / 4096 % 64, n / 4096 % 64);
    digits_differ(m / 64 % 64, n / 64 % 64);
    digits_differ(m % 64, n % 64);
}

/// How the first three bytes are written.
proof fn first_quad(s: Seq<u8>)
    requires
        s.len() > 0,
    ensures
        ({
            let x = base64(s);
            let q = base64_quad(filled(s).0, filled(s).1, filled(s).2);
            &&& x.len() >= 4
            &&& x[0] == q[0]
            &&& x[1] == q[1]
            &&& q[2] != '='
            &&& q[3] != '='
            &&& x[2] == (if s.len() == 1 {
                '='
            } else {
                q[2]
            })
            &&& x[3] == (if s.len() <= 2 {
                '='
            } else {
                q[3]
            })
            &&& s.len() == 1 ==> q[2] == base64_digit(0)
            &&& s.len() <= 2 ==> q[3] == base64_digit(0)
            &&& s.len() >= 3 ==> x.skip(4) == base64(s.skip(3))
            &&& s.len() < 3 ==> x.len() == 4
        }),
{
    let (a, b, c) = filled(s);
    let n = a as int * 65536 + b as int * 256 + c as int;
    digit_is_no_filler(n / 64 % 64);
    digit_is_no_filler(n % 64);
    base64_len(s);
    if s.len() >= 3 {
        assert(base64(s).skip(4) =~= base64(s.skip(3)));
    }
    if s.len() == 1 {
        assert(n / 64 % 64 == 0);
    }
    if s.len() <= 2 {
        assert(n % 64 == 0);
    }
}

/// Base64 keeps bytes apart: different bytes are written differently.
pub proof fn base64_keeps_bytes_apart(a: Seq<u8>, b: Seq<u8>)
    requires
        base64(a) == base64(b),
    ensures
        a == b,
    decreases a.len(),
{
    base64_len(a);
    base64_len(b);
    if a.len() > 0 {
        first_quad(a);
        first_quad(b);
        let qa = base64_quad(filled(a).0, filled(a).1, filled(a).2);
        let qb = base64_quad(filled(b).0, filled(b).1, filled(b).2);
        assert(qa =~= qb);
        quads_differ(filled(a), filled(b));
        if a.len() >= 3 {
            base64_keeps_bytes_apart(a.skip(3), b.skip(3));
            assert(a =~= seq![a[0], a[1], a[2]] + a.skip(3));
            assert(b =~= seq![b[0], b[1], b[2]] + b.skip(3));
        }
    }
    assert(a =~= b);
}

// ---- what else the command line decides ------------------------------------------

/// The hosts that are blocked: the known trackers where asked for, and the hosts
/// that are given; nothing is blocked where neither is.
pub fn build_blocklist(block_trackers: bool, extra_hosts: &Vec<String>) -> (r: Option<
    TrackerBlocklist,
>)
    ensures
        match r {
            Some(list) => (block_trackers || extra_hosts@.len() > 0) && list@ == kept_hosts(
                (if block_trackers {
                    default_trackers()
                } else {
                    seq![]
                }) + views(extra_hosts@),
            ),
            None => !block_trackers && extra_hosts@.len() == 0,
        },
{
    if !block_trackers && extra_hosts.len() == 0 {
        return None;
    }
    let mut hosts: Vec<String> = if block_trackers {
        TrackerBlocklist::default_set().hosts_iter()
    } else {
        Vec::new()
    };
    let ghost known = views(hosts@);
    let ghost extra = views(extra_hosts@);
    let mut i: usize = 0;
    assert(views(hosts@) =~= known + extra.take(0));
    while i < extra_hosts.len()
        invariant
            i <= extra_hosts@.len(),
            extra == views(extra_hosts@),
            views(hosts@) == known + extra.take(i as int),
        decreases extra_hosts@.len() - i,
    {
        let ghost prior = hosts@;
        hosts.push(extra_hosts[i].clone());
        assert(views(hosts@) =~= views(prior).push(extra_hosts@[i as int]@));
        assert(extra.take(i + 1) =~= extra.take(i as int).push(extra[i as int]));
        i = i + 1;
    }
    assert(extra.take(i as int) =~= extra);
    proof {
        if block_trackers {
            assert(known.to_set() == kept_hosts(default_trackers()));
            kept_again(default_trackers(), known, extra);
        } else {
            assert(known =~= seq![]);
        }
    }
    Some(TrackerBlocklist::from_hosts(&hosts))
}

/// Hosts that were kept before are kept again.
proof fn kept_again(first: Seq<Seq<char>>, known: Seq<Seq<char>>, extra: Seq<Seq<char>>)
    requires
        known.to_set() == kept_hosts(first),
    ensures
        kept_hosts(known + extra) == kept_hosts(first + extra),
{
    let a = known + extra;
    let b = first + extra;
    assert forall|h: Seq<char>| #[trigger] kept_hosts(a).contains(h) <==> kept_hosts(b).contains(h) by {
        if kept_hosts(a).contains(h) {
            let i = choose|i: int| 0 <= i < a.len() && host_entry(#[trigger] a[i]) == h;
            if i < known.len() {
                assert(known.to_set().contains(known[i]));
                let k = choose|k: int|
                    0 <= k < first.len() && host_entry(#[trigger] first[k]) == known[i];
                entries_stay(first[k]);
                assert(b[k] == first[k]);
            } else {
                assert(b[i - known.len() + first.len()] == extra[i - known.len()]);
            }
        }
        if kept_hosts(b).contains(h) {
            let i = choose|i: int| 0 <= i < b.len() && host_entry(#[trigger] b[i]) == h;
            if i < first.len() {
                assert(host_entry(first[i]) == h);
                assert(known.to_set().contains(h));
                let k = choose|k: int| 0 <= k < known.len() && known[k] == h;
                entries_stay(first[i]);
                assert(a[k] == h);
            } else {
                assert(a[i - first.len() + known.len()] == extra[i - first.len()]);
            }
        }
    }
    assert(kept_hosts(a) =~= kept_hosts(b));
}

/// Whether a page has to be loaded by the script engine.
pub fn needs_js(eval: bool, selector: bool, stealth: bool) -> (r: bool)
    ensures
        r == (eval || selector || stealth),
{
    eval || selector || stealth
}

/// Each text on a line of its own.
pub open spec fn lines_text(lines: Seq<Seq<char>>) -> Seq<char>
    decreases lines.len(),
{
    if lines.len() == 0 {
        seq![]
    } else {
        lines_text(lines.drop_last()) + lines.last() + "\n"@
    }
}

/// Each link on a line of its own: its URL, a tab, and its text.
pub open spec fn link_lines(links: Seq<LinkModel>) -> Seq<Seq<char>> {
    links.map_values(|l: LinkModel| l.url + "\t"@ + l.text)
}

pub fn print_lines(lines: &Vec<String>) -> (r: String)
    ensures
        r@ == lines_text(views(lines@)),
{
    let ghost all = views(lines@);
    let mut out = String::new();
    assert(out@ =~= lines_text(all.take(0)));
    let mut i: usize = 0;
    while i < lines.len()
        invariant
            i <= lines@.len(),
            all == views(lines@),
            out@ == lines_text(all.take(i as int)),
        decreases lines@.len() - i,
    {
        out.append(lines[i].as_str());
        out.append("\n");
        assert(all.take(i + 1).drop_last() =~= all.take(i as int));
        assert(all.take(i + 1).last() == lines@[i as int]@);
        i = i + 1;
    }
    assert(all.take(i as int) =~= all);
    out
}

pub fn print_links(links: &Vec<Link>) -> (r: String)
    ensures
        r@ == lines_text(link_lines(link_views(links@))),
{
    let ghost all = link_lines(link_views(links@));
    let mut lines: Vec<String> = Vec::new();
    let mut i: usize = 0;
    while i < links.len()
        invariant
            i <= links@.len(),
            all == link_lines(link_views(links@)),
            views(lines@) == all.take(i as int),
        decreases links@.len() - i,
    {
        let mut s = links[i].url.clone();
        s.append("\t");
        s.append(links[i].text.as_str());
        assert(s@ == all[i as int]);
        let ghost prior = lines@;
        lines.push(s);
        assert(views(lines@) =~= views(prior).push(s@));
        assert(all.take(i + 1) =~= all.take(i as int).push(all[i as int]));
        i = i + 1;
    }
    assert(all.take(i as int) =~= all);
    print_lines(&lines)
}

// ---- the client ----------------------------------------------------------------

/// Seconds in milliseconds, as far as a number can hold them.
pub open spec fn in_millis(secs: u64) -> u64 {
    if secs * 1000 <= u64::MAX {
        (secs * 1000) as u64
    } else {
        u64::MAX
    }
}

pub fn millis(secs: u64) -> (r: u64)
    ensures
        r == in_millis(secs),
{
    match secs.checked_mul(1000) {
        Some(ms) => ms,
        None => u64::MAX,
    }
}

/// The client that the command line describes. A timeout of 0 is none.
pub fn build_client(
    jar: Option<CookieJar>,
    proxy: Option<&str>,
    timeout_secs: u64,
    blocklist: Option<TrackerBlocklist>,
    ca_files: &Vec<String>,
    user_agent: Option<&str>,
    max_redirects: u32,
) -> (r: FetcherBuilder)
    ensures
        r.pool_idle_timeout_ms == 90_000,
        r.pool_max_idle_per_host == 16,
        r.cookie_jar == jar,
        r.tracker_blocklist == blocklist,
        crate::dom::text_view(r.proxy) == (match proxy {
            Some(p) => Some(p@),
            None => None,
        }),
        r.request_timeout_ms == (if timeout_secs == 0 {
            None
        } else {
            Some(in_millis(timeout_secs))
        }),
        views(r.extra_ca_files@) == views(ca_files@),
        crate::dom::text_view(r.user_agent) == (match user_agent {
            Some(ua) => Some(ua@),
            None => None,
        }),
        r.max_redirects == max_redirects,
{
    let mut b = Fetcher::builder().max_redirects(max_redirects);
    if let Some(p) = proxy {
        b = b.proxy(p);
    }
    if timeout_secs > 0 {
        b = b.request_timeout(millis(timeout_secs));
    }
    if let Some(j) = jar {
        b = b.cookie_jar(j);
    }
    if let Some(list) = blocklist {
        b = b.tracker_blocklist(list);
    }
    let ghost files = views(ca_files@);
    let ghost before = b;
    assert(views(b.extra_ca_files@) =~= files.take(0));
    let mut i: usize = 0;
    while i < ca_files.len()
        invariant
            i <= ca_files@.len(),
            files == views(ca_files@),
            views(b.extra_ca_files@) == files.take(i as int),
            b == (FetcherBuilder { extra_ca_files: b.extra_ca_files, ..before }),
        decreases ca_files@.len() - i,
    {
        b = b.ca_file(ca_files[i].as_str());
        assert(files.take(i + 1) =~= files.take(i as int).push(files[i as int]));
        i = i + 1;
    }
    assert(files.take(i as int) =~= files);
    if let Some(ua) = user_agent {
        b = b.user_agent(ua);
    }
    b
}

// ---- pages that lead on ----------------------------------------------------------

/// The request for the page that a script asked for, while few enough pages have
/// been followed.
pub fn follow(hops: &mut u32, pending: Option<String>) -> (r: Option<FetchRequest>)
    ensures
        match r {
            Some(req) => {
                &&& pending is Some
                &&& *old(hops) < MAX_NAV_HOPS
                &&& *final(hops) == *old(hops) + 1
                &&& req@ == (RequestModel {
                    url: pending->0@,
                    method: "GET"@,
                    headers: seq![],
                    body: seq![],
                })
            },
            None => {
                &&& pending is None || *old(hops) >= MAX_NAV_HOPS
                &&& *final(hops) == *old(hops)
            },
        },
{
    match pending {
        Some(url) => if *hops < MAX_NAV_HOPS {
            *hops = *hops + 1;
            Some(FetchRequest::new(url.as_str()))
        } else {
            None
        },
        None => None,
    }
}

// ---- what is put out -------------------------------------------------------------

/// The part of a page that is put out.
#[derive(Clone, Copy, Debug, PartialEq, Eq, Structural)]
pub enum DumpFormat {
    /// The page as it is.
    Html,
    /// Its visible text.
    Text,
    /// Its links, one on a line.
    Links,
}

/// Why nothing is put out.
#[derive(Debug)]
pub enum OutputError {
    /// The page is no text.
    NotUtf8,
    /// The page cannot be read.
    Parse(String),
    /// The scanner gave up on the page; with its message.
    Scan(String),
    /// The links of a page without a URL cannot be resolved.
    NoUrl,
}

/// Whether bytes are a text for which something holds.
pub open spec fn text_with(body: Seq<u8>, p: spec_fn(Seq<char>) -> bool) -> bool {
    exists|html: Seq<char>| body == #[trigger] encode_utf8(html) && p(html)
}

/// What is put out of a page: what the selector finds, one on a line, where there is
/// a selector, else the part that is asked for.
pub fn render(
    body: Vec<u8>,
    dump: DumpFormat,
    select: Option<&str>,
    attr: Option<&str>,
    url: &str,
) -> (r: Result<Vec<u8>, OutputError>)
    ensures
        select is Some ==> match r {
            Ok(out) => text_with(
                body@,
                |html: Seq<char>|
                    readable(html) && out@ == encode_utf8(
                        lines_text(
                            found_texts(
                                html,
                                select->0@,
                                match attr {
                                    Some(a) => Some(a@),
                                    None => None,
                                },
                            ),
                        ),
                    ),
            ),
            Err(OutputError::NotUtf8) => !valid_utf8(body@),
            Err(OutputError::Parse(_)) => text_with(body@, |html: Seq<char>| !readable(html)),
            Err(_) => false,
        },
        select is None && dump == DumpFormat::Html ==> r is Ok && r->Ok_0@ == body@,
        select is None && dump == DumpFormat::Text ==> match text_events(body@) {
            Ok(ev) => r is Ok && r->Ok_0@ == encode_utf8(visible_text(ev)),
            Err(e) => r is Err && r->Err_0 is Scan && r->Err_0->Scan_0@ == e,
        },
        select is None && dump == DumpFormat::Links ==> match link_events(body@) {
            _ if parsed_url(url@) is None => r is Err && r->Err_0 is NoUrl,
            Ok(ev) => r is Ok && r->Ok_0@ == encode_utf8(
                lines_text(link_lines(link_scan(url@, ev).links)),
            ),
            Err(e) => r is Err && r->Err_0 is Scan && r->Err_0->Scan_0@ == e,
        },
{
    if let Some(selector) = select {
        let html = match from_utf8(body.as_slice()) {
            Some(s) => s,
            None => {
                return Err(OutputError::NotUtf8);
            },
        };
        assert(body@ == encode_utf8(html@));
        let found = match attr {
            Some(name) => select_attr(html.as_str(), selector, name),
            None => select_text(html.as_str(), selector),
        };
        return match found {
            Ok(lines) => Ok(print_lines(&lines).as_str().as_bytes_vec()),
            Err(e) => Err(OutputError::Parse(e.message())),
        };
    }
    match dump {
        DumpFormat::Html => Ok(body),
        DumpFormat::Text => match extract_text(body.as_slice()) {
            Ok(t) => Ok(t.as_str().as_bytes_vec()),
            Err(crate::extract::Error::Rewriter(m)) => Err(OutputError::Scan(m)),
        },
        DumpFormat::Links => {
            if parse_url(url).is_none() {
                return Err(OutputError::NoUrl);
            }
            match extract_links(body.as_slice(), url) {
                Ok(links) => Ok(print_links(&links).as_str().as_bytes_vec()),
                Err(crate::extract::Error::Rewriter(m)) => Err(OutputError::Scan(m)),
            }
        },
    }
}

} // verus!
