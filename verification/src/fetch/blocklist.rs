//! Hosts that requests are not sent to.
use crate::text::{
    ascii_lower, decimal, digit, ends_with, has_suffix, lower_char, same, to_ascii_lowercase, trim,
    trimmed, trimmed_edges, trimmed_keeps_clean, views,
};
use crate::urls::{parse_url, parsed_url, port_suffix, push_port, UrlModel, UrlParts};
use vstd::prelude::*;
use vstd::string::*;

verus! {

/// Hosts that are blocked, together with everything below them.
pub struct TrackerBlocklist {
    hosts: Vec<String>,
}

impl View for TrackerBlocklist {
    type V = Set<Seq<char>>;

    closed spec fn view(&self) -> Set<Seq<char>> {
        views(self.hosts@).to_set()
    }
}

/// An entry as it is kept: trimmed and in lower case.
pub open spec fn host_entry(s: Seq<char>) -> Seq<char> {
    ascii_lower(trimmed(s))
}

/// Nothing changes in an entry that is kept again.
pub proof fn entries_stay(s: Seq<char>)
    ensures
        host_entry(host_entry(s)) == host_entry(s),
{
    let t = trimmed(s);
    let l = ascii_lower(t);
    trimmed_edges(s);
    if t.len() > 0 {
        assert(l[0] == lower_char(t[0]));
        assert(l.last() == lower_char(t.last()));
        trimmed_keeps_clean(l);
    } else {
        assert(l =~= seq![]);
    }
    assert(ascii_lower(l) =~= l);
}

/// The entries that are kept of a list of hosts: all but the empty ones.
pub open spec fn kept_hosts(s: Seq<Seq<char>>) -> Set<Seq<char>> {
    Set::new(|h: Seq<char>| h.len() > 0 && exists|i: int| 0 <= i < s.len() && host_entry(#[trigger] s[i]) == h)
}

/// Every entry is there once, and as it is kept.
pub open spec fn distinct_entries(s: Seq<Seq<char>>) -> bool {
    &&& s.no_duplicates()
    &&& forall|i: int|
        0 <= i < s.len() ==> (#[trigger] s[i]).len() > 0 && host_entry(s[i]) == s[i]
}

/// A host equals the entry or stands below it.
pub open spec fn at_or_below(host: Seq<char>, entry: Seq<char>) -> bool {
    ||| entry == host
    ||| host.len() > entry.len() && has_suffix(host, entry) && host[host.len() - entry.len() - 1]
        == '.'
}

/// The host, with or without its port, equals the entry or stands below it.
pub open spec fn covers(entry: Seq<char>, host: Seq<char>, port: Option<u16>) -> bool {
    at_or_below(host, entry) || at_or_below(host + port_suffix(port), entry)
}

/// A parsed URL whose host an entry covers.
pub open spec fn blocked(hosts: Set<Seq<char>>, u: UrlModel) -> bool {
    u.host is Some && exists|e: Seq<char>|
        hosts.contains(e) && #[trigger] covers(e, ascii_lower(u.host->0), u.port)
}

/// The hosts that are blocked unless something else is asked for.
pub open spec fn default_trackers() -> Seq<Seq<char>> {
    seq![
        "google-analytics.com"@,
        "googletagmanager.com"@,
        "doubleclick.net"@,
        "googlesyndication.com"@,
        "googleadservices.com"@,
        "google-tag.com"@,
        "connect.facebook.net"@,
        "scorecardresearch.com"@,
        "mixpanel.com"@,
        "segment.com"@,
        "segment.io"@,
        "hotjar.com"@,
        "fullstory.com"@,
        "amplitude.com"@,
    ]
}

impl TrackerBlocklist {
    /// Each entry is kept once, trimmed and in lower case, and none is empty.
    #[verifier::type_invariant]
    closed spec fn sound(&self) -> bool {
        distinct_entries(views(self.hosts@))
    }

    /// A list that blocks nothing.
    pub fn new() -> (r: TrackerBlocklist)
        ensures
            r@ == Set::<Seq<char>>::empty(),
    {
        let r = TrackerBlocklist { hosts: Vec::new() };
        assert(r@ =~= Set::<Seq<char>>::empty());
        r
    }

    /// The built-in list of hosts that serve ads and analytics.
    pub fn default_set() -> (r: TrackerBlocklist)
        ensures
            r@ == kept_hosts(default_trackers()),
    {
        let mut v: Vec<String> = Vec::new();
        v.push("google-analytics.com".to_owned());
        v.push("googletagmanager.com".to_owned());
        v.push("doubleclick.net".to_owned());
        v.push("googlesyndication.com".to_owned());
        v.push("googleadservices.com".to_owned());
        v.push("google-tag.com".to_owned());
        v.push("connect.facebook.net".to_owned());
        v.push("scorecardresearch.com".to_owned());
        v.push("mixpanel.com".to_owned());
        v.push("segment.com".to_owned());
        v.push("segment.io".to_owned());
        v.push("hotjar.com".to_owned());
        v.push("fullstory.com".to_owned());
        v.push("amplitude.com".to_owned());
        assert(views(v@) =~= default_trackers());
        TrackerBlocklist::from_hosts(&v)
    }

    /// A list of the given hosts, trimmed and in lower case; empty ones are left out.
    pub fn from_hosts(hs: &Vec<String>) -> (r: TrackerBlocklist)
        ensures
            r@ == kept_hosts(views(hs@)),
    {
        let mut hosts: Vec<String> = Vec::new();
        let ghost all = views(hs@);
        assert(kept_hosts(all.take(0)) =~= views(hosts@).to_set());
        let mut i: usize = 0;
        while i < hs.len()
            invariant
                i <= hs@.len(),
                all == views(hs@),
                views(hosts@).to_set() == kept_hosts(all.take(i as int)),
                distinct_entries(views(hosts@)),
            decreases hs@.len() - i,
        {
            let h = to_ascii_lowercase(trim(hs[i].as_str()));
            let ghost prior = hosts@;
            let keep: bool = !h.as_str().is_empty() && !list_contains(&hosts, h.as_str());
            if keep {
                hosts.push(h);
            }
            proof {
                entries_stay(hs@[i as int]@);
                if keep {
                    assert(views(hosts@) =~= views(prior).push(h@));
                    assert forall|a: int, b: int| 0 <= a < b < views(hosts@).len() implies views(
                        hosts@,
                    )[a] != views(hosts@)[b] by {
                        if b == prior.len() {
                            assert(views(prior).contains(views(prior)[a]));
                        } else {
                            assert(views(prior)[a] != views(prior)[b]);
                        }
                    }
                }
                assert(all[i as int] == hs@[i as int]@);
                let up = all.take(i + 1);
                assert forall|x: Seq<char>| #[trigger] views(hosts@).to_set().contains(x) <==> kept_hosts(
                    up,
                ).contains(x) by {
                    if keep {
                        assert(views(hosts@) =~= views(prior).push(h@));
                        if views(hosts@).contains(x) {
                            let k = choose|k: int| 0 <= k < views(hosts@).len() && views(hosts@)[k] == x;
                            if k < prior.len() {
                                assert(views(prior)[k] == x);
                            }
                        }
                        assert(views(hosts@)[prior.len() as int] == h@);
                        if views(prior).contains(x) {
                            let k = choose|k: int| 0 <= k < views(prior).len() && views(prior)[k] == x;
                            assert(views(hosts@)[k] == x);
                        }
                    }
                    if kept_hosts(all.take(i as int)).contains(x) {
                        let k = choose|k: int|
                            0 <= k < all.take(i as int).len() && host_entry(#[trigger] all.take(i as int)[k]) == x;
                        assert(up[k] == all.take(i as int)[k]);
                    }
                    assert(up[i as int] == all[i as int]);
                    if kept_hosts(up).contains(x) {
                        let k = choose|k: int| 0 <= k < up.len() && host_entry(#[trigger] up[k]) == x;
                        if k < i {
                            assert(all.take(i as int)[k] == up[k]);
                        }
                    }
                    assert(views(prior).to_set().contains(x) <==> kept_hosts(all.take(i as int)).contains(x));
                }
                assert(views(hosts@).to_set() =~= kept_hosts(up));
            }
            i = i + 1;
        }
        assert(all.take(i as int) =~= all);
        TrackerBlocklist { hosts }
    }

    /// Every host of the list, once, trimmed and in lower case.
    pub fn hosts_iter(&self) -> (r: Vec<String>)
        ensures
            views(r@).to_set() == self@,
            distinct_entries(views(r@)),
    {
        proof {
            use_type_invariant(self);
        }
        let mut out: Vec<String> = Vec::new();
        let mut i: usize = 0;
        while i < self.hosts.len()
            invariant
                i <= self.hosts@.len(),
                views(out@) == views(self.hosts@).take(i as int),
            decreases self.hosts@.len() - i,
        {
            let ghost prior = out@;
            out.push(self.hosts[i].clone());
            assert(views(out@) =~= views(prior).push(self.hosts@[i as int]@));
            assert(views(self.hosts@).take(i + 1) =~= views(self.hosts@).take(i as int).push(
                views(self.hosts@)[i as int],
            ));
            i = i + 1;
        }
        assert(views(self.hosts@).take(i as int) =~= views(self.hosts@));
        out
    }

    /// Whether requests to a parsed URL are blocked.
    pub fn blocks_parts(&self, u: &UrlParts) -> (r: bool)
        ensures
            r == blocked(self@, u@),
    {
        let host = match &u.host {
            Some(h) => to_ascii_lowercase(h.as_str()),
            None => {
                return false;
            },
        };
        let mut host_port = host.clone();
        push_port(&mut host_port, u.port);
        let mut i: usize = 0;
        while i < self.hosts.len()
            invariant
                i <= self.hosts@.len(),
                u@.host is Some,
                host@ == ascii_lower(u@.host->0),
                host_port@ == host@ + port_suffix(u@.port),
                forall|j: int|
                    0 <= j < i ==> !covers(#[trigger] views(self.hosts@)[j], host@, u@.port),
            decreases self.hosts@.len() - i,
        {
            let entry = self.hosts[i].as_str();
            assert(views(self.hosts@)[i as int] == entry@);
            if same(entry, host.as_str()) || same(entry, host_port.as_str()) || stands_below(
                host.as_str(),
                entry,
            ) || stands_below(host_port.as_str(), entry) {
                assert(views(self.hosts@).to_set().contains(entry@)) by {
                    assert(views(self.hosts@).contains(views(self.hosts@)[i as int]));
                }
                assert(covers(entry@, host@, u@.port));
                return true;
            }
            i = i + 1;
        }
        assert forall|e: Seq<char>| self@.contains(e) implies !#[trigger] covers(
            e,
            host@,
            u@.port,
        ) by {
            let j = choose|j: int| 0 <= j < views(self.hosts@).len() && views(self.hosts@)[j] == e;
            assert(!covers(views(self.hosts@)[j], host@, u@.port));
        }
        false
    }

    /// Whether requests to this URL are blocked. A text that is no URL is not.
    pub fn blocks(&self, url: &str) -> (r: bool)
        ensures
            r == (parsed_url(url@) is Some && blocked(self@, parsed_url(url@)->0)),
    {
        match parse_url(url) {
            Some(u) => self.blocks_parts(&u),
            None => false,
        }
    }
}

impl Default for TrackerBlocklist {
    fn default() -> (r: TrackerBlocklist)
        ensures
            r@ == Set::<Seq<char>>::empty(),
    {
        TrackerBlocklist::new()
    }
}

fn list_contains(list: &Vec<String>, s: &str) -> (r: bool)
    ensures
        r == views(list@).contains(s@),
{
    let mut i: usize = 0;
    while i < list.len()
        invariant
            i <= list@.len(),
            forall|j: int| 0 <= j < i ==> #[trigger] views(list@)[j] != s@,
        decreases list@.len() - i,
    {
        assert(views(list@)[i as int] == list@[i as int]@);
        if same(list[i].as_str(), s) {
            return true;
        }
        i = i + 1;
    }
    false
}

/// A host of which the entry is the end, behind a dot.
fn stands_below(host: &str, entry: &str) -> (r: bool)
    ensures
        r == (host@.len() > entry@.len() && has_suffix(host@, entry@) && host@[host@.len()
            - entry@.len() - 1] == '.'),
{
    let n: usize = host.unicode_len();
    let m: usize = entry.unicode_len();
    n > m && ends_with(host, entry) && host.get_char(n - m - 1) == '.'
}

/// An entry blocks its own host and every host below it, whatever the port.
pub proof fn entry_blocks_its_subdomains(
    hosts: Set<Seq<char>>,
    entry: Seq<char>,
    sub: Seq<char>,
    scheme: Seq<char>,
    port: Option<u16>,
)
    requires
        hosts.contains(entry),
        ascii_lower(entry) == entry,
    ensures
        blocked(hosts, UrlModel { scheme, host: Some(entry), port }),
        blocked(hosts, UrlModel { scheme, host: Some(sub + "."@ + entry), port }),
{
    reveal_strlit(".");
    let host = sub + "."@ + entry;
    let low = ascii_lower(host);
    let own = UrlModel { scheme, host: Some(entry), port };
    let below = UrlModel { scheme, host: Some(host), port };
    assert(covers(entry, ascii_lower(own.host->0), own.port));
    assert(low.skip(low.len() - entry.len()) =~= ascii_lower(entry));
    assert(low[low.len() - entry.len() - 1] == '.');
    assert(covers(entry, ascii_lower(below.host->0), below.port));
}

proof fn decimal_has_no_dot(n: nat)
    ensures
        forall|i: int| 0 <= i < decimal(n).len() ==> #[trigger] decimal(n)[i] != '.',
    decreases n,
{
    assert(digit(n % 10) as u32 == 48 + n % 10);
    if n >= 10 {
        decimal_has_no_dot(n / 10);
        let front = decimal(n / 10);
        assert(decimal(n) == front.push(digit(n % 10)));
        assert forall|i: int| 0 <= i < decimal(n).len() implies #[trigger] decimal(n)[i] != '.' by {
            if i < front.len() {
                assert(decimal(n)[i] == front[i]);
            }
        }
    } else {
        assert(decimal(n) == seq![digit(n % 10)]);
    }
}

/// A host that only ends like an entry, without a dot before it, is not blocked
/// by that entry, whatever the port, where the entry has none.
pub proof fn entry_needs_a_dot(entry: Seq<char>, host: Seq<char>, port: Option<u16>)
    requires
        host.len() > entry.len(),
        host[host.len() - entry.len() - 1] != '.',
        !entry.contains(':'),
    ensures
        !covers(entry, host, port),
{
    reveal_strlit(":");
    let full = host + port_suffix(port);
    match port {
        None => {
            assert(full =~= host);
        },
        Some(p) => {
            decimal_has_no_dot(p as nat);
            assert(full[host.len() as int] == ':');
            if at_or_below(full, entry) {
                let start = full.len() - entry.len();
                if start <= host.len() {
                    assert(full.skip(start)[host.len() - start] == ':');
                    assert(full.skip(start) == entry);
                    assert(entry.contains(':'));
                } else if start > host.len() + 1 {
                    assert(full[start - 1] == decimal(p as nat)[start - 2 - host.len()]);
                }
            }
        },
    }
}

/// A list made of the entries of another has the same entries.
pub proof fn listed_hosts_make_the_list(s: Seq<Seq<char>>)
    requires
        distinct_entries(s),
    ensures
        kept_hosts(s) == s.to_set(),
{
    assert forall|x: Seq<char>| #[trigger] kept_hosts(s).contains(x) <==> s.to_set().contains(x) by {
        if s.contains(x) {
            let i = choose|i: int| 0 <= i < s.len() && s[i] == x;
            assert(host_entry(s[i]) == x);
        }
        if kept_hosts(s).contains(x) {
            let i = choose|i: int| 0 <= i < s.len() && host_entry(#[trigger] s[i]) == x;
            assert(s[i] == x);
        }
    }
    assert(kept_hosts(s) =~= s.to_set());
}

} // verus!
