//! Cookies by origin.
use crate::sort::{in_order, sort_texts};
use crate::text::{
    first_pos, from_utf8, join, joined, pieces, same, split, split_once, trim, trimmed, views,
};
use crate::textmap::{distinct_keys, map_of, TextMap};
use std::collections::BTreeMap;
use vstd::prelude::*;
use vstd::string::*;
use vstd::utf8::{encode_utf8, valid_utf8};

verus! {

/// Cookies, by `scheme://host[:port]` and name. Domains, paths and expiry are
/// not looked at.
pub struct CookieJar {
    origins: Vec<(String, TextMap)>,
}

/// What a list of origins holds; where an origin occurs twice, the later entry counts.
pub open spec fn jar_of(list: Seq<(String, TextMap)>) -> Map<Seq<char>, Map<Seq<char>, Seq<char>>>
    decreases list.len(),
{
    if list.len() == 0 {
        Map::empty()
    } else {
        jar_of(list.drop_last()).insert(list.last().0@, list.last().1@)
    }
}

impl View for CookieJar {
    type V = Map<Seq<char>, Map<Seq<char>, Seq<char>>>;

    closed spec fn view(&self) -> Map<Seq<char>, Map<Seq<char>, Seq<char>>> {
        jar_of(self.origins@)
    }
}

/// The cookies of an origin.
pub open spec fn cookies_of(
    jar: Map<Seq<char>, Map<Seq<char>, Seq<char>>>,
    origin: Seq<char>,
) -> Map<Seq<char>, Seq<char>> {
    if jar.dom().contains(origin) {
        jar[origin]
    } else {
        Map::empty()
    }
}

/// A jar in which one cookie has a new value.
pub open spec fn with_cookie(
    jar: Map<Seq<char>, Map<Seq<char>, Seq<char>>>,
    origin: Seq<char>,
    name: Seq<char>,
    value: Seq<char>,
) -> Map<Seq<char>, Map<Seq<char>, Seq<char>>> {
    jar.insert(origin, cookies_of(jar, origin).insert(name, value))
}

pub open spec fn cookie_at(
    jar: Map<Seq<char>, Map<Seq<char>, Seq<char>>>,
    origin: Seq<char>,
    name: Seq<char>,
) -> Option<Seq<char>> {
    if cookies_of(jar, origin).dom().contains(name) {
        Some(cookies_of(jar, origin)[name])
    } else {
        None
    }
}

/// The name and value of a `Set-Cookie` header: what stands before the first `;`,
/// divided at its first `=`, where the name is not empty.
pub open spec fn set_cookie_pair(raw: Seq<char>) -> Option<(Seq<char>, Seq<char>)> {
    let first = trimmed(pieces(raw, ';')[0]);
    let k = first_pos(first, '=');
    let name = trimmed(first.take(k));
    if k < first.len() && name.len() > 0 {
        Some((name, trimmed(first.skip(k + 1))))
    } else {
        None
    }
}

/// `name=value` for each of the given names.
pub open spec fn cookie_texts(m: Map<Seq<char>, Seq<char>>, names: Seq<Seq<char>>) -> Seq<
    Seq<char>,
> {
    names.map_values(|k: Seq<char>| k + "="@ + m[k])
}

/// A `Cookie` header: `name=value` for every cookie, in order, divided by `; `.
pub open spec fn is_cookie_header(m: Map<Seq<char>, Seq<char>>, header: Seq<char>) -> bool {
    exists|names: Seq<Seq<char>>, parts: Seq<Seq<char>>|
        {
            &&& names.no_duplicates()
            &&& names.to_set() == m.dom()
            &&& #[trigger] in_order(parts)
            &&& parts.to_multiset() == (#[trigger] cookie_texts(m, names)).to_multiset()
            &&& header == joined(parts, "; "@)
        }
}

proof fn jar_lookup(list: Seq<(String, TextMap)>, origin: Seq<char>, i: int)
    requires
        -1 <= i < list.len(),
        i >= 0 ==> list[i].0@ == origin,
        forall|j: int| i < j < list.len() ==> (#[trigger] list[j]).0@ != origin,
    ensures
        jar_of(list).dom().contains(origin) == (i >= 0),
        i >= 0 ==> jar_of(list)[origin] == list[i].1@,
    decreases list.len(),
{
    if list.len() > 0 && i < list.len() - 1 {
        assert(list[list.len() - 1].0@ != origin);
        assert forall|j: int| i < j < list.drop_last().len() implies (
        #[trigger] list.drop_last()[j]).0@ != origin by {
            assert(list[j].0@ != origin);
        }
        jar_lookup(list.drop_last(), origin, i);
    }
}

proof fn jar_replaced(list: Seq<(String, TextMap)>, i: int, e: (String, TextMap))
    requires
        0 <= i < list.len(),
        list[i].0@ == e.0@,
        forall|j: int| i < j < list.len() ==> (#[trigger] list[j]).0@ != e.0@,
    ensures
        jar_of(list.update(i, e)) == jar_of(list).insert(e.0@, e.1@),
    decreases list.len(),
{
    let up = list.update(i, e);
    if i == list.len() - 1 {
        assert(up.drop_last() =~= list.drop_last());
        assert(jar_of(up) =~= jar_of(list).insert(e.0@, e.1@));
    } else {
        let front = list.drop_last();
        assert(up.drop_last() =~= front.update(i, e));
        assert forall|j: int| i < j < front.len() implies (#[trigger] front[j]).0@ != e.0@ by {
            assert(list[j].0@ != e.0@);
        }
        jar_replaced(front, i, e);
        assert(list[list.len() - 1].0@ != e.0@);
        assert(jar_of(up) =~= jar_of(list).insert(e.0@, e.1@));
    }
}

/// The names of a map's entries are its keys.
proof fn names_are_keys(entries: Seq<(String, String)>)
    requires
        distinct_keys(entries),
    ensures
        ({
            let names = entries.map_values(|e: (String, String)| e.0@);
            &&& names.no_duplicates()
            &&& names.to_set() == map_of(entries).dom()
            &&& forall|i: int|
                0 <= i < entries.len() ==> map_of(entries)[(#[trigger] entries[i]).0@]
                    == entries[i].1@
        }),
    decreases entries.len(),
{
    let names = entries.map_values(|e: (String, String)| e.0@);
    assert forall|i: int, j: int| 0 <= i < j < names.len() implies names[i] != names[j] by {
        assert(entries[i].0@ != entries[j].0@);
    }
    if entries.len() > 0 {
        let front = entries.drop_last();
        assert forall|i: int, j: int| 0 <= i < j < front.len() implies (#[trigger] front[i]).0@ != (
        #[trigger] front[j]).0@ by {
            assert(entries[i].0@ != entries[j].0@);
        }
        names_are_keys(front);
        let before = front.map_values(|e: (String, String)| e.0@);
        assert(names =~= before.push(entries.last().0@));
        assert(names.to_set() =~= before.to_set().insert(entries.last().0@)) by {
            assert forall|x: Seq<char>| #[trigger] names.to_set().contains(x) <==> before.to_set().insert(
                entries.last().0@,
            ).contains(x) by {
                if names.contains(x) {
                    let k = choose|k: int| 0 <= k < names.len() && names[k] == x;
                    if k < before.len() {
                        assert(before[k] == x);
                    }
                }
                if before.contains(x) {
                    let k = choose|k: int| 0 <= k < before.len() && before[k] == x;
                    assert(names[k] == x);
                }
                assert(names[names.len() - 1] == entries.last().0@);
            }
        }
        assert forall|i: int| 0 <= i < entries.len() implies map_of(entries)[(
        #[trigger] entries[i]).0@] == entries[i].1@ by {
            if i < front.len() {
                assert(front[i] == entries[i]);
                assert(entries[i].0@ != entries[entries.len() - 1].0@);
            }
        }
    } else {
        assert(names.to_set() =~= Set::<Seq<char>>::empty());
        assert(map_of(entries).dom() =~= Set::<Seq<char>>::empty());
    }
}

impl CookieJar {
    pub fn new() -> (r: CookieJar)
        ensures
            r@ == Map::<Seq<char>, Map<Seq<char>, Seq<char>>>::empty(),
    {
        CookieJar { origins: Vec::new() }
    }

    /// The position behind the last entry for this origin, or 0.
    fn position(&self, origin: &str) -> (r: usize)
        ensures
            r <= self.origins@.len(),
            r > 0 ==> self.origins@[r - 1].0@ == origin@,
            forall|j: int| r <= j < self.origins@.len() ==> (#[trigger] self.origins@[j]).0@
                != origin@,
    {
        let mut i: usize = self.origins.len();
        while i > 0
            invariant
                i <= self.origins@.len(),
                forall|j: int| i <= j < self.origins@.len() ==> (#[trigger] self.origins@[j]).0@
                    != origin@,
            decreases i,
        {
            if same(self.origins[i - 1].0.as_str(), origin) {
                return i;
            }
            i = i - 1;
        }
        0
    }

    /// Sets a cookie of an origin; one with the same name is replaced.
    pub fn set(&mut self, origin: &str, name: &str, value: &str)
        ensures
            final(self)@ == with_cookie(old(self)@, origin@, name@, value@),
    {
        let ghost before = self.origins@;
        let i: usize = self.position(origin);
        proof {
            jar_lookup(before, origin@, i - 1);
        }
        if i > 0 {
            self.origins[i - 1].1.insert(name.to_owned(), value.to_owned());
            proof {
                let e = self.origins@[i - 1];
                jar_replaced(before, i - 1, e);
                assert(self.origins@ =~= before.update(i - 1, e));
            }
        } else {
            let mut m = TextMap::new();
            m.insert(name.to_owned(), value.to_owned());
            self.origins.push((origin.to_owned(), m));
            assert(self.origins@.drop_last() =~= before);
        }
    }

    pub fn get(&self, origin: &str, name: &str) -> (r: Option<String>)
        ensures
            crate::dom::text_view(r) == cookie_at(self@, origin@, name@),
    {
        let i: usize = self.position(origin);
        proof {
            jar_lookup(self.origins@, origin@, i - 1);
        }
        if i == 0 {
            return None;
        }
        match self.origins[i - 1].1.get(name) {
            Some(v) => Some(v.clone()),
            None => None,
        }
    }

    /// The `Cookie` header for an origin, where it has cookies.
    pub fn cookie_header(&self, origin: &str) -> (r: Option<String>)
        ensures
            match r {
                Some(h) => cookies_of(self@, origin@).dom() != Set::<Seq<char>>::empty()
                    && is_cookie_header(cookies_of(self@, origin@), h@),
                None => cookies_of(self@, origin@).dom() == Set::<Seq<char>>::empty(),
            },
    {
        let i: usize = self.position(origin);
        proof {
            jar_lookup(self.origins@, origin@, i - 1);
        }
        if i == 0 {
            return None;
        }
        let m = &self.origins[i - 1].1;
        let entries = m.entries();
        let ghost names = entries@.map_values(|e: (String, String)| e.0@);
        let ghost texts = cookie_texts(m@, names);
        proof {
            names_are_keys(entries@);
        }
        if entries.len() == 0 {
            assert(names.to_set() =~= Set::<Seq<char>>::empty());
            return None;
        }
        proof {
            assert(names.contains(names[0]));
            assert(names.to_set().contains(names[0]));
        }
        let mut parts: Vec<String> = Vec::new();
        assert(views(parts@) =~= texts.take(0));
        let mut k: usize = 0;
        while k < entries.len()
            invariant
                k <= entries@.len(),
                names == entries@.map_values(|e: (String, String)| e.0@),
                texts == cookie_texts(m@, names),
                forall|j: int|
                    0 <= j < entries@.len() ==> m@[(#[trigger] entries@[j]).0@] == entries@[j].1@,
                views(parts@) == texts.take(k as int),
            decreases entries@.len() - k,
        {
            let mut part = entries[k].0.clone();
            part.append("=");
            part.append(entries[k].1.as_str());
            assert(names[k as int] == entries@[k as int].0@);
            assert(part@ == texts[k as int]);
            let ghost prior = parts@;
            parts.push(part);
            assert(views(parts@) =~= views(prior).push(part@));
            assert(texts.take(k + 1) =~= texts.take(k as int).push(texts[k as int]));
            k = k + 1;
        }
        assert(texts.take(k as int) =~= texts);
        sort_texts(&mut parts);
        let header = join(&parts, "; ");
        assert(is_cookie_header(m@, header@)) by {
            assert(in_order(views(parts@)));
            assert(views(parts@).to_multiset() == cookie_texts(m@, names).to_multiset());
        }
        Some(header)
    }

    /// Reads a `Set-Cookie` header and sets the cookie that it names.
    pub fn record_set_cookie(&mut self, origin: &str, raw: &str)
        ensures
            final(self)@ == (match set_cookie_pair(raw@) {
                Some((name, value)) => with_cookie(old(self)@, origin@, name, value),
                None => old(self)@,
            }),
    {
        let parts = split(raw, ';');
        proof {
            assert(views(parts@).len() == parts@.len());
            crate::text::pieces_exist(raw@, ';');
            assert(views(parts@)[0] == parts@[0]@);
        }
        let first = trim(parts[0].as_str());
        if let Some((name, value)) = split_once(first, '=') {
            let name = trim(name);
            if !name.is_empty() {
                self.set(origin, name, trim(value));
            }
        }
    }
}

/// What a list of origins with their cookies holds.
pub open spec fn listed_jar(list: Seq<(String, Vec<(String, String)>)>) -> Map<
    Seq<char>,
    Map<Seq<char>, Seq<char>>,
>
    decreases list.len(),
{
    if list.len() == 0 {
        Map::empty()
    } else {
        listed_jar(list.drop_last()).insert(list.last().0@, map_of(list.last().1@))
    }
}

/// What `serde_json::from_str` reads from a text as a map of maps of texts.
pub uninterp spec fn jar_in_json(text: Seq<char>) -> Option<Map<Seq<char>, Map<Seq<char>, Seq<char>>>>;

/// Calls `serde_json::from_str` for a map of maps of texts. The result depends on
/// the text alone.
#[verifier::external_body]
fn read_json(text: &str) -> (r: Option<Vec<(String, Vec<(String, String)>)>>)
    ensures
        match r {
            Some(list) => jar_in_json(text@) == Some(listed_jar(list@)),
            None => jar_in_json(text@) is None,
        },
{
    let m = serde_json::from_str::<BTreeMap<String, BTreeMap<String, String>>>(text).ok()?;
    Some(m.into_iter().map(|(k, v)| (k, v.into_iter().collect())).collect())
}

/// Calls `serde_json::to_string` on a map of maps of texts. What it writes is
/// read back by `serde_json::from_str`.
#[verifier::external_body]
fn write_json(list: &Vec<(String, Vec<(String, String)>)>) -> (r: String)
    ensures
        jar_in_json(r@) == Some(listed_jar(list@)),
{
    let m: BTreeMap<&str, BTreeMap<&str, &str>> = list.iter().map(|(k, v)| (k.as_str(), v.iter().map(|(a, b)| (a.as_str(), b.as_str())).collect())).collect();
    serde_json::to_string(&m).unwrap_or_default()
}

fn copied(pairs: &Vec<(String, String)>) -> (r: Vec<(String, String)>)
    ensures
        r@ == pairs@,
{
    let mut out: Vec<(String, String)> = Vec::new();
    let mut i: usize = 0;
    while i < pairs.len()
        invariant
            i <= pairs@.len(),
            out@ == pairs@.take(i as int),
        decreases pairs@.len() - i,
    {
        out.push((pairs[i].0.clone(), pairs[i].1.clone()));
        assert(pairs@.take(i + 1) =~= pairs@.take(i as int).push(pairs@[i as int]));
        i = i + 1;
    }
    assert(pairs@.take(i as int) =~= pairs@);
    out
}

impl CookieJar {
    /// The jar as JSON.
    pub fn to_json(&self) -> (r: String)
        ensures
            jar_in_json(r@) == Some(self@),
    {
        let mut list: Vec<(String, Vec<(String, String)>)> = Vec::new();
        let ghost all = self.origins@;
        assert(all.take(0) =~= seq![]);
        let mut i: usize = 0;
        while i < self.origins.len()
            invariant
                i <= self.origins@.len(),
                all == self.origins@,
                listed_jar(list@) == jar_of(all.take(i as int)),
            decreases self.origins@.len() - i,
        {
            let pairs = copied(self.origins[i].1.entries());
            let ghost prior = list@;
            list.push((self.origins[i].0.clone(), pairs));
            assert(list@.drop_last() =~= prior);
            assert(all.take(i + 1).drop_last() =~= all.take(i as int));
            i = i + 1;
        }
        assert(all.take(i as int) =~= all);
        write_json(&list)
    }

    /// The jar that a JSON text holds, where it holds one.
    pub fn from_json(s: &str) -> (r: Option<CookieJar>)
        ensures
            match r {
                Some(jar) => jar_in_json(s@) == Some(jar@),
                None => jar_in_json(s@) is None,
            },
    {
        let list = match read_json(s) {
            Some(list) => list,
            None => {
                return None;
            },
        };
        let mut jar = CookieJar::new();
        assert(list@.take(0) =~= seq![]);
        let mut i: usize = 0;
        while i < list.len()
            invariant
                i <= list@.len(),
                jar@ == listed_jar(list@.take(i as int)),
            decreases list@.len() - i,
        {
            let pairs = &list[i].1;
            let mut m = TextMap::new();
            assert(pairs@.take(0) =~= seq![]);
            let mut k: usize = 0;
            while k < pairs.len()
                invariant
                    k <= pairs@.len(),
                    m@ == map_of(pairs@.take(k as int)),
                decreases pairs@.len() - k,
            {
                m.insert(pairs[k].0.clone(), pairs[k].1.clone());
                assert(pairs@.take(k + 1).drop_last() =~= pairs@.take(k as int));
                k = k + 1;
            }
            assert(pairs@.take(k as int) =~= pairs@);
            let ghost prior = jar.origins@;
            jar.origins.push((list[i].0.clone(), m));
            assert(jar.origins@.drop_last() =~= prior);
            assert(list@.take(i + 1).drop_last() =~= list@.take(i as int));
            i = i + 1;
        }
        assert(list@.take(i as int) =~= list@);
        Some(jar)
    }
}

impl CookieJar {
    /// The jar in the contents of a file. A file that holds nothing is an empty jar.
    pub fn from_bytes(bytes: &[u8]) -> (r: Option<CookieJar>)
        ensures
            match r {
                Some(jar) => if bytes@.len() == 0 {
                    jar@ == Map::<Seq<char>, Map<Seq<char>, Seq<char>>>::empty()
                } else {
                    exists|s: Seq<char>|
                        bytes@ == #[trigger] encode_utf8(s) && jar_in_json(s) == Some(jar@)
                },
                None => bytes@.len() > 0 && (!valid_utf8(bytes@) || exists|s: Seq<char>|
                    bytes@ == #[trigger] encode_utf8(s) && jar_in_json(s) is None),
            },
    {
        if bytes.len() == 0 {
            return Some(CookieJar::new());
        }
        match from_utf8(bytes) {
            Some(s) => CookieJar::from_json(s.as_str()),
            None => None,
        }
    }
}

impl Default for CookieJar {
    fn default() -> (r: CookieJar)
        ensures
            r@ == Map::<Seq<char>, Map<Seq<char>, Seq<char>>>::empty(),
    {
        CookieJar::new()
    }
}

/// A cookie that was set is the one that is read, and every other one stays as it was.
pub proof fn cookie_reads_back(
    jar: Map<Seq<char>, Map<Seq<char>, Seq<char>>>,
    origin: Seq<char>,
    name: Seq<char>,
    value: Seq<char>,
    origin2: Seq<char>,
    name2: Seq<char>,
)
    ensures
        cookie_at(with_cookie(jar, origin, name, value), origin, name) == Some(value),
        (origin2 != origin || name2 != name) ==> cookie_at(
            with_cookie(jar, origin, name, value),
            origin2,
            name2,
        ) == cookie_at(jar, origin2, name2),
{
}

/// A newer value of a cookie takes the place of the older one, and an empty jar holds
/// no cookie.
pub proof fn newer_cookie_wins(
    jar: Map<Seq<char>, Map<Seq<char>, Seq<char>>>,
    origin: Seq<char>,
    name: Seq<char>,
    older: Seq<char>,
    newer: Seq<char>,
)
    ensures
        cookie_at(
            with_cookie(with_cookie(jar, origin, name, older), origin, name, newer),
            origin,
            name,
        ) == Some(newer),
        cookie_at(Map::empty(), origin, name) is None,
{
}

/// A jar that [`CookieJar::to_json`] writes is what [`CookieJar::from_json`] reads.
pub proof fn jar_reads_back(jar: &CookieJar, text: Seq<char>, read: Option<CookieJar>)
    requires
        jar_in_json(text) == Some(jar@),
        match read {
            Some(j) => jar_in_json(text) == Some(j@),
            None => jar_in_json(text) is None,
        },
    ensures
        read is Some && read->0@ == jar@,
{
}

/// Cookies of one origin are never sent to another: the header of an origin
/// depends on its own cookies alone.
pub proof fn cookies_stay_with_their_origin(
    jar: Map<Seq<char>, Map<Seq<char>, Seq<char>>>,
    origin: Seq<char>,
    name: Seq<char>,
    value: Seq<char>,
    other: Seq<char>,
    header: Seq<char>,
)
    requires
        other != origin,
    ensures
        is_cookie_header(
            cookies_of(with_cookie(jar, origin, name, value), other),
            header,
        ) == is_cookie_header(cookies_of(jar, other), header),
{
}

} // verus!
