//! Placeholders in URLs.
use crate::sort::{in_order, not_after, sort_texts, text_le};
use crate::text::{
    chars_of, debug_list, debugged_list, find_from, has_text, occurs_at, pair_views, replace,
    replaced, same, string_of, views,
};
use vstd::prelude::*;
use vstd::string::*;

verus! {

/// Placeholders and what they stand for, in the order of the placeholders.
pub struct UrlMap {
    entries: Vec<(String, String)>,
}

/// Keys come in order, and none twice.
pub open spec fn keys_in_order(s: Seq<(Seq<char>, Seq<char>)>) -> bool {
    forall|i: int, j: int|
        0 <= i < j < s.len() ==> text_le((#[trigger] s[i]).0, (#[trigger] s[j]).0) && s[i].0
            != s[j].0
}

/// What a list of entries maps each key to.
pub open spec fn entries_map(s: Seq<(Seq<char>, Seq<char>)>) -> Map<Seq<char>, Seq<char>>
    decreases s.len(),
{
    if s.len() == 0 {
        Map::empty()
    } else {
        entries_map(s.drop_last()).insert(s.last().0, s.last().1)
    }
}

impl View for UrlMap {
    type V = Seq<(Seq<char>, Seq<char>)>;

    closed spec fn view(&self) -> Seq<(Seq<char>, Seq<char>)> {
        pair_views(self.entries@)
    }
}

/// Where no key occurs twice, an entry can be put in anywhere.
proof fn inserted_anywhere(s: Seq<(Seq<char>, Seq<char>)>, at: int, e: (Seq<char>, Seq<char>))
    requires
        0 <= at <= s.len(),
        forall|i: int| 0 <= i < s.len() ==> (#[trigger] s[i]).0 != e.0,
    ensures
        entries_map(s.insert(at, e)) == entries_map(s).insert(e.0, e.1),
    decreases s.len(),
{
    let t = s.insert(at, e);
    if at == s.len() {
        assert(t.drop_last() =~= s);
    } else {
        let front = s.drop_last();
        assert(t.drop_last() =~= front.insert(at, e));
        assert forall|i: int| 0 <= i < front.len() implies (#[trigger] front[i]).0 != e.0 by {
            assert(front[i] == s[i]);
        }
        inserted_anywhere(front, at, e);
        assert(s[s.len() - 1].0 != e.0);
        assert(entries_map(t) =~= entries_map(s).insert(e.0, e.1));
    }
}

proof fn updated_in_place(s: Seq<(Seq<char>, Seq<char>)>, at: int, e: (Seq<char>, Seq<char>))
    requires
        0 <= at < s.len(),
        s[at].0 == e.0,
        keys_in_order(s),
    ensures
        entries_map(s.update(at, e)) == entries_map(s).insert(e.0, e.1),
    decreases s.len(),
{
    let t = s.update(at, e);
    if at == s.len() - 1 {
        assert(t.drop_last() =~= s.drop_last());
        assert(entries_map(t) =~= entries_map(s).insert(e.0, e.1));
    } else {
        let front = s.drop_last();
        assert(t.drop_last() =~= front.update(at, e));
        assert forall|i: int, j: int| 0 <= i < j < front.len() implies text_le(
            (#[trigger] front[i]).0,
            (#[trigger] front[j]).0,
        ) && front[i].0 != front[j].0 by {
            assert(front[i] == s[i] && front[j] == s[j]);
        }
        updated_in_place(front, at, e);
        assert(s[at].0 != s[s.len() - 1].0);
        assert(entries_map(t) =~= entries_map(s).insert(e.0, e.1));
    }
}

impl UrlMap {
    #[verifier::type_invariant]
    spec fn inv(&self) -> bool {
        keys_in_order(pair_views(self.entries@))
    }

    pub fn new() -> (r: UrlMap)
        ensures
            r@.len() == 0,
    {
        UrlMap { entries: Vec::new() }
    }

    pub fn is_empty(&self) -> (r: bool)
        ensures
            r == (self@.len() == 0),
    {
        self.entries.len() == 0
    }

    /// The entries in order of their keys.
    pub fn entries(&self) -> (r: &Vec<(String, String)>)
        ensures
            pair_views(r@) == self@,
            keys_in_order(self@),
    {
        proof {
            use_type_invariant(self);
        }
        &self.entries
    }

    pub fn insert(&mut self, key: String, value: String)
        ensures
            keys_in_order(final(self)@),
            entries_map(final(self)@) == entries_map(old(self)@).insert(key@, value@),
    {
        proof {
            use_type_invariant(&*self);
        }
        let ghost s = pair_views(self.entries@);
        let mut entries: Vec<(String, String)> = Vec::new();
        core::mem::swap(&mut self.entries, &mut entries);
        let mut at: usize = entries.len();
        while at > 0 && !not_after(entries[at - 1].0.as_str(), key.as_str())
            invariant
                at <= entries@.len(),
                s == pair_views(entries@),
                keys_in_order(s),
                forall|j: int|
                    at <= j < s.len() ==> text_le(key@, (#[trigger] s[j]).0) && s[j].0 != key@,
            decreases at,
        {
            proof {
                assert(s[at - 1].0 == entries@[at - 1].0@);
                crate::sort::text_le_total(entries@[at - 1].0@, key@);
                if s[at - 1].0 == key@ {
                    crate::sort::text_le_same(key@);
                }
            }
            at = at - 1;
        }
        let found: bool = at > 0 && same(entries[at - 1].0.as_str(), key.as_str());
        let ghost e = (key@, value@);
        if found {
            assert(s[at - 1].0 == entries@[at - 1].0@);
            entries.set(at - 1, (key, value));
            proof {
                assert(pair_views(entries@) =~= s.update(at - 1, e));
                updated_in_place(s, at - 1, e);
                let t = pair_views(entries@);
                assert forall|i: int, j: int| 0 <= i < j < t.len() implies text_le(
                    (#[trigger] t[i]).0,
                    (#[trigger] t[j]).0,
                ) && t[i].0 != t[j].0 by {
                    assert(text_le(s[i].0, s[j].0) && s[i].0 != s[j].0);
                }
            }
        } else {
            entries.insert(at, (key, value));
            proof {
                assert(pair_views(entries@) =~= s.insert(at as int, e));
                assert forall|i: int| 0 <= i < s.len() implies (#[trigger] s[i]).0 != e.0 by {
                    if i < at && s[i].0 == e.0 {
                        if i < at - 1 {
                            assert(text_le(s[i].0, s[at - 1].0) && s[i].0 != s[at - 1].0);
                            crate::sort::text_le_antisymmetric(s[at - 1].0, key@);
                        }
                    }
                }
                inserted_anywhere(s, at as int, e);
                let t = pair_views(entries@);
                assert forall|i: int, j: int| 0 <= i < j < t.len() implies text_le(
                    (#[trigger] t[i]).0,
                    (#[trigger] t[j]).0,
                ) && t[i].0 != t[j].0 by {
                    if j == at {
                        assert(s[i].0 != e.0);
                        if i < at - 1 {
                            assert(text_le(s[i].0, s[at - 1].0));
                            crate::sort::text_le_transitive(s[i].0, s[at - 1].0, key@);
                        }
                    } else if i == at {
                        assert(text_le(key@, s[j - 1].0));
                    } else if j < at {
                        assert(text_le(s[i].0, s[j].0) && s[i].0 != s[j].0);
                    } else if i < at {
                        assert(text_le(s[i].0, s[j - 1].0) && s[i].0 != s[j - 1].0);
                    } else {
                        assert(text_le(s[i - 1].0, s[j - 1].0) && s[i - 1].0 != s[j - 1].0);
                    }
                }
            }
        }
        self.entries = entries;
    }
}

/// The text once every placeholder is replaced, one after the other.
pub open spec fn substituted(url: Seq<char>, entries: Seq<(Seq<char>, Seq<char>)>) -> Seq<char>
    decreases entries.len(),
{
    if entries.len() == 0 {
        url
    } else {
        replaced(substituted(url, entries.drop_last()), entries.last().0, entries.last().1)
    }
}

/// The first position of `needle` in `s`.
pub open spec fn first_at(s: Seq<char>, needle: Seq<char>, i: int) -> bool {
    occurs_at(s, needle, i) && forall|j: int| 0 <= j < i ==> !#[trigger] occurs_at(s, needle, j)
}

/// The `__NAME__` of a text from the left, those without a name left out.
pub open spec fn placeholders(s: Seq<char>) -> Seq<Seq<char>>
    decreases s.len(),
{
    if exists|i: int| first_at(s, "__"@, i) {
        let a = choose|i: int| first_at(s, "__"@, i);
        let tail = s.skip(a + 2);
        if 0 <= a && a + 2 <= s.len() && exists|i: int| first_at(tail, "__"@, i) {
            let b = choose|i: int| first_at(tail, "__"@, i);
            let end = a + 2 + b + 2;
            if 0 <= b && end <= s.len() {
                (if b > 0 {
                    seq![s.subrange(a, end)]
                } else {
                    seq![]
                }) + placeholders(s.skip(end))
            } else {
                seq![]
            }
        } else {
            seq![]
        }
    } else {
        seq![]
    }
}

/// The list holds exactly these texts, each once and in order.
pub open spec fn ordered_set(list: Seq<Seq<char>>, of: Seq<Seq<char>>) -> bool {
    in_order(list) && list.no_duplicates() && list.to_set() == of.to_set()
}

fn find_placeholders(s: &str) -> (r: Vec<String>)
    ensures
        views(r@) == placeholders(s@),
{
    let v = chars_of(s);
    let bar = chars_of("__");
    proof {
        reveal_strlit("__");
    }
    let mut out: Vec<String> = Vec::new();
    let mut from: usize = 0;
    assert(v@.skip(0) =~= v@);
    assert(views(out@) + placeholders(s@) =~= placeholders(s@));
    loop
        invariant
            from <= v@.len(),
            v@ == s@,
            bar@ == "__"@,
            bar@.len() == 2,
            placeholders(s@) == views(out@) + placeholders(v@.skip(from as int)),
        decreases v@.len() - from,
    {
        let tail = vstd::slice::slice_subrange(v.as_slice(), from, v.len());
        assert(tail@ =~= v@.skip(from as int));
        let a: usize = match find_from(tail, bar.as_slice(), 0) {
            Some(a) => a,
            None => {
                assert(!exists|i: int| first_at(tail@, "__"@, i)) by {
                    assert forall|i: int| !first_at(tail@, "__"@, i) by {
                        if 0 <= i {
                            assert(!occurs_at(tail@, bar@, i));
                        }
                    }
                }
                assert(views(out@) + Seq::<Seq<char>>::empty() =~= views(out@));
                return out;
            },
        };
        assert(first_at(tail@, "__"@, a as int));
        proof {
            first_is_unique(tail@, "__"@, a as int);
        }
        let rest = vstd::slice::slice_subrange(tail, a + 2, tail.len());
        assert(rest@ =~= tail@.skip(a + 2));
        let b: usize = match find_from(rest, bar.as_slice(), 0) {
            Some(b) => b,
            None => {
                assert(!exists|i: int| first_at(rest@, "__"@, i)) by {
                    assert forall|i: int| !first_at(rest@, "__"@, i) by {
                        if 0 <= i {
                            assert(!occurs_at(rest@, bar@, i));
                        }
                    }
                }
                assert(views(out@) + Seq::<Seq<char>>::empty() =~= views(out@));
                return out;
            },
        };
        assert(first_at(rest@, "__"@, b as int));
        proof {
            first_is_unique(rest@, "__"@, b as int);
        }
        let end: usize = a + 2 + b + 2;
        let ghost prior = out@;
        if b > 0 {
            let token = string_of(vstd::slice::slice_subrange(tail, a, end));
            out.push(token);
            assert(views(out@) =~= views(prior).push(token@));
        }
        assert(tail@.skip(end as int) =~= v@.skip(from + end));
        assert(views(out@) + placeholders(tail@.skip(end as int)) =~= views(prior) + placeholders(
            tail@,
        ));
        from = from + end;
    }
}

proof fn first_is_unique(s: Seq<char>, needle: Seq<char>, a: int)
    requires
        first_at(s, needle, a),
    ensures
        forall|i: int| #[trigger] first_at(s, needle, i) ==> i == a,
{
    assert forall|i: int| #[trigger] first_at(s, needle, i) implies i == a by {
        if i < a {
            assert(!occurs_at(s, needle, i));
        }
        if a < i {
            assert(!occurs_at(s, needle, a));
        }
    }
}

/// Drops repeated neighbours from a list in order.
fn dedup(v: &Vec<String>) -> (r: Vec<String>)
    requires
        in_order(views(v@)),
    ensures
        ordered_set(views(r@), views(v@)),
{
    let ghost all = views(v@);
    let mut out: Vec<String> = Vec::new();
    let mut i: usize = 0;
    assert(all.take(0).to_set() =~= views(out@).to_set());
    while i < v.len()
        invariant
            i <= v@.len(),
            all == views(v@),
            in_order(all),
            in_order(views(out@)),
            views(out@).no_duplicates(),
            views(out@).to_set() == all.take(i as int).to_set(),
            out@.len() == 0 <==> i == 0,
            out@.len() > 0 ==> views(out@).last() == all[i - 1],
        decreases v@.len() - i,
    {
        let n: usize = out.len();
        let repeated: bool = n > 0 && same(out[n - 1].as_str(), v[i].as_str());
        let ghost prior = out@;
        assert(all[i as int] == v@[i as int]@);
        if !repeated {
            out.push(v[i].clone());
        }
        proof {
            let s = views(prior);
            let t = views(out@);
            let x = all[i as int];
            if n > 0 {
                assert(s.last() == prior[n - 1]@);
            }
            assert(all.take(i + 1) =~= all.take(i as int).push(x));
            assert(all.take(i + 1).to_set() =~= all.take(i as int).to_set().insert(x)) by {
                crate::sort::push_to_set(all.take(i as int), x);
            }
            if repeated {
                assert(s.contains(x)) by {
                    assert(s[n - 1] == x);
                }
                assert(s.to_set().insert(x) =~= s.to_set());
            } else {
                assert(t =~= s.push(x));
                crate::sort::push_to_set(s, x);
                assert forall|a: int, b: int| 0 <= a < b < t.len() implies text_le(
                    #[trigger] t[a],
                    #[trigger] t[b],
                ) && t[a] != t[b] by {
                    if b < n {
                        assert(text_le(s[a], s[b]));
                    } else {
                        assert(s.last() == all[i - 1]);
                        assert(text_le(all[i - 1], all[i as int]));
                        if a < n - 1 {
                            assert(text_le(s[a], s[n - 1]) && s[a] != s[n - 1]);
                            crate::sort::text_le_transitive(s[a], s[n - 1], x);
                            if s[a] == x {
                                crate::sort::text_le_antisymmetric(s[n - 1], x);
                            }
                        }
                    }
                }
            }
        }
        i = i + 1;
    }
    assert(all.take(i as int) =~= all);
    out
}

/// Replaces every placeholder of a URL. Those that are left over are an error
/// that names them, each once and in order.
pub fn apply_url_map(url: &str, map: &UrlMap) -> (r: Result<String, String>)
    ensures
        ({
            let text = substituted(url@, map@);
            let left = placeholders(text);
            match r {
                Ok(s) => s@ == text && left.len() == 0,
                Err(e) => left.len() > 0 && exists|list: Seq<Seq<char>>|
                    #[trigger] ordered_set(list, left) && e@
                        == "url has unresolved placeholders: "@ + debugged_list(list)
                        + "; populate them via env vars or a CLI map"@,
            }
        }),
{
    let mut out = url.to_owned();
    let entries = map.entries();
    let ghost all = map@;
    assert(all.take(0) =~= seq![]);
    let mut i: usize = 0;
    while i < entries.len()
        invariant
            i <= entries@.len(),
            all == pair_views(entries@),
            out@ == substituted(url@, all.take(i as int)),
        decreases entries@.len() - i,
    {
        assert(all.take(i + 1).drop_last() =~= all.take(i as int));
        assert(all.take(i + 1).last() == (entries@[i as int].0@, entries@[i as int].1@));
        out = replace(out.as_str(), entries[i].0.as_str(), entries[i].1.as_str());
        i = i + 1;
    }
    assert(all.take(i as int) =~= all);
    let mut missing = find_placeholders(out.as_str());
    let ghost left = views(missing@);
    assert(left.len() == missing@.len());
    if missing.len() > 0 {
        sort_texts(&mut missing);
        proof {
            crate::sort::same_multiset_same_set(views(missing@), left);
        }
        let list = dedup(&missing);
        let mut m = "url has unresolved placeholders: ".to_owned();
        m.append(debug_list(&list).as_str());
        m.append("; populate them via env vars or a CLI map");
        assert(ordered_set(views(list@), left));
        return Err(m);
    }
    Ok(out)
}

/// A URL without underscore pairs, in which no placeholder occurs, passes unchanged.
pub proof fn plain_urls_pass(url: Seq<char>, entries: Seq<(Seq<char>, Seq<char>)>)
    requires
        !has_text(url, "__"@),
        forall|i: int| 0 <= i < entries.len() ==> !has_text(url, (#[trigger] entries[i]).0),
    ensures
        substituted(url, entries) == url,
        placeholders(url).len() == 0,
    decreases entries.len(),
{
    assert(!exists|i: int| first_at(url, "__"@, i)) by {
        assert forall|i: int| !first_at(url, "__"@, i) by {
            assert(!occurs_at(url, "__"@, i));
        }
    }
    if entries.len() > 0 {
        let front = entries.drop_last();
        assert forall|i: int| 0 <= i < front.len() implies !has_text(
            url,
            (#[trigger] front[i]).0,
        ) by {
            assert(front[i] == entries[i]);
        }
        plain_urls_pass(url, front);
        assert(!has_text(url, entries[entries.len() - 1].0));
        untouched(url, entries.last().0, entries.last().1);
    }
}

proof fn untouched(s: Seq<char>, key: Seq<char>, to: Seq<char>)
    requires
        !has_text(s, key),
    ensures
        replaced(s, key, to) == s,
    decreases s.len(),
{
    if key.len() == 0 {
        assert(s.subrange(0, 0) =~= key);
        assert(occurs_at(s, key, 0));
    } else if s.len() > 0 {
        if crate::text::has_prefix(s, key) {
            assert(occurs_at(s, key, 0));
        }
        let t = s.skip(1);
        assert(!has_text(t, key)) by {
            if has_text(t, key) {
                let i = choose|i: int| occurs_at(t, key, i);
                assert(s.subrange(i + 1, i + 1 + key.len()) =~= t.subrange(i, i + key.len()));
                assert(occurs_at(s, key, i + 1));
            }
        }
        untouched(t, key, to);
        assert(seq![s[0]] + t =~= s);
    }
}

} // verus!
