//! Texts in order.
use crate::text::{chars_of, views};
use vstd::prelude::*;

verus! {

/// The order of texts: by the first character in which they differ, a start of a
/// text before the text.
pub open spec fn text_le(a: Seq<char>, b: Seq<char>) -> bool
    decreases a.len(),
{
    if a.len() == 0 {
        true
    } else if b.len() == 0 {
        false
    } else if a[0] != b[0] {
        a[0] < b[0]
    } else {
        text_le(a.skip(1), b.skip(1))
    }
}

pub open spec fn in_order(s: Seq<Seq<char>>) -> bool {
    forall|i: int, j: int| 0 <= i < j < s.len() ==> text_le(#[trigger] s[i], #[trigger] s[j])
}

pub proof fn text_le_total(a: Seq<char>, b: Seq<char>)
    ensures
        text_le(a, b) || text_le(b, a),
    decreases a.len(),
{
    if a.len() > 0 && b.len() > 0 && a[0] == b[0] {
        text_le_total(a.skip(1), b.skip(1));
    }
}

pub proof fn text_le_transitive(a: Seq<char>, b: Seq<char>, c: Seq<char>)
    requires
        text_le(a, b),
        text_le(b, c),
    ensures
        text_le(a, c),
    decreases a.len(),
{
    if a.len() > 0 && b.len() > 0 && c.len() > 0 && a[0] == b[0] && b[0] == c[0] {
        text_le_transitive(a.skip(1), b.skip(1), c.skip(1));
    }
}

pub proof fn text_le_same(a: Seq<char>)
    ensures
        text_le(a, a),
    decreases a.len(),
{
    if a.len() > 0 {
        text_le_same(a.skip(1));
    }
}

pub proof fn text_le_antisymmetric(a: Seq<char>, b: Seq<char>)
    ensures
        text_le(a, b) && text_le(b, a) ==> a == b,
    decreases a.len(),
{
    if a.len() > 0 && b.len() > 0 && a[0] == b[0] {
        text_le_antisymmetric(a.skip(1), b.skip(1));
        if text_le(a, b) && text_le(b, a) {
            assert(a =~= seq![a[0]] + a.skip(1));
            assert(b =~= seq![b[0]] + b.skip(1));
        }
    } else if a.len() == 0 && b.len() == 0 {
        assert(a =~= b);
    }
}

pub proof fn push_to_set<A>(s: Seq<A>, x: A)
    ensures
        s.push(x).to_set() == s.to_set().insert(x),
{
    assert forall|y: A| #[trigger] s.push(x).to_set().contains(y) <==> s.to_set().insert(x).contains(
        y,
    ) by {
        if s.push(x).contains(y) {
            let k = choose|k: int| 0 <= k < s.push(x).len() && s.push(x)[k] == y;
            if k < s.len() {
                assert(s[k] == y);
            }
        }
        if s.contains(y) {
            let k = choose|k: int| 0 <= k < s.len() && s[k] == y;
            assert(s.push(x)[k] == y);
        }
        assert(s.push(x)[s.len() as int] == x);
    }
    assert(s.push(x).to_set() =~= s.to_set().insert(x));
}

pub proof fn same_multiset_same_set<A>(a: Seq<A>, b: Seq<A>)
    requires
        a.to_multiset() == b.to_multiset(),
    ensures
        a.to_set() == b.to_set(),
{
    assert forall|x: A| #[trigger] a.to_set().contains(x) <==> b.to_set().contains(x) by {
        vstd::seq_lib::to_multiset_contains(a, x);
        vstd::seq_lib::to_multiset_contains(b, x);
    }
    assert(a.to_set() =~= b.to_set());
}

pub fn not_after(a: &str, b: &str) -> (r: bool)
    ensures
        r == text_le(a@, b@),
{
    let x = chars_of(a);
    let y = chars_of(b);
    let mut i: usize = 0;
    assert(x@.skip(0) =~= x@);
    assert(y@.skip(0) =~= y@);
    while i < x.len()
        invariant
            i <= x@.len(),
            i <= y@.len(),
            x@ == a@,
            y@ == b@,
            text_le(a@, b@) == text_le(x@.skip(i as int), y@.skip(i as int)),
        decreases x@.len() - i,
    {
        if i == y.len() {
            return false;
        }
        if x[i] != y[i] {
            return x[i] < y[i];
        }
        assert(x@.skip(i as int).skip(1) =~= x@.skip(i + 1));
        assert(y@.skip(i as int).skip(1) =~= y@.skip(i + 1));
        i = i + 1;
    }
    true
}

/// Puts texts in order.
pub fn sort_texts(v: &mut Vec<String>)
    ensures
        in_order(views(final(v)@)),
        views(final(v)@).to_multiset() == views(old(v)@).to_multiset(),
{
    let ghost before = views(v@);
    let mut sorted: Vec<String> = Vec::new();
    let n: usize = v.len();
    let ghost list = v@;
    let mut k: usize = 0;
    assert(views(list).take(0) =~= views(sorted@));
    while k < n
        invariant
            k <= n,
            n == list.len(),
            v@ == list,
            before == views(list),
            in_order(views(sorted@)),
            views(sorted@).to_multiset() == before.take(k as int).to_multiset(),
        decreases n - k,
    {
        let item = v[k].clone();
        let ghost prior = sorted@;
        let mut at: usize = sorted.len();
        while at > 0 && !not_after(sorted[at - 1].as_str(), item.as_str())
            invariant
                at <= sorted@.len(),
                sorted@ == prior,
                in_order(views(sorted@)),
                forall|j: int| at <= j < sorted@.len() ==> text_le(item@, (#[trigger] sorted@[j])@),
            decreases at,
        {
            proof {
                text_le_total(sorted@[at - 1]@, item@);
            }
            at = at - 1;
        }
        sorted.insert(at, item);
        proof {
            let s = views(prior);
            assert(views(sorted@) =~= s.insert(at as int, item@));
            assert forall|i: int, j: int| 0 <= i < j < views(sorted@).len() implies text_le(
                #[trigger] views(sorted@)[i],
                #[trigger] views(sorted@)[j],
            ) by {
                if i < at && j == at {
                    if i < at - 1 {
                        assert(text_le(s[i], s[at - 1]));
                        text_le_transitive(s[i], s[at - 1], item@);
                    }
                } else if i == at {
                    assert(text_le(item@, prior[j - 1]@));
                } else if i < at && j < at {
                    assert(text_le(s[i], s[j]));
                } else if i < at {
                    assert(text_le(s[i], s[j - 1]));
                } else {
                    assert(text_le(s[i - 1], s[j - 1]));
                }
            }
            vstd::seq_lib::to_multiset_insert(s, at as int, item@);
            assert(before.take(k + 1) =~= before.take(k as int).push(before[k as int]));
            assert(before[k as int] == item@);
            vstd::seq_lib::to_multiset_build(before.take(k as int), item@);
        }
        k = k + 1;
    }
    assert(before.take(k as int) =~= before);
    *v = sorted;
}

} // verus!
