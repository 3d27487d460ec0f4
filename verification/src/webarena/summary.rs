//! The summary of the runs of several tasks.
use vstd::prelude::*;
use vstd::relations::{sorted_by, total_ordering};

verus! {

/// The times of the runs.
pub open spec fn times(s: Seq<(String, bool, u64, String)>) -> Seq<u64> {
    s.map_values(|e: (String, bool, u64, String)| e.2)
}

pub open spec fn at_most() -> spec_fn(u64, u64) -> bool {
    |x: u64, y: u64| x <= y
}

/// The middle of the times once they are in order; the upper one of two, and zero
/// where there is none.
pub open spec fn median(t: Seq<u64>) -> u64 {
    if t.len() == 0 {
        0
    } else {
        t.sort_by(at_most())[t.len() as int / 2]
    }
}

proof fn at_most_is_total()
    ensures
        total_ordering(at_most()),
{
}

/// Puts numbers in order.
pub fn sort_numbers(v: &Vec<u64>) -> (r: Vec<u64>)
    ensures
        r@ == v@.sort_by(at_most()),
{
    let mut sorted: Vec<u64> = Vec::new();
    let mut k: usize = 0;
    assert(v@.take(0) =~= sorted@);
    while k < v.len()
        invariant
            k <= v@.len(),
            forall|i: int, j: int| 0 <= i < j < sorted@.len() ==> sorted@[i] <= sorted@[j],
            sorted@.to_multiset() == v@.take(k as int).to_multiset(),
        decreases v@.len() - k,
    {
        let item: u64 = v[k];
        let ghost prior = sorted@;
        let mut at: usize = sorted.len();
        while at > 0 && sorted[at - 1] > item
            invariant
                at <= sorted@.len(),
                sorted@ == prior,
                forall|i: int, j: int| 0 <= i < j < sorted@.len() ==> sorted@[i] <= sorted@[j],
                forall|j: int| at <= j < sorted@.len() ==> item <= sorted@[j],
            decreases at,
        {
            at = at - 1;
        }
        sorted.insert(at, item);
        proof {
            vstd::seq_lib::to_multiset_insert(prior, at as int, item);
            assert(v@.take(k + 1) =~= v@.take(k as int).push(item));
            vstd::seq_lib::to_multiset_build(v@.take(k as int), item);
        }
        k = k + 1;
    }
    proof {
        assert(v@.take(k as int) =~= v@);
        at_most_is_total();
        v@.lemma_sort_by_ensures(at_most());
        assert(sorted_by(sorted@, at_most()));
        vstd::seq_lib::lemma_sorted_unique(sorted@, v@.sort_by(at_most()), at_most());
    }
    sorted
}

pub fn median_ms(summary: &[(String, bool, u64, String)]) -> (r: u64)
    ensures
        r == median(times(summary@)),
{
    let mut t: Vec<u64> = Vec::new();
    let ghost all = times(summary@);
    let mut i: usize = 0;
    while i < summary.len()
        invariant
            i <= summary@.len(),
            all == times(summary@),
            t@ == all.take(i as int),
        decreases summary@.len() - i,
    {
        t.push(summary[i].2);
        assert(all.take(i + 1) =~= all.take(i as int).push(all[i as int]));
        i = i + 1;
    }
    assert(all.take(i as int) =~= all);
    if t.len() == 0 {
        return 0;
    }
    let s = sort_numbers(&t);
    proof {
        at_most_is_total();
        all.lemma_sort_by_ensures(at_most());
        vstd::seq_lib::to_multiset_len(all);
        vstd::seq_lib::to_multiset_len(s@);
    }
    s[s.len() / 2]
}

/// How many runs passed.
pub open spec fn passes(s: Seq<(String, bool, u64, String)>) -> nat
    decreases s.len(),
{
    if s.len() == 0 {
        0
    } else {
        passes(s.drop_last()) + (if s.last().1 {
            1nat
        } else {
            0nat
        })
    }
}

/// What all runs took together.
pub open spec fn time_total(s: Seq<(String, bool, u64, String)>) -> nat
    decreases s.len(),
{
    if s.len() == 0 {
        0
    } else {
        time_total(s.drop_last()) + s.last().2 as nat
    }
}

proof fn time_total_grows(s: Seq<(String, bool, u64, String)>, n: int)
    requires
        0 <= n <= s.len(),
    ensures
        time_total(s.take(n)) <= time_total(s),
    decreases s.len(),
{
    if n == s.len() {
        assert(s.take(n) =~= s);
    } else {
        assert(s.drop_last().take(n) =~= s.take(n));
        time_total_grows(s.drop_last(), n);
    }
}

#[derive(Clone, Copy, Debug, PartialEq, Eq, Structural)]
pub struct Totals {
    pub passed: usize,
    pub total_ms: u64,
    pub median_ms: u64,
}

/// The numbers of a summary.
pub fn totals(summary: &[(String, bool, u64, String)]) -> (r: Totals)
    requires
        time_total(summary@) <= u64::MAX,
    ensures
        r.passed == passes(summary@),
        r.total_ms == time_total(summary@),
        r.median_ms == median(times(summary@)),
{
    let mut passed: usize = 0;
    let mut total_ms: u64 = 0;
    let mut i: usize = 0;
    while i < summary.len()
        invariant
            i <= summary@.len(),
            time_total(summary@) <= u64::MAX,
            passed <= i,
            passed == passes(summary@.take(i as int)),
            total_ms == time_total(summary@.take(i as int)),
        decreases summary@.len() - i,
    {
        proof {
            assert(summary@.take(i + 1).drop_last() =~= summary@.take(i as int));
            assert(summary@.take(i + 1).last() == summary@[i as int]);
            time_total_grows(summary@, i + 1);
        }
        if summary[i].1 {
            passed = passed + 1;
        }
        total_ms = total_ms + summary[i].2;
        i = i + 1;
    }
    assert(summary@.take(i as int) =~= summary@);
    Totals { passed, total_ms, median_ms: median_ms(summary) }
}

} // verus!
