//! Walks over trees without ids, and that they agree with walks over documents.
use crate::dom::html::{HtmlTree, Kind};
use crate::dom::model::{
    found, found_below, hides_text, linked, own_text, plain, ranked, subtree, subtree_step,
    text_below, text_of, IdTree, NodeModel,
};
use vstd::prelude::*;

verus! {

/// The subtrees whose root satisfies `p`, parents before their children.
pub open spec fn picked(t: HtmlTree, p: spec_fn(Kind) -> bool) -> Seq<HtmlTree>
    decreases t, t.children.len() + 1,
{
    (if p(t.kind) {
        seq![t]
    } else {
        seq![]
    }) + picked_below(t, t.children.len(), p)
}

/// As [`picked`], in the first `n` subtrees below the root of `t`.
pub open spec fn picked_below(t: HtmlTree, n: nat, p: spec_fn(Kind) -> bool) -> Seq<HtmlTree>
    decreases t, n,
{
    if n == 0 || n > t.children.len() {
        seq![]
    } else {
        picked_below(t, (n - 1) as nat, p) + picked(t.children[n - 1], p)
    }
}

/// The text of all text nodes of `t`; without those inside elements that hide
/// their text, unless `raw`.
pub open spec fn html_text(t: HtmlTree, raw: bool) -> Seq<char>
    decreases t, t.children.len() + 1,
{
    if !raw && hides_text(t.kind) {
        seq![]
    } else {
        own_text(t.kind) + html_text_below(t, t.children.len(), raw)
    }
}

/// As [`html_text`], in the first `n` subtrees below the root of `t`.
pub open spec fn html_text_below(t: HtmlTree, n: nat, raw: bool) -> Seq<char>
    decreases t, n,
{
    if n == 0 || n > t.children.len() {
        seq![]
    } else {
        html_text_below(t, (n - 1) as nat, raw) + html_text(t.children[n - 1], raw)
    }
}

/// A tree has the same text with and without ids.
pub proof fn text_without_ids(t: IdTree, raw: bool)
    ensures
        text_of(t, raw) == html_text(plain(t), raw),
    decreases t, t.children.len() + 1,
{
    text_below_without_ids(t, t.children.len(), raw);
}

proof fn text_below_without_ids(t: IdTree, n: nat, raw: bool)
    requires
        n <= t.children.len(),
    ensures
        text_below(t, n, raw) == html_text_below(plain(t), n, raw),
    decreases t, n,
{
    if n > 0 {
        text_below_without_ids(t, (n - 1) as nat, raw);
        text_without_ids(t.children[n - 1], raw);
        assert(plain(t).children[n - 1] == plain(t.children[n - 1]));
    }
}

/// The subtrees at the given ids, without ids.
pub open spec fn trees_at(d: Seq<NodeModel>, s: Seq<int>) -> Seq<HtmlTree> {
    s.map_values(|i: int| plain(subtree(d, i)))
}

/// What is found in a document is what is picked from its tree.
pub proof fn found_is_picked(
    d: Seq<NodeModel>,
    rank: Seq<nat>,
    id: int,
    p: spec_fn(Kind) -> bool,
)
    requires
        linked(d),
        ranked(d, rank),
        0 <= id < d.len(),
    ensures
        trees_at(d, found(subtree(d, id), p)) == picked(plain(subtree(d, id)), p),
    decreases rank[id], d[id].children.len() + 1,
{
    subtree_step(d, id);
    let t = subtree(d, id);
    let n = t.children.len();
    found_below_is_picked(d, rank, id, n, p);
    let a = found_below(t, n, p);
    if p(t.kind) {
        assert(trees_at(d, seq![id] + a) =~= seq![plain(t)] + trees_at(d, a));
    } else {
        assert(Seq::<int>::empty() + a =~= a);
        assert(Seq::<HtmlTree>::empty() + trees_at(d, a) =~= trees_at(d, a));
    }
}

proof fn found_below_is_picked(
    d: Seq<NodeModel>,
    rank: Seq<nat>,
    id: int,
    n: nat,
    p: spec_fn(Kind) -> bool,
)
    requires
        linked(d),
        ranked(d, rank),
        0 <= id < d.len(),
        n <= d[id].children.len(),
    ensures
        trees_at(d, found_below(subtree(d, id), n, p)) == picked_below(plain(subtree(d, id)), n, p),
    decreases rank[id], n,
{
    subtree_step(d, id);
    let t = subtree(d, id);
    if n > 0 {
        let m = (n - 1) as nat;
        let c = d[id].children[m as int];
        assert(rank[d[id].children[m as int]] < rank[id]);
        found_below_is_picked(d, rank, id, m, p);
        found_is_picked(d, rank, c, p);
        assert(t.children[m as int] == subtree(d, c));
        assert(plain(t).children[m as int] == plain(t.children[m as int]));
        assert(trees_at(d, found_below(t, m, p) + found(subtree(d, c), p)) =~= trees_at(
            d,
            found_below(t, m, p),
        ) + trees_at(d, found(subtree(d, c), p)));
    } else {
        assert(trees_at(d, seq![]) =~= seq![]);
    }
}

} // verus!
