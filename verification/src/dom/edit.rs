//! What each change does to the node table, and that trees stay trees.
use crate::dom::html::{forest_size, no_document, tree_size, HtmlTree, Kind};
use crate::dom::model::{
    acyclic, agrees, evolves, ids, ids_step, known, linked, parent_in_range, plain, ranked, subtree,
    subtree_step, tree_like, walkable, NodeModel,
};
use vstd::prelude::*;

verus! {

// ---- adding trees --------------------------------------------------------

/// The tree `t` stands in the table from position `id` on, parents before their
/// children, and hangs on `parent`.
pub open spec fn embeds(d: Seq<NodeModel>, id: int, parent: Option<int>, t: HtmlTree) -> bool
    decreases t,
{
    &&& 0 <= id && id + tree_size(t) <= d.len()
    &&& d[id].kind == t.kind
    &&& d[id].live
    &&& d[id].parent == parent
    &&& d[id].children.len() == t.children.len()
    &&& forall|j: int|
        #![trigger child_place(t, id, j)]
        0 <= j < t.children.len() ==> {
            &&& d[id].children[j] == child_place(t, id, j)
            &&& embeds(d, child_place(t, id, j), Some(id), t.children[j])
        }
}

/// Where the `j`-th subtree of `t` begins, if `t` begins at `id`.
pub open spec fn child_place(t: HtmlTree, id: int, j: int) -> int {
    id + 1 + forest_size(t, j as nat)
}

pub proof fn forest_grows(t: HtmlTree, a: nat, b: nat)
    requires
        a <= b <= t.children.len(),
    ensures
        forest_size(t, a) <= forest_size(t, b),
        a < b ==> forest_size(t, a) + tree_size(t.children[a as int]) <= forest_size(t, b),
    decreases b - a,
{
    if a < b {
        forest_grows(t, a + 1, b);
    }
}

pub proof fn embeds_frame(
    d: Seq<NodeModel>,
    e: Seq<NodeModel>,
    id: int,
    parent: Option<int>,
    t: HtmlTree,
)
    requires
        embeds(d, id, parent, t),
        id + tree_size(t) <= e.len(),
        forall|i: int| id <= i < id + tree_size(t) ==> #[trigger] e[i] == d[i],
    ensures
        embeds(e, id, parent, t),
    decreases t,
{
    assert forall|j: int|
        #![trigger child_place(t, id, j)]
        0 <= j < t.children.len() implies {
        &&& e[id].children[j] == child_place(t, id, j)
        &&& embeds(e, child_place(t, id, j), Some(id), t.children[j])
    } by {
        let c = child_place(t, id, j);
        forest_grows(t, j as nat, t.children.len());
        assert(tree_size(t) == 1 + forest_size(t, t.children.len()));
        embeds_frame(d, e, c, Some(id), t.children[j]);
    }
}

/// The links of entry `i`, where the entries from `lo` to `hi` hold one tree.
pub open spec fn placed(d: Seq<NodeModel>, lo: int, hi: int, i: int) -> bool {
    &&& d[i].live
    &&& d[i].children.no_duplicates()
    &&& forall|j: int|
        0 <= j < d[i].children.len() ==> i < #[trigger] d[i].children[j] < hi
            && d[d[i].children[j]].parent == Some(i)
    &&& i > lo ==> d[i].parent is Some && lo <= d[i].parent->0 < i
        && d[d[i].parent->0].children.contains(i)
}

pub proof fn embedded_nodes(d: Seq<NodeModel>, id: int, parent: Option<int>, t: HtmlTree)
    requires
        embeds(d, id, parent, t),
    ensures
        forall|i: int|
            id <= i < id + tree_size(t) ==> #[trigger] placed(d, id, id + tree_size(t), i),
    decreases t, t.children.len() + 1,
{
    let n = t.children.len();
    let hi = id + tree_size(t);
    assert forall|j: int| 0 <= j < d[id].children.len() implies id < #[trigger] d[id].children[j]
        < hi && d[d[id].children[j]].parent == Some(id) by {
        let c = id + 1 + forest_size(t, j as nat);
        assert(d[id].children[j] == child_place(t, id, j));
        assert(embeds(d, c, Some(id), t.children[j]));
        assert(tree_size(t.children[j]) >= 1);
        forest_grows(t, j as nat, n);
    }
    assert forall|a: int, b: int| 0 <= a < b < d[id].children.len() implies d[id].children[a]
        != d[id].children[b] by {
        assert(d[id].children[a] == child_place(t, id, a));
        assert(d[id].children[b] == child_place(t, id, b));
        assert(tree_size(t.children[a]) >= 1);
        forest_grows(t, a as nat, b as nat);
    }
    assert(d[id].children.no_duplicates());
    embedded_below(d, id, parent, t, n);
    assert forall|i: int| id <= i < hi implies #[trigger] placed(d, id, hi, i) by {}
}

proof fn embedded_below(d: Seq<NodeModel>, id: int, parent: Option<int>, t: HtmlTree, n: nat)
    requires
        embeds(d, id, parent, t),
        n <= t.children.len(),
    ensures
        forall|i: int|
            id < i < id + 1 + forest_size(t, n) ==> #[trigger] placed(
                d,
                id,
                id + tree_size(t),
                i,
            ),
    decreases t, n,
{
    if n > 0 {
        let m = (n - 1) as nat;
        embedded_below(d, id, parent, t, m);
        let c = id + 1 + forest_size(t, m);
        let kid = t.children[m as int];
        assert(d[id].children[m as int] == child_place(t, id, m as int));
        assert(embeds(d, c, Some(id), kid));
        embedded_nodes(d, c, Some(id), kid);
        forest_grows(t, n, t.children.len());
        assert forall|i: int| id < i < id + 1 + forest_size(t, n) implies #[trigger] placed(
            d,
            id,
            id + tree_size(t),
            i,
        ) by {
            if i >= c {
                assert(placed(d, c, c + tree_size(kid), i));
                assert forall|j: int| 0 <= j < d[i].children.len() implies i
                    < #[trigger] d[i].children[j] < id + tree_size(t)
                    && d[d[i].children[j]].parent == Some(i) by {}
                if i == c {
                    assert(d[id].children.contains(c));
                }
            }
        }
    }
}

/// No entry that holds a node of a tree without document nodes is one.
pub proof fn embedded_kinds(d: Seq<NodeModel>, id: int, parent: Option<int>, t: HtmlTree)
    requires
        embeds(d, id, parent, t),
        no_document(t),
    ensures
        forall|i: int| id <= i < id + tree_size(t) ==> (#[trigger] d[i]).kind != Kind::Document,
    decreases t, t.children.len() + 1,
{
    embedded_kinds_below(d, id, parent, t, t.children.len());
}

pub proof fn embedded_kinds_below(
    d: Seq<NodeModel>,
    id: int,
    parent: Option<int>,
    t: HtmlTree,
    n: nat,
)
    requires
        embeds(d, id, parent, t),
        n <= t.children.len(),
        forall|j: int| 0 <= j < t.children.len() ==> no_document(#[trigger] t.children[j]),
    ensures
        forall|i: int|
            id < i < id + 1 + forest_size(t, n) ==> (#[trigger] d[i]).kind != Kind::Document,
    decreases t, n,
{
    if n > 0 {
        let m = (n - 1) as nat;
        embedded_kinds_below(d, id, parent, t, m);
        assert(d[id].children[m as int] == child_place(t, id, m as int));
        embedded_kinds(d, child_place(t, id, m as int), Some(id), t.children[m as int]);
    }
}

/// `e` is `d` with the tree `t` added behind it, as the last child of `parent`
/// or as a tree of its own.
pub open spec fn grafted(
    d: Seq<NodeModel>,
    e: Seq<NodeModel>,
    parent: Option<int>,
    t: HtmlTree,
) -> bool {
    &&& e.len() == d.len() + tree_size(t)
    &&& embeds(e, d.len() as int, parent, t)
    &&& forall|i: int| 0 <= i < d.len() && parent != Some(i) ==> #[trigger] e[i] == d[i]
    &&& parent matches Some(p) ==> known(d, p) && e[p] == (NodeModel {
        children: d[p].children.push(d.len() as int),
        ..d[p]
    })
}

/// A tree that is added leaves no walk without an end, and is the subtree at its root.
pub proof fn graft_keeps_walks(
    d: Seq<NodeModel>,
    e: Seq<NodeModel>,
    parent: Option<int>,
    t: HtmlTree,
)
    requires
        walkable(d),
        grafted(d, e, parent, t),
        e.len() <= u32::MAX,
    ensures
        walkable(e),
        evolves(d, e),
        plain(subtree(e, d.len() as int)) == t,
{
    let n = d.len() as int;
    embedded_nodes(e, n, parent, t);
    let old_rank = choose|rank: Seq<nat>| ranked(d, rank);
    let rank: Seq<nat> = Seq::new(
        e.len(),
        |i: int| if i < n { (old_rank[i] + e.len()) as nat } else { (e.len() - i) as nat },
    );
    assert forall|i: int, j: int| 0 <= i < e.len() && 0 <= j < e[i].children.len() implies 0
        <= #[trigger] e[i].children[j] < e.len() && rank[e[i].children[j]] < rank[i] by {
        if i >= n {
            assert(placed(e, n, e.len() as int, i));
        } else if parent == Some(i) && j == d[i].children.len() {
            assert(e[i].children[j] == n);
        } else {
            assert(e[i].children[j] == d[i].children[j]);
        }
    }
    assert forall|i: int| 0 <= i < e.len() implies parent_in_range(e, #[trigger] e[i].parent) by {
        if i >= n {
            assert(placed(e, n, e.len() as int, i));
        } else {
            assert(parent_in_range(d, d[i].parent));
        }
    }
    assert(ranked(e, rank));
    embedded_subtree(e, n, parent, t);
}

pub proof fn graft_keeps_trees(
    d: Seq<NodeModel>,
    e: Seq<NodeModel>,
    parent: Option<int>,
    t: HtmlTree,
)
    requires
        tree_like(d),
        grafted(d, e, parent, t),
        e.len() <= u32::MAX,
    ensures
        tree_like(e),
        evolves(d, e),
        plain(subtree(e, d.len() as int)) == t,
{
    let n = d.len() as int;
    embedded_nodes(e, n, parent, t);
    graft_keeps_walks(d, e, parent, t);
    assert forall|i: int| 0 <= i < e.len() implies #[trigger] agrees(e, i) by {
        if i >= n {
            assert(placed(e, n, e.len() as int, i));
            if i == n && parent is Some {
                let p = parent->0;
                assert(e[p].children[d[p].children.len() as int] == n);
            }
        } else {
            assert(agrees(d, i));
            assert forall|j: int| 0 <= j < e[i].children.len() implies e[#[trigger] e[i].children[j]].parent
                == Some(i) by {
                if j < d[i].children.len() {
                    let c = d[i].children[j];
                    assert(0 <= c < n);
                    assert(e[c].parent == d[c].parent);
                }
            }
            if parent == Some(i) {
                assert forall|a: int, b: int| 0 <= a < b < e[i].children.len() implies e[i].children[a]
                    != e[i].children[b] by {
                    assert(0 <= d[i].children[a] < n);
                }
            }
            if d[i].parent is Some {
                let q = d[i].parent->0;
                assert(parent_in_range(d, d[i].parent));
                let k = choose|k: int| 0 <= k < d[q].children.len() && d[q].children[k] == i;
                assert(e[q].children[k] == i);
            }
        }
    }
}

/// A tree that stands in the table is the subtree at its root.
pub proof fn embedded_subtree(d: Seq<NodeModel>, id: int, parent: Option<int>, t: HtmlTree)
    requires
        linked(d),
        acyclic(d),
        embeds(d, id, parent, t),
    ensures
        plain(subtree(d, id)) == t,
    decreases t,
{
    subtree_step(d, id);
    let a = plain(subtree(d, id)).children;
    assert forall|j: int| 0 <= j < t.children.len() implies a[j] == #[trigger] t.children[j] by {
        assert(d[id].children[j] == child_place(t, id, j));
        embedded_subtree(d, d[id].children[j], Some(id), t.children[j]);
        assert(subtree(d, id).children[j] == subtree(d, d[id].children[j]));
    }
    assert(a =~= t.children);
}

// ---- forgetting ----------------------------------------------------------

/// `i` stands somewhere below `p`.
pub open spec fn below(d: Seq<NodeModel>, p: int, i: int) -> bool {
    exists|j: int|
        0 <= j < d[p].children.len() && ids(subtree(d, #[trigger] d[p].children[j])).contains(i)
}

/// No node but `p` has `c` among its children.
pub open spec fn lone(d: Seq<NodeModel>, p: int, c: int) -> bool {
    forall|q: int| 0 <= q < d.len() && q != p ==> !(#[trigger] d[q]).children.contains(c)
}

/// `i` stands at or below a child that only `p` has.
pub open spec fn freed(d: Seq<NodeModel>, p: int, i: int) -> bool {
    exists|j: int|
        0 <= j < d[p].children.len() && lone(d, p, d[p].children[j]) && ids(
            subtree(d, #[trigger] d[p].children[j]),
        ).contains(i)
}

/// `e` is `d` with everything below `p` forgotten. A child that another node has too
/// stays there, and what is below it stays below it; the others lose their links.
pub open spec fn cleared(d: Seq<NodeModel>, e: Seq<NodeModel>, p: int) -> bool {
    &&& e.len() == d.len()
    &&& forall|i: int|
        0 <= i < d.len() ==> #[trigger] e[i] == (if below(d, p, i) {
            NodeModel {
                live: false,
                parent: None,
                children: if freed(d, p, i) {
                    seq![]
                } else {
                    d[i].children
                },
                ..d[i]
            }
        } else if i == p {
            NodeModel { children: seq![], ..d[i] }
        } else {
            d[i]
        })
}

/// A subtree holds, with each node, its children, and nothing of the root's rank but
/// the root.
pub proof fn subtree_is_walked(d: Seq<NodeModel>, rank: Seq<nat>, c: int)
    requires
        linked(d),
        ranked(d, rank),
        0 <= c < d.len(),
    ensures
        forall|i: int|
            #[trigger] ids(subtree(d, c)).contains(i) ==> 0 <= i < d.len() && (i == c || rank[i]
                < rank[c]),
        forall|i: int, k: int|
            ids(subtree(d, c)).contains(i) && 0 <= k < d[i].children.len() ==> ids(
                subtree(d, c),
            ).contains(#[trigger] d[i].children[k]),
    decreases rank[c],
{
    let t = subtree(d, c);
    subtree_step(d, c);
    ids_step(t);
    assert forall|j: int| 0 <= j < d[c].children.len() implies rank[#[trigger] d[c].children[j]]
        < rank[c] by {}
    assert forall|i: int| #[trigger] ids(t).contains(i) implies 0 <= i < d.len() && (i == c
        || rank[i] < rank[c]) by {
        if i != c {
            let j = choose|j: int|
                0 <= j < t.children.len() && #[trigger] ids(t.children[j]).contains(i);
            let k = d[c].children[j];
            assert(t.children[j] == subtree(d, k));
            subtree_is_walked(d, rank, k);
            assert(ids(subtree(d, k)).contains(i));
        }
    }
    assert forall|i: int, k: int|
        ids(t).contains(i) && 0 <= k < d[i].children.len() implies ids(t).contains(
        #[trigger] d[i].children[k],
    ) by {
        if i == c {
            let x = d[c].children[k];
            subtree_step(d, x);
            ids_step(subtree(d, x));
            assert(t.children[k] == subtree(d, x));
            assert(ids(t.children[k]).contains(x));
        } else {
            let j = choose|j: int|
                0 <= j < t.children.len() && #[trigger] ids(t.children[j]).contains(i);
            let x = d[c].children[j];
            assert(t.children[j] == subtree(d, x));
            subtree_is_walked(d, rank, x);
            assert(ids(subtree(d, x)).contains(d[i].children[k]));
            assert(ids(t.children[j]).contains(d[i].children[k]));
        }
    }
}

/// What stands below a node is in the table and never the node itself.
pub proof fn below_is_walked(d: Seq<NodeModel>, p: int)
    requires
        walkable(d),
        0 <= p < d.len(),
    ensures
        !below(d, p, p),
        forall|i: int| #[trigger] below(d, p, i) ==> 0 <= i < d.len(),
        forall|i: int| #[trigger] freed(d, p, i) ==> below(d, p, i),
{
    let rank = choose|rank: Seq<nat>| ranked(d, rank);
    assert forall|i: int| #[trigger] below(d, p, i) implies 0 <= i < d.len() && i != p by {
        let j = choose|j: int|
            0 <= j < d[p].children.len() && ids(subtree(d, #[trigger] d[p].children[j])).contains(
                i,
            );
        let c = d[p].children[j];
        assert(rank[d[p].children[j]] < rank[p]);
        subtree_is_walked(d, rank, c);
        assert(ids(subtree(d, c)).contains(i));
    }
    assert forall|i: int| #[trigger] freed(d, p, i) implies below(d, p, i) by {
        let j = choose|j: int|
            0 <= j < d[p].children.len() && lone(d, p, d[p].children[j]) && ids(
                subtree(d, #[trigger] d[p].children[j]),
            ).contains(i);
        assert(ids(subtree(d, d[p].children[j])).contains(i));
    }
}

/// What is forgotten leaves no walk without an end.
pub proof fn clearing_keeps_walks(d: Seq<NodeModel>, e: Seq<NodeModel>, p: int)
    requires
        walkable(d),
        known(d, p),
        cleared(d, e, p),
    ensures
        walkable(e),
        evolves(d, e),
        known(e, p),
        e[p].kind == d[p].kind,
        e[p].parent == d[p].parent,
        e[p].children.len() == 0,
{
    below_is_walked(d, p);
    let rank = choose|rank: Seq<nat>| ranked(d, rank);
    assert forall|i: int, j: int| 0 <= i < e.len() && 0 <= j < e[i].children.len() implies 0
        <= #[trigger] e[i].children[j] < e.len() && rank[e[i].children[j]] < rank[i] by {
        assert(e[i].children[j] == d[i].children[j]);
    }
    assert(ranked(e, rank));
    assert forall|i: int| 0 <= i < e.len() implies parent_in_range(e, #[trigger] e[i].parent) by {
        assert(parent_in_range(d, d[i].parent));
    }
}

/// In a forest, a child has one parent, so everything below a node goes with it.
proof fn trees_are_freed(d: Seq<NodeModel>, p: int)
    requires
        tree_like(d),
        0 <= p < d.len(),
    ensures
        forall|i: int| #[trigger] below(d, p, i) ==> freed(d, p, i),
{
    assert(agrees(d, p));
    assert forall|i: int| #[trigger] below(d, p, i) implies freed(d, p, i) by {
        let j = choose|j: int|
            0 <= j < d[p].children.len() && ids(subtree(d, #[trigger] d[p].children[j])).contains(
                i,
            );
        let c = d[p].children[j];
        assert(d[d[p].children[j]].parent == Some(p));
        assert(lone(d, p, c)) by {
            assert forall|q: int| 0 <= q < d.len() && q != p implies !(#[trigger] d[q]).children.contains(
                c,
            ) by {
                assert(agrees(d, q));
                if d[q].children.contains(c) {
                    let k = choose|k: int| 0 <= k < d[q].children.len() && d[q].children[k] == c;
                    assert(d[d[q].children[k]].parent == Some(q));
                }
            }
        }
        assert(lone(d, p, d[p].children[j]) && ids(subtree(d, d[p].children[j])).contains(i));
    }
}

/// A subtree holds, with each node, its children and, but for the root, its parent.
pub proof fn subtree_is_closed(d: Seq<NodeModel>, rank: Seq<nat>, c: int)
    requires
        tree_like(d),
        ranked(d, rank),
        0 <= c < d.len(),
    ensures
        forall|i: int|
            #[trigger] ids(subtree(d, c)).contains(i) ==> {
                &&& 0 <= i < d.len()
                &&& rank[i] <= rank[c]
                &&& i == c || d[i].parent is Some && ids(subtree(d, c)).contains(d[i].parent->0)
                &&& i != c ==> rank[i] < rank[c]
            },
        forall|i: int, k: int|
            ids(subtree(d, c)).contains(i) && 0 <= k < d[i].children.len() ==> ids(
                subtree(d, c),
            ).contains(#[trigger] d[i].children[k]),
    decreases rank[c],
{
    let t = subtree(d, c);
    subtree_step(d, c);
    ids_step(t);
    assert(agrees(d, c));
    assert forall|j: int| 0 <= j < d[c].children.len() implies rank[#[trigger] d[c].children[j]]
        < rank[c] by {}
    assert forall|i: int| #[trigger] ids(t).contains(i) implies {
        &&& 0 <= i < d.len()
        &&& rank[i] <= rank[c]
        &&& i == c || d[i].parent is Some && ids(t).contains(d[i].parent->0)
        &&& i != c ==> rank[i] < rank[c]
    } by {
        if i != c {
            let j = choose|j: int|
                0 <= j < t.children.len() && #[trigger] ids(t.children[j]).contains(i);
            let k = d[c].children[j];
            assert(t.children[j] == subtree(d, k));
            subtree_is_closed(d, rank, k);
            assert(ids(subtree(d, k)).contains(i));
            if i == k {
                assert(d[k].parent == Some(c));
            } else {
                assert(ids(t.children[j]).contains(d[i].parent->0));
            }
        }
    }
    assert forall|i: int, k: int|
        ids(t).contains(i) && 0 <= k < d[i].children.len() implies ids(t).contains(
        #[trigger] d[i].children[k],
    ) by {
        if i == c {
            let x = d[c].children[k];
            ids_step(subtree(d, x));
            assert(t.children[k] == subtree(d, x));
            subtree_step(d, x);
            assert(ids(t.children[k]).contains(x));
        } else {
            let j = choose|j: int|
                0 <= j < t.children.len() && #[trigger] ids(t.children[j]).contains(i);
            let x = d[c].children[j];
            assert(t.children[j] == subtree(d, x));
            subtree_is_closed(d, rank, x);
            assert(ids(subtree(d, x)).contains(d[i].children[k]));
            assert(ids(t.children[j]).contains(d[i].children[k]));
        }
    }
}

/// What stands below `p`: with each node its children, and its parent or `p`.
pub proof fn below_is_closed(d: Seq<NodeModel>, p: int)
    requires
        tree_like(d),
        0 <= p < d.len(),
    ensures
        !below(d, p, p),
        forall|i: int|
            #[trigger] below(d, p, i) ==> {
                &&& 0 <= i < d.len()
                &&& d[i].parent is Some
                &&& d[i].parent == Some(p) || below(d, p, d[i].parent->0)
            },
        forall|i: int, k: int|
            below(d, p, i) && 0 <= k < d[i].children.len() ==> below(
                d,
                p,
                #[trigger] d[i].children[k],
            ),
        forall|j: int| 0 <= j < d[p].children.len() ==> below(d, p, #[trigger] d[p].children[j]),
{
    let rank = choose|rank: Seq<nat>| ranked(d, rank);
    assert(agrees(d, p));
    if below(d, p, p) {
        let j = choose|j: int|
            0 <= j < d[p].children.len() && ids(subtree(d, #[trigger] d[p].children[j])).contains(
                p,
            );
        let c = d[p].children[j];
        assert(rank[c] < rank[p]);
        subtree_is_closed(d, rank, c);
        assert(ids(subtree(d, c)).contains(p));
    }
    assert forall|i: int| #[trigger] below(d, p, i) implies {
        &&& 0 <= i < d.len()
        &&& d[i].parent is Some
        &&& d[i].parent == Some(p) || below(d, p, d[i].parent->0)
    } by {
        let j = choose|j: int|
            0 <= j < d[p].children.len() && ids(subtree(d, #[trigger] d[p].children[j])).contains(
                i,
            );
        let c = d[p].children[j];
        subtree_is_closed(d, rank, c);
        assert(ids(subtree(d, c)).contains(i));
    }
    assert forall|i: int, k: int|
        below(d, p, i) && 0 <= k < d[i].children.len() implies below(
        d,
        p,
        #[trigger] d[i].children[k],
    ) by {
        let j = choose|j: int|
            0 <= j < d[p].children.len() && ids(subtree(d, #[trigger] d[p].children[j])).contains(
                i,
            );
        let c = d[p].children[j];
        subtree_is_closed(d, rank, c);
        assert(ids(subtree(d, d[p].children[j])).contains(d[i].children[k]));
    }
    assert forall|j: int| 0 <= j < d[p].children.len() implies below(
        d,
        p,
        #[trigger] d[p].children[j],
    ) by {
        let c = d[p].children[j];
        subtree_step(d, c);
        ids_step(subtree(d, c));
        assert(ids(subtree(d, d[p].children[j])).contains(c));
    }
}

pub proof fn clearing_keeps_trees(d: Seq<NodeModel>, e: Seq<NodeModel>, p: int)
    requires
        tree_like(d),
        known(d, p),
        cleared(d, e, p),
    ensures
        tree_like(e),
        evolves(d, e),
        known(e, p),
        e[p].kind == d[p].kind,
        e[p].parent == d[p].parent,
        e[p].children.len() == 0,
{
    below_is_closed(d, p);
    trees_are_freed(d, p);
    clearing_keeps_walks(d, e, p);
    assert forall|i: int| 0 <= i < e.len() implies #[trigger] agrees(e, i) by {
        assert(agrees(d, i));
        if !below(d, p, i) {
            assert forall|j: int| 0 <= j < e[i].children.len() implies e[#[trigger] e[i].children[j]].parent
                == Some(i) by {
                let c = d[i].children[j];
                assert(d[c].parent == Some(i));
                if below(d, p, c) {
                    assert(d[c].parent == Some(p) || below(d, p, d[c].parent->0));
                }
            }
            if e[i].parent is Some {
                let q = d[i].parent->0;
                assert(parent_in_range(d, d[i].parent));
                let k = choose|k: int| 0 <= k < d[q].children.len() && d[q].children[k] == i;
                if below(d, p, q) {
                    assert(below(d, p, d[q].children[k]));
                }
                if q == p {
                    assert(below(d, p, d[p].children[k]));
                }
                assert(e[q].children[k] == i);
            }
        }
    }
}

// ---- moving --------------------------------------------------------------

/// A list without the occurrences of one value.
pub open spec fn without(s: Seq<int>, c: int) -> Seq<int>
    decreases s.len(),
{
    if s.len() == 0 {
        seq![]
    } else if s.last() == c {
        without(s.drop_last(), c)
    } else {
        without(s.drop_last(), c).push(s.last())
    }
}

pub proof fn without_keeps_the_rest(s: Seq<int>, c: int)
    ensures
        forall|x: int| #[trigger] without(s, c).contains(x) <==> s.contains(x) && x != c,
        s.no_duplicates() ==> without(s, c).no_duplicates(),
        !s.contains(c) ==> without(s, c) == s,
    decreases s.len(),
{
    if s.len() > 0 {
        let front = s.drop_last();
        without_keeps_the_rest(front, c);
        assert(front.push(s.last()) == s);
        let w = without(front, c);
        assert forall|x: int| #[trigger] without(s, c).contains(x) <==> s.contains(x) && x != c by {
            if without(s, c).contains(x) {
                let k = choose|k: int| 0 <= k < without(s, c).len() && without(s, c)[k] == x;
                if k < w.len() {
                    assert(w[k] == x);
                    assert(w.contains(x));
                    let m = choose|m: int| 0 <= m < front.len() && front[m] == x;
                    assert(s[m] == x);
                } else {
                    assert(s[s.len() - 1] == x);
                }
            }
            if s.contains(x) && x != c {
                let k = choose|k: int| 0 <= k < s.len() && s[k] == x;
                if k < front.len() {
                    assert(front[k] == x);
                    assert(w.contains(x));
                    let m = choose|m: int| 0 <= m < w.len() && w[m] == x;
                    assert(without(s, c)[m] == x);
                } else {
                    assert(without(s, c)[w.len() as int] == x);
                }
            }
        }
        if s.no_duplicates() {
            assert(front.no_duplicates());
            if s.last() != c {
                if w.contains(s.last()) {
                    let m = choose|m: int| 0 <= m < front.len() && front[m] == s.last();
                    assert(s[m] == s[s.len() - 1]);
                }
                assert forall|a: int, b: int| 0 <= a < b < without(s, c).len() implies without(
                    s,
                    c,
                )[a] != without(s, c)[b] by {
                    assert(w[a] == without(s, c)[a]);
                    if b < w.len() {
                        assert(w[b] == without(s, c)[b]);
                    } else {
                        assert(w.contains(w[a]));
                    }
                }
            }
        }
        if !s.contains(c) {
            assert(s[s.len() - 1] != c);
            if front.contains(c) {
                let m = choose|m: int| 0 <= m < front.len() && front[m] == c;
                assert(s[m] == c);
            }
        }
    }
}

/// The table once `c` no longer hangs on its parent.
pub open spec fn detached(d: Seq<NodeModel>, c: int) -> Seq<NodeModel> {
    match d[c].parent {
        Some(q) => {
            let e = d.update(q, NodeModel { children: without(d[q].children, c), ..d[q] });
            e.update(c, NodeModel { parent: None, ..e[c] })
        },
        None => d,
    }
}

/// The table once `c` is the last child of `p`.
pub open spec fn appended(d: Seq<NodeModel>, p: int, c: int) -> Seq<NodeModel> {
    let e = detached(d, c);
    let f = e.update(c, NodeModel { parent: Some(p), ..e[c] });
    f.update(p, NodeModel { children: f[p].children.push(c), ..f[p] })
}

/// The table once `c` is not among the children of `p` and has no parent.
pub open spec fn removed(d: Seq<NodeModel>, p: int, c: int) -> Seq<NodeModel> {
    let e = d.update(p, NodeModel { children: without(d[p].children, c), ..d[p] });
    e.update(c, NodeModel { parent: None, ..e[c] })
}

pub proof fn detaching_keeps_trees(d: Seq<NodeModel>, c: int)
    requires
        tree_like(d),
        0 <= c < d.len(),
    ensures
        tree_like(detached(d, c)),
        detached(d, c)[c].parent is None,
        detached(d, c)[c].children == d[c].children,
        detached(d, c)[c].kind == d[c].kind,
        detached(d, c)[c].live == d[c].live,
        detached(d, c).len() == d.len(),
        forall|rank: Seq<nat>| #[trigger] ranked(d, rank) ==> ranked(detached(d, c), rank),
        forall|i: int| 0 <= i < d.len() && i != c ==> (#[trigger] detached(d, c)[i]).parent == d[i].parent,
        forall|i: int| 0 <= i < d.len() ==> (#[trigger] detached(d, c)[i]).live == d[i].live,
        forall|i: int| 0 <= i < d.len() && d[c].parent != Some(i) ==> (#[trigger] detached(d, c)[i]).children
            == d[i].children,
{
    let e = detached(d, c);
    let rank = choose|rank: Seq<nat>| ranked(d, rank);
    assert(agrees(d, c));
    if d[c].parent is Some {
        let q = d[c].parent->0;
        assert(parent_in_range(d, d[c].parent));
        assert(agrees(d, q));
        let k = choose|k: int| 0 <= k < d[q].children.len() && d[q].children[k] == c;
        assert(rank[d[q].children[k]] < rank[q]);
        without_keeps_the_rest(d[q].children, c);
        let w = without(d[q].children, c);
        assert forall|j: int| 0 <= j < w.len() implies exists|m: int|
            0 <= m < d[q].children.len() && d[q].children[m] == #[trigger] w[j] && w[j] != c by {
            assert(w.contains(w[j]));
        }
        assert(e[q].children == w);
        assert forall|i: int, j: int| 0 <= i < e.len() && 0 <= j < e[i].children.len() implies
            exists|m: int| 0 <= m < d[i].children.len() && #[trigger] d[i].children[m] == #[trigger] e[i].children[j] && e[i].children[j] != c by {
            if i == q {
                assert(w.contains(w[j]));
            } else {
                assert(e[i].children[j] == d[i].children[j]);
                if d[i].children[j] == c {
                    assert(agrees(d, i));
                    assert(d[d[i].children[j]].parent == Some(i));
                }
            }
        }
        assert forall|r: Seq<nat>| #[trigger] ranked(d, r) implies ranked(e, r) by {
            assert forall|i: int, j: int| 0 <= i < e.len() && 0 <= j < e[i].children.len() implies
                r[#[trigger] e[i].children[j]] < r[i] by {
                let m = choose|m: int| 0 <= m < d[i].children.len() && #[trigger] d[i].children[m] == e[i].children[j];
                assert(r[d[i].children[m]] < r[i]);
            }
        }
        assert(ranked(e, rank));
        assert forall|i: int| 0 <= i < e.len() implies parent_in_range(e, #[trigger] e[i].parent) by {
            assert(parent_in_range(d, d[i].parent));
        }
        assert forall|i: int| 0 <= i < e.len() implies #[trigger] agrees(e, i) by {
            assert(agrees(d, i));
            assert forall|j: int| 0 <= j < e[i].children.len() implies e[#[trigger] e[i].children[j]].parent
                == Some(i) by {
                let m = choose|m: int| 0 <= m < d[i].children.len() && #[trigger] d[i].children[m] == e[i].children[j];
                assert(d[d[i].children[m]].parent == Some(i));
            }
            if e[i].parent is Some {
                let x = d[i].parent->0;
                assert(parent_in_range(d, d[i].parent));
                assert(d[x].children.contains(i));
                if x == q {
                    assert(w.contains(i));
                }
            }
        }
    }
}

pub proof fn appending_keeps_trees(d: Seq<NodeModel>, p: int, c: int)
    requires
        tree_like(d),
        known(d, p),
        known(d, c),
        !ids(subtree(d, c)).contains(p),
    ensures
        tree_like(appended(d, p, c)),
{
    let e = detached(d, c);
    detaching_keeps_trees(d, c);
    subtree_step(d, c);
    ids_step(subtree(d, c));
    let old_rank = choose|rank: Seq<nat>| ranked(d, rank);
    subtree_is_closed(d, old_rank, c);
    let inside = |i: int| ids(subtree(d, c)).contains(i);
    let rank: Seq<nat> = Seq::new(
        d.len(),
        |i: int|
            if inside(i) {
                old_rank[i]
            } else {
                old_rank[i] + old_rank[c] + 1
            },
    );
    assert(ranked(e, old_rank));
    assert forall|i: int, j: int| 0 <= i < e.len() && 0 <= j < e[i].children.len() implies rank[
        #[trigger] e[i].children[j]] < rank[i] by {
        let x = e[i].children[j];
        assert(0 <= x < e.len());
        assert(old_rank[e[i].children[j]] < old_rank[i]);
        assert(agrees(e, i));
        assert(e[e[i].children[j]].parent == Some(i));
        assert(d[x].parent == Some(i));
        assert(agrees(d, x));
        if inside(i) {
            let k = choose|k: int| 0 <= k < d[i].children.len() && d[i].children[k] == x;
            assert(ids(subtree(d, c)).contains(d[i].children[k]));
        }
    }
    assert(rank[c] < rank[p]);
    attaching_keeps_trees(e, p, c, rank);
}

/// Hanging a node without a parent on another one keeps trees, where the ranks allow it.
proof fn attaching_keeps_trees(e: Seq<NodeModel>, p: int, c: int, rank: Seq<nat>)
    requires
        tree_like(e),
        known(e, p),
        known(e, c),
        e[c].parent is None,
        ranked(e, rank),
        rank[c] < rank[p],
    ensures
        ({
            let f = e.update(c, NodeModel { parent: Some(p), ..e[c] });
            tree_like(f.update(p, NodeModel { children: f[p].children.push(c), ..f[p] }))
        }),
{
    let g = e.update(c, NodeModel { parent: Some(p), ..e[c] });
    let f = g.update(p, NodeModel { children: g[p].children.push(c), ..g[p] });
    assert(p != c);
    let n = e[p].children.len() as int;
    assert forall|i: int, j: int| 0 <= i < f.len() && 0 <= j < f[i].children.len() implies
        #[trigger] f[i].children[j] == (if i == p && j == n { c } else { e[i].children[j] }) by {}
    assert forall|i: int, j: int| 0 <= i < f.len() && 0 <= j < f[i].children.len() implies 0
        <= #[trigger] f[i].children[j] < f.len() && rank[f[i].children[j]] < rank[i]
        && f[f[i].children[j]].parent == Some(i) by {
        if !(i == p && j == n) {
            assert(agrees(e, i));
            assert(e[e[i].children[j]].parent == Some(i));
        }
    }
    assert(ranked(f, rank));
    assert forall|i: int| 0 <= i < f.len() implies parent_in_range(f, #[trigger] f[i].parent) by {
        assert(parent_in_range(e, e[i].parent));
    }
    assert forall|i: int| 0 <= i < f.len() implies #[trigger] agrees(f, i) by {
        assert(agrees(e, i));
        if i == p {
            assert forall|a: int, b: int| 0 <= a < b < f[i].children.len() implies f[i].children[a]
                != f[i].children[b] by {
                if b == n {
                    assert(e[e[p].children[a]].parent == Some(p));
                }
            }
        }
        if i == c {
            assert(f[p].children[n] == c);
        } else if f[i].parent is Some {
            let q = f[i].parent->0;
            assert(parent_in_range(e, e[i].parent));
            let k = choose|k: int| 0 <= k < e[q].children.len() && e[q].children[k] == i;
            assert(f[q].children[k] == i);
        }
    }
}

/// Taking a child from its parent, or a node without a parent from any node,
/// keeps trees.
pub proof fn removing_keeps_trees(d: Seq<NodeModel>, p: int, c: int)
    requires
        tree_like(d),
        known(d, p),
        known(d, c),
        d[c].parent == Some(p) || d[c].parent is None,
    ensures
        tree_like(removed(d, p, c)),
{
    detaching_keeps_trees(d, c);
    if d[c].parent is None {
        assert(agrees(d, p));
        assert forall|j: int| 0 <= j < d[p].children.len() implies d[p].children[j] != c by {
            assert(d[d[p].children[j]].parent == Some(p));
        }
        without_keeps_the_rest(d[p].children, c);
        assert(removed(d, p, c) =~= d);
    } else {
        assert(removed(d, p, c) =~= detached(d, c));
    }
}

/// Taking a node from a list leaves no walk without an end.
pub proof fn dropping_keeps_walks(d: Seq<NodeModel>, e: Seq<NodeModel>, c: int)
    requires
        acyclic(d),
        d.len() == e.len(),
        forall|i: int|
            0 <= i < d.len() ==> (#[trigger] e[i]).children == d[i].children || e[i].children
                == without(d[i].children, c),
    ensures
        forall|rank: Seq<nat>| #[trigger] ranked(d, rank) ==> ranked(e, rank),
        acyclic(e),
{
    assert forall|rank: Seq<nat>| #[trigger] ranked(d, rank) implies ranked(e, rank) by {
        assert forall|i: int, j: int| 0 <= i < e.len() && 0 <= j < e[i].children.len() implies rank[
            #[trigger] e[i].children[j]] < rank[i] by {
            without_keeps_the_rest(d[i].children, c);
            let x = e[i].children[j];
            assert(e[i].children.contains(x));
            assert(d[i].children.contains(x));
            let k = choose|k: int| 0 <= k < d[i].children.len() && d[i].children[k] == x;
            assert(rank[d[i].children[k]] < rank[i]);
        }
    }
    let rank = choose|rank: Seq<nat>| ranked(d, rank);
    assert(ranked(e, rank));
}

/// Hanging a node on one that is not below it leaves no walk without an end.
pub proof fn appending_keeps_walks(d: Seq<NodeModel>, p: int, c: int)
    requires
        walkable(d),
        0 <= p < d.len(),
        0 <= c < d.len(),
        !ids(subtree(d, c)).contains(p),
    ensures
        acyclic(appended(d, p, c)),
{
    let e = detached(d, c);
    assert(parent_in_range(d, d[c].parent));
    dropping_keeps_walks(d, e, c);
    let old_rank = choose|rank: Seq<nat>| ranked(d, rank);
    subtree_is_walked(d, old_rank, c);
    subtree_step(d, c);
    ids_step(subtree(d, c));
    let inside = |i: int| ids(subtree(d, c)).contains(i);
    let rank: Seq<nat> = Seq::new(
        d.len(),
        |i: int|
            if inside(i) {
                old_rank[i]
            } else {
                old_rank[i] + old_rank[c] + 1
            },
    );
    assert(inside(c));
    assert(rank[c] < rank[p]);
    let f = appended(d, p, c);
    assert(ranked(e, old_rank));
    assert forall|i: int, j: int| 0 <= i < f.len() && 0 <= j < f[i].children.len() implies rank[
        #[trigger] f[i].children[j]] < rank[i] by {
        if i == p && j == e[p].children.len() {
            assert(f[i].children[j] == c);
        } else {
            let x = e[i].children[j];
            assert(f[i].children[j] == x);
            assert(old_rank[e[i].children[j]] < old_rank[i]);
            without_keeps_the_rest(d[i].children, c);
            assert(e[i].children.contains(x));
            assert(d[i].children.contains(x));
            let k = choose|k: int| 0 <= k < d[i].children.len() && d[i].children[k] == x;
            assert(0 <= d[i].children[k] < d.len());
            if inside(i) {
                assert(ids(subtree(d, c)).contains(d[i].children[k]));
            }
        }
    }
    assert(ranked(f, rank));
}

} // verus!
