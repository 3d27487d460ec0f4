//! The mathematical model of a document: a table of nodes linked by position.
use crate::dom::html::{kind_fits, HtmlTree, Kind};
use vstd::prelude::*;

verus! {

/// One entry of the node table.
#[verifier::ext_equal]
pub struct NodeModel {
    pub kind: Kind,
    pub parent: Option<int>,
    pub children: Seq<int>,
    /// Whether the node can still be reached by its id.
    pub live: bool,
}

/// `id` stands for a node that has not been forgotten.
pub open spec fn known(d: Seq<NodeModel>, id: int) -> bool {
    0 <= id < d.len() && d[id].live
}

/// Every link of the table leads to an entry of the table.
pub open spec fn linked(d: Seq<NodeModel>) -> bool {
    &&& d.len() <= u32::MAX
    &&& forall|i: int, j: int|
        0 <= i < d.len() && 0 <= j < d[i].children.len() ==> 0 <= #[trigger] d[i].children[j]
            < d.len()
    &&& forall|i: int| 0 <= i < d.len() ==> parent_in_range(d, #[trigger] d[i].parent)
}

pub open spec fn parent_in_range(d: Seq<NodeModel>, p: Option<int>) -> bool {
    p is Some ==> 0 <= p->0 < d.len()
}

/// Every child has a smaller rank than its parent.
pub open spec fn ranked(d: Seq<NodeModel>, rank: Seq<nat>) -> bool {
    &&& rank.len() == d.len()
    &&& forall|i: int, j: int|
        0 <= i < d.len() && 0 <= j < d[i].children.len() ==> rank[#[trigger] d[i].children[j]]
            < rank[i]
}

/// No node stands below itself.
pub open spec fn acyclic(d: Seq<NodeModel>) -> bool {
    exists|rank: Seq<nat>| ranked(d, rank)
}

/// A node's links agree with those of its neighbours.
pub open spec fn agrees(d: Seq<NodeModel>, i: int) -> bool {
    &&& forall|j: int|
        0 <= j < d[i].children.len() ==> d[#[trigger] d[i].children[j]].parent == Some(i)
    &&& d[i].children.no_duplicates()
    &&& d[i].parent is Some ==> d[d[i].parent->0].children.contains(i)
    &&& !d[i].live ==> d[i].parent is None && d[i].children.len() == 0
}

/// The table is a set of trees.
pub open spec fn tree_like(d: Seq<NodeModel>) -> bool {
    &&& linked(d)
    &&& acyclic(d)
    &&& forall|i: int| 0 <= i < d.len() ==> #[trigger] agrees(d, i)
}

/// Every walk from a node to its children, their children and so on ends.
pub open spec fn walkable(d: Seq<NodeModel>) -> bool {
    linked(d) && acyclic(d)
}

/// Every text of the document fits the serializer.
pub open spec fn texts_fit(d: Seq<NodeModel>) -> bool {
    forall|i: int| 0 <= i < d.len() ==> kind_fits((#[trigger] d[i]).kind)
}

/// The table is that of a document: its first node is the document node, and no
/// other node is one.
pub open spec fn rooted(d: Seq<NodeModel>) -> bool {
    &&& d.len() > 0
    &&& d[0].kind == Kind::Document
    &&& forall|i: int| 0 < i < d.len() ==> (#[trigger] d[i]).kind != Kind::Document
}

/// The first node hangs on no other.
pub open spec fn topped(d: Seq<NodeModel>) -> bool {
    forall|i: int, j: int|
        0 <= i < d.len() && 0 <= j < d[i].children.len() ==> #[trigger] d[i].children[j] != 0
}

/// Ids are handed out once: an id that was forgotten stays forgotten.
pub open spec fn evolves(d: Seq<NodeModel>, e: Seq<NodeModel>) -> bool {
    &&& d.len() <= e.len()
    &&& forall|i: int| 0 <= i < d.len() && (#[trigger] e[i]).live ==> d[i].live
}

// ---- subtrees ------------------------------------------------------------

/// A node with everything below it, each node with its id.
#[verifier::ext_equal]
pub struct IdTree {
    pub id: int,
    pub kind: Kind,
    pub children: Seq<IdTree>,
}

pub open spec fn ranked_subtree(d: Seq<NodeModel>, rank: Seq<nat>, id: int) -> IdTree
    decreases rank[id],
{
    IdTree {
        id,
        kind: d[id].kind,
        children: Seq::new(
            d[id].children.len(),
            |j: int|
                if 0 <= j < d[id].children.len() && rank[d[id].children[j]] < rank[id] {
                    ranked_subtree(d, rank, d[id].children[j])
                } else {
                    IdTree { id: d[id].children[j], kind: Kind::Document, children: seq![] }
                },
        ),
    }
}

/// The node `id` of the document with everything below it.
pub open spec fn subtree(d: Seq<NodeModel>, id: int) -> IdTree {
    ranked_subtree(d, choose|rank: Seq<nat>| ranked(d, rank), id)
}

/// A tree without its ids.
pub open spec fn plain(t: IdTree) -> HtmlTree
    decreases t,
{
    HtmlTree {
        kind: t.kind,
        children: Seq::new(
            t.children.len(),
            |j: int|
                if 0 <= j < t.children.len() {
                    plain(t.children[j])
                } else {
                    HtmlTree { kind: Kind::Document, children: seq![] }
                },
        ),
    }
}

/// The ids of the nodes of `t` whose kind satisfies `p`, parents before their
/// children and siblings in order.
pub open spec fn found(t: IdTree, p: spec_fn(Kind) -> bool) -> Seq<int>
    decreases t, t.children.len() + 1,
{
    (if p(t.kind) {
        seq![t.id]
    } else {
        seq![]
    }) + found_below(t, t.children.len(), p)
}

/// As [`found`], in the first `n` subtrees below the root of `t`.
pub open spec fn found_below(t: IdTree, n: nat, p: spec_fn(Kind) -> bool) -> Seq<int>
    decreases t, n,
{
    if n == 0 || n > t.children.len() {
        seq![]
    } else {
        found_below(t, (n - 1) as nat, p) + found(t.children[n - 1], p)
    }
}

/// Holds of every kind.
pub open spec fn any_kind() -> spec_fn(Kind) -> bool {
    |k: Kind| true
}

/// All ids of a tree.
pub open spec fn ids(t: IdTree) -> Seq<int> {
    found(t, any_kind())
}

/// The text of a text node.
pub open spec fn own_text(k: Kind) -> Seq<char> {
    match k {
        Kind::Text(t) => t,
        _ => seq![],
    }
}

/// The elements whose text is never shown.
pub open spec fn hides_text(k: Kind) -> bool {
    k matches Kind::Element { tag, .. } && (tag == "script"@ || tag == "style"@ || tag
        == "noscript"@ || tag == "template"@)
}

/// The text of all text nodes of `t`; without those inside elements that hide
/// their text, unless `raw`.
pub open spec fn text_of(t: IdTree, raw: bool) -> Seq<char>
    decreases t, t.children.len() + 1,
{
    if !raw && hides_text(t.kind) {
        seq![]
    } else {
        own_text(t.kind) + text_below(t, t.children.len(), raw)
    }
}

/// As [`text_of`], in the first `n` subtrees below the root of `t`.
pub open spec fn text_below(t: IdTree, n: nat, raw: bool) -> Seq<char>
    decreases t, n,
{
    if n == 0 || n > t.children.len() {
        seq![]
    } else {
        text_below(t, (n - 1) as nat, raw) + text_of(t.children[n - 1], raw)
    }
}

/// The ids of `s` that are still known.
pub open spec fn known_only(d: Seq<NodeModel>, s: Seq<int>) -> Seq<int>
    decreases s.len(),
{
    if s.len() == 0 {
        seq![]
    } else if d[s.last()].live {
        known_only(d, s.drop_last()).push(s.last())
    } else {
        known_only(d, s.drop_last())
    }
}

/// The first node of `t` whose kind satisfies `p`, where it is still known. What is
/// below a node that satisfies `p` is not looked at.
pub open spec fn first_named(d: Seq<NodeModel>, t: IdTree, p: spec_fn(Kind) -> bool) -> Option<int>
    decreases t, t.children.len() + 1,
{
    if p(t.kind) {
        if d[t.id].live {
            Some(t.id)
        } else {
            None
        }
    } else {
        first_named_below(d, t, t.children.len(), p)
    }
}

/// As [`first_named`], in the first `n` subtrees below the root of `t`.
pub open spec fn first_named_below(
    d: Seq<NodeModel>,
    t: IdTree,
    n: nat,
    p: spec_fn(Kind) -> bool,
) -> Option<int>
    decreases t, n,
{
    if n == 0 || n > t.children.len() {
        None
    } else {
        match first_named_below(d, t, (n - 1) as nat, p) {
            Some(i) => Some(i),
            None => first_named(d, t.children[n - 1], p),
        }
    }
}

pub proof fn known_only_adds(d: Seq<NodeModel>, a: Seq<int>, b: Seq<int>)
    ensures
        known_only(d, a + b) == known_only(d, a) + known_only(d, b),
    decreases b.len(),
{
    if b.len() == 0 {
        assert(a + b =~= a);
        assert(known_only(d, a) + known_only(d, b) =~= known_only(d, a));
    } else {
        known_only_adds(d, a, b.drop_last());
        assert((a + b).drop_last() =~= a + b.drop_last());
        assert((a + b).last() == b.last());
        assert(known_only(d, a + b) =~= known_only(d, a) + known_only(d, b));
    }
}

/// A single id is kept where it is known.
pub proof fn known_only_one(d: Seq<NodeModel>, x: int)
    ensures
        known_only(d, seq![x]) == (if d[x].live {
            seq![x]
        } else {
            seq![]
        }),
{
    let s = seq![x];
    assert(s.drop_last() =~= seq![]);
    assert(known_only(d, s.drop_last()) =~= seq![]);
    assert(s.last() == x);
    assert(known_only(d, s) =~= (if d[x].live {
        seq![x]
    } else {
        seq![]
    }));
}

/// The known ids of a list are those of its ids that are known.
pub proof fn known_only_picks(d: Seq<NodeModel>, s: Seq<int>)
    ensures
        forall|x: int| #[trigger] known_only(d, s).contains(x) <==> s.contains(x) && d[x].live,
        (forall|i: int| 0 <= i < s.len() ==> d[#[trigger] s[i]].live) ==> known_only(d, s) == s,
    decreases s.len(),
{
    if s.len() > 0 {
        let front = s.drop_last();
        known_only_picks(d, front);
        let a = known_only(d, front);
        let b = known_only(d, s);
        assert(s =~= front.push(s.last()));
        assert forall|x: int| #[trigger] b.contains(x) <==> s.contains(x) && d[x].live by {
            if b.contains(x) {
                let k = choose|k: int| 0 <= k < b.len() && b[k] == x;
                if k < a.len() {
                    assert(a[k] == x);
                    assert(a.contains(x));
                    let m = choose|m: int| 0 <= m < front.len() && front[m] == x;
                    assert(s[m] == x);
                } else {
                    assert(s[s.len() - 1] == x);
                }
            }
            if s.contains(x) && d[x].live {
                let k = choose|k: int| 0 <= k < s.len() && s[k] == x;
                if k < front.len() {
                    assert(front[k] == x);
                    assert(a.contains(x));
                    let m = choose|m: int| 0 <= m < a.len() && a[m] == x;
                    assert(b[m] == x);
                } else {
                    assert(b[a.len() as int] == x);
                }
            }
        }
        if forall|i: int| 0 <= i < s.len() ==> d[#[trigger] s[i]].live {
            assert forall|i: int| 0 <= i < front.len() implies d[#[trigger] front[i]].live by {
                assert(front[i] == s[i]);
            }
            assert(s[s.len() - 1] == s.last());
        }
    }
}

/// The subtree does not depend on how nodes are ranked.
pub proof fn rank_is_irrelevant(d: Seq<NodeModel>, r1: Seq<nat>, r2: Seq<nat>, id: int)
    requires
        linked(d),
        ranked(d, r1),
        ranked(d, r2),
        0 <= id < d.len(),
    ensures
        ranked_subtree(d, r1, id) == ranked_subtree(d, r2, id),
    decreases r1[id],
{
    let a = ranked_subtree(d, r1, id).children;
    let b = ranked_subtree(d, r2, id).children;
    assert forall|j: int| 0 <= j < a.len() implies a[j] == b[j] by {
        let c = d[id].children[j];
        assert(r1[c] < r1[id] && r2[c] < r2[id]);
        rank_is_irrelevant(d, r1, r2, c);
    }
    assert(a =~= b);
}

/// What the subtree of a node is, one level down.
pub proof fn subtree_step(d: Seq<NodeModel>, id: int)
    requires
        linked(d),
        acyclic(d),
        0 <= id < d.len(),
    ensures
        subtree(d, id).id == id,
        subtree(d, id).kind == d[id].kind,
        subtree(d, id).children.len() == d[id].children.len(),
        forall|j: int|
            0 <= j < d[id].children.len() ==> #[trigger] subtree(d, id).children[j] == subtree(
                d,
                d[id].children[j],
            ),
{
    let rank = choose|rank: Seq<nat>| ranked(d, rank);
    assert forall|j: int| 0 <= j < d[id].children.len() implies #[trigger] subtree(
        d,
        id,
    ).children[j] == subtree(d, d[id].children[j]) by {
        assert(rank[d[id].children[j]] < rank[id]);
    }
}

/// Documents with the same links and kinds below a node have the same subtree there.
pub proof fn subtree_frame(d: Seq<NodeModel>, e: Seq<NodeModel>, id: int)
    requires
        linked(d),
        acyclic(d),
        linked(e),
        acyclic(e),
        0 <= id < d.len(),
        d.len() <= e.len(),
        forall|i: int|
            #![trigger e[i]]
            ids(subtree(d, id)).contains(i) ==> e[i].kind == d[i].kind && e[i].children
                == d[i].children,
    ensures
        subtree(e, id) == subtree(d, id),
    decreases (choose|rank: Seq<nat>| ranked(d, rank))[id],
{
    let rank = choose|rank: Seq<nat>| ranked(d, rank);
    subtree_step(d, id);
    subtree_step(e, id);
    let t = subtree(d, id);
    ids_step(t);
    assert(ids(t).contains(id));
    assert(e[id].children == d[id].children);
    assert forall|j: int| 0 <= j < t.children.len() implies #[trigger] subtree(e, id).children[j]
        == t.children[j] by {
        let c = d[id].children[j];
        assert(rank[c] < rank[id]);
        assert forall|i: int|
            #![trigger e[i]]
            ids(subtree(d, c)).contains(i) implies e[i].kind == d[i].kind && e[i].children
            == d[i].children by {
            assert(t.children[j] == subtree(d, c));
            assert(ids(t.children[j]).contains(i));
            assert(ids(t).contains(i));
        }
        subtree_frame(d, e, c);
    }
    assert(subtree(e, id).children =~= t.children);
}

/// The ids of a tree are its root and the ids of the subtrees below.
pub proof fn ids_step(t: IdTree)
    ensures
        ids(t).contains(t.id),
        forall|j: int, i: int|
            0 <= j < t.children.len() && #[trigger] ids(t.children[j]).contains(i) ==> ids(
                t,
            ).contains(i),
        forall|i: int|
            #[trigger] ids(t).contains(i) ==> i == t.id || exists|j: int|
                0 <= j < t.children.len() && #[trigger] ids(t.children[j]).contains(i),
{
    let p = any_kind();
    ids_below(t, t.children.len());
    let rest = found_below(t, t.children.len(), p);
    assert(ids(t) == seq![t.id] + rest);
    assert(ids(t)[0] == t.id);
    assert forall|j: int, i: int|
        0 <= j < t.children.len() && #[trigger] ids(t.children[j]).contains(i) implies ids(
        t,
    ).contains(i) by {
        assert(rest.contains(i));
        let k = choose|k: int| 0 <= k < rest.len() && rest[k] == i;
        assert(ids(t)[k + 1] == i);
    }
    assert forall|i: int| #[trigger] ids(t).contains(i) implies i == t.id || exists|j: int|
        0 <= j < t.children.len() && #[trigger] ids(t.children[j]).contains(i) by {
        let k = choose|k: int| 0 <= k < ids(t).len() && ids(t)[k] == i;
        if k > 0 {
            assert(rest[k - 1] == i);
            assert(rest.contains(i));
        }
    }
}

proof fn ids_below(t: IdTree, n: nat)
    requires
        n <= t.children.len(),
    ensures
        forall|j: int, i: int|
            0 <= j < n && #[trigger] ids(t.children[j]).contains(i) ==> found_below(t, n, any_kind()).contains(i),
        forall|i: int|
            #[trigger] found_below(t, n, any_kind()).contains(i) ==> exists|j: int|
                0 <= j < n && #[trigger] ids(t.children[j]).contains(i),
    decreases n,
{
    let p = any_kind();
    if n > 0 {
        let m = (n - 1) as nat;
        ids_below(t, m);
        let a = found_below(t, m, p);
        let b = ids(t.children[m as int]);
        let all = found_below(t, n, p);
        assert(all == a + b);
        assert forall|j: int, i: int|
            0 <= j < n && #[trigger] ids(t.children[j]).contains(i) implies all.contains(i) by {
            if j < m {
                assert(a.contains(i));
                let k = choose|k: int| 0 <= k < a.len() && a[k] == i;
                assert(all[k] == i);
            } else {
                let k = choose|k: int| 0 <= k < b.len() && b[k] == i;
                assert(all[a.len() + k] == i);
            }
        }
        assert forall|i: int| #[trigger] all.contains(i) implies exists|j: int|
            0 <= j < n && #[trigger] ids(t.children[j]).contains(i) by {
            let k = choose|k: int| 0 <= k < all.len() && all[k] == i;
            if k < a.len() {
                assert(a[k] == i);
                assert(a.contains(i));
            } else {
                assert(b[k - a.len()] == i);
                assert(ids(t.children[m as int]).contains(i));
            }
        }
    }
}

/// Whatever is found at or below a known node is known.
pub proof fn found_is_known(
    d: Seq<NodeModel>,
    rank: Seq<nat>,
    id: int,
    p: spec_fn(Kind) -> bool,
)
    requires
        tree_like(d),
        ranked(d, rank),
        known(d, id),
    ensures
        forall|i: int|
            0 <= i < found(subtree(d, id), p).len() ==> known(
                d,
                #[trigger] found(subtree(d, id), p)[i],
            ),
    decreases rank[id], d[id].children.len() + 1,
{
    subtree_step(d, id);
    found_below_is_known(d, rank, id, d[id].children.len(), p);
    let t = subtree(d, id);
    let rest = found_below(t, t.children.len(), p);
    assert forall|i: int| 0 <= i < found(t, p).len() implies known(d, #[trigger] found(t, p)[i]) by {
        if p(t.kind) && i > 0 {
            assert(found(t, p)[i] == rest[i - 1]);
        }
        if !p(t.kind) {
            assert(found(t, p)[i] == rest[i]);
        }
    }
}

pub proof fn found_below_is_known(
    d: Seq<NodeModel>,
    rank: Seq<nat>,
    id: int,
    n: nat,
    p: spec_fn(Kind) -> bool,
)
    requires
        tree_like(d),
        ranked(d, rank),
        known(d, id),
        n <= d[id].children.len(),
    ensures
        forall|i: int|
            0 <= i < found_below(subtree(d, id), n, p).len() ==> known(
                d,
                #[trigger] found_below(subtree(d, id), n, p)[i],
            ),
    decreases rank[id], n,
{
    subtree_step(d, id);
    if n > 0 {
        let c = d[id].children[n - 1];
        assert(agrees(d, id));
        assert(d[d[id].children[n - 1]].parent == Some(id));
        assert(agrees(d, c));
        assert(rank[d[id].children[n - 1]] < rank[id]);
        found_below_is_known(d, rank, id, (n - 1) as nat, p);
        found_is_known(d, rank, c, p);
        let t = subtree(d, id);
        assert(t.children[n - 1] == subtree(d, c));
        let a = found_below(t, (n - 1) as nat, p);
        let b = found(subtree(d, c), p);
        assert forall|i: int| 0 <= i < (a + b).len() implies known(d, #[trigger] (a + b)[i]) by {
            if i < a.len() {
                assert((a + b)[i] == a[i]);
            } else {
                assert((a + b)[i] == b[i - a.len()]);
            }
        }
    }
}

/// Whatever is found has the kind that was looked for.
pub proof fn found_satisfies(
    d: Seq<NodeModel>,
    rank: Seq<nat>,
    id: int,
    p: spec_fn(Kind) -> bool,
)
    requires
        linked(d),
        ranked(d, rank),
        0 <= id < d.len(),
    ensures
        forall|i: int|
            0 <= i < found(subtree(d, id), p).len() ==> p(
                d[#[trigger] found(subtree(d, id), p)[i]].kind,
            ),
    decreases rank[id], d[id].children.len() + 1,
{
    subtree_step(d, id);
    found_below_satisfies(d, rank, id, d[id].children.len(), p);
    let t = subtree(d, id);
    let rest = found_below(t, t.children.len(), p);
    assert forall|i: int| 0 <= i < found(t, p).len() implies p(
        d[#[trigger] found(t, p)[i]].kind,
    ) by {
        if p(t.kind) && i > 0 {
            assert(found(t, p)[i] == rest[i - 1]);
        }
        if !p(t.kind) {
            assert(found(t, p)[i] == rest[i]);
        }
    }
}

pub proof fn found_below_satisfies(
    d: Seq<NodeModel>,
    rank: Seq<nat>,
    id: int,
    n: nat,
    p: spec_fn(Kind) -> bool,
)
    requires
        linked(d),
        ranked(d, rank),
        0 <= id < d.len(),
        n <= d[id].children.len(),
    ensures
        forall|i: int|
            0 <= i < found_below(subtree(d, id), n, p).len() ==> p(
                d[#[trigger] found_below(subtree(d, id), n, p)[i]].kind,
            ),
    decreases rank[id], n,
{
    subtree_step(d, id);
    if n > 0 {
        let c = d[id].children[n - 1];
        assert(rank[d[id].children[n - 1]] < rank[id]);
        found_below_satisfies(d, rank, id, (n - 1) as nat, p);
        found_satisfies(d, rank, c, p);
        let t = subtree(d, id);
        assert(t.children[n - 1] == subtree(d, c));
        let a = found_below(t, (n - 1) as nat, p);
        let b = found(subtree(d, c), p);
        assert forall|i: int| 0 <= i < (a + b).len() implies p(d[#[trigger] (a + b)[i]].kind) by {
            if i < a.len() {
                assert((a + b)[i] == a[i]);
            } else {
                assert((a + b)[i] == b[i - a.len()]);
            }
        }
    }
}

/// Where every node is known, the first that is found is the first of all.
pub proof fn first_named_is_found(
    d: Seq<NodeModel>,
    rank: Seq<nat>,
    id: int,
    p: spec_fn(Kind) -> bool,
)
    requires
        tree_like(d),
        ranked(d, rank),
        known(d, id),
    ensures
        ({
            let f = found(subtree(d, id), p);
            first_named(d, subtree(d, id), p) == (if f.len() > 0 {
                Some(f[0])
            } else {
                None
            })
        }),
    decreases rank[id], d[id].children.len() + 1,
{
    subtree_step(d, id);
    let t = subtree(d, id);
    let n = t.children.len();
    if p(t.kind) {
        assert(found(t, p)[0] == id);
    } else {
        first_named_below_is_found(d, rank, id, n, p);
        assert(found(t, p) =~= found_below(t, n, p));
    }
}

proof fn first_named_below_is_found(
    d: Seq<NodeModel>,
    rank: Seq<nat>,
    id: int,
    n: nat,
    p: spec_fn(Kind) -> bool,
)
    requires
        tree_like(d),
        ranked(d, rank),
        known(d, id),
        n <= d[id].children.len(),
    ensures
        ({
            let f = found_below(subtree(d, id), n, p);
            first_named_below(d, subtree(d, id), n, p) == (if f.len() > 0 {
                Some(f[0])
            } else {
                None
            })
        }),
    decreases rank[id], n,
{
    subtree_step(d, id);
    if n > 0 {
        let c = d[id].children[n - 1];
        assert(agrees(d, id));
        assert(d[d[id].children[n - 1]].parent == Some(id));
        assert(agrees(d, c));
        assert(rank[d[id].children[n - 1]] < rank[id]);
        first_named_below_is_found(d, rank, id, (n - 1) as nat, p);
        first_named_is_found(d, rank, c, p);
        let t = subtree(d, id);
        assert(t.children[n - 1] == subtree(d, c));
        let a = found_below(t, (n - 1) as nat, p);
        let b = found(subtree(d, c), p);
        assert(found_below(t, n, p) == a + b);
        if a.len() > 0 {
            assert((a + b)[0] == a[0]);
        } else if b.len() > 0 {
            assert((a + b)[0] == b[0]);
        }
    }
}

/// Whatever is found stands in the table.
pub proof fn found_is_placed(
    d: Seq<NodeModel>,
    rank: Seq<nat>,
    id: int,
    p: spec_fn(Kind) -> bool,
)
    requires
        linked(d),
        ranked(d, rank),
        0 <= id < d.len(),
    ensures
        forall|i: int|
            0 <= i < found(subtree(d, id), p).len() ==> 0 <= #[trigger] found(subtree(d, id), p)[i]
                < d.len(),
    decreases rank[id], d[id].children.len() + 1,
{
    subtree_step(d, id);
    found_below_is_placed(d, rank, id, d[id].children.len(), p);
    let t = subtree(d, id);
    let rest = found_below(t, t.children.len(), p);
    assert forall|i: int| 0 <= i < found(t, p).len() implies 0 <= #[trigger] found(t, p)[i]
        < d.len() by {
        if p(t.kind) && i > 0 {
            assert(found(t, p)[i] == rest[i - 1]);
        }
        if !p(t.kind) {
            assert(found(t, p)[i] == rest[i]);
        }
    }
}

pub proof fn found_below_is_placed(
    d: Seq<NodeModel>,
    rank: Seq<nat>,
    id: int,
    n: nat,
    p: spec_fn(Kind) -> bool,
)
    requires
        linked(d),
        ranked(d, rank),
        0 <= id < d.len(),
        n <= d[id].children.len(),
    ensures
        forall|i: int|
            0 <= i < found_below(subtree(d, id), n, p).len() ==> 0 <= #[trigger] found_below(
                subtree(d, id),
                n,
                p,
            )[i] < d.len(),
    decreases rank[id], n,
{
    subtree_step(d, id);
    if n > 0 {
        let c = d[id].children[n - 1];
        assert(rank[d[id].children[n - 1]] < rank[id]);
        found_below_is_placed(d, rank, id, (n - 1) as nat, p);
        found_is_placed(d, rank, c, p);
        let t = subtree(d, id);
        assert(t.children[n - 1] == subtree(d, c));
        let a = found_below(t, (n - 1) as nat, p);
        let b = found(subtree(d, c), p);
        assert forall|i: int| 0 <= i < (a + b).len() implies 0 <= #[trigger] (a + b)[i]
            < d.len() by {
            if i < a.len() {
                assert((a + b)[i] == a[i]);
            } else {
                assert((a + b)[i] == b[i - a.len()]);
            }
        }
    }
}

} // verus!
