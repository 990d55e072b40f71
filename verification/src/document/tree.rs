//! The tree document: nodes kept by id, each naming its parent and its
//! children, beside the CRDT document that will carry them.

use vstd::prelude::*;
use std::collections::HashMap;
use std::collections::hash_map::Entry;
use crate::document::{Node, NodeId, NodeType, NodeContent, NodeTypeV};

verus! {

broadcast use vstd::std_specs::hash::group_hash_axioms;

/// `loro::LoroDoc`, the CRDT document a tree document holds; the library
/// carries it unread.
#[verifier::external_type_specification]
#[verifier::external_body]
pub struct ExLoroDoc(loro::LoroDoc);

/// `LoroDoc::new`: a fresh, empty CRDT document. Its peer id is random, so
/// nothing is stated of the result.
#[verifier::external_body]
fn new_loro_doc() -> loro::LoroDoc {
    loro::LoroDoc::new()
}

/// A tree document.
#[derive(Debug)]
pub struct TreeDoc {
    doc: loro::LoroDoc,
    root: NodeId,
    nodes: HashMap<u64, Node>,
    id_counter: u64,
}

/// The view of a tree document: the root's id, the nodes by id, and the
/// next id to hand out.
pub struct TreeDocV {
    pub root: u64,
    pub nodes: Map<u64, Node>,
    pub id_counter: u64,
}

impl View for TreeDoc {
    type V = TreeDocV;

    closed spec fn view(&self) -> TreeDocV {
        TreeDocV { root: self.root.0, nodes: self.nodes@, id_counter: self.id_counter }
    }
}

/// A node just made: the given id, type and content, no links, default
/// metadata.
pub open spec fn fresh_node(n: Node, id: NodeId, t: NodeTypeV, c: NodeContent) -> bool {
    &&& n.id == id
    &&& n.parent is None
    &&& n.children@.len() == 0
    &&& n.node_type@ == t
    &&& n.content == c
    &&& !n.meta.collapsed
    &&& !n.meta.deleted
    &&& n.meta.attrs@ == Map::<String, serde_json::Value>::empty()
}

/// Two nodes agree on everything but their links.
pub open spec fn same_body(a: Node, b: Node) -> bool {
    &&& a.id == b.id
    &&& a.node_type == b.node_type
    &&& a.content == b.content
    &&& a.meta == b.meta
}

/// The first index at or after `k` where `s` holds `x`.
pub open spec fn index_from(s: Seq<NodeId>, x: NodeId, k: int) -> Option<int>
    decreases s.len() - k,
{
    if 0 <= k < s.len() {
        if s[k] == x {
            Some(k)
        } else {
            index_from(s, x, k + 1)
        }
    } else {
        None
    }
}

/// The parent's id of node `k`.
pub open spec fn parent_key(m: Map<u64, Node>, k: u64) -> Option<u64> {
    if m.contains_key(k) {
        match m[k].parent {
            Some(p) => Some(p.0),
            None => None,
        }
    } else {
        None
    }
}

/// The id after `id` among its parent's children (after the first
/// occurrence of `id` there).
pub open spec fn next_sibling_key(m: Map<u64, Node>, id: NodeId) -> Option<u64> {
    match parent_key(m, id.0) {
        Some(p) => if m.contains_key(p) {
            let cs = m[p].children@;
            match index_from(cs, id, 0) {
                Some(i) => if i + 1 < cs.len() {
                    Some(cs[i + 1].0)
                } else {
                    None
                },
                None => None,
            }
        } else {
            None
        },
        None => None,
    }
}

/// The number of parent links followed from `k` until a node without a
/// parent (or an id with no node); `None` when that takes more than `fuel`
/// links.
pub open spec fn chain_depth(m: Map<u64, Node>, k: u64, fuel: nat) -> Option<nat>
    decreases fuel,
{
    if !m.contains_key(k) {
        Some(0)
    } else {
        match m[k].parent {
            None => Some(0),
            Some(p) => if fuel == 0 {
                None
            } else {
                match chain_depth(m, p.0, (fuel - 1) as nat) {
                    Some(d) => Some(d + 1),
                    None => None,
                }
            },
        }
    }
}

/// The chain from `k` ends within `fuel` links and its length fits in a
/// `usize`.
pub open spec fn depth_within(m: Map<u64, Node>, k: u64, fuel: nat) -> bool {
    chain_depth(m, k, fuel) matches Some(d) && d <= usize::MAX
}

/// The depth of `k`: its chain depth with enough fuel.
pub open spec fn depth_v(m: Map<u64, Node>, k: u64) -> nat {
    let f = choose|f: nat| chain_depth(m, k, f) is Some;
    chain_depth(m, k, f)->Some_0
}

/// Every chain from `k` through children ends within `fuel` levels.
pub open spec fn subtree_bounded(m: Map<u64, Node>, k: u64, fuel: nat) -> bool
    decreases fuel,
{
    !m.contains_key(k) || (fuel > 0 && forall|i: int|
        0 <= i < m[k].children@.len() ==> subtree_bounded(
            m,
            #[trigger] m[k].children@[i].0,
            (fuel - 1) as nat,
        ))
}

/// `b` is `a` with nodes removed and entries removed from child lists;
/// every node kept keeps its body.
pub open spec fn shrinks(a: Map<u64, Node>, b: Map<u64, Node>) -> bool {
    &&& b.dom().subset_of(a.dom())
    &&& forall|k: u64| #[trigger] b.contains_key(k) ==> same_body(a[k], b[k]) && forall|i: int|
        0 <= i < b[k].children@.len() ==> a[k].children@.contains(b[k].children@[i])
}

/// More fuel keeps a chain depth.
proof fn lemma_chain_depth_fuel(m: Map<u64, Node>, k: u64, f: nat, g: nat)
    requires
        chain_depth(m, k, f) is Some,
        f <= g,
    ensures
        chain_depth(m, k, g) == chain_depth(m, k, f),
    decreases f,
{
    if m.contains_key(k) {
        match m[k].parent {
            None => {},
            Some(p) => {
                lemma_chain_depth_fuel(m, p.0, (f - 1) as nat, (g - 1) as nat);
            },
        }
    }
}

/// Any fuel that ends a chain gives its depth.
proof fn lemma_depth_v(m: Map<u64, Node>, k: u64, f: nat)
    requires
        chain_depth(m, k, f) is Some,
    ensures
        chain_depth(m, k, f) == Some(depth_v(m, k)),
{
    let g = choose|g: nat| chain_depth(m, k, g) is Some;
    if f <= g {
        lemma_chain_depth_fuel(m, k, f, g);
    } else {
        lemma_chain_depth_fuel(m, k, g, f);
    }
}

/// A bounded subtree stays bounded when the map shrinks.
proof fn lemma_bounded_shrinks(a: Map<u64, Node>, b: Map<u64, Node>, k: u64, f: nat)
    requires
        subtree_bounded(a, k, f),
        shrinks(a, b),
    ensures
        subtree_bounded(b, k, f),
    decreases f,
{
    if b.contains_key(k) {
        assert(a.contains_key(k));
        assert(subtree_bounded(a, k, f));
        assert(a.contains_key(k) ==> f > 0);
        assert(f > 0);

        assert forall|i: int| 0 <= i < b[k].children@.len() implies subtree_bounded(
            b,
            #[trigger] b[k].children@[i].0,
            (f - 1) as nat,
        ) by {
            let c = b[k].children@[i];
            assert(a[k].children@.contains(c));
            let j = choose|j: int| 0 <= j < a[k].children@.len() && a[k].children@[j] == c;
            assert(subtree_bounded(a, a[k].children@[j].0, (f - 1) as nat));
            lemma_bounded_shrinks(a, b, c.0, (f - 1) as nat);
        }
        assert(subtree_bounded(b, k, f));
    }
}

/// Where `index_from` finds `x`, it is there.
proof fn lemma_index_from(s: Seq<NodeId>, x: NodeId, k: int)
    requires
        0 <= k,
    ensures
        index_from(s, x, k) matches Some(i) ==> k <= i < s.len() && s[i] == x,
    decreases s.len() - k,
{
    if 0 <= k < s.len() && s[k] != x {
        lemma_index_from(s, x, k + 1);
    }
}

/// `k` is `r` or lies below it, at most `fuel` child links down.
pub open spec fn in_subtree(m: Map<u64, Node>, r: u64, k: u64, fuel: nat) -> bool
    decreases fuel,
{
    k == r || (fuel > 0 && m.contains_key(r) && exists|i: int|
        0 <= i < m[r].children@.len() && in_subtree(
            m,
            #[trigger] m[r].children@[i].0,
            k,
            (fuel - 1) as nat,
        ))
}

/// `k` is `r` or lies below it.
pub open spec fn reachable(m: Map<u64, Node>, r: u64, k: u64) -> bool {
    exists|g: nat| #[trigger] in_subtree(m, r, k, g)
}

/// A subtree bounded within some number of levels.
pub open spec fn finite_subtree(m: Map<u64, Node>, r: u64) -> bool {
    exists|f: nat| #[trigger] subtree_bounded(m, r, f)
}

/// More fuel keeps a subtree bounded.
proof fn lemma_bounded_more_fuel(m: Map<u64, Node>, k: u64, f: nat, g: nat)
    requires
        subtree_bounded(m, k, f),
        f <= g,
    ensures
        subtree_bounded(m, k, g),
    decreases f,
{
    if m.contains_key(k) {
        assert forall|i: int| 0 <= i < m[k].children@.len() implies subtree_bounded(
            m,
            #[trigger] m[k].children@[i].0,
            (g - 1) as nat,
        ) by {
            lemma_bounded_more_fuel(m, m[k].children@[i].0, (f - 1) as nat, (g - 1) as nat);
        }
    }
}

/// Below a bounded node, every node is bounded with the same fuel.
proof fn lemma_bounded_descendant(m: Map<u64, Node>, r: u64, x: u64, f: nat, g: nat)
    requires
        subtree_bounded(m, r, f),
        in_subtree(m, r, x, g),
    ensures
        subtree_bounded(m, x, f),
    decreases g,
{
    if x != r {
        let i = choose|i: int|
            0 <= i < m[r].children@.len() && in_subtree(
                m,
                #[trigger] m[r].children@[i].0,
                x,
                (g - 1) as nat,
            );
        let c = m[r].children@[i].0;
        assert(subtree_bounded(m, c, (f - 1) as nat));
        lemma_bounded_descendant(m, c, x, (f - 1) as nat, (g - 1) as nat);
        lemma_bounded_more_fuel(m, x, (f - 1) as nat, f);
    }
}

/// A bounded node lies below none of its children.
proof fn lemma_no_cycle(m: Map<u64, Node>, r: u64, i: int, g: nat, f: nat)
    requires
        subtree_bounded(m, r, f),
        m.contains_key(r),
        0 <= i < m[r].children@.len(),
    ensures
        !in_subtree(m, m[r].children@[i].0, r, g),
    decreases f,
{
    let c = m[r].children@[i].0;
    if in_subtree(m, c, r, g) {
        assert(subtree_bounded(m, c, (f - 1) as nat));
        lemma_bounded_descendant(m, c, r, (f - 1) as nat, g);
        lemma_no_cycle(m, r, i, g, (f - 1) as nat);
    }
}

/// What lies below a node after shrinking already lay below it before.
proof fn lemma_subtree_shrinks(a: Map<u64, Node>, b: Map<u64, Node>, r: u64, x: u64, g: nat)
    requires
        shrinks(a, b),
        in_subtree(b, r, x, g),
    ensures
        in_subtree(a, r, x, g),
    decreases g,
{
    if x != r {
        let i = choose|i: int|
            0 <= i < b[r].children@.len() && in_subtree(
                b,
                #[trigger] b[r].children@[i].0,
                x,
                (g - 1) as nat,
            );
        let c = b[r].children@[i];
        lemma_subtree_shrinks(a, b, c.0, x, (g - 1) as nat);
        assert(a[r].children@.contains(c));
        let j = choose|j: int| 0 <= j < a[r].children@.len() && a[r].children@[j] == c;
        assert(in_subtree(a, a[r].children@[j].0, x, (g - 1) as nat));
    }
}

/// What lies below a child lies below its parent, one level further.
proof fn lemma_subtree_child(m: Map<u64, Node>, r: u64, i: int, x: u64, g: nat)
    requires
        m.contains_key(r),
        0 <= i < m[r].children@.len(),
        in_subtree(m, m[r].children@[i].0, x, g),
    ensures
        in_subtree(m, r, x, g + 1),
{
    assert(in_subtree(m, m[r].children@[i].0, x, ((g + 1) - 1) as nat));
}

/// Shrinking composes.
proof fn lemma_shrinks_trans(a: Map<u64, Node>, b: Map<u64, Node>, c: Map<u64, Node>)
    requires
        shrinks(a, b),
        shrinks(b, c),
    ensures
        shrinks(a, c),
{
    assert forall|k: u64| #[trigger] c.contains_key(k) implies same_body(a[k], c[k]) && forall|i: int|
        0 <= i < c[k].children@.len() ==> a[k].children@.contains(c[k].children@[i]) by {
        assert forall|i: int| 0 <= i < c[k].children@.len() implies a[k].children@.contains(
            c[k].children@[i],
        ) by {
            let x = c[k].children@[i];
            assert(b[k].children@.contains(x));
            let j = choose|j: int| 0 <= j < b[k].children@.len() && b[k].children@[j] == x;
            assert(a[k].children@.contains(b[k].children@[j]));
        }
    }
}

/// Every node that `b` lost from `a` had, in `a`, only children that `b`
/// lost too, or the root.
pub open spec fn removal_closed(a: Map<u64, Node>, b: Map<u64, Node>, root: u64) -> bool {
    forall|x: u64, i: int|
        #![trigger a[x].children@[i]]
        a.contains_key(x) && !b.contains_key(x) && 0 <= i < a[x].children@.len()
            ==> a[x].children@[i].0 == root || !b.contains_key(a[x].children@[i].0)
}

/// A node of `b` lost an entry of its child list from `a` only when `b`
/// lost that child.
pub open spec fn lists_closed(a: Map<u64, Node>, b: Map<u64, Node>) -> bool {
    forall|k: u64, i: int|
        #![trigger b[k], a[k].children@[i]]
        b.contains_key(k) && a.contains_key(k) && 0 <= i < a[k].children@.len() ==> b[k].children@.contains(
            a[k].children@[i],
        ) || !b.contains_key(a[k].children@[i].0)
}

/// `k` is `r` or lies below it, at most `fuel` child links down, on a path
/// that passes through `root` at most at its end.
pub open spec fn below_avoiding(m: Map<u64, Node>, r: u64, k: u64, fuel: nat, root: u64) -> bool
    decreases fuel,
{
    k == r || (fuel > 0 && r != root && m.contains_key(r) && exists|i: int|
        0 <= i < m[r].children@.len() && below_avoiding(
            m,
            #[trigger] m[r].children@[i].0,
            k,
            (fuel - 1) as nat,
            root,
        ))
}

/// No id is listed as a child twice, in one list or across lists.
pub open spec fn listed_once(m: Map<u64, Node>) -> bool {
    forall|k1: u64, i1: int, k2: u64, i2: int|
        #![trigger m[k1].children@[i1], m[k2].children@[i2]]
        m.contains_key(k1) && m.contains_key(k2) && 0 <= i1 < m[k1].children@.len() && 0 <= i2
            < m[k2].children@.len() && m[k1].children@[i1] == m[k2].children@[i2] ==> k1 == k2 && i1
            == i2
}

/// A node listed as a child names the listing node as its parent.
pub open spec fn parents_match(m: Map<u64, Node>) -> bool {
    forall|k: u64, i: int|
        #![trigger m[k].children@[i]]
        m.contains_key(k) && 0 <= i < m[k].children@.len() && m.contains_key(m[k].children@[i].0)
            ==> m[m[k].children@[i].0].parent == Some(NodeId(k))
}

/// The child lists and parent links form a forest: every id is listed at
/// most once, by the node its parent link names.
pub open spec fn tree_links(m: Map<u64, Node>) -> bool {
    listed_once(m) && parents_match(m)
}

/// No node of `b` lists a child that `b` lost from `a`.
pub open spec fn unlinked_from(a: Map<u64, Node>, b: Map<u64, Node>) -> bool {
    forall|k: u64, i: int|
        #![trigger b[k].children@[i]]
        b.contains_key(k) && 0 <= i < b[k].children@.len() ==> b.contains_key(b[k].children@[i].0)
            || !a.contains_key(b[k].children@[i].0)
}

/// Unlinking composes.
proof fn lemma_unlinked_trans(a: Map<u64, Node>, b: Map<u64, Node>, c: Map<u64, Node>)
    requires
        shrinks(b, c),
        unlinked_from(a, b),
        unlinked_from(b, c),
    ensures
        unlinked_from(a, c),
{
    assert forall|k: u64, i: int| c.contains_key(k) && 0 <= i < c[k].children@.len() implies c.contains_key(
        #[trigger] c[k].children@[i].0,
    ) || !a.contains_key(c[k].children@[i].0) by {
        let x = c[k].children@[i];
        if !c.contains_key(x.0) {
            assert(!b.contains_key(x.0));
            assert(b[k].children@.contains(x));
            let j = choose|j: int| 0 <= j < b[k].children@.len() && b[k].children@[j] == x;
            assert(b.contains_key(b[k].children@[j].0) || !a.contains_key(b[k].children@[j].0));
        }
    }
}

/// The index of the entry of `k`'s children that unlinking `id` drops
/// (-1 when it drops none there).
spec fn dropped_at(a: Map<u64, Node>, id: NodeId, unlinked: bool, k: u64) -> int {
    match a[id.0].parent {
        Some(pid) => if unlinked && k == pid.0 {
            index_from(a[pid.0].children@, id, 0)->Some_0
        } else {
            -1
        },
        None => -1,
    }
}

/// Where the entry at `i` of `s.remove(idx)` came from.
pub open spec fn removed_index(idx: int, i: int) -> int {
    if i < idx {
        i
    } else {
        i + 1
    }
}

/// The entries of `s.remove(idx)` are those of `s` at `removed_index`.
proof fn lemma_remove_index(s: Seq<NodeId>, idx: int, i: int)
    requires
        0 <= idx < s.len(),
        0 <= i < s.len() - 1,
    ensures
        s.remove(idx)[i] == s[removed_index(idx, i)],
        0 <= removed_index(idx, i) < s.len(),
        removed_index(idx, i) != idx,
{
}

/// The last step of a deletion keeps the tree shape and leaves no node
/// listing the deleted one: the node `id`, listed at most by its parent,
/// is taken out of that list and then out of the map.
proof fn lemma_unlink_last(
    a: Map<u64, Node>,
    b: Map<u64, Node>,
    c: Map<u64, Node>,
    id: NodeId,
    unlinked: bool,
)
    requires
        tree_links(a),
        a.contains_key(id.0),
        b.dom() == a.dom(),
        c == b.remove(id.0),
        match a[id.0].parent {
            None => b == a,
            Some(pid) => {
                &&& unlinked == (a.contains_key(pid.0) && index_from(a[pid.0].children@, id, 0) is Some)
                &&& !unlinked ==> b == a
                &&& unlinked ==> b[pid.0].children@ == a[pid.0].children@.remove(
                    index_from(a[pid.0].children@, id, 0)->Some_0,
                ) || pid == id
                &&& unlinked && pid != id ==> b[pid.0].parent == a[pid.0].parent
                &&& forall|k: u64|
                    #![trigger b[k]]
                    b.contains_key(k) && k != pid.0 && k != id.0 ==> b[k] == a[k]
            },
        },
    ensures
        tree_links(c),
        unlinked_from(a, c),
{
    // the only listing of `id` is at its parent
    assert forall|k: u64, i: int|
        c.contains_key(k) && 0 <= i < c[k].children@.len() implies #[trigger] c[k].children@[i] != id
        && (exists|j: int| 0 <= j < a[k].children@.len() && a[k].children@[j] == c[k].children@[i] && j != dropped_at(a, id, unlinked, k)) by {
        assert(k != id.0);
        match a[id.0].parent {
            None => {
                assert(c[k] == a[k]);
                assert(a[k].children@[i] == c[k].children@[i]);
                if c[k].children@[i] == id {
                    assert(a[id.0].parent == Some(NodeId(k)));
                }
            },
            Some(pid) => {
                if unlinked && k == pid.0 {
                    let cs = a[k].children@;
                    lemma_index_from(cs, id, 0);
                    let idx = index_from(cs, id, 0)->Some_0;
                    lemma_remove_index(cs, idx, i);
                    let j = removed_index(idx, i);
                    assert(cs[j] == c[k].children@[i]);
                    if cs[j] == id {
                        assert(cs[idx] == id);
                    }
                } else {
                    assert(c[k] == a[k]);
                    assert(a[k].children@[i] == c[k].children@[i]);
                    if c[k].children@[i] == id {
                        assert(a[id.0].parent == Some(NodeId(k)));
                        if k == pid.0 {
                            assert(a[k].children@.contains(id));
                            lemma_index_from_found(a[k].children@, id, 0, i);
                        }
                    }
                }
            },
        }
    }
    assert forall|k1: u64, i1: int, k2: u64, i2: int|
        c.contains_key(k1) && c.contains_key(k2) && 0 <= i1 < c[k1].children@.len() && 0 <= i2
            < c[k2].children@.len() && #[trigger] c[k1].children@[i1] == #[trigger] c[k2].children@[i2]
            implies k1 == k2 && i1 == i2 by {
        let j1 = choose|j: int| 0 <= j < a[k1].children@.len() && a[k1].children@[j] == c[k1].children@[i1] && j != dropped_at(a, id, unlinked, k1);
        let j2 = choose|j: int| 0 <= j < a[k2].children@.len() && a[k2].children@[j] == c[k2].children@[i2] && j != dropped_at(a, id, unlinked, k2);
        assert(a[k1].children@[j1] == a[k2].children@[j2]);
        assert(k1 == k2 && j1 == j2);
        match a[id.0].parent {
            Some(pid) => {
                if unlinked && k1 == pid.0 {
                    let cs = a[k1].children@;
                    let idx = index_from(cs, id, 0)->Some_0;
                    lemma_index_from(cs, id, 0);
                    lemma_remove_index(cs, idx, i1);
                    lemma_remove_index(cs, idx, i2);
                    assert(cs[removed_index(idx, i1)] == cs[removed_index(idx, i2)]);
                    assert(removed_index(idx, i1) == removed_index(idx, i2));
                } else {
                    assert(c[k1] == a[k1]);
                    assert(a[k1].children@[i1] == c[k1].children@[i1]);
                    assert(a[k1].children@[i2] == c[k1].children@[i2]);
                }
            },
            None => {
                assert(c[k1] == a[k1]);
                assert(a[k1].children@[i1] == c[k1].children@[i1]);
                assert(a[k1].children@[i2] == c[k1].children@[i2]);
            },
        }
    }
    assert forall|k: u64, i: int|
        c.contains_key(k) && 0 <= i < c[k].children@.len() && c.contains_key(
            #[trigger] c[k].children@[i].0,
        ) implies c[c[k].children@[i].0].parent == Some(NodeId(k)) by {
        let x = c[k].children@[i];
        let j = choose|j: int| 0 <= j < a[k].children@.len() && a[k].children@[j] == c[k].children@[i] && j != dropped_at(a, id, unlinked, k);
        assert(a[k].children@[j] == x);
        assert(a[x.0].parent == Some(NodeId(k)));
        assert(x.0 != id.0);
        match a[id.0].parent {
            Some(pid) => {
                if x.0 == pid.0 {
                    if unlinked && pid != id {
                    } else {
                        assert(b == a || b[x.0] == a[x.0]);
                    }
                } else {
                    assert(c[x.0] == a[x.0]);
                }
            },
            None => {},
        }
    }
    assert forall|k: u64, i: int| c.contains_key(k) && 0 <= i < c[k].children@.len() implies c.contains_key(
        #[trigger] c[k].children@[i].0,
    ) || !a.contains_key(c[k].children@[i].0) by {
        assert(c[k].children@[i] != id);
    }
}

/// Where `index_from` from 0 finds nothing before `i` and `s[i] == x`, it finds `i`.
proof fn lemma_index_from_found(s: Seq<NodeId>, x: NodeId, k: int, i: int)
    requires
        0 <= k <= i < s.len(),
        s[i] == x,
    ensures
        index_from(s, x, k) is Some,
    decreases i - k,
{
    if s[k] != x {
        lemma_index_from_found(s, x, k + 1, i);
    }
}

/// Nothing removed is closed.
proof fn lemma_closed_refl(a: Map<u64, Node>, root: u64)
    ensures
        removal_closed(a, a, root),
        lists_closed(a, a),
{
    assert forall|k: u64, i: int|
        a.contains_key(k) && a.contains_key(k) && 0 <= i < a[k].children@.len() implies #[trigger] a[k].children@.contains(
        #[trigger] a[k].children@[i],
    ) || !a.contains_key(a[k].children@[i].0) by {
        assert(a[k].children@[i] == a[k].children@[i]);
    }
}

/// An entry other than the one removed stays in a list.
proof fn lemma_remove_keeps(s: Seq<NodeId>, idx: int, i: int)
    requires
        0 <= idx < s.len(),
        0 <= i < s.len(),
        s[i] != s[idx],
    ensures
        s.remove(idx).contains(s[i]),
{
    if i < idx {
        assert(s.remove(idx)[i] == s[i]);
    } else {
        assert(s.remove(idx)[i - 1] == s[i]);
    }
}

/// `k` is `r` or lies below it on a path that passes through `root` at most
/// at its end.
pub open spec fn reachable_avoiding(m: Map<u64, Node>, r: u64, k: u64, root: u64) -> bool {
    exists|g: nat| #[trigger] below_avoiding(m, r, k, g, root)
}

/// Removal closure composes.
proof fn lemma_closed_trans(a: Map<u64, Node>, b: Map<u64, Node>, c: Map<u64, Node>, root: u64)
    requires
        shrinks(a, b),
        shrinks(b, c),
        removal_closed(a, b, root),
        removal_closed(b, c, root),
        lists_closed(a, b),
        lists_closed(b, c),
    ensures
        removal_closed(a, c, root),
        lists_closed(a, c),
{
    assert forall|x: u64, i: int|
        a.contains_key(x) && !c.contains_key(x) && 0 <= i < a[x].children@.len() implies #[trigger] a[x].children@[i].0
        == root || !c.contains_key(a[x].children@[i].0) by {
        let y = a[x].children@[i];
        if !b.contains_key(x) {
        } else {
            if b[x].children@.contains(y) {
                let j = choose|j: int| 0 <= j < b[x].children@.len() && b[x].children@[j] == y;
                assert(b[x].children@[j].0 == root || !c.contains_key(b[x].children@[j].0));
            }
        }
    }
    assert forall|k: u64, i: int|
        c.contains_key(k) && a.contains_key(k) && 0 <= i < a[k].children@.len() implies #[trigger] c[k].children@.contains(
        #[trigger] a[k].children@[i],
    ) || !c.contains_key(a[k].children@[i].0) by {
        let y = a[k].children@[i];
        assert(b.contains_key(k));
        if b[k].children@.contains(y) {
            let j = choose|j: int| 0 <= j < b[k].children@.len() && b[k].children@[j] == y;
            assert(c[k].children@.contains(b[k].children@[j]) || !c.contains_key(b[k].children@[j].0));
        }
    }
}

/// Below a removed node, by a path that avoids the root, every node other
/// than the root is removed.
proof fn lemma_removed_below(a: Map<u64, Node>, b: Map<u64, Node>, r: u64, k: u64, g: nat, root: u64)
    requires
        removal_closed(a, b, root),
        b.dom().subset_of(a.dom()),
        !b.contains_key(r),
        below_avoiding(a, r, k, g, root),
        k != root,
    ensures
        !b.contains_key(k),
    decreases g,
{
    if k != r {
        let i = choose|i: int|
            0 <= i < a[r].children@.len() && below_avoiding(
                a,
                #[trigger] a[r].children@[i].0,
                k,
                (g - 1) as nat,
                root,
            );
        let c = a[r].children@[i].0;
        assert(c == root || !b.contains_key(c));
        if c == root {
            assert(below_avoiding(a, c, k, (g - 1) as nat, root));
            assert(k == c);
        } else {
            lemma_removed_below(a, b, c, k, (g - 1) as nat, root);
        }
    }
}

impl Default for TreeDoc {
    fn default() -> (r: Self)
        ensures
            r.wf(),
            r@.root == 0,
            r@.id_counter == 1,
            r@.nodes.dom() =~= set![0u64],
    {
        TreeDoc::new()
    }
}

impl TreeDoc {
    /// The root is one of the nodes, and every id is below the next one
    /// to hand out.
    pub closed spec fn wf(&self) -> bool {
        &&& self.nodes@.contains_key(self.root.0)
        &&& forall|k: u64| #[trigger] self.nodes@.contains_key(k) ==> k < self.id_counter
    }

    /// A document holding only its root: node 0, a `Document` with no
    /// content; the next id is 1.
    pub fn new() -> (r: Self)
        ensures
            r.wf(),
            r@.root == 0,
            r@.id_counter == 1,
            r@.nodes.dom() =~= set![0u64],
            fresh_node(r@.nodes[0], NodeId(0), NodeTypeV::Document, NodeContent::Empty),
    {
        let doc = new_loro_doc();
        let root = NodeId(0);
        let mut nodes: HashMap<u64, Node> = HashMap::new();
        nodes.insert(0, Node::new(root, NodeType::Document, NodeContent::Empty));
        TreeDoc { doc, root, nodes, id_counter: 1 }
    }

    /// The CRDT document held.
    pub closed spec fn crdt(&self) -> loro::LoroDoc {
        self.doc
    }

    /// The CRDT document.
    pub fn loro_doc(&self) -> (r: &loro::LoroDoc)
        ensures
            *r == self.crdt(),
    {
        &self.doc
    }

    /// Hand out the next id.
    fn new_id(&mut self) -> (r: NodeId)
        requires
            old(self)@.id_counter < u64::MAX,
        ensures
            r.0 == old(self)@.id_counter,
            final(self)@ == (TreeDocV { id_counter: (old(self)@.id_counter + 1) as u64, ..old(self)@ }),
            old(self).wf() ==> final(self).wf(),
    {
        let id = self.id_counter;
        self.id_counter = self.id_counter + 1;
        NodeId(id)
    }

    /// Add an unlinked node with the next id, and return the id.
    pub fn create_node(&mut self, node_type: NodeType, content: NodeContent) -> (r: NodeId)
        requires
            old(self).wf(),
            old(self)@.id_counter < u64::MAX,
        ensures
            final(self).wf(),
            r.0 == old(self)@.id_counter,
            !old(self)@.nodes.contains_key(r.0),
            final(self)@.id_counter == old(self)@.id_counter + 1,
            final(self)@.root == old(self)@.root,
            final(self)@.nodes.dom() == old(self)@.nodes.dom().insert(r.0),
            fresh_node(final(self)@.nodes[r.0], r, node_type@, content),
            forall|k: u64| #[trigger] final(self)@.nodes.contains_key(k) && k != r.0
                ==> final(self)@.nodes[k] == old(self)@.nodes[k],
    {
        let id = self.new_id();
        let node = Node::new(id, node_type, content);
        self.nodes.insert(id.0, node);
        proof {
            assert(self.nodes@.dom() =~= old(self).nodes@.dom().insert(id.0));
        }
        id
    }

    /// Add a node with the next id as the last child of `parent_id`.
    pub fn append_node(&mut self, parent_id: NodeId, node_type: NodeType, content: NodeContent) -> (r:
        NodeId)
        requires
            old(self).wf(),
            old(self)@.id_counter < u64::MAX,
        ensures
            final(self).wf(),
            r.0 == old(self)@.id_counter,
            final(self)@.id_counter == old(self)@.id_counter + 1,
            final(self)@.root == old(self)@.root,
            final(self)@.nodes.dom() == old(self)@.nodes.dom().insert(r.0),
            !old(self)@.nodes.contains_key(r.0),
            old(self)@.nodes.contains_key(parent_id.0) ==> {
                &&& final(self)@.nodes[parent_id.0].children@ == old(
                    self,
                )@.nodes[parent_id.0].children@.push(r)
                &&& same_body(final(self)@.nodes[parent_id.0], old(self)@.nodes[parent_id.0])
                &&& final(self)@.nodes[parent_id.0].parent == old(self)@.nodes[parent_id.0].parent
                &&& final(self)@.nodes[r.0].parent == Some(parent_id)
            },
            !old(self)@.nodes.contains_key(parent_id.0) && parent_id != r ==> final(self)@.nodes[r.0].parent is None,
            parent_id == r ==> final(self)@.nodes[r.0].parent == Some(r) && final(self)@.nodes[r.0].children@
                == seq![r],
            final(self)@.nodes[r.0].id == r,
            parent_id != r ==> final(self)@.nodes[r.0].children@.len() == 0,
            final(self)@.nodes[r.0].node_type@ == node_type@,
            final(self)@.nodes[r.0].content == content,
            !final(self)@.nodes[r.0].meta.collapsed && !final(self)@.nodes[r.0].meta.deleted,
            forall|k: u64|
                #![trigger final(self)@.nodes[k]]
                final(self)@.nodes.contains_key(k) && k != r.0 && k != parent_id.0
                    ==> final(self)@.nodes[k] == old(self)@.nodes[k],
    {
        let id = self.create_node(node_type, content);
        self.append_child(parent_id, id);
        id
    }

    /// Make `child_id` the last child of `parent_id` and set its parent;
    /// false (and nothing changed) when there is no such parent.
    pub fn append_child(&mut self, parent_id: NodeId, child_id: NodeId) -> (r: bool)
        requires
            old(self).wf(),
        ensures
            final(self).wf(),
            r == old(self)@.nodes.contains_key(parent_id.0),
            !r ==> final(self)@ == old(self)@,
            final(self)@.root == old(self)@.root,
            final(self)@.id_counter == old(self)@.id_counter,
            final(self)@.nodes.dom() == old(self)@.nodes.dom(),
            r ==> final(self)@.nodes[parent_id.0].children@ == old(self)@.nodes[parent_id.0].children@.push(
                child_id,
            ),
            r ==> same_body(final(self)@.nodes[parent_id.0], old(self)@.nodes[parent_id.0]),
            r && parent_id != child_id ==> final(self)@.nodes[parent_id.0].parent == old(
                self,
            )@.nodes[parent_id.0].parent,
            r && old(self)@.nodes.contains_key(child_id.0) ==> final(self)@.nodes[child_id.0].parent
                == Some(parent_id),
            r && old(self)@.nodes.contains_key(child_id.0) && parent_id != child_id ==> {
                &&& same_body(final(self)@.nodes[child_id.0], old(self)@.nodes[child_id.0])
                &&& final(self)@.nodes[child_id.0].children == old(self)@.nodes[child_id.0].children
            },
            forall|k: u64|
                #![trigger final(self)@.nodes[k]]
                final(self)@.nodes.contains_key(k) && k != parent_id.0 && k != child_id.0
                    ==> final(self)@.nodes[k] == old(self)@.nodes[k],
    {
        match self.nodes.remove(&parent_id.0) {
            Some(mut parent) => {
                parent.children.push(child_id);
                self.nodes.insert(parent_id.0, parent);
                match self.nodes.remove(&child_id.0) {
                    Some(mut child) => {
                        child.parent = Some(parent_id);
                        self.nodes.insert(child_id.0, child);
                    },
                    None => {},
                }
                proof {
                    assert(self.nodes@.dom() =~= old(self).nodes@.dom());
                }
                true
            },
            None => {
                proof {
                    assert(self.nodes@ =~= old(self).nodes@);
                }
                false
            },
        }
    }

    /// Remove `child_id` from the children of `parent_id` (its first
    /// occurrence) and clear its parent; false (and nothing changed) when
    /// the parent is missing or does not list it.
    pub fn remove_child(&mut self, parent_id: NodeId, child_id: NodeId) -> (r: bool)
        requires
            old(self).wf(),
        ensures
            final(self).wf(),
            r == (old(self)@.nodes.contains_key(parent_id.0) && index_from(
                old(self)@.nodes[parent_id.0].children@,
                child_id,
                0,
            ) is Some),
            !r ==> final(self)@ == old(self)@,
            final(self)@.root == old(self)@.root,
            final(self)@.id_counter == old(self)@.id_counter,
            final(self)@.nodes.dom() == old(self)@.nodes.dom(),
            r ==> final(self)@.nodes[parent_id.0].children@ == old(self)@.nodes[parent_id.0].children@.remove(
                index_from(old(self)@.nodes[parent_id.0].children@, child_id, 0)->Some_0,
            ) || parent_id == child_id,
            r && old(self)@.nodes.contains_key(child_id.0) ==> final(self)@.nodes[child_id.0].parent is None,
            r && parent_id != child_id ==> final(self)@.nodes[parent_id.0].parent == old(
                self,
            )@.nodes[parent_id.0].parent,
            shrinks(old(self)@.nodes, final(self)@.nodes),
            forall|k: u64|
                #![trigger final(self)@.nodes[k]]
                final(self)@.nodes.contains_key(k) && k != parent_id.0 && k != child_id.0
                    ==> final(self)@.nodes[k] == old(self)@.nodes[k],
    {
        let pos = match self.nodes.get(&parent_id.0) {
            Some(parent) => {
                let mut i: usize = 0;
                let mut found: Option<usize> = None;
                while i < parent.children.len()
                    invariant_except_break
                        found is None,
                    invariant
                        i <= parent.children@.len(),
                        index_from(parent.children@, child_id, 0) == index_from(
                            parent.children@,
                            child_id,
                            i as int,
                        ),
                    ensures
                        match found {
                            Some(p) => index_from(parent.children@, child_id, 0) == Some(p as int),
                            None => index_from(parent.children@, child_id, 0) is None,
                        },
                    decreases parent.children@.len() - i,
                {
                    if parent.children[i] == child_id {
                        proof {
                            assert(index_from(parent.children@, child_id, i as int) == Some(i as int));
                        }
                        found = Some(i);
                        break;
                    }
                    i = i + 1;
                }
                found
            },
            None => None,
        };
        proof {
            if self.nodes@.contains_key(parent_id.0) {
                lemma_index_from(self.nodes@[parent_id.0].children@, child_id, 0);
            }
        }
        match pos {
            Some(p) => {
                let ghost m0 = self.nodes@;
                match self.nodes.remove(&parent_id.0) {
                    Some(mut parent) => {
                        let ghost before = parent.children@;
                        parent.children.remove(p);
                        proof {
                            assert(parent.children@ =~= before.remove(p as int));
                            assert forall|i: int| 0 <= i < parent.children@.len() implies before.contains(
                                parent.children@[i],
                            ) by {
                                if i < p {
                                    assert(parent.children@[i] == before[i]);
                                } else {
                                    assert(parent.children@[i] == before[i + 1]);
                                }
                            }
                        }
                        self.nodes.insert(parent_id.0, parent);
                    },
                    None => {},
                }
                let ghost m1 = self.nodes@;
                match self.nodes.remove(&child_id.0) {
                    Some(mut child) => {
                        child.parent = None;
                        self.nodes.insert(child_id.0, child);
                    },
                    None => {},
                }
                proof {
                    assert(self.nodes@.dom() =~= old(self).nodes@.dom());
                    assert forall|k: u64| #[trigger] self.nodes@.contains_key(k) implies same_body(
                        old(self).nodes@[k],
                        self.nodes@[k],
                    ) && forall|i: int|
                        0 <= i < self.nodes@[k].children@.len() ==> old(self).nodes@[k].children@.contains(
                            self.nodes@[k].children@[i],
                        ) by {
                        if k != parent_id.0 && k != child_id.0 {
                            assert forall|i: int| 0 <= i < self.nodes@[k].children@.len() implies old(
                                self,
                            ).nodes@[k].children@.contains(self.nodes@[k].children@[i]) by {
                                assert(old(self).nodes@[k].children@[i] == self.nodes@[k].children@[i]);
                            }
                        } else if k == parent_id.0 && k != child_id.0 {
                        } else if k == child_id.0 && k != parent_id.0 {
                            assert forall|i: int| 0 <= i < self.nodes@[k].children@.len() implies old(
                                self,
                            ).nodes@[k].children@.contains(self.nodes@[k].children@[i]) by {
                                assert(old(self).nodes@[k].children@[i] == self.nodes@[k].children@[i]);
                            }
                        }
                    }
                }
                true
            },
            None => {
                proof {
                    assert(self.nodes@ =~= old(self).nodes@);
                }
                false
            },
        }
    }

    /// Delete `id` and, first, the nodes below it (one level of fuel per
    /// level of the tree).
    fn delete_rec(&mut self, id: NodeId, Ghost(f): Ghost<nat>) -> (r: bool)
        requires
            old(self).wf(),
            subtree_bounded(old(self)@.nodes, id.0, f),
        ensures
            final(self).wf(),
            final(self)@.root == old(self)@.root,
            final(self)@.id_counter == old(self)@.id_counter,
            r == (old(self)@.nodes.contains_key(id.0) && id.0 != old(self)@.root),
            !r ==> final(self)@ == old(self)@,
            r ==> !final(self)@.nodes.contains_key(id.0),
            r ==> forall|j: int|
                0 <= j < old(self)@.nodes[id.0].children@.len() && old(self)@.nodes[id.0].children@[j].0
                    != old(self)@.root ==> !#[trigger] final(self)@.nodes.contains_key(
                    old(self)@.nodes[id.0].children@[j].0,
                ),
            shrinks(old(self)@.nodes, final(self)@.nodes),
            removal_closed(old(self)@.nodes, final(self)@.nodes, old(self)@.root),
            lists_closed(old(self)@.nodes, final(self)@.nodes),
            tree_links(old(self)@.nodes) ==> tree_links(final(self)@.nodes) && unlinked_from(
                old(self)@.nodes,
                final(self)@.nodes,
            ),
            forall|k: u64|
                old(self)@.nodes.contains_key(k) && !in_subtree(old(self)@.nodes, id.0, k, f)
                    ==> #[trigger] final(self)@.nodes.contains_key(k),
        decreases f,
    {
        if !self.contains(id) || id == self.root {
            proof {
                lemma_closed_refl(self@.nodes, self@.root);
            }
            return false;
        }
        let ghost m0 = self.nodes@;
        proof {
            lemma_closed_refl(m0, self@.root);
        }
        let mut children: Vec<NodeId> = Vec::new();
        match self.nodes.get(&id.0) {
            Some(n) => {
                let mut j: usize = 0;
                while j < n.children.len()
                    invariant
                        j <= n.children@.len(),
                        children@ == n.children@.take(j as int),
                    decreases n.children@.len() - j,
                {
                    children.push(n.children[j]);
                    proof {
                        assert(n.children@.take(j + 1) =~= n.children@.take(j as int).push(n.children@[j as int]));
                    }
                    j = j + 1;
                }
                proof {
                    assert(n.children@.take(n.children@.len() as int) =~= n.children@);
                }
            },
            None => {},
        }
        proof {
            assert(m0.contains_key(id.0));
            assert(f > 0);
        }
        let mut i: usize = 0;
        while i < children.len()
            invariant
                i <= children@.len(),
                self.wf(),
                self@.root == old(self)@.root,
                self@.id_counter == old(self)@.id_counter,
                self@.root != id.0,
                m0 == old(self)@.nodes,
                m0.contains_key(id.0),
                children@ == m0[id.0].children@,
                subtree_bounded(m0, id.0, f),
                f > 0,
                shrinks(m0, self@.nodes),
                removal_closed(m0, self@.nodes, self@.root),
                lists_closed(m0, self@.nodes),
                tree_links(m0) ==> tree_links(self@.nodes) && unlinked_from(m0, self@.nodes),
                self@.nodes.contains_key(id.0),
                forall|k: u64|
                    m0.contains_key(k) && !in_subtree(m0, id.0, k, f)
                        ==> #[trigger] self@.nodes.contains_key(k),
                forall|j: int|
                    0 <= j < i && children@[j].0 != self@.root ==> !#[trigger] self@.nodes.contains_key(
                        children@[j].0,
                    ),
            decreases children@.len() - i,
        {
            let c = children[i];
            let ghost before = self@.nodes;
            proof {
                assert(subtree_bounded(m0, m0[id.0].children@[i as int].0, (f - 1) as nat));
                lemma_bounded_shrinks(m0, before, c.0, (f - 1) as nat);
            }
            self.delete_rec(c, Ghost((f - 1) as nat));
            proof {
                lemma_shrinks_trans(m0, before, self@.nodes);
                lemma_closed_trans(m0, before, self@.nodes, self@.root);
                if tree_links(m0) {
                    lemma_unlinked_trans(m0, before, self@.nodes);
                }
                assert(self@.nodes.dom().subset_of(before.dom()));
                if in_subtree(before, c.0, id.0, (f - 1) as nat) {
                    lemma_subtree_shrinks(m0, before, c.0, id.0, (f - 1) as nat);
                    lemma_no_cycle(m0, id.0, i as int, (f - 1) as nat, f);
                }
                assert forall|k: u64|
                    m0.contains_key(k) && !in_subtree(m0, id.0, k, f) implies #[trigger] self@.nodes.contains_key(
                    k,
                ) by {
                    assert(before.contains_key(k));
                    if in_subtree(before, c.0, k, (f - 1) as nat) {
                        lemma_subtree_shrinks(m0, before, c.0, k, (f - 1) as nat);
                        lemma_subtree_child(m0, id.0, i as int, k, (f - 1) as nat);
                    }
                }
            }
            i = i + 1;
        }
        let ghost loop_end = self@.nodes;
        let ghost root = self@.root;
        let parent = match self.nodes.get(&id.0) {
            Some(n) => n.parent,
            None => None,
        };
        let mut unlinked = false;
        match parent {
            Some(pid) => {
                unlinked = self.remove_child(pid, id);
                proof {
                    lemma_shrinks_trans(m0, loop_end, self@.nodes);
                }
            },
            None => {
                proof {
                    lemma_closed_refl(loop_end, root);
                    assert(shrinks(loop_end, loop_end)) by {
                        lemma_closed_refl(loop_end, root);
                    }
                }
            },
        }
        let ghost after_rc = self@.nodes;
        let removed = self.nodes.remove(&id.0);
        proof {
            assert(shrinks(after_rc, self@.nodes));
            lemma_shrinks_trans(m0, after_rc, self@.nodes);
            lemma_shrinks_trans(loop_end, after_rc, self@.nodes);
            assert(in_subtree(m0, id.0, id.0, f));
            let fin = self@.nodes;
            assert forall|x: u64, i: int|
                loop_end.contains_key(x) && !fin.contains_key(x) && 0 <= i < loop_end[x].children@.len()
                    implies #[trigger] loop_end[x].children@[i].0 == root || !fin.contains_key(
                    loop_end[x].children@[i].0,
                ) by {
                assert(x == id.0);
                let y = loop_end[x].children@[i];
                assert(m0[x].children@.contains(y));
                let j = choose|j: int| 0 <= j < m0[x].children@.len() && m0[x].children@[j] == y;
                assert(children@[j] == y);
            }
            assert forall|k: u64, i: int|
                fin.contains_key(k) && loop_end.contains_key(k) && 0 <= i < loop_end[k].children@.len()
                    implies #[trigger] fin[k].children@.contains(#[trigger] loop_end[k].children@[i])
                || !fin.contains_key(loop_end[k].children@[i].0) by {
                let y = loop_end[k].children@[i];
                if y.0 != id.0 {
                    match parent {
                        Some(pid) => {
                            if k == pid.0 && unlinked && pid != id {
                                let cs = loop_end[k].children@;
                                lemma_index_from(cs, id, 0);
                                let idx = index_from(cs, id, 0)->Some_0;
                                assert(y != id);
                                lemma_remove_keeps(cs, idx, i);
                            } else {
                                assert(fin[k] == loop_end[k]);
                                assert(fin[k].children@[i] == y);
                            }
                        },
                        None => {
                            assert(fin[k] == loop_end[k]);
                            assert(fin[k].children@[i] == y);
                        },
                    }
                }
            }
            lemma_closed_trans(m0, loop_end, fin, root);
            if tree_links(m0) {
                assert(parent == loop_end[id.0].parent);
                lemma_unlink_last(loop_end, after_rc, fin, id, unlinked);
                lemma_unlinked_trans(m0, loop_end, fin);
            }
        }
        removed.is_some()
    }

    /// Delete a node and, first, every node below it (but the root, should
    /// a child list name it); each deleted node is also taken out of its
    /// parent's children, so that where the links form a forest no node left
    /// lists a deleted one. The root, and ids with no node, are refused (false, nothing
    /// changed).
    pub fn delete_node(&mut self, id: NodeId) -> (r: bool)
        requires
            old(self).wf(),
            finite_subtree(old(self)@.nodes, id.0),
        ensures
            final(self).wf(),
            final(self)@.root == old(self)@.root,
            final(self)@.id_counter == old(self)@.id_counter,
            r == (old(self)@.nodes.contains_key(id.0) && id.0 != old(self)@.root),
            !r ==> final(self)@ == old(self)@,
            r ==> !final(self)@.nodes.contains_key(id.0),
            r ==> forall|j: int|
                0 <= j < old(self)@.nodes[id.0].children@.len() && old(self)@.nodes[id.0].children@[j].0
                    != old(self)@.root ==> !#[trigger] final(self)@.nodes.contains_key(
                    old(self)@.nodes[id.0].children@[j].0,
                ),
            shrinks(old(self)@.nodes, final(self)@.nodes),
            r ==> forall|k: u64|
                k != old(self)@.root && #[trigger] reachable_avoiding(
                    old(self)@.nodes,
                    id.0,
                    k,
                    old(self)@.root,
                ) ==> !final(self)@.nodes.contains_key(k),
            forall|k: u64|
                old(self)@.nodes.contains_key(k) && !reachable(old(self)@.nodes, id.0, k)
                    ==> #[trigger] final(self)@.nodes.contains_key(k),
            tree_links(old(self)@.nodes) ==> tree_links(final(self)@.nodes),
            tree_links(old(self)@.nodes) ==> unlinked_from(old(self)@.nodes, final(self)@.nodes),
            r && tree_links(old(self)@.nodes) ==> forall|k: u64|
                #[trigger] final(self)@.nodes.contains_key(k) ==> !final(self)@.nodes[k].children@.contains(
                    id,
                ),
    {
        let ghost f = choose|f: nat| #[trigger] subtree_bounded(old(self)@.nodes, id.0, f);
        let r = self.delete_rec(id, Ghost(f));
        proof {
            if r && tree_links(old(self)@.nodes) {
                assert forall|k: u64| #[trigger] self@.nodes.contains_key(k) implies !self@.nodes[k].children@.contains(
                    id,
                ) by {
                    if self@.nodes[k].children@.contains(id) {
                        let i = choose|i: int|
                            0 <= i < self@.nodes[k].children@.len() && self@.nodes[k].children@[i] == id;
                        assert(self@.nodes.contains_key(self@.nodes[k].children@[i].0) || !old(
                            self,
                        )@.nodes.contains_key(self@.nodes[k].children@[i].0));
                    }
                }
            }
            if r {
                assert forall|k: u64|
                    k != old(self)@.root && #[trigger] reachable_avoiding(
                        old(self)@.nodes,
                        id.0,
                        k,
                        old(self)@.root,
                    ) implies !self@.nodes.contains_key(k) by {
                    let g = choose|g: nat| #[trigger] below_avoiding(old(self)@.nodes, id.0, k, g, old(self)@.root);
                    lemma_removed_below(old(self)@.nodes, self@.nodes, id.0, k, g, old(self)@.root);
                }
            }
            assert forall|k: u64|
                old(self)@.nodes.contains_key(k) && !reachable(old(self)@.nodes, id.0, k)
                    implies #[trigger] self@.nodes.contains_key(k) by {
                if in_subtree(old(self)@.nodes, id.0, k, f) {
                    assert(reachable(old(self)@.nodes, id.0, k));
                }
            }
        }
        r
    }

    /// Whether a node has the id.
    pub fn contains(&self, id: NodeId) -> (r: bool)
        ensures
            r == self@.nodes.contains_key(id.0),
    {
        self.nodes.contains_key(&id.0)
    }

    /// The node with the id.
    pub fn get(&self, id: NodeId) -> (r: Option<&Node>)
        ensures
            match r {
                Some(n) => self@.nodes.contains_key(id.0) && *n == self@.nodes[id.0],
                None => !self@.nodes.contains_key(id.0),
            },
    {
        self.nodes.get(&id.0)
    }

    /// The node with the id, to change it in place.
    pub fn get_mut(&mut self, id: NodeId) -> (r: Option<&mut Node>)
        ensures
            match r {
                Some(n) => old(self)@.nodes.contains_key(id.0),
                None => !old(self)@.nodes.contains_key(id.0),
            },
            match r {
                Some(n) => *n == old(self)@.nodes[id.0],
                None => true,
            },
            match r {
                Some(n) => final(self)@.nodes == old(self)@.nodes.insert(id.0, *final(n)),
                None => final(self)@.nodes == old(self)@.nodes,
            },
            final(self)@.root == old(self)@.root,
            final(self)@.id_counter == old(self)@.id_counter,
            old(self).wf() ==> final(self).wf(),
    {
        match self.nodes.entry(id.0) {
            Entry::Occupied(o) => Some(o.into_mut()),
            Entry::Vacant(_) => None,
        }
    }

    /// The root node.
    pub fn root(&self) -> (r: &Node)
        requires
            self.wf(),
        ensures
            *r == self@.nodes[self@.root],
    {
        self.nodes.get(&self.root.0).unwrap()
    }

    /// The number of nodes.
    pub fn len(&self) -> (r: usize)
        ensures
            r == self@.nodes.len(),
    {
        self.nodes.len()
    }

    /// Whether only the root is left (no more than one node).
    pub fn is_empty(&self) -> (r: bool)
        ensures
            r == (self@.nodes.len() <= 1),
    {
        self.nodes.len() <= 1
    }

    /// The children of a node.
    pub fn children(&self, id: NodeId) -> (r: Option<&Vec<NodeId>>)
        ensures
            match r {
                Some(c) => self@.nodes.contains_key(id.0) && *c == self@.nodes[id.0].children,
                None => !self@.nodes.contains_key(id.0),
            },
    {
        match self.nodes.get(&id.0) {
            Some(n) => Some(&n.children),
            None => None,
        }
    }

    /// The parent node of a node.
    pub fn parent(&self, id: NodeId) -> (r: Option<&Node>)
        ensures
            match parent_key(self@.nodes, id.0) {
                Some(p) => if self@.nodes.contains_key(p) {
                    r matches Some(n) && *n == self@.nodes[p]
                } else {
                    r is None
                },
                None => r is None,
            },
    {
        match self.nodes.get(&id.0) {
            Some(n) => match n.parent {
                Some(pid) => self.nodes.get(&pid.0),
                None => None,
            },
            None => None,
        }
    }

    /// The node after a node among its parent's children: the child after
    /// the first occurrence of the id in the parent's list.
    pub fn next_sibling(&self, id: NodeId) -> (r: Option<&Node>)
        ensures
            match next_sibling_key(self@.nodes, id) {
                Some(k) => if self@.nodes.contains_key(k) {
                    r matches Some(n) && *n == self@.nodes[k]
                } else {
                    r is None
                },
                None => r is None,
            },
    {
        let node = match self.nodes.get(&id.0) {
            Some(n) => n,
            None => {
                return None;
            },
        };
        let pid = match node.parent {
            Some(p) => p,
            None => {
                return None;
            },
        };
        let p = match self.nodes.get(&pid.0) {
            Some(p) => p,
            None => {
                return None;
            },
        };
        let children = &p.children;
        let mut i: usize = 0;
        while i < children.len()
            invariant
                i <= children@.len(),
                index_from(children@, id, 0) == index_from(children@, id, i as int),
                children@ == self@.nodes[pid.0].children@,
                parent_key(self@.nodes, id.0) == Some(pid.0),
                self@.nodes.contains_key(pid.0),
            decreases children@.len() - i,
        {
            if children[i] == id {
                proof {
                    assert(index_from(children@, id, i as int) == Some(i as int));
                }
                if i + 1 < children.len() {
                    let sid = children[i + 1];
                    return self.nodes.get(&sid.0);
                }
                return None;
            }
            i = i + 1;
        }
        None
    }

    /// The number of parent links from a node up to a node without a
    /// parent.
    pub fn depth(&self, id: NodeId) -> (r: usize)
        requires
            exists|f: nat| #[trigger] depth_within(self@.nodes, id.0, f),
        ensures
            r == depth_v(self@.nodes, id.0),
    {
        let ghost m = self@.nodes;
        let ghost f = choose|f: nat| #[trigger] depth_within(m, id.0, f);
        let ghost total = chain_depth(m, id.0, f)->Some_0;
        proof {
            lemma_depth_v(m, id.0, f);
        }
        let mut depth: usize = 0;
        let mut current = id;
        let ghost mut fuel: nat = f;
        loop
            invariant
                m == self@.nodes,
                chain_depth(m, current.0, fuel) matches Some(d) && depth + d == total,
                total <= usize::MAX,
                total == depth_v(m, id.0),
            decreases fuel,
        {
            let next = match self.nodes.get(&current.0) {
                Some(n) => n.parent,
                None => None,
            };
            match next {
                Some(parent_id) => {
                    depth = depth + 1;
                    current = parent_id;
                    proof {
                        fuel = (fuel - 1) as nat;
                    }
                },
                None => {
                    return depth;
                },
            }
        }
    }
}


/// Searching from `k` in `s` extended by `x` finds what searching `s`
/// finds, else the new last index.
proof fn lemma_index_from_push(s: Seq<NodeId>, x: NodeId, k: int)
    requires
        0 <= k <= s.len(),
        index_from(s, x, k) is None,
    ensures
        index_from(s.push(x), x, k) == Some(s.len() as int),
    decreases s.len() - k,
{
    if k < s.len() {
        lemma_index_from_push(s, x, k + 1);
    }
}

/// Removing a child right after appending it, when the parent did not list
/// it yet, gives back the parent's children as they were: `remove_child`
/// takes out exactly the entry that `append_child` pushed.
pub proof fn law_remove_after_append(children: Seq<NodeId>, child: NodeId)
    requires
        index_from(children, child, 0) is None,
    ensures
        index_from(children.push(child), child, 0) == Some(children.len() as int),
        children.push(child).remove(children.len() as int) == children,
{
    lemma_index_from_push(children, child, 0);
    assert(children.push(child).remove(children.len() as int) =~= children);
}

} // verus!
