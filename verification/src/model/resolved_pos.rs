//! Resolved positions: a document position with the path of parents that
//! leads to it.

use vstd::prelude::*;
use crate::model::node::{
    Node, NodeV, NodeContent, NodeContentV, size_of, sizes_from, lemma_nodes_view, nodes_view,
    lemma_content_le_size,
};

verus! {

/// An entry in the resolution path.
#[derive(Debug)]
pub struct PathEntry {
    /// The parent node
    node: Node,
    /// Index of the child we're positioned at/after
    index: usize,
    /// Position of this node relative to parent start
    node_offset: usize,
}

/// The view of a path entry.
pub struct PathEntryV {
    pub node: NodeV,
    pub index: nat,
    pub node_offset: nat,
}

impl View for PathEntry {
    type V = PathEntryV;

    closed spec fn view(&self) -> PathEntryV {
        PathEntryV { node: self.node@, index: self.index as nat, node_offset: self.node_offset as nat }
    }
}

/// The views of a path.
pub open spec fn path_view(p: Seq<PathEntry>) -> Seq<PathEntryV> {
    p.map_values(|e: PathEntry| e@)
}

/// A resolved document position: the position, its depth, and the path
/// from the root to its parent with the index within each parent.
#[derive(Debug)]
pub struct ResolvedPos {
    /// The absolute position in the document
    pub pos: usize,
    /// The depth of the position (how many parent nodes)
    pub depth: usize,
    /// Path from root to parent at each level
    path: Vec<PathEntry>,
}

/// Information about a descendant node.
#[derive(Debug)]
pub struct Descendant {
    /// The descendant node
    pub node: Node,
    /// The index in the parent
    pub index: usize,
    /// The offset from document start
    pub offset: usize,
}

/// The sizes of `cs[..k]`, summed.
pub open spec fn sizes_before(cs: Seq<NodeV>, k: int) -> int {
    sizes_from(cs, 0) - sizes_from(cs, k)
}

/// The path entries that resolving `target` inside `n` (which starts at
/// `cur`) adds, and how many of them count toward the depth.
pub open spec fn find_path_v(n: NodeV, target: int, cur: int) -> (Seq<PathEntryV>, int)
    decreases n, 0int,
{
    if target == cur {
        (seq![], 0)
    } else {
        match n.content {
            NodeContentV::Nodes(cs) => find_path_children(n, cs, target, 0, cur),
            NodeContentV::Text { .. } => (seq![], 0),
        }
    }
}

/// Resolving `target` among the children `cs[k..]` of `n`, the first of
/// which starts at `pos`: descend into the child that holds it, or record
/// the end of `n` when `target` is exactly there.
pub open spec fn find_path_children(n: NodeV, cs: Seq<NodeV>, target: int, k: int, pos: int) -> (
    Seq<PathEntryV>,
    int,
)
    decreases cs, cs.len() - k,
{
    if 0 <= k < cs.len() {
        if target < pos + size_of(cs[k]) {
            let (e, d) = find_path_v(cs[k], target, pos);
            (seq![PathEntryV { node: n, index: k as nat, node_offset: pos as nat }] + e, 1 + d)
        } else {
            find_path_children(n, cs, target, k + 1, pos + size_of(cs[k]))
        }
    } else if target == pos {
        (seq![PathEntryV { node: n, index: cs.len(), node_offset: pos as nat }], 0)
    } else {
        (seq![], 0)
    }
}

/// The path and position of the child boundary `index` of `doc`: inside a
/// block, a boundary after the first child is one level down; anything
/// else resolves to the start of the document.
pub open spec fn at_index_v(doc: NodeV, index: int) -> (int, Seq<PathEntryV>, int) {
    match doc.content {
        NodeContentV::Nodes(cs) => if 0 < index <= cs.len() {
            (
                1,
                seq![PathEntryV { node: doc, index: index as nat, node_offset: sizes_before(cs, index) as nat }],
                sizes_before(cs, index),
            )
        } else {
            (0, seq![], 0)
        },
        NodeContentV::Text { .. } => (0, seq![], 0),
    }
}

/// The depth that resolution reports never exceeds the path it builds.
proof fn lemma_find_path_depth(n: NodeV, target: int, cur: int)
    ensures
        0 <= find_path_v(n, target, cur).1 <= find_path_v(n, target, cur).0.len(),
    decreases n, 0int,
{
    if target != cur {
        match n.content {
            NodeContentV::Nodes(cs) => lemma_find_children_depth(n, cs, target, 0, cur),
            NodeContentV::Text { .. } => {},
        }
    }
}

proof fn lemma_find_children_depth(n: NodeV, cs: Seq<NodeV>, target: int, k: int, pos: int)
    requires
        n.content == NodeContentV::Nodes(cs),
    ensures
        0 <= find_path_children(n, cs, target, k, pos).1 <= find_path_children(n, cs, target, k, pos).0.len(),
    decreases cs, cs.len() - k,
{
    if 0 <= k < cs.len() {
        if target < pos + size_of(cs[k]) {
            assert(decreases_to!(n => n.content));
            lemma_find_path_depth(cs[k], target, pos);
        } else {
            lemma_find_children_depth(n, cs, target, k + 1, pos + size_of(cs[k]));
        }
    }
}

proof fn lemma_sizes_from_step(cs: Seq<NodeV>, k: int)
    requires
        0 <= k < cs.len(),
    ensures
        sizes_from(cs, k) == size_of(cs[k]) + sizes_from(cs, k + 1),
{
}

/// Resolving within `n` starting at `cur` keeps every position inside `n`.
fn find_path(
    doc: &Node,
    target_pos: usize,
    current_pos: usize,
    path: &mut Vec<PathEntry>,
    depth: &mut usize,
)
    requires
        current_pos + size_of(doc@) <= usize::MAX,
    ensures
        path_view(final(path)@) == path_view(old(path)@) + find_path_v(
            doc@,
            target_pos as int,
            current_pos as int,
        ).0,
        *final(depth) == old(path)@.len() + find_path_v(doc@, target_pos as int, current_pos as int).1,
    decreases doc, 0int,
{
    *depth = path.len();
    if target_pos == current_pos {
        proof {
            assert(path_view(path@) =~= path_view(path@) + Seq::<PathEntryV>::empty());
        }
        return;
    }
    match &doc.content {
        NodeContent::Nodes(nodes) => {
            proof {
                lemma_nodes_view(nodes@);
            }
            let ghost cs = nodes_view(nodes@);
            let ghost base = path_view(path@);
            let ghost base_len = path@.len();
            let mut pos = current_pos;
            let mut i: usize = 0;
            while i < nodes.len()
                invariant
                    i <= nodes@.len(),
                    doc.content == NodeContent::Nodes(*nodes),
                    doc@.content == NodeContentV::Nodes(cs),
                    cs == nodes_view(nodes@),
                    cs.len() == nodes@.len(),
                    forall|j: int| 0 <= j < cs.len() ==> #[trigger] cs[j] == nodes@[j]@,
                    pos + sizes_from(cs, i as int) + 2 == current_pos + size_of(doc@),
                    current_pos + size_of(doc@) <= usize::MAX,
                    path_view(path@) == base,
                    path@.len() == base_len,
                    base == path_view(old(path)@),
                    base_len == old(path)@.len(),
                    target_pos != current_pos,
                    *depth == base_len,
                    find_path_children(doc@, cs, target_pos as int, i as int, pos as int)
                        == find_path_children(doc@, cs, target_pos as int, 0, current_pos as int),
                decreases nodes@.len() - i,
            {
                proof {
                    lemma_sizes_from_step(cs, i as int);
                    lemma_content_le_size(cs[i as int]);
                }
                let child_size = nodes[i].content_size().size;
                if target_pos < pos + child_size {
                    let entry = PathEntry { node: doc.clone(), index: i, node_offset: pos };
                    path.push(entry);
                    proof {
                        assert(decreases_to!(*doc => doc.content));
                        assert(decreases_to!(doc.content => doc.content->Nodes_0));
                        assert(decreases_to!(*nodes => nodes@));
                        assert(decreases_to!(nodes@ => nodes@[i as int]));
                    }
                    let ghost mid = path_view(path@);
                    find_path(&nodes[i], target_pos, pos, path, depth);
                    proof {
                        assert(mid =~= base.push(entry@));
                        assert(cs[i as int] == nodes@[i as int]@);
                        assert(entry@ == PathEntryV { node: doc@, index: i as nat, node_offset: pos as nat });
                        let fc = find_path_children(doc@, cs, target_pos as int, i as int, pos as int);
                        let sub = find_path_v(cs[i as int], target_pos as int, pos as int);
                        assert(fc.0 == seq![entry@] + sub.0);
                        assert(fc.1 == 1 + sub.1);
                        assert(path_view(path@) == mid + sub.0);
                        assert(find_path_v(doc@, target_pos as int, current_pos as int)
                            == find_path_children(doc@, cs, target_pos as int, 0, current_pos as int));
                        assert(base.push(entry@) + sub.0 =~= base + (seq![entry@] + sub.0));
                        assert(path_view(path@) =~= base + find_path_v(
                            doc@,
                            target_pos as int,
                            current_pos as int,
                        ).0);
                    }
                    return;
                }
                pos = pos + child_size;
                i = i + 1;
            }
            if target_pos == pos {
                let entry = PathEntry { node: doc.clone(), index: nodes.len(), node_offset: pos };
                path.push(entry);
                proof {
                    assert(path_view(path@) =~= base + find_path_v(
                        doc@,
                        target_pos as int,
                        current_pos as int,
                    ).0);
                }
            } else {
                proof {
                    assert(path_view(path@) =~= base + find_path_v(
                        doc@,
                        target_pos as int,
                        current_pos as int,
                    ).0);
                }
            }
        },
        NodeContent::Text(_) => {
            proof {
                assert(path_view(path@) =~= path_view(path@) + Seq::<PathEntryV>::empty());
            }
        },
    }
}

/// The view of a resolved position: the position, its depth and its path.
pub struct ResolvedPosV {
    pub pos: nat,
    pub depth: nat,
    pub path: Seq<PathEntryV>,
}

/// The resolved position of `pos` in `doc`, as `ResolvedPos::from_pos` builds it.
pub open spec fn resolve_v(doc: NodeV, pos: nat) -> ResolvedPosV {
    ResolvedPosV {
        pos,
        depth: find_path_v(doc, pos as int, 0).1 as nat,
        path: find_path_v(doc, pos as int, 0).0,
    }
}

impl View for ResolvedPos {
    type V = ResolvedPosV;

    open spec fn view(&self) -> ResolvedPosV {
        ResolvedPosV { pos: self.spec_pos(), depth: self.spec_depth(), path: self.spec_path() }
    }
}

impl ResolvedPos {
    /// The path from the root to the parent of this position.
    pub closed spec fn spec_path(&self) -> Seq<PathEntryV> {
        path_view(self.path@)
    }

    /// The absolute position.
    pub closed spec fn spec_pos(&self) -> nat {
        self.pos as nat
    }

    /// The depth.
    pub closed spec fn spec_depth(&self) -> nat {
        self.depth as nat
    }

    /// The depth names a path entry or the root: `depth <= path length`.
    pub closed spec fn wf(&self) -> bool {
        self.depth <= self.spec_path().len()
    }

    /// Resolve the child boundary `index` of `doc`.
    pub fn at_index(doc: &Node, index: usize) -> (r: Self)
        requires
            size_of(doc@) <= usize::MAX,
        ensures
            r.spec_depth() == at_index_v(doc@, index as int).0,
            r.spec_path() == at_index_v(doc@, index as int).1,
            r.spec_pos() == at_index_v(doc@, index as int).2,
            r.wf(),
    {
        match &doc.content {
            NodeContent::Nodes(nodes) => {
                proof {
                    lemma_nodes_view(nodes@);
                }
                let ghost cs = nodes_view(nodes@);
                if index == 0 || index > nodes.len() {
                    let r = ResolvedPos { pos: 0, depth: 0, path: Vec::new() };
                    proof {
                        assert(r.spec_path() =~= seq![]);
                    }
                    return r;
                }
                let mut pos: usize = 0;
                let mut i: usize = 0;
                while i < index
                    invariant
                        i <= index <= nodes@.len(),
                        doc@.content == NodeContentV::Nodes(cs),
                        cs == nodes_view(nodes@),
                        cs.len() == nodes@.len(),
                        forall|j: int| 0 <= j < cs.len() ==> #[trigger] cs[j] == nodes@[j]@,
                        sizes_from(cs, 0) + 2 <= usize::MAX,
                        pos == sizes_before(cs, i as int),
                    decreases index - i,
                {
                    proof {
                        lemma_sizes_from_step(cs, i as int);
                        lemma_content_le_size(cs[i as int]);
                        assert(sizes_from(cs, i as int) <= sizes_from(cs, 0));
                    }
                    let child_size = nodes[i].content_size().size;
                    pos = pos + child_size;
                    i = i + 1;
                }
                let entry = PathEntry { node: doc.clone(), index, node_offset: pos };
                let path = vec![entry];
                let r = ResolvedPos { pos, depth: 1, path };
                proof {
                    assert(r.spec_path() =~= seq![entry@]);
                }
                r
            },
            NodeContent::Text(_) => {
                let r = ResolvedPos { pos: 0, depth: 0, path: Vec::new() };
                proof {
                    assert(r.spec_path() =~= seq![]);
                }
                r
            },
        }
    }

    /// Resolve the absolute position `pos` in `doc`.
    pub fn from_pos(doc: &Node, pos: usize) -> (r: Self)
        requires
            size_of(doc@) <= usize::MAX,
        ensures
            r.spec_pos() == pos,
            r.spec_path() == find_path_v(doc@, pos as int, 0).0,
            r.spec_depth() == find_path_v(doc@, pos as int, 0).1,
            r@ == resolve_v(doc@, pos as nat),
            r.wf(),
    {
        proof {
            lemma_find_path_depth(doc@, pos as int, 0);
        }
        let mut path: Vec<PathEntry> = Vec::new();
        let mut depth: usize = 0;
        find_path(doc, pos, 0, &mut path, &mut depth);
        proof {
            assert(path_view(Seq::<PathEntry>::empty()) =~= seq![]);
            assert(path_view(path@) =~= find_path_v(doc@, pos as int, 0).0);
        }
        ResolvedPos { pos, depth, path }
    }

    /// The parent node at `depth`: the root at depth 0 (none with an empty
    /// path), the path entry at depths up to this position's depth.
    pub fn parent(&self, depth: usize) -> (r: Option<&Node>)
        requires
            self.wf(),
        ensures
            depth == 0 ==> (self.spec_path().len() == 0 ==> r is None) && (self.spec_path().len() > 0
                ==> (r matches Some(n) && n@ == self.spec_path()[0].node)),
            0 < depth <= self.spec_depth() ==> (r matches Some(n) && n@ == self.spec_path()[depth - 1].node),
            depth > self.spec_depth() && depth != 0 ==> r is None,
    {
        if depth == 0 {
            if self.path.len() == 0 {
                None
            } else {
                Some(&self.path[0].node)
            }
        } else if depth <= self.depth {
            Some(&self.path[depth - 1].node)
        } else {
            None
        }
    }

    /// The immediate parent of this position (none at depth 0).
    pub fn immediate_parent(&self) -> (r: Option<&Node>)
        requires
            self.wf(),
        ensures
            self.spec_depth() == 0 ==> r is None,
            self.spec_depth() > 0 ==> (r matches Some(n) && n@ == self.spec_path()[self.spec_depth() - 1].node),
    {
        if self.depth == 0 {
            None
        } else {
            Some(&self.path[self.depth - 1].node)
        }
    }

    /// The index within the parent at `depth` (0 at the root).
    pub fn index(&self, depth: usize) -> (r: Option<usize>)
        requires
            self.wf(),
        ensures
            depth == 0 ==> r == Some(0usize),
            0 < depth <= self.spec_depth() ==> (r matches Some(i) && i == self.spec_path()[depth - 1].index),
            depth > self.spec_depth() && depth != 0 ==> r is None,
    {
        if depth == 0 {
            Some(0)
        } else if depth <= self.depth {
            Some(self.path[depth - 1].index)
        } else {
            None
        }
    }

    /// The index within the immediate parent (0 at depth 0).
    pub fn current_index(&self) -> (r: usize)
        requires
            self.wf(),
        ensures
            self.spec_depth() == 0 ==> r == 0,
            self.spec_depth() > 0 ==> r == self.spec_path()[self.spec_depth() - 1].index,
    {
        if self.depth == 0 {
            0
        } else {
            self.path[self.depth - 1].index
        }
    }

    /// The depth.
    pub fn depth(&self) -> (r: usize)
        ensures
            r == self.spec_depth(),
    {
        self.depth
    }

    /// The absolute position.
    pub fn position(&self) -> (r: usize)
        ensures
            r == self.spec_pos(),
    {
        self.pos
    }

    /// The offset recorded in the last path entry (0 with an empty path).
    pub fn node_offset(&self) -> (r: usize)
        ensures
            r == if self.spec_path().len() == 0 {
                0
            } else {
                self.spec_path().last().node_offset
            },
    {
        if self.path.len() == 0 {
            0
        } else {
            self.path[self.path.len() - 1].node_offset
        }
    }

    /// Whether the position is at the offset of its node.
    pub fn is_at_node_start(&self) -> (r: bool)
        ensures
            r == (self.spec_pos() == if self.spec_path().len() == 0 {
                0
            } else {
                self.spec_path().last().node_offset
            }),
    {
        self.pos == self.node_offset()
    }

    /// Whether the position is at the end of its immediate parent: the
    /// node's offset plus its size.
    pub fn is_at_node_end(&self) -> (r: bool)
        requires
            self.wf(),
            self.spec_depth() > 0 ==> size_of(self.spec_path()[self.spec_depth() - 1].node) <= usize::MAX,
        ensures
            self.spec_depth() == 0 ==> !r,
            self.spec_depth() > 0 ==> r == (self.spec_pos() == (if self.spec_path().len() == 0 {
                0
            } else {
                self.spec_path().last().node_offset as int
            }) + size_of(self.spec_path()[self.spec_depth() - 1].node)),
    {
        match self.immediate_parent() {
            Some(parent) => {
                let node_size = parent.content_size().size;
                let offset = self.node_offset();
                if offset > usize::MAX - node_size {
                    return false;
                }
                self.pos == offset + node_size
            },
            None => false,
        }
    }

    /// Whether this is the start of the document.
    pub fn is_doc_start(&self) -> (r: bool)
        ensures
            r == (self.spec_pos() == 0),
    {
        self.pos == 0
    }

    /// Whether this is the end of the document: the size of the root.
    pub fn is_doc_end(&self) -> (r: bool)
        requires
            self.spec_path().len() > 0 ==> size_of(self.spec_path()[0].node) <= usize::MAX,
        ensures
            self.spec_path().len() == 0 ==> !r,
            self.spec_path().len() > 0 ==> r == (self.spec_pos() == size_of(self.spec_path()[0].node)),
    {
        if self.path.len() == 0 {
            false
        } else {
            let root_size = self.path[0].node.content_size().size;
            self.pos == root_size
        }
    }

    /// The node, index and offset at the current depth (none at depth 0).
    pub fn descendent(&self) -> (r: Option<Descendant>)
        requires
            self.wf(),
        ensures
            self.spec_depth() == 0 ==> r is None,
            self.spec_depth() > 0 ==> (r matches Some(d) && d.node@ == self.spec_path()[self.spec_depth() - 1].node
                && d.index == self.spec_path()[self.spec_depth() - 1].index
                && d.offset == self.spec_path()[self.spec_depth() - 1].node_offset),
    {
        if self.depth == 0 {
            None
        } else {
            let entry = &self.path[self.depth - 1];
            Some(Descendant { node: entry.node.clone(), index: entry.index, offset: entry.node_offset })
        }
    }

    /// All path nodes, root first.
    pub fn ancestors(&self) -> (r: Vec<&Node>)
        ensures
            r@.len() == self.spec_path().len(),
            forall|i: int| 0 <= i < r@.len() ==> #[trigger] r@[i]@ == self.spec_path()[i].node,
    {
        let mut out: Vec<&Node> = Vec::new();
        let mut i: usize = 0;
        while i < self.path.len()
            invariant
                i <= self.path@.len(),
                out@.len() == i,
                forall|j: int| 0 <= j < i ==> #[trigger] out@[j]@ == self.spec_path()[j].node,
            decreases self.path@.len() - i,
        {
            out.push(&self.path[i].node);
            i = i + 1;
        }
        out
    }

    /// A copy of this position with an empty path, as it is restored from
    /// its serialized form (which keeps only the position and depth).
    pub fn detached(pos: usize, depth: usize) -> (r: Self)
        ensures
            r.spec_pos() == pos,
            r.spec_depth() == depth,
            r.spec_path().len() == 0,
    {
        let r = ResolvedPos { pos, depth, path: Vec::new() };
        proof {
            assert(r.spec_path() =~= seq![]);
        }
        r
    }
}

impl Clone for PathEntry {
    fn clone(&self) -> (r: Self)
        ensures
            r@ == self@,
    {
        PathEntry { node: self.node.clone(), index: self.index, node_offset: self.node_offset }
    }
}

impl Clone for ResolvedPos {
    fn clone(&self) -> (r: Self)
        ensures
            r.spec_pos() == self.spec_pos(),
            r.spec_depth() == self.spec_depth(),
            r.spec_path() == self.spec_path(),
    {
        let mut path: Vec<PathEntry> = Vec::new();
        let mut i: usize = 0;
        while i < self.path.len()
            invariant
                i <= self.path@.len(),
                path@.len() == i,
                forall|j: int| 0 <= j < i ==> #[trigger] path@[j]@ == self.path@[j]@,
            decreases self.path@.len() - i,
        {
            path.push(self.path[i].clone());
            i = i + 1;
        }
        let r = ResolvedPos { pos: self.pos, depth: self.depth, path };
        proof {
            assert(r.spec_path() =~= self.spec_path());
        }
        r
    }
}

} // verus!
