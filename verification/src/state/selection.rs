//! Selections: text selections made of anchor/head ranges, and node
//! selections.

use vstd::prelude::*;
use crate::model::node::{Node, NodeV, size_of};
use crate::model::resolved_pos::{ResolvedPos, ResolvedPosV, resolve_v};
use crate::strings::{to_string, append_str, decimal, decimal_v};

verus! {

/// A selection range with anchor and head.
#[derive(Debug)]
pub struct SelectionRange {
    /// The anchor point (where selection started)
    pub anchor: usize,
    /// The head point (where selection ends)
    pub head: usize,
    /// The resolved anchor position
    pub resolved_anchor: Option<ResolvedPos>,
    /// The resolved head position
    pub resolved_head: Option<ResolvedPos>,
}

/// The view of a range.
pub struct RangeV {
    pub anchor: nat,
    pub head: nat,
    pub resolved_anchor: Option<ResolvedPosV>,
    pub resolved_head: Option<ResolvedPosV>,
}

/// The view of an optional resolved position.
pub open spec fn opt_pos_view(p: Option<ResolvedPos>) -> Option<ResolvedPosV> {
    match p {
        Some(x) => Some(x@),
        None => None,
    }
}

impl View for SelectionRange {
    type V = RangeV;

    open spec fn view(&self) -> RangeV {
        RangeV {
            anchor: self.anchor as nat,
            head: self.head as nat,
            resolved_anchor: opt_pos_view(self.resolved_anchor),
            resolved_head: opt_pos_view(self.resolved_head),
        }
    }
}

impl RangeV {
    /// The smaller end.
    pub open spec fn from(self) -> nat {
        if self.anchor <= self.head {
            self.anchor
        } else {
            self.head
        }
    }

    /// The larger end.
    pub open spec fn to(self) -> nat {
        if self.anchor >= self.head {
            self.anchor
        } else {
            self.head
        }
    }

    /// Anchor and head coincide.
    pub open spec fn is_collapsed(self) -> bool {
        self.anchor == self.head
    }
}

/// An unresolved range.
pub open spec fn plain_range(anchor: nat, head: nat) -> RangeV {
    RangeV { anchor, head, resolved_anchor: None, resolved_head: None }
}

/// A range with both ends resolved in `doc`.
pub open spec fn resolved_range(doc: NodeV, anchor: nat, head: nat) -> RangeV {
    RangeV {
        anchor,
        head,
        resolved_anchor: Some(resolve_v(doc, anchor)),
        resolved_head: Some(resolve_v(doc, head)),
    }
}

/// A range carried across a change that ends at `to`: the anchor moves to
/// `to`, the head to `to` when collapsed and to `from` otherwise.
pub open spec fn map_range_v(r: RangeV, from: nat, to: nat) -> RangeV {
    plain_range(
        to,
        if r.is_collapsed() {
            to
        } else {
            from
        },
    )
}

/// The display form of a range.
pub open spec fn range_display(r: RangeV) -> Seq<char> {
    if r.is_collapsed() {
        "Cursor("@ + decimal_v(r.anchor) + ")"@
    } else {
        "Range("@ + decimal_v(r.anchor) + " → "@ + decimal_v(r.head) + ")"@
    }
}

/// Copy of an optional resolved position.
fn clone_opt_pos(p: &Option<ResolvedPos>) -> (r: Option<ResolvedPos>)
    ensures
        opt_pos_view(r) == opt_pos_view(*p),
{
    match p {
        Some(x) => Some(x.clone()),
        None => None,
    }
}

impl Clone for SelectionRange {
    fn clone(&self) -> (r: Self)
        ensures
            r@ == self@,
    {
        SelectionRange {
            anchor: self.anchor,
            head: self.head,
            resolved_anchor: clone_opt_pos(&self.resolved_anchor),
            resolved_head: clone_opt_pos(&self.resolved_head),
        }
    }
}

impl SelectionRange {
    /// Create a new range.
    pub fn new(anchor: usize, head: usize) -> (r: Self)
        ensures
            r@ == plain_range(anchor as nat, head as nat),
    {
        SelectionRange { anchor, head, resolved_anchor: None, resolved_head: None }
    }

    /// Create a collapsed range (cursor).
    pub fn collapse(anchor: usize) -> (r: Self)
        ensures
            r@ == plain_range(anchor as nat, anchor as nat),
    {
        Self::new(anchor, anchor)
    }

    /// The minimum position.
    pub fn from(&self) -> (r: usize)
        ensures
            r == self@.from(),
    {
        if self.anchor <= self.head {
            self.anchor
        } else {
            self.head
        }
    }

    /// The maximum position.
    pub fn to(&self) -> (r: usize)
        ensures
            r == self@.to(),
    {
        if self.anchor >= self.head {
            self.anchor
        } else {
            self.head
        }
    }

    /// Whether collapsed (cursor position).
    pub fn is_collapsed(&self) -> (r: bool)
        ensures
            r == self@.is_collapsed(),
    {
        self.anchor == self.head
    }

    /// Whether this is a backwards selection.
    pub fn is_backwards(&self) -> (r: bool)
        ensures
            r == (self.head < self.anchor),
    {
        self.head < self.anchor
    }

    /// This range with both ends resolved in `doc`.
    pub fn resolve(&self, doc: &Node) -> (r: Self)
        requires
            size_of(doc@) <= usize::MAX,
        ensures
            r@ == resolved_range(doc@, self.anchor as nat, self.head as nat),
    {
        SelectionRange {
            anchor: self.anchor,
            head: self.head,
            resolved_anchor: Some(ResolvedPos::from_pos(doc, self.anchor)),
            resolved_head: Some(ResolvedPos::from_pos(doc, self.head)),
        }
    }

    /// This range carried across a change ending at `to`.
    pub fn map(&self, from: usize, to: usize) -> (r: Self)
        ensures
            r@ == map_range_v(self@, from as nat, to as nat),
    {
        SelectionRange {
            anchor: to,
            head: if self.is_collapsed() {
                to
            } else {
                from
            },
            resolved_anchor: None,
            resolved_head: None,
        }
    }

    /// The display form: `Cursor(p)` or `Range(a → h)`.
    pub fn to_string(&self) -> (r: String)
        ensures
            r@ == range_display(self@),
    {
        if self.is_collapsed() {
            let mut s = to_string("Cursor(");
            let n = decimal(self.anchor);
            append_str(&mut s, n.as_str());
            append_str(&mut s, ")");
            s
        } else {
            let mut s = to_string("Range(");
            let a = decimal(self.anchor);
            append_str(&mut s, a.as_str());
            append_str(&mut s, " → ");
            let h = decimal(self.head);
            append_str(&mut s, h.as_str());
            append_str(&mut s, ")");
            s
        }
    }
}

/// The views of a list of ranges.
pub open spec fn ranges_view(rs: Seq<SelectionRange>) -> Seq<RangeV> {
    rs.map_values(|r: SelectionRange| r@)
}

/// Copies of a list of ranges.
fn clone_ranges(rs: &Vec<SelectionRange>) -> (r: Vec<SelectionRange>)
    ensures
        ranges_view(r@) == ranges_view(rs@),
{
    let mut out: Vec<SelectionRange> = Vec::new();
    let mut i: usize = 0;
    while i < rs.len()
        invariant
            i <= rs@.len(),
            out@.len() == i,
            forall|j: int| 0 <= j < i ==> #[trigger] out@[j]@ == rs@[j]@,
        decreases rs@.len() - i,
    {
        out.push(rs[i].clone());
        i = i + 1;
    }
    proof {
        assert(ranges_view(out@) =~= ranges_view(rs@));
    }
    out
}

/// Text selection (character/word selection).
#[derive(Debug)]
pub struct TextSelection {
    /// The selection ranges; the first is the primary one
    pub ranges: Vec<SelectionRange>,
}

impl View for TextSelection {
    type V = Seq<RangeV>;

    open spec fn view(&self) -> Seq<RangeV> {
        ranges_view(self.ranges@)
    }
}

/// The anchor of the primary range (0 with no range).
pub open spec fn text_anchor(rs: Seq<RangeV>) -> nat {
    if rs.len() > 0 {
        rs[0].anchor
    } else {
        0
    }
}

/// The head of the primary range (0 with no range).
pub open spec fn text_head(rs: Seq<RangeV>) -> nat {
    if rs.len() > 0 {
        rs[0].head
    } else {
        0
    }
}

/// The start of the primary range (0 with no range).
pub open spec fn text_from(rs: Seq<RangeV>) -> nat {
    if rs.len() > 0 {
        rs[0].from()
    } else {
        0
    }
}

/// The end of the primary range (0 with no range).
pub open spec fn text_to(rs: Seq<RangeV>) -> nat {
    if rs.len() > 0 {
        rs[0].to()
    } else {
        0
    }
}

/// Every range is collapsed.
pub open spec fn text_collapsed(rs: Seq<RangeV>) -> bool {
    forall|i: int| 0 <= i < rs.len() ==> #[trigger] rs[i].is_collapsed()
}

/// The display form of a text selection.
pub open spec fn text_display(rs: Seq<RangeV>) -> Seq<char> {
    if text_collapsed(rs) {
        "TextSelection("@ + decimal_v(text_head(rs)) + ")"@
    } else {
        "TextSelection("@ + decimal_v(text_from(rs)) + " → "@ + decimal_v(text_to(rs)) + ")"@
    }
}

impl Clone for TextSelection {
    fn clone(&self) -> (r: Self)
        ensures
            r@ == self@,
    {
        TextSelection { ranges: clone_ranges(&self.ranges) }
    }
}

impl Default for TextSelection {
    fn default() -> (r: Self)
        ensures
            r@ == seq![plain_range(0, 0)],
    {
        let r = TextSelection { ranges: vec![SelectionRange::collapse(0)] };
        proof {
            assert(r@ =~= seq![plain_range(0, 0)]);
        }
        r
    }
}

impl TextSelection {
    /// A cursor at `pos`, resolved in `doc`.
    pub fn at(doc: &Node, pos: usize) -> (r: Self)
        requires
            size_of(doc@) <= usize::MAX,
        ensures
            r@ == seq![resolved_range(doc@, pos as nat, pos as nat)],
    {
        let range = SelectionRange::collapse(pos).resolve(doc);
        let r = TextSelection { ranges: vec![range] };
        proof {
            assert(r@ =~= seq![resolved_range(doc@, pos as nat, pos as nat)]);
        }
        r
    }

    /// The range `anchor..head`, resolved in `doc`.
    pub fn create(doc: &Node, anchor: usize, head: usize) -> (r: Self)
        requires
            size_of(doc@) <= usize::MAX,
        ensures
            r@ == seq![resolved_range(doc@, anchor as nat, head as nat)],
    {
        let range = SelectionRange::new(anchor, head).resolve(doc);
        let r = TextSelection { ranges: vec![range] };
        proof {
            assert(r@ =~= seq![resolved_range(doc@, anchor as nat, head as nat)]);
        }
        r
    }

    /// The anchor position.
    pub fn anchor(&self) -> (r: usize)
        ensures
            r == text_anchor(self@),
    {
        if self.ranges.len() > 0 {
            self.ranges[0].anchor
        } else {
            0
        }
    }

    /// The head position.
    pub fn head(&self) -> (r: usize)
        ensures
            r == text_head(self@),
    {
        if self.ranges.len() > 0 {
            self.ranges[0].head
        } else {
            0
        }
    }

    /// The from position.
    pub fn from(&self) -> (r: usize)
        ensures
            r == text_from(self@),
    {
        if self.ranges.len() > 0 {
            self.ranges[0].from()
        } else {
            0
        }
    }

    /// The to position.
    pub fn to(&self) -> (r: usize)
        ensures
            r == text_to(self@),
    {
        if self.ranges.len() > 0 {
            self.ranges[0].to()
        } else {
            0
        }
    }

    /// Whether every range is collapsed.
    pub fn is_collapsed(&self) -> (r: bool)
        ensures
            r == text_collapsed(self@),
    {
        let mut i: usize = 0;
        while i < self.ranges.len()
            invariant
                i <= self.ranges@.len(),
                forall|j: int| 0 <= j < i ==> #[trigger] self@[j].is_collapsed(),
            decreases self.ranges@.len() - i,
        {
            if !self.ranges[i].is_collapsed() {
                proof {
                    assert(!self@[i as int].is_collapsed());
                }
                return false;
            }
            i = i + 1;
        }
        true
    }

    /// All ranges.
    pub fn ranges(&self) -> (r: &[SelectionRange])
        ensures
            r@ == self.ranges@,
    {
        self.ranges.as_slice()
    }

    /// The primary range.
    pub fn primary(&self) -> (r: Option<&SelectionRange>)
        ensures
            self.ranges@.len() > 0 ==> r == Some(&self.ranges@[0]),
            self.ranges@.len() == 0 ==> r is None,
    {
        if self.ranges.len() > 0 {
            Some(&self.ranges[0])
        } else {
            None
        }
    }

    /// Every range resolved in `doc`.
    pub fn resolve(&self, doc: &Node) -> (r: Self)
        requires
            size_of(doc@) <= usize::MAX,
        ensures
            r@.len() == self@.len(),
            forall|i: int|
                0 <= i < self@.len() ==> #[trigger] r@[i] == resolved_range(
                    doc@,
                    self@[i].anchor,
                    self@[i].head,
                ),
    {
        let mut out: Vec<SelectionRange> = Vec::new();
        let mut i: usize = 0;
        while i < self.ranges.len()
            invariant
                i <= self.ranges@.len(),
                out@.len() == i,
                size_of(doc@) <= usize::MAX,
                forall|j: int|
                    0 <= j < i ==> #[trigger] out@[j]@ == resolved_range(
                        doc@,
                        self.ranges@[j].anchor as nat,
                        self.ranges@[j].head as nat,
                    ),
            decreases self.ranges@.len() - i,
        {
            out.push(self.ranges[i].resolve(doc));
            i = i + 1;
        }
        TextSelection { ranges: out }
    }

    /// Every range carried across a change ending at `to`.
    pub fn map(&self, from: usize, to: usize) -> (r: Self)
        ensures
            r@.len() == self@.len(),
            forall|i: int|
                0 <= i < self@.len() ==> #[trigger] r@[i] == map_range_v(self@[i], from as nat, to as nat),
    {
        let mut out: Vec<SelectionRange> = Vec::new();
        let mut i: usize = 0;
        while i < self.ranges.len()
            invariant
                i <= self.ranges@.len(),
                out@.len() == i,
                forall|j: int|
                    0 <= j < i ==> #[trigger] out@[j]@ == map_range_v(
                        self.ranges@[j]@,
                        from as nat,
                        to as nat,
                    ),
            decreases self.ranges@.len() - i,
        {
            out.push(self.ranges[i].map(from, to));
            i = i + 1;
        }
        TextSelection { ranges: out }
    }

    /// The resolved anchor of the primary range.
    pub fn resolved_anchor(&self) -> (r: Option<&ResolvedPos>)
        ensures
            self@.len() == 0 ==> r is None,
            self@.len() > 0 ==> opt_pos_view(
                match r {
                    Some(p) => Some(*p),
                    None => None,
                },
            ) == self@[0].resolved_anchor,
    {
        if self.ranges.len() > 0 {
            match &self.ranges[0].resolved_anchor {
                Some(p) => Some(p),
                None => None,
            }
        } else {
            None
        }
    }

    /// The resolved head of the primary range.
    pub fn resolved_head(&self) -> (r: Option<&ResolvedPos>)
        ensures
            self@.len() == 0 ==> r is None,
            self@.len() > 0 ==> opt_pos_view(
                match r {
                    Some(p) => Some(*p),
                    None => None,
                },
            ) == self@[0].resolved_head,
    {
        if self.ranges.len() > 0 {
            match &self.ranges[0].resolved_head {
                Some(p) => Some(p),
                None => None,
            }
        } else {
            None
        }
    }

    /// The display form: `TextSelection(h)` or `TextSelection(f → t)`.
    pub fn to_string(&self) -> (r: String)
        ensures
            r@ == text_display(self@),
    {
        if self.is_collapsed() {
            let mut s = to_string("TextSelection(");
            let h = decimal(self.head());
            append_str(&mut s, h.as_str());
            append_str(&mut s, ")");
            s
        } else {
            let mut s = to_string("TextSelection(");
            let f = decimal(self.from());
            append_str(&mut s, f.as_str());
            append_str(&mut s, " → ");
            let t = decimal(self.to());
            append_str(&mut s, t.as_str());
            append_str(&mut s, ")");
            s
        }
    }
}

/// Node selection (selecting entire nodes).
#[derive(Debug, Clone, Copy, PartialEq, Eq, Structural)]
pub struct NodeSelection {
    /// The selected node's position
    pub pos: usize,
    /// The depth of the node
    pub depth: usize,
}

impl Default for NodeSelection {
    fn default() -> (r: Self)
        ensures
            r == (NodeSelection { pos: 0, depth: 0 }),
    {
        NodeSelection { pos: 0, depth: 0 }
    }
}

impl NodeSelection {
    /// Create a node selection.
    pub fn new(pos: usize, depth: usize) -> (r: Self)
        ensures
            r == (NodeSelection { pos, depth }),
    {
        NodeSelection { pos, depth }
    }

    /// Select child `index` of `node`: its start position, at depth 1.
    pub fn from_node(_doc: &Node, node: &Node, index: usize) -> (r: Self)
        requires
            size_of(node@) <= usize::MAX,
        ensures
            r.pos == crate::model::node::child_start_v(node@, index as int),
            r.depth == 1,
    {
        let pos = node.child_start_pos(index);
        NodeSelection { pos, depth: 1 }
    }

    /// The position.
    pub fn pos(&self) -> (r: usize)
        ensures
            r == self.pos,
    {
        self.pos
    }

    /// The depth.
    pub fn depth(&self) -> (r: usize)
        ensures
            r == self.depth,
    {
        self.depth
    }

    /// The display form: `NodeSelection(pos=p, depth=d)`.
    pub fn to_string(&self) -> (r: String)
        ensures
            r@ == "NodeSelection(pos="@ + decimal_v(self.pos as nat) + ", depth="@ + decimal_v(
                self.depth as nat,
            ) + ")"@,
    {
        let mut s = to_string("NodeSelection(pos=");
        let p = decimal(self.pos);
        append_str(&mut s, p.as_str());
        append_str(&mut s, ", depth=");
        let d = decimal(self.depth);
        append_str(&mut s, d.as_str());
        append_str(&mut s, ")");
        s
    }
}

/// A selection: a text selection or a node selection.
#[derive(Debug)]
pub enum Selection {
    Text(TextSelection),
    Node(NodeSelection),
}

/// The view of a selection.
pub enum SelectionV {
    Text(Seq<RangeV>),
    Node { pos: nat, depth: nat },
}

impl View for Selection {
    type V = SelectionV;

    open spec fn view(&self) -> SelectionV {
        match self {
            Selection::Text(t) => SelectionV::Text(t@),
            Selection::Node(n) => SelectionV::Node { pos: n.pos as nat, depth: n.depth as nat },
        }
    }
}

impl SelectionV {
    /// The anchor: the text anchor, or the node's position.
    pub open spec fn anchor(self) -> nat {
        match self {
            SelectionV::Text(rs) => text_anchor(rs),
            SelectionV::Node { pos, .. } => pos,
        }
    }

    /// The head: the text head, or the node's position.
    pub open spec fn head(self) -> nat {
        match self {
            SelectionV::Text(rs) => text_head(rs),
            SelectionV::Node { pos, .. } => pos,
        }
    }

    /// Collapsed: every text range collapsed; never for a node.
    pub open spec fn is_collapsed(self) -> bool {
        match self {
            SelectionV::Text(rs) => text_collapsed(rs),
            SelectionV::Node { .. } => false,
        }
    }

    /// The start: the text start, or the node's position.
    pub open spec fn from(self) -> nat {
        match self {
            SelectionV::Text(rs) => text_from(rs),
            SelectionV::Node { pos, .. } => pos,
        }
    }

    /// The end: the text end, or one past the node's position.
    pub open spec fn to(self) -> nat {
        match self {
            SelectionV::Text(rs) => text_to(rs),
            SelectionV::Node { pos, .. } => pos + 1,
        }
    }

    /// The end can be computed: a node's position is below `usize::MAX`.
    pub open spec fn to_fits(self) -> bool {
        match self {
            SelectionV::Text(_) => true,
            SelectionV::Node { pos, .. } => pos < usize::MAX,
        }
    }

    /// The primary positions fit in a `usize`, as those of every selection
    /// held in memory do.
    pub open spec fn positions_fit(self) -> bool {
        match self {
            SelectionV::Text(rs) => text_anchor(rs) <= usize::MAX && text_head(rs) <= usize::MAX,
            SelectionV::Node { pos, .. } => pos <= usize::MAX,
        }
    }
}

/// The primary positions of every selection fit in a `usize`.
pub proof fn lemma_positions_fit(s: &Selection)
    ensures
        s@.positions_fit(),
{
    match s {
        Selection::Text(t) => {
            if t.ranges@.len() > 0 {
                assert(t@[0] == t.ranges@[0]@);
            }
        },
        Selection::Node(_) => {},
    }
}

/// A selection resolved in `doc`: every text range gets both ends
/// resolved; a node selection is kept.
pub open spec fn resolve_selection_v(doc: NodeV, s: SelectionV) -> SelectionV {
    match s {
        SelectionV::Text(rs) => SelectionV::Text(
            rs.map_values(|r: RangeV| resolved_range(doc, r.anchor, r.head)),
        ),
        SelectionV::Node { .. } => s,
    }
}

/// The characters of an optional string.
pub open spec fn kind_view(k: Option<&str>) -> Option<Seq<char>> {
    match k {
        Some(t) => Some(t@),
        None => None,
    }
}

/// The selection that serialized fields describe: type `"text"` gives a
/// text selection of the ranges (none when absent), `"node"` a node
/// selection at the position and depth (0 when absent); any other type, or
/// none, describes no selection.
pub open spec fn parts_selection(
    kind: Option<Seq<char>>,
    ranges: Option<Seq<RangeV>>,
    pos: Option<usize>,
    depth: Option<usize>,
) -> Option<SelectionV> {
    match kind {
        Some(k) => if k == "text"@ {
            Some(
                SelectionV::Text(
                    match ranges {
                        Some(v) => v,
                        None => seq![],
                    },
                ),
            )
        } else if k == "node"@ {
            Some(
                SelectionV::Node {
                    pos: match pos {
                        Some(p) => p as nat,
                        None => 0,
                    },
                    depth: match depth {
                        Some(d) => d as nat,
                        None => 0,
                    },
                },
            )
        } else {
            None
        },
        None => None,
    }
}

/// The display form of a selection.
pub open spec fn selection_display(s: SelectionV) -> Seq<char> {
    match s {
        SelectionV::Text(rs) => text_display(rs),
        SelectionV::Node { pos, depth } => "NodeSelection(pos="@ + decimal_v(pos) + ", depth="@
            + decimal_v(depth) + ")"@,
    }
}

impl Clone for Selection {
    fn clone(&self) -> (r: Self)
        ensures
            r@ == self@,
    {
        match self {
            Selection::Text(t) => Selection::Text(t.clone()),
            Selection::Node(n) => Selection::Node(*n),
        }
    }
}

impl Selection {
    /// A text selection.
    pub fn text(text: TextSelection) -> (r: Self)
        ensures
            r@ == SelectionV::Text(text@),
    {
        Selection::Text(text)
    }

    /// A node selection.
    pub fn node(node: NodeSelection) -> (r: Self)
        ensures
            r@ == (SelectionV::Node { pos: node.pos as nat, depth: node.depth as nat }),
    {
        Selection::Node(node)
    }

    /// Whether this is a text selection.
    pub fn is_text(&self) -> (r: bool)
        ensures
            r == (self@ is Text),
    {
        match self {
            Selection::Text(_) => true,
            Selection::Node(_) => false,
        }
    }

    /// Whether this is a node selection.
    pub fn is_node(&self) -> (r: bool)
        ensures
            r == (self@ is Node),
    {
        match self {
            Selection::Text(_) => false,
            Selection::Node(_) => true,
        }
    }

    /// The text selection, if this is one.
    pub fn as_text(&self) -> (r: Option<&TextSelection>)
        ensures
            match self {
                Selection::Text(t) => r == Some(t),
                Selection::Node(_) => r is None,
            },
    {
        match self {
            Selection::Text(t) => Some(t),
            Selection::Node(_) => None,
        }
    }

    /// The node selection, if this is one.
    pub fn as_node(&self) -> (r: Option<&NodeSelection>)
        ensures
            match self {
                Selection::Text(_) => r is None,
                Selection::Node(n) => r == Some(n),
            },
    {
        match self {
            Selection::Text(_) => None,
            Selection::Node(n) => Some(n),
        }
    }

    /// The anchor position.
    pub fn anchor(&self) -> (r: usize)
        ensures
            r == self@.anchor(),
    {
        match self {
            Selection::Text(t) => t.anchor(),
            Selection::Node(n) => n.pos(),
        }
    }

    /// The head position.
    pub fn head(&self) -> (r: usize)
        ensures
            r == self@.head(),
    {
        match self {
            Selection::Text(t) => t.head(),
            Selection::Node(n) => n.pos(),
        }
    }

    /// Whether collapsed.
    pub fn is_collapsed(&self) -> (r: bool)
        ensures
            r == self@.is_collapsed(),
    {
        match self {
            Selection::Text(t) => t.is_collapsed(),
            Selection::Node(_) => false,
        }
    }

    /// The from position.
    pub fn from(&self) -> (r: usize)
        ensures
            r == self@.from(),
    {
        match self {
            Selection::Text(t) => t.from(),
            Selection::Node(n) => n.pos(),
        }
    }

    /// The to position.
    pub fn to(&self) -> (r: usize)
        requires
            self@.to_fits(),
        ensures
            r == self@.to(),
    {
        match self {
            Selection::Text(t) => t.to(),
            Selection::Node(n) => n.pos() + 1,
        }
    }

    /// This selection resolved in `doc`: text ranges get their positions
    /// resolved; a node selection is kept.
    pub fn resolve(&self, doc: &Node) -> (r: Self)
        requires
            size_of(doc@) <= usize::MAX,
        ensures
            r@ == resolve_selection_v(doc@, self@),
    {
        match self {
            Selection::Text(t) => {
                let r = t.resolve(doc);
                proof {
                    assert(r@ =~= t@.map_values(|x: RangeV| resolved_range(doc@, x.anchor, x.head)));
                }
                Selection::Text(r)
            },
            Selection::Node(n) => Selection::Node(*n),
        }
    }

    /// This selection carried across a change ending at `to`: text ranges
    /// move as `SelectionRange::map` says; a node moves to `to`.
    pub fn map(&self, from: usize, to: usize) -> (r: Self)
        ensures
            match (self@, r@) {
                (SelectionV::Text(a), SelectionV::Text(b)) => b.len() == a.len() && forall|i: int|
                    0 <= i < a.len() ==> #[trigger] b[i] == map_range_v(a[i], from as nat, to as nat),
                (SelectionV::Node { depth, .. }, SelectionV::Node { pos: p2, depth: d2 }) => p2
                    == to && d2 == depth,
                _ => false,
            },
    {
        match self {
            Selection::Text(t) => Selection::Text(t.map(from, to)),
            Selection::Node(n) => Selection::Node(NodeSelection::new(to, n.depth)),
        }
    }

    /// The display form of the selection.
    pub fn to_string(&self) -> (r: String)
        ensures
            r@ == selection_display(self@),
    {
        match self {
            Selection::Text(t) => t.to_string(),
            Selection::Node(n) => n.to_string(),
        }
    }

    /// The selection that the serialized fields describe: `type` `"text"`
    /// gives a text selection of `ranges` (none when absent), `"node"` a
    /// node selection at `pos` and `depth` (0 when absent); any other type,
    /// or none, is refused.
    pub fn from_parts(
        kind: Option<&str>,
        ranges: Option<Vec<SelectionRange>>,
        pos: Option<usize>,
        depth: Option<usize>,
    ) -> (r: Option<Self>)
        ensures
            match parts_selection(
                kind_view(kind),
                match ranges {
                    Some(v) => Some(ranges_view(v@)),
                    None => None,
                },
                pos,
                depth,
            ) {
                Some(v) => r matches Some(s) && s@ == v,
                None => r is None,
            },
    {
        match kind {
            Some(k) => {
                if crate::strings::str_eq(k, "text") {
                    let rs = match ranges {
                        Some(v) => v,
                        None => Vec::new(),
                    };
                    proof {
                        assert(ranges_view(Seq::<SelectionRange>::empty()) =~= seq![]);
                    }
                    Some(Selection::Text(TextSelection { ranges: rs }))
                } else if crate::strings::str_eq(k, "node") {
                    let p = match pos {
                        Some(p) => p,
                        None => 0,
                    };
                    let d = match depth {
                        Some(d) => d,
                        None => 0,
                    };
                    Some(Selection::Node(NodeSelection { pos: p, depth: d }))
                } else {
                    None
                }
            },
            None => None,
        }
    }
}

} // verus!
