//! The replace step and the other steps that rewrite a document.
//!
//! Positions are flat plain-text character offsets: the text of a `doc`'s
//! paragraphs joined by `'\n'` (see `model::node`).

use vstd::prelude::*;
use crate::model::node::{
    Node, NodeV, Mark, MarkV, marks_view, nodes_view, lemma_nodes_view, text_of, texts_from,
    plain_text_of, with_plain_text_v, paragraph_texts_of, strings_view, doc_from_paragraphs, para_at,
    size_of, sizes_from, content_len_of, contents_from, lemma_content_le_size,
    lemma_contents_le_sizes, marked_len, checked_marked_len, checked_sizes, mark_node, text_v, clone_nodes, clone_marks, law_plain_text_round_trip,
};
use crate::model::node::NodeContentV;
use crate::strings::{char_count, char_slice, append_str, to_string};
use crate::transform::map::{StepMap, MapResult};
use crate::transform::step::{
    Step, Storable, StepError, StepErrorV, StepResult, StepResultV, Mappable, Invertible, StoredStep,
};

verus! {

/// A slice of document content that can be inserted or used as replacement.
#[derive(Debug)]
pub struct Slice {
    /// The content of the slice
    pub content: Vec<Node>,
    /// The open depth at the start
    pub open_start: usize,
    /// The open depth at the end
    pub open_end: usize,
}

/// The view of a slice.
pub struct SliceV {
    pub content: Seq<NodeV>,
    pub open_start: nat,
    pub open_end: nat,
}

impl View for Slice {
    type V = SliceV;

    open spec fn view(&self) -> SliceV {
        SliceV {
            content: nodes_view(self.content@),
            open_start: self.open_start as nat,
            open_end: self.open_end as nat,
        }
    }
}

/// The slice holding one text node.
pub open spec fn text_slice_v(t: Seq<char>) -> SliceV {
    SliceV { content: seq![text_v(t, seq![])], open_start: 0, open_end: 0 }
}

/// The empty slice.
pub open spec fn empty_slice_v() -> SliceV {
    SliceV { content: seq![], open_start: 0, open_end: 0 }
}

impl Clone for Slice {
    fn clone(&self) -> (r: Self)
        ensures
            r@ == self@,
    {
        Slice { content: clone_nodes(&self.content), open_start: self.open_start, open_end: self.open_end }
    }
}

impl Slice {
    /// An empty slice.
    pub fn empty() -> (r: Self)
        ensures
            r@ == empty_slice_v(),
    {
        let r = Slice { content: Vec::new(), open_start: 0, open_end: 0 };
        proof {
            lemma_nodes_view(r.content@);
            assert(r@.content =~= seq![]);
        }
        r
    }

    /// A slice holding one text node with `text`.
    pub fn from_text(text: &str) -> (r: Self)
        ensures
            r@ == text_slice_v(text@),
    {
        let t = Node::new_text(text);
        let content = vec![t];
        proof {
            assert(content@ =~= seq![t]);
            lemma_nodes_view(content@);
            assert(nodes_view(content@) =~= seq![t@]);
        }
        Slice { content, open_start: 0, open_end: 0 }
    }

    /// A closed slice holding `nodes`.
    pub fn from_nodes(nodes: Vec<Node>) -> (r: Self)
        ensures
            r@ == (SliceV { content: nodes_view(nodes@), open_start: 0, open_end: 0 }),
    {
        Slice { content: nodes, open_start: 0, open_end: 0 }
    }

    /// A slice holding `nodes` with the given open depths.
    pub fn with_open(nodes: Vec<Node>, open_start: usize, open_end: usize) -> (r: Self)
        ensures
            r@ == (SliceV {
                content: nodes_view(nodes@),
                open_start: open_start as nat,
                open_end: open_end as nat,
            }),
    {
        Slice { content: nodes, open_start, open_end }
    }

    /// The total size of the slice's nodes.
    pub fn size(&self) -> (r: usize)
        requires
            sizes_from(self@.content, 0) <= usize::MAX,
        ensures
            r == sizes_from(self@.content, 0),
    {
        let ghost cs = self@.content;
        proof {
            lemma_nodes_view(self.content@);
        }
        let mut total: usize = 0;
        let mut i: usize = 0;
        while i < self.content.len()
            invariant
                i <= self.content@.len(),
                cs == nodes_view(self.content@),
                cs.len() == self.content@.len(),
                forall|j: int| 0 <= j < cs.len() ==> #[trigger] cs[j] == self.content@[j]@,
                sizes_from(cs, 0) <= usize::MAX,
                total + sizes_from(cs, i as int) == sizes_from(cs, 0),
            decreases self.content@.len() - i,
        {
            proof {
                lemma_content_le_size(cs[i as int]);
                assert(sizes_from(cs, i as int) == size_of(cs[i as int]) + sizes_from(cs, i + 1));
            }
            let s = self.content[i].content_size();
            total = total + s.size;
            i = i + 1;
        }
        total
    }

    /// The total content length of the slice's nodes.
    pub fn content_size(&self) -> (r: usize)
        requires
            sizes_from(self@.content, 0) <= usize::MAX,
        ensures
            r == contents_from(self@.content, 0),
    {
        let ghost cs = self@.content;
        proof {
            lemma_nodes_view(self.content@);
            lemma_contents_le_sizes(cs, 0);
        }
        let mut total: usize = 0;
        let mut i: usize = 0;
        while i < self.content.len()
            invariant
                i <= self.content@.len(),
                cs == nodes_view(self.content@),
                cs.len() == self.content@.len(),
                forall|j: int| 0 <= j < cs.len() ==> #[trigger] cs[j] == self.content@[j]@,
                sizes_from(cs, 0) <= usize::MAX,
                contents_from(cs, 0) <= sizes_from(cs, 0),
                sizes_from(cs, i as int) <= sizes_from(cs, 0),
                total + contents_from(cs, i as int) == contents_from(cs, 0),
            decreases self.content@.len() - i,
        {
            proof {
                lemma_content_le_size(cs[i as int]);
                lemma_contents_le_sizes(cs, i + 1);
                assert(sizes_from(cs, i as int) == size_of(cs[i as int]) + sizes_from(cs, i + 1));
                assert(contents_from(cs, i as int) == content_len_of(cs[i as int]) + contents_from(cs, i + 1));
                lemma_contents_le_sizes(cs, i as int);
                assert(cs[i as int] == self.content@[i as int]@);
            }
            let s = self.content[i].content_size();
            total = total + s.content_size;
            i = i + 1;
        }
        total
    }

    /// The number of nodes.
    pub fn node_count(&self) -> (r: usize)
        ensures
            r == self@.content.len(),
    {
        proof {
            lemma_nodes_view(self.content@);
        }
        self.content.len()
    }

    /// Whether the slice holds no nodes.
    pub fn is_empty(&self) -> (r: bool)
        ensures
            r == (self@.content.len() == 0),
    {
        proof {
            lemma_nodes_view(self.content@);
        }
        self.content.len() == 0
    }

    /// The first node.
    pub fn first(&self) -> (r: Option<&Node>)
        ensures
            self@.content.len() == 0 ==> r is None,
            self@.content.len() > 0 ==> (r matches Some(n) && n@ == self@.content[0]),
    {
        proof {
            lemma_nodes_view(self.content@);
        }
        if self.content.len() == 0 {
            None
        } else {
            Some(&self.content[0])
        }
    }

    /// The last node.
    pub fn last(&self) -> (r: Option<&Node>)
        ensures
            self@.content.len() == 0 ==> r is None,
            self@.content.len() > 0 ==> (r matches Some(n) && n@ == self@.content.last()),
    {
        proof {
            lemma_nodes_view(self.content@);
        }
        if self.content.len() == 0 {
            None
        } else {
            Some(&self.content[self.content.len() - 1])
        }
    }
}

/// The text of a sequence of nodes, concatenated.
pub fn nodes_text(ns: &Vec<Node>) -> (r: String)
    ensures
        r@ == texts_from(nodes_view(ns@), 0),
{
    let ghost cs = nodes_view(ns@);
    proof {
        lemma_nodes_view(ns@);
    }
    let mut out = String::new();
    let mut i: usize = 0;
    while i < ns.len()
        invariant
            i <= ns@.len(),
            cs == nodes_view(ns@),
            cs.len() == ns@.len(),
            forall|j: int| 0 <= j < cs.len() ==> #[trigger] cs[j] == ns@[j]@,
            out@ + texts_from(cs, i as int) == texts_from(cs, 0),
        decreases ns@.len() - i,
    {
        let t = ns[i].text_content();
        append_str(&mut out, t.as_str());
        proof {
            assert(out@ + texts_from(cs, i + 1) =~= texts_from(cs, 0));
        }
        i = i + 1;
    }
    proof {
        assert(out@ =~= texts_from(cs, 0));
    }
    out
}

/// `text` with the range `from..to` replaced by `ins`.
pub open spec fn replace_range(text: Seq<char>, from: int, to: int, ins: Seq<char>) -> Seq<char> {
    text.take(from) + ins + text.skip(to)
}

/// Replace step: insertion (`from == to`), deletion (empty slice) or
/// replacement of the plain-text range `from..to` by the slice's text.
#[derive(Debug)]
pub struct ReplaceStep {
    /// Start position of the replacement
    pub from: usize,
    /// End position of the replacement
    pub to: usize,
    /// The slice to insert
    pub slice: Slice,
    /// Structure-only flag (don't replace text)
    pub structure_only: bool,
}

impl Clone for ReplaceStep {
    fn clone(&self) -> (r: Self)
        ensures
            r.from == self.from,
            r.to == self.to,
            r.slice@ == self.slice@,
            r.structure_only == self.structure_only,
    {
        ReplaceStep {
            from: self.from,
            to: self.to,
            slice: self.slice.clone(),
            structure_only: self.structure_only,
        }
    }
}

impl ReplaceStep {
    /// Create a new replace step.
    pub fn new(from: usize, to: usize, slice: Slice) -> (r: Self)
        ensures
            r.from == from,
            r.to == to,
            r.slice@ == slice@,
            !r.structure_only,
    {
        ReplaceStep { from, to, slice, structure_only: false }
    }

    /// Create an insert step.
    pub fn insert(pos: usize, slice: Slice) -> (r: Self)
        ensures
            r.from == pos,
            r.to == pos,
            r.slice@ == slice@,
            !r.structure_only,
    {
        Self::new(pos, pos, slice)
    }

    /// Create a delete step.
    pub fn delete(from: usize, to: usize) -> (r: Self)
        ensures
            r.from == from,
            r.to == to,
            r.slice@ == empty_slice_v(),
            !r.structure_only,
    {
        Self::new(from, to, Slice::empty())
    }

    /// Create a replace step.
    pub fn replace(from: usize, to: usize, slice: Slice) -> (r: Self)
        ensures
            r.from == from,
            r.to == to,
            r.slice@ == slice@,
            !r.structure_only,
    {
        Self::new(from, to, slice)
    }

    /// Set structure-only mode.
    pub fn with_structure_only(self, structure_only: bool) -> (r: Self)
        ensures
            r.from == self.from,
            r.to == self.to,
            r.slice@ == self.slice@,
            r.structure_only == structure_only,
    {
        let mut s = self;
        s.structure_only = structure_only;
        s
    }

    /// The result of applying this step to `doc`.
    pub open spec fn spec_apply_replace(&self, doc: NodeV) -> Result<StepResultV, StepErrorV> {
        let text = plain_text_of(doc);
        if self.from > self.to || self.to > text.len() {
            Err(StepErrorV::PositionOutOfRange(self.from as nat))
        } else {
            let next = replace_range(
                text,
                self.from as int,
                self.to as int,
                texts_from(self.slice@.content, 0),
            );
            Ok(
                StepResultV {
                    doc: with_plain_text_v(doc, next),
                    from: self.from as nat,
                    to: self.to as nat,
                    slice: if self.slice@.content.len() == 0 {
                        None
                    } else {
                        Some(self.slice@)
                    },
                },
            )
        }
    }
}

impl Step for ReplaceStep {
    open spec fn can_apply(&self, doc: NodeV) -> bool {
        true
    }

    open spec fn spec_apply(&self, doc: NodeV) -> Result<StepResultV, StepErrorV> {
        self.spec_apply_replace(doc)
    }

    /// This step has no arithmetic to fault on.
    fn fits(&self, doc: &Node) -> (r: bool) {
        true
    }

    /// Replace the plain-text range `from..to` of `doc` by the slice's text;
    /// fails when the range is reversed or ends past the text.
    fn apply(&self, doc: &Node) -> (r: Result<StepResult, StepError>) {
        let doc_len = doc.plain_text_len();
        if self.from > self.to || self.to > doc_len {
            return Err(StepError::PositionOutOfRange(self.from));
        }
        let doc_text = doc.plain_text();
        let insert_text = nodes_text(&self.slice.content);
        let mut next_text = char_slice(doc_text.as_str(), 0, self.from);
        append_str(&mut next_text, insert_text.as_str());
        let tail = char_slice(doc_text.as_str(), self.to, doc_len);
        append_str(&mut next_text, tail.as_str());
        proof {
            assert(next_text@ =~= replace_range(
                doc_text@,
                self.from as int,
                self.to as int,
                insert_text@,
            ));
        }
        let new_doc = doc.with_plain_text(next_text.as_str());
        let slice = if self.slice.is_empty() {
            None
        } else {
            Some(self.slice.clone())
        };
        Ok(StepResult::new(new_doc, self.from, self.to, slice))
    }

}

impl Storable for ReplaceStep {
    fn into_stored(self) -> (r: StoredStep) {
        StoredStep::Replace(self)
    }
}

impl Mappable for ReplaceStep {
    open spec fn can_map_through(&self, map: StepMap) -> bool {
        map.can_map(self.from as int) && map.can_map(self.to as int)
    }

    open spec fn maps_to(&self, map: StepMap, r: Self) -> bool {
        let from_result = map.spec_map(self.from as int);
        let to_result = map.spec_map(self.to as int);
        &&& r.from == from_result.pos
        &&& r.to == if to_result.deleted || from_result.replaced {
            from_result.pos
        } else {
            to_result.pos
        }
        &&& r.slice@ == self.slice@
        &&& r.structure_only == self.structure_only
    }

    /// Carry this step's range through `map`: the start maps as a position;
    /// the end collapses onto the start when it was deleted or the start
    /// was replaced.
    fn map(&self, map: &StepMap) -> (r: Self) {
        let from_result = map.map(self.from);
        let to_result = map.map(self.to);
        let new_from = from_result.pos;
        let new_to = if to_result.deleted || from_result.replaced {
            new_from
        } else {
            to_result.pos
        };
        Self::new(new_from, new_to, self.slice.clone()).with_structure_only(self.structure_only)
    }
}

impl Invertible for ReplaceStep {
    open spec fn can_invert(&self, doc: NodeV) -> bool {
        &&& self.from <= self.to <= plain_text_of(doc).len()
        &&& self.from + sizes_from(self.slice@.content, 0) <= usize::MAX
    }

    open spec fn inverts(&self, doc: NodeV, r: Self) -> bool {
        let deleted = plain_text_of(doc).subrange(self.from as int, self.to as int);
        &&& r.from == self.from
        &&& r.to == self.from + sizes_from(self.slice@.content, 0)
        &&& r.slice@ == if deleted.len() == 0 {
            empty_slice_v()
        } else {
            text_slice_v(deleted)
        }
        &&& !r.structure_only
    }

    /// The range lies in the plain text and the end of the inserted
    /// content fits in a `usize`.
    fn can_invert_on(&self, doc: &Node) -> (r: bool) {
        if self.from > self.to || self.to > doc.plain_text_len() {
            return false;
        }
        match checked_sizes(&self.slice.content) {
            Some(k) => self.from <= usize::MAX - k,
            None => false,
        }
    }

    /// The step that puts back what this step removed from `doc`: it
    /// replaces the inserted range `from..from + slice size` by the text
    /// that `from..to` held.
    fn invert(&self, doc: &Node) -> (r: Self) {
        let text = doc.plain_text();
        let deleted_text = char_slice(text.as_str(), self.from, self.to);
        let deleted_slice = if char_count(deleted_text.as_str()) == 0 {
            Slice::empty()
        } else {
            Slice::from_text(deleted_text.as_str())
        };
        let size = self.slice.size();
        Self::new(self.from, self.from + size, deleted_slice)
    }
}

/// Split the paragraph at a cursor position.
#[derive(Debug, Clone, Copy, PartialEq, Eq, Structural)]
pub struct SplitBlockStep {
    /// Cursor position in flat text coordinates.
    pub pos: usize,
}

impl SplitBlockStep {
    /// Create a new split block step.
    pub fn new(pos: usize) -> (r: Self)
        ensures
            r.pos == pos,
    {
        SplitBlockStep { pos }
    }
}

/// The paragraph list with paragraph `i` cut at offset `o`.
pub open spec fn split_paragraphs(ps: Seq<Seq<char>>, i: int, o: int) -> Seq<Seq<char>> {
    ps.take(i) + seq![ps[i].take(o), ps[i].skip(o)] + ps.skip(i + 1)
}

/// The paragraph list with paragraph `i` appended to paragraph `i - 1`.
pub open spec fn join_paragraphs(ps: Seq<Seq<char>>, i: int) -> Seq<Seq<char>> {
    ps.take(i - 1) + seq![ps[i - 1] + ps[i]] + ps.skip(i + 1)
}

/// The flat plain-text offset where paragraph `i` starts.
pub open spec fn line_start(ps: Seq<Seq<char>>, i: int) -> int
    decreases i,
{
    if i <= 0 {
        0
    } else {
        line_start(ps, i - 1) + ps[i - 1].len() + 1
    }
}

/// The first paragraph `i >= k` at whose boundary with paragraph `i - 1`
/// the position `pos` stands: the end of paragraph `i - 1` or the start of
/// paragraph `i`.
pub open spec fn boundary_from(ps: Seq<Seq<char>>, pos: int, k: int) -> Option<int>
    decreases ps.len() - k,
{
    if k >= ps.len() || k < 1 {
        None
    } else if line_start(ps, k) - 1 <= pos <= line_start(ps, k) {
        Some(k)
    } else {
        boundary_from(ps, pos, k + 1)
    }
}

/// `line_start` of a prefix agrees with that of the whole list.
proof fn lemma_line_start_prefix(ps: Seq<Seq<char>>, n: int, i: int)
    requires
        0 <= i <= n <= ps.len(),
    ensures
        line_start(ps.take(n), i) == line_start(ps, i),
    decreases i,
{
    if i > 0 {
        lemma_line_start_prefix(ps, n, i - 1);
    }
}

/// `line_start` is monotone.
proof fn lemma_line_start_mono(ps: Seq<Seq<char>>, i: int, j: int)
    requires
        0 <= i <= j <= ps.len(),
    ensures
        line_start(ps, i) <= line_start(ps, j),
    decreases j - i,
{
    if i < j {
        lemma_line_start_mono(ps, i, j - 1);
    }
}

/// The joined text is one shorter than the last line start.
proof fn lemma_line_start_total(ps: Seq<Seq<char>>)
    requires
        ps.len() >= 1,
    ensures
        line_start(ps, ps.len() as int) == crate::model::node::join_lines(ps).len() + 1,
    decreases ps.len(),
{
    let n = ps.len() as int;
    assert(line_start(ps, n) == line_start(ps, n - 1) + ps[n - 1].len() + 1);
    if ps.len() > 1 {
        lemma_line_start_total(ps.drop_last());
        assert(ps.drop_last() =~= ps.take(n - 1));
        lemma_line_start_prefix(ps, n - 1, n - 1);
        assert(crate::model::node::join_lines(ps) == crate::model::node::join_lines(ps.drop_last())
            + seq!['\n'] + ps.last());
    } else {
        assert(line_start(ps, 0) == 0);
    }
}

impl Step for SplitBlockStep {
    open spec fn can_apply(&self, doc: NodeV) -> bool {
        true
    }

    open spec fn spec_apply(&self, doc: NodeV) -> Result<StepResultV, StepErrorV> {
        let ps = paragraph_texts_of(doc);
        match para_at(ps, self.pos as int) {
            Some((i, o)) => Ok(
                StepResultV {
                    doc: doc_from_paragraphs(split_paragraphs(ps, i, o)),
                    from: self.pos as nat,
                    to: self.pos as nat,
                    slice: None,
                },
            ),
            None => Err(StepErrorV::PositionOutOfRange(self.pos as nat)),
        }
    }

    /// This step has no arithmetic to fault on.
    fn fits(&self, doc: &Node) -> (r: bool) {
        true
    }

    /// Split the paragraph that holds `pos` in two at that position.
    fn apply(&self, doc: &Node) -> (r: Result<StepResult, StepError>) {
        let paragraphs = doc.paragraph_texts();
        let ghost ps = strings_view(paragraphs@);
        let located = doc.paragraph_at(self.pos);
        let (index, offset) = match located {
            Some(pair) => pair,
            None => {
                return Err(StepError::PositionOutOfRange(self.pos));
            },
        };
        proof {
            crate::model::node::lemma_para_at_bounds(ps, self.pos as int);
            assert(ps[index as int] == paragraphs@[index as int]@);
        }
        let current = &paragraphs[index];
        let len = char_count(current.as_str());
        let left = char_slice(current.as_str(), 0, offset);
        let right = char_slice(current.as_str(), offset, len);
        let mut next: Vec<String> = Vec::new();
        let mut i: usize = 0;
        while i < paragraphs.len()
            invariant
                i <= paragraphs@.len(),
                index < paragraphs@.len(),
                ps == strings_view(paragraphs@),
                left@ == ps[index as int].take(offset as int),
                right@ == ps[index as int].skip(offset as int),
                strings_view(next@) == if i <= index {
                    ps.take(i as int)
                } else {
                    split_paragraphs(ps, index as int, offset as int).take(i + 1)
                },
            decreases paragraphs@.len() - i,
        {
            let ghost before = strings_view(next@);
            let ghost before_v = next@;
            proof {
                assert(ps[i as int] == paragraphs@[i as int]@);
            }
            if i == index {
                let l = to_string(left.as_str());
                let r = to_string(right.as_str());
                next.push(l);
                next.push(r);
                proof {
                    assert(strings_view(next@) =~= before.push(left@).push(right@));
                }
            } else {
                let c = paragraphs[i].clone();
                next.push(c);
                proof {
                    assert(strings_view(next@) =~= before.push(ps[i as int]));
                }
            }
            proof {
                let sp = split_paragraphs(ps, index as int, offset as int);
                if i < index {
                    assert(strings_view(next@) =~= ps.take(i + 1));
                } else if i == index {
                    assert(strings_view(next@) =~= sp.take(i + 2));
                } else {
                    assert(sp[i + 1] == ps[i as int]);
                    assert(strings_view(next@) =~= sp.take(i + 2));
                }
            }
            i = i + 1;
        }
        proof {
            let sp = split_paragraphs(ps, index as int, offset as int);
            assert(sp.take(paragraphs@.len() as int + 1) =~= sp);
        }
        let new_doc = Node::from_paragraph_texts(next);
        Ok(StepResult::new(new_doc, self.pos, self.pos, None))
    }

}

impl Storable for SplitBlockStep {
    fn into_stored(self) -> (r: StoredStep) {
        StoredStep::SplitBlock(self)
    }
}

/// Join the paragraph at a cursor with its previous sibling.
#[derive(Debug, Clone, Copy, PartialEq, Eq, Structural)]
pub struct JoinBackwardStep {
    /// Cursor position at the boundary of the paragraph to join.
    pub pos: usize,
}

impl JoinBackwardStep {
    /// Create a new join backward step.
    pub fn new(pos: usize) -> (r: Self)
        ensures
            r.pos == pos,
    {
        JoinBackwardStep { pos }
    }
}

impl Step for JoinBackwardStep {
    open spec fn can_apply(&self, doc: NodeV) -> bool {
        plain_text_of(doc).len() < usize::MAX
    }

    open spec fn spec_apply(&self, doc: NodeV) -> Result<StepResultV, StepErrorV> {
        let ps = paragraph_texts_of(doc);
        match boundary_from(ps, self.pos as int, 1) {
            Some(i) => Ok(
                StepResultV {
                    doc: doc_from_paragraphs(join_paragraphs(ps, i)),
                    from: self.pos as nat,
                    to: self.pos as nat,
                    slice: None,
                },
            ),
            None => Err(
                StepErrorV::Failed("join_backward requires a cursor at the start of a paragraph"@),
            ),
        }
    }

    /// The plain text must be shorter than `usize::MAX`.
    fn fits(&self, doc: &Node) -> (r: bool) {
        doc.plain_text_len() < usize::MAX
    }

    /// Join paragraph `i` onto paragraph `i - 1`, for the first `i > 0` at
    /// whose boundary the cursor stands (the end of paragraph `i - 1` or the
    /// start of paragraph `i`); fails when there is none.
    fn apply(&self, doc: &Node) -> (r: Result<StepResult, StepError>) {
        let paragraphs = doc.paragraph_texts();
        let ghost ps = strings_view(paragraphs@);
        let n = paragraphs.len();
        let mut start: usize = 0;
        let mut i: usize = 0;
        let mut found: Option<usize> = None;
        proof {
            if n >= 1 {
                lemma_line_start_total(ps);
            }
        }
        while i < n
            invariant_except_break
                found is None,
            invariant
                n == paragraphs@.len(),
                ps == strings_view(paragraphs@),
                ps == paragraph_texts_of(doc@),
                plain_text_of(doc@).len() < usize::MAX,
                n >= 1 ==> crate::model::node::join_lines(ps).len() + 1 == line_start(ps, n as int),
                i <= n,
                start == line_start(ps, i as int),
                i >= 1 ==> start >= 1,
                boundary_from(ps, self.pos as int, 1) == if i <= 1 {
                    boundary_from(ps, self.pos as int, 1)
                } else {
                    boundary_from(ps, self.pos as int, i as int)
                },
                i >= 1 || start == 0,
            ensures
                found matches Some(k) ==> 1 <= k < n && boundary_from(ps, self.pos as int, 1) == Some(
                    k as int,
                ),
                found is None ==> boundary_from(ps, self.pos as int, 1) is None,
            decreases n - i,
        {
            if i > 0 && (self.pos == start || self.pos == start - 1) {
                found = Some(i);
                break;
            }
            proof {
                lemma_line_start_mono(ps, i + 1, n as int);
                assert(plain_text_of(doc@) == crate::model::node::join_lines(ps));
            }
            let len = char_count(paragraphs[i].as_str());
            proof {
                assert(ps[i as int] == paragraphs@[i as int]@);
            }
            start = start + len + 1;
            i = i + 1;
        }
        let index = match found {
            Some(k) => k,
            None => {
                return Err(StepError::Failed(to_string("join_backward requires a cursor at the start of a paragraph")));
            },
        };
        let mut next: Vec<String> = Vec::new();
        let mut j: usize = 0;
        let ghost jp = join_paragraphs(ps, index as int);
        while j < n
            invariant
                n == paragraphs@.len(),
                ps == strings_view(paragraphs@),
                1 <= index < n,
                jp == join_paragraphs(ps, index as int),
                j <= n,
                j != index,
                strings_view(next@) == if j < index {
                    ps.take(j as int)
                } else {
                    jp.take(j - 1)
                },
            decreases n - j,
        {
            proof {
                assert(ps[j as int] == paragraphs@[j as int]@);
                if j + 1 < n {
                    assert(ps[j + 1] == paragraphs@[j + 1]@);
                }
            }
            if j + 1 == index {
                let ghost before = strings_view(next@);
                let mut joined = paragraphs[j].clone();
                append_str(&mut joined, paragraphs[j + 1].as_str());
                next.push(joined);
                proof {
                    assert(strings_view(next@) =~= before.push(ps[j as int] + ps[j + 1]));
                }
                proof {
                    assert(strings_view(next@) =~= jp.take(j as int + 1));
                }
                j = j + 2;
            } else {
                let ghost before = strings_view(next@);
                let c = paragraphs[j].clone();
                next.push(c);
                proof {
                    assert(strings_view(next@) =~= before.push(ps[j as int]));
                    if j < index {
                        assert(strings_view(next@) =~= ps.take(j + 1));
                    } else {
                        assert(jp[j - 1] == ps[j as int]);
                        assert(strings_view(next@) =~= jp.take(j as int));
                    }
                }
                j = j + 1;
            }
        }
        proof {
            assert(jp.take(n as int - 1) =~= jp);
        }
        let new_doc = Node::from_paragraph_texts(next);
        Ok(StepResult::new(new_doc, self.pos, self.pos, None))
    }

}

impl Storable for JoinBackwardStep {
    fn into_stored(self) -> (r: StoredStep) {
        StoredStep::JoinBackward(self)
    }
}

/// Lift step: moves content out of a parent (not supported: always fails).
#[derive(Debug, Clone, Copy, PartialEq, Eq, Structural)]
pub struct LiftStep {
    /// Start of range
    pub from: usize,
    /// End of range
    pub to: usize,
    /// Target depth
    pub depth: usize,
}

impl LiftStep {
    /// Create a new lift step.
    pub fn new(from: usize, to: usize, depth: usize) -> (r: Self)
        ensures
            r == (LiftStep { from, to, depth }),
    {
        LiftStep { from, to, depth }
    }
}

impl Step for LiftStep {
    open spec fn can_apply(&self, doc: NodeV) -> bool {
        true
    }

    open spec fn spec_apply(&self, doc: NodeV) -> Result<StepResultV, StepErrorV> {
        Err(StepErrorV::Failed("LiftStep not fully implemented"@))
    }

    /// This step has no arithmetic to fault on.
    fn fits(&self, doc: &Node) -> (r: bool) {
        true
    }

    /// Lifting is not supported: the step always fails.
    fn apply(&self, doc: &Node) -> (r: Result<StepResult, StepError>) {
        Err(StepError::Failed(to_string("LiftStep not fully implemented")))
    }

}

impl Storable for LiftStep {
    fn into_stored(self) -> (r: StoredStep) {
        StoredStep::Lift(self)
    }
}

/// Wrap step: wraps content in a container (not supported: always fails).
#[derive(Debug)]
pub struct WrapStep {
    /// Start of range
    pub from: usize,
    /// End of range
    pub to: usize,
    /// Wrapper type
    pub wrapper_type: String,
    /// Wrapper attributes
    pub attrs: Option<serde_json::Value>,
}

impl WrapStep {
    /// Create a new wrap step.
    pub fn new(from: usize, to: usize, wrapper_type: &str, attrs: Option<serde_json::Value>) -> (r:
        Self)
        ensures
            r.from == from,
            r.to == to,
            r.wrapper_type@ == wrapper_type@,
            r.attrs == attrs,
    {
        WrapStep { from, to, wrapper_type: to_string(wrapper_type), attrs }
    }
}

impl Step for WrapStep {
    open spec fn can_apply(&self, doc: NodeV) -> bool {
        true
    }

    open spec fn spec_apply(&self, doc: NodeV) -> Result<StepResultV, StepErrorV> {
        Err(StepErrorV::Failed("WrapStep not fully implemented"@))
    }

    /// This step has no arithmetic to fault on.
    fn fits(&self, doc: &Node) -> (r: bool) {
        true
    }

    /// Wrapping is not supported: the step always fails.
    fn apply(&self, doc: &Node) -> (r: Result<StepResult, StepError>) {
        Err(StepError::Failed(to_string("WrapStep not fully implemented")))
    }

}

impl Storable for WrapStep {
    fn into_stored(self) -> (r: StoredStep) {
        StoredStep::Wrap(self)
    }
}

/// Set marks step: adds or removes marks over a plain-text range.
#[derive(Debug)]
pub struct SetMarksStep {
    /// Start of range
    pub from: usize,
    /// End of range
    pub to: usize,
    /// Marks to add
    pub add: Vec<Mark>,
    /// Marks to remove
    pub remove: Vec<String>,
}

impl SetMarksStep {
    /// Create a new set marks step.
    pub fn new(from: usize, to: usize, add: Vec<Mark>, remove: Vec<String>) -> (r: Self)
        ensures
            r.from == from,
            r.to == to,
            marks_view(r.add@) == marks_view(add@),
            strings_view(r.remove@) == strings_view(remove@),
            r.add@.len() == add@.len(),
            r.remove@.len() == remove@.len(),
    {
        SetMarksStep { from, to, add, remove }
    }

    /// A step that adds `mark` over `from..to`.
    pub fn add_mark(from: usize, to: usize, mark: Mark) -> (r: Self)
        ensures
            r.from == from,
            r.to == to,
            marks_view(r.add@) == seq![mark@],
            r.remove@.len() == 0,
    {
        let add = vec![mark];
        proof {
            assert(marks_view(add@) =~= seq![mark@]);
        }
        Self::new(from, to, add, Vec::new())
    }

    /// A step that removes marks of type `mark_type` over `from..to`.
    pub fn remove_mark(from: usize, to: usize, mark_type: &str) -> (r: Self)
        ensures
            r.from == from,
            r.to == to,
            r.add@.len() == 0,
            strings_view(r.remove@) == seq![mark_type@],
    {
        let remove = vec![to_string(mark_type)];
        proof {
            assert(strings_view(remove@) =~= seq![mark_type@]);
        }
        Self::new(from, to, Vec::new(), remove)
    }
}

impl Step for SetMarksStep {
    open spec fn can_apply(&self, doc: NodeV) -> bool {
        marked_len(doc) <= usize::MAX
    }

    open spec fn spec_apply(&self, doc: NodeV) -> Result<StepResultV, StepErrorV> {
        if self.from > self.to || self.to > plain_text_of(doc).len() {
            Err(StepErrorV::PositionOutOfRange(self.to as nat))
        } else {
            Ok(
                StepResultV {
                    doc: mark_node(
                        doc,
                        self.from as int,
                        self.to as int,
                        0,
                        marks_view(self.add@),
                        strings_view(self.remove@),
                    ),
                    from: self.from as nat,
                    to: self.to as nat,
                    slice: None,
                },
            )
        }
    }

    /// The flat length of the document must fit in a `usize`.
    fn fits(&self, doc: &Node) -> (r: bool) {
        match checked_marked_len(doc) {
            Some(_) => true,
            None => false,
        }
    }

    /// Change the marks of the text over `from..to`; fails when the range
    /// is reversed or ends past the plain text.
    fn apply(&self, doc: &Node) -> (r: Result<StepResult, StepError>) {
        let doc_len = doc.plain_text_len();
        if self.from > self.to || self.to > doc_len {
            return Err(StepError::PositionOutOfRange(self.to));
        }
        let new_doc = doc.with_mark_range(
            self.from,
            self.to,
            self.add.as_slice(),
            self.remove.as_slice(),
        );
        Ok(StepResult::new(new_doc, self.from, self.to, None))
    }

}

impl Storable for SetMarksStep {
    fn into_stored(self) -> (r: StoredStep) {
        StoredStep::SetMarks(self)
    }
}

// ---------------------------------------------------------------------------
// Laws
// ---------------------------------------------------------------------------

/// Applying a replace step writes the replaced plain text: the text before
/// `from`, the slice's text, then the text from `to` on.
pub proof fn law_replace_writes_text(step: ReplaceStep, doc: NodeV)
    requires
        step.from <= step.to <= plain_text_of(doc).len(),
    ensures
        step.spec_apply_replace(doc) matches Ok(res) && plain_text_of(res.doc) == replace_range(
            plain_text_of(doc),
            step.from as int,
            step.to as int,
            texts_from(step.slice@.content, 0),
        ),
{
    let text = plain_text_of(doc);
    let next = replace_range(text, step.from as int, step.to as int, texts_from(step.slice@.content, 0));
    law_plain_text_round_trip(doc, next);
}

/// For a slice of text nodes, the size is the length of its text.
proof fn lemma_text_nodes_size(cs: Seq<NodeV>, k: int)
    requires
        0 <= k <= cs.len(),
        forall|j: int| 0 <= j < cs.len() ==> #[trigger] cs[j].content is Text,
    ensures
        sizes_from(cs, k) == texts_from(cs, k).len(),
    decreases cs.len() - k,
{
    if k < cs.len() {
        lemma_text_nodes_size(cs, k + 1);
        assert(cs[k].content is Text);
        assert(size_of(cs[k]) == text_of(cs[k]).len());
        assert(texts_from(cs, k) == text_of(cs[k]) + texts_from(cs, k + 1));
    }
}

/// Applying a replace step whose slice holds text nodes, then the inverse
/// step built on the original document, gives the original plain text back.
pub proof fn law_replace_inverse_restores_text(step: ReplaceStep, doc: NodeV, inv: ReplaceStep)
    requires
        step.can_invert(doc),
        step.inverts(doc, inv),
        forall|j: int|
            0 <= j < step.slice@.content.len() ==> #[trigger] step.slice@.content[j].content is Text,
    ensures
        step.spec_apply_replace(doc) matches Ok(res) && (inv.spec_apply_replace(res.doc) matches Ok(
            back,
        ) && plain_text_of(back.doc) == plain_text_of(doc)),
{
    let text = plain_text_of(doc);
    let ins = texts_from(step.slice@.content, 0);
    lemma_text_nodes_size(step.slice@.content, 0);
    law_replace_writes_text(step, doc);
    let res = step.spec_apply_replace(doc)->Ok_0;
    let mid = replace_range(text, step.from as int, step.to as int, ins);
    assert(plain_text_of(res.doc) == mid);
    let deleted = text.subrange(step.from as int, step.to as int);
    assert(texts_from(inv.slice@.content, 0) == deleted) by {
        if deleted.len() == 0 {
            assert(inv.slice@.content.len() == 0);
            assert(deleted =~= Seq::<char>::empty());
        } else {
            let tv = text_v(deleted, seq![]);
            assert(inv.slice@.content == seq![tv]);
            assert(texts_from(seq![tv], 1) == Seq::<char>::empty());
            assert(seq![tv][0] == tv);
            assert(text_of(tv) == deleted);
            assert(texts_from(seq![tv], 0) =~= deleted);
        }
    }
    law_replace_writes_text(inv, res.doc);
    assert(replace_range(mid, inv.from as int, inv.to as int, deleted) =~= text);
}


/// Paragraph starts shift by the first paragraph and its newline when the
/// first paragraph is dropped.
proof fn lemma_line_start_drop_first(ps: Seq<Seq<char>>, k: int)
    requires
        0 <= k < ps.len(),
    ensures
        line_start(ps, k + 1) == ps[0].len() + 1 + line_start(ps.drop_first(), k),
    decreases k,
{
    let rest = ps.drop_first();
    if k > 0 {
        lemma_line_start_drop_first(ps, k - 1);
        assert(rest[k - 1] == ps[k]);
        assert(line_start(rest, k) == line_start(rest, k - 1) + rest[k - 1].len() + 1);
        assert(line_start(ps, k + 1) == line_start(ps, k) + ps[k].len() + 1);
    } else {
        assert(line_start(ps, 1) == line_start(ps, 0) + ps[0].len() + 1);
        assert(line_start(rest, 0) == 0);
    }
}

/// A position within the joined text falls in a paragraph, at the offset
/// that the paragraph's start leaves.
proof fn lemma_para_at_inside(ps: Seq<Seq<char>>, pos: int)
    requires
        ps.len() >= 1,
        0 <= pos <= crate::model::node::join_lines(ps).len(),
    ensures
        para_at(ps, pos) is Some,
        para_at(ps, pos) matches Some((i, o)) ==> (0 <= i < ps.len() && 0 <= o <= ps[i].len()
            && line_start(ps, i) + o == pos),
    decreases ps.len(),
{
    if pos > ps[0].len() {
        let rest = ps.drop_first();
        if ps.len() == 1 {
            assert(crate::model::node::join_lines(ps) == ps[0]);
        } else {
            let n = ps.len() as int;
            lemma_line_start_total(ps);
            lemma_line_start_total(rest);
            lemma_line_start_drop_first(ps, n - 1);
            let q = pos - ps[0].len() - 1;
            lemma_para_at_inside(rest, q);
            let (i, o) = para_at(rest, q)->Some_0;
            lemma_line_start_drop_first(ps, i);
            assert(rest[i] == ps[i + 1]);
        }
    }
}

/// The starts of the paragraphs of a split list: unchanged up to the split
/// paragraph, then one past the cut, then one past the old starts.
proof fn lemma_line_start_split(ps: Seq<Seq<char>>, i: int, o: int, k: int)
    requires
        0 <= i < ps.len(),
        0 <= o <= ps[i].len(),
        0 <= k <= ps.len() + 1,
    ensures
        k <= i ==> line_start(split_paragraphs(ps, i, o), k) == line_start(ps, k),
        k == i + 1 ==> line_start(split_paragraphs(ps, i, o), k) == line_start(ps, i) + o + 1,
        k > i + 1 ==> line_start(split_paragraphs(ps, i, o), k) == line_start(ps, k - 1) + 1,
    decreases k,
{
    let s = split_paragraphs(ps, i, o);
    if k > 0 {
        lemma_line_start_split(ps, i, o, k - 1);
        if k - 1 < i {
            assert(s[k - 1] == ps[k - 1]);
        } else if k - 1 == i {
            assert(s[k - 1] == ps[i].take(o));
        } else if k - 1 == i + 1 {
            assert(s[k - 1] == ps[i].skip(o));
        } else {
            assert(s[k - 1] == ps[k - 2]);
        }
    }
}

/// The first boundary at or after `m` is `j` when none before `j` is one.
proof fn lemma_boundary_from_first(s: Seq<Seq<char>>, p: int, m: int, j: int)
    requires
        1 <= m <= j < s.len(),
        line_start(s, j) - 1 <= p <= line_start(s, j),
        forall|k: int| m <= k < j ==> !(line_start(s, k) - 1 <= p <= #[trigger] line_start(s, k)),
    ensures
        boundary_from(s, p, m) == Some(j),
    decreases j - m,
{
    if m < j {
        lemma_boundary_from_first(s, p, m + 1, j);
    }
}

/// Splitting the paragraph at `pos` (Enter) and then joining at the start
/// of the new paragraph (Backspace there) gives back the paragraphs, for
/// every position within the plain text of a document that has paragraphs.
pub proof fn law_split_then_join_restores(doc: NodeV, pos: usize)
    requires
        paragraph_texts_of(doc).len() >= 1,
        pos <= plain_text_of(doc).len(),
        plain_text_of(doc).len() + 1 < usize::MAX,
    ensures
        (SplitBlockStep { pos }).spec_apply(doc) is Ok,
        ({
            let r1 = (SplitBlockStep { pos }).spec_apply(doc)->Ok_0;
            let back = JoinBackwardStep { pos: (pos + 1) as usize };
            &&& back.can_apply(r1.doc)
            &&& back.spec_apply(r1.doc) is Ok
            &&& paragraph_texts_of(back.spec_apply(r1.doc)->Ok_0.doc) == paragraph_texts_of(doc)
        }),
{
    let ps = paragraph_texts_of(doc);
    let n = ps.len() as int;
    assert(plain_text_of(doc) == crate::model::node::join_lines(ps));
    lemma_para_at_inside(ps, pos as int);
    let (i, o) = para_at(ps, pos as int)->Some_0;
    let s = split_paragraphs(ps, i, o);
    assert(s.len() == n + 1);
    crate::model::node::law_from_paragraph_texts_keeps_texts(s);
    let d1 = doc_from_paragraphs(s);
    assert(paragraph_texts_of(d1) == s);
    // the joined text grew by the one newline
    lemma_line_start_total(ps);
    lemma_line_start_total(s);
    lemma_line_start_split(ps, i, o, n + 1);
    assert(plain_text_of(d1) == crate::model::node::join_lines(s));
    // the new paragraph starts one past the cut, and no boundary comes earlier
    lemma_line_start_split(ps, i, o, i + 1);
    let p = pos + 1;
    assert forall|k: int| 1 <= k < i + 1 implies !(line_start(s, k) - 1 <= p <= #[trigger] line_start(
        s,
        k,
    )) by {
        lemma_line_start_split(ps, i, o, k);
        lemma_line_start_mono(ps, k, i);
    }
    lemma_boundary_from_first(s, p, 1, i + 1);
    let joined = join_paragraphs(s, i + 1);
    assert(joined =~= ps) by {
        assert(ps[i].take(o) + ps[i].skip(o) =~= ps[i]);
        assert forall|k: int| 0 <= k < n implies #[trigger] joined[k] == ps[k] by {
            if k < i {
                assert(joined[k] == s[k]);
            } else if k > i {
                assert(joined[k] == s[k + 1]);
            }
        }
    }
    crate::model::node::law_from_paragraph_texts_keeps_texts(ps);
}

} // verus!
