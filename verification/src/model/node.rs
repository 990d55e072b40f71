//! Node definitions: block nodes with children and text nodes with marks.
//!
//! Every offset counts characters. The "plain text" of a `doc` node is the
//! text of its paragraphs joined by `'\n'`; that is the flat coordinate
//! system the editor addresses.

use vstd::prelude::*;
use std::sync::Arc;
use vstd::utf8::{encode_utf8, encode_scalar};
use vstd::string::StringSliceAdditionalSpecFns;
use crate::strings::{char_count, char_slice, push_char, str_eq, to_string, append_str, char_at};

verus! {

/// Represents the type of a node.
#[derive(Debug)]
pub enum NodeType {
    /// Block-level node types (paragraph, heading, blockquote, etc.)
    Block(String),
    /// Text node with inline formatting
    Text,
}

/// A mark represents inline formatting (bold, italic, etc.).
#[derive(Debug, PartialEq)]
pub struct Mark {
    /// Type of the mark (e.g., "bold", "italic", "link")
    pub mark_type: String,
    /// Optional attributes for the mark
    pub attrs: Option<serde_json::Value>,
}

/// Text node specific content.
#[derive(Debug)]
pub struct TextNodeContent {
    /// The actual text content
    pub text: String,
    /// Marks (formatting) applied to this text
    pub marks: Vec<Mark>,
}

/// Content of a node: child nodes or text.
#[derive(Debug)]
pub enum NodeContent {
    /// Block nodes contain child nodes
    Nodes(Vec<Node>),
    /// Text nodes contain a string and optional marks
    Text(Arc<TextNodeContent>),
}

/// Calculated content size for a node.
#[derive(Debug, Clone, Copy, PartialEq, Eq, Structural)]
pub struct ContentSize {
    /// Total size including all content
    pub size: usize,
    /// Size of the content itself (excluding wrapper)
    pub content_size: usize,
}

impl ContentSize {
    /// Create a new content size.
    pub fn new(size: usize, content_size: usize) -> (r: Self)
        ensures
            r == (ContentSize { size, content_size }),
    {
        ContentSize { size, content_size }
    }

    /// Zero size.
    pub fn zero() -> (r: Self)
        ensures
            r == (ContentSize { size: 0, content_size: 0 }),
    {
        Self::new(0, 0)
    }
}

/// A document node: a block with children, or a text leaf.
#[derive(Debug)]
pub struct Node {
    /// Type of this node
    pub type_: NodeType,
    /// Optional type for block nodes
    pub block_type: Option<String>,
    /// Node content
    pub content: NodeContent,
    /// Node attributes (id, styles, etc.)
    pub attrs: Option<serde_json::Value>,
    /// Whether this is a leaf node (no children)
    pub is_leaf: bool,
    /// Marks for inline nodes
    pub marks: Vec<Mark>,
}

// ---------------------------------------------------------------------------
// Mathematical model
// ---------------------------------------------------------------------------

/// The view of a node type.
pub enum NodeTypeV {
    Block(Seq<char>),
    Text,
}

/// The view of a mark.
pub struct MarkV {
    pub mark_type: Seq<char>,
    pub attrs: Option<serde_json::Value>,
}

/// The view of node content.
pub enum NodeContentV {
    Nodes(Seq<NodeV>),
    Text { text: Seq<char>, marks: Seq<MarkV> },
}

/// The view of a node: the node with every string taken as its characters.
pub struct NodeV {
    pub type_: NodeTypeV,
    pub block_type: Option<Seq<char>>,
    pub content: NodeContentV,
    pub attrs: Option<serde_json::Value>,
    pub is_leaf: bool,
    pub marks: Seq<MarkV>,
}

impl View for NodeType {
    type V = NodeTypeV;

    open spec fn view(&self) -> NodeTypeV {
        match self {
            NodeType::Block(name) => NodeTypeV::Block(name@),
            NodeType::Text => NodeTypeV::Text,
        }
    }
}

impl View for Mark {
    type V = MarkV;

    open spec fn view(&self) -> MarkV {
        MarkV { mark_type: self.mark_type@, attrs: self.attrs }
    }
}

/// The views of a sequence of marks.
pub open spec fn marks_view(ms: Seq<Mark>) -> Seq<MarkV> {
    ms.map_values(|m: Mark| m@)
}

/// The view of a node.
pub open spec fn node_view(n: Node) -> NodeV
    decreases n, 0int,
{
    NodeV {
        type_: n.type_@,
        block_type: match n.block_type {
            Some(b) => Some(b@),
            None => None,
        },
        content: match n.content {
            NodeContent::Nodes(v) => NodeContentV::Nodes(nodes_view_from(v@, 0)),
            NodeContent::Text(tc) => NodeContentV::Text {
                text: tc.text@,
                marks: marks_view(tc.marks@),
            },
        },
        attrs: n.attrs,
        is_leaf: n.is_leaf,
        marks: marks_view(n.marks@),
    }
}

/// The views of `ns[k..]`.
pub open spec fn nodes_view_from(ns: Seq<Node>, k: int) -> Seq<NodeV>
    decreases ns, ns.len() - k,
{
    if 0 <= k < ns.len() {
        seq![node_view(ns[k])] + nodes_view_from(ns, k + 1)
    } else {
        seq![]
    }
}

/// The views of a sequence of nodes.
pub open spec fn nodes_view(ns: Seq<Node>) -> Seq<NodeV> {
    nodes_view_from(ns, 0)
}

/// `nodes_view_from` has one view per node, in order.
pub proof fn lemma_nodes_view_from(ns: Seq<Node>, k: int)
    requires
        0 <= k <= ns.len(),
    ensures
        nodes_view_from(ns, k).len() == ns.len() - k,
        forall|i: int|
            0 <= i < ns.len() - k ==> #[trigger] nodes_view_from(ns, k)[i] == node_view(
                ns[k + i],
            ),
    decreases ns.len() - k,
{
    if k < ns.len() {
        lemma_nodes_view_from(ns, k + 1);
    }
}

/// `nodes_view` has one view per node, in order.
pub proof fn lemma_nodes_view(ns: Seq<Node>)
    ensures
        nodes_view(ns).len() == ns.len(),
        forall|i: int| 0 <= i < ns.len() ==> #[trigger] nodes_view(ns)[i] == node_view(ns[i]),
{
    lemma_nodes_view_from(ns, 0);
}

impl View for Node {
    type V = NodeV;

    open spec fn view(&self) -> NodeV {
        node_view(*self)
    }
}

impl NodeV {
    /// The name of the node type; text nodes are named `"text"`.
    pub open spec fn name(self) -> Seq<char> {
        match self.type_ {
            NodeTypeV::Block(name) => name,
            NodeTypeV::Text => "text"@,
        }
    }

    /// The top-level node of the minimal schema.
    pub open spec fn is_doc(self) -> bool {
        self.name() == "doc"@
    }

    /// The children of a block node; none for a text node.
    pub open spec fn children(self) -> Seq<NodeV> {
        match self.content {
            NodeContentV::Nodes(cs) => cs,
            NodeContentV::Text { .. } => seq![],
        }
    }
}

/// A block node as `Node::new_block` builds it.
pub open spec fn block_v(name: Seq<char>, children: Seq<NodeV>) -> NodeV {
    NodeV {
        type_: NodeTypeV::Block(name),
        block_type: Some(name),
        content: NodeContentV::Nodes(children),
        attrs: None,
        is_leaf: false,
        marks: seq![],
    }
}

/// A text node as `Node::new_text_with_marks` builds it.
pub open spec fn text_v(text: Seq<char>, marks: Seq<MarkV>) -> NodeV {
    NodeV {
        type_: NodeTypeV::Text,
        block_type: None,
        content: NodeContentV::Text { text, marks },
        attrs: None,
        is_leaf: true,
        marks: seq![],
    }
}

// ---------------------------------------------------------------------------
// Clone
// ---------------------------------------------------------------------------

impl Clone for NodeType {
    fn clone(&self) -> (r: Self)
        ensures
            r@ == self@,
    {
        match self {
            NodeType::Block(name) => NodeType::Block(name.clone()),
            NodeType::Text => NodeType::Text,
        }
    }
}

impl Clone for Mark {
    fn clone(&self) -> (r: Self)
        ensures
            r@ == self@,
    {
        let attrs = match &self.attrs {
            Some(v) => Some(v.clone()),
            None => None,
        };
        Mark { mark_type: self.mark_type.clone(), attrs }
    }
}

/// Copies of a list of marks.
pub fn clone_marks(ms: &Vec<Mark>) -> (r: Vec<Mark>)
    ensures
        marks_view(r@) == marks_view(ms@),
{
    let mut out: Vec<Mark> = Vec::new();
    let mut i: usize = 0;
    while i < ms.len()
        invariant
            i <= ms@.len(),
            out@.len() == i,
            forall|j: int| 0 <= j < i ==> #[trigger] out@[j]@ == ms@[j]@,
        decreases ms@.len() - i,
    {
        let m = ms[i].clone();
        out.push(m);
        i = i + 1;
    }
    proof {
        assert(marks_view(out@) =~= marks_view(ms@));
    }
    out
}

/// Copy of an optional string.
pub fn clone_opt_string(s: &Option<String>) -> (r: Option<String>)
    ensures
        match (r, *s) {
            (Some(a), Some(b)) => a@ == b@,
            (None, None) => true,
            _ => false,
        },
{
    match s {
        Some(x) => Some(x.clone()),
        None => None,
    }
}

/// Copy of an optional JSON value.
pub fn clone_opt_value(v: &Option<serde_json::Value>) -> (r: Option<serde_json::Value>)
    ensures
        r == *v,
{
    match v {
        Some(x) => Some(x.clone()),
        None => None,
    }
}

impl Clone for TextNodeContent {
    fn clone(&self) -> (r: Self)
        ensures
            r.text@ == self.text@,
            marks_view(r.marks@) == marks_view(self.marks@),
    {
        TextNodeContent { text: self.text.clone(), marks: clone_marks(&self.marks) }
    }
}

/// Copies of a list of nodes.
pub fn clone_nodes(ns: &Vec<Node>) -> (r: Vec<Node>)
    ensures
        nodes_view(r@) == nodes_view(ns@),
    decreases ns@, 1int,
{
    let mut out: Vec<Node> = Vec::new();
    let mut i: usize = 0;
    proof {
        lemma_nodes_view(ns@);
    }
    while i < ns.len()
        invariant
            i <= ns@.len(),
            out@.len() == i,
            forall|j: int| 0 <= j < i ==> #[trigger] node_view(out@[j]) == node_view(ns@[j]),
        decreases ns@.len() - i,
    {
        let c = ns[i].clone();
        out.push(c);
        i = i + 1;
    }
    proof {
        lemma_nodes_view(out@);
        lemma_nodes_view(ns@);
        assert(nodes_view(out@) =~= nodes_view(ns@));
    }
    out
}

impl Clone for Node {
    fn clone(&self) -> (r: Self)
        ensures
            r@ == self@,
        decreases self, 0int,
    {
        let content = match &self.content {
            NodeContent::Nodes(v) => NodeContent::Nodes(clone_nodes(v)),
            NodeContent::Text(tc) => {
                let inner: &TextNodeContent = &*tc;
                NodeContent::Text(Arc::new(inner.clone()))
            },
        };
        Node {
            type_: self.type_.clone(),
            block_type: clone_opt_string(&self.block_type),
            content,
            attrs: clone_opt_value(&self.attrs),
            is_leaf: self.is_leaf,
            marks: clone_marks(&self.marks),
        }
    }
}

// ---------------------------------------------------------------------------
// Text and size of a node
// ---------------------------------------------------------------------------

/// All descendant text of a node, in document order.
pub open spec fn text_of(n: NodeV) -> Seq<char>
    decreases n, 0int,
{
    match n.content {
        NodeContentV::Text { text, .. } => text,
        NodeContentV::Nodes(cs) => texts_from(cs, 0),
    }
}

/// The text of `cs[k..]`, concatenated.
pub open spec fn texts_from(cs: Seq<NodeV>, k: int) -> Seq<char>
    decreases cs, cs.len() - k,
{
    if 0 <= k < cs.len() {
        text_of(cs[k]) + texts_from(cs, k + 1)
    } else {
        seq![]
    }
}

/// Paragraph texts joined by `'\n'`.
pub open spec fn join_lines(ps: Seq<Seq<char>>) -> Seq<char>
    decreases ps.len(),
{
    if ps.len() == 0 {
        seq![]
    } else if ps.len() == 1 {
        ps[0]
    } else {
        join_lines(ps.drop_last()) + seq!['\n'] + ps.last()
    }
}

/// `s` cut at every `'\n'` (never empty: a text without newline is one line).
pub open spec fn split_lines(s: Seq<char>) -> Seq<Seq<char>>
    decreases s.len(),
{
    if s.len() == 0 {
        seq![seq![]]
    } else {
        let p = split_lines(s.drop_last());
        if s.last() == '\n' {
            p.push(seq![])
        } else {
            p.update(p.len() - 1, p.last().push(s.last()))
        }
    }
}

/// The paragraph texts of a node in the minimal schema: the text of each
/// child of a `doc`, or the node's own text for any other node.
pub open spec fn paragraph_texts_of(n: NodeV) -> Seq<Seq<char>> {
    if n.is_doc() {
        n.children().map_values(|c: NodeV| text_of(c))
    } else {
        seq![text_of(n)]
    }
}

/// The canonical plain text of a node: paragraphs of a `doc` joined by
/// `'\n'`, the descendant text of any other node.
pub open spec fn plain_text_of(n: NodeV) -> Seq<char> {
    if n.is_doc() {
        join_lines(paragraph_texts_of(n))
    } else {
        text_of(n)
    }
}

/// The total size of a node: characters of text, plus 2 for each block wrapper.
pub open spec fn size_of(n: NodeV) -> nat
    decreases n, 0int,
{
    match n.content {
        NodeContentV::Text { text, .. } => text.len(),
        NodeContentV::Nodes(cs) => sizes_from(cs, 0) + 2,
    }
}

/// The sizes of `cs[k..]`, summed.
pub open spec fn sizes_from(cs: Seq<NodeV>, k: int) -> nat
    decreases cs, cs.len() - k,
{
    if 0 <= k < cs.len() {
        size_of(cs[k]) + sizes_from(cs, k + 1)
    } else {
        0
    }
}

/// The content length of a node: its characters of text, without wrappers.
pub open spec fn content_len_of(n: NodeV) -> nat
    decreases n, 0int,
{
    match n.content {
        NodeContentV::Text { text, .. } => text.len(),
        NodeContentV::Nodes(cs) => contents_from(cs, 0),
    }
}

/// The content lengths of `cs[k..]`, summed.
pub open spec fn contents_from(cs: Seq<NodeV>, k: int) -> nat
    decreases cs, cs.len() - k,
{
    if 0 <= k < cs.len() {
        content_len_of(cs[k]) + contents_from(cs, k + 1)
    } else {
        0
    }
}

/// A node's content length never exceeds its size.
pub proof fn lemma_content_le_size(n: NodeV)
    ensures
        content_len_of(n) <= size_of(n),
    decreases n, 0int,
{
    match n.content {
        NodeContentV::Text { .. } => {},
        NodeContentV::Nodes(cs) => {
            lemma_contents_le_sizes(cs, 0);
        },
    }
}

/// The content lengths of `cs[k..]` never exceed their sizes.
pub proof fn lemma_contents_le_sizes(cs: Seq<NodeV>, k: int)
    ensures
        contents_from(cs, k) <= sizes_from(cs, k),
    decreases cs, cs.len() - k,
{
    if 0 <= k < cs.len() {
        lemma_content_le_size(cs[k]);
        lemma_contents_le_sizes(cs, k + 1);
    }
}

/// The content view of a block node built from `v`.
proof fn lemma_nodes_content(n: Node, v: Vec<Node>)
    requires
        n.content == NodeContent::Nodes(v),
    ensures
        n@.content == NodeContentV::Nodes(nodes_view(v@)),
        n@.children() == nodes_view(v@),
        nodes_view(v@).len() == v@.len(),
        forall|i: int| 0 <= i < v@.len() ==> #[trigger] nodes_view(v@)[i] == v@[i]@,
{
    lemma_nodes_view(v@);
}

/// The views of a sequence of strings.
pub open spec fn strings_view(v: Seq<String>) -> Seq<Seq<char>> {
    v.map_values(|s: String| s@)
}

/// The block type that a rebuilt `doc` gives its paragraph: the first
/// child's, or `"paragraph"`.
pub open spec fn first_block_type(cs: Seq<NodeV>) -> Seq<char> {
    if cs.len() > 0 && cs[0].block_type is Some {
        cs[0].block_type->0
    } else {
        "paragraph"@
    }
}

/// The node that `with_text_content` builds.
pub open spec fn with_text_v(n: NodeV, t: Seq<char>) -> NodeV {
    match n.content {
        NodeContentV::Text { marks, .. } => NodeV {
            type_: n.type_,
            block_type: n.block_type,
            content: NodeContentV::Text { text: t, marks },
            attrs: n.attrs,
            is_leaf: true,
            marks: n.marks,
        },
        NodeContentV::Nodes(cs) => if n.is_doc() {
            block_v("doc"@, seq![block_v(first_block_type(cs), seq![text_v(t, seq![])])])
        } else {
            block_v(n.name(), seq![text_v(t, seq![])])
        },
    }
}

/// A paragraph holding one text node.
pub open spec fn paragraph_v(p: Seq<char>) -> NodeV {
    block_v("paragraph"@, seq![text_v(p, seq![])])
}

/// One paragraph per text.
pub open spec fn paragraph_nodes(ps: Seq<Seq<char>>) -> Seq<NodeV> {
    ps.map_values(|p: Seq<char>| paragraph_v(p))
}

/// The document that `from_paragraph_texts` builds.
pub open spec fn doc_from_paragraphs(ps: Seq<Seq<char>>) -> NodeV {
    block_v("doc"@, paragraph_nodes(if ps.len() == 0 { seq![seq![]] } else { ps }))
}

/// The node that `with_plain_text` builds.
pub open spec fn with_plain_text_v(n: NodeV, t: Seq<char>) -> NodeV {
    if n.is_doc() {
        doc_from_paragraphs(split_lines(t))
    } else {
        with_text_v(n, t)
    }
}

/// Where a flat plain-text position falls in a paragraph list: the first
/// paragraph whose end is at or after `pos`, with the offset into it; past
/// the end of the last paragraph, its end.
pub open spec fn para_at(ps: Seq<Seq<char>>, pos: int) -> Option<(int, int)>
    decreases ps.len(),
{
    if ps.len() == 0 {
        None
    } else if pos <= ps[0].len() {
        Some((0, pos))
    } else if ps.len() == 1 {
        Some((0, ps[0].len() as int))
    } else {
        shift_para(para_at(ps.drop_first(), pos - ps[0].len() - 1), 1)
    }
}

/// A located paragraph exists and the offset lies within it.
pub proof fn lemma_para_at_bounds(ps: Seq<Seq<char>>, pos: int)
    requires
        pos >= 0,
    ensures
        para_at(ps, pos) matches Some((i, o)) ==> 0 <= i < ps.len() && 0 <= o <= ps[i].len(),
    decreases ps.len(),
{
    if ps.len() > 1 && pos > ps[0].len() {
        lemma_para_at_bounds(ps.drop_first(), pos - ps[0].len() - 1);
    }
}

/// An optional pair of offsets, as integers.
pub open spec fn pair_as_int(r: Option<(usize, usize)>) -> Option<(int, int)> {
    match r {
        Some((i, o)) => Some((i as int, o as int)),
        None => None,
    }
}

/// A paragraph location moved `k` paragraphs down the list.
pub open spec fn shift_para(r: Option<(int, int)>, k: int) -> Option<(int, int)> {
    match r {
        Some((i, o)) => Some((i + k, o)),
        None => None,
    }
}

proof fn lemma_para_at_skip(ps: Seq<Seq<char>>, i: int)
    requires
        0 <= i < ps.len(),
    ensures
        ps.skip(i).drop_first() == ps.skip(i + 1),
        ps.skip(i)[0] == ps[i],
        ps.skip(i).len() == ps.len() - i,
{
    assert(ps.skip(i).drop_first() =~= ps.skip(i + 1));
}

/// The views of a one-node list.
proof fn lemma_nodes_one(ns: Seq<Node>)
    requires
        ns.len() == 1,
    ensures
        nodes_view(ns) == seq![ns[0]@],
{
    lemma_nodes_view(ns);
    assert(nodes_view(ns) =~= seq![ns[0]@]);
}

/// Paragraph texts joined by `'\n'`.
pub fn join_strings(ps: &Vec<String>) -> (r: String)
    ensures
        r@ == join_lines(strings_view(ps@)),
{
    let ghost sv = strings_view(ps@);
    let mut out = String::new();
    let mut i: usize = 0;
    while i < ps.len()
        invariant
            i <= ps@.len(),
            sv == strings_view(ps@),
            out@ == join_lines(sv.take(i as int)),
        decreases ps@.len() - i,
    {
        proof {
            assert(sv.take(i + 1).drop_last() =~= sv.take(i as int));
            assert(sv.take(i + 1).last() == sv[i as int]);
        }
        if i > 0 {
            push_char(&mut out, '\n');
        } else {
            proof {
                assert(sv.take(1) =~= seq![sv[0]]);
            }
        }
        append_str(&mut out, ps[i].as_str());
        i = i + 1;
    }
    proof {
        assert(sv.take(ps@.len() as int) =~= sv);
    }
    out
}

/// `text` cut at every `'\n'`.
pub fn split_string_lines(text: &str) -> (r: Vec<String>)
    ensures
        strings_view(r@) == split_lines(text@),
{
    let n = char_count(text);
    let mut lines: Vec<String> = Vec::new();
    let mut cur = String::new();
    let mut i: usize = 0;
    proof {
        assert(text@.take(0) =~= seq![]);
        assert(strings_view(lines@).push(cur@) =~= split_lines(text@.take(0)));
    }
    while i < n
        invariant
            n == text@.len(),
            i <= n,
            strings_view(lines@).push(cur@) == split_lines(text@.take(i as int)),
        decreases n - i,
    {
        let c = char_at(text, i);
        let ghost before = strings_view(lines@).push(cur@);
        proof {
            assert(text@.take(i + 1).drop_last() =~= text@.take(i as int));
            assert(text@.take(i + 1).last() == c);
        }
        if c == '\n' {
            let done = cur;
            lines.push(done);
            cur = String::new();
            proof {
                assert(strings_view(lines@).push(cur@) =~= before.push(seq![]));
            }
        } else {
            push_char(&mut cur, c);
            proof {
                assert(strings_view(lines@).push(cur@) =~= before.update(
                    before.len() - 1,
                    before.last().push(c),
                ));
            }
        }
        i = i + 1;
    }
    lines.push(cur);
    proof {
        assert(text@.take(n as int) =~= text@);
        assert(strings_view(lines@) =~= split_lines(text@));
    }
    lines
}

/// Where child `index` of `n` starts: the total size of the children
/// before it (all of them when the index is past the end; 0 for a text node).
pub open spec fn child_start_v(n: NodeV, index: int) -> int {
    sizes_from(n.children(), 0) - sizes_from(
        n.children(),
        if index < n.children().len() {
            index
        } else {
            n.children().len() as int
        },
    )
}

/// The size of `n`, or `None` when it does not fit in a `usize`.
pub fn checked_size(n: &Node) -> (r: Option<usize>)
    ensures
        match r {
            Some(k) => k == size_of(n@),
            None => size_of(n@) > usize::MAX,
        },
    decreases n, 0int,
{
    match &n.content {
        NodeContent::Text(tc) => {
            let inner: &TextNodeContent = &*tc;
            Some(char_count(inner.text.as_str()))
        },
        NodeContent::Nodes(v) => {
            proof {
                lemma_nodes_content(*n, *v);
                assert(decreases_to!(*n => n.content));
                assert(decreases_to!(n.content => n.content->Nodes_0));
                assert(decreases_to!(*v => v@));
            }
            match checked_sizes(v) {
                Some(k) => {
                    if k > usize::MAX - 2 {
                        None
                    } else {
                        Some(k + 2)
                    }
                },
                None => None,
            }
        },
    }
}

/// The total size of `ns`, or `None` when it does not fit in a `usize`.
pub fn checked_sizes(ns: &Vec<Node>) -> (r: Option<usize>)
    ensures
        match r {
            Some(k) => k == sizes_from(nodes_view(ns@), 0),
            None => sizes_from(nodes_view(ns@), 0) > usize::MAX,
        },
    decreases ns@, 1int,
{
    let ghost cs = nodes_view(ns@);
    proof {
        lemma_nodes_view(ns@);
    }
    let mut total: usize = 0;
    let mut i: usize = 0;
    while i < ns.len()
        invariant
            i <= ns@.len(),
            cs == nodes_view(ns@),
            cs.len() == ns@.len(),
            forall|j: int| 0 <= j < cs.len() ==> #[trigger] cs[j] == ns@[j]@,
            total + sizes_from(cs, i as int) == sizes_from(cs, 0),
        decreases ns@.len() - i,
    {
        proof {
            assert(decreases_to!(ns@ => ns@[i as int]));
        }
        match checked_size(&ns[i]) {
            Some(k) => {
                if k > usize::MAX - total {
                    return None;
                }
                total = total + k;
            },
            None => {
                return None;
            },
        }
        i = i + 1;
    }
    Some(total)
}

/// The flat length of `n`, or `None` when it does not fit in a `usize`.
pub fn checked_marked_len(n: &Node) -> (r: Option<usize>)
    ensures
        match r {
            Some(k) => k == marked_len(n@),
            None => marked_len(n@) > usize::MAX,
        },
    decreases n, 0int,
{
    match &n.content {
        NodeContent::Text(tc) => {
            let inner: &TextNodeContent = &*tc;
            Some(char_count(inner.text.as_str()))
        },
        NodeContent::Nodes(v) => {
            proof {
                lemma_nodes_content(*n, *v);
                assert(decreases_to!(*n => n.content));
                assert(decreases_to!(n.content => n.content->Nodes_0));
                assert(decreases_to!(*v => v@));
            }
            checked_marked_lens(v, n.is_doc())
        },
    }
}

/// The flat lengths of `ns` with their separators, or `None` when they do
/// not fit in a `usize`.
pub fn checked_marked_lens(ns: &Vec<Node>, doc: bool) -> (r: Option<usize>)
    ensures
        match r {
            Some(k) => k == marked_lens_from(nodes_view(ns@), 0, doc),
            None => marked_lens_from(nodes_view(ns@), 0, doc) > usize::MAX,
        },
    decreases ns@, 1int,
{
    let ghost cs = nodes_view(ns@);
    proof {
        lemma_nodes_view(ns@);
    }
    let mut total: usize = 0;
    let mut i: usize = 0;
    while i < ns.len()
        invariant
            i <= ns@.len(),
            cs == nodes_view(ns@),
            cs.len() == ns@.len(),
            forall|j: int| 0 <= j < cs.len() ==> #[trigger] cs[j] == ns@[j]@,
            total + marked_lens_from(cs, i as int, doc) == marked_lens_from(cs, 0, doc),
        decreases ns@.len() - i,
    {
        proof {
            assert(decreases_to!(ns@ => ns@[i as int]));
        }
        match checked_marked_len(&ns[i]) {
            Some(k) => {
                let sep: usize = if doc && i + 1 < ns.len() {
                    1
                } else {
                    0
                };
                if k > usize::MAX - total || sep > usize::MAX - total - k {
                    return None;
                }
                total = total + k + sep;
            },
            None => {
                return None;
            },
        }
        i = i + 1;
    }
    Some(total)
}

/// The length of a node in flat plain-text coordinates: its text, plus one
/// separator between consecutive children of a `doc`.
pub open spec fn marked_len(n: NodeV) -> nat
    decreases n, 0int,
{
    match n.content {
        NodeContentV::Text { text, .. } => text.len(),
        NodeContentV::Nodes(cs) => marked_lens_from(cs, 0, n.is_doc()),
    }
}

/// The flat lengths of `cs[k..]` with their separators.
pub open spec fn marked_lens_from(cs: Seq<NodeV>, k: int, doc: bool) -> nat
    decreases cs, cs.len() - k,
{
    if 0 <= k < cs.len() {
        marked_len(cs[k]) + (if doc && k + 1 < cs.len() { 1nat } else { 0nat })
            + marked_lens_from(cs, k + 1, doc)
    } else {
        0
    }
}

/// `ms` without the marks whose type is listed in `remove`.
pub open spec fn keep_marks(ms: Seq<MarkV>, remove: Seq<Seq<char>>) -> Seq<MarkV>
    decreases ms.len(),
{
    if ms.len() == 0 {
        seq![]
    } else {
        let p = keep_marks(ms.drop_last(), remove);
        if remove.contains(ms.last().mark_type) {
            p
        } else {
            p.push(ms.last())
        }
    }
}

/// Some mark of `ms` has type `name`.
pub open spec fn has_mark_named(ms: Seq<MarkV>, name: Seq<char>) -> bool {
    exists|k: int| 0 <= k < ms.len() && #[trigger] ms[k].mark_type == name
}

/// `ms` with each mark of `add`, in order, appended unless a mark of its
/// type is already there.
pub open spec fn add_marks(ms: Seq<MarkV>, add: Seq<MarkV>) -> Seq<MarkV>
    decreases add.len(),
{
    if add.len() == 0 {
        ms
    } else {
        let cur = add_marks(ms, add.drop_last());
        if has_mark_named(cur, add.last().mark_type) {
            cur
        } else {
            cur.push(add.last())
        }
    }
}

/// The marks of a text node touched by a mark change.
pub open spec fn apply_marks(ms: Seq<MarkV>, add: Seq<MarkV>, remove: Seq<Seq<char>>) -> Seq<
    MarkV,
> {
    add_marks(keep_marks(ms, remove), add)
}

/// The node that a mark change over the flat range `from..to` builds, for a
/// node whose flat text starts at `off`: text nodes overlapping the range
/// get their marks changed, others are kept; blocks are rebuilt.
pub open spec fn mark_node(
    n: NodeV,
    from: int,
    to: int,
    off: int,
    add: Seq<MarkV>,
    remove: Seq<Seq<char>>,
) -> NodeV
    decreases n, 0int,
{
    match n.content {
        NodeContentV::Text { text, marks } => {
            let start = off;
            let end = off + text.len();
            if to <= start || from >= end {
                n
            } else {
                text_v(text, apply_marks(marks, add, remove))
            }
        },
        NodeContentV::Nodes(cs) => block_v(
            n.name(),
            mark_children_from(cs, 0, off, n.is_doc(), from, to, add, remove),
        ),
    }
}

/// The marked children `cs[k..]`, the first starting at flat offset `off`.
pub open spec fn mark_children_from(
    cs: Seq<NodeV>,
    k: int,
    off: int,
    doc: bool,
    from: int,
    to: int,
    add: Seq<MarkV>,
    remove: Seq<Seq<char>>,
) -> Seq<NodeV>
    decreases cs, cs.len() - k,
{
    if 0 <= k < cs.len() {
        let next = off + marked_len(cs[k]) + (if doc && k + 1 < cs.len() { 1int } else { 0int });
        seq![mark_node(cs[k], from, to, off, add, remove)] + mark_children_from(
            cs,
            k + 1,
            next,
            doc,
            from,
            to,
            add,
            remove,
        )
    } else {
        seq![]
    }
}

/// Whether `name` is one of `remove`.
fn name_listed(remove: &[String], name: &String) -> (r: bool)
    ensures
        r == strings_view(remove@).contains(name@),
{
    let mut i: usize = 0;
    while i < remove.len()
        invariant
            i <= remove@.len(),
            forall|j: int| 0 <= j < i ==> remove@[j]@ != name@,
        decreases remove@.len() - i,
    {
        if str_eq(remove[i].as_str(), name.as_str()) {
            proof {
                assert(strings_view(remove@)[i as int] == name@);
            }
            return true;
        }
        i = i + 1;
    }
    proof {
        if strings_view(remove@).contains(name@) {
            let k = choose|k: int| 0 <= k < strings_view(remove@).len() && strings_view(remove@)[k] == name@;
            assert(remove@[k]@ == name@);
        }
    }
    false
}

/// Whether some mark of `ms` has type `name`.
fn has_named(ms: &Vec<Mark>, name: &String) -> (r: bool)
    ensures
        r == has_mark_named(marks_view(ms@), name@),
{
    let mut i: usize = 0;
    while i < ms.len()
        invariant
            i <= ms@.len(),
            forall|j: int| 0 <= j < i ==> ms@[j]@.mark_type != name@,
        decreases ms@.len() - i,
    {
        if str_eq(ms[i].mark_type.as_str(), name.as_str()) {
            proof {
                assert(marks_view(ms@)[i as int].mark_type == name@);
            }
            return true;
        }
        i = i + 1;
    }
    proof {
        if has_mark_named(marks_view(ms@), name@) {
            let k = choose|k: int| 0 <= k < marks_view(ms@).len() && #[trigger] marks_view(ms@)[k].mark_type == name@;
            assert(ms@[k]@.mark_type == name@);
        }
    }
    false
}

/// The marks of a touched text node: `marks` without the types of `remove`,
/// then each of `add` whose type is not already present.
fn changed_marks(marks: &Vec<Mark>, add: &[Mark], remove: &[String]) -> (r: Vec<Mark>)
    ensures
        marks_view(r@) == apply_marks(marks_view(marks@), marks_view(add@), strings_view(remove@)),
{
    let ghost mv = marks_view(marks@);
    let ghost rv = strings_view(remove@);
    let mut kept: Vec<Mark> = Vec::new();
    let mut i: usize = 0;
    proof {
        assert(mv.take(0) =~= seq![]);
        assert(marks_view(kept@) =~= seq![]);
    }
    while i < marks.len()
        invariant
            i <= marks@.len(),
            mv == marks_view(marks@),
            rv == strings_view(remove@),
            marks_view(kept@) == keep_marks(mv.take(i as int), rv),
        decreases marks@.len() - i,
    {
        proof {
            assert(mv.take(i + 1).drop_last() =~= mv.take(i as int));
            assert(mv.take(i + 1).last() == marks@[i as int]@);
        }
        if !name_listed(remove, &marks[i].mark_type) {
            let ghost before = kept@;
            kept.push(marks[i].clone());
            proof {
                assert(marks_view(kept@) =~= marks_view(before).push(marks@[i as int]@));
            }
        }
        i = i + 1;
    }
    proof {
        assert(mv.take(marks@.len() as int) =~= mv);
    }
    let ghost base = marks_view(kept@);
    let ghost av = marks_view(add@);
    let mut j: usize = 0;
    proof {
        assert(av.take(0) =~= seq![]);
    }
    while j < add.len()
        invariant
            j <= add@.len(),
            av == marks_view(add@),
            marks_view(kept@) == add_marks(base, av.take(j as int)),
        decreases add@.len() - j,
    {
        proof {
            assert(av.take(j + 1).drop_last() =~= av.take(j as int));
            assert(av.take(j + 1).last() == add@[j as int]@);
        }
        if !has_named(&kept, &add[j].mark_type) {
            let ghost before = kept@;
            kept.push(add[j].clone());
            proof {
                assert(marks_view(kept@) =~= marks_view(before).push(add@[j as int]@));
            }
        }
        j = j + 1;
    }
    proof {
        assert(av.take(add@.len() as int) =~= av);
    }
    kept
}

/// The exec side of `mark_node`: the marked copy of `node`, whose flat text
/// starts at `*offset`; `*offset` moves past the node.
fn mark_node_exec(
    node: &Node,
    from: usize,
    to: usize,
    offset: &mut usize,
    add: &[Mark],
    remove: &[String],
) -> (r: Node)
    requires
        *old(offset) + marked_len(node@) <= usize::MAX,
    ensures
        r@ == mark_node(
            node@,
            from as int,
            to as int,
            *old(offset) as int,
            marks_view(add@),
            strings_view(remove@),
        ),
        *final(offset) == *old(offset) + marked_len(node@),
    decreases node, 0int,
{
    match &node.content {
        NodeContent::Text(tc) => {
            let start = *offset;
            let end = start + char_count(tc.text.as_str());
            *offset = end;
            if to <= start || from >= end {
                return node.clone();
            }
            let marks = changed_marks(&tc.marks, add, remove);
            Node::new_text_with_marks(tc.text.as_str(), marks)
        },
        NodeContent::Nodes(children) => {
            proof {
                lemma_nodes_content(*node, *children);
            }
            let ghost cs = node@.children();
            let ghost off0 = *old(offset) as int;
            let is_doc = node.is_doc();
            let mut next_children: Vec<Node> = Vec::new();
            let mut i: usize = 0;
            while i < children.len()
                invariant
                    i <= children@.len(),
                    node.content == NodeContent::Nodes(*children),
                    cs.len() == children@.len(),
                    forall|j: int| 0 <= j < children@.len() ==> #[trigger] cs[j] == children@[j]@,
                    is_doc == node@.is_doc(),
                    off0 + marked_lens_from(cs, 0, is_doc) <= usize::MAX,
                    *offset + marked_lens_from(cs, i as int, is_doc) == off0 + marked_lens_from(cs, 0, is_doc),
                    nodes_view(next_children@) + mark_children_from(
                        cs,
                        i as int,
                        *offset as int,
                        is_doc,
                        from as int,
                        to as int,
                        marks_view(add@),
                        strings_view(remove@),
                    ) == mark_children_from(
                        cs,
                        0,
                        off0,
                        is_doc,
                        from as int,
                        to as int,
                        marks_view(add@),
                        strings_view(remove@),
                    ),
                decreases children@.len() - i,
            {
                proof {
                    assert(decreases_to!(*node => node.content));
                    assert(decreases_to!(node.content => node.content->Nodes_0));
                    assert(decreases_to!(*children => children@));
                    assert(decreases_to!(children@ => children@[i as int]));
                }
                let ghost before = next_children@;
                let ghost off_i = *offset as int;
                let c = mark_node_exec(&children[i], from, to, offset, add, remove);
                next_children.push(c);
                if is_doc && i + 1 < children.len() {
                    *offset = *offset + 1;
                }
                proof {
                    lemma_nodes_view(before);
                    lemma_nodes_view(next_children@);
                    assert(nodes_view(next_children@) =~= nodes_view(before).push(c@));
                }
                i = i + 1;
            }
            proof {
                lemma_nodes_view(next_children@);
            }
            let r = Node::new_block(node.node_type_name(), next_children);
            proof {
                assert(nodes_view(next_children@) =~= mark_children_from(
                    cs,
                    0,
                    off0,
                    is_doc,
                    from as int,
                    to as int,
                    marks_view(add@),
                    strings_view(remove@),
                ));
            }
            r
        },
    }
}

/// The number of bytes of the UTF-8 encoding of `c`.
fn char_utf8_len(c: char) -> (r: usize)
    ensures
        r == encode_scalar(c as u32).len(),
{
    let v = c as u32;
    if v < 0x80 {
        1
    } else if v < 0x800 {
        2
    } else if v < 0x10000 {
        3
    } else {
        4
    }
}

/// UTF-8 encoding distributes over concatenation.
proof fn lemma_encode_utf8_concat(a: Seq<char>, b: Seq<char>)
    ensures
        encode_utf8(a + b) == encode_utf8(a) + encode_utf8(b),
    decreases a.len(),
{
    if a.len() == 0 {
        assert(a + b =~= b);
        assert(encode_utf8(a) =~= seq![]);
        assert(encode_utf8(a) + encode_utf8(b) =~= encode_utf8(b));
    } else {
        assert((a + b).drop_first() =~= a.drop_first() + b);
        lemma_encode_utf8_concat(a.drop_first(), b);
        assert(encode_utf8(a + b) =~= encode_utf8(a) + encode_utf8(b));
    }
}

/// The byte length of the encoding of `s.take(i + 1)`.
proof fn lemma_encode_prefix_step(s: Seq<char>, i: int)
    requires
        0 <= i < s.len(),
    ensures
        encode_utf8(s.take(i + 1)).len() == encode_utf8(s.take(i)).len() + encode_scalar(
            s[i] as u32,
        ).len(),
        encode_utf8(s.take(i + 1)).len() <= encode_utf8(s).len(),
{
    assert(s.take(i + 1) =~= s.take(i) + seq![s[i]]);
    lemma_encode_utf8_concat(s.take(i), seq![s[i]]);
    assert(seq![s[i]].drop_first() =~= seq![]);
    assert(encode_utf8(seq![s[i]]) == encode_scalar(s[i] as u32) + encode_utf8(seq![]));
    assert(s =~= s.take(i + 1) + s.skip(i + 1));
    lemma_encode_utf8_concat(s.take(i + 1), s.skip(i + 1));
}

// ---------------------------------------------------------------------------
// Operations
// ---------------------------------------------------------------------------

impl Node {
    /// The number of characters in `text`.
    pub fn char_len(text: &str) -> (r: usize)
        ensures
            r == text@.len(),
    {
        char_count(text)
    }

    /// Create a new block node of type `block_type` with the given children.
    pub fn new_block(block_type: &str, content: Vec<Node>) -> (r: Self)
        ensures
            r@ == block_v(block_type@, nodes_view(content@)),
    {
        let name = to_string(block_type);
        let name2 = to_string(block_type);
        let r = Node {
            type_: NodeType::Block(name),
            block_type: Some(name2),
            content: NodeContent::Nodes(content),
            attrs: None,
            is_leaf: false,
            marks: Vec::new(),
        };
        proof {
            assert(marks_view(r.marks@) =~= seq![]);
        }
        r
    }

    /// Create a new text node without marks.
    pub fn new_text(text: &str) -> (r: Self)
        ensures
            r@ == text_v(text@, seq![]),
    {
        let r = Self::new_text_with_marks(text, Vec::new());
        proof {
            assert(marks_view(Seq::<Mark>::empty()) =~= seq![]);
        }
        r
    }

    /// Create a new text node with marks.
    pub fn new_text_with_marks(text: &str, marks: Vec<Mark>) -> (r: Self)
        ensures
            r@ == text_v(text@, marks_view(marks@)),
    {
        let r = Node {
            type_: NodeType::Text,
            block_type: None,
            content: NodeContent::Text(Arc::new(TextNodeContent { text: to_string(text), marks })),
            attrs: None,
            is_leaf: true,
            marks: Vec::new(),
        };
        proof {
            assert(marks_view(r.marks@) =~= seq![]);
        }
        r
    }

    /// The node type name; text nodes are named `"text"`.
    pub fn node_type_name(&self) -> (r: &str)
        ensures
            r@ == self@.name(),
    {
        match &self.type_ {
            NodeType::Block(name) => name.as_str(),
            NodeType::Text => "text",
        }
    }

    /// Whether this is the top-level `doc` node.
    pub fn is_doc(&self) -> (r: bool)
        ensures
            r == self@.is_doc(),
    {
        str_eq(self.node_type_name(), "doc")
    }

    /// Whether this is a block node.
    pub fn is_block(&self) -> (r: bool)
        ensures
            r == (self@.type_ is Block),
    {
        match &self.type_ {
            NodeType::Block(_) => true,
            NodeType::Text => false,
        }
    }

    /// Whether this is a text node.
    pub fn is_text(&self) -> (r: bool)
        ensures
            r == (self@.type_ is Text),
    {
        match &self.type_ {
            NodeType::Block(_) => false,
            NodeType::Text => true,
        }
    }

    /// Whether this node is flagged as a leaf.
    pub fn is_leaf(&self) -> (r: bool)
        ensures
            r == self@.is_leaf,
    {
        self.is_leaf
    }

    /// The child nodes of a block node.
    pub fn children(&self) -> (r: Option<&[Node]>)
        ensures
            match self.content {
                NodeContent::Nodes(v) => r matches Some(s) && s@ == v@,
                NodeContent::Text(_) => r is None,
            },
    {
        match &self.content {
            NodeContent::Nodes(nodes) => Some(nodes.as_slice()),
            NodeContent::Text(_) => None,
        }
    }

    /// The child nodes of a block node, to change in place.
    pub fn children_mut(&mut self) -> (r: Option<&mut Vec<Node>>)
        ensures
            (r is Some) == (old(self).content is Nodes),
            r is None ==> *final(self) == *old(self),
            r matches Some(v) ==> *v == old(self).content->Nodes_0 && *final(self) == (Node {
                content: NodeContent::Nodes(*final(v)),
                ..*old(self)
            }),
    {
        match &mut self.content {
            NodeContent::Nodes(nodes) => Some(nodes),
            NodeContent::Text(_) => None,
        }
    }

    /// The text of a text node.
    pub fn text(&self) -> (r: Option<&str>)
        ensures
            match self@.content {
                NodeContentV::Text { text, .. } => r matches Some(s) && s@ == text,
                NodeContentV::Nodes(_) => r is None,
            },
    {
        match &self.content {
            NodeContent::Nodes(_) => None,
            NodeContent::Text(tc) => Some(tc.text.as_str()),
        }
    }

    /// The number of child nodes (0 for a text node).
    pub fn child_count(&self) -> (r: usize)
        ensures
            r == self@.children().len(),
    {
        match &self.content {
            NodeContent::Nodes(nodes) => {
                proof {
                    lemma_nodes_content(*self, *nodes);
                }
                nodes.len()
            },
            NodeContent::Text(_) => 0,
        }
    }

    /// The child at `index`, if there is one.
    pub fn child(&self, index: usize) -> (r: Option<&Node>)
        ensures
            index < self@.children().len() ==> (r matches Some(c) && c@ == self@.children()[index as int]),
            index >= self@.children().len() ==> r is None,
    {
        match &self.content {
            NodeContent::Nodes(nodes) => {
                proof {
                    lemma_nodes_content(*self, *nodes);
                }
                if index < nodes.len() {
                    Some(&nodes[index])
                } else {
                    None
                }
            },
            NodeContent::Text(_) => None,
        }
    }

    /// Collect all descendant text into a single string.
    pub fn text_content(&self) -> (r: String)
        ensures
            r@ == text_of(self@),
        decreases self, 0int,
    {
        match &self.content {
            NodeContent::Nodes(nodes) => {
                proof {
                    lemma_nodes_content(*self, *nodes);
                }
                let ghost cs = self@.children();
                let mut out = String::new();
                let mut i: usize = 0;
                while i < nodes.len()
                    invariant
                        i <= nodes@.len(),
                        self.content == NodeContent::Nodes(*nodes),
                        cs.len() == nodes@.len(),
                        forall|j: int| 0 <= j < nodes@.len() ==> #[trigger] cs[j] == nodes@[j]@,
                        out@ + texts_from(cs, i as int) == texts_from(cs, 0),
                    decreases nodes@.len() - i,
                {
                    proof {
                        assert(decreases_to!(*self => self.content));
                        assert(decreases_to!(self.content => self.content->Nodes_0));
                        assert(self.content->Nodes_0 == *nodes);
                        assert(decreases_to!(*nodes => nodes@));
                        assert(decreases_to!(nodes@ => nodes@[i as int]));
                    }
                    let t = nodes[i].text_content();
                    append_str(&mut out, t.as_str());
                    proof {
                        assert(texts_from(cs, i as int) == text_of(cs[i as int]) + texts_from(cs, i + 1));
                        assert(out@ + texts_from(cs, i + 1) =~= texts_from(cs, 0));
                    }
                    i = i + 1;
                }
                proof {
                    assert(out@ =~= texts_from(cs, 0));
                }
                out
            },
            NodeContent::Text(tc) => tc.text.clone(),
        }
    }

    /// The node's paragraph texts in the minimal schema: the text of each
    /// child of a `doc`, or the node's own text for any other node.
    pub fn paragraph_texts(&self) -> (r: Vec<String>)
        ensures
            strings_view(r@) == paragraph_texts_of(self@),
    {
        if self.is_doc() {
            match &self.content {
                NodeContent::Nodes(nodes) => {
                    proof {
                        lemma_nodes_content(*self, *nodes);
                    }
                    let ghost cs = self@.children();
                    let mut out: Vec<String> = Vec::new();
                    let mut i: usize = 0;
                    while i < nodes.len()
                        invariant
                            i <= nodes@.len(),
                            cs.len() == nodes@.len(),
                            forall|j: int| 0 <= j < nodes@.len() ==> #[trigger] cs[j] == nodes@[j]@,
                            out@.len() == i,
                            forall|j: int| 0 <= j < i ==> #[trigger] out@[j]@ == text_of(cs[j]),
                        decreases nodes@.len() - i,
                    {
                        let t = nodes[i].text_content();
                        out.push(t);
                        i = i + 1;
                    }
                    proof {
                        assert(strings_view(out@) =~= paragraph_texts_of(self@));
                    }
                    out
                },
                NodeContent::Text(_) => {
                    let out: Vec<String> = Vec::new();
                    proof {
                        assert(strings_view(out@) =~= paragraph_texts_of(self@));
                    }
                    out
                },
            }
        } else {
            let t = self.text_content();
            let out = vec![t];
            proof {
                assert(strings_view(out@) =~= paragraph_texts_of(self@));
            }
            out
        }
    }

    /// The canonical plain text: paragraphs of a `doc` joined by `'\n'`,
    /// the descendant text of any other node.
    pub fn plain_text(&self) -> (r: String)
        ensures
            r@ == plain_text_of(self@),
    {
        if self.is_doc() {
            let ps = self.paragraph_texts();
            join_strings(&ps)
        } else {
            self.text_content()
        }
    }

    /// The number of characters of the plain text.
    pub fn plain_text_len(&self) -> (r: usize)
        ensures
            r == plain_text_of(self@).len(),
    {
        let t = self.plain_text();
        char_count(t.as_str())
    }

    /// A copy of this node with its text replaced by `text`. A text node
    /// keeps its type, block type, attributes and marks; a `doc` becomes one
    /// paragraph (of the first child's block type) holding one text node;
    /// any other block becomes a block of its type holding one text node.
    pub fn with_text_content(&self, text: &str) -> (r: Self)
        ensures
            r@ == with_text_v(self@, text@),
    {
        match &self.content {
            NodeContent::Text(tc) => {
                let r = Node {
                    type_: self.type_.clone(),
                    block_type: clone_opt_string(&self.block_type),
                    content: NodeContent::Text(
                        Arc::new(TextNodeContent { text: to_string(text), marks: clone_marks(&tc.marks) }),
                    ),
                    attrs: clone_opt_value(&self.attrs),
                    is_leaf: true,
                    marks: clone_marks(&self.marks),
                };
                r
            },
            NodeContent::Nodes(nodes) => {
                proof {
                    lemma_nodes_content(*self, *nodes);
                }
                if self.is_doc() {
                    let block_type: String = if nodes.len() > 0 {
                        match &nodes[0].block_type {
                            Some(b) => b.clone(),
                            None => to_string("paragraph"),
                        }
                    } else {
                        to_string("paragraph")
                    };
                    let t = Node::new_text(text);
                    let v1 = vec![t];
                    proof {
                        assert(v1@ =~= seq![t]);
                        lemma_nodes_one(v1@);
                        assert(block_type@ == first_block_type(self@.children()));
                    }
                    let para = Node::new_block(block_type.as_str(), v1);
                    let v2 = vec![para];
                    proof {
                        assert(v2@ =~= seq![para]);
                        lemma_nodes_one(v2@);
                    }
                    let r = Node::new_block("doc", v2);
                    r
                } else {
                    let t = Node::new_text(text);
                    let v1 = vec![t];
                    proof {
                        assert(v1@ =~= seq![t]);
                        lemma_nodes_one(v1@);
                    }
                    let r = Node::new_block(self.node_type_name(), v1);
                    r
                }
            },
        }
    }

    /// A copy of this node with its plain text replaced by `text`: a `doc`
    /// is rebuilt with one paragraph per `'\n'`-separated line of `text`;
    /// any other node as `with_text_content`.
    pub fn with_plain_text(&self, text: &str) -> (r: Self)
        ensures
            r@ == with_plain_text_v(self@, text@),
    {
        if self.is_doc() {
            let lines = split_string_lines(text);
            Self::from_paragraph_texts(lines)
        } else {
            self.with_text_content(text)
        }
    }

    /// Rebuild a document from paragraph texts: a `doc` holding one
    /// `paragraph` per text (one empty paragraph for no texts), each holding
    /// one text node.
    pub fn from_paragraph_texts(paragraphs: Vec<String>) -> (r: Self)
        ensures
            r@ == doc_from_paragraphs(strings_view(paragraphs@)),
    {
        let ghost given = strings_view(paragraphs@);
        let paragraphs = if paragraphs.len() == 0 {
            vec![String::new()]
        } else {
            paragraphs
        };
        let ghost ps = strings_view(paragraphs@);
        proof {
            if given.len() == 0 {
                assert(ps =~= seq![seq![]]);
            }
        }
        let mut children: Vec<Node> = Vec::new();
        let mut i: usize = 0;
        while i < paragraphs.len()
            invariant
                i <= paragraphs@.len(),
                ps == strings_view(paragraphs@),
                children@.len() == i,
                forall|j: int| 0 <= j < i ==> #[trigger] children@[j]@ == paragraph_v(ps[j]),
            decreases paragraphs@.len() - i,
        {
            let t = Node::new_text(paragraphs[i].as_str());
            let ghost tv = t@;
            let v = vec![t];
            proof {
                assert(v@ =~= seq![t]);
                lemma_nodes_one(v@);
                assert(ps[i as int] == paragraphs@[i as int]@);
            }
            let para = Node::new_block("paragraph", v);
            children.push(para);
            i = i + 1;
        }
        let r = Node::new_block("doc", children);
        proof {
            lemma_nodes_view(children@);
            assert(children@.len() == ps.len());
            assert forall|j: int| 0 <= j < ps.len() implies #[trigger] nodes_view(children@)[j]
                == paragraph_nodes(ps)[j] by {
                assert(children@[j]@ == paragraph_v(ps[j]));
            }
            assert(nodes_view(children@) =~= paragraph_nodes(ps));
        }
        r
    }

    /// Locate a flat plain-text position within the paragraph list: the
    /// first paragraph whose end is at or after `pos`, with the offset into
    /// it; past the end, the end of the last paragraph; `None` when there
    /// are no paragraphs.
    pub fn paragraph_at(&self, pos: usize) -> (r: Option<(usize, usize)>)
        ensures
            para_at(paragraph_texts_of(self@), pos as int) == pair_as_int(r),
    {
        let paragraphs = self.paragraph_texts();
        let ghost ps = strings_view(paragraphs@);
        let n = paragraphs.len();
        let mut i: usize = 0;
        let mut rem: usize = pos;
        proof {
            assert(ps.skip(0) =~= ps);
        }
        while i < n
            invariant
                n == paragraphs@.len(),
                ps == strings_view(paragraphs@),
                ps == paragraph_texts_of(self@),
                0 <= i <= n,
                n > 0 || i == 0,
                para_at(ps, pos as int) == shift_para(para_at(ps.skip(i as int), rem as int), i as int),
            decreases n - i,
        {
            let len = char_count(paragraphs[i].as_str());
            proof {
                lemma_para_at_skip(ps, i as int);
                assert(ps[i as int] == paragraphs@[i as int]@);
            }
            if rem <= len {
                proof {
                    assert(para_at(ps.skip(i as int), rem as int) == Some((0int, rem as int)));
                }
                return Some((i, rem));
            }
            if i + 1 == n {
                proof {
                    assert(ps.skip(i as int).len() == 1);
                    assert(para_at(ps.skip(i as int), rem as int) == Some((0int, len as int)));
                }
                return Some((i, len));
            }
            rem = rem - len - 1;
            i = i + 1;
        }
        proof {
            assert(ps.skip(i as int).len() == 0);
        }
        None
    }

    /// The size of this node: its characters of text, plus 2 for each block
    /// wrapper; and its content length, the characters alone.
    pub fn content_size(&self) -> (r: ContentSize)
        requires
            size_of(self@) <= usize::MAX,
        ensures
            r.size == size_of(self@),
            r.content_size == content_len_of(self@),
        decreases self, 0int,
    {
        match &self.content {
            NodeContent::Nodes(nodes) => {
                proof {
                    lemma_nodes_content(*self, *nodes);
                }
                let ghost cs = self@.children();
                let mut total_size: usize = 0;
                let mut total_content: usize = 0;
                let mut i: usize = 0;
                proof {
                    lemma_contents_le_sizes(cs, 0);
                }
                while i < nodes.len()
                    invariant
                        i <= nodes@.len(),
                        self.content == NodeContent::Nodes(*nodes),
                        cs.len() == nodes@.len(),
                        forall|j: int| 0 <= j < nodes@.len() ==> #[trigger] cs[j] == nodes@[j]@,
                        sizes_from(cs, 0) + 2 <= usize::MAX,
                        total_size + sizes_from(cs, i as int) == sizes_from(cs, 0),
                        total_content + contents_from(cs, i as int) == contents_from(cs, 0),
                        contents_from(cs, 0) <= sizes_from(cs, 0),
                    decreases nodes@.len() - i,
                {
                    proof {
                        assert(decreases_to!(*self => self.content));
                        assert(decreases_to!(self.content => self.content->Nodes_0));
                        assert(decreases_to!(*nodes => nodes@));
                        assert(decreases_to!(nodes@ => nodes@[i as int]));
                        lemma_contents_le_sizes(cs, i + 1);
                        lemma_content_le_size(cs[i as int]);
                    }
                    let child_size = nodes[i].content_size();
                    total_size = total_size + child_size.size;
                    total_content = total_content + child_size.content_size;
                    i = i + 1;
                }
                total_size = total_size + 2;
                ContentSize::new(total_size, total_content)
            },
            NodeContent::Text(tc) => {
                let size = char_count(tc.text.as_str());
                ContentSize::new(size, size)
            },
        }
    }

    /// The total size of this node.
    pub fn size(&self) -> (r: usize)
        requires
            size_of(self@) <= usize::MAX,
        ensures
            r == size_of(self@),
    {
        self.content_size().size
    }

    /// The content length of this node.
    pub fn content_length(&self) -> (r: usize)
        requires
            size_of(self@) <= usize::MAX,
        ensures
            r == content_len_of(self@),
    {
        self.content_size().content_size
    }

    /// The position where child `child_index` starts: the total size of the
    /// children before it (all children when the index is past the end; 0
    /// for a text node).
    pub fn child_start_pos(&self, child_index: usize) -> (r: usize)
        requires
            size_of(self@) <= usize::MAX,
        ensures
            r == child_start_v(self@, child_index as int),
    {
        match &self.content {
            NodeContent::Nodes(nodes) => {
                proof {
                    lemma_nodes_content(*self, *nodes);
                }
                let ghost cs = self@.children();
                let mut pos: usize = 0;
                let mut i: usize = 0;
                while i < nodes.len() && i < child_index
                    invariant
                        i <= nodes@.len(),
                        i <= child_index,
                        cs.len() == nodes@.len(),
                        forall|j: int| 0 <= j < nodes@.len() ==> #[trigger] cs[j] == nodes@[j]@,
                        sizes_from(cs, 0) + 2 <= usize::MAX,
                        pos + sizes_from(cs, i as int) == sizes_from(cs, 0),
                    decreases nodes@.len() - i,
                {
                    proof {
                        lemma_content_le_size(cs[i as int]);
                    }
                    let child_size = nodes[i].content_size();
                    pos = pos + child_size.size;
                    i = i + 1;
                }
                pos
            },
            NodeContent::Text(_) => 0,
        }
    }

    /// Apply mark changes over the flat range `from..to`: each text node that
    /// overlaps the range loses the marks whose type is in `remove` and gains
    /// each mark of `add` whose type it lacks; blocks are rebuilt around them.
    pub fn with_mark_range(&self, from: usize, to: usize, add: &[Mark], remove: &[String]) -> (r:
        Self)
        requires
            marked_len(self@) <= usize::MAX,
        ensures
            r@ == mark_node(
                self@,
                from as int,
                to as int,
                0,
                marks_view(add@),
                strings_view(remove@),
            ),
    {
        let mut offset: usize = 0;
        mark_node_exec(self, from, to, &mut offset, add, remove)
    }

    /// The byte index in `text` where character `char_index` starts; the
    /// byte length of `text` when the index is past the last character.
    pub fn char_to_byte_index(text: &str, char_index: usize) -> (r: usize)
        requires
            encode_utf8(text@).len() <= usize::MAX,
        ensures
            r == if char_index < text@.len() {
                encode_utf8(text@.take(char_index as int)).len()
            } else {
                encode_utf8(text@).len()
            },
    {
        let n = char_count(text);
        if char_index >= n {
            return text.len();
        }
        let mut bytes: usize = 0;
        let mut i: usize = 0;
        proof {
            assert(text@.take(0) =~= seq![]);
        }
        while i < char_index
            invariant
                n == text@.len(),
                i <= char_index < n,
                bytes == encode_utf8(text@.take(i as int)).len(),
                encode_utf8(text@).len() <= usize::MAX,
            decreases char_index - i,
        {
            proof {
                lemma_encode_prefix_step(text@, i as int);
            }
            let c = char_at(text, i);
            bytes = bytes + char_utf8_len(c);
            i = i + 1;
        }
        bytes
    }
}

// ---------------------------------------------------------------------------
// Laws
// ---------------------------------------------------------------------------

/// Splitting never gives an empty list of lines.
pub proof fn lemma_split_lines_nonempty(s: Seq<char>)
    ensures
        split_lines(s).len() >= 1,
    decreases s.len(),
{
    if s.len() > 0 {
        lemma_split_lines_nonempty(s.drop_last());
    }
}

/// Joining the lines of a text gives the text back.
pub proof fn law_join_split_lines(s: Seq<char>)
    ensures
        join_lines(split_lines(s)) == s,
    decreases s.len(),
{
    if s.len() == 0 {
        assert(join_lines(seq![seq![]]) == Seq::<char>::empty());
    } else {
        let p = split_lines(s.drop_last());
        lemma_split_lines_nonempty(s.drop_last());
        law_join_split_lines(s.drop_last());
        if s.last() == '\n' {
            assert(p.push(seq![]).drop_last() =~= p);
            assert(join_lines(p.push(seq![])) =~= s);
        } else {
            let q = p.update(p.len() - 1, p.last().push(s.last()));
            if p.len() == 1 {
                assert(join_lines(q) =~= s);
            } else {
                assert(q.drop_last() =~= p.drop_last());
                assert(q.last() == p.last().push(s.last()));
                assert(join_lines(p) == join_lines(p.drop_last()) + seq!['\n'] + p.last());
                assert(join_lines(q) == join_lines(p.drop_last()) + seq!['\n'] + q.last());
                assert(s =~= s.drop_last().push(s.last()));
                assert(join_lines(q) =~= s);
            }
        }
    }
}

/// Appending newline-free characters extends the last line.
proof fn lemma_split_append_plain(x: Seq<char>, b: Seq<char>)
    requires
        forall|i: int| 0 <= i < b.len() ==> b[i] != '\n',
    ensures
        split_lines(x + b) == split_lines(x).update(
            split_lines(x).len() - 1,
            split_lines(x).last() + b,
        ),
    decreases b.len(),
{
    lemma_split_lines_nonempty(x);
    if b.len() == 0 {
        assert(x + b =~= x);
        assert(split_lines(x).update(split_lines(x).len() - 1, split_lines(x).last() + b)
            =~= split_lines(x));
    } else {
        let b1 = b.drop_last();
        lemma_split_append_plain(x, b1);
        assert((x + b).drop_last() =~= x + b1);
        assert((x + b).last() == b.last());
        assert(b.last() != '\n');
        lemma_split_lines_nonempty(x + b1);
        let p = split_lines(x + b1);
        assert(split_lines(x + b) == p.update(p.len() - 1, p.last().push(b.last())));
        assert(split_lines(x).last() + b =~= (split_lines(x).last() + b1).push(b.last()));
        assert(split_lines(x + b) =~= split_lines(x).update(
            split_lines(x).len() - 1,
            split_lines(x).last() + b,
        ));
    }
}

/// Cutting paragraphs joined by `'\n'` gives the paragraphs back, when no
/// paragraph holds a `'\n'` of its own.
pub proof fn law_split_join_lines(ps: Seq<Seq<char>>)
    requires
        ps.len() >= 1,
        forall|k: int, i: int| 0 <= k < ps.len() && 0 <= i < ps[k].len() ==> #[trigger] ps[k][i]
            != '\n',
    ensures
        split_lines(join_lines(ps)) == ps,
    decreases ps.len(),
{
    if ps.len() == 1 {
        let e: Seq<char> = seq![];
        lemma_split_append_plain(e, ps[0]);
        assert(e + ps[0] =~= ps[0]);
        assert(split_lines(e) == seq![e]);
        assert(split_lines(ps[0]) =~= ps);
    } else {
        let a = join_lines(ps.drop_last());
        law_split_join_lines(ps.drop_last());
        let a1 = a + seq!['\n'];
        assert(a1.drop_last() =~= a);
        assert(split_lines(a1) == split_lines(a).push(seq![]));
        lemma_split_append_plain(a1, ps.last());
        assert(a1 + ps.last() =~= join_lines(ps));
        assert(split_lines(join_lines(ps)) =~= ps);
    }
}

/// Writing plain text and reading it back gives the text written.
pub proof fn law_plain_text_round_trip(n: NodeV, t: Seq<char>)
    ensures
        plain_text_of(with_plain_text_v(n, t)) == t,
{
    let tv = text_v(t, seq![]);
    assert(texts_from(seq![tv], 1) == Seq::<char>::empty());
    assert(seq![tv][0] == tv);
    assert(text_of(tv) == t);
    assert(texts_from(seq![tv], 0) =~= t);
    if n.is_doc() {
        let ls = split_lines(t);
        lemma_split_lines_nonempty(t);
        law_join_split_lines(t);
        let d = doc_from_paragraphs(ls);
        assert(d.is_doc());
        assert forall|i: int| 0 <= i < ls.len() implies #[trigger] text_of(
            paragraph_nodes(ls)[i],
        ) == ls[i] by {
            let tv2 = text_v(ls[i], seq![]);
            assert(texts_from(seq![tv2], 1) == Seq::<char>::empty());
            assert(seq![tv2][0] == tv2);
            assert(text_of(tv2) == ls[i]);
            assert(texts_from(seq![tv2], 0) =~= ls[i]);
        }
        assert(paragraph_texts_of(d) =~= ls);
    } else {
        match n.content {
            NodeContentV::Text { .. } => {},
            NodeContentV::Nodes(_) => {
                assert(with_plain_text_v(n, t).name() == n.name());
            },
        }
    }
}

/// Rebuilding a document from paragraph texts keeps those texts.
pub proof fn law_from_paragraph_texts_keeps_texts(ps: Seq<Seq<char>>)
    requires
        ps.len() >= 1,
    ensures
        paragraph_texts_of(doc_from_paragraphs(ps)) == ps,
{
    let d = doc_from_paragraphs(ps);
    assert(d.is_doc());
    assert forall|i: int| 0 <= i < ps.len() implies #[trigger] text_of(paragraph_nodes(ps)[i])
        == ps[i] by {
        let tv = text_v(ps[i], seq![]);
        assert(texts_from(seq![tv], 1) == Seq::<char>::empty());
        assert(seq![tv][0] == tv);
        assert(text_of(tv) == ps[i]);
        assert(texts_from(seq![tv], 0) =~= ps[i]);
    }
    assert(paragraph_texts_of(d) =~= ps);
}

/// A node's content length never exceeds its size.
pub proof fn law_content_length_le_size(n: NodeV)
    ensures
        content_len_of(n) <= size_of(n),
{
    lemma_content_le_size(n);
}

} // verus!
