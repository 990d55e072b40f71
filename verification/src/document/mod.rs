//! The tree document model: node ids, node types and contents, anchors
//! and selections between them, a block schema, and an undo stack of
//! operations.

use vstd::prelude::*;
use std::collections::HashMap;
use crate::strings::{str_eq, to_string};

pub mod editor;
pub mod schema;
pub mod tree;

pub use self::tree::TreeDoc as Document;


verus! {

// ---------------------------------------------------------------------------
// Nodes
// ---------------------------------------------------------------------------

/// Unique identifier of a node.
#[derive(Debug, Clone, Copy, PartialEq, Eq, Hash, Structural)]
pub struct NodeId(pub u64);

impl NodeId {
    /// A node id.
    pub fn new(n: u64) -> (r: Self)
        ensures
            r.0 == n,
    {
        NodeId(n)
    }

    /// The number inside.
    pub fn inner(&self) -> (r: u64)
        ensures
            r == self.0,
    {
        self.0
    }
}

/// Types of nodes.
#[derive(Debug, Clone, PartialEq, Eq, Hash)]
pub enum NodeType {
    Document,
    Paragraph,
    Heading { level: u8 },
    List { ordered: bool },
    ListItem,
    Blockquote,
    CodeBlock { lang: Option<String> },
    Divider,
    Text,
    Link { url: Option<String>, title: Option<String> },
    Image { src: String, alt: Option<String> },
    Table,
    TableRow,
    TableCell,
}

/// The view of a node type: every string taken as its characters.
pub enum NodeTypeV {
    Document,
    Paragraph,
    Heading { level: u8 },
    List { ordered: bool },
    ListItem,
    Blockquote,
    CodeBlock { lang: Option<Seq<char>> },
    Divider,
    Text,
    Link { url: Option<Seq<char>>, title: Option<Seq<char>> },
    Image { src: Seq<char>, alt: Option<Seq<char>> },
    Table,
    TableRow,
    TableCell,
}

/// The characters of an optional string.
pub open spec fn opt_text(s: Option<String>) -> Option<Seq<char>> {
    match s {
        Some(t) => Some(t@),
        None => None,
    }
}

impl View for NodeType {
    type V = NodeTypeV;

    open spec fn view(&self) -> NodeTypeV {
        match self {
            NodeType::Document => NodeTypeV::Document,
            NodeType::Paragraph => NodeTypeV::Paragraph,
            NodeType::Heading { level } => NodeTypeV::Heading { level: *level },
            NodeType::List { ordered } => NodeTypeV::List { ordered: *ordered },
            NodeType::ListItem => NodeTypeV::ListItem,
            NodeType::Blockquote => NodeTypeV::Blockquote,
            NodeType::CodeBlock { lang } => NodeTypeV::CodeBlock { lang: opt_text(*lang) },
            NodeType::Divider => NodeTypeV::Divider,
            NodeType::Text => NodeTypeV::Text,
            NodeType::Link { url, title } => NodeTypeV::Link { url: opt_text(*url), title: opt_text(*title) },
            NodeType::Image { src, alt } => NodeTypeV::Image { src: src@, alt: opt_text(*alt) },
            NodeType::Table => NodeTypeV::Table,
            NodeType::TableRow => NodeTypeV::TableRow,
            NodeType::TableCell => NodeTypeV::TableCell,
        }
    }
}

impl NodeTypeV {
    /// Paragraphs, headings, lists, list items, quotes, code blocks and
    /// dividers are blocks.
    pub open spec fn is_block(self) -> bool {
        self is Paragraph || self is Heading || self is List || self is ListItem || self is Blockquote
            || self is CodeBlock || self is Divider
    }

    /// Text, links and images are inline.
    pub open spec fn is_inline(self) -> bool {
        self is Text || self is Link || self is Image
    }

    /// Text and images are leaves.
    pub open spec fn is_leaf(self) -> bool {
        self is Text || self is Image
    }
}

/// Whether two optional strings hold the same characters.
fn same_opt_text(a: &Option<String>, b: &Option<String>) -> (r: bool)
    ensures
        r == (opt_text(*a) == opt_text(*b)),
{
    match (a, b) {
        (Some(x), Some(y)) => str_eq(x.as_str(), y.as_str()),
        (None, None) => true,
        _ => false,
    }
}

impl NodeType {
    /// Whether this is a block type.
    pub fn is_block(&self) -> (r: bool)
        ensures
            r == self@.is_block(),
    {
        match self {
            NodeType::Paragraph | NodeType::Heading { .. } | NodeType::List { .. } | NodeType::ListItem
            | NodeType::Blockquote | NodeType::CodeBlock { .. } | NodeType::Divider => true,
            _ => false,
        }
    }

    /// Whether this is an inline type.
    pub fn is_inline(&self) -> (r: bool)
        ensures
            r == self@.is_inline(),
    {
        match self {
            NodeType::Text | NodeType::Link { .. } | NodeType::Image { .. } => true,
            _ => false,
        }
    }

    /// Whether this is a leaf type.
    pub fn is_leaf(&self) -> (r: bool)
        ensures
            r == self@.is_leaf(),
    {
        match self {
            NodeType::Text | NodeType::Image { .. } => true,
            _ => false,
        }
    }

    /// Whether two node types are the same.
    pub fn same(&self, other: &NodeType) -> (r: bool)
        ensures
            r == (self@ == other@),
    {
        match (self, other) {
            (NodeType::Document, NodeType::Document) => true,
            (NodeType::Paragraph, NodeType::Paragraph) => true,
            (NodeType::Heading { level: a }, NodeType::Heading { level: b }) => *a == *b,
            (NodeType::List { ordered: a }, NodeType::List { ordered: b }) => *a == *b,
            (NodeType::ListItem, NodeType::ListItem) => true,
            (NodeType::Blockquote, NodeType::Blockquote) => true,
            (NodeType::CodeBlock { lang: a }, NodeType::CodeBlock { lang: b }) => same_opt_text(a, b),
            (NodeType::Divider, NodeType::Divider) => true,
            (NodeType::Text, NodeType::Text) => true,
            (NodeType::Link { url: u1, title: t1 }, NodeType::Link { url: u2, title: t2 }) => {
                same_opt_text(u1, u2) && same_opt_text(t1, t2)
            },
            (NodeType::Image { src: s1, alt: a1 }, NodeType::Image { src: s2, alt: a2 }) => {
                str_eq(s1.as_str(), s2.as_str()) && same_opt_text(a1, a2)
            },
            (NodeType::Table, NodeType::Table) => true,
            (NodeType::TableRow, NodeType::TableRow) => true,
            (NodeType::TableCell, NodeType::TableCell) => true,
            _ => false,
        }
    }

    /// A copy of this node type.
    pub fn copy(&self) -> (r: NodeType)
        ensures
            r@ == self@,
    {
        match self {
            NodeType::Document => NodeType::Document,
            NodeType::Paragraph => NodeType::Paragraph,
            NodeType::Heading { level } => NodeType::Heading { level: *level },
            NodeType::List { ordered } => NodeType::List { ordered: *ordered },
            NodeType::ListItem => NodeType::ListItem,
            NodeType::Blockquote => NodeType::Blockquote,
            NodeType::CodeBlock { lang } => NodeType::CodeBlock { lang: copy_opt_text(lang) },
            NodeType::Divider => NodeType::Divider,
            NodeType::Text => NodeType::Text,
            NodeType::Link { url, title } => NodeType::Link {
                url: copy_opt_text(url),
                title: copy_opt_text(title),
            },
            NodeType::Image { src, alt } => NodeType::Image { src: src.clone(), alt: copy_opt_text(alt) },
            NodeType::Table => NodeType::Table,
            NodeType::TableRow => NodeType::TableRow,
            NodeType::TableCell => NodeType::TableCell,
        }
    }
}

/// A copy of an optional string.
fn copy_opt_text(s: &Option<String>) -> (r: Option<String>)
    ensures
        opt_text(r) == opt_text(*s),
{
    match s {
        Some(t) => Some(t.clone()),
        None => None,
    }
}

/// The content of a node.
#[derive(Debug, Clone, PartialEq, Eq)]
pub enum NodeContent {
    Empty,
    Text { text: String },
    Mixed { children: Vec<NodeId> },
}

/// Node metadata.
#[derive(Debug, Clone, PartialEq, Eq)]
pub struct NodeMeta {
    pub collapsed: bool,
    pub deleted: bool,
    pub attrs: HashMap<String, serde_json::Value>,
}

impl Default for NodeMeta {
    fn default() -> (r: Self)
        ensures
            !r.collapsed,
            !r.deleted,
            r.attrs@ == Map::<String, serde_json::Value>::empty(),
    {
        NodeMeta { collapsed: false, deleted: false, attrs: HashMap::new() }
    }
}

/// A node of the tree: its id, its parent and children by id, its type,
/// content and metadata.
#[derive(Debug, Clone, PartialEq, Eq)]
pub struct Node {
    pub id: NodeId,
    pub parent: Option<NodeId>,
    pub children: Vec<NodeId>,
    pub node_type: NodeType,
    pub content: NodeContent,
    pub meta: NodeMeta,
}

impl Node {
    /// A new node with no parent, no children and default metadata.
    pub fn new(id: NodeId, node_type: NodeType, content: NodeContent) -> (r: Self)
        ensures
            r.id == id,
            r.parent is None,
            r.children@.len() == 0,
            r.node_type == node_type,
            r.content == content,
            !r.meta.collapsed && !r.meta.deleted,
            r.meta.attrs@ == Map::<String, serde_json::Value>::empty(),
    {
        Node {
            id,
            parent: None,
            children: Vec::new(),
            node_type,
            content,
            meta: NodeMeta::default(),
        }
    }

    /// A leaf: a leaf type, or a node without children.
    pub fn is_leaf(&self) -> (r: bool)
        ensures
            r == (self.node_type@.is_leaf() || self.children@.len() == 0),
    {
        self.node_type.is_leaf() || self.children.len() == 0
    }
}

/// Kinds of atomic content.
#[derive(Debug, Clone, Copy, PartialEq, Eq)]
pub enum AtomKind {
    /// Inline equation
    MathInline,
    /// Block equation
    MathBlock,
    /// Code snippet
    Code,
    /// Media embed
    Media,
    /// Custom atom
    Custom(&'static str),
}

/// The content a node may hold.
#[derive(Debug, Clone, PartialEq, Eq)]
pub enum ContentType {
    /// No content
    Empty,
    /// Inline content only
    Inline,
    /// Block content of the given types only
    Block(Vec<NodeType>),
    /// Inline and block content of the given types
    Mixed { inline: Vec<NodeType>, blocks: Vec<NodeType> },
}

/// Mixed content: child ids in order, and what they may be.
#[derive(Debug, Clone, PartialEq, Eq)]
pub struct MixedContent {
    /// Child node ids in order
    pub children: Vec<NodeId>,
    /// What the children may be
    pub content: ContentType,
}

impl MixedContent {
    /// No children yet; text-only content.
    pub fn text() -> (r: Self)
        ensures
            r.children@.len() == 0,
            r.content is Inline,
    {
        MixedContent { children: Vec::new(), content: ContentType::Inline }
    }

    /// No children yet; blocks of the `allowed` types only.
    pub fn block(allowed: Vec<NodeType>) -> (r: Self)
        ensures
            r.children@.len() == 0,
            r.content matches ContentType::Block(a) && a@ == allowed@,
    {
        MixedContent { children: Vec::new(), content: ContentType::Block(allowed) }
    }
}

/// The schema of a block type: what it holds and its attributes.
#[derive(Debug, Clone, PartialEq, Eq)]
pub struct BlockSchema {
    /// Content type
    pub content: ContentType,
    /// Block-level attributes
    pub attrs: Vec<BlockAttribute>,
}

/// The schema of an inline type: its attributes.
#[derive(Debug, Clone, PartialEq, Eq)]
pub struct InlineSchema {
    /// Inline-level attributes
    pub attrs: Vec<InlineAttribute>,
}

/// Block-level attributes.
#[derive(Debug, Clone, PartialEq, Eq)]
pub enum BlockAttribute {
    /// ID attribute
    Id,
    /// Class attribute
    Class(String),
    /// Style attribute
    Style(String),
    /// Custom attribute
    Custom { name: String, required: bool },
}

/// Inline attributes.
#[derive(Debug, Clone, PartialEq, Eq)]
pub enum InlineAttribute {
    /// Link URL
    Href,
    /// Title
    Title,
    /// Class
    Class(String),
    /// Style
    Style(String),
    /// Target for links
    Target,
    /// Custom attribute
    Custom { name: String, required: bool },
}

// ---------------------------------------------------------------------------
// Schema
// ---------------------------------------------------------------------------

/// The block types a document accepts.
#[derive(Debug)]
pub struct Schema {
    blocks: Vec<NodeType>,
}

/// The block types of `Schema::new`.
pub open spec fn standard_blocks() -> Seq<NodeTypeV> {
    seq![
        NodeTypeV::Document,
        NodeTypeV::Paragraph,
        NodeTypeV::Heading { level: 1 },
        NodeTypeV::List { ordered: false },
        NodeTypeV::Blockquote,
        NodeTypeV::CodeBlock { lang: None },
        NodeTypeV::Divider,
    ]
}

impl View for Schema {
    type V = Seq<NodeTypeV>;

    closed spec fn view(&self) -> Seq<NodeTypeV> {
        self.blocks@.map_values(|t: NodeType| t@)
    }
}

impl Default for Schema {
    fn default() -> (r: Self)
        ensures
            r@ == Seq::<NodeTypeV>::empty(),
    {
        let r = Schema { blocks: Vec::new() };
        proof {
            assert(r@ =~= Seq::<NodeTypeV>::empty());
        }
        r
    }
}

impl Schema {
    /// The standard schema: document, paragraph, level-1 heading, bullet
    /// list, blockquote, code block without language, divider.
    pub fn new() -> (r: Self)
        ensures
            r@ == standard_blocks(),
    {
        let r = Schema {
            blocks: vec![
                NodeType::Document,
                NodeType::Paragraph,
                NodeType::Heading { level: 1 },
                NodeType::List { ordered: false },
                NodeType::Blockquote,
                NodeType::CodeBlock { lang: None },
                NodeType::Divider,
            ],
        };
        proof {
            assert(r@ =~= standard_blocks());
        }
        r
    }

    /// Whether the schema lists `node_type`.
    pub fn is_valid(&self, node_type: &NodeType) -> (r: bool)
        ensures
            r == self@.contains(node_type@),
    {
        let mut i: usize = 0;
        while i < self.blocks.len()
            invariant
                i <= self.blocks@.len(),
                forall|j: int| 0 <= j < i ==> #[trigger] self@[j] != node_type@,
            decreases self.blocks@.len() - i,
        {
            if self.blocks[i].same(node_type) {
                proof {
                    assert(self@[i as int] == node_type@);
                }
                return true;
            }
            i = i + 1;
        }
        false
    }
}

// ---------------------------------------------------------------------------
// Anchors and selections
// ---------------------------------------------------------------------------

/// A position: a node and a character offset in it.
#[derive(Debug, Clone, Copy, PartialEq, Eq, Hash, Structural)]
pub struct Anchor {
    pub node_id: NodeId,
    pub offset: usize,
}

impl Anchor {
    /// An anchor at `offset` in `node_id`.
    pub fn new(node_id: NodeId, offset: usize) -> (r: Self)
        ensures
            r == (Anchor { node_id, offset }),
    {
        Anchor { node_id, offset }
    }

    /// An anchor at the start of `node_id`.
    pub fn at_start(node_id: NodeId) -> (r: Self)
        ensures
            r == (Anchor { node_id, offset: 0 }),
    {
        Anchor { node_id, offset: 0 }
    }

    /// An anchor at the end of `node_id`, whose length is `length`.
    pub fn at_end(node_id: NodeId, length: usize) -> (r: Self)
        ensures
            r == (Anchor { node_id, offset: length }),
    {
        Anchor { node_id, offset: length }
    }

    /// The offset.
    pub fn offset(&self) -> (r: usize)
        ensures
            r == self.offset,
    {
        self.offset
    }

    /// The node.
    pub fn node_id(&self) -> (r: NodeId)
        ensures
            r == self.node_id,
    {
        self.node_id
    }
}

/// A selection between two anchors.
#[derive(Debug, Clone, Copy, PartialEq, Eq, Structural)]
pub struct Selection {
    pub anchor: Anchor,
    pub focus: Anchor,
}

impl Selection {
    /// A collapsed selection at `anchor`.
    pub fn caret(anchor: Anchor) -> (r: Self)
        ensures
            r == (Selection { anchor, focus: anchor }),
    {
        Selection { anchor, focus: anchor }
    }

    /// The selection from `anchor` to `focus`.
    pub fn range(anchor: Anchor, focus: Anchor) -> (r: Self)
        ensures
            r == (Selection { anchor, focus }),
    {
        Selection { anchor, focus }
    }

    /// Whether anchor and focus coincide.
    pub fn is_caret(&self) -> (r: bool)
        ensures
            r == (self.anchor == self.focus),
    {
        self.anchor == self.focus
    }
}

/// Which side of a selection.
#[derive(Debug, Clone, Copy, PartialEq, Eq, Structural)]
pub enum SelectionSide {
    Start,
    End,
}

/// A direction of cursor movement.
#[derive(Debug, Clone, Copy, PartialEq, Eq, Structural)]
pub enum Direction {
    Forward,
    Backward,
    Up,
    Down,
}

/// The outcome of a cursor movement.
#[derive(Debug, Clone, Copy, PartialEq, Eq)]
pub struct CursorMoveResult {
    /// The new cursor position
    pub cursor: Option<Anchor>,
    /// Whether the move succeeded
    pub success: bool,
    /// Why it did not
    pub message: Option<&'static str>,
}

impl CursorMoveResult {
    /// A successful move to `cursor`.
    pub fn success(cursor: Anchor) -> (r: Self)
        ensures
            r.cursor == Some(cursor),
            r.success,
            r.message is None,
    {
        CursorMoveResult { cursor: Some(cursor), success: true, message: None }
    }

    /// A failed move, with the reason.
    pub fn failed(message: &'static str) -> (r: Self)
        ensures
            r.cursor is None,
            !r.success,
            r.message == Some(message),
    {
        CursorMoveResult { cursor: None, success: false, message: Some(message) }
    }
}

/// The outcome of validating a node.
#[derive(Debug, Clone, PartialEq, Eq)]
pub struct ValidationResult<'a> {
    valid: bool,
    node: Option<&'a NodeType>,
    message: Option<String>,
}

impl<'a> ValidationResult<'a> {
    /// Whether the node was valid.
    pub closed spec fn spec_valid(&self) -> bool {
        self.valid
    }

    /// The node at fault.
    pub closed spec fn spec_node(&self) -> Option<&'a NodeType> {
        self.node
    }

    /// The message.
    pub closed spec fn spec_message(&self) -> Option<Seq<char>> {
        opt_text(self.message)
    }

    /// A valid result.
    pub fn ok() -> (r: Self)
        ensures
            r.spec_valid(),
            r.spec_node() is None,
            r.spec_message() is None,
    {
        ValidationResult { valid: true, node: None, message: None }
    }

    /// An invalid result for `node`, with `message`.
    pub fn error(node: &'a NodeType, message: &str) -> (r: Self)
        ensures
            !r.spec_valid(),
            r.spec_node() == Some(node),
            r.spec_message() == Some(message@),
    {
        ValidationResult { valid: false, node: Some(node), message: Some(to_string(message)) }
    }

    /// Whether the node was valid.
    pub fn is_valid(&self) -> (r: bool)
        ensures
            r == self.spec_valid(),
    {
        self.valid
    }

    /// The message, if any.
    pub fn message(&self) -> (r: Option<&str>)
        ensures
            match self.spec_message() {
                Some(m) => r matches Some(s) && s@ == m,
                None => r is None,
            },
    {
        match &self.message {
            Some(m) => Some(m.as_str()),
            None => None,
        }
    }
}

// ---------------------------------------------------------------------------
// Operations and the undo stack
// ---------------------------------------------------------------------------

/// A serializable anchor.
#[derive(Debug, Clone, Copy, PartialEq, Eq, Structural)]
pub struct AnchorData {
    pub node_id: u64,
    pub offset: usize,
}

/// A serializable selection.
#[derive(Debug, Clone, Copy, PartialEq, Eq, Structural)]
pub struct SelectionData {
    pub anchor: AnchorData,
    pub focus: AnchorData,
}

/// A document operation.
#[derive(Debug, Clone, PartialEq, Eq)]
pub enum Operation {
    InsertText { node: u64, offset: usize, text: String },
    DeleteText { node: u64, from: usize, to: usize },
    Delete { node: u64 },
    SetSelection { selection: Option<SelectionData> },
}

/// The view of an operation: its text taken as characters.
pub enum OperationV {
    InsertText { node: u64, offset: usize, text: Seq<char> },
    DeleteText { node: u64, from: usize, to: usize },
    Delete { node: u64 },
    SetSelection { selection: Option<SelectionData> },
}

impl View for Operation {
    type V = OperationV;

    open spec fn view(&self) -> OperationV {
        match self {
            Operation::InsertText { node, offset, text } => OperationV::InsertText {
                node: *node,
                offset: *offset,
                text: text@,
            },
            Operation::DeleteText { node, from, to } => OperationV::DeleteText {
                node: *node,
                from: *from,
                to: *to,
            },
            Operation::Delete { node } => OperationV::Delete { node: *node },
            Operation::SetSelection { selection } => OperationV::SetSelection {
                selection: *selection,
            },
        }
    }
}

/// The views of a list of operations.
pub open spec fn ops_view(ops: Seq<Operation>) -> Seq<OperationV> {
    ops.map_values(|o: Operation| o@)
}

/// An undo stack: the operations done (oldest first, at most `max_size`
/// after a push) and those undone.
#[derive(Debug)]
pub struct OperationStack {
    done: Vec<Operation>,
    undone: Vec<Operation>,
    max_size: usize,
}

/// The view of an undo stack.
pub struct OperationStackV {
    pub done: Seq<OperationV>,
    pub undone: Seq<OperationV>,
    pub max_size: usize,
}

impl View for OperationStack {
    type V = OperationStackV;

    closed spec fn view(&self) -> OperationStackV {
        OperationStackV { done: ops_view(self.done@), undone: ops_view(self.undone@), max_size: self.max_size }
    }
}

/// The done list after pushing `op` onto `done`: the oldest entry drops
/// off when the list grows past `max`.
pub open spec fn pushed(done: Seq<OperationV>, op: OperationV, max: usize) -> Seq<OperationV> {
    let d = done.push(op);
    if d.len() > max {
        d.drop_first()
    } else {
        d
    }
}

impl OperationStack {
    /// An empty stack keeping at most `max_size` operations.
    pub fn new(max_size: usize) -> (r: Self)
        ensures
            r@.done == Seq::<OperationV>::empty(),
            r@.undone == Seq::<OperationV>::empty(),
            r@.max_size == max_size,
    {
        let r = OperationStack { done: Vec::new(), undone: Vec::new(), max_size };
        proof {
            assert(r@.done =~= Seq::<OperationV>::empty());
            assert(r@.undone =~= Seq::<OperationV>::empty());
        }
        r
    }

    /// Record `op` as done; the undone operations are dropped.
    pub fn push(&mut self, op: Operation)
        ensures
            final(self)@.done == pushed(old(self)@.done, op@, old(self)@.max_size),
            final(self)@.undone == Seq::<OperationV>::empty(),
            final(self)@.max_size == old(self)@.max_size,
    {
        let ghost v = op@;
        self.done.push(op);
        self.undone.clear();
        proof {
            assert(ops_view(self.done@) =~= old(self)@.done.push(v));
            assert(ops_view(self.undone@) =~= Seq::<OperationV>::empty());
        }
        if self.done.len() > self.max_size {
            let ghost before = self.done@;
            self.done.remove(0);
            proof {
                assert(ops_view(self.done@) =~= ops_view(before).drop_first());
            }
        }
    }

    /// Take back the last operation done.
    pub fn pop(&mut self) -> (r: Option<Operation>)
        ensures
            old(self)@.done.len() == 0 ==> r is None && final(self)@ == old(self)@,
            old(self)@.done.len() > 0 ==> (r matches Some(op) && op@ == old(self)@.done.last()
                && final(self)@.done == old(self)@.done.drop_last()),
            final(self)@.undone == old(self)@.undone,
            final(self)@.max_size == old(self)@.max_size,
    {
        let r = self.done.pop();
        proof {
            assert(ops_view(self.done@) =~= if old(self)@.done.len() > 0 {
                old(self)@.done.drop_last()
            } else {
                old(self)@.done
            });
        }
        r
    }

    /// Whether an operation can be undone.
    pub fn can_undo(&self) -> (r: bool)
        ensures
            r == (self@.done.len() > 0),
    {
        self.done.len() != 0
    }

    /// Whether an operation can be redone.
    pub fn can_redo(&self) -> (r: bool)
        ensures
            r == (self@.undone.len() > 0),
    {
        self.undone.len() != 0
    }
}

/// Undoing right after a push gives back the operation pushed, when the
/// stack keeps at least one operation; the rest of the list is what was
/// there before, less the oldest entry when it overflowed; and a list
/// within its bound stays within it.
pub proof fn law_pop_after_push(done: Seq<OperationV>, op: OperationV, max: usize)
    requires
        max > 0,
    ensures
        pushed(done, op, max).len() > 0,
        pushed(done, op, max).last() == op,
        pushed(done, op, max).drop_last() == if done.len() + 1 > max {
            done.drop_first()
        } else {
            done
        },
        done.len() <= max ==> pushed(done, op, max).len() <= max,
{
    let d = done.push(op);
    if d.len() > max {
        assert(d.drop_first().drop_last() =~= done.drop_first());
    } else {
        assert(d.drop_last() =~= done);
    }
}

} // verus!
