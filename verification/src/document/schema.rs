//! The document schema: which block and inline node types exist, what each
//! block may hold, which attributes each type takes, and the marks.
//!
//! Each table is a list of `(key, entry)` pairs whose keys are distinct.

use vstd::prelude::*;
use crate::document::{
    BlockAttribute, BlockSchema, ContentType, InlineAttribute, InlineSchema, NodeContent, NodeType,
    NodeTypeV, ValidationResult,
};
use crate::strings::{str_eq, to_string};

verus! {

// ---------------------------------------------------------------------------
// Views
// ---------------------------------------------------------------------------

/// The view of a content type.
pub enum ContentTypeV {
    Empty,
    Inline,
    Block(Seq<NodeTypeV>),
    Mixed { inline: Seq<NodeTypeV>, blocks: Seq<NodeTypeV> },
}

/// The views of a list of node types.
pub open spec fn types_view(ts: Seq<NodeType>) -> Seq<NodeTypeV> {
    ts.map_values(|t: NodeType| t@)
}

impl View for ContentType {
    type V = ContentTypeV;

    open spec fn view(&self) -> ContentTypeV {
        match self {
            ContentType::Empty => ContentTypeV::Empty,
            ContentType::Inline => ContentTypeV::Inline,
            ContentType::Block(ts) => ContentTypeV::Block(types_view(ts@)),
            ContentType::Mixed { inline, blocks } => ContentTypeV::Mixed {
                inline: types_view(inline@),
                blocks: types_view(blocks@),
            },
        }
    }
}

/// The view of a block attribute.
pub enum BlockAttributeV {
    Id,
    Class(Seq<char>),
    Style(Seq<char>),
    Custom { name: Seq<char>, required: bool },
}

impl View for BlockAttribute {
    type V = BlockAttributeV;

    open spec fn view(&self) -> BlockAttributeV {
        match self {
            BlockAttribute::Id => BlockAttributeV::Id,
            BlockAttribute::Class(c) => BlockAttributeV::Class(c@),
            BlockAttribute::Style(c) => BlockAttributeV::Style(c@),
            BlockAttribute::Custom { name, required } => BlockAttributeV::Custom {
                name: name@,
                required: *required,
            },
        }
    }
}

/// The view of an inline attribute.
pub enum InlineAttributeV {
    Href,
    Title,
    Class(Seq<char>),
    Style(Seq<char>),
    Target,
    Custom { name: Seq<char>, required: bool },
}

impl View for InlineAttribute {
    type V = InlineAttributeV;

    open spec fn view(&self) -> InlineAttributeV {
        match self {
            InlineAttribute::Href => InlineAttributeV::Href,
            InlineAttribute::Title => InlineAttributeV::Title,
            InlineAttribute::Class(c) => InlineAttributeV::Class(c@),
            InlineAttribute::Style(c) => InlineAttributeV::Style(c@),
            InlineAttribute::Target => InlineAttributeV::Target,
            InlineAttribute::Custom { name, required } => InlineAttributeV::Custom {
                name: name@,
                required: *required,
            },
        }
    }
}

/// The view of a block schema.
pub struct BlockSchemaV {
    pub content: ContentTypeV,
    pub attrs: Seq<BlockAttributeV>,
}

impl View for BlockSchema {
    type V = BlockSchemaV;

    open spec fn view(&self) -> BlockSchemaV {
        BlockSchemaV {
            content: self.content@,
            attrs: self.attrs@.map_values(|a: BlockAttribute| a@),
        }
    }
}

/// The view of an inline schema.
pub struct InlineSchemaV {
    pub attrs: Seq<InlineAttributeV>,
}

impl View for InlineSchema {
    type V = InlineSchemaV;

    open spec fn view(&self) -> InlineSchemaV {
        InlineSchemaV { attrs: self.attrs@.map_values(|a: InlineAttribute| a@) }
    }
}

/// The schema of a mark: whether it toggles, its default value and the
/// marks it excludes.
#[derive(Debug, Clone, PartialEq, Eq)]
pub struct MarkSchema {
    /// Whether this mark can be toggled
    pub toggleable: bool,
    /// Default value
    pub default: Option<serde_json::Value>,
    /// Marks this one excludes
    pub excludes: Vec<&'static str>,
}

/// The view of a mark schema.
pub struct MarkSchemaV {
    pub toggleable: bool,
    pub default: Option<serde_json::Value>,
    pub excludes: Seq<Seq<char>>,
}

impl View for MarkSchema {
    type V = MarkSchemaV;

    open spec fn view(&self) -> MarkSchemaV {
        MarkSchemaV {
            toggleable: self.toggleable,
            default: self.default,
            excludes: self.excludes@.map_values(|e: &str| e@),
        }
    }
}

/// The view of a schema: its tables of block, inline and mark entries, and
/// what the top level holds.
pub struct SchemaV {
    pub blocks: Seq<(NodeTypeV, BlockSchemaV)>,
    pub inlines: Seq<(NodeTypeV, InlineSchemaV)>,
    pub top_level: ContentTypeV,
    pub marks: Seq<(Seq<char>, MarkSchemaV)>,
}

/// A document schema.
#[derive(Debug)]
pub struct Schema {
    blocks: Vec<(NodeType, BlockSchema)>,
    inlines: Vec<(NodeType, InlineSchema)>,
    top_level: ContentType,
    marks: Vec<(&'static str, MarkSchema)>,
}

impl View for Schema {
    type V = SchemaV;

    closed spec fn view(&self) -> SchemaV {
        SchemaV {
            blocks: self.blocks@.map_values(|p: (NodeType, BlockSchema)| (p.0@, p.1@)),
            inlines: self.inlines@.map_values(|p: (NodeType, InlineSchema)| (p.0@, p.1@)),
            top_level: self.top_level@,
            marks: self.marks@.map_values(|p: (&'static str, MarkSchema)| (p.0@, p.1@)),
        }
    }
}

// ---------------------------------------------------------------------------
// Tables
// ---------------------------------------------------------------------------

/// The keys of a table are distinct.
pub open spec fn keys_distinct<K, V>(t: Seq<(K, V)>) -> bool {
    forall|i: int, j: int| 0 <= i < j < t.len() ==> t[i].0 != t[j].0
}

/// The entry of `t` under `k`.
pub open spec fn entry<K, V>(t: Seq<(K, V)>, k: K) -> Option<V>
    decreases t.len(),
{
    if t.len() == 0 {
        None
    } else if t[0].0 == k {
        Some(t[0].1)
    } else {
        entry(t.drop_first(), k)
    }
}

/// The entry of `t` under `k`, searching from `i`.
proof fn lemma_entry_from<K, V>(t: Seq<(K, V)>, k: K, i: int)
    requires
        0 <= i <= t.len(),
        forall|j: int| 0 <= j < i ==> t[j].0 != k,
    ensures
        entry(t, k) == entry(t.skip(i), k),
    decreases i,
{
    if i > 0 {
        lemma_entry_from(t.drop_first(), k, i - 1);
        assert(t.drop_first().skip(i - 1) =~= t.skip(i));
    } else {
        assert(t.skip(0) =~= t);
    }
}

/// The schema's tables have distinct keys.
pub open spec fn schema_wf(s: SchemaV) -> bool {
    &&& keys_distinct(s.blocks)
    &&& keys_distinct(s.inlines)
    &&& keys_distinct(s.marks)
}

/// The heading of a level.
pub open spec fn heading_v(level: u8) -> NodeTypeV {
    NodeTypeV::Heading { level }
}

/// What the document node may hold: paragraphs, headings of every level,
/// both kinds of list, blockquotes, code blocks and dividers.
pub open spec fn document_blocks_v() -> Seq<NodeTypeV> {
    seq![
        NodeTypeV::Paragraph,
        heading_v(1),
        heading_v(2),
        heading_v(3),
        heading_v(4),
        heading_v(5),
        heading_v(6),
        NodeTypeV::List { ordered: false },
        NodeTypeV::List { ordered: true },
        NodeTypeV::Blockquote,
        NodeTypeV::CodeBlock { lang: None },
        NodeTypeV::Divider,
    ]
}

/// A block schema with no attributes.
pub open spec fn plain_block_v(content: ContentTypeV) -> BlockSchemaV {
    BlockSchemaV { content, attrs: seq![] }
}

/// A toggleable mark schema with no default.
pub open spec fn mark_v(toggleable: bool, excludes: Seq<Seq<char>>) -> MarkSchemaV {
    MarkSchemaV { toggleable, default: None, excludes }
}

/// The default document schema. Code blocks hold inline (text) content; a
/// link is keyed with an empty URL and an image with an empty source.
pub open spec fn default_doc_schema_v() -> SchemaV {
    SchemaV {
        blocks: seq![
            (NodeTypeV::Document, plain_block_v(ContentTypeV::Block(document_blocks_v()))),
            (NodeTypeV::Paragraph, plain_block_v(ContentTypeV::Inline)),
            (heading_v(1), plain_block_v(ContentTypeV::Inline)),
            (NodeTypeV::List { ordered: false }, plain_block_v(ContentTypeV::Block(seq![NodeTypeV::ListItem]))),
            (NodeTypeV::List { ordered: true }, plain_block_v(ContentTypeV::Block(seq![NodeTypeV::ListItem]))),
            (NodeTypeV::ListItem, plain_block_v(ContentTypeV::Block(seq![NodeTypeV::Paragraph]))),
            (NodeTypeV::Blockquote, plain_block_v(ContentTypeV::Block(seq![NodeTypeV::Paragraph]))),
            (
                NodeTypeV::CodeBlock { lang: None },
                BlockSchemaV {
                    content: ContentTypeV::Inline,
                    attrs: seq![BlockAttributeV::Custom { name: "language"@, required: false }],
                },
            ),
            (NodeTypeV::Divider, plain_block_v(ContentTypeV::Empty)),
        ],
        inlines: seq![
            (NodeTypeV::Text, InlineSchemaV { attrs: seq![] }),
            (
                NodeTypeV::Link { url: Some(seq![]), title: None },
                InlineSchemaV {
                    attrs: seq![InlineAttributeV::Href, InlineAttributeV::Title, InlineAttributeV::Target],
                },
            ),
            (
                NodeTypeV::Image { src: seq![], alt: None },
                InlineSchemaV {
                    attrs: seq![
                        InlineAttributeV::Custom { name: "src"@, required: true },
                        InlineAttributeV::Custom { name: "alt"@, required: false },
                    ],
                },
            ),
        ],
        top_level: ContentTypeV::Block(seq![NodeTypeV::Paragraph, heading_v(1)]),
        marks: seq![
            ("strong"@, mark_v(true, seq!["strong"@, "em"@])),
            ("em"@, mark_v(true, seq!["strong"@, "em"@])),
            ("code"@, mark_v(true, seq![])),
            ("link"@, mark_v(false, seq![])),
        ],
    }
}

/// What validating content against an allowed content type gives: `None`
/// when it is allowed, else the node type and message of the error.
pub open spec fn content_error_v(allowed: ContentTypeV, content: NodeContent) -> Option<
    (NodeTypeV, Seq<char>),
> {
    match allowed {
        ContentTypeV::Empty => if content is Empty {
            None
        } else {
            Some((NodeTypeV::Paragraph, "Content not allowed here"@))
        },
        ContentTypeV::Inline => if content is Text {
            None
        } else {
            Some((NodeTypeV::Text, "Inline content required"@))
        },
        ContentTypeV::Block(_) => if content is Mixed {
            None
        } else {
            Some((NodeTypeV::Paragraph, "Block content required"@))
        },
        ContentTypeV::Mixed { .. } => None,
    }
}

/// `r` reports `err`: valid with nothing more when there is none, else
/// invalid with a node of that type and the message.
pub open spec fn reports(r: ValidationResult, err: Option<(NodeTypeV, Seq<char>)>) -> bool {
    match err {
        None => r.spec_valid() && r.spec_node() is None && r.spec_message() is None,
        Some((t, m)) => !r.spec_valid() && (r.spec_node() matches Some(n) && n@ == t)
            && r.spec_message() == Some(m),
    }
}

/// The default schema's keys are distinct.
proof fn lemma_default_wf()
    ensures
        schema_wf(default_doc_schema_v()),
{
    reveal_strlit("strong");
    reveal_strlit("em");
    reveal_strlit("code");
    reveal_strlit("link");
    let v = default_doc_schema_v();
    assert forall|i: int, j: int| 0 <= i < j < v.blocks.len() implies v.blocks[i].0 != v.blocks[j].0 by {
        assert(v.blocks.len() == 9);
    }
    assert forall|i: int, j: int| 0 <= i < j < v.inlines.len() implies v.inlines[i].0 != v.inlines[j].0 by {
        assert(v.inlines.len() == 3);
    }
    assert forall|i: int, j: int| 0 <= i < j < v.marks.len() implies v.marks[i].0 != v.marks[j].0 by {
        assert(v.marks.len() == 4);
        assert("strong"@[0] != "em"@[0]);
        assert("strong"@[0] != "code"@[0]);
        assert("strong"@[0] != "link"@[0]);
        assert("em"@[0] != "code"@[0]);
        assert("em"@[0] != "link"@[0]);
        assert("code"@[0] != "link"@[0]);
    }
}

// ---------------------------------------------------------------------------
// Construction
// ---------------------------------------------------------------------------

/// A block schema with no attributes.
fn plain_block(content: ContentType) -> (r: BlockSchema)
    ensures
        r@ == plain_block_v(content@),
{
    let r = BlockSchema { content, attrs: Vec::new() };
    proof {
        assert(r@.attrs =~= seq![]);
    }
    r
}

/// A mark schema with no default.
fn mark(toggleable: bool, excludes: Vec<&'static str>) -> (r: MarkSchema)
    ensures
        r@ == mark_v(toggleable, excludes@.map_values(|e: &str| e@)),
{
    MarkSchema { toggleable, default: None, excludes }
}

/// A mark that excludes `strong` and `em`.
fn exclusive_mark() -> (r: MarkSchema)
    ensures
        r@ == mark_v(true, seq!["strong"@, "em"@]),
{
    let ex = vec!["strong", "em"];
    let r = mark(true, ex);
    proof {
        assert(ex@.map_values(|e: &str| e@) =~= seq!["strong"@, "em"@]);
    }
    r
}

/// Block content of the given types.
fn block_content(ts: Vec<NodeType>) -> (r: ContentType)
    ensures
        r@ == ContentTypeV::Block(types_view(ts@)),
{
    ContentType::Block(ts)
}

impl Schema {
    /// The tables have distinct keys.
    #[verifier::type_invariant]
    closed spec fn distinct_keys(self) -> bool {
        schema_wf(self@)
    }

    /// The default document schema.
    pub fn new() -> (r: Self)
        ensures
            r@ == default_doc_schema_v(),
    {
        let doc_types = vec![
            NodeType::Paragraph,
            NodeType::Heading { level: 1 },
            NodeType::Heading { level: 2 },
            NodeType::Heading { level: 3 },
            NodeType::Heading { level: 4 },
            NodeType::Heading { level: 5 },
            NodeType::Heading { level: 6 },
            NodeType::List { ordered: false },
            NodeType::List { ordered: true },
            NodeType::Blockquote,
            NodeType::CodeBlock { lang: None },
            NodeType::Divider,
        ];
        proof {
            assert(types_view(doc_types@) =~= document_blocks_v());
        }
        let code_attrs = vec![BlockAttribute::Custom { name: to_string("language"), required: false }];
        let mut blocks: Vec<(NodeType, BlockSchema)> = Vec::new();
        blocks.push((NodeType::Document, plain_block(block_content(doc_types))));
        blocks.push((NodeType::Paragraph, plain_block(ContentType::Inline)));
        blocks.push((NodeType::Heading { level: 1 }, plain_block(ContentType::Inline)));
        let list_items = vec![NodeType::ListItem];
        proof {
            assert(types_view(list_items@) =~= seq![NodeTypeV::ListItem]);
        }
        blocks.push((NodeType::List { ordered: false }, plain_block(block_content(list_items))));
        let list_items2 = vec![NodeType::ListItem];
        proof {
            assert(types_view(list_items2@) =~= seq![NodeTypeV::ListItem]);
        }
        blocks.push((NodeType::List { ordered: true }, plain_block(block_content(list_items2))));
        let paras = vec![NodeType::Paragraph];
        proof {
            assert(types_view(paras@) =~= seq![NodeTypeV::Paragraph]);
        }
        blocks.push((NodeType::ListItem, plain_block(block_content(paras))));
        let paras2 = vec![NodeType::Paragraph];
        proof {
            assert(types_view(paras2@) =~= seq![NodeTypeV::Paragraph]);
        }
        blocks.push((NodeType::Blockquote, plain_block(block_content(paras2))));
        let code = BlockSchema { content: ContentType::Inline, attrs: code_attrs };
        proof {
            assert(code@.attrs =~= seq![BlockAttributeV::Custom { name: "language"@, required: false }]);
        }
        blocks.push((NodeType::CodeBlock { lang: None }, code));
        blocks.push((NodeType::Divider, plain_block(ContentType::Empty)));

        let mut inlines: Vec<(NodeType, InlineSchema)> = Vec::new();
        let text_schema = InlineSchema { attrs: Vec::new() };
        proof {
            assert(text_schema@.attrs =~= seq![]);
        }
        inlines.push((NodeType::Text, text_schema));
        let link_schema = InlineSchema {
            attrs: vec![InlineAttribute::Href, InlineAttribute::Title, InlineAttribute::Target],
        };
        proof {
            assert(link_schema@.attrs =~= seq![
                InlineAttributeV::Href,
                InlineAttributeV::Title,
                InlineAttributeV::Target,
            ]);
        }
        let empty_url = String::new();
        inlines.push((NodeType::Link { url: Some(empty_url), title: None }, link_schema));
        let image_schema = InlineSchema {
            attrs: vec![
                InlineAttribute::Custom { name: to_string("src"), required: true },
                InlineAttribute::Custom { name: to_string("alt"), required: false },
            ],
        };
        proof {
            assert(image_schema@.attrs =~= seq![
                InlineAttributeV::Custom { name: "src"@, required: true },
                InlineAttributeV::Custom { name: "alt"@, required: false },
            ]);
        }
        inlines.push((NodeType::Image { src: String::new(), alt: None }, image_schema));

        let mut marks: Vec<(&'static str, MarkSchema)> = Vec::new();
        marks.push(("strong", exclusive_mark()));
        marks.push(("em", exclusive_mark()));
        let no_ex: Vec<&'static str> = Vec::new();
        let code_mark = mark(true, no_ex);
        proof {
            assert(no_ex@.map_values(|e: &str| e@) =~= seq![]);
        }
        marks.push(("code", code_mark));
        let no_ex2: Vec<&'static str> = Vec::new();
        let link_mark = mark(false, no_ex2);
        proof {
            assert(no_ex2@.map_values(|e: &str| e@) =~= seq![]);
        }
        marks.push(("link", link_mark));

        let top = vec![NodeType::Paragraph, NodeType::Heading { level: 1 }];
        proof {
            assert(types_view(top@) =~= seq![NodeTypeV::Paragraph, heading_v(1)]);
        }
        let top_level = block_content(top);
        let ghost v = default_doc_schema_v();
        proof {
            reveal_strlit("strong");
            reveal_strlit("em");
            reveal_strlit("code");
            reveal_strlit("link");
            assert(blocks@.map_values(|p: (NodeType, BlockSchema)| (p.0@, p.1@)) =~= v.blocks);
            assert(inlines@.map_values(|p: (NodeType, InlineSchema)| (p.0@, p.1@)) =~= v.inlines);
            assert(marks@.map_values(|p: (&'static str, MarkSchema)| (p.0@, p.1@)) =~= v.marks);
            lemma_default_wf();
        }
        Schema { blocks, inlines, top_level, marks }
    }

    /// Whether the node type is a block or inline type of the schema, or
    /// the document.
    pub fn is_valid_node_type(&self, node_type: &NodeType) -> (r: bool)
        ensures
            r == (entry(self@.blocks, node_type@) is Some || entry(self@.inlines, node_type@) is Some
                || node_type@ is Document),
    {
        self.get_block_schema(node_type).is_some() || self.get_inline_schema(node_type).is_some()
            || node_type.same(&NodeType::Document)
    }

    /// Validate a block node: its content against what its type may hold;
    /// an unknown block type is an error on the node type itself.
    pub fn validate_block<'a>(&'a self, node_type: &'a NodeType, content: &NodeContent) -> (r:
        ValidationResult<'a>)
        ensures
            match entry(self@.blocks, node_type@) {
                Some(b) => reports(r, content_error_v(b.content, *content)),
                None => !r.spec_valid() && r.spec_node() == Some(node_type) && r.spec_message() == Some(
                    "Unknown block type"@,
                ),
            },
    {
        match self.get_block_schema(node_type) {
            Some(schema) => Self::validate_content(&schema.content, content),
            None => ValidationResult::error(node_type, "Unknown block type"),
        }
    }

    /// Validate content against an allowed content type.
    fn validate_content(allowed: &ContentType, content: &NodeContent) -> (r: ValidationResult<
        'static,
    >)
        ensures
            reports(r, content_error_v(allowed@, *content)),
    {
        match allowed {
            ContentType::Empty => {
                if matches!(content, NodeContent::Empty) {
                    ValidationResult::ok()
                } else {
                    ValidationResult::error(&NodeType::Paragraph, "Content not allowed here")
                }
            },
            ContentType::Inline => {
                if matches!(content, NodeContent::Text { .. }) {
                    ValidationResult::ok()
                } else {
                    ValidationResult::error(&NodeType::Text, "Inline content required")
                }
            },
            ContentType::Block(_) => {
                if matches!(content, NodeContent::Mixed { .. }) {
                    ValidationResult::ok()
                } else {
                    ValidationResult::error(&NodeType::Paragraph, "Block content required")
                }
            },
            ContentType::Mixed { .. } => ValidationResult::ok(),
        }
    }

    /// The schema of a block type.
    pub fn get_block_schema(&self, node_type: &NodeType) -> (r: Option<&BlockSchema>)
        ensures
            match entry(self@.blocks, node_type@) {
                Some(b) => r matches Some(s) && s@ == b,
                None => r is None,
            },
    {
        let ghost t = self@.blocks;
        let mut i: usize = 0;
        while i < self.blocks.len()
            invariant
                i <= self.blocks@.len(),
                t == self@.blocks,
                t.len() == self.blocks@.len(),
                forall|j: int| 0 <= j < i ==> t[j].0 != node_type@,
            decreases self.blocks@.len() - i,
        {
            proof {
                assert(t[i as int] == (self.blocks@[i as int].0@, self.blocks@[i as int].1@));
            }
            if self.blocks[i].0.same(node_type) {
                proof {
                    lemma_entry_from(t, node_type@, i as int);
                }
                return Some(&self.blocks[i].1);
            }
            i = i + 1;
        }
        proof {
            lemma_entry_from(t, node_type@, i as int);
        }
        None
    }

    /// The schema of an inline type.
    pub fn get_inline_schema(&self, node_type: &NodeType) -> (r: Option<&InlineSchema>)
        ensures
            match entry(self@.inlines, node_type@) {
                Some(b) => r matches Some(s) && s@ == b,
                None => r is None,
            },
    {
        let ghost t = self@.inlines;
        let mut i: usize = 0;
        while i < self.inlines.len()
            invariant
                i <= self.inlines@.len(),
                t == self@.inlines,
                t.len() == self.inlines@.len(),
                forall|j: int| 0 <= j < i ==> t[j].0 != node_type@,
            decreases self.inlines@.len() - i,
        {
            proof {
                assert(t[i as int] == (self.inlines@[i as int].0@, self.inlines@[i as int].1@));
            }
            if self.inlines[i].0.same(node_type) {
                proof {
                    lemma_entry_from(t, node_type@, i as int);
                }
                return Some(&self.inlines[i].1);
            }
            i = i + 1;
        }
        proof {
            lemma_entry_from(t, node_type@, i as int);
        }
        None
    }

    /// Whether a mark is defined.
    pub fn has_mark(&self, name: &str) -> (r: bool)
        ensures
            r == entry(self@.marks, name@) is Some,
    {
        self.get_mark(name).is_some()
    }

    /// The schema of a mark.
    pub fn get_mark(&self, name: &str) -> (r: Option<&MarkSchema>)
        ensures
            match entry(self@.marks, name@) {
                Some(m) => r matches Some(s) && s@ == m,
                None => r is None,
            },
    {
        let ghost t = self@.marks;
        let mut i: usize = 0;
        while i < self.marks.len()
            invariant
                i <= self.marks@.len(),
                t == self@.marks,
                t.len() == self.marks@.len(),
                forall|j: int| 0 <= j < i ==> t[j].0 != name@,
            decreases self.marks@.len() - i,
        {
            proof {
                assert(t[i as int] == (self.marks@[i as int].0@, self.marks@[i as int].1@));
            }
            if str_eq(self.marks[i].0, name) {
                proof {
                    lemma_entry_from(t, name@, i as int);
                }
                return Some(&self.marks[i].1);
            }
            i = i + 1;
        }
        proof {
            lemma_entry_from(t, name@, i as int);
        }
        None
    }
}

impl Default for Schema {
    fn default() -> (r: Self)
        ensures
            r@ == default_doc_schema_v(),
    {
        Schema::new()
    }
}

} // verus!
