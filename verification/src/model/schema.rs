//! Schemas: which node types a document may hold, and the content
//! expression that constrains the children of each.
//!
//! Name tables are kept as lists of pairs; a lookup takes the first pair
//! with the name.

use vstd::prelude::*;
use crate::model::node::{Node, NodeV, NodeTypeV, NodeContent, nodes_view, lemma_nodes_view};
use crate::json::{json_text_object, text_object_v};
use crate::strings::{to_string, append_str, str_eq, char_count, char_at, char_slice};

verus! {

// ---------------------------------------------------------------------------
// Errors
// ---------------------------------------------------------------------------

/// Errors that can occur during schema validation.
#[derive(Debug)]
pub enum SchemaError {
    /// Unknown node type
    UnknownNodeType(String),
    /// Invalid content for a node type
    InvalidContent { node_type: String, reason: String },
    /// A node requires content but was empty
    MissingContent { node_type: String },
    /// A node allows no content but had some
    UnexpectedContent { node_type: String, found: String },
}

/// The view of a schema error: every string taken as its characters.
pub enum SchemaErrorV {
    UnknownNodeType(Seq<char>),
    InvalidContent { node_type: Seq<char>, reason: Seq<char> },
    MissingContent { node_type: Seq<char> },
    UnexpectedContent { node_type: Seq<char>, found: Seq<char> },
}

impl View for SchemaError {
    type V = SchemaErrorV;

    open spec fn view(&self) -> SchemaErrorV {
        match self {
            SchemaError::UnknownNodeType(s) => SchemaErrorV::UnknownNodeType(s@),
            SchemaError::InvalidContent { node_type, reason } => SchemaErrorV::InvalidContent {
                node_type: node_type@,
                reason: reason@,
            },
            SchemaError::MissingContent { node_type } => SchemaErrorV::MissingContent {
                node_type: node_type@,
            },
            SchemaError::UnexpectedContent { node_type, found } => SchemaErrorV::UnexpectedContent {
                node_type: node_type@,
                found: found@,
            },
        }
    }
}

/// The view of a validation result.
pub open spec fn check_view(r: Result<(), SchemaError>) -> Result<(), SchemaErrorV> {
    match r {
        Ok(()) => Ok(()),
        Err(e) => Err(e@),
    }
}

/// What `format!("{:?}", s)` gives for a string: its debug form.
pub uninterp spec fn debug_text_v(s: Seq<char>) -> Seq<char>;

/// What `format!("{:?}", names)` gives for a list of names.
pub uninterp spec fn debug_list_v(names: Seq<Seq<char>>) -> Seq<char>;

/// `format!("{:?}", s)` on a string: the quoted, escaped debug form.
#[verifier::external_body]
fn debug_text(s: &str) -> (r: String)
    ensures
        r@ == debug_text_v(s@),
{
    format!("{:?}", s)
}

/// The views of a list of string slices.
pub open spec fn strs_view(v: Seq<&str>) -> Seq<Seq<char>> {
    v.map_values(|s: &str| s@)
}

/// `format!("{:?}", names)` on a list of names: the debug form of the list.
#[verifier::external_body]
fn debug_list(names: &Vec<&str>) -> (r: String)
    ensures
        r@ == debug_list_v(strs_view(names@)),
{
    format!("{:?}", names)
}

/// The message of an error.
pub open spec fn error_message(e: SchemaErrorV) -> Seq<char> {
    match e {
        SchemaErrorV::UnknownNodeType(s) => "Unknown node type: "@ + s,
        SchemaErrorV::InvalidContent { node_type, reason } => "Invalid content for node type "@
            + node_type + ": "@ + reason,
        SchemaErrorV::MissingContent { node_type } => "Node "@ + node_type
            + " requires content but was empty"@,
        SchemaErrorV::UnexpectedContent { node_type, found } => "Node "@ + node_type
            + " allows no content but found "@ + debug_text_v(found),
    }
}

impl SchemaError {
    /// The message of this error.
    pub fn to_string(&self) -> (r: String)
        ensures
            r@ == error_message(self@),
    {
        match self {
            SchemaError::UnknownNodeType(s) => {
                let mut m = to_string("Unknown node type: ");
                append_str(&mut m, s.as_str());
                m
            },
            SchemaError::InvalidContent { node_type, reason } => {
                let mut m = to_string("Invalid content for node type ");
                append_str(&mut m, node_type.as_str());
                append_str(&mut m, ": ");
                append_str(&mut m, reason.as_str());
                m
            },
            SchemaError::MissingContent { node_type } => {
                let mut m = to_string("Node ");
                append_str(&mut m, node_type.as_str());
                append_str(&mut m, " requires content but was empty");
                m
            },
            SchemaError::UnexpectedContent { node_type, found } => {
                let mut m = to_string("Node ");
                append_str(&mut m, node_type.as_str());
                append_str(&mut m, " allows no content but found ");
                let d = debug_text(found.as_str());
                append_str(&mut m, d.as_str());
                m
            },
        }
    }
}

// ---------------------------------------------------------------------------
// Content expressions
// ---------------------------------------------------------------------------

/// Content expression pattern.
#[derive(Debug)]
pub enum ContentExpr {
    /// Required content (e.g., "block+")
    Required(String),
    /// Optional content (e.g., "block*")
    Optional(String),
    /// Sequence of required followed by optional
    Sequence(String, String),
    /// Choice between patterns
    Choice(Vec<ContentExpr>),
    /// No content allowed
    Empty,
    /// Any content
    Any,
}

/// The view of a content expression.
pub enum ContentExprV {
    Required(Seq<char>),
    Optional(Seq<char>),
    Sequence(Seq<char>, Seq<char>),
    Choice(Seq<ContentExprV>),
    Empty,
    Any,
}

/// The view of a content expression.
pub open spec fn expr_view(e: ContentExpr) -> ContentExprV
    decreases e, 0int,
{
    match e {
        ContentExpr::Required(p) => ContentExprV::Required(p@),
        ContentExpr::Optional(p) => ContentExprV::Optional(p@),
        ContentExpr::Sequence(a, b) => ContentExprV::Sequence(a@, b@),
        ContentExpr::Choice(v) => ContentExprV::Choice(exprs_view_from(v@, 0)),
        ContentExpr::Empty => ContentExprV::Empty,
        ContentExpr::Any => ContentExprV::Any,
    }
}

/// The views of `es[k..]`.
pub open spec fn exprs_view_from(es: Seq<ContentExpr>, k: int) -> Seq<ContentExprV>
    decreases es, es.len() - k,
{
    if 0 <= k < es.len() {
        seq![expr_view(es[k])] + exprs_view_from(es, k + 1)
    } else {
        seq![]
    }
}

/// `exprs_view_from` has one view per expression, in order.
pub proof fn lemma_exprs_view_from(es: Seq<ContentExpr>, k: int)
    requires
        0 <= k <= es.len(),
    ensures
        exprs_view_from(es, k).len() == es.len() - k,
        forall|i: int|
            0 <= i < es.len() - k ==> #[trigger] exprs_view_from(es, k)[i] == expr_view(es[k + i]),
    decreases es.len() - k,
{
    if k < es.len() {
        lemma_exprs_view_from(es, k + 1);
    }
}

impl View for ContentExpr {
    type V = ContentExprV;

    open spec fn view(&self) -> ContentExprV {
        expr_view(*self)
    }
}

/// Copies of a list of content expressions.
fn clone_exprs(es: &Vec<ContentExpr>) -> (r: Vec<ContentExpr>)
    ensures
        exprs_view_from(r@, 0) == exprs_view_from(es@, 0),
    decreases es@, 1int,
{
    let mut out: Vec<ContentExpr> = Vec::new();
    let mut i: usize = 0;
    proof {
        lemma_exprs_view_from(es@, 0);
    }
    while i < es.len()
        invariant
            i <= es@.len(),
            out@.len() == i,
            forall|j: int| 0 <= j < i ==> #[trigger] expr_view(out@[j]) == expr_view(es@[j]),
        decreases es@.len() - i,
    {
        proof {
            assert(decreases_to!(*es => es@));
            assert(decreases_to!(es@ => es@[i as int]));
        }
        let c = es[i].clone();
        out.push(c);
        i = i + 1;
    }
    proof {
        lemma_exprs_view_from(out@, 0);
        lemma_exprs_view_from(es@, 0);
        assert(exprs_view_from(out@, 0) =~= exprs_view_from(es@, 0));
    }
    out
}

impl Clone for ContentExpr {
    fn clone(&self) -> (r: Self)
        ensures
            r@ == self@,
        decreases self, 0int,
    {
        match self {
            ContentExpr::Required(p) => ContentExpr::Required(p.clone()),
            ContentExpr::Optional(p) => ContentExpr::Optional(p.clone()),
            ContentExpr::Sequence(a, b) => ContentExpr::Sequence(a.clone(), b.clone()),
            ContentExpr::Choice(v) => ContentExpr::Choice(clone_exprs(v)),
            ContentExpr::Empty => ContentExpr::Empty,
            ContentExpr::Any => ContentExpr::Any,
        }
    }
}

// ---------------------------------------------------------------------------
// Matching, as mathematics
// ---------------------------------------------------------------------------

/// The value of the first pair in `m[k..]` whose name is `key`.
pub open spec fn lookup_from<V>(m: Seq<(Seq<char>, V)>, key: Seq<char>, k: int) -> Option<V>
    decreases m.len() - k,
{
    if 0 <= k < m.len() {
        if m[k].0 == key {
            Some(m[k].1)
        } else {
            lookup_from(m, key, k + 1)
        }
    } else {
        None
    }
}

/// The value of the first pair of `m` whose name is `key`.
pub open spec fn lookup<V>(m: Seq<(Seq<char>, V)>, key: Seq<char>) -> Option<V> {
    lookup_from(m, key, 0)
}

/// Whether `n` matches the type pattern `pattern`: the groups `block`
/// and `text`, its own type name, or a category that the table gives
/// both to the pattern and to the node's type.
pub open spec fn type_matches_v(cats: Seq<(Seq<char>, Seq<char>)>, pattern: Seq<char>, n: NodeV) -> bool {
    if pattern == "block"@ {
        n.type_ is Block
    } else if pattern == "text"@ {
        n.type_ is Text
    } else if pattern == n.name() {
        true
    } else {
        match lookup(cats, pattern) {
            Some(c) => c == n.name() || lookup(cats, n.name()) == Some(c),
            None => false,
        }
    }
}

/// A pattern without its trailing `+` or `*`, and which of the two it had.
pub open spec fn pattern_base(p: Seq<char>) -> (Seq<char>, bool, bool) {
    if p.len() > 0 && p.last() == '+' {
        (p.drop_last(), true, false)
    } else if p.len() > 0 && p.last() == '*' {
        (p.drop_last(), false, true)
    } else {
        (p, false, false)
    }
}

/// How many of `ns[k..]` match `p`.
pub open spec fn count_all(cats: Seq<(Seq<char>, Seq<char>)>, p: Seq<char>, ns: Seq<NodeV>, k: int) -> nat
    decreases ns.len() - k,
{
    if 0 <= k < ns.len() {
        (if type_matches_v(cats, p, ns[k]) {
            1nat
        } else {
            0nat
        }) + count_all(cats, p, ns, k + 1)
    } else {
        0
    }
}

/// How many nodes in a row, from `ns[k]` on, match `p`.
pub open spec fn count_run(cats: Seq<(Seq<char>, Seq<char>)>, p: Seq<char>, ns: Seq<NodeV>, k: int) -> nat
    decreases ns.len() - k,
{
    if 0 <= k < ns.len() && type_matches_v(cats, p, ns[k]) {
        1 + count_run(cats, p, ns, k + 1)
    } else {
        0
    }
}

/// The count of a pattern: with `+` or `*`, every node that matches the
/// base; without, the leading run of nodes that match it.
pub open spec fn count_matching_v(cats: Seq<(Seq<char>, Seq<char>)>, pattern: Seq<char>, ns: Seq<NodeV>) -> nat {
    let (p, plus, star) = pattern_base(pattern);
    if plus || star {
        count_all(cats, p, ns, 0)
    } else {
        count_run(cats, p, ns, 0)
    }
}

/// Whether the whole of `ns` matches `pattern`: `x+` one or more nodes
/// counted by `x`, `x*` any number of them, and a bare name one node.
pub open spec fn pattern_matches_v(cats: Seq<(Seq<char>, Seq<char>)>, pattern: Seq<char>, ns: Seq<NodeV>) -> bool {
    if pattern.len() > 0 && pattern.last() == '+' {
        let c = count_matching_v(cats, pattern.drop_last(), ns);
        c > 0 && c == ns.len()
    } else if pattern.len() > 0 && pattern.last() == '*' {
        count_matching_v(cats, pattern.drop_last(), ns) == ns.len()
    } else {
        ns.len() == 1 && type_matches_v(cats, pattern, ns[0])
    }
}

/// The names of the node types of `ns`.
pub open spec fn type_names(ns: Seq<NodeV>) -> Seq<Seq<char>> {
    ns.map_values(|n: NodeV| n.name())
}

/// The outcome of checking `ns` against the content expression `e`.
pub open spec fn match_v(cats: Seq<(Seq<char>, Seq<char>)>, e: ContentExprV, ns: Seq<NodeV>) -> Result<
    (),
    SchemaErrorV,
>
    decreases e, 0int,
{
    match e {
        ContentExprV::Required(p) => if ns.len() == 0 {
            Err(SchemaErrorV::MissingContent { node_type: p })
        } else if !pattern_matches_v(cats, p, ns) {
            Err(
                SchemaErrorV::InvalidContent {
                    node_type: p,
                    reason: "Required content '"@ + p + "' not matched"@,
                },
            )
        } else {
            Ok(())
        },
        ContentExprV::Optional(p) => if ns.len() > 0 && !pattern_matches_v(cats, p, ns) {
            Err(
                SchemaErrorV::InvalidContent {
                    node_type: p,
                    reason: "Optional content '"@ + p + "' not matched"@,
                },
            )
        } else {
            Ok(())
        },
        ContentExprV::Sequence(req, opt) => if ns.len() == 0 {
            Err(SchemaErrorV::MissingContent { node_type: req })
        } else if count_matching_v(cats, req, ns) == 0 {
            Err(
                SchemaErrorV::InvalidContent {
                    node_type: req,
                    reason: "Required content '"@ + req + "' not found"@,
                },
            )
        } else if count_matching_v(cats, req, ns) + count_matching_v(cats, opt, ns) != ns.len() {
            Err(
                SchemaErrorV::InvalidContent {
                    node_type: req + "+"@ + opt + "?"@,
                    reason: "Unexpected content after pattern"@,
                },
            )
        } else {
            Ok(())
        },
        ContentExprV::Choice(cs) => choice_v(cats, cs, ns, 0),
        ContentExprV::Empty => if ns.len() > 0 {
            Err(
                SchemaErrorV::UnexpectedContent {
                    node_type: "empty"@,
                    found: debug_list_v(type_names(ns)),
                },
            )
        } else {
            Ok(())
        },
        ContentExprV::Any => Ok(()),
    }
}

/// The outcome of a choice from alternative `k` on: the first that
/// matches wins.
pub open spec fn choice_v(
    cats: Seq<(Seq<char>, Seq<char>)>,
    cs: Seq<ContentExprV>,
    ns: Seq<NodeV>,
    k: int,
) -> Result<(), SchemaErrorV>
    decreases cs, cs.len() - k,
{
    if 0 <= k < cs.len() {
        if match_v(cats, cs[k], ns) is Ok {
            Ok(())
        } else {
            choice_v(cats, cs, ns, k + 1)
        }
    } else {
        Err(SchemaErrorV::InvalidContent { node_type: "choice"@, reason: "No choice matched"@ })
    }
}

// ---------------------------------------------------------------------------
// The matcher
// ---------------------------------------------------------------------------

/// Helper for matching content against schema rules.
#[derive(Debug)]
pub struct ContentMatcher {
    /// The content expression pattern
    expr: ContentExpr,
    /// Node type names with their categories
    category_map: Vec<(String, String)>,
}

/// The view of a name table.
pub open spec fn pairs_view(m: Seq<(String, String)>) -> Seq<(Seq<char>, Seq<char>)> {
    m.map_values(|p: (String, String)| (p.0@, p.1@))
}

/// No name of the table maps to two categories.
pub open spec fn one_category_each(m: Seq<(Seq<char>, Seq<char>)>) -> bool {
    forall|i: int, j: int|
        0 <= i < m.len() && 0 <= j < m.len() && #[trigger] m[i].0 == #[trigger] m[j].0 ==> m[i].1
            == m[j].1
}

/// The names of a table are distinct.
pub open spec fn names_distinct<V>(t: Seq<(Seq<char>, V)>) -> bool {
    forall|i: int, j: int| 0 <= i < j < t.len() ==> #[trigger] t[i].0 != #[trigger] t[j].0
}

/// The view of a matcher.
pub struct ContentMatcherV {
    pub expr: ContentExprV,
    pub categories: Seq<(Seq<char>, Seq<char>)>,
}

impl View for ContentMatcher {
    type V = ContentMatcherV;

    closed spec fn view(&self) -> ContentMatcherV {
        ContentMatcherV { expr: self.expr@, categories: pairs_view(self.category_map@) }
    }
}

/// Copies of a name table.
fn clone_pairs(m: &Vec<(String, String)>) -> (r: Vec<(String, String)>)
    ensures
        pairs_view(r@) == pairs_view(m@),
{
    let mut out: Vec<(String, String)> = Vec::new();
    let mut i: usize = 0;
    while i < m.len()
        invariant
            i <= m@.len(),
            out@.len() == i,
            forall|j: int| 0 <= j < i ==> #[trigger] out@[j].0@ == m@[j].0@ && out@[j].1@ == m@[j].1@,
        decreases m@.len() - i,
    {
        let p = (m[i].0.clone(), m[i].1.clone());
        out.push(p);
        i = i + 1;
    }
    proof {
        assert(pairs_view(out@) =~= pairs_view(m@));
    }
    out
}

impl Clone for ContentMatcher {
    fn clone(&self) -> (r: Self)
        ensures
            r@ == self@,
    {
        ContentMatcher { expr: self.expr.clone(), category_map: clone_pairs(&self.category_map) }
    }
}

/// The value of the first pair of `m` named `key`.
fn lookup_pair<'a>(m: &'a Vec<(String, String)>, key: &str) -> (r: Option<&'a String>)
    ensures
        match lookup(pairs_view(m@), key@) {
            Some(v) => r matches Some(s) && s@ == v,
            None => r is None,
        },
{
    let mut i: usize = 0;
    while i < m.len()
        invariant
            i <= m@.len(),
            lookup(pairs_view(m@), key@) == lookup_from(pairs_view(m@), key@, i as int),
        decreases m@.len() - i,
    {
        if str_eq(m[i].0.as_str(), key) {
            return Some(&m[i].1);
        }
        i = i + 1;
    }
    None
}

impl ContentMatcher {
    /// Create a new content matcher.
    pub fn new(expr: ContentExpr, category_map: Vec<(String, String)>) -> (r: Self)
        requires
            one_category_each(pairs_view(category_map@)),
        ensures
            r@ == (ContentMatcherV { expr: expr@, categories: pairs_view(category_map@) }),
    {
        ContentMatcher { expr, category_map }
    }

    /// Check if a sequence of nodes matches this pattern.
    pub fn matches(&self, nodes: &[Node]) -> (r: Result<(), SchemaError>)
        ensures
            check_view(r) == match_v(self@.categories, self@.expr, nodes_view(nodes@)),
    {
        proof {
            assert(nodes@.subrange(0, nodes@.len() as int) =~= nodes@);
        }
        self.matches_with_expr(&self.expr, nodes, 0, nodes.len())
    }

    /// Check `nodes[start..end]` against `expr`.
    pub fn matches_with_expr(&self, expr: &ContentExpr, nodes: &[Node], start: usize, end: usize) -> (r:
        Result<(), SchemaError>)
        requires
            start <= end <= nodes@.len(),
        ensures
            check_view(r) == match_v(
                self@.categories,
                expr@,
                nodes_view(nodes@.subrange(start as int, end as int)),
            ),
        decreases expr, 0int,
    {
        let node_slice = &nodes[start..end];
        let ghost ns = nodes_view(node_slice@);
        let ghost cats = self@.categories;
        proof {
            lemma_nodes_view(node_slice@);
        }
        match expr {
            ContentExpr::Required(pattern) => {
                if node_slice.len() == 0 {
                    Err(SchemaError::MissingContent { node_type: pattern.clone() })
                } else if !self.pattern_matches(pattern.as_str(), node_slice) {
                    let mut reason = to_string("Required content '");
                    append_str(&mut reason, pattern.as_str());
                    append_str(&mut reason, "' not matched");
                    Err(SchemaError::InvalidContent { node_type: pattern.clone(), reason })
                } else {
                    Ok(())
                }
            },
            ContentExpr::Optional(pattern) => {
                if node_slice.len() != 0 && !self.pattern_matches(pattern.as_str(), node_slice) {
                    let mut reason = to_string("Optional content '");
                    append_str(&mut reason, pattern.as_str());
                    append_str(&mut reason, "' not matched");
                    Err(SchemaError::InvalidContent { node_type: pattern.clone(), reason })
                } else {
                    Ok(())
                }
            },
            ContentExpr::Sequence(req, opt) => {
                if node_slice.len() == 0 {
                    return Err(SchemaError::MissingContent { node_type: req.clone() });
                }
                let req_count = self.count_matching(req.as_str(), node_slice);
                if req_count == 0 {
                    let mut reason = to_string("Required content '");
                    append_str(&mut reason, req.as_str());
                    append_str(&mut reason, "' not found");
                    return Err(SchemaError::InvalidContent { node_type: req.clone(), reason });
                }
                let opt_count = self.count_matching(opt.as_str(), node_slice);
                if req_count as u128 + opt_count as u128 != node_slice.len() as u128 {
                    let mut name = req.clone();
                    append_str(&mut name, "+");
                    append_str(&mut name, opt.as_str());
                    append_str(&mut name, "?");
                    Err(
                        SchemaError::InvalidContent {
                            node_type: name,
                            reason: to_string("Unexpected content after pattern"),
                        },
                    )
                } else {
                    Ok(())
                }
            },
            ContentExpr::Choice(choices) => {
                let ghost cs = exprs_view_from(choices@, 0);
                proof {
                    lemma_exprs_view_from(choices@, 0);
                }
                let mut i: usize = 0;
                while i < choices.len()
                    invariant
                        i <= choices@.len(),
                        start <= end <= nodes@.len(),
                        cs == exprs_view_from(choices@, 0),
                        cs.len() == choices@.len(),
                        forall|j: int| 0 <= j < cs.len() ==> #[trigger] cs[j] == expr_view(choices@[j]),
                        expr@ == ContentExprV::Choice(cs),
                        *expr == ContentExpr::Choice(*choices),
                        cats == self@.categories,
                        node_slice@ == nodes@.subrange(start as int, end as int),
                        choice_v(cats, cs, ns, i as int) == choice_v(cats, cs, ns, 0),
                        ns == nodes_view(node_slice@),
                    decreases choices@.len() - i,
                {
                    proof {
                        assert(decreases_to!(*expr => *choices));
                        assert(decreases_to!(*choices => choices@));
                        assert(decreases_to!(choices@ => choices@[i as int]));
                    }
                    if self.matches_with_expr(&choices[i], nodes, start, end).is_ok() {
                        return Ok(());
                    }
                    i = i + 1;
                }
                Err(
                    SchemaError::InvalidContent {
                        node_type: to_string("choice"),
                        reason: to_string("No choice matched"),
                    },
                )
            },
            ContentExpr::Empty => {
                if node_slice.len() != 0 {
                    let mut names: Vec<&str> = Vec::new();
                    let mut i: usize = 0;
                    while i < node_slice.len()
                        invariant
                            i <= node_slice@.len(),
                            names@.len() == i,
                            ns == nodes_view(node_slice@),
                            ns.len() == node_slice@.len(),
                            forall|j: int| 0 <= j < ns.len() ==> #[trigger] ns[j] == node_slice@[j]@,
                            forall|j: int| 0 <= j < i ==> #[trigger] names@[j]@ == ns[j].name(),
                        decreases node_slice@.len() - i,
                    {
                        names.push(node_slice[i].node_type_name());
                        i = i + 1;
                    }
                    proof {
                        assert(strs_view(names@) =~= type_names(ns));
                    }
                    let found = debug_list(&names);
                    Err(SchemaError::UnexpectedContent { node_type: to_string("empty"), found })
                } else {
                    Ok(())
                }
            },
            ContentExpr::Any => Ok(()),
        }
    }

    /// Whether the whole of `nodes` matches `pattern`.
    pub fn pattern_matches(&self, pattern: &str, nodes: &[Node]) -> (r: bool)
        ensures
            r == pattern_matches_v(self@.categories, pattern@, nodes_view(nodes@)),
    {
        proof {
            lemma_nodes_view(nodes@);
        }
        let len = char_count(pattern);
        if len > 0 && char_at(pattern, len - 1) == '+' {
            let inner = char_slice(pattern, 0, len - 1);
            proof {
                assert(inner@ =~= pattern@.drop_last());
            }
            let count = self.count_matching(inner.as_str(), nodes);
            count > 0 && count == nodes.len()
        } else if len > 0 && char_at(pattern, len - 1) == '*' {
            let inner = char_slice(pattern, 0, len - 1);
            proof {
                assert(inner@ =~= pattern@.drop_last());
            }
            let count = self.count_matching(inner.as_str(), nodes);
            count == nodes.len()
        } else {
            proof {
                lemma_nodes_view(nodes@);
            }
            nodes.len() == 1 && self.type_matches(pattern, &nodes[0])
        }
    }

    /// How many nodes a pattern counts.
    pub fn count_matching(&self, pattern: &str, nodes: &[Node]) -> (r: usize)
        ensures
            r == count_matching_v(self@.categories, pattern@, nodes_view(nodes@)),
    {
        let len = char_count(pattern);
        let mut prefix = to_string(pattern);
        let mut is_plus = false;
        let mut is_star = false;
        if len > 0 && char_at(pattern, len - 1) == '+' {
            prefix = char_slice(pattern, 0, len - 1);
            is_plus = true;
        } else if len > 0 && char_at(pattern, len - 1) == '*' {
            prefix = char_slice(pattern, 0, len - 1);
            is_star = true;
        }
        let ghost base = pattern_base(pattern@);
        proof {
            if is_plus || is_star {
                assert(prefix@ =~= pattern@.drop_last());
            }
            lemma_nodes_view(nodes@);
        }
        let ghost ns = nodes_view(nodes@);
        let ghost cats = self@.categories;
        let mut count: usize = 0;
        let mut i: usize = 0;
        while i < nodes.len()
            invariant
                i <= nodes@.len(),
                ns == nodes_view(nodes@),
                ns.len() == nodes@.len(),
                forall|j: int| 0 <= j < ns.len() ==> #[trigger] ns[j] == nodes@[j]@,
                cats == self@.categories,
                base == (prefix@, is_plus, is_star),
                count <= i,
                is_plus || is_star ==> count + count_all(cats, prefix@, ns, i as int) == count_all(
                    cats,
                    prefix@,
                    ns,
                    0,
                ),
                !(is_plus || is_star) ==> count == i && count_run(cats, prefix@, ns, 0) == i
                    + count_run(cats, prefix@, ns, i as int),
            ensures
                is_plus || is_star ==> count == count_all(cats, prefix@, ns, 0),
                !(is_plus || is_star) ==> count == count_run(cats, prefix@, ns, 0),
            decreases nodes@.len() - i,
        {
            if self.type_matches(prefix.as_str(), &nodes[i]) {
                count = count + 1;
            } else if !is_star && !is_plus {
                break;
            }
            i = i + 1;
        }
        if is_plus && count == 0 {
            0
        } else {
            count
        }
    }

    /// Whether `node` matches the type pattern `pattern`.
    pub fn type_matches(&self, pattern: &str, node: &Node) -> (r: bool)
        ensures
            r == type_matches_v(self@.categories, pattern@, node@),
    {
        if str_eq(pattern, "block") {
            return node.is_block();
        }
        if str_eq(pattern, "text") {
            return node.is_text();
        }
        if str_eq(pattern, node.node_type_name()) {
            return true;
        }
        match lookup_pair(&self.category_map, pattern) {
            Some(category) => {
                if str_eq(category.as_str(), node.node_type_name()) {
                    true
                } else {
                    match lookup_pair(&self.category_map, node.node_type_name()) {
                        Some(c2) => str_eq(c2.as_str(), category.as_str()),
                        None => false,
                    }
                }
            },
            None => false,
        }
    }
}

// ---------------------------------------------------------------------------
// Schemas
// ---------------------------------------------------------------------------

/// Specification for a schema.
#[derive(Debug)]
pub struct SchemaSpec {
    /// Top-level node type
    pub top_node: String,
    /// Node type names with their content expressions
    pub nodes: Vec<(String, ContentExpr)>,
    /// Mark type names with their attributes
    pub marks: Vec<(String, serde_json::Value)>,
    /// Default inline node type
    pub default_inline: Option<String>,
    /// Default block node type
    pub default_block: Option<String>,
}

/// The view of a schema specification.
pub struct SchemaSpecV {
    pub top_node: Seq<char>,
    pub nodes: Seq<(Seq<char>, ContentExprV)>,
    pub marks: Seq<(Seq<char>, serde_json::Value)>,
    pub default_inline: Option<Seq<char>>,
    pub default_block: Option<Seq<char>>,
}

/// The view of an optional string.
pub open spec fn opt_str_view(s: Option<String>) -> Option<Seq<char>> {
    match s {
        Some(t) => Some(t@),
        None => None,
    }
}

impl View for SchemaSpec {
    type V = SchemaSpecV;

    open spec fn view(&self) -> SchemaSpecV {
        SchemaSpecV {
            top_node: self.top_node@,
            nodes: self.nodes@.map_values(|p: (String, ContentExpr)| (p.0@, p.1@)),
            marks: self.marks@.map_values(|p: (String, serde_json::Value)| (p.0@, p.1)),
            default_inline: opt_str_view(self.default_inline),
            default_block: opt_str_view(self.default_block),
        }
    }
}

/// The category table of a schema: every node and mark name is its own
/// category.
pub open spec fn categories_v(s: SchemaSpecV) -> Seq<(Seq<char>, Seq<char>)> {
    s.nodes.map_values(|p: (Seq<char>, ContentExprV)| (p.0, p.0)) + s.marks.map_values(
        |p: (Seq<char>, serde_json::Value)| (p.0, p.0),
    )
}

/// The names of the default specification's mark types.
pub open spec fn default_mark_names() -> Seq<Seq<char>> {
    seq!["bold"@, "italic"@, "link"@]
}

/// The default specification: `doc` holds blocks, paragraphs and headings
/// hold text, blockquotes hold blocks, a horizontal rule holds nothing and
/// text holds anything; bold and italic marks have no attributes, a link has
/// an empty `href`.
pub open spec fn is_default_spec(s: SchemaSpecV) -> bool {
    &&& s.top_node == "doc"@
    &&& s.nodes == seq![
        ("doc"@, ContentExprV::Optional("block*"@)),
        ("paragraph"@, ContentExprV::Optional("text*"@)),
        ("heading"@, ContentExprV::Optional("text*"@)),
        ("blockquote"@, ContentExprV::Optional("block*"@)),
        ("horizontal_rule"@, ContentExprV::Empty),
        ("text"@, ContentExprV::Any),
    ]
    &&& s.marks.map_values(|p: (Seq<char>, serde_json::Value)| p.0) == default_mark_names()
    &&& s.marks.map_values(|p: (Seq<char>, serde_json::Value)| p.1) == seq![
        text_object_v(seq![]),
        text_object_v(seq![]),
        text_object_v(seq![("href"@, ""@)]),
    ]
    &&& s.default_inline == Some("text"@)
    &&& s.default_block == Some("paragraph"@)
}

impl Default for SchemaSpec {
    fn default() -> (r: Self)
        ensures
            is_default_spec(r@),
    {
        let mut nodes: Vec<(String, ContentExpr)> = Vec::new();
        nodes.push((to_string("doc"), ContentExpr::Optional(to_string("block*"))));
        nodes.push((to_string("paragraph"), ContentExpr::Optional(to_string("text*"))));
        nodes.push((to_string("heading"), ContentExpr::Optional(to_string("text*"))));
        nodes.push((to_string("blockquote"), ContentExpr::Optional(to_string("block*"))));
        nodes.push((to_string("horizontal_rule"), ContentExpr::Empty));
        nodes.push((to_string("text"), ContentExpr::Any));
        let no_attrs: Vec<(String, String)> = Vec::new();
        let mut link_attrs: Vec<(String, String)> = Vec::new();
        link_attrs.push((to_string("href"), to_string("")));
        let mut marks: Vec<(String, serde_json::Value)> = Vec::new();
        marks.push((to_string("bold"), json_text_object(&no_attrs)));
        marks.push((to_string("italic"), json_text_object(&no_attrs)));
        marks.push((to_string("link"), json_text_object(&link_attrs)));
        let r = SchemaSpec {
            top_node: to_string("doc"),
            nodes,
            marks,
            default_inline: Some(to_string("text")),
            default_block: Some(to_string("paragraph")),
        };
        proof {
            assert(r@.nodes =~= seq![
                ("doc"@, ContentExprV::Optional("block*"@)),
                ("paragraph"@, ContentExprV::Optional("text*"@)),
                ("heading"@, ContentExprV::Optional("text*"@)),
                ("blockquote"@, ContentExprV::Optional("block*"@)),
                ("horizontal_rule"@, ContentExprV::Empty),
                ("text"@, ContentExprV::Any),
            ]);
            assert(r@.marks.map_values(|p: (Seq<char>, serde_json::Value)| p.0)
                =~= default_mark_names());
            assert(pairs_view(no_attrs@) =~= seq![]);
            assert(pairs_view(link_attrs@) =~= seq![("href"@, ""@)]);
            assert(r@.marks.map_values(|p: (Seq<char>, serde_json::Value)| p.1) =~= seq![
                text_object_v(seq![]),
                text_object_v(seq![]),
                text_object_v(seq![("href"@, ""@)]),
            ]);
        }
        r
    }
}

/// Copy of an optional string.
fn clone_opt_text(s: &Option<String>) -> (r: Option<String>)
    ensures
        opt_str_view(r) == opt_str_view(*s),
{
    match s {
        Some(t) => Some(t.clone()),
        None => None,
    }
}

impl Clone for SchemaSpec {
    fn clone(&self) -> (r: Self)
        ensures
            r@ == self@,
    {
        let mut nodes: Vec<(String, ContentExpr)> = Vec::new();
        let mut i: usize = 0;
        while i < self.nodes.len()
            invariant
                i <= self.nodes@.len(),
                nodes@.len() == i,
                forall|j: int|
                    0 <= j < i ==> #[trigger] nodes@[j].0@ == self.nodes@[j].0@ && nodes@[j].1@
                        == self.nodes@[j].1@,
            decreases self.nodes@.len() - i,
        {
            nodes.push((self.nodes[i].0.clone(), self.nodes[i].1.clone()));
            i = i + 1;
        }
        let mut marks: Vec<(String, serde_json::Value)> = Vec::new();
        let mut j: usize = 0;
        while j < self.marks.len()
            invariant
                j <= self.marks@.len(),
                marks@.len() == j,
                forall|k: int|
                    0 <= k < j ==> #[trigger] marks@[k].0@ == self.marks@[k].0@ && marks@[k].1
                        == self.marks@[k].1,
            decreases self.marks@.len() - j,
        {
            marks.push((self.marks[j].0.clone(), self.marks[j].1.clone()));
            j = j + 1;
        }
        let r = SchemaSpec {
            top_node: self.top_node.clone(),
            nodes,
            marks,
            default_inline: clone_opt_text(&self.default_inline),
            default_block: clone_opt_text(&self.default_block),
        };
        proof {
            assert(r@.nodes =~= self@.nodes);
            assert(r@.marks =~= self@.marks);
        }
        r
    }
}

/// Schema definition: which node types are valid and the content
/// constraint of each.
#[derive(Debug)]
pub struct Schema {
    /// Schema specification
    spec: SchemaSpec,
    /// A content matcher for each node type, in the order of the spec
    matchers: Vec<(String, ContentMatcher)>,
}

/// The outcome of validating the children `ns` of a node of type `name`.
pub open spec fn validate_children_v(s: SchemaSpecV, name: Seq<char>, ns: Seq<NodeV>) -> Result<
    (),
    SchemaErrorV,
> {
    match lookup(s.nodes, name) {
        Some(e) => match_v(categories_v(s), e, ns),
        None => Err(SchemaErrorV::UnknownNodeType(name)),
    }
}

/// The display form of a schema.
pub open spec fn schema_display(s: SchemaSpecV) -> Seq<char> {
    "Schema(top: "@ + s.top_node + ")"@
}

impl View for Schema {
    type V = SchemaSpecV;

    closed spec fn view(&self) -> SchemaSpecV {
        self.spec@
    }
}

impl Clone for Schema {
    fn clone(&self) -> (r: Self)
        ensures
            r@ == self@,
    {
        proof {
            use_type_invariant(self);
        }
        Schema::new(self.spec.clone())
    }
}

impl Default for Schema {
    fn default() -> (r: Self)
        ensures
            is_default_spec(r@),
    {
        let spec = SchemaSpec::default();
        proof {
            lemma_default_names_distinct(spec@);
        }
        Schema::new(spec)
    }
}

/// Every name of the category table is its own category.
proof fn lemma_categories_consistent(s: SchemaSpecV)
    ensures
        one_category_each(categories_v(s)),
{
    let c = categories_v(s);
    let a = s.nodes.map_values(|p: (Seq<char>, ContentExprV)| (p.0, p.0));
    let b = s.marks.map_values(|p: (Seq<char>, serde_json::Value)| (p.0, p.0));
    assert forall|i: int| 0 <= i < c.len() implies c[i].1 == c[i].0 by {
        if i < a.len() {
            assert(c[i] == a[i]);
        } else {
            assert(c[i] == b[i - a.len()]);
        }
    }
}

/// The default specification's names are distinct.
proof fn lemma_default_names_distinct(s: SchemaSpecV)
    requires
        is_default_spec(s),
    ensures
        names_distinct(s.nodes),
        names_distinct(s.marks),
{
    reveal_strlit("doc");
    reveal_strlit("paragraph");
    reveal_strlit("heading");
    reveal_strlit("blockquote");
    reveal_strlit("horizontal_rule");
    reveal_strlit("text");
    reveal_strlit("bold");
    reveal_strlit("italic");
    reveal_strlit("link");
    let names = s.marks.map_values(|p: (Seq<char>, serde_json::Value)| p.0);
    assert(names == default_mark_names());
    assert(names.len() == 3);
    assert(s.marks.len() == 3);
    assert(s.marks[0].0 == names[0]);
    assert(s.marks[1].0 == names[1]);
    assert(s.marks[2].0 == names[2]);
    assert(names[0] == "bold"@ && names[1] == "italic"@ && names[2] == "link"@);
    assert("bold"@[0] != "link"@[0]);
    assert("bold"@ != "link"@);
    assert(s.nodes.len() == 6);
    assert forall|i: int, j: int| 0 <= i < j < s.nodes.len() implies #[trigger] s.nodes[i].0
        != #[trigger] s.nodes[j].0 by {
        assert(s.nodes[i].0.len() != s.nodes[j].0.len());
    }
}

impl Schema {
    /// Each node type of the spec has its matcher, in the same place.
    #[verifier::type_invariant]
    closed spec fn matchers_follow_spec(self) -> bool {
        &&& names_distinct(self.spec@.nodes)
        &&& names_distinct(self.spec@.marks)
        &&& self.matchers@.len() == self.spec.nodes@.len()
        &&& forall|i: int|
            0 <= i < self.matchers@.len() ==> #[trigger] self.matchers@[i].0@ == self.spec.nodes@[i].0@
                && self.matchers@[i].1@ == (ContentMatcherV {
                expr: self.spec.nodes@[i].1@,
                categories: categories_v(self.spec@),
            })
    }

    /// The specification the schema was built from.
    pub fn spec(&self) -> (r: &SchemaSpec)
        ensures
            r@ == self@,
    {
        &self.spec
    }

    /// Create a new schema from a specification.
    pub fn new(spec: SchemaSpec) -> (r: Self)
        requires
            names_distinct(spec@.nodes),
            names_distinct(spec@.marks),
        ensures
            r@ == spec@,
    {
        let mut category_map: Vec<(String, String)> = Vec::new();
        let mut i: usize = 0;
        while i < spec.nodes.len()
            invariant
                i <= spec.nodes@.len(),
                pairs_view(category_map@) == spec@.nodes.take(i as int).map_values(
                    |p: (Seq<char>, ContentExprV)| (p.0, p.0),
                ),
            decreases spec.nodes@.len() - i,
        {
            let name = &spec.nodes[i].0;
            let ghost before = category_map@;
            category_map.push((name.clone(), name.clone()));
            proof {
                assert(spec@.nodes.take(i + 1) =~= spec@.nodes.take(i as int).push(spec@.nodes[i as int]));
                assert(pairs_view(category_map@) =~= pairs_view(before).push((name@, name@)));
                assert(pairs_view(category_map@) =~= spec@.nodes.take(i + 1).map_values(
                    |p: (Seq<char>, ContentExprV)| (p.0, p.0),
                ));
            }
            i = i + 1;
        }
        let mut j: usize = 0;
        while j < spec.marks.len()
            invariant
                j <= spec.marks@.len(),
                pairs_view(category_map@) == spec@.nodes.map_values(
                    |p: (Seq<char>, ContentExprV)| (p.0, p.0),
                ) + spec@.marks.take(j as int).map_values(|p: (Seq<char>, serde_json::Value)| (p.0, p.0)),
            decreases spec.marks@.len() - j,
        {
            let name = &spec.marks[j].0;
            let ghost before = category_map@;
            category_map.push((name.clone(), name.clone()));
            proof {
                assert(spec@.marks.take(j + 1) =~= spec@.marks.take(j as int).push(spec@.marks[j as int]));
                assert(pairs_view(category_map@) =~= pairs_view(before).push((name@, name@)));
                assert(pairs_view(category_map@) =~= spec@.nodes.map_values(
                    |p: (Seq<char>, ContentExprV)| (p.0, p.0),
                ) + spec@.marks.take(j + 1).map_values(|p: (Seq<char>, serde_json::Value)| (p.0, p.0)));
            }
            j = j + 1;
        }
        proof {
            assert(spec@.nodes.take(spec@.nodes.len() as int) =~= spec@.nodes);
            assert(spec@.marks.take(spec@.marks.len() as int) =~= spec@.marks);
        }
        proof {
            lemma_categories_consistent(spec@);
        }
        let mut matchers: Vec<(String, ContentMatcher)> = Vec::new();
        let mut k: usize = 0;
        while k < spec.nodes.len()
            invariant
                k <= spec.nodes@.len(),
                pairs_view(category_map@) == categories_v(spec@),
                one_category_each(categories_v(spec@)),
                matchers@.len() == k,
                forall|t: int|
                    0 <= t < k ==> #[trigger] matchers@[t].0@ == spec.nodes@[t].0@ && matchers@[t].1@ == (
                    ContentMatcherV { expr: spec.nodes@[t].1@, categories: categories_v(spec@) }),
            decreases spec.nodes@.len() - k,
        {
            let m = ContentMatcher::new(spec.nodes[k].1.clone(), clone_pairs(&category_map));
            matchers.push((spec.nodes[k].0.clone(), m));
            k = k + 1;
        }
        Schema { spec, matchers }
    }

    /// Create a schema with the default specification.
    pub fn default() -> (r: Self)
        ensures
            is_default_spec(r@),
    {
        let spec = SchemaSpec::default();
        proof {
            lemma_default_names_distinct(spec@);
        }
        Self::new(spec)
    }

    /// The top node type name.
    pub fn top_node_name(&self) -> (r: &str)
        ensures
            r@ == self@.top_node,
    {
        self.spec.top_node.as_str()
    }

    /// Whether a node type is valid.
    pub fn is_valid_node_type(&self, name: &str) -> (r: bool)
        ensures
            r == lookup(self@.nodes, name@) is Some,
    {
        let mut i: usize = 0;
        while i < self.spec.nodes.len()
            invariant
                i <= self.spec.nodes@.len(),
                lookup(self@.nodes, name@) == lookup_from(self@.nodes, name@, i as int),
                self@ == self.spec@,
            decreases self.spec.nodes@.len() - i,
        {
            if str_eq(self.spec.nodes[i].0.as_str(), name) {
                return true;
            }
            i = i + 1;
        }
        false
    }

    /// Whether a mark type is valid.
    pub fn is_valid_mark_type(&self, name: &str) -> (r: bool)
        ensures
            r == lookup(self@.marks, name@) is Some,
    {
        let mut i: usize = 0;
        while i < self.spec.marks.len()
            invariant
                i <= self.spec.marks@.len(),
                lookup(self@.marks, name@) == lookup_from(self@.marks, name@, i as int),
                self@ == self.spec@,
            decreases self.spec.marks@.len() - i,
        {
            if str_eq(self.spec.marks[i].0.as_str(), name) {
                return true;
            }
            i = i + 1;
        }
        false
    }

    /// The matcher of a node type, if the schema has it.
    fn matcher_for(&self, name: &str) -> (r: Option<&ContentMatcher>)
        ensures
            match lookup(self@.nodes, name@) {
                Some(e) => r matches Some(m) && m@ == (ContentMatcherV {
                    expr: e,
                    categories: categories_v(self@),
                }),
                None => r is None,
            },
    {
        proof {
            use_type_invariant(self);
            assert(self.matchers_follow_spec());
        }
        let mut i: usize = 0;
        while i < self.matchers.len()
            invariant
                i <= self.matchers@.len(),
                self.matchers@.len() == self.spec.nodes@.len(),
                forall|t: int|
                    0 <= t < self.matchers@.len() ==> #[trigger] self.matchers@[t].0@
                        == self.spec.nodes@[t].0@ && self.matchers@[t].1@ == (ContentMatcherV {
                        expr: self.spec.nodes@[t].1@,
                        categories: categories_v(self.spec@),
                    }),
                lookup(self@.nodes, name@) == lookup_from(self@.nodes, name@, i as int),
                self@ == self.spec@,
            decreases self.matchers@.len() - i,
        {
            if str_eq(self.matchers[i].0.as_str(), name) {
                return Some(&self.matchers[i].1);
            }
            i = i + 1;
        }
        None
    }

    /// Validate a node's content against the schema.
    pub fn validate_node(&self, node: &Node) -> (r: Result<(), SchemaError>)
        ensures
            check_view(r) == validate_children_v(self@, node@.name(), node@.children()),
    {
        let name = node.node_type_name();
        if !self.is_valid_node_type(name) {
            return Err(SchemaError::UnknownNodeType(to_string(name)));
        }
        let matcher = match self.matcher_for(name) {
            Some(m) => m,
            None => {
                return Err(SchemaError::UnknownNodeType(to_string(name)));
            },
        };
        let empty: Vec<Node> = Vec::new();
        let content: &[Node] = match &node.content {
            NodeContent::Nodes(nodes) => nodes.as_slice(),
            NodeContent::Text(_) => empty.as_slice(),
        };
        proof {
            assert(nodes_view(empty@) =~= seq![]);
        }
        matcher.matches(content)
    }

    /// Validate the children of a node of type `parent_type`.
    pub fn validate_children(&self, parent_type: &str, children: &[Node]) -> (r: Result<(), SchemaError>)
        ensures
            check_view(r) == validate_children_v(self@, parent_type@, nodes_view(children@)),
    {
        match self.matcher_for(parent_type) {
            Some(m) => m.matches(children),
            None => Err(SchemaError::UnknownNodeType(to_string(parent_type))),
        }
    }

    /// The default block type.
    pub fn default_block_type(&self) -> (r: Option<&str>)
        ensures
            match self@.default_block {
                Some(b) => r matches Some(s) && s@ == b,
                None => r is None,
            },
    {
        match &self.spec.default_block {
            Some(b) => Some(b.as_str()),
            None => None,
        }
    }

    /// The default inline type.
    pub fn default_inline_type(&self) -> (r: Option<&str>)
        ensures
            match self@.default_inline {
                Some(b) => r matches Some(s) && s@ == b,
                None => r is None,
            },
    {
        match &self.spec.default_inline {
            Some(b) => Some(b.as_str()),
            None => None,
        }
    }

    /// The display form: `Schema(top: <top node>)`.
    pub fn to_string(&self) -> (r: String)
        ensures
            r@ == schema_display(self@),
    {
        let mut s = to_string("Schema(top: ");
        append_str(&mut s, self.top_node_name());
        append_str(&mut s, ")");
        s
    }
}


/// The leading run of matches from `k` is the whole rest exactly when every
/// node from `k` on matches.
proof fn lemma_count_run_all(cats: Seq<(Seq<char>, Seq<char>)>, p: Seq<char>, ns: Seq<NodeV>, k: int)
    requires
        0 <= k <= ns.len(),
    ensures
        count_run(cats, p, ns, k) <= ns.len() - k,
        count_run(cats, p, ns, k) == ns.len() - k <==> forall|i: int|
            k <= i < ns.len() ==> #[trigger] type_matches_v(cats, p, ns[i]),
    decreases ns.len() - k,
{
    if k < ns.len() {
        lemma_count_run_all(cats, p, ns, k + 1);
        if type_matches_v(cats, p, ns[k]) {
            assert((forall|i: int| k + 1 <= i < ns.len() ==> #[trigger] type_matches_v(cats, p, ns[i]))
                ==> (forall|i: int| k <= i < ns.len() ==> #[trigger] type_matches_v(cats, p, ns[i]))) by {
                if forall|i: int| k + 1 <= i < ns.len() ==> #[trigger] type_matches_v(cats, p, ns[i]) {
                    assert forall|i: int| k <= i < ns.len() implies #[trigger] type_matches_v(cats, p, ns[i]) by {
                        if i > k {
                            assert(type_matches_v(cats, p, ns[i]));
                        }
                    }
                }
            }
        }
    }
}

/// A repeated pattern `x*` matches a list of nodes exactly when every node
/// matches `x`, and `x+` exactly when moreover there is at least one node
/// (for a base `x` that does not itself end in `+` or `*`). So content
/// declared `x*` that holds a node of another kind is refused.
pub proof fn law_repeat_pattern_needs_every_node(
    cats: Seq<(Seq<char>, Seq<char>)>,
    base: Seq<char>,
    ns: Seq<NodeV>,
)
    requires
        base.len() == 0 || (base.last() != '+' && base.last() != '*'),
    ensures
        pattern_matches_v(cats, base.push('*'), ns) <==> forall|i: int|
            0 <= i < ns.len() ==> #[trigger] type_matches_v(cats, base, ns[i]),
        pattern_matches_v(cats, base.push('+'), ns) <==> ns.len() > 0 && forall|i: int|
            0 <= i < ns.len() ==> #[trigger] type_matches_v(cats, base, ns[i]),
        (exists|i: int| 0 <= i < ns.len() && !#[trigger] type_matches_v(cats, base, ns[i])) ==> match_v(
            cats,
            ContentExprV::Optional(base.push('*')),
            ns,
        ) is Err,
{
    assert(base.push('*').drop_last() =~= base);
    assert(base.push('+').drop_last() =~= base);
    assert(pattern_base(base) == (base, false, false));
    lemma_count_run_all(cats, base, ns, 0);
}


/// Under the default schema, a document's children are accepted exactly
/// when every child is a block: a `doc` holding a stray text node is
/// refused.
pub proof fn law_default_doc_holds_only_blocks(s: SchemaSpecV, ns: Seq<NodeV>)
    requires
        is_default_spec(s),
    ensures
        validate_children_v(s, "doc"@, ns) is Ok <==> forall|i: int|
            0 <= i < ns.len() ==> #[trigger] ns[i].type_ is Block,
{
    reveal_strlit("doc");
    reveal_strlit("block*");
    reveal_strlit("block");
    let base = "block"@;
    assert("block*"@ =~= base.push('*'));
    assert(lookup(s.nodes, "doc"@) == Some(ContentExprV::Optional("block*"@))) by {
        assert(s.nodes[0].0 == "doc"@);
    }
    let cats = categories_v(s);
    law_repeat_pattern_needs_every_node(cats, base, ns);
    assert forall|i: int| 0 <= i < ns.len() implies (type_matches_v(cats, base, ns[i]) <==> ns[i].type_ is Block) by {
    }
    if forall|i: int| 0 <= i < ns.len() ==> #[trigger] ns[i].type_ is Block {
        assert forall|i: int| 0 <= i < ns.len() implies #[trigger] type_matches_v(cats, base, ns[i]) by {
            assert(ns[i].type_ is Block);
        }
    } else {
        let i = choose|i: int| 0 <= i < ns.len() && !(#[trigger] ns[i].type_ is Block);
        assert(!type_matches_v(cats, base, ns[i]));
    }
}

} // verus!
