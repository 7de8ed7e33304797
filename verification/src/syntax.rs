//! The syntax tree that tree-sitter's Python grammar gives for a source text,
//! held as plain values: each node's kind, the field under which its parent holds
//! it, its byte range, its source text and its children in order.

use vstd::prelude::*;
use crate::diagnostic::ByteRange;
use crate::graph::first_index;
use crate::text::str_eq;

verus! {

/// One node of a concrete syntax tree.
#[derive(Debug)]
pub struct SyntaxNode {
    /// The grammar's name for the node (e.g. "identifier", "call", "(").
    pub kind: String,
    /// The field name under which the parent holds this node, if any.
    pub field: Option<String>,
    /// Whether the node is named in the grammar (punctuation is not).
    pub named: bool,
    /// Whether the node stands for text that the grammar could not place (an `ERROR` node).
    pub error: bool,
    /// Whether the parser inserted the node, absent from the text, to recover from an error.
    pub missing: bool,
    /// The byte offset at which the node starts.
    pub start_byte: u32,
    /// The byte offset just past the node.
    pub end_byte: u32,
    /// The source text that the node spans.
    pub text: String,
    /// All children, named and anonymous, in source order.
    pub children: Vec<SyntaxNode>,
}

/// The node or one below it marks a syntax error: text that the grammar could
/// not place, or a node that the parser inserted to recover.
pub open spec fn has_syntax_error(n: SyntaxNode) -> bool
    decreases n, 1int,
{
    n.error || n.missing || any_syntax_error(n.children@)
}

/// One of the nodes `cs`, or a node below one of them, marks a syntax error.
pub open spec fn any_syntax_error(cs: Seq<SyntaxNode>) -> bool
    decreases cs, 0int,
{
    if cs.len() == 0 {
        false
    } else {
        any_syntax_error(cs.subrange(0, cs.len() - 1)) || has_syntax_error(cs[cs.len() - 1])
    }
}

/// Whether the tree below `n`, `n` included, marks a syntax error.
pub fn syntax_error_in(n: &SyntaxNode) -> (b: bool)
    ensures
        b == has_syntax_error(*n),
    decreases n, 1int,
{
    if n.error || n.missing {
        return true;
    }
    syntax_error_among(&n.children)
}

/// Whether one of the trees `cs` marks a syntax error.
fn syntax_error_among(cs: &Vec<SyntaxNode>) -> (b: bool)
    ensures
        b == any_syntax_error(cs@),
    decreases cs, 0int,
{
    let mut i: usize = 0;
    assert(cs@.subrange(0, 0).len() == 0);
    while i < cs.len()
        invariant
            i <= cs@.len(),
            !any_syntax_error(cs@.subrange(0, i as int)),
        decreases cs@.len() - i,
    {
        let ghost next = cs@.subrange(0, i + 1);
        assert(next.subrange(0, next.len() - 1) =~= cs@.subrange(0, i as int));
        assert(next[next.len() - 1] == cs@[i as int]);
        if syntax_error_in(&cs[i]) {
            proof {
                assert(any_syntax_error(cs@.subrange(0, i + 1)));
                lemma_error_prefix(cs@, i + 1);
            }
            return true;
        }
        i = i + 1;
    }
    assert(cs@.subrange(0, cs@.len() as int) =~= cs@);
    false
}

/// An error among the first `k` nodes is an error among all of them.
proof fn lemma_error_prefix(cs: Seq<SyntaxNode>, k: int)
    requires
        0 <= k <= cs.len(),
        any_syntax_error(cs.subrange(0, k)),
    ensures
        any_syntax_error(cs),
    decreases cs.len() - k,
{
    if k < cs.len() {
        let next = cs.subrange(0, k + 1);
        assert(next.subrange(0, next.len() - 1) =~= cs.subrange(0, k));
        lemma_error_prefix(cs, k + 1);
    } else {
        assert(cs.subrange(0, k) =~= cs);
    }
}

/// The node's kind is `k`.
pub open spec fn kind_is(n: SyntaxNode, k: &str) -> bool {
    n.kind@ == k@
}

/// The node is held under field `f`.
pub open spec fn has_field(c: SyntaxNode, f: Seq<char>) -> bool {
    c.field matches Some(x) && x@ == f
}

/// The index of the first child held under field `f`.
pub open spec fn field_index(n: SyntaxNode, f: &str) -> Option<int> {
    first_index(n.children@, |c: SyntaxNode| has_field(c, f@))
}

/// The index of the first child whose kind is `k`.
pub open spec fn kind_index(n: SyntaxNode, k: &str) -> Option<int> {
    first_index(n.children@, |c: SyntaxNode| kind_is(c, k))
}

/// The byte range of a node.
pub open spec fn range_of(n: SyntaxNode) -> ByteRange {
    ByteRange { start: n.start_byte, end: n.end_byte }
}

/// The text of the child under field `f`, if there is one.
pub open spec fn field_text(n: SyntaxNode, f: &str) -> Option<Seq<char>> {
    match field_index(n, f) {
        Some(i) => Some(n.children@[i].text@),
        None => None,
    }
}

/// The text of the child under field `f`, or the empty text.
pub open spec fn field_text_or_empty(n: SyntaxNode, f: &str) -> Seq<char> {
    match field_text(n, f) {
        Some(t) => t,
        None => Seq::empty(),
    }
}

pub proof fn lemma_first_index_bounds<A>(s: Seq<A>, p: spec_fn(A) -> bool)
    ensures
        first_index(s, p) matches Some(i) ==> 0 <= i < s.len() && p(s[i]),
    decreases s.len(),
{
    if s.len() > 0 && !p(s[0]) {
        lemma_first_index_bounds(s.drop_first(), p);
        if let Some(i) = first_index(s.drop_first(), p) {
            assert(s[i + 1] == s.drop_first()[i]);
        }
    }
}

/// A field index lies among the children.
pub proof fn lemma_field_index(n: SyntaxNode, f: &str)
    ensures
        field_index(n, f) matches Some(i) ==> 0 <= i < n.children@.len(),
{
    lemma_first_index_bounds(n.children@, |c: SyntaxNode| has_field(c, f@));
}

/// A kind index lies among the children.
pub proof fn lemma_kind_index(n: SyntaxNode, k: &str)
    ensures
        kind_index(n, k) matches Some(i) ==> 0 <= i < n.children@.len() && kind_is(n.children@[i], k),
{
    lemma_first_index_bounds(n.children@, |c: SyntaxNode| kind_is(c, k));
}

/// Whether the node's kind is `k`.
pub fn is_kind(n: &SyntaxNode, k: &str) -> (b: bool)
    ensures
        b == kind_is(*n, k),
{
    str_eq(n.kind.as_str(), k)
}

/// The byte range of a node.
pub fn node_range(n: &SyntaxNode) -> (r: ByteRange)
    ensures
        r == range_of(*n),
{
    ByteRange { start: n.start_byte, end: n.end_byte }
}

/// The index of the first child held under field `f`.
pub fn child_index_by_field(n: &SyntaxNode, f: &str) -> (r: Option<usize>)
    ensures
        match r {
            Some(i) => field_index(*n, f) == Some(i as int) && i < n.children@.len(),
            None => field_index(*n, f) is None,
        },
{
    let ghost p = |c: SyntaxNode| has_field(c, f@);
    let mut i: usize = 0;
    while i < n.children.len()
        invariant
            i <= n.children@.len(),
            p == (|c: SyntaxNode| has_field(c, f@)),
            forall|j: int| 0 <= j < i ==> !p(#[trigger] n.children@[j]),
        decreases n.children@.len() - i,
    {
        let matched = match &n.children[i].field {
            Some(x) => str_eq(x.as_str(), f),
            None => false,
        };
        if matched {
            proof { crate::graph::lemma_first_index_is(n.children@, p, i as int); }
            return Some(i);
        }
        i = i + 1;
    }
    proof { crate::graph::lemma_first_index_is(n.children@, p, i as int); }
    None
}

/// The index of the first child whose kind is `k`.
pub fn child_index_by_kind(n: &SyntaxNode, k: &str) -> (r: Option<usize>)
    ensures
        match r {
            Some(i) => kind_index(*n, k) == Some(i as int) && i < n.children@.len(),
            None => kind_index(*n, k) is None,
        },
{
    let ghost p = |c: SyntaxNode| kind_is(c, k);
    let mut i: usize = 0;
    while i < n.children.len()
        invariant
            i <= n.children@.len(),
            p == (|c: SyntaxNode| kind_is(c, k)),
            forall|j: int| 0 <= j < i ==> !p(#[trigger] n.children@[j]),
        decreases n.children@.len() - i,
    {
        if is_kind(&n.children[i], k) {
            proof { crate::graph::lemma_first_index_is(n.children@, p, i as int); }
            return Some(i);
        }
        i = i + 1;
    }
    proof { crate::graph::lemma_first_index_is(n.children@, p, i as int); }
    None
}

/// The text of the child under field `f`, if there is one.
pub fn child_text_by_field(n: &SyntaxNode, f: &str) -> (r: Option<String>)
    ensures
        crate::model::opt_str_m(r) == field_text(*n, f),
{
    match child_index_by_field(n, f) {
        Some(i) => Some(n.children[i].text.clone()),
        None => None,
    }
}

/// The text of the child under field `f`, or the empty string.
pub fn child_text_by_field_or_empty(n: &SyntaxNode, f: &str) -> (r: String)
    ensures
        r@ == field_text_or_empty(*n, f),
{
    match child_index_by_field(n, f) {
        Some(i) => n.children[i].text.clone(),
        None => String::new(),
    }
}

} // verus!
