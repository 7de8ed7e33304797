//! Python source to the library's AST: tree-sitter's Python grammar gives the
//! concrete syntax tree, and the verified conversion in `stmt_parser` builds
//! the statements from it.

use vstd::prelude::*;
use crate::ast::Module;
use crate::model::module_m;
use crate::syntax::{has_syntax_error, syntax_error_in, SyntaxNode};
use crate::stmt_grammar::module_of;
use crate::stmt_parser::module_from_syntax;

verus! {

/// Declares `tree_sitter::Node` so that it can stand in signatures; nothing is
/// claimed of what a node holds.
#[verifier::external_type_specification]
#[verifier::external_body]
pub struct ExTreeSitterNode<'a>(tree_sitter::Node<'a>);

/// The concrete syntax tree that tree-sitter's Python grammar gives for a
/// source text, held as plain values; `None` where the parser gives no tree.
pub uninterp spec fn python_tree(source: Seq<char>) -> Option<SyntaxNode>;

/// Copies a tree-sitter node and its subtree into plain values: each node's
/// kind, the field under which its parent holds it, whether it is named,
/// whether it is an error node or a missing one, its byte range, the source
/// text it spans, and its children in order.
#[verifier::external_body]
fn syntax_node_of(node: tree_sitter::Node, field: Option<&'static str>, src: &str) -> SyntaxNode {
    let mut children = Vec::new();
    let mut cursor = node.walk();
    for (i, child) in node.children(&mut cursor).enumerate() {
        children.push(syntax_node_of(child, node.field_name_for_child(i as u32), src));
    }
    let field = match field { Some(f) => Some(f.to_string()), None => None };
    let text = src[node.start_byte()..node.end_byte()].to_string();
    let (start_byte, end_byte) = (node.start_byte() as u32, node.end_byte() as u32);
    let (error, missing) = (node.is_error(), node.is_missing());
    SyntaxNode { kind: node.kind().to_string(), field, named: node.is_named(), error, missing, start_byte, end_byte, text, children }
}

/// Parses `source` with tree-sitter's Python grammar: `Parser::set_language`
/// with `tree_sitter_python::LANGUAGE`, then `Parser::parse`. The contract
/// claims only that the tree is a function of the source text (`python_tree`);
/// what that tree is for a given text is left to tree-sitter.
#[verifier::external_body]
fn parse_python_tree(source: &str) -> (r: Option<SyntaxNode>)
    ensures
        r == python_tree(source@),
{
    let mut parser = tree_sitter::Parser::new();
    parser.set_language(&tree_sitter_python::LANGUAGE.into()).ok()?;
    let tree = parser.parse(source, None)?;
    Some(syntax_node_of(tree.root_node(), None, source))
}

/// Parses Python source into the library's AST: the statements that the root
/// of tree-sitter's syntax tree holds, as `module_of` says; `None` where
/// tree-sitter gives no tree.
pub fn parse_python(source: &str) -> (r: Option<Module>)
    ensures
        match python_tree(source@) {
            Some(root) => r is Some && module_m(r->0) == module_of(root),
            None => r is None,
        },
{
    match parse_python_tree(source) {
        Some(root) => Some(module_from_syntax(&root)),
        None => None,
    }
}

/// The source parses without a syntax error: tree-sitter gives a tree, and
/// nothing in it marks an error.
pub open spec fn parses_cleanly(source: Seq<char>) -> bool {
    python_tree(source) matches Some(root) && !has_syntax_error(root)
}

/// Parses Python source that holds no syntax error: the statements of the
/// tree, as `parse_python` gives them, where the tree marks no error; `None`
/// where tree-sitter gives no tree or the tree marks an error.
pub fn parse_python_clean(source: &str) -> (r: Option<Module>)
    ensures
        match python_tree(source@) {
            Some(root) => if has_syntax_error(root) {
                r is None
            } else {
                r is Some && module_m(r->0) == module_of(root)
            },
            None => r is None,
        },
{
    match parse_python_tree(source) {
        Some(root) => {
            if syntax_error_in(&root) {
                None
            } else {
                Some(module_from_syntax(&root))
            }
        },
        None => None,
    }
}

} // verus!
