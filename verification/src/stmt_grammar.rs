//! What each statement node of tree-sitter's Python syntax tree parses to,
//! stated over the AST's model.

use vstd::prelude::*;
use crate::model::{
    AliasM, ClassDefM, ClauseM, ExceptHandlerM, ExprM, FunctionDefM, ModuleM, ParametersM,
    StmtM, WithItemM,
};
use crate::syntax::{SyntaxNode, kind_is, field_index, range_of, field_text, field_text_or_empty};
use crate::grammar::{
    boxed, child_expr, field_expr, exprs_of, expr_of, parameters_of, arguments_of, augop_of,
};
use crate::text::{starts_with_spec, leading_count, char_count};
use crate::ast::Operator;

verus! {

/// "async", the word that begins an asynchronous definition or statement.
pub open spec fn async_word() -> Seq<char> {
    seq!['a', 's', 'y', 'n', 'c']
}

/// The node's text begins with "async".
pub open spec fn is_async_text(n: SyntaxNode) -> bool {
    starts_with_spec(n.text@, async_word())
}

/// The children that parse as statements, parsed, in order.
pub open spec fn body_of(cs: Seq<SyntaxNode>) -> Seq<StmtM>
    decreases cs, 1int,
{
    if cs.len() == 0 {
        Seq::empty()
    } else {
        let prev = body_of(cs.subrange(0, cs.len() - 1));
        match stmt_of(cs[cs.len() - 1]) {
            Some(s) => prev.push(s),
            None => prev,
        }
    }
}

/// The statements of a block, or of a single statement standing in its place.
pub open spec fn block_of(n: SyntaxNode) -> Seq<StmtM>
    decreases n, 8int,
{
    if kind_is(n, "block") {
        body_of(n.children@)
    } else {
        match stmt_of(n) {
            Some(s) => seq![s],
            None => Seq::empty(),
        }
    }
}

/// The statements of the block under field `f`, or none.
pub open spec fn field_block(n: SyntaxNode, f: &str) -> Seq<StmtM>
    decreases n, 4int,
{
    match field_index(n, f) {
        Some(i) => if 0 <= i < n.children@.len() { block_of(n.children@[i]) } else { Seq::empty() },
        None => Seq::empty(),
    }
}

/// The parameter list of a function definition with no `parameters` field.
pub open spec fn no_parameters(n: SyntaxNode) -> ParametersM {
    ParametersM {
        args: Seq::empty(),
        vararg: None,
        kwonlyargs: Seq::empty(),
        kwarg: None,
        posonlyargs: Seq::empty(),
        range: range_of(n),
    }
}

/// A function definition node with the given decorators.
pub open spec fn function_def_of(n: SyntaxNode, decorators: Seq<ExprM>, is_async: bool) -> FunctionDefM
    decreases n, 5int,
{
    FunctionDefM {
        name: field_text_or_empty(n, "name"),
        parameters: match field_index(n, "parameters") {
            Some(i) => if 0 <= i < n.children@.len() { parameters_of(n.children@[i]) } else { no_parameters(n) },
            None => no_parameters(n),
        },
        body: field_block(n, "body"),
        decorator_list: decorators,
        returns: boxed(field_expr(n, "return_type")),
        is_async,
        range: range_of(n),
    }
}

/// A class definition node with the given decorators.
pub open spec fn class_def_of(n: SyntaxNode, decorators: Seq<ExprM>) -> ClassDefM
    decreases n, 5int,
{
    ClassDefM {
        name: field_text_or_empty(n, "name"),
        arguments: match field_index(n, "superclasses") {
            Some(i) => if 0 <= i < n.children@.len() { Some(Box::new(arguments_of(n.children@[i]))) } else { None },
            None => None,
        },
        body: field_block(n, "body"),
        decorator_list: decorators,
        range: range_of(n),
    }
}

/// The decorators gathered from children `cs[0..i]` of a decorated definition:
/// each decorator's child 1, where it parses.
pub open spec fn decorators_before(cs: Seq<SyntaxNode>, i: int) -> Seq<ExprM>
    decreases i,
{
    if i <= 0 || i > cs.len() {
        Seq::empty()
    } else {
        let prev = decorators_before(cs, i - 1);
        let c = cs[i - 1];
        if kind_is(c, "decorator") {
            match child_expr(c, 1) {
                Some(e) => prev.push(e),
                None => prev,
            }
        } else {
            prev
        }
    }
}

/// A function or class definition node.
pub open spec fn definition_pred() -> spec_fn(SyntaxNode) -> bool {
    |c: SyntaxNode| kind_is(c, "function_definition") || kind_is(c, "class_definition")
}

/// The index of the first function or class definition among `cs`.
pub open spec fn definition_index(cs: Seq<SyntaxNode>) -> Option<int> {
    crate::graph::first_index(cs, definition_pred())
}

/// A function definition, plain or decorated (a decorated class too).
pub open spec fn function_of(n: SyntaxNode) -> Option<StmtM>
    decreases n, 6int,
{
    let cs = n.children@;
    if kind_is(n, "decorated_definition") {
        match definition_index(cs) {
            Some(d) => if 0 <= d < cs.len() {
                let decorators = decorators_before(cs, d);
                if kind_is(cs[d], "function_definition") {
                    Some(StmtM::FunctionDef(function_def_of(cs[d], decorators, false)))
                } else {
                    Some(StmtM::ClassDef(class_def_of(cs[d], decorators)))
                }
            } else {
                None
            },
            None => None,
        }
    } else {
        Some(StmtM::FunctionDef(function_def_of(n, Seq::empty(), is_async_text(n))))
    }
}

/// An assignment, annotated or not; `None` where a part it needs does not parse.
pub open spec fn assignment_of(n: SyntaxNode) -> Option<StmtM> {
    let left = field_expr(n, "left");
    let right = field_expr(n, "right");
    match field_index(n, "type") {
        Some(t) => match left {
            None => None,
            Some(target) => match child_expr(n, t) {
                None => None,
                Some(annotation) => Some(StmtM::AnnAssign {
                    target: Box::new(target),
                    annotation: Box::new(annotation),
                    value: boxed(right),
                    range: range_of(n),
                }),
            },
        },
        None => match (left, right) {
            (Some(target), Some(value)) => Some(StmtM::Assign { targets: seq![target], value: Box::new(value), range: range_of(n) }),
            _ => None,
        },
    }
}

/// An augmented assignment (`+=` and its kin).
pub open spec fn aug_assignment_of(n: SyntaxNode) -> Option<StmtM> {
    match (field_expr(n, "left"), field_expr(n, "right")) {
        (Some(target), Some(value)) => Some(StmtM::AugAssign {
            target: Box::new(target),
            op: match field_text(n, "operator") { Some(t) => augop_of(t), None => Operator::Add },
            value: Box::new(value),
            range: range_of(n),
        }),
        _ => None,
    }
}

/// An expression statement: an assignment inside one, or an expression.
pub open spec fn expr_stmt_of(n: SyntaxNode) -> Option<StmtM> {
    let cs = n.children@;
    if cs.len() == 0 {
        None
    } else if kind_is(cs[0], "assignment") {
        assignment_of(cs[0])
    } else if kind_is(cs[0], "augmented_assignment") {
        aug_assignment_of(cs[0])
    } else {
        match expr_of(cs[0]) {
            Some(e) => Some(StmtM::Expr { value: Box::new(e), range: range_of(n) }),
            None => None,
        }
    }
}

/// The `elif` and `else` clauses gathered from the children of an `if` statement.
pub open spec fn clauses_fold(cs: Seq<SyntaxNode>) -> Seq<ClauseM>
    decreases cs, 5int,
{
    if cs.len() == 0 {
        Seq::empty()
    } else {
        let prev = clauses_fold(cs.subrange(0, cs.len() - 1));
        let c = cs[cs.len() - 1];
        if kind_is(c, "elif_clause") {
            prev.push(ClauseM { test: field_expr(c, "condition"), body: field_block(c, "consequence"), range: range_of(c) })
        } else if kind_is(c, "else_clause") {
            prev.push(ClauseM { test: None, body: field_block(c, "body"), range: range_of(c) })
        } else {
            prev
        }
    }
}

/// The with-items of one `with_clause`: each `with_item` whose value parses.
pub open spec fn with_items_fold(cs: Seq<SyntaxNode>) -> Seq<WithItemM>
    decreases cs,
{
    if cs.len() == 0 {
        Seq::empty()
    } else {
        let prev = with_items_fold(cs.subrange(0, cs.len() - 1));
        let c = cs[cs.len() - 1];
        if kind_is(c, "with_item") {
            match field_expr(c, "value") {
                Some(e) => prev.push(WithItemM { context_expr: e, optional_vars: field_expr(c, "alias"), range: range_of(c) }),
                None => prev,
            }
        } else {
            prev
        }
    }
}

/// The with-items of all `with_clause` children, in order.
pub open spec fn with_clauses_fold(cs: Seq<SyntaxNode>) -> Seq<WithItemM>
    decreases cs,
{
    if cs.len() == 0 {
        Seq::empty()
    } else {
        let prev = with_clauses_fold(cs.subrange(0, cs.len() - 1));
        let c = cs[cs.len() - 1];
        if kind_is(c, "with_clause") { prev + with_items_fold(c.children@) } else { prev }
    }
}

/// A node that parses as an expression.
pub open spec fn expr_pred() -> spec_fn(SyntaxNode) -> bool {
    |c: SyntaxNode| expr_of(c) is Some
}

/// The first child that parses as an expression, as a with-item of its own.
pub open spec fn first_expr_item(cs: Seq<SyntaxNode>) -> Option<WithItemM> {
    match crate::graph::first_index(cs, expr_pred()) {
        Some(k) => if 0 <= k < cs.len() {
            match expr_of(cs[k]) {
                Some(e) => Some(WithItemM { context_expr: e, optional_vars: None, range: range_of(cs[k]) }),
                None => None,
            }
        } else {
            None
        },
        None => None,
    }
}

/// The with-items of a `with` statement; where no clause gives one, the first
/// child that parses as an expression stands as the only item.
pub open spec fn with_items_of(n: SyntaxNode) -> Seq<WithItemM> {
    let items = with_clauses_fold(n.children@);
    if items.len() > 0 {
        items
    } else {
        match first_expr_item(n.children@) {
            Some(w) => seq![w],
            None => Seq::empty(),
        }
    }
}

pub ghost struct RaiseAcc {
    pub exc: Option<ExprM>,
    pub cause: Option<ExprM>,
    pub seen_from: bool,
}

/// The exception and cause of a `raise`: each parsed child after `from` is the
/// cause, each before it the exception, the later one winning.
pub open spec fn raise_fold(cs: Seq<SyntaxNode>) -> RaiseAcc
    decreases cs,
{
    if cs.len() == 0 {
        RaiseAcc { exc: None, cause: None, seen_from: false }
    } else {
        let acc = raise_fold(cs.subrange(0, cs.len() - 1));
        let c = cs[cs.len() - 1];
        if kind_is(c, "from") {
            RaiseAcc { seen_from: true, ..acc }
        } else if kind_is(c, "raise") {
            acc
        } else {
            match expr_of(c) {
                Some(e) => if acc.seen_from { RaiseAcc { cause: Some(e), ..acc } } else { RaiseAcc { exc: Some(e), ..acc } },
                None => acc,
            }
        }
    }
}

/// A named child that is no `as_pattern_target`.
pub open spec fn as_type_pred() -> spec_fn(SyntaxNode) -> bool {
    |c: SyntaxNode| c.named && !kind_is(c, "as_pattern_target")
}

/// The index of the first child of `v` that is named and is no `as_pattern_target`.
pub open spec fn as_type_index(v: SyntaxNode) -> Option<int> {
    crate::graph::first_index(v.children@, as_type_pred())
}

/// The exception type and bound name of an except clause.
pub open spec fn handler_head(c: SyntaxNode) -> (Option<ExprM>, Option<Seq<char>>) {
    match field_index(c, "value") {
        Some(vi) => if 0 <= vi < c.children@.len() {
            let v = c.children@[vi];
            if kind_is(v, "as_pattern") {
                let t = match as_type_index(v) {
                    Some(k) => child_expr(v, k),
                    None => None,
                };
                let name = match crate::syntax::kind_index(v, "as_pattern_target") {
                    Some(k) => if 0 <= k < v.children@.len() && v.children@[k].children@.len() > 0 {
                        Some(v.children@[k].children@[0].text@)
                    } else {
                        None
                    },
                    None => None,
                };
                (t, name)
            } else {
                (expr_of(v), None)
            }
        } else {
            (None, None)
        },
        None => (None, None),
    }
}

/// The body of an except clause: its `body` field, else its first block.
pub open spec fn handler_body(c: SyntaxNode) -> Seq<StmtM>
    decreases c, 4int,
{
    match field_index(c, "body") {
        Some(i) => if 0 <= i < c.children@.len() { block_of(c.children@[i]) } else { Seq::empty() },
        None => match crate::syntax::kind_index(c, "block") {
            Some(i) => if 0 <= i < c.children@.len() { block_of(c.children@[i]) } else { Seq::empty() },
            None => Seq::empty(),
        },
    }
}

pub open spec fn handler_of(c: SyntaxNode) -> ExceptHandlerM
    decreases c, 5int,
{
    let (t, name) = handler_head(c);
    ExceptHandlerM { type_: boxed(t), name, body: handler_body(c), range: range_of(c) }
}

pub ghost struct TryAcc {
    pub body: Seq<StmtM>,
    pub handlers: Seq<ExceptHandlerM>,
    pub orelse: Seq<StmtM>,
    pub finalbody: Seq<StmtM>,
}

/// The parts of a `try` statement gathered from its children: the first block
/// (while the body and the handlers are still empty), the except clauses, the
/// `else` and the `finally` clause.
pub open spec fn try_fold(cs: Seq<SyntaxNode>) -> TryAcc
    decreases cs, 6int,
{
    if cs.len() == 0 {
        TryAcc { body: Seq::empty(), handlers: Seq::empty(), orelse: Seq::empty(), finalbody: Seq::empty() }
    } else {
        let acc = try_fold(cs.subrange(0, cs.len() - 1));
        let c = cs[cs.len() - 1];
        if kind_is(c, "block") {
            if acc.body.len() == 0 && acc.handlers.len() == 0 { TryAcc { body: block_of(c), ..acc } } else { acc }
        } else if kind_is(c, "except_clause") || kind_is(c, "except_group_clause") {
            TryAcc { handlers: acc.handlers.push(handler_of(c)), ..acc }
        } else if kind_is(c, "else_clause") {
            TryAcc { orelse: field_block(c, "body"), ..acc }
        } else if kind_is(c, "finally_clause") {
            TryAcc { finalbody: field_block(c, "body"), ..acc }
        } else {
            acc
        }
    }
}

/// An imported name, with its alias where it has one.
pub open spec fn alias_of(n: SyntaxNode) -> AliasM {
    if kind_is(n, "aliased_import") {
        AliasM { name: field_text_or_empty(n, "name"), asname: field_text(n, "alias"), range: range_of(n) }
    } else {
        AliasM { name: n.text@, asname: None, range: range_of(n) }
    }
}

/// The names of an `import` statement.
pub open spec fn import_names(cs: Seq<SyntaxNode>) -> Seq<AliasM>
    decreases cs.len(),
{
    if cs.len() == 0 {
        Seq::empty()
    } else {
        let prev = import_names(cs.subrange(0, cs.len() - 1));
        let c = cs[cs.len() - 1];
        if kind_is(c, "dotted_name") || kind_is(c, "aliased_import") { prev.push(alias_of(c)) } else { prev }
    }
}

/// "name", the field under which `from ... import` holds each imported name.
pub open spec fn name_field() -> Seq<char> {
    seq!['n', 'a', 'm', 'e']
}

/// The names of a `from ... import` statement: those under field `name`, and
/// `*` for a wildcard.
pub open spec fn from_import_names(cs: Seq<SyntaxNode>) -> Seq<AliasM>
    decreases cs.len(),
{
    if cs.len() == 0 {
        Seq::empty()
    } else {
        let prev = from_import_names(cs.subrange(0, cs.len() - 1));
        let c = cs[cs.len() - 1];
        let named = if crate::syntax::has_field(c, name_field()) {
            if kind_is(c, "dotted_name") {
                prev.push(AliasM { name: c.text@, asname: None, range: range_of(c) })
            } else if kind_is(c, "aliased_import") {
                prev.push(alias_of(c))
            } else {
                prev
            }
        } else {
            prev
        };
        if kind_is(c, "wildcard_import") {
            named.push(AliasM { name: seq!['*'], asname: None, range: range_of(c) })
        } else {
            named
        }
    }
}

/// The module named by a relative or absolute module text: the text without
/// its leading dots, where that is not empty.
pub open spec fn module_after_dots(t: Seq<char>) -> Option<Seq<char>> {
    let m = t.skip(leading_count(t, '.') as int);
    if m.len() > 0 { Some(m) } else { None }
}

pub ghost struct FromAcc {
    pub module: Option<Seq<char>>,
    pub level: u32,
}

/// The module and level of a `from ... import`, after the `module_name` field
/// and then each `import_prefix` and `relative_import` child have had their say.
pub open spec fn from_fold(cs: Seq<SyntaxNode>, init: FromAcc) -> FromAcc
    decreases cs.len(),
{
    if cs.len() == 0 {
        init
    } else {
        let acc = from_fold(cs.subrange(0, cs.len() - 1), init);
        let c = cs[cs.len() - 1];
        if kind_is(c, "import_prefix") {
            FromAcc { level: char_count(c.text@, '.') as u32, ..acc }
        } else if kind_is(c, "relative_import") {
            FromAcc {
                level: leading_count(c.text@, '.') as u32,
                module: match module_after_dots(c.text@) { Some(m) => Some(m), None => acc.module },
            }
        } else {
            acc
        }
    }
}

/// The module and level given by the `module_name` field alone.
pub open spec fn from_head(n: SyntaxNode) -> FromAcc {
    match field_text(n, "module_name") {
        Some(t) => FromAcc { module: module_after_dots(t), level: leading_count(t, '.') as u32 },
        None => FromAcc { module: None, level: 0 },
    }
}

/// The texts of the `identifier` children.
pub open spec fn identifier_names(cs: Seq<SyntaxNode>) -> Seq<Seq<char>>
    decreases cs.len(),
{
    if cs.len() == 0 {
        Seq::empty()
    } else {
        let prev = identifier_names(cs.subrange(0, cs.len() - 1));
        let c = cs[cs.len() - 1];
        if kind_is(c, "identifier") { prev.push(c.text@) } else { prev }
    }
}

/// The statement that a node parses to, if it is one this library models.
#[verifier::opaque]
pub open spec fn stmt_of(n: SyntaxNode) -> Option<StmtM>
    decreases n, 7int,
{
    let r = range_of(n);
    let cs = n.children@;
    if kind_is(n, "function_definition") || kind_is(n, "decorated_definition") {
        function_of(n)
    } else if kind_is(n, "class_definition") {
        Some(StmtM::ClassDef(class_def_of(n, Seq::empty())))
    } else if kind_is(n, "return_statement") {
        Some(StmtM::Return { value: boxed(child_expr(n, 1)), range: r })
    } else if kind_is(n, "expression_statement") {
        expr_stmt_of(n)
    } else if kind_is(n, "assignment") {
        assignment_of(n)
    } else if kind_is(n, "augmented_assignment") {
        aug_assignment_of(n)
    } else if kind_is(n, "for_statement") {
        match (field_expr(n, "left"), field_expr(n, "right")) {
            (Some(t), Some(i)) => Some(StmtM::For {
                target: Box::new(t),
                iter: Box::new(i),
                body: field_block(n, "body"),
                orelse: field_block(n, "alternative"),
                is_async: is_async_text(n),
                range: r,
            }),
            _ => None,
        }
    } else if kind_is(n, "while_statement") {
        match field_expr(n, "condition") {
            Some(t) => Some(StmtM::While { test: Box::new(t), body: field_block(n, "body"), orelse: field_block(n, "alternative"), range: r }),
            None => None,
        }
    } else if kind_is(n, "if_statement") {
        match field_expr(n, "condition") {
            Some(t) => Some(StmtM::If { test: Box::new(t), body: field_block(n, "consequence"), elif_else_clauses: clauses_fold(cs), range: r }),
            None => None,
        }
    } else if kind_is(n, "with_statement") {
        Some(StmtM::With { items: with_items_of(n), body: field_block(n, "body"), is_async: is_async_text(n), range: r })
    } else if kind_is(n, "raise_statement") {
        let acc = raise_fold(cs);
        Some(StmtM::Raise { exc: boxed(acc.exc), cause: boxed(acc.cause), range: r })
    } else if kind_is(n, "try_statement") {
        let acc = try_fold(cs);
        Some(StmtM::Try { body: acc.body, handlers: acc.handlers, orelse: acc.orelse, finalbody: acc.finalbody, range: r })
    } else if kind_is(n, "assert_statement") {
        let es = exprs_of(cs);
        if es.len() > 0 {
            Some(StmtM::Assert { test: Box::new(es[0]), msg: if es.len() > 1 { Some(Box::new(es[1])) } else { None }, range: r })
        } else {
            None
        }
    } else if kind_is(n, "import_statement") {
        Some(StmtM::Import { names: import_names(cs), range: r })
    } else if kind_is(n, "import_from_statement") {
        let acc = from_fold(cs, from_head(n));
        Some(StmtM::ImportFrom { module: acc.module, names: from_import_names(cs), level: acc.level, range: r })
    } else if kind_is(n, "global_statement") {
        Some(StmtM::Global { names: identifier_names(cs), range: r })
    } else if kind_is(n, "nonlocal_statement") {
        Some(StmtM::Nonlocal { names: identifier_names(cs), range: r })
    } else if kind_is(n, "pass_statement") {
        Some(StmtM::Pass { range: r })
    } else if kind_is(n, "break_statement") {
        Some(StmtM::Break { range: r })
    } else if kind_is(n, "continue_statement") {
        Some(StmtM::Continue { range: r })
    } else if kind_is(n, "delete_statement") {
        Some(StmtM::Delete { targets: exprs_of(cs), range: r })
    } else {
        None
    }
}

/// The module that a root node gives: its children parsed as statements.
pub open spec fn module_of(root: SyntaxNode) -> ModuleM {
    ModuleM { body: body_of(root.children@), range: range_of(root) }
}

} // verus!
