//! From tree-sitter's Python syntax tree to the library's statements, proved to
//! build what `stmt_grammar` says each node parses to.

use vstd::prelude::*;
use crate::ast::{
    Alias, ElifElseClause, ExceptHandler, Expr, Module, Operator, Parameters, Parameter, Stmt,
    StmtAnnAssign, StmtAssert, StmtAssign, StmtAugAssign, StmtBreak, StmtClassDef, StmtContinue,
    StmtDelete, StmtExpr, StmtFor, StmtFunctionDef, StmtGlobal, StmtIf, StmtImport,
    StmtImportFrom, StmtNonlocal, StmtPass, StmtRaise, StmtReturn, StmtTry, StmtWhile, StmtWith,
    WithItem,
};
use crate::model::{
    AliasM, ClauseM, ExceptHandlerM, ExprM, ParameterM, StmtM, WithItemM, alias_m, aliases_m,
    clause_m, clauses_m, expr_m, exprs_m, handler_m, handlers_m, module_m, opt_expr_m,
    opt_str_m, stmt_m, stmts_m, strs_m, with_item_m, with_items_m, function_def_m, class_def_m,
    parameters_m, params_m,
};
use crate::syntax::{
    SyntaxNode, range_of, has_field, is_kind, node_range, child_index_by_field,
    child_index_by_kind, child_text_by_field, child_text_by_field_or_empty,
};
use crate::grammar::{boxed, field_expr, exprs_of};
use crate::stmt_grammar::{
    async_word, is_async_text, body_of, block_of, field_block, no_parameters, function_def_of,
    class_def_of, decorators_before, function_of, assignment_of, aug_assignment_of, expr_stmt_of,
    clauses_fold, with_items_fold, with_clauses_fold, with_items_of, RaiseAcc, raise_fold,
    handler_head, handler_body, definition_pred, definition_index, expr_pred, first_expr_item, as_type_pred, handler_of, TryAcc, try_fold, alias_of, import_names, name_field,
    from_import_names, module_after_dots, FromAcc, from_fold, from_head, identifier_names, stmt_of,
    module_of,
};
use crate::parser::{
    parse_expr, parse_field_expr, parse_child_expr, parse_exprs, parse_parameters, parse_arguments,
    box_opt, augop_exec, lemma_prefix, lemma_exprs_m_push, lemma_exprs_m_len,
};
use crate::graph::{lemma_first_index_is};
use crate::text::{starts_with, str_eq, split_leading, count_char, leading_count};

verus! {

/// The model of an optional statement.
pub open spec fn opt_stmt_m(s: Option<Stmt>) -> Option<StmtM> {
    match s {
        Some(x) => Some(stmt_m(x)),
        None => None,
    }
}

pub proof fn lemma_stmts_m_push(s: Seq<Stmt>, e: Stmt)
    ensures
        stmts_m(s.push(e)) == stmts_m(s).push(stmt_m(e)),
{
    assert(s.push(e).subrange(0, s.len() as int) =~= s);
}

pub proof fn lemma_stmts_m_len(s: Seq<Stmt>)
    ensures
        stmts_m(s).len() == s.len(),
    decreases s.len(),
{
    if s.len() > 0 {
        lemma_stmts_m_len(s.subrange(0, s.len() - 1));
    }
}

pub proof fn lemma_handlers_m_push(s: Seq<ExceptHandler>, e: ExceptHandler)
    ensures
        handlers_m(s.push(e)) == handlers_m(s).push(handler_m(e)),
{
    assert(s.push(e).subrange(0, s.len() as int) =~= s);
}

pub proof fn lemma_handlers_m_len(s: Seq<ExceptHandler>)
    ensures
        handlers_m(s).len() == s.len(),
    decreases s.len(),
{
    if s.len() > 0 {
        lemma_handlers_m_len(s.subrange(0, s.len() - 1));
    }
}

pub proof fn lemma_clauses_m_push(s: Seq<ElifElseClause>, e: ElifElseClause)
    ensures
        clauses_m(s.push(e)) == clauses_m(s).push(clause_m(e)),
{
    assert(s.push(e).subrange(0, s.len() as int) =~= s);
}

pub proof fn lemma_with_items_m_push(s: Seq<WithItem>, e: WithItem)
    ensures
        with_items_m(s.push(e)) == with_items_m(s).push(with_item_m(e)),
{
    assert(s.push(e).subrange(0, s.len() as int) =~= s);
}

pub proof fn lemma_with_items_m_len(s: Seq<WithItem>)
    ensures
        with_items_m(s).len() == s.len(),
    decreases s.len(),
{
    if s.len() > 0 {
        lemma_with_items_m_len(s.subrange(0, s.len() - 1));
    }
}

fn empty_stmts() -> (r: Vec<Stmt>)
    ensures
        stmts_m(r@) == Seq::<StmtM>::empty(),
{
    let v: Vec<Stmt> = Vec::new();
    assert(stmts_m(v@) =~= Seq::<StmtM>::empty());
    v
}

fn empty_exprs() -> (r: Vec<Expr>)
    ensures
        exprs_m(r@) == Seq::<ExprM>::empty(),
{
    let v: Vec<Expr> = Vec::new();
    assert(exprs_m(v@) =~= Seq::<ExprM>::empty());
    v
}

#[verifier::spinoff_prover]
fn parse_body(cs: &Vec<SyntaxNode>) -> (r: Vec<Stmt>)
    ensures
        stmts_m(r@) == body_of(cs@),
    decreases cs, 1int,
{
    let mut out = empty_stmts();
    let mut i: usize = 0;
    while i < cs.len()
        invariant
            i <= cs@.len(),
            stmts_m(out@) == body_of(cs@.subrange(0, i as int)),
        decreases cs@.len() - i,
    {
        proof { lemma_prefix(cs@, i as int); }
        match parse_stmt(&cs[i]) {
            Some(s) => {
                proof { lemma_stmts_m_push(out@, s); }
                out.push(s);
            },
            None => {},
        }
        i = i + 1;
    }
    assert(cs@.subrange(0, cs@.len() as int) == cs@);
    out
}

#[verifier::spinoff_prover]
fn parse_block(n: &SyntaxNode) -> (r: Vec<Stmt>)
    ensures
        stmts_m(r@) == block_of(*n),
    decreases n, 8int,
{
    if is_kind(n, "block") {
        parse_body(&n.children)
    } else {
        match parse_stmt(n) {
            Some(s) => {
                let mut v = empty_stmts();
                proof { lemma_stmts_m_push(v@, s); }
                v.push(s);
                v
            },
            None => empty_stmts(),
        }
    }
}

#[verifier::spinoff_prover]
fn parse_field_block(n: &SyntaxNode, f: &str) -> (r: Vec<Stmt>)
    ensures
        stmts_m(r@) == field_block(*n, f),
    decreases n, 4int,
{
    match child_index_by_field(n, f) {
        Some(i) => parse_block(&n.children[i]),
        None => empty_stmts(),
    }
}

fn no_params(n: &SyntaxNode) -> (r: Parameters)
    ensures
        parameters_m(r) == no_parameters(*n),
{
    let args: Vec<Parameter> = Vec::new();
    let kwonlyargs: Vec<Parameter> = Vec::new();
    let posonlyargs: Vec<Parameter> = Vec::new();
    proof {
        assert(params_m(args@) =~= Seq::<ParameterM>::empty());
        assert(params_m(kwonlyargs@) =~= Seq::<ParameterM>::empty());
        assert(params_m(posonlyargs@) =~= Seq::<ParameterM>::empty());
    }
    Parameters { args, vararg: None, kwonlyargs, kwarg: None, posonlyargs, range: node_range(n) }
}

#[verifier::spinoff_prover]
fn build_function_def(n: &SyntaxNode, decorators: Vec<Expr>, is_async: bool) -> (r: StmtFunctionDef)
    ensures
        function_def_m(r) == function_def_of(*n, exprs_m(decorators@), is_async),
    decreases n, 5int,
{
    let name = child_text_by_field_or_empty(n, "name");
    let parameters = match child_index_by_field(n, "parameters") {
        Some(i) => parse_parameters(&n.children[i]),
        None => no_params(n),
    };
    let annotation = box_opt(parse_field_expr(n, "return_type"));
    let body = parse_field_block(n, "body");
    StmtFunctionDef { name, parameters, body, decorator_list: decorators, returns: annotation, is_async, range: node_range(n) }
}

#[verifier::spinoff_prover]
fn build_class_def(n: &SyntaxNode, decorators: Vec<Expr>) -> (r: StmtClassDef)
    ensures
        class_def_m(r) == class_def_of(*n, exprs_m(decorators@)),
    decreases n, 5int,
{
    let name = child_text_by_field_or_empty(n, "name");
    let arguments = match child_index_by_field(n, "superclasses") {
        Some(i) => Some(Box::new(parse_arguments(&n.children[i]))),
        None => None,
    };
    let body = parse_field_block(n, "body");
    StmtClassDef { name, arguments, body, decorator_list: decorators, range: node_range(n) }
}

/// The index of the first function or class definition among `cs`, with the
/// decorators that come before it.
#[verifier::spinoff_prover]
fn find_definition(cs: &Vec<SyntaxNode>) -> (r: (Option<usize>, Vec<Expr>))
    ensures
        match r.0 {
            Some(d) => definition_index(cs@) == Some(d as int) && d < cs@.len()
                && exprs_m(r.1@) == decorators_before(cs@, d as int),
            None => definition_index(cs@) is None,
        },
{
    let ghost p = definition_pred();
    let mut decorators = empty_exprs();
    let mut i: usize = 0;
    while i < cs.len() && !(is_kind(&cs[i], "function_definition") || is_kind(&cs[i], "class_definition"))
        invariant
            p == definition_pred(),
            i <= cs@.len(),
            exprs_m(decorators@) == decorators_before(cs@, i as int),
            forall|j: int| 0 <= j < i ==> !p(#[trigger] cs@[j]),
        decreases cs@.len() - i,
    {
        let c = &cs[i];
        if is_kind(c, "decorator") {
            match parse_child_expr(c, 1) {
                Some(e) => {
                    proof { lemma_exprs_m_push(decorators@, e); }
                    decorators.push(e);
                },
                None => {},
            }
        }
        i = i + 1;
    }
    proof { lemma_first_index_is(cs@, p, i as int); }
    if i < cs.len() { (Some(i), decorators) } else { (None, decorators) }
}

#[verifier::spinoff_prover]
fn parse_function(n: &SyntaxNode) -> (r: Option<Stmt>)
    ensures
        opt_stmt_m(r) == function_of(*n),
    decreases n, 6int,
{
    if is_kind(n, "decorated_definition") {
        let (d, decorators) = find_definition(&n.children);
        match d {
            Some(d) => {
                let c = &n.children[d];
                if is_kind(c, "function_definition") {
                    Some(Stmt::FunctionDef(build_function_def(c, decorators, false)))
                } else {
                    Some(Stmt::ClassDef(build_class_def(c, decorators)))
                }
            },
            None => None,
        }
    } else {
        let is_async = is_async_exec(n);
        let f = build_function_def(n, empty_exprs(), is_async);
        Some(Stmt::FunctionDef(f))
    }
}

fn single_expr(e: Expr) -> (r: Vec<Expr>)
    ensures
        exprs_m(r@) == seq![expr_m(e)],
{
    let mut v = empty_exprs();
    proof { lemma_exprs_m_push(v@, e); }
    v.push(e);
    v
}

#[verifier::spinoff_prover]
fn parse_assignment(n: &SyntaxNode) -> (r: Option<Stmt>)
    ensures
        opt_stmt_m(r) == assignment_of(*n),
{
    let left = parse_field_expr(n, "left");
    let right = parse_field_expr(n, "right");
    match child_index_by_field(n, "type") {
        Some(t) => match left {
            None => None,
            Some(target) => match parse_child_expr(n, t) {
                None => None,
                Some(annotation) => Some(Stmt::AnnAssign(StmtAnnAssign {
                    target: Box::new(target),
                    annotation: Box::new(annotation),
                    value: box_opt(right),
                    range: node_range(n),
                })),
            },
        },
        None => match (left, right) {
            (Some(target), Some(value)) => Some(Stmt::Assign(StmtAssign {
                targets: single_expr(target),
                value: Box::new(value),
                range: node_range(n),
            })),
            _ => None,
        },
    }
}

#[verifier::spinoff_prover]
fn parse_aug_assignment(n: &SyntaxNode) -> (r: Option<Stmt>)
    ensures
        opt_stmt_m(r) == aug_assignment_of(*n),
{
    let left = parse_field_expr(n, "left");
    let right = parse_field_expr(n, "right");
    match (left, right) {
        (Some(target), Some(value)) => {
            let op = match child_text_by_field(n, "operator") {
                Some(t) => augop_exec(t.as_str()),
                None => Operator::Add,
            };
            Some(Stmt::AugAssign(StmtAugAssign { target: Box::new(target), op, value: Box::new(value), range: node_range(n) }))
        },
        _ => None,
    }
}

#[verifier::spinoff_prover]
fn parse_expr_stmt(n: &SyntaxNode) -> (r: Option<Stmt>)
    ensures
        opt_stmt_m(r) == expr_stmt_of(*n),
{
    if n.children.len() == 0 {
        return None;
    }
    let c = &n.children[0];
    if is_kind(c, "assignment") {
        parse_assignment(c)
    } else if is_kind(c, "augmented_assignment") {
        parse_aug_assignment(c)
    } else {
        match parse_expr(c) {
            Some(e) => Some(Stmt::Expr(StmtExpr { value: Box::new(e), range: node_range(n) })),
            None => None,
        }
    }
}

#[verifier::spinoff_prover]
fn parse_clauses(n: &SyntaxNode) -> (r: Vec<ElifElseClause>)
    ensures
        clauses_m(r@) == clauses_fold(n.children@),
    decreases n, 5int,
{
    let mut out: Vec<ElifElseClause> = Vec::new();
    assert(clauses_m(out@) =~= Seq::<ClauseM>::empty());
    let mut i: usize = 0;
    while i < n.children.len()
        invariant
            i <= n.children@.len(),
            clauses_m(out@) == clauses_fold(n.children@.subrange(0, i as int)),
        decreases n.children@.len() - i,
    {
        let c = &n.children[i];
        proof { lemma_prefix(n.children@, i as int); }
        if is_kind(c, "elif_clause") {
            let cl = ElifElseClause { test: parse_field_expr(c, "condition"), body: parse_field_block(c, "consequence"), range: node_range(c) };
            proof { lemma_clauses_m_push(out@, cl); }
            out.push(cl);
        } else if is_kind(c, "else_clause") {
            let cl = ElifElseClause { test: None, body: parse_field_block(c, "body"), range: node_range(c) };
            proof { lemma_clauses_m_push(out@, cl); }
            out.push(cl);
        }
        i = i + 1;
    }
    assert(n.children@.subrange(0, n.children@.len() as int) == n.children@);
    out
}

#[verifier::spinoff_prover]
fn with_items_in(c: &SyntaxNode, out: &mut Vec<WithItem>)
    ensures
        with_items_m(final(out)@) == with_items_m(old(out)@) + with_items_fold(c.children@),
{
    let ghost base = with_items_m(out@);
    let mut i: usize = 0;
    assert(with_items_fold(c.children@.subrange(0, 0)) =~= Seq::<WithItemM>::empty());
    assert(base + Seq::<WithItemM>::empty() =~= base);
    while i < c.children.len()
        invariant
            i <= c.children@.len(),
            with_items_m(out@) == base + with_items_fold(c.children@.subrange(0, i as int)),
        decreases c.children@.len() - i,
    {
        let item = &c.children[i];
        proof { lemma_prefix(c.children@, i as int); }
        if is_kind(item, "with_item") {
            match parse_field_expr(item, "value") {
                Some(e) => {
                    let w = WithItem { context_expr: e, optional_vars: parse_field_expr(item, "alias"), range: node_range(item) };
                    proof {
                        lemma_with_items_m_push(out@, w);
                        assert(base + with_items_fold(c.children@.subrange(0, i as int)).push(with_item_m(w))
                            =~= (base + with_items_fold(c.children@.subrange(0, i as int))).push(with_item_m(w)));
                    }
                    out.push(w);
                },
                None => {},
            }
        }
        i = i + 1;
    }
    assert(c.children@.subrange(0, c.children@.len() as int) == c.children@);
}

#[verifier::spinoff_prover]
fn parse_with_items(n: &SyntaxNode) -> (r: Vec<WithItem>)
    ensures
        with_items_m(r@) == with_items_of(*n),
{
    let ghost cs = n.children@;
    let mut items: Vec<WithItem> = Vec::new();
    assert(with_items_m(items@) =~= Seq::<WithItemM>::empty());
    let mut i: usize = 0;
    while i < n.children.len()
        invariant
            cs == n.children@,
            i <= cs.len(),
            with_items_m(items@) == with_clauses_fold(cs.subrange(0, i as int)),
        decreases cs.len() - i,
    {
        let c = &n.children[i];
        proof { lemma_prefix(cs, i as int); }
        if is_kind(c, "with_clause") {
            with_items_in(c, &mut items);
        }
        i = i + 1;
    }
    assert(cs.subrange(0, cs.len() as int) == cs);
    proof { lemma_with_items_m_len(items@); }
    if items.len() > 0 {
        return items;
    }
    match first_expr_with_item(&n.children) {
        Some(w) => {
            proof {
                assert(with_items_m(items@) =~= Seq::<WithItemM>::empty());
                lemma_with_items_m_push(items@, w);
            }
            items.push(w);
        },
        None => {
            assert(with_items_m(items@) =~= Seq::<WithItemM>::empty());
        },
    }
    items
}

#[verifier::spinoff_prover]
fn first_expr_with_item(cs: &Vec<SyntaxNode>) -> (r: Option<WithItem>)
    ensures
        match r {
            Some(w) => first_expr_item(cs@) == Some(with_item_m(w)),
            None => first_expr_item(cs@) is None,
        },
{
    let ghost p = expr_pred();
    let mut k: usize = 0;
    while k < cs.len()
        invariant
            p == expr_pred(),
            k <= cs@.len(),
            forall|j: int| 0 <= j < k ==> !p(#[trigger] cs@[j]),
        decreases cs@.len() - k,
    {
        match parse_expr(&cs[k]) {
            Some(e) => {
                proof { lemma_first_index_is(cs@, p, k as int); }
                return Some(WithItem { context_expr: e, optional_vars: None, range: node_range(&cs[k]) });
            },
            None => {},
        }
        k = k + 1;
    }
    proof { lemma_first_index_is(cs@, p, cs@.len() as int); }
    None
}

#[verifier::spinoff_prover]
fn parse_raise(n: &SyntaxNode) -> (r: Stmt)
    ensures
        stmt_m(r) == (StmtM::Raise { exc: boxed(raise_fold(n.children@).exc), cause: boxed(raise_fold(n.children@).cause), range: range_of(*n) }),
{
    let mut exc: Option<Expr> = None;
    let mut cause: Option<Expr> = None;
    let mut seen_from = false;
    let mut i: usize = 0;
    while i < n.children.len()
        invariant
            i <= n.children@.len(),
            raise_fold(n.children@.subrange(0, i as int)) == (RaiseAcc { exc: opt_expr_m(exc), cause: opt_expr_m(cause), seen_from }),
        decreases n.children@.len() - i,
    {
        let c = &n.children[i];
        proof { lemma_prefix(n.children@, i as int); }
        if is_kind(c, "from") {
            seen_from = true;
        } else if is_kind(c, "raise") {
        } else {
            match parse_expr(c) {
                Some(e) => {
                    if seen_from {
                        cause = Some(e);
                    } else {
                        exc = Some(e);
                    }
                },
                None => {},
            }
        }
        i = i + 1;
    }
    assert(n.children@.subrange(0, n.children@.len() as int) == n.children@);
    Stmt::Raise(StmtRaise { exc: box_opt(exc), cause: box_opt(cause), range: node_range(n) })
}

#[verifier::spinoff_prover]
fn parse_handler_head(c: &SyntaxNode) -> (r: (Option<Expr>, Option<String>))
    ensures
        (opt_expr_m(r.0), opt_str_m(r.1)) == handler_head(*c),
{
    match child_index_by_field(c, "value") {
        Some(vi) => {
            let v = &c.children[vi];
            if is_kind(v, "as_pattern") {
                let ghost p = as_type_pred();
                let mut k: usize = 0;
                while k < v.children.len() && !(v.children[k].named && !is_kind(&v.children[k], "as_pattern_target"))
                    invariant
                        p == as_type_pred(),
                        k <= v.children@.len(),
                        forall|j: int| 0 <= j < k ==> !p(#[trigger] v.children@[j]),
                    decreases v.children@.len() - k,
                {
                    k = k + 1;
                }
                proof { lemma_first_index_is(v.children@, p, k as int); }
                let t = if k < v.children.len() { parse_child_expr(v, k) } else { None };
                let name = match child_index_by_kind(v, "as_pattern_target") {
                    Some(j) => if v.children[j].children.len() > 0 {
                        Some(v.children[j].children[0].text.clone())
                    } else {
                        None
                    },
                    None => None,
                };
                (t, name)
            } else {
                (parse_expr(v), None)
            }
        },
        None => (None, None),
    }
}

#[verifier::spinoff_prover]
fn parse_handler_body(c: &SyntaxNode) -> (r: Vec<Stmt>)
    ensures
        stmts_m(r@) == handler_body(*c),
    decreases c, 4int,
{
    match child_index_by_field(c, "body") {
        Some(i) => parse_block(&c.children[i]),
        None => match child_index_by_kind(c, "block") {
            Some(i) => parse_block(&c.children[i]),
            None => empty_stmts(),
        },
    }
}

#[verifier::spinoff_prover]
fn parse_handler(c: &SyntaxNode) -> (r: ExceptHandler)
    ensures
        handler_m(r) == handler_of(*c),
    decreases c, 5int,
{
    let (t, name) = parse_handler_head(c);
    let body = parse_handler_body(c);
    ExceptHandler { type_: box_opt(t), name, body, range: node_range(c) }
}

#[verifier::spinoff_prover]
fn parse_try(n: &SyntaxNode) -> (r: Stmt)
    ensures
        stmt_m(r) == ({
            let acc = try_fold(n.children@);
            StmtM::Try { body: acc.body, handlers: acc.handlers, orelse: acc.orelse, finalbody: acc.finalbody, range: range_of(*n) }
        }),
    decreases n, 6int,
{
    let mut body = empty_stmts();
    let mut handlers: Vec<ExceptHandler> = Vec::new();
    let mut orelse = empty_stmts();
    let mut finalbody = empty_stmts();
    assert(handlers_m(handlers@) =~= Seq::<ExceptHandlerM>::empty());
    let mut i: usize = 0;
    while i < n.children.len()
        invariant
            i <= n.children@.len(),
            try_fold(n.children@.subrange(0, i as int)) == (TryAcc {
                body: stmts_m(body@),
                handlers: handlers_m(handlers@),
                orelse: stmts_m(orelse@),
                finalbody: stmts_m(finalbody@),
            }),
        decreases n.children@.len() - i,
    {
        let c = &n.children[i];
        proof {
            lemma_prefix(n.children@, i as int);
            lemma_stmts_m_len(body@);
            lemma_handlers_m_len(handlers@);
        }
        if is_kind(c, "block") {
            if body.len() == 0 && handlers.len() == 0 {
                body = parse_block(c);
            }
        } else if is_kind(c, "except_clause") || is_kind(c, "except_group_clause") {
            let h = parse_handler(c);
            proof { lemma_handlers_m_push(handlers@, h); }
            handlers.push(h);
        } else if is_kind(c, "else_clause") {
            orelse = parse_field_block(c, "body");
        } else if is_kind(c, "finally_clause") {
            finalbody = parse_field_block(c, "body");
        }
        i = i + 1;
    }
    assert(n.children@.subrange(0, n.children@.len() as int) == n.children@);
    Stmt::Try(StmtTry { body, handlers, orelse, finalbody, range: node_range(n) })
}

#[verifier::spinoff_prover]
fn parse_assert(n: &SyntaxNode) -> (r: Option<Stmt>)
    ensures
        opt_stmt_m(r) == ({
            let es = exprs_of(n.children@);
            if es.len() > 0 {
                Some(StmtM::Assert { test: Box::new(es[0]), msg: if es.len() > 1 { Some(Box::new(es[1])) } else { None }, range: range_of(*n) })
            } else {
                None
            }
        }),
{
    let mut es = parse_exprs(&n.children);
    let ghost ev = es@;
    proof { lemma_exprs_m_len(ev); }
    if es.len() == 0 {
        return None;
    }
    proof {
        crate::parser::lemma_exprs_m_index(ev, 0);
        if ev.len() > 1 {
            crate::parser::lemma_exprs_m_index(ev, 1);
        }
    }
    let test = es.remove(0);
    let msg = if es.len() > 0 { Some(Box::new(es.remove(0))) } else { None };
    Some(Stmt::Assert(StmtAssert { test: Box::new(test), msg, range: node_range(n) }))
}

fn parse_alias(n: &SyntaxNode) -> (r: Alias)
    ensures
        alias_m(r) == alias_of(*n),
{
    if is_kind(n, "aliased_import") {
        Alias { name: child_text_by_field_or_empty(n, "name"), asname: child_text_by_field(n, "alias"), range: node_range(n) }
    } else {
        Alias { name: n.text.clone(), asname: None, range: node_range(n) }
    }
}

proof fn lemma_aliases_m_push(s: Seq<Alias>, a: Alias)
    ensures
        aliases_m(s.push(a)) == aliases_m(s).push(alias_m(a)),
{
    assert(aliases_m(s.push(a)) =~= aliases_m(s).push(alias_m(a)));
}

#[verifier::spinoff_prover]
fn parse_import_names(n: &SyntaxNode) -> (r: Vec<Alias>)
    ensures
        aliases_m(r@) == import_names(n.children@),
{
    let mut out: Vec<Alias> = Vec::new();
    assert(aliases_m(out@) =~= Seq::<AliasM>::empty());
    let mut i: usize = 0;
    while i < n.children.len()
        invariant
            i <= n.children@.len(),
            aliases_m(out@) == import_names(n.children@.subrange(0, i as int)),
        decreases n.children@.len() - i,
    {
        let c = &n.children[i];
        proof { lemma_prefix(n.children@, i as int); }
        if is_kind(c, "dotted_name") || is_kind(c, "aliased_import") {
            let a = parse_alias(c);
            proof { lemma_aliases_m_push(out@, a); }
            out.push(a);
        }
        i = i + 1;
    }
    assert(n.children@.subrange(0, n.children@.len() as int) == n.children@);
    out
}

fn star_alias(c: &SyntaxNode) -> (r: Alias)
    ensures
        alias_m(r) == (AliasM { name: seq!['*'], asname: None, range: range_of(*c) }),
{
    let mut name = String::new();
    crate::text::push_char(&mut name, '*');
    assert(name@ =~= seq!['*']);
    Alias { name, asname: None, range: node_range(c) }
}

fn is_name_field(c: &SyntaxNode) -> (b: bool)
    ensures
        b == has_field(*c, name_field()),
{
    proof { reveal_strlit("name"); assert("name"@ =~= name_field()); }
    match &c.field {
        Some(f) => str_eq(f.as_str(), "name"),
        None => false,
    }
}

#[verifier::spinoff_prover]
fn parse_from_names(n: &SyntaxNode) -> (r: Vec<Alias>)
    ensures
        aliases_m(r@) == from_import_names(n.children@),
{
    let mut out: Vec<Alias> = Vec::new();
    assert(aliases_m(out@) =~= Seq::<AliasM>::empty());
    let mut i: usize = 0;
    while i < n.children.len()
        invariant
            i <= n.children@.len(),
            aliases_m(out@) == from_import_names(n.children@.subrange(0, i as int)),
        decreases n.children@.len() - i,
    {
        let c = &n.children[i];
        proof { lemma_prefix(n.children@, i as int); }
        if is_name_field(c) {
            if is_kind(c, "dotted_name") {
                let a = Alias { name: c.text.clone(), asname: None, range: node_range(c) };
                proof { lemma_aliases_m_push(out@, a); }
                out.push(a);
            } else if is_kind(c, "aliased_import") {
                let a = parse_alias(c);
                proof { lemma_aliases_m_push(out@, a); }
                out.push(a);
            }
        }
        if is_kind(c, "wildcard_import") {
            let a = star_alias(c);
            proof { lemma_aliases_m_push(out@, a); }
            out.push(a);
        }
        i = i + 1;
    }
    assert(n.children@.subrange(0, n.children@.len() as int) == n.children@);
    out
}

fn module_after_dots_exec(t: &str) -> (r: (u32, Option<String>))
    ensures
        r.0 == leading_count(t@, '.') as u32,
        opt_str_m(r.1) == module_after_dots(t@),
{
    let (level, rest) = split_leading(t, '.');
    if rest.as_str().is_empty() {
        (level, None)
    } else {
        (level, Some(rest))
    }
}

#[verifier::spinoff_prover]
fn parse_from_module(n: &SyntaxNode) -> (r: (Option<String>, u32))
    ensures
        opt_str_m(r.0) == from_fold(n.children@, from_head(*n)).module,
        r.1 == from_fold(n.children@, from_head(*n)).level,
{
    let ghost head = from_head(*n);
    let (mut module, mut level) = match child_text_by_field(n, "module_name") {
        Some(t) => {
            let (l, m) = module_after_dots_exec(t.as_str());
            (m, l)
        },
        None => (None, 0u32),
    };
    let mut i: usize = 0;
    while i < n.children.len()
        invariant
            i <= n.children@.len(),
            head == from_head(*n),
            from_fold(n.children@.subrange(0, i as int), head) == (FromAcc { module: opt_str_m(module), level }),
        decreases n.children@.len() - i,
    {
        let c = &n.children[i];
        proof {
            lemma_prefix(n.children@, i as int);
            assert(n.children@.subrange(0, i + 1).subrange(0, i as int) == n.children@.subrange(0, i as int));
        }
        if is_kind(c, "import_prefix") {
            level = count_char(c.text.as_str(), '.');
        } else if is_kind(c, "relative_import") {
            let (l, m) = module_after_dots_exec(c.text.as_str());
            level = l;
            match m {
                Some(x) => { module = Some(x); },
                None => {},
            }
        }
        i = i + 1;
    }
    assert(n.children@.subrange(0, n.children@.len() as int) == n.children@);
    (module, level)
}

#[verifier::spinoff_prover]
fn parse_identifier_names(n: &SyntaxNode) -> (r: Vec<String>)
    ensures
        strs_m(r@) == identifier_names(n.children@),
{
    let mut out: Vec<String> = Vec::new();
    assert(strs_m(out@) =~= Seq::<Seq<char>>::empty());
    let mut i: usize = 0;
    while i < n.children.len()
        invariant
            i <= n.children@.len(),
            strs_m(out@) == identifier_names(n.children@.subrange(0, i as int)),
        decreases n.children@.len() - i,
    {
        let c = &n.children[i];
        proof { lemma_prefix(n.children@, i as int); }
        if is_kind(c, "identifier") {
            let t = c.text.clone();
            proof { assert(strs_m(out@.push(t)) =~= strs_m(out@).push(t@)); }
            out.push(t);
        }
        i = i + 1;
    }
    assert(n.children@.subrange(0, n.children@.len() as int) == n.children@);
    out
}

fn is_async_exec(n: &SyntaxNode) -> (b: bool)
    ensures
        b == is_async_text(*n),
{
    proof { reveal_strlit("async"); assert("async"@ =~= async_word()); }
    starts_with(n.text.as_str(), "async")
}

#[verifier::spinoff_prover]
fn parse_loop(n: &SyntaxNode) -> (r: Option<Stmt>)
    ensures
        opt_stmt_m(r) == (match (field_expr(*n, "left"), field_expr(*n, "right")) {
            (Some(t), Some(i)) => Some(StmtM::For {
                target: Box::new(t),
                iter: Box::new(i),
                body: field_block(*n, "body"),
                orelse: field_block(*n, "alternative"),
                is_async: is_async_text(*n),
                range: range_of(*n),
            }),
            _ => None,
        }),
    decreases n, 5int,
{
    let t = parse_field_expr(n, "left");
    let it = parse_field_expr(n, "right");
    match (t, it) {
        (Some(t), Some(it)) => {
            let body = parse_field_block(n, "body");
            let orelse = parse_field_block(n, "alternative");
            Some(Stmt::For(StmtFor { target: Box::new(t), iter: Box::new(it), body, orelse, is_async: is_async_exec(n), range: node_range(n) }))
        },
        _ => None,
    }
}

#[verifier::spinoff_prover]
fn parse_while(n: &SyntaxNode) -> (r: Option<Stmt>)
    ensures
        opt_stmt_m(r) == (match field_expr(*n, "condition") {
            Some(t) => Some(StmtM::While { test: Box::new(t), body: field_block(*n, "body"), orelse: field_block(*n, "alternative"), range: range_of(*n) }),
            None => None,
        }),
    decreases n, 5int,
{
    match parse_field_expr(n, "condition") {
        Some(t) => {
            let body = parse_field_block(n, "body");
            let orelse = parse_field_block(n, "alternative");
            Some(Stmt::While(StmtWhile { test: Box::new(t), body, orelse, range: node_range(n) }))
        },
        None => None,
    }
}

#[verifier::spinoff_prover]
fn parse_if(n: &SyntaxNode) -> (r: Option<Stmt>)
    ensures
        opt_stmt_m(r) == (match field_expr(*n, "condition") {
            Some(t) => Some(StmtM::If { test: Box::new(t), body: field_block(*n, "consequence"), elif_else_clauses: clauses_fold(n.children@), range: range_of(*n) }),
            None => None,
        }),
    decreases n, 6int,
{
    match parse_field_expr(n, "condition") {
        Some(t) => {
            let body = parse_field_block(n, "consequence");
            let clauses = parse_clauses(n);
            Some(Stmt::If(StmtIf { test: Box::new(t), body, elif_else_clauses: clauses, range: node_range(n) }))
        },
        None => None,
    }
}

#[verifier::spinoff_prover]
fn parse_with(n: &SyntaxNode) -> (r: Stmt)
    ensures
        stmt_m(r) == (StmtM::With { items: with_items_of(*n), body: field_block(*n, "body"), is_async: is_async_text(*n), range: range_of(*n) }),
    decreases n, 5int,
{
    let items = parse_with_items(n);
    let body = parse_field_block(n, "body");
    Stmt::With(StmtWith { items, body, is_async: is_async_exec(n), range: node_range(n) })
}

#[verifier::spinoff_prover]
fn parse_import_from(n: &SyntaxNode) -> (r: Stmt)
    ensures
        stmt_m(r) == ({
            let acc = from_fold(n.children@, from_head(*n));
            StmtM::ImportFrom { module: acc.module, names: from_import_names(n.children@), level: acc.level, range: range_of(*n) }
        }),
{
    let (module, level) = parse_from_module(n);
    let names = parse_from_names(n);
    Stmt::ImportFrom(StmtImportFrom { module, names, level, range: node_range(n) })
}

/// Parses one node as a statement: `None` where the node is no statement this
/// library models, or where a part that it needs does not parse.
#[verifier::spinoff_prover]
pub fn parse_stmt(n: &SyntaxNode) -> (r: Option<Stmt>)
    ensures
        opt_stmt_m(r) == stmt_of(*n),
    decreases n, 7int,
{
    reveal(stmt_of);
    let r = node_range(n);
    if is_kind(n, "function_definition") || is_kind(n, "decorated_definition") {
        parse_function(n)
    } else if is_kind(n, "class_definition") {
        Some(Stmt::ClassDef(build_class_def(n, empty_exprs())))
    } else if is_kind(n, "return_statement") {
        Some(Stmt::Return(StmtReturn { value: box_opt(parse_child_expr(n, 1)), range: r }))
    } else if is_kind(n, "expression_statement") {
        parse_expr_stmt(n)
    } else if is_kind(n, "assignment") {
        parse_assignment(n)
    } else if is_kind(n, "augmented_assignment") {
        parse_aug_assignment(n)
    } else if is_kind(n, "for_statement") {
        parse_loop(n)
    } else if is_kind(n, "while_statement") {
        parse_while(n)
    } else if is_kind(n, "if_statement") {
        parse_if(n)
    } else if is_kind(n, "with_statement") {
        Some(parse_with(n))
    } else if is_kind(n, "raise_statement") {
        Some(parse_raise(n))
    } else if is_kind(n, "try_statement") {
        Some(parse_try(n))
    } else if is_kind(n, "assert_statement") {
        parse_assert(n)
    } else if is_kind(n, "import_statement") {
        Some(Stmt::Import(StmtImport { names: parse_import_names(n), range: r }))
    } else if is_kind(n, "import_from_statement") {
        Some(parse_import_from(n))
    } else if is_kind(n, "global_statement") {
        Some(Stmt::Global(StmtGlobal { names: parse_identifier_names(n), range: r }))
    } else if is_kind(n, "nonlocal_statement") {
        Some(Stmt::Nonlocal(StmtNonlocal { names: parse_identifier_names(n), range: r }))
    } else if is_kind(n, "pass_statement") {
        Some(Stmt::Pass(StmtPass { range: r }))
    } else if is_kind(n, "break_statement") {
        Some(Stmt::Break(StmtBreak { range: r }))
    } else if is_kind(n, "continue_statement") {
        Some(Stmt::Continue(StmtContinue { range: r }))
    } else if is_kind(n, "delete_statement") {
        Some(Stmt::Delete(StmtDelete { targets: parse_exprs(&n.children), range: r }))
    } else {
        None
    }
}

/// The module that a root node gives: its children parsed as statements.
pub fn module_from_syntax(root: &SyntaxNode) -> (r: Module)
    ensures
        module_m(r) == module_of(*root),
{
    Module { body: parse_body(&root.children), range: node_range(root) }
}

} // verus!
