//! What a walk over the AST visits below each statement and each expression,
//! and in which order. A visitor visits each expression it is handed and each
//! block of statements; the walk that drives it follows these lists.

use vstd::prelude::*;
use crate::ast::{
    Comprehension, DictItem, ElifElseClause, ExceptHandler, Expr, FStringPart, Keyword, Parameter,
    Parameters, Stmt, WithItem,
};

verus! {

/// One thing a walk visits: an expression, or a block of statements.
pub enum Visit<'a> {
    Expr(&'a Expr),
    Body(&'a Vec<Stmt>),
}

/// The model of a visit.
pub ghost enum VisitM {
    Expr(Expr),
    Body(Seq<Stmt>),
}

pub open spec fn visit_m(v: Visit) -> VisitM {
    match v {
        Visit::Expr(e) => VisitM::Expr(*e),
        Visit::Body(b) => VisitM::Body(b@),
    }
}

pub open spec fn visits_m(s: Seq<Visit>) -> Seq<VisitM> {
    s.map_values(|v: Visit| visit_m(v))
}

/// Each expression, in order.
pub open spec fn expr_list(es: Seq<Expr>) -> Seq<VisitM> {
    es.map_values(|e: Expr| VisitM::Expr(e))
}

/// The expression, if there is one.
pub open spec fn opt_box(e: Option<Box<Expr>>) -> Seq<VisitM> {
    match e {
        Some(b) => seq![VisitM::Expr(*b)],
        None => Seq::empty(),
    }
}

/// The expression, if there is one.
pub open spec fn opt_expr(e: Option<Expr>) -> Seq<VisitM> {
    match e {
        Some(x) => seq![VisitM::Expr(x)],
        None => Seq::empty(),
    }
}

/// The value of each keyword argument.
pub open spec fn keyword_values(ks: Seq<Keyword>) -> Seq<VisitM> {
    ks.map_values(|k: Keyword| VisitM::Expr(k.value))
}

/// The annotation and the default of each parameter, where it has them.
pub open spec fn parameter_visits(ps: Seq<Parameter>) -> Seq<VisitM>
    decreases ps.len(),
{
    if ps.len() == 0 {
        Seq::empty()
    } else {
        parameter_visits(ps.drop_last()) + opt_box(ps.last().annotation) + opt_box(ps.last().default)
    }
}

/// The annotations and defaults of a parameter list: the positional, the keyword-only
/// and the positional-only parameters, then the annotations of `*args` and `**kwargs`.
pub open spec fn parameters_visits(p: Parameters) -> Seq<VisitM> {
    parameter_visits(p.args@) + parameter_visits(p.kwonlyargs@) + parameter_visits(p.posonlyargs@)
        + (match p.vararg { Some(v) => opt_box(v.annotation), None => Seq::empty() })
        + (match p.kwarg { Some(k) => opt_box(k.annotation), None => Seq::empty() })
}

/// The target, the iterable and the conditions of each generator.
pub open spec fn generator_visits(gs: Seq<Comprehension>) -> Seq<VisitM>
    decreases gs.len(),
{
    if gs.len() == 0 {
        Seq::empty()
    } else {
        let g = gs.last();
        generator_visits(gs.drop_last()) + seq![VisitM::Expr(g.target), VisitM::Expr(g.iter)] + expr_list(g.ifs@)
    }
}

/// The key, where there is one, and the value of each dictionary entry.
pub open spec fn dict_visits(items: Seq<DictItem>) -> Seq<VisitM>
    decreases items.len(),
{
    if items.len() == 0 {
        Seq::empty()
    } else {
        dict_visits(items.drop_last()) + opt_expr(items.last().key) + seq![VisitM::Expr(items.last().value)]
    }
}

/// The expression of each interpolated part of an f-string.
pub open spec fn fstring_visits(parts: Seq<FStringPart>) -> Seq<VisitM>
    decreases parts.len(),
{
    if parts.len() == 0 {
        Seq::empty()
    } else {
        fstring_visits(parts.drop_last()) + match parts.last() {
            FStringPart::Expression(x) => seq![VisitM::Expr(*x.value)],
            FStringPart::Literal(_) => Seq::empty(),
        }
    }
}

/// The condition, where there is one, and the block of each `elif`/`else` clause.
pub open spec fn clause_visits(cs: Seq<ElifElseClause>) -> Seq<VisitM>
    decreases cs.len(),
{
    if cs.len() == 0 {
        Seq::empty()
    } else {
        clause_visits(cs.drop_last()) + opt_expr(cs.last().test) + seq![VisitM::Body(cs.last().body@)]
    }
}

/// The context expression and the target, where there is one, of each with-item.
pub open spec fn with_visits(items: Seq<WithItem>) -> Seq<VisitM>
    decreases items.len(),
{
    if items.len() == 0 {
        Seq::empty()
    } else {
        with_visits(items.drop_last()) + seq![VisitM::Expr(items.last().context_expr)] + opt_expr(items.last().optional_vars)
    }
}

/// The exception type, where there is one, and the block of each handler.
pub open spec fn handler_visits(hs: Seq<ExceptHandler>) -> Seq<VisitM>
    decreases hs.len(),
{
    if hs.len() == 0 {
        Seq::empty()
    } else {
        handler_visits(hs.drop_last()) + opt_box(hs.last().type_) + seq![VisitM::Body(hs.last().body@)]
    }
}

/// What a walk visits directly below an expression, in order.
pub open spec fn expr_visits(e: Expr) -> Seq<VisitM> {
    match e {
        Expr::BoolOp(x) => expr_list(x.values@),
        Expr::Named(x) => seq![VisitM::Expr(*x.target), VisitM::Expr(*x.value)],
        Expr::BinOp(x) => seq![VisitM::Expr(*x.left), VisitM::Expr(*x.right)],
        Expr::UnaryOp(x) => seq![VisitM::Expr(*x.operand)],
        Expr::Lambda(x) => (match x.parameters { Some(p) => parameters_visits(*p), None => Seq::empty() })
            + seq![VisitM::Expr(*x.body)],
        Expr::If(x) => seq![VisitM::Expr(*x.test), VisitM::Expr(*x.body), VisitM::Expr(*x.orelse)],
        Expr::Dict(x) => dict_visits(x.items@),
        Expr::SetDisplay(x) => expr_list(x.elts@),
        Expr::ListComp(x) => seq![VisitM::Expr(*x.elt)] + generator_visits(x.generators@),
        Expr::SetComp(x) => seq![VisitM::Expr(*x.elt)] + generator_visits(x.generators@),
        Expr::DictComp(x) => seq![VisitM::Expr(*x.key), VisitM::Expr(*x.value)] + generator_visits(x.generators@),
        Expr::Generator(x) => seq![VisitM::Expr(*x.elt)] + generator_visits(x.generators@),
        Expr::Await(x) => seq![VisitM::Expr(*x.value)],
        Expr::Yield(x) => opt_box(x.value),
        Expr::YieldFrom(x) => seq![VisitM::Expr(*x.value)],
        Expr::Compare(x) => seq![VisitM::Expr(*x.left)] + expr_list(x.comparators@),
        Expr::Call(x) => seq![VisitM::Expr(*x.func)] + expr_list(x.arguments.args@) + keyword_values(x.arguments.keywords@),
        Expr::FString(x) => fstring_visits(x.parts@),
        Expr::Attribute(x) => seq![VisitM::Expr(*x.value)],
        Expr::Subscript(x) => seq![VisitM::Expr(*x.value), VisitM::Expr(*x.slice)],
        Expr::Starred(x) => seq![VisitM::Expr(*x.value)],
        Expr::List(x) => expr_list(x.elts@),
        Expr::Tuple(x) => expr_list(x.elts@),
        _ => Seq::empty(),
    }
}

/// What a walk visits directly below a statement, in order.
pub open spec fn stmt_visits(s: Stmt) -> Seq<VisitM> {
    match s {
        Stmt::FunctionDef(x) => expr_list(x.decorator_list@) + parameters_visits(x.parameters)
            + opt_box(x.returns) + seq![VisitM::Body(x.body@)],
        Stmt::ClassDef(x) => expr_list(x.decorator_list@)
            + (match x.arguments { Some(a) => expr_list(a.args@) + keyword_values(a.keywords@), None => Seq::empty() })
            + seq![VisitM::Body(x.body@)],
        Stmt::Return(x) => opt_box(x.value),
        Stmt::Assign(x) => expr_list(x.targets@) + seq![VisitM::Expr(*x.value)],
        Stmt::AnnAssign(x) => seq![VisitM::Expr(*x.target), VisitM::Expr(*x.annotation)] + opt_box(x.value),
        Stmt::AugAssign(x) => seq![VisitM::Expr(*x.target), VisitM::Expr(*x.value)],
        Stmt::For(x) => seq![VisitM::Expr(*x.target), VisitM::Expr(*x.iter), VisitM::Body(x.body@), VisitM::Body(x.orelse@)],
        Stmt::While(x) => seq![VisitM::Expr(*x.test), VisitM::Body(x.body@), VisitM::Body(x.orelse@)],
        Stmt::If(x) => seq![VisitM::Expr(*x.test), VisitM::Body(x.body@)] + clause_visits(x.elif_else_clauses@),
        Stmt::With(x) => with_visits(x.items@) + seq![VisitM::Body(x.body@)],
        Stmt::Raise(x) => opt_box(x.exc) + opt_box(x.cause),
        Stmt::Try(x) => seq![VisitM::Body(x.body@)] + handler_visits(x.handlers@) + seq![VisitM::Body(x.orelse@), VisitM::Body(x.finalbody@)],
        Stmt::Assert(x) => seq![VisitM::Expr(*x.test)] + opt_box(x.msg),
        Stmt::Expr(x) => seq![VisitM::Expr(*x.value)],
        Stmt::Delete(x) => expr_list(x.targets@),
        _ => Seq::empty(),
    }
}

fn push_visit<'a>(out: &mut Vec<Visit<'a>>, v: Visit<'a>)
    ensures
        visits_m(final(out)@) == visits_m(old(out)@).push(visit_m(v)),
{
    out.push(v);
    assert(visits_m(out@) =~= visits_m(old(out)@).push(visit_m(v)));
}

fn push_exprs<'a>(out: &mut Vec<Visit<'a>>, es: &'a Vec<Expr>)
    ensures
        visits_m(final(out)@) == visits_m(old(out)@) + expr_list(es@),
{
    let ghost base = visits_m(out@);
    let mut i: usize = 0;
    assert(base + expr_list(es@.take(0)) =~= base);
    while i < es.len()
        invariant
            i <= es@.len(),
            visits_m(out@) == base + expr_list(es@.take(i as int)),
        decreases es@.len() - i,
    {
        push_visit(out, Visit::Expr(&es[i]));
        assert(base + expr_list(es@.take(i + 1)) =~= base + expr_list(es@.take(i as int)) + seq![VisitM::Expr(es@[i as int])]);
        i = i + 1;
    }
    assert(es@.take(es@.len() as int) =~= es@);
}

fn push_opt_box<'a>(out: &mut Vec<Visit<'a>>, e: &'a Option<Box<Expr>>)
    ensures
        visits_m(final(out)@) == visits_m(old(out)@) + opt_box(*e),
{
    match e {
        Some(b) => {
            push_visit(out, Visit::Expr(b));
            assert(visits_m(out@) =~= visits_m(old(out)@) + opt_box(*e));
        },
        None => {
            assert(visits_m(out@) =~= visits_m(old(out)@) + opt_box(*e));
        },
    }
}

fn push_opt<'a>(out: &mut Vec<Visit<'a>>, e: &'a Option<Expr>)
    ensures
        visits_m(final(out)@) == visits_m(old(out)@) + opt_expr(*e),
{
    match e {
        Some(x) => {
            push_visit(out, Visit::Expr(x));
            assert(visits_m(out@) =~= visits_m(old(out)@) + opt_expr(*e));
        },
        None => {
            assert(visits_m(out@) =~= visits_m(old(out)@) + opt_expr(*e));
        },
    }
}

fn push_keywords<'a>(out: &mut Vec<Visit<'a>>, ks: &'a Vec<Keyword>)
    ensures
        visits_m(final(out)@) == visits_m(old(out)@) + keyword_values(ks@),
{
    let ghost base = visits_m(out@);
    let mut i: usize = 0;
    assert(base + keyword_values(ks@.take(0)) =~= base);
    while i < ks.len()
        invariant
            i <= ks@.len(),
            visits_m(out@) == base + keyword_values(ks@.take(i as int)),
        decreases ks@.len() - i,
    {
        push_visit(out, Visit::Expr(&ks[i].value));
        assert(base + keyword_values(ks@.take(i + 1)) =~= base + keyword_values(ks@.take(i as int)) + seq![VisitM::Expr(ks@[i as int].value)]);
        i = i + 1;
    }
    assert(ks@.take(ks@.len() as int) =~= ks@);
}

fn push_parameters<'a>(out: &mut Vec<Visit<'a>>, ps: &'a Vec<Parameter>)
    ensures
        visits_m(final(out)@) == visits_m(old(out)@) + parameter_visits(ps@),
{
    let ghost base = visits_m(out@);
    let mut i: usize = 0;
    assert(base + parameter_visits(ps@.take(0)) =~= base);
    while i < ps.len()
        invariant
            i <= ps@.len(),
            visits_m(out@) == base + parameter_visits(ps@.take(i as int)),
        decreases ps@.len() - i,
    {
        push_opt_box(out, &ps[i].annotation);
        push_opt_box(out, &ps[i].default);
        assert(ps@.take(i + 1).drop_last() =~= ps@.take(i as int));
        assert(base + parameter_visits(ps@.take(i + 1)) =~= base + parameter_visits(ps@.take(i as int))
            + opt_box(ps@[i as int].annotation) + opt_box(ps@[i as int].default));
        i = i + 1;
    }
    assert(ps@.take(ps@.len() as int) =~= ps@);
}

fn push_generators<'a>(out: &mut Vec<Visit<'a>>, gs: &'a Vec<Comprehension>)
    ensures
        visits_m(final(out)@) == visits_m(old(out)@) + generator_visits(gs@),
{
    let ghost base = visits_m(out@);
    let mut i: usize = 0;
    assert(base + generator_visits(gs@.take(0)) =~= base);
    while i < gs.len()
        invariant
            i <= gs@.len(),
            visits_m(out@) == base + generator_visits(gs@.take(i as int)),
        decreases gs@.len() - i,
    {
        let g = &gs[i];
        push_visit(out, Visit::Expr(&g.target));
        push_visit(out, Visit::Expr(&g.iter));
        push_exprs(out, &g.ifs);
        assert(gs@.take(i + 1).drop_last() =~= gs@.take(i as int));
        assert(base + generator_visits(gs@.take(i + 1)) =~= base + generator_visits(gs@.take(i as int))
            + seq![VisitM::Expr(g.target), VisitM::Expr(g.iter)] + expr_list(g.ifs@));
        i = i + 1;
    }
    assert(gs@.take(gs@.len() as int) =~= gs@);
}

fn push_dict_items<'a>(out: &mut Vec<Visit<'a>>, items: &'a Vec<DictItem>)
    ensures
        visits_m(final(out)@) == visits_m(old(out)@) + dict_visits(items@),
{
    let ghost base = visits_m(out@);
    let mut i: usize = 0;
    assert(base + dict_visits(items@.take(0)) =~= base);
    while i < items.len()
        invariant
            i <= items@.len(),
            visits_m(out@) == base + dict_visits(items@.take(i as int)),
        decreases items@.len() - i,
    {
        push_opt(out, &items[i].key);
        push_visit(out, Visit::Expr(&items[i].value));
        assert(items@.take(i + 1).drop_last() =~= items@.take(i as int));
        assert(base + dict_visits(items@.take(i + 1)) =~= base + dict_visits(items@.take(i as int))
            + opt_expr(items@[i as int].key) + seq![VisitM::Expr(items@[i as int].value)]);
        i = i + 1;
    }
    assert(items@.take(items@.len() as int) =~= items@);
}

fn push_fstring_parts<'a>(out: &mut Vec<Visit<'a>>, parts: &'a Vec<FStringPart>)
    ensures
        visits_m(final(out)@) == visits_m(old(out)@) + fstring_visits(parts@),
{
    let ghost base = visits_m(out@);
    let mut i: usize = 0;
    assert(base + fstring_visits(parts@.take(0)) =~= base);
    while i < parts.len()
        invariant
            i <= parts@.len(),
            visits_m(out@) == base + fstring_visits(parts@.take(i as int)),
        decreases parts@.len() - i,
    {
        let ghost before = visits_m(out@);
        match &parts[i] {
            FStringPart::Expression(x) => {
                push_visit(out, Visit::Expr(&x.value));
            },
            FStringPart::Literal(_) => {},
        }
        assert(parts@.take(i + 1).drop_last() =~= parts@.take(i as int));
        assert(visits_m(out@) =~= before + match parts@[i as int] {
            FStringPart::Expression(x) => seq![VisitM::Expr(*x.value)],
            FStringPart::Literal(_) => Seq::<VisitM>::empty(),
        });
        i = i + 1;
    }
    assert(parts@.take(parts@.len() as int) =~= parts@);
}

fn push_clauses<'a>(out: &mut Vec<Visit<'a>>, cs: &'a Vec<ElifElseClause>)
    ensures
        visits_m(final(out)@) == visits_m(old(out)@) + clause_visits(cs@),
{
    let ghost base = visits_m(out@);
    let mut i: usize = 0;
    assert(base + clause_visits(cs@.take(0)) =~= base);
    while i < cs.len()
        invariant
            i <= cs@.len(),
            visits_m(out@) == base + clause_visits(cs@.take(i as int)),
        decreases cs@.len() - i,
    {
        push_opt(out, &cs[i].test);
        push_visit(out, Visit::Body(&cs[i].body));
        assert(cs@.take(i + 1).drop_last() =~= cs@.take(i as int));
        assert(base + clause_visits(cs@.take(i + 1)) =~= base + clause_visits(cs@.take(i as int))
            + opt_expr(cs@[i as int].test) + seq![VisitM::Body(cs@[i as int].body@)]);
        i = i + 1;
    }
    assert(cs@.take(cs@.len() as int) =~= cs@);
}

fn push_with_items<'a>(out: &mut Vec<Visit<'a>>, items: &'a Vec<WithItem>)
    ensures
        visits_m(final(out)@) == visits_m(old(out)@) + with_visits(items@),
{
    let ghost base = visits_m(out@);
    let mut i: usize = 0;
    assert(base + with_visits(items@.take(0)) =~= base);
    while i < items.len()
        invariant
            i <= items@.len(),
            visits_m(out@) == base + with_visits(items@.take(i as int)),
        decreases items@.len() - i,
    {
        push_visit(out, Visit::Expr(&items[i].context_expr));
        push_opt(out, &items[i].optional_vars);
        assert(items@.take(i + 1).drop_last() =~= items@.take(i as int));
        assert(base + with_visits(items@.take(i + 1)) =~= base + with_visits(items@.take(i as int))
            + seq![VisitM::Expr(items@[i as int].context_expr)] + opt_expr(items@[i as int].optional_vars));
        i = i + 1;
    }
    assert(items@.take(items@.len() as int) =~= items@);
}

fn push_handlers<'a>(out: &mut Vec<Visit<'a>>, hs: &'a Vec<ExceptHandler>)
    ensures
        visits_m(final(out)@) == visits_m(old(out)@) + handler_visits(hs@),
{
    let ghost base = visits_m(out@);
    let mut i: usize = 0;
    assert(base + handler_visits(hs@.take(0)) =~= base);
    while i < hs.len()
        invariant
            i <= hs@.len(),
            visits_m(out@) == base + handler_visits(hs@.take(i as int)),
        decreases hs@.len() - i,
    {
        push_opt_box(out, &hs[i].type_);
        push_visit(out, Visit::Body(&hs[i].body));
        assert(hs@.take(i + 1).drop_last() =~= hs@.take(i as int));
        assert(base + handler_visits(hs@.take(i + 1)) =~= base + handler_visits(hs@.take(i as int))
            + opt_box(hs@[i as int].type_) + seq![VisitM::Body(hs@[i as int].body@)]);
        i = i + 1;
    }
    assert(hs@.take(hs@.len() as int) =~= hs@);
}

fn no_visits<'a>() -> (r: Vec<Visit<'a>>)
    ensures
        visits_m(r@) == Seq::<VisitM>::empty(),
{
    let v: Vec<Visit<'a>> = Vec::new();
    assert(visits_m(v@) =~= Seq::<VisitM>::empty());
    v
}

/// What a walk visits directly below an expression, in order.
#[verifier::spinoff_prover]
#[verifier::rlimit(40)]
pub fn expr_visits_of<'a>(e: &'a Expr) -> (r: Vec<Visit<'a>>)
    ensures
        visits_m(r@) == expr_visits(*e),
{
    let mut out = no_visits();
    match e {
        Expr::BoolOp(x) => { push_exprs(&mut out, &x.values); },
        Expr::Named(x) => { push_visit(&mut out, Visit::Expr(&x.target)); push_visit(&mut out, Visit::Expr(&x.value)); },
        Expr::BinOp(x) => { push_visit(&mut out, Visit::Expr(&x.left)); push_visit(&mut out, Visit::Expr(&x.right)); },
        Expr::UnaryOp(x) => { push_visit(&mut out, Visit::Expr(&x.operand)); },
        Expr::Lambda(x) => {
            let ghost a = visits_m(out@);
            match &x.parameters {
                Some(p) => { push_parameters_of(&mut out, p); },
                None => { assert(visits_m(out@) =~= a + Seq::<VisitM>::empty()); },
            }
            push_visit(&mut out, Visit::Expr(&x.body));
        },
        Expr::If(x) => {
            push_visit(&mut out, Visit::Expr(&x.test));
            push_visit(&mut out, Visit::Expr(&x.body));
            push_visit(&mut out, Visit::Expr(&x.orelse));
        },
        Expr::Dict(x) => { push_dict_items(&mut out, &x.items); },
        Expr::SetDisplay(x) => { push_exprs(&mut out, &x.elts); },
        Expr::ListComp(x) => { push_visit(&mut out, Visit::Expr(&x.elt)); push_generators(&mut out, &x.generators); },
        Expr::SetComp(x) => { push_visit(&mut out, Visit::Expr(&x.elt)); push_generators(&mut out, &x.generators); },
        Expr::DictComp(x) => {
            push_visit(&mut out, Visit::Expr(&x.key));
            push_visit(&mut out, Visit::Expr(&x.value));
            push_generators(&mut out, &x.generators);
        },
        Expr::Generator(x) => { push_visit(&mut out, Visit::Expr(&x.elt)); push_generators(&mut out, &x.generators); },
        Expr::Await(x) => { push_visit(&mut out, Visit::Expr(&x.value)); },
        Expr::Yield(x) => { push_opt_box(&mut out, &x.value); },
        Expr::YieldFrom(x) => { push_visit(&mut out, Visit::Expr(&x.value)); },
        Expr::Compare(x) => { push_visit(&mut out, Visit::Expr(&x.left)); push_exprs(&mut out, &x.comparators); },
        Expr::Call(x) => {
            push_visit(&mut out, Visit::Expr(&x.func));
            push_exprs(&mut out, &x.arguments.args);
            push_keywords(&mut out, &x.arguments.keywords);
        },
        Expr::FString(x) => { push_fstring_parts(&mut out, &x.parts); },
        Expr::Attribute(x) => { push_visit(&mut out, Visit::Expr(&x.value)); },
        Expr::Subscript(x) => { push_visit(&mut out, Visit::Expr(&x.value)); push_visit(&mut out, Visit::Expr(&x.slice)); },
        Expr::Starred(x) => { push_visit(&mut out, Visit::Expr(&x.value)); },
        Expr::List(x) => { push_exprs(&mut out, &x.elts); },
        Expr::Tuple(x) => { push_exprs(&mut out, &x.elts); },
        _ => {},
    }
    assert(visits_m(out@) =~= expr_visits(*e));
    out
}

fn push_parameters_of<'a>(out: &mut Vec<Visit<'a>>, p: &'a Parameters)
    ensures
        visits_m(final(out)@) == visits_m(old(out)@) + parameters_visits(*p),
{
    let ghost start = visits_m(out@);
    push_parameters(out, &p.args);
    push_parameters(out, &p.kwonlyargs);
    push_parameters(out, &p.posonlyargs);
    let ghost a = visits_m(out@);
    match &p.vararg {
        Some(v) => { push_opt_box(out, &v.annotation); },
        None => { assert(visits_m(out@) =~= a + Seq::<VisitM>::empty()); },
    }
    let ghost b = visits_m(out@);
    match &p.kwarg {
        Some(k) => { push_opt_box(out, &k.annotation); },
        None => { assert(visits_m(out@) =~= b + Seq::<VisitM>::empty()); },
    }
    assert(visits_m(out@) =~= start + parameters_visits(*p));
}

/// What a walk visits directly below a statement, in order.
#[verifier::spinoff_prover]
#[verifier::rlimit(40)]
pub fn stmt_visits_of<'a>(s: &'a Stmt) -> (r: Vec<Visit<'a>>)
    ensures
        visits_m(r@) == stmt_visits(*s),
{
    let mut out = no_visits();
    match s {
        Stmt::FunctionDef(x) => {
            push_exprs(&mut out, &x.decorator_list);
            push_parameters_of(&mut out, &x.parameters);
            push_opt_box(&mut out, &x.returns);
            push_visit(&mut out, Visit::Body(&x.body));
        },
        Stmt::ClassDef(x) => {
            push_exprs(&mut out, &x.decorator_list);
            let ghost a = visits_m(out@);
            match &x.arguments {
                Some(args) => {
                    push_exprs(&mut out, &args.args);
                    push_keywords(&mut out, &args.keywords);
                },
                None => { assert(visits_m(out@) =~= a + Seq::<VisitM>::empty()); },
            }
            push_visit(&mut out, Visit::Body(&x.body));
        },
        Stmt::Return(x) => { push_opt_box(&mut out, &x.value); },
        Stmt::Assign(x) => { push_exprs(&mut out, &x.targets); push_visit(&mut out, Visit::Expr(&x.value)); },
        Stmt::AnnAssign(x) => {
            push_visit(&mut out, Visit::Expr(&x.target));
            push_visit(&mut out, Visit::Expr(&x.annotation));
            push_opt_box(&mut out, &x.value);
        },
        Stmt::AugAssign(x) => { push_visit(&mut out, Visit::Expr(&x.target)); push_visit(&mut out, Visit::Expr(&x.value)); },
        Stmt::For(x) => {
            push_visit(&mut out, Visit::Expr(&x.target));
            push_visit(&mut out, Visit::Expr(&x.iter));
            push_visit(&mut out, Visit::Body(&x.body));
            push_visit(&mut out, Visit::Body(&x.orelse));
        },
        Stmt::While(x) => {
            push_visit(&mut out, Visit::Expr(&x.test));
            push_visit(&mut out, Visit::Body(&x.body));
            push_visit(&mut out, Visit::Body(&x.orelse));
        },
        Stmt::If(x) => {
            push_visit(&mut out, Visit::Expr(&x.test));
            push_visit(&mut out, Visit::Body(&x.body));
            push_clauses(&mut out, &x.elif_else_clauses);
        },
        Stmt::With(x) => { push_with_items(&mut out, &x.items); push_visit(&mut out, Visit::Body(&x.body)); },
        Stmt::Raise(x) => { push_opt_box(&mut out, &x.exc); push_opt_box(&mut out, &x.cause); },
        Stmt::Try(x) => {
            push_visit(&mut out, Visit::Body(&x.body));
            push_handlers(&mut out, &x.handlers);
            push_visit(&mut out, Visit::Body(&x.orelse));
            push_visit(&mut out, Visit::Body(&x.finalbody));
        },
        Stmt::Assert(x) => { push_visit(&mut out, Visit::Expr(&x.test)); push_opt_box(&mut out, &x.msg); },
        Stmt::Expr(x) => { push_visit(&mut out, Visit::Expr(&x.value)); },
        Stmt::Delete(x) => { push_exprs(&mut out, &x.targets); },
        _ => {},
    }
    assert(visits_m(out@) =~= stmt_visits(*s));
    out
}

} // verus!
