//! From tree-sitter's Python syntax tree to the library's AST, proved to build
//! what `grammar` says each node parses to.

use vstd::prelude::*;
use crate::ast::{
    Arguments, BoolOp, CmpOp, Comprehension, DictItem, Expr, ExprAttribute, ExprAwait,
    ExprBinOp, ExprBoolOp, ExprBooleanLiteral, ExprCall, ExprCompare, ExprDict, ExprDictComp,
    ExprEllipsisLiteral, ExprFString, ExprGenerator, ExprIf, ExprLambda, ExprList, ExprListComp,
    ExprName, ExprNamed, ExprNoneLiteral, ExprNumberLiteral, ExprSet, ExprSetComp, ExprStarred,
    ExprStringLiteral, ExprSubscript, ExprTuple, ExprUnaryOp, ExprYield, FStringPart, Keyword,
    Number, Operator, Parameter, Parameters, UnaryOp,
};
use crate::model::{
    ArgumentsM, ExprM, FStringPartM, KeywordM, expr_m, exprs_m, opt_expr_m, opt_box_expr_m,
    parameter_m, params_m, parameters_m, opt_param_m, keyword_m, keywords_m, arguments_m,
    comprehension_m, comprehensions_m, dict_item_m, dict_items_m, fstring_parts_m,
    fstring_part_m,
};
use crate::syntax::{
    SyntaxNode, kind_is, is_kind, node_range, child_index_by_field, child_index_by_kind,
    child_text_by_field, child_text_by_field_or_empty,
};
use crate::grammar::{
    is_ascii_alpha,
    alpha_prefix_len,
    between_quotes,
    triple_double,
    triple_single,
    one_double,
    one_single,
    strip_string_quotes_spec,
    is_fstring_text,
    string_content,
    string_expr,
    has_fstring_part,
    string_parts,
    concatenated_expr,
    int_value,
    binop_of,
    augop_of,
    unop_of,
    binop_expr,
    unop_expr,
    boolop_expr,
    not_expr,
    boxed,
    field_expr,
    child_expr,
    exprs_of,
    args_fold,
    arguments_of,
    comparison_op_at,
    comparison_loop,
    comparison_of,
    parameter_of,
    splat_name,
    is_parameter_kind,
    params_fold,
    parameters_of,
    dict_fold,
    cond_fold,
    underscore,
    gens_fold,
    comp_parts,
    dict_comp_body,
    expr_of,
    expr_of_ops,
    expr_of_rest,
    ArgsAcc,
    ParamsAcc,
};
use crate::text::{chars_of, str_eq, matches_at, remove_char, parse_i64};

verus! {

#[verifier::spinoff_prover]
proof fn lemma_alpha_prefix(s: Seq<char>, i: int)
    requires
        0 <= i <= s.len(),
        forall|j: int| 0 <= j < i ==> is_ascii_alpha(s[j]),
        i < s.len() ==> !is_ascii_alpha(s[i]),
    ensures
        alpha_prefix_len(s) == i,
    decreases i,
{
    if i > 0 {
        lemma_alpha_prefix(s.drop_first(), i - 1);
    }
}

#[verifier::spinoff_prover]
fn is_ascii_alpha_exec(c: char) -> (b: bool)
    ensures
        b == is_ascii_alpha(c),
{
    ('a' <= c && c <= 'z') || ('A' <= c && c <= 'Z')
}

/// Whether `cs[p..]` is quoted by `q`; the quoted part is `cs[p+|q| .. |cs|-|q|]`.
#[verifier::spinoff_prover]
fn quoted_by(cs: &Vec<char>, p: usize, q: &Vec<char>) -> (b: bool)
    requires
        p <= cs@.len(),
    ensures
        b == between_quotes(cs@.skip(p as int), q@) is Some,
        b ==> p + 2 * q@.len() <= cs@.len(),
{
    let ghost w = cs@.skip(p as int);
    if q.len() > cs.len() - p || q.len() > cs.len() - p - q.len() {
        return false;
    }
    let a = matches_at(cs, p, q);
    let e = matches_at(cs, cs.len() - q.len(), q);
    proof {
        assert(w.subrange(0, q@.len() as int) =~= cs@.subrange(p as int, p + q@.len()));
        assert(w.subrange(w.len() - q@.len(), w.len() as int) =~= cs@.subrange(cs@.len() - q@.len(), cs@.len() as int));
    }
    a && e
}

/// Strips the prefix letters (b, r, u, ...) and the surrounding quotes
/// (triple, then single, double before single) from a Python string literal.
#[verifier::spinoff_prover]
pub fn strip_string_quotes(s: &str) -> (r: &str)
    ensures
        r@ == strip_string_quotes_spec(s@),
{
    let cs = chars_of(s);
    let mut p: usize = 0;
    while p < cs.len() && is_ascii_alpha_exec(cs[p])
        invariant
            cs@ == s@,
            p <= cs@.len(),
            forall|j: int| 0 <= j < p ==> is_ascii_alpha(cs@[j]),
        decreases cs@.len() - p,
    {
        p = p + 1;
    }
    proof { lemma_alpha_prefix(s@, p as int); }
    let ghost w = s@.skip(p as int);
    let quotes: [Vec<char>; 4] = [vec!['"', '"', '"'], vec!['\'', '\'', '\''], vec!['"'], vec!['\'']];
    assert(quotes[0]@ == triple_double());
    assert(quotes[1]@ == triple_single());
    assert(quotes[2]@ == one_double());
    assert(quotes[3]@ == one_single());
    let mut k: usize = 0;
    while k < 4
        invariant
            cs@ == s@,
            p <= cs@.len(),
            w == s@.skip(p as int),
            alpha_prefix_len(s@) == p,
            quotes[0]@ == triple_double(),
            quotes[1]@ == triple_single(),
            quotes[2]@ == one_double(),
            quotes[3]@ == one_single(),
            k <= 4,
            forall|j: int| 0 <= j < k ==> between_quotes(w, #[trigger] quotes[j]@) is None,
        decreases 4 - k,
    {
        let q = &quotes[k];
        if quoted_by(&cs, p, q) {
            let ql = q.len();
            assert(p + 2 * ql <= cs.len());
            let r = s.substring_char(p + ql, cs.len() - ql);
            proof {
                assert(r@ =~= w.subrange(q@.len() as int, w.len() - q@.len()));
                if k > 0 { assert(between_quotes(w, quotes[0]@) is None); }
                if k > 1 { assert(between_quotes(w, quotes[1]@) is None); }
                if k > 2 { assert(between_quotes(w, quotes[2]@) is None); }
            }
            return r;
        }
        k = k + 1;
    }
    proof {
        assert(between_quotes(w, quotes[0]@) is None);
        assert(between_quotes(w, quotes[1]@) is None);
        assert(between_quotes(w, quotes[2]@) is None);
        assert(between_quotes(w, quotes[3]@) is None);
    }
    s
}

// ── Sequence lemmas for the models ────────────────────────────────

#[verifier::spinoff_prover]
pub proof fn lemma_prefix<A>(s: Seq<A>, i: int)
    requires
        0 <= i < s.len(),
    ensures
        s.subrange(0, i + 1).subrange(0, i) == s.subrange(0, i),
        s.subrange(0, i + 1)[i] == s[i],
        s.subrange(0, i + 1).len() == i + 1,
        s.subrange(0, i + 1).drop_last() == s.subrange(0, i),
        s.subrange(0, i + 1).last() == s[i],
{
    assert(s.subrange(0, i + 1).subrange(0, i) =~= s.subrange(0, i));
    assert(s.subrange(0, i + 1).drop_last() =~= s.subrange(0, i));
}

#[verifier::spinoff_prover]
pub proof fn lemma_exprs_m_push(s: Seq<Expr>, e: Expr)
    ensures
        exprs_m(s.push(e)) == exprs_m(s).push(expr_m(e)),
{
    assert(s.push(e).subrange(0, s.len() as int) =~= s);
}

#[verifier::spinoff_prover]
pub proof fn lemma_keywords_m_push(s: Seq<Keyword>, e: Keyword)
    ensures
        keywords_m(s.push(e)) == keywords_m(s).push(keyword_m(e)),
{
    assert(s.push(e).subrange(0, s.len() as int) =~= s);
}

#[verifier::spinoff_prover]
pub proof fn lemma_params_m_push(s: Seq<Parameter>, e: Parameter)
    ensures
        params_m(s.push(e)) == params_m(s).push(parameter_m(e)),
{
    assert(s.push(e).subrange(0, s.len() as int) =~= s);
}

#[verifier::spinoff_prover]
pub proof fn lemma_dict_items_m_push(s: Seq<DictItem>, e: DictItem)
    ensures
        dict_items_m(s.push(e)) == dict_items_m(s).push(dict_item_m(e)),
{
    assert(s.push(e).subrange(0, s.len() as int) =~= s);
}

#[verifier::spinoff_prover]
pub proof fn lemma_comprehensions_m_push(s: Seq<Comprehension>, e: Comprehension)
    ensures
        comprehensions_m(s.push(e)) == comprehensions_m(s).push(comprehension_m(e)),
{
    assert(s.push(e).subrange(0, s.len() as int) =~= s);
}

#[verifier::spinoff_prover]
pub proof fn lemma_comprehensions_m_len(s: Seq<Comprehension>)
    ensures
        comprehensions_m(s).len() == s.len(),
    decreases s.len(),
{
    if s.len() > 0 {
        lemma_comprehensions_m_len(s.subrange(0, s.len() - 1));
    }
}

#[verifier::spinoff_prover]
pub proof fn lemma_comprehensions_m_pop(s: Seq<Comprehension>)
    requires
        s.len() > 0,
    ensures
        comprehensions_m(s) == comprehensions_m(s.drop_last()).push(comprehension_m(s.last())),
{
    assert(s.subrange(0, s.len() - 1) =~= s.drop_last());
}

// ── Expressions: the parser ───────────────────────────────────────

#[verifier::spinoff_prover]
pub(crate) fn text_of(n: &SyntaxNode) -> (r: String)
    ensures
        r@ == n.text@,
{
    n.text.clone()
}

#[verifier::spinoff_prover]
pub(crate) fn box_opt(e: Option<Expr>) -> (r: Option<Box<Expr>>)
    ensures
        opt_box_expr_m(r) == boxed(opt_expr_m(e)),
{
    match e {
        Some(x) => Some(Box::new(x)),
        None => None,
    }
}

#[verifier::spinoff_prover]
pub(crate) fn parse_field_expr(n: &SyntaxNode, f: &str) -> (r: Option<Expr>)
    ensures
        opt_expr_m(r) == field_expr(*n, f),
    decreases n, 0int,
{
    match child_index_by_field(n, f) {
        Some(i) => parse_expr(&n.children[i]),
        None => None,
    }
}

#[verifier::spinoff_prover]
pub(crate) fn parse_child_expr(n: &SyntaxNode, i: usize) -> (r: Option<Expr>)
    ensures
        opt_expr_m(r) == child_expr(*n, i as int),
    decreases n, 0int,
{
    if i < n.children.len() {
        parse_expr(&n.children[i])
    } else {
        None
    }
}

#[verifier::spinoff_prover]
pub(crate) fn parse_exprs(cs: &Vec<SyntaxNode>) -> (r: Vec<Expr>)
    ensures
        exprs_m(r@) == exprs_of(cs@),
    decreases cs, 0int,
{
    let mut out: Vec<Expr> = Vec::new();
    let mut i: usize = 0;
    while i < cs.len()
        invariant
            i <= cs@.len(),
            exprs_m(out@) == exprs_of(cs@.subrange(0, i as int)),
        decreases cs@.len() - i,
    {
        proof { lemma_prefix(cs@, i as int); }
        match parse_expr(&cs[i]) {
            Some(e) => {
                proof { lemma_exprs_m_push(out@, e); }
                out.push(e);
            },
            None => {},
        }
        i = i + 1;
    }
    assert(cs@.subrange(0, cs@.len() as int) == cs@);
    out
}

#[verifier::spinoff_prover]
fn is_fstring_exec(t: &str) -> (b: bool)
    ensures
        b == is_fstring_text(t@),
{
    let cs = chars_of(t);
    cs.len() >= 2 && (cs[0] == 'f' || cs[0] == 'F') && (cs[1] == '"' || cs[1] == '\'')
}

#[verifier::spinoff_prover]
fn string_content_exec(n: &SyntaxNode) -> (r: String)
    ensures
        r@ == string_content(*n),
{
    match child_index_by_kind(n, "string_content") {
        Some(i) => n.children[i].text.clone(),
        None => strip_string_quotes(n.text.as_str()).to_owned(),
    }
}

#[verifier::spinoff_prover]
fn literal_fstring(t: String, range: crate::diagnostic::ByteRange) -> (r: Expr)
    ensures
        expr_m(r) == (ExprM::FString { parts: seq![FStringPartM::Literal(t@)], range }),
{
    let ghost tv = t@;
    let p = FStringPart::Literal(t);
    let ghost pv = p;
    let mut parts: Vec<FStringPart> = Vec::new();
    parts.push(p);
    proof {
        assert(parts@ =~= seq![pv]);
        assert(fstring_part_m(pv) == FStringPartM::Literal(tv));
        assert(parts@.subrange(0, 0) =~= Seq::<FStringPart>::empty());
        assert(fstring_parts_m(parts@.subrange(0, 0)) =~= Seq::<FStringPartM>::empty());
        assert(fstring_parts_m(parts@) =~= seq![FStringPartM::Literal(tv)]);
    }
    Expr::FString(ExprFString { parts, range })
}

#[verifier::spinoff_prover]
fn parse_string(n: &SyntaxNode) -> (r: Expr)
    ensures
        expr_m(r) == string_expr(*n),
{
    if is_fstring_exec(n.text.as_str()) {
        literal_fstring(text_of(n), node_range(n))
    } else {
        Expr::StringLiteral(ExprStringLiteral { value: string_content_exec(n), range: node_range(n) })
    }
}

#[verifier::spinoff_prover]
fn parse_concatenated(n: &SyntaxNode) -> (r: Expr)
    ensures
        expr_m(r) == concatenated_expr(*n),
{
    let mut acc = String::new();
    let mut i: usize = 0;
    while i < n.children.len()
        invariant
            i <= n.children@.len(),
            !has_fstring_part(n.children@.subrange(0, i as int)),
            acc@ == string_parts(n.children@.subrange(0, i as int)),
        decreases n.children@.len() - i,
    {
        let c = &n.children[i];
        proof { lemma_prefix(n.children@, i as int); }
        if is_kind(c, "string") {
            if is_fstring_exec(c.text.as_str()) {
                assert(has_fstring_part(n.children@)) by {
                    assert(kind_is(n.children@[i as int], "string"));
                }
                return literal_fstring(text_of(n), node_range(n));
            }
            let part = string_content_exec(c);
            acc.append(part.as_str());
        }
        assert(!has_fstring_part(n.children@.subrange(0, i + 1))) by {
            let s = n.children@.subrange(0, i + 1);
            if has_fstring_part(s) {
                let j = choose|j: int| 0 <= j < s.len() && kind_is(#[trigger] s[j], "string") && is_fstring_text(s[j].text@);
                if j < i {
                    assert(n.children@.subrange(0, i as int)[j] == s[j]);
                }
            }
        }
        i = i + 1;
    }
    assert(n.children@.subrange(0, n.children@.len() as int) == n.children@);
    Expr::StringLiteral(ExprStringLiteral { value: acc, range: node_range(n) })
}

#[verifier::spinoff_prover]
fn binop_exec(t: &str) -> (r: Operator)
    ensures
        r == binop_of(t@),
{
    if str_eq(t, "+") { Operator::Add }
    else if str_eq(t, "-") { Operator::Sub }
    else if str_eq(t, "*") { Operator::Mult }
    else if str_eq(t, "/") { Operator::Div }
    else if str_eq(t, "%") { Operator::Mod }
    else if str_eq(t, "**") { Operator::Pow }
    else if str_eq(t, "<<") { Operator::LShift }
    else if str_eq(t, ">>") { Operator::RShift }
    else if str_eq(t, "|") { Operator::BitOr }
    else if str_eq(t, "^") { Operator::BitXor }
    else if str_eq(t, "&") { Operator::BitAnd }
    else if str_eq(t, "//") { Operator::FloorDiv }
    else if str_eq(t, "@") { Operator::MatMult }
    else { Operator::Add }
}

#[verifier::spinoff_prover]
pub(crate) fn augop_exec(t: &str) -> (r: Operator)
    ensures
        r == augop_of(t@),
{
    if str_eq(t, "+=") { Operator::Add }
    else if str_eq(t, "-=") { Operator::Sub }
    else if str_eq(t, "*=") { Operator::Mult }
    else if str_eq(t, "/=") { Operator::Div }
    else if str_eq(t, "%=") { Operator::Mod }
    else if str_eq(t, "**=") { Operator::Pow }
    else if str_eq(t, "<<=") { Operator::LShift }
    else if str_eq(t, ">>=") { Operator::RShift }
    else if str_eq(t, "|=") { Operator::BitOr }
    else if str_eq(t, "^=") { Operator::BitXor }
    else if str_eq(t, "&=") { Operator::BitAnd }
    else if str_eq(t, "//=") { Operator::FloorDiv }
    else if str_eq(t, "@=") { Operator::MatMult }
    else { Operator::Add }
}

#[verifier::spinoff_prover]
fn unop_exec(t: &str) -> (r: UnaryOp)
    ensures
        r == unop_of(t@),
{
    if str_eq(t, "not") { UnaryOp::Not }
    else if str_eq(t, "-") { UnaryOp::USub }
    else if str_eq(t, "+") { UnaryOp::UAdd }
    else if str_eq(t, "~") { UnaryOp::Invert }
    else { UnaryOp::Not }
}

#[verifier::spinoff_prover]
pub(crate) fn parse_arguments(n: &SyntaxNode) -> (r: Arguments)
    ensures
        arguments_m(r) == arguments_of(*n),
    decreases n, 1int,
{
    let mut args: Vec<Expr> = Vec::new();
    let mut keywords: Vec<Keyword> = Vec::new();
    let mut i: usize = 0;
    while i < n.children.len()
        invariant
            i <= n.children@.len(),
            args_fold(n.children@.subrange(0, i as int)) == (ArgsAcc { args: exprs_m(args@), keywords: keywords_m(keywords@) }),
        decreases n.children@.len() - i,
    {
        let c = &n.children[i];
        proof { lemma_prefix(n.children@, i as int); }
        if is_kind(c, "keyword_argument") {
            let name = child_text_by_field(c, "name");
            match parse_field_expr(c, "value") {
                Some(v) => {
                    let k = Keyword { arg: name, value: v, range: node_range(c) };
                    proof { lemma_keywords_m_push(keywords@, k); }
                    keywords.push(k);
                },
                None => {},
            }
        } else if is_kind(c, "dictionary_splat") {
            match parse_child_expr(c, 1) {
                Some(v) => {
                    let k = Keyword { arg: None, value: v, range: node_range(c) };
                    proof { lemma_keywords_m_push(keywords@, k); }
                    keywords.push(k);
                },
                None => {},
            }
        } else if is_kind(c, "list_splat") {
            match parse_child_expr(c, 1) {
                Some(v) => {
                    let e = Expr::Starred(ExprStarred { value: Box::new(v), range: node_range(c) });
                    proof { lemma_exprs_m_push(args@, e); }
                    args.push(e);
                },
                None => {},
            }
        } else if is_kind(c, "(") || is_kind(c, ")") || is_kind(c, ",") {
        } else {
            match parse_expr(c) {
                Some(e) => {
                    proof { lemma_exprs_m_push(args@, e); }
                    args.push(e);
                },
                None => {},
            }
        }
        i = i + 1;
    }
    assert(n.children@.subrange(0, n.children@.len() as int) == n.children@);
    Arguments { args, keywords, range: node_range(n) }
}

/// Operators and comparators already gathered, put before those still to come.
spec fn prepend_parts(ops: Seq<CmpOp>, comps: Seq<ExprM>, rest: Option<(Seq<CmpOp>, Seq<ExprM>)>) -> Option<(Seq<CmpOp>, Seq<ExprM>)> {
    match rest {
        None => None,
        Some((o, c)) => Some((ops + o, comps + c)),
    }
}

/// The comparator that follows an operator ending at child `j`, if it parses.
spec fn comparator_after(cs: Seq<SyntaxNode>, j: int) -> Seq<ExprM> {
    match (if 0 <= j + 1 < cs.len() { expr_of(cs[j + 1]) } else { None }) {
        Some(x) => seq![x],
        None => Seq::empty(),
    }
}

#[verifier::spinoff_prover]
proof fn lemma_comparison_step(cs: Seq<SyntaxNode>, i: int, op: CmpOp, j: int)
    requires
        0 <= i <= j < cs.len(),
        comparison_op_at(cs, i) == Some((op, j)),
    ensures
        comparison_loop(cs, i) == prepend_parts(seq![op], comparator_after(cs, j), comparison_loop(cs, j + 2)),
{
    reveal_with_fuel(comparison_loop, 1);
    let k = j + 1;
    let comp = if 0 <= k < cs.len() { expr_of(cs[k]) } else { None };
    let rest = if i < k + 1 <= cs.len() { comparison_loop(cs, k + 1) } else { Some((Seq::<CmpOp>::empty(), Seq::<ExprM>::empty())) };
    assert(comparison_loop(cs, i) == match rest {
        None => None,
        Some((ops, comps)) => Some((
            seq![op] + ops,
            match comp { Some(c) => seq![c] + comps, None => comps },
        )),
    });
    if j + 2 > cs.len() {
        assert(comparison_loop(cs, j + 2) == Some((Seq::<CmpOp>::empty(), Seq::<ExprM>::empty())));
    }
    assert(rest == comparison_loop(cs, j + 2));
    match rest {
        None => {},
        Some((o, c)) => {
            match comp {
                Some(x) => { assert(comparator_after(cs, j) == seq![x]); },
                None => { assert(c =~= comparator_after(cs, j) + c); },
            }
        },
    }
}

#[verifier::spinoff_prover]
proof fn lemma_comparison_none(cs: Seq<SyntaxNode>, i: int)
    requires
        0 <= i < cs.len(),
        comparison_op_at(cs, i) is None,
    ensures
        comparison_loop(cs, i) is None,
{
    reveal_with_fuel(comparison_loop, 1);
}

#[verifier::spinoff_prover]
proof fn lemma_prepend_empty(r: Option<(Seq<CmpOp>, Seq<ExprM>)>)
    ensures
        prepend_parts(Seq::empty(), Seq::empty(), r) == r,
{
    match r {
        None => {},
        Some((o, c)) => {
            assert(Seq::<CmpOp>::empty() + o =~= o);
            assert(Seq::<ExprM>::empty() + c =~= c);
        },
    }
}

#[verifier::spinoff_prover]
proof fn lemma_prepend_end(ops: Seq<CmpOp>, comps: Seq<ExprM>)
    ensures
        prepend_parts(ops, comps, Some((Seq::<CmpOp>::empty(), Seq::<ExprM>::empty()))) == Some((ops, comps)),
{
    assert(ops + Seq::<CmpOp>::empty() =~= ops);
    assert(comps + Seq::<ExprM>::empty() =~= comps);
}

#[verifier::spinoff_prover]
proof fn lemma_comparison_end(cs: Seq<SyntaxNode>, i: int)
    requires
        i >= cs.len(),
    ensures
        comparison_loop(cs, i) == Some((Seq::<CmpOp>::empty(), Seq::<ExprM>::empty())),
{
    reveal_with_fuel(comparison_loop, 1);
}

#[verifier::spinoff_prover]
proof fn lemma_prepend_parts(a: Seq<CmpOp>, b: Seq<ExprM>, c: Seq<CmpOp>, d: Seq<ExprM>, r: Option<(Seq<CmpOp>, Seq<ExprM>)>)
    ensures
        prepend_parts(a, b, prepend_parts(c, d, r)) == prepend_parts(a + c, b + d, r),
{
    match r {
        None => {},
        Some((o, x)) => {
            assert(a + (c + o) =~= (a + c) + o);
            assert(b + (d + x) =~= (b + d) + x);
        },
    }
}

#[verifier::spinoff_prover]
fn comparison_op(cs: &Vec<SyntaxNode>, i: usize) -> (r: Option<(CmpOp, usize)>)
    requires
        i < cs@.len(),
    ensures
        match r {
            Some((op, j)) => comparison_op_at(cs@, i as int) == Some((op, j as int)) && i <= j < cs@.len(),
            None => comparison_op_at(cs@, i as int) is None,
        },
{
    reveal(comparison_op_at);
    let t = cs[i].text.as_str();
    if str_eq(t, "==") { Some((CmpOp::Eq, i)) }
    else if str_eq(t, "!=") { Some((CmpOp::NotEq, i)) }
    else if str_eq(t, "<") { Some((CmpOp::Lt, i)) }
    else if str_eq(t, "<=") { Some((CmpOp::LtE, i)) }
    else if str_eq(t, ">") { Some((CmpOp::Gt, i)) }
    else if str_eq(t, ">=") { Some((CmpOp::GtE, i)) }
    else if str_eq(t, "is") {
        if i < cs.len() - 1 && str_eq(cs[i + 1].text.as_str(), "not") { Some((CmpOp::IsNot, i + 1)) } else { Some((CmpOp::Is, i)) }
    }
    else if str_eq(t, "in") { Some((CmpOp::In, i)) }
    else if str_eq(t, "not") {
        if i < cs.len() - 1 && str_eq(cs[i + 1].text.as_str(), "in") { Some((CmpOp::NotIn, i + 1)) } else { None }
    }
    else { None }
}

/// The operators and comparators of a comparison, from child 1 on.
#[verifier::spinoff_prover]
fn comparison_parts(n: &SyntaxNode) -> (r: Option<(Vec<CmpOp>, Vec<Expr>)>)
    ensures
        match r {
            Some((o, c)) => comparison_loop(n.children@, 1) == Some((o@, exprs_m(c@))),
            None => comparison_loop(n.children@, 1) is None,
        },
    decreases n, 1int,
{
    let ghost cs = n.children@;
    let len = n.children.len();
    let mut ops: Vec<CmpOp> = Vec::new();
    let mut comps: Vec<Expr> = Vec::new();
    if len == 0 {
        proof { lemma_comparison_end(cs, 1); }
        assert(exprs_m(comps@) =~= Seq::<ExprM>::empty());
        assert(ops@ =~= Seq::<CmpOp>::empty());
        return Some((ops, comps));
    }
    let mut i: usize = 1;
    proof {
        assert(exprs_m(comps@) =~= Seq::<ExprM>::empty());
        assert(ops@ =~= Seq::<CmpOp>::empty());
        lemma_prepend_empty(comparison_loop(cs, 1));
    }
    while i < len
        invariant
            cs == n.children@,
            len == cs.len(),
            1 <= i <= len,
            comparison_loop(cs, 1) == prepend_parts(ops@, exprs_m(comps@), comparison_loop(cs, i as int)),
        decreases len - i,
    {
        match comparison_op(&n.children, i) {
            None => {
                proof { lemma_comparison_none(cs, i as int); }
                return None;
            },
            Some((op, j)) => {
                proof {
                    lemma_comparison_step(cs, i as int, op, j as int);
                    lemma_prepend_parts(ops@, exprs_m(comps@), seq![op], comparator_after(cs, j as int), comparison_loop(cs, j + 2));
                }
                let ghost old_comps = exprs_m(comps@);
                ops.push(op);
                match parse_child_expr(n, j + 1) {
                    Some(e) => {
                        proof {
                            lemma_exprs_m_push(comps@, e);
                            assert(comparator_after(cs, j as int) == seq![expr_m(e)]);
                        }
                        comps.push(e);
                    },
                    None => {
                        assert(comparator_after(cs, j as int) =~= Seq::<ExprM>::empty());
                    },
                }
                assert(exprs_m(comps@) =~= old_comps + comparator_after(cs, j as int));
                if j + 1 >= len {
                    proof {
                        lemma_comparison_end(cs, j + 2);
                        lemma_comparison_end(cs, len as int);
                    }
                    i = len;
                } else {
                    i = j + 2;
                }
            },
        }
    }
    proof {
        lemma_comparison_end(cs, i as int);
        lemma_prepend_end(ops@, exprs_m(comps@));
    }
    Some((ops, comps))
}

#[verifier::spinoff_prover]
fn parse_comparison(n: &SyntaxNode) -> (r: Option<Expr>)
    ensures
        opt_expr_m(r) == comparison_of(*n),
    decreases n, 2int,
{
    if n.children.len() < 3 {
        return None;
    }
    let left = match parse_expr(&n.children[0]) {
        Some(l) => l,
        None => return None,
    };
    match comparison_parts(n) {
        Some((ops, comps)) => Some(Expr::Compare(ExprCompare { left: Box::new(left), ops, comparators: comps, range: node_range(n) })),
        None => None,
    }
}

#[verifier::spinoff_prover]
fn parse_parameter(n: &SyntaxNode) -> (r: Parameter)
    ensures
        parameter_m(r) == parameter_of(*n),
    decreases n, 1int,
{
    if is_kind(n, "identifier") {
        Parameter { name: text_of(n), annotation: None, default: None, range: node_range(n) }
    } else if is_kind(n, "typed_parameter") {
        let name = if n.children.len() > 0 { text_of(&n.children[0]) } else { String::new() };
        Parameter { name, annotation: box_opt(parse_field_expr(n, "type")), default: None, range: node_range(n) }
    } else if is_kind(n, "default_parameter") {
        let name = child_text_by_field_or_empty(n, "name");
        Parameter { name, annotation: None, default: box_opt(parse_field_expr(n, "value")), range: node_range(n) }
    } else if is_kind(n, "typed_default_parameter") {
        let name = child_text_by_field_or_empty(n, "name");
        let annotation = box_opt(parse_field_expr(n, "type"));
        let default = box_opt(parse_field_expr(n, "value"));
        Parameter { name, annotation, default, range: node_range(n) }
    } else {
        Parameter { name: text_of(n), annotation: None, default: None, range: node_range(n) }
    }
}

#[verifier::spinoff_prover]
fn splat_name_exec(n: &SyntaxNode) -> (r: String)
    ensures
        r@ == splat_name(*n),
{
    if 1 < n.children.len() {
        text_of(&n.children[1])
    } else if 0 < n.children.len() {
        text_of(&n.children[0])
    } else {
        String::new()
    }
}

#[verifier::spinoff_prover]
fn is_parameter_kind_exec(c: &SyntaxNode) -> (b: bool)
    ensures
        b == is_parameter_kind(*c),
{
    is_kind(c, "identifier") || is_kind(c, "typed_parameter") || is_kind(c, "default_parameter")
        || is_kind(c, "typed_default_parameter")
}

#[verifier::spinoff_prover]
pub(crate) fn parse_parameters(n: &SyntaxNode) -> (r: Parameters)
    ensures
        parameters_m(r) == parameters_of(*n),
    decreases n, 1int,
{
    let mut args: Vec<Parameter> = Vec::new();
    let mut vararg: Option<Box<Parameter>> = None;
    let mut kwonlyargs: Vec<Parameter> = Vec::new();
    let mut kwarg: Option<Box<Parameter>> = None;
    let mut seen_star = false;
    let mut i: usize = 0;
    while i < n.children.len()
        invariant
            i <= n.children@.len(),
            params_fold(n.children@.subrange(0, i as int)) == (ParamsAcc {
                args: params_m(args@),
                vararg: opt_param_m(vararg),
                kwonlyargs: params_m(kwonlyargs@),
                kwarg: opt_param_m(kwarg),
                seen_star,
            }),
        decreases n.children@.len() - i,
    {
        let c = &n.children[i];
        proof { lemma_prefix(n.children@, i as int); }
        if is_parameter_kind_exec(c) {
            let p = parse_parameter(c);
            if seen_star {
                proof { lemma_params_m_push(kwonlyargs@, p); }
                kwonlyargs.push(p);
            } else {
                proof { lemma_params_m_push(args@, p); }
                args.push(p);
            }
        } else if is_kind(c, "list_splat_pattern") || is_kind(c, "dictionary_splat_pattern") {
            let p = Parameter { name: splat_name_exec(c), annotation: None, default: None, range: node_range(c) };
            if is_kind(c, "dictionary_splat_pattern") {
                kwarg = Some(Box::new(p));
            } else {
                vararg = Some(Box::new(p));
                seen_star = true;
            }
        } else if is_kind(c, "*") {
            seen_star = true;
        }
        i = i + 1;
    }
    assert(n.children@.subrange(0, n.children@.len() as int) == n.children@);
    let posonlyargs: Vec<Parameter> = Vec::new();
    Parameters { args, vararg, kwonlyargs, kwarg, posonlyargs, range: node_range(n) }
}

#[verifier::spinoff_prover]
fn parse_dict_items(n: &SyntaxNode) -> (r: Vec<DictItem>)
    ensures
        dict_items_m(r@) == dict_fold(n.children@),
    decreases n, 1int,
{
    let mut items: Vec<DictItem> = Vec::new();
    let mut i: usize = 0;
    while i < n.children.len()
        invariant
            i <= n.children@.len(),
            dict_fold(n.children@.subrange(0, i as int)) == dict_items_m(items@),
        decreases n.children@.len() - i,
    {
        let c = &n.children[i];
        proof { lemma_prefix(n.children@, i as int); }
        if is_kind(c, "pair") {
            let key = parse_field_expr(c, "key");
            match parse_field_expr(c, "value") {
                Some(v) => {
                    let d = DictItem { key, value: v };
                    proof { lemma_dict_items_m_push(items@, d); }
                    items.push(d);
                },
                None => {},
            }
        } else if is_kind(c, "dictionary_splat") {
            match parse_child_expr(c, 1) {
                Some(v) => {
                    let d = DictItem { key: None, value: v };
                    proof { lemma_dict_items_m_push(items@, d); }
                    items.push(d);
                },
                None => {},
            }
        }
        i = i + 1;
    }
    assert(n.children@.subrange(0, n.children@.len() as int) == n.children@);
    items
}

#[verifier::spinoff_prover]
fn parse_conditional_parts(n: &SyntaxNode) -> (r: Vec<Expr>)
    ensures
        exprs_m(r@) == cond_fold(n.children@),
    decreases n, 1int,
{
    let mut parts: Vec<Expr> = Vec::new();
    let mut i: usize = 0;
    while i < n.children.len()
        invariant
            i <= n.children@.len(),
            cond_fold(n.children@.subrange(0, i as int)) == exprs_m(parts@),
        decreases n.children@.len() - i,
    {
        let c = &n.children[i];
        proof { lemma_prefix(n.children@, i as int); }
        if !is_kind(c, "if") && !is_kind(c, "else") {
            match parse_expr(c) {
                Some(e) => {
                    proof { lemma_exprs_m_push(parts@, e); }
                    parts.push(e);
                },
                None => {},
            }
        }
        i = i + 1;
    }
    assert(n.children@.subrange(0, n.children@.len() as int) == n.children@);
    parts
}

#[verifier::spinoff_prover]
fn underscore_exec(c: &SyntaxNode) -> (r: Expr)
    ensures
        expr_m(r) == underscore(*c),
{
    let mut id = String::new();
    crate::text::push_char(&mut id, '_');
    assert(id@ =~= seq!['_']);
    Expr::Name(ExprName { id, range: node_range(c) })
}

#[verifier::spinoff_prover]
fn parse_generators(n: &SyntaxNode) -> (r: Vec<Comprehension>)
    ensures
        comprehensions_m(r@) == gens_fold(n.children@),
    decreases n, 0int,
{
    let mut gens: Vec<Comprehension> = Vec::new();
    let mut i: usize = 0;
    while i < n.children.len()
        invariant
            i <= n.children@.len(),
            gens_fold(n.children@.subrange(0, i as int)) == comprehensions_m(gens@),
        decreases n.children@.len() - i,
    {
        let c = &n.children[i];
        proof { lemma_prefix(n.children@, i as int); }
        if is_kind(c, "for_in_clause") {
            let target = match parse_field_expr(c, "left") {
                Some(e) => e,
                None => underscore_exec(c),
            };
            let iter = match parse_field_expr(c, "right") {
                Some(e) => e,
                None => underscore_exec(c),
            };
            let ifs: Vec<Expr> = Vec::new();
            let g = Comprehension { target, iter, ifs, is_async: false, range: node_range(c) };
            proof {
                lemma_comprehensions_m_push(gens@, g);
                assert(exprs_m(g.ifs@) =~= Seq::<ExprM>::empty());
            }
            gens.push(g);
        } else if is_kind(c, "if_clause") {
            let cond = parse_child_expr(c, 1);
            match cond {
                Some(e) => {
                    if gens.len() > 0 {
                        let ghost before = gens@;
                        proof {
                            lemma_comprehensions_m_len(before);
                            lemma_comprehensions_m_pop(before);
                        }
                        let mut g = gens.pop().unwrap();
                        proof { lemma_exprs_m_push(g.ifs@, e); }
                        g.ifs.push(e);
                        let ghost g2 = g;
                        proof {
                            lemma_comprehensions_m_push(gens@, g2);
                            assert(before.drop_last() == gens@);
                            assert(comprehensions_m(gens@.push(g2)) =~= comprehensions_m(before).update(
                                before.len() - 1,
                                comprehension_m(g2),
                            ));
                        }
                        gens.push(g);
                        proof {
                            lemma_comprehensions_m_len(before);
                        }
                    }
                },
                None => {},
            }
        }
        i = i + 1;
    }
    assert(n.children@.subrange(0, n.children@.len() as int) == n.children@);
    gens
}

#[verifier::spinoff_prover]
fn parse_comp_parts(n: &SyntaxNode) -> (r: Option<(Expr, Vec<Comprehension>)>)
    ensures
        match r {
            Some((e, g)) => comp_parts(*n) == Some((expr_m(e), comprehensions_m(g@))),
            None => comp_parts(*n) is None,
        },
    decreases n, 1int,
{
    match parse_field_expr(n, "body") {
        Some(e) => Some((e, parse_generators(n))),
        None => None,
    }
}

#[verifier::spinoff_prover]
fn parse_dict_comp_body(n: &SyntaxNode) -> (r: Option<(Expr, Expr)>)
    ensures
        match r {
            Some((k, v)) => dict_comp_body(*n) == Some((expr_m(k), expr_m(v))),
            None => dict_comp_body(*n) is None,
        },
    decreases n, 1int,
{
    match child_index_by_field(n, "body") {
        Some(i) => {
            let b = &n.children[i];
            let k = parse_field_expr(b, "key");
            let v = parse_field_expr(b, "value");
            match (k, v) {
                (Some(k), Some(v)) => Some((k, v)),
                _ => None,
            }
        },
        None => None,
    }
}

#[verifier::spinoff_prover]
fn int_value_exec(t: &str) -> (r: i64)
    ensures
        r == int_value(t@),
{
    let digits = remove_char(t, '_');
    match parse_i64(digits.as_str()) {
        Some(v) => v,
        None => 0,
    }
}

#[verifier::spinoff_prover]
fn empty_arguments(range: crate::diagnostic::ByteRange) -> (r: Arguments)
    ensures
        arguments_m(r) == (ArgumentsM { args: Seq::empty(), keywords: Seq::empty(), range }),
{
    let args: Vec<Expr> = Vec::new();
    let keywords: Vec<Keyword> = Vec::new();
    proof {
        assert(exprs_m(args@) =~= Seq::<ExprM>::empty());
        assert(keywords_m(keywords@) =~= Seq::<KeywordM>::empty());
    }
    Arguments { args, keywords, range }
}

/// Parses one node as an expression: `None` where the node is no expression
/// this library models, or where a part that it needs does not parse.
#[verifier::spinoff_prover]
pub fn parse_expr(n: &SyntaxNode) -> (r: Option<Expr>)
    ensures
        opt_expr_m(r) == expr_of(*n),
    decreases n, 6int,
{
    reveal(expr_of);
    let r = node_range(n);
    if is_kind(n, "identifier") {
        Some(Expr::Name(ExprName { id: text_of(n), range: r }))
    } else if is_kind(n, "integer") {
        Some(Expr::NumberLiteral(ExprNumberLiteral { value: Number::Int(int_value_exec(n.text.as_str())), range: r }))
    } else if is_kind(n, "float") {
        Some(Expr::NumberLiteral(ExprNumberLiteral { value: Number::Float(remove_char(n.text.as_str(), '_')), range: r }))
    } else if is_kind(n, "string") {
        Some(parse_string(n))
    } else if is_kind(n, "concatenated_string") {
        Some(parse_concatenated(n))
    } else if is_kind(n, "true") {
        Some(Expr::BooleanLiteral(ExprBooleanLiteral { value: true, range: r }))
    } else if is_kind(n, "false") {
        Some(Expr::BooleanLiteral(ExprBooleanLiteral { value: false, range: r }))
    } else if is_kind(n, "none") {
        Some(Expr::NoneLiteral(ExprNoneLiteral { range: r }))
    } else if is_kind(n, "ellipsis") {
        Some(Expr::EllipsisLiteral(ExprEllipsisLiteral { range: r }))
    } else if is_kind(n, "attribute") {
        match parse_field_expr(n, "object") {
            Some(o) => Some(Expr::Attribute(ExprAttribute {
                value: Box::new(o),
                attr: child_text_by_field_or_empty(n, "attribute"),
                range: r,
            })),
            None => None,
        }
    } else if is_kind(n, "call") {
        match parse_field_expr(n, "function") {
            Some(f) => {
                let arguments = match child_index_by_field(n, "arguments") {
                    Some(i) => parse_arguments(&n.children[i]),
                    None => empty_arguments(r),
                };
                Some(Expr::Call(ExprCall { func: Box::new(f), arguments, range: r }))
            },
            None => None,
        }
    } else if is_kind(n, "subscript") {
        let v = parse_field_expr(n, "value");
        let s = parse_field_expr(n, "subscript");
        match (v, s) {
            (Some(v), Some(s)) => Some(Expr::Subscript(ExprSubscript { value: Box::new(v), slice: Box::new(s), range: r })),
            _ => None,
        }
    } else {
        parse_expr_ops(n)
    }
}

#[verifier::spinoff_prover]
fn parse_binop(n: &SyntaxNode) -> (r: Option<Expr>)
    ensures
        opt_expr_m(r) == binop_expr(*n),
    decreases n, 2int,
{
    let a = parse_field_expr(n, "left");
    let b = parse_field_expr(n, "right");
    match (a, b) {
        (Some(a), Some(b)) => {
            let op = match child_text_by_field(n, "operator") {
                Some(t) => binop_exec(t.as_str()),
                None => Operator::Add,
            };
            Some(Expr::BinOp(ExprBinOp { left: Box::new(a), op, right: Box::new(b), range: node_range(n) }))
        },
        _ => None,
    }
}

#[verifier::spinoff_prover]
fn parse_unop(n: &SyntaxNode) -> (r: Option<Expr>)
    ensures
        opt_expr_m(r) == unop_expr(*n),
    decreases n, 2int,
{
    match parse_field_expr(n, "argument") {
        Some(a) => {
            let op = match child_text_by_field(n, "operator") {
                Some(t) => unop_exec(t.as_str()),
                None => UnaryOp::Not,
            };
            Some(Expr::UnaryOp(ExprUnaryOp { op, operand: Box::new(a), range: node_range(n) }))
        },
        None => None,
    }
}

#[verifier::spinoff_prover]
fn parse_boolop(n: &SyntaxNode) -> (r: Option<Expr>)
    ensures
        opt_expr_m(r) == boolop_expr(*n),
    decreases n, 2int,
{
    let a = parse_field_expr(n, "left");
    let b = parse_field_expr(n, "right");
    match (a, b) {
        (Some(a), Some(b)) => {
            let is_or = match child_text_by_field(n, "operator") {
                Some(t) => str_eq(t.as_str(), "or"),
                None => false,
            };
            let op = if is_or { BoolOp::Or } else { BoolOp::And };
            let ghost ma = expr_m(a);
            let ghost mb = expr_m(b);
            let mut values: Vec<Expr> = Vec::new();
            assert(exprs_m(values@) =~= Seq::<ExprM>::empty());
            proof { lemma_exprs_m_push(values@, a); }
            values.push(a);
            proof { lemma_exprs_m_push(values@, b); }
            values.push(b);
            assert(exprs_m(values@) =~= seq![ma, mb]);
            Some(Expr::BoolOp(ExprBoolOp { op, values, range: node_range(n) }))
        },
        _ => None,
    }
}

#[verifier::spinoff_prover]
fn parse_not(n: &SyntaxNode) -> (r: Option<Expr>)
    ensures
        opt_expr_m(r) == not_expr(*n),
    decreases n, 2int,
{
    match parse_field_expr(n, "argument") {
        Some(a) => Some(Expr::UnaryOp(ExprUnaryOp { op: UnaryOp::Not, operand: Box::new(a), range: node_range(n) })),
        None => None,
    }
}

#[verifier::spinoff_prover]
fn parse_expr_ops(n: &SyntaxNode) -> (r: Option<Expr>)
    ensures
        opt_expr_m(r) == expr_of_ops(*n),
    decreases n, 5int,
{
    reveal(expr_of_ops);
    let r = node_range(n);
    if is_kind(n, "binary_operator") {
        parse_binop(n)
    } else if is_kind(n, "unary_operator") {
        parse_unop(n)
    } else if is_kind(n, "boolean_operator") {
        parse_boolop(n)
    } else if is_kind(n, "not_operator") {
        parse_not(n)
    } else if is_kind(n, "comparison_operator") {
        parse_comparison(n)
    } else if is_kind(n, "list") {
        Some(Expr::List(ExprList { elts: parse_exprs(&n.children), range: r }))
    } else if is_kind(n, "tuple") {
        Some(Expr::Tuple(ExprTuple { elts: parse_exprs(&n.children), range: r }))
    } else if is_kind(n, "dictionary") {
        Some(Expr::Dict(ExprDict { items: parse_dict_items(n), range: r }))
    } else if is_kind(n, "set") {
        Some(Expr::SetDisplay(ExprSet { elts: parse_exprs(&n.children), range: r }))
    } else {
        parse_expr_rest(n)
    }
}

#[verifier::spinoff_prover]
fn parse_expr_rest(n: &SyntaxNode) -> (r: Option<Expr>)
    ensures
        opt_expr_m(r) == expr_of_rest(*n),
    decreases n, 4int,
{
    reveal(expr_of_rest);
    let r = node_range(n);
    if is_kind(n, "list_comprehension") {
        match parse_comp_parts(n) {
            Some((e, g)) => Some(Expr::ListComp(ExprListComp { elt: Box::new(e), generators: g, range: r })),
            None => None,
        }
    } else if is_kind(n, "set_comprehension") {
        match parse_comp_parts(n) {
            Some((e, g)) => Some(Expr::SetComp(ExprSetComp { elt: Box::new(e), generators: g, range: r })),
            None => None,
        }
    } else if is_kind(n, "dictionary_comprehension") {
        match parse_dict_comp_body(n) {
            Some((k, v)) => Some(Expr::DictComp(ExprDictComp {
                key: Box::new(k),
                value: Box::new(v),
                generators: parse_generators(n),
                range: r,
            })),
            None => None,
        }
    } else if is_kind(n, "generator_expression") {
        match parse_comp_parts(n) {
            Some((e, g)) => Some(Expr::Generator(ExprGenerator { elt: Box::new(e), generators: g, range: r })),
            None => None,
        }
    } else if is_kind(n, "lambda") {
        let parameters = match child_index_by_field(n, "parameters") {
            Some(i) => Some(Box::new(parse_parameters(&n.children[i]))),
            None => None,
        };
        match parse_field_expr(n, "body") {
            Some(b) => Some(Expr::Lambda(ExprLambda { parameters, body: Box::new(b), range: r })),
            None => None,
        }
    } else if is_kind(n, "conditional_expression") {
        let mut parts = parse_conditional_parts(n);
        if parts.len() >= 3 {
            let ghost ps = parts@;
            proof {
                assert(ps.subrange(0, 3).subrange(0, 2).subrange(0, 1) == ps.subrange(0, 1));
                lemma_exprs_m_index(ps, 0);
                lemma_exprs_m_index(ps, 1);
                lemma_exprs_m_index(ps, 2);
            }
            let body = parts.remove(0);
            let test = parts.remove(0);
            let orelse = parts.remove(0);
            Some(Expr::If(ExprIf { test: Box::new(test), body: Box::new(body), orelse: Box::new(orelse), range: r }))
        } else {
            proof { lemma_exprs_m_len(parts@); }
            None
        }
    } else if is_kind(n, "named_expression") {
        let t = parse_field_expr(n, "name");
        let v = parse_field_expr(n, "value");
        match (t, v) {
            (Some(t), Some(v)) => Some(Expr::Named(ExprNamed { target: Box::new(t), value: Box::new(v), range: r })),
            _ => None,
        }
    } else if is_kind(n, "await") {
        match parse_child_expr(n, 1) {
            Some(v) => Some(Expr::Await(ExprAwait { value: Box::new(v), range: r })),
            None => None,
        }
    } else if is_kind(n, "yield") {
        Some(Expr::Yield(ExprYield { value: box_opt(parse_child_expr(n, 1)), range: r }))
    } else if is_kind(n, "starred_expression") {
        match parse_child_expr(n, 1) {
            Some(v) => Some(Expr::Starred(ExprStarred { value: Box::new(v), range: r })),
            None => None,
        }
    } else if is_kind(n, "parenthesized_expression") {
        parse_child_expr(n, 1)
    } else {
        None
    }
}

#[verifier::spinoff_prover]
pub proof fn lemma_exprs_m_len(s: Seq<Expr>)
    ensures
        exprs_m(s).len() == s.len(),
    decreases s.len(),
{
    if s.len() > 0 {
        lemma_exprs_m_len(s.subrange(0, s.len() - 1));
    }
}

#[verifier::spinoff_prover]
pub proof fn lemma_exprs_m_index(s: Seq<Expr>, i: int)
    requires
        0 <= i < s.len(),
    ensures
        exprs_m(s).len() == s.len(),
        exprs_m(s)[i] == expr_m(s[i]),
    decreases s.len(),
{
    lemma_exprs_m_len(s);
    if i < s.len() - 1 {
        lemma_exprs_m_index(s.subrange(0, s.len() - 1), i);
    }
}

} // verus!
