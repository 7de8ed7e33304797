//! The mathematical model of the AST: the same tree with sequences in place of
//! vectors and character sequences in place of strings. Contracts of the parser
//! are stated over these models.

use vstd::prelude::*;
use crate::diagnostic::ByteRange;
use crate::ast::{
    Alias, Arguments, BoolOp, CmpOp, Comprehension, DictItem, ElifElseClause, ExceptHandler, Expr,
    FStringPart, Keyword, Module, Number, Operator, Parameter, Parameters, Stmt, StmtClassDef,
    StmtFunctionDef, UnaryOp, WithItem,
};

verus! {

pub ghost struct ModuleM {
    pub body: Seq<StmtM>,
    pub range: ByteRange,
}

pub ghost struct ParameterM {
    pub name: Seq<char>,
    pub annotation: Option<Box<ExprM>>,
    pub default: Option<Box<ExprM>>,
    pub range: ByteRange,
}

pub ghost struct ParametersM {
    pub args: Seq<ParameterM>,
    pub vararg: Option<ParameterM>,
    pub kwonlyargs: Seq<ParameterM>,
    pub kwarg: Option<ParameterM>,
    pub posonlyargs: Seq<ParameterM>,
    pub range: ByteRange,
}

pub ghost struct KeywordM {
    pub arg: Option<Seq<char>>,
    pub value: ExprM,
    pub range: ByteRange,
}

pub ghost struct ArgumentsM {
    pub args: Seq<ExprM>,
    pub keywords: Seq<KeywordM>,
    pub range: ByteRange,
}

pub ghost struct AliasM {
    pub name: Seq<char>,
    pub asname: Option<Seq<char>>,
    pub range: ByteRange,
}

pub ghost struct ComprehensionM {
    pub target: ExprM,
    pub iter: ExprM,
    pub ifs: Seq<ExprM>,
    pub is_async: bool,
    pub range: ByteRange,
}

pub ghost struct DictItemM {
    pub key: Option<ExprM>,
    pub value: ExprM,
}

pub ghost enum FStringPartM {
    Literal(Seq<char>),
    Expression { value: Box<ExprM>, range: ByteRange },
}

pub ghost enum NumberM {
    Int(i64),
    Float(Seq<char>),
    Complex { real: Seq<char>, imag: Seq<char> },
}

pub ghost struct WithItemM {
    pub context_expr: ExprM,
    pub optional_vars: Option<ExprM>,
    pub range: ByteRange,
}

pub ghost struct ExceptHandlerM {
    pub type_: Option<Box<ExprM>>,
    pub name: Option<Seq<char>>,
    pub body: Seq<StmtM>,
    pub range: ByteRange,
}

pub ghost struct ClauseM {
    pub test: Option<ExprM>,
    pub body: Seq<StmtM>,
    pub range: ByteRange,
}

#[allow(inconsistent_fields)]
pub ghost enum ExprM {
    BoolOp { op: BoolOp, values: Seq<ExprM>, range: ByteRange },
    Named { target: Box<ExprM>, value: Box<ExprM>, range: ByteRange },
    BinOp { left: Box<ExprM>, op: Operator, right: Box<ExprM>, range: ByteRange },
    UnaryOp { op: UnaryOp, operand: Box<ExprM>, range: ByteRange },
    Lambda { parameters: Option<Box<ParametersM>>, body: Box<ExprM>, range: ByteRange },
    If { test: Box<ExprM>, body: Box<ExprM>, orelse: Box<ExprM>, range: ByteRange },
    Dict { items: Seq<DictItemM>, range: ByteRange },
    SetDisplay { elts: Seq<ExprM>, range: ByteRange },
    ListComp { elt: Box<ExprM>, generators: Seq<ComprehensionM>, range: ByteRange },
    SetComp { elt: Box<ExprM>, generators: Seq<ComprehensionM>, range: ByteRange },
    DictComp { key: Box<ExprM>, value: Box<ExprM>, generators: Seq<ComprehensionM>, range: ByteRange },
    Generator { elt: Box<ExprM>, generators: Seq<ComprehensionM>, range: ByteRange },
    Await { value: Box<ExprM>, range: ByteRange },
    Yield { value: Option<Box<ExprM>>, range: ByteRange },
    YieldFrom { value: Box<ExprM>, range: ByteRange },
    Compare { left: Box<ExprM>, ops: Seq<CmpOp>, comparators: Seq<ExprM>, range: ByteRange },
    Call { func: Box<ExprM>, arguments: ArgumentsM, range: ByteRange },
    FString { parts: Seq<FStringPartM>, range: ByteRange },
    StringLiteral { value: Seq<char>, range: ByteRange },
    BytesLiteral { value: Seq<u8>, range: ByteRange },
    NumberLiteral { value: NumberM, range: ByteRange },
    BooleanLiteral { value: bool, range: ByteRange },
    NoneLiteral { range: ByteRange },
    EllipsisLiteral { range: ByteRange },
    Attribute { value: Box<ExprM>, attr: Seq<char>, range: ByteRange },
    Subscript { value: Box<ExprM>, slice: Box<ExprM>, range: ByteRange },
    Starred { value: Box<ExprM>, range: ByteRange },
    Name { id: Seq<char>, range: ByteRange },
    List { elts: Seq<ExprM>, range: ByteRange },
    Tuple { elts: Seq<ExprM>, range: ByteRange },
}

pub ghost struct FunctionDefM {
    pub name: Seq<char>,
    pub parameters: ParametersM,
    pub body: Seq<StmtM>,
    pub decorator_list: Seq<ExprM>,
    pub returns: Option<Box<ExprM>>,
    pub is_async: bool,
    pub range: ByteRange,
}

pub ghost struct ClassDefM {
    pub name: Seq<char>,
    pub arguments: Option<Box<ArgumentsM>>,
    pub body: Seq<StmtM>,
    pub decorator_list: Seq<ExprM>,
    pub range: ByteRange,
}

#[allow(inconsistent_fields)]
pub ghost enum StmtM {
    FunctionDef(FunctionDefM),
    ClassDef(ClassDefM),
    Return { value: Option<Box<ExprM>>, range: ByteRange },
    Assign { targets: Seq<ExprM>, value: Box<ExprM>, range: ByteRange },
    AnnAssign { target: Box<ExprM>, annotation: Box<ExprM>, value: Option<Box<ExprM>>, range: ByteRange },
    AugAssign { target: Box<ExprM>, op: Operator, value: Box<ExprM>, range: ByteRange },
    For { target: Box<ExprM>, iter: Box<ExprM>, body: Seq<StmtM>, orelse: Seq<StmtM>, is_async: bool, range: ByteRange },
    While { test: Box<ExprM>, body: Seq<StmtM>, orelse: Seq<StmtM>, range: ByteRange },
    If { test: Box<ExprM>, body: Seq<StmtM>, elif_else_clauses: Seq<ClauseM>, range: ByteRange },
    With { items: Seq<WithItemM>, body: Seq<StmtM>, is_async: bool, range: ByteRange },
    Raise { exc: Option<Box<ExprM>>, cause: Option<Box<ExprM>>, range: ByteRange },
    Try { body: Seq<StmtM>, handlers: Seq<ExceptHandlerM>, orelse: Seq<StmtM>, finalbody: Seq<StmtM>, range: ByteRange },
    Assert { test: Box<ExprM>, msg: Option<Box<ExprM>>, range: ByteRange },
    Import { names: Seq<AliasM>, range: ByteRange },
    ImportFrom { module: Option<Seq<char>>, names: Seq<AliasM>, level: u32, range: ByteRange },
    Global { names: Seq<Seq<char>>, range: ByteRange },
    Nonlocal { names: Seq<Seq<char>>, range: ByteRange },
    Expr { value: Box<ExprM>, range: ByteRange },
    Pass { range: ByteRange },
    Break { range: ByteRange },
    Continue { range: ByteRange },
    Delete { targets: Seq<ExprM>, range: ByteRange },
}

// ── From the AST to its model ──────────────────────────────────────

pub open spec fn opt_str_m(s: Option<String>) -> Option<Seq<char>> {
    match s {
        Some(x) => Some(x@),
        None => None,
    }
}

pub open spec fn strs_m(s: Seq<String>) -> Seq<Seq<char>> {
    s.map_values(|x: String| x@)
}

pub open spec fn alias_m(a: Alias) -> AliasM {
    AliasM { name: a.name@, asname: opt_str_m(a.asname), range: a.range }
}

pub open spec fn aliases_m(s: Seq<Alias>) -> Seq<AliasM> {
    s.map_values(|a: Alias| alias_m(a))
}

pub open spec fn number_m(n: Number) -> NumberM {
    match n {
        Number::Int(i) => NumberM::Int(i),
        Number::Float(t) => NumberM::Float(t@),
        Number::Complex { real: re, imag: im } => NumberM::Complex { real: re@, imag: im@ },
    }
}

pub open spec fn exprs_m(s: Seq<Expr>) -> Seq<ExprM>
    decreases s,
{
    if s.len() == 0 {
        Seq::empty()
    } else {
        exprs_m(s.subrange(0, s.len() - 1)).push(expr_m(s[s.len() - 1]))
    }
}

pub open spec fn opt_box_expr_m(e: Option<Box<Expr>>) -> Option<Box<ExprM>>
    decreases e,
{
    match e {
        Some(b) => Some(Box::new(expr_m(*b))),
        None => None,
    }
}

pub open spec fn opt_expr_m(e: Option<Expr>) -> Option<ExprM>
    decreases e,
{
    match e {
        Some(x) => Some(expr_m(x)),
        None => None,
    }
}

pub open spec fn parameter_m(p: Parameter) -> ParameterM
    decreases p,
{
    ParameterM {
        name: p.name@,
        annotation: opt_box_expr_m(p.annotation),
        default: opt_box_expr_m(p.default),
        range: p.range,
    }
}

pub open spec fn opt_param_m(p: Option<Box<Parameter>>) -> Option<ParameterM>
    decreases p,
{
    match p {
        Some(b) => Some(parameter_m(*b)),
        None => None,
    }
}

pub open spec fn params_m(s: Seq<Parameter>) -> Seq<ParameterM>
    decreases s,
{
    if s.len() == 0 {
        Seq::empty()
    } else {
        params_m(s.subrange(0, s.len() - 1)).push(parameter_m(s[s.len() - 1]))
    }
}

pub open spec fn parameters_m(p: Parameters) -> ParametersM
    decreases p,
{
    ParametersM {
        args: params_m(p.args@),
        vararg: opt_param_m(p.vararg),
        kwonlyargs: params_m(p.kwonlyargs@),
        kwarg: opt_param_m(p.kwarg),
        posonlyargs: params_m(p.posonlyargs@),
        range: p.range,
    }
}

pub open spec fn keyword_m(k: Keyword) -> KeywordM
    decreases k,
{
    KeywordM { arg: opt_str_m(k.arg), value: expr_m(k.value), range: k.range }
}

pub open spec fn keywords_m(s: Seq<Keyword>) -> Seq<KeywordM>
    decreases s,
{
    if s.len() == 0 {
        Seq::empty()
    } else {
        keywords_m(s.subrange(0, s.len() - 1)).push(keyword_m(s[s.len() - 1]))
    }
}

pub open spec fn arguments_m(a: Arguments) -> ArgumentsM
    decreases a,
{
    ArgumentsM { args: exprs_m(a.args@), keywords: keywords_m(a.keywords@), range: a.range }
}

pub open spec fn comprehension_m(c: Comprehension) -> ComprehensionM
    decreases c,
{
    ComprehensionM {
        target: expr_m(c.target),
        iter: expr_m(c.iter),
        ifs: exprs_m(c.ifs@),
        is_async: c.is_async,
        range: c.range,
    }
}

pub open spec fn comprehensions_m(s: Seq<Comprehension>) -> Seq<ComprehensionM>
    decreases s,
{
    if s.len() == 0 {
        Seq::empty()
    } else {
        comprehensions_m(s.subrange(0, s.len() - 1)).push(comprehension_m(s[s.len() - 1]))
    }
}

pub open spec fn dict_item_m(d: DictItem) -> DictItemM
    decreases d,
{
    DictItemM { key: opt_expr_m(d.key), value: expr_m(d.value) }
}

pub open spec fn dict_items_m(s: Seq<DictItem>) -> Seq<DictItemM>
    decreases s,
{
    if s.len() == 0 {
        Seq::empty()
    } else {
        dict_items_m(s.subrange(0, s.len() - 1)).push(dict_item_m(s[s.len() - 1]))
    }
}

pub open spec fn fstring_part_m(p: FStringPart) -> FStringPartM
    decreases p,
{
    match p {
        FStringPart::Literal(s) => FStringPartM::Literal(s@),
        FStringPart::Expression(e) => FStringPartM::Expression { value: Box::new(expr_m(*e.value)), range: e.range },
    }
}

pub open spec fn fstring_parts_m(s: Seq<FStringPart>) -> Seq<FStringPartM>
    decreases s,
{
    if s.len() == 0 {
        Seq::empty()
    } else {
        fstring_parts_m(s.subrange(0, s.len() - 1)).push(fstring_part_m(s[s.len() - 1]))
    }
}

pub open spec fn expr_m(e: Expr) -> ExprM
    decreases e,
{
    match e {
        Expr::BoolOp(x) => ExprM::BoolOp { op: x.op, values: exprs_m(x.values@), range: x.range },
        Expr::Named(x) => ExprM::Named { target: Box::new(expr_m(*x.target)), value: Box::new(expr_m(*x.value)), range: x.range },
        Expr::BinOp(x) => ExprM::BinOp { left: Box::new(expr_m(*x.left)), op: x.op, right: Box::new(expr_m(*x.right)), range: x.range },
        Expr::UnaryOp(x) => ExprM::UnaryOp { op: x.op, operand: Box::new(expr_m(*x.operand)), range: x.range },
        Expr::Lambda(x) => ExprM::Lambda {
            parameters: match x.parameters { Some(p) => Some(Box::new(parameters_m(*p))), None => None },
            body: Box::new(expr_m(*x.body)),
            range: x.range,
        },
        Expr::If(x) => ExprM::If { test: Box::new(expr_m(*x.test)), body: Box::new(expr_m(*x.body)), orelse: Box::new(expr_m(*x.orelse)), range: x.range },
        Expr::Dict(x) => ExprM::Dict { items: dict_items_m(x.items@), range: x.range },
        Expr::SetDisplay(x) => ExprM::SetDisplay { elts: exprs_m(x.elts@), range: x.range },
        Expr::ListComp(x) => ExprM::ListComp { elt: Box::new(expr_m(*x.elt)), generators: comprehensions_m(x.generators@), range: x.range },
        Expr::SetComp(x) => ExprM::SetComp { elt: Box::new(expr_m(*x.elt)), generators: comprehensions_m(x.generators@), range: x.range },
        Expr::DictComp(x) => ExprM::DictComp { key: Box::new(expr_m(*x.key)), value: Box::new(expr_m(*x.value)), generators: comprehensions_m(x.generators@), range: x.range },
        Expr::Generator(x) => ExprM::Generator { elt: Box::new(expr_m(*x.elt)), generators: comprehensions_m(x.generators@), range: x.range },
        Expr::Await(x) => ExprM::Await { value: Box::new(expr_m(*x.value)), range: x.range },
        Expr::Yield(x) => ExprM::Yield { value: opt_box_expr_m(x.value), range: x.range },
        Expr::YieldFrom(x) => ExprM::YieldFrom { value: Box::new(expr_m(*x.value)), range: x.range },
        Expr::Compare(x) => ExprM::Compare { left: Box::new(expr_m(*x.left)), ops: x.ops@, comparators: exprs_m(x.comparators@), range: x.range },
        Expr::Call(x) => ExprM::Call { func: Box::new(expr_m(*x.func)), arguments: arguments_m(x.arguments), range: x.range },
        Expr::FString(x) => ExprM::FString { parts: fstring_parts_m(x.parts@), range: x.range },
        Expr::StringLiteral(x) => ExprM::StringLiteral { value: x.value@, range: x.range },
        Expr::BytesLiteral(x) => ExprM::BytesLiteral { value: x.value@, range: x.range },
        Expr::NumberLiteral(x) => ExprM::NumberLiteral { value: number_m(x.value), range: x.range },
        Expr::BooleanLiteral(x) => ExprM::BooleanLiteral { value: x.value, range: x.range },
        Expr::NoneLiteral(x) => ExprM::NoneLiteral { range: x.range },
        Expr::EllipsisLiteral(x) => ExprM::EllipsisLiteral { range: x.range },
        Expr::Attribute(x) => ExprM::Attribute { value: Box::new(expr_m(*x.value)), attr: x.attr@, range: x.range },
        Expr::Subscript(x) => ExprM::Subscript { value: Box::new(expr_m(*x.value)), slice: Box::new(expr_m(*x.slice)), range: x.range },
        Expr::Starred(x) => ExprM::Starred { value: Box::new(expr_m(*x.value)), range: x.range },
        Expr::Name(x) => ExprM::Name { id: x.id@, range: x.range },
        Expr::List(x) => ExprM::List { elts: exprs_m(x.elts@), range: x.range },
        Expr::Tuple(x) => ExprM::Tuple { elts: exprs_m(x.elts@), range: x.range },
    }
}

pub open spec fn stmts_m(s: Seq<Stmt>) -> Seq<StmtM>
    decreases s,
{
    if s.len() == 0 {
        Seq::empty()
    } else {
        stmts_m(s.subrange(0, s.len() - 1)).push(stmt_m(s[s.len() - 1]))
    }
}

pub open spec fn with_item_m(w: WithItem) -> WithItemM
    decreases w,
{
    WithItemM { context_expr: expr_m(w.context_expr), optional_vars: opt_expr_m(w.optional_vars), range: w.range }
}

pub open spec fn with_items_m(s: Seq<WithItem>) -> Seq<WithItemM>
    decreases s,
{
    if s.len() == 0 {
        Seq::empty()
    } else {
        with_items_m(s.subrange(0, s.len() - 1)).push(with_item_m(s[s.len() - 1]))
    }
}

pub open spec fn handler_m(h: ExceptHandler) -> ExceptHandlerM
    decreases h,
{
    ExceptHandlerM { type_: opt_box_expr_m(h.type_), name: opt_str_m(h.name), body: stmts_m(h.body@), range: h.range }
}

pub open spec fn handlers_m(s: Seq<ExceptHandler>) -> Seq<ExceptHandlerM>
    decreases s,
{
    if s.len() == 0 {
        Seq::empty()
    } else {
        handlers_m(s.subrange(0, s.len() - 1)).push(handler_m(s[s.len() - 1]))
    }
}

pub open spec fn clause_m(c: ElifElseClause) -> ClauseM
    decreases c,
{
    ClauseM { test: opt_expr_m(c.test), body: stmts_m(c.body@), range: c.range }
}

pub open spec fn clauses_m(s: Seq<ElifElseClause>) -> Seq<ClauseM>
    decreases s,
{
    if s.len() == 0 {
        Seq::empty()
    } else {
        clauses_m(s.subrange(0, s.len() - 1)).push(clause_m(s[s.len() - 1]))
    }
}

pub open spec fn function_def_m(f: StmtFunctionDef) -> FunctionDefM
    decreases f,
{
    FunctionDefM {
        name: f.name@,
        parameters: parameters_m(f.parameters),
        body: stmts_m(f.body@),
        decorator_list: exprs_m(f.decorator_list@),
        returns: opt_box_expr_m(f.returns),
        is_async: f.is_async,
        range: f.range,
    }
}

pub open spec fn class_def_m(c: StmtClassDef) -> ClassDefM
    decreases c,
{
    ClassDefM {
        name: c.name@,
        arguments: match c.arguments { Some(a) => Some(Box::new(arguments_m(*a))), None => None },
        body: stmts_m(c.body@),
        decorator_list: exprs_m(c.decorator_list@),
        range: c.range,
    }
}

pub open spec fn stmt_m(s: Stmt) -> StmtM
    decreases s,
{
    match s {
        Stmt::FunctionDef(x) => StmtM::FunctionDef(function_def_m(x)),
        Stmt::ClassDef(x) => StmtM::ClassDef(class_def_m(x)),
        Stmt::Return(x) => StmtM::Return { value: opt_box_expr_m(x.value), range: x.range },
        Stmt::Assign(x) => StmtM::Assign { targets: exprs_m(x.targets@), value: Box::new(expr_m(*x.value)), range: x.range },
        Stmt::AnnAssign(x) => StmtM::AnnAssign {
            target: Box::new(expr_m(*x.target)),
            annotation: Box::new(expr_m(*x.annotation)),
            value: opt_box_expr_m(x.value),
            range: x.range,
        },
        Stmt::AugAssign(x) => StmtM::AugAssign { target: Box::new(expr_m(*x.target)), op: x.op, value: Box::new(expr_m(*x.value)), range: x.range },
        Stmt::For(x) => StmtM::For {
            target: Box::new(expr_m(*x.target)),
            iter: Box::new(expr_m(*x.iter)),
            body: stmts_m(x.body@),
            orelse: stmts_m(x.orelse@),
            is_async: x.is_async,
            range: x.range,
        },
        Stmt::While(x) => StmtM::While { test: Box::new(expr_m(*x.test)), body: stmts_m(x.body@), orelse: stmts_m(x.orelse@), range: x.range },
        Stmt::If(x) => StmtM::If { test: Box::new(expr_m(*x.test)), body: stmts_m(x.body@), elif_else_clauses: clauses_m(x.elif_else_clauses@), range: x.range },
        Stmt::With(x) => StmtM::With { items: with_items_m(x.items@), body: stmts_m(x.body@), is_async: x.is_async, range: x.range },
        Stmt::Raise(x) => StmtM::Raise { exc: opt_box_expr_m(x.exc), cause: opt_box_expr_m(x.cause), range: x.range },
        Stmt::Try(x) => StmtM::Try {
            body: stmts_m(x.body@),
            handlers: handlers_m(x.handlers@),
            orelse: stmts_m(x.orelse@),
            finalbody: stmts_m(x.finalbody@),
            range: x.range,
        },
        Stmt::Assert(x) => StmtM::Assert { test: Box::new(expr_m(*x.test)), msg: opt_box_expr_m(x.msg), range: x.range },
        Stmt::Import(x) => StmtM::Import { names: aliases_m(x.names@), range: x.range },
        Stmt::ImportFrom(x) => StmtM::ImportFrom { module: opt_str_m(x.module), names: aliases_m(x.names@), level: x.level, range: x.range },
        Stmt::Global(x) => StmtM::Global { names: strs_m(x.names@), range: x.range },
        Stmt::Nonlocal(x) => StmtM::Nonlocal { names: strs_m(x.names@), range: x.range },
        Stmt::Expr(x) => StmtM::Expr { value: Box::new(expr_m(*x.value)), range: x.range },
        Stmt::Pass(x) => StmtM::Pass { range: x.range },
        Stmt::Break(x) => StmtM::Break { range: x.range },
        Stmt::Continue(x) => StmtM::Continue { range: x.range },
        Stmt::Delete(x) => StmtM::Delete { targets: exprs_m(x.targets@), range: x.range },
    }
}

pub open spec fn module_m(m: Module) -> ModuleM {
    ModuleM { body: stmts_m(m.body@), range: m.range }
}

} // verus!
