//! What the parser gives for each node of the syntax tree, stated over the
//! model of the AST. The executable parser in `parser` is proved to build
//! exactly these values.

use vstd::prelude::*;
use crate::ast::{BoolOp, CmpOp, Operator, UnaryOp};
use crate::model::{
    ArgumentsM, ComprehensionM, DictItemM, ExprM, FStringPartM, KeywordM, NumberM, ParameterM,
    ParametersM,
};
use crate::syntax::{
    SyntaxNode, kind_is, field_index, kind_index, range_of, field_text, field_text_or_empty,
};
use crate::text::{without_char, i64_from_str};

verus! {


// ── String literals ────────────────────────────────────────────────

/// An ASCII letter.
pub open spec fn is_ascii_alpha(c: char) -> bool {
    ('a' <= c && c <= 'z') || ('A' <= c && c <= 'Z')
}

/// The number of leading ASCII letters of `s` (a literal's prefix such as `b`, `r`, `u`).
pub open spec fn alpha_prefix_len(s: Seq<char>) -> nat
    decreases s.len(),
{
    if s.len() > 0 && is_ascii_alpha(s[0]) {
        1 + alpha_prefix_len(s.drop_first())
    } else {
        0
    }
}

/// What `w` holds between an opening `q` and a closing `q`, if it is so quoted.
pub open spec fn between_quotes(w: Seq<char>, q: Seq<char>) -> Option<Seq<char>> {
    if 2 * q.len() <= w.len() && w.subrange(0, q.len() as int) == q
        && w.subrange(w.len() - q.len(), w.len() as int) == q {
        Some(w.subrange(q.len() as int, w.len() - q.len()))
    } else {
        None
    }
}

pub open spec fn triple_double() -> Seq<char> { seq!['"', '"', '"'] }
pub open spec fn triple_single() -> Seq<char> { seq!['\'', '\'', '\''] }
pub open spec fn one_double() -> Seq<char> { seq!['"'] }
pub open spec fn one_single() -> Seq<char> { seq!['\''] }

/// A Python string literal without its prefix letters and surrounding quotes
/// (triple quotes first, then single); the text itself where it is not quoted.
pub open spec fn strip_string_quotes_spec(s: Seq<char>) -> Seq<char> {
    let w = s.skip(alpha_prefix_len(s) as int);
    match between_quotes(w, triple_double()) {
        Some(r) => r,
        None => match between_quotes(w, triple_single()) {
            Some(r) => r,
            None => match between_quotes(w, one_double()) {
                Some(r) => r,
                None => match between_quotes(w, one_single()) {
                    Some(r) => r,
                    None => s,
                },
            },
        },
    }
}



// ── Expressions: what each node parses to ─────────────────────────

/// A name expression.
pub open spec fn name_m(id: Seq<char>, range: crate::diagnostic::ByteRange) -> ExprM {
    ExprM::Name { id, range }
}

/// A string literal's text starts an f-string (`f"`, `f'`, `F"` or `F'`).
pub open spec fn is_fstring_text(t: Seq<char>) -> bool {
    t.len() >= 2 && (t[0] == 'f' || t[0] == 'F') && (t[1] == '"' || t[1] == '\'')
}

/// The contents of a string node: its `string_content` child's text, or else
/// its text without prefix and quotes.
pub open spec fn string_content(n: SyntaxNode) -> Seq<char> {
    match kind_index(n, "string_content") {
        Some(i) => n.children@[i].text@,
        None => strip_string_quotes_spec(n.text@),
    }
}

/// The expression that a `string` node gives.
pub open spec fn string_expr(n: SyntaxNode) -> ExprM {
    if is_fstring_text(n.text@) {
        ExprM::FString { parts: seq![FStringPartM::Literal(n.text@)], range: range_of(n) }
    } else {
        ExprM::StringLiteral { value: string_content(n), range: range_of(n) }
    }
}

/// Some part of a concatenated string is an f-string.
pub open spec fn has_fstring_part(cs: Seq<SyntaxNode>) -> bool {
    exists|i: int| 0 <= i < cs.len() && kind_is(#[trigger] cs[i], "string") && is_fstring_text(cs[i].text@)
}

/// The contents of the `string` parts of a concatenated string, joined.
pub open spec fn string_parts(cs: Seq<SyntaxNode>) -> Seq<char>
    decreases cs.len(),
{
    if cs.len() == 0 {
        Seq::empty()
    } else if kind_is(cs.last(), "string") {
        string_parts(cs.drop_last()) + string_content(cs.last())
    } else {
        string_parts(cs.drop_last())
    }
}

/// The expression that a `concatenated_string` node gives.
pub open spec fn concatenated_expr(n: SyntaxNode) -> ExprM {
    if has_fstring_part(n.children@) {
        ExprM::FString { parts: seq![FStringPartM::Literal(n.text@)], range: range_of(n) }
    } else {
        ExprM::StringLiteral { value: string_parts(n.children@), range: range_of(n) }
    }
}

/// The value of an integer literal: its digits without underscores read as an
/// `i64`, or 0 where that fails.
pub open spec fn int_value(t: Seq<char>) -> i64 {
    match i64_from_str(without_char(t, '_')) {
        Some(v) => v,
        None => 0,
    }
}

/// The binary operator that an operator token denotes (`+` where unknown).
pub open spec fn binop_of(t: Seq<char>) -> Operator {
    if t == "+"@ { Operator::Add }
    else if t == "-"@ { Operator::Sub }
    else if t == "*"@ { Operator::Mult }
    else if t == "/"@ { Operator::Div }
    else if t == "%"@ { Operator::Mod }
    else if t == "**"@ { Operator::Pow }
    else if t == "<<"@ { Operator::LShift }
    else if t == ">>"@ { Operator::RShift }
    else if t == "|"@ { Operator::BitOr }
    else if t == "^"@ { Operator::BitXor }
    else if t == "&"@ { Operator::BitAnd }
    else if t == "//"@ { Operator::FloorDiv }
    else if t == "@"@ { Operator::MatMult }
    else { Operator::Add }
}

/// The operator that an augmented-assignment token denotes (`+=` where unknown).
pub open spec fn augop_of(t: Seq<char>) -> Operator {
    if t == "+="@ { Operator::Add }
    else if t == "-="@ { Operator::Sub }
    else if t == "*="@ { Operator::Mult }
    else if t == "/="@ { Operator::Div }
    else if t == "%="@ { Operator::Mod }
    else if t == "**="@ { Operator::Pow }
    else if t == "<<="@ { Operator::LShift }
    else if t == ">>="@ { Operator::RShift }
    else if t == "|="@ { Operator::BitOr }
    else if t == "^="@ { Operator::BitXor }
    else if t == "&="@ { Operator::BitAnd }
    else if t == "//="@ { Operator::FloorDiv }
    else if t == "@="@ { Operator::MatMult }
    else { Operator::Add }
}

/// The unary operator that a token denotes (`not` where unknown).
pub open spec fn unop_of(t: Seq<char>) -> UnaryOp {
    if t == "not"@ { UnaryOp::Not }
    else if t == "-"@ { UnaryOp::USub }
    else if t == "+"@ { UnaryOp::UAdd }
    else if t == "~"@ { UnaryOp::Invert }
    else { UnaryOp::Not }
}

/// The Python token that writes a binary operator.
pub open spec fn operator_token(op: Operator) -> Seq<char> {
    match op {
        Operator::Add => seq!['+'],
        Operator::Sub => seq!['-'],
        Operator::Mult => seq!['*'],
        Operator::Div => seq!['/'],
        Operator::Mod => seq!['%'],
        Operator::Pow => seq!['*', '*'],
        Operator::LShift => seq!['<', '<'],
        Operator::RShift => seq!['>', '>'],
        Operator::BitOr => seq!['|'],
        Operator::BitXor => seq!['^'],
        Operator::BitAnd => seq!['&'],
        Operator::FloorDiv => seq!['/', '/'],
        Operator::MatMult => seq!['@'],
    }
}

/// The Python token that writes a unary operator.
pub open spec fn unary_token(op: UnaryOp) -> Seq<char> {
    match op {
        UnaryOp::Not => seq!['n', 'o', 't'],
        UnaryOp::USub => seq!['-'],
        UnaryOp::UAdd => seq!['+'],
        UnaryOp::Invert => seq!['~'],
    }
}

/// Each operator token is read as the operator it writes: a binary operator
/// from its token, and from its token followed by `=` in an augmented
/// assignment. So distinct operator tokens are read as distinct operators.
pub proof fn lemma_operator_tokens_read_back(op: Operator)
    ensures
        binop_of(operator_token(op)) == op,
        augop_of(operator_token(op) + seq!['=']) == op,
{
    reveal_strlit("+");
    reveal_strlit("-");
    reveal_strlit("*");
    reveal_strlit("/");
    reveal_strlit("%");
    reveal_strlit("**");
    reveal_strlit("<<");
    reveal_strlit(">>");
    reveal_strlit("|");
    reveal_strlit("^");
    reveal_strlit("&");
    reveal_strlit("//");
    reveal_strlit("@");
    reveal_strlit("+=");
    reveal_strlit("-=");
    reveal_strlit("*=");
    reveal_strlit("/=");
    reveal_strlit("%=");
    reveal_strlit("**=");
    reveal_strlit("<<=");
    reveal_strlit(">>=");
    reveal_strlit("|=");
    reveal_strlit("^=");
    reveal_strlit("&=");
    reveal_strlit("//=");
    reveal_strlit("@=");
    let t = operator_token(op);
    let a = t + seq!['='];
    match op {
        Operator::Add => {
            assert(t =~= "+"@);
            assert(a =~= "+="@);
        },
        Operator::Sub => {
            assert(t[0] != "+"@[0]);
            assert(a[0] != "+="@[0]);
            assert(t =~= "-"@);
            assert(a =~= "-="@);
        },
        Operator::Mult => {
            assert(t[0] != "+"@[0]);
            assert(a[0] != "+="@[0]);
            assert(t[0] != "-"@[0]);
            assert(a[0] != "-="@[0]);
            assert(t =~= "*"@);
            assert(a =~= "*="@);
        },
        Operator::Div => {
            assert(t[0] != "+"@[0]);
            assert(a[0] != "+="@[0]);
            assert(t[0] != "-"@[0]);
            assert(a[0] != "-="@[0]);
            assert(t[0] != "*"@[0]);
            assert(a[0] != "*="@[0]);
            assert(t =~= "/"@);
            assert(a =~= "/="@);
        },
        Operator::Mod => {
            assert(t[0] != "+"@[0]);
            assert(a[0] != "+="@[0]);
            assert(t[0] != "-"@[0]);
            assert(a[0] != "-="@[0]);
            assert(t[0] != "*"@[0]);
            assert(a[0] != "*="@[0]);
            assert(t[0] != "/"@[0]);
            assert(a[0] != "/="@[0]);
            assert(t =~= "%"@);
            assert(a =~= "%="@);
        },
        Operator::Pow => {
            assert(t.len() != "+"@.len());
            assert(a.len() != "+="@.len());
            assert(t.len() != "-"@.len());
            assert(a.len() != "-="@.len());
            assert(t.len() != "*"@.len());
            assert(a.len() != "*="@.len());
            assert(t.len() != "/"@.len());
            assert(a.len() != "/="@.len());
            assert(t.len() != "%"@.len());
            assert(a.len() != "%="@.len());
            assert(t =~= "**"@);
            assert(a =~= "**="@);
        },
        Operator::LShift => {
            assert(t.len() != "+"@.len());
            assert(a.len() != "+="@.len());
            assert(t.len() != "-"@.len());
            assert(a.len() != "-="@.len());
            assert(t.len() != "*"@.len());
            assert(a.len() != "*="@.len());
            assert(t.len() != "/"@.len());
            assert(a.len() != "/="@.len());
            assert(t.len() != "%"@.len());
            assert(a.len() != "%="@.len());
            assert(t[0] != "**"@[0]);
            assert(a[0] != "**="@[0]);
            assert(t =~= "<<"@);
            assert(a =~= "<<="@);
        },
        Operator::RShift => {
            assert(t.len() != "+"@.len());
            assert(a.len() != "+="@.len());
            assert(t.len() != "-"@.len());
            assert(a.len() != "-="@.len());
            assert(t.len() != "*"@.len());
            assert(a.len() != "*="@.len());
            assert(t.len() != "/"@.len());
            assert(a.len() != "/="@.len());
            assert(t.len() != "%"@.len());
            assert(a.len() != "%="@.len());
            assert(t[0] != "**"@[0]);
            assert(a[0] != "**="@[0]);
            assert(t[0] != "<<"@[0]);
            assert(a[0] != "<<="@[0]);
            assert(t =~= ">>"@);
            assert(a =~= ">>="@);
        },
        Operator::BitOr => {
            assert(t[0] != "+"@[0]);
            assert(a[0] != "+="@[0]);
            assert(t[0] != "-"@[0]);
            assert(a[0] != "-="@[0]);
            assert(t[0] != "*"@[0]);
            assert(a[0] != "*="@[0]);
            assert(t[0] != "/"@[0]);
            assert(a[0] != "/="@[0]);
            assert(t[0] != "%"@[0]);
            assert(a[0] != "%="@[0]);
            assert(t.len() != "**"@.len());
            assert(a.len() != "**="@.len());
            assert(t.len() != "<<"@.len());
            assert(a.len() != "<<="@.len());
            assert(t.len() != ">>"@.len());
            assert(a.len() != ">>="@.len());
            assert(t =~= "|"@);
            assert(a =~= "|="@);
        },
        Operator::BitXor => {
            assert(t[0] != "+"@[0]);
            assert(a[0] != "+="@[0]);
            assert(t[0] != "-"@[0]);
            assert(a[0] != "-="@[0]);
            assert(t[0] != "*"@[0]);
            assert(a[0] != "*="@[0]);
            assert(t[0] != "/"@[0]);
            assert(a[0] != "/="@[0]);
            assert(t[0] != "%"@[0]);
            assert(a[0] != "%="@[0]);
            assert(t.len() != "**"@.len());
            assert(a.len() != "**="@.len());
            assert(t.len() != "<<"@.len());
            assert(a.len() != "<<="@.len());
            assert(t.len() != ">>"@.len());
            assert(a.len() != ">>="@.len());
            assert(t[0] != "|"@[0]);
            assert(a[0] != "|="@[0]);
            assert(t =~= "^"@);
            assert(a =~= "^="@);
        },
        Operator::BitAnd => {
            assert(t[0] != "+"@[0]);
            assert(a[0] != "+="@[0]);
            assert(t[0] != "-"@[0]);
            assert(a[0] != "-="@[0]);
            assert(t[0] != "*"@[0]);
            assert(a[0] != "*="@[0]);
            assert(t[0] != "/"@[0]);
            assert(a[0] != "/="@[0]);
            assert(t[0] != "%"@[0]);
            assert(a[0] != "%="@[0]);
            assert(t.len() != "**"@.len());
            assert(a.len() != "**="@.len());
            assert(t.len() != "<<"@.len());
            assert(a.len() != "<<="@.len());
            assert(t.len() != ">>"@.len());
            assert(a.len() != ">>="@.len());
            assert(t[0] != "|"@[0]);
            assert(a[0] != "|="@[0]);
            assert(t[0] != "^"@[0]);
            assert(a[0] != "^="@[0]);
            assert(t =~= "&"@);
            assert(a =~= "&="@);
        },
        Operator::FloorDiv => {
            assert(t.len() != "+"@.len());
            assert(a.len() != "+="@.len());
            assert(t.len() != "-"@.len());
            assert(a.len() != "-="@.len());
            assert(t.len() != "*"@.len());
            assert(a.len() != "*="@.len());
            assert(t.len() != "/"@.len());
            assert(a.len() != "/="@.len());
            assert(t.len() != "%"@.len());
            assert(a.len() != "%="@.len());
            assert(t[0] != "**"@[0]);
            assert(a[0] != "**="@[0]);
            assert(t[0] != "<<"@[0]);
            assert(a[0] != "<<="@[0]);
            assert(t[0] != ">>"@[0]);
            assert(a[0] != ">>="@[0]);
            assert(t.len() != "|"@.len());
            assert(a.len() != "|="@.len());
            assert(t.len() != "^"@.len());
            assert(a.len() != "^="@.len());
            assert(t.len() != "&"@.len());
            assert(a.len() != "&="@.len());
            assert(t =~= "//"@);
            assert(a =~= "//="@);
        },
        Operator::MatMult => {
            assert(t[0] != "+"@[0]);
            assert(a[0] != "+="@[0]);
            assert(t[0] != "-"@[0]);
            assert(a[0] != "-="@[0]);
            assert(t[0] != "*"@[0]);
            assert(a[0] != "*="@[0]);
            assert(t[0] != "/"@[0]);
            assert(a[0] != "/="@[0]);
            assert(t[0] != "%"@[0]);
            assert(a[0] != "%="@[0]);
            assert(t.len() != "**"@.len());
            assert(a.len() != "**="@.len());
            assert(t.len() != "<<"@.len());
            assert(a.len() != "<<="@.len());
            assert(t.len() != ">>"@.len());
            assert(a.len() != ">>="@.len());
            assert(t[0] != "|"@[0]);
            assert(a[0] != "|="@[0]);
            assert(t[0] != "^"@[0]);
            assert(a[0] != "^="@[0]);
            assert(t[0] != "&"@[0]);
            assert(a[0] != "&="@[0]);
            assert(t.len() != "//"@.len());
            assert(a.len() != "//="@.len());
            assert(t =~= "@"@);
            assert(a =~= "@="@);
        },
    }
}

/// Each unary operator token is read as the operator it writes.
pub proof fn lemma_unary_tokens_read_back(op: UnaryOp)
    ensures
        unop_of(unary_token(op)) == op,
{
    reveal_strlit("not");
    reveal_strlit("-");
    reveal_strlit("+");
    reveal_strlit("~");
    let t = unary_token(op);
    match op {
        UnaryOp::Not => {
            assert(t =~= "not"@);
        },
        UnaryOp::USub => {
            assert(t.len() != "not"@.len());
            assert(t =~= "-"@);
        },
        UnaryOp::UAdd => {
            assert(t.len() != "not"@.len());
            assert(t[0] != "-"@[0]);
            assert(t =~= "+"@);
        },
        UnaryOp::Invert => {
            assert(t.len() != "not"@.len());
            assert(t[0] != "-"@[0]);
            assert(t[0] != "+"@[0]);
            assert(t =~= "~"@);
        },
    }
}

/// An optional expression, boxed.
pub open spec fn boxed(e: Option<ExprM>) -> Option<Box<ExprM>> {
    match e {
        Some(x) => Some(Box::new(x)),
        None => None,
    }
}

/// The text of the child at index `i`, or the empty text.
pub open spec fn child_text_or_empty(n: SyntaxNode, i: int) -> Seq<char> {
    if 0 <= i < n.children@.len() { n.children@[i].text@ } else { Seq::empty() }
}

/// The parse of the child under field `f`.
pub open spec fn field_expr(n: SyntaxNode, f: &str) -> Option<ExprM>
    decreases n, 0int,
{
    match field_index(n, f) {
        Some(i) => if 0 <= i < n.children@.len() { expr_of(n.children@[i]) } else { None },
        None => None,
    }
}

/// The parse of the child at index `i`.
pub open spec fn child_expr(n: SyntaxNode, i: int) -> Option<ExprM>
    decreases n, 0int,
{
    if 0 <= i < n.children@.len() { expr_of(n.children@[i]) } else { None }
}

/// The children that parse as expressions, parsed, in order.
pub open spec fn exprs_of(cs: Seq<SyntaxNode>) -> Seq<ExprM>
    decreases cs, 0int,
{
    if cs.len() == 0 {
        Seq::empty()
    } else {
        let prev = exprs_of(cs.subrange(0, cs.len() - 1));
        match expr_of(cs[cs.len() - 1]) {
            Some(e) => prev.push(e),
            None => prev,
        }
    }
}

pub ghost struct ArgsAcc {
    pub args: Seq<ExprM>,
    pub keywords: Seq<KeywordM>,
}

/// Positional and keyword arguments gathered from the children of an argument list.
pub open spec fn args_fold(cs: Seq<SyntaxNode>) -> ArgsAcc
    decreases cs, 0int,
{
    if cs.len() == 0 {
        ArgsAcc { args: Seq::empty(), keywords: Seq::empty() }
    } else {
        let acc = args_fold(cs.subrange(0, cs.len() - 1));
        let c = cs[cs.len() - 1];
        if kind_is(c, "keyword_argument") {
            match field_expr(c, "value") {
                Some(v) => ArgsAcc { args: acc.args, keywords: acc.keywords.push(KeywordM { arg: field_text(c, "name"), value: v, range: range_of(c) }) },
                None => acc,
            }
        } else if kind_is(c, "dictionary_splat") {
            match child_expr(c, 1) {
                Some(v) => ArgsAcc { args: acc.args, keywords: acc.keywords.push(KeywordM { arg: None, value: v, range: range_of(c) }) },
                None => acc,
            }
        } else if kind_is(c, "list_splat") {
            match child_expr(c, 1) {
                Some(v) => ArgsAcc { args: acc.args.push(ExprM::Starred { value: Box::new(v), range: range_of(c) }), keywords: acc.keywords },
                None => acc,
            }
        } else if kind_is(c, "(") || kind_is(c, ")") || kind_is(c, ",") {
            acc
        } else {
            match expr_of(c) {
                Some(e) => ArgsAcc { args: acc.args.push(e), keywords: acc.keywords },
                None => acc,
            }
        }
    }
}

/// The arguments that an argument-list node gives.
pub open spec fn arguments_of(n: SyntaxNode) -> ArgumentsM
    decreases n, 1int,
{
    let acc = args_fold(n.children@);
    ArgumentsM { args: acc.args, keywords: acc.keywords, range: range_of(n) }
}

/// The comparison operator at child `i` and the index of its last token
/// (`is not` and `not in` take two tokens); `None` for any other token.
#[verifier::opaque]
pub open spec fn comparison_op_at(cs: Seq<SyntaxNode>, i: int) -> Option<(CmpOp, int)> {
    let t = cs[i].text@;
    if t == "=="@ { Some((CmpOp::Eq, i)) }
    else if t == "!="@ { Some((CmpOp::NotEq, i)) }
    else if t == "<"@ { Some((CmpOp::Lt, i)) }
    else if t == "<="@ { Some((CmpOp::LtE, i)) }
    else if t == ">"@ { Some((CmpOp::Gt, i)) }
    else if t == ">="@ { Some((CmpOp::GtE, i)) }
    else if t == "is"@ {
        if i + 1 < cs.len() && cs[i + 1].text@ == "not"@ { Some((CmpOp::IsNot, i + 1)) } else { Some((CmpOp::Is, i)) }
    }
    else if t == "in"@ { Some((CmpOp::In, i)) }
    else if t == "not"@ {
        if i + 1 < cs.len() && cs[i + 1].text@ == "in"@ { Some((CmpOp::NotIn, i + 1)) } else { None }
    }
    else { None }
}

/// Operators and comparators from child `i` on; `None` if an operator is unknown.
#[verifier::opaque]
pub open spec fn comparison_loop(cs: Seq<SyntaxNode>, i: int) -> Option<(Seq<CmpOp>, Seq<ExprM>)>
    decreases cs, cs.len() - i,
{
    if i < 0 || i >= cs.len() {
        Some((Seq::empty(), Seq::empty()))
    } else {
        match comparison_op_at(cs, i) {
            None => None,
            Some((op, j)) => {
                let k = j + 1;
                let comp = if 0 <= k < cs.len() { expr_of(cs[k]) } else { None };
                let rest = if i < k + 1 <= cs.len() { comparison_loop(cs, k + 1) } else { Some((Seq::empty(), Seq::empty())) };
                match rest {
                    None => None,
                    Some((ops, comps)) => Some((
                        seq![op] + ops,
                        match comp { Some(c) => seq![c] + comps, None => comps },
                    )),
                }
            },
        }
    }
}

/// The comparison that a `comparison_operator` node gives.
pub open spec fn comparison_of(n: SyntaxNode) -> Option<ExprM>
    decreases n, 1int,
{
    let cs = n.children@;
    if cs.len() < 3 {
        None
    } else {
        match expr_of(cs[0]) {
            None => None,
            Some(left) => match comparison_loop(cs, 1) {
                None => None,
                Some((ops, comps)) => Some(ExprM::Compare { left: Box::new(left), ops, comparators: comps, range: range_of(n) }),
            },
        }
    }
}

/// The parameter that one parameter node gives.
pub open spec fn parameter_of(n: SyntaxNode) -> ParameterM
    decreases n, 1int,
{
    if kind_is(n, "identifier") {
        ParameterM { name: n.text@, annotation: None, default: None, range: range_of(n) }
    } else if kind_is(n, "typed_parameter") {
        ParameterM { name: child_text_or_empty(n, 0), annotation: boxed(field_expr(n, "type")), default: None, range: range_of(n) }
    } else if kind_is(n, "default_parameter") {
        ParameterM { name: field_text_or_empty(n, "name"), annotation: None, default: boxed(field_expr(n, "value")), range: range_of(n) }
    } else if kind_is(n, "typed_default_parameter") {
        ParameterM {
            name: field_text_or_empty(n, "name"),
            annotation: boxed(field_expr(n, "type")),
            default: boxed(field_expr(n, "value")),
            range: range_of(n),
        }
    } else {
        ParameterM { name: n.text@, annotation: None, default: None, range: range_of(n) }
    }
}

/// The name of `*args` / `**kwargs`: the text of child 1, else of child 0, else empty.
pub open spec fn splat_name(n: SyntaxNode) -> Seq<char> {
    if 1 < n.children@.len() {
        n.children@[1].text@
    } else if 0 < n.children@.len() {
        n.children@[0].text@
    } else {
        Seq::empty()
    }
}

/// A plain parameter node kind.
pub open spec fn is_parameter_kind(c: SyntaxNode) -> bool {
    kind_is(c, "identifier") || kind_is(c, "typed_parameter") || kind_is(c, "default_parameter")
        || kind_is(c, "typed_default_parameter")
}

pub ghost struct ParamsAcc {
    pub args: Seq<ParameterM>,
    pub vararg: Option<ParameterM>,
    pub kwonlyargs: Seq<ParameterM>,
    pub kwarg: Option<ParameterM>,
    pub seen_star: bool,
}

/// Parameters gathered from the children of a parameter list: plain parameters
/// are positional until a `*` or `*args`, keyword-only after.
pub open spec fn params_fold(cs: Seq<SyntaxNode>) -> ParamsAcc
    decreases cs, 0int,
{
    if cs.len() == 0 {
        ParamsAcc { args: Seq::empty(), vararg: None, kwonlyargs: Seq::empty(), kwarg: None, seen_star: false }
    } else {
        let acc = params_fold(cs.subrange(0, cs.len() - 1));
        let c = cs[cs.len() - 1];
        if is_parameter_kind(c) {
            let p = parameter_of(c);
            if acc.seen_star {
                ParamsAcc { kwonlyargs: acc.kwonlyargs.push(p), ..acc }
            } else {
                ParamsAcc { args: acc.args.push(p), ..acc }
            }
        } else if kind_is(c, "list_splat_pattern") || kind_is(c, "dictionary_splat_pattern") {
            let p = ParameterM { name: splat_name(c), annotation: None, default: None, range: range_of(c) };
            if kind_is(c, "dictionary_splat_pattern") {
                ParamsAcc { kwarg: Some(p), ..acc }
            } else {
                ParamsAcc { vararg: Some(p), seen_star: true, ..acc }
            }
        } else if kind_is(c, "*") {
            ParamsAcc { seen_star: true, ..acc }
        } else {
            acc
        }
    }
}

/// The parameter list that a `parameters` node gives.
pub open spec fn parameters_of(n: SyntaxNode) -> ParametersM
    decreases n, 1int,
{
    let acc = params_fold(n.children@);
    ParametersM {
        args: acc.args,
        vararg: acc.vararg,
        kwonlyargs: acc.kwonlyargs,
        kwarg: acc.kwarg,
        posonlyargs: Seq::empty(),
        range: range_of(n),
    }
}

/// Dictionary entries gathered from the children of a dictionary node.
pub open spec fn dict_fold(cs: Seq<SyntaxNode>) -> Seq<DictItemM>
    decreases cs, 0int,
{
    if cs.len() == 0 {
        Seq::empty()
    } else {
        let acc = dict_fold(cs.subrange(0, cs.len() - 1));
        let c = cs[cs.len() - 1];
        if kind_is(c, "pair") {
            match field_expr(c, "value") {
                Some(v) => acc.push(DictItemM { key: field_expr(c, "key"), value: v }),
                None => acc,
            }
        } else if kind_is(c, "dictionary_splat") {
            match child_expr(c, 1) {
                Some(v) => acc.push(DictItemM { key: None, value: v }),
                None => acc,
            }
        } else {
            acc
        }
    }
}

/// The parsed parts of a conditional expression (the `if`/`else` keywords left out).
pub open spec fn cond_fold(cs: Seq<SyntaxNode>) -> Seq<ExprM>
    decreases cs, 0int,
{
    if cs.len() == 0 {
        Seq::empty()
    } else {
        let acc = cond_fold(cs.subrange(0, cs.len() - 1));
        let c = cs[cs.len() - 1];
        if !kind_is(c, "if") && !kind_is(c, "else") {
            match expr_of(c) {
                Some(e) => acc.push(e),
                None => acc,
            }
        } else {
            acc
        }
    }
}

/// The placeholder target or iterable of a comprehension clause that does not parse.
pub open spec fn underscore(c: SyntaxNode) -> ExprM {
    name_m(seq!['_'], range_of(c))
}

/// The generators gathered from the children of a comprehension: one per
/// `for ... in ...` clause, each `if` clause a condition of the latest one.
pub open spec fn gens_fold(cs: Seq<SyntaxNode>) -> Seq<ComprehensionM>
    decreases cs, 0int,
{
    if cs.len() == 0 {
        Seq::empty()
    } else {
        let acc = gens_fold(cs.subrange(0, cs.len() - 1));
        let c = cs[cs.len() - 1];
        if kind_is(c, "for_in_clause") {
            let target = match field_expr(c, "left") { Some(e) => e, None => underscore(c) };
            let iter = match field_expr(c, "right") { Some(e) => e, None => underscore(c) };
            acc.push(ComprehensionM { target, iter, ifs: Seq::empty(), is_async: false, range: range_of(c) })
        } else if kind_is(c, "if_clause") {
            match child_expr(c, 1) {
                Some(e) => if acc.len() > 0 {
                    let last = acc[acc.len() - 1];
                    acc.update(acc.len() - 1, ComprehensionM { ifs: last.ifs.push(e), ..last })
                } else {
                    acc
                },
                None => acc,
            }
        } else {
            acc
        }
    }
}

/// `[elt for ...]`, `{elt for ...}` and `(elt for ...)` share this shape.
pub open spec fn comp_parts(n: SyntaxNode) -> Option<(ExprM, Seq<ComprehensionM>)>
    decreases n, 1int,
{
    match field_expr(n, "body") {
        Some(e) => Some((e, gens_fold(n.children@))),
        None => None,
    }
}

/// The key and value of a dictionary comprehension's body.
pub open spec fn dict_comp_body(n: SyntaxNode) -> Option<(ExprM, ExprM)>
    decreases n, 1int,
{
    match field_index(n, "body") {
        Some(i) => if 0 <= i < n.children@.len() {
            let b = n.children@[i];
            match (field_expr(b, "key"), field_expr(b, "value")) {
                (Some(k), Some(v)) => Some((k, v)),
                _ => None,
            }
        } else {
            None
        },
        None => None,
    }
}

/// The expression that a node parses to, if it is one.
#[verifier::opaque]
pub open spec fn expr_of(n: SyntaxNode) -> Option<ExprM>
    decreases n, 6int,
{
    let r = range_of(n);
    let cs = n.children@;
    if kind_is(n, "identifier") {
        Some(ExprM::Name { id: n.text@, range: r })
    } else if kind_is(n, "integer") {
        Some(ExprM::NumberLiteral { value: NumberM::Int(int_value(n.text@)), range: r })
    } else if kind_is(n, "float") {
        Some(ExprM::NumberLiteral { value: NumberM::Float(without_char(n.text@, '_')), range: r })
    } else if kind_is(n, "string") {
        Some(string_expr(n))
    } else if kind_is(n, "concatenated_string") {
        Some(concatenated_expr(n))
    } else if kind_is(n, "true") {
        Some(ExprM::BooleanLiteral { value: true, range: r })
    } else if kind_is(n, "false") {
        Some(ExprM::BooleanLiteral { value: false, range: r })
    } else if kind_is(n, "none") {
        Some(ExprM::NoneLiteral { range: r })
    } else if kind_is(n, "ellipsis") {
        Some(ExprM::EllipsisLiteral { range: r })
    } else if kind_is(n, "attribute") {
        match field_expr(n, "object") {
            Some(o) => Some(ExprM::Attribute { value: Box::new(o), attr: field_text_or_empty(n, "attribute"), range: r }),
            None => None,
        }
    } else if kind_is(n, "call") {
        match field_expr(n, "function") {
            Some(f) => Some(ExprM::Call {
                func: Box::new(f),
                arguments: match field_index(n, "arguments") {
                    Some(i) => if 0 <= i < cs.len() { arguments_of(cs[i]) } else { ArgumentsM { args: Seq::empty(), keywords: Seq::empty(), range: r } },
                    None => ArgumentsM { args: Seq::empty(), keywords: Seq::empty(), range: r },
                },
                range: r,
            }),
            None => None,
        }
    } else if kind_is(n, "subscript") {
        match (field_expr(n, "value"), field_expr(n, "subscript")) {
            (Some(v), Some(s)) => Some(ExprM::Subscript { value: Box::new(v), slice: Box::new(s), range: r }),
            _ => None,
        }
    } else {
        expr_of_ops(n)
    }
}

/// A binary operation: both operands must parse.
pub open spec fn binop_expr(n: SyntaxNode) -> Option<ExprM>
    decreases n, 2int,
{
    match (field_expr(n, "left"), field_expr(n, "right")) {
        (Some(a), Some(b)) => Some(ExprM::BinOp {
            left: Box::new(a),
            op: match field_text(n, "operator") { Some(t) => binop_of(t), None => Operator::Add },
            right: Box::new(b),
            range: range_of(n),
        }),
        _ => None,
    }
}

/// A unary operation (`-x`, `+x`, `~x`).
pub open spec fn unop_expr(n: SyntaxNode) -> Option<ExprM>
    decreases n, 2int,
{
    match field_expr(n, "argument") {
        Some(a) => Some(ExprM::UnaryOp {
            op: match field_text(n, "operator") { Some(t) => unop_of(t), None => UnaryOp::Not },
            operand: Box::new(a),
            range: range_of(n),
        }),
        None => None,
    }
}

/// `a and b` / `a or b`: both operands must parse.
pub open spec fn boolop_expr(n: SyntaxNode) -> Option<ExprM>
    decreases n, 2int,
{
    match (field_expr(n, "left"), field_expr(n, "right")) {
        (Some(a), Some(b)) => Some(ExprM::BoolOp {
            op: if field_text(n, "operator") == Some("or"@) { BoolOp::Or } else { BoolOp::And },
            values: seq![a, b],
            range: range_of(n),
        }),
        _ => None,
    }
}

/// `not x`.
pub open spec fn not_expr(n: SyntaxNode) -> Option<ExprM>
    decreases n, 2int,
{
    match field_expr(n, "argument") {
        Some(a) => Some(ExprM::UnaryOp { op: UnaryOp::Not, operand: Box::new(a), range: range_of(n) }),
        None => None,
    }
}

/// The expression that an operator or a display node parses to.
#[verifier::opaque]
pub open spec fn expr_of_ops(n: SyntaxNode) -> Option<ExprM>
    decreases n, 5int,
{
    let r = range_of(n);
    let cs = n.children@;
    if kind_is(n, "binary_operator") {
        binop_expr(n)
    } else if kind_is(n, "unary_operator") {
        unop_expr(n)
    } else if kind_is(n, "boolean_operator") {
        boolop_expr(n)
    } else if kind_is(n, "not_operator") {
        not_expr(n)
    } else if kind_is(n, "comparison_operator") {
        comparison_of(n)
    } else if kind_is(n, "list") {
        Some(ExprM::List { elts: exprs_of(cs), range: r })
    } else if kind_is(n, "tuple") {
        Some(ExprM::Tuple { elts: exprs_of(cs), range: r })
    } else if kind_is(n, "dictionary") {
        Some(ExprM::Dict { items: dict_fold(cs), range: r })
    } else if kind_is(n, "set") {
        Some(ExprM::SetDisplay { elts: exprs_of(cs), range: r })
    } else {
        expr_of_rest(n)
    }
}

/// The expression that a comprehension, lambda, conditional or wrapper node parses to.
#[verifier::opaque]
pub open spec fn expr_of_rest(n: SyntaxNode) -> Option<ExprM>
    decreases n, 4int,
{
    let r = range_of(n);
    let cs = n.children@;
    if kind_is(n, "list_comprehension") {
        match comp_parts(n) {
            Some((e, g)) => Some(ExprM::ListComp { elt: Box::new(e), generators: g, range: r }),
            None => None,
        }
    } else if kind_is(n, "set_comprehension") {
        match comp_parts(n) {
            Some((e, g)) => Some(ExprM::SetComp { elt: Box::new(e), generators: g, range: r }),
            None => None,
        }
    } else if kind_is(n, "dictionary_comprehension") {
        match dict_comp_body(n) {
            Some((k, v)) => Some(ExprM::DictComp { key: Box::new(k), value: Box::new(v), generators: gens_fold(cs), range: r }),
            None => None,
        }
    } else if kind_is(n, "generator_expression") {
        match comp_parts(n) {
            Some((e, g)) => Some(ExprM::Generator { elt: Box::new(e), generators: g, range: r }),
            None => None,
        }
    } else if kind_is(n, "lambda") {
        match field_expr(n, "body") {
            Some(b) => Some(ExprM::Lambda {
                parameters: match field_index(n, "parameters") {
                    Some(i) => if 0 <= i < cs.len() { Some(Box::new(parameters_of(cs[i]))) } else { None },
                    None => None,
                },
                body: Box::new(b),
                range: r,
            }),
            None => None,
        }
    } else if kind_is(n, "conditional_expression") {
        let parts = cond_fold(cs);
        if parts.len() >= 3 {
            Some(ExprM::If { body: Box::new(parts[0]), test: Box::new(parts[1]), orelse: Box::new(parts[2]), range: r })
        } else {
            None
        }
    } else if kind_is(n, "named_expression") {
        match (field_expr(n, "name"), field_expr(n, "value")) {
            (Some(t), Some(v)) => Some(ExprM::Named { target: Box::new(t), value: Box::new(v), range: r }),
            _ => None,
        }
    } else if kind_is(n, "await") {
        match child_expr(n, 1) {
            Some(v) => Some(ExprM::Await { value: Box::new(v), range: r }),
            None => None,
        }
    } else if kind_is(n, "yield") {
        Some(ExprM::Yield { value: boxed(child_expr(n, 1)), range: r })
    } else if kind_is(n, "starred_expression") {
        match child_expr(n, 1) {
            Some(v) => Some(ExprM::Starred { value: Box::new(v), range: r }),
            None => None,
        }
    } else if kind_is(n, "parenthesized_expression") {
        child_expr(n, 1)
    } else {
        None
    }
}

} // verus!
