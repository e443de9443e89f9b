//! The precedence-climbing parser of Kit expressions.
use crate::ast::{exprs_v, init_v, inits_v, lemma_expr_v, Expr, ExprKind, ExprKindV, ExprV, FieldInit,
    FieldInitV, Literal, LiteralV, Span};
use crate::binding_power::{assign_op_of, binary_op_of, infix, infix_power, is_range_op, prefix, prefix_power,
    step_op_of, tok_to_assign_op, tok_to_binary_op, tok_to_step_op, tok_to_unary_op, unary_op_of};
use crate::diagnostics::{ExprErrorV, ExprParseError};
use crate::lexer::{tokenize, tokens_of};
use crate::token::{copy_tok, expected_name, labels, tok_label, toks_v, SpannedTok, Tok, TokV};
use crate::types::{kit_type, Type, TypeId};
use vstd::utf8::encode_utf8;
use vstd::prelude::*;

verus! {

/// An expression of the given form that has no type and no place yet.
pub open spec fn plain(kind: ExprKindV) -> ExprV {
    ExprV { kind, ty: TypeId(0), span: Span { line: 0, column: 0, offset: 0, length: 0 } }
}

/// The token at a position; a semicolon behind the last one.
pub open spec fn tok_at(ts: Seq<TokV>, i: int) -> TokV {
    if 0 <= i < ts.len() {
        ts[i]
    } else {
        TokV::Semi
    }
}

/// The error for a position at which something else was expected.
pub open spec fn unexpected(ts: Seq<TokV>, i: int, expected: Seq<Seq<char>>) -> ExprErrorV {
    if 0 <= i < ts.len() {
        ExprErrorV::UnexpectedToken { found: ts[i], expected }
    } else {
        ExprErrorV::UnexpectedEof { expected }
    }
}

/// What can begin an expression.
pub open spec fn primary_labels() -> Seq<Seq<char>> {
    seq![
        "integer literal"@,
        "float literal"@,
        "string literal"@,
        "char literal"@,
        "identifier"@,
        "`(`"@,
        "`[`"@,
        "`if`"@,
        "`null`"@,
        "`true`"@,
        "`false`"@,
    ]
}

/// The expression at position `i` whose operators bind at least as tightly as `min_bp`, and the
/// position behind it.
///
/// An operand is a prefix operator with its operand, or a primary expression, followed by
/// postfix operators; infix operators and, at the lowest level, assignments join operands.
pub open spec fn pratt(ts: Seq<TokV>, i: int, min_bp: u8) -> Result<(ExprV, int), ExprErrorV>
    decreases ts.len() - i, 6int,
{
    match operand(ts, i) {
        Err(e) => Err(e),
        Ok((lhs, p)) => if i < p <= ts.len() {
            match infix_chain(ts, p, lhs, min_bp) {
                Err(e) => Err(e),
                Ok((e, q)) => if p <= q <= ts.len() {
                    assign_chain(ts, q, e, min_bp)
                } else {
                    Ok((e, q))
                },
            }
        } else {
            Ok((lhs, p))
        },
    }
}

/// An operand with its prefix and postfix operators.
pub open spec fn operand(ts: Seq<TokV>, i: int) -> Result<(ExprV, int), ExprErrorV>
    decreases ts.len() - i, 5int,
{
    let head = if prefix_power(tok_at(ts, i)) is Some && 0 <= i < ts.len() {
        match pratt(ts, i + 1, prefix_power(ts[i])->0) {
            Err(e) => Err(e),
            Ok((e, p)) => Ok(
                (plain(ExprKindV::UnaryOp { op: unary_op_of(ts[i])->0, expr: Box::new(e) }), p),
            ),
        }
    } else {
        primary(ts, i)
    };
    match head {
        Err(e) => Err(e),
        Ok((e, p)) => if i < p <= ts.len() {
            postfix_chain(ts, p, e)
        } else {
            Ok((e, p))
        },
    }
}

/// The postfix operators at position `i`, applied to `base` from left to right.
pub open spec fn postfix_chain(ts: Seq<TokV>, i: int, base: ExprV) -> Result<(ExprV, int), ExprErrorV>
    decreases ts.len() - i, 4int,
{
    if i < 0 || i >= ts.len() {
        Ok((base, i))
    } else {
        match ts[i] {
            TokV::Dot => match tok_at(ts, i + 1) {
                TokV::Ident(name) => postfix_chain(
                    ts,
                    i + 2,
                    plain(ExprKindV::FieldAccess { expr: Box::new(base), field_name: name }),
                ),
                _ => Err(unexpected(ts, i + 1, seq!["identifier"@])),
            },
            TokV::LBracket => match pratt(ts, i + 1, 0) {
                Err(e) => Err(e),
                Ok((index, p)) => if i < p < ts.len() && ts[p] is RBracket {
                    postfix_chain(
                        ts,
                        p + 1,
                        plain(ExprKindV::Index { expr: Box::new(base), index: Box::new(index) }),
                    )
                } else {
                    Err(unexpected(ts, p, seq![tok_label(TokV::RBracket)]))
                },
            },
            TokV::LParen => match expr_list(ts, i + 1, TokV::RParen) {
                Err(e) => Err(e),
                Ok((args, p)) => if i < p <= ts.len() {
                    postfix_chain(ts, p, plain(ExprKindV::Call { callee: Box::new(base), args }))
                } else {
                    Ok((base, p))
                },
            },
            TokV::PlusPlus | TokV::MinusMinus => postfix_chain(
                ts,
                i + 1,
                plain(ExprKindV::UnaryOp { op: step_op_of(ts[i])->0, expr: Box::new(base) }),
            ),
            _ => Ok((base, i)),
        }
    }
}

/// The infix operators at position `i` that bind at least as tightly as `min_bp`, with `lhs` as
/// the leftmost operand.
pub open spec fn infix_chain(ts: Seq<TokV>, i: int, lhs: ExprV, min_bp: u8) -> Result<(ExprV, int), ExprErrorV>
    decreases ts.len() - i, 3int,
{
    match infix_power(tok_at(ts, i)) {
        None => Ok((lhs, i)),
        Some((lbp, rbp)) => if lbp < min_bp || assign_op_of(tok_at(ts, i)) is Some || i < 0 || i >= ts.len() {
            Ok((lhs, i))
        } else {
            match pratt(ts, i + 1, rbp) {
                Err(e) => Err(e),
                Ok((rhs, p)) => {
                    let joined = if ts[i] is Ellipsis {
                        plain(ExprKindV::RangeLiteral { start: Box::new(lhs), end: Box::new(rhs) })
                    } else {
                        plain(
                            ExprKindV::BinaryOp {
                                op: binary_op_of(ts[i])->0,
                                left: Box::new(lhs),
                                right: Box::new(rhs),
                            },
                        )
                    };
                    if i < p <= ts.len() {
                        infix_chain(ts, p, joined, min_bp)
                    } else {
                        Ok((joined, p))
                    }
                },
            }
        },
    }
}

/// The assignments at position `i` to the target `lhs`, where `min_bp` is the lowest level.
pub open spec fn assign_chain(ts: Seq<TokV>, i: int, lhs: ExprV, min_bp: u8) -> Result<(ExprV, int), ExprErrorV>
    decreases ts.len() - i, 2int,
{
    match assign_op_of(tok_at(ts, i)) {
        None => Ok((lhs, i)),
        Some(op) => if min_bp > 0 || i < 0 || i >= ts.len() {
            Ok((lhs, i))
        } else {
            match pratt(ts, i + 1, 0) {
                Err(e) => Err(e),
                Ok((rhs, p)) => {
                    let joined = plain(
                        ExprKindV::Assign { op, left: Box::new(lhs), right: Box::new(rhs) },
                    );
                    if i < p <= ts.len() {
                        assign_chain(ts, p, joined, min_bp)
                    } else {
                        Ok((joined, p))
                    }
                },
            }
        },
    }
}

/// A primary expression.
pub open spec fn primary(ts: Seq<TokV>, i: int) -> Result<(ExprV, int), ExprErrorV>
    decreases ts.len() - i, 1int,
{
    if i < 0 || i >= ts.len() {
        Err(unexpected(ts, i, primary_labels()))
    } else {
        match ts[i] {
            TokV::IntLit(n) => Ok((plain(ExprKindV::Literal { value: LiteralV::Int(n) }), i + 1)),
            TokV::FloatLit(f) => Ok((plain(ExprKindV::Literal { value: LiteralV::Float(f) }), i + 1)),
            TokV::CharLit(c) => Ok((plain(ExprKindV::Literal { value: LiteralV::Char(c) }), i + 1)),
            TokV::StringLit(s) => Ok((plain(ExprKindV::Literal { value: LiteralV::String(s) }), i + 1)),
            TokV::KwTrue => Ok((plain(ExprKindV::Literal { value: LiteralV::Bool(true) }), i + 1)),
            TokV::KwFalse => Ok((plain(ExprKindV::Literal { value: LiteralV::Bool(false) }), i + 1)),
            TokV::KwNull => Ok((plain(ExprKindV::Literal { value: LiteralV::Null }), i + 1)),
            TokV::KwThis => Ok((plain(ExprKindV::Identifier { name: "this"@ }), i + 1)),
            TokV::KwSelf => Ok((plain(ExprKindV::Identifier { name: "Self"@ }), i + 1)),
            TokV::KwEmpty => Ok((plain(ExprKindV::Identifier { name: "empty"@ }), i + 1)),
            TokV::Ident(name) => Ok((plain(ExprKindV::Identifier { name }), i + 1)),
            TokV::LParen => match pratt(ts, i + 1, 0) {
                Err(e) => Err(e),
                Ok((first, p)) => if i < p < ts.len() && ts[p] is Comma {
                    match expr_items(ts, p + 1, TokV::RParen, seq![first]) {
                        Err(e) => Err(e),
                        Ok((elements, q)) => Ok((plain(ExprKindV::TupleLit { elements }), q)),
                    }
                } else if i < p < ts.len() && ts[p] is RParen {
                    Ok((first, p + 1))
                } else {
                    Err(unexpected(ts, p, seq![tok_label(TokV::RParen)]))
                },
            },
            TokV::LBracket => match expr_list(ts, i + 1, TokV::RBracket) {
                Err(e) => Err(e),
                Ok((elements, p)) => Ok((plain(ExprKindV::ArrayLiteral { elements }), p)),
            },
            TokV::KwStruct => match tok_at(ts, i + 1) {
                TokV::Ident(name) => if tok_at(ts, i + 2) is LBrace {
                    match field_list(ts, i + 3) {
                        Err(e) => Err(e),
                        Ok((fields, p)) => Ok(
                            (plain(ExprKindV::StructInit { struct_type: Some(kit_type(name)), fields }), p),
                        ),
                    }
                } else {
                    Err(unexpected(ts, i + 2, seq![tok_label(TokV::LBrace)]))
                },
                _ => Err(unexpected(ts, i + 1, seq!["type name"@])),
            },
            TokV::KwIf => match pratt(ts, i + 1, 0) {
                Err(e) => Err(e),
                Ok((cond, p)) => if i < p < ts.len() && ts[p] is KwThen {
                    match pratt(ts, p + 1, 0) {
                        Err(e) => Err(e),
                        Ok((then_branch, q)) => if p < q < ts.len() && ts[q] is KwElse {
                            match pratt(ts, q + 1, 0) {
                                Err(e) => Err(e),
                                Ok((else_branch, r)) => Ok(
                                    (
                                        plain(
                                            ExprKindV::If {
                                                cond: Box::new(cond),
                                                then_branch: Box::new(then_branch),
                                                else_branch: Box::new(else_branch),
                                            },
                                        ),
                                        r,
                                    ),
                                ),
                            }
                        } else {
                            Err(unexpected(ts, q, seq![tok_label(TokV::KwElse)]))
                        },
                    }
                } else {
                    Err(unexpected(ts, p, seq![tok_label(TokV::KwThen)]))
                },
            },
            _ => Err(unexpected(ts, i, primary_labels())),
        }
    }
}

/// Expressions with commas between them, up to and with `closer`; a comma may stand before it.
pub open spec fn expr_list(ts: Seq<TokV>, i: int, closer: TokV) -> Result<(Seq<ExprV>, int), ExprErrorV>
    decreases ts.len() - i, 8int,
{
    if 0 <= i < ts.len() && ts[i] == closer {
        Ok((Seq::empty(), i + 1))
    } else {
        expr_items_from(ts, i, closer, Seq::empty())
    }
}

/// The rest of a list behind a comma.
pub open spec fn expr_items(
    ts: Seq<TokV>,
    i: int,
    closer: TokV,
    acc: Seq<ExprV>,
) -> Result<(Seq<ExprV>, int), ExprErrorV>
    decreases ts.len() - i, 8int,
{
    if 0 <= i < ts.len() && ts[i] == closer {
        Ok((acc, i + 1))
    } else {
        expr_items_from(ts, i, closer, acc)
    }
}

/// The rest of a list that begins with an expression.
pub open spec fn expr_items_from(
    ts: Seq<TokV>,
    i: int,
    closer: TokV,
    acc: Seq<ExprV>,
) -> Result<(Seq<ExprV>, int), ExprErrorV>
    decreases ts.len() - i, 7int,
{
    match pratt(ts, i, 0) {
        Err(e) => Err(e),
        Ok((e, p)) => if i < p < ts.len() && ts[p] is Comma {
            expr_items(ts, p + 1, closer, acc.push(e))
        } else if i < p < ts.len() && ts[p] == closer {
            Ok((acc.push(e), p + 1))
        } else {
            Err(unexpected(ts, p, seq![tok_label(closer)]))
        },
    }
}

/// Named field values with commas between them, up to and with the closing brace.
pub open spec fn field_list(ts: Seq<TokV>, i: int) -> Result<(Seq<FieldInitV>, int), ExprErrorV>
    decreases ts.len() - i, 8int,
{
    field_items(ts, i, Seq::empty())
}

/// The rest of a list of field values.
pub open spec fn field_items(ts: Seq<TokV>, i: int, acc: Seq<FieldInitV>) -> Result<
    (Seq<FieldInitV>, int),
    ExprErrorV,
>
    decreases ts.len() - i, 7int,
{
    if 0 <= i < ts.len() && ts[i] is RBrace {
        Ok((acc, i + 1))
    } else {
        match tok_at(ts, i) {
            TokV::Ident(name) => if tok_at(ts, i + 1) is Colon {
                match pratt(ts, i + 2, 0) {
                    Err(e) => Err(e),
                    Ok((value, p)) => if i < p < ts.len() && ts[p] is Comma {
                        field_items(ts, p + 1, acc.push(FieldInitV { name, value }))
                    } else if i < p < ts.len() && ts[p] is RBrace {
                        Ok((acc.push(FieldInitV { name, value }), p + 1))
                    } else {
                        Err(unexpected(ts, p, seq![tok_label(TokV::RBrace)]))
                    },
                }
            } else {
                Err(unexpected(ts, i + 1, seq![tok_label(TokV::Colon)]))
            },
            _ => Err(unexpected(ts, i, seq!["field name"@])),
        }
    }
}

/// The expression of a token that is one by itself: a literal or a name.
pub open spec fn atom(t: TokV) -> Option<ExprV> {
    match t {
        TokV::IntLit(n) => Some(plain(ExprKindV::Literal { value: LiteralV::Int(n) })),
        TokV::FloatLit(f) => Some(plain(ExprKindV::Literal { value: LiteralV::Float(f) })),
        TokV::CharLit(c) => Some(plain(ExprKindV::Literal { value: LiteralV::Char(c) })),
        TokV::StringLit(s) => Some(plain(ExprKindV::Literal { value: LiteralV::String(s) })),
        TokV::KwTrue => Some(plain(ExprKindV::Literal { value: LiteralV::Bool(true) })),
        TokV::KwFalse => Some(plain(ExprKindV::Literal { value: LiteralV::Bool(false) })),
        TokV::KwNull => Some(plain(ExprKindV::Literal { value: LiteralV::Null })),
        TokV::Ident(name) => Some(plain(ExprKindV::Identifier { name })),
        _ => None,
    }
}

/// A binary operation.
pub open spec fn binary(op: TokV, left: ExprV, right: ExprV) -> ExprV {
    plain(ExprKindV::BinaryOp { op: binary_op_of(op)->0, left: Box::new(left), right: Box::new(right) })
}

/// Of two binary operators in a row the second takes the middle operand exactly where it binds
/// tighter; operators of one level group from the left.
pub proof fn law_tighter_operator_takes_the_operand(x: TokV, a: TokV, y: TokV, b: TokV, z: TokV)
    requires
        atom(x) is Some,
        atom(y) is Some,
        atom(z) is Some,
        binary_op_of(a) is Some,
        binary_op_of(b) is Some,
    ensures
        pratt(seq![x, a, y, b, z], 0, 0) == Ok::<(ExprV, int), ExprErrorV>(
            (
                if (infix_power(b)->0).0 > (infix_power(a)->0).0 {
                    binary(a, atom(x)->0, binary(b, atom(y)->0, atom(z)->0))
                } else {
                    binary(b, binary(a, atom(x)->0, atom(y)->0), atom(z)->0)
                },
                5int,
            ),
        ),
{
    let ts = seq![x, a, y, b, z];
    let ra = (infix_power(a)->0).1;
    let rb = (infix_power(b)->0).1;
    lemma_atom_operand(ts, 0);
    lemma_atom_operand(ts, 2);
    lemma_last_atom(ts, 4, ra);
    lemma_last_atom(ts, 4, rb);
    let yz = binary(b, atom(y)->0, atom(z)->0);
    assert(infix_chain(ts, 5, yz, ra) == Ok::<(ExprV, int), ExprErrorV>((yz, 5int)));
    assert(assign_chain(ts, 5, yz, ra) == Ok::<(ExprV, int), ExprErrorV>((yz, 5int)));
    assert(assign_chain(ts, 3, atom(y)->0, ra) == Ok::<(ExprV, int), ExprErrorV>((atom(y)->0, 3int)));
    if (infix_power(b)->0).0 > (infix_power(a)->0).0 {
        let all = binary(a, atom(x)->0, yz);
        assert(infix_chain(ts, 3, atom(y)->0, ra) == Ok::<(ExprV, int), ExprErrorV>((yz, 5int)));
        assert(pratt(ts, 2, ra) == Ok::<(ExprV, int), ExprErrorV>((yz, 5int)));
        assert(infix_chain(ts, 5, all, 0) == Ok::<(ExprV, int), ExprErrorV>((all, 5int)));
        assert(infix_chain(ts, 1, atom(x)->0, 0) == Ok::<(ExprV, int), ExprErrorV>((all, 5int)));
        assert(assign_chain(ts, 5, all, 0) == Ok::<(ExprV, int), ExprErrorV>((all, 5int)));
    } else {
        let xy = binary(a, atom(x)->0, atom(y)->0);
        let all = binary(b, xy, atom(z)->0);
        assert(infix_chain(ts, 3, atom(y)->0, ra) == Ok::<(ExprV, int), ExprErrorV>((atom(y)->0, 3int)));
        assert(pratt(ts, 2, ra) == Ok::<(ExprV, int), ExprErrorV>((atom(y)->0, 3int)));
        assert(infix_chain(ts, 5, all, 0) == Ok::<(ExprV, int), ExprErrorV>((all, 5int)));
        assert(infix_chain(ts, 3, xy, 0) == Ok::<(ExprV, int), ExprErrorV>((all, 5int)));
        assert(infix_chain(ts, 1, atom(x)->0, 0) == Ok::<(ExprV, int), ExprErrorV>((all, 5int)));
        assert(assign_chain(ts, 5, all, 0) == Ok::<(ExprV, int), ExprErrorV>((all, 5int)));
    }
}

/// A prefix operator takes its operand before any binary operator does.
pub proof fn law_prefix_takes_the_operand(u: TokV, x: TokV, a: TokV, y: TokV)
    requires
        prefix_power(u) is Some,
        atom(x) is Some,
        atom(y) is Some,
        binary_op_of(a) is Some,
    ensures
        pratt(seq![u, x, a, y], 0, 0) == Ok::<(ExprV, int), ExprErrorV>(
            (
                binary(
                    a,
                    plain(ExprKindV::UnaryOp { op: unary_op_of(u)->0, expr: Box::new(atom(x)->0) }),
                    atom(y)->0,
                ),
                4int,
            ),
        ),
{
    let ts = seq![u, x, a, y];
    let bp = prefix_power(u)->0;
    let ux = plain(ExprKindV::UnaryOp { op: unary_op_of(u)->0, expr: Box::new(atom(x)->0) });
    let all = binary(a, ux, atom(y)->0);
    lemma_atom_operand(ts, 1);
    lemma_last_atom(ts, 3, (infix_power(a)->0).1);
    assert(infix_chain(ts, 2, atom(x)->0, bp) == Ok::<(ExprV, int), ExprErrorV>((atom(x)->0, 2int)));
    assert(assign_chain(ts, 2, atom(x)->0, bp) == Ok::<(ExprV, int), ExprErrorV>((atom(x)->0, 2int)));
    assert(pratt(ts, 1, bp) == Ok::<(ExprV, int), ExprErrorV>((atom(x)->0, 2int)));
    assert(postfix_chain(ts, 2, ux) == Ok::<(ExprV, int), ExprErrorV>((ux, 2int)));
    assert(operand(ts, 0) == Ok::<(ExprV, int), ExprErrorV>((ux, 2int)));
    assert(infix_chain(ts, 4, all, 0) == Ok::<(ExprV, int), ExprErrorV>((all, 4int)));
    assert(infix_chain(ts, 2, ux, 0) == Ok::<(ExprV, int), ExprErrorV>((all, 4int)));
    assert(assign_chain(ts, 4, all, 0) == Ok::<(ExprV, int), ExprErrorV>((all, 4int)));
}

proof fn lemma_atom_operand(ts: Seq<TokV>, i: int)
    requires
        0 <= i < ts.len(),
        atom(ts[i]) is Some,
        i + 1 < ts.len() ==> binary_op_of(ts[i + 1]) is Some,
    ensures
        operand(ts, i) == Ok::<(ExprV, int), ExprErrorV>((atom(ts[i])->0, i + 1)),
{
    assert(primary(ts, i) == Ok::<(ExprV, int), ExprErrorV>((atom(ts[i])->0, i + 1)));
    assert(postfix_chain(ts, i + 1, atom(ts[i])->0) == Ok::<(ExprV, int), ExprErrorV>((atom(ts[i])->0, i + 1)));
}

proof fn lemma_last_atom(ts: Seq<TokV>, i: int, bp: u8)
    requires
        0 <= i,
        i + 1 == ts.len(),
        atom(ts[i]) is Some,
    ensures
        pratt(ts, i, bp) == Ok::<(ExprV, int), ExprErrorV>((atom(ts[i])->0, i + 1)),
{
    lemma_atom_operand(ts, i);
    let e = atom(ts[i])->0;
    assert(infix_chain(ts, i + 1, e, bp) == Ok::<(ExprV, int), ExprErrorV>((e, i + 1)));
    assert(assign_chain(ts, i + 1, e, bp) == Ok::<(ExprV, int), ExprErrorV>((e, i + 1)));
}

/// What a parser function owes: the expression and the position of the model, or its error.
pub open spec fn agrees(
    r: Result<Expr, ExprParseError>,
    pos: int,
    m: Result<(ExprV, int), ExprErrorV>,
) -> bool {
    match (r, m) {
        (Ok(e), Ok((v, p))) => e@ == v && pos == p,
        (Err(e), Err(v)) => e@ == v,
        _ => false,
    }
}

/// A parser over a list of tokens.
pub struct ExprParser<'a> {
    tokens: &'a Vec<SpannedTok>,
    pos: usize,
}

fn node(kind: ExprKind) -> (r: Expr)
    ensures
        r.kind == kind,
        r.ty == TypeId(0),
        r.span == (Span { line: 0, column: 0, offset: 0, length: 0 }),
{
    Expr { kind, ty: TypeId(0), span: Span { line: 0, column: 0, offset: 0, length: 0 } }
}

impl<'a> ExprParser<'a> {
    /// The tokens.
    pub closed spec fn toks(&self) -> Seq<TokV> {
        toks_v(self.tokens@)
    }

    /// The position of the next token.
    pub closed spec fn at(&self) -> int {
        self.pos as int
    }

    /// Whether the position lies within the tokens or directly behind them.
    pub open spec fn wf(&self) -> bool {
        0 <= self.at() <= self.toks().len()
    }

    /// What a parsing step keeps: the tokens, and a position further on where it succeeds.
    pub open spec fn moved_from(&self, before: ExprParser<'a>, ok: bool) -> bool {
        &&& self.toks() == before.toks()
        &&& self.wf()
        &&& ok ==> before.at() < self.at()
    }

    /// A parser at the first token.
    pub fn new(tokens: &'a Vec<SpannedTok>) -> (r: Self)
        ensures
            r.toks() == toks_v(tokens@),
            r.at() == 0,
            r.wf(),
    {
        ExprParser { tokens, pos: 0 }
    }

    /// Parses one expression.
    pub fn parse_expr(&mut self) -> (r: Result<Expr, ExprParseError>)
        requires
            old(self).wf(),
        ensures
            final(self).moved_from(*old(self), r is Ok),
            agrees(r, final(self).at(), pratt(old(self).toks(), old(self).at(), 0)),
        decreases old(self).toks().len() - old(self).at(), 7int,
    {
        self.parse_pratt(0)
    }

    /// The position of the next token.
    pub fn pos(&self) -> (r: usize)
        ensures
            r == self.at(),
    {
        self.pos
    }

    /// The next token; a semicolon behind the last one.
    fn peek(&self) -> (r: Tok)
        requires
            self.wf(),
        ensures
            r@ == tok_at(self.toks(), self.at()),
    {
        if self.pos < self.tokens.len() {
            copy_tok(&self.tokens[self.pos].kind)
        } else {
            Tok::Semi
        }
    }

    /// Whether the next token is the given kind of bracket, comma, colon or keyword.
    fn at_mark(&self, mark: &Tok) -> (r: bool)
        requires
            self.wf(),
            is_mark(mark@),
        ensures
            r == (self.at() < self.toks().len() && self.toks()[self.at()] == mark@),
    {
        if self.pos >= self.tokens.len() {
            return false;
        }
        match (&self.tokens[self.pos].kind, mark) {
            (Tok::RParen, Tok::RParen) => true,
            (Tok::RBracket, Tok::RBracket) => true,
            (Tok::LBrace, Tok::LBrace) => true,
            (Tok::RBrace, Tok::RBrace) => true,
            (Tok::Comma, Tok::Comma) => true,
            (Tok::Colon, Tok::Colon) => true,
            (Tok::KwThen, Tok::KwThen) => true,
            (Tok::KwElse, Tok::KwElse) => true,
            _ => false,
        }
    }

    /// Whether all tokens have been used.
    pub fn at_eof(&self) -> (r: bool)
        ensures
            r == (self.at() >= self.toks().len()),
    {
        self.pos >= self.tokens.len()
    }

    /// Goes on to the next token.
    fn advance(&mut self)
        requires
            old(self).at() < old(self).toks().len(),
        ensures
            final(self).toks() == old(self).toks(),
            final(self).at() == old(self).at() + 1,
            final(self).wf(),
    {
        proof {
            assert(self.tokens@.len() == self.toks().len());
        }
        let n: usize = self.tokens.len();
        self.pos = self.pos + 1;
    }

    /// The error at the current position.
    fn refuse(&self, expected: Vec<&'static str>) -> (r: ExprParseError)
        requires
            self.wf(),
        ensures
            r@ == unexpected(self.toks(), self.at(), labels(expected@)),
    {
        if self.pos < self.tokens.len() {
            ExprParseError::UnexpectedToken { found: copy_tok(&self.tokens[self.pos].kind), expected }
        } else {
            ExprParseError::UnexpectedEof { expected }
        }
    }

    /// Goes on behind the given token, or refuses what stands in its place.
    fn expect(&mut self, expected: &Tok) -> (r: Result<(), ExprParseError>)
        requires
            old(self).wf(),
            is_mark(expected@),
        ensures
            final(self).toks() == old(self).toks(),
            final(self).wf(),
            match r {
                Ok(_) => old(self).at() < old(self).toks().len() && old(self).toks()[old(self).at()]
                    == expected@ && final(self).at() == old(self).at() + 1,
                Err(e) => !(old(self).at() < old(self).toks().len() && old(self).toks()[old(self).at()]
                    == expected@) && e@ == unexpected(
                    old(self).toks(),
                    old(self).at(),
                    seq![tok_label(expected@)],
                ) && final(self).at() == old(self).at(),
            },
    {
        if self.at_mark(expected) {
            self.advance();
            Ok(())
        } else {
            Err(self.refuse(expected_name(expected)))
        }
    }

    /// Parses an expression whose operators bind at least as tightly as `min_bp`.
    fn parse_pratt(&mut self, min_bp: u8) -> (r: Result<Expr, ExprParseError>)
        requires
            old(self).wf(),
        ensures
            final(self).moved_from(*old(self), r is Ok),
            agrees(r, final(self).at(), pratt(old(self).toks(), old(self).at(), min_bp)),
        decreases old(self).toks().len() - old(self).at(), 6int,
    {
        broadcast use lemma_expr_v;

        let ghost ts = self.toks();
        let ghost start = self.at();
        let lhs = match self.parse_operand() {
            Ok(e) => e,
            Err(e) => return Err(e),
        };
        let ghost p0 = self.at();
        let mut lhs = lhs;
        loop
            invariant
                self.wf(),
                self.toks() == ts,
                start < p0 <= self.at(),
                ts == old(self).toks(),
                start == old(self).at(),
                operand(ts, start) is Ok,
                (operand(ts, start)->Ok_0).1 == p0,
                infix_chain(ts, p0, (operand(ts, start)->Ok_0).0, min_bp) == infix_chain(
                    ts,
                    self.at(),
                    lhs@,
                    min_bp,
                ),
            ensures
                self.wf(),
                self.toks() == ts,
                p0 <= self.at(),
                infix_chain(ts, p0, (operand(ts, start)->Ok_0).0, min_bp) == Ok::<(ExprV, int), ExprErrorV>(
                    (lhs@, self.at()),
                ),
            decreases ts.len() - self.at(),
        {
            let kind = self.peek();
            let power = infix(&kind);
            match power {
                None => {
                    break ;
                },
                Some((lbp, rbp)) => {
                    if lbp < min_bp || tok_to_assign_op(&kind).is_some() {
                        break ;
                    }
                    assert(self.at() < ts.len());
                    self.advance();
                    let rhs = match self.parse_pratt(rbp) {
                        Ok(e) => e,
                        Err(e) => return Err(e),
                    };
                    if is_range_op(&kind) {
                        lhs = node(ExprKind::RangeLiteral { start: Box::new(lhs), end: Box::new(rhs) });
                    } else {
                        match tok_to_binary_op(&kind) {
                            Some(op) => {
                                lhs = node(
                                    ExprKind::BinaryOp { op, left: Box::new(lhs), right: Box::new(rhs) },
                                );
                            },
                            None => {
                                assert(false);
                            },
                        }
                    }
                },
            }
        }
        let ghost q0 = self.at();
        let ghost mid = lhs@;
        loop
            invariant
                self.wf(),
                self.toks() == ts,
                start < p0 <= q0 <= self.at(),
                ts == old(self).toks(),
                start == old(self).at(),
                operand(ts, start) is Ok,
                (operand(ts, start)->Ok_0).1 == p0,
                infix_chain(ts, p0, (operand(ts, start)->Ok_0).0, min_bp) == Ok::<(ExprV, int), ExprErrorV>(
                    (mid, q0),
                ),
                assign_chain(ts, q0, mid, min_bp) == assign_chain(ts, self.at(), lhs@, min_bp),
            ensures
                self.wf(),
                self.toks() == ts,
                q0 <= self.at(),
                assign_chain(ts, q0, mid, min_bp) == Ok::<(ExprV, int), ExprErrorV>((lhs@, self.at())),
            decreases ts.len() - self.at(),
        {
            let kind = self.peek();
            match tok_to_assign_op(&kind) {
                None => {
                    break ;
                },
                Some(op) => {
                    if min_bp > 0 {
                        break ;
                    }
                    assert(self.at() < ts.len());
                    self.advance();
                    let rhs = match self.parse_pratt(0) {
                        Ok(e) => e,
                        Err(e) => return Err(e),
                    };
                    lhs = node(ExprKind::Assign { op, left: Box::new(lhs), right: Box::new(rhs) });
                },
            }
        }
        Ok(lhs)
    }

    /// Parses an operand with its prefix and postfix operators.
    fn parse_operand(&mut self) -> (r: Result<Expr, ExprParseError>)
        requires
            old(self).wf(),
        ensures
            final(self).moved_from(*old(self), r is Ok),
            agrees(r, final(self).at(), operand(old(self).toks(), old(self).at())),
        decreases old(self).toks().len() - old(self).at(), 5int,
    {
        broadcast use lemma_expr_v;

        let kind = self.peek();
        let head = match prefix(&kind) {
            Some(bp) => {
                assert(self.at() < self.toks().len());
                self.advance();
                let rhs = match self.parse_pratt(bp) {
                    Ok(e) => e,
                    Err(e) => return Err(e),
                };
                match tok_to_unary_op(&kind) {
                    Some(op) => node(ExprKind::UnaryOp { op, expr: Box::new(rhs) }),
                    None => {
                        assert(false);
                        rhs
                    },
                }
            },
            None => match self.parse_primary() {
                Ok(e) => e,
                Err(e) => return Err(e),
            },
        };
        self.parse_postfix_chain(head)
    }

    /// Parses the postfix operators behind an operand.
    fn parse_postfix_chain(&mut self, first: Expr) -> (r: Result<Expr, ExprParseError>)
        requires
            old(self).wf(),
        ensures
            final(self).toks() == old(self).toks(),
            final(self).wf(),
            r is Ok ==> old(self).at() <= final(self).at(),
            agrees(r, final(self).at(), postfix_chain(old(self).toks(), old(self).at(), first@)),
        decreases old(self).toks().len() - old(self).at(), 4int,
    {
        broadcast use lemma_expr_v;

        let ghost ts = self.toks();
        let ghost start = self.at();
        let mut base = first;
        loop
            invariant
                self.wf(),
                self.toks() == ts,
                start <= self.at(),
                ts == old(self).toks(),
                start == old(self).at(),
                postfix_chain(ts, start, first@) == postfix_chain(ts, self.at(), base@),
            ensures
                self.wf(),
                self.toks() == ts,
                start <= self.at(),
                postfix_chain(ts, start, first@) == Ok::<(ExprV, int), ExprErrorV>((base@, self.at())),
            decreases ts.len() - self.at(),
        {
            if self.pos >= self.tokens.len() {
                break ;
            }
            let kind = self.peek();
            match kind {
                Tok::Dot => {
                    base = match self.parse_field_access(base) {
                        Ok(e) => e,
                        Err(e) => return Err(e),
                    };
                },
                Tok::LBracket => {
                    base = match self.parse_index(base) {
                        Ok(e) => e,
                        Err(e) => return Err(e),
                    };
                },
                Tok::LParen => {
                    base = match self.parse_call(base) {
                        Ok(e) => e,
                        Err(e) => return Err(e),
                    };
                },
                Tok::PlusPlus | Tok::MinusMinus => {
                    self.advance();
                    match tok_to_step_op(&kind) {
                        Some(op) => {
                            base = node(ExprKind::UnaryOp { op, expr: Box::new(base) });
                        },
                        None => {
                            assert(false);
                        },
                    }
                },
                _ => {
                    break ;
                },
            }
        }
        Ok(base)
    }

    /// Parses `.name` behind an operand.
    fn parse_field_access(&mut self, base: Expr) -> (r: Result<Expr, ExprParseError>)
        requires
            old(self).wf(),
            old(self).at() < old(self).toks().len(),
            old(self).toks()[old(self).at()] is Dot,
        ensures
            final(self).moved_from(*old(self), r is Ok),
            match r {
                Ok(e) => postfix_chain(old(self).toks(), old(self).at(), base@) == postfix_chain(
                    old(self).toks(),
                    final(self).at(),
                    e@,
                ),
                Err(e) => postfix_chain(old(self).toks(), old(self).at(), base@) == Err::<
                    (ExprV, int),
                    ExprErrorV,
                >(e@),
            },
    {
        broadcast use lemma_expr_v;

        self.advance();
        let tok = self.peek();
        match tok {
            Tok::Ident(name) => {
                assert(self.at() < self.toks().len());
                self.advance();
                Ok(node(ExprKind::FieldAccess { expr: Box::new(base), field_name: name }))
            },
            _ => Err(self.refuse(one("identifier"))),
        }
    }

    /// Parses `[index]` behind an operand.
    fn parse_index(&mut self, base: Expr) -> (r: Result<Expr, ExprParseError>)
        requires
            old(self).wf(),
            old(self).at() < old(self).toks().len(),
            old(self).toks()[old(self).at()] is LBracket,
        ensures
            final(self).moved_from(*old(self), r is Ok),
            match r {
                Ok(e) => postfix_chain(old(self).toks(), old(self).at(), base@) == postfix_chain(
                    old(self).toks(),
                    final(self).at(),
                    e@,
                ),
                Err(e) => postfix_chain(old(self).toks(), old(self).at(), base@) == Err::<
                    (ExprV, int),
                    ExprErrorV,
                >(e@),
            },
        decreases old(self).toks().len() - old(self).at(), 3int,
    {
        broadcast use lemma_expr_v;

        self.advance();
        let index = match self.parse_expr() {
            Ok(e) => e,
            Err(e) => return Err(e),
        };
        match self.expect(&Tok::RBracket) {
            Ok(_) => {},
            Err(e) => return Err(e),
        }
        Ok(node(ExprKind::Index { expr: Box::new(base), index: Box::new(index) }))
    }

    /// Parses `(args)` behind an operand.
    fn parse_call(&mut self, callee: Expr) -> (r: Result<Expr, ExprParseError>)
        requires
            old(self).wf(),
            old(self).at() < old(self).toks().len(),
            old(self).toks()[old(self).at()] is LParen,
        ensures
            final(self).moved_from(*old(self), r is Ok),
            match r {
                Ok(e) => postfix_chain(old(self).toks(), old(self).at(), callee@) == postfix_chain(
                    old(self).toks(),
                    final(self).at(),
                    e@,
                ),
                Err(e) => postfix_chain(old(self).toks(), old(self).at(), callee@) == Err::<
                    (ExprV, int),
                    ExprErrorV,
                >(e@),
            },
        decreases old(self).toks().len() - old(self).at(), 3int,
    {
        broadcast use lemma_expr_v;

        self.advance();
        let args = match self.parse_comma_list(&Tok::RParen) {
            Ok(v) => v,
            Err(e) => return Err(e),
        };
        Ok(node(ExprKind::Call { callee: Box::new(callee), args }))
    }

    /// Parses a primary expression.
    fn parse_primary(&mut self) -> (r: Result<Expr, ExprParseError>)
        requires
            old(self).wf(),
        ensures
            final(self).moved_from(*old(self), r is Ok),
            agrees(r, final(self).at(), primary(old(self).toks(), old(self).at())),
        decreases old(self).toks().len() - old(self).at(), 1int,
    {
        broadcast use lemma_expr_v;

        if self.pos >= self.tokens.len() {
            return Err(self.refuse(primary_names()));
        }
        let tok = self.peek();
        match tok {
            Tok::IntLit(n) => {
                self.advance();
                Ok(node(ExprKind::Literal { value: Literal::Int(n) }))
            },
            Tok::FloatLit(f) => {
                self.advance();
                Ok(node(ExprKind::Literal { value: Literal::Float(f) }))
            },
            Tok::CharLit(c) => {
                self.advance();
                Ok(node(ExprKind::Literal { value: Literal::Char(c) }))
            },
            Tok::StringLit(s) => {
                self.advance();
                Ok(node(ExprKind::Literal { value: Literal::String(s) }))
            },
            Tok::KwTrue => {
                self.advance();
                Ok(node(ExprKind::Literal { value: Literal::Bool(true) }))
            },
            Tok::KwFalse => {
                self.advance();
                Ok(node(ExprKind::Literal { value: Literal::Bool(false) }))
            },
            Tok::KwNull => {
                self.advance();
                Ok(node(ExprKind::Literal { value: Literal::Null }))
            },
            Tok::KwThis => {
                self.advance();
                Ok(node(ExprKind::Identifier { name: "this".to_owned() }))
            },
            Tok::KwSelf => {
                self.advance();
                Ok(node(ExprKind::Identifier { name: "Self".to_owned() }))
            },
            Tok::KwEmpty => {
                self.advance();
                Ok(node(ExprKind::Identifier { name: "empty".to_owned() }))
            },
            Tok::Ident(name) => {
                self.advance();
                Ok(node(ExprKind::Identifier { name }))
            },
            Tok::LParen => self.parse_parenthesized(),
            Tok::LBracket => self.parse_array_literal(),
            Tok::KwStruct => self.parse_struct_init(),
            Tok::KwIf => self.parse_if_expr(),
            _ => Err(self.refuse(primary_names())),
        }
    }

    /// Parses a parenthesized expression or a tuple.
    fn parse_parenthesized(&mut self) -> (r: Result<Expr, ExprParseError>)
        requires
            old(self).wf(),
            old(self).at() < old(self).toks().len(),
            old(self).toks()[old(self).at()] is LParen,
        ensures
            final(self).moved_from(*old(self), r is Ok),
            agrees(r, final(self).at(), primary(old(self).toks(), old(self).at())),
        decreases old(self).toks().len() - old(self).at(), 0int,
    {
        broadcast use lemma_expr_v;

        self.advance();
        let first = match self.parse_expr() {
            Ok(e) => e,
            Err(e) => return Err(e),
        };
        if self.at_mark(&Tok::Comma) {
            self.advance();
            let mut elements: Vec<Expr> = Vec::new();
            let ghost f = first@;
            elements.push(first);
            proof {
                assert(exprs_v(elements@) =~= seq![f]);
            }
            return match self.parse_items(&Tok::RParen, elements) {
                Ok(elements) => Ok(node(ExprKind::TupleLit { elements })),
                Err(e) => Err(e),
            };
        }
        match self.expect(&Tok::RParen) {
            Ok(_) => Ok(first),
            Err(e) => Err(e),
        }
    }

    /// Parses `[a, b, c]`.
    fn parse_array_literal(&mut self) -> (r: Result<Expr, ExprParseError>)
        requires
            old(self).wf(),
            old(self).at() < old(self).toks().len(),
            old(self).toks()[old(self).at()] is LBracket,
        ensures
            final(self).moved_from(*old(self), r is Ok),
            agrees(r, final(self).at(), primary(old(self).toks(), old(self).at())),
        decreases old(self).toks().len() - old(self).at(), 0int,
    {
        broadcast use lemma_expr_v;

        self.advance();
        match self.parse_comma_list(&Tok::RBracket) {
            Ok(elements) => Ok(node(ExprKind::ArrayLiteral { elements })),
            Err(e) => Err(e),
        }
    }

    /// Parses `struct Name { field: value, .. }`.
    fn parse_struct_init(&mut self) -> (r: Result<Expr, ExprParseError>)
        requires
            old(self).wf(),
            old(self).at() < old(self).toks().len(),
            old(self).toks()[old(self).at()] is KwStruct,
        ensures
            final(self).moved_from(*old(self), r is Ok),
            agrees(r, final(self).at(), primary(old(self).toks(), old(self).at())),
        decreases old(self).toks().len() - old(self).at(), 0int,
    {
        broadcast use lemma_expr_v;

        self.advance();
        let tok = self.peek();
        let name = match tok {
            Tok::Ident(name) => {
                assert(self.at() < self.toks().len());
                self.advance();
                name
            },
            _ => {
                return Err(self.refuse(one("type name")));
            },
        };
        match self.expect(&Tok::LBrace) {
            Ok(_) => {},
            Err(e) => return Err(e),
        }
        match self.parse_field_list() {
            Ok(fields) => Ok(
                node(ExprKind::StructInit { struct_type: Some(Type::from_kit(name.as_str())), fields }),
            ),
            Err(e) => Err(e),
        }
    }

    /// Parses `if cond then a else b`.
    fn parse_if_expr(&mut self) -> (r: Result<Expr, ExprParseError>)
        requires
            old(self).wf(),
            old(self).at() < old(self).toks().len(),
            old(self).toks()[old(self).at()] is KwIf,
        ensures
            final(self).moved_from(*old(self), r is Ok),
            agrees(r, final(self).at(), primary(old(self).toks(), old(self).at())),
        decreases old(self).toks().len() - old(self).at(), 0int,
    {
        broadcast use lemma_expr_v;

        self.advance();
        let cond = match self.parse_expr() {
            Ok(e) => e,
            Err(e) => return Err(e),
        };
        match self.expect(&Tok::KwThen) {
            Ok(_) => {},
            Err(e) => return Err(e),
        }
        let then_branch = match self.parse_expr() {
            Ok(e) => e,
            Err(e) => return Err(e),
        };
        match self.expect(&Tok::KwElse) {
            Ok(_) => {},
            Err(e) => return Err(e),
        }
        let else_branch = match self.parse_expr() {
            Ok(e) => e,
            Err(e) => return Err(e),
        };
        Ok(
            node(
                ExprKind::If {
                    cond: Box::new(cond),
                    then_branch: Box::new(then_branch),
                    else_branch: Box::new(else_branch),
                },
            ),
        )
    }

    /// Parses expressions with commas between them, up to and with `closer`.
    fn parse_comma_list(&mut self, closer: &Tok) -> (r: Result<Vec<Expr>, ExprParseError>)
        requires
            old(self).wf(),
            is_mark(closer@),
        ensures
            final(self).moved_from(*old(self), r is Ok),
            list_agrees(r, final(self).at(), expr_list(old(self).toks(), old(self).at(), closer@)),
        decreases old(self).toks().len() - old(self).at(), 10int,
    {
        let out: Vec<Expr> = Vec::new();
        proof {
            assert(exprs_v(out@) =~= Seq::<ExprV>::empty());
        }
        self.parse_items(closer, out)
    }

    /// Parses the rest of a list, up to and with `closer`.
    fn parse_items(&mut self, closer: &Tok, acc: Vec<Expr>) -> (r: Result<Vec<Expr>, ExprParseError>)
        requires
            old(self).wf(),
            is_mark(closer@),
        ensures
            final(self).moved_from(*old(self), r is Ok),
            list_agrees(
                r,
                final(self).at(),
                expr_items(old(self).toks(), old(self).at(), closer@, exprs_v(acc@)),
            ),
        decreases old(self).toks().len() - old(self).at(), 9int,
    {
        let mut out = acc;
        let ghost ts = self.toks();
        let ghost start = self.at();
        loop
            invariant
                self.wf(),
                is_mark(closer@),
                self.toks() == ts,
                ts == old(self).toks(),
                start == old(self).at(),
                start <= self.at(),
                expr_items(ts, start, closer@, exprs_v(acc@)) == expr_items(
                    ts,
                    self.at(),
                    closer@,
                    exprs_v(out@),
                ),
            decreases ts.len() - self.at(),
        {
            if self.at_mark(closer) {
                self.advance();
                return Ok(out);
            }
            let e = match self.parse_expr() {
                Ok(e) => e,
                Err(e) => return Err(e),
            };
            let ghost ev = e@;
            let ghost before = out@;
            out.push(e);
            proof {
                assert(exprs_v(out@) =~= exprs_v(before).push(ev));
            }
            if self.at_mark(&Tok::Comma) {
                self.advance();
            } else {
                return match self.expect(closer) {
                    Ok(_) => Ok(out),
                    Err(e) => Err(e),
                };
            }
        }
    }

    /// Parses named field values with commas between them, up to and with the closing brace.
    fn parse_field_list(&mut self) -> (r: Result<Vec<FieldInit>, ExprParseError>)
        requires
            old(self).wf(),
        ensures
            final(self).moved_from(*old(self), r is Ok),
            match (r, field_list(old(self).toks(), old(self).at())) {
                (Ok(v), Ok((m, p))) => inits_v(v@) == m && final(self).at() == p,
                (Err(e), Err(v)) => e@ == v,
                _ => false,
            },
        decreases old(self).toks().len() - old(self).at(), 9int,
    {
        let mut out: Vec<FieldInit> = Vec::new();
        let ghost ts = self.toks();
        let ghost start = self.at();
        proof {
            assert(inits_v(out@) =~= Seq::<FieldInitV>::empty());
        }
        loop
            invariant
                self.wf(),
                self.toks() == ts,
                ts == old(self).toks(),
                start == old(self).at(),
                start <= self.at(),
                field_list(ts, start) == field_items(ts, self.at(), inits_v(out@)),
            decreases ts.len() - self.at(),
        {
            if self.at_mark(&Tok::RBrace) {
                self.advance();
                return Ok(out);
            }
            let tok = self.peek();
            let name = match tok {
                Tok::Ident(name) => {
                    assert(self.at() < self.toks().len());
                    self.advance();
                    name
                },
                _ => {
                    return Err(self.refuse(one("field name")));
                },
            };
            match self.expect(&Tok::Colon) {
                Ok(_) => {},
                Err(e) => return Err(e),
            }
            let value = match self.parse_expr() {
                Ok(e) => e,
                Err(e) => return Err(e),
            };
            let f = FieldInit { name, value };
            let ghost fv = init_v(f);
            let ghost before = out@;
            out.push(f);
            proof {
                assert(inits_v(out@) =~= inits_v(before).push(fv));
            }
            if self.at_mark(&Tok::Comma) {
                self.advance();
            } else {
                return match self.expect(&Tok::RBrace) {
                    Ok(_) => Ok(out),
                    Err(e) => Err(e),
                };
            }
        }
    }
}

/// What a list-parsing function owes.
pub open spec fn list_agrees(
    r: Result<Vec<Expr>, ExprParseError>,
    pos: int,
    m: Result<(Seq<ExprV>, int), ExprErrorV>,
) -> bool {
    match (r, m) {
        (Ok(v), Ok((s, p))) => exprs_v(v@) == s && pos == p,
        (Err(e), Err(v)) => e@ == v,
        _ => false,
    }
}

/// The tokens that only mark where a part of an expression begins or ends.
pub open spec fn is_mark(t: TokV) -> bool {
    t is RParen || t is RBracket || t is LBrace || t is RBrace || t is Comma || t is Colon || t is KwThen
        || t is KwElse
}

fn one(label: &'static str) -> (r: Vec<&'static str>)
    ensures
        labels(r@) == seq![label@],
{
    let mut v: Vec<&'static str> = Vec::new();
    v.push(label);
    proof {
        assert(labels(v@) =~= seq![label@]);
    }
    v
}

fn primary_names() -> (r: Vec<&'static str>)
    ensures
        labels(r@) == primary_labels(),
{
    let mut v: Vec<&'static str> = Vec::new();
    v.push("integer literal");
    v.push("float literal");
    v.push("string literal");
    v.push("char literal");
    v.push("identifier");
    v.push("`(`");
    v.push("`[`");
    v.push("`if`");
    v.push("`null`");
    v.push("`true`");
    v.push("`false`");
    proof {
        assert(labels(v@) =~= primary_labels());
    }
    v
}

/// The name that a call goes to, where the callee is a name or a chain of field accesses on one.
pub open spec fn callee_text(e: ExprV) -> Option<Seq<char>>
    decreases e,
{
    match e.kind {
        ExprKindV::Identifier { name } => Some(name),
        ExprKindV::FieldAccess { expr, field_name } => match callee_text(*expr) {
            Some(base) => Some(base + "."@ + field_name),
            None => None,
        },
        _ => None,
    }
}

/// The name that a call goes to.
pub fn callee_name(e: &Expr) -> (r: Option<String>)
    ensures
        crate::escape::opt_text(r) == callee_text(e@),
    decreases *e,
{
    match &e.kind {
        ExprKind::Identifier { name } => Some(name.clone()),
        ExprKind::FieldAccess { expr, field_name } => match callee_name(expr) {
            Some(base) => Some(base.concat(".").concat(field_name.as_str())),
            None => None,
        },
        _ => None,
    }
}

/// The expression that a whole text stands for.
pub open spec fn parsed(s: Seq<char>) -> Result<ExprV, ExprErrorV> {
    match tokens_of(s) {
        Err(e) => Err(e),
        Ok(ts) => match pratt(ts, 0, 0) {
            Err(e) => Err(e),
            Ok((e, p)) => if p < ts.len() {
                Err(unexpected(ts, p, seq!["end of expression"@]))
            } else {
                Ok(e)
            },
        },
    }
}

/// The number of line breaks in a list of bytes.
pub open spec fn breaks(b: Seq<u8>) -> nat
    decreases b.len(),
{
    if b.len() == 0 {
        0
    } else {
        breaks(b.drop_last()) + if b.last() == 10 { 1nat } else { 0 }
    }
}

/// The number of bytes behind the last line break.
pub open spec fn since_break(b: Seq<u8>) -> nat
    decreases b.len(),
{
    if b.len() == 0 || b.last() == 10 {
        0
    } else {
        since_break(b.drop_last()) + 1
    }
}

/// The place of `length` bytes at a byte offset of a source text. Lines and columns count from
/// one; an offset behind the end counts as the end.
pub open spec fn place(source: Seq<u8>, offset: usize, length: usize) -> Span {
    let head = if offset <= source.len() { source.take(offset as int) } else { source };
    Span {
        line: (breaks(head) + 1) as usize,
        column: (since_break(head) + 1) as usize,
        offset,
        length,
    }
}

proof fn lemma_break_bounds(b: Seq<u8>)
    ensures
        breaks(b) <= b.len(),
        since_break(b) <= b.len(),
    decreases b.len(),
{
    if b.len() > 0 {
        lemma_break_bounds(b.drop_last());
    }
}

/// The place of a part of a source text.
pub fn place_of(source: &[u8], offset: usize, length: usize) -> (r: Span)
    requires
        source@.len() < usize::MAX,
    ensures
        r == place(source@, offset, length),
{
    let end: usize = if offset <= source.len() { offset } else { source.len() };
    let mut line: usize = 0;
    let mut column: usize = 0;
    let mut i: usize = 0;
    proof {
        assert(source@.take(source@.len() as int) =~= source@);
    }
    while i < end
        invariant
            i <= end <= source@.len(),
            source@.len() < usize::MAX,
            line == breaks(source@.take(i as int)),
            column == since_break(source@.take(i as int)),
            line <= i,
            column <= i,
        decreases end - i,
    {
        proof {
            assert(source@.take(i + 1).drop_last() =~= source@.take(i as int));
        }
        if source[i] == 10 {
            line = line + 1;
            column = 0;
        } else {
            column = column + 1;
        }
        i = i + 1;
    }
    Span { line: line + 1, column: column + 1, offset, length }
}

/// The result of parsing a text as a value of the model.
pub open spec fn parse_result(r: Result<Expr, ExprParseError>) -> Result<ExprV, ExprErrorV> {
    match r {
        Ok(e) => Ok(e@),
        Err(e) => Err(e@),
    }
}

/// Parses a text that stands at a byte offset of a source text. The expression as a whole
/// carries its place in the source.
pub fn parse_kit_expr(s: &str, source: &str, offset: usize) -> (r: Result<Expr, ExprParseError>)
    requires
        encode_utf8(source@).len() < usize::MAX,
    ensures
        parse_result(r) == match parsed(s@) {
            Ok(e) => Ok::<ExprV, ExprErrorV>(
                (ExprV { kind: e.kind, ty: e.ty, span: place(encode_utf8(source@), offset, encode_utf8(s@).len() as usize) }),
            ),
            Err(e) => Err(e),
        },
{
    broadcast use lemma_expr_v;

    let tokens = match tokenize(s) {
        Ok(v) => v,
        Err(e) => return Err(e),
    };
    let mut parser = ExprParser::new(&tokens);
    let e = match parser.parse_expr() {
        Ok(e) => e,
        Err(e) => return Err(e),
    };
    if !parser.at_eof() {
        return Err(parser.refuse(one("end of expression")));
    }
    let span = place_of(source.as_bytes(), offset, s.len());
    Ok(Expr { kind: e.kind, ty: e.ty, span })
}

} // verus!
