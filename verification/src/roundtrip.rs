//! Expressions that are written out in full are read back as they were.
use crate::ast::{AssignmentOperator, BinaryOperator, ExprKindV, ExprV, FieldInitV, LiteralV, UnaryOperator};
use crate::binding_power::{infix_power, prefix_power};
use crate::diagnostics::ExprErrorV;
use crate::expr_pratt::{assign_chain, expr_items, expr_items_from, expr_list, field_items, infix_chain, operand,
    plain, postfix_chain, pratt, primary, tok_at};
use crate::token::TokV;
use crate::types::{kit_type, TypeV};
use vstd::prelude::*;

verus! {

/// The token of a binary operator.
pub open spec fn binary_tok(op: BinaryOperator) -> TokV {
    match op {
        BinaryOperator::Add => TokV::Plus,
        BinaryOperator::Sub => TokV::Minus,
        BinaryOperator::Mul => TokV::Star,
        BinaryOperator::Div => TokV::Slash,
        BinaryOperator::Mod => TokV::Percent,
        BinaryOperator::Eq => TokV::EqEq,
        BinaryOperator::Ne => TokV::NotEq,
        BinaryOperator::Lt => TokV::Lt,
        BinaryOperator::Le => TokV::LtEq,
        BinaryOperator::Gt => TokV::Gt,
        BinaryOperator::Ge => TokV::GtEq,
        BinaryOperator::And => TokV::AndAnd,
        BinaryOperator::Or => TokV::OrOr,
        BinaryOperator::BitAnd => TokV::Amp,
        BinaryOperator::BitOr => TokV::Pipe,
        BinaryOperator::BitXor => TokV::Caret,
        BinaryOperator::Shl => TokV::Shl,
        BinaryOperator::Shr => TokV::Shr,
    }
}

/// The token of an assignment operator.
pub open spec fn assign_tok(op: AssignmentOperator) -> TokV {
    match op {
        AssignmentOperator::Assign => TokV::Assign,
        AssignmentOperator::AddAssign => TokV::PlusEq,
        AssignmentOperator::SubAssign => TokV::MinusEq,
        AssignmentOperator::MulAssign => TokV::StarEq,
        AssignmentOperator::DivAssign => TokV::SlashEq,
        AssignmentOperator::ModAssign => TokV::PercentEq,
        AssignmentOperator::AndAssign => TokV::AmpEq,
        AssignmentOperator::OrAssign => TokV::PipeEq,
        AssignmentOperator::XorAssign => TokV::CaretEq,
        AssignmentOperator::ShlAssign => TokV::ShlEq,
        AssignmentOperator::ShrAssign => TokV::ShrEq,
    }
}

/// The token of a unary operator.
pub open spec fn unary_tok(op: UnaryOperator) -> TokV {
    match op {
        UnaryOperator::Not => TokV::Bang,
        UnaryOperator::Neg => TokV::Minus,
        UnaryOperator::Dereference => TokV::Star,
        UnaryOperator::AddressOf => TokV::Amp,
        UnaryOperator::BitNot => TokV::Tilde,
        UnaryOperator::PreIncrement => TokV::PlusPlus,
        UnaryOperator::PreDecrement => TokV::MinusMinus,
        UnaryOperator::PostIncrement => TokV::PlusPlus,
        UnaryOperator::PostDecrement => TokV::MinusMinus,
    }
}

/// Whether a unary operator stands behind its operand.
pub open spec fn behind(op: UnaryOperator) -> bool {
    op is PostIncrement || op is PostDecrement
}

/// The token of a literal.
pub open spec fn literal_tok(l: LiteralV) -> TokV {
    match l {
        LiteralV::Int(n) => TokV::IntLit(n),
        LiteralV::Float(f) => TokV::FloatLit(f),
        LiteralV::Char(c) => TokV::CharLit(c),
        LiteralV::String(s) => TokV::StringLit(s),
        LiteralV::Bool(b) => if b {
            TokV::KwTrue
        } else {
            TokV::KwFalse
        },
        LiteralV::Null => TokV::KwNull,
    }
}

/// The tokens of an expression in which every part but a name or a literal stands in parentheses.
pub open spec fn written(x: ExprV) -> Seq<TokV>
    decreases x, 1int,
{
    match x.kind {
        ExprKindV::Identifier { name } => seq![TokV::Ident(name)],
        ExprKindV::Literal { value } => seq![literal_tok(value)],
        ExprKindV::ArrayLiteral { elements } => seq![TokV::LBracket] + listed(elements, 0) + seq![TokV::RBracket],
        ExprKindV::TupleLit { elements } => seq![TokV::LParen] + listed(elements, 0) + seq![TokV::RParen],
        ExprKindV::StructInit { struct_type, fields } => seq![
            TokV::KwStruct,
            TokV::Ident(struct_name(struct_type)),
            TokV::LBrace,
        ] + listed_fields(fields, 0) + seq![TokV::RBrace],
        _ => seq![TokV::LParen] + inside(x) + seq![TokV::RParen],
    }
}

/// The name that a struct value is written with.
pub open spec fn struct_name(t: Option<TypeV>) -> Seq<char> {
    match t {
        Some(TypeV::Named(n)) => n,
        _ => Seq::empty(),
    }
}

/// The tokens of an operation, a choice, a call or an access.
pub open spec fn inside(x: ExprV) -> Seq<TokV>
    decreases x, 0int,
{
    match x.kind {
        ExprKindV::BinaryOp { op, left, right } => written(*left) + seq![binary_tok(op)] + written(*right),
        ExprKindV::Assign { op, left, right } => written(*left) + seq![assign_tok(op)] + written(*right),
        ExprKindV::RangeLiteral { start, end } => written(*start) + seq![TokV::Ellipsis] + written(*end),
        ExprKindV::UnaryOp { op, expr } => if behind(op) {
            written(*expr) + seq![unary_tok(op)]
        } else {
            seq![unary_tok(op)] + written(*expr)
        },
        ExprKindV::If { cond, then_branch, else_branch } => seq![TokV::KwIf] + written(*cond) + seq![TokV::KwThen]
            + written(*then_branch) + seq![TokV::KwElse] + written(*else_branch),
        ExprKindV::FieldAccess { expr, field_name } => written(*expr) + seq![TokV::Dot, TokV::Ident(field_name)],
        ExprKindV::Index { expr, index } => written(*expr) + seq![TokV::LBracket] + written(*index) + seq![
            TokV::RBracket,
        ],
        ExprKindV::Call { callee, args } => written(*callee) + seq![TokV::LParen] + listed(args, 0) + seq![
            TokV::RParen,
        ],
        _ => Seq::empty(),
    }
}

/// The tokens of expressions from position `i` on, each followed by a comma.
pub open spec fn listed(xs: Seq<ExprV>, i: int) -> Seq<TokV>
    decreases xs, xs.len() - i,
    when 0 <= i <= xs.len()
{
    if i >= xs.len() {
        Seq::empty()
    } else {
        written(xs[i]) + seq![TokV::Comma] + listed(xs, i + 1)
    }
}

/// The tokens of field values from position `i` on, each followed by a comma.
pub open spec fn listed_fields(fs: Seq<FieldInitV>, i: int) -> Seq<TokV>
    decreases fs, fs.len() - i,
    when 0 <= i <= fs.len()
{
    if i >= fs.len() {
        Seq::empty()
    } else {
        seq![TokV::Ident(fs[i].name), TokV::Colon] + written(fs[i].value) + seq![TokV::Comma] + listed_fields(fs, i + 1)
    }
}

/// Whether an expression can be written: it carries no type and no place yet, a struct value names a
/// declared struct, and a tuple is not empty.
pub open spec fn writable(x: ExprV) -> bool
    decreases x,
{
    &&& x == plain(x.kind)
    &&& match x.kind {
        ExprKindV::Identifier { .. } => true,
        ExprKindV::Literal { .. } => true,
        ExprKindV::BinaryOp { left, right, .. } => writable(*left) && writable(*right),
        ExprKindV::Assign { left, right, .. } => writable(*left) && writable(*right),
        ExprKindV::RangeLiteral { start, end } => writable(*start) && writable(*end),
        ExprKindV::UnaryOp { expr, .. } => writable(*expr),
        ExprKindV::If { cond, then_branch, else_branch } => writable(*cond) && writable(*then_branch) && writable(
            *else_branch,
        ),
        ExprKindV::FieldAccess { expr, .. } => writable(*expr),
        ExprKindV::Index { expr, index } => writable(*expr) && writable(*index),
        ExprKindV::Call { callee, args } => writable(*callee) && all_writable(args),
        ExprKindV::ArrayLiteral { elements } => all_writable(elements),
        ExprKindV::TupleLit { elements } => elements.len() > 0 && all_writable(elements),
        ExprKindV::StructInit { struct_type, fields } => struct_type == Some(kit_type(struct_name(struct_type)))
            && fields_writable(fields),
        _ => false,
    }
}

/// Whether expressions can be written.
pub open spec fn all_writable(xs: Seq<ExprV>) -> bool
    decreases xs,
{
    forall|i: int| 0 <= i < xs.len() ==> writable(#[trigger] xs[i])
}

/// Whether field values can be written.
pub open spec fn fields_writable(fs: Seq<FieldInitV>) -> bool
    decreases fs,
{
    forall|i: int| 0 <= i < fs.len() ==> writable((#[trigger] fs[i]).value)
}

/// Whether the tokens from position `i` on begin with the given ones.
pub open spec fn stands_at(ts: Seq<TokV>, i: int, w: Seq<TokV>) -> bool {
    0 <= i && i + w.len() <= ts.len() && ts.subrange(i, i + w.len()) == w
}

proof fn lemma_split(ts: Seq<TokV>, i: int, a: Seq<TokV>, b: Seq<TokV>)
    requires
        stands_at(ts, i, a + b),
    ensures
        stands_at(ts, i, a),
        stands_at(ts, i + a.len(), b),
{
    let w = ts.subrange(i, i + (a + b).len());
    assert(ts.subrange(i, i + a.len()) =~= w.subrange(0, a.len() as int));
    assert(w.subrange(0, a.len() as int) =~= a);
    assert(ts.subrange(i + a.len(), i + a.len() + b.len()) =~= w.subrange(a.len() as int, w.len() as int));
    assert(w.subrange(a.len() as int, w.len() as int) =~= b);
}

proof fn lemma_tok(ts: Seq<TokV>, i: int, t: TokV)
    requires
        stands_at(ts, i, seq![t]),
    ensures
        0 <= i < ts.len(),
        ts[i] == t,
{
    assert(ts.subrange(i, i + 1)[0] == t);
}

/// Whether a token ends an expression.
pub open spec fn ends(t: TokV) -> bool {
    t is RParen || t is RBracket || t is RBrace || t is Comma || t is KwThen || t is KwElse
}

/// What is written stands for itself: it is read as the expression, whatever follows.
proof fn lemma_primary(ts: Seq<TokV>, i: int, x: ExprV)
    requires
        writable(x),
        stands_at(ts, i, written(x)),
    ensures
        written(x).len() > 0,
        primary(ts, i) == Ok::<(ExprV, int), ExprErrorV>((x, i + written(x).len())),
        prefix_power(ts[i]) is None,
    decreases x, 2int,
{
    match x.kind {
        ExprKindV::Identifier { name } => {
            lemma_tok(ts, i, TokV::Ident(name));
        },
        ExprKindV::Literal { value } => {
            lemma_tok(ts, i, literal_tok(value));
        },
        ExprKindV::ArrayLiteral { elements } => {
            let l = seq![TokV::LBracket];
            let m = listed(elements, 0);
            let r = seq![TokV::RBracket];
            lemma_split(ts, i, l + m, r);
            lemma_split(ts, i, l, m);
            lemma_tok(ts, i, TokV::LBracket);
            lemma_tok(ts, i + 1 + m.len(), TokV::RBracket);
            assert(all_writable(elements));
            lemma_items(ts, i + 1, elements, 0, TokV::RBracket, Seq::empty());
            assert(Seq::<ExprV>::empty() + elements.skip(0) =~= elements);
            lemma_same_list(ts, i + 1, TokV::RBracket);
        },
        ExprKindV::TupleLit { elements } => {
            lemma_tuple(ts, i, x, elements);
        },
        ExprKindV::StructInit { struct_type, fields } => {
            lemma_struct(ts, i, x, struct_type, fields);
        },
        _ => {
            let l = seq![TokV::LParen];
            let r = seq![TokV::RParen];
            let m = inside(x);
            lemma_split(ts, i, l + m, r);
            lemma_split(ts, i, l, m);
            lemma_tok(ts, i, TokV::LParen);
            lemma_tok(ts, i + 1 + m.len(), TokV::RParen);
            lemma_inside(ts, i + 1, x);
        },
    }
}

proof fn lemma_same_list(ts: Seq<TokV>, i: int, closer: TokV)
    ensures
        expr_list(ts, i, closer) == expr_items(ts, i, closer, Seq::empty()),
{
}

proof fn lemma_tuple(ts: Seq<TokV>, i: int, x: ExprV, elements: Seq<ExprV>)
    requires
        writable(x),
        x.kind == (ExprKindV::TupleLit { elements }),
        stands_at(ts, i, written(x)),
    ensures
        primary(ts, i) == Ok::<(ExprV, int), ExprErrorV>((x, i + written(x).len())),
        prefix_power(ts[i]) is None,
    decreases x, 1int,
{
    let l = seq![TokV::LParen];
    let m = listed(elements, 0);
    let r = seq![TokV::RParen];
    lemma_split(ts, i, l + m, r);
    lemma_split(ts, i, l, m);
    lemma_tok(ts, i, TokV::LParen);
    lemma_tok(ts, i + 1 + m.len(), TokV::RParen);
    let w = written(elements[0]);
    let c = seq![TokV::Comma];
    let rest = listed(elements, 1);
    assert(m == w + c + rest);
    lemma_split(ts, i + 1, w + c, rest);
    lemma_split(ts, i + 1, w, c);
    lemma_tok(ts, i + 1 + w.len(), TokV::Comma);
    assert(all_writable(elements));
    assert(writable(elements[0]));
    lemma_whole(ts, i + 1, elements[0], 0);
    lemma_items(ts, i + 1 + w.len() + 1, elements, 1, TokV::RParen, seq![elements[0]]);
    assert(seq![elements[0]] + elements.skip(1) =~= elements);
}

proof fn lemma_struct(ts: Seq<TokV>, i: int, x: ExprV, st: Option<TypeV>, fields: Seq<FieldInitV>)
    requires
        writable(x),
        x.kind == (ExprKindV::StructInit { struct_type: st, fields }),
        stands_at(ts, i, written(x)),
    ensures
        primary(ts, i) == Ok::<(ExprV, int), ExprErrorV>((x, i + written(x).len())),
        prefix_power(ts[i]) is None,
    decreases x, 1int,
{
    let l = seq![TokV::KwStruct, TokV::Ident(struct_name(st)), TokV::LBrace];
    let m = listed_fields(fields, 0);
    let r = seq![TokV::RBrace];
    lemma_split(ts, i, l + m, r);
    lemma_split(ts, i, l, m);
    assert(ts.subrange(i, i + 3)[0] == l[0] && ts.subrange(i, i + 3)[1] == l[1] && ts.subrange(i, i + 3)[2] == l[2]);
    lemma_tok(ts, i + 3 + m.len(), TokV::RBrace);
    assert(fields_writable(fields));
    lemma_fields(ts, i + 3, fields, 0, Seq::empty());
    assert(Seq::<FieldInitV>::empty() + fields.skip(0) =~= fields);
}

/// What is written is read as one expression up to a token that ends it.
proof fn lemma_whole(ts: Seq<TokV>, i: int, x: ExprV, bp: u8)
    requires
        writable(x),
        stands_at(ts, i, written(x)),
        i + written(x).len() < ts.len(),
        ends(ts[i + written(x).len()]),
    ensures
        pratt(ts, i, bp) == Ok::<(ExprV, int), ExprErrorV>((x, i + written(x).len())),
    decreases x, 3int,
{
    lemma_primary(ts, i, x);
    let p = i + written(x).len();
    assert(postfix_chain(ts, p, x) == Ok::<(ExprV, int), ExprErrorV>((x, p)));
    assert(operand(ts, i) == Ok::<(ExprV, int), ExprErrorV>((x, p)));
    assert(infix_chain(ts, p, x, bp) == Ok::<(ExprV, int), ExprErrorV>((x, p)));
    assert(assign_chain(ts, p, x, bp) == Ok::<(ExprV, int), ExprErrorV>((x, p)));
}

/// What is written is read as the operand before an infix operator.
proof fn lemma_left(ts: Seq<TokV>, i: int, x: ExprV)
    requires
        writable(x),
        stands_at(ts, i, written(x)),
        i + written(x).len() < ts.len(),
        infix_power(ts[i + written(x).len()]) is Some,
    ensures
        operand(ts, i) == Ok::<(ExprV, int), ExprErrorV>((x, i + written(x).len())),
        written(x).len() > 0,
    decreases x, 3int,
{
    lemma_primary(ts, i, x);
    let p = i + written(x).len();
    assert(postfix_chain(ts, p, x) == Ok::<(ExprV, int), ExprErrorV>((x, p)));
}

proof fn lemma_inside(ts: Seq<TokV>, i: int, x: ExprV)
    requires
        writable(x),
        !(x.kind is Identifier || x.kind is Literal || x.kind is ArrayLiteral || x.kind is TupleLit || x.kind is StructInit),
        stands_at(ts, i, inside(x)),
        i + inside(x).len() < ts.len(),
        ts[i + inside(x).len()] is RParen,
    ensures
        pratt(ts, i, 0) == Ok::<(ExprV, int), ExprErrorV>((x, i + inside(x).len())),
        inside(x).len() > 0,
    decreases x, 1int,
{
    match x.kind {
        ExprKindV::BinaryOp { op, left, right } => {
            lemma_binary(ts, i, x, op, *left, *right);
        },
        ExprKindV::Assign { op, left, right } => {
            lemma_assign(ts, i, x, op, *left, *right);
        },
        ExprKindV::RangeLiteral { start, end } => {
            lemma_range(ts, i, x, *start, *end);
        },
        ExprKindV::UnaryOp { op, expr } => {
            lemma_unary(ts, i, x, op, *expr);
        },
        ExprKindV::If { cond, then_branch, else_branch } => {
            lemma_choice(ts, i, x, *cond, *then_branch, *else_branch);
        },
        ExprKindV::FieldAccess { expr, field_name } => {
            lemma_access(ts, i, x, *expr, field_name);
        },
        ExprKindV::Index { expr, index } => {
            lemma_index(ts, i, x, *expr, *index);
        },
        ExprKindV::Call { callee, args } => {
            lemma_call(ts, i, x, *callee, args);
        },
        _ => {},
    }
}

proof fn lemma_binary(ts: Seq<TokV>, i: int, x: ExprV, op: BinaryOperator, left: ExprV, right: ExprV)
    requires
        x == plain(ExprKindV::BinaryOp { op, left: Box::new(left), right: Box::new(right) }),
        writable(left),
        writable(right),
        stands_at(ts, i, written(left) + seq![binary_tok(op)] + written(right)),
        i + written(left).len() + 1 + written(right).len() < ts.len(),
        ts[i + written(left).len() + 1 + written(right).len()] is RParen,
    ensures
        pratt(ts, i, 0) == Ok::<(ExprV, int), ExprErrorV>((x, i + written(left).len() + 1 + written(right).len())),
    decreases x, 0int,
{
    assert(decreases_to!(x => *x.kind->BinaryOp_left));
    assert(decreases_to!(x => *x.kind->BinaryOp_right));
    let c = seq![binary_tok(op)];
    let p = i + written(left).len();
    let q = p + 1 + written(right).len();
    lemma_split(ts, i, written(left) + c, written(right));
    lemma_split(ts, i, written(left), c);
    lemma_tok(ts, p, binary_tok(op));
    lemma_left(ts, i, left);
    let rbp = (infix_power(ts[p])->0).1;
    lemma_whole(ts, p + 1, right, rbp);
    lemma_nonempty(right);
    assert(infix_chain(ts, q, x, 0) == Ok::<(ExprV, int), ExprErrorV>((x, q)));
    assert(infix_chain(ts, p, left, 0) == Ok::<(ExprV, int), ExprErrorV>((x, q)));
    assert(assign_chain(ts, q, x, 0) == Ok::<(ExprV, int), ExprErrorV>((x, q)));
}

proof fn lemma_nonempty(x: ExprV)
    ensures
        written(x).len() > 0,
{
}

proof fn lemma_range(ts: Seq<TokV>, i: int, x: ExprV, left: ExprV, right: ExprV)
    requires
        x == plain(ExprKindV::RangeLiteral { start: Box::new(left), end: Box::new(right) }),
        writable(left),
        writable(right),
        stands_at(ts, i, written(left) + seq![TokV::Ellipsis] + written(right)),
        i + written(left).len() + 1 + written(right).len() < ts.len(),
        ts[i + written(left).len() + 1 + written(right).len()] is RParen,
    ensures
        pratt(ts, i, 0) == Ok::<(ExprV, int), ExprErrorV>((x, i + written(left).len() + 1 + written(right).len())),
    decreases x, 0int,
{
    assert(decreases_to!(x => *x.kind->start));
    assert(decreases_to!(x => *x.kind->end));
    let c = seq![TokV::Ellipsis];
    let p = i + written(left).len();
    let q = p + 1 + written(right).len();
    lemma_split(ts, i, written(left) + c, written(right));
    lemma_split(ts, i, written(left), c);
    lemma_tok(ts, p, TokV::Ellipsis);
    lemma_left(ts, i, left);
    let rbp = (infix_power(ts[p])->0).1;
    lemma_whole(ts, p + 1, right, rbp);
    lemma_nonempty(right);
    assert(infix_chain(ts, q, x, 0) == Ok::<(ExprV, int), ExprErrorV>((x, q)));
    assert(infix_chain(ts, p, left, 0) == Ok::<(ExprV, int), ExprErrorV>((x, q)));
    assert(assign_chain(ts, q, x, 0) == Ok::<(ExprV, int), ExprErrorV>((x, q)));
}

proof fn lemma_assign(ts: Seq<TokV>, i: int, x: ExprV, op: AssignmentOperator, left: ExprV, right: ExprV)
    requires
        x == plain(ExprKindV::Assign { op, left: Box::new(left), right: Box::new(right) }),
        writable(left),
        writable(right),
        stands_at(ts, i, written(left) + seq![assign_tok(op)] + written(right)),
        i + written(left).len() + 1 + written(right).len() < ts.len(),
        ts[i + written(left).len() + 1 + written(right).len()] is RParen,
    ensures
        pratt(ts, i, 0) == Ok::<(ExprV, int), ExprErrorV>((x, i + written(left).len() + 1 + written(right).len())),
    decreases x, 0int,
{
    assert(decreases_to!(x => *x.kind->Assign_left));
    assert(decreases_to!(x => *x.kind->Assign_right));
    let c = seq![assign_tok(op)];
    let p = i + written(left).len();
    let q = p + 1 + written(right).len();
    lemma_split(ts, i, written(left) + c, written(right));
    lemma_split(ts, i, written(left), c);
    lemma_tok(ts, p, assign_tok(op));
    lemma_left(ts, i, left);
    lemma_whole(ts, p + 1, right, 0);
    lemma_nonempty(right);
    assert(infix_chain(ts, p, left, 0) == Ok::<(ExprV, int), ExprErrorV>((left, p)));
    assert(assign_chain(ts, q, x, 0) == Ok::<(ExprV, int), ExprErrorV>((x, q)));
    assert(assign_chain(ts, p, left, 0) == Ok::<(ExprV, int), ExprErrorV>((x, q)));
}

proof fn lemma_unary(ts: Seq<TokV>, i: int, x: ExprV, op: UnaryOperator, y: ExprV)
    requires
        x == plain(ExprKindV::UnaryOp { op, expr: Box::new(y) }),
        writable(y),
        stands_at(ts, i, inside(x)),
        i + inside(x).len() < ts.len(),
        ts[i + inside(x).len()] is RParen,
    ensures
        pratt(ts, i, 0) == Ok::<(ExprV, int), ExprErrorV>((x, i + inside(x).len())),
        inside(x).len() > 0,
    decreases x, 0int,
{
    let c = seq![unary_tok(op)];
    let q = i + inside(x).len();
    if behind(op) {
        lemma_split(ts, i, written(y), c);
        let p = i + written(y).len();
        lemma_tok(ts, p, unary_tok(op));
        lemma_primary(ts, i, y);
        assert(postfix_chain(ts, q, x) == Ok::<(ExprV, int), ExprErrorV>((x, q)));
        assert(postfix_chain(ts, p, y) == postfix_chain(ts, p + 1, x));
    } else {
        lemma_split(ts, i, c, written(y));
        lemma_tok(ts, i, unary_tok(op));
        lemma_whole(ts, i + 1, y, prefix_power(ts[i])->0);
        assert(postfix_chain(ts, q, x) == Ok::<(ExprV, int), ExprErrorV>((x, q)));
    }
    assert(operand(ts, i) == Ok::<(ExprV, int), ExprErrorV>((x, q)));
    assert(infix_chain(ts, q, x, 0) == Ok::<(ExprV, int), ExprErrorV>((x, q)));
    assert(assign_chain(ts, q, x, 0) == Ok::<(ExprV, int), ExprErrorV>((x, q)));
}

proof fn lemma_choice(ts: Seq<TokV>, i: int, x: ExprV, a: ExprV, b: ExprV, c: ExprV)
    requires
        x == plain(
            ExprKindV::If { cond: Box::new(a), then_branch: Box::new(b), else_branch: Box::new(c) },
        ),
        writable(a),
        writable(b),
        writable(c),
        stands_at(ts, i, inside(x)),
        i + inside(x).len() < ts.len(),
        ts[i + inside(x).len()] is RParen,
    ensures
        pratt(ts, i, 0) == Ok::<(ExprV, int), ExprErrorV>((x, i + inside(x).len())),
        inside(x).len() > 0,
    decreases x, 0int,
{
    let k = seq![TokV::KwIf];
    let t = seq![TokV::KwThen];
    let e = seq![TokV::KwElse];
    let p = i + 1 + written(a).len();
    let q = p + 1 + written(b).len();
    let r = q + 1 + written(c).len();
    lemma_split(ts, i, k + written(a) + t + written(b) + e, written(c));
    lemma_split(ts, i, k + written(a) + t + written(b), e);
    lemma_split(ts, i, k + written(a) + t, written(b));
    lemma_split(ts, i, k + written(a), t);
    lemma_split(ts, i, k, written(a));
    lemma_tok(ts, i, TokV::KwIf);
    lemma_tok(ts, p, TokV::KwThen);
    lemma_tok(ts, q, TokV::KwElse);
    lemma_whole(ts, i + 1, a, 0);
    lemma_whole(ts, p + 1, b, 0);
    lemma_whole(ts, q + 1, c, 0);
    lemma_nonempty(a);
    lemma_nonempty(b);
    lemma_nonempty(c);
    assert(primary(ts, i) == Ok::<(ExprV, int), ExprErrorV>((x, r)));
    assert(postfix_chain(ts, r, x) == Ok::<(ExprV, int), ExprErrorV>((x, r)));
    assert(operand(ts, i) == Ok::<(ExprV, int), ExprErrorV>((x, r)));
    assert(infix_chain(ts, r, x, 0) == Ok::<(ExprV, int), ExprErrorV>((x, r)));
    assert(assign_chain(ts, r, x, 0) == Ok::<(ExprV, int), ExprErrorV>((x, r)));
}

proof fn lemma_done(ts: Seq<TokV>, i: int, y: ExprV, p: int, x: ExprV, q: int)
    requires
        primary(ts, i) == Ok::<(ExprV, int), ExprErrorV>((y, p)),
        0 <= i < p <= q < ts.len(),
        prefix_power(ts[i]) is None,
        postfix_chain(ts, p, y) == Ok::<(ExprV, int), ExprErrorV>((x, q)),
        ts[q] is RParen,
    ensures
        pratt(ts, i, 0) == Ok::<(ExprV, int), ExprErrorV>((x, q)),
{
    assert(operand(ts, i) == Ok::<(ExprV, int), ExprErrorV>((x, q)));
    assert(infix_chain(ts, q, x, 0) == Ok::<(ExprV, int), ExprErrorV>((x, q)));
    assert(assign_chain(ts, q, x, 0) == Ok::<(ExprV, int), ExprErrorV>((x, q)));
}

proof fn lemma_access(ts: Seq<TokV>, i: int, x: ExprV, y: ExprV, name: Seq<char>)
    requires
        x == plain(ExprKindV::FieldAccess { expr: Box::new(y), field_name: name }),
        writable(y),
        stands_at(ts, i, inside(x)),
        i + inside(x).len() < ts.len(),
        ts[i + inside(x).len()] is RParen,
    ensures
        pratt(ts, i, 0) == Ok::<(ExprV, int), ExprErrorV>((x, i + inside(x).len())),
        inside(x).len() > 0,
    decreases x, 0int,
{
    let c = seq![TokV::Dot, TokV::Ident(name)];
    let p = i + written(y).len();
    let q = p + 2;
    lemma_split(ts, i, written(y), c);
    assert(ts.subrange(p, p + 2)[0] == c[0] && ts.subrange(p, p + 2)[1] == c[1]);
    lemma_primary(ts, i, y);
    assert(postfix_chain(ts, q, x) == Ok::<(ExprV, int), ExprErrorV>((x, q)));
    assert(postfix_chain(ts, p, y) == postfix_chain(ts, q, x));
    lemma_done(ts, i, y, p, x, q);
}

proof fn lemma_index(ts: Seq<TokV>, i: int, x: ExprV, y: ExprV, z: ExprV)
    requires
        x == plain(ExprKindV::Index { expr: Box::new(y), index: Box::new(z) }),
        writable(y),
        writable(z),
        stands_at(ts, i, inside(x)),
        i + inside(x).len() < ts.len(),
        ts[i + inside(x).len()] is RParen,
    ensures
        pratt(ts, i, 0) == Ok::<(ExprV, int), ExprErrorV>((x, i + inside(x).len())),
        inside(x).len() > 0,
    decreases x, 0int,
{
    let l = seq![TokV::LBracket];
    let r = seq![TokV::RBracket];
    let p = i + written(y).len();
    let e = p + 1 + written(z).len();
    let q = e + 1;
    lemma_split(ts, i, written(y) + l + written(z), r);
    lemma_split(ts, i, written(y) + l, written(z));
    lemma_split(ts, i, written(y), l);
    lemma_tok(ts, p, TokV::LBracket);
    lemma_tok(ts, e, TokV::RBracket);
    lemma_primary(ts, i, y);
    lemma_whole(ts, p + 1, z, 0);
    assert(postfix_chain(ts, q, x) == Ok::<(ExprV, int), ExprErrorV>((x, q)));
    assert(postfix_chain(ts, p, y) == postfix_chain(ts, q, x));
    lemma_done(ts, i, y, p, x, q);
}

proof fn lemma_call(ts: Seq<TokV>, i: int, x: ExprV, y: ExprV, args: Seq<ExprV>)
    requires
        x == plain(ExprKindV::Call { callee: Box::new(y), args }),
        writable(y),
        all_writable(args),
        stands_at(ts, i, inside(x)),
        i + inside(x).len() < ts.len(),
        ts[i + inside(x).len()] is RParen,
    ensures
        pratt(ts, i, 0) == Ok::<(ExprV, int), ExprErrorV>((x, i + inside(x).len())),
        inside(x).len() > 0,
    decreases x, 0int,
{
    let l = seq![TokV::LParen];
    let r = seq![TokV::RParen];
    let m = listed(args, 0);
    let p = i + written(y).len();
    let e = p + 1 + m.len();
    let q = e + 1;
    lemma_split(ts, i, written(y) + l + m, r);
    lemma_split(ts, i, written(y) + l, m);
    lemma_split(ts, i, written(y), l);
    lemma_tok(ts, p, TokV::LParen);
    lemma_tok(ts, e, TokV::RParen);
    lemma_primary(ts, i, y);
    lemma_items(ts, p + 1, args, 0, TokV::RParen, Seq::empty());
    assert(Seq::<ExprV>::empty() + args.skip(0) =~= args);
    lemma_same_list(ts, p + 1, TokV::RParen);
    assert(postfix_chain(ts, q, x) == Ok::<(ExprV, int), ExprErrorV>((x, q)));
    assert(postfix_chain(ts, p, y) == postfix_chain(ts, q, x));
    lemma_done(ts, i, y, p, x, q);
}

proof fn lemma_items(ts: Seq<TokV>, i: int, xs: Seq<ExprV>, j: int, closer: TokV, acc: Seq<ExprV>)
    requires
        0 <= j <= xs.len(),
        all_writable(xs),
        stands_at(ts, i, listed(xs, j)),
        i + listed(xs, j).len() < ts.len(),
        ts[i + listed(xs, j).len()] == closer,
        closer is RParen || closer is RBracket,
    ensures
        expr_items(ts, i, closer, acc) == Ok::<(Seq<ExprV>, int), ExprErrorV>(
            (acc + xs.skip(j), i + listed(xs, j).len() + 1),
        ),
    decreases xs, xs.len() - j,
{
    if j < xs.len() {
        let w = written(xs[j]);
        let c = seq![TokV::Comma];
        let rest = listed(xs, j + 1);
        assert(listed(xs, j) == w + c + rest);
        lemma_split(ts, i, w + c, rest);
        lemma_split(ts, i, w, c);
        let p = i + w.len();
        lemma_tok(ts, p, TokV::Comma);
        assert(writable(xs[j]));
        lemma_whole(ts, i, xs[j], 0);
        lemma_primary(ts, i, xs[j]);
        lemma_items(ts, p + 1, xs, j + 1, closer, acc.push(xs[j]));
        assert(acc.push(xs[j]) + xs.skip(j + 1) =~= acc + xs.skip(j));
        assert(ts[i] != closer) by {
            if ts[i] == closer {
                assert(primary(ts, i) is Err);
            }
        }
        assert(expr_items(ts, i, closer, acc) == expr_items_from(ts, i, closer, acc));
        assert(expr_items_from(ts, i, closer, acc) == expr_items(ts, p + 1, closer, acc.push(xs[j])));
    } else {
        assert(acc + xs.skip(j) =~= acc);
    }
}

proof fn lemma_fields(ts: Seq<TokV>, i: int, fs: Seq<FieldInitV>, j: int, acc: Seq<FieldInitV>)
    requires
        0 <= j <= fs.len(),
        fields_writable(fs),
        stands_at(ts, i, listed_fields(fs, j)),
        i + listed_fields(fs, j).len() < ts.len(),
        ts[i + listed_fields(fs, j).len()] is RBrace,
    ensures
        field_items(ts, i, acc) == Ok::<(Seq<FieldInitV>, int), ExprErrorV>(
            (acc + fs.skip(j), i + listed_fields(fs, j).len() + 1),
        ),
    decreases fs, fs.len() - j,
{
    if j < fs.len() {
        let n = seq![TokV::Ident(fs[j].name), TokV::Colon];
        let w = written(fs[j].value);
        let c = seq![TokV::Comma];
        let rest = listed_fields(fs, j + 1);
        assert(listed_fields(fs, j) == n + w + c + rest);
        lemma_split(ts, i, n + w + c, rest);
        lemma_split(ts, i, n + w, c);
        lemma_split(ts, i, n, w);
        let p = i + 2 + w.len();
        assert(ts.subrange(i, i + 2)[0] == n[0] && ts.subrange(i, i + 2)[1] == n[1]);
        lemma_tok(ts, p, TokV::Comma);
        assert(writable(fs[j].value));
        lemma_whole(ts, i + 2, fs[j].value, 0);
        lemma_fields(ts, p + 1, fs, j + 1, acc.push(fs[j]));
        assert(acc.push(fs[j]) + fs.skip(j + 1) =~= acc + fs.skip(j));
        assert(fs[j] == (FieldInitV { name: fs[j].name, value: fs[j].value }));
        assert(field_items(ts, i, acc) == field_items(ts, p + 1, acc.push(fs[j])));
    } else {
        assert(acc + fs.skip(j) =~= acc);
    }
}

/// An expression that is written with every part in parentheses is read back as it was: its operators,
/// its operands, its arguments and fields, all in their places.
pub proof fn law_written_expression_reads_back(x: ExprV)
    requires
        writable(x),
    ensures
        pratt(written(x), 0, 0) == Ok::<(ExprV, int), ExprErrorV>((x, written(x).len() as int)),
{
    let ts = written(x);
    assert(ts.subrange(0, ts.len() as int) =~= ts);
    lemma_primary(ts, 0, x);
    let p = ts.len() as int;
    assert(postfix_chain(ts, p, x) == Ok::<(ExprV, int), ExprErrorV>((x, p)));
    assert(operand(ts, 0) == Ok::<(ExprV, int), ExprErrorV>((x, p)));
    assert(tok_at(ts, p) is Semi);
    assert(infix_chain(ts, p, x, 0) == Ok::<(ExprV, int), ExprErrorV>((x, p)));
    assert(assign_chain(ts, p, x, 0) == Ok::<(ExprV, int), ExprErrorV>((x, p)));
}

/// How tightly operators bind, from assignments outwards to products inwards; operators on one level bind
/// alike.
pub proof fn law_order_of_operators(a: BinaryOperator, b: BinaryOperator)
    ensures
        level(a) < level(b) ==> (infix_power(binary_tok(a))->0).1 <= (infix_power(binary_tok(b))->0).0,
        level(a) == level(b) ==> infix_power(binary_tok(a)) == infix_power(binary_tok(b)),
        (infix_power(TokV::Ellipsis)->0).1 < (infix_power(binary_tok(a))->0).0,
{
}

/// The level of an operator: how tightly it binds.
pub open spec fn level(op: BinaryOperator) -> int {
    match op {
        BinaryOperator::Or => 1,
        BinaryOperator::And => 2,
        BinaryOperator::BitOr => 3,
        BinaryOperator::BitXor => 4,
        BinaryOperator::BitAnd => 5,
        BinaryOperator::Eq | BinaryOperator::Ne => 6,
        BinaryOperator::Lt | BinaryOperator::Le | BinaryOperator::Gt | BinaryOperator::Ge => 7,
        BinaryOperator::Shl | BinaryOperator::Shr => 8,
        BinaryOperator::Add | BinaryOperator::Sub => 9,
        BinaryOperator::Mul | BinaryOperator::Div | BinaryOperator::Mod => 10,
    }
}

} // verus!
