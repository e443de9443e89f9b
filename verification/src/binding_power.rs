//! Operator binding powers, and the operators that tokens stand for.
use crate::ast::{AssignmentOperator, BinaryOperator, UnaryOperator};
use crate::token::{Tok, TokV};
use vstd::prelude::*;

verus! {

/// The left and right binding power of an infix operator.
pub open spec fn infix_power(t: TokV) -> Option<(u8, u8)> {
    match t {
        TokV::Assign | TokV::PlusEq | TokV::MinusEq | TokV::StarEq | TokV::SlashEq | TokV::PercentEq | TokV::AmpEq | TokV::PipeEq | TokV::CaretEq | TokV::ShlEq | TokV::ShrEq => Some((0, 1)),
        TokV::Ellipsis => Some((2, 2)),
        TokV::OrOr => Some((3, 4)),
        TokV::AndAnd => Some((5, 6)),
        TokV::Pipe => Some((7, 8)),
        TokV::Caret => Some((9, 10)),
        TokV::Amp => Some((11, 12)),
        TokV::EqEq | TokV::NotEq => Some((13, 14)),
        TokV::Lt | TokV::Gt | TokV::LtEq | TokV::GtEq => Some((15, 16)),
        TokV::Shl | TokV::Shr => Some((17, 18)),
        TokV::Plus | TokV::Minus => Some((19, 20)),
        TokV::Star | TokV::Slash | TokV::Percent => Some((21, 22)),
        _ => None,
    }
}

/// The binding powers of an infix operator: `(left, right)`.
pub fn infix(tok: &Tok) -> (r: Option<(u8, u8)>)
    ensures
        r == infix_power(tok@),
{
    match tok {
        Tok::Assign | Tok::PlusEq | Tok::MinusEq | Tok::StarEq | Tok::SlashEq | Tok::PercentEq | Tok::AmpEq | Tok::PipeEq | Tok::CaretEq | Tok::ShlEq | Tok::ShrEq => Some((0, 1)),
        Tok::Ellipsis => Some((2, 2)),
        Tok::OrOr => Some((3, 4)),
        Tok::AndAnd => Some((5, 6)),
        Tok::Pipe => Some((7, 8)),
        Tok::Caret => Some((9, 10)),
        Tok::Amp => Some((11, 12)),
        Tok::EqEq | Tok::NotEq => Some((13, 14)),
        Tok::Lt | Tok::Gt | Tok::LtEq | Tok::GtEq => Some((15, 16)),
        Tok::Shl | Tok::Shr => Some((17, 18)),
        Tok::Plus | Tok::Minus => Some((19, 20)),
        Tok::Star | Tok::Slash | Tok::Percent => Some((21, 22)),
        _ => None,
    }
}

/// The binding power of a postfix operator.
pub open spec fn postfix_power(t: TokV) -> Option<u8> {
    match t {
        TokV::Dot | TokV::LBracket | TokV::LParen | TokV::PlusPlus | TokV::MinusMinus => Some(27),
        _ => None,
    }
}

/// The binding power of a postfix operator.
pub fn postfix(tok: &Tok) -> (r: Option<u8>)
    ensures
        r == postfix_power(tok@),
{
    match tok {
        Tok::Dot | Tok::LBracket | Tok::LParen | Tok::PlusPlus | Tok::MinusMinus => Some(27),
        _ => None,
    }
}

/// The binding power of a prefix operator.
pub open spec fn prefix_power(t: TokV) -> Option<u8> {
    match t {
        TokV::Bang | TokV::Minus | TokV::Star | TokV::Amp | TokV::Tilde | TokV::PlusPlus | TokV::MinusMinus => Some(25),
        _ => None,
    }
}

/// The binding power of a prefix operator.
pub fn prefix(tok: &Tok) -> (r: Option<u8>)
    ensures
        r == prefix_power(tok@),
{
    match tok {
        Tok::Bang | Tok::Minus | Tok::Star | Tok::Amp | Tok::Tilde | Tok::PlusPlus | Tok::MinusMinus => Some(25),
        _ => None,
    }
}

/// Whether a token makes a range of the two expressions round it.
pub fn is_range_op(tok: &Tok) -> (r: bool)
    ensures
        r == (tok@ is Ellipsis),
{
    matches!(tok, Tok::Ellipsis)
}

/// The binary operator that a token stands for.
pub open spec fn binary_op_of(t: TokV) -> Option<BinaryOperator> {
    match t {
        TokV::Plus => Some(BinaryOperator::Add),
        TokV::Minus => Some(BinaryOperator::Sub),
        TokV::Star => Some(BinaryOperator::Mul),
        TokV::Slash => Some(BinaryOperator::Div),
        TokV::Percent => Some(BinaryOperator::Mod),
        TokV::EqEq => Some(BinaryOperator::Eq),
        TokV::NotEq => Some(BinaryOperator::Ne),
        TokV::Lt => Some(BinaryOperator::Lt),
        TokV::Gt => Some(BinaryOperator::Gt),
        TokV::LtEq => Some(BinaryOperator::Le),
        TokV::GtEq => Some(BinaryOperator::Ge),
        TokV::AndAnd => Some(BinaryOperator::And),
        TokV::OrOr => Some(BinaryOperator::Or),
        TokV::Amp => Some(BinaryOperator::BitAnd),
        TokV::Pipe => Some(BinaryOperator::BitOr),
        TokV::Caret => Some(BinaryOperator::BitXor),
        TokV::Shl => Some(BinaryOperator::Shl),
        TokV::Shr => Some(BinaryOperator::Shr),
        _ => None,
    }
}

/// The binary operator that a token stands for.
pub fn tok_to_binary_op(tok: &Tok) -> (r: Option<BinaryOperator>)
    ensures
        r == binary_op_of(tok@),
{
    match tok {
        Tok::Plus => Some(BinaryOperator::Add),
        Tok::Minus => Some(BinaryOperator::Sub),
        Tok::Star => Some(BinaryOperator::Mul),
        Tok::Slash => Some(BinaryOperator::Div),
        Tok::Percent => Some(BinaryOperator::Mod),
        Tok::EqEq => Some(BinaryOperator::Eq),
        Tok::NotEq => Some(BinaryOperator::Ne),
        Tok::Lt => Some(BinaryOperator::Lt),
        Tok::Gt => Some(BinaryOperator::Gt),
        Tok::LtEq => Some(BinaryOperator::Le),
        Tok::GtEq => Some(BinaryOperator::Ge),
        Tok::AndAnd => Some(BinaryOperator::And),
        Tok::OrOr => Some(BinaryOperator::Or),
        Tok::Amp => Some(BinaryOperator::BitAnd),
        Tok::Pipe => Some(BinaryOperator::BitOr),
        Tok::Caret => Some(BinaryOperator::BitXor),
        Tok::Shl => Some(BinaryOperator::Shl),
        Tok::Shr => Some(BinaryOperator::Shr),
        _ => None,
    }
}

/// The assignment operator that a token stands for.
pub open spec fn assign_op_of(t: TokV) -> Option<AssignmentOperator> {
    match t {
        TokV::Assign => Some(AssignmentOperator::Assign),
        TokV::PlusEq => Some(AssignmentOperator::AddAssign),
        TokV::MinusEq => Some(AssignmentOperator::SubAssign),
        TokV::StarEq => Some(AssignmentOperator::MulAssign),
        TokV::SlashEq => Some(AssignmentOperator::DivAssign),
        TokV::PercentEq => Some(AssignmentOperator::ModAssign),
        TokV::AmpEq => Some(AssignmentOperator::AndAssign),
        TokV::PipeEq => Some(AssignmentOperator::OrAssign),
        TokV::CaretEq => Some(AssignmentOperator::XorAssign),
        TokV::ShlEq => Some(AssignmentOperator::ShlAssign),
        TokV::ShrEq => Some(AssignmentOperator::ShrAssign),
        _ => None,
    }
}

/// The assignment operator that a token stands for.
pub fn tok_to_assign_op(tok: &Tok) -> (r: Option<AssignmentOperator>)
    ensures
        r == assign_op_of(tok@),
{
    match tok {
        Tok::Assign => Some(AssignmentOperator::Assign),
        Tok::PlusEq => Some(AssignmentOperator::AddAssign),
        Tok::MinusEq => Some(AssignmentOperator::SubAssign),
        Tok::StarEq => Some(AssignmentOperator::MulAssign),
        Tok::SlashEq => Some(AssignmentOperator::DivAssign),
        Tok::PercentEq => Some(AssignmentOperator::ModAssign),
        Tok::AmpEq => Some(AssignmentOperator::AndAssign),
        Tok::PipeEq => Some(AssignmentOperator::OrAssign),
        Tok::CaretEq => Some(AssignmentOperator::XorAssign),
        Tok::ShlEq => Some(AssignmentOperator::ShlAssign),
        Tok::ShrEq => Some(AssignmentOperator::ShrAssign),
        _ => None,
    }
}

/// The prefix operator that a token stands for.
pub open spec fn unary_op_of(t: TokV) -> Option<UnaryOperator> {
    match t {
        TokV::Bang => Some(UnaryOperator::Not),
        TokV::Minus => Some(UnaryOperator::Neg),
        TokV::Tilde => Some(UnaryOperator::BitNot),
        TokV::Amp => Some(UnaryOperator::AddressOf),
        TokV::Star => Some(UnaryOperator::Dereference),
        TokV::PlusPlus => Some(UnaryOperator::PreIncrement),
        TokV::MinusMinus => Some(UnaryOperator::PreDecrement),
        _ => None,
    }
}

/// The prefix operator that a token stands for.
pub fn tok_to_unary_op(tok: &Tok) -> (r: Option<UnaryOperator>)
    ensures
        r == unary_op_of(tok@),
{
    match tok {
        Tok::Bang => Some(UnaryOperator::Not),
        Tok::Minus => Some(UnaryOperator::Neg),
        Tok::Tilde => Some(UnaryOperator::BitNot),
        Tok::Amp => Some(UnaryOperator::AddressOf),
        Tok::Star => Some(UnaryOperator::Dereference),
        Tok::PlusPlus => Some(UnaryOperator::PreIncrement),
        Tok::MinusMinus => Some(UnaryOperator::PreDecrement),
        _ => None,
    }
}

/// The postfix step operator that a token stands for.
pub open spec fn step_op_of(t: TokV) -> Option<UnaryOperator> {
    match t {
        TokV::PlusPlus => Some(UnaryOperator::PostIncrement),
        TokV::MinusMinus => Some(UnaryOperator::PostDecrement),
        _ => None,
    }
}

/// The postfix step operator that a token stands for.
pub fn tok_to_step_op(tok: &Tok) -> (r: Option<UnaryOperator>)
    ensures
        r == step_op_of(tok@),
{
    match tok {
        Tok::PlusPlus => Some(UnaryOperator::PostIncrement),
        Tok::MinusMinus => Some(UnaryOperator::PostDecrement),
        _ => None,
    }
}

/// Every prefix operator binds tighter than every infix operator and looser than every postfix
/// operator.
pub proof fn law_prefix_between_infix_and_postfix(a: TokV, b: TokV, c: TokV)
    requires
        prefix_power(a) is Some,
        infix_power(b) is Some,
        postfix_power(c) is Some,
    ensures
        (infix_power(b)->0).0 < prefix_power(a)->0,
        (infix_power(b)->0).1 < prefix_power(a)->0,
        prefix_power(a)->0 < postfix_power(c)->0,
{
}

/// A token has an infix binding power exactly where it is a range, a binary or an assignment
/// operator, and it is only one of these.
pub proof fn law_infix_tokens(t: TokV)
    ensures
        infix_power(t) is Some <==> (t is Ellipsis || binary_op_of(t) is Some || assign_op_of(t) is Some),
        !(binary_op_of(t) is Some && assign_op_of(t) is Some),
        t is Ellipsis ==> binary_op_of(t) is None && assign_op_of(t) is None,
{
}

/// Every prefix operator token stands for a unary operator.
pub proof fn law_prefix_tokens(t: TokV)
    ensures
        prefix_power(t) is Some <==> unary_op_of(t) is Some,
{
}

/// Binary operators are left-associative: behind one, only tighter operators belong to its right
/// operand, so an operator of the same level does not. Different levels never share a power.
pub proof fn law_binary_operators_are_left_associative(a: TokV, b: TokV)
    requires
        binary_op_of(a) is Some,
        binary_op_of(b) is Some,
    ensures
        (infix_power(b)->0).0 == (infix_power(a)->0).0 ==> (infix_power(b)->0).0 < (infix_power(a)->0).1,
        (infix_power(b)->0).0 > (infix_power(a)->0).0 ==> (infix_power(b)->0).0 >= (infix_power(a)->0).1,
{
}

} // verus!
