use kitlang::ast::{AssignmentOperator, BinaryOperator, UnaryOperator};
use kitlang::binding_power::{infix, postfix, prefix, tok_to_assign_op, tok_to_binary_op, tok_to_unary_op};
use kitlang::token::Tok;


#[test]
fn infix_precedence_order() {
    assert!(infix(&Tok::Assign).unwrap().0 < infix(&Tok::OrOr).unwrap().0);
    assert!(infix(&Tok::OrOr).unwrap().0 < infix(&Tok::AndAnd).unwrap().0);
    assert!(infix(&Tok::AndAnd).unwrap().0 < infix(&Tok::EqEq).unwrap().0);
    assert!(infix(&Tok::EqEq).unwrap().0 < infix(&Tok::Plus).unwrap().0);
    assert!(infix(&Tok::Plus).unwrap().0 < infix(&Tok::Star).unwrap().0);
}

#[test]
fn assignment_is_right_associative() {
    let (lbp, rbp) = infix(&Tok::Assign).unwrap();
    assert!(lbp < rbp);
}

#[test]
fn additive_is_left_associative() {
    // In Pratt parsers, left-associative operators have lbp < rbp
    // (right operand binds tighter, so a+b+c = (a+b)+c).
    let (lbp, rbp) = infix(&Tok::Plus).unwrap();
    assert!(lbp < rbp);
}

#[test]
fn postfix_higher_than_infix() {
    assert!(postfix(&Tok::Dot).unwrap() > infix(&Tok::Star).unwrap().1);
}

#[test]
fn prefix_between_postfix_and_infix() {
    assert!(prefix(&Tok::Minus).unwrap() > infix(&Tok::Star).unwrap().1);
    assert!(prefix(&Tok::Minus).unwrap() < postfix(&Tok::Dot).unwrap());
}

#[test]
fn token_conversions() {
    assert_eq!(tok_to_binary_op(&Tok::Plus), Some(BinaryOperator::Add));
    assert_eq!(
        tok_to_assign_op(&Tok::PlusEq),
        Some(AssignmentOperator::AddAssign)
    );
    assert_eq!(tok_to_unary_op(&Tok::Minus), Some(UnaryOperator::Neg));
    assert_eq!(tok_to_binary_op(&Tok::Assign), None);
}
