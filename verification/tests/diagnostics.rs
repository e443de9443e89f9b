use kitlang::diagnostics::ExprParseError;
use kitlang::token::{tok_name, Tok};


#[test]
fn unexpected_token_renders_expected_list() {
    let err = ExprParseError::UnexpectedToken {
        found: Tok::Plus,
        expected: vec!["identifier", "integer literal", "string literal"],
    };
    let msg = err.to_human_message();
    assert!(msg.contains("Plus"), "msg: {msg}");
    assert!(msg.contains("identifier"), "msg: {msg}");
    assert!(msg.contains("integer literal"), "msg: {msg}");
    assert!(msg.contains("string literal"), "msg: {msg}");
}

#[test]
fn unexpected_eof_renders_expected_list() {
    let err = ExprParseError::UnexpectedEof {
        expected: vec![")", ",", "binary operator"],
    };
    let msg = err.to_human_message();
    assert!(msg.contains("end of expression"), "msg: {msg}");
    assert!(msg.contains(")"), "msg: {msg}");
    assert!(msg.contains(","), "msg: {msg}");
}

#[test]
fn custom_message_passes_through() {
    let err = ExprParseError::Custom("nope".to_string());
    assert_eq!(err.to_human_message(), "nope");
}

#[test]
fn tok_name_is_stable() {
    // Sanity check: a few representative names.
    assert_eq!(tok_name(&Tok::Plus), "`+`");
    assert_eq!(tok_name(&Tok::LParen), "`(`");
    assert_eq!(tok_name(&Tok::KwIf), "`if`");
    assert_eq!(tok_name(&Tok::IntLit(0)), "integer literal");
    assert_eq!(tok_name(&Tok::StringLit(String::new())), "string literal");
}
