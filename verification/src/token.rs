//! The tokens of Kit expressions.
use crate::text;
use vstd::prelude::*;

verus! {

/// A token. A float literal carries the decimal text of its value.
#[derive(Clone, Debug, PartialEq)]
pub enum Tok {
    LParen,
    RParen,
    LBracket,
    RBracket,
    LBrace,
    RBrace,
    Comma,
    Semi,
    Dot,
    Colon,
    Ellipsis,
    Plus,
    Minus,
    Star,
    Slash,
    Percent,
    EqEq,
    NotEq,
    LtEq,
    GtEq,
    Lt,
    Gt,
    AndAnd,
    OrOr,
    Bang,
    Amp,
    Pipe,
    Caret,
    Tilde,
    Shl,
    Shr,
    PlusPlus,
    MinusMinus,
    ShlEq,
    ShrEq,
    PlusEq,
    MinusEq,
    StarEq,
    SlashEq,
    PercentEq,
    AmpEq,
    PipeEq,
    CaretEq,
    Assign,
    KwIf,
    KwThen,
    KwElse,
    KwTrue,
    KwFalse,
    KwNull,
    KwThis,
    KwSelf,
    KwSizeof,
    KwDefined,
    KwUnsafe,
    KwStatic,
    KwImplicit,
    KwEmpty,
    KwStruct,
    IntLit(i64),
    FloatLit(String),
    CharLit(char),
    StringLit(String),
    Ident(String),
}

/// The contents of a token.
pub enum TokV {
    LParen,
    RParen,
    LBracket,
    RBracket,
    LBrace,
    RBrace,
    Comma,
    Semi,
    Dot,
    Colon,
    Ellipsis,
    Plus,
    Minus,
    Star,
    Slash,
    Percent,
    EqEq,
    NotEq,
    LtEq,
    GtEq,
    Lt,
    Gt,
    AndAnd,
    OrOr,
    Bang,
    Amp,
    Pipe,
    Caret,
    Tilde,
    Shl,
    Shr,
    PlusPlus,
    MinusMinus,
    ShlEq,
    ShrEq,
    PlusEq,
    MinusEq,
    StarEq,
    SlashEq,
    PercentEq,
    AmpEq,
    PipeEq,
    CaretEq,
    Assign,
    KwIf,
    KwThen,
    KwElse,
    KwTrue,
    KwFalse,
    KwNull,
    KwThis,
    KwSelf,
    KwSizeof,
    KwDefined,
    KwUnsafe,
    KwStatic,
    KwImplicit,
    KwEmpty,
    KwStruct,
    IntLit(i64),
    FloatLit(Seq<char>),
    CharLit(char),
    StringLit(Seq<char>),
    Ident(Seq<char>),
}

impl View for Tok {
    type V = TokV;

    open spec fn view(&self) -> TokV {
        match *self {
            Tok::LParen => TokV::LParen,
            Tok::RParen => TokV::RParen,
            Tok::LBracket => TokV::LBracket,
            Tok::RBracket => TokV::RBracket,
            Tok::LBrace => TokV::LBrace,
            Tok::RBrace => TokV::RBrace,
            Tok::Comma => TokV::Comma,
            Tok::Semi => TokV::Semi,
            Tok::Dot => TokV::Dot,
            Tok::Colon => TokV::Colon,
            Tok::Ellipsis => TokV::Ellipsis,
            Tok::Plus => TokV::Plus,
            Tok::Minus => TokV::Minus,
            Tok::Star => TokV::Star,
            Tok::Slash => TokV::Slash,
            Tok::Percent => TokV::Percent,
            Tok::EqEq => TokV::EqEq,
            Tok::NotEq => TokV::NotEq,
            Tok::LtEq => TokV::LtEq,
            Tok::GtEq => TokV::GtEq,
            Tok::Lt => TokV::Lt,
            Tok::Gt => TokV::Gt,
            Tok::AndAnd => TokV::AndAnd,
            Tok::OrOr => TokV::OrOr,
            Tok::Bang => TokV::Bang,
            Tok::Amp => TokV::Amp,
            Tok::Pipe => TokV::Pipe,
            Tok::Caret => TokV::Caret,
            Tok::Tilde => TokV::Tilde,
            Tok::Shl => TokV::Shl,
            Tok::Shr => TokV::Shr,
            Tok::PlusPlus => TokV::PlusPlus,
            Tok::MinusMinus => TokV::MinusMinus,
            Tok::ShlEq => TokV::ShlEq,
            Tok::ShrEq => TokV::ShrEq,
            Tok::PlusEq => TokV::PlusEq,
            Tok::MinusEq => TokV::MinusEq,
            Tok::StarEq => TokV::StarEq,
            Tok::SlashEq => TokV::SlashEq,
            Tok::PercentEq => TokV::PercentEq,
            Tok::AmpEq => TokV::AmpEq,
            Tok::PipeEq => TokV::PipeEq,
            Tok::CaretEq => TokV::CaretEq,
            Tok::Assign => TokV::Assign,
            Tok::KwIf => TokV::KwIf,
            Tok::KwThen => TokV::KwThen,
            Tok::KwElse => TokV::KwElse,
            Tok::KwTrue => TokV::KwTrue,
            Tok::KwFalse => TokV::KwFalse,
            Tok::KwNull => TokV::KwNull,
            Tok::KwThis => TokV::KwThis,
            Tok::KwSelf => TokV::KwSelf,
            Tok::KwSizeof => TokV::KwSizeof,
            Tok::KwDefined => TokV::KwDefined,
            Tok::KwUnsafe => TokV::KwUnsafe,
            Tok::KwStatic => TokV::KwStatic,
            Tok::KwImplicit => TokV::KwImplicit,
            Tok::KwEmpty => TokV::KwEmpty,
            Tok::KwStruct => TokV::KwStruct,
            Tok::IntLit(x) => TokV::IntLit(x),
            Tok::FloatLit(x) => TokV::FloatLit(x@),
            Tok::CharLit(x) => TokV::CharLit(x),
            Tok::StringLit(x) => TokV::StringLit(x@),
            Tok::Ident(x) => TokV::Ident(x@),
        }
    }
}

/// A token and its range in the source, in characters.
#[derive(Clone, Debug, PartialEq)]
pub struct SpannedTok {
    pub kind: Tok,
    pub start: usize,
    pub end: usize,
}

/// The contents of a list of tokens.
pub open spec fn toks_v(ts: Seq<SpannedTok>) -> Seq<TokV> {
    ts.map_values(|t: SpannedTok| t.kind@)
}

/// Copies a token.
pub fn copy_tok(t: &Tok) -> (r: Tok)
    ensures
        r@ == t@,
{
    match t {
        Tok::LParen => Tok::LParen,
        Tok::RParen => Tok::RParen,
        Tok::LBracket => Tok::LBracket,
        Tok::RBracket => Tok::RBracket,
        Tok::LBrace => Tok::LBrace,
        Tok::RBrace => Tok::RBrace,
        Tok::Comma => Tok::Comma,
        Tok::Semi => Tok::Semi,
        Tok::Dot => Tok::Dot,
        Tok::Colon => Tok::Colon,
        Tok::Ellipsis => Tok::Ellipsis,
        Tok::Plus => Tok::Plus,
        Tok::Minus => Tok::Minus,
        Tok::Star => Tok::Star,
        Tok::Slash => Tok::Slash,
        Tok::Percent => Tok::Percent,
        Tok::EqEq => Tok::EqEq,
        Tok::NotEq => Tok::NotEq,
        Tok::LtEq => Tok::LtEq,
        Tok::GtEq => Tok::GtEq,
        Tok::Lt => Tok::Lt,
        Tok::Gt => Tok::Gt,
        Tok::AndAnd => Tok::AndAnd,
        Tok::OrOr => Tok::OrOr,
        Tok::Bang => Tok::Bang,
        Tok::Amp => Tok::Amp,
        Tok::Pipe => Tok::Pipe,
        Tok::Caret => Tok::Caret,
        Tok::Tilde => Tok::Tilde,
        Tok::Shl => Tok::Shl,
        Tok::Shr => Tok::Shr,
        Tok::PlusPlus => Tok::PlusPlus,
        Tok::MinusMinus => Tok::MinusMinus,
        Tok::ShlEq => Tok::ShlEq,
        Tok::ShrEq => Tok::ShrEq,
        Tok::PlusEq => Tok::PlusEq,
        Tok::MinusEq => Tok::MinusEq,
        Tok::StarEq => Tok::StarEq,
        Tok::SlashEq => Tok::SlashEq,
        Tok::PercentEq => Tok::PercentEq,
        Tok::AmpEq => Tok::AmpEq,
        Tok::PipeEq => Tok::PipeEq,
        Tok::CaretEq => Tok::CaretEq,
        Tok::Assign => Tok::Assign,
        Tok::KwIf => Tok::KwIf,
        Tok::KwThen => Tok::KwThen,
        Tok::KwElse => Tok::KwElse,
        Tok::KwTrue => Tok::KwTrue,
        Tok::KwFalse => Tok::KwFalse,
        Tok::KwNull => Tok::KwNull,
        Tok::KwThis => Tok::KwThis,
        Tok::KwSelf => Tok::KwSelf,
        Tok::KwSizeof => Tok::KwSizeof,
        Tok::KwDefined => Tok::KwDefined,
        Tok::KwUnsafe => Tok::KwUnsafe,
        Tok::KwStatic => Tok::KwStatic,
        Tok::KwImplicit => Tok::KwImplicit,
        Tok::KwEmpty => Tok::KwEmpty,
        Tok::KwStruct => Tok::KwStruct,
        Tok::IntLit(x) => Tok::IntLit(*x),
        Tok::FloatLit(x) => Tok::FloatLit(x.clone()),
        Tok::CharLit(x) => Tok::CharLit(*x),
        Tok::StringLit(x) => Tok::StringLit(x.clone()),
        Tok::Ident(x) => Tok::Ident(x.clone()),
    }
}

/// The short name of a kind of token, as it appears in error messages.
pub open spec fn tok_label(t: TokV) -> Seq<char> {
    match t {
        TokV::LParen => "`(`"@,
        TokV::RParen => "`)`"@,
        TokV::LBracket => "`[`"@,
        TokV::RBracket => "`]`"@,
        TokV::LBrace => "`{`"@,
        TokV::RBrace => "`}`"@,
        TokV::Comma => "`,`"@,
        TokV::Semi => "`;`"@,
        TokV::Dot => "`.`"@,
        TokV::Colon => "`:`"@,
        TokV::Ellipsis => "`...`"@,
        TokV::Plus => "`+`"@,
        TokV::Minus => "`-`"@,
        TokV::Star => "`*`"@,
        TokV::Slash => "`/`"@,
        TokV::Percent => "`%`"@,
        TokV::EqEq => "`==`"@,
        TokV::NotEq => "`!=`"@,
        TokV::LtEq => "`<=`"@,
        TokV::GtEq => "`>=`"@,
        TokV::Lt => "`<`"@,
        TokV::Gt => "`>`"@,
        TokV::AndAnd => "`&&`"@,
        TokV::OrOr => "`||`"@,
        TokV::Bang => "`!`"@,
        TokV::Amp => "`&`"@,
        TokV::Pipe => "`|`"@,
        TokV::Caret => "`^`"@,
        TokV::Tilde => "`~`"@,
        TokV::Shl => "`<<`"@,
        TokV::Shr => "`>>`"@,
        TokV::PlusPlus => "`++`"@,
        TokV::MinusMinus => "`--`"@,
        TokV::ShlEq => "`<<=`"@,
        TokV::ShrEq => "`>>=`"@,
        TokV::PlusEq => "`+=`"@,
        TokV::MinusEq => "`-=`"@,
        TokV::StarEq => "`*=`"@,
        TokV::SlashEq => "`/=`"@,
        TokV::PercentEq => "`%=`"@,
        TokV::AmpEq => "`&=`"@,
        TokV::PipeEq => "`|=`"@,
        TokV::CaretEq => "`^=`"@,
        TokV::Assign => "`=`"@,
        TokV::KwIf => "`if`"@,
        TokV::KwThen => "`then`"@,
        TokV::KwElse => "`else`"@,
        TokV::KwTrue => "`true`"@,
        TokV::KwFalse => "`false`"@,
        TokV::KwNull => "`null`"@,
        TokV::KwThis => "`this`"@,
        TokV::KwSelf => "`Self`"@,
        TokV::KwSizeof => "`sizeof`"@,
        TokV::KwDefined => "`defined`"@,
        TokV::KwUnsafe => "`unsafe`"@,
        TokV::KwStatic => "`static`"@,
        TokV::KwImplicit => "`implicit`"@,
        TokV::KwEmpty => "`empty`"@,
        TokV::KwStruct => "`struct`"@,
        TokV::IntLit(_) => "integer literal"@,
        TokV::FloatLit(_) => "float literal"@,
        TokV::CharLit(_) => "char literal"@,
        TokV::StringLit(_) => "string literal"@,
        TokV::Ident(_) => "identifier"@,
    }
}

/// The short name of a kind of token.
pub fn tok_name(kind: &Tok) -> (r: &'static str)
    ensures
        r@ == tok_label(kind@),
{
    match kind {
        Tok::LParen => "`(`",
        Tok::RParen => "`)`",
        Tok::LBracket => "`[`",
        Tok::RBracket => "`]`",
        Tok::LBrace => "`{`",
        Tok::RBrace => "`}`",
        Tok::Comma => "`,`",
        Tok::Semi => "`;`",
        Tok::Dot => "`.`",
        Tok::Colon => "`:`",
        Tok::Ellipsis => "`...`",
        Tok::Plus => "`+`",
        Tok::Minus => "`-`",
        Tok::Star => "`*`",
        Tok::Slash => "`/`",
        Tok::Percent => "`%`",
        Tok::EqEq => "`==`",
        Tok::NotEq => "`!=`",
        Tok::LtEq => "`<=`",
        Tok::GtEq => "`>=`",
        Tok::Lt => "`<`",
        Tok::Gt => "`>`",
        Tok::AndAnd => "`&&`",
        Tok::OrOr => "`||`",
        Tok::Bang => "`!`",
        Tok::Amp => "`&`",
        Tok::Pipe => "`|`",
        Tok::Caret => "`^`",
        Tok::Tilde => "`~`",
        Tok::Shl => "`<<`",
        Tok::Shr => "`>>`",
        Tok::PlusPlus => "`++`",
        Tok::MinusMinus => "`--`",
        Tok::ShlEq => "`<<=`",
        Tok::ShrEq => "`>>=`",
        Tok::PlusEq => "`+=`",
        Tok::MinusEq => "`-=`",
        Tok::StarEq => "`*=`",
        Tok::SlashEq => "`/=`",
        Tok::PercentEq => "`%=`",
        Tok::AmpEq => "`&=`",
        Tok::PipeEq => "`|=`",
        Tok::CaretEq => "`^=`",
        Tok::Assign => "`=`",
        Tok::KwIf => "`if`",
        Tok::KwThen => "`then`",
        Tok::KwElse => "`else`",
        Tok::KwTrue => "`true`",
        Tok::KwFalse => "`false`",
        Tok::KwNull => "`null`",
        Tok::KwThis => "`this`",
        Tok::KwSelf => "`Self`",
        Tok::KwSizeof => "`sizeof`",
        Tok::KwDefined => "`defined`",
        Tok::KwUnsafe => "`unsafe`",
        Tok::KwStatic => "`static`",
        Tok::KwImplicit => "`implicit`",
        Tok::KwEmpty => "`empty`",
        Tok::KwStruct => "`struct`",
        Tok::IntLit(_) => "integer literal",
        Tok::FloatLit(_) => "float literal",
        Tok::CharLit(_) => "char literal",
        Tok::StringLit(_) => "string literal",
        Tok::Ident(_) => "identifier",
    }
}

/// What may be expected in place of a token: its name alone.
pub fn expected_name(expected: &Tok) -> (r: Vec<&'static str>)
    ensures
        labels(r@) == seq![tok_label(expected@)],
{
    let mut v: Vec<&'static str> = Vec::new();
    v.push(tok_name(expected));
    proof {
        assert(labels(v@) =~= seq![tok_label(expected@)]);
    }
    v
}

/// The contents of a list of names.
pub open spec fn labels(v: Seq<&'static str>) -> Seq<Seq<char>> {
    v.map_values(|s: &'static str| s@)
}

/// What `format!("{:?}", s)` of std gives for a string.
pub uninterp spec fn debug_of_str(s: Seq<char>) -> Seq<char>;

/// What `format!("{:?}", c)` of std gives for a character.
pub uninterp spec fn debug_of_char(c: char) -> Seq<char>;

/// The `Debug` form that std gives a string: the string in quotes, with escapes. Which
/// characters are escaped, and how, is left to std.
#[verifier::external_body]
fn debug_str(s: &str) -> (r: String)
    ensures
        r@ == debug_of_str(s@),
{
    format!("{:?}", s)
}

/// The `Debug` form that std gives a character: the character in quotes, with escapes. Which
/// characters are escaped, and how, is left to std.
#[verifier::external_body]
fn debug_char(c: char) -> (r: String)
    ensures
        r@ == debug_of_char(c),
{
    format!("{:?}", c)
}

/// A token as error messages show it: the name of its kind, and what it carries.
pub open spec fn tok_shown(t: TokV) -> Seq<char> {
    match t {
        TokV::LParen => "LParen"@,
        TokV::RParen => "RParen"@,
        TokV::LBracket => "LBracket"@,
        TokV::RBracket => "RBracket"@,
        TokV::LBrace => "LBrace"@,
        TokV::RBrace => "RBrace"@,
        TokV::Comma => "Comma"@,
        TokV::Semi => "Semi"@,
        TokV::Dot => "Dot"@,
        TokV::Colon => "Colon"@,
        TokV::Ellipsis => "Ellipsis"@,
        TokV::Plus => "Plus"@,
        TokV::Minus => "Minus"@,
        TokV::Star => "Star"@,
        TokV::Slash => "Slash"@,
        TokV::Percent => "Percent"@,
        TokV::EqEq => "EqEq"@,
        TokV::NotEq => "NotEq"@,
        TokV::LtEq => "LtEq"@,
        TokV::GtEq => "GtEq"@,
        TokV::Lt => "Lt"@,
        TokV::Gt => "Gt"@,
        TokV::AndAnd => "AndAnd"@,
        TokV::OrOr => "OrOr"@,
        TokV::Bang => "Bang"@,
        TokV::Amp => "Amp"@,
        TokV::Pipe => "Pipe"@,
        TokV::Caret => "Caret"@,
        TokV::Tilde => "Tilde"@,
        TokV::Shl => "Shl"@,
        TokV::Shr => "Shr"@,
        TokV::PlusPlus => "PlusPlus"@,
        TokV::MinusMinus => "MinusMinus"@,
        TokV::ShlEq => "ShlEq"@,
        TokV::ShrEq => "ShrEq"@,
        TokV::PlusEq => "PlusEq"@,
        TokV::MinusEq => "MinusEq"@,
        TokV::StarEq => "StarEq"@,
        TokV::SlashEq => "SlashEq"@,
        TokV::PercentEq => "PercentEq"@,
        TokV::AmpEq => "AmpEq"@,
        TokV::PipeEq => "PipeEq"@,
        TokV::CaretEq => "CaretEq"@,
        TokV::Assign => "Assign"@,
        TokV::KwIf => "KwIf"@,
        TokV::KwThen => "KwThen"@,
        TokV::KwElse => "KwElse"@,
        TokV::KwTrue => "KwTrue"@,
        TokV::KwFalse => "KwFalse"@,
        TokV::KwNull => "KwNull"@,
        TokV::KwThis => "KwThis"@,
        TokV::KwSelf => "KwSelf"@,
        TokV::KwSizeof => "KwSizeof"@,
        TokV::KwDefined => "KwDefined"@,
        TokV::KwUnsafe => "KwUnsafe"@,
        TokV::KwStatic => "KwStatic"@,
        TokV::KwImplicit => "KwImplicit"@,
        TokV::KwEmpty => "KwEmpty"@,
        TokV::KwStruct => "KwStruct"@,
        TokV::IntLit(n) => "IntLit("@ + text::signed_text(n as int) + ")"@,
        TokV::FloatLit(f) => "FloatLit("@ + f + ")"@,
        TokV::CharLit(c) => "CharLit("@ + debug_of_char(c) + ")"@,
        TokV::StringLit(s) => "StringLit("@ + debug_of_str(s) + ")"@,
        TokV::Ident(s) => "Ident("@ + debug_of_str(s) + ")"@,
    }
}

/// A token as error messages show it.
pub fn show_tok(t: &Tok) -> (r: String)
    ensures
        r@ == tok_shown(t@),
{
    match t {
        Tok::LParen => "LParen".to_owned(),
        Tok::RParen => "RParen".to_owned(),
        Tok::LBracket => "LBracket".to_owned(),
        Tok::RBracket => "RBracket".to_owned(),
        Tok::LBrace => "LBrace".to_owned(),
        Tok::RBrace => "RBrace".to_owned(),
        Tok::Comma => "Comma".to_owned(),
        Tok::Semi => "Semi".to_owned(),
        Tok::Dot => "Dot".to_owned(),
        Tok::Colon => "Colon".to_owned(),
        Tok::Ellipsis => "Ellipsis".to_owned(),
        Tok::Plus => "Plus".to_owned(),
        Tok::Minus => "Minus".to_owned(),
        Tok::Star => "Star".to_owned(),
        Tok::Slash => "Slash".to_owned(),
        Tok::Percent => "Percent".to_owned(),
        Tok::EqEq => "EqEq".to_owned(),
        Tok::NotEq => "NotEq".to_owned(),
        Tok::LtEq => "LtEq".to_owned(),
        Tok::GtEq => "GtEq".to_owned(),
        Tok::Lt => "Lt".to_owned(),
        Tok::Gt => "Gt".to_owned(),
        Tok::AndAnd => "AndAnd".to_owned(),
        Tok::OrOr => "OrOr".to_owned(),
        Tok::Bang => "Bang".to_owned(),
        Tok::Amp => "Amp".to_owned(),
        Tok::Pipe => "Pipe".to_owned(),
        Tok::Caret => "Caret".to_owned(),
        Tok::Tilde => "Tilde".to_owned(),
        Tok::Shl => "Shl".to_owned(),
        Tok::Shr => "Shr".to_owned(),
        Tok::PlusPlus => "PlusPlus".to_owned(),
        Tok::MinusMinus => "MinusMinus".to_owned(),
        Tok::ShlEq => "ShlEq".to_owned(),
        Tok::ShrEq => "ShrEq".to_owned(),
        Tok::PlusEq => "PlusEq".to_owned(),
        Tok::MinusEq => "MinusEq".to_owned(),
        Tok::StarEq => "StarEq".to_owned(),
        Tok::SlashEq => "SlashEq".to_owned(),
        Tok::PercentEq => "PercentEq".to_owned(),
        Tok::AmpEq => "AmpEq".to_owned(),
        Tok::PipeEq => "PipeEq".to_owned(),
        Tok::CaretEq => "CaretEq".to_owned(),
        Tok::Assign => "Assign".to_owned(),
        Tok::KwIf => "KwIf".to_owned(),
        Tok::KwThen => "KwThen".to_owned(),
        Tok::KwElse => "KwElse".to_owned(),
        Tok::KwTrue => "KwTrue".to_owned(),
        Tok::KwFalse => "KwFalse".to_owned(),
        Tok::KwNull => "KwNull".to_owned(),
        Tok::KwThis => "KwThis".to_owned(),
        Tok::KwSelf => "KwSelf".to_owned(),
        Tok::KwSizeof => "KwSizeof".to_owned(),
        Tok::KwDefined => "KwDefined".to_owned(),
        Tok::KwUnsafe => "KwUnsafe".to_owned(),
        Tok::KwStatic => "KwStatic".to_owned(),
        Tok::KwImplicit => "KwImplicit".to_owned(),
        Tok::KwEmpty => "KwEmpty".to_owned(),
        Tok::KwStruct => "KwStruct".to_owned(),
        Tok::IntLit(n) => "IntLit(".to_owned().concat(text::signed_decimal(*n).as_str()).concat(")"),
        Tok::FloatLit(f) => "FloatLit(".to_owned().concat(f.as_str()).concat(")"),
        Tok::CharLit(c) => "CharLit(".to_owned().concat(debug_char(*c).as_str()).concat(")"),
        Tok::StringLit(s) => "StringLit(".to_owned().concat(debug_str(s.as_str()).as_str()).concat(")"),
        Tok::Ident(s) => "Ident(".to_owned().concat(debug_str(s.as_str()).as_str()).concat(")"),
    }
}

/// The token that a word stands for: a keyword, or else an identifier.
pub open spec fn word_token(w: Seq<char>) -> TokV {
    if w == "if"@ { TokV::KwIf }
    else if w == "then"@ { TokV::KwThen }
    else if w == "else"@ { TokV::KwElse }
    else if w == "true"@ { TokV::KwTrue }
    else if w == "false"@ { TokV::KwFalse }
    else if w == "null"@ { TokV::KwNull }
    else if w == "this"@ { TokV::KwThis }
    else if w == "Self"@ { TokV::KwSelf }
    else if w == "sizeof"@ { TokV::KwSizeof }
    else if w == "defined"@ { TokV::KwDefined }
    else if w == "unsafe"@ { TokV::KwUnsafe }
    else if w == "static"@ { TokV::KwStatic }
    else if w == "implicit"@ { TokV::KwImplicit }
    else if w == "empty"@ { TokV::KwEmpty }
    else if w == "struct"@ { TokV::KwStruct }
    else { TokV::Ident(w) }
}

/// The token that a word stands for.
pub fn word_tok(w: String) -> (r: Tok)
    ensures
        r@ == word_token(w@),
{
    if text::text_eq(w.as_str(), "if") { Tok::KwIf }
    else if text::text_eq(w.as_str(), "then") { Tok::KwThen }
    else if text::text_eq(w.as_str(), "else") { Tok::KwElse }
    else if text::text_eq(w.as_str(), "true") { Tok::KwTrue }
    else if text::text_eq(w.as_str(), "false") { Tok::KwFalse }
    else if text::text_eq(w.as_str(), "null") { Tok::KwNull }
    else if text::text_eq(w.as_str(), "this") { Tok::KwThis }
    else if text::text_eq(w.as_str(), "Self") { Tok::KwSelf }
    else if text::text_eq(w.as_str(), "sizeof") { Tok::KwSizeof }
    else if text::text_eq(w.as_str(), "defined") { Tok::KwDefined }
    else if text::text_eq(w.as_str(), "unsafe") { Tok::KwUnsafe }
    else if text::text_eq(w.as_str(), "static") { Tok::KwStatic }
    else if text::text_eq(w.as_str(), "implicit") { Tok::KwImplicit }
    else if text::text_eq(w.as_str(), "empty") { Tok::KwEmpty }
    else if text::text_eq(w.as_str(), "struct") { Tok::KwStruct }
    else { Tok::Ident(w) }
}

} // verus!
