//! The grammar of Kit source: from a text to its syntax tree.
use crate::ast::Span;
use crate::error::{CompilationError, ContextV, ErrorContext, ErrorV};
use crate::lexer::{find_quote, is_digit, is_space, is_word_start, quote_end, skip_word, word_end, word_start};
use crate::syntax::{lemma_syntax_v, syntaxes_v, NodeV, Rule, SyntaxNode};
use crate::text;
use vstd::prelude::*;

verus! {

/// A keyword of Kit.
#[derive(Clone, Copy, Debug, PartialEq, Eq, Structural)]
pub enum Keyword {
    Include,
    Import,
    Using,
    Rules,
    Implicit,
    Typedef,
    DefaultWord,
    AsWord,
    Trait,
    TypeWord,
    Implement,
    ForWord,
    Enum,
    Struct,
    Var,
    Const,
    Function,
    Public,
    Private,
    Defer,
    Return,
    If,
    Else,
    While,
    InWord,
    MatchWord,
    Break,
    Continue,
}

/// How a keyword is spelled.
pub open spec fn keyword_text(k: Keyword) -> Seq<char> {
    match k {
        Keyword::Include => "include"@,
        Keyword::Import => "import"@,
        Keyword::Using => "using"@,
        Keyword::Rules => "rules"@,
        Keyword::Implicit => "implicit"@,
        Keyword::Typedef => "typedef"@,
        Keyword::DefaultWord => "default"@,
        Keyword::AsWord => "as"@,
        Keyword::Trait => "trait"@,
        Keyword::TypeWord => "type"@,
        Keyword::Implement => "implement"@,
        Keyword::ForWord => "for"@,
        Keyword::Enum => "enum"@,
        Keyword::Struct => "struct"@,
        Keyword::Var => "var"@,
        Keyword::Const => "const"@,
        Keyword::Function => "function"@,
        Keyword::Public => "public"@,
        Keyword::Private => "private"@,
        Keyword::Defer => "defer"@,
        Keyword::Return => "return"@,
        Keyword::If => "if"@,
        Keyword::Else => "else"@,
        Keyword::While => "while"@,
        Keyword::InWord => "in"@,
        Keyword::MatchWord => "match"@,
        Keyword::Break => "break"@,
        Keyword::Continue => "continue"@,
    }
}

fn keyword_str(k: Keyword) -> (r: &'static str)
    ensures
        r@ == keyword_text(k),
{
    match k {
        Keyword::Include => "include",
        Keyword::Import => "import",
        Keyword::Using => "using",
        Keyword::Rules => "rules",
        Keyword::Implicit => "implicit",
        Keyword::Typedef => "typedef",
        Keyword::DefaultWord => "default",
        Keyword::AsWord => "as",
        Keyword::Trait => "trait",
        Keyword::TypeWord => "type",
        Keyword::Implement => "implement",
        Keyword::ForWord => "for",
        Keyword::Enum => "enum",
        Keyword::Struct => "struct",
        Keyword::Var => "var",
        Keyword::Const => "const",
        Keyword::Function => "function",
        Keyword::Public => "public",
        Keyword::Private => "private",
        Keyword::Defer => "defer",
        Keyword::Return => "return",
        Keyword::If => "if",
        Keyword::Else => "else",
        Keyword::While => "while",
        Keyword::InWord => "in",
        Keyword::MatchWord => "match",
        Keyword::Break => "break",
        Keyword::Continue => "continue",
    }
}

/// A punctuation mark of Kit.
#[derive(Clone, Copy, Debug, PartialEq, Eq, Structural)]
pub enum Symbol {
    Semi,
    Comma,
    Open,
    Close,
    OpenBracket,
    CloseBracket,
    OpenBrace,
    CloseBrace,
    Equals,
    Colon,
    DoubleColon,
    Becomes,
    Gives,
    Reference,
    Hash,
}

/// How a punctuation mark is spelled.
pub open spec fn symbol_text(s: Symbol) -> Seq<char> {
    match s {
        Symbol::Semi => ";"@,
        Symbol::Comma => ","@,
        Symbol::Open => "("@,
        Symbol::Close => ")"@,
        Symbol::OpenBracket => "["@,
        Symbol::CloseBracket => "]"@,
        Symbol::OpenBrace => "{"@,
        Symbol::CloseBrace => "}"@,
        Symbol::Equals => "="@,
        Symbol::Colon => ":"@,
        Symbol::DoubleColon => "::"@,
        Symbol::Becomes => "=>"@,
        Symbol::Gives => "->"@,
        Symbol::Reference => "&"@,
        Symbol::Hash => "#"@,
    }
}

fn symbol_str(s: Symbol) -> (r: &'static str)
    ensures
        r@ == symbol_text(s),
{
    match s {
        Symbol::Semi => ";",
        Symbol::Comma => ",",
        Symbol::Open => "(",
        Symbol::Close => ")",
        Symbol::OpenBracket => "[",
        Symbol::CloseBracket => "]",
        Symbol::OpenBrace => "{",
        Symbol::CloseBrace => "}",
        Symbol::Equals => "=",
        Symbol::Colon => ":",
        Symbol::DoubleColon => "::",
        Symbol::Becomes => "=>",
        Symbol::Gives => "->",
        Symbol::Reference => "&",
        Symbol::Hash => "#",
    }
}

/// Where an expression ends: outside brackets and quotes, at a semicolon; at a comma or a
/// closing bracket; at a comma or a semicolon; at an opening brace; or at `=>`.
#[derive(Clone, Copy, Debug, PartialEq, Eq, Structural)]
pub enum Stop {
    Statement,
    Argument,
    Clause,
    Head,
    Pattern,
}

/// What a part of the source looks like. White space and comments may stand between the parts.
pub enum Peg {
    /// A keyword.
    Word(Keyword),
    /// A punctuation mark.
    Mark(Symbol),
    /// A name.
    Name,
    /// A text in double quotes.
    Quoted,
    /// Letters, digits, underscores and signs.
    Atom,
    /// Names with dots between them, and wildcards.
    Path,
    /// An expression up to where it stops.
    Value(Stop),
    /// A part of its own in the tree.
    Node(Rule),
    /// One behind the other.
    Then(Box<Peg>, Box<Peg>),
    /// The first that fits.
    Or(Box<Peg>, Box<Peg>),
    /// As often as it fits.
    Many(Box<Peg>),
    /// Where it fits.
    Maybe(Box<Peg>),
}

impl Peg {
    /// One part behind the other.
    pub open spec fn followed_by(self, b: Peg) -> Peg {
        Peg::Then(Box::new(self), Box::new(b))
    }

    /// The first part, or else the other.
    pub open spec fn or_else(self, b: Peg) -> Peg {
        Peg::Or(Box::new(self), Box::new(b))
    }

    /// The part as often as it fits.
    pub open spec fn repeatedly(self) -> Peg {
        Peg::Many(Box::new(self))
    }

    /// The part where it fits.
    pub open spec fn optionally(self) -> Peg {
        Peg::Maybe(Box::new(self))
    }

    /// The part once or more, with commas between.
    pub open spec fn in_list(self) -> Peg {
        self.followed_by(Peg::Mark(Symbol::Comma).followed_by(self).repeatedly())
    }

    fn and(self, b: Peg) -> (r: Peg)
        ensures
            r == self.followed_by(b),
    {
        Peg::Then(Box::new(self), Box::new(b))
    }

    fn or(self, b: Peg) -> (r: Peg)
        ensures
            r == self.or_else(b),
    {
        Peg::Or(Box::new(self), Box::new(b))
    }

    fn many(self) -> (r: Peg)
        ensures
            r == self.repeatedly(),
    {
        Peg::Many(Box::new(self))
    }

    fn maybe(self) -> (r: Peg)
        ensures
            r == self.optionally(),
    {
        Peg::Maybe(Box::new(self))
    }
}

/// What a node of each rule looks like.
pub open spec fn body_of(r: Rule) -> Peg {
    match r {
        Rule::Program => Peg::Node(Rule::IncludeStmt)
            .or_else(Peg::Node(Rule::ImportStmt))
            .or_else(Peg::Node(Rule::UsingStmt))
            .or_else(Peg::Node(Rule::TypedefStmt))
            .or_else(Peg::Node(Rule::DefaultDecl))
            .or_else(Peg::Node(Rule::RuleSet))
            .or_else(Peg::Node(Rule::TraitDef))
            .or_else(Peg::Node(Rule::TraitImpl))
            .or_else(Peg::Node(Rule::TypeDef))
            .or_else(Peg::Node(Rule::FunctionDecl))
            .or_else(Peg::Node(Rule::VarDecl))
            .repeatedly(),
        Rule::IncludeStmt => Peg::Word(Keyword::Include)
            .followed_by(Peg::Node(Rule::String))
            .followed_by(Peg::Mark(Symbol::Becomes).followed_by(Peg::Node(Rule::String)).optionally())
            .followed_by(Peg::Mark(Symbol::Semi)),
        Rule::ImportStmt => Peg::Word(Keyword::Import).followed_by(Peg::Node(Rule::ImportPath)).followed_by(Peg::Mark(Symbol::Semi)),
        Rule::ImportPath => Peg::Path,
        Rule::UsingStmt => Peg::Word(Keyword::Using)
            .followed_by(Peg::Node(Rule::UsingClause).in_list())
            .followed_by(Peg::Mark(Symbol::Semi)),
        Rule::UsingClause => Peg::Word(Keyword::Rules)
            .followed_by(Peg::Node(Rule::TypeAnnotation))
            .or_else(Peg::Word(Keyword::Implicit).followed_by(Peg::Value(Stop::Clause))),
        Rule::TypedefStmt => Peg::Word(Keyword::Typedef)
            .followed_by(Peg::Node(Rule::Identifier))
            .followed_by(Peg::Mark(Symbol::Equals))
            .followed_by(Peg::Node(Rule::TypeAnnotation))
            .followed_by(Peg::Mark(Symbol::Semi)),
        Rule::DefaultDecl => Peg::Word(Keyword::DefaultWord)
            .followed_by(Peg::Node(Rule::TypeAnnotation))
            .followed_by(Peg::Word(Keyword::AsWord))
            .followed_by(Peg::Node(Rule::TypeAnnotation))
            .followed_by(Peg::Mark(Symbol::Semi)),
        Rule::RuleSet => Peg::Word(Keyword::Rules)
            .followed_by(Peg::Node(Rule::Identifier))
            .followed_by(Peg::Mark(Symbol::OpenBrace))
            .followed_by(Peg::Node(Rule::RuleDecl).repeatedly())
            .followed_by(Peg::Mark(Symbol::CloseBrace)),
        Rule::RuleDecl => Peg::Mark(Symbol::Open)
            .followed_by(Peg::Value(Stop::Argument))
            .followed_by(Peg::Mark(Symbol::Close))
            .followed_by(Peg::Mark(Symbol::Becomes).followed_by(Peg::Value(Stop::Statement)).optionally())
            .followed_by(Peg::Mark(Symbol::Semi)),
        Rule::TraitDef => Peg::Node(Rule::MetadataAndModifiers)
            .followed_by(Peg::Word(Keyword::Trait))
            .followed_by(Peg::Node(Rule::Identifier))
            .followed_by(Peg::Node(Rule::TypeParams).optionally())
            .followed_by(Peg::Mark(Symbol::OpenBrace))
            .followed_by(
                Peg::Word(Keyword::TypeWord)
                    .followed_by(Peg::Node(Rule::TypeParam))
                    .followed_by(Peg::Mark(Symbol::Semi))
                    .or_else(Peg::Node(Rule::FunctionDecl))
                    .or_else(Peg::Node(Rule::VarDecl))
                    .repeatedly(),
            )
            .followed_by(Peg::Mark(Symbol::CloseBrace)),
        Rule::TraitImpl => Peg::Node(Rule::MetadataAndModifiers)
            .followed_by(Peg::Word(Keyword::Implement))
            .followed_by(Peg::Node(Rule::TypeAnnotation))
            .followed_by(Peg::Word(Keyword::ForWord))
            .followed_by(Peg::Node(Rule::TypeAnnotation))
            .followed_by(Peg::Mark(Symbol::OpenBrace))
            .followed_by(Peg::Node(Rule::FunctionDecl).repeatedly())
            .followed_by(Peg::Mark(Symbol::CloseBrace)),
        Rule::TypeDef => Peg::Node(Rule::MetadataAndModifiers)
            .followed_by(Peg::Node(Rule::EnumDef).or_else(Peg::Node(Rule::StructDef))),
        Rule::EnumDef => Peg::Word(Keyword::Enum)
            .followed_by(Peg::Node(Rule::Identifier))
            .followed_by(Peg::Node(Rule::TypeParams).optionally())
            .followed_by(Peg::Mark(Symbol::OpenBrace))
            .followed_by(Peg::Node(Rule::EnumVariant).repeatedly())
            .followed_by(Peg::Mark(Symbol::CloseBrace)),
        Rule::EnumVariant => Peg::Node(Rule::MetadataAndModifiers)
            .followed_by(Peg::Node(Rule::Identifier))
            .followed_by(
                Peg::Mark(Symbol::Open)
                    .followed_by(Peg::Node(Rule::Param).in_list().optionally())
                    .followed_by(Peg::Mark(Symbol::Close))
                    .optionally(),
            )
            .followed_by(Peg::Mark(Symbol::Equals).followed_by(Peg::Value(Stop::Statement)).optionally())
            .followed_by(Peg::Mark(Symbol::Semi)),
        Rule::StructDef => Peg::Word(Keyword::Struct)
            .followed_by(Peg::Node(Rule::Identifier))
            .followed_by(Peg::Node(Rule::TypeParams).optionally())
            .followed_by(Peg::Mark(Symbol::OpenBrace))
            .followed_by(Peg::Node(Rule::VarDecl).repeatedly())
            .followed_by(Peg::Mark(Symbol::CloseBrace)),
        Rule::VarDecl => Peg::Node(Rule::MetadataAndModifiers)
            .followed_by(Peg::Word(Keyword::Var).or_else(Peg::Node(Rule::ConstKw)))
            .followed_by(Peg::Node(Rule::Identifier))
            .followed_by(Peg::Mark(Symbol::Colon).followed_by(Peg::Node(Rule::TypeAnnotation)).optionally())
            .followed_by(Peg::Mark(Symbol::Equals).followed_by(Peg::Value(Stop::Statement)).optionally())
            .followed_by(Peg::Mark(Symbol::Semi)),
        Rule::ConstKw => Peg::Word(Keyword::Const),
        Rule::FunctionDecl => Peg::Node(Rule::MetadataAndModifiers)
            .followed_by(Peg::Word(Keyword::Function))
            .followed_by(Peg::Node(Rule::Identifier))
            .followed_by(Peg::Node(Rule::TypeParams).optionally())
            .followed_by(Peg::Mark(Symbol::Open))
            .followed_by(Peg::Node(Rule::Params).optionally())
            .followed_by(Peg::Mark(Symbol::Close))
            .followed_by(Peg::Mark(Symbol::Colon).followed_by(Peg::Node(Rule::TypeAnnotation)).optionally())
            .followed_by(Peg::Node(Rule::Block).or_else(Peg::Mark(Symbol::Semi))),
        Rule::Params => Peg::Node(Rule::Param).in_list(),
        Rule::Param => Peg::Node(Rule::Identifier)
            .followed_by(Peg::Mark(Symbol::Colon))
            .followed_by(Peg::Node(Rule::TypeAnnotation))
            .followed_by(Peg::Mark(Symbol::Equals).followed_by(Peg::Value(Stop::Argument)).optionally()),
        Rule::TypeParams => Peg::Mark(Symbol::OpenBracket)
            .followed_by(Peg::Node(Rule::TypeParam).in_list())
            .followed_by(Peg::Mark(Symbol::CloseBracket)),
        Rule::TypeParam => Peg::Node(Rule::Identifier)
            .followed_by(Peg::Mark(Symbol::DoubleColon).followed_by(Peg::Node(Rule::TypeConstraints)).optionally())
            .followed_by(Peg::Mark(Symbol::Equals).followed_by(Peg::Node(Rule::TypeAnnotation)).optionally()),
        Rule::TypeConstraints => Peg::Mark(Symbol::Open)
            .followed_by(Peg::Node(Rule::TypeAnnotation).in_list())
            .followed_by(Peg::Mark(Symbol::Close))
            .or_else(Peg::Node(Rule::TypeAnnotation)),
        Rule::TypeAnnotation => Peg::Node(Rule::FunctionType)
            .or_else(Peg::Node(Rule::PointerType))
            .or_else(Peg::Node(Rule::TupleType))
            .or_else(Peg::Node(Rule::BaseType)),
        Rule::FunctionType => Peg::Word(Keyword::Function)
            .followed_by(Peg::Mark(Symbol::Open))
            .followed_by(Peg::Node(Rule::TypeAnnotation).in_list().optionally())
            .followed_by(Peg::Mark(Symbol::Close))
            .followed_by(Peg::Mark(Symbol::Gives))
            .followed_by(Peg::Node(Rule::TypeAnnotation)),
        Rule::PointerType => Peg::Mark(Symbol::Reference).followed_by(Peg::Node(Rule::TypeAnnotation)),
        Rule::TupleType => Peg::Mark(Symbol::Open)
            .followed_by(Peg::Node(Rule::TypeAnnotation).in_list())
            .followed_by(Peg::Mark(Symbol::Close)),
        Rule::BaseType => Peg::Node(Rule::TypeName)
            .followed_by(
                Peg::Mark(Symbol::OpenBracket)
                    .followed_by(Peg::Node(Rule::TypeAnnotation).in_list())
                    .followed_by(Peg::Mark(Symbol::CloseBracket))
                    .optionally(),
            ),
        Rule::TypeName => Peg::Name,
        Rule::Metadata => Peg::Mark(Symbol::Hash)
            .followed_by(Peg::Mark(Symbol::OpenBracket))
            .followed_by(Peg::Node(Rule::Identifier))
            .followed_by(
                Peg::Mark(Symbol::Open)
                    .followed_by(Peg::Node(Rule::MetaArg).in_list())
                    .followed_by(Peg::Mark(Symbol::Close))
                    .optionally(),
            )
            .followed_by(Peg::Mark(Symbol::CloseBracket)),
        Rule::MetaArg => Peg::Quoted.or_else(Peg::Atom),
        Rule::Modifier => Peg::Word(Keyword::Public).or_else(Peg::Word(Keyword::Private)),
        Rule::MetadataAndModifiers => Peg::Node(Rule::Metadata).or_else(Peg::Node(Rule::Modifier)).repeatedly(),
        Rule::Block => Peg::Mark(Symbol::OpenBrace)
            .followed_by(Peg::Node(Rule::Statement).repeatedly())
            .followed_by(Peg::Mark(Symbol::CloseBrace)),
        Rule::Statement => Peg::Node(Rule::DeferStmt)
            .or_else(Peg::Node(Rule::ReturnStmt))
            .or_else(Peg::Node(Rule::IfStmt))
            .or_else(Peg::Node(Rule::WhileStmt))
            .or_else(Peg::Node(Rule::ForStmt))
            .or_else(Peg::Node(Rule::MatchStmt))
            .or_else(Peg::Node(Rule::BreakStmt))
            .or_else(Peg::Node(Rule::ContinueStmt))
            .or_else(Peg::Node(Rule::VarDecl))
            .or_else(Peg::Node(Rule::BlockStmt))
            .or_else(Peg::Node(Rule::ExprStmt)),
        Rule::DeferStmt => Peg::Word(Keyword::Defer).followed_by(Peg::Node(Rule::Statement)),
        Rule::ReturnStmt => Peg::Word(Keyword::Return)
            .followed_by(Peg::Value(Stop::Statement).optionally())
            .followed_by(Peg::Mark(Symbol::Semi)),
        Rule::IfStmt => Peg::Word(Keyword::If)
            .followed_by(Peg::Value(Stop::Head))
            .followed_by(Peg::Node(Rule::Block))
            .followed_by(Peg::Node(Rule::ElsePart).optionally()),
        Rule::ElsePart => Peg::Word(Keyword::Else).followed_by(Peg::Node(Rule::IfStmt).or_else(Peg::Node(Rule::Block))),
        Rule::WhileStmt => Peg::Word(Keyword::While).followed_by(Peg::Value(Stop::Head)).followed_by(Peg::Node(Rule::Block)),
        Rule::ForStmt => Peg::Word(Keyword::ForWord)
            .followed_by(Peg::Node(Rule::Identifier))
            .followed_by(Peg::Word(Keyword::InWord))
            .followed_by(Peg::Value(Stop::Head))
            .followed_by(Peg::Node(Rule::Block)),
        Rule::MatchStmt => Peg::Word(Keyword::MatchWord)
            .followed_by(Peg::Value(Stop::Head))
            .followed_by(Peg::Mark(Symbol::OpenBrace))
            .followed_by(Peg::Node(Rule::DefaultCase).or_else(Peg::Node(Rule::MatchCase)).repeatedly())
            .followed_by(Peg::Mark(Symbol::CloseBrace)),
        Rule::MatchCase => Peg::Value(Stop::Pattern)
            .followed_by(Peg::Mark(Symbol::Becomes))
            .followed_by(Peg::Value(Stop::Statement))
            .followed_by(Peg::Mark(Symbol::Semi)),
        Rule::DefaultCase => Peg::Word(Keyword::DefaultWord)
            .followed_by(Peg::Mark(Symbol::Becomes))
            .followed_by(Peg::Value(Stop::Statement))
            .followed_by(Peg::Mark(Symbol::Semi)),
        Rule::BreakStmt => Peg::Word(Keyword::Break).followed_by(Peg::Mark(Symbol::Semi)),
        Rule::ContinueStmt => Peg::Word(Keyword::Continue).followed_by(Peg::Mark(Symbol::Semi)),
        Rule::BlockStmt => Peg::Node(Rule::Block),
        Rule::ExprStmt => Peg::Value(Stop::Statement).followed_by(Peg::Mark(Symbol::Semi)),
        Rule::String => Peg::Quoted,
        Rule::Identifier => Peg::Name,
        _ => Peg::Name,
    }
}

fn list_of(r: Rule) -> (p: Peg)
    ensures
        p == Peg::Node(r).in_list(),
{
    Peg::Node(r).and(Peg::Mark(Symbol::Comma).and(Peg::Node(r)).many())
}

fn rule_body(r: Rule) -> (p: Peg)
    ensures
        p == body_of(r),
{
    match r {
        Rule::Program => Peg::Node(Rule::IncludeStmt)
            .or(Peg::Node(Rule::ImportStmt))
            .or(Peg::Node(Rule::UsingStmt))
            .or(Peg::Node(Rule::TypedefStmt))
            .or(Peg::Node(Rule::DefaultDecl))
            .or(Peg::Node(Rule::RuleSet))
            .or(Peg::Node(Rule::TraitDef))
            .or(Peg::Node(Rule::TraitImpl))
            .or(Peg::Node(Rule::TypeDef))
            .or(Peg::Node(Rule::FunctionDecl))
            .or(Peg::Node(Rule::VarDecl))
            .many(),
        Rule::IncludeStmt => Peg::Word(Keyword::Include)
            .and(Peg::Node(Rule::String))
            .and(Peg::Mark(Symbol::Becomes).and(Peg::Node(Rule::String)).maybe())
            .and(Peg::Mark(Symbol::Semi)),
        Rule::ImportStmt => Peg::Word(Keyword::Import).and(Peg::Node(Rule::ImportPath)).and(Peg::Mark(Symbol::Semi)),
        Rule::ImportPath => Peg::Path,
        Rule::UsingStmt => Peg::Word(Keyword::Using)
            .and(list_of(Rule::UsingClause))
            .and(Peg::Mark(Symbol::Semi)),
        Rule::UsingClause => Peg::Word(Keyword::Rules)
            .and(Peg::Node(Rule::TypeAnnotation))
            .or(Peg::Word(Keyword::Implicit).and(Peg::Value(Stop::Clause))),
        Rule::TypedefStmt => Peg::Word(Keyword::Typedef)
            .and(Peg::Node(Rule::Identifier))
            .and(Peg::Mark(Symbol::Equals))
            .and(Peg::Node(Rule::TypeAnnotation))
            .and(Peg::Mark(Symbol::Semi)),
        Rule::DefaultDecl => Peg::Word(Keyword::DefaultWord)
            .and(Peg::Node(Rule::TypeAnnotation))
            .and(Peg::Word(Keyword::AsWord))
            .and(Peg::Node(Rule::TypeAnnotation))
            .and(Peg::Mark(Symbol::Semi)),
        Rule::RuleSet => Peg::Word(Keyword::Rules)
            .and(Peg::Node(Rule::Identifier))
            .and(Peg::Mark(Symbol::OpenBrace))
            .and(Peg::Node(Rule::RuleDecl).many())
            .and(Peg::Mark(Symbol::CloseBrace)),
        Rule::RuleDecl => Peg::Mark(Symbol::Open)
            .and(Peg::Value(Stop::Argument))
            .and(Peg::Mark(Symbol::Close))
            .and(Peg::Mark(Symbol::Becomes).and(Peg::Value(Stop::Statement)).maybe())
            .and(Peg::Mark(Symbol::Semi)),
        Rule::TraitDef => Peg::Node(Rule::MetadataAndModifiers)
            .and(Peg::Word(Keyword::Trait))
            .and(Peg::Node(Rule::Identifier))
            .and(Peg::Node(Rule::TypeParams).maybe())
            .and(Peg::Mark(Symbol::OpenBrace))
            .and(
                Peg::Word(Keyword::TypeWord)
                    .and(Peg::Node(Rule::TypeParam))
                    .and(Peg::Mark(Symbol::Semi))
                    .or(Peg::Node(Rule::FunctionDecl))
                    .or(Peg::Node(Rule::VarDecl))
                    .many(),
            )
            .and(Peg::Mark(Symbol::CloseBrace)),
        Rule::TraitImpl => Peg::Node(Rule::MetadataAndModifiers)
            .and(Peg::Word(Keyword::Implement))
            .and(Peg::Node(Rule::TypeAnnotation))
            .and(Peg::Word(Keyword::ForWord))
            .and(Peg::Node(Rule::TypeAnnotation))
            .and(Peg::Mark(Symbol::OpenBrace))
            .and(Peg::Node(Rule::FunctionDecl).many())
            .and(Peg::Mark(Symbol::CloseBrace)),
        Rule::TypeDef => Peg::Node(Rule::MetadataAndModifiers)
            .and(Peg::Node(Rule::EnumDef).or(Peg::Node(Rule::StructDef))),
        Rule::EnumDef => Peg::Word(Keyword::Enum)
            .and(Peg::Node(Rule::Identifier))
            .and(Peg::Node(Rule::TypeParams).maybe())
            .and(Peg::Mark(Symbol::OpenBrace))
            .and(Peg::Node(Rule::EnumVariant).many())
            .and(Peg::Mark(Symbol::CloseBrace)),
        Rule::EnumVariant => Peg::Node(Rule::MetadataAndModifiers)
            .and(Peg::Node(Rule::Identifier))
            .and(
                Peg::Mark(Symbol::Open)
                    .and(list_of(Rule::Param).maybe())
                    .and(Peg::Mark(Symbol::Close))
                    .maybe(),
            )
            .and(Peg::Mark(Symbol::Equals).and(Peg::Value(Stop::Statement)).maybe())
            .and(Peg::Mark(Symbol::Semi)),
        Rule::StructDef => Peg::Word(Keyword::Struct)
            .and(Peg::Node(Rule::Identifier))
            .and(Peg::Node(Rule::TypeParams).maybe())
            .and(Peg::Mark(Symbol::OpenBrace))
            .and(Peg::Node(Rule::VarDecl).many())
            .and(Peg::Mark(Symbol::CloseBrace)),
        Rule::VarDecl => Peg::Node(Rule::MetadataAndModifiers)
            .and(Peg::Word(Keyword::Var).or(Peg::Node(Rule::ConstKw)))
            .and(Peg::Node(Rule::Identifier))
            .and(Peg::Mark(Symbol::Colon).and(Peg::Node(Rule::TypeAnnotation)).maybe())
            .and(Peg::Mark(Symbol::Equals).and(Peg::Value(Stop::Statement)).maybe())
            .and(Peg::Mark(Symbol::Semi)),
        Rule::ConstKw => Peg::Word(Keyword::Const),
        Rule::FunctionDecl => Peg::Node(Rule::MetadataAndModifiers)
            .and(Peg::Word(Keyword::Function))
            .and(Peg::Node(Rule::Identifier))
            .and(Peg::Node(Rule::TypeParams).maybe())
            .and(Peg::Mark(Symbol::Open))
            .and(Peg::Node(Rule::Params).maybe())
            .and(Peg::Mark(Symbol::Close))
            .and(Peg::Mark(Symbol::Colon).and(Peg::Node(Rule::TypeAnnotation)).maybe())
            .and(Peg::Node(Rule::Block).or(Peg::Mark(Symbol::Semi))),
        Rule::Params => list_of(Rule::Param),
        Rule::Param => Peg::Node(Rule::Identifier)
            .and(Peg::Mark(Symbol::Colon))
            .and(Peg::Node(Rule::TypeAnnotation))
            .and(Peg::Mark(Symbol::Equals).and(Peg::Value(Stop::Argument)).maybe()),
        Rule::TypeParams => Peg::Mark(Symbol::OpenBracket)
            .and(list_of(Rule::TypeParam))
            .and(Peg::Mark(Symbol::CloseBracket)),
        Rule::TypeParam => Peg::Node(Rule::Identifier)
            .and(Peg::Mark(Symbol::DoubleColon).and(Peg::Node(Rule::TypeConstraints)).maybe())
            .and(Peg::Mark(Symbol::Equals).and(Peg::Node(Rule::TypeAnnotation)).maybe()),
        Rule::TypeConstraints => Peg::Mark(Symbol::Open)
            .and(list_of(Rule::TypeAnnotation))
            .and(Peg::Mark(Symbol::Close))
            .or(Peg::Node(Rule::TypeAnnotation)),
        Rule::TypeAnnotation => Peg::Node(Rule::FunctionType)
            .or(Peg::Node(Rule::PointerType))
            .or(Peg::Node(Rule::TupleType))
            .or(Peg::Node(Rule::BaseType)),
        Rule::FunctionType => Peg::Word(Keyword::Function)
            .and(Peg::Mark(Symbol::Open))
            .and(list_of(Rule::TypeAnnotation).maybe())
            .and(Peg::Mark(Symbol::Close))
            .and(Peg::Mark(Symbol::Gives))
            .and(Peg::Node(Rule::TypeAnnotation)),
        Rule::PointerType => Peg::Mark(Symbol::Reference).and(Peg::Node(Rule::TypeAnnotation)),
        Rule::TupleType => Peg::Mark(Symbol::Open)
            .and(list_of(Rule::TypeAnnotation))
            .and(Peg::Mark(Symbol::Close)),
        Rule::BaseType => Peg::Node(Rule::TypeName)
            .and(
                Peg::Mark(Symbol::OpenBracket)
                    .and(list_of(Rule::TypeAnnotation))
                    .and(Peg::Mark(Symbol::CloseBracket))
                    .maybe(),
            ),
        Rule::TypeName => Peg::Name,
        Rule::Metadata => Peg::Mark(Symbol::Hash)
            .and(Peg::Mark(Symbol::OpenBracket))
            .and(Peg::Node(Rule::Identifier))
            .and(
                Peg::Mark(Symbol::Open)
                    .and(list_of(Rule::MetaArg))
                    .and(Peg::Mark(Symbol::Close))
                    .maybe(),
            )
            .and(Peg::Mark(Symbol::CloseBracket)),
        Rule::MetaArg => Peg::Quoted.or(Peg::Atom),
        Rule::Modifier => Peg::Word(Keyword::Public).or(Peg::Word(Keyword::Private)),
        Rule::MetadataAndModifiers => Peg::Node(Rule::Metadata).or(Peg::Node(Rule::Modifier)).many(),
        Rule::Block => Peg::Mark(Symbol::OpenBrace)
            .and(Peg::Node(Rule::Statement).many())
            .and(Peg::Mark(Symbol::CloseBrace)),
        Rule::Statement => Peg::Node(Rule::DeferStmt)
            .or(Peg::Node(Rule::ReturnStmt))
            .or(Peg::Node(Rule::IfStmt))
            .or(Peg::Node(Rule::WhileStmt))
            .or(Peg::Node(Rule::ForStmt))
            .or(Peg::Node(Rule::MatchStmt))
            .or(Peg::Node(Rule::BreakStmt))
            .or(Peg::Node(Rule::ContinueStmt))
            .or(Peg::Node(Rule::VarDecl))
            .or(Peg::Node(Rule::BlockStmt))
            .or(Peg::Node(Rule::ExprStmt)),
        Rule::DeferStmt => Peg::Word(Keyword::Defer).and(Peg::Node(Rule::Statement)),
        Rule::ReturnStmt => Peg::Word(Keyword::Return)
            .and(Peg::Value(Stop::Statement).maybe())
            .and(Peg::Mark(Symbol::Semi)),
        Rule::IfStmt => Peg::Word(Keyword::If)
            .and(Peg::Value(Stop::Head))
            .and(Peg::Node(Rule::Block))
            .and(Peg::Node(Rule::ElsePart).maybe()),
        Rule::ElsePart => Peg::Word(Keyword::Else).and(Peg::Node(Rule::IfStmt).or(Peg::Node(Rule::Block))),
        Rule::WhileStmt => Peg::Word(Keyword::While).and(Peg::Value(Stop::Head)).and(Peg::Node(Rule::Block)),
        Rule::ForStmt => Peg::Word(Keyword::ForWord)
            .and(Peg::Node(Rule::Identifier))
            .and(Peg::Word(Keyword::InWord))
            .and(Peg::Value(Stop::Head))
            .and(Peg::Node(Rule::Block)),
        Rule::MatchStmt => Peg::Word(Keyword::MatchWord)
            .and(Peg::Value(Stop::Head))
            .and(Peg::Mark(Symbol::OpenBrace))
            .and(Peg::Node(Rule::DefaultCase).or(Peg::Node(Rule::MatchCase)).many())
            .and(Peg::Mark(Symbol::CloseBrace)),
        Rule::MatchCase => Peg::Value(Stop::Pattern)
            .and(Peg::Mark(Symbol::Becomes))
            .and(Peg::Value(Stop::Statement))
            .and(Peg::Mark(Symbol::Semi)),
        Rule::DefaultCase => Peg::Word(Keyword::DefaultWord)
            .and(Peg::Mark(Symbol::Becomes))
            .and(Peg::Value(Stop::Statement))
            .and(Peg::Mark(Symbol::Semi)),
        Rule::BreakStmt => Peg::Word(Keyword::Break).and(Peg::Mark(Symbol::Semi)),
        Rule::ContinueStmt => Peg::Word(Keyword::Continue).and(Peg::Mark(Symbol::Semi)),
        Rule::BlockStmt => Peg::Node(Rule::Block),
        Rule::ExprStmt => Peg::Value(Stop::Statement).and(Peg::Mark(Symbol::Semi)),
        Rule::String => Peg::Quoted,
        Rule::Identifier => Peg::Name,
        _ => Peg::Name,
    }
}

/// The end of the line that `i` is on.
pub open spec fn line_end(cs: Seq<char>, i: int) -> int
    decreases cs.len() - i,
{
    if i < 0 || i >= cs.len() || cs[i] == '\n' {
        i
    } else {
        line_end(cs, i + 1)
    }
}

/// The end of the comment that `i` is in: behind the next `*/`.
pub open spec fn comment_end(cs: Seq<char>, i: int) -> int
    decreases cs.len() - i,
{
    if i < 0 || i >= cs.len() {
        i
    } else if cs[i] == '*' && i + 1 < cs.len() && cs[i + 1] == '/' {
        i + 2
    } else {
        comment_end(cs, i + 1)
    }
}

/// The first position from `i` on that is neither in white space nor in a comment.
pub open spec fn blank_end(cs: Seq<char>, i: int) -> int
    decreases cs.len() - i,
    when 0 <= i <= cs.len()
    via lemma_blank_end
{
    if i >= cs.len() {
        i
    } else if is_space(cs[i]) {
        blank_end(cs, i + 1)
    } else if cs[i] == '/' && i + 1 < cs.len() && cs[i + 1] == '/' {
        blank_end(cs, line_end(cs, i + 2))
    } else if cs[i] == '/' && i + 1 < cs.len() && cs[i + 1] == '*' {
        blank_end(cs, comment_end(cs, i + 2))
    } else {
        i
    }
}

#[via_fn]
proof fn lemma_blank_end(cs: Seq<char>, i: int) {
    if 0 <= i && i + 1 < cs.len() {
        lemma_line_end(cs, i + 2);
        lemma_comment_end(cs, i + 2);
    }
}

proof fn lemma_line_end(cs: Seq<char>, i: int)
    requires
        0 <= i <= cs.len(),
    ensures
        i <= line_end(cs, i) <= cs.len(),
    decreases cs.len() - i,
{
    if i < cs.len() && cs[i] != '\n' {
        lemma_line_end(cs, i + 1);
    }
}

proof fn lemma_comment_end(cs: Seq<char>, i: int)
    requires
        0 <= i <= cs.len(),
    ensures
        i <= comment_end(cs, i) <= cs.len(),
    decreases cs.len() - i,
{
    if i < cs.len() && !(cs[i] == '*' && i + 1 < cs.len() && cs[i + 1] == '/') {
        lemma_comment_end(cs, i + 1);
    }
}

proof fn lemma_blank_bounds(cs: Seq<char>, i: int)
    requires
        0 <= i <= cs.len(),
    ensures
        i <= blank_end(cs, i) <= cs.len(),
    decreases cs.len() - i,
{
    if i < cs.len() {
        if is_space(cs[i]) {
            lemma_blank_bounds(cs, i + 1);
        } else if cs[i] == '/' && i + 1 < cs.len() && cs[i + 1] == '/' {
            lemma_line_end(cs, i + 2);
            lemma_blank_bounds(cs, line_end(cs, i + 2));
        } else if cs[i] == '/' && i + 1 < cs.len() && cs[i + 1] == '*' {
            lemma_comment_end(cs, i + 2);
            lemma_blank_bounds(cs, comment_end(cs, i + 2));
        }
    }
}

/// Whether a text stands at a position.
pub open spec fn stands_at(cs: Seq<char>, s: Seq<char>, i: int) -> bool {
    0 <= i && i + s.len() <= cs.len() && cs.subrange(i, i + s.len()) == s
}

/// Whether a character can be part of a word.
pub open spec fn is_word_char(c: char) -> bool {
    is_word_start(c) || is_digit(c)
}

/// Whether a character can be part of the path of an import.
pub open spec fn is_path_char(c: char) -> bool {
    is_word_char(c) || c == '.' || c == '*'
}

/// Whether a character can be part of the plain argument of an attribute.
pub open spec fn is_atom_char(c: char) -> bool {
    is_word_char(c) || c == '-' || c == '+'
}

/// The end of the characters of a path that begin at `i`.
pub open spec fn path_end(cs: Seq<char>, i: int) -> int
    decreases cs.len() - i,
{
    if 0 <= i < cs.len() && is_path_char(cs[i]) {
        path_end(cs, i + 1)
    } else {
        i
    }
}

/// The end of the characters of a plain argument that begin at `i`.
pub open spec fn atom_end(cs: Seq<char>, i: int) -> int
    decreases cs.len() - i,
{
    if 0 <= i < cs.len() && is_atom_char(cs[i]) {
        atom_end(cs, i + 1)
    } else {
        i
    }
}

/// Whether an expression outside brackets stops at a position.
pub open spec fn stops_at(cs: Seq<char>, stop: Stop, i: int) -> bool {
    let c = cs[i];
    match stop {
        Stop::Statement => c == ';',
        Stop::Argument => c == ',',
        Stop::Clause => c == ',' || c == ';',
        Stop::Head => c == '{',
        Stop::Pattern => c == '=' && i + 1 < cs.len() && cs[i + 1] == '>',
    }
}

/// Whether a character opens a bracket.
pub open spec fn is_opening(c: char) -> bool {
    c == '(' || c == '[' || c == '{'
}

/// Whether a character closes a bracket.
pub open spec fn is_closing(c: char) -> bool {
    c == ')' || c == ']' || c == '}'
}

/// The position where an expression ends that goes on at `i`, inside `depth` brackets.
pub open spec fn value_end(cs: Seq<char>, stop: Stop, i: int, depth: nat) -> int
    decreases cs.len() - i,
{
    if i < 0 || i >= cs.len() {
        i
    } else if depth == 0 && (stops_at(cs, stop, i) || is_closing(cs[i])) {
        i
    } else if cs[i] == '"' || cs[i] == '\'' {
        match quote_end(cs, i + 1, cs[i]) {
            Some(q) => if i < q < cs.len() {
                value_end(cs, stop, q + 1, depth)
            } else {
                cs.len() as int
            },
            None => cs.len() as int,
        }
    } else if is_opening(cs[i]) {
        value_end(cs, stop, i + 1, depth + 1)
    } else if is_closing(cs[i]) {
        value_end(cs, stop, i + 1, (depth - 1) as nat)
    } else {
        value_end(cs, stop, i + 1, depth)
    }
}

/// The position behind the last character before `n` that is no white space, at least `from`.
pub open spec fn solid_end(cs: Seq<char>, from: int, n: int) -> int
    decreases n - from,
{
    if n <= from || n > cs.len() || !is_space(cs[n - 1]) {
        n
    } else {
        solid_end(cs, from, n - 1)
    }
}

/// The number of bytes that a character takes.
pub open spec fn byte_width(c: char) -> nat {
    if c <= '\u{7f}' {
        1
    } else if c <= '\u{7ff}' {
        2
    } else if c <= '\u{ffff}' {
        3
    } else {
        4
    }
}

/// The number of bytes before a position.
pub open spec fn byte_offset(cs: Seq<char>, i: int) -> nat
    decreases i,
{
    if i <= 0 || i > cs.len() {
        0
    } else {
        byte_offset(cs, i - 1) + byte_width(cs[i - 1])
    }
}

/// The number of the line of a position; the first is one.
pub open spec fn line_of(cs: Seq<char>, i: int) -> nat
    decreases i,
{
    if i <= 0 || i > cs.len() {
        1
    } else if cs[i - 1] == '\n' {
        line_of(cs, i - 1) + 1
    } else {
        line_of(cs, i - 1)
    }
}

/// The number of the column of a position; the first is one.
pub open spec fn column_of(cs: Seq<char>, i: int) -> nat
    decreases i,
{
    if i <= 0 || i > cs.len() || cs[i - 1] == '\n' {
        1
    } else {
        column_of(cs, i - 1) + 1
    }
}

/// A count as far as it can be held.
pub open spec fn held(n: nat) -> usize {
    if n <= usize::MAX {
        n as usize
    } else {
        usize::MAX
    }
}

/// The node of a rule that covers the positions from `start` up to `end`.
pub open spec fn node_at(cs: Seq<char>, rule: Rule, start: int, end: int, children: Seq<NodeV>) -> NodeV {
    NodeV {
        rule,
        text: cs.subrange(start, end),
        start: held(byte_offset(cs, start)),
        end: held(byte_offset(cs, end)),
        line: held(line_of(cs, start)),
        column: held(column_of(cs, start)),
        children,
    }
}

/// The end of a terminal at a position, without the blank before it.
pub open spec fn terminal_end(cs: Seq<char>, p: Peg, i: int) -> Option<int> {
    match p {
        Peg::Word(k) => {
            let e = i + keyword_text(k).len();
            if stands_at(cs, keyword_text(k), i) && !(e < cs.len() && is_word_char(cs[e])) {
                Some(e)
            } else {
                None
            }
        },
        Peg::Mark(s) => if stands_at(cs, symbol_text(s), i) {
            Some(i + symbol_text(s).len())
        } else {
            None
        },
        Peg::Name => if i < cs.len() && is_word_start(cs[i]) {
            Some(word_end(cs, i))
        } else {
            None
        },
        Peg::Quoted => if i < cs.len() && cs[i] == '"' {
            match quote_end(cs, i + 1, '"') {
                Some(q) => Some(q + 1),
                None => None,
            }
        } else {
            None
        },
        Peg::Atom => if atom_end(cs, i) > i {
            Some(atom_end(cs, i))
        } else {
            None
        },
        Peg::Path => if i < cs.len() && is_word_start(cs[i]) {
            Some(path_end(cs, i))
        } else {
            None
        },
        _ => None,
    }
}

/// The end of the expression at a position, without the blank before it.
pub open spec fn expression_end(cs: Seq<char>, stop: Stop, i: int) -> Option<int> {
    let e = solid_end(cs, i, value_end(cs, stop, i, 0));
    if i < e {
        Some(e)
    } else {
        None
    }
}

/// How far a part of the source reaches from a position, and the nodes in it. Nodes may be
/// nested `fuel` deep.
pub open spec fn matched(fuel: nat, cs: Seq<char>, p: Peg, i: int) -> Option<(int, Seq<NodeV>)>
    decreases fuel, p, 0int, 0int,
{
    if i < 0 || i > cs.len() {
        None
    } else {
        let at = blank_end(cs, i);
        match p {
            Peg::Node(rule) => if fuel == 0 {
                None
            } else {
                match matched((fuel - 1) as nat, cs, body_of(rule), at) {
                    Some((e, kids)) => if at <= e <= cs.len() {
                        Some((e, seq![node_at(cs, rule, at, e, kids)]))
                    } else {
                        None
                    },
                    None => None,
                }
            },
            Peg::Value(stop) => match expression_end(cs, stop, at) {
                Some(e) => if at <= e <= cs.len() {
                    Some((e, seq![node_at(cs, Rule::Expr, at, e, Seq::empty())]))
                } else {
                    None
                },
                None => None,
            },
            Peg::Then(a, b) => match matched(fuel, cs, *a, i) {
                Some((e, xs)) => match matched(fuel, cs, *b, e) {
                    Some((f, ys)) => Some((f, xs + ys)),
                    None => None,
                },
                None => None,
            },
            Peg::Or(a, b) => match matched(fuel, cs, *a, i) {
                Some(r) => Some(r),
                None => matched(fuel, cs, *b, i),
            },
            Peg::Maybe(a) => match matched(fuel, cs, *a, i) {
                Some(r) => Some(r),
                None => Some((i, Seq::empty())),
            },
            Peg::Many(a) => Some(repeated(fuel, cs, *a, i, Seq::empty())),
            _ => match terminal_end(cs, p, at) {
                Some(e) => if at <= e <= cs.len() {
                    Some((e, Seq::empty()))
                } else {
                    None
                },
                None => None,
            },
        }
    }
}

/// How far a repeated part reaches from a position, and the nodes in it behind those in `acc`.
pub open spec fn repeated(fuel: nat, cs: Seq<char>, p: Peg, i: int, acc: Seq<NodeV>) -> (int, Seq<NodeV>)
    decreases fuel, p, 1int, cs.len() - i,
{
    match matched(fuel, cs, p, i) {
        Some((e, xs)) => if i < e <= cs.len() {
            repeated(fuel, cs, p, e, acc + xs)
        } else {
            (i, acc)
        },
        None => (i, acc),
    }
}

/// The error for a source that is no Kit program, with the place where it stops being one.
pub open spec fn syntax_error(file: Seq<char>, cs: Seq<char>, i: int) -> ErrorV {
    let (line, column) = (held(line_of(cs, i)), held(column_of(cs, i)));
    ErrorV::Located {
        error: Box::new(
            ErrorV::ParseError(
                file + ": syntax error at line "@ + text::decimal_text(line as nat) + ", column "@
                    + text::decimal_text(column as nat),
            ),
        ),
        context: ContextV {
            file,
            source: cs,
            span: Span { line, column, offset: held(byte_offset(cs, i)), length: 0 },
        },
    }
}

/// How deep nodes may be nested: as deep as the machine can count.
pub const NESTING_LIMIT: usize = usize::MAX;

/// The syntax tree of a source.
pub open spec fn tree_of(file: Seq<char>, source: Seq<char>) -> Result<NodeV, ErrorV> {
    match matched(NESTING_LIMIT as nat, source, body_of(Rule::Program), 0) {
        Some((e, kids)) => if blank_end(source, e) == source.len() {
            Ok(node_at(source, Rule::Program, 0, source.len() as int, kids))
        } else {
            Err(syntax_error(file, source, blank_end(source, e)))
        },
        None => Err(syntax_error(file, source, 0)),
    }
}

/// Whether the range from `a` to `b` lies in the one from `i` to `j`.
pub open spec fn nested(i: int, a: int, b: int, j: int) -> bool {
    i <= a <= b <= j
}

/// Whether a node is the part of the source between two positions, and its children lie in it.
pub open spec fn is_part(cs: Seq<char>, n: NodeV, i: int, j: int) -> bool
    decreases n, 0int,
{
    &&& 0 <= i <= j <= cs.len()
    &&& n == node_at(cs, n.rule, i, j, n.children)
    &&& lie_between(cs, n.children, n.children.len(), i, j)
}

/// Whether the first `k` of some nodes lie between two positions, in their order and without
/// overlap.
pub open spec fn lie_between(cs: Seq<char>, ns: Seq<NodeV>, k: nat, i: int, j: int) -> bool
    decreases ns, k,
{
    if k == 0 || k > ns.len() {
        i <= j
    } else {
        exists|a: int, b: int|
            #[trigger] nested(i, a, b, j) && is_part(cs, ns[k - 1], a, b) && lie_between(cs, ns, (k - 1) as nat, i, a)
    }
}

/// The tree of a source covers it, and every node is the part of the source that it stands for,
/// with its children inside of it, in their order and without overlap.
pub proof fn law_nodes_are_parts_of_the_source(file: Seq<char>, source: Seq<char>)
    requires
        tree_of(file, source) is Ok,
    ensures
        tree_of(file, source)->Ok_0.rule == Rule::Program,
        tree_of(file, source)->Ok_0.text == source,
        is_part(source, tree_of(file, source)->Ok_0, 0, source.len() as int),
{
    assert(source.subrange(0, source.len() as int) =~= source);
    let p = body_of(Rule::Program);
    lemma_matched_lies(NESTING_LIMIT as nat, source, p, 0);
    let r = matched(NESTING_LIMIT as nat, source, p, 0)->0;
    lemma_wider(source, r.1, r.1.len(), 0, r.0, 0, source.len() as int);
}

proof fn lemma_wider(cs: Seq<char>, ns: Seq<NodeV>, k: nat, i: int, j: int, i0: int, j0: int)
    requires
        i0 <= i,
        j <= j0,
        k <= ns.len(),
        lie_between(cs, ns, k, i, j),
    ensures
        i <= j,
        lie_between(cs, ns, k, i0, j0),
    decreases k,
{
    if k > 0 {
        let (a, b) = choose|a: int, b: int|
            #[trigger] nested(i, a, b, j) && is_part(cs, ns[k - 1], a, b) && lie_between(cs, ns, (k - 1) as nat, i, a);
        lemma_wider(cs, ns, (k - 1) as nat, i, a, i0, a);
        assert(nested(i0, a, b, j0));
    }
}

proof fn lemma_first_lie(cs: Seq<char>, ns: Seq<NodeV>, ms: Seq<NodeV>, k: nat, i: int, j: int)
    requires
        k <= ns.len(),
        k <= ms.len(),
        forall|x: int| 0 <= x < k ==> ns[x] == ms[x],
        lie_between(cs, ns, k, i, j),
    ensures
        lie_between(cs, ms, k, i, j),
    decreases k,
{
    if k > 0 {
        let (a, b) = choose|a: int, b: int|
            #[trigger] nested(i, a, b, j) && is_part(cs, ns[k - 1], a, b) && lie_between(cs, ns, (k - 1) as nat, i, a);
        lemma_first_lie(cs, ns, ms, (k - 1) as nat, i, a);
        assert(nested(i, a, b, j) && is_part(cs, ms[k - 1], a, b));
    }
}

proof fn lemma_joined_lie(cs: Seq<char>, xs: Seq<NodeV>, ys: Seq<NodeV>, k: nat, i: int, j: int, l: int)
    requires
        lie_between(cs, xs, xs.len(), i, j),
        lie_between(cs, ys, k, j, l),
        k <= ys.len(),
    ensures
        lie_between(cs, xs + ys, xs.len() + k, i, l),
    decreases k,
{
    if k == 0 {
        lemma_first_lie(cs, xs, xs + ys, xs.len(), i, j);
        lemma_wider(cs, xs + ys, xs.len(), i, j, i, l);
    } else {
        let (a, b) = choose|a: int, b: int|
            #[trigger] nested(j, a, b, l) && is_part(cs, ys[k - 1], a, b) && lie_between(cs, ys, (k - 1) as nat, j, a);
        lemma_joined_lie(cs, xs, ys, (k - 1) as nat, i, j, a);
        lemma_wider(cs, xs, xs.len(), i, j, i, j);
        assert((xs + ys)[xs.len() + k - 1] == ys[k - 1]);
        assert(nested(i, a, b, l) && is_part(cs, (xs + ys)[xs.len() + k - 1], a, b));
        assert((xs.len() + k - 1) as nat == xs.len() + (k - 1) as nat);
    }
}

proof fn lemma_one_lies(cs: Seq<char>, n: NodeV, i: int, a: int, b: int)
    requires
        i <= a,
        is_part(cs, n, a, b),
    ensures
        lie_between(cs, seq![n], 1, i, b),
{
    assert(seq![n][0] == n);
    assert(lie_between(cs, seq![n], 0, i, a));
    assert(nested(i, a, b, b));
}

proof fn lemma_matched_lies(fuel: nat, cs: Seq<char>, p: Peg, i: int)
    requires
        0 <= i <= cs.len(),
    ensures
        matched(fuel, cs, p, i) matches Some((e, kids)) ==> i <= e <= cs.len() && lie_between(
            cs,
            kids,
            kids.len(),
            i,
            e,
        ),
    decreases fuel, p, 0int, 0int,
{
    let at = blank_end(cs, i);
    lemma_blank_bounds(cs, i);
    match p {
        Peg::Node(rule) => {
            if fuel > 0 {
                lemma_matched_lies((fuel - 1) as nat, cs, body_of(rule), at);
                if let Some((e, kids)) = matched((fuel - 1) as nat, cs, body_of(rule), at) {
                    lemma_one_lies(cs, node_at(cs, rule, at, e, kids), i, at, e);
                }
            }
        },
        Peg::Value(stop) => {
            if let Some(e) = expression_end(cs, stop, at) {
                if at <= e <= cs.len() {
                    lemma_one_lies(cs, node_at(cs, Rule::Expr, at, e, Seq::empty()), i, at, e);
                }
            }
        },
        Peg::Then(a, b) => {
            lemma_matched_lies(fuel, cs, *a, i);
            if let Some((e, xs)) = matched(fuel, cs, *a, i) {
                lemma_matched_lies(fuel, cs, *b, e);
                if let Some((f, ys)) = matched(fuel, cs, *b, e) {
                    lemma_joined_lie(cs, xs, ys, ys.len(), i, e, f);
                }
            }
        },
        Peg::Or(a, b) => {
            lemma_matched_lies(fuel, cs, *a, i);
            lemma_matched_lies(fuel, cs, *b, i);
        },
        Peg::Maybe(a) => {
            lemma_matched_lies(fuel, cs, *a, i);
        },
        Peg::Many(a) => {
            lemma_repeated_lies(fuel, cs, *a, i, i, Seq::empty());
        },
        _ => {},
    }
}

proof fn lemma_repeated_lies(fuel: nat, cs: Seq<char>, p: Peg, start: int, i: int, acc: Seq<NodeV>)
    requires
        0 <= start <= i <= cs.len(),
        lie_between(cs, acc, acc.len(), start, i),
    ensures
        start <= repeated(fuel, cs, p, i, acc).0 <= cs.len(),
        lie_between(
            cs,
            repeated(fuel, cs, p, i, acc).1,
            repeated(fuel, cs, p, i, acc).1.len(),
            start,
            repeated(fuel, cs, p, i, acc).0,
        ),
    decreases fuel, p, 1int, cs.len() - i,
{
    lemma_matched_lies(fuel, cs, p, i);
    if let Some((e, xs)) = matched(fuel, cs, p, i) {
        if i < e <= cs.len() {
            lemma_joined_lie(cs, acc, xs, xs.len(), start, i, e);
            lemma_repeated_lies(fuel, cs, p, start, e, acc + xs);
        }
    }
}

/// A source text with the places of its characters.
pub struct Source {
    pub cs: Vec<char>,
    pub offsets: Vec<usize>,
    pub lines: Vec<usize>,
    pub columns: Vec<usize>,
}

impl Source {
    /// Whether the places are those of the characters.
    pub open spec fn wf(&self) -> bool {
        &&& self.offsets@.len() == self.cs@.len() + 1
        &&& self.lines@.len() == self.cs@.len() + 1
        &&& self.columns@.len() == self.cs@.len() + 1
        &&& forall|i: int| 0 <= i <= self.cs@.len() ==> #[trigger] self.offsets@[i] == held(byte_offset(self.cs@, i))
        &&& forall|i: int| 0 <= i <= self.cs@.len() ==> #[trigger] self.lines@[i] == held(line_of(self.cs@, i))
        &&& forall|i: int| 0 <= i <= self.cs@.len() ==> #[trigger] self.columns@[i] == held(column_of(self.cs@, i))
    }

    /// The places of the characters of a text.
    pub fn new(s: &str) -> (r: Self)
        ensures
            r.wf(),
            r.cs@ == s@,
    {
        let cs = text::chars_of(s);
        let mut offsets: Vec<usize> = Vec::new();
        let mut lines: Vec<usize> = Vec::new();
        let mut columns: Vec<usize> = Vec::new();
        offsets.push(0);
        lines.push(1);
        columns.push(1);
        let mut i: usize = 0;
        while i < cs.len()
            invariant
                i <= cs@.len(),
                offsets@.len() == i + 1,
                lines@.len() == i + 1,
                columns@.len() == i + 1,
                forall|j: int| 0 <= j <= i ==> #[trigger] offsets@[j] == held(byte_offset(cs@, j)),
                forall|j: int| 0 <= j <= i ==> #[trigger] lines@[j] == held(line_of(cs@, j)),
                forall|j: int| 0 <= j <= i ==> #[trigger] columns@[j] == held(column_of(cs@, j)),
            decreases cs@.len() - i,
        {
            let c = cs[i];
            let w: usize = if c <= '\u{7f}' {
                1
            } else if c <= '\u{7ff}' {
                2
            } else if c <= '\u{ffff}' {
                3
            } else {
                4
            };
            proof {
                assert(offsets@[i as int] == held(byte_offset(cs@, i as int)));
                assert(lines@[i as int] == held(line_of(cs@, i as int)));
                assert(columns@[i as int] == held(column_of(cs@, i as int)));
                assert(byte_offset(cs@, i + 1) == byte_offset(cs@, i as int) + byte_width(c));
            }
            let o: usize = if offsets[i] > usize::MAX - w {
                usize::MAX
            } else {
                offsets[i] + w
            };
            let l: usize = if c == '\n' && lines[i] < usize::MAX {
                lines[i] + 1
            } else {
                lines[i]
            };
            let k: usize = if c == '\n' {
                1
            } else if columns[i] < usize::MAX {
                columns[i] + 1
            } else {
                usize::MAX
            };
            offsets.push(o);
            lines.push(l);
            columns.push(k);
            i = i + 1;
        }
        Source { cs, offsets, lines, columns }
    }

    fn blank(&self, from: usize) -> (r: usize)
        requires
            from <= self.cs@.len(),
        ensures
            r == blank_end(self.cs@, from as int),
            from <= r <= self.cs@.len(),
    {
        let ghost cs = self.cs@;
        let mut i: usize = from;
        proof {
            lemma_blank_bounds(cs, from as int);
        }
        while i < self.cs.len()
            invariant
                from <= i <= cs.len(),
                cs == self.cs@,
                blank_end(cs, from as int) == blank_end(cs, i as int),
            decreases cs.len() - i,
        {
            let c = self.cs[i];
            if c == ' ' || c == '\t' || c == '\n' || c == '\r' {
                i = i + 1;
            } else if c == '/' && i + 1 < self.cs.len() && self.cs[i + 1] == '/' {
                let ghost start = i + 2;
                let ghost i0 = i as int;
                let mut j: usize = i + 2;
                proof {
                    lemma_line_end(cs, start);
                }
                while j < self.cs.len() && self.cs[j] != '\n'
                    invariant
                        start <= j <= cs.len(),
                        0 <= i0,
                        start == i0 + 2,
                        cs == self.cs@,
                        line_end(cs, start) == line_end(cs, j as int),
                    decreases cs.len() - j,
                {
                    j = j + 1;
                }
                i = j;
            } else if c == '/' && i + 1 < self.cs.len() && self.cs[i + 1] == '*' {
                let ghost start = i + 2;
                let ghost i0 = i as int;
                let mut j: usize = i + 2;
                let mut inside = true;
                proof {
                    lemma_comment_end(cs, start);
                }
                while inside && j < self.cs.len()
                    invariant
                        start <= j <= cs.len(),
                        0 <= i0,
                        start == i0 + 2,
                        cs == self.cs@,
                        inside ==> comment_end(cs, start) == comment_end(cs, j as int),
                        !inside ==> comment_end(cs, start) == j,
                    decreases cs.len() - j, (if inside { 1int } else { 0int }),
                {
                    if self.cs[j] == '*' && j + 1 < self.cs.len() && self.cs[j + 1] == '/' {
                        j = j + 2;
                        inside = false;
                    } else {
                        j = j + 1;
                    }
                }
                i = j;
            } else {
                return i;
            }
        }
        i
    }

    fn stands(&self, s: &str, i: usize) -> (r: bool)
        requires
            i <= self.cs@.len(),
        ensures
            r == stands_at(self.cs@, s@, i as int),
    {
        let want = text::chars_of(s);
        if want.len() > self.cs.len() - i {
            return false;
        }
        let total: usize = self.cs.len();
        let mut j: usize = 0;
        while j < want.len()
            invariant
                j <= want@.len(),
                want@ == s@,
                total == self.cs@.len(),
                i + want@.len() <= self.cs@.len(),
                forall|k: int| 0 <= k < j ==> self.cs@[i + k] == #[trigger] want@[k],
            decreases want@.len() - j,
        {
            if self.cs[i + j] != want[j] {
                proof {
                    assert(self.cs@.subrange(i as int, i + s@.len())[j as int] != s@[j as int]);
                }
                return false;
            }
            j = j + 1;
        }
        proof {
            assert(self.cs@.subrange(i as int, i + s@.len()) =~= s@);
        }
        true
    }

    fn terminal(&self, p: &Peg, i: usize) -> (r: Option<usize>)
        requires
            i <= self.cs@.len(),
        ensures
            match r {
                Some(e) => terminal_end(self.cs@, *p, i as int) == Some(e as int),
                None => match terminal_end(self.cs@, *p, i as int) {
                    Some(e) => !(i <= e <= self.cs@.len()),
                    None => true,
                },
            },
            r is Some ==> r->0 <= usize::MAX,
    {
        match p {
            Peg::Word(k) => {
                let w = keyword_str(*k);
                let total: usize = self.cs.len();
                if self.stands(w, i) {
                    let n: usize = text::chars_of(w).len();
                    let e: usize = i + n;
                    if e < total && word_part(self.cs[e]) {
                        None
                    } else {
                        Some(e)
                    }
                } else {
                    None
                }
            },
            Peg::Mark(s) => {
                let w = symbol_str(*s);
                if i <= self.cs.len() && self.stands(w, i) {
                    let n: usize = text::chars_of(w).len();
                    Some(i + n)
                } else {
                    None
                }
            },
            Peg::Name => if i < self.cs.len() && word_start(self.cs[i]) {
                Some(skip_word(&self.cs, i))
            } else {
                None
            },
            Peg::Quoted => if i < self.cs.len() && self.cs[i] == '"' {
                match find_quote(&self.cs, i + 1, '"') {
                    Some(q) => Some(q + 1),
                    None => None,
                }
            } else {
                None
            },
            Peg::Atom => {
                let mut j: usize = i;
                while j < self.cs.len() && (word_part(self.cs[j]) || self.cs[j] == '-' || self.cs[j] == '+')
                    invariant
                        i <= j <= self.cs@.len(),
                        atom_end(self.cs@, i as int) == atom_end(self.cs@, j as int),
                    decreases self.cs@.len() - j,
                {
                    j = j + 1;
                }
                if j > i {
                    Some(j)
                } else {
                    None
                }
            },
            Peg::Path => if i < self.cs.len() && word_start(self.cs[i]) {
                let mut j: usize = i;
                while j < self.cs.len() && (word_part(self.cs[j]) || self.cs[j] == '.' || self.cs[j] == '*')
                    invariant
                        i <= j <= self.cs@.len(),
                        path_end(self.cs@, i as int) == path_end(self.cs@, j as int),
                    decreases self.cs@.len() - j,
                {
                    j = j + 1;
                }
                Some(j)
            } else {
                None
            },
            _ => None,
        }
    }

    fn stop_here(&self, stop: Stop, i: usize) -> (r: bool)
        requires
            i < self.cs@.len(),
        ensures
            r == stops_at(self.cs@, stop, i as int),
    {
        let c = self.cs[i];
        let total: usize = self.cs.len();
        match stop {
            Stop::Statement => c == ';',
            Stop::Argument => c == ',',
            Stop::Clause => c == ',' || c == ';',
            Stop::Head => c == '{',
            Stop::Pattern => c == '=' && i + 1 < total && self.cs[i + 1] == '>',
        }
    }

    fn expression(&self, stop: Stop, from: usize) -> (r: Option<usize>)
        requires
            from <= self.cs@.len(),
        ensures
            match r {
                Some(e) => expression_end(self.cs@, stop, from as int) == Some(e as int) && e <= self.cs@.len(),
                None => expression_end(self.cs@, stop, from as int) is None,
            },
    {
        let ghost cs = self.cs@;
        let mut i: usize = from;
        let mut depth: usize = 0;
        let mut going = true;
        while going && i < self.cs.len()
            invariant
                from <= i <= cs.len(),
                cs == self.cs@,
                depth <= i - from,
                going ==> value_end(cs, stop, from as int, 0) == value_end(cs, stop, i as int, depth as nat),
                !going ==> value_end(cs, stop, from as int, 0) == i,
            decreases cs.len() - i, (if going { 1int } else { 0int }),
        {
            let c = self.cs[i];
            let closes = c == ')' || c == ']' || c == '}';
            if depth == 0 && (self.stop_here(stop, i) || closes) {
                going = false;
            } else if c == '"' || c == '\'' {
                match find_quote(&self.cs, i + 1, c) {
                    Some(q) => {
                        i = q + 1;
                    },
                    None => {
                        i = self.cs.len();
                        going = false;
                    },
                }
            } else if c == '(' || c == '[' || c == '{' {
                depth = depth + 1;
                i = i + 1;
            } else if closes {
                depth = depth - 1;
                i = i + 1;
            } else {
                i = i + 1;
            }
        }
        let ghost v = value_end(cs, stop, from as int, 0);
        let mut n: usize = i;
        while n > from && space_char(self.cs[n - 1])
            invariant
                from <= n <= cs.len(),
                cs == self.cs@,
                v == i,
                solid_end(cs, from as int, v) == solid_end(cs, from as int, n as int),
            decreases n,
        {
            n = n - 1;
        }
        if from < n {
            Some(n)
        } else {
            None
        }
    }

    fn node(&self, rule: Rule, start: usize, end: usize, children: Vec<SyntaxNode>) -> (r: SyntaxNode)
        requires
            self.wf(),
            start <= end <= self.cs@.len(),
        ensures
            r@ == node_at(self.cs@, rule, start as int, end as int, syntaxes_v(children@)),
    {
        let n = SyntaxNode {
            rule,
            text: text::string_of(&self.cs, start, end),
            start: self.offsets[start],
            end: self.offsets[end],
            line: self.lines[start],
            column: self.columns[start],
            children,
        };
        proof {
            lemma_syntax_v(n);
        }
        n
    }

    fn run(&self, p: &Peg, i: usize, depth: usize) -> (r: Option<(usize, Vec<SyntaxNode>)>)
        requires
            self.wf(),
            i <= self.cs@.len(),
        ensures
            matched_v(r) == matched(depth as nat, self.cs@, *p, i as int),
            r is Some ==> (r->0).0 <= self.cs@.len(),
        decreases depth, *p, 0int,
    {
        let at = self.blank(i);
        match p {
            Peg::Node(rule) => {
                if depth == 0 {
                    return None;
                }
                let body = rule_body(*rule);
                match self.run(&body, at, depth - 1) {
                    Some((e, kids)) => if at <= e {
                        let n = self.node(*rule, at, e, kids);
                        Some((e, one_node(n)))
                    } else {
                        None
                    },
                    None => None,
                }
            },
            Peg::Value(stop) => match self.expression(*stop, at) {
                Some(e) => if at <= e {
                    let n = self.node(Rule::Expr, at, e, no_nodes());
                    Some((e, one_node(n)))
                } else {
                    None
                },
                None => None,
            },
            Peg::Then(a, b) => match self.run(a, i, depth) {
                Some((e, xs)) => match self.run(b, e, depth) {
                    Some((f, ys)) => Some((f, joined_nodes(xs, ys))),
                    None => None,
                },
                None => None,
            },
            Peg::Or(a, b) => match self.run(a, i, depth) {
                Some(r) => Some(r),
                None => self.run(b, i, depth),
            },
            Peg::Maybe(a) => match self.run(a, i, depth) {
                Some(r) => Some(r),
                None => Some((i, no_nodes())),
            },
            Peg::Many(a) => Some(self.repeat(a, i, depth)),
            _ => match self.terminal(p, at) {
                Some(e) => if at <= e && e <= self.cs.len() {
                    Some((e, no_nodes()))
                } else {
                    None
                },
                None => None,
            },
        }
    }

    fn repeat(&self, p: &Peg, from: usize, depth: usize) -> (r: (usize, Vec<SyntaxNode>))
        requires
            self.wf(),
            from <= self.cs@.len(),
        ensures
            (r.0 as int, syntaxes_v(r.1@)) == repeated(depth as nat, self.cs@, *p, from as int, Seq::empty()),
            r.0 <= self.cs@.len(),
        decreases depth, *p, 1int,
    {
        let ghost cs = self.cs@;
        let mut out: Vec<SyntaxNode> = no_nodes();
        let mut i: usize = from;
        let mut going = true;
        while going
            invariant
                self.wf(),
                cs == self.cs@,
                from <= i <= cs.len(),
                going ==> repeated(depth as nat, cs, *p, from as int, Seq::empty()) == repeated(
                    depth as nat,
                    cs,
                    *p,
                    i as int,
                    syntaxes_v(out@),
                ),
                !going ==> repeated(depth as nat, cs, *p, from as int, Seq::empty()) == (
                    i as int,
                    syntaxes_v(out@),
                ),
            decreases cs.len() - i, (if going { 1int } else { 0int }),
        {
            match self.run(p, i, depth) {
                Some((e, xs)) => {
                    if i < e {
                        out = joined_nodes(out, xs);
                        i = e;
                    } else {
                        going = false;
                    }
                },
                None => {
                    going = false;
                },
            }
        }
        (i, out)
    }
}

/// The contents of what a part of the source matched.
pub open spec fn matched_v(r: Option<(usize, Vec<SyntaxNode>)>) -> Option<(int, Seq<NodeV>)> {
    match r {
        Some((e, ns)) => Some((e as int, syntaxes_v(ns@))),
        None => None,
    }
}

fn word_part(c: char) -> (r: bool)
    ensures
        r == is_word_char(c),
{
    word_start(c) || (c >= '0' && c <= '9')
}

fn space_char(c: char) -> (r: bool)
    ensures
        r == is_space(c),
{
    c == ' ' || c == '\t' || c == '\n' || c == '\r'
}

fn no_nodes() -> (r: Vec<SyntaxNode>)
    ensures
        syntaxes_v(r@) == Seq::<NodeV>::empty(),
{
    let v: Vec<SyntaxNode> = Vec::new();
    proof {
        assert(syntaxes_v(v@) =~= Seq::<NodeV>::empty());
    }
    v
}

fn one_node(n: SyntaxNode) -> (r: Vec<SyntaxNode>)
    ensures
        syntaxes_v(r@) == seq![n@],
{
    let ghost nv = n@;
    let mut v: Vec<SyntaxNode> = Vec::new();
    v.push(n);
    proof {
        assert(syntaxes_v(v@) =~= seq![nv]);
    }
    v
}

fn joined_nodes(a: Vec<SyntaxNode>, b: Vec<SyntaxNode>) -> (r: Vec<SyntaxNode>)
    ensures
        syntaxes_v(r@) == syntaxes_v(a@) + syntaxes_v(b@),
{
    let ghost av = a@;
    let ghost bv = b@;
    let mut out = a;
    let mut more = b;
    out.append(&mut more);
    proof {
        assert(syntaxes_v(out@) =~= syntaxes_v(av) + syntaxes_v(bv));
    }
    out
}

fn syntax_failure(file: &str, source: &str, s: &Source, i: usize) -> (r: CompilationError)
    requires
        s.wf(),
        s.cs@ == source@,
        i <= s.cs@.len(),
    ensures
        r@ == syntax_error(file@, s.cs@, i as int),
{
    let span = Span { line: s.lines[i], column: s.columns[i], offset: s.offsets[i], length: 0 };
    CompilationError::ParseError(
        file.to_owned().concat(": syntax error at line ").concat(text::decimal(s.lines[i] as u64).as_str()).concat(
            ", column ",
        ).concat(text::decimal(s.columns[i] as u64).as_str()),
    ).with_context(ErrorContext { file: file.to_owned(), source: source.to_owned(), span })
}

/// Reads the syntax tree of a source.
pub fn parse_tree(file: &str, source: &str) -> (r: Result<SyntaxNode, CompilationError>)
    ensures
        crate::tree_types::viewed(r) == tree_of(file@, source@),
{
    let s = Source::new(source);
    let body = rule_body(Rule::Program);
    match s.run(&body, 0, NESTING_LIMIT) {
        Some((e, kids)) => {
            let end = s.blank(e);
            if end == s.cs.len() {
                Ok(s.node(Rule::Program, 0, end, kids))
            } else {
                Err(syntax_failure(file, source, &s, end))
            }
        },
        None => Err(syntax_failure(file, source, &s, 0)),
    }
}

} // verus!
