//! The syntax tree of Kit source.
use crate::ast::Span;
use crate::text;
use vstd::prelude::*;

verus! {

/// What a node of the syntax tree is.
#[derive(Clone, Copy, Debug, PartialEq, Eq, Structural)]
pub enum Rule {
    Program,
    IncludeStmt,
    ImportStmt,
    ImportPath,
    UsingStmt,
    UsingClause,
    TypedefStmt,
    TypeDef,
    MetadataAndModifiers,
    Metadata,
    Modifier,
    MetaArg,
    EnumDef,
    EnumVariant,
    StructDef,
    VarDecl,
    ConstKw,
    FunctionDecl,
    Params,
    Param,
    TypeParams,
    TypeParam,
    TypeConstraints,
    TypeAnnotation,
    BaseType,
    TypeName,
    PointerType,
    TupleType,
    FunctionType,
    TraitDef,
    TraitImpl,
    DefaultDecl,
    RuleSet,
    RuleDecl,
    Block,
    Statement,
    BlockStmt,
    DeferStmt,
    ExprStmt,
    ReturnStmt,
    IfStmt,
    ElsePart,
    WhileStmt,
    ForStmt,
    BreakStmt,
    ContinueStmt,
    MatchStmt,
    MatchCase,
    DefaultCase,
    Identifier,
    String,
    Expr,
    Assign,
    AssignOp,
    LogicalOr,
    LogicalAnd,
    Equality,
    Comparison,
    Additive,
    Multiplicative,
    BitwiseOr,
    BitwiseXor,
    BitwiseAnd,
    Shift,
    BinaryOp,
    Unary,
    UnaryOp,
    AddressOfOp,
    Postfix,
    PostfixField,
    Primary,
    Literal,
    Number,
    Integer,
    Float,
    Boolean,
    CharLiteral,
    FunctionCallExpr,
    IfExpr,
    RangeExpr,
    StructInit,
    FieldInit,
    ArrayLiteral,
    UnionInit,
    TupleLiteral,
}

/// The name of a rule.
pub open spec fn rule_text(r: Rule) -> Seq<char> {
    match r {
        Rule::Program => "program"@,
        Rule::IncludeStmt => "include_stmt"@,
        Rule::ImportStmt => "import_stmt"@,
        Rule::ImportPath => "import_path"@,
        Rule::UsingStmt => "using_stmt"@,
        Rule::UsingClause => "using_clause"@,
        Rule::TypedefStmt => "typedef_stmt"@,
        Rule::TypeDef => "type_def"@,
        Rule::MetadataAndModifiers => "metadata_and_modifiers"@,
        Rule::Metadata => "metadata"@,
        Rule::Modifier => "modifier"@,
        Rule::MetaArg => "meta_arg"@,
        Rule::EnumDef => "enum_def"@,
        Rule::EnumVariant => "enum_variant"@,
        Rule::StructDef => "struct_def"@,
        Rule::VarDecl => "var_decl"@,
        Rule::ConstKw => "const_kw"@,
        Rule::FunctionDecl => "function_decl"@,
        Rule::Params => "params"@,
        Rule::Param => "param"@,
        Rule::TypeParams => "type_params"@,
        Rule::TypeParam => "type_param"@,
        Rule::TypeConstraints => "type_constraints"@,
        Rule::TypeAnnotation => "type_annotation"@,
        Rule::BaseType => "base_type"@,
        Rule::TypeName => "type_name"@,
        Rule::PointerType => "pointer_type"@,
        Rule::TupleType => "tuple_type"@,
        Rule::FunctionType => "function_type"@,
        Rule::TraitDef => "trait_def"@,
        Rule::TraitImpl => "trait_impl"@,
        Rule::DefaultDecl => "default_decl"@,
        Rule::RuleSet => "rule_set"@,
        Rule::RuleDecl => "rule_decl"@,
        Rule::Block => "block"@,
        Rule::Statement => "statement"@,
        Rule::BlockStmt => "block_stmt"@,
        Rule::DeferStmt => "defer_stmt"@,
        Rule::ExprStmt => "expr_stmt"@,
        Rule::ReturnStmt => "return_stmt"@,
        Rule::IfStmt => "if_stmt"@,
        Rule::ElsePart => "else_part"@,
        Rule::WhileStmt => "while_stmt"@,
        Rule::ForStmt => "for_stmt"@,
        Rule::BreakStmt => "break_stmt"@,
        Rule::ContinueStmt => "continue_stmt"@,
        Rule::MatchStmt => "match_stmt"@,
        Rule::MatchCase => "match_case"@,
        Rule::DefaultCase => "default_case"@,
        Rule::Identifier => "identifier"@,
        Rule::String => "string"@,
        Rule::Expr => "expr"@,
        Rule::Assign => "assign"@,
        Rule::AssignOp => "assign_op"@,
        Rule::LogicalOr => "logical_or"@,
        Rule::LogicalAnd => "logical_and"@,
        Rule::Equality => "equality"@,
        Rule::Comparison => "comparison"@,
        Rule::Additive => "additive"@,
        Rule::Multiplicative => "multiplicative"@,
        Rule::BitwiseOr => "bitwise_or"@,
        Rule::BitwiseXor => "bitwise_xor"@,
        Rule::BitwiseAnd => "bitwise_and"@,
        Rule::Shift => "shift"@,
        Rule::BinaryOp => "binary_op"@,
        Rule::Unary => "unary"@,
        Rule::UnaryOp => "unary_op"@,
        Rule::AddressOfOp => "address_of_op"@,
        Rule::Postfix => "postfix"@,
        Rule::PostfixField => "postfix_field"@,
        Rule::Primary => "primary"@,
        Rule::Literal => "literal"@,
        Rule::Number => "number"@,
        Rule::Integer => "integer"@,
        Rule::Float => "float"@,
        Rule::Boolean => "boolean"@,
        Rule::CharLiteral => "char_literal"@,
        Rule::FunctionCallExpr => "function_call_expr"@,
        Rule::IfExpr => "if_expr"@,
        Rule::RangeExpr => "range_expr"@,
        Rule::StructInit => "struct_init"@,
        Rule::FieldInit => "field_init"@,
        Rule::ArrayLiteral => "array_literal"@,
        Rule::UnionInit => "union_init"@,
        Rule::TupleLiteral => "tuple_literal"@,
    }
}

/// The name of a rule.
pub fn rule_name(r: Rule) -> (n: &'static str)
    ensures
        n@ == rule_text(r),
{
    match r {
        Rule::Program => "program",
        Rule::IncludeStmt => "include_stmt",
        Rule::ImportStmt => "import_stmt",
        Rule::ImportPath => "import_path",
        Rule::UsingStmt => "using_stmt",
        Rule::UsingClause => "using_clause",
        Rule::TypedefStmt => "typedef_stmt",
        Rule::TypeDef => "type_def",
        Rule::MetadataAndModifiers => "metadata_and_modifiers",
        Rule::Metadata => "metadata",
        Rule::Modifier => "modifier",
        Rule::MetaArg => "meta_arg",
        Rule::EnumDef => "enum_def",
        Rule::EnumVariant => "enum_variant",
        Rule::StructDef => "struct_def",
        Rule::VarDecl => "var_decl",
        Rule::ConstKw => "const_kw",
        Rule::FunctionDecl => "function_decl",
        Rule::Params => "params",
        Rule::Param => "param",
        Rule::TypeParams => "type_params",
        Rule::TypeParam => "type_param",
        Rule::TypeConstraints => "type_constraints",
        Rule::TypeAnnotation => "type_annotation",
        Rule::BaseType => "base_type",
        Rule::TypeName => "type_name",
        Rule::PointerType => "pointer_type",
        Rule::TupleType => "tuple_type",
        Rule::FunctionType => "function_type",
        Rule::TraitDef => "trait_def",
        Rule::TraitImpl => "trait_impl",
        Rule::DefaultDecl => "default_decl",
        Rule::RuleSet => "rule_set",
        Rule::RuleDecl => "rule_decl",
        Rule::Block => "block",
        Rule::Statement => "statement",
        Rule::BlockStmt => "block_stmt",
        Rule::DeferStmt => "defer_stmt",
        Rule::ExprStmt => "expr_stmt",
        Rule::ReturnStmt => "return_stmt",
        Rule::IfStmt => "if_stmt",
        Rule::ElsePart => "else_part",
        Rule::WhileStmt => "while_stmt",
        Rule::ForStmt => "for_stmt",
        Rule::BreakStmt => "break_stmt",
        Rule::ContinueStmt => "continue_stmt",
        Rule::MatchStmt => "match_stmt",
        Rule::MatchCase => "match_case",
        Rule::DefaultCase => "default_case",
        Rule::Identifier => "identifier",
        Rule::String => "string",
        Rule::Expr => "expr",
        Rule::Assign => "assign",
        Rule::AssignOp => "assign_op",
        Rule::LogicalOr => "logical_or",
        Rule::LogicalAnd => "logical_and",
        Rule::Equality => "equality",
        Rule::Comparison => "comparison",
        Rule::Additive => "additive",
        Rule::Multiplicative => "multiplicative",
        Rule::BitwiseOr => "bitwise_or",
        Rule::BitwiseXor => "bitwise_xor",
        Rule::BitwiseAnd => "bitwise_and",
        Rule::Shift => "shift",
        Rule::BinaryOp => "binary_op",
        Rule::Unary => "unary",
        Rule::UnaryOp => "unary_op",
        Rule::AddressOfOp => "address_of_op",
        Rule::Postfix => "postfix",
        Rule::PostfixField => "postfix_field",
        Rule::Primary => "primary",
        Rule::Literal => "literal",
        Rule::Number => "number",
        Rule::Integer => "integer",
        Rule::Float => "float",
        Rule::Boolean => "boolean",
        Rule::CharLiteral => "char_literal",
        Rule::FunctionCallExpr => "function_call_expr",
        Rule::IfExpr => "if_expr",
        Rule::RangeExpr => "range_expr",
        Rule::StructInit => "struct_init",
        Rule::FieldInit => "field_init",
        Rule::ArrayLiteral => "array_literal",
        Rule::UnionInit => "union_init",
        Rule::TupleLiteral => "tuple_literal",
    }
}

/// A node of the syntax tree: what it is, its text, the bytes of the source that it covers, the
/// line and the column where it starts, and its parts.
#[derive(Debug)]
pub struct SyntaxNode {
    pub rule: Rule,
    pub text: String,
    pub start: usize,
    pub end: usize,
    pub line: usize,
    pub column: usize,
    pub children: Vec<SyntaxNode>,
}

/// The contents of a node of the syntax tree.
pub struct NodeV {
    pub rule: Rule,
    pub text: Seq<char>,
    pub start: usize,
    pub end: usize,
    pub line: usize,
    pub column: usize,
    pub children: Seq<NodeV>,
}

/// A node that stands for none.
pub open spec fn no_node() -> NodeV {
    NodeV { rule: Rule::Program, text: Seq::empty(), start: 0, end: 0, line: 0, column: 0, children: Seq::empty() }
}

/// The contents of a node of the syntax tree.
pub open spec fn syntax_v(n: SyntaxNode) -> NodeV
    decreases n,
{
    NodeV {
        rule: n.rule,
        text: n.text@,
        start: n.start,
        end: n.end,
        line: n.line,
        column: n.column,
        children: Seq::new(
            n.children@.len(),
            |i: int| if 0 <= i < n.children@.len() { syntax_v(n.children@[i]) } else { no_node() },
        ),
    }
}

impl View for SyntaxNode {
    type V = NodeV;

    open spec fn view(&self) -> NodeV {
        syntax_v(*self)
    }
}

/// The contents of a list of nodes.
pub open spec fn syntaxes_v(ns: Seq<SyntaxNode>) -> Seq<NodeV> {
    ns.map_values(|n: SyntaxNode| syntax_v(n))
}

/// How the view of a node is made up.
pub proof fn lemma_syntax_v(n: SyntaxNode)
    ensures
        syntax_v(n).children == syntaxes_v(n.children@),
        n@ == syntax_v(n),
        n@.children.len() == n.children@.len(),
        forall|i: int| 0 <= i < n.children@.len() ==> #[trigger] n@.children[i] == n.children@[i]@,
        n@.rule == n.rule,
        n@.text == n.text@,
{
    assert(syntax_v(n).children =~= syntaxes_v(n.children@));
}

/// Where a node stands in the source.
pub open spec fn span_of(n: NodeV) -> Span {
    Span {
        line: n.line,
        column: n.column,
        offset: n.start,
        length: if n.end >= n.start {
            (n.end - n.start) as usize
        } else {
            0
        },
    }
}

/// The first node of the given rule, from position `i` on.
pub open spec fn first_rule(ns: Seq<NodeV>, rule: Rule, i: int) -> Option<NodeV>
    decreases ns.len() - i,
{
    if i < 0 || i >= ns.len() {
        None
    } else if ns[i].rule == rule {
        Some(ns[i])
    } else {
        first_rule(ns, rule, i + 1)
    }
}

impl SyntaxNode {
    /// Where the node stands in the source.
    pub fn span(&self) -> (r: Span)
        ensures
            r == span_of(self@),
    {
        Span {
            line: self.line,
            column: self.column,
            offset: self.start,
            length: if self.end >= self.start {
                self.end - self.start
            } else {
                0
            },
        }
    }

    /// The first part that is of the given rule.
    pub fn find_rule(&self, rule: Rule) -> (r: Option<&SyntaxNode>)
        ensures
            match r {
                Some(n) => first_rule(self@.children, rule, 0) == Some(n@),
                None => first_rule(self@.children, rule, 0) is None,
            },
    {
        let mut i: usize = 0;
        proof {
            lemma_syntax_v(*self);
        }
        while i < self.children.len()
            invariant
                i <= self.children@.len(),
                self@.children.len() == self.children@.len(),
                forall|k: int| 0 <= k < self.children@.len() ==> #[trigger] self@.children[k] == self.children@[k]@,
                first_rule(self@.children, rule, 0) == first_rule(self@.children, rule, i as int),
            decreases self.children@.len() - i,
        {
            assert(self@.children[i as int] == self.children@[i as int]@);
            if self.children[i].rule == rule {
                return Some(&self.children[i]);
            }
            i = i + 1;
        }
        None
    }
}

} // verus!
