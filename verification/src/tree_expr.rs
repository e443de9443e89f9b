//! From the syntax tree: expressions whose parts are nodes of their own.
use crate::ast::{exprs_v, init_v, inits_v, lemma_expr_v, AssignmentOperator, BinaryOperator, Expr, ExprKind,
    ExprKindV, ExprV, FieldInit, FieldInitV, Literal, LiteralV, UnaryOperator};
use crate::error::{CompilationError, ErrorV};
use crate::escape::{unescape, unescaped};
use crate::lexer::{tokenize, tokens_of};
use crate::syntax::{lemma_syntax_v, rule_name, rule_text, span_of, syntaxes_v, NodeV, Rule, SyntaxNode};
use crate::text;
use crate::token::{toks_v, Tok, TokV};
use crate::tree_types::{bad, integer_error, integer_error_of, integer_of, no_scope, parse_error, parse_type,
    read_integer, type_of, unquote, unquoted, viewed, Parser, SourceV};
use crate::types::TypeId;
use vstd::prelude::*;

verus! {

/// The binary operator that a text spells.
pub open spec fn binary_of(s: Seq<char>) -> Option<BinaryOperator> {
    if s == "+"@ {
        Some(BinaryOperator::Add)
    } else if s == "-"@ {
        Some(BinaryOperator::Sub)
    } else if s == "*"@ {
        Some(BinaryOperator::Mul)
    } else if s == "/"@ {
        Some(BinaryOperator::Div)
    } else if s == "%"@ {
        Some(BinaryOperator::Mod)
    } else if s == "=="@ {
        Some(BinaryOperator::Eq)
    } else if s == "!="@ {
        Some(BinaryOperator::Ne)
    } else if s == "<"@ {
        Some(BinaryOperator::Lt)
    } else if s == "<="@ {
        Some(BinaryOperator::Le)
    } else if s == ">"@ {
        Some(BinaryOperator::Gt)
    } else if s == ">="@ {
        Some(BinaryOperator::Ge)
    } else if s == "&&"@ {
        Some(BinaryOperator::And)
    } else if s == "||"@ {
        Some(BinaryOperator::Or)
    } else if s == "&"@ {
        Some(BinaryOperator::BitAnd)
    } else if s == "|"@ {
        Some(BinaryOperator::BitOr)
    } else if s == "^"@ {
        Some(BinaryOperator::BitXor)
    } else if s == "<<"@ {
        Some(BinaryOperator::Shl)
    } else if s == ">>"@ {
        Some(BinaryOperator::Shr)
    } else {
        None
    }
}

fn read_binary(s: &str) -> (r: Option<BinaryOperator>)
    ensures
        r == binary_of(s@),
{
    if text::text_eq(s, "+") {
        return Some(BinaryOperator::Add);
    }
    if text::text_eq(s, "-") {
        return Some(BinaryOperator::Sub);
    }
    if text::text_eq(s, "*") {
        return Some(BinaryOperator::Mul);
    }
    if text::text_eq(s, "/") {
        return Some(BinaryOperator::Div);
    }
    if text::text_eq(s, "%") {
        return Some(BinaryOperator::Mod);
    }
    if text::text_eq(s, "==") {
        return Some(BinaryOperator::Eq);
    }
    if text::text_eq(s, "!=") {
        return Some(BinaryOperator::Ne);
    }
    if text::text_eq(s, "<") {
        return Some(BinaryOperator::Lt);
    }
    if text::text_eq(s, "<=") {
        return Some(BinaryOperator::Le);
    }
    if text::text_eq(s, ">") {
        return Some(BinaryOperator::Gt);
    }
    if text::text_eq(s, ">=") {
        return Some(BinaryOperator::Ge);
    }
    if text::text_eq(s, "&&") {
        return Some(BinaryOperator::And);
    }
    if text::text_eq(s, "||") {
        return Some(BinaryOperator::Or);
    }
    if text::text_eq(s, "&") {
        return Some(BinaryOperator::BitAnd);
    }
    if text::text_eq(s, "|") {
        return Some(BinaryOperator::BitOr);
    }
    if text::text_eq(s, "^") {
        return Some(BinaryOperator::BitXor);
    }
    if text::text_eq(s, "<<") {
        return Some(BinaryOperator::Shl);
    }
    if text::text_eq(s, ">>") {
        return Some(BinaryOperator::Shr);
    }
    None
}

/// The assignment operator that a text spells.
pub open spec fn assignment_of(s: Seq<char>) -> Option<AssignmentOperator> {
    if s == "="@ {
        Some(AssignmentOperator::Assign)
    } else if s == "+="@ {
        Some(AssignmentOperator::AddAssign)
    } else if s == "-="@ {
        Some(AssignmentOperator::SubAssign)
    } else if s == "*="@ {
        Some(AssignmentOperator::MulAssign)
    } else if s == "/="@ {
        Some(AssignmentOperator::DivAssign)
    } else if s == "%="@ {
        Some(AssignmentOperator::ModAssign)
    } else if s == "&="@ {
        Some(AssignmentOperator::AndAssign)
    } else if s == "|="@ {
        Some(AssignmentOperator::OrAssign)
    } else if s == "^="@ {
        Some(AssignmentOperator::XorAssign)
    } else if s == "<<="@ {
        Some(AssignmentOperator::ShlAssign)
    } else if s == ">>="@ {
        Some(AssignmentOperator::ShrAssign)
    } else {
        None
    }
}

fn read_assignment(s: &str) -> (r: Option<AssignmentOperator>)
    ensures
        r == assignment_of(s@),
{
    if text::text_eq(s, "=") {
        return Some(AssignmentOperator::Assign);
    }
    if text::text_eq(s, "+=") {
        return Some(AssignmentOperator::AddAssign);
    }
    if text::text_eq(s, "-=") {
        return Some(AssignmentOperator::SubAssign);
    }
    if text::text_eq(s, "*=") {
        return Some(AssignmentOperator::MulAssign);
    }
    if text::text_eq(s, "/=") {
        return Some(AssignmentOperator::DivAssign);
    }
    if text::text_eq(s, "%=") {
        return Some(AssignmentOperator::ModAssign);
    }
    if text::text_eq(s, "&=") {
        return Some(AssignmentOperator::AndAssign);
    }
    if text::text_eq(s, "|=") {
        return Some(AssignmentOperator::OrAssign);
    }
    if text::text_eq(s, "^=") {
        return Some(AssignmentOperator::XorAssign);
    }
    if text::text_eq(s, "<<=") {
        return Some(AssignmentOperator::ShlAssign);
    }
    if text::text_eq(s, ">>=") {
        return Some(AssignmentOperator::ShrAssign);
    }
    None
}

/// The prefix operator that a text spells.
pub open spec fn unary_of(s: Seq<char>) -> Option<UnaryOperator> {
    if s == "!"@ {
        Some(UnaryOperator::Not)
    } else if s == "-"@ {
        Some(UnaryOperator::Neg)
    } else if s == "*"@ {
        Some(UnaryOperator::Dereference)
    } else if s == "&"@ {
        Some(UnaryOperator::AddressOf)
    } else if s == "~"@ {
        Some(UnaryOperator::BitNot)
    } else if s == "++"@ {
        Some(UnaryOperator::PreIncrement)
    } else if s == "--"@ {
        Some(UnaryOperator::PreDecrement)
    } else {
        None
    }
}

fn read_unary(s: &str) -> (r: Option<UnaryOperator>)
    ensures
        r == unary_of(s@),
{
    if text::text_eq(s, "!") {
        return Some(UnaryOperator::Not);
    }
    if text::text_eq(s, "-") {
        return Some(UnaryOperator::Neg);
    }
    if text::text_eq(s, "*") {
        return Some(UnaryOperator::Dereference);
    }
    if text::text_eq(s, "&") {
        return Some(UnaryOperator::AddressOf);
    }
    if text::text_eq(s, "~") {
        return Some(UnaryOperator::BitNot);
    }
    if text::text_eq(s, "++") {
        return Some(UnaryOperator::PreIncrement);
    }
    if text::text_eq(s, "--") {
        return Some(UnaryOperator::PreDecrement);
    }
    None
}

/// An expression at the place of a node, without a type.
pub open spec fn at_node(kind: ExprKindV, n: NodeV) -> ExprV {
    ExprV { kind, ty: TypeId(0), span: span_of(n) }
}

/// A literal at the place of a node.
pub open spec fn literal_at(l: LiteralV, n: NodeV) -> ExprV {
    at_node(ExprKindV::Literal { value: l }, n)
}

/// The truth value that a text spells.
pub open spec fn bool_of(n: NodeV, s: Seq<char>) -> Result<ExprV, ErrorV> {
    if s == "true"@ {
        Ok(literal_at(LiteralV::Bool(true), n))
    } else if s == "false"@ {
        Ok(literal_at(LiteralV::Bool(false), n))
    } else {
        Err(bad("invalid boolean literal: "@ + s))
    }
}

/// Why a text is no decimal fraction.
pub open spec fn float_error_of(s: Seq<char>) -> Seq<char> {
    if s.len() == 0 {
        "ParseFloatError { kind: Empty }"@
    } else {
        "ParseFloatError { kind: Invalid }"@
    }
}

fn float_error(s: &str) -> (r: &'static str)
    ensures
        r@ == float_error_of(s@),
{
    if s.is_empty() {
        "ParseFloatError { kind: Empty }"
    } else {
        "ParseFloatError { kind: Invalid }"
    }
}

/// The number that a node spells.
pub open spec fn number_of(n: NodeV) -> Result<ExprV, ErrorV> {
    if n.children.len() == 0 {
        Err(bad("Unexpected number type"@))
    } else {
        let k = n.children[0];
        if k.rule == Rule::Integer {
            match integer_of(k.text) {
                Some(i) => Ok(literal_at(LiteralV::Int(i), n)),
                None => Err(bad("invalid integer literal '"@ + k.text + "': "@ + integer_error_of(k.text))),
            }
        } else if k.rule == Rule::Float {
            match float_of(k.text) {
                Some(f) => Ok(literal_at(LiteralV::Float(f), n)),
                None => Err(bad("invalid float literal '"@ + k.text + "': "@ + float_error_of(k.text))),
            }
        } else {
            Err(bad("Unexpected number type"@))
        }
    }
}

/// The decimal fraction that a text spells.
pub open spec fn float_of(s: Seq<char>) -> Option<Seq<char>> {
    match tokens_of(s) {
        Ok(ts) => if ts.len() == 1 {
            match ts[0] {
                TokV::FloatLit(f) => Some(f),
                _ => None,
            }
        } else {
            None
        },
        Err(_) => None,
    }
}

/// The literal that a node spells.
pub open spec fn literal_of(n: NodeV) -> Result<ExprV, ErrorV> {
    if n.children.len() == 0 {
        Err(bad("literal is empty"@))
    } else {
        let k = n.children[0];
        if k.rule == Rule::Number {
            number_of(k)
        } else if k.rule == Rule::Boolean {
            bool_of(k, k.text)
        } else {
            Err(bad("Unexpected literal type: "@ + rule_text(k.rule)))
        }
    }
}

/// The string that a node spells: without its quotes, and with its escapes replaced.
pub open spec fn string_of_node(n: NodeV) -> ExprV {
    literal_at(
        LiteralV::String(
            match unescaped(unquoted(n.text)) {
                Some(s) => s,
                None => unquoted(n.text),
            },
        ),
        n,
    )
}

/// Whether a node is one of a chain of binary operators.
pub open spec fn is_chain(r: Rule) -> bool {
    r is LogicalOr || r is LogicalAnd || r is Equality || r is Comparison || r is Additive || r is Multiplicative
        || r is BitwiseOr || r is BitwiseXor || r is BitwiseAnd || r is Shift
}

/// Whether a node is one of those that stand for themselves inside a primary expression.
pub open spec fn is_nested(r: Rule) -> bool {
    r is Literal || r is FunctionCallExpr || r is ArrayLiteral || r is StructInit || r is UnionInit || r is TupleLiteral
        || r is IfExpr || r is RangeExpr || r is String || r is Expr || r is Unary
}

/// The keyword that a primary expression without parts spells.
pub open spec fn keyword_of(n: NodeV) -> Result<ExprV, ErrorV> {
    if n.text == "null"@ {
        Ok(literal_at(LiteralV::Null, n))
    } else if n.text == "true"@ || n.text == "false"@ {
        bool_of(n, n.text)
    } else {
        Err(bad("Unknown primary keyword: "@ + n.text))
    }
}

/// The error for a node that lacks a part.
pub open spec fn lacks_part(n: NodeV) -> ErrorV {
    bad("missing part in "@ + rule_text(n.rule))
}

/// The expression that a tree stands for.
pub open spec fn tree_expr(src: SourceV, n: NodeV) -> Result<ExprV, ErrorV>
    decreases n, 1int,
{
    if n.rule is Identifier {
        Ok(at_node(ExprKindV::Identifier { name: n.text }, n))
    } else if n.rule is String {
        Ok(string_of_node(n))
    } else if n.rule is Literal {
        literal_of(n)
    } else if n.rule is Primary {
        if n.children.len() == 0 {
            keyword_of(n)
        } else if n.children[0].rule is Identifier {
            Ok(at_node(ExprKindV::Identifier { name: n.children[0].text }, n.children[0]))
        } else if is_nested(n.children[0].rule) {
            tree_expr(src, n.children[0])
        } else {
            Err(bad("Unexpected primary inner rule: "@ + rule_text(n.children[0].rule)))
        }
    } else if n.rule is Expr {
        if n.children.len() == 0 {
            Err(lacks_part(n))
        } else {
            tree_expr(src, n.children[0])
        }
    } else if n.rule is Assign {
        if n.children.len() == 0 {
            Err(lacks_part(n))
        } else {
            match tree_expr(src, n.children[0]) {
                Err(e) => Err(e),
                Ok(left) => if n.children.len() < 2 {
                    Ok(left)
                } else if n.children.len() < 3 {
                    Err(lacks_part(n))
                } else {
                    match assignment_of(n.children[1].text) {
                        None => Err(bad("invalid assignment operator: "@ + n.children[1].text)),
                        Some(op) => match tree_expr(src, n.children[2]) {
                            Err(e) => Err(e),
                            Ok(right) => Ok(
                                at_node(
                                    ExprKindV::Assign { op, left: Box::new(left), right: Box::new(right) },
                                    n,
                                ),
                            ),
                        },
                    }
                },
            }
        }
    } else if is_chain(n.rule) {
        if n.children.len() == 0 {
            Err(lacks_part(n))
        } else {
            match tree_expr(src, n.children[0]) {
                Err(e) => Err(e),
                Ok(left) => chain_of(src, n, n.children, 1, left),
            }
        }
    } else if n.rule is Unary {
        if n.children.len() == 0 {
            Err(lacks_part(n))
        } else if n.children[0].rule is Postfix || n.children[0].rule is Primary {
            tree_expr(src, n.children[0])
        } else if n.children[0].rule is UnaryOp || n.children[0].rule is AddressOfOp {
            match (if n.children[0].rule is AddressOfOp {
                Some(UnaryOperator::AddressOf)
            } else {
                unary_of(n.children[0].text)
            }) {
                None => Err(bad("invalid unary operation: "@ + n.children[0].text)),
                Some(op) => if n.children.len() < 2 {
                    Err(lacks_part(n))
                } else {
                    match tree_expr(src, n.children[1]) {
                        Err(e) => Err(e),
                        Ok(x) => Ok(at_node(ExprKindV::UnaryOp { op, expr: Box::new(x) }, n)),
                    }
                },
            }
        } else {
            Err(bad("Unexpected rule in unary: "@ + rule_text(n.children[0].rule)))
        }
    } else if n.rule is FunctionCallExpr {
        if n.children.len() == 0 {
            Err(lacks_part(n))
        } else {
            match args_of(src, n.children, 1, Seq::empty()) {
                Err(e) => Err(e),
                Ok(args) => Ok(
                    at_node(
                        ExprKindV::Call {
                            callee: Box::new(
                                at_node(ExprKindV::Identifier { name: n.children[0].text }, n.children[0]),
                            ),
                            args,
                        },
                        n,
                    ),
                ),
            }
        }
    } else if n.rule is IfExpr {
        if n.children.len() < 3 {
            Err(lacks_part(n))
        } else {
            match tree_expr(src, n.children[0]) {
                Err(e) => Err(e),
                Ok(c) => match tree_expr(src, n.children[1]) {
                    Err(e) => Err(e),
                    Ok(a) => match tree_expr(src, n.children[2]) {
                        Err(e) => Err(e),
                        Ok(b) => Ok(
                            at_node(
                                ExprKindV::If {
                                    cond: Box::new(c),
                                    then_branch: Box::new(a),
                                    else_branch: Box::new(b),
                                },
                                n,
                            ),
                        ),
                    },
                },
            }
        }
    } else if n.rule is Postfix {
        if n.children.len() == 0 {
            Err(lacks_part(n))
        } else {
            match tree_expr(src, n.children[0]) {
                Err(e) => Err(e),
                Ok(x) => fields_of(n, n.children, 1, x),
            }
        }
    } else if n.rule is StructInit {
        if n.children.len() == 0 {
            Err(lacks_part(n))
        } else {
            match type_of(src, n.children[0], Seq::empty()) {
                Err(e) => Err(e),
                Ok(t) => match inits_of(src, n.children, 1, Seq::empty()) {
                    Err(e) => Err(e),
                    Ok(fields) => Ok(at_node(ExprKindV::StructInit { struct_type: Some(t), fields }, n)),
                },
            }
        }
    } else if n.rule is RangeExpr {
        if n.children.len() < 2 {
            Err(lacks_part(n))
        } else {
            match tree_expr(src, n.children[0]) {
                Err(e) => Err(e),
                Ok(a) => match tree_expr(src, n.children[1]) {
                    Err(e) => Err(e),
                    Ok(b) => Ok(at_node(ExprKindV::RangeLiteral { start: Box::new(a), end: Box::new(b) }, n)),
                },
            }
        }
    } else {
        Err(bad("Unexpected expr rule: "@ + rule_text(n.rule)))
    }
}

/// A chain of binary operators, from the operator at position `i` on: operators of one chain
/// bind to the left.
pub open spec fn chain_of(src: SourceV, n: NodeV, ns: Seq<NodeV>, i: int, left: ExprV) -> Result<ExprV, ErrorV>
    decreases ns, ns.len() - i,
    when 0 <= i
{
    if i >= ns.len() {
        Ok(left)
    } else {
        match binary_of(ns[i].text) {
            None => Err(bad("invalid binary operator: "@ + ns[i].text)),
            Some(op) => if i + 1 >= ns.len() {
                Err(lacks_part(n))
            } else {
                match tree_expr(src, ns[i + 1]) {
                    Err(e) => Err(e),
                    Ok(right) => chain_of(
                        src,
                        n,
                        ns,
                        i + 2,
                        at_node(ExprKindV::BinaryOp { op, left: Box::new(left), right: Box::new(right) }, n),
                    ),
                }
            },
        }
    }
}

/// The arguments of a call from position `i` on, appended to `acc`.
pub open spec fn args_of(src: SourceV, ns: Seq<NodeV>, i: int, acc: Seq<ExprV>) -> Result<Seq<ExprV>, ErrorV>
    decreases ns, ns.len() - i,
    when 0 <= i
{
    if i >= ns.len() {
        Ok(acc)
    } else if ns[i].rule is Expr {
        match tree_expr(src, ns[i]) {
            Ok(x) => args_of(src, ns, i + 1, acc.push(x)),
            Err(e) => Err(e),
        }
    } else {
        args_of(src, ns, i + 1, acc)
    }
}

/// The accesses to fields from position `i` on.
pub open spec fn fields_of(n: NodeV, ns: Seq<NodeV>, i: int, x: ExprV) -> Result<ExprV, ErrorV>
    decreases ns, ns.len() - i,
    when 0 <= i
{
    if i >= ns.len() {
        Ok(x)
    } else if ns[i].rule is PostfixField {
        if ns[i].children.len() == 0 {
            Err(bad("Expected field name after '.'"@))
        } else {
            fields_of(
                n,
                ns,
                i + 1,
                at_node(ExprKindV::FieldAccess { expr: Box::new(x), field_name: ns[i].children[0].text }, n),
            )
        }
    } else {
        fields_of(n, ns, i + 1, x)
    }
}

/// The field values of a struct value from position `i` on, appended to `acc`.
pub open spec fn inits_of(src: SourceV, ns: Seq<NodeV>, i: int, acc: Seq<FieldInitV>) -> Result<Seq<FieldInitV>, ErrorV>
    decreases ns, ns.len() - i,
    when 0 <= i
{
    if i >= ns.len() {
        Ok(acc)
    } else if ns[i].rule is FieldInit {
        if ns[i].children.len() < 2 {
            Err(lacks_part(ns[i]))
        } else {
            match tree_expr(src, ns[i].children[1]) {
                Ok(value) => inits_of(src, ns, i + 1, acc.push(FieldInitV { name: ns[i].children[0].text, value })),
                Err(e) => Err(e),
            }
        }
    } else {
        inits_of(src, ns, i + 1, acc)
    }
}

/// The contents of expressions, or of an error.
pub open spec fn exprs_result(r: Result<Vec<Expr>, CompilationError>) -> Result<Seq<ExprV>, ErrorV> {
    match r {
        Ok(v) => Ok(exprs_v(v@)),
        Err(e) => Err(e@),
    }
}

/// The contents of field values, or of an error.
pub open spec fn inits_result(r: Result<Vec<FieldInit>, CompilationError>) -> Result<Seq<FieldInitV>, ErrorV> {
    match r {
        Ok(v) => Ok(inits_v(v@)),
        Err(e) => Err(e@),
    }
}

fn placed(kind: ExprKind, n: &SyntaxNode) -> (r: Expr)
    ensures
        r.kind == kind,
        r.ty == TypeId(0),
        r.span == span_of(n@),
{
    Expr { kind, ty: TypeId(0), span: n.span() }
}

fn identifier_node(n: &SyntaxNode) -> (r: Expr)
    ensures
        r@ == at_node(ExprKindV::Identifier { name: n@.text }, n@),
{
    proof {
        lemma_syntax_v(*n);
    }
    placed(ExprKind::Identifier { name: n.text.clone() }, n)
}

fn literal_node(l: Literal, n: &SyntaxNode) -> (r: Expr)
    ensures
        r@ == literal_at(l@, n@),
{
    placed(ExprKind::Literal { value: l }, n)
}

fn lacking(n: &SyntaxNode) -> (r: CompilationError)
    ensures
        r@ == lacks_part(n@),
{
    proof {
        lemma_syntax_v(*n);
    }
    parse_error("missing part in ".to_owned().concat(rule_name(n.rule)).as_str())
}

fn parse_bool_literal(n: &SyntaxNode, s: &str) -> (r: Result<Expr, CompilationError>)
    ensures
        viewed(r) == bool_of(n@, s@),
{
    if text::text_eq(s, "true") {
        Ok(literal_node(Literal::Bool(true), n))
    } else if text::text_eq(s, "false") {
        Ok(literal_node(Literal::Bool(false), n))
    } else {
        Err(parse_error("invalid boolean literal: ".to_owned().concat(s).as_str()))
    }
}

fn read_float(s: &str) -> (r: Option<String>)
    ensures
        crate::escape::opt_text(r) == float_of(s@),
{
    match tokenize(s) {
        Ok(ts) => {
            proof {
                assert(toks_v(ts@).len() == ts@.len());
            }
            if ts.len() == 1 {
                assert(toks_v(ts@)[0] == ts@[0].kind@);
                match &ts[0].kind {
                    Tok::FloatLit(f) => Some(f.clone()),
                    _ => None,
                }
            } else {
                None
            }
        },
        Err(_) => None,
    }
}

fn parse_number(n: &SyntaxNode) -> (r: Result<Expr, CompilationError>)
    ensures
        viewed(r) == number_of(n@),
{
    proof {
        lemma_syntax_v(*n);
    }
    if n.children.len() == 0 {
        return Err(parse_error("Unexpected number type"));
    }
    let k = &n.children[0];
    proof {
        assert(n@.children[0] == k@);
        lemma_syntax_v(*k);
    }
    if k.rule == Rule::Integer {
        match read_integer(k.text.as_str()) {
            Some(i) => Ok(literal_node(Literal::Int(i), n)),
            None => Err(
                parse_error(
                    "invalid integer literal '".to_owned().concat(k.text.as_str()).concat("': ").concat(
                        integer_error(k.text.as_str()),
                    ).as_str(),
                ),
            ),
        }
    } else if k.rule == Rule::Float {
        match read_float(k.text.as_str()) {
            Some(f) => Ok(literal_node(Literal::Float(f), n)),
            None => Err(
                parse_error(
                    "invalid float literal '".to_owned().concat(k.text.as_str()).concat("': ").concat(
                        float_error(k.text.as_str()),
                    ).as_str(),
                ),
            ),
        }
    } else {
        Err(parse_error("Unexpected number type"))
    }
}

fn parse_literal(n: &SyntaxNode) -> (r: Result<Expr, CompilationError>)
    ensures
        viewed(r) == literal_of(n@),
{
    proof {
        lemma_syntax_v(*n);
    }
    if n.children.len() == 0 {
        return Err(parse_error("literal is empty"));
    }
    let k = &n.children[0];
    proof {
        assert(n@.children[0] == k@);
        lemma_syntax_v(*k);
    }
    if k.rule == Rule::Number {
        parse_number(k)
    } else if k.rule == Rule::Boolean {
        parse_bool_literal(k, k.text.as_str())
    } else {
        Err(parse_error("Unexpected literal type: ".to_owned().concat(rule_name(k.rule)).as_str()))
    }
}

fn parse_string(n: &SyntaxNode) -> (r: Expr)
    ensures
        r@ == string_of_node(n@),
{
    proof {
        lemma_syntax_v(*n);
    }
    let inner = unquote(n.text.as_str());
    let s = match unescape(inner.as_str()) {
        Some(s) => s,
        None => inner,
    };
    literal_node(Literal::String(s), n)
}

fn parse_keyword(n: &SyntaxNode) -> (r: Result<Expr, CompilationError>)
    ensures
        viewed(r) == keyword_of(n@),
{
    proof {
        lemma_syntax_v(*n);
    }
    let s = n.text.as_str();
    if text::text_eq(s, "null") {
        Ok(literal_node(Literal::Null, n))
    } else if text::text_eq(s, "true") || text::text_eq(s, "false") {
        parse_bool_literal(n, s)
    } else {
        Err(parse_error("Unknown primary keyword: ".to_owned().concat(s).as_str()))
    }
}

fn chains(r: Rule) -> (b: bool)
    ensures
        b == is_chain(r),
{
    match r {
        Rule::LogicalOr | Rule::LogicalAnd | Rule::Equality | Rule::Comparison | Rule::Additive | Rule::Multiplicative
        | Rule::BitwiseOr | Rule::BitwiseXor | Rule::BitwiseAnd | Rule::Shift => true,
        _ => false,
    }
}

fn nests(r: Rule) -> (b: bool)
    ensures
        b == is_nested(r),
{
    match r {
        Rule::Literal | Rule::FunctionCallExpr | Rule::ArrayLiteral | Rule::StructInit | Rule::UnionInit
        | Rule::TupleLiteral | Rule::IfExpr | Rule::RangeExpr | Rule::String | Rule::Expr | Rule::Unary => true,
        _ => false,
    }
}

/// Reads the expression that a tree stands for.
pub fn parse_expr(parser: &Parser, n: &SyntaxNode) -> (r: Result<Expr, CompilationError>)
    ensures
        viewed(r) == tree_expr(parser@, n@),
    decreases *n, 2int,
{
    proof {
        lemma_syntax_v(*n);
    }
    let k: usize = n.children.len();
    match n.rule {
        Rule::Identifier => Ok(identifier_node(n)),
        Rule::String => Ok(parse_string(n)),
        Rule::Literal => parse_literal(n),
        Rule::Primary => {
            if k == 0 {
                return parse_keyword(n);
            }
            proof {
                assert(n@.children[0] == n.children@[0]@);
                lemma_syntax_v(n.children@[0]);
            }
            let c = &n.children[0];
            if c.rule == Rule::Identifier {
                Ok(identifier_node(c))
            } else if nests(c.rule) {
                parse_expr(parser, c)
            } else {
                Err(
                    parse_error(
                        "Unexpected primary inner rule: ".to_owned().concat(rule_name(c.rule)).as_str(),
                    ),
                )
            }
        },
        Rule::Expr => {
            if k == 0 {
                return Err(lacking(n));
            }
            assert(n@.children[0] == n.children@[0]@);
            parse_expr(parser, &n.children[0])
        },
        Rule::Assign => parse_assign_expr(parser, n),
        Rule::Unary => parse_unary(parser, n),
        Rule::FunctionCallExpr => parse_call(parser, n),
        Rule::IfExpr => parse_if_expr(parser, n),
        Rule::Postfix => {
            if k == 0 {
                return Err(lacking(n));
            }
            assert(n@.children[0] == n.children@[0]@);
            match parse_expr(parser, &n.children[0]) {
                Err(e) => Err(e),
                Ok(x) => parse_fields(n, x),
            }
        },
        Rule::StructInit => parse_struct_init(parser, n),
        Rule::RangeExpr => parse_range(parser, n),
        _ => if chains(n.rule) {
            if k == 0 {
                return Err(lacking(n));
            }
            assert(n@.children[0] == n.children@[0]@);
            match parse_expr(parser, &n.children[0]) {
                Err(e) => Err(e),
                Ok(left) => parse_chain(parser, n, &n.children, left),
            }
        } else {
            Err(parse_error("Unexpected expr rule: ".to_owned().concat(rule_name(n.rule)).as_str()))
        },
    }
}

fn parse_assign_expr(parser: &Parser, n: &SyntaxNode) -> (r: Result<Expr, CompilationError>)
    requires
        n@.rule is Assign,
    ensures
        viewed(r) == tree_expr(parser@, n@),
    decreases *n, 1int,
{
    proof {
        lemma_syntax_v(*n);
    }
    if n.children.len() == 0 {
        return Err(lacking(n));
    }
    assert(n@.children[0] == n.children@[0]@);
    let left = match parse_expr(parser, &n.children[0]) {
        Err(e) => return Err(e),
        Ok(x) => x,
    };
    if n.children.len() < 2 {
        return Ok(left);
    }
    if n.children.len() < 3 {
        return Err(lacking(n));
    }
    proof {
        assert(n@.children[1] == n.children@[1]@);
        assert(n@.children[2] == n.children@[2]@);
        lemma_syntax_v(n.children@[1]);
    }
    let op = match read_assignment(n.children[1].text.as_str()) {
        None => return Err(
            parse_error("invalid assignment operator: ".to_owned().concat(n.children[1].text.as_str()).as_str()),
        ),
        Some(op) => op,
    };
    match parse_expr(parser, &n.children[2]) {
        Err(e) => Err(e),
        Ok(right) => Ok(
            placed(ExprKind::Assign { op, left: Box::new(left), right: Box::new(right) }, n),
        ),
    }
}

fn parse_unary(parser: &Parser, n: &SyntaxNode) -> (r: Result<Expr, CompilationError>)
    requires
        n@.rule is Unary,
    ensures
        viewed(r) == tree_expr(parser@, n@),
    decreases *n, 1int,
{
    proof {
        lemma_syntax_v(*n);
    }
    if n.children.len() == 0 {
        return Err(lacking(n));
    }
    let c = &n.children[0];
    proof {
        assert(n@.children[0] == c@);
        lemma_syntax_v(*c);
    }
    let op = match c.rule {
        Rule::Postfix | Rule::Primary => {
            return parse_expr(parser, c);
        },
        Rule::AddressOfOp => UnaryOperator::AddressOf,
        Rule::UnaryOp => match read_unary(c.text.as_str()) {
            None => return Err(
                parse_error("invalid unary operation: ".to_owned().concat(c.text.as_str()).as_str()),
            ),
            Some(op) => op,
        },
        _ => return Err(
            parse_error("Unexpected rule in unary: ".to_owned().concat(rule_name(c.rule)).as_str()),
        ),
    };
    if n.children.len() < 2 {
        return Err(lacking(n));
    }
    assert(n@.children[1] == n.children@[1]@);
    match parse_expr(parser, &n.children[1]) {
        Err(e) => Err(e),
        Ok(x) => Ok(placed(ExprKind::UnaryOp { op, expr: Box::new(x) }, n)),
    }
}

fn parse_call(parser: &Parser, n: &SyntaxNode) -> (r: Result<Expr, CompilationError>)
    requires
        n@.rule is FunctionCallExpr,
    ensures
        viewed(r) == tree_expr(parser@, n@),
    decreases *n, 1int,
{
    broadcast use lemma_expr_v;

    proof {
        lemma_syntax_v(*n);
    }
    if n.children.len() == 0 {
        return Err(lacking(n));
    }
    assert(n@.children[0] == n.children@[0]@);
    let callee = identifier_node(&n.children[0]);
    match parse_args(parser, &n.children) {
        Err(e) => Err(e),
        Ok(args) => Ok(placed(ExprKind::Call { callee: Box::new(callee), args }, n)),
    }
}

fn parse_if_expr(parser: &Parser, n: &SyntaxNode) -> (r: Result<Expr, CompilationError>)
    requires
        n@.rule is IfExpr,
    ensures
        viewed(r) == tree_expr(parser@, n@),
    decreases *n, 1int,
{
    proof {
        lemma_syntax_v(*n);
    }
    if n.children.len() < 3 {
        return Err(lacking(n));
    }
    proof {
        assert(n@.children[0] == n.children@[0]@);
        assert(n@.children[1] == n.children@[1]@);
        assert(n@.children[2] == n.children@[2]@);
    }
    let c = match parse_expr(parser, &n.children[0]) {
        Err(e) => return Err(e),
        Ok(x) => x,
    };
    let a = match parse_expr(parser, &n.children[1]) {
        Err(e) => return Err(e),
        Ok(x) => x,
    };
    match parse_expr(parser, &n.children[2]) {
        Err(e) => Err(e),
        Ok(b) => Ok(
            placed(
                ExprKind::If { cond: Box::new(c), then_branch: Box::new(a), else_branch: Box::new(b) },
                n,
            ),
        ),
    }
}

fn parse_range(parser: &Parser, n: &SyntaxNode) -> (r: Result<Expr, CompilationError>)
    requires
        n@.rule is RangeExpr,
    ensures
        viewed(r) == tree_expr(parser@, n@),
    decreases *n, 1int,
{
    proof {
        lemma_syntax_v(*n);
    }
    if n.children.len() < 2 {
        return Err(lacking(n));
    }
    proof {
        assert(n@.children[0] == n.children@[0]@);
        assert(n@.children[1] == n.children@[1]@);
    }
    let a = match parse_expr(parser, &n.children[0]) {
        Err(e) => return Err(e),
        Ok(x) => x,
    };
    match parse_expr(parser, &n.children[1]) {
        Err(e) => Err(e),
        Ok(b) => Ok(placed(ExprKind::RangeLiteral { start: Box::new(a), end: Box::new(b) }, n)),
    }
}

fn parse_struct_init(parser: &Parser, n: &SyntaxNode) -> (r: Result<Expr, CompilationError>)
    requires
        n@.rule is StructInit,
    ensures
        viewed(r) == tree_expr(parser@, n@),
    decreases *n, 1int,
{
    broadcast use lemma_expr_v;

    proof {
        lemma_syntax_v(*n);
    }
    if n.children.len() == 0 {
        return Err(lacking(n));
    }
    assert(n@.children[0] == n.children@[0]@);
    let t = match parse_type(parser, &n.children[0], &no_scope()) {
        Err(e) => return Err(e),
        Ok(t) => t,
    };
    match parse_inits(parser, &n.children) {
        Err(e) => Err(e),
        Ok(fields) => Ok(placed(ExprKind::StructInit { struct_type: Some(t), fields }, n)),
    }
}

fn parse_chain(parser: &Parser, n: &SyntaxNode, ns: &Vec<SyntaxNode>, left: Expr) -> (r: Result<Expr, CompilationError>)
    ensures
        viewed(r) == chain_of(parser@, n@, syntaxes_v(ns@), 1, left@),
    decreases *ns, 0int,
{
    let ghost cs = syntaxes_v(ns@);
    let ghost l0 = left@;
    let mut acc = left;
    let mut i: usize = 1;
    while i < ns.len()
        invariant
            1 <= i,
            cs == syntaxes_v(ns@),
            l0 == left@,
            chain_of(parser@, n@, cs, 1, l0) == chain_of(parser@, n@, cs, i as int, acc@),
        decreases ns@.len() - i,
    {
        proof {
            assert(cs[i as int] == ns@[i as int]@);
            lemma_syntax_v(ns@[i as int]);
        }
        let op = match read_binary(ns[i].text.as_str()) {
            None => return Err(
                parse_error("invalid binary operator: ".to_owned().concat(ns[i].text.as_str()).as_str()),
            ),
            Some(op) => op,
        };
        if i + 1 >= ns.len() {
            return Err(lacking(n));
        }
        assert(cs[i + 1] == ns@[i + 1]@);
        match parse_expr(parser, &ns[i + 1]) {
            Err(e) => return Err(e),
            Ok(right) => {
                acc = placed(ExprKind::BinaryOp { op, left: Box::new(acc), right: Box::new(right) }, n);
            },
        }
        i = i + 2;
    }
    Ok(acc)
}

fn parse_args(parser: &Parser, ns: &Vec<SyntaxNode>) -> (r: Result<Vec<Expr>, CompilationError>)
    ensures
        exprs_result(r) == args_of(parser@, syntaxes_v(ns@), 1, Seq::empty()),
    decreases *ns, 0int,
{
    let ghost cs = syntaxes_v(ns@);
    let mut out: Vec<Expr> = Vec::new();
    let mut i: usize = 1;
    proof {
        assert(exprs_v(out@) =~= Seq::<ExprV>::empty());
    }
    while i < ns.len()
        invariant
            1 <= i,
            cs == syntaxes_v(ns@),
            args_of(parser@, cs, 1, Seq::empty()) == args_of(parser@, cs, i as int, exprs_v(out@)),
        decreases ns@.len() - i,
    {
        proof {
            assert(cs[i as int] == ns@[i as int]@);
            lemma_syntax_v(ns@[i as int]);
        }
        if ns[i].rule == Rule::Expr {
            match parse_expr(parser, &ns[i]) {
                Err(e) => return Err(e),
                Ok(x) => {
                    proof {
                        assert(exprs_v(out@.push(x)) =~= exprs_v(out@).push(x@));
                    }
                    out.push(x);
                },
            }
        }
        i = i + 1;
    }
    Ok(out)
}

fn parse_fields(n: &SyntaxNode, x: Expr) -> (r: Result<Expr, CompilationError>)
    ensures
        viewed(r) == fields_of(n@, n@.children, 1, x@),
{
    proof {
        lemma_syntax_v(*n);
    }
    let ghost cs = n@.children;
    let ghost x0 = x@;
    let mut acc = x;
    let mut i: usize = 1;
    while i < n.children.len()
        invariant
            1 <= i,
            cs == n@.children,
            cs.len() == n.children@.len(),
            forall|k: int| 0 <= k < n.children@.len() ==> #[trigger] cs[k] == n.children@[k]@,
            x0 == x@,
            fields_of(n@, cs, 1, x0) == fields_of(n@, cs, i as int, acc@),
        decreases n.children@.len() - i,
    {
        let c = &n.children[i];
        proof {
            assert(cs[i as int] == c@);
            lemma_syntax_v(*c);
        }
        if c.rule == Rule::PostfixField {
            if c.children.len() == 0 {
                return Err(parse_error("Expected field name after '.'"));
            }
            proof {
                assert(c@.children[0] == c.children@[0]@);
                lemma_syntax_v(c.children@[0]);
            }
            let field_name = c.children[0].text.clone();
            acc = placed(ExprKind::FieldAccess { expr: Box::new(acc), field_name }, n);
        }
        i = i + 1;
    }
    Ok(acc)
}

fn parse_inits(parser: &Parser, ns: &Vec<SyntaxNode>) -> (r: Result<Vec<FieldInit>, CompilationError>)
    ensures
        inits_result(r) == inits_of(parser@, syntaxes_v(ns@), 1, Seq::empty()),
    decreases *ns, 0int,
{
    let ghost cs = syntaxes_v(ns@);
    let mut out: Vec<FieldInit> = Vec::new();
    let mut i: usize = 1;
    proof {
        assert(inits_v(out@) =~= Seq::<FieldInitV>::empty());
    }
    while i < ns.len()
        invariant
            1 <= i,
            cs == syntaxes_v(ns@),
            inits_of(parser@, cs, 1, Seq::empty()) == inits_of(parser@, cs, i as int, inits_v(out@)),
        decreases ns@.len() - i,
    {
        let c = &ns[i];
        proof {
            assert(cs[i as int] == c@);
            lemma_syntax_v(*c);
        }
        if c.rule == Rule::FieldInit {
            if c.children.len() < 2 {
                return Err(lacking(c));
            }
            proof {
                assert(c@.children[0] == c.children@[0]@);
                assert(c@.children[1] == c.children@[1]@);
                lemma_syntax_v(c.children@[0]);
            }
            match parse_expr(parser, &c.children[1]) {
                Err(e) => return Err(e),
                Ok(value) => {
                    let f = FieldInit { name: c.children[0].text.clone(), value };
                    proof {
                        assert(inits_v(out@.push(f)) =~= inits_v(out@).push(init_v(f)));
                    }
                    out.push(f);
                },
            }
        }
        i = i + 1;
    }
    Ok(out)
}

} // verus!
