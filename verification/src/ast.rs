//! The syntax tree of Kit programs.
use crate::types::{copy_opt_type, opt_type_v, Type, TypeId, TypeV};
use vstd::prelude::*;

verus! {

/// A range in a source text.
#[derive(Clone, Copy, Debug, PartialEq, Eq, Structural)]
pub struct Span {
    pub line: usize,
    pub column: usize,
    pub offset: usize,
    pub length: usize,
}

impl Default for Span {
    fn default() -> (r: Self)
        ensures
            r == (Span { line: 0, column: 0, offset: 0, length: 0 }),
    {
        Span { line: 0, column: 0, offset: 0, length: 0 }
    }
}

/// A binary operator.
#[derive(Clone, Copy, Debug, PartialEq, Eq, Structural)]
pub enum BinaryOperator {
    Add,
    Sub,
    Mul,
    Div,
    Mod,
    Eq,
    Ne,
    Lt,
    Le,
    Gt,
    Ge,
    And,
    Or,
    BitAnd,
    BitOr,
    BitXor,
    Shl,
    Shr,
}

/// An assignment operator.
#[derive(Clone, Copy, Debug, PartialEq, Eq, Structural)]
pub enum AssignmentOperator {
    Assign,
    AddAssign,
    SubAssign,
    MulAssign,
    DivAssign,
    ModAssign,
    AndAssign,
    OrAssign,
    XorAssign,
    ShlAssign,
    ShrAssign,
}

/// A unary operator.
#[derive(Clone, Copy, Debug, PartialEq, Eq, Structural)]
pub enum UnaryOperator {
    Not,
    Neg,
    Dereference,
    AddressOf,
    BitNot,
    PreIncrement,
    PreDecrement,
    PostIncrement,
    PostDecrement,
}

/// A literal value. A floating-point value is held as its decimal text, which has no
/// point where the value is a whole number.
#[derive(Clone, Debug, PartialEq)]
pub enum Literal {
    Int(i64),
    Float(String),
    Char(char),
    String(String),
    Bool(bool),
    Null,
}

/// The contents of a literal.
pub enum LiteralV {
    Int(i64),
    Float(Seq<char>),
    Char(char),
    String(Seq<char>),
    Bool(bool),
    Null,
}

impl View for Literal {
    type V = LiteralV;

    open spec fn view(&self) -> LiteralV {
        match *self {
            Literal::Int(i) => LiteralV::Int(i),
            Literal::Float(f) => LiteralV::Float(f@),
            Literal::Char(c) => LiteralV::Char(c),
            Literal::String(s) => LiteralV::String(s@),
            Literal::Bool(b) => LiteralV::Bool(b),
            Literal::Null => LiteralV::Null,
        }
    }
}

/// An expression.
#[derive(Debug, PartialEq)]
pub struct Expr {
    pub kind: ExprKind,
    pub ty: TypeId,
    pub span: Span,
}

/// The forms of an expression.
#[derive(Debug, PartialEq)]
#[allow(inconsistent_fields)]
pub enum ExprKind {
    Identifier { name: String },
    Literal { value: Literal },
    Call { callee: Box<Expr>, args: Vec<Expr> },
    UnaryOp { op: UnaryOperator, expr: Box<Expr> },
    BinaryOp { op: BinaryOperator, left: Box<Expr>, right: Box<Expr> },
    Assign { op: AssignmentOperator, left: Box<Expr>, right: Box<Expr> },
    If { cond: Box<Expr>, then_branch: Box<Expr>, else_branch: Box<Expr> },
    RangeLiteral { start: Box<Expr>, end: Box<Expr> },
    StructInit { struct_type: Option<Type>, fields: Vec<FieldInit> },
    FieldAccess { expr: Box<Expr>, field_name: String },
    Index { expr: Box<Expr>, index: Box<Expr> },
    ArrayLiteral { elements: Vec<Expr> },
    TupleLit { elements: Vec<Expr> },
    EnumVariant { enum_name: String, variant_name: String },
    EnumInit { enum_name: String, variant_name: String, args: Vec<Expr> },
}

/// A named field value of a struct expression.
#[derive(Debug, PartialEq)]
pub struct FieldInit {
    pub name: String,
    pub value: Expr,
}

/// The contents of an expression.
pub struct ExprV {
    pub kind: ExprKindV,
    pub ty: TypeId,
    pub span: Span,
}

/// The contents of the forms of an expression.
#[allow(inconsistent_fields)]
pub enum ExprKindV {
    Identifier { name: Seq<char> },
    Literal { value: LiteralV },
    Call { callee: Box<ExprV>, args: Seq<ExprV> },
    UnaryOp { op: UnaryOperator, expr: Box<ExprV> },
    BinaryOp { op: BinaryOperator, left: Box<ExprV>, right: Box<ExprV> },
    Assign { op: AssignmentOperator, left: Box<ExprV>, right: Box<ExprV> },
    If { cond: Box<ExprV>, then_branch: Box<ExprV>, else_branch: Box<ExprV> },
    RangeLiteral { start: Box<ExprV>, end: Box<ExprV> },
    StructInit { struct_type: Option<TypeV>, fields: Seq<FieldInitV> },
    FieldAccess { expr: Box<ExprV>, field_name: Seq<char> },
    Index { expr: Box<ExprV>, index: Box<ExprV> },
    ArrayLiteral { elements: Seq<ExprV> },
    TupleLit { elements: Seq<ExprV> },
    EnumVariant { enum_name: Seq<char>, variant_name: Seq<char> },
    EnumInit { enum_name: Seq<char>, variant_name: Seq<char>, args: Seq<ExprV> },
}

/// The contents of a field value.
pub struct FieldInitV {
    pub name: Seq<char>,
    pub value: ExprV,
}

/// A value that no contract speaks of.
pub open spec fn no_expr() -> ExprV {
    ExprV {
        kind: ExprKindV::Literal { value: LiteralV::Null },
        ty: TypeId(0),
        span: Span { line: 0, column: 0, offset: 0, length: 0 },
    }
}

/// The contents of an expression.
pub open spec fn expr_v(e: Expr) -> ExprV
    decreases e,
{
    ExprV {
        kind: match e.kind {
            ExprKind::Identifier { name } => ExprKindV::Identifier { name: name@ },
            ExprKind::Literal { value } => ExprKindV::Literal { value: value@ },
            ExprKind::Call { callee, args } => ExprKindV::Call {
                callee: Box::new(expr_v(*callee)),
                args: Seq::new(args@.len(), |i: int| if 0 <= i < args@.len() { expr_v(args@[i]) } else { no_expr() }),
            },
            ExprKind::UnaryOp { op, expr } => ExprKindV::UnaryOp { op, expr: Box::new(expr_v(*expr)) },
            ExprKind::BinaryOp { op, left, right } => ExprKindV::BinaryOp {
                op,
                left: Box::new(expr_v(*left)),
                right: Box::new(expr_v(*right)),
            },
            ExprKind::Assign { op, left, right } => ExprKindV::Assign {
                op,
                left: Box::new(expr_v(*left)),
                right: Box::new(expr_v(*right)),
            },
            ExprKind::If { cond, then_branch, else_branch } => ExprKindV::If {
                cond: Box::new(expr_v(*cond)),
                then_branch: Box::new(expr_v(*then_branch)),
                else_branch: Box::new(expr_v(*else_branch)),
            },
            ExprKind::RangeLiteral { start, end } => ExprKindV::RangeLiteral {
                start: Box::new(expr_v(*start)),
                end: Box::new(expr_v(*end)),
            },
            ExprKind::StructInit { struct_type, fields } => ExprKindV::StructInit {
                struct_type: opt_type_v(struct_type),
                fields: Seq::new(
                    fields@.len(),
                    |i: int| if 0 <= i < fields@.len() {
                        FieldInitV { name: fields@[i].name@, value: expr_v(fields@[i].value) }
                    } else {
                        FieldInitV { name: Seq::empty(), value: no_expr() }
                    },
                ),
            },
            ExprKind::FieldAccess { expr, field_name } => ExprKindV::FieldAccess {
                expr: Box::new(expr_v(*expr)),
                field_name: field_name@,
            },
            ExprKind::Index { expr, index } => ExprKindV::Index {
                expr: Box::new(expr_v(*expr)),
                index: Box::new(expr_v(*index)),
            },
            ExprKind::ArrayLiteral { elements } => ExprKindV::ArrayLiteral {
                elements: Seq::new(elements@.len(), |i: int| if 0 <= i < elements@.len() { expr_v(elements@[i]) } else { no_expr() }),
            },
            ExprKind::TupleLit { elements } => ExprKindV::TupleLit {
                elements: Seq::new(elements@.len(), |i: int| if 0 <= i < elements@.len() { expr_v(elements@[i]) } else { no_expr() }),
            },
            ExprKind::EnumVariant { enum_name, variant_name } => ExprKindV::EnumVariant {
                enum_name: enum_name@,
                variant_name: variant_name@,
            },
            ExprKind::EnumInit { enum_name, variant_name, args } => ExprKindV::EnumInit {
                enum_name: enum_name@,
                variant_name: variant_name@,
                args: Seq::new(args@.len(), |i: int| if 0 <= i < args@.len() { expr_v(args@[i]) } else { no_expr() }),
            },
        },
        ty: e.ty,
        span: e.span,
    }
}

impl View for Expr {
    type V = ExprV;

    open spec fn view(&self) -> ExprV {
        expr_v(*self)
    }
}

/// The contents of a list of expressions.
pub open spec fn exprs_v(es: Seq<Expr>) -> Seq<ExprV> {
    es.map_values(|e: Expr| expr_v(e))
}

/// The contents of a field value.
pub open spec fn init_v(f: FieldInit) -> FieldInitV {
    FieldInitV { name: f.name@, value: expr_v(f.value) }
}

/// The contents of a list of field values.
pub open spec fn inits_v(fs: Seq<FieldInit>) -> Seq<FieldInitV> {
    fs.map_values(|f: FieldInit| init_v(f))
}

/// The contents of an optional expression.
pub open spec fn opt_expr_v(e: Option<Expr>) -> Option<ExprV> {
    match e {
        Some(x) => Some(expr_v(x)),
        None => None,
    }
}

/// How the view of an expression with a list in it is made up.
pub broadcast proof fn lemma_expr_v(e: Expr)
    ensures
        #![trigger expr_v(e)]
        match e.kind {
            ExprKind::Call { callee, args } => expr_v(e).kind is Call && expr_v(e).kind->Call_args == exprs_v(
                args@,
            ),
            ExprKind::StructInit { struct_type, fields } => expr_v(e).kind == (ExprKindV::StructInit {
                struct_type: opt_type_v(struct_type),
                fields: inits_v(fields@),
            }),
            ExprKind::ArrayLiteral { elements } => expr_v(e).kind == (ExprKindV::ArrayLiteral {
                elements: exprs_v(elements@),
            }),
            ExprKind::TupleLit { elements } => expr_v(e).kind == (ExprKindV::TupleLit {
                elements: exprs_v(elements@),
            }),
            ExprKind::EnumInit { enum_name, variant_name, args } => expr_v(e).kind
                == (ExprKindV::EnumInit {
                enum_name: enum_name@,
                variant_name: variant_name@,
                args: exprs_v(args@),
            }),
            _ => true,
        },
{
    match e.kind {
        ExprKind::Call { callee, args } => {
            assert(expr_v(e).kind->Call_args =~= exprs_v(args@));
        },
        ExprKind::StructInit { struct_type, fields } => {
            assert(expr_v(e).kind->fields =~= inits_v(fields@));
        },
        ExprKind::ArrayLiteral { elements } => {
            assert(expr_v(e).kind->ArrayLiteral_elements =~= exprs_v(elements@));
        },
        ExprKind::TupleLit { elements } => {
            assert(expr_v(e).kind->TupleLit_elements =~= exprs_v(elements@));
        },
        ExprKind::EnumInit { enum_name, variant_name, args } => {
            assert(expr_v(e).kind->EnumInit_args =~= exprs_v(args@));
        },
        _ => {},
    }
}

/// The contents of the form of an expression.
pub open spec fn expr_kind_in(kind: ExprKind) -> ExprKindV {
    match kind {
        ExprKind::Identifier { name } => ExprKindV::Identifier {
            name: name@,
        },
        ExprKind::Literal { value } => ExprKindV::Literal {
            value: value@,
        },
        ExprKind::UnaryOp { op, expr } => ExprKindV::UnaryOp {
            op,
            expr: Box::new(expr_v(*expr)),
        },
        ExprKind::BinaryOp { op, left, right } => ExprKindV::BinaryOp {
            op,
            left: Box::new(expr_v(*left)),
            right: Box::new(expr_v(*right)),
        },
        ExprKind::Assign { op, left, right } => ExprKindV::Assign {
            op,
            left: Box::new(expr_v(*left)),
            right: Box::new(expr_v(*right)),
        },
        ExprKind::Call { callee, args } => ExprKindV::Call {
            callee: Box::new(expr_v(*callee)),
            args: exprs_v(args@),
        },
        ExprKind::If { cond, then_branch, else_branch } => ExprKindV::If {
            cond: Box::new(expr_v(*cond)),
            then_branch: Box::new(expr_v(*then_branch)),
            else_branch: Box::new(expr_v(*else_branch)),
        },
        ExprKind::RangeLiteral { start, end } => ExprKindV::RangeLiteral {
            start: Box::new(expr_v(*start)),
            end: Box::new(expr_v(*end)),
        },
        ExprKind::StructInit { struct_type, fields } => ExprKindV::StructInit {
            struct_type: opt_type_v(struct_type),
            fields: inits_v(fields@),
        },
        ExprKind::FieldAccess { expr, field_name } => ExprKindV::FieldAccess {
            expr: Box::new(expr_v(*expr)),
            field_name: field_name@,
        },
        ExprKind::EnumVariant { enum_name, variant_name } => ExprKindV::EnumVariant {
            enum_name: enum_name@,
            variant_name: variant_name@,
        },
        ExprKind::EnumInit { enum_name, variant_name, args } => ExprKindV::EnumInit {
            enum_name: enum_name@,
            variant_name: variant_name@,
            args: exprs_v(args@),
        },
        ExprKind::ArrayLiteral { elements } => ExprKindV::ArrayLiteral {
            elements: exprs_v(elements@),
        },
        ExprKind::TupleLit { elements } => ExprKindV::TupleLit {
            elements: exprs_v(elements@),
        },
        ExprKind::Index { expr, index } => ExprKindV::Index {
            expr: Box::new(expr_v(*expr)),
            index: Box::new(expr_v(*index)),
        },
    }
}

/// How the view of an expression is made up.
pub proof fn lemma_expr_parts(e: Expr)
    ensures
        expr_v(e) == (ExprV { kind: expr_kind_in(e.kind), ty: e.ty, span: e.span }),
{
    lemma_expr_v(e);
}

/// Makes an expression.
pub fn make_expr(kind: ExprKind, ty: TypeId, span: Span) -> (r: Expr)
    ensures
        r@ == (ExprV { kind: expr_kind_in(kind), ty, span }),
{
    let x = Expr { kind, ty, span };
    proof {
        lemma_expr_parts(x);
    }
    x
}

impl Clone for Expr {
    fn clone(&self) -> (r: Self)
        ensures
            r@ == self@,
    {
        copy_expr(self)
    }
}

/// Copies an expression.
pub fn copy_expr(e: &Expr) -> (r: Expr)
    ensures
        r@ == e@,
    decreases *e,
{
    broadcast use lemma_expr_v;

    let kind = match &e.kind {
        ExprKind::Identifier { name } => ExprKind::Identifier { name: name.clone() },
        ExprKind::Literal { value } => ExprKind::Literal { value: copy_literal(value) },
        ExprKind::Call { callee, args } => ExprKind::Call {
            callee: Box::new(copy_expr(callee)),
            args: copy_exprs(args),
        },
        ExprKind::UnaryOp { op, expr } => ExprKind::UnaryOp { op: *op, expr: Box::new(copy_expr(expr)) },
        ExprKind::BinaryOp { op, left, right } => ExprKind::BinaryOp {
            op: *op,
            left: Box::new(copy_expr(left)),
            right: Box::new(copy_expr(right)),
        },
        ExprKind::Assign { op, left, right } => ExprKind::Assign {
            op: *op,
            left: Box::new(copy_expr(left)),
            right: Box::new(copy_expr(right)),
        },
        ExprKind::If { cond, then_branch, else_branch } => ExprKind::If {
            cond: Box::new(copy_expr(cond)),
            then_branch: Box::new(copy_expr(then_branch)),
            else_branch: Box::new(copy_expr(else_branch)),
        },
        ExprKind::RangeLiteral { start, end } => ExprKind::RangeLiteral {
            start: Box::new(copy_expr(start)),
            end: Box::new(copy_expr(end)),
        },
        ExprKind::StructInit { struct_type, fields } => ExprKind::StructInit {
            struct_type: copy_opt_type(struct_type),
            fields: copy_inits(fields),
        },
        ExprKind::FieldAccess { expr, field_name } => ExprKind::FieldAccess {
            expr: Box::new(copy_expr(expr)),
            field_name: field_name.clone(),
        },
        ExprKind::Index { expr, index } => ExprKind::Index {
            expr: Box::new(copy_expr(expr)),
            index: Box::new(copy_expr(index)),
        },
        ExprKind::ArrayLiteral { elements } => ExprKind::ArrayLiteral { elements: copy_exprs(elements) },
        ExprKind::TupleLit { elements } => ExprKind::TupleLit { elements: copy_exprs(elements) },
        ExprKind::EnumVariant { enum_name, variant_name } => ExprKind::EnumVariant {
            enum_name: enum_name.clone(),
            variant_name: variant_name.clone(),
        },
        ExprKind::EnumInit { enum_name, variant_name, args } => ExprKind::EnumInit {
            enum_name: enum_name.clone(),
            variant_name: variant_name.clone(),
            args: copy_exprs(args),
        },
    };
    Expr { kind, ty: e.ty, span: e.span }
}

/// Copies a literal.
pub fn copy_literal(l: &Literal) -> (r: Literal)
    ensures
        r@ == l@,
{
    match l {
        Literal::Int(i) => Literal::Int(*i),
        Literal::Float(f) => Literal::Float(f.clone()),
        Literal::Char(c) => Literal::Char(*c),
        Literal::String(s) => Literal::String(s.clone()),
        Literal::Bool(b) => Literal::Bool(*b),
        Literal::Null => Literal::Null,
    }
}

/// Copies a list of expressions.
pub fn copy_exprs(es: &Vec<Expr>) -> (r: Vec<Expr>)
    ensures
        exprs_v(r@) == exprs_v(es@),
    decreases *es,
{
    let mut out: Vec<Expr> = Vec::new();
    let mut i: usize = 0;
    while i < es.len()
        invariant
            i <= es@.len(),
            exprs_v(out@) =~= exprs_v(es@).take(i as int),
        decreases es@.len() - i,
    {
        let c = copy_expr(&es[i]);
        proof {
            assert(exprs_v(es@).take(i + 1) =~= exprs_v(es@).take(i as int).push(c@));
            assert(exprs_v(out@.push(c)) =~= exprs_v(out@).push(c@));
        }
        out.push(c);
        i = i + 1;
    }
    proof {
        assert(exprs_v(es@).take(es@.len() as int) =~= exprs_v(es@));
    }
    out
}

/// Copies a list of field values.
pub fn copy_inits(fs: &Vec<FieldInit>) -> (r: Vec<FieldInit>)
    ensures
        inits_v(r@) == inits_v(fs@),
    decreases *fs,
{
    let mut out: Vec<FieldInit> = Vec::new();
    let mut i: usize = 0;
    while i < fs.len()
        invariant
            i <= fs@.len(),
            inits_v(out@) =~= inits_v(fs@).take(i as int),
        decreases fs@.len() - i,
    {
        let c = FieldInit { name: fs[i].name.clone(), value: copy_expr(&fs[i].value) };
        proof {
            assert(inits_v(fs@).take(i + 1) =~= inits_v(fs@).take(i as int).push(init_v(c)));
            assert(inits_v(out@.push(c)) =~= inits_v(out@).push(init_v(c)));
        }
        out.push(c);
        i = i + 1;
    }
    proof {
        assert(inits_v(fs@).take(fs@.len() as int) =~= inits_v(fs@));
    }
    out
}

/// Copies an optional expression.
pub fn copy_opt_expr(e: &Option<Expr>) -> (r: Option<Expr>)
    ensures
        opt_expr_v(r) == opt_expr_v(*e),
{
    match e {
        Some(x) => Some(copy_expr(x)),
        None => None,
    }
}

/// A block of statements.
#[derive(Debug, PartialEq)]
pub struct Block {
    pub stmts: Vec<Stmt>,
}

/// A statement.
#[derive(Debug, PartialEq)]
pub struct Stmt {
    pub kind: StmtKind,
    pub span: Span,
}

/// The forms of a statement.
#[derive(Debug, PartialEq)]
#[allow(inconsistent_fields)]
pub enum StmtKind {
    VarDecl { name: String, annotation: Option<Type>, inferred: TypeId, init: Option<Expr> },
    Expr(Expr),
    Return(Option<Expr>),
    If { cond: Expr, then_branch: Block, else_branch: Option<Block> },
    While { cond: Expr, body: Block },
    For { var: String, iter: Expr, body: Block },
    Match(MatchStmt),
    Defer { body: Box<Stmt> },
    Block(Block),
    Break,
    Continue,
}

/// A `match` statement.
#[derive(Debug, PartialEq)]
pub struct MatchStmt {
    pub expr: Expr,
    pub arms: Vec<MatchArm>,
}

/// One arm of a `match` statement.
#[derive(Debug, PartialEq)]
pub struct MatchArm {
    pub pattern: Expr,
    pub body: Block,
}

/// The contents of a block.
pub struct BlockV {
    pub stmts: Seq<StmtV>,
}

/// The contents of a statement.
pub struct StmtV {
    pub kind: StmtKindV,
    pub span: Span,
}

/// The contents of the forms of a statement.
#[allow(inconsistent_fields)]
pub enum StmtKindV {
    VarDecl { name: Seq<char>, annotation: Option<TypeV>, inferred: TypeId, init: Option<ExprV> },
    Expr(ExprV),
    Return(Option<ExprV>),
    If { cond: ExprV, then_branch: BlockV, else_branch: Option<BlockV> },
    While { cond: ExprV, body: BlockV },
    For { var: Seq<char>, iter: ExprV, body: BlockV },
    Match { expr: ExprV, arms: Seq<MatchArmV> },
    Defer { body: Box<StmtV> },
    Block(BlockV),
    Break,
    Continue,
}

/// The contents of a `match` arm.
pub struct MatchArmV {
    pub pattern: ExprV,
    pub body: BlockV,
}

/// A value that no contract speaks of.
pub open spec fn no_stmt() -> StmtV {
    StmtV { kind: StmtKindV::Break, span: Span { line: 0, column: 0, offset: 0, length: 0 } }
}

/// The contents of a block.
pub open spec fn block_v(b: Block) -> BlockV
    decreases b,
{
    BlockV {
        stmts: Seq::new(
            b.stmts@.len(),
            |i: int| if 0 <= i < b.stmts@.len() { stmt_v(b.stmts@[i]) } else { no_stmt() },
        ),
    }
}

/// The contents of a statement.
pub open spec fn stmt_v(s: Stmt) -> StmtV
    decreases s,
{
    StmtV {
        kind: match s.kind {
            StmtKind::VarDecl { name, annotation, inferred, init } => StmtKindV::VarDecl {
                name: name@,
                annotation: opt_type_v(annotation),
                inferred,
                init: opt_expr_v(init),
            },
            StmtKind::Expr(e) => StmtKindV::Expr(expr_v(e)),
            StmtKind::Return(e) => StmtKindV::Return(opt_expr_v(e)),
            StmtKind::If { cond, then_branch, else_branch } => StmtKindV::If {
                cond: expr_v(cond),
                then_branch: block_v(then_branch),
                else_branch: match else_branch {
                    Some(b) => Some(block_v(b)),
                    None => None,
                },
            },
            StmtKind::While { cond, body } => StmtKindV::While { cond: expr_v(cond), body: block_v(body) },
            StmtKind::For { var, iter, body } => StmtKindV::For {
                var: var@,
                iter: expr_v(iter),
                body: block_v(body),
            },
            StmtKind::Match(m) => StmtKindV::Match {
                expr: expr_v(m.expr),
                arms: Seq::new(
                    m.arms@.len(),
                    |i: int| if 0 <= i < m.arms@.len() {
                        MatchArmV { pattern: expr_v(m.arms@[i].pattern), body: block_v(m.arms@[i].body) }
                    } else {
                        MatchArmV { pattern: no_expr(), body: BlockV { stmts: Seq::empty() } }
                    },
                ),
            },
            StmtKind::Defer { body } => StmtKindV::Defer { body: Box::new(stmt_v(*body)) },
            StmtKind::Block(b) => StmtKindV::Block(block_v(b)),
            StmtKind::Break => StmtKindV::Break,
            StmtKind::Continue => StmtKindV::Continue,
        },
        span: s.span,
    }
}

impl View for Block {
    type V = BlockV;

    open spec fn view(&self) -> BlockV {
        block_v(*self)
    }
}

impl View for Stmt {
    type V = StmtV;

    open spec fn view(&self) -> StmtV {
        stmt_v(*self)
    }
}

/// The contents of a list of statements.
pub open spec fn stmts_v(ss: Seq<Stmt>) -> Seq<StmtV> {
    ss.map_values(|s: Stmt| stmt_v(s))
}

/// The contents of an optional block.
pub open spec fn opt_block_v(b: Option<Block>) -> Option<BlockV> {
    match b {
        Some(x) => Some(block_v(x)),
        None => None,
    }
}

/// The contents of a `match` arm.
pub open spec fn arm_v(a: MatchArm) -> MatchArmV {
    MatchArmV { pattern: expr_v(a.pattern), body: block_v(a.body) }
}

/// The contents of a list of `match` arms.
pub open spec fn arms_v(xs: Seq<MatchArm>) -> Seq<MatchArmV> {
    xs.map_values(|a: MatchArm| arm_v(a))
}

/// How the view of a block is made up.
pub broadcast proof fn lemma_block_v(b: Block)
    ensures
        #[trigger] block_v(b) == (BlockV { stmts: stmts_v(b.stmts@) }),
{
    assert(block_v(b).stmts =~= stmts_v(b.stmts@));
}

/// How the view of a `match` statement is made up.
pub broadcast proof fn lemma_stmt_v(s: Stmt)
    ensures
        #![trigger stmt_v(s)]
        match s.kind {
            StmtKind::Match(m) => stmt_v(s).kind is Match && stmt_v(s).kind->arms == arms_v(m.arms@),
            _ => true,
        },
{
    match s.kind {
        StmtKind::Match(m) => {
            assert(stmt_v(s).kind->arms =~= arms_v(m.arms@));
        },
        _ => {},
    }
}

/// How the view of a statement is made up.
pub proof fn lemma_stmt_parts(s: Stmt)
    ensures
        stmt_v(s).span == s.span,
        match s.kind {
            StmtKind::VarDecl { name, annotation, inferred, init } => stmt_v(s).kind == (StmtKindV::VarDecl {
                name: name@,
                annotation: opt_type_v(annotation),
                inferred,
                init: opt_expr_v(init),
            }),
            StmtKind::Expr(e) => stmt_v(s).kind == StmtKindV::Expr(expr_v(e)),
            StmtKind::Return(e) => stmt_v(s).kind == StmtKindV::Return(opt_expr_v(e)),
            StmtKind::If { cond, then_branch, else_branch } => stmt_v(s).kind == (StmtKindV::If {
                cond: expr_v(cond),
                then_branch: BlockV { stmts: stmts_v(then_branch.stmts@) },
                else_branch: opt_block_v(else_branch),
            }),
            StmtKind::While { cond, body } => stmt_v(s).kind == (StmtKindV::While {
                cond: expr_v(cond),
                body: BlockV { stmts: stmts_v(body.stmts@) },
            }),
            StmtKind::For { var, iter, body } => stmt_v(s).kind == (StmtKindV::For {
                var: var@,
                iter: expr_v(iter),
                body: BlockV { stmts: stmts_v(body.stmts@) },
            }),
            StmtKind::Match(m) => stmt_v(s).kind == (StmtKindV::Match {
                expr: expr_v(m.expr),
                arms: arms_v(m.arms@),
            }),
            StmtKind::Defer { body } => stmt_v(s).kind == (StmtKindV::Defer { body: Box::new(stmt_v(*body)) }),
            StmtKind::Block(b) => stmt_v(s).kind == StmtKindV::Block(BlockV { stmts: stmts_v(b.stmts@) }),
            StmtKind::Break => stmt_v(s).kind == StmtKindV::Break,
            StmtKind::Continue => stmt_v(s).kind == StmtKindV::Continue,
        },
{
    match s.kind {
        StmtKind::If { cond, then_branch, else_branch } => {
            lemma_block_v(then_branch);
        },
        StmtKind::While { cond, body } => {
            lemma_block_v(body);
        },
        StmtKind::For { var, iter, body } => {
            lemma_block_v(body);
        },
        StmtKind::Block(b) => {
            lemma_block_v(b);
        },
        StmtKind::Match(m) => {
            lemma_stmt_v(s);
        },
        _ => {},
    }
}

impl Clone for Block {
    fn clone(&self) -> (r: Self)
        ensures
            r@ == self@,
    {
        copy_block(self)
    }
}

impl Clone for Stmt {
    fn clone(&self) -> (r: Self)
        ensures
            r@ == self@,
    {
        copy_stmt(self)
    }
}

/// Copies a block.
pub fn copy_block(b: &Block) -> (r: Block)
    ensures
        block_v(r) == block_v(*b),
    decreases *b,
{
    broadcast use lemma_block_v;

    Block { stmts: copy_stmts(&b.stmts) }
}

/// Copies a statement.
pub fn copy_stmt(s: &Stmt) -> (r: Stmt)
    ensures
        r@ == s@,
    decreases *s,
{
    broadcast use lemma_stmt_v;

    let kind = match &s.kind {
        StmtKind::VarDecl { name, annotation, inferred, init } => StmtKind::VarDecl {
            name: name.clone(),
            annotation: copy_opt_type(annotation),
            inferred: *inferred,
            init: copy_opt_expr(init),
        },
        StmtKind::Expr(e) => StmtKind::Expr(copy_expr(e)),
        StmtKind::Return(e) => StmtKind::Return(copy_opt_expr(e)),
        StmtKind::If { cond, then_branch, else_branch } => StmtKind::If {
            cond: copy_expr(cond),
            then_branch: copy_block(then_branch),
            else_branch: match else_branch {
                Some(b) => Some(copy_block(b)),
                None => None,
            },
        },
        StmtKind::While { cond, body } => StmtKind::While { cond: copy_expr(cond), body: copy_block(body) },
        StmtKind::For { var, iter, body } => StmtKind::For {
            var: var.clone(),
            iter: copy_expr(iter),
            body: copy_block(body),
        },
        StmtKind::Match(m) => StmtKind::Match(
            MatchStmt { expr: copy_expr(&m.expr), arms: copy_arms(&m.arms) },
        ),
        StmtKind::Defer { body } => StmtKind::Defer { body: Box::new(copy_stmt(body)) },
        StmtKind::Block(b) => StmtKind::Block(copy_block(b)),
        StmtKind::Break => StmtKind::Break,
        StmtKind::Continue => StmtKind::Continue,
    };
    Stmt { kind, span: s.span }
}

/// Copies a list of statements.
pub fn copy_stmts(ss: &Vec<Stmt>) -> (r: Vec<Stmt>)
    ensures
        stmts_v(r@) == stmts_v(ss@),
    decreases *ss,
{
    let mut out: Vec<Stmt> = Vec::new();
    let mut i: usize = 0;
    while i < ss.len()
        invariant
            i <= ss@.len(),
            stmts_v(out@) =~= stmts_v(ss@).take(i as int),
        decreases ss@.len() - i,
    {
        let c = copy_stmt(&ss[i]);
        proof {
            assert(stmts_v(ss@).take(i + 1) =~= stmts_v(ss@).take(i as int).push(c@));
            assert(stmts_v(out@.push(c)) =~= stmts_v(out@).push(c@));
        }
        out.push(c);
        i = i + 1;
    }
    proof {
        assert(stmts_v(ss@).take(ss@.len() as int) =~= stmts_v(ss@));
    }
    out
}

/// Copies a list of `match` arms.
pub fn copy_arms(xs: &Vec<MatchArm>) -> (r: Vec<MatchArm>)
    ensures
        arms_v(r@) == arms_v(xs@),
    decreases *xs,
{
    let mut out: Vec<MatchArm> = Vec::new();
    let mut i: usize = 0;
    while i < xs.len()
        invariant
            i <= xs@.len(),
            arms_v(out@) =~= arms_v(xs@).take(i as int),
        decreases xs@.len() - i,
    {
        let c = MatchArm { pattern: copy_expr(&xs[i].pattern), body: copy_block(&xs[i].body) };
        proof {
            assert(arms_v(xs@).take(i + 1) =~= arms_v(xs@).take(i as int).push(arm_v(c)));
            assert(arms_v(out@.push(c)) =~= arms_v(out@).push(arm_v(c)));
        }
        out.push(c);
        i = i + 1;
    }
    proof {
        assert(arms_v(xs@).take(xs@.len() as int) =~= arms_v(xs@));
    }
    out
}

} // verus!
