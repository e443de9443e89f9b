//! The renaming of calls of generic functions to calls of their realized forms.
use crate::ast::{arm_v, arms_v, block_v, copy_expr, copy_literal, exprs_v, init_v, inits_v, lemma_block_v,
    lemma_expr_v, lemma_stmt_v, no_expr, no_stmt, opt_expr_v, stmts_v, Block, BlockV, Expr, ExprKind,
    ExprKindV, ExprV, FieldInit, FieldInitV, MatchArm, MatchArmV, MatchStmt, Stmt, StmtKind, StmtKindV,
    StmtV};
use crate::text;
use crate::types::{copy_opt_type, TypeId};
use vstd::prelude::*;

verus! {

/// The renaming of the calls of a generic function whose type is the given one.
pub struct Renaming<'a> {
    pub base: &'a str,
    pub ret: TypeId,
    pub name: &'a str,
}

/// The contents of a renaming.
pub struct RenamingV {
    pub base: Seq<char>,
    pub ret: TypeId,
    pub name: Seq<char>,
}

impl<'a> View for Renaming<'a> {
    type V = RenamingV;

    open spec fn view(&self) -> RenamingV {
        RenamingV { base: self.base@, ret: self.ret, name: self.name@ }
    }
}

/// Whether a call is one of those to be renamed.
pub open spec fn is_renamed(call: ExprV, callee: ExprV, c: RenamingV) -> bool {
    callee.kind matches ExprKindV::Identifier { name } && name == c.base && call.ty == c.ret
}

fn rename_callee(call: &Expr, callee: &Expr, c: &Renaming) -> (r: Expr)
    ensures
        r@ == (if is_renamed(call@, callee@, c@) {
            ExprV { kind: ExprKindV::Identifier { name: c@.name }, ..callee@ }
        } else {
            renamed_expr(callee@, c@)
        }),
    decreases *callee, 1int,
{
    broadcast use lemma_expr_v;

    proof {
        assert(call@.ty == call.ty);
    }
    let hit = match &callee.kind {
        ExprKind::Identifier { name } => text::text_eq(name.as_str(), c.base) && call.ty.0 == c.ret.0,
        _ => false,
    };
    if hit {
        Expr { kind: ExprKind::Identifier { name: c.name.to_owned() }, ty: callee.ty, span: callee.span }
    } else {
        rename_generic_calls_expr(callee, c)
    }
}

/// An expression in which the calls are renamed.
pub open spec fn renamed_expr(e: ExprV, c: RenamingV) -> ExprV
    decreases e,
{
    ExprV {
        kind: match e.kind {
            ExprKindV::Call { callee, args } => ExprKindV::Call {
                callee: Box::new(
                    if is_renamed(e, *callee, c) {
                        ExprV { kind: ExprKindV::Identifier { name: c.name }, ..*callee }
                    } else {
                        renamed_expr(*callee, c)
                    },
                ),
                args: renamed_exprs(args, c),
            },
            ExprKindV::UnaryOp { op, expr } => ExprKindV::UnaryOp { op, expr: Box::new(renamed_expr(*expr, c)) },
            ExprKindV::BinaryOp { op, left, right } => ExprKindV::BinaryOp {
                op,
                left: Box::new(renamed_expr(*left, c)),
                right: Box::new(renamed_expr(*right, c)),
            },
            ExprKindV::Assign { op, left, right } => ExprKindV::Assign {
                op,
                left: Box::new(renamed_expr(*left, c)),
                right: Box::new(renamed_expr(*right, c)),
            },
            ExprKindV::If { cond, then_branch, else_branch } => ExprKindV::If {
                cond: Box::new(renamed_expr(*cond, c)),
                then_branch: Box::new(renamed_expr(*then_branch, c)),
                else_branch: Box::new(renamed_expr(*else_branch, c)),
            },
            ExprKindV::RangeLiteral { start, end } => ExprKindV::RangeLiteral {
                start: Box::new(renamed_expr(*start, c)),
                end: Box::new(renamed_expr(*end, c)),
            },
            ExprKindV::StructInit { struct_type, fields } => ExprKindV::StructInit {
                struct_type,
                fields: renamed_inits(fields, c),
            },
            ExprKindV::FieldAccess { expr, field_name } => ExprKindV::FieldAccess {
                expr: Box::new(renamed_expr(*expr, c)),
                field_name,
            },
            ExprKindV::Index { expr, index } => ExprKindV::Index {
                expr: Box::new(renamed_expr(*expr, c)),
                index: Box::new(renamed_expr(*index, c)),
            },
            ExprKindV::ArrayLiteral { elements } => ExprKindV::ArrayLiteral { elements: renamed_exprs(elements, c) },
            ExprKindV::TupleLit { elements } => ExprKindV::TupleLit { elements: renamed_exprs(elements, c) },
            ExprKindV::EnumInit { enum_name, variant_name, args } => ExprKindV::EnumInit {
                enum_name,
                variant_name,
                args: renamed_exprs(args, c),
            },
            other => other,
        },
        ty: e.ty,
        span: e.span,
    }
}

/// Expressions in which the calls are renamed.
pub open spec fn renamed_exprs(es: Seq<ExprV>, c: RenamingV) -> Seq<ExprV>
    decreases es,
{
    Seq::new(es.len(), |i: int| if 0 <= i < es.len() { renamed_expr(es[i], c) } else { no_expr() })
}

/// Field values in which the calls are renamed.
pub open spec fn renamed_inits(fs: Seq<FieldInitV>, c: RenamingV) -> Seq<FieldInitV>
    decreases fs,
{
    Seq::new(
        fs.len(),
        |i: int|
            if 0 <= i < fs.len() {
                FieldInitV { name: fs[i].name, value: renamed_expr(fs[i].value, c) }
            } else {
                FieldInitV { name: Seq::empty(), value: no_expr() }
            },
    )
}

/// An optional expression in which the calls are renamed.
pub open spec fn renamed_opt_expr(e: Option<ExprV>, c: RenamingV) -> Option<ExprV> {
    match e {
        Some(x) => Some(renamed_expr(x, c)),
        None => None,
    }
}

/// Renames the calls in an expression.
pub fn rename_generic_calls_expr(e: &Expr, c: &Renaming) -> (r: Expr)
    ensures
        r@ == renamed_expr(e@, c@),
    decreases *e, 0int,
{
    broadcast use lemma_expr_v;

    let kind = match &e.kind {
        ExprKind::Call { callee, args } => ExprKind::Call {
            callee: Box::new(rename_callee(e, callee, c)),
            args: rename_exprs(args, c),
        },
        ExprKind::UnaryOp { op, expr } => ExprKind::UnaryOp {
            op: *op,
            expr: Box::new(rename_generic_calls_expr(expr, c)),
        },
        ExprKind::BinaryOp { op, left, right } => ExprKind::BinaryOp {
            op: *op,
            left: Box::new(rename_generic_calls_expr(left, c)),
            right: Box::new(rename_generic_calls_expr(right, c)),
        },
        ExprKind::Assign { op, left, right } => ExprKind::Assign {
            op: *op,
            left: Box::new(rename_generic_calls_expr(left, c)),
            right: Box::new(rename_generic_calls_expr(right, c)),
        },
        ExprKind::If { cond, then_branch, else_branch } => ExprKind::If {
            cond: Box::new(rename_generic_calls_expr(cond, c)),
            then_branch: Box::new(rename_generic_calls_expr(then_branch, c)),
            else_branch: Box::new(rename_generic_calls_expr(else_branch, c)),
        },
        ExprKind::RangeLiteral { start, end } => ExprKind::RangeLiteral {
            start: Box::new(rename_generic_calls_expr(start, c)),
            end: Box::new(rename_generic_calls_expr(end, c)),
        },
        ExprKind::StructInit { struct_type, fields } => ExprKind::StructInit {
            struct_type: copy_opt_type(struct_type),
            fields: rename_inits(fields, c),
        },
        ExprKind::FieldAccess { expr, field_name } => ExprKind::FieldAccess {
            expr: Box::new(rename_generic_calls_expr(expr, c)),
            field_name: field_name.clone(),
        },
        ExprKind::Index { expr, index } => ExprKind::Index {
            expr: Box::new(rename_generic_calls_expr(expr, c)),
            index: Box::new(rename_generic_calls_expr(index, c)),
        },
        ExprKind::ArrayLiteral { elements } => ExprKind::ArrayLiteral { elements: rename_exprs(elements, c) },
        ExprKind::TupleLit { elements } => ExprKind::TupleLit { elements: rename_exprs(elements, c) },
        ExprKind::EnumInit { enum_name, variant_name, args } => ExprKind::EnumInit {
            enum_name: enum_name.clone(),
            variant_name: variant_name.clone(),
            args: rename_exprs(args, c),
        },
        ExprKind::Identifier { name } => ExprKind::Identifier { name: name.clone() },
        ExprKind::Literal { value } => ExprKind::Literal { value: copy_literal(value) },
        ExprKind::EnumVariant { enum_name, variant_name } => ExprKind::EnumVariant {
            enum_name: enum_name.clone(),
            variant_name: variant_name.clone(),
        },
    };
    Expr { kind, ty: e.ty, span: e.span }
}

fn rename_exprs(es: &Vec<Expr>, c: &Renaming) -> (r: Vec<Expr>)
    ensures
        exprs_v(r@) == renamed_exprs(exprs_v(es@), c@),
    decreases *es, 0int,
{
    let mut out: Vec<Expr> = Vec::new();
    let mut i: usize = 0;
    let ghost all = renamed_exprs(exprs_v(es@), c@);
    while i < es.len()
        invariant
            i <= es@.len(),
            all == renamed_exprs(exprs_v(es@), c@),
            exprs_v(out@) =~= all.take(i as int),
        decreases es@.len() - i,
    {
        let c = rename_generic_calls_expr(&es[i], c);
        proof {
            assert(all.take(i + 1) =~= all.take(i as int).push(c@));
            assert(exprs_v(out@.push(c)) =~= exprs_v(out@).push(c@));
        }
        out.push(c);
        i = i + 1;
    }
    proof {
        assert(all.take(es@.len() as int) =~= all);
    }
    out
}

fn rename_inits(fs: &Vec<FieldInit>, c: &Renaming) -> (r: Vec<FieldInit>)
    ensures
        inits_v(r@) == renamed_inits(inits_v(fs@), c@),
    decreases *fs, 0int,
{
    let mut out: Vec<FieldInit> = Vec::new();
    let mut i: usize = 0;
    let ghost all = renamed_inits(inits_v(fs@), c@);
    while i < fs.len()
        invariant
            i <= fs@.len(),
            all == renamed_inits(inits_v(fs@), c@),
            inits_v(out@) =~= all.take(i as int),
        decreases fs@.len() - i,
    {
        let c = FieldInit { name: fs[i].name.clone(), value: rename_generic_calls_expr(&fs[i].value, c) };
        proof {
            assert(inits_v(fs@)[i as int] == init_v(fs@[i as int]));
            assert(all.take(i + 1) =~= all.take(i as int).push(init_v(c)));
            assert(inits_v(out@.push(c)) =~= inits_v(out@).push(init_v(c)));
        }
        out.push(c);
        i = i + 1;
    }
    proof {
        assert(all.take(fs@.len() as int) =~= all);
    }
    out
}

/// Renames the calls in an optional expression.
pub fn rename_opt_expr(e: &Option<Expr>, c: &Renaming) -> (r: Option<Expr>)
    ensures
        opt_expr_v(r) == renamed_opt_expr(opt_expr_v(*e), c@),
{
    match e {
        Some(x) => Some(rename_generic_calls_expr(x, c)),
        None => None,
    }
}

/// A statement in which the calls are renamed.
pub open spec fn renamed_stmt(s: StmtV, c: RenamingV) -> StmtV
    decreases s,
{
    StmtV {
        kind: match s.kind {
            StmtKindV::VarDecl { name, annotation, inferred, init } => StmtKindV::VarDecl {
                name,
                annotation,
                inferred,
                init: renamed_opt_expr(init, c),
            },
            StmtKindV::Expr(e) => StmtKindV::Expr(renamed_expr(e, c)),
            StmtKindV::Return(e) => StmtKindV::Return(renamed_opt_expr(e, c)),
            StmtKindV::If { cond, then_branch, else_branch } => StmtKindV::If {
                cond: renamed_expr(cond, c),
                then_branch: renamed_block(then_branch, c),
                else_branch: match else_branch {
                    Some(b) => Some(renamed_block(b, c)),
                    None => None,
                },
            },
            StmtKindV::While { cond, body } => StmtKindV::While { cond: renamed_expr(cond, c), body: renamed_block(body, c) },
            StmtKindV::For { var, iter, body } => StmtKindV::For {
                var,
                iter: renamed_expr(iter, c),
                body: renamed_block(body, c),
            },
            StmtKindV::Match { expr, arms } => StmtKindV::Match { expr: renamed_expr(expr, c), arms: renamed_arms(arms, c) },
            StmtKindV::Defer { body } => StmtKindV::Defer { body: Box::new(renamed_stmt(*body, c)) },
            StmtKindV::Block(b) => StmtKindV::Block(renamed_block(b, c)),
            StmtKindV::Break => StmtKindV::Break,
            StmtKindV::Continue => StmtKindV::Continue,
        },
        span: s.span,
    }
}

/// A block in which the calls are renamed.
pub open spec fn renamed_block(b: BlockV, c: RenamingV) -> BlockV
    decreases b,
{
    BlockV { stmts: renamed_stmts(b.stmts, c) }
}

/// Statements in which the calls are renamed.
pub open spec fn renamed_stmts(ss: Seq<StmtV>, c: RenamingV) -> Seq<StmtV>
    decreases ss,
{
    Seq::new(ss.len(), |i: int| if 0 <= i < ss.len() { renamed_stmt(ss[i], c) } else { no_stmt() })
}

/// Match arms in which the calls are renamed.
pub open spec fn renamed_arms(xs: Seq<MatchArmV>, c: RenamingV) -> Seq<MatchArmV>
    decreases xs,
{
    Seq::new(
        xs.len(),
        |i: int|
            if 0 <= i < xs.len() {
                MatchArmV { pattern: xs[i].pattern, body: renamed_block(xs[i].body, c) }
            } else {
                MatchArmV { pattern: no_expr(), body: BlockV { stmts: Seq::empty() } }
            },
    )
}

/// Renaming the calls in a statement a second time changes nothing.
pub proof fn law_renaming_is_done_once(s: StmtV, c: RenamingV)
    ensures
        renamed_stmt(renamed_stmt(s, c), c) == renamed_stmt(s, c),
    decreases s,
{
    match s.kind {
        StmtKindV::VarDecl { name, annotation, inferred, init } => {
            if let Some(x) = init {
                lemma_renamed_once(x, c);
            }
        },
        StmtKindV::Expr(x) => {
            lemma_renamed_once(x, c);
        },
        StmtKindV::Return(x) => {
            if let Some(x) = x {
                lemma_renamed_once(x, c);
            }
        },
        StmtKindV::If { cond, then_branch, else_branch } => {
            lemma_renamed_once(cond, c);
            lemma_block_renamed_once(then_branch, c);
            if let Some(b) = else_branch {
                lemma_block_renamed_once(b, c);
            }
        },
        StmtKindV::While { cond, body } => {
            lemma_renamed_once(cond, c);
            lemma_block_renamed_once(body, c);
        },
        StmtKindV::For { var, iter, body } => {
            lemma_renamed_once(iter, c);
            lemma_block_renamed_once(body, c);
        },
        StmtKindV::Match { expr, arms } => {
            lemma_renamed_once(expr, c);
            assert forall|i: int| 0 <= i < arms.len() implies renamed_block(
                renamed_block(#[trigger] arms[i].body, c),
                c,
            ) == renamed_block(arms[i].body, c) by {
                lemma_block_renamed_once(arms[i].body, c);
            }
            assert(renamed_arms(renamed_arms(arms, c), c) =~= renamed_arms(arms, c));
        },
        StmtKindV::Defer { body } => {
            law_renaming_is_done_once(*body, c);
        },
        StmtKindV::Block(b) => {
            lemma_block_renamed_once(b, c);
        },
        _ => {},
    }
}

proof fn lemma_block_renamed_once(b: BlockV, c: RenamingV)
    ensures
        renamed_block(renamed_block(b, c), c) == renamed_block(b, c),
    decreases b,
{
    let ss = b.stmts;
    assert forall|i: int| 0 <= i < ss.len() implies renamed_stmt(renamed_stmt(#[trigger] ss[i], c), c)
        == renamed_stmt(ss[i], c) by {
        law_renaming_is_done_once(ss[i], c);
    }
    assert(renamed_stmts(renamed_stmts(ss, c), c) =~= renamed_stmts(ss, c));
}

proof fn lemma_exprs_renamed_once(es: Seq<ExprV>, c: RenamingV)
    ensures
        renamed_exprs(renamed_exprs(es, c), c) == renamed_exprs(es, c),
    decreases es,
{
    assert forall|i: int| 0 <= i < es.len() implies renamed_expr(renamed_expr(#[trigger] es[i], c), c)
        == renamed_expr(es[i], c) by {
        lemma_renamed_once(es[i], c);
    }
    assert(renamed_exprs(renamed_exprs(es, c), c) =~= renamed_exprs(es, c));
}

proof fn lemma_renamed_once(e: ExprV, c: RenamingV)
    ensures
        renamed_expr(renamed_expr(e, c), c) == renamed_expr(e, c),
    decreases e,
{
    match e.kind {
        ExprKindV::Call { callee, args } => {
            lemma_renamed_once(*callee, c);
            lemma_exprs_renamed_once(args, c);
            let once = renamed_expr(*callee, c);
            assert(once.kind is Identifier <==> callee.kind is Identifier);
            if callee.kind is Identifier {
                assert(once.kind == callee.kind);
                let named = ExprV { kind: ExprKindV::Identifier { name: c.name }, ..*callee };
                assert(renamed_expr(named, c) == named);
            }
        },
        ExprKindV::UnaryOp { op, expr } => {
            lemma_renamed_once(*expr, c);
        },
        ExprKindV::BinaryOp { op, left, right } => {
            lemma_renamed_once(*left, c);
            lemma_renamed_once(*right, c);
        },
        ExprKindV::Assign { op, left, right } => {
            lemma_renamed_once(*left, c);
            lemma_renamed_once(*right, c);
        },
        ExprKindV::If { cond, then_branch, else_branch } => {
            lemma_renamed_once(*cond, c);
            lemma_renamed_once(*then_branch, c);
            lemma_renamed_once(*else_branch, c);
        },
        ExprKindV::RangeLiteral { start, end } => {
            lemma_renamed_once(*start, c);
            lemma_renamed_once(*end, c);
        },
        ExprKindV::StructInit { struct_type, fields } => {
            assert forall|i: int| 0 <= i < fields.len() implies renamed_expr(
                renamed_expr(#[trigger] fields[i].value, c),
                c,
            ) == renamed_expr(fields[i].value, c) by {
                lemma_renamed_once(fields[i].value, c);
            }
            assert(renamed_inits(renamed_inits(fields, c), c) =~= renamed_inits(fields, c));
        },
        ExprKindV::FieldAccess { expr, field_name } => {
            lemma_renamed_once(*expr, c);
        },
        ExprKindV::Index { expr, index } => {
            lemma_renamed_once(*expr, c);
            lemma_renamed_once(*index, c);
        },
        ExprKindV::ArrayLiteral { elements } => {
            lemma_exprs_renamed_once(elements, c);
        },
        ExprKindV::TupleLit { elements } => {
            lemma_exprs_renamed_once(elements, c);
        },
        ExprKindV::EnumInit { enum_name, variant_name, args } => {
            lemma_exprs_renamed_once(args, c);
        },
        _ => {},
    }
}

/// Renames the calls in a statement.
pub fn rename_generic_calls_stmt(s: &Stmt, c: &Renaming) -> (r: Stmt)
    ensures
        r@ == renamed_stmt(s@, c@),
    decreases *s,
{
    broadcast use lemma_stmt_v;

    let kind = match &s.kind {
        StmtKind::VarDecl { name, annotation, inferred, init } => StmtKind::VarDecl {
            name: name.clone(),
            annotation: copy_opt_type(annotation),
            inferred: *inferred,
            init: rename_opt_expr(init, c),
        },
        StmtKind::Expr(e) => StmtKind::Expr(rename_generic_calls_expr(e, c)),
        StmtKind::Return(e) => StmtKind::Return(rename_opt_expr(e, c)),
        StmtKind::If { cond, then_branch, else_branch } => StmtKind::If {
            cond: rename_generic_calls_expr(cond, c),
            then_branch: rename_block(then_branch, c),
            else_branch: match else_branch {
                Some(b) => Some(rename_block(b, c)),
                None => None,
            },
        },
        StmtKind::While { cond, body } => StmtKind::While {
            cond: rename_generic_calls_expr(cond, c),
            body: rename_block(body, c),
        },
        StmtKind::For { var, iter, body } => StmtKind::For {
            var: var.clone(),
            iter: rename_generic_calls_expr(iter, c),
            body: rename_block(body, c),
        },
        StmtKind::Match(x) => StmtKind::Match(
            MatchStmt { expr: rename_generic_calls_expr(&x.expr, c), arms: rename_arms(&x.arms, c) },
        ),
        StmtKind::Defer { body } => StmtKind::Defer { body: Box::new(rename_generic_calls_stmt(body, c)) },
        StmtKind::Block(b) => StmtKind::Block(rename_block(b, c)),
        StmtKind::Break => StmtKind::Break,
        StmtKind::Continue => StmtKind::Continue,
    };
    Stmt { kind, span: s.span }
}

/// Renames the calls in a block.
pub fn rename_block(b: &Block, c: &Renaming) -> (r: Block)
    ensures
        block_v(r) == renamed_block(block_v(*b), c@),
    decreases *b,
{
    broadcast use lemma_block_v;

    let mut out: Vec<Stmt> = Vec::new();
    let mut i: usize = 0;
    let ghost all = renamed_stmts(stmts_v(b.stmts@), c@);
    while i < b.stmts.len()
        invariant
            i <= b.stmts@.len(),
            all == renamed_stmts(stmts_v(b.stmts@), c@),
            stmts_v(out@) =~= all.take(i as int),
        decreases b.stmts@.len() - i,
    {
        let c = rename_generic_calls_stmt(&b.stmts[i], c);
        proof {
            assert(all.take(i + 1) =~= all.take(i as int).push(c@));
            assert(stmts_v(out@.push(c)) =~= stmts_v(out@).push(c@));
        }
        out.push(c);
        i = i + 1;
    }
    proof {
        assert(all.take(b.stmts@.len() as int) =~= all);
    }
    Block { stmts: out }
}

fn rename_arms(xs: &Vec<MatchArm>, c: &Renaming) -> (r: Vec<MatchArm>)
    ensures
        arms_v(r@) == renamed_arms(arms_v(xs@), c@),
    decreases *xs,
{
    let mut out: Vec<MatchArm> = Vec::new();
    let mut i: usize = 0;
    let ghost all = renamed_arms(arms_v(xs@), c@);
    while i < xs.len()
        invariant
            i <= xs@.len(),
            all == renamed_arms(arms_v(xs@), c@),
            arms_v(out@) =~= all.take(i as int),
        decreases xs@.len() - i,
    {
        let c = MatchArm { pattern: copy_expr(&xs[i].pattern), body: rename_block(&xs[i].body, c) };
        proof {
            assert(arms_v(xs@)[i as int] == arm_v(xs@[i as int]));
            assert(all.take(i + 1) =~= all.take(i as int).push(arm_v(c)));
            assert(arms_v(out@.push(c)) =~= arms_v(out@).push(arm_v(c)));
        }
        out.push(c);
        i = i + 1;
    }
    proof {
        assert(all.take(xs@.len() as int) =~= all);
    }
    out
}

} // verus!
