//! What replacing type parameters and renaming calls leave as it is: the statements, branches and
//! expressions come out one by one, and nothing but types or called names differs.
use crate::ast::{no_expr, no_stmt, BlockV, ExprKindV, ExprV, FieldInitV, MatchArmV, StmtKindV, StmtV};
use crate::decl::FunctionV;
use crate::rename::{is_renamed, renamed_arms, renamed_block, renamed_expr, renamed_exprs, renamed_inits,
    renamed_stmt, renamed_stmts, RenamingV};
use crate::subst::{concrete, last_of, law_full_substitution_is_concrete, mentions, subst, subst_all, subst_arms,
    subst_block, subst_expr, subst_exprs, subst_function, subst_inits, subst_opt, subst_stmt, subst_stmts};
use crate::types::TypeV;
use vstd::prelude::*;

verus! {

/// Whether there is a type, whatever it is.
pub open spec fn untyped(t: Option<TypeV>) -> Option<TypeV> {
    match t {
        Some(_) => Some(TypeV::Void),
        None => None,
    }
}

/// An expression without its types, and without the names in it unless they are asked for.
pub open spec fn bare_expr(e: ExprV, names: bool) -> ExprV
    decreases e,
{
    ExprV {
        kind: match e.kind {
            ExprKindV::Identifier { name } => ExprKindV::Identifier {
                name: if names {
                    name
                } else {
                    Seq::empty()
                },
            },
            ExprKindV::Call { callee, args } => ExprKindV::Call {
                callee: Box::new(bare_expr(*callee, names)),
                args: bare_exprs(args, names),
            },
            ExprKindV::UnaryOp { op, expr } => ExprKindV::UnaryOp {
                op,
                expr: Box::new(bare_expr(*expr, names)),
            },
            ExprKindV::BinaryOp { op, left, right } => ExprKindV::BinaryOp {
                op,
                left: Box::new(bare_expr(*left, names)),
                right: Box::new(bare_expr(*right, names)),
            },
            ExprKindV::Assign { op, left, right } => ExprKindV::Assign {
                op,
                left: Box::new(bare_expr(*left, names)),
                right: Box::new(bare_expr(*right, names)),
            },
            ExprKindV::If { cond, then_branch, else_branch } => ExprKindV::If {
                cond: Box::new(bare_expr(*cond, names)),
                then_branch: Box::new(bare_expr(*then_branch, names)),
                else_branch: Box::new(bare_expr(*else_branch, names)),
            },
            ExprKindV::RangeLiteral { start, end } => ExprKindV::RangeLiteral {
                start: Box::new(bare_expr(*start, names)),
                end: Box::new(bare_expr(*end, names)),
            },
            ExprKindV::StructInit { struct_type, fields } => ExprKindV::StructInit {
                struct_type: untyped(struct_type),
                fields: bare_inits(fields, names),
            },
            ExprKindV::FieldAccess { expr, field_name } => ExprKindV::FieldAccess {
                expr: Box::new(bare_expr(*expr, names)),
                field_name,
            },
            ExprKindV::Index { expr, index } => ExprKindV::Index {
                expr: Box::new(bare_expr(*expr, names)),
                index: Box::new(bare_expr(*index, names)),
            },
            ExprKindV::ArrayLiteral { elements } => ExprKindV::ArrayLiteral {
                elements: bare_exprs(elements, names),
            },
            ExprKindV::TupleLit { elements } => ExprKindV::TupleLit {
                elements: bare_exprs(elements, names),
            },
            ExprKindV::EnumInit { enum_name, variant_name, args } => ExprKindV::EnumInit {
                enum_name,
                variant_name,
                args: bare_exprs(args, names),
            },
            other => other,
        },
        ty: e.ty,
        span: e.span,
    }
}

/// Expressions without their types.
pub open spec fn bare_exprs(es: Seq<ExprV>, names: bool) -> Seq<ExprV>
    decreases es,
{
    Seq::new(es.len(), |i: int| if 0 <= i < es.len() { bare_expr(es[i], names) } else { no_expr() })
}

/// Field values without their types.
pub open spec fn bare_inits(fs: Seq<FieldInitV>, names: bool) -> Seq<FieldInitV>
    decreases fs,
{
    Seq::new(
        fs.len(),
        |i: int|
            if 0 <= i < fs.len() {
                FieldInitV { name: fs[i].name, value: bare_expr(fs[i].value, names) }
            } else {
                FieldInitV { name: Seq::empty(), value: no_expr() }
            },
    )
}

/// An optional expression without its types.
pub open spec fn bare_opt(e: Option<ExprV>, names: bool) -> Option<ExprV> {
    match e {
        Some(x) => Some(bare_expr(x, names)),
        None => None,
    }
}

/// A statement without its types, and without the names in it unless they are asked for.
pub open spec fn bare_stmt(s: StmtV, names: bool) -> StmtV
    decreases s,
{
    StmtV {
        kind: match s.kind {
            StmtKindV::VarDecl { name, annotation, inferred, init } => StmtKindV::VarDecl {
                name,
                annotation: untyped(annotation),
                inferred,
                init: bare_opt(init, names),
            },
            StmtKindV::Expr(e) => StmtKindV::Expr(bare_expr(e, names)),
            StmtKindV::Return(e) => StmtKindV::Return(bare_opt(e, names)),
            StmtKindV::If { cond, then_branch, else_branch } => StmtKindV::If {
                cond: bare_expr(cond, names),
                then_branch: BlockV { stmts: bare_stmts(then_branch.stmts, names) },
                else_branch: match else_branch {
                    Some(b) => Some(BlockV { stmts: bare_stmts(b.stmts, names) }),
                    None => None,
                },
            },
            StmtKindV::While { cond, body } => StmtKindV::While {
                cond: bare_expr(cond, names),
                body: BlockV { stmts: bare_stmts(body.stmts, names) },
            },
            StmtKindV::For { var, iter, body } => StmtKindV::For {
                var,
                iter: bare_expr(iter, names),
                body: BlockV { stmts: bare_stmts(body.stmts, names) },
            },
            StmtKindV::Match { expr, arms } => StmtKindV::Match {
                expr: bare_expr(expr, names),
                arms: bare_arms(arms, names),
            },
            StmtKindV::Defer { body } => StmtKindV::Defer { body: Box::new(bare_stmt(*body, names)) },
            StmtKindV::Block(b) => StmtKindV::Block(BlockV { stmts: bare_stmts(b.stmts, names) }),
            other => other,
        },
        span: s.span,
    }
}

/// Statements without their types.
pub open spec fn bare_stmts(ss: Seq<StmtV>, names: bool) -> Seq<StmtV>
    decreases ss,
{
    Seq::new(ss.len(), |i: int| if 0 <= i < ss.len() { bare_stmt(ss[i], names) } else { no_stmt() })
}

/// Match arms without their types. Patterns stay as they are.
pub open spec fn bare_arms(xs: Seq<MatchArmV>, names: bool) -> Seq<MatchArmV>
    decreases xs,
{
    Seq::new(
        xs.len(),
        |i: int|
            if 0 <= i < xs.len() {
                MatchArmV { pattern: xs[i].pattern, body: BlockV { stmts: bare_stmts(xs[i].body.stmts, names) } }
            } else {
                MatchArmV { pattern: no_expr(), body: BlockV { stmts: Seq::empty() } }
            },
    )
}
pub proof fn lemma_replaced_expr(e: ExprV, m: Seq<(Seq<char>, TypeV)>)
    ensures
        bare_expr(subst_expr(e, m), true) == bare_expr(e, true),
    decreases e,
{
    match e.kind {
        ExprKindV::Call { callee, args } => {
            lemma_replaced_expr(*callee, m);
            lemma_replaced_expr_list(args, m);
        },
        ExprKindV::UnaryOp { op, expr } => {
            lemma_replaced_expr(*expr, m);
        },
        ExprKindV::BinaryOp { op, left, right } => {
            lemma_replaced_expr(*left, m);
            lemma_replaced_expr(*right, m);
        },
        ExprKindV::Assign { op, left, right } => {
            lemma_replaced_expr(*left, m);
            lemma_replaced_expr(*right, m);
        },
        ExprKindV::If { cond, then_branch, else_branch } => {
            lemma_replaced_expr(*cond, m);
            lemma_replaced_expr(*then_branch, m);
            lemma_replaced_expr(*else_branch, m);
        },
        ExprKindV::RangeLiteral { start, end } => {
            lemma_replaced_expr(*start, m);
            lemma_replaced_expr(*end, m);
        },
        ExprKindV::StructInit { struct_type, fields } => {
            assert forall|i: int| 0 <= i < fields.len() implies bare_expr(subst_expr(#[trigger] fields[i].value, m), true) == bare_expr(fields[i].value, true) by {
                lemma_replaced_expr(fields[i].value, m);
            }
            assert(bare_inits(subst_inits(fields, m), true) =~= bare_inits(fields, true));
        },
        ExprKindV::FieldAccess { expr, field_name } => {
            lemma_replaced_expr(*expr, m);
        },
        ExprKindV::Index { expr, index } => {
            lemma_replaced_expr(*expr, m);
            lemma_replaced_expr(*index, m);
        },
        ExprKindV::ArrayLiteral { elements } => {
            lemma_replaced_expr_list(elements, m);
        },
        ExprKindV::TupleLit { elements } => {
            lemma_replaced_expr_list(elements, m);
        },
        ExprKindV::EnumInit { enum_name, variant_name, args } => {
            lemma_replaced_expr_list(args, m);
        },
        _ => {},
    }
}

proof fn lemma_replaced_expr_list(es: Seq<ExprV>, m: Seq<(Seq<char>, TypeV)>)
    ensures
        bare_exprs(subst_exprs(es, m), true) == bare_exprs(es, true),
    decreases es,
{
    assert forall|i: int| 0 <= i < es.len() implies bare_expr(subst_expr(#[trigger] es[i], m), true) == bare_expr(es[i], true) by {
        lemma_replaced_expr(es[i], m);
    }
    assert(bare_exprs(subst_exprs(es, m), true) =~= bare_exprs(es, true));
}

/// Replacing type parameters in a statement changes nothing but types: without its types, the statement
/// that comes out is the one that went in.
pub proof fn law_replacement_changes_only_types(s: StmtV, m: Seq<(Seq<char>, TypeV)>)
    ensures
        bare_stmt(subst_stmt(s, m), true) == bare_stmt(s, true),
    decreases s,
{
    match s.kind {
        StmtKindV::VarDecl { annotation, init, .. } => {
            if let Some(x) = init {
                lemma_replaced_expr(x, m);
            }
        },
        StmtKindV::Expr(x) => {
            lemma_replaced_expr(x, m);
        },
        StmtKindV::Return(x) => {
            if let Some(x) = x {
                lemma_replaced_expr(x, m);
            }
        },
        StmtKindV::If { cond, then_branch, else_branch } => {
            lemma_replaced_expr(cond, m);
            law_replacement_changes_only_types_list(then_branch.stmts, m);
            assert(subst_block(then_branch, m).stmts == subst_stmts(then_branch.stmts, m));
            if let Some(b) = else_branch {
                law_replacement_changes_only_types_list(b.stmts, m);
                assert(subst_block(b, m).stmts == subst_stmts(b.stmts, m));
            }
        },
        StmtKindV::While { cond, body } => {
            lemma_replaced_expr(cond, m);
            law_replacement_changes_only_types_list(body.stmts, m);
            assert(subst_block(body, m).stmts == subst_stmts(body.stmts, m));
        },
        StmtKindV::For { iter, body, .. } => {
            lemma_replaced_expr(iter, m);
            law_replacement_changes_only_types_list(body.stmts, m);
            assert(subst_block(body, m).stmts == subst_stmts(body.stmts, m));
        },
        StmtKindV::Match { expr, arms } => {
            lemma_replaced_expr(expr, m);
            assert forall|i: int| 0 <= i < arms.len() implies bare_stmts(subst_block(#[trigger] arms[i].body, m).stmts, true) == bare_stmts(arms[i].body.stmts, true) by {
                law_replacement_changes_only_types_list(arms[i].body.stmts, m);
                assert(subst_block(arms[i].body, m).stmts == subst_stmts(arms[i].body.stmts, m));
            }
            assert(bare_arms(subst_arms(arms, m), true) =~= bare_arms(arms, true));
        },
        StmtKindV::Defer { body } => {
            law_replacement_changes_only_types(*body, m);
        },
        StmtKindV::Block(b) => {
            law_replacement_changes_only_types_list(b.stmts, m);
            assert(subst_block(b, m).stmts == subst_stmts(b.stmts, m));
        },
        _ => {},
    }
}

proof fn law_replacement_changes_only_types_list(ss: Seq<StmtV>, m: Seq<(Seq<char>, TypeV)>)
    ensures
        bare_stmts(subst_stmts(ss, m), true) == bare_stmts(ss, true),
    decreases ss,
{
    assert forall|i: int| 0 <= i < ss.len() implies bare_stmt(subst_stmt(#[trigger] ss[i], m), true) == bare_stmt(ss[i], true) by {
        law_replacement_changes_only_types(ss[i], m);
    }
    assert(bare_stmts(subst_stmts(ss, m), true) =~= bare_stmts(ss, true));
}

proof fn lemma_renamed_expr(e: ExprV, c: RenamingV)
    ensures
        bare_expr(renamed_expr(e, c), false) == bare_expr(e, false),
    decreases e,
{
    match e.kind {
        ExprKindV::Call { callee, args } => {
            lemma_renamed_expr(*callee, c);
            lemma_renamed_expr_list(args, c);
            if is_renamed(e, *callee, c) {
                let named = ExprV { kind: ExprKindV::Identifier { name: c.name }, ..*callee };
                assert(bare_expr(named, false) == bare_expr(*callee, false));
            }
        },
        ExprKindV::UnaryOp { op, expr } => {
            lemma_renamed_expr(*expr, c);
        },
        ExprKindV::BinaryOp { op, left, right } => {
            lemma_renamed_expr(*left, c);
            lemma_renamed_expr(*right, c);
        },
        ExprKindV::Assign { op, left, right } => {
            lemma_renamed_expr(*left, c);
            lemma_renamed_expr(*right, c);
        },
        ExprKindV::If { cond, then_branch, else_branch } => {
            lemma_renamed_expr(*cond, c);
            lemma_renamed_expr(*then_branch, c);
            lemma_renamed_expr(*else_branch, c);
        },
        ExprKindV::RangeLiteral { start, end } => {
            lemma_renamed_expr(*start, c);
            lemma_renamed_expr(*end, c);
        },
        ExprKindV::StructInit { struct_type, fields } => {
            assert forall|i: int| 0 <= i < fields.len() implies bare_expr(renamed_expr(#[trigger] fields[i].value, c), false) == bare_expr(fields[i].value, false) by {
                lemma_renamed_expr(fields[i].value, c);
            }
            assert(bare_inits(renamed_inits(fields, c), false) =~= bare_inits(fields, false));
        },
        ExprKindV::FieldAccess { expr, field_name } => {
            lemma_renamed_expr(*expr, c);
        },
        ExprKindV::Index { expr, index } => {
            lemma_renamed_expr(*expr, c);
            lemma_renamed_expr(*index, c);
        },
        ExprKindV::ArrayLiteral { elements } => {
            lemma_renamed_expr_list(elements, c);
        },
        ExprKindV::TupleLit { elements } => {
            lemma_renamed_expr_list(elements, c);
        },
        ExprKindV::EnumInit { enum_name, variant_name, args } => {
            lemma_renamed_expr_list(args, c);
        },
        _ => {},
    }
}

proof fn lemma_renamed_expr_list(es: Seq<ExprV>, c: RenamingV)
    ensures
        bare_exprs(renamed_exprs(es, c), false) == bare_exprs(es, false),
    decreases es,
{
    assert forall|i: int| 0 <= i < es.len() implies bare_expr(renamed_expr(#[trigger] es[i], c), false) == bare_expr(es[i], false) by {
        lemma_renamed_expr(es[i], c);
    }
    assert(bare_exprs(renamed_exprs(es, c), false) =~= bare_exprs(es, false));
}

/// Renaming calls in a statement changes nothing but names: without its names, the statement that comes
/// out is the one that went in.
pub proof fn law_renaming_changes_only_names(s: StmtV, c: RenamingV)
    ensures
        bare_stmt(renamed_stmt(s, c), false) == bare_stmt(s, false),
    decreases s,
{
    match s.kind {
        StmtKindV::VarDecl { annotation, init, .. } => {
            if let Some(x) = init {
                lemma_renamed_expr(x, c);
            }
        },
        StmtKindV::Expr(x) => {
            lemma_renamed_expr(x, c);
        },
        StmtKindV::Return(x) => {
            if let Some(x) = x {
                lemma_renamed_expr(x, c);
            }
        },
        StmtKindV::If { cond, then_branch, else_branch } => {
            lemma_renamed_expr(cond, c);
            law_renaming_changes_only_names_list(then_branch.stmts, c);
            assert(renamed_block(then_branch, c).stmts == renamed_stmts(then_branch.stmts, c));
            if let Some(b) = else_branch {
                law_renaming_changes_only_names_list(b.stmts, c);
                assert(renamed_block(b, c).stmts == renamed_stmts(b.stmts, c));
            }
        },
        StmtKindV::While { cond, body } => {
            lemma_renamed_expr(cond, c);
            law_renaming_changes_only_names_list(body.stmts, c);
            assert(renamed_block(body, c).stmts == renamed_stmts(body.stmts, c));
        },
        StmtKindV::For { iter, body, .. } => {
            lemma_renamed_expr(iter, c);
            law_renaming_changes_only_names_list(body.stmts, c);
            assert(renamed_block(body, c).stmts == renamed_stmts(body.stmts, c));
        },
        StmtKindV::Match { expr, arms } => {
            lemma_renamed_expr(expr, c);
            assert forall|i: int| 0 <= i < arms.len() implies bare_stmts(renamed_block(#[trigger] arms[i].body, c).stmts, false) == bare_stmts(arms[i].body.stmts, false) by {
                law_renaming_changes_only_names_list(arms[i].body.stmts, c);
                assert(renamed_block(arms[i].body, c).stmts == renamed_stmts(arms[i].body.stmts, c));
            }
            assert(bare_arms(renamed_arms(arms, c), false) =~= bare_arms(arms, false));
        },
        StmtKindV::Defer { body } => {
            law_renaming_changes_only_names(*body, c);
        },
        StmtKindV::Block(b) => {
            law_renaming_changes_only_names_list(b.stmts, c);
            assert(renamed_block(b, c).stmts == renamed_stmts(b.stmts, c));
        },
        _ => {},
    }
}

proof fn law_renaming_changes_only_names_list(ss: Seq<StmtV>, c: RenamingV)
    ensures
        bare_stmts(renamed_stmts(ss, c), false) == bare_stmts(ss, false),
    decreases ss,
{
    assert forall|i: int| 0 <= i < ss.len() implies bare_stmt(renamed_stmt(#[trigger] ss[i], c), false) == bare_stmt(ss[i], false) by {
        law_renaming_changes_only_names(ss[i], c);
    }
    assert(bare_stmts(renamed_stmts(ss, c), false) =~= bare_stmts(ss, false));
}

/// Replacing type parameters in a function keeps its name, its parameters' names, and its body but for
/// types.
pub proof fn law_replaced_function(f: FunctionV, m: Seq<(Seq<char>, TypeV)>)
    ensures
        ({
            let g = subst_function(f, m);
            &&& g.name == f.name
            &&& bare_stmts(g.body.stmts, true) == bare_stmts(f.body.stmts, true)
            &&& g.params.len() == f.params.len()
            &&& forall|i: int|
                0 <= i < f.params.len() ==> (#[trigger] g.params[i]).name == f.params[i].name && g.params[i].annotation
                    == subst_opt(f.params[i].annotation, m)
            &&& g.return_type == subst_opt(f.return_type, m)
            &&& g.metadata == f.metadata
            &&& g.is_public == f.is_public
        }),
{
    law_replacement_changes_only_types_list(f.body.stmts, m);
}

/// Whether all types written in an expression have a property.
pub open spec fn types_in_expr(e: ExprV, p: spec_fn(TypeV) -> bool) -> bool
    decreases e,
{
    match e.kind {
        ExprKindV::Call { callee, args } => types_in_expr(*callee, p) && types_in_exprs(args, p),
        ExprKindV::UnaryOp { op, expr } => types_in_expr(*expr, p),
        ExprKindV::BinaryOp { op, left, right } => types_in_expr(*left, p) && types_in_expr(*right, p),
        ExprKindV::Assign { op, left, right } => types_in_expr(*left, p) && types_in_expr(*right, p),
        ExprKindV::If { cond, then_branch, else_branch } => types_in_expr(*cond, p) && types_in_expr(*then_branch, p) && types_in_expr(*else_branch, p),
        ExprKindV::RangeLiteral { start, end } => types_in_expr(*start, p) && types_in_expr(*end, p),
        ExprKindV::StructInit { struct_type, fields } => type_in(struct_type, p) && types_in_inits(fields, p),
        ExprKindV::FieldAccess { expr, field_name } => types_in_expr(*expr, p),
        ExprKindV::Index { expr, index } => types_in_expr(*expr, p) && types_in_expr(*index, p),
        ExprKindV::ArrayLiteral { elements } => types_in_exprs(elements, p),
        ExprKindV::TupleLit { elements } => types_in_exprs(elements, p),
        ExprKindV::EnumInit { enum_name, variant_name, args } => types_in_exprs(args, p),
        _ => true,
    }
}

/// Whether a type, where there is one, has a property.
pub open spec fn type_in(t: Option<TypeV>, p: spec_fn(TypeV) -> bool) -> bool {
    match t {
        Some(x) => p(x),
        None => true,
    }
}

/// Whether all types written in expressions have a property.
pub open spec fn types_in_exprs(es: Seq<ExprV>, p: spec_fn(TypeV) -> bool) -> bool
    decreases es,
{
    forall|i: int| 0 <= i < es.len() ==> types_in_expr(#[trigger] es[i], p)
}

/// Whether all types written in field values have a property.
pub open spec fn types_in_inits(fs: Seq<FieldInitV>, p: spec_fn(TypeV) -> bool) -> bool
    decreases fs,
{
    forall|i: int| 0 <= i < fs.len() ==> types_in_expr((#[trigger] fs[i]).value, p)
}

/// Whether all types written in a statement have a property.
pub open spec fn types_in_stmt(s: StmtV, p: spec_fn(TypeV) -> bool) -> bool
    decreases s,
{
    match s.kind {
        StmtKindV::VarDecl { annotation, init, .. } => type_in(annotation, p) && (init is Some ==> types_in_expr(init->0, p)),
        StmtKindV::Expr(e) => types_in_expr(e, p),
        StmtKindV::Return(e) => e is Some ==> types_in_expr(e->0, p),
        StmtKindV::If { cond, then_branch, else_branch } => types_in_expr(cond, p) && types_in_stmts(then_branch.stmts, p)
            && match else_branch {
            Some(b) => types_in_stmts(b.stmts, p),
            None => true,
        },
        StmtKindV::While { cond, body } => types_in_expr(cond, p) && types_in_stmts(body.stmts, p),
        StmtKindV::For { iter, body, .. } => types_in_expr(iter, p) && types_in_stmts(body.stmts, p),
        StmtKindV::Match { expr, arms } => types_in_expr(expr, p) && types_in_arms(arms, p),
        StmtKindV::Defer { body } => types_in_stmt(*body, p),
        StmtKindV::Block(b) => types_in_stmts(b.stmts, p),
        _ => true,
    }
}

/// The same of statements.
pub open spec fn types_in_stmts(ss: Seq<StmtV>, p: spec_fn(TypeV) -> bool) -> bool
    decreases ss,
{
    forall|i: int| 0 <= i < ss.len() ==> types_in_stmt(#[trigger] ss[i], p)
}

/// The same of match arms. Patterns are left out: nothing is replaced in them.
pub open spec fn types_in_arms(xs: Seq<MatchArmV>, p: spec_fn(TypeV) -> bool) -> bool
    decreases xs,
{
    forall|i: int| 0 <= i < xs.len() ==> types_in_stmts((#[trigger] xs[i]).body.stmts, p)
}

/// Types that mention no replaced type parameter.
pub open spec fn mentions_none(m: Seq<(Seq<char>, TypeV)>) -> spec_fn(TypeV) -> bool {
    |t: TypeV| forall|n: Seq<char>| #[trigger] mentions(t, n) ==> last_of(m, n) is None
}

/// Types without type parameters.
pub open spec fn concrete_types() -> spec_fn(TypeV) -> bool {
    |t: TypeV| concrete(t)
}

/// Types of which every type parameter is replaced by one without type parameters.
pub open spec fn all_replaced(m: Seq<(Seq<char>, TypeV)>) -> spec_fn(TypeV) -> bool {
    |t: TypeV|
        forall|n: Seq<char>| #[trigger] mentions(t, n) ==> last_of(m, n) is Some && concrete(last_of(m, n)->0)
}

/// A type that mentions no replaced type parameter stays as it is. With nothing to replace, all do.
pub proof fn law_untouched_types_stay(t: TypeV, m: Seq<(Seq<char>, TypeV)>)
    requires
        mentions_none(m)(t),
    ensures
        subst(t, m) == t,
    decreases t,
{
    match t {
        TypeV::TypeParam(name) => {
            assert(mentions(t, name));
        },
        TypeV::Instance { base, args } => {
            lemma_untouched_list(t, args, m);
        },
        TypeV::Ptr(x) => {
            assert forall|n: Seq<char>| #[trigger] mentions(*x, n) implies last_of(m, n) is None by {
                assert(mentions(t, n));
            }
            law_untouched_types_stay(*x, m);
        },
        TypeV::Tuple(xs) => {
            lemma_untouched_list(t, xs, m);
        },
        TypeV::CArray(x, k) => {
            assert forall|n: Seq<char>| #[trigger] mentions(*x, n) implies last_of(m, n) is None by {
                assert(mentions(t, n));
            }
            law_untouched_types_stay(*x, m);
        },
        TypeV::Function { param_tys, ret_ty } => {
            lemma_untouched_list(t, param_tys, m);
            assert forall|n: Seq<char>| #[trigger] mentions(*ret_ty, n) implies last_of(m, n) is None by {
                assert(mentions(t, n));
            }
            law_untouched_types_stay(*ret_ty, m);
        },
        _ => {},
    }
}

proof fn lemma_untouched_list(t: TypeV, ts: Seq<TypeV>, m: Seq<(Seq<char>, TypeV)>)
    requires
        mentions_none(m)(t),
        forall|n: Seq<char>| #[trigger] crate::subst::some_mentions(ts, n) ==> mentions(t, n),
    ensures
        subst_all(ts, m) == ts,
    decreases ts,
{
    assert forall|i: int| 0 <= i < ts.len() implies subst(#[trigger] ts[i], m) == ts[i] by {
        assert forall|n: Seq<char>| #[trigger] mentions(ts[i], n) implies last_of(m, n) is None by {
            assert(crate::subst::some_mentions(ts, n));
            assert(mentions(t, n));
        }
        law_untouched_types_stay(ts[i], m);
    }
    assert(subst_all(ts, m) =~= ts);
}

/// The last replacement of a type parameter counts, and replacements of others do not touch it.
pub proof fn law_last_replacement_counts(m: Seq<(Seq<char>, TypeV)>, k: Seq<char>, n: Seq<char>, u: TypeV)
    ensures
        subst(TypeV::TypeParam(k), m.push((k, u))) == u,
        n != k ==> subst(TypeV::TypeParam(n), m.push((k, u))) == subst(TypeV::TypeParam(n), m),
        subst(TypeV::TypeParam(k), Seq::empty()) == TypeV::TypeParam(k),
{
    assert(m.push((k, u)).drop_last() =~= m);
}

proof fn lemma_untouched_expr(e: ExprV, m: Seq<(Seq<char>, TypeV)>)
    requires
        types_in_expr(e, mentions_none(m)),
    ensures
        subst_expr(e, m) == e,
    decreases e,
{
    match e.kind {
        ExprKindV::Call { callee, args } => {
            lemma_untouched_expr(*callee, m);
            lemma_untouched_expr_list(args, m);
        },
        ExprKindV::UnaryOp { op, expr } => {
            lemma_untouched_expr(*expr, m);
        },
        ExprKindV::BinaryOp { op, left, right } => {
            lemma_untouched_expr(*left, m);
            lemma_untouched_expr(*right, m);
        },
        ExprKindV::Assign { op, left, right } => {
            lemma_untouched_expr(*left, m);
            lemma_untouched_expr(*right, m);
        },
        ExprKindV::If { cond, then_branch, else_branch } => {
            lemma_untouched_expr(*cond, m);
            lemma_untouched_expr(*then_branch, m);
            lemma_untouched_expr(*else_branch, m);
        },
        ExprKindV::RangeLiteral { start, end } => {
            lemma_untouched_expr(*start, m);
            lemma_untouched_expr(*end, m);
        },
        ExprKindV::StructInit { struct_type, fields } => {
            assert(types_in_inits(fields, mentions_none(m)));
            assert forall|i: int| 0 <= i < fields.len() implies subst_expr(#[trigger] fields[i].value, m) == fields[i].value by {
                lemma_untouched_expr(fields[i].value, m);
            }
            assert(subst_inits(fields, m) =~= fields);
            if let Some(t) = struct_type {
                law_untouched_types_stay(t, m);
            }
        },
        ExprKindV::FieldAccess { expr, field_name } => {
            lemma_untouched_expr(*expr, m);
        },
        ExprKindV::Index { expr, index } => {
            lemma_untouched_expr(*expr, m);
            lemma_untouched_expr(*index, m);
        },
        ExprKindV::ArrayLiteral { elements } => {
            lemma_untouched_expr_list(elements, m);
        },
        ExprKindV::TupleLit { elements } => {
            lemma_untouched_expr_list(elements, m);
        },
        ExprKindV::EnumInit { enum_name, variant_name, args } => {
            lemma_untouched_expr_list(args, m);
        },
        _ => {},
    }
}

proof fn lemma_untouched_expr_list(es: Seq<ExprV>, m: Seq<(Seq<char>, TypeV)>)
    requires
        types_in_exprs(es, mentions_none(m)),
    ensures
        subst_exprs(es, m) == es,
    decreases es,
{
    assert forall|i: int| 0 <= i < es.len() implies subst_expr(#[trigger] es[i], m) == es[i] by {
        lemma_untouched_expr(es[i], m);
    }
    assert(subst_exprs(es, m) =~= es);
}

/// A statement in which no written type mentions a replaced type parameter comes out as it went in. With
/// nothing to replace, every statement does.
pub proof fn law_untouched_statements_stay(s: StmtV, m: Seq<(Seq<char>, TypeV)>)
    requires
        types_in_stmt(s, mentions_none(m)),
    ensures
        subst_stmt(s, m) == s,
    decreases s,
{
    match s.kind {
        StmtKindV::VarDecl { annotation, init, .. } => {
            if let Some(t) = annotation {
                law_untouched_types_stay(t, m);
            }
            if let Some(x) = init {
                lemma_untouched_expr(x, m);
            }
        },
        StmtKindV::Expr(x) => {
            lemma_untouched_expr(x, m);
        },
        StmtKindV::Return(x) => {
            if let Some(x) = x {
                lemma_untouched_expr(x, m);
            }
        },
        StmtKindV::If { cond, then_branch, else_branch } => {
            lemma_untouched_expr(cond, m);
            law_untouched_statements_stay_list(then_branch.stmts, m);
            assert(subst_block(then_branch, m).stmts == subst_stmts(then_branch.stmts, m));
            if let Some(b) = else_branch {
                law_untouched_statements_stay_list(b.stmts, m);
                assert(subst_block(b, m).stmts == subst_stmts(b.stmts, m));
            }
        },
        StmtKindV::While { cond, body } => {
            lemma_untouched_expr(cond, m);
            law_untouched_statements_stay_list(body.stmts, m);
            assert(subst_block(body, m).stmts == subst_stmts(body.stmts, m));
        },
        StmtKindV::For { iter, body, .. } => {
            lemma_untouched_expr(iter, m);
            law_untouched_statements_stay_list(body.stmts, m);
            assert(subst_block(body, m).stmts == subst_stmts(body.stmts, m));
        },
        StmtKindV::Match { expr, arms } => {
            lemma_untouched_expr(expr, m);
            assert(types_in_arms(arms, mentions_none(m)));
            assert forall|i: int| 0 <= i < arms.len() implies subst_block((#[trigger] arms[i]).body, m).stmts == arms[i].body.stmts by {
                law_untouched_statements_stay_list(arms[i].body.stmts, m);
                assert(subst_block(arms[i].body, m).stmts == subst_stmts(arms[i].body.stmts, m));
            }
            assert(subst_arms(arms, m) =~= arms);
        },
        StmtKindV::Defer { body } => {
            law_untouched_statements_stay(*body, m);
        },
        StmtKindV::Block(b) => {
            law_untouched_statements_stay_list(b.stmts, m);
            assert(subst_block(b, m).stmts == subst_stmts(b.stmts, m));
        },
        _ => {},
    }
}

proof fn law_untouched_statements_stay_list(ss: Seq<StmtV>, m: Seq<(Seq<char>, TypeV)>)
    requires
        types_in_stmts(ss, mentions_none(m)),
    ensures
        subst_stmts(ss, m) == ss,
    decreases ss,
{
    assert forall|i: int| 0 <= i < ss.len() implies subst_stmt(#[trigger] ss[i], m) == ss[i] by {
        law_untouched_statements_stay(ss[i], m);
    }
    assert(subst_stmts(ss, m) =~= ss);
}

/// With nothing to replace, every statement comes out as it went in.
pub proof fn law_nothing_to_replace(s: StmtV)
    ensures
        subst_stmt(s, Seq::empty()) == s,
{
    lemma_any_types_stmt(s, Seq::empty());
    law_untouched_statements_stay(s, Seq::empty());
}

proof fn lemma_any_types(e: ExprV, m: Seq<(Seq<char>, TypeV)>)
    requires
        m.len() == 0,
    ensures
        types_in_expr(e, mentions_none(m)),
    decreases e,
{
    match e.kind {
        ExprKindV::Call { callee, args } => {
            lemma_any_types(*callee, m);
            lemma_any_types_list(args, m);
        },
        ExprKindV::UnaryOp { op, expr } => {
            lemma_any_types(*expr, m);
        },
        ExprKindV::BinaryOp { op, left, right } => {
            lemma_any_types(*left, m);
            lemma_any_types(*right, m);
        },
        ExprKindV::Assign { op, left, right } => {
            lemma_any_types(*left, m);
            lemma_any_types(*right, m);
        },
        ExprKindV::If { cond, then_branch, else_branch } => {
            lemma_any_types(*cond, m);
            lemma_any_types(*then_branch, m);
            lemma_any_types(*else_branch, m);
        },
        ExprKindV::RangeLiteral { start, end } => {
            lemma_any_types(*start, m);
            lemma_any_types(*end, m);
        },
        ExprKindV::StructInit { struct_type, fields } => {
            assert forall|i: int| 0 <= i < fields.len() implies types_in_expr((#[trigger] fields[i]).value, mentions_none(m)) by {
                lemma_any_types(fields[i].value, m);
            }
            assert(types_in_inits(fields, mentions_none(m)));
        },
        ExprKindV::FieldAccess { expr, field_name } => {
            lemma_any_types(*expr, m);
        },
        ExprKindV::Index { expr, index } => {
            lemma_any_types(*expr, m);
            lemma_any_types(*index, m);
        },
        ExprKindV::ArrayLiteral { elements } => {
            lemma_any_types_list(elements, m);
        },
        ExprKindV::TupleLit { elements } => {
            lemma_any_types_list(elements, m);
        },
        ExprKindV::EnumInit { enum_name, variant_name, args } => {
            lemma_any_types_list(args, m);
        },
        _ => {},
    }
}

proof fn lemma_any_types_list(es: Seq<ExprV>, m: Seq<(Seq<char>, TypeV)>)
    requires
        m.len() == 0,
    ensures
        types_in_exprs(es, mentions_none(m)),
    decreases es,
{
    assert forall|i: int| 0 <= i < es.len() implies types_in_expr(#[trigger] es[i], mentions_none(m)) by {
        lemma_any_types(es[i], m);
    }
}

proof fn lemma_any_types_stmt(s: StmtV, m: Seq<(Seq<char>, TypeV)>)
    requires
        m.len() == 0,
    ensures
        types_in_stmt(s, mentions_none(m)),
    decreases s,
{
    match s.kind {
        StmtKindV::VarDecl { annotation, init, .. } => {
            if let Some(x) = init {
                lemma_any_types(x, m);
            }
        },
        StmtKindV::Expr(x) => {
            lemma_any_types(x, m);
        },
        StmtKindV::Return(x) => {
            if let Some(x) = x {
                lemma_any_types(x, m);
            }
        },
        StmtKindV::If { cond, then_branch, else_branch } => {
            lemma_any_types(cond, m);
            lemma_any_types_stmt_list(then_branch.stmts, m);
            if let Some(b) = else_branch {
                lemma_any_types_stmt_list(b.stmts, m);
            }
        },
        StmtKindV::While { cond, body } => {
            lemma_any_types(cond, m);
            lemma_any_types_stmt_list(body.stmts, m);
        },
        StmtKindV::For { iter, body, .. } => {
            lemma_any_types(iter, m);
            lemma_any_types_stmt_list(body.stmts, m);
        },
        StmtKindV::Match { expr, arms } => {
            lemma_any_types(expr, m);
            assert forall|i: int| 0 <= i < arms.len() implies types_in_stmts((#[trigger] arms[i]).body.stmts, mentions_none(m)) by {
                lemma_any_types_stmt_list(arms[i].body.stmts, m);
            }
            assert(types_in_arms(arms, mentions_none(m)));
        },
        StmtKindV::Defer { body } => {
            lemma_any_types_stmt(*body, m);
        },
        StmtKindV::Block(b) => {
            lemma_any_types_stmt_list(b.stmts, m);
        },
        _ => {},
    }
}

proof fn lemma_any_types_stmt_list(ss: Seq<StmtV>, m: Seq<(Seq<char>, TypeV)>)
    requires
        m.len() == 0,
    ensures
        types_in_stmts(ss, mentions_none(m)),
    decreases ss,
{
    assert forall|i: int| 0 <= i < ss.len() implies types_in_stmt(#[trigger] ss[i], mentions_none(m)) by {
        lemma_any_types_stmt(ss[i], m);
    }
}

proof fn lemma_full_expr(e: ExprV, m: Seq<(Seq<char>, TypeV)>)
    requires
        types_in_expr(e, all_replaced(m)),
    ensures
        types_in_expr(subst_expr(e, m), concrete_types()),
    decreases e,
{
    match e.kind {
        ExprKindV::Call { callee, args } => {
            lemma_full_expr(*callee, m);
            lemma_full_expr_list(args, m);
        },
        ExprKindV::UnaryOp { op, expr } => {
            lemma_full_expr(*expr, m);
        },
        ExprKindV::BinaryOp { op, left, right } => {
            lemma_full_expr(*left, m);
            lemma_full_expr(*right, m);
        },
        ExprKindV::Assign { op, left, right } => {
            lemma_full_expr(*left, m);
            lemma_full_expr(*right, m);
        },
        ExprKindV::If { cond, then_branch, else_branch } => {
            lemma_full_expr(*cond, m);
            lemma_full_expr(*then_branch, m);
            lemma_full_expr(*else_branch, m);
        },
        ExprKindV::RangeLiteral { start, end } => {
            lemma_full_expr(*start, m);
            lemma_full_expr(*end, m);
        },
        ExprKindV::StructInit { struct_type, fields } => {
            assert(types_in_inits(fields, all_replaced(m)));
            assert forall|i: int| 0 <= i < fields.len() implies types_in_expr(subst_expr((#[trigger] fields[i]).value, m), concrete_types()) by {
                lemma_full_expr(fields[i].value, m);
            }
            assert(types_in_inits(subst_inits(fields, m), concrete_types()));
            if let Some(t) = struct_type {
                law_full_substitution_is_concrete(t, m);
            }
        },
        ExprKindV::FieldAccess { expr, field_name } => {
            lemma_full_expr(*expr, m);
        },
        ExprKindV::Index { expr, index } => {
            lemma_full_expr(*expr, m);
            lemma_full_expr(*index, m);
        },
        ExprKindV::ArrayLiteral { elements } => {
            lemma_full_expr_list(elements, m);
        },
        ExprKindV::TupleLit { elements } => {
            lemma_full_expr_list(elements, m);
        },
        ExprKindV::EnumInit { enum_name, variant_name, args } => {
            lemma_full_expr_list(args, m);
        },
        _ => {},
    }
}

proof fn lemma_full_expr_list(es: Seq<ExprV>, m: Seq<(Seq<char>, TypeV)>)
    requires
        types_in_exprs(es, all_replaced(m)),
    ensures
        types_in_exprs(subst_exprs(es, m), concrete_types()),
    decreases es,
{
    assert forall|i: int| 0 <= i < es.len() implies types_in_expr(subst_expr(#[trigger] es[i], m), concrete_types()) by {
        lemma_full_expr(es[i], m);
    }
}

/// Where every type parameter of a statement is replaced, none is left in what comes out.
pub proof fn law_replaced_statements_are_concrete(s: StmtV, m: Seq<(Seq<char>, TypeV)>)
    requires
        types_in_stmt(s, all_replaced(m)),
    ensures
        types_in_stmt(subst_stmt(s, m), concrete_types()),
    decreases s,
{
    match s.kind {
        StmtKindV::VarDecl { annotation, init, .. } => {
            if let Some(t) = annotation {
                law_full_substitution_is_concrete(t, m);
            }
            if let Some(x) = init {
                lemma_full_expr(x, m);
            }
        },
        StmtKindV::Expr(x) => {
            lemma_full_expr(x, m);
        },
        StmtKindV::Return(x) => {
            if let Some(x) = x {
                lemma_full_expr(x, m);
            }
        },
        StmtKindV::If { cond, then_branch, else_branch } => {
            lemma_full_expr(cond, m);
            law_replaced_statements_are_concrete_list(then_branch.stmts, m);
            assert(subst_block(then_branch, m).stmts == subst_stmts(then_branch.stmts, m));
            if let Some(b) = else_branch {
                law_replaced_statements_are_concrete_list(b.stmts, m);
                assert(subst_block(b, m).stmts == subst_stmts(b.stmts, m));
            }
        },
        StmtKindV::While { cond, body } => {
            lemma_full_expr(cond, m);
            law_replaced_statements_are_concrete_list(body.stmts, m);
            assert(subst_block(body, m).stmts == subst_stmts(body.stmts, m));
        },
        StmtKindV::For { iter, body, .. } => {
            lemma_full_expr(iter, m);
            law_replaced_statements_are_concrete_list(body.stmts, m);
            assert(subst_block(body, m).stmts == subst_stmts(body.stmts, m));
        },
        StmtKindV::Match { expr, arms } => {
            lemma_full_expr(expr, m);
            assert(types_in_arms(arms, all_replaced(m)));
            assert forall|i: int| 0 <= i < arms.len() implies types_in_stmts(subst_block((#[trigger] arms[i]).body, m).stmts, concrete_types()) by {
                law_replaced_statements_are_concrete_list(arms[i].body.stmts, m);
                assert(subst_block(arms[i].body, m).stmts == subst_stmts(arms[i].body.stmts, m));
            }
            assert(types_in_arms(subst_arms(arms, m), concrete_types()));
        },
        StmtKindV::Defer { body } => {
            law_replaced_statements_are_concrete(*body, m);
        },
        StmtKindV::Block(b) => {
            law_replaced_statements_are_concrete_list(b.stmts, m);
            assert(subst_block(b, m).stmts == subst_stmts(b.stmts, m));
        },
        _ => {},
    }
}

proof fn law_replaced_statements_are_concrete_list(ss: Seq<StmtV>, m: Seq<(Seq<char>, TypeV)>)
    requires
        types_in_stmts(ss, all_replaced(m)),
    ensures
        types_in_stmts(subst_stmts(ss, m), concrete_types()),
    decreases ss,
{
    assert forall|i: int| 0 <= i < ss.len() implies types_in_stmt(subst_stmt(#[trigger] ss[i], m), concrete_types()) by {
        law_replaced_statements_are_concrete(ss[i], m);
    }
}

/// Whether an expression holds no call that is to be renamed.
pub open spec fn no_hit_expr(e: ExprV, c: RenamingV) -> bool
    decreases e,
{
    match e.kind {
        ExprKindV::Call { callee, args } => !is_renamed(e, *callee, c) && no_hit_expr(*callee, c) && no_hit_exprs(args, c),
        ExprKindV::UnaryOp { op, expr } => no_hit_expr(*expr, c),
        ExprKindV::BinaryOp { op, left, right } => no_hit_expr(*left, c) && no_hit_expr(*right, c),
        ExprKindV::Assign { op, left, right } => no_hit_expr(*left, c) && no_hit_expr(*right, c),
        ExprKindV::If { cond, then_branch, else_branch } => no_hit_expr(*cond, c) && no_hit_expr(*then_branch, c) && no_hit_expr(*else_branch, c),
        ExprKindV::RangeLiteral { start, end } => no_hit_expr(*start, c) && no_hit_expr(*end, c),
        ExprKindV::StructInit { struct_type, fields } => no_hit_inits(fields, c),
        ExprKindV::FieldAccess { expr, field_name } => no_hit_expr(*expr, c),
        ExprKindV::Index { expr, index } => no_hit_expr(*expr, c) && no_hit_expr(*index, c),
        ExprKindV::ArrayLiteral { elements } => no_hit_exprs(elements, c),
        ExprKindV::TupleLit { elements } => no_hit_exprs(elements, c),
        ExprKindV::EnumInit { enum_name, variant_name, args } => no_hit_exprs(args, c),
        _ => true,
    }
}

/// Whether expressions hold no call that is to be renamed.
pub open spec fn no_hit_exprs(es: Seq<ExprV>, c: RenamingV) -> bool
    decreases es,
{
    forall|i: int| 0 <= i < es.len() ==> no_hit_expr(#[trigger] es[i], c)
}

/// Whether field values hold no call that is to be renamed.
pub open spec fn no_hit_inits(fs: Seq<FieldInitV>, c: RenamingV) -> bool
    decreases fs,
{
    forall|i: int| 0 <= i < fs.len() ==> no_hit_expr((#[trigger] fs[i]).value, c)
}

/// Whether a statement holds no call that is to be renamed.
pub open spec fn no_hit_stmt(s: StmtV, c: RenamingV) -> bool
    decreases s,
{
    match s.kind {
        StmtKindV::VarDecl { annotation, init, .. } => (init is Some ==> no_hit_expr(init->0, c)),
        StmtKindV::Expr(e) => no_hit_expr(e, c),
        StmtKindV::Return(e) => e is Some ==> no_hit_expr(e->0, c),
        StmtKindV::If { cond, then_branch, else_branch } => no_hit_expr(cond, c) && no_hit_stmts(then_branch.stmts, c)
            && match else_branch {
            Some(b) => no_hit_stmts(b.stmts, c),
            None => true,
        },
        StmtKindV::While { cond, body } => no_hit_expr(cond, c) && no_hit_stmts(body.stmts, c),
        StmtKindV::For { iter, body, .. } => no_hit_expr(iter, c) && no_hit_stmts(body.stmts, c),
        StmtKindV::Match { expr, arms } => no_hit_expr(expr, c) && no_hit_arms(arms, c),
        StmtKindV::Defer { body } => no_hit_stmt(*body, c),
        StmtKindV::Block(b) => no_hit_stmts(b.stmts, c),
        _ => true,
    }
}

/// The same of statements.
pub open spec fn no_hit_stmts(ss: Seq<StmtV>, c: RenamingV) -> bool
    decreases ss,
{
    forall|i: int| 0 <= i < ss.len() ==> no_hit_stmt(#[trigger] ss[i], c)
}

/// The same of match arms. Patterns are left out: nothing is replaced in them.
pub open spec fn no_hit_arms(xs: Seq<MatchArmV>, c: RenamingV) -> bool
    decreases xs,
{
    forall|i: int| 0 <= i < xs.len() ==> no_hit_stmts((#[trigger] xs[i]).body.stmts, c)
}

proof fn lemma_unnamed_expr(e: ExprV, c: RenamingV)
    requires
        no_hit_expr(e, c),
    ensures
        renamed_expr(e, c) == e,
    decreases e,
{
    match e.kind {
        ExprKindV::Call { callee, args } => {
            lemma_unnamed_expr(*callee, c);
            lemma_unnamed_expr_list(args, c);
        },
        ExprKindV::UnaryOp { op, expr } => {
            lemma_unnamed_expr(*expr, c);
        },
        ExprKindV::BinaryOp { op, left, right } => {
            lemma_unnamed_expr(*left, c);
            lemma_unnamed_expr(*right, c);
        },
        ExprKindV::Assign { op, left, right } => {
            lemma_unnamed_expr(*left, c);
            lemma_unnamed_expr(*right, c);
        },
        ExprKindV::If { cond, then_branch, else_branch } => {
            lemma_unnamed_expr(*cond, c);
            lemma_unnamed_expr(*then_branch, c);
            lemma_unnamed_expr(*else_branch, c);
        },
        ExprKindV::RangeLiteral { start, end } => {
            lemma_unnamed_expr(*start, c);
            lemma_unnamed_expr(*end, c);
        },
        ExprKindV::StructInit { struct_type, fields } => {
            assert(no_hit_inits(fields, c));
            assert forall|i: int| 0 <= i < fields.len() implies renamed_expr(#[trigger] fields[i].value, c) == fields[i].value by {
                lemma_unnamed_expr(fields[i].value, c);
            }
            assert(renamed_inits(fields, c) =~= fields);
        },
        ExprKindV::FieldAccess { expr, field_name } => {
            lemma_unnamed_expr(*expr, c);
        },
        ExprKindV::Index { expr, index } => {
            lemma_unnamed_expr(*expr, c);
            lemma_unnamed_expr(*index, c);
        },
        ExprKindV::ArrayLiteral { elements } => {
            lemma_unnamed_expr_list(elements, c);
        },
        ExprKindV::TupleLit { elements } => {
            lemma_unnamed_expr_list(elements, c);
        },
        ExprKindV::EnumInit { enum_name, variant_name, args } => {
            lemma_unnamed_expr_list(args, c);
        },
        _ => {},
    }
}

proof fn lemma_unnamed_expr_list(es: Seq<ExprV>, c: RenamingV)
    requires
        no_hit_exprs(es, c),
    ensures
        renamed_exprs(es, c) == es,
    decreases es,
{
    assert forall|i: int| 0 <= i < es.len() implies renamed_expr(#[trigger] es[i], c) == es[i] by {
        lemma_unnamed_expr(es[i], c);
    }
    assert(renamed_exprs(es, c) =~= es);
}

/// A statement without a call that is to be renamed comes out as it went in.
pub proof fn law_other_calls_stay(s: StmtV, c: RenamingV)
    requires
        no_hit_stmt(s, c),
    ensures
        renamed_stmt(s, c) == s,
    decreases s,
{
    match s.kind {
        StmtKindV::VarDecl { annotation, init, .. } => {
            if let Some(x) = init {
                lemma_unnamed_expr(x, c);
            }
        },
        StmtKindV::Expr(x) => {
            lemma_unnamed_expr(x, c);
        },
        StmtKindV::Return(x) => {
            if let Some(x) = x {
                lemma_unnamed_expr(x, c);
            }
        },
        StmtKindV::If { cond, then_branch, else_branch } => {
            lemma_unnamed_expr(cond, c);
            law_other_calls_stay_list(then_branch.stmts, c);
            assert(renamed_block(then_branch, c).stmts == renamed_stmts(then_branch.stmts, c));
            if let Some(b) = else_branch {
                law_other_calls_stay_list(b.stmts, c);
                assert(renamed_block(b, c).stmts == renamed_stmts(b.stmts, c));
            }
        },
        StmtKindV::While { cond, body } => {
            lemma_unnamed_expr(cond, c);
            law_other_calls_stay_list(body.stmts, c);
            assert(renamed_block(body, c).stmts == renamed_stmts(body.stmts, c));
        },
        StmtKindV::For { iter, body, .. } => {
            lemma_unnamed_expr(iter, c);
            law_other_calls_stay_list(body.stmts, c);
            assert(renamed_block(body, c).stmts == renamed_stmts(body.stmts, c));
        },
        StmtKindV::Match { expr, arms } => {
            lemma_unnamed_expr(expr, c);
            assert(no_hit_arms(arms, c));
            assert forall|i: int| 0 <= i < arms.len() implies renamed_block((#[trigger] arms[i]).body, c).stmts == arms[i].body.stmts by {
                law_other_calls_stay_list(arms[i].body.stmts, c);
                assert(renamed_block(arms[i].body, c).stmts == renamed_stmts(arms[i].body.stmts, c));
            }
            assert(renamed_arms(arms, c) =~= arms);
        },
        StmtKindV::Defer { body } => {
            law_other_calls_stay(*body, c);
        },
        StmtKindV::Block(b) => {
            law_other_calls_stay_list(b.stmts, c);
            assert(renamed_block(b, c).stmts == renamed_stmts(b.stmts, c));
        },
        _ => {},
    }
}

proof fn law_other_calls_stay_list(ss: Seq<StmtV>, c: RenamingV)
    requires
        no_hit_stmts(ss, c),
    ensures
        renamed_stmts(ss, c) == ss,
    decreases ss,
{
    assert forall|i: int| 0 <= i < ss.len() implies renamed_stmt(#[trigger] ss[i], c) == ss[i] by {
        law_other_calls_stay(ss[i], c);
    }
    assert(renamed_stmts(ss, c) =~= ss);
}

proof fn lemma_all_named_expr(e: ExprV, c: RenamingV)
    requires
        c.name != c.base,
    ensures
        no_hit_expr(renamed_expr(e, c), c),
    decreases e,
{
    match e.kind {
        ExprKindV::Call { callee, args } => {
            lemma_all_named_expr(*callee, c);
            lemma_all_named_expr_list(args, c);
            let once = renamed_expr(*callee, c);
            assert(once.kind is Identifier <==> callee.kind is Identifier);
            assert(callee.kind is Identifier ==> once.kind == callee.kind);
            let named = ExprV { kind: ExprKindV::Identifier { name: c.name }, ..*callee };
            assert(no_hit_expr(named, c));
        },
        ExprKindV::UnaryOp { op, expr } => {
            lemma_all_named_expr(*expr, c);
        },
        ExprKindV::BinaryOp { op, left, right } => {
            lemma_all_named_expr(*left, c);
            lemma_all_named_expr(*right, c);
        },
        ExprKindV::Assign { op, left, right } => {
            lemma_all_named_expr(*left, c);
            lemma_all_named_expr(*right, c);
        },
        ExprKindV::If { cond, then_branch, else_branch } => {
            lemma_all_named_expr(*cond, c);
            lemma_all_named_expr(*then_branch, c);
            lemma_all_named_expr(*else_branch, c);
        },
        ExprKindV::RangeLiteral { start, end } => {
            lemma_all_named_expr(*start, c);
            lemma_all_named_expr(*end, c);
        },
        ExprKindV::StructInit { struct_type, fields } => {
            assert forall|i: int| 0 <= i < fields.len() implies no_hit_expr(renamed_expr((#[trigger] fields[i]).value, c), c) by {
                lemma_all_named_expr(fields[i].value, c);
            }
            assert(no_hit_inits(renamed_inits(fields, c), c));
        },
        ExprKindV::FieldAccess { expr, field_name } => {
            lemma_all_named_expr(*expr, c);
        },
        ExprKindV::Index { expr, index } => {
            lemma_all_named_expr(*expr, c);
            lemma_all_named_expr(*index, c);
        },
        ExprKindV::ArrayLiteral { elements } => {
            lemma_all_named_expr_list(elements, c);
        },
        ExprKindV::TupleLit { elements } => {
            lemma_all_named_expr_list(elements, c);
        },
        ExprKindV::EnumInit { enum_name, variant_name, args } => {
            lemma_all_named_expr_list(args, c);
        },
        _ => {},
    }
}

proof fn lemma_all_named_expr_list(es: Seq<ExprV>, c: RenamingV)
    requires
        c.name != c.base,
    ensures
        no_hit_exprs(renamed_exprs(es, c), c),
    decreases es,
{
    assert forall|i: int| 0 <= i < es.len() implies no_hit_expr(renamed_expr(#[trigger] es[i], c), c) by {
        lemma_all_named_expr(es[i], c);
    }
}

/// After renaming, no call under the former name is left.
pub proof fn law_every_call_is_renamed(s: StmtV, c: RenamingV)
    requires
        c.name != c.base,
    ensures
        no_hit_stmt(renamed_stmt(s, c), c),
    decreases s,
{
    match s.kind {
        StmtKindV::VarDecl { annotation, init, .. } => {
            if let Some(x) = init {
                lemma_all_named_expr(x, c);
            }
        },
        StmtKindV::Expr(x) => {
            lemma_all_named_expr(x, c);
        },
        StmtKindV::Return(x) => {
            if let Some(x) = x {
                lemma_all_named_expr(x, c);
            }
        },
        StmtKindV::If { cond, then_branch, else_branch } => {
            lemma_all_named_expr(cond, c);
            law_every_call_is_renamed_list(then_branch.stmts, c);
            assert(renamed_block(then_branch, c).stmts == renamed_stmts(then_branch.stmts, c));
            if let Some(b) = else_branch {
                law_every_call_is_renamed_list(b.stmts, c);
                assert(renamed_block(b, c).stmts == renamed_stmts(b.stmts, c));
            }
        },
        StmtKindV::While { cond, body } => {
            lemma_all_named_expr(cond, c);
            law_every_call_is_renamed_list(body.stmts, c);
            assert(renamed_block(body, c).stmts == renamed_stmts(body.stmts, c));
        },
        StmtKindV::For { iter, body, .. } => {
            lemma_all_named_expr(iter, c);
            law_every_call_is_renamed_list(body.stmts, c);
            assert(renamed_block(body, c).stmts == renamed_stmts(body.stmts, c));
        },
        StmtKindV::Match { expr, arms } => {
            lemma_all_named_expr(expr, c);
            assert forall|i: int| 0 <= i < arms.len() implies no_hit_stmts(renamed_block((#[trigger] arms[i]).body, c).stmts, c) by {
                law_every_call_is_renamed_list(arms[i].body.stmts, c);
                assert(renamed_block(arms[i].body, c).stmts == renamed_stmts(arms[i].body.stmts, c));
            }
            assert(no_hit_arms(renamed_arms(arms, c), c));
        },
        StmtKindV::Defer { body } => {
            law_every_call_is_renamed(*body, c);
        },
        StmtKindV::Block(b) => {
            law_every_call_is_renamed_list(b.stmts, c);
            assert(renamed_block(b, c).stmts == renamed_stmts(b.stmts, c));
        },
        _ => {},
    }
}

proof fn law_every_call_is_renamed_list(ss: Seq<StmtV>, c: RenamingV)
    requires
        c.name != c.base,
    ensures
        no_hit_stmts(renamed_stmts(ss, c), c),
    decreases ss,
{
    assert forall|i: int| 0 <= i < ss.len() implies no_hit_stmt(renamed_stmt(#[trigger] ss[i], c), c) by {
        law_every_call_is_renamed(ss[i], c);
    }
}

} // verus!
