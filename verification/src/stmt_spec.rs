//! What type inference of statements computes.
use crate::ast::{BlockV, ExprKindV, ExprV, MatchArmV, Span, StmtKindV, StmtV};
use crate::bind_spec::{bound, destructured, is_wildcard};
use crate::engine::{def_var, next_id, placed_error, scope_entered, scope_left, with_known, EnvV};
use crate::error::ErrorV;
use crate::infer_spec::{checked_as, condition_checked, expr_typed, pattern_typed, unresolved};
use crate::monomorph::{annotated, too_deep};
use crate::store::known_in;
use crate::types::{c_name, TypeId, TypeV};
use crate::unify::both_unified;
use vstd::prelude::*;

verus! {

/// The type of a variable and its value with types filled in. With an annotation and a value the
/// two agree; with neither there is the given error.
pub open spec fn initialized(fuel: nat, e: EnvV, ann: Option<TypeV>, init: Option<ExprV>, missing: ErrorV) -> (
    EnvV,
    Result<(TypeId, Option<ExprV>), ErrorV>,
) {
    match init {
        Some(x) => {
            let a = expr_typed(fuel, e, x);
            match a.2 {
                Err(err) => (a.0, Err(err)),
                Ok(t) => match ann {
                    None => (a.0, Ok((t, Some(a.1)))),
                    Some(_) => value_annotated(fuel, a.0, ann, a.1, t),
                },
            }
        },
        None => match ann {
            None => (e, Err(missing)),
            Some(_) => match annotated(fuel, e, ann, Seq::empty()) {
                (e1, Ok(id)) => (e1, Ok((id, None))),
                (e1, Err(err)) => (e1, Err(err)),
            },
        },
    }
}

/// The type of a variable with an annotation and a value of the given type.
pub open spec fn value_annotated(fuel: nat, e: EnvV, ann: Option<TypeV>, x: ExprV, t: TypeId) -> (
    EnvV,
    Result<(TypeId, Option<ExprV>), ErrorV>,
) {
    match annotated(fuel, e, ann, Seq::empty()) {
        (e1, Err(err)) => (e1, Err(err)),
        (e1, Ok(id)) => match both_unified(fuel, e1, id, t) {
            (e2, Err(err)) => (e2, Err(err)),
            (e2, Ok(_)) => (e2, Ok((id, Some(checked_as(x, id))))),
        },
    }
}

/// The declaration of a variable.
pub open spec fn var_typed(fuel: nat, e: EnvV, name: Seq<char>, ann: Option<TypeV>, init: Option<ExprV>, span: Span) -> (
    EnvV,
    Result<StmtV, ErrorV>,
) {
    let missing = ErrorV::TypeError(
        "Variable '"@ + name + "' declared without type annotation or initializer"@,
    );
    match initialized(fuel, e, ann, init, missing) {
        (e1, Err(err)) => (e1, Err(err)),
        (e1, Ok((id, init))) => (
            def_var(e1, name, id),
            Ok(StmtV { kind: StmtKindV::VarDecl { name, annotation: ann, inferred: id, init }, span }),
        ),
    }
}

/// A `return` with a value.
pub open spec fn value_returned(fuel: nat, e: EnvV, x: ExprV, span: Span) -> (EnvV, Result<StmtV, ErrorV>) {
    let a = expr_typed(fuel, e, x);
    match a.2 {
        Err(err) => (a.0, Err(err)),
        Ok(t) => match a.0.ret {
            None => (a.0, Err(ErrorV::TypeError("Return statement outside of function"@))),
            Some(ret) => match both_unified(fuel, a.0, ret, t) {
                (e1, Err(err)) => (e1, Err(err)),
                (e1, Ok(_)) => (
                    e1,
                    Ok(StmtV { kind: StmtKindV::Return(Some(checked_as(a.1, ret))), span }),
                ),
            },
        },
    }
}

/// A `return` without a value.
pub open spec fn nothing_returned(fuel: nat, e: EnvV, span: Span) -> (EnvV, Result<StmtV, ErrorV>) {
    match e.ret {
        None => (e, Err(ErrorV::TypeError("Return statement outside of function"@))),
        Some(ret) => match both_unified(fuel, with_known(e, TypeV::Void), ret, next_id(e)) {
            (e1, Err(err)) => (e1, Err(err)),
            (e1, Ok(_)) => (e1, Ok(StmtV { kind: StmtKindV::Return(None), span })),
        },
    }
}

/// The type of the variable of a `for` over a value of the given type.
pub open spec fn loop_variable(e: EnvV, iter: TypeId) -> (EnvV, Result<TypeId, ErrorV>) {
    match known_in(e.store, iter) {
        None => (e, Err(unresolved())),
        Some(TypeV::CArray(t, _)) => (with_known(e, *t), Ok(next_id(e))),
        Some(TypeV::Int) => (with_known(e, TypeV::Int), Ok(next_id(e))),
        Some(TypeV::Void) => (with_known(e, TypeV::Int), Ok(next_id(e))),
        Some(t) => (
            e,
            Err(ErrorV::TypeError("For loop iterator must be Int, Range, or Array, found "@ + c_name(t))),
        ),
    }
}

/// The statements that a statement stands for: more than one for a destructuring assignment.
pub open spec fn pieces(fuel: nat, e: EnvV, s: StmtV) -> (EnvV, Result<Seq<StmtV>, ErrorV>) {
    match s.kind {
        StmtKindV::Expr(x) => match x.kind {
            ExprKindV::Assign { left, right, .. } => match left.kind {
                ExprKindV::TupleLit { elements } => destructured(fuel, e, elements, *right, s.span),
                _ => (e, Ok(seq![s])),
            },
            _ => (e, Ok(seq![s])),
        },
        _ => (e, Ok(seq![s])),
    }
}

/// A checked condition: the condition with its types filled in.
pub open spec fn condition_typed(fuel: nat, e: EnvV, cond: ExprV) -> (EnvV, Result<ExprV, ErrorV>) {
    let c = expr_typed(fuel, e, cond);
    match condition_checked(fuel, c.0, c.2) {
        (e1, Err(err)) => (e1, Err(err)),
        (e1, Ok(_)) => (e1, Ok(c.1)),
    }
}

/// An expression that stands as a statement.
pub open spec fn value_dropped(fuel: nat, e: EnvV, x: ExprV, span: Span) -> (EnvV, Result<StmtV, ErrorV>) {
    let a = expr_typed(fuel, e, x);
    match a.2 {
        Err(err) => (a.0, Err(err)),
        Ok(_) => (a.0, Ok(StmtV { kind: StmtKindV::Expr(a.1), span })),
    }
}

/// A statement that is no destructuring assignment, with its types filled in.
pub open spec fn plain_typed(fuel: nat, e: EnvV, s: StmtV) -> (EnvV, Result<StmtV, ErrorV>)
    decreases fuel, 0int, 0int,
{
    if fuel == 0 {
        (e, Err(too_deep()))
    } else {
        let n = (fuel - 1) as nat;
        match s.kind {
            StmtKindV::VarDecl { name, annotation, init, .. } => var_typed(n, e, name, annotation, init, s.span),
            StmtKindV::Expr(x) => value_dropped(n, e, x, s.span),
            StmtKindV::Return(Some(x)) => value_returned(n, e, x, s.span),
            StmtKindV::Return(None) => nothing_returned(n, e, s.span),
            StmtKindV::If { cond, then_branch, else_branch } => if_typed(n, e, cond, then_branch, else_branch, s.span),
            StmtKindV::While { cond, body } => while_typed(n, e, cond, body, s.span),
            StmtKindV::For { var, iter, body } => for_typed(n, e, var, iter, body, s.span),
            StmtKindV::Match { expr, arms } => match_typed(n, e, expr, arms, s.span),
            StmtKindV::Defer { body } => defer_typed(n, e, *body, s.span),
            StmtKindV::Block(b) => match block_typed(n, e, b.stmts) {
                (e1, Err(err)) => (e1, Err(err)),
                (e1, Ok(ss)) => (e1, Ok(StmtV { kind: StmtKindV::Block(BlockV { stmts: ss }), span: s.span })),
            },
            StmtKindV::Break => (e, Ok(s)),
            StmtKindV::Continue => (e, Ok(s)),
        }
    }
}

/// An `if` statement.
pub open spec fn if_typed(fuel: nat, e: EnvV, cond: ExprV, a: BlockV, b: Option<BlockV>, span: Span) -> (
    EnvV,
    Result<StmtV, ErrorV>,
)
    decreases fuel, 5int, 0int,
{
    match condition_typed(fuel, e, cond) {
        (e1, Err(err)) => (e1, Err(err)),
        (e1, Ok(c)) => match block_typed(fuel, e1, a.stmts) {
            (e2, Err(err)) => (e2, Err(err)),
            (e2, Ok(a1)) => match b {
                None => (
                    e2,
                    Ok(
                        StmtV {
                            kind: StmtKindV::If { cond: c, then_branch: BlockV { stmts: a1 }, else_branch: None },
                            span,
                        },
                    ),
                ),
                Some(b) => match block_typed(fuel, e2, b.stmts) {
                    (e3, Err(err)) => (e3, Err(err)),
                    (e3, Ok(b1)) => (
                        e3,
                        Ok(
                            StmtV {
                                kind: StmtKindV::If {
                                    cond: c,
                                    then_branch: BlockV { stmts: a1 },
                                    else_branch: Some(BlockV { stmts: b1 }),
                                },
                                span,
                            },
                        ),
                    ),
                },
            },
        },
    }
}

/// A `while` statement.
pub open spec fn while_typed(fuel: nat, e: EnvV, cond: ExprV, body: BlockV, span: Span) -> (EnvV, Result<StmtV, ErrorV>)
    decreases fuel, 5int, 0int,
{
    match condition_typed(fuel, e, cond) {
        (e1, Err(err)) => (e1, Err(err)),
        (e1, Ok(c)) => match block_typed(fuel, e1, body.stmts) {
            (e2, Err(err)) => (e2, Err(err)),
            (e2, Ok(b)) => (
                e2,
                Ok(StmtV { kind: StmtKindV::While { cond: c, body: BlockV { stmts: b } }, span }),
            ),
        },
    }
}

/// A `for` statement. Its variable belongs to the scope that the statement stands in.
pub open spec fn for_typed(fuel: nat, e: EnvV, var: Seq<char>, iter: ExprV, body: BlockV, span: Span) -> (
    EnvV,
    Result<StmtV, ErrorV>,
)
    decreases fuel, 5int, 0int,
{
    let a = expr_typed(fuel, e, iter);
    match a.2 {
        Err(err) => (a.0, Err(err)),
        Ok(t) => match loop_variable(a.0, t) {
            (e1, Err(err)) => (e1, Err(err)),
            (e1, Ok(id)) => match block_typed(fuel, def_var(e1, var, id), body.stmts) {
                (e2, Err(err)) => (e2, Err(err)),
                (e2, Ok(b)) => (
                    e2,
                    Ok(StmtV { kind: StmtKindV::For { var, iter: a.1, body: BlockV { stmts: b } }, span }),
                ),
            },
        },
    }
}

/// A `match` statement.
pub open spec fn match_typed(fuel: nat, e: EnvV, x: ExprV, arms: Seq<MatchArmV>, span: Span) -> (
    EnvV,
    Result<StmtV, ErrorV>,
)
    decreases fuel, 7int, 0int,
{
    let a = expr_typed(fuel, e, x);
    match a.2 {
        Err(err) => (a.0, Err(err)),
        Ok(t) => match arms_typed(fuel, a.0, t, arms, 0, Seq::empty()) {
            (e1, Err(err)) => (e1, Err(err)),
            (e1, Ok(arms1)) => (e1, Ok(StmtV { kind: StmtKindV::Match { expr: a.1, arms: arms1 }, span })),
        },
    }
}

/// The arms of a `match` from position `i` on, appended to `acc`.
pub open spec fn arms_typed(fuel: nat, e: EnvV, t: TypeId, arms: Seq<MatchArmV>, i: int, acc: Seq<MatchArmV>) -> (
    EnvV,
    Result<Seq<MatchArmV>, ErrorV>,
)
    decreases fuel, 6int, arms.len() - i,
{
    if i < 0 || i >= arms.len() {
        (e, Ok(acc))
    } else {
        match arm_typed(fuel, e, t, arms[i]) {
            (e1, Err(err)) => (e1, Err(err)),
            (e1, Ok(a)) => arms_typed(fuel, e1, t, arms, i + 1, acc.push(a)),
        }
    }
}

/// The pattern of a `match` arm, for a value of the given type.
pub open spec fn arm_pattern_typed(fuel: nat, e: EnvV, t: TypeId, p: ExprV) -> (EnvV, Result<ExprV, ErrorV>) {
    if is_wildcard(p) {
        (e, Ok(p))
    } else {
        let a = pattern_typed(fuel, e, p);
        match a.2 {
            Err(err) => (a.0, Err(err)),
            Ok(id) => match both_unified(fuel, a.0, t, id) {
                (e1, Err(err)) => (e1, Err(err)),
                (e1, Ok(_)) => (e1, Ok(a.1)),
            },
        }
    }
}

/// One arm of a `match`, in a scope of its own.
pub open spec fn arm_typed(fuel: nat, e: EnvV, t: TypeId, arm: MatchArmV) -> (EnvV, Result<MatchArmV, ErrorV>)
    decreases fuel, 5int, 0int,
{
    match arm_pattern_typed(fuel, scope_entered(e), t, arm.pattern) {
        (e1, Err(err)) => (e1, Err(err)),
        (e1, Ok(p)) => match bound(fuel, e1, p, t) {
            (e2, Err(err)) => (e2, Err(err)),
            (e2, Ok(_)) => match block_typed(fuel, e2, arm.body.stmts) {
                (e3, Err(err)) => (e3, Err(err)),
                (e3, Ok(b)) => (scope_left(e3), Ok(MatchArmV { pattern: p, body: BlockV { stmts: b } })),
            },
        },
    }
}

/// A `defer` statement: a body that stands for more than one statement becomes a block.
pub open spec fn defer_typed(fuel: nat, e: EnvV, body: StmtV, span: Span) -> (EnvV, Result<StmtV, ErrorV>)
    decreases fuel, 5int, 0int,
{
    match stmt_typed(fuel, e, body) {
        (e1, Err(err)) => (e1, Err(err)),
        (e1, Ok(ps)) => (e1, Ok(StmtV { kind: StmtKindV::Defer { body: Box::new(one_of(ps, body.span)) }, span })),
    }
}

/// The one statement of a list, or else a block of all of them.
pub open spec fn one_of(ps: Seq<StmtV>, span: Span) -> StmtV {
    if ps.len() == 1 {
        ps[0]
    } else {
        StmtV { kind: StmtKindV::Block(BlockV { stmts: ps }), span }
    }
}

/// A statement with its types filled in, as the statements that it stands for; an error has the
/// place of the statement.
pub open spec fn stmt_typed(fuel: nat, e: EnvV, s: StmtV) -> (EnvV, Result<Seq<StmtV>, ErrorV>)
    decreases fuel, 2int, 1int,
{
    let (e1, r) = stmt_inner_typed(fuel, e, s);
    match r {
        Ok(ps) => (e1, Ok(ps)),
        Err(err) => (e1, Err(placed_error(e1, s.span, err))),
    }
}

/// A statement with its types filled in; an error does not have the place of the statement itself.
pub open spec fn stmt_inner_typed(fuel: nat, e: EnvV, s: StmtV) -> (EnvV, Result<Seq<StmtV>, ErrorV>)
    decreases fuel, 2int, 0int,
{
    match pieces(fuel, e, s) {
        (e1, Err(err)) => (e1, Err(err)),
        (e1, Ok(ps)) => pieces_typed(fuel, e1, ps, 0, Seq::empty()),
    }
}

/// The statements from position `i` on with their types filled in, appended to `acc`; none of
/// them is a destructuring assignment.
pub open spec fn pieces_typed(fuel: nat, e: EnvV, ps: Seq<StmtV>, i: int, acc: Seq<StmtV>) -> (
    EnvV,
    Result<Seq<StmtV>, ErrorV>,
)
    decreases fuel, 1int, ps.len() - i,
{
    if i < 0 || i >= ps.len() {
        (e, Ok(acc))
    } else {
        match plain_typed(fuel, e, ps[i]) {
            (e1, Err(err)) => (e1, Err(err)),
            (e1, Ok(s)) => pieces_typed(fuel, e1, ps, i + 1, acc.push(s)),
        }
    }
}

/// The statements of a block from position `i` on, appended to `acc`.
pub open spec fn stmts_typed(fuel: nat, e: EnvV, ss: Seq<StmtV>, i: int, acc: Seq<StmtV>) -> (
    EnvV,
    Result<Seq<StmtV>, ErrorV>,
)
    decreases fuel, 3int, ss.len() - i,
{
    if i < 0 || i >= ss.len() {
        (e, Ok(acc))
    } else {
        match stmt_typed(fuel, e, ss[i]) {
            (e1, Err(err)) => (e1, Err(err)),
            (e1, Ok(ps)) => stmts_typed(fuel, e1, ss, i + 1, acc + ps),
        }
    }
}

/// The statements of a block, in a scope of their own.
pub open spec fn block_typed(fuel: nat, e: EnvV, ss: Seq<StmtV>) -> (EnvV, Result<Seq<StmtV>, ErrorV>)
    decreases fuel, 4int, 0int,
{
    match stmts_typed(fuel, scope_entered(e), ss, 0, Seq::empty()) {
        (e1, Err(err)) => (e1, Err(err)),
        (e1, Ok(out)) => (scope_left(e1), Ok(out)),
    }
}

} // verus!
