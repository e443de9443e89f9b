//! What type inference of statements leaves as it was.
use crate::ast::{Block, BlockV, Expr, ExprKindV, ExprV, FieldInitV, MatchArmV, Span, StmtKindV,
    StmtV};
use crate::bind_spec::{all_taken_apart, bound, bound_each, bound_fields, bound_same, counted,
    declaration, destructured, fields_annotated, generic_args, is_wildcard, pattern_arg_types,
    slot_at, taken_apart, tuple_destructured};
use crate::decl::FieldV;
use crate::engine::{def_var, next_id, scope_entered, with_known, EnvV};
use crate::error::{ContextV, ErrorV};
use crate::infer_spec::{enum_template, expr_typed, pattern_typed, variant_info, variant_named};
use crate::kept_exprs::{lemma_condition_checked, lemma_expr_typed, lemma_pattern_typed};
use crate::kept_types::{frame, group_grown, kept, lemma_annotated, lemma_both_unified};
use crate::monomorph::{annotated, ids_by_name, is_enum_template};
use crate::stmt_spec::{arm_pattern_typed, arm_typed, arms_typed, block_typed, condition_typed,
    defer_typed, for_typed, if_typed, initialized, loop_variable, match_typed, nothing_returned,
    pieces, pieces_typed, plain_typed, stmt_inner_typed, stmt_typed, stmts_typed, value_annotated, value_dropped,
    value_returned, var_typed, while_typed};
use crate::store::{known_in, rep_in};
use crate::symbols::{var_in, with_var, EnumVariantInfoV};
use crate::text::decimal_text;
use crate::text;
use crate::types::{TypeId, TypeV};
use crate::unify::instance_at;
use vstd::prelude::*;

verus! {

/// Whether all scopes but the innermost stayed as they were.
pub open spec fn outer_kept(before: EnvV, after: EnvV) -> bool {
    &&& after.symbols.vars.len() == before.symbols.vars.len()
    &&& after.symbols.vars.drop_last() == before.symbols.vars.drop_last()
}

pub proof fn lemma_defined(e: EnvV, name: Seq<char>, id: TypeId)
    ensures
        frame(e, def_var(e, name, id)),
        outer_kept(e, def_var(e, name, id)),
{
    broadcast use group_grown;

    assert(with_var(e.symbols.vars, name, id).drop_last() =~= e.symbols.vars.drop_last());
}

proof fn lemma_fields_annotated(
    fuel: nat,
    e: EnvV,
    fs: Seq<FieldV>,
    ids: Seq<(Seq<char>, TypeId)>,
    i: int,
    acc: Seq<TypeId>,
)
    ensures
        kept(e, fields_annotated(fuel, e, fs, ids, i, acc).0),
    decreases fs.len() - i,
{
    broadcast use group_grown;

    if 0 <= i < fs.len() {
        lemma_annotated(fuel, e, fs[i].annotation, ids);
        if let (e1, Ok(id)) = annotated(fuel, e, fs[i].annotation, ids) {
            lemma_fields_annotated(fuel, e1, fs, ids, i + 1, acc.push(id));
        }
    }
}

proof fn lemma_generic_args(fuel: nat, e: EnvV, ty: TypeId, variant: Seq<char>)
    ensures
        kept(e, generic_args(fuel, e, ty, variant).0),
{
    broadcast use group_grown;

    let rep = TypeId(rep_in(e.store, ty) as usize);
    if let Some(inst) = instance_at(e.mono.instance_types, rep, 0) {
        if let Some(d) = enum_template(e, inst.base) {
            if let Some(v) = variant_named(d.variants, variant, 0) {
                lemma_fields_annotated(
                    fuel,
                    e,
                    v.args,
                    ids_by_name(d.type_params, inst.params),
                    0,
                    Seq::empty(),
                );
            }
        }
    }
}

proof fn lemma_pattern_arg_types(fuel: nat, e: EnvV, ty: TypeId, info: EnumVariantInfoV)
    ensures
        kept(e, pattern_arg_types(fuel, e, ty, info).0),
{
    broadcast use group_grown;

    if is_enum_template(e, info.enum_name) {
        lemma_generic_args(fuel, e, ty, info.variant_name);
    }
}

proof fn lemma_bound(fuel: nat, e: EnvV, p: ExprV, ty: TypeId)
    ensures
        frame(e, bound(fuel, e, p, ty).0),
        bound(fuel, e, p, ty).1 is Ok ==> outer_kept(e, bound(fuel, e, p, ty).0),
    decreases p, 0int,
{
    broadcast use group_grown;

    match p.kind {
        ExprKindV::Identifier { name } => {
            if !(name == "_"@ || name == "default"@) {
                lemma_defined(e, name, ty);
            }
        },
        ExprKindV::Call { callee, args } => {
            match callee.kind {
                ExprKindV::Identifier { name } => {
                    match variant_info(e, name) {
                        Some(info) => {
                            lemma_pattern_arg_types(fuel, e, p.ty, info);
                            if let (e1, Ok(ids)) = pattern_arg_types(fuel, e, p.ty, info) {
                                if args.len() == ids.len() {
                                    lemma_bound_each(fuel, e1, args, ids, 0);
                                }
                            }
                        },
                        None => {
                            lemma_bound_same(fuel, e, args, ty, 0);
                        },
                    }
                },
                _ => {
                    lemma_bound_same(fuel, e, args, ty, 0);
                },
            }
        },
        ExprKindV::StructInit { fields, .. } => {
            lemma_bound_fields(fuel, e, fields, ty, 0);
        },
        ExprKindV::FieldAccess { expr, .. } => {
            lemma_bound(fuel, e, *expr, ty);
        },
        _ => {},
    }
}

proof fn lemma_bound_each(fuel: nat, e: EnvV, ps: Seq<ExprV>, ids: Seq<TypeId>, i: int)
    requires
        0 <= i <= ps.len(),
    ensures
        frame(e, bound_each(fuel, e, ps, ids, i).0),
        bound_each(fuel, e, ps, ids, i).1 is Ok ==> outer_kept(e, bound_each(fuel, e, ps, ids, i).0),
    decreases ps, ps.len() - i,
{
    broadcast use group_grown;

    if i < ps.len() && i < ids.len() {
        lemma_bound(fuel, e, ps[i], ids[i]);
        if let (e1, Ok(_)) = bound(fuel, e, ps[i], ids[i]) {
            lemma_bound_each(fuel, e1, ps, ids, i + 1);
        }
    }
}

proof fn lemma_bound_same(fuel: nat, e: EnvV, ps: Seq<ExprV>, ty: TypeId, i: int)
    requires
        0 <= i <= ps.len(),
    ensures
        frame(e, bound_same(fuel, e, ps, ty, i).0),
        bound_same(fuel, e, ps, ty, i).1 is Ok ==> outer_kept(e, bound_same(fuel, e, ps, ty, i).0),
    decreases ps, ps.len() - i,
{
    broadcast use group_grown;

    if i < ps.len() {
        lemma_bound(fuel, e, ps[i], ty);
        if let (e1, Ok(_)) = bound(fuel, e, ps[i], ty) {
            lemma_bound_same(fuel, e1, ps, ty, i + 1);
        }
    }
}

proof fn lemma_bound_fields(fuel: nat, e: EnvV, fs: Seq<FieldInitV>, ty: TypeId, i: int)
    requires
        0 <= i <= fs.len(),
    ensures
        frame(e, bound_fields(fuel, e, fs, ty, i).0),
        bound_fields(fuel, e, fs, ty, i).1 is Ok ==> outer_kept(e, bound_fields(fuel, e, fs, ty, i).0),
    decreases fs, fs.len() - i,
{
    broadcast use group_grown;

    if i < fs.len() {
        lemma_bound(fuel, e, fs[i].value, ty);
        if let (e1, Ok(_)) = bound(fuel, e, fs[i].value, ty) {
            lemma_bound_fields(fuel, e1, fs, ty, i + 1);
        }
    }
}

proof fn lemma_taken_apart(e: EnvV, p: ExprV, slot: ExprV, t: TypeV, acc: Seq<StmtV>)
    ensures
        frame(e, taken_apart(e, p, slot, t, acc).0),
        taken_apart(e, p, slot, t, acc).1 is Ok ==> outer_kept(e, taken_apart(e, p, slot, t, acc).0),
    decreases p, 0int,
{
    broadcast use group_grown;

    match p.kind {
        ExprKindV::Identifier { name } => {
            if name != "_"@ {
                if var_in(e.symbols.vars, name) is None {
                    lemma_defined(with_known(e, t), name, next_id(e));
                }
            }
        },
        ExprKindV::TupleLit { elements } => {
            if let TypeV::Tuple(ts) = t {
                if elements.len() == ts.len() {
                    lemma_all_taken_apart(e, elements, slot, ts, 0, acc);
                }
            }
        },
        _ => {},
    }
}

proof fn lemma_all_taken_apart(e: EnvV, ps: Seq<ExprV>, base: ExprV, ts: Seq<TypeV>, i: int, acc: Seq<StmtV>)
    requires
        0 <= i <= ps.len(),
    ensures
        frame(e, all_taken_apart(e, ps, base, ts, i, acc).0),
        all_taken_apart(e, ps, base, ts, i, acc).1 is Ok
            ==> outer_kept(e, all_taken_apart(e, ps, base, ts, i, acc).0),
    decreases ps, ps.len() - i,
{
    broadcast use group_grown;

    if i < ps.len() && i < ts.len() {
        lemma_taken_apart(e, ps[i], slot_at(base, i), ts[i], acc);
        if let (e1, Ok(acc1)) = taken_apart(e, ps[i], slot_at(base, i), ts[i], acc) {
            lemma_all_taken_apart(e1, ps, base, ts, i + 1, acc1);
        }
    }
}

proof fn lemma_destructured(fuel: nat, e: EnvV, pats: Seq<ExprV>, right: ExprV, span: Span)
    ensures
        frame(e, destructured(fuel, e, pats, right, span).0),
        destructured(fuel, e, pats, right, span).1 is Ok
            ==> outer_kept(e, destructured(fuel, e, pats, right, span).0),
{
    broadcast use group_grown;

    lemma_expr_typed(fuel, e, right);
    let a = expr_typed(fuel, e, right);
    if let Ok(id) = a.2 {
        if let Some(t) = known_in(a.0.store, id) {
            if let TypeV::Tuple(ts) = t {
                lemma_tuple_destructured(a.0, pats, a.1, t, ts, span);
            }
        }
    }
}

proof fn lemma_tuple_destructured(
    e: EnvV,
    pats: Seq<ExprV>,
    right: ExprV,
    t: TypeV,
    ts: Seq<TypeV>,
    span: Span,
)
    ensures
        frame(e, tuple_destructured(e, pats, right, t, ts, span).0),
        tuple_destructured(e, pats, right, t, ts, span).1 is Ok
            ==> outer_kept(e, tuple_destructured(e, pats, right, t, ts, span).0),
{
    broadcast use group_grown;

    let tmp = "__kit_tuple_dest_"@ + text::decimal_text(e.fresh as nat);
    let e1 = with_known(EnvV { fresh: counted(e.fresh), ..e }, t);
    let base = ExprV { kind: ExprKindV::Identifier { name: tmp }, ty: next_id(e), span };
    if pats.len() == ts.len() {
        lemma_all_taken_apart(e1, pats, base, ts, 0, seq![declaration(tmp, t, next_id(e), right, span)]);
    }
}

pub proof fn lemma_initialized(fuel: nat, e: EnvV, ann: Option<TypeV>, init: Option<ExprV>, missing: ErrorV)
    ensures
        kept(e, initialized(fuel, e, ann, init, missing).0),
{
    broadcast use group_grown;

    match init {
        Some(x) => {
            lemma_expr_typed(fuel, e, x);
            let a = expr_typed(fuel, e, x);
            if let Ok(t) = a.2 {
                if let Some(_) = ann {
                    lemma_value_annotated(fuel, a.0, ann, a.1, t);
                }
            }
        },
        None => {
            if let Some(_) = ann {
                lemma_annotated(fuel, e, ann, Seq::empty());
            }
        },
    }
}

proof fn lemma_value_annotated(fuel: nat, e: EnvV, ann: Option<TypeV>, x: ExprV, t: TypeId)
    ensures
        kept(e, value_annotated(fuel, e, ann, x, t).0),
{
    broadcast use group_grown;

    lemma_annotated(fuel, e, ann, Seq::empty());
    if let (e1, Ok(id)) = annotated(fuel, e, ann, Seq::empty()) {
        lemma_both_unified(fuel, e1, id, t);
    }
}

proof fn lemma_var_typed(
    fuel: nat,
    e: EnvV,
    name: Seq<char>,
    ann: Option<TypeV>,
    init: Option<ExprV>,
    span: Span,
)
    ensures
        frame(e, var_typed(fuel, e, name, ann, init, span).0),
        var_typed(fuel, e, name, ann, init, span).1 is Ok
            ==> outer_kept(e, var_typed(fuel, e, name, ann, init, span).0),
{
    broadcast use group_grown;

    let missing = ErrorV::TypeError(
        "Variable '"@ + name + "' declared without type annotation or initializer"@,
    );
    lemma_initialized(fuel, e, ann, init, missing);
    if let (e1, Ok((id, init))) = initialized(fuel, e, ann, init, missing) {
        lemma_defined(e1, name, id);
    }
}

proof fn lemma_value_returned(fuel: nat, e: EnvV, x: ExprV, span: Span)
    ensures
        kept(e, value_returned(fuel, e, x, span).0),
{
    broadcast use group_grown;

    lemma_expr_typed(fuel, e, x);
    let a = expr_typed(fuel, e, x);
    if let Ok(t) = a.2 {
        if let Some(ret) = a.0.ret {
            lemma_both_unified(fuel, a.0, ret, t);
        }
    }
}

proof fn lemma_nothing_returned(fuel: nat, e: EnvV, span: Span)
    ensures
        kept(e, nothing_returned(fuel, e, span).0),
{
    broadcast use group_grown;

    if let Some(ret) = e.ret {
        lemma_both_unified(fuel, with_known(e, TypeV::Void), ret, next_id(e));
    }
}

proof fn lemma_loop_variable(e: EnvV, iter: TypeId)
    ensures
        kept(e, loop_variable(e, iter).0),
{
    broadcast use group_grown;

}

proof fn lemma_pieces(fuel: nat, e: EnvV, s: StmtV)
    ensures
        frame(e, pieces(fuel, e, s).0),
        pieces(fuel, e, s).1 is Ok ==> outer_kept(e, pieces(fuel, e, s).0),
{
    broadcast use group_grown;

    if let StmtKindV::Expr(x) = s.kind {
        if let ExprKindV::Assign { left, right, .. } = x.kind {
            if let ExprKindV::TupleLit { elements } = left.kind {
                lemma_destructured(fuel, e, elements, *right, s.span);
            }
        }
    }
}

proof fn lemma_condition_typed(fuel: nat, e: EnvV, cond: ExprV)
    ensures
        kept(e, condition_typed(fuel, e, cond).0),
{
    broadcast use group_grown;

    lemma_expr_typed(fuel, e, cond);
    let c = expr_typed(fuel, e, cond);
    lemma_condition_checked(fuel, c.0, c.2);
}

proof fn lemma_value_dropped(fuel: nat, e: EnvV, x: ExprV, span: Span)
    ensures
        kept(e, value_dropped(fuel, e, x, span).0),
{
    broadcast use group_grown;

    lemma_expr_typed(fuel, e, x);
}

proof fn lemma_plain_typed(fuel: nat, e: EnvV, s: StmtV)
    requires
        e.symbols.vars.len() > 0,
    ensures
        frame(e, plain_typed(fuel, e, s).0),
        plain_typed(fuel, e, s).1 is Ok ==> outer_kept(e, plain_typed(fuel, e, s).0),
    decreases fuel, 0int, 0int,
{
    broadcast use group_grown;

    if fuel != 0 {
        let n = (fuel - 1) as nat;
        match s.kind {
            StmtKindV::VarDecl { name, annotation, init, .. } => {
                lemma_var_typed(n, e, name, annotation, init, s.span);
            },
            StmtKindV::Expr(x) => {
                lemma_value_dropped(n, e, x, s.span);
            },
            StmtKindV::Return(Some(x)) => {
                lemma_value_returned(n, e, x, s.span);
            },
            StmtKindV::Return(None) => {
                lemma_nothing_returned(n, e, s.span);
            },
            StmtKindV::If { cond, then_branch, else_branch } => {
                lemma_if_typed(n, e, cond, then_branch, else_branch, s.span);
            },
            StmtKindV::While { cond, body } => {
                lemma_while_typed(n, e, cond, body, s.span);
            },
            StmtKindV::For { var, iter, body } => {
                lemma_for_typed(n, e, var, iter, body, s.span);
            },
            StmtKindV::Match { expr, arms } => {
                lemma_match_typed(n, e, expr, arms, s.span);
            },
            StmtKindV::Defer { body } => {
                lemma_defer_typed(n, e, *body, s.span);
            },
            StmtKindV::Block(b) => {
                lemma_block_typed(n, e, b.stmts);
            },
            _ => {},
        }
    }
}

proof fn lemma_if_typed(fuel: nat, e: EnvV, cond: ExprV, a: BlockV, b: Option<BlockV>, span: Span)
    requires
        e.symbols.vars.len() > 0,
    ensures
        frame(e, if_typed(fuel, e, cond, a, b, span).0),
        if_typed(fuel, e, cond, a, b, span).1 is Ok ==> kept(e, if_typed(fuel, e, cond, a, b, span).0),
    decreases fuel, 5int, 0int,
{
    broadcast use group_grown;

    lemma_condition_typed(fuel, e, cond);
    if let (e1, Ok(c)) = condition_typed(fuel, e, cond) {
        lemma_block_typed(fuel, e1, a.stmts);
        if let (e2, Ok(a1)) = block_typed(fuel, e1, a.stmts) {
            if let Some(b) = b {
                lemma_block_typed(fuel, e2, b.stmts);
            }
        }
    }
}

proof fn lemma_while_typed(fuel: nat, e: EnvV, cond: ExprV, body: BlockV, span: Span)
    requires
        e.symbols.vars.len() > 0,
    ensures
        frame(e, while_typed(fuel, e, cond, body, span).0),
        while_typed(fuel, e, cond, body, span).1 is Ok ==> kept(e, while_typed(fuel, e, cond, body, span).0),
    decreases fuel, 5int, 0int,
{
    broadcast use group_grown;

    lemma_condition_typed(fuel, e, cond);
    if let (e1, Ok(c)) = condition_typed(fuel, e, cond) {
        lemma_block_typed(fuel, e1, body.stmts);
    }
}

proof fn lemma_for_typed(fuel: nat, e: EnvV, var: Seq<char>, iter: ExprV, body: BlockV, span: Span)
    requires
        e.symbols.vars.len() > 0,
    ensures
        frame(e, for_typed(fuel, e, var, iter, body, span).0),
        for_typed(fuel, e, var, iter, body, span).1 is Ok
            ==> outer_kept(e, for_typed(fuel, e, var, iter, body, span).0),
    decreases fuel, 5int, 0int,
{
    broadcast use group_grown;

    lemma_expr_typed(fuel, e, iter);
    let a = expr_typed(fuel, e, iter);
    if let Ok(t) = a.2 {
        lemma_loop_variable(a.0, t);
        if let (e1, Ok(id)) = loop_variable(a.0, t) {
            lemma_defined(e1, var, id);
            lemma_block_typed(fuel, def_var(e1, var, id), body.stmts);
        }
    }
}

proof fn lemma_match_typed(fuel: nat, e: EnvV, x: ExprV, arms: Seq<MatchArmV>, span: Span)
    requires
        e.symbols.vars.len() > 0,
    ensures
        frame(e, match_typed(fuel, e, x, arms, span).0),
        match_typed(fuel, e, x, arms, span).1 is Ok ==> kept(e, match_typed(fuel, e, x, arms, span).0),
    decreases fuel, 7int, 0int,
{
    broadcast use group_grown;

    lemma_expr_typed(fuel, e, x);
    let a = expr_typed(fuel, e, x);
    if let Ok(t) = a.2 {
        lemma_arms_typed(fuel, a.0, t, arms, 0, Seq::empty());
    }
}

proof fn lemma_arms_typed(fuel: nat, e: EnvV, t: TypeId, arms: Seq<MatchArmV>, i: int, acc: Seq<MatchArmV>)
    requires
        e.symbols.vars.len() > 0,
    ensures
        frame(e, arms_typed(fuel, e, t, arms, i, acc).0),
        arms_typed(fuel, e, t, arms, i, acc).1 is Ok ==> kept(e, arms_typed(fuel, e, t, arms, i, acc).0),
    decreases fuel, 6int, arms.len() - i,
{
    broadcast use group_grown;

    if 0 <= i < arms.len() {
        lemma_arm_typed(fuel, e, t, arms[i]);
        if let (e1, Ok(a)) = arm_typed(fuel, e, t, arms[i]) {
            lemma_arms_typed(fuel, e1, t, arms, i + 1, acc.push(a));
        }
    }
}

proof fn lemma_arm_pattern_typed(fuel: nat, e: EnvV, t: TypeId, p: ExprV)
    ensures
        kept(e, arm_pattern_typed(fuel, e, t, p).0),
{
    broadcast use group_grown;

    if !is_wildcard(p) {
        lemma_pattern_typed(fuel, e, p);
        let a = pattern_typed(fuel, e, p);
        if let Ok(id) = a.2 {
            lemma_both_unified(fuel, a.0, t, id);
        }
    }
}

proof fn lemma_arm_typed(fuel: nat, e: EnvV, t: TypeId, arm: MatchArmV)
    requires
        e.symbols.vars.len() > 0,
    ensures
        frame(e, arm_typed(fuel, e, t, arm).0),
        arm_typed(fuel, e, t, arm).1 is Ok ==> kept(e, arm_typed(fuel, e, t, arm).0),
    decreases fuel, 5int, 0int,
{
    broadcast use group_grown;

    lemma_arm_pattern_typed(fuel, scope_entered(e), t, arm.pattern);
    if let (e1, Ok(p)) = arm_pattern_typed(fuel, scope_entered(e), t, arm.pattern) {
        lemma_bound(fuel, e1, p, t);
        if let (e2, Ok(_)) = bound(fuel, e1, p, t) {
            lemma_block_typed(fuel, e2, arm.body.stmts);
        }
    }
    assert(e.symbols.vars.push(Map::empty()).drop_last() =~= e.symbols.vars);
}

proof fn lemma_defer_typed(fuel: nat, e: EnvV, body: StmtV, span: Span)
    requires
        e.symbols.vars.len() > 0,
    ensures
        frame(e, defer_typed(fuel, e, body, span).0),
        defer_typed(fuel, e, body, span).1 is Ok ==> outer_kept(e, defer_typed(fuel, e, body, span).0),
    decreases fuel, 5int, 0int,
{
    broadcast use group_grown;

    lemma_stmt_typed(fuel, e, body);
}

proof fn lemma_stmt_typed(fuel: nat, e: EnvV, s: StmtV)
    requires
        e.symbols.vars.len() > 0,
    ensures
        frame(e, stmt_typed(fuel, e, s).0),
        stmt_typed(fuel, e, s).1 is Ok ==> outer_kept(e, stmt_typed(fuel, e, s).0),
    decreases fuel, 2int, 0int,
{
    broadcast use group_grown;

    lemma_pieces(fuel, e, s);
    assert(stmt_typed(fuel, e, s).0 == stmt_inner_typed(fuel, e, s).0);
    if let (e1, Ok(ps)) = pieces(fuel, e, s) {
        lemma_pieces_typed(fuel, e1, ps, 0, Seq::empty());
    }
}

proof fn lemma_pieces_typed(fuel: nat, e: EnvV, ps: Seq<StmtV>, i: int, acc: Seq<StmtV>)
    requires
        e.symbols.vars.len() > 0,
    ensures
        frame(e, pieces_typed(fuel, e, ps, i, acc).0),
        pieces_typed(fuel, e, ps, i, acc).1 is Ok ==> outer_kept(e, pieces_typed(fuel, e, ps, i, acc).0),
    decreases fuel, 1int, ps.len() - i,
{
    broadcast use group_grown;

    if 0 <= i < ps.len() {
        lemma_plain_typed(fuel, e, ps[i]);
        if let (e1, Ok(s)) = plain_typed(fuel, e, ps[i]) {
            lemma_pieces_typed(fuel, e1, ps, i + 1, acc.push(s));
        }
    }
}

proof fn lemma_stmts_typed(fuel: nat, e: EnvV, ss: Seq<StmtV>, i: int, acc: Seq<StmtV>)
    requires
        e.symbols.vars.len() > 0,
    ensures
        frame(e, stmts_typed(fuel, e, ss, i, acc).0),
        stmts_typed(fuel, e, ss, i, acc).1 is Ok ==> outer_kept(e, stmts_typed(fuel, e, ss, i, acc).0),
    decreases fuel, 3int, ss.len() - i,
{
    broadcast use group_grown;

    if 0 <= i < ss.len() {
        lemma_stmt_typed(fuel, e, ss[i]);
        if let (e1, Ok(ps)) = stmt_typed(fuel, e, ss[i]) {
            lemma_stmts_typed(fuel, e1, ss, i + 1, acc + ps);
        }
    }
}

pub proof fn lemma_block_typed(fuel: nat, e: EnvV, ss: Seq<StmtV>)
    requires
        e.symbols.vars.len() > 0,
    ensures
        frame(e, block_typed(fuel, e, ss).0),
        block_typed(fuel, e, ss).1 is Ok ==> kept(e, block_typed(fuel, e, ss).0),
    decreases fuel, 4int, 0int,
{
    broadcast use group_grown;

    lemma_stmts_typed(fuel, scope_entered(e), ss, 0, Seq::empty());
    assert(e.symbols.vars.push(Map::empty()).drop_last() =~= e.symbols.vars);
}

/// A block leaves the scopes as it found them: what is declared in it does not outlive it.
pub proof fn law_block_restores_scopes(fuel: nat, e: EnvV, ss: Seq<StmtV>)
    requires
        e.symbols.vars.len() > 0,
    ensures
        frame(e, block_typed(fuel, e, ss).0),
        block_typed(fuel, e, ss).1 is Ok ==> block_typed(fuel, e, ss).0.symbols.vars == e.symbols.vars,
{
    lemma_block_typed(fuel, e, ss);
}

/// A statement declares variables in the innermost scope only.
pub proof fn law_statement_declares_in_innermost_scope(fuel: nat, e: EnvV, s: StmtV)
    requires
        e.symbols.vars.len() > 0,
    ensures
        frame(e, stmt_typed(fuel, e, s).0),
        stmt_typed(fuel, e, s).1 is Ok ==> outer_kept(e, stmt_typed(fuel, e, s).0),
{
    lemma_stmt_typed(fuel, e, s);
}

/// Where the source is known, an error in a statement has the place of the statement.
pub proof fn law_statement_errors_have_a_place(fuel: nat, e: EnvV, s: StmtV)
    requires
        e.symbols.vars.len() > 0,
        e.source.len() > 0,
    ensures
        stmt_typed(fuel, e, s).1 matches Err(err) ==> {
            &&& err matches ErrorV::Located { context, .. }
            &&& context == ContextV { file: e.file, source: e.source, span: s.span }
        },
{
    lemma_stmt_typed(fuel, e, s);
}

} // verus!
