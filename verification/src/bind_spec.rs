//! What the variables of patterns are bound to.
use crate::ast::{AssignmentOperator, ExprKindV, ExprV, FieldInitV, LiteralV, Span, StmtKindV, StmtV};
use crate::decl::FieldV;
use crate::engine::{def_var, next_id, with_known, EnvV};
use crate::error::ErrorV;
use crate::infer_spec::{enum_template, expr_typed, variant_info, variant_named};
use crate::monomorph::{annotated, ids_by_name, is_enum_template};
use crate::store::{known_in, rep_in};
use crate::symbols::{field_ids, get_in, var_in, EnumVariantInfoV};
use crate::text;
use crate::types::{c_name, TypeId, TypeV};
use crate::unify::instance_at;
use vstd::prelude::*;

verus! {

/// Whether a pattern matches everything and binds nothing.
pub open spec fn is_wildcard(p: ExprV) -> bool {
    p.kind matches ExprKindV::Identifier { name } && (name == "_"@ || name == "default"@)
}

/// The types of the fields from position `i` on, under the given type parameters.
pub open spec fn fields_annotated(fuel: nat, e: EnvV, fs: Seq<FieldV>, ids: Seq<(Seq<char>, TypeId)>, i: int, acc: Seq<TypeId>) -> (
    EnvV,
    Result<Seq<TypeId>, ErrorV>,
)
    decreases fs.len() - i,
{
    if i < 0 || i >= fs.len() {
        (e, Ok(acc))
    } else {
        match annotated(fuel, e, fs[i].annotation, ids) {
            (e1, Ok(id)) => fields_annotated(fuel, e1, fs, ids, i + 1, acc.push(id)),
            (e1, Err(err)) => (e1, Err(err)),
        }
    }
}

/// The argument types of a variant of a generic enum, in a pattern of the given type; none
/// where the type does not say which application of the enum it is.
pub open spec fn generic_args(fuel: nat, e: EnvV, ty: TypeId, variant: Seq<char>) -> (
    EnvV,
    Result<Option<Seq<TypeId>>, ErrorV>,
) {
    let rep = TypeId(rep_in(e.store, ty) as usize);
    match instance_at(e.mono.instance_types, rep, 0) {
        Some(inst) => match enum_template(e, inst.base) {
            None => (e, Ok(None)),
            Some(d) => match variant_named(d.variants, variant, 0) {
                None => (e, Ok(None)),
                Some(v) => match fields_annotated(
                    fuel,
                    e,
                    v.args,
                    ids_by_name(d.type_params, inst.params),
                    0,
                    Seq::empty(),
                ) {
                    (e1, Ok(ids)) => (e1, Ok(Some(ids))),
                    (e1, Err(err)) => (e1, Err(err)),
                },
            },
        },
        None => (e, Ok(realized_args(e, rep, variant))),
    }
}

/// The argument types of a variant of a realized enum.
pub open spec fn realized_args(e: EnvV, rep: TypeId, variant: Seq<char>) -> Option<Seq<TypeId>> {
    match known_in(e.store, rep) {
        Some(TypeV::Named(n)) => if e.mono.mono_instances.contains_key(n) {
            match get_in(e.symbols.enums, n) {
                Some(d) => match variant_named(d.variants, variant, 0) {
                    Some(v) => Some(field_ids(v.args)),
                    None => None,
                },
                None => None,
            }
        } else {
            None
        },
        _ => None,
    }
}

/// The error for a pattern with the wrong number of arguments.
pub open spec fn wrong_pattern_args(name: Seq<char>, got: nat, expected: nat) -> ErrorV {
    ErrorV::TypeError(
        "pattern '"@ + name + "' has "@ + text::decimal_text(got) + " args but variant expects "@ + text::decimal_text(
            expected,
        ),
    )
}

/// The types that the arguments of a variant pattern are bound to.
pub open spec fn pattern_arg_types(fuel: nat, e: EnvV, ty: TypeId, info: EnumVariantInfoV) -> (
    EnvV,
    Result<Seq<TypeId>, ErrorV>,
) {
    if is_enum_template(e, info.enum_name) {
        match generic_args(fuel, e, ty, info.variant_name) {
            (e1, Err(err)) => (e1, Err(err)),
            (e1, Ok(Some(ids))) => (e1, Ok(ids)),
            (e1, Ok(None)) => (e1, Ok(info.arg_types)),
        }
    } else {
        (e, Ok(info.arg_types))
    }
}

/// The engine with the variables of a pattern bound, where a value of the given type is matched.
pub open spec fn bound(fuel: nat, e: EnvV, p: ExprV, ty: TypeId) -> (EnvV, Result<(), ErrorV>)
    decreases p, 0int,
{
    match p.kind {
        ExprKindV::Identifier { name } => if name == "_"@ || name == "default"@ {
            (e, Ok(()))
        } else {
            (def_var(e, name, ty), Ok(()))
        },
        ExprKindV::Call { callee, args } => match callee.kind {
            ExprKindV::Identifier { name } => match variant_info(e, name) {
                Some(info) => match pattern_arg_types(fuel, e, p.ty, info) {
                    (e1, Err(err)) => (e1, Err(err)),
                    (e1, Ok(ids)) => if args.len() != ids.len() {
                        (e1, Err(wrong_pattern_args(name, args.len(), ids.len())))
                    } else {
                        bound_each(fuel, e1, args, ids, 0)
                    },
                },
                None => bound_same(fuel, e, args, ty, 0),
            },
            _ => bound_same(fuel, e, args, ty, 0),
        },
        ExprKindV::StructInit { fields, .. } => bound_fields(fuel, e, fields, ty, 0),
        ExprKindV::FieldAccess { expr, .. } => bound(fuel, e, *expr, ty),
        _ => (e, Ok(())),
    }
}

/// The engine with the variables of the patterns from position `i` on bound, each under its type.
pub open spec fn bound_each(fuel: nat, e: EnvV, ps: Seq<ExprV>, ids: Seq<TypeId>, i: int) -> (EnvV, Result<(), ErrorV>)
    decreases ps, ps.len() - i,
    when 0 <= i <= ps.len()
{
    if i >= ps.len() || i >= ids.len() {
        (e, Ok(()))
    } else {
        match bound(fuel, e, ps[i], ids[i]) {
            (e1, Ok(_)) => bound_each(fuel, e1, ps, ids, i + 1),
            (e1, Err(err)) => (e1, Err(err)),
        }
    }
}

/// The engine with the variables of the patterns from position `i` on bound, all under one type.
pub open spec fn bound_same(fuel: nat, e: EnvV, ps: Seq<ExprV>, ty: TypeId, i: int) -> (EnvV, Result<(), ErrorV>)
    decreases ps, ps.len() - i,
    when 0 <= i <= ps.len()
{
    if i >= ps.len() {
        (e, Ok(()))
    } else {
        match bound(fuel, e, ps[i], ty) {
            (e1, Ok(_)) => bound_same(fuel, e1, ps, ty, i + 1),
            (e1, Err(err)) => (e1, Err(err)),
        }
    }
}

/// The engine with the variables of the field patterns from position `i` on bound.
pub open spec fn bound_fields(fuel: nat, e: EnvV, fs: Seq<FieldInitV>, ty: TypeId, i: int) -> (EnvV, Result<(), ErrorV>)
    decreases fs, fs.len() - i,
    when 0 <= i <= fs.len()
{
    if i >= fs.len() {
        (e, Ok(()))
    } else {
        match bound(fuel, e, fs[i].value, ty) {
            (e1, Ok(_)) => bound_fields(fuel, e1, fs, ty, i + 1),
            (e1, Err(err)) => (e1, Err(err)),
        }
    }
}

/// An expression without a type.
pub open spec fn untyped(kind: ExprKindV, span: Span) -> ExprV {
    ExprV { kind, ty: TypeId(0), span }
}

/// A position as an integer literal holds it.
pub open spec fn literal_index(i: int) -> i64 {
    if i < i64::MAX {
        i as i64
    } else {
        i64::MAX
    }
}

/// The element at position `i` of a tuple.
pub open spec fn slot_at(base: ExprV, i: int) -> ExprV {
    untyped(
        ExprKindV::Index {
            expr: Box::new(base),
            index: Box::new(untyped(ExprKindV::Literal { value: LiteralV::Int(literal_index(i)) }, base.span)),
        },
        base.span,
    )
}

/// The assignment of a value to a variable, as a statement.
pub open spec fn assignment(name: Seq<char>, value: ExprV) -> StmtV {
    StmtV {
        kind: StmtKindV::Expr(
            untyped(
                ExprKindV::Assign {
                    op: AssignmentOperator::Assign,
                    left: Box::new(untyped(ExprKindV::Identifier { name }, value.span)),
                    right: Box::new(value),
                },
                value.span,
            ),
        ),
        span: value.span,
    }
}

/// The declaration of a variable with a type and a value.
pub open spec fn declaration(name: Seq<char>, t: TypeV, id: TypeId, value: ExprV, span: Span) -> StmtV {
    StmtV {
        kind: StmtKindV::VarDecl { name, annotation: Some(t), inferred: id, init: Some(value) },
        span,
    }
}

/// The statements that take a tuple element apart by a pattern, appended to `acc`. A variable
/// that exists is assigned to, any other is declared.
pub open spec fn taken_apart(e: EnvV, p: ExprV, slot: ExprV, t: TypeV, acc: Seq<StmtV>) -> (EnvV, Result<Seq<StmtV>, ErrorV>)
    decreases p, 0int,
{
    match p.kind {
        ExprKindV::Identifier { name } => if name == "_"@ {
            (e, Ok(acc))
        } else if var_in(e.symbols.vars, name) is Some {
            (e, Ok(acc.push(assignment(name, slot))))
        } else {
            (
                def_var(with_known(e, t), name, next_id(e)),
                Ok(acc.push(declaration(name, t, next_id(e), slot, slot.span))),
            )
        },
        ExprKindV::TupleLit { elements } => match t {
            TypeV::Tuple(ts) => if elements.len() != ts.len() {
                (e, Err(ErrorV::TypeError("Nested tuple destructuring arity mismatch"@)))
            } else {
                all_taken_apart(e, elements, slot, ts, 0, acc)
            },
            _ => (e, Err(ErrorV::TypeError("Cannot destructure a non-tuple pattern element"@))),
        },
        _ => (e, Err(ErrorV::TypeError("Unsupported tuple destructuring pattern"@))),
    }
}

/// The statements that take the elements from position `i` on apart, appended to `acc`.
pub open spec fn all_taken_apart(e: EnvV, ps: Seq<ExprV>, base: ExprV, ts: Seq<TypeV>, i: int, acc: Seq<StmtV>) -> (
    EnvV,
    Result<Seq<StmtV>, ErrorV>,
)
    decreases ps, ps.len() - i,
    when 0 <= i <= ps.len()
{
    if i >= ps.len() || i >= ts.len() {
        (e, Ok(acc))
    } else {
        match taken_apart(e, ps[i], slot_at(base, i), ts[i], acc) {
            (e1, Ok(acc1)) => all_taken_apart(e1, ps, base, ts, i + 1, acc1),
            (e1, Err(err)) => (e1, Err(err)),
        }
    }
}

/// The number after `n`; the last one is followed by zero.
pub open spec fn counted(n: u64) -> u64 {
    if n == u64::MAX {
        0
    } else {
        (n + 1) as u64
    }
}

/// The statements that a destructuring assignment stands for: the tuple in a variable of its
/// own, then its elements.
pub open spec fn destructured(fuel: nat, e: EnvV, pats: Seq<ExprV>, right: ExprV, span: Span) -> (
    EnvV,
    Result<Seq<StmtV>, ErrorV>,
) {
    let a = expr_typed(fuel, e, right);
    match a.2 {
        Err(err) => (a.0, Err(err)),
        Ok(id) => match known_in(a.0.store, id) {
            None => (a.0, Err(ErrorV::TypeError("Failed to resolve tuple type: unresolved type"@))),
            Some(t) => match t {
                TypeV::Tuple(ts) => tuple_destructured(a.0, pats, a.1, t, ts, span),
                _ => (
                    a.0,
                    Err(ErrorV::TypeError("Cannot destructure a non-tuple value of type "@ + c_name(t))),
                ),
            },
        },
    }
}

/// The statements that a destructuring assignment of a tuple of the given type stands for.
pub open spec fn tuple_destructured(e: EnvV, pats: Seq<ExprV>, right: ExprV, t: TypeV, ts: Seq<TypeV>, span: Span) -> (
    EnvV,
    Result<Seq<StmtV>, ErrorV>,
) {
    let tmp = "__kit_tuple_dest_"@ + text::decimal_text(e.fresh as nat);
    let e1 = with_known(EnvV { fresh: counted(e.fresh), ..e }, t);
    let base = ExprV { kind: ExprKindV::Identifier { name: tmp }, ty: next_id(e), span };
    if pats.len() != ts.len() {
        (
            e1,
            Err(
                ErrorV::TypeError(
                    "Tuple destructuring arity mismatch: pattern has "@ + text::decimal_text(pats.len())
                        + " elements but value has "@ + text::decimal_text(ts.len()),
                ),
            ),
        )
    } else {
        all_taken_apart(e1, pats, base, ts, 0, seq![declaration(tmp, t, next_id(e), right, span)])
    }
}

} // verus!
