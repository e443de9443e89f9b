//! What type inference of expressions computes.
use crate::ast::{AssignmentOperator, BinaryOperator, ExprKindV, ExprV, FieldInitV, LiteralV, Span,
    UnaryOperator};
use crate::decl::{EnumDefinitionV, EnumVariantV, FieldV, FunctionV, ParamV, StructDefinitionV, TypeParamV};
use crate::engine::{next_id, placed_error, with_known, with_unknown, EnvV, MonoV, PendingGenericV, PendingInstanceV,
    TemplateDefV};
use crate::error::ErrorV;
use crate::expr_pratt::callee_text;
use crate::ffi::name_ids;
use crate::monomorph::{annotated, applied, by_last_id, default_for, ids_by_name, is_enum_template,
    is_function_template, is_struct_template, key_of, method_under, too_deep};
use crate::store::{bound_in, known_in, rep_in, SlotV, StoreV};
use crate::symbols::{all_enums, by_simple_name, field_ids, get_in, some_default, var_in, EnumVariantInfoV};
use crate::text;
use crate::types::{c_name, c_names, tuple_name, TypeId, TypeV};
use crate::unify::{both_unified, instance_at};
use vstd::prelude::*;

verus! {

/// The error for a type that is not known.
pub open spec fn unresolved() -> ErrorV {
    ErrorV::TypeError("unresolved type"@)
}

/// The first variant of the given name, from position `i` on.
pub open spec fn variant_named(vs: Seq<EnumVariantV>, name: Seq<char>, i: int) -> Option<EnumVariantV>
    decreases vs.len() - i,
{
    if i < 0 || i >= vs.len() {
        None
    } else if vs[i].name == name {
        Some(vs[i])
    } else {
        variant_named(vs, name, i + 1)
    }
}

/// The name of the first enum, from position `i` on, with a variant of the given name.
pub open spec fn enum_with_variant(es: Seq<EnumDefinitionV>, name: Seq<char>, i: int) -> Option<Seq<char>>
    decreases es.len() - i,
{
    if i < 0 || i >= es.len() {
        None
    } else if variant_named(es[i].variants, name, 0) is Some {
        Some(es[i].name)
    } else {
        enum_with_variant(es, name, i + 1)
    }
}

/// The name of the first generic enum, from position `i` on, with a variant of the given name.
pub open spec fn template_with_variant(m: MonoV, name: Seq<char>, i: int) -> Option<Seq<char>>
    decreases m.template_names.len() - i,
{
    if i < 0 || i >= m.template_names.len() {
        None
    } else {
        match m.templates[m.template_names[i]].1 {
            TemplateDefV::Enum(d) => if variant_named(d.variants, name, 0) is Some {
                Some(m.template_names[i])
            } else {
                template_with_variant(m, name, i + 1)
            },
            _ => template_with_variant(m, name, i + 1),
        }
    }
}

/// What is known of a variant of an enum definition.
pub open spec fn info_in(d: EnumDefinitionV, v: EnumVariantV) -> EnumVariantInfoV {
    EnumVariantInfoV {
        enum_name: d.name,
        variant_name: v.name,
        arg_types: field_ids(v.args),
        has_defaults: some_default(v.args),
    }
}

/// What is known of the enum variant of the given name: of a generic enum first, then of any.
#[verifier::opaque]
pub open spec fn variant_info(e: EnvV, name: Seq<char>) -> Option<EnumVariantInfoV> {
    match template_with_variant(e.mono, name, 0) {
        Some(t) => match e.mono.templates[t].1 {
            TemplateDefV::Enum(d) => match variant_named(d.variants, name, 0) {
                Some(v) => Some(info_in(d, v)),
                None => None,
            },
            _ => None,
        },
        None => by_simple_name(e.symbols, name, 0),
    }
}

/// An expression that was found to name an enum variant.
#[verifier::opaque]
pub open spec fn variant_reference(fuel: nat, e: EnvV, x: ExprV, enum_name: Seq<char>, variant_name: Seq<char>) -> (
    EnvV,
    ExprV,
    Result<TypeId, ErrorV>,
) {
    let kind = ExprKindV::EnumVariant { enum_name, variant_name };
    if is_enum_template(e, enum_name) {
        match applied(fuel, e, enum_name, Seq::empty(), Seq::empty()) {
            (e1, Ok((_, id))) => (e1, ExprV { kind, ty: id, ..x }, Ok(id)),
            (e1, Err(err)) => (e1, x, Err(err)),
        }
    } else {
        (with_known(e, TypeV::Named(enum_name)), ExprV { kind, ty: next_id(e), ..x }, Ok(next_id(e)))
    }
}

/// The type of a name: of a global, a variable, or an enum variant.
#[verifier::opaque]
pub open spec fn identifier_typed(fuel: nat, e: EnvV, x: ExprV, name: Seq<char>) -> (EnvV, ExprV, Result<TypeId, ErrorV>) {
    match get_in(e.symbols.globals, name) {
        Some(id) => (e, ExprV { ty: id, ..x }, Ok(id)),
        None => match var_in(e.symbols.vars, name) {
            Some(id) => (e, ExprV { ty: id, ..x }, Ok(id)),
            None => match get_in(e.symbols.enum_variants, name) {
                Some(info) => variant_reference(fuel, e, x, info.enum_name, info.variant_name),
                None => match enum_with_variant(all_enums(e.symbols), name, 0) {
                    Some(n) => variant_reference(fuel, e, x, n, name),
                    None => match template_with_variant(e.mono, name, 0) {
                        Some(n) => variant_reference(fuel, e, x, n, name),
                        None => (
                            e,
                            x,
                            Err(
                                ErrorV::TypeError(
                                    "Use of undeclared variable or enum variant '"@ + name + "'"@,
                                ),
                            ),
                        ),
                    },
                },
            },
        },
    }
}

/// The type of a literal.
pub open spec fn literal_type(l: LiteralV) -> TypeV {
    match l {
        LiteralV::Int(_) => TypeV::Int,
        LiteralV::Float(_) => TypeV::Float,
        LiteralV::Char(_) => TypeV::Char,
        LiteralV::Bool(_) => TypeV::Bool,
        LiteralV::String(_) => TypeV::CString,
        LiteralV::Null => TypeV::Ptr(Box::new(TypeV::Void)),
    }
}

/// The default values of the arguments from position `i` up to `total`, appended to `acc`.
pub open spec fn defaults_from(fs: Seq<FieldV>, total: int, i: int, acc: Seq<ExprV>) -> Seq<ExprV>
    decreases total - i,
{
    if i < 0 || i >= total {
        acc
    } else if i < fs.len() && fs[i].default is Some {
        defaults_from(fs, total, i + 1, acc.push(fs[i].default->0))
    } else {
        defaults_from(fs, total, i + 1, acc)
    }
}

/// The arguments of an enum constructor, with default values for those that are missing.
#[verifier::opaque]
pub open spec fn with_default_args(info: EnumVariantInfoV, d: EnumDefinitionV, args: Seq<ExprV>) -> Result<
    Seq<ExprV>,
    ErrorV,
> {
    if args.len() < info.arg_types.len() {
        match variant_named(d.variants, info.variant_name, 0) {
            Some(v) => Ok(defaults_from(v.args, info.arg_types.len() as int, args.len() as int, args)),
            None => Err(
                ErrorV::TypeError(
                    "Variant '"@ + info.variant_name + "' not found in enum '"@ + info.enum_name + "'"@,
                ),
            ),
        }
    } else {
        Ok(args)
    }
}

/// The error for a wrong number of arguments of an enum constructor.
pub open spec fn wrong_variant_args(name: Seq<char>, expected: nat, got: nat) -> ErrorV {
    ErrorV::TypeError(
        "Enum variant '"@ + name + "' expects "@ + text::decimal_text(expected) + " arguments, got "@
            + text::decimal_text(got),
    )
}

/// The error for a wrong number of arguments of a named function.
pub open spec fn wrong_call_args(name: Seq<char>, expected: nat, got: nat) -> ErrorV {
    ErrorV::TypeError(
        "Function '"@ + name + "' expects "@ + text::decimal_text(expected) + " arguments, got "@
            + text::decimal_text(got),
    )
}

/// The parameter types and the return type of a callable type.
pub open spec fn signature_of(t: TypeV) -> Option<(Seq<TypeV>, TypeV)> {
    match t {
        TypeV::Function { param_tys, ret_ty } => Some((param_tys, *ret_ty)),
        TypeV::Ptr(x) => match *x {
            TypeV::Function { param_tys, ret_ty } => Some((param_tys, *ret_ty)),
            _ => None,
        },
        _ => None,
    }
}

/// Infers expressions from position `i` on against expected types, which they then have.
pub open spec fn args_typed(fuel: nat, e: EnvV, args: Seq<ExprV>, expected: Seq<TypeId>, i: int) -> (
    EnvV,
    Seq<ExprV>,
    Result<(), ErrorV>,
)
    decreases fuel, 2int, args.len() - i,
{
    if i < 0 || i >= args.len() || i >= expected.len() {
        (e, args, Ok(()))
    } else {
        match expr_typed(fuel, e, args[i]) {
            (e1, a, Err(err)) => (e1, args.update(i, a), Err(err)),
            (e1, a, Ok(t)) => match both_unified(fuel, e1, t, expected[i]) {
                (e2, Err(err)) => (e2, args.update(i, a), Err(err)),
                (e2, Ok(_)) => args_typed(
                    fuel,
                    e2,
                    args.update(i, checked_as(a, expected[i])),
                    expected,
                    i + 1,
                ),
            },
        }
    }
}

/// Infers expressions from position `i` on.
pub open spec fn all_typed(fuel: nat, e: EnvV, args: Seq<ExprV>, i: int) -> (EnvV, Seq<ExprV>, Result<(), ErrorV>)
    decreases fuel, 2int, args.len() - i,
{
    if i < 0 || i >= args.len() {
        (e, args, Ok(()))
    } else {
        match expr_typed(fuel, e, args[i]) {
            (e1, a, Err(err)) => (e1, args.update(i, a), Err(err)),
            (e1, a, Ok(_)) => all_typed(fuel, e1, args.update(i, a), i + 1),
        }
    }
}

/// Infers expressions from position `i` on against types, which get their indices here.
pub open spec fn args_against(fuel: nat, e: EnvV, args: Seq<ExprV>, ts: Seq<TypeV>, i: int) -> (
    EnvV,
    Seq<ExprV>,
    Result<(), ErrorV>,
)
    decreases fuel, 2int, args.len() - i,
{
    if i < 0 || i >= args.len() || i >= ts.len() {
        (e, args, Ok(()))
    } else {
        match expr_typed(fuel, e, args[i]) {
            (e1, a, Err(err)) => (e1, args.update(i, a), Err(err)),
            (e1, a, Ok(t)) => match both_unified(fuel, with_known(e1, ts[i]), t, next_id(e1)) {
                (e2, Err(err)) => (e2, args.update(i, a), Err(err)),
                (e2, Ok(_)) => args_against(fuel, e2, args.update(i, a), ts, i + 1),
            },
        }
    }
}

/// Infers the elements of an array from position `i` on against the type of the first one.
pub open spec fn elements_typed(fuel: nat, e: EnvV, xs: Seq<ExprV>, first: TypeId, i: int) -> (
    EnvV,
    Seq<ExprV>,
    Result<(), ErrorV>,
)
    decreases fuel, 2int, xs.len() - i,
{
    if i < 0 || i >= xs.len() {
        (e, xs, Ok(()))
    } else {
        match expr_typed(fuel, e, xs[i]) {
            (e1, a, Err(err)) => (e1, xs.update(i, a), Err(err)),
            (e1, a, Ok(t)) => match both_unified(fuel, e1, first, t) {
                (e2, Err(err)) => (e2, xs.update(i, a), Err(err)),
                (e2, Ok(_)) => elements_typed(fuel, e2, xs.update(i, checked_as(a, first)), first, i + 1),
            },
        }
    }
}

/// Infers the elements of a tuple from position `i` on, and collects their types.
pub open spec fn members_typed(fuel: nat, e: EnvV, xs: Seq<ExprV>, i: int, ids: Seq<TypeId>) -> (
    EnvV,
    Seq<ExprV>,
    Result<Seq<TypeId>, ErrorV>,
)
    decreases fuel, 2int, xs.len() - i,
{
    if i < 0 || i >= xs.len() {
        (e, xs, Ok(ids))
    } else {
        match expr_typed(fuel, e, xs[i]) {
            (e1, a, Err(err)) => (e1, xs.update(i, a), Err(err)),
            (e1, a, Ok(t)) => members_typed(fuel, e1, xs.update(i, a), i + 1, ids.push(t)),
        }
    }
}

/// Resolves the types of the elements of a tuple from position `i` on, which they then have.
pub open spec fn members_resolved(s: StoreV, xs: Seq<ExprV>, ids: Seq<TypeId>, i: int, acc: Seq<TypeV>) -> (
    Seq<ExprV>,
    Result<Seq<TypeV>, ErrorV>,
)
    decreases ids.len() - i,
{
    if i < 0 || i >= ids.len() || i >= xs.len() {
        (xs, Ok(acc))
    } else {
        match known_in(s, ids[i]) {
            None => (
                xs,
                Err(ErrorV::TypeError("Failed to resolve tuple element type: unresolved type"@)),
            ),
            Some(t) => members_resolved(s, xs.update(i, ExprV { ty: ids[i], ..xs[i] }), ids, i + 1, acc.push(t)),
        }
    }
}

/// Whether a tuple shape is recorded.
pub open spec fn has_shape(shapes: Seq<(Seq<char>, Seq<TypeV>)>, name: Seq<char>) -> bool {
    exists|i: int| 0 <= i < shapes.len() && (#[trigger] shapes[i]).0 == name
}

/// The tuple shapes with one more, and those nested in it, each once.
pub open spec fn shape_recorded(shapes: Seq<(Seq<char>, Seq<TypeV>)>, elems: Seq<TypeV>) -> Seq<(Seq<char>, Seq<TypeV>)>
    decreases elems, elems.len() + 1,
{
    let name = tuple_name(c_names(elems));
    if has_shape(shapes, name) {
        shapes
    } else {
        nested_recorded(shapes, elems, 0).push((name, elems))
    }
}

/// The tuple shapes with those nested in the elements from position `i` on.
pub open spec fn nested_recorded(shapes: Seq<(Seq<char>, Seq<TypeV>)>, elems: Seq<TypeV>, i: int) -> Seq<
    (Seq<char>, Seq<TypeV>),
>
    decreases elems, elems.len() - i,
    when 0 <= i <= elems.len()
{
    if i >= elems.len() {
        shapes
    } else {
        match elems[i] {
            TypeV::Tuple(inner) => nested_recorded(shape_recorded(shapes, inner), elems, i + 1),
            _ => nested_recorded(shapes, elems, i + 1),
        }
    }
}

/// A call of an enum constructor.
pub open spec fn constructor_typed(fuel: nat, e: EnvV, info: EnumVariantInfoV, args: Seq<ExprV>) -> (
    EnvV,
    Option<Seq<ExprV>>,
    Result<TypeId, ErrorV>,
)
    decreases fuel, 4int, 0int,
{
    if is_enum_template(e, info.enum_name) {
        generic_constructor_typed(fuel, e, info.enum_name, info.variant_name, args)
    } else {
        let full = match get_in(e.symbols.enums, info.enum_name) {
            Some(d) => with_default_args(info, d, args),
            None => Ok(args),
        };
        match full {
            Err(err) => (e, None, Err(err)),
            Ok(full) => if full.len() != info.arg_types.len() {
                (e, None, Err(wrong_variant_args(info.variant_name, info.arg_types.len(), full.len())))
            } else {
                let e1 = with_known(e, TypeV::Named(info.enum_name));
                match args_typed(fuel, e1, full, info.arg_types, 0) {
                    (e2, _, Err(err)) => (e2, None, Err(err)),
                    (e2, full, Ok(_)) => (e2, Some(full), Ok(next_id(e))),
                }
            },
        }
    }
}

/// The generic enum of a name.
pub open spec fn enum_template(e: EnvV, n: Seq<char>) -> Option<EnumDefinitionV> {
    if is_enum_template(e, n) {
        Some(e.mono.templates[n].1->Enum_0)
    } else {
        None
    }
}

/// The generic struct of a name.
pub open spec fn struct_template(e: EnvV, n: Seq<char>) -> Option<StructDefinitionV> {
    if is_struct_template(e, n) {
        Some(e.mono.templates[n].1->Struct_0)
    } else {
        None
    }
}

/// The generic function of a name.
pub open spec fn function_template(e: EnvV, n: Seq<char>) -> Option<FunctionV> {
    if is_function_template(e, n) {
        Some(e.mono.templates[n].1->Function_0)
    } else {
        None
    }
}

/// The error for a template that is not there.
pub open spec fn missing_template(n: Seq<char>) -> ErrorV {
    ErrorV::TypeError("internal error: missing template '"@ + n + "'"@)
}

/// The error for a variant that an enum does not have.
pub open spec fn unknown_variant(name: Seq<char>, enum_name: Seq<char>) -> ErrorV {
    ErrorV::TypeError("Unknown variant '"@ + name + "' in enum '"@ + enum_name + "'"@)
}

/// Infers the arguments of a variant of a generic enum from position `i` on against the types
/// that its fields have in the application.
pub open spec fn variant_args_typed(
    fuel: nat,
    e: EnvV,
    fs: Seq<FieldV>,
    args: Seq<ExprV>,
    ids: Seq<(Seq<char>, TypeId)>,
    is_pattern: bool,
    i: int,
) -> (EnvV, Seq<ExprV>, Result<(), ErrorV>)
    decreases fuel, 2int, args.len() - i,
{
    if i < 0 || i >= args.len() || i >= fs.len() {
        (e, args, Ok(()))
    } else {
        match annotated(fuel, e, fs[i].annotation, ids) {
            (e1, Err(err)) => (e1, args, Err(err)),
            (e1, Ok(expected)) => if is_pattern {
                match pattern_typed(fuel, e1, args[i]) {
                    (e2, a, Err(err)) => (e2, args.update(i, a), Err(err)),
                    (e2, a, Ok(t)) => match both_unified(fuel, e2, expected, t) {
                        (e3, Err(err)) => (e3, args.update(i, a), Err(err)),
                        (e3, Ok(_)) => variant_args_typed(fuel, e3, fs, args.update(i, a), ids, is_pattern, i + 1),
                    },
                }
            } else {
                match expr_typed(fuel, e1, args[i]) {
                    (e2, a, Err(err)) => (e2, args.update(i, a), Err(err)),
                    (e2, a, Ok(t)) => match both_unified(fuel, e2, t, expected) {
                        (e3, Err(err)) => (e3, args.update(i, a), Err(err)),
                        (e3, Ok(_)) => variant_args_typed(
                            fuel,
                            e3,
                            fs,
                            args.update(i, checked_as(a, expected)),
                            ids,
                            is_pattern,
                            i + 1,
                        ),
                    },
                }
            },
        }
    }
}

/// A call of a constructor of a generic enum.
pub open spec fn generic_constructor_typed(
    fuel: nat,
    e: EnvV,
    enum_name: Seq<char>,
    variant_name: Seq<char>,
    args: Seq<ExprV>,
) -> (EnvV, Option<Seq<ExprV>>, Result<TypeId, ErrorV>)
    decreases fuel, 3int, 0int,
{
    match applied(fuel, e, enum_name, Seq::empty(), Seq::empty()) {
        (e1, Err(err)) => (e1, None, Err(err)),
        (e1, Ok((params, id))) => match enum_template(e1, enum_name) {
            None => (e1, None, Err(missing_template(enum_name))),
            Some(d) => match variant_named(d.variants, variant_name, 0) {
                None => (e1, None, Err(unknown_variant(variant_name, d.name))),
                Some(v) => {
                    let info = EnumVariantInfoV {
                        enum_name,
                        variant_name,
                        arg_types: field_ids(v.args),
                        has_defaults: some_default(v.args),
                    };
                    match with_default_args(info, d, args) {
                        Err(err) => (e1, None, Err(err)),
                        Ok(full) => if full.len() != v.args.len() {
                            (e1, None, Err(wrong_variant_args(variant_name, v.args.len(), full.len())))
                        } else {
                            match variant_args_typed(
                                fuel,
                                e1,
                                v.args,
                                full,
                                ids_by_name(d.type_params, params),
                                false,
                                0,
                            ) {
                                (e2, _, Err(err)) => (e2, None, Err(err)),
                                (e2, full, Ok(_)) => (e2, Some(full), Ok(id)),
                            }
                        },
                    }
                },
            },
        },
    }
}

/// A call on a method of its receiver, rewritten to a call of the method's symbol with the
/// receiver as the first argument; and whether it was rewritten.
pub open spec fn method_call_rewritten(fuel: nat, e: EnvV, callee: ExprV, args: Seq<ExprV>) -> (
    EnvV,
    ExprV,
    Seq<ExprV>,
    Option<ErrorV>,
)
    decreases fuel, 2int, 0int,
{
    match callee.kind {
        ExprKindV::FieldAccess { expr, field_name } => match expr_typed(fuel, e, *expr) {
            (e1, r, res) => {
                let kept = ExprV {
                    kind: ExprKindV::FieldAccess { expr: Box::new(r), field_name },
                    ..callee
                };
                match res {
                    Err(_) => (e1, kept, args, None),
                    Ok(t) => match known_in(e1.store, t) {
                        None => (e1, kept, args, Some(unresolved())),
                        Some(ty) => match method_under(e1.mono.impls, key_of(ty), field_name, 0) {
                            None => (e1, kept, args, None),
                            Some(symbol) => (
                                with_unknown(e1),
                                ExprV {
                                    kind: ExprKindV::Identifier { name: symbol },
                                    ty: next_id(e1),
                                    span: Span { line: 0, column: 0, offset: 0, length: 0 },
                                },
                                seq![r] + args,
                                None,
                            ),
                        },
                    },
                }
            },
        },
        _ => (e, callee, args, None),
    }
}

/// The types of type parameters, each unknown, from position `i` on, appended to `acc`.
pub open spec fn fresh_params(e: EnvV, ps: Seq<TypeParamV>, i: int, acc: Seq<(Seq<char>, TypeId)>) -> (
    EnvV,
    Seq<(Seq<char>, TypeId)>,
)
    decreases ps.len() - i,
{
    if i < 0 || i >= ps.len() {
        (e, acc)
    } else {
        fresh_params(with_unknown(e), ps, i + 1, acc.push((ps[i].name, next_id(e))))
    }
}

/// The types of the parameters of a generic function, from position `i` on, appended to `acc`.
pub open spec fn signature_ids(fuel: nat, e: EnvV, ps: Seq<ParamV>, ids: Seq<(Seq<char>, TypeId)>, i: int, acc: Seq<TypeId>) -> (
    EnvV,
    Result<Seq<TypeId>, ErrorV>,
)
    decreases ps.len() - i,
{
    if i < 0 || i >= ps.len() {
        (e, Ok(acc))
    } else {
        match annotated(fuel, e, ps[i].annotation, ids) {
            (e1, Ok(id)) => signature_ids(fuel, e1, ps, ids, i + 1, acc.push(id)),
            (e1, Err(err)) => (e1, Err(err)),
        }
    }
}

/// The engine in which the type parameters from position `i` on that are unknown got the default
/// of a constraint.
pub open spec fn defaults_bound(e: EnvV, ps: Seq<TypeParamV>, ids: Seq<(Seq<char>, TypeId)>, i: int) -> EnvV
    decreases ps.len() - i,
{
    if i < 0 || i >= ps.len() || i >= ids.len() {
        e
    } else {
        let id = ids[i].1;
        let unknown = id.0 < e.store.slots.len() && e.store.slots[id.0 as int] == (SlotV {
            rep: id.0 as int,
            known: None,
        });
        let e1 = if unknown {
            match default_for(ps[i].constraints, e.mono.defaults, 0) {
                Some(t) => EnvV { store: bound_in(e.store, id, t), ..e },
                None => e,
            }
        } else {
            e
        };
        defaults_bound(e1, ps, ids, i + 1)
    }
}

/// The indices of a list of indices by name.
pub open spec fn ids_only(ids: Seq<(Seq<char>, TypeId)>) -> Seq<TypeId> {
    ids.map_values(|p: (Seq<char>, TypeId)| p.1)
}

/// A call of a generic function: its type parameters are unknown at first, the arguments make
/// them known, and the application is recorded as to be realized. Type parameters of one name are
/// one and the same.
pub open spec fn generic_call_typed(fuel: nat, e: EnvV, name: Seq<char>, args: Seq<ExprV>) -> (
    EnvV,
    Seq<ExprV>,
    Result<TypeId, ErrorV>,
)
    decreases fuel, 3int, 0int,
{
    match function_template(e, name) {
        None => (e, args, Err(missing_template(name))),
        Some(d) => {
            let (e1, fresh) = fresh_params(e, d.type_params, 0, Seq::empty());
            let ids = by_last_id(fresh);
            match signature_ids(fuel, e1, d.params, ids, 0, Seq::empty()) {
                (e2, Err(err)) => (e2, args, Err(err)),
                (e2, Ok(sig)) => if args.len() != sig.len() {
                    (e2, args, Err(wrong_call_args(name, sig.len(), args.len())))
                } else {
                    match args_typed(fuel, e2, args, sig, 0) {
                        (e3, args, Err(err)) => (e3, args, Err(err)),
                        (e3, args, Ok(_)) => {
                            let e4 = defaults_bound(e3, d.type_params, ids, 0);
                            let ret = match d.return_type {
                                Some(_) => annotated(fuel, e4, d.return_type, ids),
                                None => (with_known(e4, TypeV::Void), Ok(next_id(e4))),
                            };
                            match ret {
                                (e5, Err(err)) => (e5, args, Err(err)),
                                (e5, Ok(id)) => (
                                    EnvV {
                                        mono: MonoV {
                                            pending: e5.mono.pending.push(
                                                PendingGenericV {
                                                    base: name,
                                                    params: ids_only(ids),
                                                    call_return: Some(id),
                                                },
                                            ),
                                            ..e5.mono
                                        },
                                        ..e5
                                    },
                                    args,
                                    Ok(id),
                                ),
                            }
                        },
                    }
                },
            }
        },
    }
}

/// A call of a function with a known signature. A function without parameters takes any
/// arguments.
pub open spec fn known_call_typed(fuel: nat, e: EnvV, name: Seq<char>, params: Seq<TypeId>, ret: TypeId, args: Seq<ExprV>) -> (
    EnvV,
    Seq<ExprV>,
    Result<TypeId, ErrorV>,
)
    decreases fuel, 3int, 0int,
{
    if params.len() > 0 && args.len() != params.len() {
        (e, args, Err(wrong_call_args(name, params.len(), args.len())))
    } else {
        let done = if params.len() == 0 {
            all_typed(fuel, e, args, 0)
        } else {
            args_typed(fuel, e, args, params, 0)
        };
        match done {
            (e1, args, Ok(_)) => (e1, args, Ok(ret)),
            (e1, args, Err(err)) => (e1, args, Err(err)),
        }
    }
}

/// A call whose callee is no method: of a known function, a generic function, a value of a
/// function type, or a function that C declares.
pub open spec fn plain_call_typed(fuel: nat, e: EnvV, callee: ExprV, args: Seq<ExprV>) -> (
    EnvV,
    ExprV,
    Seq<ExprV>,
    Result<TypeId, ErrorV>,
)
    decreases fuel, 4int, 0int,
{
    let name = callee_text(callee);
    if name is Some && e.symbols.functions.contains_key(name->0) {
        let (params, ret) = e.symbols.functions[name->0];
        let (e1, args, res) = known_call_typed(fuel, e, name->0, params, ret, args);
        (e1, callee, args, res)
    } else if name is Some && is_function_template(e, name->0) {
        let (e1, args, res) = generic_call_typed(fuel, e, name->0, args);
        (e1, callee, args, res)
    } else {
        match expr_typed(fuel, e, callee) {
            (e1, c, Ok(t)) => match known_in(e1.store, t) {
                Some(ty) => match signature_of(ty) {
                    Some((params, ret)) => if args.len() != params.len() {
                        (
                            e1,
                            c,
                            args,
                            Err(
                                ErrorV::TypeError(
                                    "Function expects "@ + text::decimal_text(params.len()) + " arguments, got "@
                                        + text::decimal_text(args.len()),
                                ),
                            ),
                        )
                    } else {
                        match args_against(fuel, e1, args, params, 0) {
                            (e2, args, Err(err)) => (e2, c, args, Err(err)),
                            (e2, args, Ok(_)) => (with_known(e2, ret), c, args, Ok(next_id(e2))),
                        }
                    },
                    None => (
                        e1,
                        c,
                        args,
                        Err(ErrorV::TypeError("Cannot call a value of type "@ + c_name(ty))),
                    ),
                },
                None => unknown_call_typed(fuel, e1, c, args, false),
            },
            (e1, c, Err(err)) => if callee_text(c) is None {
                (e1, c, args, Err(err))
            } else {
                unknown_call_typed(fuel, e1, c, args, true)
            },
        }
    }
}

/// A call of a function that only C may know: its result is of an unknown type.
pub open spec fn unknown_call_typed(fuel: nat, e: EnvV, callee: ExprV, args: Seq<ExprV>, failed: bool) -> (
    EnvV,
    ExprV,
    Seq<ExprV>,
    Result<TypeId, ErrorV>,
)
    decreases fuel, 3int, 0int,
{
    let name = callee_text(callee);
    if name is Some && !e.symbols.functions.contains_key(name->0) && !e.symbols.globals.contains_key(name->0) {
        match all_typed(fuel, with_unknown(e), args, 0) {
            (e1, args, Ok(_)) => (e1, callee, args, Ok(next_id(e))),
            (e1, args, Err(err)) => (e1, callee, args, Err(err)),
        }
    } else {
        let shown = match name {
            Some(n) => n,
            None => "?"@,
        };
        (
            e,
            callee,
            args,
            Err(
                ErrorV::TypeError(
                    if failed {
                        "Cannot call '"@ + shown + "': not a known function, global, or external symbol"@
                    } else {
                        "Expression is not callable"@
                    },
                ),
            ),
        )
    }
}

/// Whether a field of the given name has a value.
pub open spec fn gives_field(fs: Seq<FieldInitV>, name: Seq<char>) -> bool {
    exists|i: int| 0 <= i < fs.len() && (#[trigger] fs[i]).name == name
}

/// The first field of the given name, from position `i` on.
pub open spec fn field_named(fs: Seq<FieldV>, name: Seq<char>, i: int) -> Option<FieldV>
    decreases fs.len() - i,
{
    if i < 0 || i >= fs.len() {
        None
    } else if fs[i].name == name {
        Some(fs[i])
    } else {
        field_named(fs, name, i + 1)
    }
}

/// The error for the first value, from position `i` on, of a field that the struct does not have.
pub open spec fn unknown_field(def: Seq<FieldV>, fs: Seq<FieldInitV>, name: Seq<char>, i: int) -> Option<ErrorV>
    decreases fs.len() - i,
{
    if i < 0 || i >= fs.len() {
        None
    } else if field_named(def, fs[i].name, 0) is None {
        Some(ErrorV::TypeError("Struct '"@ + name + "' has no field '"@ + fs[i].name + "'"@))
    } else {
        unknown_field(def, fs, name, i + 1)
    }
}

/// The error for the first field, from position `i` on, that has neither a value nor a default.
pub open spec fn missing_field(def: Seq<FieldV>, fs: Seq<FieldInitV>, name: Seq<char>, i: int) -> Option<ErrorV>
    decreases def.len() - i,
{
    if i < 0 || i >= def.len() {
        None
    } else if !gives_field(fs, def[i].name) && def[i].default is None {
        Some(
            ErrorV::TypeError(
                "Struct '"@ + name + "' field '"@ + def[i].name
                    + "' has no default value and was not provided in initialization"@,
            ),
        )
    } else {
        missing_field(def, fs, name, i + 1)
    }
}

/// The values with the defaults of the fields, from position `i` on, that `given` lacks.
pub open spec fn field_defaults(def: Seq<FieldV>, given: Seq<FieldInitV>, i: int, acc: Seq<FieldInitV>) -> Seq<FieldInitV>
    decreases def.len() - i,
{
    if i < 0 || i >= def.len() {
        acc
    } else if !gives_field(given, def[i].name) && def[i].default is Some {
        field_defaults(
            def,
            given,
            i + 1,
            acc.push(FieldInitV { name: def[i].name, value: def[i].default->0 }),
        )
    } else {
        field_defaults(def, given, i + 1, acc)
    }
}

/// Infers the values of fields from position `i` on against the types of the fields.
pub open spec fn fields_typed(
    fuel: nat,
    e: EnvV,
    def: Seq<FieldV>,
    fs: Seq<FieldInitV>,
    ids: Option<Seq<(Seq<char>, TypeId)>>,
    i: int,
) -> (EnvV, Seq<FieldInitV>, Result<(), ErrorV>)
    decreases fuel, 2int, fs.len() - i,
{
    if i < 0 || i >= fs.len() {
        (e, fs, Ok(()))
    } else {
        match field_named(def, fs[i].name, 0) {
            None => (
                e,
                fs,
                Err(ErrorV::TypeError("Struct field '"@ + fs[i].name + "' not found in definition"@)),
            ),
            Some(d) => match expr_typed(fuel, e, fs[i].value) {
                (e1, v, Err(err)) => (e1, fs.update(i, FieldInitV { value: v, ..fs[i] }), Err(err)),
                (e1, v, Ok(t)) => {
                    let expected = match ids {
                        Some(ids) => annotated(fuel, e1, d.annotation, ids),
                        None => match d.annotation {
                            Some(ann) => (with_known(e1, ann), Ok(next_id(e1))),
                            None => (e1, Ok(t)),
                        },
                    };
                    match expected {
                        (e2, Err(err)) => (e2, fs.update(i, FieldInitV { value: v, ..fs[i] }), Err(err)),
                        (e2, Ok(want)) => match both_unified(fuel, e2, t, want) {
                            (e3, Err(err)) => (e3, fs.update(i, FieldInitV { value: v, ..fs[i] }), Err(err)),
                            (e3, Ok(_)) => fields_typed(
                                fuel,
                                e3,
                                def,
                                fs.update(i, FieldInitV { value: checked_as(v, want), ..fs[i] }),
                                ids,
                                i + 1,
                            ),
                        },
                    }
                },
            },
        }
    }
}

/// Checks the fields of a struct value, adds the defaults, and infers all values.
pub open spec fn struct_fields_typed(
    fuel: nat,
    e: EnvV,
    def: Seq<FieldV>,
    fs: Seq<FieldInitV>,
    ids: Option<Seq<(Seq<char>, TypeId)>>,
    name: Seq<char>,
) -> (EnvV, Seq<FieldInitV>, Result<(), ErrorV>)
    decreases fuel, 3int, 0int,
{
    match unknown_field(def, fs, name, 0) {
        Some(err) => (e, fs, Err(err)),
        None => match missing_field(def, fs, name, 0) {
            Some(err) => (e, fs, Err(err)),
            None => fields_typed(fuel, e, def, field_defaults(def, fs, 0, fs), ids, 0),
        },
    }
}

/// The name of the struct that a struct value is written with.
pub open spec fn struct_base(t: TypeV) -> Option<Seq<char>> {
    match t {
        TypeV::Named(n) => Some(n),
        TypeV::Instance { base, .. } => Some(base),
        _ => None,
    }
}

/// The type arguments that a struct value is written with.
pub open spec fn supplied_args(t: TypeV) -> Seq<TypeV> {
    match t {
        TypeV::Instance { args, .. } => args,
        _ => Seq::empty(),
    }
}

/// The name of the plain struct that a struct value is written with.
pub open spec fn plain_struct_name(t: TypeV) -> Option<Seq<char>> {
    match t {
        TypeV::Named(n) => Some(n),
        TypeV::Struct { name, .. } => Some(name),
        _ => None,
    }
}

/// A struct value.
pub open spec fn struct_init_typed(fuel: nat, e: EnvV, st: Option<TypeV>, fs: Seq<FieldInitV>) -> (
    EnvV,
    Seq<FieldInitV>,
    Result<TypeId, ErrorV>,
)
    decreases fuel, 5int, 0int,
{
    match st {
        None => (e, fs, Err(ErrorV::TypeError("StructInit missing type annotation"@))),
        Some(t) => if struct_base(t) is Some && is_struct_template(e, struct_base(t)->0) {
            generic_struct_init_typed(fuel, e, struct_base(t)->0, supplied_args(t), fs)
        } else {
            match plain_struct_name(t) {
                None => (
                    with_known(e, t),
                    fs,
                    Err(ErrorV::TypeError("StructInit requires a struct type"@)),
                ),
                Some(n) => plain_struct_init_typed(fuel, with_known(e, t), n, next_id(e), fs),
            }
        },
    }
}

/// A value of a generic struct.
pub open spec fn generic_struct_init_typed(
    fuel: nat,
    e: EnvV,
    base: Seq<char>,
    supplied: Seq<TypeV>,
    fs: Seq<FieldInitV>,
) -> (EnvV, Seq<FieldInitV>, Result<TypeId, ErrorV>)
    decreases fuel, 4int, 0int,
{
    let a = applied(fuel, e, base, supplied, Seq::empty());
    match a.1 {
        Err(err) => (a.0, fs, Err(err)),
        Ok(inst) => match struct_template(a.0, base) {
            None => (a.0, fs, Err(missing_template(base))),
            Some(d) => {
                let r = struct_fields_typed(
                    fuel,
                    a.0,
                    d.fields,
                    fs,
                    Some(ids_by_name(d.type_params, inst.0)),
                    d.name,
                );
                (r.0, r.1, or_type(r.2, inst.1))
            },
        },
    }
}

/// A value of a plain struct.
pub open spec fn plain_struct_init_typed(fuel: nat, e: EnvV, name: Seq<char>, id: TypeId, fs: Seq<FieldInitV>) -> (
    EnvV,
    Seq<FieldInitV>,
    Result<TypeId, ErrorV>,
)
    decreases fuel, 4int, 0int,
{
    match get_in(e.symbols.structs, name) {
        None => (e, fs, Err(ErrorV::TypeError("Unknown struct type '"@ + name + "'"@))),
        Some(d) => {
            let r = struct_fields_typed(fuel, e, d.fields, fs, None, d.name);
            (r.0, r.1, or_type(r.2, id))
        },
    }
}

/// The type, unless there is an error.
pub open spec fn or_type(res: Result<(), ErrorV>, id: TypeId) -> Result<TypeId, ErrorV> {
    match res {
        Ok(_) => Ok(id),
        Err(err) => Err(err),
    }
}

/// The name that a chain of aliases ends at, after at most `fuel` steps.
pub open spec fn alias_end(typedefs: Map<Seq<char>, TypeV>, name: Seq<char>, fuel: nat) -> Seq<char>
    decreases fuel,
{
    if fuel > 0 && typedefs.contains_key(name) && typedefs[name] is Named && typedefs[name]->Named_0 != name {
        alias_end(typedefs, typedefs[name]->Named_0, (fuel - 1) as nat)
    } else {
        name
    }
}

/// The first variant, from position `i` on, with an argument of the given name.
pub open spec fn variant_with_arg(vs: Seq<EnumVariantV>, name: Seq<char>, i: int) -> Option<EnumVariantV>
    decreases vs.len() - i,
{
    if i < 0 || i >= vs.len() {
        None
    } else if field_named(vs[i].args, name, 0) is Some {
        Some(vs[i])
    } else {
        variant_with_arg(vs, name, i + 1)
    }
}

/// The type of the first field of the given name, from position `i` on.
pub open spec fn id_of_field(fs: Seq<(Seq<char>, TypeId)>, name: Seq<char>, i: int) -> Option<TypeId>
    decreases fs.len() - i,
{
    if i < 0 || i >= fs.len() {
        None
    } else if fs[i].0 == name {
        Some(fs[i].1)
    } else {
        id_of_field(fs, name, i + 1)
    }
}

/// The name and the fields of the struct, or of the variant with the given field, that a type
/// stands for.
pub open spec fn fields_of_type(fuel: nat, e: EnvV, t: TypeV, field: Seq<char>) -> Result<
    (Seq<char>, Seq<(Seq<char>, TypeId)>),
    ErrorV,
> {
    match t {
        TypeV::Struct { name, fields } => Ok((name, fields)),
        TypeV::Named(n) => {
            let end = alias_end(e.store.typedefs, n, fuel);
            match get_in(e.symbols.structs, end) {
                Some(d) => Ok((end, name_ids(d.fields))),
                None => match get_in(e.symbols.enums, end) {
                    Some(d) => match variant_with_arg(d.variants, field, 0) {
                        Some(v) => Ok((n, name_ids(v.args))),
                        None => Err(ErrorV::TypeError("Enum '"@ + n + "' has no field '"@ + field + "'"@)),
                    },
                    None => Err(ErrorV::TypeError("Cannot access field on unknown type '"@ + n + "'"@)),
                },
            }
        },
        _ => Err(ErrorV::TypeError("Cannot access field on non-struct type"@)),
    }
}

/// The type of a field of a pending application.
#[verifier::opaque]
pub open spec fn instance_field(fuel: nat, e: EnvV, field: Seq<char>, inst: PendingInstanceV) -> (EnvV, Result<TypeId, ErrorV>) {
    match struct_template(e, inst.base) {
        Some(d) => match field_named(d.fields, field, 0) {
            None => (e, Err(ErrorV::TypeError("Struct '"@ + d.name + "' has no field '"@ + field + "'"@))),
            Some(f) => annotated(fuel, e, f.annotation, ids_by_name(d.type_params, inst.params)),
        },
        None => match enum_template(e, inst.base) {
            Some(d) => match variant_with_arg(d.variants, field, 0) {
                None => (e, Err(ErrorV::TypeError("Enum '"@ + d.name + "' has no field '"@ + field + "'"@))),
                Some(v) => match field_named(v.args, field, 0) {
                    None => (e, Err(unresolved())),
                    Some(f) => annotated(fuel, e, f.annotation, ids_by_name(d.type_params, inst.params)),
                },
            },
            None => (
                e,
                Err(ErrorV::TypeError("Cannot access field on unknown type '"@ + inst.base + "'"@)),
            ),
        },
    }
}

/// The type of a field of a value of the given type.
#[verifier::opaque]
pub open spec fn field_typed(fuel: nat, e: EnvV, container: TypeId, field: Seq<char>) -> (EnvV, Result<TypeId, ErrorV>) {
    let rep = rep_in(e.store, container);
    match instance_at(e.mono.instance_types, TypeId(rep as usize), 0) {
        Some(inst) => instance_field(fuel, e, field, inst),
        None => match known_in(e.store, container) {
            None => (e, Err(unresolved())),
            Some(t) => match fields_of_type(fuel, e, t, field) {
                Err(err) => (e, Err(err)),
                Ok((name, fields)) => match id_of_field(fields, field, 0) {
                    Some(id) => (e, Ok(id)),
                    None => (
                        e,
                        Err(
                            ErrorV::TypeError(
                                "Struct/variant '"@ + name + "' has no field '"@ + field + "'"@,
                            ),
                        ),
                    ),
                },
            },
        },
    }
}

/// The error for an enum variant that is not known.
pub open spec fn unknown_enum_variant(enum_name: Seq<char>, variant_name: Seq<char>) -> ErrorV {
    ErrorV::TypeError("Unknown enum variant '"@ + enum_name + "."@ + variant_name + "'"@)
}

/// A value of an enum variant with arguments.
pub open spec fn enum_init_typed(fuel: nat, e: EnvV, enum_name: Seq<char>, variant_name: Seq<char>, args: Seq<ExprV>) -> (
    EnvV,
    Seq<ExprV>,
    Result<TypeId, ErrorV>,
)
    decreases fuel, 4int, 0int,
{
    if is_enum_template(e, enum_name) {
        match generic_constructor_typed(fuel, e, enum_name, variant_name, args) {
            (e1, Some(full), res) => (e1, full, res),
            (e1, None, res) => (e1, args, res),
        }
    } else {
        match get_in(e.symbols.enum_variants, crate::symbols::qualified(enum_name, variant_name)) {
            None => (e, args, Err(unknown_enum_variant(enum_name, variant_name))),
            Some(info) => match get_in(e.symbols.enums, enum_name) {
                None => (e, args, Err(ErrorV::TypeError("Unknown enum '"@ + enum_name + "'"@))),
                Some(d) => match with_default_args(info, d, args) {
                    Err(err) => (e, args, Err(err)),
                    Ok(full) => if full.len() != info.arg_types.len() {
                        (
                            e,
                            full,
                            Err(
                                wrong_variant_args(
                                    enum_name + "."@ + variant_name,
                                    info.arg_types.len(),
                                    full.len(),
                                ),
                            ),
                        )
                    } else {
                        match args_typed(fuel, e, full, info.arg_types, 0) {
                            (e1, full, Err(err)) => (e1, full, Err(err)),
                            (e1, full, Ok(_)) => (
                                with_known(e1, TypeV::Named(enum_name)),
                                full,
                                Ok(next_id(e1)),
                            ),
                        }
                    },
                },
            },
        }
    }
}

/// The type of an element of a tuple.
pub open spec fn tuple_element(e: EnvV, elems: Seq<TypeV>, index: ExprV) -> (EnvV, Result<TypeId, ErrorV>) {
    match index.kind {
        ExprKindV::Literal { value: LiteralV::Int(i) } => if i < 0 || i >= elems.len() {
            (
                e,
                Err(
                    ErrorV::TypeError(
                        "Tuple index "@ + text::signed_text(i as int) + " out of range (tuple has "@
                            + text::decimal_text(elems.len()) + " elements)"@,
                    ),
                ),
            )
        } else {
            (with_known(e, elems[i as int]), Ok(next_id(e)))
        },
        _ => (
            e,
            Err(
                ErrorV::TypeError("Tuple elements can only be accessed with integer literal indices"@),
            ),
        ),
    }
}

/// The result of a unary operator on an operand of the given type.
#[verifier::opaque]
pub open spec fn unary_result(e: EnvV, op: UnaryOperator, t: TypeId) -> (EnvV, Result<TypeId, ErrorV>) {
    match op {
        UnaryOperator::AddressOf => match known_in(e.store, t) {
            None => (e, Err(unresolved())),
            Some(ty) => (with_known(e, TypeV::Ptr(Box::new(ty))), Ok(next_id(e))),
        },
        UnaryOperator::Dereference => match known_in(e.store, t) {
            None => (e, Err(unresolved())),
            Some(TypeV::Ptr(inner)) => (with_known(e, *inner), Ok(next_id(e))),
            Some(other) => (
                e,
                Err(ErrorV::TypeError("Cannot dereference non-pointer type: "@ + c_name(other))),
            ),
        },
        _ => (e, Ok(t)),
    }
}

/// Unifies two pairs of type indices one after the other.
pub open spec fn two_unified(fuel: nat, e: EnvV, a: TypeId, b: TypeId, c: TypeId, d: TypeId) -> (EnvV, Result<(), ErrorV>) {
    match both_unified(fuel, e, a, b) {
        (e1, Err(err)) => (e1, Err(err)),
        (e1, Ok(_)) => both_unified(fuel, e1, c, d),
    }
}

/// The result of a binary operator on operands of the given types.
#[verifier::opaque]
pub open spec fn binary_result(fuel: nat, e: EnvV, op: BinaryOperator, l: TypeId, r: TypeId) -> (EnvV, Result<TypeId, ErrorV>) {
    match op {
        BinaryOperator::And | BinaryOperator::Or => {
            let e1 = with_known(e, TypeV::Bool);
            match two_unified(fuel, e1, l, next_id(e), r, next_id(e)) {
                (e2, Err(err)) => (e2, Err(err)),
                (e2, Ok(_)) => (e2, Ok(next_id(e))),
            }
        },
        BinaryOperator::Eq | BinaryOperator::Ne | BinaryOperator::Lt | BinaryOperator::Gt | BinaryOperator::Le
        | BinaryOperator::Ge => match both_unified(fuel, e, l, r) {
            (e1, Err(err)) => (e1, Err(err)),
            (e1, Ok(_)) => (with_known(e1, TypeV::Bool), Ok(next_id(e1))),
        },
        _ => match both_unified(fuel, e, l, r) {
            (e1, Err(err)) => (e1, Err(err)),
            (e1, Ok(_)) => (e1, Ok(l)),
        },
    }
}

/// The type of an element of an array or of what a pointer points to.
pub open spec fn element_result(e: EnvV, t: TypeV) -> (EnvV, Result<TypeId, ErrorV>) {
    match t {
        TypeV::CArray(x, _) => (with_known(e, *x), Ok(next_id(e))),
        TypeV::Ptr(x) => (with_known(e, *x), Ok(next_id(e))),
        _ => (e, Err(ErrorV::TypeError("Cannot index non-array type: "@ + c_name(t)))),
    }
}

/// Infers the type of an expression: the engine after it, the expression with its types filled
/// in, and the type or the error, with the place of the expression. Expressions are followed at most
/// `fuel` levels deep.
pub open spec fn expr_typed(fuel: nat, e: EnvV, x: ExprV) -> (EnvV, ExprV, Result<TypeId, ErrorV>)
    decreases fuel, 1int, 1int,
{
    let (e1, y, r) = expr_inner_typed(fuel, e, x);
    match r {
        Ok(id) => (e1, y, Ok(id)),
        Err(err) => (e1, y, Err(placed_error(e1, x.span, err))),
    }
}

/// Infers the type of an expression; an error does not have the place of the expression itself.
pub open spec fn expr_inner_typed(fuel: nat, e: EnvV, x: ExprV) -> (EnvV, ExprV, Result<TypeId, ErrorV>)
    decreases fuel, 1int, 0int,
{
    if fuel == 0 {
        (e, x, Err(too_deep()))
    } else {
        let n = (fuel - 1) as nat;
        match x.kind {
            ExprKindV::Identifier { name } => identifier_typed(n, e, x, name),
            ExprKindV::Literal { value } => (
                with_known(e, literal_type(value)),
                ExprV { ty: next_id(e), ..x },
                Ok(next_id(e)),
            ),
            ExprKindV::Call { callee, args } => call_typed(n, e, callee, args, x.ty, x.span),
            ExprKindV::UnaryOp { op, expr } => unary_typed(n, e, op, *expr, x.ty, x.span),
            ExprKindV::BinaryOp { op, left, right } => binary_typed(n, e, op, *left, *right, x.ty, x.span),
            ExprKindV::Assign { op, left, right } => assign_typed(n, e, op, *left, *right, x.ty, x.span),
            ExprKindV::If { cond, then_branch, else_branch } => conditional_typed(
                n,
                e,
                *cond,
                *then_branch,
                *else_branch,
                x.ty,
                x.span,
            ),
            ExprKindV::RangeLiteral { start, end } => range_typed(n, e, *start, *end, x.ty, x.span),
            ExprKindV::StructInit { struct_type, fields } => {
                let r = struct_init_typed(n, e, struct_type, fields);
                finished(r.0, ExprKindV::StructInit { struct_type, fields: r.1 }, x.ty, x.span, r.2)
            },
            ExprKindV::FieldAccess { expr, field_name } => field_access_typed(n, e, *expr, field_name, x.ty, x.span),
            ExprKindV::EnumVariant { enum_name, variant_name } => variant_value_typed(
                n,
                e,
                enum_name,
                variant_name,
                x.ty,
                x.span,
            ),
            ExprKindV::EnumInit { enum_name, variant_name, args } => {
                let r = enum_init_typed(n, e, enum_name, variant_name, args);
                finished(r.0, ExprKindV::EnumInit { enum_name, variant_name, args: r.1 }, x.ty, x.span, r.2)
            },
            ExprKindV::ArrayLiteral { elements } => {
                let r = array_typed(n, e, elements);
                finished(r.0, ExprKindV::ArrayLiteral { elements: r.1 }, x.ty, x.span, r.2)
            },
            ExprKindV::TupleLit { elements } => {
                let r = tuple_typed(n, e, elements);
                finished(r.0, ExprKindV::TupleLit { elements: r.1 }, x.ty, x.span, r.2)
            },
            ExprKindV::Index { expr, index } => element_typed(n, e, *expr, *index, x.ty, x.span),
        }
    }
}

/// An expression that was checked against a type, which it has from then on. A call keeps the type
/// of its own, by which it is told apart from other calls of the same function.
pub open spec fn checked_as(x: ExprV, ty: TypeId) -> ExprV {
    if x.kind is Call {
        x
    } else {
        ExprV { ty, ..x }
    }
}

/// What is left of an expression of the given form: its type is filled in where there is one.
pub open spec fn finished(e: EnvV, kind: ExprKindV, ty: TypeId, span: Span, res: Result<TypeId, ErrorV>) -> (
    EnvV,
    ExprV,
    Result<TypeId, ErrorV>,
) {
    match res {
        Ok(id) => (e, ExprV { kind, ty: id, span }, Ok(id)),
        Err(err) => (e, ExprV { kind, ty, span }, Err(err)),
    }
}

/// A variant of an enum, without arguments.
#[verifier::opaque]
pub open spec fn variant_value_typed(
    fuel: nat,
    e: EnvV,
    enum_name: Seq<char>,
    variant_name: Seq<char>,
    ty: TypeId,
    span: Span,
) -> (EnvV, ExprV, Result<TypeId, ErrorV>) {
    let x = ExprV { kind: ExprKindV::EnumVariant { enum_name, variant_name }, ty, span };
    if is_enum_template(e, enum_name) || get_in(
        e.symbols.enum_variants,
        crate::symbols::qualified(enum_name, variant_name),
    ) is Some {
        variant_reference(fuel, e, x, enum_name, variant_name)
    } else {
        (e, x, Err(unknown_enum_variant(enum_name, variant_name)))
    }
}

/// A call: of an enum constructor, of a method, or of a function.
pub open spec fn call_typed(fuel: nat, e: EnvV, callee: Box<ExprV>, args: Seq<ExprV>, ty: TypeId, span: Span) -> (
    EnvV,
    ExprV,
    Result<TypeId, ErrorV>,
)
    decreases fuel, 5int, 0int,
{
    if callee_text(*callee) is Some && variant_info(e, callee_text(*callee)->0) is Some {
        match constructor_typed(fuel, e, variant_info(e, callee_text(*callee)->0)->0, args) {
            (e1, Some(full), Ok(id)) => (
                e1,
                ExprV { kind: ExprKindV::Call { callee, args: full }, ty: id, span },
                Ok(id),
            ),
            (e1, _, res) => (e1, ExprV { kind: ExprKindV::Call { callee, args }, ty, span }, res),
        }
    } else {
        method_or_function_call_typed(fuel, e, *callee, args, ty, span)
    }
}

/// A call of a method, which becomes a call of a function, or of a function.
pub open spec fn method_or_function_call_typed(
    fuel: nat,
    e: EnvV,
    callee: ExprV,
    args: Seq<ExprV>,
    ty: TypeId,
    span: Span,
) -> (EnvV, ExprV, Result<TypeId, ErrorV>)
    decreases fuel, 4int, 1int,
{
    match method_call_rewritten(fuel, e, callee, args) {
        (e1, c, args, Some(err)) => (
            e1,
            ExprV { kind: ExprKindV::Call { callee: Box::new(c), args }, ty, span },
            Err(err),
        ),
        (e1, c, args, None) => {
            let r = plain_call_typed(fuel, e1, c, args);
            finished(r.0, ExprKindV::Call { callee: Box::new(r.1), args: r.2 }, ty, span, r.3)
        },
    }
}

/// An operator applied to one operand.
pub open spec fn unary_typed(fuel: nat, e: EnvV, op: UnaryOperator, x: ExprV, ty: TypeId, span: Span) -> (
    EnvV,
    ExprV,
    Result<TypeId, ErrorV>,
)
    decreases fuel, 5int, 0int,
{
    match expr_typed(fuel, e, x) {
        (e1, y, Err(err)) => finished(e1, ExprKindV::UnaryOp { op, expr: Box::new(y) }, ty, span, Err(err)),
        (e1, y, Ok(t)) => {
            let r = unary_result(e1, op, t);
            finished(r.0, ExprKindV::UnaryOp { op, expr: Box::new(y) }, ty, span, r.1)
        },
    }
}

/// An operator applied to two operands.
pub open spec fn binary_typed(
    fuel: nat,
    e: EnvV,
    op: BinaryOperator,
    left: ExprV,
    right: ExprV,
    ty: TypeId,
    span: Span,
) -> (EnvV, ExprV, Result<TypeId, ErrorV>)
    decreases fuel, 5int, 0int,
{
    let a = expr_typed(fuel, e, left);
    let l = Box::new(a.1);
    match a.2 {
        Err(err) => finished(a.0, ExprKindV::BinaryOp { op, left: l, right: Box::new(right) }, ty, span, Err(err)),
        Ok(lt) => {
            let b = expr_typed(fuel, a.0, right);
            let kind = ExprKindV::BinaryOp { op, left: l, right: Box::new(b.1) };
            match b.2 {
                Err(err) => finished(b.0, kind, ty, span, Err(err)),
                Ok(rt) => {
                    let r = binary_result(fuel, b.0, op, lt, rt);
                    finished(r.0, kind, ty, span, r.1)
                },
            }
        },
    }
}

/// Makes two types one, and gives the first of them.
pub open spec fn made_one(fuel: nat, e: EnvV, a: TypeId, b: TypeId) -> (EnvV, Result<TypeId, ErrorV>) {
    match both_unified(fuel, e, a, b) {
        (e1, Ok(_)) => (e1, Ok(a)),
        (e1, Err(err)) => (e1, Err(err)),
    }
}

/// An assignment: the value before the place.
pub open spec fn assign_typed(
    fuel: nat,
    e: EnvV,
    op: AssignmentOperator,
    left: ExprV,
    right: ExprV,
    ty: TypeId,
    span: Span,
) -> (EnvV, ExprV, Result<TypeId, ErrorV>)
    decreases fuel, 5int, 0int,
{
    let b = expr_typed(fuel, e, right);
    let r = Box::new(b.1);
    match b.2 {
        Err(err) => finished(b.0, ExprKindV::Assign { op, left: Box::new(left), right: r }, ty, span, Err(err)),
        Ok(rt) => {
            let a = expr_typed(fuel, b.0, left);
            let kind = ExprKindV::Assign { op, left: Box::new(a.1), right: r };
            match a.2 {
                Err(err) => finished(a.0, kind, ty, span, Err(err)),
                Ok(lt) => {
                    let u = made_one(fuel, a.0, lt, rt);
                    finished(u.0, kind, ty, span, u.1)
                },
            }
        },
    }
}

/// A choice between two values.
pub open spec fn conditional_typed(
    fuel: nat,
    e: EnvV,
    cond: ExprV,
    then_branch: ExprV,
    else_branch: ExprV,
    ty: TypeId,
    span: Span,
) -> (EnvV, ExprV, Result<TypeId, ErrorV>)
    decreases fuel, 5int, 0int,
{
    let c = expr_typed(fuel, e, cond);
    let k = condition_checked(fuel, c.0, c.2);
    match k.1 {
        Err(err) => finished(
            k.0,
            ExprKindV::If {
                cond: Box::new(c.1),
                then_branch: Box::new(then_branch),
                else_branch: Box::new(else_branch),
            },
            ty,
            span,
            Err(err),
        ),
        Ok(_) => branches_typed(fuel, k.0, c.1, then_branch, else_branch, ty, span),
    }
}

/// The two values of a choice whose condition is checked.
pub open spec fn branches_typed(
    fuel: nat,
    e: EnvV,
    cond: ExprV,
    then_branch: ExprV,
    else_branch: ExprV,
    ty: TypeId,
    span: Span,
) -> (EnvV, ExprV, Result<TypeId, ErrorV>)
    decreases fuel, 4int, 0int,
{
    let a = expr_typed(fuel, e, then_branch);
    match a.2 {
        Err(err) => finished(
            a.0,
            ExprKindV::If { cond: Box::new(cond), then_branch: Box::new(a.1), else_branch: Box::new(else_branch) },
            ty,
            span,
            Err(err),
        ),
        Ok(at) => {
            let b = expr_typed(fuel, a.0, else_branch);
            let kind = ExprKindV::If { cond: Box::new(cond), then_branch: Box::new(a.1), else_branch: Box::new(b.1) };
            match b.2 {
                Err(err) => finished(b.0, kind, ty, span, Err(err)),
                Ok(bt) => {
                    let u = made_one(fuel, b.0, at, bt);
                    finished(u.0, kind, ty, span, u.1)
                },
            }
        },
    }
}

/// A range: two integers; it keeps the type mark it had.
pub open spec fn range_typed(fuel: nat, e: EnvV, start: ExprV, end: ExprV, ty: TypeId, span: Span) -> (
    EnvV,
    ExprV,
    Result<TypeId, ErrorV>,
)
    decreases fuel, 5int, 0int,
{
    let a = expr_typed(fuel, e, start);
    match a.2 {
        Err(err) => (
            a.0,
            ExprV { kind: ExprKindV::RangeLiteral { start: Box::new(a.1), end: Box::new(end) }, ty, span },
            Err(err),
        ),
        Ok(at) => {
            let b = expr_typed(fuel, a.0, end);
            let y = ExprV {
                kind: ExprKindV::RangeLiteral { start: Box::new(a.1), end: Box::new(b.1) },
                ty,
                span,
            };
            match b.2 {
                Err(err) => (b.0, y, Err(err)),
                Ok(bt) => {
                    let r = range_result(fuel, b.0, at, bt);
                    (r.0, y, r.1)
                },
            }
        },
    }
}

/// The type of a range between values of the given types.
#[verifier::opaque]
pub open spec fn range_result(fuel: nat, e: EnvV, a: TypeId, b: TypeId) -> (EnvV, Result<TypeId, ErrorV>) {
    match two_unified(fuel, with_known(e, TypeV::Int), a, next_id(e), b, next_id(e)) {
        (e1, Ok(_)) => (with_known(e1, TypeV::Void), Ok(next_id(e1))),
        (e1, Err(err)) => (e1, Err(err)),
    }
}

/// A field of a value.
pub open spec fn field_access_typed(fuel: nat, e: EnvV, x: ExprV, field: Seq<char>, ty: TypeId, span: Span) -> (
    EnvV,
    ExprV,
    Result<TypeId, ErrorV>,
)
    decreases fuel, 5int, 0int,
{
    let a = expr_typed(fuel, e, x);
    let kind = ExprKindV::FieldAccess { expr: Box::new(a.1), field_name: field };
    match a.2 {
        Err(err) => finished(a.0, kind, ty, span, Err(err)),
        Ok(t) => {
            let r = field_typed(fuel, a.0, t, field);
            finished(r.0, kind, ty, span, r.1)
        },
    }
}

/// An element of a value.
pub open spec fn element_typed(fuel: nat, e: EnvV, x: ExprV, index: ExprV, ty: TypeId, span: Span) -> (
    EnvV,
    ExprV,
    Result<TypeId, ErrorV>,
)
    decreases fuel, 5int, 0int,
{
    let a = expr_typed(fuel, e, x);
    match a.2 {
        Err(err) => finished(
            a.0,
            ExprKindV::Index { expr: Box::new(a.1), index: Box::new(index) },
            ty,
            span,
            Err(err),
        ),
        Ok(t) => {
            let r = index_typed(fuel, a.0, t, index);
            finished(r.0, ExprKindV::Index { expr: Box::new(a.1), index: Box::new(r.1) }, ty, span, r.2)
        },
    }
}

/// Checks that an inferred condition is a truth value.
pub open spec fn condition_checked(fuel: nat, e: EnvV, res: Result<TypeId, ErrorV>) -> (EnvV, Result<(), ErrorV>) {
    match res {
        Err(err) => (e, Err(err)),
        Ok(t) => both_unified(fuel, with_known(e, TypeV::Bool), t, next_id(e)),
    }
}

/// An array literal.
pub open spec fn array_typed(fuel: nat, e: EnvV, xs: Seq<ExprV>) -> (EnvV, Seq<ExprV>, Result<TypeId, ErrorV>)
    decreases fuel, 3int, 0int,
{
    if xs.len() == 0 {
        (
            e,
            xs,
            Err(
                ErrorV::TypeError(
                    "Empty array literal '[]' is not supported; add at least one element or a type annotation"@,
                ),
            ),
        )
    } else {
        match expr_typed(fuel, e, xs[0]) {
            (e1, a, Err(err)) => (e1, xs.update(0, a), Err(err)),
            (e1, a, Ok(first)) => match elements_typed(fuel, e1, xs.update(0, a), first, 1) {
                (e2, xs, Err(err)) => (e2, xs, Err(err)),
                (e2, xs, Ok(_)) => match known_in(e2.store, first) {
                    None => (
                        e2,
                        xs,
                        Err(ErrorV::TypeError("Failed to resolve array element type: unresolved type"@)),
                    ),
                    Some(t) => (
                        with_known(e2, TypeV::CArray(Box::new(t), xs.len() as usize)),
                        xs,
                        Ok(next_id(e2)),
                    ),
                },
            },
        }
    }
}

/// A tuple.
pub open spec fn tuple_typed(fuel: nat, e: EnvV, xs: Seq<ExprV>) -> (EnvV, Seq<ExprV>, Result<TypeId, ErrorV>)
    decreases fuel, 3int, 0int,
{
    if xs.len() == 0 {
        (
            e,
            xs,
            Err(ErrorV::TypeError("Empty tuple literal '()' is not supported; use at least two elements"@)),
        )
    } else {
        match members_typed(fuel, e, xs, 0, Seq::empty()) {
            (e1, xs, Err(err)) => (e1, xs, Err(err)),
            (e1, xs, Ok(ids)) => match members_resolved(e1.store, xs, ids, 0, Seq::empty()) {
                (xs, Err(err)) => (e1, xs, Err(err)),
                (xs, Ok(ts)) => {
                    let e2 = EnvV { tuples: shape_recorded(e1.tuples, ts), ..e1 };
                    (with_known(e2, TypeV::Tuple(ts)), xs, Ok(next_id(e2)))
                },
            },
        }
    }
}

/// The index of an index expression, and the type of the element.
pub open spec fn index_typed(fuel: nat, e: EnvV, container: TypeId, index: ExprV) -> (EnvV, ExprV, Result<TypeId, ErrorV>)
    decreases fuel, 3int, 0int,
{
    match known_in(e.store, container) {
        None => (e, index, Err(unresolved())),
        Some(TypeV::Tuple(elems)) => match tuple_element(e, elems, index) {
            (e1, res) => (e1, index, res),
        },
        Some(t) => match expr_typed(fuel, e, index) {
            (e1, i, Err(err)) => (e1, i, Err(err)),
            (e1, i, Ok(it)) => match both_unified(fuel, with_known(e1, TypeV::Int), it, next_id(e1)) {
                (e2, Err(err)) => (e2, i, Err(err)),
                (e2, Ok(_)) => match element_result(e2, t) {
                    (e3, res) => (e3, i, res),
                },
            },
        },
    }
}

/// Infers the arguments of a pattern from position `i` on against the types of a variant.
pub open spec fn subpatterns_typed(fuel: nat, e: EnvV, args: Seq<ExprV>, expected: Seq<TypeId>, i: int) -> (
    EnvV,
    Seq<ExprV>,
    Result<(), ErrorV>,
)
    decreases fuel, 2int, args.len() - i,
{
    if i < 0 || i >= args.len() || i >= expected.len() {
        (e, args, Ok(()))
    } else {
        match pattern_typed(fuel, e, args[i]) {
            (e1, a, Err(err)) => (e1, args.update(i, a), Err(err)),
            (e1, a, Ok(t)) => match both_unified(fuel, e1, expected[i], t) {
                (e2, Err(err)) => (e2, args.update(i, a), Err(err)),
                (e2, Ok(_)) => subpatterns_typed(fuel, e2, args.update(i, a), expected, i + 1),
            },
        }
    }
}

/// Infers a pattern. A name in it is a binding, of an unknown type; a call of an enum variant is
/// a pattern of that variant; anything else is an expression.
pub open spec fn pattern_typed(fuel: nat, e: EnvV, x: ExprV) -> (EnvV, ExprV, Result<TypeId, ErrorV>)
    decreases fuel, 1int, 1int,
{
    if fuel == 0 {
        (e, x, Err(too_deep()))
    } else {
        let n = (fuel - 1) as nat;
        match x.kind {
            ExprKindV::Identifier { .. } => (with_unknown(e), ExprV { ty: next_id(e), ..x }, Ok(next_id(e))),
            ExprKindV::Call { callee, args } => match callee.kind {
                ExprKindV::Identifier { name } => match variant_info(e, name) {
                    Some(info) => if is_enum_template(e, info.enum_name) {
                        generic_pattern_typed(n, e, x, callee, args, info)
                    } else {
                        let e1 = with_known(e, TypeV::Named(info.enum_name));
                        match subpatterns_typed(n, e1, args, info.arg_types, 0) {
                            (e2, args, res) => {
                                let y = ExprV { kind: ExprKindV::Call { callee, args }, ty: next_id(e), ..x };
                                match res {
                                    Ok(_) => (e2, y, Ok(next_id(e))),
                                    Err(err) => (e2, y, Err(err)),
                                }
                            },
                        }
                    },
                    None => expr_typed(n, e, x),
                },
                _ => expr_typed(n, e, x),
            },
            _ => expr_typed(n, e, x),
        }
    }
}

/// Infers a pattern of a variant of a generic enum.
pub open spec fn generic_pattern_typed(fuel: nat, e: EnvV, x: ExprV, callee: Box<ExprV>, args: Seq<ExprV>, info: EnumVariantInfoV) -> (
    EnvV,
    ExprV,
    Result<TypeId, ErrorV>,
)
    decreases fuel, 3int, 0int,
{
    match applied(fuel, e, info.enum_name, Seq::empty(), Seq::empty()) {
        (e1, Err(err)) => (e1, x, Err(err)),
        (e1, Ok((params, id))) => match enum_template(e1, info.enum_name) {
            None => (e1, x, Err(missing_template(info.enum_name))),
            Some(d) => match variant_named(d.variants, info.variant_name, 0) {
                None => (e1, x, Err(unknown_variant(info.variant_name, d.name))),
                Some(v) => match variant_args_typed(
                    fuel,
                    e1,
                    v.args,
                    args,
                    ids_by_name(d.type_params, params),
                    true,
                    0,
                ) {
                    (e2, args, Err(err)) => (e2, ExprV { kind: ExprKindV::Call { callee, args }, ..x }, Err(err)),
                    (e2, args, Ok(_)) => (
                        e2,
                        ExprV { kind: ExprKindV::Call { callee, args }, ty: id, ..x },
                        Ok(id),
                    ),
                },
            },
        },
    }
}

} // verus!
