//! What type inference of expressions leaves as it was.
use crate::ast::{AssignmentOperator, BinaryOperator, ExprKindV, ExprV, FieldInitV, Span,
    UnaryOperator};
use crate::decl::{EnumVariant, FieldV, ParamV, TypeParamV};
use crate::engine::{next_id, template_params, with_known, with_unknown, EnvV, PendingInstanceV};
use crate::error::{ContextV, ErrorV};
use crate::expr_pratt::callee_text;
use crate::infer_spec::{all_typed, args_against, args_typed, array_typed, assign_typed,
    binary_result, binary_typed, branches_typed, call_typed, checked_as, condition_checked, conditional_typed,
    constructor_typed, defaults_bound, element_result, element_typed, elements_typed,
    enum_init_typed, enum_template, enum_with_variant, expr_inner_typed, expr_typed, field_access_typed,
    field_defaults, field_named, field_typed, fields_typed, finished, fresh_params,
    function_template, generic_call_typed, generic_constructor_typed, generic_pattern_typed,
    generic_struct_init_typed, identifier_typed, index_typed, instance_field, known_call_typed,
    made_one, members_typed, method_call_rewritten, method_or_function_call_typed, missing_field,
    pattern_typed, plain_call_typed, plain_struct_init_typed, plain_struct_name, range_result, range_typed, signature_ids,
    signature_of, struct_base, struct_fields_typed, struct_init_typed, struct_template,
    subpatterns_typed, supplied_args, template_with_variant, tuple_element, tuple_typed,
    two_unified, unary_result, unary_typed, unknown_call_typed, unknown_field, variant_args_typed,
    variant_info, variant_named, variant_reference, variant_value_typed, variant_with_arg,
    with_default_args};
use crate::kept_types::{group_grown, kept, lemma_annotated, lemma_annotated_all, lemma_applied,
    lemma_both_unified, lemma_missing_args, lemma_realized, refined};
use crate::monomorph::{all_known, annotated, annotated_all, applied, by_last_id, default_for, ids_by_name,
    is_data_template, is_enum_template, is_function_template, is_struct_template, missing_args};
use crate::store::{bound_in, known_in, rep_in, SlotV};
use crate::subst::last_of;
use crate::symbols::{all_enums, field_ids, get_in, qualified, some_default, var_in,
    EnumVariantInfoV};
use crate::types::{TypeId, TypeV};
use crate::unify::{both_unified, instance_at};
use vstd::prelude::*;

verus! {

pub proof fn lemma_variant_reference(
    fuel: nat,
    e: EnvV,
    x: ExprV,
    enum_name: Seq<char>,
    variant_name: Seq<char>,
)
    ensures
        kept(e, variant_reference(fuel, e, x, enum_name, variant_name).0),
{
    reveal(variant_reference);
    broadcast use group_grown;

    if is_enum_template(e, enum_name) {
        lemma_applied(fuel, e, enum_name, Seq::empty(), Seq::empty());
    }
}

pub proof fn lemma_identifier_typed(fuel: nat, e: EnvV, x: ExprV, name: Seq<char>)
    ensures
        kept(e, identifier_typed(fuel, e, x, name).0),
{
    reveal(identifier_typed);
    broadcast use group_grown;

    if let None = get_in(e.symbols.globals, name) {
        if let None = var_in(e.symbols.vars, name) {
            match get_in(e.symbols.enum_variants, name) {
                Some(info) => {
                    lemma_variant_reference(fuel, e, x, info.enum_name, info.variant_name);
                },
                None => {
                    match enum_with_variant(all_enums(e.symbols), name, 0) {
                        Some(n) => {
                            lemma_variant_reference(fuel, e, x, n, name);
                        },
                        None => {
                            if let Some(n) = template_with_variant(e.mono, name, 0) {
                                lemma_variant_reference(fuel, e, x, n, name);
                            }
                        },
                    }
                },
            }
        }
    }
}

pub proof fn lemma_args_typed(fuel: nat, e: EnvV, args: Seq<ExprV>, expected: Seq<TypeId>, i: int)
    ensures
        kept(e, args_typed(fuel, e, args, expected, i).0),
    decreases fuel, 2int, args.len() - i,
{
    broadcast use group_grown;

    if 0 <= i < args.len() && i < expected.len() {
        lemma_expr_typed(fuel, e, args[i]);
        if let (e1, a, Ok(t)) = expr_typed(fuel, e, args[i]) {
            lemma_both_unified(fuel, e1, t, expected[i]);
            if let (e2, Ok(_)) = both_unified(fuel, e1, t, expected[i]) {
                lemma_args_typed(fuel, e2, args.update(i, checked_as(a, expected[i])), expected, i + 1);
            }
        }
    }
}

pub proof fn lemma_all_typed(fuel: nat, e: EnvV, args: Seq<ExprV>, i: int)
    ensures
        kept(e, all_typed(fuel, e, args, i).0),
    decreases fuel, 2int, args.len() - i,
{
    broadcast use group_grown;

    if 0 <= i < args.len() {
        lemma_expr_typed(fuel, e, args[i]);
        if let (e1, a, Ok(_)) = expr_typed(fuel, e, args[i]) {
            lemma_all_typed(fuel, e1, args.update(i, a), i + 1);
        }
    }
}

pub proof fn lemma_args_against(fuel: nat, e: EnvV, args: Seq<ExprV>, ts: Seq<TypeV>, i: int)
    ensures
        kept(e, args_against(fuel, e, args, ts, i).0),
    decreases fuel, 2int, args.len() - i,
{
    broadcast use group_grown;

    if 0 <= i < args.len() && i < ts.len() {
        lemma_expr_typed(fuel, e, args[i]);
        if let (e1, a, Ok(t)) = expr_typed(fuel, e, args[i]) {
            lemma_both_unified(fuel, with_known(e1, ts[i]), t, next_id(e1));
            if let (e2, Ok(_)) = both_unified(fuel, with_known(e1, ts[i]), t, next_id(e1)) {
                lemma_args_against(fuel, e2, args.update(i, a), ts, i + 1);
            }
        }
    }
}

pub proof fn lemma_elements_typed(fuel: nat, e: EnvV, xs: Seq<ExprV>, first: TypeId, i: int)
    ensures
        kept(e, elements_typed(fuel, e, xs, first, i).0),
    decreases fuel, 2int, xs.len() - i,
{
    broadcast use group_grown;

    if 0 <= i < xs.len() {
        lemma_expr_typed(fuel, e, xs[i]);
        if let (e1, a, Ok(t)) = expr_typed(fuel, e, xs[i]) {
            lemma_both_unified(fuel, e1, first, t);
            if let (e2, Ok(_)) = both_unified(fuel, e1, first, t) {
                lemma_elements_typed(fuel, e2, xs.update(i, checked_as(a, first)), first, i + 1);
            }
        }
    }
}

pub proof fn lemma_members_typed(fuel: nat, e: EnvV, xs: Seq<ExprV>, i: int, ids: Seq<TypeId>)
    ensures
        kept(e, members_typed(fuel, e, xs, i, ids).0),
    decreases fuel, 2int, xs.len() - i,
{
    broadcast use group_grown;

    if 0 <= i < xs.len() {
        lemma_expr_typed(fuel, e, xs[i]);
        if let (e1, a, Ok(t)) = expr_typed(fuel, e, xs[i]) {
            lemma_members_typed(fuel, e1, xs.update(i, a), i + 1, ids.push(t));
        }
    }
}

pub proof fn lemma_constructor_typed(fuel: nat, e: EnvV, info: EnumVariantInfoV, args: Seq<ExprV>)
    ensures
        kept(e, constructor_typed(fuel, e, info, args).0),
    decreases fuel, 4int, 0int,
{
    broadcast use group_grown;

    if is_enum_template(e, info.enum_name) {
        lemma_generic_constructor_typed(fuel, e, info.enum_name, info.variant_name, args);
    } else {
        let full = match get_in(e.symbols.enums, info.enum_name) {
            Some(d) => with_default_args(info, d, args),
            None => Ok(args),
        };
        if let Ok(full) = full {
            if full.len() == info.arg_types.len() {
                let e1 = with_known(e, TypeV::Named(info.enum_name));
                lemma_args_typed(fuel, e1, full, info.arg_types, 0);
            }
        }
    }
}

pub proof fn lemma_variant_args_typed(
    fuel: nat,
    e: EnvV,
    fs: Seq<FieldV>,
    args: Seq<ExprV>,
    ids: Seq<(Seq<char>, TypeId)>,
    is_pattern: bool,
    i: int,
)
    ensures
        kept(e, variant_args_typed(fuel, e, fs, args, ids, is_pattern, i).0),
    decreases fuel, 2int, args.len() - i,
{
    broadcast use group_grown;

    if 0 <= i < args.len() && i < fs.len() {
        lemma_annotated(fuel, e, fs[i].annotation, ids);
        if let (e1, Ok(expected)) = annotated(fuel, e, fs[i].annotation, ids) {
            if is_pattern {
                lemma_pattern_typed(fuel, e1, args[i]);
                if let (e2, a, Ok(t)) = pattern_typed(fuel, e1, args[i]) {
                    lemma_both_unified(fuel, e2, expected, t);
                    if let (e3, Ok(_)) = both_unified(fuel, e2, expected, t) {
                        lemma_variant_args_typed(fuel, e3, fs, args.update(i, a), ids, is_pattern, i + 1);
                    }
                }
            } else {
                lemma_expr_typed(fuel, e1, args[i]);
                if let (e2, a, Ok(t)) = expr_typed(fuel, e1, args[i]) {
                    lemma_both_unified(fuel, e2, t, expected);
                    if let (e3, Ok(_)) = both_unified(fuel, e2, t, expected) {
                        lemma_variant_args_typed(
                            fuel,
                            e3,
                            fs,
                            args.update(i, checked_as(a, expected)),
                            ids,
                            is_pattern,
                            i + 1,
                        );
                    }
                }
            }
        }
    }
}

pub proof fn lemma_generic_constructor_typed(
    fuel: nat,
    e: EnvV,
    enum_name: Seq<char>,
    variant_name: Seq<char>,
    args: Seq<ExprV>,
)
    ensures
        kept(e, generic_constructor_typed(fuel, e, enum_name, variant_name, args).0),
    decreases fuel, 3int, 0int,
{
    broadcast use group_grown;

    lemma_applied(fuel, e, enum_name, Seq::empty(), Seq::empty());
    if let (e1, Ok((params, id))) = applied(fuel, e, enum_name, Seq::empty(), Seq::empty()) {
        if let Some(d) = enum_template(e1, enum_name) {
            if let Some(v) = variant_named(d.variants, variant_name, 0) {
                let info = EnumVariantInfoV {
                    enum_name,
                    variant_name,
                    arg_types: field_ids(v.args),
                    has_defaults: some_default(v.args),
                };
                if let Ok(full) = with_default_args(info, d, args) {
                    if full.len() == v.args.len() {
                        lemma_variant_args_typed(
                            fuel,
                            e1,
                            v.args,
                            full,
                            ids_by_name(d.type_params, params),
                            false,
                            0,
                        );
                    }
                }
            }
        }
    }
}

pub proof fn lemma_method_call_rewritten(fuel: nat, e: EnvV, callee: ExprV, args: Seq<ExprV>)
    ensures
        kept(e, method_call_rewritten(fuel, e, callee, args).0),
    decreases fuel, 2int, 0int,
{
    broadcast use group_grown;

    if let ExprKindV::FieldAccess { expr, field_name } = callee.kind {
        lemma_expr_typed(fuel, e, *expr);
    }
}

pub proof fn lemma_fresh_params(e: EnvV, ps: Seq<TypeParamV>, i: int, acc: Seq<(Seq<char>, TypeId)>)
    ensures
        kept(e, fresh_params(e, ps, i, acc).0),
    decreases ps.len() - i,
{
    broadcast use group_grown;

    if 0 <= i < ps.len() {
        lemma_fresh_params(with_unknown(e), ps, i + 1, acc.push((ps[i].name, next_id(e))));
    }
}

pub proof fn lemma_signature_ids(
    fuel: nat,
    e: EnvV,
    ps: Seq<ParamV>,
    ids: Seq<(Seq<char>, TypeId)>,
    i: int,
    acc: Seq<TypeId>,
)
    ensures
        kept(e, signature_ids(fuel, e, ps, ids, i, acc).0),
    decreases ps.len() - i,
{
    broadcast use group_grown;

    if 0 <= i < ps.len() {
        lemma_annotated(fuel, e, ps[i].annotation, ids);
        if let (e1, Ok(id)) = annotated(fuel, e, ps[i].annotation, ids) {
            lemma_signature_ids(fuel, e1, ps, ids, i + 1, acc.push(id));
        }
    }
}

pub proof fn lemma_defaults_bound(e: EnvV, ps: Seq<TypeParamV>, ids: Seq<(Seq<char>, TypeId)>, i: int)
    ensures
        kept(e, defaults_bound(e, ps, ids, i)),
    decreases ps.len() - i,
{
    broadcast use group_grown;

    if 0 <= i < ps.len() && i < ids.len() {
        let id = ids[i].1;
        let unknown = id.0 < e.store.slots.len() && e.store.slots[id.0 as int] == (SlotV {
            rep: id.0 as int,
            known: None,
        });
        let e1 = if unknown {
            match default_for(ps[i].constraints, e.mono.defaults, 0) {
                Some(t) => EnvV { store: bound_in(e.store, id, t), ..e },
                None => e,
            }
        } else {
            e
        };
        lemma_defaults_bound(e1, ps, ids, i + 1);
    }
}

pub proof fn lemma_generic_call_typed(fuel: nat, e: EnvV, name: Seq<char>, args: Seq<ExprV>)
    ensures
        kept(e, generic_call_typed(fuel, e, name, args).0),
    decreases fuel, 3int, 0int,
{
    broadcast use group_grown;

    if let Some(d) = function_template(e, name) {
        lemma_fresh_params(e, d.type_params, 0, Seq::empty());
        let (e1, fresh) = fresh_params(e, d.type_params, 0, Seq::empty());
        let ids = by_last_id(fresh);
        lemma_signature_ids(fuel, e1, d.params, ids, 0, Seq::empty());
        if let (e2, Ok(sig)) = signature_ids(fuel, e1, d.params, ids, 0, Seq::empty()) {
            if args.len() == sig.len() {
                lemma_args_typed(fuel, e2, args, sig, 0);
                if let (e3, args, Ok(_)) = args_typed(fuel, e2, args, sig, 0) {
                    lemma_defaults_bound(e3, d.type_params, ids, 0);
                    let e4 = defaults_bound(e3, d.type_params, ids, 0);
                    if let Some(_) = d.return_type {
                        lemma_annotated(fuel, e4, d.return_type, ids);
                    }
                }
            }
        }
    }
}

pub proof fn lemma_known_call_typed(
    fuel: nat,
    e: EnvV,
    name: Seq<char>,
    params: Seq<TypeId>,
    ret: TypeId,
    args: Seq<ExprV>,
)
    ensures
        kept(e, known_call_typed(fuel, e, name, params, ret, args).0),
    decreases fuel, 3int, 0int,
{
    broadcast use group_grown;

    if !(params.len() > 0 && args.len() != params.len()) {
        if params.len() == 0 {
            lemma_all_typed(fuel, e, args, 0);
        } else {
            lemma_args_typed(fuel, e, args, params, 0);
        }
    }
}

pub proof fn lemma_plain_call_typed(fuel: nat, e: EnvV, callee: ExprV, args: Seq<ExprV>)
    ensures
        kept(e, plain_call_typed(fuel, e, callee, args).0),
    decreases fuel, 4int, 0int,
{
    broadcast use group_grown;

    let name = callee_text(callee);
    if name is Some && e.symbols.functions.contains_key(name->0) {
        let (params, ret) = e.symbols.functions[name->0];
        lemma_known_call_typed(fuel, e, name->0, params, ret, args);
    } else {
        if name is Some && is_function_template(e, name->0) {
            lemma_generic_call_typed(fuel, e, name->0, args);
        } else {
            lemma_expr_typed(fuel, e, callee);
            match expr_typed(fuel, e, callee) {
                (e1, c, Ok(t)) => {
                    match known_in(e1.store, t) {
                        Some(ty) => {
                            if let Some((params, ret)) = signature_of(ty) {
                                if args.len() == params.len() {
                                    lemma_args_against(fuel, e1, args, params, 0);
                                }
                            }
                        },
                        None => {
                            lemma_unknown_call_typed(fuel, e1, c, args, false);
                        },
                    }
                },
                (e1, c, Err(err)) => {
                    if callee_text(c) is Some {
                        lemma_unknown_call_typed(fuel, e1, c, args, true);
                    }
                },
            }
        }
    }
}

pub proof fn lemma_unknown_call_typed(fuel: nat, e: EnvV, callee: ExprV, args: Seq<ExprV>, failed: bool)
    ensures
        kept(e, unknown_call_typed(fuel, e, callee, args, failed).0),
    decreases fuel, 3int, 0int,
{
    broadcast use group_grown;

    let name = callee_text(callee);
    if name is Some && !e.symbols.functions.contains_key(name->0) && !e.symbols.globals.contains_key(name->0) {
        lemma_all_typed(fuel, with_unknown(e), args, 0);
    }
}

pub proof fn lemma_fields_typed(
    fuel: nat,
    e: EnvV,
    def: Seq<FieldV>,
    fs: Seq<FieldInitV>,
    ids: Option<Seq<(Seq<char>, TypeId)>>,
    i: int,
)
    ensures
        kept(e, fields_typed(fuel, e, def, fs, ids, i).0),
    decreases fuel, 2int, fs.len() - i,
{
    broadcast use group_grown;

    if 0 <= i < fs.len() {
        if let Some(d) = field_named(def, fs[i].name, 0) {
            lemma_expr_typed(fuel, e, fs[i].value);
            if let (e1, v, Ok(t)) = expr_typed(fuel, e, fs[i].value) {
                if let Some(ids) = ids {
                    lemma_annotated(fuel, e1, d.annotation, ids);
                }
                let expected = match ids {
                    Some(ids) => annotated(fuel, e1, d.annotation, ids),
                    None => match d.annotation {
                        Some(ann) => (with_known(e1, ann), Ok(next_id(e1))),
                        None => (e1, Ok(t)),
                    },
                };
                if let (e2, Ok(want)) = expected {
                    lemma_both_unified(fuel, e2, t, want);
                    if let (e3, Ok(_)) = both_unified(fuel, e2, t, want) {
                        lemma_fields_typed(
                            fuel,
                            e3,
                            def,
                            fs.update(i, FieldInitV { value: checked_as(v, want), ..fs[i] }),
                            ids,
                            i + 1,
                        );
                    }
                }
            }
        }
    }
}

pub proof fn lemma_struct_fields_typed(
    fuel: nat,
    e: EnvV,
    def: Seq<FieldV>,
    fs: Seq<FieldInitV>,
    ids: Option<Seq<(Seq<char>, TypeId)>>,
    name: Seq<char>,
)
    ensures
        kept(e, struct_fields_typed(fuel, e, def, fs, ids, name).0),
    decreases fuel, 3int, 0int,
{
    broadcast use group_grown;

    if let None = unknown_field(def, fs, name, 0) {
        if let None = missing_field(def, fs, name, 0) {
            lemma_fields_typed(fuel, e, def, field_defaults(def, fs, 0, fs), ids, 0);
        }
    }
}

pub proof fn lemma_struct_init_typed(fuel: nat, e: EnvV, st: Option<TypeV>, fs: Seq<FieldInitV>)
    ensures
        kept(e, struct_init_typed(fuel, e, st, fs).0),
    decreases fuel, 5int, 0int,
{
    broadcast use group_grown;

    if let Some(t) = st {
        if struct_base(t) is Some && is_struct_template(e, struct_base(t)->0) {
            lemma_generic_struct_init_typed(fuel, e, struct_base(t)->0, supplied_args(t), fs);
        } else {
            if let Some(n) = plain_struct_name(t) {
                lemma_plain_struct_init_typed(fuel, with_known(e, t), n, next_id(e), fs);
            }
        }
    }
}

pub proof fn lemma_generic_struct_init_typed(
    fuel: nat,
    e: EnvV,
    base: Seq<char>,
    supplied: Seq<TypeV>,
    fs: Seq<FieldInitV>,
)
    ensures
        kept(e, generic_struct_init_typed(fuel, e, base, supplied, fs).0),
    decreases fuel, 4int, 0int,
{
    broadcast use group_grown;

    lemma_applied(fuel, e, base, supplied, Seq::empty());
    let a = applied(fuel, e, base, supplied, Seq::empty());
    if let Ok(inst) = a.1 {
        if let Some(d) = struct_template(a.0, base) {
            lemma_struct_fields_typed(
                fuel,
                a.0,
                d.fields,
                fs,
                Some(ids_by_name(d.type_params, inst.0)),
                d.name,
            );
        }
    }
}

pub proof fn lemma_plain_struct_init_typed(
    fuel: nat,
    e: EnvV,
    name: Seq<char>,
    id: TypeId,
    fs: Seq<FieldInitV>,
)
    ensures
        kept(e, plain_struct_init_typed(fuel, e, name, id, fs).0),
    decreases fuel, 4int, 0int,
{
    broadcast use group_grown;

    if let Some(d) = get_in(e.symbols.structs, name) {
        lemma_struct_fields_typed(fuel, e, d.fields, fs, None, d.name);
    }
}

pub proof fn lemma_instance_field(fuel: nat, e: EnvV, field: Seq<char>, inst: PendingInstanceV)
    ensures
        kept(e, instance_field(fuel, e, field, inst).0),
{
    reveal(instance_field);
    broadcast use group_grown;

    match struct_template(e, inst.base) {
        Some(d) => {
            if let Some(f) = field_named(d.fields, field, 0) {
                lemma_annotated(fuel, e, f.annotation, ids_by_name(d.type_params, inst.params));
            }
        },
        None => {
            if let Some(d) = enum_template(e, inst.base) {
                if let Some(v) = variant_with_arg(d.variants, field, 0) {
                    if let Some(f) = field_named(v.args, field, 0) {
                        lemma_annotated(fuel, e, f.annotation, ids_by_name(d.type_params, inst.params));
                    }
                }
            }
        },
    }
}

pub proof fn lemma_field_typed(fuel: nat, e: EnvV, container: TypeId, field: Seq<char>)
    ensures
        kept(e, field_typed(fuel, e, container, field).0),
{
    reveal(field_typed);
    broadcast use group_grown;

    let rep = rep_in(e.store, container);
    if let Some(inst) = instance_at(e.mono.instance_types, TypeId(rep as usize), 0) {
        lemma_instance_field(fuel, e, field, inst);
    }
}

pub proof fn lemma_enum_init_typed(
    fuel: nat,
    e: EnvV,
    enum_name: Seq<char>,
    variant_name: Seq<char>,
    args: Seq<ExprV>,
)
    ensures
        kept(e, enum_init_typed(fuel, e, enum_name, variant_name, args).0),
    decreases fuel, 4int, 0int,
{
    broadcast use group_grown;

    if is_enum_template(e, enum_name) {
        lemma_generic_constructor_typed(fuel, e, enum_name, variant_name, args);
    } else {
        if let Some(info) = get_in(e.symbols.enum_variants, crate::symbols::qualified(enum_name, variant_name)) {
            if let Some(d) = get_in(e.symbols.enums, enum_name) {
                if let Ok(full) = with_default_args(info, d, args) {
                    if full.len() == info.arg_types.len() {
                        lemma_args_typed(fuel, e, full, info.arg_types, 0);
                    }
                }
            }
        }
    }
}

pub proof fn lemma_tuple_element(e: EnvV, elems: Seq<TypeV>, index: ExprV)
    ensures
        kept(e, tuple_element(e, elems, index).0),
{
    broadcast use group_grown;

}

pub proof fn lemma_unary_result(e: EnvV, op: UnaryOperator, t: TypeId)
    ensures
        kept(e, unary_result(e, op, t).0),
{
    reveal(unary_result);
    broadcast use group_grown;

}

pub proof fn lemma_two_unified(fuel: nat, e: EnvV, a: TypeId, b: TypeId, c: TypeId, d: TypeId)
    ensures
        kept(e, two_unified(fuel, e, a, b, c, d).0),
{
    broadcast use group_grown;

    lemma_both_unified(fuel, e, a, b);
    if let (e1, Ok(_)) = both_unified(fuel, e, a, b) {
        lemma_both_unified(fuel, e1, c, d);
    }
}

pub proof fn lemma_binary_result(fuel: nat, e: EnvV, op: BinaryOperator, l: TypeId, r: TypeId)
    ensures
        kept(e, binary_result(fuel, e, op, l, r).0),
{
    reveal(binary_result);
    broadcast use group_grown;

    match op {
        BinaryOperator::And | BinaryOperator::Or => {
            let e1 = with_known(e, TypeV::Bool);
            lemma_two_unified(fuel, e1, l, next_id(e), r, next_id(e));
        },
        BinaryOperator::Eq | BinaryOperator::Ne | BinaryOperator::Lt | BinaryOperator::Gt | BinaryOperator::Le
        | BinaryOperator::Ge => {
            lemma_both_unified(fuel, e, l, r);
        },
        _ => {
            lemma_both_unified(fuel, e, l, r);
        },
    }
}

pub proof fn lemma_element_result(e: EnvV, t: TypeV)
    ensures
        kept(e, element_result(e, t).0),
{
    broadcast use group_grown;

}

pub proof fn lemma_expr_typed(fuel: nat, e: EnvV, x: ExprV)
    ensures
        kept(e, expr_typed(fuel, e, x).0),
    decreases fuel, 1int, 1int,
{
    lemma_expr_inner_typed(fuel, e, x);
}

pub proof fn lemma_expr_inner_typed(fuel: nat, e: EnvV, x: ExprV)
    ensures
        kept(e, expr_inner_typed(fuel, e, x).0),
    decreases fuel, 1int, 0int,
{
    broadcast use group_grown;

    if fuel != 0 {
        let n = (fuel - 1) as nat;
        match x.kind {
            ExprKindV::Identifier { name } => {
                lemma_identifier_typed(n, e, x, name);
            },
            ExprKindV::Call { callee, args } => {
                lemma_call_typed(n, e, callee, args, x.ty, x.span);
            },
            ExprKindV::UnaryOp { op, expr } => {
                lemma_unary_typed(n, e, op, *expr, x.ty, x.span);
            },
            ExprKindV::BinaryOp { op, left, right } => {
                lemma_binary_typed(n, e, op, *left, *right, x.ty, x.span);
            },
            ExprKindV::Assign { op, left, right } => {
                lemma_assign_typed(n, e, op, *left, *right, x.ty, x.span);
            },
            ExprKindV::If { cond, then_branch, else_branch } => {
                lemma_conditional_typed(n, e, *cond, *then_branch, *else_branch, x.ty, x.span);
            },
            ExprKindV::RangeLiteral { start, end } => {
                lemma_range_typed(n, e, *start, *end, x.ty, x.span);
            },
            ExprKindV::StructInit { struct_type, fields } => {
                lemma_struct_init_typed(n, e, struct_type, fields);
                let r = struct_init_typed(n, e, struct_type, fields);
                lemma_finished(r.0, ExprKindV::StructInit { struct_type, fields: r.1 }, x.ty, x.span, r.2);
            },
            ExprKindV::FieldAccess { expr, field_name } => {
                lemma_field_access_typed(n, e, *expr, field_name, x.ty, x.span);
            },
            ExprKindV::EnumVariant { enum_name, variant_name } => {
                lemma_variant_value_typed(n, e, enum_name, variant_name, x.ty, x.span);
            },
            ExprKindV::EnumInit { enum_name, variant_name, args } => {
                lemma_enum_init_typed(n, e, enum_name, variant_name, args);
                let r = enum_init_typed(n, e, enum_name, variant_name, args);
                lemma_finished(
                    r.0,
                    ExprKindV::EnumInit { enum_name, variant_name, args: r.1 },
                    x.ty,
                    x.span,
                    r.2,
                );
            },
            ExprKindV::ArrayLiteral { elements } => {
                lemma_array_typed(n, e, elements);
                let r = array_typed(n, e, elements);
                lemma_finished(r.0, ExprKindV::ArrayLiteral { elements: r.1 }, x.ty, x.span, r.2);
            },
            ExprKindV::TupleLit { elements } => {
                lemma_tuple_typed(n, e, elements);
                let r = tuple_typed(n, e, elements);
                lemma_finished(r.0, ExprKindV::TupleLit { elements: r.1 }, x.ty, x.span, r.2);
            },
            ExprKindV::Index { expr, index } => {
                lemma_element_typed(n, e, *expr, *index, x.ty, x.span);
            },
            _ => {},
        }
    }
}

pub proof fn lemma_finished(e: EnvV, kind: ExprKindV, ty: TypeId, span: Span, res: Result<TypeId, ErrorV>)
    ensures
        kept(e, finished(e, kind, ty, span, res).0),
{
    broadcast use group_grown;

}

pub proof fn lemma_variant_value_typed(
    fuel: nat,
    e: EnvV,
    enum_name: Seq<char>,
    variant_name: Seq<char>,
    ty: TypeId,
    span: Span,
)
    ensures
        kept(e, variant_value_typed(fuel, e, enum_name, variant_name, ty, span).0),
{
    reveal(variant_value_typed);
    broadcast use group_grown;

    let x = ExprV { kind: ExprKindV::EnumVariant { enum_name, variant_name }, ty, span };
    if is_enum_template(e, enum_name) || get_in(e.symbols.enum_variants, qualified(enum_name, variant_name)) is Some {
        lemma_variant_reference(fuel, e, x, enum_name, variant_name);
    }
}

pub proof fn lemma_call_typed(
    fuel: nat,
    e: EnvV,
    callee: Box<ExprV>,
    args: Seq<ExprV>,
    ty: TypeId,
    span: Span,
)
    ensures
        kept(e, call_typed(fuel, e, callee, args, ty, span).0),
    decreases fuel, 5int, 0int,
{
    broadcast use group_grown;

    if callee_text(*callee) is Some && variant_info(e, callee_text(*callee)->0) is Some {
        lemma_constructor_typed(fuel, e, variant_info(e, callee_text(*callee)->0)->0, args);
    } else {
        lemma_method_or_function_call_typed(fuel, e, *callee, args, ty, span);
    }
}

pub proof fn lemma_method_or_function_call_typed(
    fuel: nat,
    e: EnvV,
    callee: ExprV,
    args: Seq<ExprV>,
    ty: TypeId,
    span: Span,
)
    ensures
        kept(e, method_or_function_call_typed(fuel, e, callee, args, ty, span).0),
    decreases fuel, 4int, 1int,
{
    broadcast use group_grown;

    lemma_method_call_rewritten(fuel, e, callee, args);
    if let (e1, c, args, None) = method_call_rewritten(fuel, e, callee, args) {
        lemma_plain_call_typed(fuel, e1, c, args);
        let r = plain_call_typed(fuel, e1, c, args);
        lemma_finished(r.0, ExprKindV::Call { callee: Box::new(r.1), args: r.2 }, ty, span, r.3);
    }
}

pub proof fn lemma_unary_typed(fuel: nat, e: EnvV, op: UnaryOperator, x: ExprV, ty: TypeId, span: Span)
    ensures
        kept(e, unary_typed(fuel, e, op, x, ty, span).0),
    decreases fuel, 5int, 0int,
{
    broadcast use group_grown;

    lemma_expr_typed(fuel, e, x);
    match expr_typed(fuel, e, x) {
        (e1, y, Err(err)) => {
            lemma_finished(e1, ExprKindV::UnaryOp { op, expr: Box::new(y) }, ty, span, Err(err));
        },
        (e1, y, Ok(t)) => {
            lemma_unary_result(e1, op, t);
            let r = unary_result(e1, op, t);
            lemma_finished(r.0, ExprKindV::UnaryOp { op, expr: Box::new(y) }, ty, span, r.1);
        },
    }
}

pub proof fn lemma_binary_typed(
    fuel: nat,
    e: EnvV,
    op: BinaryOperator,
    left: ExprV,
    right: ExprV,
    ty: TypeId,
    span: Span,
)
    ensures
        kept(e, binary_typed(fuel, e, op, left, right, ty, span).0),
    decreases fuel, 5int, 0int,
{
    broadcast use group_grown;

    lemma_expr_typed(fuel, e, left);
    let a = expr_typed(fuel, e, left);
    let l = Box::new(a.1);
    match a.2 {
        Err(err) => {
            lemma_finished(
                a.0,
                ExprKindV::BinaryOp { op, left: l, right: Box::new(right) },
                ty,
                span,
                Err(err),
            );
        },
        Ok(lt) => {
            lemma_expr_typed(fuel, a.0, right);
            let b = expr_typed(fuel, a.0, right);
            let kind = ExprKindV::BinaryOp { op, left: l, right: Box::new(b.1) };
            match b.2 {
                Err(err) => {
                    lemma_finished(b.0, kind, ty, span, Err(err));
                },
                Ok(rt) => {
                    lemma_binary_result(fuel, b.0, op, lt, rt);
                    let r = binary_result(fuel, b.0, op, lt, rt);
                    lemma_finished(r.0, kind, ty, span, r.1);
                },
            }
        },
    }
}

pub proof fn lemma_made_one(fuel: nat, e: EnvV, a: TypeId, b: TypeId)
    ensures
        kept(e, made_one(fuel, e, a, b).0),
{
    broadcast use group_grown;

    lemma_both_unified(fuel, e, a, b);
}

pub proof fn lemma_assign_typed(
    fuel: nat,
    e: EnvV,
    op: AssignmentOperator,
    left: ExprV,
    right: ExprV,
    ty: TypeId,
    span: Span,
)
    ensures
        kept(e, assign_typed(fuel, e, op, left, right, ty, span).0),
    decreases fuel, 5int, 0int,
{
    broadcast use group_grown;

    lemma_expr_typed(fuel, e, right);
    let b = expr_typed(fuel, e, right);
    let r = Box::new(b.1);
    match b.2 {
        Err(err) => {
            lemma_finished(b.0, ExprKindV::Assign { op, left: Box::new(left), right: r }, ty, span, Err(err));
        },
        Ok(rt) => {
            lemma_expr_typed(fuel, b.0, left);
            let a = expr_typed(fuel, b.0, left);
            let kind = ExprKindV::Assign { op, left: Box::new(a.1), right: r };
            match a.2 {
                Err(err) => {
                    lemma_finished(a.0, kind, ty, span, Err(err));
                },
                Ok(lt) => {
                    lemma_made_one(fuel, a.0, lt, rt);
                    let u = made_one(fuel, a.0, lt, rt);
                    lemma_finished(u.0, kind, ty, span, u.1);
                },
            }
        },
    }
}

pub proof fn lemma_conditional_typed(
    fuel: nat,
    e: EnvV,
    cond: ExprV,
    then_branch: ExprV,
    else_branch: ExprV,
    ty: TypeId,
    span: Span,
)
    ensures
        kept(e, conditional_typed(fuel, e, cond, then_branch, else_branch, ty, span).0),
    decreases fuel, 5int, 0int,
{
    broadcast use group_grown;

    lemma_expr_typed(fuel, e, cond);
    let c = expr_typed(fuel, e, cond);
    lemma_condition_checked(fuel, c.0, c.2);
    let k = condition_checked(fuel, c.0, c.2);
    match k.1 {
        Err(err) => {
            lemma_finished(
                k.0,
                ExprKindV::If {
                    cond: Box::new(c.1),
                    then_branch: Box::new(then_branch),
                    else_branch: Box::new(else_branch),
                },
                ty,
                span,
                Err(err),
            );
        },
        Ok(_) => {
            lemma_branches_typed(fuel, k.0, c.1, then_branch, else_branch, ty, span);
        },
    }
}

pub proof fn lemma_branches_typed(
    fuel: nat,
    e: EnvV,
    cond: ExprV,
    then_branch: ExprV,
    else_branch: ExprV,
    ty: TypeId,
    span: Span,
)
    ensures
        kept(e, branches_typed(fuel, e, cond, then_branch, else_branch, ty, span).0),
    decreases fuel, 4int, 0int,
{
    broadcast use group_grown;

    lemma_expr_typed(fuel, e, then_branch);
    let a = expr_typed(fuel, e, then_branch);
    match a.2 {
        Err(err) => {
            lemma_finished(
                a.0,
                ExprKindV::If {
                    cond: Box::new(cond),
                    then_branch: Box::new(a.1),
                    else_branch: Box::new(else_branch),
                },
                ty,
                span,
                Err(err),
            );
        },
        Ok(at) => {
            lemma_expr_typed(fuel, a.0, else_branch);
            let b = expr_typed(fuel, a.0, else_branch);
            let kind = ExprKindV::If {
                cond: Box::new(cond),
                then_branch: Box::new(a.1),
                else_branch: Box::new(b.1),
            };
            match b.2 {
                Err(err) => {
                    lemma_finished(b.0, kind, ty, span, Err(err));
                },
                Ok(bt) => {
                    lemma_made_one(fuel, b.0, at, bt);
                    let u = made_one(fuel, b.0, at, bt);
                    lemma_finished(u.0, kind, ty, span, u.1);
                },
            }
        },
    }
}

pub proof fn lemma_range_typed(fuel: nat, e: EnvV, start: ExprV, end: ExprV, ty: TypeId, span: Span)
    ensures
        kept(e, range_typed(fuel, e, start, end, ty, span).0),
    decreases fuel, 5int, 0int,
{
    broadcast use group_grown;

    lemma_expr_typed(fuel, e, start);
    let a = expr_typed(fuel, e, start);
    if let Ok(at) = a.2 {
        lemma_expr_typed(fuel, a.0, end);
        let b = expr_typed(fuel, a.0, end);
        if let Ok(bt) = b.2 {
            lemma_range_result(fuel, b.0, at, bt);
        }
    }
}

pub proof fn lemma_range_result(fuel: nat, e: EnvV, a: TypeId, b: TypeId)
    ensures
        kept(e, range_result(fuel, e, a, b).0),
{
    reveal(range_result);
    broadcast use group_grown;

    lemma_two_unified(fuel, with_known(e, TypeV::Int), a, next_id(e), b, next_id(e));
}

pub proof fn lemma_field_access_typed(fuel: nat, e: EnvV, x: ExprV, field: Seq<char>, ty: TypeId, span: Span)
    ensures
        kept(e, field_access_typed(fuel, e, x, field, ty, span).0),
    decreases fuel, 5int, 0int,
{
    broadcast use group_grown;

    lemma_expr_typed(fuel, e, x);
    let a = expr_typed(fuel, e, x);
    let kind = ExprKindV::FieldAccess { expr: Box::new(a.1), field_name: field };
    match a.2 {
        Err(err) => {
            lemma_finished(a.0, kind, ty, span, Err(err));
        },
        Ok(t) => {
            lemma_field_typed(fuel, a.0, t, field);
            let r = field_typed(fuel, a.0, t, field);
            lemma_finished(r.0, kind, ty, span, r.1);
        },
    }
}

pub proof fn lemma_element_typed(fuel: nat, e: EnvV, x: ExprV, index: ExprV, ty: TypeId, span: Span)
    ensures
        kept(e, element_typed(fuel, e, x, index, ty, span).0),
    decreases fuel, 5int, 0int,
{
    broadcast use group_grown;

    lemma_expr_typed(fuel, e, x);
    let a = expr_typed(fuel, e, x);
    match a.2 {
        Err(err) => {
            lemma_finished(
                a.0,
                ExprKindV::Index { expr: Box::new(a.1), index: Box::new(index) },
                ty,
                span,
                Err(err),
            );
        },
        Ok(t) => {
            lemma_index_typed(fuel, a.0, t, index);
            let r = index_typed(fuel, a.0, t, index);
            lemma_finished(r.0, ExprKindV::Index { expr: Box::new(a.1), index: Box::new(r.1) }, ty, span, r.2);
        },
    }
}

pub proof fn lemma_condition_checked(fuel: nat, e: EnvV, res: Result<TypeId, ErrorV>)
    ensures
        kept(e, condition_checked(fuel, e, res).0),
{
    broadcast use group_grown;

    if let Ok(t) = res {
        lemma_both_unified(fuel, with_known(e, TypeV::Bool), t, next_id(e));
    }
}

pub proof fn lemma_array_typed(fuel: nat, e: EnvV, xs: Seq<ExprV>)
    ensures
        kept(e, array_typed(fuel, e, xs).0),
    decreases fuel, 3int, 0int,
{
    broadcast use group_grown;

    if xs.len() != 0 {
        lemma_expr_typed(fuel, e, xs[0]);
        if let (e1, a, Ok(first)) = expr_typed(fuel, e, xs[0]) {
            lemma_elements_typed(fuel, e1, xs.update(0, a), first, 1);
        }
    }
}

pub proof fn lemma_tuple_typed(fuel: nat, e: EnvV, xs: Seq<ExprV>)
    ensures
        kept(e, tuple_typed(fuel, e, xs).0),
    decreases fuel, 3int, 0int,
{
    broadcast use group_grown;

    if xs.len() != 0 {
        lemma_members_typed(fuel, e, xs, 0, Seq::empty());
    }
}

pub proof fn lemma_index_typed(fuel: nat, e: EnvV, container: TypeId, index: ExprV)
    ensures
        kept(e, index_typed(fuel, e, container, index).0),
    decreases fuel, 3int, 0int,
{
    broadcast use group_grown;

    match known_in(e.store, container) {
        Some(TypeV::Tuple(elems)) => {
            lemma_tuple_element(e, elems, index);
        },
        Some(t) => {
            lemma_expr_typed(fuel, e, index);
            if let (e1, i, Ok(it)) = expr_typed(fuel, e, index) {
                lemma_both_unified(fuel, with_known(e1, TypeV::Int), it, next_id(e1));
                if let (e2, Ok(_)) = both_unified(fuel, with_known(e1, TypeV::Int), it, next_id(e1)) {
                    lemma_element_result(e2, t);
                }
            }
        },
        _ => {},
    }
}

pub proof fn lemma_subpatterns_typed(fuel: nat, e: EnvV, args: Seq<ExprV>, expected: Seq<TypeId>, i: int)
    ensures
        kept(e, subpatterns_typed(fuel, e, args, expected, i).0),
    decreases fuel, 2int, args.len() - i,
{
    broadcast use group_grown;

    if 0 <= i < args.len() && i < expected.len() {
        lemma_pattern_typed(fuel, e, args[i]);
        if let (e1, a, Ok(t)) = pattern_typed(fuel, e, args[i]) {
            lemma_both_unified(fuel, e1, expected[i], t);
            if let (e2, Ok(_)) = both_unified(fuel, e1, expected[i], t) {
                lemma_subpatterns_typed(fuel, e2, args.update(i, a), expected, i + 1);
            }
        }
    }
}

pub proof fn lemma_pattern_typed(fuel: nat, e: EnvV, x: ExprV)
    ensures
        kept(e, pattern_typed(fuel, e, x).0),
    decreases fuel, 1int, 1int,
{
    broadcast use group_grown;

    if fuel != 0 {
        let n = (fuel - 1) as nat;
        match x.kind {
            ExprKindV::Call { callee, args } => {
                match callee.kind {
                    ExprKindV::Identifier { name } => {
                        match variant_info(e, name) {
                            Some(info) => {
                                if is_enum_template(e, info.enum_name) {
                                    lemma_generic_pattern_typed(n, e, x, callee, args, info);
                                } else {
                                    let e1 = with_known(e, TypeV::Named(info.enum_name));
                                    lemma_subpatterns_typed(n, e1, args, info.arg_types, 0);
                                }
                            },
                            None => {
                                lemma_expr_typed(n, e, x);
                            },
                        }
                    },
                    _ => {
                        lemma_expr_typed(n, e, x);
                    },
                }
            },
            _ => {
                lemma_expr_typed(n, e, x);
            },
        }
    }
}

pub proof fn lemma_generic_pattern_typed(
    fuel: nat,
    e: EnvV,
    x: ExprV,
    callee: Box<ExprV>,
    args: Seq<ExprV>,
    info: EnumVariantInfoV,
)
    ensures
        kept(e, generic_pattern_typed(fuel, e, x, callee, args, info).0),
    decreases fuel, 3int, 0int,
{
    broadcast use group_grown;

    lemma_applied(fuel, e, info.enum_name, Seq::empty(), Seq::empty());
    if let (e1, Ok((params, id))) = applied(fuel, e, info.enum_name, Seq::empty(), Seq::empty()) {
        if let Some(d) = enum_template(e1, info.enum_name) {
            if let Some(v) = variant_named(d.variants, info.variant_name, 0) {
                lemma_variant_args_typed(fuel, e1, v.args, args, ids_by_name(d.type_params, params), true, 0);
            }
        }
    }
}

/// Every call of a generic function has a type index of its own, which nothing had before, and is
/// recorded under it: so it is told apart from every earlier call.
pub proof fn law_generic_call_has_its_own_type(fuel: nat, e: EnvV, name: Seq<char>, args: Seq<ExprV>)
    requires
        generic_call_typed(fuel, e, name, args).0.store.slots.len() <= usize::MAX,
    ensures
        generic_call_typed(fuel, e, name, args).2 matches Ok(id) ==> {
            let after = generic_call_typed(fuel, e, name, args).0;
            &&& e.store.slots.len() <= id.0 < after.store.slots.len()
            &&& after.mono.pending.last().base == name
            &&& after.mono.pending.last().call_return == Some(id)
        },
{
    broadcast use group_grown;

    reveal(refined);
    if let Some(d) = function_template(e, name) {
        let (e1, fresh) = fresh_params(e, d.type_params, 0, Seq::empty());
        let ids = by_last_id(fresh);
        lemma_fresh_params(e, d.type_params, 0, Seq::empty());
        lemma_signature_ids(fuel, e1, d.params, ids, 0, Seq::empty());
        if let (e2, Ok(sig)) = signature_ids(fuel, e1, d.params, ids, 0, Seq::empty()) {
            lemma_args_typed(fuel, e2, args, sig, 0);
            let a = args_typed(fuel, e2, args, sig, 0);
            let e4 = defaults_bound(a.0, d.type_params, ids, 0);
            lemma_defaults_bound(a.0, d.type_params, ids, 0);
            if generic_call_typed(fuel, e, name, args).2 is Ok && d.return_type is Some {
                lemma_annotated(fuel, e4, d.return_type, ids);
                let (from, to) = (e.store.slots.len(), e1.store.slots.len());
                lemma_params_are_fresh(e, d.type_params, 0, Seq::empty(), from, to);
                assert forall|k: int| 0 <= k < ids.len() implies from <= (#[trigger] ids[k]).1.0 < to by {
                    assert(from <= fresh[k].1.0 < to);
                    lemma_last_between(fresh, fresh[k].0, from, to);
                }
                lemma_annotation_is_fresh(fuel, e4, d.return_type, ids, from, to);
            }
        }
    }
}

spec fn ids_between(ids: Seq<(Seq<char>, TypeId)>, from: nat, to: nat) -> bool {
    forall|k: int| 0 <= k < ids.len() ==> from <= (#[trigger] ids[k]).1.0 < to
}

proof fn lemma_params_are_fresh(
    e: EnvV,
    ps: Seq<TypeParamV>,
    i: int,
    acc: Seq<(Seq<char>, TypeId)>,
    from: nat,
    to: nat,
)
    requires
        fresh_params(e, ps, i, acc).0.store.slots.len() <= to <= usize::MAX,
        from <= e.store.slots.len(),
        ids_between(acc, from, to),
    ensures
        ids_between(fresh_params(e, ps, i, acc).1, from, to),
    decreases ps.len() - i,
{
    if 0 <= i < ps.len() {
        let more = acc.push((ps[i].name, next_id(e)));
        lemma_fresh_params(with_unknown(e), ps, i + 1, more);
        reveal(refined);
        assert(with_unknown(e).store.slots.len() == e.store.slots.len() + 1);
        assert(ids_between(more, from, to)) by {
            assert forall|k: int| 0 <= k < more.len() implies from <= (#[trigger] more[k]).1.0 < to by {
                if k < acc.len() {
                    assert(more[k] == acc[k]);
                }
            }
        }
        lemma_params_are_fresh(with_unknown(e), ps, i + 1, more, from, to);
    }
}

proof fn lemma_last_between(ids: Seq<(Seq<char>, TypeId)>, name: Seq<char>, from: nat, to: nat)
    requires
        ids_between(ids, from, to),
    ensures
        last_of(ids, name) matches Some(id) ==> from <= id.0 < to,
    decreases ids.len(),
{
    if ids.len() > 0 {
        assert(ids.last() == ids[ids.len() - 1]);
        assert(ids_between(ids.drop_last(), from, to));
        lemma_last_between(ids.drop_last(), name, from, to);
    }
}

proof fn lemma_annotation_is_fresh(
    fuel: nat,
    e: EnvV,
    ann: Option<TypeV>,
    ps: Seq<(Seq<char>, TypeId)>,
    from: nat,
    to: nat,
)
    requires
        annotated(fuel, e, ann, ps).0.store.slots.len() <= usize::MAX,
        from <= to <= e.store.slots.len(),
    ensures
        ids_between(ps, from, to) ==> (annotated(fuel, e, ann, ps).1 matches Ok(id) ==> from <= id.0 < annotated(
            fuel,
            e,
            ann,
            ps,
        ).0.store.slots.len()),
{
    if ids_between(ps, from, to) {
        match ann {
            Some(TypeV::TypeParam(name)) => {
                lemma_last_between(ps, name, from, to);
            },
            Some(TypeV::Instance { base, args }) => {
                if fuel > 0 {
                    lemma_application_is_fresh((fuel - 1) as nat, e, base, args, ps);
                }
            },
            Some(TypeV::Named(n)) => {
                if fuel > 0 && is_data_template(e, n) {
                    lemma_application_is_fresh((fuel - 1) as nat, e, n, Seq::empty(), ps);
                }
            },
            _ => {},
        }
    }
}

proof fn lemma_application_is_fresh(
    fuel: nat,
    e: EnvV,
    base: Seq<char>,
    supplied: Seq<TypeV>,
    ps: Seq<(Seq<char>, TypeId)>,
)
    requires
        applied(fuel, e, base, supplied, ps).0.store.slots.len() <= usize::MAX,
    ensures
        applied(fuel, e, base, supplied, ps).1 matches Ok(r) ==> e.store.slots.len() <= r.1.0 < applied(
            fuel,
            e,
            base,
            supplied,
            ps,
        ).0.store.slots.len(),
{
    reveal(refined);
    if e.mono.templates.contains_key(base) {
        let declared = template_params(e.mono.templates[base].1);
        lemma_annotated_all(fuel, e, supplied, ps, 0, Seq::empty());
        if let (e1, Ok(some)) = annotated_all(fuel, e, supplied, ps, 0, Seq::empty()) {
            lemma_missing_args(fuel, e1, declared, ps, supplied.len() as int, some);
            if let (e2, Ok(ids)) = missing_args(fuel, e1, declared, ps, supplied.len() as int, some) {
                if let Some(args) = all_known(e2.store, ids, 0, Seq::empty()) {
                    if fuel > 0 {
                        lemma_realized((fuel - 1) as nat, e2, base, args);
                    }
                }
            }
        }
    }
}

/// Type inference of an expression leaves the scopes, the globals and the generic definitions as
/// they were, whether it succeeds or not.
pub proof fn law_expression_keeps_scopes(fuel: nat, e: EnvV, x: ExprV)
    ensures
        kept(e, expr_typed(fuel, e, x).0),
{
    lemma_expr_typed(fuel, e, x);
}

/// So does type inference of a pattern, before its variables are bound.
pub proof fn law_pattern_keeps_scopes(fuel: nat, e: EnvV, x: ExprV)
    ensures
        kept(e, pattern_typed(fuel, e, x).0),
{
    lemma_pattern_typed(fuel, e, x);
}

/// Where the source is known, an error in an expression has the place of the expression.
pub proof fn law_expression_errors_have_a_place(fuel: nat, e: EnvV, x: ExprV)
    requires
        e.source.len() > 0,
    ensures
        expr_typed(fuel, e, x).2 matches Err(err) ==> {
            &&& err matches ErrorV::Located { context, .. }
            &&& context == ContextV { file: e.file, source: e.source, span: x.span }
        },
{
    lemma_expr_typed(fuel, e, x);
}

} // verus!
