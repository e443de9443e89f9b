//! Parts of type inference that look things up and combine known types.
use crate::ast::{copy_expr, copy_exprs, copy_inits, expr_kind_in, exprs_v, init_v, inits_v, lemma_expr_parts, lemma_expr_v,
    make_expr, BinaryOperator, Expr, ExprKind, ExprKindV, ExprV, FieldInit, FieldInitV, Literal, Span,
    UnaryOperator};
use crate::decl::{copy_enum_definition, copy_function, copy_struct_definition, enum_variants_v, field_list_v,
    params_v, type_params_v, EnumDefinition, EnumVariant, Field, Function, Param, StructDefinition,
    TypeParam};
use crate::engine::{next_id, shapes_v, with_known, EnvV, PendingInstance, TemplateDef, TypeInferencer};
use crate::error::{CompilationError, ErrorV};
use crate::escape::opt_text;
use crate::ffi::name_ids;
use crate::infer_spec::{alias_end, binary_result, checked_as, condition_checked, defaults_bound, defaults_from,
    enum_template, enum_with_variant, field_defaults, field_named, field_typed, fields_of_type, fresh_params,
    function_template, gives_field, has_shape, id_of_field, identifier_typed, ids_only, instance_field,
    literal_type, made_one, members_resolved, missing_field, missing_template, nested_recorded, or_type,
    range_result, shape_recorded, signature_ids, signature_of, struct_template, template_with_variant,
    two_unified, unary_result, unknown_enum_variant, unknown_field, unknown_variant, unresolved,
    variant_info, variant_named, variant_reference, variant_value_typed, variant_with_arg, with_default_args,
    wrong_call_args, wrong_variant_args};
use crate::monomorph::{default_for_constraints, id_result, param_id_map, type_error, unit_result};
use crate::symbols::{all_enums, field_ids, some_default, EnumVariantInfo};
use crate::text;
use crate::types::{c_names, copy_type, copy_types, fields_v, lemma_type_v, tuple_c_name, tuple_name, type_v,
    types_v, Type, TypeId, TypeV};
use vstd::prelude::*;

verus! {

/// Whether an expression, its type and the engine after inference are those of the model.
pub open spec fn typed_as(env: EnvV, r: (Expr, Result<TypeId, CompilationError>), m: (EnvV, ExprV, Result<TypeId, ErrorV>)) -> bool {
    env == m.0 && r.0@ == m.1 && id_result(r.1) == m.2
}

/// Whether a list of expressions and the engine after inference are those of the model.
pub open spec fn list_typed_as(env: EnvV, r: (Vec<Expr>, Result<(), CompilationError>), m: (EnvV, Seq<ExprV>, Result<(), ErrorV>)) -> bool {
    env == m.0 && exprs_v(r.0@) == m.1 && unit_result(r.1) == m.2
}

/// Whether a list of expressions, a type and the engine after inference are those of the model.
pub open spec fn call_typed_as(env: EnvV, r: (Vec<Expr>, Result<TypeId, CompilationError>), m: (EnvV, Seq<ExprV>, Result<TypeId, ErrorV>)) -> bool {
    env == m.0 && exprs_v(r.0@) == m.1 && id_result(r.1) == m.2
}

/// Whether a list of field values, a type and the engine after inference are those of the model.
pub open spec fn inits_typed_as(
    env: EnvV,
    r: (Vec<FieldInit>, Result<TypeId, CompilationError>),
    m: (EnvV, Seq<FieldInitV>, Result<TypeId, ErrorV>),
) -> bool {
    env == m.0 && inits_v(r.0@) == m.1 && id_result(r.1) == m.2
}

/// The contents of an optional list of expressions.
pub open spec fn opt_exprs_v(x: Option<Vec<Expr>>) -> Option<Seq<ExprV>> {
    match x {
        Some(v) => Some(exprs_v(v@)),
        None => None,
    }
}

pub(crate) fn none_ids() -> (r: Vec<(String, TypeId)>)
    ensures
        fields_v(r@) == Seq::<(Seq<char>, TypeId)>::empty(),
{
    let v: Vec<(String, TypeId)> = Vec::new();
    proof {
        assert(fields_v(v@) =~= Seq::<(Seq<char>, TypeId)>::empty());
    }
    v
}

pub(crate) fn none_types() -> (r: Vec<Type>)
    ensures
        types_v(r@) == Seq::<TypeV>::empty(),
{
    let v: Vec<Type> = Vec::new();
    proof {
        assert(types_v(v@) =~= Seq::<TypeV>::empty());
    }
    v
}

/// Gives an expression the type that it was checked against; a call keeps its own.
pub(crate) fn check_as(x: Expr, ty: TypeId) -> (r: Expr)
    ensures
        r@ == checked_as(x@, ty),
{
    proof {
        lemma_expr_parts(x);
    }
    match x.kind {
        ExprKind::Call { .. } => x,
        _ => retyped(x, ty),
    }
}

pub(crate) fn retyped(x: Expr, ty: TypeId) -> (r: Expr)
    ensures
        r@ == (ExprV { ty, ..x@ }),
{
    broadcast use lemma_expr_v;

    Expr { kind: x.kind, ty, span: x.span }
}

pub(crate) fn set_expr(xs: &mut Vec<Expr>, i: usize, x: Expr)
    requires
        i < old(xs)@.len(),
    ensures
        exprs_v(final(xs)@) == exprs_v(old(xs)@).update(i as int, x@),
        final(xs)@.len() == old(xs)@.len(),
{
    let ghost before = xs@;
    let ghost v = x@;
    xs.set(i, x);
    proof {
        assert(exprs_v(xs@) =~= exprs_v(before).update(i as int, v));
    }
}

pub(crate) fn set_init(xs: &mut Vec<FieldInit>, i: usize, x: Expr)
    requires
        i < old(xs)@.len(),
    ensures
        inits_v(final(xs)@) == inits_v(old(xs)@).update(
            i as int,
            FieldInitV { value: x@, ..inits_v(old(xs)@)[i as int] },
        ),
        final(xs)@.len() == old(xs)@.len(),
{
    let ghost before = xs@;
    let ghost v = x@;
    let name = xs[i].name.clone();
    xs.set(i, FieldInit { name, value: x });
    proof {
        assert(inits_v(xs@) =~= inits_v(before).update(
            i as int,
            FieldInitV { value: v, ..inits_v(before)[i as int] },
        ));
    }
}

/// The first variant of the given name.
pub fn find_variant<'a>(vs: &'a Vec<EnumVariant>, name: &str) -> (r: Option<&'a EnumVariant>)
    ensures
        match r {
            Some(v) => variant_named(enum_variants_v(vs@), name@, 0) == Some(v@),
            None => variant_named(enum_variants_v(vs@), name@, 0) is None,
        },
{
    let mut i: usize = 0;
    while i < vs.len()
        invariant
            i <= vs@.len(),
            variant_named(enum_variants_v(vs@), name@, 0) == variant_named(enum_variants_v(vs@), name@, i as int),
        decreases vs@.len() - i,
    {
        assert(enum_variants_v(vs@)[i as int] == vs@[i as int]@);
        if text::text_eq(vs[i].name.as_str(), name) {
            return Some(&vs[i]);
        }
        i = i + 1;
    }
    None
}

/// The variant of the given name of an enum; an error where there is none.
pub fn enum_variant<'a>(def: &'a EnumDefinition, name: &str) -> (r: Result<&'a EnumVariant, CompilationError>)
    ensures
        match r {
            Ok(v) => variant_named(def@.variants, name@, 0) == Some(v@),
            Err(e) => variant_named(def@.variants, name@, 0) is None && e@ == unknown_variant(name@, def@.name),
        },
{
    match find_variant(&def.variants, name) {
        Some(v) => Ok(v),
        None => Err(
            type_error(
                "Unknown variant '".to_owned().concat(name).concat("' in enum '").concat(def.name.as_str()).concat(
                    "'",
                ),
            ),
        ),
    }
}

pub(crate) fn find_field<'a>(fs: &'a Vec<Field>, name: &str) -> (r: Option<&'a Field>)
    ensures
        match r {
            Some(f) => field_named(field_list_v(fs@), name@, 0) == Some(f@),
            None => field_named(field_list_v(fs@), name@, 0) is None,
        },
{
    let mut i: usize = 0;
    while i < fs.len()
        invariant
            i <= fs@.len(),
            field_named(field_list_v(fs@), name@, 0) == field_named(field_list_v(fs@), name@, i as int),
        decreases fs@.len() - i,
    {
        assert(field_list_v(fs@)[i as int] == fs@[i as int]@);
        if text::text_eq(fs[i].name.as_str(), name) {
            return Some(&fs[i]);
        }
        i = i + 1;
    }
    None
}

pub(crate) fn find_variant_with_arg<'a>(vs: &'a Vec<EnumVariant>, name: &str) -> (r: Option<&'a EnumVariant>)
    ensures
        match r {
            Some(v) => variant_with_arg(enum_variants_v(vs@), name@, 0) == Some(v@),
            None => variant_with_arg(enum_variants_v(vs@), name@, 0) is None,
        },
{
    let mut i: usize = 0;
    while i < vs.len()
        invariant
            i <= vs@.len(),
            variant_with_arg(enum_variants_v(vs@), name@, 0) == variant_with_arg(
                enum_variants_v(vs@),
                name@,
                i as int,
            ),
        decreases vs@.len() - i,
    {
        assert(enum_variants_v(vs@)[i as int] == vs@[i as int]@);
        if find_field(&vs[i].args, name).is_some() {
            return Some(&vs[i]);
        }
        i = i + 1;
    }
    None
}

pub(crate) fn types_of_fields(fs: &Vec<Field>) -> (r: Vec<TypeId>)
    ensures
        r@ == field_ids(field_list_v(fs@)),
{
    let mut out: Vec<TypeId> = Vec::new();
    let mut i: usize = 0;
    while i < fs.len()
        invariant
            i <= fs@.len(),
            out@ =~= field_ids(field_list_v(fs@)).take(i as int),
        decreases fs@.len() - i,
    {
        assert(field_list_v(fs@)[i as int] == fs@[i as int]@);
        out.push(fs[i].ty);
        i = i + 1;
    }
    out
}

pub(crate) fn any_default(fs: &Vec<Field>) -> (r: bool)
    ensures
        r == some_default(field_list_v(fs@)),
{
    let mut i: usize = 0;
    while i < fs.len()
        invariant
            i <= fs@.len(),
            forall|j: int| 0 <= j < i ==> (#[trigger] field_list_v(fs@)[j]).default is None,
        decreases fs@.len() - i,
    {
        assert(field_list_v(fs@)[i as int] == fs@[i as int]@);
        if fs[i].default.is_some() {
            return true;
        }
        i = i + 1;
    }
    false
}

pub(crate) fn pairs_of_fields(fs: &Vec<Field>) -> (r: Vec<(String, TypeId)>)
    ensures
        fields_v(r@) == name_ids(field_list_v(fs@)),
{
    let mut out: Vec<(String, TypeId)> = Vec::new();
    let ghost all = name_ids(field_list_v(fs@));
    let mut i: usize = 0;
    while i < fs.len()
        invariant
            i <= fs@.len(),
            all == name_ids(field_list_v(fs@)),
            fields_v(out@) =~= all.take(i as int),
        decreases fs@.len() - i,
    {
        let n = fs[i].name.clone();
        let id = fs[i].ty;
        proof {
            assert(field_list_v(fs@)[i as int] == fs@[i as int]@);
            assert(all.take(i + 1) =~= all.take(i as int).push((n@, id)));
            assert(fields_v(out@.push((n, id))) =~= fields_v(out@).push((n@, id)));
        }
        out.push((n, id));
        i = i + 1;
    }
    proof {
        assert(all.take(all.len() as int) =~= all);
    }
    out
}

pub(crate) fn find_pair(fs: &Vec<(String, TypeId)>, name: &str) -> (r: Option<TypeId>)
    ensures
        r == id_of_field(fields_v(fs@), name@, 0),
{
    let mut i: usize = 0;
    while i < fs.len()
        invariant
            i <= fs@.len(),
            id_of_field(fields_v(fs@), name@, 0) == id_of_field(fields_v(fs@), name@, i as int),
        decreases fs@.len() - i,
    {
        assert(fields_v(fs@)[i as int] == (fs@[i as int].0@, fs@[i as int].1));
        if text::text_eq(fs[i].0.as_str(), name) {
            return Some(fs[i].1);
        }
        i = i + 1;
    }
    None
}

pub(crate) fn gives(fs: &Vec<FieldInit>, name: &str) -> (r: bool)
    ensures
        r == gives_field(inits_v(fs@), name@),
{
    let mut i: usize = 0;
    while i < fs.len()
        invariant
            i <= fs@.len(),
            forall|j: int| 0 <= j < i ==> (#[trigger] inits_v(fs@)[j]).name != name@,
        decreases fs@.len() - i,
    {
        assert(inits_v(fs@)[i as int] == init_v(fs@[i as int]));
        if text::text_eq(fs[i].name.as_str(), name) {
            return true;
        }
        i = i + 1;
    }
    false
}

/// Checks the fields of a struct value, and adds the defaults.
pub(crate) fn complete_fields(def: &Vec<Field>, fs: &Vec<FieldInit>, name: &str) -> (r: Result<Vec<FieldInit>, CompilationError>)
    ensures
        match r {
            Err(e) => unknown_field(field_list_v(def@), inits_v(fs@), name@, 0) == Some(e@) || (unknown_field(
                field_list_v(def@),
                inits_v(fs@),
                name@,
                0,
            ) is None && missing_field(field_list_v(def@), inits_v(fs@), name@, 0) == Some(e@)),
            Ok(v) => unknown_field(field_list_v(def@), inits_v(fs@), name@, 0) is None && missing_field(
                field_list_v(def@),
                inits_v(fs@),
                name@,
                0,
            ) is None && inits_v(v@) == field_defaults(field_list_v(def@), inits_v(fs@), 0, inits_v(fs@)),
        },
{
    let ghost dv = field_list_v(def@);
    let ghost fv = inits_v(fs@);
    let mut i: usize = 0;
    while i < fs.len()
        invariant
            i <= fs@.len(),
            dv == field_list_v(def@),
            fv == inits_v(fs@),
            unknown_field(dv, fv, name@, 0) == unknown_field(dv, fv, name@, i as int),
        decreases fs@.len() - i,
    {
        assert(fv[i as int] == init_v(fs@[i as int]));
        if find_field(def, fs[i].name.as_str()).is_none() {
            return Err(
                type_error(
                    "Struct '".to_owned().concat(name).concat("' has no field '").concat(fs[i].name.as_str()).concat(
                        "'",
                    ),
                ),
            );
        }
        i = i + 1;
    }
    let mut i: usize = 0;
    while i < def.len()
        invariant
            i <= def@.len(),
            dv == field_list_v(def@),
            fv == inits_v(fs@),
            unknown_field(dv, fv, name@, 0) is None,
            missing_field(dv, fv, name@, 0) == missing_field(dv, fv, name@, i as int),
        decreases def@.len() - i,
    {
        assert(dv[i as int] == def@[i as int]@);
        if !gives(fs, def[i].name.as_str()) && def[i].default.is_none() {
            return Err(
                type_error(
                    "Struct '".to_owned().concat(name).concat("' field '").concat(def[i].name.as_str()).concat(
                        "' has no default value and was not provided in initialization",
                    ),
                ),
            );
        }
        i = i + 1;
    }
    let mut out = copy_inits(fs);
    let mut i: usize = 0;
    while i < def.len()
        invariant
            i <= def@.len(),
            dv == field_list_v(def@),
            fv == inits_v(fs@),
            unknown_field(dv, fv, name@, 0) is None,
            missing_field(dv, fv, name@, 0) is None,
            field_defaults(dv, fv, 0, fv) == field_defaults(dv, fv, i as int, inits_v(out@)),
        decreases def@.len() - i,
    {
        assert(dv[i as int] == def@[i as int]@);
        if !gives(fs, def[i].name.as_str()) {
            match &def[i].default {
                Some(x) => {
                    let f = FieldInit { name: def[i].name.clone(), value: copy_expr(x) };
                    proof {
                        assert(inits_v(out@.push(f)) =~= inits_v(out@).push(init_v(f)));
                    }
                    out.push(f);
                },
                None => {},
            }
        }
        i = i + 1;
    }
    Ok(out)
}

/// Adds the default values of missing arguments of an enum constructor.
pub fn resolve_default_args(info: &EnumVariantInfo, def: &EnumDefinition, args: &Vec<Expr>) -> (r: Result<
    Vec<Expr>,
    CompilationError,
>)
    ensures
        match r {
            Ok(v) => with_default_args(info@, def@, exprs_v(args@)) == Ok::<Seq<ExprV>, ErrorV>(exprs_v(v@)),
            Err(e) => with_default_args(info@, def@, exprs_v(args@)) == Err::<Seq<ExprV>, ErrorV>(e@),
        },
{
    proof {
        reveal(with_default_args);
    }
    let mut out = copy_exprs(args);
    proof {
        assert(exprs_v(args@).len() == args@.len());
        assert(exprs_v(out@).len() == out@.len());
    }
    if args.len() < info.arg_types.len() {
        let v = match find_variant(&def.variants, info.variant_name.as_str()) {
            Some(v) => v,
            None => {
                return Err(
                    type_error(
                        "Variant '".to_owned().concat(info.variant_name.as_str()).concat("' not found in enum '").concat(
                            info.enum_name.as_str(),
                        ).concat("'"),
                    ),
                );
            },
        };
        let total: usize = info.arg_types.len();
        let ghost av = exprs_v(args@);
        let mut i: usize = args.len();
        while i < total
            invariant
                args@.len() <= i <= total,
                av == exprs_v(args@),
                defaults_from(v@.args, total as int, args@.len() as int, av) == defaults_from(
                    v@.args,
                    total as int,
                    i as int,
                    exprs_v(out@),
                ),
            decreases total - i,
        {
            if i < v.args.len() {
                assert(v@.args[i as int] == v.args@[i as int]@);
                match &v.args[i].default {
                    Some(x) => {
                        let c = copy_expr(x);
                        proof {
                            assert(exprs_v(out@.push(c)) =~= exprs_v(out@).push(c@));
                        }
                        out.push(c);
                    },
                    None => {},
                }
            }
            i = i + 1;
        }
    }
    Ok(out)
}

pub(crate) fn signature(t: &Type) -> (r: Option<(Vec<Type>, Type)>)
    ensures
        match r {
            Some((ps, ret)) => signature_of(t@) == Some((types_v(ps@), ret@)),
            None => signature_of(t@) is None,
        },
{
    broadcast use lemma_type_v;

    match t {
        Type::Function { param_tys, ret_ty } => Some((copy_types(param_tys), copy_type(ret_ty))),
        Type::Ptr(x) => {
            proof {
                assert(t@ == TypeV::Ptr(Box::new(type_v(**x))));
            }
            match &**x {
                Type::Function { param_tys, ret_ty } => Some((copy_types(param_tys), copy_type(ret_ty))),
                _ => {
                    proof {
                        reveal_with_fuel(type_v, 2);
                    }
                    None
                },
            }
        },
        _ => None,
    }
}

/// The contents of optional type indices by name.
pub open spec fn opt_ids_v(ids: Option<&Vec<(String, TypeId)>>) -> Option<Seq<(Seq<char>, TypeId)>> {
    match ids {
        Some(v) => Some(fields_v(v@)),
        None => None,
    }
}

/// An expression of the given form, with its type where there is one.
pub(crate) fn finish(kind: ExprKind, ty: TypeId, span: Span, res: Result<TypeId, CompilationError>) -> (r: (
    Expr,
    Result<TypeId, CompilationError>,
))
    ensures
        r.1 == res,
        r.0@ == (ExprV {
            kind: expr_kind_in(kind),
            ty: match res {
                Ok(id) => id,
                Err(_) => ty,
            },
            span,
        }),
{
    match res {
        Ok(id) => (make_expr(kind, id, span), Ok(id)),
        Err(err) => (make_expr(kind, ty, span), Err(err)),
    }
}

/// The type, unless there is an error.
pub(crate) fn or_id(res: Result<(), CompilationError>, id: TypeId) -> (r: Result<TypeId, CompilationError>)
    ensures
        id_result(r) == or_type(unit_result(res), id),
{
    match res {
        Ok(_) => Ok(id),
        Err(err) => Err(err),
    }
}

pub(crate) fn second_of(ids: &Vec<(String, TypeId)>) -> (r: Vec<TypeId>)
    ensures
        r@ == ids_only(fields_v(ids@)),
{
    let mut out: Vec<TypeId> = Vec::new();
    let mut i: usize = 0;
    while i < ids.len()
        invariant
            i <= ids@.len(),
            out@ =~= ids_only(fields_v(ids@)).take(i as int),
        decreases ids@.len() - i,
    {
        assert(fields_v(ids@)[i as int] == (ids@[i as int].0@, ids@[i as int].1));
        out.push(ids[i].1);
        i = i + 1;
    }
    out
}

pub(crate) fn variant_args_error(name: &str, expected: usize, got: usize) -> (r: CompilationError)
    ensures
        r@ == wrong_variant_args(name@, expected as nat, got as nat),
{
    type_error(
        "Enum variant '".to_owned().concat(name).concat("' expects ").concat(
            text::decimal(expected as u64).as_str(),
        ).concat(" arguments, got ").concat(text::decimal(got as u64).as_str()),
    )
}

pub(crate) fn call_args_error(name: &str, expected: usize, got: usize) -> (r: CompilationError)
    ensures
        r@ == wrong_call_args(name@, expected as nat, got as nat),
{
    type_error(
        "Function '".to_owned().concat(name).concat("' expects ").concat(
            text::decimal(expected as u64).as_str(),
        ).concat(" arguments, got ").concat(text::decimal(got as u64).as_str()),
    )
}

pub(crate) fn enum_variant_error(enum_name: &str, variant_name: &str) -> (r: CompilationError)
    ensures
        r@ == unknown_enum_variant(enum_name@, variant_name@),
{
    type_error(
        "Unknown enum variant '".to_owned().concat(enum_name).concat(".").concat(variant_name).concat("'"),
    )
}

impl TypeInferencer {
    /// The generic enum of a name; an error where there is none.
    pub(crate) fn template_enum(&self, base: &str) -> (r: Result<EnumDefinition, CompilationError>)
        ensures
            match r {
                Ok(d) => enum_template(self@, base@) == Some(d@),
                Err(e) => enum_template(self@, base@) is None && e@ == missing_template(base@),
            },
    {
        match self.monomorphs.templates.get(base) {
            Some(t) => match &t.1 {
                TemplateDef::Enum(d) => {
                    return Ok(copy_enum_definition(d));
                },
                _ => {},
            },
            None => {},
        }
        Err(type_error("internal error: missing template '".to_owned().concat(base).concat("'")))
    }

    /// The generic struct of a name; an error where there is none.
    pub(crate) fn template_struct(&self, base: &str) -> (r: Result<StructDefinition, CompilationError>)
        ensures
            match r {
                Ok(d) => struct_template(self@, base@) == Some(d@),
                Err(e) => struct_template(self@, base@) is None && e@ == missing_template(base@),
            },
    {
        match self.monomorphs.templates.get(base) {
            Some(t) => match &t.1 {
                TemplateDef::Struct(d) => {
                    return Ok(copy_struct_definition(d));
                },
                _ => {},
            },
            None => {},
        }
        Err(type_error("internal error: missing template '".to_owned().concat(base).concat("'")))
    }

    /// The generic function of a name; an error where there is none.
    pub(crate) fn template_function(&self, base: &str) -> (r: Result<Function, CompilationError>)
        ensures
            match r {
                Ok(d) => function_template(self@, base@) == Some(d@),
                Err(e) => function_template(self@, base@) is None && e@ == missing_template(base@),
            },
    {
        match self.monomorphs.templates.get(base) {
            Some(t) => match &t.1 {
                TemplateDef::Function(d) => {
                    return Ok(copy_function(d));
                },
                _ => {},
            },
            None => {},
        }
        Err(type_error("internal error: missing template '".to_owned().concat(base).concat("'")))
    }

    pub(crate) fn find_template_with_variant(&self, name: &str) -> (r: Option<String>)
        ensures
            opt_text(r) == template_with_variant(self@.mono, name@, 0),
            r is Some ==> self@.mono.templates.contains_key(r->0@),
    {
        let n: usize = self.monomorphs.templates.len();
        let mut i: usize = 0;
        while i < n
            invariant
                i <= n == self.monomorphs.templates.entries().len(),
                template_with_variant(self@.mono, name@, 0) == template_with_variant(
                    self@.mono,
                    name@,
                    i as int,
                ),
            decreases n - i,
        {
            let t = self.monomorphs.templates.value_at(i);
            assert(self@.mono.template_names[i as int] == self.monomorphs.templates.entries()[i as int].0@);
            match &t.1 {
                TemplateDef::Enum(d) => {
                    if find_variant(&d.variants, name).is_some() {
                        return Some(self.monomorphs.templates.name_at(i).clone());
                    }
                },
                _ => {},
            }
            i = i + 1;
        }
        None
    }

    /// What is known of the enum variant of the given name.
    pub fn variant_info_by_simple_name(&self, name: &str) -> (r: Option<EnumVariantInfo>)
        ensures
            match r {
                Some(x) => variant_info(self@, name@) == Some(x@),
                None => variant_info(self@, name@) is None,
            },
    {
        proof {
            reveal(variant_info);
        }
        match self.find_template_with_variant(name) {
            Some(t) => match self.monomorphs.templates.get(t.as_str()) {
                Some(pair) => match &pair.1 {
                    TemplateDef::Enum(d) => match find_variant(&d.variants, name) {
                        Some(v) => Some(
                            EnumVariantInfo {
                                enum_name: d.name.clone(),
                                variant_name: v.name.clone(),
                                arg_types: types_of_fields(&v.args),
                                has_defaults: any_default(&v.args),
                            },
                        ),
                        None => None,
                    },
                    _ => None,
                },
                None => None,
            },
            None => match self.symbols.lookup_enum_variant_by_simple_name(name) {
                Some(x) => Some(x.clone()),
                None => None,
            },
        }
    }

    pub(crate) fn refer_to_variant(&mut self, x: Expr, enum_name: String, variant_name: String, depth: usize) -> (r: (
        Expr,
        Result<TypeId, CompilationError>,
    ))
        ensures
            typed_as(
                final(self)@,
                r,
                variant_reference(depth as nat, old(self)@, x@, enum_name@, variant_name@),
            ),
    {
        proof {
            reveal(variant_reference);
        }
        if self.is_template_enum(enum_name.as_str()) {
            match self.instance_params_and_type(enum_name.as_str(), &none_types(), &none_ids(), depth) {
                Ok((_, id)) => (
                    Expr { kind: ExprKind::EnumVariant { enum_name, variant_name }, ty: id, span: x.span },
                    Ok(id),
                ),
                Err(err) => (x, Err(err)),
            }
        } else {
            let id = self.known(Type::Named(enum_name.clone()));
            (Expr { kind: ExprKind::EnumVariant { enum_name, variant_name }, ty: id, span: x.span }, Ok(id))
        }
    }

    pub(crate) fn find_enum_with_variant(&self, name: &str) -> (r: Option<String>)
        ensures
            opt_text(r) == enum_with_variant(all_enums(self@.symbols), name@, 0),
    {
        let es = self.symbols.get_enums();
        let ghost ev = all_enums(self@.symbols);
        let mut i: usize = 0;
        while i < es.len()
            invariant
                i <= es@.len(),
                ev == all_enums(self@.symbols),
                ev == es@.map_values(|d: &EnumDefinition| d@),
                enum_with_variant(ev, name@, 0) == enum_with_variant(ev, name@, i as int),
            decreases es@.len() - i,
        {
            assert(ev[i as int] == es@[i as int]@);
            assert(ev[i as int].variants == enum_variants_v(es@[i as int].variants@));
            if find_variant(&es[i].variants, name).is_some() {
                return Some(es[i].name.clone());
            }
            i = i + 1;
        }
        None
    }

    pub(crate) fn infer_identifier(&mut self, x: Expr, name: String, depth: usize) -> (r: (Expr, Result<TypeId, CompilationError>))
        ensures
            typed_as(final(self)@, r, identifier_typed(depth as nat, old(self)@, x@, name@)),
    {
        proof {
            reveal(identifier_typed);
        }
        match self.symbols.lookup_global(name.as_str()) {
            Some(id) => {
                return (retyped(x, id), Ok(id));
            },
            None => {},
        }
        match self.symbols.lookup_var(name.as_str()) {
            Some(id) => {
                return (retyped(x, id), Ok(id));
            },
            None => {},
        }
        let info = match self.symbols.lookup_enum_variant(name.as_str()) {
            Some(i) => Some((i.enum_name.clone(), i.variant_name.clone())),
            None => None,
        };
        match info {
            Some((e, v)) => {
                return self.refer_to_variant(x, e, v, depth);
            },
            None => {},
        }
        match self.find_enum_with_variant(name.as_str()) {
            Some(e) => {
                return self.refer_to_variant(x, e, name, depth);
            },
            None => {},
        }
        match self.find_template_with_variant(name.as_str()) {
            Some(e) => self.refer_to_variant(x, e, name, depth),
            None => (
                x,
                Err(
                    type_error(
                        "Use of undeclared variable or enum variant '".to_owned().concat(name.as_str()).concat("'"),
                    ),
                ),
            ),
        }
    }

    pub(crate) fn resolve_members(&self, xs: Vec<Expr>, ids: &Vec<TypeId>) -> (r: (Vec<Expr>, Result<Vec<Type>, CompilationError>))
        ensures
            exprs_v(r.0@) == members_resolved(self@.store, exprs_v(xs@), ids@, 0, Seq::empty()).0,
            match r.1 {
                Ok(v) => members_resolved(self@.store, exprs_v(xs@), ids@, 0, Seq::empty()).1 == Ok::<
                    Seq<TypeV>,
                    ErrorV,
                >(types_v(v@)),
                Err(e) => members_resolved(self@.store, exprs_v(xs@), ids@, 0, Seq::empty()).1 == Err::<
                    Seq<TypeV>,
                    ErrorV,
                >(e@),
            },
    {
        let ghost a0 = exprs_v(xs@);
        let mut out = xs;
        let mut ts: Vec<Type> = Vec::new();
        let mut i: usize = 0;
        proof {
            assert(types_v(ts@) =~= Seq::<TypeV>::empty());
        }
        while i < ids.len() && i < out.len()
            invariant
                i <= ids@.len(),
                i <= out@.len(),
                a0 == exprs_v(xs@),
                members_resolved(self@.store, a0, ids@, 0, Seq::empty()) == members_resolved(
                    self@.store,
                    exprs_v(out@),
                    ids@,
                    i as int,
                    types_v(ts@),
                ),
            decreases ids@.len() - i,
        {
            assert(exprs_v(out@)[i as int] == out@[i as int]@);
            match self.store.resolve(ids[i]) {
                Err(_) => {
                    return (
                        out,
                        Err(
                            type_error("Failed to resolve tuple element type: unresolved type".to_owned()),
                        ),
                    );
                },
                Ok(t) => {
                    let a = retyped(copy_expr(&out[i]), ids[i]);
                    set_expr(&mut out, i, a);
                    proof {
                        assert(types_v(ts@.push(t)) =~= types_v(ts@).push(t@));
                    }
                    ts.push(t);
                },
            }
            i = i + 1;
        }
        (out, Ok(ts))
    }

    pub(crate) fn fresh_ids(&mut self, ps: &Vec<TypeParam>) -> (r: Vec<(String, TypeId)>)
        ensures
            (final(self)@, fields_v(r@)) == fresh_params(old(self)@, type_params_v(ps@), 0, Seq::empty()),
    {
        let ghost e0 = self@;
        let mut out: Vec<(String, TypeId)> = Vec::new();
        let mut i: usize = 0;
        proof {
            assert(fields_v(out@) =~= Seq::<(Seq<char>, TypeId)>::empty());
        }
        while i < ps.len()
            invariant
                i <= ps@.len(),
                e0 == old(self)@,
                fresh_params(e0, type_params_v(ps@), 0, Seq::empty()) == fresh_params(
                    self@,
                    type_params_v(ps@),
                    i as int,
                    fields_v(out@),
                ),
            decreases ps@.len() - i,
        {
            assert(type_params_v(ps@)[i as int] == ps@[i as int]@);
            let id = self.unknown();
            let n = ps[i].name.clone();
            proof {
                assert(fields_v(out@.push((n, id))) =~= fields_v(out@).push((n@, id)));
            }
            out.push((n, id));
            i = i + 1;
        }
        out
    }

    pub(crate) fn signature_types(&mut self, ps: &Vec<Param>, ids: &Vec<(String, TypeId)>, depth: usize) -> (r: Result<
        Vec<TypeId>,
        CompilationError,
    >)
        ensures
            (final(self)@, crate::monomorph::ids_result(r)) == signature_ids(
                depth as nat,
                old(self)@,
                params_v(ps@),
                fields_v(ids@),
                0,
                Seq::empty(),
            ),
    {
        let ghost e0 = self@;
        let mut out: Vec<TypeId> = Vec::new();
        let mut i: usize = 0;
        while i < ps.len()
            invariant
                i <= ps@.len(),
                e0 == old(self)@,
                signature_ids(depth as nat, e0, params_v(ps@), fields_v(ids@), 0, Seq::empty()) == signature_ids(
                    depth as nat,
                    self@,
                    params_v(ps@),
                    fields_v(ids@),
                    i as int,
                    out@,
                ),
            decreases ps@.len() - i,
        {
            assert(params_v(ps@)[i as int] == ps@[i as int]@);
            match self.type_id_from_annotation(ps[i].annotation.as_ref(), ids, depth) {
                Ok(id) => {
                    out.push(id);
                },
                Err(err) => return Err(err),
            }
            i = i + 1;
        }
        Ok(out)
    }

    pub(crate) fn bind_defaults(&mut self, ps: &Vec<TypeParam>, ids: &Vec<(String, TypeId)>)
        ensures
            final(self)@ == defaults_bound(old(self)@, type_params_v(ps@), fields_v(ids@), 0),
    {
        let ghost e0 = self@;
        let mut i: usize = 0;
        while i < ps.len() && i < ids.len()
            invariant
                i <= ps@.len(),
                i <= ids@.len(),
                e0 == old(self)@,
                defaults_bound(e0, type_params_v(ps@), fields_v(ids@), 0) == defaults_bound(
                    self@,
                    type_params_v(ps@),
                    fields_v(ids@),
                    i as int,
                ),
            decreases ps@.len() - i,
        {
            assert(type_params_v(ps@)[i as int] == ps@[i as int]@);
            assert(fields_v(ids@)[i as int] == (ids@[i as int].0@, ids@[i as int].1));
            let id = ids[i].1;
            if self.store.is_unknown(id) {
                match default_for_constraints(&ps[i].constraints, &self.monomorphs.defaults) {
                    Some(t) => {
                        self.store.bind_if_unbound(id, t);
                    },
                    None => {},
                }
            }
            i = i + 1;
        }
    }

    pub(crate) fn follow_aliases(&self, name: String, depth: usize) -> (r: String)
        ensures
            r@ == alias_end(self@.store.typedefs, name@, depth as nat),
        decreases depth,
    {
        if depth == 0 {
            return name;
        }
        match self.store.resolve_typedef_type(&Type::Named(name.clone())) {
            Some(Type::Named(next)) => if next == name {
                name
            } else {
                self.follow_aliases(next, depth - 1)
            },
            _ => name,
        }
    }

    pub(crate) fn field_list_of(&self, t: &Type, field: &str, depth: usize) -> (r: Result<
        (String, Vec<(String, TypeId)>),
        CompilationError,
    >)
        ensures
            match r {
                Ok((n, fs)) => fields_of_type(depth as nat, self@, t@, field@) == Ok::<
                    (Seq<char>, Seq<(Seq<char>, TypeId)>),
                    ErrorV,
                >((n@, fields_v(fs@))),
                Err(e) => fields_of_type(depth as nat, self@, t@, field@) == Err::<
                    (Seq<char>, Seq<(Seq<char>, TypeId)>),
                    ErrorV,
                >(e@),
            },
    {
        match t {
            Type::Struct { name, fields } => Ok((name.clone(), crate::types::copy_fields(fields))),
            Type::Named(n) => {
                let end = self.follow_aliases(n.clone(), depth);
                match self.symbols.lookup_struct(end.as_str()) {
                    Some(d) => Ok((end, pairs_of_fields(&d.fields))),
                    None => match self.symbols.lookup_enum(end.as_str()) {
                        Some(d) => match find_variant_with_arg(&d.variants, field) {
                            Some(v) => Ok((n.clone(), pairs_of_fields(&v.args))),
                            None => Err(
                                type_error(
                                    "Enum '".to_owned().concat(n.as_str()).concat("' has no field '").concat(field).concat(
                                        "'",
                                    ),
                                ),
                            ),
                        },
                        None => Err(
                            type_error(
                                "Cannot access field on unknown type '".to_owned().concat(n.as_str()).concat("'"),
                            ),
                        ),
                    },
                }
            },
            _ => Err(type_error("Cannot access field on non-struct type".to_owned())),
        }
    }

    pub(crate) fn infer_field_access_in_instance(&mut self, field: &str, inst: &PendingInstance, depth: usize) -> (r: Result<
        TypeId,
        CompilationError,
    >)
        ensures
            (final(self)@, id_result(r)) == instance_field(depth as nat, old(self)@, field@, inst@),
    {
        proof {
            reveal(instance_field);
        }
        match self.template_struct(inst.base.as_str()) {
            Ok(d) => {
                let ids = param_id_map(&d.type_params, &inst.params);
                return match find_field(&d.fields, field) {
                    None => Err(
                        type_error(
                            "Struct '".to_owned().concat(d.name.as_str()).concat("' has no field '").concat(field).concat(
                                "'",
                            ),
                        ),
                    ),
                    Some(f) => self.type_id_from_annotation(f.annotation.as_ref(), &ids, depth),
                };
            },
            Err(_) => {},
        }
        match self.template_enum(inst.base.as_str()) {
            Ok(d) => {
                let ids = param_id_map(&d.type_params, &inst.params);
                match find_variant_with_arg(&d.variants, field) {
                    None => Err(
                        type_error(
                            "Enum '".to_owned().concat(d.name.as_str()).concat("' has no field '").concat(field).concat(
                                "'",
                            ),
                        ),
                    ),
                    Some(v) => match find_field(&v.args, field) {
                        None => Err(type_error("unresolved type".to_owned())),
                        Some(f) => self.type_id_from_annotation(f.annotation.as_ref(), &ids, depth),
                    },
                }
            },
            Err(_) => Err(
                type_error(
                    "Cannot access field on unknown type '".to_owned().concat(inst.base.as_str()).concat("'"),
                ),
            ),
        }
    }

    pub(crate) fn infer_field_access(&mut self, container: TypeId, field: &str, depth: usize) -> (r: Result<TypeId, CompilationError>)
        ensures
            (final(self)@, id_result(r)) == field_typed(depth as nat, old(self)@, container, field@),
    {
        proof {
            reveal(field_typed);
        }
        let rep = self.store.find_rep(container);
        match self.find_instance(rep) {
            Some(inst) => {
                return self.infer_field_access_in_instance(field, &inst, depth);
            },
            None => {},
        }
        let t = match self.store.resolve(container) {
            Ok(t) => t,
            Err(err) => return Err(err),
        };
        match self.field_list_of(&t, field, depth) {
            Err(err) => Err(err),
            Ok((name, fields)) => match find_pair(&fields, field) {
                Some(id) => Ok(id),
                None => Err(
                    type_error(
                        "Struct/variant '".to_owned().concat(name.as_str()).concat("' has no field '").concat(field).concat(
                            "'",
                        ),
                    ),
                ),
            },
        }
    }

    /// Records a tuple type, and those nested in it, each once.
    pub(crate) fn record_tuple(&mut self, elems: &Vec<Type>)
        ensures
            final(self)@ == (EnvV { tuples: shape_recorded(old(self)@.tuples, types_v(elems@)), ..old(self)@ }),
        decreases *elems,
    {
        broadcast use lemma_type_v;

        let name = tuple_c_name(elems);
        let ghost e0 = self@;
        let ghost ev = types_v(elems@);
        let mut i: usize = 0;
        while i < self.tuple_shapes.len()
            invariant
                i <= self.tuple_shapes@.len(),
                self@ == e0,
                e0 == old(self)@,
                ev == types_v(elems@),
                name@ == tuple_name(c_names(ev)),
                forall|j: int| 0 <= j < i ==> (#[trigger] e0.tuples[j]).0 != name@,
            decreases self.tuple_shapes@.len() - i,
        {
            assert(e0.tuples[i as int] == (
                self.tuple_shapes@[i as int].0@,
                types_v(self.tuple_shapes@[i as int].1@),
            ));
            if self.tuple_shapes[i].0 == name {
                return ;
            }
            i = i + 1;
        }
        assert(!has_shape(e0.tuples, name@));
        let mut k: usize = 0;
        while k < elems.len()
            invariant
                k <= elems@.len(),
                ev == types_v(elems@),
                self@ == (EnvV { tuples: self@.tuples, ..e0 }),
                nested_recorded(e0.tuples, ev, 0) == nested_recorded(self@.tuples, ev, k as int),
            decreases elems@.len() - k,
        {
            assert(ev[k as int] == elems@[k as int]@);
            match &elems[k] {
                Type::Tuple(inner) => {
                    proof {
                        lemma_type_v(elems@[k as int]);
                    }
                    self.record_tuple(inner);
                },
                _ => {
                    assert(!(ev[k as int] is Tuple));
                },
            }
            k = k + 1;
        }
        let entry = (name, copy_types(elems));
        proof {
            assert(shapes_v(self.tuple_shapes@.push(entry)) =~= shapes_v(self.tuple_shapes@).push(
                (entry.0@, types_v(entry.1@)),
            ));
        }
        self.tuple_shapes.push(entry);
    }

    pub(crate) fn infer_unary_op(&mut self, op: UnaryOperator, t: TypeId) -> (r: Result<TypeId, CompilationError>)
        ensures
            (final(self)@, id_result(r)) == unary_result(old(self)@, op, t),
    {
        broadcast use lemma_type_v;

        proof {
            reveal(unary_result);
        }
        match op {
            UnaryOperator::AddressOf => match self.store.resolve(t) {
                Ok(ty) => Ok(self.known(Type::Ptr(Box::new(ty)))),
                Err(err) => Err(err),
            },
            UnaryOperator::Dereference => match self.store.resolve(t) {
                Ok(Type::Ptr(inner)) => Ok(self.known(*inner)),
                Ok(other) => Err(
                    type_error(
                        "Cannot dereference non-pointer type: ".to_owned().concat(other.to_c_name().as_str()),
                    ),
                ),
                Err(err) => Err(err),
            },
            _ => Ok(t),
        }
    }

    pub(crate) fn unify_two(&mut self, a: TypeId, b: TypeId, c: TypeId, d: TypeId, depth: usize) -> (r: Result<(), CompilationError>)
        ensures
            (final(self)@, unit_result(r)) == two_unified(depth as nat, old(self)@, a, b, c, d),
    {
        match self.unify(a, b, depth) {
            Ok(_) => self.unify(c, d, depth),
            Err(err) => Err(err),
        }
    }

    pub(crate) fn infer_binary_op(&mut self, op: BinaryOperator, l: TypeId, rt: TypeId, depth: usize) -> (r: Result<
        TypeId,
        CompilationError,
    >)
        ensures
            (final(self)@, id_result(r)) == binary_result(depth as nat, old(self)@, op, l, rt),
    {
        proof {
            reveal(binary_result);
        }
        match op {
            BinaryOperator::And | BinaryOperator::Or => {
                let id = self.known(Type::Bool);
                match self.unify_two(l, id, rt, id, depth) {
                    Ok(_) => Ok(id),
                    Err(err) => Err(err),
                }
            },
            BinaryOperator::Eq | BinaryOperator::Ne | BinaryOperator::Lt | BinaryOperator::Gt | BinaryOperator::Le
            | BinaryOperator::Ge => match self.unify(l, rt, depth) {
                Ok(_) => Ok(self.known(Type::Bool)),
                Err(err) => Err(err),
            },
            _ => match self.unify(l, rt, depth) {
                Ok(_) => Ok(l),
                Err(err) => Err(err),
            },
        }
    }

    /// Checks that an inferred condition is a truth value.
    pub fn check_condition(&mut self, res: Result<TypeId, CompilationError>, depth: usize) -> (r: Result<
        (),
        CompilationError,
    >)
        ensures
            (final(self)@, unit_result(r)) == condition_checked(depth as nat, old(self)@, id_result(res)),
    {
        match res {
            Err(err) => Err(err),
            Ok(t) => {
                let id = self.known(Type::Bool);
                self.unify(t, id, depth)
            },
        }
    }

    pub(crate) fn infer_name(&mut self, name: String, ty: TypeId, span: Span, depth: usize) -> (r: (
        Expr,
        Result<TypeId, CompilationError>,
    ))
        ensures
            typed_as(
                final(self)@,
                r,
                identifier_typed(
                    depth as nat,
                    old(self)@,
                    ExprV { kind: ExprKindV::Identifier { name: name@ }, ty, span },
                    name@,
                ),
            ),
    {
        broadcast use lemma_expr_v;

        let copy = name.clone();
        let x = Expr { kind: ExprKind::Identifier { name }, ty, span };
        self.infer_identifier(x, copy, depth)
    }

    pub(crate) fn infer_literal_value(&mut self, value: Literal, span: Span) -> (r: (Expr, Result<TypeId, CompilationError>))
        ensures
            final(self)@ == with_known(old(self)@, literal_type(value@)),
            r.0@ == (ExprV { kind: ExprKindV::Literal { value: value@ }, ty: next_id(old(self)@), span }),
            r.1 == Ok::<TypeId, CompilationError>(next_id(old(self)@)),
    {
        broadcast use lemma_expr_v;

        let id = self.infer_literal(&value);
        (Expr { kind: ExprKind::Literal { value }, ty: id, span }, Ok(id))
    }

    pub(crate) fn infer_literal(&mut self, value: &Literal) -> (r: TypeId)
        ensures
            final(self)@ == with_known(old(self)@, literal_type(value@)),
            r == next_id(old(self)@),
    {
        let t = match value {
            Literal::Int(_) => Type::Int,
            Literal::Float(_) => Type::Float,
            Literal::Char(_) => Type::Char,
            Literal::Bool(_) => Type::Bool,
            Literal::String(_) => Type::CString,
            Literal::Null => Type::Ptr(Box::new(Type::Void)),
        };
        proof {
            reveal_with_fuel(type_v, 2);
        }
        self.known(t)
    }

    pub(crate) fn infer_enum_variant(&mut self, enum_name: String, variant_name: String, ty: TypeId, span: Span, depth: usize) -> (r: (
        Expr,
        Result<TypeId, CompilationError>,
    ))
        ensures
            typed_as(
                final(self)@,
                r,
                variant_value_typed(depth as nat, old(self)@, enum_name@, variant_name@, ty, span),
            ),
    {
        broadcast use lemma_expr_v;

        proof {
            reveal(variant_value_typed);
        }
        let known = self.is_template_enum(enum_name.as_str()) || self.symbols.lookup_variant(
            enum_name.as_str(),
            variant_name.as_str(),
        ).is_some();
        if known {
            let (e, v) = (enum_name.clone(), variant_name.clone());
            let x = Expr { kind: ExprKind::EnumVariant { enum_name, variant_name }, ty, span };
            self.refer_to_variant(x, e, v, depth)
        } else {
            let err = enum_variant_error(enum_name.as_str(), variant_name.as_str());
            (Expr { kind: ExprKind::EnumVariant { enum_name, variant_name }, ty, span }, Err(err))
        }
    }

    pub(crate) fn make_one(&mut self, a: TypeId, b: TypeId, depth: usize) -> (r: Result<TypeId, CompilationError>)
        ensures
            (final(self)@, id_result(r)) == made_one(depth as nat, old(self)@, a, b),
    {
        match self.unify(a, b, depth) {
            Ok(_) => Ok(a),
            Err(err) => Err(err),
        }
    }

    pub(crate) fn check_range(&mut self, a: TypeId, b: TypeId, depth: usize) -> (r: Result<TypeId, CompilationError>)
        ensures
            (final(self)@, id_result(r)) == range_result(depth as nat, old(self)@, a, b),
    {
        proof {
            reveal(range_result);
        }
        let id = self.known(Type::Int);
        match self.unify_two(a, id, b, id, depth) {
            Ok(_) => Ok(self.known(Type::Void)),
            Err(err) => Err(err),
        }
    }
}

} // verus!
