//! Realizing generic definitions for concrete type arguments.
use crate::decl::{copy_enum_definition, copy_metadatas, copy_param, copy_struct_definition,
    default_specializations_v, enum_definition_v, enum_definitions_v, enum_variant_v, enum_variants_v,
    field_list_v, field_v, function_v, functions_v, param_v, params_v, struct_definition_v,
    struct_definitions_v, type_params_v, DefaultSpecialization, DefaultSpecializationV, EnumDefinition,
    EnumDefinitionV, EnumVariant, EnumVariantV, Field, FieldV, Function, FunctionV, Param, ParamV,
    StructDefinition, StructDefinitionV, TypeParam, TypeParamV};
use crate::engine::{complete_v, copy_template, def_enum, def_function, def_struct, def_variants,
    impl_entry_v, impls_v, instance_map_v, instances_v, next_id, path_map_v, pending_generics_v,
    template_impls_v, template_params, template_v, with_known, with_unknown, EnvV, ImplEntry, ImplEntryV,
    MonoV, PendingGeneric, PendingGenericV, PendingInstance, PendingInstanceV, TemplateDef, TemplateDefV,
    TemplateImpl, TemplateImplV, TypeInferencer};
use crate::error::{CompilationError, ErrorV};
use crate::escape::opt_text;
use crate::kept_types::{grown, law_realized_names_fit, lemma_realized, names_fit};
use crate::module::{copy_path, ModulePath};
use crate::store::{bound_in, known_in, StoreV};
use crate::subst::{concrete, is_concrete, last_of, subst, subst_block, subst_function, subst_opt,
    subst_opt_expr, substitute_block, substitute_function, substitute_opt, substitute_opt_expr,
    substitute_type, type_pairs_v};
use crate::symbols::copy_ids;
use crate::text;
use crate::types::{c_name, c_names, copy_type, copy_types, fields_v, lemma_type_v, monomorph_name,
    opt_type_v, realized_name, same_types, types_v, Type, TypeId, TypeV};
use vstd::prelude::*;

verus! {

/// The name of the trait that a constraint stands for.
pub open spec fn trait_of(t: TypeV) -> Option<Seq<char>> {
    match t {
        TypeV::Named(n) => Some(n),
        TypeV::Instance { base, .. } => Some(base),
        _ => None,
    }
}

/// The name of the trait that a constraint stands for.
pub fn constraint_trait_name(t: &Type) -> (r: Option<String>)
    ensures
        opt_text(r) == trait_of(t@),
{
    match t {
        Type::Named(n) => Some(n.clone()),
        Type::Instance { base, args: _ } => Some(base.clone()),
        _ => None,
    }
}

/// A type as it appears once generic applications are realized.
pub open spec fn canonical(t: TypeV) -> TypeV {
    match t {
        TypeV::Instance { base, args } => TypeV::Named(realized_name(base, c_names(args))),
        _ => t,
    }
}

/// A type as it appears once generic applications are realized.
pub fn canonical_type(t: &Type) -> (r: Type)
    ensures
        r@ == canonical(t@),
{
    broadcast use lemma_type_v;

    match t {
        Type::Instance { base, args } => Type::Named(monomorph_name(base.as_str(), args)),
        _ => copy_type(t),
    }
}

/// The key of a type in the registry of implementations.
pub open spec fn key_of(t: TypeV) -> Seq<char> {
    c_name(canonical(t))
}

/// The key of a type in the registry of implementations.
pub fn canonical_type_key(t: &Type) -> (r: String)
    ensures
        r@ == key_of(t@),
{
    canonical_type(t).to_c_name()
}

/// A generic application and its realized form have one key.
pub proof fn law_key_of_application(base: Seq<char>, args: Seq<TypeV>)
    ensures
        key_of(TypeV::Instance { base, args }) == key_of(TypeV::Named(realized_name(base, c_names(args)))),
        canonical(canonical(TypeV::Instance { base, args })) == canonical(TypeV::Instance { base, args }),
{
}

/// The C symbol of a method of an implementation.
pub open spec fn method_symbol(trait_name: Seq<char>, for_type: TypeV, method: Seq<char>) -> Seq<char> {
    trait_name + "__"@ + key_of(for_type) + "__"@ + method
}

/// The C symbol of a method of an implementation: `<trait>__<type>__<method>`.
pub fn impl_method_symbol(trait_name: &str, for_type: &Type, method_name: &str) -> (r: String)
    ensures
        r@ == method_symbol(trait_name@, for_type@, method_name@),
{
    trait_name.to_owned().concat("__").concat(canonical_type_key(for_type).as_str()).concat("__").concat(method_name)
}

/// Whether two optional annotations are present and have one C name.
pub open spec fn same_c_name(a: Option<TypeV>, b: Option<TypeV>) -> bool {
    a is Some && b is Some && c_name(a->0) == c_name(b->0)
}

/// Whether a method has the signature that its trait declares.
pub open spec fn signatures_agree(decl: FunctionV, provided: FunctionV) -> bool {
    &&& decl.params.len() == provided.params.len()
    &&& forall|i: int|
        0 <= i < decl.params.len() ==> same_c_name(
            (#[trigger] decl.params[i]).annotation,
            provided.params[i].annotation,
        )
    &&& same_c_name(decl.return_type, provided.return_type) || (decl.return_type is None
        && provided.return_type is None)
}

fn c_names_match(a: &Option<Type>, b: &Option<Type>) -> (r: bool)
    ensures
        r == same_c_name(opt_type_v(*a), opt_type_v(*b)),
{
    match (a, b) {
        (Some(x), Some(y)) => x.to_c_name() == y.to_c_name(),
        _ => false,
    }
}

/// Whether a method has the signature that its trait declares.
pub fn signatures_match(decl: &Function, provided: &Function) -> (r: bool)
    ensures
        r == signatures_agree(decl@, provided@),
{
    if decl.params.len() != provided.params.len() {
        return false;
    }
    let mut i: usize = 0;
    while i < decl.params.len()
        invariant
            i <= decl.params@.len() == provided.params@.len(),
            forall|j: int|
                0 <= j < i ==> same_c_name(
                    (#[trigger] decl@.params[j]).annotation,
                    provided@.params[j].annotation,
                ),
        decreases decl.params@.len() - i,
    {
        assert(decl@.params[i as int] == decl.params@[i as int]@);
        assert(provided@.params[i as int] == provided.params@[i as int]@);
        if !c_names_match(&decl.params[i].annotation, &provided.params[i].annotation) {
            return false;
        }
        i = i + 1;
    }
    c_names_match(&decl.return_type, &provided.return_type) || (decl.return_type.is_none()
        && provided.return_type.is_none())
}

/// The default type of a trait, from position `i` on.
pub open spec fn default_of(ds: Seq<DefaultSpecializationV>, name: Seq<char>, i: int) -> Option<TypeV>
    decreases ds.len() - i,
{
    if i < 0 || i >= ds.len() {
        None
    } else if ds[i].trait_name == name {
        Some(ds[i].default_type)
    } else {
        default_of(ds, name, i + 1)
    }
}

/// The default type for the first constraint, from position `i` on, whose trait has one.
pub open spec fn default_for(cs: Seq<TypeV>, ds: Seq<DefaultSpecializationV>, i: int) -> Option<TypeV>
    decreases cs.len() - i,
{
    if i < 0 || i >= cs.len() {
        None
    } else {
        match trait_of(cs[i]) {
            None => default_for(cs, ds, i + 1),
            Some(n) => match default_of(ds, n, 0) {
                Some(t) => Some(t),
                None => default_for(cs, ds, i + 1),
            },
        }
    }
}

/// The default type for the first constraint whose trait has one.
pub fn default_for_constraints(constraints: &Vec<Type>, defaults: &Vec<DefaultSpecialization>) -> (r: Option<Type>)
    ensures
        opt_type_v(r) == default_for(types_v(constraints@), default_specializations_v(defaults@), 0),
{
    let ghost cs = types_v(constraints@);
    let ghost ds = default_specializations_v(defaults@);
    let mut i: usize = 0;
    while i < constraints.len()
        invariant
            i <= constraints@.len(),
            cs == types_v(constraints@),
            ds == default_specializations_v(defaults@),
            default_for(cs, ds, 0) == default_for(cs, ds, i as int),
        decreases constraints@.len() - i,
    {
        assert(cs[i as int] == constraints@[i as int]@);
        match constraint_trait_name(&constraints[i]) {
            None => {},
            Some(n) => {
                let mut j: usize = 0;
                while j < defaults.len()
                    invariant
                        i < constraints@.len(),
                        cs == types_v(constraints@),
                        trait_of(cs[i as int]) == Some(n@),
                        j <= defaults@.len(),
                        ds == default_specializations_v(defaults@),
                        default_for(cs, ds, 0) == default_for(cs, ds, i as int),
                        default_of(ds, n@, 0) == default_of(ds, n@, j as int),
                    decreases defaults@.len() - j,
                {
                    assert(ds[j as int] == defaults@[j as int]@);
                    if defaults[j].trait_name == n {
                        return Some(copy_type(&defaults[j].default_type));
                    }
                    j = j + 1;
                }
            },
        }
        i = i + 1;
    }
    None
}

/// Whether a type argument names something that is no known type, as a type parameter does: no
/// generic definition, and none of the given structs and enums.
pub open spec fn unbound_arg(
    templates: Map<Seq<char>, (Seq<Seq<char>>, TemplateDefV)>,
    types: Seq<Seq<char>>,
    t: TypeV,
) -> bool
    decreases t,
{
    match t {
        TypeV::Named(n) => !templates.contains_key(n) && !types.contains(n),
        TypeV::Instance { args, .. } => some_unbound(templates, types, args),
        TypeV::Ptr(x) => unbound_arg(templates, types, *x),
        TypeV::Tuple(xs) => some_unbound(templates, types, xs),
        TypeV::CArray(x, _) => unbound_arg(templates, types, *x),
        _ => false,
    }
}

/// Whether some type argument names something that is no known type.
pub open spec fn some_unbound(
    templates: Map<Seq<char>, (Seq<Seq<char>>, TemplateDefV)>,
    types: Seq<Seq<char>>,
    ts: Seq<TypeV>,
) -> bool
    decreases ts,
{
    exists|i: int| 0 <= i < ts.len() && unbound_arg(templates, types, #[trigger] ts[i])
}

/// Whether an implementation is for a generic application over type parameters.
pub open spec fn templated(
    templates: Map<Seq<char>, (Seq<Seq<char>>, TemplateDefV)>,
    types: Seq<Seq<char>>,
    t: TypeV,
) -> bool {
    match t {
        TypeV::Instance { args, .. } => some_unbound(templates, types, args),
        _ => false,
    }
}

/// The first implementation of a trait under a key, from position `i` on.
pub open spec fn impl_under(impls: Seq<(Seq<char>, ImplEntryV)>, key: Seq<char>, trait_name: Seq<char>, i: int) -> Option<ImplEntryV>
    decreases impls.len() - i,
{
    if i < 0 || i >= impls.len() {
        None
    } else if impls[i].0 == key && impls[i].1.trait_name == trait_name {
        Some(impls[i].1)
    } else {
        impl_under(impls, key, trait_name, i + 1)
    }
}

/// Whether a method of the given name is in the list.
pub open spec fn has_method(ms: Seq<FunctionV>, name: Seq<char>) -> bool {
    exists|i: int| 0 <= i < ms.len() && (#[trigger] ms[i]).name == name
}

/// The symbol of a method of the first implementation under a key, from position `i` on, that
/// has it.
pub open spec fn method_under(impls: Seq<(Seq<char>, ImplEntryV)>, key: Seq<char>, name: Seq<char>, i: int) -> Option<Seq<char>>
    decreases impls.len() - i,
{
    if i < 0 || i >= impls.len() {
        None
    } else if impls[i].0 == key && has_method(impls[i].1.methods, name) {
        Some(method_symbol(impls[i].1.trait_name, impls[i].1.for_type, name))
    } else {
        method_under(impls, key, name, i + 1)
    }
}

/// The name of the realized form of an application, from position `i` on.
pub open spec fn completed(cs: Seq<(Seq<char>, Seq<TypeV>, Seq<char>)>, base: Seq<char>, args: Seq<TypeV>, i: int) -> Option<Seq<char>>
    decreases cs.len() - i,
{
    if i < 0 || i >= cs.len() {
        None
    } else if cs[i].0 == base && cs[i].1 == args {
        Some(cs[i].2)
    } else {
        completed(cs, base, args, i + 1)
    }
}

/// The types that all the indices stand for, where all are known; appended to `acc`.
pub open spec fn all_known(s: StoreV, ids: Seq<TypeId>, i: int, acc: Seq<TypeV>) -> Option<Seq<TypeV>>
    decreases ids.len() - i,
{
    if i < 0 || i >= ids.len() {
        Some(acc)
    } else {
        match known_in(s, ids[i]) {
            Some(t) => all_known(s, ids, i + 1, acc.push(t)),
            None => None,
        }
    }
}

/// The parameters that are known, as types by name; from position `i` on. A name that occurs more
/// than once stands for its last index.
pub open spec fn known_params(s: StoreV, ps: Seq<(Seq<char>, TypeId)>, i: int, acc: Seq<(Seq<char>, TypeV)>) -> Seq<(Seq<char>, TypeV)>
    decreases ps.len() - i,
{
    if i < 0 || i >= ps.len() {
        acc
    } else {
        match known_in(s, last_id(ps, i)) {
            Some(t) => known_params(s, ps, i + 1, acc.push((ps[i].0, t))),
            None => known_params(s, ps, i + 1, acc),
        }
    }
}

/// The last index of the name at position `i`.
pub open spec fn last_id(ps: Seq<(Seq<char>, TypeId)>, i: int) -> TypeId {
    match last_of(ps, ps[i].0) {
        Some(id) => id,
        None => ps[i].1,
    }
}

/// The names, each with its last index.
pub open spec fn by_last_id(ps: Seq<(Seq<char>, TypeId)>) -> Seq<(Seq<char>, TypeId)> {
    Seq::new(ps.len(), |i: int| (ps[i].0, last_id(ps, i)))
}

/// The type arguments by parameter name.
pub open spec fn args_by_name(ps: Seq<TypeParamV>, args: Seq<TypeV>) -> Seq<(Seq<char>, TypeV)> {
    Seq::new(
        if ps.len() <= args.len() { ps.len() } else { args.len() },
        |i: int| (ps[i].name, args[i]),
    )
}

/// The type indices by parameter name.
pub open spec fn ids_by_name(ps: Seq<TypeParamV>, ids: Seq<TypeId>) -> Seq<(Seq<char>, TypeId)> {
    Seq::new(
        if ps.len() <= ids.len() { ps.len() } else { ids.len() },
        |i: int| (ps[i].name, ids[i]),
    )
}

/// The error for definitions that are nested without end.
pub open spec fn too_deep() -> ErrorV {
    ErrorV::TypeError("definitions are nested too deeply"@)
}

/// The index of the type that an annotation stands for; without an annotation, of an unknown
/// type. At most `fuel` generic applications are followed one inside the other.
pub open spec fn annotated(fuel: nat, e: EnvV, ann: Option<TypeV>, ps: Seq<(Seq<char>, TypeId)>) -> (EnvV, Result<TypeId, ErrorV>)
    decreases fuel, 0int, 0int,
{
    match ann {
        None => (with_unknown(e), Ok(next_id(e))),
        Some(TypeV::TypeParam(name)) => match last_of(ps, name) {
            Some(id) => (e, Ok(id)),
            None => (
                e,
                Err(
                    ErrorV::TypeError(
                        "type parameter '"@ + name + "' used outside of its generic definition"@,
                    ),
                ),
            ),
        },
        Some(t) => if fuel == 0 {
            (e, Err(too_deep()))
        } else {
            match t {
                TypeV::Instance { base, args } => only_type(applied((fuel - 1) as nat, e, base, args, ps)),
                TypeV::Named(n) => if is_data_template(e, n) {
                    only_type(applied((fuel - 1) as nat, e, n, Seq::empty(), ps))
                } else {
                    (with_known(e, subst(t, known_params(e.store, ps, 0, Seq::empty()))), Ok(next_id(e)))
                },
                _ => (with_known(e, subst(t, known_params(e.store, ps, 0, Seq::empty()))), Ok(next_id(e))),
            }
        },
    }
}

/// The type of an application, without the types of its parameters.
pub open spec fn only_type(r: (EnvV, Result<(Seq<TypeId>, TypeId), ErrorV>)) -> (EnvV, Result<TypeId, ErrorV>) {
    match r.1 {
        Ok((_, id)) => (r.0, Ok(id)),
        Err(err) => (r.0, Err(err)),
    }
}

/// Whether a name is that of a generic struct.
pub open spec fn is_struct_template(e: EnvV, n: Seq<char>) -> bool {
    e.mono.templates.contains_key(n) && e.mono.templates[n].1 is Struct
}

/// Whether a name is that of a generic enum.
pub open spec fn is_enum_template(e: EnvV, n: Seq<char>) -> bool {
    e.mono.templates.contains_key(n) && e.mono.templates[n].1 is Enum
}

/// Whether a name is that of a generic function.
pub open spec fn is_function_template(e: EnvV, n: Seq<char>) -> bool {
    e.mono.templates.contains_key(n) && e.mono.templates[n].1 is Function
}

/// Whether a name is that of a generic struct or enum.
pub open spec fn is_data_template(e: EnvV, n: Seq<char>) -> bool {
    is_struct_template(e, n) || is_enum_template(e, n)
}

/// The indices of the types that annotations from position `i` on stand for, appended to `acc`.
pub open spec fn annotated_all(
    fuel: nat,
    e: EnvV,
    ts: Seq<TypeV>,
    ps: Seq<(Seq<char>, TypeId)>,
    i: int,
    acc: Seq<TypeId>,
) -> (EnvV, Result<Seq<TypeId>, ErrorV>)
    decreases fuel, 1int, ts.len() - i,
{
    if i < 0 || i >= ts.len() {
        (e, Ok(acc))
    } else {
        match annotated(fuel, e, Some(ts[i]), ps) {
            (e1, Ok(id)) => annotated_all(fuel, e1, ts, ps, i + 1, acc.push(id)),
            (e1, Err(err)) => (e1, Err(err)),
        }
    }
}

/// The indices of the types of the type parameters from position `i` on that got no argument: of
/// the default of the parameter, or else of an unknown type, which the default of a constraint
/// makes known.
pub open spec fn missing_args(
    fuel: nat,
    e: EnvV,
    declared: Seq<TypeParamV>,
    ps: Seq<(Seq<char>, TypeId)>,
    i: int,
    acc: Seq<TypeId>,
) -> (EnvV, Result<Seq<TypeId>, ErrorV>)
    decreases fuel, 1int, declared.len() - i,
{
    if i < 0 || i >= declared.len() {
        (e, Ok(acc))
    } else {
        match declared[i].default {
            Some(t) => match annotated(fuel, e, Some(t), ps) {
                (e1, Ok(id)) => missing_args(fuel, e1, declared, ps, i + 1, acc.push(id)),
                (e1, Err(err)) => (e1, Err(err)),
            },
            None => {
                let id = next_id(e);
                let e1 = with_unknown(e);
                let e2 = match default_for(declared[i].constraints, e1.mono.defaults, 0) {
                    Some(t) => EnvV { store: bound_in(e1.store, id, t), ..e1 },
                    None => e1,
                };
                missing_args(fuel, e2, declared, ps, i + 1, acc.push(id))
            },
        }
    }
}

/// The error for the first constraint, from position `j` on, that a type does not meet.
pub open spec fn broken_constraint(e: EnvV, cs: Seq<TypeV>, arg: TypeV, j: int) -> Option<ErrorV>
    decreases cs.len() - j,
{
    if j < 0 || j >= cs.len() {
        None
    } else {
        match trait_of(cs[j]) {
            Some(n) => if impl_under(e.mono.impls, key_of(arg), n, 0) is None {
                Some(
                    ErrorV::TypeError("type '"@ + c_name(arg) + "' does not implement trait '"@ + n + "'"@),
                )
            } else {
                broken_constraint(e, cs, arg, j + 1)
            },
            None => broken_constraint(e, cs, arg, j + 1),
        }
    }
}

/// The error for the first type argument, from position `i` on, that does not meet a constraint.
/// An argument with type parameters in it is not looked at.
pub open spec fn broken_constraints(e: EnvV, declared: Seq<TypeParamV>, args: Seq<TypeV>, i: int) -> Option<ErrorV>
    decreases args.len() - i,
{
    if i < 0 || i >= args.len() || i >= declared.len() {
        None
    } else if !concrete(args[i]) {
        broken_constraints(e, declared, args, i + 1)
    } else {
        match broken_constraint(e, declared[i].constraints, args[i], 0) {
            Some(err) => Some(err),
            None => broken_constraints(e, declared, args, i + 1),
        }
    }
}

/// The types of the parameters of a generic application, and the type of the application: of its
/// realized form where all parameters are known, else an unknown type that is recorded as
/// standing for the application.
pub open spec fn applied(
    fuel: nat,
    e: EnvV,
    base: Seq<char>,
    supplied: Seq<TypeV>,
    ps: Seq<(Seq<char>, TypeId)>,
) -> (EnvV, Result<(Seq<TypeId>, TypeId), ErrorV>)
    decreases fuel, 6int, 0int,
{
    if !e.mono.templates.contains_key(base) {
        (e, Err(ErrorV::TypeError("type '"@ + base + "' is not generic"@)))
    } else {
        let declared = template_params(e.mono.templates[base].1);
        if supplied.len() > declared.len() {
            (e, Err(too_many_args(base, declared.len(), supplied.len())))
        } else {
            match annotated_all(fuel, e, supplied, ps, 0, Seq::empty()) {
                (e1, Err(err)) => (e1, Err(err)),
                (e1, Ok(some)) => match missing_args(fuel, e1, declared, ps, supplied.len() as int, some) {
                    (e2, Err(err)) => (e2, Err(err)),
                    (e2, Ok(ids)) => match all_known(e2.store, ids, 0, Seq::empty()) {
                        Some(args) => match broken_constraints(e2, declared, args, 0) {
                            Some(err) => (e2, Err(err)),
                            None => if fuel == 0 {
                                (e2, Err(too_deep()))
                            } else {
                                match realized((fuel - 1) as nat, e2, base, args) {
                                    (e3, Err(err)) => (e3, Err(err)),
                                    (e3, Ok((name, _))) => (
                                        with_known(e3, TypeV::Named(name)),
                                        Ok((ids, next_id(e3))),
                                    ),
                                }
                            },
                        },
                        None => (application_recorded(e2, base, ids), Ok((ids, next_id(e2)))),
                    },
                },
            }
        }
    }
}

/// The error for an application with too many arguments.
pub open spec fn too_many_args(base: Seq<char>, expected: nat, got: nat) -> ErrorV {
    ErrorV::TypeError(
        "type '"@ + base + "' expects "@ + text::decimal_text(expected) + " type argument(s), got "@
            + text::decimal_text(got),
    )
}

/// The engine with an unknown type that stands for an application, which is to be realized.
pub open spec fn application_recorded(e: EnvV, base: Seq<char>, ids: Seq<TypeId>) -> EnvV {
    let e1 = with_unknown(e);
    EnvV {
        mono: MonoV {
            instance_types: e1.mono.instance_types.push(
                (next_id(e), PendingInstanceV { base, params: ids }),
            ),
            pending: e1.mono.pending.push(PendingGenericV { base, params: ids, call_return: None }),
            ..e1.mono
        },
        ..e1
    }
}

/// The fields of a realized definition, from position `i` on, appended to `acc`.
pub open spec fn realized_fields(
    fuel: nat,
    e: EnvV,
    fs: Seq<FieldV>,
    m: Seq<(Seq<char>, TypeV)>,
    with_defaults: bool,
    i: int,
    acc: Seq<FieldV>,
) -> (EnvV, Result<Seq<FieldV>, ErrorV>)
    decreases fuel, 1int, fs.len() - i,
{
    if i < 0 || i >= fs.len() {
        (e, Ok(acc))
    } else {
        let ann = subst_opt(fs[i].annotation, m);
        match annotated(fuel, e, ann, Seq::empty()) {
            (e1, Err(err)) => (e1, Err(err)),
            (e1, Ok(id)) => {
                let f = FieldV {
                    annotation: ann,
                    ty: id,
                    default: if with_defaults { subst_opt_expr(fs[i].default, m) } else { fs[i].default },
                    ..fs[i]
                };
                realized_fields(fuel, e1, fs, m, with_defaults, i + 1, acc.push(f))
            },
        }
    }
}

/// The variants of a realized enum, from position `i` on, appended to `acc`.
pub open spec fn realized_variants(
    fuel: nat,
    e: EnvV,
    vs: Seq<EnumVariantV>,
    name: Seq<char>,
    m: Seq<(Seq<char>, TypeV)>,
    i: int,
    acc: Seq<EnumVariantV>,
) -> (EnvV, Result<Seq<EnumVariantV>, ErrorV>)
    decreases fuel, 2int, vs.len() - i,
{
    if i < 0 || i >= vs.len() {
        (e, Ok(acc))
    } else {
        match realized_fields(fuel, e, vs[i].args, m, false, 0, Seq::empty()) {
            (e1, Err(err)) => (e1, Err(err)),
            (e1, Ok(args)) => {
                let v = EnumVariantV {
                    parent: name,
                    args,
                    default: subst_opt_expr(vs[i].default, m),
                    ..vs[i]
                };
                realized_variants(fuel, e1, vs, name, m, i + 1, acc.push(v))
            },
        }
    }
}

/// The parameters of a realized function, from position `i` on, appended to `acc`.
pub open spec fn realized_params(
    fuel: nat,
    e: EnvV,
    ps: Seq<ParamV>,
    m: Seq<(Seq<char>, TypeV)>,
    i: int,
    acc: Seq<ParamV>,
) -> (EnvV, Result<Seq<ParamV>, ErrorV>)
    decreases fuel, 1int, ps.len() - i,
{
    if i < 0 || i >= ps.len() {
        (e, Ok(acc))
    } else {
        let ann = subst_opt(ps[i].annotation, m);
        match annotated(fuel, e, ann, Seq::empty()) {
            (e1, Err(err)) => (e1, Err(err)),
            (e1, Ok(id)) => realized_params(
                fuel,
                e1,
                ps,
                m,
                i + 1,
                acc.push(ParamV { annotation: ann, ty: id, ..ps[i] }),
            ),
        }
    }
}

/// The type indices of parameters.
pub open spec fn param_ids(ps: Seq<ParamV>) -> Seq<TypeId> {
    ps.map_values(|p: ParamV| p.ty)
}

/// The engine with the realized form of a template staged, under its name.
pub open spec fn staged(
    fuel: nat,
    e: EnvV,
    def: TemplateDefV,
    name: Seq<char>,
    m: Seq<(Seq<char>, TypeV)>,
) -> (EnvV, Result<(), ErrorV>)
    decreases fuel, 3int, 0int,
{
    match def {
        TemplateDefV::Struct(s) => match realized_fields(fuel, e, s.fields, m, true, 0, Seq::empty()) {
            (e1, Err(err)) => (e1, Err(err)),
            (e1, Ok(fields)) => {
                let d = StructDefinitionV { name, type_params: Seq::empty(), fields, ..s };
                let e2 = def_struct(e1, d);
                (
                    EnvV {
                        mono: MonoV { staged_structs: e2.mono.staged_structs.push(d), ..e2.mono },
                        ..e2
                    },
                    Ok(()),
                )
            },
        },
        TemplateDefV::Enum(x) => match realized_variants(fuel, e, x.variants, name, m, 0, Seq::empty()) {
            (e1, Err(err)) => (e1, Err(err)),
            (e1, Ok(variants)) => {
                let d = EnumDefinitionV { name, type_params: Seq::empty(), variants, ..x };
                let e2 = def_variants(def_enum(e1, d), variants, 0);
                (
                    EnvV { mono: MonoV { staged_enums: e2.mono.staged_enums.push(d), ..e2.mono }, ..e2 },
                    Ok(()),
                )
            },
        },
        TemplateDefV::Function(f) => match realized_params(fuel, e, f.params, m, 0, Seq::empty()) {
            (e1, Err(err)) => (e1, Err(err)),
            (e1, Ok(params)) => {
                let ret = subst_opt(f.return_type, m);
                match optional_annotated(fuel, e1, ret) {
                    (e2, Err(err)) => (e2, Err(err)),
                    (e2, Ok(inferred)) => {
                        let d = FunctionV {
                            name,
                            type_params: Seq::empty(),
                            params,
                            return_type: ret,
                            inferred_return: inferred,
                            body: subst_block(f.body, m),
                            ..f
                        };
                        let e3 = match inferred {
                            Some(id) => def_function(e2, name, param_ids(params), id),
                            None => e2,
                        };
                        (
                            EnvV {
                                mono: MonoV { staged_functions: e3.mono.staged_functions.push(d), ..e3.mono },
                                ..e3
                            },
                            Ok(()),
                        )
                    },
                }
            },
        },
    }
}

/// The index of the type that an annotation stands for, where there is one.
pub open spec fn optional_annotated(fuel: nat, e: EnvV, ann: Option<TypeV>) -> (EnvV, Result<Option<TypeId>, ErrorV>)
    decreases fuel, 1int, 0int,
{
    match ann {
        None => (e, Ok(None)),
        Some(_) => match annotated(fuel, e, ann, Seq::empty()) {
            (e1, Ok(id)) => (e1, Ok(Some(id))),
            (e1, Err(err)) => (e1, Err(err)),
        },
    }
}

/// The engine with the realized form of a template recorded.
pub open spec fn realization_recorded(e: EnvV, base: Seq<char>, args: Seq<TypeV>, name: Seq<char>, module: Seq<Seq<char>>) -> EnvV {
    EnvV {
        mono: MonoV {
            complete: e.mono.complete.push((base, args, name)),
            mono_modules: e.mono.mono_modules.insert(name, module),
            mono_instances: e.mono.mono_instances.insert(name, (base, args)),
            ..e.mono
        },
        ..e
    }
}

/// Realizes a template for concrete arguments: the name of the realized form, and whether it is
/// new. A struct or enum gets the methods of the generic implementations for it, too.
pub open spec fn realized(fuel: nat, e: EnvV, base: Seq<char>, args: Seq<TypeV>) -> (EnvV, Result<(Seq<char>, bool), ErrorV>)
    decreases fuel, 6int, 0int,
{
    match completed(e.mono.complete, base, args, 0) {
        Some(name) => (e, Ok((name, false))),
        None => if !e.mono.templates.contains_key(base) {
            (e, Err(ErrorV::TypeError("internal error: no template '"@ + base + "'"@)))
        } else {
            let (module, def) = e.mono.templates[base];
            let name = realized_name(base, c_names(args));
            let m = args_by_name(template_params(def), args);
            match staged(fuel, e, def, name, m) {
                (e1, Err(err)) => (e1, Err(err)),
                (e1, Ok(_)) => {
                    let e2 = realization_recorded(e1, base, args, name, module);
                    if def is Function {
                        (e2, Ok((name, true)))
                    } else {
                        match methods_realized(fuel, e2, base, args) {
                            (e3, Err(err)) => (e3, Err(err)),
                            (e3, Ok(_)) => (e3, Ok((name, true))),
                        }
                    }
                },
            }
        },
    }
}

/// The parameter that a method gets its receiver in.
pub open spec fn this_param(for_type: TypeV, id: TypeId) -> ParamV {
    ParamV { name: "this"@, annotation: Some(for_type), ty: id }
}

/// The indices of the types of parameters, from position `i` on, appended to `acc`.
pub open spec fn param_types(fuel: nat, e: EnvV, ps: Seq<ParamV>, i: int, acc: Seq<TypeId>) -> (EnvV, Result<Seq<TypeId>, ErrorV>)
    decreases fuel, 1int, ps.len() - i,
{
    if i < 0 || i >= ps.len() {
        (e, Ok(acc))
    } else {
        match annotated(fuel, e, ps[i].annotation, Seq::empty()) {
            (e1, Ok(id)) => param_types(fuel, e1, ps, i + 1, acc.push(id)),
            (e1, Err(err)) => (e1, Err(err)),
        }
    }
}

/// A method of an implementation as a function: under its symbol, with the receiver as its first
/// parameter; and the engine with its signature defined.
pub open spec fn prepared(
    fuel: nat,
    e: EnvV,
    trait_name: Seq<char>,
    for_type: TypeV,
    method: FunctionV,
    module: Seq<Seq<char>>,
) -> (EnvV, Result<FunctionV, ErrorV>)
    decreases fuel, 2int, 0int,
{
    let symbol = method_symbol(trait_name, for_type, method.name);
    let f = FunctionV {
        name: symbol,
        params: seq![this_param(for_type, next_id(e))] + method.params,
        ..method
    };
    let e1 = with_unknown(e);
    let e2 = EnvV { mono: MonoV { mono_modules: e1.mono.mono_modules.insert(symbol, module), ..e1.mono }, ..e1 };
    match param_types(fuel, e2, f.params, 0, Seq::empty()) {
        (e3, Err(err)) => (e3, Err(err)),
        (e3, Ok(ids)) => match annotated(fuel, e3, f.return_type, Seq::empty()) {
            (e4, Err(err)) => (e4, Err(err)),
            (e4, Ok(ret)) => (def_function(e4, symbol, ids, ret), Ok(f)),
        },
    }
}

/// The engine with the methods from position `j` on realized and staged.
pub open spec fn methods_staged(
    fuel: nat,
    e: EnvV,
    t: TemplateImplV,
    m: Seq<(Seq<char>, TypeV)>,
    for_type: TypeV,
    j: int,
) -> (EnvV, Result<(), ErrorV>)
    decreases fuel, 3int, t.methods.len() - j,
{
    if j < 0 || j >= t.methods.len() {
        (e, Ok(()))
    } else {
        match prepared(fuel, e, t.trait_name, for_type, subst_function(t.methods[j], m), t.module) {
            (e1, Err(err)) => (e1, Err(err)),
            (e1, Ok(f)) => methods_staged(
                fuel,
                EnvV {
                    mono: MonoV { staged_impl_methods: e1.mono.staged_impl_methods.push(f), ..e1.mono },
                    ..e1
                },
                t,
                m,
                for_type,
                j + 1,
            ),
        }
    }
}

/// Methods with their type parameters replaced.
pub open spec fn subst_functions(fs: Seq<FunctionV>, m: Seq<(Seq<char>, TypeV)>) -> Seq<FunctionV> {
    fs.map_values(|f: FunctionV| subst_function(f, m))
}

/// The engine with the generic implementations from position `i` on realized for a type.
pub open spec fn impls_realized(
    fuel: nat,
    e: EnvV,
    ts: Seq<TemplateImplV>,
    base: Seq<char>,
    m: Seq<(Seq<char>, TypeV)>,
    for_type: TypeV,
    i: int,
) -> (EnvV, Result<(), ErrorV>)
    decreases fuel, 4int, ts.len() - i,
{
    if i < 0 || i >= ts.len() {
        (e, Ok(()))
    } else {
        let t = ts[i];
        if !(t.for_type is Instance) || t.for_type->Instance_base != base || impl_under(
            e.mono.impls,
            key_of(for_type),
            t.trait_name,
            0,
        ) is Some {
            impls_realized(fuel, e, ts, base, m, for_type, i + 1)
        } else {
            let entry = ImplEntryV {
                trait_name: t.trait_name,
                for_type,
                methods: subst_functions(t.methods, m),
            };
            let e1 = EnvV { mono: MonoV { impls: e.mono.impls.push((key_of(for_type), entry)), ..e.mono }, ..e };
            match methods_staged(fuel, e1, t, m, for_type, 0) {
                (e2, Err(err)) => (e2, Err(err)),
                (e2, Ok(_)) => impls_realized(fuel, e2, ts, base, m, for_type, i + 1),
            }
        }
    }
}

/// The engine with the generic implementations for a template realized for concrete arguments.
pub open spec fn methods_realized(fuel: nat, e: EnvV, base: Seq<char>, args: Seq<TypeV>) -> (EnvV, Result<(), ErrorV>)
    decreases fuel, 5int, 0int,
{
    if !e.mono.templates.contains_key(base) {
        (e, Ok(()))
    } else {
        impls_realized(
            fuel,
            e,
            e.mono.template_impls,
            base,
            args_by_name(template_params(e.mono.templates[base].1), args),
            TypeV::Named(realized_name(base, c_names(args))),
            0,
        )
    }
}

/// The contents of a result that is a type index.
pub open spec fn id_result(r: Result<TypeId, CompilationError>) -> Result<TypeId, ErrorV> {
    match r {
        Ok(id) => Ok(id),
        Err(e) => Err(e@),
    }
}

/// The contents of a result without a value.
pub open spec fn unit_result(r: Result<(), CompilationError>) -> Result<(), ErrorV> {
    match r {
        Ok(_) => Ok(()),
        Err(e) => Err(e@),
    }
}

/// The contents of a result that is a list of type indices.
pub open spec fn ids_result(r: Result<Vec<TypeId>, CompilationError>) -> Result<Seq<TypeId>, ErrorV> {
    match r {
        Ok(v) => Ok(v@),
        Err(e) => Err(e@),
    }
}

/// The contents of an optional borrowed type.
pub open spec fn opt_ref_v(t: Option<&Type>) -> Option<TypeV> {
    match t {
        Some(x) => Some(x@),
        None => None,
    }
}

/// An error about types.
pub fn type_error(msg: String) -> (r: CompilationError)
    ensures
        r@ == ErrorV::TypeError(msg@),
{
    CompilationError::TypeError(msg)
}

fn deep_error() -> (r: CompilationError)
    ensures
        r@ == too_deep(),
{
    CompilationError::TypeError("definitions are nested too deeply".to_owned())
}

/// The type index of a name.
pub fn find_id(m: &Vec<(String, TypeId)>, k: &str) -> (r: Option<TypeId>)
    ensures
        r == last_of(fields_v(m@), k@),
{
    let mut n: usize = m.len();
    proof {
        assert(fields_v(m@).take(n as int) =~= fields_v(m@));
    }
    while n > 0
        invariant
            n <= m@.len(),
            last_of(fields_v(m@), k@) == last_of(fields_v(m@).take(n as int), k@),
        decreases n,
    {
        proof {
            let t = fields_v(m@).take(n as int);
            assert(t.last() == (m@[n - 1].0@, m@[n - 1].1));
            assert(t.drop_last() =~= fields_v(m@).take(n - 1));
        }
        if text::text_eq(m[n - 1].0.as_str(), k) {
            return Some(m[n - 1].1);
        }
        n = n - 1;
    }
    None
}

fn find_last(ps: &Vec<(String, TypeId)>, i: usize) -> (r: TypeId)
    requires
        i < ps@.len(),
    ensures
        r == last_id(fields_v(ps@), i as int),
{
    match find_id(ps, ps[i].0.as_str()) {
        Some(id) => id,
        None => ps[i].1,
    }
}

/// The names, each with its last index.
pub(crate) fn with_last_ids(ps: &Vec<(String, TypeId)>) -> (r: Vec<(String, TypeId)>)
    ensures
        fields_v(r@) == by_last_id(fields_v(ps@)),
{
    let mut out: Vec<(String, TypeId)> = Vec::new();
    let mut i: usize = 0;
    while i < ps.len()
        invariant
            i <= ps@.len(),
            fields_v(out@) =~= by_last_id(fields_v(ps@)).take(i as int),
        decreases ps@.len() - i,
    {
        let n = ps[i].0.clone();
        let id = find_last(ps, i);
        proof {
            assert(fields_v(out@.push((n, id))) =~= fields_v(out@).push((n@, id)));
        }
        out.push((n, id));
        i = i + 1;
    }
    proof {
        assert(by_last_id(fields_v(ps@)).take(ps@.len() as int) =~= by_last_id(fields_v(ps@)));
    }
    out
}

fn map_args(ps: &Vec<TypeParam>, args: &Vec<Type>) -> (r: Vec<(String, Type)>)
    ensures
        type_pairs_v(r@) == args_by_name(type_params_v(ps@), types_v(args@)),
{
    let mut out: Vec<(String, Type)> = Vec::new();
    let ghost all = args_by_name(type_params_v(ps@), types_v(args@));
    let mut i: usize = 0;
    while i < ps.len() && i < args.len()
        invariant
            i <= ps@.len(),
            i <= args@.len(),
            all == args_by_name(type_params_v(ps@), types_v(args@)),
            type_pairs_v(out@) =~= all.take(i as int),
        decreases ps@.len() - i,
    {
        let n = ps[i].name.clone();
        let t = copy_type(&args[i]);
        proof {
            assert(type_params_v(ps@)[i as int] == ps@[i as int]@);
            assert(types_v(args@)[i as int] == args@[i as int]@);
            assert(all.take(i + 1) =~= all.take(i as int).push((n@, t@)));
            assert(type_pairs_v(out@.push((n, t))) =~= type_pairs_v(out@).push((n@, t@)));
        }
        out.push((n, t));
        i = i + 1;
    }
    proof {
        assert(all.take(all.len() as int) =~= all);
    }
    out
}

/// Maps the parameters of a template to the type indices of an application.
pub fn param_id_map(ps: &Vec<TypeParam>, ids: &Vec<TypeId>) -> (r: Vec<(String, TypeId)>)
    ensures
        fields_v(r@) == ids_by_name(type_params_v(ps@), ids@),
{
    let mut out: Vec<(String, TypeId)> = Vec::new();
    let ghost all = ids_by_name(type_params_v(ps@), ids@);
    let mut i: usize = 0;
    while i < ps.len() && i < ids.len()
        invariant
            i <= ps@.len(),
            i <= ids@.len(),
            all == ids_by_name(type_params_v(ps@), ids@),
            fields_v(out@) =~= all.take(i as int),
        decreases ps@.len() - i,
    {
        let n = ps[i].name.clone();
        let id = ids[i];
        proof {
            assert(type_params_v(ps@)[i as int] == ps@[i as int]@);
            assert(all.take(i + 1) =~= all.take(i as int).push((n@, id)));
            assert(fields_v(out@.push((n, id))) =~= fields_v(out@).push((n@, id)));
        }
        out.push((n, id));
        i = i + 1;
    }
    proof {
        assert(all.take(all.len() as int) =~= all);
    }
    out
}

fn no_params() -> (r: Vec<(String, TypeId)>)
    ensures
        fields_v(r@) == Seq::<(Seq<char>, TypeId)>::empty(),
{
    let v: Vec<(String, TypeId)> = Vec::new();
    proof {
        assert(fields_v(v@) =~= Seq::<(Seq<char>, TypeId)>::empty());
    }
    v
}

fn names_method(ms: &Vec<Function>, name: &str) -> (r: bool)
    ensures
        r == has_method(functions_v(ms@), name@),
{
    let mut i: usize = 0;
    while i < ms.len()
        invariant
            i <= ms@.len(),
            forall|j: int| 0 <= j < i ==> (#[trigger] functions_v(ms@)[j]).name != name@,
        decreases ms@.len() - i,
    {
        assert(functions_v(ms@)[i as int] == ms@[i as int]@);
        if text::text_eq(ms[i].name.as_str(), name) {
            return true;
        }
        i = i + 1;
    }
    false
}

impl TypeInferencer {
    /// Whether a name is that of a generic struct.
    pub fn is_template_struct(&self, name: &str) -> (r: bool)
        ensures
            r == is_struct_template(self@, name@),
    {
        match self.monomorphs.templates.get(name) {
            Some(t) => matches!(&t.1, TemplateDef::Struct(_)),
            None => false,
        }
    }

    /// Whether a name is that of a generic enum.
    pub fn is_template_enum(&self, name: &str) -> (r: bool)
        ensures
            r == is_enum_template(self@, name@),
    {
        match self.monomorphs.templates.get(name) {
            Some(t) => matches!(&t.1, TemplateDef::Enum(_)),
            None => false,
        }
    }

    /// Whether a name is that of a generic function.
    pub fn is_template_function(&self, name: &str) -> (r: bool)
        ensures
            r == is_function_template(self@, name@),
    {
        match self.monomorphs.templates.get(name) {
            Some(t) => matches!(&t.1, TemplateDef::Function(_)),
            None => false,
        }
    }

    /// Whether a name is that of a realized definition.
    pub fn is_monomorph_name(&self, name: &str) -> (r: bool)
        ensures
            r == self@.mono.mono_instances.contains_key(name@),
    {
        self.monomorphs.mono_instances.contains(name)
    }

    /// The module of a realized definition.
    pub fn monomorph_module(&self, name: &str) -> (r: Option<&ModulePath>)
        ensures
            match r {
                Some(p) => self@.mono.mono_modules.contains_key(name@) && self@.mono.mono_modules[name@] == p@,
                None => !self@.mono.mono_modules.contains_key(name@),
            },
    {
        self.monomorphs.mono_modules.get(name)
    }

    /// The implementation of a trait for a type.
    pub fn lookup_impl(&self, trait_name: &str, for_type: &Type) -> (r: Option<&ImplEntry>)
        ensures
            match r {
                Some(x) => impl_under(self@.mono.impls, key_of(for_type@), trait_name@, 0) == Some(x@),
                None => impl_under(self@.mono.impls, key_of(for_type@), trait_name@, 0) is None,
            },
    {
        let key = canonical_type_key(for_type);
        let mut i: usize = 0;
        while i < self.monomorphs.impls.len()
            invariant
                i <= self.monomorphs.impls@.len(),
                key@ == key_of(for_type@),
                impl_under(self@.mono.impls, key@, trait_name@, 0) == impl_under(
                    self@.mono.impls,
                    key@,
                    trait_name@,
                    i as int,
                ),
            decreases self.monomorphs.impls@.len() - i,
        {
            let x = &self.monomorphs.impls[i];
            assert(self@.mono.impls[i as int] == (x.0@, impl_entry_v(x.1)));
            if x.0 == key && text::text_eq(x.1.trait_name.as_str(), trait_name) {
                return Some(&x.1);
            }
            i = i + 1;
        }
        None
    }

    /// The symbol of a method of a type.
    pub fn lookup_method(&self, receiver_type: &Type, method_name: &str) -> (r: Option<String>)
        ensures
            opt_text(r) == method_under(self@.mono.impls, key_of(receiver_type@), method_name@, 0),
    {
        let key = canonical_type_key(receiver_type);
        let mut i: usize = 0;
        while i < self.monomorphs.impls.len()
            invariant
                i <= self.monomorphs.impls@.len(),
                key@ == key_of(receiver_type@),
                method_under(self@.mono.impls, key@, method_name@, 0) == method_under(
                    self@.mono.impls,
                    key@,
                    method_name@,
                    i as int,
                ),
            decreases self.monomorphs.impls@.len() - i,
        {
            let x = &self.monomorphs.impls[i];
            assert(self@.mono.impls[i as int] == (x.0@, impl_entry_v(x.1)));
            if x.0 == key && names_method(&x.1.methods, method_name) {
                return Some(impl_method_symbol(x.1.trait_name.as_str(), &x.1.for_type, method_name));
            }
            i = i + 1;
        }
        None
    }

    /// The types of all indices, where all are known.
    pub fn resolve_all(&self, ids: &Vec<TypeId>) -> (r: Option<Vec<Type>>)
        ensures
            match r {
                Some(v) => all_known(self@.store, ids@, 0, Seq::empty()) == Some(types_v(v@)),
                None => all_known(self@.store, ids@, 0, Seq::empty()) is None,
            },
    {
        let mut out: Vec<Type> = Vec::new();
        let mut i: usize = 0;
        proof {
            assert(types_v(out@) =~= Seq::<TypeV>::empty());
        }
        while i < ids.len()
            invariant
                i <= ids@.len(),
                all_known(self@.store, ids@, 0, Seq::empty()) == all_known(
                    self@.store,
                    ids@,
                    i as int,
                    types_v(out@),
                ),
            decreases ids@.len() - i,
        {
            match self.store.resolve(ids[i]) {
                Ok(t) => {
                    proof {
                        assert(types_v(out@.push(t)) =~= types_v(out@).push(t@));
                    }
                    out.push(t);
                },
                Err(_) => {
                    return None;
                },
            }
            i = i + 1;
        }
        Some(out)
    }

    fn resolve_params(&self, ps: &Vec<(String, TypeId)>) -> (r: Vec<(String, Type)>)
        ensures
            type_pairs_v(r@) == known_params(self@.store, fields_v(ps@), 0, Seq::empty()),
    {
        let mut out: Vec<(String, Type)> = Vec::new();
        let mut i: usize = 0;
        proof {
            assert(type_pairs_v(out@) =~= Seq::<(Seq<char>, TypeV)>::empty());
        }
        while i < ps.len()
            invariant
                i <= ps@.len(),
                known_params(self@.store, fields_v(ps@), 0, Seq::empty()) == known_params(
                    self@.store,
                    fields_v(ps@),
                    i as int,
                    type_pairs_v(out@),
                ),
            decreases ps@.len() - i,
        {
            assert(fields_v(ps@)[i as int] == (ps@[i as int].0@, ps@[i as int].1));
            match self.store.resolve(find_last(ps, i)) {
                Ok(t) => {
                    let n = ps[i].0.clone();
                    proof {
                        assert(type_pairs_v(out@.push((n, t))) =~= type_pairs_v(out@).push((n@, t@)));
                    }
                    out.push((n, t));
                },
                Err(_) => {},
            }
            i = i + 1;
        }
        out
    }

    /// The index of the type that an annotation stands for.
    pub fn type_id_from_annotation(&mut self, ann: Option<&Type>, params: &Vec<(String, TypeId)>, depth: usize) -> (r: Result<
        TypeId,
        CompilationError,
    >)
        ensures
            (final(self)@, id_result(r)) == annotated(depth as nat, old(self)@, opt_ref_v(ann), fields_v(params@)),
        decreases depth, 0int, 1int,
    {
        broadcast use lemma_type_v;

        match ann {
            None => Ok(self.unknown()),
            Some(Type::TypeParam(name)) => match find_id(params, name.as_str()) {
                Some(id) => Ok(id),
                None => Err(
                    type_error(
                        "type parameter '".to_owned().concat(name.as_str()).concat(
                            "' used outside of its generic definition",
                        ),
                    ),
                ),
            },
            Some(t) => self.type_id_of(t, params, depth),
        }
    }

    #[verifier::spinoff_prover]
    fn type_id_of(&mut self, t: &Type, params: &Vec<(String, TypeId)>, depth: usize) -> (r: Result<
        TypeId,
        CompilationError,
    >)
        requires
            !(t@ is TypeParam),
        ensures
            (final(self)@, id_result(r)) == annotated(depth as nat, old(self)@, Some(t@), fields_v(params@)),
        decreases depth, 0int, 0int,
    {
        proof {
            lemma_type_v(*t);
        }

        if depth == 0 {
            return Err(deep_error());
        }
        let none: Vec<Type> = Vec::new();
        proof {
            assert(types_v(none@) =~= Seq::<TypeV>::empty());
        }
        match t {
            Type::Instance { base, args } => self.application_id(base.as_str(), args, params, depth - 1),
            Type::Named(name) => if self.is_template_struct(name.as_str()) || self.is_template_enum(name.as_str()) {
                self.application_id(name.as_str(), &none, params, depth - 1)
            } else {
                Ok(self.substituted_id(t, params))
            },
            _ => Ok(self.substituted_id(t, params)),
        }
    }

    fn application_id(&mut self, base: &str, args: &Vec<Type>, params: &Vec<(String, TypeId)>, depth: usize) -> (r: Result<
        TypeId,
        CompilationError,
    >)
        ensures
            (final(self)@, id_result(r)) == only_type(
                applied(depth as nat, old(self)@, base@, types_v(args@), fields_v(params@)),
            ),
        decreases depth, 7int, 0int,
    {
        match self.instance_params_and_type(base, args, params, depth) {
            Ok((_, id)) => Ok(id),
            Err(err) => Err(err),
        }
    }

    fn substituted_id(&mut self, t: &Type, params: &Vec<(String, TypeId)>) -> (r: TypeId)
        ensures
            r == next_id(old(self)@),
            final(self)@ == with_known(
                old(self)@,
                subst(t@, known_params(old(self)@.store, fields_v(params@), 0, Seq::empty())),
            ),
    {
        let m = self.resolve_params(params);
        let u = substitute_type(t, &m);
        self.known(u)
    }

    fn broken_one(&self, cs: &Vec<Type>, arg: &Type) -> (r: Option<CompilationError>)
        ensures
            match r {
                Some(err) => broken_constraint(self@, types_v(cs@), arg@, 0) == Some(err@),
                None => broken_constraint(self@, types_v(cs@), arg@, 0) is None,
            },
    {
        let mut j: usize = 0;
        while j < cs.len()
            invariant
                j <= cs@.len(),
                broken_constraint(self@, types_v(cs@), arg@, 0) == broken_constraint(
                    self@,
                    types_v(cs@),
                    arg@,
                    j as int,
                ),
            decreases cs@.len() - j,
        {
            assert(types_v(cs@)[j as int] == cs@[j as int]@);
            match constraint_trait_name(&cs[j]) {
                Some(n) => {
                    if self.lookup_impl(n.as_str(), arg).is_none() {
                        return Some(
                            type_error(
                                "type '".to_owned().concat(arg.to_c_name().as_str()).concat(
                                    "' does not implement trait '",
                                ).concat(n.as_str()).concat("'"),
                            ),
                        );
                    }
                },
                None => {},
            }
            j = j + 1;
        }
        None
    }

    fn broken(&self, declared: &Vec<TypeParam>, args: &Vec<Type>) -> (r: Option<CompilationError>)
        ensures
            match r {
                Some(err) => broken_constraints(self@, type_params_v(declared@), types_v(args@), 0) == Some(err@),
                None => broken_constraints(self@, type_params_v(declared@), types_v(args@), 0) is None,
            },
    {
        let mut i: usize = 0;
        while i < args.len() && i < declared.len()
            invariant
                i <= args@.len(),
                i <= declared@.len(),
                broken_constraints(self@, type_params_v(declared@), types_v(args@), 0) == broken_constraints(
                    self@,
                    type_params_v(declared@),
                    types_v(args@),
                    i as int,
                ),
            decreases args@.len() - i,
        {
            assert(types_v(args@)[i as int] == args@[i as int]@);
            assert(type_params_v(declared@)[i as int] == declared@[i as int]@);
            if is_concrete(&args[i]) {
                match self.broken_one(&declared[i].constraints, &args[i]) {
                    Some(err) => {
                        return Some(err);
                    },
                    None => {},
                }
            }
            i = i + 1;
        }
        None
    }

    fn annotation_ids(&mut self, ts: &Vec<Type>, params: &Vec<(String, TypeId)>, depth: usize) -> (r: Result<
        Vec<TypeId>,
        CompilationError,
    >)
        ensures
            (final(self)@, ids_result(r)) == annotated_all(
                depth as nat,
                old(self)@,
                types_v(ts@),
                fields_v(params@),
                0,
                Seq::empty(),
            ),
        decreases depth, 1int, 0int,
    {
        let ghost e0 = self@;
        let mut ids: Vec<TypeId> = Vec::new();
        let mut i: usize = 0;
        while i < ts.len()
            invariant
                i <= ts@.len(),
                e0 == old(self)@,
                annotated_all(depth as nat, e0, types_v(ts@), fields_v(params@), 0, Seq::empty())
                    == annotated_all(depth as nat, self@, types_v(ts@), fields_v(params@), i as int, ids@),
            decreases ts@.len() - i,
        {
            assert(types_v(ts@)[i as int] == ts@[i as int]@);
            match self.type_id_from_annotation(Some(&ts[i]), params, depth) {
                Ok(id) => {
                    ids.push(id);
                },
                Err(err) => return Err(err),
            }
            i = i + 1;
        }
        Ok(ids)
    }

    fn missing_ids(
        &mut self,
        declared: &Vec<TypeParam>,
        params: &Vec<(String, TypeId)>,
        from: usize,
        some: Vec<TypeId>,
        depth: usize,
    ) -> (r: Result<Vec<TypeId>, CompilationError>)
        requires
            from <= declared@.len(),
        ensures
            (final(self)@, ids_result(r)) == missing_args(
                depth as nat,
                old(self)@,
                type_params_v(declared@),
                fields_v(params@),
                from as int,
                some@,
            ),
        decreases depth, 1int, 0int,
    {
        let ghost e0 = self@;
        let mut ids = some;
        let mut i: usize = from;
        while i < declared.len()
            invariant
                from <= i <= declared@.len(),
                e0 == old(self)@,
                missing_args(depth as nat, e0, type_params_v(declared@), fields_v(params@), from as int, some@)
                    == missing_args(
                    depth as nat,
                    self@,
                    type_params_v(declared@),
                    fields_v(params@),
                    i as int,
                    ids@,
                ),
            decreases declared@.len() - i,
        {
            assert(type_params_v(declared@)[i as int] == declared@[i as int]@);
            match &declared[i].default {
                Some(t) => match self.type_id_from_annotation(Some(t), params, depth) {
                    Ok(id) => {
                        ids.push(id);
                    },
                    Err(err) => return Err(err),
                },
                None => {
                    let id = self.unknown();
                    match default_for_constraints(&declared[i].constraints, &self.monomorphs.defaults) {
                        Some(t) => {
                            self.store.bind_if_unbound(id, t);
                        },
                        None => {},
                    }
                    ids.push(id);
                },
            }
            i = i + 1;
        }
        Ok(ids)
    }

    /// The types of the parameters of a generic application, and the type of the application.
    pub fn instance_params_and_type(
        &mut self,
        base: &str,
        supplied: &Vec<Type>,
        params: &Vec<(String, TypeId)>,
        depth: usize,
    ) -> (r: Result<(Vec<TypeId>, TypeId), CompilationError>)
        ensures
            (final(self)@, pair_result(r)) == applied(
                depth as nat,
                old(self)@,
                base@,
                types_v(supplied@),
                fields_v(params@),
            ),
        decreases depth, 6int, 0int,
    {
        broadcast use lemma_type_v;

        let ghost e0 = self@;
        let declared: Vec<TypeParam> = match self.monomorphs.templates.get(base) {
            Some(t) => crate::decl::copy_type_params(t.1.type_params()),
            None => {
                return Err(type_error("type '".to_owned().concat(base).concat("' is not generic")));
            },
        };
        proof {
            assert(types_v(supplied@).len() == supplied@.len());
            assert(type_params_v(declared@).len() == declared@.len());
        }
        if supplied.len() > declared.len() {
            return Err(
                type_error(
                    "type '".to_owned().concat(base).concat("' expects ").concat(
                        text::decimal(declared.len() as u64).as_str(),
                    ).concat(" type argument(s), got ").concat(text::decimal(supplied.len() as u64).as_str()),
                ),
            );
        }
        let some = match self.annotation_ids(supplied, params, depth) {
            Ok(v) => v,
            Err(err) => return Err(err),
        };
        let ids = match self.missing_ids(&declared, params, supplied.len(), some, depth) {
            Ok(v) => v,
            Err(err) => return Err(err),
        };
        match self.resolve_all(&ids) {
            Some(args) => {
                match self.broken(&declared, &args) {
                    Some(err) => {
                        return Err(err);
                    },
                    None => {},
                }
                if depth == 0 {
                    return Err(deep_error());
                }
                match self.instantiate(base, &args, depth - 1) {
                    Ok((name, _)) => {
                        let id = self.known(Type::Named(name));
                        Ok((ids, id))
                    },
                    Err(err) => Err(err),
                }
            },
            None => {
                let ghost e2 = self@;
                let var_id = self.unknown();
                let inst = PendingInstance { base: base.to_owned(), params: copy_ids(&ids) };
                let gen = PendingGeneric { base: base.to_owned(), params: copy_ids(&ids), call_return: None };
                let ghost before = self.monomorphs;
                proof {
                    assert(instances_v(before.instance_types@.push((var_id, inst))) =~= instances_v(
                        before.instance_types@,
                    ).push((var_id, inst@)));
                    assert(pending_generics_v(before.pending@.push(gen)) =~= pending_generics_v(before.pending@).push(
                        gen@,
                    ));
                }
                self.monomorphs.instance_types.push((var_id, inst));
                self.monomorphs.pending.push(gen);
                proof {
                    assert(self@ == application_recorded(e2, base@, ids@));
                }
                Ok((ids, var_id))
            },
        }
    }

    fn realize_fields(&mut self, fs: &Vec<Field>, m: &Vec<(String, Type)>, with_defaults: bool, depth: usize) -> (r: Result<
        Vec<Field>,
        CompilationError,
    >)
        ensures
            (final(self)@, fields_result(r)) == realized_fields(
                depth as nat,
                old(self)@,
                field_list_v(fs@),
                type_pairs_v(m@),
                with_defaults,
                0,
                Seq::empty(),
            ),
        decreases depth, 1int, 0int,
    {
        let ghost e0 = self@;
        let ghost fv = field_list_v(fs@);
        let ghost mv = type_pairs_v(m@);
        let none = no_params();
        let mut out: Vec<Field> = Vec::new();
        let mut i: usize = 0;
        proof {
            assert(field_list_v(out@) =~= Seq::<FieldV>::empty());
        }
        while i < fs.len()
            invariant
                i <= fs@.len(),
                e0 == old(self)@,
                fv == field_list_v(fs@),
                mv == type_pairs_v(m@),
                fields_v(none@) == Seq::<(Seq<char>, TypeId)>::empty(),
                realized_fields(depth as nat, e0, fv, mv, with_defaults, 0, Seq::empty()) == realized_fields(
                    depth as nat,
                    self@,
                    fv,
                    mv,
                    with_defaults,
                    i as int,
                    field_list_v(out@),
                ),
            decreases fs@.len() - i,
        {
            assert(fv[i as int] == fs@[i as int]@);
            let annotation = substitute_opt(&fs[i].annotation, m);
            let id = match self.type_id_from_annotation(annotation.as_ref(), &none, depth) {
                Ok(id) => id,
                Err(err) => return Err(err),
            };
            let default = if with_defaults {
                substitute_opt_expr(&fs[i].default, m)
            } else {
                crate::ast::copy_opt_expr(&fs[i].default)
            };
            let f = Field { name: fs[i].name.clone(), ty: id, annotation, is_const: fs[i].is_const, default };
            proof {
                assert(field_list_v(out@.push(f)) =~= field_list_v(out@).push(field_v(f)));
            }
            out.push(f);
            i = i + 1;
        }
        Ok(out)
    }

    fn realize_variants(&mut self, vs: &Vec<EnumVariant>, name: &String, m: &Vec<(String, Type)>, depth: usize) -> (r: Result<
        Vec<EnumVariant>,
        CompilationError,
    >)
        ensures
            (final(self)@, variants_result(r)) == realized_variants(
                depth as nat,
                old(self)@,
                enum_variants_v(vs@),
                name@,
                type_pairs_v(m@),
                0,
                Seq::empty(),
            ),
        decreases depth, 2int, 0int,
    {
        let ghost e0 = self@;
        let ghost vv = enum_variants_v(vs@);
        let ghost mv = type_pairs_v(m@);
        let mut out: Vec<EnumVariant> = Vec::new();
        let mut i: usize = 0;
        proof {
            assert(enum_variants_v(out@) =~= Seq::<EnumVariantV>::empty());
        }
        while i < vs.len()
            invariant
                i <= vs@.len(),
                e0 == old(self)@,
                vv == enum_variants_v(vs@),
                mv == type_pairs_v(m@),
                realized_variants(depth as nat, e0, vv, name@, mv, 0, Seq::empty()) == realized_variants(
                    depth as nat,
                    self@,
                    vv,
                    name@,
                    mv,
                    i as int,
                    enum_variants_v(out@),
                ),
            decreases vs@.len() - i,
        {
            assert(vv[i as int] == vs@[i as int]@);
            let args = match self.realize_fields(&vs[i].args, m, false, depth) {
                Ok(v) => v,
                Err(err) => return Err(err),
            };
            let v = EnumVariant {
                name: vs[i].name.clone(),
                parent: name.clone(),
                args,
                default: substitute_opt_expr(&vs[i].default, m),
                metadata: copy_metadatas(&vs[i].metadata),
            };
            proof {
                assert(enum_variants_v(out@.push(v)) =~= enum_variants_v(out@).push(enum_variant_v(v)));
            }
            out.push(v);
            i = i + 1;
        }
        Ok(out)
    }

    fn realize_params(&mut self, ps: &Vec<Param>, m: &Vec<(String, Type)>, depth: usize) -> (r: Result<
        Vec<Param>,
        CompilationError,
    >)
        ensures
            (final(self)@, params_result(r)) == realized_params(
                depth as nat,
                old(self)@,
                params_v(ps@),
                type_pairs_v(m@),
                0,
                Seq::empty(),
            ),
        decreases depth, 1int, 0int,
    {
        let ghost e0 = self@;
        let ghost pv = params_v(ps@);
        let ghost mv = type_pairs_v(m@);
        let none = no_params();
        let mut out: Vec<Param> = Vec::new();
        let mut i: usize = 0;
        proof {
            assert(params_v(out@) =~= Seq::<ParamV>::empty());
        }
        while i < ps.len()
            invariant
                i <= ps@.len(),
                e0 == old(self)@,
                pv == params_v(ps@),
                mv == type_pairs_v(m@),
                fields_v(none@) == Seq::<(Seq<char>, TypeId)>::empty(),
                realized_params(depth as nat, e0, pv, mv, 0, Seq::empty()) == realized_params(
                    depth as nat,
                    self@,
                    pv,
                    mv,
                    i as int,
                    params_v(out@),
                ),
            decreases ps@.len() - i,
        {
            assert(pv[i as int] == ps@[i as int]@);
            let annotation = substitute_opt(&ps[i].annotation, m);
            let id = match self.type_id_from_annotation(annotation.as_ref(), &none, depth) {
                Ok(id) => id,
                Err(err) => return Err(err),
            };
            let p = Param { name: ps[i].name.clone(), annotation, ty: id };
            proof {
                assert(params_v(out@.push(p)) =~= params_v(out@).push(param_v(p)));
            }
            out.push(p);
            i = i + 1;
        }
        Ok(out)
    }

    /// Stages the realized form of a template.
    fn stage(&mut self, def: &TemplateDef, name: &String, m: &Vec<(String, Type)>, depth: usize) -> (r: Result<
        (),
        CompilationError,
    >)
        ensures
            (final(self)@, unit_result(r)) == staged(
                depth as nat,
                old(self)@,
                template_v(*def),
                name@,
                type_pairs_v(m@),
            ),
        decreases depth, 3int, 0int,
    {
        match def {
            TemplateDef::Struct(s) => {
                let fields = match self.realize_fields(&s.fields, m, true, depth) {
                    Ok(v) => v,
                    Err(err) => return Err(err),
                };
                let d = StructDefinition {
                    name: name.clone(),
                    type_params: Vec::new(),
                    fields,
                    is_public: s.is_public,
                    metadata: copy_metadatas(&s.metadata),
                };
                proof {
                    assert(d@.type_params =~= Seq::<TypeParamV>::empty());
                }
                let ghost before = self.monomorphs.staged_structs@;
                self.symbols.define_struct(copy_struct_definition(&d));
                proof {
                    assert(struct_definitions_v(before.push(d)) =~= struct_definitions_v(before).push(
                        struct_definition_v(d),
                    ));
                }
                self.monomorphs.staged_structs.push(d);
                Ok(())
            },
            TemplateDef::Enum(x) => {
                let variants = match self.realize_variants(&x.variants, name, m, depth) {
                    Ok(v) => v,
                    Err(err) => return Err(err),
                };
                let d = EnumDefinition {
                    name: name.clone(),
                    type_params: Vec::new(),
                    variants,
                    is_public: x.is_public,
                    metadata: copy_metadatas(&x.metadata),
                };
                proof {
                    assert(d@.type_params =~= Seq::<TypeParamV>::empty());
                }
                let ghost before = self.monomorphs.staged_enums@;
                self.symbols.define_enum(copy_enum_definition(&d));
                self.define_variants(&d.variants);
                proof {
                    assert(enum_definitions_v(self.monomorphs.staged_enums@.push(d)) =~= enum_definitions_v(
                        self.monomorphs.staged_enums@,
                    ).push(enum_definition_v(d)));
                }
                self.monomorphs.staged_enums.push(d);
                Ok(())
            },
            TemplateDef::Function(f) => {
                let params = match self.realize_params(&f.params, m, depth) {
                    Ok(v) => v,
                    Err(err) => return Err(err),
                };
                let return_type = substitute_opt(&f.return_type, m);
                let none = no_params();
                let inferred_return = match &return_type {
                    Some(t) => match self.type_id_from_annotation(Some(t), &none, depth) {
                        Ok(id) => Some(id),
                        Err(err) => return Err(err),
                    },
                    None => None,
                };
                let ids = ids_of_params(&params);
                let d = Function {
                    name: name.clone(),
                    type_params: Vec::new(),
                    params,
                    return_type,
                    inferred_return,
                    body: substitute_block(&f.body, m),
                    is_public: f.is_public,
                    metadata: copy_metadatas(&f.metadata),
                };
                proof {
                    assert(d@.type_params =~= Seq::<TypeParamV>::empty());
                }
                match inferred_return {
                    Some(id) => {
                        self.symbols.define_function(name.as_str(), ids, id);
                    },
                    None => {},
                }
                proof {
                    assert(functions_v(self.monomorphs.staged_functions@.push(d)) =~= functions_v(
                        self.monomorphs.staged_functions@,
                    ).push(function_v(d)));
                }
                self.monomorphs.staged_functions.push(d);
                Ok(())
            },
        }
    }

    fn find_completed(&self, base: &str, args: &Vec<Type>) -> (r: Option<String>)
        ensures
            opt_text(r) == completed(self@.mono.complete, base@, types_v(args@), 0),
    {
        let mut i: usize = 0;
        while i < self.monomorphs.complete.len()
            invariant
                i <= self.monomorphs.complete@.len(),
                completed(self@.mono.complete, base@, types_v(args@), 0) == completed(
                    self@.mono.complete,
                    base@,
                    types_v(args@),
                    i as int,
                ),
            decreases self.monomorphs.complete@.len() - i,
        {
            let x = &self.monomorphs.complete[i];
            assert(self@.mono.complete[i as int] == (x.0@, types_v(x.1@), x.2@));
            if text::text_eq(x.0.as_str(), base) && same_types(&x.1, args) {
                return Some(x.2.clone());
            }
            i = i + 1;
        }
        None
    }

    fn record_realization(&mut self, base: &str, args: &Vec<Type>, name: &String, module: ModulePath)
        ensures
            final(self)@ == realization_recorded(old(self)@, base@, types_v(args@), name@, module@),
    {
        let ghost m0 = self.monomorphs;
        let entry = (base.to_owned(), copy_types(args), name.clone());
        let ghost mp = module@;
        proof {
            assert(complete_v(m0.complete@.push(entry)) =~= complete_v(m0.complete@).push(
                (entry.0@, types_v(entry.1@), entry.2@),
            ));
        }
        self.monomorphs.complete.push(entry);
        self.monomorphs.mono_modules.insert(name.clone(), module);
        let pair = (base.to_owned(), copy_types(args));
        self.monomorphs.mono_instances.insert(name.clone(), pair);
        proof {
            assert(path_map_v(self.monomorphs.mono_modules.map()) =~= path_map_v(m0.mono_modules.map()).insert(
                name@,
                mp,
            ));
            assert(instance_map_v(self.monomorphs.mono_instances.map()) =~= instance_map_v(
                m0.mono_instances.map(),
            ).insert(name@, (base@, types_v(args@))));
        }
    }

    /// Realizes a template for concrete arguments.
    pub fn instantiate(&mut self, base: &str, args: &Vec<Type>, depth: usize) -> (r: Result<
        (String, bool),
        CompilationError,
    >)
        ensures
            (final(self)@, named_result(r)) == realized(depth as nat, old(self)@, base@, types_v(args@)),
            grown(old(self)@.mono.complete, final(self)@.mono.complete),
            names_fit(old(self)@.mono.complete) ==> names_fit(final(self)@.mono.complete),
            names_fit(old(self)@.mono.complete) && r is Ok ==> (r->Ok_0).0@ == realized_name(
                base@,
                c_names(types_v(args@)),
            ),
        decreases depth, 6int, 0int,
    {
        proof {
            lemma_realized(depth as nat, old(self)@, base@, types_v(args@));
            law_realized_names_fit(depth as nat, old(self)@, base@, types_v(args@), old(self)@);
        }
        match self.find_completed(base, args) {
            Some(name) => {
                return Ok((name, false));
            },
            None => {},
        }
        let (module, def) = match self.monomorphs.templates.get(base) {
            Some(t) => (copy_path(&t.0), copy_template(&t.1)),
            None => {
                return Err(type_error("internal error: no template '".to_owned().concat(base).concat("'")));
            },
        };
        let name = monomorph_name(base, args);
        let m = map_args(def.type_params(), args);
        match self.stage(&def, &name, &m, depth) {
            Ok(_) => {},
            Err(err) => return Err(err),
        }
        self.record_realization(base, args, &name, module);
        match def {
            TemplateDef::Function(_) => {},
            _ => match self.realize_template_impls(base, args, depth) {
                Ok(_) => {},
                Err(err) => return Err(err),
            },
        }
        Ok((name, true))
    }

    fn param_type_ids(&mut self, ps: &Vec<Param>, depth: usize) -> (r: Result<Vec<TypeId>, CompilationError>)
        ensures
            (final(self)@, ids_result(r)) == param_types(
                depth as nat,
                old(self)@,
                params_v(ps@),
                0,
                Seq::empty(),
            ),
        decreases depth, 1int, 0int,
    {
        let ghost e0 = self@;
        let ghost pv = params_v(ps@);
        let none = no_params();
        let mut ids: Vec<TypeId> = Vec::new();
        let mut i: usize = 0;
        while i < ps.len()
            invariant
                i <= ps@.len(),
                e0 == old(self)@,
                pv == params_v(ps@),
                fields_v(none@) == Seq::<(Seq<char>, TypeId)>::empty(),
                param_types(depth as nat, e0, pv, 0, Seq::empty()) == param_types(
                    depth as nat,
                    self@,
                    pv,
                    i as int,
                    ids@,
                ),
            decreases ps@.len() - i,
        {
            assert(pv[i as int] == ps@[i as int]@);
            match self.type_id_from_annotation(ps[i].annotation.as_ref(), &none, depth) {
                Ok(id) => {
                    ids.push(id);
                },
                Err(err) => return Err(err),
            }
            i = i + 1;
        }
        Ok(ids)
    }

    /// Makes a method of an implementation a function, and defines its signature.
    pub fn build_prepared_impl_method(
        &mut self,
        trait_name: &str,
        for_type: &Type,
        method: &Function,
        module: &ModulePath,
        depth: usize,
    ) -> (r: Result<Function, CompilationError>)
        ensures
            (final(self)@, function_result(r)) == prepared(
                depth as nat,
                old(self)@,
                trait_name@,
                for_type@,
                method@,
                module@,
            ),
        decreases depth, 2int, 0int,
    {
        let symbol = impl_method_symbol(trait_name, for_type, method.name.as_str());
        let this_id = self.unknown();
        let mut params: Vec<Param> = Vec::new();
        let this = Param { name: "this".to_owned(), annotation: Some(copy_type(for_type)), ty: this_id };
        params.push(this);
        let ghost full = seq![this@] + params_v(method.params@);
        proof {
            assert(params_v(params@) =~= full.take(1));
        }
        let mut i: usize = 0;
        while i < method.params.len()
            invariant
                i <= method.params@.len(),
                full == seq![this@] + params_v(method.params@),
                params_v(params@) =~= full.take(i + 1),
            decreases method.params@.len() - i,
        {
            let p = copy_param(&method.params[i]);
            proof {
                assert(full[i + 1] == p@);
                assert(full.take(i + 2) =~= full.take(i + 1).push(p@));
                assert(params_v(params@.push(p)) =~= params_v(params@).push(p@));
            }
            params.push(p);
            i = i + 1;
        }
        proof {
            assert(full.take(full.len() as int) =~= full);
        }
        let f = Function {
            name: symbol.clone(),
            type_params: crate::decl::copy_type_params(&method.type_params),
            params,
            return_type: crate::types::copy_opt_type(&method.return_type),
            inferred_return: method.inferred_return,
            body: crate::ast::copy_block(&method.body),
            is_public: method.is_public,
            metadata: copy_metadatas(&method.metadata),
        };
        let ghost mm = self.monomorphs.mono_modules.map();
        self.monomorphs.mono_modules.insert(symbol.clone(), copy_path(module));
        proof {
            assert(path_map_v(self.monomorphs.mono_modules.map()) =~= path_map_v(mm).insert(symbol@, module@));
        }
        let ids = match self.param_type_ids(&f.params, depth) {
            Ok(v) => v,
            Err(err) => return Err(err),
        };
        let none = no_params();
        let ret = match self.type_id_from_annotation(f.return_type.as_ref(), &none, depth) {
            Ok(id) => id,
            Err(err) => return Err(err),
        };
        self.symbols.define_function(symbol.as_str(), ids, ret);
        Ok(f)
    }

    fn stage_methods(&mut self, t: &TemplateImpl, m: &Vec<(String, Type)>, for_type: &Type, depth: usize) -> (r: Result<
        (),
        CompilationError,
    >)
        ensures
            (final(self)@, unit_result(r)) == methods_staged(
                depth as nat,
                old(self)@,
                t@,
                type_pairs_v(m@),
                for_type@,
                0,
            ),
        decreases depth, 3int, 0int,
    {
        let ghost e0 = self@;
        let ghost mv = type_pairs_v(m@);
        let mut j: usize = 0;
        while j < t.methods.len()
            invariant
                j <= t.methods@.len(),
                e0 == old(self)@,
                mv == type_pairs_v(m@),
                methods_staged(depth as nat, e0, t@, mv, for_type@, 0) == methods_staged(
                    depth as nat,
                    self@,
                    t@,
                    mv,
                    for_type@,
                    j as int,
                ),
            decreases t.methods@.len() - j,
        {
            assert(t@.methods[j as int] == t.methods@[j as int]@);
            let concrete_method = substitute_function(&t.methods[j], m);
            let f = match self.build_prepared_impl_method(
                t.trait_name.as_str(),
                for_type,
                &concrete_method,
                &t.module,
                depth,
            ) {
                Ok(f) => f,
                Err(err) => return Err(err),
            };
            proof {
                assert(functions_v(self.monomorphs.staged_impl_methods@.push(f)) =~= functions_v(
                    self.monomorphs.staged_impl_methods@,
                ).push(f@));
            }
            self.monomorphs.staged_impl_methods.push(f);
            j = j + 1;
        }
        Ok(())
    }

    /// Realizes the generic implementations for a template for concrete arguments.
    pub fn realize_template_impls(&mut self, base: &str, args: &Vec<Type>, depth: usize) -> (r: Result<
        (),
        CompilationError,
    >)
        ensures
            (final(self)@, unit_result(r)) == methods_realized(
                depth as nat,
                old(self)@,
                base@,
                types_v(args@),
            ),
        decreases depth, 5int, 0int,
    {
        let m = match self.monomorphs.templates.get(base) {
            Some(t) => map_args(t.1.type_params(), args),
            None => {
                return Ok(());
            },
        };
        let for_type = Type::Named(monomorph_name(base, args));
        let ts = crate::engine::copy_template_impls(&self.monomorphs.template_impls);
        let ghost e0 = self@;
        let ghost tv = template_impls_v(ts@);
        let ghost mv = type_pairs_v(m@);
        let mut i: usize = 0;
        while i < ts.len()
            invariant
                i <= ts@.len(),
                e0 == old(self)@,
                tv == template_impls_v(ts@),
                mv == type_pairs_v(m@),
                impls_realized(depth as nat, e0, tv, base@, mv, for_type@, 0) == impls_realized(
                    depth as nat,
                    self@,
                    tv,
                    base@,
                    mv,
                    for_type@,
                    i as int,
                ),
                methods_realized(depth as nat, e0, base@, types_v(args@)) == impls_realized(
                    depth as nat,
                    e0,
                    tv,
                    base@,
                    mv,
                    for_type@,
                    0,
                ),
            decreases ts@.len() - i,
        {
            broadcast use lemma_type_v;

            assert(tv[i as int] == ts@[i as int]@);
            let applies = match &ts[i].for_type {
                Type::Instance { base: b, args: _ } => text::text_eq(b.as_str(), base),
                _ => false,
            };
            if applies && self.lookup_impl(ts[i].trait_name.as_str(), &for_type).is_none() {
                let methods = substitute_functions(&ts[i].methods, &m);
                let entry = ImplEntry {
                    trait_name: ts[i].trait_name.clone(),
                    for_type: copy_type(&for_type),
                    methods,
                };
                let key = canonical_type_key(&for_type);
                proof {
                    assert(impls_v(self.monomorphs.impls@.push((key, entry))) =~= impls_v(
                        self.monomorphs.impls@,
                    ).push((key@, entry@)));
                }
                self.monomorphs.impls.push((key, entry));
                match self.stage_methods(&ts[i], &m, &for_type, depth) {
                    Ok(_) => {},
                    Err(err) => return Err(err),
                }
            }
            i = i + 1;
        }
        Ok(())
    }
}

fn substitute_functions(fs: &Vec<Function>, m: &Vec<(String, Type)>) -> (r: Vec<Function>)
    ensures
        functions_v(r@) == subst_functions(functions_v(fs@), type_pairs_v(m@)),
{
    let mut out: Vec<Function> = Vec::new();
    let ghost all = subst_functions(functions_v(fs@), type_pairs_v(m@));
    let mut i: usize = 0;
    while i < fs.len()
        invariant
            i <= fs@.len(),
            all == subst_functions(functions_v(fs@), type_pairs_v(m@)),
            functions_v(out@) =~= all.take(i as int),
        decreases fs@.len() - i,
    {
        let f = substitute_function(&fs[i], m);
        proof {
            assert(functions_v(fs@)[i as int] == fs@[i as int]@);
            assert(all.take(i + 1) =~= all.take(i as int).push(f@));
            assert(functions_v(out@.push(f)) =~= functions_v(out@).push(f@));
        }
        out.push(f);
        i = i + 1;
    }
    proof {
        assert(all.take(all.len() as int) =~= all);
    }
    out
}

/// The type indices of parameters.
pub fn ids_of_params(ps: &Vec<Param>) -> (r: Vec<TypeId>)
    ensures
        r@ == param_ids(params_v(ps@)),
{
    let mut out: Vec<TypeId> = Vec::new();
    let mut i: usize = 0;
    while i < ps.len()
        invariant
            i <= ps@.len(),
            out@ =~= param_ids(params_v(ps@)).take(i as int),
        decreases ps@.len() - i,
    {
        assert(params_v(ps@)[i as int] == ps@[i as int]@);
        out.push(ps[i].ty);
        i = i + 1;
    }
    out
}

/// The contents of a result that is a list of types and a type.
pub open spec fn pair_result(r: Result<(Vec<TypeId>, TypeId), CompilationError>) -> Result<(Seq<TypeId>, TypeId), ErrorV> {
    match r {
        Ok((v, id)) => Ok((v@, id)),
        Err(e) => Err(e@),
    }
}

/// The contents of a result that is a name and a flag.
pub open spec fn named_result(r: Result<(String, bool), CompilationError>) -> Result<(Seq<char>, bool), ErrorV> {
    match r {
        Ok((s, b)) => Ok((s@, b)),
        Err(e) => Err(e@),
    }
}

/// The contents of a result that is a list of fields.
pub open spec fn fields_result(r: Result<Vec<Field>, CompilationError>) -> Result<Seq<FieldV>, ErrorV> {
    match r {
        Ok(v) => Ok(field_list_v(v@)),
        Err(e) => Err(e@),
    }
}

/// The contents of a result that is a list of enum variants.
pub open spec fn variants_result(r: Result<Vec<EnumVariant>, CompilationError>) -> Result<Seq<EnumVariantV>, ErrorV> {
    match r {
        Ok(v) => Ok(enum_variants_v(v@)),
        Err(e) => Err(e@),
    }
}

/// The contents of a result that is a list of parameters.
pub open spec fn params_result(r: Result<Vec<Param>, CompilationError>) -> Result<Seq<ParamV>, ErrorV> {
    match r {
        Ok(v) => Ok(params_v(v@)),
        Err(e) => Err(e@),
    }
}

/// The contents of a result that is a function.
pub open spec fn function_result(r: Result<Function, CompilationError>) -> Result<FunctionV, ErrorV> {
    match r {
        Ok(f) => Ok(f@),
        Err(e) => Err(e@),
    }
}

} // verus!
