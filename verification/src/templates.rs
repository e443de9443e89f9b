//! The generic definitions and the trait implementations of a program.
use crate::decl::{copy_enum_definition, copy_enum_variant, copy_field, copy_function, copy_functions,
    copy_struct_definition, default_specializations_v, enum_definitions_v, enum_variants_v, field_list_v,
    functions_v, impl_definitions_v, struct_definitions_v, trait_definitions_v, DefaultSpecialization,
    EnumDefinition, EnumDefinitionV, EnumVariant, EnumVariantV, Field, FieldV, Function, FunctionV,
    ImplDefinition, ImplDefinitionV, Program, ProgramV, StructDefinition, StructDefinitionV, TraitDefinition,
    TraitDefinitionV};
use crate::engine::{def_variants, impl_entry_v, impls_v, next_id, template_impl_v, template_impls_v,
    template_map_v, template_v, with_known, EnvV, ImplEntry, ImplEntryV, MonoV, TemplateDef, TemplateDefV,
    TemplateImpl, TemplateImplV, TypeInferencer};
use crate::error::{CompilationError, ErrorV};
use crate::generics::opt_error_v;
use crate::module::{copy_path, ModulePath};
use crate::monomorph::{canonical, canonical_type, canonical_type_key, constraint_trait_name, key_of,
    prepared, signatures_agree, signatures_match, some_unbound, templated, trait_of, type_error, unbound_arg,
    unit_result};
use crate::table::{with_name, Table};
use crate::text;
use crate::types::{c_name, copy_type, lemma_type_v, same_type, types_v, Type, TypeV};
use vstd::prelude::*;

verus! {

/// The engine with one more generic definition.
pub open spec fn with_template(e: EnvV, name: Seq<char>, module: Seq<Seq<char>>, t: TemplateDefV) -> EnvV {
    EnvV {
        mono: MonoV {
            templates: e.mono.templates.insert(name, (module, t)),
            template_names: with_name(e.mono.template_names, e.mono.templates.contains_key(name), name),
            ..e.mono
        },
        ..e
    }
}

/// The engine with the generic structs from position `i` on registered.
pub open spec fn struct_templates(e: EnvV, module: Seq<Seq<char>>, ds: Seq<StructDefinitionV>, i: int) -> EnvV
    decreases ds.len() - i,
{
    if i < 0 || i >= ds.len() {
        e
    } else if ds[i].type_params.len() == 0 {
        struct_templates(e, module, ds, i + 1)
    } else {
        struct_templates(with_template(e, ds[i].name, module, TemplateDefV::Struct(ds[i])), module, ds, i + 1)
    }
}

/// The engine with the generic functions from position `i` on registered.
pub open spec fn function_templates(e: EnvV, module: Seq<Seq<char>>, fs: Seq<FunctionV>, i: int) -> EnvV
    decreases fs.len() - i,
{
    if i < 0 || i >= fs.len() {
        e
    } else if fs[i].type_params.len() == 0 {
        function_templates(e, module, fs, i + 1)
    } else {
        function_templates(with_template(e, fs[i].name, module, TemplateDefV::Function(fs[i])), module, fs, i + 1)
    }
}

/// The type that an argument of a variant of a generic enum is written with.
pub open spec fn written_type(ann: Option<TypeV>) -> TypeV {
    match ann {
        Some(t) => t,
        None => TypeV::Void,
    }
}

/// The fields from position `i` on, each with the type that it is written with, appended to
/// `acc`.
pub open spec fn fields_as_written(e: EnvV, fs: Seq<FieldV>, i: int, acc: Seq<FieldV>) -> (EnvV, Seq<FieldV>)
    decreases fs.len() - i,
{
    if i < 0 || i >= fs.len() {
        (e, acc)
    } else {
        fields_as_written(
            with_known(e, written_type(fs[i].annotation)),
            fs,
            i + 1,
            acc.push(FieldV { ty: next_id(e), ..fs[i] }),
        )
    }
}

/// The variants from position `i` on, each argument with the type that it is written with,
/// appended to `acc`.
pub open spec fn variants_as_written(e: EnvV, vs: Seq<EnumVariantV>, i: int, acc: Seq<EnumVariantV>) -> (
    EnvV,
    Seq<EnumVariantV>,
)
    decreases vs.len() - i,
{
    if i < 0 || i >= vs.len() {
        (e, acc)
    } else {
        let r = fields_as_written(e, vs[i].args, 0, Seq::empty());
        variants_as_written(r.0, vs, i + 1, acc.push(EnumVariantV { args: r.1, ..vs[i] }))
    }
}

/// The engine with the generic enums from position `i` on registered, and their variants
/// defined.
pub open spec fn enum_templates(e: EnvV, module: Seq<Seq<char>>, ds: Seq<EnumDefinitionV>, i: int) -> EnvV
    decreases ds.len() - i,
{
    if i < 0 || i >= ds.len() {
        e
    } else if ds[i].type_params.len() == 0 {
        enum_templates(e, module, ds, i + 1)
    } else {
        let r = variants_as_written(
            with_template(e, ds[i].name, module, TemplateDefV::Enum(ds[i])),
            ds[i].variants,
            0,
            Seq::empty(),
        );
        enum_templates(def_variants(r.0, r.1, 0), module, ds, i + 1)
    }
}

/// The engine with the default specializations and the generic definitions of a module.
pub open spec fn templates_registered(e: EnvV, module: Seq<Seq<char>>, p: ProgramV) -> EnvV {
    let e1 = EnvV { mono: MonoV { defaults: e.mono.defaults + p.defaults, ..e.mono }, ..e };
    let e2 = struct_templates(e1, module, p.structs, 0);
    let e3 = enum_templates(e2, module, p.enums, 0);
    function_templates(e3, module, p.functions, 0)
}

/// The engine with the methods from position `i` on made functions that are ready to be emitted.
pub open spec fn methods_prepared(
    fuel: nat,
    e: EnvV,
    trait_name: Seq<char>,
    for_type: TypeV,
    module: Seq<Seq<char>>,
    ms: Seq<FunctionV>,
    i: int,
) -> (EnvV, Result<(), ErrorV>)
    decreases ms.len() - i,
{
    if i < 0 || i >= ms.len() {
        (e, Ok(()))
    } else {
        match prepared(fuel, e, trait_name, for_type, ms[i], module) {
            (e1, Err(err)) => (e1, Err(err)),
            (e1, Ok(f)) => methods_prepared(
                fuel,
                EnvV { mono: MonoV { impl_methods: e1.mono.impl_methods.push(f), ..e1.mono }, ..e1 },
                trait_name,
                for_type,
                module,
                ms,
                i + 1,
            ),
        }
    }
}

/// The engine with one implementation registered. One that is for no trait is passed over; one
/// for a generic application over type parameters waits for the application to be realized.
pub open spec fn impl_registered(fuel: nat, e: EnvV, types: Seq<Seq<char>>, module: Seq<Seq<char>>, x: ImplDefinitionV) -> (
    EnvV,
    Result<(), ErrorV>,
) {
    match trait_of(x.trait_type) {
        None => (e, Ok(())),
        Some(trait_name) => if templated(e.mono.templates, types, x.for_type) {
            let t = TemplateImplV { trait_name, for_type: x.for_type, methods: x.methods, module };
            (EnvV { mono: MonoV { template_impls: e.mono.template_impls.push(t), ..e.mono }, ..e }, Ok(()))
        } else {
            let for_type = canonical(x.for_type);
            let entry = ImplEntryV { trait_name, for_type: x.for_type, methods: x.methods };
            methods_prepared(
                fuel,
                EnvV { mono: MonoV { impls: e.mono.impls.push((key_of(for_type), entry)), ..e.mono }, ..e },
                trait_name,
                for_type,
                module,
                x.methods,
                0,
            )
        },
    }
}

/// The engine with the implementations from position `i` on registered.
pub open spec fn impls_registered(
    fuel: nat,
    e: EnvV,
    types: Seq<Seq<char>>,
    module: Seq<Seq<char>>,
    xs: Seq<ImplDefinitionV>,
    i: int,
) -> (
    EnvV,
    Result<(), ErrorV>,
)
    decreases xs.len() - i,
{
    if i < 0 || i >= xs.len() {
        (e, Ok(()))
    } else {
        match impl_registered(fuel, e, types, module, xs[i]) {
            (e1, Err(err)) => (e1, Err(err)),
            (e1, Ok(_)) => impls_registered(fuel, e1, types, module, xs, i + 1),
        }
    }
}

/// The last of the traits before position `n` with the given name.
pub open spec fn trait_named(ts: Seq<TraitDefinitionV>, name: Seq<char>, n: int) -> Option<TraitDefinitionV>
    decreases n,
{
    if n <= 0 || n > ts.len() {
        None
    } else if ts[n - 1].name == name {
        Some(ts[n - 1])
    } else {
        trait_named(ts, name, n - 1)
    }
}

/// The last of the functions before position `n` with the given name.
pub open spec fn function_named(fs: Seq<FunctionV>, name: Seq<char>, n: int) -> Option<FunctionV>
    decreases n,
{
    if n <= 0 || n > fs.len() {
        None
    } else if fs[n - 1].name == name {
        Some(fs[n - 1])
    } else {
        function_named(fs, name, n - 1)
    }
}

/// The error for the first declared method from position `i` on that is not provided.
pub open spec fn missing_method(declared: Seq<FunctionV>, provided: Seq<FunctionV>, trait_name: Seq<char>, t: TypeV, i: int) -> Option<
    ErrorV,
>
    decreases declared.len() - i,
{
    if i < 0 || i >= declared.len() {
        None
    } else if function_named(provided, declared[i].name, provided.len() as int) is None {
        Some(
            ErrorV::TypeError(
                "trait '"@ + trait_name + "' requires method '"@ + declared[i].name
                    + "', which is missing from the impl for type '"@ + c_name(t) + "'"@,
            ),
        )
    } else {
        missing_method(declared, provided, trait_name, t, i + 1)
    }
}

/// The error for one provided method: it is not declared, or not with this signature. A method
/// that a later one of the same name replaces is not looked at.
pub open spec fn wrong_method(declared: Seq<FunctionV>, provided: Seq<FunctionV>, trait_name: Seq<char>, t: TypeV, i: int) -> Option<
    ErrorV,
> {
    let name = provided[i].name;
    match function_named(declared, name, declared.len() as int) {
        None => Some(
            ErrorV::TypeError(
                "impl of trait '"@ + trait_name + "' for type '"@ + c_name(t) + "' provides method '"@ + name
                    + "', which is not declared by the trait"@,
            ),
        ),
        Some(d) => if signatures_agree(d, function_named(provided, name, provided.len() as int)->0) {
            None
        } else {
            Some(
                ErrorV::TypeError(
                    "method '"@ + name + "' in the impl of trait '"@ + trait_name + "' for type '"@ + c_name(t)
                        + "' does not match the trait declaration's signature"@,
                ),
            )
        },
    }
}

/// The error for the first wrong method from position `i` on.
pub open spec fn first_wrong_method(
    declared: Seq<FunctionV>,
    provided: Seq<FunctionV>,
    trait_name: Seq<char>,
    t: TypeV,
    i: int,
) -> Option<ErrorV>
    decreases provided.len() - i,
{
    if i < 0 || i >= provided.len() {
        None
    } else {
        match wrong_method(declared, provided, trait_name, t, i) {
            Some(err) => Some(err),
            None => first_wrong_method(declared, provided, trait_name, t, i + 1),
        }
    }
}

/// What is wrong with the methods of an implementation.
pub open spec fn impl_methods_error(ts: Seq<TraitDefinitionV>, trait_name: Seq<char>, t: TypeV, ms: Seq<FunctionV>) -> Option<
    ErrorV,
> {
    match trait_named(ts, trait_name, ts.len() as int) {
        None => Some(ErrorV::TypeError("trait '"@ + trait_name + "' is not defined"@)),
        Some(d) => match missing_method(d.methods, ms, trait_name, t, 0) {
            Some(err) => Some(err),
            None => first_wrong_method(d.methods, ms, trait_name, t, 0),
        },
    }
}

/// The error for a trait that is implemented twice for a type.
pub open spec fn duplicate_impl(trait_name: Seq<char>, t: TypeV) -> ErrorV {
    ErrorV::TypeError(
        "duplicate implementation of trait '"@ + trait_name + "' for type '"@ + c_name(t) + "'"@,
    )
}

/// Whether an implementation has one before it of the same trait under the same key.
pub open spec fn repeats_impl(xs: Seq<(Seq<char>, ImplEntryV)>, i: int) -> bool {
    exists|j: int|
        0 <= j < i && (#[trigger] xs[j]).0 == xs[i].0 && xs[j].1.trait_name == xs[i].1.trait_name
}

/// The error for the first repeated implementation from position `i` on.
pub open spec fn repeated_impl(xs: Seq<(Seq<char>, ImplEntryV)>, i: int) -> Option<ErrorV>
    decreases xs.len() - i,
{
    if i < 0 || i >= xs.len() {
        None
    } else if repeats_impl(xs, i) {
        Some(duplicate_impl(xs[i].1.trait_name, xs[i].1.for_type))
    } else {
        repeated_impl(xs, i + 1)
    }
}

/// The first error in the methods of the implementations from position `i` on.
pub open spec fn impls_error(ts: Seq<TraitDefinitionV>, xs: Seq<(Seq<char>, ImplEntryV)>, i: int) -> Option<ErrorV>
    decreases xs.len() - i,
{
    if i < 0 || i >= xs.len() {
        None
    } else {
        match impl_methods_error(ts, xs[i].1.trait_name, xs[i].1.for_type, xs[i].1.methods) {
            Some(err) => Some(err),
            None => impls_error(ts, xs, i + 1),
        }
    }
}

/// Whether an implementation for a generic application has an equal one before it.
pub open spec fn repeats_template_impl(xs: Seq<TemplateImplV>, i: int) -> bool {
    exists|j: int|
        0 <= j < i && (#[trigger] xs[j]).trait_name == xs[i].trait_name && xs[j].for_type == xs[i].for_type
}

/// The first error in the implementations for generic applications from position `i` on.
pub open spec fn template_impls_error(ts: Seq<TraitDefinitionV>, xs: Seq<TemplateImplV>, i: int) -> Option<ErrorV>
    decreases xs.len() - i,
{
    if i < 0 || i >= xs.len() {
        None
    } else if repeats_template_impl(xs, i) {
        Some(duplicate_impl(xs[i].trait_name, xs[i].for_type))
    } else {
        match impl_methods_error(ts, xs[i].trait_name, xs[i].for_type, xs[i].methods) {
            Some(err) => Some(err),
            None => template_impls_error(ts, xs, i + 1),
        }
    }
}

/// What is wrong with the implementations of traits.
pub open spec fn trait_impls_error(e: EnvV, ts: Seq<TraitDefinitionV>) -> Option<ErrorV> {
    match repeated_impl(e.mono.impls, 0) {
        Some(err) => Some(err),
        None => match impls_error(ts, e.mono.impls, 0) {
            Some(err) => Some(err),
            None => template_impls_error(ts, e.mono.template_impls, 0),
        },
    }
}

/// Whether a type argument names something that is no known template.
pub fn type_arg_is_unbound(templates: &Table<(ModulePath, TemplateDef)>, types: &Vec<String>, t: &Type) -> (r: bool)
    ensures
        r == unbound_arg(template_map_v(templates.map()), text::texts(types@), t@),
    decreases *t, 0int,
{
    broadcast use lemma_type_v;

    match t {
        Type::Named(n) => !templates.contains(n.as_str()) && !text::holds_text(types, n.as_str()),
        Type::Instance { base: _, args } => some_arg_is_unbound(templates, types, args),
        Type::Ptr(x) => type_arg_is_unbound(templates, types, x),
        Type::Tuple(xs) => some_arg_is_unbound(templates, types, xs),
        Type::CArray(x, _) => type_arg_is_unbound(templates, types, x),
        _ => false,
    }
}

fn some_arg_is_unbound(templates: &Table<(ModulePath, TemplateDef)>, types: &Vec<String>, ts: &Vec<Type>) -> (r: bool)
    ensures
        r == some_unbound(template_map_v(templates.map()), text::texts(types@), types_v(ts@)),
    decreases *ts, 0int,
{
    let mut i: usize = 0;
    while i < ts.len()
        invariant
            i <= ts@.len(),
            forall|j: int|
                0 <= j < i ==> !unbound_arg(template_map_v(templates.map()), text::texts(types@), #[trigger] types_v(ts@)[j]),
        decreases ts@.len() - i,
    {
        assert(types_v(ts@)[i as int] == ts@[i as int]@);
        if type_arg_is_unbound(templates, types, &ts[i]) {
            return true;
        }
        i = i + 1;
    }
    false
}

/// Whether an implementation is for a generic application over type parameters.
pub fn for_type_is_templated(templates: &Table<(ModulePath, TemplateDef)>, types: &Vec<String>, t: &Type) -> (r: bool)
    ensures
        r == templated(template_map_v(templates.map()), text::texts(types@), t@),
{
    broadcast use lemma_type_v;

    match t {
        Type::Instance { base: _, args } => some_arg_is_unbound(templates, types, args),
        _ => false,
    }
}

fn find_trait<'a>(ts: &'a Vec<TraitDefinition>, name: &str) -> (r: Option<&'a TraitDefinition>)
    ensures
        match r {
            Some(d) => trait_named(trait_definitions_v(ts@), name@, ts@.len() as int) == Some(d@),
            None => trait_named(trait_definitions_v(ts@), name@, ts@.len() as int) is None,
        },
{
    let mut n: usize = ts.len();
    while n > 0
        invariant
            n <= ts@.len(),
            trait_named(trait_definitions_v(ts@), name@, ts@.len() as int) == trait_named(
                trait_definitions_v(ts@),
                name@,
                n as int,
            ),
        decreases n,
    {
        assert(trait_definitions_v(ts@)[n - 1] == ts@[n - 1]@);
        if text::text_eq(ts[n - 1].name.as_str(), name) {
            return Some(&ts[n - 1]);
        }
        n = n - 1;
    }
    None
}

fn find_function<'a>(fs: &'a Vec<Function>, name: &str) -> (r: Option<&'a Function>)
    ensures
        match r {
            Some(d) => function_named(functions_v(fs@), name@, fs@.len() as int) == Some(d@),
            None => function_named(functions_v(fs@), name@, fs@.len() as int) is None,
        },
{
    let mut n: usize = fs.len();
    while n > 0
        invariant
            n <= fs@.len(),
            function_named(functions_v(fs@), name@, fs@.len() as int) == function_named(
                functions_v(fs@),
                name@,
                n as int,
            ),
        decreases n,
    {
        assert(functions_v(fs@)[n - 1] == fs@[n - 1]@);
        if text::text_eq(fs[n - 1].name.as_str(), name) {
            return Some(&fs[n - 1]);
        }
        n = n - 1;
    }
    None
}

proof fn lemma_own_name(fs: Seq<FunctionV>, i: int, n: int)
    requires
        0 <= i < n <= fs.len(),
    ensures
        function_named(fs, fs[i].name, n) is Some,
    decreases n,
{
    if fs[n - 1].name != fs[i].name {
        lemma_own_name(fs, i, n - 1);
    }
}

fn check_method(declared: &Vec<Function>, provided: &Vec<Function>, trait_name: &str, t: &Type, i: usize) -> (r: Option<
    CompilationError,
>)
    requires
        i < provided@.len(),
    ensures
        opt_error_v(r) == wrong_method(functions_v(declared@), functions_v(provided@), trait_name@, t@, i as int),
{
    let name = provided[i].name.as_str();
    proof {
        assert(functions_v(provided@)[i as int] == provided@[i as int]@);
        assert(functions_v(provided@).len() == provided@.len());
        assert(functions_v(declared@).len() == declared@.len());
        lemma_own_name(functions_v(provided@), i as int, provided@.len() as int);
    }
    match find_function(declared, name) {
        None => Some(
            type_error(
                "impl of trait '".to_owned().concat(trait_name).concat("' for type '").concat(
                    t.to_c_name().as_str(),
                ).concat("' provides method '").concat(name).concat("', which is not declared by the trait"),
            ),
        ),
        Some(d) => match find_function(provided, name) {
            Some(p) => if signatures_match(d, p) {
                None
            } else {
                Some(
                    type_error(
                        "method '".to_owned().concat(name).concat("' in the impl of trait '").concat(
                            trait_name,
                        ).concat("' for type '").concat(t.to_c_name().as_str()).concat(
                            "' does not match the trait declaration's signature",
                        ),
                    ),
                )
            },
            None => None,
        },
    }
}

/// Checks the methods of an implementation against its trait.
pub fn validate_impl_methods(trait_name: &str, t: &Type, methods: &Vec<Function>, trait_defs: &Vec<TraitDefinition>) -> (r: Result<
    (),
    CompilationError,
>)
    ensures
        match r {
            Ok(_) => impl_methods_error(trait_definitions_v(trait_defs@), trait_name@, t@, functions_v(methods@)) is None,
            Err(e) => impl_methods_error(trait_definitions_v(trait_defs@), trait_name@, t@, functions_v(methods@))
                == Some(e@),
        },
{
    proof {
        assert(trait_definitions_v(trait_defs@).len() == trait_defs@.len());
        assert(functions_v(methods@).len() == methods@.len());
    }
    let d = match find_trait(trait_defs, trait_name) {
        None => return Err(type_error("trait '".to_owned().concat(trait_name).concat("' is not defined"))),
        Some(d) => d,
    };
    let mut i: usize = 0;
    while i < d.methods.len()
        invariant
            i <= d.methods@.len(),
            functions_v(methods@).len() == methods@.len(),
            trait_named(trait_definitions_v(trait_defs@), trait_name@, trait_definitions_v(trait_defs@).len() as int)
                == Some(d@),
            missing_method(d@.methods, functions_v(methods@), trait_name@, t@, 0) == missing_method(
                d@.methods,
                functions_v(methods@),
                trait_name@,
                t@,
                i as int,
            ),
        decreases d.methods@.len() - i,
    {
        assert(d@.methods[i as int] == d.methods@[i as int]@);
        if find_function(methods, d.methods[i].name.as_str()).is_none() {
            return Err(
                type_error(
                    "trait '".to_owned().concat(trait_name).concat("' requires method '").concat(
                        d.methods[i].name.as_str(),
                    ).concat("', which is missing from the impl for type '").concat(t.to_c_name().as_str()).concat(
                        "'",
                    ),
                ),
            );
        }
        i = i + 1;
    }
    let mut i: usize = 0;
    while i < methods.len()
        invariant
            i <= methods@.len(),
            functions_v(methods@).len() == methods@.len(),
            trait_named(trait_definitions_v(trait_defs@), trait_name@, trait_definitions_v(trait_defs@).len() as int)
                == Some(d@),
            missing_method(d@.methods, functions_v(methods@), trait_name@, t@, 0) is None,
            first_wrong_method(d@.methods, functions_v(methods@), trait_name@, t@, 0) == first_wrong_method(
                d@.methods,
                functions_v(methods@),
                trait_name@,
                t@,
                i as int,
            ),
        decreases methods@.len() - i,
    {
        match check_method(&d.methods, methods, trait_name, t, i) {
            Some(err) => return Err(err),
            None => {},
        }
        i = i + 1;
    }
    Ok(())
}

fn duplicate_error(trait_name: &str, t: &Type) -> (r: CompilationError)
    ensures
        r@ == duplicate_impl(trait_name@, t@),
{
    type_error(
        "duplicate implementation of trait '".to_owned().concat(trait_name).concat("' for type '").concat(
            t.to_c_name().as_str(),
        ).concat("'"),
    )
}

fn is_repeated(xs: &Vec<(String, ImplEntry)>, i: usize) -> (r: bool)
    requires
        i < xs@.len(),
    ensures
        r == repeats_impl(impls_v(xs@), i as int),
{
    let mut j: usize = 0;
    proof {
        assert(impls_v(xs@)[i as int] == (xs@[i as int].0@, impl_entry_v(xs@[i as int].1)));
    }
    while j < i
        invariant
            j <= i < xs@.len(),
            impls_v(xs@)[i as int] == (xs@[i as int].0@, impl_entry_v(xs@[i as int].1)),
            forall|k: int|
                0 <= k < j ==> !((#[trigger] impls_v(xs@)[k]).0 == impls_v(xs@)[i as int].0
                    && impls_v(xs@)[k].1.trait_name == impls_v(xs@)[i as int].1.trait_name),
        decreases i - j,
    {
        assert(impls_v(xs@)[j as int] == (xs@[j as int].0@, impl_entry_v(xs@[j as int].1)));
        if xs[j].0 == xs[i].0 && xs[j].1.trait_name == xs[i].1.trait_name {
            return true;
        }
        j = j + 1;
    }
    false
}

fn is_repeated_template(xs: &Vec<TemplateImpl>, i: usize) -> (r: bool)
    requires
        i < xs@.len(),
    ensures
        r == repeats_template_impl(template_impls_v(xs@), i as int),
{
    let mut j: usize = 0;
    proof {
        assert(template_impls_v(xs@)[i as int] == template_impl_v(xs@[i as int]));
    }
    while j < i
        invariant
            j <= i < xs@.len(),
            template_impls_v(xs@)[i as int] == template_impl_v(xs@[i as int]),
            forall|k: int|
                0 <= k < j ==> !((#[trigger] template_impls_v(xs@)[k]).trait_name == template_impls_v(
                    xs@,
                )[i as int].trait_name && template_impls_v(xs@)[k].for_type == template_impls_v(
                    xs@,
                )[i as int].for_type),
        decreases i - j,
    {
        assert(template_impls_v(xs@)[j as int] == template_impl_v(xs@[j as int]));
        if xs[j].trait_name == xs[i].trait_name && same_type(&xs[j].for_type, &xs[i].for_type) {
            return true;
        }
        j = j + 1;
    }
    false
}

impl TypeInferencer {
    fn add_template(&mut self, name: &String, module: &ModulePath, t: TemplateDef)
        ensures
            final(self)@ == with_template(old(self)@, name@, module@, template_v(t)),
    {
        let ghost before = self.monomorphs.templates.map();
        let ghost tv = t;
        let m = copy_path(module);
        self.monomorphs.templates.insert(name.clone(), (m, t));
        proof {
            assert(template_map_v(self.monomorphs.templates.map()) =~= template_map_v(before).insert(
                name@,
                (module@, template_v(tv)),
            ));
        }
    }

    fn register_struct_templates(&mut self, module: &ModulePath, ds: &Vec<StructDefinition>)
        ensures
            final(self)@ == struct_templates(old(self)@, module@, struct_definitions_v(ds@), 0),
    {
        let ghost e0 = self@;
        let mut i: usize = 0;
        while i < ds.len()
            invariant
                i <= ds@.len(),
                e0 == old(self)@,
                struct_templates(e0, module@, struct_definitions_v(ds@), 0) == struct_templates(self@, module@, struct_definitions_v(ds@), i as int),
            decreases ds@.len() - i,
        {
            assert(struct_definitions_v(ds@)[i as int] == ds@[i as int]@);
            assert(struct_definitions_v(ds@)[i as int].type_params.len() == ds@[i as int].type_params@.len());
            if ds[i].type_params.len() > 0 {
                self.add_template(&ds[i].name, module, TemplateDef::Struct(copy_struct_definition(&ds[i])));
            }
            i = i + 1;
        }
    }

    fn register_function_templates(&mut self, module: &ModulePath, ds: &Vec<Function>)
        ensures
            final(self)@ == function_templates(old(self)@, module@, functions_v(ds@), 0),
    {
        let ghost e0 = self@;
        let mut i: usize = 0;
        while i < ds.len()
            invariant
                i <= ds@.len(),
                e0 == old(self)@,
                function_templates(e0, module@, functions_v(ds@), 0) == function_templates(self@, module@, functions_v(ds@), i as int),
            decreases ds@.len() - i,
        {
            assert(functions_v(ds@)[i as int] == ds@[i as int]@);
            assert(functions_v(ds@)[i as int].type_params.len() == ds@[i as int].type_params@.len());
            if ds[i].type_params.len() > 0 {
                self.add_template(&ds[i].name, module, TemplateDef::Function(copy_function(&ds[i])));
            }
            i = i + 1;
        }
    }

    fn write_fields(&mut self, fs: &Vec<Field>) -> (r: Vec<Field>)
        ensures
            (final(self)@, field_list_v(r@)) == fields_as_written(old(self)@, field_list_v(fs@), 0, Seq::empty()),
    {
        let ghost e0 = self@;
        let mut out: Vec<Field> = Vec::new();
        let mut i: usize = 0;
        proof {
            assert(field_list_v(out@) =~= Seq::<FieldV>::empty());
        }
        while i < fs.len()
            invariant
                i <= fs@.len(),
                e0 == old(self)@,
                fields_as_written(e0, field_list_v(fs@), 0, Seq::empty()) == fields_as_written(
                    self@,
                    field_list_v(fs@),
                    i as int,
                    field_list_v(out@),
                ),
            decreases fs@.len() - i,
        {
            assert(field_list_v(fs@)[i as int] == fs@[i as int]@);
            let t = match &fs[i].annotation {
                Some(t) => copy_type(t),
                None => Type::Void,
            };
            let id = self.known(t);
            let mut f = copy_field(&fs[i]);
            f.ty = id;
            proof {
                assert(field_list_v(out@.push(f)) =~= field_list_v(out@).push(f@));
            }
            out.push(f);
            i = i + 1;
        }
        out
    }

    fn write_variants(&mut self, vs: &Vec<EnumVariant>) -> (r: Vec<EnumVariant>)
        ensures
            (final(self)@, enum_variants_v(r@)) == variants_as_written(
                old(self)@,
                enum_variants_v(vs@),
                0,
                Seq::empty(),
            ),
    {
        let ghost e0 = self@;
        let mut out: Vec<EnumVariant> = Vec::new();
        let mut i: usize = 0;
        proof {
            assert(enum_variants_v(out@) =~= Seq::<EnumVariantV>::empty());
        }
        while i < vs.len()
            invariant
                i <= vs@.len(),
                e0 == old(self)@,
                variants_as_written(e0, enum_variants_v(vs@), 0, Seq::empty()) == variants_as_written(
                    self@,
                    enum_variants_v(vs@),
                    i as int,
                    enum_variants_v(out@),
                ),
            decreases vs@.len() - i,
        {
            assert(enum_variants_v(vs@)[i as int] == vs@[i as int]@);
            let args = self.write_fields(&vs[i].args);
            let mut v = copy_enum_variant(&vs[i]);
            v.args = args;
            proof {
                assert(enum_variants_v(out@.push(v)) =~= enum_variants_v(out@).push(v@));
            }
            out.push(v);
            i = i + 1;
        }
        out
    }

    fn register_enum_templates(&mut self, module: &ModulePath, ds: &Vec<EnumDefinition>)
        ensures
            final(self)@ == enum_templates(old(self)@, module@, enum_definitions_v(ds@), 0),
    {
        let ghost e0 = self@;
        let mut i: usize = 0;
        while i < ds.len()
            invariant
                i <= ds@.len(),
                e0 == old(self)@,
                enum_templates(e0, module@, enum_definitions_v(ds@), 0) == enum_templates(self@, module@, enum_definitions_v(ds@), i as int),
            decreases ds@.len() - i,
        {
            assert(enum_definitions_v(ds@)[i as int] == ds@[i as int]@);
            assert(enum_definitions_v(ds@)[i as int].type_params.len() == ds@[i as int].type_params@.len());
            if ds[i].type_params.len() > 0 {
                self.add_template(&ds[i].name, module, TemplateDef::Enum(copy_enum_definition(&ds[i])));
                let vs = self.write_variants(&ds[i].variants);
                self.define_variants(&vs);
            }
            i = i + 1;
        }
    }

    fn add_defaults(&mut self, ds: &Vec<DefaultSpecialization>)
        ensures
            final(self)@ == (EnvV {
                mono: MonoV {
                    defaults: old(self)@.mono.defaults + default_specializations_v(ds@),
                    ..old(self)@.mono
                },
                ..old(self)@
            }),
    {
        let mut more = crate::decl::copy_default_specializations(ds);
        let ghost before = self.monomorphs.defaults@;
        let ghost extra = more@;
        self.monomorphs.defaults.append(&mut more);
        proof {
            assert(default_specializations_v(self.monomorphs.defaults@) =~= default_specializations_v(before)
                + default_specializations_v(extra));
        }
    }

    /// Registers the default specializations and the generic definitions of a module.
    pub fn register_templates(&mut self, module: &ModulePath, prog: &Program)
        ensures
            final(self)@ == templates_registered(old(self)@, module@, prog@),
    {
        self.add_defaults(&prog.defaults);
        self.register_struct_templates(module, &prog.structs);
        self.register_enum_templates(module, &prog.enums);
        self.register_function_templates(module, &prog.functions);
    }


    fn prepare_methods(&mut self, trait_name: &str, for_type: &Type, module: &ModulePath, ms: &Vec<Function>, depth: usize) -> (r: Result<(), CompilationError>)
        ensures
            (final(self)@, unit_result(r)) == methods_prepared(depth as nat, old(self)@, trait_name@, for_type@, module@, functions_v(ms@), 0),
    {
        let ghost e0 = self@;
        let mut i: usize = 0;
        while i < ms.len()
            invariant
                i <= ms@.len(),
                e0 == old(self)@,
                methods_prepared(depth as nat, e0, trait_name@, for_type@, module@, functions_v(ms@), 0) == methods_prepared(depth as nat, self@, trait_name@, for_type@, module@, functions_v(ms@), i as int),
            decreases ms@.len() - i,
        {
            assert(functions_v(ms@)[i as int] == ms@[i as int]@);
            match self.build_prepared_impl_method(trait_name, for_type, &ms[i], module, depth) {
                Err(err) => return Err(err),
                Ok(f) => {
                    proof {
                        assert(functions_v(self.monomorphs.impl_methods@.push(f)) =~= functions_v(
                            self.monomorphs.impl_methods@,
                        ).push(f@));
                    }
                    self.monomorphs.impl_methods.push(f);
                },
            }
            i = i + 1;
        }
        Ok(())
    }

    fn register_impl(&mut self, types: &Vec<String>, module: &ModulePath, x: &ImplDefinition, depth: usize) -> (r: Result<(), CompilationError>)
        ensures
            (final(self)@, unit_result(r)) == impl_registered(depth as nat, old(self)@, text::texts(types@), module@, x@),
    {
        let trait_name = match constraint_trait_name(&x.trait_type) {
            Some(n) => n,
            None => return Ok(()),
        };
        if for_type_is_templated(&self.monomorphs.templates, types, &x.for_type) {
            let t = TemplateImpl {
                trait_name,
                for_type: copy_type(&x.for_type),
                methods: copy_functions(&x.methods),
                module: copy_path(module),
            };
            proof {
                assert(template_impls_v(self.monomorphs.template_impls@.push(t)) =~= template_impls_v(
                    self.monomorphs.template_impls@,
                ).push(template_impl_v(t)));
            }
            self.monomorphs.template_impls.push(t);
            return Ok(());
        }
        let for_type = canonical_type(&x.for_type);
        let key = canonical_type_key(&for_type);
        let entry = ImplEntry {
            trait_name: trait_name.clone(),
            for_type: copy_type(&x.for_type),
            methods: copy_functions(&x.methods),
        };
        let pair = (key, entry);
        proof {
            assert(impls_v(self.monomorphs.impls@.push(pair)) =~= impls_v(self.monomorphs.impls@).push(
                (pair.0@, impl_entry_v(pair.1)),
            ));
        }
        self.monomorphs.impls.push(pair);
        self.prepare_methods(trait_name.as_str(), &for_type, module, &x.methods, depth)
    }


    fn register_impl_list(&mut self, types: &Vec<String>, module: &ModulePath, xs: &Vec<ImplDefinition>, depth: usize) -> (r: Result<(), CompilationError>)
        ensures
            (final(self)@, unit_result(r)) == impls_registered(depth as nat, old(self)@, text::texts(types@), module@, impl_definitions_v(xs@), 0),
    {
        let ghost e0 = self@;
        let mut i: usize = 0;
        while i < xs.len()
            invariant
                i <= xs@.len(),
                e0 == old(self)@,
                impls_registered(depth as nat, e0, text::texts(types@), module@, impl_definitions_v(xs@), 0) == impls_registered(depth as nat, self@, text::texts(types@), module@, impl_definitions_v(xs@), i as int),
            decreases xs@.len() - i,
        {
            assert(impl_definitions_v(xs@)[i as int] == xs@[i as int]@);
            match self.register_impl(types, module, &xs[i], depth) {
                Err(err) => return Err(err),
                Ok(_) => {},
            }
            i = i + 1;
        }
        Ok(())
    }

    /// Registers the trait implementations of a module.
    pub fn register_impls(&mut self, types: &Vec<String>, module: &ModulePath, prog: &Program, depth: usize) -> (r: Result<(), CompilationError>)
        ensures
            (final(self)@, unit_result(r)) == impls_registered(depth as nat, old(self)@, text::texts(types@), module@, prog@.impls, 0),
    {
        self.register_impl_list(types, module, &prog.impls, depth)
    }

    /// Checks all registered implementations against their traits, and that none is repeated.
    pub fn validate_trait_impls(&self, trait_defs: &Vec<TraitDefinition>) -> (r: Result<(), CompilationError>)
        ensures
            match r {
                Ok(_) => trait_impls_error(self@, trait_definitions_v(trait_defs@)) is None,
                Err(e) => trait_impls_error(self@, trait_definitions_v(trait_defs@)) == Some(e@),
            },
    {
        let xs = &self.monomorphs.impls;
        let ghost tv = trait_definitions_v(trait_defs@);
        let ghost iv = impls_v(xs@);
        let mut i: usize = 0;
        while i < xs.len()
            invariant
                i <= xs@.len(),
                iv == impls_v(xs@),
                iv == self@.mono.impls,
                tv == trait_definitions_v(trait_defs@),
                repeated_impl(iv, 0) == repeated_impl(iv, i as int),
            decreases xs@.len() - i,
        {
            assert(iv[i as int] == (xs@[i as int].0@, impl_entry_v(xs@[i as int].1)));
            if is_repeated(xs, i) {
                return Err(duplicate_error(xs[i].1.trait_name.as_str(), &xs[i].1.for_type));
            }
            i = i + 1;
        }
        let mut i: usize = 0;
        while i < xs.len()
            invariant
                i <= xs@.len(),
                iv == impls_v(xs@),
                iv == self@.mono.impls,
                tv == trait_definitions_v(trait_defs@),
                repeated_impl(iv, 0) is None,
                impls_error(tv, iv, 0) == impls_error(tv, iv, i as int),
            decreases xs@.len() - i,
        {
            assert(iv[i as int] == (xs@[i as int].0@, impl_entry_v(xs@[i as int].1)));
            let e = &xs[i].1;
            match validate_impl_methods(e.trait_name.as_str(), &e.for_type, &e.methods, trait_defs) {
                Ok(_) => {},
                Err(err) => return Err(err),
            }
            i = i + 1;
        }
        let ys = &self.monomorphs.template_impls;
        let ghost yv = template_impls_v(ys@);
        let mut i: usize = 0;
        while i < ys.len()
            invariant
                i <= ys@.len(),
                iv == self@.mono.impls,
                yv == template_impls_v(ys@),
                yv == self@.mono.template_impls,
                tv == trait_definitions_v(trait_defs@),
                repeated_impl(iv, 0) is None,
                impls_error(tv, iv, 0) is None,
                template_impls_error(tv, yv, 0) == template_impls_error(tv, yv, i as int),
            decreases ys@.len() - i,
        {
            assert(yv[i as int] == template_impl_v(ys@[i as int]));
            let t = &ys[i];
            if is_repeated_template(ys, i) {
                return Err(duplicate_error(t.trait_name.as_str(), &t.for_type));
            }
            match validate_impl_methods(t.trait_name.as_str(), &t.for_type, &t.methods, trait_defs) {
                Ok(_) => {},
                Err(err) => return Err(err),
            }
            i = i + 1;
        }
        Ok(())
    }
}

} // verus!
