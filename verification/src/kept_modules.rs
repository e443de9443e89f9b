//! What the type check of modules leaves as it was.
use crate::decl::{EnumDefinitionV, EnumVariantV, FieldV, Function, FunctionV, ImplDefinitionV,
    ProgramV, StructDefinitionV};
use crate::engine::{def_variants, next_id, with_known, EnvV, ImplEntryV, MonoV, TemplateDefV};
use crate::generics::generics_error;
use crate::kept_program::lemma_settled;
use crate::kept_types::{group_grown, grown, law_realized_names_fit, lemma_def_variants,
    lemma_prepared, names_fit};
use crate::monomorph::{canonical, key_of, prepared, templated, trait_of};
use crate::pipeline::{checked, inferred, merged, methods_moved, module_registered,
    modules_registered, type_names};
use crate::registry::{module_at, RegistryV};
use crate::templates::{enum_templates, fields_as_written, function_templates, impl_registered,
    impls_registered, methods_prepared, struct_templates, templates_registered, trait_impls_error,
    variants_as_written, with_template, written_type};
use crate::types::TypeV;
use vstd::prelude::*;

verus! {

proof fn lemma_struct_templates(e: EnvV, module: Seq<Seq<char>>, ds: Seq<StructDefinitionV>, i: int)
    ensures
        grown(e.mono.complete, struct_templates(e, module, ds, i).mono.complete),
        struct_templates(e, module, ds, i).symbols.vars == e.symbols.vars,
    decreases ds.len() - i,
{
    broadcast use group_grown;

    if 0 <= i < ds.len() {
        if ds[i].type_params.len() == 0 {
            lemma_struct_templates(e, module, ds, i + 1);
        } else {
            lemma_struct_templates(
                with_template(e, ds[i].name, module, TemplateDefV::Struct(ds[i])),
                module,
                ds,
                i + 1,
            );
        }
    }
}

proof fn lemma_function_templates(e: EnvV, module: Seq<Seq<char>>, fs: Seq<FunctionV>, i: int)
    ensures
        grown(e.mono.complete, function_templates(e, module, fs, i).mono.complete),
        function_templates(e, module, fs, i).symbols.vars == e.symbols.vars,
    decreases fs.len() - i,
{
    broadcast use group_grown;

    if 0 <= i < fs.len() {
        if fs[i].type_params.len() == 0 {
            lemma_function_templates(e, module, fs, i + 1);
        } else {
            lemma_function_templates(
                with_template(e, fs[i].name, module, TemplateDefV::Function(fs[i])),
                module,
                fs,
                i + 1,
            );
        }
    }
}

proof fn lemma_fields_as_written(e: EnvV, fs: Seq<FieldV>, i: int, acc: Seq<FieldV>)
    ensures
        grown(e.mono.complete, fields_as_written(e, fs, i, acc).0.mono.complete),
        fields_as_written(e, fs, i, acc).0.symbols.vars == e.symbols.vars,
    decreases fs.len() - i,
{
    broadcast use group_grown;

    if 0 <= i < fs.len() {
        lemma_fields_as_written(
            with_known(e, written_type(fs[i].annotation)),
            fs,
            i + 1,
            acc.push(FieldV { ty: next_id(e), ..fs[i] }),
        );
    }
}

proof fn lemma_variants_as_written(e: EnvV, vs: Seq<EnumVariantV>, i: int, acc: Seq<EnumVariantV>)
    ensures
        grown(e.mono.complete, variants_as_written(e, vs, i, acc).0.mono.complete),
        variants_as_written(e, vs, i, acc).0.symbols.vars == e.symbols.vars,
    decreases vs.len() - i,
{
    broadcast use group_grown;

    if 0 <= i < vs.len() {
        lemma_fields_as_written(e, vs[i].args, 0, Seq::empty());
        let r = fields_as_written(e, vs[i].args, 0, Seq::empty());
        lemma_variants_as_written(r.0, vs, i + 1, acc.push(EnumVariantV { args: r.1, ..vs[i] }));
    }
}

proof fn lemma_enum_templates(e: EnvV, module: Seq<Seq<char>>, ds: Seq<EnumDefinitionV>, i: int)
    ensures
        grown(e.mono.complete, enum_templates(e, module, ds, i).mono.complete),
        enum_templates(e, module, ds, i).symbols.vars == e.symbols.vars,
    decreases ds.len() - i,
{
    broadcast use group_grown;

    if 0 <= i < ds.len() {
        if ds[i].type_params.len() == 0 {
            lemma_enum_templates(e, module, ds, i + 1);
        } else {
            lemma_variants_as_written(
                with_template(e, ds[i].name, module, TemplateDefV::Enum(ds[i])),
                ds[i].variants,
                0,
                Seq::empty(),
            );
            let r = variants_as_written(
                with_template(e, ds[i].name, module, TemplateDefV::Enum(ds[i])),
                ds[i].variants,
                0,
                Seq::empty(),
            );
            lemma_def_variants(r.0, r.1, 0);
            lemma_enum_templates(def_variants(r.0, r.1, 0), module, ds, i + 1);
        }
    }
}

proof fn lemma_templates_registered(e: EnvV, module: Seq<Seq<char>>, p: ProgramV)
    ensures
        grown(e.mono.complete, templates_registered(e, module, p).mono.complete),
        templates_registered(e, module, p).symbols.vars == e.symbols.vars,
{
    broadcast use group_grown;

    let e1 = EnvV { mono: MonoV { defaults: e.mono.defaults + p.defaults, ..e.mono }, ..e };
    lemma_struct_templates(e1, module, p.structs, 0);
    let e2 = struct_templates(e1, module, p.structs, 0);
    lemma_enum_templates(e2, module, p.enums, 0);
    let e3 = enum_templates(e2, module, p.enums, 0);
    lemma_function_templates(e3, module, p.functions, 0);
}

proof fn lemma_methods_prepared(
    fuel: nat,
    e: EnvV,
    trait_name: Seq<char>,
    for_type: TypeV,
    module: Seq<Seq<char>>,
    ms: Seq<FunctionV>,
    i: int,
)
    ensures
        grown(e.mono.complete, methods_prepared(fuel, e, trait_name, for_type, module, ms, i).0.mono.complete),
        methods_prepared(fuel, e, trait_name, for_type, module, ms, i).0.symbols.vars == e.symbols.vars,
    decreases ms.len() - i,
{
    broadcast use group_grown;

    if 0 <= i < ms.len() {
        lemma_prepared(fuel, e, trait_name, for_type, ms[i], module);
        if let (e1, Ok(f)) = prepared(fuel, e, trait_name, for_type, ms[i], module) {
            lemma_methods_prepared(
                fuel,
                EnvV { mono: MonoV { impl_methods: e1.mono.impl_methods.push(f), ..e1.mono }, ..e1 },
                trait_name,
                for_type,
                module,
                ms,
                i + 1,
            );
        }
    }
}

proof fn lemma_impl_registered(fuel: nat, e: EnvV, types: Seq<Seq<char>>, module: Seq<Seq<char>>, x: ImplDefinitionV)
    ensures
        grown(e.mono.complete, impl_registered(fuel, e, types, module, x).0.mono.complete),
        impl_registered(fuel, e, types, module, x).0.symbols.vars == e.symbols.vars,
{
    broadcast use group_grown;

    if let Some(trait_name) = trait_of(x.trait_type) {
        if !templated(e.mono.templates, types, x.for_type) {
            let for_type = canonical(x.for_type);
            let entry = ImplEntryV { trait_name, for_type: x.for_type, methods: x.methods };
            lemma_methods_prepared(
                fuel,
                EnvV { mono: MonoV { impls: e.mono.impls.push((key_of(for_type), entry)), ..e.mono }, ..e },
                trait_name,
                for_type,
                module,
                x.methods,
                0,
            );
        }
    }
}

proof fn lemma_impls_registered(
    fuel: nat,
    e: EnvV,
    types: Seq<Seq<char>>,
    module: Seq<Seq<char>>,
    xs: Seq<ImplDefinitionV>,
    i: int,
)
    ensures
        grown(e.mono.complete, impls_registered(fuel, e, types, module, xs, i).0.mono.complete),
        impls_registered(fuel, e, types, module, xs, i).0.symbols.vars == e.symbols.vars,
    decreases xs.len() - i,
{
    broadcast use group_grown;

    if 0 <= i < xs.len() {
        lemma_impl_registered(fuel, e, types, module, xs[i]);
        if let (e1, Ok(_)) = impl_registered(fuel, e, types, module, xs[i]) {
            lemma_impls_registered(fuel, e1, types, module, xs, i + 1);
        }
    }
}

proof fn lemma_module_registered(fuel: nat, e: EnvV, types: Seq<Seq<char>>, path: Seq<Seq<char>>, p: ProgramV)
    ensures
        grown(e.mono.complete, module_registered(fuel, e, types, path, p).0.mono.complete),
        module_registered(fuel, e, types, path, p).0.symbols.vars == e.symbols.vars,
{
    broadcast use group_grown;

    lemma_templates_registered(e, path, p);
    lemma_impls_registered(fuel, templates_registered(e, path, p), types, path, p.impls, 0);
}

proof fn lemma_modules_registered(
    fuel: nat,
    e: EnvV,
    types: Seq<Seq<char>>,
    r: RegistryV,
    paths: Seq<Seq<Seq<char>>>,
    i: int,
)
    ensures
        grown(e.mono.complete, modules_registered(fuel, e, types, r, paths, i).0.mono.complete),
        modules_registered(fuel, e, types, r, paths, i).0.symbols.vars == e.symbols.vars,
    decreases paths.len() - i,
{
    broadcast use group_grown;

    if 0 <= i < paths.len() {
        match module_at(r.modules, paths[i], 0) {
            None => {
                lemma_modules_registered(fuel, e, types, r, paths, i + 1);
            },
            Some(k) => {
                lemma_module_registered(fuel, e, types, paths[i], r.modules[k].program);
                if let (e1, Ok(_)) = module_registered(fuel, e, types, paths[i], r.modules[k].program) {
                    lemma_modules_registered(fuel, e1, types, r, paths, i + 1);
                }
            },
        }
    }
}

proof fn lemma_inferred(fuel: nat, e: EnvV, p: ProgramV)
    requires
        e.symbols.vars.len() > 0,
    ensures
        grown(e.mono.complete, inferred(fuel, e, p).0.mono.complete),
{
    broadcast use group_grown;

    let a = methods_moved(e, p);
    lemma_settled(fuel, a.0, a.1, 0);
}

proof fn lemma_checked(fuel: nat, e: EnvV, r: RegistryV, paths: Seq<Seq<Seq<char>>>)
    requires
        e.symbols.vars.len() > 0,
    ensures
        grown(e.mono.complete, checked(fuel, e, r, paths).0.mono.complete),
{
    broadcast use group_grown;

    let p = merged(r, paths);
    if let None = generics_error(p) {
        lemma_modules_registered(fuel, e, type_names(p), r, paths, 0);
        if let (e1, Ok(_)) = modules_registered(fuel, e, type_names(p), r, paths, 0) {
            if let None = trait_impls_error(e1, p.traits) {
                lemma_inferred(fuel, e1, p);
            }
        }
    }
}

/// Whatever modules are checked, realized applications are only added, each under the name that
/// its arguments give it.
pub proof fn law_check_keeps_realized_names(fuel: nat, e: EnvV, r: RegistryV, paths: Seq<Seq<Seq<char>>>)
    requires
        e.symbols.vars.len() > 0,
    ensures
        grown(e.mono.complete, checked(fuel, e, r, paths).0.mono.complete),
        names_fit(e.mono.complete) ==> names_fit(checked(fuel, e, r, paths).0.mono.complete),
{
    lemma_checked(fuel, e, r, paths);
    law_realized_names_fit(fuel, e, Seq::empty(), Seq::empty(), checked(fuel, e, r, paths).0);
}

} // verus!
