//! The state of type inference and of the realization of generic definitions.
use crate::ast::Span;
use crate::decl::{copy_enum_definition, copy_function, copy_functions, copy_struct_definition,
    default_specializations_v, enum_definition_v, enum_definitions_v, enum_variants_v, function_v,
    functions_v, struct_definition_v, struct_definitions_v, type_params_v, DefaultSpecialization,
    DefaultSpecializationV, EnumDefinition, EnumDefinitionV, EnumVariant, EnumVariantV, Function, FunctionV,
    StructDefinition, StructDefinitionV, TypeParam, TypeParamV};
use crate::error::{CompilationError, ContextV, ErrorContext, ErrorV};
use crate::kept_types::names_fit;
use crate::module::{copy_path, ModulePath};
use crate::store::{no_types, with_slot, StoreV, TypeStore};
use crate::symbols::{copy_ids, info_of, no_symbols, qualified, with_var, SymbolTable, SymbolsV};
use crate::table::{with_name, Table};
use crate::text;
use crate::types::{copy_type, type_v, types_v, Type, TypeId, TypeV};
use vstd::prelude::*;

verus! {

/// A generic definition.
#[derive(Debug)]
pub enum TemplateDef {
    Struct(StructDefinition),
    Enum(EnumDefinition),
    Function(Function),
}

/// The contents of a generic definition.
pub enum TemplateDefV {
    Struct(StructDefinitionV),
    Enum(EnumDefinitionV),
    Function(FunctionV),
}

/// The contents of a generic definition.
pub open spec fn template_v(t: TemplateDef) -> TemplateDefV {
    match t {
        TemplateDef::Struct(s) => TemplateDefV::Struct(struct_definition_v(s)),
        TemplateDef::Enum(e) => TemplateDefV::Enum(enum_definition_v(e)),
        TemplateDef::Function(f) => TemplateDefV::Function(function_v(f)),
    }
}

/// The type parameters of a generic definition.
pub open spec fn template_params(t: TemplateDefV) -> Seq<TypeParamV> {
    match t {
        TemplateDefV::Struct(s) => s.type_params,
        TemplateDefV::Enum(e) => e.type_params,
        TemplateDefV::Function(f) => f.type_params,
    }
}

/// Copies a generic definition.
pub fn copy_template(t: &TemplateDef) -> (r: TemplateDef)
    ensures
        template_v(r) == template_v(*t),
{
    match t {
        TemplateDef::Struct(s) => TemplateDef::Struct(copy_struct_definition(s)),
        TemplateDef::Enum(e) => TemplateDef::Enum(copy_enum_definition(e)),
        TemplateDef::Function(f) => TemplateDef::Function(copy_function(f)),
    }
}

impl TemplateDef {
    /// The type parameters.
    pub fn type_params(&self) -> (r: &Vec<TypeParam>)
        ensures
            type_params_v(r@) == template_params(template_v(*self)),
    {
        match self {
            TemplateDef::Struct(s) => &s.type_params,
            TemplateDef::Enum(e) => &e.type_params,
            TemplateDef::Function(f) => &f.type_params,
        }
    }
}

/// A generic application whose arguments are not all known: the template and the type of each of its parameters.
#[derive(Debug, PartialEq)]
pub struct PendingInstance {
    pub base: String,
    pub params: Vec<TypeId>,
}

/// The contents of a pending application.
pub struct PendingInstanceV {
    pub base: Seq<char>,
    pub params: Seq<TypeId>,
}

/// The contents of a pending application.
pub open spec fn pending_instance_v(x: PendingInstance) -> PendingInstanceV {
    PendingInstanceV {
        base: x.base@,
        params: x.params@,
    }
}

impl View for PendingInstance {
    type V = PendingInstanceV;

    open spec fn view(&self) -> PendingInstanceV {
        pending_instance_v(*self)
    }
}

/// Copies a pending application.
pub fn copy_pending_instance(x: &PendingInstance) -> (r: PendingInstance)
    ensures
        pending_instance_v(r) == pending_instance_v(*x),
{
    PendingInstance {
        base: x.base.clone(),
        params: copy_ids(&x.params),
    }
}

impl Clone for PendingInstance {
    fn clone(&self) -> (r: Self)
        ensures
            r@ == self@,
    {
        copy_pending_instance(self)
    }
}

/// A generic application to be realized; for a call, with the type of the result.
#[derive(Debug, PartialEq)]
pub struct PendingGeneric {
    pub base: String,
    pub params: Vec<TypeId>,
    pub call_return: Option<TypeId>,
}

/// The contents of an application to be realized.
pub struct PendingGenericV {
    pub base: Seq<char>,
    pub params: Seq<TypeId>,
    pub call_return: Option<TypeId>,
}

/// The contents of an application to be realized.
pub open spec fn pending_generic_v(x: PendingGeneric) -> PendingGenericV {
    PendingGenericV {
        base: x.base@,
        params: x.params@,
        call_return: x.call_return,
    }
}

impl View for PendingGeneric {
    type V = PendingGenericV;

    open spec fn view(&self) -> PendingGenericV {
        pending_generic_v(*self)
    }
}

/// The contents of a list of applications to be realized.
pub open spec fn pending_generics_v(xs: Seq<PendingGeneric>) -> Seq<PendingGenericV> {
    xs.map_values(|x: PendingGeneric| pending_generic_v(x))
}

/// Copies an application to be realized.
pub fn copy_pending_generic(x: &PendingGeneric) -> (r: PendingGeneric)
    ensures
        pending_generic_v(r) == pending_generic_v(*x),
{
    PendingGeneric {
        base: x.base.clone(),
        params: copy_ids(&x.params),
        call_return: x.call_return,
    }
}

impl Clone for PendingGeneric {
    fn clone(&self) -> (r: Self)
        ensures
            r@ == self@,
    {
        copy_pending_generic(self)
    }
}

/// An implementation of a trait for a type.
#[derive(Debug, PartialEq)]
pub struct ImplEntry {
    pub trait_name: String,
    pub for_type: Type,
    pub methods: Vec<Function>,
}

/// The contents of an implementation.
pub struct ImplEntryV {
    pub trait_name: Seq<char>,
    pub for_type: TypeV,
    pub methods: Seq<FunctionV>,
}

/// The contents of an implementation.
pub open spec fn impl_entry_v(x: ImplEntry) -> ImplEntryV {
    ImplEntryV {
        trait_name: x.trait_name@,
        for_type: type_v(x.for_type),
        methods: functions_v(x.methods@),
    }
}

impl View for ImplEntry {
    type V = ImplEntryV;

    open spec fn view(&self) -> ImplEntryV {
        impl_entry_v(*self)
    }
}

/// Copies an implementation.
pub fn copy_impl_entry(x: &ImplEntry) -> (r: ImplEntry)
    ensures
        impl_entry_v(r) == impl_entry_v(*x),
{
    ImplEntry {
        trait_name: x.trait_name.clone(),
        for_type: copy_type(&x.for_type),
        methods: copy_functions(&x.methods),
    }
}

impl Clone for ImplEntry {
    fn clone(&self) -> (r: Self)
        ensures
            r@ == self@,
    {
        copy_impl_entry(self)
    }
}

/// An implementation of a trait for a generic application.
#[derive(Debug, PartialEq)]
pub struct TemplateImpl {
    pub trait_name: String,
    pub for_type: Type,
    pub methods: Vec<Function>,
    pub module: ModulePath,
}

/// The contents of a generic implementation.
pub struct TemplateImplV {
    pub trait_name: Seq<char>,
    pub for_type: TypeV,
    pub methods: Seq<FunctionV>,
    pub module: Seq<Seq<char>>,
}

/// The contents of a generic implementation.
pub open spec fn template_impl_v(x: TemplateImpl) -> TemplateImplV {
    TemplateImplV {
        trait_name: x.trait_name@,
        for_type: type_v(x.for_type),
        methods: functions_v(x.methods@),
        module: x.module@,
    }
}

impl View for TemplateImpl {
    type V = TemplateImplV;

    open spec fn view(&self) -> TemplateImplV {
        template_impl_v(*self)
    }
}

/// The contents of a list of generic implementations.
pub open spec fn template_impls_v(xs: Seq<TemplateImpl>) -> Seq<TemplateImplV> {
    xs.map_values(|x: TemplateImpl| template_impl_v(x))
}

/// Copies a generic implementation.
pub fn copy_template_impl(x: &TemplateImpl) -> (r: TemplateImpl)
    ensures
        template_impl_v(r) == template_impl_v(*x),
{
    TemplateImpl {
        trait_name: x.trait_name.clone(),
        for_type: copy_type(&x.for_type),
        methods: copy_functions(&x.methods),
        module: copy_path(&x.module),
    }
}

impl Clone for TemplateImpl {
    fn clone(&self) -> (r: Self)
        ensures
            r@ == self@,
    {
        copy_template_impl(self)
    }
}

/// Copies a list of generic implementations.
pub fn copy_template_impls(xs: &Vec<TemplateImpl>) -> (r: Vec<TemplateImpl>)
    ensures
        template_impls_v(r@) == template_impls_v(xs@),
    decreases *xs,
{
    let mut out: Vec<TemplateImpl> = Vec::new();
    let mut i: usize = 0;
    while i < xs.len()
        invariant
            i <= xs@.len(),
            template_impls_v(out@) =~= template_impls_v(xs@).take(i as int),
        decreases xs@.len() - i,
    {
        let c = copy_template_impl(&xs[i]);
        proof {
            assert(template_impls_v(xs@).take(i + 1) =~= template_impls_v(xs@).take(i as int).push(template_impl_v(c)));
            assert(template_impls_v(out@.push(c)) =~= template_impls_v(out@).push(template_impl_v(c)));
        }
        out.push(c);
        i = i + 1;
    }
    proof {
        assert(template_impls_v(xs@).take(xs@.len() as int) =~= template_impls_v(xs@));
    }
    out
}

/// The contents of a table of templates.
pub open spec fn template_map_v(m: Map<Seq<char>, (ModulePath, TemplateDef)>) -> Map<
    Seq<char>,
    (Seq<Seq<char>>, TemplateDefV),
> {
    m.map_values(|t: (ModulePath, TemplateDef)| (t.0@, template_v(t.1)))
}

/// The contents of a list of pending applications by type.
pub open spec fn instances_v(xs: Seq<(TypeId, PendingInstance)>) -> Seq<(TypeId, PendingInstanceV)> {
    xs.map_values(|x: (TypeId, PendingInstance)| (x.0, pending_instance_v(x.1)))
}

/// The contents of a list of realized applications.
pub open spec fn complete_v(xs: Seq<(String, Vec<Type>, String)>) -> Seq<(Seq<char>, Seq<TypeV>, Seq<char>)> {
    xs.map_values(|x: (String, Vec<Type>, String)| (x.0@, types_v(x.1@), x.2@))
}

/// The contents of a table of paths.
pub open spec fn path_map_v(m: Map<Seq<char>, ModulePath>) -> Map<Seq<char>, Seq<Seq<char>>> {
    m.map_values(|p: ModulePath| p@)
}

/// The contents of a table of applications.
pub open spec fn instance_map_v(m: Map<Seq<char>, (String, Vec<Type>)>) -> Map<Seq<char>, (Seq<char>, Seq<TypeV>)> {
    m.map_values(|x: (String, Vec<Type>)| (x.0@, types_v(x.1@)))
}

/// The contents of a list of pairs of names.
pub open spec fn name_pairs_v(xs: Seq<(String, String)>) -> Seq<(Seq<char>, Seq<char>)> {
    xs.map_values(|x: (String, String)| (x.0@, x.1@))
}

/// The contents of a list of implementations by key.
pub open spec fn impls_v(xs: Seq<(String, ImplEntry)>) -> Seq<(Seq<char>, ImplEntryV)> {
    xs.map_values(|x: (String, ImplEntry)| (x.0@, impl_entry_v(x.1)))
}

/// The contents of a list of tuple shapes.
pub open spec fn shapes_v(xs: Seq<(String, Vec<Type>)>) -> Seq<(Seq<char>, Seq<TypeV>)> {
    xs.map_values(|x: (String, Vec<Type>)| (x.0@, types_v(x.1@)))
}

/// The state of the realization of generic definitions.
#[derive(Debug)]
pub struct MonomorphState {
    /// The generic definitions by name, each with its module.
    pub templates: Table<(ModulePath, TemplateDef)>,
    /// The default specializations.
    pub defaults: Vec<DefaultSpecialization>,
    /// The types that stand for pending applications.
    pub instance_types: Vec<(TypeId, PendingInstance)>,
    /// The applications to be realized.
    pub pending: Vec<PendingGeneric>,
    /// The realized applications: template, arguments, name.
    pub complete: Vec<(String, Vec<Type>, String)>,
    /// The module of each realized definition.
    pub mono_modules: Table<ModulePath>,
    /// The template and the arguments of each realized definition.
    pub mono_instances: Table<(String, Vec<Type>)>,
    /// Realized structs that are not in the program yet.
    pub staged_structs: Vec<StructDefinition>,
    /// Realized enums that are not in the program yet.
    pub staged_enums: Vec<EnumDefinition>,
    /// Realized functions that are not in the program yet.
    pub staged_functions: Vec<Function>,
    /// Realized methods that are not in the program yet.
    pub staged_impl_methods: Vec<Function>,
    /// Applications with an unknown parameter: template, parameter.
    pub unresolved: Vec<(String, String)>,
    /// The implementations, each under the key of its type.
    pub impls: Vec<(String, ImplEntry)>,
    /// The implementations for generic applications.
    pub template_impls: Vec<TemplateImpl>,
    /// Methods that are ready to be inferred and emitted.
    pub impl_methods: Vec<Function>,
}

/// The contents of the state of realization.
pub struct MonoV {
    pub templates: Map<Seq<char>, (Seq<Seq<char>>, TemplateDefV)>,
    pub template_names: Seq<Seq<char>>,
    pub defaults: Seq<DefaultSpecializationV>,
    pub instance_types: Seq<(TypeId, PendingInstanceV)>,
    pub pending: Seq<PendingGenericV>,
    pub complete: Seq<(Seq<char>, Seq<TypeV>, Seq<char>)>,
    pub mono_modules: Map<Seq<char>, Seq<Seq<char>>>,
    pub mono_instances: Map<Seq<char>, (Seq<char>, Seq<TypeV>)>,
    pub staged_structs: Seq<StructDefinitionV>,
    pub staged_enums: Seq<EnumDefinitionV>,
    pub staged_functions: Seq<FunctionV>,
    pub staged_impl_methods: Seq<FunctionV>,
    pub unresolved: Seq<(Seq<char>, Seq<char>)>,
    pub impls: Seq<(Seq<char>, ImplEntryV)>,
    pub template_impls: Seq<TemplateImplV>,
    pub impl_methods: Seq<FunctionV>,
}

/// The contents of the state of realization.
pub open spec fn mono_v(x: MonomorphState) -> MonoV {
    MonoV {
        templates: template_map_v(x.templates.map()),
        template_names: x.templates.names(),
        defaults: default_specializations_v(x.defaults@),
        instance_types: instances_v(x.instance_types@),
        pending: pending_generics_v(x.pending@),
        complete: complete_v(x.complete@),
        mono_modules: path_map_v(x.mono_modules.map()),
        mono_instances: instance_map_v(x.mono_instances.map()),
        staged_structs: struct_definitions_v(x.staged_structs@),
        staged_enums: enum_definitions_v(x.staged_enums@),
        staged_functions: functions_v(x.staged_functions@),
        staged_impl_methods: functions_v(x.staged_impl_methods@),
        unresolved: name_pairs_v(x.unresolved@),
        impls: impls_v(x.impls@),
        template_impls: template_impls_v(x.template_impls@),
        impl_methods: functions_v(x.impl_methods@),
    }
}

/// Nothing to realize.
pub open spec fn no_mono() -> MonoV {
    MonoV {
        templates: Map::empty(),
        template_names: Seq::empty(),
        defaults: Seq::empty(),
        instance_types: Seq::empty(),
        pending: Seq::empty(),
        complete: Seq::empty(),
        mono_modules: Map::empty(),
        mono_instances: Map::empty(),
        staged_structs: Seq::empty(),
        staged_enums: Seq::empty(),
        staged_functions: Seq::empty(),
        staged_impl_methods: Seq::empty(),
        unresolved: Seq::empty(),
        impls: Seq::empty(),
        template_impls: Seq::empty(),
        impl_methods: Seq::empty(),
    }
}

impl MonomorphState {
    /// Nothing to realize.
    pub fn new() -> (r: Self)
        ensures
            mono_v(r) == no_mono(),
    {
        let r = MonomorphState {
            templates: Table::new(),
            defaults: Vec::new(),
            instance_types: Vec::new(),
            pending: Vec::new(),
            complete: Vec::new(),
            mono_modules: Table::new(),
            mono_instances: Table::new(),
            staged_structs: Vec::new(),
            staged_enums: Vec::new(),
            staged_functions: Vec::new(),
            staged_impl_methods: Vec::new(),
            unresolved: Vec::new(),
            impls: Vec::new(),
            template_impls: Vec::new(),
            impl_methods: Vec::new(),
        };
        proof {
            assert(mono_v(r).templates =~= no_mono().templates);
            assert(mono_v(r).template_names =~= no_mono().template_names);
            assert(mono_v(r).defaults =~= no_mono().defaults);
            assert(mono_v(r).instance_types =~= no_mono().instance_types);
            assert(mono_v(r).pending =~= no_mono().pending);
            assert(mono_v(r).complete =~= no_mono().complete);
            assert(mono_v(r).mono_modules =~= no_mono().mono_modules);
            assert(mono_v(r).mono_instances =~= no_mono().mono_instances);
            assert(mono_v(r).staged_structs =~= no_mono().staged_structs);
            assert(mono_v(r).staged_enums =~= no_mono().staged_enums);
            assert(mono_v(r).staged_functions =~= no_mono().staged_functions);
            assert(mono_v(r).staged_impl_methods =~= no_mono().staged_impl_methods);
            assert(mono_v(r).unresolved =~= no_mono().unresolved);
            assert(mono_v(r).impls =~= no_mono().impls);
            assert(mono_v(r).template_impls =~= no_mono().template_impls);
            assert(mono_v(r).impl_methods =~= no_mono().impl_methods);
        }
        r
    }
}

/// The type inference engine.
#[derive(Debug)]
pub struct TypeInferencer {
    pub store: TypeStore,
    pub symbols: SymbolTable,
    pub imported_structs: Vec<String>,
    pub current_return_type: Option<TypeId>,
    pub source_file: String,
    pub source_text: String,
    pub tuple_shapes: Vec<(String, Vec<Type>)>,
    pub fresh_counter: u64,
    pub monomorphs: MonomorphState,
}

/// The contents of the type inference engine.
pub struct EnvV {
    pub store: StoreV,
    pub symbols: SymbolsV,
    pub imported: Seq<Seq<char>>,
    pub ret: Option<TypeId>,
    pub file: Seq<char>,
    pub source: Seq<char>,
    pub tuples: Seq<(Seq<char>, Seq<TypeV>)>,
    pub fresh: u64,
    pub mono: MonoV,
}

/// An error with the place at which it arose, where the source is known.
pub open spec fn placed_error(e: EnvV, span: Span, err: ErrorV) -> ErrorV {
    if e.source.len() == 0 {
        err
    } else {
        ErrorV::Located {
            error: Box::new(err),
            context: ContextV { file: e.file, source: e.source, span },
        }
    }
}

impl View for TypeInferencer {
    type V = EnvV;

    open spec fn view(&self) -> EnvV {
        EnvV {
            store: self.store@,
            symbols: self.symbols@,
            imported: text::texts(self.imported_structs@),
            ret: self.current_return_type,
            file: self.source_file@,
            source: self.source_text@,
            tuples: shapes_v(self.tuple_shapes@),
            fresh: self.fresh_counter,
            mono: mono_v(self.monomorphs),
        }
    }
}

/// An engine that knows nothing yet.
pub open spec fn no_env() -> EnvV {
    EnvV {
        store: no_types(),
        symbols: no_symbols(),
        imported: Seq::empty(),
        ret: None,
        file: Seq::empty(),
        source: Seq::empty(),
        tuples: Seq::empty(),
        fresh: 0,
        mono: no_mono(),
    }
}

impl Default for TypeInferencer {
    fn default() -> (r: Self)
        ensures
            r@ == no_env(),
    {
        TypeInferencer::new()
    }
}

impl TypeInferencer {
    /// An engine that knows nothing yet.
    pub fn new() -> (r: Self)
        ensures
            r@ == no_env(),
            names_fit(r@.mono.complete),
    {
        let r = TypeInferencer {
            store: TypeStore::new(),
            symbols: SymbolTable::new(),
            imported_structs: Vec::new(),
            current_return_type: None,
            source_file: String::new(),
            source_text: String::new(),
            tuple_shapes: Vec::new(),
            fresh_counter: 0,
            monomorphs: MonomorphState::new(),
        };
        proof {
            assert(r@.imported =~= no_env().imported);
            assert(r@.tuples =~= no_env().tuples);
        }
        r
    }

    /// The distinct tuple types of the program: C name and element types.
    pub fn tuple_shapes(&self) -> (r: &Vec<(String, Vec<Type>)>)
        ensures
            shapes_v(r@) == self@.tuples,
    {
        &self.tuple_shapes
    }

    /// Sets the file and the text that errors speak of.
    pub fn with_source(self, file: String, text: String) -> (r: Self)
        ensures
            r@ == (EnvV { file: file@, source: text@, ..self@ }),
    {
        let mut r = self;
        r.source_file = file;
        r.source_text = text;
        r
    }

    /// An error with the place at which it arose, where the source is known.
    pub(crate) fn wrap_err(&self, err: CompilationError, span: Span) -> (r: CompilationError)
        ensures
            r@ == placed_error(self@, span, err@),
    {
        if self.source_text.as_str().is_empty() {
            err
        } else {
            err.with_context(
                ErrorContext { file: self.source_file.clone(), source: self.source_text.clone(), span },
            )
        }
    }

    /// The symbol table.
    pub fn symbols(&self) -> (r: &SymbolTable)
        ensures
            r@ == self@.symbols,
    {
        &self.symbols
    }

    /// The symbol table, to be changed.
    pub fn symbols_mut(&mut self) -> (r: &mut SymbolTable)
        ensures
            r@ == old(self)@.symbols,
            final(self)@ == (EnvV { symbols: final(r)@, ..old(self)@ }),
    {
        &mut self.symbols
    }

    /// Whether a name is that of a struct.
    pub fn is_struct_type(&self, name: &str) -> (r: bool)
        ensures
            r == self@.symbols.structs.contains_key(name@),
    {
        self.symbols.lookup_struct(name).is_some()
    }

    /// Records that a struct comes from a C header.
    pub fn mark_imported_struct(&mut self, name: String)
        ensures
            final(self)@ == (EnvV { imported: old(self)@.imported.push(name@), ..old(self)@ }),
    {
        let ghost before = self.imported_structs@;
        let ghost n = name@;
        self.imported_structs.push(name);
        proof {
            assert(text::texts(self.imported_structs@) =~= text::texts(before).push(n));
        }
    }

    /// Whether a struct comes from a C header.
    pub fn is_imported_struct(&self, name: &str) -> (r: bool)
        ensures
            r == self@.imported.contains(name@),
    {
        text::holds_text(&self.imported_structs, name)
    }
}

/// The index that the next type gets.
pub open spec fn next_id(e: EnvV) -> TypeId {
    TypeId(e.store.slots.len() as usize)
}

/// The engine with one more known type.
pub open spec fn with_known(e: EnvV, t: TypeV) -> EnvV {
    EnvV { store: with_slot(e.store, Some(t)), ..e }
}

/// The engine with one more unknown type.
pub open spec fn with_unknown(e: EnvV) -> EnvV {
    EnvV { store: with_slot(e.store, None), ..e }
}

/// The engine with a global defined.
pub open spec fn def_global(e: EnvV, name: Seq<char>, id: TypeId) -> EnvV {
    EnvV { symbols: SymbolsV { globals: e.symbols.globals.insert(name, id), ..e.symbols }, ..e }
}

/// The engine with a variable defined in the innermost scope.
pub open spec fn def_var(e: EnvV, name: Seq<char>, id: TypeId) -> EnvV {
    EnvV { symbols: SymbolsV { vars: with_var(e.symbols.vars, name, id), ..e.symbols }, ..e }
}

/// The engine with a function defined.
pub open spec fn def_function(e: EnvV, name: Seq<char>, params: Seq<TypeId>, ret: TypeId) -> EnvV {
    EnvV { symbols: SymbolsV { functions: e.symbols.functions.insert(name, (params, ret)), ..e.symbols }, ..e }
}

/// The engine with a struct defined.
pub open spec fn def_struct(e: EnvV, d: StructDefinitionV) -> EnvV {
    EnvV { symbols: SymbolsV { structs: e.symbols.structs.insert(d.name, d), ..e.symbols }, ..e }
}

/// The engine with an enum defined.
pub open spec fn def_enum(e: EnvV, d: EnumDefinitionV) -> EnvV {
    EnvV {
        symbols: SymbolsV {
            enums: e.symbols.enums.insert(d.name, d),
            enum_names: with_name(e.symbols.enum_names, e.symbols.enums.contains_key(d.name), d.name),
            ..e.symbols
        },
        ..e
    }
}

/// The engine with an enum variant defined.
pub open spec fn def_variant(e: EnvV, v: EnumVariantV) -> EnvV {
    let k = qualified(v.parent, v.name);
    EnvV {
        symbols: SymbolsV {
            enum_variants: e.symbols.enum_variants.insert(k, info_of(v)),
            variant_names: with_name(e.symbols.variant_names, e.symbols.enum_variants.contains_key(k), k),
            ..e.symbols
        },
        ..e
    }
}

/// The engine with the enum variants from position `i` on defined.
pub open spec fn def_variants(e: EnvV, vs: Seq<EnumVariantV>, i: int) -> EnvV
    decreases vs.len() - i,
{
    if i < 0 || i >= vs.len() {
        e
    } else {
        def_variants(def_variant(e, vs[i]), vs, i + 1)
    }
}

/// The engine in a new scope.
pub open spec fn scope_entered(e: EnvV) -> EnvV {
    EnvV { symbols: SymbolsV { vars: e.symbols.vars.push(Map::empty()), ..e.symbols }, ..e }
}

/// The engine out of the innermost scope. The outermost one is never left.
pub open spec fn scope_left(e: EnvV) -> EnvV {
    if e.symbols.vars.len() > 1 {
        EnvV { symbols: SymbolsV { vars: e.symbols.vars.drop_last(), ..e.symbols }, ..e }
    } else {
        e
    }
}

impl TypeInferencer {
    /// Adds a known type.
    pub fn known(&mut self, t: Type) -> (r: TypeId)
        ensures
            r == next_id(old(self)@),
            final(self)@ == with_known(old(self)@, t@),
    {
        self.store.new_known(t)
    }

    /// Adds an unknown type.
    pub fn unknown(&mut self) -> (r: TypeId)
        ensures
            r == next_id(old(self)@),
            final(self)@ == with_unknown(old(self)@),
    {
        self.store.new_unknown()
    }

    /// Enters a scope.
    pub fn enter_scope(&mut self)
        ensures
            final(self)@ == scope_entered(old(self)@),
    {
        self.symbols.push_scope();
    }

    /// Leaves the innermost scope.
    pub fn leave_scope(&mut self)
        ensures
            final(self)@ == scope_left(old(self)@),
    {
        if self.symbols.depth() > 1 {
            self.symbols.pop_scope();
        }
    }

    /// Defines all variants of a list.
    pub fn define_variants(&mut self, vs: &Vec<EnumVariant>)
        ensures
            final(self)@ == def_variants(old(self)@, enum_variants_v(vs@), 0),
    {
        let ghost e0 = self@;
        let mut i: usize = 0;
        while i < vs.len()
            invariant
                i <= vs@.len(),
                e0 == old(self)@,
                def_variants(e0, enum_variants_v(vs@), 0) == def_variants(self@, enum_variants_v(vs@), i as int),
            decreases vs@.len() - i,
        {
            assert(enum_variants_v(vs@)[i as int] == vs@[i as int]@);
            self.symbols.define_enum_variant(&vs[i]);
            i = i + 1;
        }
    }
}

} // verus!
