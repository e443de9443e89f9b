//! C code for modules and for whole programs.
use crate::ast::{lemma_block_v, lemma_stmt_parts, stmts_v, Stmt, StmtKind, StmtKindV, StmtV};
use crate::attrs::{mangled_under, Attributed};
use crate::c_text::{add_type_headers, declaration_of, type_declaration, type_headers};
use crate::decl::{copy_enum_definition, copy_function, copy_global_decl, copy_global_decls,
    copy_struct_definition,
    enum_definitions_v, enum_variants_v, field_list_v, functions_v, global_decls_v, includes_v, no_program,
    params_v, struct_definitions_v, EnumDefinition, EnumDefinitionV, EnumVariant, EnumVariantV, Field,
    FieldV, Function, FunctionV, GlobalDecl, GlobalDeclV, Include, IncludeV, Param, ParamV, Program,
    ProgramV, StructDefinition, StructDefinitionV};
use crate::emit_decl::{enum_c, struct_c, to_upper, upper_text};
use crate::emit_expr::{CodegenCtx, CtxV};
use crate::emit_stmt::{all_have_code, const_c, const_prefix, function_c, global_c, signature_c, type_c};
use crate::engine::{shapes_v, EnvV};
use crate::module::{copy_path, imports_v, ModuleImport, ModuleImportV, ModulePath};
use crate::name_mangling::{mangle_global, mangled};
use crate::registry::{all_headers, module_at, Module, ModuleV, RegistryV};
use crate::store::known_in;
use crate::text;
use crate::types::{c_name, copy_type, copy_types, lemma_type_v, type_v, types_v, Type, TypeId, TypeV};
use vstd::prelude::*;

verus! {

/// A list with one more type, where there is one: the known one of an index, else the written
/// one.
pub open spec fn with_type(e: EnvV, id: TypeId, written: Option<TypeV>, acc: Seq<TypeV>) -> Seq<TypeV> {
    match known_in(e.store, id) {
        Some(t) => acc.push(t),
        None => match written {
            Some(t) => acc.push(t),
            None => acc,
        },
    }
}

/// The types of the fields from position `i` on, appended to `acc`.
pub open spec fn field_types(e: EnvV, xs: Seq<FieldV>, i: int, acc: Seq<TypeV>) -> Seq<TypeV>
    decreases xs.len() - i,
{
    if i < 0 || i >= xs.len() {
        acc
    } else {
        field_types(e, xs, i + 1, with_type(e, xs[i].ty, xs[i].annotation, acc))
    }
}

/// The types of the arguments of the variants from position `i` on, appended to `acc`.
pub open spec fn variant_types(e: EnvV, xs: Seq<EnumVariantV>, i: int, acc: Seq<TypeV>) -> Seq<TypeV>
    decreases xs.len() - i,
{
    if i < 0 || i >= xs.len() {
        acc
    } else {
        variant_types(e, xs, i + 1, field_types(e, xs[i].args, 0, acc))
    }
}

/// The types of the fields of the structs from position `i` on, appended to `acc`.
pub open spec fn struct_types(e: EnvV, xs: Seq<StructDefinitionV>, i: int, acc: Seq<TypeV>) -> Seq<TypeV>
    decreases xs.len() - i,
{
    if i < 0 || i >= xs.len() {
        acc
    } else {
        struct_types(e, xs, i + 1, field_types(e, xs[i].fields, 0, acc))
    }
}

/// The types in the enums from position `i` on, appended to `acc`.
pub open spec fn enum_types(e: EnvV, xs: Seq<EnumDefinitionV>, i: int, acc: Seq<TypeV>) -> Seq<TypeV>
    decreases xs.len() - i,
{
    if i < 0 || i >= xs.len() {
        acc
    } else {
        enum_types(e, xs, i + 1, variant_types(e, xs[i].variants, 0, acc))
    }
}

/// The types of the globals from position `i` on, appended to `acc`.
pub open spec fn global_types(e: EnvV, xs: Seq<GlobalDeclV>, i: int, acc: Seq<TypeV>) -> Seq<TypeV>
    decreases xs.len() - i,
{
    if i < 0 || i >= xs.len() {
        acc
    } else {
        global_types(e, xs, i + 1, with_type(e, xs[i].inferred, None, acc))
    }
}

/// The types of the parameters from position `i` on, appended to `acc`.
pub open spec fn param_types(e: EnvV, xs: Seq<ParamV>, i: int, acc: Seq<TypeV>) -> Seq<TypeV>
    decreases xs.len() - i,
{
    if i < 0 || i >= xs.len() {
        acc
    } else {
        param_types(e, xs, i + 1, with_type(e, xs[i].ty, xs[i].annotation, acc))
    }
}

/// A list with the type of a variable, where a statement declares one.
pub open spec fn with_stmt_type(e: EnvV, s: StmtV, acc: Seq<TypeV>) -> Seq<TypeV> {
    match s.kind {
        StmtKindV::VarDecl { inferred, .. } => with_type(e, inferred, None, acc),
        _ => acc,
    }
}

/// The types of the variables that the statements from position `i` on declare, appended to
/// `acc`.
pub open spec fn stmt_types(e: EnvV, xs: Seq<StmtV>, i: int, acc: Seq<TypeV>) -> Seq<TypeV>
    decreases xs.len() - i,
{
    if i < 0 || i >= xs.len() {
        acc
    } else {
        stmt_types(e, xs, i + 1, with_stmt_type(e, xs[i], acc))
    }
}

/// A list with the return type of a function.
pub open spec fn with_return_type(e: EnvV, f: FunctionV, acc: Seq<TypeV>) -> Seq<TypeV> {
    match f.inferred_return {
        Some(id) => with_type(e, id, None, acc),
        None => match f.return_type {
            Some(t) => acc.push(t),
            None => acc,
        },
    }
}

/// The types of a function, appended to `acc`: of its result, its parameters, and the variables
/// that its body declares.
pub open spec fn function_types(e: EnvV, f: FunctionV, acc: Seq<TypeV>) -> Seq<TypeV> {
    stmt_types(e, f.body.stmts, 0, param_types(e, f.params, 0, with_return_type(e, f, acc)))
}

/// The types of the functions from position `i` on, appended to `acc`.
pub open spec fn functions_types(e: EnvV, xs: Seq<FunctionV>, i: int, acc: Seq<TypeV>) -> Seq<TypeV>
    decreases xs.len() - i,
{
    if i < 0 || i >= xs.len() {
        acc
    } else {
        functions_types(e, xs, i + 1, function_types(e, xs[i], acc))
    }
}

/// The types that a program uses, in the order in which it names them.
pub open spec fn program_types(e: EnvV, p: ProgramV) -> Seq<TypeV> {
    functions_types(
        e,
        p.functions,
        0,
        global_types(e, p.globals, 0, enum_types(e, p.enums, 0, struct_types(e, p.structs, 0, Seq::empty()))),
    )
}

/// The texts from position `j` on that are not in `acc` yet, appended to it.
pub open spec fn texts_added(acc: Seq<Seq<char>>, xs: Seq<Seq<char>>, j: int) -> Seq<Seq<char>>
    decreases xs.len() - j,
{
    if j < 0 || j >= xs.len() {
        acc
    } else {
        texts_added(
            if acc.contains(xs[j]) {
                acc
            } else {
                acc.push(xs[j])
            },
            xs,
            j + 1,
        )
    }
}

/// The C headers that the types from position `i` on need, each once, appended to `acc`.
pub open spec fn headers_needed(ts: Seq<TypeV>, i: int, acc: Seq<Seq<char>>) -> Seq<Seq<char>>
    decreases ts.len() - i,
{
    if i < 0 || i >= ts.len() {
        acc
    } else {
        headers_needed(ts, i + 1, texts_added(acc, type_headers(ts[i]), 0))
    }
}

/// The C declarations that the types from position `i` on need, each once, appended to `acc`.
pub open spec fn declarations_needed(ts: Seq<TypeV>, i: int, acc: Seq<Seq<char>>) -> Seq<Seq<char>>
    decreases ts.len() - i,
{
    if i < 0 || i >= ts.len() {
        acc
    } else {
        declarations_needed(
            ts,
            i + 1,
            match type_declaration(ts[i]) {
                Some(d) => if acc.contains(d) {
                    acc
                } else {
                    acc.push(d)
                },
                None => acc,
            },
        )
    }
}

/// The C headers that a program needs for its types.
pub open spec fn program_headers(e: EnvV, p: ProgramV) -> Seq<Seq<char>> {
    headers_needed(program_types(e, p), 0, Seq::empty())
}

/// The lines that name the C headers from position `i` on.
pub open spec fn header_lines(xs: Seq<Seq<char>>, i: int) -> Seq<char>
    decreases xs.len() - i,
{
    if i < 0 || i >= xs.len() {
        Seq::empty()
    } else {
        "#include "@ + xs[i] + "\n"@ + header_lines(xs, i + 1)
    }
}

/// The lines that name the C headers of the modules imported from position `i` on, where they
/// are loaded.
pub open spec fn import_lines(r: RegistryV, xs: Seq<ModuleImportV>, i: int) -> Seq<char>
    decreases xs.len() - i,
{
    if i < 0 || i >= xs.len() {
        Seq::empty()
    } else {
        (if module_at(r.modules, xs[i].path, 0) is Some { "#include \""@ + text::joined(xs[i].path, "_"@) + ".h\"\n"@ } else { Seq::empty() }) + import_lines(r, xs, i + 1)
    }
}

/// The lines that name the C headers that a module names itself, from position `i` on.
pub open spec fn c_header_lines(xs: Seq<IncludeV>, i: int) -> Seq<char>
    decreases xs.len() - i,
{
    if i < 0 || i >= xs.len() {
        Seq::empty()
    } else {
        "#include \""@ + xs[i].path + "\"\n"@ + c_header_lines(xs, i + 1)
    }
}

/// The C declarations of the structs from position `i` on.
pub open spec fn structs_c(c: CtxV, xs: Seq<StructDefinitionV>, i: int) -> Seq<char>
    decreases xs.len() - i,
{
    if i < 0 || i >= xs.len() {
        Seq::empty()
    } else {
        struct_c(c, xs[i]) + "\n"@ + structs_c(c, xs, i + 1)
    }
}

/// The C declarations of the enums from position `i` on.
pub open spec fn enums_c(c: CtxV, xs: Seq<EnumDefinitionV>, i: int) -> Seq<char>
    decreases xs.len() - i,
{
    if i < 0 || i >= xs.len() {
        Seq::empty()
    } else {
        enum_c(c, xs[i]) + "\n"@ + enums_c(c, xs, i + 1)
    }
}

/// The C code for the globals from position `i` on.
pub open spec fn globals_c(c: CtxV, xs: Seq<GlobalDeclV>, i: int) -> Seq<char>
    decreases xs.len() - i,
{
    if i < 0 || i >= xs.len() {
        Seq::empty()
    } else {
        global_c(c, xs[i]) + "\n"@ + globals_c(c, xs, i + 1)
    }
}

/// The C code for the functions from position `i` on.
pub open spec fn functions_c(c: CtxV, xs: Seq<FunctionV>, i: int) -> Seq<char>
    decreases xs.len() - i,
{
    if i < 0 || i >= xs.len() {
        Seq::empty()
    } else {
        function_c(c, xs[i]) + "\n\n"@ + functions_c(c, xs, i + 1)
    }
}

/// The C declarations of the functions from position `i` on.
pub open spec fn prototypes_c(c: CtxV, xs: Seq<FunctionV>, i: int) -> Seq<char>
    decreases xs.len() - i,
{
    if i < 0 || i >= xs.len() {
        Seq::empty()
    } else {
        signature_c(c.env, xs[i], c.module) + ";\n"@ + prototypes_c(c, xs, i + 1)
    }
}

/// The C name of the type of a global.
pub open spec fn global_type_c(c: CtxV, g: GlobalDeclV) -> Seq<char> {
    match known_in(c.env.store, g.inferred) {
        Some(t) => type_c(c.env, t, c.module),
        None => match g.annotation {
            Some(t) => c_name(t),
            None => "int"@,
        },
    }
}

/// The C declaration of a global for other modules.
pub open spec fn global_declaration(c: CtxV, g: GlobalDeclV) -> Seq<char> {
    "extern "@ + const_c(g.is_const) + global_type_c(c, g) + " "@ + mangled(mangled_under(g.metadata, c.module), g.name)
        + ";\n"@
}

/// The C declarations of the public globals from position `i` on, for other modules.
pub open spec fn global_declarations(c: CtxV, xs: Seq<GlobalDeclV>, i: int) -> Seq<char>
    decreases xs.len() - i,
{
    if i < 0 || i >= xs.len() {
        Seq::empty()
    } else {
        (if xs[i].is_public { global_declaration(c, xs[i]) } else { Seq::empty() }) + global_declarations(c, xs, i + 1)
    }
}

/// Texts, each on a line of its own, from position `i` on.
pub open spec fn lines(xs: Seq<Seq<char>>, i: int) -> Seq<char>
    decreases xs.len() - i,
{
    if i < 0 || i >= xs.len() {
        Seq::empty()
    } else {
        xs[i] + "\n"@ + lines(xs, i + 1)
    }
}

/// Whether some global is public.
pub open spec fn some_public(gs: Seq<GlobalDeclV>) -> bool {
    exists|i: int| 0 <= i < gs.len() && (#[trigger] gs[i]).is_public
}

/// A line feed, where the condition holds.
pub open spec fn line_if(b: bool) -> Seq<char> {
    if b {
        "\n"@
    } else {
        ""@
    }
}

/// The macro that guards the C header of a module.
pub open spec fn guard_name(path: Seq<Seq<char>>) -> Seq<char> {
    "KIT_MODULE_"@ + upper_text(text::joined(path, "_"@)) + "_H"@
}

/// The tuple types that occur in a program.
pub open spec fn tuple_types(e: EnvV) -> Seq<TypeV> {
    e.tuples.map_values(|s: (Seq<char>, Seq<TypeV>)| TypeV::Tuple(s.1))
}

/// The C declaration of the struct for a tuple, once in whatever names it more often.
pub open spec fn guarded_c(t: TypeV) -> Seq<char> {
    let guard = c_name(t) + "_DECLARED"@;
    "#ifndef "@ + guard + "\n#define "@ + guard + "\n"@ + (match type_declaration(t) {
        Some(d) => d,
        None => Seq::empty(),
    }) + "\n#endif\n"@
}

/// The C declarations of the structs for the tuples from position `i` on.
pub open spec fn tuples_c(ts: Seq<TypeV>, i: int) -> Seq<char>
    decreases ts.len() - i,
{
    if i < 0 || i >= ts.len() {
        Seq::empty()
    } else {
        guarded_c(ts[i]) + tuples_c(ts, i + 1)
    }
}

/// Every tuple that occurs in a program has its C struct declared.
pub proof fn law_tuples_are_declared(ts: Seq<TypeV>, i: int, k: int) -> (r: (Seq<char>, Seq<char>))
    requires
        0 <= i <= k < ts.len(),
    ensures
        tuples_c(ts, i) == r.0 + guarded_c(ts[k]) + r.1,
    decreases k - i,
{
    if i == k {
        assert(tuples_c(ts, i) =~= Seq::<char>::empty() + guarded_c(ts[k]) + tuples_c(ts, i + 1));
        (Seq::empty(), tuples_c(ts, i + 1))
    } else {
        let (a, b) = law_tuples_are_declared(ts, i + 1, k);
        assert(tuples_c(ts, i) =~= (guarded_c(ts[i]) + a) + guarded_c(ts[k]) + b);
        (guarded_c(ts[i]) + a, b)
    }
}

/// The C headers that a module needs for its own types and for the tuples.
pub open spec fn module_headers(e: EnvV, p: ProgramV) -> Seq<Seq<char>> {
    headers_needed(tuple_types(e) + program_types(e, p), 0, Seq::empty())
}

/// The C header of the current module, for the given program.
pub open spec fn module_header(c: CtxV, p: ProgramV, imports: Seq<ModuleImportV>) -> Seq<char> {
    let guard = guard_name(c.module);
    "#ifndef "@ + guard + "\n#define "@ + guard + "\n\n"@ + header_lines(module_headers(c.env, p), 0) + "\n"@
        + import_lines(c.registry, imports, 0) + line_if(imports.len() > 0) + tuples_c(tuple_types(c.env), 0)
        + line_if(c.env.tuples.len() > 0) + structs_c(c, p.structs, 0) + enums_c(
        c,
        p.enums,
        0,
    ) + global_declarations(c, p.globals, 0) + line_if(some_public(p.globals)) + prototypes_c(c, p.functions, 0)
        + "\n#endif /* "@ + guard + " */\n"@
}

/// The C code of the current module, for the given program.
pub open spec fn module_code(c: CtxV, p: ProgramV, imports: Seq<ModuleImportV>, includes: Seq<IncludeV>) -> Seq<char> {
    let headers = program_headers(c.env, p);
    "#include \""@ + text::joined(c.module, "_"@) + ".h\"\n"@ + import_lines(c.registry, imports, 0) + c_header_lines(
        includes,
        0,
    ) + "\n"@ + header_lines(headers, 0) + line_if(headers.len() > 0) + globals_c(c, p.globals, 0) + functions_c(
        c,
        p.functions,
        0,
    )
}

/// The C code of a whole program in one file.
pub open spec fn flat_code(c: CtxV, p: ProgramV) -> Seq<char> {
    let p = without_templates(p);
    let includes = all_headers(c.registry.modules, 0, Seq::empty());
    c_header_lines(includes, 0) + line_if(includes.len() > 0) + header_lines(program_headers(c.env, p), 0) + "\n"@ + lines(
        declarations_needed(program_types(c.env, p), 0, Seq::empty()),
        0,
    ) + structs_c(c, p.structs, 0) + enums_c(c, p.enums, 0) + globals_c(c, p.globals, 0) + functions_c(
        c,
        p.functions,
        0,
    )
}

/// Whether a definition of the merged program belongs to a module: the module declares the name,
/// or it is a realized definition of the module.
pub open spec fn belongs(e: EnvV, path: Seq<Seq<char>>, declared: bool, name: Seq<char>) -> bool {
    declared || (e.mono.mono_modules.contains_key(name) && e.mono.mono_modules[name] == path)
}

/// Whether one of the globals has the given name.
pub open spec fn global_declared(xs: Seq<GlobalDeclV>, name: Seq<char>) -> bool {
    exists|i: int| 0 <= i < xs.len() && (#[trigger] xs[i]).name == name
}

/// The globals from position `i` on that belong to a module with the given globals, appended to `acc`.
pub open spec fn globals_of(e: EnvV, path: Seq<Seq<char>>, own: Seq<GlobalDeclV>, xs: Seq<GlobalDeclV>, i: int, acc: Seq<GlobalDeclV>) -> Seq<GlobalDeclV>
    decreases xs.len() - i,
{
    if i < 0 || i >= xs.len() {
        acc
    } else if belongs(e, path, global_declared(own, xs[i].name), xs[i].name) {
        globals_of(e, path, own, xs, i + 1, acc.push(xs[i]))
    } else {
        globals_of(e, path, own, xs, i + 1, acc)
    }
}

/// Whether one of the functions has the given name.
pub open spec fn function_declared(xs: Seq<FunctionV>, name: Seq<char>) -> bool {
    exists|i: int| 0 <= i < xs.len() && (#[trigger] xs[i]).name == name
}

/// The functions from position `i` on that belong to a module with the given functions, appended to `acc`.
pub open spec fn functions_of(e: EnvV, path: Seq<Seq<char>>, own: Seq<FunctionV>, xs: Seq<FunctionV>, i: int, acc: Seq<FunctionV>) -> Seq<FunctionV>
    decreases xs.len() - i,
{
    if i < 0 || i >= xs.len() {
        acc
    } else if belongs(e, path, function_declared(own, xs[i].name), xs[i].name) {
        functions_of(e, path, own, xs, i + 1, acc.push(xs[i]))
    } else {
        functions_of(e, path, own, xs, i + 1, acc)
    }
}

/// Whether one of the structs has the given name.
pub open spec fn struct_declared(xs: Seq<StructDefinitionV>, name: Seq<char>) -> bool {
    exists|i: int| 0 <= i < xs.len() && (#[trigger] xs[i]).name == name
}

/// The structs from position `i` on that belong to a module with the given structs, appended to `acc`.
pub open spec fn structs_of(e: EnvV, path: Seq<Seq<char>>, own: Seq<StructDefinitionV>, xs: Seq<StructDefinitionV>, i: int, acc: Seq<StructDefinitionV>) -> Seq<StructDefinitionV>
    decreases xs.len() - i,
{
    if i < 0 || i >= xs.len() {
        acc
    } else if belongs(e, path, struct_declared(own, xs[i].name), xs[i].name) {
        structs_of(e, path, own, xs, i + 1, acc.push(xs[i]))
    } else {
        structs_of(e, path, own, xs, i + 1, acc)
    }
}

/// Whether one of the enums has the given name.
pub open spec fn enum_declared(xs: Seq<EnumDefinitionV>, name: Seq<char>) -> bool {
    exists|i: int| 0 <= i < xs.len() && (#[trigger] xs[i]).name == name
}

/// The enums from position `i` on that belong to a module with the given enums, appended to `acc`.
pub open spec fn enums_of(e: EnvV, path: Seq<Seq<char>>, own: Seq<EnumDefinitionV>, xs: Seq<EnumDefinitionV>, i: int, acc: Seq<EnumDefinitionV>) -> Seq<EnumDefinitionV>
    decreases xs.len() - i,
{
    if i < 0 || i >= xs.len() {
        acc
    } else if belongs(e, path, enum_declared(own, xs[i].name), xs[i].name) {
        enums_of(e, path, own, xs, i + 1, acc.push(xs[i]))
    } else {
        enums_of(e, path, own, xs, i + 1, acc)
    }
}

/// The functions from position `i` on that are not generic, appended to `acc`.
pub open spec fn plain_functions(xs: Seq<FunctionV>, i: int, acc: Seq<FunctionV>) -> Seq<FunctionV>
    decreases xs.len() - i,
{
    if i < 0 || i >= xs.len() {
        acc
    } else if xs[i].type_params.len() == 0 {
        plain_functions(xs, i + 1, acc.push(xs[i]))
    } else {
        plain_functions(xs, i + 1, acc)
    }
}

/// The structs from position `i` on that are not generic, appended to `acc`.
pub open spec fn plain_structs(xs: Seq<StructDefinitionV>, i: int, acc: Seq<StructDefinitionV>) -> Seq<StructDefinitionV>
    decreases xs.len() - i,
{
    if i < 0 || i >= xs.len() {
        acc
    } else if xs[i].type_params.len() == 0 {
        plain_structs(xs, i + 1, acc.push(xs[i]))
    } else {
        plain_structs(xs, i + 1, acc)
    }
}

/// The enums from position `i` on that are not generic, appended to `acc`.
pub open spec fn plain_enums(xs: Seq<EnumDefinitionV>, i: int, acc: Seq<EnumDefinitionV>) -> Seq<EnumDefinitionV>
    decreases xs.len() - i,
{
    if i < 0 || i >= xs.len() {
        acc
    } else if xs[i].type_params.len() == 0 {
        plain_enums(xs, i + 1, acc.push(xs[i]))
    } else {
        plain_enums(xs, i + 1, acc)
    }
}

/// A program without its generic functions, structs and enums, which have no C code: only their
/// realized forms have.
pub open spec fn without_templates(p: ProgramV) -> ProgramV {
    ProgramV {
        functions: plain_functions(p.functions, 0, Seq::empty()),
        structs: plain_structs(p.structs, 0, Seq::empty()),
        enums: plain_enums(p.enums, 0, Seq::empty()),
        globals: p.globals,
        ..no_program()
    }
}

/// The part of the merged program that belongs to a module and is emitted.
pub open spec fn module_part(e: EnvV, m: ModuleV, p: ProgramV) -> ProgramV {
    let p = without_templates(p);
    ProgramV {
        path: Some(m.path),
        globals: globals_of(e, m.path, m.program.globals, p.globals, 0, Seq::empty()),
        functions: functions_of(e, m.path, m.program.functions, p.functions, 0, Seq::empty()),
        structs: structs_of(e, m.path, m.program.structs, p.structs, 0, Seq::empty()),
        enums: enums_of(e, m.path, m.program.enums, p.enums, 0, Seq::empty()),
        ..no_program()
    }
}

/// Whether all functions have C code.
pub open spec fn functions_have_code(fs: Seq<FunctionV>) -> bool {
    forall|i: int| 0 <= i < fs.len() ==> all_have_code((#[trigger] fs[i]).body.stmts)
}

/// The part of a program that belongs to a module has C code where the whole program has.
pub proof fn law_module_part_has_code(e: EnvV, m: ModuleV, p: ProgramV)
    requires
        functions_have_code(p.functions),
    ensures
        functions_have_code(module_part(e, m, p).functions),
{
    lemma_plain_functions(p.functions, 0, Seq::empty());
    lemma_part_has_code(e, m.path, m.program.functions, without_templates(p).functions, 0, Seq::empty());
}

/// Nothing generic is emitted: what is emitted for a module has no type parameters.
pub proof fn law_nothing_generic_is_emitted(e: EnvV, m: ModuleV, p: ProgramV, i: int)
    ensures
        0 <= i < module_part(e, m, p).functions.len() ==> module_part(e, m, p).functions[i].type_params.len() == 0,
        0 <= i < module_part(e, m, p).structs.len() ==> module_part(e, m, p).structs[i].type_params.len() == 0,
        0 <= i < module_part(e, m, p).enums.len() ==> module_part(e, m, p).enums[i].type_params.len() == 0,
{
    let q = without_templates(p);
    lemma_plain_functions(p.functions, 0, Seq::empty());
    lemma_plain_structs(p.structs, 0, Seq::empty());
    lemma_plain_enums(p.enums, 0, Seq::empty());
    lemma_functions_of(e, m.path, m.program.functions, q.functions, 0, Seq::empty());
    lemma_structs_of(e, m.path, m.program.structs, q.structs, 0, Seq::empty());
    lemma_enums_of(e, m.path, m.program.enums, q.enums, 0, Seq::empty());
}

spec fn only_plain_functions(xs: Seq<FunctionV>) -> bool {
    forall|k: int| 0 <= k < xs.len() ==> (#[trigger] xs[k]).type_params.len() == 0
}

proof fn lemma_plain_functions(xs: Seq<FunctionV>, i: int, acc: Seq<FunctionV>)
    requires
        only_plain_functions(acc),
    ensures
        only_plain_functions(plain_functions(xs, i, acc)),
        functions_have_code(xs) && functions_have_code(acc) ==> functions_have_code(plain_functions(xs, i, acc)),
    decreases xs.len() - i,
{
    if 0 <= i < xs.len() {
        if xs[i].type_params.len() == 0 {
            let more = acc.push(xs[i]);
            assert(only_plain_functions(more)) by {
                assert forall|k: int| 0 <= k < more.len() implies (#[trigger] more[k]).type_params.len() == 0 by {
                    if k < acc.len() {
                        assert(more[k] == acc[k]);
                    }
                }
            }
            if functions_have_code(xs) && functions_have_code(acc) {
                assert forall|k: int| 0 <= k < more.len() implies all_have_code((#[trigger] more[k]).body.stmts) by {
                    if k < acc.len() {
                        assert(more[k] == acc[k]);
                    }
                }
            }
            lemma_plain_functions(xs, i + 1, more);
        } else {
            lemma_plain_functions(xs, i + 1, acc);
        }
    }
}

proof fn lemma_functions_of(e: EnvV, path: Seq<Seq<char>>, own: Seq<FunctionV>, xs: Seq<FunctionV>, i: int, acc: Seq<FunctionV>)
    requires
        only_plain_functions(xs),
        only_plain_functions(acc),
    ensures
        only_plain_functions(functions_of(e, path, own, xs, i, acc)),
    decreases xs.len() - i,
{
    if 0 <= i < xs.len() {
        let more = acc.push(xs[i]);
        assert(only_plain_functions(more)) by {
            assert forall|k: int| 0 <= k < more.len() implies (#[trigger] more[k]).type_params.len() == 0 by {
                if k < acc.len() {
                    assert(more[k] == acc[k]);
                }
            }
        }
        lemma_functions_of(e, path, own, xs, i + 1, more);
        lemma_functions_of(e, path, own, xs, i + 1, acc);
    }
}

spec fn only_plain_structs(xs: Seq<StructDefinitionV>) -> bool {
    forall|k: int| 0 <= k < xs.len() ==> (#[trigger] xs[k]).type_params.len() == 0
}

proof fn lemma_plain_structs(xs: Seq<StructDefinitionV>, i: int, acc: Seq<StructDefinitionV>)
    requires
        only_plain_structs(acc),
    ensures
        only_plain_structs(plain_structs(xs, i, acc)),
    decreases xs.len() - i,
{
    if 0 <= i < xs.len() {
        if xs[i].type_params.len() == 0 {
            let more = acc.push(xs[i]);
            assert(only_plain_structs(more)) by {
                assert forall|k: int| 0 <= k < more.len() implies (#[trigger] more[k]).type_params.len() == 0 by {
                    if k < acc.len() {
                        assert(more[k] == acc[k]);
                    }
                }
            }
            lemma_plain_structs(xs, i + 1, more);
        } else {
            lemma_plain_structs(xs, i + 1, acc);
        }
    }
}

proof fn lemma_structs_of(e: EnvV, path: Seq<Seq<char>>, own: Seq<StructDefinitionV>, xs: Seq<StructDefinitionV>, i: int, acc: Seq<StructDefinitionV>)
    requires
        only_plain_structs(xs),
        only_plain_structs(acc),
    ensures
        only_plain_structs(structs_of(e, path, own, xs, i, acc)),
    decreases xs.len() - i,
{
    if 0 <= i < xs.len() {
        let more = acc.push(xs[i]);
        assert(only_plain_structs(more)) by {
            assert forall|k: int| 0 <= k < more.len() implies (#[trigger] more[k]).type_params.len() == 0 by {
                if k < acc.len() {
                    assert(more[k] == acc[k]);
                }
            }
        }
        lemma_structs_of(e, path, own, xs, i + 1, more);
        lemma_structs_of(e, path, own, xs, i + 1, acc);
    }
}

spec fn only_plain_enums(xs: Seq<EnumDefinitionV>) -> bool {
    forall|k: int| 0 <= k < xs.len() ==> (#[trigger] xs[k]).type_params.len() == 0
}

proof fn lemma_plain_enums(xs: Seq<EnumDefinitionV>, i: int, acc: Seq<EnumDefinitionV>)
    requires
        only_plain_enums(acc),
    ensures
        only_plain_enums(plain_enums(xs, i, acc)),
    decreases xs.len() - i,
{
    if 0 <= i < xs.len() {
        if xs[i].type_params.len() == 0 {
            let more = acc.push(xs[i]);
            assert(only_plain_enums(more)) by {
                assert forall|k: int| 0 <= k < more.len() implies (#[trigger] more[k]).type_params.len() == 0 by {
                    if k < acc.len() {
                        assert(more[k] == acc[k]);
                    }
                }
            }
            lemma_plain_enums(xs, i + 1, more);
        } else {
            lemma_plain_enums(xs, i + 1, acc);
        }
    }
}

proof fn lemma_enums_of(e: EnvV, path: Seq<Seq<char>>, own: Seq<EnumDefinitionV>, xs: Seq<EnumDefinitionV>, i: int, acc: Seq<EnumDefinitionV>)
    requires
        only_plain_enums(xs),
        only_plain_enums(acc),
    ensures
        only_plain_enums(enums_of(e, path, own, xs, i, acc)),
    decreases xs.len() - i,
{
    if 0 <= i < xs.len() {
        let more = acc.push(xs[i]);
        assert(only_plain_enums(more)) by {
            assert forall|k: int| 0 <= k < more.len() implies (#[trigger] more[k]).type_params.len() == 0 by {
                if k < acc.len() {
                    assert(more[k] == acc[k]);
                }
            }
        }
        lemma_enums_of(e, path, own, xs, i + 1, more);
        lemma_enums_of(e, path, own, xs, i + 1, acc);
    }
}

proof fn lemma_part_has_code(e: EnvV, path: Seq<Seq<char>>, own: Seq<FunctionV>, xs: Seq<FunctionV>, i: int, acc: Seq<FunctionV>)
    requires
        functions_have_code(xs),
        functions_have_code(acc),
    ensures
        functions_have_code(functions_of(e, path, own, xs, i, acc)),
    decreases xs.len() - i,
{
    if 0 <= i < xs.len() {
        if belongs(e, path, function_declared(own, xs[i].name), xs[i].name) {
            let more = acc.push(xs[i]);
            assert(functions_have_code(more)) by {
                assert forall|k: int| 0 <= k < more.len() implies all_have_code((#[trigger] more[k]).body.stmts) by {
                    if k < acc.len() {
                        assert(more[k] == acc[k]);
                    }
                }
            }
            lemma_part_has_code(e, path, own, xs, i + 1, more);
        } else {
            lemma_part_has_code(e, path, own, xs, i + 1, acc);
        }
    }
}

/// No C header is named twice for the types of a program.
pub proof fn law_headers_are_named_once(ts: Seq<TypeV>, i: int, acc: Seq<Seq<char>>)
    requires
        acc.no_duplicates(),
    ensures
        headers_needed(ts, i, acc).no_duplicates(),
    decreases ts.len() - i,
{
    if 0 <= i < ts.len() {
        lemma_added_once(acc, type_headers(ts[i]), 0);
        law_headers_are_named_once(ts, i + 1, texts_added(acc, type_headers(ts[i]), 0));
    }
}

proof fn lemma_added_once(acc: Seq<Seq<char>>, xs: Seq<Seq<char>>, j: int)
    requires
        acc.no_duplicates(),
    ensures
        texts_added(acc, xs, j).no_duplicates(),
    decreases xs.len() - j,
{
    if 0 <= j < xs.len() {
        if acc.contains(xs[j]) {
            lemma_added_once(acc, xs, j + 1);
        } else {
            let more = acc.push(xs[j]);
            assert(more.no_duplicates()) by {
                assert forall|a: int, b: int| 0 <= a < b < more.len() implies more[a] != more[b] by {
                    if b == acc.len() {
                        assert(acc[a] == more[a]);
                        assert(acc.contains(acc[a]));
                    }
                }
            }
            lemma_added_once(more, xs, j + 1);
        }
    }
}

fn take_plain_functions(xs: &Vec<Function>) -> (r: Vec<Function>)
    ensures
        functions_v(r@) == plain_functions(functions_v(xs@), 0, Seq::empty()),
{
    let mut out: Vec<Function> = Vec::new();
    let mut i: usize = 0;
    proof {
        assert(functions_v(out@) =~= Seq::<FunctionV>::empty());
    }
    while i < xs.len()
        invariant
            i <= xs@.len(),
            plain_functions(functions_v(xs@), 0, Seq::empty()) == plain_functions(functions_v(xs@), i as int, functions_v(out@)),
        decreases xs@.len() - i,
    {
        assert(functions_v(xs@)[i as int] == xs@[i as int]@);
        assert(xs@[i as int]@.type_params.len() == xs@[i as int].type_params@.len());
        if xs[i].type_params.len() == 0 {
            let x = copy_function(&xs[i]);
            proof {
                assert(functions_v(out@.push(x)) =~= functions_v(out@).push(x@));
            }
            out.push(x);
        }
        i = i + 1;
    }
    out
}

fn take_plain_structs(xs: &Vec<StructDefinition>) -> (r: Vec<StructDefinition>)
    ensures
        struct_definitions_v(r@) == plain_structs(struct_definitions_v(xs@), 0, Seq::empty()),
{
    let mut out: Vec<StructDefinition> = Vec::new();
    let mut i: usize = 0;
    proof {
        assert(struct_definitions_v(out@) =~= Seq::<StructDefinitionV>::empty());
    }
    while i < xs.len()
        invariant
            i <= xs@.len(),
            plain_structs(struct_definitions_v(xs@), 0, Seq::empty()) == plain_structs(struct_definitions_v(xs@), i as int, struct_definitions_v(out@)),
        decreases xs@.len() - i,
    {
        assert(struct_definitions_v(xs@)[i as int] == xs@[i as int]@);
        assert(xs@[i as int]@.type_params.len() == xs@[i as int].type_params@.len());
        if xs[i].type_params.len() == 0 {
            let x = copy_struct_definition(&xs[i]);
            proof {
                assert(struct_definitions_v(out@.push(x)) =~= struct_definitions_v(out@).push(x@));
            }
            out.push(x);
        }
        i = i + 1;
    }
    out
}

fn take_plain_enums(xs: &Vec<EnumDefinition>) -> (r: Vec<EnumDefinition>)
    ensures
        enum_definitions_v(r@) == plain_enums(enum_definitions_v(xs@), 0, Seq::empty()),
{
    let mut out: Vec<EnumDefinition> = Vec::new();
    let mut i: usize = 0;
    proof {
        assert(enum_definitions_v(out@) =~= Seq::<EnumDefinitionV>::empty());
    }
    while i < xs.len()
        invariant
            i <= xs@.len(),
            plain_enums(enum_definitions_v(xs@), 0, Seq::empty()) == plain_enums(enum_definitions_v(xs@), i as int, enum_definitions_v(out@)),
        decreases xs@.len() - i,
    {
        assert(enum_definitions_v(xs@)[i as int] == xs@[i as int]@);
        assert(xs@[i as int]@.type_params.len() == xs@[i as int].type_params@.len());
        if xs[i].type_params.len() == 0 {
            let x = copy_enum_definition(&xs[i]);
            proof {
                assert(enum_definitions_v(out@.push(x)) =~= enum_definitions_v(out@).push(x@));
            }
            out.push(x);
        }
        i = i + 1;
    }
    out
}

fn show_tuples(ts: &Vec<Type>) -> (r: String)
    ensures
        r@ == tuples_c(types_v(ts@), 0),
{
    let ghost tv = types_v(ts@);
    let mut out = String::new();
    let mut i: usize = 0;
    proof {
        assert(out@ + tuples_c(tv, 0) =~= tuples_c(tv, 0));
    }
    while i < ts.len()
        invariant
            i <= ts@.len(),
            tv == types_v(ts@),
            out@ + tuples_c(tv, i as int) == tuples_c(tv, 0),
        decreases ts@.len() - i,
    {
        let ghost before = out@;
        assert(tv[i as int] == ts@[i as int]@);
        let guard = ts[i].to_c_name().concat("_DECLARED");
        let declared = match declaration_of(&ts[i]) {
            Some(d) => d,
            None => String::new(),
        };
        let text = "#ifndef ".to_owned().concat(guard.as_str()).concat("\n#define ").concat(guard.as_str()).concat(
            "\n",
        ).concat(declared.as_str()).concat("\n#endif\n");
        proof {
            assert(text@ == guarded_c(tv[i as int]));
        }
        out = out.concat(text.as_str());
        proof {
            assert(out@ + tuples_c(tv, i + 1) =~= before + tuples_c(tv, i as int));
        }
        i = i + 1;
    }
    proof {
        assert(out@ + tuples_c(tv, i as int) =~= out@);
    }
    out
}

fn take_emitted(p: &Program) -> (r: Program)
    ensures
        r@ == without_templates(p@),
{
    let mut out = Program::empty();
    out.globals = copy_global_decls(&p.globals);
    out.functions = take_plain_functions(&p.functions);
    out.structs = take_plain_structs(&p.structs);
    out.enums = take_plain_enums(&p.enums);
    out
}

/// Whether all functions have C code.
pub fn functions_are_emittable(fs: &Vec<Function>) -> (r: bool)
    ensures
        r == functions_have_code(functions_v(fs@)),
{
    let mut i: usize = 0;
    while i < fs.len()
        invariant
            i <= fs@.len(),
            forall|j: int| 0 <= j < i ==> all_have_code((#[trigger] functions_v(fs@)[j]).body.stmts),
        decreases fs@.len() - i,
    {
        proof {
            assert(functions_v(fs@)[i as int] == fs@[i as int]@);
            lemma_block_v(fs@[i as int].body);
        }
        if !crate::emit_stmt::are_emittable(&fs[i].body.stmts) {
            return false;
        }
        i = i + 1;
    }
    true
}

fn add_texts(acc: &mut Vec<String>, xs: &Vec<String>)
    ensures
        text::texts(final(acc)@) == texts_added(text::texts(old(acc)@), text::texts(xs@), 0),
{
    let ghost a0 = acc@;
    let mut j: usize = 0;
    while j < xs.len()
        invariant
            j <= xs@.len(),
            a0 == old(acc)@,
            texts_added(text::texts(a0), text::texts(xs@), 0) == texts_added(
                text::texts(acc@),
                text::texts(xs@),
                j as int,
            ),
        decreases xs@.len() - j,
    {
        assert(text::texts(xs@)[j as int] == xs@[j as int]@);
        if !text::holds_text(acc, xs[j].as_str()) {
            let s = xs[j].clone();
            proof {
                assert(text::texts(acc@.push(s)) =~= text::texts(acc@).push(s@));
            }
            acc.push(s);
        }
        j = j + 1;
    }
}

fn headers_of_types(ts: &Vec<Type>) -> (r: Vec<String>)
    ensures
        text::texts(r@) == headers_needed(types_v(ts@), 0, Seq::empty()),
{
    let mut out: Vec<String> = Vec::new();
    let mut i: usize = 0;
    proof {
        assert(text::texts(out@) =~= Seq::<Seq<char>>::empty());
    }
    while i < ts.len()
        invariant
            i <= ts@.len(),
            headers_needed(types_v(ts@), 0, Seq::empty()) == headers_needed(
                types_v(ts@),
                i as int,
                text::texts(out@),
            ),
        decreases ts@.len() - i,
    {
        assert(types_v(ts@)[i as int] == ts@[i as int]@);
        let mut hs: Vec<String> = Vec::new();
        add_type_headers(&ts[i], &mut hs);
        assert(text::texts(hs@) =~= type_headers(ts@[i as int]@));
        add_texts(&mut out, &hs);
        i = i + 1;
    }
    out
}

fn declarations_of_types(ts: &Vec<Type>) -> (r: Vec<String>)
    ensures
        text::texts(r@) == declarations_needed(types_v(ts@), 0, Seq::empty()),
{
    let mut out: Vec<String> = Vec::new();
    let mut i: usize = 0;
    proof {
        assert(text::texts(out@) =~= Seq::<Seq<char>>::empty());
    }
    while i < ts.len()
        invariant
            i <= ts@.len(),
            declarations_needed(types_v(ts@), 0, Seq::empty()) == declarations_needed(
                types_v(ts@),
                i as int,
                text::texts(out@),
            ),
        decreases ts@.len() - i,
    {
        assert(types_v(ts@)[i as int] == ts@[i as int]@);
        match declaration_of(&ts[i]) {
            Some(d) => {
                if !text::holds_text(&out, d.as_str()) {
                    proof {
                        assert(text::texts(out@.push(d)) =~= text::texts(out@).push(d@));
                    }
                    out.push(d);
                }
            },
            None => {},
        }
        i = i + 1;
    }
    out
}

fn line_when(b: bool) -> (r: &'static str)
    ensures
        r@ == line_if(b),
{
    if b {
        "\n"
    } else {
        ""
    }
}

fn has_public(gs: &Vec<GlobalDecl>) -> (r: bool)
    ensures
        r == some_public(global_decls_v(gs@)),
{
    let mut i: usize = 0;
    while i < gs.len()
        invariant
            i <= gs@.len(),
            forall|j: int| 0 <= j < i ==> !(#[trigger] global_decls_v(gs@)[j]).is_public,
        decreases gs@.len() - i,
    {
        assert(global_decls_v(gs@)[i as int] == gs@[i as int]@);
        if gs[i].is_public {
            return true;
        }
        i = i + 1;
    }
    false
}

fn names_global(xs: &Vec<GlobalDecl>, name: &str) -> (r: bool)
    ensures
        r == global_declared(global_decls_v(xs@), name@),
{
    let mut i: usize = 0;
    while i < xs.len()
        invariant
            i <= xs@.len(),
            forall|j: int| 0 <= j < i ==> (#[trigger] global_decls_v(xs@)[j]).name != name@,
        decreases xs@.len() - i,
    {
        assert(global_decls_v(xs@)[i as int] == xs@[i as int]@);
        if text::text_eq(xs[i].name.as_str(), name) {
            return true;
        }
        i = i + 1;
    }
    false
}

fn names_function(xs: &Vec<Function>, name: &str) -> (r: bool)
    ensures
        r == function_declared(functions_v(xs@), name@),
{
    let mut i: usize = 0;
    while i < xs.len()
        invariant
            i <= xs@.len(),
            forall|j: int| 0 <= j < i ==> (#[trigger] functions_v(xs@)[j]).name != name@,
        decreases xs@.len() - i,
    {
        assert(functions_v(xs@)[i as int] == xs@[i as int]@);
        if text::text_eq(xs[i].name.as_str(), name) {
            return true;
        }
        i = i + 1;
    }
    false
}

fn names_struct(xs: &Vec<StructDefinition>, name: &str) -> (r: bool)
    ensures
        r == struct_declared(struct_definitions_v(xs@), name@),
{
    let mut i: usize = 0;
    while i < xs.len()
        invariant
            i <= xs@.len(),
            forall|j: int| 0 <= j < i ==> (#[trigger] struct_definitions_v(xs@)[j]).name != name@,
        decreases xs@.len() - i,
    {
        assert(struct_definitions_v(xs@)[i as int] == xs@[i as int]@);
        if text::text_eq(xs[i].name.as_str(), name) {
            return true;
        }
        i = i + 1;
    }
    false
}

fn names_enum(xs: &Vec<EnumDefinition>, name: &str) -> (r: bool)
    ensures
        r == enum_declared(enum_definitions_v(xs@), name@),
{
    let mut i: usize = 0;
    while i < xs.len()
        invariant
            i <= xs@.len(),
            forall|j: int| 0 <= j < i ==> (#[trigger] enum_definitions_v(xs@)[j]).name != name@,
        decreases xs@.len() - i,
    {
        assert(enum_definitions_v(xs@)[i as int] == xs@[i as int]@);
        if text::text_eq(xs[i].name.as_str(), name) {
            return true;
        }
        i = i + 1;
    }
    false
}

impl<'a> CodegenCtx<'a> {
    fn add_type(&self, id: TypeId, written: Option<&Type>, out: &mut Vec<Type>)
        ensures
            types_v(final(out)@) == with_type(
                self@.env,
                id,
                crate::monomorph::opt_ref_v(written),
                types_v(old(out)@),
            ),
    {
        let ghost o = out@;
        let t = match self.inferencer.store.resolve(id) {
            Ok(t) => Some(t),
            Err(_) => match written {
                Some(t) => Some(copy_type(t)),
                None => None,
            },
        };
        match t {
            Some(t) => {
                let ghost tv = t@;
                out.push(t);
                proof {
                    assert(types_v(out@) =~= types_v(o).push(tv));
                }
            },
            None => {},
        }
    }

    fn add_field_types(&self, xs: &Vec<Field>, out: &mut Vec<Type>)
        ensures
            types_v(final(out)@) == field_types(self@.env, field_list_v(xs@), 0, types_v(old(out)@)),
    {
        let ghost o0 = out@;
        let mut i: usize = 0;
        while i < xs.len()
            invariant
                i <= xs@.len(),
                o0 == old(out)@,
                field_types(self@.env, field_list_v(xs@), 0, types_v(o0)) == field_types(self@.env, field_list_v(xs@), i as int, types_v(out@)),
            decreases xs@.len() - i,
        {
            assert(field_list_v(xs@)[i as int] == xs@[i as int]@);
            self.add_type(xs[i].ty, xs[i].annotation.as_ref(), out);
            i = i + 1;
        }
    }

    fn add_variant_types(&self, xs: &Vec<EnumVariant>, out: &mut Vec<Type>)
        ensures
            types_v(final(out)@) == variant_types(self@.env, enum_variants_v(xs@), 0, types_v(old(out)@)),
    {
        let ghost o0 = out@;
        let mut i: usize = 0;
        while i < xs.len()
            invariant
                i <= xs@.len(),
                o0 == old(out)@,
                variant_types(self@.env, enum_variants_v(xs@), 0, types_v(o0)) == variant_types(self@.env, enum_variants_v(xs@), i as int, types_v(out@)),
            decreases xs@.len() - i,
        {
            assert(enum_variants_v(xs@)[i as int] == xs@[i as int]@);
            self.add_field_types(&xs[i].args, out);
            i = i + 1;
        }
    }

    fn add_struct_types(&self, xs: &Vec<StructDefinition>, out: &mut Vec<Type>)
        ensures
            types_v(final(out)@) == struct_types(self@.env, struct_definitions_v(xs@), 0, types_v(old(out)@)),
    {
        let ghost o0 = out@;
        let mut i: usize = 0;
        while i < xs.len()
            invariant
                i <= xs@.len(),
                o0 == old(out)@,
                struct_types(self@.env, struct_definitions_v(xs@), 0, types_v(o0)) == struct_types(self@.env, struct_definitions_v(xs@), i as int, types_v(out@)),
            decreases xs@.len() - i,
        {
            assert(struct_definitions_v(xs@)[i as int] == xs@[i as int]@);
            self.add_field_types(&xs[i].fields, out);
            i = i + 1;
        }
    }

    fn add_enum_types(&self, xs: &Vec<EnumDefinition>, out: &mut Vec<Type>)
        ensures
            types_v(final(out)@) == enum_types(self@.env, enum_definitions_v(xs@), 0, types_v(old(out)@)),
    {
        let ghost o0 = out@;
        let mut i: usize = 0;
        while i < xs.len()
            invariant
                i <= xs@.len(),
                o0 == old(out)@,
                enum_types(self@.env, enum_definitions_v(xs@), 0, types_v(o0)) == enum_types(self@.env, enum_definitions_v(xs@), i as int, types_v(out@)),
            decreases xs@.len() - i,
        {
            assert(enum_definitions_v(xs@)[i as int] == xs@[i as int]@);
            self.add_variant_types(&xs[i].variants, out);
            i = i + 1;
        }
    }

    fn add_global_types(&self, xs: &Vec<GlobalDecl>, out: &mut Vec<Type>)
        ensures
            types_v(final(out)@) == global_types(self@.env, global_decls_v(xs@), 0, types_v(old(out)@)),
    {
        let ghost o0 = out@;
        let mut i: usize = 0;
        while i < xs.len()
            invariant
                i <= xs@.len(),
                o0 == old(out)@,
                global_types(self@.env, global_decls_v(xs@), 0, types_v(o0)) == global_types(self@.env, global_decls_v(xs@), i as int, types_v(out@)),
            decreases xs@.len() - i,
        {
            assert(global_decls_v(xs@)[i as int] == xs@[i as int]@);
            self.add_type(xs[i].inferred, None, out);
            i = i + 1;
        }
    }

    fn add_param_types(&self, xs: &Vec<Param>, out: &mut Vec<Type>)
        ensures
            types_v(final(out)@) == param_types(self@.env, params_v(xs@), 0, types_v(old(out)@)),
    {
        let ghost o0 = out@;
        let mut i: usize = 0;
        while i < xs.len()
            invariant
                i <= xs@.len(),
                o0 == old(out)@,
                param_types(self@.env, params_v(xs@), 0, types_v(o0)) == param_types(self@.env, params_v(xs@), i as int, types_v(out@)),
            decreases xs@.len() - i,
        {
            assert(params_v(xs@)[i as int] == xs@[i as int]@);
            self.add_type(xs[i].ty, xs[i].annotation.as_ref(), out);
            i = i + 1;
        }
    }

    fn add_stmt_types(&self, xs: &Vec<Stmt>, out: &mut Vec<Type>)
        ensures
            types_v(final(out)@) == stmt_types(self@.env, stmts_v(xs@), 0, types_v(old(out)@)),
    {
        let ghost o0 = out@;
        let mut i: usize = 0;
        while i < xs.len()
            invariant
                i <= xs@.len(),
                o0 == old(out)@,
                stmt_types(self@.env, stmts_v(xs@), 0, types_v(o0)) == stmt_types(self@.env, stmts_v(xs@), i as int, types_v(out@)),
            decreases xs@.len() - i,
        {
            assert(stmts_v(xs@)[i as int] == xs@[i as int]@);
            proof {
                lemma_stmt_parts(xs@[i as int]);
            }
            match &xs[i].kind {
                StmtKind::VarDecl { name: _, annotation: _, inferred, init: _ } => self.add_type(*inferred, None, out),
                _ => {},
            }
            i = i + 1;
        }
    }

    fn add_function_types(&self, f: &Function, out: &mut Vec<Type>)
        ensures
            types_v(final(out)@) == function_types(self@.env, f@, types_v(old(out)@)),
    {
        let ghost o = out@;
        match f.inferred_return {
            Some(id) => self.add_type(id, None, out),
            None => match &f.return_type {
                Some(t) => {
                    let c = copy_type(t);
                    out.push(c);
                    proof {
                        assert(types_v(out@) =~= types_v(o).push(t@));
                    }
                },
                None => {},
            },
        }
        self.add_param_types(&f.params, out);
        proof {
            lemma_block_v(f.body);
        }
        self.add_stmt_types(&f.body.stmts, out);
    }

    fn add_functions_types(&self, xs: &Vec<Function>, out: &mut Vec<Type>)
        ensures
            types_v(final(out)@) == functions_types(self@.env, functions_v(xs@), 0, types_v(old(out)@)),
    {
        let ghost o0 = out@;
        let mut i: usize = 0;
        while i < xs.len()
            invariant
                i <= xs@.len(),
                o0 == old(out)@,
                functions_types(self@.env, functions_v(xs@), 0, types_v(o0)) == functions_types(self@.env, functions_v(xs@), i as int, types_v(out@)),
            decreases xs@.len() - i,
        {
            assert(functions_v(xs@)[i as int] == xs@[i as int]@);
            self.add_function_types(&xs[i], out);
            i = i + 1;
        }
    }

    /// The types that a program uses.
    pub fn visit_program_types(&self, p: &Program) -> (r: Vec<Type>)
        ensures
            types_v(r@) == program_types(self@.env, p@),
    {
        let mut out: Vec<Type> = Vec::new();
        proof {
            assert(types_v(out@) =~= Seq::<TypeV>::empty());
        }
        self.add_struct_types(&p.structs, &mut out);
        self.add_enum_types(&p.enums, &mut out);
        self.add_global_types(&p.globals, &mut out);
        self.add_functions_types(&p.functions, &mut out);
        out
    }

    fn used_tuples(&self) -> (r: Vec<Type>)
        ensures
            types_v(r@) == tuple_types(self@.env),
    {
        let shapes = self.inferencer.tuple_shapes();
        let ghost all = tuple_types(self@.env);
        let mut out: Vec<Type> = Vec::new();
        let mut i: usize = 0;
        while i < shapes.len()
            invariant
                i <= shapes@.len(),
                all == tuple_types(self@.env),
                shapes_v(shapes@) == self@.env.tuples,
                types_v(out@) =~= all.take(i as int),
            decreases shapes@.len() - i,
        {
            let elems = copy_types(&shapes[i].1);
            let ghost ev = types_v(elems@);
            let t = Type::Tuple(elems);
            proof {
                lemma_type_v(t);
                assert(type_v(t) == TypeV::Tuple(ev));
                assert(shapes_v(shapes@)[i as int] == (shapes@[i as int].0@, types_v(shapes@[i as int].1@)));
                assert(all.take(i + 1) =~= all.take(i as int).push(t@));
                assert(types_v(out@.push(t)) =~= types_v(out@).push(t@));
            }
            out.push(t);
            i = i + 1;
        }
        proof {
            assert(all.take(all.len() as int) =~= all);
        }
        out
    }

    /// The C headers that a program needs for its types.
    pub fn collect_type_headers(&self, p: &Program) -> (r: Vec<String>)
        ensures
            text::texts(r@) == program_headers(self@.env, p@),
    {
        headers_of_types(&self.visit_program_types(p))
    }

    /// The C headers and declarations that a program needs for its types.
    pub fn collect_type_headers_and_decls(&self, p: &Program) -> (r: (Vec<String>, Vec<String>))
        ensures
            text::texts(r.0@) == program_headers(self@.env, p@),
            text::texts(r.1@) == declarations_needed(program_types(self@.env, p@), 0, Seq::empty()),
    {
        let ts = self.visit_program_types(p);
        (headers_of_types(&ts), declarations_of_types(&ts))
    }

    fn show_headers(&self, xs: &Vec<String>) -> (r: String)
        ensures
            r@ == header_lines(text::texts(xs@), 0),
    {
        let ghost vs = text::texts(xs@);
        let mut out = String::new();
        let mut i: usize = 0;
        proof {
            assert(out@ + header_lines(text::texts(xs@), 0) =~= header_lines(text::texts(xs@), 0));
        }
        while i < xs.len()
            invariant
                i <= xs@.len(),
                vs == text::texts(xs@),
                out@ + header_lines(text::texts(xs@), i as int) == header_lines(text::texts(xs@), 0),
            decreases xs@.len() - i,
        {
            let ghost before = out@;
            assert(vs[i as int] == xs@[i as int]@);
            out = out.concat("#include ").concat(xs[i].as_str()).concat("\n");
            proof {
                assert(out@ + header_lines(text::texts(xs@), i + 1) =~= before + header_lines(text::texts(xs@), i as int));
            }
            i = i + 1;
        }
        proof {
            assert(out@ + header_lines(text::texts(xs@), i as int) =~= out@);
        }
        out
    }

    fn show_lines(&self, xs: &Vec<String>) -> (r: String)
        ensures
            r@ == lines(text::texts(xs@), 0),
    {
        let ghost vs = text::texts(xs@);
        let mut out = String::new();
        let mut i: usize = 0;
        proof {
            assert(out@ + lines(text::texts(xs@), 0) =~= lines(text::texts(xs@), 0));
        }
        while i < xs.len()
            invariant
                i <= xs@.len(),
                vs == text::texts(xs@),
                out@ + lines(text::texts(xs@), i as int) == lines(text::texts(xs@), 0),
            decreases xs@.len() - i,
        {
            let ghost before = out@;
            assert(vs[i as int] == xs@[i as int]@);
            out = out.concat(xs[i].as_str()).concat("\n");
            proof {
                assert(out@ + lines(text::texts(xs@), i + 1) =~= before + lines(text::texts(xs@), i as int));
            }
            i = i + 1;
        }
        proof {
            assert(out@ + lines(text::texts(xs@), i as int) =~= out@);
        }
        out
    }

    fn show_imports(&self, xs: &Vec<ModuleImport>) -> (r: String)
        ensures
            r@ == import_lines(self@.registry, imports_v(xs@), 0),
    {
        let ghost vs = imports_v(xs@);
        let mut out = String::new();
        let mut i: usize = 0;
        proof {
            assert(out@ + import_lines(self@.registry, imports_v(xs@), 0) =~= import_lines(self@.registry, imports_v(xs@), 0));
        }
        while i < xs.len()
            invariant
                i <= xs@.len(),
                vs == imports_v(xs@),
                out@ + import_lines(self@.registry, imports_v(xs@), i as int) == import_lines(self@.registry, imports_v(xs@), 0),
            decreases xs@.len() - i,
        {
            let ghost before = out@;
            assert(vs[i as int] == xs@[i as int]@);
            if self.registry.contains(&xs[i].path) {
                out = out.concat("#include \"").concat(xs[i].path.join("_").as_str()).concat(".h\"\n");
            }
            proof {
                assert(out@ + import_lines(self@.registry, imports_v(xs@), i + 1) =~= before + import_lines(self@.registry, imports_v(xs@), i as int));
            }
            i = i + 1;
        }
        proof {
            assert(out@ + import_lines(self@.registry, imports_v(xs@), i as int) =~= out@);
        }
        out
    }

    fn show_c_headers(&self, xs: &Vec<Include>) -> (r: String)
        ensures
            r@ == c_header_lines(includes_v(xs@), 0),
    {
        let ghost vs = includes_v(xs@);
        let mut out = String::new();
        let mut i: usize = 0;
        proof {
            assert(out@ + c_header_lines(includes_v(xs@), 0) =~= c_header_lines(includes_v(xs@), 0));
        }
        while i < xs.len()
            invariant
                i <= xs@.len(),
                vs == includes_v(xs@),
                out@ + c_header_lines(includes_v(xs@), i as int) == c_header_lines(includes_v(xs@), 0),
            decreases xs@.len() - i,
        {
            let ghost before = out@;
            assert(vs[i as int] == xs@[i as int]@);
            out = out.concat("#include \"").concat(xs[i].path.as_str()).concat("\"\n");
            proof {
                assert(out@ + c_header_lines(includes_v(xs@), i + 1) =~= before + c_header_lines(includes_v(xs@), i as int));
            }
            i = i + 1;
        }
        proof {
            assert(out@ + c_header_lines(includes_v(xs@), i as int) =~= out@);
        }
        out
    }

    fn show_structs(&self, xs: &Vec<StructDefinition>) -> (r: String)
        ensures
            r@ == structs_c(self@, struct_definitions_v(xs@), 0),
    {
        let ghost vs = struct_definitions_v(xs@);
        let mut out = String::new();
        let mut i: usize = 0;
        proof {
            assert(out@ + structs_c(self@, struct_definitions_v(xs@), 0) =~= structs_c(self@, struct_definitions_v(xs@), 0));
        }
        while i < xs.len()
            invariant
                i <= xs@.len(),
                vs == struct_definitions_v(xs@),
                out@ + structs_c(self@, struct_definitions_v(xs@), i as int) == structs_c(self@, struct_definitions_v(xs@), 0),
            decreases xs@.len() - i,
        {
            let ghost before = out@;
            assert(vs[i as int] == xs@[i as int]@);
            out = out.concat(self.generate_struct_declaration(&xs[i]).as_str()).concat("\n");
            proof {
                assert(out@ + structs_c(self@, struct_definitions_v(xs@), i + 1) =~= before + structs_c(self@, struct_definitions_v(xs@), i as int));
            }
            i = i + 1;
        }
        proof {
            assert(out@ + structs_c(self@, struct_definitions_v(xs@), i as int) =~= out@);
        }
        out
    }

    fn show_enums(&self, xs: &Vec<EnumDefinition>) -> (r: String)
        ensures
            r@ == enums_c(self@, enum_definitions_v(xs@), 0),
    {
        let ghost vs = enum_definitions_v(xs@);
        let mut out = String::new();
        let mut i: usize = 0;
        proof {
            assert(out@ + enums_c(self@, enum_definitions_v(xs@), 0) =~= enums_c(self@, enum_definitions_v(xs@), 0));
        }
        while i < xs.len()
            invariant
                i <= xs@.len(),
                vs == enum_definitions_v(xs@),
                out@ + enums_c(self@, enum_definitions_v(xs@), i as int) == enums_c(self@, enum_definitions_v(xs@), 0),
            decreases xs@.len() - i,
        {
            let ghost before = out@;
            assert(vs[i as int] == xs@[i as int]@);
            out = out.concat(self.generate_enum_declaration(&xs[i]).as_str()).concat("\n");
            proof {
                assert(out@ + enums_c(self@, enum_definitions_v(xs@), i + 1) =~= before + enums_c(self@, enum_definitions_v(xs@), i as int));
            }
            i = i + 1;
        }
        proof {
            assert(out@ + enums_c(self@, enum_definitions_v(xs@), i as int) =~= out@);
        }
        out
    }

    fn show_globals(&self, xs: &Vec<GlobalDecl>) -> (r: String)
        ensures
            r@ == globals_c(self@, global_decls_v(xs@), 0),
    {
        let ghost vs = global_decls_v(xs@);
        let mut out = String::new();
        let mut i: usize = 0;
        proof {
            assert(out@ + globals_c(self@, global_decls_v(xs@), 0) =~= globals_c(self@, global_decls_v(xs@), 0));
        }
        while i < xs.len()
            invariant
                i <= xs@.len(),
                vs == global_decls_v(xs@),
                out@ + globals_c(self@, global_decls_v(xs@), i as int) == globals_c(self@, global_decls_v(xs@), 0),
            decreases xs@.len() - i,
        {
            let ghost before = out@;
            assert(vs[i as int] == xs@[i as int]@);
            out = out.concat(self.transpile_global(&xs[i]).as_str()).concat("\n");
            proof {
                assert(out@ + globals_c(self@, global_decls_v(xs@), i + 1) =~= before + globals_c(self@, global_decls_v(xs@), i as int));
            }
            i = i + 1;
        }
        proof {
            assert(out@ + globals_c(self@, global_decls_v(xs@), i as int) =~= out@);
        }
        out
    }

    fn show_functions(&self, xs: &Vec<Function>) -> (r: String)
        requires
            functions_have_code(functions_v(xs@)),
        ensures
            r@ == functions_c(self@, functions_v(xs@), 0),
    {
        let ghost vs = functions_v(xs@);
        let mut out = String::new();
        let mut i: usize = 0;
        proof {
            assert(out@ + functions_c(self@, functions_v(xs@), 0) =~= functions_c(self@, functions_v(xs@), 0));
        }
        while i < xs.len()
            invariant
                i <= xs@.len(),
                vs == functions_v(xs@),
                functions_have_code(vs),
                out@ + functions_c(self@, functions_v(xs@), i as int) == functions_c(self@, functions_v(xs@), 0),
            decreases xs@.len() - i,
        {
            let ghost before = out@;
            assert(vs[i as int] == xs@[i as int]@);
            out = out.concat(self.transpile_function(&xs[i]).as_str()).concat("\n\n");
            proof {
                assert(out@ + functions_c(self@, functions_v(xs@), i + 1) =~= before + functions_c(self@, functions_v(xs@), i as int));
            }
            i = i + 1;
        }
        proof {
            assert(out@ + functions_c(self@, functions_v(xs@), i as int) =~= out@);
        }
        out
    }

    fn show_prototypes(&self, xs: &Vec<Function>) -> (r: String)
        ensures
            r@ == prototypes_c(self@, functions_v(xs@), 0),
    {
        let ghost vs = functions_v(xs@);
        let mut out = String::new();
        let mut i: usize = 0;
        proof {
            assert(out@ + prototypes_c(self@, functions_v(xs@), 0) =~= prototypes_c(self@, functions_v(xs@), 0));
        }
        while i < xs.len()
            invariant
                i <= xs@.len(),
                vs == functions_v(xs@),
                out@ + prototypes_c(self@, functions_v(xs@), i as int) == prototypes_c(self@, functions_v(xs@), 0),
            decreases xs@.len() - i,
        {
            let ghost before = out@;
            assert(vs[i as int] == xs@[i as int]@);
            out = out.concat(self.function_signature(&xs[i], &self.current_module).as_str()).concat(";\n");
            proof {
                assert(out@ + prototypes_c(self@, functions_v(xs@), i + 1) =~= before + prototypes_c(self@, functions_v(xs@), i as int));
            }
            i = i + 1;
        }
        proof {
            assert(out@ + prototypes_c(self@, functions_v(xs@), i as int) =~= out@);
        }
        out
    }

    fn declare_global(&self, g: &GlobalDecl) -> (r: String)
        ensures
            r@ == global_declaration(self@, g@),
    {
        let ty = match self.inferencer.store.resolve(g.inferred) {
            Ok(t) => self.type_to_c_name(&t),
            Err(_) => match &g.annotation {
                Some(t) => t.to_c_name(),
                None => "int".to_owned(),
            },
        };
        let m = g.mangling_module(&self.current_module);
        "extern ".to_owned().concat(const_prefix(g.is_const)).concat(ty.as_str()).concat(" ").concat(
            mangle_global(&m, g.name.as_str()).as_str(),
        ).concat(";\n")
    }

    fn show_global_declarations(&self, xs: &Vec<GlobalDecl>) -> (r: String)
        ensures
            r@ == global_declarations(self@, global_decls_v(xs@), 0),
    {
        let ghost vs = global_decls_v(xs@);
        let mut out = String::new();
        let mut i: usize = 0;
        proof {
            assert(out@ + global_declarations(self@, global_decls_v(xs@), 0) =~= global_declarations(self@, global_decls_v(xs@), 0));
        }
        while i < xs.len()
            invariant
                i <= xs@.len(),
                vs == global_decls_v(xs@),
                out@ + global_declarations(self@, global_decls_v(xs@), i as int) == global_declarations(self@, global_decls_v(xs@), 0),
            decreases xs@.len() - i,
        {
            let ghost before = out@;
            assert(vs[i as int] == xs@[i as int]@);
            if xs[i].is_public {
                out = out.concat(self.declare_global(&xs[i]).as_str());
            }
            proof {
                assert(out@ + global_declarations(self@, global_decls_v(xs@), i + 1) =~= before + global_declarations(self@, global_decls_v(xs@), i as int));
            }
            i = i + 1;
        }
        proof {
            assert(out@ + global_declarations(self@, global_decls_v(xs@), i as int) =~= out@);
        }
        out
    }

    /// The C header of the current module.
    pub fn generate_module_header_from_program(&self, p: &Program, module: &Module) -> (r: String)
        requires
            module@.path == self@.module,
        ensures
            r@ == module_header(self@, p@, module@.imports),
    {
        let guard = "KIT_MODULE_".to_owned().concat(
            to_upper(self.current_module.join("_").as_str()).as_str(),
        ).concat("_H");
        let tuples = self.used_tuples();
        let mut types = self.used_tuples();
        let ghost tv = types@;
        let mut own = self.visit_program_types(p);
        let ghost ov = own@;
        types.append(&mut own);
        proof {
            assert(types_v(tv + ov) =~= types_v(tv) + types_v(ov));
            assert(types_v(tuples@).len() == tuples@.len());
        }
        let headers = headers_of_types(&types);
        proof {
            assert(module@.imports.len() == module.imports@.len());
        }
        let top = "#ifndef ".to_owned().concat(guard.as_str()).concat("\n#define ").concat(guard.as_str()).concat(
            "\n\n",
        ).concat(self.show_headers(&headers).as_str()).concat("\n").concat(
            self.show_imports(&module.imports).as_str(),
        ).concat(line_when(module.imports.len() > 0)).concat(show_tuples(&tuples).as_str()).concat(
            line_when(tuples.len() > 0),
        );
        let types = top.concat(self.show_structs(&p.structs).as_str()).concat(self.show_enums(&p.enums).as_str());
        let globals = types.concat(self.show_global_declarations(&p.globals).as_str()).concat(
            line_when(has_public(&p.globals)),
        );
        globals.concat(self.show_prototypes(&p.functions).as_str()).concat("\n#endif /* ").concat(
            guard.as_str(),
        ).concat(" */\n")
    }

    /// The C code of the current module.
    pub fn generate_module_c_code_from_program(&self, p: &Program, module: &Module) -> (r: String)
        requires
            module@.path == self@.module,
            functions_have_code(p@.functions),
        ensures
            r@ == module_code(self@, p@, module@.imports, module@.includes),
    {
        let headers = self.collect_type_headers(p);
        proof {
            assert(text::texts(headers@).len() == headers@.len());
        }
        let top = "#include \"".to_owned().concat(self.current_module.join("_").as_str()).concat(".h\"\n").concat(
            self.show_imports(&module.imports).as_str(),
        ).concat(self.show_c_headers(&module.includes).as_str()).concat("\n");
        top.concat(self.show_headers(&headers).as_str()).concat(line_when(headers.len() > 0)).concat(
            self.show_globals(&p.globals).as_str(),
        ).concat(self.show_functions(&p.functions).as_str())
    }

    /// The C code of a whole program in one file.
    pub fn generate_flat_c_code(&self, p: &Program) -> (r: String)
        requires
            functions_have_code(p@.functions),
        ensures
            r@ == flat_code(self@, p@),
    {
        proof {
            lemma_plain_functions(p@.functions, 0, Seq::empty());
        }
        let p = &take_emitted(p);
        let includes = self.registry.collect_all_includes();
        let (headers, decls) = self.collect_type_headers_and_decls(p);
        proof {
            assert(includes_v(includes@).len() == includes@.len());
        }
        let top = self.show_c_headers(&includes).concat(line_when(includes.len() > 0)).concat(
            self.show_headers(&headers).as_str(),
        ).concat("\n").concat(self.show_lines(&decls).as_str());
        top.concat(self.show_structs(&p.structs).as_str()).concat(self.show_enums(&p.enums).as_str()).concat(
            self.show_globals(&p.globals).as_str(),
        ).concat(self.show_functions(&p.functions).as_str())
    }

    fn owned_by(&self, path: &ModulePath, declared: bool, name: &str) -> (r: bool)
        ensures
            r == belongs(self@.env, path@, declared, name@),
    {
        declared || (match self.inferencer.monomorph_module(name) {
            Some(m) => m.same(path),
            None => false,
        })
    }

    fn pick_globals(&self, path: &ModulePath, own: &Vec<GlobalDecl>, xs: &Vec<GlobalDecl>) -> (r: Vec<GlobalDecl>)
        ensures
            global_decls_v(r@) == globals_of(self@.env, path@, global_decls_v(own@), global_decls_v(xs@), 0, Seq::empty()),
    {
        let mut out: Vec<GlobalDecl> = Vec::new();
        let mut i: usize = 0;
        proof {
            assert(global_decls_v(out@) =~= Seq::<GlobalDeclV>::empty());
        }
        while i < xs.len()
            invariant
                i <= xs@.len(),
                globals_of(self@.env, path@, global_decls_v(own@), global_decls_v(xs@), 0, Seq::empty()) == globals_of(
                    self@.env,
                    path@,
                    global_decls_v(own@),
                    global_decls_v(xs@),
                    i as int,
                    global_decls_v(out@),
                ),
            decreases xs@.len() - i,
        {
            assert(global_decls_v(xs@)[i as int] == xs@[i as int]@);
            if self.owned_by(path, names_global(own, xs[i].name.as_str()), xs[i].name.as_str()) {
                let x = copy_global_decl(&xs[i]);
                proof {
                    assert(global_decls_v(out@.push(x)) =~= global_decls_v(out@).push(x@));
                }
                out.push(x);
            }
            i = i + 1;
        }
        out
    }

    fn pick_functions(&self, path: &ModulePath, own: &Vec<Function>, xs: &Vec<Function>) -> (r: Vec<Function>)
        ensures
            functions_v(r@) == functions_of(self@.env, path@, functions_v(own@), functions_v(xs@), 0, Seq::empty()),
    {
        let mut out: Vec<Function> = Vec::new();
        let mut i: usize = 0;
        proof {
            assert(functions_v(out@) =~= Seq::<FunctionV>::empty());
        }
        while i < xs.len()
            invariant
                i <= xs@.len(),
                functions_of(self@.env, path@, functions_v(own@), functions_v(xs@), 0, Seq::empty()) == functions_of(
                    self@.env,
                    path@,
                    functions_v(own@),
                    functions_v(xs@),
                    i as int,
                    functions_v(out@),
                ),
            decreases xs@.len() - i,
        {
            assert(functions_v(xs@)[i as int] == xs@[i as int]@);
            if self.owned_by(path, names_function(own, xs[i].name.as_str()), xs[i].name.as_str()) {
                let x = copy_function(&xs[i]);
                proof {
                    assert(functions_v(out@.push(x)) =~= functions_v(out@).push(x@));
                }
                out.push(x);
            }
            i = i + 1;
        }
        out
    }

    fn pick_structs(&self, path: &ModulePath, own: &Vec<StructDefinition>, xs: &Vec<StructDefinition>) -> (r: Vec<StructDefinition>)
        ensures
            struct_definitions_v(r@) == structs_of(self@.env, path@, struct_definitions_v(own@), struct_definitions_v(xs@), 0, Seq::empty()),
    {
        let mut out: Vec<StructDefinition> = Vec::new();
        let mut i: usize = 0;
        proof {
            assert(struct_definitions_v(out@) =~= Seq::<StructDefinitionV>::empty());
        }
        while i < xs.len()
            invariant
                i <= xs@.len(),
                structs_of(self@.env, path@, struct_definitions_v(own@), struct_definitions_v(xs@), 0, Seq::empty()) == structs_of(
                    self@.env,
                    path@,
                    struct_definitions_v(own@),
                    struct_definitions_v(xs@),
                    i as int,
                    struct_definitions_v(out@),
                ),
            decreases xs@.len() - i,
        {
            assert(struct_definitions_v(xs@)[i as int] == xs@[i as int]@);
            if self.owned_by(path, names_struct(own, xs[i].name.as_str()), xs[i].name.as_str()) {
                let x = copy_struct_definition(&xs[i]);
                proof {
                    assert(struct_definitions_v(out@.push(x)) =~= struct_definitions_v(out@).push(x@));
                }
                out.push(x);
            }
            i = i + 1;
        }
        out
    }

    fn pick_enums(&self, path: &ModulePath, own: &Vec<EnumDefinition>, xs: &Vec<EnumDefinition>) -> (r: Vec<EnumDefinition>)
        ensures
            enum_definitions_v(r@) == enums_of(self@.env, path@, enum_definitions_v(own@), enum_definitions_v(xs@), 0, Seq::empty()),
    {
        let mut out: Vec<EnumDefinition> = Vec::new();
        let mut i: usize = 0;
        proof {
            assert(enum_definitions_v(out@) =~= Seq::<EnumDefinitionV>::empty());
        }
        while i < xs.len()
            invariant
                i <= xs@.len(),
                enums_of(self@.env, path@, enum_definitions_v(own@), enum_definitions_v(xs@), 0, Seq::empty()) == enums_of(
                    self@.env,
                    path@,
                    enum_definitions_v(own@),
                    enum_definitions_v(xs@),
                    i as int,
                    enum_definitions_v(out@),
                ),
            decreases xs@.len() - i,
        {
            assert(enum_definitions_v(xs@)[i as int] == xs@[i as int]@);
            if self.owned_by(path, names_enum(own, xs[i].name.as_str()), xs[i].name.as_str()) {
                let x = copy_enum_definition(&xs[i]);
                proof {
                    assert(enum_definitions_v(out@.push(x)) =~= enum_definitions_v(out@).push(x@));
                }
                out.push(x);
            }
            i = i + 1;
        }
        out
    }

    /// The part of the merged program that belongs to a module and is emitted.
    pub fn filter_module_program(&self, module: &Module, merged: &Program) -> (r: Program)
        ensures
            r@ == module_part(self@.env, module@, merged@),
    {
        let own = &module.program;
        let merged = take_emitted(merged);
        let mut p = Program::empty();
        p.path = Some(copy_path(&module.path));
        p.globals = self.pick_globals(&module.path, &own.globals, &merged.globals);
        p.functions = self.pick_functions(&module.path, &own.functions, &merged.functions);
        p.structs = self.pick_structs(&module.path, &own.structs, &merged.structs);
        p.enums = self.pick_enums(&module.path, &own.enums, &merged.enums);
        p
    }

    /// The C header and the C code of a module.
    pub fn generate_module_files(&self, module: &Module, merged: &Program) -> (r: (String, String))
        requires
            module@.path == self@.module,
            functions_have_code(merged@.functions),
        ensures
            r.0@ == module_header(self@, module_part(self@.env, module@, merged@), module@.imports),
            r.1@ == module_code(
                self@,
                module_part(self@.env, module@, merged@),
                module@.imports,
                module@.includes,
            ),
    {
        let p = self.filter_module_program(module, merged);
        proof {
            law_module_part_has_code(self@.env, module@, merged@);
        }
        let header = self.generate_module_header_from_program(&p, module);
        let code = self.generate_module_c_code_from_program(&p, module);
        (header, code)
    }
}

} // verus!
