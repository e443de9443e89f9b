//! What the C files of a module hold: everything that belongs to the module.
use crate::text;
use crate::decl::{EnumDefinitionV, FunctionV, GlobalDeclV, IncludeV, ProgramV, StructDefinitionV};
use crate::emit_decl::{enum_c, struct_c};
use crate::emit_expr::CtxV;
use crate::emit_module::{belongs, c_header_lines, enum_declared, enums_c, enums_of, function_declared, functions_c,
    functions_of, global_declaration, global_declarations, global_declared, globals_c, globals_of, header_lines,
    import_lines, line_if, module_code, module_header, plain_enums, plain_functions, plain_structs, prototypes_c,
    struct_declared, structs_c, structs_of};
use crate::emit_stmt::{function_c, global_c, signature_c};
use crate::emitted_types::holds;
use crate::engine::EnvV;
use crate::module::ModuleImportV;
use crate::registry::{module_at, RegistryV};
use vstd::prelude::*;

verus! {

proof fn lemma_inner(a: Seq<char>, mid: Seq<char>, b: Seq<char>, part: Seq<char>)
    requires
        holds(mid, part),
    ensures
        holds(a + mid + b, part),
{
    let (x, y) = choose|x: Seq<char>, y: Seq<char>| mid == #[trigger] (x + part + y);
    assert(a + mid + b =~= (a + x) + part + (y + b));
}

/// Every struct of a list is declared.
pub proof fn law_every_one_of_structs_is_written(c: CtxV, xs: Seq<StructDefinitionV>, i: int, k: int)
    requires
        0 <= i <= k < xs.len(),
    ensures
        holds(structs_c(c, xs, i), struct_c(c, xs[k])),
    decreases xs.len() - i,
{
    let front = struct_c(c, xs[i]) + "\n"@;
    let rest = structs_c(c, xs, i + 1);
    let part = struct_c(c, xs[k]);
    assert(structs_c(c, xs, i) =~= front + rest);
    if i == k {
        assert(holds(front, part)) by {
            lemma_front_of_structs(c, xs, i);
        }
        lemma_inner(Seq::empty(), front, rest, part);
        assert(Seq::<char>::empty() + front + rest =~= structs_c(c, xs, i));
    } else {
        law_every_one_of_structs_is_written(c, xs, i + 1, k);
        lemma_inner(front, rest, Seq::empty(), part);
        assert(front + rest + Seq::<char>::empty() =~= structs_c(c, xs, i));
    }
}

proof fn lemma_front_of_structs(c: CtxV, xs: Seq<StructDefinitionV>, i: int)
    ensures
        holds(struct_c(c, xs[i]) + "\n"@, struct_c(c, xs[i])),
{
    let front = struct_c(c, xs[i]) + "\n"@;
    let part = struct_c(c, xs[i]);
    let (a, b) = (Seq::<char>::empty(), "\n"@);
    assert(front =~= a + part + b);
}

/// Every enum of a list is declared.
pub proof fn law_every_one_of_enums_is_written(c: CtxV, xs: Seq<EnumDefinitionV>, i: int, k: int)
    requires
        0 <= i <= k < xs.len(),
    ensures
        holds(enums_c(c, xs, i), enum_c(c, xs[k])),
    decreases xs.len() - i,
{
    let front = enum_c(c, xs[i]) + "\n"@;
    let rest = enums_c(c, xs, i + 1);
    let part = enum_c(c, xs[k]);
    assert(enums_c(c, xs, i) =~= front + rest);
    if i == k {
        assert(holds(front, part)) by {
            lemma_front_of_enums(c, xs, i);
        }
        lemma_inner(Seq::empty(), front, rest, part);
        assert(Seq::<char>::empty() + front + rest =~= enums_c(c, xs, i));
    } else {
        law_every_one_of_enums_is_written(c, xs, i + 1, k);
        lemma_inner(front, rest, Seq::empty(), part);
        assert(front + rest + Seq::<char>::empty() =~= enums_c(c, xs, i));
    }
}

proof fn lemma_front_of_enums(c: CtxV, xs: Seq<EnumDefinitionV>, i: int)
    ensures
        holds(enum_c(c, xs[i]) + "\n"@, enum_c(c, xs[i])),
{
    let front = enum_c(c, xs[i]) + "\n"@;
    let part = enum_c(c, xs[i]);
    let (a, b) = (Seq::<char>::empty(), "\n"@);
    assert(front =~= a + part + b);
}

/// Every global of a list is defined.
pub proof fn law_every_one_of_globals_is_written(c: CtxV, xs: Seq<GlobalDeclV>, i: int, k: int)
    requires
        0 <= i <= k < xs.len(),
    ensures
        holds(globals_c(c, xs, i), global_c(c, xs[k])),
    decreases xs.len() - i,
{
    let front = global_c(c, xs[i]) + "\n"@;
    let rest = globals_c(c, xs, i + 1);
    let part = global_c(c, xs[k]);
    assert(globals_c(c, xs, i) =~= front + rest);
    if i == k {
        assert(holds(front, part)) by {
            lemma_front_of_globals(c, xs, i);
        }
        lemma_inner(Seq::empty(), front, rest, part);
        assert(Seq::<char>::empty() + front + rest =~= globals_c(c, xs, i));
    } else {
        law_every_one_of_globals_is_written(c, xs, i + 1, k);
        lemma_inner(front, rest, Seq::empty(), part);
        assert(front + rest + Seq::<char>::empty() =~= globals_c(c, xs, i));
    }
}

proof fn lemma_front_of_globals(c: CtxV, xs: Seq<GlobalDeclV>, i: int)
    ensures
        holds(global_c(c, xs[i]) + "\n"@, global_c(c, xs[i])),
{
    let front = global_c(c, xs[i]) + "\n"@;
    let part = global_c(c, xs[i]);
    let (a, b) = (Seq::<char>::empty(), "\n"@);
    assert(front =~= a + part + b);
}

/// Every function of a list is defined.
pub proof fn law_every_one_of_functions_is_written(c: CtxV, xs: Seq<FunctionV>, i: int, k: int)
    requires
        0 <= i <= k < xs.len(),
    ensures
        holds(functions_c(c, xs, i), function_c(c, xs[k])),
    decreases xs.len() - i,
{
    let front = function_c(c, xs[i]) + "\n\n"@;
    let rest = functions_c(c, xs, i + 1);
    let part = function_c(c, xs[k]);
    assert(functions_c(c, xs, i) =~= front + rest);
    if i == k {
        assert(holds(front, part)) by {
            lemma_front_of_functions(c, xs, i);
        }
        lemma_inner(Seq::empty(), front, rest, part);
        assert(Seq::<char>::empty() + front + rest =~= functions_c(c, xs, i));
    } else {
        law_every_one_of_functions_is_written(c, xs, i + 1, k);
        lemma_inner(front, rest, Seq::empty(), part);
        assert(front + rest + Seq::<char>::empty() =~= functions_c(c, xs, i));
    }
}

proof fn lemma_front_of_functions(c: CtxV, xs: Seq<FunctionV>, i: int)
    ensures
        holds(function_c(c, xs[i]) + "\n\n"@, function_c(c, xs[i])),
{
    let front = function_c(c, xs[i]) + "\n\n"@;
    let part = function_c(c, xs[i]);
    let (a, b) = (Seq::<char>::empty(), "\n\n"@);
    assert(front =~= a + part + b);
}

/// Every function of a list is declared.
pub proof fn law_every_one_of_prototypes_is_written(c: CtxV, xs: Seq<FunctionV>, i: int, k: int)
    requires
        0 <= i <= k < xs.len(),
    ensures
        holds(prototypes_c(c, xs, i), signature_c(c.env, xs[k], c.module)),
    decreases xs.len() - i,
{
    let front = signature_c(c.env, xs[i], c.module) + ";\n"@;
    let rest = prototypes_c(c, xs, i + 1);
    let part = signature_c(c.env, xs[k], c.module);
    assert(prototypes_c(c, xs, i) =~= front + rest);
    if i == k {
        assert(holds(front, part)) by {
            lemma_front_of_prototypes(c, xs, i);
        }
        lemma_inner(Seq::empty(), front, rest, part);
        assert(Seq::<char>::empty() + front + rest =~= prototypes_c(c, xs, i));
    } else {
        law_every_one_of_prototypes_is_written(c, xs, i + 1, k);
        lemma_inner(front, rest, Seq::empty(), part);
        assert(front + rest + Seq::<char>::empty() =~= prototypes_c(c, xs, i));
    }
}

proof fn lemma_front_of_prototypes(c: CtxV, xs: Seq<FunctionV>, i: int)
    ensures
        holds(signature_c(c.env, xs[i], c.module) + ";\n"@, signature_c(c.env, xs[i], c.module)),
{
    let front = signature_c(c.env, xs[i], c.module) + ";\n"@;
    let part = signature_c(c.env, xs[i], c.module);
    let (a, b) = (Seq::<char>::empty(), ";\n"@);
    assert(front =~= a + part + b);
}

/// Every header of a list is named.
pub proof fn law_every_one_of_headers_is_written(xs: Seq<Seq<char>>, i: int, k: int)
    requires
        0 <= i <= k < xs.len(),
    ensures
        holds(header_lines(xs, i), xs[k]),
    decreases xs.len() - i,
{
    let front = "#include "@ + xs[i] + "\n"@;
    let rest = header_lines(xs, i + 1);
    let part = xs[k];
    assert(header_lines(xs, i) =~= front + rest);
    if i == k {
        assert(holds(front, part)) by {
            lemma_front_of_headers(xs, i);
        }
        lemma_inner(Seq::empty(), front, rest, part);
        assert(Seq::<char>::empty() + front + rest =~= header_lines(xs, i));
    } else {
        law_every_one_of_headers_is_written(xs, i + 1, k);
        lemma_inner(front, rest, Seq::empty(), part);
        assert(front + rest + Seq::<char>::empty() =~= header_lines(xs, i));
    }
}

proof fn lemma_front_of_headers(xs: Seq<Seq<char>>, i: int)
    ensures
        holds("#include "@ + xs[i] + "\n"@, xs[i]),
{
    let front = "#include "@ + xs[i] + "\n"@;
    let part = xs[i];
    let (a, b) = ("#include "@, "\n"@);
    assert(front =~= a + part + b);
}

/// Every C header of a list is named.
pub proof fn law_every_one_of_c_headers_is_written(xs: Seq<IncludeV>, i: int, k: int)
    requires
        0 <= i <= k < xs.len(),
    ensures
        holds(c_header_lines(xs, i), xs[k].path),
    decreases xs.len() - i,
{
    let front = "#include \""@ + xs[i].path + "\"\n"@;
    let rest = c_header_lines(xs, i + 1);
    let part = xs[k].path;
    assert(c_header_lines(xs, i) =~= front + rest);
    if i == k {
        assert(holds(front, part)) by {
            lemma_front_of_c_headers(xs, i);
        }
        lemma_inner(Seq::empty(), front, rest, part);
        assert(Seq::<char>::empty() + front + rest =~= c_header_lines(xs, i));
    } else {
        law_every_one_of_c_headers_is_written(xs, i + 1, k);
        lemma_inner(front, rest, Seq::empty(), part);
        assert(front + rest + Seq::<char>::empty() =~= c_header_lines(xs, i));
    }
}

proof fn lemma_front_of_c_headers(xs: Seq<IncludeV>, i: int)
    ensures
        holds("#include \""@ + xs[i].path + "\"\n"@, xs[i].path),
{
    let front = "#include \""@ + xs[i].path + "\"\n"@;
    let part = xs[i].path;
    let (a, b) = ("#include \""@, "\"\n"@);
    assert(front =~= a + part + b);
}

/// The header of every known module that is imported is named.
pub proof fn law_every_one_of_imports_is_written(r: RegistryV, xs: Seq<ModuleImportV>, i: int, k: int)
    requires
        0 <= i <= k < xs.len(),
        module_at(r.modules, xs[k].path, 0) is Some,
    ensures
        holds(import_lines(r, xs, i), text::joined(xs[k].path, "_"@)),
    decreases xs.len() - i,
{
    let front = if module_at(r.modules, xs[i].path, 0) is Some {
            "#include \""@ + text::joined(xs[i].path, "_"@) + ".h\"\n"@
        } else {
            Seq::<char>::empty()
        };
    let rest = import_lines(r, xs, i + 1);
    let part = text::joined(xs[k].path, "_"@);
    assert(import_lines(r, xs, i) =~= front + rest);
    if i == k {
        assert(holds(front, part)) by {
            lemma_front_of_imports(r, xs, i);
        }
        lemma_inner(Seq::empty(), front, rest, part);
        assert(Seq::<char>::empty() + front + rest =~= import_lines(r, xs, i));
    } else {
        law_every_one_of_imports_is_written(r, xs, i + 1, k);
        lemma_inner(front, rest, Seq::empty(), part);
        assert(front + rest + Seq::<char>::empty() =~= import_lines(r, xs, i));
    }
}

proof fn lemma_front_of_imports(r: RegistryV, xs: Seq<ModuleImportV>, i: int)
    requires
        module_at(r.modules, xs[i].path, 0) is Some,
    ensures
        holds(if module_at(r.modules, xs[i].path, 0) is Some {
            "#include \""@ + text::joined(xs[i].path, "_"@) + ".h\"\n"@
        } else {
            Seq::<char>::empty()
        }, text::joined(xs[i].path, "_"@)),
{
    let front = if module_at(r.modules, xs[i].path, 0) is Some {
            "#include \""@ + text::joined(xs[i].path, "_"@) + ".h\"\n"@
        } else {
            Seq::<char>::empty()
        };
    let part = text::joined(xs[i].path, "_"@);
    let (a, b) = ("#include \""@, ".h\"\n"@);
    assert(front =~= a + part + b);
}

/// Every public global of a list is declared for other modules.
pub proof fn law_every_one_of_public_globals_is_written(c: CtxV, xs: Seq<GlobalDeclV>, i: int, k: int)
    requires
        0 <= i <= k < xs.len(),
        xs[k].is_public,
    ensures
        holds(global_declarations(c, xs, i), global_declaration(c, xs[k])),
    decreases xs.len() - i,
{
    let front = if xs[i].is_public {
            global_declaration(c, xs[i])
        } else {
            Seq::<char>::empty()
        };
    let rest = global_declarations(c, xs, i + 1);
    let part = global_declaration(c, xs[k]);
    assert(global_declarations(c, xs, i) =~= front + rest);
    if i == k {
        assert(holds(front, part)) by {
            lemma_front_of_public_globals(c, xs, i);
        }
        lemma_inner(Seq::empty(), front, rest, part);
        assert(Seq::<char>::empty() + front + rest =~= global_declarations(c, xs, i));
    } else {
        law_every_one_of_public_globals_is_written(c, xs, i + 1, k);
        lemma_inner(front, rest, Seq::empty(), part);
        assert(front + rest + Seq::<char>::empty() =~= global_declarations(c, xs, i));
    }
}

proof fn lemma_front_of_public_globals(c: CtxV, xs: Seq<GlobalDeclV>, i: int)
    requires
        xs[i].is_public,
    ensures
        holds(if xs[i].is_public {
            global_declaration(c, xs[i])
        } else {
            Seq::<char>::empty()
        }, global_declaration(c, xs[i])),
{
    let front = if xs[i].is_public {
            global_declaration(c, xs[i])
        } else {
            Seq::<char>::empty()
        };
    let part = global_declaration(c, xs[i]);
    let (a, b) = (Seq::<char>::empty(), Seq::<char>::empty());
    assert(front =~= a + part + b);
}

/// The C code of a module holds all its functions and globals, and names its own header and the C headers that
/// the module names.
pub proof fn law_code_of_a_module(c: CtxV, p: ProgramV, imports: Seq<ModuleImportV>, includes: Seq<IncludeV>, k: int)
    ensures
        0 <= k < p.functions.len() ==> holds(module_code(c, p, imports, includes), function_c(c, p.functions[k])),
        0 <= k < p.globals.len() ==> holds(module_code(c, p, imports, includes), global_c(c, p.globals[k])),
        0 <= k < includes.len() ==> holds(module_code(c, p, imports, includes), includes[k].path),
        holds(module_code(c, p, imports, includes), text::joined(c.module, "_"@)),
{
    let t = module_code(c, p, imports, includes);
    let headers = crate::emit_module::program_headers(c.env, p);
    let a = "#include \""@ + text::joined(c.module, "_"@) + ".h\"\n"@ + import_lines(c.registry, imports, 0);
    let h = c_header_lines(includes, 0);
    let b = "\n"@ + header_lines(headers, 0) + line_if(headers.len() > 0);
    let g = globals_c(c, p.globals, 0);
    let f = functions_c(c, p.functions, 0);
    assert(t =~= a + h + (b + g + f));
    assert(t =~= (a + h + b) + g + f);
    assert(t =~= (a + h + b + g) + f + Seq::<char>::empty());
    assert(t =~= "#include \""@ + text::joined(c.module, "_"@) + (".h\"\n"@ + import_lines(c.registry, imports, 0) + h + b + g + f));
    if 0 <= k < p.functions.len() {
        law_every_one_of_functions_is_written(c, p.functions, 0, k);
        lemma_inner(a + h + b + g, f, Seq::empty(), function_c(c, p.functions[k]));
    }
    if 0 <= k < p.globals.len() {
        law_every_one_of_globals_is_written(c, p.globals, 0, k);
        lemma_inner(a + h + b, g, f, global_c(c, p.globals[k]));
    }
    if 0 <= k < includes.len() {
        law_every_one_of_c_headers_is_written(includes, 0, k);
        lemma_inner(a, h, b + g + f, includes[k].path);
    }
}

/// The C header of a module declares all its structs, enums and functions, and its public globals.
pub proof fn law_header_of_a_module(c: CtxV, p: ProgramV, imports: Seq<ModuleImportV>, k: int)
    ensures
        0 <= k < p.structs.len() ==> holds(module_header(c, p, imports), struct_c(c, p.structs[k])),
        0 <= k < p.enums.len() ==> holds(module_header(c, p, imports), enum_c(c, p.enums[k])),
        0 <= k < p.functions.len() ==> holds(
            module_header(c, p, imports),
            signature_c(c.env, p.functions[k], c.module),
        ),
        0 <= k < p.globals.len() && p.globals[k].is_public ==> holds(
            module_header(c, p, imports),
            global_declaration(c, p.globals[k]),
        ),
{
    let t = module_header(c, p, imports);
    let guard = crate::emit_module::guard_name(c.module);
    let tuples = crate::emit_module::tuple_types(c.env);
    let a = "#ifndef "@ + guard + "\n#define "@ + guard + "\n\n"@ + header_lines(
        crate::emit_module::module_headers(c.env, p),
        0,
    ) + "\n"@ + import_lines(c.registry, imports, 0) + line_if(imports.len() > 0) + crate::emit_module::tuples_c(tuples, 0)
        + line_if(c.env.tuples.len() > 0);
    let s = structs_c(c, p.structs, 0);
    let n = enums_c(c, p.enums, 0);
    let g = global_declarations(c, p.globals, 0);
    let l = line_if(crate::emit_module::some_public(p.globals));
    let f = prototypes_c(c, p.functions, 0);
    let u = "\n#endif /* "@;
    let v = " */\n"@;
    assert(t == a + s + n + g + l + f + u + guard + v);
    if 0 <= k < p.structs.len() {
        let part = struct_c(c, p.structs[k]);
        law_every_one_of_structs_is_written(c, p.structs, 0, k);
        lemma_last(a, s, part);
        lemma_more(a + s, n, part);
        lemma_more(a + s + n, g, part);
        lemma_more(a + s + n + g, l, part);
        lemma_more(a + s + n + g + l, f, part);
        lemma_end(a + s + n + g + l + f, u, guard, v, part);
    }
    if 0 <= k < p.enums.len() {
        let part = enum_c(c, p.enums[k]);
        law_every_one_of_enums_is_written(c, p.enums, 0, k);
        lemma_last(a + s, n, part);
        lemma_more(a + s + n, g, part);
        lemma_more(a + s + n + g, l, part);
        lemma_more(a + s + n + g + l, f, part);
        lemma_end(a + s + n + g + l + f, u, guard, v, part);
    }
    if 0 <= k < p.functions.len() {
        let part = signature_c(c.env, p.functions[k], c.module);
        law_every_one_of_prototypes_is_written(c, p.functions, 0, k);
        lemma_last(a + s + n + g + l, f, part);
        lemma_end(a + s + n + g + l + f, u, guard, v, part);
    }
    if 0 <= k < p.globals.len() && p.globals[k].is_public {
        let part = global_declaration(c, p.globals[k]);
        law_every_one_of_public_globals_is_written(c, p.globals, 0, k);
        lemma_last(a + s + n, g, part);
        lemma_more(a + s + n + g, l, part);
        lemma_more(a + s + n + g + l, f, part);
        lemma_end(a + s + n + g + l + f, u, guard, v, part);
    }
}

proof fn lemma_more(x: Seq<char>, y: Seq<char>, part: Seq<char>)
    requires
        holds(x, part),
    ensures
        holds(x + y, part),
{
    lemma_inner(Seq::empty(), x, y, part);
    assert(Seq::<char>::empty() + x + y =~= x + y);
}

proof fn lemma_last(x: Seq<char>, y: Seq<char>, part: Seq<char>)
    requires
        holds(y, part),
    ensures
        holds(x + y, part),
{
    lemma_inner(x, y, Seq::empty(), part);
    assert(x + y + Seq::<char>::empty() =~= x + y);
}

proof fn lemma_end(x: Seq<char>, u: Seq<char>, g: Seq<char>, v: Seq<char>, part: Seq<char>)
    requires
        holds(x, part),
    ensures
        holds(x + u + g + v, part),
{
    lemma_more(x, u, part);
    lemma_more(x + u, g, part);
    lemma_more(x + u + g, v, part);
}

proof fn lemma_pushed<A>(acc: Seq<A>, x: A, y: A)
    ensures
        acc.push(x).contains(y) <==> acc.contains(y) || x == y,
{
    assert(acc.push(x)[acc.len() as int] == x);
    if acc.contains(y) {
        let k = choose|k: int| 0 <= k < acc.len() && acc[k] == y;
        assert(acc.push(x)[k] == y);
    }
}

/// Of the functions of a program, exactly those without type parameters are kept.
pub proof fn law_plain_functions_are_kept(xs: Seq<FunctionV>, i: int, acc: Seq<FunctionV>, x: FunctionV)
    requires
        0 <= i <= xs.len(),
    ensures
        plain_functions(xs, i, acc).contains(x) <==> acc.contains(x) || (x.type_params.len() == 0 && exists|k: int|
            i <= k < xs.len() && #[trigger] xs[k] == x),
    decreases xs.len() - i,
{
    if i < xs.len() {
        if xs[i].type_params.len() == 0 {
            law_plain_functions_are_kept(xs, i + 1, acc.push(xs[i]), x);
            lemma_pushed(acc, xs[i], x);
        } else {
            law_plain_functions_are_kept(xs, i + 1, acc, x);
        }
    }
}

/// Of the functions of a program, a module gets exactly those that it declares and its realized ones.
pub proof fn law_functions_of_a_module(e: EnvV, path: Seq<Seq<char>>, own: Seq<FunctionV>, xs: Seq<FunctionV>, i: int, acc: Seq<FunctionV>, x: FunctionV)
    requires
        0 <= i <= xs.len(),
    ensures
        functions_of(e, path, own, xs, i, acc).contains(x) <==> acc.contains(x) || (is_of_module(
            e,
            path,
            exists|j: int| 0 <= j < own.len() && (#[trigger] own[j]).name == x.name,
            x.name,
        ) && exists|k: int| i <= k < xs.len() && #[trigger] xs[k] == x),
    decreases xs.len() - i,
{
    if i < xs.len() {
        if belongs(e, path, function_declared(own, xs[i].name), xs[i].name) {
            law_functions_of_a_module(e, path, own, xs, i + 1, acc.push(xs[i]), x);
            lemma_pushed(acc, xs[i], x);
        } else {
            law_functions_of_a_module(e, path, own, xs, i + 1, acc, x);
        }
    }
}

/// Of the structs of a program, exactly those without type parameters are kept.
pub proof fn law_plain_structs_are_kept(xs: Seq<StructDefinitionV>, i: int, acc: Seq<StructDefinitionV>, x: StructDefinitionV)
    requires
        0 <= i <= xs.len(),
    ensures
        plain_structs(xs, i, acc).contains(x) <==> acc.contains(x) || (x.type_params.len() == 0 && exists|k: int|
            i <= k < xs.len() && #[trigger] xs[k] == x),
    decreases xs.len() - i,
{
    if i < xs.len() {
        if xs[i].type_params.len() == 0 {
            law_plain_structs_are_kept(xs, i + 1, acc.push(xs[i]), x);
            lemma_pushed(acc, xs[i], x);
        } else {
            law_plain_structs_are_kept(xs, i + 1, acc, x);
        }
    }
}

/// Of the structs of a program, a module gets exactly those that it declares and its realized ones.
pub proof fn law_structs_of_a_module(e: EnvV, path: Seq<Seq<char>>, own: Seq<StructDefinitionV>, xs: Seq<StructDefinitionV>, i: int, acc: Seq<StructDefinitionV>, x: StructDefinitionV)
    requires
        0 <= i <= xs.len(),
    ensures
        structs_of(e, path, own, xs, i, acc).contains(x) <==> acc.contains(x) || (is_of_module(
            e,
            path,
            exists|j: int| 0 <= j < own.len() && (#[trigger] own[j]).name == x.name,
            x.name,
        ) && exists|k: int| i <= k < xs.len() && #[trigger] xs[k] == x),
    decreases xs.len() - i,
{
    if i < xs.len() {
        if belongs(e, path, struct_declared(own, xs[i].name), xs[i].name) {
            law_structs_of_a_module(e, path, own, xs, i + 1, acc.push(xs[i]), x);
            lemma_pushed(acc, xs[i], x);
        } else {
            law_structs_of_a_module(e, path, own, xs, i + 1, acc, x);
        }
    }
}

/// Of the enums of a program, exactly those without type parameters are kept.
pub proof fn law_plain_enums_are_kept(xs: Seq<EnumDefinitionV>, i: int, acc: Seq<EnumDefinitionV>, x: EnumDefinitionV)
    requires
        0 <= i <= xs.len(),
    ensures
        plain_enums(xs, i, acc).contains(x) <==> acc.contains(x) || (x.type_params.len() == 0 && exists|k: int|
            i <= k < xs.len() && #[trigger] xs[k] == x),
    decreases xs.len() - i,
{
    if i < xs.len() {
        if xs[i].type_params.len() == 0 {
            law_plain_enums_are_kept(xs, i + 1, acc.push(xs[i]), x);
            lemma_pushed(acc, xs[i], x);
        } else {
            law_plain_enums_are_kept(xs, i + 1, acc, x);
        }
    }
}

/// Of the enums of a program, a module gets exactly those that it declares and its realized ones.
pub proof fn law_enums_of_a_module(e: EnvV, path: Seq<Seq<char>>, own: Seq<EnumDefinitionV>, xs: Seq<EnumDefinitionV>, i: int, acc: Seq<EnumDefinitionV>, x: EnumDefinitionV)
    requires
        0 <= i <= xs.len(),
    ensures
        enums_of(e, path, own, xs, i, acc).contains(x) <==> acc.contains(x) || (is_of_module(
            e,
            path,
            exists|j: int| 0 <= j < own.len() && (#[trigger] own[j]).name == x.name,
            x.name,
        ) && exists|k: int| i <= k < xs.len() && #[trigger] xs[k] == x),
    decreases xs.len() - i,
{
    if i < xs.len() {
        if belongs(e, path, enum_declared(own, xs[i].name), xs[i].name) {
            law_enums_of_a_module(e, path, own, xs, i + 1, acc.push(xs[i]), x);
            lemma_pushed(acc, xs[i], x);
        } else {
            law_enums_of_a_module(e, path, own, xs, i + 1, acc, x);
        }
    }
}

/// Of the globals of a program, a module gets exactly those that it declares and its realized ones.
pub proof fn law_globals_of_a_module(e: EnvV, path: Seq<Seq<char>>, own: Seq<GlobalDeclV>, xs: Seq<GlobalDeclV>, i: int, acc: Seq<GlobalDeclV>, x: GlobalDeclV)
    requires
        0 <= i <= xs.len(),
    ensures
        globals_of(e, path, own, xs, i, acc).contains(x) <==> acc.contains(x) || (is_of_module(
            e,
            path,
            exists|j: int| 0 <= j < own.len() && (#[trigger] own[j]).name == x.name,
            x.name,
        ) && exists|k: int| i <= k < xs.len() && #[trigger] xs[k] == x),
    decreases xs.len() - i,
{
    if i < xs.len() {
        if belongs(e, path, global_declared(own, xs[i].name), xs[i].name) {
            law_globals_of_a_module(e, path, own, xs, i + 1, acc.push(xs[i]), x);
            lemma_pushed(acc, xs[i], x);
        } else {
            law_globals_of_a_module(e, path, own, xs, i + 1, acc, x);
        }
    }
}

/// Whether a definition is one of a module: the module declares its name, or it was realized for the module.
pub open spec fn is_of_module(e: EnvV, path: Seq<Seq<char>>, declared: bool, name: Seq<char>) -> bool {
    ||| declared
    ||| e.mono.mono_modules.contains_key(name) && e.mono.mono_modules[name] == path
}

} // verus!
