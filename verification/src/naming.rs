//! What is used in C is called as it is defined.
use crate::ast::LiteralV;
use crate::attrs::mangled_under;
use crate::decl::{FunctionV, GlobalDeclV, StructDefinitionV};
use crate::emit_decl::struct_c;
use crate::emit_expr::{callee_c, first_function, function_attrs, global_named, global_owner, variable_c, CtxV};
use crate::emit_stmt::{function_name_c, type_c};
use crate::emitted_types::holds;
use crate::literal::c_literal;
use crate::name_mangling::mangled;
use crate::registry::{module_at, resolved_name};
use crate::symbols::get_in;
use crate::types::TypeV;
use vstd::prelude::*;

verus! {

/// A call names the function as it is defined in its module.
pub proof fn law_calls_name_the_defined_function(c: CtxV, name: Seq<char>, m: Seq<Seq<char>>, base: Seq<char>, k: int, f: FunctionV)
    requires
        name != "main"@,
        base != "main"@,
        resolved_name(c.registry, name, c.module) == Some((m, base)),
        module_at(c.registry.modules, m, 0) == Some(k),
        first_function(c.registry.modules[k].program.functions, base, 0) == Some(f),
    ensures
        callee_c(c, name) == function_name_c(f, m),
{
    lemma_first_function(c.registry.modules[k].program.functions, base, 0);
    assert(function_attrs(c.registry, m, base) == f.metadata);
}

proof fn lemma_first_function(fs: Seq<FunctionV>, name: Seq<char>, i: int)
    ensures
        first_function(fs, name, i) matches Some(f) ==> f.name == name,
    decreases fs.len() - i,
{
    if 0 <= i < fs.len() {
        lemma_first_function(fs, name, i + 1);
    }
}

/// The main function is called by its own name.
pub proof fn law_main_keeps_its_name(c: CtxV, f: FunctionV)
    requires
        f.name == "main"@,
    ensures
        callee_c(c, f.name) == f.name,
        function_name_c(f, c.module) == f.name,
{
}

/// A global is used under the name with which its module defines it.
pub proof fn law_globals_are_used_as_defined(c: CtxV, k: int, g: GlobalDeclV)
    requires
        0 <= k < c.registry.modules.len(),
        global_named(c.registry.modules[k].program.globals, g.name, 0) == Some(g),
        forall|i: int|
            0 <= i < k ==> global_named((#[trigger] c.registry.modules[i]).program.globals, g.name, 0) is None,
    ensures
        variable_c(c, g.name) == mangled(mangled_under(g.metadata, c.registry.modules[k].path), g.name),
{
    lemma_owner(c, g.name, 0, k);
}

proof fn lemma_owner(c: CtxV, name: Seq<char>, i: int, k: int)
    requires
        0 <= i <= k < c.registry.modules.len(),
        global_named(c.registry.modules[k].program.globals, name, 0) is Some,
        forall|j: int| i <= j < k ==> global_named((#[trigger] c.registry.modules[j]).program.globals, name, 0) is None,
    ensures
        global_owner(c.registry.modules, name, i) == Some(
            (
                c.registry.modules[k].path,
                global_named(c.registry.modules[k].program.globals, name, 0)->0.metadata,
            ),
        ),
    decreases k - i,
{
    if i < k {
        lemma_owner(c, name, i + 1, k);
    }
}

/// A struct of the module is used under the name with which it is declared; one of a C header keeps its name.
pub proof fn law_structs_are_used_as_declared(c: CtxV, d: StructDefinitionV)
    requires
        get_in(c.env.symbols.structs, d.name) == Some(d),
    ensures
        !c.env.imported.contains(d.name) ==> holds(struct_c(c, d), type_c(c.env, TypeV::Named(d.name), c.module)),
        c.env.imported.contains(d.name) ==> type_c(c.env, TypeV::Named(d.name), c.module) == "struct "@ + d.name,
{
    if !c.env.imported.contains(d.name) {
        let part = type_c(c.env, TypeV::Named(d.name), c.module);
        let rest = " {\n"@ + crate::text::joined(crate::emit_decl::fields_c(c, d.fields), "\n"@) + "\n};"@;
        assert(struct_c(c, d) =~= Seq::<char>::empty() + part + rest);
    }
}

/// A truth value is written as in C, a null value as the null pointer, and a number with a fraction with a point.
pub proof fn law_other_literals(b: bool, f: Seq<char>)
    ensures
        c_literal(LiteralV::Bool(b), true) == if b {
            "true"@
        } else {
            "false"@
        },
        c_literal(LiteralV::Null, true) == "NULL"@,
        c_literal(LiteralV::Float(f), true).contains('.'),
        c_literal(LiteralV::Float(f), true).last() == 'f',
        f.is_prefix_of(c_literal(LiteralV::Float(f), true)),
{
    reveal_strlit(".0");
    reveal_strlit("f");
    let t = c_literal(LiteralV::Float(f), true);
    if f.contains('.') {
        let k = choose|k: int| 0 <= k < f.len() && f[k] == '.';
        assert(t[k] == '.');
    } else {
        assert(t[f.len() as int] == '.');
    }
    assert(f =~= t.subrange(0, f.len() as int));
}

} // verus!
