//! What is refused, and what is not: type parameters, applications, implementations and types that do not fit.
use crate::c_parse::{declarations_from, declared_function, declared_param, declares_function,
    law_declarations_only_grow, params_from, with_node};
use crate::c_syntax::CNodeV;
use crate::ctypes::{CDeclarationsV, CFunctionV, CParamV};
use crate::decl::{EnumDefinitionV, FunctionV, ProgramV, StructDefinitionV, TraitDefinitionV};
use crate::generics::{applications_error, arity, enum_arity, struct_arity, undeclared};
use crate::monomorph::signatures_agree;
use crate::store::{aliased, compatible, known_in, rep_in, unified, StoreV};
use crate::templates::{function_named, missing_method, trait_named};
use crate::types::{TypeId, TypeV};
use vstd::prelude::*;

verus! {

/// Types are refused exactly where one is a type parameter that is not declared.
pub proof fn law_undeclared_parameters_are_refused(ts: Seq<TypeV>, declared: Seq<Seq<char>>, owner: Seq<char>, i: int)
    requires
        0 <= i <= ts.len(),
    ensures
        undeclared(ts, declared, owner, i) is None <==> (forall|k: int|
            i <= k < ts.len() ==> ((#[trigger] ts[k]) matches TypeV::TypeParam(n) ==> declared.contains(n))),
    decreases ts.len() - i,
{
    if i < ts.len() {
        law_undeclared_parameters_are_refused(ts, declared, owner, i + 1);
    }
}

/// Applications are refused exactly where one is of something that is not generic, or has more arguments than
/// there are type parameters.
pub proof fn law_wrong_applications_are_refused(p: ProgramV, ts: Seq<TypeV>, i: int)
    requires
        0 <= i <= ts.len(),
    ensures
        applications_error(p, ts, i) is None <==> (forall|k: int|
            i <= k < ts.len() ==> ((#[trigger] ts[k]) matches TypeV::Instance { base, args } ==> arity(p, base) is Some
                && args.len() <= arity(p, base)->0)),
    decreases ts.len() - i,
{
    if i < ts.len() {
        law_wrong_applications_are_refused(p, ts, i + 1);
    }
}

/// A generic struct or enum has as many type parameters as one of its name declares; nothing else has any.
pub proof fn law_arity_is_the_declared_one(p: ProgramV, name: Seq<char>)
    ensures
        arity(p, name) matches Some(n) ==> n > 0 && ((exists|k: int|
            0 <= k < p.structs.len() && (#[trigger] p.structs[k]).name == name && p.structs[k].type_params.len() == n)
            || (exists|k: int|
            0 <= k < p.enums.len() && (#[trigger] p.enums[k]).name == name && p.enums[k].type_params.len() == n)),
        arity(p, name) is None <==> (forall|k: int|
            0 <= k < p.structs.len() && (#[trigger] p.structs[k]).name == name ==> p.structs[k].type_params.len() == 0)
            && (forall|k: int|
            0 <= k < p.enums.len() && (#[trigger] p.enums[k]).name == name ==> p.enums[k].type_params.len() == 0),
{
    lemma_struct_arity(p.structs, name, p.structs.len() as int);
    lemma_enum_arity(p.enums, name, p.enums.len() as int);
}

proof fn lemma_struct_arity(xs: Seq<StructDefinitionV>, name: Seq<char>, n: int)
    requires
        0 <= n <= xs.len(),
    ensures
        struct_arity(xs, name, n) matches Some(c) ==> c > 0 && exists|k: int|
            0 <= k < n && (#[trigger] xs[k]).name == name && xs[k].type_params.len() == c,
        struct_arity(xs, name, n) is None <==> (forall|k: int|
            0 <= k < n && (#[trigger] xs[k]).name == name ==> xs[k].type_params.len() == 0),
    decreases n,
{
    if n > 0 {
        lemma_struct_arity(xs, name, n - 1);
    }
}

proof fn lemma_enum_arity(xs: Seq<EnumDefinitionV>, name: Seq<char>, n: int)
    requires
        0 <= n <= xs.len(),
    ensures
        enum_arity(xs, name, n) matches Some(c) ==> c > 0 && exists|k: int|
            0 <= k < n && (#[trigger] xs[k]).name == name && xs[k].type_params.len() == c,
        enum_arity(xs, name, n) is None <==> (forall|k: int|
            0 <= k < n && (#[trigger] xs[k]).name == name ==> xs[k].type_params.len() == 0),
    decreases n,
{
    if n > 0 {
        lemma_enum_arity(xs, name, n - 1);
    }
}

/// Looking for a function finds one of the name, and nothing only where none has it.
pub proof fn law_function_is_found_by_its_name(fs: Seq<FunctionV>, name: Seq<char>, n: int)
    requires
        0 <= n <= fs.len(),
    ensures
        function_named(fs, name, n) matches Some(f) ==> f.name == name && fs.contains(f),
        function_named(fs, name, n) is None <==> (forall|k: int| 0 <= k < n ==> (#[trigger] fs[k]).name != name),
    decreases n,
{
    if n > 0 {
        assert(fs.contains(fs[n - 1]));
        law_function_is_found_by_its_name(fs, name, n - 1);
    }
}

/// The same of a trait.
pub proof fn law_trait_is_found_by_its_name(ts: Seq<TraitDefinitionV>, name: Seq<char>, n: int)
    requires
        0 <= n <= ts.len(),
    ensures
        trait_named(ts, name, n) matches Some(t) ==> t.name == name && ts.contains(t),
        trait_named(ts, name, n) is None <==> (forall|k: int| 0 <= k < n ==> (#[trigger] ts[k]).name != name),
    decreases n,
{
    if n > 0 {
        assert(ts.contains(ts[n - 1]));
        law_trait_is_found_by_its_name(ts, name, n - 1);
    }
}

/// Whether a method of the name is among the methods.
pub open spec fn provides(ms: Seq<FunctionV>, name: Seq<char>) -> bool {
    exists|k: int| 0 <= k < ms.len() && (#[trigger] ms[k]).name == name
}

/// An implementation lacks a method exactly where the trait declares one that it does not provide.
pub proof fn law_every_declared_method_is_needed(declared: Seq<FunctionV>, provided: Seq<FunctionV>, name: Seq<char>, t: TypeV, i: int)
    requires
        0 <= i <= declared.len(),
    ensures
        missing_method(declared, provided, name, t, i) is None <==> (forall|k: int|
            i <= k < declared.len() ==> provides(provided, (#[trigger] declared[k]).name)),
    decreases declared.len() - i,
{
    if i < declared.len() {
        law_every_declared_method_is_needed(declared, provided, name, t, i + 1);
        law_function_is_found_by_its_name(provided, declared[i].name, provided.len() as int);
        assert(provides(provided, declared[i].name) <==> function_named(
            provided,
            declared[i].name,
            provided.len() as int,
        ) is Some);
    }
}

/// A method that fits the one of the trait has as many parameters, each of the same type in C, and the same
/// return type in C.
pub proof fn law_fitting_methods_agree(a: FunctionV, b: FunctionV, i: int)
    ensures
        signatures_agree(a, b) == signatures_agree(b, a),
        signatures_agree(a, b) ==> a.params.len() == b.params.len(),
        signatures_agree(a, b) && 0 <= i < a.params.len() ==> (a.params[i].annotation matches Some(t)
            && b.params[i].annotation matches Some(u) && crate::types::c_name(t) == crate::types::c_name(u)),
        signatures_agree(a, b) ==> (a.return_type is Some <==> b.return_type is Some),
{
    if signatures_agree(a, b) {
        assert forall|k: int| 0 <= k < b.params.len() implies crate::monomorph::same_c_name(
            (#[trigger] b.params[k]).annotation,
            a.params[k].annotation,
        ) by {
            assert(crate::monomorph::same_c_name(a.params[k].annotation, b.params[k].annotation));
        }
    }
    if signatures_agree(b, a) {
        assert forall|k: int| 0 <= k < a.params.len() implies crate::monomorph::same_c_name(
            (#[trigger] a.params[k]).annotation,
            b.params[k].annotation,
        ) by {
            assert(crate::monomorph::same_c_name(b.params[k].annotation, a.params[k].annotation));
        }
    }
}

/// Two types can be unified exactly where one of them is not known yet, or they can stand for each other.
pub proof fn law_types_are_unified_where_they_fit(s: StoreV, a: TypeId, b: TypeId)
    requires
        0 <= rep_in(s, a) < s.slots.len(),
        0 <= rep_in(s, b) < s.slots.len(),
    ensures
        unified(s, a, b) is Ok <==> (rep_in(s, a) == rep_in(s, b) || known_in(s, a) is None || known_in(s, b) is None
            || compatible(aliased(s, known_in(s, a)->0), aliased(s, known_in(s, b)->0))),
{
}

/// A C function has a parameter for each one that is declared, but for a lone `void`, and no other.
pub proof fn law_parameters_of_a_c_function(cs: Seq<CNodeV>, i: int, acc: Seq<CParamV>, p: CParamV)
    requires
        0 <= i <= cs.len(),
    ensures
        params_from(cs, i, acc).contains(p) <==> acc.contains(p) || (exists|k: int|
            i <= k < cs.len() && (#[trigger] cs[k]).kind == "parameter_declaration"@ && !(p.ty is Void) && declared_param(
                cs[k],
            ) == p),
        acc.is_prefix_of(params_from(cs, i, acc)),
    decreases cs.len() - i,
{
    if i < cs.len() {
        if cs[i].kind == "parameter_declaration"@ && !(declared_param(cs[i]).ty is Void) {
            let x = declared_param(cs[i]);
            law_parameters_of_a_c_function(cs, i + 1, acc.push(x), p);
            assert(acc.push(x)[acc.len() as int] == x);
            if acc.contains(p) {
                let k = choose|k: int| 0 <= k < acc.len() && acc[k] == p;
                assert(acc.push(x)[k] == p);
            }
            assert(acc.push(x).contains(p) <==> acc.contains(p) || x == p);
            let out = params_from(cs, i, acc);
            assert(acc =~= out.subrange(0, acc.len() as int)) by {
                assert(acc.push(x) =~= out.subrange(0, (acc.len() + 1) as int));
                assert forall|k: int| 0 <= k < acc.len() implies acc[k] == out[k] by {
                    assert(acc.push(x)[k] == out.subrange(0, (acc.len() + 1) as int)[k]);
                }
            }
        } else {
            law_parameters_of_a_c_function(cs, i + 1, acc, p);
        }
    } else {
        assert(acc =~= acc.subrange(0, acc.len() as int));
    }
}

/// Every function that a header declares or defines, without an error in it, is among its declarations.
pub proof fn law_every_c_function_is_read(cs: Seq<CNodeV>, i: int, d: CDeclarationsV, k: int, f: CFunctionV)
    requires
        0 <= i <= k < cs.len(),
        !cs[k].has_error,
        cs[k].kind == "function_definition"@ || (cs[k].kind == "declaration"@ && declares_function(cs[k].children)),
        declared_function(cs[k]) == Some(f),
    ensures
        declarations_from(cs, i, d).functions.contains(f),
    decreases cs.len() - i,
{
    let e = with_node(d, cs[i]);
    if i == k {
        assert(e.functions.last() == f);
        assert(e.functions[e.functions.len() - 1] == f);
        lemma_functions_stay(cs, i + 1, e, f);
    } else {
        law_every_c_function_is_read(cs, i + 1, e, k, f);
    }
}

proof fn lemma_functions_stay(cs: Seq<CNodeV>, i: int, d: CDeclarationsV, f: CFunctionV)
    requires
        0 <= i,
        d.functions.contains(f),
    ensures
        declarations_from(cs, i, d).functions.contains(f),
    decreases cs.len() - i,
{
    if i < cs.len() {
        let e = with_node(d, cs[i]);
        law_declarations_only_grow(d, cs[i]);
        let j = choose|j: int| 0 <= j < d.functions.len() && d.functions[j] == f;
        assert(e.functions.subrange(0, d.functions.len() as int)[j] == f);
        assert(e.functions[j] == f);
        lemma_functions_stay(cs, i + 1, e, f);
    }
}

} // verus!
