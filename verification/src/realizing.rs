//! What a realized definition keeps of its template: its parts, one by one and under their names, with
//! the type parameters replaced.
use crate::decl::{EnumVariantV, FieldV, FunctionV, ParamV, TypeParamV};
use crate::engine::{EnvV, TemplateDefV};
use crate::monomorph::{annotated, args_by_name, param_ids, realized_fields, realized_params, realized_variants,
    staged};
use crate::shapes::{bare_opt, bare_stmts};
use crate::subst::{last_of, subst_opt, subst_opt_expr};
use crate::symbols::get_in;
use crate::types::TypeV;
use vstd::prelude::*;

verus! {

/// Type arguments are given to type parameters in order.
pub proof fn law_arguments_are_given_in_order(ps: Seq<TypeParamV>, args: Seq<TypeV>, i: int)
    requires
        0 <= i < ps.len(),
        ps.len() == args.len(),
        forall|a: int, b: int| 0 <= a < b < ps.len() ==> (#[trigger] ps[a]).name != (#[trigger] ps[b]).name,
    ensures
        last_of(args_by_name(ps, args), ps[i].name) == Some(args[i]),
{
    let m = args_by_name(ps, args);
    assert(m.len() == ps.len());
    lemma_given(ps, args, i, m.len() as int);
    assert(m.take(m.len() as int) =~= m);
}

proof fn lemma_given(ps: Seq<TypeParamV>, args: Seq<TypeV>, i: int, n: int)
    requires
        0 <= i < n <= ps.len(),
        ps.len() == args.len(),
        args_by_name(ps, args).len() == ps.len(),
        forall|a: int, b: int| 0 <= a < b < ps.len() ==> (#[trigger] ps[a]).name != (#[trigger] ps[b]).name,
    ensures
        last_of(args_by_name(ps, args).take(n), ps[i].name) == Some(args[i]),
    decreases n,
{
    let m = args_by_name(ps, args).take(n);
    assert(m.last() == (ps[n - 1].name, args[n - 1]));
    if i < n - 1 {
        assert(ps[i].name != ps[n - 1].name);
        assert(m.drop_last() =~= args_by_name(ps, args).take(n - 1));
        lemma_given(ps, args, i, n - 1);
    }
}

/// The fields of a realized definition are those of the template, with the type parameters replaced.
pub proof fn law_realized_fields_are_those_of_the_template(fuel: nat, e: EnvV, fs: Seq<FieldV>, m: Seq<(Seq<char>, TypeV)>, d: bool, i: int, acc: Seq<FieldV>)
    requires
        0 <= i,
        realized_fields(fuel, e, fs, m, d, i, acc).1 is Ok,
    ensures
        ({
            let out = realized_fields(fuel, e, fs, m, d, i, acc).1->Ok_0;
            &&& out.len() == acc.len() + if i < fs.len() {
                fs.len() - i
            } else {
                0
            }
            &&& forall|j: int| 0 <= j < acc.len() ==> #[trigger] out[j] == acc[j]
            &&& forall|j: int| acc.len() <= j < out.len() ==> is_realized_field(#[trigger] out[j], fs[i + j - acc.len()], m)
        }),
    decreases fs.len() - i,
{
    if i < fs.len() {
        let (e1, r) = annotated(fuel, e, subst_opt(fs[i].annotation, m), Seq::empty());
        let x = FieldV {
            annotation: subst_opt(fs[i].annotation, m),
            ty: r->Ok_0,
            default: if d {
                subst_opt_expr(fs[i].default, m)
            } else {
                fs[i].default
            },
            ..fs[i]
        };
        if let Some(v) = fs[i].default {
            crate::shapes::lemma_replaced_expr(v, m);
        }
        let acc1 = acc.push(x);
        law_realized_fields_are_those_of_the_template(fuel, e1, fs, m, d, i + 1, acc1);
        let out = realized_fields(fuel, e, fs, m, d, i, acc).1->Ok_0;
        assert(out[acc.len() as int] == acc1[acc.len() as int]);
        assert forall|j: int| 0 <= j < acc.len() implies #[trigger] out[j] == acc[j] by {
            assert(out[j] == acc1[j]);
        }
    }
}

/// Whether a field is that of a template with the type parameters replaced.
pub open spec fn is_realized_field(f: FieldV, t: FieldV, m: Seq<(Seq<char>, TypeV)>) -> bool {
    &&& f.name == t.name
    &&& f.annotation == subst_opt(t.annotation, m)
    &&& f.is_const == t.is_const
    &&& bare_opt(f.default, true) == bare_opt(t.default, true)
}

/// Whether a parameter is that of a template with the type parameters replaced.
pub open spec fn is_realized_param(f: ParamV, t: ParamV, m: Seq<(Seq<char>, TypeV)>) -> bool {
    f.name == t.name && f.annotation == subst_opt(t.annotation, m)
}

/// Whether a variant is that of a template with the type parameters replaced.
pub open spec fn is_realized_variant(v: EnumVariantV, t: EnumVariantV, name: Seq<char>, m: Seq<(Seq<char>, TypeV)>) -> bool {
    &&& v.name == t.name
    &&& v.parent == name
    &&& v.args.len() == t.args.len()
    &&& forall|k: int| 0 <= k < t.args.len() ==> is_realized_field(#[trigger] v.args[k], t.args[k], m)
}

/// The parameters of a realized function are those of the template, with the type parameters replaced.
pub proof fn law_realized_params_are_those_of_the_template(fuel: nat, e: EnvV, ps: Seq<ParamV>, m: Seq<(Seq<char>, TypeV)>, i: int, acc: Seq<ParamV>)
    requires
        0 <= i,
        realized_params(fuel, e, ps, m, i, acc).1 is Ok,
    ensures
        ({
            let out = realized_params(fuel, e, ps, m, i, acc).1->Ok_0;
            &&& out.len() == acc.len() + if i < ps.len() {
                ps.len() - i
            } else {
                0
            }
            &&& forall|j: int| 0 <= j < acc.len() ==> #[trigger] out[j] == acc[j]
            &&& forall|j: int| acc.len() <= j < out.len() ==> is_realized_param(#[trigger] out[j], ps[i + j - acc.len()], m)
        }),
    decreases ps.len() - i,
{
    if i < ps.len() {
        let (e1, r) = annotated(fuel, e, subst_opt(ps[i].annotation, m), Seq::empty());
        let x = ParamV { annotation: subst_opt(ps[i].annotation, m), ty: r->Ok_0, ..ps[i] };
        let acc1 = acc.push(x);
        law_realized_params_are_those_of_the_template(fuel, e1, ps, m, i + 1, acc1);
        let out = realized_params(fuel, e, ps, m, i, acc).1->Ok_0;
        assert(out[acc.len() as int] == acc1[acc.len() as int]);
        assert forall|j: int| 0 <= j < acc.len() implies #[trigger] out[j] == acc[j] by {
            assert(out[j] == acc1[j]);
        }
    }
}

/// The variants of a realized enum are those of the template, with the type parameters replaced.
pub proof fn law_realized_variants_are_those_of_the_template(fuel: nat, e: EnvV, vs: Seq<EnumVariantV>, name: Seq<char>, m: Seq<(Seq<char>, TypeV)>, i: int, acc: Seq<EnumVariantV>)
    requires
        0 <= i,
        realized_variants(fuel, e, vs, name, m, i, acc).1 is Ok,
    ensures
        ({
            let out = realized_variants(fuel, e, vs, name, m, i, acc).1->Ok_0;
            &&& out.len() == acc.len() + if i < vs.len() {
                vs.len() - i
            } else {
                0
            }
            &&& forall|j: int| 0 <= j < acc.len() ==> #[trigger] out[j] == acc[j]
            &&& forall|j: int| acc.len() <= j < out.len() ==> is_realized_variant(#[trigger] out[j], vs[i + j - acc.len()], name, m)
        }),
    decreases vs.len() - i,
{
    if i < vs.len() {
        let (e1, r) = realized_fields(fuel, e, vs[i].args, m, false, 0, Seq::empty());
        law_realized_fields_are_those_of_the_template(fuel, e, vs[i].args, m, false, 0, Seq::empty());
        let x = EnumVariantV { parent: name, args: r->Ok_0, default: subst_opt_expr(vs[i].default, m), ..vs[i] };
        assert(is_realized_variant(x, vs[i], name, m)) by {
            assert forall|k: int| 0 <= k < vs[i].args.len() implies is_realized_field(
                #[trigger] x.args[k],
                vs[i].args[k],
                m,
            ) by {
                assert(is_realized_field(r->Ok_0[k], vs[i].args[0 + k - 0], m));
            }
        }
        let acc1 = acc.push(x);
        law_realized_variants_are_those_of_the_template(fuel, e1, vs, name, m, i + 1, acc1);
        let out = realized_variants(fuel, e, vs, name, m, i, acc).1->Ok_0;
        assert(out[acc.len() as int] == acc1[acc.len() as int]);
        assert forall|j: int| 0 <= j < acc.len() implies #[trigger] out[j] == acc[j] by {
            assert(out[j] == acc1[j]);
        }
    }
}

/// A realized function has its own name and no type parameters, the parameters and the return type of the
/// template with the type parameters replaced, and the body of the template but for types.
pub proof fn law_realized_function(fuel: nat, e: EnvV, f: FunctionV, name: Seq<char>, m: Seq<(Seq<char>, TypeV)>)
    requires
        staged(fuel, e, TemplateDefV::Function(f), name, m).1 is Ok,
    ensures
        ({
            let after = staged(fuel, e, TemplateDefV::Function(f), name, m).0;
            let g = after.mono.staged_functions.last();
            &&& after.mono.staged_functions.len() > 0
            &&& g.name == name
            &&& g.type_params.len() == 0
            &&& g.params.len() == f.params.len()
            &&& forall|j: int| 0 <= j < f.params.len() ==> is_realized_param(#[trigger] g.params[j], f.params[j], m)
            &&& g.return_type == subst_opt(f.return_type, m)
            &&& bare_stmts(g.body.stmts, true) == bare_stmts(f.body.stmts, true)
            &&& f.return_type is Some ==> get_in(after.symbols.functions, name) == Some(
                (param_ids(g.params), g.inferred_return->0),
            ) && g.inferred_return is Some
        }),
{
    law_realized_params_are_those_of_the_template(fuel, e, f.params, m, 0, Seq::empty());
    let ps = realized_params(fuel, e, f.params, m, 0, Seq::empty()).1->Ok_0;
    crate::shapes::law_replaced_function(f, m);
    let g = staged(fuel, e, TemplateDefV::Function(f), name, m).0.mono.staged_functions.last();
    assert(g.params == ps);
    assert forall|j: int| 0 <= j < f.params.len() implies is_realized_param(#[trigger] g.params[j], f.params[j], m) by {
        assert(is_realized_param(ps[j], f.params[0 + j - 0], m));
    }
}

/// A realized struct is found under its own name, without type parameters, with the fields of the template.
pub proof fn law_realized_struct(
    fuel: nat,
    e: EnvV,
    s: crate::decl::StructDefinitionV,
    name: Seq<char>,
    m: Seq<(Seq<char>, TypeV)>,
)
    requires
        staged(fuel, e, TemplateDefV::Struct(s), name, m).1 is Ok,
    ensures
        ({
            let after = staged(fuel, e, TemplateDefV::Struct(s), name, m).0;
            let g = after.mono.staged_structs.last();
            &&& after.mono.staged_structs.len() > 0
            &&& get_in(after.symbols.structs, name) == Some(g)
            &&& g.name == name
            &&& g.type_params.len() == 0
            &&& g.fields.len() == s.fields.len()
            &&& forall|j: int| 0 <= j < s.fields.len() ==> is_realized_field(#[trigger] g.fields[j], s.fields[j], m)
        }),
{
    law_realized_fields_are_those_of_the_template(fuel, e, s.fields, m, true, 0, Seq::empty());
    let fs = realized_fields(fuel, e, s.fields, m, true, 0, Seq::empty()).1->Ok_0;
    let g = staged(fuel, e, TemplateDefV::Struct(s), name, m).0.mono.staged_structs.last();
    assert(g.fields == fs);
    assert forall|j: int| 0 <= j < s.fields.len() implies is_realized_field(#[trigger] g.fields[j], s.fields[j], m) by {
        assert(is_realized_field(fs[j], s.fields[0 + j - 0], m));
    }
}

/// A realized enum has its own name and no type parameters, and the variants of the template.
pub proof fn law_realized_enum(
    fuel: nat,
    e: EnvV,
    s: crate::decl::EnumDefinitionV,
    name: Seq<char>,
    m: Seq<(Seq<char>, TypeV)>,
)
    requires
        staged(fuel, e, TemplateDefV::Enum(s), name, m).1 is Ok,
    ensures
        ({
            let after = staged(fuel, e, TemplateDefV::Enum(s), name, m).0;
            let g = after.mono.staged_enums.last();
            &&& after.mono.staged_enums.len() > 0
            &&& g.name == name
            &&& g.type_params.len() == 0
            &&& g.variants.len() == s.variants.len()
            &&& forall|j: int|
                0 <= j < s.variants.len() ==> is_realized_variant(#[trigger] g.variants[j], s.variants[j], name, m)
        }),
{
    law_realized_variants_are_those_of_the_template(fuel, e, s.variants, name, m, 0, Seq::empty());
    let vs = realized_variants(fuel, e, s.variants, name, m, 0, Seq::empty()).1->Ok_0;
    let g = staged(fuel, e, TemplateDefV::Enum(s), name, m).0.mono.staged_enums.last();
    assert(g.variants == vs);
    assert forall|j: int| 0 <= j < s.variants.len() implies is_realized_variant(
        #[trigger] g.variants[j],
        s.variants[j],
        name,
        m,
    ) by {
        assert(is_realized_variant(vs[j], s.variants[0 + j - 0], name, m));
    }
}

} // verus!
