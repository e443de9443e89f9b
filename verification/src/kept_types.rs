//! What the realization of generic definitions leaves as it was.
use crate::decl::{EnumDefinitionV, EnumVariantV, FieldV, Function, FunctionV, ParamV, TypeParamV};
use crate::engine::{def_enum, def_variant, def_variants, next_id, no_env, template_params, with_known,
    with_unknown, EnvV, ImplEntryV, MonoV, PendingInstanceV, TemplateDefV, TemplateImplV};
use crate::error::ErrorV;
use crate::ffi::with_params;
use crate::monomorph::{all_known, annotated, annotated_all, applied, args_by_name,
    broken_constraints, completed, default_for, impl_under, impls_realized, is_data_template,
    key_of, method_symbol, methods_realized, methods_staged, missing_args, optional_annotated,
    param_types, prepared, realization_recorded, realized, realized_fields, realized_params,
    realized_variants, staged, subst_functions, this_param};
use crate::store::{bound_in, known_in, law_slots_stay_well_represented, redirected, rep_in,
    slot_represented, unified, well_represented, with_slot, StoreV};
use crate::subst::{subst_function, subst_opt, subst_opt_expr};
use crate::types::{c_names, realized_name, TypeId, TypeV};
use crate::unify::{application_unified, both_unified, instance_at, lists_unified, store_unified};
use vstd::prelude::*;

verus! {

/// Whether a realized application bears the name that its arguments give it.
pub open spec fn name_fits(c: (Seq<char>, Seq<TypeV>, Seq<char>)) -> bool {
    c.2 == realized_name(c.0, c_names(c.1))
}

/// Whether each realized application bears the name that its arguments give it.
pub open spec fn names_fit(cs: Seq<(Seq<char>, Seq<TypeV>, Seq<char>)>) -> bool {
    forall|i: int| 0 <= i < cs.len() ==> name_fits(#[trigger] cs[i])
}

/// Whether realized applications were only added, each under the name that its arguments give it.
#[verifier::opaque]
pub open spec fn grown(
    before: Seq<(Seq<char>, Seq<TypeV>, Seq<char>)>,
    after: Seq<(Seq<char>, Seq<TypeV>, Seq<char>)>,
) -> bool {
    &&& before.len() <= after.len()
    &&& forall|i: int| 0 <= i < before.len() ==> (#[trigger] after[i]) == before[i]
    &&& forall|i: int| before.len() <= i < after.len() ==> name_fits(#[trigger] after[i])
}

/// Whether types were only added, made known or unified: every known type is the same, and
/// indices that stood for one type still do.
#[verifier::opaque]
pub open spec fn refined(before: StoreV, after: StoreV) -> bool {
    &&& before.slots.len() <= after.slots.len()
    &&& well_represented(before) ==> well_represented(after)
    &&& well_represented(before) ==> forall|a: TypeId|
        a.0 < before.slots.len() && known_in(before, a) is Some ==> #[trigger] known_in(after, a) == known_in(
            before,
            a,
        )
    &&& well_represented(before) ==> forall|a: TypeId, b: TypeId|
        a.0 < before.slots.len() && b.0 < before.slots.len() && rep_in(before, a) == rep_in(before, b)
            ==> #[trigger] rep_in(after, a) == #[trigger] rep_in(after, b)
}

/// Whether everything but the scopes and what is realized stayed as it was: the globals, the
/// generic definitions, the aliases, the return type and the source; types were only refined and realized
/// applications only added.
pub open spec fn frame(before: EnvV, after: EnvV) -> bool {
    &&& after.symbols.globals == before.symbols.globals
    &&& after.imported == before.imported
    &&& after.ret == before.ret
    &&& after.file == before.file
    &&& after.source == before.source
    &&& after.mono.templates == before.mono.templates
    &&& after.mono.template_names == before.mono.template_names
    &&& after.mono.template_impls == before.mono.template_impls
    &&& after.mono.defaults == before.mono.defaults
    &&& grown(before.mono.complete, after.mono.complete)
    &&& after.store.typedefs == before.store.typedefs
    &&& refined(before.store, after.store)
}

/// Whether the scopes stayed as they were, too.
pub open spec fn kept(before: EnvV, after: EnvV) -> bool {
    frame(before, after) && after.symbols.vars == before.symbols.vars
}

pub broadcast proof fn lemma_grown_same(cs: Seq<(Seq<char>, Seq<TypeV>, Seq<char>)>)
    ensures
        #[trigger] grown(cs, cs),
{
    reveal(grown);
}

pub broadcast proof fn lemma_grown_twice(
    a: Seq<(Seq<char>, Seq<TypeV>, Seq<char>)>,
    b: Seq<(Seq<char>, Seq<TypeV>, Seq<char>)>,
    c: Seq<(Seq<char>, Seq<TypeV>, Seq<char>)>,
)
    requires
        #[trigger] grown(a, b),
        #[trigger] grown(b, c),
    ensures
        grown(a, c),
{
    reveal(grown);
}

pub broadcast proof fn lemma_refined_same(s: StoreV)
    ensures
        #[trigger] refined(s, s),
{
    reveal(refined);
}

pub broadcast proof fn lemma_refined_twice(a: StoreV, b: StoreV, c: StoreV)
    requires
        #[trigger] refined(a, b),
        #[trigger] refined(b, c),
    ensures
        refined(a, c),
{
    reveal(refined);
    if well_represented(a) {
        assert forall|x: TypeId| x.0 < a.slots.len() && known_in(a, x) is Some implies #[trigger] known_in(c, x)
            == known_in(a, x) by {
            assert(known_in(b, x) == known_in(a, x));
        }
        assert forall|x: TypeId, y: TypeId|
            x.0 < a.slots.len() && y.0 < a.slots.len() && rep_in(a, x) == rep_in(a, y) implies #[trigger] rep_in(c, x)
            == #[trigger] rep_in(c, y) by {
            assert(rep_in(b, x) == rep_in(b, y));
        }
    }
}

pub broadcast proof fn lemma_slot_refines(s: StoreV, k: Option<TypeV>)
    ensures
        refined(s, #[trigger] with_slot(s, k)),
{
    reveal(refined);
    if well_represented(s) {
        law_slots_stay_well_represented(s, TypeId(0), TypeId(0), TypeV::Void, k);
        let w = with_slot(s, k);
        assert forall|a: TypeId| a.0 < s.slots.len() implies #[trigger] rep_in(w, a) == rep_in(s, a) && known_in(w, a)
            == known_in(s, a) by {
            assert(slot_represented(s, a.0 as int));
        }
    }
}

pub broadcast proof fn lemma_bound_refines(s: StoreV, id: TypeId, t: TypeV)
    ensures
        refined(s, #[trigger] bound_in(s, id, t)),
{
    reveal(refined);
    if well_represented(s) {
        law_slots_stay_well_represented(s, id, id, t, None);
        let w = bound_in(s, id, t);
        assert forall|a: TypeId| a.0 < s.slots.len() implies #[trigger] rep_in(w, a) == rep_in(s, a) && (known_in(
            s,
            a,
        ) is Some ==> known_in(w, a) == known_in(s, a)) by {
            assert(slot_represented(s, a.0 as int));
        }
    }
}

pub broadcast proof fn lemma_unified_refines(s: StoreV, a: TypeId, b: TypeId)
    ensures
        (#[trigger] unified(s, a, b)) is Ok ==> refined(s, unified(s, a, b)->Ok_0),
{
    reveal(refined);
    if well_represented(s) && unified(s, a, b) is Ok {
        law_slots_stay_well_represented(s, a, b, TypeV::Void, None);
        let w = unified(s, a, b)->Ok_0;
        let ra = rep_in(s, a);
        let rb = rep_in(s, b);
        if ra != rb && !(s.slots[ra].known is Some && s.slots[rb].known is Some) {
            let from = if s.slots[ra].known is None { ra } else { rb };
            let to = if s.slots[ra].known is None { rb } else { ra };
            assert(w == redirected(s, from, to));
            assert(s.slots[from].known is None);
            assert forall|x: TypeId| x.0 < s.slots.len() implies #[trigger] rep_in(w, x) == (if rep_in(s, x) == from {
                to
            } else {
                rep_in(s, x)
            }) && (known_in(s, x) is Some ==> known_in(w, x) == known_in(s, x)) by {
                assert(slot_represented(s, x.0 as int));
            }
        }
    }
}

pub broadcast group group_grown {
    lemma_grown_same,
    lemma_grown_twice,
    lemma_refined_same,
    lemma_refined_twice,
    lemma_slot_refines,
    lemma_bound_refines,
    lemma_unified_refines,
}

proof fn lemma_recorded(e: EnvV, base: Seq<char>, args: Seq<TypeV>, module: Seq<Seq<char>>)
    ensures
        kept(e, realization_recorded(e, base, args, realized_name(base, c_names(args)), module)),
{
    broadcast use lemma_refined_same;

    reveal(grown);
}


pub proof fn lemma_annotated(fuel: nat, e: EnvV, ann: Option<TypeV>, ps: Seq<(Seq<char>, TypeId)>)
    ensures
        kept(e, annotated(fuel, e, ann, ps).0),
    decreases fuel, 0int, 0int,
{
    broadcast use group_grown;

    if let Some(t) = ann {
        if fuel != 0 {
            match t {
                TypeV::Instance { base, args } => {
                    lemma_applied((fuel - 1) as nat, e, base, args, ps);
                },
                TypeV::Named(n) => {
                    if is_data_template(e, n) {
                        lemma_applied((fuel - 1) as nat, e, n, Seq::empty(), ps);
                    }
                },
                _ => {},
            }
        }
    }
}

pub proof fn lemma_annotated_all(
    fuel: nat,
    e: EnvV,
    ts: Seq<TypeV>,
    ps: Seq<(Seq<char>, TypeId)>,
    i: int,
    acc: Seq<TypeId>,
)
    ensures
        kept(e, annotated_all(fuel, e, ts, ps, i, acc).0),
    decreases fuel, 1int, ts.len() - i,
{
    broadcast use group_grown;

    if 0 <= i < ts.len() {
        lemma_annotated(fuel, e, Some(ts[i]), ps);
        if let (e1, Ok(id)) = annotated(fuel, e, Some(ts[i]), ps) {
            lemma_annotated_all(fuel, e1, ts, ps, i + 1, acc.push(id));
        }
    }
}

pub proof fn lemma_missing_args(
    fuel: nat,
    e: EnvV,
    declared: Seq<TypeParamV>,
    ps: Seq<(Seq<char>, TypeId)>,
    i: int,
    acc: Seq<TypeId>,
)
    ensures
        kept(e, missing_args(fuel, e, declared, ps, i, acc).0),
    decreases fuel, 1int, declared.len() - i,
{
    broadcast use group_grown;

    if 0 <= i < declared.len() {
        match declared[i].default {
            Some(t) => {
                lemma_annotated(fuel, e, Some(t), ps);
                if let (e1, Ok(id)) = annotated(fuel, e, Some(t), ps) {
                    lemma_missing_args(fuel, e1, declared, ps, i + 1, acc.push(id));
                }
            },
            None => {
                let id = next_id(e);
                let e1 = with_unknown(e);
                let e2 = match default_for(declared[i].constraints, e1.mono.defaults, 0) {
                    Some(t) => EnvV { store: bound_in(e1.store, id, t), ..e1 },
                    None => e1,
                };
                lemma_missing_args(fuel, e2, declared, ps, i + 1, acc.push(id));
            },
        }
    }
}

pub proof fn lemma_applied(
    fuel: nat,
    e: EnvV,
    base: Seq<char>,
    supplied: Seq<TypeV>,
    ps: Seq<(Seq<char>, TypeId)>,
)
    ensures
        kept(e, applied(fuel, e, base, supplied, ps).0),
    decreases fuel, 6int, 0int,
{
    broadcast use group_grown;

    if e.mono.templates.contains_key(base) {
        let declared = template_params(e.mono.templates[base].1);
        if supplied.len() <= declared.len() {
            lemma_annotated_all(fuel, e, supplied, ps, 0, Seq::empty());
            if let (e1, Ok(some)) = annotated_all(fuel, e, supplied, ps, 0, Seq::empty()) {
                lemma_missing_args(fuel, e1, declared, ps, supplied.len() as int, some);
                if let (e2, Ok(ids)) = missing_args(fuel, e1, declared, ps, supplied.len() as int, some) {
                    if let Some(args) = all_known(e2.store, ids, 0, Seq::empty()) {
                        if let None = broken_constraints(e2, declared, args, 0) {
                            if fuel != 0 {
                                lemma_realized((fuel - 1) as nat, e2, base, args);
                            }
                        }
                    }
                }
            }
        }
    }
}

pub proof fn lemma_realized_fields(
    fuel: nat,
    e: EnvV,
    fs: Seq<FieldV>,
    m: Seq<(Seq<char>, TypeV)>,
    with_defaults: bool,
    i: int,
    acc: Seq<FieldV>,
)
    ensures
        kept(e, realized_fields(fuel, e, fs, m, with_defaults, i, acc).0),
    decreases fuel, 1int, fs.len() - i,
{
    broadcast use group_grown;

    if 0 <= i < fs.len() {
        let ann = subst_opt(fs[i].annotation, m);
        lemma_annotated(fuel, e, ann, Seq::empty());
        if let (e1, Ok(id)) = annotated(fuel, e, ann, Seq::empty()) {
            let f = FieldV {
                annotation: ann,
                ty: id,
                default: if with_defaults { subst_opt_expr(fs[i].default, m) } else { fs[i].default },
                ..fs[i]
            };
            lemma_realized_fields(fuel, e1, fs, m, with_defaults, i + 1, acc.push(f));
        }
    }
}

pub proof fn lemma_realized_variants(
    fuel: nat,
    e: EnvV,
    vs: Seq<EnumVariantV>,
    name: Seq<char>,
    m: Seq<(Seq<char>, TypeV)>,
    i: int,
    acc: Seq<EnumVariantV>,
)
    ensures
        kept(e, realized_variants(fuel, e, vs, name, m, i, acc).0),
    decreases fuel, 2int, vs.len() - i,
{
    broadcast use group_grown;

    if 0 <= i < vs.len() {
        lemma_realized_fields(fuel, e, vs[i].args, m, false, 0, Seq::empty());
        if let (e1, Ok(args)) = realized_fields(fuel, e, vs[i].args, m, false, 0, Seq::empty()) {
            let v = EnumVariantV { parent: name, args, default: subst_opt_expr(vs[i].default, m), ..vs[i] };
            lemma_realized_variants(fuel, e1, vs, name, m, i + 1, acc.push(v));
        }
    }
}

pub proof fn lemma_realized_params(
    fuel: nat,
    e: EnvV,
    ps: Seq<ParamV>,
    m: Seq<(Seq<char>, TypeV)>,
    i: int,
    acc: Seq<ParamV>,
)
    ensures
        kept(e, realized_params(fuel, e, ps, m, i, acc).0),
    decreases fuel, 1int, ps.len() - i,
{
    broadcast use group_grown;

    if 0 <= i < ps.len() {
        let ann = subst_opt(ps[i].annotation, m);
        lemma_annotated(fuel, e, ann, Seq::empty());
        if let (e1, Ok(id)) = annotated(fuel, e, ann, Seq::empty()) {
            lemma_realized_params(
                fuel,
                e1,
                ps,
                m,
                i + 1,
                acc.push(ParamV { annotation: ann, ty: id, ..ps[i] }),
            );
        }
    }
}

pub proof fn lemma_staged(fuel: nat, e: EnvV, def: TemplateDefV, name: Seq<char>, m: Seq<(Seq<char>, TypeV)>)
    ensures
        kept(e, staged(fuel, e, def, name, m).0),
    decreases fuel, 3int, 0int,
{
    broadcast use group_grown;

    match def {
        TemplateDefV::Struct(s) => {
            lemma_realized_fields(fuel, e, s.fields, m, true, 0, Seq::empty());
        },
        TemplateDefV::Enum(x) => {
            lemma_realized_variants(fuel, e, x.variants, name, m, 0, Seq::empty());
            if let (e1, Ok(variants)) = realized_variants(fuel, e, x.variants, name, m, 0, Seq::empty()) {
                let d = EnumDefinitionV { name, type_params: Seq::empty(), variants, ..x };
                lemma_def_variants(def_enum(e1, d), variants, 0);
            }
        },
        TemplateDefV::Function(f) => {
            lemma_realized_params(fuel, e, f.params, m, 0, Seq::empty());
            if let (e1, Ok(params)) = realized_params(fuel, e, f.params, m, 0, Seq::empty()) {
                let ret = subst_opt(f.return_type, m);
                lemma_optional_annotated(fuel, e1, ret);
            }
        },
    }
}

pub proof fn lemma_optional_annotated(fuel: nat, e: EnvV, ann: Option<TypeV>)
    ensures
        kept(e, optional_annotated(fuel, e, ann).0),
    decreases fuel, 1int, 0int,
{
    broadcast use group_grown;

    if let Some(_) = ann {
        lemma_annotated(fuel, e, ann, Seq::empty());
    }
}

pub proof fn lemma_realized(fuel: nat, e: EnvV, base: Seq<char>, args: Seq<TypeV>)
    ensures
        kept(e, realized(fuel, e, base, args).0),
    decreases fuel, 6int, 0int,
{
    broadcast use group_grown;

    if let None = completed(e.mono.complete, base, args, 0) {
        if e.mono.templates.contains_key(base) {
            let (module, def) = e.mono.templates[base];
            let name = realized_name(base, c_names(args));
            let m = args_by_name(template_params(def), args);
            lemma_staged(fuel, e, def, name, m);
            if let (e1, Ok(_)) = staged(fuel, e, def, name, m) {
                lemma_recorded(e1, base, args, module);
                let e2 = realization_recorded(e1, base, args, name, module);
                if !(def is Function) {
                    lemma_methods_realized(fuel, e2, base, args);
                }
            }
        }
    }
}

pub proof fn lemma_param_types(fuel: nat, e: EnvV, ps: Seq<ParamV>, i: int, acc: Seq<TypeId>)
    ensures
        kept(e, param_types(fuel, e, ps, i, acc).0),
    decreases fuel, 1int, ps.len() - i,
{
    broadcast use group_grown;

    if 0 <= i < ps.len() {
        lemma_annotated(fuel, e, ps[i].annotation, Seq::empty());
        if let (e1, Ok(id)) = annotated(fuel, e, ps[i].annotation, Seq::empty()) {
            lemma_param_types(fuel, e1, ps, i + 1, acc.push(id));
        }
    }
}

pub proof fn lemma_prepared(
    fuel: nat,
    e: EnvV,
    trait_name: Seq<char>,
    for_type: TypeV,
    method: FunctionV,
    module: Seq<Seq<char>>,
)
    ensures
        kept(e, prepared(fuel, e, trait_name, for_type, method, module).0),
    decreases fuel, 2int, 0int,
{
    broadcast use group_grown;

    let symbol = method_symbol(trait_name, for_type, method.name);
    let f = FunctionV {
        name: symbol,
        params: seq![this_param(for_type, next_id(e))] + method.params,
        ..method
    };
    let e1 = with_unknown(e);
    let e2 = EnvV {
        mono: MonoV { mono_modules: e1.mono.mono_modules.insert(symbol, module), ..e1.mono },
        ..e1
    };
    lemma_param_types(fuel, e2, f.params, 0, Seq::empty());
    if let (e3, Ok(ids)) = param_types(fuel, e2, f.params, 0, Seq::empty()) {
        lemma_annotated(fuel, e3, f.return_type, Seq::empty());
    }
}

pub proof fn lemma_methods_staged(
    fuel: nat,
    e: EnvV,
    t: TemplateImplV,
    m: Seq<(Seq<char>, TypeV)>,
    for_type: TypeV,
    j: int,
)
    ensures
        kept(e, methods_staged(fuel, e, t, m, for_type, j).0),
    decreases fuel, 3int, t.methods.len() - j,
{
    broadcast use group_grown;

    if 0 <= j < t.methods.len() {
        lemma_prepared(fuel, e, t.trait_name, for_type, subst_function(t.methods[j], m), t.module);
        if let (e1, Ok(f)) = prepared(fuel, e, t.trait_name, for_type, subst_function(t.methods[j], m), t.module) {
            lemma_methods_staged(
                fuel,
                EnvV {
                    mono: MonoV { staged_impl_methods: e1.mono.staged_impl_methods.push(f), ..e1.mono },
                    ..e1
                },
                t,
                m,
                for_type,
                j + 1,
            );
        }
    }
}

pub proof fn lemma_impls_realized(
    fuel: nat,
    e: EnvV,
    ts: Seq<TemplateImplV>,
    base: Seq<char>,
    m: Seq<(Seq<char>, TypeV)>,
    for_type: TypeV,
    i: int,
)
    ensures
        kept(e, impls_realized(fuel, e, ts, base, m, for_type, i).0),
    decreases fuel, 4int, ts.len() - i,
{
    broadcast use group_grown;

    if 0 <= i < ts.len() {
        let t = ts[i];
        if !(t.for_type is Instance) || t.for_type->Instance_base != base || impl_under(
            e.mono.impls,
            key_of(for_type),
            t.trait_name,
            0,
        ) is Some {
            lemma_impls_realized(fuel, e, ts, base, m, for_type, i + 1);
        } else {
            let entry = ImplEntryV {
                trait_name: t.trait_name,
                for_type,
                methods: subst_functions(t.methods, m),
            };
            let e1 = EnvV {
                mono: MonoV { impls: e.mono.impls.push((key_of(for_type), entry)), ..e.mono },
                ..e
            };
            lemma_methods_staged(fuel, e1, t, m, for_type, 0);
            if let (e2, Ok(_)) = methods_staged(fuel, e1, t, m, for_type, 0) {
                lemma_impls_realized(fuel, e2, ts, base, m, for_type, i + 1);
            }
        }
    }
}

pub proof fn lemma_methods_realized(fuel: nat, e: EnvV, base: Seq<char>, args: Seq<TypeV>)
    ensures
        kept(e, methods_realized(fuel, e, base, args).0),
    decreases fuel, 5int, 0int,
{
    broadcast use group_grown;

    if e.mono.templates.contains_key(base) {
        lemma_impls_realized(
            fuel,
            e,
            e.mono.template_impls,
            base,
            args_by_name(template_params(e.mono.templates[base].1), args),
            TypeV::Named(realized_name(base, c_names(args))),
            0,
        );
    }
}

pub proof fn lemma_store_unified(e: EnvV, a: TypeId, b: TypeId)
    ensures
        kept(e, store_unified(e, a, b).0),
{
    broadcast use group_grown;

}

pub proof fn lemma_lists_unified(fuel: nat, e: EnvV, xs: Seq<TypeId>, ys: Seq<TypeId>, i: int)
    ensures
        kept(e, lists_unified(fuel, e, xs, ys, i).0),
    decreases fuel, 2int, xs.len() - i,
{
    broadcast use group_grown;

    if 0 <= i < xs.len() && i < ys.len() {
        lemma_both_unified(fuel, e, xs[i], ys[i]);
        if let (e1, Ok(_)) = both_unified(fuel, e, xs[i], ys[i]) {
            lemma_lists_unified(fuel, e1, xs, ys, i + 1);
        }
    }
}

pub proof fn lemma_both_unified(fuel: nat, e: EnvV, a: TypeId, b: TypeId)
    ensures
        kept(e, both_unified(fuel, e, a, b).0),
    decreases fuel, 1int, 0int,
{
    broadcast use group_grown;

    let ra = rep_in(e.store, a);
    let rb = rep_in(e.store, b);
    if ra != rb {
        let ia = instance_at(e.mono.instance_types, TypeId(ra as usize), 0);
        let ib = instance_at(e.mono.instance_types, TypeId(rb as usize), 0);
        match (ia, ib) {
            (Some(x), Some(y)) => {
                if x.base == y.base {
                    if x.params.len() == y.params.len() {
                        if fuel != 0 {
                            lemma_lists_unified((fuel - 1) as nat, e, x.params, y.params, 0);
                            if let (e1, Ok(_)) = lists_unified((fuel - 1) as nat, e, x.params, y.params, 0) {
                                lemma_store_unified(e1, a, b);
                            }
                        }
                    }
                }
            },
            (Some(x), None) => {
                lemma_application_unified(fuel, e, x, TypeId(rb as usize), a, b);
            },
            (None, Some(y)) => {
                lemma_application_unified(fuel, e, y, TypeId(ra as usize), b, a);
            },
            (None, None) => {
                lemma_store_unified(e, a, b);
            },
        }
    }
}

pub proof fn lemma_application_unified(
    fuel: nat,
    e: EnvV,
    inst: PendingInstanceV,
    known_rep: TypeId,
    inst_id: TypeId,
    known_id: TypeId,
)
    ensures
        kept(e, application_unified(fuel, e, inst, known_rep, inst_id, known_id).0),
    decreases fuel, 0int, 0int,
{
    broadcast use group_grown;

    match known_in(e.store, known_rep) {
        Some(TypeV::Named(name)) => {
            let m = e.mono.mono_instances;
            if m.contains_key(name) && m[name].0 == inst.base && m[name].1.len() == inst.params.len() {
                lemma_with_params(e, m[name].1, 0, Seq::empty());
                let (e1, ids) = with_params(e, m[name].1, 0, Seq::empty());
                if fuel != 0 {
                    lemma_lists_unified((fuel - 1) as nat, e1, inst.params, ids, 0);
                    if let (e2, Ok(_)) = lists_unified((fuel - 1) as nat, e1, inst.params, ids, 0) {
                        lemma_store_unified(e2, inst_id, known_id);
                    }
                }
            }
        },
        None => {
            lemma_store_unified(e, inst_id, known_id);
        },
        _ => {},
    }
}

pub proof fn lemma_with_params(e: EnvV, ts: Seq<TypeV>, i: int, acc: Seq<TypeId>)
    ensures
        kept(e, with_params(e, ts, i, acc).0),
    decreases ts.len() - i,
{
    broadcast use group_grown;

    if 0 <= i < ts.len() {
        lemma_with_params(with_known(e, ts[i]), ts, i + 1, acc.push(next_id(e)));
    }
}

pub proof fn lemma_def_variants(e: EnvV, vs: Seq<EnumVariantV>, i: int)
    ensures
        kept(e, def_variants(e, vs, i)),
    decreases vs.len() - i,
{
    broadcast use group_grown;

    if 0 <= i < vs.len() {
        lemma_def_variants(def_variant(e, vs[i]), vs, i + 1);
    }
}


proof fn lemma_completed(
    cs: Seq<(Seq<char>, Seq<TypeV>, Seq<char>)>,
    base: Seq<char>,
    args: Seq<TypeV>,
    i: int,
    m: int,
    k: int,
)
    requires
        0 <= i <= k < cs.len(),
        forall|j: int| m <= j < cs.len() ==> name_fits(#[trigger] cs[j]),
        forall|j: int| i <= j < m && j < cs.len() ==> !((#[trigger] cs[j]).0 == base && cs[j].1 == args),
        cs[k].0 == base,
        cs[k].1 == args,
    ensures
        completed(cs, base, args, i) == Some(realized_name(base, c_names(args))),
    decreases k - i,
{
    if !(cs[i].0 == base && cs[i].1 == args) {
        lemma_completed(cs, base, args, i + 1, m, k);
    } else {
        assert(name_fits(cs[i]));
    }
}

proof fn lemma_same_front(
    a: Seq<(Seq<char>, Seq<TypeV>, Seq<char>)>,
    b: Seq<(Seq<char>, Seq<TypeV>, Seq<char>)>,
    base: Seq<char>,
    args: Seq<TypeV>,
    i: int,
)
    requires
        0 <= i,
        a.len() <= b.len(),
        forall|j: int| 0 <= j < a.len() ==> (#[trigger] b[j]) == a[j],
        completed(a, base, args, i) is Some,
    ensures
        completed(b, base, args, i) == completed(a, base, args, i),
    decreases a.len() - i,
{
    assert(b[i] == a[i]);
    if !(a[i].0 == base && a[i].1 == args) {
        lemma_same_front(a, b, base, args, i + 1);
    }
}

proof fn lemma_not_found(cs: Seq<(Seq<char>, Seq<TypeV>, Seq<char>)>, base: Seq<char>, args: Seq<TypeV>, i: int)
    requires
        0 <= i,
        completed(cs, base, args, i) is None,
    ensures
        forall|j: int| i <= j < cs.len() ==> !((#[trigger] cs[j]).0 == base && cs[j].1 == args),
    decreases cs.len() - i,
{
    if i < cs.len() {
        lemma_not_found(cs, base, args, i + 1);
    }
}

/// An application is realized once: after it was, realizing it again gives the same name, says
/// that it is not new and changes nothing, whatever was realized in between.
pub proof fn law_application_is_realized_once(
    fuel: nat,
    e: EnvV,
    base: Seq<char>,
    args: Seq<TypeV>,
    later: EnvV,
    more: nat,
)
    requires
        realized(fuel, e, base, args).1 is Ok,
        grown(realized(fuel, e, base, args).0.mono.complete, later.mono.complete),
    ensures
        realized(more, later, base, args) == (
            later,
            Ok::<(Seq<char>, bool), ErrorV>(((realized(fuel, e, base, args).1->Ok_0).0, false)),
        ),
{
    broadcast use group_grown;

    let after = realized(fuel, e, base, args).0;
    lemma_realized(fuel, e, base, args);
    reveal(grown);
    match completed(e.mono.complete, base, args, 0) {
        Some(name) => {
            lemma_same_front(e.mono.complete, later.mono.complete, base, args, 0);
        },
        None => {
            let (module, def) = e.mono.templates[base];
            let name = realized_name(base, c_names(args));
            let m = args_by_name(template_params(def), args);
            lemma_staged(fuel, e, def, name, m);
            let e1 = staged(fuel, e, def, name, m).0;
            let e2 = realization_recorded(e1, base, args, name, module);
            let k = e1.mono.complete.len() as int;
            assert(e2.mono.complete[k] == (base, args, name));
            if !(def is Function) {
                lemma_methods_realized(fuel, e2, base, args);
            }
            assert(after.mono.complete[k] == (base, args, name));
            assert(later.mono.complete[k] == (base, args, name));
            lemma_not_found(e.mono.complete, base, args, 0);
            lemma_completed(later.mono.complete, base, args, 0, e.mono.complete.len() as int, k);
        },
    }
}

/// A new engine has realized nothing under a wrong name, and nothing that only adds realized
/// applications changes that: so an application is always realized under the name that its
/// arguments give it.
pub proof fn law_realized_names_fit(fuel: nat, e: EnvV, base: Seq<char>, args: Seq<TypeV>, later: EnvV)
    ensures
        names_fit(no_env().mono.complete),
        names_fit(e.mono.complete) && grown(e.mono.complete, later.mono.complete) ==> names_fit(later.mono.complete),
        names_fit(e.mono.complete) ==> names_fit(realized(fuel, e, base, args).0.mono.complete),
        names_fit(e.mono.complete) && realized(fuel, e, base, args).1 is Ok ==> (realized(fuel, e, base, args).1->Ok_0).0
            == realized_name(base, c_names(args)),
{
    reveal(grown);
    lemma_realized(fuel, e, base, args);
    let after = realized(fuel, e, base, args).0;
    if names_fit(e.mono.complete) {
        lemma_fit_grows(e.mono.complete, after.mono.complete);
        if grown(e.mono.complete, later.mono.complete) {
            lemma_fit_grows(e.mono.complete, later.mono.complete);
        }
        if let Some(name) = completed(e.mono.complete, base, args, 0) {
            lemma_found(e.mono.complete, base, args, 0);
            let k = choose|k: int|
                0 <= k < e.mono.complete.len() && (#[trigger] e.mono.complete[k]).0 == base && e.mono.complete[k].1
                    == args && e.mono.complete[k].2 == name;
            assert(name_fits(e.mono.complete[k]));
        }
    }
}

proof fn lemma_fit_grows(a: Seq<(Seq<char>, Seq<TypeV>, Seq<char>)>, b: Seq<(Seq<char>, Seq<TypeV>, Seq<char>)>)
    requires
        names_fit(a),
        grown(a, b),
    ensures
        names_fit(b),
{
    reveal(grown);
    assert forall|i: int| 0 <= i < b.len() implies name_fits(#[trigger] b[i]) by {
        if i < a.len() {
            assert(b[i] == a[i]);
            assert(name_fits(a[i]));
        }
    }
}

proof fn lemma_found(cs: Seq<(Seq<char>, Seq<TypeV>, Seq<char>)>, base: Seq<char>, args: Seq<TypeV>, i: int)
    requires
        0 <= i,
        completed(cs, base, args, i) is Some,
    ensures
        exists|k: int|
            i <= k < cs.len() && (#[trigger] cs[k]).0 == base && cs[k].1 == args && cs[k].2 == completed(
                cs,
                base,
                args,
                i,
            )->0,
    decreases cs.len() - i,
{
    if !(cs[i].0 == base && cs[i].1 == args) {
        lemma_found(cs, base, args, i + 1);
    }
}

} // verus!
