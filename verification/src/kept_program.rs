//! What type inference of programs leaves as it was.
use crate::decl::{EnumDefinitionV, EnumVariantV, FieldV, FunctionV, GlobalDeclV, ParamV, ProgramV,
    StructDefinitionV, TypeDefV};
use crate::engine::{def_enum, def_global, def_struct, def_var, def_variant, scope_entered,
    scope_left, with_known, EnvV, MonoV, PendingGenericV};
use crate::ffi::name_ids;
use crate::infer_program::{bare_global, body_typed, enums_registered, fields_resolved,
    function_known, function_typed, functions_typed, globals_typed, params_typed, pass_begun,
    program_typed, return_declared, return_settled, structs_registered, typedefs_registered,
    types_registered, variants_resolved};
use crate::kept_stmts::{lemma_block_typed, lemma_defined, lemma_initialized, outer_kept};
use crate::kept_types::{group_grown, grown, lemma_annotated, lemma_realized, refined};
use crate::mono_pass::{all_bound, all_realized, monomorphs_generated, one_realized, standing_for};
use crate::monomorph::{all_known, annotated, param_ids, realized};
use crate::pipeline::{settled, MONOMORPH_PASS_LIMIT};
use crate::stmt_spec::{block_typed, initialized};
use crate::store::{bound_in, known_in, rep_in, slot_represented, well_represented, StoreV};
use crate::types::{TypeId, TypeV};
use vstd::prelude::*;

verus! {

/// Whether types were only refined, realized applications only added, and the generic
/// definitions and the source stayed as they were.
pub open spec fn progressed(before: EnvV, after: EnvV) -> bool {
    &&& after.imported == before.imported
    &&& after.file == before.file
    &&& after.source == before.source
    &&& after.mono.templates == before.mono.templates
    &&& after.mono.template_names == before.mono.template_names
    &&& after.mono.template_impls == before.mono.template_impls
    &&& after.mono.defaults == before.mono.defaults
    &&& grown(before.mono.complete, after.mono.complete)
    &&& refined(before.store, after.store)
}

proof fn lemma_all_bound(s: StoreV, ids: Seq<TypeId>, t: TypeV, i: int)
    ensures
        refined(s, all_bound(s, ids, t, i)),
    decreases ids.len() - i,
{
    broadcast use group_grown;

    if 0 <= i < ids.len() {
        lemma_all_bound(bound_in(s, ids[i], t), ids, t, i + 1);
    }
}

proof fn lemma_params_typed(fuel: nat, e: EnvV, ps: Seq<ParamV>, i: int, acc: Seq<ParamV>)
    ensures
        progressed(e, params_typed(fuel, e, ps, i, acc).0),
        params_typed(fuel, e, ps, i, acc).1 is Ok ==> outer_kept(e, params_typed(fuel, e, ps, i, acc).0),
    decreases ps.len() - i,
{
    broadcast use group_grown;

    if 0 <= i < ps.len() {
        lemma_annotated(fuel, e, ps[i].annotation, Seq::empty());
        if let (e1, Ok(id)) = annotated(fuel, e, ps[i].annotation, Seq::empty()) {
            lemma_defined(e1, ps[i].name, id);
            lemma_params_typed(
                fuel,
                def_var(e1, ps[i].name, id),
                ps,
                i + 1,
                acc.push(ParamV { ty: id, ..ps[i] }),
            );
        }
    }
}

proof fn lemma_return_declared(fuel: nat, e: EnvV, ret: Option<TypeV>)
    ensures
        progressed(e, return_declared(fuel, e, ret).0),
        return_declared(fuel, e, ret).0.symbols.vars == e.symbols.vars,
{
    broadcast use group_grown;

    if let Some(_) = ret {
        lemma_annotated(fuel, e, ret, Seq::empty());
    }
}

proof fn lemma_return_settled(e: EnvV, ret: TypeId)
    ensures
        progressed(e, return_settled(e, ret).0),
        return_settled(e, ret).0.symbols.vars == e.symbols.vars,
{
    broadcast use group_grown;

}

proof fn lemma_function_known(e: EnvV, name: Seq<char>, ids: Seq<TypeId>, ret: TypeId)
    ensures
        progressed(e, function_known(e, name, ids, ret)),
        function_known(e, name, ids, ret).symbols.vars == e.symbols.vars,
{
    broadcast use group_grown;

}

proof fn lemma_function_typed(fuel: nat, e: EnvV, f: FunctionV)
    requires
        e.symbols.vars.len() > 0,
    ensures
        progressed(e, function_typed(fuel, e, f).0),
        function_typed(fuel, e, f).1 is Ok ==> function_typed(fuel, e, f).0.symbols.vars == e.symbols.vars,
{
    broadcast use group_grown;

    lemma_params_typed(fuel, scope_entered(e), f.params, 0, Seq::empty());
    if let (e1, Ok(params)) = params_typed(fuel, scope_entered(e), f.params, 0, Seq::empty()) {
        lemma_return_declared(fuel, e1, f.return_type);
        if let (e2, Ok(ret)) = return_declared(fuel, e1, f.return_type) {
            lemma_body_typed(fuel, EnvV { ret: Some(ret), ..e2 }, f, params, ret);
        }
    }
    assert(e.symbols.vars.push(Map::empty()).drop_last() =~= e.symbols.vars);
}

proof fn lemma_body_typed(fuel: nat, e: EnvV, f: FunctionV, params: Seq<ParamV>, ret: TypeId)
    requires
        e.symbols.vars.len() > 1,
    ensures
        progressed(e, body_typed(fuel, e, f, params, ret).0),
        body_typed(fuel, e, f, params, ret).1 is Ok
            ==> body_typed(fuel, e, f, params, ret).0.symbols.vars == e.symbols.vars.drop_last(),
{
    broadcast use group_grown;

    lemma_block_typed(fuel, e, f.body.stmts);
    if let (e1, Ok(stmts)) = block_typed(fuel, e, f.body.stmts) {
        lemma_return_settled(e1, ret);
        if let (e2, Ok(id)) = return_settled(e1, ret) {
            lemma_function_known(scope_left(EnvV { ret: None, ..e2 }), f.name, param_ids(params), id);
        }
    }
}

proof fn lemma_functions_typed(fuel: nat, e: EnvV, fs: Seq<FunctionV>, i: int, acc: Seq<FunctionV>)
    requires
        e.symbols.vars.len() > 0,
    ensures
        progressed(e, functions_typed(fuel, e, fs, i, acc).0),
        functions_typed(fuel, e, fs, i, acc).1 is Ok
            ==> functions_typed(fuel, e, fs, i, acc).0.symbols.vars == e.symbols.vars,
    decreases fs.len() - i,
{
    broadcast use group_grown;

    if 0 <= i < fs.len() {
        if fs[i].type_params.len() > 0 {
            lemma_functions_typed(fuel, e, fs, i + 1, acc.push(fs[i]));
        } else {
            lemma_function_typed(fuel, e, fs[i]);
            if let (e1, Ok(f)) = function_typed(fuel, e, fs[i]) {
                lemma_functions_typed(fuel, e1, fs, i + 1, acc.push(f));
            }
        }
    }
}

proof fn lemma_globals_typed(fuel: nat, e: EnvV, gs: Seq<GlobalDeclV>, i: int, acc: Seq<GlobalDeclV>)
    requires
        e.symbols.vars.len() > 0,
    ensures
        progressed(e, globals_typed(fuel, e, gs, i, acc).0),
        globals_typed(fuel, e, gs, i, acc).1 is Ok
            ==> globals_typed(fuel, e, gs, i, acc).0.symbols.vars == e.symbols.vars,
    decreases gs.len() - i,
{
    broadcast use group_grown;

    if 0 <= i < gs.len() {
        lemma_initialized(fuel, e, gs[i].annotation, gs[i].init, bare_global(gs[i].name));
        if let (e1, Ok((id, init))) = initialized(fuel, e, gs[i].annotation, gs[i].init, bare_global(gs[i].name)) {
            lemma_globals_typed(
                fuel,
                def_global(e1, gs[i].name, id),
                gs,
                i + 1,
                acc.push(GlobalDeclV { inferred: id, init, ..gs[i] }),
            );
        }
    }
}

proof fn lemma_fields_resolved(fuel: nat, e: EnvV, fs: Seq<FieldV>, i: int, acc: Seq<FieldV>)
    ensures
        progressed(e, fields_resolved(fuel, e, fs, i, acc).0),
        fields_resolved(fuel, e, fs, i, acc).0.symbols.vars == e.symbols.vars,
    decreases fs.len() - i,
{
    broadcast use group_grown;

    if 0 <= i < fs.len() {
        lemma_annotated(fuel, e, fs[i].annotation, Seq::empty());
        if let (e1, Ok(id)) = annotated(fuel, e, fs[i].annotation, Seq::empty()) {
            lemma_fields_resolved(fuel, e1, fs, i + 1, acc.push(FieldV { ty: id, ..fs[i] }));
        }
    }
}

proof fn lemma_variants_resolved(fuel: nat, e: EnvV, vs: Seq<EnumVariantV>, i: int, acc: Seq<EnumVariantV>)
    ensures
        progressed(e, variants_resolved(fuel, e, vs, i, acc).0),
        variants_resolved(fuel, e, vs, i, acc).0.symbols.vars == e.symbols.vars,
    decreases vs.len() - i,
{
    broadcast use group_grown;

    if 0 <= i < vs.len() {
        lemma_fields_resolved(fuel, e, vs[i].args, 0, Seq::empty());
        if let (e1, Ok(args)) = fields_resolved(fuel, e, vs[i].args, 0, Seq::empty()) {
            let v = EnumVariantV { args, ..vs[i] };
            lemma_variants_resolved(fuel, def_variant(e1, v), vs, i + 1, acc.push(v));
        }
    }
}

proof fn lemma_enums_registered(fuel: nat, e: EnvV, ds: Seq<EnumDefinitionV>, i: int)
    ensures
        progressed(e, enums_registered(fuel, e, ds, i).0),
        enums_registered(fuel, e, ds, i).0.symbols.vars == e.symbols.vars,
    decreases ds.len() - i,
{
    broadcast use group_grown;

    if 0 <= i < ds.len() {
        if ds[i].type_params.len() > 0 {
            lemma_enums_registered(fuel, e, ds, i + 1);
        } else {
            lemma_variants_resolved(fuel, e, ds[i].variants, 0, Seq::empty());
            if let (e1, Ok(variants)) = variants_resolved(fuel, e, ds[i].variants, 0, Seq::empty()) {
                lemma_enums_registered(fuel, def_enum(e1, EnumDefinitionV { variants, ..ds[i] }), ds, i + 1);
            }
        }
    }
}

proof fn lemma_structs_registered(fuel: nat, e: EnvV, ds: Seq<StructDefinitionV>, i: int)
    ensures
        progressed(e, structs_registered(fuel, e, ds, i).0),
        structs_registered(fuel, e, ds, i).0.symbols.vars == e.symbols.vars,
    decreases ds.len() - i,
{
    broadcast use group_grown;

    if 0 <= i < ds.len() {
        if ds[i].type_params.len() > 0 {
            lemma_structs_registered(fuel, e, ds, i + 1);
        } else {
            lemma_fields_resolved(fuel, e, ds[i].fields, 0, Seq::empty());
            if let (e1, Ok(fields)) = fields_resolved(fuel, e, ds[i].fields, 0, Seq::empty()) {
                lemma_structs_registered(
                    fuel,
                    def_struct(
                        with_known(e1, TypeV::Struct { name: ds[i].name, fields: name_ids(fields) }),
                        StructDefinitionV { fields, ..ds[i] },
                    ),
                    ds,
                    i + 1,
                );
            }
        }
    }
}

proof fn lemma_same_slots(a: StoreV, b: StoreV)
    requires
        b.slots == a.slots,
    ensures
        refined(a, b),
{
    reveal(refined);
    if well_represented(a) {
        assert forall|i: int| 0 <= i < b.slots.len() implies #[trigger] slot_represented(b, i) by {
            assert(slot_represented(a, i));
        }
    }
}

proof fn lemma_typedefs_registered(e: EnvV, ts: Seq<TypeDefV>, i: int)
    ensures
        progressed(e, typedefs_registered(e, ts, i)),
        typedefs_registered(e, ts, i).symbols.vars == e.symbols.vars,
    decreases ts.len() - i,
{
    broadcast use group_grown;

    if 0 <= i < ts.len() {
        let next = EnvV {
            store: StoreV { typedefs: e.store.typedefs.insert(ts[i].name, ts[i].type_def), ..e.store },
            ..e
        };
        lemma_same_slots(e.store, next.store);
        lemma_typedefs_registered(next, ts, i + 1);
    }
}

proof fn lemma_types_registered(fuel: nat, e: EnvV, p: ProgramV)
    ensures
        progressed(e, types_registered(fuel, e, p).0),
        types_registered(fuel, e, p).0.symbols.vars == e.symbols.vars,
{
    broadcast use group_grown;

    lemma_enums_registered(fuel, e, p.enums, 0);
    if let (e1, Ok(_)) = enums_registered(fuel, e, p.enums, 0) {
        lemma_structs_registered(fuel, e1, p.structs, 0);
        if let (e2, Ok(_)) = structs_registered(fuel, e1, p.structs, 0) {
            lemma_typedefs_registered(e2, p.typedefs, 0);
        }
    }
}

proof fn lemma_program_typed(fuel: nat, e: EnvV, p: ProgramV)
    requires
        e.symbols.vars.len() > 0,
    ensures
        progressed(e, program_typed(fuel, e, p).0),
        program_typed(fuel, e, p).1 is Ok ==> program_typed(fuel, e, p).0.symbols.vars == e.symbols.vars,
{
    broadcast use group_grown;

    lemma_types_registered(fuel, pass_begun(e), p);
    if let (e1, Ok(_)) = types_registered(fuel, pass_begun(e), p) {
        lemma_globals_typed(fuel, e1, p.globals, 0, Seq::empty());
        if let (e2, Ok(globals)) = globals_typed(fuel, e1, p.globals, 0, Seq::empty()) {
            lemma_functions_typed(fuel, e2, p.functions, 0, Seq::empty());
        }
    }
}

proof fn lemma_one_realized(fuel: nat, e: EnvV, p: ProgramV, g: PendingGenericV)
    ensures
        progressed(e, one_realized(fuel, e, p, g).0),
        one_realized(fuel, e, p, g).0.symbols.vars == e.symbols.vars,
{
    broadcast use group_grown;

    if let Some(args) = all_known(e.store, g.params, 0, Seq::empty()) {
        lemma_realized(fuel, e, g.base, args);
        if let (e1, Ok((name, is_new))) = realized(fuel, e, g.base, args) {
            let ids = standing_for(e1.store, e1.mono.instance_types, g.base, args, 0, Seq::empty());
            lemma_all_bound(e1.store, ids, TypeV::Named(name), 0);
        }
    }
}

proof fn lemma_all_realized(fuel: nat, e: EnvV, p: ProgramV, gs: Seq<PendingGenericV>, i: int, n: nat)
    ensures
        progressed(e, all_realized(fuel, e, p, gs, i, n).0),
        all_realized(fuel, e, p, gs, i, n).0.symbols.vars == e.symbols.vars,
    decreases gs.len() - i,
{
    broadcast use group_grown;

    if 0 <= i < gs.len() {
        lemma_one_realized(fuel, e, p, gs[i]);
        if let (e1, p1, Ok(is_new)) = one_realized(fuel, e, p, gs[i]) {
            lemma_all_realized(fuel, e1, p1, gs, i + 1, if is_new { n + 1 } else { n });
        }
    }
}

proof fn lemma_monomorphs_generated(fuel: nat, e: EnvV, p: ProgramV)
    ensures
        progressed(e, monomorphs_generated(fuel, e, p).0),
        monomorphs_generated(fuel, e, p).0.symbols.vars == e.symbols.vars,
{
    broadcast use group_grown;

    let e0 = EnvV { mono: MonoV { pending: Seq::empty(), ..e.mono }, ..e };
    lemma_all_realized(fuel, e0, p, e.mono.pending, 0, 0);
}

pub proof fn lemma_settled(fuel: nat, e: EnvV, p: ProgramV, passes: nat)
    requires
        e.symbols.vars.len() > 0,
    ensures
        progressed(e, settled(fuel, e, p, passes).0),
        settled(fuel, e, p, passes).2 is Ok ==> settled(fuel, e, p, passes).0.symbols.vars == e.symbols.vars,
    decreases MONOMORPH_PASS_LIMIT + 1 - passes,
{
    broadcast use group_grown;

    lemma_program_typed(fuel, e, p);
    if let (e1, Ok(p1)) = program_typed(fuel, e, p) {
        lemma_monomorphs_generated(fuel, e1, p1);
        if let (e2, p2, Ok(n)) = monomorphs_generated(fuel, e1, p1) {
            if n != 0 {
                if passes + 1 <= MONOMORPH_PASS_LIMIT {
                    lemma_settled(fuel, e2, p2, passes + 1);
                }
            }
        }
    }
}

/// From the first pass to the last, a type that is known stays known as the same type.
pub proof fn law_known_types_stay_known(fuel: nat, e: EnvV, p: ProgramV, passes: nat, a: TypeId)
    requires
        e.symbols.vars.len() > 0,
        well_represented(e.store),
        a.0 < e.store.slots.len(),
        known_in(e.store, a) is Some,
    ensures
        known_in(settled(fuel, e, p, passes).0.store, a) == known_in(e.store, a),
{
    lemma_settled(fuel, e, p, passes);
    reveal(refined);
}

/// From the first pass to the last, types that were found to be one stay one.
pub proof fn law_unified_types_stay_unified(fuel: nat, e: EnvV, p: ProgramV, passes: nat, a: TypeId, b: TypeId)
    requires
        e.symbols.vars.len() > 0,
        well_represented(e.store),
        a.0 < e.store.slots.len(),
        b.0 < e.store.slots.len(),
        rep_in(e.store, a) == rep_in(e.store, b),
    ensures
        rep_in(settled(fuel, e, p, passes).0.store, a) == rep_in(settled(fuel, e, p, passes).0.store, b),
{
    lemma_settled(fuel, e, p, passes);
    reveal(refined);
}

/// The passes over a program leave the engine outside of every scope that they entered, and its
/// generic definitions as they were.
pub proof fn law_passes_leave_every_scope(fuel: nat, e: EnvV, p: ProgramV, passes: nat)
    requires
        e.symbols.vars.len() > 0,
    ensures
        progressed(e, settled(fuel, e, p, passes).0),
        settled(fuel, e, p, passes).2 is Ok ==> settled(fuel, e, p, passes).0.symbols.vars == e.symbols.vars,
{
    lemma_settled(fuel, e, p, passes);
}

} // verus!
