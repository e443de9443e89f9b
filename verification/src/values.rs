//! What the types of values mean: fields, elements, loop variables, parameters and functions have the
//! types that their declarations give them.
use crate::ast::{ExprKindV, ExprV, FieldInitV, LiteralV};
use crate::bind_spec::{bound, is_wildcard};
use crate::decl::{FieldV, FunctionV, GlobalDeclV, ParamV};
use crate::engine::{def_var, next_id, with_known, EnvV};
use crate::error::ErrorV;
use crate::infer_program::{function_typed, functions_typed, globals_typed, params_typed, return_settled};
use crate::infer_spec::{array_typed, element_result, elements_typed, expr_typed, field_defaults, field_named,
    field_typed, fields_typed, gives_field, id_of_field, index_typed, members_resolved, members_typed,
    missing_field, tuple_element, tuple_typed, unknown_field};
use crate::kept_exprs::lemma_expr_typed;
use crate::kept_types::{group_grown, lemma_both_unified, refined};
use crate::monomorph::{annotated, param_ids};
use crate::stmt_spec::loop_variable;
use crate::store::{known_in, rep_in, well_represented, StoreV};
use crate::symbols::{get_in, var_in};
use crate::types::{TypeId, TypeV};
use crate::typing::{agree, has_type};
use crate::unify::{both_unified, instance_at};
use vstd::prelude::*;

verus! {

/// Looking for a field finds the first of its name, and nothing only where no field has it.
pub proof fn law_first_field_is_found(fs: Seq<FieldV>, name: Seq<char>)
    ensures
        field_named(fs, name, 0) is None <==> (forall|j: int| 0 <= j < fs.len() ==> (#[trigger] fs[j]).name != name),
        field_named(fs, name, 0) matches Some(f) ==> f.name == name && fs.contains(f),
{
    lemma_field_named(fs, name, 0);
}

proof fn lemma_field_named(fs: Seq<FieldV>, name: Seq<char>, i: int)
    requires
        0 <= i <= fs.len(),
    ensures
        field_named(fs, name, i) is None <==> (forall|j: int| i <= j < fs.len() ==> (#[trigger] fs[j]).name != name),
        field_named(fs, name, i) matches Some(f) ==> f.name == name && fs.contains(f),
    decreases fs.len() - i,
{
    if i < fs.len() {
        assert(fs.contains(fs[i]));
        lemma_field_named(fs, name, i + 1);
    }
}

/// A struct value is refused exactly where it gives a field that the struct does not have, or leaves out
/// one that has no default.
pub proof fn law_struct_values_are_checked(def: Seq<FieldV>, fs: Seq<FieldInitV>, name: Seq<char>)
    ensures
        unknown_field(def, fs, name, 0) is None <==> (forall|i: int|
            0 <= i < fs.len() ==> exists|j: int|
                0 <= j < def.len() && (#[trigger] def[j]).name == (#[trigger] fs[i]).name),
        missing_field(def, fs, name, 0) is None <==> (forall|j: int|
            0 <= j < def.len() ==> gives_field(fs, (#[trigger] def[j]).name) || def[j].default is Some),
{
    lemma_unknown(def, fs, name, 0);
    lemma_missing(def, fs, name, 0);
}

proof fn lemma_unknown(def: Seq<FieldV>, fs: Seq<FieldInitV>, name: Seq<char>, i: int)
    requires
        0 <= i <= fs.len(),
    ensures
        unknown_field(def, fs, name, i) is None <==> (forall|k: int|
            i <= k < fs.len() ==> exists|j: int|
                0 <= j < def.len() && (#[trigger] def[j]).name == (#[trigger] fs[k]).name),
    decreases fs.len() - i,
{
    if i < fs.len() {
        lemma_unknown(def, fs, name, i + 1);
        law_first_field_is_found(def, fs[i].name);
        if field_named(def, fs[i].name, 0) is None {
            assert(!(exists|j: int| 0 <= j < def.len() && (#[trigger] def[j]).name == fs[i].name));
        }
    }
}

proof fn lemma_missing(def: Seq<FieldV>, fs: Seq<FieldInitV>, name: Seq<char>, i: int)
    requires
        0 <= i <= def.len(),
    ensures
        missing_field(def, fs, name, i) is None <==> (forall|j: int|
            i <= j < def.len() ==> gives_field(fs, (#[trigger] def[j]).name) || def[j].default is Some),
    decreases def.len() - i,
{
    if i < def.len() {
        lemma_missing(def, fs, name, i + 1);
    }
}

/// A struct value keeps the fields it gives, in order, and gets the default of each field that it leaves
/// out. A value that passes the checks then gives every field of the struct.
pub proof fn law_struct_values_are_completed(def: Seq<FieldV>, fs: Seq<FieldInitV>)
    ensures
        ({
            let out = field_defaults(def, fs, 0, fs);
            &&& fs.len() <= out.len()
            &&& forall|i: int| 0 <= i < fs.len() ==> #[trigger] out[i] == fs[i]
            &&& forall|i: int| fs.len() <= i < out.len() ==> is_default_of(def, fs, #[trigger] out[i])
            &&& forall|j: int|
                0 <= j < def.len() && ((#[trigger] def[j]).default is Some || gives_field(fs, def[j].name))
                    ==> gives_field(out, def[j].name)
        }),
{
    lemma_defaults(def, fs, 0, fs);
}

/// Whether a field value is the default of a field that is not given.
pub open spec fn is_default_of(def: Seq<FieldV>, given: Seq<FieldInitV>, x: FieldInitV) -> bool {
    exists|j: int|
        0 <= j < def.len() && (#[trigger] def[j]).name == x.name && def[j].default == Some(x.value) && !gives_field(
            given,
            x.name,
        )
}

proof fn lemma_defaults(def: Seq<FieldV>, given: Seq<FieldInitV>, i: int, acc: Seq<FieldInitV>)
    requires
        0 <= i <= def.len(),
        given.len() <= acc.len(),
        forall|k: int| 0 <= k < given.len() ==> #[trigger] acc[k] == given[k],
        forall|k: int| given.len() <= k < acc.len() ==> is_default_of(def, given, #[trigger] acc[k]),
        forall|j: int|
            0 <= j < i && ((#[trigger] def[j]).default is Some || gives_field(given, def[j].name)) ==> gives_field(
                acc,
                def[j].name,
            ),
    ensures
        ({
            let out = field_defaults(def, given, i, acc);
            &&& given.len() <= out.len()
            &&& forall|k: int| 0 <= k < given.len() ==> #[trigger] out[k] == given[k]
            &&& forall|k: int| given.len() <= k < out.len() ==> is_default_of(def, given, #[trigger] out[k])
            &&& forall|j: int|
                0 <= j < def.len() && ((#[trigger] def[j]).default is Some || gives_field(given, def[j].name))
                    ==> gives_field(out, def[j].name)
        }),
    decreases def.len() - i,
{
    if i < def.len() {
        if !gives_field(given, def[i].name) && def[i].default is Some {
            let x = FieldInitV { name: def[i].name, value: def[i].default->0 };
            let acc1 = acc.push(x);
            assert(is_default_of(def, given, x));
            assert(acc1[acc.len() as int].name == def[i].name);
            assert forall|j: int|
                0 <= j < i + 1 && ((#[trigger] def[j]).default is Some || gives_field(given, def[j].name)) implies gives_field(
                acc1,
                def[j].name,
            ) by {
                if j < i {
                    assert(gives_field(acc, def[j].name));
                    let k = choose|k: int| 0 <= k < acc.len() && (#[trigger] acc[k]).name == def[j].name;
                    assert(acc1[k].name == def[j].name);
                }
            }
            lemma_defaults(def, given, i + 1, acc1);
        } else {
            if gives_field(given, def[i].name) {
                let k = choose|k: int| 0 <= k < given.len() && (#[trigger] given[k]).name == def[i].name;
                assert(acc[k].name == def[i].name);
            }
            lemma_defaults(def, given, i + 1, acc);
        }
    }
}

/// The value of a field agrees with the type that the struct declares for the field.
pub proof fn law_field_values_agree(fuel: nat, e: EnvV, def: Seq<FieldV>, fs: Seq<FieldInitV>, i: int, ann: TypeV)
    requires
        well_represented(e.store),
        0 <= i < fs.len(),
        field_named(def, fs[i].name, 0) is Some,
        field_named(def, fs[i].name, 0)->0.annotation == Some(ann),
        fields_typed(fuel, e, def, fs, None, i).2 is Ok,
        expr_typed(fuel, e, fs[i].value).0.store.slots.len() < usize::MAX,
    ensures
        ({
            let a = expr_typed(fuel, e, fs[i].value);
            let u = both_unified(fuel, with_known(a.0, ann), a.2->Ok_0, next_id(a.0));
            &&& a.2 is Ok
            &&& u.1 is Ok && has_type(u.0.store, a.2->Ok_0, ann)
        }),
{
    reveal(refined);
    let a = expr_typed(fuel, e, fs[i].value);
    lemma_expr_typed(fuel, e, fs[i].value);
    crate::typing::lemma_unified_with(fuel, a.0, a.2->Ok_0, ann);
}

/// A field of a struct value has the type that the struct gives the first field of that name; a name
/// that no field has is refused.
pub proof fn law_field_has_its_type(fuel: nat, e: EnvV, id: TypeId, name: Seq<char>, fields: Seq<(Seq<char>, TypeId)>, field: Seq<char>, j: int)
    requires
        known_in(e.store, id) == Some(TypeV::Struct { name, fields }),
        instance_at(e.mono.instance_types, TypeId(rep_in(e.store, id) as usize), 0) is None,
    ensures
        field_typed(fuel, e, id, field).0 == e,
        field_typed(fuel, e, id, field).1 is Ok <==> (exists|q: int| 0 <= q < fields.len() && (#[trigger] fields[q]).0 == field),
        0 <= j < fields.len() && fields[j].0 == field && (forall|q: int| 0 <= q < j ==> (#[trigger] fields[q]).0 != field)
            ==> field_typed(fuel, e, id, field).1 == Ok::<TypeId, ErrorV>(fields[j].1),
{
    reveal(field_typed);
    lemma_id_of_field(fields, field, 0, j);
}

proof fn lemma_id_of_field(fs: Seq<(Seq<char>, TypeId)>, name: Seq<char>, i: int, j: int)
    requires
        0 <= i <= fs.len(),
    ensures
        id_of_field(fs, name, i) is Some <==> (exists|q: int| i <= q < fs.len() && (#[trigger] fs[q]).0 == name),
        i <= j < fs.len() && fs[j].0 == name && (forall|q: int| i <= q < j ==> (#[trigger] fs[q]).0 != name)
            ==> id_of_field(fs, name, i) == Some(fs[j].1),
    decreases fs.len() - i,
{
    if i < fs.len() {
        lemma_id_of_field(fs, name, i + 1, j);
    }
}

/// A field of a value of a declared struct has the type of the first field of that name.
pub proof fn law_field_of_a_declared_struct(fuel: nat, e: EnvV, id: TypeId, n: Seq<char>, field: Seq<char>, j: int)
    requires
        known_in(e.store, id) == Some(TypeV::Named(n)),
        !e.store.typedefs.contains_key(n),
        e.symbols.structs.contains_key(n),
        instance_at(e.mono.instance_types, TypeId(rep_in(e.store, id) as usize), 0) is None,
        0 <= j < e.symbols.structs[n].fields.len(),
        e.symbols.structs[n].fields[j].name == field,
        forall|q: int| 0 <= q < j ==> (#[trigger] e.symbols.structs[n].fields[q]).name != field,
    ensures
        field_typed(fuel, e, id, field) == (e, Ok::<TypeId, ErrorV>(e.symbols.structs[n].fields[j].ty)),
{
    reveal(field_typed);
    let fs = crate::ffi::name_ids(e.symbols.structs[n].fields);
    assert(fs[j].0 == field);
    assert forall|q: int| 0 <= q < j implies (#[trigger] fs[q]).0 != field by {
        assert(e.symbols.structs[n].fields[q].name != field);
    }
    lemma_id_of_field(fs, field, 0, j);
}

/// An element of an array, or of what a pointer points to, has the type of the elements. Nothing else can
/// be indexed so.
pub proof fn law_element_has_the_element_type(e: EnvV, t: TypeV)
    requires
        e.store.slots.len() < usize::MAX,
    ensures
        element_result(e, t).1 is Ok <==> t is CArray || t is Ptr,
        element_result(e, t).1 matches Ok(id) ==> {
            let k = known_in(element_result(e, t).0.store, id);
            &&& t matches TypeV::CArray(x, _) ==> k == Some(*x)
            &&& t matches TypeV::Ptr(x) ==> k == Some(*x)
        },
{
}

/// An element of a tuple has the type at its position; only a number within the tuple is a position.
pub proof fn law_tuple_element_has_its_type(e: EnvV, ts: Seq<TypeV>, index: ExprV)
    requires
        e.store.slots.len() < usize::MAX,
    ensures
        tuple_element(e, ts, index).1 is Ok <==> (index.kind matches ExprKindV::Literal { value: LiteralV::Int(i) } && 0 <= i
            < ts.len()),
        index.kind matches ExprKindV::Literal { value: LiteralV::Int(i) } ==> tuple_element(e, ts, index).1 matches Ok(id)
            ==> known_in(tuple_element(e, ts, index).0.store, id) == Some(ts[i as int]),
{
}

/// An index is an integer, and indexing gives an element of the container.
pub proof fn law_index_is_an_integer(fuel: nat, e: EnvV, container: TypeId, index: ExprV, t: TypeV)
    requires
        well_represented(e.store),
        known_in(e.store, container) == Some(t),
        !(t is Tuple),
        index_typed(fuel, e, container, index).2 is Ok,
        index_typed(fuel, e, container, index).0.store.slots.len() <= usize::MAX,
    ensures
        ({
            let a = expr_typed(fuel, e, index);
            let r = index_typed(fuel, e, container, index);
            &&& a.2 is Ok
            &&& has_type(both_unified(fuel, with_known(a.0, TypeV::Int), a.2->Ok_0, next_id(a.0)).0.store, a.2->Ok_0, TypeV::Int)
            &&& r.1 == a.1
            &&& t matches TypeV::CArray(x, _) ==> known_in(r.0.store, r.2->Ok_0) == Some(*x)
            &&& t matches TypeV::Ptr(x) ==> known_in(r.0.store, r.2->Ok_0) == Some(*x)
        }),
{
    broadcast use group_grown;

    reveal(refined);
    let a = expr_typed(fuel, e, index);
    lemma_expr_typed(fuel, e, index);
    let u = both_unified(fuel, with_known(a.0, TypeV::Int), a.2->Ok_0, next_id(a.0));
    lemma_both_unified(fuel, with_known(a.0, TypeV::Int), a.2->Ok_0, next_id(a.0));
    crate::typing::lemma_unified_with(fuel, a.0, a.2->Ok_0, TypeV::Int);
    law_element_has_the_element_type(u.0, t);
}

/// The variable of a loop has the type of the elements of an array, and is an integer over a number or a
/// range. Nothing else can be looped over.
pub proof fn law_loop_variable_has_the_element_type(e: EnvV, iter: TypeId)
    requires
        e.store.slots.len() < usize::MAX,
    ensures
        loop_variable(e, iter).1 is Ok <==> (known_in(e.store, iter) matches Some(t) && (t is CArray || t is Int || t is Void)),
        loop_variable(e, iter).1 matches Ok(id) ==> known_in(loop_variable(e, iter).0.store, id) == (match known_in(
            e.store,
            iter,
        ) {
            Some(TypeV::CArray(x, _)) => Some(*x),
            _ => Some(TypeV::Int),
        }),
{
}

/// An array literal is an array of as many elements of the type of the first.
pub proof fn law_array_literal_has_its_length(fuel: nat, e: EnvV, xs: Seq<ExprV>)
    requires
        array_typed(fuel, e, xs).2 is Ok,
        array_typed(fuel, e, xs).0.store.slots.len() <= usize::MAX,
        xs.len() <= usize::MAX,
    ensures
        ({
            let r = array_typed(fuel, e, xs);
            &&& xs.len() > 0
            &&& r.1.len() == xs.len()
            &&& known_in(r.0.store, r.2->Ok_0) matches Some(TypeV::CArray(t, n)) && n == xs.len()
        }),
{
    let a = expr_typed(fuel, e, xs[0]);
    lemma_elements_len(fuel, a.0, xs.update(0, a.1), a.2->Ok_0, 1);
}

proof fn lemma_elements_len(fuel: nat, e: EnvV, xs: Seq<ExprV>, first: TypeId, i: int)
    ensures
        elements_typed(fuel, e, xs, first, i).1.len() == xs.len(),
    decreases xs.len() - i,
{
    if 0 <= i < xs.len() {
        let a = expr_typed(fuel, e, xs[i]);
        if a.2 is Ok {
            let u = both_unified(fuel, a.0, first, a.2->Ok_0);
            lemma_elements_len(fuel, u.0, xs.update(i, crate::infer_spec::checked_as(a.1, first)), first, i + 1);
        }
    }
}

/// A function that never returns a value returns nothing; any other keeps its return type.
pub proof fn law_return_type_is_settled(e: EnvV, ret: TypeId)
    requires
        well_represented(e.store),
        e.store.slots.len() < usize::MAX,
        known_in(e.store, ret) is Some,
    ensures
        return_settled(e, ret) == (e, Ok::<TypeId, ErrorV>(ret)),
{
}

/// Parameters keep their names, their written types and their order.
pub proof fn law_parameters_are_kept(fuel: nat, e: EnvV, ps: Seq<ParamV>, i: int, acc: Seq<ParamV>)
    requires
        0 <= i,
        params_typed(fuel, e, ps, i, acc).1 is Ok,
    ensures
        ({
            let out = params_typed(fuel, e, ps, i, acc).1->Ok_0;
            &&& out.len() == acc.len() + if i < ps.len() {
                ps.len() - i
            } else {
                0
            }
            &&& forall|j: int| 0 <= j < acc.len() ==> #[trigger] out[j] == acc[j]
            &&& forall|j: int|
                acc.len() <= j < out.len() ==> (#[trigger] out[j]).name == ps[i + j - acc.len()].name && out[j].annotation
                    == ps[i + j - acc.len()].annotation
        }),
    decreases ps.len() - i,
{
    if i < ps.len() {
        let (e1, r) = annotated(fuel, e, ps[i].annotation, Seq::empty());
        let p = ParamV { ty: r->Ok_0, ..ps[i] };
        let acc1 = acc.push(p);
        law_parameters_are_kept(fuel, def_var(e1, ps[i].name, r->Ok_0), ps, i + 1, acc1);
        let out = params_typed(fuel, e, ps, i, acc).1->Ok_0;
        assert(out[acc.len() as int] == acc1[acc.len() as int]);
        assert forall|j: int| 0 <= j < acc.len() implies #[trigger] out[j] == acc[j] by {
            assert(out[j] == acc1[j]);
        }
    }
}

/// A function keeps its name, its parameters and its attributes, and is found with the types of its
/// parameters and its return type.
pub proof fn law_function_is_known(fuel: nat, e: EnvV, f: FunctionV)
    requires
        function_typed(fuel, e, f).1 is Ok,
    ensures
        ({
            let (after, r) = function_typed(fuel, e, f);
            let g = r->Ok_0;
            &&& g.name == f.name
            &&& g.return_type == f.return_type
            &&& g.metadata == f.metadata
            &&& g.is_public == f.is_public
            &&& g.params.len() == f.params.len()
            &&& forall|j: int|
                0 <= j < f.params.len() ==> (#[trigger] g.params[j]).name == f.params[j].name && g.params[j].annotation
                    == f.params[j].annotation
            &&& g.inferred_return is Some
            &&& get_in(after.symbols.functions, f.name) == Some((param_ids(g.params), g.inferred_return->0))
        }),
{
    law_parameters_are_kept(fuel, crate::engine::scope_entered(e), f.params, 0, Seq::empty());
}

/// Functions stay in their order; a generic one stays as it is.
pub proof fn law_functions_are_kept(fuel: nat, e: EnvV, fs: Seq<FunctionV>, i: int, acc: Seq<FunctionV>)
    requires
        0 <= i,
        functions_typed(fuel, e, fs, i, acc).1 is Ok,
    ensures
        ({
            let out = functions_typed(fuel, e, fs, i, acc).1->Ok_0;
            &&& out.len() == acc.len() + if i < fs.len() {
                fs.len() - i
            } else {
                0
            }
            &&& forall|j: int| 0 <= j < acc.len() ==> #[trigger] out[j] == acc[j]
            &&& forall|j: int|
                acc.len() <= j < out.len() ==> (#[trigger] out[j]).name == fs[i + j - acc.len()].name && (fs[i + j
                    - acc.len()].type_params.len() > 0 ==> out[j] == fs[i + j - acc.len()])
        }),
    decreases fs.len() - i,
{
    if i < fs.len() {
        let out = functions_typed(fuel, e, fs, i, acc).1->Ok_0;
        let (e1, g) = if fs[i].type_params.len() > 0 {
            (e, fs[i])
        } else {
            (function_typed(fuel, e, fs[i]).0, function_typed(fuel, e, fs[i]).1->Ok_0)
        };
        if fs[i].type_params.len() == 0 {
            law_function_is_known(fuel, e, fs[i]);
        }
        let acc1 = acc.push(g);
        law_functions_are_kept(fuel, e1, fs, i + 1, acc1);
        assert(out[acc.len() as int] == acc1[acc.len() as int]);
        assert forall|j: int| 0 <= j < acc.len() implies #[trigger] out[j] == acc[j] by {
            assert(out[j] == acc1[j]);
        }
    }
}

/// Globals stay in their order, with their names and written types, and a global has a value afterwards
/// exactly where it had one before.
pub proof fn law_globals_are_kept(fuel: nat, e: EnvV, gs: Seq<GlobalDeclV>, i: int, acc: Seq<GlobalDeclV>)
    requires
        0 <= i,
        globals_typed(fuel, e, gs, i, acc).1 is Ok,
    ensures
        ({
            let out = globals_typed(fuel, e, gs, i, acc).1->Ok_0;
            &&& out.len() == acc.len() + if i < gs.len() {
                gs.len() - i
            } else {
                0
            }
            &&& forall|j: int| 0 <= j < acc.len() ==> #[trigger] out[j] == acc[j]
            &&& forall|j: int|
                acc.len() <= j < out.len() ==> (#[trigger] out[j]).name == gs[i + j - acc.len()].name && out[j].annotation
                    == gs[i + j - acc.len()].annotation && out[j].is_const == gs[i + j - acc.len()].is_const && (
                out[j].init is Some <==> gs[i + j - acc.len()].init is Some)
        }),
    decreases gs.len() - i,
{
    if i < gs.len() {
        let out = globals_typed(fuel, e, gs, i, acc).1->Ok_0;
        let (e1, r) = crate::stmt_spec::initialized(
            fuel,
            e,
            gs[i].annotation,
            gs[i].init,
            crate::infer_program::bare_global(gs[i].name),
        );
        let (id, init) = r->Ok_0;
        let acc1 = acc.push(GlobalDeclV { inferred: id, init, ..gs[i] });
        law_globals_are_kept(fuel, crate::engine::def_global(e1, gs[i].name, id), gs, i + 1, acc1);
        assert(out[acc.len() as int] == acc1[acc.len() as int]);
        assert forall|j: int| 0 <= j < acc.len() implies #[trigger] out[j] == acc[j] by {
            assert(out[j] == acc1[j]);
        }
    }
}

/// A name in a pattern is bound to the value that is matched, with its type; a wildcard binds nothing.
pub proof fn law_pattern_variable_has_the_matched_type(fuel: nat, e: EnvV, p: ExprV, name: Seq<char>, ty: TypeId)
    requires
        p.kind == (ExprKindV::Identifier { name }),
        e.symbols.vars.len() > 0,
    ensures
        bound(fuel, e, p, ty).1 is Ok,
        name == "_"@ || name == "default"@ ==> bound(fuel, e, p, ty).0 == e,
        name != "_"@ && name != "default"@ ==> var_in(bound(fuel, e, p, ty).0.symbols.vars, name) == Some(ty),
        name != "_"@ && name != "default"@ ==> bound(fuel, e, p, ty).0.store == e.store,
{
}

/// The pattern of an arm agrees with the value that is matched, unless it is a wildcard.
pub proof fn law_pattern_agrees_with_the_value(fuel: nat, e: EnvV, t: TypeId, p: ExprV)
    requires
        well_represented(e.store),
        !is_wildcard(p),
        crate::stmt_spec::arm_pattern_typed(fuel, e, t, p).1 is Ok,
    ensures
        ({
            let a = crate::infer_spec::pattern_typed(fuel, e, p);
            let r = crate::stmt_spec::arm_pattern_typed(fuel, e, t, p);
            &&& a.2 is Ok
            &&& agree(r.0.store, t, a.2->Ok_0)
            &&& r.1->Ok_0 == a.1
        }),
{
    reveal(refined);
    let a = crate::infer_spec::pattern_typed(fuel, e, p);
    crate::kept_exprs::lemma_pattern_typed(fuel, e, p);
    crate::typing::law_unified_types_agree(fuel, a.0, t, a.2->Ok_0);
}

/// A tuple has one type for each of its elements.
pub proof fn law_tuple_has_a_type_for_each_element(fuel: nat, e: EnvV, xs: Seq<ExprV>)
    requires
        tuple_typed(fuel, e, xs).2 is Ok,
        tuple_typed(fuel, e, xs).0.store.slots.len() <= usize::MAX,
    ensures
        tuple_typed(fuel, e, xs).1.len() == xs.len(),
        known_in(tuple_typed(fuel, e, xs).0.store, tuple_typed(fuel, e, xs).2->Ok_0) matches Some(TypeV::Tuple(ts))
            && ts.len() == xs.len(),
{
    lemma_members_len(fuel, e, xs, 0, Seq::empty());
    let (e1, ys, r) = members_typed(fuel, e, xs, 0, Seq::empty());
    lemma_resolved_len(e1.store, ys, r->Ok_0, 0, Seq::empty());
}

proof fn lemma_members_len(fuel: nat, e: EnvV, xs: Seq<ExprV>, i: int, ids: Seq<TypeId>)
    requires
        0 <= i <= xs.len(),
    ensures
        members_typed(fuel, e, xs, i, ids).1.len() == xs.len(),
        members_typed(fuel, e, xs, i, ids).2 is Ok ==> members_typed(fuel, e, xs, i, ids).2->Ok_0.len() == ids.len()
            + xs.len() - i,
    decreases xs.len() - i,
{
    if i < xs.len() {
        let a = expr_typed(fuel, e, xs[i]);
        if a.2 is Ok {
            lemma_members_len(fuel, a.0, xs.update(i, a.1), i + 1, ids.push(a.2->Ok_0));
        }
    }
}

proof fn lemma_resolved_len(s: StoreV, xs: Seq<ExprV>, ids: Seq<TypeId>, i: int, acc: Seq<TypeV>)
    requires
        0 <= i <= xs.len(),
        ids.len() == xs.len(),
    ensures
        members_resolved(s, xs, ids, i, acc).0.len() == xs.len(),
        members_resolved(s, xs, ids, i, acc).1 is Ok ==> members_resolved(s, xs, ids, i, acc).1->Ok_0.len() == acc.len()
            + xs.len() - i,
    decreases ids.len() - i,
{
    if i < ids.len() && known_in(s, ids[i]) is Some {
        lemma_resolved_len(
            s,
            xs.update(i, ExprV { ty: ids[i], ..xs[i] }),
            ids,
            i + 1,
            acc.push(known_in(s, ids[i])->0),
        );
    }
}

} // verus!
