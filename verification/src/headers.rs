//! What can be looked up once the declarations of a C header are registered.
use crate::ctypes::{CDeclarationsV, CEnumV, CFieldV, CFunctionV, CGlobalVarV, CMacroConstantV, CQualifier, CStructV,
    CTypedefV, CTypeV, CUnionV, MacroValueV};
use crate::decl::{EnumVariantV, FieldV};
use crate::engine::{def_variants, next_id, with_known, EnvV};
use crate::ffi::{kit_enum, kit_params, kit_type_of, macro_type, with_aggregate, with_declarations, with_enums,
    with_fields, with_function, with_functions, with_globals, with_macros, with_params, with_structs, with_typedefs,
    with_unions};
use crate::store::{known_in, StoreV};
use crate::symbols::{get_in, qualified};
use crate::types::{TypeId, TypeV};
use vstd::prelude::*;

verus! {

/// Whether a store holds all that another holds, at the same places.
pub open spec fn slots_kept(a: StoreV, b: StoreV) -> bool {
    &&& a.slots.len() <= b.slots.len()
    &&& forall|i: int| 0 <= i < a.slots.len() ==> #[trigger] b.slots[i] == a.slots[i]
}

/// Whether a type index stands for a type by itself.
pub open spec fn stands_for(s: StoreV, id: TypeId, t: TypeV) -> bool {
    &&& id.0 < s.slots.len()
    &&& s.slots[id.0 as int].rep == id.0
    &&& s.slots[id.0 as int].known == Some(t)
}

/// Whether type indices stand for the given types, one by one.
pub open spec fn all_stand_for(s: StoreV, ids: Seq<TypeId>, ts: Seq<TypeV>) -> bool {
    &&& ids.len() == ts.len()
    &&& forall|i: int| 0 <= i < ts.len() ==> #[trigger] stands_for(s, ids[i], ts[i])
}

/// The Kit types of the C types: integers of the same width and sign, numbers with a fraction, truth
/// values, characters, sizes and nothing.
pub proof fn law_kit_types_of_c_types(d: CDeclarationsV)
    ensures
        kit_type_of(CTypeV::Void, d) == TypeV::Void,
        kit_type_of(CTypeV::Bool, d) == TypeV::Bool,
        kit_type_of(CTypeV::Char, d) == TypeV::Char,
        kit_type_of(CTypeV::SignedChar, d) == TypeV::Int8,
        kit_type_of(CTypeV::UnsignedChar, d) == TypeV::Uint8,
        kit_type_of(CTypeV::Short, d) == TypeV::Int16,
        kit_type_of(CTypeV::UnsignedShort, d) == TypeV::Uint16,
        kit_type_of(CTypeV::Int, d) == TypeV::Int,
        kit_type_of(CTypeV::UnsignedInt, d) == TypeV::Uint32,
        kit_type_of(CTypeV::Long, d) == TypeV::Int64,
        kit_type_of(CTypeV::LongLong, d) == TypeV::Int64,
        kit_type_of(CTypeV::UnsignedLong, d) == TypeV::Uint64,
        kit_type_of(CTypeV::UnsignedLongLong, d) == TypeV::Uint64,
        kit_type_of(CTypeV::Float, d) == TypeV::Float,
        kit_type_of(CTypeV::Double, d) == TypeV::Float64,
        kit_type_of(CTypeV::LongDouble, d) == TypeV::Float64,
        kit_type_of(CTypeV::Int8, d) == TypeV::Int8,
        kit_type_of(CTypeV::Int16, d) == TypeV::Int16,
        kit_type_of(CTypeV::Int32, d) == TypeV::Int32,
        kit_type_of(CTypeV::Int64, d) == TypeV::Int64,
        kit_type_of(CTypeV::Uint8, d) == TypeV::Uint8,
        kit_type_of(CTypeV::Uint16, d) == TypeV::Uint16,
        kit_type_of(CTypeV::Uint32, d) == TypeV::Uint32,
        kit_type_of(CTypeV::Uint64, d) == TypeV::Uint64,
        kit_type_of(CTypeV::SizeT, d) == TypeV::Size,
        kit_type_of(CTypeV::SSizeT, d) == TypeV::Int64,
        kit_type_of(CTypeV::PtrDiffT, d) == TypeV::Int64,
        kit_type_of(CTypeV::IntPtr, d) == TypeV::Int64,
        kit_type_of(CTypeV::UintPtr, d) == TypeV::Uint64,
{
}

/// A pointer to constant characters is a C string, any other pointer is a pointer to the Kit type of
/// what it points to, and an array has elements of the Kit type and the same length.
pub proof fn law_kit_types_of_pointers_and_arrays(inner: CTypeV, qs: Seq<CQualifier>, n: usize, d: CDeclarationsV)
    ensures
        inner is Char && qs.contains(CQualifier::Const) ==> kit_type_of(CTypeV::Ptr(Box::new(inner), qs), d)
            == TypeV::CString,
        !(inner is Char && qs.contains(CQualifier::Const)) ==> kit_type_of(CTypeV::Ptr(Box::new(inner), qs), d)
            == TypeV::Ptr(Box::new(kit_type_of(inner, d))),
        kit_type_of(CTypeV::Array { element_type: Box::new(inner), size: Some(n) }, d) == TypeV::CArray(
            Box::new(kit_type_of(inner, d)),
            n,
        ),
{
    assert(*CTypeV::Ptr(Box::new(inner), qs)->Ptr_0 == inner);
}

proof fn lemma_kept_trans(a: StoreV, b: StoreV, c: StoreV)
    requires
        slots_kept(a, b),
        slots_kept(b, c),
    ensures
        slots_kept(a, c),
{
    assert forall|i: int| 0 <= i < a.slots.len() implies #[trigger] c.slots[i] == a.slots[i] by {
        assert(b.slots[i] == a.slots[i]);
    }
}

proof fn lemma_all_kept(a: StoreV, b: StoreV, ids: Seq<TypeId>, ts: Seq<TypeV>)
    requires
        slots_kept(a, b),
        all_stand_for(a, ids, ts),
    ensures
        all_stand_for(b, ids, ts),
{
    assert forall|i: int| 0 <= i < ts.len() implies #[trigger] stands_for(b, ids[i], ts[i]) by {
        assert(stands_for(a, ids[i], ts[i]));
    }
}

/// A type index that stands for a type by itself is resolved to it.
pub proof fn law_what_stands_for_a_type_is_resolved(s: StoreV, id: TypeId, t: TypeV)
    requires
        stands_for(s, id, t),
    ensures
        known_in(s, id) == Some(t),
{
}

proof fn lemma_typedefs(e: EnvV, ts: Seq<CTypedefV>, d: CDeclarationsV, i: int, k: int)
    requires
        0 <= i,
    ensures
        with_typedefs(e, ts, d, i).store.slots == e.store.slots,
        with_typedefs(e, ts, d, i).symbols == e.symbols,
        forall|n: Seq<char>|
            (forall|j: int| i <= j < ts.len() ==> (#[trigger] ts[j]).name != n) ==> #[trigger] get_in(
                with_typedefs(e, ts, d, i).store.typedefs,
                n,
            ) == get_in(e.store.typedefs, n),
        i <= k < ts.len() && (forall|j: int| k < j < ts.len() ==> (#[trigger] ts[j]).name != ts[k].name) ==> get_in(
            with_typedefs(e, ts, d, i).store.typedefs,
            ts[k].name,
        ) == Some(kit_type_of(ts[k].underlying, d)),
    decreases ts.len() - i,
{
    if i < ts.len() {
        let e1 = EnvV {
            store: StoreV {
                typedefs: e.store.typedefs.insert(ts[i].name, kit_type_of(ts[i].underlying, d)),
                ..e.store
            },
            ..e
        };
        lemma_typedefs(e1, ts, d, i + 1, k);
        if k == i && forall|j: int| k < j < ts.len() ==> (#[trigger] ts[j]).name != ts[k].name {
            assert(get_in(with_typedefs(e1, ts, d, i + 1).store.typedefs, ts[k].name) == get_in(
                e1.store.typedefs,
                ts[k].name,
            ));
        }
        assert forall|n: Seq<char>|
            (forall|j: int| i <= j < ts.len() ==> (#[trigger] ts[j]).name != n) implies #[trigger] get_in(
            with_typedefs(e, ts, d, i).store.typedefs,
            n,
        ) == get_in(e.store.typedefs, n) by {
            assert(ts[i].name != n);
            assert(get_in(with_typedefs(e1, ts, d, i + 1).store.typedefs, n) == get_in(e1.store.typedefs, n));
        }
    }
}

proof fn lemma_fields(e: EnvV, fs: Seq<CFieldV>, d: CDeclarationsV, i: int, acc: Seq<FieldV>)
    requires
        0 <= i,
        with_fields(e, fs, d, i, acc).0.store.slots.len() <= usize::MAX,
    ensures
        ({
            let (out, all) = with_fields(e, fs, d, i, acc);
            &&& slots_kept(e.store, out.store)
            &&& out.store.typedefs == e.store.typedefs
            &&& out.symbols == e.symbols
            &&& all.len() == acc.len() + if i < fs.len() {
                fs.len() - i
            } else {
                0
            }
            &&& forall|j: int| 0 <= j < acc.len() ==> #[trigger] all[j] == acc[j]
            &&& forall|j: int|
                i <= j < fs.len() ==> field_stands_for(out.store, #[trigger] all[acc.len() + j - i], fs[j], d)
        }),
    decreases fs.len() - i,
{
    if i < fs.len() {
        let e1 = with_known(e, kit_type_of(fs[i].ty, d));
        let acc1 = acc.push(crate::ffi::kit_field(fs[i], d, next_id(e)));
        lemma_fields(e1, fs, d, i + 1, acc1);
        let (out, all) = with_fields(e, fs, d, i, acc);
        assert(slots_kept(e.store, e1.store));
        lemma_kept_trans(e.store, e1.store, out.store);
        let at = e.store.slots.len() as int;
        assert(out.store.slots[at] == e1.store.slots[at]);
        assert(all[acc.len() as int] == acc1[acc.len() as int]);
        assert forall|j: int| 0 <= j < acc.len() implies #[trigger] all[j] == acc[j] by {
            assert(all[j] == acc1[j]);
        }
        assert forall|j: int| i <= j < fs.len() implies field_stands_for(
            out.store,
            #[trigger] all[acc.len() + j - i],
            fs[j],
            d,
        ) by {
            if j > i {
                assert(acc1.len() + j - (i + 1) == acc.len() + j - i);
                assert(field_stands_for(out.store, all[acc1.len() + j - (i + 1)], fs[j], d));
            }
        }
    }
}

/// Whether a field has the name of a C field and a type index that stands for its Kit type.
pub open spec fn field_stands_for(s: StoreV, f: FieldV, c: CFieldV, d: CDeclarationsV) -> bool {
    &&& f.name == (match c.name {
        Some(n) => n,
        None => Seq::empty(),
    })
    &&& f.annotation == Some(kit_type_of(c.ty, d))
    &&& stands_for(s, f.ty, kit_type_of(c.ty, d))
    &&& f.default is None
}

/// Whether the fields of a struct are those of a C struct, one by one.
pub open spec fn fields_stand_for(s: StoreV, fs: Seq<FieldV>, cs: Seq<CFieldV>, d: CDeclarationsV) -> bool {
    &&& fs.len() == cs.len()
    &&& forall|j: int| 0 <= j < cs.len() ==> field_stands_for(s, #[trigger] fs[j], cs[j], d)
}

proof fn lemma_fields_kept(a: StoreV, b: StoreV, fs: Seq<FieldV>, cs: Seq<CFieldV>, d: CDeclarationsV)
    requires
        slots_kept(a, b),
        fields_stand_for(a, fs, cs, d),
    ensures
        fields_stand_for(b, fs, cs, d),
{
    assert forall|j: int| 0 <= j < cs.len() implies field_stands_for(b, #[trigger] fs[j], cs[j], d) by {
        assert(field_stands_for(a, fs[j], cs[j], d));
    }
}

proof fn lemma_aggregate(e: EnvV, name: Seq<char>, cs: Seq<CFieldV>, d: CDeclarationsV)
    requires
        with_aggregate(e, name, cs, d).store.slots.len() <= usize::MAX,
    ensures
        ({
            let out = with_aggregate(e, name, cs, d);
            &&& slots_kept(e.store, out.store)
            &&& out.store.typedefs == e.store.typedefs
            &&& out.symbols.functions == e.symbols.functions
            &&& out.symbols.globals == e.symbols.globals
            &&& out.symbols.enums == e.symbols.enums
            &&& out.symbols.enum_variants == e.symbols.enum_variants
            &&& out.symbols.vars == e.symbols.vars
            &&& out.symbols.structs.contains_key(name)
            &&& out.symbols.structs[name].name == name
            &&& fields_stand_for(out.store, out.symbols.structs[name].fields, cs, d)
            &&& forall|n: Seq<char>|
                n != name ==> #[trigger] get_in(out.symbols.structs, n) == get_in(e.symbols.structs, n)
        }),
{
    lemma_fields(e, cs, d, 0, Seq::empty());
    let (e1, fs) = with_fields(e, cs, d, 0, Seq::empty());
    let out = with_aggregate(e, name, cs, d);
    assert(slots_kept(e1.store, out.store));
    lemma_kept_trans(e.store, e1.store, out.store);
    assert(out.symbols.structs[name].fields == fs);
    assert(fields_stand_for(e1.store, fs, cs, d)) by {
        assert forall|j: int| 0 <= j < cs.len() implies field_stands_for(e1.store, #[trigger] fs[j], cs[j], d) by {
            assert(field_stands_for(e1.store, fs[0 + j - 0], cs[j], d));
        }
    }
    lemma_fields_kept(e1.store, out.store, fs, cs, d);
}

proof fn lemma_structs(e: EnvV, ss: Seq<CStructV>, d: CDeclarationsV, i: int, k: int)
    requires
        0 <= i,
        with_structs(e, ss, d, i).store.slots.len() <= usize::MAX,
    ensures
        ({
            let out = with_structs(e, ss, d, i);
            &&& slots_kept(e.store, out.store)
            &&& out.store.typedefs == e.store.typedefs
            &&& out.symbols.functions == e.symbols.functions
            &&& out.symbols.globals == e.symbols.globals
            &&& out.symbols.enums == e.symbols.enums
            &&& out.symbols.enum_variants == e.symbols.enum_variants
            &&& out.symbols.vars == e.symbols.vars
            &&& forall|n: Seq<char>|
                (forall|j: int| i <= j < ss.len() ==> (#[trigger] ss[j]).name != n) ==> #[trigger] get_in(
                    out.symbols.structs,
                    n,
                ) == get_in(e.symbols.structs, n)
            &&& i <= k < ss.len() && (forall|j: int| k < j < ss.len() ==> (#[trigger] ss[j]).name != ss[k].name) ==> {
                &&& get_in(out.symbols.structs, ss[k].name) is Some
                &&& fields_stand_for(out.store, get_in(out.symbols.structs, ss[k].name)->0.fields, ss[k].fields, d)
            }
        }),
    decreases ss.len() - i,
{
    if i < ss.len() {
        let e1 = with_aggregate(e, ss[i].name, ss[i].fields, d);
        lemma_structs_grow(e1, ss, d, i + 1);
        lemma_aggregate(e, ss[i].name, ss[i].fields, d);
        lemma_structs(e1, ss, d, i + 1, k);
        let out = with_structs(e, ss, d, i);
        lemma_kept_trans(e.store, e1.store, out.store);
        if k == i && forall|j: int| k < j < ss.len() ==> (#[trigger] ss[j]).name != ss[k].name {
            assert(get_in(out.symbols.structs, ss[k].name) == get_in(e1.symbols.structs, ss[k].name));
            lemma_fields_kept(e1.store, out.store, e1.symbols.structs[ss[k].name].fields, ss[k].fields, d);
        }
        assert forall|n: Seq<char>|
            (forall|j: int| i <= j < ss.len() ==> (#[trigger] ss[j]).name != n) implies #[trigger] get_in(
            out.symbols.structs,
            n,
        ) == get_in(e.symbols.structs, n) by {
            assert(ss[i].name != n);
            assert(get_in(out.symbols.structs, n) == get_in(e1.symbols.structs, n));
        }
    }
}

proof fn lemma_fields_grow(e: EnvV, fs: Seq<CFieldV>, d: CDeclarationsV, i: int, acc: Seq<FieldV>)
    ensures
        e.store.slots.len() <= with_fields(e, fs, d, i, acc).0.store.slots.len(),
    decreases fs.len() - i,
{
    if 0 <= i < fs.len() {
        lemma_fields_grow(
            with_known(e, kit_type_of(fs[i].ty, d)),
            fs,
            d,
            i + 1,
            acc.push(crate::ffi::kit_field(fs[i], d, next_id(e))),
        );
    }
}

proof fn lemma_structs_grow(e: EnvV, ss: Seq<CStructV>, d: CDeclarationsV, i: int)
    ensures
        e.store.slots.len() <= with_structs(e, ss, d, i).store.slots.len(),
    decreases ss.len() - i,
{
    if 0 <= i < ss.len() {
        lemma_fields_grow(e, ss[i].fields, d, 0, Seq::empty());
        lemma_structs_grow(with_aggregate(e, ss[i].name, ss[i].fields, d), ss, d, i + 1);
    }
}

proof fn lemma_unions_grow(e: EnvV, ss: Seq<CUnionV>, d: CDeclarationsV, i: int)
    ensures
        e.store.slots.len() <= with_unions(e, ss, d, i).store.slots.len(),
    decreases ss.len() - i,
{
    if 0 <= i < ss.len() {
        lemma_fields_grow(e, ss[i].fields, d, 0, Seq::empty());
        lemma_unions_grow(with_aggregate(e, ss[i].name, ss[i].fields, d), ss, d, i + 1);
    }
}

proof fn lemma_unions(e: EnvV, ss: Seq<CUnionV>, d: CDeclarationsV, i: int, k: int)
    requires
        0 <= i,
        with_unions(e, ss, d, i).store.slots.len() <= usize::MAX,
    ensures
        ({
            let out = with_unions(e, ss, d, i);
            &&& slots_kept(e.store, out.store)
            &&& out.store.typedefs == e.store.typedefs
            &&& out.symbols.functions == e.symbols.functions
            &&& out.symbols.globals == e.symbols.globals
            &&& out.symbols.enums == e.symbols.enums
            &&& out.symbols.enum_variants == e.symbols.enum_variants
            &&& out.symbols.vars == e.symbols.vars
            &&& forall|n: Seq<char>|
                (forall|j: int| i <= j < ss.len() ==> (#[trigger] ss[j]).name != n) ==> #[trigger] get_in(
                    out.symbols.structs,
                    n,
                ) == get_in(e.symbols.structs, n)
            &&& i <= k < ss.len() && (forall|j: int| k < j < ss.len() ==> (#[trigger] ss[j]).name != ss[k].name) ==> {
                &&& get_in(out.symbols.structs, ss[k].name) is Some
                &&& fields_stand_for(out.store, get_in(out.symbols.structs, ss[k].name)->0.fields, ss[k].fields, d)
            }
        }),
    decreases ss.len() - i,
{
    if i < ss.len() {
        let e1 = with_aggregate(e, ss[i].name, ss[i].fields, d);
        lemma_unions_grow(e1, ss, d, i + 1);
        lemma_aggregate(e, ss[i].name, ss[i].fields, d);
        lemma_unions(e1, ss, d, i + 1, k);
        let out = with_unions(e, ss, d, i);
        lemma_kept_trans(e.store, e1.store, out.store);
        if k == i && forall|j: int| k < j < ss.len() ==> (#[trigger] ss[j]).name != ss[k].name {
            assert(get_in(out.symbols.structs, ss[k].name) == get_in(e1.symbols.structs, ss[k].name));
            lemma_fields_kept(e1.store, out.store, e1.symbols.structs[ss[k].name].fields, ss[k].fields, d);
        }
        assert forall|n: Seq<char>|
            (forall|j: int| i <= j < ss.len() ==> (#[trigger] ss[j]).name != n) implies #[trigger] get_in(
            out.symbols.structs,
            n,
        ) == get_in(e.symbols.structs, n) by {
            assert(ss[i].name != n);
            assert(get_in(out.symbols.structs, n) == get_in(e1.symbols.structs, n));
        }
    }
}

proof fn lemma_variants(e: EnvV, vs: Seq<EnumVariantV>, i: int)
    requires
        0 <= i,
    ensures
        ({
            let out = def_variants(e, vs, i);
            &&& out.store == e.store
            &&& out.symbols.functions == e.symbols.functions
            &&& out.symbols.globals == e.symbols.globals
            &&& out.symbols.structs == e.symbols.structs
            &&& out.symbols.enums == e.symbols.enums
            &&& out.symbols.vars == e.symbols.vars
            &&& forall|j: int| i <= j < vs.len() ==> #[trigger] out.symbols.enum_variants.contains_key(
                qualified(vs[j].parent, vs[j].name),
            )
            &&& forall|n: Seq<char>| #[trigger]
                e.symbols.enum_variants.contains_key(n) ==> out.symbols.enum_variants.contains_key(n)
        }),
    decreases vs.len() - i,
{
    if i < vs.len() {
        let e1 = crate::engine::def_variant(e, vs[i]);
        lemma_variants(e1, vs, i + 1);
        let out = def_variants(e, vs, i);
        assert(e1.symbols.enum_variants.contains_key(qualified(vs[i].parent, vs[i].name)));
        assert forall|n: Seq<char>| #[trigger]
            e.symbols.enum_variants.contains_key(n) implies out.symbols.enum_variants.contains_key(n) by {
            assert(e1.symbols.enum_variants.contains_key(n));
        }
    }
}

proof fn lemma_enums(e: EnvV, cs: Seq<CEnumV>, i: int, k: int)
    requires
        0 <= i,
    ensures
        ({
            let out = with_enums(e, cs, i);
            &&& out.store == e.store
            &&& out.symbols.functions == e.symbols.functions
            &&& out.symbols.globals == e.symbols.globals
            &&& out.symbols.structs == e.symbols.structs
            &&& out.symbols.vars == e.symbols.vars
            &&& forall|n: Seq<char>| #[trigger]
                e.symbols.enum_variants.contains_key(n) ==> out.symbols.enum_variants.contains_key(n)
            &&& forall|n: Seq<char>|
                (forall|j: int| i <= j < cs.len() ==> (#[trigger] cs[j]).name != n) ==> #[trigger] get_in(
                    out.symbols.enums,
                    n,
                ) == get_in(e.symbols.enums, n)
            &&& i <= k < cs.len() ==> forall|j: int|
                0 <= j < cs[k].variants.len() ==> #[trigger] out.symbols.enum_variants.contains_key(
                    qualified(cs[k].name, cs[k].variants[j].name),
                )
            &&& i <= k < cs.len() && (forall|j: int| k < j < cs.len() ==> (#[trigger] cs[j]).name != cs[k].name)
                ==> get_in(out.symbols.enums, cs[k].name) == Some(kit_enum(cs[k]))
        }),
    decreases cs.len() - i,
{
    if i < cs.len() {
        let e0 = crate::engine::def_enum(e, kit_enum(cs[i]));
        let vs = kit_enum(cs[i]).variants;
        let e1 = def_variants(e0, vs, 0);
        lemma_variants(e0, vs, 0);
        lemma_enums(e1, cs, i + 1, k);
        let out = with_enums(e, cs, i);
        if k == i {
            assert forall|j: int| 0 <= j < cs[k].variants.len() implies #[trigger] out.symbols.enum_variants.contains_key(
                qualified(cs[k].name, cs[k].variants[j].name),
            ) by {
                assert(vs[j].parent == cs[k].name && vs[j].name == cs[k].variants[j].name);
                assert(e1.symbols.enum_variants.contains_key(qualified(vs[j].parent, vs[j].name)));
            }
            if forall|j: int| k < j < cs.len() ==> (#[trigger] cs[j]).name != cs[k].name {
                assert(get_in(out.symbols.enums, cs[k].name) == get_in(e1.symbols.enums, cs[k].name));
            }
        }
        assert forall|n: Seq<char>| #[trigger]
            e.symbols.enum_variants.contains_key(n) implies out.symbols.enum_variants.contains_key(n) by {
            assert(e0.symbols.enum_variants.contains_key(n));
            assert(e1.symbols.enum_variants.contains_key(n));
        }
        assert forall|n: Seq<char>|
            (forall|j: int| i <= j < cs.len() ==> (#[trigger] cs[j]).name != n) implies #[trigger] get_in(
            out.symbols.enums,
            n,
        ) == get_in(e.symbols.enums, n) by {
            assert(cs[i].name != n);
            assert(get_in(out.symbols.enums, n) == get_in(e1.symbols.enums, n));
        }
    }
}

proof fn lemma_params(e: EnvV, ts: Seq<TypeV>, i: int, acc: Seq<TypeId>)
    requires
        0 <= i,
        with_params(e, ts, i, acc).0.store.slots.len() <= usize::MAX,
    ensures
        ({
            let (out, ids) = with_params(e, ts, i, acc);
            &&& slots_kept(e.store, out.store)
            &&& out.store.typedefs == e.store.typedefs
            &&& out.symbols == e.symbols
            &&& ids.len() == acc.len() + if i < ts.len() {
                ts.len() - i
            } else {
                0
            }
            &&& forall|j: int| 0 <= j < acc.len() ==> #[trigger] ids[j] == acc[j]
            &&& forall|j: int| i <= j < ts.len() ==> stands_for(out.store, #[trigger] ids[acc.len() + j - i], ts[j])
        }),
    decreases ts.len() - i,
{
    if i < ts.len() {
        let e1 = with_known(e, ts[i]);
        let acc1 = acc.push(next_id(e));
        lemma_params(e1, ts, i + 1, acc1);
        let (out, ids) = with_params(e, ts, i, acc);
        assert(slots_kept(e.store, e1.store));
        lemma_kept_trans(e.store, e1.store, out.store);
        let at = e.store.slots.len() as int;
        assert(out.store.slots[at] == e1.store.slots[at]);
        assert(ids[acc.len() as int] == acc1[acc.len() as int]);
        assert forall|j: int| 0 <= j < acc.len() implies #[trigger] ids[j] == acc[j] by {
            assert(ids[j] == acc1[j]);
        }
        assert forall|j: int| i <= j < ts.len() implies stands_for(
            out.store,
            #[trigger] ids[acc.len() + j - i],
            ts[j],
        ) by {
            if j > i {
                assert(acc1.len() + j - (i + 1) == acc.len() + j - i);
                assert(stands_for(out.store, ids[acc1.len() + j - (i + 1)], ts[j]));
            }
        }
    }
}

proof fn lemma_params_grow(e: EnvV, ts: Seq<TypeV>, i: int, acc: Seq<TypeId>)
    ensures
        e.store.slots.len() <= with_params(e, ts, i, acc).0.store.slots.len(),
    decreases ts.len() - i,
{
    if 0 <= i < ts.len() {
        lemma_params_grow(with_known(e, ts[i]), ts, i + 1, acc.push(next_id(e)));
    }
}

proof fn lemma_functions_grow(e: EnvV, fs: Seq<CFunctionV>, d: CDeclarationsV, i: int)
    ensures
        e.store.slots.len() <= with_functions(e, fs, d, i).store.slots.len(),
    decreases fs.len() - i,
{
    if 0 <= i < fs.len() {
        let ret = kit_type_of(fs[i].return_type, d);
        lemma_params_grow(with_known(e, ret), kit_params(fs[i].params, d), 0, Seq::empty());
        lemma_functions_grow(with_function(e, fs[i], d), fs, d, i + 1);
    }
}

/// Whether a function is known with the Kit types of a declared C function: its return type and its
/// parameters, in order.
pub open spec fn signature_stands_for(s: StoreV, sig: (Seq<TypeId>, TypeId), f: CFunctionV, d: CDeclarationsV) -> bool {
    &&& stands_for(s, sig.1, kit_type_of(f.return_type, d))
    &&& sig.0.len() == f.params.len()
    &&& forall|j: int| 0 <= j < f.params.len() ==> stands_for(s, #[trigger] sig.0[j], kit_type_of(f.params[j].ty, d))
}

proof fn lemma_signature_kept(a: StoreV, b: StoreV, sig: (Seq<TypeId>, TypeId), f: CFunctionV, d: CDeclarationsV)
    requires
        slots_kept(a, b),
        signature_stands_for(a, sig, f, d),
    ensures
        signature_stands_for(b, sig, f, d),
{
    assert forall|j: int| 0 <= j < f.params.len() implies stands_for(
        b,
        #[trigger] sig.0[j],
        kit_type_of(f.params[j].ty, d),
    ) by {
        assert(stands_for(a, sig.0[j], kit_type_of(f.params[j].ty, d)));
    }
}

proof fn lemma_function(e: EnvV, f: CFunctionV, d: CDeclarationsV)
    requires
        with_function(e, f, d).store.slots.len() <= usize::MAX,
    ensures
        ({
            let out = with_function(e, f, d);
            &&& slots_kept(e.store, out.store)
            &&& out.store.typedefs == e.store.typedefs
            &&& out.symbols.structs == e.symbols.structs
            &&& out.symbols.enums == e.symbols.enums
            &&& out.symbols.enum_variants == e.symbols.enum_variants
            &&& out.symbols.vars == e.symbols.vars
            &&& f.is_variadic ==> out == e
            &&& !f.is_variadic ==> {
                &&& get_in(out.symbols.functions, f.name) is Some
                &&& signature_stands_for(out.store, get_in(out.symbols.functions, f.name)->0, f, d)
                &&& get_in(out.symbols.globals, f.name) is Some
                &&& stands_for(out.store, get_in(out.symbols.globals, f.name)->0, function_type(f, d))
            }
            &&& forall|n: Seq<char>|
                n != f.name ==> #[trigger] get_in(out.symbols.functions, n) == get_in(e.symbols.functions, n)
            &&& forall|n: Seq<char>|
                n != f.name ==> #[trigger] get_in(out.symbols.globals, n) == get_in(e.symbols.globals, n)
        }),
{
    if !f.is_variadic {
        let ret = kit_type_of(f.return_type, d);
        let ts = kit_params(f.params, d);
        let e0 = with_known(e, ret);
        let (e1, ids) = with_params(e0, ts, 0, Seq::empty());
        lemma_params(e0, ts, 0, Seq::empty());
        let out = with_function(e, f, d);
        assert(slots_kept(e.store, e0.store));
        lemma_kept_trans(e.store, e0.store, e1.store);
        assert(slots_kept(e1.store, out.store));
        lemma_kept_trans(e.store, e1.store, out.store);
        let at = e.store.slots.len() as int;
        assert(e1.store.slots[at] == e0.store.slots[at]);
        assert(out.store.slots[at] == e1.store.slots[at]);
        let sig = (ids, next_id(e));
        assert(get_in(out.symbols.functions, f.name) == Some(sig));
        assert forall|j: int| 0 <= j < f.params.len() implies stands_for(
            out.store,
            #[trigger] sig.0[j],
            kit_type_of(f.params[j].ty, d),
        ) by {
            assert(stands_for(e1.store, ids[0 + j - 0], ts[j]));
            assert(out.store.slots[ids[j].0 as int] == e1.store.slots[ids[j].0 as int]);
        }
        assert(ts =~= function_type(f, d)->param_tys);
    }
}

/// The Kit type of a C function.
pub open spec fn function_type(f: CFunctionV, d: CDeclarationsV) -> TypeV {
    TypeV::Function {
        param_tys: Seq::new(f.params.len(), |j: int| kit_type_of(f.params[j].ty, d)),
        ret_ty: Box::new(kit_type_of(f.return_type, d)),
    }
}

proof fn lemma_functions(e: EnvV, fs: Seq<CFunctionV>, d: CDeclarationsV, i: int, k: int)
    requires
        0 <= i,
        with_functions(e, fs, d, i).store.slots.len() <= usize::MAX,
    ensures
        ({
            let out = with_functions(e, fs, d, i);
            &&& slots_kept(e.store, out.store)
            &&& out.store.typedefs == e.store.typedefs
            &&& out.symbols.structs == e.symbols.structs
            &&& out.symbols.enums == e.symbols.enums
            &&& out.symbols.enum_variants == e.symbols.enum_variants
            &&& out.symbols.vars == e.symbols.vars
            &&& forall|n: Seq<char>|
                (forall|j: int| i <= j < fs.len() ==> (#[trigger] fs[j]).name != n || fs[j].is_variadic)
                    ==> #[trigger] get_in(out.symbols.functions, n) == get_in(e.symbols.functions, n)
            &&& forall|n: Seq<char>|
                (forall|j: int| i <= j < fs.len() ==> (#[trigger] fs[j]).name != n || fs[j].is_variadic)
                    ==> #[trigger] get_in(out.symbols.globals, n) == get_in(e.symbols.globals, n)
            &&& i <= k < fs.len() && !fs[k].is_variadic && (forall|j: int|
                k < j < fs.len() ==> (#[trigger] fs[j]).name != fs[k].name || fs[j].is_variadic) ==> {
                &&& get_in(out.symbols.functions, fs[k].name) is Some
                &&& signature_stands_for(out.store, get_in(out.symbols.functions, fs[k].name)->0, fs[k], d)
                &&& get_in(out.symbols.globals, fs[k].name) is Some
                &&& stands_for(out.store, get_in(out.symbols.globals, fs[k].name)->0, function_type(fs[k], d))
            }
        }),
    decreases fs.len() - i,
{
    if i < fs.len() {
        let e1 = with_function(e, fs[i], d);
        lemma_functions_grow(e1, fs, d, i + 1);
        lemma_function(e, fs[i], d);
        lemma_functions(e1, fs, d, i + 1, k);
        let out = with_functions(e, fs, d, i);
        lemma_kept_trans(e.store, e1.store, out.store);
        if k == i && !fs[k].is_variadic && forall|j: int|
            k < j < fs.len() ==> (#[trigger] fs[j]).name != fs[k].name || fs[j].is_variadic {
            let n = fs[k].name;
            assert(get_in(out.symbols.functions, n) == get_in(e1.symbols.functions, n));
            assert(get_in(out.symbols.globals, n) == get_in(e1.symbols.globals, n));
            lemma_signature_kept(e1.store, out.store, get_in(e1.symbols.functions, n)->0, fs[k], d);
        }
        assert forall|n: Seq<char>|
            (forall|j: int| i <= j < fs.len() ==> (#[trigger] fs[j]).name != n || fs[j].is_variadic) implies #[trigger] get_in(
            out.symbols.functions,
            n,
        ) == get_in(e.symbols.functions, n) by {
            assert(fs[i].name != n || fs[i].is_variadic);
            assert(get_in(out.symbols.functions, n) == get_in(e1.symbols.functions, n));
        }
        assert forall|n: Seq<char>|
            (forall|j: int| i <= j < fs.len() ==> (#[trigger] fs[j]).name != n || fs[j].is_variadic) implies #[trigger] get_in(
            out.symbols.globals,
            n,
        ) == get_in(e.symbols.globals, n) by {
            assert(fs[i].name != n || fs[i].is_variadic);
            assert(get_in(out.symbols.globals, n) == get_in(e1.symbols.globals, n));
        }
    }
}

proof fn lemma_globals(e: EnvV, gs: Seq<CGlobalVarV>, d: CDeclarationsV, i: int, k: int)
    requires
        0 <= i,
        with_globals(e, gs, d, i).store.slots.len() <= usize::MAX,
    ensures
        ({
            let out = with_globals(e, gs, d, i);
            &&& slots_kept(e.store, out.store)
            &&& out.store.typedefs == e.store.typedefs
            &&& out.symbols.functions == e.symbols.functions
            &&& out.symbols.structs == e.symbols.structs
            &&& out.symbols.enums == e.symbols.enums
            &&& out.symbols.enum_variants == e.symbols.enum_variants
            &&& out.symbols.vars == e.symbols.vars
            &&& forall|n: Seq<char>|
                (forall|j: int| i <= j < gs.len() ==> (#[trigger] gs[j]).name != n) ==> #[trigger] get_in(
                    out.symbols.globals,
                    n,
                ) == get_in(e.symbols.globals, n)
            &&& i <= k < gs.len() && (forall|j: int| k < j < gs.len() ==> (#[trigger] gs[j]).name != gs[k].name) ==> {
                &&& get_in(out.symbols.globals, gs[k].name) is Some
                &&& stands_for(out.store, get_in(out.symbols.globals, gs[k].name)->0, kit_type_of(gs[k].ty, d))
            }
        }),
    decreases gs.len() - i,
{
    if i < gs.len() {
        let e1 = crate::engine::def_global(with_known(e, kit_type_of(gs[i].ty, d)), gs[i].name, next_id(e));
        lemma_globals_grow(e1, gs, d, i + 1);
        lemma_globals(e1, gs, d, i + 1, k);
        let out = with_globals(e, gs, d, i);
        assert(slots_kept(e.store, e1.store));
        lemma_kept_trans(e.store, e1.store, out.store);
        if k == i && forall|j: int| k < j < gs.len() ==> (#[trigger] gs[j]).name != gs[k].name {
            assert(get_in(out.symbols.globals, gs[k].name) == get_in(e1.symbols.globals, gs[k].name));
            let at = e.store.slots.len() as int;
            assert(out.store.slots[at] == e1.store.slots[at]);
        }
        assert forall|n: Seq<char>|
            (forall|j: int| i <= j < gs.len() ==> (#[trigger] gs[j]).name != n) implies #[trigger] get_in(
            out.symbols.globals,
            n,
        ) == get_in(e.symbols.globals, n) by {
            assert(gs[i].name != n);
            assert(get_in(out.symbols.globals, n) == get_in(e1.symbols.globals, n));
        }
    }
}

proof fn lemma_globals_grow(e: EnvV, gs: Seq<CGlobalVarV>, d: CDeclarationsV, i: int)
    ensures
        e.store.slots.len() <= with_globals(e, gs, d, i).store.slots.len(),
    decreases gs.len() - i,
{
    if 0 <= i < gs.len() {
        lemma_globals_grow(
            crate::engine::def_global(with_known(e, kit_type_of(gs[i].ty, d)), gs[i].name, next_id(e)),
            gs,
            d,
            i + 1,
        );
    }
}

/// The Kit type of the value of a macro constant: that of a literal with the value, but an unsigned one
/// is the widest unsigned integer.
pub open spec fn value_type(v: MacroValueV) -> TypeV {
    match v {
        MacroValueV::Int(_) => TypeV::Int,
        MacroValueV::Uint(_) => TypeV::Uint64,
        MacroValueV::Float(_) => TypeV::Float,
        MacroValueV::String(_) => TypeV::CString,
    }
}

proof fn lemma_macros(e: EnvV, ms: Seq<CMacroConstantV>, i: int, k: int)
    requires
        0 <= i,
        with_macros(e, ms, i).store.slots.len() <= usize::MAX,
    ensures
        ({
            let out = with_macros(e, ms, i);
            &&& slots_kept(e.store, out.store)
            &&& out.store.typedefs == e.store.typedefs
            &&& out.symbols.functions == e.symbols.functions
            &&& out.symbols.structs == e.symbols.structs
            &&& out.symbols.enums == e.symbols.enums
            &&& out.symbols.enum_variants == e.symbols.enum_variants
            &&& out.symbols.vars == e.symbols.vars
            &&& forall|n: Seq<char>|
                (forall|j: int| i <= j < ms.len() ==> (#[trigger] ms[j]).name != n) ==> #[trigger] get_in(
                    out.symbols.globals,
                    n,
                ) == get_in(e.symbols.globals, n)
            &&& i <= k < ms.len() && (forall|j: int| k < j < ms.len() ==> (#[trigger] ms[j]).name != ms[k].name) ==> {
                &&& get_in(out.symbols.globals, ms[k].name) is Some
                &&& stands_for(out.store, get_in(out.symbols.globals, ms[k].name)->0, value_type(ms[k].value))
            }
        }),
    decreases ms.len() - i,
{
    if i < ms.len() {
        let e1 = crate::engine::def_global(with_known(e, macro_type(ms[i].value)), ms[i].name, next_id(e));
        lemma_macros_grow(e1, ms, i + 1);
        lemma_macros(e1, ms, i + 1, k);
        let out = with_macros(e, ms, i);
        assert(slots_kept(e.store, e1.store));
        lemma_kept_trans(e.store, e1.store, out.store);
        if k == i && forall|j: int| k < j < ms.len() ==> (#[trigger] ms[j]).name != ms[k].name {
            assert(get_in(out.symbols.globals, ms[k].name) == get_in(e1.symbols.globals, ms[k].name));
            let at = e.store.slots.len() as int;
            assert(out.store.slots[at] == e1.store.slots[at]);
        }
        assert forall|n: Seq<char>|
            (forall|j: int| i <= j < ms.len() ==> (#[trigger] ms[j]).name != n) implies #[trigger] get_in(
            out.symbols.globals,
            n,
        ) == get_in(e.symbols.globals, n) by {
            assert(ms[i].name != n);
            assert(get_in(out.symbols.globals, n) == get_in(e1.symbols.globals, n));
        }
    }
}

proof fn lemma_macros_grow(e: EnvV, ms: Seq<CMacroConstantV>, i: int)
    ensures
        e.store.slots.len() <= with_macros(e, ms, i).store.slots.len(),
    decreases ms.len() - i,
{
    if 0 <= i < ms.len() {
        lemma_macros_grow(
            crate::engine::def_global(with_known(e, macro_type(ms[i].value)), ms[i].name, next_id(e)),
            ms,
            i + 1,
        );
    }
}

/// Each stage of registering a header, and what each leaves as it was.
proof fn lemma_stages(e: EnvV, d: CDeclarationsV, k: int)
    requires
        with_declarations(e, d).store.slots.len() <= usize::MAX,
    ensures
        ({
            let e1 = with_typedefs(e, d.typedefs, d, 0);
            let e2 = with_structs(e1, d.structs, d, 0);
            let e3 = with_unions(e2, d.unions, d, 0);
            let e4 = with_enums(e3, d.enums, 0);
            let e5 = with_functions(e4, d.functions, d, 0);
            let e6 = with_globals(e5, d.globals, d, 0);
            let out = with_declarations(e, d);
            &&& e2.store.slots.len() <= usize::MAX
            &&& e3.store.slots.len() <= usize::MAX
            &&& e5.store.slots.len() <= usize::MAX
            &&& e6.store.slots.len() <= usize::MAX
            &&& slots_kept(e1.store, e2.store)
            &&& slots_kept(e2.store, out.store)
            &&& slots_kept(e3.store, out.store)
            &&& slots_kept(e5.store, out.store)
            &&& slots_kept(e6.store, out.store)
            &&& slots_kept(e.store, out.store)
            &&& out.store.typedefs == e1.store.typedefs
            &&& out.symbols.structs == e3.symbols.structs
            &&& out.symbols.enums == e4.symbols.enums
            &&& out.symbols.enum_variants == e4.symbols.enum_variants
            &&& out.symbols.functions == e5.symbols.functions
            &&& e4.symbols.functions == e.symbols.functions
            &&& e4.symbols.globals == e.symbols.globals
            &&& e3.symbols.enums == e.symbols.enums
            &&& e1.symbols.structs == e.symbols.structs
            &&& out.symbols.vars == e.symbols.vars
        }),
{
    let e1 = with_typedefs(e, d.typedefs, d, 0);
    let e2 = with_structs(e1, d.structs, d, 0);
    let e3 = with_unions(e2, d.unions, d, 0);
    let e4 = with_enums(e3, d.enums, 0);
    let e5 = with_functions(e4, d.functions, d, 0);
    let e6 = with_globals(e5, d.globals, d, 0);
    let out = with_declarations(e, d);
    lemma_macros_grow(e6, d.macro_constants, 0);
    lemma_globals_grow(e5, d.globals, d, 0);
    lemma_functions_grow(e4, d.functions, d, 0);
    lemma_enums(e3, d.enums, 0, k);
    lemma_unions_grow(e2, d.unions, d, 0);
    lemma_typedefs(e, d.typedefs, d, 0, k);
    lemma_structs(e1, d.structs, d, 0, k);
    lemma_unions(e2, d.unions, d, 0, k);
    lemma_functions(e4, d.functions, d, 0, k);
    lemma_globals(e5, d.globals, d, 0, k);
    lemma_macros(e6, d.macro_constants, 0, k);
    lemma_kept_trans(e5.store, e6.store, out.store);
    lemma_kept_trans(e3.store, e5.store, out.store);
    lemma_kept_trans(e2.store, e3.store, out.store);
    lemma_kept_trans(e.store, e2.store, out.store);
}

/// A function that a header declares, not variadic and declared once, is found with the Kit types of
/// its declared return type and parameters, in order.
pub proof fn law_declared_function_is_found(e: EnvV, d: CDeclarationsV, k: int)
    requires
        with_declarations(e, d).store.slots.len() <= usize::MAX,
        0 <= k < d.functions.len(),
        !d.functions[k].is_variadic,
        forall|j: int| k < j < d.functions.len() ==> (#[trigger] d.functions[j]).name != d.functions[k].name,
    ensures
        ({
            let out = with_declarations(e, d);
            let f = d.functions[k];
            &&& get_in(out.symbols.functions, f.name) matches Some((params, ret)) && {
                &&& known_in(out.store, ret) == Some(kit_type_of(f.return_type, d))
                &&& params.len() == f.params.len()
                &&& forall|j: int|
                    0 <= j < params.len() ==> known_in(out.store, #[trigger] params[j]) == Some(
                        kit_type_of(f.params[j].ty, d),
                    )
            }
        }),
{
    lemma_stages(e, d, k);
    let e1 = with_typedefs(e, d.typedefs, d, 0);
    let e4 = with_enums(with_unions(with_structs(e1, d.structs, d, 0), d.unions, d, 0), d.enums, 0);
    lemma_functions(e4, d.functions, d, 0, k);
    let e5 = with_functions(e4, d.functions, d, 0);
    let out = with_declarations(e, d);
    let f = d.functions[k];
    let sig = get_in(e5.symbols.functions, f.name)->0;
    lemma_signature_kept(e5.store, out.store, sig, f, d);
    assert forall|j: int| 0 <= j < sig.0.len() implies known_in(out.store, #[trigger] sig.0[j]) == Some(
        kit_type_of(f.params[j].ty, d),
    ) by {
        assert(stands_for(out.store, sig.0[j], kit_type_of(f.params[j].ty, d)));
    }
}

/// A function of a header with plain C types is found with the plain Kit types.
pub proof fn law_declared_function_has_plain_types(e: EnvV, d: CDeclarationsV, k: int)
    requires
        with_declarations(e, d).store.slots.len() <= usize::MAX,
        0 <= k < d.functions.len(),
        !d.functions[k].is_variadic,
        forall|j: int| k < j < d.functions.len() ==> (#[trigger] d.functions[j]).name != d.functions[k].name,
    ensures
        ({
            let out = with_declarations(e, d);
            let f = d.functions[k];
            let sig = get_in(out.symbols.functions, f.name)->0;
            &&& f.return_type is Int ==> known_in(out.store, sig.1) == Some(TypeV::Int)
            &&& f.return_type is Double ==> known_in(out.store, sig.1) == Some(TypeV::Float64)
            &&& f.return_type is Void ==> known_in(out.store, sig.1) == Some(TypeV::Void)
            &&& forall|j: int|
                0 <= j < f.params.len() && f.params[j].ty is Int ==> known_in(out.store, #[trigger] sig.0[j]) == Some(
                    TypeV::Int,
                )
            &&& forall|j: int|
                0 <= j < f.params.len() && f.params[j].ty is Double ==> known_in(out.store, #[trigger] sig.0[j])
                    == Some(TypeV::Float64)
        }),
{
    law_declared_function_is_found(e, d, k);
    law_kit_types_of_c_types(d);
}

/// A function of a header also has its type as a value, unless a variable or a constant of the header
/// has its name.
pub proof fn law_declared_function_is_a_value(e: EnvV, d: CDeclarationsV, k: int)
    requires
        with_declarations(e, d).store.slots.len() <= usize::MAX,
        0 <= k < d.functions.len(),
        !d.functions[k].is_variadic,
        forall|j: int| k < j < d.functions.len() ==> (#[trigger] d.functions[j]).name != d.functions[k].name,
        forall|j: int| 0 <= j < d.globals.len() ==> (#[trigger] d.globals[j]).name != d.functions[k].name,
        forall|j: int|
            0 <= j < d.macro_constants.len() ==> (#[trigger] d.macro_constants[j]).name != d.functions[k].name,
    ensures
        get_in(with_declarations(e, d).symbols.globals, d.functions[k].name) matches Some(id) && known_in(
            with_declarations(e, d).store,
            id,
        ) == Some(function_type(d.functions[k], d)),
{
    lemma_stages(e, d, k);
    let e1 = with_typedefs(e, d.typedefs, d, 0);
    let e4 = with_enums(with_unions(with_structs(e1, d.structs, d, 0), d.unions, d, 0), d.enums, 0);
    lemma_functions(e4, d.functions, d, 0, k);
    let e5 = with_functions(e4, d.functions, d, 0);
    let e6 = with_globals(e5, d.globals, d, 0);
    lemma_globals(e5, d.globals, d, 0, k);
    lemma_macros(e6, d.macro_constants, 0, k);
    let out = with_declarations(e, d);
    let n = d.functions[k].name;
    assert(get_in(e6.symbols.globals, n) == get_in(e5.symbols.globals, n));
    assert(get_in(out.symbols.globals, n) == get_in(e6.symbols.globals, n));
}

/// Functions that a header does not declare, and variadic ones, are what they were before.
pub proof fn law_header_defines_no_other_function(e: EnvV, d: CDeclarationsV, n: Seq<char>)
    requires
        with_declarations(e, d).store.slots.len() <= usize::MAX,
        forall|j: int| 0 <= j < d.functions.len() ==> (#[trigger] d.functions[j]).name != n || d.functions[j].is_variadic,
    ensures
        get_in(with_declarations(e, d).symbols.functions, n) == get_in(e.symbols.functions, n),
{
    lemma_stages(e, d, 0);
    let e1 = with_typedefs(e, d.typedefs, d, 0);
    let e4 = with_enums(with_unions(with_structs(e1, d.structs, d, 0), d.unions, d, 0), d.enums, 0);
    lemma_functions(e4, d.functions, d, 0, 0);
}

/// A variable that a header declares once is found with the Kit type of its declared type, unless a
/// constant has its name.
pub proof fn law_declared_variable_of_a_header_is_found(e: EnvV, d: CDeclarationsV, k: int)
    requires
        with_declarations(e, d).store.slots.len() <= usize::MAX,
        0 <= k < d.globals.len(),
        forall|j: int| k < j < d.globals.len() ==> (#[trigger] d.globals[j]).name != d.globals[k].name,
        forall|j: int| 0 <= j < d.macro_constants.len() ==> (#[trigger] d.macro_constants[j]).name != d.globals[k].name,
    ensures
        get_in(with_declarations(e, d).symbols.globals, d.globals[k].name) matches Some(id) && known_in(
            with_declarations(e, d).store,
            id,
        ) == Some(kit_type_of(d.globals[k].ty, d)),
{
    lemma_stages(e, d, k);
    let e1 = with_typedefs(e, d.typedefs, d, 0);
    let e4 = with_enums(with_unions(with_structs(e1, d.structs, d, 0), d.unions, d, 0), d.enums, 0);
    let e5 = with_functions(e4, d.functions, d, 0);
    let e6 = with_globals(e5, d.globals, d, 0);
    lemma_globals(e5, d.globals, d, 0, k);
    lemma_macros(e6, d.macro_constants, 0, k);
    let out = with_declarations(e, d);
    let n = d.globals[k].name;
    assert(get_in(out.symbols.globals, n) == get_in(e6.symbols.globals, n));
}

/// A constant that a header defines last under its name is found with the Kit type of its value.
pub proof fn law_constant_of_a_header_is_found(e: EnvV, d: CDeclarationsV, k: int)
    requires
        with_declarations(e, d).store.slots.len() <= usize::MAX,
        0 <= k < d.macro_constants.len(),
        forall|j: int|
            k < j < d.macro_constants.len() ==> (#[trigger] d.macro_constants[j]).name != d.macro_constants[k].name,
    ensures
        get_in(with_declarations(e, d).symbols.globals, d.macro_constants[k].name) matches Some(id) && known_in(
            with_declarations(e, d).store,
            id,
        ) == Some(value_type(d.macro_constants[k].value)),
{
    lemma_stages(e, d, k);
    let e1 = with_typedefs(e, d.typedefs, d, 0);
    let e4 = with_enums(with_unions(with_structs(e1, d.structs, d, 0), d.unions, d, 0), d.enums, 0);
    let e6 = with_globals(with_functions(e4, d.functions, d, 0), d.globals, d, 0);
    lemma_macros(e6, d.macro_constants, 0, k);
}

/// A struct that a header declares last under its name is found with its fields, in order, each with
/// its name and the Kit type of its declared type.
pub proof fn law_struct_of_a_header_is_found(e: EnvV, d: CDeclarationsV, k: int)
    requires
        with_declarations(e, d).store.slots.len() <= usize::MAX,
        0 <= k < d.structs.len(),
        forall|j: int| k < j < d.structs.len() ==> (#[trigger] d.structs[j]).name != d.structs[k].name,
        forall|j: int| 0 <= j < d.unions.len() ==> (#[trigger] d.unions[j]).name != d.structs[k].name,
    ensures
        get_in(with_declarations(e, d).symbols.structs, d.structs[k].name) matches Some(def) && fields_stand_for(
            with_declarations(e, d).store,
            def.fields,
            d.structs[k].fields,
            d,
        ),
{
    lemma_stages(e, d, k);
    let e1 = with_typedefs(e, d.typedefs, d, 0);
    let e2 = with_structs(e1, d.structs, d, 0);
    let e3 = with_unions(e2, d.unions, d, 0);
    lemma_structs(e1, d.structs, d, 0, k);
    lemma_unions(e2, d.unions, d, 0, k);
    let out = with_declarations(e, d);
    let n = d.structs[k].name;
    assert(get_in(e3.symbols.structs, n) == get_in(e2.symbols.structs, n));
    lemma_fields_kept(e2.store, out.store, get_in(e2.symbols.structs, n)->0.fields, d.structs[k].fields, d);
}

/// A union that a header declares last under its name is found as a struct with all its fields.
pub proof fn law_union_of_a_header_is_found(e: EnvV, d: CDeclarationsV, k: int)
    requires
        with_declarations(e, d).store.slots.len() <= usize::MAX,
        0 <= k < d.unions.len(),
        forall|j: int| k < j < d.unions.len() ==> (#[trigger] d.unions[j]).name != d.unions[k].name,
    ensures
        get_in(with_declarations(e, d).symbols.structs, d.unions[k].name) matches Some(def) && fields_stand_for(
            with_declarations(e, d).store,
            def.fields,
            d.unions[k].fields,
            d,
        ),
{
    lemma_stages(e, d, k);
    let e1 = with_typedefs(e, d.typedefs, d, 0);
    let e2 = with_structs(e1, d.structs, d, 0);
    let e3 = with_unions(e2, d.unions, d, 0);
    lemma_unions(e2, d.unions, d, 0, k);
    let out = with_declarations(e, d);
    let n = d.unions[k].name;
    lemma_fields_kept(e3.store, out.store, get_in(e3.symbols.structs, n)->0.fields, d.unions[k].fields, d);
}

/// An enum that a header declares last under its name is found with its constants, in order, and each
/// constant is found under the name of the enum.
pub proof fn law_enum_of_a_header_is_found(e: EnvV, d: CDeclarationsV, k: int)
    requires
        with_declarations(e, d).store.slots.len() <= usize::MAX,
        0 <= k < d.enums.len(),
        forall|j: int| k < j < d.enums.len() ==> (#[trigger] d.enums[j]).name != d.enums[k].name,
    ensures
        ({
            let out = with_declarations(e, d);
            let c = d.enums[k];
            &&& get_in(out.symbols.enums, c.name) matches Some(def) && def.variants.len() == c.variants.len()
                && forall|j: int|
                0 <= j < c.variants.len() ==> (#[trigger] def.variants[j]).name == c.variants[j].name
                    && def.variants[j].args.len() == 0
            &&& forall|j: int|
                0 <= j < c.variants.len() ==> #[trigger] out.symbols.enum_variants.contains_key(
                    qualified(c.name, c.variants[j].name),
                )
        }),
{
    lemma_stages(e, d, k);
    let e1 = with_typedefs(e, d.typedefs, d, 0);
    let e3 = with_unions(with_structs(e1, d.structs, d, 0), d.unions, d, 0);
    lemma_enums(e3, d.enums, 0, k);
}

/// A typedef that a header declares last under its name is known as the Kit type of what it stands for.
pub proof fn law_typedef_of_a_header_is_found(e: EnvV, d: CDeclarationsV, k: int)
    requires
        with_declarations(e, d).store.slots.len() <= usize::MAX,
        0 <= k < d.typedefs.len(),
        forall|j: int| k < j < d.typedefs.len() ==> (#[trigger] d.typedefs[j]).name != d.typedefs[k].name,
    ensures
        get_in(with_declarations(e, d).store.typedefs, d.typedefs[k].name) == Some(
            kit_type_of(d.typedefs[k].underlying, d),
        ),
{
    lemma_stages(e, d, k);
    lemma_typedefs(e, d.typedefs, d, 0, k);
}

/// Registering a header changes no type that was known before, and no local variable.
pub proof fn law_header_keeps_what_is_known(e: EnvV, d: CDeclarationsV, id: TypeId, t: TypeV)
    requires
        with_declarations(e, d).store.slots.len() <= usize::MAX,
        stands_for(e.store, id, t),
    ensures
        stands_for(with_declarations(e, d).store, id, t),
        with_declarations(e, d).symbols.vars == e.symbols.vars,
{
    lemma_stages(e, d, 0);
}

} // verus!
