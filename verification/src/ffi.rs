//! C declarations as Kit symbols.
use crate::ctypes::{c_fields_v, c_params_v, resolved, CDeclarations, CDeclarationsV, CEnumV, CEnumVariantV,
    CField, CFieldV, CFunctionV, CGlobalVarV, CMacroConstantV, CParamV, CQualifier, CStructV, CType, CTypeV,
    CTypedefV, CUnionV, MacroValue, MacroValueV};
use crate::decl::{enum_variants_v, field_list_v, field_v, EnumDefinition, EnumDefinitionV, EnumVariant,
    EnumVariantV, Field, FieldV, Metadata, MetadataV, StructDefinition, StructDefinitionV, TypeParam,
    TypeParamV};
use crate::engine::{def_enum, def_function, def_global, def_struct, def_variants, next_id, with_known, EnvV,
    TypeInferencer};
use crate::error::CompilationError;
use crate::store::StoreV;
use crate::text;
use crate::types::{copy_type, fields_v, lemma_type_v, type_v, types_v, Type, TypeId, TypeV};
use vstd::prelude::*;

verus! {

/// The Kit type that stands for a C type that is neither a pointer nor an array.
pub open spec fn plain_kit(t: CTypeV) -> TypeV {
    match t {
        CTypeV::Void => TypeV::Void,
        CTypeV::Char => TypeV::Char,
        CTypeV::Short => TypeV::Int16,
        CTypeV::Int => TypeV::Int,
        CTypeV::Long => TypeV::Int64,
        CTypeV::LongLong => TypeV::Int64,
        CTypeV::Float => TypeV::Float,
        CTypeV::Double => TypeV::Float64,
        CTypeV::LongDouble => TypeV::Float64,
        CTypeV::Bool => TypeV::Bool,
        CTypeV::SignedChar => TypeV::Int8,
        CTypeV::UnsignedChar => TypeV::Uint8,
        CTypeV::UnsignedShort => TypeV::Uint16,
        CTypeV::UnsignedInt => TypeV::Uint32,
        CTypeV::UnsignedLong => TypeV::Uint64,
        CTypeV::UnsignedLongLong => TypeV::Uint64,
        CTypeV::Int8 => TypeV::Int8,
        CTypeV::Int16 => TypeV::Int16,
        CTypeV::Int32 => TypeV::Int32,
        CTypeV::Int64 => TypeV::Int64,
        CTypeV::Uint8 => TypeV::Uint8,
        CTypeV::Uint16 => TypeV::Uint16,
        CTypeV::Uint32 => TypeV::Uint32,
        CTypeV::Uint64 => TypeV::Uint64,
        CTypeV::SizeT => TypeV::Size,
        CTypeV::SSizeT => TypeV::Int64,
        CTypeV::IntPtr => TypeV::Int64,
        CTypeV::UintPtr => TypeV::Uint64,
        CTypeV::PtrDiffT => TypeV::Int64,
        CTypeV::Named(name) => if name == "FILE"@ || name == "va_list"@ {
            TypeV::Ptr(Box::new(TypeV::Void))
        } else if name == "char"@ {
            TypeV::Char
        } else {
            TypeV::Named(name)
        },
        CTypeV::Unknown(name) => TypeV::Named(name),
        _ => TypeV::Ptr(Box::new(TypeV::Void)),
    }
}

/// The Kit type that stands for a C type, with at most `fuel` typedefs followed one inside the
/// other; a typedef beyond that stays a name.
pub open spec fn kit_of(t: CTypeV, d: CDeclarationsV, fuel: nat) -> TypeV
    decreases fuel, t,
{
    let follow = t is Named && fuel > 0;
    let r = if follow { resolved(t, d) } else { t };
    match r {
        CTypeV::Ptr(inner, qs) => if *inner is Char && qs.contains(CQualifier::Const) {
            TypeV::CString
        } else if *inner is Void {
            TypeV::Ptr(Box::new(TypeV::Void))
        } else if follow {
            TypeV::Ptr(Box::new(kit_of(*inner, d, (fuel - 1) as nat)))
        } else {
            match t {
                CTypeV::Ptr(x, _) => TypeV::Ptr(Box::new(kit_of(*x, d, fuel))),
                _ => TypeV::Void,
            }
        },
        CTypeV::Array { element_type, size } => {
            let n = match size {
                Some(n) => n,
                None => 0usize,
            };
            if follow {
                TypeV::CArray(Box::new(kit_of(*element_type, d, (fuel - 1) as nat)), n)
            } else {
                match t {
                    CTypeV::Array { element_type: x, .. } => TypeV::CArray(Box::new(kit_of(*x, d, fuel)), n),
                    _ => TypeV::Void,
                }
            }
        },
        _ => plain_kit(r),
    }
}

/// The Kit type that stands for a C type of a header.
pub open spec fn kit_type_of(t: CTypeV, d: CDeclarationsV) -> TypeV {
    kit_of(t, d, d.typedefs.len())
}

fn has_const(qs: &Vec<CQualifier>) -> (r: bool)
    ensures
        r == qs@.contains(CQualifier::Const),
{
    let mut i: usize = 0;
    while i < qs.len()
        invariant
            i <= qs@.len(),
            forall|j: int| 0 <= j < i ==> qs@[j] != CQualifier::Const,
        decreases qs@.len() - i,
    {
        if qs[i] == CQualifier::Const {
            return true;
        }
        i = i + 1;
    }
    false
}

fn ctype_to_kit_within(ct: &CType, decls: &CDeclarations, fuel: usize) -> (r: Type)
    ensures
        r@ == kit_of(ct@, decls@, fuel as nat),
    decreases fuel, *ct,
{
    proof {
        reveal_with_fuel(type_v, 2);
        reveal_with_fuel(crate::ctypes::c_type_v, 2);
    }
    let named = matches!(ct, CType::Named(_));
    if named && fuel > 0 {
        let res = ct.resolve_typedef(decls);
        return match res {
            CType::Ptr(inner, qs) => if matches!(&**inner, CType::Char) && has_const(qs) {
                Type::CString
            } else if matches!(&**inner, CType::Void) {
                Type::Ptr(Box::new(Type::Void))
            } else {
                Type::Ptr(Box::new(ctype_to_kit_within(inner, decls, fuel - 1)))
            },
            CType::Array { element_type, size } => Type::CArray(
                Box::new(ctype_to_kit_within(element_type, decls, fuel - 1)),
                match size {
                    Some(n) => *n,
                    None => 0,
                },
            ),
            other => plain_to_kit(other),
        };
    }
    match ct {
        CType::Ptr(inner, qs) => if matches!(&**inner, CType::Char) && has_const(qs) {
            Type::CString
        } else if matches!(&**inner, CType::Void) {
            Type::Ptr(Box::new(Type::Void))
        } else {
            Type::Ptr(Box::new(ctype_to_kit_within(inner, decls, fuel)))
        },
        CType::Array { element_type, size } => Type::CArray(
            Box::new(ctype_to_kit_within(element_type, decls, fuel)),
            match size {
                Some(n) => *n,
                None => 0,
            },
        ),
        other => plain_to_kit(other),
    }
}

/// The Kit type of a C type that is neither a pointer nor an array.
fn plain_to_kit(ct: &CType) -> (r: Type)
    requires
        !(ct@ is Ptr) && !(ct@ is Array),
    ensures
        r@ == plain_kit(ct@),
{
    proof {
        reveal_with_fuel(type_v, 2);
    }
    match ct {
        CType::Void => Type::Void,
        CType::Char => Type::Char,
        CType::Short => Type::Int16,
        CType::Int => Type::Int,
        CType::Long => Type::Int64,
        CType::LongLong => Type::Int64,
        CType::Float => Type::Float,
        CType::Double => Type::Float64,
        CType::LongDouble => Type::Float64,
        CType::Bool => Type::Bool,
        CType::SignedChar => Type::Int8,
        CType::UnsignedChar => Type::Uint8,
        CType::UnsignedShort => Type::Uint16,
        CType::UnsignedInt => Type::Uint32,
        CType::UnsignedLong => Type::Uint64,
        CType::UnsignedLongLong => Type::Uint64,
        CType::Int8 => Type::Int8,
        CType::Int16 => Type::Int16,
        CType::Int32 => Type::Int32,
        CType::Int64 => Type::Int64,
        CType::Uint8 => Type::Uint8,
        CType::Uint16 => Type::Uint16,
        CType::Uint32 => Type::Uint32,
        CType::Uint64 => Type::Uint64,
        CType::SizeT => Type::Size,
        CType::SSizeT => Type::Int64,
        CType::IntPtr => Type::Int64,
        CType::UintPtr => Type::Uint64,
        CType::PtrDiffT => Type::Int64,
        CType::Named(name) => if text::text_eq(name.as_str(), "FILE") || text::text_eq(name.as_str(), "va_list") {
            Type::Ptr(Box::new(Type::Void))
        } else if text::text_eq(name.as_str(), "char") {
            Type::Char
        } else {
            Type::Named(name.clone())
        },
        CType::Unknown(name) => Type::Named(name.clone()),
        _ => Type::Ptr(Box::new(Type::Void)),
    }
}

/// Converts a C type to the Kit type that stands for it.
pub fn ctype_to_kit(ct: &CType, decls: &CDeclarations) -> (r: Type)
    ensures
        r@ == kit_type_of(ct@, decls@),
{
    proof {
        assert(decls@.typedefs.len() == decls.typedefs@.len());
    }
    ctype_to_kit_within(ct, decls, decls.typedefs.len())
}

/// The engine with the typedefs from position `i` on registered.
pub open spec fn with_typedefs(e: EnvV, ts: Seq<CTypedefV>, d: CDeclarationsV, i: int) -> EnvV
    decreases ts.len() - i,
{
    if i < 0 || i >= ts.len() {
        e
    } else {
        with_typedefs(
            EnvV {
                store: StoreV {
                    typedefs: e.store.typedefs.insert(ts[i].name, kit_type_of(ts[i].underlying, d)),
                    ..e.store
                },
                ..e
            },
            ts,
            d,
            i + 1,
        )
    }
}

/// The name of a field; an unnamed one has an empty name.
pub open spec fn field_name(f: CFieldV) -> Seq<char> {
    match f.name {
        Some(n) => n,
        None => Seq::empty(),
    }
}

/// The Kit field that stands for a C field, under the given type index.
pub open spec fn kit_field(f: CFieldV, d: CDeclarationsV, id: TypeId) -> FieldV {
    FieldV {
        name: field_name(f),
        ty: id,
        annotation: Some(kit_type_of(f.ty, d)),
        is_const: false,
        default: None,
    }
}

/// The engine with the types of the fields from position `i` on, and the fields.
pub open spec fn with_fields(e: EnvV, fs: Seq<CFieldV>, d: CDeclarationsV, i: int, acc: Seq<FieldV>) -> (EnvV, Seq<FieldV>)
    decreases fs.len() - i,
{
    if i < 0 || i >= fs.len() {
        (e, acc)
    } else {
        with_fields(
            with_known(e, kit_type_of(fs[i].ty, d)),
            fs,
            d,
            i + 1,
            acc.push(kit_field(fs[i], d, next_id(e))),
        )
    }
}

/// A plain struct definition.
pub open spec fn plain_struct(name: Seq<char>, fields: Seq<FieldV>) -> StructDefinitionV {
    StructDefinitionV { name, type_params: Seq::empty(), fields, is_public: true, metadata: Seq::empty() }
}

/// The names and the type indices of fields.
pub open spec fn name_ids(fs: Seq<FieldV>) -> Seq<(Seq<char>, TypeId)> {
    fs.map_values(|f: FieldV| (f.name, f.ty))
}

/// The engine with a struct or union registered; a union is a struct with all its fields.
pub open spec fn with_aggregate(e: EnvV, name: Seq<char>, fields: Seq<CFieldV>, d: CDeclarationsV) -> EnvV {
    let (e1, fs) = with_fields(e, fields, d, 0, Seq::empty());
    let e2 = with_known(e1, TypeV::Struct { name, fields: name_ids(fs) });
    let e3 = def_struct(e2, plain_struct(name, fs));
    EnvV { imported: e3.imported.push(name), ..e3 }
}

/// The engine with the structs from position `i` on registered.
pub open spec fn with_structs(e: EnvV, ss: Seq<CStructV>, d: CDeclarationsV, i: int) -> EnvV
    decreases ss.len() - i,
{
    if i < 0 || i >= ss.len() {
        e
    } else {
        with_structs(with_aggregate(e, ss[i].name, ss[i].fields, d), ss, d, i + 1)
    }
}

/// The engine with the unions from position `i` on registered.
pub open spec fn with_unions(e: EnvV, us: Seq<CUnionV>, d: CDeclarationsV, i: int) -> EnvV
    decreases us.len() - i,
{
    if i < 0 || i >= us.len() {
        e
    } else {
        with_unions(with_aggregate(e, us[i].name, us[i].fields, d), us, d, i + 1)
    }
}

/// The Kit variants that stand for the constants of a C enum.
pub open spec fn kit_variants(parent: Seq<char>, vs: Seq<CEnumVariantV>) -> Seq<EnumVariantV> {
    vs.map_values(
        |v: CEnumVariantV|
            EnumVariantV { name: v.name, parent, args: Seq::empty(), default: None, metadata: Seq::empty() },
    )
}

/// The Kit enum that stands for a C enum.
pub open spec fn kit_enum(c: CEnumV) -> EnumDefinitionV {
    EnumDefinitionV {
        name: c.name,
        type_params: Seq::empty(),
        variants: kit_variants(c.name, c.variants),
        is_public: true,
        metadata: Seq::empty(),
    }
}

/// The engine with the enums from position `i` on registered.
pub open spec fn with_enums(e: EnvV, cs: Seq<CEnumV>, i: int) -> EnvV
    decreases cs.len() - i,
{
    if i < 0 || i >= cs.len() {
        e
    } else {
        with_enums(def_variants(def_enum(e, kit_enum(cs[i])), kit_enum(cs[i]).variants, 0), cs, i + 1)
    }
}

/// The Kit types of parameters.
pub open spec fn kit_params(ps: Seq<CParamV>, d: CDeclarationsV) -> Seq<TypeV> {
    ps.map_values(|p: CParamV| kit_type_of(p.ty, d))
}

/// The engine with the types of the parameters from position `i` on, and their indices.
pub open spec fn with_params(e: EnvV, ts: Seq<TypeV>, i: int, acc: Seq<TypeId>) -> (EnvV, Seq<TypeId>)
    decreases ts.len() - i,
{
    if i < 0 || i >= ts.len() {
        (e, acc)
    } else {
        with_params(with_known(e, ts[i]), ts, i + 1, acc.push(next_id(e)))
    }
}

/// The engine with a function registered, as a function and as a value. A variadic function is
/// left to the calls of unknown functions.
pub open spec fn with_function(e: EnvV, f: CFunctionV, d: CDeclarationsV) -> EnvV {
    if f.is_variadic {
        e
    } else {
        let ret = kit_type_of(f.return_type, d);
        let ts = kit_params(f.params, d);
        let (e1, ids) = with_params(with_known(e, ret), ts, 0, Seq::empty());
        let e2 = def_function(e1, f.name, ids, next_id(e));
        let e3 = with_known(e2, TypeV::Function { param_tys: ts, ret_ty: Box::new(ret) });
        def_global(e3, f.name, next_id(e2))
    }
}

/// The engine with the functions from position `i` on registered.
pub open spec fn with_functions(e: EnvV, fs: Seq<CFunctionV>, d: CDeclarationsV, i: int) -> EnvV
    decreases fs.len() - i,
{
    if i < 0 || i >= fs.len() {
        e
    } else {
        with_functions(with_function(e, fs[i], d), fs, d, i + 1)
    }
}

/// The engine with the global variables from position `i` on registered.
pub open spec fn with_globals(e: EnvV, gs: Seq<CGlobalVarV>, d: CDeclarationsV, i: int) -> EnvV
    decreases gs.len() - i,
{
    if i < 0 || i >= gs.len() {
        e
    } else {
        with_globals(def_global(with_known(e, kit_type_of(gs[i].ty, d)), gs[i].name, next_id(e)), gs, d, i + 1)
    }
}

/// The Kit type of a macro constant.
pub open spec fn macro_type(v: MacroValueV) -> TypeV {
    match v {
        MacroValueV::Int(_) => TypeV::Int,
        MacroValueV::Uint(_) => TypeV::Uint64,
        MacroValueV::Float(_) => TypeV::Float,
        MacroValueV::String(_) => TypeV::CString,
    }
}

/// The engine with the macro constants from position `i` on registered as globals.
pub open spec fn with_macros(e: EnvV, ms: Seq<CMacroConstantV>, i: int) -> EnvV
    decreases ms.len() - i,
{
    if i < 0 || i >= ms.len() {
        e
    } else {
        with_macros(def_global(with_known(e, macro_type(ms[i].value)), ms[i].name, next_id(e)), ms, i + 1)
    }
}

/// The engine with all declarations of a header registered.
pub open spec fn with_declarations(e: EnvV, d: CDeclarationsV) -> EnvV {
    let e1 = with_typedefs(e, d.typedefs, d, 0);
    let e2 = with_structs(e1, d.structs, d, 0);
    let e3 = with_unions(e2, d.unions, d, 0);
    let e4 = with_enums(e3, d.enums, 0);
    let e5 = with_functions(e4, d.functions, d, 0);
    let e6 = with_globals(e5, d.globals, d, 0);
    with_macros(e6, d.macro_constants, 0)
}

fn register_aggregate(name: &String, fields: &Vec<CField>, decls: &CDeclarations, eng: &mut TypeInferencer)
    ensures
        final(eng)@ == with_aggregate(old(eng)@, name@, c_fields_v(fields@), decls@),
{
    broadcast use lemma_type_v;

    let ghost e0 = eng@;
    let ghost fv = c_fields_v(fields@);
    let mut out: Vec<Field> = Vec::new();
    let mut pairs: Vec<(String, TypeId)> = Vec::new();
    let mut i: usize = 0;
    proof {
        assert(field_list_v(out@) =~= Seq::<FieldV>::empty());
    }
    while i < fields.len()
        invariant
            i <= fields@.len(),
            fv == c_fields_v(fields@),
            e0 == old(eng)@,
            with_fields(e0, fv, decls@, 0, Seq::empty()) == with_fields(
                eng@,
                fv,
                decls@,
                i as int,
                field_list_v(out@),
            ),
            fields_v(pairs@) =~= name_ids(field_list_v(out@)),
        decreases fields@.len() - i,
    {
        let f = &fields[i];
        assert(fv[i as int] == f@);
        let ty = ctype_to_kit(&f.ty, decls);
        let id = eng.known(copy_type(&ty));
        let fname = match &f.name {
            Some(n) => n.clone(),
            None => String::new(),
        };
        let pair = (fname.clone(), id);
        let field = Field { name: fname, ty: id, annotation: Some(ty), is_const: false, default: None };
        proof {
            assert(field_list_v(out@.push(field)) =~= field_list_v(out@).push(field_v(field)));
            assert(fields_v(pairs@.push(pair)) =~= fields_v(pairs@).push((pair.0@, id)));
            assert(name_ids(field_list_v(out@).push(field_v(field))) =~= name_ids(field_list_v(out@)).push(
                (pair.0@, id),
            ));
        }
        out.push(field);
        pairs.push(pair);
        i = i + 1;
    }
    let struct_ty = Type::Struct { name: name.clone(), fields: pairs };
    let _id = eng.known(struct_ty);
    let type_params: Vec<TypeParam> = Vec::new();
    let metadata: Vec<Metadata> = Vec::new();
    let def = StructDefinition { name: name.clone(), type_params, fields: out, is_public: true, metadata };
    proof {
        assert(def@.type_params =~= Seq::<TypeParamV>::empty());
        assert(def@.metadata =~= Seq::<MetadataV>::empty());
    }
    eng.symbols.define_struct(def);
    eng.mark_imported_struct(name.clone());
}

fn register_function(f: &crate::ctypes::CFunction, decls: &CDeclarations, eng: &mut TypeInferencer)
    ensures
        final(eng)@ == with_function(old(eng)@, f@, decls@),
{
    broadcast use lemma_type_v;

    if f.is_variadic {
        return ;
    }
    let ghost ts = kit_params(f@.params, decls@);
    let ret = ctype_to_kit(&f.return_type, decls);
    let ret_id = eng.known(copy_type(&ret));
    let ghost e1 = eng@;
    let mut ids: Vec<TypeId> = Vec::new();
    let mut tys: Vec<Type> = Vec::new();
    let mut i: usize = 0;
    while i < f.params.len()
        invariant
            i <= f.params@.len(),
            ts == kit_params(f@.params, decls@),
            f@.params == c_params_v(f.params@),
            with_params(e1, ts, 0, Seq::empty()) == with_params(eng@, ts, i as int, ids@),
            types_v(tys@) =~= ts.take(i as int),
        decreases f.params@.len() - i,
    {
        assert(f@.params[i as int] == f.params@[i as int]@);
        let t = ctype_to_kit(&f.params[i].ty, decls);
        let id = eng.known(copy_type(&t));
        proof {
            assert(ts.take(i + 1) =~= ts.take(i as int).push(t@));
            assert(types_v(tys@.push(t)) =~= types_v(tys@).push(t@));
        }
        ids.push(id);
        tys.push(t);
        i = i + 1;
    }
    proof {
        assert(ts.take(ts.len() as int) =~= ts);
    }
    eng.symbols.define_function(f.name.as_str(), ids, ret_id);
    let fn_ty = Type::Function { param_tys: tys, ret_ty: Box::new(ret) };
    let fn_id = eng.known(fn_ty);
    eng.symbols.define_global(f.name.as_str(), fn_id);
}

fn register_enum(c: &crate::ctypes::CEnum, eng: &mut TypeInferencer)
    ensures
        final(eng)@ == def_variants(def_enum(old(eng)@, kit_enum(c@)), kit_enum(c@).variants, 0),
{
    let mut variants: Vec<EnumVariant> = Vec::new();
    let ghost all = kit_variants(c@.name, c@.variants);
    let mut i: usize = 0;
    while i < c.variants.len()
        invariant
            i <= c.variants@.len(),
            all == kit_variants(c@.name, c@.variants),
            enum_variants_v(variants@) =~= all.take(i as int),
        decreases c.variants@.len() - i,
    {
        let args: Vec<Field> = Vec::new();
        let metadata: Vec<Metadata> = Vec::new();
        let v = EnumVariant { name: c.variants[i].name.clone(), parent: c.name.clone(), args, default: None, metadata };
        proof {
            assert(v@.args =~= Seq::<FieldV>::empty());
            assert(v@.metadata =~= Seq::<MetadataV>::empty());
            assert(c@.variants[i as int] == c.variants@[i as int]@);
            assert(all.take(i + 1) =~= all.take(i as int).push(v@));
            assert(enum_variants_v(variants@.push(v)) =~= enum_variants_v(variants@).push(v@));
        }
        variants.push(v);
        i = i + 1;
    }
    proof {
        assert(all.take(all.len() as int) =~= all);
    }
    let copies = crate::decl::copy_enum_variants(&variants);
    let type_params: Vec<TypeParam> = Vec::new();
    let metadata: Vec<Metadata> = Vec::new();
    let def = EnumDefinition { name: c.name.clone(), type_params, variants, is_public: true, metadata };
    proof {
        assert(def@.type_params =~= Seq::<TypeParamV>::empty());
        assert(def@.metadata =~= Seq::<MetadataV>::empty());
        assert(def@ == kit_enum(c@));
    }
    eng.symbols.define_enum(def);
    eng.define_variants(&copies);
}

/// Registers the declarations of a C header: typedefs first, since the other declarations refer
/// to them, then structs, unions, enums, functions, global variables and macro constants.
pub fn register_declarations(decls: CDeclarations, eng: &mut TypeInferencer) -> (r: Result<(), CompilationError>)
    ensures
        r is Ok,
        final(eng)@ == with_declarations(old(eng)@, decls@),
{
    add_declarations(&decls, eng);
    Ok(())
}

/// Registers all declarations of a header.
pub fn add_declarations(decls: &CDeclarations, eng: &mut TypeInferencer)
    ensures
        final(eng)@ == with_declarations(old(eng)@, decls@),
{
    let ghost e0 = eng@;
    let ghost d = decls@;
    let mut i: usize = 0;
    while i < decls.typedefs.len()
        invariant
            i <= decls.typedefs@.len(),
            d == decls@,
            with_typedefs(e0, d.typedefs, d, 0) == with_typedefs(eng@, d.typedefs, d, i as int),
        decreases decls.typedefs@.len() - i,
    {
        assert(d.typedefs[i as int] == decls.typedefs@[i as int]@);
        let t = ctype_to_kit(&decls.typedefs[i].underlying, decls);
        eng.store.register_typedef(decls.typedefs[i].name.clone(), t);
        i = i + 1;
    }
    let ghost e1 = eng@;
    let mut i: usize = 0;
    while i < decls.structs.len()
        invariant
            i <= decls.structs@.len(),
            d == decls@,
            with_structs(e1, d.structs, d, 0) == with_structs(eng@, d.structs, d, i as int),
        decreases decls.structs@.len() - i,
    {
        assert(d.structs[i as int] == decls.structs@[i as int]@);
        register_aggregate(&decls.structs[i].name, &decls.structs[i].fields, decls, eng);
        i = i + 1;
    }
    let ghost e2 = eng@;
    let mut i: usize = 0;
    while i < decls.unions.len()
        invariant
            i <= decls.unions@.len(),
            d == decls@,
            with_unions(e2, d.unions, d, 0) == with_unions(eng@, d.unions, d, i as int),
        decreases decls.unions@.len() - i,
    {
        assert(d.unions[i as int] == decls.unions@[i as int]@);
        register_aggregate(&decls.unions[i].name, &decls.unions[i].fields, decls, eng);
        i = i + 1;
    }
    let ghost e3 = eng@;
    let mut i: usize = 0;
    while i < decls.enums.len()
        invariant
            i <= decls.enums@.len(),
            d == decls@,
            with_enums(e3, d.enums, 0) == with_enums(eng@, d.enums, i as int),
        decreases decls.enums@.len() - i,
    {
        assert(d.enums[i as int] == decls.enums@[i as int]@);
        register_enum(&decls.enums[i], eng);
        i = i + 1;
    }
    let ghost e4 = eng@;
    let mut i: usize = 0;
    while i < decls.functions.len()
        invariant
            i <= decls.functions@.len(),
            d == decls@,
            with_functions(e4, d.functions, d, 0) == with_functions(eng@, d.functions, d, i as int),
        decreases decls.functions@.len() - i,
    {
        assert(d.functions[i as int] == decls.functions@[i as int]@);
        register_function(&decls.functions[i], decls, eng);
        i = i + 1;
    }
    let ghost e5 = eng@;
    let mut i: usize = 0;
    while i < decls.globals.len()
        invariant
            i <= decls.globals@.len(),
            d == decls@,
            with_globals(e5, d.globals, d, 0) == with_globals(eng@, d.globals, d, i as int),
        decreases decls.globals@.len() - i,
    {
        assert(d.globals[i as int] == decls.globals@[i as int]@);
        let t = ctype_to_kit(&decls.globals[i].ty, decls);
        let id = eng.known(t);
        eng.symbols.define_global(decls.globals[i].name.as_str(), id);
        i = i + 1;
    }
    let ghost e6 = eng@;
    let mut i: usize = 0;
    while i < decls.macro_constants.len()
        invariant
            i <= decls.macro_constants@.len(),
            d == decls@,
            with_macros(e6, d.macro_constants, 0) == with_macros(eng@, d.macro_constants, i as int),
        decreases decls.macro_constants@.len() - i,
    {
        assert(d.macro_constants[i as int] == decls.macro_constants@[i as int]@);
        let t = match &decls.macro_constants[i].value {
            MacroValue::Int(_) => Type::Int,
            MacroValue::Uint(_) => Type::Uint64,
            MacroValue::Float(_) => Type::Float,
            MacroValue::String(_) => Type::CString,
        };
        let id = eng.known(t);
        eng.symbols.define_global(decls.macro_constants[i].name.as_str(), id);
        i = i + 1;
    }
}

} // verus!
