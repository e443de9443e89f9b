//! Kit types and their names in C.
use crate::hash;
use crate::text;
use vstd::prelude::*;

verus! {

/// An index into the table of inferred types.
#[derive(Clone, Copy, Debug, PartialEq, Eq, Hash, Structural)]
pub struct TypeId(pub usize);

impl Default for TypeId {
    fn default() -> (r: Self)
        ensures
            r == TypeId(0),
    {
        TypeId(0)
    }
}

/// A Kit type.
#[derive(Debug, PartialEq)]
pub enum Type {
    Void,
    Int,
    Float,
    Bool,
    Char,
    CString,
    Size,
    Int8,
    Int16,
    Int32,
    Int64,
    Uint8,
    Uint16,
    Uint32,
    Uint64,
    Float32,
    Float64,
    Named(String),
    TypeParam(String),
    Ptr(Box<Type>),
    Tuple(Vec<Type>),
    CArray(Box<Type>, usize),
    Function { param_tys: Vec<Type>, ret_ty: Box<Type> },
    Instance { base: String, args: Vec<Type> },
    Struct { name: String, fields: Vec<(String, TypeId)> },
}

/// The contents of a Kit type.
pub enum TypeV {
    Void,
    Int,
    Float,
    Bool,
    Char,
    CString,
    Size,
    Int8,
    Int16,
    Int32,
    Int64,
    Uint8,
    Uint16,
    Uint32,
    Uint64,
    Float32,
    Float64,
    Named(Seq<char>),
    TypeParam(Seq<char>),
    Ptr(Box<TypeV>),
    Tuple(Seq<TypeV>),
    CArray(Box<TypeV>, usize),
    Function { param_tys: Seq<TypeV>, ret_ty: Box<TypeV> },
    Instance { base: Seq<char>, args: Seq<TypeV> },
    Struct { name: Seq<char>, fields: Seq<(Seq<char>, TypeId)> },
}

/// The contents of a list of named type indices.
pub open spec fn fields_v(fs: Seq<(String, TypeId)>) -> Seq<(Seq<char>, TypeId)> {
    fs.map_values(|f: (String, TypeId)| (f.0@, f.1))
}

impl View for Type {
    type V = TypeV;

    open spec fn view(&self) -> TypeV {
        type_v(*self)
    }
}

/// The contents of a Kit type.
pub open spec fn type_v(t: Type) -> TypeV
    decreases t,
{
    match t {
        Type::Void => TypeV::Void,
        Type::Int => TypeV::Int,
        Type::Float => TypeV::Float,
        Type::Bool => TypeV::Bool,
        Type::Char => TypeV::Char,
        Type::CString => TypeV::CString,
        Type::Size => TypeV::Size,
        Type::Int8 => TypeV::Int8,
        Type::Int16 => TypeV::Int16,
        Type::Int32 => TypeV::Int32,
        Type::Int64 => TypeV::Int64,
        Type::Uint8 => TypeV::Uint8,
        Type::Uint16 => TypeV::Uint16,
        Type::Uint32 => TypeV::Uint32,
        Type::Uint64 => TypeV::Uint64,
        Type::Float32 => TypeV::Float32,
        Type::Float64 => TypeV::Float64,
        Type::Named(s) => TypeV::Named(s@),
        Type::TypeParam(s) => TypeV::TypeParam(s@),
        Type::Ptr(x) => TypeV::Ptr(Box::new(type_v(*x))),
        Type::Tuple(xs) => TypeV::Tuple(
            Seq::new(xs@.len(), |i: int| if 0 <= i < xs@.len() { type_v(xs@[i]) } else { TypeV::Void }),
        ),
        Type::CArray(x, n) => TypeV::CArray(Box::new(type_v(*x)), n),
        Type::Function { param_tys, ret_ty } => TypeV::Function {
            param_tys: Seq::new(
                param_tys@.len(),
                |i: int| if 0 <= i < param_tys@.len() { type_v(param_tys@[i]) } else { TypeV::Void },
            ),
            ret_ty: Box::new(type_v(*ret_ty)),
        },
        Type::Instance { base, args } => TypeV::Instance {
            base: base@,
            args: Seq::new(
                args@.len(),
                |i: int| if 0 <= i < args@.len() { type_v(args@[i]) } else { TypeV::Void },
            ),
        },
        Type::Struct { name, fields } => TypeV::Struct { name: name@, fields: fields_v(fields@) },
    }
}

/// The contents of a list of types.
pub open spec fn types_v(ts: Seq<Type>) -> Seq<TypeV> {
    ts.map_values(|t: Type| type_v(t))
}

/// The contents of an optional type.
pub open spec fn opt_type_v(t: Option<Type>) -> Option<TypeV> {
    match t {
        Some(x) => Some(type_v(x)),
        None => None,
    }
}

/// How the view of a type with a list of types in it is made up.
pub broadcast proof fn lemma_type_v(t: Type)
    ensures
        #![trigger type_v(t)]
        match t {
            Type::Tuple(xs) => type_v(t) == TypeV::Tuple(types_v(xs@)),
            Type::Function { param_tys, ret_ty } => type_v(t) is Function && type_v(t)->param_tys == types_v(
                param_tys@,
            ),
            Type::Instance { base, args } => type_v(t) == (TypeV::Instance {
                base: base@,
                args: types_v(args@),
            }),
            _ => true,
        },
{
    match t {
        Type::Tuple(xs) => {
            assert(type_v(t)->Tuple_0 =~= types_v(xs@));
        },
        Type::Function { param_tys, ret_ty } => {
            assert(type_v(t)->param_tys =~= types_v(param_tys@));
        },
        Type::Instance { base, args } => {
            assert(type_v(t)->args =~= types_v(args@));
        },
        _ => {},
    }
}

/// The name of the C struct that stands for a tuple of elements with the given C names.
pub open spec fn tuple_name(elems: Seq<Seq<char>>) -> Seq<char> {
    "KitTuple_"@ + hash::djb2_of(text::joined(elems, "|"@))
}

/// The name of the realized form of the template `base` for arguments with the given C names:
/// the template's name and a hash over it and the arguments.
pub open spec fn realized_name(base: Seq<char>, args: Seq<Seq<char>>) -> Seq<char> {
    base + "_"@ + hash::djb2_of(base + "|"@ + text::joined(args, "|"@))
}

/// The C spelling of a type.
pub open spec fn c_name(t: TypeV) -> Seq<char>
    decreases t,
{
    match t {
        TypeV::Void => "void"@,
        TypeV::Int => "int"@,
        TypeV::Float => "float"@,
        TypeV::Bool => "bool"@,
        TypeV::Char => "char"@,
        TypeV::CString => "char*"@,
        TypeV::Size => "size_t"@,
        TypeV::Int8 => "int8_t"@,
        TypeV::Int16 => "int16_t"@,
        TypeV::Int32 => "int32_t"@,
        TypeV::Int64 => "int64_t"@,
        TypeV::Uint8 => "uint8_t"@,
        TypeV::Uint16 => "uint16_t"@,
        TypeV::Uint32 => "uint32_t"@,
        TypeV::Uint64 => "uint64_t"@,
        TypeV::Float32 => "float"@,
        TypeV::Float64 => "double"@,
        TypeV::Named(s) => s,
        TypeV::TypeParam(s) => s,
        TypeV::Ptr(x) => c_name(*x) + "*"@,
        TypeV::Tuple(xs) => tuple_name(c_names(xs)),
        TypeV::CArray(x, n) => c_name(*x) + "["@ + text::decimal_text(n as nat) + "]"@,
        TypeV::Function { param_tys, ret_ty } => c_name(*ret_ty) + " (*)("@ + text::joined(
            c_names(param_tys),
            ", "@,
        ) + ")"@,
        TypeV::Instance { base, args } => realized_name(base, c_names(args)),
        TypeV::Struct { name, .. } => name,
    }
}

/// The C spellings of a list of types.
pub open spec fn c_names(ts: Seq<TypeV>) -> Seq<Seq<char>>
    decreases ts,
{
    Seq::new(ts.len(), |i: int| if 0 <= i < ts.len() { c_name(ts[i]) } else { Seq::empty() })
}

/// The type that a name in Kit source stands for: a builtin, or a declared type.
pub open spec fn kit_type(name: Seq<char>) -> TypeV {
    if name == "Void"@ { TypeV::Void }
    else if name == "Int"@ { TypeV::Int }
    else if name == "Float"@ { TypeV::Float }
    else if name == "Bool"@ { TypeV::Bool }
    else if name == "Char"@ { TypeV::Char }
    else if name == "CString"@ { TypeV::CString }
    else if name == "Size"@ { TypeV::Size }
    else if name == "Int8"@ { TypeV::Int8 }
    else if name == "Int16"@ { TypeV::Int16 }
    else if name == "Int32"@ { TypeV::Int32 }
    else if name == "Int64"@ { TypeV::Int64 }
    else if name == "Uint8"@ { TypeV::Uint8 }
    else if name == "Uint16"@ { TypeV::Uint16 }
    else if name == "Uint32"@ { TypeV::Uint32 }
    else if name == "Uint64"@ { TypeV::Uint64 }
    else if name == "Float32"@ { TypeV::Float32 }
    else if name == "Float64"@ { TypeV::Float64 }
    else { TypeV::Named(name) }
}

/// Copies a list of named type indices.
pub fn copy_fields(fs: &Vec<(String, TypeId)>) -> (r: Vec<(String, TypeId)>)
    ensures
        fields_v(r@) == fields_v(fs@),
{
    let mut out: Vec<(String, TypeId)> = Vec::new();
    let mut i: usize = 0;
    while i < fs.len()
        invariant
            i <= fs@.len(),
            fields_v(out@) =~= fields_v(fs@).take(i as int),
        decreases fs@.len() - i,
    {
        let name = fs[i].0.clone();
        let id = fs[i].1;
        proof {
            assert(fields_v(fs@).take(i + 1) =~= fields_v(fs@).take(i as int).push((name@, id)));
            assert(fields_v(out@.push((name, id))) =~= fields_v(out@).push((name@, id)));
        }
        out.push((name, id));
        i = i + 1;
    }
    proof {
        assert(fields_v(fs@).take(fs@.len() as int) =~= fields_v(fs@));
    }
    out
}

/// Copies a type.
pub fn copy_type(t: &Type) -> (r: Type)
    ensures
        r@ == t@,
    decreases *t,
{
    broadcast use lemma_type_v;

    match t {
        Type::Void => Type::Void,
        Type::Int => Type::Int,
        Type::Float => Type::Float,
        Type::Bool => Type::Bool,
        Type::Char => Type::Char,
        Type::CString => Type::CString,
        Type::Size => Type::Size,
        Type::Int8 => Type::Int8,
        Type::Int16 => Type::Int16,
        Type::Int32 => Type::Int32,
        Type::Int64 => Type::Int64,
        Type::Uint8 => Type::Uint8,
        Type::Uint16 => Type::Uint16,
        Type::Uint32 => Type::Uint32,
        Type::Uint64 => Type::Uint64,
        Type::Float32 => Type::Float32,
        Type::Float64 => Type::Float64,
        Type::Named(s) => Type::Named(s.clone()),
        Type::TypeParam(s) => Type::TypeParam(s.clone()),
        Type::Ptr(x) => Type::Ptr(Box::new(copy_type(x))),
        Type::Tuple(xs) => Type::Tuple(copy_types(xs)),
        Type::CArray(x, n) => Type::CArray(Box::new(copy_type(x)), *n),
        Type::Function { param_tys, ret_ty } => Type::Function {
            param_tys: copy_types(param_tys),
            ret_ty: Box::new(copy_type(ret_ty)),
        },
        Type::Instance { base, args } => Type::Instance { base: base.clone(), args: copy_types(args) },
        Type::Struct { name, fields } => Type::Struct { name: name.clone(), fields: copy_fields(fields) },
    }
}

impl Clone for Type {
    fn clone(&self) -> (r: Self)
        ensures
            r@ == self@,
    {
        copy_type(self)
    }
}

/// Copies a list of types.
pub fn copy_types(ts: &Vec<Type>) -> (r: Vec<Type>)
    ensures
        types_v(r@) == types_v(ts@),
    decreases *ts,
{
    let mut out: Vec<Type> = Vec::new();
    let mut i: usize = 0;
    while i < ts.len()
        invariant
            i <= ts@.len(),
            types_v(out@) =~= types_v(ts@).take(i as int),
        decreases ts@.len() - i,
    {
        let c = copy_type(&ts[i]);
        proof {
            assert(types_v(ts@).take(i + 1) =~= types_v(ts@).take(i as int).push(c@));
            assert(types_v(out@.push(c)) =~= types_v(out@).push(c@));
        }
        out.push(c);
        i = i + 1;
    }
    proof {
        assert(types_v(ts@).take(ts@.len() as int) =~= types_v(ts@));
    }
    out
}

/// Copies an optional type.
pub fn copy_opt_type(t: &Option<Type>) -> (r: Option<Type>)
    ensures
        opt_type_v(r) == opt_type_v(*t),
{
    match t {
        Some(x) => Some(copy_type(x)),
        None => None,
    }
}

impl Type {
    /// The type that a name in Kit source stands for.
    pub fn from_kit(name: &str) -> (r: Type)
        ensures
            r@ == kit_type(name@),
    {
        if text::text_eq(name, "Void") { Type::Void }
        else if text::text_eq(name, "Int") { Type::Int }
        else if text::text_eq(name, "Float") { Type::Float }
        else if text::text_eq(name, "Bool") { Type::Bool }
        else if text::text_eq(name, "Char") { Type::Char }
        else if text::text_eq(name, "CString") { Type::CString }
        else if text::text_eq(name, "Size") { Type::Size }
        else if text::text_eq(name, "Int8") { Type::Int8 }
        else if text::text_eq(name, "Int16") { Type::Int16 }
        else if text::text_eq(name, "Int32") { Type::Int32 }
        else if text::text_eq(name, "Int64") { Type::Int64 }
        else if text::text_eq(name, "Uint8") { Type::Uint8 }
        else if text::text_eq(name, "Uint16") { Type::Uint16 }
        else if text::text_eq(name, "Uint32") { Type::Uint32 }
        else if text::text_eq(name, "Uint64") { Type::Uint64 }
        else if text::text_eq(name, "Float32") { Type::Float32 }
        else if text::text_eq(name, "Float64") { Type::Float64 }
        else { Type::Named(name.to_owned()) }
    }

    /// The C spelling of this type.
    pub fn to_c_name(&self) -> (r: String)
        ensures
            r@ == c_name(self@),
        decreases *self,
    {
        broadcast use lemma_type_v;

        match self {
            Type::Void => "void".to_owned(),
            Type::Int => "int".to_owned(),
            Type::Float => "float".to_owned(),
            Type::Bool => "bool".to_owned(),
            Type::Char => "char".to_owned(),
            Type::CString => "char*".to_owned(),
            Type::Size => "size_t".to_owned(),
            Type::Int8 => "int8_t".to_owned(),
            Type::Int16 => "int16_t".to_owned(),
            Type::Int32 => "int32_t".to_owned(),
            Type::Int64 => "int64_t".to_owned(),
            Type::Uint8 => "uint8_t".to_owned(),
            Type::Uint16 => "uint16_t".to_owned(),
            Type::Uint32 => "uint32_t".to_owned(),
            Type::Uint64 => "uint64_t".to_owned(),
            Type::Float32 => "float".to_owned(),
            Type::Float64 => "double".to_owned(),
            Type::Named(s) => s.clone(),
            Type::TypeParam(s) => s.clone(),
            Type::Ptr(x) => x.to_c_name().concat("*"),
            Type::Tuple(xs) => tuple_name_from(&names_in_c(xs)),
            Type::CArray(x, n) => x.to_c_name().concat("[").concat(
                text::decimal(*n as u64).as_str(),
            ).concat("]"),
            Type::Function { param_tys, ret_ty } => ret_ty.to_c_name().concat(" (*)(").concat(
                text::join(&names_in_c(param_tys), ", ").as_str(),
            ).concat(")"),
            Type::Instance { base, args } => realized_name_from(base.as_str(), &names_in_c(args)),
            Type::Struct { name, fields: _ } => name.clone(),
        }
    }
}

/// The C spellings of a list of types.
pub fn names_in_c(ts: &Vec<Type>) -> (r: Vec<String>)
    ensures
        text::texts(r@) == c_names(types_v(ts@)),
    decreases *ts,
{
    let mut out: Vec<String> = Vec::new();
    let mut i: usize = 0;
    while i < ts.len()
        invariant
            i <= ts@.len(),
            text::texts(out@) =~= c_names(types_v(ts@)).take(i as int),
        decreases ts@.len() - i,
    {
        let c = ts[i].to_c_name();
        proof {
            assert(c_names(types_v(ts@)).take(i + 1) =~= c_names(types_v(ts@)).take(i as int).push(c@));
            assert(text::texts(out@.push(c)) =~= text::texts(out@).push(c@));
        }
        out.push(c);
        i = i + 1;
    }
    proof {
        assert(c_names(types_v(ts@)).take(ts@.len() as int) =~= c_names(types_v(ts@)));
    }
    out
}

fn tuple_name_from(elems: &Vec<String>) -> (r: String)
    ensures
        r@ == tuple_name(text::texts(elems@)),
{
    let key = text::join(elems, "|");
    "KitTuple_".to_owned().concat(hash::djb2_str(key.as_str()).as_str())
}

fn realized_name_from(base: &str, args: &Vec<String>) -> (r: String)
    ensures
        r@ == realized_name(base@, text::texts(args@)),
{
    let key = base.to_owned().concat("|").concat(text::join(args, "|").as_str());
    base.to_owned().concat("_").concat(hash::djb2_str(key.as_str()).as_str())
}

/// The name of the C struct that stands for a tuple type.
pub fn tuple_c_name(elems: &Vec<Type>) -> (r: String)
    ensures
        r@ == tuple_name(c_names(types_v(elems@))),
{
    tuple_name_from(&names_in_c(elems))
}

/// Deterministic name of the realized form of a generic template for concrete arguments, so
/// that identical applications share one C symbol.
pub fn monomorph_name(base: &str, args: &Vec<Type>) -> (r: String)
    ensures
        r@ == realized_name(base@, c_names(types_v(args@))),
{
    realized_name_from(base, &names_in_c(args))
}

/// Whether two lists hold the same named type indices.
fn same_fields(a: &Vec<(String, TypeId)>, b: &Vec<(String, TypeId)>) -> (r: bool)
    ensures
        r == (fields_v(a@) == fields_v(b@)),
{
    if a.len() != b.len() {
        proof {
            assert(fields_v(a@).len() != fields_v(b@).len());
        }
        return false;
    }
    let mut i: usize = 0;
    while i < a.len()
        invariant
            i <= a@.len() == b@.len(),
            forall|j: int| 0 <= j < i ==> fields_v(a@)[j] == fields_v(b@)[j],
        decreases a@.len() - i,
    {
        if !(a[i].0 == b[i].0) || a[i].1.0 != b[i].1.0 {
            proof {
                assert(fields_v(a@)[i as int] != fields_v(b@)[i as int]);
            }
            return false;
        }
        i = i + 1;
    }
    proof {
        assert(fields_v(a@) =~= fields_v(b@));
    }
    true
}

/// Whether two lists hold the same types.
pub fn same_types(a: &Vec<Type>, b: &Vec<Type>) -> (r: bool)
    ensures
        r == (types_v(a@) == types_v(b@)),
    decreases *a,
{
    if a.len() != b.len() {
        proof {
            assert(types_v(a@).len() != types_v(b@).len());
        }
        return false;
    }
    let mut i: usize = 0;
    while i < a.len()
        invariant
            i <= a@.len() == b@.len(),
            forall|j: int| 0 <= j < i ==> types_v(a@)[j] == types_v(b@)[j],
        decreases a@.len() - i,
    {
        if !same_type(&a[i], &b[i]) {
            proof {
                assert(types_v(a@)[i as int] != types_v(b@)[i as int]);
            }
            return false;
        }
        i = i + 1;
    }
    proof {
        assert(types_v(a@) =~= types_v(b@));
    }
    true
}

/// Whether two types are the same.
pub fn same_type(a: &Type, b: &Type) -> (r: bool)
    ensures
        r == (a@ == b@),
    decreases *a,
{
    broadcast use lemma_type_v;

    match (a, b) {
        (Type::Void, Type::Void) => true,
        (Type::Int, Type::Int) => true,
        (Type::Float, Type::Float) => true,
        (Type::Bool, Type::Bool) => true,
        (Type::Char, Type::Char) => true,
        (Type::CString, Type::CString) => true,
        (Type::Size, Type::Size) => true,
        (Type::Int8, Type::Int8) => true,
        (Type::Int16, Type::Int16) => true,
        (Type::Int32, Type::Int32) => true,
        (Type::Int64, Type::Int64) => true,
        (Type::Uint8, Type::Uint8) => true,
        (Type::Uint16, Type::Uint16) => true,
        (Type::Uint32, Type::Uint32) => true,
        (Type::Uint64, Type::Uint64) => true,
        (Type::Float32, Type::Float32) => true,
        (Type::Float64, Type::Float64) => true,
        (Type::Named(x), Type::Named(y)) => *x == *y,
        (Type::TypeParam(x), Type::TypeParam(y)) => *x == *y,
        (Type::Ptr(x), Type::Ptr(y)) => same_type(x, y),
        (Type::Tuple(x), Type::Tuple(y)) => same_types(x, y),
        (Type::CArray(x, n), Type::CArray(y, m)) => *n == *m && same_type(x, y),
        (Type::Function { param_tys: p, ret_ty: x }, Type::Function { param_tys: q, ret_ty: y }) => same_types(p, q)
            && same_type(x, y),
        (Type::Instance { base: x, args: p }, Type::Instance { base: y, args: q }) => *x == *y && same_types(p, q),
        (Type::Struct { name: x, fields: p }, Type::Struct { name: y, fields: q }) => *x == *y && same_fields(p, q),
        _ => false,
    }
}

} // verus!
