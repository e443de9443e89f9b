//! C types and declarations, as headers give them.
use crate::escape::opt_text;
use crate::text;
use vstd::prelude::*;

verus! {

/// A qualifier of a C type.
#[derive(Clone, Copy, Debug, PartialEq, Eq, Structural)]
pub enum CQualifier {
    Const,
    Volatile,
    Restrict,
}

/// A C type.
#[derive(Debug, PartialEq)]
pub enum CType {
    Void,
    Char,
    Short,
    Int,
    Long,
    LongLong,
    Float,
    Double,
    LongDouble,
    Bool,
    SignedChar,
    UnsignedChar,
    UnsignedShort,
    UnsignedInt,
    UnsignedLong,
    UnsignedLongLong,
    Int8,
    Int16,
    Int32,
    Int64,
    Uint8,
    Uint16,
    Uint32,
    Uint64,
    SizeT,
    SSizeT,
    IntPtr,
    UintPtr,
    PtrDiffT,
    /// A struct, enum or typedef name.
    Named(String),
    /// A pointer to a type, with its qualifiers.
    Ptr(Box<CType>, Vec<CQualifier>),
    FunctionPtr { return_type: Box<CType>, param_types: Vec<CType>, is_variadic: bool },
    Array { element_type: Box<CType>, size: Option<usize> },
    /// A type that is not understood.
    Unknown(String),
}

/// The contents of a C type.
pub enum CTypeV {
    Void,
    Char,
    Short,
    Int,
    Long,
    LongLong,
    Float,
    Double,
    LongDouble,
    Bool,
    SignedChar,
    UnsignedChar,
    UnsignedShort,
    UnsignedInt,
    UnsignedLong,
    UnsignedLongLong,
    Int8,
    Int16,
    Int32,
    Int64,
    Uint8,
    Uint16,
    Uint32,
    Uint64,
    SizeT,
    SSizeT,
    IntPtr,
    UintPtr,
    PtrDiffT,
    /// A struct, enum or typedef name.
    Named(Seq<char>),
    /// A pointer to a type, with its qualifiers.
    Ptr(Box<CTypeV>, Seq<CQualifier>),
    FunctionPtr { return_type: Box<CTypeV>, param_types: Seq<CTypeV>, is_variadic: bool },
    Array { element_type: Box<CTypeV>, size: Option<usize> },
    /// A type that is not understood.
    Unknown(Seq<char>),
}

/// The contents of a C type.
pub open spec fn c_type_v(t: CType) -> CTypeV
    decreases t,
{
    match t {
        CType::Void => CTypeV::Void,
        CType::Char => CTypeV::Char,
        CType::Short => CTypeV::Short,
        CType::Int => CTypeV::Int,
        CType::Long => CTypeV::Long,
        CType::LongLong => CTypeV::LongLong,
        CType::Float => CTypeV::Float,
        CType::Double => CTypeV::Double,
        CType::LongDouble => CTypeV::LongDouble,
        CType::Bool => CTypeV::Bool,
        CType::SignedChar => CTypeV::SignedChar,
        CType::UnsignedChar => CTypeV::UnsignedChar,
        CType::UnsignedShort => CTypeV::UnsignedShort,
        CType::UnsignedInt => CTypeV::UnsignedInt,
        CType::UnsignedLong => CTypeV::UnsignedLong,
        CType::UnsignedLongLong => CTypeV::UnsignedLongLong,
        CType::Int8 => CTypeV::Int8,
        CType::Int16 => CTypeV::Int16,
        CType::Int32 => CTypeV::Int32,
        CType::Int64 => CTypeV::Int64,
        CType::Uint8 => CTypeV::Uint8,
        CType::Uint16 => CTypeV::Uint16,
        CType::Uint32 => CTypeV::Uint32,
        CType::Uint64 => CTypeV::Uint64,
        CType::SizeT => CTypeV::SizeT,
        CType::SSizeT => CTypeV::SSizeT,
        CType::IntPtr => CTypeV::IntPtr,
        CType::UintPtr => CTypeV::UintPtr,
        CType::PtrDiffT => CTypeV::PtrDiffT,
        CType::Named(s) => CTypeV::Named(s@),
        CType::Ptr(x, q) => CTypeV::Ptr(Box::new(c_type_v(*x)), q@),
        CType::FunctionPtr { return_type, param_types, is_variadic } => CTypeV::FunctionPtr {
            return_type: Box::new(c_type_v(*return_type)),
            param_types: Seq::new(
                param_types@.len(),
                |i: int| if 0 <= i < param_types@.len() { c_type_v(param_types@[i]) } else { CTypeV::Void },
            ),
            is_variadic,
        },
        CType::Array { element_type, size } => CTypeV::Array { element_type: Box::new(c_type_v(*element_type)), size },
        CType::Unknown(s) => CTypeV::Unknown(s@),
    }
}

impl View for CType {
    type V = CTypeV;

    open spec fn view(&self) -> CTypeV {
        c_type_v(*self)
    }
}

/// The contents of a list of C types.
pub open spec fn c_types_v(ts: Seq<CType>) -> Seq<CTypeV> {
    ts.map_values(|t: CType| c_type_v(t))
}

/// How the view of a function pointer type is made up.
pub broadcast proof fn lemma_c_type_v(t: CType)
    ensures
        #![trigger c_type_v(t)]
        match t {
            CType::FunctionPtr { return_type, param_types, is_variadic } => c_type_v(t) is FunctionPtr
                && c_type_v(t)->param_types == c_types_v(param_types@),
            _ => true,
        },
{
    match t {
        CType::FunctionPtr { return_type, param_types, is_variadic } => {
            assert(c_type_v(t)->param_types =~= c_types_v(param_types@));
        },
        _ => {},
    }
}

/// Copies a list of qualifiers.
pub fn copy_qualifiers(qs: &Vec<CQualifier>) -> (r: Vec<CQualifier>)
    ensures
        r@ == qs@,
{
    let mut out: Vec<CQualifier> = Vec::new();
    let mut i: usize = 0;
    while i < qs.len()
        invariant
            i <= qs@.len(),
            out@ =~= qs@.take(i as int),
        decreases qs@.len() - i,
    {
        out.push(qs[i]);
        i = i + 1;
    }
    out
}

/// Copies an optional string.
pub fn copy_opt_text(s: &Option<String>) -> (r: Option<String>)
    ensures
        opt_text(r) == opt_text(*s),
{
    match s {
        Some(x) => Some(x.clone()),
        None => None,
    }
}

/// Copies a C type.
pub fn copy_c_type(t: &CType) -> (r: CType)
    ensures
        r@ == t@,
    decreases *t,
{
    broadcast use lemma_c_type_v;

    match t {
        CType::Void => CType::Void,
        CType::Char => CType::Char,
        CType::Short => CType::Short,
        CType::Int => CType::Int,
        CType::Long => CType::Long,
        CType::LongLong => CType::LongLong,
        CType::Float => CType::Float,
        CType::Double => CType::Double,
        CType::LongDouble => CType::LongDouble,
        CType::Bool => CType::Bool,
        CType::SignedChar => CType::SignedChar,
        CType::UnsignedChar => CType::UnsignedChar,
        CType::UnsignedShort => CType::UnsignedShort,
        CType::UnsignedInt => CType::UnsignedInt,
        CType::UnsignedLong => CType::UnsignedLong,
        CType::UnsignedLongLong => CType::UnsignedLongLong,
        CType::Int8 => CType::Int8,
        CType::Int16 => CType::Int16,
        CType::Int32 => CType::Int32,
        CType::Int64 => CType::Int64,
        CType::Uint8 => CType::Uint8,
        CType::Uint16 => CType::Uint16,
        CType::Uint32 => CType::Uint32,
        CType::Uint64 => CType::Uint64,
        CType::SizeT => CType::SizeT,
        CType::SSizeT => CType::SSizeT,
        CType::IntPtr => CType::IntPtr,
        CType::UintPtr => CType::UintPtr,
        CType::PtrDiffT => CType::PtrDiffT,
        CType::Named(s) => CType::Named(s.clone()),
        CType::Ptr(x, q) => CType::Ptr(Box::new(copy_c_type(x)), copy_qualifiers(q)),
        CType::FunctionPtr { return_type, param_types, is_variadic } => CType::FunctionPtr {
            return_type: Box::new(copy_c_type(return_type)),
            param_types: copy_c_types(param_types),
            is_variadic: *is_variadic,
        },
        CType::Array { element_type, size } => CType::Array {
            element_type: Box::new(copy_c_type(element_type)),
            size: *size,
        },
        CType::Unknown(s) => CType::Unknown(s.clone()),
    }
}

impl Clone for CType {
    fn clone(&self) -> (r: Self)
        ensures
            r@ == self@,
    {
        copy_c_type(self)
    }
}

/// Copies a list of C types.
pub fn copy_c_types(xs: &Vec<CType>) -> (r: Vec<CType>)
    ensures
        c_types_v(r@) == c_types_v(xs@),
    decreases *xs,
{
    let mut out: Vec<CType> = Vec::new();
    let mut i: usize = 0;
    while i < xs.len()
        invariant
            i <= xs@.len(),
            c_types_v(out@) =~= c_types_v(xs@).take(i as int),
        decreases xs@.len() - i,
    {
        let c = copy_c_type(&xs[i]);
        proof {
            assert(c_types_v(xs@).take(i + 1) =~= c_types_v(xs@).take(i as int).push(c_type_v(c)));
            assert(c_types_v(out@.push(c)) =~= c_types_v(out@).push(c_type_v(c)));
        }
        out.push(c);
        i = i + 1;
    }
    proof {
        assert(c_types_v(xs@).take(xs@.len() as int) =~= c_types_v(xs@));
    }
    out
}

/// The spelling of a qualifier.
pub open spec fn qualifier_text(q: CQualifier) -> Seq<char> {
    match q {
        CQualifier::Const => "const"@,
        CQualifier::Volatile => "volatile"@,
        CQualifier::Restrict => "restrict"@,
    }
}

/// The spellings of qualifiers, each with a space behind it.
pub open spec fn qualifiers_text(qs: Seq<CQualifier>) -> Seq<char>
    decreases qs.len(),
{
    if qs.len() == 0 {
        Seq::empty()
    } else {
        qualifiers_text(qs.drop_last()) + qualifier_text(qs.last()) + " "@
    }
}

/// The text in which a C type is shown.
pub open spec fn c_type_text(t: CTypeV) -> Seq<char>
    decreases t,
{
    match t {
        CTypeV::Void => "void"@,
        CTypeV::Char => "char"@,
        CTypeV::Short => "short"@,
        CTypeV::Int => "int"@,
        CTypeV::Long => "long"@,
        CTypeV::LongLong => "long long"@,
        CTypeV::Float => "float"@,
        CTypeV::Double => "double"@,
        CTypeV::LongDouble => "long double"@,
        CTypeV::Bool => "_Bool"@,
        CTypeV::SignedChar => "signed char"@,
        CTypeV::UnsignedChar => "unsigned char"@,
        CTypeV::UnsignedShort => "unsigned short"@,
        CTypeV::UnsignedInt => "unsigned int"@,
        CTypeV::UnsignedLong => "unsigned long"@,
        CTypeV::UnsignedLongLong => "unsigned long long"@,
        CTypeV::Int8 => "int8_t"@,
        CTypeV::Int16 => "int16_t"@,
        CTypeV::Int32 => "int32_t"@,
        CTypeV::Int64 => "int64_t"@,
        CTypeV::Uint8 => "uint8_t"@,
        CTypeV::Uint16 => "uint16_t"@,
        CTypeV::Uint32 => "uint32_t"@,
        CTypeV::Uint64 => "uint64_t"@,
        CTypeV::SizeT => "size_t"@,
        CTypeV::SSizeT => "ssize_t"@,
        CTypeV::IntPtr => "intptr_t"@,
        CTypeV::UintPtr => "uintptr_t"@,
        CTypeV::PtrDiffT => "ptrdiff_t"@,
        CTypeV::Named(s) => s,
        CTypeV::Ptr(x, q) => qualifiers_text(q) + c_type_text(*x) + "*"@,
        CTypeV::FunctionPtr { return_type, param_types, is_variadic } => c_type_text(*return_type) + " (*)("@
            + text::joined(c_type_texts(param_types), ", "@) + (if is_variadic { ", ..."@ } else { ""@ })
            + ")"@,
        CTypeV::Array { element_type, size } => match size {
            Some(n) => c_type_text(*element_type) + "["@ + text::decimal_text(n as nat) + "]"@,
            None => c_type_text(*element_type) + "[]"@,
        },
        CTypeV::Unknown(s) => "/* unknown */ "@ + s,
    }
}

/// The texts in which a list of C types is shown.
pub open spec fn c_type_texts(ts: Seq<CTypeV>) -> Seq<Seq<char>>
    decreases ts,
{
    Seq::new(ts.len(), |i: int| if 0 <= i < ts.len() { c_type_text(ts[i]) } else { Seq::empty() })
}

/// The name of the Kit type that stands for a C type.
pub open spec fn kit_name(t: CTypeV) -> Seq<char>
    decreases t,
{
    match t {
        CTypeV::Void => "Void"@,
        CTypeV::Char => "Char"@,
        CTypeV::Short => "Int16"@,
        CTypeV::Int => "Int"@,
        CTypeV::Long => "Int64"@,
        CTypeV::LongLong => "Int64"@,
        CTypeV::Float => "Float"@,
        CTypeV::Double => "Float64"@,
        CTypeV::LongDouble => "Float64"@,
        CTypeV::Bool => "Bool"@,
        CTypeV::SignedChar => "Int8"@,
        CTypeV::UnsignedChar => "Uint8"@,
        CTypeV::UnsignedShort => "Uint16"@,
        CTypeV::UnsignedInt => "Uint32"@,
        CTypeV::UnsignedLong => "Uint64"@,
        CTypeV::UnsignedLongLong => "Uint64"@,
        CTypeV::Int8 => "Int8"@,
        CTypeV::Int16 => "Int16"@,
        CTypeV::Int32 => "Int32"@,
        CTypeV::Int64 => "Int64"@,
        CTypeV::Uint8 => "Uint8"@,
        CTypeV::Uint16 => "Uint16"@,
        CTypeV::Uint32 => "Uint32"@,
        CTypeV::Uint64 => "Uint64"@,
        CTypeV::SizeT => "Size"@,
        CTypeV::SSizeT => "Int64"@,
        CTypeV::IntPtr => "Int64"@,
        CTypeV::UintPtr => "Uint64"@,
        CTypeV::PtrDiffT => "Int64"@,
        CTypeV::Named(s) => s,
        CTypeV::Ptr(x, _) => "Ptr("@ + kit_name(*x) + ")"@,
        CTypeV::FunctionPtr { .. } => "/* function pointer */ Void"@,
        CTypeV::Array { element_type, .. } => kit_name(*element_type) + "[]"@,
        CTypeV::Unknown(s) => s,
    }
}

/// The integer types.
pub open spec fn integral(t: CTypeV) -> bool {
    match t {
        CTypeV::Char
        | CTypeV::Short
        | CTypeV::Int
        | CTypeV::Long
        | CTypeV::LongLong
        | CTypeV::Bool
        | CTypeV::SignedChar
        | CTypeV::UnsignedChar
        | CTypeV::UnsignedShort
        | CTypeV::UnsignedInt
        | CTypeV::UnsignedLong
        | CTypeV::UnsignedLongLong
        | CTypeV::Int8
        | CTypeV::Int16
        | CTypeV::Int32
        | CTypeV::Int64
        | CTypeV::Uint8
        | CTypeV::Uint16
        | CTypeV::Uint32
        | CTypeV::Uint64
        | CTypeV::SizeT
        | CTypeV::SSizeT
        | CTypeV::IntPtr
        | CTypeV::UintPtr
        | CTypeV::PtrDiffT => true,
        _ => false,
    }
}

/// The floating-point types.
pub open spec fn floating(t: CTypeV) -> bool {
    t is Float || t is Double || t is LongDouble
}

/// No type is both an integer and a floating-point type.
pub proof fn law_integral_and_floating_are_disjoint(t: CTypeV)
    ensures
        !(integral(t) && floating(t)),
{
}

/// The builtin type of a C spelling.
pub open spec fn builtin_type(name: Seq<char>) -> Option<CTypeV> {
    if name == "void"@ { Some(CTypeV::Void) }
    else if name == "char"@ { Some(CTypeV::Char) }
    else if name == "short"@ || name == "short int"@ { Some(CTypeV::Short) }
    else if name == "int"@ { Some(CTypeV::Int) }
    else if name == "long"@ || name == "long int"@ { Some(CTypeV::Long) }
    else if name == "long long"@ || name == "long long int"@ { Some(CTypeV::LongLong) }
    else if name == "float"@ { Some(CTypeV::Float) }
    else if name == "double"@ { Some(CTypeV::Double) }
    else if name == "long double"@ { Some(CTypeV::LongDouble) }
    else if name == "_Bool"@ || name == "bool"@ { Some(CTypeV::Bool) }
    else if name == "signed char"@ { Some(CTypeV::SignedChar) }
    else if name == "unsigned char"@ { Some(CTypeV::UnsignedChar) }
    else if name == "unsigned short"@ || name == "unsigned short int"@ { Some(CTypeV::UnsignedShort) }
    else if name == "unsigned"@ || name == "unsigned int"@ { Some(CTypeV::UnsignedInt) }
    else if name == "unsigned long"@ || name == "unsigned long int"@ { Some(CTypeV::UnsignedLong) }
    else if name == "unsigned long long"@ || name == "unsigned long long int"@ { Some(CTypeV::UnsignedLongLong) }
    else if name == "int8_t"@ { Some(CTypeV::Int8) }
    else if name == "int16_t"@ { Some(CTypeV::Int16) }
    else if name == "int32_t"@ { Some(CTypeV::Int32) }
    else if name == "int64_t"@ { Some(CTypeV::Int64) }
    else if name == "uint8_t"@ { Some(CTypeV::Uint8) }
    else if name == "uint16_t"@ { Some(CTypeV::Uint16) }
    else if name == "uint32_t"@ { Some(CTypeV::Uint32) }
    else if name == "uint64_t"@ { Some(CTypeV::Uint64) }
    else if name == "size_t"@ { Some(CTypeV::SizeT) }
    else if name == "ssize_t"@ { Some(CTypeV::SSizeT) }
    else if name == "intptr_t"@ { Some(CTypeV::IntPtr) }
    else if name == "uintptr_t"@ { Some(CTypeV::UintPtr) }
    else if name == "ptrdiff_t"@ { Some(CTypeV::PtrDiffT) }
    else { None }
}

/// A builtin type is shown in a spelling that stands for it again.
pub proof fn law_builtin_spelling_round_trips(name: Seq<char>)
    requires
        builtin_type(name) is Some,
    ensures
        builtin_type(c_type_text(builtin_type(name)->0)) == builtin_type(name),
{
    reveal_strlit("void");
    assert("void"@.len() == 4);
    reveal_strlit("char");
    assert("char"@.len() == 4);
    reveal_strlit("short");
    assert("short"@.len() == 5);
    reveal_strlit("short int");
    assert("short int"@.len() == 9);
    reveal_strlit("int");
    assert("int"@.len() == 3);
    reveal_strlit("long");
    assert("long"@.len() == 4);
    reveal_strlit("long int");
    assert("long int"@.len() == 8);
    reveal_strlit("long long");
    assert("long long"@.len() == 9);
    reveal_strlit("long long int");
    assert("long long int"@.len() == 13);
    reveal_strlit("float");
    assert("float"@.len() == 5);
    reveal_strlit("double");
    assert("double"@.len() == 6);
    reveal_strlit("long double");
    assert("long double"@.len() == 11);
    reveal_strlit("_Bool");
    assert("_Bool"@.len() == 5);
    reveal_strlit("bool");
    assert("bool"@.len() == 4);
    reveal_strlit("signed char");
    assert("signed char"@.len() == 11);
    reveal_strlit("unsigned char");
    assert("unsigned char"@.len() == 13);
    reveal_strlit("unsigned short");
    assert("unsigned short"@.len() == 14);
    reveal_strlit("unsigned short int");
    assert("unsigned short int"@.len() == 18);
    reveal_strlit("unsigned");
    assert("unsigned"@.len() == 8);
    reveal_strlit("unsigned int");
    assert("unsigned int"@.len() == 12);
    reveal_strlit("unsigned long");
    assert("unsigned long"@.len() == 13);
    reveal_strlit("unsigned long int");
    assert("unsigned long int"@.len() == 17);
    reveal_strlit("unsigned long long");
    assert("unsigned long long"@.len() == 18);
    reveal_strlit("unsigned long long int");
    assert("unsigned long long int"@.len() == 22);
    reveal_strlit("int8_t");
    assert("int8_t"@.len() == 6);
    reveal_strlit("int16_t");
    assert("int16_t"@.len() == 7);
    reveal_strlit("int32_t");
    assert("int32_t"@.len() == 7);
    reveal_strlit("int64_t");
    assert("int64_t"@.len() == 7);
    reveal_strlit("uint8_t");
    assert("uint8_t"@.len() == 7);
    reveal_strlit("uint16_t");
    assert("uint16_t"@.len() == 8);
    reveal_strlit("uint32_t");
    assert("uint32_t"@.len() == 8);
    reveal_strlit("uint64_t");
    assert("uint64_t"@.len() == 8);
    reveal_strlit("size_t");
    assert("size_t"@.len() == 6);
    reveal_strlit("ssize_t");
    assert("ssize_t"@.len() == 7);
    reveal_strlit("intptr_t");
    assert("intptr_t"@.len() == 8);
    reveal_strlit("uintptr_t");
    assert("uintptr_t"@.len() == 9);
    reveal_strlit("ptrdiff_t");
    assert("ptrdiff_t"@.len() == 9);
    assert("char"@[0] != "void"@[0]);
    assert("long"@[0] != "void"@[0]);
    assert("long"@[0] != "char"@[0]);
    assert("long long"@[0] != "short int"@[0]);
    assert("float"@[0] != "short"@[0]);
    assert("_Bool"@[0] != "short"@[0]);
    assert("_Bool"@[0] != "float"@[0]);
    assert("signed char"@[0] != "long double"@[0]);
    assert("unsigned char"@[0] != "long long int"@[0]);
    assert("unsigned long"@[0] != "long long int"@[0]);
    assert("unsigned long"@[9] != "unsigned char"@[9]);
    assert("unsigned long long"@[9] != "unsigned short int"@[9]);
    assert("int8_t"@[0] != "double"@[0]);
    assert("int32_t"@[3] != "int16_t"@[3]);
    assert("int64_t"@[3] != "int16_t"@[3]);
    assert("int64_t"@[3] != "int32_t"@[3]);
    assert("uint8_t"@[0] != "int16_t"@[0]);
    assert("uint8_t"@[0] != "int32_t"@[0]);
    assert("uint8_t"@[0] != "int64_t"@[0]);
    assert("uint16_t"@[0] != "long int"@[0]);
    assert("uint16_t"@[1] != "unsigned"@[1]);
    assert("uint32_t"@[0] != "long int"@[0]);
    assert("uint32_t"@[1] != "unsigned"@[1]);
    assert("uint32_t"@[4] != "uint16_t"@[4]);
    assert("uint64_t"@[0] != "long int"@[0]);
    assert("uint64_t"@[1] != "unsigned"@[1]);
    assert("uint64_t"@[4] != "uint16_t"@[4]);
    assert("uint64_t"@[4] != "uint32_t"@[4]);
    assert("size_t"@[0] != "double"@[0]);
    assert("size_t"@[0] != "int8_t"@[0]);
    assert("ssize_t"@[0] != "int16_t"@[0]);
    assert("ssize_t"@[0] != "int32_t"@[0]);
    assert("ssize_t"@[0] != "int64_t"@[0]);
    assert("ssize_t"@[0] != "uint8_t"@[0]);
    assert("intptr_t"@[0] != "long int"@[0]);
    assert("intptr_t"@[0] != "unsigned"@[0]);
    assert("intptr_t"@[0] != "uint16_t"@[0]);
    assert("intptr_t"@[0] != "uint32_t"@[0]);
    assert("intptr_t"@[0] != "uint64_t"@[0]);
    assert("uintptr_t"@[0] != "short int"@[0]);
    assert("uintptr_t"@[0] != "long long"@[0]);
    assert("ptrdiff_t"@[0] != "short int"@[0]);
    assert("ptrdiff_t"@[0] != "long long"@[0]);
    assert("ptrdiff_t"@[0] != "uintptr_t"@[0]);
    assert(builtin_type("void"@) == Some(CTypeV::Void));
    assert(c_type_text(CTypeV::Void) == "void"@);
    assert(builtin_type("char"@) == Some(CTypeV::Char));
    assert(c_type_text(CTypeV::Char) == "char"@);
    assert(builtin_type("short"@) == Some(CTypeV::Short));
    assert(c_type_text(CTypeV::Short) == "short"@);
    assert(builtin_type("int"@) == Some(CTypeV::Int));
    assert(c_type_text(CTypeV::Int) == "int"@);
    assert(builtin_type("long"@) == Some(CTypeV::Long));
    assert(c_type_text(CTypeV::Long) == "long"@);
    assert(builtin_type("long long"@) == Some(CTypeV::LongLong));
    assert(c_type_text(CTypeV::LongLong) == "long long"@);
    assert(builtin_type("float"@) == Some(CTypeV::Float));
    assert(c_type_text(CTypeV::Float) == "float"@);
    assert(builtin_type("double"@) == Some(CTypeV::Double));
    assert(c_type_text(CTypeV::Double) == "double"@);
    assert(builtin_type("long double"@) == Some(CTypeV::LongDouble));
    assert(c_type_text(CTypeV::LongDouble) == "long double"@);
    assert(builtin_type("_Bool"@) == Some(CTypeV::Bool));
    assert(c_type_text(CTypeV::Bool) == "_Bool"@);
    assert(builtin_type("signed char"@) == Some(CTypeV::SignedChar));
    assert(c_type_text(CTypeV::SignedChar) == "signed char"@);
    assert(builtin_type("unsigned char"@) == Some(CTypeV::UnsignedChar));
    assert(c_type_text(CTypeV::UnsignedChar) == "unsigned char"@);
    assert(builtin_type("unsigned short"@) == Some(CTypeV::UnsignedShort));
    assert(c_type_text(CTypeV::UnsignedShort) == "unsigned short"@);
    assert(builtin_type("unsigned int"@) == Some(CTypeV::UnsignedInt));
    assert(c_type_text(CTypeV::UnsignedInt) == "unsigned int"@);
    assert(builtin_type("unsigned long"@) == Some(CTypeV::UnsignedLong));
    assert(c_type_text(CTypeV::UnsignedLong) == "unsigned long"@);
    assert(builtin_type("unsigned long long"@) == Some(CTypeV::UnsignedLongLong));
    assert(c_type_text(CTypeV::UnsignedLongLong) == "unsigned long long"@);
    assert(builtin_type("int8_t"@) == Some(CTypeV::Int8));
    assert(c_type_text(CTypeV::Int8) == "int8_t"@);
    assert(builtin_type("int16_t"@) == Some(CTypeV::Int16));
    assert(c_type_text(CTypeV::Int16) == "int16_t"@);
    assert(builtin_type("int32_t"@) == Some(CTypeV::Int32));
    assert(c_type_text(CTypeV::Int32) == "int32_t"@);
    assert(builtin_type("int64_t"@) == Some(CTypeV::Int64));
    assert(c_type_text(CTypeV::Int64) == "int64_t"@);
    assert(builtin_type("uint8_t"@) == Some(CTypeV::Uint8));
    assert(c_type_text(CTypeV::Uint8) == "uint8_t"@);
    assert(builtin_type("uint16_t"@) == Some(CTypeV::Uint16));
    assert(c_type_text(CTypeV::Uint16) == "uint16_t"@);
    assert(builtin_type("uint32_t"@) == Some(CTypeV::Uint32));
    assert(c_type_text(CTypeV::Uint32) == "uint32_t"@);
    assert(builtin_type("uint64_t"@) == Some(CTypeV::Uint64));
    assert(c_type_text(CTypeV::Uint64) == "uint64_t"@);
    assert(builtin_type("size_t"@) == Some(CTypeV::SizeT));
    assert(c_type_text(CTypeV::SizeT) == "size_t"@);
    assert(builtin_type("ssize_t"@) == Some(CTypeV::SSizeT));
    assert(c_type_text(CTypeV::SSizeT) == "ssize_t"@);
    assert(builtin_type("intptr_t"@) == Some(CTypeV::IntPtr));
    assert(c_type_text(CTypeV::IntPtr) == "intptr_t"@);
    assert(builtin_type("uintptr_t"@) == Some(CTypeV::UintPtr));
    assert(c_type_text(CTypeV::UintPtr) == "uintptr_t"@);
    assert(builtin_type("ptrdiff_t"@) == Some(CTypeV::PtrDiffT));
    assert(c_type_text(CTypeV::PtrDiffT) == "ptrdiff_t"@);
}

/// The contents of an optional C type.
pub open spec fn opt_c_type_v(t: Option<CType>) -> Option<CTypeV> {
    match t {
        Some(x) => Some(c_type_v(x)),
        None => None,
    }
}

/// The builtin type of a C spelling.
pub fn c_type_from_name(name: &str) -> (r: Option<CType>)
    ensures
        opt_c_type_v(r) == builtin_type(name@),
{
    if text::text_eq(name, "void") { Some(CType::Void) }
    else if text::text_eq(name, "char") { Some(CType::Char) }
    else if text::text_eq(name, "short") || text::text_eq(name, "short int") { Some(CType::Short) }
    else if text::text_eq(name, "int") { Some(CType::Int) }
    else if text::text_eq(name, "long") || text::text_eq(name, "long int") { Some(CType::Long) }
    else if text::text_eq(name, "long long") || text::text_eq(name, "long long int") { Some(CType::LongLong) }
    else if text::text_eq(name, "float") { Some(CType::Float) }
    else if text::text_eq(name, "double") { Some(CType::Double) }
    else if text::text_eq(name, "long double") { Some(CType::LongDouble) }
    else if text::text_eq(name, "_Bool") || text::text_eq(name, "bool") { Some(CType::Bool) }
    else if text::text_eq(name, "signed char") { Some(CType::SignedChar) }
    else if text::text_eq(name, "unsigned char") { Some(CType::UnsignedChar) }
    else if text::text_eq(name, "unsigned short") || text::text_eq(name, "unsigned short int") { Some(CType::UnsignedShort) }
    else if text::text_eq(name, "unsigned") || text::text_eq(name, "unsigned int") { Some(CType::UnsignedInt) }
    else if text::text_eq(name, "unsigned long") || text::text_eq(name, "unsigned long int") { Some(CType::UnsignedLong) }
    else if text::text_eq(name, "unsigned long long") || text::text_eq(name, "unsigned long long int") { Some(CType::UnsignedLongLong) }
    else if text::text_eq(name, "int8_t") { Some(CType::Int8) }
    else if text::text_eq(name, "int16_t") { Some(CType::Int16) }
    else if text::text_eq(name, "int32_t") { Some(CType::Int32) }
    else if text::text_eq(name, "int64_t") { Some(CType::Int64) }
    else if text::text_eq(name, "uint8_t") { Some(CType::Uint8) }
    else if text::text_eq(name, "uint16_t") { Some(CType::Uint16) }
    else if text::text_eq(name, "uint32_t") { Some(CType::Uint32) }
    else if text::text_eq(name, "uint64_t") { Some(CType::Uint64) }
    else if text::text_eq(name, "size_t") { Some(CType::SizeT) }
    else if text::text_eq(name, "ssize_t") { Some(CType::SSizeT) }
    else if text::text_eq(name, "intptr_t") { Some(CType::IntPtr) }
    else if text::text_eq(name, "uintptr_t") { Some(CType::UintPtr) }
    else if text::text_eq(name, "ptrdiff_t") { Some(CType::PtrDiffT) }
    else { None }
}

impl CQualifier {
    /// The spelling of this qualifier.
    pub fn to_string(&self) -> (r: String)
        ensures
            r@ == qualifier_text(*self),
    {
        match self {
            CQualifier::Const => "const".to_owned(),
            CQualifier::Volatile => "volatile".to_owned(),
            CQualifier::Restrict => "restrict".to_owned(),
        }
    }
}

fn show_qualifiers(qs: &Vec<CQualifier>) -> (r: String)
    ensures
        r@ == qualifiers_text(qs@),
{
    let mut out = String::new();
    let mut i: usize = 0;
    proof {
        assert(out@ =~= qualifiers_text(qs@.take(0)));
    }
    while i < qs.len()
        invariant
            i <= qs@.len(),
            out@ == qualifiers_text(qs@.take(i as int)),
        decreases qs@.len() - i,
    {
        proof {
            assert(qs@.take(i + 1).drop_last() =~= qs@.take(i as int));
        }
        out = out.concat(qs[i].to_string().as_str()).concat(" ");
        i = i + 1;
    }
    proof {
        assert(qs@.take(qs@.len() as int) =~= qs@);
    }
    out
}

fn show_types(ts: &Vec<CType>) -> (r: Vec<String>)
    ensures
        text::texts(r@) == c_type_texts(c_types_v(ts@)),
    decreases *ts,
{
    let mut out: Vec<String> = Vec::new();
    let mut i: usize = 0;
    while i < ts.len()
        invariant
            i <= ts@.len(),
            text::texts(out@) =~= c_type_texts(c_types_v(ts@)).take(i as int),
        decreases ts@.len() - i,
    {
        let c = ts[i].to_string();
        proof {
            let all = c_type_texts(c_types_v(ts@));
            assert(all.take(i + 1) =~= all.take(i as int).push(c@));
            assert(text::texts(out@.push(c)) =~= text::texts(out@).push(c@));
        }
        out.push(c);
        i = i + 1;
    }
    proof {
        let all = c_type_texts(c_types_v(ts@));
        assert(all.take(ts@.len() as int) =~= all);
    }
    out
}

impl CType {
    /// The text in which this type is shown.
    pub fn to_string(&self) -> (r: String)
        ensures
            r@ == c_type_text(self@),
        decreases *self,
    {
        broadcast use lemma_c_type_v;

        match self {
            CType::Void => "void".to_owned(),
            CType::Char => "char".to_owned(),
            CType::Short => "short".to_owned(),
            CType::Int => "int".to_owned(),
            CType::Long => "long".to_owned(),
            CType::LongLong => "long long".to_owned(),
            CType::Float => "float".to_owned(),
            CType::Double => "double".to_owned(),
            CType::LongDouble => "long double".to_owned(),
            CType::Bool => "_Bool".to_owned(),
            CType::SignedChar => "signed char".to_owned(),
            CType::UnsignedChar => "unsigned char".to_owned(),
            CType::UnsignedShort => "unsigned short".to_owned(),
            CType::UnsignedInt => "unsigned int".to_owned(),
            CType::UnsignedLong => "unsigned long".to_owned(),
            CType::UnsignedLongLong => "unsigned long long".to_owned(),
            CType::Int8 => "int8_t".to_owned(),
            CType::Int16 => "int16_t".to_owned(),
            CType::Int32 => "int32_t".to_owned(),
            CType::Int64 => "int64_t".to_owned(),
            CType::Uint8 => "uint8_t".to_owned(),
            CType::Uint16 => "uint16_t".to_owned(),
            CType::Uint32 => "uint32_t".to_owned(),
            CType::Uint64 => "uint64_t".to_owned(),
            CType::SizeT => "size_t".to_owned(),
            CType::SSizeT => "ssize_t".to_owned(),
            CType::IntPtr => "intptr_t".to_owned(),
            CType::UintPtr => "uintptr_t".to_owned(),
            CType::PtrDiffT => "ptrdiff_t".to_owned(),
            CType::Named(s) => s.clone(),
            CType::Ptr(x, q) => show_qualifiers(q).concat(x.to_string().as_str()).concat("*"),
            CType::FunctionPtr { return_type, param_types, is_variadic } => return_type.to_string().concat(
                " (*)(",
            ).concat(text::join(&show_types(param_types), ", ").as_str()).concat(
                if *is_variadic { ", ..." } else { "" },
            ).concat(")"),
            CType::Array { element_type, size } => match size {
                Some(n) => element_type.to_string().concat("[").concat(
                    text::decimal(*n as u64).as_str(),
                ).concat("]"),
                None => element_type.to_string().concat("[]"),
            },
            CType::Unknown(s) => "/* unknown */ ".to_owned().concat(s.as_str()),
        }
    }

    /// Whether this is an integer type.
    pub fn is_integer(&self) -> (r: bool)
        ensures
            r == integral(self@),
    {
        match self {
            CType::Char
            | CType::Short
            | CType::Int
            | CType::Long
            | CType::LongLong
            | CType::Bool
            | CType::SignedChar
            | CType::UnsignedChar
            | CType::UnsignedShort
            | CType::UnsignedInt
            | CType::UnsignedLong
            | CType::UnsignedLongLong
            | CType::Int8
            | CType::Int16
            | CType::Int32
            | CType::Int64
            | CType::Uint8
            | CType::Uint16
            | CType::Uint32
            | CType::Uint64
            | CType::SizeT
            | CType::SSizeT
            | CType::IntPtr
            | CType::UintPtr
            | CType::PtrDiffT => true,
            _ => false,
        }
    }

    /// Whether this is a floating-point type.
    pub fn is_floating(&self) -> (r: bool)
        ensures
            r == floating(self@),
    {
        matches!(self, CType::Float | CType::Double | CType::LongDouble)
    }

    /// The name of the Kit type that stands for this type.
    pub fn to_kit_name(&self) -> (r: String)
        ensures
            r@ == kit_name(self@),
        decreases *self,
    {
        match self {
            CType::Void => "Void".to_owned(),
            CType::Char => "Char".to_owned(),
            CType::Short => "Int16".to_owned(),
            CType::Int => "Int".to_owned(),
            CType::Long => "Int64".to_owned(),
            CType::LongLong => "Int64".to_owned(),
            CType::Float => "Float".to_owned(),
            CType::Double => "Float64".to_owned(),
            CType::LongDouble => "Float64".to_owned(),
            CType::Bool => "Bool".to_owned(),
            CType::SignedChar => "Int8".to_owned(),
            CType::UnsignedChar => "Uint8".to_owned(),
            CType::UnsignedShort => "Uint16".to_owned(),
            CType::UnsignedInt => "Uint32".to_owned(),
            CType::UnsignedLong => "Uint64".to_owned(),
            CType::UnsignedLongLong => "Uint64".to_owned(),
            CType::Int8 => "Int8".to_owned(),
            CType::Int16 => "Int16".to_owned(),
            CType::Int32 => "Int32".to_owned(),
            CType::Int64 => "Int64".to_owned(),
            CType::Uint8 => "Uint8".to_owned(),
            CType::Uint16 => "Uint16".to_owned(),
            CType::Uint32 => "Uint32".to_owned(),
            CType::Uint64 => "Uint64".to_owned(),
            CType::SizeT => "Size".to_owned(),
            CType::SSizeT => "Int64".to_owned(),
            CType::IntPtr => "Int64".to_owned(),
            CType::UintPtr => "Uint64".to_owned(),
            CType::PtrDiffT => "Int64".to_owned(),
            CType::Named(s) => s.clone(),
            CType::Ptr(x, _) => "Ptr(".to_owned().concat(x.to_kit_name().as_str()).concat(")"),
            CType::FunctionPtr { .. } => "/* function pointer */ Void".to_owned(),
            CType::Array { element_type, size: _ } => element_type.to_kit_name().concat("[]"),
            CType::Unknown(s) => s.clone(),
        }
    }

    /// The type behind a typedef name. A typedef of another name keeps its own name, so that only
    /// names that the header makes visible remain.
    pub fn resolve_typedef<'a>(&'a self, declarations: &'a CDeclarations) -> (r: &'a CType)
        ensures
            r@ == resolved(self@, declarations@),
    {
        match self {
            CType::Named(name) => match declarations.lookup_typedef(name.as_str()) {
                Some(underlying) => match underlying {
                    CType::Named(_) => self,
                    _ => underlying,
                },
                None => self,
            },
            _ => self,
        }
    }
}

/// The type that a typedef name stands for, unless that is a name itself.
pub open spec fn resolved(t: CTypeV, d: CDeclarationsV) -> CTypeV {
    match t {
        CTypeV::Named(name) => match typedef_of(d.typedefs, name) {
            Some(u) => if u is Named {
                t
            } else {
                u
            },
            None => t,
        },
        _ => t,
    }
}

/// Resolving a type a second time changes nothing.
pub proof fn law_resolving_is_idempotent(t: CTypeV, d: CDeclarationsV)
    ensures
        resolved(resolved(t, d), d) == resolved(t, d),
{
}

/// The underlying type of the first typedef with the given name.
pub open spec fn typedef_of(ts: Seq<CTypedefV>, name: Seq<char>) -> Option<CTypeV>
    decreases ts.len(),
{
    if ts.len() == 0 {
        None
    } else if ts[0].name == name {
        Some(ts[0].underlying)
    } else {
        typedef_of(ts.skip(1), name)
    }
}

/// The first struct with the given name.
pub open spec fn struct_of(ss: Seq<CStructV>, name: Seq<char>) -> Option<CStructV>
    decreases ss.len(),
{
    if ss.len() == 0 {
        None
    } else if ss[0].name == name {
        Some(ss[0])
    } else {
        struct_of(ss.skip(1), name)
    }
}

/// The functions with the given name.
pub open spec fn functions_of(fs: Seq<CFunctionV>, name: Seq<char>) -> Seq<CFunctionV> {
    fs.filter(|f: CFunctionV| f.name == name)
}

/// A parameter of a C function.
#[derive(Debug, PartialEq)]
pub struct CParam {
    pub name: Option<String>,
    pub ty: CType,
}

/// The contents of a parameter.
pub struct CParamV {
    pub name: Option<Seq<char>>,
    pub ty: CTypeV,
}

/// The contents of a parameter.
pub open spec fn c_param_v(x: CParam) -> CParamV {
    CParamV {
        name: opt_text(x.name),
        ty: c_type_v(x.ty),
    }
}

impl View for CParam {
    type V = CParamV;

    open spec fn view(&self) -> CParamV {
        c_param_v(*self)
    }
}

/// The contents of a list of parameters.
pub open spec fn c_params_v(xs: Seq<CParam>) -> Seq<CParamV> {
    xs.map_values(|x: CParam| c_param_v(x))
}

/// Copies a parameter.
pub fn copy_c_param(x: &CParam) -> (r: CParam)
    ensures
        c_param_v(r) == c_param_v(*x),
{
    CParam {
        name: copy_opt_text(&x.name),
        ty: copy_c_type(&x.ty),
    }
}

impl Clone for CParam {
    fn clone(&self) -> (r: Self)
        ensures
            r@ == self@,
    {
        copy_c_param(self)
    }
}

/// Copies a list of parameters.
pub fn copy_c_params(xs: &Vec<CParam>) -> (r: Vec<CParam>)
    ensures
        c_params_v(r@) == c_params_v(xs@),
    decreases *xs,
{
    let mut out: Vec<CParam> = Vec::new();
    let mut i: usize = 0;
    while i < xs.len()
        invariant
            i <= xs@.len(),
            c_params_v(out@) =~= c_params_v(xs@).take(i as int),
        decreases xs@.len() - i,
    {
        let c = copy_c_param(&xs[i]);
        proof {
            assert(c_params_v(xs@).take(i + 1) =~= c_params_v(xs@).take(i as int).push(c_param_v(c)));
            assert(c_params_v(out@.push(c)) =~= c_params_v(out@).push(c_param_v(c)));
        }
        out.push(c);
        i = i + 1;
    }
    proof {
        assert(c_params_v(xs@).take(xs@.len() as int) =~= c_params_v(xs@));
    }
    out
}

/// A C function signature.
#[derive(Debug, PartialEq)]
pub struct CFunction {
    pub name: String,
    pub return_type: CType,
    pub params: Vec<CParam>,
    pub is_variadic: bool,
}

/// The contents of a function signature.
pub struct CFunctionV {
    pub name: Seq<char>,
    pub return_type: CTypeV,
    pub params: Seq<CParamV>,
    pub is_variadic: bool,
}

/// The contents of a function signature.
pub open spec fn c_function_v(x: CFunction) -> CFunctionV {
    CFunctionV {
        name: x.name@,
        return_type: c_type_v(x.return_type),
        params: c_params_v(x.params@),
        is_variadic: x.is_variadic,
    }
}

impl View for CFunction {
    type V = CFunctionV;

    open spec fn view(&self) -> CFunctionV {
        c_function_v(*self)
    }
}

/// The contents of a list of function signatures.
pub open spec fn c_functions_v(xs: Seq<CFunction>) -> Seq<CFunctionV> {
    xs.map_values(|x: CFunction| c_function_v(x))
}

/// Copies a function signature.
pub fn copy_c_function(x: &CFunction) -> (r: CFunction)
    ensures
        c_function_v(r) == c_function_v(*x),
{
    CFunction {
        name: x.name.clone(),
        return_type: copy_c_type(&x.return_type),
        params: copy_c_params(&x.params),
        is_variadic: x.is_variadic,
    }
}

impl Clone for CFunction {
    fn clone(&self) -> (r: Self)
        ensures
            r@ == self@,
    {
        copy_c_function(self)
    }
}

/// Copies a list of function signatures.
pub fn copy_c_functions(xs: &Vec<CFunction>) -> (r: Vec<CFunction>)
    ensures
        c_functions_v(r@) == c_functions_v(xs@),
    decreases *xs,
{
    let mut out: Vec<CFunction> = Vec::new();
    let mut i: usize = 0;
    while i < xs.len()
        invariant
            i <= xs@.len(),
            c_functions_v(out@) =~= c_functions_v(xs@).take(i as int),
        decreases xs@.len() - i,
    {
        let c = copy_c_function(&xs[i]);
        proof {
            assert(c_functions_v(xs@).take(i + 1) =~= c_functions_v(xs@).take(i as int).push(c_function_v(c)));
            assert(c_functions_v(out@.push(c)) =~= c_functions_v(out@).push(c_function_v(c)));
        }
        out.push(c);
        i = i + 1;
    }
    proof {
        assert(c_functions_v(xs@).take(xs@.len() as int) =~= c_functions_v(xs@));
    }
    out
}

/// A field of a C struct or union.
#[derive(Debug, PartialEq)]
pub struct CField {
    pub name: Option<String>,
    pub ty: CType,
}

/// The contents of a field.
pub struct CFieldV {
    pub name: Option<Seq<char>>,
    pub ty: CTypeV,
}

/// The contents of a field.
pub open spec fn c_field_v(x: CField) -> CFieldV {
    CFieldV {
        name: opt_text(x.name),
        ty: c_type_v(x.ty),
    }
}

impl View for CField {
    type V = CFieldV;

    open spec fn view(&self) -> CFieldV {
        c_field_v(*self)
    }
}

/// The contents of a list of fields.
pub open spec fn c_fields_v(xs: Seq<CField>) -> Seq<CFieldV> {
    xs.map_values(|x: CField| c_field_v(x))
}

/// Copies a field.
pub fn copy_c_field(x: &CField) -> (r: CField)
    ensures
        c_field_v(r) == c_field_v(*x),
{
    CField {
        name: copy_opt_text(&x.name),
        ty: copy_c_type(&x.ty),
    }
}

impl Clone for CField {
    fn clone(&self) -> (r: Self)
        ensures
            r@ == self@,
    {
        copy_c_field(self)
    }
}

/// Copies a list of fields.
pub fn copy_c_fields(xs: &Vec<CField>) -> (r: Vec<CField>)
    ensures
        c_fields_v(r@) == c_fields_v(xs@),
    decreases *xs,
{
    let mut out: Vec<CField> = Vec::new();
    let mut i: usize = 0;
    while i < xs.len()
        invariant
            i <= xs@.len(),
            c_fields_v(out@) =~= c_fields_v(xs@).take(i as int),
        decreases xs@.len() - i,
    {
        let c = copy_c_field(&xs[i]);
        proof {
            assert(c_fields_v(xs@).take(i + 1) =~= c_fields_v(xs@).take(i as int).push(c_field_v(c)));
            assert(c_fields_v(out@.push(c)) =~= c_fields_v(out@).push(c_field_v(c)));
        }
        out.push(c);
        i = i + 1;
    }
    proof {
        assert(c_fields_v(xs@).take(xs@.len() as int) =~= c_fields_v(xs@));
    }
    out
}

/// A C struct definition.
#[derive(Debug, PartialEq)]
pub struct CStruct {
    pub name: String,
    pub fields: Vec<CField>,
}

/// The contents of a struct definition.
pub struct CStructV {
    pub name: Seq<char>,
    pub fields: Seq<CFieldV>,
}

/// The contents of a struct definition.
pub open spec fn c_struct_v(x: CStruct) -> CStructV {
    CStructV {
        name: x.name@,
        fields: c_fields_v(x.fields@),
    }
}

impl View for CStruct {
    type V = CStructV;

    open spec fn view(&self) -> CStructV {
        c_struct_v(*self)
    }
}

/// The contents of a list of struct definitions.
pub open spec fn c_structs_v(xs: Seq<CStruct>) -> Seq<CStructV> {
    xs.map_values(|x: CStruct| c_struct_v(x))
}

/// Copies a struct definition.
pub fn copy_c_struct(x: &CStruct) -> (r: CStruct)
    ensures
        c_struct_v(r) == c_struct_v(*x),
{
    CStruct {
        name: x.name.clone(),
        fields: copy_c_fields(&x.fields),
    }
}

impl Clone for CStruct {
    fn clone(&self) -> (r: Self)
        ensures
            r@ == self@,
    {
        copy_c_struct(self)
    }
}

/// Copies a list of struct definitions.
pub fn copy_c_structs(xs: &Vec<CStruct>) -> (r: Vec<CStruct>)
    ensures
        c_structs_v(r@) == c_structs_v(xs@),
    decreases *xs,
{
    let mut out: Vec<CStruct> = Vec::new();
    let mut i: usize = 0;
    while i < xs.len()
        invariant
            i <= xs@.len(),
            c_structs_v(out@) =~= c_structs_v(xs@).take(i as int),
        decreases xs@.len() - i,
    {
        let c = copy_c_struct(&xs[i]);
        proof {
            assert(c_structs_v(xs@).take(i + 1) =~= c_structs_v(xs@).take(i as int).push(c_struct_v(c)));
            assert(c_structs_v(out@.push(c)) =~= c_structs_v(out@).push(c_struct_v(c)));
        }
        out.push(c);
        i = i + 1;
    }
    proof {
        assert(c_structs_v(xs@).take(xs@.len() as int) =~= c_structs_v(xs@));
    }
    out
}

/// A C union definition.
#[derive(Debug, PartialEq)]
pub struct CUnion {
    pub name: String,
    pub fields: Vec<CField>,
}

/// The contents of a union definition.
pub struct CUnionV {
    pub name: Seq<char>,
    pub fields: Seq<CFieldV>,
}

/// The contents of a union definition.
pub open spec fn c_union_v(x: CUnion) -> CUnionV {
    CUnionV {
        name: x.name@,
        fields: c_fields_v(x.fields@),
    }
}

impl View for CUnion {
    type V = CUnionV;

    open spec fn view(&self) -> CUnionV {
        c_union_v(*self)
    }
}

/// The contents of a list of union definitions.
pub open spec fn c_unions_v(xs: Seq<CUnion>) -> Seq<CUnionV> {
    xs.map_values(|x: CUnion| c_union_v(x))
}

/// Copies a union definition.
pub fn copy_c_union(x: &CUnion) -> (r: CUnion)
    ensures
        c_union_v(r) == c_union_v(*x),
{
    CUnion {
        name: x.name.clone(),
        fields: copy_c_fields(&x.fields),
    }
}

impl Clone for CUnion {
    fn clone(&self) -> (r: Self)
        ensures
            r@ == self@,
    {
        copy_c_union(self)
    }
}

/// Copies a list of union definitions.
pub fn copy_c_unions(xs: &Vec<CUnion>) -> (r: Vec<CUnion>)
    ensures
        c_unions_v(r@) == c_unions_v(xs@),
    decreases *xs,
{
    let mut out: Vec<CUnion> = Vec::new();
    let mut i: usize = 0;
    while i < xs.len()
        invariant
            i <= xs@.len(),
            c_unions_v(out@) =~= c_unions_v(xs@).take(i as int),
        decreases xs@.len() - i,
    {
        let c = copy_c_union(&xs[i]);
        proof {
            assert(c_unions_v(xs@).take(i + 1) =~= c_unions_v(xs@).take(i as int).push(c_union_v(c)));
            assert(c_unions_v(out@.push(c)) =~= c_unions_v(out@).push(c_union_v(c)));
        }
        out.push(c);
        i = i + 1;
    }
    proof {
        assert(c_unions_v(xs@).take(xs@.len() as int) =~= c_unions_v(xs@));
    }
    out
}

/// A constant of a C enum.
#[derive(Debug, PartialEq)]
pub struct CEnumVariant {
    pub name: String,
    pub value: Option<i64>,
}

/// The contents of an enum constant.
pub struct CEnumVariantV {
    pub name: Seq<char>,
    pub value: Option<i64>,
}

/// The contents of an enum constant.
pub open spec fn c_enum_variant_v(x: CEnumVariant) -> CEnumVariantV {
    CEnumVariantV {
        name: x.name@,
        value: x.value,
    }
}

impl View for CEnumVariant {
    type V = CEnumVariantV;

    open spec fn view(&self) -> CEnumVariantV {
        c_enum_variant_v(*self)
    }
}

/// The contents of a list of enum constants.
pub open spec fn c_enum_variants_v(xs: Seq<CEnumVariant>) -> Seq<CEnumVariantV> {
    xs.map_values(|x: CEnumVariant| c_enum_variant_v(x))
}

/// Copies an enum constant.
pub fn copy_c_enum_variant(x: &CEnumVariant) -> (r: CEnumVariant)
    ensures
        c_enum_variant_v(r) == c_enum_variant_v(*x),
{
    CEnumVariant {
        name: x.name.clone(),
        value: x.value,
    }
}

impl Clone for CEnumVariant {
    fn clone(&self) -> (r: Self)
        ensures
            r@ == self@,
    {
        copy_c_enum_variant(self)
    }
}

/// Copies a list of enum constants.
pub fn copy_c_enum_variants(xs: &Vec<CEnumVariant>) -> (r: Vec<CEnumVariant>)
    ensures
        c_enum_variants_v(r@) == c_enum_variants_v(xs@),
    decreases *xs,
{
    let mut out: Vec<CEnumVariant> = Vec::new();
    let mut i: usize = 0;
    while i < xs.len()
        invariant
            i <= xs@.len(),
            c_enum_variants_v(out@) =~= c_enum_variants_v(xs@).take(i as int),
        decreases xs@.len() - i,
    {
        let c = copy_c_enum_variant(&xs[i]);
        proof {
            assert(c_enum_variants_v(xs@).take(i + 1) =~= c_enum_variants_v(xs@).take(i as int).push(c_enum_variant_v(c)));
            assert(c_enum_variants_v(out@.push(c)) =~= c_enum_variants_v(out@).push(c_enum_variant_v(c)));
        }
        out.push(c);
        i = i + 1;
    }
    proof {
        assert(c_enum_variants_v(xs@).take(xs@.len() as int) =~= c_enum_variants_v(xs@));
    }
    out
}

/// A C enum definition.
#[derive(Debug, PartialEq)]
pub struct CEnum {
    pub name: String,
    pub variants: Vec<CEnumVariant>,
}

/// The contents of an enum definition.
pub struct CEnumV {
    pub name: Seq<char>,
    pub variants: Seq<CEnumVariantV>,
}

/// The contents of an enum definition.
pub open spec fn c_enum_v(x: CEnum) -> CEnumV {
    CEnumV {
        name: x.name@,
        variants: c_enum_variants_v(x.variants@),
    }
}

impl View for CEnum {
    type V = CEnumV;

    open spec fn view(&self) -> CEnumV {
        c_enum_v(*self)
    }
}

/// The contents of a list of enum definitions.
pub open spec fn c_enums_v(xs: Seq<CEnum>) -> Seq<CEnumV> {
    xs.map_values(|x: CEnum| c_enum_v(x))
}

/// Copies an enum definition.
pub fn copy_c_enum(x: &CEnum) -> (r: CEnum)
    ensures
        c_enum_v(r) == c_enum_v(*x),
{
    CEnum {
        name: x.name.clone(),
        variants: copy_c_enum_variants(&x.variants),
    }
}

impl Clone for CEnum {
    fn clone(&self) -> (r: Self)
        ensures
            r@ == self@,
    {
        copy_c_enum(self)
    }
}

/// Copies a list of enum definitions.
pub fn copy_c_enums(xs: &Vec<CEnum>) -> (r: Vec<CEnum>)
    ensures
        c_enums_v(r@) == c_enums_v(xs@),
    decreases *xs,
{
    let mut out: Vec<CEnum> = Vec::new();
    let mut i: usize = 0;
    while i < xs.len()
        invariant
            i <= xs@.len(),
            c_enums_v(out@) =~= c_enums_v(xs@).take(i as int),
        decreases xs@.len() - i,
    {
        let c = copy_c_enum(&xs[i]);
        proof {
            assert(c_enums_v(xs@).take(i + 1) =~= c_enums_v(xs@).take(i as int).push(c_enum_v(c)));
            assert(c_enums_v(out@.push(c)) =~= c_enums_v(out@).push(c_enum_v(c)));
        }
        out.push(c);
        i = i + 1;
    }
    proof {
        assert(c_enums_v(xs@).take(xs@.len() as int) =~= c_enums_v(xs@));
    }
    out
}

/// A C typedef.
#[derive(Debug, PartialEq)]
pub struct CTypedef {
    pub name: String,
    pub underlying: CType,
}

/// The contents of a typedef.
pub struct CTypedefV {
    pub name: Seq<char>,
    pub underlying: CTypeV,
}

/// The contents of a typedef.
pub open spec fn c_typedef_v(x: CTypedef) -> CTypedefV {
    CTypedefV {
        name: x.name@,
        underlying: c_type_v(x.underlying),
    }
}

impl View for CTypedef {
    type V = CTypedefV;

    open spec fn view(&self) -> CTypedefV {
        c_typedef_v(*self)
    }
}

/// The contents of a list of typedefs.
pub open spec fn c_typedefs_v(xs: Seq<CTypedef>) -> Seq<CTypedefV> {
    xs.map_values(|x: CTypedef| c_typedef_v(x))
}

/// Copies a typedef.
pub fn copy_c_typedef(x: &CTypedef) -> (r: CTypedef)
    ensures
        c_typedef_v(r) == c_typedef_v(*x),
{
    CTypedef {
        name: x.name.clone(),
        underlying: copy_c_type(&x.underlying),
    }
}

impl Clone for CTypedef {
    fn clone(&self) -> (r: Self)
        ensures
            r@ == self@,
    {
        copy_c_typedef(self)
    }
}

/// Copies a list of typedefs.
pub fn copy_c_typedefs(xs: &Vec<CTypedef>) -> (r: Vec<CTypedef>)
    ensures
        c_typedefs_v(r@) == c_typedefs_v(xs@),
    decreases *xs,
{
    let mut out: Vec<CTypedef> = Vec::new();
    let mut i: usize = 0;
    while i < xs.len()
        invariant
            i <= xs@.len(),
            c_typedefs_v(out@) =~= c_typedefs_v(xs@).take(i as int),
        decreases xs@.len() - i,
    {
        let c = copy_c_typedef(&xs[i]);
        proof {
            assert(c_typedefs_v(xs@).take(i + 1) =~= c_typedefs_v(xs@).take(i as int).push(c_typedef_v(c)));
            assert(c_typedefs_v(out@.push(c)) =~= c_typedefs_v(out@).push(c_typedef_v(c)));
        }
        out.push(c);
        i = i + 1;
    }
    proof {
        assert(c_typedefs_v(xs@).take(xs@.len() as int) =~= c_typedefs_v(xs@));
    }
    out
}

/// The value of a macro constant. A floating-point value is held as its decimal text.
#[derive(Clone, Debug, PartialEq)]
pub enum MacroValue {
    Int(i64),
    Uint(u64),
    Float(String),
    String(String),
}

/// The contents of the value of a macro constant.
pub enum MacroValueV {
    Int(i64),
    Uint(u64),
    Float(Seq<char>),
    String(Seq<char>),
}

/// The contents of the value of a macro constant.
pub open spec fn macro_value_v(x: MacroValue) -> MacroValueV {
    match x {
        MacroValue::Int(n) => MacroValueV::Int(n),
        MacroValue::Uint(n) => MacroValueV::Uint(n),
        MacroValue::Float(s) => MacroValueV::Float(s@),
        MacroValue::String(s) => MacroValueV::String(s@),
    }
}

/// Copies the value of a macro constant.
pub fn copy_macro_value(x: &MacroValue) -> (r: MacroValue)
    ensures
        macro_value_v(r) == macro_value_v(*x),
{
    match x {
        MacroValue::Int(n) => MacroValue::Int(*n),
        MacroValue::Uint(n) => MacroValue::Uint(*n),
        MacroValue::Float(s) => MacroValue::Float(s.clone()),
        MacroValue::String(s) => MacroValue::String(s.clone()),
    }
}

/// A C macro constant.
#[derive(Debug, PartialEq)]
pub struct CMacroConstant {
    pub name: String,
    pub value: MacroValue,
}

/// The contents of a macro constant.
pub struct CMacroConstantV {
    pub name: Seq<char>,
    pub value: MacroValueV,
}

/// The contents of a macro constant.
pub open spec fn c_macro_constant_v(x: CMacroConstant) -> CMacroConstantV {
    CMacroConstantV {
        name: x.name@,
        value: macro_value_v(x.value),
    }
}

impl View for CMacroConstant {
    type V = CMacroConstantV;

    open spec fn view(&self) -> CMacroConstantV {
        c_macro_constant_v(*self)
    }
}

/// The contents of a list of macro constants.
pub open spec fn c_macro_constants_v(xs: Seq<CMacroConstant>) -> Seq<CMacroConstantV> {
    xs.map_values(|x: CMacroConstant| c_macro_constant_v(x))
}

/// Copies a macro constant.
pub fn copy_c_macro_constant(x: &CMacroConstant) -> (r: CMacroConstant)
    ensures
        c_macro_constant_v(r) == c_macro_constant_v(*x),
{
    CMacroConstant {
        name: x.name.clone(),
        value: copy_macro_value(&x.value),
    }
}

impl Clone for CMacroConstant {
    fn clone(&self) -> (r: Self)
        ensures
            r@ == self@,
    {
        copy_c_macro_constant(self)
    }
}

/// Copies a list of macro constants.
pub fn copy_c_macro_constants(xs: &Vec<CMacroConstant>) -> (r: Vec<CMacroConstant>)
    ensures
        c_macro_constants_v(r@) == c_macro_constants_v(xs@),
    decreases *xs,
{
    let mut out: Vec<CMacroConstant> = Vec::new();
    let mut i: usize = 0;
    while i < xs.len()
        invariant
            i <= xs@.len(),
            c_macro_constants_v(out@) =~= c_macro_constants_v(xs@).take(i as int),
        decreases xs@.len() - i,
    {
        let c = copy_c_macro_constant(&xs[i]);
        proof {
            assert(c_macro_constants_v(xs@).take(i + 1) =~= c_macro_constants_v(xs@).take(i as int).push(c_macro_constant_v(c)));
            assert(c_macro_constants_v(out@.push(c)) =~= c_macro_constants_v(out@).push(c_macro_constant_v(c)));
        }
        out.push(c);
        i = i + 1;
    }
    proof {
        assert(c_macro_constants_v(xs@).take(xs@.len() as int) =~= c_macro_constants_v(xs@));
    }
    out
}

/// A C global variable.
#[derive(Debug, PartialEq)]
pub struct CGlobalVar {
    pub name: String,
    pub ty: CType,
    pub is_const: bool,
}

/// The contents of a global variable.
pub struct CGlobalVarV {
    pub name: Seq<char>,
    pub ty: CTypeV,
    pub is_const: bool,
}

/// The contents of a global variable.
pub open spec fn c_global_var_v(x: CGlobalVar) -> CGlobalVarV {
    CGlobalVarV {
        name: x.name@,
        ty: c_type_v(x.ty),
        is_const: x.is_const,
    }
}

impl View for CGlobalVar {
    type V = CGlobalVarV;

    open spec fn view(&self) -> CGlobalVarV {
        c_global_var_v(*self)
    }
}

/// The contents of a list of global variables.
pub open spec fn c_global_vars_v(xs: Seq<CGlobalVar>) -> Seq<CGlobalVarV> {
    xs.map_values(|x: CGlobalVar| c_global_var_v(x))
}

/// Copies a global variable.
pub fn copy_c_global_var(x: &CGlobalVar) -> (r: CGlobalVar)
    ensures
        c_global_var_v(r) == c_global_var_v(*x),
{
    CGlobalVar {
        name: x.name.clone(),
        ty: copy_c_type(&x.ty),
        is_const: x.is_const,
    }
}

impl Clone for CGlobalVar {
    fn clone(&self) -> (r: Self)
        ensures
            r@ == self@,
    {
        copy_c_global_var(self)
    }
}

/// Copies a list of global variables.
pub fn copy_c_global_vars(xs: &Vec<CGlobalVar>) -> (r: Vec<CGlobalVar>)
    ensures
        c_global_vars_v(r@) == c_global_vars_v(xs@),
    decreases *xs,
{
    let mut out: Vec<CGlobalVar> = Vec::new();
    let mut i: usize = 0;
    while i < xs.len()
        invariant
            i <= xs@.len(),
            c_global_vars_v(out@) =~= c_global_vars_v(xs@).take(i as int),
        decreases xs@.len() - i,
    {
        let c = copy_c_global_var(&xs[i]);
        proof {
            assert(c_global_vars_v(xs@).take(i + 1) =~= c_global_vars_v(xs@).take(i as int).push(c_global_var_v(c)));
            assert(c_global_vars_v(out@.push(c)) =~= c_global_vars_v(out@).push(c_global_var_v(c)));
        }
        out.push(c);
        i = i + 1;
    }
    proof {
        assert(c_global_vars_v(xs@).take(xs@.len() as int) =~= c_global_vars_v(xs@));
    }
    out
}

/// A declaration that was skipped because of parse errors. Lines and columns count from one.
#[derive(Debug, PartialEq)]
pub struct SkippedNode {
    pub line: usize,
    pub column: usize,
    pub kind: String,
}

/// The contents of a skipped declaration.
pub struct SkippedNodeV {
    pub line: usize,
    pub column: usize,
    pub kind: Seq<char>,
}

/// The contents of a skipped declaration.
pub open spec fn skipped_node_v(x: SkippedNode) -> SkippedNodeV {
    SkippedNodeV {
        line: x.line,
        column: x.column,
        kind: x.kind@,
    }
}

impl View for SkippedNode {
    type V = SkippedNodeV;

    open spec fn view(&self) -> SkippedNodeV {
        skipped_node_v(*self)
    }
}

/// The contents of a list of skipped declarations.
pub open spec fn skipped_nodes_v(xs: Seq<SkippedNode>) -> Seq<SkippedNodeV> {
    xs.map_values(|x: SkippedNode| skipped_node_v(x))
}

/// Copies a skipped declaration.
pub fn copy_skipped_node(x: &SkippedNode) -> (r: SkippedNode)
    ensures
        skipped_node_v(r) == skipped_node_v(*x),
{
    SkippedNode {
        line: x.line,
        column: x.column,
        kind: x.kind.clone(),
    }
}

impl Clone for SkippedNode {
    fn clone(&self) -> (r: Self)
        ensures
            r@ == self@,
    {
        copy_skipped_node(self)
    }
}

/// Copies a list of skipped declarations.
pub fn copy_skipped_nodes(xs: &Vec<SkippedNode>) -> (r: Vec<SkippedNode>)
    ensures
        skipped_nodes_v(r@) == skipped_nodes_v(xs@),
    decreases *xs,
{
    let mut out: Vec<SkippedNode> = Vec::new();
    let mut i: usize = 0;
    while i < xs.len()
        invariant
            i <= xs@.len(),
            skipped_nodes_v(out@) =~= skipped_nodes_v(xs@).take(i as int),
        decreases xs@.len() - i,
    {
        let c = copy_skipped_node(&xs[i]);
        proof {
            assert(skipped_nodes_v(xs@).take(i + 1) =~= skipped_nodes_v(xs@).take(i as int).push(skipped_node_v(c)));
            assert(skipped_nodes_v(out@.push(c)) =~= skipped_nodes_v(out@).push(skipped_node_v(c)));
        }
        out.push(c);
        i = i + 1;
    }
    proof {
        assert(skipped_nodes_v(xs@).take(xs@.len() as int) =~= skipped_nodes_v(xs@));
    }
    out
}

/// All declarations of a C header.
#[derive(Debug, PartialEq)]
pub struct CDeclarations {
    pub functions: Vec<CFunction>,
    pub structs: Vec<CStruct>,
    pub unions: Vec<CUnion>,
    pub enums: Vec<CEnum>,
    pub typedefs: Vec<CTypedef>,
    pub macro_constants: Vec<CMacroConstant>,
    pub globals: Vec<CGlobalVar>,
    pub skipped_nodes: Vec<SkippedNode>,
}

/// The contents of a set of declarations.
pub struct CDeclarationsV {
    pub functions: Seq<CFunctionV>,
    pub structs: Seq<CStructV>,
    pub unions: Seq<CUnionV>,
    pub enums: Seq<CEnumV>,
    pub typedefs: Seq<CTypedefV>,
    pub macro_constants: Seq<CMacroConstantV>,
    pub globals: Seq<CGlobalVarV>,
    pub skipped_nodes: Seq<SkippedNodeV>,
}

/// The contents of a set of declarations.
pub open spec fn c_declarations_v(x: CDeclarations) -> CDeclarationsV {
    CDeclarationsV {
        functions: c_functions_v(x.functions@),
        structs: c_structs_v(x.structs@),
        unions: c_unions_v(x.unions@),
        enums: c_enums_v(x.enums@),
        typedefs: c_typedefs_v(x.typedefs@),
        macro_constants: c_macro_constants_v(x.macro_constants@),
        globals: c_global_vars_v(x.globals@),
        skipped_nodes: skipped_nodes_v(x.skipped_nodes@),
    }
}

impl View for CDeclarations {
    type V = CDeclarationsV;

    open spec fn view(&self) -> CDeclarationsV {
        c_declarations_v(*self)
    }
}

/// Copies a set of declarations.
pub fn copy_c_declarations(x: &CDeclarations) -> (r: CDeclarations)
    ensures
        c_declarations_v(r) == c_declarations_v(*x),
{
    CDeclarations {
        functions: copy_c_functions(&x.functions),
        structs: copy_c_structs(&x.structs),
        unions: copy_c_unions(&x.unions),
        enums: copy_c_enums(&x.enums),
        typedefs: copy_c_typedefs(&x.typedefs),
        macro_constants: copy_c_macro_constants(&x.macro_constants),
        globals: copy_c_global_vars(&x.globals),
        skipped_nodes: copy_skipped_nodes(&x.skipped_nodes),
    }
}

impl Clone for CDeclarations {
    fn clone(&self) -> (r: Self)
        ensures
            r@ == self@,
    {
        copy_c_declarations(self)
    }
}

impl Default for CDeclarations {
    fn default() -> (r: Self)
        ensures
            r@ == no_declarations(),
    {
        let r = CDeclarations {
            functions: Vec::new(),
            structs: Vec::new(),
            unions: Vec::new(),
            enums: Vec::new(),
            typedefs: Vec::new(),
            macro_constants: Vec::new(),
            globals: Vec::new(),
            skipped_nodes: Vec::new(),
        };
        proof {
            assert(r@.functions =~= no_declarations().functions);
            assert(r@.structs =~= no_declarations().structs);
            assert(r@.unions =~= no_declarations().unions);
            assert(r@.enums =~= no_declarations().enums);
            assert(r@.typedefs =~= no_declarations().typedefs);
            assert(r@.macro_constants =~= no_declarations().macro_constants);
            assert(r@.globals =~= no_declarations().globals);
            assert(r@.skipped_nodes =~= no_declarations().skipped_nodes);
        }
        r
    }
}

/// No declarations.
pub open spec fn no_declarations() -> CDeclarationsV {
    CDeclarationsV {
        functions: Seq::empty(),
        structs: Seq::empty(),
        unions: Seq::empty(),
        enums: Seq::empty(),
        typedefs: Seq::empty(),
        macro_constants: Seq::empty(),
        globals: Seq::empty(),
        skipped_nodes: Seq::empty(),
    }
}

/// The declarations of `a`, followed by those of `b`.
pub open spec fn both(a: CDeclarationsV, b: CDeclarationsV) -> CDeclarationsV {
    CDeclarationsV {
        functions: a.functions + b.functions,
        structs: a.structs + b.structs,
        unions: a.unions + b.unions,
        enums: a.enums + b.enums,
        typedefs: a.typedefs + b.typedefs,
        macro_constants: a.macro_constants + b.macro_constants,
        globals: a.globals + b.globals,
        skipped_nodes: a.skipped_nodes + b.skipped_nodes,
    }
}

/// Merging is associative, and merging nothing changes nothing.
pub proof fn law_merging(a: CDeclarationsV, b: CDeclarationsV, c: CDeclarationsV)
    ensures
        both(both(a, b), c) == both(a, both(b, c)),
        both(a, no_declarations()) == a,
        both(no_declarations(), a) == a,
{
    assert(both(both(a, b), c).functions =~= both(a, both(b, c)).functions);
    assert(both(a, no_declarations()).functions =~= a.functions);
    assert(both(no_declarations(), a).functions =~= a.functions);
    assert(both(both(a, b), c).structs =~= both(a, both(b, c)).structs);
    assert(both(a, no_declarations()).structs =~= a.structs);
    assert(both(no_declarations(), a).structs =~= a.structs);
    assert(both(both(a, b), c).unions =~= both(a, both(b, c)).unions);
    assert(both(a, no_declarations()).unions =~= a.unions);
    assert(both(no_declarations(), a).unions =~= a.unions);
    assert(both(both(a, b), c).enums =~= both(a, both(b, c)).enums);
    assert(both(a, no_declarations()).enums =~= a.enums);
    assert(both(no_declarations(), a).enums =~= a.enums);
    assert(both(both(a, b), c).typedefs =~= both(a, both(b, c)).typedefs);
    assert(both(a, no_declarations()).typedefs =~= a.typedefs);
    assert(both(no_declarations(), a).typedefs =~= a.typedefs);
    assert(both(both(a, b), c).macro_constants =~= both(a, both(b, c)).macro_constants);
    assert(both(a, no_declarations()).macro_constants =~= a.macro_constants);
    assert(both(no_declarations(), a).macro_constants =~= a.macro_constants);
    assert(both(both(a, b), c).globals =~= both(a, both(b, c)).globals);
    assert(both(a, no_declarations()).globals =~= a.globals);
    assert(both(no_declarations(), a).globals =~= a.globals);
    assert(both(both(a, b), c).skipped_nodes =~= both(a, both(b, c)).skipped_nodes);
    assert(both(a, no_declarations()).skipped_nodes =~= a.skipped_nodes);
    assert(both(no_declarations(), a).skipped_nodes =~= a.skipped_nodes);
}

impl CDeclarations {
    /// Whether no declarations were found.
    pub fn is_empty(&self) -> (r: bool)
        ensures
            r == (self@.functions.len() == 0 && self@.structs.len() == 0 && self@.unions.len() == 0 && self@.enums.len() == 0 && self@.typedefs.len() == 0 && self@.macro_constants.len() == 0 && self@.globals.len() == 0),
    {
        self.functions.len() == 0 && self.structs.len() == 0 && self.unions.len() == 0 && self.enums.len() == 0 && self.typedefs.len() == 0 && self.macro_constants.len() == 0 && self.globals.len() == 0
    }

    /// Appends another set of declarations.
    pub fn merge(&mut self, other: CDeclarations)
        ensures
            final(self)@ == both(old(self)@, other@),
    {
        let ghost a = self@;
        let ghost b = other@;
        let mut other = other;
        self.functions.append(&mut other.functions);
        self.structs.append(&mut other.structs);
        self.unions.append(&mut other.unions);
        self.enums.append(&mut other.enums);
        self.typedefs.append(&mut other.typedefs);
        self.macro_constants.append(&mut other.macro_constants);
        self.globals.append(&mut other.globals);
        self.skipped_nodes.append(&mut other.skipped_nodes);
        proof {
            assert(self@.functions =~= both(a, b).functions);
            assert(self@.structs =~= both(a, b).structs);
            assert(self@.unions =~= both(a, b).unions);
            assert(self@.enums =~= both(a, b).enums);
            assert(self@.typedefs =~= both(a, b).typedefs);
            assert(self@.macro_constants =~= both(a, b).macro_constants);
            assert(self@.globals =~= both(a, b).globals);
            assert(self@.skipped_nodes =~= both(a, b).skipped_nodes);
        }
    }

    /// The underlying type of the first typedef with the given name.
    pub fn lookup_typedef(&self, name: &str) -> (r: Option<&CType>)
        ensures
            match r {
                Some(t) => typedef_of(self@.typedefs, name@) == Some(t@),
                None => typedef_of(self@.typedefs, name@) is None,
            },
    {
        let mut i: usize = 0;
        proof {
            assert(self@.typedefs.skip(0) =~= self@.typedefs);
        }
        while i < self.typedefs.len()
            invariant
                i <= self.typedefs@.len(),
                typedef_of(self@.typedefs, name@) == typedef_of(self@.typedefs.skip(i as int), name@),
            decreases self.typedefs@.len() - i,
        {
            proof {
                assert(self@.typedefs.skip(i as int)[0] == c_typedef_v(self.typedefs@[i as int]));
                assert(self@.typedefs.skip(i as int).skip(1) =~= self@.typedefs.skip(i + 1));
            }
            if text::text_eq(self.typedefs[i].name.as_str(), name) {
                return Some(&self.typedefs[i].underlying);
            }
            i = i + 1;
        }
        None
    }

    /// The first struct with the given name.
    pub fn lookup_struct(&self, name: &str) -> (r: Option<&CStruct>)
        ensures
            match r {
                Some(s) => struct_of(self@.structs, name@) == Some(s@),
                None => struct_of(self@.structs, name@) is None,
            },
    {
        let mut i: usize = 0;
        proof {
            assert(self@.structs.skip(0) =~= self@.structs);
        }
        while i < self.structs.len()
            invariant
                i <= self.structs@.len(),
                struct_of(self@.structs, name@) == struct_of(self@.structs.skip(i as int), name@),
            decreases self.structs@.len() - i,
        {
            proof {
                assert(self@.structs.skip(i as int)[0] == c_struct_v(self.structs@[i as int]));
                assert(self@.structs.skip(i as int).skip(1) =~= self@.structs.skip(i + 1));
            }
            if text::text_eq(self.structs[i].name.as_str(), name) {
                return Some(&self.structs[i]);
            }
            i = i + 1;
        }
        None
    }

    /// The functions with the given name.
    pub fn lookup_functions(&self, name: &str) -> (r: Vec<&CFunction>)
        ensures
            r@.map_values(|f: &CFunction| f@) == functions_of(self@.functions, name@),
    {
        let mut out: Vec<&CFunction> = Vec::new();
        let mut i: usize = 0;
        let ghost pred = |f: CFunctionV| f.name == name@;
        proof {
            reveal(Seq::filter);
            assert(out@.map_values(|f: &CFunction| f@) =~= self@.functions.take(0).filter(pred));
        }
        while i < self.functions.len()
            invariant
                i <= self.functions@.len(),
                pred == (|f: CFunctionV| f.name == name@),
                out@.map_values(|f: &CFunction| f@) == self@.functions.take(i as int).filter(pred),
            decreases self.functions@.len() - i,
        {
            let ghost o = out@;
            proof {
                reveal(Seq::filter);
                assert(self@.functions.take(i + 1).drop_last() =~= self@.functions.take(i as int));
                assert(self@.functions.take(i + 1).last() == c_function_v(self.functions@[i as int]));
            }
            if text::text_eq(self.functions[i].name.as_str(), name) {
                out.push(&self.functions[i]);
                proof {
                    assert(out@.map_values(|f: &CFunction| f@) =~= o.map_values(|f: &CFunction| f@).push(
                        self.functions@[i as int]@,
                    ));
                }
            }
            i = i + 1;
        }
        proof {
            assert(self@.functions.take(self.functions@.len() as int) =~= self@.functions);
        }
        out
    }
}

} // verus!
