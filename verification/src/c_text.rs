//! Spellings in C: operators, lines, and the headers that types need.
use crate::ast::{AssignmentOperator, BinaryOperator, UnaryOperator};
use crate::text;
use crate::types::{c_name, c_names, lemma_type_v, tuple_name, types_v, Type, TypeV};
use vstd::prelude::*;

verus! {

/// The C spelling of a binary operator.
pub open spec fn binary_c(op: BinaryOperator) -> Seq<char> {
    match op {
        BinaryOperator::Add => "+"@,
        BinaryOperator::Sub => "-"@,
        BinaryOperator::Mul => "*"@,
        BinaryOperator::Div => "/"@,
        BinaryOperator::Mod => "%"@,
        BinaryOperator::Eq => "=="@,
        BinaryOperator::Ne => "!="@,
        BinaryOperator::Lt => "<"@,
        BinaryOperator::Le => "<="@,
        BinaryOperator::Gt => ">"@,
        BinaryOperator::Ge => ">="@,
        BinaryOperator::And => "&&"@,
        BinaryOperator::Or => "||"@,
        BinaryOperator::BitAnd => "&"@,
        BinaryOperator::BitOr => "|"@,
        BinaryOperator::BitXor => "^"@,
        BinaryOperator::Shl => "<<"@,
        BinaryOperator::Shr => ">>"@,
    }
}

impl BinaryOperator {
    /// The C spelling.
    pub fn to_c_str(&self) -> (r: &'static str)
        ensures
            r@ == binary_c(*self),
    {
        match self {
            BinaryOperator::Add => "+",
            BinaryOperator::Sub => "-",
            BinaryOperator::Mul => "*",
            BinaryOperator::Div => "/",
            BinaryOperator::Mod => "%",
            BinaryOperator::Eq => "==",
            BinaryOperator::Ne => "!=",
            BinaryOperator::Lt => "<",
            BinaryOperator::Le => "<=",
            BinaryOperator::Gt => ">",
            BinaryOperator::Ge => ">=",
            BinaryOperator::And => "&&",
            BinaryOperator::Or => "||",
            BinaryOperator::BitAnd => "&",
            BinaryOperator::BitOr => "|",
            BinaryOperator::BitXor => "^",
            BinaryOperator::Shl => "<<",
            BinaryOperator::Shr => ">>",
        }
    }
}

/// The C spelling of an assignment operator.
pub open spec fn assignment_c(op: AssignmentOperator) -> Seq<char> {
    match op {
        AssignmentOperator::Assign => "="@,
        AssignmentOperator::AddAssign => "+="@,
        AssignmentOperator::SubAssign => "-="@,
        AssignmentOperator::MulAssign => "*="@,
        AssignmentOperator::DivAssign => "/="@,
        AssignmentOperator::ModAssign => "%="@,
        AssignmentOperator::AndAssign => "&="@,
        AssignmentOperator::OrAssign => "|="@,
        AssignmentOperator::XorAssign => "^="@,
        AssignmentOperator::ShlAssign => "<<="@,
        AssignmentOperator::ShrAssign => ">>="@,
    }
}

impl AssignmentOperator {
    /// The C spelling.
    pub fn to_c_str(&self) -> (r: &'static str)
        ensures
            r@ == assignment_c(*self),
    {
        match self {
            AssignmentOperator::Assign => "=",
            AssignmentOperator::AddAssign => "+=",
            AssignmentOperator::SubAssign => "-=",
            AssignmentOperator::MulAssign => "*=",
            AssignmentOperator::DivAssign => "/=",
            AssignmentOperator::ModAssign => "%=",
            AssignmentOperator::AndAssign => "&=",
            AssignmentOperator::OrAssign => "|=",
            AssignmentOperator::XorAssign => "^=",
            AssignmentOperator::ShlAssign => "<<=",
            AssignmentOperator::ShrAssign => ">>=",
        }
    }
}

/// The C spelling of a unary operator.
pub open spec fn unary_c(op: UnaryOperator) -> Seq<char> {
    match op {
        UnaryOperator::Not => "!"@,
        UnaryOperator::Neg => "-"@,
        UnaryOperator::Dereference => "*"@,
        UnaryOperator::AddressOf => "&"@,
        UnaryOperator::BitNot => "~"@,
        UnaryOperator::PreIncrement => "++"@,
        UnaryOperator::PreDecrement => "--"@,
        UnaryOperator::PostIncrement => "++"@,
        UnaryOperator::PostDecrement => "--"@,
    }
}

impl UnaryOperator {
    /// The C spelling.
    pub fn to_c_str(&self) -> (r: &'static str)
        ensures
            r@ == unary_c(*self),
    {
        match self {
            UnaryOperator::Not => "!",
            UnaryOperator::Neg => "-",
            UnaryOperator::Dereference => "*",
            UnaryOperator::AddressOf => "&",
            UnaryOperator::BitNot => "~",
            UnaryOperator::PreIncrement => "++",
            UnaryOperator::PreDecrement => "--",
            UnaryOperator::PostIncrement => "++",
            UnaryOperator::PostDecrement => "--",
        }
    }
}

/// Whether a unary operator stands behind its operand.
pub open spec fn is_postfix(op: UnaryOperator) -> bool {
    op is PostIncrement || op is PostDecrement
}

/// The lines from position `i` on of a text split at line feeds, each indented by four spaces
/// and ended by a line feed. The last part is a line only where it is not empty; a carriage
/// return before a line feed is dropped.
pub open spec fn indented_lines(parts: Seq<Seq<char>>, i: int) -> Seq<char>
    decreases parts.len() - i,
{
    if i < 0 || i >= parts.len() {
        Seq::empty()
    } else if i == parts.len() - 1 {
        if parts[i].len() == 0 {
            Seq::empty()
        } else {
            "    "@ + parts[i] + "\n"@
        }
    } else {
        "    "@ + without_return(parts[i]) + "\n"@ + indented_lines(parts, i + 1)
    }
}

/// A line without the carriage return at its end.
pub open spec fn without_return(line: Seq<char>) -> Seq<char> {
    if line.len() > 0 && line.last() == '\r' {
        line.drop_last()
    } else {
        line
    }
}

/// A text with every line indented.
pub open spec fn indented(code: Seq<char>) -> Seq<char> {
    indented_lines(text::split_on(code, '\n'), 0)
}

fn drop_return(line: &String) -> (r: String)
    ensures
        r@ == without_return(line@),
{
    let cs = text::chars_of(line.as_str());
    if cs.len() > 0 && cs[cs.len() - 1] == '\r' {
        proof {
            assert(cs@.subrange(0, cs@.len() - 1) =~= cs@.drop_last());
        }
        text::string_of(&cs, 0, cs.len() - 1)
    } else {
        line.clone()
    }
}

/// Indents every line of a text.
pub fn indent(code: &str) -> (r: String)
    ensures
        r@ == indented(code@),
{
    let parts = text::split(code, '\n');
    let ghost pv = text::texts(parts@);
    let mut out = String::new();
    let mut i: usize = 0;
    proof {
        assert(out@ + indented_lines(pv, 0) =~= indented_lines(pv, 0));
    }
    while i < parts.len()
        invariant
            i <= parts@.len(),
            pv == text::texts(parts@),
            pv == text::split_on(code@, '\n'),
            out@ + indented_lines(pv, i as int) == indented_lines(pv, 0),
        decreases parts@.len() - i,
    {
        assert(pv[i as int] == parts@[i as int]@);
        assert(pv.len() == parts@.len());
        let ghost before = out@;
        if i == parts.len() - 1 {
            if parts[i].as_str().unicode_len() > 0 {
                out = out.concat("    ").concat(parts[i].as_str()).concat("\n");
                proof {
                    assert(indented_lines(pv, i + 1) =~= Seq::<char>::empty());
                    assert(out@ + indented_lines(pv, i + 1) =~= before + indented_lines(pv, i as int));
                }
            } else {
                proof {
                    assert(indented_lines(pv, i + 1) =~= Seq::<char>::empty());
                    assert(out@ + indented_lines(pv, i + 1) =~= before + indented_lines(pv, i as int));
                }
            }
        } else {
            let line = drop_return(&parts[i]);
            out = out.concat("    ").concat(line.as_str()).concat("\n");
            proof {
                assert(out@ + indented_lines(pv, i + 1) =~= before + indented_lines(pv, i as int));
            }
        }
        i = i + 1;
    }
    proof {
        assert(out@ + indented_lines(pv, i as int) =~= out@);
    }
    out
}

/// The C headers that a type needs, in the order of its parts.
pub open spec fn type_headers(t: TypeV) -> Seq<Seq<char>>
    decreases t, 0int,
{
    match t {
        TypeV::Bool => seq!["<stdbool.h>"@],
        TypeV::Size => seq!["<stddef.h>"@],
        TypeV::Int8 | TypeV::Int16 | TypeV::Int32 | TypeV::Int64 | TypeV::Uint8 | TypeV::Uint16 | TypeV::Uint32
        | TypeV::Uint64 => seq!["<stdint.h>"@],
        TypeV::Ptr(x) => type_headers(*x),
        TypeV::CArray(x, _) => type_headers(*x),
        TypeV::Tuple(xs) => types_headers(xs, 0),
        TypeV::Function { param_tys, ret_ty } => types_headers(param_tys, 0) + type_headers(*ret_ty),
        _ => Seq::empty(),
    }
}

/// The C headers that the types from position `i` on need.
pub open spec fn types_headers(ts: Seq<TypeV>, i: int) -> Seq<Seq<char>>
    decreases ts, ts.len() - i,
    when 0 <= i <= ts.len()
{
    if i >= ts.len() {
        Seq::empty()
    } else {
        type_headers(ts[i]) + types_headers(ts, i + 1)
    }
}

/// The members of the C struct for a tuple, from position `i` on.
pub open spec fn tuple_members(ts: Seq<TypeV>, i: int) -> Seq<char>
    decreases ts.len() - i,
{
    if i < 0 || i >= ts.len() {
        Seq::empty()
    } else {
        "    "@ + c_name(ts[i]) + " _"@ + text::decimal_text(i as nat) + ";\n"@ + tuple_members(ts, i + 1)
    }
}

/// The C declaration that a type needs: that of the struct for a tuple.
pub open spec fn type_declaration(t: TypeV) -> Option<Seq<char>> {
    match t {
        TypeV::Tuple(ts) => Some(
            "typedef struct {\n"@ + tuple_members(ts, 0) + "} "@ + tuple_name(c_names(ts)) + ";"@,
        ),
        _ => None,
    }
}

fn push_header(out: &mut Vec<String>, h: &str)
    ensures
        text::texts(final(out)@) == text::texts(old(out)@) + seq![h@],
{
    let s = h.to_owned();
    let ghost before = out@;
    out.push(s);
    proof {
        assert(text::texts(out@) =~= text::texts(before) + seq![h@]);
    }
}

/// Appends the C headers that a type needs.
pub fn add_type_headers(t: &Type, out: &mut Vec<String>)
    ensures
        text::texts(final(out)@) == text::texts(old(out)@) + type_headers(t@),
    decreases *t, 0int,
{
    broadcast use lemma_type_v;

    let ghost o = text::texts(out@);
    match t {
        Type::Bool => push_header(out, "<stdbool.h>"),
        Type::Size => push_header(out, "<stddef.h>"),
        Type::Int8 | Type::Int16 | Type::Int32 | Type::Int64 | Type::Uint8 | Type::Uint16 | Type::Uint32
        | Type::Uint64 => push_header(out, "<stdint.h>"),
        Type::Ptr(x) => add_type_headers(x, out),
        Type::CArray(x, _) => add_type_headers(x, out),
        Type::Tuple(xs) => add_types_headers(xs, out),
        Type::Function { param_tys, ret_ty } => {
            add_types_headers(param_tys, out);
            add_type_headers(ret_ty, out);
            proof {
                assert(text::texts(out@) =~= o + type_headers(t@));
            }
        },
        _ => {
            proof {
                assert(text::texts(out@) =~= o + type_headers(t@));
            }
        },
    }
}

fn add_types_headers(xs: &Vec<Type>, out: &mut Vec<String>)
    ensures
        text::texts(final(out)@) == text::texts(old(out)@) + types_headers(types_v(xs@), 0),
    decreases *xs, 0int,
{
    let ghost o = text::texts(out@);
    let ghost all = types_headers(types_v(xs@), 0);
    let mut i: usize = 0;
    while i < xs.len()
        invariant
            i <= xs@.len(),
            o == text::texts(old(out)@),
            all == types_headers(types_v(xs@), 0),
            o + all == text::texts(out@) + types_headers(types_v(xs@), i as int),
        decreases xs@.len() - i,
    {
        let ghost before = text::texts(out@);
        assert(types_v(xs@)[i as int] == xs@[i as int]@);
        add_type_headers(&xs[i], out);
        proof {
            assert(text::texts(out@) + types_headers(types_v(xs@), i + 1) =~= before + types_headers(
                types_v(xs@),
                i as int,
            ));
        }
        i = i + 1;
    }
    proof {
        assert(text::texts(out@) + types_headers(types_v(xs@), i as int) =~= text::texts(out@));
    }
}

/// The C declaration that a type needs.
pub fn declaration_of(t: &Type) -> (r: Option<String>)
    ensures
        crate::escape::opt_text(r) == type_declaration(t@),
{
    broadcast use lemma_type_v;

    match t {
        Type::Tuple(ts) => {
            let mut members = String::new();
            let ghost tv = types_v(ts@);
            let mut i: usize = 0;
            proof {
                assert(members@ + tuple_members(tv, 0) =~= tuple_members(tv, 0));
            }
            while i < ts.len()
                invariant
                    i <= ts@.len(),
                    tv == types_v(ts@),
                    members@ + tuple_members(tv, i as int) == tuple_members(tv, 0),
                decreases ts@.len() - i,
            {
                let ghost before = members@;
                assert(tv[i as int] == ts@[i as int]@);
                members = members.concat("    ").concat(ts[i].to_c_name().as_str()).concat(" _").concat(
                    text::decimal(i as u64).as_str(),
                ).concat(";\n");
                proof {
                    assert(members@ + tuple_members(tv, i + 1) =~= before + tuple_members(tv, i as int));
                }
                i = i + 1;
            }
            proof {
                assert(members@ + tuple_members(tv, i as int) =~= members@);
                assert(t@ == TypeV::Tuple(tv));
                assert(tuple_name(c_names(tv)) == c_name(t@));
            }
            Some(
                "typedef struct {\n".to_owned().concat(members.as_str()).concat("} ").concat(
                    t.to_c_name().as_str(),
                ).concat(";"),
            )
        },
        _ => None,
    }
}

} // verus!
