//! Enum definitions of a C header, taken from its syntax tree.
use crate::c_parse::{child_of_kind, find_child, is_kind, opt_name};
use crate::c_syntax::{lemma_node_v, nodes_v, CNode, CNodeV};
use crate::ctypes::{c_enum_v, c_enum_variant_v, c_enum_variants_v, CEnum, CEnumV, CEnumVariant, CEnumVariantV};
use crate::text;
use vstd::prelude::*;

verus! {

/// The value of a digit.
pub open spec fn digit_of(c: char) -> int {
    if '0' <= c && c <= '9' {
        c as int - '0' as int
    } else if 'a' <= c && c <= 'f' {
        c as int - 'a' as int + 10
    } else if 'A' <= c && c <= 'F' {
        c as int - 'A' as int + 10
    } else {
        255
    }
}

/// Whether a text is a numeral of the given base.
pub open spec fn is_numeral(s: Seq<char>, base: int) -> bool {
    s.len() > 0 && forall|i: int| 0 <= i < s.len() ==> digit_of(#[trigger] s[i]) < base
}

/// The value of a numeral.
pub open spec fn numeral_value(s: Seq<char>, base: int) -> int
    decreases s.len(),
{
    if s.len() == 0 {
        0
    } else {
        numeral_value(s.drop_last(), base) * base + digit_of(s.last())
    }
}

/// Whether a character is part of the suffix that says how wide a constant is.
pub open spec fn is_width_mark(c: char) -> bool {
    c == 'u' || c == 'U' || c == 'l' || c == 'L'
}

/// The length of a constant without its suffix, where only the first `n` characters are left.
pub open spec fn bare_length(s: Seq<char>, n: int) -> int
    decreases n,
{
    if n <= 0 || n > s.len() || !is_width_mark(s[n - 1]) {
        n
    } else {
        bare_length(s, n - 1)
    }
}

/// Where the digits of an unsigned constant begin, and their base.
pub open spec fn radix_of(s: Seq<char>) -> (int, int) {
    if s.len() > 2 && s[0] == '0' && (s[1] == 'x' || s[1] == 'X') {
        (2, 16)
    } else if s.len() > 1 && s[0] == '0' {
        (1, 8)
    } else {
        (0, 10)
    }
}

/// The value of an unsigned integer constant of C.
pub open spec fn unsigned_constant(s: Seq<char>) -> Option<int> {
    let t = s.take(bare_length(s, s.len() as int));
    let (from, base) = radix_of(t);
    if is_numeral(t.skip(from), base) {
        Some(numeral_value(t.skip(from), base))
    } else {
        None
    }
}

/// The value of an integer constant of C, perhaps behind a minus sign; nothing for any other
/// expression, and nothing where it is out of range.
pub open spec fn integer_constant(s: Seq<char>) -> Option<i64> {
    let negative = s.len() > 0 && s[0] == '-';
    match unsigned_constant(if negative { s.skip(1) } else { s }) {
        Some(v) => {
            let w = if negative { -v } else { v };
            if i64::MIN <= w <= i64::MAX {
                Some(w as i64)
            } else {
                None
            }
        },
        None => None,
    }
}

fn digit(c: char) -> (r: u32)
    ensures
        r == digit_of(c),
{
    if '0' <= c && c <= '9' {
        c as u32 - '0' as u32
    } else if 'a' <= c && c <= 'f' {
        c as u32 - 'a' as u32 + 10
    } else if 'A' <= c && c <= 'F' {
        c as u32 - 'A' as u32 + 10
    } else {
        255
    }
}

/// The value of the digits between two positions, capped above all values that are in range.
fn read_numeral(cs: &Vec<char>, from: usize, to: usize, base: u32) -> (r: Option<u64>)
    requires
        from <= to <= cs@.len(),
        base == 8 || base == 10 || base == 16,
    ensures
        match r {
            Some(v) => is_numeral(cs@.subrange(from as int, to as int), base as int) && if v < u64::MAX {
                v == numeral_value(cs@.subrange(from as int, to as int), base as int)
            } else {
                numeral_value(cs@.subrange(from as int, to as int), base as int) >= u64::MAX
            },
            None => !is_numeral(cs@.subrange(from as int, to as int), base as int),
        },
{
    let ghost all = cs@.subrange(from as int, to as int);
    let mut v: u64 = 0;
    let mut i: usize = from;
    proof {
        assert(all.take(0) =~= Seq::<char>::empty());
    }
    while i < to
        invariant
            from <= i <= to <= cs@.len(),
            base == 8 || base == 10 || base == 16,
            all == cs@.subrange(from as int, to as int),
            forall|j: int| 0 <= j < i - from ==> digit_of(#[trigger] all[j]) < base,
            numeral_value(all.take(i - from), base as int) >= 0,
            v < u64::MAX ==> v == numeral_value(all.take(i - from), base as int),
            v == u64::MAX ==> numeral_value(all.take(i - from), base as int) >= u64::MAX,
        decreases to - i,
    {
        let d = digit(cs[i]);
        let ghost before = numeral_value(all.take(i - from), base as int);
        proof {
            assert(all[i - from] == cs@[i as int]);
            assert(all.take(i + 1 - from).drop_last() =~= all.take(i - from));
            assert(all.take(i + 1 - from).last() == cs@[i as int]);
        }
        if d >= base {
            return None;
        }
        let wide: u128 = (v as u128) * (base as u128) + d as u128;
        proof {
            if v == u64::MAX {
                assert(before * base + d >= u64::MAX) by (nonlinear_arith)
                    requires
                        before >= u64::MAX,
                        base >= 8,
                        d >= 0,
                ;
            }
            assert(before * base >= 0) by (nonlinear_arith)
                requires
                    before >= 0,
                    base >= 8,
            ;
        }
        if v == u64::MAX || wide >= u64::MAX as u128 {
            v = u64::MAX;
        } else {
            v = wide as u64;
        }
        i = i + 1;
    }
    proof {
        assert(all.take(to - from) =~= all);
    }
    if from == to {
        return None;
    }
    Some(v)
}

/// The value of an integer constant of C.
pub fn read_constant(s: &str) -> (r: Option<i64>)
    ensures
        r == integer_constant(s@),
{
    let cs = text::chars_of(s);
    let negative = cs.len() > 0 && cs[0] == '-';
    let start: usize = if negative { 1 } else { 0 };
    let ghost u = if negative { s@.skip(1) } else { s@ };
    let total: usize = cs.len();
    let mut n: usize = total;
    while n > start && (cs[n - 1] == 'u' || cs[n - 1] == 'U' || cs[n - 1] == 'l' || cs[n - 1] == 'L')
        invariant
            start <= n <= total,
            total == cs@.len(),
            cs@ == s@,
            u == s@.skip(start as int),
            bare_length(u, total - start) == bare_length(u, n - start),
        decreases n,
    {
        assert(u[n - 1 - start] == cs@[n - 1]);
        n = n - 1;
    }
    let ghost t = u.take(n - start);
    proof {
        if n > start {
            assert(u[n - 1 - start] == cs@[n - 1]);
        }
        assert(t == u.take(bare_length(u, u.len() as int)));
        assert forall|j: int| 0 <= j < t.len() implies t[j] == cs@[start + j] by {
        }
    }
    let len: usize = n - start;
    let (skip, base): (usize, u32) = if len > 2 && cs[start] == '0' && (cs[start + 1] == 'x' || cs[start + 1]
        == 'X') {
        (2, 16)
    } else if len > 1 && cs[start] == '0' {
        (1, 8)
    } else {
        (0, 10)
    };
    proof {
        assert(t.skip(skip as int) =~= cs@.subrange(start + skip, n as int));
    }
    match read_numeral(&cs, start + skip, n, base) {
        None => None,
        Some(v) => if negative {
            if v <= 0x8000_0000_0000_0000 {
                let w: i128 = -(v as i128);
                Some(w as i64)
            } else {
                None
            }
        } else if v <= 0x7fff_ffff_ffff_ffff {
            Some(v as i64)
        } else {
            None
        },
    }
}

/// The constant that an enumerator gives: its name, and its value where that is written out.
pub open spec fn declared_variant(n: CNodeV) -> Option<CEnumVariantV> {
    match child_of_kind(n.children, 0, "identifier"@) {
        Some(name) => Some(
            CEnumVariantV {
                name: name.text,
                value: if n.children.len() > 1 { integer_constant(n.children.last().text) } else { None },
            },
        ),
        None => None,
    }
}

/// The constants that the parts of an enumerator list from position `i` on give, appended to
/// `acc`.
pub open spec fn variants_from(cs: Seq<CNodeV>, i: int, acc: Seq<CEnumVariantV>) -> Seq<CEnumVariantV>
    decreases cs.len() - i,
{
    if i < 0 || i >= cs.len() {
        acc
    } else if cs[i].kind == "enumerator"@ && declared_variant(cs[i]) is Some {
        variants_from(cs, i + 1, acc.push(declared_variant(cs[i])->0))
    } else {
        variants_from(cs, i + 1, acc)
    }
}

/// The enum that an enum node with a list of constants gives; where it has no tag, it takes the
/// fallback name. Without either there is nothing to name it by.
pub open spec fn declared_enum(n: CNodeV, fallback: Option<Seq<char>>) -> Option<CEnumV> {
    match child_of_kind(n.children, 0, "enumerator_list"@) {
        None => None,
        Some(list) => {
            let variants = variants_from(list.children, 0, Seq::empty());
            match child_of_kind(n.children, 0, "type_identifier"@) {
                Some(tag) => Some(CEnumV { name: tag.text, variants }),
                None => match fallback {
                    Some(name) => Some(CEnumV { name, variants }),
                    None => None,
                },
            }
        },
    }
}

/// The contents of an optional enum.
pub open spec fn opt_enum_v(x: Option<CEnum>) -> Option<CEnumV> {
    match x {
        Some(e) => Some(c_enum_v(e)),
        None => None,
    }
}

fn parse_enumerator(n: &CNode) -> (r: Option<CEnumVariant>)
    ensures
        match r {
            Some(v) => declared_variant(n@) == Some(c_enum_variant_v(v)),
            None => declared_variant(n@) is None,
        },
{
    broadcast use lemma_node_v;

    match find_child(n, "identifier") {
        None => None,
        Some(name) => {
            let value = if n.children.len() > 1 {
                let k: usize = n.children.len() - 1;
                assert(n@.children[k as int] == n.children@[k as int]@);
                read_constant(n.children[k].text.as_str())
            } else {
                None
            };
            Some(CEnumVariant { name: name.text.clone(), value })
        },
    }
}

fn parse_enumerator_list(list: &CNode) -> (r: Vec<CEnumVariant>)
    ensures
        c_enum_variants_v(r@) == variants_from(list@.children, 0, Seq::empty()),
{
    broadcast use lemma_node_v;

    let mut out: Vec<CEnumVariant> = Vec::new();
    let mut i: usize = 0;
    proof {
        assert(c_enum_variants_v(out@) =~= Seq::<CEnumVariantV>::empty());
    }
    while i < list.children.len()
        invariant
            i <= list.children@.len(),
            list@.children == nodes_v(list.children@),
            variants_from(list@.children, 0, Seq::empty()) == variants_from(
                list@.children,
                i as int,
                c_enum_variants_v(out@),
            ),
        decreases list.children@.len() - i,
    {
        let c = &list.children[i];
        assert(list@.children[i as int] == c@);
        if is_kind(c, "enumerator") {
            match parse_enumerator(c) {
                Some(v) => {
                    proof {
                        assert(c_enum_variants_v(out@.push(v)) =~= c_enum_variants_v(out@).push(c_enum_variant_v(v)));
                    }
                    out.push(v);
                },
                None => {},
            }
        }
        i = i + 1;
    }
    out
}

/// Takes the enum from an enum node.
pub(crate) fn parse_enum_specifier(n: &CNode, fallback: Option<&String>) -> (r: Option<CEnum>)
    ensures
        opt_enum_v(r) == declared_enum(n@, opt_name(fallback)),
{
    let list = match find_child(n, "enumerator_list") {
        None => return None,
        Some(l) => l,
    };
    let variants = parse_enumerator_list(list);
    match find_child(n, "type_identifier") {
        Some(tag) => Some(CEnum { name: tag.text.clone(), variants }),
        None => match fallback {
            Some(name) => Some(CEnum { name: name.clone(), variants }),
            None => None,
        },
    }
}

} // verus!
