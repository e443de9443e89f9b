//! Declarations of a C header, taken from its syntax tree.
use crate::c_enum::{declared_enum, parse_enum_specifier};
use crate::c_syntax::{build_root_children, c_syntax, c_syntax_of, lemma_node_v, nodes_v, root_children,
    CNode, CNodeV, SyntaxFailure, SyntaxFailureV};
use crate::ctypes::{builtin_type, c_enum_v, c_enums_v, c_field_v, c_fields_v, c_function_v, c_functions_v, c_global_var_v,
    c_global_vars_v, c_params_v, c_struct_v, c_structs_v, c_type_from_name, c_type_text, c_typedef_v,
    c_typedefs_v, c_union_v, c_unions_v, copy_c_type, copy_qualifiers, no_declarations, opt_c_type_v,
    skipped_node_v, skipped_nodes_v, CDeclarations, CDeclarationsV, CEnum, CEnumV, CField, CFieldV, CFunction, CFunctionV,
    CGlobalVar, CGlobalVarV, CParam, CParamV, CQualifier, CStruct, CStructV, CType, CTypeV, CTypedef,
    CTypedefV, CUnion, CUnionV, SkippedNode, SkippedNodeV};
use crate::escape::opt_text;
use crate::lexer::{digits_value, is_digit};
use crate::text;
use vstd::prelude::*;

verus! {

/// An error of header processing.
#[derive(Clone, Debug, PartialEq, Eq)]
pub enum FfiError {
    HeaderNotFound(String),
    Preprocess(String),
    Parse(String),
}

/// The contents of an error of header processing.
pub enum FfiErrorV {
    HeaderNotFound(Seq<char>),
    Preprocess(Seq<char>),
    Parse(Seq<char>),
}

impl View for FfiError {
    type V = FfiErrorV;

    open spec fn view(&self) -> FfiErrorV {
        match *self {
            FfiError::HeaderNotFound(s) => FfiErrorV::HeaderNotFound(s@),
            FfiError::Preprocess(s) => FfiErrorV::Preprocess(s@),
            FfiError::Parse(s) => FfiErrorV::Parse(s@),
        }
    }
}

/// The text in which an error of header processing is shown.
pub open spec fn ffi_message(e: FfiErrorV) -> Seq<char> {
    match e {
        FfiErrorV::HeaderNotFound(s) => "Header not found: "@ + s,
        FfiErrorV::Preprocess(s) => "Preprocessing error: "@ + s,
        FfiErrorV::Parse(s) => "Parse error: "@ + s,
    }
}

impl FfiError {
    /// The text in which this error is shown.
    pub fn to_string(&self) -> (r: String)
        ensures
            r@ == ffi_message(self@),
    {
        match self {
            FfiError::HeaderNotFound(s) => "Header not found: ".to_owned().concat(s.as_str()),
            FfiError::Preprocess(s) => "Preprocessing error: ".to_owned().concat(s.as_str()),
            FfiError::Parse(s) => "Parse error: ".to_owned().concat(s.as_str()),
        }
    }
}

/// Whether a node has the given kind.
pub(crate) fn is_kind(n: &CNode, kind: &str) -> (r: bool)
    ensures
        r == (n@.kind == kind@),
{
    text::text_eq(n.kind.as_str(), kind)
}

/// The first child of the given kind.
pub open spec fn child_of_kind(cs: Seq<CNodeV>, i: int, kind: Seq<char>) -> Option<CNodeV>
    decreases cs.len() - i,
{
    if i < 0 || i >= cs.len() {
        None
    } else if cs[i].kind == kind {
        Some(cs[i])
    } else {
        child_of_kind(cs, i + 1, kind)
    }
}

pub(crate) fn find_child<'a>(node: &'a CNode, kind: &str) -> (r: Option<&'a CNode>)
    ensures
        match r {
            Some(c) => child_of_kind(node@.children, 0, kind@) == Some(c@),
            None => child_of_kind(node@.children, 0, kind@) is None,
        },
{
    broadcast use lemma_node_v;

    let mut i: usize = 0;
    while i < node.children.len()
        invariant
            i <= node.children@.len(),
            node@.children == nodes_v(node.children@),
            child_of_kind(node@.children, 0, kind@) == child_of_kind(node@.children, i as int, kind@),
        decreases node.children@.len() - i,
    {
        assert(node@.children[i as int] == node.children@[i as int]@);
        if is_kind(&node.children[i], kind) {
            return Some(&node.children[i]);
        }
        i = i + 1;
    }
    None
}

/// The first node of the given kind among the children from position `i` on.
pub open spec fn declarator_child_from(n: CNodeV, i: int, kind: Seq<char>) -> Option<CNodeV>
    decreases n, n.children.len() - i,
    when 0 <= i <= n.children.len()
{
    if i >= n.children.len() {
        None
    } else if n.children[i].kind == kind {
        Some(n.children[i])
    } else if n.children[i].kind == "declarator"@ {
        match declarator_child_from(n.children[i], 0, kind) {
            Some(c) => Some(c),
            None => declarator_child_from(n, i + 1, kind),
        }
    } else {
        declarator_child_from(n, i + 1, kind)
    }
}

fn find_declarator_child<'a>(node: &'a CNode, kind: &str) -> (r: Option<&'a CNode>)
    ensures
        match r {
            Some(c) => declarator_child_from(node@, 0, kind@) == Some(c@),
            None => declarator_child_from(node@, 0, kind@) is None,
        },
    decreases *node,
{
    broadcast use lemma_node_v;

    let mut i: usize = 0;
    while i < node.children.len()
        invariant
            i <= node.children@.len(),
            node@.children == nodes_v(node.children@),
            declarator_child_from(node@, 0, kind@) == declarator_child_from(node@, i as int, kind@),
        decreases node.children@.len() - i,
    {
        assert(node@.children[i as int] == node.children@[i as int]@);
        if is_kind(&node.children[i], kind) {
            return Some(&node.children[i]);
        }
        if is_kind(&node.children[i], "declarator") {
            let found = find_declarator_child(&node.children[i], kind);
            if found.is_some() {
                return found;
            }
        }
        i = i + 1;
    }
    None
}

/// Whether a declaration declares a function, possibly one that returns a pointer.
pub open spec fn declares_function(cs: Seq<CNodeV>) -> bool {
    exists|i: int| 0 <= i < cs.len() && #[trigger] is_function_part(cs[i])
}

/// Whether a node is a function declarator, or a pointer declarator round one.
pub open spec fn is_function_part(c: CNodeV) -> bool {
    c.kind == "function_declarator"@ || (c.kind == "pointer_declarator"@ && declarator_child_from(
        c,
        0,
        "function_declarator"@,
    ) is Some)
}

fn has_function_declarator_child(node: &CNode) -> (r: bool)
    ensures
        r == declares_function(node@.children),
{
    broadcast use lemma_node_v;

    let mut i: usize = 0;
    while i < node.children.len()
        invariant
            i <= node.children@.len(),
            node@.children == nodes_v(node.children@),
            forall|j: int| 0 <= j < i ==> !is_function_part(node@.children[j]),
        decreases node.children@.len() - i,
    {
        let c = &node.children[i];
        assert(node@.children[i as int] == c@);
        if is_kind(c, "function_declarator") || (is_kind(c, "pointer_declarator") && find_declarator_child(
            c,
            "function_declarator",
        ).is_some()) {
            assert(is_function_part(node@.children[i as int]));
            return true;
        }
        i = i + 1;
    }
    false
}

/// The qualifier that a `type_qualifier` node stands for.
pub open spec fn qualifier_of(n: CNodeV) -> Option<CQualifier> {
    if n.children.len() == 0 {
        None
    } else if n.children[0].kind == "const"@ {
        Some(CQualifier::Const)
    } else if n.children[0].kind == "volatile"@ {
        Some(CQualifier::Volatile)
    } else if n.children[0].kind == "restrict"@ {
        Some(CQualifier::Restrict)
    } else {
        None
    }
}

fn qualifier_from_type_qualifier(node: &CNode) -> (r: Option<CQualifier>)
    ensures
        r == qualifier_of(node@),
{
    broadcast use lemma_node_v;

    if node.children.len() == 0 {
        return None;
    }
    let c = &node.children[0];
    assert(node@.children[0] == c@);
    if is_kind(c, "const") {
        Some(CQualifier::Const)
    } else if is_kind(c, "volatile") {
        Some(CQualifier::Volatile)
    } else if is_kind(c, "restrict") {
        Some(CQualifier::Restrict)
    } else {
        None
    }
}

/// A list of qualifiers with the one that a node stands for, if any, appended.
pub open spec fn with_qualifier(qs: Seq<CQualifier>, n: CNodeV) -> Seq<CQualifier> {
    match qualifier_of(n) {
        Some(q) => qs.push(q),
        None => qs,
    }
}

fn push_qualifier(qs: &mut Vec<CQualifier>, node: &CNode)
    ensures
        final(qs)@ == with_qualifier(old(qs)@, node@),
{
    match qualifier_from_type_qualifier(node) {
        Some(q) => {
            qs.push(q);
        },
        None => {},
    }
}

/// The names that stand for structs, unions and enums without a tag.
pub open spec fn anonymous_name(kind: Seq<char>) -> Seq<char> {
    if kind == "struct_specifier"@ {
        "/* anonymous struct */"@
    } else if kind == "union_specifier"@ {
        "/* anonymous union */"@
    } else {
        "/* anonymous enum */"@
    }
}

/// Whether a kind of node is a struct, union or enum.
pub open spec fn is_aggregate(kind: Seq<char>) -> bool {
    kind == "struct_specifier"@ || kind == "union_specifier"@ || kind == "enum_specifier"@
}

/// The type that a type specifier stands for.
pub open spec fn specified_type(n: CNodeV) -> CTypeV {
    match builtin_type(n.text) {
        Some(t) => t,
        None => if is_aggregate(n.kind) {
            match child_of_kind(n.children, 0, "type_identifier"@) {
                Some(c) => CTypeV::Named(c.text),
                None => CTypeV::Named(anonymous_name(n.kind)),
            }
        } else {
            CTypeV::Named(n.text)
        },
    }
}

fn kind_is_aggregate(node: &CNode) -> (r: bool)
    ensures
        r == is_aggregate(node@.kind),
{
    is_kind(node, "struct_specifier") || is_kind(node, "union_specifier") || is_kind(node, "enum_specifier")
}

fn parse_type_specifier(node: &CNode) -> (r: CType)
    ensures
        r@ == specified_type(node@),
{
    match c_type_from_name(node.text.as_str()) {
        Some(t) => t,
        None => if kind_is_aggregate(node) {
            match find_child(node, "type_identifier") {
                Some(c) => CType::Named(c.text.clone()),
                None => if is_kind(node, "struct_specifier") {
                    CType::Named("/* anonymous struct */".to_owned())
                } else if is_kind(node, "union_specifier") {
                    CType::Named("/* anonymous union */".to_owned())
                } else {
                    CType::Named("/* anonymous enum */".to_owned())
                },
            }
        } else {
            CType::Named(node.text.clone())
        },
    }
}

/// The kinds of node that name a type by a word or several.
pub open spec fn is_simple_type(kind: Seq<char>) -> bool {
    kind == "primitive_type"@ || kind == "sized_type_specifier"@ || kind == "type_identifier"@
}

/// The kinds of node that give the type of a parameter or a variable.
pub open spec fn is_value_type(kind: Seq<char>) -> bool {
    is_simple_type(kind) || kind == "struct_specifier"@ || kind == "enum_specifier"@ || kind == "signed"@
        || kind == "unsigned"@ || kind == "long"@ || kind == "short"@
}

fn kind_is_simple_type(n: &CNode) -> (r: bool)
    ensures
        r == is_simple_type(n@.kind),
{
    is_kind(n, "primitive_type") || is_kind(n, "sized_type_specifier") || is_kind(n, "type_identifier")
}

fn kind_is_value_type(n: &CNode) -> (r: bool)
    ensures
        r == is_value_type(n@.kind),
{
    kind_is_simple_type(n) || is_kind(n, "struct_specifier") || is_kind(n, "enum_specifier") || is_kind(n, "signed")
        || is_kind(n, "unsigned") || is_kind(n, "long") || is_kind(n, "short")
}

/// The depth, the qualifiers and the name of a chain of pointer declarators.
pub struct PointerV {
    pub depth: int,
    pub qualifiers: Seq<CQualifier>,
    pub name: Option<Seq<char>>,
}

/// What a pointer declarator holds, from its child `i` on, added to `st`. Every pointer
/// declarator is one level of indirection.
pub open spec fn pointer_from(n: CNodeV, i: int, st: PointerV) -> PointerV
    decreases n, n.children.len() - i,
    when 0 <= i <= n.children.len()
{
    if i >= n.children.len() {
        PointerV { depth: st.depth + 1, ..st }
    } else {
        let c = n.children[i];
        let next = if c.kind == "type_qualifier"@ {
            PointerV { qualifiers: with_qualifier(st.qualifiers, c), ..st }
        } else if c.kind == "identifier"@ {
            PointerV { name: Some(c.text), ..st }
        } else if c.kind == "pointer_declarator"@ || c.kind == "abstract_pointer_declarator"@ {
            let inner = pointer_from(c, 0, no_pointer());
            PointerV {
                depth: st.depth + inner.depth,
                qualifiers: st.qualifiers + inner.qualifiers,
                name: if inner.name is Some { inner.name } else { st.name },
            }
        } else {
            st
        };
        pointer_from(n, i + 1, next)
    }
}

/// Nothing seen of a pointer declarator yet.
pub open spec fn no_pointer() -> PointerV {
    PointerV { depth: 0, qualifiers: Seq::empty(), name: None }
}

/// What was collected of a chain of pointer declarators. The depth is held as a list with one
/// entry for each level.
struct Pointer {
    levels: Vec<()>,
    qualifiers: Vec<CQualifier>,
    name: Option<String>,
}

spec fn pointer_v(p: Pointer) -> PointerV {
    PointerV { depth: p.levels@.len() as int, qualifiers: p.qualifiers@, name: opt_text(p.name) }
}

fn collect_ptr_qualifiers(node: &CNode) -> (r: Pointer)
    ensures
        pointer_v(r) == pointer_from(node@, 0, no_pointer()),
    decreases *node,
{
    broadcast use lemma_node_v;

    let mut st = Pointer { levels: Vec::new(), qualifiers: Vec::new(), name: None };
    let mut i: usize = 0;
    proof {
        assert(pointer_v(st).qualifiers =~= no_pointer().qualifiers);
    }
    while i < node.children.len()
        invariant
            i <= node.children@.len(),
            node@.children == nodes_v(node.children@),
            pointer_from(node@, 0, no_pointer()) == pointer_from(node@, i as int, pointer_v(st)),
        decreases node.children@.len() - i,
    {
        let c = &node.children[i];
        assert(node@.children[i as int] == c@);
        if is_kind(c, "type_qualifier") {
            push_qualifier(&mut st.qualifiers, c);
        } else if is_kind(c, "identifier") {
            st.name = Some(c.text.clone());
        } else if is_kind(c, "pointer_declarator") || is_kind(c, "abstract_pointer_declarator") {
            let ghost before = pointer_v(st);
            let inner = collect_ptr_qualifiers(c);
            let ghost iv = pointer_v(inner);
            let mut levels = inner.levels;
            let mut qualifiers = inner.qualifiers;
            st.levels.append(&mut levels);
            st.qualifiers.append(&mut qualifiers);
            if inner.name.is_some() {
                st.name = inner.name;
            }
            proof {
                assert(pointer_v(st).qualifiers =~= before.qualifiers + iv.qualifiers);
            }
        }
        i = i + 1;
    }
    st.levels.push(());
    st
}

/// A type below `depth` levels of pointers with the given qualifiers.
pub open spec fn pointed(t: CTypeV, depth: int, qs: Seq<CQualifier>) -> CTypeV
    decreases depth,
{
    if depth <= 0 {
        t
    } else {
        CTypeV::Ptr(Box::new(pointed(t, depth - 1, qs)), qs)
    }
}

/// The type and the name that a pointer declarator gives, from its child `i` on.
pub struct DeclaredV {
    pub qualifiers: Seq<CQualifier>,
    pub inner: Option<CTypeV>,
    pub name: Option<Seq<char>>,
}

/// Nothing seen of a declarator yet.
pub open spec fn no_declared() -> DeclaredV {
    DeclaredV { qualifiers: Seq::empty(), inner: None, name: None }
}

/// What a pointer declarator declares: a pointer type, and a name where there is one.
pub open spec fn pointer_declared(n: CNodeV) -> (CTypeV, Option<Seq<char>>)
    decreases n, n.children.len() + 1,
{
    let d = pointer_declared_from(n, 0, no_declared());
    (
        CTypeV::Ptr(Box::new(or_int(d.inner)), d.qualifiers),
        d.name,
    )
}

/// What a pointer declarator declares, from its child `i` on.
pub open spec fn pointer_declared_from(n: CNodeV, i: int, st: DeclaredV) -> DeclaredV
    decreases n, n.children.len() - i,
    when 0 <= i <= n.children.len()
{
    if i >= n.children.len() {
        st
    } else {
        let c = n.children[i];
        let next = if c.kind == "type_qualifier"@ {
            DeclaredV { qualifiers: with_qualifier(st.qualifiers, c), ..st }
        } else if c.kind == "identifier"@ {
            DeclaredV { name: Some(c.text), ..st }
        } else if c.kind == "pointer_declarator"@ {
            let nested = pointer_declared(c);
            DeclaredV {
                inner: Some(nested.0),
                name: if nested.1 is Some { nested.1 } else { st.name },
                ..st
            }
        } else if c.kind == "function_declarator"@ {
            DeclaredV {
                inner: Some(CTypeV::Named("/* fn */"@)),
                name: match child_of_kind(c.children, 0, "identifier"@) {
                    Some(id) => Some(id.text),
                    None => st.name,
                },
                ..st
            }
        } else if is_simple_type(c.kind) {
            DeclaredV { inner: Some(specified_type(c)), ..st }
        } else {
            st
        };
        pointer_declared_from(n, i + 1, next)
    }
}

fn parse_pointer_declarator(node: &CNode) -> (r: (CType, Option<String>))
    ensures
        (r.0@, opt_text(r.1)) == pointer_declared(node@),
    decreases *node,
{
    broadcast use lemma_node_v;

    let mut qualifiers: Vec<CQualifier> = Vec::new();
    let mut inner: Option<CType> = None;
    let mut name: Option<String> = None;
    let mut i: usize = 0;
    let ghost first = no_declared();
    proof {
        assert(qualifiers@ =~= first.qualifiers);
    }
    while i < node.children.len()
        invariant
            i <= node.children@.len(),
            node@.children == nodes_v(node.children@),
            first == no_declared(),
            pointer_declared_from(node@, 0, first) == pointer_declared_from(
                node@,
                i as int,
                DeclaredV { qualifiers: qualifiers@, inner: opt_c_type_v(inner), name: opt_text(name) },
            ),
        decreases node.children@.len() - i,
    {
        let c = &node.children[i];
        assert(node@.children[i as int] == c@);
        if is_kind(c, "type_qualifier") {
            push_qualifier(&mut qualifiers, c);
        } else if is_kind(c, "identifier") {
            name = Some(c.text.clone());
        } else if is_kind(c, "pointer_declarator") {
            let nested = parse_pointer_declarator(c);
            inner = Some(nested.0);
            if nested.1.is_some() {
                name = nested.1;
            }
        } else if is_kind(c, "function_declarator") {
            match find_child(c, "identifier") {
                Some(id) => {
                    name = Some(id.text.clone());
                },
                None => {},
            }
            inner = Some(CType::Named("/* fn */".to_owned()));
        } else if kind_is_simple_type(c) {
            inner = Some(parse_type_specifier(c));
        }
        i = i + 1;
    }
    let base = match inner {
        Some(t) => t,
        None => CType::Int,
    };
    proof {
        let d = pointer_declared_from(node@, 0, first);
        assert(d == (DeclaredV { qualifiers: qualifiers@, inner: d.inner, name: opt_text(name) }));
        assert(base@ == or_int(d.inner));
    }
    (CType::Ptr(Box::new(base), qualifiers), name)
}

/// The number that a text gives in decimal, where it fits the machine word.
pub open spec fn number_of(s: Seq<char>) -> Option<usize> {
    let d = if s.len() > 0 && s[0] == '+' { s.skip(1) } else { s };
    if d.len() > 0 && digits_only(d) && digits_value(d) <= usize::MAX {
        Some(digits_value(d) as usize)
    } else {
        None
    }
}

/// Whether a text has only decimal digits.
pub open spec fn digits_only(d: Seq<char>) -> bool {
    forall|i: int| 0 <= i < d.len() ==> is_digit(#[trigger] d[i])
}

proof fn lemma_digits_prefix(d: Seq<char>, i: int)
    requires
        0 <= i <= d.len(),
        digits_only(d),
    ensures
        0 <= digits_value(d.take(i)) <= digits_value(d),
    decreases d.len() - i,
{
    lemma_digits_nonneg(d, i);
    if i < d.len() {
        lemma_digits_prefix(d, i + 1);
        assert(d.take(i + 1).drop_last() =~= d.take(i));
        assert(is_digit(d[i]));
    } else {
        assert(d.take(i) =~= d);
    }
}

proof fn lemma_digits_nonneg(d: Seq<char>, i: int)
    requires
        0 <= i <= d.len(),
        digits_only(d),
    ensures
        0 <= digits_value(d.take(i)),
    decreases i,
{
    if i > 0 {
        lemma_digits_nonneg(d, i - 1);
        assert(d.take(i).drop_last() =~= d.take(i - 1));
        assert(is_digit(d[i - 1]));
    }
}

fn all_digits(d: &Vec<char>, from: usize) -> (r: bool)
    requires
        from <= d@.len(),
    ensures
        r == digits_only(d@.skip(from as int)),
{
    let mut i: usize = from;
    let ghost t = d@.skip(from as int);
    while i < d.len()
        invariant
            from <= i <= d@.len(),
            t == d@.skip(from as int),
            forall|j: int| 0 <= j < i - from ==> is_digit(#[trigger] t[j]),
        decreases d@.len() - i,
    {
        if !('0' <= d[i] && d[i] <= '9') {
            assert(!is_digit(t[i - from]));
            return false;
        }
        assert(is_digit(t[i - from]));
        i = i + 1;
    }
    true
}

fn parse_number(s: &str) -> (r: Option<usize>)
    ensures
        r == number_of(s@),
{
    let cs = text::chars_of(s);
    let from: usize = if cs.len() > 0 && cs[0] == '+' { 1 } else { 0 };
    let ghost d = cs@.skip(from as int);
    proof {
        assert(cs@.skip(0) =~= cs@);
        assert(d == (if s@.len() > 0 && s@[0] == '+' { s@.skip(1) } else { s@ }));
    }
    if cs.len() == from || !all_digits(&cs, from) {
        return None;
    }
    let mut v: usize = 0;
    let mut i: usize = from;
    while i < cs.len()
        invariant
            from <= i <= cs@.len(),
            d == cs@.skip(from as int),
            digits_only(d),
            v == digits_value(d.take(i - from)),
            d.len() > 0,
            number_of(s@) == (if digits_value(d) <= usize::MAX { Some(digits_value(d) as usize) } else { None::<usize> }),
        decreases cs@.len() - i,
    {
        assert(is_digit(d[i - from]));
        let x: usize = (cs[i] as u32 - '0' as u32) as usize;
        proof {
            assert(d.take(i - from + 1).drop_last() =~= d.take(i - from));
            lemma_digits_prefix(d, i - from + 1);
        }
        if v > (usize::MAX - x) / 10 {
            return None;
        }
        v = v * 10 + x;
        i = i + 1;
    }
    proof {
        assert(d.take(d.len() as int) =~= d);
    }
    Some(v)
}

/// The element type and the size that an array declarator gives, from its child `i` on.
pub open spec fn array_from(cs: Seq<CNodeV>, i: int, elem: CTypeV, size: Option<usize>) -> CTypeV
    decreases cs.len() - i,
{
    if i < 0 || i >= cs.len() {
        CTypeV::Array { element_type: Box::new(elem), size }
    } else if cs[i].kind == "number_literal"@ {
        array_from(cs, i + 1, elem, number_of(cs[i].text))
    } else if is_simple_type(cs[i].kind) {
        array_from(cs, i + 1, specified_type(cs[i]), size)
    } else {
        array_from(cs, i + 1, elem, size)
    }
}

/// The array type that an array declarator gives.
pub open spec fn array_declared(n: CNodeV) -> CTypeV {
    array_from(n.children, 0, CTypeV::Int, None)
}

fn parse_array_declarator(node: &CNode) -> (r: CType)
    ensures
        r@ == array_declared(node@),
{
    broadcast use lemma_node_v;

    let mut elem = CType::Int;
    let mut size: Option<usize> = None;
    let mut i: usize = 0;
    while i < node.children.len()
        invariant
            i <= node.children@.len(),
            node@.children == nodes_v(node.children@),
            array_declared(node@) == array_from(node@.children, i as int, elem@, size),
        decreases node.children@.len() - i,
    {
        let c = &node.children[i];
        assert(node@.children[i as int] == c@);
        if is_kind(c, "number_literal") {
            size = parse_number(c.text.as_str());
        } else if kind_is_simple_type(c) {
            elem = parse_type_specifier(c);
        }
        i = i + 1;
    }
    CType::Array { element_type: Box::new(elem), size }
}

/// What was seen of a parameter declaration.
pub struct ParamStateV {
    pub ty: Option<CTypeV>,
    pub name: Option<Seq<char>>,
    pub qualifiers: Seq<CQualifier>,
}

/// The type, or `int` where there is none.
pub open spec fn or_int(t: Option<CTypeV>) -> CTypeV {
    match t {
        Some(x) => x,
        None => CTypeV::Int,
    }
}

/// What one part of a parameter declaration adds.
pub open spec fn param_step(st: ParamStateV, c: CNodeV) -> ParamStateV {
    if c.kind == "type_qualifier"@ {
        ParamStateV { qualifiers: with_qualifier(st.qualifiers, c), ..st }
    } else if is_value_type(c.kind) {
        ParamStateV { ty: Some(specified_type(c)), ..st }
    } else if c.kind == "identifier"@ {
        ParamStateV { name: Some(c.text), ..st }
    } else if c.kind == "pointer_declarator"@ || c.kind == "abstract_pointer_declarator"@ {
        let p = pointer_from(c, 0, no_pointer());
        ParamStateV {
            ty: Some(pointed(or_int(st.ty), p.depth, st.qualifiers + p.qualifiers)),
            name: p.name,
            ..st
        }
    } else if c.kind == "function_declarator"@ {
        ParamStateV {
            ty: Some(CTypeV::Named("/* fn ptr */"@)),
            name: match child_of_kind(c.children, 0, "identifier"@) {
                Some(id) => Some(id.text),
                None => st.name,
            },
            ..st
        }
    } else if c.kind == "array_declarator"@ {
        ParamStateV { ty: Some(array_declared(c)), ..st }
    } else {
        st
    }
}

/// What a parameter declaration gives, from its part `i` on.
pub open spec fn param_from(cs: Seq<CNodeV>, i: int, st: ParamStateV) -> ParamStateV
    decreases cs.len() - i,
{
    if i < 0 || i >= cs.len() {
        st
    } else {
        param_from(cs, i + 1, param_step(st, cs[i]))
    }
}

/// Nothing seen of a parameter yet.
pub open spec fn no_param() -> ParamStateV {
    ParamStateV { ty: None, name: None, qualifiers: Seq::empty() }
}

/// The parameter that a parameter declaration gives.
pub open spec fn declared_param(n: CNodeV) -> CParamV {
    let st = param_from(n.children, 0, no_param());
    CParamV { name: st.name, ty: or_int(st.ty) }
}

fn point_to(t: CType, levels: usize, qualifiers: &Vec<CQualifier>) -> (r: CType)
    ensures
        r@ == pointed(t@, levels as int, qualifiers@),
{
    let mut ty = t;
    let mut k: usize = 0;
    while k < levels
        invariant
            k <= levels,
            ty@ == pointed(t@, k as int, qualifiers@),
        decreases levels - k,
    {
        ty = CType::Ptr(Box::new(ty), copy_qualifiers(qualifiers));
        k = k + 1;
    }
    ty
}

fn parse_param_declaration(node: &CNode) -> (r: CParam)
    ensures
        r@ == declared_param(node@),
{
    broadcast use lemma_node_v;

    let mut ty: Option<CType> = None;
    let mut name: Option<String> = None;
    let mut qualifiers: Vec<CQualifier> = Vec::new();
    let mut i: usize = 0;
    let ghost first = no_param();
    proof {
        assert(qualifiers@ =~= first.qualifiers);
    }
    while i < node.children.len()
        invariant
            i <= node.children@.len(),
            node@.children == nodes_v(node.children@),
            first == no_param(),
            param_from(node@.children, 0, first) == param_from(
                node@.children,
                i as int,
                ParamStateV { ty: opt_c_type_v(ty), name: opt_text(name), qualifiers: qualifiers@ },
            ),
        decreases node.children@.len() - i,
    {
        let c = &node.children[i];
        assert(node@.children[i as int] == c@);
        if is_kind(c, "type_qualifier") {
            push_qualifier(&mut qualifiers, c);
        } else if kind_is_value_type(c) {
            ty = Some(parse_type_specifier(c));
        } else if is_kind(c, "identifier") {
            name = Some(c.text.clone());
        } else if is_kind(c, "pointer_declarator") || is_kind(c, "abstract_pointer_declarator") {
            let p = collect_ptr_qualifiers(c);
            let base = match ty {
                Some(t) => t,
                None => CType::Int,
            };
            let mut all = copy_qualifiers(&qualifiers);
            let mut more = p.qualifiers;
            all.append(&mut more);
            ty = Some(point_to(base, p.levels.len(), &all));
            name = p.name;
        } else if is_kind(c, "function_declarator") {
            ty = Some(CType::Named("/* fn ptr */".to_owned()));
            match find_child(c, "identifier") {
                Some(id) => {
                    name = Some(id.text.clone());
                },
                None => {},
            }
        } else if is_kind(c, "array_declarator") {
            ty = Some(parse_array_declarator(c));
        }
        i = i + 1;
    }
    CParam {
        name,
        ty: match ty {
            Some(t) => t,
            None => CType::Int,
        },
    }
}

/// The parameters that the nodes from position `i` on declare, appended to `acc`. A parameter of
/// type `void` stands for none.
pub open spec fn params_from(cs: Seq<CNodeV>, i: int, acc: Seq<CParamV>) -> Seq<CParamV>
    decreases cs.len() - i,
{
    if i < 0 || i >= cs.len() {
        acc
    } else if cs[i].kind == "parameter_declaration"@ && !(declared_param(cs[i]).ty is Void) {
        params_from(cs, i + 1, acc.push(declared_param(cs[i])))
    } else {
        params_from(cs, i + 1, acc)
    }
}

/// Whether a parameter list ends in an ellipsis.
pub open spec fn is_variadic_list(cs: Seq<CNodeV>) -> bool {
    exists|i: int| 0 <= i < cs.len() && #[trigger] is_ellipsis(cs[i])
}

/// Whether a node is the ellipsis of a parameter list.
pub open spec fn is_ellipsis(c: CNodeV) -> bool {
    c.kind == "..."@ || c.kind == "variadic_parameter"@
}

fn parse_params(node: &CNode) -> (r: Vec<CParam>)
    ensures
        c_params_v(r@) == params_from(node@.children, 0, Seq::empty()),
{
    broadcast use lemma_node_v;

    let mut out: Vec<CParam> = Vec::new();
    let mut i: usize = 0;
    proof {
        assert(c_params_v(out@) =~= Seq::<CParamV>::empty());
    }
    while i < node.children.len()
        invariant
            i <= node.children@.len(),
            node@.children == nodes_v(node.children@),
            params_from(node@.children, 0, Seq::empty()) == params_from(
                node@.children,
                i as int,
                c_params_v(out@),
            ),
        decreases node.children@.len() - i,
    {
        let c = &node.children[i];
        assert(node@.children[i as int] == c@);
        if is_kind(c, "parameter_declaration") {
            let p = parse_param_declaration(c);
            if !matches!(p.ty, CType::Void) {
                proof {
                    assert(c_params_v(out@.push(p)) =~= c_params_v(out@).push(p@));
                }
                out.push(p);
            }
        }
        i = i + 1;
    }
    out
}

fn parse_param_list(node: &CNode) -> (r: (Vec<CParam>, bool))
    ensures
        c_params_v(r.0@) == params_from(node@.children, 0, Seq::empty()),
        r.1 == is_variadic_list(node@.children),
{
    broadcast use lemma_node_v;

    let params = parse_params(node);
    let mut variadic = false;
    let mut i: usize = 0;
    while i < node.children.len()
        invariant
            i <= node.children@.len(),
            node@.children == nodes_v(node.children@),
            variadic == exists|j: int| 0 <= j < i && #[trigger] is_ellipsis(node@.children[j]),
        decreases node.children@.len() - i,
    {
        let c = &node.children[i];
        assert(node@.children[i as int] == c@);
        if is_kind(c, "...") || is_kind(c, "variadic_parameter") {
            assert(is_ellipsis(node@.children[i as int]));
            variadic = true;
        }
        i = i + 1;
    }
    (params, variadic)
}

/// The name and the parameters of a function pointer.
pub open spec fn fn_pointer(n: CNodeV) -> Option<(Seq<char>, Seq<CParamV>)> {
    match (declarator_child_from(n, 0, "function_declarator"@), declarator_child_from(n, 0, "identifier"@)) {
        (Some(f), Some(id)) => Some(
            (
                id.text,
                match child_of_kind(f.children, 0, "parameter_list"@) {
                    Some(ps) => params_from(ps.children, 0, Seq::empty()),
                    None => Seq::empty(),
                },
            ),
        ),
        _ => None,
    }
}

fn parse_fn_ptr_params(node: &CNode) -> (r: Option<(String, Vec<CParam>)>)
    ensures
        match r {
            Some((name, params)) => fn_pointer(node@) == Some((name@, c_params_v(params@))),
            None => fn_pointer(node@) is None,
        },
{
    let f = match find_declarator_child(node, "function_declarator") {
        Some(f) => f,
        None => return None,
    };
    let id = match find_declarator_child(node, "identifier") {
        Some(id) => id,
        None => return None,
    };
    let params = match find_child(f, "parameter_list") {
        Some(ps) => parse_params(ps),
        None => {
            let none: Vec<CParam> = Vec::new();
            proof {
                assert(c_params_v(none@) =~= Seq::<CParamV>::empty());
            }
            none
        },
    };
    Some((id.text.clone(), params))
}

/// What was seen of a function declarator.
pub struct FnStateV {
    pub name: Option<Seq<char>>,
    pub params: Seq<CParamV>,
    pub is_variadic: bool,
}

/// What one part of a function declarator adds.
pub open spec fn fn_step(st: FnStateV, c: CNodeV) -> FnStateV {
    if c.kind == "identifier"@ {
        FnStateV { name: Some(c.text), ..st }
    } else if c.kind == "parameter_list"@ {
        FnStateV {
            params: params_from(c.children, 0, Seq::empty()),
            is_variadic: is_variadic_list(c.children),
            ..st
        }
    } else if c.kind == "pointer_declarator"@ {
        match fn_pointer(c) {
            Some((name, params)) => FnStateV { name: Some(name), params: st.params + params, ..st },
            None => st,
        }
    } else {
        st
    }
}

/// What a function declarator gives, from its part `i` on.
pub open spec fn fn_from(cs: Seq<CNodeV>, i: int, st: FnStateV) -> FnStateV
    decreases cs.len() - i,
{
    if i < 0 || i >= cs.len() {
        st
    } else {
        fn_from(cs, i + 1, fn_step(st, cs[i]))
    }
}

/// Nothing seen of a function declarator yet.
pub open spec fn no_fn() -> FnStateV {
    FnStateV { name: None, params: Seq::empty(), is_variadic: false }
}

/// What a function declarator gives.
pub open spec fn declared_fn(n: CNodeV) -> FnStateV {
    fn_from(n.children, 0, no_fn())
}

/// What was seen of a function declarator.
struct FnParts {
    name: Option<String>,
    params: Vec<CParam>,
    is_variadic: bool,
}

spec fn fn_parts_v(f: FnParts) -> FnStateV {
    FnStateV { name: opt_text(f.name), params: c_params_v(f.params@), is_variadic: f.is_variadic }
}

fn parse_function_declarator(node: &CNode) -> (r: FnParts)
    ensures
        fn_parts_v(r) == declared_fn(node@),
{
    broadcast use lemma_node_v;

    let mut st = FnParts { name: None, params: Vec::new(), is_variadic: false };
    let mut i: usize = 0;
    proof {
        assert(fn_parts_v(st).params =~= no_fn().params);
    }
    while i < node.children.len()
        invariant
            i <= node.children@.len(),
            node@.children == nodes_v(node.children@),
            declared_fn(node@) == fn_from(node@.children, i as int, fn_parts_v(st)),
        decreases node.children@.len() - i,
    {
        let c = &node.children[i];
        assert(node@.children[i as int] == c@);
        if is_kind(c, "identifier") {
            st.name = Some(c.text.clone());
        } else if is_kind(c, "parameter_list") {
            let (params, variadic) = parse_param_list(c);
            st.params = params;
            st.is_variadic = variadic;
        } else if is_kind(c, "pointer_declarator") {
            match parse_fn_ptr_params(c) {
                Some((name, params)) => {
                    let ghost before = st.params@;
                    let ghost more = params@;
                    let mut params = params;
                    st.name = Some(name);
                    st.params.append(&mut params);
                    proof {
                        assert(c_params_v(st.params@) =~= c_params_v(before) + c_params_v(more));
                    }
                },
                None => {},
            }
        }
        i = i + 1;
    }
    st
}

/// What was seen of a function signature.
pub struct SigStateV {
    pub return_type: Option<CTypeV>,
    pub qualifiers: Seq<CQualifier>,
    pub f: FnStateV,
    pub returns_pointer: bool,
}

/// What one part of a function signature adds; nothing where the function has no name.
pub open spec fn sig_step(st: SigStateV, c: CNodeV) -> Option<SigStateV> {
    if c.kind == "type_qualifier"@ {
        Some(SigStateV { qualifiers: with_qualifier(st.qualifiers, c), ..st })
    } else if is_value_type(c.kind) || c.kind == "union_specifier"@ {
        Some(SigStateV { return_type: Some(specified_type(c)), ..st })
    } else if c.kind == "function_declarator"@ {
        if declared_fn(c).name is Some {
            Some(SigStateV { f: declared_fn(c), ..st })
        } else {
            None
        }
    } else if c.kind == "pointer_declarator"@ {
        match declarator_child_from(c, 0, "function_declarator"@) {
            Some(d) => if declared_fn(d).name is Some {
                Some(SigStateV { f: declared_fn(d), returns_pointer: true, ..st })
            } else {
                Some(sig_pointer(st, c))
            },
            None => Some(sig_pointer(st, c)),
        }
    } else {
        Some(st)
    }
}

/// What a pointer declarator that declares no function adds to a signature.
pub open spec fn sig_pointer(st: SigStateV, c: CNodeV) -> SigStateV {
    let (ty, name) = pointer_declared(c);
    SigStateV {
        return_type: Some(ty),
        f: FnStateV { name: if name is Some { name } else { st.f.name }, ..st.f },
        ..st
    }
}

/// What a signature gives, from its part `i` on.
pub open spec fn sig_from(cs: Seq<CNodeV>, i: int, st: SigStateV) -> Option<SigStateV>
    decreases cs.len() - i,
{
    if i < 0 || i >= cs.len() {
        Some(st)
    } else {
        match sig_step(st, cs[i]) {
            Some(next) => sig_from(cs, i + 1, next),
            None => None,
        }
    }
}

/// Nothing seen of a signature yet.
pub open spec fn no_sig() -> SigStateV {
    SigStateV { return_type: None, qualifiers: Seq::empty(), f: no_fn(), returns_pointer: false }
}

/// The function that a declaration or definition gives.
pub open spec fn declared_function(n: CNodeV) -> Option<CFunctionV> {
    match sig_from(n.children, 0, no_sig()) {
        Some(st) => match st.f.name {
            Some(name) => Some(
                CFunctionV {
                    name,
                    return_type: if st.returns_pointer {
                        CTypeV::Ptr(Box::new(or_int(st.return_type)), st.qualifiers)
                    } else {
                        or_int(st.return_type)
                    },
                    params: st.f.params,
                    is_variadic: st.f.is_variadic,
                },
            ),
            None => None,
        },
        None => None,
    }
}

/// The contents of an optional function.
pub open spec fn opt_function_v(f: Option<CFunction>) -> Option<CFunctionV> {
    match f {
        Some(x) => Some(c_function_v(x)),
        None => None,
    }
}

fn parse_function_sig(node: &CNode) -> (r: Option<CFunction>)
    ensures
        opt_function_v(r) == declared_function(node@),
{
    broadcast use lemma_node_v;

    let mut return_type: Option<CType> = None;
    let mut qualifiers: Vec<CQualifier> = Vec::new();
    let mut f = FnParts { name: None, params: Vec::new(), is_variadic: false };
    let mut returns_pointer = false;
    let mut i: usize = 0;
    let ghost first = no_sig();
    proof {
        assert(qualifiers@ =~= first.qualifiers);
        assert(fn_parts_v(f).params =~= first.f.params);
    }
    while i < node.children.len()
        invariant
            i <= node.children@.len(),
            node@.children == nodes_v(node.children@),
            first == no_sig(),
            sig_from(node@.children, 0, first) == sig_from(
                node@.children,
                i as int,
                SigStateV {
                    return_type: opt_c_type_v(return_type),
                    qualifiers: qualifiers@,
                    f: fn_parts_v(f),
                    returns_pointer,
                },
            ),
        decreases node.children@.len() - i,
    {
        let c = &node.children[i];
        assert(node@.children[i as int] == c@);
        if is_kind(c, "type_qualifier") {
            push_qualifier(&mut qualifiers, c);
        } else if kind_is_value_type(c) || is_kind(c, "union_specifier") {
            return_type = Some(parse_type_specifier(c));
        } else if is_kind(c, "function_declarator") {
            let parts = parse_function_declarator(c);
            if parts.name.is_none() {
                return None;
            }
            f = parts;
        } else if is_kind(c, "pointer_declarator") {
            let inner = match find_declarator_child(c, "function_declarator") {
                Some(d) => {
                    let parts = parse_function_declarator(d);
                    if parts.name.is_some() {
                        Some(parts)
                    } else {
                        None
                    }
                },
                None => None,
            };
            match inner {
                Some(parts) => {
                    f = parts;
                    returns_pointer = true;
                },
                None => {
                    let (ty, name) = parse_pointer_declarator(c);
                    return_type = Some(ty);
                    if name.is_some() {
                        f.name = name;
                    }
                },
            }
        }
        i = i + 1;
    }
    let ghost st = SigStateV {
        return_type: opt_c_type_v(return_type),
        qualifiers: qualifiers@,
        f: fn_parts_v(f),
        returns_pointer,
    };
    assert(sig_from(node@.children, 0, first) == Some(st));
    let base = match return_type {
        Some(t) => t,
        None => CType::Int,
    };
    assert(base@ == or_int(st.return_type));
    let return_type = if returns_pointer {
        CType::Ptr(Box::new(base), qualifiers)
    } else {
        base
    };
    match f.name {
        Some(name) => Some(CFunction { name, return_type, params: f.params, is_variadic: f.is_variadic }),
        None => None,
    }
}

/// The position of the last part of a typedef that can be its alias.
pub open spec fn alias_at(cs: Seq<CNodeV>) -> Option<int>
    decreases cs.len(),
{
    if cs.len() == 0 {
        None
    } else if is_simple_type(cs.last().kind) || cs.last().kind == "identifier"@ {
        Some(cs.len() - 1)
    } else {
        alias_at(cs.drop_last())
    }
}

/// The underlying type of a typedef, from its part `i` on; the part at `alias` is left out.
pub open spec fn underlying_from(cs: Seq<CNodeV>, i: int, alias: Option<int>, t: Option<CTypeV>) -> Option<CTypeV>
    decreases cs.len() - i,
{
    if i < 0 || i >= cs.len() {
        t
    } else if alias == Some(i) {
        underlying_from(cs, i + 1, alias, t)
    } else {
        let c = cs[i];
        let next = if is_aggregate(c.kind) || c.kind == "primitive_type"@ || c.kind == "sized_type_specifier"@ {
            Some(specified_type(c))
        } else if c.kind == "pointer_declarator"@ {
            Some(pointer_declared(c).0)
        } else if c.kind == "function_declarator"@ {
            Some(CTypeV::Named("/* fn ptr */"@))
        } else {
            t
        };
        underlying_from(cs, i + 1, alias, next)
    }
}

/// Whether a name stands for a struct, union or enum without a tag.
pub open spec fn is_anonymous(name: Seq<char>) -> bool {
    name == "/* anonymous struct */"@ || name == "/* anonymous union */"@ || name == "/* anonymous enum */"@
}

/// The typedef that a `type_definition` node gives.
pub open spec fn declared_typedef(n: CNodeV) -> Option<CTypedefV> {
    match alias_at(n.children) {
        None => None,
        Some(a) => {
            let alias = n.children[a].text;
            let raw = or_int(underlying_from(n.children, 0, Some(a), None));
            let underlying = if raw is Named && is_anonymous(raw->Named_0) {
                CTypeV::Named(alias)
            } else {
                raw
            };
            if underlying is Int && alias == c_type_text(underlying) {
                None
            } else {
                Some(CTypedefV { name: alias, underlying })
            }
        },
    }
}

/// The contents of an optional typedef.
pub open spec fn opt_typedef_v(t: Option<CTypedef>) -> Option<CTypedefV> {
    match t {
        Some(x) => Some(c_typedef_v(x)),
        None => None,
    }
}

fn find_alias(node: &CNode) -> (r: Option<usize>)
    ensures
        match r {
            Some(a) => alias_at(node@.children) == Some(a as int) && a < node.children@.len(),
            None => alias_at(node@.children) is None,
        },
{
    broadcast use lemma_node_v;

    let mut k: usize = node.children.len();
    proof {
        assert(node@.children.take(k as int) =~= node@.children);
    }
    while k > 0
        invariant
            k <= node.children@.len(),
            node@.children == nodes_v(node.children@),
            alias_at(node@.children) == alias_at(node@.children.take(k as int)),
        decreases k,
    {
        let c = &node.children[k - 1];
        proof {
            assert(node@.children.take(k as int).last() == c@);
            assert(node@.children.take(k as int).drop_last() =~= node@.children.take(k - 1));
        }
        if kind_is_simple_type(c) || is_kind(c, "identifier") {
            return Some(k - 1);
        }
        k = k - 1;
    }
    None
}

fn parse_typedef(node: &CNode) -> (r: Option<CTypedef>)
    ensures
        opt_typedef_v(r) == declared_typedef(node@),
{
    broadcast use lemma_node_v;

    let a: usize = match find_alias(node) {
        Some(a) => a,
        None => return None,
    };
    let mut underlying: Option<CType> = None;
    let mut i: usize = 0;
    while i < node.children.len()
        invariant
            i <= node.children@.len(),
            node@.children == nodes_v(node.children@),
            underlying_from(node@.children, 0, Some(a as int), None) == underlying_from(
                node@.children,
                i as int,
                Some(a as int),
                opt_c_type_v(underlying),
            ),
        decreases node.children@.len() - i,
    {
        let c = &node.children[i];
        assert(node@.children[i as int] == c@);
        if i != a {
            if kind_is_aggregate(c) || is_kind(c, "primitive_type") || is_kind(c, "sized_type_specifier") {
                underlying = Some(parse_type_specifier(c));
            } else if is_kind(c, "pointer_declarator") {
                underlying = Some(parse_pointer_declarator(c).0);
            } else if is_kind(c, "function_declarator") {
                underlying = Some(CType::Named("/* fn ptr */".to_owned()));
            }
        }
        i = i + 1;
    }
    assert(node@.children[a as int] == node.children@[a as int]@);
    let alias = node.children[a].text.clone();
    let raw = match underlying {
        Some(t) => t,
        None => CType::Int,
    };
    let anonymous = match &raw {
        CType::Named(name) => text::text_eq(name.as_str(), "/* anonymous struct */") || text::text_eq(
            name.as_str(),
            "/* anonymous union */",
        ) || text::text_eq(name.as_str(), "/* anonymous enum */"),
        _ => false,
    };
    let underlying = if anonymous {
        CType::Named(alias.clone())
    } else {
        raw
    };
    if matches!(underlying, CType::Int) && alias == underlying.to_string() {
        return None;
    }
    Some(CTypedef { name: alias, underlying })
}

/// The field that a field declaration gives, from its part `i` on.
pub open spec fn field_from(
    cs: Seq<CNodeV>,
    i: int,
    name: Option<Seq<char>>,
    ty: Option<CTypeV>,
) -> Option<CFieldV>
    decreases cs.len() - i,
{
    if i < 0 || i >= cs.len() {
        match name {
            Some(n) => Some(CFieldV { name: Some(n), ty: or_int(ty) }),
            None => None,
        }
    } else if is_simple_type(cs[i].kind) {
        field_from(cs, i + 1, name, Some(specified_type(cs[i])))
    } else if cs[i].kind == "field_identifier"@ {
        field_from(cs, i + 1, Some(cs[i].text), ty)
    } else if cs[i].kind == "pointer_declarator"@ {
        field_from(cs, i + 1, pointer_declared(cs[i]).1, Some(pointer_declared(cs[i]).0))
    } else {
        field_from(cs, i + 1, name, ty)
    }
}

/// The contents of an optional field.
pub open spec fn opt_field_v(f: Option<CField>) -> Option<CFieldV> {
    match f {
        Some(x) => Some(c_field_v(x)),
        None => None,
    }
}

fn parse_field_declaration(node: &CNode) -> (r: Option<CField>)
    ensures
        opt_field_v(r) == field_from(node@.children, 0, None, None),
{
    broadcast use lemma_node_v;

    let mut name: Option<String> = None;
    let mut ty: Option<CType> = None;
    let mut i: usize = 0;
    while i < node.children.len()
        invariant
            i <= node.children@.len(),
            node@.children == nodes_v(node.children@),
            field_from(node@.children, 0, None, None) == field_from(
                node@.children,
                i as int,
                opt_text(name),
                opt_c_type_v(ty),
            ),
        decreases node.children@.len() - i,
    {
        let c = &node.children[i];
        assert(node@.children[i as int] == c@);
        if kind_is_simple_type(c) {
            ty = Some(parse_type_specifier(c));
        } else if is_kind(c, "field_identifier") {
            name = Some(c.text.clone());
        } else if is_kind(c, "pointer_declarator") {
            let (t, n) = parse_pointer_declarator(c);
            ty = Some(t);
            name = n;
        }
        i = i + 1;
    }
    match name {
        Some(n) => Some(
            CField {
                name: Some(n),
                ty: match ty {
                    Some(t) => t,
                    None => CType::Int,
                },
            },
        ),
        None => None,
    }
}

/// The fields that a field list gives, from its part `i` on, appended to `acc`.
pub open spec fn fields_from(cs: Seq<CNodeV>, i: int, acc: Seq<CFieldV>) -> Seq<CFieldV>
    decreases cs.len() - i,
{
    if i < 0 || i >= cs.len() {
        acc
    } else if cs[i].kind == "field_declaration"@ {
        match field_from(cs[i].children, 0, None, None) {
            Some(f) => fields_from(cs, i + 1, acc.push(f)),
            None => fields_from(cs, i + 1, acc),
        }
    } else {
        fields_from(cs, i + 1, acc)
    }
}

fn parse_field_declaration_list(node: &CNode) -> (r: Vec<CField>)
    ensures
        c_fields_v(r@) == fields_from(node@.children, 0, Seq::empty()),
{
    broadcast use lemma_node_v;

    let mut out: Vec<CField> = Vec::new();
    let mut i: usize = 0;
    proof {
        assert(c_fields_v(out@) =~= Seq::<CFieldV>::empty());
    }
    while i < node.children.len()
        invariant
            i <= node.children@.len(),
            node@.children == nodes_v(node.children@),
            fields_from(node@.children, 0, Seq::empty()) == fields_from(
                node@.children,
                i as int,
                c_fields_v(out@),
            ),
        decreases node.children@.len() - i,
    {
        let c = &node.children[i];
        assert(node@.children[i as int] == c@);
        if is_kind(c, "field_declaration") {
            match parse_field_declaration(c) {
                Some(f) => {
                    proof {
                        assert(c_fields_v(out@.push(f)) =~= c_fields_v(out@).push(c_field_v(f)));
                    }
                    out.push(f);
                },
                None => {},
            }
        }
        i = i + 1;
    }
    out
}

/// The tag and the fields of a struct or union, from its part `i` on. A field list without
/// fields leaves those seen before.
pub open spec fn aggregate_from(cs: Seq<CNodeV>, i: int, name: Seq<char>, fields: Seq<CFieldV>) -> (
    Seq<char>,
    Seq<CFieldV>,
)
    decreases cs.len() - i,
{
    if i < 0 || i >= cs.len() {
        (name, fields)
    } else if cs[i].kind == "type_identifier"@ {
        aggregate_from(cs, i + 1, cs[i].text, fields)
    } else if cs[i].kind == "field_declaration_list"@ {
        let fs = fields_from(cs[i].children, 0, Seq::empty());
        aggregate_from(cs, i + 1, name, if fs.len() == 0 { fields } else { fs })
    } else {
        aggregate_from(cs, i + 1, name, fields)
    }
}

/// The struct that a struct or union node gives; where it has no tag, it takes the fallback name.
pub open spec fn declared_struct(n: CNodeV, fallback: Option<Seq<char>>) -> Option<CStructV> {
    let (name, fields) = aggregate_from(n.children, 0, Seq::empty(), Seq::empty());
    if name.len() > 0 {
        Some(CStructV { name, fields })
    } else {
        match fallback {
            Some(f) => Some(CStructV { name: f, fields }),
            None => None,
        }
    }
}

/// The contents of an optional struct.
pub open spec fn opt_struct_v(s: Option<CStruct>) -> Option<CStructV> {
    match s {
        Some(x) => Some(c_struct_v(x)),
        None => None,
    }
}

/// The contents of an optional name.
pub open spec fn opt_name(s: Option<&String>) -> Option<Seq<char>> {
    match s {
        Some(x) => Some(x@),
        None => None,
    }
}

fn parse_struct_specifier(node: &CNode, fallback: Option<&String>) -> (r: Option<CStruct>)
    ensures
        opt_struct_v(r) == declared_struct(node@, opt_name(fallback)),
{
    broadcast use lemma_node_v;

    let mut name = String::new();
    let mut fields: Vec<CField> = Vec::new();
    let mut i: usize = 0;
    proof {
        assert(c_fields_v(fields@) =~= Seq::<CFieldV>::empty());
    }
    while i < node.children.len()
        invariant
            i <= node.children@.len(),
            node@.children == nodes_v(node.children@),
            aggregate_from(node@.children, 0, Seq::empty(), Seq::empty()) == aggregate_from(
                node@.children,
                i as int,
                name@,
                c_fields_v(fields@),
            ),
        decreases node.children@.len() - i,
    {
        let c = &node.children[i];
        assert(node@.children[i as int] == c@);
        if is_kind(c, "type_identifier") {
            name = c.text.clone();
        } else if is_kind(c, "field_declaration_list") {
            let fs = parse_field_declaration_list(c);
            proof {
                assert(c_fields_v(fs@).len() == fs@.len());
            }
            if fs.len() > 0 {
                fields = fs;
            }
        }
        i = i + 1;
    }
    if name.as_str().is_empty() {
        match fallback {
            Some(f) => Some(CStruct { name: f.clone(), fields }),
            None => None,
        }
    } else {
        Some(CStruct { name, fields })
    }
}

/// The struct inside a typedef: what the first struct part gives.
pub open spec fn embedded_struct(cs: Seq<CNodeV>, alias: Option<Seq<char>>) -> Option<CStructV> {
    match child_of_kind(cs, 0, "struct_specifier"@) {
        Some(c) => declared_struct(c, alias),
        None => None,
    }
}

/// The union inside a typedef: what the first union part that gives one gives.
pub open spec fn embedded_union_from(cs: Seq<CNodeV>, i: int, alias: Option<Seq<char>>) -> Option<CUnionV>
    decreases cs.len() - i,
{
    if i < 0 || i >= cs.len() {
        None
    } else if cs[i].kind == "union_specifier"@ && declared_struct(cs[i], alias) is Some {
        let s = declared_struct(cs[i], alias)->0;
        Some(CUnionV { name: s.name, fields: s.fields })
    } else {
        embedded_union_from(cs, i + 1, alias)
    }
}

fn extract_struct_from_type_def(node: &CNode, fallback: Option<&String>) -> (r: Option<CStruct>)
    ensures
        opt_struct_v(r) == embedded_struct(node@.children, opt_name(fallback)),
{
    match find_child(node, "struct_specifier") {
        Some(c) => parse_struct_specifier(c, fallback),
        None => None,
    }
}

/// The contents of an optional union.
pub open spec fn opt_union_v(s: Option<CUnion>) -> Option<CUnionV> {
    match s {
        Some(x) => Some(c_union_v(x)),
        None => None,
    }
}

fn extract_union_from_type_def(node: &CNode, fallback: Option<&String>) -> (r: Option<CUnion>)
    ensures
        opt_union_v(r) == embedded_union_from(node@.children, 0, opt_name(fallback)),
{
    broadcast use lemma_node_v;

    let mut i: usize = 0;
    while i < node.children.len()
        invariant
            i <= node.children@.len(),
            node@.children == nodes_v(node.children@),
            embedded_union_from(node@.children, 0, opt_name(fallback)) == embedded_union_from(
                node@.children,
                i as int,
                opt_name(fallback),
            ),
        decreases node.children@.len() - i,
    {
        let c = &node.children[i];
        assert(node@.children[i as int] == c@);
        if is_kind(c, "union_specifier") {
            match parse_struct_specifier(c, fallback) {
                Some(s) => {
                    return Some(CUnion { name: s.name, fields: s.fields });
                },
                None => {},
            }
        }
        i = i + 1;
    }
    None
}

/// What was seen of a variable with an initializer.
pub open spec fn init_from(
    cs: Seq<CNodeV>,
    i: int,
    base: Option<CTypeV>,
    name: Option<Seq<char>>,
    ty: Option<CTypeV>,
) -> (Option<Seq<char>>, Option<CTypeV>)
    decreases cs.len() - i,
{
    if i < 0 || i >= cs.len() {
        (name, ty)
    } else {
        let c = cs[i];
        if c.kind == "identifier"@ {
            init_from(cs, i + 1, base, Some(c.text), base)
        } else if c.kind == "pointer_declarator"@ {
            init_from(cs, i + 1, base, pointer_declared(c).1, Some(pointer_declared(c).0))
        } else if c.kind == "array_declarator"@ {
            init_from(
                cs,
                i + 1,
                base,
                match child_of_kind(c.children, 0, "identifier"@) {
                    Some(id) => Some(id.text),
                    None => name,
                },
                Some(array_declared(c)),
            )
        } else {
            init_from(cs, i + 1, base, name, ty)
        }
    }
}

/// The variable that a declarator with an initializer gives.
pub open spec fn initialized_var(n: CNodeV, base: Option<CTypeV>, is_const: bool) -> Option<CGlobalVarV> {
    let (name, ty) = init_from(n.children, 0, base, None, None);
    let full = if ty is Some { ty } else { base };
    match (name, full) {
        (Some(name), Some(ty)) => Some(CGlobalVarV { name, ty, is_const }),
        _ => None,
    }
}

/// The contents of an optional variable.
pub open spec fn opt_var_v(s: Option<CGlobalVar>) -> Option<CGlobalVarV> {
    match s {
        Some(x) => Some(c_global_var_v(x)),
        None => None,
    }
}

fn copy_opt_c_type(t: &Option<CType>) -> (r: Option<CType>)
    ensures
        opt_c_type_v(r) == opt_c_type_v(*t),
{
    match t {
        Some(x) => Some(copy_c_type(x)),
        None => None,
    }
}

fn parse_init_declarator(node: &CNode, base: &Option<CType>, is_const: bool) -> (r: Option<CGlobalVar>)
    ensures
        opt_var_v(r) == initialized_var(node@, opt_c_type_v(*base), is_const),
{
    broadcast use lemma_node_v;

    let mut name: Option<String> = None;
    let mut ty: Option<CType> = None;
    let mut i: usize = 0;
    let ghost b = opt_c_type_v(*base);
    while i < node.children.len()
        invariant
            i <= node.children@.len(),
            node@.children == nodes_v(node.children@),
            b == opt_c_type_v(*base),
            init_from(node@.children, 0, b, None, None) == init_from(
                node@.children,
                i as int,
                b,
                opt_text(name),
                opt_c_type_v(ty),
            ),
        decreases node.children@.len() - i,
    {
        let c = &node.children[i];
        assert(node@.children[i as int] == c@);
        if is_kind(c, "identifier") {
            name = Some(c.text.clone());
            ty = copy_opt_c_type(base);
        } else if is_kind(c, "pointer_declarator") {
            let (t, n) = parse_pointer_declarator(c);
            name = n;
            ty = Some(t);
        } else if is_kind(c, "array_declarator") {
            let t = parse_array_declarator(c);
            match find_child(c, "identifier") {
                Some(id) => {
                    name = Some(id.text.clone());
                },
                None => {},
            }
            ty = Some(t);
        }
        i = i + 1;
    }
    let full = match ty {
        Some(t) => Some(t),
        None => copy_opt_c_type(base),
    };
    match (name, full) {
        (Some(name), Some(ty)) => Some(CGlobalVar { name, ty, is_const }),
        _ => None,
    }
}

/// Whether a `type_qualifier` node is `const`.
pub open spec fn is_const_qualifier(c: CNodeV) -> bool {
    c.children.len() > 0 && c.children[0].kind == "const"@
}

/// The variables that a declaration gives, from its part `i` on, appended to `acc`.
pub open spec fn vars_from(
    cs: Seq<CNodeV>,
    i: int,
    base: Option<CTypeV>,
    is_const: bool,
    acc: Seq<CGlobalVarV>,
) -> Seq<CGlobalVarV>
    decreases cs.len() - i,
{
    if i < 0 || i >= cs.len() {
        acc
    } else {
        let c = cs[i];
        if c.kind == "type_qualifier"@ {
            vars_from(cs, i + 1, base, is_const || is_const_qualifier(c), acc)
        } else if is_value_type(c.kind) {
            vars_from(cs, i + 1, Some(specified_type(c)), is_const, acc)
        } else if c.kind == "init_declarator"@ {
            match initialized_var(c, base, is_const) {
                Some(v) => vars_from(cs, i + 1, base, is_const, acc.push(v)),
                None => vars_from(cs, i + 1, base, is_const, acc),
            }
        } else if c.kind == "pointer_declarator"@ {
            match pointer_declared(c).1 {
                Some(name) => vars_from(
                    cs,
                    i + 1,
                    base,
                    is_const,
                    acc.push(CGlobalVarV { name, ty: pointer_declared(c).0, is_const }),
                ),
                None => vars_from(cs, i + 1, base, is_const, acc),
            }
        } else if c.kind == "identifier"@ {
            vars_from(
                cs,
                i + 1,
                base,
                is_const,
                acc.push(CGlobalVarV { name: c.text, ty: or_int(base), is_const }),
            )
        } else {
            vars_from(cs, i + 1, base, is_const, acc)
        }
    }
}

fn parse_global_variables(node: &CNode) -> (r: Vec<CGlobalVar>)
    ensures
        c_global_vars_v(r@) == vars_from(node@.children, 0, None, false, Seq::empty()),
{
    broadcast use lemma_node_v;

    let mut base: Option<CType> = None;
    let mut is_const = false;
    let mut out: Vec<CGlobalVar> = Vec::new();
    let mut i: usize = 0;
    proof {
        assert(c_global_vars_v(out@) =~= Seq::<CGlobalVarV>::empty());
    }
    while i < node.children.len()
        invariant
            i <= node.children@.len(),
            node@.children == nodes_v(node.children@),
            vars_from(node@.children, 0, None, false, Seq::empty()) == vars_from(
                node@.children,
                i as int,
                opt_c_type_v(base),
                is_const,
                c_global_vars_v(out@),
            ),
        decreases node.children@.len() - i,
    {
        let c = &node.children[i];
        assert(node@.children[i as int] == c@);
        if is_kind(c, "type_qualifier") {
            proof {
                assert(c.children@.len() > 0 ==> c@.children[0] == c.children@[0]@);
            }
            if c.children.len() > 0 && is_kind(&c.children[0], "const") {
                is_const = true;
            }
        } else if kind_is_value_type(c) {
            base = Some(parse_type_specifier(c));
        } else {
            let found = if is_kind(c, "init_declarator") {
                parse_init_declarator(c, &base, is_const)
            } else if is_kind(c, "pointer_declarator") {
                let (ty, name) = parse_pointer_declarator(c);
                match name {
                    Some(name) => Some(CGlobalVar { name, ty, is_const }),
                    None => None,
                }
            } else if is_kind(c, "identifier") {
                Some(
                    CGlobalVar {
                        name: c.text.clone(),
                        ty: match &base {
                            Some(t) => copy_c_type(t),
                            None => CType::Int,
                        },
                        is_const,
                    },
                )
            } else {
                None
            };
            match found {
                Some(v) => {
                    proof {
                        assert(c_global_vars_v(out@.push(v)) =~= c_global_vars_v(out@).push(c_global_var_v(v)));
                    }
                    out.push(v);
                },
                None => {},
            }
        }
        i = i + 1;
    }
    out
}

/// A count from zero, as one from one.
pub open spec fn from_one(n: usize) -> usize {
    if n < usize::MAX {
        (n + 1) as usize
    } else {
        n
    }
}

fn count_from_one(n: usize) -> (r: usize)
    ensures
        r == from_one(n),
{
    if n < usize::MAX {
        n + 1
    } else {
        n
    }
}

/// The declarations with what a type in them defines appended: a struct, a union or an enum that
/// has a tag and is written out.
pub open spec fn with_specifier(d: CDeclarationsV, c: CNodeV) -> CDeclarationsV {
    let written_out = child_of_kind(c.children, 0, "field_declaration_list"@) is Some;
    if c.kind == "struct_specifier"@ && written_out && declared_struct(c, None) is Some {
        CDeclarationsV { structs: d.structs.push(declared_struct(c, None)->0), ..d }
    } else if c.kind == "union_specifier"@ && written_out && declared_struct(c, None) is Some {
        let s = declared_struct(c, None)->0;
        CDeclarationsV { unions: d.unions.push(CUnionV { name: s.name, fields: s.fields }), ..d }
    } else if c.kind == "enum_specifier"@ && declared_enum(c, None) is Some {
        CDeclarationsV { enums: d.enums.push(declared_enum(c, None)->0), ..d }
    } else {
        d
    }
}

/// The declarations with what the types among the nodes from position `i` on define appended.
pub open spec fn with_specifiers(d: CDeclarationsV, cs: Seq<CNodeV>, i: int) -> CDeclarationsV
    decreases cs.len() - i,
{
    if i < 0 || i >= cs.len() {
        d
    } else {
        with_specifiers(with_specifier(d, cs[i]), cs, i + 1)
    }
}

/// The declarations with what one top-level node gives appended. A node with a parse error is
/// skipped, and its place recorded.
pub open spec fn with_node(d: CDeclarationsV, c: CNodeV) -> CDeclarationsV {
    if c.has_error {
        CDeclarationsV {
            skipped_nodes: d.skipped_nodes.push(
                SkippedNodeV { line: from_one(c.row), column: from_one(c.column), kind: c.kind },
            ),
            ..d
        }
    } else if c.kind == "function_definition"@ || (c.kind == "declaration"@ && declares_function(c.children)) {
        let e = with_specifiers(d, c.children, 0);
        match declared_function(c) {
            Some(f) => CDeclarationsV { functions: e.functions.push(f), ..e },
            None => e,
        }
    } else if c.kind == "declaration"@ {
        let e = with_specifiers(d, c.children, 0);
        CDeclarationsV {
            globals: e.globals + vars_from(c.children, 0, None, false, Seq::empty()),
            ..e
        }
    } else if c.kind == "type_definition"@ {
        with_typedef(d, c)
    } else {
        with_specifier(d, c)
    }
}

/// The enum inside a typedef: what the first enum part gives.
pub open spec fn embedded_enum(cs: Seq<CNodeV>, alias: Option<Seq<char>>) -> Option<CEnumV> {
    match child_of_kind(cs, 0, "enum_specifier"@) {
        Some(c) => declared_enum(c, alias),
        None => None,
    }
}

/// The declarations with what a typedef gives appended: itself, and the struct, union or enum in
/// it.
pub open spec fn with_typedef(d: CDeclarationsV, c: CNodeV) -> CDeclarationsV {
    let td = declared_typedef(c);
    let alias = match td {
        Some(t) => Some(t.name),
        None => None,
    };
    CDeclarationsV {
        typedefs: match td {
            Some(t) => d.typedefs.push(t),
            None => d.typedefs,
        },
        structs: match embedded_struct(c.children, alias) {
            Some(s) => d.structs.push(s),
            None => d.structs,
        },
        unions: match embedded_union_from(c.children, 0, alias) {
            Some(u) => d.unions.push(u),
            None => d.unions,
        },
        enums: match embedded_enum(c.children, alias) {
            Some(e) => d.enums.push(e),
            None => d.enums,
        },
        ..d
    }
}

/// The declarations that the top-level nodes from position `i` on give, appended to `d`.
pub open spec fn declarations_from(cs: Seq<CNodeV>, i: int, d: CDeclarationsV) -> CDeclarationsV
    decreases cs.len() - i,
{
    if i < 0 || i >= cs.len() {
        d
    } else {
        declarations_from(cs, i + 1, with_node(d, cs[i]))
    }
}

/// The declarations that the top-level nodes of a header give.
pub open spec fn declarations_of(cs: Seq<CNodeV>) -> CDeclarationsV {
    declarations_from(cs, 0, no_declarations())
}

fn push_enum(d: &mut CDeclarations, e: CEnum)
    ensures
        final(d)@ == (CDeclarationsV { enums: old(d)@.enums.push(c_enum_v(e)), ..old(d)@ }),
{
    proof {
        assert(c_enums_v(d.enums@.push(e)) =~= c_enums_v(d.enums@).push(c_enum_v(e)));
    }
    d.enums.push(e);
}

fn add_specifier(d: &mut CDeclarations, c: &CNode)
    ensures
        final(d)@ == with_specifier(old(d)@, c@),
{
    proof {
        reveal_strlit("struct_specifier");
        reveal_strlit("union_specifier");
        reveal_strlit("enum_specifier");
        assert("struct_specifier"@.len() == 16 && "union_specifier"@.len() == 15 && "enum_specifier"@.len() == 14);
        assert(opt_name(None) is None);
    }
    if is_kind(c, "enum_specifier") {
        match parse_enum_specifier(c, None) {
            Some(e) => push_enum(d, e),
            None => {},
        }
        return ;
    }
    let is_struct = is_kind(c, "struct_specifier");
    if (is_struct || is_kind(c, "union_specifier")) && find_child(c, "field_declaration_list").is_some() {
        match parse_struct_specifier(c, None) {
            Some(s) => {
                if is_struct {
                    proof {
                        assert(c_structs_v(d.structs@.push(s)) =~= c_structs_v(d.structs@).push(c_struct_v(s)));
                    }
                    d.structs.push(s);
                } else {
                    let u = CUnion { name: s.name, fields: s.fields };
                    proof {
                        assert(c_unions_v(d.unions@.push(u)) =~= c_unions_v(d.unions@).push(c_union_v(u)));
                    }
                    d.unions.push(u);
                }
            },
            None => {},
        }
    }
}

fn add_specifiers(d: &mut CDeclarations, c: &CNode)
    ensures
        final(d)@ == with_specifiers(old(d)@, c@.children, 0),
{
    broadcast use lemma_node_v;

    let ghost d0 = d@;
    let mut i: usize = 0;
    while i < c.children.len()
        invariant
            i <= c.children@.len(),
            c@.children == nodes_v(c.children@),
            d0 == old(d)@,
            with_specifiers(d0, c@.children, 0) == with_specifiers(d@, c@.children, i as int),
        decreases c.children@.len() - i,
    {
        assert(c@.children[i as int] == c.children@[i as int]@);
        add_specifier(d, &c.children[i]);
        i = i + 1;
    }
}

fn add_typedef(d: &mut CDeclarations, c: &CNode)
    ensures
        final(d)@ == with_typedef(old(d)@, c@),
{
    let ghost before = d@;
    let ghost raw = *d;
    let td = parse_typedef(c);
    let alias = match &td {
        Some(t) => Some(&t.name),
        None => None,
    };
    let s = extract_struct_from_type_def(c, alias);
    let u = extract_union_from_type_def(c, alias);
    let e = match find_child(c, "enum_specifier") {
        Some(x) => parse_enum_specifier(x, alias),
        None => None,
    };
    match e {
        Some(e) => push_enum(d, e),
        None => {},
    }
    match s {
        Some(s) => {
            proof {
                assert(c_structs_v(d.structs@.push(s)) =~= c_structs_v(d.structs@).push(c_struct_v(s)));
            }
            d.structs.push(s);
        },
        None => {},
    }
    match u {
        Some(u) => {
            proof {
                assert(c_unions_v(d.unions@.push(u)) =~= c_unions_v(d.unions@).push(c_union_v(u)));
            }
            d.unions.push(u);
        },
        None => {},
    }
    match td {
        Some(t) => {
            proof {
                assert(c_typedefs_v(d.typedefs@.push(t)) =~= c_typedefs_v(d.typedefs@).push(c_typedef_v(t)));
            }
            d.typedefs.push(t);
        },
        None => {},
    }
}

fn add_function(d: &mut CDeclarations, c: &CNode)
    ensures
        final(d)@ == match declared_function(c@) {
            Some(f) => (CDeclarationsV { functions: old(d)@.functions.push(f), ..old(d)@ }),
            None => old(d)@,
        },
{
    match parse_function_sig(c) {
        Some(f) => {
            proof {
                assert(c_functions_v(d.functions@.push(f)) =~= c_functions_v(d.functions@).push(c_function_v(f)));
            }
            d.functions.push(f);
        },
        None => {},
    }
}

fn add_node(d: &mut CDeclarations, c: &CNode)
    ensures
        final(d)@ == with_node(old(d)@, c@),
{
    if c.has_error {
        let s = SkippedNode { line: count_from_one(c.row), column: count_from_one(c.column), kind: c.kind.clone() };
        proof {
            assert(skipped_nodes_v(d.skipped_nodes@.push(s)) =~= skipped_nodes_v(d.skipped_nodes@).push(
                skipped_node_v(s),
            ));
        }
        d.skipped_nodes.push(s);
    } else if is_kind(c, "function_definition") {
        add_specifiers(d, c);
        add_function(d, c);
    } else if is_kind(c, "declaration") {
        add_specifiers(d, c);
        if has_function_declarator_child(c) {
            add_function(d, c);
        } else {
            let ghost before = d.globals@;
            let vars = parse_global_variables(c);
            let ghost more = vars@;
            let mut vars = vars;
            d.globals.append(&mut vars);
            proof {
                assert(c_global_vars_v(d.globals@) =~= c_global_vars_v(before) + c_global_vars_v(more));
            }
        }
    } else if is_kind(c, "type_definition") {
        add_typedef(d, c);
    } else {
        add_specifier(d, c);
    }
}

/// Takes the declarations from the top-level nodes of a header.
pub fn extract_declarations(nodes: &Vec<CNode>) -> (r: CDeclarations)
    ensures
        r@ == declarations_of(nodes_v(nodes@)),
{
    let mut d = CDeclarations::default();
    let mut i: usize = 0;
    while i < nodes.len()
        invariant
            i <= nodes@.len(),
            declarations_of(nodes_v(nodes@)) == declarations_from(nodes_v(nodes@), i as int, d@),
        decreases nodes@.len() - i,
    {
        assert(nodes_v(nodes@)[i as int] == nodes@[i as int]@);
        add_node(&mut d, &nodes[i]);
        i = i + 1;
    }
    d
}

/// The result of header processing as a value of the model.
pub open spec fn header_v(r: Result<CDeclarations, FfiError>) -> Result<CDeclarationsV, FfiErrorV> {
    match r {
        Ok(d) => Ok(d@),
        Err(e) => Err(e@),
    }
}

/// The declarations of a preprocessed header, or why there are none.
pub open spec fn parsed_header(source: Seq<char>) -> Result<CDeclarationsV, FfiErrorV> {
    match c_syntax_of(source) {
        Ok(ns) => Ok(declarations_of(root_children(ns))),
        Err(SyntaxFailureV::Language(m)) => Err(FfiErrorV::Parse("Failed to set C language: "@ + m)),
        Err(SyntaxFailureV::NoTree) => Err(FfiErrorV::Parse("Failed to parse C source"@)),
    }
}

/// Parses a preprocessed C header and takes its declarations.
pub fn parse_c_header(source: &str) -> (r: Result<CDeclarations, FfiError>)
    ensures
        header_v(r) == parsed_header(source@),
{
    match c_syntax(source) {
        Ok(nodes) => Ok(extract_declarations(&build_root_children(&nodes))),
        Err(SyntaxFailure::Language(m)) => Err(
            FfiError::Parse("Failed to set C language: ".to_owned().concat(m.as_str())),
        ),
        Err(SyntaxFailure::NoTree) => Err(FfiError::Parse("Failed to parse C source".to_owned())),
    }
}

/// Takes the declarations of a header that needs no preprocessing.
pub fn extract_from_preprocessed(source: &str) -> (r: Result<CDeclarations, FfiError>)
    ensures
        header_v(r) == parsed_header(source@),
{
    parse_c_header(source)
}

/// A header yields nothing from a node with a parse error but the record of its place, and
/// nothing is lost of what came before.
pub proof fn law_declarations_only_grow(d: CDeclarationsV, c: CNodeV)
    ensures
        d.functions.is_prefix_of(with_node(d, c).functions),
        d.structs.is_prefix_of(with_node(d, c).structs),
        d.unions.is_prefix_of(with_node(d, c).unions),
        d.enums.is_prefix_of(with_node(d, c).enums),
        d.typedefs.is_prefix_of(with_node(d, c).typedefs),
        d.globals.is_prefix_of(with_node(d, c).globals),
        d.skipped_nodes.is_prefix_of(with_node(d, c).skipped_nodes),
        c.has_error ==> with_node(d, c) == (CDeclarationsV {
            skipped_nodes: with_node(d, c).skipped_nodes,
            ..d
        }),
{
    let e = with_node(d, c);
    lemma_specifiers_grow(d, c.children, 0);
    assert(d.enums =~= e.enums.subrange(0, d.enums.len() as int));
    assert(d.functions =~= e.functions.subrange(0, d.functions.len() as int));
    assert(d.structs =~= e.structs.subrange(0, d.structs.len() as int));
    assert(d.unions =~= e.unions.subrange(0, d.unions.len() as int));
    assert(d.typedefs =~= e.typedefs.subrange(0, d.typedefs.len() as int));
    assert(d.globals =~= e.globals.subrange(0, d.globals.len() as int));
    assert(d.skipped_nodes =~= e.skipped_nodes.subrange(0, d.skipped_nodes.len() as int));
}

proof fn lemma_specifiers_grow(d: CDeclarationsV, cs: Seq<CNodeV>, i: int)
    ensures
        ({
            let e = with_specifiers(d, cs, i);
            &&& d.structs.is_prefix_of(e.structs)
            &&& d.unions.is_prefix_of(e.unions)
            &&& d.enums.is_prefix_of(e.enums)
            &&& e == (CDeclarationsV { structs: e.structs, unions: e.unions, enums: e.enums, ..d })
        }),
    decreases cs.len() - i,
{
    if 0 <= i < cs.len() {
        let m = with_specifier(d, cs[i]);
        lemma_specifiers_grow(m, cs, i + 1);
        let e = with_specifiers(m, cs, i + 1);
        assert(d.structs =~= e.structs.subrange(0, d.structs.len() as int));
        assert(d.unions =~= e.unions.subrange(0, d.unions.len() as int));
        assert(d.enums =~= e.enums.subrange(0, d.enums.len() as int));
    } else {
        assert(d.structs =~= d.structs.subrange(0, d.structs.len() as int));
        assert(d.unions =~= d.unions.subrange(0, d.unions.len() as int));
        assert(d.enums =~= d.enums.subrange(0, d.enums.len() as int));
    }
}

} // verus!
