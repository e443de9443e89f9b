//! From the syntax tree: types, type parameters, attributes, headers and imports.
use crate::ast::{Expr, ExprV, Literal, LiteralV, Span};
use crate::decl::{meta_arg_v, meta_args_v, metadatas_v, type_params_v, Include, IncludeV, MetaArg, MetaArgV,
    Metadata, MetadataV, TypeParam, TypeParamV};
use crate::diagnostics::human_message;
use crate::error::{CompilationError, ContextV, ErrorContext, ErrorV};
use crate::expr_pratt::{parse_kit_expr, parsed, place};
use crate::lexer::{digits_end, digits_value, is_digit, is_space};
use crate::module::{ImportType, ModuleImport, ModuleImportV, ModulePath};
use crate::syntax::{lemma_syntax_v, rule_name, rule_text, span_of, NodeV, Rule, SyntaxNode};
use crate::text;
use crate::types::{kit_type, lemma_type_v, types_v, Type, TypeV};
use vstd::prelude::*;
use vstd::utf8::*;

verus! {

/// Reads declarations from syntax trees. The source is what places of expressions refer to.
#[derive(Clone, Debug)]
pub struct Parser {
    pub file: String,
    pub source: String,
}

impl Default for Parser {
    fn default() -> (r: Self)
        ensures
            r.file@ == Seq::<char>::empty(),
            r.source@ == Seq::<char>::empty(),
    {
        Parser { file: String::new(), source: String::new() }
    }
}

/// The contents of a parser: the file and the source that places refer to.
pub struct SourceV {
    pub file: Seq<char>,
    pub text: Seq<char>,
}

impl View for Parser {
    type V = SourceV;

    open spec fn view(&self) -> SourceV {
        SourceV { file: self.file@, text: self.source@ }
    }
}

/// What was read, or the contents of an error.
pub open spec fn viewed<T: View>(r: Result<T, CompilationError>) -> Result<T::V, ErrorV> {
    match r {
        Ok(x) => Ok(x@),
        Err(e) => Err(e@),
    }
}

/// An error in a declaration.
pub open spec fn bad(msg: Seq<char>) -> ErrorV {
    ErrorV::ParseError(msg)
}

/// An error in a declaration, with its place.
pub open spec fn bad_at(src: SourceV, span: Span, msg: Seq<char>) -> ErrorV {
    ErrorV::Located {
        error: Box::new(bad(msg)),
        context: ContextV { file: src.file, source: src.text, span },
    }
}

/// An error in a declaration.
pub fn parse_error(msg: &str) -> (r: CompilationError)
    ensures
        r@ == bad(msg@),
{
    CompilationError::ParseError(msg.to_owned())
}

/// A text without its first and last character.
pub open spec fn unquoted(s: Seq<char>) -> Seq<char> {
    if s.len() >= 2 {
        s.subrange(1, s.len() - 1)
    } else {
        Seq::empty()
    }
}

/// Takes the first and the last character off a text.
pub fn unquote(s: &str) -> (r: String)
    ensures
        r@ == unquoted(s@),
{
    let cs = text::chars_of(s);
    if cs.len() >= 2 {
        text::string_of(&cs, 1, cs.len() - 1)
    } else {
        String::new()
    }
}

/// The position behind the last character that is no white space, at most `n`.
pub open spec fn trim_end(s: Seq<char>, n: int) -> int
    decreases n,
{
    if n <= 0 || n > s.len() || !is_space(s[n - 1]) {
        n
    } else {
        trim_end(s, n - 1)
    }
}

/// The position of the first character from `i` on that is no white space.
pub open spec fn trim_start(s: Seq<char>, i: int) -> int
    decreases s.len() - i,
{
    if i < 0 || i >= s.len() || !is_space(s[i]) {
        i
    } else {
        trim_start(s, i + 1)
    }
}

/// A text without white space at its ends.
pub open spec fn trimmed(s: Seq<char>) -> Seq<char> {
    let a = trim_start(s, 0);
    let b = trim_end(s, s.len() as int);
    if a < b {
        s.subrange(a, b)
    } else {
        Seq::empty()
    }
}

fn space(c: char) -> (r: bool)
    ensures
        r == is_space(c),
{
    c == ' ' || c == '\t' || c == '\n' || c == '\r'
}

/// Takes white space off the ends of a text.
pub fn trim(s: &str) -> (r: String)
    ensures
        r@ == trimmed(s@),
{
    let cs = text::chars_of(s);
    let mut a: usize = 0;
    while a < cs.len() && space(cs[a])
        invariant
            a <= cs@.len(),
            cs@ == s@,
            trim_start(s@, 0) == trim_start(s@, a as int),
        decreases cs@.len() - a,
    {
        a = a + 1;
    }
    let mut b: usize = cs.len();
    while b > 0 && space(cs[b - 1])
        invariant
            b <= cs@.len(),
            cs@ == s@,
            trim_end(s@, s@.len() as int) == trim_end(s@, b as int),
        decreases b,
    {
        b = b - 1;
    }
    if a < b {
        text::string_of(&cs, a, b)
    } else {
        String::new()
    }
}

/// Whether a text ends with another.
pub open spec fn ends_with(s: Seq<char>, suffix: Seq<char>) -> bool {
    s.len() >= suffix.len() && s.skip(s.len() - suffix.len()) == suffix
}

/// A text without the suffixes of the given kind at its end.
pub open spec fn without_suffixes(s: Seq<char>, suffix: Seq<char>) -> Seq<char>
    decreases s.len(),
{
    if suffix.len() > 0 && ends_with(s, suffix) {
        without_suffixes(s.take(s.len() - suffix.len()), suffix)
    } else {
        s
    }
}

fn has_suffix(cs: &Vec<char>, n: usize, suffix: &Vec<char>) -> (r: bool)
    requires
        n <= cs@.len(),
    ensures
        r == ends_with(cs@.take(n as int), suffix@),
{
    if n < suffix.len() {
        return false;
    }
    let from: usize = n - suffix.len();
    let ghost tail = cs@.take(n as int).skip(from as int);
    let mut i: usize = 0;
    while i < suffix.len()
        invariant
            i <= suffix@.len(),
            from + suffix@.len() == n,
            n <= cs@.len(),
            tail == cs@.take(n as int).skip(from as int),
            forall|j: int| 0 <= j < i ==> tail[j] == #[trigger] suffix@[j],
        decreases suffix@.len() - i,
    {
        if cs[from + i] != suffix[i] {
            proof {
                assert(tail[i as int] != suffix@[i as int]);
            }
            return false;
        }
        i = i + 1;
    }
    proof {
        assert(tail =~= suffix@);
    }
    true
}

fn strip_suffixes(s: &str, suffix: &str) -> (r: String)
    requires
        suffix@.len() > 0,
    ensures
        r@ == without_suffixes(s@, suffix@),
{
    let cs = text::chars_of(s);
    let sx = text::chars_of(suffix);
    let mut n: usize = cs.len();
    proof {
        assert(cs@.take(n as int) =~= cs@);
    }
    while has_suffix(&cs, n, &sx)
        invariant
            n <= cs@.len(),
            cs@ == s@,
            sx@ == suffix@,
            suffix@.len() > 0,
            without_suffixes(s@, suffix@) == without_suffixes(cs@.take(n as int), suffix@),
        decreases n,
    {
        proof {
            assert(cs@.take(n as int).take(n - sx@.len()) =~= cs@.take(n - sx@.len()));
        }
        n = n - sx.len();
    }
    proof {
        assert(cs@.subrange(0, n as int) =~= cs@.take(n as int));
    }
    text::string_of(&cs, 0, n)
}

/// The header that an `include` names, and the library that it links.
pub open spec fn include_of(src: SourceV, n: NodeV) -> Result<IncludeV, ErrorV> {
    if n.children.len() == 0 {
        Err(bad_at(src, span_of(n), "include statement missing path"@))
    } else {
        Ok(
            IncludeV {
                path: unquoted(n.children[0].text),
                linked_lib: if n.children.len() > 1 {
                    Some(unquoted(n.children[1].text))
                } else {
                    None
                },
            },
        )
    }
}

/// The path and the kind of an import.
pub open spec fn import_target(s: Seq<char>) -> (Seq<char>, ImportType) {
    if ends_with(s, ".**"@) {
        (without_suffixes(s, ".**"@), ImportType::DoubleWildcard)
    } else if ends_with(s, ".*"@) {
        (without_suffixes(s, ".*"@), ImportType::Wildcard)
    } else {
        (s, ImportType::Single)
    }
}

/// What an `import` names.
pub open spec fn import_of(src: SourceV, n: NodeV) -> Result<ModuleImportV, ErrorV> {
    if n.children.len() == 0 {
        Err(bad_at(src, span_of(n), "import statement missing path"@))
    } else {
        let t = import_target(n.children[0].text);
        Ok(ModuleImportV { path: text::split_on(t.0, '.'), import_type: t.1, span: Some((n.start, n.end)) })
    }
}

/// Whether a text is in double quotes.
pub open spec fn is_quoted(s: Seq<char>) -> bool {
    s.len() >= 2 && s[0] == '"' && s.last() == '"'
}

/// Whether all characters from `i` on are decimal digits, and there is one.
pub open spec fn all_digits(s: Seq<char>, i: int) -> bool {
    i < s.len() && forall|j: int| i <= j < s.len() ==> is_digit(#[trigger] s[j])
}

/// The integer that a text stands for: an optional sign and digits, within range.
pub open spec fn integer_of(s: Seq<char>) -> Option<i64> {
    let signed = s.len() > 0 && (s[0] == '-' || s[0] == '+');
    let from: int = if signed { 1 } else { 0 };
    if !all_digits(s, from) {
        None
    } else {
        let v = digits_value(s.skip(from));
        if signed && s[0] == '-' {
            if v <= i64::MAX + 1 {
                Some((-v) as i64)
            } else {
                None
            }
        } else if v <= i64::MAX {
            Some(v as i64)
        } else {
            None
        }
    }
}

/// The integer that a text stands for.
pub fn read_integer(s: &str) -> (r: Option<i64>)
    ensures
        r == integer_of(s@),
{
    let cs = text::chars_of(s);
    let signed = cs.len() > 0 && (cs[0] == '-' || cs[0] == '+');
    let from: usize = if signed { 1 } else { 0 };
    let (end, v) = digit_run(&cs, from);
    if from >= cs.len() || end < cs.len() {
        return None;
    }
    proof {
        assert(s@.skip(from as int) =~= s@.subrange(from as int, end as int));
    }
    if signed && cs[0] == '-' {
        if v <= 0x8000_0000_0000_0000 {
            Some((-v) as i64)
        } else {
            None
        }
    } else if v <= 0x7fff_ffff_ffff_ffff {
        Some(v as i64)
    } else {
        None
    }
}

/// The end of the digits that begin at `from`, and their value; a value that is out of range both
/// with and without a minus sign is cut to the first such value.
fn digit_run(cs: &Vec<char>, from: usize) -> (r: (usize, i128))
    requires
        from <= cs@.len(),
    ensures
        r.0 == digits_end(cs@, from as int),
        from <= r.0 <= cs@.len(),
        forall|j: int| from <= j < r.0 ==> is_digit(#[trigger] cs@[j]),
        r.0 < cs@.len() ==> !is_digit(cs@[r.0 as int]),
        0 <= r.1,
        ({
            let v = digits_value(cs@.subrange(from as int, r.0 as int));
            r.1 == (if v > 0x8000_0000_0000_0000 {
                0x8000_0000_0000_0001
            } else {
                v
            })
        }),
{
    let mut v: i128 = 0;
    let mut i: usize = from;
    proof {
        assert(cs@.subrange(from as int, from as int) =~= Seq::<char>::empty());
    }
    while i < cs.len() && cs[i] >= '0' && cs[i] <= '9'
        invariant
            from <= i <= cs@.len(),
            digits_end(cs@, from as int) == digits_end(cs@, i as int),
            forall|j: int| from <= j < i ==> is_digit(#[trigger] cs@[j]),
            0 <= v <= 0x8000_0000_0000_0001,
            v < 0x8000_0000_0000_0001 ==> v == digits_value(cs@.subrange(from as int, i as int)),
            v == 0x8000_0000_0000_0001 ==> digits_value(cs@.subrange(from as int, i as int))
                > 0x8000_0000_0000_0000,
        decreases cs@.len() - i,
    {
        let d: i128 = (cs[i] as u32 - '0' as u32) as i128;
        proof {
            assert(cs@.subrange(from as int, i + 1).drop_last() =~= cs@.subrange(from as int, i as int));
            assert(cs@.subrange(from as int, i + 1).last() == cs@[i as int]);
        }
        if v < 0x8000_0000_0000_0001 {
            v = v * 10 + d;
            if v > 0x8000_0000_0000_0000 {
                v = 0x8000_0000_0000_0001;
            }
        }
        i = i + 1;
    }
    (i, v)
}

/// Why a text is no integer within range, as std writes the error of `str::parse` to `i64`: the
/// text is empty, its leading digits alone are too large or too small, or something else than a
/// digit stands where a digit should.
pub open spec fn integer_error_of(s: Seq<char>) -> Seq<char> {
    if s.len() == 0 {
        "ParseIntError { kind: Empty }"@
    } else {
        let from: int = if s[0] == '-' || s[0] == '+' { 1 } else { 0 };
        let v = digits_value(s.subrange(from, digits_end(s, from)));
        if s[0] == '-' && v > i64::MAX + 1 {
            "ParseIntError { kind: NegOverflow }"@
        } else if s[0] != '-' && v > i64::MAX {
            "ParseIntError { kind: PosOverflow }"@
        } else {
            "ParseIntError { kind: InvalidDigit }"@
        }
    }
}

pub(crate) fn integer_error(s: &str) -> (r: &'static str)
    ensures
        r@ == integer_error_of(s@),
{
    let cs = text::chars_of(s);
    if cs.len() == 0 {
        return "ParseIntError { kind: Empty }";
    }
    let from: usize = if cs[0] == '-' || cs[0] == '+' { 1 } else { 0 };
    let (_, v) = digit_run(&cs, from);
    if cs[0] == '-' && v > 0x8000_0000_0000_0000 {
        "ParseIntError { kind: NegOverflow }"
    } else if cs[0] != '-' && v > 0x7fff_ffff_ffff_ffff {
        "ParseIntError { kind: PosOverflow }"
    } else {
        "ParseIntError { kind: InvalidDigit }"
    }
}

/// The argument of an attribute: a literal, or a name.
pub open spec fn meta_arg_of(s: Seq<char>) -> MetaArgV {
    if is_quoted(s) {
        MetaArgV::Literal(LiteralV::String(unquoted(s)))
    } else if integer_of(s) is Some {
        MetaArgV::Literal(LiteralV::Int(integer_of(s)->0))
    } else if s == "true"@ {
        MetaArgV::Literal(LiteralV::Bool(true))
    } else if s == "false"@ {
        MetaArgV::Literal(LiteralV::Bool(false))
    } else if s == "null"@ {
        MetaArgV::Literal(LiteralV::Null)
    } else {
        MetaArgV::Identifier(s)
    }
}

/// The arguments of an attribute from position `i` on, appended to `acc`.
pub open spec fn meta_args_of(ns: Seq<NodeV>, i: int, acc: Seq<MetaArgV>) -> Seq<MetaArgV>
    decreases ns.len() - i,
{
    if i < 0 || i >= ns.len() {
        acc
    } else {
        meta_args_of(ns, i + 1, acc.push(meta_arg_of(ns[i].text)))
    }
}

/// An attribute.
pub open spec fn metadata_of(n: NodeV) -> Result<MetadataV, ErrorV> {
    if n.children.len() == 0 {
        Err(bad("metadata missing identifier"@))
    } else {
        Ok(MetadataV { name: n.children[0].text, args: meta_args_of(n.children, 1, Seq::empty()) })
    }
}

/// The attributes and the visibility from position `i` on, added to those before.
pub open spec fn modifiers_from(ns: Seq<NodeV>, i: int, ms: Seq<MetadataV>, is_public: bool) -> (Seq<MetadataV>, bool)
    decreases ns.len() - i,
{
    if i < 0 || i >= ns.len() {
        (ms, is_public)
    } else if ns[i].rule == Rule::Metadata {
        match metadata_of(ns[i]) {
            Ok(m) => modifiers_from(ns, i + 1, ms.push(m), is_public),
            Err(_) => modifiers_from(ns, i + 1, ms, is_public),
        }
    } else if ns[i].rule == Rule::Modifier && ns[i].text == "private"@ {
        modifiers_from(ns, i + 1, ms, false)
    } else {
        modifiers_from(ns, i + 1, ms, is_public)
    }
}

/// The attributes and the visibility of a declaration. Without any it is public.
pub open spec fn modifiers_of(n: Option<NodeV>) -> (Seq<MetadataV>, bool) {
    match n {
        Some(x) => modifiers_from(x.children, 0, Seq::empty(), true),
        None => (Seq::empty(), true),
    }
}

/// The expression that a node covers.
pub open spec fn expr_of(src: SourceV, n: NodeV) -> Result<ExprV, ErrorV> {
    match parsed(n.text) {
        Ok(e) => Ok(
            ExprV {
                kind: e.kind,
                ty: e.ty,
                span: place(encode_utf8(src.text), n.start, encode_utf8(n.text).len() as usize),
            },
        ),
        Err(e) => Err(bad_at(src, span_of(n), human_message(e))),
    }
}

/// The type that a node stands for, where the names in `scope` are type parameters.
pub open spec fn type_of(src: SourceV, n: NodeV, scope: Seq<Seq<char>>) -> Result<TypeV, ErrorV>
    decreases n, 0int,
{
    if n.children.len() == 0 {
        Err(bad_at(src, span_of(n), "type annotation is empty"@))
    } else {
        let k = n.children[0];
        if k.rule == Rule::TupleType {
            match types_of(src, k.children, scope, 0, k.children.len() as int, Seq::empty()) {
                Ok(ts) => Ok(TypeV::Tuple(ts)),
                Err(e) => Err(e),
            }
        } else if k.rule == Rule::BaseType {
            if k.children.len() == 0 {
                Err(bad_at(src, span_of(n), "base type is empty"@))
            } else {
                let base = trimmed(k.children[0].text);
                match types_of(src, k.children, scope, 1, k.children.len() as int, Seq::empty()) {
                    Ok(args) => Ok(named_type(base, args, scope)),
                    Err(e) => Err(e),
                }
            }
        } else if k.rule == Rule::PointerType {
            if k.children.len() == 0 {
                Err(bad_at(src, span_of(n), "pointer type is empty"@))
            } else {
                match type_of(src, k.children[0], scope) {
                    Ok(t) => Ok(TypeV::Ptr(Box::new(t))),
                    Err(e) => Err(e),
                }
            }
        } else if k.rule == Rule::FunctionType {
            if k.children.len() == 0 {
                Err(bad_at(src, span_of(n), "function_type missing return type"@))
            } else {
                match type_of(src, k.children[k.children.len() - 1], scope) {
                    Err(e) => Err(e),
                    Ok(ret) => match types_of(src, k.children, scope, 0, k.children.len() - 1, Seq::empty()) {
                        Ok(ps) => Ok(TypeV::Function { param_tys: ps, ret_ty: Box::new(ret) }),
                        Err(e) => Err(e),
                    },
                }
            }
        } else {
            Err(bad("Unexpected rule in type_annotation: "@ + rule_text(k.rule)))
        }
    }
}

/// A type by its name: an application, a type parameter, or a plain type.
pub open spec fn named_type(base: Seq<char>, args: Seq<TypeV>, scope: Seq<Seq<char>>) -> TypeV {
    if args.len() > 0 {
        TypeV::Instance { base, args }
    } else if scope.contains(base) {
        TypeV::TypeParam(base)
    } else {
        kit_type(base)
    }
}

/// The types from position `i` up to `end`, appended to `acc`.
pub open spec fn types_of(src: SourceV, ns: Seq<NodeV>, scope: Seq<Seq<char>>, i: int, end: int, acc: Seq<TypeV>) -> Result<
    Seq<TypeV>,
    ErrorV,
>
    decreases ns, end - i,
    when 0 <= i <= end <= ns.len()
{
    if i >= end {
        Ok(acc)
    } else {
        match type_of(src, ns[i], scope) {
            Ok(t) => types_of(src, ns, scope, i + 1, end, acc.push(t)),
            Err(e) => Err(e),
        }
    }
}

/// The constraints from position `i` on, appended to `acc`.
pub open spec fn constraints_of(src: SourceV, ns: Seq<NodeV>, i: int, acc: Seq<TypeV>) -> Result<Seq<TypeV>, ErrorV>
    decreases ns.len() - i,
{
    if i < 0 || i >= ns.len() {
        Ok(acc)
    } else if ns[i].rule == Rule::TypeAnnotation {
        match type_of(src, ns[i], Seq::empty()) {
            Ok(t) => constraints_of(src, ns, i + 1, acc.push(t)),
            Err(e) => Err(e),
        }
    } else {
        constraints_of(src, ns, i + 1, acc)
    }
}

/// A type parameter with what the parts from position `i` on add to it.
pub open spec fn type_param_from(src: SourceV, ns: Seq<NodeV>, i: int, p: TypeParamV) -> Result<TypeParamV, ErrorV>
    decreases ns.len() - i,
{
    if i < 0 || i >= ns.len() {
        Ok(p)
    } else if ns[i].rule == Rule::TypeConstraints {
        match constraints_of(src, ns[i].children, 0, p.constraints) {
            Ok(constraints) => type_param_from(src, ns, i + 1, TypeParamV { constraints, ..p }),
            Err(e) => Err(e),
        }
    } else if ns[i].rule == Rule::TypeAnnotation {
        match type_of(src, ns[i], Seq::empty()) {
            Ok(t) => type_param_from(src, ns, i + 1, TypeParamV { default: Some(t), ..p }),
            Err(e) => Err(e),
        }
    } else {
        type_param_from(src, ns, i + 1, p)
    }
}

/// A type parameter.
pub open spec fn type_param_of(src: SourceV, n: NodeV) -> Result<TypeParamV, ErrorV> {
    if n.children.len() == 0 {
        Err(bad_at(src, span_of(n), "type parameter missing name"@))
    } else {
        type_param_from(
            src,
            n.children,
            1,
            TypeParamV { name: n.children[0].text, constraints: Seq::empty(), default: None },
        )
    }
}

/// The type parameters from position `i` on, appended to `acc`.
pub open spec fn type_params_from(src: SourceV, ns: Seq<NodeV>, i: int, acc: Seq<TypeParamV>) -> Result<Seq<TypeParamV>, ErrorV>
    decreases ns.len() - i,
{
    if i < 0 || i >= ns.len() {
        Ok(acc)
    } else if ns[i].rule == Rule::TypeParam {
        match type_param_of(src, ns[i]) {
            Ok(p) => type_params_from(src, ns, i + 1, acc.push(p)),
            Err(e) => Err(e),
        }
    } else {
        type_params_from(src, ns, i + 1, acc)
    }
}

/// The type parameters of a definition.
pub open spec fn type_params_of(src: SourceV, n: NodeV) -> Result<Seq<TypeParamV>, ErrorV> {
    type_params_from(src, n.children, 0, Seq::empty())
}

/// The contents of types, or of an error.
pub open spec fn types_result(r: Result<Vec<Type>, CompilationError>) -> Result<Seq<TypeV>, ErrorV> {
    match r {
        Ok(v) => Ok(types_v(v@)),
        Err(e) => Err(e@),
    }
}

/// The contents of type parameters, or of an error.
pub open spec fn type_params_result(r: Result<Vec<TypeParam>, CompilationError>) -> Result<Seq<TypeParamV>, ErrorV> {
    match r {
        Ok(v) => Ok(type_params_v(v@)),
        Err(e) => Err(e@),
    }
}

/// The contents of an optional node.
pub open spec fn opt_node_v(n: Option<&SyntaxNode>) -> Option<NodeV> {
    match n {
        Some(x) => Some(x@),
        None => None,
    }
}

fn ends(s: &str, suffix: &str) -> (r: bool)
    ensures
        r == ends_with(s@, suffix@),
{
    let cs = text::chars_of(s);
    let sx = text::chars_of(suffix);
    proof {
        assert(cs@.take(cs@.len() as int) =~= cs@);
    }
    has_suffix(&cs, cs.len(), &sx)
}

fn meta_arg(s: &str) -> (r: MetaArg)
    ensures
        meta_arg_v(r) == meta_arg_of(s@),
{
    let cs = text::chars_of(s);
    if cs.len() >= 2 && cs[0] == '"' && cs[cs.len() - 1] == '"' {
        return MetaArg::Literal(Literal::String(unquote(s)));
    }
    match read_integer(s) {
        Some(n) => {
            return MetaArg::Literal(Literal::Int(n));
        },
        None => {},
    }
    if text::text_eq(s, "true") {
        MetaArg::Literal(Literal::Bool(true))
    } else if text::text_eq(s, "false") {
        MetaArg::Literal(Literal::Bool(false))
    } else if text::text_eq(s, "null") {
        MetaArg::Literal(Literal::Null)
    } else {
        MetaArg::Identifier(s.to_owned())
    }
}

/// Reads an attribute.
pub fn parse_metadata(n: &SyntaxNode) -> (r: Result<Metadata, CompilationError>)
    ensures
        viewed(r) == metadata_of(n@),
{
    proof {
        lemma_syntax_v(*n);
    }
    if n.children.len() == 0 {
        return Err(parse_error("metadata missing identifier"));
    }
    let ghost cs = n@.children;
    assert(cs[0] == n.children@[0]@);
    proof {
        lemma_syntax_v(n.children@[0]);
    }
    let mut args: Vec<MetaArg> = Vec::new();
    let mut i: usize = 1;
    proof {
        assert(meta_args_v(args@) =~= Seq::<MetaArgV>::empty());
    }
    while i < n.children.len()
        invariant
            1 <= i <= n.children@.len(),
            cs.len() == n.children@.len(),
            cs == n@.children,
            forall|k: int| 0 <= k < n.children@.len() ==> #[trigger] cs[k] == n.children@[k]@,
            meta_args_of(cs, 1, Seq::empty()) == meta_args_of(cs, i as int, meta_args_v(args@)),
        decreases n.children@.len() - i,
    {
        assert(cs[i as int] == n.children@[i as int]@);
        proof {
            lemma_syntax_v(n.children@[i as int]);
        }
        let a = meta_arg(n.children[i].text.as_str());
        proof {
            assert(meta_args_v(args@.push(a)) =~= meta_args_v(args@).push(meta_arg_v(a)));
        }
        args.push(a);
        i = i + 1;
    }
    Ok(Metadata { name: n.children[0].text.clone(), args })
}

/// Reads the attributes and the visibility of a declaration.
pub fn parse_metadata_and_modifiers(n: Option<&SyntaxNode>) -> (r: (Vec<Metadata>, bool))
    ensures
        (metadatas_v(r.0@), r.1) == modifiers_of(opt_node_v(n)),
{
    let mut ms: Vec<Metadata> = Vec::new();
    let mut is_public = true;
    proof {
        assert(metadatas_v(ms@) =~= Seq::<MetadataV>::empty());
    }
    let x = match n {
        Some(x) => x,
        None => {
            return (ms, is_public);
        },
    };
    proof {
        lemma_syntax_v(*x);
    }
    let ghost cs = x@.children;
    let mut i: usize = 0;
    while i < x.children.len()
        invariant
            i <= x.children@.len(),
            cs.len() == x.children@.len(),
            cs == x@.children,
            opt_node_v(n) == Some(x@),
            forall|k: int| 0 <= k < x.children@.len() ==> #[trigger] cs[k] == x.children@[k]@,
            modifiers_from(cs, 0, Seq::empty(), true) == modifiers_from(cs, i as int, metadatas_v(ms@), is_public),
        decreases x.children@.len() - i,
    {
        assert(cs[i as int] == x.children@[i as int]@);
        proof {
            lemma_syntax_v(x.children@[i as int]);
        }
        let c = &x.children[i];
        if c.rule == Rule::Metadata {
            match parse_metadata(c) {
                Ok(m) => {
                    proof {
                        assert(metadatas_v(ms@.push(m)) =~= metadatas_v(ms@).push(m@));
                    }
                    ms.push(m);
                },
                Err(_) => {},
            }
        } else if c.rule == Rule::Modifier && text::text_eq(c.text.as_str(), "private") {
            is_public = false;
        }
        i = i + 1;
    }
    (ms, is_public)
}

/// Reads a type, where the names in `scope` are type parameters.
pub fn parse_type(parser: &Parser, n: &SyntaxNode, scope: &Vec<String>) -> (r: Result<Type, CompilationError>)
    ensures
        viewed(r) == type_of(parser@, n@, text::texts(scope@)),
    decreases *n, 0int,
{
    broadcast use lemma_type_v;

    proof {
        lemma_syntax_v(*n);
    }
    if n.children.len() == 0 {
        return Err(parser.error_at(n.span(), "type annotation is empty"));
    }
    let k = &n.children[0];
    proof {
        assert(n@.children[0] == k@);
        lemma_syntax_v(*k);
    }
    if k.rule == Rule::TupleType {
        match parse_types(parser, &k.children, scope, 0, k.children.len()) {
            Ok(ts) => Ok(Type::Tuple(ts)),
            Err(e) => Err(e),
        }
    } else if k.rule == Rule::BaseType {
        if k.children.len() == 0 {
            return Err(parser.error_at(n.span(), "base type is empty"));
        }
        proof {
            assert(k@.children[0] == k.children@[0]@);
            lemma_syntax_v(k.children@[0]);
        }
        let base = trim(k.children[0].text.as_str());
        match parse_types(parser, &k.children, scope, 1, k.children.len()) {
            Ok(args) => Ok(make_named_type(base, args, scope)),
            Err(e) => Err(e),
        }
    } else if k.rule == Rule::PointerType {
        if k.children.len() == 0 {
            return Err(parser.error_at(n.span(), "pointer type is empty"));
        }
        assert(k@.children[0] == k.children@[0]@);
        match parse_type(parser, &k.children[0], scope) {
            Ok(t) => Ok(Type::Ptr(Box::new(t))),
            Err(e) => Err(e),
        }
    } else if k.rule == Rule::FunctionType {
        let m: usize = k.children.len();
        if m == 0 {
            return Err(parser.error_at(n.span(), "function_type missing return type"));
        }
        assert(k@.children[m - 1] == k.children@[m - 1]@);
        match parse_type(parser, &k.children[m - 1], scope) {
            Err(e) => Err(e),
            Ok(ret) => match parse_types(parser, &k.children, scope, 0, m - 1) {
                Ok(ps) => Ok(Type::Function { param_tys: ps, ret_ty: Box::new(ret) }),
                Err(e) => Err(e),
            },
        }
    } else {
        Err(
            parse_error(
                "Unexpected rule in type_annotation: ".to_owned().concat(rule_name(k.rule)).as_str(),
            ),
        )
    }
}

fn make_named_type(base: String, args: Vec<Type>, scope: &Vec<String>) -> (r: Type)
    ensures
        r@ == named_type(base@, types_v(args@), text::texts(scope@)),
{
    broadcast use lemma_type_v;

    proof {
        assert(types_v(args@).len() == args@.len());
    }
    if args.len() > 0 {
        Type::Instance { base, args }
    } else if text::holds_text(scope, base.as_str()) {
        Type::TypeParam(base)
    } else {
        Type::from_kit(base.as_str())
    }
}

fn parse_types(parser: &Parser, ns: &Vec<SyntaxNode>, scope: &Vec<String>, from: usize, end: usize) -> (r: Result<
    Vec<Type>,
    CompilationError,
>)
    requires
        from <= end <= ns@.len(),
    ensures
        types_result(r) == types_of(
            parser@,
            crate::syntax::syntaxes_v(ns@),
            text::texts(scope@),
            from as int,
            end as int,
            Seq::empty(),
        ),
    decreases *ns, 0int,
{
    let ghost cs = crate::syntax::syntaxes_v(ns@);
    let mut out: Vec<Type> = Vec::new();
    let mut i: usize = from;
    proof {
        assert(types_v(out@) =~= Seq::<TypeV>::empty());
    }
    while i < end
        invariant
            from <= i <= end <= ns@.len(),
            cs == crate::syntax::syntaxes_v(ns@),
            types_of(parser@, cs, text::texts(scope@), from as int, end as int, Seq::empty()) == types_of(
                parser@,
                cs,
                text::texts(scope@),
                i as int,
                end as int,
                types_v(out@),
            ),
        decreases end - i,
    {
        assert(cs[i as int] == ns@[i as int]@);
        match parse_type(parser, &ns[i], scope) {
            Ok(t) => {
                proof {
                    assert(types_v(out@.push(t)) =~= types_v(out@).push(t@));
                }
                out.push(t);
            },
            Err(e) => return Err(e),
        }
        i = i + 1;
    }
    Ok(out)
}

/// No type parameters.
pub fn no_scope() -> (r: Vec<String>)
    ensures
        text::texts(r@) == Seq::<Seq<char>>::empty(),
{
    let v: Vec<String> = Vec::new();
    proof {
        assert(text::texts(v@) =~= Seq::<Seq<char>>::empty());
    }
    v
}

fn parse_constraints(parser: &Parser, n: &SyntaxNode, acc: Vec<Type>) -> (r: Result<Vec<Type>, CompilationError>)
    ensures
        types_result(r) == constraints_of(parser@, n@.children, 0, types_v(acc@)),
{
    proof {
        lemma_syntax_v(*n);
    }
    let ghost cs = n@.children;
    let ghost a0 = types_v(acc@);
    let mut out = acc;
    let mut i: usize = 0;
    while i < n.children.len()
        invariant
            i <= n.children@.len(),
            cs.len() == n.children@.len(),
            cs == n@.children,
            a0 == types_v(acc@),
            forall|k: int| 0 <= k < n.children@.len() ==> #[trigger] cs[k] == n.children@[k]@,
            constraints_of(parser@, cs, 0, a0) == constraints_of(parser@, cs, i as int, types_v(out@)),
        decreases n.children@.len() - i,
    {
        assert(cs[i as int] == n.children@[i as int]@);
        proof {
            lemma_syntax_v(n.children@[i as int]);
        }
        if n.children[i].rule == Rule::TypeAnnotation {
            match parse_type(parser, &n.children[i], &no_scope()) {
                Ok(t) => {
                    proof {
                        assert(types_v(out@.push(t)) =~= types_v(out@).push(t@));
                    }
                    out.push(t);
                },
                Err(e) => return Err(e),
            }
        }
        i = i + 1;
    }
    Ok(out)
}

/// Reads a type parameter.
pub fn parse_type_param(parser: &Parser, n: &SyntaxNode) -> (r: Result<TypeParam, CompilationError>)
    ensures
        viewed(r) == type_param_of(parser@, n@),
{
    proof {
        lemma_syntax_v(*n);
    }
    if n.children.len() == 0 {
        return Err(parser.error_at(n.span(), "type parameter missing name"));
    }
    let ghost cs = n@.children;
    proof {
        assert(cs[0] == n.children@[0]@);
        lemma_syntax_v(n.children@[0]);
    }
    let mut p = TypeParam { name: n.children[0].text.clone(), constraints: Vec::new(), default: None };
    let ghost p0 = p@;
    proof {
        assert(p0.constraints =~= Seq::<TypeV>::empty());
        assert(type_param_of(parser@, n@) == type_param_from(parser@, cs, 1, p0));
    }
    let mut i: usize = 1;
    while i < n.children.len()
        invariant
            1 <= i <= n.children@.len(),
            cs.len() == n.children@.len(),
            cs == n@.children,
            forall|k: int| 0 <= k < n.children@.len() ==> #[trigger] cs[k] == n.children@[k]@,
            type_param_of(parser@, n@) == type_param_from(parser@, cs, i as int, p@),
        decreases n.children@.len() - i,
    {
        assert(cs[i as int] == n.children@[i as int]@);
        proof {
            lemma_syntax_v(n.children@[i as int]);
        }
        let c = &n.children[i];
        if c.rule == Rule::TypeConstraints {
            let before = crate::types::copy_types(&p.constraints);
            match parse_constraints(parser, c, before) {
                Ok(v) => {
                    p.constraints = v;
                },
                Err(e) => return Err(e),
            }
        } else if c.rule == Rule::TypeAnnotation {
            match parse_type(parser, c, &no_scope()) {
                Ok(t) => {
                    p.default = Some(t);
                },
                Err(e) => return Err(e),
            }
        }
        i = i + 1;
    }
    Ok(p)
}

/// Reads the type parameters of a definition.
pub fn parse_type_params(parser: &Parser, n: &SyntaxNode) -> (r: Result<Vec<TypeParam>, CompilationError>)
    ensures
        type_params_result(r) == type_params_of(parser@, n@),
{
    proof {
        lemma_syntax_v(*n);
    }
    let ghost cs = n@.children;
    let mut out: Vec<TypeParam> = Vec::new();
    let mut i: usize = 0;
    proof {
        assert(type_params_v(out@) =~= Seq::<TypeParamV>::empty());
    }
    while i < n.children.len()
        invariant
            i <= n.children@.len(),
            cs.len() == n.children@.len(),
            cs == n@.children,
            forall|k: int| 0 <= k < n.children@.len() ==> #[trigger] cs[k] == n.children@[k]@,
            type_params_of(parser@, n@) == type_params_from(parser@, cs, i as int, type_params_v(out@)),
        decreases n.children@.len() - i,
    {
        assert(cs[i as int] == n.children@[i as int]@);
        proof {
            lemma_syntax_v(n.children@[i as int]);
        }
        if n.children[i].rule == Rule::TypeParam {
            match parse_type_param(parser, &n.children[i]) {
                Ok(p) => {
                    proof {
                        assert(type_params_v(out@.push(p)) =~= type_params_v(out@).push(p@));
                    }
                    out.push(p);
                },
                Err(e) => return Err(e),
            }
        }
        i = i + 1;
    }
    Ok(out)
}

impl Parser {
    /// A parser without a source.
    pub fn new() -> (r: Self)
        ensures
            r.file@ == Seq::<char>::empty(),
            r.source@ == Seq::<char>::empty(),
    {
        Parser { file: String::new(), source: String::new() }
    }

    /// Sets the file and the source.
    pub fn with_source(self, file: String, source: String) -> (r: Self)
        ensures
            r.file@ == file@,
            r.source@ == source@,
    {
        Parser { file, source }
    }

    /// An error in a declaration, with its place.
    pub(crate) fn error_at(&self, span: Span, msg: &str) -> (r: CompilationError)
        ensures
            r@ == bad_at(self@, span, msg@),
    {
        parse_error(msg).with_context(
            ErrorContext { file: self.file.clone(), source: self.source.clone(), span },
        )
    }

    /// Whether the places of the source can be counted.
    pub open spec fn fits(&self) -> bool {
        encode_utf8(self.source@).len() < usize::MAX
    }

    /// Reads an `include`.
    pub fn parse_include(&self, n: &SyntaxNode) -> (r: Result<Include, CompilationError>)
        ensures
            viewed(r) == include_of(self@, n@),
    {
        proof {
            lemma_syntax_v(*n);
        }
        if n.children.len() == 0 {
            return Err(self.error_at(n.span(), "include statement missing path"));
        }
        proof {
            assert(n@.children[0] == n.children@[0]@);
            lemma_syntax_v(n.children@[0]);
        }
        let path = unquote(n.children[0].text.as_str());
        if n.children.len() > 1 {
            proof {
                assert(n@.children[1] == n.children@[1]@);
                lemma_syntax_v(n.children@[1]);
            }
            Ok(Include::with_lib(path, unquote(n.children[1].text.as_str())))
        } else {
            Ok(Include::new(path))
        }
    }

    /// Reads an `import`.
    pub fn parse_import(&self, n: &SyntaxNode) -> (r: Result<ModuleImport, CompilationError>)
        ensures
            viewed(r) == import_of(self@, n@),
    {
        proof {
            lemma_syntax_v(*n);
        }
        if n.children.len() == 0 {
            return Err(self.error_at(n.span(), "import statement missing path"));
        }
        proof {
            assert(n@.children[0] == n.children@[0]@);
            lemma_syntax_v(n.children@[0]);
            reveal_strlit(".*");
            reveal_strlit(".**");
        }
        let full = n.children[0].text.as_str();
        let (path, import_type) = if ends(full, ".**") {
            (strip_suffixes(full, ".**"), ImportType::DoubleWildcard)
        } else if ends(full, ".*") {
            (strip_suffixes(full, ".*"), ImportType::Wildcard)
        } else {
            (full.to_owned(), ImportType::Single)
        };
        let parts = text::split(path.as_str(), '.');
        Ok(ModuleImport::with_span(ModulePath(parts), import_type, (n.start, n.end)))
    }

    /// Reads the expression that a node covers.
    pub fn parse_expr(&self, n: &SyntaxNode) -> (r: Result<Expr, CompilationError>)
        requires
            self.fits(),
        ensures
            viewed(r) == expr_of(self@, n@),
    {
        proof {
            lemma_syntax_v(*n);
        }
        match parse_kit_expr(n.text.as_str(), self.source.as_str(), n.start) {
            Ok(e) => Ok(e),
            Err(e) => Err(self.error_at(n.span(), e.to_human_message().as_str())),
        }
    }
}

} // verus!
