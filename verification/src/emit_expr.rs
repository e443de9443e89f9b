//! C code for expressions.
use crate::ast::{copy_literal, expr_v, exprs_v, init_v, inits_v, lemma_expr_v, Expr, ExprKind, ExprKindV,
    ExprV, FieldInit, FieldInitV, Literal, LiteralV};
use crate::attrs::{mangled_under, Attributed};
use crate::c_text::{assignment_c, binary_c, is_postfix, unary_c};
use crate::decl::{enum_variants_v, functions_v, global_decls_v, EnumDefinitionV, EnumVariant, EnumVariantV, Function,
    FunctionV, GlobalDecl, GlobalDeclV, MetadataV};
use crate::engine::{name_pairs_v, EnvV, TypeInferencer};
use crate::expr_pratt::{callee_name, callee_text};
use crate::infer_lookup::find_variant;
use crate::infer_spec::variant_named;
use crate::literal::c_literal;
use crate::module::ModulePath;
use crate::name_mangling::{mangle_enum_variant, mangle_function, mangle_global, mangled};
use crate::registry::{module_at, resolved_name, Module, ModuleRegistry, ModuleV, RegistryV};
use crate::store::known_in;
use crate::subst::last_of;
use crate::symbols::{by_simple_name, get_in};
use crate::text;
use crate::types::{c_name, lemma_type_v, Type, TypeId, TypeV};
use vstd::prelude::*;

verus! {

/// What C code is generated from, and the module that it is generated for.
pub struct CodegenCtx<'a> {
    pub inferencer: &'a TypeInferencer,
    pub registry: &'a ModuleRegistry,
    pub current_module: ModulePath,
    pub floats: &'a Vec<(String, String)>,
}

/// The contents of what C code is generated from.
pub struct CtxV {
    pub env: EnvV,
    pub registry: RegistryV,
    pub module: Seq<Seq<char>>,
    pub floats: Seq<(Seq<char>, Seq<char>)>,
}

impl<'a> View for CodegenCtx<'a> {
    type V = CtxV;

    open spec fn view(&self) -> CtxV {
        CtxV {
            env: self.inferencer@,
            registry: self.registry@,
            module: self.current_module@,
            floats: name_pairs_v(self.floats@),
        }
    }
}

/// A literal as the machine holds it: a floating-point number is the nearest value there is, whose
/// decimal text the list gives by the text of the literal; one that is not listed is held exactly.
pub open spec fn held_literal(floats: Seq<(Seq<char>, Seq<char>)>, l: LiteralV) -> LiteralV {
    match l {
        LiteralV::Float(f) => match last_of(floats, f) {
            Some(t) => LiteralV::Float(t),
            None => l,
        },
        _ => l,
    }
}

/// Whether no variant of an enum has arguments.
pub open spec fn all_plain(vs: Seq<EnumVariantV>) -> bool {
    forall|i: int| 0 <= i < vs.len() ==> (#[trigger] vs[i]).args.len() == 0
}

/// Whether a name is that of an enum without arguments.
pub open spec fn is_plain_enum(e: EnvV, name: Seq<char>) -> bool {
    match get_in(e.symbols.enums, name) {
        Some(d) => all_plain(d.variants),
        None => false,
    }
}

/// The module under whose name a variant of an enum is mangled: none where the attributes of the
/// enum or those of the variant say so.
pub open spec fn variant_under(d: EnumDefinitionV, variant: Option<EnumVariantV>, current: Seq<Seq<char>>) -> Seq<
    Seq<char>,
> {
    let m = mangled_under(d.metadata, current);
    match variant {
        Some(v) => mangled_under(v.metadata, m),
        None => m,
    }
}

/// The C name of an enum variant.
pub open spec fn variant_c(c: CtxV, enum_name: Seq<char>, variant: Seq<char>) -> Seq<char> {
    let m = match get_in(c.env.symbols.enums, enum_name) {
        Some(d) => variant_under(d, variant_named(d.variants, variant, 0), c.module),
        None => c.module,
    };
    mangled(m, enum_name + "_"@ + variant)
}

/// The value of an enum variant without arguments.
pub open spec fn bare_variant_c(c: CtxV, enum_name: Seq<char>, variant: Seq<char>) -> Seq<char> {
    if is_plain_enum(c.env, enum_name) {
        variant_c(c, enum_name, variant)
    } else {
        "{._discriminant = "@ + variant_c(c, enum_name, variant) + ", ._variant = {0}}"@
    }
}

/// The first global of the given name, from position `i` on.
pub open spec fn global_named(gs: Seq<GlobalDeclV>, name: Seq<char>, i: int) -> Option<GlobalDeclV>
    decreases gs.len() - i,
{
    if i < 0 || i >= gs.len() {
        None
    } else if gs[i].name == name {
        Some(gs[i])
    } else {
        global_named(gs, name, i + 1)
    }
}

/// The path of the first module, from position `i` on, with a global of the given name, and the
/// attributes of the global.
pub open spec fn global_owner(ms: Seq<ModuleV>, name: Seq<char>, i: int) -> Option<(Seq<Seq<char>>, Seq<MetadataV>)>
    decreases ms.len() - i,
{
    if i < 0 || i >= ms.len() {
        None
    } else {
        match global_named(ms[i].program.globals, name, 0) {
            Some(g) => Some((ms[i].path, g.metadata)),
            None => global_owner(ms, name, i + 1),
        }
    }
}

/// The C name of a variable: a global has that of the module that declares it.
pub open spec fn variable_c(c: CtxV, name: Seq<char>) -> Seq<char> {
    match global_owner(c.registry.modules, name, 0) {
        Some((path, attrs)) => mangled(mangled_under(attrs, path), name),
        None => name,
    }
}

/// The first function of the given name, from position `i` on.
pub open spec fn first_function(fs: Seq<FunctionV>, name: Seq<char>, i: int) -> Option<FunctionV>
    decreases fs.len() - i,
{
    if i < 0 || i >= fs.len() {
        None
    } else if fs[i].name == name {
        Some(fs[i])
    } else {
        first_function(fs, name, i + 1)
    }
}

/// The attributes of a function of a module.
pub open spec fn function_attrs(r: RegistryV, path: Seq<Seq<char>>, name: Seq<char>) -> Seq<MetadataV> {
    match module_at(r.modules, path, 0) {
        Some(k) => match first_function(r.modules[k].program.functions, name, 0) {
            Some(f) => f.metadata,
            None => Seq::empty(),
        },
        None => Seq::empty(),
    }
}

/// The C name of a called function: a function of a module and a realized one have that of their
/// module, any other known function that of the current module; a name that is not known stays.
pub open spec fn callee_c(c: CtxV, name: Seq<char>) -> Seq<char> {
    if name == "main"@ {
        name
    } else {
        match resolved_name(c.registry, name, c.module) {
            Some((m, base)) => mangled(mangled_under(function_attrs(c.registry, m, base), m), base),
            None => if c.env.mono.mono_modules.contains_key(name) {
                mangled(c.env.mono.mono_modules[name], name)
            } else if c.env.symbols.functions.contains_key(name) {
                mangled(c.module, name)
            } else {
                name
            },
        }
    }
}

/// The name of the struct that a struct value has.
pub open spec fn struct_value_name(e: EnvV, id: TypeId) -> Seq<char> {
    match known_in(e.store, id) {
        Some(TypeV::Struct { name, .. }) => name,
        Some(TypeV::Named(name)) => name,
        _ => "UNKNOWN_STRUCT"@,
    }
}

/// The name of the C struct that a tuple value has.
pub open spec fn tuple_value_name(e: EnvV, id: TypeId) -> Seq<char> {
    match known_in(e.store, id) {
        Some(t) => c_name(t),
        None => "UNKNOWN_TUPLE"@,
    }
}

/// The number of the member that an index into a tuple stands for.
pub open spec fn tuple_member(e: EnvV, container: TypeId, index: ExprV) -> Option<i64> {
    match known_in(e.store, container) {
        Some(TypeV::Tuple(_)) => match index.kind {
            ExprKindV::Literal { value: LiteralV::Int(i) } => Some(i),
            _ => None,
        },
        _ => None,
    }
}

/// The defaults of the arguments of a variant from position `i` on that have one, appended to
/// `acc`.
pub open spec fn default_exprs(v: EnumVariantV, i: int, acc: Seq<ExprV>) -> Seq<ExprV>
    decreases v.args.len() - i,
{
    if i < 0 || i >= v.args.len() {
        acc
    } else {
        match v.args[i].default {
            Some(x) => default_exprs(v, i + 1, acc.push(x)),
            None => default_exprs(v, i + 1, acc),
        }
    }
}

/// The variant of an enum that the engine knows.
pub open spec fn known_variant(e: EnvV, enum_name: Seq<char>, variant: Seq<char>) -> Option<EnumVariantV> {
    match get_in(e.symbols.enums, enum_name) {
        Some(d) => variant_named(d.variants, variant, 0),
        None => None,
    }
}

/// The C code for an expression. Default arguments inside default arguments are filled in up to
/// `fuel` times.
pub open spec fn expr_c(fuel: nat, c: CtxV, x: ExprV) -> Seq<char>
    decreases fuel, x, 0int,
{
    match x.kind {
        ExprKindV::Identifier { name } => variable_c(c, name),
        ExprKindV::Literal { value } => c_literal(held_literal(c.floats, value), true),
        ExprKindV::Call { callee, args } => (match callee_text(*callee) {
            Some(name) => called_c(c, name),
            None => expr_c(fuel, c, *callee),
        }) + "("@ + text::joined(exprs_c(fuel, c, args), ", "@) + ")"@,
        ExprKindV::UnaryOp { op, expr } => if is_postfix(op) {
            "("@ + expr_c(fuel, c, *expr) + ")"@ + unary_c(op)
        } else {
            unary_c(op) + "("@ + expr_c(fuel, c, *expr) + ")"@
        },
        ExprKindV::BinaryOp { op, left, right } => "("@ + expr_c(fuel, c, *left) + " "@ + binary_c(op) + " "@ + expr_c(
            fuel,
            c,
            *right,
        ) + ")"@,
        ExprKindV::Assign { op, left, right } => expr_c(fuel, c, *left) + " "@ + assignment_c(op) + " "@ + expr_c(
            fuel,
            c,
            *right,
        ),
        ExprKindV::If { cond, then_branch, else_branch } => "("@ + expr_c(fuel, c, *cond) + " ? "@ + expr_c(
            fuel,
            c,
            *then_branch,
        ) + " : "@ + expr_c(fuel, c, *else_branch) + ")"@,
        ExprKindV::RangeLiteral { .. } => "/* range literal */ 0"@,
        ExprKindV::StructInit { fields, .. } => "(struct "@ + struct_value_name(c.env, x.ty) + "){"@ + text::joined(
            inits_c(fuel, c, fields),
            ", "@,
        ) + "}"@,
        ExprKindV::FieldAccess { expr, field_name } => expr_c(fuel, c, *expr) + "."@ + field_name,
        ExprKindV::EnumVariant { enum_name, variant_name } => bare_variant_c(c, enum_name, variant_name),
        ExprKindV::EnumInit { enum_name, variant_name, args } => if args.len() == 0 {
            bare_variant_c(c, enum_name, variant_name)
        } else {
            variant_c(c, enum_name, variant_name) + "_new("@ + enum_args_c(fuel, c, enum_name, variant_name, args)
                + ")"@
        },
        ExprKindV::ArrayLiteral { elements } => "{"@ + text::joined(exprs_c(fuel, c, elements), ", "@) + "}"@,
        ExprKindV::TupleLit { elements } => "("@ + tuple_value_name(c.env, x.ty) + "){"@ + text::joined(
            exprs_c(fuel, c, elements),
            ", "@,
        ) + "}"@,
        ExprKindV::Index { expr, index } => match tuple_member(c.env, expr.ty, *index) {
            Some(i) => expr_c(fuel, c, *expr) + "._"@ + text::signed_text(i as int),
            None => expr_c(fuel, c, *expr) + "["@ + expr_c(fuel, c, *index) + "]"@,
        },
    }
}

/// The C name of what a call with the given callee text calls: the constructor of an enum
/// variant, or a function.
pub open spec fn called_c(c: CtxV, name: Seq<char>) -> Seq<char> {
    match by_simple_name(c.env.symbols, name, 0) {
        Some(info) => variant_c(c, info.enum_name, info.variant_name) + "_new"@,
        None => callee_c(c, name),
    }
}

/// The C code for the arguments of an enum constructor, with the defaults of missing ones.
pub open spec fn enum_args_c(fuel: nat, c: CtxV, enum_name: Seq<char>, variant: Seq<char>, args: Seq<ExprV>) -> Seq<char>
    decreases fuel, args, 1int,
{
    let given = exprs_c(fuel, c, args);
    match known_variant(c.env, enum_name, variant) {
        Some(v) => if fuel == 0 {
            text::joined(given, ", "@)
        } else {
            text::joined(
                given + exprs_c((fuel - 1) as nat, c, default_exprs(v, args.len() as int, Seq::empty())),
                ", "@,
            )
        },
        None => text::joined(given, ", "@),
    }
}

/// The C code for expressions, one by one.
pub open spec fn exprs_c(fuel: nat, c: CtxV, xs: Seq<ExprV>) -> Seq<Seq<char>>
    decreases fuel, xs, 0int,
{
    Seq::new(xs.len(), |i: int| if 0 <= i < xs.len() { expr_c(fuel, c, xs[i]) } else { Seq::empty() })
}

/// The C code for field values, one by one.
pub open spec fn inits_c(fuel: nat, c: CtxV, xs: Seq<FieldInitV>) -> Seq<Seq<char>>
    decreases fuel, xs, 0int,
{
    Seq::new(
        xs.len(),
        |i: int|
            if 0 <= i < xs.len() {
                "."@ + xs[i].name + " = "@ + expr_c(fuel, c, xs[i].value)
            } else {
                Seq::empty()
            },
    )
}

fn has_args(vs: &Vec<EnumVariant>) -> (r: bool)
    ensures
        r == !all_plain(enum_variants_v(vs@)),
{
    let mut i: usize = 0;
    while i < vs.len()
        invariant
            i <= vs@.len(),
            forall|j: int| 0 <= j < i ==> (#[trigger] enum_variants_v(vs@)[j]).args.len() == 0,
        decreases vs@.len() - i,
    {
        assert(enum_variants_v(vs@)[i as int] == vs@[i as int]@);
        assert(vs@[i as int]@.args.len() == vs@[i as int].args@.len());
        if vs[i].args.len() > 0 {
            return true;
        }
        i = i + 1;
    }
    false
}

/// Whether no variant of an enum has arguments.
pub fn is_plain(vs: &Vec<EnumVariant>) -> (r: bool)
    ensures
        r == all_plain(enum_variants_v(vs@)),
{
    !has_args(vs)
}

fn find_global<'a>(gs: &'a Vec<GlobalDecl>, name: &str) -> (r: Option<&'a GlobalDecl>)
    ensures
        match r {
            Some(g) => global_named(global_decls_v(gs@), name@, 0) == Some(g@),
            None => global_named(global_decls_v(gs@), name@, 0) is None,
        },
{
    let mut i: usize = 0;
    while i < gs.len()
        invariant
            i <= gs@.len(),
            global_named(global_decls_v(gs@), name@, 0) == global_named(global_decls_v(gs@), name@, i as int),
        decreases gs@.len() - i,
    {
        assert(global_decls_v(gs@)[i as int] == gs@[i as int]@);
        if text::text_eq(gs[i].name.as_str(), name) {
            return Some(&gs[i]);
        }
        i = i + 1;
    }
    None
}

fn find_first_function<'a>(fs: &'a Vec<Function>, name: &str) -> (r: Option<&'a Function>)
    ensures
        match r {
            Some(f) => first_function(functions_v(fs@), name@, 0) == Some(f@),
            None => first_function(functions_v(fs@), name@, 0) is None,
        },
{
    let mut i: usize = 0;
    while i < fs.len()
        invariant
            i <= fs@.len(),
            first_function(functions_v(fs@), name@, 0) == first_function(functions_v(fs@), name@, i as int),
        decreases fs@.len() - i,
    {
        assert(functions_v(fs@)[i as int] == fs@[i as int]@);
        if text::text_eq(fs[i].name.as_str(), name) {
            return Some(&fs[i]);
        }
        i = i + 1;
    }
    None
}

/// The text that a list last gives for a text.
fn find_text(m: &Vec<(String, String)>, k: &str) -> (r: Option<String>)
    ensures
        match r {
            Some(t) => last_of(name_pairs_v(m@), k@) == Some(t@),
            None => last_of(name_pairs_v(m@), k@) is None,
        },
{
    let mut n: usize = m.len();
    proof {
        assert(name_pairs_v(m@).take(n as int) =~= name_pairs_v(m@));
    }
    while n > 0
        invariant
            n <= m@.len(),
            last_of(name_pairs_v(m@), k@) == last_of(name_pairs_v(m@).take(n as int), k@),
        decreases n,
    {
        proof {
            let t = name_pairs_v(m@).take(n as int);
            assert(t.last() == (m@[n - 1].0@, m@[n - 1].1@));
            assert(t.drop_last() =~= name_pairs_v(m@).take(n - 1));
        }
        if text::text_eq(m[n - 1].0.as_str(), k) {
            return Some(m[n - 1].1.clone());
        }
        n = n - 1;
    }
    None
}

impl<'a> CodegenCtx<'a> {
    fn plain_enum(&self, name: &str) -> (r: bool)
        ensures
            r == is_plain_enum(self@.env, name@),
    {
        match self.inferencer.symbols.lookup_enum(name) {
            Some(d) => is_plain(&d.variants),
            None => false,
        }
    }

    /// The C name of an enum variant.
    pub fn variant_name(&self, enum_name: &str, variant: &str) -> (r: String)
        ensures
            r@ == variant_c(self@, enum_name@, variant@),
    {
        match self.inferencer.symbols.lookup_enum(enum_name) {
            Some(d) => {
                let m = d.mangling_module(&self.current_module);
                match find_variant(&d.variants, variant) {
                    Some(v) => mangle_enum_variant(&v.mangling_module(&m), enum_name, variant),
                    None => mangle_enum_variant(&m, enum_name, variant),
                }
            },
            None => mangle_enum_variant(&self.current_module, enum_name, variant),
        }
    }

    fn bare_variant(&self, enum_name: &str, variant: &str) -> (r: String)
        ensures
            r@ == bare_variant_c(self@, enum_name@, variant@),
    {
        let name = self.variant_name(enum_name, variant);
        if self.plain_enum(enum_name) {
            name
        } else {
            "{._discriminant = ".to_owned().concat(name.as_str()).concat(", ._variant = {0}}")
        }
    }

    /// The C name of a variable.
    pub fn find_global_name(&self, name: &str) -> (r: String)
        ensures
            r@ == variable_c(self@, name@),
    {
        let ms = self.registry.all_modules();
        let ghost mv = self@.registry.modules;
        let mut i: usize = 0;
        while i < ms.len()
            invariant
                i <= ms@.len(),
                mv == self@.registry.modules,
                mv == ms@.map_values(|m: &Module| m@),
                global_owner(mv, name@, 0) == global_owner(mv, name@, i as int),
            decreases ms@.len() - i,
        {
            assert(mv[i as int] == ms@[i as int]@);
            match find_global(&ms[i].program.globals, name) {
                Some(g) => {
                    let m = g.mangling_module(&ms[i].path);
                    return mangle_global(&m, name);
                },
                None => {},
            }
            i = i + 1;
        }
        name.to_owned()
    }

    /// The C name of a called function.
    pub fn resolve_function_name(&self, name: &str) -> (r: String)
        ensures
            r@ == callee_c(self@, name@),
    {
        if text::text_eq(name, "main") {
            return name.to_owned();
        }
        match self.registry.resolve_qualified_name(name, &self.current_module) {
            Some((m, base)) => {
                let under = match self.registry.get(&m) {
                    Some(module) => match find_first_function(&module.program.functions, base.as_str()) {
                        Some(f) => f.mangling_module(&m),
                        None => m,
                    },
                    None => m,
                };
                mangle_function(&under, base.as_str())
            },
            None => match self.inferencer.monomorph_module(name) {
                Some(m) => mangle_function(m, name),
                None => if self.inferencer.symbols.lookup_function(name).is_some() {
                    mangle_function(&self.current_module, name)
                } else {
                    name.to_owned()
                },
            },
        }
    }

    fn called(&self, name: &str) -> (r: String)
        ensures
            r@ == called_c(self@, name@),
    {
        match self.inferencer.symbols.lookup_enum_variant_by_simple_name(name) {
            Some(info) => self.variant_name(info.enum_name.as_str(), info.variant_name.as_str()).concat("_new"),
            None => self.resolve_function_name(name),
        }
    }

    fn struct_value(&self, id: TypeId) -> (r: String)
        ensures
            r@ == struct_value_name(self@.env, id),
    {
        match self.inferencer.store.resolve(id) {
            Ok(Type::Struct { name, fields: _ }) => name,
            Ok(Type::Named(name)) => name,
            _ => "UNKNOWN_STRUCT".to_owned(),
        }
    }

    fn tuple_value(&self, id: TypeId) -> (r: String)
        ensures
            r@ == tuple_value_name(self@.env, id),
    {
        match self.inferencer.store.resolve(id) {
            Ok(t) => t.to_c_name(),
            Err(_) => "UNKNOWN_TUPLE".to_owned(),
        }
    }

    fn member_of(&self, container: TypeId, index: &Expr) -> (r: Option<i64>)
        ensures
            r == tuple_member(self@.env, container, index@),
    {
        broadcast use lemma_expr_v, lemma_type_v;

        match self.inferencer.store.resolve(container) {
            Ok(Type::Tuple(_)) => match &index.kind {
                ExprKind::Literal { value: Literal::Int(i) } => Some(*i),
                _ => None,
            },
            _ => None,
        }
    }

    fn defaults_of(&self, v: &EnumVariant, from: usize) -> (r: Vec<Expr>)
        ensures
            exprs_v(r@) == default_exprs(v@, from as int, Seq::empty()),
    {
        let mut out: Vec<Expr> = Vec::new();
        let mut i: usize = from;
        proof {
            assert(exprs_v(out@) =~= Seq::<ExprV>::empty());
            assert(v@.args.len() == v.args@.len());
        }
        while i < v.args.len()
            invariant
                from <= i,
                v@.args.len() == v.args@.len(),
                default_exprs(v@, from as int, Seq::empty()) == default_exprs(v@, i as int, exprs_v(out@)),
            decreases v.args@.len() - i,
        {
            assert(v@.args[i as int] == v.args@[i as int]@);
            match &v.args[i].default {
                Some(x) => {
                    let y = crate::ast::copy_expr(x);
                    proof {
                        assert(exprs_v(out@.push(y)) =~= exprs_v(out@).push(y@));
                    }
                    out.push(y);
                },
                None => {},
            }
            i = i + 1;
        }
        out
    }

    fn transpile_enum_args_with_defaults(&self, enum_name: &str, variant: &str, args: &Vec<Expr>, depth: usize) -> (r: String)
        ensures
            r@ == enum_args_c(depth as nat, self@, enum_name@, variant@, exprs_v(args@)),
        decreases depth, *args, 1int,
    {
        let mut given = self.transpile_exprs(args, depth);
        let v = match self.inferencer.symbols.lookup_enum(enum_name) {
            Some(d) => find_variant(&d.variants, variant),
            None => None,
        };
        match v {
            Some(v) => {
                if depth > 0 {
                    proof {
                        assert(exprs_v(args@).len() == args@.len());
                    }
                    let more = self.defaults_of(v, args.len());
                    let mut rest = self.transpile_exprs(&more, depth - 1);
                    let ghost g = given@;
                    let ghost h = rest@;
                    given.append(&mut rest);
                    proof {
                        assert(text::texts(given@) =~= text::texts(g) + text::texts(h));
                    }
                }
                text::join(&given, ", ")
            },
            None => text::join(&given, ", "),
        }
    }

    fn transpile_exprs(&self, xs: &Vec<Expr>, depth: usize) -> (r: Vec<String>)
        ensures
            text::texts(r@) == exprs_c(depth as nat, self@, exprs_v(xs@)),
        decreases depth, *xs, 0int,
    {
        let ghost all = exprs_c(depth as nat, self@, exprs_v(xs@));
        let mut out: Vec<String> = Vec::new();
        let mut i: usize = 0;
        while i < xs.len()
            invariant
                i <= xs@.len(),
                all == exprs_c(depth as nat, self@, exprs_v(xs@)),
                text::texts(out@) =~= all.take(i as int),
            decreases xs@.len() - i,
        {
            assert(exprs_v(xs@)[i as int] == xs@[i as int]@);
            let s = self.transpile_expr(&xs[i], depth);
            proof {
                assert(all.take(i + 1) =~= all.take(i as int).push(s@));
                assert(text::texts(out@.push(s)) =~= text::texts(out@).push(s@));
            }
            out.push(s);
            i = i + 1;
        }
        proof {
            assert(all.take(all.len() as int) =~= all);
        }
        out
    }

    fn transpile_inits(&self, xs: &Vec<FieldInit>, depth: usize) -> (r: Vec<String>)
        ensures
            text::texts(r@) == inits_c(depth as nat, self@, inits_v(xs@)),
        decreases depth, *xs, 0int,
    {
        let ghost all = inits_c(depth as nat, self@, inits_v(xs@));
        let mut out: Vec<String> = Vec::new();
        let mut i: usize = 0;
        while i < xs.len()
            invariant
                i <= xs@.len(),
                all == inits_c(depth as nat, self@, inits_v(xs@)),
                text::texts(out@) =~= all.take(i as int),
            decreases xs@.len() - i,
        {
            assert(inits_v(xs@)[i as int] == init_v(xs@[i as int]));
            let v = self.transpile_expr(&xs[i].value, depth);
            let s = ".".to_owned().concat(xs[i].name.as_str()).concat(" = ").concat(v.as_str());
            proof {
                assert(all.take(i + 1) =~= all.take(i as int).push(s@));
                assert(text::texts(out@.push(s)) =~= text::texts(out@).push(s@));
            }
            out.push(s);
            i = i + 1;
        }
        proof {
            assert(all.take(all.len() as int) =~= all);
        }
        out
    }

    fn held(&self, l: &Literal) -> (r: Literal)
        ensures
            r@ == held_literal(self@.floats, l@),
    {
        match l {
            Literal::Float(f) => match find_text(self.floats, f.as_str()) {
                Some(t) => Literal::Float(t),
                None => Literal::Float(f.clone()),
            },
            _ => copy_literal(l),
        }
    }

    /// The C code for an expression.
    pub fn transpile_expr(&self, x: &Expr, depth: usize) -> (r: String)
        ensures
            r@ == expr_c(depth as nat, self@, x@),
        decreases depth, *x, 0int,
    {
        broadcast use lemma_expr_v;

        match &x.kind {
            ExprKind::Identifier { name } => self.find_global_name(name.as_str()),
            ExprKind::Literal { value } => self.held(value).to_c(),
            ExprKind::Call { callee, args } => {
                let head = match callee_name(callee) {
                    Some(name) => self.called(name.as_str()),
                    None => self.transpile_expr(callee, depth),
                };
                let a = self.transpile_exprs(args, depth);
                head.concat("(").concat(text::join(&a, ", ").as_str()).concat(")")
            },
            ExprKind::UnaryOp { op, expr } => {
                let y = self.transpile_expr(expr, depth);
                match op {
                    crate::ast::UnaryOperator::PostIncrement | crate::ast::UnaryOperator::PostDecrement => {
                        "(".to_owned().concat(y.as_str()).concat(")").concat(op.to_c_str())
                    },
                    _ => op.to_c_str().to_owned().concat("(").concat(y.as_str()).concat(")"),
                }
            },
            ExprKind::BinaryOp { op, left, right } => {
                let l = self.transpile_expr(left, depth);
                let r = self.transpile_expr(right, depth);
                "(".to_owned().concat(l.as_str()).concat(" ").concat(op.to_c_str()).concat(" ").concat(
                    r.as_str(),
                ).concat(")")
            },
            ExprKind::Assign { op, left, right } => {
                let l = self.transpile_expr(left, depth);
                let r = self.transpile_expr(right, depth);
                l.concat(" ").concat(op.to_c_str()).concat(" ").concat(r.as_str())
            },
            ExprKind::If { cond, then_branch, else_branch } => {
                let c = self.transpile_expr(cond, depth);
                let t = self.transpile_expr(then_branch, depth);
                let e = self.transpile_expr(else_branch, depth);
                "(".to_owned().concat(c.as_str()).concat(" ? ").concat(t.as_str()).concat(" : ").concat(
                    e.as_str(),
                ).concat(")")
            },
            ExprKind::RangeLiteral { start: _, end: _ } => "/* range literal */ 0".to_owned(),
            ExprKind::StructInit { struct_type: _, fields } => {
                let name = self.struct_value(x.ty);
                let fs = self.transpile_inits(fields, depth);
                "(struct ".to_owned().concat(name.as_str()).concat("){").concat(
                    text::join(&fs, ", ").as_str(),
                ).concat("}")
            },
            ExprKind::FieldAccess { expr, field_name } => {
                let y = self.transpile_expr(expr, depth);
                y.concat(".").concat(field_name.as_str())
            },
            ExprKind::EnumVariant { enum_name, variant_name } => self.bare_variant(
                enum_name.as_str(),
                variant_name.as_str(),
            ),
            ExprKind::EnumInit { enum_name, variant_name, args } => {
                proof {
                    assert(exprs_v(args@).len() == args@.len());
                }
                if args.len() == 0 {
                    self.bare_variant(enum_name.as_str(), variant_name.as_str())
                } else {
                    let a = self.transpile_enum_args_with_defaults(
                        enum_name.as_str(),
                        variant_name.as_str(),
                        args,
                        depth,
                    );
                    self.variant_name(enum_name.as_str(), variant_name.as_str()).concat("_new(").concat(
                        a.as_str(),
                    ).concat(")")
                }
            },
            ExprKind::ArrayLiteral { elements } => {
                let xs = self.transpile_exprs(elements, depth);
                "{".to_owned().concat(text::join(&xs, ", ").as_str()).concat("}")
            },
            ExprKind::TupleLit { elements } => {
                let name = self.tuple_value(x.ty);
                let xs = self.transpile_exprs(elements, depth);
                "(".to_owned().concat(name.as_str()).concat("){").concat(text::join(&xs, ", ").as_str()).concat(
                    "}",
                )
            },
            ExprKind::Index { expr, index } => {
                let y = self.transpile_expr(expr, depth);
                proof {
                    assert(expr_v(**expr).ty == expr.ty);
                }
                match self.member_of(expr.ty, index) {
                    Some(i) => y.concat("._").concat(text::signed_decimal(i).as_str()),
                    None => {
                        let k = self.transpile_expr(index, depth);
                        y.concat("[").concat(k.as_str()).concat("]")
                    },
                }
            },
        }
    }
}

} // verus!
