//! Which types a program refers to, and whether its generic definitions are used as declared.
use crate::ast::{arm_v, arms_v, exprs_v, init_v, inits_v, lemma_block_v, lemma_expr_v, lemma_stmt_parts,
    opt_expr_v, stmts_v, Block, Expr, ExprKind, ExprKindV, ExprV, FieldInit, FieldInitV, MatchArm, MatchArmV,
    Stmt, StmtKind, StmtKindV, StmtV};
use crate::decl::{enum_definitions_v, enum_variants_v, field_list_v, functions_v, global_decls_v,
    impl_definitions_v, params_v, struct_definitions_v, trait_definitions_v, type_params_v, EnumDefinition,
    EnumDefinitionV, EnumVariant, EnumVariantV, Field, FieldV, Function, FunctionV, GlobalDecl, GlobalDeclV,
    ImplDefinition, ImplDefinitionV, Param, ParamV, Program, ProgramV, StructDefinition, StructDefinitionV,
    TraitDefinition, TraitDefinitionV, TypeParam, TypeParamV};
use crate::error::{CompilationError, ErrorV};
use crate::monomorph::type_error;
use crate::text;
use crate::types::{copy_type, lemma_type_v, opt_type_v, types_v, Type, TypeV};
use vstd::prelude::*;

verus! {

/// The generic applications and type parameters in a type, each before those inside it.
pub open spec fn type_refs(t: TypeV) -> Seq<TypeV>
    decreases t, 0int,
{
    match t {
        TypeV::Instance { args, .. } => seq![t] + types_refs(args, 0),
        TypeV::TypeParam(_) => seq![t],
        TypeV::Ptr(x) => type_refs(*x),
        TypeV::CArray(x, _) => type_refs(*x),
        TypeV::Tuple(xs) => types_refs(xs, 0),
        TypeV::Function { param_tys, ret_ty } => types_refs(param_tys, 0) + type_refs(*ret_ty),
        _ => Seq::empty(),
    }
}

/// The generic applications and type parameters in the types from position `i` on.
pub open spec fn types_refs(ts: Seq<TypeV>, i: int) -> Seq<TypeV>
    decreases ts, ts.len() - i,
    when 0 <= i <= ts.len()
{
    if i >= ts.len() {
        Seq::empty()
    } else {
        type_refs(ts[i]) + types_refs(ts, i + 1)
    }
}

/// The generic applications and type parameters in an annotation.
pub open spec fn opt_refs(t: Option<TypeV>) -> Seq<TypeV> {
    match t {
        Some(x) => type_refs(x),
        None => Seq::empty(),
    }
}

/// The generic applications and type parameters in an expression: in the types that struct
/// values are written with.
pub open spec fn expr_refs(x: ExprV) -> Seq<TypeV>
    decreases x, 0int,
{
    match x.kind {
        ExprKindV::BinaryOp { left, right, .. } => expr_refs(*left) + expr_refs(*right),
        ExprKindV::UnaryOp { expr, .. } => expr_refs(*expr),
        ExprKindV::Assign { left, right, .. } => expr_refs(*left) + expr_refs(*right),
        ExprKindV::Call { callee, args } => expr_refs(*callee) + exprs_refs(args, 0),
        ExprKindV::Index { expr, index } => expr_refs(*expr) + expr_refs(*index),
        ExprKindV::FieldAccess { expr, .. } => expr_refs(*expr),
        ExprKindV::If { cond, then_branch, else_branch } => expr_refs(*cond) + expr_refs(*then_branch) + expr_refs(
            *else_branch,
        ),
        ExprKindV::RangeLiteral { start, end } => expr_refs(*start) + expr_refs(*end),
        ExprKindV::StructInit { struct_type, fields } => opt_refs(struct_type) + inits_refs(fields, 0),
        ExprKindV::ArrayLiteral { elements } => exprs_refs(elements, 0),
        ExprKindV::TupleLit { elements } => exprs_refs(elements, 0),
        ExprKindV::EnumInit { args, .. } => exprs_refs(args, 0),
        _ => Seq::empty(),
    }
}

/// The generic applications and type parameters in the expressions from position `i` on.
pub open spec fn exprs_refs(xs: Seq<ExprV>, i: int) -> Seq<TypeV>
    decreases xs, xs.len() - i,
    when 0 <= i <= xs.len()
{
    if i >= xs.len() {
        Seq::empty()
    } else {
        expr_refs(xs[i]) + exprs_refs(xs, i + 1)
    }
}

/// The generic applications and type parameters in the field values from position `i` on.
pub open spec fn inits_refs(xs: Seq<FieldInitV>, i: int) -> Seq<TypeV>
    decreases xs, xs.len() - i,
    when 0 <= i <= xs.len()
{
    if i >= xs.len() {
        Seq::empty()
    } else {
        expr_refs(xs[i].value) + inits_refs(xs, i + 1)
    }
}

/// The generic applications and type parameters in an optional expression.
pub open spec fn opt_expr_refs(x: Option<ExprV>) -> Seq<TypeV> {
    match x {
        Some(y) => expr_refs(y),
        None => Seq::empty(),
    }
}

/// The generic applications and type parameters in a statement.
pub open spec fn stmt_refs(s: StmtV) -> Seq<TypeV>
    decreases s, 0int,
{
    match s.kind {
        StmtKindV::VarDecl { annotation, init, .. } => opt_refs(annotation) + opt_expr_refs(init),
        StmtKindV::Expr(x) => expr_refs(x),
        StmtKindV::Return(x) => opt_expr_refs(x),
        StmtKindV::Defer { body } => stmt_refs(*body),
        StmtKindV::Block(b) => stmts_refs(b.stmts, 0),
        StmtKindV::If { cond, then_branch, else_branch } => expr_refs(cond) + stmts_refs(then_branch.stmts, 0) + (
        match else_branch {
            Some(b) => stmts_refs(b.stmts, 0),
            None => Seq::empty(),
        }),
        StmtKindV::While { cond, body } => expr_refs(cond) + stmts_refs(body.stmts, 0),
        StmtKindV::For { iter, body, .. } => expr_refs(iter) + stmts_refs(body.stmts, 0),
        StmtKindV::Match { expr, arms } => expr_refs(expr) + arms_refs(arms, 0),
        _ => Seq::empty(),
    }
}

/// The generic applications and type parameters in the statements from position `i` on.
pub open spec fn stmts_refs(ss: Seq<StmtV>, i: int) -> Seq<TypeV>
    decreases ss, ss.len() - i,
    when 0 <= i <= ss.len()
{
    if i >= ss.len() {
        Seq::empty()
    } else {
        stmt_refs(ss[i]) + stmts_refs(ss, i + 1)
    }
}

/// The generic applications and type parameters in the bodies of the arms from position `i` on.
pub open spec fn arms_refs(xs: Seq<MatchArmV>, i: int) -> Seq<TypeV>
    decreases xs, xs.len() - i,
    when 0 <= i <= xs.len()
{
    if i >= xs.len() {
        Seq::empty()
    } else {
        stmts_refs(xs[i].body.stmts, 0) + arms_refs(xs, i + 1)
    }
}

/// The generic applications and type parameters in the fields from position `i` on.
pub open spec fn fields_refs(xs: Seq<FieldV>, i: int) -> Seq<TypeV>
    decreases xs.len() - i,
{
    if i < 0 || i >= xs.len() {
        Seq::empty()
    } else {
        opt_refs(xs[i].annotation) + fields_refs(xs, i + 1)
    }
}

/// The generic applications and type parameters in the variants from position `i` on.
pub open spec fn variants_refs(xs: Seq<EnumVariantV>, i: int) -> Seq<TypeV>
    decreases xs.len() - i,
{
    if i < 0 || i >= xs.len() {
        Seq::empty()
    } else {
        fields_refs(xs[i].args, 0) + variants_refs(xs, i + 1)
    }
}

/// The generic applications and type parameters in the parameters from position `i` on.
pub open spec fn params_refs(xs: Seq<ParamV>, i: int) -> Seq<TypeV>
    decreases xs.len() - i,
{
    if i < 0 || i >= xs.len() {
        Seq::empty()
    } else {
        opt_refs(xs[i].annotation) + params_refs(xs, i + 1)
    }
}

/// The generic applications and type parameters in the signature of a function.
pub open spec fn signature_refs(f: FunctionV) -> Seq<TypeV> {
    params_refs(f.params, 0) + opt_refs(f.return_type)
}

/// The generic applications and type parameters in a function.
pub open spec fn function_refs(f: FunctionV) -> Seq<TypeV> {
    signature_refs(f) + stmts_refs(f.body.stmts, 0)
}

/// The generic applications and type parameters in the structs from position `i` on.
pub open spec fn structs_refs(xs: Seq<StructDefinitionV>, i: int) -> Seq<TypeV>
    decreases xs.len() - i,
{
    if i < 0 || i >= xs.len() {
        Seq::empty()
    } else {
        fields_refs(xs[i].fields, 0) + structs_refs(xs, i + 1)
    }
}

/// The generic applications and type parameters in the enums from position `i` on.
pub open spec fn enums_refs(xs: Seq<EnumDefinitionV>, i: int) -> Seq<TypeV>
    decreases xs.len() - i,
{
    if i < 0 || i >= xs.len() {
        Seq::empty()
    } else {
        variants_refs(xs[i].variants, 0) + enums_refs(xs, i + 1)
    }
}

/// The generic applications and type parameters in the functions from position `i` on.
pub open spec fn functions_refs(xs: Seq<FunctionV>, i: int) -> Seq<TypeV>
    decreases xs.len() - i,
{
    if i < 0 || i >= xs.len() {
        Seq::empty()
    } else {
        function_refs(xs[i]) + functions_refs(xs, i + 1)
    }
}

/// The generic applications and type parameters in the globals from position `i` on.
pub open spec fn globals_refs(xs: Seq<GlobalDeclV>, i: int) -> Seq<TypeV>
    decreases xs.len() - i,
{
    if i < 0 || i >= xs.len() {
        Seq::empty()
    } else {
        opt_refs(xs[i].annotation) + globals_refs(xs, i + 1)
    }
}

/// The generic applications and type parameters in the signatures from position `i` on.
pub open spec fn signatures_refs(xs: Seq<FunctionV>, i: int) -> Seq<TypeV>
    decreases xs.len() - i,
{
    if i < 0 || i >= xs.len() {
        Seq::empty()
    } else {
        signature_refs(xs[i]) + signatures_refs(xs, i + 1)
    }
}

/// The generic applications and type parameters in the traits from position `i` on.
pub open spec fn traits_refs(xs: Seq<TraitDefinitionV>, i: int) -> Seq<TypeV>
    decreases xs.len() - i,
{
    if i < 0 || i >= xs.len() {
        Seq::empty()
    } else {
        signatures_refs(xs[i].methods, 0) + traits_refs(xs, i + 1)
    }
}

/// The generic applications and type parameters in the implementations from position `i` on.
pub open spec fn impls_refs(xs: Seq<ImplDefinitionV>, i: int) -> Seq<TypeV>
    decreases xs.len() - i,
{
    if i < 0 || i >= xs.len() {
        Seq::empty()
    } else {
        signatures_refs(xs[i].methods, 0) + impls_refs(xs, i + 1)
    }
}

/// The generic applications and type parameters in a program.
pub open spec fn program_refs(p: ProgramV) -> Seq<TypeV> {
    structs_refs(p.structs, 0) + enums_refs(p.enums, 0) + functions_refs(p.functions, 0) + globals_refs(p.globals, 0)
        + traits_refs(p.traits, 0) + impls_refs(p.impls, 0)
}

/// The number of type parameters of the last generic struct before position `n` with the given
/// name.
pub open spec fn struct_arity(xs: Seq<StructDefinitionV>, name: Seq<char>, n: int) -> Option<nat>
    decreases n,
{
    if n <= 0 || n > xs.len() {
        None
    } else if xs[n - 1].type_params.len() > 0 && xs[n - 1].name == name {
        Some(xs[n - 1].type_params.len())
    } else {
        struct_arity(xs, name, n - 1)
    }
}

/// The number of type parameters of the last generic enum before position `n` with the given
/// name.
pub open spec fn enum_arity(xs: Seq<EnumDefinitionV>, name: Seq<char>, n: int) -> Option<nat>
    decreases n,
{
    if n <= 0 || n > xs.len() {
        None
    } else if xs[n - 1].type_params.len() > 0 && xs[n - 1].name == name {
        Some(xs[n - 1].type_params.len())
    } else {
        enum_arity(xs, name, n - 1)
    }
}

/// The number of type parameters of the generic definition of the given name.
pub open spec fn arity(p: ProgramV, name: Seq<char>) -> Option<nat> {
    match enum_arity(p.enums, name, p.enums.len() as int) {
        Some(n) => Some(n),
        None => struct_arity(p.structs, name, p.structs.len() as int),
    }
}

/// What is wrong with one generic application: its name is not generic, or it has too many
/// arguments. It may have fewer than there are parameters.
pub open spec fn application_error(p: ProgramV, t: TypeV) -> Option<ErrorV> {
    match t {
        TypeV::Instance { base, args } => match arity(p, base) {
            None => Some(
                ErrorV::TypeError("type '"@ + base + "' is not generic but is used with type arguments"@),
            ),
            Some(n) => if args.len() > n {
                Some(
                    ErrorV::TypeError(
                        "type '"@ + base + "' expects "@ + text::decimal_text(n) + " type argument(s), got "@
                            + text::decimal_text(args.len()),
                    ),
                )
            } else {
                None
            },
        },
        _ => None,
    }
}

/// What is wrong with the first wrong application from position `i` on.
pub open spec fn applications_error(p: ProgramV, ts: Seq<TypeV>, i: int) -> Option<ErrorV>
    decreases ts.len() - i,
{
    if i < 0 || i >= ts.len() {
        None
    } else {
        match application_error(p, ts[i]) {
            Some(e) => Some(e),
            None => applications_error(p, ts, i + 1),
        }
    }
}

/// The names of type parameters.
pub open spec fn param_names(ps: Seq<TypeParamV>) -> Seq<Seq<char>> {
    ps.map_values(|p: TypeParamV| p.name)
}

/// The error for the first type parameter from position `i` on that is not declared.
pub open spec fn undeclared(ts: Seq<TypeV>, declared: Seq<Seq<char>>, owner: Seq<char>, i: int) -> Option<ErrorV>
    decreases ts.len() - i,
{
    if i < 0 || i >= ts.len() {
        None
    } else {
        match ts[i] {
            TypeV::TypeParam(n) => if declared.contains(n) {
                undeclared(ts, declared, owner, i + 1)
            } else {
                Some(ErrorV::TypeError("type parameter '"@ + n + "' used in '"@ + owner + "' is not declared"@))
            },
            _ => undeclared(ts, declared, owner, i + 1),
        }
    }
}

/// The error for the first undeclared type parameter in the structs from position `i` on.
pub open spec fn structs_undeclared(xs: Seq<StructDefinitionV>, i: int) -> Option<ErrorV>
    decreases xs.len() - i,
{
    if i < 0 || i >= xs.len() {
        None
    } else {
        match undeclared(fields_refs(xs[i].fields, 0), param_names(xs[i].type_params), xs[i].name, 0) {
            Some(e) => Some(e),
            None => structs_undeclared(xs, i + 1),
        }
    }
}

/// The error for the first undeclared type parameter in the enums from position `i` on.
pub open spec fn enums_undeclared(xs: Seq<EnumDefinitionV>, i: int) -> Option<ErrorV>
    decreases xs.len() - i,
{
    if i < 0 || i >= xs.len() {
        None
    } else {
        match undeclared(variants_refs(xs[i].variants, 0), param_names(xs[i].type_params), xs[i].name, 0) {
            Some(e) => Some(e),
            None => enums_undeclared(xs, i + 1),
        }
    }
}

/// The error for the first undeclared type parameter in the functions from position `i` on.
pub open spec fn functions_undeclared(xs: Seq<FunctionV>, i: int) -> Option<ErrorV>
    decreases xs.len() - i,
{
    if i < 0 || i >= xs.len() {
        None
    } else {
        match undeclared(function_refs(xs[i]), param_names(xs[i].type_params), xs[i].name, 0) {
            Some(e) => Some(e),
            None => functions_undeclared(xs, i + 1),
        }
    }
}

/// The error for the first undeclared type parameter in the signatures from position `i` on, of methods
/// that may also use the parameters of their trait.
pub open spec fn methods_undeclared(xs: Seq<FunctionV>, declared: Seq<Seq<char>>, owner: Seq<char>, i: int) -> Option<ErrorV>
    decreases xs.len() - i,
{
    if i < 0 || i >= xs.len() {
        None
    } else {
        match undeclared(signature_refs(xs[i]), declared + param_names(xs[i].type_params), owner, 0) {
            Some(e) => Some(e),
            None => methods_undeclared(xs, declared, owner, i + 1),
        }
    }
}

/// The error for the first undeclared type parameter in the traits from position `i` on.
pub open spec fn traits_undeclared(xs: Seq<TraitDefinitionV>, i: int) -> Option<ErrorV>
    decreases xs.len() - i,
{
    if i < 0 || i >= xs.len() {
        None
    } else {
        match methods_undeclared(xs[i].methods, param_names(xs[i].params), xs[i].name, 0) {
            Some(e) => Some(e),
            None => traits_undeclared(xs, i + 1),
        }
    }
}

/// The error for the first undeclared type parameter in the implementations from position `i` on.
pub open spec fn impls_undeclared(xs: Seq<ImplDefinitionV>, i: int) -> Option<ErrorV>
    decreases xs.len() - i,
{
    if i < 0 || i >= xs.len() {
        None
    } else {
        match methods_undeclared(xs[i].methods, param_names(xs[i].params), xs[i].name, 0) {
            Some(e) => Some(e),
            None => impls_undeclared(xs, i + 1),
        }
    }
}

/// The error for the first type parameter of a program that is not declared where it is used.
pub open spec fn scopes_error(p: ProgramV) -> Option<ErrorV> {
    match structs_undeclared(p.structs, 0) {
        Some(e) => Some(e),
        None => match enums_undeclared(p.enums, 0) {
            Some(e) => Some(e),
            None => match functions_undeclared(p.functions, 0) {
                Some(e) => Some(e),
                None => match traits_undeclared(p.traits, 0) {
                    Some(e) => Some(e),
                    None => impls_undeclared(p.impls, 0),
                },
            },
        },
    }
}

/// What is wrong with the use of generic definitions in a program.
pub open spec fn generics_error(p: ProgramV) -> Option<ErrorV> {
    match applications_error(p, program_refs(p), 0) {
        Some(e) => Some(e),
        None => scopes_error(p),
    }
}

/// In a valid program every application has at most as many arguments as its definition has
/// parameters.
pub proof fn law_valid_applications_fit(p: ProgramV, i: int)
    requires
        generics_error(p) is None,
        0 <= i < program_refs(p).len(),
        program_refs(p)[i] is Instance,
    ensures
        arity(p, program_refs(p)[i]->Instance_base) is Some,
        program_refs(p)[i]->Instance_args.len() <= arity(p, program_refs(p)[i]->Instance_base)->0,
{
    lemma_applications_fit(p, program_refs(p), 0, i);
}

proof fn lemma_applications_fit(p: ProgramV, ts: Seq<TypeV>, k: int, i: int)
    requires
        applications_error(p, ts, k) is None,
        0 <= k <= i < ts.len(),
    ensures
        application_error(p, ts[i]) is None,
    decreases ts.len() - k,
{
    if k < i {
        lemma_applications_fit(p, ts, k + 1, i);
    }
}

/// The contents of an optional error.
pub open spec fn opt_error_v(e: Option<CompilationError>) -> Option<ErrorV> {
    match e {
        Some(x) => Some(x@),
        None => None,
    }
}

fn push_type(out: &mut Vec<Type>, t: &Type)
    ensures
        types_v(final(out)@) == types_v(old(out)@).push(t@),
{
    let c = copy_type(t);
    let ghost before = out@;
    out.push(c);
    proof {
        assert(types_v(out@) =~= types_v(before).push(t@));
    }
}

/// Appends the generic applications and type parameters in a type.
pub fn walk_type(t: &Type, out: &mut Vec<Type>)
    ensures
        types_v(final(out)@) == types_v(old(out)@) + type_refs(t@),
    decreases *t, 0int,
{
    broadcast use lemma_type_v;

    let ghost o = types_v(out@);
    match t {
        Type::Instance { base: _, args } => {
            push_type(out, t);
            walk_types(args, out);
            proof {
                assert(types_v(out@) =~= o + type_refs(t@));
            }
        },
        Type::TypeParam(_) => {
            push_type(out, t);
            proof {
                assert(types_v(out@) =~= o + type_refs(t@));
            }
        },
        Type::Ptr(x) => walk_type(x, out),
        Type::CArray(x, _) => walk_type(x, out),
        Type::Tuple(xs) => walk_types(xs, out),
        Type::Function { param_tys, ret_ty } => {
            walk_types(param_tys, out);
            walk_type(ret_ty, out);
            proof {
                assert(types_v(out@) =~= o + type_refs(t@));
            }
        },
        _ => {
            proof {
                assert(types_v(out@) =~= o + type_refs(t@));
            }
        },
    }
}

fn walk_opt(t: &Option<Type>, out: &mut Vec<Type>)
    ensures
        types_v(final(out)@) == types_v(old(out)@) + opt_refs(opt_type_v(*t)),
{
    let ghost o = types_v(out@);
    match t {
        Some(x) => walk_type(x, out),
        None => {
            proof {
                assert(types_v(out@) =~= o + opt_refs(opt_type_v(*t)));
            }
        },
    }
}

fn walk_opt_expr(x: &Option<Expr>, out: &mut Vec<Type>)
    ensures
        types_v(final(out)@) == types_v(old(out)@) + opt_expr_refs(opt_expr_v(*x)),
{
    let ghost o = types_v(out@);
    match x {
        Some(y) => walk_expr_types(y, out),
        None => {
            proof {
                assert(types_v(out@) =~= o + opt_expr_refs(opt_expr_v(*x)));
            }
        },
    }
}

fn walk_types(xs: &Vec<Type>, out: &mut Vec<Type>)
    ensures
        types_v(final(out)@) == types_v(old(out)@) + types_refs(types_v(xs@), 0),
    decreases *xs, 0int,
{
    let ghost o = types_v(out@);
    let ghost all = types_refs(types_v(xs@), 0);
    let mut i: usize = 0;
    proof {
        assert(o + all =~= types_v(out@) + types_refs(types_v(xs@), 0));
    }
    while i < xs.len()
        invariant
            i <= xs@.len(),
            o == types_v(old(out)@),
            all == types_refs(types_v(xs@), 0),
            o + all == types_v(out@) + types_refs(types_v(xs@), i as int),
        decreases xs@.len() - i,
    {
        let ghost before = types_v(out@);
        assert(types_v(xs@)[i as int] == xs@[i as int]@);
        walk_type(&xs[i], out);
        proof {
            assert(types_refs(types_v(xs@), i as int) =~= types_v(out@).skip(before.len() as int) + types_refs(
                types_v(xs@),
                i + 1,
            ));
            assert(types_v(out@) + types_refs(types_v(xs@), i + 1) =~= before + types_refs(types_v(xs@), i as int));
        }
        i = i + 1;
    }
    proof {
        assert(types_v(out@) + types_refs(types_v(xs@), i as int) =~= types_v(out@));
    }
}

/// Appends the generic applications and type parameters in an expression.
pub fn walk_expr_types(x: &Expr, out: &mut Vec<Type>)
    ensures
        types_v(final(out)@) == types_v(old(out)@) + expr_refs(x@),
    decreases *x, 0int,
{
    broadcast use lemma_expr_v;

    let ghost o = types_v(out@);
    match &x.kind {
        ExprKind::BinaryOp { op: _, left, right } => {
            walk_expr_types(left, out);
            walk_expr_types(right, out);
        },
        ExprKind::UnaryOp { op: _, expr } => walk_expr_types(expr, out),
        ExprKind::Assign { op: _, left, right } => {
            walk_expr_types(left, out);
            walk_expr_types(right, out);
        },
        ExprKind::Call { callee, args } => {
            walk_expr_types(callee, out);
            walk_exprs(args, out);
        },
        ExprKind::Index { expr, index } => {
            walk_expr_types(expr, out);
            walk_expr_types(index, out);
        },
        ExprKind::FieldAccess { expr, field_name: _ } => walk_expr_types(expr, out),
        ExprKind::If { cond, then_branch, else_branch } => {
            walk_expr_types(cond, out);
            walk_expr_types(then_branch, out);
            walk_expr_types(else_branch, out);
        },
        ExprKind::RangeLiteral { start, end } => {
            walk_expr_types(start, out);
            walk_expr_types(end, out);
        },
        ExprKind::StructInit { struct_type, fields } => {
            walk_opt(struct_type, out);
            walk_inits(fields, out);
        },
        ExprKind::ArrayLiteral { elements } => walk_exprs(elements, out),
        ExprKind::TupleLit { elements } => walk_exprs(elements, out),
        ExprKind::EnumInit { enum_name: _, variant_name: _, args } => walk_exprs(args, out),
        ExprKind::Identifier { name: _ } => {},
        ExprKind::Literal { value: _ } => {},
        ExprKind::EnumVariant { enum_name: _, variant_name: _ } => {},
    }
    proof {
        assert(types_v(out@) =~= o + expr_refs(x@));
    }
}

fn walk_exprs(xs: &Vec<Expr>, out: &mut Vec<Type>)
    ensures
        types_v(final(out)@) == types_v(old(out)@) + exprs_refs(exprs_v(xs@), 0),
    decreases *xs, 0int,
{
    let ghost o = types_v(out@);
    let ghost all = exprs_refs(exprs_v(xs@), 0);
    let mut i: usize = 0;
    proof {
        assert(o + all =~= types_v(out@) + exprs_refs(exprs_v(xs@), 0));
    }
    while i < xs.len()
        invariant
            i <= xs@.len(),
            o == types_v(old(out)@),
            all == exprs_refs(exprs_v(xs@), 0),
            o + all == types_v(out@) + exprs_refs(exprs_v(xs@), i as int),
        decreases xs@.len() - i,
    {
        let ghost before = types_v(out@);
        assert(exprs_v(xs@)[i as int] == xs@[i as int]@);
        walk_expr_types(&xs[i], out);
        proof {
            assert(exprs_refs(exprs_v(xs@), i as int) =~= types_v(out@).skip(before.len() as int) + exprs_refs(
                exprs_v(xs@),
                i + 1,
            ));
            assert(types_v(out@) + exprs_refs(exprs_v(xs@), i + 1) =~= before + exprs_refs(exprs_v(xs@), i as int));
        }
        i = i + 1;
    }
    proof {
        assert(types_v(out@) + exprs_refs(exprs_v(xs@), i as int) =~= types_v(out@));
    }
}

fn walk_inits(xs: &Vec<FieldInit>, out: &mut Vec<Type>)
    ensures
        types_v(final(out)@) == types_v(old(out)@) + inits_refs(inits_v(xs@), 0),
    decreases *xs, 0int,
{
    let ghost o = types_v(out@);
    let ghost all = inits_refs(inits_v(xs@), 0);
    let mut i: usize = 0;
    proof {
        assert(o + all =~= types_v(out@) + inits_refs(inits_v(xs@), 0));
    }
    while i < xs.len()
        invariant
            i <= xs@.len(),
            o == types_v(old(out)@),
            all == inits_refs(inits_v(xs@), 0),
            o + all == types_v(out@) + inits_refs(inits_v(xs@), i as int),
        decreases xs@.len() - i,
    {
        let ghost before = types_v(out@);
        assert(inits_v(xs@)[i as int] == init_v(xs@[i as int]));
        walk_expr_types(&xs[i].value, out);
        proof {
            assert(inits_refs(inits_v(xs@), i as int) =~= types_v(out@).skip(before.len() as int) + inits_refs(
                inits_v(xs@),
                i + 1,
            ));
            assert(types_v(out@) + inits_refs(inits_v(xs@), i + 1) =~= before + inits_refs(inits_v(xs@), i as int));
        }
        i = i + 1;
    }
    proof {
        assert(types_v(out@) + inits_refs(inits_v(xs@), i as int) =~= types_v(out@));
    }
}

/// Appends the generic applications and type parameters in a statement.
pub fn walk_stmt_types(s: &Stmt, out: &mut Vec<Type>)
    ensures
        types_v(final(out)@) == types_v(old(out)@) + stmt_refs(s@),
    decreases *s, 0int,
{
    let ghost o = types_v(out@);
    proof {
        lemma_stmt_parts(*s);
    }
    match &s.kind {
        StmtKind::VarDecl { name: _, annotation, inferred: _, init } => {
            walk_opt(annotation, out);
            walk_opt_expr(init, out);
        },
        StmtKind::Expr(x) => walk_expr_types(x, out),
        StmtKind::Return(x) => walk_opt_expr(x, out),
        StmtKind::Defer { body } => walk_stmt_types(body, out),
        StmtKind::Block(b) => walk_stmts(&b.stmts, out),
        StmtKind::If { cond, then_branch, else_branch } => {
            walk_expr_types(cond, out);
            walk_stmts(&then_branch.stmts, out);
            match else_branch {
                Some(b) => {
                    proof {
                        lemma_block_v(*b);
                    }
                    walk_stmts(&b.stmts, out);
                },
                None => {},
            }
        },
        StmtKind::While { cond, body } => {
            walk_expr_types(cond, out);
            walk_stmts(&body.stmts, out);
        },
        StmtKind::For { var: _, iter, body } => {
            walk_expr_types(iter, out);
            walk_stmts(&body.stmts, out);
        },
        StmtKind::Match(m) => {
            walk_expr_types(&m.expr, out);
            walk_arms(&m.arms, out);
        },
        StmtKind::Break => {},
        StmtKind::Continue => {},
    }
    proof {
        assert(types_v(out@) =~= o + stmt_refs(s@));
    }
}

fn walk_stmts(xs: &Vec<Stmt>, out: &mut Vec<Type>)
    ensures
        types_v(final(out)@) == types_v(old(out)@) + stmts_refs(stmts_v(xs@), 0),
    decreases *xs, 0int,
{
    let ghost o = types_v(out@);
    let ghost all = stmts_refs(stmts_v(xs@), 0);
    let mut i: usize = 0;
    proof {
        assert(o + all =~= types_v(out@) + stmts_refs(stmts_v(xs@), 0));
    }
    while i < xs.len()
        invariant
            i <= xs@.len(),
            o == types_v(old(out)@),
            all == stmts_refs(stmts_v(xs@), 0),
            o + all == types_v(out@) + stmts_refs(stmts_v(xs@), i as int),
        decreases xs@.len() - i,
    {
        let ghost before = types_v(out@);
        assert(stmts_v(xs@)[i as int] == xs@[i as int]@);
        walk_stmt_types(&xs[i], out);
        proof {
            assert(stmts_refs(stmts_v(xs@), i as int) =~= types_v(out@).skip(before.len() as int) + stmts_refs(
                stmts_v(xs@),
                i + 1,
            ));
            assert(types_v(out@) + stmts_refs(stmts_v(xs@), i + 1) =~= before + stmts_refs(stmts_v(xs@), i as int));
        }
        i = i + 1;
    }
    proof {
        assert(types_v(out@) + stmts_refs(stmts_v(xs@), i as int) =~= types_v(out@));
    }
}

fn walk_arms(xs: &Vec<MatchArm>, out: &mut Vec<Type>)
    ensures
        types_v(final(out)@) == types_v(old(out)@) + arms_refs(arms_v(xs@), 0),
    decreases *xs, 0int,
{
    let ghost o = types_v(out@);
    let ghost all = arms_refs(arms_v(xs@), 0);
    let mut i: usize = 0;
    proof {
        assert(o + all =~= types_v(out@) + arms_refs(arms_v(xs@), 0));
    }
    while i < xs.len()
        invariant
            i <= xs@.len(),
            o == types_v(old(out)@),
            all == arms_refs(arms_v(xs@), 0),
            o + all == types_v(out@) + arms_refs(arms_v(xs@), i as int),
        decreases xs@.len() - i,
    {
        let ghost before = types_v(out@);
        assert(arms_v(xs@)[i as int] == arm_v(xs@[i as int]));
        proof {
            lemma_block_v(xs@[i as int].body);
        }
        walk_stmts(&xs[i].body.stmts, out);
        proof {
            assert(arms_refs(arms_v(xs@), i as int) =~= types_v(out@).skip(before.len() as int) + arms_refs(
                arms_v(xs@),
                i + 1,
            ));
            assert(types_v(out@) + arms_refs(arms_v(xs@), i + 1) =~= before + arms_refs(arms_v(xs@), i as int));
        }
        i = i + 1;
    }
    proof {
        assert(types_v(out@) + arms_refs(arms_v(xs@), i as int) =~= types_v(out@));
    }
}

fn walk_fields(xs: &Vec<Field>, out: &mut Vec<Type>)
    ensures
        types_v(final(out)@) == types_v(old(out)@) + fields_refs(field_list_v(xs@), 0),
{
    let ghost o = types_v(out@);
    let ghost all = fields_refs(field_list_v(xs@), 0);
    let mut i: usize = 0;
    proof {
        assert(o + all =~= types_v(out@) + fields_refs(field_list_v(xs@), 0));
    }
    while i < xs.len()
        invariant
            i <= xs@.len(),
            o == types_v(old(out)@),
            all == fields_refs(field_list_v(xs@), 0),
            o + all == types_v(out@) + fields_refs(field_list_v(xs@), i as int),
        decreases xs@.len() - i,
    {
        let ghost before = types_v(out@);
        assert(field_list_v(xs@)[i as int] == xs@[i as int]@);
        walk_opt(&xs[i].annotation, out);
        proof {
            assert(fields_refs(field_list_v(xs@), i as int) =~= types_v(out@).skip(before.len() as int) + fields_refs(
                field_list_v(xs@),
                i + 1,
            ));
            assert(types_v(out@) + fields_refs(field_list_v(xs@), i + 1) =~= before + fields_refs(field_list_v(xs@), i as int));
        }
        i = i + 1;
    }
    proof {
        assert(types_v(out@) + fields_refs(field_list_v(xs@), i as int) =~= types_v(out@));
    }
}

fn walk_variants(xs: &Vec<EnumVariant>, out: &mut Vec<Type>)
    ensures
        types_v(final(out)@) == types_v(old(out)@) + variants_refs(enum_variants_v(xs@), 0),
{
    let ghost o = types_v(out@);
    let ghost all = variants_refs(enum_variants_v(xs@), 0);
    let mut i: usize = 0;
    proof {
        assert(o + all =~= types_v(out@) + variants_refs(enum_variants_v(xs@), 0));
    }
    while i < xs.len()
        invariant
            i <= xs@.len(),
            o == types_v(old(out)@),
            all == variants_refs(enum_variants_v(xs@), 0),
            o + all == types_v(out@) + variants_refs(enum_variants_v(xs@), i as int),
        decreases xs@.len() - i,
    {
        let ghost before = types_v(out@);
        assert(enum_variants_v(xs@)[i as int] == xs@[i as int]@);
        walk_fields(&xs[i].args, out);
        proof {
            assert(variants_refs(enum_variants_v(xs@), i as int) =~= types_v(out@).skip(before.len() as int) + variants_refs(
                enum_variants_v(xs@),
                i + 1,
            ));
            assert(types_v(out@) + variants_refs(enum_variants_v(xs@), i + 1) =~= before + variants_refs(enum_variants_v(xs@), i as int));
        }
        i = i + 1;
    }
    proof {
        assert(types_v(out@) + variants_refs(enum_variants_v(xs@), i as int) =~= types_v(out@));
    }
}

fn walk_params(xs: &Vec<Param>, out: &mut Vec<Type>)
    ensures
        types_v(final(out)@) == types_v(old(out)@) + params_refs(params_v(xs@), 0),
{
    let ghost o = types_v(out@);
    let ghost all = params_refs(params_v(xs@), 0);
    let mut i: usize = 0;
    proof {
        assert(o + all =~= types_v(out@) + params_refs(params_v(xs@), 0));
    }
    while i < xs.len()
        invariant
            i <= xs@.len(),
            o == types_v(old(out)@),
            all == params_refs(params_v(xs@), 0),
            o + all == types_v(out@) + params_refs(params_v(xs@), i as int),
        decreases xs@.len() - i,
    {
        let ghost before = types_v(out@);
        assert(params_v(xs@)[i as int] == xs@[i as int]@);
        walk_opt(&xs[i].annotation, out);
        proof {
            assert(params_refs(params_v(xs@), i as int) =~= types_v(out@).skip(before.len() as int) + params_refs(
                params_v(xs@),
                i + 1,
            ));
            assert(types_v(out@) + params_refs(params_v(xs@), i + 1) =~= before + params_refs(params_v(xs@), i as int));
        }
        i = i + 1;
    }
    proof {
        assert(types_v(out@) + params_refs(params_v(xs@), i as int) =~= types_v(out@));
    }
}

fn walk_signature(f: &Function, out: &mut Vec<Type>)
    ensures
        types_v(final(out)@) == types_v(old(out)@) + signature_refs(f@),
{
    let ghost o = types_v(out@);
    walk_params(&f.params, out);
    walk_opt(&f.return_type, out);
    proof {
        assert(types_v(out@) =~= o + signature_refs(f@));
    }
}

fn walk_function(f: &Function, out: &mut Vec<Type>)
    ensures
        types_v(final(out)@) == types_v(old(out)@) + function_refs(f@),
{
    let ghost o = types_v(out@);
    walk_signature(f, out);
    proof {
        lemma_block_v(f.body);
    }
    walk_stmts(&f.body.stmts, out);
    proof {
        assert(types_v(out@) =~= o + function_refs(f@));
    }
}

fn walk_structs(xs: &Vec<StructDefinition>, out: &mut Vec<Type>)
    ensures
        types_v(final(out)@) == types_v(old(out)@) + structs_refs(struct_definitions_v(xs@), 0),
{
    let ghost o = types_v(out@);
    let ghost all = structs_refs(struct_definitions_v(xs@), 0);
    let mut i: usize = 0;
    proof {
        assert(o + all =~= types_v(out@) + structs_refs(struct_definitions_v(xs@), 0));
    }
    while i < xs.len()
        invariant
            i <= xs@.len(),
            o == types_v(old(out)@),
            all == structs_refs(struct_definitions_v(xs@), 0),
            o + all == types_v(out@) + structs_refs(struct_definitions_v(xs@), i as int),
        decreases xs@.len() - i,
    {
        let ghost before = types_v(out@);
        assert(struct_definitions_v(xs@)[i as int] == xs@[i as int]@);
        walk_fields(&xs[i].fields, out);
        proof {
            assert(structs_refs(struct_definitions_v(xs@), i as int) =~= types_v(out@).skip(before.len() as int) + structs_refs(
                struct_definitions_v(xs@),
                i + 1,
            ));
            assert(types_v(out@) + structs_refs(struct_definitions_v(xs@), i + 1) =~= before + structs_refs(struct_definitions_v(xs@), i as int));
        }
        i = i + 1;
    }
    proof {
        assert(types_v(out@) + structs_refs(struct_definitions_v(xs@), i as int) =~= types_v(out@));
    }
}

fn walk_enums(xs: &Vec<EnumDefinition>, out: &mut Vec<Type>)
    ensures
        types_v(final(out)@) == types_v(old(out)@) + enums_refs(enum_definitions_v(xs@), 0),
{
    let ghost o = types_v(out@);
    let ghost all = enums_refs(enum_definitions_v(xs@), 0);
    let mut i: usize = 0;
    proof {
        assert(o + all =~= types_v(out@) + enums_refs(enum_definitions_v(xs@), 0));
    }
    while i < xs.len()
        invariant
            i <= xs@.len(),
            o == types_v(old(out)@),
            all == enums_refs(enum_definitions_v(xs@), 0),
            o + all == types_v(out@) + enums_refs(enum_definitions_v(xs@), i as int),
        decreases xs@.len() - i,
    {
        let ghost before = types_v(out@);
        assert(enum_definitions_v(xs@)[i as int] == xs@[i as int]@);
        walk_variants(&xs[i].variants, out);
        proof {
            assert(enums_refs(enum_definitions_v(xs@), i as int) =~= types_v(out@).skip(before.len() as int) + enums_refs(
                enum_definitions_v(xs@),
                i + 1,
            ));
            assert(types_v(out@) + enums_refs(enum_definitions_v(xs@), i + 1) =~= before + enums_refs(enum_definitions_v(xs@), i as int));
        }
        i = i + 1;
    }
    proof {
        assert(types_v(out@) + enums_refs(enum_definitions_v(xs@), i as int) =~= types_v(out@));
    }
}

fn walk_functions(xs: &Vec<Function>, out: &mut Vec<Type>)
    ensures
        types_v(final(out)@) == types_v(old(out)@) + functions_refs(functions_v(xs@), 0),
{
    let ghost o = types_v(out@);
    let ghost all = functions_refs(functions_v(xs@), 0);
    let mut i: usize = 0;
    proof {
        assert(o + all =~= types_v(out@) + functions_refs(functions_v(xs@), 0));
    }
    while i < xs.len()
        invariant
            i <= xs@.len(),
            o == types_v(old(out)@),
            all == functions_refs(functions_v(xs@), 0),
            o + all == types_v(out@) + functions_refs(functions_v(xs@), i as int),
        decreases xs@.len() - i,
    {
        let ghost before = types_v(out@);
        assert(functions_v(xs@)[i as int] == xs@[i as int]@);
        walk_function(&xs[i], out);
        proof {
            assert(functions_refs(functions_v(xs@), i as int) =~= types_v(out@).skip(before.len() as int) + functions_refs(
                functions_v(xs@),
                i + 1,
            ));
            assert(types_v(out@) + functions_refs(functions_v(xs@), i + 1) =~= before + functions_refs(functions_v(xs@), i as int));
        }
        i = i + 1;
    }
    proof {
        assert(types_v(out@) + functions_refs(functions_v(xs@), i as int) =~= types_v(out@));
    }
}

fn walk_globals(xs: &Vec<GlobalDecl>, out: &mut Vec<Type>)
    ensures
        types_v(final(out)@) == types_v(old(out)@) + globals_refs(global_decls_v(xs@), 0),
{
    let ghost o = types_v(out@);
    let ghost all = globals_refs(global_decls_v(xs@), 0);
    let mut i: usize = 0;
    proof {
        assert(o + all =~= types_v(out@) + globals_refs(global_decls_v(xs@), 0));
    }
    while i < xs.len()
        invariant
            i <= xs@.len(),
            o == types_v(old(out)@),
            all == globals_refs(global_decls_v(xs@), 0),
            o + all == types_v(out@) + globals_refs(global_decls_v(xs@), i as int),
        decreases xs@.len() - i,
    {
        let ghost before = types_v(out@);
        assert(global_decls_v(xs@)[i as int] == xs@[i as int]@);
        walk_opt(&xs[i].annotation, out);
        proof {
            assert(globals_refs(global_decls_v(xs@), i as int) =~= types_v(out@).skip(before.len() as int) + globals_refs(
                global_decls_v(xs@),
                i + 1,
            ));
            assert(types_v(out@) + globals_refs(global_decls_v(xs@), i + 1) =~= before + globals_refs(global_decls_v(xs@), i as int));
        }
        i = i + 1;
    }
    proof {
        assert(types_v(out@) + globals_refs(global_decls_v(xs@), i as int) =~= types_v(out@));
    }
}

fn walk_signatures(xs: &Vec<Function>, out: &mut Vec<Type>)
    ensures
        types_v(final(out)@) == types_v(old(out)@) + signatures_refs(functions_v(xs@), 0),
{
    let ghost o = types_v(out@);
    let ghost all = signatures_refs(functions_v(xs@), 0);
    let mut i: usize = 0;
    proof {
        assert(o + all =~= types_v(out@) + signatures_refs(functions_v(xs@), 0));
    }
    while i < xs.len()
        invariant
            i <= xs@.len(),
            o == types_v(old(out)@),
            all == signatures_refs(functions_v(xs@), 0),
            o + all == types_v(out@) + signatures_refs(functions_v(xs@), i as int),
        decreases xs@.len() - i,
    {
        let ghost before = types_v(out@);
        assert(functions_v(xs@)[i as int] == xs@[i as int]@);
        walk_signature(&xs[i], out);
        proof {
            assert(signatures_refs(functions_v(xs@), i as int) =~= types_v(out@).skip(before.len() as int) + signatures_refs(
                functions_v(xs@),
                i + 1,
            ));
            assert(types_v(out@) + signatures_refs(functions_v(xs@), i + 1) =~= before + signatures_refs(functions_v(xs@), i as int));
        }
        i = i + 1;
    }
    proof {
        assert(types_v(out@) + signatures_refs(functions_v(xs@), i as int) =~= types_v(out@));
    }
}

fn walk_traits(xs: &Vec<TraitDefinition>, out: &mut Vec<Type>)
    ensures
        types_v(final(out)@) == types_v(old(out)@) + traits_refs(trait_definitions_v(xs@), 0),
{
    let ghost o = types_v(out@);
    let ghost all = traits_refs(trait_definitions_v(xs@), 0);
    let mut i: usize = 0;
    proof {
        assert(o + all =~= types_v(out@) + traits_refs(trait_definitions_v(xs@), 0));
    }
    while i < xs.len()
        invariant
            i <= xs@.len(),
            o == types_v(old(out)@),
            all == traits_refs(trait_definitions_v(xs@), 0),
            o + all == types_v(out@) + traits_refs(trait_definitions_v(xs@), i as int),
        decreases xs@.len() - i,
    {
        let ghost before = types_v(out@);
        assert(trait_definitions_v(xs@)[i as int] == xs@[i as int]@);
        walk_signatures(&xs[i].methods, out);
        proof {
            assert(traits_refs(trait_definitions_v(xs@), i as int) =~= types_v(out@).skip(before.len() as int) + traits_refs(
                trait_definitions_v(xs@),
                i + 1,
            ));
            assert(types_v(out@) + traits_refs(trait_definitions_v(xs@), i + 1) =~= before + traits_refs(trait_definitions_v(xs@), i as int));
        }
        i = i + 1;
    }
    proof {
        assert(types_v(out@) + traits_refs(trait_definitions_v(xs@), i as int) =~= types_v(out@));
    }
}

fn walk_impls(xs: &Vec<ImplDefinition>, out: &mut Vec<Type>)
    ensures
        types_v(final(out)@) == types_v(old(out)@) + impls_refs(impl_definitions_v(xs@), 0),
{
    let ghost o = types_v(out@);
    let ghost all = impls_refs(impl_definitions_v(xs@), 0);
    let mut i: usize = 0;
    proof {
        assert(o + all =~= types_v(out@) + impls_refs(impl_definitions_v(xs@), 0));
    }
    while i < xs.len()
        invariant
            i <= xs@.len(),
            o == types_v(old(out)@),
            all == impls_refs(impl_definitions_v(xs@), 0),
            o + all == types_v(out@) + impls_refs(impl_definitions_v(xs@), i as int),
        decreases xs@.len() - i,
    {
        let ghost before = types_v(out@);
        assert(impl_definitions_v(xs@)[i as int] == xs@[i as int]@);
        walk_signatures(&xs[i].methods, out);
        proof {
            assert(impls_refs(impl_definitions_v(xs@), i as int) =~= types_v(out@).skip(before.len() as int) + impls_refs(
                impl_definitions_v(xs@),
                i + 1,
            ));
            assert(types_v(out@) + impls_refs(impl_definitions_v(xs@), i + 1) =~= before + impls_refs(impl_definitions_v(xs@), i as int));
        }
        i = i + 1;
    }
    proof {
        assert(types_v(out@) + impls_refs(impl_definitions_v(xs@), i as int) =~= types_v(out@));
    }
}

fn nothing() -> (r: Vec<Type>)
    ensures
        types_v(r@) == Seq::<TypeV>::empty(),
{
    let v: Vec<Type> = Vec::new();
    proof {
        assert(types_v(v@) =~= Seq::<TypeV>::empty());
    }
    v
}

/// The generic applications and type parameters that a program refers to.
pub fn collect_instances(merged: &Program) -> (r: Vec<Type>)
    ensures
        types_v(r@) == program_refs(merged@),
{
    let mut out = nothing();
    walk_structs(&merged.structs, &mut out);
    walk_enums(&merged.enums, &mut out);
    walk_functions(&merged.functions, &mut out);
    walk_globals(&merged.globals, &mut out);
    walk_traits(&merged.traits, &mut out);
    walk_impls(&merged.impls, &mut out);
    proof {
        assert(types_v(out@) =~= program_refs(merged@));
    }
    out
}

fn find_struct_arity(xs: &Vec<StructDefinition>, name: &str) -> (r: Option<usize>)
    ensures
        match r {
            Some(n) => struct_arity(struct_definitions_v(xs@), name@, xs@.len() as int) == Some(n as nat),
            None => struct_arity(struct_definitions_v(xs@), name@, xs@.len() as int) is None,
        },
{
    let mut n: usize = xs.len();
    while n > 0
        invariant
            n <= xs@.len(),
            struct_arity(struct_definitions_v(xs@), name@, xs@.len() as int) == struct_arity(struct_definitions_v(xs@), name@, n as int),
        decreases n,
    {
        assert(struct_definitions_v(xs@)[n - 1] == xs@[n - 1]@);
        assert(xs@[n - 1]@.type_params.len() == xs@[n - 1].type_params@.len());
        if xs[n - 1].type_params.len() > 0 && text::text_eq(xs[n - 1].name.as_str(), name) {
            return Some(xs[n - 1].type_params.len());
        }
        n = n - 1;
    }
    None
}

fn find_enum_arity(xs: &Vec<EnumDefinition>, name: &str) -> (r: Option<usize>)
    ensures
        match r {
            Some(n) => enum_arity(enum_definitions_v(xs@), name@, xs@.len() as int) == Some(n as nat),
            None => enum_arity(enum_definitions_v(xs@), name@, xs@.len() as int) is None,
        },
{
    let mut n: usize = xs.len();
    while n > 0
        invariant
            n <= xs@.len(),
            enum_arity(enum_definitions_v(xs@), name@, xs@.len() as int) == enum_arity(enum_definitions_v(xs@), name@, n as int),
        decreases n,
    {
        assert(enum_definitions_v(xs@)[n - 1] == xs@[n - 1]@);
        assert(xs@[n - 1]@.type_params.len() == xs@[n - 1].type_params@.len());
        if xs[n - 1].type_params.len() > 0 && text::text_eq(xs[n - 1].name.as_str(), name) {
            return Some(xs[n - 1].type_params.len());
        }
        n = n - 1;
    }
    None
}

fn find_arity(p: &Program, name: &str) -> (r: Option<usize>)
    ensures
        match r {
            Some(n) => arity(p@, name@) == Some(n as nat),
            None => arity(p@, name@) is None,
        },
{
    proof {
        assert(p@.enums.len() == p.enums@.len());
        assert(p@.structs.len() == p.structs@.len());
    }
    match find_enum_arity(&p.enums, name) {
        Some(n) => Some(n),
        None => find_struct_arity(&p.structs, name),
    }
}

fn check_application(p: &Program, t: &Type) -> (r: Option<CompilationError>)
    ensures
        opt_error_v(r) == application_error(p@, t@),
{
    broadcast use lemma_type_v;

    match t {
        Type::Instance { base, args } => match find_arity(p, base.as_str()) {
            None => Some(
                type_error(
                    "type '".to_owned().concat(base.as_str()).concat(
                        "' is not generic but is used with type arguments",
                    ),
                ),
            ),
            Some(n) => {
                proof {
                    assert(types_v(args@).len() == args@.len());
                }
                if args.len() > n {
                    Some(
                        type_error(
                            "type '".to_owned().concat(base.as_str()).concat("' expects ").concat(
                                text::decimal(n as u64).as_str(),
                            ).concat(" type argument(s), got ").concat(text::decimal(args.len() as u64).as_str()),
                        ),
                    )
                } else {
                    None
                }
            },
        },
        _ => None,
    }
}

fn check_applications(p: &Program, ts: &Vec<Type>) -> (r: Option<CompilationError>)
    ensures
        opt_error_v(r) == applications_error(p@, types_v(ts@), 0),
{
    let mut i: usize = 0;
    while i < ts.len()
        invariant
            i <= ts@.len(),
            applications_error(p@, types_v(ts@), 0) == applications_error(p@, types_v(ts@), i as int),
        decreases ts@.len() - i,
    {
        assert(types_v(ts@)[i as int] == ts@[i as int]@);
        match check_application(p, &ts[i]) {
            Some(e) => return Some(e),
            None => {},
        }
        i = i + 1;
    }
    None
}

/// The names of type parameters.
pub fn names_of(ps: &Vec<TypeParam>) -> (r: Vec<String>)
    ensures
        text::texts(r@) == param_names(type_params_v(ps@)),
{
    let mut out: Vec<String> = Vec::new();
    let ghost all = param_names(type_params_v(ps@));
    let mut i: usize = 0;
    while i < ps.len()
        invariant
            i <= ps@.len(),
            all == param_names(type_params_v(ps@)),
            text::texts(out@) =~= all.take(i as int),
        decreases ps@.len() - i,
    {
        let n = ps[i].name.clone();
        proof {
            assert(type_params_v(ps@)[i as int] == ps@[i as int]@);
            assert(all.take(i + 1) =~= all.take(i as int).push(n@));
            assert(text::texts(out@.push(n)) =~= text::texts(out@).push(n@));
        }
        out.push(n);
        i = i + 1;
    }
    proof {
        assert(all.take(all.len() as int) =~= all);
    }
    out
}

/// Checks that the type parameters in a list are declared.
pub fn check_type_param_refs(ts: &Vec<Type>, declared: &Vec<String>, owner: &str) -> (r: Option<CompilationError>)
    ensures
        opt_error_v(r) == undeclared(types_v(ts@), text::texts(declared@), owner@, 0),
{
    let mut i: usize = 0;
    while i < ts.len()
        invariant
            i <= ts@.len(),
            undeclared(types_v(ts@), text::texts(declared@), owner@, 0) == undeclared(
                types_v(ts@),
                text::texts(declared@),
                owner@,
                i as int,
            ),
        decreases ts@.len() - i,
    {
        assert(types_v(ts@)[i as int] == ts@[i as int]@);
        match &ts[i] {
            Type::TypeParam(n) => {
                if !text::holds_text(declared, n.as_str()) {
                    return Some(
                        type_error(
                            "type parameter '".to_owned().concat(n.as_str()).concat("' used in '").concat(
                                owner,
                            ).concat("' is not declared"),
                        ),
                    );
                }
            },
            _ => {},
        }
        i = i + 1;
    }
    None
}

fn check_structs(xs: &Vec<StructDefinition>) -> (r: Option<CompilationError>)
    ensures
        opt_error_v(r) == structs_undeclared(struct_definitions_v(xs@), 0),
{
    let mut i: usize = 0;
    while i < xs.len()
        invariant
            i <= xs@.len(),
            structs_undeclared(struct_definitions_v(xs@), 0) == structs_undeclared(struct_definitions_v(xs@), i as int),
        decreases xs@.len() - i,
    {
        assert(struct_definitions_v(xs@)[i as int] == xs@[i as int]@);
        let mut refs = nothing();
        walk_fields(&xs[i].fields, &mut refs);
        assert(types_v(refs@) =~= fields_refs(xs@[i as int]@.fields, 0));
        match check_type_param_refs(&refs, &names_of(&xs[i].type_params), xs[i].name.as_str()) {
            Some(e) => return Some(e),
            None => {},
        }
        i = i + 1;
    }
    None
}

fn check_enums(xs: &Vec<EnumDefinition>) -> (r: Option<CompilationError>)
    ensures
        opt_error_v(r) == enums_undeclared(enum_definitions_v(xs@), 0),
{
    let mut i: usize = 0;
    while i < xs.len()
        invariant
            i <= xs@.len(),
            enums_undeclared(enum_definitions_v(xs@), 0) == enums_undeclared(enum_definitions_v(xs@), i as int),
        decreases xs@.len() - i,
    {
        assert(enum_definitions_v(xs@)[i as int] == xs@[i as int]@);
        let mut refs = nothing();
        walk_variants(&xs[i].variants, &mut refs);
        assert(types_v(refs@) =~= variants_refs(xs@[i as int]@.variants, 0));
        match check_type_param_refs(&refs, &names_of(&xs[i].type_params), xs[i].name.as_str()) {
            Some(e) => return Some(e),
            None => {},
        }
        i = i + 1;
    }
    None
}

fn check_functions(xs: &Vec<Function>) -> (r: Option<CompilationError>)
    ensures
        opt_error_v(r) == functions_undeclared(functions_v(xs@), 0),
{
    let mut i: usize = 0;
    while i < xs.len()
        invariant
            i <= xs@.len(),
            functions_undeclared(functions_v(xs@), 0) == functions_undeclared(functions_v(xs@), i as int),
        decreases xs@.len() - i,
    {
        assert(functions_v(xs@)[i as int] == xs@[i as int]@);
        let mut refs = nothing();
        walk_function(&xs[i], &mut refs);
        assert(types_v(refs@) =~= function_refs(xs@[i as int]@));
        match check_type_param_refs(&refs, &names_of(&xs[i].type_params), xs[i].name.as_str()) {
            Some(e) => return Some(e),
            None => {},
        }
        i = i + 1;
    }
    None
}

fn check_methods(xs: &Vec<Function>, declared: &Vec<String>, owner: &str) -> (r: Option<CompilationError>)
    ensures
        opt_error_v(r) == methods_undeclared(functions_v(xs@), text::texts(declared@), owner@, 0),
{
    let mut i: usize = 0;
    while i < xs.len()
        invariant
            i <= xs@.len(),
            methods_undeclared(functions_v(xs@), text::texts(declared@), owner@, 0) == methods_undeclared(functions_v(xs@), text::texts(declared@), owner@, i as int),
        decreases xs@.len() - i,
    {
        assert(functions_v(xs@)[i as int] == xs@[i as int]@);
        let mut all = text::copy_texts(declared, declared.len());
        assert(text::texts(all@) =~= text::texts(declared@));
        let mut own = names_of(&xs[i].type_params);
        let ghost own_v = own@;
        let ghost all_v = all@;
        all.append(&mut own);
        assert(text::texts(all@) =~= text::texts(all_v) + text::texts(own_v));
        let mut refs = nothing();
        walk_signature(&xs[i], &mut refs);
        assert(types_v(refs@) =~= signature_refs(xs@[i as int]@));
        match check_type_param_refs(&refs, &all, owner) {
            Some(e) => return Some(e),
            None => {},
        }
        i = i + 1;
    }
    None
}

fn check_traits(xs: &Vec<TraitDefinition>) -> (r: Option<CompilationError>)
    ensures
        opt_error_v(r) == traits_undeclared(trait_definitions_v(xs@), 0),
{
    let mut i: usize = 0;
    while i < xs.len()
        invariant
            i <= xs@.len(),
            traits_undeclared(trait_definitions_v(xs@), 0) == traits_undeclared(trait_definitions_v(xs@), i as int),
        decreases xs@.len() - i,
    {
        assert(trait_definitions_v(xs@)[i as int] == xs@[i as int]@);
        match check_methods(&xs[i].methods, &names_of(&xs[i].params), xs[i].name.as_str()) {
            Some(e) => return Some(e),
            None => {},
        }
        i = i + 1;
    }
    None
}

fn check_impls(xs: &Vec<ImplDefinition>) -> (r: Option<CompilationError>)
    ensures
        opt_error_v(r) == impls_undeclared(impl_definitions_v(xs@), 0),
{
    let mut i: usize = 0;
    while i < xs.len()
        invariant
            i <= xs@.len(),
            impls_undeclared(impl_definitions_v(xs@), 0) == impls_undeclared(impl_definitions_v(xs@), i as int),
        decreases xs@.len() - i,
    {
        assert(impl_definitions_v(xs@)[i as int] == xs@[i as int]@);
        match check_methods(&xs[i].methods, &names_of(&xs[i].params), xs[i].name.as_str()) {
            Some(e) => return Some(e),
            None => {},
        }
        i = i + 1;
    }
    None
}

/// Checks that every type parameter is declared where it is used.
pub fn validate_type_param_scopes(merged: &Program) -> (r: Result<(), CompilationError>)
    ensures
        match r {
            Ok(_) => scopes_error(merged@) is None,
            Err(e) => scopes_error(merged@) == Some(e@),
        },
{
    match check_structs(&merged.structs) {
        Some(e) => return Err(e),
        None => {},
    }
    match check_enums(&merged.enums) {
        Some(e) => return Err(e),
        None => {},
    }
    match check_functions(&merged.functions) {
        Some(e) => return Err(e),
        None => {},
    }
    match check_traits(&merged.traits) {
        Some(e) => return Err(e),
        None => {},
    }
    match check_impls(&merged.impls) {
        Some(e) => Err(e),
        None => Ok(()),
    }
}

/// Checks that the generic definitions of a program are used as declared: every application is
/// one of a generic definition with no more arguments than it has parameters, and every type
/// parameter is declared by the definition that uses it.
pub fn validate_generics(merged: &Program) -> (r: Result<(), CompilationError>)
    ensures
        match r {
            Ok(_) => generics_error(merged@) is None,
            Err(e) => generics_error(merged@) == Some(e@),
        },
{
    let refs = collect_instances(merged);
    match check_applications(merged, &refs) {
        Some(e) => return Err(e),
        None => {},
    }
    validate_type_param_scopes(merged)
}

} // verus!
