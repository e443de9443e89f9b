//! Replacing type parameters by types.
use crate::ast::{arm_v, arms_v, block_v, copy_expr, copy_literal, exprs_v, init_v, inits_v, lemma_block_v,
    lemma_expr_v, lemma_stmt_v, no_expr, no_stmt, opt_expr_v, stmts_v, Block, BlockV, Expr, ExprKind,
    ExprKindV, ExprV, FieldInit, FieldInitV, MatchArm, MatchArmV, MatchStmt, Stmt, StmtKind, StmtKindV,
    StmtV};
use crate::decl::{copy_metadatas, copy_type_params, param_v, params_v, Function, FunctionV, Param, ParamV};
use crate::text;
use crate::types::{copy_type, lemma_type_v, opt_type_v, type_v, types_v, Type, TypeV};
use vstd::prelude::*;

verus! {

/// The last value of a name in a list of pairs.
pub open spec fn last_of<V>(m: Seq<(Seq<char>, V)>, k: Seq<char>) -> Option<V>
    decreases m.len(),
{
    if m.len() == 0 {
        None
    } else if m.last().0 == k {
        Some(m.last().1)
    } else {
        last_of(m.drop_last(), k)
    }
}

/// The contents of a list of types by name.
pub open spec fn type_pairs_v(m: Seq<(String, Type)>) -> Seq<(Seq<char>, TypeV)> {
    m.map_values(|p: (String, Type)| (p.0@, type_v(p.1)))
}

/// The type that a name stands for.
pub fn find_type(m: &Vec<(String, Type)>, k: &str) -> (r: Option<Type>)
    ensures
        opt_type_v(r) == last_of(type_pairs_v(m@), k@),
{
    let mut n: usize = m.len();
    proof {
        assert(type_pairs_v(m@).take(n as int) =~= type_pairs_v(m@));
    }
    while n > 0
        invariant
            n <= m@.len(),
            last_of(type_pairs_v(m@), k@) == last_of(type_pairs_v(m@).take(n as int), k@),
        decreases n,
    {
        proof {
            let t = type_pairs_v(m@).take(n as int);
            assert(t.last() == (m@[n - 1].0@, type_v(m@[n - 1].1)));
            assert(t.drop_last() =~= type_pairs_v(m@).take(n - 1));
        }
        if text::text_eq(m[n - 1].0.as_str(), k) {
            return Some(copy_type(&m[n - 1].1));
        }
        n = n - 1;
    }
    None
}

/// A type with its type parameters replaced.
pub open spec fn subst(t: TypeV, m: Seq<(Seq<char>, TypeV)>) -> TypeV
    decreases t,
{
    match t {
        TypeV::TypeParam(name) => match last_of(m, name) {
            Some(u) => u,
            None => t,
        },
        TypeV::Instance { base, args } => TypeV::Instance { base, args: subst_all(args, m) },
        TypeV::Ptr(x) => TypeV::Ptr(Box::new(subst(*x, m))),
        TypeV::Tuple(xs) => TypeV::Tuple(subst_all(xs, m)),
        TypeV::CArray(x, n) => TypeV::CArray(Box::new(subst(*x, m)), n),
        TypeV::Function { param_tys, ret_ty } => TypeV::Function {
            param_tys: subst_all(param_tys, m),
            ret_ty: Box::new(subst(*ret_ty, m)),
        },
        _ => t,
    }
}

/// Types with their type parameters replaced.
pub open spec fn subst_all(ts: Seq<TypeV>, m: Seq<(Seq<char>, TypeV)>) -> Seq<TypeV>
    decreases ts,
{
    Seq::new(ts.len(), |i: int| if 0 <= i < ts.len() { subst(ts[i], m) } else { TypeV::Void })
}

/// An optional type with its type parameters replaced.
pub open spec fn subst_opt(t: Option<TypeV>, m: Seq<(Seq<char>, TypeV)>) -> Option<TypeV> {
    match t {
        Some(x) => Some(subst(x, m)),
        None => None,
    }
}

/// Whether a type has no type parameter in it.
pub open spec fn concrete(t: TypeV) -> bool
    decreases t,
{
    match t {
        TypeV::TypeParam(_) => false,
        TypeV::Instance { args, .. } => all_concrete(args),
        TypeV::Ptr(x) => concrete(*x),
        TypeV::Tuple(xs) => all_concrete(xs),
        TypeV::CArray(x, _) => concrete(*x),
        TypeV::Function { param_tys, ret_ty } => concrete(*ret_ty) && all_concrete(param_tys),
        _ => true,
    }
}

/// Whether no type of a list has a type parameter in it.
pub open spec fn all_concrete(ts: Seq<TypeV>) -> bool
    decreases ts,
{
    forall|i: int| 0 <= i < ts.len() ==> concrete(#[trigger] ts[i])
}

/// Replacing type parameters changes nothing in a type that has none.
pub proof fn law_concrete_types_are_fixed(t: TypeV, m: Seq<(Seq<char>, TypeV)>)
    requires
        concrete(t),
    ensures
        subst(t, m) == t,
    decreases t,
{
    match t {
        TypeV::Instance { base, args } => {
            lemma_all_fixed(args, m);
        },
        TypeV::Ptr(x) => {
            law_concrete_types_are_fixed(*x, m);
        },
        TypeV::Tuple(xs) => {
            lemma_all_fixed(xs, m);
        },
        TypeV::CArray(x, n) => {
            law_concrete_types_are_fixed(*x, m);
        },
        TypeV::Function { param_tys, ret_ty } => {
            law_concrete_types_are_fixed(*ret_ty, m);
            lemma_all_fixed(param_tys, m);
        },
        _ => {},
    }
}

proof fn lemma_all_fixed(ts: Seq<TypeV>, m: Seq<(Seq<char>, TypeV)>)
    requires
        all_concrete(ts),
    ensures
        subst_all(ts, m) == ts,
    decreases ts,
{
    assert forall|i: int| 0 <= i < ts.len() implies subst(#[trigger] ts[i], m) == ts[i] by {
        law_concrete_types_are_fixed(ts[i], m);
    }
    assert(subst_all(ts, m) =~= ts);
}

/// Replacing all type parameters of a type by concrete types makes it concrete.
pub proof fn law_full_substitution_is_concrete(t: TypeV, m: Seq<(Seq<char>, TypeV)>)
    requires
        forall|n: Seq<char>| mentions(t, n) ==> last_of(m, n) is Some && concrete(#[trigger] last_of(m, n)->0),
    ensures
        concrete(subst(t, m)),
    decreases t,
{
    match t {
        TypeV::TypeParam(n) => {
            assert(mentions(t, n));
            assert(concrete(last_of(m, n)->0));
        },
        TypeV::Instance { base, args } => {
            lemma_full_list(t, args, m);
        },
        TypeV::Ptr(x) => {
            assert forall|n: Seq<char>| mentions(*x, n) implies last_of(m, n) is Some && concrete(
                #[trigger] last_of(m, n)->0,
            ) by {
                assert(mentions(t, n));
            }
            law_full_substitution_is_concrete(*x, m);
        },
        TypeV::Tuple(xs) => {
            lemma_full_list(t, xs, m);
        },
        TypeV::CArray(x, k) => {
            assert forall|n: Seq<char>| mentions(*x, n) implies last_of(m, n) is Some && concrete(
                #[trigger] last_of(m, n)->0,
            ) by {
                assert(mentions(t, n));
            }
            law_full_substitution_is_concrete(*x, m);
        },
        TypeV::Function { param_tys, ret_ty } => {
            assert forall|n: Seq<char>| mentions(*ret_ty, n) implies last_of(m, n) is Some && concrete(
                #[trigger] last_of(m, n)->0,
            ) by {
                assert(mentions(t, n));
            }
            law_full_substitution_is_concrete(*ret_ty, m);
            lemma_full_list(t, param_tys, m);
        },
        _ => {},
    }
}

proof fn lemma_full_list(t: TypeV, ts: Seq<TypeV>, m: Seq<(Seq<char>, TypeV)>)
    requires
        forall|n: Seq<char>| mentions(t, n) ==> last_of(m, n) is Some && concrete(#[trigger] last_of(m, n)->0),
        forall|n: Seq<char>| some_mentions(ts, n) ==> #[trigger] mentions(t, n),
    ensures
        all_concrete(subst_all(ts, m)),
    decreases ts,
{
    assert forall|i: int| 0 <= i < ts.len() implies concrete(#[trigger] subst_all(ts, m)[i]) by {
        assert forall|n: Seq<char>| mentions(ts[i], n) implies last_of(m, n) is Some && concrete(
            #[trigger] last_of(m, n)->0,
        ) by {
            assert(some_mentions(ts, n));
            assert(mentions(t, n));
        }
        law_full_substitution_is_concrete(ts[i], m);
    }
}

/// Whether a type mentions the given type parameter.
pub open spec fn mentions(t: TypeV, n: Seq<char>) -> bool
    decreases t,
{
    match t {
        TypeV::TypeParam(name) => name == n,
        TypeV::Instance { args, .. } => some_mentions(args, n),
        TypeV::Ptr(x) => mentions(*x, n),
        TypeV::Tuple(xs) => some_mentions(xs, n),
        TypeV::CArray(x, _) => mentions(*x, n),
        TypeV::Function { param_tys, ret_ty } => mentions(*ret_ty, n) || some_mentions(param_tys, n),
        _ => false,
    }
}

/// Whether some type of a list mentions the given type parameter.
pub open spec fn some_mentions(ts: Seq<TypeV>, n: Seq<char>) -> bool
    decreases ts,
{
    exists|i: int| 0 <= i < ts.len() && mentions(#[trigger] ts[i], n)
}

/// Whether a type has no type parameter in it.
pub fn is_concrete(t: &Type) -> (r: bool)
    ensures
        r == concrete(t@),
    decreases *t,
{
    broadcast use lemma_type_v;

    match t {
        Type::TypeParam(_) => false,
        Type::Instance { base: _, args } => are_concrete(args),
        Type::Ptr(x) => is_concrete(x),
        Type::Tuple(xs) => are_concrete(xs),
        Type::CArray(x, _) => is_concrete(x),
        Type::Function { param_tys, ret_ty } => is_concrete(ret_ty) && are_concrete(param_tys),
        _ => true,
    }
}

fn are_concrete(ts: &Vec<Type>) -> (r: bool)
    ensures
        r == all_concrete(types_v(ts@)),
    decreases *ts,
{
    let mut i: usize = 0;
    while i < ts.len()
        invariant
            i <= ts@.len(),
            forall|j: int| 0 <= j < i ==> concrete(#[trigger] types_v(ts@)[j]),
        decreases ts@.len() - i,
    {
        assert(types_v(ts@)[i as int] == ts@[i as int]@);
        if !is_concrete(&ts[i]) {
            return false;
        }
        i = i + 1;
    }
    true
}

/// Replaces the type parameters of a type.
pub fn substitute_type(t: &Type, m: &Vec<(String, Type)>) -> (r: Type)
    ensures
        r@ == subst(t@, type_pairs_v(m@)),
    decreases *t,
{
    broadcast use lemma_type_v;

    match t {
        Type::TypeParam(name) => match find_type(m, name.as_str()) {
            Some(u) => u,
            None => copy_type(t),
        },
        Type::Instance { base, args } => Type::Instance { base: base.clone(), args: substitute_types(args, m) },
        Type::Ptr(x) => Type::Ptr(Box::new(substitute_type(x, m))),
        Type::Tuple(xs) => Type::Tuple(substitute_types(xs, m)),
        Type::CArray(x, n) => Type::CArray(Box::new(substitute_type(x, m)), *n),
        Type::Function { param_tys, ret_ty } => Type::Function {
            param_tys: substitute_types(param_tys, m),
            ret_ty: Box::new(substitute_type(ret_ty, m)),
        },
        _ => copy_type(t),
    }
}

fn substitute_types(ts: &Vec<Type>, m: &Vec<(String, Type)>) -> (r: Vec<Type>)
    ensures
        types_v(r@) == subst_all(types_v(ts@), type_pairs_v(m@)),
    decreases *ts,
{
    let mut out: Vec<Type> = Vec::new();
    let mut i: usize = 0;
    let ghost all = subst_all(types_v(ts@), type_pairs_v(m@));
    while i < ts.len()
        invariant
            i <= ts@.len(),
            all == subst_all(types_v(ts@), type_pairs_v(m@)),
            types_v(out@) =~= all.take(i as int),
        decreases ts@.len() - i,
    {
        let c = substitute_type(&ts[i], m);
        proof {
            assert(all.take(i + 1) =~= all.take(i as int).push(c@));
            assert(types_v(out@.push(c)) =~= types_v(out@).push(c@));
        }
        out.push(c);
        i = i + 1;
    }
    proof {
        assert(all.take(ts@.len() as int) =~= all);
    }
    out
}

/// Replaces the type parameters of an optional type.
pub fn substitute_opt(t: &Option<Type>, m: &Vec<(String, Type)>) -> (r: Option<Type>)
    ensures
        opt_type_v(r) == subst_opt(opt_type_v(*t), type_pairs_v(m@)),
{
    match t {
        Some(x) => Some(substitute_type(x, m)),
        None => None,
    }
}

/// An expression with the type parameters in its struct annotations replaced.
pub open spec fn subst_expr(e: ExprV, m: Seq<(Seq<char>, TypeV)>) -> ExprV
    decreases e,
{
    ExprV {
        kind: match e.kind {
            ExprKindV::Call { callee, args } => ExprKindV::Call {
                callee: Box::new(subst_expr(*callee, m)),
                args: subst_exprs(args, m),
            },
            ExprKindV::UnaryOp { op, expr } => ExprKindV::UnaryOp { op, expr: Box::new(subst_expr(*expr, m)) },
            ExprKindV::BinaryOp { op, left, right } => ExprKindV::BinaryOp {
                op,
                left: Box::new(subst_expr(*left, m)),
                right: Box::new(subst_expr(*right, m)),
            },
            ExprKindV::Assign { op, left, right } => ExprKindV::Assign {
                op,
                left: Box::new(subst_expr(*left, m)),
                right: Box::new(subst_expr(*right, m)),
            },
            ExprKindV::If { cond, then_branch, else_branch } => ExprKindV::If {
                cond: Box::new(subst_expr(*cond, m)),
                then_branch: Box::new(subst_expr(*then_branch, m)),
                else_branch: Box::new(subst_expr(*else_branch, m)),
            },
            ExprKindV::RangeLiteral { start, end } => ExprKindV::RangeLiteral {
                start: Box::new(subst_expr(*start, m)),
                end: Box::new(subst_expr(*end, m)),
            },
            ExprKindV::StructInit { struct_type, fields } => ExprKindV::StructInit {
                struct_type: subst_opt(struct_type, m),
                fields: subst_inits(fields, m),
            },
            ExprKindV::FieldAccess { expr, field_name } => ExprKindV::FieldAccess {
                expr: Box::new(subst_expr(*expr, m)),
                field_name,
            },
            ExprKindV::Index { expr, index } => ExprKindV::Index {
                expr: Box::new(subst_expr(*expr, m)),
                index: Box::new(subst_expr(*index, m)),
            },
            ExprKindV::ArrayLiteral { elements } => ExprKindV::ArrayLiteral { elements: subst_exprs(elements, m) },
            ExprKindV::TupleLit { elements } => ExprKindV::TupleLit { elements: subst_exprs(elements, m) },
            ExprKindV::EnumInit { enum_name, variant_name, args } => ExprKindV::EnumInit {
                enum_name,
                variant_name,
                args: subst_exprs(args, m),
            },
            other => other,
        },
        ty: e.ty,
        span: e.span,
    }
}

/// Expressions with the type parameters in their struct annotations replaced.
pub open spec fn subst_exprs(es: Seq<ExprV>, m: Seq<(Seq<char>, TypeV)>) -> Seq<ExprV>
    decreases es,
{
    Seq::new(es.len(), |i: int| if 0 <= i < es.len() { subst_expr(es[i], m) } else { no_expr() })
}

/// Field values with the type parameters in their struct annotations replaced.
pub open spec fn subst_inits(fs: Seq<FieldInitV>, m: Seq<(Seq<char>, TypeV)>) -> Seq<FieldInitV>
    decreases fs,
{
    Seq::new(
        fs.len(),
        |i: int|
            if 0 <= i < fs.len() {
                FieldInitV { name: fs[i].name, value: subst_expr(fs[i].value, m) }
            } else {
                FieldInitV { name: Seq::empty(), value: no_expr() }
            },
    )
}

/// An optional expression with the type parameters in its struct annotations replaced.
pub open spec fn subst_opt_expr(e: Option<ExprV>, m: Seq<(Seq<char>, TypeV)>) -> Option<ExprV> {
    match e {
        Some(x) => Some(subst_expr(x, m)),
        None => None,
    }
}

/// Replaces the type parameters in the struct annotations of an expression.
pub fn substitute_expr_annotations(e: &Expr, m: &Vec<(String, Type)>) -> (r: Expr)
    ensures
        r@ == subst_expr(e@, type_pairs_v(m@)),
    decreases *e,
{
    broadcast use lemma_expr_v;

    let kind = match &e.kind {
        ExprKind::Call { callee, args } => ExprKind::Call {
            callee: Box::new(substitute_expr_annotations(callee, m)),
            args: substitute_exprs(args, m),
        },
        ExprKind::UnaryOp { op, expr } => ExprKind::UnaryOp {
            op: *op,
            expr: Box::new(substitute_expr_annotations(expr, m)),
        },
        ExprKind::BinaryOp { op, left, right } => ExprKind::BinaryOp {
            op: *op,
            left: Box::new(substitute_expr_annotations(left, m)),
            right: Box::new(substitute_expr_annotations(right, m)),
        },
        ExprKind::Assign { op, left, right } => ExprKind::Assign {
            op: *op,
            left: Box::new(substitute_expr_annotations(left, m)),
            right: Box::new(substitute_expr_annotations(right, m)),
        },
        ExprKind::If { cond, then_branch, else_branch } => ExprKind::If {
            cond: Box::new(substitute_expr_annotations(cond, m)),
            then_branch: Box::new(substitute_expr_annotations(then_branch, m)),
            else_branch: Box::new(substitute_expr_annotations(else_branch, m)),
        },
        ExprKind::RangeLiteral { start, end } => ExprKind::RangeLiteral {
            start: Box::new(substitute_expr_annotations(start, m)),
            end: Box::new(substitute_expr_annotations(end, m)),
        },
        ExprKind::StructInit { struct_type, fields } => ExprKind::StructInit {
            struct_type: substitute_opt(struct_type, m),
            fields: substitute_inits(fields, m),
        },
        ExprKind::FieldAccess { expr, field_name } => ExprKind::FieldAccess {
            expr: Box::new(substitute_expr_annotations(expr, m)),
            field_name: field_name.clone(),
        },
        ExprKind::Index { expr, index } => ExprKind::Index {
            expr: Box::new(substitute_expr_annotations(expr, m)),
            index: Box::new(substitute_expr_annotations(index, m)),
        },
        ExprKind::ArrayLiteral { elements } => ExprKind::ArrayLiteral { elements: substitute_exprs(elements, m) },
        ExprKind::TupleLit { elements } => ExprKind::TupleLit { elements: substitute_exprs(elements, m) },
        ExprKind::EnumInit { enum_name, variant_name, args } => ExprKind::EnumInit {
            enum_name: enum_name.clone(),
            variant_name: variant_name.clone(),
            args: substitute_exprs(args, m),
        },
        ExprKind::Identifier { name } => ExprKind::Identifier { name: name.clone() },
        ExprKind::Literal { value } => ExprKind::Literal { value: copy_literal(value) },
        ExprKind::EnumVariant { enum_name, variant_name } => ExprKind::EnumVariant {
            enum_name: enum_name.clone(),
            variant_name: variant_name.clone(),
        },
    };
    Expr { kind, ty: e.ty, span: e.span }
}

fn substitute_exprs(es: &Vec<Expr>, m: &Vec<(String, Type)>) -> (r: Vec<Expr>)
    ensures
        exprs_v(r@) == subst_exprs(exprs_v(es@), type_pairs_v(m@)),
    decreases *es,
{
    let mut out: Vec<Expr> = Vec::new();
    let mut i: usize = 0;
    let ghost all = subst_exprs(exprs_v(es@), type_pairs_v(m@));
    while i < es.len()
        invariant
            i <= es@.len(),
            all == subst_exprs(exprs_v(es@), type_pairs_v(m@)),
            exprs_v(out@) =~= all.take(i as int),
        decreases es@.len() - i,
    {
        let c = substitute_expr_annotations(&es[i], m);
        proof {
            assert(all.take(i + 1) =~= all.take(i as int).push(c@));
            assert(exprs_v(out@.push(c)) =~= exprs_v(out@).push(c@));
        }
        out.push(c);
        i = i + 1;
    }
    proof {
        assert(all.take(es@.len() as int) =~= all);
    }
    out
}

fn substitute_inits(fs: &Vec<FieldInit>, m: &Vec<(String, Type)>) -> (r: Vec<FieldInit>)
    ensures
        inits_v(r@) == subst_inits(inits_v(fs@), type_pairs_v(m@)),
    decreases *fs,
{
    let mut out: Vec<FieldInit> = Vec::new();
    let mut i: usize = 0;
    let ghost all = subst_inits(inits_v(fs@), type_pairs_v(m@));
    while i < fs.len()
        invariant
            i <= fs@.len(),
            all == subst_inits(inits_v(fs@), type_pairs_v(m@)),
            inits_v(out@) =~= all.take(i as int),
        decreases fs@.len() - i,
    {
        let c = FieldInit { name: fs[i].name.clone(), value: substitute_expr_annotations(&fs[i].value, m) };
        proof {
            assert(inits_v(fs@)[i as int] == init_v(fs@[i as int]));
            assert(all.take(i + 1) =~= all.take(i as int).push(init_v(c)));
            assert(inits_v(out@.push(c)) =~= inits_v(out@).push(init_v(c)));
        }
        out.push(c);
        i = i + 1;
    }
    proof {
        assert(all.take(fs@.len() as int) =~= all);
    }
    out
}

/// Replaces the type parameters in the struct annotations of an optional expression.
pub fn substitute_opt_expr(e: &Option<Expr>, m: &Vec<(String, Type)>) -> (r: Option<Expr>)
    ensures
        opt_expr_v(r) == subst_opt_expr(opt_expr_v(*e), type_pairs_v(m@)),
{
    match e {
        Some(x) => Some(substitute_expr_annotations(x, m)),
        None => None,
    }
}

/// A statement with the type parameters in its annotations replaced.
pub open spec fn subst_stmt(s: StmtV, m: Seq<(Seq<char>, TypeV)>) -> StmtV
    decreases s,
{
    StmtV {
        kind: match s.kind {
            StmtKindV::VarDecl { name, annotation, inferred, init } => StmtKindV::VarDecl {
                name,
                annotation: subst_opt(annotation, m),
                inferred,
                init: subst_opt_expr(init, m),
            },
            StmtKindV::Expr(e) => StmtKindV::Expr(subst_expr(e, m)),
            StmtKindV::Return(e) => StmtKindV::Return(subst_opt_expr(e, m)),
            StmtKindV::If { cond, then_branch, else_branch } => StmtKindV::If {
                cond: subst_expr(cond, m),
                then_branch: subst_block(then_branch, m),
                else_branch: match else_branch {
                    Some(b) => Some(subst_block(b, m)),
                    None => None,
                },
            },
            StmtKindV::While { cond, body } => StmtKindV::While { cond: subst_expr(cond, m), body: subst_block(body, m) },
            StmtKindV::For { var, iter, body } => StmtKindV::For {
                var,
                iter: subst_expr(iter, m),
                body: subst_block(body, m),
            },
            StmtKindV::Match { expr, arms } => StmtKindV::Match { expr: subst_expr(expr, m), arms: subst_arms(arms, m) },
            StmtKindV::Defer { body } => StmtKindV::Defer { body: Box::new(subst_stmt(*body, m)) },
            StmtKindV::Block(b) => StmtKindV::Block(subst_block(b, m)),
            StmtKindV::Break => StmtKindV::Break,
            StmtKindV::Continue => StmtKindV::Continue,
        },
        span: s.span,
    }
}

/// A block with the type parameters in its annotations replaced.
pub open spec fn subst_block(b: BlockV, m: Seq<(Seq<char>, TypeV)>) -> BlockV
    decreases b,
{
    BlockV { stmts: subst_stmts(b.stmts, m) }
}

/// Statements with the type parameters in their annotations replaced.
pub open spec fn subst_stmts(ss: Seq<StmtV>, m: Seq<(Seq<char>, TypeV)>) -> Seq<StmtV>
    decreases ss,
{
    Seq::new(ss.len(), |i: int| if 0 <= i < ss.len() { subst_stmt(ss[i], m) } else { no_stmt() })
}

/// Match arms with the type parameters in the annotations of their bodies replaced.
pub open spec fn subst_arms(xs: Seq<MatchArmV>, m: Seq<(Seq<char>, TypeV)>) -> Seq<MatchArmV>
    decreases xs,
{
    Seq::new(
        xs.len(),
        |i: int|
            if 0 <= i < xs.len() {
                MatchArmV { pattern: xs[i].pattern, body: subst_block(xs[i].body, m) }
            } else {
                MatchArmV { pattern: no_expr(), body: BlockV { stmts: Seq::empty() } }
            },
    )
}

/// Replaces the type parameters in the annotations of a statement.
pub fn substitute_stmt_annotations(s: &Stmt, m: &Vec<(String, Type)>) -> (r: Stmt)
    ensures
        r@ == subst_stmt(s@, type_pairs_v(m@)),
    decreases *s,
{
    broadcast use lemma_stmt_v;

    let kind = match &s.kind {
        StmtKind::VarDecl { name, annotation, inferred, init } => StmtKind::VarDecl {
            name: name.clone(),
            annotation: substitute_opt(annotation, m),
            inferred: *inferred,
            init: substitute_opt_expr(init, m),
        },
        StmtKind::Expr(e) => StmtKind::Expr(substitute_expr_annotations(e, m)),
        StmtKind::Return(e) => StmtKind::Return(substitute_opt_expr(e, m)),
        StmtKind::If { cond, then_branch, else_branch } => StmtKind::If {
            cond: substitute_expr_annotations(cond, m),
            then_branch: substitute_block(then_branch, m),
            else_branch: match else_branch {
                Some(b) => Some(substitute_block(b, m)),
                None => None,
            },
        },
        StmtKind::While { cond, body } => StmtKind::While {
            cond: substitute_expr_annotations(cond, m),
            body: substitute_block(body, m),
        },
        StmtKind::For { var, iter, body } => StmtKind::For {
            var: var.clone(),
            iter: substitute_expr_annotations(iter, m),
            body: substitute_block(body, m),
        },
        StmtKind::Match(x) => StmtKind::Match(
            MatchStmt { expr: substitute_expr_annotations(&x.expr, m), arms: substitute_arms(&x.arms, m) },
        ),
        StmtKind::Defer { body } => StmtKind::Defer { body: Box::new(substitute_stmt_annotations(body, m)) },
        StmtKind::Block(b) => StmtKind::Block(substitute_block(b, m)),
        StmtKind::Break => StmtKind::Break,
        StmtKind::Continue => StmtKind::Continue,
    };
    Stmt { kind, span: s.span }
}

/// Replaces the type parameters in the annotations of a block.
pub fn substitute_block(b: &Block, m: &Vec<(String, Type)>) -> (r: Block)
    ensures
        block_v(r) == subst_block(block_v(*b), type_pairs_v(m@)),
    decreases *b,
{
    broadcast use lemma_block_v;

    let mut out: Vec<Stmt> = Vec::new();
    let mut i: usize = 0;
    let ghost all = subst_stmts(stmts_v(b.stmts@), type_pairs_v(m@));
    while i < b.stmts.len()
        invariant
            i <= b.stmts@.len(),
            all == subst_stmts(stmts_v(b.stmts@), type_pairs_v(m@)),
            stmts_v(out@) =~= all.take(i as int),
        decreases b.stmts@.len() - i,
    {
        let c = substitute_stmt_annotations(&b.stmts[i], m);
        proof {
            assert(all.take(i + 1) =~= all.take(i as int).push(c@));
            assert(stmts_v(out@.push(c)) =~= stmts_v(out@).push(c@));
        }
        out.push(c);
        i = i + 1;
    }
    proof {
        assert(all.take(b.stmts@.len() as int) =~= all);
    }
    Block { stmts: out }
}

fn substitute_arms(xs: &Vec<MatchArm>, m: &Vec<(String, Type)>) -> (r: Vec<MatchArm>)
    ensures
        arms_v(r@) == subst_arms(arms_v(xs@), type_pairs_v(m@)),
    decreases *xs,
{
    let mut out: Vec<MatchArm> = Vec::new();
    let mut i: usize = 0;
    let ghost all = subst_arms(arms_v(xs@), type_pairs_v(m@));
    while i < xs.len()
        invariant
            i <= xs@.len(),
            all == subst_arms(arms_v(xs@), type_pairs_v(m@)),
            arms_v(out@) =~= all.take(i as int),
        decreases xs@.len() - i,
    {
        let c = MatchArm { pattern: copy_expr(&xs[i].pattern), body: substitute_block(&xs[i].body, m) };
        proof {
            assert(arms_v(xs@)[i as int] == arm_v(xs@[i as int]));
            assert(all.take(i + 1) =~= all.take(i as int).push(arm_v(c)));
            assert(arms_v(out@.push(c)) =~= arms_v(out@).push(arm_v(c)));
        }
        out.push(c);
        i = i + 1;
    }
    proof {
        assert(all.take(xs@.len() as int) =~= all);
    }
    out
}

/// Parameters with the type parameters in their annotations replaced.
pub open spec fn subst_params(ps: Seq<ParamV>, m: Seq<(Seq<char>, TypeV)>) -> Seq<ParamV> {
    ps.map_values(|p: ParamV| ParamV { annotation: subst_opt(p.annotation, m), ..p })
}

/// A function with the type parameters in its annotations replaced.
pub open spec fn subst_function(f: FunctionV, m: Seq<(Seq<char>, TypeV)>) -> FunctionV {
    FunctionV {
        params: subst_params(f.params, m),
        return_type: subst_opt(f.return_type, m),
        body: subst_block(f.body, m),
        ..f
    }
}

/// Replaces the type parameters in the annotations of parameters.
pub fn substitute_params(ps: &Vec<Param>, m: &Vec<(String, Type)>) -> (r: Vec<Param>)
    ensures
        params_v(r@) == subst_params(params_v(ps@), type_pairs_v(m@)),
{
    let mut out: Vec<Param> = Vec::new();
    let mut i: usize = 0;
    let ghost all = subst_params(params_v(ps@), type_pairs_v(m@));
    while i < ps.len()
        invariant
            i <= ps@.len(),
            all == subst_params(params_v(ps@), type_pairs_v(m@)),
            params_v(out@) =~= all.take(i as int),
        decreases ps@.len() - i,
    {
        let c = Param { name: ps[i].name.clone(), annotation: substitute_opt(&ps[i].annotation, m), ty: ps[i].ty };
        proof {
            assert(params_v(ps@)[i as int] == param_v(ps@[i as int]));
            assert(all.take(i + 1) =~= all.take(i as int).push(param_v(c)));
            assert(params_v(out@.push(c)) =~= params_v(out@).push(param_v(c)));
        }
        out.push(c);
        i = i + 1;
    }
    proof {
        assert(all.take(ps@.len() as int) =~= all);
    }
    out
}

/// Replaces the type parameters in the annotations of a function.
pub fn substitute_function(f: &Function, m: &Vec<(String, Type)>) -> (r: Function)
    ensures
        r@ == subst_function(f@, type_pairs_v(m@)),
{
    Function {
        name: f.name.clone(),
        type_params: copy_type_params(&f.type_params),
        params: substitute_params(&f.params, m),
        return_type: substitute_opt(&f.return_type, m),
        inferred_return: f.inferred_return,
        body: substitute_block(&f.body, m),
        is_public: f.is_public,
        metadata: copy_metadatas(&f.metadata),
    }
}

} // verus!
