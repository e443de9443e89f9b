//! Type inference of expressions and patterns.
use crate::ast::{exprs_v, lemma_expr_parts, make_expr, AssignmentOperator, BinaryOperator, Expr, ExprKind,
    ExprKindV, ExprV, Span, UnaryOperator};
use crate::engine::TypeInferencer;
use crate::error::CompilationError;
use crate::infer_lookup::{enum_variant, finish, none_ids, none_types, retyped, typed_as};
use crate::infer_spec::{assign_typed, binary_typed, branches_typed, conditional_typed, element_typed,
    expr_inner_typed, expr_typed, field_access_typed, generic_pattern_typed, pattern_typed, range_typed, unary_typed,
    unresolved};
use crate::monomorph::{param_id_map, type_error};
use crate::symbols::EnumVariantInfo;
use crate::types::{Type, TypeId};
use vstd::prelude::*;

verus! {

impl TypeInferencer {
    /// Infers the type of an expression: the expression with its types filled in, and the type.
    pub fn infer_expr(&mut self, x: Expr, depth: usize) -> (r: (Expr, Result<TypeId, CompilationError>))
        ensures
            typed_as(final(self)@, r, expr_typed(depth as nat, old(self)@, x@)),
        decreases depth, 1int,
    {
        proof {
            lemma_expr_parts(x);
        }
        let span = x.span;
        let (y, res) = self.infer_expr_inner(x, depth);
        match res {
            Ok(id) => (y, Ok(id)),
            Err(err) => (y, Err(self.wrap_err(err, span))),
        }
    }

    #[verifier::rlimit(40)]
    fn infer_expr_inner(&mut self, x: Expr, depth: usize) -> (r: (Expr, Result<TypeId, CompilationError>))
        ensures
            typed_as(final(self)@, r, expr_inner_typed(depth as nat, old(self)@, x@)),
        decreases depth, 0int,
    {
        if depth == 0 {
            return (x, Err(type_error("definitions are nested too deeply".to_owned())));
        }
        let n: usize = depth - 1;
        proof {
            lemma_expr_parts(x);
        }
        let Expr { kind, ty, span } = x;
        match kind {
            ExprKind::Identifier { name } => self.infer_name(name, ty, span, n),
            ExprKind::Literal { value } => self.infer_literal_value(value, span),
            ExprKind::Call { callee, args } => self.infer_call(*callee, args, ty, span, n),
            ExprKind::UnaryOp { op, expr } => self.infer_unary(op, *expr, ty, span, n),
            ExprKind::BinaryOp { op, left, right } => self.infer_binary(op, *left, *right, ty, span, n),
            ExprKind::Assign { op, left, right } => self.infer_assign(op, *left, *right, ty, span, n),
            ExprKind::If { cond, then_branch, else_branch } => self.infer_if(
                *cond,
                *then_branch,
                *else_branch,
                ty,
                span,
                n,
            ),
            ExprKind::RangeLiteral { start, end } => self.infer_range(*start, *end, ty, span, n),
            ExprKind::StructInit { struct_type, fields } => self.infer_struct_value(struct_type, fields, ty, span, n),
            ExprKind::FieldAccess { expr, field_name } => self.infer_field(*expr, field_name, ty, span, n),
            ExprKind::EnumVariant { enum_name, variant_name } => self.infer_enum_variant(
                enum_name,
                variant_name,
                ty,
                span,
                n,
            ),
            ExprKind::EnumInit { enum_name, variant_name, args } => self.infer_enum_value(
                enum_name,
                variant_name,
                args,
                ty,
                span,
                n,
            ),
            ExprKind::ArrayLiteral { elements } => self.infer_array_value(elements, ty, span, n),
            ExprKind::TupleLit { elements } => self.infer_tuple_value(elements, ty, span, n),
            ExprKind::Index { expr, index } => self.infer_element(*expr, *index, ty, span, n),
        }
    }

    pub(crate) fn infer_unary(&mut self, op: UnaryOperator, x: Expr, ty: TypeId, span: Span, depth: usize) -> (r: (
        Expr,
        Result<TypeId, CompilationError>,
    ))
        ensures
            typed_as(final(self)@, r, unary_typed(depth as nat, old(self)@, op, x@, ty, span)),
        decreases depth, 5int,
    {
        let (y, res) = self.infer_expr(x, depth);
        let res = match res {
            Ok(t) => self.infer_unary_op(op, t),
            Err(err) => Err(err),
        };
        finish(ExprKind::UnaryOp { op, expr: Box::new(y) }, ty, span, res)
    }

    pub(crate) fn infer_binary(&mut self, op: BinaryOperator, left: Expr, right: Expr, ty: TypeId, span: Span, depth: usize) -> (r: (
        Expr,
        Result<TypeId, CompilationError>,
    ))
        ensures
            typed_as(final(self)@, r, binary_typed(depth as nat, old(self)@, op, left@, right@, ty, span)),
        decreases depth, 5int,
    {
        let (l, res) = self.infer_expr(left, depth);
        let lt = match res {
            Ok(t) => t,
            Err(err) => {
                return finish(
                    ExprKind::BinaryOp { op, left: Box::new(l), right: Box::new(right) },
                    ty,
                    span,
                    Err(err),
                );
            },
        };
        let (rx, res) = self.infer_expr(right, depth);
        let res = match res {
            Ok(rt) => self.infer_binary_op(op, lt, rt, depth),
            Err(err) => Err(err),
        };
        finish(ExprKind::BinaryOp { op, left: Box::new(l), right: Box::new(rx) }, ty, span, res)
    }

    pub(crate) fn infer_assign(&mut self, op: AssignmentOperator, left: Expr, right: Expr, ty: TypeId, span: Span, depth: usize) -> (r: (
        Expr,
        Result<TypeId, CompilationError>,
    ))
        ensures
            typed_as(final(self)@, r, assign_typed(depth as nat, old(self)@, op, left@, right@, ty, span)),
        decreases depth, 5int,
    {
        let (rx, res) = self.infer_expr(right, depth);
        let rt = match res {
            Ok(t) => t,
            Err(err) => {
                return finish(
                    ExprKind::Assign { op, left: Box::new(left), right: Box::new(rx) },
                    ty,
                    span,
                    Err(err),
                );
            },
        };
        let (l, res) = self.infer_expr(left, depth);
        let res = match res {
            Ok(lt) => self.make_one(lt, rt, depth),
            Err(err) => Err(err),
        };
        finish(ExprKind::Assign { op, left: Box::new(l), right: Box::new(rx) }, ty, span, res)
    }

    pub(crate) fn infer_if(&mut self, cond: Expr, then_branch: Expr, else_branch: Expr, ty: TypeId, span: Span, depth: usize) -> (r: (
        Expr,
        Result<TypeId, CompilationError>,
    ))
        ensures
            typed_as(final(self)@, r, conditional_typed(depth as nat, old(self)@, cond@, then_branch@, else_branch@, ty, span)),
        decreases depth, 5int,
    {
        let (c, res) = self.infer_expr(cond, depth);
        match self.check_condition(res, depth) {
            Ok(_) => self.infer_branches(c, then_branch, else_branch, ty, span, depth),
            Err(err) => finish(
                ExprKind::If {
                    cond: Box::new(c),
                    then_branch: Box::new(then_branch),
                    else_branch: Box::new(else_branch),
                },
                ty,
                span,
                Err(err),
            ),
        }
    }

    pub(crate) fn infer_branches(&mut self, cond: Expr, then_branch: Expr, else_branch: Expr, ty: TypeId, span: Span, depth: usize) -> (r: (
        Expr,
        Result<TypeId, CompilationError>,
    ))
        ensures
            typed_as(final(self)@, r, branches_typed(depth as nat, old(self)@, cond@, then_branch@, else_branch@, ty, span)),
        decreases depth, 4int,
    {
        let (a, res) = self.infer_expr(then_branch, depth);
        let at = match res {
            Ok(t) => t,
            Err(err) => {
                return finish(
                    ExprKind::If {
                        cond: Box::new(cond),
                        then_branch: Box::new(a),
                        else_branch: Box::new(else_branch),
                    },
                    ty,
                    span,
                    Err(err),
                );
            },
        };
        let (b, res) = self.infer_expr(else_branch, depth);
        let res = match res {
            Ok(bt) => self.make_one(at, bt, depth),
            Err(err) => Err(err),
        };
        finish(
            ExprKind::If { cond: Box::new(cond), then_branch: Box::new(a), else_branch: Box::new(b) },
            ty,
            span,
            res,
        )
    }

    pub(crate) fn infer_range(&mut self, start: Expr, end: Expr, ty: TypeId, span: Span, depth: usize) -> (r: (
        Expr,
        Result<TypeId, CompilationError>,
    ))
        ensures
            typed_as(final(self)@, r, range_typed(depth as nat, old(self)@, start@, end@, ty, span)),
        decreases depth, 5int,
    {
        let (a, res) = self.infer_expr(start, depth);
        let at = match res {
            Ok(t) => t,
            Err(err) => {
                return (
                    make_expr(ExprKind::RangeLiteral { start: Box::new(a), end: Box::new(end) }, ty, span),
                    Err(err),
                );
            },
        };
        let (b, res) = self.infer_expr(end, depth);
        let y = make_expr(ExprKind::RangeLiteral { start: Box::new(a), end: Box::new(b) }, ty, span);
        match res {
            Ok(bt) => {
                let res = self.check_range(at, bt, depth);
                (y, res)
            },
            Err(err) => (y, Err(err)),
        }
    }

    pub(crate) fn infer_field(&mut self, x: Expr, field_name: String, ty: TypeId, span: Span, depth: usize) -> (r: (
        Expr,
        Result<TypeId, CompilationError>,
    ))
        ensures
            typed_as(final(self)@, r, field_access_typed(depth as nat, old(self)@, x@, field_name@, ty, span)),
        decreases depth, 5int,
    {
        let (y, res) = self.infer_expr(x, depth);
        let res = match res {
            Ok(t) => self.infer_field_access(t, field_name.as_str(), depth),
            Err(err) => Err(err),
        };
        finish(ExprKind::FieldAccess { expr: Box::new(y), field_name }, ty, span, res)
    }

    pub(crate) fn infer_element(&mut self, x: Expr, index: Expr, ty: TypeId, span: Span, depth: usize) -> (r: (
        Expr,
        Result<TypeId, CompilationError>,
    ))
        ensures
            typed_as(final(self)@, r, element_typed(depth as nat, old(self)@, x@, index@, ty, span)),
        decreases depth, 5int,
    {
        let (y, res) = self.infer_expr(x, depth);
        match res {
            Ok(t) => {
                let (i, res) = self.infer_index(t, index, depth);
                finish(ExprKind::Index { expr: Box::new(y), index: Box::new(i) }, ty, span, res)
            },
            Err(err) => finish(
                ExprKind::Index { expr: Box::new(y), index: Box::new(index) },
                ty,
                span,
                Err(err),
            ),
        }
    }

    /// Infers the type of a pattern: the pattern with its types filled in, and the type.
    #[verifier::rlimit(40)]
    pub fn infer_pattern(&mut self, x: Expr, depth: usize) -> (r: (Expr, Result<TypeId, CompilationError>))
        ensures
            typed_as(final(self)@, r, pattern_typed(depth as nat, old(self)@, x@)),
        decreases depth, 1int, 1int,
    {
        if depth == 0 {
            return (x, Err(type_error("definitions are nested too deeply".to_owned())));
        }
        let n: usize = depth - 1;
        proof {
            lemma_expr_parts(x);
            if x.kind is Call {
                lemma_expr_parts(*x.kind->Call_callee);
            }
        }
        let name = match &x.kind {
            ExprKind::Identifier { name: _ } => {
                let id = self.unknown();
                return (retyped(x, id), Ok(id));
            },
            ExprKind::Call { callee, args: _ } => match &callee.kind {
                ExprKind::Identifier { name } => Some(name.clone()),
                _ => None,
            },
            _ => None,
        };
        let info = match &name {
            Some(s) => self.variant_info_by_simple_name(s.as_str()),
            None => None,
        };
        let info = match info {
            Some(i) => i,
            None => {
                return self.infer_expr(x, n);
            },
        };
        let Expr { kind, ty, span } = x;
        match kind {
            ExprKind::Call { callee, args } => {
                if self.is_template_enum(info.enum_name.as_str()) {
                    return self.infer_generic_enum_pattern(callee, args, ty, span, &info, n);
                }
                let id = self.known(Type::Named(info.enum_name.clone()));
                let (args, res) = self.infer_subpatterns(args, &info.arg_types, n);
                let y = make_expr(ExprKind::Call { callee, args }, id, span);
                match res {
                    Ok(_) => (y, Ok(id)),
                    Err(err) => (y, Err(err)),
                }
            },
            other => (make_expr(other, ty, span), Err(type_error("unresolved type".to_owned()))),
        }
    }

    pub(crate) fn infer_generic_enum_pattern(
        &mut self,
        callee: Box<Expr>,
        args: Vec<Expr>,
        ty: TypeId,
        span: Span,
        info: &EnumVariantInfo,
        depth: usize,
    ) -> (r: (Expr, Result<TypeId, CompilationError>))
        ensures
            typed_as(
                final(self)@,
                r,
                generic_pattern_typed(
                    depth as nat,
                    old(self)@,
                    ExprV {
                        kind: ExprKindV::Call { callee: Box::new(callee@), args: exprs_v(args@) },
                        ty,
                        span,
                    },
                    Box::new(callee@),
                    exprs_v(args@),
                    info@,
                ),
            ),
        decreases depth, 3int,
    {
        let (params, id) = match self.instance_params_and_type(
            info.enum_name.as_str(),
            &none_types(),
            &none_ids(),
            depth,
        ) {
            Ok(p) => p,
            Err(err) => {
                return (make_expr(ExprKind::Call { callee, args }, ty, span), Err(err));
            },
        };
        let def = match self.template_enum(info.enum_name.as_str()) {
            Ok(d) => d,
            Err(err) => {
                return (make_expr(ExprKind::Call { callee, args }, ty, span), Err(err));
            },
        };
        let variant = match enum_variant(&def, info.variant_name.as_str()) {
            Ok(v) => v,
            Err(err) => {
                return (make_expr(ExprKind::Call { callee, args }, ty, span), Err(err));
            },
        };
        let ids = param_id_map(&def.type_params, &params);
        let (args, res) = self.infer_variant_args(&variant.args, args, &ids, true, depth);
        match res {
            Err(err) => (make_expr(ExprKind::Call { callee, args }, ty, span), Err(err)),
            Ok(_) => (make_expr(ExprKind::Call { callee, args }, id, span), Ok(id)),
        }
    }
}

} // verus!
