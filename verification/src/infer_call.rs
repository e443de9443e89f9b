//! Type inference of calls.
use crate::ast::{copy_exprs, exprs_v, lemma_expr_parts, make_expr, Expr, ExprKind, Span};
use crate::decl::Function;
use crate::engine::{pending_generics_v, PendingGeneric, TypeInferencer};
use crate::error::CompilationError;
use crate::expr_pratt::callee_name;
use crate::infer_lookup::{any_default, call_args_error, call_typed_as, enum_variant, finish, none_ids,
    none_types, opt_exprs_v, resolve_default_args, second_of, signature, typed_as, types_of_fields,
    variant_args_error};
use crate::infer_spec::{call_typed, constructor_typed, generic_call_typed, generic_constructor_typed,
    known_call_typed, method_call_rewritten, method_or_function_call_typed, plain_call_typed, unknown_call_typed};
use crate::monomorph::{id_result, param_id_map, type_error, with_last_ids};
use crate::symbols::EnumVariantInfo;
use crate::text;
use crate::types::{types_v, Type, TypeId};
use vstd::prelude::*;

verus! {

impl TypeInferencer {
    pub(crate) fn infer_enum_constructor_call(&mut self, info: &EnumVariantInfo, args: &Vec<Expr>, depth: usize) -> (r: (
        Option<Vec<Expr>>,
        Result<TypeId, CompilationError>,
    ))
        ensures
            final(self)@ == constructor_typed(depth as nat, old(self)@, info@, exprs_v(args@)).0,
            opt_exprs_v(r.0) == constructor_typed(depth as nat, old(self)@, info@, exprs_v(args@)).1,
            id_result(r.1) == constructor_typed(depth as nat, old(self)@, info@, exprs_v(args@)).2,
        decreases depth, 4int,
    {
        if self.is_template_enum(info.enum_name.as_str()) {
            return self.infer_generic_enum_ctor(
                info.enum_name.as_str(),
                info.variant_name.as_str(),
                args,
                depth,
            );
        }
        let full = match self.symbols.lookup_enum(info.enum_name.as_str()) {
            Some(d) => match resolve_default_args(info, d, args) {
                Ok(v) => v,
                Err(err) => {
                    return (None, Err(err));
                },
            },
            None => copy_exprs(args),
        };
        proof {
            assert(exprs_v(full@).len() == full@.len());
        }
        if full.len() != info.arg_types.len() {
            return (None, Err(variant_args_error(info.variant_name.as_str(), info.arg_types.len(), full.len())));
        }
        let id = self.known(Type::Named(info.enum_name.clone()));
        let (full, res) = self.infer_args(full, &info.arg_types, depth);
        match res {
            Ok(_) => (Some(full), Ok(id)),
            Err(err) => (None, Err(err)),
        }
    }

    pub(crate) fn infer_generic_enum_ctor(&mut self, enum_name: &str, variant_name: &str, args: &Vec<Expr>, depth: usize) -> (r: (
        Option<Vec<Expr>>,
        Result<TypeId, CompilationError>,
    ))
        ensures
            final(self)@ == generic_constructor_typed(
                depth as nat,
                old(self)@,
                enum_name@,
                variant_name@,
                exprs_v(args@),
            ).0,
            opt_exprs_v(r.0) == generic_constructor_typed(
                depth as nat,
                old(self)@,
                enum_name@,
                variant_name@,
                exprs_v(args@),
            ).1,
            id_result(r.1) == generic_constructor_typed(
                depth as nat,
                old(self)@,
                enum_name@,
                variant_name@,
                exprs_v(args@),
            ).2,
        decreases depth, 3int,
    {
        let (params, id) = match self.instance_params_and_type(enum_name, &none_types(), &none_ids(), depth) {
            Ok(p) => p,
            Err(err) => {
                return (None, Err(err));
            },
        };
        let def = match self.template_enum(enum_name) {
            Ok(d) => d,
            Err(err) => {
                return (None, Err(err));
            },
        };
        let variant = match enum_variant(&def, variant_name) {
            Ok(v) => v,
            Err(err) => {
                return (None, Err(err));
            },
        };
        let info = EnumVariantInfo {
            enum_name: enum_name.to_owned(),
            variant_name: variant_name.to_owned(),
            arg_types: types_of_fields(&variant.args),
            has_defaults: any_default(&variant.args),
        };
        let full = match resolve_default_args(&info, &def, args) {
            Ok(v) => v,
            Err(err) => {
                return (None, Err(err));
            },
        };
        proof {
            assert(exprs_v(full@).len() == full@.len());
            assert(variant@.args.len() == variant.args@.len());
        }
        if full.len() != variant.args.len() {
            return (None, Err(variant_args_error(variant_name, variant.args.len(), full.len())));
        }
        let ids = param_id_map(&def.type_params, &params);
        let (full, res) = self.infer_variant_args(&variant.args, full, &ids, false, depth);
        match res {
            Ok(_) => (Some(full), Ok(id)),
            Err(err) => (None, Err(err)),
        }
    }

    pub(crate) fn try_rewrite_method_call(&mut self, callee: Expr, args: Vec<Expr>, depth: usize) -> (r: (
        Expr,
        Vec<Expr>,
        Option<CompilationError>,
    ))
        ensures
            final(self)@ == method_call_rewritten(depth as nat, old(self)@, callee@, exprs_v(args@)).0,
            r.0@ == method_call_rewritten(depth as nat, old(self)@, callee@, exprs_v(args@)).1,
            exprs_v(r.1@) == method_call_rewritten(depth as nat, old(self)@, callee@, exprs_v(args@)).2,
            match r.2 {
                Some(e) => method_call_rewritten(depth as nat, old(self)@, callee@, exprs_v(args@)).3 == Some(e@),
                None => method_call_rewritten(depth as nat, old(self)@, callee@, exprs_v(args@)).3 is None,
            },
        decreases depth, 2int,
    {
        proof {
            lemma_expr_parts(callee);
        }
        let Expr { kind, ty, span } = callee;
        match kind {
            ExprKind::FieldAccess { expr, field_name } => {
                let (recv, res) = self.infer_expr(*expr, depth);
                let t = match res {
                    Ok(t) => t,
                    Err(_) => {
                        return (
                            make_expr(ExprKind::FieldAccess { expr: Box::new(recv), field_name }, ty, span),
                            args,
                            None,
                        );
                    },
                };
                let recv_type = match self.store.resolve(t) {
                    Ok(t) => t,
                    Err(err) => {
                        return (
                            make_expr(ExprKind::FieldAccess { expr: Box::new(recv), field_name }, ty, span),
                            args,
                            Some(err),
                        );
                    },
                };
                match self.lookup_method(&recv_type, field_name.as_str()) {
                    None => (
                        make_expr(ExprKind::FieldAccess { expr: Box::new(recv), field_name }, ty, span),
                        args,
                        None,
                    ),
                    Some(symbol) => {
                        let id = self.unknown();
                        let c = make_expr(ExprKind::Identifier { name: symbol }, id, Span { line: 0, column: 0, offset: 0, length: 0 });
                        let ghost rv = recv@;
                        let ghost av = args@;
                        let mut all: Vec<Expr> = Vec::new();
                        all.push(recv);
                        let mut rest = args;
                        all.append(&mut rest);
                        proof {
                            assert(exprs_v(all@) =~= seq![rv] + exprs_v(av));
                        }
                        (c, all, None)
                    },
                }
            },
            other => (make_expr(other, ty, span), args, None),
        }
    }

    pub(crate) fn infer_call_with_sig(&mut self, name: &str, params: &Vec<TypeId>, ret: TypeId, args: Vec<Expr>, depth: usize) -> (r: (
        Vec<Expr>,
        Result<TypeId, CompilationError>,
    ))
        ensures
            call_typed_as(
                final(self)@,
                r,
                known_call_typed(depth as nat, old(self)@, name@, params@, ret, exprs_v(args@)),
            ),
        decreases depth, 3int,
    {
        proof {
            assert(exprs_v(args@).len() == args@.len());
        }
        if params.len() > 0 && args.len() != params.len() {
            let n: usize = args.len();
            return (args, Err(call_args_error(name, params.len(), n)));
        }
        let (args, res) = if params.len() == 0 {
            self.infer_all(args, depth)
        } else {
            self.infer_args(args, params, depth)
        };
        match res {
            Ok(_) => (args, Ok(ret)),
            Err(err) => (args, Err(err)),
        }
    }

    pub(crate) fn infer_generic_function_call(&mut self, name: &str, args: Vec<Expr>, depth: usize) -> (r: (
        Vec<Expr>,
        Result<TypeId, CompilationError>,
    ))
        ensures
            call_typed_as(
                final(self)@,
                r,
                generic_call_typed(depth as nat, old(self)@, name@, exprs_v(args@)),
            ),
        decreases depth, 3int,
    {
        let def = match self.template_function(name) {
            Ok(d) => d,
            Err(err) => {
                return (args, Err(err));
            },
        };
        let fresh = self.fresh_ids(&def.type_params);
        let ids = with_last_ids(&fresh);
        let sig = match self.signature_types(&def.params, &ids, depth) {
            Ok(v) => v,
            Err(err) => {
                return (args, Err(err));
            },
        };
        proof {
            assert(exprs_v(args@).len() == args@.len());
        }
        if args.len() != sig.len() {
            let n: usize = args.len();
            return (args, Err(call_args_error(name, sig.len(), n)));
        }
        let (args, res) = self.infer_args(args, &sig, depth);
        match res {
            Ok(_) => {},
            Err(err) => {
                return (args, Err(err));
            },
        }
        self.bind_defaults(&def.type_params, &ids);
        let ret = match &def.return_type {
            Some(t) => match self.type_id_from_annotation(Some(t), &ids, depth) {
                Ok(id) => id,
                Err(err) => {
                    return (args, Err(err));
                },
            },
            None => self.known(Type::Void),
        };
        let params = second_of(&ids);
        let gen = PendingGeneric { base: name.to_owned(), params, call_return: Some(ret) };
        proof {
            assert(pending_generics_v(self.monomorphs.pending@.push(gen)) =~= pending_generics_v(
                self.monomorphs.pending@,
            ).push(gen@));
        }
        self.monomorphs.pending.push(gen);
        (args, Ok(ret))
    }

    pub(crate) fn infer_function_call(&mut self, callee: Expr, args: Vec<Expr>, depth: usize) -> (r: (
        Expr,
        Vec<Expr>,
        Result<TypeId, CompilationError>,
    ))
        ensures
            final(self)@ == plain_call_typed(depth as nat, old(self)@, callee@, exprs_v(args@)).0,
            r.0@ == plain_call_typed(depth as nat, old(self)@, callee@, exprs_v(args@)).1,
            exprs_v(r.1@) == plain_call_typed(depth as nat, old(self)@, callee@, exprs_v(args@)).2,
            id_result(r.2) == plain_call_typed(depth as nat, old(self)@, callee@, exprs_v(args@)).3,
        decreases depth, 4int,
    {
        let name = callee_name(&callee);
        match &name {
            Some(n) => {
                match self.symbols.lookup_function(n.as_str()) {
                    Some((params, ret)) => {
                        let (args, res) = self.infer_call_with_sig(n.as_str(), &params, ret, args, depth);
                        return (callee, args, res);
                    },
                    None => {},
                }
                if self.is_template_function(n.as_str()) {
                    let (args, res) = self.infer_generic_function_call(n.as_str(), args, depth);
                    return (callee, args, res);
                }
            },
            None => {},
        }
        let (c, res) = self.infer_expr(callee, depth);
        match res {
            Ok(t) => match self.store.resolve(t) {
                Ok(ty) => match signature(&ty) {
                    Some((params, ret)) => {
                        proof {
                            assert(exprs_v(args@).len() == args@.len());
                            assert(types_v(params@).len() == params@.len());
                        }
                        if args.len() != params.len() {
                            let err = type_error(
                                "Function expects ".to_owned().concat(
                                    text::decimal(params.len() as u64).as_str(),
                                ).concat(" arguments, got ").concat(text::decimal(args.len() as u64).as_str()),
                            );
                            return (c, args, Err(err));
                        }
                        let (args, res) = self.infer_args_against(args, &params, depth);
                        match res {
                            Err(err) => (c, args, Err(err)),
                            Ok(_) => {
                                let id = self.known(ret);
                                (c, args, Ok(id))
                            },
                        }
                    },
                    None => (
                        c,
                        args,
                        Err(
                            type_error(
                                "Cannot call a value of type ".to_owned().concat(ty.to_c_name().as_str()),
                            ),
                        ),
                    ),
                },
                Err(_) => self.infer_unknown_call(c, args, false, depth),
            },
            Err(err) => if callee_name(&c).is_none() {
                (c, args, Err(err))
            } else {
                self.infer_unknown_call(c, args, true, depth)
            },
        }
    }

    pub(crate) fn infer_unknown_call(&mut self, callee: Expr, args: Vec<Expr>, failed: bool, depth: usize) -> (r: (
        Expr,
        Vec<Expr>,
        Result<TypeId, CompilationError>,
    ))
        ensures
            final(self)@ == unknown_call_typed(depth as nat, old(self)@, callee@, exprs_v(args@), failed).0,
            r.0@ == unknown_call_typed(depth as nat, old(self)@, callee@, exprs_v(args@), failed).1,
            exprs_v(r.1@) == unknown_call_typed(depth as nat, old(self)@, callee@, exprs_v(args@), failed).2,
            id_result(r.2) == unknown_call_typed(depth as nat, old(self)@, callee@, exprs_v(args@), failed).3,
        decreases depth, 3int,
    {
        let name = callee_name(&callee);
        match &name {
            Some(n) => {
                if self.symbols.lookup_function(n.as_str()).is_none() && self.symbols.lookup_global(
                    n.as_str(),
                ).is_none() {
                    let id = self.unknown();
                    let (args, res) = self.infer_all(args, depth);
                    return match res {
                        Ok(_) => (callee, args, Ok(id)),
                        Err(err) => (callee, args, Err(err)),
                    };
                }
            },
            None => {},
        }
        let shown = match &name {
            Some(n) => n.clone(),
            None => "?".to_owned(),
        };
        let msg = if failed {
            "Cannot call '".to_owned().concat(shown.as_str()).concat(
                "': not a known function, global, or external symbol",
            )
        } else {
            "Expression is not callable".to_owned()
        };
        (callee, args, Err(type_error(msg)))
    }

    #[verifier::spinoff_prover]
    pub(crate) fn infer_call(&mut self, callee: Expr, args: Vec<Expr>, ty: TypeId, span: Span, depth: usize) -> (r: (
        Expr,
        Result<TypeId, CompilationError>,
    ))
        ensures
            typed_as(final(self)@, r, call_typed(depth as nat, old(self)@, Box::new(callee@), exprs_v(args@), ty, span)),
        decreases depth, 6int,
    {
        let info = match callee_name(&callee) {
            Some(n) => self.variant_info_by_simple_name(n.as_str()),
            None => None,
        };
        match info {
            Some(info) => {
                let (full, res) = self.infer_enum_constructor_call(&info, &args, depth);
                match (full, res) {
                    (Some(full), Ok(id)) => (
                        make_expr(ExprKind::Call { callee: Box::new(callee), args: full }, id, span),
                        Ok(id),
                    ),
                    (_, res) => (make_expr(ExprKind::Call { callee: Box::new(callee), args }, ty, span), res),
                }
            },
            None => self.infer_method_or_function_call(callee, args, ty, span, depth),
        }
    }

    #[verifier::spinoff_prover]
    fn infer_method_or_function_call(&mut self, callee: Expr, args: Vec<Expr>, ty: TypeId, span: Span, depth: usize) -> (r: (
        Expr,
        Result<TypeId, CompilationError>,
    ))
        ensures
            typed_as(
                final(self)@,
                r,
                method_or_function_call_typed(depth as nat, old(self)@, callee@, exprs_v(args@), ty, span),
            ),
        decreases depth, 5int,
    {
        let (c, args, failed) = self.try_rewrite_method_call(callee, args, depth);
        match failed {
            Some(err) => (make_expr(ExprKind::Call { callee: Box::new(c), args }, ty, span), Err(err)),
            None => {
                let (c, args, res) = self.infer_function_call(c, args, depth);
                finish(ExprKind::Call { callee: Box::new(c), args }, ty, span, res)
            },
        }
    }
}

} // verus!
