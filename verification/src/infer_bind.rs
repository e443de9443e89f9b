//! The variables of patterns, and tuples that are taken apart.
use crate::ast::{copy_expr, expr_v, exprs_v, init_v, inits_v, lemma_expr_v, lemma_stmt_v, stmts_v,
    AssignmentOperator, Expr, ExprKind, ExprKindV, FieldInit, Literal, LiteralV, Span, Stmt, StmtKind, StmtV};
use crate::bind_spec::{all_taken_apart, assignment, bound, bound_each, bound_fields, bound_same, counted,
    declaration, destructured, fields_annotated, generic_args, literal_index, pattern_arg_types,
    realized_args, slot_at, taken_apart, tuple_destructured, untyped};
use crate::decl::{field_list_v, Field};
use crate::engine::{EnvV, TypeInferencer};
use crate::error::{CompilationError, ErrorV};
use crate::infer_lookup::{find_variant, types_of_fields};
use crate::monomorph::{ids_result, param_id_map, type_error, unit_result};
use crate::symbols::{copy_ids, EnumVariantInfo};
use crate::text;
use crate::types::{copy_type, fields_v, lemma_type_v, types_v, Type, TypeId};
use vstd::prelude::*;

verus! {

/// The contents of statements, or of an error.
pub open spec fn stmts_result(r: Result<Vec<Stmt>, CompilationError>) -> Result<Seq<StmtV>, ErrorV> {
    match r {
        Ok(v) => Ok(stmts_v(v@)),
        Err(e) => Err(e@),
    }
}

/// The contents of optional type indices, or of an error.
pub open spec fn opt_ids_result(r: Result<Option<Vec<TypeId>>, CompilationError>) -> Result<Option<Seq<TypeId>>, ErrorV> {
    match r {
        Ok(Some(v)) => Ok(Some(v@)),
        Ok(None) => Ok(None),
        Err(e) => Err(e@),
    }
}

fn push_stmt(ss: &mut Vec<Stmt>, s: Stmt)
    ensures
        stmts_v(final(ss)@) == stmts_v(old(ss)@).push(s@),
{
    let ghost before = ss@;
    let ghost v = s;
    ss.push(s);
    proof {
        assert(stmts_v(ss@) =~= stmts_v(before).push(v@));
    }
}

fn bare(kind: ExprKind, span: Span) -> (r: Expr)
    ensures
        r.kind == kind,
        r.ty == TypeId(0),
        r.span == span,
{
    Expr { kind, ty: TypeId(0), span }
}

fn element_of(base: &Expr, i: usize) -> (r: Expr)
    ensures
        r@ == slot_at(base@, i as int),
{
    broadcast use lemma_expr_v;

    let n: i64 = if (i as u64) < 0x7fff_ffff_ffff_ffff {
        i as i64
    } else {
        i64::MAX
    };
    let index = bare(ExprKind::Literal { value: Literal::Int(n) }, base.span);
    let b = copy_expr(base);
    proof {
        assert(index@ == untyped(ExprKindV::Literal { value: LiteralV::Int(literal_index(i as int)) }, base.span));
        assert(b@ == base@);
        assert(base@.span == base.span);
    }
    bare(ExprKind::Index { expr: Box::new(b), index: Box::new(index) }, base.span)
}

fn assign_stmt(name: &str, value: &Expr) -> (r: Stmt)
    ensures
        r@ == assignment(name@, value@),
{
    broadcast use lemma_expr_v, lemma_stmt_v;

    let left = bare(ExprKind::Identifier { name: name.to_owned() }, value.span);
    let right = copy_expr(value);
    proof {
        assert(left@ == untyped(ExprKindV::Identifier { name: name@ }, value.span));
        assert(right@ == value@);
        assert(value@.span == value.span);
    }
    let a = bare(
        ExprKind::Assign { op: AssignmentOperator::Assign, left: Box::new(left), right: Box::new(right) },
        value.span,
    );
    proof {
        assert(a@ == assignment(name@, value@).kind->Expr_0);
    }
    Stmt { kind: StmtKind::Expr(a), span: value.span }
}

fn declare_stmt(name: &str, t: &Type, id: TypeId, value: Expr, span: Span) -> (r: Stmt)
    ensures
        r@ == declaration(name@, t@, id, value@, span),
{
    broadcast use lemma_stmt_v;

    Stmt {
        kind: StmtKind::VarDecl {
            name: name.to_owned(),
            annotation: Some(copy_type(t)),
            inferred: id,
            init: Some(value),
        },
        span,
    }
}

impl TypeInferencer {
    fn annotated_fields(&mut self, fs: &Vec<Field>, ids: &Vec<(String, TypeId)>, depth: usize) -> (r: Result<
        Vec<TypeId>,
        CompilationError,
    >)
        ensures
            (final(self)@, ids_result(r)) == fields_annotated(
                depth as nat,
                old(self)@,
                field_list_v(fs@),
                fields_v(ids@),
                0,
                Seq::empty(),
            ),
    {
        let ghost e0 = self@;
        let mut out: Vec<TypeId> = Vec::new();
        let mut i: usize = 0;
        while i < fs.len()
            invariant
                i <= fs@.len(),
                e0 == old(self)@,
                fields_annotated(depth as nat, e0, field_list_v(fs@), fields_v(ids@), 0, Seq::empty())
                    == fields_annotated(
                    depth as nat,
                    self@,
                    field_list_v(fs@),
                    fields_v(ids@),
                    i as int,
                    out@,
                ),
            decreases fs@.len() - i,
        {
            assert(field_list_v(fs@)[i as int] == fs@[i as int]@);
            match self.type_id_from_annotation(fs[i].annotation.as_ref(), ids, depth) {
                Ok(id) => {
                    out.push(id);
                },
                Err(err) => return Err(err),
            }
            i = i + 1;
        }
        Ok(out)
    }

    fn args_of_realized(&self, rep: TypeId, variant: &str) -> (r: Option<Vec<TypeId>>)
        ensures
            match r {
                Some(v) => realized_args(self@, rep, variant@) == Some(v@),
                None => realized_args(self@, rep, variant@) is None,
            },
    {
        match self.store.resolve(rep) {
            Ok(Type::Named(n)) => if self.is_monomorph_name(n.as_str()) {
                match self.symbols.lookup_enum(n.as_str()) {
                    Some(d) => match find_variant(&d.variants, variant) {
                        Some(v) => Some(types_of_fields(&v.args)),
                        None => None,
                    },
                    None => None,
                }
            } else {
                None
            },
            _ => None,
        }
    }

    /// The argument types of a variant of a generic enum, in a pattern of the given type.
    pub fn generic_variant_arg_types(&mut self, pattern_ty: TypeId, info: &EnumVariantInfo, depth: usize) -> (r: Result<
        Option<Vec<TypeId>>,
        CompilationError,
    >)
        ensures
            (final(self)@, opt_ids_result(r)) == generic_args(
                depth as nat,
                old(self)@,
                pattern_ty,
                info@.variant_name,
            ),
    {
        let rep = self.store.find_rep(pattern_ty);
        match self.find_instance(rep) {
            Some(inst) => match self.template_enum(inst.base.as_str()) {
                Err(_) => Ok(None),
                Ok(d) => match find_variant(&d.variants, info.variant_name.as_str()) {
                    None => Ok(None),
                    Some(v) => {
                        let ids = param_id_map(&d.type_params, &inst.params);
                        match self.annotated_fields(&v.args, &ids, depth) {
                            Ok(x) => Ok(Some(x)),
                            Err(err) => Err(err),
                        }
                    },
                },
            },
            None => Ok(self.args_of_realized(rep, info.variant_name.as_str())),
        }
    }

    fn types_of_pattern_args(&mut self, ty: TypeId, info: &EnumVariantInfo, depth: usize) -> (r: Result<
        Vec<TypeId>,
        CompilationError,
    >)
        ensures
            (final(self)@, ids_result(r)) == pattern_arg_types(depth as nat, old(self)@, ty, info@),
    {
        if self.is_template_enum(info.enum_name.as_str()) {
            match self.generic_variant_arg_types(ty, info, depth) {
                Err(err) => Err(err),
                Ok(Some(ids)) => Ok(ids),
                Ok(None) => Ok(copy_ids(&info.arg_types)),
            }
        } else {
            Ok(copy_ids(&info.arg_types))
        }
    }

    /// Binds the variables of a pattern, where a value of the given type is matched.
    pub fn extract_pattern_bindings(&mut self, pattern: &Expr, matched_ty: TypeId, depth: usize) -> (r: Result<
        (),
        CompilationError,
    >)
        ensures
            (final(self)@, unit_result(r)) == bound(depth as nat, old(self)@, pattern@, matched_ty),
        decreases *pattern, 0int,
    {
        broadcast use lemma_expr_v;

        match &pattern.kind {
            ExprKind::Identifier { name } => {
                if !(text::text_eq(name.as_str(), "_") || text::text_eq(name.as_str(), "default")) {
                    self.symbols.define_var(name.as_str(), matched_ty);
                }
                Ok(())
            },
            ExprKind::Call { callee, args } => {
                let info = match &callee.kind {
                    ExprKind::Identifier { name } => match self.variant_info_by_simple_name(name.as_str()) {
                        Some(i) => Some((name.clone(), i)),
                        None => None,
                    },
                    _ => None,
                };
                proof {
                    assert(callee@ == expr_v(**callee));
                    assert(exprs_v(args@).len() == args@.len());
                }
                match info {
                    Some((name, info)) => {
                        let ids = match self.types_of_pattern_args(pattern.ty, &info, depth) {
                            Ok(v) => v,
                            Err(err) => return Err(err),
                        };
                        if args.len() != ids.len() {
                            return Err(
                                type_error(
                                    "pattern '".to_owned().concat(name.as_str()).concat("' has ").concat(
                                        text::decimal(args.len() as u64).as_str(),
                                    ).concat(" args but variant expects ").concat(
                                        text::decimal(ids.len() as u64).as_str(),
                                    ),
                                ),
                            );
                        }
                        self.bind_each(args, &ids, depth)
                    },
                    None => self.bind_same(args, matched_ty, depth),
                }
            },
            ExprKind::StructInit { struct_type: _, fields } => self.bind_fields(fields, matched_ty, depth),
            ExprKind::FieldAccess { expr, field_name: _ } => self.extract_pattern_bindings(
                expr,
                matched_ty,
                depth,
            ),
            _ => Ok(()),
        }
    }

    fn bind_each(&mut self, ps: &Vec<Expr>, ids: &Vec<TypeId>, depth: usize) -> (r: Result<(), CompilationError>)
        ensures
            (final(self)@, unit_result(r)) == bound_each(depth as nat, old(self)@, exprs_v(ps@), ids@, 0),
        decreases *ps, 0int,
    {
        let ghost e0 = self@;
        let mut i: usize = 0;
        while i < ps.len() && i < ids.len()
            invariant
                i <= ps@.len(),
                i <= ids@.len(),
                e0 == old(self)@,
                bound_each(depth as nat, e0, exprs_v(ps@), ids@, 0) == bound_each(
                    depth as nat,
                    self@,
                    exprs_v(ps@),
                    ids@,
                    i as int,
                ),
            decreases ps@.len() - i,
        {
            assert(exprs_v(ps@)[i as int] == ps@[i as int]@);
            match self.extract_pattern_bindings(&ps[i], ids[i], depth) {
                Ok(_) => {},
                Err(err) => return Err(err),
            }
            i = i + 1;
        }
        Ok(())
    }

    fn bind_same(&mut self, ps: &Vec<Expr>, ty: TypeId, depth: usize) -> (r: Result<(), CompilationError>)
        ensures
            (final(self)@, unit_result(r)) == bound_same(depth as nat, old(self)@, exprs_v(ps@), ty, 0),
        decreases *ps, 0int,
    {
        let ghost e0 = self@;
        let mut i: usize = 0;
        while i < ps.len()
            invariant
                i <= ps@.len(),
                e0 == old(self)@,
                bound_same(depth as nat, e0, exprs_v(ps@), ty, 0) == bound_same(
                    depth as nat,
                    self@,
                    exprs_v(ps@),
                    ty,
                    i as int,
                ),
            decreases ps@.len() - i,
        {
            assert(exprs_v(ps@)[i as int] == ps@[i as int]@);
            match self.extract_pattern_bindings(&ps[i], ty, depth) {
                Ok(_) => {},
                Err(err) => return Err(err),
            }
            i = i + 1;
        }
        Ok(())
    }

    fn bind_fields(&mut self, fs: &Vec<FieldInit>, ty: TypeId, depth: usize) -> (r: Result<(), CompilationError>)
        ensures
            (final(self)@, unit_result(r)) == bound_fields(depth as nat, old(self)@, inits_v(fs@), ty, 0),
        decreases *fs, 0int,
    {
        let ghost e0 = self@;
        let mut i: usize = 0;
        while i < fs.len()
            invariant
                i <= fs@.len(),
                e0 == old(self)@,
                bound_fields(depth as nat, e0, inits_v(fs@), ty, 0) == bound_fields(
                    depth as nat,
                    self@,
                    inits_v(fs@),
                    ty,
                    i as int,
                ),
            decreases fs@.len() - i,
        {
            assert(inits_v(fs@)[i as int] == init_v(fs@[i as int]));
            match self.extract_pattern_bindings(&fs[i].value, ty, depth) {
                Ok(_) => {},
                Err(err) => return Err(err),
            }
            i = i + 1;
        }
        Ok(())
    }

    fn emit_destructure_pattern(&mut self, pat: &Expr, slot: &Expr, t: &Type, decls: Vec<Stmt>) -> (r: Result<
        Vec<Stmt>,
        CompilationError,
    >)
        ensures
            (final(self)@, stmts_result(r)) == taken_apart(old(self)@, pat@, slot@, t@, stmts_v(decls@)),
        decreases *pat, 0int,
    {
        broadcast use lemma_expr_v, lemma_type_v;

        let mut decls = decls;
        match &pat.kind {
            ExprKind::Identifier { name } => {
                if text::text_eq(name.as_str(), "_") {
                    return Ok(decls);
                }
                if self.symbols.lookup_var(name.as_str()).is_some() {
                    push_stmt(&mut decls, assign_stmt(name.as_str(), slot));
                } else {
                    let id = self.known(copy_type(t));
                    self.symbols.define_var(name.as_str(), id);
                    push_stmt(&mut decls, declare_stmt(name.as_str(), t, id, copy_expr(slot), slot.span));
                }
                Ok(decls)
            },
            ExprKind::TupleLit { elements } => match t {
                Type::Tuple(ts) => {
                    proof {
                        assert(exprs_v(elements@).len() == elements@.len());
                        assert(types_v(ts@).len() == ts@.len());
                    }
                    if elements.len() != ts.len() {
                        return Err(type_error("Nested tuple destructuring arity mismatch".to_owned()));
                    }
                    self.emit_all(elements, slot, ts, decls)
                },
                _ => Err(type_error("Cannot destructure a non-tuple pattern element".to_owned())),
            },
            _ => Err(type_error("Unsupported tuple destructuring pattern".to_owned())),
        }
    }

    fn emit_all(&mut self, ps: &Vec<Expr>, base: &Expr, ts: &Vec<Type>, decls: Vec<Stmt>) -> (r: Result<
        Vec<Stmt>,
        CompilationError,
    >)
        ensures
            (final(self)@, stmts_result(r)) == all_taken_apart(
                old(self)@,
                exprs_v(ps@),
                base@,
                types_v(ts@),
                0,
                stmts_v(decls@),
            ),
        decreases *ps, 0int,
    {
        let ghost e0 = self@;
        let ghost d0 = stmts_v(decls@);
        let mut out = decls;
        let mut i: usize = 0;
        while i < ps.len() && i < ts.len()
            invariant
                i <= ps@.len(),
                i <= ts@.len(),
                e0 == old(self)@,
                d0 == stmts_v(decls@),
                all_taken_apart(e0, exprs_v(ps@), base@, types_v(ts@), 0, d0) == all_taken_apart(
                    self@,
                    exprs_v(ps@),
                    base@,
                    types_v(ts@),
                    i as int,
                    stmts_v(out@),
                ),
            decreases ps@.len() - i,
        {
            assert(exprs_v(ps@)[i as int] == ps@[i as int]@);
            assert(types_v(ts@)[i as int] == ts@[i as int]@);
            let slot = element_of(base, i);
            match self.emit_destructure_pattern(&ps[i], &slot, &ts[i], out) {
                Ok(v) => {
                    out = v;
                },
                Err(err) => return Err(err),
            }
            i = i + 1;
        }
        Ok(out)
    }

    /// A name that was not given out before.
    pub fn fresh_name(&mut self, prefix: &str) -> (r: String)
        ensures
            r@ == prefix@ + text::decimal_text(old(self)@.fresh as nat),
            final(self)@ == (EnvV { fresh: counted(old(self)@.fresh), ..old(self)@ }),
    {
        let id: u64 = self.fresh_counter;
        self.fresh_counter = if id == u64::MAX {
            0
        } else {
            id + 1
        };
        prefix.to_owned().concat(text::decimal(id).as_str())
    }

    fn destructure_tuple(&mut self, pats: &Vec<Expr>, right: Expr, t: &Type, ts: &Vec<Type>, span: Span) -> (r: Result<
        Vec<Stmt>,
        CompilationError,
    >)
        ensures
            (final(self)@, stmts_result(r)) == tuple_destructured(
                old(self)@,
                exprs_v(pats@),
                right@,
                t@,
                types_v(ts@),
                span,
            ),
    {
        broadcast use lemma_expr_v;

        let tmp = self.fresh_name("__kit_tuple_dest_");
        let id = self.known(copy_type(t));
        proof {
            assert(exprs_v(pats@).len() == pats@.len());
            assert(types_v(ts@).len() == ts@.len());
        }
        if pats.len() != ts.len() {
            return Err(
                type_error(
                    "Tuple destructuring arity mismatch: pattern has ".to_owned().concat(
                        text::decimal(pats.len() as u64).as_str(),
                    ).concat(" elements but value has ").concat(text::decimal(ts.len() as u64).as_str()),
                ),
            );
        }
        let mut decls: Vec<Stmt> = Vec::new();
        let first = declare_stmt(tmp.as_str(), t, id, right, span);
        let ghost fv = first@;
        decls.push(first);
        proof {
            assert(stmts_v(decls@) =~= seq![fv]);
        }
        let base = Expr { kind: ExprKind::Identifier { name: tmp }, ty: id, span };
        self.emit_all(pats, &base, ts, decls)
    }

    /// The statements that a destructuring assignment stands for.
    pub fn desugar_tuple_destructure(&mut self, pats: &Vec<Expr>, right: Expr, span: Span, depth: usize) -> (r: Result<
        Vec<Stmt>,
        CompilationError,
    >)
        ensures
            (final(self)@, stmts_result(r)) == destructured(
                depth as nat,
                old(self)@,
                exprs_v(pats@),
                right@,
                span,
            ),
    {
        broadcast use lemma_type_v;

        let (right, res) = self.infer_expr(right, depth);
        let id = match res {
            Ok(id) => id,
            Err(err) => return Err(err),
        };
        let t = match self.store.resolve(id) {
            Ok(t) => t,
            Err(_) => return Err(type_error("Failed to resolve tuple type: unresolved type".to_owned())),
        };
        match &t {
            Type::Tuple(ts) => self.destructure_tuple(pats, right, &t, ts, span),
            _ => Err(
                type_error(
                    "Cannot destructure a non-tuple value of type ".to_owned().concat(t.to_c_name().as_str()),
                ),
            ),
        }
    }
}

} // verus!
