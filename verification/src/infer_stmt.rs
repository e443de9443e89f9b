//! Type inference of statements.
use crate::ast::{arm_v, arms_v, copy_block, copy_expr, copy_stmt, expr_v, exprs_v, lemma_block_v,
    lemma_expr_v, lemma_stmt_parts, lemma_stmt_v, opt_block_v, opt_expr_v, stmt_v, stmts_v, Block, BlockV,
    Expr, ExprKind, ExprV, MatchArm, MatchArmV, Span, Stmt, StmtKind, StmtKindV, StmtV};
use crate::bind_spec::{destructured, is_wildcard};
use crate::engine::TypeInferencer;
use crate::error::{CompilationError, ErrorV};
use crate::infer_bind::stmts_result;
use crate::infer_lookup::check_as;
use crate::monomorph::{id_result, type_error};
use crate::stmt_spec::{arm_pattern_typed, arm_typed, arms_typed, block_typed, condition_typed, defer_typed,
    for_typed, if_typed, initialized, loop_variable, match_typed, nothing_returned, pieces, pieces_typed,
    plain_typed, stmt_typed, stmts_typed, value_annotated, value_dropped, value_returned, var_typed,
    while_typed};
use crate::text;
use crate::types::{copy_type, fields_v, opt_type_v, type_v, Type, TypeId, TypeV};
use vstd::prelude::*;

verus! {

/// The contents of a statement, or of an error.
pub open spec fn stmt_result(r: Result<Stmt, CompilationError>) -> Result<StmtV, ErrorV> {
    match r {
        Ok(s) => Ok(s@),
        Err(e) => Err(e@),
    }
}

/// The contents of an expression, or of an error.
pub open spec fn expr_result(r: Result<Expr, CompilationError>) -> Result<ExprV, ErrorV> {
    match r {
        Ok(x) => Ok(x@),
        Err(e) => Err(e@),
    }
}

/// The contents of the statements of a block, or of an error.
pub open spec fn block_result(r: Result<Block, CompilationError>) -> Result<Seq<StmtV>, ErrorV> {
    match r {
        Ok(b) => Ok(stmts_v(b.stmts@)),
        Err(e) => Err(e@),
    }
}

/// The contents of a `match` arm, or of an error.
pub open spec fn arm_result(r: Result<MatchArm, CompilationError>) -> Result<MatchArmV, ErrorV> {
    match r {
        Ok(a) => Ok(arm_v(a)),
        Err(e) => Err(e@),
    }
}

/// The contents of `match` arms, or of an error.
pub open spec fn arms_result(r: Result<Vec<MatchArm>, CompilationError>) -> Result<Seq<MatchArmV>, ErrorV> {
    match r {
        Ok(a) => Ok(arms_v(a@)),
        Err(e) => Err(e@),
    }
}

/// The contents of a type and a value, or of an error.
pub open spec fn init_result(r: Result<(TypeId, Option<Expr>), CompilationError>) -> Result<
    (TypeId, Option<ExprV>),
    ErrorV,
> {
    match r {
        Ok((id, x)) => Ok((id, opt_expr_v(x))),
        Err(e) => Err(e@),
    }
}

/// No type parameters.
pub(crate) fn no_params() -> (r: Vec<(String, TypeId)>)
    ensures
        fields_v(r@) == Seq::<(Seq<char>, TypeId)>::empty(),
{
    let v: Vec<(String, TypeId)> = Vec::new();
    proof {
        assert(fields_v(v@) =~= Seq::<(Seq<char>, TypeId)>::empty());
    }
    v
}

pub(crate) fn make_stmt(kind: StmtKind, span: Span) -> (r: Stmt)
    ensures
        r@ == kind_in(kind, span),
{
    let s = Stmt { kind, span };
    proof {
        lemma_stmt_parts(s);
    }
    s
}

/// The contents of a statement of the given form.
pub open spec fn kind_in(kind: StmtKind, span: Span) -> StmtV {
    StmtV {
        kind: match kind {
            StmtKind::VarDecl { name, annotation, inferred, init } => StmtKindV::VarDecl {
                name: name@,
                annotation: opt_type_v(annotation),
                inferred,
                init: opt_expr_v(init),
            },
            StmtKind::Expr(e) => StmtKindV::Expr(expr_v(e)),
            StmtKind::Return(e) => StmtKindV::Return(opt_expr_v(e)),
            StmtKind::If { cond, then_branch, else_branch } => StmtKindV::If {
                cond: expr_v(cond),
                then_branch: BlockV { stmts: stmts_v(then_branch.stmts@) },
                else_branch: opt_block_v(else_branch),
            },
            StmtKind::While { cond, body } => StmtKindV::While {
                cond: expr_v(cond),
                body: BlockV { stmts: stmts_v(body.stmts@) },
            },
            StmtKind::For { var, iter, body } => StmtKindV::For {
                var: var@,
                iter: expr_v(iter),
                body: BlockV { stmts: stmts_v(body.stmts@) },
            },
            StmtKind::Match(m) => StmtKindV::Match { expr: expr_v(m.expr), arms: arms_v(m.arms@) },
            StmtKind::Defer { body } => StmtKindV::Defer { body: Box::new(stmt_v(*body)) },
            StmtKind::Block(b) => StmtKindV::Block(BlockV { stmts: stmts_v(b.stmts@) }),
            StmtKind::Break => StmtKindV::Break,
            StmtKind::Continue => StmtKindV::Continue,
        },
        span,
    }
}

fn wildcard(p: &Expr) -> (r: bool)
    ensures
        r == is_wildcard(p@),
{
    broadcast use lemma_expr_v;

    match &p.kind {
        ExprKind::Identifier { name } => text::text_eq(name.as_str(), "_") || text::text_eq(
            name.as_str(),
            "default",
        ),
        _ => false,
    }
}

/// The left and right sides of a destructuring assignment.
fn as_destructure(s: &Stmt) -> (r: Option<(&Vec<Expr>, &Expr)>)
    ensures
        match r {
            Some((pats, right)) => forall|fuel: nat, e: crate::engine::EnvV| #[trigger]
                pieces(fuel, e, s@) == destructured(fuel, e, exprs_v(pats@), right@, s.span),
            None => forall|fuel: nat, e: crate::engine::EnvV| #[trigger]
                pieces(fuel, e, s@) == (e, Ok::<Seq<StmtV>, ErrorV>(seq![s@])),
        },
{
    broadcast use lemma_expr_v, lemma_stmt_v;

    match &s.kind {
        StmtKind::Expr(x) => match &x.kind {
            ExprKind::Assign { op: _, left, right } => {
                proof {
                    assert(s@.kind->Expr_0 == expr_v(*x));
                    assert(x@.kind->Assign_left == Box::new(expr_v(**left)));
                    assert(x@.kind->Assign_right == Box::new(expr_v(**right)));
                }
                match &left.kind {
                    ExprKind::TupleLit { elements } => {
                        proof {
                            assert(expr_v(**left).kind->TupleLit_elements == exprs_v(elements@));
                        }
                        Some((elements, &**right))
                    },
                    _ => {
                        proof {
                            assert(!(expr_v(**left).kind is TupleLit));
                        }
                        None
                    },
                }
            },
            _ => {
                proof {
                    assert(s@.kind->Expr_0 == expr_v(*x));
                }
                None
            },
        },
        _ => None,
    }
}

impl TypeInferencer {
    /// The type of a variable and its value with types filled in.
    pub(crate) fn infer_initializer(
        &mut self,
        ann: &Option<Type>,
        init: Option<Expr>,
        missing: CompilationError,
        depth: usize,
    ) -> (r: Result<(TypeId, Option<Expr>), CompilationError>)
        ensures
            (final(self)@, init_result(r)) == initialized(
                depth as nat,
                old(self)@,
                opt_type_v(*ann),
                opt_expr_v(init),
                missing@,
            ),
    {
        match init {
            Some(x) => {
                let (x, res) = self.infer_expr(x, depth);
                match res {
                    Err(err) => Err(err),
                    Ok(t) => match ann {
                        None => Ok((t, Some(x))),
                        Some(_) => self.annotate_value(ann, x, t, depth),
                    },
                }
            },
            None => match ann {
                None => Err(missing),
                Some(_) => match self.type_id_from_annotation(ann.as_ref(), &no_params(), depth) {
                    Ok(id) => Ok((id, None)),
                    Err(err) => Err(err),
                },
            },
        }
    }

    fn annotate_value(&mut self, ann: &Option<Type>, x: Expr, t: TypeId, depth: usize) -> (r: Result<
        (TypeId, Option<Expr>),
        CompilationError,
    >)
        ensures
            (final(self)@, init_result(r)) == value_annotated(
                depth as nat,
                old(self)@,
                opt_type_v(*ann),
                x@,
                t,
            ),
    {
        match self.type_id_from_annotation(ann.as_ref(), &no_params(), depth) {
            Err(err) => Err(err),
            Ok(id) => match self.unify(id, t, depth) {
                Err(err) => Err(err),
                Ok(_) => Ok((id, Some(check_as(x, id)))),
            },
        }
    }

    fn infer_var(&mut self, name: String, ann: Option<Type>, init: Option<Expr>, span: Span, depth: usize) -> (r: Result<
        Stmt,
        CompilationError,
    >)
        ensures
            (final(self)@, stmt_result(r)) == var_typed(
                depth as nat,
                old(self)@,
                name@,
                opt_type_v(ann),
                opt_expr_v(init),
                span,
            ),
    {
        let missing = type_error(
            "Variable '".to_owned().concat(name.as_str()).concat(
                "' declared without type annotation or initializer",
            ),
        );
        match self.infer_initializer(&ann, init, missing, depth) {
            Err(err) => Err(err),
            Ok((id, init)) => {
                self.symbols.define_var(name.as_str(), id);
                Ok(make_stmt(StmtKind::VarDecl { name, annotation: ann, inferred: id, init }, span))
            },
        }
    }

    fn infer_dropped(&mut self, x: Expr, span: Span, depth: usize) -> (r: Result<Stmt, CompilationError>)
        ensures
            (final(self)@, stmt_result(r)) == value_dropped(depth as nat, old(self)@, x@, span),
    {
        let (x, res) = self.infer_expr(x, depth);
        match res {
            Err(err) => Err(err),
            Ok(_) => Ok(make_stmt(StmtKind::Expr(x), span)),
        }
    }

    fn infer_return(&mut self, x: Option<Expr>, span: Span, depth: usize) -> (r: Result<Stmt, CompilationError>)
        ensures
            (final(self)@, stmt_result(r)) == (match x {
                Some(y) => value_returned(depth as nat, old(self)@, y@, span),
                None => nothing_returned(depth as nat, old(self)@, span),
            }),
    {
        match x {
            Some(x) => {
                let (x, res) = self.infer_expr(x, depth);
                match res {
                    Err(err) => Err(err),
                    Ok(t) => match self.current_return_type {
                        None => Err(type_error("Return statement outside of function".to_owned())),
                        Some(ret) => match self.unify(ret, t, depth) {
                            Err(err) => Err(err),
                            Ok(_) => Ok(make_stmt(StmtKind::Return(Some(check_as(x, ret))), span)),
                        },
                    },
                }
            },
            None => match self.current_return_type {
                None => Err(type_error("Return statement outside of function".to_owned())),
                Some(ret) => {
                    let id = self.known(Type::Void);
                    match self.unify(ret, id, depth) {
                        Err(err) => Err(err),
                        Ok(_) => Ok(make_stmt(StmtKind::Return(None), span)),
                    }
                },
            },
        }
    }

    fn infer_loop_variable(&mut self, iter: TypeId) -> (r: Result<TypeId, CompilationError>)
        ensures
            (final(self)@, id_result(r)) == loop_variable(old(self)@, iter),
    {
        match self.store.resolve(iter) {
            Err(err) => Err(err),
            Ok(t) => match &t {
                Type::CArray(x, _) => {
                    proof {
                        assert(t@ == TypeV::CArray(Box::new(type_v(**x)), t->CArray_1));
                    }
                    Ok(self.known(copy_type(x)))
                },
                Type::Int => Ok(self.known(Type::Int)),
                Type::Void => Ok(self.known(Type::Int)),
                _ => Err(
                    type_error(
                        "For loop iterator must be Int, Range, or Array, found ".to_owned().concat(
                            t.to_c_name().as_str(),
                        ),
                    ),
                ),
            },
        }
    }

    fn infer_condition(&mut self, cond: Expr, depth: usize) -> (r: Result<Expr, CompilationError>)
        ensures
            (final(self)@, expr_result(r)) == condition_typed(depth as nat, old(self)@, cond@),
    {
        let (c, res) = self.infer_expr(cond, depth);
        match self.check_condition(res, depth) {
            Err(err) => Err(err),
            Ok(_) => Ok(c),
        }
    }

    fn infer_arm_pattern(&mut self, t: TypeId, p: Expr, depth: usize) -> (r: Result<Expr, CompilationError>)
        ensures
            (final(self)@, expr_result(r)) == arm_pattern_typed(depth as nat, old(self)@, t, p@),
    {
        if wildcard(&p) {
            return Ok(p);
        }
        let (p, res) = self.infer_pattern(p, depth);
        match res {
            Err(err) => Err(err),
            Ok(id) => match self.unify(t, id, depth) {
                Err(err) => Err(err),
                Ok(_) => Ok(p),
            },
        }
    }

    fn split_stmt(&mut self, s: Stmt, depth: usize) -> (r: Result<Vec<Stmt>, CompilationError>)
        ensures
            (final(self)@, stmts_result(r)) == pieces(depth as nat, old(self)@, s@),
    {
        match as_destructure(&s) {
            Some((pats, right)) => {
                let y = copy_expr(right);
                return self.desugar_tuple_destructure(pats, y, s.span, depth);
            },
            None => {},
        }
        let mut out: Vec<Stmt> = Vec::new();
        let ghost v = s@;
        out.push(s);
        proof {
            assert(stmts_v(out@) =~= seq![v]);
        }
        Ok(out)
    }

    /// Infers the types in a statement that is no destructuring assignment.
    #[verifier::spinoff_prover]
    #[verifier::rlimit(60)]
    pub fn infer_stmt_inner(&mut self, s: Stmt, depth: usize) -> (r: Result<Stmt, CompilationError>)
        ensures
            (final(self)@, stmt_result(r)) == plain_typed(depth as nat, old(self)@, s@),
        decreases depth, 0int,
    {
        if depth == 0 {
            return Err(type_error("definitions are nested too deeply".to_owned()));
        }
        let n: usize = depth - 1;
        proof {
            lemma_stmt_parts(s);
        }
        let Stmt { kind, span } = s;
        match kind {
            StmtKind::VarDecl { name, annotation, inferred: _, init } => self.infer_var(
                name,
                annotation,
                init,
                span,
                n,
            ),
            StmtKind::Expr(x) => self.infer_dropped(x, span, n),
            StmtKind::Return(x) => self.infer_return(x, span, n),
            StmtKind::If { cond, then_branch, else_branch } => self.infer_if_stmt(
                cond,
                then_branch,
                else_branch,
                span,
                n,
            ),
            StmtKind::While { cond, body } => self.infer_while(cond, body, span, n),
            StmtKind::For { var, iter, body } => self.infer_for(var, iter, body, span, n),
            StmtKind::Match(m) => self.infer_match_stmt(m.expr, m.arms, span, n),
            StmtKind::Defer { body } => self.infer_defer(*body, span, n),
            StmtKind::Block(b) => match self.infer_block(b, n) {
                Err(err) => Err(err),
                Ok(b) => Ok(make_stmt(StmtKind::Block(b), span)),
            },
            StmtKind::Break => Ok(make_stmt(StmtKind::Break, span)),
            StmtKind::Continue => Ok(make_stmt(StmtKind::Continue, span)),
        }
    }

    fn infer_if_stmt(&mut self, cond: Expr, a: Block, b: Option<Block>, span: Span, depth: usize) -> (r: Result<
        Stmt,
        CompilationError,
    >)
        ensures
            (final(self)@, stmt_result(r)) == if_typed(
                depth as nat,
                old(self)@,
                cond@,
                BlockV { stmts: stmts_v(a.stmts@) },
                opt_block_v(b),
                span,
            ),
        decreases depth, 5int,
    {
        let c = match self.infer_condition(cond, depth) {
            Err(err) => return Err(err),
            Ok(c) => c,
        };
        let a = match self.infer_block(a, depth) {
            Err(err) => return Err(err),
            Ok(a) => a,
        };
        let b = match b {
            None => None,
            Some(b) => {
                proof {
                    lemma_block_v(b);
                }
                match self.infer_block(b, depth) {
                    Err(err) => return Err(err),
                    Ok(b) => {
                        proof {
                            lemma_block_v(b);
                        }
                        Some(b)
                    },
                }
            },
        };
        Ok(make_stmt(StmtKind::If { cond: c, then_branch: a, else_branch: b }, span))
    }

    fn infer_while(&mut self, cond: Expr, body: Block, span: Span, depth: usize) -> (r: Result<Stmt, CompilationError>)
        ensures
            (final(self)@, stmt_result(r)) == while_typed(
                depth as nat,
                old(self)@,
                cond@,
                BlockV { stmts: stmts_v(body.stmts@) },
                span,
            ),
        decreases depth, 5int,
    {
        let c = match self.infer_condition(cond, depth) {
            Err(err) => return Err(err),
            Ok(c) => c,
        };
        match self.infer_block(body, depth) {
            Err(err) => Err(err),
            Ok(body) => Ok(make_stmt(StmtKind::While { cond: c, body }, span)),
        }
    }

    fn infer_for(&mut self, var: String, iter: Expr, body: Block, span: Span, depth: usize) -> (r: Result<
        Stmt,
        CompilationError,
    >)
        ensures
            (final(self)@, stmt_result(r)) == for_typed(
                depth as nat,
                old(self)@,
                var@,
                iter@,
                BlockV { stmts: stmts_v(body.stmts@) },
                span,
            ),
        decreases depth, 5int,
    {
        let (iter, res) = self.infer_expr(iter, depth);
        let t = match res {
            Err(err) => return Err(err),
            Ok(t) => t,
        };
        let id = match self.infer_loop_variable(t) {
            Err(err) => return Err(err),
            Ok(id) => id,
        };
        self.symbols.define_var(var.as_str(), id);
        match self.infer_block(body, depth) {
            Err(err) => Err(err),
            Ok(body) => Ok(make_stmt(StmtKind::For { var, iter, body }, span)),
        }
    }

    /// Infers the types in a `match` statement.
    pub fn infer_match_stmt(&mut self, x: Expr, arms: Vec<MatchArm>, span: Span, depth: usize) -> (r: Result<
        Stmt,
        CompilationError,
    >)
        ensures
            (final(self)@, stmt_result(r)) == match_typed(
                depth as nat,
                old(self)@,
                x@,
                arms_v(arms@),
                span,
            ),
        decreases depth, 7int,
    {
        let (x, res) = self.infer_expr(x, depth);
        let t = match res {
            Err(err) => return Err(err),
            Ok(t) => t,
        };
        match self.infer_arms(t, &arms, depth) {
            Err(err) => Err(err),
            Ok(arms) => {
                let m = crate::ast::MatchStmt { expr: x, arms };
                Ok(make_stmt(StmtKind::Match(m), span))
            },
        }
    }

    fn infer_arms(&mut self, t: TypeId, arms: &Vec<MatchArm>, depth: usize) -> (r: Result<
        Vec<MatchArm>,
        CompilationError,
    >)
        ensures
            (final(self)@, arms_result(r)) == arms_typed(
                depth as nat,
                old(self)@,
                t,
                arms_v(arms@),
                0,
                Seq::empty(),
            ),
        decreases depth, 6int,
    {
        let ghost e0 = self@;
        let mut out: Vec<MatchArm> = Vec::new();
        let mut i: usize = 0;
        proof {
            assert(arms_v(out@) =~= Seq::<MatchArmV>::empty());
        }
        while i < arms.len()
            invariant
                i <= arms@.len(),
                e0 == old(self)@,
                arms_typed(depth as nat, e0, t, arms_v(arms@), 0, Seq::empty()) == arms_typed(
                    depth as nat,
                    self@,
                    t,
                    arms_v(arms@),
                    i as int,
                    arms_v(out@),
                ),
            decreases arms@.len() - i,
        {
            assert(arms_v(arms@)[i as int] == arm_v(arms@[i as int]));
            let p = copy_expr(&arms[i].pattern);
            let b = copy_block(&arms[i].body);
            match self.infer_arm(t, p, b, depth) {
                Err(err) => return Err(err),
                Ok(a) => {
                    proof {
                        assert(arms_v(out@.push(a)) =~= arms_v(out@).push(arm_v(a)));
                    }
                    out.push(a);
                },
            }
            i = i + 1;
        }
        Ok(out)
    }

    fn infer_arm(&mut self, t: TypeId, pattern: Expr, body: Block, depth: usize) -> (r: Result<MatchArm, CompilationError>)
        ensures
            (final(self)@, arm_result(r)) == arm_typed(
                depth as nat,
                old(self)@,
                t,
                MatchArmV { pattern: pattern@, body: body@ },
            ),
        decreases depth, 5int,
    {
        proof {
            lemma_block_v(body);
        }
        self.enter_scope();
        let p = match self.infer_arm_pattern(t, pattern, depth) {
            Err(err) => return Err(err),
            Ok(p) => p,
        };
        match self.extract_pattern_bindings(&p, t, depth) {
            Err(err) => return Err(err),
            Ok(_) => {},
        }
        match self.infer_block(body, depth) {
            Err(err) => Err(err),
            Ok(body) => {
                self.leave_scope();
                proof {
                    lemma_block_v(body);
                }
                Ok(MatchArm { pattern: p, body })
            },
        }
    }

    fn infer_defer(&mut self, body: Stmt, span: Span, depth: usize) -> (r: Result<Stmt, CompilationError>)
        ensures
            (final(self)@, stmt_result(r)) == defer_typed(depth as nat, old(self)@, body@, span),
        decreases depth, 5int,
    {
        let inner = body.span;
        match self.infer_stmt(body, depth) {
            Err(err) => Err(err),
            Ok(ps) => {
                proof {
                    assert(stmts_v(ps@).len() == ps@.len());
                }
                let one = if ps.len() == 1 {
                    assert(stmts_v(ps@)[0] == ps@[0]@);
                    copy_stmt(&ps[0])
                } else {
                    make_stmt(StmtKind::Block(Block { stmts: ps }), inner)
                };
                Ok(make_stmt(StmtKind::Defer { body: Box::new(one) }, span))
            },
        }
    }

    /// Infers the types in a statement: the statements that it stands for.
    pub fn infer_stmt(&mut self, s: Stmt, depth: usize) -> (r: Result<Vec<Stmt>, CompilationError>)
        ensures
            (final(self)@, stmts_result(r)) == stmt_typed(depth as nat, old(self)@, s@),
        decreases depth, 2int,
    {
        let span = s.span;
        let res = match self.split_stmt(s, depth) {
            Err(err) => Err(err),
            Ok(ps) => self.infer_pieces(&ps, depth),
        };
        match res {
            Ok(v) => Ok(v),
            Err(err) => Err(self.wrap_err(err, span)),
        }
    }

    fn infer_pieces(&mut self, ps: &Vec<Stmt>, depth: usize) -> (r: Result<Vec<Stmt>, CompilationError>)
        ensures
            (final(self)@, stmts_result(r)) == pieces_typed(
                depth as nat,
                old(self)@,
                stmts_v(ps@),
                0,
                Seq::empty(),
            ),
        decreases depth, 1int,
    {
        let ghost e0 = self@;
        let mut out: Vec<Stmt> = Vec::new();
        let mut i: usize = 0;
        proof {
            assert(stmts_v(out@) =~= Seq::<StmtV>::empty());
        }
        while i < ps.len()
            invariant
                i <= ps@.len(),
                e0 == old(self)@,
                pieces_typed(depth as nat, e0, stmts_v(ps@), 0, Seq::empty()) == pieces_typed(
                    depth as nat,
                    self@,
                    stmts_v(ps@),
                    i as int,
                    stmts_v(out@),
                ),
            decreases ps@.len() - i,
        {
            assert(stmts_v(ps@)[i as int] == ps@[i as int]@);
            match self.infer_stmt_inner(copy_stmt(&ps[i]), depth) {
                Err(err) => return Err(err),
                Ok(s) => {
                    proof {
                        assert(stmts_v(out@.push(s)) =~= stmts_v(out@).push(s@));
                    }
                    out.push(s);
                },
            }
            i = i + 1;
        }
        Ok(out)
    }

    fn infer_stmts(&mut self, ss: &Vec<Stmt>, depth: usize) -> (r: Result<Vec<Stmt>, CompilationError>)
        ensures
            (final(self)@, stmts_result(r)) == stmts_typed(
                depth as nat,
                old(self)@,
                stmts_v(ss@),
                0,
                Seq::empty(),
            ),
        decreases depth, 3int,
    {
        let ghost e0 = self@;
        let mut out: Vec<Stmt> = Vec::new();
        let mut i: usize = 0;
        proof {
            assert(stmts_v(out@) =~= Seq::<StmtV>::empty());
        }
        while i < ss.len()
            invariant
                i <= ss@.len(),
                e0 == old(self)@,
                stmts_typed(depth as nat, e0, stmts_v(ss@), 0, Seq::empty()) == stmts_typed(
                    depth as nat,
                    self@,
                    stmts_v(ss@),
                    i as int,
                    stmts_v(out@),
                ),
            decreases ss@.len() - i,
        {
            assert(stmts_v(ss@)[i as int] == ss@[i as int]@);
            match self.infer_stmt(copy_stmt(&ss[i]), depth) {
                Err(err) => return Err(err),
                Ok(ps) => {
                    let mut more = ps;
                    let ghost before = out@;
                    let ghost extra = more@;
                    out.append(&mut more);
                    proof {
                        assert(stmts_v(out@) =~= stmts_v(before) + stmts_v(extra));
                    }
                },
            }
            i = i + 1;
        }
        Ok(out)
    }

    /// Infers the types in a block, in a scope of its own.
    pub fn infer_block(&mut self, b: Block, depth: usize) -> (r: Result<Block, CompilationError>)
        ensures
            (final(self)@, block_result(r)) == block_typed(depth as nat, old(self)@, stmts_v(b.stmts@)),
        decreases depth, 4int,
    {
        self.enter_scope();
        match self.infer_stmts(&b.stmts, depth) {
            Err(err) => Err(err),
            Ok(ss) => {
                self.leave_scope();
                Ok(Block { stmts: ss })
            },
        }
    }
}

} // verus!
