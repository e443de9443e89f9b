//! From the syntax tree: statements.
use crate::ast::{arm_v, arms_v, lemma_block_v, opt_block_v, opt_expr_v, stmts_v, Block, BlockV, Expr,
    ExprKind, ExprKindV, ExprV, MatchArm, MatchArmV, MatchStmt, Span, Stmt, StmtKind, StmtKindV, StmtV};
use crate::error::{CompilationError, ErrorV};
use crate::infer_bind::stmts_result;
use crate::infer_stmt::make_stmt;
use crate::syntax::{first_rule, lemma_syntax_v, rule_name, rule_text, span_of, syntaxes_v, NodeV, Rule,
    SyntaxNode};
use crate::text;
use crate::tree_types::{bad, bad_at, expr_of, parse_error, parse_type, type_of, viewed, Parser, SourceV};
use crate::types::{opt_type_v, Type, TypeId, TypeV};
use vstd::prelude::*;

verus! {

/// The type annotation among the parts of a declaration.
pub open spec fn annotation_of(src: SourceV, n: NodeV, scope: Seq<Seq<char>>) -> Result<Option<TypeV>, ErrorV> {
    match first_rule(n.children, Rule::TypeAnnotation, 0) {
        None => Ok(None),
        Some(k) => match type_of(src, k, scope) {
            Ok(t) => Ok(Some(t)),
            Err(e) => Err(e),
        },
    }
}

/// The expression among the parts of a declaration.
pub open spec fn value_of(src: SourceV, n: NodeV) -> Result<Option<ExprV>, ErrorV> {
    match first_rule(n.children, Rule::Expr, 0) {
        None => Ok(None),
        Some(k) => match expr_of(src, k) {
            Ok(x) => Ok(Some(x)),
            Err(e) => Err(e),
        },
    }
}

/// The declaration of a variable.
pub open spec fn var_of(src: SourceV, n: NodeV, scope: Seq<Seq<char>>) -> Result<StmtV, ErrorV> {
    match first_rule(n.children, Rule::Identifier, 0) {
        None => Err(bad_at(src, span_of(n), "var_decl missing identifier"@)),
        Some(id) => match annotation_of(src, n, scope) {
            Err(e) => Err(e),
            Ok(annotation) => match value_of(src, n) {
                Err(e) => Err(e),
                Ok(init) => Ok(
                    StmtV {
                        kind: StmtKindV::VarDecl { name: id.text, annotation, inferred: TypeId(0), init },
                        span: span_of(n),
                    },
                ),
            },
        },
    }
}

/// An expression that stands as a statement.
pub open spec fn expr_stmt_of(src: SourceV, n: NodeV) -> Result<StmtV, ErrorV> {
    if n.children.len() == 0 {
        Err(bad_at(src, span_of(n), "expression statement is empty"@))
    } else {
        match expr_of(src, n.children[0]) {
            Ok(x) => Ok(StmtV { kind: StmtKindV::Expr(x), span: span_of(n) }),
            Err(e) => Err(e),
        }
    }
}

/// A `return` statement.
pub open spec fn return_of(src: SourceV, n: NodeV) -> Result<StmtV, ErrorV> {
    if n.children.len() == 0 {
        Ok(StmtV { kind: StmtKindV::Return(None), span: span_of(n) })
    } else {
        match expr_of(src, n.children[0]) {
            Ok(x) => Ok(StmtV { kind: StmtKindV::Return(Some(x)), span: span_of(n) }),
            Err(e) => Err(e),
        }
    }
}

/// A block that holds one expression.
pub open spec fn expr_block(x: ExprV, span: Span) -> BlockV {
    BlockV { stmts: seq![StmtV { kind: StmtKindV::Expr(x), span }] }
}

/// An arm of a `match`.
pub open spec fn case_of(src: SourceV, n: NodeV) -> Result<MatchArmV, ErrorV> {
    if n.children.len() == 0 {
        Err(bad_at(src, span_of(n), "match case missing pattern"@))
    } else {
        match expr_of(src, n.children[0]) {
            Err(e) => Err(e),
            Ok(pattern) => if n.children.len() < 2 {
                Err(bad_at(src, span_of(n), "match case missing body"@))
            } else {
                match expr_of(src, n.children[1]) {
                    Err(e) => Err(e),
                    Ok(x) => Ok(MatchArmV { pattern, body: expr_block(x, span_of(n)) }),
                }
            },
        }
    }
}

/// The body of the default arm of a `match`.
pub open spec fn default_case_of(src: SourceV, n: NodeV) -> Result<BlockV, ErrorV> {
    if n.children.len() == 0 {
        Err(bad_at(src, span_of(n), "default case missing body"@))
    } else {
        match expr_of(src, n.children[0]) {
            Err(e) => Err(e),
            Ok(x) => Ok(expr_block(x, span_of(n))),
        }
    }
}

/// The arms of a `match` from position `i` on, appended to `acc`, and the body of the last
/// default arm.
pub open spec fn cases_of(src: SourceV, ns: Seq<NodeV>, i: int, acc: Seq<MatchArmV>, def: Option<BlockV>) -> Result<
    (Seq<MatchArmV>, Option<BlockV>),
    ErrorV,
>
    decreases ns.len() - i,
{
    if i < 0 || i >= ns.len() {
        Ok((acc, def))
    } else if ns[i].rule == Rule::MatchCase {
        match case_of(src, ns[i]) {
            Ok(a) => cases_of(src, ns, i + 1, acc.push(a), def),
            Err(e) => Err(e),
        }
    } else if ns[i].rule == Rule::DefaultCase {
        match default_case_of(src, ns[i]) {
            Ok(b) => cases_of(src, ns, i + 1, acc, Some(b)),
            Err(e) => Err(e),
        }
    } else {
        cases_of(src, ns, i + 1, acc, def)
    }
}

/// The arms of a `match` with the default arm, where there is one, as the last.
pub open spec fn arms_with_default(acc: Seq<MatchArmV>, def: Option<BlockV>, span: Span) -> Seq<MatchArmV> {
    match def {
        None => acc,
        Some(body) => acc.push(
            MatchArmV {
                pattern: ExprV { kind: ExprKindV::Identifier { name: "default"@ }, ty: TypeId(0), span },
                body,
            },
        ),
    }
}

/// A `match` statement.
pub open spec fn match_of(src: SourceV, n: NodeV) -> Result<StmtV, ErrorV> {
    if n.children.len() == 0 {
        Err(bad_at(src, span_of(n), "match statement missing expression"@))
    } else {
        match expr_of(src, n.children[0]) {
            Err(e) => Err(e),
            Ok(expr) => match cases_of(src, n.children, 1, Seq::empty(), None) {
                Err(e) => Err(e),
                Ok((acc, def)) => Ok(
                    StmtV {
                        kind: StmtKindV::Match { expr, arms: arms_with_default(acc, def, span_of(n)) },
                        span: span_of(n),
                    },
                ),
            },
        }
    }
}

/// The statement that a wrapper node inside the node at `at` holds.
pub open spec fn stmt_of(src: SourceV, at: Span, n: NodeV, scope: Seq<Seq<char>>) -> Result<StmtV, ErrorV>
    decreases n, 1int,
{
    if n.children.len() == 0 {
        Err(bad_at(src, at, "statement wrapper is empty"@))
    } else {
        let k = n.children[0];
        if k.rule == Rule::DeferStmt {
            if k.children.len() == 0 {
                Err(bad_at(src, span_of(k), "defer missing body"@))
            } else {
                match stmt_of(src, span_of(k), k.children[0], scope) {
                    Ok(body) => Ok(StmtV { kind: StmtKindV::Defer { body: Box::new(body) }, span: span_of(k) }),
                    Err(e) => Err(e),
                }
            }
        } else if k.rule == Rule::BlockStmt {
            if k.children.len() == 0 {
                Err(bad_at(src, at, "block_stmt wrapper is empty"@))
            } else {
                match block_of(src, k.children[0], scope) {
                    Ok(b) => Ok(StmtV { kind: StmtKindV::Block(b), span: span_of(k) }),
                    Err(e) => Err(e),
                }
            }
        } else if k.rule == Rule::VarDecl {
            var_of(src, k, scope)
        } else if k.rule == Rule::ExprStmt {
            expr_stmt_of(src, k)
        } else if k.rule == Rule::ReturnStmt {
            return_of(src, k)
        } else if k.rule == Rule::IfStmt {
            if_of(src, k, scope)
        } else if k.rule == Rule::WhileStmt {
            while_of(src, k, scope)
        } else if k.rule == Rule::ForStmt {
            for_of(src, k, scope)
        } else if k.rule == Rule::BreakStmt {
            Ok(StmtV { kind: StmtKindV::Break, span: span_of(k) })
        } else if k.rule == Rule::ContinueStmt {
            Ok(StmtV { kind: StmtKindV::Continue, span: span_of(k) })
        } else if k.rule == Rule::MatchStmt {
            match_of(src, k)
        } else {
            Err(bad("unexpected statement: "@ + rule_text(k.rule)))
        }
    }
}

/// A block: its parts that are statements.
pub open spec fn block_of(src: SourceV, n: NodeV, scope: Seq<Seq<char>>) -> Result<BlockV, ErrorV>
    decreases n, 1int,
{
    match stmts_of(src, span_of(n), n.children, scope, 0, Seq::empty()) {
        Ok(stmts) => Ok(BlockV { stmts }),
        Err(e) => Err(e),
    }
}

/// The statements from position `i` on, appended to `acc`.
pub open spec fn stmts_of(
    src: SourceV,
    at: Span,
    ns: Seq<NodeV>,
    scope: Seq<Seq<char>>,
    i: int,
    acc: Seq<StmtV>,
) -> Result<Seq<StmtV>, ErrorV>
    decreases ns, ns.len() - i,
    when 0 <= i <= ns.len()
{
    if i >= ns.len() {
        Ok(acc)
    } else if ns[i].rule == Rule::Statement {
        match stmt_of(src, at, ns[i], scope) {
            Ok(s) => stmts_of(src, at, ns, scope, i + 1, acc.push(s)),
            Err(e) => Err(e),
        }
    } else {
        stmts_of(src, at, ns, scope, i + 1, acc)
    }
}

/// An `if` statement. An `else if` is a block with the one statement.
pub open spec fn if_of(src: SourceV, n: NodeV, scope: Seq<Seq<char>>) -> Result<StmtV, ErrorV>
    decreases n, 1int,
{
    if n.children.len() == 0 {
        Err(bad_at(src, span_of(n), "if statement missing condition"@))
    } else {
        match expr_of(src, n.children[0]) {
            Err(e) => Err(e),
            Ok(cond) => if n.children.len() < 2 {
                Err(bad_at(src, span_of(n), "if statement missing then branch"@))
            } else {
                match block_of(src, n.children[1], scope) {
                    Err(e) => Err(e),
                    Ok(then_branch) => if n.children.len() < 3 {
                        Ok(
                            StmtV {
                                kind: StmtKindV::If { cond, then_branch, else_branch: None },
                                span: span_of(n),
                            },
                        )
                    } else {
                        match else_of(src, span_of(n), n.children[2], scope) {
                            Err(e) => Err(e),
                            Ok(b) => Ok(
                                StmtV {
                                    kind: StmtKindV::If { cond, then_branch, else_branch: Some(b) },
                                    span: span_of(n),
                                },
                            ),
                        }
                    },
                }
            },
        }
    }
}

/// The `else` part of the `if` statement at `at`.
pub open spec fn else_of(src: SourceV, at: Span, n: NodeV, scope: Seq<Seq<char>>) -> Result<BlockV, ErrorV>
    decreases n, 1int,
{
    if n.children.len() == 0 {
        Err(bad_at(src, at, "else part is empty"@))
    } else if n.children[0].rule == Rule::IfStmt {
        match if_of(src, n.children[0], scope) {
            Ok(s) => Ok(BlockV { stmts: seq![s] }),
            Err(e) => Err(e),
        }
    } else {
        block_of(src, n.children[0], scope)
    }
}

/// A `while` statement.
pub open spec fn while_of(src: SourceV, n: NodeV, scope: Seq<Seq<char>>) -> Result<StmtV, ErrorV>
    decreases n, 1int,
{
    if n.children.len() == 0 {
        Err(bad_at(src, span_of(n), "while statement missing condition"@))
    } else {
        match expr_of(src, n.children[0]) {
            Err(e) => Err(e),
            Ok(cond) => if n.children.len() < 2 {
                Err(bad_at(src, span_of(n), "while statement missing body"@))
            } else {
                match block_of(src, n.children[1], scope) {
                    Err(e) => Err(e),
                    Ok(body) => Ok(StmtV { kind: StmtKindV::While { cond, body }, span: span_of(n) }),
                }
            },
        }
    }
}

/// A `for` statement.
pub open spec fn for_of(src: SourceV, n: NodeV, scope: Seq<Seq<char>>) -> Result<StmtV, ErrorV>
    decreases n, 1int,
{
    if n.children.len() == 0 {
        Err(bad_at(src, span_of(n), "for statement missing variable"@))
    } else if n.children.len() < 2 {
        Err(bad_at(src, span_of(n), "for statement missing iterable"@))
    } else {
        match expr_of(src, n.children[1]) {
            Err(e) => Err(e),
            Ok(iter) => if n.children.len() < 3 {
                Err(bad_at(src, span_of(n), "for statement missing body"@))
            } else {
                match block_of(src, n.children[2], scope) {
                    Err(e) => Err(e),
                    Ok(body) => Ok(
                        StmtV { kind: StmtKindV::For { var: n.children[0].text, iter, body }, span: span_of(n) },
                    ),
                }
            },
        }
    }
}

/// The contents of an optional type, or of an error.
pub open spec fn opt_type_result(r: Result<Option<Type>, CompilationError>) -> Result<Option<TypeV>, ErrorV> {
    match r {
        Ok(t) => Ok(opt_type_v(t)),
        Err(e) => Err(e@),
    }
}

/// The contents of an optional expression, or of an error.
pub open spec fn opt_expr_result(r: Result<Option<Expr>, CompilationError>) -> Result<Option<ExprV>, ErrorV> {
    match r {
        Ok(x) => Ok(opt_expr_v(x)),
        Err(e) => Err(e@),
    }
}

/// The contents of `match` arms and a default body, or of an error.
pub open spec fn cases_result(r: Result<(Vec<MatchArm>, Option<Block>), CompilationError>) -> Result<
    (Seq<MatchArmV>, Option<BlockV>),
    ErrorV,
> {
    match r {
        Ok((v, d)) => Ok((arms_v(v@), opt_block_v(d))),
        Err(e) => Err(e@),
    }
}

/// Reads the type annotation among the parts of a declaration.
pub fn parse_annotation(parser: &Parser, n: &SyntaxNode, scope: &Vec<String>) -> (r: Result<Option<Type>, CompilationError>)
    ensures
        opt_type_result(r) == annotation_of(parser@, n@, text::texts(scope@)),
{
    match n.find_rule(Rule::TypeAnnotation) {
        None => Ok(None),
        Some(k) => match parse_type(parser, k, scope) {
            Ok(t) => Ok(Some(t)),
            Err(e) => Err(e),
        },
    }
}

fn one_expr_block(x: Expr, span: Span) -> (r: Block)
    ensures
        r@ == expr_block(x@, span),
{
    let s = make_stmt(StmtKind::Expr(x), span);
    let ghost sv = s@;
    let mut stmts: Vec<Stmt> = Vec::new();
    stmts.push(s);
    let b = Block { stmts };
    proof {
        lemma_block_v(b);
        assert(stmts_v(b.stmts@) =~= seq![sv]);
    }
    b
}

impl Parser {
    /// Reads the expression among the parts of a declaration.
    pub fn parse_value(&self, n: &SyntaxNode) -> (r: Result<Option<Expr>, CompilationError>)
        requires
            self.fits(),
        ensures
            opt_expr_result(r) == value_of(self@, n@),
    {
        match n.find_rule(Rule::Expr) {
            None => Ok(None),
            Some(k) => match self.parse_expr(k) {
                Ok(x) => Ok(Some(x)),
                Err(e) => Err(e),
            },
        }
    }

    fn parse_var_decl(&self, n: &SyntaxNode, scope: &Vec<String>) -> (r: Result<Stmt, CompilationError>)
        requires
            self.fits(),
        ensures
            viewed(r) == var_of(self@, n@, text::texts(scope@)),
    {
        let id = match n.find_rule(Rule::Identifier) {
            None => return Err(self.error_at(n.span(), "var_decl missing identifier")),
            Some(k) => k,
        };
        proof {
            lemma_syntax_v(*id);
        }
        let annotation = match parse_annotation(self, n, scope) {
            Err(e) => return Err(e),
            Ok(t) => t,
        };
        let init = match self.parse_value(n) {
            Err(e) => return Err(e),
            Ok(x) => x,
        };
        Ok(
            make_stmt(
                StmtKind::VarDecl { name: id.text.clone(), annotation, inferred: TypeId(0), init },
                n.span(),
            ),
        )
    }

    fn parse_expr_stmt(&self, n: &SyntaxNode) -> (r: Result<Stmt, CompilationError>)
        requires
            self.fits(),
        ensures
            viewed(r) == expr_stmt_of(self@, n@),
    {
        proof {
            lemma_syntax_v(*n);
        }
        if n.children.len() == 0 {
            return Err(self.error_at(n.span(), "expression statement is empty"));
        }
        assert(n@.children[0] == n.children@[0]@);
        match self.parse_expr(&n.children[0]) {
            Ok(x) => Ok(make_stmt(StmtKind::Expr(x), n.span())),
            Err(e) => Err(e),
        }
    }

    fn parse_return(&self, n: &SyntaxNode) -> (r: Result<Stmt, CompilationError>)
        requires
            self.fits(),
        ensures
            viewed(r) == return_of(self@, n@),
    {
        proof {
            lemma_syntax_v(*n);
        }
        if n.children.len() == 0 {
            return Ok(make_stmt(StmtKind::Return(None), n.span()));
        }
        assert(n@.children[0] == n.children@[0]@);
        match self.parse_expr(&n.children[0]) {
            Ok(x) => Ok(make_stmt(StmtKind::Return(Some(x)), n.span())),
            Err(e) => Err(e),
        }
    }

    fn parse_case(&self, n: &SyntaxNode) -> (r: Result<MatchArm, CompilationError>)
        requires
            self.fits(),
        ensures
            crate::infer_stmt::arm_result(r) == case_of(self@, n@),
    {
        proof {
            lemma_syntax_v(*n);
        }
        if n.children.len() == 0 {
            return Err(self.error_at(n.span(), "match case missing pattern"));
        }
        assert(n@.children[0] == n.children@[0]@);
        let pattern = match self.parse_expr(&n.children[0]) {
            Err(e) => return Err(e),
            Ok(x) => x,
        };
        if n.children.len() < 2 {
            return Err(self.error_at(n.span(), "match case missing body"));
        }
        assert(n@.children[1] == n.children@[1]@);
        match self.parse_expr(&n.children[1]) {
            Err(e) => Err(e),
            Ok(x) => Ok(MatchArm { pattern, body: one_expr_block(x, n.span()) }),
        }
    }

    fn parse_default_case(&self, n: &SyntaxNode) -> (r: Result<Block, CompilationError>)
        requires
            self.fits(),
        ensures
            viewed(r) == default_case_of(self@, n@),
    {
        proof {
            lemma_syntax_v(*n);
        }
        if n.children.len() == 0 {
            return Err(self.error_at(n.span(), "default case missing body"));
        }
        assert(n@.children[0] == n.children@[0]@);
        match self.parse_expr(&n.children[0]) {
            Err(e) => Err(e),
            Ok(x) => Ok(one_expr_block(x, n.span())),
        }
    }

    fn parse_cases(&self, n: &SyntaxNode) -> (r: Result<(Vec<MatchArm>, Option<Block>), CompilationError>)
        requires
            self.fits(),
            n.children@.len() > 0,
        ensures
            cases_result(r) == cases_of(self@, n@.children, 1, Seq::empty(), None),
    {
        proof {
            lemma_syntax_v(*n);
        }
        let ghost cs = n@.children;
        let mut out: Vec<MatchArm> = Vec::new();
        let mut def: Option<Block> = None;
        let mut i: usize = 1;
        proof {
            assert(arms_v(out@) =~= Seq::<MatchArmV>::empty());
        }
        while i < n.children.len()
            invariant
                1 <= i <= n.children@.len(),
                self.fits(),
                cs == n@.children,
                cs.len() == n.children@.len(),
                forall|k: int| 0 <= k < n.children@.len() ==> #[trigger] cs[k] == n.children@[k]@,
                cases_of(self@, cs, 1, Seq::empty(), None) == cases_of(
                    self@,
                    cs,
                    i as int,
                    arms_v(out@),
                    opt_block_v(def),
                ),
            decreases n.children@.len() - i,
        {
            proof {
                assert(cs[i as int] == n.children@[i as int]@);
                lemma_syntax_v(n.children@[i as int]);
            }
            let c = &n.children[i];
            if c.rule == Rule::MatchCase {
                match self.parse_case(c) {
                    Err(e) => return Err(e),
                    Ok(a) => {
                        proof {
                            assert(arms_v(out@.push(a)) =~= arms_v(out@).push(arm_v(a)));
                        }
                        out.push(a);
                    },
                }
            } else if c.rule == Rule::DefaultCase {
                match self.parse_default_case(c) {
                    Err(e) => return Err(e),
                    Ok(b) => {
                        def = Some(b);
                    },
                }
            }
            i = i + 1;
        }
        Ok((out, def))
    }

    /// Reads a `match` statement.
    pub fn parse_match_stmt(&self, n: &SyntaxNode) -> (r: Result<Stmt, CompilationError>)
        requires
            self.fits(),
        ensures
            viewed(r) == match_of(self@, n@),
    {
        proof {
            lemma_syntax_v(*n);
        }
        if n.children.len() == 0 {
            return Err(self.error_at(n.span(), "match statement missing expression"));
        }
        assert(n@.children[0] == n.children@[0]@);
        let expr = match self.parse_expr(&n.children[0]) {
            Err(e) => return Err(e),
            Ok(x) => x,
        };
        let (acc, def) = match self.parse_cases(n) {
            Err(e) => return Err(e),
            Ok(p) => p,
        };
        let ghost av = arms_v(acc@);
        let ghost dv = opt_block_v(def);
        let mut arms = acc;
        match def {
            None => {},
            Some(body) => {
                let pattern = Expr {
                    kind: ExprKind::Identifier { name: "default".to_owned() },
                    ty: TypeId(0),
                    span: n.span(),
                };
                let ghost pv = pattern@;
                proof {
                    assert(pv == (ExprV {
                        kind: ExprKindV::Identifier { name: "default"@ },
                        ty: TypeId(0),
                        span: span_of(n@),
                    }));
                }
                let arm = MatchArm { pattern, body };
                let ghost before = arms@;
                let ghost one = arm_v(arm);
                arms.push(arm);
                proof {
                    assert(arms_v(arms@) =~= arms_v(before).push(one));
                }
            },
        }
        proof {
            assert(arms_v(arms@) == arms_with_default(av, dv, span_of(n@)));
        }
        let m = MatchStmt { expr, arms };
        Ok(make_stmt(StmtKind::Match(m), n.span()))
    }

    /// Reads the statement that a wrapper node inside the node at `at` holds.
    pub fn parse_statement_pair(&self, n: &SyntaxNode, at: Span, scope: &Vec<String>) -> (r: Result<
        Stmt,
        CompilationError,
    >)
        requires
            self.fits(),
        ensures
            viewed(r) == stmt_of(self@, at, n@, text::texts(scope@)),
        decreases *n, 1int,
    {
        proof {
            lemma_syntax_v(*n);
        }
        if n.children.len() == 0 {
            return Err(self.error_at(at, "statement wrapper is empty"));
        }
        let k = &n.children[0];
        proof {
            assert(n@.children[0] == k@);
            lemma_syntax_v(*k);
        }
        if k.rule == Rule::DeferStmt {
            if k.children.len() == 0 {
                return Err(self.error_at(k.span(), "defer missing body"));
            }
            assert(k@.children[0] == k.children@[0]@);
            match self.parse_statement_pair(&k.children[0], k.span(), scope) {
                Ok(body) => Ok(make_stmt(StmtKind::Defer { body: Box::new(body) }, k.span())),
                Err(e) => Err(e),
            }
        } else if k.rule == Rule::BlockStmt {
            if k.children.len() == 0 {
                return Err(self.error_at(at, "block_stmt wrapper is empty"));
            }
            assert(k@.children[0] == k.children@[0]@);
            match self.parse_block(&k.children[0], scope) {
                Ok(b) => {
                    proof {
                        lemma_block_v(b);
                    }
                    Ok(make_stmt(StmtKind::Block(b), k.span()))
                },
                Err(e) => Err(e),
            }
        } else if k.rule == Rule::VarDecl {
            self.parse_var_decl(k, scope)
        } else if k.rule == Rule::ExprStmt {
            self.parse_expr_stmt(k)
        } else if k.rule == Rule::ReturnStmt {
            self.parse_return(k)
        } else if k.rule == Rule::IfStmt {
            self.parse_if_stmt(k, scope)
        } else if k.rule == Rule::WhileStmt {
            self.parse_while_stmt(k, scope)
        } else if k.rule == Rule::ForStmt {
            self.parse_for_stmt(k, scope)
        } else if k.rule == Rule::BreakStmt {
            Ok(make_stmt(StmtKind::Break, k.span()))
        } else if k.rule == Rule::ContinueStmt {
            Ok(make_stmt(StmtKind::Continue, k.span()))
        } else if k.rule == Rule::MatchStmt {
            self.parse_match_stmt(k)
        } else {
            Err(parse_error("unexpected statement: ".to_owned().concat(rule_name(k.rule)).as_str()))
        }
    }

    /// Reads a block.
    pub fn parse_block(&self, n: &SyntaxNode, scope: &Vec<String>) -> (r: Result<Block, CompilationError>)
        requires
            self.fits(),
        ensures
            viewed(r) == block_of(self@, n@, text::texts(scope@)),
        decreases *n, 1int,
    {
        proof {
            lemma_syntax_v(*n);
        }
        match self.parse_stmts(&n.children, n.span(), scope) {
            Ok(stmts) => {
                let b = Block { stmts };
                proof {
                    lemma_block_v(b);
                }
                Ok(b)
            },
            Err(e) => Err(e),
        }
    }

    fn parse_stmts(&self, ns: &Vec<SyntaxNode>, at: Span, scope: &Vec<String>) -> (r: Result<
        Vec<Stmt>,
        CompilationError,
    >)
        requires
            self.fits(),
        ensures
            stmts_result(r) == stmts_of(self@, at, syntaxes_v(ns@), text::texts(scope@), 0, Seq::empty()),
        decreases *ns, 0int,
    {
        let ghost cs = syntaxes_v(ns@);
        let mut out: Vec<Stmt> = Vec::new();
        let mut i: usize = 0;
        proof {
            assert(stmts_v(out@) =~= Seq::<StmtV>::empty());
        }
        while i < ns.len()
            invariant
                i <= ns@.len(),
                self.fits(),
                cs == syntaxes_v(ns@),
                stmts_of(self@, at, cs, text::texts(scope@), 0, Seq::empty()) == stmts_of(
                    self@,
                    at,
                    cs,
                    text::texts(scope@),
                    i as int,
                    stmts_v(out@),
                ),
            decreases ns@.len() - i,
        {
            proof {
                assert(cs[i as int] == ns@[i as int]@);
                lemma_syntax_v(ns@[i as int]);
            }
            if ns[i].rule == Rule::Statement {
                match self.parse_statement_pair(&ns[i], at, scope) {
                    Ok(s) => {
                        proof {
                            assert(stmts_v(out@.push(s)) =~= stmts_v(out@).push(s@));
                        }
                        out.push(s);
                    },
                    Err(e) => return Err(e),
                }
            }
            i = i + 1;
        }
        Ok(out)
    }

    fn parse_if_stmt(&self, n: &SyntaxNode, scope: &Vec<String>) -> (r: Result<Stmt, CompilationError>)
        requires
            self.fits(),
        ensures
            viewed(r) == if_of(self@, n@, text::texts(scope@)),
        decreases *n, 1int,
    {
        proof {
            lemma_syntax_v(*n);
        }
        if n.children.len() == 0 {
            return Err(self.error_at(n.span(), "if statement missing condition"));
        }
        assert(n@.children[0] == n.children@[0]@);
        let cond = match self.parse_expr(&n.children[0]) {
            Err(e) => return Err(e),
            Ok(x) => x,
        };
        if n.children.len() < 2 {
            return Err(self.error_at(n.span(), "if statement missing then branch"));
        }
        assert(n@.children[1] == n.children@[1]@);
        let then_branch = match self.parse_block(&n.children[1], scope) {
            Err(e) => return Err(e),
            Ok(b) => b,
        };
        proof {
            lemma_block_v(then_branch);
        }
        if n.children.len() < 3 {
            return Ok(make_stmt(StmtKind::If { cond, then_branch, else_branch: None }, n.span()));
        }
        assert(n@.children[2] == n.children@[2]@);
        match self.parse_else(&n.children[2], n.span(), scope) {
            Err(e) => Err(e),
            Ok(b) => Ok(make_stmt(StmtKind::If { cond, then_branch, else_branch: Some(b) }, n.span())),
        }
    }

    fn parse_else(&self, n: &SyntaxNode, at: Span, scope: &Vec<String>) -> (r: Result<Block, CompilationError>)
        requires
            self.fits(),
        ensures
            viewed(r) == else_of(self@, at, n@, text::texts(scope@)),
        decreases *n, 1int,
    {
        proof {
            lemma_syntax_v(*n);
        }
        if n.children.len() == 0 {
            return Err(self.error_at(at, "else part is empty"));
        }
        proof {
            assert(n@.children[0] == n.children@[0]@);
            lemma_syntax_v(n.children@[0]);
        }
        if n.children[0].rule == Rule::IfStmt {
            match self.parse_if_stmt(&n.children[0], scope) {
                Ok(s) => {
                    let ghost sv = s@;
                    let mut stmts: Vec<Stmt> = Vec::new();
                    stmts.push(s);
                    let b = Block { stmts };
                    proof {
                        lemma_block_v(b);
                        assert(stmts_v(b.stmts@) =~= seq![sv]);
                    }
                    Ok(b)
                },
                Err(e) => Err(e),
            }
        } else {
            self.parse_block(&n.children[0], scope)
        }
    }

    fn parse_while_stmt(&self, n: &SyntaxNode, scope: &Vec<String>) -> (r: Result<Stmt, CompilationError>)
        requires
            self.fits(),
        ensures
            viewed(r) == while_of(self@, n@, text::texts(scope@)),
        decreases *n, 1int,
    {
        proof {
            lemma_syntax_v(*n);
        }
        if n.children.len() == 0 {
            return Err(self.error_at(n.span(), "while statement missing condition"));
        }
        assert(n@.children[0] == n.children@[0]@);
        let cond = match self.parse_expr(&n.children[0]) {
            Err(e) => return Err(e),
            Ok(x) => x,
        };
        if n.children.len() < 2 {
            return Err(self.error_at(n.span(), "while statement missing body"));
        }
        assert(n@.children[1] == n.children@[1]@);
        match self.parse_block(&n.children[1], scope) {
            Err(e) => Err(e),
            Ok(body) => {
                proof {
                    lemma_block_v(body);
                }
                Ok(make_stmt(StmtKind::While { cond, body }, n.span()))
            },
        }
    }

    fn parse_for_stmt(&self, n: &SyntaxNode, scope: &Vec<String>) -> (r: Result<Stmt, CompilationError>)
        requires
            self.fits(),
        ensures
            viewed(r) == for_of(self@, n@, text::texts(scope@)),
        decreases *n, 1int,
    {
        proof {
            lemma_syntax_v(*n);
        }
        if n.children.len() == 0 {
            return Err(self.error_at(n.span(), "for statement missing variable"));
        }
        if n.children.len() < 2 {
            return Err(self.error_at(n.span(), "for statement missing iterable"));
        }
        proof {
            assert(n@.children[0] == n.children@[0]@);
            assert(n@.children[1] == n.children@[1]@);
            lemma_syntax_v(n.children@[0]);
        }
        let iter = match self.parse_expr(&n.children[1]) {
            Err(e) => return Err(e),
            Ok(x) => x,
        };
        if n.children.len() < 3 {
            return Err(self.error_at(n.span(), "for statement missing body"));
        }
        assert(n@.children[2] == n.children@[2]@);
        match self.parse_block(&n.children[2], scope) {
            Err(e) => Err(e),
            Ok(body) => {
                proof {
                    lemma_block_v(body);
                }
                Ok(make_stmt(StmtKind::For { var: n.children[0].text.clone(), iter, body }, n.span()))
            },
        }
    }
}

} // verus!
