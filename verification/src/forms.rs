//! What type inference keeps of statements: their kinds, names, branches and places.
use crate::ast::{MatchArmV, StmtKindV, StmtV};
use crate::engine::{def_var, scope_entered, EnvV};
use crate::infer_spec::expr_typed;
use crate::stmt_spec::{arm_pattern_typed, arm_typed, arms_typed, block_typed, condition_typed, defer_typed,
    for_typed, if_typed, loop_variable, match_typed, pieces, pieces_typed, plain_typed, stmt_inner_typed,
    stmt_typed, stmts_typed, while_typed};
use crate::types::TypeId;
use vstd::prelude::*;

verus! {

/// Whether two statements have one form: one kind, the same names and annotations, values where the
/// other has values, and the same number of statements, of one form each, in every block.
pub open spec fn same_form(a: StmtV, b: StmtV) -> bool
    decreases a,
{
    &&& a.span == b.span
    &&& match a.kind {
        StmtKindV::VarDecl { name, annotation, init, .. } => b.kind is VarDecl && b.kind->VarDecl_name == name
            && b.kind->VarDecl_annotation == annotation && (init is Some <==> b.kind->VarDecl_init is Some),
        StmtKindV::Expr(_) => b.kind is Expr,
        StmtKindV::Return(x) => b.kind is Return && (x is Some <==> b.kind->Return_0 is Some),
        StmtKindV::If { then_branch, else_branch, .. } => {
            &&& b.kind is If
            &&& same_forms(then_branch.stmts, b.kind->If_then_branch.stmts)
            &&& match else_branch {
                Some(x) => b.kind->If_else_branch is Some && same_forms(x.stmts, b.kind->If_else_branch->0.stmts),
                None => b.kind->If_else_branch is None,
            }
        },
        StmtKindV::While { body, .. } => b.kind is While && same_forms(body.stmts, b.kind->While_body.stmts),
        StmtKindV::For { var, body, .. } => b.kind is For && b.kind->For_var == var && same_forms(
            body.stmts,
            b.kind->For_body.stmts,
        ),
        StmtKindV::Match { arms, .. } => b.kind is Match && same_arms(arms, b.kind->Match_arms),
        StmtKindV::Defer { body } => b.kind is Defer && same_form(*body, *(b.kind->Defer_body)),
        StmtKindV::Block(x) => b.kind is Block && same_forms(x.stmts, b.kind->Block_0.stmts),
        StmtKindV::Break => b.kind is Break,
        StmtKindV::Continue => b.kind is Continue,
    }
}

/// Whether two lists have statements of one form each.
pub open spec fn same_forms(a: Seq<StmtV>, b: Seq<StmtV>) -> bool
    decreases a,
{
    a.len() == b.len() && forall|i: int| 0 <= i < a.len() ==> same_form(#[trigger] a[i], b[i])
}

/// Whether two lists of `match` arms have bodies of one form each.
pub open spec fn same_arms(a: Seq<MatchArmV>, b: Seq<MatchArmV>) -> bool
    decreases a,
{
    a.len() == b.len() && forall|i: int| 0 <= i < a.len() ==> same_forms((#[trigger] a[i]).body.stmts, b[i].body.stmts)
}

/// Whether no statement in a statement takes a tuple apart.
pub open spec fn takes_nothing_apart(s: StmtV) -> bool
    decreases s,
{
    match s.kind {
        StmtKindV::Expr(x) => !(x.kind is Assign && x.kind->Assign_left.kind is TupleLit),
        StmtKindV::If { then_branch, else_branch, .. } => none_taken_apart(then_branch.stmts) && match else_branch {
            Some(x) => none_taken_apart(x.stmts),
            None => true,
        },
        StmtKindV::While { body, .. } => none_taken_apart(body.stmts),
        StmtKindV::For { body, .. } => none_taken_apart(body.stmts),
        StmtKindV::Match { arms, .. } => arms_take_nothing_apart(arms),
        StmtKindV::Defer { body } => takes_nothing_apart(*body),
        StmtKindV::Block(x) => none_taken_apart(x.stmts),
        _ => true,
    }
}

/// Whether no statement of a list takes a tuple apart.
pub open spec fn none_taken_apart(ss: Seq<StmtV>) -> bool
    decreases ss,
{
    forall|i: int| 0 <= i < ss.len() ==> takes_nothing_apart(#[trigger] ss[i])
}

/// Whether no statement in the bodies of `match` arms takes a tuple apart.
pub open spec fn arms_take_nothing_apart(arms: Seq<MatchArmV>) -> bool
    decreases arms,
{
    forall|i: int| 0 <= i < arms.len() ==> none_taken_apart((#[trigger] arms[i]).body.stmts)
}

/// Type inference keeps every statement of a block, in its place and in its form; only an assignment
/// that takes a tuple apart becomes more than one statement.
pub proof fn law_inference_keeps_statements(fuel: nat, e: EnvV, ss: Seq<StmtV>)
    requires
        none_taken_apart(ss),
    ensures
        block_typed(fuel, e, ss).1 matches Ok(out) ==> same_forms(ss, out),
    decreases fuel, 4int, 0int,
{
    lemma_stmts(fuel, scope_entered(e), ss, 0, Seq::empty());
}

proof fn lemma_stmts(fuel: nat, e: EnvV, ss: Seq<StmtV>, i: int, acc: Seq<StmtV>)
    requires
        none_taken_apart(ss),
        0 <= i <= ss.len(),
    ensures
        stmts_typed(fuel, e, ss, i, acc).1 matches Ok(out) ==> {
            &&& out.len() == acc.len() + ss.len() - i
            &&& forall|k: int| 0 <= k < acc.len() ==> #[trigger] out[k] == acc[k]
            &&& forall|k: int| i <= k < ss.len() ==> same_form(#[trigger] ss[k], out[acc.len() + k - i])
        },
    decreases fuel, 3int, ss.len() - i,
{
    if i < ss.len() {
        lemma_stmt(fuel, e, ss[i]);
        if let (e1, Ok(ps)) = stmt_typed(fuel, e, ss[i]) {
            lemma_stmts(fuel, e1, ss, i + 1, acc + ps);
            if let (_, Ok(out)) = stmts_typed(fuel, e1, ss, i + 1, acc + ps) {
                assert(out[acc.len() as int] == (acc + ps)[acc.len() as int]);
                assert forall|k: int| 0 <= k < acc.len() implies #[trigger] out[k] == acc[k] by {
                    assert(out[k] == (acc + ps)[k]);
                }
            }
        }
    }
}

proof fn lemma_stmt(fuel: nat, e: EnvV, s: StmtV)
    requires
        takes_nothing_apart(s),
    ensures
        stmt_typed(fuel, e, s).1 matches Ok(ps) ==> ps.len() == 1 && same_form(s, ps[0]),
    decreases fuel, 2int, 0int,
{
    assert(pieces(fuel, e, s) == (e, Ok::<Seq<StmtV>, crate::error::ErrorV>(seq![s])));
    lemma_plain(fuel, e, s);
    if let (e1, Ok(t)) = plain_typed(fuel, e, s) {
        assert(pieces_typed(fuel, e1, seq![s], 1, Seq::<StmtV>::empty().push(t)).1 == Ok::<
            Seq<StmtV>,
            crate::error::ErrorV,
        >(Seq::<StmtV>::empty().push(t)));
    }
    assert(stmt_inner_typed(fuel, e, s) == pieces_typed(fuel, e, seq![s], 0, Seq::empty()));
    assert(seq![s][0] == s);
}

proof fn lemma_if(fuel: nat, e: EnvV, s: StmtV)
    requires
        takes_nothing_apart(s),
        s.kind is If,
    ensures
        if_typed(fuel, e, s.kind->If_cond, s.kind->If_then_branch, s.kind->If_else_branch, s.span).1 matches Ok(t)
            ==> same_form(s, t),
    decreases fuel, 5int, 0int,
{
    if let StmtKindV::If { cond, then_branch, else_branch } = s.kind {
        if let (e1, Ok(c)) = condition_typed(fuel, e, cond) {
            law_inference_keeps_statements(fuel, e1, then_branch.stmts);
            if let (e2, Ok(_)) = block_typed(fuel, e1, then_branch.stmts) {
                if let Some(b) = else_branch {
                    law_inference_keeps_statements(fuel, e2, b.stmts);
                }
            }
        }
    }
}

proof fn lemma_loop(fuel: nat, e: EnvV, s: StmtV)
    requires
        takes_nothing_apart(s),
        s.kind is While || s.kind is For,
    ensures
        s.kind is While ==> (while_typed(fuel, e, s.kind->While_cond, s.kind->While_body, s.span).1 matches Ok(t)
            ==> same_form(s, t)),
        s.kind is For ==> (for_typed(fuel, e, s.kind->For_var, s.kind->For_iter, s.kind->For_body, s.span).1 matches Ok(
            t,
        ) ==> same_form(s, t)),
    decreases fuel, 5int, 0int,
{
    match s.kind {
        StmtKindV::While { cond, body } => {
            if let (e1, Ok(c)) = condition_typed(fuel, e, cond) {
                law_inference_keeps_statements(fuel, e1, body.stmts);
            }
        },
        StmtKindV::For { var, iter, body } => {
            let a = expr_typed(fuel, e, iter);
            if let Ok(t) = a.2 {
                if let (e1, Ok(id)) = loop_variable(a.0, t) {
                    law_inference_keeps_statements(fuel, def_var(e1, var, id), body.stmts);
                }
            }
        },
        _ => {},
    }
}

proof fn lemma_match(fuel: nat, e: EnvV, s: StmtV)
    requires
        takes_nothing_apart(s),
        s.kind is Match,
    ensures
        match_typed(fuel, e, s.kind->Match_expr, s.kind->Match_arms, s.span).1 matches Ok(t) ==> same_form(s, t),
    decreases fuel, 7int, 0int,
{
    if let StmtKindV::Match { expr, arms } = s.kind {
        let a = expr_typed(fuel, e, expr);
        if let Ok(t) = a.2 {
            lemma_arms(fuel, a.0, t, arms, 0, Seq::empty());
            if let (e1, Ok(out)) = arms_typed(fuel, a.0, t, arms, 0, Seq::empty()) {
                assert(same_arms(arms, out));
                let r = match_typed(fuel, e, expr, arms, s.span);
                assert(r.1 == Ok::<StmtV, crate::error::ErrorV>(
                    StmtV { kind: StmtKindV::Match { expr: a.1, arms: out }, span: s.span },
                ));
            }
        }
    }
}

proof fn lemma_plain(fuel: nat, e: EnvV, s: StmtV)
    requires
        takes_nothing_apart(s),
    ensures
        plain_typed(fuel, e, s).1 matches Ok(t) ==> same_form(s, t),
    decreases fuel, 0int, 0int,
{
    if fuel > 0 {
        let n = (fuel - 1) as nat;
        match s.kind {
            StmtKindV::If { .. } => {
                lemma_if(n, e, s);
            },
            StmtKindV::While { .. } => {
                lemma_loop(n, e, s);
            },
            StmtKindV::For { .. } => {
                lemma_loop(n, e, s);
            },
            StmtKindV::Match { .. } => {
                lemma_match(n, e, s);
            },
            StmtKindV::Defer { body } => {
                lemma_stmt(n, e, *body);
                assert(plain_typed(fuel, e, s) == defer_typed(n, e, *body, s.span));
            },
            StmtKindV::Block(b) => {
                law_inference_keeps_statements(n, e, b.stmts);
            },
            _ => {},
        }
    }
}

proof fn lemma_arms(fuel: nat, e: EnvV, t: TypeId, arms: Seq<MatchArmV>, i: int, acc: Seq<MatchArmV>)
    requires
        0 <= i <= arms.len(),
        arms_take_nothing_apart(arms),
    ensures
        arms_typed(fuel, e, t, arms, i, acc).1 matches Ok(out) ==> {
            &&& out.len() == acc.len() + arms.len() - i
            &&& forall|k: int| 0 <= k < acc.len() ==> #[trigger] out[k] == acc[k]
            &&& forall|k: int|
                i <= k < arms.len() ==> same_forms((#[trigger] arms[k]).body.stmts, out[acc.len() + k - i].body.stmts)
        },
    decreases fuel, 6int, arms.len() - i,
{
    if i < arms.len() {
        let s = scope_entered(e);
        if let (e1, Ok(p)) = arm_pattern_typed(fuel, s, t, arms[i].pattern) {
            if let (e2, Ok(_)) = crate::bind_spec::bound(fuel, e1, p, t) {
                law_inference_keeps_statements(fuel, e2, arms[i].body.stmts);
            }
        }
        if let (e1, Ok(a)) = arm_typed(fuel, e, t, arms[i]) {
            lemma_arms(fuel, e1, t, arms, i + 1, acc.push(a));
            if let (_, Ok(out)) = arms_typed(fuel, e1, t, arms, i + 1, acc.push(a)) {
                assert(out[acc.len() as int] == acc.push(a)[acc.len() as int]);
                assert forall|k: int| 0 <= k < acc.len() implies #[trigger] out[k] == acc[k] by {
                    assert(out[k] == acc.push(a)[k]);
                }
            }
        }
    }
}

/// The condition of an `if` or a `while` is inferred before its body, the first branch before the
/// second, and each is found again in the result.
pub proof fn law_branches_are_inferred_in_order(fuel: nat, e: EnvV, s: StmtV)
    requires
        fuel > 0,
    ensures
        plain_typed(fuel, e, s).1 matches Ok(t) ==> {
            let n = (fuel - 1) as nat;
            &&& s.kind matches StmtKindV::If { cond, then_branch, else_branch } ==> {
                let c = condition_typed(n, e, cond);
                let a = block_typed(n, c.0, then_branch.stmts);
                &&& c.1 == Ok::<crate::ast::ExprV, crate::error::ErrorV>(t.kind->If_cond)
                &&& a.1 == Ok::<Seq<StmtV>, crate::error::ErrorV>(t.kind->If_then_branch.stmts)
                &&& else_branch is Some ==> block_typed(n, a.0, else_branch->0.stmts).1 == Ok::<
                    Seq<StmtV>,
                    crate::error::ErrorV,
                >(t.kind->If_else_branch->0.stmts)
            }
            &&& s.kind matches StmtKindV::While { cond, body } ==> {
                let c = condition_typed(n, e, cond);
                &&& c.1 == Ok::<crate::ast::ExprV, crate::error::ErrorV>(t.kind->While_cond)
                &&& block_typed(n, c.0, body.stmts).1 == Ok::<Seq<StmtV>, crate::error::ErrorV>(
                    t.kind->While_body.stmts,
                )
            }
            &&& s.kind matches StmtKindV::For { var, iter, body } ==> {
                let a = expr_typed(n, e, iter);
                &&& a.2 is Ok
                &&& t.kind->For_iter == a.1
                &&& crate::symbols::var_in(loop_scope(n, e, var, iter).symbols.vars, var) == loop_variable(
                    a.0,
                    a.2->Ok_0,
                ).1.ok() || e.symbols.vars.len() == 0
                &&& block_typed(n, loop_scope(n, e, var, iter), body.stmts).1 == Ok::<
                    Seq<StmtV>,
                    crate::error::ErrorV,
                >(t.kind->For_body.stmts)
            }
            &&& s.kind matches StmtKindV::Expr(x) ==> t.kind->Expr_0 == expr_typed(n, e, x).1
        },
{
    let n = (fuel - 1) as nat;
    match s.kind {
        StmtKindV::If { cond, then_branch, else_branch } => {
            assert(plain_typed(fuel, e, s) == if_typed(n, e, cond, then_branch, else_branch, s.span));
        },
        StmtKindV::While { cond, body } => {
            assert(plain_typed(fuel, e, s) == while_typed(n, e, cond, body, s.span));
        },
        StmtKindV::For { var, iter, body } => {
            assert(plain_typed(fuel, e, s) == for_typed(n, e, var, iter, body, s.span));
            let a = expr_typed(n, e, iter);
            crate::kept_exprs::lemma_expr_typed(n, e, iter);
            if a.2 is Ok {
                let b = loop_variable(a.0, a.2->Ok_0);
                if b.1 is Ok && b.0.symbols.vars.len() > 0 {
                    crate::symbols::law_scopes(b.0.symbols.vars, var, var, b.1->Ok_0);
                }
            }
        },
        _ => {},
    }
}

/// The engine inside a `for`: its variable is in scope.
pub open spec fn loop_scope(fuel: nat, e: EnvV, var: Seq<char>, iter: crate::ast::ExprV) -> EnvV {
    let a = expr_typed(fuel, e, iter);
    let b = loop_variable(a.0, a.2->Ok_0);
    def_var(b.0, var, b.1->Ok_0)
}

} // verus!
