//! What reading the syntax tree keeps: every statement of the source is in the tree that comes
//! out, once, in its place.
use crate::ast::{BlockV, ExprV, MatchArmV, StmtKindV, StmtV};
use crate::error::ErrorV;
use crate::syntax::{first_rule, span_of, NodeV, Rule};
use crate::tree_stmts::{block_of, case_of, cases_of, default_case_of, else_of, for_of, if_of, match_of, stmt_of,
    stmts_of, while_of};
use crate::tree_types::{expr_of, type_of, SourceV};
use crate::types::TypeV;
use vstd::prelude::*;

verus! {

/// The number of statements that a statement holds, itself and nested ones included.
pub open spec fn stmt_count(s: StmtV) -> nat
    decreases s,
{
    match s.kind {
        StmtKindV::If { then_branch, else_branch, .. } => match else_branch {
            Some(b) => 1 + stmts_count(then_branch.stmts) + stmts_count(b.stmts),
            None => 1 + stmts_count(then_branch.stmts),
        },
        StmtKindV::While { body, .. } => 1 + stmts_count(body.stmts),
        StmtKindV::For { body, .. } => 1 + stmts_count(body.stmts),
        StmtKindV::Block(b) => 1 + stmts_count(b.stmts),
        StmtKindV::Defer { body } => 1 + stmt_count(*body),
        StmtKindV::Match { arms, .. } => 1 + arms_count(arms),
        _ => 1,
    }
}

/// The number of statements in a row of statements, nested ones included.
pub open spec fn stmts_count(ss: Seq<StmtV>) -> nat
    decreases ss,
{
    if ss.len() == 0 {
        0
    } else {
        stmts_count(ss.drop_last()) + stmt_count(ss[ss.len() - 1])
    }
}

/// The number of statements in the arms of a `match`, nested ones included.
pub open spec fn arms_count(arms: Seq<MatchArmV>) -> nat
    decreases arms,
{
    if arms.len() == 0 {
        0
    } else {
        arms_count(arms.drop_last()) + stmts_count(arms[arms.len() - 1].body.stmts)
    }
}

/// The number of statements written under a node: a wrapped statement counts itself and what is
/// written inside it.
pub open spec fn written_stmt(n: NodeV) -> nat
    decreases n, 1int,
{
    if n.children.len() == 0 {
        0
    } else {
        let k = n.children[0];
        match k.rule {
            Rule::DeferStmt => 1 + if k.children.len() > 0 {
                written_stmt(k.children[0])
            } else {
                0
            },
            Rule::BlockStmt => 1 + written_part(k, 0),
            Rule::WhileStmt => 1 + written_part(k, 1),
            Rule::ForStmt => 1 + written_part(k, 2),
            Rule::IfStmt => written_if(k),
            Rule::MatchStmt => 1 + written_cases(k.children, 1) + if has_default(k.children, 1) {
                1nat
            } else {
                0
            },
            _ => 1,
        }
    }
}

/// The number of statements written in the block that is the `i`th part of a node.
pub open spec fn written_part(n: NodeV, i: int) -> nat
    decreases n, 0int,
{
    if 0 <= i < n.children.len() {
        written_stmts(n.children[i].children, 0)
    } else {
        0
    }
}

/// The number of statements written in an `if`: itself, those of its branches, and those of an
/// `if` behind its `else`.
pub open spec fn written_if(n: NodeV) -> nat
    decreases n, 1int,
{
    1 + written_part(n, 1) + if n.children.len() > 2 && n.children[2].children.len() > 0 {
        let other = n.children[2].children[0];
        if other.rule == Rule::IfStmt {
            written_if(other)
        } else {
            written_stmts(other.children, 0)
        }
    } else {
        0
    }
}

/// The number of statements written in a row of nodes from position `i` on.
pub open spec fn written_stmts(ns: Seq<NodeV>, i: int) -> nat
    decreases ns, ns.len() - i,
    when 0 <= i <= ns.len()
{
    if i >= ns.len() {
        0
    } else {
        written_stmts(ns, i + 1) + if ns[i].rule == Rule::Statement {
            written_stmt(ns[i])
        } else {
            0
        }
    }
}

/// The number of arms with a pattern from position `i` on.
pub open spec fn written_cases(ns: Seq<NodeV>, i: int) -> nat
    decreases ns.len() - i,
{
    if i < 0 || i >= ns.len() {
        0
    } else {
        written_cases(ns, i + 1) + if ns[i].rule == Rule::MatchCase {
            1nat
        } else {
            0
        }
    }
}

/// Whether there is a default arm from position `i` on.
pub open spec fn has_default(ns: Seq<NodeV>, i: int) -> bool {
    exists|j: int| i <= j < ns.len() && (#[trigger] ns[j]).rule == Rule::DefaultCase
}

/// Reading a statement loses none and adds none: the statement that comes out holds as many
/// statements as are written, nested ones included.
pub proof fn law_every_statement_is_read(src: SourceV, at: crate::ast::Span, n: NodeV, scope: Seq<Seq<char>>)
    requires
        stmt_of(src, at, n, scope) is Ok,
    ensures
        stmt_count(stmt_of(src, at, n, scope)->Ok_0) == written_stmt(n),
    decreases n, 2int,
{
    let k = n.children[0];
    if k.rule == Rule::DeferStmt {
        lemma_defer_written(src, at, n, scope);
    } else if k.rule == Rule::BlockStmt {
        lemma_block_written(src, at, n, scope);
    } else if k.rule == Rule::IfStmt {
        lemma_if_written(src, at, n, scope);
    } else if k.rule == Rule::WhileStmt || k.rule == Rule::ForStmt {
        lemma_loop_written(src, at, n, scope);
    } else {
        lemma_plain_written(src, at, n, scope);
    }
}

proof fn lemma_defer_written(src: SourceV, at: crate::ast::Span, n: NodeV, scope: Seq<Seq<char>>)
    requires
        stmt_of(src, at, n, scope) is Ok,
        n.children[0].rule == Rule::DeferStmt,
    ensures
        stmt_count(stmt_of(src, at, n, scope)->Ok_0) == written_stmt(n),
    decreases n, 1int,
{
    let k = n.children[0];
    law_every_statement_is_read(src, span_of(k), k.children[0], scope);
    let inner = stmt_of(src, span_of(k), k.children[0], scope)->Ok_0;
    assert(stmt_count(stmt_of(src, at, n, scope)->Ok_0) == 1 + stmt_count(inner));
}

proof fn lemma_block_written(src: SourceV, at: crate::ast::Span, n: NodeV, scope: Seq<Seq<char>>)
    requires
        stmt_of(src, at, n, scope) is Ok,
        n.children[0].rule == Rule::BlockStmt,
    ensures
        stmt_count(stmt_of(src, at, n, scope)->Ok_0) == written_stmt(n),
    decreases n, 1int,
{
    let k = n.children[0];
    law_every_statement_of_a_block_is_read(src, k.children[0], scope);
    let inner = block_of(src, k.children[0], scope)->Ok_0;
    assert(stmt_count(stmt_of(src, at, n, scope)->Ok_0) == 1 + stmts_count(inner.stmts));
    assert(written_part(k, 0) == written_stmts(k.children[0].children, 0));
}

proof fn lemma_if_written(src: SourceV, at: crate::ast::Span, n: NodeV, scope: Seq<Seq<char>>)
    requires
        stmt_of(src, at, n, scope) is Ok,
        n.children[0].rule == Rule::IfStmt,
    ensures
        stmt_count(stmt_of(src, at, n, scope)->Ok_0) == written_stmt(n),
    decreases n, 1int,
{
    let k = n.children[0];
    assert(stmt_of(src, at, n, scope) == if_of(src, k, scope));
    lemma_if_read(src, k, scope);
    assert(written_stmt(n) == written_if(k));
}

proof fn lemma_loop_written(src: SourceV, at: crate::ast::Span, n: NodeV, scope: Seq<Seq<char>>)
    requires
        stmt_of(src, at, n, scope) is Ok,
        n.children[0].rule == Rule::WhileStmt || n.children[0].rule == Rule::ForStmt,
    ensures
        stmt_count(stmt_of(src, at, n, scope)->Ok_0) == written_stmt(n),
    decreases n, 1int,
{
    let k = n.children[0];
    if k.rule == Rule::WhileStmt {
        assert(stmt_of(src, at, n, scope) == while_of(src, k, scope));
        lemma_while_read(src, k, scope);
    } else {
        assert(stmt_of(src, at, n, scope) == for_of(src, k, scope));
        lemma_for_read(src, k, scope);
    }
}

proof fn lemma_plain_written(src: SourceV, at: crate::ast::Span, n: NodeV, scope: Seq<Seq<char>>)
    requires
        stmt_of(src, at, n, scope) is Ok,
        ({
            let r = n.children[0].rule;
            r != Rule::DeferStmt && r != Rule::BlockStmt && r != Rule::IfStmt && r != Rule::WhileStmt && r
                != Rule::ForStmt
        }),
    ensures
        stmt_count(stmt_of(src, at, n, scope)->Ok_0) == written_stmt(n),
{
    let k = n.children[0];
    if k.rule == Rule::MatchStmt {
        lemma_match_read(src, k);
    }
}

proof fn lemma_while_read(src: SourceV, k: NodeV, scope: Seq<Seq<char>>)
    requires
        while_of(src, k, scope) is Ok,
    ensures
        stmt_count(while_of(src, k, scope)->Ok_0) == 1 + written_part(k, 1),
    decreases k, 3int,
{
    law_every_statement_of_a_block_is_read(src, k.children[1], scope);
}

proof fn lemma_for_read(src: SourceV, k: NodeV, scope: Seq<Seq<char>>)
    requires
        for_of(src, k, scope) is Ok,
    ensures
        stmt_count(for_of(src, k, scope)->Ok_0) == 1 + written_part(k, 2),
    decreases k, 3int,
{
    law_every_statement_of_a_block_is_read(src, k.children[2], scope);
}

proof fn lemma_match_read(src: SourceV, k: NodeV)
    requires
        match_of(src, k) is Ok,
    ensures
        stmt_count(match_of(src, k)->Ok_0) == 1 + written_cases(k.children, 1) + if has_default(k.children, 1) {
            1nat
        } else {
            0
        },
{
    lemma_cases_read(src, k.children, 1, Seq::empty(), None);
    let c = cases_of(src, k.children, 1, Seq::empty(), None)->Ok_0;
    assert(arms_count(Seq::<MatchArmV>::empty()) == 0);
    let arms = match_of(src, k)->Ok_0.kind->arms;
    let s = match_of(src, k)->Ok_0;
    assert(stmt_count(s) == 1 + arms_count(arms));
    if c.1 is Some {
        assert(arms.drop_last() =~= c.0);
        assert(arms_count(arms) == arms_count(arms.drop_last()) + stmts_count(arms[arms.len() - 1].body.stmts));
    }
}

/// Reading a block, such as the body of a function, loses no statement and adds none.
pub proof fn law_every_statement_of_a_block_is_read(src: SourceV, n: NodeV, scope: Seq<Seq<char>>)
    requires
        block_of(src, n, scope) is Ok,
    ensures
        stmts_count(block_of(src, n, scope)->Ok_0.stmts) == written_stmts(n.children, 0),
    decreases n, 2int,
{
    lemma_stmts_read(src, span_of(n), n.children, scope, 0, Seq::empty());
}

proof fn lemma_stmts_read(
    src: SourceV,
    at: crate::ast::Span,
    ns: Seq<NodeV>,
    scope: Seq<Seq<char>>,
    i: int,
    acc: Seq<StmtV>,
)
    requires
        0 <= i <= ns.len(),
        stmts_of(src, at, ns, scope, i, acc) is Ok,
    ensures
        stmts_count(stmts_of(src, at, ns, scope, i, acc)->Ok_0) == stmts_count(acc) + written_stmts(ns, i),
    decreases ns, ns.len() - i,
{
    if i < ns.len() {
        if ns[i].rule == Rule::Statement {
            law_every_statement_is_read(src, at, ns[i], scope);
            let s = stmt_of(src, at, ns[i], scope)->Ok_0;
            assert(acc.push(s).drop_last() =~= acc);
            lemma_stmts_read(src, at, ns, scope, i + 1, acc.push(s));
        } else {
            lemma_stmts_read(src, at, ns, scope, i + 1, acc);
        }
    }
}

proof fn lemma_if_read(src: SourceV, n: NodeV, scope: Seq<Seq<char>>)
    requires
        if_of(src, n, scope) is Ok,
    ensures
        stmt_count(if_of(src, n, scope)->Ok_0) == written_if(n),
    decreases n, 2int,
{
    law_every_statement_of_a_block_is_read(src, n.children[1], scope);
    assert(written_part(n, 1) == written_stmts(n.children[1].children, 0));
    if n.children.len() > 2 {
        assert(else_of(src, span_of(n), n.children[2], scope) is Ok);
        let other = n.children[2].children[0];
        if other.rule == Rule::IfStmt {
            lemma_if_read(src, other, scope);
            let s = if_of(src, other, scope)->Ok_0;
            let b = else_of(src, span_of(n), n.children[2], scope)->Ok_0;
            assert(b.stmts =~= seq![s]);
            assert(b.stmts.drop_last() =~= Seq::empty());
            assert(stmts_count(b.stmts.drop_last()) == 0);
            assert(stmts_count(b.stmts) == stmts_count(b.stmts.drop_last()) + stmt_count(b.stmts[0]));
        } else {
            law_every_statement_of_a_block_is_read(src, other, scope);
        }
    }
}

proof fn lemma_cases_read(src: SourceV, ns: Seq<NodeV>, i: int, acc: Seq<MatchArmV>, def: Option<BlockV>)
    requires
        0 <= i,
        cases_of(src, ns, i, acc, def) is Ok,
        def is Some ==> stmts_count(def->0.stmts) == 1,
    ensures
        arms_count((cases_of(src, ns, i, acc, def)->Ok_0).0) == arms_count(acc) + written_cases(ns, i),
        (cases_of(src, ns, i, acc, def)->Ok_0).1 is Some <==> def is Some || has_default(ns, i),
        (cases_of(src, ns, i, acc, def)->Ok_0).1 is Some ==> stmts_count(
            (cases_of(src, ns, i, acc, def)->Ok_0).1->0.stmts,
        ) == 1,
    decreases ns.len() - i,
{
    if i < ns.len() {
        assert(has_default(ns, i) <==> ns[i].rule == Rule::DefaultCase || has_default(ns, i + 1));
        if ns[i].rule == Rule::MatchCase {
            let a = case_of(src, ns[i])->Ok_0;
            lemma_one_stmt(a.body.stmts);
            assert(acc.push(a).drop_last() =~= acc);
            lemma_cases_read(src, ns, i + 1, acc.push(a), def);
        } else if ns[i].rule == Rule::DefaultCase {
            let b = default_case_of(src, ns[i])->Ok_0;
            lemma_one_stmt(b.stmts);
            lemma_cases_read(src, ns, i + 1, acc, Some(b));
        } else {
            lemma_cases_read(src, ns, i + 1, acc, def);
        }
    }
}

proof fn lemma_one_stmt(ss: Seq<StmtV>)
    requires
        ss.len() == 1,
        ss[0].kind is Expr,
    ensures
        stmts_count(ss) == 1,
{
    assert(ss.drop_last() =~= Seq::empty());
    assert(stmts_count(ss.drop_last()) == 0);
    assert(stmt_count(ss[0]) == 1);
}

/// The `else` branch of an `if` is the one statement that an `if` behind the `else` is read as, or
/// the block behind it. Without an `else` there is no such branch.
pub proof fn law_else_branch_is_what_stands_behind_else(src: SourceV, n: NodeV, scope: Seq<Seq<char>>)
    requires
        if_of(src, n, scope) is Ok,
    ensures
        if_of(src, n, scope)->Ok_0.kind matches StmtKindV::If { cond, then_branch, else_branch } && {
            &&& expr_of(src, n.children[0]) == Ok::<ExprV, ErrorV>(cond)
            &&& block_of(src, n.children[1], scope) == Ok::<BlockV, ErrorV>(then_branch)
            &&& else_branch is Some <==> n.children.len() > 2
            &&& else_branch is Some ==> {
                let other = n.children[2].children[0];
                &&& other.rule == Rule::IfStmt ==> else_branch->0.stmts.len() == 1 && if_of(src, other, scope) == Ok::<
                    StmtV,
                    ErrorV,
                >(else_branch->0.stmts[0])
                &&& other.rule != Rule::IfStmt ==> block_of(src, other, scope) == Ok::<BlockV, ErrorV>(else_branch->0)
            }
        },
{
}

/// A `while` has the condition and the body that are written.
pub proof fn law_parts_of_a_while(src: SourceV, at: crate::ast::Span, n: NodeV, scope: Seq<Seq<char>>)
    requires
        stmt_of(src, at, n, scope) is Ok,
        n.children[0].rule == Rule::WhileStmt,
    ensures
        ({
            let k = n.children[0];
            let s = stmt_of(src, at, n, scope)->Ok_0;
            &&& s.span == span_of(k)
            &&& s.kind matches StmtKindV::While { cond, body } && expr_of(src, k.children[0]) == Ok::<ExprV, ErrorV>(cond)
                && block_of(src, k.children[1], scope) == Ok::<BlockV, ErrorV>(body)
        }),
{
    assert(stmt_of(src, at, n, scope) == while_of(src, n.children[0], scope));
}

/// A `for` has the variable, the values and the body that are written.
pub proof fn law_parts_of_a_for(src: SourceV, at: crate::ast::Span, n: NodeV, scope: Seq<Seq<char>>)
    requires
        stmt_of(src, at, n, scope) is Ok,
        n.children[0].rule == Rule::ForStmt,
    ensures
        ({
            let k = n.children[0];
            let s = stmt_of(src, at, n, scope)->Ok_0;
            &&& s.span == span_of(k)
            &&& s.kind matches StmtKindV::For { var, iter, body } && var == k.children[0].text && expr_of(
                src,
                k.children[1],
            ) == Ok::<ExprV, ErrorV>(iter) && block_of(src, k.children[2], scope) == Ok::<BlockV, ErrorV>(body)
        }),
{
    assert(stmt_of(src, at, n, scope) == for_of(src, n.children[0], scope));
}

/// A `return` has a value exactly where one is written, and that one.
pub proof fn law_parts_of_a_return(src: SourceV, at: crate::ast::Span, n: NodeV, scope: Seq<Seq<char>>)
    requires
        stmt_of(src, at, n, scope) is Ok,
        n.children[0].rule == Rule::ReturnStmt,
    ensures
        ({
            let k = n.children[0];
            let s = stmt_of(src, at, n, scope)->Ok_0;
            &&& s.span == span_of(k)
            &&& s.kind matches StmtKindV::Return(value) && (value is Some <==> k.children.len() > 0) && (
            k.children.len() > 0 ==> expr_of(src, k.children[0]) == Ok::<ExprV, ErrorV>(value->0))
        }),
{
}

/// An expression that stands as a statement is the one written.
pub proof fn law_parts_of_an_expression_statement(src: SourceV, at: crate::ast::Span, n: NodeV, scope: Seq<Seq<char>>)
    requires
        stmt_of(src, at, n, scope) is Ok,
        n.children[0].rule == Rule::ExprStmt,
    ensures
        ({
            let k = n.children[0];
            let s = stmt_of(src, at, n, scope)->Ok_0;
            &&& s.span == span_of(k)
            &&& s.kind matches StmtKindV::Expr(x) && expr_of(src, k.children[0]) == Ok::<ExprV, ErrorV>(x)
        }),
{
}

/// A `defer` holds the statement behind it.
pub proof fn law_parts_of_a_defer(src: SourceV, at: crate::ast::Span, n: NodeV, scope: Seq<Seq<char>>)
    requires
        stmt_of(src, at, n, scope) is Ok,
        n.children[0].rule == Rule::DeferStmt,
    ensures
        ({
            let k = n.children[0];
            let s = stmt_of(src, at, n, scope)->Ok_0;
            &&& s.span == span_of(k)
            &&& s.kind matches StmtKindV::Defer { body } && stmt_of(src, span_of(k), k.children[0], scope) == Ok::<
                StmtV,
                ErrorV,
            >(*body)
        }),
{
}

/// A block that stands as a statement holds what is written in it.
pub proof fn law_parts_of_a_block_statement(src: SourceV, at: crate::ast::Span, n: NodeV, scope: Seq<Seq<char>>)
    requires
        stmt_of(src, at, n, scope) is Ok,
        n.children[0].rule == Rule::BlockStmt,
    ensures
        ({
            let k = n.children[0];
            let s = stmt_of(src, at, n, scope)->Ok_0;
            &&& s.span == span_of(k)
            &&& s.kind matches StmtKindV::Block(b) && block_of(src, k.children[0], scope) == Ok::<BlockV, ErrorV>(b)
        }),
{
}

/// A `break` and a `continue` are read as what they are, and nothing else is.
pub proof fn law_jumps(src: SourceV, at: crate::ast::Span, n: NodeV, scope: Seq<Seq<char>>)
    requires
        stmt_of(src, at, n, scope) is Ok,
    ensures
        n.children[0].rule == Rule::BreakStmt <==> stmt_of(src, at, n, scope)->Ok_0.kind is Break,
        n.children[0].rule == Rule::ContinueStmt <==> stmt_of(src, at, n, scope)->Ok_0.kind is Continue,
        n.children[0].rule == Rule::IfStmt <==> stmt_of(src, at, n, scope)->Ok_0.kind is If,
{
    let k = n.children[0];
    if k.rule == Rule::IfStmt {
        assert(stmt_of(src, at, n, scope) == if_of(src, k, scope));
    } else if k.rule == Rule::WhileStmt {
        assert(stmt_of(src, at, n, scope) == while_of(src, k, scope));
    } else if k.rule == Rule::ForStmt {
        assert(stmt_of(src, at, n, scope) == for_of(src, k, scope));
    }
}

/// Whether `ns[j]` is the first of a row of nodes with a rule.
pub open spec fn first_with(ns: Seq<NodeV>, rule: Rule, j: int) -> bool {
    &&& 0 <= j < ns.len()
    &&& ns[j].rule == rule
    &&& forall|i: int| 0 <= i < j ==> (#[trigger] ns[i]).rule != rule
}

/// Whether no node of a row has a rule.
pub open spec fn none_with(ns: Seq<NodeV>, rule: Rule) -> bool {
    forall|i: int| 0 <= i < ns.len() ==> (#[trigger] ns[i]).rule != rule
}

/// Looking for a rule finds the first node with it, and nothing only where no node has it.
pub proof fn law_first_of_a_rule(ns: Seq<NodeV>, rule: Rule)
    ensures
        first_rule(ns, rule, 0) is None <==> none_with(ns, rule),
        forall|j: int| #[trigger] first_with(ns, rule, j) ==> first_rule(ns, rule, 0) == Some(ns[j]),
{
    lemma_first_from(ns, rule, 0);
}

proof fn lemma_first_from(ns: Seq<NodeV>, rule: Rule, i: int)
    requires
        0 <= i <= ns.len(),
    ensures
        first_rule(ns, rule, i) is None <==> (forall|j: int| i <= j < ns.len() ==> (#[trigger] ns[j]).rule != rule),
        forall|j: int| i <= j && #[trigger] first_with(ns, rule, j) ==> first_rule(ns, rule, i) == Some(ns[j]),
    decreases ns.len() - i,
{
    if i < ns.len() {
        lemma_first_from(ns, rule, i + 1);
    }
}

/// A declared variable has the name, the type and the first value that are written: the text of
/// the first identifier, and the first type and expression where there are any.
pub proof fn law_parts_of_a_variable(
    src: SourceV,
    at: crate::ast::Span,
    n: NodeV,
    scope: Seq<Seq<char>>,
    i: int,
    j: int,
    k: int,
)
    requires
        stmt_of(src, at, n, scope) is Ok,
        n.children[0].rule == Rule::VarDecl,
    ensures
        ({
            let v = n.children[0];
            let s = stmt_of(src, at, n, scope)->Ok_0;
            &&& s.kind matches StmtKindV::VarDecl { name, annotation, init, .. } && {
                &&& first_with(v.children, Rule::Identifier, i) ==> name == v.children[i].text
                &&& first_with(v.children, Rule::TypeAnnotation, j) ==> annotation is Some && type_of(
                    src,
                    v.children[j],
                    scope,
                ) == Ok::<TypeV, ErrorV>(annotation->0)
                &&& none_with(v.children, Rule::TypeAnnotation) ==> annotation is None
                &&& first_with(v.children, Rule::Expr, k) ==> init is Some && expr_of(src, v.children[k]) == Ok::<
                    ExprV,
                    ErrorV,
                >(init->0)
                &&& none_with(v.children, Rule::Expr) ==> init is None
            }
        }),
{
    let v = n.children[0];
    law_first_of_a_rule(v.children, Rule::Identifier);
    law_first_of_a_rule(v.children, Rule::TypeAnnotation);
    law_first_of_a_rule(v.children, Rule::Expr);
}

/// The arms of a `match` are those written, in their order, and the default arm is the last.
pub proof fn law_arms_are_those_written(src: SourceV, n: NodeV, j: int)
    requires
        match_of(src, n) is Ok,
        1 <= j < n.children.len(),
    ensures
        match_of(src, n)->Ok_0.kind matches StmtKindV::Match { expr, arms } && {
            let at = written_cases(n.children, 1) - written_cases(n.children, j);
            let c = n.children[j];
            &&& expr_of(src, n.children[0]) == Ok::<ExprV, ErrorV>(expr)
            &&& arms.len() == written_cases(n.children, 1) + if has_default(n.children, 1) {
                1nat
            } else {
                0
            }
            &&& c.rule == Rule::MatchCase ==> 0 <= at < arms.len() && case_reads(src, c, 0, arms[at].pattern)
                && arms[at].body.stmts.len() == 1 && arms[at].body.stmts[0].kind is Expr && case_reads(
                src,
                c,
                1,
                arms[at].body.stmts[0].kind->Expr_0,
            )
            &&& c.rule == Rule::DefaultCase && !has_default(n.children, j + 1) ==> arms.last().body.stmts.len() == 1
                && arms.last().body.stmts[0].kind is Expr && case_reads(
                src,
                c,
                0,
                arms.last().body.stmts[0].kind->Expr_0,
            )
        },
{
    lemma_cases_kept(src, n.children, 1, Seq::empty(), None, j);
    lemma_cases_read(src, n.children, 1, Seq::empty(), None);
}

/// Whether the `i`th part of a node is read as an expression.
pub open spec fn case_reads(src: SourceV, n: NodeV, i: int, x: ExprV) -> bool {
    expr_of(src, n.children[i]) == Ok::<ExprV, ErrorV>(x)
}

proof fn lemma_cases_kept(src: SourceV, ns: Seq<NodeV>, i: int, acc: Seq<MatchArmV>, def: Option<BlockV>, j: int)
    requires
        0 <= i,
        cases_of(src, ns, i, acc, def) is Ok,
    ensures
        ({
            let out = (cases_of(src, ns, i, acc, def)->Ok_0).0;
            let last = (cases_of(src, ns, i, acc, def)->Ok_0).1;
            let at = acc.len() + written_cases(ns, i) - written_cases(ns, j);
            &&& out.len() == acc.len() + written_cases(ns, i)
            &&& forall|q: int| 0 <= q < acc.len() ==> #[trigger] out[q] == acc[q]
            &&& i <= j < ns.len() && ns[j].rule == Rule::MatchCase ==> acc.len() <= at < out.len() && case_of(src, ns[j])
                == Ok::<MatchArmV, ErrorV>(out[at])
            &&& !has_default(ns, i) ==> last == def
            &&& i <= j < ns.len() && ns[j].rule == Rule::DefaultCase && !has_default(ns, j + 1) ==> last is Some
                && default_case_of(src, ns[j]) == Ok::<BlockV, ErrorV>(last->0)
        }),
    decreases ns.len() - i,
{
    if i < ns.len() {
        assert(has_default(ns, i) <==> ns[i].rule == Rule::DefaultCase || has_default(ns, i + 1));
        if ns[i].rule == Rule::MatchCase {
            let a = case_of(src, ns[i])->Ok_0;
            lemma_cases_kept(src, ns, i + 1, acc.push(a), def, j);
            let out = (cases_of(src, ns, i, acc, def)->Ok_0).0;
            assert(out[acc.len() as int] == acc.push(a)[acc.len() as int]);
            assert forall|q: int| 0 <= q < acc.len() implies #[trigger] out[q] == acc[q] by {
                assert(out[q] == acc.push(a)[q]);
            }
        } else if ns[i].rule == Rule::DefaultCase {
            let b = default_case_of(src, ns[i])->Ok_0;
            lemma_cases_kept(src, ns, i + 1, acc, Some(b), j);
        } else {
            lemma_cases_kept(src, ns, i + 1, acc, def, j);
        }
    }
}

/// The statements of a block stand in the order in which they are written.
pub proof fn law_statements_keep_their_order(src: SourceV, n: NodeV, scope: Seq<Seq<char>>, j: int)
    requires
        block_of(src, n, scope) is Ok,
        0 <= j < n.children.len(),
        n.children[j].rule == Rule::Statement,
    ensures
        ({
            let out = block_of(src, n, scope)->Ok_0.stmts;
            let at = written_in_row(n.children, 0) - written_in_row(n.children, j);
            &&& out.len() == written_in_row(n.children, 0)
            &&& 0 <= at < out.len()
            &&& stmt_of(src, span_of(n), n.children[j], scope) == Ok::<StmtV, ErrorV>(out[at])
        }),
{
    lemma_row_kept(src, span_of(n), n.children, scope, 0, Seq::empty(), j);
}

/// The number of statements in a row of nodes from position `i` on, nested ones left out.
pub open spec fn written_in_row(ns: Seq<NodeV>, i: int) -> nat
    decreases ns.len() - i,
{
    if i < 0 || i >= ns.len() {
        0
    } else {
        written_in_row(ns, i + 1) + if ns[i].rule == Rule::Statement {
            1nat
        } else {
            0
        }
    }
}

proof fn lemma_row_kept(
    src: SourceV,
    at: crate::ast::Span,
    ns: Seq<NodeV>,
    scope: Seq<Seq<char>>,
    i: int,
    acc: Seq<StmtV>,
    j: int,
)
    requires
        0 <= i <= ns.len(),
        stmts_of(src, at, ns, scope, i, acc) is Ok,
    ensures
        ({
            let out = stmts_of(src, at, ns, scope, i, acc)->Ok_0;
            let p = acc.len() + written_in_row(ns, i) - written_in_row(ns, j);
            &&& out.len() == acc.len() + written_in_row(ns, i)
            &&& forall|q: int| 0 <= q < acc.len() ==> #[trigger] out[q] == acc[q]
            &&& i <= j < ns.len() && ns[j].rule == Rule::Statement ==> acc.len() <= p < out.len() && stmt_of(
                src,
                at,
                ns[j],
                scope,
            ) == Ok::<StmtV, ErrorV>(out[p])
        }),
    decreases ns.len() - i,
{
    if i < ns.len() {
        if ns[i].rule == Rule::Statement {
            let s = stmt_of(src, at, ns[i], scope)->Ok_0;
            lemma_row_kept(src, at, ns, scope, i + 1, acc.push(s), j);
            let out = stmts_of(src, at, ns, scope, i, acc)->Ok_0;
            assert(out[acc.len() as int] == acc.push(s)[acc.len() as int]);
            assert forall|q: int| 0 <= q < acc.len() implies #[trigger] out[q] == acc[q] by {
                assert(out[q] == acc.push(s)[q]);
            }
        } else {
            lemma_row_kept(src, at, ns, scope, i + 1, acc, j);
        }
    }
}

} // verus!
