//! What the C code holds: the code of every part of a statement or an expression, in the order of
//! the source.
use crate::text;
use crate::ast::{ExprKindV, ExprV, FieldInitV, StmtV};
use crate::attrs::{mangled_under, names_meta};
use crate::c_text::{assignment_c, binary_c, indented, is_postfix, unary_c};
use crate::ctypes::{builtin_type, CDeclarationsV};
use crate::decl::{FunctionV, GlobalDeclV};
use crate::emit_expr::{called_c, expr_c, exprs_c, inits_c, tuple_member, variable_c, CtxV};
use crate::emit_stmt::{block_c, body_c, function_c, function_name_c, global_c, has_return, param_c, params_c,
    return_c, stmt_c, stmts_c, type_or, value_c};
use crate::expr_pratt::callee_text;
use crate::ffi::kit_type_of;
use crate::name_mangling::mangled;
use crate::types::{c_name, kit_type, TypeV};
use vstd::prelude::*;

verus! {

/// Gaps and parts in turn from position `i` on, with a gap at the end.
pub open spec fn woven(gaps: Seq<Seq<char>>, parts: Seq<Seq<char>>, i: int) -> Seq<char>
    decreases parts.len() - i,
{
    if i < 0 || i >= parts.len() {
        gaps[i]
    } else {
        gaps[i] + parts[i] + woven(gaps, parts, i + 1)
    }
}

/// Whether a text holds the given parts one behind the other.
pub open spec fn in_order(t: Seq<char>, parts: Seq<Seq<char>>) -> bool {
    exists|gaps: Seq<Seq<char>>| gaps.len() == parts.len() + 1 && #[trigger] woven(gaps, parts, 0) == t
}

/// A variable is declared with its type and its name.
pub proof fn law_code_of_a_variable(c: CtxV, s: StmtV)
    requires
        s.kind is VarDecl,
        s.kind->init is None,
    ensures
        in_order(stmt_c(c, s), seq![type_or(c, s.kind->inferred, "int"@), " "@, s.kind->VarDecl_name]),
{
    assert(""@ =~= Seq::<char>::empty()) by {
        reveal_strlit("");
    }
    let t = stmt_c(c, s);
    let parts = seq![type_or(c, s.kind->inferred, "int"@), " "@, s.kind->VarDecl_name];
    let gaps = seq![Seq::<char>::empty(), Seq::<char>::empty(), Seq::<char>::empty(), ";\n"@];
    reveal_with_fuel(woven, 4);
    assert(woven(gaps, parts, 0) =~= t);
}

/// A variable with a value is declared with its type, its name and the value.
pub proof fn law_code_of_a_variable_with_a_value(c: CtxV, s: StmtV)
    requires
        s.kind is VarDecl,
        s.kind->init is Some,
    ensures
        in_order(stmt_c(c, s), seq![type_or(c, s.kind->inferred, "int"@), " "@, s.kind->VarDecl_name, " = "@, value_c(c, s.kind->init->0), ";\n"@]),
{
    let t = stmt_c(c, s);
    let parts = seq![type_or(c, s.kind->inferred, "int"@), " "@, s.kind->VarDecl_name, " = "@, value_c(c, s.kind->init->0), ";\n"@];
    let gaps = seq![Seq::<char>::empty(), Seq::<char>::empty(), Seq::<char>::empty(), Seq::<char>::empty(), Seq::<char>::empty(), Seq::<char>::empty(), Seq::<char>::empty()];
    reveal_with_fuel(woven, 7);
    assert(woven(gaps, parts, 0) =~= t);
}

/// A `return` gives the value it is written with.
pub proof fn law_code_of_a_return(c: CtxV, s: StmtV)
    requires
        s.kind is Return,
        s.kind->Return_0 is Some,
    ensures
        in_order(stmt_c(c, s), seq!["return "@, value_c(c, s.kind->Return_0->0), ";\n"@]),
{
    let t = stmt_c(c, s);
    let parts = seq!["return "@, value_c(c, s.kind->Return_0->0), ";\n"@];
    let gaps = seq![Seq::<char>::empty(), Seq::<char>::empty(), Seq::<char>::empty(), Seq::<char>::empty()];
    reveal_with_fuel(woven, 4);
    assert(woven(gaps, parts, 0) =~= t);
}

/// An `if` tests its condition, and holds both its branches in order.
pub proof fn law_code_of_an_if(c: CtxV, s: StmtV)
    requires
        s.kind is If,
        s.kind->If_else_branch is Some,
    ensures
        in_order(stmt_c(c, s), seq!["if ("@, value_c(c, s.kind->If_cond), ") "@, block_c(c, s.kind->If_then_branch.stmts), " else "@, block_c(c, s.kind->If_else_branch->0.stmts)]),
{
    let t = stmt_c(c, s);
    let parts = seq!["if ("@, value_c(c, s.kind->If_cond), ") "@, block_c(c, s.kind->If_then_branch.stmts), " else "@, block_c(c, s.kind->If_else_branch->0.stmts)];
    let gaps = seq![Seq::<char>::empty(), Seq::<char>::empty(), Seq::<char>::empty(), Seq::<char>::empty(), Seq::<char>::empty(), Seq::<char>::empty(), "\n"@];
    reveal_with_fuel(woven, 7);
    assert(woven(gaps, parts, 0) =~= t);
}

/// An `if` without an `else` tests its condition and holds its branch.
pub proof fn law_code_of_an_if_without_else(c: CtxV, s: StmtV)
    requires
        s.kind is If,
        s.kind->If_else_branch is None,
    ensures
        in_order(stmt_c(c, s), seq!["if ("@, value_c(c, s.kind->If_cond), ") "@, block_c(c, s.kind->If_then_branch.stmts)]),
{
    assert(""@ =~= Seq::<char>::empty()) by {
        reveal_strlit("");
    }
    let t = stmt_c(c, s);
    let parts = seq!["if ("@, value_c(c, s.kind->If_cond), ") "@, block_c(c, s.kind->If_then_branch.stmts)];
    let gaps = seq![Seq::<char>::empty(), Seq::<char>::empty(), Seq::<char>::empty(), Seq::<char>::empty(), "\n"@];
    reveal_with_fuel(woven, 5);
    assert(woven(gaps, parts, 0) =~= t);
}

/// A `while` tests its condition and holds its body.
pub proof fn law_code_of_a_while(c: CtxV, s: StmtV)
    requires
        s.kind is While,
    ensures
        in_order(stmt_c(c, s), seq!["while ("@, value_c(c, s.kind->While_cond), ") "@, block_c(c, s.kind->While_body.stmts)]),
{
    let t = stmt_c(c, s);
    let parts = seq!["while ("@, value_c(c, s.kind->While_cond), ") "@, block_c(c, s.kind->While_body.stmts)];
    let gaps = seq![Seq::<char>::empty(), Seq::<char>::empty(), Seq::<char>::empty(), Seq::<char>::empty(), "\n"@];
    reveal_with_fuel(woven, 5);
    assert(woven(gaps, parts, 0) =~= t);
}

/// A `for` over a range counts its variable from the first value up to the last, both included.
pub proof fn law_code_of_a_counted_loop(c: CtxV, s: StmtV, start: ExprV, end: ExprV)
    requires
        s.kind is For,
        s.kind->iter.kind == (ExprKindV::RangeLiteral { start: Box::new(start), end: Box::new(end) }),
    ensures
        in_order(stmt_c(c, s), seq![s.kind->var + " = "@, value_c(c, start), s.kind->var + " <= "@, value_c(c, end), "; ++"@ + s.kind->var + ") "@, block_c(c, s.kind->For_body.stmts)]),
{
    let t = stmt_c(c, s);
    let parts = seq![s.kind->var + " = "@, value_c(c, start), s.kind->var + " <= "@, value_c(c, end), "; ++"@ + s.kind->var + ") "@, block_c(c, s.kind->For_body.stmts)];
    let gaps = seq!["for (int "@, Seq::<char>::empty(), "; "@, Seq::<char>::empty(), Seq::<char>::empty(), Seq::<char>::empty(), Seq::<char>::empty()];
    reveal_with_fuel(woven, 7);
    assert(woven(gaps, parts, 0) =~= t);
}

/// A `for` over a number counts its variable from nothing up to the number, the number left out.
pub proof fn law_code_of_a_loop_over_a_number(c: CtxV, s: StmtV)
    requires
        s.kind is For,
        !(s.kind->iter.kind is RangeLiteral),
    ensures
        in_order(stmt_c(c, s), seq![s.kind->var + " = 0; "@, s.kind->var + " < "@, value_c(c, s.kind->iter), "; ++"@ + s.kind->var + ") "@, block_c(c, s.kind->For_body.stmts)]),
{
    let t = stmt_c(c, s);
    let parts = seq![s.kind->var + " = 0; "@, s.kind->var + " < "@, value_c(c, s.kind->iter), "; ++"@ + s.kind->var + ") "@, block_c(c, s.kind->For_body.stmts)];
    let gaps = seq!["for (int "@, Seq::<char>::empty(), Seq::<char>::empty(), Seq::<char>::empty(), Seq::<char>::empty(), Seq::<char>::empty()];
    reveal_with_fuel(woven, 6);
    assert(woven(gaps, parts, 0) =~= t);
}

/// An expression that stands as a statement is followed by a semicolon.
pub proof fn law_code_of_an_expression_statement(c: CtxV, s: StmtV)
    requires
        s.kind is Expr,
    ensures
        in_order(stmt_c(c, s), seq![value_c(c, s.kind->Expr_0), ";\n"@]),
{
    let t = stmt_c(c, s);
    let parts = seq![value_c(c, s.kind->Expr_0), ";\n"@];
    let gaps = seq![Seq::<char>::empty(), Seq::<char>::empty(), Seq::<char>::empty()];
    reveal_with_fuel(woven, 3);
    assert(woven(gaps, parts, 0) =~= t);
}

/// The lines of statements, one statement after the other.
pub open spec fn stmt_texts(c: CtxV, ss: Seq<StmtV>) -> Seq<Seq<char>> {
    Seq::new(ss.len(), |i: int| indented(stmt_c(c, ss[i])))
}

proof fn lemma_stmt_texts(c: CtxV, ss: Seq<StmtV>, gaps: Seq<Seq<char>>, tail: Seq<char>, i: int)
    requires
        0 <= i <= ss.len(),
        gaps.len() == ss.len() + 1,
        forall|j: int| 0 < j < ss.len() ==> (#[trigger] gaps[j]) == Seq::<char>::empty(),
        gaps[ss.len() as int] == tail,
        ss.len() > 0,
    ensures
        i > 0 ==> woven(gaps, stmt_texts(c, ss), i) == stmts_c(c, ss, i) + tail,
        i == 0 ==> woven(gaps, stmt_texts(c, ss), i) == gaps[0] + stmts_c(c, ss, i) + tail,
    decreases ss.len() - i,
{
    let parts = stmt_texts(c, ss);
    if i < ss.len() {
        lemma_stmt_texts(c, ss, gaps, tail, i + 1);
        assert(woven(gaps, parts, i) == gaps[i] + parts[i] + woven(gaps, parts, i + 1));
        assert(stmts_c(c, ss, i) == indented(stmt_c(c, ss[i])) + stmts_c(c, ss, i + 1));
        if i > 0 {
            assert(woven(gaps, parts, i) =~= stmts_c(c, ss, i) + tail);
        } else {
            assert(woven(gaps, parts, i) =~= gaps[0] + stmts_c(c, ss, i) + tail);
        }
    } else {
        assert(woven(gaps, parts, i) =~= stmts_c(c, ss, i) + tail);
    }
}

/// A block holds the code of all its statements, in order.
pub proof fn law_code_of_a_block(c: CtxV, ss: Seq<StmtV>)
    ensures
        in_order(block_c(c, ss), stmt_texts(c, ss)),
{
    let parts = stmt_texts(c, ss);
    if ss.len() == 0 {
        let gaps = seq![block_c(c, ss)];
        assert(woven(gaps, parts, 0) == block_c(c, ss));
    } else {
        let gaps = Seq::new(
            ss.len() + 1,
            |j: int|
                if j == 0 {
                    "{\n"@
                } else if j == ss.len() {
                    "}"@
                } else {
                    Seq::<char>::empty()
                },
        );
        lemma_stmt_texts(c, ss, gaps, "}"@, 0);
        assert(woven(gaps, parts, 0) =~= block_c(c, ss));
    }
}

/// Parts that are joined stand in order, with the separator between each two.
pub proof fn law_joined_parts_stand_in_order(parts: Seq<Seq<char>>, sep: Seq<char>)
    ensures
        in_order(text::joined(parts, sep), parts),
    decreases parts.len(),
{
    let t = text::joined(parts, sep);
    if parts.len() == 0 {
        assert(woven(seq![t], parts, 0) == t);
    } else {
        let gaps = Seq::new(
            parts.len() + 1,
            |j: int|
                if 0 < j < parts.len() {
                    sep
                } else {
                    Seq::<char>::empty()
                },
        );
        lemma_joined(parts, sep, gaps, parts.len() as int);
        assert(parts.take(parts.len() as int) =~= parts);
        lemma_woven_take(gaps, parts, parts.len() as int);
        assert(woven(gaps, parts, 0) =~= t);
    }
}

/// The gaps and parts before position `n`, in turn.
spec fn woven_to(gaps: Seq<Seq<char>>, parts: Seq<Seq<char>>, n: int) -> Seq<char>
    decreases n,
{
    if n <= 0 {
        Seq::empty()
    } else {
        woven_to(gaps, parts, n - 1) + gaps[n - 1] + parts[n - 1]
    }
}

proof fn lemma_woven_take(gaps: Seq<Seq<char>>, parts: Seq<Seq<char>>, n: int)
    requires
        0 <= n <= parts.len(),
        gaps.len() == parts.len() + 1,
    ensures
        woven(gaps, parts, 0) == woven_to(gaps, parts, n) + woven(gaps, parts, n),
    decreases n,
{
    if n > 0 {
        lemma_woven_take(gaps, parts, n - 1);
        assert(woven(gaps, parts, n - 1) == gaps[n - 1] + parts[n - 1] + woven(gaps, parts, n));
        assert(woven_to(gaps, parts, n) + woven(gaps, parts, n) =~= woven_to(gaps, parts, n - 1) + woven(
            gaps,
            parts,
            n - 1,
        ));
    } else {
        assert(woven_to(gaps, parts, n) + woven(gaps, parts, n) =~= woven(gaps, parts, n));
    }
}

proof fn lemma_joined(parts: Seq<Seq<char>>, sep: Seq<char>, gaps: Seq<Seq<char>>, n: int)
    requires
        0 < n <= parts.len(),
        gaps.len() == parts.len() + 1,
        gaps[0] == Seq::<char>::empty(),
        forall|j: int| 0 < j < parts.len() ==> (#[trigger] gaps[j]) == sep,
    ensures
        woven_to(gaps, parts, n) == text::joined(parts.take(n), sep),
    decreases n,
{
    let front = parts.take(n);
    if n == 1 {
        assert(woven_to(gaps, parts, 0) =~= Seq::<char>::empty());
        assert(woven_to(gaps, parts, n) =~= parts[0]);
        assert(front[0] == parts[0]);
    } else {
        lemma_joined(parts, sep, gaps, n - 1);
        assert(front.drop_last() =~= parts.take(n - 1));
        assert(front.last() == parts[n - 1]);
        assert(gaps[n - 1] == sep);
        assert(woven_to(gaps, parts, n) =~= text::joined(front, sep));
    }
}

/// A function has its return type, its name, its parameters and its body, in order.
pub proof fn law_code_of_a_function(c: CtxV, f: FunctionV)
    ensures
        in_order(function_c(c, f), seq![return_c(c.env, f), " "@, function_name_c(f, c.module), "("@, text::joined(params_c(c.env, f.params, c.module), ", "@), ") "@, body_c(c, f)]),
{
    reveal_strlit(")");
    reveal_strlit(" ");
    reveal_strlit(") ");
    let t = function_c(c, f);
    let parts = seq![return_c(c.env, f), " "@, function_name_c(f, c.module), "("@, text::joined(params_c(c.env, f.params, c.module), ", "@), ") "@, body_c(c, f)];
    let gaps = seq![crate::emit_stmt::extern_c(names_meta(f.metadata, "extern"@)), Seq::<char>::empty(), Seq::<char>::empty(), Seq::<char>::empty(), Seq::<char>::empty(), Seq::<char>::empty(), Seq::<char>::empty(), Seq::<char>::empty()];
    reveal_with_fuel(woven, 8);
    assert(woven(gaps, parts, 0) =~= t);
}

/// A parameter is declared by its known type, or else the written one, and its name.
pub proof fn law_code_of_a_parameter(c: CtxV, f: FunctionV, i: int, t: TypeV)
    requires
        0 <= i < f.params.len(),
    ensures
        params_c(c.env, f.params, c.module).len() == f.params.len(),
        params_c(c.env, f.params, c.module)[i] == param_c(c.env, f.params[i], c.module),
        crate::store::known_in(c.env.store, f.params[i].ty) == Some(t) ==> param_c(c.env, f.params[i], c.module)
            == crate::emit_stmt::type_c(c.env, t, c.module) + " "@ + f.params[i].name,
        crate::store::known_in(c.env.store, f.params[i].ty) is None && f.params[i].annotation == Some(t) ==> param_c(
            c.env,
            f.params[i],
            c.module,
        ) == c_name(t) + " "@ + f.params[i].name,
{
}

/// A function has the return type that was found for it, or else the written one; the main function
/// gives an integer and ends with one.
pub proof fn law_return_type_of_a_function(c: CtxV, f: FunctionV, t: TypeV)
    ensures
        f.name == "main"@ ==> return_c(c.env, f) == "int"@ && function_name_c(f, c.module) == "main"@,
        f.name != "main"@ && f.inferred_return is Some && crate::store::known_in(c.env.store, f.inferred_return->0)
            == Some(t) ==> return_c(c.env, f) == c_name(t),
        f.name != "main"@ && f.inferred_return is None && f.return_type == Some(t) ==> return_c(c.env, f) == c_name(t),
        f.name != "main"@ && f.inferred_return is None && f.return_type is None ==> return_c(c.env, f) == c_name(
            TypeV::Void,
        ),
        !(f.name == "main"@ && !has_return(f.body.stmts)) ==> body_c(c, f) == block_c(c, f.body.stmts),
        f.name == "main"@ && !has_return(f.body.stmts) ==> body_c(c, f) == "{\n"@ + stmts_c(c, f.body.stmts, 0)
            + "return 0;\n}"@,
{
}

/// A global with a value has its type, its name and the value.
pub proof fn law_code_of_a_global(c: CtxV, g: GlobalDeclV)
    requires
        g.init is Some,
    ensures
        in_order(global_c(c, g), seq![crate::emit_stmt::extern_c(names_meta(g.metadata, "extern"@)), crate::emit_stmt::const_c(g.is_const), type_or(c, g.inferred, "int"@), " "@, mangled(mangled_under(g.metadata, c.module), g.name), " = "@, value_c(c, g.init->0), ";"@]),
{
    let t = global_c(c, g);
    let parts = seq![crate::emit_stmt::extern_c(names_meta(g.metadata, "extern"@)), crate::emit_stmt::const_c(g.is_const), type_or(c, g.inferred, "int"@), " "@, mangled(mangled_under(g.metadata, c.module), g.name), " = "@, value_c(c, g.init->0), ";"@];
    let gaps = seq![Seq::<char>::empty(), Seq::<char>::empty(), Seq::<char>::empty(), Seq::<char>::empty(), Seq::<char>::empty(), Seq::<char>::empty(), Seq::<char>::empty(), Seq::<char>::empty(), Seq::<char>::empty()];
    reveal_with_fuel(woven, 9);
    assert(woven(gaps, parts, 0) =~= t);
}

/// An operation has its operator between its operands.
pub proof fn law_code_of_an_operation(fuel: nat, c: CtxV, x: ExprV)
    requires
        x.kind is BinaryOp,
    ensures
        in_order(expr_c(fuel, c, x), seq!["("@, expr_c(fuel, c, *x.kind->BinaryOp_left), " "@, binary_c(x.kind->BinaryOp_op), " "@, expr_c(fuel, c, *x.kind->BinaryOp_right), ")"@]),
{
    let t = expr_c(fuel, c, x);
    let parts = seq!["("@, expr_c(fuel, c, *x.kind->BinaryOp_left), " "@, binary_c(x.kind->BinaryOp_op), " "@, expr_c(fuel, c, *x.kind->BinaryOp_right), ")"@];
    let gaps = seq![Seq::<char>::empty(), Seq::<char>::empty(), Seq::<char>::empty(), Seq::<char>::empty(), Seq::<char>::empty(), Seq::<char>::empty(), Seq::<char>::empty(), Seq::<char>::empty()];
    reveal_with_fuel(woven, 8);
    assert(woven(gaps, parts, 0) =~= t);
}

/// An assignment has its operator between what is assigned and the value.
pub proof fn law_code_of_an_assignment(fuel: nat, c: CtxV, x: ExprV)
    requires
        x.kind is Assign,
    ensures
        in_order(expr_c(fuel, c, x), seq![expr_c(fuel, c, *x.kind->Assign_left), " "@, assignment_c(x.kind->Assign_op), " "@, expr_c(fuel, c, *x.kind->Assign_right)]),
{
    let t = expr_c(fuel, c, x);
    let parts = seq![expr_c(fuel, c, *x.kind->Assign_left), " "@, assignment_c(x.kind->Assign_op), " "@, expr_c(fuel, c, *x.kind->Assign_right)];
    let gaps = seq![Seq::<char>::empty(), Seq::<char>::empty(), Seq::<char>::empty(), Seq::<char>::empty(), Seq::<char>::empty(), Seq::<char>::empty()];
    reveal_with_fuel(woven, 6);
    assert(woven(gaps, parts, 0) =~= t);
}

/// A prefix operator stands before its operand.
pub proof fn law_code_of_a_prefix(fuel: nat, c: CtxV, x: ExprV)
    requires
        x.kind is UnaryOp,
        !is_postfix(x.kind->UnaryOp_op),
    ensures
        in_order(expr_c(fuel, c, x), seq![unary_c(x.kind->UnaryOp_op), "("@, expr_c(fuel, c, *x.kind->UnaryOp_expr), ")"@]),
{
    let t = expr_c(fuel, c, x);
    let parts = seq![unary_c(x.kind->UnaryOp_op), "("@, expr_c(fuel, c, *x.kind->UnaryOp_expr), ")"@];
    let gaps = seq![Seq::<char>::empty(), Seq::<char>::empty(), Seq::<char>::empty(), Seq::<char>::empty(), Seq::<char>::empty()];
    reveal_with_fuel(woven, 5);
    assert(woven(gaps, parts, 0) =~= t);
}

/// A postfix operator stands behind its operand.
pub proof fn law_code_of_a_postfix(fuel: nat, c: CtxV, x: ExprV)
    requires
        x.kind is UnaryOp,
        is_postfix(x.kind->UnaryOp_op),
    ensures
        in_order(expr_c(fuel, c, x), seq!["("@, expr_c(fuel, c, *x.kind->UnaryOp_expr), ")"@, unary_c(x.kind->UnaryOp_op)]),
{
    let t = expr_c(fuel, c, x);
    let parts = seq!["("@, expr_c(fuel, c, *x.kind->UnaryOp_expr), ")"@, unary_c(x.kind->UnaryOp_op)];
    let gaps = seq![Seq::<char>::empty(), Seq::<char>::empty(), Seq::<char>::empty(), Seq::<char>::empty(), Seq::<char>::empty()];
    reveal_with_fuel(woven, 5);
    assert(woven(gaps, parts, 0) =~= t);
}

/// A choice has its condition, the value where it holds, and the other value.
pub proof fn law_code_of_a_choice(fuel: nat, c: CtxV, x: ExprV)
    requires
        x.kind is If,
    ensures
        in_order(expr_c(fuel, c, x), seq!["("@, expr_c(fuel, c, *x.kind->If_cond), " ? "@, expr_c(fuel, c, *x.kind->If_then_branch), " : "@, expr_c(fuel, c, *x.kind->If_else_branch), ")"@]),
{
    let t = expr_c(fuel, c, x);
    let parts = seq!["("@, expr_c(fuel, c, *x.kind->If_cond), " ? "@, expr_c(fuel, c, *x.kind->If_then_branch), " : "@, expr_c(fuel, c, *x.kind->If_else_branch), ")"@];
    let gaps = seq![Seq::<char>::empty(), Seq::<char>::empty(), Seq::<char>::empty(), Seq::<char>::empty(), Seq::<char>::empty(), Seq::<char>::empty(), Seq::<char>::empty(), Seq::<char>::empty()];
    reveal_with_fuel(woven, 8);
    assert(woven(gaps, parts, 0) =~= t);
}

/// A call of a named function has the function and its arguments, in order.
pub proof fn law_code_of_a_call(fuel: nat, c: CtxV, x: ExprV, name: Seq<char>)
    requires
        x.kind is Call,
        callee_text(*x.kind->callee) == Some(name),
    ensures
        in_order(expr_c(fuel, c, x), seq![called_c(c, name), "("@, text::joined(exprs_c(fuel, c, x.kind->Call_args), ", "@), ")"@]),
{
    let t = expr_c(fuel, c, x);
    let parts = seq![called_c(c, name), "("@, text::joined(exprs_c(fuel, c, x.kind->Call_args), ", "@), ")"@];
    let gaps = seq![Seq::<char>::empty(), Seq::<char>::empty(), Seq::<char>::empty(), Seq::<char>::empty(), Seq::<char>::empty()];
    reveal_with_fuel(woven, 5);
    assert(woven(gaps, parts, 0) =~= t);
}

/// A field is taken from the value before the dot.
pub proof fn law_code_of_a_field(fuel: nat, c: CtxV, x: ExprV)
    requires
        x.kind is FieldAccess,
    ensures
        in_order(expr_c(fuel, c, x), seq![expr_c(fuel, c, *x.kind->FieldAccess_expr), "."@, x.kind->field_name]),
{
    let t = expr_c(fuel, c, x);
    let parts = seq![expr_c(fuel, c, *x.kind->FieldAccess_expr), "."@, x.kind->field_name];
    let gaps = seq![Seq::<char>::empty(), Seq::<char>::empty(), Seq::<char>::empty(), Seq::<char>::empty()];
    reveal_with_fuel(woven, 4);
    assert(woven(gaps, parts, 0) =~= t);
}

/// An index stands in brackets behind the value; a member of a tuple is a field with its number.
pub proof fn law_code_of_an_index(fuel: nat, c: CtxV, x: ExprV)
    requires
        x.kind is Index,
        tuple_member(c.env, x.kind->Index_expr.ty, *x.kind->index) is None,
    ensures
        in_order(expr_c(fuel, c, x), seq![expr_c(fuel, c, *x.kind->Index_expr), "["@, expr_c(fuel, c, *x.kind->index), "]"@]),
{
    let t = expr_c(fuel, c, x);
    let parts = seq![expr_c(fuel, c, *x.kind->Index_expr), "["@, expr_c(fuel, c, *x.kind->index), "]"@];
    let gaps = seq![Seq::<char>::empty(), Seq::<char>::empty(), Seq::<char>::empty(), Seq::<char>::empty(), Seq::<char>::empty()];
    reveal_with_fuel(woven, 5);
    assert(woven(gaps, parts, 0) =~= t);
}

/// A member of a tuple is a field with its number.
pub proof fn law_code_of_a_tuple_member(fuel: nat, c: CtxV, x: ExprV, i: i64)
    requires
        x.kind is Index,
        tuple_member(c.env, x.kind->Index_expr.ty, *x.kind->index) == Some(i),
    ensures
        in_order(expr_c(fuel, c, x), seq![expr_c(fuel, c, *x.kind->Index_expr), "._"@, text::signed_text(i as int)]),
{
    let t = expr_c(fuel, c, x);
    let parts = seq![expr_c(fuel, c, *x.kind->Index_expr), "._"@, text::signed_text(i as int)];
    let gaps = seq![Seq::<char>::empty(), Seq::<char>::empty(), Seq::<char>::empty(), Seq::<char>::empty()];
    reveal_with_fuel(woven, 4);
    assert(woven(gaps, parts, 0) =~= t);
}

/// A value of a struct names the struct and holds its fields, in order.
pub proof fn law_code_of_a_struct_value(fuel: nat, c: CtxV, x: ExprV)
    requires
        x.kind is StructInit,
    ensures
        in_order(expr_c(fuel, c, x), seq!["(struct "@, crate::emit_expr::struct_value_name(c.env, x.ty), "){"@, text::joined(inits_c(fuel, c, x.kind->StructInit_fields), ", "@), "}"@]),
{
    let t = expr_c(fuel, c, x);
    let parts = seq!["(struct "@, crate::emit_expr::struct_value_name(c.env, x.ty), "){"@, text::joined(inits_c(fuel, c, x.kind->StructInit_fields), ", "@), "}"@];
    let gaps = seq![Seq::<char>::empty(), Seq::<char>::empty(), Seq::<char>::empty(), Seq::<char>::empty(), Seq::<char>::empty(), Seq::<char>::empty()];
    reveal_with_fuel(woven, 6);
    assert(woven(gaps, parts, 0) =~= t);
}

/// The elements of an array stand in braces, in order.
pub proof fn law_code_of_an_array(fuel: nat, c: CtxV, x: ExprV)
    requires
        x.kind is ArrayLiteral,
    ensures
        in_order(expr_c(fuel, c, x), seq!["{"@, text::joined(exprs_c(fuel, c, x.kind->ArrayLiteral_elements), ", "@), "}"@]),
{
    let t = expr_c(fuel, c, x);
    let parts = seq!["{"@, text::joined(exprs_c(fuel, c, x.kind->ArrayLiteral_elements), ", "@), "}"@];
    let gaps = seq![Seq::<char>::empty(), Seq::<char>::empty(), Seq::<char>::empty(), Seq::<char>::empty()];
    reveal_with_fuel(woven, 4);
    assert(woven(gaps, parts, 0) =~= t);
}

/// The elements of a tuple stand in braces behind the name of its type, in order.
pub proof fn law_code_of_a_tuple(fuel: nat, c: CtxV, x: ExprV)
    requires
        x.kind is TupleLit,
    ensures
        in_order(expr_c(fuel, c, x), seq!["("@, crate::emit_expr::tuple_value_name(c.env, x.ty), "){"@, text::joined(exprs_c(fuel, c, x.kind->TupleLit_elements), ", "@), "}"@]),
{
    let t = expr_c(fuel, c, x);
    let parts = seq!["("@, crate::emit_expr::tuple_value_name(c.env, x.ty), "){"@, text::joined(exprs_c(fuel, c, x.kind->TupleLit_elements), ", "@), "}"@];
    let gaps = seq![Seq::<char>::empty(), Seq::<char>::empty(), Seq::<char>::empty(), Seq::<char>::empty(), Seq::<char>::empty(), Seq::<char>::empty()];
    reveal_with_fuel(woven, 6);
    assert(woven(gaps, parts, 0) =~= t);
}

/// Arguments and elements are written one by one, and a field is written with its name and its value.
pub proof fn law_code_of_lists(fuel: nat, c: CtxV, xs: Seq<ExprV>, fs: Seq<FieldInitV>, i: int)
    ensures
        exprs_c(fuel, c, xs).len() == xs.len(),
        0 <= i < xs.len() ==> exprs_c(fuel, c, xs)[i] == expr_c(fuel, c, xs[i]),
        inits_c(fuel, c, fs).len() == fs.len(),
        0 <= i < fs.len() ==> in_order(
            inits_c(fuel, c, fs)[i],
            seq!["."@, fs[i].name, " = "@, expr_c(fuel, c, fs[i].value)],
        ),
{
    if 0 <= i < fs.len() {
        let e = Seq::<char>::empty();
        let parts = seq!["."@, fs[i].name, " = "@, expr_c(fuel, c, fs[i].value)];
        let gaps = seq![e, e, e, e, e];
        reveal_with_fuel(woven, 5);
        assert(woven(gaps, parts, 0) =~= inits_c(fuel, c, fs)[i]);
    }
}

/// A variable that is no global of any module is written as it is.
pub proof fn law_local_name_is_kept(c: CtxV, name: Seq<char>)
    requires
        forall|i: int, j: int|
            0 <= i < c.registry.modules.len() && 0 <= j < c.registry.modules[i].program.globals.len()
                ==> (#[trigger] c.registry.modules[i].program.globals[j]).name != name,
    ensures
        variable_c(c, name) == name,
{
    lemma_no_owner(c, name, 0);
}

proof fn lemma_no_owner(c: CtxV, name: Seq<char>, i: int)
    requires
        0 <= i,
        forall|i: int, j: int|
            0 <= i < c.registry.modules.len() && 0 <= j < c.registry.modules[i].program.globals.len()
                ==> (#[trigger] c.registry.modules[i].program.globals[j]).name != name,
    ensures
        crate::emit_expr::global_owner(c.registry.modules, name, i) is None,
    decreases c.registry.modules.len() - i,
{
    if i < c.registry.modules.len() {
        lemma_none_named(c, name, i, 0);
        lemma_no_owner(c, name, i + 1);
    }
}

proof fn lemma_none_named(c: CtxV, name: Seq<char>, i: int, j: int)
    requires
        0 <= i < c.registry.modules.len(),
        0 <= j,
        forall|i: int, j: int|
            0 <= i < c.registry.modules.len() && 0 <= j < c.registry.modules[i].program.globals.len()
                ==> (#[trigger] c.registry.modules[i].program.globals[j]).name != name,
    ensures
        crate::emit_expr::global_named(c.registry.modules[i].program.globals, name, j) is None,
    decreases c.registry.modules[i].program.globals.len() - j,
{
    if j < c.registry.modules[i].program.globals.len() {
        assert(c.registry.modules[i].program.globals[j].name != name);
        lemma_none_named(c, name, i, j + 1);
    }
}

/// A builtin type is written in C by a name that stands for it again: read as a C type, it gives the
/// same type, but for the type of C strings and the second name for numbers with a fraction.
pub proof fn law_type_names_read_back(t: TypeV, d: CDeclarationsV)
    requires
        t is Void || t is Int || t is Float || t is Bool || t is Char || t is Size || t is Int8 || t is Int16 || t is Int32 || t is Int64 || t is Uint8 || t is Uint16 || t is Uint32 || t is Uint64 || t is Float64,
    ensures
        builtin_type(c_name(t)) matches Some(u) && kit_type_of(u, d) == t,
{
    reveal_strlit("void");
    assert("void"@.len() == 4);
    reveal_strlit("char");
    assert("char"@.len() == 4);
    reveal_strlit("short");
    assert("short"@.len() == 5);
    reveal_strlit("short int");
    assert("short int"@.len() == 9);
    reveal_strlit("int");
    assert("int"@.len() == 3);
    reveal_strlit("long");
    assert("long"@.len() == 4);
    reveal_strlit("long int");
    assert("long int"@.len() == 8);
    reveal_strlit("long long");
    assert("long long"@.len() == 9);
    reveal_strlit("long long int");
    assert("long long int"@.len() == 13);
    reveal_strlit("float");
    assert("float"@.len() == 5);
    reveal_strlit("double");
    assert("double"@.len() == 6);
    reveal_strlit("long double");
    assert("long double"@.len() == 11);
    reveal_strlit("_Bool");
    assert("_Bool"@.len() == 5);
    reveal_strlit("bool");
    assert("bool"@.len() == 4);
    reveal_strlit("signed char");
    assert("signed char"@.len() == 11);
    reveal_strlit("unsigned char");
    assert("unsigned char"@.len() == 13);
    reveal_strlit("unsigned short");
    assert("unsigned short"@.len() == 14);
    reveal_strlit("unsigned short int");
    assert("unsigned short int"@.len() == 18);
    reveal_strlit("unsigned");
    assert("unsigned"@.len() == 8);
    reveal_strlit("unsigned int");
    assert("unsigned int"@.len() == 12);
    reveal_strlit("unsigned long");
    assert("unsigned long"@.len() == 13);
    reveal_strlit("unsigned long int");
    assert("unsigned long int"@.len() == 17);
    reveal_strlit("unsigned long long");
    assert("unsigned long long"@.len() == 18);
    reveal_strlit("unsigned long long int");
    assert("unsigned long long int"@.len() == 22);
    reveal_strlit("int8_t");
    assert("int8_t"@.len() == 6);
    reveal_strlit("int16_t");
    assert("int16_t"@.len() == 7);
    reveal_strlit("int32_t");
    assert("int32_t"@.len() == 7);
    reveal_strlit("int64_t");
    assert("int64_t"@.len() == 7);
    reveal_strlit("uint8_t");
    assert("uint8_t"@.len() == 7);
    reveal_strlit("uint16_t");
    assert("uint16_t"@.len() == 8);
    reveal_strlit("uint32_t");
    assert("uint32_t"@.len() == 8);
    reveal_strlit("uint64_t");
    assert("uint64_t"@.len() == 8);
    reveal_strlit("size_t");
    assert("size_t"@.len() == 6);
    assert("void"@[0] != "char"@[0]);
    assert("void"@[0] != "long"@[0]);
    assert("void"@[0] != "bool"@[0]);
    assert("char"@[0] != "long"@[0]);
    assert("char"@[0] != "bool"@[0]);
    assert("long"@[0] != "bool"@[0]);
    assert("short"@[0] != "float"@[0]);
    assert("short"@[0] != "_Bool"@[0]);
    assert("float"@[0] != "_Bool"@[0]);
    assert("short int"@[0] != "long long"@[0]);
    assert("long int"@[0] != "unsigned"@[0]);
    assert("long int"@[0] != "uint16_t"@[0]);
    assert("long int"@[0] != "uint32_t"@[0]);
    assert("long int"@[0] != "uint64_t"@[0]);
    assert("unsigned"@[1] != "uint16_t"@[1]);
    assert("unsigned"@[1] != "uint32_t"@[1]);
    assert("unsigned"@[1] != "uint64_t"@[1]);
    assert("uint16_t"@[4] != "uint32_t"@[4]);
    assert("uint16_t"@[4] != "uint64_t"@[4]);
    assert("uint32_t"@[4] != "uint64_t"@[4]);
    assert("long long int"@[0] != "unsigned char"@[0]);
    assert("long long int"@[0] != "unsigned long"@[0]);
    assert("unsigned char"@[9] != "unsigned long"@[9]);
    assert("double"@[0] != "int8_t"@[0]);
    assert("double"@[0] != "size_t"@[0]);
    assert("int8_t"@[0] != "size_t"@[0]);
    assert("long double"@[0] != "signed char"@[0]);
    assert("unsigned short int"@[9] != "unsigned long long"@[9]);
    assert("int16_t"@[3] != "int32_t"@[3]);
    assert("int16_t"@[3] != "int64_t"@[3]);
    assert("int16_t"@[0] != "uint8_t"@[0]);
    assert("int32_t"@[3] != "int64_t"@[3]);
    assert("int32_t"@[0] != "uint8_t"@[0]);
    assert("int64_t"@[0] != "uint8_t"@[0]);
}

/// The name of a builtin type in the source stands for that type, and for no other; any other name
/// stands for a declared type.
pub proof fn law_type_names_of_the_source(name: Seq<char>)
    ensures
        kit_type(name) is Void <==> name == "Void"@,
        kit_type(name) is Int <==> name == "Int"@,
        kit_type(name) is Float <==> name == "Float"@,
        kit_type(name) is Bool <==> name == "Bool"@,
        kit_type(name) is Char <==> name == "Char"@,
        kit_type(name) is CString <==> name == "CString"@,
        kit_type(name) is Size <==> name == "Size"@,
        kit_type(name) is Int8 <==> name == "Int8"@,
        kit_type(name) is Int16 <==> name == "Int16"@,
        kit_type(name) is Int32 <==> name == "Int32"@,
        kit_type(name) is Int64 <==> name == "Int64"@,
        kit_type(name) is Uint8 <==> name == "Uint8"@,
        kit_type(name) is Uint16 <==> name == "Uint16"@,
        kit_type(name) is Uint32 <==> name == "Uint32"@,
        kit_type(name) is Uint64 <==> name == "Uint64"@,
        kit_type(name) is Float32 <==> name == "Float32"@,
        kit_type(name) is Float64 <==> name == "Float64"@,
        kit_type(name) matches TypeV::Named(n) ==> n == name,
{
    reveal_strlit("Void");
    assert("Void"@.len() == 4);
    reveal_strlit("Int");
    assert("Int"@.len() == 3);
    reveal_strlit("Float");
    assert("Float"@.len() == 5);
    reveal_strlit("Bool");
    assert("Bool"@.len() == 4);
    reveal_strlit("Char");
    assert("Char"@.len() == 4);
    reveal_strlit("CString");
    assert("CString"@.len() == 7);
    reveal_strlit("Size");
    assert("Size"@.len() == 4);
    reveal_strlit("Int8");
    assert("Int8"@.len() == 4);
    reveal_strlit("Int16");
    assert("Int16"@.len() == 5);
    reveal_strlit("Int32");
    assert("Int32"@.len() == 5);
    reveal_strlit("Int64");
    assert("Int64"@.len() == 5);
    reveal_strlit("Uint8");
    assert("Uint8"@.len() == 5);
    reveal_strlit("Uint16");
    assert("Uint16"@.len() == 6);
    reveal_strlit("Uint32");
    assert("Uint32"@.len() == 6);
    reveal_strlit("Uint64");
    assert("Uint64"@.len() == 6);
    reveal_strlit("Float32");
    assert("Float32"@.len() == 7);
    reveal_strlit("Float64");
    assert("Float64"@.len() == 7);
    assert("Void"@[0] != "Bool"@[0]);
    assert("Void"@[0] != "Char"@[0]);
    assert("Void"@[0] != "Size"@[0]);
    assert("Void"@[0] != "Int8"@[0]);
    assert("Bool"@[0] != "Char"@[0]);
    assert("Bool"@[0] != "Size"@[0]);
    assert("Bool"@[0] != "Int8"@[0]);
    assert("Char"@[0] != "Size"@[0]);
    assert("Char"@[0] != "Int8"@[0]);
    assert("Size"@[0] != "Int8"@[0]);
    assert("Float"@[0] != "Int16"@[0]);
    assert("Float"@[0] != "Int32"@[0]);
    assert("Float"@[0] != "Int64"@[0]);
    assert("Float"@[0] != "Uint8"@[0]);
    assert("Int16"@[3] != "Int32"@[3]);
    assert("Int16"@[3] != "Int64"@[3]);
    assert("Int16"@[0] != "Uint8"@[0]);
    assert("Int32"@[3] != "Int64"@[3]);
    assert("Int32"@[0] != "Uint8"@[0]);
    assert("Int64"@[0] != "Uint8"@[0]);
    assert("CString"@[0] != "Float32"@[0]);
    assert("CString"@[0] != "Float64"@[0]);
    assert("Float32"@[5] != "Float64"@[5]);
    assert("Uint16"@[4] != "Uint32"@[4]);
    assert("Uint16"@[4] != "Uint64"@[4]);
    assert("Uint32"@[4] != "Uint64"@[4]);
}

} // verus!
