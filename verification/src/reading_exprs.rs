//! What reading an expression from the syntax tree keeps: its operators and operands, in their places.
use crate::ast::{ExprKindV, ExprV, FieldInitV};
use crate::declared::{count_of, place_of};
use crate::error::ErrorV;
use crate::syntax::{span_of, NodeV, Rule};
use crate::tree_expr::{args_of, assignment_of, binary_of, chain_of, inits_of, is_chain, tree_expr, unary_of};
use crate::tree_types::{type_of, SourceV};
use crate::types::TypeV;
use vstd::prelude::*;

verus! {

/// Whether a node is read as an expression.
pub open spec fn reads(src: SourceV, n: NodeV, x: ExprV) -> bool {
    tree_expr(src, n) == Ok::<ExprV, ErrorV>(x)
}

/// An assignment has the written operator between what is assigned and the value.
pub proof fn law_parts_of_an_assignment(src: SourceV, n: NodeV)
    requires
        n.rule is Assign,
        n.children.len() == 3,
        tree_expr(src, n) is Ok,
    ensures
        tree_expr(src, n)->Ok_0.kind matches ExprKindV::Assign { op, left, right } && assignment_of(n.children[1].text)
            == Some(op) && reads(src, n.children[0], *left) && reads(src, n.children[2], *right),
        tree_expr(src, n)->Ok_0.span == span_of(n),
{
}

/// A choice has the written condition, the value where it holds, and the other value.
pub proof fn law_parts_of_a_choice(src: SourceV, n: NodeV)
    requires
        n.rule is IfExpr,
        tree_expr(src, n) is Ok,
    ensures
        tree_expr(src, n)->Ok_0.kind matches ExprKindV::If { cond, then_branch, else_branch } && reads(
            src,
            n.children[0],
            *cond,
        ) && reads(src, n.children[1], *then_branch) && reads(src, n.children[2], *else_branch),
        tree_expr(src, n)->Ok_0.span == span_of(n),
{
}

/// A range has the written first and last value.
pub proof fn law_parts_of_a_range(src: SourceV, n: NodeV)
    requires
        n.rule is RangeExpr,
        tree_expr(src, n) is Ok,
    ensures
        tree_expr(src, n)->Ok_0.kind matches ExprKindV::RangeLiteral { start, end } && reads(src, n.children[0], *start)
            && reads(src, n.children[1], *end),
{
}

/// A prefix operation has the written operator and operand.
pub proof fn law_parts_of_a_prefix_operation(src: SourceV, n: NodeV)
    requires
        n.rule is Unary,
        n.children.len() > 0,
        n.children[0].rule is UnaryOp,
        tree_expr(src, n) is Ok,
    ensures
        tree_expr(src, n)->Ok_0.kind matches ExprKindV::UnaryOp { op, expr } && unary_of(n.children[0].text) == Some(op)
            && reads(src, n.children[1], *expr),
{
}

/// In a chain of operators the last one joins all that stands before it with the last operand.
pub proof fn law_chains_join_to_the_left(src: SourceV, n: NodeV)
    requires
        is_chain(n.rule),
        n.children.len() >= 3,
        n.children.len() % 2 == 1,
        tree_expr(src, n) is Ok,
    ensures
        ({
            let last = n.children.len() - 1;
            tree_expr(src, n)->Ok_0.kind matches ExprKindV::BinaryOp { op, left, right } && binary_of(
                n.children[last - 1].text,
            ) == Some(op) && reads(src, n.children[last], *right) && (last == 2 ==> reads(src, n.children[0], *left))
        }),
{
    let x = tree_expr(src, n.children[0])->Ok_0;
    assert(tree_expr(src, n) == chain_of(src, n, n.children, 1, x));
    lemma_chain(src, n, n.children, 1, x);
}

proof fn lemma_chain(src: SourceV, n: NodeV, ns: Seq<NodeV>, i: int, left: ExprV)
    requires
        1 <= i,
        i + 1 < ns.len(),
        (ns.len() - i) % 2 == 0,
        chain_of(src, n, ns, i, left) is Ok,
    ensures
        ({
            let last = ns.len() - 1;
            chain_of(src, n, ns, i, left)->Ok_0.kind matches ExprKindV::BinaryOp { op, left: l, right } && binary_of(
                ns[last - 1].text,
            ) == Some(op) && reads(src, ns[last], *right) && (i + 2 == ns.len() ==> *l == left)
        }),
    decreases ns.len() - i,
{
    let op = binary_of(ns[i].text)->0;
    let right = tree_expr(src, ns[i + 1])->Ok_0;
    let joined = crate::tree_expr::at_node(
        ExprKindV::BinaryOp { op, left: Box::new(left), right: Box::new(right) },
        n,
    );
    assert(chain_of(src, n, ns, i, left) == chain_of(src, n, ns, i + 2, joined));
    if i + 2 < ns.len() {
        lemma_chain(src, n, ns, i + 2, joined);
    } else {
        assert(chain_of(src, n, ns, i + 2, joined) == Ok::<ExprV, ErrorV>(joined));
    }
}

/// A call has the written name and one argument for each that is written, in order.
pub proof fn law_parts_of_a_call(src: SourceV, n: NodeV, j: int)
    requires
        n.rule is FunctionCallExpr,
        tree_expr(src, n) is Ok,
    ensures
        tree_expr(src, n)->Ok_0.kind matches ExprKindV::Call { callee, args } && {
            &&& callee.kind == ExprKindV::Identifier { name: n.children[0].text }
            &&& args.len() == count_of(n.children, Rule::Expr, 1)
            &&& 1 <= j < n.children.len() && n.children[j].rule == Rule::Expr ==> 0 <= place_of(n.children, 1, j) < args.len()
                && reads(src, n.children[j], args[place_of(n.children, 1, j)])
        },
{
    assert(args_of(src, n.children, 1, Seq::empty()) is Ok);
    lemma_args(src, n.children, 1, Seq::empty(), j);
}

proof fn lemma_args(src: SourceV, ns: Seq<NodeV>, i: int, acc: Seq<ExprV>, j: int)
    requires
        0 <= i,
        args_of(src, ns, i, acc) is Ok,
    ensures
        ({
            let out = args_of(src, ns, i, acc)->Ok_0;
            &&& out.len() == acc.len() + count_of(ns, Rule::Expr, i)
            &&& forall|q: int| 0 <= q < acc.len() ==> #[trigger] out[q] == acc[q]
            &&& i <= j < ns.len() && ns[j].rule == Rule::Expr ==> 0 <= place_of(ns, i, j) < out.len() - acc.len()
                && reads(src, ns[j], out[acc.len() + place_of(ns, i, j)])
        }),
    decreases ns.len() - i,
{
    if i < ns.len() {
        if i <= j < ns.len() {
            crate::declared::lemma_place(ns, i, j);
        }
        if ns[i].rule is Expr {
            let x = tree_expr(src, ns[i])->Ok_0;
            assert(args_of(src, ns, i, acc) == args_of(src, ns, i + 1, acc.push(x)));
            lemma_args(src, ns, i + 1, acc.push(x), j);
            let out = args_of(src, ns, i, acc)->Ok_0;
            assert(out[acc.len() as int] == acc.push(x)[acc.len() as int]);
            assert forall|q: int| 0 <= q < acc.len() implies #[trigger] out[q] == acc[q] by {
                assert(out[q] == acc.push(x)[q]);
            }
        } else {
            assert(args_of(src, ns, i, acc) == args_of(src, ns, i + 1, acc));
            lemma_args(src, ns, i + 1, acc, j);
        }
    }
}

/// A struct value has the written type and one value for each field that is written, in order and under its
/// name.
pub proof fn law_parts_of_a_struct_value(src: SourceV, n: NodeV, j: int)
    requires
        n.rule is StructInit,
        tree_expr(src, n) is Ok,
    ensures
        tree_expr(src, n)->Ok_0.kind matches ExprKindV::StructInit { struct_type, fields } && {
            &&& struct_type is Some
            &&& type_of(src, n.children[0], Seq::empty()) == Ok::<TypeV, ErrorV>(struct_type->0)
            &&& fields.len() == count_of(n.children, Rule::FieldInit, 1)
            &&& 1 <= j < n.children.len() && n.children[j].rule == Rule::FieldInit ==> 0 <= place_of(n.children, 1, j)
                < fields.len() && fields[place_of(n.children, 1, j)].name == n.children[j].children[0].text && reads(
                src,
                n.children[j].children[1],
                fields[place_of(n.children, 1, j)].value,
            )
        },
{
    assert(inits_of(src, n.children, 1, Seq::empty()) is Ok);
    lemma_inits(src, n.children, 1, Seq::empty(), j);
}

proof fn lemma_inits(src: SourceV, ns: Seq<NodeV>, i: int, acc: Seq<FieldInitV>, j: int)
    requires
        0 <= i,
        inits_of(src, ns, i, acc) is Ok,
    ensures
        ({
            let out = inits_of(src, ns, i, acc)->Ok_0;
            &&& out.len() == acc.len() + count_of(ns, Rule::FieldInit, i)
            &&& forall|q: int| 0 <= q < acc.len() ==> #[trigger] out[q] == acc[q]
            &&& i <= j < ns.len() && ns[j].rule == Rule::FieldInit ==> 0 <= place_of(ns, i, j) < out.len() - acc.len()
                && out[acc.len() + place_of(ns, i, j)].name == ns[j].children[0].text && reads(
                src,
                ns[j].children[1],
                out[acc.len() + place_of(ns, i, j)].value,
            )
        }),
    decreases ns.len() - i,
{
    if i < ns.len() {
        if i <= j < ns.len() {
            crate::declared::lemma_place(ns, i, j);
        }
        if ns[i].rule is FieldInit {
            let x = FieldInitV { name: ns[i].children[0].text, value: tree_expr(src, ns[i].children[1])->Ok_0 };
            assert(inits_of(src, ns, i, acc) == inits_of(src, ns, i + 1, acc.push(x)));
            lemma_inits(src, ns, i + 1, acc.push(x), j);
            let out = inits_of(src, ns, i, acc)->Ok_0;
            assert(out[acc.len() as int] == acc.push(x)[acc.len() as int]);
            assert forall|q: int| 0 <= q < acc.len() implies #[trigger] out[q] == acc[q] by {
                assert(out[q] == acc.push(x)[q]);
            }
        } else {
            assert(inits_of(src, ns, i, acc) == inits_of(src, ns, i + 1, acc));
            lemma_inits(src, ns, i + 1, acc, j);
        }
    }
}

} // verus!
