//! What the types that inference finds mean: they follow from the operators, the operands and the
//! declarations.
use crate::ast::{AssignmentOperator, BinaryOperator, ExprKindV, ExprV, LiteralV, Span, StmtKindV, UnaryOperator};
use crate::engine::{next_id, with_known, EnvV};
use crate::error::ErrorV;
use crate::ffi::with_params;
use crate::infer_spec::{args_typed, assign_typed, binary_result, binary_typed, conditional_typed, expr_inner_typed,
    expr_typed, identifier_typed, known_call_typed, plain_call_typed, unary_result, unary_typed};
use crate::kept_exprs::lemma_expr_typed;
use crate::kept_types::{group_grown, lemma_annotated, lemma_both_unified, lemma_lists_unified, lemma_with_params,
    refined};
use crate::monomorph::annotated;
use crate::stmt_spec::{condition_typed, initialized, nothing_returned, value_returned, var_typed};
use crate::store::{aliased, compatible, is_float_type, is_integer_type, is_void_pointer, known_in,
    law_unified_indices_agree, rep_in, slot_represented, unified, well_represented, StoreV};
use crate::symbols::{get_in, var_in};
use crate::types::{c_name, TypeId, TypeV};
use crate::unify::{application_unified, both_unified, instance_at, lists_unified, store_unified};
use vstd::prelude::*;

verus! {

/// Whether two type indices agree: they stand for one type, or for two known types of which either can
/// stand for the other.
pub open spec fn agree(s: StoreV, a: TypeId, b: TypeId) -> bool {
    ||| rep_in(s, a) == rep_in(s, b)
    ||| {
        &&& known_in(s, a) is Some
        &&& known_in(s, b) is Some
        &&& compatible(aliased(s, known_in(s, a)->0), aliased(s, known_in(s, b)->0))
    }
}

/// Whether a type index is known to stand for the type, or for one that can stand for it.
pub open spec fn has_type(s: StoreV, id: TypeId, t: TypeV) -> bool {
    known_in(s, id) is Some && (known_in(s, id)->0 == t || compatible(aliased(s, known_in(s, id)->0), aliased(s, t)))
}

/// A type can stand for another exactly where the other can stand for it. A truth value and a number,
/// or an integer and a number with a fraction, cannot stand for each other unless C has one name for
/// them.
pub proof fn law_compatible_types(a: TypeV, b: TypeV)
    ensures
        compatible(a, b) == compatible(b, a),
        compatible(a, a),
        a is Bool && compatible(a, b) ==> c_name(a) == c_name(b),
        a is Void && compatible(a, b) ==> c_name(a) == c_name(b),
        a is Char && compatible(a, b) ==> c_name(a) == c_name(b),
        a is Named && compatible(a, b) ==> c_name(a) == c_name(b),
        a is Tuple && compatible(a, b) ==> c_name(a) == c_name(b),
        is_integer_type(a) && compatible(a, b) && c_name(a) != c_name(b) ==> is_integer_type(b),
        is_float_type(a) && compatible(a, b) && c_name(a) != c_name(b) ==> is_float_type(b),
        a is Ptr && b is Ptr && c_name(a) != c_name(b) && compatible(a, b) ==> *(a->Ptr_0) is Void || *(
            b->Ptr_0) is Void,
        a is Int && b is Int64 ==> compatible(a, b),
        a is Float && b is Float64 ==> compatible(a, b),
        a is CString && b == TypeV::Ptr(Box::new(TypeV::Void)) ==> compatible(a, b),
{
}

proof fn lemma_store_unified_agrees(e: EnvV, a: TypeId, b: TypeId)
    requires
        well_represented(e.store),
    ensures
        store_unified(e, a, b).1 is Ok ==> agree(store_unified(e, a, b).0.store, a, b),
        store_unified(e, a, b).1 is Ok ==> agree(store_unified(e, a, b).0.store, b, a),
{
    let s = e.store;
    if unified(s, a, b) is Ok && rep_in(s, a) != rep_in(s, b) {
        assert(a.0 < s.slots.len() && b.0 < s.slots.len());
        assert(slot_represented(s, a.0 as int));
        assert(slot_represented(s, b.0 as int));
        if known_in(s, a) is None || known_in(s, b) is None {
            law_unified_indices_agree(s, a, b);
        } else {
            law_compatible_types(aliased(s, known_in(s, a)->0), aliased(s, known_in(s, b)->0));
        }
    }
}

/// Two type indices that were unified agree.
pub proof fn law_unified_types_agree(fuel: nat, e: EnvV, a: TypeId, b: TypeId)
    requires
        well_represented(e.store),
    ensures
        both_unified(fuel, e, a, b).1 is Ok ==> agree(both_unified(fuel, e, a, b).0.store, a, b),
        both_unified(fuel, e, a, b).1 is Ok ==> agree(both_unified(fuel, e, a, b).0.store, b, a),
{
    reveal(refined);
    let ra = rep_in(e.store, a);
    let rb = rep_in(e.store, b);
    if ra != rb && both_unified(fuel, e, a, b).1 is Ok {
        let ia = instance_at(e.mono.instance_types, TypeId(ra as usize), 0);
        let ib = instance_at(e.mono.instance_types, TypeId(rb as usize), 0);
        match (ia, ib) {
            (Some(x), Some(y)) => {
                lemma_lists_unified((fuel - 1) as nat, e, x.params, y.params, 0);
                lemma_store_unified_agrees(lists_unified((fuel - 1) as nat, e, x.params, y.params, 0).0, a, b);
            },
            (Some(x), None) => {
                lemma_application_agrees(fuel, e, x, TypeId(rb as usize), a, b);
            },
            (None, Some(y)) => {
                lemma_application_agrees(fuel, e, y, TypeId(ra as usize), b, a);
            },
            (None, None) => {
                lemma_store_unified_agrees(e, a, b);
            },
        }
    }
}

proof fn lemma_application_agrees(
    fuel: nat,
    e: EnvV,
    inst: crate::engine::PendingInstanceV,
    known_rep: TypeId,
    a: TypeId,
    b: TypeId,
)
    requires
        well_represented(e.store),
    ensures
        application_unified(fuel, e, inst, known_rep, a, b).1 is Ok ==> {
            let s = application_unified(fuel, e, inst, known_rep, a, b).0.store;
            agree(s, a, b) && agree(s, b, a)
        },
{
    reveal(refined);
    match known_in(e.store, known_rep) {
        Some(TypeV::Named(name)) => {
            let m = e.mono.mono_instances;
            if m.contains_key(name) && m[name].0 == inst.base && m[name].1.len() == inst.params.len() && fuel > 0 {
                let (e1, ids) = with_params(e, m[name].1, 0, Seq::empty());
                lemma_with_params(e, m[name].1, 0, Seq::empty());
                lemma_lists_unified((fuel - 1) as nat, e1, inst.params, ids, 0);
                lemma_store_unified_agrees(lists_unified((fuel - 1) as nat, e1, inst.params, ids, 0).0, a, b);
            }
        },
        Some(other) => {},
        None => {
            lemma_store_unified_agrees(e, a, b);
        },
    }
}

proof fn lemma_new_type(e: EnvV, t: TypeV)
    requires
        with_known(e, t).store.slots.len() <= usize::MAX,
    ensures
        known_in(with_known(e, t).store, next_id(e)) == Some(t),
        next_id(e).0 == e.store.slots.len(),
{
}

pub proof fn lemma_unified_with(fuel: nat, e: EnvV, id: TypeId, t: TypeV)
    requires
        well_represented(e.store),
        with_known(e, t).store.slots.len() <= usize::MAX,
    ensures
        both_unified(fuel, with_known(e, t), id, next_id(e)).1 is Ok ==> has_type(
            both_unified(fuel, with_known(e, t), id, next_id(e)).0.store,
            id,
            t,
        ),
        both_unified(fuel, with_known(e, t), next_id(e), id).1 is Ok ==> has_type(
            both_unified(fuel, with_known(e, t), next_id(e), id).0.store,
            id,
            t,
        ),
{
    broadcast use group_grown;

    reveal(refined);
    let e1 = with_known(e, t);
    lemma_new_type(e, t);
    crate::store::law_slots_stay_well_represented(e.store, id, id, t, Some(t));
    law_unified_types_agree(fuel, e1, id, next_id(e));
    lemma_both_unified(fuel, e1, id, next_id(e));
    law_unified_types_agree(fuel, e1, next_id(e), id);
    lemma_both_unified(fuel, e1, next_id(e), id);
}

/// Whether an operator compares its operands.
pub open spec fn is_comparison(op: BinaryOperator) -> bool {
    op is Eq || op is Ne || op is Lt || op is Le || op is Gt || op is Ge
}

/// Whether an operator joins truth values.
pub open spec fn is_logical(op: BinaryOperator) -> bool {
    op is And || op is Or
}

/// Where the types of the operands allow an operation, they agree. A comparison is a truth value, and so
/// are a logical operation and its operands; any other operation has the type of its operands.
pub proof fn law_operation_has_the_type_of_its_operator(fuel: nat, e: EnvV, op: BinaryOperator, l: TypeId, r: TypeId)
    requires
        well_represented(e.store),
        binary_result(fuel, e, op, l, r).0.store.slots.len() <= usize::MAX,
    ensures
        binary_result(fuel, e, op, l, r).1 matches Ok(id) ==> {
            let s = binary_result(fuel, e, op, l, r).0.store;
            &&& is_comparison(op) || is_logical(op) ==> known_in(s, id) == Some(TypeV::Bool)
            &&& is_logical(op) ==> has_type(s, r, TypeV::Bool)
            &&& !is_comparison(op) && !is_logical(op) ==> id == l && agree(s, l, r)
        },
        is_comparison(op) ==> (binary_result(fuel, e, op, l, r).1 is Ok <==> both_unified(fuel, e, l, r).1 is Ok),
        is_comparison(op) && both_unified(fuel, e, l, r).1 is Ok ==> agree(both_unified(fuel, e, l, r).0.store, l, r),
{
    broadcast use group_grown;

    reveal(binary_result);
    reveal(refined);
    lemma_both_unified(fuel, e, l, r);
    law_unified_types_agree(fuel, e, l, r);
    if is_logical(op) {
        let e1 = with_known(e, TypeV::Bool);
        let b = next_id(e);
        lemma_both_unified(fuel, e1, l, b);
        let e2 = both_unified(fuel, e1, l, b).0;
        lemma_both_unified(fuel, e2, r, b);
        if binary_result(fuel, e, op, l, r).1 is Ok {
            lemma_new_type(e, TypeV::Bool);
            crate::store::law_slots_stay_well_represented(e.store, l, r, TypeV::Bool, Some(TypeV::Bool));
            law_unified_types_agree(fuel, e2, r, b);
        }
    } else if is_comparison(op) {
        let e1 = both_unified(fuel, e, l, r).0;
        if binary_result(fuel, e, op, l, r).1 is Ok {
            lemma_new_type(e1, TypeV::Bool);
        }
    }
}

/// The same of expressions: the operands are inferred from left to right, the operator and the operands
/// stay, and the expression has the type that was found.
pub proof fn law_binary_expression(fuel: nat, e: EnvV, x: ExprV, op: BinaryOperator, l: ExprV, r: ExprV)
    requires
        well_represented(e.store),
        fuel > 0,
        x.kind == (ExprKindV::BinaryOp { op, left: Box::new(l), right: Box::new(r) }),
        expr_typed(fuel, e, x).0.store.slots.len() <= usize::MAX,
    ensures
        expr_typed(fuel, e, x).2 matches Ok(id) ==> {
            let n = (fuel - 1) as nat;
            let (after, y, _) = expr_typed(fuel, e, x);
            let a = expr_typed(n, e, l);
            let b = expr_typed(n, a.0, r);
            &&& a.2 is Ok && b.2 is Ok
            &&& y == ExprV {
                kind: ExprKindV::BinaryOp { op, left: Box::new(a.1), right: Box::new(b.1) },
                ty: id,
                span: x.span,
            }
            &&& is_comparison(op) || is_logical(op) ==> known_in(after.store, id) == Some(TypeV::Bool)
            &&& is_logical(op) ==> has_type(after.store, b.2->Ok_0, TypeV::Bool)
            &&& !is_comparison(op) && !is_logical(op) ==> id == a.2->Ok_0 && agree(after.store, id, b.2->Ok_0)
        },
{
    reveal(refined);
    let n = (fuel - 1) as nat;
    let a = expr_typed(n, e, l);
    lemma_expr_typed(n, e, l);
    let b = expr_typed(n, a.0, r);
    lemma_expr_typed(n, a.0, r);
    assert(expr_inner_typed(fuel, e, x) == binary_typed(n, e, op, l, r, x.ty, x.span));
    if expr_typed(fuel, e, x).2 is Ok {
        law_operation_has_the_type_of_its_operator(n, b.0, op, a.2->Ok_0, b.2->Ok_0);
    }
}

/// A literal has the type of its kind: a whole number is an integer, a number with a fraction a floating
/// point number, a text a C string, and nothing a pointer.
pub proof fn law_literal_has_the_type_of_its_kind(fuel: nat, e: EnvV, x: ExprV, l: LiteralV)
    requires
        fuel > 0,
        x.kind == (ExprKindV::Literal { value: l }),
        e.store.slots.len() < usize::MAX,
    ensures
        expr_typed(fuel, e, x).2 is Ok,
        expr_typed(fuel, e, x).1 == (ExprV { ty: expr_typed(fuel, e, x).2->Ok_0, ..x }),
        ({
            let t = known_in(expr_typed(fuel, e, x).0.store, expr_typed(fuel, e, x).2->Ok_0);
            &&& t is Some
            &&& l is Int <==> is_integer_type(t->0)
            &&& l is Int ==> t->0 is Int
            &&& l is Float <==> is_float_type(t->0)
            &&& l is Char <==> t->0 is Char
            &&& l is Bool <==> t->0 is Bool
            &&& l is String <==> t->0 is CString
            &&& l is Null <==> is_void_pointer(t->0)
        }),
{
    assert(expr_inner_typed(fuel, e, x).2 == Ok::<TypeId, ErrorV>(next_id(e)));
    lemma_new_type(e, crate::infer_spec::literal_type(l));
}

/// What a pointer to a value points to has the type of the value; any operator but these two keeps the
/// type of its operand.
pub proof fn law_dereference_undoes_address_of(e: EnvV, t: TypeId, op: UnaryOperator)
    requires
        e.store.slots.len() + 2 <= usize::MAX,
    ensures
        !(op is AddressOf) && !(op is Dereference) ==> unary_result(e, op, t) == (e, Ok::<TypeId, ErrorV>(t)),
        known_in(e.store, t) is Some ==> unary_result(e, UnaryOperator::AddressOf, t).1 is Ok,
        unary_result(e, UnaryOperator::AddressOf, t).1 matches Ok(p) ==> {
            let e1 = unary_result(e, UnaryOperator::AddressOf, t).0;
            let r = unary_result(e1, UnaryOperator::Dereference, p);
            &&& known_in(e1.store, p)->0 is Ptr
            &&& r.1 is Ok
            &&& known_in(r.0.store, r.1->Ok_0) == known_in(e.store, t)
        },
        known_in(e.store, t) matches Some(k) ==> (unary_result(e, UnaryOperator::Dereference, t).1 is Ok <==> k is Ptr),
{
    reveal(unary_result);
    if known_in(e.store, t) is Some {
        let p = TypeV::Ptr(Box::new(known_in(e.store, t)->0));
        lemma_new_type(e, p);
        let e1 = with_known(e, p);
        lemma_new_type(e1, known_in(e.store, t)->0);
    }
}

/// An operator in front of an operand stays, with its operand, and the expression has the type found.
pub proof fn law_unary_expression(fuel: nat, e: EnvV, x: ExprV, op: UnaryOperator, y: ExprV)
    requires
        fuel > 0,
        x.kind == (ExprKindV::UnaryOp { op, expr: Box::new(y) }),
    ensures
        expr_typed(fuel, e, x).2 matches Ok(id) ==> {
            let a = expr_typed((fuel - 1) as nat, e, y);
            &&& a.2 is Ok
            &&& unary_result(a.0, op, a.2->Ok_0) == (expr_typed(fuel, e, x).0, Ok::<TypeId, ErrorV>(id))
            &&& expr_typed(fuel, e, x).1 == ExprV {
                kind: ExprKindV::UnaryOp { op, expr: Box::new(a.1) },
                ty: id,
                span: x.span,
            }
        },
{
    assert(expr_inner_typed(fuel, e, x) == unary_typed((fuel - 1) as nat, e, op, y, x.ty, x.span));
}

/// An assigned value agrees with what it is assigned to, whose type the assignment has.
pub proof fn law_assigned_value_agrees(fuel: nat, e: EnvV, x: ExprV, op: AssignmentOperator, l: ExprV, r: ExprV)
    requires
        well_represented(e.store),
        fuel > 0,
        x.kind == (ExprKindV::Assign { op, left: Box::new(l), right: Box::new(r) }),
    ensures
        expr_typed(fuel, e, x).2 matches Ok(id) ==> {
            let n = (fuel - 1) as nat;
            let (after, y, _) = expr_typed(fuel, e, x);
            let b = expr_typed(n, e, r);
            let a = expr_typed(n, b.0, l);
            &&& b.2 is Ok
            &&& a.2 == Ok::<TypeId, ErrorV>(id)
            &&& agree(after.store, id, b.2->Ok_0)
            &&& y.kind == ExprKindV::Assign { op, left: Box::new(a.1), right: Box::new(b.1) }
        },
{
    reveal(refined);
    let n = (fuel - 1) as nat;
    let b = expr_typed(n, e, r);
    lemma_expr_typed(n, e, r);
    let a = expr_typed(n, b.0, l);
    lemma_expr_typed(n, b.0, l);
    assert(expr_inner_typed(fuel, e, x) == assign_typed(n, e, op, l, r, x.ty, x.span));
    if expr_typed(fuel, e, x).2 is Ok {
        law_unified_types_agree(n, a.0, a.2->Ok_0, b.2->Ok_0);
    }
}

/// A condition that is accepted is a truth value.
pub proof fn law_conditions_are_truth_values(fuel: nat, e: EnvV, cond: ExprV)
    requires
        well_represented(e.store),
        condition_typed(fuel, e, cond).0.store.slots.len() <= usize::MAX,
    ensures
        condition_typed(fuel, e, cond).1 matches Ok(c) ==> {
            let a = expr_typed(fuel, e, cond);
            &&& c == a.1
            &&& a.2 matches Ok(id)
            &&& has_type(condition_typed(fuel, e, cond).0.store, id, TypeV::Bool)
        },
{
    broadcast use group_grown;

    reveal(refined);
    let a = expr_typed(fuel, e, cond);
    lemma_expr_typed(fuel, e, cond);
    if condition_typed(fuel, e, cond).1 is Ok {
        let id = a.2->Ok_0;
        lemma_both_unified(fuel, with_known(a.0, TypeV::Bool), id, next_id(a.0));
        lemma_unified_with(fuel, a.0, id, TypeV::Bool);
    }
}

/// A returned value agrees with the return type of the function.
pub proof fn law_returned_value_agrees(fuel: nat, e: EnvV, x: ExprV, span: Span)
    requires
        well_represented(e.store),
    ensures
        value_returned(fuel, e, x, span).1 matches Ok(s) ==> {
            let a = expr_typed(fuel, e, x);
            &&& a.2 matches Ok(id)
            &&& e.ret matches Some(ret)
            &&& agree(value_returned(fuel, e, x, span).0.store, ret, id)
            &&& s.kind matches StmtKindV::Return(Some(y))
            &&& y.kind == a.1.kind
        },
{
    reveal(refined);
    let a = expr_typed(fuel, e, x);
    lemma_expr_typed(fuel, e, x);
    if value_returned(fuel, e, x, span).1 is Ok {
        law_unified_types_agree(fuel, a.0, a.0.ret->0, a.2->Ok_0);
    }
}

/// A function from which one returns without a value returns nothing.
pub proof fn law_return_without_a_value(fuel: nat, e: EnvV, span: Span)
    requires
        well_represented(e.store),
        e.store.slots.len() < usize::MAX,
    ensures
        nothing_returned(fuel, e, span).1 is Ok ==> e.ret is Some && has_type(
            nothing_returned(fuel, e, span).0.store,
            e.ret->0,
            TypeV::Void,
        ),
{
    if e.ret is Some {
        lemma_unified_with(fuel, e, e.ret->0, TypeV::Void);
    }
}

/// A declared variable is found under its name, with the type that the declaration records; the value,
/// the annotation and the name stay.
pub proof fn law_declared_variable_is_found(
    fuel: nat,
    e: EnvV,
    name: Seq<char>,
    ann: Option<TypeV>,
    init: Option<ExprV>,
    span: Span,
)
    requires
        well_represented(e.store),
        e.symbols.vars.len() > 0,
    ensures
        var_typed(fuel, e, name, ann, init, span).1 matches Ok(s) ==> {
            let after = var_typed(fuel, e, name, ann, init, span).0;
            &&& s.kind matches StmtKindV::VarDecl { name: n, annotation, inferred, init: y }
            &&& n == name
            &&& annotation == ann
            &&& var_in(after.symbols.vars, name) == Some(inferred)
            &&& init is Some || ann is Some
            &&& init is Some <==> y is Some
            &&& init is Some ==> {
                let a = expr_typed(fuel, e, init->0);
                &&& a.2 is Ok
                &&& y->0.kind == a.1.kind
                &&& agree(after.store, inferred, a.2->Ok_0)
            }
        },
{
    reveal(refined);
    let missing = ErrorV::TypeError("Variable '"@ + name + "' declared without type annotation or initializer"@);
    if let Some(x) = init {
        let a = expr_typed(fuel, e, x);
        lemma_expr_typed(fuel, e, x);
        if a.2 is Ok && ann is Some {
            lemma_annotated(fuel, a.0, ann, Seq::empty());
            let b = annotated(fuel, a.0, ann, Seq::empty());
            if b.1 is Ok {
                law_unified_types_agree(fuel, b.0, b.1->Ok_0, a.2->Ok_0);
            }
        }
    } else if ann is Some {
        lemma_annotated(fuel, e, ann, Seq::empty());
    }
    crate::kept_stmts::lemma_initialized(fuel, e, ann, init, missing);
    if let (e1, Ok((id, _))) = initialized(fuel, e, ann, init, missing) {
        crate::symbols::law_scopes(e1.symbols.vars, name, name, id);
    }
}

/// A name that is no global has the type of the innermost variable of that name.
pub proof fn law_name_has_the_type_of_its_variable(fuel: nat, e: EnvV, x: ExprV, name: Seq<char>, id: TypeId)
    requires
        fuel > 0,
        x.kind == (ExprKindV::Identifier { name }),
        get_in(e.symbols.globals, name) == Some(id) || (get_in(e.symbols.globals, name) is None && var_in(
            e.symbols.vars,
            name,
        ) == Some(id)),
    ensures
        expr_typed(fuel, e, x) == (e, ExprV { ty: id, ..x }, Ok::<TypeId, ErrorV>(id)),
{
    reveal(identifier_typed);
    assert(expr_inner_typed(fuel, e, x) == identifier_typed((fuel - 1) as nat, e, x, name));
}

/// An argument agrees with the parameter at its position, and all arguments stay in their places.
pub proof fn law_arguments_agree(fuel: nat, e: EnvV, args: Seq<ExprV>, expected: Seq<TypeId>, i: int)
    requires
        well_represented(e.store),
        0 <= i < args.len(),
        i < expected.len(),
    ensures
        args_typed(fuel, e, args, expected, i).1.len() == args.len(),
        args_typed(fuel, e, args, expected, i).2 is Ok ==> {
            let a = expr_typed(fuel, e, args[i]);
            let u = both_unified(fuel, a.0, a.2->Ok_0, expected[i]);
            &&& a.2 is Ok
            &&& u.1 is Ok && agree(u.0.store, a.2->Ok_0, expected[i])
            &&& args_typed(fuel, e, args, expected, i).1[i].kind == a.1.kind
        },
    decreases args.len() - i,
{
    reveal(refined);
    let a = expr_typed(fuel, e, args[i]);
    lemma_expr_typed(fuel, e, args[i]);
    lemma_args_places(fuel, e, args, expected, i);
    if a.2 is Ok {
        law_unified_types_agree(fuel, a.0, a.2->Ok_0, expected[i]);
        let u = both_unified(fuel, a.0, a.2->Ok_0, expected[i]);
        if u.1 is Ok {
            let more = args.update(i, crate::infer_spec::checked_as(a.1, expected[i]));
            lemma_args_places(fuel, u.0, more, expected, i + 1);
        }
    }
}

proof fn lemma_args_places(fuel: nat, e: EnvV, args: Seq<ExprV>, expected: Seq<TypeId>, i: int)
    ensures
        args_typed(fuel, e, args, expected, i).1.len() == args.len(),
        forall|k: int| 0 <= k < i && k < args.len() ==> #[trigger] args_typed(fuel, e, args, expected, i).1[k] == args[k],
    decreases args.len() - i,
{
    if 0 <= i < args.len() && i < expected.len() {
        let a = expr_typed(fuel, e, args[i]);
        if a.2 is Ok {
            let u = both_unified(fuel, a.0, a.2->Ok_0, expected[i]);
            if u.1 is Ok {
                let more = args.update(i, crate::infer_spec::checked_as(a.1, expected[i]));
                lemma_args_places(fuel, u.0, more, expected, i + 1);
            }
        }
    }
}

/// A call of a declared function with parameters has as many arguments as the function has parameters,
/// and has the return type of the function.
pub proof fn law_call_has_the_return_type(fuel: nat, e: EnvV, callee: ExprV, name: Seq<char>, args: Seq<ExprV>)
    requires
        crate::expr_pratt::callee_text(callee) == Some(name),
        e.symbols.functions.contains_key(name),
    ensures
        plain_call_typed(fuel, e, callee, args).1 == callee,
        plain_call_typed(fuel, e, callee, args).3 matches Ok(id) ==> id == e.symbols.functions[name].1,
        e.symbols.functions[name].0.len() > 0 && e.symbols.functions[name].0.len() != args.len()
            ==> plain_call_typed(fuel, e, callee, args).3 is Err,
        e.symbols.functions[name].0.len() > 0 && plain_call_typed(fuel, e, callee, args).3 is Ok ==> {
            let params = e.symbols.functions[name].0;
            args_typed(fuel, e, args, params, 0).2 is Ok && plain_call_typed(fuel, e, callee, args).2 == args_typed(
                fuel,
                e,
                args,
                params,
                0,
            ).1
        },
{
    let (params, ret) = e.symbols.functions[name];
    assert(plain_call_typed(fuel, e, callee, args).3 == known_call_typed(fuel, e, name, params, ret, args).2);
}

/// A choice has the type of its first value, with which the second agrees, and its condition is a truth
/// value.
pub proof fn law_values_of_a_choice_agree(fuel: nat, e: EnvV, x: ExprV, c: ExprV, a: ExprV, b: ExprV)
    requires
        well_represented(e.store),
        fuel > 0,
        x.kind == (ExprKindV::If { cond: Box::new(c), then_branch: Box::new(a), else_branch: Box::new(b) }),
        condition_typed((fuel - 1) as nat, e, c).0.store.slots.len() <= usize::MAX,
    ensures
        expr_typed(fuel, e, x).2 matches Ok(id) ==> {
            let n = (fuel - 1) as nat;
            let k = condition_typed(n, e, c);
            let p = expr_typed(n, k.0, a);
            let q = expr_typed(n, p.0, b);
            &&& k.1 is Ok
            &&& has_type(k.0.store, expr_typed(n, e, c).2->Ok_0, TypeV::Bool)
            &&& p.2 == Ok::<TypeId, ErrorV>(id)
            &&& q.2 is Ok
            &&& agree(expr_typed(fuel, e, x).0.store, id, q.2->Ok_0)
            &&& expr_typed(fuel, e, x).1.kind == ExprKindV::If {
                cond: Box::new(k.1->Ok_0),
                then_branch: Box::new(p.1),
                else_branch: Box::new(q.1),
            }
        },
{
    broadcast use group_grown;

    reveal(refined);
    let n = (fuel - 1) as nat;
    let k = condition_typed(n, e, c);
    law_conditions_are_truth_values(n, e, c);
    lemma_expr_typed(n, e, c);
    let c0 = expr_typed(n, e, c);
    if c0.2 is Ok {
        lemma_both_unified(n, with_known(c0.0, TypeV::Bool), c0.2->Ok_0, next_id(c0.0));
    }
    let p = expr_typed(n, k.0, a);
    lemma_expr_typed(n, k.0, a);
    let q = expr_typed(n, p.0, b);
    lemma_expr_typed(n, p.0, b);
    assert(expr_inner_typed(fuel, e, x) == conditional_typed(n, e, c, a, b, x.ty, x.span));
    assert(conditional_typed(n, e, c, a, b, x.ty, x.span).2 is Ok ==> k.1 is Ok
        && crate::infer_spec::branches_typed(n, k.0, c0.1, a, b, x.ty, x.span).2 is Ok);
    if expr_typed(fuel, e, x).2 is Ok {
        law_unified_types_agree(n, q.0, p.2->Ok_0, q.2->Ok_0);
    }
}

} // verus!
