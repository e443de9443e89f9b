use kitlang::ast::{AssignmentOperator, BinaryOperator, Expr, ExprKind, Literal, UnaryOperator};
use kitlang::expr_pratt::{callee_name, parse_kit_expr};

/// Parse an expression and unwrap
fn p(text: &str) -> Expr {
    parse_kit_expr(text, text, 0).unwrap_or_else(|e| panic!("parse failed for `{text}`: {e:?}"))
}

/// Parse and assert the error contains a substring.
fn p_err(text: &str, needle: &str) {
    let err = parse_kit_expr(text, text, 0)
        .err()
        .unwrap_or_else(|| panic!("expected error for `{text}`, got Ok"));
    let msg = err.to_human_message();
    assert!(
        msg.contains(needle),
        "error `{msg}` does not contain `{needle}`"
    );
}

#[test]
fn expr_pratt_integer_literal() {
    let e = p("42");
    assert!(matches!(
        e,
        Expr {
            kind: ExprKind::Literal {
                value: Literal::Int(42),
                ..
            },
            ..
        }
    ));
}

#[test]
fn expr_pratt_float_literal() {
    let e = p("3.14");
    assert!(
        matches!(e, Expr { kind: ExprKind::Literal { value: Literal::Float(f), .. }, .. } if (f.parse::<f64>().unwrap() - 3.14).abs() < 1e-10)
    );
}

#[test]
fn expr_pratt_string_literal() {
    let e = p(r#""hello""#);
    assert!(
        matches!(e, Expr { kind: ExprKind::Literal { value: Literal::String(s), .. }, .. } if s == "hello")
    );
}

#[test]
fn expr_pratt_bool_literals() {
    assert!(matches!(
        p("true"),
        Expr {
            kind: ExprKind::Literal {
                value: Literal::Bool(true),
                ..
            },
            ..
        }
    ));
    assert!(matches!(
        p("false"),
        Expr {
            kind: ExprKind::Literal {
                value: Literal::Bool(false),
                ..
            },
            ..
        }
    ));
}

#[test]
fn expr_pratt_null_literal() {
    assert!(matches!(
        p("null"),
        Expr {
            kind: ExprKind::Literal {
                value: Literal::Null,
                ..
            },
            ..
        }
    ));
}

#[test]
fn expr_pratt_identifier() {
    let e = p("foo");
    assert!(matches!(&e, Expr { kind: ExprKind::Identifier { name, .. }, .. } if name == "foo"));
}

#[test]
fn expr_pratt_qualified_identifier_is_built_via_postfix_chain() {
    let e = p("foo.bar.baz");
    let mut cur = &e;
    let mut path = vec![];
    while let Expr {
        kind: ExprKind::FieldAccess {
            expr, field_name, ..
        },
        ..
    } = cur
    {
        path.push(field_name.clone());
        cur = expr;
    }
    if let Expr {
        kind: ExprKind::Identifier { name, .. },
        ..
    } = cur
    {
        assert_eq!(name, "foo");
    } else {
        panic!("expected leaf Identifier, got {cur:?}");
    }
    assert_eq!(path, vec!["baz".to_string(), "bar".to_string()]);
}

#[test]
fn expr_pratt_additive_vs_multiplicative() {
    let e = p("1 + 2 * 3");
    if let Expr {
        kind: ExprKind::BinaryOp { op, right, .. },
        ..
    } = &e
    {
        assert_eq!(*op, BinaryOperator::Add);
        if let Expr {
            kind: ExprKind::BinaryOp { op: inner_op, .. },
            ..
        } = right.as_ref()
        {
            assert_eq!(*inner_op, BinaryOperator::Mul);
        } else {
            panic!("expected inner Mul, got {right:?}");
        }
    } else {
        panic!("expected top-level Add, got {e:?}");
    }
}

#[test]
fn expr_pratt_comparison_vs_equality() {
    let e = p("a == b < c");
    if let Expr {
        kind: ExprKind::BinaryOp {
            op, left, right, ..
        },
        ..
    } = &e
    {
        assert_eq!(*op, BinaryOperator::Eq);
        assert!(
            matches!(left.as_ref(), Expr { kind: ExprKind::Identifier { name, .. }, .. } if name == "a")
        );
        if let Expr {
            kind: ExprKind::BinaryOp { op: inner_op, .. },
            ..
        } = right.as_ref()
        {
            assert_eq!(*inner_op, BinaryOperator::Lt);
        } else {
            panic!("expected inner Lt, got {right:?}");
        }
    } else {
        panic!("expected top-level Eq, got {e:?}");
    }
}

#[test]
fn expr_pratt_left_associative_addition() {
    let e = p("1 + 2 + 3");
    if let Expr {
        kind: ExprKind::BinaryOp {
            op, left, right, ..
        },
        ..
    } = &e
    {
        assert_eq!(*op, BinaryOperator::Add);
        assert!(matches!(
            right.as_ref(),
            Expr {
                kind: ExprKind::Literal {
                    value: Literal::Int(3),
                    ..
                },
                ..
            }
        ));
        if let Expr {
            kind: ExprKind::BinaryOp { op: inner_op, .. },
            ..
        } = left.as_ref()
        {
            assert_eq!(*inner_op, BinaryOperator::Add);
        } else {
            panic!("expected inner Add, got {left:?}");
        }
    } else {
        panic!("expected top-level Add, got {e:?}");
    }
}

#[test]
fn expr_pratt_right_associative_assignment() {
    let e = p("a += b += c");
    if let Expr {
        kind: ExprKind::Assign {
            op, left, right, ..
        },
        ..
    } = &e
    {
        assert_eq!(*op, AssignmentOperator::AddAssign);
        assert!(
            matches!(left.as_ref(), Expr { kind: ExprKind::Identifier { name, .. }, .. } if name == "a")
        );
        assert!(matches!(
            right.as_ref(),
            Expr {
                kind: ExprKind::Assign { .. },
                ..
            }
        ));
    } else {
        panic!("expected top-level Assign, got {e:?}");
    }
}

#[test]
fn expr_pratt_unary_minus_binds_tighter_than_addition() {
    let e = p("-a + b");
    if let Expr {
        kind: ExprKind::BinaryOp {
            op, left, right, ..
        },
        ..
    } = &e
    {
        assert_eq!(*op, BinaryOperator::Add);
        assert!(
            matches!(right.as_ref(), Expr { kind: ExprKind::Identifier { name, .. }, .. } if name == "b")
        );
        assert!(matches!(
            left.as_ref(),
            Expr {
                kind: ExprKind::UnaryOp {
                    op: UnaryOperator::Neg,
                    ..
                },
                ..
            }
        ));
    } else {
        panic!("expected top-level Add, got {e:?}");
    }
}

#[test]
fn expr_pratt_unary_looser_than_postfix() {
    let e = p("&arr[i]");
    if let Expr {
        kind: ExprKind::UnaryOp { op, expr, .. },
        ..
    } = &e
    {
        assert_eq!(*op, UnaryOperator::AddressOf);
        assert!(matches!(
            expr.as_ref(),
            Expr {
                kind: ExprKind::Index { .. },
                ..
            }
        ));
    } else {
        panic!("expected top-level AddressOf, got {e:?}");
    }
}

#[test]
fn expr_pratt_chained_field_access() {
    let e = p("a.b.c.d.e");
    let mut depth = 0;
    let mut cur = &e;
    while let Expr {
        kind: ExprKind::FieldAccess { expr, .. },
        ..
    } = cur
    {
        depth += 1;
        cur = expr;
    }
    assert_eq!(depth, 4, "expected 4 field-access levels");
    assert!(matches!(cur, Expr { kind: ExprKind::Identifier { name, .. }, .. } if name == "a"));
}

#[test]
fn expr_pratt_stress_deep_postfix_chain() {
    let mut src = String::from("a");
    for i in 0..100 {
        src.push('.');
        src.push_str(&format!("f{i}"));
    }
    let e = p(&src);
    let mut depth = 0;
    let mut cur = &e;
    while let Expr {
        kind: ExprKind::FieldAccess { expr, .. },
        ..
    } = cur
    {
        depth += 1;
        cur = expr;
    }
    assert_eq!(depth, 100);
}

#[test]
fn expr_pratt_stress_deep_nested_parens() {
    let mut src = String::new();
    for _ in 0..100 {
        src.push('(');
    }
    src.push('1');
    for _ in 0..100 {
        src.push(')');
    }
    let e = p(&src);
    assert!(matches!(
        e,
        Expr {
            kind: ExprKind::Literal {
                value: Literal::Int(1),
                ..
            },
            ..
        }
    ));
}

#[test]
fn expr_pratt_call_no_args() {
    let e = p("f()");
    if let Expr {
        kind: ExprKind::Call { callee, args, .. },
        ..
    } = &e
    {
        assert_eq!(callee_name(callee), Some("f".to_string()));
        assert!(args.is_empty());
    } else {
        panic!("expected Call, got {e:?}");
    }
}

#[test]
fn expr_pratt_call_one_arg() {
    let e = p("f(1)");
    if let Expr {
        kind: ExprKind::Call { callee, args, .. },
        ..
    } = &e
    {
        assert_eq!(callee_name(callee), Some("f".to_string()));
        assert_eq!(args.len(), 1);
    } else {
        panic!("expected Call, got {e:?}");
    }
}

#[test]
fn expr_pratt_call_many_args() {
    let e = p("f(1, 2, 3, 4, 5)");
    if let Expr {
        kind: ExprKind::Call { args, .. },
        ..
    } = &e
    {
        assert_eq!(args.len(), 5);
    } else {
        panic!("expected Call, got {e:?}");
    }
}

#[test]
fn expr_pratt_call_qualified_name() {
    let e = p("pkg.math.add(2, 3)");
    if let Expr {
        kind: ExprKind::Call { callee, args, .. },
        ..
    } = &e
    {
        assert_eq!(callee_name(callee), Some("pkg.math.add".to_string()));
        assert_eq!(args.len(), 2);
    } else {
        panic!("expected Call, got {e:?}");
    }
}

#[test]
fn expr_pratt_call_with_nested_expressions_in_args() {
    let e = p("f(g(1), h(2, 3))");
    if let Expr {
        kind: ExprKind::Call { args, .. },
        ..
    } = &e
    {
        assert_eq!(args.len(), 2);
    } else {
        panic!("expected Call, got {e:?}");
    }
}

#[test]
fn expr_pratt_index() {
    let e = p("arr[0]");
    if let Expr {
        kind: ExprKind::Index { expr, index, .. },
        ..
    } = &e
    {
        assert!(
            matches!(expr.as_ref(), Expr { kind: ExprKind::Identifier { name, .. }, .. } if name == "arr")
        );
        assert!(matches!(
            index.as_ref(),
            Expr {
                kind: ExprKind::Literal {
                    value: Literal::Int(0),
                    ..
                },
                ..
            }
        ));
    } else {
        panic!("expected Index, got {e:?}");
    }
}

#[test]
fn expr_pratt_chained_index() {
    let e = p("a[i][j]");
    let mut depth = 0;
    let mut cur = &e;
    while let Expr {
        kind: ExprKind::Index { expr, .. },
        ..
    } = cur
    {
        depth += 1;
        cur = expr;
    }
    assert_eq!(depth, 2);
}

#[test]
fn expr_pratt_empty_array() {
    let e = p("[]");
    if let Expr {
        kind: ExprKind::ArrayLiteral { elements, .. },
        ..
    } = &e
    {
        assert!(elements.is_empty());
    } else {
        panic!("expected ArrayLiteral, got {e:?}");
    }
}

#[test]
fn expr_pratt_array_with_elements() {
    let e = p("[1, 2, 3]");
    if let Expr {
        kind: ExprKind::ArrayLiteral { elements, .. },
        ..
    } = &e
    {
        assert_eq!(elements.len(), 3);
    } else {
        panic!("expected ArrayLiteral, got {e:?}");
    }
}

#[test]
fn expr_pratt_struct_init() {
    let e = p("struct Point { x: 10, y: 20 }");
    if let Expr {
        kind: ExprKind::StructInit { fields, .. },
        ..
    } = &e
    {
        assert_eq!(fields.len(), 2);
        assert_eq!(fields[0].name, "x");
        assert_eq!(fields[1].name, "y");
    } else {
        panic!("expected StructInit, got {e:?}");
    }
}

#[test]
fn expr_pratt_if_expr() {
    let e = p("if a then b else c");
    if let Expr {
        kind:
            ExprKind::If {
                cond,
                then_branch,
                else_branch,
                ..
            },
        ..
    } = &e
    {
        assert!(
            matches!(cond.as_ref(), Expr { kind: ExprKind::Identifier { name, .. }, .. } if name == "a")
        );
        assert!(
            matches!(then_branch.as_ref(), Expr { kind: ExprKind::Identifier { name, .. }, .. } if name == "b")
        );
        assert!(
            matches!(else_branch.as_ref(), Expr { kind: ExprKind::Identifier { name, .. }, .. } if name == "c")
        );
    } else {
        panic!("expected If, got {e:?}");
    }
}

#[test]
fn expr_pratt_logical_and_vs_or() {
    let e = p("a || b && c");
    if let Expr {
        kind: ExprKind::BinaryOp { op, right, .. },
        ..
    } = &e
    {
        assert_eq!(*op, BinaryOperator::Or);
        assert!(matches!(
            right.as_ref(),
            Expr {
                kind: ExprKind::BinaryOp {
                    op: BinaryOperator::And,
                    ..
                },
                ..
            }
        ));
    } else {
        panic!("expected top-level Or, got {e:?}");
    }
}

#[test]
fn expr_pratt_missing_rparen() {
    p_err("(1 + 2", "`)`");
}

#[test]
fn expr_pratt_range_literal_simple() {
    let e = p("1...5");
    if let Expr {
        kind: ExprKind::RangeLiteral { start, end, .. },
        ..
    } = &e
    {
        assert!(matches!(
            start.as_ref(),
            Expr {
                kind: ExprKind::Literal {
                    value: Literal::Int(1),
                    ..
                },
                ..
            }
        ));
        assert!(matches!(
            end.as_ref(),
            Expr {
                kind: ExprKind::Literal {
                    value: Literal::Int(5),
                    ..
                },
                ..
            }
        ));
    } else {
        panic!("expected RangeLiteral, got {e:?}");
    }
}

#[test]
fn expr_pratt_range_literal_with_expressions() {
    let e = p("a + 1...b - 1");
    if let Expr {
        kind: ExprKind::RangeLiteral { start, end, .. },
        ..
    } = &e
    {
        assert!(matches!(
            start.as_ref(),
            Expr {
                kind: ExprKind::BinaryOp {
                    op: BinaryOperator::Add,
                    ..
                },
                ..
            }
        ));
        assert!(matches!(
            end.as_ref(),
            Expr {
                kind: ExprKind::BinaryOp {
                    op: BinaryOperator::Sub,
                    ..
                },
                ..
            }
        ));
    } else {
        panic!("expected RangeLiteral, got {e:?}");
    }
}

#[test]
fn expr_pratt_missing_rbracket() {
    p_err("arr[0", "`]`");
}

#[test]
fn expr_pratt_unexpected_token_at_start() {
    p_err("+", "identifier");
}

#[test]
fn expr_pratt_missing_field_name() {
    p_err("foo.", "identifier");
}

#[test]
fn expr_pratt_missing_else() {
    p_err("if a then b", "`else`");
}

