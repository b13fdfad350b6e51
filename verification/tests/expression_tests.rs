use cfront::ast::{AssignOp, BinaryOp, Expr, PostfixOp, PrefixOp};
use cfront::lexer::Lexer;
use cfront::parser::Parser;

/// Parses an expression string into its AST, panicking on failure.
/// Initializer syntax is allowed at the top level, so brace-enclosed
/// initializer lists can be exercised too.
fn parse_expression(input: &str) -> Expr {
    let mut lexer = Lexer::new(input);
    let tokens = lexer.collect_spanned_tokens();
    let mut parser = Parser::new(tokens);
    match parser.parse_initializer() {
        Ok(expr) => expr,
        Err(e) => {
            panic!("expression parse failed: {:?}\ninput: '{}'", e, input);
        }
    }
}

#[test]
fn test_integer_literal() {
    let expr = parse_expression("42");
    assert_eq!(expr, Expr::IntLiteral(42));
}

#[test]
fn test_char_literal() {
    let expr = parse_expression("'a'");
    assert_eq!(expr, Expr::CharLiteral('a'));

    let expr = parse_expression("'\\n'");
    assert_eq!(expr, Expr::CharLiteral('\n'));

    let expr = parse_expression("'\\0'");
    assert_eq!(expr, Expr::CharLiteral('\0'));
}

#[test]
fn test_identifier() {
    let expr = parse_expression("variable");
    assert_eq!(expr, Expr::Ident("variable".to_string()));
}

#[test]
fn test_binary_arithmetic_ops() {
    let expr = parse_expression("1 + 2");
    assert!(matches!(expr, Expr::BinaryOp { op: BinaryOp::Add, .. }));

    let expr = parse_expression("3 - 4");
    assert!(matches!(expr, Expr::BinaryOp { op: BinaryOp::Sub, .. }));

    let expr = parse_expression("5 * 6");
    assert!(matches!(expr, Expr::BinaryOp { op: BinaryOp::Mul, .. }));

    let expr = parse_expression("8 / 2");
    assert!(matches!(expr, Expr::BinaryOp { op: BinaryOp::Div, .. }));

    let expr = parse_expression("10 % 3");
    assert!(matches!(expr, Expr::BinaryOp { op: BinaryOp::Rem, .. }));
}

#[test]
fn test_comparison_ops() {
    let expr = parse_expression("a == b");
    assert!(matches!(expr, Expr::BinaryOp { op: BinaryOp::Eq, .. }));

    let expr = parse_expression("a != b");
    assert!(matches!(expr, Expr::BinaryOp { op: BinaryOp::Ne, .. }));

    let expr = parse_expression("a < b");
    assert!(matches!(expr, Expr::BinaryOp { op: BinaryOp::Lt, .. }));

    let expr = parse_expression("a <= b");
    assert!(matches!(expr, Expr::BinaryOp { op: BinaryOp::Le, .. }));

    let expr = parse_expression("a > b");
    assert!(matches!(expr, Expr::BinaryOp { op: BinaryOp::Gt, .. }));

    let expr = parse_expression("a >= b");
    assert!(matches!(expr, Expr::BinaryOp { op: BinaryOp::Ge, .. }));
}

#[test]
fn test_logical_ops() {
    let expr = parse_expression("a && b");
    assert!(matches!(expr, Expr::BinaryOp { op: BinaryOp::And, .. }));

    let expr = parse_expression("a || b");
    assert!(matches!(expr, Expr::BinaryOp { op: BinaryOp::Or, .. }));

    let expr = parse_expression("!a");
    assert!(matches!(expr, Expr::UnaryPrefixOp { op: PrefixOp::Not, .. }));
}

#[test]
fn test_bitwise_ops() {
    let expr = parse_expression("a & b");
    assert!(matches!(expr, Expr::BinaryOp { op: BinaryOp::BitAnd, .. }));

    let expr = parse_expression("a | b");
    assert!(matches!(expr, Expr::BinaryOp { op: BinaryOp::BitOr, .. }));

    let expr = parse_expression("a ^ b");
    assert!(matches!(expr, Expr::BinaryOp { op: BinaryOp::BitXor, .. }));
}

#[test]
fn test_assignment_ops() {
    let expr = parse_expression("x = 5");
    assert!(matches!(expr, Expr::Assignment { op: AssignOp::Assign, .. }));

    let expr = parse_expression("x += 5");
    assert!(matches!(expr, Expr::Assignment { op: AssignOp::PlusAssign, .. }));

    let expr = parse_expression("x -= 5");
    assert!(matches!(expr, Expr::Assignment { op: AssignOp::MinusAssign, .. }));

    let expr = parse_expression("x *= 5");
    assert!(matches!(expr, Expr::Assignment { op: AssignOp::MulAssign, .. }));

    let expr = parse_expression("x /= 5");
    assert!(matches!(expr, Expr::Assignment { op: AssignOp::DivAssign, .. }));

    let expr = parse_expression("x %= 5");
    assert!(matches!(expr, Expr::Assignment { op: AssignOp::RemAssign, .. }));

    let expr = parse_expression("x &= 5");
    assert!(matches!(expr, Expr::Assignment { op: AssignOp::BitAndAssign, .. }));

    let expr = parse_expression("x |= 5");
    assert!(matches!(expr, Expr::Assignment { op: AssignOp::BitOrAssign, .. }));

    let expr = parse_expression("x ^= 5");
    assert!(matches!(expr, Expr::Assignment { op: AssignOp::BitXorAssign, .. }));
}

#[test]
fn test_increment_decrement() {
    let expr = parse_expression("++x");
    assert!(matches!(expr, Expr::UnaryPrefixOp { op: PrefixOp::PreInc, .. }));

    let expr = parse_expression("--x");
    assert!(matches!(expr, Expr::UnaryPrefixOp { op: PrefixOp::PreDec, .. }));

    let expr = parse_expression("x++");
    assert!(matches!(expr, Expr::UnaryPostfixOp { op: PostfixOp::PostInc, .. }));

    let expr = parse_expression("x--");
    assert!(matches!(expr, Expr::UnaryPostfixOp { op: PostfixOp::PostDec, .. }));
}

#[test]
fn test_function_call() {
    let expr = parse_expression("foo()");
    assert!(matches!(expr, Expr::Call { .. }));

    let expr = parse_expression("bar(1, 2, 3)");
    if let Expr::Call { args, .. } = expr {
        assert_eq!(args.len(), 3);
    } else {
        panic!("Expected function call");
    }
}

#[test]
fn test_array_indexing() {
    let expr = parse_expression("arr[0]");
    assert!(matches!(expr, Expr::ArrayIndex { .. }));

    let expr = parse_expression("matrix[i][j]");
    if let Expr::ArrayIndex { array, .. } = expr {
        assert!(matches!(*array, Expr::ArrayIndex { .. }));
    } else {
        panic!("Expected nested array index");
    }
}

#[test]
fn test_pointer_ops() {
    let expr = parse_expression("&x");
    assert!(matches!(expr, Expr::UnaryPrefixOp { op: PrefixOp::Address, .. }));

    let expr = parse_expression("*p");
    assert!(matches!(expr, Expr::UnaryPrefixOp { op: PrefixOp::Deref, .. }));
}

#[test]
fn test_function_call_and_precedence() {
    let expr = parse_expression("foo(1, 2+3)");

    if let Expr::Call { func, args } = expr {
        match *func {
            Expr::Ident(name) => assert_eq!(name, "foo"),
            other => panic!("expected Ident, got {:?}", other),
        }
        assert_eq!(args.len(), 2);
        match &args[1] {
            Expr::BinaryOp { op: BinaryOp::Add, lhs, rhs } => {
                assert_eq!(**lhs, Expr::IntLiteral(2));
                assert_eq!(**rhs, Expr::IntLiteral(3));
            }
            other => panic!("expected 2+3, got {:?}", other),
        }
    } else {
        panic!("expected call expr");
    }
}

#[test]
fn test_array_indexing_and_assignment() {
    let expr = parse_expression("arr[5] = b[2]");

    if let Expr::Assignment { left, op, right } = expr {
        assert_eq!(op, AssignOp::Assign);
        match *left {
            Expr::ArrayIndex { ref array, ref index } => {
                match **array {
                    Expr::Ident(ref name) => assert_eq!(name, "arr"),
                    ref o => panic!("expected arr, got {:?}", o),
                }
                assert_eq!(**index, Expr::IntLiteral(5));
            }
            ref o => panic!("expected array index lhs, got {:?}", o),
        }
        match *right {
            Expr::ArrayIndex { ref array, ref index } => {
                match **array {
                    Expr::Ident(ref name) => assert_eq!(name, "b"),
                    ref o => panic!("expected b, got {:?}", o),
                }
                assert_eq!(**index, Expr::IntLiteral(2));
            }
            ref o => panic!("expected array index rhs, got {:?}", o),
        }
    } else {
        panic!("expected assignment expr");
    }
}

#[test]
fn test_complex_expression() {
    let expr = parse_expression("(a + b) * (c - d) / 2");

    if let Expr::BinaryOp { op: BinaryOp::Div, lhs, rhs } = expr {
        assert_eq!(*rhs, Expr::IntLiteral(2));

        if let Expr::BinaryOp { op: BinaryOp::Mul, lhs: mul_lhs, rhs: mul_rhs } = *lhs {
            if let Expr::BinaryOp { op: BinaryOp::Add, lhs: add_lhs, rhs: add_rhs } = *mul_lhs {
                assert_eq!(*add_lhs, Expr::Ident("a".to_string()));
                assert_eq!(*add_rhs, Expr::Ident("b".to_string()));
            } else {
                panic!("Expected (a + b)");
            }

            if let Expr::BinaryOp { op: BinaryOp::Sub, lhs: sub_lhs, rhs: sub_rhs } = *mul_rhs {
                assert_eq!(*sub_lhs, Expr::Ident("c".to_string()));
                assert_eq!(*sub_rhs, Expr::Ident("d".to_string()));
            } else {
                panic!("Expected (c - d)");
            }
        } else {
            panic!("Expected (a + b) * (c - d)");
        }
    } else {
        panic!("Expected ((a + b) * (c - d)) / 2");
    }
}

#[test]
fn test_initializer_list() {
    let expr = parse_expression("{1, 2, 3}");

    if let Expr::InitializerList(items) = expr {
        assert_eq!(items.len(), 3);
        assert_eq!(items[0], Expr::IntLiteral(1));
        assert_eq!(items[1], Expr::IntLiteral(2));
        assert_eq!(items[2], Expr::IntLiteral(3));
    } else {
        panic!("Expected initializer list");
    }

    let expr = parse_expression("{}");
    assert!(matches!(expr, Expr::InitializerList(items) if items.is_empty()));

    let expr = parse_expression("{{1, 2}, {3, 4}}");
    if let Expr::InitializerList(items) = expr {
        assert_eq!(items.len(), 2);
        assert!(matches!(&items[0], Expr::InitializerList(inner) if inner.len() == 2));
        assert!(matches!(&items[1], Expr::InitializerList(inner) if inner.len() == 2));
    } else {
        panic!("Expected nested initializer list");
    }
}

#[test]
fn test_multiple_assignment() {
    let expr = parse_expression("a = b = c = 5");

    if let Expr::Assignment { left: left1, op: op1, right: right1 } = expr {
        assert_eq!(*left1, Expr::Ident("a".to_string()));
        assert_eq!(op1, AssignOp::Assign);

        if let Expr::Assignment { left: left2, op: op2, right: right2 } = *right1 {
            assert_eq!(*left2, Expr::Ident("b".to_string()));
            assert_eq!(op2, AssignOp::Assign);

            if let Expr::Assignment { left: left3, op: op3, right: right3 } = *right2 {
                assert_eq!(*left3, Expr::Ident("c".to_string()));
                assert_eq!(op3, AssignOp::Assign);
                assert_eq!(*right3, Expr::IntLiteral(5));
            } else {
                panic!("Expected c = 5");
            }
        } else {
            panic!("Expected b = c = 5");
        }
    } else {
        panic!("Expected a = b = c = 5");
    }
}

#[test]
fn test_nested_pointer_ops() {
    let expr = parse_expression("**ptr");

    if let Expr::UnaryPrefixOp { op: PrefixOp::Deref, rhs } = &expr {
        assert!(matches!(**rhs, Expr::UnaryPrefixOp { op: PrefixOp::Deref, .. }));
    } else {
        panic!("Expected nested pointer dereference");
    }

    let expr = parse_expression("&*p");

    if let Expr::UnaryPrefixOp { op: PrefixOp::Address, rhs } = &expr {
        assert!(matches!(**rhs, Expr::UnaryPrefixOp { op: PrefixOp::Deref, .. }));
    } else {
        panic!("Expected address-of dereference");
    }
}

#[test]
fn test_complex_pointer_arithmetic() {
    let expr = parse_expression("*(arr + i)");

    if let Expr::UnaryPrefixOp { op: PrefixOp::Deref, rhs } = &expr {
        assert!(matches!(**rhs, Expr::BinaryOp { op: BinaryOp::Add, .. }));
    } else {
        panic!("Expected dereference of addition");
    }
}

#[test]
fn test_op_precedence_mix() {
    let expr = parse_expression("a + b * c || d && e == f");

    // precedence: || < && < == < + < *, so the shape is
    // ((a + (b * c)) || (d && (e == f)))
    assert!(matches!(expr, Expr::BinaryOp { op: BinaryOp::Or, .. }));
}

#[test]
fn test_array_with_expr_index() {
    let expr = parse_expression("arr[i * 2 + 1]");

    if let Expr::ArrayIndex { array: _, index } = expr {
        assert!(matches!(*index, Expr::BinaryOp { op: BinaryOp::Add, .. }));
    } else {
        panic!("Expected array index");
    }
}

#[test]
fn test_nested_function_call() {
    let expr = parse_expression("foo(bar(1, 2), 3)");

    if let Expr::Call { args, .. } = expr {
        assert_eq!(args.len(), 2);
        assert!(matches!(args[0], Expr::Call { .. }));
    } else {
        panic!("Expected function call");
    }
}

#[test]
#[should_panic(expected = "UnexpectedEOF")]
fn test_unbalanced_parentheses() {
    parse_expression("(a + b");
}

#[test]
#[should_panic(expected = "UnexpectedEOF")]
fn test_missing_operand() {
    parse_expression("a + ");
}

#[test]
fn test_consecutive_operators() {
    parse_expression("a ++ + b");
}

#[test]
#[should_panic(expected = "UnexpectedEOF")]
fn test_invalid_array_index() {
    parse_expression("arr[5");
}

#[test]
#[should_panic(expected = "UnexpectedEOF")]
fn test_function_call_without_closing_paren() {
    parse_expression("foo(1, 2");
}

#[test]
#[should_panic(expected = "UnexpectedEOF")]
fn test_invalid_initializer_list() {
    parse_expression("{1, 2, 3");
}

#[test]
fn test_binary_op_without_lhs() {
    parse_expression("* b");
}

#[test]
#[should_panic(expected = "UnexpectedEOF")]
fn test_empty_expression() {
    parse_expression("");
}
