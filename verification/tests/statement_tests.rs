use cfront::ast::{BinaryOp, Expr, Stmt, TypeSpecifier};
use cfront::lexer::Lexer;
use cfront::parser::Parser;

/// Parses a statement string into its AST, appending a semicolon if
/// missing, and panicking on failure.
fn parse_statement(input: &str) -> Stmt {
    let input = if !input.trim().ends_with(';') {
        format!("{};", input)
    } else {
        input.to_string()
    };

    let mut lexer = Lexer::new(&input);
    let tokens = lexer.collect_spanned_tokens();
    let mut parser = Parser::new(tokens);
    match parser.parse_statement() {
        Ok(stmt) => stmt,
        Err(e) => {
            panic!("statement parse failed: {:?}\ninput: '{}'", e, input);
        }
    }
}

#[test]
fn test_empty_statement() {
    let stmt = parse_statement(";");
    assert!(matches!(stmt, Stmt::ExprStmt(None)));
}

#[test]
fn test_expression_statement() {
    let stmt = parse_statement("x = 42;");

    if let Stmt::ExprStmt(Some(expr)) = stmt {
        assert!(matches!(expr, Expr::Assignment { .. }));
    } else {
        panic!("Expected expression statement");
    }

    let stmt = parse_statement("foo(1, 2);");

    if let Stmt::ExprStmt(Some(Expr::Call { .. })) = stmt {
        // OK
    } else {
        panic!("Expected function call statement");
    }
}

#[test]
fn test_declaration_statement() {
    let stmt = parse_statement("int x = 10;");

    if let Stmt::Declaration { ty, declarators } = stmt {
        assert_eq!(ty, TypeSpecifier::Int);
        assert_eq!(declarators.len(), 1);
        assert_eq!(declarators[0].name, "x");
        assert!(matches!(&declarators[0].init, Some(Expr::IntLiteral(10))));
    } else {
        panic!("Expected declaration statement");
    }

    let stmt = parse_statement("char c;");

    if let Stmt::Declaration { ty, declarators } = stmt {
        assert_eq!(ty, TypeSpecifier::Char);
        assert_eq!(declarators[0].name, "c");
        assert!(declarators[0].init.is_none());
    } else {
        panic!("Expected declaration statement");
    }

    let stmt = parse_statement("int* ptr;");

    if let Stmt::Declaration { ty, .. } = stmt {
        if let TypeSpecifier::Pointer(inner) = ty {
            assert_eq!(*inner, TypeSpecifier::Int);
        } else {
            panic!("Expected pointer type");
        }
    } else {
        panic!("Expected declaration statement");
    }
}

#[test]
fn test_multiple_declarators_in_declaration() {
    let stmt = parse_statement("int x = 1, y, z = 3;");

    if let Stmt::Declaration { ty, declarators } = stmt {
        assert_eq!(ty, TypeSpecifier::Int);
        assert_eq!(declarators.len(), 3);

        assert_eq!(declarators[0].name, "x");
        assert!(matches!(&declarators[0].init, Some(Expr::IntLiteral(1))));

        assert_eq!(declarators[1].name, "y");
        assert!(declarators[1].init.is_none());

        assert_eq!(declarators[2].name, "z");
        assert!(matches!(&declarators[2].init, Some(Expr::IntLiteral(3))));
    } else {
        panic!("Expected declaration with multiple declarators");
    }
}

#[test]
fn test_array_declaration() {
    let stmt = parse_statement("int arr[5];");

    if let Stmt::Declaration { ty, declarators } = stmt {
        assert_eq!(ty, TypeSpecifier::Int);
        assert_eq!(declarators[0].name, "arr");
        assert_eq!(declarators[0].array_size, Some(5));
    } else {
        panic!("Expected array declaration");
    }

    let stmt = parse_statement("int nums[3] = {1, 2, 3};");

    if let Stmt::Declaration { ty, declarators } = stmt {
        assert_eq!(ty, TypeSpecifier::Int);
        assert_eq!(declarators[0].name, "nums");
        assert_eq!(declarators[0].array_size, Some(3));

        if let Some(Expr::InitializerList(items)) = &declarators[0].init {
            assert_eq!(items.len(), 3);
            assert_eq!(items[0], Expr::IntLiteral(1));
            assert_eq!(items[1], Expr::IntLiteral(2));
            assert_eq!(items[2], Expr::IntLiteral(3));
        } else {
            panic!("Expected initializer list");
        }
    } else {
        panic!("Expected array declaration with initialization");
    }
}

#[test]
fn test_initializer_list_trailing_comma() {
    let stmt = parse_statement("int a[3] = {1, 2, 3,};");

    if let Stmt::Declaration { declarators, .. } = stmt {
        let d = &declarators[0];
        assert_eq!(d.name, "a");
        assert_eq!(d.array_size, Some(3));

        if let Some(Expr::InitializerList(v)) = &d.init {
            assert_eq!(
                v,
                &vec![Expr::IntLiteral(1), Expr::IntLiteral(2), Expr::IntLiteral(3),]
            );
        } else {
            panic!("Expected initializer list");
        }
    } else {
        panic!("Expected declaration statement");
    }
}

#[test]
fn test_if_statement() {
    let stmt = parse_statement("if (x > 0) { return x; }");

    if let Stmt::If { cond, then_branch, else_branch } = stmt {
        assert!(matches!(cond, Expr::BinaryOp { op: BinaryOp::Gt, .. }));
        assert!(else_branch.is_none());

        if let Stmt::Block(block) = *then_branch {
            assert_eq!(block.statements.len(), 1);
            assert!(matches!(block.statements[0], Stmt::Return(..)));
        } else {
            panic!("Expected block statement");
        }
    } else {
        panic!("Expected if statement");
    }
}

#[test]
fn test_if_else_statement() {
    let stmt = parse_statement("if (x > 0) return x; else return -x;");

    if let Stmt::If { cond, then_branch, else_branch } = stmt {
        assert!(matches!(cond, Expr::BinaryOp { op: BinaryOp::Gt, .. }));

        assert!(matches!(*then_branch, Stmt::Return(..)));

        assert!(else_branch.is_some());
        if let Some(else_stmt) = else_branch {
            assert!(matches!(*else_stmt, Stmt::Return(..)));
        }
    } else {
        panic!("Expected if-else statement");
    }
}

#[test]
fn test_if_else_if_chain() {
    let stmt = parse_statement("if (x > 0) return 1; else if (x < 0) return -1; else return 0;");

    if let Stmt::If { cond: _, then_branch: _, else_branch: Some(else_stmt) } = &stmt {
        if let Stmt::If { cond: _, then_branch: _, else_branch: Some(inner_else) } = &**else_stmt {
            assert!(matches!(**inner_else, Stmt::Return(..)));
        } else {
            panic!("Expected else-if");
        }
    } else {
        panic!("Expected if-else if-else chain");
    }
}

#[test]
fn test_while_statement() {
    let stmt = parse_statement("while (i < 10) { i = i + 1; }");

    if let Stmt::While { cond, body } = stmt {
        assert!(matches!(cond, Expr::BinaryOp { op: BinaryOp::Lt, .. }));

        if let Stmt::Block(block) = *body {
            assert_eq!(block.statements.len(), 1);
            assert!(matches!(block.statements[0], Stmt::ExprStmt(..)));
        } else {
            panic!("Expected block statement");
        }
    } else {
        panic!("Expected while statement");
    }
}

#[test]
fn test_for_statement() {
    let stmt = parse_statement("for (i = 0; i < 10; i++) sum += i;");

    if let Stmt::For { init, cond, step, body } = stmt {
        assert!(init.is_some());
        assert!(cond.is_some());
        assert!(step.is_some());

        if let Some(init_expr) = init {
            assert!(matches!(*init_expr, Stmt::ExprStmt(Some(Expr::Assignment { .. }))));
        }

        if let Some(cond_expr) = cond {
            assert!(matches!(cond_expr, Expr::BinaryOp { op: BinaryOp::Lt, .. }));
        }

        if let Some(step_expr) = step {
            assert!(matches!(step_expr, Expr::UnaryPostfixOp { .. }));
        }

        assert!(matches!(*body, Stmt::ExprStmt(..)));
    } else {
        panic!("Expected for statement");
    }
}

#[test]
fn test_various_for_forms() {
    let stmt = parse_statement("for (; i < 10; i++) { }");
    if let Stmt::For { init, .. } = stmt {
        assert!(init.is_none());
    } else {
        panic!("Expected for without init");
    }

    let stmt = parse_statement("for (i = 0;; i++) { }");
    if let Stmt::For { cond, .. } = stmt {
        assert!(cond.is_none());
    } else {
        panic!("Expected for without condition");
    }

    let stmt = parse_statement("for (i = 0; i < 10;) { }");
    if let Stmt::For { step, .. } = stmt {
        assert!(step.is_none());
    } else {
        panic!("Expected for without step");
    }

    let stmt = parse_statement("for (;;) { }");
    if let Stmt::For { init, cond, step, .. } = stmt {
        assert!(init.is_none());
        assert!(cond.is_none());
        assert!(step.is_none());
    } else {
        panic!("Expected infinite for loop");
    }
}

#[test]
fn test_return_statement() {
    let stmt = parse_statement("return;");

    if let Stmt::Return(expr) = stmt {
        assert!(expr.is_none());
    } else {
        panic!("Expected return statement without value");
    }

    let stmt = parse_statement("return 42;");

    if let Stmt::Return(Some(expr)) = stmt {
        assert_eq!(expr, Expr::IntLiteral(42));
    } else {
        panic!("Expected return statement with value");
    }

    let stmt = parse_statement("return a + b * c;");

    if let Stmt::Return(Some(expr)) = stmt {
        assert!(matches!(expr, Expr::BinaryOp { .. }));
    } else {
        panic!("Expected return statement with expression");
    }
}

#[test]
fn test_break_and_continue() {
    let stmt = parse_statement("break;");
    assert!(matches!(stmt, Stmt::Break));

    let stmt = parse_statement("continue;");
    assert!(matches!(stmt, Stmt::Continue));
}

#[test]
fn test_block_statement() {
    let stmt = parse_statement("{ return 0; }");

    if let Stmt::Block(block) = stmt {
        assert_eq!(block.statements.len(), 1);
        assert!(matches!(block.statements[0], Stmt::Return(..)));
    } else {
        panic!("Expected block statement");
    }

    let stmt = parse_statement("{ int x = 10; x = x + 1; return x; }");

    if let Stmt::Block(block) = stmt {
        assert_eq!(block.statements.len(), 3);
        assert!(matches!(block.statements[0], Stmt::Declaration { .. }));
        assert!(matches!(block.statements[1], Stmt::ExprStmt(..)));
        assert!(matches!(block.statements[2], Stmt::Return(..)));
    } else {
        panic!("Expected multi-statement block");
    }

    let stmt = parse_statement("{ }");

    if let Stmt::Block(block) = stmt {
        assert_eq!(block.statements.len(), 0);
    } else {
        panic!("Expected empty block statement");
    }
}

#[test]
fn test_nested_blocks() {
    let stmt = parse_statement("{ { int x = 1; } { int y = 2; } }");

    if let Stmt::Block(block) = stmt {
        assert_eq!(block.statements.len(), 2);
        assert!(matches!(block.statements[0], Stmt::Block(..)));
        assert!(matches!(block.statements[1], Stmt::Block(..)));
    } else {
        panic!("Expected nested blocks");
    }
}

#[test]
fn test_complex_nested_statements() {
    let stmt = parse_statement(
        r#"
    {
        int i = 0;
        int sum = 0;
        while (i < 10) {
            if (i % 2 == 0) {
                sum += i;
            } else {
                continue;
            }
            i++;
        }
        return sum;
    }
    "#,
    );

    if let Stmt::Block(block) = stmt {
        assert_eq!(block.statements.len(), 4);

        if let Stmt::While { body, .. } = &block.statements[2] {
            if let Stmt::Block(while_block) = &**body {
                assert_eq!(while_block.statements.len(), 2);

                if let Stmt::If { else_branch, .. } = &while_block.statements[0] {
                    assert!(else_branch.is_some());
                } else {
                    panic!("Expected if statement in while block");
                }
            } else {
                panic!("Expected block as while body");
            }
        } else {
            panic!("Expected while statement");
        }

        assert!(matches!(block.statements[3], Stmt::Return(..)));
    } else {
        panic!("Expected complex nested block");
    }
}
