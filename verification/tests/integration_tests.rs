use cfront::ast::{BinaryOp, Expr, Function, PrefixOp, Program, Stmt, TypeSpecifier};
use cfront::lexer::Lexer;
use cfront::parse_error::ParserError;
use cfront::parser::Parser;

/// The same small C program the lexer walk-through uses.
const SAMPLE_SOURCE: &str = "
int add(int a, int b) {
    return a + b;
}

int factorial(int n) {
    int result = 1;
    for (int i = 1; i <= n; ++i) {
        result *= i;
    }
    return result;
}

char to_uppercase(char c) {
    if (c >= 'a' && c <= 'z') {
        return c - ('a' - 'A');
    }
    return c;
}

int main() {
    int x = 42;
    int oct = 007;
    int *p = &x;
    char ch1 = 'A';
    char ch2 = '\\n';
    char ch3 = '\\0';
    char buf[5] = {'h', 'e', 'l', 'l', 'o'};
    int arr2[3];
    for (int i = 0; i < 3; i++) {
        arr2[i] = i * 2;
    }
    *p += 10;
    x -= 5;
    x++;
    ++x;
    --x;
    x--;
    if (x > 10 && x < 100) {
        x = add(x, oct);
    } else if (x == 0 || x == -1) {
        x = factorial(5);
    }
    int b_and = x & oct;
    int b_or = x | oct;
    int count = 0;
    while (count < 5) {
        if (count == 2) {
            count++;
            continue;
        }
        if (count == 4) {
            break;
        }
        count += 1;
    }
    return 0;
}
";

/// Lexes and parses a whole program.
fn parse_program(input: &str) -> Result<Program, ParserError> {
    let mut lexer = Lexer::new(input);
    let tokens = lexer.collect_spanned_tokens();
    let mut parser = Parser::new(tokens);
    parser.parse_program()
}

#[test]
fn test_parse_sample_c() {
    let program = parse_program(SAMPLE_SOURCE).unwrap();

    assert!(!program.functions.is_empty());

    let main_func = program
        .functions
        .iter()
        .find(|f| f.name == "main")
        .expect("main function not found");

    assert_eq!(main_func.return_ty, TypeSpecifier::Int);

    assert!(program.functions.iter().any(|f| f.name == "add"));
    assert!(program.functions.iter().any(|f| f.name == "factorial"));
    assert!(program.functions.iter().any(|f| f.name == "to_uppercase"));
}

#[test]
fn test_expressions_fixture() {
    let source = r#"
    int test_expressions() {
        // arithmetic
        int a = 10;
        int b = 20;
        int c = a + b * (30 - 5) / 5;

        // comparisons and logic
        if (a > 0 && b <= 30) {
            c = 1;
        } else if (a == 0 || b != 20) {
            c = 2;
        } else {
            c = 3;
        }

        // bitwise
        int d = a & b;
        int e = a | b;
        int f = a ^ b;

        // compound assignment
        c += 5;
        c -= 3;
        c *= 2;
        c /= 4;
        c %= 3;

        // increment and decrement
        c++;
        ++c;
        c--;
        --c;

        // pointers
        int *p = &c;
        *p = 100;

        // a call
        int result = add(10, 20);

        // array access
        int arr[5] = {1, 2, 3, 4, 5};
        arr[2] = arr[0] + arr[1];

        return c;
    }
    "#;

    let program = parse_program(source).unwrap();
    assert_eq!(program.functions.len(), 1);
    assert_eq!(program.functions[0].name, "test_expressions");

    assert!(program.functions[0].body.statements.len() > 10);
}

#[test]
fn test_statements_fixture() {
    let source = r#"
    int test_statements() {
        int x;
        int y = 10;
        int arr[5];
        char c = 'A';

        if (x > 0) {
            y = 1;
        } else if (x < 0) {
            y = -1;
        } else {
            y = 0;
        }

        int i = 0;
        while (i < 5) {
            arr[i] = i * i;
            i++;
        }

        int sum = 0;
        for (int j = 0; j < 5; j++) {
            sum += arr[j];

            if (sum > 10) {
                break;
            }

            if (j % 2 == 0) {
                continue;
            }
        }

        {
            int temp = x;
            x = y;
            y = temp;

            {
                int z = x + y;
            }
        }

        return sum;
    }
    "#;

    let program = parse_program(source).unwrap();
    assert_eq!(program.functions.len(), 1);
    assert_eq!(program.functions[0].name, "test_statements");

    let has_if = contains_stmt_type(&program, |s| matches!(s, Stmt::If { .. }));
    let has_while = contains_stmt_type(&program, |s| matches!(s, Stmt::While { .. }));
    let has_for = contains_stmt_type(&program, |s| matches!(s, Stmt::For { .. }));
    let has_break = contains_stmt_type(&program, |s| matches!(s, Stmt::Break));
    let has_continue = contains_stmt_type(&program, |s| matches!(s, Stmt::Continue));
    let has_return = contains_stmt_type(&program, |s| matches!(s, Stmt::Return(..)));

    assert!(has_if, "program lacks an if statement");
    assert!(has_while, "program lacks a while statement");
    assert!(has_for, "program lacks a for statement");
    assert!(has_break, "program lacks a break statement");
    assert!(has_continue, "program lacks a continue statement");
    assert!(has_return, "program lacks a return statement");
}

#[test]
fn test_pointers_and_arrays_fixture() {
    let source = r#"
    void swap(int *a, int *b) {
        int temp = *a;
        *a = *b;
        *b = temp;
    }

    int* createArray(int size) {
        return 0;
    }

    void arrayOperations() {
        int arr[10];
        int *ptr = arr;

        for (int i = 0; i < 10; i++) {
            arr[i] = i * 10;
        }

        ptr = ptr + 5;
        *ptr = 100;

        ptr -= 2;
        *(ptr + 1) = 50;

        int matrix[9];
        for (int k = 0; k < 9; k++) {
            matrix[k] = k;
        }

        int *ptrArray[5];
        for (int i = 0; i < 5; i++) {
            ptrArray[i] = &arr[i * 2];
        }
    }
    "#;

    let program = parse_program(source).unwrap();
    assert_eq!(program.functions.len(), 3);

    let swap_func = program
        .functions
        .iter()
        .find(|f| f.name == "swap")
        .expect("swap function not found");

    assert_eq!(swap_func.params.len(), 2);
    for param in &swap_func.params {
        match &param.ty {
            TypeSpecifier::Pointer(inner) => {
                assert_eq!(**inner, TypeSpecifier::Int);
            }
            _ => panic!("swap parameter is not a pointer"),
        }
    }

    let create_array_func = program
        .functions
        .iter()
        .find(|f| f.name == "createArray")
        .expect("createArray function not found");

    match &create_array_func.return_ty {
        TypeSpecifier::Pointer(inner) => {
            assert_eq!(**inner, TypeSpecifier::Int);
        }
        _ => panic!("createArray does not return int*"),
    }

    let array_ops_func = program
        .functions
        .iter()
        .find(|f| f.name == "arrayOperations")
        .expect("arrayOperations function not found");

    let has_pointer_arith = contains_expr_type(array_ops_func, |e| {
        matches!(
            e,
            Expr::BinaryOp { op: BinaryOp::Add, .. } | Expr::BinaryOp { op: BinaryOp::Sub, .. }
        )
    });

    let has_dereference = contains_expr_type(array_ops_func, |e| {
        matches!(e, Expr::UnaryPrefixOp { op: PrefixOp::Deref, .. })
    });

    assert!(has_pointer_arith, "no pointer arithmetic found");
    assert!(has_dereference, "no dereference found");
}

#[test]
fn test_complex_program_fixture() {
    let source = r#"
    void bubbleSort(int arr[], int n) {
        for (int i = 0; i < n-1; i++) {
            for (int j = 0; j < n-i-1; j++) {
                if (arr[j] > arr[j+1]) {
                    int temp = arr[j];
                    arr[j] = arr[j+1];
                    arr[j+1] = temp;
                }
            }
        }
    }

    int binarySearch(int arr[], int left, int right, int x) {
        if (right >= left) {
            int mid = left + (right - left) / 2;

            if (arr[mid] == x)
                return mid;

            if (arr[mid] > x)
                return binarySearch(arr, left, mid-1, x);

            return binarySearch(arr, mid+1, right, x);
        }

        return -1;
    }

    int factorial(int n) {
        if (n <= 1)
            return 1;
        return n * factorial(n-1);
    }

    int fibonacci(int n) {
        int a = 0, b = 1, c;
        if (n == 0) return a;

        for (int i = 2; i <= n; i++) {
            c = a + b;
            a = b;
            b = c;
        }
        return b;
    }

    int main() {
        int arr[10] = {64, 34, 25, 12, 22, 11, 90, 87, 56, 45};
        int n = 10;

        bubbleSort(arr, n);

        int result = binarySearch(arr, 0, n-1, 22);

        int fact5 = factorial(5);
        int fib10 = fibonacci(10);

        return 0;
    }
    "#;

    let program = parse_program(source).unwrap();
    assert_eq!(program.functions.len(), 5);

    let function_names = vec!["bubbleSort", "binarySearch", "factorial", "fibonacci", "main"];
    for name in function_names {
        assert!(
            program.functions.iter().any(|f| f.name == name),
            "function {} not found",
            name
        );
    }

    let has_recursion = contains_recursive_call(&program);
    assert!(has_recursion, "no recursive call found");

    let has_nested_loops = contains_nested_loops(&program);
    assert!(has_nested_loops, "no nested loops found");
}

/// Whether any statement in the program satisfies the predicate.
fn contains_stmt_type<F>(program: &Program, predicate: F) -> bool
where
    F: Fn(&Stmt) -> bool,
{
    for function in &program.functions {
        if contains_stmt_in_block(&function.body.statements, &predicate) {
            return true;
        }
    }
    false
}

/// Recursively checks a statement list against the predicate.
fn contains_stmt_in_block<F>(statements: &[Stmt], predicate: &F) -> bool
where
    F: Fn(&Stmt) -> bool,
{
    for stmt in statements {
        if predicate(stmt) {
            return true;
        }

        match stmt {
            Stmt::Block(block) => {
                if contains_stmt_in_block(&block.statements, predicate) {
                    return true;
                }
            }
            Stmt::If { then_branch, else_branch, .. } => {
                if let Stmt::Block(block) = &**then_branch {
                    if contains_stmt_in_block(&block.statements, predicate) {
                        return true;
                    }
                } else if predicate(then_branch) {
                    return true;
                }

                if let Some(else_stmt) = else_branch {
                    if let Stmt::Block(block) = &**else_stmt {
                        if contains_stmt_in_block(&block.statements, predicate) {
                            return true;
                        }
                    } else if predicate(else_stmt) {
                        return true;
                    }
                }
            }
            Stmt::While { body, .. } => {
                if let Stmt::Block(block) = &**body {
                    if contains_stmt_in_block(&block.statements, predicate) {
                        return true;
                    }
                } else if predicate(body) {
                    return true;
                }
            }
            Stmt::For { body, .. } => {
                if let Stmt::Block(block) = &**body {
                    if contains_stmt_in_block(&block.statements, predicate) {
                        return true;
                    }
                } else if predicate(body) {
                    return true;
                }
            }
            _ => {}
        }
    }
    false
}

/// Whether any expression in the function satisfies the predicate.
fn contains_expr_type<F>(function: &Function, predicate: F) -> bool
where
    F: Fn(&Expr) -> bool,
{
    contains_expr_in_block(&function.body.statements, &predicate)
}

/// Recursively checks the expressions of a statement list.
fn contains_expr_in_block<F>(statements: &[Stmt], predicate: &F) -> bool
where
    F: Fn(&Expr) -> bool,
{
    for stmt in statements {
        match stmt {
            Stmt::ExprStmt(Some(expr)) => {
                if contains_expr_in_expr(expr, predicate) {
                    return true;
                }
            }
            Stmt::Declaration { declarators, .. } => {
                for decl in declarators {
                    if let Some(expr) = &decl.init {
                        if contains_expr_in_expr(expr, predicate) {
                            return true;
                        }
                    }
                }
            }
            Stmt::If { cond, then_branch, else_branch } => {
                if contains_expr_in_expr(cond, predicate) {
                    return true;
                }

                if let Stmt::Block(block) = &**then_branch {
                    if contains_expr_in_block(&block.statements, predicate) {
                        return true;
                    }
                }

                if let Some(else_stmt) = else_branch {
                    if let Stmt::Block(block) = &**else_stmt {
                        if contains_expr_in_block(&block.statements, predicate) {
                            return true;
                        }
                    }
                }
            }
            Stmt::While { cond, body } => {
                if contains_expr_in_expr(cond, predicate) {
                    return true;
                }

                if let Stmt::Block(block) = &**body {
                    if contains_expr_in_block(&block.statements, predicate) {
                        return true;
                    }
                }
            }
            Stmt::For { init, cond, step, body } => {
                if let Some(init_stmt) = init {
                    if let Stmt::ExprStmt(Some(expr)) = &**init_stmt {
                        if contains_expr_in_expr(expr, predicate) {
                            return true;
                        }
                    }
                }

                if let Some(expr) = cond {
                    if contains_expr_in_expr(expr, predicate) {
                        return true;
                    }
                }

                if let Some(expr) = step {
                    if contains_expr_in_expr(expr, predicate) {
                        return true;
                    }
                }

                if let Stmt::Block(block) = &**body {
                    if contains_expr_in_block(&block.statements, predicate) {
                        return true;
                    }
                }
            }
            Stmt::Return(Some(expr)) => {
                if contains_expr_in_expr(expr, predicate) {
                    return true;
                }
            }
            Stmt::Block(block) => {
                if contains_expr_in_block(&block.statements, predicate) {
                    return true;
                }
            }
            _ => {}
        }
    }
    false
}

/// Recursively checks one expression tree against the predicate.
fn contains_expr_in_expr<F>(expr: &Expr, predicate: &F) -> bool
where
    F: Fn(&Expr) -> bool,
{
    if predicate(expr) {
        return true;
    }

    match expr {
        Expr::BinaryOp { lhs, rhs, .. } => {
            if contains_expr_in_expr(lhs, predicate) || contains_expr_in_expr(rhs, predicate) {
                return true;
            }
        }
        Expr::UnaryPrefixOp { rhs, .. } => {
            if contains_expr_in_expr(rhs, predicate) {
                return true;
            }
        }
        Expr::UnaryPostfixOp { lhs, .. } => {
            if contains_expr_in_expr(lhs, predicate) {
                return true;
            }
        }
        Expr::Call { func, args } => {
            if contains_expr_in_expr(func, predicate) {
                return true;
            }

            for arg in args {
                if contains_expr_in_expr(arg, predicate) {
                    return true;
                }
            }
        }
        Expr::ArrayIndex { array, index } => {
            if contains_expr_in_expr(array, predicate) || contains_expr_in_expr(index, predicate) {
                return true;
            }
        }
        Expr::Assignment { left, right, .. } => {
            if contains_expr_in_expr(left, predicate) || contains_expr_in_expr(right, predicate) {
                return true;
            }
        }
        Expr::InitializerList(items) => {
            for item in items {
                if contains_expr_in_expr(item, predicate) {
                    return true;
                }
            }
        }
        _ => {}
    }

    false
}

/// Whether some function calls itself.
fn contains_recursive_call(program: &Program) -> bool {
    for function in &program.functions {
        let func_name = &function.name;

        let has_recursive = contains_expr_in_block(&function.body.statements, &|expr| {
            if let Expr::Call { func, .. } = expr {
                if let Expr::Ident(name) = &**func {
                    return name == func_name;
                }
            }
            false
        });

        if has_recursive {
            return true;
        }
    }
    false
}

/// Whether some loop directly contains another loop.
fn contains_nested_loops(program: &Program) -> bool {
    for function in &program.functions {
        let has_nested = contains_stmt_in_block(&function.body.statements, &|stmt| match stmt {
            Stmt::While { body, .. } | Stmt::For { body, .. } => {
                if let Stmt::Block(block) = &**body {
                    contains_stmt_in_block(&block.statements, &|inner_stmt| {
                        matches!(inner_stmt, Stmt::While { .. } | Stmt::For { .. })
                    })
                } else {
                    matches!(**body, Stmt::While { .. } | Stmt::For { .. })
                }
            }
            _ => false,
        });

        if has_nested {
            return true;
        }
    }
    false
}
