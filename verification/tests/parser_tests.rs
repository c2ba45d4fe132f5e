use interpreter::ast::{Expression, Program, Statement};
use interpreter::lexer::Lexer;
use interpreter::parser::Parser;

fn parse(input: &str) -> Program {
    let lexer = Lexer::new(input.to_string());
    let mut parser = Parser::new(lexer).expect("lexing the first tokens failed");
    parser.parse_program().expect("parsing failed")
}

fn statement_strings(program: &Program) -> Vec<String> {
    program.statements.iter().map(|s| s.to_string()).collect()
}

#[test]
fn test_let_statements_literal() {
    let input = "
        let name = \"John\";
        let age = 30;
        let isMale = true;
        ";
    let program = parse(input);
    assert_eq!(program.statements.len(), 3);
    assert_eq!(
        program.statements[0],
        Statement::LetStatement {
            identifier: "name".to_string(),
            value: Expression::StringLiteral("John".to_string()),
        }
    );
    assert_eq!(
        program.statements[1],
        Statement::LetStatement {
            identifier: "age".to_string(),
            value: Expression::IntegerLiteral(30),
        }
    );
    assert_eq!(
        program.statements[2],
        Statement::LetStatement {
            identifier: "isMale".to_string(),
            value: Expression::BooleanLiteral(true),
        }
    );
}

#[test]
fn parser_test_return_statements() {
    let input = "
        return 5;
        return 10;
        return 993322;
        ";
    let program = parse(input);
    assert_eq!(program.statements.len(), 3);
    let expected = vec![5i64, 10, 993322];
    for (statement, value) in program.statements.iter().zip(expected) {
        assert_eq!(
            *statement,
            Statement::ReturnStatement {
                value: Expression::IntegerLiteral(value),
            }
        );
    }
}

#[test]
fn test_identifier_expression() {
    let input = "
        foobar;
        5;
        ";
    let program = parse(input);
    assert_eq!(program.statements.len(), 2);
    assert_eq!(
        program.statements[0],
        Statement::ExpressionStatement(Expression::Identifier("foobar".to_string()))
    );
    assert_eq!(
        program.statements[1],
        Statement::ExpressionStatement(Expression::IntegerLiteral(5))
    );
}

#[test]
fn test_prefix_expressions() {
    let input = "
        !5;
        -15;
        !-a;
        !true;
        !false;
        ";
    let program = parse(input);
    assert_eq!(
        statement_strings(&program),
        vec![
            "(!5);".to_string(),
            "(-15);".to_string(),
            "(!(-a));".to_string(),
            "(!true);".to_string(),
            "(!false);".to_string(),
        ]
    );
}

#[test]
fn test_infix_expressions() {
    let cases = vec![
        ("a + b / c", "(a + (b / c));"),
        ("a + b * c + d / e - f", "(((a + (b * c)) + (d / e)) - f);"),
        ("3 + 4", "(3 + 4);"),
        ("-5 * 5", "((-5) * 5);"),
        ("5 > 4 == 3 < 4", "((5 > 4) == (3 < 4));"),
        ("5 < 4 != 3 > 4", "((5 < 4) != (3 > 4));"),
        (
            "3 + 4 * 5 == 3 * 1 + 4 * 5",
            "((3 + (4 * 5)) == ((3 * 1) + (4 * 5)));",
        ),
        ("3 > 5 == false", "((3 > 5) == false);"),
        ("3 < 5 == true", "((3 < 5) == true);"),
        ("true != false", "(true != false);"),
        ("1 + (2 + 3) + 4", "((1 + (2 + 3)) + 4);"),
        ("(5 + 5) * 2", "((5 + 5) * 2);"),
        ("2 / (5 + 5)", "(2 / (5 + 5));"),
        ("-(5 + 5)", "(-(5 + 5));"),
        ("!(true == true)", "(!(true == true));"),
    ];
    for (input, expected) in cases {
        let program = parse(input);
        assert_eq!(program.statements.len(), 1, "input: {}", input);
        assert_eq!(
            program.statements[0].to_string(),
            expected.to_string(),
            "input: {}",
            input
        );
    }
}

#[test]
fn test_if_expression() {
    let cases = vec![
        ("if (x < y) { x }", "if (x < y) { x; }"),
        ("if (x < 2 * y) { x + 1 }", "if (x < (2 * y)) { (x + 1); }"),
        (
            "if (x < 3 * y) { x + 1; } else { y }",
            "if (x < (3 * y)) { (x + 1); } else { y; }",
        ),
    ];
    for (input, expected) in cases {
        let program = parse(input);
        assert_eq!(program.statements.len(), 1, "input: {}", input);
        assert_eq!(
            program.statements[0].to_string(),
            expected.to_string(),
            "input: {}",
            input
        );
    }
}

#[test]
fn test_function_literal() {
    let input = "
fn() { x + y; }
fn(x, y) { x + y; }
";
    let program = parse(input);
    assert_eq!(program.statements.len(), 2);
    let expected = vec!["fn() { (x + y); }", "fn(x, y) { (x + y); }"];
    for (statement, expected_display) in program.statements.iter().zip(expected) {
        match statement {
            Statement::ExpressionStatement(expr) => {
                assert_eq!(expr.to_string(), expected_display.to_string());
            }
            other => panic!("Expected an expression statement, got {:?}", other),
        }
    }
}

#[test]
fn test_function_call() {
    let cases = vec![
        ("add(1, 2 * 3, 4 + 5);", "add(1, (2 * 3), (4 + 5));"),
        ("a + add(b * c) + d;", "((a + add((b * c))) + d);"),
        (
            "add(a, b, 1, 2 * 3, 4 + 5, add(6, 7 * 8));",
            "add(a, b, 1, (2 * 3), (4 + 5), add(6, (7 * 8)));",
        ),
        (
            "add(a + b + c * d / f + g);",
            "add((((a + b) + ((c * d) / f)) + g));",
        ),
    ];
    for (input, expected) in cases {
        let program = parse(input);
        assert_eq!(program.statements.len(), 1, "input: {}", input);
        assert_eq!(
            program.statements[0].to_string(),
            expected.to_string(),
            "input: {}",
            input
        );
    }
}

#[test]
fn test_array_literal() {
    let input = "
        [1];
        [1, 2 * 2, 3 + 3];
";
    let program = parse(input);
    assert_eq!(program.statements.len(), 2);
    assert_eq!(program.statements[0].to_string(), "[1];".to_string());
    assert_eq!(
        program.statements[1].to_string(),
        "[1, (2 * 2), (3 + 3)];".to_string()
    );
}

#[test]
fn test_array_index() {
    let input = "
        myArray[1 + 1];
";
    let program = parse(input);
    assert_eq!(program.statements.len(), 1);
    assert_eq!(
        program.statements[0].to_string(),
        "(myArray[(1 + 1)]);".to_string()
    );
}

#[test]
fn test_precedence() {
    let cases = vec![
        (
            "a * [1, 2, 3, 4][b * c] * d",
            "((a * ([1, 2, 3, 4][(b * c)])) * d);",
        ),
        (
            "add(a * b[2], b[1], 2 * [1, 2][1])",
            "add((a * (b[2])), (b[1]), (2 * ([1, 2][1])));",
        ),
    ];
    for (input, expected) in cases {
        let program = parse(input);
        assert_eq!(program.statements.len(), 1, "input: {}", input);
        assert_eq!(
            program.statements[0].to_string(),
            expected.to_string(),
            "input: {}",
            input
        );
    }
}

#[test]
fn display_round_trip_is_idempotent() {
    // Re-lexing and re-parsing the display of a parsed program yields a
    // program with the same display.
    let inputs = vec![
        "a + b * c + d / e - f",
        "if (x < 3 * y) { x + 1; } else { y }",
        "let f = fn(a, b) { return a * [1, 2][b]; };",
        "!true == false",
    ];
    for input in inputs {
        let first = parse(input).to_string();
        let second = parse(first.as_str()).to_string();
        assert_eq!(first, second, "input: {}", input);
    }
}

#[test]
fn parse_errors_are_reported() {
    let lexer = Lexer::new("let 5 = 3;".to_string());
    let mut parser = Parser::new(lexer).unwrap();
    let errors = parser.parse_program().unwrap_err();
    assert!(errors.len() >= 1);
    match &errors[0] {
        interpreter::error::EvaluatorError::UnexpectedToken { expected, .. } => {
            assert_eq!(expected, "IDENT");
        }
        other => panic!("Expected an unexpected-token error, got {:?}", other),
    }
}

#[test]
fn unmatched_brace_is_an_error() {
    let lexer = Lexer::new("if (x) { y".to_string());
    let mut parser = Parser::new(lexer).unwrap();
    assert!(parser.parse_program().is_err());
}

#[test]
fn stop_at_first_error_returns_early() {
    let lexer = Lexer::new("let 5 = 3; let 6 = 4;".to_string());
    let mut parser = Parser::new(lexer).unwrap();
    parser.stop_at_first_error = true;
    let errors = parser.parse_program().unwrap_err();
    assert_eq!(errors.len(), 1);

    let lexer = Lexer::new("let 5 = 3; let 6 = 4;".to_string());
    let mut parser = Parser::new(lexer).unwrap();
    let errors = parser.parse_program().unwrap_err();
    assert!(errors.len() >= 2);
}
