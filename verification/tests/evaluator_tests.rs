use interpreter::environment::Environment;
use interpreter::error::EvaluatorError;
use interpreter::evaluator::eval;
use interpreter::lexer::Lexer;
use interpreter::object::{Object, ObjectType};
use interpreter::parser::Parser;

fn test_eval(input: &str) -> Result<ObjectType, EvaluatorError> {
    let lexer = Lexer::new(input.to_string());
    let mut parser = Parser::new(lexer).expect("lexing the first tokens failed");
    let mut env = Environment::new();
    let mut out: Vec<char> = Vec::new();

    let program = match parser.parse_program() {
        Ok(p) => p,
        Err(errors) => panic!("Error: {:?}", errors),
    };

    eval(&program, &mut env, &mut out)
}

fn eval_in(input: &str, env: &mut Environment) -> Result<ObjectType, EvaluatorError> {
    let lexer = Lexer::new(input.to_string());
    let mut parser = Parser::new(lexer).expect("lexing the first tokens failed");
    let mut out: Vec<char> = Vec::new();
    let program = parser.parse_program().expect("parsing failed");
    eval(&program, env, &mut out)
}

#[test]
fn test_integer_literal() {
    let tests = vec![
        ("5", 5i64),
        ("10", 10),
        ("-5", -5),
        ("-10", -10),
        ("5 + 5 + 5 + 5 - 10", 10),
        ("2 * 2 * 2 * 2 * 2", 32),
        ("-50 + 100 + -50", 0),
        ("5 * 2 + 10", 20),
        ("5 + 2 * 10", 25),
        ("20 + 2 * -10", 0),
        ("50 / 2 * 2 + 10", 60),
        ("2 * (5 + 10)", 30),
        ("3 * 3 * 3 + 10", 37),
        ("3 * (3 * 3) + 10", 37),
        ("(5 + 10 * 2 + 15 / 3) * 2 + -10", 50),
    ];

    for (input, expected) in tests {
        let result = test_eval(input).unwrap();
        assert_eq!(result, ObjectType::Integer(expected), "input: {}", input);
    }
}

#[test]
fn test_boolean_literal() {
    let tests = vec![
        ("true", true),
        ("false", false),
        ("1 < 2", true),
        ("1 > 2", false),
        ("1 < 1", false),
        ("1 > 1", false),
        ("1 == 1", true),
        ("1 != 1", false),
        ("1 == 2", false),
        ("1 != 2", true),
        ("true == true", true),
        ("false == false", true),
        ("true == false", false),
        ("true != false", true),
        ("false != true", true),
        ("(1 < 2) == true", true),
        ("(1 < 2) == false", false),
        ("(1 > 2) == true", false),
        ("(1 > 2) == false", true),
        ("1 <= 2", true),
        ("1 >= 2", false),
        ("1 <= 1", true),
        ("1 >= 1", true),
        ("1 <= 0", false),
        ("1 >= 0", true),
    ];

    for (input, expected) in tests {
        let result = test_eval(input).unwrap();
        assert_eq!(result, ObjectType::Boolean(expected), "input: {}", input);
    }
}

#[test]
fn test_string_literal() {
    let result = test_eval("\"Nathan\"").unwrap();
    assert_eq!(result, ObjectType::String("Nathan".to_string()));

    let result = test_eval("\"Nathan\" + \" \" + \"D\" + \".\"").unwrap();
    assert_eq!(result, ObjectType::String("Nathan D.".to_string()));
}

#[test]
fn test_bang_operator() {
    let tests = vec![
        ("!true", false),
        ("!false", true),
        ("!!true", true),
        ("!!false", false),
        ("!!5", true),
        ("!!0", false),
    ];

    for (input, expected) in tests {
        let result = test_eval(input).unwrap();
        assert_eq!(result, ObjectType::Boolean(expected), "input: {}", input);
    }
}

#[test]
fn test_if_else_expressions() {
    let tests = vec![
        ("if (true) {10}", ObjectType::Integer(10)),
        ("if (false) {10}", ObjectType::Null),
        ("if (1) {10}", ObjectType::Integer(10)),
        ("if (1 < 2) {10}", ObjectType::Integer(10)),
        ("if (1 > 2) {10}", ObjectType::Null),
        ("if (1 > 2) {10} else {20}", ObjectType::Integer(20)),
        ("if (1 < 2) {10} else {20}", ObjectType::Integer(10)),
    ];

    for (input, expected) in tests {
        let result = test_eval(input).unwrap();
        assert_eq!(result, expected, "input: {}", input);
    }
}

#[test]
fn evaluator_test_return_statements() {
    let tests = vec![
        ("return 10;", 10i64),
        ("return 10; 9;", 10),
        ("return 2 * 5; 9;", 10),
        ("9; return 2 * 5; 9;", 10),
        ("if (10 > 1) { if (10 > 1) { return 10; } return 1; }", 10),
    ];

    for (input, expected) in tests {
        let result = test_eval(input).unwrap();
        assert_eq!(result, ObjectType::Integer(expected), "input: {}", input);
    }
}

#[test]
fn test_let_statements() {
    let tests = vec![
        ("let a = 5; a;", 5i64),
        ("let a = 5 * 5; a;", 25),
        ("let a = 5; let b = a; b;", 5),
        ("let a = 5; let b = a; let c = a + b + 5; c;", 15),
    ];

    for (input, expected) in tests {
        let result = test_eval(input).unwrap();
        assert_eq!(result, ObjectType::Integer(expected), "input: {}", input);
    }
}

#[test]
fn test_function_definition() {
    let result = test_eval("fn(x) { x + 2;};").unwrap();
    match result {
        ObjectType::Function {
            parameters, body, ..
        } => {
            assert_eq!(parameters.len(), 1);
            assert_eq!(parameters[0].to_string(), "x".to_string());
            assert_eq!(body.len(), 1);
            assert_eq!(body[0].to_string(), "(x + 2);".to_string());
        }
        _ => panic!("object is not a function"),
    }
}

#[test]
fn test_function_application() {
    let tests = vec![
        ("let identity = fn(x) { x; }; identity(5);", 5i64),
        ("let identity = fn(x) { return x; }; identity(5);", 5),
        ("let double = fn(x) { x * 2; }; double(5);", 10),
        ("let add = fn(x, y) { x + y; }; add(5, 5);", 10),
        ("let add = fn(x, y) { x + y; }; add(5 + 5, add(5, 5));", 20),
        ("fn(x) { x; }(5)", 5),
    ];

    for (input, expected) in tests {
        let result = test_eval(input).unwrap();
        assert_eq!(result, ObjectType::Integer(expected), "input: {}", input);
    }
}

#[test]
fn test_closure() {
    let input = "
        let newAdder = fn(x) { fn(y) { x + y }; };
        let addTwo = newAdder(2);
        addTwo(2);
        ";
    let result = test_eval(input).unwrap();
    assert_eq!(result, ObjectType::Integer(4));
}

#[test]
fn test_builtin() {
    let tests = vec![
        ("len(\"\")", 0i64),
        ("len(\"four\")", 4),
        ("len(\"hello world\")", 11),
    ];
    for (input, expected) in tests {
        let result = test_eval(input).unwrap();
        assert_eq!(result, ObjectType::Integer(expected), "input: {}", input);
    }

    match test_eval("len(1)") {
        Err(EvaluatorError::ArgumentTypeNotSupported { function, actual }) => {
            assert_eq!(function, "len".to_string());
            assert_eq!(actual, "1".to_string());
        }
        other => panic!("Expected an argument-type error, got {:?}", other),
    }
    match test_eval("len(\"one\", \"two\")") {
        Err(EvaluatorError::WrongNumberOfArguments {
            expected, actual, ..
        }) => {
            assert_eq!(expected, 1);
            assert_eq!(actual, 2);
        }
        other => panic!("Expected a wrong-number-of-arguments error, got {:?}", other),
    }
    match test_eval("let len = 5;") {
        Err(EvaluatorError::BuiltInFunction { actual }) => {
            assert_eq!(actual, "len".to_string());
        }
        other => panic!("Expected a built-in-function error, got {:?}", other),
    }
}

#[test]
fn test_array() {
    let result = test_eval("[1, 2 * 2, 3 + 3]").unwrap();
    assert_eq!(
        result,
        ObjectType::Array(vec![
            ObjectType::Integer(1),
            ObjectType::Integer(4),
            ObjectType::Integer(6),
        ])
    );

    let result = test_eval("let i = 0; [i]").unwrap();
    assert_eq!(result, ObjectType::Array(vec![ObjectType::Integer(0)]));

    let tests = vec![
        ("[1, 2, 3][0]", 1i64),
        ("[1, 2, 3][1]", 2),
        ("[1, 2, 3][2]", 3),
        ("[1, 2, 3][1 + 1]", 3),
        ("let i = 2; [1, 2, 3][i]", 3),
    ];
    for (input, expected) in tests {
        let result = test_eval(input).unwrap();
        assert_eq!(result, ObjectType::Integer(expected), "input: {}", input);
    }

    match test_eval("[1, 2, 3][3]") {
        Err(EvaluatorError::IndexOutOfBounds { index, size }) => {
            assert_eq!(index, 3);
            assert_eq!(size, 3);
        }
        other => panic!("Expected an index error, got {:?}", other),
    }
    match test_eval("[1, 2, 3][-1]") {
        Err(EvaluatorError::IndexOutOfBounds { index, size }) => {
            assert_eq!(index, -1);
            assert_eq!(size, 3);
        }
        other => panic!("Expected an index error, got {:?}", other),
    }

    let result = test_eval("\"Hello\"[0]").unwrap();
    assert_eq!(result, ObjectType::String("H".to_string()));
    match test_eval("\"Hello\"[9]") {
        Err(EvaluatorError::IndexOutOfBounds { index, size }) => {
            assert_eq!(index, 9);
            assert_eq!(size, 5);
        }
        other => panic!("Expected an index error, got {:?}", other),
    }
}

#[test]
fn binding_persists_across_programs() {
    // The session environment keeps bindings from one line to the next.
    let mut env = Environment::new();
    assert_eq!(eval_in("let x = 41;", &mut env).unwrap(), ObjectType::Null);
    assert_eq!(eval_in("x", &mut env).unwrap(), ObjectType::Integer(41));
    assert_eq!(eval_in("x + 1", &mut env).unwrap(), ObjectType::Integer(42));
}

#[test]
fn closure_captures_at_definition() {
    // Rebinding x after the literal does not change what f() sees.
    let input = "
        let x = 1;
        let f = fn() { x };
        let x = 2;
        f();
        ";
    let result = test_eval(input).unwrap();
    assert_eq!(result, ObjectType::Integer(1));
}

#[test]
fn return_stops_at_call_boundary() {
    // The return inside f ends f, not the caller's program.
    let input = "
        let f = fn() { if (true) { return 7; } 9; };
        f() + 1
        ";
    let result = test_eval(input).unwrap();
    assert_eq!(result, ObjectType::Integer(8));
}

#[test]
fn return_escapes_binding_positions() {
    // A return in flight passes through a let and ends the function.
    let input = "
        let g = fn() { let a = if (true) { return 3; }; 99; };
        g();
        ";
    let result = test_eval(input).unwrap();
    assert_eq!(result, ObjectType::Integer(3));
}

#[test]
fn division_truncates_toward_zero() {
    let tests = vec![
        ("7 / 2", 3i64),
        ("7 / -2", -3),
        ("-7 / 2", -3),
        ("-7 / -2", 3),
    ];
    for (input, expected) in tests {
        let result = test_eval(input).unwrap();
        assert_eq!(result, ObjectType::Integer(expected), "input: {}", input);
    }
    match test_eval("1 / 0") {
        Err(EvaluatorError::OperatorNotSupported { actual }) => {
            assert_eq!(actual, "/".to_string());
        }
        other => panic!("Expected an operator error, got {:?}", other),
    }
}

#[test]
fn arithmetic_overflow_is_an_error() {
    match test_eval("9223372036854775807 + 1") {
        Err(EvaluatorError::OperatorNotSupported { actual }) => {
            assert_eq!(actual, "+".to_string());
        }
        other => panic!("Expected an operator error, got {:?}", other),
    }
}

#[test]
fn type_mismatch_errors() {
    match test_eval("1 + true") {
        Err(EvaluatorError::TypeMismatch {
            expected,
            operator,
            actual,
        }) => {
            assert_eq!(expected, "1".to_string());
            assert_eq!(operator, "+".to_string());
            assert_eq!(actual, "true".to_string());
        }
        other => panic!("Expected a type mismatch, got {:?}", other),
    }
    match test_eval("\"a\" - \"b\"") {
        Err(EvaluatorError::TypeMismatch { operator, .. }) => {
            assert_eq!(operator, "-".to_string());
        }
        other => panic!("Expected a type mismatch, got {:?}", other),
    }
}

#[test]
fn unknown_identifier_error() {
    match test_eval("nope") {
        Err(EvaluatorError::UnknownIdentifier { identifier }) => {
            assert_eq!(identifier, "nope".to_string());
        }
        other => panic!("Expected an unknown-identifier error, got {:?}", other),
    }
}

#[test]
fn wrong_argument_count_for_functions() {
    match test_eval("let f = fn(a, b) { a + b; }; f(1);") {
        Err(EvaluatorError::WrongNumberOfArguments {
            expected, actual, ..
        }) => {
            assert_eq!(expected, 2);
            assert_eq!(actual, 1);
        }
        other => panic!("Expected a wrong-number-of-arguments error, got {:?}", other),
    }
}

#[test]
fn array_builtins() {
    let tests = vec![
        ("first([4, 5, 6])", ObjectType::Integer(4)),
        ("first([])", ObjectType::Null),
        ("last([4, 5, 6])", ObjectType::Integer(6)),
        ("last([])", ObjectType::Null),
        (
            "rest([4, 5, 6])",
            ObjectType::Array(vec![ObjectType::Integer(5), ObjectType::Integer(6)]),
        ),
        ("rest([])", ObjectType::Null),
        (
            "push([1], 2)",
            ObjectType::Array(vec![ObjectType::Integer(1), ObjectType::Integer(2)]),
        ),
        (
            "pop([1, 2, 3])",
            ObjectType::Array(vec![ObjectType::Integer(1), ObjectType::Integer(2)]),
        ),
        ("pop([])", ObjectType::Null),
        ("len([1, 2, 3])", ObjectType::Integer(3)),
    ];
    for (input, expected) in tests {
        let result = test_eval(input).unwrap();
        assert_eq!(result, expected, "input: {}", input);
    }

    match test_eval("push([1])") {
        Err(EvaluatorError::WrongNumberOfArguments {
            expected, actual, ..
        }) => {
            assert_eq!(expected, 2);
            assert_eq!(actual, 1);
        }
        other => panic!("Expected a wrong-number-of-arguments error, got {:?}", other),
    }
}

#[test]
fn print_collects_output() {
    let lexer = Lexer::new("print(\"a\", 1); println(\"b\");".to_string());
    let mut parser = Parser::new(lexer).unwrap();
    let program = parser.parse_program().unwrap();
    let mut env = Environment::new();
    let mut out: Vec<char> = Vec::new();
    let result = eval(&program, &mut env, &mut out).unwrap();
    assert_eq!(result, ObjectType::Null);
    let text: String = out.iter().collect();
    assert_eq!(text, "a1b\n".to_string());
}

#[test]
fn inspect_forms() {
    assert_eq!(test_eval("5").unwrap().inspect(), "5".to_string());
    assert_eq!(test_eval("true").unwrap().inspect(), "true".to_string());
    assert_eq!(
        test_eval("if (false) { 1 }").unwrap().inspect(),
        "null".to_string()
    );
    assert_eq!(
        test_eval("[1, \"two\", true]").unwrap().inspect(),
        "[1, two, true]".to_string()
    );
    assert_eq!(test_eval("len").unwrap().inspect(), "builtin function".to_string());
}
