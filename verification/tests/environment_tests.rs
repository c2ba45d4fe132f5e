use interpreter::ast::Expression;
use interpreter::converter::convert_object_to_expression;
use interpreter::environment::Environment;
use interpreter::error::EvaluatorError;
use interpreter::object::{Object, ObjectType};
use interpreter::repl::build_caret;
use interpreter::token::Precedence;

#[test]
fn set_and_get() {
    let mut env = Environment::new();
    assert!(env.get("x").is_none());
    env.set("x", ObjectType::Integer(1));
    assert_eq!(env.get("x"), Some(&ObjectType::Integer(1)));
    env.set("x", ObjectType::Integer(2));
    assert_eq!(env.get("x"), Some(&ObjectType::Integer(2)));
}

#[test]
fn lookup_walks_outward() {
    let mut outer = Environment::new();
    outer.set("x", ObjectType::Integer(1));
    outer.set("y", ObjectType::Integer(2));
    let mut inner = Environment::new_enclosed(&outer);
    inner.set("x", ObjectType::Integer(10));
    // The innermost binding wins; misses fall through to the outer frame.
    assert_eq!(inner.get("x"), Some(&ObjectType::Integer(10)));
    assert_eq!(inner.get("y"), Some(&ObjectType::Integer(2)));
    assert!(inner.get("z").is_none());
}

#[test]
fn enclosing_captures_a_copy() {
    let mut outer = Environment::new();
    outer.set("x", ObjectType::Integer(1));
    let inner = Environment::new_enclosed(&outer);
    // Later writes to the original do not show through the capture.
    outer.set("x", ObjectType::Integer(99));
    assert_eq!(inner.get("x"), Some(&ObjectType::Integer(1)));
}

#[test]
fn merge_and_clear() {
    let mut a = Environment::new();
    a.set("x", ObjectType::Integer(1));
    let mut b = Environment::new();
    b.set("x", ObjectType::Integer(10));
    b.set("y", ObjectType::Integer(20));
    a.merge(&b);
    assert_eq!(a.get("x"), Some(&ObjectType::Integer(10)));
    assert_eq!(a.get("y"), Some(&ObjectType::Integer(20)));
    a.clear();
    assert!(a.get("x").is_none());
    assert!(a.get("y").is_none());
}

#[test]
fn value_equality() {
    assert_eq!(ObjectType::Null, ObjectType::Null);
    assert_ne!(ObjectType::Integer(1), ObjectType::Integer(2));
    assert_eq!(
        ObjectType::String("a".to_string()),
        ObjectType::String("a".to_string())
    );
    assert_eq!(
        ObjectType::Array(vec![ObjectType::Integer(1)]),
        ObjectType::Array(vec![ObjectType::Integer(1)])
    );
    assert_ne!(
        ObjectType::Array(vec![ObjectType::Integer(1)]),
        ObjectType::Array(vec![ObjectType::Integer(2)])
    );
    // A return sentinel compares by its payload on the left.
    assert_eq!(
        ObjectType::Return(Box::new(ObjectType::Integer(1))),
        ObjectType::Integer(1)
    );
    // Functions never compare equal.
    let f = ObjectType::Function {
        parameters: vec![],
        body: vec![],
        environment: Environment::new(),
    };
    let g = ObjectType::Function {
        parameters: vec![],
        body: vec![],
        environment: Environment::new(),
    };
    assert_ne!(f, g);
}

#[test]
fn function_inspect() {
    let f = ObjectType::Function {
        parameters: vec![
            Expression::Identifier("x".to_string()),
            Expression::Identifier("y".to_string()),
        ],
        body: vec![],
        environment: Environment::new(),
    };
    assert_eq!(f.inspect(), "fn(x, y) {\n}".to_string());
}

#[test]
fn converter_round_trips_literals() {
    assert_eq!(
        convert_object_to_expression(ObjectType::Integer(5)).unwrap(),
        Expression::IntegerLiteral(5)
    );
    assert_eq!(
        convert_object_to_expression(ObjectType::Boolean(true)).unwrap(),
        Expression::BooleanLiteral(true)
    );
    assert_eq!(
        convert_object_to_expression(ObjectType::String("hi".to_string())).unwrap(),
        Expression::StringLiteral("hi".to_string())
    );
    match convert_object_to_expression(ObjectType::Null) {
        Err(EvaluatorError::CannotConvertObjectToExpression { actual }) => {
            assert_eq!(actual, "null".to_string());
        }
        other => panic!("Expected a conversion error, got {:?}", other),
    }
}

#[test]
fn caret_points_at_the_column() {
    assert_eq!(build_caret(&3, &3), "     ^".to_string());
    assert_eq!(build_caret(&1, &1), " ^".to_string());
}

#[test]
fn precedence_values_are_ordered() {
    let order = vec![
        Precedence::LOWEST,
        Precedence::EQUALS,
        Precedence::LESSGREATER,
        Precedence::SUM,
        Precedence::PRODUCT,
        Precedence::PREFIX,
        Precedence::CALL,
        Precedence::INDEX,
    ];
    for pair in order.windows(2) {
        assert!(pair[0].value() < pair[1].value());
    }
}
