use interpreter::ast::{Expression, Program, Statement};

#[test]
fn test_string() {
    let program = Program {
        statements: vec![
            Statement::LetStatement {
                identifier: "myVar".to_string(),
                value: Expression::IntegerLiteral(5),
            },
            Statement::ReturnStatement {
                value: Expression::IntegerLiteral(10),
            },
            Statement::ExpressionStatement(Expression::IntegerLiteral(5)),
        ],
    };

    assert_eq!(
        program.to_string(),
        "let myVar = 5;
return 10;
5;
"
    );
}

#[test]
fn statement_display() {
    let stmt = Statement::LetStatement {
        identifier: "x".to_string(),
        value: Expression::InfixExpression {
            left: Box::new(Expression::IntegerLiteral(1)),
            operator: "+".to_string(),
            right: Box::new(Expression::IntegerLiteral(2)),
        },
    };
    assert_eq!(stmt.to_string(), "let x = (1 + 2);".to_string());
}

#[test]
fn array_display() {
    let expr = Expression::ArrayLiteral(vec![
        Expression::IntegerLiteral(1),
        Expression::StringLiteral("two".to_string()),
        Expression::BooleanLiteral(true),
    ]);
    assert_eq!(expr.to_string(), "[1, two, true]".to_string());
}
