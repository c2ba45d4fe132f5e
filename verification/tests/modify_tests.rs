use interpreter::ast::Expression;
use interpreter::error::EvaluatorError;
use interpreter::modify::modify;

#[test]
fn modify_integer() {
    let expression = Expression::IntegerLiteral(1);
    let modified = modify(
        Some(expression),
        &|expression: Expression| -> Result<Expression, EvaluatorError> {
            match expression {
                Expression::IntegerLiteral(_) => Ok(Expression::IntegerLiteral(2)),
                other => Ok(other),
            }
        },
    )
    .unwrap();

    assert_eq!(modified, Some(Expression::IntegerLiteral(2)));
}

#[test]
fn modify_infix_expression() {
    let expression = Expression::InfixExpression {
        left: Box::new(Expression::IntegerLiteral(1)),
        operator: "+".to_string(),
        right: Box::new(Expression::IntegerLiteral(2)),
    };

    let modified = modify(
        Some(expression),
        &|expression: Expression| -> Result<Expression, EvaluatorError> {
            match expression {
                Expression::InfixExpression { .. } => Ok(Expression::InfixExpression {
                    left: Box::new(Expression::IntegerLiteral(69)),
                    operator: "-".to_string(),
                    right: Box::new(Expression::IntegerLiteral(420)),
                }),
                other => Ok(other),
            }
        },
    )
    .unwrap();

    assert_eq!(
        modified,
        Some(Expression::InfixExpression {
            left: Box::new(Expression::IntegerLiteral(69)),
            operator: "-".to_string(),
            right: Box::new(Expression::IntegerLiteral(420)),
        })
    );
}

#[test]
fn modify_none_passes_through() {
    let modified = modify(
        None,
        &|expression: Expression| -> Result<Expression, EvaluatorError> { Ok(expression) },
    )
    .unwrap();
    assert_eq!(modified, None);
}

#[test]
fn modify_error_stops_the_walk() {
    let expression = Expression::IntegerLiteral(1);
    let result = modify(
        Some(expression),
        &|_expression: Expression| -> Result<Expression, EvaluatorError> {
            Err(EvaluatorError::unknown_error())
        },
    );
    assert_eq!(result, Err(EvaluatorError::UnknownError));
}
