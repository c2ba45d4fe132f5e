//! A small tree-rewriting helper: applies a caller-supplied rewrite to
//! an expression, visiting the two children of an infix expression
//! before the expression itself.

use vstd::prelude::*;
use crate::ast::Expression;
use crate::error::EvaluatorError;

verus! {

/// Rewrites an expression with `modifier`.  An infix expression has its
/// left and right children rewritten first and the rebuilt expression
/// rewritten last; any other expression is rewritten directly.  `None`
/// passes through untouched.  The first rewrite error stops the walk
/// and propagates: the remaining rewrites are skipped.
pub fn modify<F: Fn(Expression) -> Result<Expression, EvaluatorError>>(
    expression: Option<Expression>,
    modifier: &F,
) -> (r: Result<Option<Expression>, EvaluatorError>)
    requires
        forall|e: Expression| #[trigger] call_requires(*modifier, (e,)),
    ensures
        expression is None ==> r == Result::<Option<Expression>, EvaluatorError>::Ok(
            Option::None,
        ),
        (expression is Some && !(expression->0 is InfixExpression) && r is Ok) ==> (r->Ok_0 is Some
            && call_ensures(*modifier, (expression->0,), Result::Ok(r->Ok_0->0))),
        (expression is Some && expression->0 is InfixExpression && r is Ok) ==> (r->Ok_0 is Some
            && exists|l2: Expression, r2: Expression|
            call_ensures(*modifier, (*expression->0->InfixExpression_left,), Result::Ok(l2))
                && call_ensures(
                *modifier,
                (*expression->0->InfixExpression_right,),
                Result::Ok(r2),
            ) && call_ensures(
                *modifier,
                (Expression::InfixExpression {
                    left: Box::new(l2),
                    operator: expression->0->InfixExpression_operator,
                    right: Box::new(r2),
                },),
                Result::Ok(r->Ok_0->0),
            )),
        (expression is Some && !(expression->0 is InfixExpression) && r is Err) ==> call_ensures(
            *modifier,
            (expression->0,),
            Result::Err(r->Err_0),
        ),
        (expression is Some && expression->0 is InfixExpression && r is Err) ==> (call_ensures(
            *modifier,
            (*expression->0->InfixExpression_left,),
            Result::Err(r->Err_0),
        ) || (exists|l2: Expression|
            call_ensures(*modifier, (*expression->0->InfixExpression_left,), Result::Ok(l2))
                && call_ensures(
                *modifier,
                (*expression->0->InfixExpression_right,),
                Result::Err(r->Err_0),
            )) || (exists|l2: Expression, r2: Expression|
            call_ensures(*modifier, (*expression->0->InfixExpression_left,), Result::Ok(l2))
                && call_ensures(
                *modifier,
                (*expression->0->InfixExpression_right,),
                Result::Ok(r2),
            ) && call_ensures(
                *modifier,
                (Expression::InfixExpression {
                    left: Box::new(l2),
                    operator: expression->0->InfixExpression_operator,
                    right: Box::new(r2),
                },),
                Result::Err(r->Err_0),
            ))),
{
    match expression {
        Option::None => Result::Ok(Option::None),
        Option::Some(e) => {
            match e {
                Expression::InfixExpression { left, operator, right } => {
                    let l2 = match modifier(*left) {
                        Result::Ok(v) => v,
                        Result::Err(err) => {
                            return Result::Err(err);
                        },
                    };
                    let r2 = match modifier(*right) {
                        Result::Ok(v) => v,
                        Result::Err(err) => {
                            return Result::Err(err);
                        },
                    };
                    let rebuilt = Expression::InfixExpression {
                        left: Box::new(l2),
                        operator,
                        right: Box::new(r2),
                    };
                    match modifier(rebuilt) {
                        Result::Ok(w) => Result::Ok(Option::Some(w)),
                        Result::Err(err) => Result::Err(err),
                    }
                },
                other => {
                    match modifier(other) {
                        Result::Ok(w) => Result::Ok(Option::Some(w)),
                        Result::Err(err) => Result::Err(err),
                    }
                },
            }
        },
    }
}

} // verus!
