//! Turning runtime values back into expression nodes, for callers that
//! splice computed values into a syntax tree.

use vstd::prelude::*;
use crate::ast::{Expression, ExprV};
use crate::error::{ErrV, EvaluatorError};
use crate::object::{spec_inspect, Object, ObjectType, ValueV};

verus! {

/// The expression form of a runtime value: integer, boolean and string
/// values have literal forms; every other value has none and converts
/// to an error carrying its display form.
pub open spec fn spec_convert(v: ValueV) -> Result<ExprV, ErrV> {
    match v {
        ValueV::Integer(i) => Result::Ok(ExprV::IntegerLiteral(i)),
        ValueV::Boolean(b) => Result::Ok(ExprV::BooleanLiteral(b)),
        ValueV::String(s) => Result::Ok(ExprV::StringLiteral(s)),
        _ => Result::Err(ErrV::CannotConvertObjectToExpression { actual: spec_inspect(v) }),
    }
}

/// Converts a runtime value to the expression that denotes it, per
/// [`spec_convert`].
pub fn convert_object_to_expression(object: ObjectType) -> (r: Result<Expression, EvaluatorError>)
    ensures
        match (r, spec_convert(object@)) {
            (Result::Ok(e), Result::Ok(ev)) => e@ == ev,
            (Result::Err(e), Result::Err(ev)) => e@ == ev,
            _ => false,
        },
{
    match object {
        ObjectType::Integer(i) => Result::Ok(Expression::IntegerLiteral(i)),
        ObjectType::Boolean(b) => Result::Ok(Expression::BooleanLiteral(b)),
        ObjectType::String(s) => Result::Ok(Expression::StringLiteral(s)),
        other => Result::Err(EvaluatorError::conversion_error(other.inspect())),
    }
}

} // verus!
