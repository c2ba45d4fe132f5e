//! One error taxonomy spanning all phases: lexing, parsing and
//! evaluation.  Each variant carries structured fields so callers can
//! match on them without parsing message text.

use vstd::prelude::*;

verus! {

/// An error raised by the lexer, the parser or the evaluator.
#[derive(Debug, PartialEq)]
pub enum EvaluatorError {
    /// The evaluator saw an operator it cannot apply to the operands given.
    OperatorNotSupported { actual: String },
    /// An infix operator was applied to incompatible value kinds.
    TypeMismatch { expected: String, operator: String, actual: String },
    /// A call supplied the wrong number of arguments.
    WrongNumberOfArguments { function: String, expected: usize, actual: usize },
    /// A required positional argument is missing.
    MissingArgument { index: usize },
    /// A built-in was applied to a value kind it does not accept.
    ArgumentTypeNotSupported { function: String, actual: String },
    /// A `let` tried to bind the name of a built-in function.
    BuiltInFunction { actual: String },
    /// A `let` tried to bind a reserved keyword.
    ReservedKeyword { actual: String },
    /// A name is neither bound nor a built-in.
    UnknownIdentifier { identifier: String },
    /// The parser expected one token and saw another.
    UnexpectedToken { expected: String, actual: String, line: u32, column: u32 },
    /// The lexer reached the end of input inside a string literal.
    UnfinishedString { actual: String, line: u32, column: u32 },
    /// An index lies outside the bounds of the indexed value.
    IndexOutOfBounds { index: i64, size: usize },
    /// A key is absent from a hash; reserved for future hash support.
    NoSuchKey { key: String },
    /// A value cannot serve as a hash key; reserved for future hash support.
    KeyNotSupported { actual: String },
    /// A runtime value has no expression form.
    CannotConvertObjectToExpression { actual: String },
    /// The last-resort wrapper.
    UnknownError,
}

/// Mathematical model of an error: text fields are `Seq<char>`.
pub enum ErrV {
    OperatorNotSupported { actual: Seq<char> },
    TypeMismatch { expected: Seq<char>, operator: Seq<char>, actual: Seq<char> },
    WrongNumberOfArguments { function: Seq<char>, expected: usize, actual: usize },
    MissingArgument { index: usize },
    ArgumentTypeNotSupported { function: Seq<char>, actual: Seq<char> },
    BuiltInFunction { actual: Seq<char> },
    ReservedKeyword { actual: Seq<char> },
    UnknownIdentifier { identifier: Seq<char> },
    UnexpectedToken { expected: Seq<char>, actual: Seq<char>, line: u32, column: u32 },
    UnfinishedString { actual: Seq<char>, line: u32, column: u32 },
    IndexOutOfBounds { index: i64, size: usize },
    NoSuchKey { key: Seq<char> },
    KeyNotSupported { actual: Seq<char> },
    CannotConvertObjectToExpression { actual: Seq<char> },
    UnknownError,
}

impl View for EvaluatorError {
    type V = ErrV;

    open spec fn view(&self) -> ErrV {
        match self {
            EvaluatorError::OperatorNotSupported { actual } => ErrV::OperatorNotSupported {
                actual: actual@,
            },
            EvaluatorError::TypeMismatch { expected, operator, actual } => ErrV::TypeMismatch {
                expected: expected@,
                operator: operator@,
                actual: actual@,
            },
            EvaluatorError::WrongNumberOfArguments { function, expected, actual } => {
                ErrV::WrongNumberOfArguments {
                    function: function@,
                    expected: *expected,
                    actual: *actual,
                }
            },
            EvaluatorError::MissingArgument { index } => ErrV::MissingArgument { index: *index },
            EvaluatorError::ArgumentTypeNotSupported { function, actual } => {
                ErrV::ArgumentTypeNotSupported { function: function@, actual: actual@ }
            },
            EvaluatorError::BuiltInFunction { actual } => ErrV::BuiltInFunction {
                actual: actual@,
            },
            EvaluatorError::ReservedKeyword { actual } => ErrV::ReservedKeyword {
                actual: actual@,
            },
            EvaluatorError::UnknownIdentifier { identifier } => ErrV::UnknownIdentifier {
                identifier: identifier@,
            },
            EvaluatorError::UnexpectedToken { expected, actual, line, column } => {
                ErrV::UnexpectedToken {
                    expected: expected@,
                    actual: actual@,
                    line: *line,
                    column: *column,
                }
            },
            EvaluatorError::UnfinishedString { actual, line, column } => ErrV::UnfinishedString {
                actual: actual@,
                line: *line,
                column: *column,
            },
            EvaluatorError::IndexOutOfBounds { index, size } => ErrV::IndexOutOfBounds {
                index: *index,
                size: *size,
            },
            EvaluatorError::NoSuchKey { key } => ErrV::NoSuchKey { key: key@ },
            EvaluatorError::KeyNotSupported { actual } => ErrV::KeyNotSupported {
                actual: actual@,
            },
            EvaluatorError::CannotConvertObjectToExpression { actual } => {
                ErrV::CannotConvertObjectToExpression { actual: actual@ }
            },
            EvaluatorError::UnknownError => ErrV::UnknownError,
        }
    }
}

/// The models of a sequence of errors.
pub open spec fn errs_view(v: Seq<EvaluatorError>) -> Seq<ErrV>
    decreases v,
{
    if v.len() == 0 {
        Seq::<ErrV>::empty()
    } else {
        seq![v[0]@] + errs_view(v.drop_first())
    }
}

/// A sequence of error models is as long as its source.
pub broadcast proof fn lemma_errs_view_len(v: Seq<EvaluatorError>)
    ensures
        (#[trigger] errs_view(v)).len() == v.len(),
    decreases v,
{
    if v.len() != 0 {
        lemma_errs_view_len(v.drop_first());
    }
}

/// Each error model is the view of the error at its index.
pub broadcast proof fn lemma_errs_view_index(v: Seq<EvaluatorError>, i: int)
    requires
        0 <= i < v.len(),
    ensures
        #[trigger] errs_view(v)[i] == v[i]@,
    decreases v,
{
    lemma_errs_view_len(v);
    if i > 0 {
        lemma_errs_view_index(v.drop_first(), i - 1);
    }
}

/// Pushing an error pushes its model.
pub proof fn lemma_errs_view_push(v: Seq<EvaluatorError>, e: EvaluatorError)
    ensures
        errs_view(v.push(e)) == errs_view(v).push(e@),
{
    lemma_errs_view_len(v);
    lemma_errs_view_len(v.push(e));
    assert forall|i: int| 0 <= i < v.push(e).len() implies errs_view(v.push(e))[i] == errs_view(
        v,
    ).push(e@)[i] by {
        lemma_errs_view_index(v.push(e), i);
        if i < v.len() {
            lemma_errs_view_index(v, i);
        }
    }
    assert(errs_view(v.push(e)) =~= errs_view(v).push(e@));
}

impl EvaluatorError {
    /// An operator applied to operands that do not support it.
    pub fn operator_not_supported(actual: String) -> (r: EvaluatorError)
        ensures
            r@ == (ErrV::OperatorNotSupported { actual: actual@ }),
    {
        EvaluatorError::OperatorNotSupported { actual }
    }

    /// An infix operator applied to incompatible value kinds.
    pub fn type_missmatch(expected: &str, operator: &str, actual: &str) -> (r: EvaluatorError)
        ensures
            r@ == (ErrV::TypeMismatch {
                expected: expected@,
                operator: operator@,
                actual: actual@,
            }),
    {
        EvaluatorError::TypeMismatch {
            expected: expected.to_owned(),
            operator: operator.to_owned(),
            actual: actual.to_owned(),
        }
    }

    /// A name that is neither bound nor a built-in.
    pub fn unknown_identifier(identifier: &str) -> (r: EvaluatorError)
        ensures
            r@ == (ErrV::UnknownIdentifier { identifier: identifier@ }),
    {
        EvaluatorError::UnknownIdentifier { identifier: identifier.to_owned() }
    }

    /// A wrong argument count for a named function.
    pub fn wrong_number_of_arguments2(function: &str, expected: usize, actual: usize) -> (r:
        EvaluatorError)
        ensures
            r@ == (ErrV::WrongNumberOfArguments { function: function@, expected, actual }),
    {
        EvaluatorError::WrongNumberOfArguments { function: function.to_owned(), expected, actual }
    }

    /// A wrong argument count for an unnamed function.
    pub fn wrong_number_of_arguments(expected: usize, actual: usize) -> (r: EvaluatorError)
        ensures
            r@ == (ErrV::WrongNumberOfArguments { function: "unknown"@, expected, actual }),
    {
        EvaluatorError::WrongNumberOfArguments { function: "unknown".to_owned(), expected, actual }
    }

    /// A built-in applied to a value kind it does not accept.
    pub fn argument_type_not_supported(function: &str, actual: &str) -> (r: EvaluatorError)
        ensures
            r@ == (ErrV::ArgumentTypeNotSupported { function: function@, actual: actual@ }),
    {
        EvaluatorError::ArgumentTypeNotSupported {
            function: function.to_owned(),
            actual: actual.to_owned(),
        }
    }

    /// An attempt to `let`-bind the name of a built-in function.
    pub fn built_in_function(actual: &str) -> (r: EvaluatorError)
        ensures
            r@ == (ErrV::BuiltInFunction { actual: actual@ }),
    {
        EvaluatorError::BuiltInFunction { actual: actual.to_owned() }
    }

    /// An attempt to bind a reserved keyword.
    pub fn reserved_keyword(actual: &str) -> (r: EvaluatorError)
        ensures
            r@ == (ErrV::ReservedKeyword { actual: actual@ }),
    {
        EvaluatorError::ReservedKeyword { actual: actual.to_owned() }
    }

    /// A string literal still open at the end of input.
    pub fn unfinished_string(actual: String, line: u32, column: u32) -> (r: EvaluatorError)
        ensures
            r@ == (ErrV::UnfinishedString { actual: actual@, line, column }),
    {
        EvaluatorError::UnfinishedString { actual, line, column }
    }

    /// A parser mismatch: one token kind expected, another seen.
    pub fn expected_token(expected: &str, actual: &str, line: u32, column: u32) -> (r:
        EvaluatorError)
        ensures
            r@ == (ErrV::UnexpectedToken { expected: expected@, actual: actual@, line, column }),
    {
        EvaluatorError::UnexpectedToken {
            expected: expected.to_owned(),
            actual: actual.to_owned(),
            line,
            column,
        }
    }

    /// An index outside the bounds of the indexed value.
    pub fn index_out_of_bounds(index: i64, size: usize) -> (r: EvaluatorError)
        ensures
            r@ == (ErrV::IndexOutOfBounds { index, size }),
    {
        EvaluatorError::IndexOutOfBounds { index, size }
    }

    /// A required positional argument that is missing.
    pub fn missing_argument(index: usize) -> (r: EvaluatorError)
        ensures
            r@ == (ErrV::MissingArgument { index }),
    {
        EvaluatorError::MissingArgument { index }
    }

    /// A key absent from a hash.
    pub fn no_such_key(key: String) -> (r: EvaluatorError)
        ensures
            r@ == (ErrV::NoSuchKey { key: key@ }),
    {
        EvaluatorError::NoSuchKey { key }
    }

    /// A value that cannot serve as a hash key.
    pub fn key_not_supported(actual: String) -> (r: EvaluatorError)
        ensures
            r@ == (ErrV::KeyNotSupported { actual: actual@ }),
    {
        EvaluatorError::KeyNotSupported { actual }
    }

    /// A runtime value with no expression form.
    pub fn conversion_error(actual: String) -> (r: EvaluatorError)
        ensures
            r@ == (ErrV::CannotConvertObjectToExpression { actual: actual@ }),
    {
        EvaluatorError::CannotConvertObjectToExpression { actual }
    }

    /// The last-resort error.
    pub fn unknown_error() -> (r: EvaluatorError)
        ensures
            r@ == ErrV::UnknownError,
    {
        EvaluatorError::UnknownError
    }
}

} // verus!
