//! The evaluator: a recursive tree-walker over the syntax tree, with
//! lexically scoped environments, first-class closures, built-in
//! functions and a propagating `return` sentinel.
//!
//! The semantics is defined by the spec-level interpreter
//! [`spec_eval_expr`] and its companions over the model types; every
//! executable function is verified to match it exactly.  Because a
//! program of this language can call a function value it built itself,
//! evaluation need not terminate; the interpreter therefore carries a
//! fuel that bounds the depth of function calls.  One unit is spent per
//! call boundary, never inside an expression, and the public entry
//! point starts with the full 64-bit fuel, which no real program
//! exhausts.

use vstd::prelude::*;
use crate::ast::{exprs_view, spec_expr_string, spec_stmt_string, stmts_view, BlockStatement,
    Expression, ExprV, Program, Statement, StmtV};
use crate::ast::{lemma_exprs_view_index, lemma_exprs_view_len, lemma_stmts_view_index,
    lemma_stmts_view_len};
use crate::builtins::{apply_builtin, get_builtin, res_matches, spec_apply_builtin,
    spec_get_builtin};
use crate::environment::{env_view, store_set, EnvV, Environment};
use crate::error::{ErrV, EvaluatorError};
use crate::object::{obj_view, objs_view, spec_inspect, BuiltinKind, Object, ObjectType, ValueV};
use crate::object::{lemma_objs_view_index, lemma_objs_view_len};
use crate::strutil::str_eq;

verus! {

/// The structural size of an expression model, for termination
/// measures.
pub open spec fn expr_size(e: ExprV) -> nat
    decreases e,
{
    match e {
        ExprV::StringLiteral(_) => 1,
        ExprV::IntegerLiteral(_) => 1,
        ExprV::BooleanLiteral(_) => 1,
        ExprV::Identifier(_) => 1,
        ExprV::ArrayLiteral(v) => 1 + exprs_size(v),
        ExprV::PrefixExpression { right, .. } => 1 + expr_size(*right),
        ExprV::InfixExpression { left, right, .. } => 1 + expr_size(*left) + expr_size(*right),
        ExprV::GroupedExpression { expression } => 1 + expr_size(*expression),
        ExprV::IfExpression { condition, consequence, alternative } => 1 + expr_size(*condition)
            + stmts_size(consequence) + (match alternative {
            Option::Some(a) => stmts_size(a),
            Option::None => 0,
        }),
        ExprV::FunctionLiteral { parameters, body } => 1 + exprs_size(parameters) + stmts_size(
            body,
        ),
        ExprV::CallExpression { function, arguments } => 1 + expr_size(*function) + exprs_size(
            arguments,
        ),
        ExprV::IndexExpression { left, index } => 1 + expr_size(*left) + expr_size(*index),
    }
}

/// The structural size of a list of expression models.
pub open spec fn exprs_size(v: Seq<ExprV>) -> nat
    decreases v,
{
    if v.len() == 0 {
        0
    } else {
        1 + expr_size(v[0]) + exprs_size(v.drop_first())
    }
}

/// The structural size of a statement model.
pub open spec fn stmt_size(s: StmtV) -> nat
    decreases s,
{
    match s {
        StmtV::EmptyStatement => 1,
        StmtV::LetStatement { value, .. } => 1 + expr_size(value),
        StmtV::ReturnStatement { value } => 1 + expr_size(value),
        StmtV::ExpressionStatement(e) => 1 + expr_size(e),
    }
}

/// The structural size of a list of statement models.
pub open spec fn stmts_size(v: Seq<StmtV>) -> nat
    decreases v,
{
    if v.len() == 0 {
        0
    } else {
        1 + stmt_size(v[0]) + stmts_size(v.drop_first())
    }
}

/// Each expression in a list is smaller than the list.
pub proof fn lemma_exprs_size_index(v: Seq<ExprV>, i: int)
    requires
        0 <= i < v.len(),
    ensures
        expr_size(v[i]) < exprs_size(v),
    decreases v,
{
    if i > 0 {
        lemma_exprs_size_index(v.drop_first(), i - 1);
    }
}

/// Each statement in a list is smaller than the list.
pub proof fn lemma_stmts_size_index(v: Seq<StmtV>, i: int)
    requires
        0 <= i < v.len(),
    ensures
        stmt_size(v[i]) < stmts_size(v),
    decreases v,
{
    if i > 0 {
        lemma_stmts_size_index(v.drop_first(), i - 1);
    }
}

/// The interpreter state threaded through evaluation: the environment
/// and everything printed so far.
pub struct EvalSt {
    pub env: EnvV,
    pub out: Seq<char>,
}

/// Truthiness: `false` and `null` are falsy, as is the integer zero;
/// every other value is truthy.
pub open spec fn spec_is_truthy(v: ValueV) -> bool {
    match v {
        ValueV::Boolean(b) => b,
        ValueV::Null => false,
        ValueV::Integer(i) => i != 0,
        _ => true,
    }
}

/// What `!` returns: the truthiness of the operand, inverted, for
/// booleans, integers and `null`; other operands are an error.
pub open spec fn spec_eval_bang(v: ValueV) -> Result<ValueV, ErrV> {
    match v {
        ValueV::Boolean(b) => Result::Ok(ValueV::Boolean(!b)),
        ValueV::Integer(i) => Result::Ok(ValueV::Boolean(i == 0)),
        ValueV::Null => Result::Ok(ValueV::Boolean(true)),
        _ => Result::Err(ErrV::OperatorNotSupported { actual: spec_inspect(v) }),
    }
}

/// What prefix `-` returns: the negated integer; negating the one
/// integer with no 64-bit negation, or any other value, is an error.
pub open spec fn spec_eval_minus(v: ValueV) -> Result<ValueV, ErrV> {
    match v {
        ValueV::Integer(i) => if i == i64::MIN {
            Result::Err(ErrV::OperatorNotSupported { actual: "-"@ })
        } else {
            Result::Ok(ValueV::Integer((-i) as i64))
        },
        _ => Result::Err(ErrV::OperatorNotSupported { actual: spec_inspect(v) }),
    }
}

/// What a prefix operator returns.
pub open spec fn spec_eval_prefix(op: Seq<char>, v: ValueV) -> Result<ValueV, ErrV> {
    if op == "!"@ {
        spec_eval_bang(v)
    } else if op == "-"@ {
        spec_eval_minus(v)
    } else {
        Result::Err(ErrV::OperatorNotSupported { actual: op })
    }
}

/// The absolute value of an integer.
pub open spec fn spec_abs(a: int) -> int {
    if a < 0 {
        -a
    } else {
        a
    }
}

/// Division truncated toward zero, as the host's 64-bit division
/// rounds.
pub open spec fn trunc_div(a: int, b: int) -> int {
    let q = spec_abs(a) / spec_abs(b);
    if (a < 0) != (b < 0) {
        -q
    } else {
        q
    }
}

/// What an integer infix operator returns.  Arithmetic that leaves the
/// 64-bit signed range, and division by zero, are errors rather than
/// silent wraparound.
pub open spec fn spec_eval_int_infix(op: Seq<char>, l: i64, r: i64) -> Result<ValueV, ErrV> {
    if op == "+"@ {
        if i64::MIN <= l + r <= i64::MAX {
            Result::Ok(ValueV::Integer((l + r) as i64))
        } else {
            Result::Err(ErrV::OperatorNotSupported { actual: op })
        }
    } else if op == "-"@ {
        if i64::MIN <= l - r <= i64::MAX {
            Result::Ok(ValueV::Integer((l - r) as i64))
        } else {
            Result::Err(ErrV::OperatorNotSupported { actual: op })
        }
    } else if op == "*"@ {
        if i64::MIN <= l * r <= i64::MAX {
            Result::Ok(ValueV::Integer((l * r) as i64))
        } else {
            Result::Err(ErrV::OperatorNotSupported { actual: op })
        }
    } else if op == "/"@ {
        if r == 0 || (l == i64::MIN && r == -1) {
            Result::Err(ErrV::OperatorNotSupported { actual: op })
        } else {
            Result::Ok(ValueV::Integer(trunc_div(l as int, r as int) as i64))
        }
    } else if op == "<"@ {
        Result::Ok(ValueV::Boolean(l < r))
    } else if op == "<="@ {
        Result::Ok(ValueV::Boolean(l <= r))
    } else if op == ">"@ {
        Result::Ok(ValueV::Boolean(l > r))
    } else if op == ">="@ {
        Result::Ok(ValueV::Boolean(l >= r))
    } else if op == "=="@ {
        Result::Ok(ValueV::Boolean(l == r))
    } else if op == "!="@ {
        Result::Ok(ValueV::Boolean(l != r))
    } else {
        Result::Err(ErrV::OperatorNotSupported { actual: op })
    }
}

/// What a boolean infix operator returns: only `==` and `!=` apply.
pub open spec fn spec_eval_bool_infix(op: Seq<char>, l: bool, r: bool) -> Result<ValueV, ErrV> {
    if op == "=="@ {
        Result::Ok(ValueV::Boolean(l == r))
    } else if op == "!="@ {
        Result::Ok(ValueV::Boolean(l != r))
    } else {
        Result::Err(
            ErrV::TypeMismatch {
                expected: spec_inspect(ValueV::Boolean(l)),
                operator: op,
                actual: spec_inspect(ValueV::Boolean(r)),
            },
        )
    }
}

/// What a string infix operator returns: only `+`, concatenation,
/// applies.
pub open spec fn spec_eval_string_infix(op: Seq<char>, l: Seq<char>, r: Seq<char>) -> Result<
    ValueV,
    ErrV,
> {
    if op == "+"@ {
        Result::Ok(ValueV::String(l + r))
    } else {
        Result::Err(ErrV::TypeMismatch { expected: l, operator: op, actual: r })
    }
}

/// What an infix operator returns, by the kinds of its operands: two
/// integers, two booleans or two strings; any other pairing is a type
/// mismatch.
pub open spec fn spec_eval_infix(op: Seq<char>, l: ValueV, r: ValueV) -> Result<ValueV, ErrV> {
    match (l, r) {
        (ValueV::Integer(a), ValueV::Integer(b)) => spec_eval_int_infix(op, a, b),
        (ValueV::Boolean(a), ValueV::Boolean(b)) => spec_eval_bool_infix(op, a, b),
        (ValueV::String(a), ValueV::String(b)) => spec_eval_string_infix(op, a, b),
        _ => Result::Err(
            ErrV::TypeMismatch {
                expected: spec_inspect(l),
                operator: op,
                actual: spec_inspect(r),
            },
        ),
    }
}

/// What indexing returns: an element of an array, or a one-character
/// string out of a string; an index outside `0 ..= len - 1` is an
/// error.
pub open spec fn spec_eval_index(l: ValueV, idx: ValueV) -> Result<ValueV, ErrV> {
    match (l, idx) {
        (ValueV::Array(items), ValueV::Integer(i)) => if i < 0 || i >= items.len() {
            Result::Err(ErrV::IndexOutOfBounds { index: i, size: items.len() as usize })
        } else {
            Result::Ok(items[i as int])
        },
        (ValueV::String(s), ValueV::Integer(i)) => if i < 0 || i >= s.len() {
            Result::Err(ErrV::IndexOutOfBounds { index: i, size: s.len() as usize })
        } else {
            Result::Ok(ValueV::String(seq![s[i as int]]))
        },
        _ => Result::Err(ErrV::OperatorNotSupported { actual: spec_inspect(l) }),
    }
}

/// A call frame: every parameter bound to its argument, in order, in a
/// frame of its own.
pub open spec fn bind_args(
    store: Seq<(Seq<char>, ValueV)>,
    params: Seq<ExprV>,
    args: Seq<ValueV>,
) -> Seq<(Seq<char>, ValueV)>
    decreases params.len(),
{
    if params.len() == 0 || args.len() == 0 {
        store
    } else {
        bind_args(
            store_set(store, spec_expr_string(params[0]), args[0]),
            params.drop_first(),
            args.drop_first(),
        )
    }
}

/// Evaluates one expression: the result (value or error), and the state
/// after it.
pub open spec fn spec_eval_expr(e: ExprV, st: EvalSt, fuel: nat) -> (Result<ValueV, ErrV>, EvalSt)
    decreases fuel, expr_size(e), 3int,
{
    match e {
        ExprV::IntegerLiteral(i) => (Result::Ok(ValueV::Integer(i)), st),
        ExprV::BooleanLiteral(b) => (Result::Ok(ValueV::Boolean(b)), st),
        ExprV::StringLiteral(s) => (Result::Ok(ValueV::String(s)), st),
        ExprV::Identifier(name) => (
            match spec_get_builtin(name) {
                Option::Some(b) => Result::Ok(b),
                Option::None => match crate::environment::env_lookup(st.env, name) {
                    Option::Some(v) => Result::Ok(v),
                    Option::None => Result::Err(ErrV::UnknownIdentifier { identifier: name }),
                },
            },
            st,
        ),
        ExprV::PrefixExpression { operator, right } => {
            let (r1, st1) = spec_eval_expr(*right, st, fuel);
            match r1 {
                Result::Ok(v) => if v is Return {
                    (Result::Ok(v), st1)
                } else {
                    (spec_eval_prefix(operator, v), st1)
                },
                Result::Err(e1) => (Result::Err(e1), st1),
            }
        },
        ExprV::InfixExpression { left, operator, right } => {
            let (r1, st1) = spec_eval_expr(*left, st, fuel);
            match r1 {
                Result::Ok(lv) => if lv is Return {
                    (Result::Ok(lv), st1)
                } else {
                    let (r2, st2) = spec_eval_expr(*right, st1, fuel);
                    match r2 {
                        Result::Ok(rv) => if rv is Return {
                            (Result::Ok(rv), st2)
                        } else {
                            (spec_eval_infix(operator, lv, rv), st2)
                        },
                        Result::Err(e2) => (Result::Err(e2), st2),
                    }
                },
                Result::Err(e1) => (Result::Err(e1), st1),
            }
        },
        ExprV::GroupedExpression { expression } => spec_eval_expr(*expression, st, fuel),
        ExprV::IfExpression { condition, consequence, alternative } => {
            let (r1, st1) = spec_eval_expr(*condition, st, fuel);
            match r1 {
                Result::Ok(cv) => if cv is Return {
                    (Result::Ok(cv), st1)
                } else if spec_is_truthy(cv) {
                    spec_eval_block(consequence, st1, fuel)
                } else {
                    match alternative {
                        Option::Some(alt) => spec_eval_block(alt, st1, fuel),
                        Option::None => (Result::Ok(ValueV::Null), st1),
                    }
                },
                Result::Err(e1) => (Result::Err(e1), st1),
            }
        },
        ExprV::FunctionLiteral { parameters, body } => (
            Result::Ok(
                ValueV::Function { parameters, body, environment: Box::new(st.env) },
            ),
            st,
        ),
        ExprV::CallExpression { function, arguments } => {
            let (r1, st1) = spec_eval_expr(*function, st, fuel);
            match r1 {
                Result::Ok(fv) => if fv is Return {
                    (Result::Ok(fv), st1)
                } else {
                    let (r2, st2) = spec_eval_exprs(arguments, st1, fuel);
                    match r2 {
                        Result::Ok(le) => match le {
                            ListEval::Vals(argvs) => {
                                let (r3, out3) = spec_apply_function(fv, argvs, st2.out, fuel);
                                (r3, EvalSt { env: st2.env, out: out3 })
                            },
                            ListEval::Escape(w) => (Result::Ok(w), st2),
                        },
                        Result::Err(e2) => (Result::Err(e2), st2),
                    }
                },
                Result::Err(e1) => (Result::Err(e1), st1),
            }
        },
        ExprV::ArrayLiteral(elements) => {
            let (r1, st1) = spec_eval_exprs(elements, st, fuel);
            match r1 {
                Result::Ok(le) => match le {
                    ListEval::Vals(vs) => (Result::Ok(ValueV::Array(vs)), st1),
                    ListEval::Escape(w) => (Result::Ok(w), st1),
                },
                Result::Err(e1) => (Result::Err(e1), st1),
            }
        },
        ExprV::IndexExpression { left, index } => {
            let (r1, st1) = spec_eval_expr(*left, st, fuel);
            match r1 {
                Result::Ok(lv) => if lv is Return {
                    (Result::Ok(lv), st1)
                } else {
                    let (r2, st2) = spec_eval_expr(*index, st1, fuel);
                    match r2 {
                        Result::Ok(iv) => if iv is Return {
                            (Result::Ok(iv), st2)
                        } else {
                            (spec_eval_index(lv, iv), st2)
                        },
                        Result::Err(e2) => (Result::Err(e2), st2),
                    }
                },
                Result::Err(e1) => (Result::Err(e1), st1),
            }
        },
    }
}

/// What evaluating an expression list produces: the values, in order,
/// or a `return` sentinel that escaped from one of the elements.
pub enum ListEval {
    Vals(Seq<ValueV>),
    Escape(ValueV),
}

/// Evaluates a list of expressions left to right, stopping at the first
/// error; a `return` sentinel in flight escapes the whole list.
pub open spec fn spec_eval_exprs(es: Seq<ExprV>, st: EvalSt, fuel: nat) -> (
    Result<ListEval, ErrV>,
    EvalSt,
)
    decreases fuel, exprs_size(es), 3int,
{
    if es.len() == 0 {
        (Result::Ok(ListEval::Vals(Seq::<ValueV>::empty())), st)
    } else {
        let (r1, st1) = spec_eval_expr(es[0], st, fuel);
        match r1 {
            Result::Ok(v) => if v is Return {
                (Result::Ok(ListEval::Escape(v)), st1)
            } else {
                let (r2, st2) = spec_eval_exprs(es.drop_first(), st1, fuel);
                match r2 {
                    Result::Ok(le) => match le {
                        ListEval::Vals(vs) => (Result::Ok(ListEval::Vals(seq![v] + vs)), st2),
                        ListEval::Escape(w) => (Result::Ok(ListEval::Escape(w)), st2),
                    },
                    Result::Err(e2) => (Result::Err(e2), st2),
                }
            },
            Result::Err(e1) => (Result::Err(e1), st1),
        }
    }
}

/// Calls a value: a function value gets a fresh frame enclosed by its
/// captured environment, with the parameters bound to the arguments,
/// and its body's `return` sentinel is unwrapped here; a built-in is
/// dispatched to the registry.  Calling anything else is an error.  The
/// caller's environment is untouched either way; only the output is
/// threaded through.  Each function call costs one unit of fuel.
pub open spec fn spec_apply_function(f: ValueV, args: Seq<ValueV>, out: Seq<char>, fuel: nat) -> (
    Result<ValueV, ErrV>,
    Seq<char>,
)
    decreases fuel, 0int, 0int,
{
    match f {
        ValueV::Function { parameters, body, environment } => {
            if parameters.len() != args.len() {
                (
                    Result::Err(
                        ErrV::WrongNumberOfArguments {
                            function: "unknown"@,
                            expected: parameters.len() as usize,
                            actual: args.len() as usize,
                        },
                    ),
                    out,
                )
            } else if fuel == 0 {
                (Result::Err(ErrV::UnknownError), out)
            } else {
                let env2 = EnvV {
                    store: bind_args(Seq::<(Seq<char>, ValueV)>::empty(), parameters, args),
                    outer: Option::Some(environment),
                };
                let (r, st2) = spec_eval_block(
                    body,
                    EvalSt { env: env2, out },
                    (fuel - 1) as nat,
                );
                let res = match r {
                    Result::Ok(v) => match v {
                        ValueV::Return(x) => Result::Ok(*x),
                        _ => Result::Ok(v),
                    },
                    Result::Err(e) => Result::Err(e),
                };
                (res, st2.out)
            }
        },
        ValueV::Builtin(k) => {
            let (r, extra) = spec_apply_builtin(k, args);
            (r, out + extra)
        },
        _ => (Result::Err(ErrV::OperatorNotSupported { actual: spec_inspect(f) }), out),
    }
}

/// Evaluates one statement.  A `let` whose value is a `return`
/// sentinel in flight does not bind it: the sentinel is never stored in
/// a variable, it propagates and ends the enclosing blocks instead.
pub open spec fn spec_eval_stmt(s: StmtV, st: EvalSt, fuel: nat) -> (Result<ValueV, ErrV>, EvalSt)
    decreases fuel, stmt_size(s), 2int,
{
    match s {
        StmtV::ExpressionStatement(e) => spec_eval_expr(e, st, fuel),
        StmtV::ReturnStatement { value } => {
            let (r1, st1) = spec_eval_expr(value, st, fuel);
            match r1 {
                Result::Ok(v) => if v is Return {
                    (Result::Ok(v), st1)
                } else {
                    (Result::Ok(ValueV::Return(Box::new(v))), st1)
                },
                Result::Err(e1) => (Result::Err(e1), st1),
            }
        },
        StmtV::LetStatement { identifier, value } => {
            if spec_get_builtin(identifier) is Some {
                (Result::Err(ErrV::BuiltInFunction { actual: identifier }), st)
            } else {
                let (r1, st1) = spec_eval_expr(value, st, fuel);
                match r1 {
                    Result::Ok(v) => if v is Return {
                        (Result::Ok(v), st1)
                    } else {
                        (
                            Result::Ok(ValueV::Null),
                            EvalSt {
                                env: EnvV {
                                    store: store_set(st1.env.store, identifier, v),
                                    outer: st1.env.outer,
                                },
                                out: st1.out,
                            },
                        )
                    },
                    Result::Err(e1) => (Result::Err(e1), st1),
                }
            }
        },
        StmtV::EmptyStatement => (
            Result::Err(ErrV::OperatorNotSupported { actual: spec_stmt_string(s) }),
            st,
        ),
    }
}

/// Evaluates the statements of a block in order.  The block's value is
/// the last statement's value (`null` for an empty block); a `return`
/// sentinel stops the block at once and propagates unwrapped.
pub open spec fn spec_eval_block(ss: Seq<StmtV>, st: EvalSt, fuel: nat) -> (
    Result<ValueV, ErrV>,
    EvalSt,
)
    decreases fuel, stmts_size(ss), 2int,
{
    if ss.len() == 0 {
        (Result::Ok(ValueV::Null), st)
    } else {
        let (r1, st1) = spec_eval_stmt(ss[0], st, fuel);
        match r1 {
            Result::Ok(v) => if v is Return || ss.len() == 1 {
                (Result::Ok(v), st1)
            } else {
                spec_eval_block(ss.drop_first(), st1, fuel)
            },
            Result::Err(e1) => (Result::Err(e1), st1),
        }
    }
}

/// Evaluates a whole program: its block, with a top-level `return`
/// sentinel unwrapped at the end.
pub open spec fn spec_eval_program(ss: Seq<StmtV>, st: EvalSt, fuel: nat) -> (
    Result<ValueV, ErrV>,
    EvalSt,
) {
    let (r, st1) = spec_eval_block(ss, st, fuel);
    match r {
        Result::Ok(v) => match v {
            ValueV::Return(x) => (Result::Ok(*x), st1),
            _ => (Result::Ok(v), st1),
        },
        Result::Err(e) => (Result::Err(e), st1),
    }
}

/// The fuel the public entry point starts with.
pub open spec fn eval_fuel() -> nat {
    0xffff_ffff_ffff_ffff
}

/// Whether a value is truthy; see [`spec_is_truthy`].
fn is_truthy(obj: &ObjectType) -> (r: bool)
    ensures
        r == spec_is_truthy(obj@),
{
    match obj {
        ObjectType::Boolean(b) => *b,
        ObjectType::Null => false,
        ObjectType::Integer(i) => *i != 0,
        _ => true,
    }
}

/// The `!` operator; see [`spec_eval_bang`].
fn eval_bang_operator_expression(right: &ObjectType) -> (r: Result<ObjectType, EvaluatorError>)
    ensures
        res_matches(r, spec_eval_bang(right@)),
{
    match right {
        ObjectType::Boolean(value) => {
            if *value {
                Result::Ok(ObjectType::Boolean(false))
            } else {
                Result::Ok(ObjectType::Boolean(true))
            }
        },
        ObjectType::Integer(value) => {
            if *value == 0 {
                Result::Ok(ObjectType::Boolean(true))
            } else {
                Result::Ok(ObjectType::Boolean(false))
            }
        },
        ObjectType::Null => Result::Ok(ObjectType::Boolean(true)),
        _ => Result::Err(EvaluatorError::operator_not_supported(right.inspect())),
    }
}

/// The prefix `-` operator; see [`spec_eval_minus`].
fn eval_minus_prefix_operator_expression(right: &ObjectType) -> (r: Result<
    ObjectType,
    EvaluatorError,
>)
    ensures
        res_matches(r, spec_eval_minus(right@)),
{
    match right {
        ObjectType::Integer(value) => {
            if *value == i64::MIN {
                Result::Err(EvaluatorError::operator_not_supported("-".to_owned()))
            } else {
                Result::Ok(ObjectType::Integer(-*value))
            }
        },
        _ => Result::Err(EvaluatorError::operator_not_supported(right.inspect())),
    }
}

/// Dispatches a prefix operator; see [`spec_eval_prefix`].
fn eval_prefix_expression(operator: &str, right: &ObjectType) -> (r: Result<
    ObjectType,
    EvaluatorError,
>)
    ensures
        res_matches(r, spec_eval_prefix(operator@, right@)),
{
    if str_eq(operator, "!") {
        eval_bang_operator_expression(right)
    } else if str_eq(operator, "-") {
        eval_minus_prefix_operator_expression(right)
    } else {
        Result::Err(EvaluatorError::operator_not_supported(operator.to_owned()))
    }
}

/// 64-bit division truncated toward zero; see [`trunc_div`].
fn div_trunc_i64(a: i64, b: i64) -> (r: i64)
    requires
        b != 0,
        !(a == i64::MIN && b == -1),
    ensures
        r as int == trunc_div(a as int, b as int),
{
    let an: u64 = if a < 0 {
        (-(a as i128)) as u64
    } else {
        a as u64
    };
    let bn: u64 = if b < 0 {
        (-(b as i128)) as u64
    } else {
        b as u64
    };
    let q: u64 = an / bn;
    assert(q as int == spec_abs(a as int) / spec_abs(b as int));
    if (a < 0) != (b < 0) {
        if q == 0x8000_0000_0000_0000u64 {
            i64::MIN
        } else {
            assert(q < 0x8000_0000_0000_0000u64) by {
                vstd::arithmetic::div_mod::lemma_div_is_ordered_by_denominator(
                    spec_abs(a as int),
                    1,
                    spec_abs(b as int),
                );
            }
            -(q as i64)
        }
    } else {
        assert(q < 0x8000_0000_0000_0000u64) by {
            if a == i64::MIN {
                assert(spec_abs(b as int) >= 2);
                vstd::arithmetic::div_mod::lemma_div_is_ordered_by_denominator(
                    spec_abs(a as int),
                    2,
                    spec_abs(b as int),
                );
            } else {
                vstd::arithmetic::div_mod::lemma_div_is_ordered_by_denominator(
                    spec_abs(a as int),
                    1,
                    spec_abs(b as int),
                );
            }
        }
        q as i64
    }
}

/// An integer infix operator; see [`spec_eval_int_infix`].
fn eval_integer_infix_expression(operator: &str, left: &i64, right: &i64) -> (r: Result<
    ObjectType,
    EvaluatorError,
>)
    ensures
        res_matches(r, spec_eval_int_infix(operator@, *left, *right)),
{
    let l = *left;
    let rr = *right;
    if str_eq(operator, "+") {
        let wide: i128 = l as i128 + rr as i128;
        if -0x8000_0000_0000_0000i128 <= wide && wide <= 0x7fff_ffff_ffff_ffffi128 {
            Result::Ok(ObjectType::Integer(wide as i64))
        } else {
            Result::Err(EvaluatorError::operator_not_supported(operator.to_owned()))
        }
    } else if str_eq(operator, "-") {
        let wide: i128 = l as i128 - rr as i128;
        if -0x8000_0000_0000_0000i128 <= wide && wide <= 0x7fff_ffff_ffff_ffffi128 {
            Result::Ok(ObjectType::Integer(wide as i64))
        } else {
            Result::Err(EvaluatorError::operator_not_supported(operator.to_owned()))
        }
    } else if str_eq(operator, "*") {
        proof {
            assert(l as int * rr as int <= 0x4000_0000_0000_0000_0000_0000_0000_0000int
                && l as int * rr as int >= -0x3fff_ffff_ffff_ffff_8000_0000_0000_0000int)
                by (nonlinear_arith)
                requires
                    -0x8000_0000_0000_0000 <= l as int <= 0x7fff_ffff_ffff_ffff,
                    -0x8000_0000_0000_0000 <= rr as int <= 0x7fff_ffff_ffff_ffff,
            ;
        }
        let wide: i128 = l as i128 * rr as i128;
        if -0x8000_0000_0000_0000i128 <= wide && wide <= 0x7fff_ffff_ffff_ffffi128 {
            Result::Ok(ObjectType::Integer(wide as i64))
        } else {
            Result::Err(EvaluatorError::operator_not_supported(operator.to_owned()))
        }
    } else if str_eq(operator, "/") {
        if rr == 0 || (l == i64::MIN && rr == -1) {
            Result::Err(EvaluatorError::operator_not_supported(operator.to_owned()))
        } else {
            Result::Ok(ObjectType::Integer(div_trunc_i64(l, rr)))
        }
    } else if str_eq(operator, "<") {
        Result::Ok(ObjectType::Boolean(l < rr))
    } else if str_eq(operator, "<=") {
        Result::Ok(ObjectType::Boolean(l <= rr))
    } else if str_eq(operator, ">") {
        Result::Ok(ObjectType::Boolean(l > rr))
    } else if str_eq(operator, ">=") {
        Result::Ok(ObjectType::Boolean(l >= rr))
    } else if str_eq(operator, "==") {
        Result::Ok(ObjectType::Boolean(l == rr))
    } else if str_eq(operator, "!=") {
        Result::Ok(ObjectType::Boolean(l != rr))
    } else {
        Result::Err(EvaluatorError::operator_not_supported(operator.to_owned()))
    }
}

/// A boolean infix operator; see [`spec_eval_bool_infix`].
fn eval_boolean_infix_expression(operator: &str, left: &bool, right: &bool) -> (r: Result<
    ObjectType,
    EvaluatorError,
>)
    ensures
        res_matches(r, spec_eval_bool_infix(operator@, *left, *right)),
{
    if str_eq(operator, "==") {
        Result::Ok(ObjectType::Boolean(*left == *right))
    } else if str_eq(operator, "!=") {
        Result::Ok(ObjectType::Boolean(*left != *right))
    } else {
        let lv = ObjectType::Boolean(*left);
        let rv = ObjectType::Boolean(*right);
        Result::Err(
            EvaluatorError::type_missmatch(lv.inspect().as_str(), operator, rv.inspect().as_str()),
        )
    }
}

/// A string infix operator; see [`spec_eval_string_infix`].
fn eval_string_infix_expression(operator: &str, left: &String, right: &String) -> (r: Result<
    ObjectType,
    EvaluatorError,
>)
    ensures
        res_matches(r, spec_eval_string_infix(operator@, left@, right@)),
{
    if str_eq(operator, "+") {
        let joined = left.clone().concat(right.as_str());
        Result::Ok(ObjectType::String(joined))
    } else {
        Result::Err(
            EvaluatorError::type_missmatch(left.as_str(), operator, right.as_str()),
        )
    }
}

/// Dispatches an infix operator on the operands' kinds; see
/// [`spec_eval_infix`].
fn eval_infix_expression(operator: &str, left: &ObjectType, right: &ObjectType) -> (r: Result<
    ObjectType,
    EvaluatorError,
>)
    ensures
        res_matches(r, spec_eval_infix(operator@, left@, right@)),
{
    match (left, right) {
        (ObjectType::Integer(l), ObjectType::Integer(rr)) => {
            eval_integer_infix_expression(operator, l, rr)
        },
        (ObjectType::Boolean(l), ObjectType::Boolean(rr)) => {
            eval_boolean_infix_expression(operator, l, rr)
        },
        (ObjectType::String(l), ObjectType::String(rr)) => {
            eval_string_infix_expression(operator, l, rr)
        },
        _ => Result::Err(
            EvaluatorError::type_missmatch(
                left.inspect().as_str(),
                operator,
                right.inspect().as_str(),
            ),
        ),
    }
}

/// Indexes an array or a string; see [`spec_eval_index`].
fn eval_index_expression(left: &ObjectType, index: &ObjectType) -> (r: Result<
    ObjectType,
    EvaluatorError,
>)
    ensures
        res_matches(r, spec_eval_index(left@, index@)),
{
    broadcast use lemma_objs_view_len, lemma_objs_view_index;

    match (left, index) {
        (ObjectType::Array(elements), ObjectType::Integer(i)) => {
            proof {
                lemma_objs_view_len(elements@);
            }
            let max_index = elements.len();
            if *i < 0 {
                Result::Err(EvaluatorError::index_out_of_bounds(*i, max_index))
            } else if (*i as u64) >= (max_index as u64) {
                Result::Err(EvaluatorError::index_out_of_bounds(*i, max_index))
            } else {
                proof {
                    lemma_objs_view_index(elements@, *i as int);
                }
                Result::Ok(elements[*i as usize].clone())
            }
        },
        (ObjectType::String(s), ObjectType::Integer(i)) => {
            let max_index = s.as_str().unicode_len();
            if *i < 0 {
                Result::Err(EvaluatorError::index_out_of_bounds(*i, max_index))
            } else if (*i as u64) >= (max_index as u64) {
                Result::Err(EvaluatorError::index_out_of_bounds(*i, max_index))
            } else {
                let c = s.as_str().get_char(*i as usize);
                let mut one: Vec<char> = Vec::new();
                one.push(c);
                let r = crate::strutil::chars_to_string(&one);
                assert(r@ =~= seq![s@[*i as int]]);
                Result::Ok(ObjectType::String(r))
            }
        },
        _ => Result::Err(EvaluatorError::operator_not_supported(left.inspect())),
    }
}

/// How an executable list evaluation ends: the values, or an escaping
/// `return` sentinel.
pub enum ListOut {
    Vals(Vec<ObjectType>),
    Escape(ObjectType),
}

/// A list-evaluation result with already-evaluated values in front.
pub open spec fn compose_exprs(
    acc: Seq<ValueV>,
    rest: (Result<ListEval, ErrV>, EvalSt),
) -> (Result<ListEval, ErrV>, EvalSt) {
    match rest.0 {
        Result::Ok(le) => match le {
            ListEval::Vals(vs) => (Result::Ok(ListEval::Vals(acc + vs)), rest.1),
            ListEval::Escape(w) => (Result::Ok(ListEval::Escape(w)), rest.1),
        },
        Result::Err(e) => (Result::Err(e), rest.1),
    }
}

/// Evaluates the elements of an expression list left to right, stopping
/// at the first error; see [`spec_eval_exprs`].
fn eval_expressions(
    environment: &mut Environment,
    out: &mut Vec<char>,
    exprs: &Vec<Expression>,
    fuel: u64,
    outer_size: Ghost<nat>,
) -> (r: Result<ListOut, EvaluatorError>)
    requires
        exprs_size(exprs_view(exprs@)) < outer_size@,
    ensures
        ({
            let (r_s, st1) = spec_eval_exprs(
                exprs_view(exprs@),
                EvalSt { env: old(environment)@, out: old(out)@ },
                fuel as nat,
            );
            &&& final(environment)@ == st1.env
            &&& final(out)@ == st1.out
            &&& match (r, r_s) {
                (Result::Ok(lo), Result::Ok(le)) => match (lo, le) {
                    (ListOut::Vals(vs), ListEval::Vals(vvs)) => objs_view(vs@) == vvs,
                    (ListOut::Escape(w), ListEval::Escape(wv)) => w@ == wv,
                    _ => false,
                },
                (Result::Err(e), Result::Err(ev)) => e@ == ev,
                _ => false,
            }
        }),
    decreases fuel, outer_size@, 2int,
{
    broadcast use lemma_exprs_view_len, lemma_exprs_view_index, lemma_objs_view_len,
        lemma_objs_view_index;

    let ghost models = exprs_view(exprs@);
    let ghost st0 = EvalSt { env: old(environment)@, out: old(out)@ };
    let mut acc: Vec<ObjectType> = Vec::new();
    let mut j: usize = 0;
    proof {
        assert(models.skip(0) =~= models);
        assert(objs_view(acc@) =~= Seq::<ValueV>::empty());
        if spec_eval_exprs(models, st0, fuel as nat).0 is Ok && spec_eval_exprs(
            models,
            st0,
            fuel as nat,
        ).0->Ok_0 is Vals {
            assert(Seq::<ValueV>::empty() + spec_eval_exprs(
                models,
                st0,
                fuel as nat,
            ).0->Ok_0->Vals_0 =~= spec_eval_exprs(models, st0, fuel as nat).0->Ok_0->Vals_0);
        }
    }
    while j < exprs.len()
        invariant
            j <= exprs@.len(),
            models == exprs_view(exprs@),
            st0 == (EvalSt { env: old(environment)@, out: old(out)@ }),
            models.len() == exprs@.len(),
            exprs_size(models) < outer_size@,
            compose_exprs(
                objs_view(acc@),
                spec_eval_exprs(
                    models.skip(j as int),
                    EvalSt { env: environment@, out: out@ },
                    fuel as nat,
                ),
            ) == spec_eval_exprs(models, st0, fuel as nat),
        decreases exprs@.len() - j,
    {
        proof {
            lemma_exprs_view_index(exprs@, j as int);
            lemma_exprs_size_index(models, j as int);
            assert(models.skip(j as int)[0] == models[j as int]);
            assert(models.skip(j as int).drop_first() =~= models.skip(j as int + 1));
        }
        let ghost acc_before = objs_view(acc@);
        let ghost pre_st = EvalSt { env: environment@, out: out@ };
        let r1 = eval_expression(environment, out, &exprs[j], fuel);
        match r1 {
            Result::Ok(v) => {
                let is_ret = matches!(v, ObjectType::Return(_));
                if is_ret {
                    return Result::Ok(ListOut::Escape(v));
                }
                let ghost vv = v@;
                let ghost old_acc = acc@;
                acc.push(v);
                proof {
                    lemma_objs_view_len(acc@);
                    lemma_objs_view_len(old_acc);
                    assert forall|k: int| 0 <= k < acc@.len() implies objs_view(acc@)[k]
                        == obj_view(acc@[k]) by {
                        lemma_objs_view_index(acc@, k);
                    }
                    assert forall|k: int| 0 <= k < old_acc.len() implies acc_before[k] == obj_view(
                        old_acc[k],
                    ) by {
                        lemma_objs_view_index(old_acc, k);
                    }
                    assert(objs_view(acc@) =~= acc_before.push(vv));
                    let rest = spec_eval_exprs(
                        models.skip(j as int + 1),
                        EvalSt { env: environment@, out: out@ },
                        fuel as nat,
                    );
                    if rest.0 is Ok && rest.0->Ok_0 is Vals {
                        assert(acc_before.push(vv) + rest.0->Ok_0->Vals_0 =~= acc_before + (
                        seq![vv] + rest.0->Ok_0->Vals_0));
                    }
                }
                j = j + 1;
            },
            Result::Err(e) => {
                proof {
                    assert(spec_eval_exprs(models.skip(j as int), pre_st, fuel as nat) == (
                        Result::<ListEval, ErrV>::Err(e@),
                        EvalSt { env: environment@, out: out@ },
                    ));
                    assert(compose_exprs(
                        acc_before,
                        spec_eval_exprs(models.skip(j as int), pre_st, fuel as nat),
                    ) == spec_eval_exprs(models, st0, fuel as nat));

                }
                return Result::Err(e);
            },
        }
    }
    proof {
        assert(models.skip(models.len() as int) =~= Seq::<ExprV>::empty());
        assert(objs_view(acc@) + Seq::<ValueV>::empty() =~= objs_view(acc@));
    }
    Result::Ok(ListOut::Vals(acc))
}

/// Evaluates one statement; see [`spec_eval_stmt`].
fn eval_node(
    environment: &mut Environment,
    out: &mut Vec<char>,
    node: &Statement,
    fuel: u64,
) -> (r: Result<ObjectType, EvaluatorError>)
    ensures
        ({
            let (r_s, st1) = spec_eval_stmt(
                node@,
                EvalSt { env: old(environment)@, out: old(out)@ },
                fuel as nat,
            );
            &&& final(environment)@ == st1.env
            &&& final(out)@ == st1.out
            &&& res_matches(r, r_s)
        }),
    decreases fuel, stmt_size(node@), 2int,
{
    match node {
        Statement::ExpressionStatement(expr) => eval_expression(environment, out, expr, fuel),
        Statement::ReturnStatement { value } => {
            let r1 = eval_expression(environment, out, value, fuel);
            match r1 {
                Result::Ok(v) => {
                    let is_ret = matches!(v, ObjectType::Return(_));
                    if is_ret {
                        Result::Ok(v)
                    } else {
                        Result::Ok(ObjectType::Return(Box::new(v)))
                    }
                },
                Result::Err(e) => Result::Err(e),
            }
        },
        Statement::LetStatement { identifier, value } => {
            let builtin = get_builtin(identifier.as_str());
            match builtin {
                Option::Some(_) => Result::Err(
                    EvaluatorError::built_in_function(identifier.as_str()),
                ),
                Option::None => {
                    let r1 = eval_expression(environment, out, value, fuel);
                    match r1 {
                        Result::Ok(v) => {
                            let is_ret = matches!(v, ObjectType::Return(_));
                            if is_ret {
                                Result::Ok(v)
                            } else {
                                environment.set(identifier.as_str(), v);
                                Result::Ok(ObjectType::Null)
                            }
                        },
                        Result::Err(e) => Result::Err(e),
                    }
                },
            }
        },
        Statement::EmptyStatement => Result::Err(
            EvaluatorError::operator_not_supported(node.to_string()),
        ),
    }
}

/// Evaluates the statements of a block from index `j` on; see
/// [`spec_eval_block`].
fn eval_block_from(
    environment: &mut Environment,
    out: &mut Vec<char>,
    statements: &Vec<Statement>,
    j: usize,
    fuel: u64,
) -> (r: Result<ObjectType, EvaluatorError>)
    requires
        j <= statements@.len(),
    ensures
        ({
            let (r_s, st1) = spec_eval_block(
                stmts_view(statements@).skip(j as int),
                EvalSt { env: old(environment)@, out: old(out)@ },
                fuel as nat,
            );
            &&& final(environment)@ == st1.env
            &&& final(out)@ == st1.out
            &&& res_matches(r, r_s)
        }),
    decreases fuel, stmts_size(stmts_view(statements@).skip(j as int)), 0int,
{
    broadcast use lemma_stmts_view_len, lemma_stmts_view_index;

    let ghost models = stmts_view(statements@).skip(j as int);
    if j == statements.len() {
        proof {
            assert(models =~= Seq::<StmtV>::empty());
        }
        Result::Ok(ObjectType::Null)
    } else {
        proof {
            lemma_stmts_view_index(statements@, j as int);
            assert(models[0] == stmts_view(statements@)[j as int]);
            lemma_stmts_size_index(models, 0);
            assert(models.drop_first() =~= stmts_view(statements@).skip(j as int + 1));
        }
        let r1 = eval_node(environment, out, &statements[j], fuel);
        match r1 {
            Result::Ok(v) => {
                let is_ret = matches!(v, ObjectType::Return(_));
                if is_ret {
                    Result::Ok(v)
                } else if j + 1 == statements.len() {
                    proof {
                        assert(models.len() == 1);
                    }
                    Result::Ok(v)
                } else {
                    eval_block_from(environment, out, statements, j + 1, fuel)
                }
            },
            Result::Err(e) => Result::Err(e),
        }
    }
}

/// Evaluates a block of statements; see [`spec_eval_block`].
fn eval_block_statement(
    environment: &mut Environment,
    out: &mut Vec<char>,
    statements: &Vec<Statement>,
    fuel: u64,
) -> (r: Result<ObjectType, EvaluatorError>)
    ensures
        ({
            let (r_s, st1) = spec_eval_block(
                stmts_view(statements@),
                EvalSt { env: old(environment)@, out: old(out)@ },
                fuel as nat,
            );
            &&& final(environment)@ == st1.env
            &&& final(out)@ == st1.out
            &&& res_matches(r, r_s)
        }),
    decreases fuel, stmts_size(stmts_view(statements@)), 1int,
{
    proof {
        assert(stmts_view(statements@).skip(0) =~= stmts_view(statements@));
    }
    eval_block_from(environment, out, statements, 0, fuel)
}

/// Evaluates an `if` expression: the condition picks the consequence,
/// the alternative, or `null` when there is no alternative.
fn eval_if_expression(
    environment: &mut Environment,
    out: &mut Vec<char>,
    condition: &Expression,
    consequence: &Vec<Statement>,
    alternative: &Option<Vec<Statement>>,
    fuel: u64,
) -> (r: Result<ObjectType, EvaluatorError>)
    ensures
        ({
            let st0 = EvalSt { env: old(environment)@, out: old(out)@ };
            let (r1, st1) = spec_eval_expr(condition@, st0, fuel as nat);
            match r1 {
                Result::Ok(cv) => if cv is Return {
                    final(environment)@ == st1.env && final(out)@ == st1.out && res_matches(
                        r,
                        Result::Ok(cv),
                    )
                } else if spec_is_truthy(cv) {
                    let (r2, st2) = spec_eval_block(
                        stmts_view(consequence@),
                        st1,
                        fuel as nat,
                    );
                    final(environment)@ == st2.env && final(out)@ == st2.out && res_matches(r, r2)
                } else {
                    match *alternative {
                        Option::Some(alt) => {
                            let (r2, st2) = spec_eval_block(stmts_view(alt@), st1, fuel as nat);
                            final(environment)@ == st2.env && final(out)@ == st2.out
                                && res_matches(r, r2)
                        },
                        Option::None => final(environment)@ == st1.env && final(out)@ == st1.out
                            && res_matches(
                            r,
                            Result::Ok(ValueV::Null),
                        ),
                    }
                },
                Result::Err(e1) => final(environment)@ == st1.env && final(out)@ == st1.out
                    && res_matches(r, Result::Err(e1)),
            }
        }),
    decreases fuel, 1 + expr_size(condition@) + stmts_size(stmts_view(consequence@)) + (match (
        *alternative,
    ) {
        (Option::Some(alt),) => stmts_size(stmts_view(alt@)),
        (Option::None,) => 0nat,
    }), 2int,
{
    let r1 = eval_expression(environment, out, condition, fuel);
    match r1 {
        Result::Ok(cv) => {
            let c_ret = matches!(cv, ObjectType::Return(_));
            if c_ret {
                return Result::Ok(cv);
            }
            if is_truthy(&cv) {
                eval_block_statement(environment, out, consequence, fuel)
            } else {
                match alternative {
                    Option::Some(alt) => eval_block_statement(environment, out, alt, fuel),
                    Option::None => Result::Ok(ObjectType::Null),
                }
            }
        },
        Result::Err(e) => Result::Err(e),
    }
}

/// Calls a function or built-in value on already-evaluated arguments;
/// see [`spec_apply_function`].  The caller's environment is not
/// involved: a function body runs in a fresh frame enclosed by the
/// function's captured environment.
fn apply_function(
    function: &ObjectType,
    args: &Vec<ObjectType>,
    out: &mut Vec<char>,
    fuel: u64,
) -> (r: Result<ObjectType, EvaluatorError>)
    ensures
        ({
            let (r_s, out_s) = spec_apply_function(
                function@,
                objs_view(args@),
                old(out)@,
                fuel as nat,
            );
            &&& final(out)@ == out_s
            &&& res_matches(r, r_s)
        }),
    decreases fuel, 0int, 0int,
{
    broadcast use lemma_objs_view_len, lemma_objs_view_index, lemma_exprs_view_len,
        lemma_exprs_view_index;

    match function {
        ObjectType::Function { parameters, body, environment } => {
            proof {
                lemma_objs_view_len(args@);
                lemma_exprs_view_len(parameters@);
            }
            if parameters.len() != args.len() {
                return Result::Err(
                    EvaluatorError::wrong_number_of_arguments(parameters.len(), args.len()),
                );
            }
            if fuel == 0 {
                return Result::Err(EvaluatorError::unknown_error());
            }
            let ghost params_m = exprs_view(parameters@);
            let ghost args_m = objs_view(args@);
            let mut enclosing = Environment {
                store: Vec::new(),
                outer: Option::Some(Box::new(environment.clone())),
            };
            proof {
                assert(crate::environment::store_view(enclosing.store@) =~= Seq::<
                    (Seq<char>, ValueV),
                >::empty());
                assert(params_m.skip(0) =~= params_m);
                assert(args_m.skip(0) =~= args_m);
            }
            let mut j: usize = 0;
            while j < parameters.len()
                invariant
                    j <= parameters@.len(),
                    parameters@.len() == args@.len(),
                    params_m == exprs_view(parameters@),
                    args_m == objs_view(args@),
                    params_m.len() == parameters@.len(),
                    args_m.len() == args@.len(),
                    enclosing@.outer == Option::Some(Box::new(env_view(*environment))),
                    bind_args(enclosing@.store, params_m.skip(j as int), args_m.skip(j as int))
                        == bind_args(
                        Seq::<(Seq<char>, ValueV)>::empty(),
                        params_m,
                        args_m,
                    ),
                decreases parameters@.len() - j,
            {
                proof {
                    lemma_exprs_view_index(parameters@, j as int);
                    lemma_objs_view_index(args@, j as int);
                    assert(params_m.skip(j as int)[0] == params_m[j as int]);
                    assert(args_m.skip(j as int)[0] == args_m[j as int]);
                    assert(params_m.skip(j as int).drop_first() =~= params_m.skip(j as int + 1));
                    assert(args_m.skip(j as int).drop_first() =~= args_m.skip(j as int + 1));
                }
                let pname = parameters[j].to_string();
                enclosing.set(pname.as_str(), args[j].clone());
                j = j + 1;
            }
            proof {
                assert(params_m.skip(params_m.len() as int) =~= Seq::<ExprV>::empty());
            }
            let result = eval_block_statement(&mut enclosing, out, body, fuel - 1);
            match result {
                Result::Ok(v) => {
                    match v {
                        ObjectType::Return(x) => Result::Ok(*x),
                        other => Result::Ok(other),
                    }
                },
                Result::Err(e) => Result::Err(e),
            }
        },
        ObjectType::Builtin(kind) => apply_builtin(*kind, args, out),
        _ => Result::Err(EvaluatorError::operator_not_supported(function.inspect())),
    }
}

/// Evaluates one expression; see [`spec_eval_expr`].
fn eval_expression(
    environment: &mut Environment,
    out: &mut Vec<char>,
    expr: &Expression,
    fuel: u64,
) -> (r: Result<ObjectType, EvaluatorError>)
    ensures
        ({
            let (r_s, st1) = spec_eval_expr(
                expr@,
                EvalSt { env: old(environment)@, out: old(out)@ },
                fuel as nat,
            );
            &&& final(environment)@ == st1.env
            &&& final(out)@ == st1.out
            &&& res_matches(r, r_s)
        }),
    decreases fuel, expr_size(expr@), 3int,
{
    broadcast use lemma_exprs_view_len, lemma_exprs_view_index;

    match expr {
        Expression::IntegerLiteral(value) => Result::Ok(ObjectType::Integer(*value)),
        Expression::BooleanLiteral(value) => {
            if *value {
                Result::Ok(ObjectType::Boolean(true))
            } else {
                Result::Ok(ObjectType::Boolean(false))
            }
        },
        Expression::StringLiteral(value) => Result::Ok(ObjectType::String(value.clone())),
        Expression::Identifier(identifier) => {
            let builtin = get_builtin(identifier.as_str());
            match builtin {
                Option::Some(b) => Result::Ok(b),
                Option::None => {
                    match environment.get(identifier.as_str()) {
                        Option::Some(value) => Result::Ok(value.clone()),
                        Option::None => Result::Err(
                            EvaluatorError::unknown_identifier(identifier.as_str()),
                        ),
                    }
                },
            }
        },
        Expression::PrefixExpression { operator, right } => {
            let r1 = eval_expression(environment, out, right, fuel);
            match r1 {
                Result::Ok(v) => {
                    let is_ret = matches!(v, ObjectType::Return(_));
                    if is_ret {
                        Result::Ok(v)
                    } else {
                        eval_prefix_expression(operator.as_str(), &v)
                    }
                },
                Result::Err(e) => Result::Err(e),
            }
        },
        Expression::InfixExpression { left, operator, right } => {
            let r1 = eval_expression(environment, out, left, fuel);
            match r1 {
                Result::Ok(lv) => {
                    let l_ret = matches!(lv, ObjectType::Return(_));
                    if l_ret {
                        Result::Ok(lv)
                    } else {
                        let r2 = eval_expression(environment, out, right, fuel);
                        match r2 {
                            Result::Ok(rv) => {
                                let r_ret = matches!(rv, ObjectType::Return(_));
                                if r_ret {
                                    Result::Ok(rv)
                                } else {
                                    eval_infix_expression(operator.as_str(), &lv, &rv)
                                }
                            },
                            Result::Err(e) => Result::Err(e),
                        }
                    }
                },
                Result::Err(e) => Result::Err(e),
            }
        },
        Expression::GroupedExpression { expression } => {
            eval_expression(environment, out, expression, fuel)
        },
        Expression::IfExpression { condition, consequence, alternative } => {
            eval_if_expression(environment, out, condition, consequence, alternative, fuel)
        },
        Expression::FunctionLiteral { parameters, body } => {
            Result::Ok(
                ObjectType::Function {
                    parameters: crate::ast::clone_expr_vec(parameters),
                    body: crate::ast::clone_stmt_vec(body),
                    environment: environment.clone(),
                },
            )
        },
        Expression::CallExpression { function, arguments } => {
            let r1 = eval_expression(environment, out, function, fuel);
            match r1 {
                Result::Ok(fv) => {
                    proof {
                        assert(exprs_size(exprs_view(arguments@)) < expr_size(expr@));
                    }
                    let f_ret = matches!(fv, ObjectType::Return(_));
                    if f_ret {
                        return Result::Ok(fv);
                    }
                    let r2 = eval_expressions(
                        environment,
                        out,
                        arguments,
                        fuel,
                        Ghost(expr_size(expr@)),
                    );
                    match r2 {
                        Result::Ok(lo) => match lo {
                            ListOut::Vals(argvs) => apply_function(&fv, &argvs, out, fuel),
                            ListOut::Escape(w) => Result::Ok(w),
                        },
                        Result::Err(e) => Result::Err(e),
                    }
                },
                Result::Err(e) => Result::Err(e),
            }
        },
        Expression::ArrayLiteral(elements) => {
            proof {
                assert(exprs_size(exprs_view(elements@)) < expr_size(expr@));
            }
            let r1 = eval_expressions(environment, out, elements, fuel, Ghost(expr_size(expr@)));
            match r1 {
                Result::Ok(lo) => match lo {
                    ListOut::Vals(vs) => Result::Ok(ObjectType::Array(vs)),
                    ListOut::Escape(w) => Result::Ok(w),
                },
                Result::Err(e) => Result::Err(e),
            }
        },
        Expression::IndexExpression { left, index } => {
            let r1 = eval_expression(environment, out, left, fuel);
            match r1 {
                Result::Ok(lv) => {
                    let l_ret = matches!(lv, ObjectType::Return(_));
                    if l_ret {
                        Result::Ok(lv)
                    } else {
                        let r2 = eval_expression(environment, out, index, fuel);
                        match r2 {
                            Result::Ok(iv) => {
                                let i_ret = matches!(iv, ObjectType::Return(_));
                                if i_ret {
                                    Result::Ok(iv)
                                } else {
                                    eval_index_expression(&lv, &iv)
                                }
                            },
                            Result::Err(e) => Result::Err(e),
                        }
                    }
                },
                Result::Err(e) => Result::Err(e),
            }
        },
    }
}

/// Evaluates a whole program against an environment, appending anything
/// printed to `out`.  The result, the final environment and the output
/// are exactly those of the modelled interpreter [`spec_eval_program`]
/// run with the full fuel; a top-level `return` sentinel is unwrapped
/// here, so the caller never observes one.
pub fn eval(program: &Program, environment: &mut Environment, out: &mut Vec<char>) -> (r: Result<
    ObjectType,
    EvaluatorError,
>)
    ensures
        ({
            let (r_s, st1) = spec_eval_program(
                program@,
                EvalSt { env: old(environment)@, out: old(out)@ },
                eval_fuel(),
            );
            &&& final(environment)@ == st1.env
            &&& final(out)@ == st1.out
            &&& res_matches(r, r_s)
        }),
{
    let result = eval_block_statement(
        environment,
        out,
        &program.statements,
        0xffff_ffff_ffff_ffffu64,
    );
    match result {
        Result::Ok(v) => {
            match v {
                ObjectType::Return(x) => Result::Ok(*x),
                other => Result::Ok(other),
            }
        },
        Result::Err(e) => Result::Err(e),
    }
}

/// Binding persistence: after `let x = E;` succeeds, evaluating the
/// bare identifier `x` against the resulting environment yields
/// exactly the value `E` evaluated to, and the `let` itself yields
/// `null`.
pub proof fn lemma_binding_persists(x: Seq<char>, e: ExprV, st: EvalSt, fuel: nat)
    requires
        spec_get_builtin(x) is None,
        spec_eval_expr(e, st, fuel).0 is Ok,
        !(spec_eval_expr(e, st, fuel).0->Ok_0 is Return),
    ensures
        ({
            let (rv, st1) = spec_eval_expr(e, st, fuel);
            let (rl, st2) = spec_eval_stmt(
                StmtV::LetStatement { identifier: x, value: e },
                st,
                fuel,
            );
            &&& rl == Result::<ValueV, ErrV>::Ok(ValueV::Null)
            &&& spec_eval_expr(ExprV::Identifier(x), st2, fuel).0 == Result::<ValueV, ErrV>::Ok(
                rv->Ok_0,
            )
        }),
{
    let (rv, st1) = spec_eval_expr(e, st, fuel);
    crate::environment::lemma_lookup_store_set_same(st1.env.store, x, rv->Ok_0);
}

/// Closure capture: a function literal captures the environment at its
/// evaluation.  With `f` bound to `fn() { x }` as captured in `env`,
/// rebinding `x` afterwards does not change what calling `f()` yields:
/// the call still evaluates to the `x` visible when the literal was
/// evaluated.
pub proof fn lemma_closure_capture(
    x: Seq<char>,
    f: Seq<char>,
    v0: ValueV,
    v1: ValueV,
    env: EnvV,
    out: Seq<char>,
    fuel: nat,
)
    requires
        x != f,
        spec_get_builtin(x) is None,
        spec_get_builtin(f) is None,
        crate::environment::env_lookup(env, x) == Option::Some(v0),
        !(v0 is Return),
        fuel >= 1,
    ensures
        ({
            let fun = ValueV::Function {
                parameters: Seq::<ExprV>::empty(),
                body: seq![StmtV::ExpressionStatement(ExprV::Identifier(x))],
                environment: Box::new(env),
            };
            let env1 = EnvV { store: store_set(env.store, f, fun), outer: env.outer };
            let env2 = EnvV { store: store_set(env1.store, x, v1), outer: env1.outer };
            spec_eval_expr(
                ExprV::CallExpression {
                    function: Box::new(ExprV::Identifier(f)),
                    arguments: Seq::<ExprV>::empty(),
                },
                EvalSt { env: env2, out },
                fuel,
            ).0 == Result::<ValueV, ErrV>::Ok(v0)
        }),
{
    let fun = ValueV::Function {
        parameters: Seq::<ExprV>::empty(),
        body: seq![StmtV::ExpressionStatement(ExprV::Identifier(x))],
        environment: Box::new(env),
    };
    let env1 = EnvV { store: store_set(env.store, f, fun), outer: env.outer };
    let env2 = EnvV { store: store_set(env1.store, x, v1), outer: env1.outer };
    crate::environment::lemma_lookup_store_set_other(env1.store, x, v1, f);
    crate::environment::lemma_lookup_store_set_same(env.store, f, fun);
    assert(crate::environment::env_lookup(env2, f) == Option::Some(fun));
    let st2 = EvalSt { env: env2, out };
    let body = seq![StmtV::ExpressionStatement(ExprV::Identifier(x))];
    let env_call = EnvV {
        store: bind_args(
            Seq::<(Seq<char>, ValueV)>::empty(),
            Seq::<ExprV>::empty(),
            Seq::<ValueV>::empty(),
        ),
        outer: Option::Some(Box::new(env)),
    };
    assert(crate::environment::lookup_store(env_call.store, x) is None);
    assert(crate::environment::env_lookup(env_call, x) == Option::Some(v0));
    assert(spec_eval_expr(ExprV::Identifier(x), EvalSt { env: env_call, out }, (fuel - 1) as nat).0
        == Result::<ValueV, ErrV>::Ok(v0));
    assert(body.len() == 1);
    assert(spec_eval_block(body, EvalSt { env: env_call, out }, (fuel - 1) as nat).0
        == Result::<ValueV, ErrV>::Ok(v0));
    assert(spec_apply_function(fun, Seq::<ValueV>::empty(), out, fuel).0
        == Result::<ValueV, ErrV>::Ok(v0));
    assert(spec_eval_expr(ExprV::Identifier(f), st2, fuel) == (
        Result::<ValueV, ErrV>::Ok(fun),
        st2,
    ));
    assert(spec_eval_exprs(Seq::<ExprV>::empty(), st2, fuel) == (
        Result::<ListEval, ErrV>::Ok(ListEval::Vals(Seq::<ValueV>::empty())),
        st2,
    ));
}

/// The call boundary unwraps: a function body's block evaluating to
/// the sentinel `Return(v)` makes the call yield `v` itself, so the
/// wrapper stops at the function-call boundary.
pub proof fn lemma_call_boundary_unwraps(
    f: ValueV,
    args: Seq<ValueV>,
    out: Seq<char>,
    fuel: nat,
)
    requires
        f is Function,
        f->Function_parameters.len() == args.len(),
        fuel > 0,
        ({
            let env2 = EnvV {
                store: bind_args(
                    Seq::<(Seq<char>, ValueV)>::empty(),
                    f->Function_parameters,
                    args,
                ),
                outer: Option::Some(f->Function_environment),
            };
            spec_eval_block(
                f->Function_body,
                EvalSt { env: env2, out },
                (fuel - 1) as nat,
            ).0 is Ok && spec_eval_block(
                f->Function_body,
                EvalSt { env: env2, out },
                (fuel - 1) as nat,
            ).0->Ok_0 is Return
        }),
    ensures
        ({
            let env2 = EnvV {
                store: bind_args(
                    Seq::<(Seq<char>, ValueV)>::empty(),
                    f->Function_parameters,
                    args,
                ),
                outer: Option::Some(f->Function_environment),
            };
            spec_apply_function(f, args, out, fuel).0 == Result::<ValueV, ErrV>::Ok(
                *spec_eval_block(
                    f->Function_body,
                    EvalSt { env: env2, out },
                    (fuel - 1) as nat,
                ).0->Ok_0->Return_0,
            )
        }),
{
}

/// No `return` sentinel hides inside a value: not at the top, not in an
/// array element, and not in any environment a function value captured.
pub open spec fn ret_free(v: ValueV) -> bool
    decreases v,
{
    match v {
        ValueV::Return(_) => false,
        ValueV::Array(items) => rets_free(items),
        ValueV::Function { environment, .. } => env_ret_free(*environment),
        _ => true,
    }
}

/// Every value of a sequence is free of `return` sentinels.
pub open spec fn rets_free(items: Seq<ValueV>) -> bool
    decreases items,
{
    if items.len() == 0 {
        true
    } else {
        ret_free(items[0]) && rets_free(items.drop_first())
    }
}

/// Every value bound in a frame is free of `return` sentinels.
pub open spec fn store_ret_free(s: Seq<(Seq<char>, ValueV)>) -> bool
    decreases s,
{
    if s.len() == 0 {
        true
    } else {
        ret_free(s[0].1) && store_ret_free(s.drop_first())
    }
}

/// Every value bound anywhere in an environment is free of `return`
/// sentinels.
pub open spec fn env_ret_free(e: EnvV) -> bool
    decreases e,
{
    store_ret_free(e.store) && match e.outer {
        Option::Some(o) => env_ret_free(*o),
        Option::None => true,
    }
}

/// A sequence is sentinel-free exactly when each element is.
pub proof fn lemma_rets_free_iff(items: Seq<ValueV>)
    ensures
        rets_free(items) <==> forall|i: int| 0 <= i < items.len() ==> ret_free(#[trigger] items[i]),
    decreases items,
{
    if items.len() != 0 {
        lemma_rets_free_iff(items.drop_first());
        if ret_free(items[0]) && rets_free(items.drop_first()) {
            assert forall|i: int| 0 <= i < items.len() implies ret_free(#[trigger] items[i]) by {
                if i > 0 {
                    assert(ret_free(items.drop_first()[i - 1]));
                }
            }
        }
        if forall|i: int| 0 <= i < items.len() ==> ret_free(#[trigger] items[i]) {
            assert forall|i: int|
                0 <= i < items.drop_first().len() implies ret_free(
                #[trigger] items.drop_first()[i],
            ) by {
                assert(items.drop_first()[i] == items[i + 1]);
            }
        }
    }
}

/// A sentinel-free environment only hands out sentinel-free values.
pub proof fn lemma_lookup_ret_free(e: EnvV, name: Seq<char>)
    requires
        env_ret_free(e),
        crate::environment::env_lookup(e, name) is Some,
    ensures
        ret_free(crate::environment::env_lookup(e, name)->Some_0),
    decreases e,
{
    lemma_lookup_store_ret_free(e.store, name);
    if crate::environment::lookup_store(e.store, name) is None {
        match e.outer {
            Option::Some(o) => {
                lemma_lookup_ret_free(*o, name);
            },
            Option::None => {},
        }
    }
}

/// A sentinel-free frame only hands out sentinel-free values.
pub proof fn lemma_lookup_store_ret_free(s: Seq<(Seq<char>, ValueV)>, name: Seq<char>)
    requires
        store_ret_free(s),
    ensures
        crate::environment::lookup_store(s, name) is Some ==> ret_free(
            crate::environment::lookup_store(s, name)->Some_0,
        ),
    decreases s.len(),
{
    if s.len() != 0 && s[0].0 != name {
        lemma_lookup_store_ret_free(s.drop_first(), name);
    }
}

/// Setting a sentinel-free value keeps a frame sentinel-free.
pub proof fn lemma_store_set_ret_free(s: Seq<(Seq<char>, ValueV)>, name: Seq<char>, v: ValueV)
    requires
        store_ret_free(s),
        ret_free(v),
    ensures
        store_ret_free(store_set(s, name, v)),
    decreases s.len(),
{
    reveal_with_fuel(store_ret_free, 3);
    reveal_with_fuel(crate::environment::store_set, 3);
    if s.len() == 0 {
        assert(seq![(name, v)][0] == (name, v));
        assert(seq![(name, v)].drop_first() =~= Seq::<(Seq<char>, ValueV)>::empty());
    } else if s[0].0 == name {
        assert((seq![(name, v)] + s.drop_first())[0] == (name, v));
        assert((seq![(name, v)] + s.drop_first()).drop_first() =~= s.drop_first());
    } else {
        lemma_store_set_ret_free(s.drop_first(), name, v);
        assert((seq![s[0]] + store_set(s.drop_first(), name, v))[0] == s[0]);
        assert((seq![s[0]] + store_set(s.drop_first(), name, v)).drop_first() =~= store_set(
            s.drop_first(),
            name,
            v,
        ));
    }
}

/// Binding sentinel-free arguments keeps a frame sentinel-free.
pub proof fn lemma_bind_ret_free(
    store: Seq<(Seq<char>, ValueV)>,
    params: Seq<ExprV>,
    args: Seq<ValueV>,
)
    requires
        store_ret_free(store),
        rets_free(args),
    ensures
        store_ret_free(bind_args(store, params, args)),
    decreases params.len(),
{
    if params.len() != 0 && args.len() != 0 {
        lemma_store_set_ret_free(store, spec_expr_string(params[0]), args[0]);
        lemma_bind_ret_free(
            store_set(store, spec_expr_string(params[0]), args[0]),
            params.drop_first(),
            args.drop_first(),
        );
    }
}

/// A built-in call with sentinel-free arguments yields a sentinel-free
/// value.
pub proof fn lemma_apply_builtin_ret_free(kind: BuiltinKind, args: Seq<ValueV>)
    requires
        rets_free(args),
    ensures
        spec_apply_builtin(kind, args).0 is Ok ==> ret_free(spec_apply_builtin(kind, args).0->Ok_0),
{
    lemma_rets_free_iff(args);
    if args.len() >= 1 {
        match args[0] {
            ValueV::Array(items) => {
                lemma_rets_free_iff(items);
                lemma_rets_free_iff(items.drop_first());
                lemma_rets_free_iff(items.drop_last());
                if args.len() == 2 {
                    lemma_rets_free_iff(items.push(args[1]));
                }
            },
            _ => {},
        }
    }
}

/// What one statement may yield: a sentinel-free value, or the sentinel
/// around a sentinel-free payload.
pub open spec fn stmt_val_ok(v: ValueV) -> bool {
    match v {
        ValueV::Return(x) => ret_free(*x),
        _ => ret_free(v),
    }
}

/// Evaluating an expression in a sentinel-free environment yields a
/// value with at most one sentinel layer, and keeps the environment
/// sentinel-free.
pub proof fn lemma_eval_expr_ret_free(e: ExprV, st: EvalSt, fuel: nat)
    requires
        env_ret_free(st.env),
    ensures
        env_ret_free(spec_eval_expr(e, st, fuel).1.env),
        spec_eval_expr(e, st, fuel).0 is Ok ==> stmt_val_ok(spec_eval_expr(e, st, fuel).0->Ok_0),
    decreases fuel, expr_size(e), 3int,
{
    match e {
        ExprV::IntegerLiteral(_) => {},
        ExprV::BooleanLiteral(_) => {},
        ExprV::StringLiteral(_) => {},
        ExprV::Identifier(name) => {
            if spec_get_builtin(name) is None {
                if crate::environment::env_lookup(st.env, name) is Some {
                    lemma_lookup_ret_free(st.env, name);
                }
            }
        },
        ExprV::PrefixExpression { operator, right } => {
            lemma_eval_expr_ret_free(*right, st, fuel);
        },
        ExprV::InfixExpression { left, operator, right } => {
            lemma_eval_expr_ret_free(*left, st, fuel);
            let (r1, st1) = spec_eval_expr(*left, st, fuel);
            if r1 is Ok {
                lemma_eval_expr_ret_free(*right, st1, fuel);
            }
        },
        ExprV::GroupedExpression { expression } => {
            lemma_eval_expr_ret_free(*expression, st, fuel);
        },
        ExprV::IfExpression { condition, consequence, alternative } => {
            lemma_eval_expr_ret_free(*condition, st, fuel);
            let (r1, st1) = spec_eval_expr(*condition, st, fuel);
            if r1 is Ok {
                if spec_is_truthy(r1->Ok_0) {
                    lemma_eval_block_ret_free(consequence, st1, fuel);
                } else {
                    match alternative {
                        Option::Some(alt) => {
                            lemma_eval_block_ret_free(alt, st1, fuel);
                        },
                        Option::None => {},
                    }
                }
            }
        },
        ExprV::FunctionLiteral { .. } => {},
        ExprV::CallExpression { function, arguments } => {
            lemma_eval_expr_ret_free(*function, st, fuel);
            let (r1, st1) = spec_eval_expr(*function, st, fuel);
            if r1 is Ok && !(r1->Ok_0 is Return) {
                lemma_eval_exprs_ret_free(arguments, st1, fuel);
                let (r2, st2) = spec_eval_exprs(arguments, st1, fuel);
                if r2 is Ok && r2->Ok_0 is Vals {
                    lemma_apply_ret_free(r1->Ok_0, r2->Ok_0->Vals_0, st2.out, fuel);
                }
            }
        },
        ExprV::ArrayLiteral(elements) => {
            lemma_eval_exprs_ret_free(elements, st, fuel);
        },
        ExprV::IndexExpression { left, index } => {
            lemma_eval_expr_ret_free(*left, st, fuel);
            let (r1, st1) = spec_eval_expr(*left, st, fuel);
            if r1 is Ok {
                lemma_eval_expr_ret_free(*index, st1, fuel);
                let (r2, st2) = spec_eval_expr(*index, st1, fuel);
                if r2 is Ok {
                    match (r1->Ok_0, r2->Ok_0) {
                        (ValueV::Array(items), ValueV::Integer(i)) => {
                            lemma_rets_free_iff(items);
                        },
                        _ => {},
                    }
                }
            }
        },
    }
}

/// Evaluating an expression list in a sentinel-free environment yields
/// sentinel-free values, or one escaping sentinel with a sentinel-free
/// payload, and keeps the environment sentinel-free.
pub proof fn lemma_eval_exprs_ret_free(es: Seq<ExprV>, st: EvalSt, fuel: nat)
    requires
        env_ret_free(st.env),
    ensures
        env_ret_free(spec_eval_exprs(es, st, fuel).1.env),
        spec_eval_exprs(es, st, fuel).0 is Ok ==> match spec_eval_exprs(es, st, fuel).0->Ok_0 {
            ListEval::Vals(vs) => rets_free(vs),
            ListEval::Escape(w) => stmt_val_ok(w) && w is Return,
        },
    decreases fuel, exprs_size(es), 3int,
{
    if es.len() != 0 {
        lemma_eval_expr_ret_free(es[0], st, fuel);
        let (r1, st1) = spec_eval_expr(es[0], st, fuel);
        if r1 is Ok && !(r1->Ok_0 is Return) {
            lemma_eval_exprs_ret_free(es.drop_first(), st1, fuel);
            let (r2, st2) = spec_eval_exprs(es.drop_first(), st1, fuel);
            if r2 is Ok && r2->Ok_0 is Vals {
                lemma_rets_free_iff(r2->Ok_0->Vals_0);
                lemma_rets_free_iff(seq![r1->Ok_0] + r2->Ok_0->Vals_0);
            }
        }
    }
}

/// Calling a sentinel-free function value on sentinel-free arguments
/// never yields the sentinel: the caller never observes a
/// `ReturnWrapper`.
pub proof fn lemma_apply_ret_free(f: ValueV, args: Seq<ValueV>, out: Seq<char>, fuel: nat)
    requires
        ret_free(f),
        rets_free(args),
    ensures
        spec_apply_function(f, args, out, fuel).0 is Ok ==> ret_free(
            spec_apply_function(f, args, out, fuel).0->Ok_0,
        ),
    decreases fuel, 0int, 1int,
{
    match f {
        ValueV::Function { parameters, body, environment } => {
            if parameters.len() == args.len() && fuel != 0 {
                lemma_bind_ret_free(Seq::<(Seq<char>, ValueV)>::empty(), parameters, args);
                let env2 = EnvV {
                    store: bind_args(Seq::<(Seq<char>, ValueV)>::empty(), parameters, args),
                    outer: Option::Some(environment),
                };
                lemma_eval_block_ret_free(body, EvalSt { env: env2, out }, (fuel - 1) as nat);
            }
        },
        ValueV::Builtin(k) => {
            lemma_apply_builtin_ret_free(k, args);
        },
        _ => {},
    }
}

/// Evaluating a statement in a sentinel-free environment yields at most
/// one sentinel layer and keeps the environment sentinel-free.
pub proof fn lemma_eval_stmt_ret_free(s: StmtV, st: EvalSt, fuel: nat)
    requires
        env_ret_free(st.env),
    ensures
        env_ret_free(spec_eval_stmt(s, st, fuel).1.env),
        spec_eval_stmt(s, st, fuel).0 is Ok ==> stmt_val_ok(spec_eval_stmt(s, st, fuel).0->Ok_0),
    decreases fuel, stmt_size(s), 2int,
{
    match s {
        StmtV::ExpressionStatement(e) => {
            lemma_eval_expr_ret_free(e, st, fuel);
        },
        StmtV::ReturnStatement { value } => {
            lemma_eval_expr_ret_free(value, st, fuel);
        },
        StmtV::LetStatement { identifier, value } => {
            if spec_get_builtin(identifier) is None {
                lemma_eval_expr_ret_free(value, st, fuel);
                let (r1, st1) = spec_eval_expr(value, st, fuel);
                if r1 is Ok && !(r1->Ok_0 is Return) {
                    lemma_store_set_ret_free(st1.env.store, identifier, r1->Ok_0);
                }
            }
        },
        StmtV::EmptyStatement => {},
    }
}

/// Evaluating a block propagates at most one sentinel layer and keeps
/// the environment sentinel-free: `return` passes through nested blocks
/// intact, to be unwrapped only at a call boundary.
pub proof fn lemma_eval_block_ret_free(ss: Seq<StmtV>, st: EvalSt, fuel: nat)
    requires
        env_ret_free(st.env),
    ensures
        env_ret_free(spec_eval_block(ss, st, fuel).1.env),
        spec_eval_block(ss, st, fuel).0 is Ok ==> stmt_val_ok(spec_eval_block(ss, st, fuel).0->Ok_0),
    decreases fuel, stmts_size(ss), 2int,
{
    if ss.len() != 0 {
        lemma_eval_stmt_ret_free(ss[0], st, fuel);
        let (r1, st1) = spec_eval_stmt(ss[0], st, fuel);
        if r1 is Ok && !(r1->Ok_0 is Return) && ss.len() > 1 {
            lemma_eval_block_ret_free(ss.drop_first(), st1, fuel);
        }
    }
}

/// A whole program in a sentinel-free environment yields a sentinel-free
/// value: the top-level driver unwraps any `return` in flight, so no
/// caller of [`eval`] ever observes a `ReturnWrapper`.
pub proof fn lemma_program_ret_free(ss: Seq<StmtV>, st: EvalSt, fuel: nat)
    requires
        env_ret_free(st.env),
    ensures
        env_ret_free(spec_eval_program(ss, st, fuel).1.env),
        spec_eval_program(ss, st, fuel).0 is Ok ==> ret_free(spec_eval_program(ss, st, fuel).0->Ok_0),
{
    lemma_eval_block_ret_free(ss, st, fuel);
}

} // verus!
