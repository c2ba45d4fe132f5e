//! The parser: a Pratt (top-down operator-precedence) parser turning
//! the token stream into a syntax tree.
//!
//! It keeps two tokens of context, `cur_token` and `peek_token`, and
//! pulls further tokens from the lexer as it goes.  Every parsing
//! function provably terminates: the measure [`pmeasure`] counts the
//! unread input plus the non-`EOF` tokens in the window, and each step
//! of the parser is verified never to increase it.  Error recovery is
//! by statement boundary: a failed statement is recorded and parsing
//! resumes at the next one, unless `stop_at_first_error` is set.

use vstd::prelude::*;
use crate::ast::{exprs_view, stmt_view, stmts_view, BlockStatement, Expression, ExprV, Program,
    Statement, StmtV};
use crate::ast::{lemma_stmts_view_index, lemma_stmts_view_len};
use crate::error::{errs_view, ErrV, EvaluatorError};
use crate::lexer::{lemma_next_token_at_end, lemma_next_token_progress, spec_next_token, Lexer,
    LexerV};
use crate::token::{spec_precedence_value, spec_token_precedence, spec_token_type_string,
    Precedence, Token, TokenType,
    TokenTypeV, TokenV};

verus! {

/// Zero for an `EOF` token, one for any other: the window's share of
/// the parser's termination measure.
pub open spec fn tok_nz(t: TokenV) -> int {
    if t.kind is EOF {
        0
    } else {
        1
    }
}

/// The parser's termination measure: unread characters count double,
/// and each non-`EOF` token still in the window counts once.
pub open spec fn pmeasure(p: Parser) -> int {
    2 * (p.lexer@.input.len() - p.lexer@.position) + tok_nz(p.cur_token@) + tok_nz(p.peek_token@)
}

/// The step relation every parsing function obeys: well-formedness and
/// the stop flag are preserved, the measure never grows, and a step
/// that leaves the window on `EOF` after starting off it has consumed
/// input.
pub open spec fn steps_ok(p0: Parser, p1: Parser) -> bool {
    &&& p1.wf()
    &&& p1.stop_at_first_error == p0.stop_at_first_error
    &&& pmeasure(p1) <= pmeasure(p0)
    &&& (p0.cur_token@.kind !is EOF && p1.cur_token@.kind is EOF) ==> pmeasure(p1) < pmeasure(p0)
}


/// Model of the parser state: the scanner and the two-token window.
pub struct PState {
    pub lexer: LexerV,
    pub cur: TokenV,
    pub peek: TokenV,
}

/// The model of a parser.
pub open spec fn pstate(p: Parser) -> PState {
    PState { lexer: p.lexer@, cur: p.cur_token@, peek: p.peek_token@ }
}

/// The termination measure over the model state; equals [`pmeasure`] of
/// the parser it models.
pub open spec fn spm(s: PState) -> int {
    2 * (s.lexer.input.len() - s.lexer.position) + tok_nz(s.cur) + tok_nz(s.peek)
}

/// The parser-mismatch error for a token.
pub open spec fn spec_expected(expected: Seq<char>, t: TokenV) -> ErrV {
    ErrV::UnexpectedToken {
        expected,
        actual: spec_token_type_string(t.kind),
        line: t.line,
        column: t.column,
    }
}

/// One window shift: the lookahead becomes current and the scanner
/// supplies a new lookahead; on a scanning error the lookahead is
/// duplicated into the current slot and the error is reported.
pub open spec fn spec_pnext(s: PState) -> (Result<(), ErrV>, PState) {
    let (tr, l1) = spec_next_token(s.lexer);
    match tr {
        Result::Ok(t) => (Result::Ok(()), PState { lexer: l1, cur: s.peek, peek: t }),
        Result::Err(e) => (Result::Err(e), PState { lexer: l1, cur: s.peek, peek: s.peek }),
    }
}

/// The numeric rank of the lookahead token's infix precedence.
pub open spec fn spec_peek_prec(s: PState) -> u8 {
    spec_precedence_value(spec_token_precedence(s.peek.kind))
}

/// Whether an executable expression result matches a modelled one.
pub open spec fn expr_res_matches(
    r: Result<Expression, EvaluatorError>,
    s: Result<ExprV, ErrV>,
) -> bool {
    match (r, s) {
        (Result::Ok(v), Result::Ok(vv)) => v@ == vv,
        (Result::Err(e), Result::Err(ev)) => e@ == ev,
        _ => false,
    }
}

/// Whether an executable statement result matches a modelled one.
pub open spec fn stmt_res_matches(
    r: Result<Statement, EvaluatorError>,
    s: Result<StmtV, ErrV>,
) -> bool {
    match (r, s) {
        (Result::Ok(v), Result::Ok(vv)) => v@ == vv,
        (Result::Err(e), Result::Err(ev)) => e@ == ev,
        _ => false,
    }
}

/// Whether an executable expression-list result matches a modelled one.
pub open spec fn exprs_res_matches(
    r: Result<Vec<Expression>, EvaluatorError>,
    s: Result<Seq<ExprV>, ErrV>,
) -> bool {
    match (r, s) {
        (Result::Ok(v), Result::Ok(vv)) => exprs_view(v@) == vv,
        (Result::Err(e), Result::Err(ev)) => e@ == ev,
        _ => false,
    }
}

/// Whether an executable block result matches a modelled one.
pub open spec fn block_res_matches(
    r: Result<BlockStatement, EvaluatorError>,
    s: Result<Seq<StmtV>, ErrV>,
) -> bool {
    match (r, s) {
        (Result::Ok(v), Result::Ok(vv)) => stmts_view(v@) == vv,
        (Result::Err(e), Result::Err(ev)) => e@ == ev,
        _ => false,
    }
}

// The spec-level parser below mirrors the executable one function for
// function.  Each recursive call is guarded by the measure [`spm`]; a
// guard that fails yields `UnknownError`, which the real parser never
// produces, and the executable functions are verified to follow these
// definitions exactly, so the guards provably never fire on a reachable
// state.

/// Parses a whole input against the model state; mirrors
/// [`Parser::parse_program`].
#[verifier::opaque]
pub open spec fn spec_parse_program(s: PState, stop: bool) -> (
    Result<Seq<StmtV>, Seq<ErrV>>,
    PState,
)
    decreases spm(s), 9int,
{
    if 0 <= spm(s) {
        spec_program_loop(s, stop, Seq::<StmtV>::empty(), Seq::<ErrV>::empty())
    } else {
        (Result::Err(seq![ErrV::UnknownError]), s)
    }
}

/// The statement loop of [`spec_parse_program`]: one statement per
/// round until the current token is `EOF`, empty statements dropped,
/// errors collected (or returned at once under `stop`).
#[verifier::opaque]
pub open spec fn spec_program_loop(
    s: PState,
    stop: bool,
    stmts: Seq<StmtV>,
    errs: Seq<ErrV>,
) -> (Result<Seq<StmtV>, Seq<ErrV>>, PState)
    decreases spm(s), 8int,
{
    if s.cur.kind is EOF {
        if errs.len() > 0 {
            (Result::Err(errs), s)
        } else {
            (Result::Ok(stmts), s)
        }
    } else {
        let (r1, s1) = spec_parse_statement(s);
        match r1 {
            Result::Ok(st) => {
                let stmts2 = if st is EmptyStatement {
                    stmts
                } else {
                    stmts.push(st)
                };
                let (rn, s2) = spec_pnext(s1);
                let errs2 = match rn {
                    Result::Ok(_) => errs,
                    Result::Err(e) => errs.push(e),
                };
                if 0 <= spm(s2) && spm(s2) < spm(s) {
                    spec_program_loop(s2, stop, stmts2, errs2)
                } else {
                    (Result::Err(seq![ErrV::UnknownError]), s2)
                }
            },
            Result::Err(e) => {
                let errs2 = errs.push(e);
                if stop {
                    (Result::Err(errs2), s1)
                } else {
                    let (rn, s2) = spec_pnext(s1);
                    let errs3 = match rn {
                        Result::Ok(_) => errs2,
                        Result::Err(e2) => errs2.push(e2),
                    };
                    if 0 <= spm(s2) && spm(s2) < spm(s) {
                        spec_program_loop(s2, stop, stmts, errs3)
                    } else {
                        (Result::Err(seq![ErrV::UnknownError]), s2)
                    }
                }
            },
        }
    }
}

/// Statement dispatch on the current token; mirrors
/// [`Parser::parse_statement`].
#[verifier::opaque]
pub open spec fn spec_parse_statement(s: PState) -> (Result<StmtV, ErrV>, PState)
    decreases spm(s), 6int,
{
    match s.cur.kind {
        TokenTypeV::LET => spec_parse_let_statement(s),
        TokenTypeV::RETURN => spec_parse_return_statement(s),
        TokenTypeV::SEMICOLON => (Result::Ok(StmtV::EmptyStatement), s),
        _ => spec_parse_expression_statement(s),
    }
}

/// `let IDENT = expression ;`; mirrors
/// [`Parser::parse_let_statement`].
#[verifier::opaque]
pub open spec fn spec_parse_let_statement(s: PState) -> (Result<StmtV, ErrV>, PState)
    decreases spm(s), 5int,
{
    if !(s.peek.kind is IDENT) {
        (Result::Err(spec_expected("IDENT"@, s.peek)), s)
    } else {
        let (r1, s1) = spec_pnext(s);
        if r1 is Err {
            (Result::Err(r1->Err_0), s1)
        } else {
            let name = s1.cur.kind->IDENT_0;
            if !(s1.peek.kind is ASSIGN) {
                (Result::Err(spec_expected("="@, s1.peek)), s1)
            } else {
                let (r2, s2) = spec_pnext(s1);
                if r2 is Err {
                    (Result::Err(r2->Err_0), s2)
                } else {
                    let (r3, s3) = spec_pnext(s2);
                    if r3 is Err {
                        (Result::Err(r3->Err_0), s3)
                    } else if 0 <= spm(s3) && spm(s3) < spm(s) {
                        let (r4, s4) = spec_parse_expression(s3, Precedence::LOWEST);
                        match r4 {
                            Result::Ok(value) => if !(s4.peek.kind is SEMICOLON) {
                                (Result::Err(spec_expected(";"@, s4.peek)), s4)
                            } else {
                                (
                                    Result::Ok(
                                        StmtV::LetStatement { identifier: name, value },
                                    ),
                                    s4,
                                )
                            },
                            Result::Err(e) => (Result::Err(e), s4),
                        }
                    } else {
                        (Result::Err(ErrV::UnknownError), s3)
                    }
                }
            }
        }
    }
}

/// `return expression ;`; mirrors
/// [`Parser::parse_return_statement`].
#[verifier::opaque]
pub open spec fn spec_parse_return_statement(s: PState) -> (Result<StmtV, ErrV>, PState)
    decreases spm(s), 5int,
{
    let (r1, s1) = spec_pnext(s);
    if r1 is Err {
        (Result::Err(r1->Err_0), s1)
    } else if 0 <= spm(s1) && spm(s1) < spm(s) {
        let (r2, s2) = spec_parse_expression(s1, Precedence::LOWEST);
        match r2 {
            Result::Ok(value) => if !(s2.peek.kind is SEMICOLON) {
                (Result::Err(spec_expected(";"@, s2.peek)), s2)
            } else {
                (Result::Ok(StmtV::ReturnStatement { value }), s2)
            },
            Result::Err(e) => (Result::Err(e), s2),
        }
    } else {
        (Result::Err(ErrV::UnknownError), s1)
    }
}

/// An expression statement, with a trailing semicolon under the
/// current token absorbed; mirrors
/// [`Parser::parse_expression_statement`].
#[verifier::opaque]
pub open spec fn spec_parse_expression_statement(s: PState) -> (Result<StmtV, ErrV>, PState)
    decreases spm(s), 5int,
{
    let (r1, s1) = spec_parse_expression(s, Precedence::LOWEST);
    match r1 {
        Result::Ok(e) => if s1.cur.kind is SEMICOLON {
            let (rn, s2) = spec_pnext(s1);
            match rn {
                Result::Ok(_) => (Result::Ok(StmtV::ExpressionStatement(e)), s2),
                Result::Err(e2) => (Result::Err(e2), s2),
            }
        } else {
            (Result::Ok(StmtV::ExpressionStatement(e)), s1)
        },
        Result::Err(e) => (Result::Err(e), s1),
    }
}

/// `{ statements }` up to the closing brace; mirrors
/// [`Parser::parse_block_statement`].
#[verifier::opaque]
pub open spec fn spec_parse_block_statement(s: PState) -> (Result<Seq<StmtV>, ErrV>, PState)
    decreases spm(s), 8int,
{
    let (r1, s1) = spec_pnext(s);
    if r1 is Err {
        (Result::Err(r1->Err_0), s1)
    } else if 0 <= spm(s1) && spm(s1) < spm(s) {
        spec_block_loop(s1, Seq::<StmtV>::empty())
    } else {
        (Result::Err(ErrV::UnknownError), s1)
    }
}

/// The statement loop of a block: until `}`, or the end of input,
/// which is an unmatched-brace error.
#[verifier::opaque]
pub open spec fn spec_block_loop(s: PState, stmts: Seq<StmtV>) -> (
    Result<Seq<StmtV>, ErrV>,
    PState,
)
    decreases spm(s), 7int,
{
    if s.cur.kind is RBRACE {
        (Result::Ok(stmts), s)
    } else if s.cur.kind is EOF {
        (Result::Err(spec_expected("}"@, s.cur)), s)
    } else {
        let (r1, s1) = spec_parse_statement(s);
        match r1 {
            Result::Ok(st) => {
                let stmts2 = if st is EmptyStatement {
                    stmts
                } else {
                    stmts.push(st)
                };
                let (rn, s2) = spec_pnext(s1);
                match rn {
                    Result::Ok(_) => if 0 <= spm(s2) && spm(s2) < spm(s) {
                        spec_block_loop(s2, stmts2)
                    } else {
                        (Result::Err(ErrV::UnknownError), s2)
                    },
                    Result::Err(e) => (Result::Err(e), s2),
                }
            },
            Result::Err(e) => (Result::Err(e), s1),
        }
    }
}

/// Pratt expression parsing: a prefix form for the current token, then
/// the infix loop; mirrors [`Parser::parse_expression`].
#[verifier::opaque]
pub open spec fn spec_parse_expression(s: PState, precedence: Precedence) -> (
    Result<ExprV, ErrV>,
    PState,
)
    decreases spm(s), 4int,
{
    let (r1, s1) = match s.cur.kind {
        TokenTypeV::INT(v) => (Result::Ok(ExprV::IntegerLiteral(v)), s),
        TokenTypeV::STRING(v) => (Result::Ok(ExprV::StringLiteral(v)), s),
        TokenTypeV::IDENT(v) => (Result::Ok(ExprV::Identifier(v)), s),
        TokenTypeV::BANG => spec_parse_prefix_expression(s),
        TokenTypeV::PLUS => spec_parse_prefix_expression(s),
        TokenTypeV::MINUS => spec_parse_prefix_expression(s),
        TokenTypeV::TRUE => (Result::Ok(ExprV::BooleanLiteral(true)), s),
        TokenTypeV::FALSE => (Result::Ok(ExprV::BooleanLiteral(false)), s),
        TokenTypeV::LPAREN => spec_parse_grouped_expression(s),
        TokenTypeV::IF => spec_parse_if_expression(s),
        TokenTypeV::FUNCTION => spec_parse_function_literal(s),
        TokenTypeV::LBRACKET => spec_parse_array_literal(s),
        _ => (Result::Err(spec_expected("Expression"@, s.cur)), s),
    };
    match r1 {
        Result::Ok(left) => if 0 <= spm(s1) && spm(s1) <= spm(s) {
            spec_infix_loop(s1, left, precedence)
        } else {
            (Result::Err(ErrV::UnknownError), s1)
        },
        Result::Err(e) => (Result::Err(e), s1),
    }
}

/// The infix loop: folds infix operators, calls and index forms onto
/// `left` while the lookahead binds tighter than `precedence`.
#[verifier::opaque]
pub open spec fn spec_infix_loop(s: PState, left: ExprV, precedence: Precedence) -> (
    Result<ExprV, ErrV>,
    PState,
)
    decreases spm(s), 3int,
{
    if s.peek.kind is SEMICOLON || spec_precedence_value(precedence) >= spec_peek_prec(s) {
        (Result::Ok(left), s)
    } else {
        match s.peek.kind {
            TokenTypeV::PLUS | TokenTypeV::MINUS | TokenTypeV::SLASH | TokenTypeV::ASTERISK
                | TokenTypeV::EQ | TokenTypeV::NOT_EQ | TokenTypeV::LT | TokenTypeV::GT
                | TokenTypeV::LTE | TokenTypeV::GTE => {
                let (rn, s1) = spec_pnext(s);
                match rn {
                    Result::Ok(_) => if 0 <= spm(s1) && spm(s1) <= spm(s) {
                        let (r2, s2) = spec_parse_infix_expression(s1, left);
                        match r2 {
                            Result::Ok(folded) => if 0 <= spm(s2) && spm(s2) < spm(s) {
                                spec_infix_loop(s2, folded, precedence)
                            } else {
                                (Result::Err(ErrV::UnknownError), s2)
                            },
                            Result::Err(e) => (Result::Err(e), s2),
                        }
                    } else {
                        (Result::Err(ErrV::UnknownError), s1)
                    },
                    Result::Err(e) => (Result::Err(e), s1),
                }
            },
            TokenTypeV::LPAREN => {
                let (rn, s1) = spec_pnext(s);
                match rn {
                    Result::Ok(_) => if 0 <= spm(s1) && spm(s1) <= spm(s) {
                        let (r2, s2) = spec_parse_call_expression(s1, left);
                        match r2 {
                            Result::Ok(folded) => if 0 <= spm(s2) && spm(s2) < spm(s) {
                                spec_infix_loop(s2, folded, precedence)
                            } else {
                                (Result::Err(ErrV::UnknownError), s2)
                            },
                            Result::Err(e) => (Result::Err(e), s2),
                        }
                    } else {
                        (Result::Err(ErrV::UnknownError), s1)
                    },
                    Result::Err(e) => (Result::Err(e), s1),
                }
            },
            TokenTypeV::LBRACKET => {
                let (rn, s1) = spec_pnext(s);
                match rn {
                    Result::Ok(_) => if 0 <= spm(s1) && spm(s1) <= spm(s) {
                        let (r2, s2) = spec_parse_index_expression(s1, left);
                        match r2 {
                            Result::Ok(folded) => if 0 <= spm(s2) && spm(s2) < spm(s) {
                                spec_infix_loop(s2, folded, precedence)
                            } else {
                                (Result::Err(ErrV::UnknownError), s2)
                            },
                            Result::Err(e) => (Result::Err(e), s2),
                        }
                    } else {
                        (Result::Err(ErrV::UnknownError), s1)
                    },
                    Result::Err(e) => (Result::Err(e), s1),
                }
            },
            _ => (Result::Ok(left), s),
        }
    }
}

/// A prefix operator and its operand at `PREFIX` precedence; mirrors
/// [`Parser::parse_prefix_expression`].
#[verifier::opaque]
pub open spec fn spec_parse_prefix_expression(s: PState) -> (Result<ExprV, ErrV>, PState)
    decreases spm(s), 1int,
{
    let operator = spec_token_type_string(s.cur.kind);
    let (rn, s1) = spec_pnext(s);
    match rn {
        Result::Ok(_) => if 0 <= spm(s1) && spm(s1) < spm(s) {
            let (r2, s2) = spec_parse_expression(s1, Precedence::PREFIX);
            match r2 {
                Result::Ok(right) => (
                    Result::Ok(
                        ExprV::PrefixExpression { operator, right: Box::new(right) },
                    ),
                    s2,
                ),
                Result::Err(e) => (Result::Err(e), s2),
            }
        } else {
            (Result::Err(ErrV::UnknownError), s1)
        },
        Result::Err(e) => (Result::Err(e), s1),
    }
}

/// `( expression )`; mirrors [`Parser::parse_grouped_expression`].
#[verifier::opaque]
pub open spec fn spec_parse_grouped_expression(s: PState) -> (Result<ExprV, ErrV>, PState)
    decreases spm(s), 1int,
{
    let (rn, s1) = spec_pnext(s);
    match rn {
        Result::Ok(_) => if 0 <= spm(s1) && spm(s1) < spm(s) {
            let (r2, s2) = spec_parse_expression(s1, Precedence::LOWEST);
            match r2 {
                Result::Ok(e) => if !(s2.peek.kind is RPAREN) {
                    (Result::Err(spec_expected(")"@, s2.peek)), s2)
                } else {
                    let (rn2, s3) = spec_pnext(s2);
                    match rn2 {
                        Result::Ok(_) => (Result::Ok(e), s3),
                        Result::Err(e2) => (Result::Err(e2), s3),
                    }
                },
                Result::Err(e) => (Result::Err(e), s2),
            }
        } else {
            (Result::Err(ErrV::UnknownError), s1)
        },
        Result::Err(e) => (Result::Err(e), s1),
    }
}

/// `if ( condition ) { consequence }` with an optional
/// `else { alternative }`; mirrors [`Parser::parse_if_expression`].
#[verifier::opaque]
pub open spec fn spec_parse_if_expression(s: PState) -> (Result<ExprV, ErrV>, PState)
    decreases spm(s), 2int,
{
    if !(s.peek.kind is LPAREN) {
        (Result::Err(spec_expected("("@, s.peek)), s)
    } else {
        let (rn1, s1) = spec_pnext(s);
        if rn1 is Err {
            (Result::Err(rn1->Err_0), s1)
        } else {
            let (rn2, s2) = spec_pnext(s1);
            if rn2 is Err {
                (Result::Err(rn2->Err_0), s2)
            } else if 0 <= spm(s2) && spm(s2) < spm(s) {
                let (rc, s3) = spec_parse_expression(s2, Precedence::LOWEST);
                match rc {
                    Result::Ok(condition) => if !(s3.peek.kind is RPAREN) {
                        (Result::Err(spec_expected(")"@, s3.peek)), s3)
                    } else {
                        let (rn3, s4) = spec_pnext(s3);
                        if rn3 is Err {
                            (Result::Err(rn3->Err_0), s4)
                        } else if !(s4.peek.kind is LBRACE) {
                            (Result::Err(spec_expected("{"@, s4.peek)), s4)
                        } else {
                            let (rn4, s5) = spec_pnext(s4);
                            if rn4 is Err {
                                (Result::Err(rn4->Err_0), s5)
                            } else if 0 <= spm(s5) && spm(s5) < spm(s) {
                                let (rb, s6) = spec_parse_block_statement(s5);
                                match rb {
                                    Result::Ok(consequence) => if 0 <= spm(s6) && spm(s6) < spm(
                                        s,
                                    ) {
                                        spec_parse_else(s6, condition, consequence)
                                    } else {
                                        (Result::Err(ErrV::UnknownError), s6)
                                    },
                                    Result::Err(e) => (Result::Err(e), s6),
                                }
                            } else {
                                (Result::Err(ErrV::UnknownError), s5)
                            }
                        }
                    },
                    Result::Err(e) => (Result::Err(e), s3),
                }
            } else {
                (Result::Err(ErrV::UnknownError), s2)
            }
        }
    }
}

/// The optional `else { alternative }` tail of an `if` expression.
#[verifier::opaque]
pub open spec fn spec_parse_else(s: PState, condition: ExprV, consequence: Seq<StmtV>) -> (
    Result<ExprV, ErrV>,
    PState,
)
    decreases spm(s), 1int,
{
    if !(s.peek.kind is ELSE) {
        (
            Result::Ok(
                ExprV::IfExpression {
                    condition: Box::new(condition),
                    consequence,
                    alternative: Option::None,
                },
            ),
            s,
        )
    } else {
        let (rn1, s1) = spec_pnext(s);
        if rn1 is Err {
            (Result::Err(rn1->Err_0), s1)
        } else if !(s1.peek.kind is LBRACE) {
            (Result::Err(spec_expected("{"@, s1.peek)), s1)
        } else {
            let (rn2, s2) = spec_pnext(s1);
            if rn2 is Err {
                (Result::Err(rn2->Err_0), s2)
            } else if 0 <= spm(s2) && spm(s2) < spm(s) {
                let (rb, s3) = spec_parse_block_statement(s2);
                match rb {
                    Result::Ok(alternative) => (
                        Result::Ok(
                            ExprV::IfExpression {
                                condition: Box::new(condition),
                                consequence,
                                alternative: Option::Some(alternative),
                            },
                        ),
                        s3,
                    ),
                    Result::Err(e) => (Result::Err(e), s3),
                }
            } else {
                (Result::Err(ErrV::UnknownError), s2)
            }
        }
    }
}

/// The right operand of an infix operator, folded with `left`; mirrors
/// [`Parser::parse_infix_expression`].
#[verifier::opaque]
pub open spec fn spec_parse_infix_expression(s: PState, left: ExprV) -> (
    Result<ExprV, ErrV>,
    PState,
)
    decreases spm(s), 1int,
{
    let operator = spec_token_type_string(s.cur.kind);
    let precedence = spec_token_precedence(s.cur.kind);
    let (rn, s1) = spec_pnext(s);
    match rn {
        Result::Ok(_) => if 0 <= spm(s1) && spm(s1) < spm(s) {
            let (r2, s2) = spec_parse_expression(s1, precedence);
            match r2 {
                Result::Ok(right) => (
                    Result::Ok(
                        ExprV::InfixExpression {
                            left: Box::new(left),
                            operator,
                            right: Box::new(right),
                        },
                    ),
                    s2,
                ),
                Result::Err(e) => (Result::Err(e), s2),
            }
        } else {
            (Result::Err(ErrV::UnknownError), s1)
        },
        Result::Err(e) => (Result::Err(e), s1),
    }
}

/// A call's argument list folded onto the callee; mirrors
/// [`Parser::parse_call_expression`].
#[verifier::opaque]
pub open spec fn spec_parse_call_expression(s: PState, function: ExprV) -> (
    Result<ExprV, ErrV>,
    PState,
)
    decreases spm(s), 2int,
{
    let (r1, s1) = spec_parse_call_arguments(s);
    match r1 {
        Result::Ok(arguments) => (
            Result::Ok(
                ExprV::CallExpression { function: Box::new(function), arguments },
            ),
            s1,
        ),
        Result::Err(e) => (Result::Err(e), s1),
    }
}

/// A possibly empty, comma-separated argument list up to `)`; mirrors
/// [`Parser::parse_call_arguments`].
#[verifier::opaque]
pub open spec fn spec_parse_call_arguments(s: PState) -> (Result<Seq<ExprV>, ErrV>, PState)
    decreases spm(s), 1int,
{
    if s.peek.kind is RPAREN {
        let (rn, s1) = spec_pnext(s);
        match rn {
            Result::Ok(_) => (Result::Ok(Seq::<ExprV>::empty()), s1),
            Result::Err(e) => (Result::Err(e), s1),
        }
    } else {
        spec_parse_expression_list(s, false)
    }
}

/// `fn ( parameters ) { body }`; mirrors
/// [`Parser::parse_function_literal`].
#[verifier::opaque]
pub open spec fn spec_parse_function_literal(s: PState) -> (Result<ExprV, ErrV>, PState)
    decreases spm(s), 2int,
{
    if !(s.peek.kind is LPAREN) {
        (Result::Err(spec_expected("("@, s.peek)), s)
    } else {
        let (rn1, s1) = spec_pnext(s);
        if rn1 is Err {
            (Result::Err(rn1->Err_0), s1)
        } else if 0 <= spm(s1) && spm(s1) < spm(s) {
            let (rp, s2) = spec_parse_function_parameters(s1);
            match rp {
                Result::Ok(parameters) => if !(s2.peek.kind is LBRACE) {
                    (Result::Err(spec_expected("{"@, s2.peek)), s2)
                } else {
                    let (rn2, s3) = spec_pnext(s2);
                    if rn2 is Err {
                        (Result::Err(rn2->Err_0), s3)
                    } else if 0 <= spm(s3) && spm(s3) < spm(s) {
                        let (rb, s4) = spec_parse_block_statement(s3);
                        match rb {
                            Result::Ok(body) => (
                                Result::Ok(ExprV::FunctionLiteral { parameters, body }),
                                s4,
                            ),
                            Result::Err(e) => (Result::Err(e), s4),
                        }
                    } else {
                        (Result::Err(ErrV::UnknownError), s3)
                    }
                },
                Result::Err(e) => (Result::Err(e), s2),
            }
        } else {
            (Result::Err(ErrV::UnknownError), s1)
        }
    }
}

/// A possibly empty, comma-separated identifier list up to `)`;
/// mirrors [`Parser::parse_function_parameters`].
#[verifier::opaque]
pub open spec fn spec_parse_function_parameters(s: PState) -> (Result<Seq<ExprV>, ErrV>, PState)
    decreases spm(s), 1int,
{
    if s.peek.kind is RPAREN {
        let (rn, s1) = spec_pnext(s);
        match rn {
            Result::Ok(_) => (Result::Ok(Seq::<ExprV>::empty()), s1),
            Result::Err(e) => (Result::Err(e), s1),
        }
    } else {
        let (rn, s1) = spec_pnext(s);
        match rn {
            Result::Ok(_) => match s1.cur.kind {
                TokenTypeV::IDENT(name) => if 0 <= spm(s1) && spm(s1) < spm(s) {
                    spec_params_loop(s1, seq![ExprV::Identifier(name)])
                } else {
                    (Result::Err(ErrV::UnknownError), s1)
                },
                _ => (Result::Err(spec_expected("identifier"@, s1.cur)), s1),
            },
            Result::Err(e) => (Result::Err(e), s1),
        }
    }
}

/// The comma loop of a parameter list, then the closing `)`.
#[verifier::opaque]
pub open spec fn spec_params_loop(s: PState, acc: Seq<ExprV>) -> (Result<Seq<ExprV>, ErrV>, PState)
    decreases spm(s), 0int,
{
    if !(s.peek.kind is COMMA) {
        if !(s.peek.kind is RPAREN) {
            (Result::Err(spec_expected(")"@, s.peek)), s)
        } else {
            let (rn, s1) = spec_pnext(s);
            match rn {
                Result::Ok(_) => (Result::Ok(acc), s1),
                Result::Err(e) => (Result::Err(e), s1),
            }
        }
    } else {
        let (rn1, s1) = spec_pnext(s);
        if rn1 is Err {
            (Result::Err(rn1->Err_0), s1)
        } else {
            let (rn2, s2) = spec_pnext(s1);
            if rn2 is Err {
                (Result::Err(rn2->Err_0), s2)
            } else {
                match s2.cur.kind {
                    TokenTypeV::IDENT(name) => if 0 <= spm(s2) && spm(s2) < spm(s) {
                        spec_params_loop(s2, acc.push(ExprV::Identifier(name)))
                    } else {
                        (Result::Err(ErrV::UnknownError), s2)
                    },
                    _ => (Result::Err(spec_expected("identifier"@, s2.cur)), s2),
                }
            }
        }
    }
}

/// `[ elements ]`; mirrors [`Parser::parse_array_literal`].
#[verifier::opaque]
pub open spec fn spec_parse_array_literal(s: PState) -> (Result<ExprV, ErrV>, PState)
    decreases spm(s), 2int,
{
    let (r1, s1) = spec_parse_expression_list(s, true);
    match r1 {
        Result::Ok(elements) => (Result::Ok(ExprV::ArrayLiteral(elements)), s1),
        Result::Err(e) => (Result::Err(e), s1),
    }
}

/// A possibly empty, comma-separated expression list up to the closing
/// `]` (or `)` for call arguments); mirrors
/// [`Parser::parse_expression_list`].
#[verifier::opaque]
pub open spec fn spec_parse_expression_list(s: PState, bracket_end: bool) -> (
    Result<Seq<ExprV>, ErrV>,
    PState,
)
    decreases spm(s), 0int,
{
    let peek_is_end = if bracket_end {
        s.peek.kind is RBRACKET
    } else {
        s.peek.kind is RPAREN
    };
    if peek_is_end {
        let (rn, s1) = spec_pnext(s);
        match rn {
            Result::Ok(_) => (Result::Ok(Seq::<ExprV>::empty()), s1),
            Result::Err(e) => (Result::Err(e), s1),
        }
    } else {
        let (rn, s1) = spec_pnext(s);
        match rn {
            Result::Ok(_) => if 0 <= spm(s1) && spm(s1) < spm(s) {
                let (r2, s2) = spec_parse_expression(s1, Precedence::LOWEST);
                match r2 {
                    Result::Ok(first) => if 0 <= spm(s2) && spm(s2) < spm(s) {
                        spec_expr_list_loop(s2, seq![first], bracket_end)
                    } else {
                        (Result::Err(ErrV::UnknownError), s2)
                    },
                    Result::Err(e) => (Result::Err(e), s2),
                }
            } else {
                (Result::Err(ErrV::UnknownError), s1)
            },
            Result::Err(e) => (Result::Err(e), s1),
        }
    }
}

/// The comma loop of an expression list, then the end token.
#[verifier::opaque]
pub open spec fn spec_expr_list_loop(s: PState, acc: Seq<ExprV>, bracket_end: bool) -> (
    Result<Seq<ExprV>, ErrV>,
    PState,
)
    decreases spm(s), 0int,
{
    if !(s.peek.kind is COMMA) {
        let peek_is_end = if bracket_end {
            s.peek.kind is RBRACKET
        } else {
            s.peek.kind is RPAREN
        };
        if !peek_is_end {
            (Result::Err(spec_expected("]"@, s.peek)), s)
        } else {
            let (rn, s1) = spec_pnext(s);
            match rn {
                Result::Ok(_) => (Result::Ok(acc), s1),
                Result::Err(e) => (Result::Err(e), s1),
            }
        }
    } else {
        let (rn1, s1) = spec_pnext(s);
        if rn1 is Err {
            (Result::Err(rn1->Err_0), s1)
        } else {
            let (rn2, s2) = spec_pnext(s1);
            if rn2 is Err {
                (Result::Err(rn2->Err_0), s2)
            } else if 0 <= spm(s2) && spm(s2) < spm(s) {
                let (r3, s3) = spec_parse_expression(s2, Precedence::LOWEST);
                match r3 {
                    Result::Ok(e) => if 0 <= spm(s3) && spm(s3) < spm(s) {
                        spec_expr_list_loop(s3, acc.push(e), bracket_end)
                    } else {
                        (Result::Err(ErrV::UnknownError), s3)
                    },
                    Result::Err(e) => (Result::Err(e), s3),
                }
            } else {
                (Result::Err(ErrV::UnknownError), s2)
            }
        }
    }
}

/// `[ index ]` folded onto an indexable expression; mirrors
/// [`Parser::parse_index_expression`].
#[verifier::opaque]
pub open spec fn spec_parse_index_expression(s: PState, left: ExprV) -> (
    Result<ExprV, ErrV>,
    PState,
)
    decreases spm(s), 1int,
{
    let (rn, s1) = spec_pnext(s);
    match rn {
        Result::Ok(_) => if 0 <= spm(s1) && spm(s1) < spm(s) {
            let (r2, s2) = spec_parse_expression(s1, Precedence::LOWEST);
            match r2 {
                Result::Ok(index) => if !(s2.peek.kind is RBRACKET) {
                    (Result::Err(spec_expected("]"@, s2.peek)), s2)
                } else {
                    let (rn2, s3) = spec_pnext(s2);
                    match rn2 {
                        Result::Ok(_) => (
                            Result::Ok(
                                ExprV::IndexExpression {
                                    left: Box::new(left),
                                    index: Box::new(index),
                                },
                            ),
                            s3,
                        ),
                        Result::Err(e) => (Result::Err(e), s3),
                    }
                },
                Result::Err(e) => (Result::Err(e), s2),
            }
        } else {
            (Result::Err(ErrV::UnknownError), s1)
        },
        Result::Err(e) => (Result::Err(e), s1),
    }
}

/// The Pratt parser over a lexer, with its two-token window.
#[derive(Debug)]
pub struct Parser {
    pub lexer: Lexer,
    pub cur_token: Token,
    pub peek_token: Token,
    /// Injected configuration: report only the first parse error.
    pub stop_at_first_error: bool,
}

impl Parser {
    /// Well-formedness: the lexer is well formed.
    pub open spec fn wf(&self) -> bool {
        self.lexer.wf()
    }

    /// A parser primed with the first two tokens of the lexer's input.
    /// A lexing error in those tokens surfaces here.
    pub fn new(lexer: Lexer) -> (r: Result<Parser, EvaluatorError>)
        requires
            lexer.wf(),
        ensures
            r is Ok ==> r->Ok_0.wf() && !r->Ok_0.stop_at_first_error,
            ({
                let s0 = PState {
                    lexer: lexer@,
                    cur: TokenV { kind: TokenTypeV::EOF, line: 0, column: 0 },
                    peek: TokenV { kind: TokenTypeV::EOF, line: 0, column: 0 },
                };
                let (r1, s1) = spec_pnext(s0);
                match r1 {
                    Result::Err(e1) => r is Err && r->Err_0@ == e1,
                    Result::Ok(_) => {
                        let (r2, s2) = spec_pnext(s1);
                        match r2 {
                            Result::Err(e2) => r is Err && r->Err_0@ == e2,
                            Result::Ok(_) => r is Ok && pstate(r->Ok_0) == s2,
                        }
                    },
                }
            }),
    {
        let mut parser = Parser {
            lexer,
            cur_token: Token::with_type(TokenType::EOF),
            peek_token: Token::with_type(TokenType::EOF),
            stop_at_first_error: false,
        };
        match parser.next_token() {
            Result::Ok(_) => {},
            Result::Err(e) => {
                return Result::Err(e);
            },
        }
        match parser.next_token() {
            Result::Ok(_) => {},
            Result::Err(e) => {
                return Result::Err(e);
            },
        }
        Result::Ok(parser)
    }

    /// Re-arms the parser over a new input line.  A lexing error in the
    /// first two tokens surfaces here.
    pub fn reset(&mut self, input: String) -> (r: Result<(), EvaluatorError>)
        requires
            old(self).wf(),
            input@.len() + 16 < 0x1_0000_0000,
        ensures
            final(self).wf(),
            final(self).stop_at_first_error == old(self).stop_at_first_error,
            ({
                let s0 = PState {
                    lexer: crate::lexer::spec_new_lexer(input@),
                    cur: old(self).cur_token@,
                    peek: old(self).peek_token@,
                };
                let (r1, s1) = spec_pnext(s0);
                match r1 {
                    Result::Err(e1) => r is Err && r->Err_0@ == e1,
                    Result::Ok(_) => {
                        let (r2, s2) = spec_pnext(s1);
                        match r2 {
                            Result::Err(e2) => r is Err && r->Err_0@ == e2,
                            Result::Ok(_) => r is Ok && pstate(*final(self)) == s2,
                        }
                    },
                }
            }),
    {
        self.lexer.reset(input);
        match self.next_token() {
            Result::Ok(_) => {},
            Result::Err(e) => {
                return Result::Err(e);
            },
        }
        match self.next_token() {
            Result::Ok(_) => {},
            Result::Err(e) => {
                return Result::Err(e);
            },
        }
        Result::Ok(())
    }

    /// The parser-mismatch error for the lookahead token.
    fn expected_error_peek(&self, expected: &str) -> (r: EvaluatorError)
        ensures
            r@ == (ErrV::UnexpectedToken {
                expected: expected@,
                actual: spec_token_type_string(self.peek_token@.kind),
                line: self.peek_token@.line,
                column: self.peek_token@.column,
            }),
    {
        let actual = self.peek_token.kind.to_display_string();
        EvaluatorError::expected_token(
            expected,
            actual.as_str(),
            self.peek_token.line,
            self.peek_token.column,
        )
    }

    /// The parser-mismatch error for the current token.
    fn expected_error_curr(&self, expected: &str) -> (r: EvaluatorError)
        ensures
            r@ == (ErrV::UnexpectedToken {
                expected: expected@,
                actual: spec_token_type_string(self.cur_token@.kind),
                line: self.cur_token@.line,
                column: self.cur_token@.column,
            }),
    {
        let actual = self.cur_token.kind.to_display_string();
        EvaluatorError::expected_token(
            expected,
            actual.as_str(),
            self.cur_token.line,
            self.cur_token.column,
        )
    }

    /// The infix precedence of the lookahead token.
    fn peek_precedence(&self) -> (r: Precedence)
        ensures
            r == spec_token_precedence(self.peek_token@.kind),
    {
        self.peek_token.to_precedence()
    }

    /// Shifts the window one token: the lookahead becomes current, and
    /// the lexer supplies a new lookahead.  On a lexing error the
    /// lookahead is left as it was and the error is returned.  The
    /// measure never grows, and shrinks whenever the consumed token was
    /// not `EOF`.
    pub fn next_token(&mut self) -> (r: Result<(), EvaluatorError>)
        requires
            old(self).wf(),
        ensures
            final(self).wf(),
            final(self).stop_at_first_error == old(self).stop_at_first_error,
            final(self).cur_token@ == old(self).peek_token@,
            pmeasure(*final(self)) <= pmeasure(*old(self)),
            old(self).cur_token@.kind !is EOF ==> pmeasure(*final(self)) < pmeasure(*old(self)),
            r is Err ==> final(self).peek_token@ == old(self).peek_token@,
            ({
                let (r_s, s1) = spec_pnext(pstate(*old(self)));
                &&& pstate(*final(self)) == s1
                &&& match (r, r_s) {
                    (Result::Ok(_), Result::Ok(_)) => true,
                    (Result::Err(e), Result::Err(ev)) => e@ == ev,
                    _ => false,
                }
            }),
    {
        proof {
            if old(self).lexer@.position == old(self).lexer@.input.len() {
                lemma_next_token_at_end(old(self).lexer@);
            }
            lemma_next_token_progress(old(self).lexer@);
        }
        let t = self.lexer.next_token();
        match t {
            Result::Ok(tok) => {
                core::mem::swap(&mut self.cur_token, &mut self.peek_token);
                self.peek_token = tok;
                Result::Ok(())
            },
            Result::Err(e) => {
                let c = self.peek_token.clone();
                self.cur_token = c;
                Result::Err(e)
            },
        }
    }

    /// Parses the whole input: while the current token is not `EOF`,
    /// parses one statement per round, skipping empty statements and
    /// collecting errors.  On success the program holds no empty
    /// statement; on failure at least one error is reported, and
    /// exactly one when `stop_at_first_error` is set.
    #[verifier::rlimit(100)]
    #[verifier::spinoff_prover]
    pub fn parse_program(&mut self) -> (r: Result<Program, Vec<EvaluatorError>>)
        requires
            old(self).wf(),
        ensures
            final(self).wf(),
            r is Ok ==> forall|i: int|
                0 <= i < r->Ok_0@.len() ==> !((#[trigger] r->Ok_0@[i]) is EmptyStatement),
            r is Err ==> r->Err_0@.len() >= 1,
            ({
                let (r_s, s1) = spec_parse_program(
                    pstate(*old(self)),
                    old(self).stop_at_first_error,
                );
                &&& pstate(*final(self)) == s1
                &&& match (r, r_s) {
                    (Result::Ok(p), Result::Ok(vv)) => p@ == vv,
                    (Result::Err(es), Result::Err(ev)) => errs_view(es@) == ev,
                    _ => false,
                }
            }),
    {
        proof { reveal(spec_parse_program); }
        proof { reveal(spec_program_loop); }
        broadcast use lemma_stmts_view_len, lemma_stmts_view_index,
            crate::error::lemma_errs_view_len, crate::error::lemma_errs_view_index;

        let stop_first = self.stop_at_first_error;
        let mut program = Program::default();
        let mut errors: Vec<EvaluatorError> = Vec::new();
        let ghost s0 = pstate(*old(self));
        let ghost target = spec_parse_program(s0, stop_first);
        proof {
            assert(stmts_view(program.statements@) =~= Seq::<StmtV>::empty());
            assert(errs_view(errors@) =~= Seq::<ErrV>::empty());
        }
        while !matches!(&self.cur_token.kind, TokenType::EOF)
            invariant
                self.wf(),
                stop_first == old(self).stop_at_first_error,
                s0 == pstate(*old(self)),
                target == spec_parse_program(s0, stop_first),
                target == spec_program_loop(
                    pstate(*self),
                    stop_first,
                    stmts_view(program.statements@),
                    errs_view(errors@),
                ),
                forall|k: int|
                    0 <= k < program.statements@.len() ==> !(stmt_view(
                        #[trigger] program.statements@[k],
                    ) is EmptyStatement),
            decreases pmeasure(*self),
        {
            proof {
                reveal(spec_program_loop);
            }
            assert(self.cur_token@.kind !is EOF);
            let ghost si = pstate(*self);
            let ghost stmts_i = stmts_view(program.statements@);
            let ghost errs_i = errs_view(errors@);
            let stmt = self.parse_statement();
            match stmt {
                Result::Ok(s) => {
                    let is_empty = matches!(s, Statement::EmptyStatement);
                    if !is_empty {
                        let ghost raw_before = program.statements@;
                        let ghost item = s;
                        program.statements.push(s);
                        proof {
                            crate::ast::lemma_stmts_view_push(raw_before, item);
                        }
                    }
                },
                Result::Err(err) => {
                    let ghost raw_before = errors@;
                    let ghost item = err;
                    errors.push(err);
                    proof {
                        crate::error::lemma_errs_view_push(raw_before, item);
                    }
                    if stop_first {
                        return Result::Err(errors);
                    }
                },
            }
            let next = self.next_token();
            match next {
                Result::Ok(_) => {},
                Result::Err(err) => {
                    let ghost raw_before = errors@;
                    let ghost item = err;
                    errors.push(err);
                    proof {
                        crate::error::lemma_errs_view_push(raw_before, item);
                    }
                },
            }
        }
        if errors.len() > 0 {
            return Result::Err(errors);
        }
        proof {
            assert forall|i: int|
                0 <= i < stmts_view(program.statements@).len() implies !((#[trigger] stmts_view(
                program.statements@,
            )[i]) is EmptyStatement) by {
                lemma_stmts_view_index(program.statements@, i);
            }
        }
        Result::Ok(program)
    }

    /// Dispatches one statement on the current token: `let`, `return`,
    /// a bare semicolon (an empty statement), or an expression
    /// statement.
    #[verifier::rlimit(100)]
    #[verifier::spinoff_prover]
    fn parse_statement(&mut self) -> (r: Result<Statement, EvaluatorError>)
        requires
            old(self).wf(),
            old(self).cur_token@.kind !is EOF,
        ensures
            steps_ok(*old(self), *final(self)),
            r is Ok ==> final(self).cur_token@.kind !is EOF || pmeasure(*final(self)) < pmeasure(
                *old(self),
            ),
            stmt_res_matches(r, spec_parse_statement(pstate(*old(self))).0),
            pstate(*final(self)) == spec_parse_statement(pstate(*old(self))).1,
        decreases pmeasure(*old(self)), 6int,
    {
        proof { reveal(spec_parse_statement); }
        match &self.cur_token.kind {
            TokenType::LET => self.parse_let_statement(),
            TokenType::RETURN => self.parse_return_statement(),
            TokenType::SEMICOLON => Result::Ok(Statement::EmptyStatement),
            _ => self.parse_expression_statement(),
        }
    }

    /// Parses `let IDENT = expression ;`; the closing semicolon is
    /// checked but left for the statement loop to consume.
    #[verifier::rlimit(100)]
    #[verifier::spinoff_prover]
    fn parse_let_statement(&mut self) -> (r: Result<Statement, EvaluatorError>)
        requires
            old(self).wf(),
            old(self).cur_token@.kind !is EOF,
        ensures
            steps_ok(*old(self), *final(self)),
            r is Ok ==> pmeasure(*final(self)) < pmeasure(*old(self)),
            r is Ok ==> r->Ok_0@ is LetStatement && old(self).peek_token@.kind is IDENT
                && r->Ok_0@->LetStatement_identifier == old(self).peek_token@.kind->IDENT_0,
            stmt_res_matches(r, spec_parse_let_statement(pstate(*old(self))).0),
            pstate(*final(self)) == spec_parse_let_statement(pstate(*old(self))).1,
        decreases pmeasure(*old(self)), 5int,
    {
        proof { reveal(spec_parse_let_statement); }
        if !matches!(&self.peek_token.kind, TokenType::IDENT(_)) {
            return Result::Err(self.expected_error_peek("IDENT"));
        }
        match self.next_token() {
            Result::Ok(_) => {},
            Result::Err(e) => {
                return Result::Err(e);
            },
        }
        let identifier: String = match &self.cur_token.kind {
            TokenType::IDENT(name) => name.clone(),
            _ => {
                return Result::Err(self.expected_error_curr("IDENT"));
            },
        };
        if !matches!(&self.peek_token.kind, TokenType::ASSIGN) {
            return Result::Err(self.expected_error_peek("="));
        }
        match self.next_token() {
            Result::Ok(_) => {},
            Result::Err(e) => {
                return Result::Err(e);
            },
        }
        match self.next_token() {
            Result::Ok(_) => {},
            Result::Err(e) => {
                return Result::Err(e);
            },
        }
        let value = match self.parse_expression(Precedence::LOWEST) {
            Result::Ok(v) => v,
            Result::Err(e) => {
                return Result::Err(e);
            },
        };
        if !matches!(&self.peek_token.kind, TokenType::SEMICOLON) {
            return Result::Err(self.expected_error_peek(";"));
        }
        Result::Ok(Statement::LetStatement { identifier, value })
    }

    /// Parses `return expression ;`; the closing semicolon is checked
    /// but left for the statement loop to consume.
    #[verifier::rlimit(100)]
    #[verifier::spinoff_prover]
    fn parse_return_statement(&mut self) -> (r: Result<Statement, EvaluatorError>)
        requires
            old(self).wf(),
            old(self).cur_token@.kind !is EOF,
        ensures
            steps_ok(*old(self), *final(self)),
            r is Ok ==> pmeasure(*final(self)) < pmeasure(*old(self)),
            r is Ok ==> r->Ok_0@ is ReturnStatement,
            stmt_res_matches(r, spec_parse_return_statement(pstate(*old(self))).0),
            pstate(*final(self)) == spec_parse_return_statement(pstate(*old(self))).1,
        decreases pmeasure(*old(self)), 5int,
    {
        proof { reveal(spec_parse_return_statement); }
        match self.next_token() {
            Result::Ok(_) => {},
            Result::Err(e) => {
                return Result::Err(e);
            },
        }
        let value = match self.parse_expression(Precedence::LOWEST) {
            Result::Ok(v) => v,
            Result::Err(e) => {
                return Result::Err(e);
            },
        };
        if !matches!(&self.peek_token.kind, TokenType::SEMICOLON) {
            return Result::Err(self.expected_error_peek(";"));
        }
        Result::Ok(Statement::ReturnStatement { value })
    }

    /// Parses an expression statement; a semicolon under the current
    /// token is absorbed.
    #[verifier::rlimit(100)]
    #[verifier::spinoff_prover]
    fn parse_expression_statement(&mut self) -> (r: Result<Statement, EvaluatorError>)
        requires
            old(self).wf(),
            old(self).cur_token@.kind !is EOF,
        ensures
            steps_ok(*old(self), *final(self)),
            r is Ok ==> final(self).cur_token@.kind !is EOF || pmeasure(*final(self)) < pmeasure(
                *old(self),
            ),
            stmt_res_matches(r, spec_parse_expression_statement(pstate(*old(self))).0),
            pstate(*final(self)) == spec_parse_expression_statement(pstate(*old(self))).1,
        decreases pmeasure(*old(self)), 5int,
    {
        proof { reveal(spec_parse_expression_statement); }
        let exp = match self.parse_expression(Precedence::LOWEST) {
            Result::Ok(v) => v,
            Result::Err(e) => {
                return Result::Err(e);
            },
        };
        if matches!(&self.cur_token.kind, TokenType::SEMICOLON) {
            match self.next_token() {
                Result::Ok(_) => {},
                Result::Err(e) => {
                    return Result::Err(e);
                },
            }
        }
        Result::Ok(Statement::ExpressionStatement(exp))
    }

    /// Parses the statements between `{` and `}`.  An unmatched `{`
    /// stops at the end of the input.
    #[verifier::rlimit(100)]
    #[verifier::spinoff_prover]
    fn parse_block_statement(&mut self) -> (r: Result<BlockStatement, EvaluatorError>)
        requires
            old(self).wf(),
            old(self).cur_token@.kind !is EOF,
        ensures
            steps_ok(*old(self), *final(self)),
            pmeasure(*final(self)) < pmeasure(*old(self)),
            r is Ok ==> final(self).cur_token@.kind is RBRACE,
            block_res_matches(r, spec_parse_block_statement(pstate(*old(self))).0),
            pstate(*final(self)) == spec_parse_block_statement(pstate(*old(self))).1,
        decreases pmeasure(*old(self)), 7int,
    {
        proof { reveal(spec_parse_block_statement); }
        proof { reveal(spec_block_loop); }
        broadcast use lemma_stmts_view_len, lemma_stmts_view_index;

        let ghost s0 = pstate(*old(self));
        let mut statements: BlockStatement = Vec::new();
        match self.next_token() {
            Result::Ok(_) => {},
            Result::Err(e) => {
                return Result::Err(e);
            },
        }
        let ghost target = spec_parse_block_statement(s0);
        proof {
            assert(stmts_view(statements@) =~= Seq::<StmtV>::empty());
            assert(target == spec_block_loop(pstate(*self), stmts_view(statements@)));
        }
        while !matches!(&self.cur_token.kind, TokenType::RBRACE | TokenType::EOF)
            invariant
                self.wf(),
                self.stop_at_first_error == old(self).stop_at_first_error,
                pmeasure(*self) < pmeasure(*old(self)),
                s0 == pstate(*old(self)),
                target == spec_parse_block_statement(s0),
                target == spec_block_loop(pstate(*self), stmts_view(statements@)),
            decreases pmeasure(*self),
        {
            proof {
                reveal(spec_block_loop);
            }
            let statement = match self.parse_statement() {
                Result::Ok(s) => s,
                Result::Err(e) => {
                    return Result::Err(e);
                },
            };
            let is_empty = matches!(statement, Statement::EmptyStatement);
            if !is_empty {
                let ghost raw_before = statements@;
                let ghost item = statement;
                statements.push(statement);
                proof {
                    crate::ast::lemma_stmts_view_push(raw_before, item);
                }
            }
            match self.next_token() {
                Result::Ok(_) => {},
                Result::Err(e) => {
                    return Result::Err(e);
                },
            }
        }
        if !matches!(&self.cur_token.kind, TokenType::RBRACE) {
            return Result::Err(self.expected_error_curr("}"));
        }
        Result::Ok(statements)
    }

    /// Pratt expression parsing: a prefix handler for the current
    /// token, then a loop folding infix, call and index forms while the
    /// lookahead binds tighter than `precedence`.
    #[verifier::rlimit(100)]
    #[verifier::spinoff_prover]
    fn parse_expression(&mut self, precedence: Precedence) -> (r: Result<
        Expression,
        EvaluatorError,
    >)
        requires
            old(self).wf(),
        ensures
            steps_ok(*old(self), *final(self)),
            r is Ok ==> final(self).cur_token@.kind !is EOF || pmeasure(*final(self)) < pmeasure(
                *old(self),
            ),
            expr_res_matches(r, spec_parse_expression(pstate(*old(self)), precedence).0),
            pstate(*final(self)) == spec_parse_expression(pstate(*old(self)), precedence).1,
        decreases pmeasure(*old(self)), 4int,
    {
        proof { reveal(spec_parse_expression); }
        proof { reveal(spec_infix_loop); }
        let mut left_expression: Expression = match &self.cur_token.kind {
            TokenType::INT(_) => {
                match self.parse_int_literal() {
                    Result::Ok(v) => v,
                    Result::Err(e) => {
                        return Result::Err(e);
                    },
                }
            },
            TokenType::STRING(_) => {
                match self.parse_string_literal() {
                    Result::Ok(v) => v,
                    Result::Err(e) => {
                        return Result::Err(e);
                    },
                }
            },
            TokenType::IDENT(_) => {
                match self.parse_indent() {
                    Result::Ok(v) => v,
                    Result::Err(e) => {
                        return Result::Err(e);
                    },
                }
            },
            TokenType::BANG | TokenType::PLUS | TokenType::MINUS => {
                match self.parse_prefix_expression() {
                    Result::Ok(v) => v,
                    Result::Err(e) => {
                        return Result::Err(e);
                    },
                }
            },
            TokenType::TRUE | TokenType::FALSE => {
                match self.parse_boolean_literal() {
                    Result::Ok(v) => v,
                    Result::Err(e) => {
                        return Result::Err(e);
                    },
                }
            },
            TokenType::LPAREN => {
                match self.parse_grouped_expression() {
                    Result::Ok(v) => v,
                    Result::Err(e) => {
                        return Result::Err(e);
                    },
                }
            },
            TokenType::IF => {
                match self.parse_if_expression() {
                    Result::Ok(v) => v,
                    Result::Err(e) => {
                        return Result::Err(e);
                    },
                }
            },
            TokenType::FUNCTION => {
                match self.parse_function_literal() {
                    Result::Ok(v) => v,
                    Result::Err(e) => {
                        return Result::Err(e);
                    },
                }
            },
            TokenType::LBRACKET => {
                match self.parse_array_literal() {
                    Result::Ok(v) => v,
                    Result::Err(e) => {
                        return Result::Err(e);
                    },
                }
            },
            _ => {
                return Result::Err(self.expected_error_curr("Expression"));
            },
        };
        let ghost s0 = pstate(*old(self));
        let ghost target = spec_parse_expression(s0, precedence);
        proof {
            assert(target == spec_infix_loop(pstate(*self), left_expression@, precedence));
        }
        let precedence_value = precedence.value();
        while !matches!(&self.peek_token.kind, TokenType::SEMICOLON) && precedence_value
            < self.peek_precedence().value()
            invariant
                self.wf(),
                self.stop_at_first_error == old(self).stop_at_first_error,
                pmeasure(*self) <= pmeasure(*old(self)),
                self.cur_token@.kind !is EOF || pmeasure(*self) < pmeasure(*old(self)),
                s0 == pstate(*old(self)),
                precedence_value == spec_precedence_value(precedence),
                target == spec_parse_expression(s0, precedence),
                target == spec_infix_loop(pstate(*self), left_expression@, precedence),
            decreases pmeasure(*self),
        {
            proof {
                reveal(spec_infix_loop);
            }
            match &self.peek_token.kind {
                TokenType::PLUS | TokenType::MINUS | TokenType::SLASH | TokenType::ASTERISK
                    | TokenType::EQ | TokenType::NOT_EQ | TokenType::LT | TokenType::GT
                    | TokenType::LTE | TokenType::GTE => {
                    match self.next_token() {
                        Result::Ok(_) => {},
                        Result::Err(e) => {
                            return Result::Err(e);
                        },
                    }
                    match self.parse_infix_expression(left_expression) {
                        Result::Ok(v) => {
                            left_expression = v;
                        },
                        Result::Err(e) => {
                            return Result::Err(e);
                        },
                    }
                },
                TokenType::LPAREN => {
                    match self.next_token() {
                        Result::Ok(_) => {},
                        Result::Err(e) => {
                            return Result::Err(e);
                        },
                    }
                    match self.parse_call_expression(left_expression) {
                        Result::Ok(v) => {
                            left_expression = v;
                        },
                        Result::Err(e) => {
                            return Result::Err(e);
                        },
                    }
                },
                TokenType::LBRACKET => {
                    match self.next_token() {
                        Result::Ok(_) => {},
                        Result::Err(e) => {
                            return Result::Err(e);
                        },
                    }
                    match self.parse_index_expression(left_expression) {
                        Result::Ok(v) => {
                            left_expression = v;
                        },
                        Result::Err(e) => {
                            return Result::Err(e);
                        },
                    }
                },
                _ => {
                    return Result::Ok(left_expression);
                },
            }
        }
        Result::Ok(left_expression)
    }

    /// Reads the current identifier token as an identifier expression.
    fn parse_indent(&mut self) -> (r: Result<Expression, EvaluatorError>)
        requires
            old(self).wf(),
        ensures
            final(self).wf(),
            final(self).stop_at_first_error == old(self).stop_at_first_error,
            *final(self) == *old(self),
            r is Ok <==> old(self).cur_token@.kind is IDENT,
            r is Ok ==> r->Ok_0@ == ExprV::Identifier(old(self).cur_token@.kind->IDENT_0),
        decreases pmeasure(*old(self)), 0int,
    {
        match &self.cur_token.kind {
            TokenType::IDENT(value) => Result::Ok(Expression::Identifier(value.clone())),
            _ => Result::Err(self.expected_error_curr("IDENT")),
        }
    }

    /// Reads the current integer token as an integer literal.
    fn parse_int_literal(&mut self) -> (r: Result<Expression, EvaluatorError>)
        requires
            old(self).wf(),
        ensures
            final(self).wf(),
            final(self).stop_at_first_error == old(self).stop_at_first_error,
            *final(self) == *old(self),
            r is Ok <==> old(self).cur_token@.kind is INT,
            r is Ok ==> r->Ok_0@ == ExprV::IntegerLiteral(old(self).cur_token@.kind->INT_0),
        decreases pmeasure(*old(self)), 0int,
    {
        match &self.cur_token.kind {
            TokenType::INT(value) => Result::Ok(Expression::IntegerLiteral(*value)),
            _ => Result::Err(self.expected_error_curr("INT")),
        }
    }

    /// Parses a prefix operator and its operand at `PREFIX` precedence.
    #[verifier::rlimit(100)]
    #[verifier::spinoff_prover]
    fn parse_prefix_expression(&mut self) -> (r: Result<Expression, EvaluatorError>)
        requires
            old(self).wf(),
            old(self).cur_token@.kind !is EOF,
        ensures
            steps_ok(*old(self), *final(self)),
            r is Ok ==> pmeasure(*final(self)) < pmeasure(*old(self)),
            r is Ok ==> r->Ok_0@ is PrefixExpression && r->Ok_0@->PrefixExpression_operator
                == spec_token_type_string(old(self).cur_token@.kind),
            expr_res_matches(r, spec_parse_prefix_expression(pstate(*old(self))).0),
            pstate(*final(self)) == spec_parse_prefix_expression(pstate(*old(self))).1,
        decreases pmeasure(*old(self)), 1int,
    {
        proof { reveal(spec_parse_prefix_expression); }
        let operator = self.cur_token.kind.to_display_string();
        match self.next_token() {
            Result::Ok(_) => {},
            Result::Err(e) => {
                return Result::Err(e);
            },
        }
        let right = match self.parse_expression(Precedence::PREFIX) {
            Result::Ok(v) => v,
            Result::Err(e) => {
                return Result::Err(e);
            },
        };
        Result::Ok(Expression::PrefixExpression { operator, right: Box::new(right) })
    }

    /// Reads the current `true` or `false` token as a boolean literal.
    fn parse_boolean_literal(&mut self) -> (r: Result<Expression, EvaluatorError>)
        requires
            old(self).wf(),
        ensures
            final(self).wf(),
            final(self).stop_at_first_error == old(self).stop_at_first_error,
            *final(self) == *old(self),
            r is Ok <==> (old(self).cur_token@.kind is TRUE || old(self).cur_token@.kind is FALSE),
            r is Ok ==> r->Ok_0@ == ExprV::BooleanLiteral(old(self).cur_token@.kind is TRUE),
        decreases pmeasure(*old(self)), 0int,
    {
        match &self.cur_token.kind {
            TokenType::TRUE => Result::Ok(Expression::BooleanLiteral(true)),
            TokenType::FALSE => Result::Ok(Expression::BooleanLiteral(false)),
            _ => Result::Err(self.expected_error_curr("BOOLEAN")),
        }
    }

    /// Parses `( expression )`; the parentheses leave no node behind.
    #[verifier::rlimit(100)]
    #[verifier::spinoff_prover]
    fn parse_grouped_expression(&mut self) -> (r: Result<Expression, EvaluatorError>)
        requires
            old(self).wf(),
            old(self).cur_token@.kind !is EOF,
        ensures
            steps_ok(*old(self), *final(self)),
            r is Ok ==> pmeasure(*final(self)) < pmeasure(*old(self)),
            expr_res_matches(r, spec_parse_grouped_expression(pstate(*old(self))).0),
            pstate(*final(self)) == spec_parse_grouped_expression(pstate(*old(self))).1,
        decreases pmeasure(*old(self)), 1int,
    {
        proof { reveal(spec_parse_grouped_expression); }
        match self.next_token() {
            Result::Ok(_) => {},
            Result::Err(e) => {
                return Result::Err(e);
            },
        }
        let expression = match self.parse_expression(Precedence::LOWEST) {
            Result::Ok(v) => v,
            Result::Err(e) => {
                return Result::Err(e);
            },
        };
        if !matches!(&self.peek_token.kind, TokenType::RPAREN) {
            return Result::Err(self.expected_error_peek(")"));
        }
        match self.next_token() {
            Result::Ok(_) => {},
            Result::Err(e) => {
                return Result::Err(e);
            },
        }
        Result::Ok(expression)
    }

    /// Parses `if ( condition ) { consequence }` with an optional
    /// `else { alternative }`.
    #[verifier::rlimit(100)]
    #[verifier::spinoff_prover]
    fn parse_if_expression(&mut self) -> (r: Result<Expression, EvaluatorError>)
        requires
            old(self).wf(),
            old(self).cur_token@.kind !is EOF,
        ensures
            steps_ok(*old(self), *final(self)),
            r is Ok ==> pmeasure(*final(self)) < pmeasure(*old(self)),
            r is Ok ==> r->Ok_0@ is IfExpression,
            expr_res_matches(r, spec_parse_if_expression(pstate(*old(self))).0),
            pstate(*final(self)) == spec_parse_if_expression(pstate(*old(self))).1,
        decreases pmeasure(*old(self)), 1int,
    {
        proof { reveal(spec_parse_if_expression); }
        proof { reveal(spec_parse_else); }
        if !matches!(&self.peek_token.kind, TokenType::LPAREN) {
            return Result::Err(self.expected_error_peek("("));
        }
        match self.next_token() {
            Result::Ok(_) => {},
            Result::Err(e) => {
                return Result::Err(e);
            },
        }
        match self.next_token() {
            Result::Ok(_) => {},
            Result::Err(e) => {
                return Result::Err(e);
            },
        }
        let condition = match self.parse_expression(Precedence::LOWEST) {
            Result::Ok(v) => v,
            Result::Err(e) => {
                return Result::Err(e);
            },
        };
        if !matches!(&self.peek_token.kind, TokenType::RPAREN) {
            return Result::Err(self.expected_error_peek(")"));
        }
        match self.next_token() {
            Result::Ok(_) => {},
            Result::Err(e) => {
                return Result::Err(e);
            },
        }
        if !matches!(&self.peek_token.kind, TokenType::LBRACE) {
            return Result::Err(self.expected_error_peek("{"));
        }
        match self.next_token() {
            Result::Ok(_) => {},
            Result::Err(e) => {
                return Result::Err(e);
            },
        }
        let consequence = match self.parse_block_statement() {
            Result::Ok(v) => v,
            Result::Err(e) => {
                return Result::Err(e);
            },
        };
        let mut alternative: Option<BlockStatement> = Option::None;
        if matches!(&self.peek_token.kind, TokenType::ELSE) {
            match self.next_token() {
                Result::Ok(_) => {},
                Result::Err(e) => {
                    return Result::Err(e);
                },
            }
            if !matches!(&self.peek_token.kind, TokenType::LBRACE) {
                return Result::Err(self.expected_error_peek("{"));
            }
            match self.next_token() {
                Result::Ok(_) => {},
                Result::Err(e) => {
                    return Result::Err(e);
                },
            }
            let block = match self.parse_block_statement() {
                Result::Ok(v) => v,
                Result::Err(e) => {
                    return Result::Err(e);
                },
            };
            alternative = Option::Some(block);
        }
        Result::Ok(
            Expression::IfExpression { condition: Box::new(condition), consequence, alternative },
        )
    }

    /// Parses the right operand of an infix operator at the operator's
    /// precedence and folds it with the left operand.  A failing right
    /// operand fails the whole expression; recovery happens only at
    /// statement boundaries.
    #[verifier::rlimit(100)]
    #[verifier::spinoff_prover]
    fn parse_infix_expression(&mut self, left: Expression) -> (r: Result<
        Expression,
        EvaluatorError,
    >)
        requires
            old(self).wf(),
            old(self).cur_token@.kind !is EOF,
        ensures
            steps_ok(*old(self), *final(self)),
            r is Ok ==> pmeasure(*final(self)) < pmeasure(*old(self)),
            r is Ok ==> r->Ok_0@ is InfixExpression && *r->Ok_0@->InfixExpression_left == left@
                && r->Ok_0@->InfixExpression_operator == spec_token_type_string(
                old(self).cur_token@.kind,
            ),
            expr_res_matches(r, spec_parse_infix_expression(pstate(*old(self)), left@).0),
            pstate(*final(self)) == spec_parse_infix_expression(pstate(*old(self)), left@).1,
        decreases pmeasure(*old(self)), 1int,
    {
        proof { reveal(spec_parse_infix_expression); }
        let operator = self.cur_token.kind.to_display_string();
        let precedence = self.cur_token.to_precedence();
        match self.next_token() {
            Result::Ok(_) => {},
            Result::Err(e) => {
                return Result::Err(e);
            },
        }
        let right = match self.parse_expression(precedence) {
            Result::Ok(v) => v,
            Result::Err(e) => {
                return Result::Err(e);
            },
        };
        Result::Ok(
            Expression::InfixExpression {
                operator,
                left: Box::new(left),
                right: Box::new(right),
            },
        )
    }

    /// Parses the argument list of a call, the lookahead `(` already
    /// consumed.
    #[verifier::rlimit(100)]
    #[verifier::spinoff_prover]
    fn parse_call_expression(&mut self, function: Expression) -> (r: Result<
        Expression,
        EvaluatorError,
    >)
        requires
            old(self).wf(),
            old(self).cur_token@.kind !is EOF,
        ensures
            steps_ok(*old(self), *final(self)),
            r is Ok ==> pmeasure(*final(self)) < pmeasure(*old(self)),
            r is Ok ==> r->Ok_0@ is CallExpression && *r->Ok_0@->CallExpression_function
                == function@,
            expr_res_matches(r, spec_parse_call_expression(pstate(*old(self)), function@).0),
            pstate(*final(self)) == spec_parse_call_expression(pstate(*old(self)), function@).1,
        decreases pmeasure(*old(self)), 3int,
    {
        proof { reveal(spec_parse_call_expression); }
        let arguments = match self.parse_call_arguments() {
            Result::Ok(v) => v,
            Result::Err(e) => {
                return Result::Err(e);
            },
        };
        Result::Ok(Expression::CallExpression { function: Box::new(function), arguments })
    }

    /// Parses a possibly empty, comma-separated argument list up to the
    /// closing `)`.
    #[verifier::rlimit(100)]
    #[verifier::spinoff_prover]
    fn parse_call_arguments(&mut self) -> (r: Result<Vec<Expression>, EvaluatorError>)
        requires
            old(self).wf(),
            old(self).cur_token@.kind !is EOF,
        ensures
            steps_ok(*old(self), *final(self)),
            r is Ok ==> pmeasure(*final(self)) < pmeasure(*old(self)),
            exprs_res_matches(r, spec_parse_call_arguments(pstate(*old(self))).0),
            pstate(*final(self)) == spec_parse_call_arguments(pstate(*old(self))).1,
        decreases pmeasure(*old(self)), 2int,
    {
        proof { reveal(spec_parse_call_arguments); }
        if matches!(&self.peek_token.kind, TokenType::RPAREN) {
            match self.next_token() {
                Result::Ok(_) => {},
                Result::Err(e) => {
                    return Result::Err(e);
                },
            }
            return Result::Ok(Vec::new());
        }
        self.parse_expression_list(false)
    }

    /// Parses `fn ( parameters ) { body }`.
    #[verifier::rlimit(100)]
    #[verifier::spinoff_prover]
    fn parse_function_literal(&mut self) -> (r: Result<Expression, EvaluatorError>)
        requires
            old(self).wf(),
            old(self).cur_token@.kind !is EOF,
        ensures
            steps_ok(*old(self), *final(self)),
            r is Ok ==> pmeasure(*final(self)) < pmeasure(*old(self)),
            r is Ok ==> r->Ok_0@ is FunctionLiteral,
            expr_res_matches(r, spec_parse_function_literal(pstate(*old(self))).0),
            pstate(*final(self)) == spec_parse_function_literal(pstate(*old(self))).1,
        decreases pmeasure(*old(self)), 1int,
    {
        proof { reveal(spec_parse_function_literal); }
        if !matches!(&self.peek_token.kind, TokenType::LPAREN) {
            return Result::Err(self.expected_error_peek("("));
        }
        match self.next_token() {
            Result::Ok(_) => {},
            Result::Err(e) => {
                return Result::Err(e);
            },
        }
        let parameters = match self.parse_function_parameters() {
            Result::Ok(v) => v,
            Result::Err(e) => {
                return Result::Err(e);
            },
        };
        if !matches!(&self.peek_token.kind, TokenType::LBRACE) {
            return Result::Err(self.expected_error_peek("{"));
        }
        match self.next_token() {
            Result::Ok(_) => {},
            Result::Err(e) => {
                return Result::Err(e);
            },
        }
        let body = match self.parse_block_statement() {
            Result::Ok(v) => v,
            Result::Err(e) => {
                return Result::Err(e);
            },
        };
        Result::Ok(Expression::FunctionLiteral { parameters, body })
    }

    /// Parses a possibly empty, comma-separated parameter list of
    /// identifiers up to the closing `)`.
    #[verifier::rlimit(100)]
    #[verifier::spinoff_prover]
    fn parse_function_parameters(&mut self) -> (r: Result<Vec<Expression>, EvaluatorError>)
        requires
            old(self).wf(),
            old(self).cur_token@.kind !is EOF,
        ensures
            steps_ok(*old(self), *final(self)),
            r is Ok ==> pmeasure(*final(self)) < pmeasure(*old(self)),
            r is Ok ==> forall|i: int|
                0 <= i < r->Ok_0@.len() ==> (#[trigger] r->Ok_0@[i])@ is Identifier,
            exprs_res_matches(r, spec_parse_function_parameters(pstate(*old(self))).0),
            pstate(*final(self)) == spec_parse_function_parameters(pstate(*old(self))).1,
        decreases pmeasure(*old(self)), 1int,
    {
        proof { reveal(spec_parse_function_parameters); }
        proof { reveal(spec_params_loop); }
        broadcast use crate::ast::lemma_exprs_view_len, crate::ast::lemma_exprs_view_index;

        let mut identifiers: Vec<Expression> = Vec::new();
        proof {
            assert(exprs_view(identifiers@) =~= Seq::<ExprV>::empty());
        }
        if matches!(&self.peek_token.kind, TokenType::RPAREN) {
            match self.next_token() {
                Result::Ok(_) => {},
                Result::Err(e) => {
                    return Result::Err(e);
                },
            }
            return Result::Ok(identifiers);
        }
        match self.next_token() {
            Result::Ok(_) => {},
            Result::Err(e) => {
                return Result::Err(e);
            },
        }
        match &self.cur_token.kind {
            TokenType::IDENT(ident) => {
                identifiers.push(Expression::Identifier(ident.clone()));
            },
            _ => {
                return Result::Err(self.expected_error_curr("identifier"));
            },
        }
        let ghost s0p = pstate(*old(self));
        let ghost target = spec_parse_function_parameters(s0p);
        proof {
            assert(exprs_view(identifiers@) =~= seq![identifiers@[0]@]);
            assert(target == spec_params_loop(pstate(*self), exprs_view(identifiers@)));
        }
        while matches!(&self.peek_token.kind, TokenType::COMMA)
            invariant
                self.wf(),
                self.stop_at_first_error == old(self).stop_at_first_error,
                pmeasure(*self) < pmeasure(*old(self)),
                forall|i: int|
                    0 <= i < identifiers@.len() ==> (#[trigger] identifiers@[i])@ is Identifier,
                s0p == pstate(*old(self)),
                target == spec_parse_function_parameters(s0p),
                target == spec_params_loop(pstate(*self), exprs_view(identifiers@)),
            decreases pmeasure(*self),
        {
            proof {
                reveal(spec_params_loop);
            }
            match self.next_token() {
                Result::Ok(_) => {},
                Result::Err(e) => {
                    return Result::Err(e);
                },
            }
            match self.next_token() {
                Result::Ok(_) => {},
                Result::Err(e) => {
                    return Result::Err(e);
                },
            }
            match &self.cur_token.kind {
                TokenType::IDENT(ident) => {
                    let e = Expression::Identifier(ident.clone());
                    let ghost raw_before = identifiers@;
                    let ghost item = e;
                    identifiers.push(e);
                    proof {
                        crate::ast::lemma_exprs_view_push(raw_before, item);
                    }
                },
                _ => {
                    return Result::Err(self.expected_error_curr("identifier"));
                },
            }
        }
        if !matches!(&self.peek_token.kind, TokenType::RPAREN) {
            return Result::Err(self.expected_error_peek(")"));
        }
        match self.next_token() {
            Result::Ok(_) => {},
            Result::Err(e) => {
                return Result::Err(e);
            },
        }
        Result::Ok(identifiers)
    }

    /// Reads the current string token as a string literal.
    fn parse_string_literal(&mut self) -> (r: Result<Expression, EvaluatorError>)
        requires
            old(self).wf(),
        ensures
            final(self).wf(),
            final(self).stop_at_first_error == old(self).stop_at_first_error,
            *final(self) == *old(self),
            r is Ok <==> old(self).cur_token@.kind is STRING,
            r is Ok ==> r->Ok_0@ == ExprV::StringLiteral(old(self).cur_token@.kind->STRING_0),
        decreases pmeasure(*old(self)), 0int,
    {
        match &self.cur_token.kind {
            TokenType::STRING(value) => Result::Ok(Expression::StringLiteral(value.clone())),
            _ => Result::Err(self.expected_error_curr("STRING")),
        }
    }

    /// Parses `[ elements ]`, a possibly empty array literal.
    #[verifier::rlimit(100)]
    #[verifier::spinoff_prover]
    fn parse_array_literal(&mut self) -> (r: Result<Expression, EvaluatorError>)
        requires
            old(self).wf(),
            old(self).cur_token@.kind !is EOF,
        ensures
            steps_ok(*old(self), *final(self)),
            r is Ok ==> pmeasure(*final(self)) < pmeasure(*old(self)),
            r is Ok ==> r->Ok_0@ is ArrayLiteral,
            expr_res_matches(r, spec_parse_array_literal(pstate(*old(self))).0),
            pstate(*final(self)) == spec_parse_array_literal(pstate(*old(self))).1,
        decreases pmeasure(*old(self)), 2int,
    {
        proof { reveal(spec_parse_array_literal); }
        let elements = match self.parse_expression_list(true) {
            Result::Ok(v) => v,
            Result::Err(e) => {
                return Result::Err(e);
            },
        };
        Result::Ok(Expression::ArrayLiteral(elements))
    }

    /// Parses a possibly empty, comma-separated expression list up to
    /// the closing `]` (or `)` for a call's arguments).
    #[verifier::rlimit(100)]
    #[verifier::spinoff_prover]
    fn parse_expression_list(&mut self, bracket_end: bool) -> (r: Result<
        Vec<Expression>,
        EvaluatorError,
    >)
        requires
            old(self).wf(),
            old(self).cur_token@.kind !is EOF,
        ensures
            steps_ok(*old(self), *final(self)),
            r is Ok ==> pmeasure(*final(self)) < pmeasure(*old(self)),
            exprs_res_matches(r, spec_parse_expression_list(pstate(*old(self)), bracket_end).0),
            pstate(*final(self)) == spec_parse_expression_list(
                pstate(*old(self)),
                bracket_end,
            ).1,
        decreases pmeasure(*old(self)), 1int,
    {
        proof { reveal(spec_parse_expression_list); }
        proof { reveal(spec_expr_list_loop); }
        broadcast use crate::ast::lemma_exprs_view_len, crate::ast::lemma_exprs_view_index;

        let mut elements: Vec<Expression> = Vec::new();
        proof {
            assert(exprs_view(elements@) =~= Seq::<ExprV>::empty());
        }
        let peek_is_end = if bracket_end {
            matches!(&self.peek_token.kind, TokenType::RBRACKET)
        } else {
            matches!(&self.peek_token.kind, TokenType::RPAREN)
        };
        if peek_is_end {
            match self.next_token() {
                Result::Ok(_) => {},
                Result::Err(e) => {
                    return Result::Err(e);
                },
            }
            return Result::Ok(elements);
        }
        match self.next_token() {
            Result::Ok(_) => {},
            Result::Err(e) => {
                return Result::Err(e);
            },
        }
        match self.parse_expression(Precedence::LOWEST) {
            Result::Ok(v) => {
                let ghost raw_before = elements@;
                let ghost item = v;
                elements.push(v);
                proof {
                    crate::ast::lemma_exprs_view_push(raw_before, item);
                    assert(exprs_view(raw_before) =~= Seq::<ExprV>::empty());
                }
            },
            Result::Err(e) => {
                return Result::Err(e);
            },
        }
        let ghost s0l = pstate(*old(self));
        let ghost target = spec_parse_expression_list(s0l, bracket_end);
        proof {
            assert(exprs_view(elements@) =~= seq![elements@[0]@]);
            assert(target == spec_expr_list_loop(pstate(*self), exprs_view(elements@), bracket_end));
        }
        while matches!(&self.peek_token.kind, TokenType::COMMA)
            invariant
                self.wf(),
                self.stop_at_first_error == old(self).stop_at_first_error,
                pmeasure(*self) < pmeasure(*old(self)),
                s0l == pstate(*old(self)),
                target == spec_parse_expression_list(s0l, bracket_end),
                target == spec_expr_list_loop(pstate(*self), exprs_view(elements@), bracket_end),
            decreases pmeasure(*self),
        {
            proof {
                reveal(spec_expr_list_loop);
            }
            match self.next_token() {
                Result::Ok(_) => {},
                Result::Err(e) => {
                    return Result::Err(e);
                },
            }
            match self.next_token() {
                Result::Ok(_) => {},
                Result::Err(e) => {
                    return Result::Err(e);
                },
            }
            match self.parse_expression(Precedence::LOWEST) {
                Result::Ok(v) => {
                    let ghost raw_before = elements@;
                    let ghost item = v;
                    elements.push(v);
                    proof {
                        crate::ast::lemma_exprs_view_push(raw_before, item);
                    }
                },
                Result::Err(e) => {
                    return Result::Err(e);
                },
            }
        }
        let peek_is_end2 = if bracket_end {
            matches!(&self.peek_token.kind, TokenType::RBRACKET)
        } else {
            matches!(&self.peek_token.kind, TokenType::RPAREN)
        };
        if !peek_is_end2 {
            return Result::Err(self.expected_error_peek("]"));
        }
        match self.next_token() {
            Result::Ok(_) => {},
            Result::Err(e) => {
                return Result::Err(e);
            },
        }
        Result::Ok(elements)
    }

    /// Parses `[ index ]` after an indexable expression.
    #[verifier::rlimit(100)]
    #[verifier::spinoff_prover]
    fn parse_index_expression(&mut self, left: Expression) -> (r: Result<
        Expression,
        EvaluatorError,
    >)
        requires
            old(self).wf(),
            old(self).cur_token@.kind !is EOF,
        ensures
            steps_ok(*old(self), *final(self)),
            r is Ok ==> pmeasure(*final(self)) < pmeasure(*old(self)),
            r is Ok ==> r->Ok_0@ is IndexExpression && *r->Ok_0@->IndexExpression_left == left@,
            expr_res_matches(r, spec_parse_index_expression(pstate(*old(self)), left@).0),
            pstate(*final(self)) == spec_parse_index_expression(pstate(*old(self)), left@).1,
        decreases pmeasure(*old(self)), 1int,
    {
        proof { reveal(spec_parse_index_expression); }
        match self.next_token() {
            Result::Ok(_) => {},
            Result::Err(e) => {
                return Result::Err(e);
            },
        }
        let index = match self.parse_expression(Precedence::LOWEST) {
            Result::Ok(v) => v,
            Result::Err(e) => {
                return Result::Err(e);
            },
        };
        if !matches!(&self.peek_token.kind, TokenType::RBRACKET) {
            return Result::Err(self.expected_error_peek("]"));
        }
        match self.next_token() {
            Result::Ok(_) => {},
            Result::Err(e) => {
                return Result::Err(e);
            },
        }
        Result::Ok(Expression::IndexExpression { left: Box::new(left), index: Box::new(index) })
    }
}

} // verus!
