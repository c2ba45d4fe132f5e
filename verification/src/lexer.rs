//! The lexer: a character-by-character scanner with one-character
//! lookahead, producing positioned tokens.
//!
//! The scanner's behaviour is defined by the spec-level transition
//! function [`spec_next_token`] over the model [`LexerV`]; the
//! executable methods are verified to follow it exactly.  At the end of
//! the input the scanner is a fixpoint: it yields `EOF` and leaves its
//! state unchanged, forever (see [`lemma_next_token_at_end`]).

use vstd::prelude::*;
use crate::error::{ErrV, EvaluatorError};
use crate::strutil::{chars_to_string, str_to_chars};
use crate::token::{Token, TokenType, TokenTypeV, TokenV};

verus! {

/// Mathematical model of the scanner state.
pub struct LexerV {
    /// The characters of the input.
    pub input: Seq<char>,
    /// Index of the character under examination.
    pub position: int,
    /// The character under examination; the null character at the end.
    pub ch: char,
    /// Line of the current position, starting at 1.
    pub line: int,
    /// Column of the current position, starting at 1.
    pub column: int,
}

/// The character at an index, or the null character outside the input.
pub open spec fn char_at(input: Seq<char>, i: int) -> char {
    if 0 <= i < input.len() {
        input[i]
    } else {
        '\0'
    }
}

/// Well-formedness of a scanner state: the position is inside the input
/// or one past it, and the character under examination matches it.
pub open spec fn lexv_wf(l: LexerV) -> bool {
    &&& 0 <= l.position <= l.input.len()
    &&& l.ch == char_at(l.input, l.position)
    &&& 1 <= l.line <= l.position + 1
    &&& 0 <= l.column <= l.position + 2
}

/// Inputs long enough to overflow the 32-bit position counters are
/// rejected up front.
pub open spec fn input_fits(input: Seq<char>) -> bool {
    input.len() + 16 < 0x1_0000_0000
}

/// The scanner state over a fresh input.
pub open spec fn spec_new_lexer(input: Seq<char>) -> LexerV {
    LexerV { input, position: 0, ch: char_at(input, 0), line: 1, column: 1 }
}

/// One step forward: the position advances by one character, stopping
/// at the end of the input, and the column advances with it.
pub open spec fn spec_advance(l: LexerV) -> LexerV {
    let p = if l.position + 1 <= l.input.len() {
        l.position + 1
    } else {
        l.input.len() as int
    };
    LexerV {
        input: l.input,
        position: p,
        ch: char_at(l.input, p),
        line: l.line,
        column: if l.position < l.input.len() {
            l.column + 1
        } else {
            l.column
        },
    }
}

/// The lookahead character, one past the current position.
pub open spec fn spec_peek(l: LexerV) -> char {
    char_at(l.input, l.position + 1)
}

/// Whitespace characters skipped between tokens.
pub open spec fn is_ws(c: char) -> bool {
    c == ' ' || c == '\t' || c == '\n' || c == '\r'
}

/// Characters that may start an identifier.
pub open spec fn is_letter(c: char) -> bool {
    ('a' <= c && c <= 'z') || ('A' <= c && c <= 'Z') || c == '_'
}

/// Characters that may continue an identifier.
pub open spec fn is_letter_or_digit(c: char) -> bool {
    is_letter(c) || is_digit(c)
}

/// Decimal digit characters.
pub open spec fn is_digit(c: char) -> bool {
    '0' <= c && c <= '9'
}

/// Skips whitespace, counting lines and resetting the column after each
/// newline.
pub open spec fn spec_skip_ws(l: LexerV) -> LexerV
    decreases l.input.len() - l.position,
{
    if is_ws(l.ch) && 0 <= l.position && l.position < l.input.len() {
        let l1 = spec_advance(l);
        let l2 = if l.ch == '\n' {
            LexerV { line: l1.line + 1, column: 1, ..l1 }
        } else {
            l1
        };
        spec_skip_ws(l2)
    } else {
        l
    }
}

/// Scans to the end of an identifier.
pub open spec fn spec_scan_ident(l: LexerV) -> LexerV
    decreases l.input.len() - l.position,
{
    if is_letter_or_digit(l.ch) && 0 <= l.position && l.position < l.input.len() {
        spec_scan_ident(spec_advance(l))
    } else {
        l
    }
}

/// Scans to the end of an integer literal.
pub open spec fn spec_scan_digits(l: LexerV) -> LexerV
    decreases l.input.len() - l.position,
{
    if is_digit(l.ch) && 0 <= l.position && l.position < l.input.len() {
        spec_scan_digits(spec_advance(l))
    } else {
        l
    }
}

/// Scans the body of a string literal: stops just before the closing
/// unescaped quote, or at the end of the input.  A backslash quotes the
/// character after it.
pub open spec fn spec_scan_string(l: LexerV, escaped: bool) -> LexerV
    decreases l.input.len() - l.position, (if escaped { 1int } else { 0int }),
{
    if (escaped || (spec_peek(l) != '"' && spec_peek(l) != '\0')) && 0 <= l.position
        && l.position < l.input.len() {
        let l1 = spec_advance(l);
        spec_scan_string(l1, l1.ch == '\\')
    } else if escaped && 0 <= l.position {
        spec_scan_string(l, false)
    } else {
        l
    }
}

/// The expansion of a supported escape character, if any.
pub open spec fn spec_escape_char(c: char) -> Option<char> {
    if c == 'n' {
        Option::Some('\n')
    } else if c == 't' {
        Option::Some('\t')
    } else if c == 'r' {
        Option::Some('\r')
    } else if c == '\\' {
        Option::Some('\\')
    } else if c == '"' {
        Option::Some('"')
    } else if c == '\'' {
        Option::Some('\'')
    } else {
        Option::None
    }
}

/// Expands the supported escapes in a string literal body, left to
/// right; a backslash before any other character is kept as it stands.
pub open spec fn spec_decode(s: Seq<char>) -> Seq<char>
    decreases s.len(),
{
    if s.len() == 0 {
        Seq::<char>::empty()
    } else if s[0] == '\\' && s.len() >= 2 && spec_escape_char(s[1]) is Some {
        seq![spec_escape_char(s[1])->Some_0] + spec_decode(s.skip(2))
    } else {
        seq![s[0]] + spec_decode(s.skip(1))
    }
}

/// The numeric value of a digit character.
pub open spec fn digit_val(c: char) -> int {
    c as int - '0' as int
}

/// The value of a digit string read as a decimal number.
pub open spec fn spec_digits_val(s: Seq<char>) -> int
    decreases s.len(),
{
    if s.len() == 0 {
        0
    } else {
        spec_digits_val(s.drop_last()) * 10 + digit_val(s.last())
    }
}

/// A digit string's value is non-negative.
pub proof fn lemma_digits_val_nonneg(s: Seq<char>)
    requires
        forall|i: int| 0 <= i < s.len() ==> is_digit(#[trigger] s[i]),
    ensures
        spec_digits_val(s) >= 0,
    decreases s.len(),
{
    if s.len() > 0 {
        lemma_digits_val_nonneg(s.drop_last());
    }
}

/// Formatting a non-negative number and reading the digits back is the
/// identity: the scanner's value function inverts the decimal
/// formatter, so integer literals survive a display round trip.
pub proof fn lemma_digits_round_trip(n: int)
    requires
        n >= 0,
    ensures
        spec_digits_val(crate::strutil::spec_nat_digits(n)) == n,
    decreases n,
{
    if n > 0 {
        lemma_digits_round_trip(n / 10);
        let ds = crate::strutil::spec_nat_digits(n);
        assert(ds == crate::strutil::spec_nat_digits(n / 10).push(
            crate::strutil::digit_char(n % 10),
        ));
        assert(ds.drop_last() =~= crate::strutil::spec_nat_digits(n / 10));
        assert(digit_val(crate::strutil::digit_char(n % 10)) == n % 10);
    }
}

/// The largest value an `INT` token can carry.
pub open spec fn i64_max() -> int {
    0x7fff_ffff_ffff_ffff
}

/// A token of the given kind, stamped with the position of its first
/// character, with the scanner stepped past that character.
pub open spec fn spec_single(l: LexerV, kind: TokenTypeV) -> (Result<TokenV, ErrV>, LexerV) {
    (
        Result::Ok(TokenV { kind, line: l.line as u32, column: l.column as u32 }),
        spec_advance(l),
    )
}

/// Lookahead disambiguation for `==`-like operators: if the next
/// character is `second`, the two-character token is taken.  Either
/// way the token carries its first character's position.
pub open spec fn spec_two_char(l: LexerV, second: char, two: TokenTypeV, one: TokenTypeV) -> (
    Result<TokenV, ErrV>,
    LexerV,
) {
    if spec_peek(l) == second {
        let l1 = spec_advance(l);
        (
            Result::Ok(TokenV { kind: two, line: l.line as u32, column: l.column as u32 }),
            spec_advance(l1),
        )
    } else {
        spec_single(l, one)
    }
}

/// The classification of an identifier lexeme: reserved words map to
/// their keyword kind.
pub open spec fn spec_ident_kind(lexeme: Seq<char>) -> TokenTypeV {
    if lexeme == "fn"@ {
        TokenTypeV::FUNCTION
    } else if lexeme == "let"@ {
        TokenTypeV::LET
    } else if lexeme == "true"@ {
        TokenTypeV::TRUE
    } else if lexeme == "false"@ {
        TokenTypeV::FALSE
    } else if lexeme == "if"@ {
        TokenTypeV::IF
    } else if lexeme == "else"@ {
        TokenTypeV::ELSE
    } else if lexeme == "return"@ {
        TokenTypeV::RETURN
    } else {
        TokenTypeV::IDENT(lexeme)
    }
}

/// One scanning step: skips whitespace, then reads one token.
///
/// Produces the token (or the unfinished-string error) together with
/// the scanner state after it.  Every token records the line and
/// column of its first character.  An integer literal that does not fit a
/// 64-bit signed integer yields an `ILLEGAL` token carrying its first
/// digit rather than wrapping around.
pub open spec fn spec_next_token(l0: LexerV) -> (Result<TokenV, ErrV>, LexerV) {
    let l = spec_skip_ws(l0);
    if l.ch == '=' {
        spec_two_char(l, '=', TokenTypeV::EQ, TokenTypeV::ASSIGN)
    } else if l.ch == '+' {
        spec_single(l, TokenTypeV::PLUS)
    } else if l.ch == '-' {
        spec_single(l, TokenTypeV::MINUS)
    } else if l.ch == '!' {
        spec_two_char(l, '=', TokenTypeV::NOT_EQ, TokenTypeV::BANG)
    } else if l.ch == '*' {
        spec_single(l, TokenTypeV::ASTERISK)
    } else if l.ch == '/' {
        spec_single(l, TokenTypeV::SLASH)
    } else if l.ch == '<' {
        spec_two_char(l, '=', TokenTypeV::LTE, TokenTypeV::LT)
    } else if l.ch == '>' {
        spec_two_char(l, '=', TokenTypeV::GTE, TokenTypeV::GT)
    } else if l.ch == ',' {
        spec_single(l, TokenTypeV::COMMA)
    } else if l.ch == ';' {
        spec_single(l, TokenTypeV::SEMICOLON)
    } else if l.ch == '(' {
        spec_single(l, TokenTypeV::LPAREN)
    } else if l.ch == ')' {
        spec_single(l, TokenTypeV::RPAREN)
    } else if l.ch == '{' {
        spec_single(l, TokenTypeV::LBRACE)
    } else if l.ch == '}' {
        spec_single(l, TokenTypeV::RBRACE)
    } else if l.ch == '[' {
        spec_single(l, TokenTypeV::LBRACKET)
    } else if l.ch == ']' {
        spec_single(l, TokenTypeV::RBRACKET)
    } else if l.ch == '\0' {
        (
            Result::Ok(
                TokenV { kind: TokenTypeV::EOF, line: l.line as u32, column: l.column as u32 },
            ),
            spec_advance(l),
        )
    } else if is_letter(l.ch) {
        let le = spec_scan_ident(l);
        let lexeme = l.input.subrange(l.position, le.position);
        (
            Result::Ok(
                TokenV {
                    kind: spec_ident_kind(lexeme),
                    line: l.line as u32,
                    column: l.column as u32,
                },
            ),
            le,
        )
    } else if is_digit(l.ch) {
        let le = spec_scan_digits(l);
        let lexeme = l.input.subrange(l.position, le.position);
        let kind = if spec_digits_val(lexeme) <= i64_max() {
            TokenTypeV::INT(spec_digits_val(lexeme) as i64)
        } else {
            TokenTypeV::ILLEGAL(lexeme[0])
        };
        (
            Result::Ok(TokenV { kind, line: l.line as u32, column: l.column as u32 }),
            le,
        )
    } else if l.ch == '"' {
        let ls = spec_scan_string(l, false);
        let lq = spec_advance(ls);
        let raw = l.input.subrange(l.position + 1, lq.position);
        if lq.ch == '"' {
            let l2 = spec_advance(lq);
            (
                Result::Ok(
                    TokenV {
                        kind: TokenTypeV::STRING(spec_decode(raw)),
                        line: l.line as u32,
                        column: l.column as u32,
                    },
                ),
                l2,
            )
        } else {
            (
                Result::Err(
                    ErrV::UnfinishedString {
                        actual: raw,
                        line: l.line as u32,
                        column: l.column as u32,
                    },
                ),
                lq,
            )
        }
    } else {
        spec_single(l, TokenTypeV::ILLEGAL(l.ch))
    }
}

/// Whether an executable scan result matches the modelled one.
pub open spec fn lex_result_matches(
    r: Result<Token, EvaluatorError>,
    s: Result<TokenV, ErrV>,
) -> bool {
    match (r, s) {
        (Result::Ok(t), Result::Ok(tv)) => t@ == tv,
        (Result::Err(e), Result::Err(ev)) => e@ == ev,
        _ => false,
    }
}

/// The character-by-character scanner.  It owns its input for its
/// lifetime; `reset` re-arms it for another line.
#[derive(Debug)]
pub struct Lexer {
    pub input: Vec<char>,
    pub position: usize,
    pub read_position: usize,
    pub ch: char,
    pub line: u32,
    pub column: u32,
}

impl View for Lexer {
    type V = LexerV;

    open spec fn view(&self) -> LexerV {
        LexerV {
            input: self.input@,
            position: self.position as int,
            ch: self.ch,
            line: self.line as int,
            column: self.column as int,
        }
    }
}

impl Default for Lexer {
    /// A scanner over the empty input.
    fn default() -> (r: Self)
        ensures
            r.wf(),
            r@ == spec_new_lexer(Seq::<char>::empty()),
    {
        let r = Lexer::new(String::new());
        assert(r@.input =~= Seq::<char>::empty());
        r
    }
}

impl Lexer {
    /// Well-formedness: the model is well-formed, the input is short
    /// enough for 32-bit positions, and the read position trails the
    /// current one by exactly one.
    pub open spec fn wf(&self) -> bool {
        &&& lexv_wf(self@)
        &&& input_fits(self@.input)
        &&& self.read_position == self.position + 1
    }

    /// A scanner over a fresh input, positioned on its first character.
    pub fn new(input: String) -> (r: Lexer)
        requires
            input@.len() + 16 < 0x1_0000_0000,
        ensures
            r.wf(),
            r@ == spec_new_lexer(input@),
    {
        let chars = str_to_chars(input.as_str());
        let ch: char = if chars.len() > 0 {
            chars[0]
        } else {
            '\0'
        };
        Lexer { input: chars, position: 0, read_position: 1, ch, line: 1, column: 1 }
    }

    /// Re-arms the scanner over a new input.
    pub fn reset(&mut self, input: String)
        requires
            input@.len() + 16 < 0x1_0000_0000,
        ensures
            final(self).wf(),
            final(self)@ == spec_new_lexer(input@),
    {
        let chars = str_to_chars(input.as_str());
        let ch: char = if chars.len() > 0 {
            chars[0]
        } else {
            '\0'
        };
        self.input = chars;
        self.position = 0;
        self.read_position = 1;
        self.ch = ch;
        self.line = 1;
        self.column = 1;
    }

    /// Steps one character forward and returns the character now under
    /// examination; at the end of the input it stays put and returns
    /// the null character.
    pub fn next_char(&mut self) -> (c: char)
        requires
            old(self).wf(),
        ensures
            final(self).wf(),
            final(self)@ == spec_advance(old(self)@),
            c == final(self)@.ch,
    {
        let len = self.input.len();
        if self.read_position < len {
            self.ch = self.input[self.read_position];
            self.position = self.read_position;
            self.read_position = self.read_position + 1;
            self.column = self.column + 1;
        } else if self.position < len {
            self.ch = '\0';
            self.position = len;
            self.read_position = len + 1;
            self.column = self.column + 1;
        } else {
            self.ch = '\0';
        }
        self.ch
    }

    /// The lookahead character, one past the current position; the null
    /// character at the end of the input.
    pub fn peek_char(&self) -> (c: char)
        requires
            self.wf(),
        ensures
            c == spec_peek(self@),
    {
        if self.read_position < self.input.len() {
            self.input[self.read_position]
        } else {
            '\0'
        }
    }

    /// Skips whitespace, counting lines.
    fn skip_whitespace(&mut self)
        requires
            old(self).wf(),
        ensures
            final(self).wf(),
            final(self)@ == spec_skip_ws(old(self)@),
    {
        while self.ch == ' ' || self.ch == '\t' || self.ch == '\n' || self.ch == '\r'
            invariant
                self.wf(),
                spec_skip_ws(self@) == spec_skip_ws(old(self)@),
            decreases self@.input.len() - self@.position,
        {
            let ghost prev = self@;
            let is_newline = self.ch == '\n';
            self.next_char();
            if is_newline {
                self.line = self.line + 1;
                self.column = 1;
            }
            proof {
                assert(prev.position < prev.input.len());
                assert(spec_skip_ws(prev) == spec_skip_ws(self@));
            }
        }
    }
    /// Skips whitespace, then reads one token, stepping the scanner
    /// past it.  The token and the new state are exactly those of the
    /// modelled transition [`spec_next_token`].
    pub fn next_token(&mut self) -> (r: Result<Token, EvaluatorError>)
        requires
            old(self).wf(),
        ensures
            final(self).wf(),
            final(self)@ == spec_next_token(old(self)@).1,
            lex_result_matches(r, spec_next_token(old(self)@).0),
    {
        self.skip_whitespace();
        let ghost l = self@;
        let tline = self.line;
        let tcolumn = self.column;
        if self.ch == '=' {
            if self.peek_char() == '=' {
                self.next_char();
                let t = Token::new(TokenType::EQ, tline, tcolumn);
                self.next_char();
                Result::Ok(t)
            } else {
                let t = Token::new(TokenType::ASSIGN, tline, tcolumn);
                self.next_char();
                Result::Ok(t)
            }
        } else if self.ch == '+' {
            let t = Token::new(TokenType::PLUS, tline, tcolumn);
            self.next_char();
            Result::Ok(t)
        } else if self.ch == '-' {
            let t = Token::new(TokenType::MINUS, tline, tcolumn);
            self.next_char();
            Result::Ok(t)
        } else if self.ch == '!' {
            if self.peek_char() == '=' {
                self.next_char();
                let t = Token::new(TokenType::NOT_EQ, tline, tcolumn);
                self.next_char();
                Result::Ok(t)
            } else {
                let t = Token::new(TokenType::BANG, tline, tcolumn);
                self.next_char();
                Result::Ok(t)
            }
        } else if self.ch == '*' {
            let t = Token::new(TokenType::ASTERISK, tline, tcolumn);
            self.next_char();
            Result::Ok(t)
        } else if self.ch == '/' {
            let t = Token::new(TokenType::SLASH, tline, tcolumn);
            self.next_char();
            Result::Ok(t)
        } else if self.ch == '<' {
            if self.peek_char() == '=' {
                self.next_char();
                let t = Token::new(TokenType::LTE, tline, tcolumn);
                self.next_char();
                Result::Ok(t)
            } else {
                let t = Token::new(TokenType::LT, tline, tcolumn);
                self.next_char();
                Result::Ok(t)
            }
        } else if self.ch == '>' {
            if self.peek_char() == '=' {
                self.next_char();
                let t = Token::new(TokenType::GTE, tline, tcolumn);
                self.next_char();
                Result::Ok(t)
            } else {
                let t = Token::new(TokenType::GT, tline, tcolumn);
                self.next_char();
                Result::Ok(t)
            }
        } else if self.ch == ',' {
            let t = Token::new(TokenType::COMMA, tline, tcolumn);
            self.next_char();
            Result::Ok(t)
        } else if self.ch == ';' {
            let t = Token::new(TokenType::SEMICOLON, tline, tcolumn);
            self.next_char();
            Result::Ok(t)
        } else if self.ch == '(' {
            let t = Token::new(TokenType::LPAREN, tline, tcolumn);
            self.next_char();
            Result::Ok(t)
        } else if self.ch == ')' {
            let t = Token::new(TokenType::RPAREN, tline, tcolumn);
            self.next_char();
            Result::Ok(t)
        } else if self.ch == '{' {
            let t = Token::new(TokenType::LBRACE, tline, tcolumn);
            self.next_char();
            Result::Ok(t)
        } else if self.ch == '}' {
            let t = Token::new(TokenType::RBRACE, tline, tcolumn);
            self.next_char();
            Result::Ok(t)
        } else if self.ch == '[' {
            let t = Token::new(TokenType::LBRACKET, tline, tcolumn);
            self.next_char();
            Result::Ok(t)
        } else if self.ch == ']' {
            let t = Token::new(TokenType::RBRACKET, tline, tcolumn);
            self.next_char();
            Result::Ok(t)
        } else if self.ch == '\0' {
            let t = Token::new(TokenType::EOF, tline, tcolumn);
            self.next_char();
            Result::Ok(t)
        } else if is_letter_exec(self.ch) {
            let start = self.position;
            while is_letter_or_digit_exec(self.ch)
                invariant
                    self.wf(),
                    self@.input == l.input,
                    l.position <= self@.position,
                    spec_scan_ident(self@) == spec_scan_ident(l),
                decreases self@.input.len() - self@.position,
            {
                proof {
                    assert(self@.position < self@.input.len());
                }
                self.next_char();
            }
            assert(self@ == spec_scan_ident(l));
            let lexeme = copy_range(&self.input, start, self.position);
            let kind: TokenType = if crate::strutil::chars_eq_str(&lexeme, "fn") {
                TokenType::FUNCTION
            } else if crate::strutil::chars_eq_str(&lexeme, "let") {
                TokenType::LET
            } else if crate::strutil::chars_eq_str(&lexeme, "true") {
                TokenType::TRUE
            } else if crate::strutil::chars_eq_str(&lexeme, "false") {
                TokenType::FALSE
            } else if crate::strutil::chars_eq_str(&lexeme, "if") {
                TokenType::IF
            } else if crate::strutil::chars_eq_str(&lexeme, "else") {
                TokenType::ELSE
            } else if crate::strutil::chars_eq_str(&lexeme, "return") {
                TokenType::RETURN
            } else {
                TokenType::IDENT(chars_to_string(&lexeme))
            };
            Result::Ok(Token::new(kind, tline, tcolumn))
        } else if is_digit_exec(self.ch) {
            let start = self.position;
            while is_digit_exec(self.ch)
                invariant
                    self.wf(),
                    self@.input == l.input,
                    l.position <= self@.position,
                    spec_scan_digits(self@) == spec_scan_digits(l),
                    forall|k: int|
                        l.position <= k < self@.position ==> is_digit(
                            #[trigger] self@.input[k],
                        ),
                decreases self@.input.len() - self@.position,
            {
                proof {
                    assert(self@.position < self@.input.len());
                }
                self.next_char();
            }
            assert(self@ == spec_scan_digits(l));
            let lexeme = copy_range(&self.input, start, self.position);
            assert(forall|i: int|
                0 <= i < lexeme@.len() ==> is_digit(#[trigger] lexeme@[i]));
            let mut acc: u64 = 0;
            let mut overflow = false;
            let mut j: usize = 0;
            while j < lexeme.len()
                invariant
                    j <= lexeme@.len(),
                    forall|i: int| 0 <= i < lexeme@.len() ==> is_digit(#[trigger] lexeme@[i]),
                    !overflow ==> acc as int == spec_digits_val(lexeme@.take(j as int))
                        && acc as int <= i64_max(),
                    overflow ==> spec_digits_val(lexeme@.take(j as int)) > i64_max(),
                decreases lexeme@.len() - j,
            {
                let c = lexeme[j];
                let d: u64 = (c as u32 as u64) - 48;
                assert(d as int == digit_val(c) && 0 <= d <= 9);
                proof {
                    assert(lexeme@.take(j as int + 1).drop_last() =~= lexeme@.take(j as int));
                }
                if overflow {
                    proof {
                        assert(forall|i: int|
                            0 <= i < lexeme@.take(j as int).len() ==> is_digit(
                                #[trigger] lexeme@.take(j as int)[i],
                            ));
                        lemma_digits_val_nonneg(lexeme@.take(j as int));
                        assert(spec_digits_val(lexeme@.take(j as int + 1)) > i64_max())
                            by (nonlinear_arith)
                            requires
                                spec_digits_val(lexeme@.take(j as int + 1)) == spec_digits_val(
                                    lexeme@.take(j as int),
                                ) * 10 + d,
                                spec_digits_val(lexeme@.take(j as int)) > i64_max(),
                                d >= 0,
                        ;
                    }
                } else if acc <= (9223372036854775807u64 - d) / 10 {
                    proof {
                        assert(acc as int * 10 + d as int <= i64_max()) by (nonlinear_arith)
                            requires
                                0 <= acc as int <= (i64_max() - d) / 10,
                                0 <= d <= 9,
                        ;
                    }
                    acc = acc * 10 + d;
                } else {
                    proof {
                        assert(acc as int * 10 + d as int > i64_max()) by (nonlinear_arith)
                            requires
                                acc as int > (i64_max() - d) / 10,
                                0 <= acc as int,
                                0 <= d <= 9,
                        ;
                    }
                    overflow = true;
                }
                j = j + 1;
            }
            assert(lexeme@.take(lexeme@.len() as int) =~= lexeme@);
            let kind: TokenType = if overflow {
                TokenType::ILLEGAL(lexeme[0])
            } else {
                TokenType::INT(acc as i64)
            };
            Result::Ok(Token::new(kind, tline, tcolumn))
        } else if self.ch == '"' {
            let start_line = self.line;
            let start_column = self.column;
            let start = self.position + 1;
            let mut is_escaped = false;
            while is_escaped || (self.peek_char() != '"' && self.peek_char() != '\0')
                invariant
                    self.wf(),
                    self@.input == l.input,
                    l.position <= self@.position,
                    self@.line == l.line,
                    spec_scan_string(self@, is_escaped) == spec_scan_string(l, false),
                decreases 2 * (self@.input.len() - self@.position) + (if is_escaped {
                    1int
                } else {
                    0int
                }),
            {
                let ghost prev = self@;
                let ghost prev_esc = is_escaped;
                is_escaped = false;
                self.next_char();
                if self.ch == '\\' {
                    is_escaped = true;
                }
                proof {
                    if prev.position < prev.input.len() {
                        assert(spec_scan_string(prev, prev_esc) == spec_scan_string(
                            self@,
                            is_escaped,
                        ));
                    } else {
                        assert(self@ == prev);
                        assert(spec_scan_string(prev, prev_esc) == spec_scan_string(
                            self@,
                            is_escaped,
                        ));
                    }
                }
            }
            assert(self@ == spec_scan_string(l, false));
            self.next_char();
            let raw = copy_range(&self.input, start, self.position);
            if self.ch != '"' {
                Result::Err(
                    EvaluatorError::unfinished_string(
                        chars_to_string(&raw),
                        start_line,
                        start_column,
                    ),
                )
            } else {
                let decoded = decode_escapes(&raw);
                let s = chars_to_string(&decoded);
                self.next_char();
                Result::Ok(Token::new(TokenType::STRING(s), tline, tcolumn))
            }
        } else {
            let t = Token::new(TokenType::ILLEGAL(self.ch), tline, tcolumn);
            self.next_char();
            Result::Ok(t)
        }
    }
}

/// Whether a character may start an identifier.
pub fn is_letter_exec(c: char) -> (r: bool)
    ensures
        r == is_letter(c),
{
    ('a' <= c && c <= 'z') || ('A' <= c && c <= 'Z') || c == '_'
}

/// Whether a character may continue an identifier.
pub fn is_letter_or_digit_exec(c: char) -> (r: bool)
    ensures
        r == is_letter_or_digit(c),
{
    is_letter_exec(c) || is_digit_exec(c)
}

/// Whether a character is a decimal digit.
pub fn is_digit_exec(c: char) -> (r: bool)
    ensures
        r == is_digit(c),
{
    '0' <= c && c <= '9'
}

/// Copies the characters of `v` between `start` and `end`.
fn copy_range(v: &Vec<char>, start: usize, end: usize) -> (r: Vec<char>)
    requires
        start <= end <= v@.len(),
    ensures
        r@ == v@.subrange(start as int, end as int),
{
    let mut r: Vec<char> = Vec::new();
    let mut j: usize = start;
    while j < end
        invariant
            start <= j <= end <= v@.len(),
            r@ == v@.subrange(start as int, j as int),
        decreases end - j,
    {
        r.push(v[j]);
        j = j + 1;
        assert(r@ =~= v@.subrange(start as int, j as int));
    }
    r
}

/// Expands the supported escapes of a string literal body, starting at
/// index `i`.
fn decode_escapes_from(raw: &Vec<char>, i: usize, out: &mut Vec<char>)
    requires
        i <= raw@.len(),
    ensures
        final(out)@ == old(out)@ + spec_decode(raw@.skip(i as int)),
    decreases raw@.len() - i,
{
    let ghost s = raw@.skip(i as int);
    if i < raw.len() {
        let c = raw[i];
        if c == '\\' && i + 1 < raw.len() {
            let e = raw[i + 1];
            let decoded: Option<char> = if e == 'n' {
                Option::Some('\n')
            } else if e == 't' {
                Option::Some('\t')
            } else if e == 'r' {
                Option::Some('\r')
            } else if e == '\\' {
                Option::Some('\\')
            } else if e == '"' {
                Option::Some('"')
            } else if e == '\'' {
                Option::Some('\'')
            } else {
                Option::None
            };
            match decoded {
                Option::Some(d) => {
                    out.push(d);
                    decode_escapes_from(raw, i + 2, out);
                    assert(s.skip(2) =~= raw@.skip(i as int + 2));
                },
                Option::None => {
                    out.push(c);
                    decode_escapes_from(raw, i + 1, out);
                    assert(s.skip(1) =~= raw@.skip(i as int + 1));
                },
            }
        } else {
            out.push(c);
            decode_escapes_from(raw, i + 1, out);
            assert(s.skip(1) =~= raw@.skip(i as int + 1));
        }
    }
    assert(final(out)@ =~= old(out)@ + spec_decode(raw@.skip(i as int)));
}

/// Expands the supported escapes of a string literal body.
fn decode_escapes(raw: &Vec<char>) -> (r: Vec<char>)
    ensures
        r@ == spec_decode(raw@),
{
    let mut out: Vec<char> = Vec::new();
    decode_escapes_from(raw, 0, &mut out);
    assert(raw@.skip(0) =~= raw@);
    out
}

/// Skipping whitespace stays inside the input, moving only forward.
pub proof fn lemma_skip_ws_props(l: LexerV)
    requires
        lexv_wf(l),
    ensures
        lexv_wf(spec_skip_ws(l)),
        spec_skip_ws(l).input == l.input,
        spec_skip_ws(l).position >= l.position,
        is_ws(l.ch) ==> spec_skip_ws(l).position > l.position,
    decreases l.input.len() - l.position,
{
    if is_ws(l.ch) && 0 <= l.position && l.position < l.input.len() {
        let l1 = spec_advance(l);
        let l2 = if l.ch == '\n' {
            LexerV { line: l1.line + 1, column: 1, ..l1 }
        } else {
            l1
        };
        lemma_skip_ws_props(l2);
    }
}

/// Scanning an identifier stays inside the input, moving only forward.
pub proof fn lemma_scan_ident_props(l: LexerV)
    requires
        lexv_wf(l),
    ensures
        lexv_wf(spec_scan_ident(l)),
        spec_scan_ident(l).input == l.input,
        spec_scan_ident(l).position >= l.position,
        is_letter_or_digit(l.ch) ==> spec_scan_ident(l).position > l.position,
    decreases l.input.len() - l.position,
{
    if is_letter_or_digit(l.ch) && 0 <= l.position && l.position < l.input.len() {
        lemma_scan_ident_props(spec_advance(l));
    }
}

/// Scanning an integer literal stays inside the input, moving only
/// forward.
pub proof fn lemma_scan_digits_props(l: LexerV)
    requires
        lexv_wf(l),
    ensures
        lexv_wf(spec_scan_digits(l)),
        spec_scan_digits(l).input == l.input,
        spec_scan_digits(l).position >= l.position,
        is_digit(l.ch) ==> spec_scan_digits(l).position > l.position,
    decreases l.input.len() - l.position,
{
    if is_digit(l.ch) && 0 <= l.position && l.position < l.input.len() {
        lemma_scan_digits_props(spec_advance(l));
    }
}

/// Scanning a string body stays inside the input, moving only forward.
pub proof fn lemma_scan_string_props(l: LexerV, escaped: bool)
    requires
        lexv_wf(l),
    ensures
        lexv_wf(spec_scan_string(l, escaped)),
        spec_scan_string(l, escaped).input == l.input,
        spec_scan_string(l, escaped).position >= l.position,
    decreases l.input.len() - l.position, (if escaped { 1int } else { 0int }),
{
    if (escaped || (spec_peek(l) != '"' && spec_peek(l) != '\0')) && 0 <= l.position
        && l.position < l.input.len() {
        let l1 = spec_advance(l);
        lemma_scan_string_props(l1, l1.ch == '\\');
    } else if escaped && 0 <= l.position {
        lemma_scan_string_props(l, false);
    }
}

/// One scan step keeps the state well formed over the same input and
/// strictly advances the position unless the input is exhausted.
pub proof fn lemma_next_token_progress(l: LexerV)
    requires
        lexv_wf(l),
    ensures
        lexv_wf(spec_next_token(l).1),
        spec_next_token(l).1.input == l.input,
        spec_next_token(l).1.position >= l.position,
        l.position < l.input.len() ==> spec_next_token(l).1.position > l.position,
{
    lemma_skip_ws_props(l);
    let lw = spec_skip_ws(l);
    if is_letter(lw.ch) {
        lemma_scan_ident_props(lw);
    } else if is_digit(lw.ch) {
        lemma_scan_digits_props(lw);
    } else if lw.ch == '"' {
        lemma_scan_string_props(lw, false);
    }
}

/// At the end of the input the scanner is a fixpoint: it yields `EOF`
/// and leaves the state unchanged, so every later read yields `EOF`
/// too.
pub proof fn lemma_next_token_at_end(l: LexerV)
    requires
        lexv_wf(l),
        l.position == l.input.len(),
    ensures
        spec_next_token(l).1 == l,
        spec_next_token(l).0 == Result::<TokenV, ErrV>::Ok(
            TokenV { kind: TokenTypeV::EOF, line: l.line as u32, column: l.column as u32 },
        ),
{
    assert(l.ch == '\0');
    assert(spec_skip_ws(l) == l);
    assert(spec_advance(l) == l);
}

} // verus!
