//! Lexical tokens, their source positions, and the operator precedence
//! table used by the parser.

use vstd::prelude::*;
use crate::strutil::{chars_to_string, push_i64_chars, push_str_chars, push_usize_chars,
    spec_i64_string, spec_usize_string};

verus! {

/// The kind of a lexical token, carrying the literal's payload where one
/// exists.
#[allow(non_camel_case_types)]
#[derive(Debug, PartialEq)]
pub enum TokenType {
    ILLEGAL(char),
    EOF,
    IDENT(String),
    INT(i64),
    STRING(String),
    ASSIGN,
    PLUS,
    MINUS,
    BANG,
    ASTERISK,
    SLASH,
    LT,
    GT,
    LTE,
    GTE,
    EQ,
    NOT_EQ,
    COMMA,
    SEMICOLON,
    LPAREN,
    RPAREN,
    LBRACE,
    RBRACE,
    LBRACKET,
    RBRACKET,
    FUNCTION,
    LET,
    TRUE,
    FALSE,
    IF,
    ELSE,
    RETURN,
}

/// Mathematical model of a token kind: payloads are plain sequences and
/// integers, so equality is structural.
#[allow(non_camel_case_types)]
pub enum TokenTypeV {
    ILLEGAL(char),
    EOF,
    IDENT(Seq<char>),
    INT(i64),
    STRING(Seq<char>),
    ASSIGN,
    PLUS,
    MINUS,
    BANG,
    ASTERISK,
    SLASH,
    LT,
    GT,
    LTE,
    GTE,
    EQ,
    NOT_EQ,
    COMMA,
    SEMICOLON,
    LPAREN,
    RPAREN,
    LBRACE,
    RBRACE,
    LBRACKET,
    RBRACKET,
    FUNCTION,
    LET,
    TRUE,
    FALSE,
    IF,
    ELSE,
    RETURN,
}

impl View for TokenType {
    type V = TokenTypeV;

    open spec fn view(&self) -> TokenTypeV {
        match self {
            TokenType::ILLEGAL(c) => TokenTypeV::ILLEGAL(*c),
            TokenType::EOF => TokenTypeV::EOF,
            TokenType::IDENT(s) => TokenTypeV::IDENT(s@),
            TokenType::INT(i) => TokenTypeV::INT(*i),
            TokenType::STRING(s) => TokenTypeV::STRING(s@),
            TokenType::ASSIGN => TokenTypeV::ASSIGN,
            TokenType::PLUS => TokenTypeV::PLUS,
            TokenType::MINUS => TokenTypeV::MINUS,
            TokenType::BANG => TokenTypeV::BANG,
            TokenType::ASTERISK => TokenTypeV::ASTERISK,
            TokenType::SLASH => TokenTypeV::SLASH,
            TokenType::LT => TokenTypeV::LT,
            TokenType::GT => TokenTypeV::GT,
            TokenType::LTE => TokenTypeV::LTE,
            TokenType::GTE => TokenTypeV::GTE,
            TokenType::EQ => TokenTypeV::EQ,
            TokenType::NOT_EQ => TokenTypeV::NOT_EQ,
            TokenType::COMMA => TokenTypeV::COMMA,
            TokenType::SEMICOLON => TokenTypeV::SEMICOLON,
            TokenType::LPAREN => TokenTypeV::LPAREN,
            TokenType::RPAREN => TokenTypeV::RPAREN,
            TokenType::LBRACE => TokenTypeV::LBRACE,
            TokenType::RBRACE => TokenTypeV::RBRACE,
            TokenType::LBRACKET => TokenTypeV::LBRACKET,
            TokenType::RBRACKET => TokenTypeV::RBRACKET,
            TokenType::FUNCTION => TokenTypeV::FUNCTION,
            TokenType::LET => TokenTypeV::LET,
            TokenType::TRUE => TokenTypeV::TRUE,
            TokenType::FALSE => TokenTypeV::FALSE,
            TokenType::IF => TokenTypeV::IF,
            TokenType::ELSE => TokenTypeV::ELSE,
            TokenType::RETURN => TokenTypeV::RETURN,
        }
    }
}

impl Clone for TokenType {
    /// Clones preserve the modelled token kind exactly.
    fn clone(&self) -> (r: Self)
        ensures
            r@ == self@,
    {
        match self {
            TokenType::ILLEGAL(c) => TokenType::ILLEGAL(*c),
            TokenType::EOF => TokenType::EOF,
            TokenType::IDENT(s) => TokenType::IDENT(s.clone()),
            TokenType::INT(i) => TokenType::INT(*i),
            TokenType::STRING(s) => TokenType::STRING(s.clone()),
            TokenType::ASSIGN => TokenType::ASSIGN,
            TokenType::PLUS => TokenType::PLUS,
            TokenType::MINUS => TokenType::MINUS,
            TokenType::BANG => TokenType::BANG,
            TokenType::ASTERISK => TokenType::ASTERISK,
            TokenType::SLASH => TokenType::SLASH,
            TokenType::LT => TokenType::LT,
            TokenType::GT => TokenType::GT,
            TokenType::LTE => TokenType::LTE,
            TokenType::GTE => TokenType::GTE,
            TokenType::EQ => TokenType::EQ,
            TokenType::NOT_EQ => TokenType::NOT_EQ,
            TokenType::COMMA => TokenType::COMMA,
            TokenType::SEMICOLON => TokenType::SEMICOLON,
            TokenType::LPAREN => TokenType::LPAREN,
            TokenType::RPAREN => TokenType::RPAREN,
            TokenType::LBRACE => TokenType::LBRACE,
            TokenType::RBRACE => TokenType::RBRACE,
            TokenType::LBRACKET => TokenType::LBRACKET,
            TokenType::RBRACKET => TokenType::RBRACKET,
            TokenType::FUNCTION => TokenType::FUNCTION,
            TokenType::LET => TokenType::LET,
            TokenType::TRUE => TokenType::TRUE,
            TokenType::FALSE => TokenType::FALSE,
            TokenType::IF => TokenType::IF,
            TokenType::ELSE => TokenType::ELSE,
            TokenType::RETURN => TokenType::RETURN,
        }
    }
}

/// The display form of a token kind: single-character operators print as
/// themselves, literals print with a tag, keywords print in upper case.
pub open spec fn spec_token_type_string(t: TokenTypeV) -> Seq<char> {
    match t {
        TokenTypeV::ILLEGAL(c) => "ILLEGAL: "@.push(c),
        TokenTypeV::EOF => "EOF"@,
        TokenTypeV::IDENT(s) => "IDENT: "@ + s,
        TokenTypeV::INT(i) => "INT: "@ + spec_i64_string(i as int),
        TokenTypeV::STRING(s) => "STRING: "@ + s,
        TokenTypeV::ASSIGN => "="@,
        TokenTypeV::PLUS => "+"@,
        TokenTypeV::MINUS => "-"@,
        TokenTypeV::BANG => "!"@,
        TokenTypeV::ASTERISK => "*"@,
        TokenTypeV::SLASH => "/"@,
        TokenTypeV::LT => "<"@,
        TokenTypeV::GT => ">"@,
        TokenTypeV::LTE => "<="@,
        TokenTypeV::GTE => ">="@,
        TokenTypeV::EQ => "=="@,
        TokenTypeV::NOT_EQ => "!="@,
        TokenTypeV::COMMA => ","@,
        TokenTypeV::SEMICOLON => ";"@,
        TokenTypeV::LPAREN => "("@,
        TokenTypeV::RPAREN => ")"@,
        TokenTypeV::LBRACE => "{"@,
        TokenTypeV::RBRACE => "}"@,
        TokenTypeV::LBRACKET => "["@,
        TokenTypeV::RBRACKET => "]"@,
        TokenTypeV::FUNCTION => "FUNCTION"@,
        TokenTypeV::LET => "LET"@,
        TokenTypeV::TRUE => "TRUE"@,
        TokenTypeV::FALSE => "FALSE"@,
        TokenTypeV::IF => "IF"@,
        TokenTypeV::ELSE => "ELSE"@,
        TokenTypeV::RETURN => "RETURN"@,
    }
}

impl TokenType {
    /// Appends this kind's display form to a character buffer.
    pub fn push_display(&self, out: &mut Vec<char>)
        ensures
            final(out)@ == old(out)@ + spec_token_type_string(self@),
    {
        match self {
            TokenType::ILLEGAL(c) => {
                push_str_chars(out, "ILLEGAL: ");
                out.push(*c);
                assert(out@ =~= old(out)@ + spec_token_type_string(self@));
            },
            TokenType::EOF => push_str_chars(out, "EOF"),
            TokenType::IDENT(s) => {
                push_str_chars(out, "IDENT: ");
                let sv = crate::strutil::str_to_chars(s.as_str());
                crate::strutil::push_chars(out, &sv);
                assert(out@ =~= old(out)@ + spec_token_type_string(self@));
            },
            TokenType::INT(i) => {
                push_str_chars(out, "INT: ");
                push_i64_chars(out, *i);
                assert(out@ =~= old(out)@ + spec_token_type_string(self@));
            },
            TokenType::STRING(s) => {
                push_str_chars(out, "STRING: ");
                let sv = crate::strutil::str_to_chars(s.as_str());
                crate::strutil::push_chars(out, &sv);
                assert(out@ =~= old(out)@ + spec_token_type_string(self@));
            },
            TokenType::ASSIGN => push_str_chars(out, "="),
            TokenType::PLUS => push_str_chars(out, "+"),
            TokenType::MINUS => push_str_chars(out, "-"),
            TokenType::BANG => push_str_chars(out, "!"),
            TokenType::ASTERISK => push_str_chars(out, "*"),
            TokenType::SLASH => push_str_chars(out, "/"),
            TokenType::LT => push_str_chars(out, "<"),
            TokenType::GT => push_str_chars(out, ">"),
            TokenType::LTE => push_str_chars(out, "<="),
            TokenType::GTE => push_str_chars(out, ">="),
            TokenType::EQ => push_str_chars(out, "=="),
            TokenType::NOT_EQ => push_str_chars(out, "!="),
            TokenType::COMMA => push_str_chars(out, ","),
            TokenType::SEMICOLON => push_str_chars(out, ";"),
            TokenType::LPAREN => push_str_chars(out, "("),
            TokenType::RPAREN => push_str_chars(out, ")"),
            TokenType::LBRACE => push_str_chars(out, "{"),
            TokenType::RBRACE => push_str_chars(out, "}"),
            TokenType::LBRACKET => push_str_chars(out, "["),
            TokenType::RBRACKET => push_str_chars(out, "]"),
            TokenType::FUNCTION => push_str_chars(out, "FUNCTION"),
            TokenType::LET => push_str_chars(out, "LET"),
            TokenType::TRUE => push_str_chars(out, "TRUE"),
            TokenType::FALSE => push_str_chars(out, "FALSE"),
            TokenType::IF => push_str_chars(out, "IF"),
            TokenType::ELSE => push_str_chars(out, "ELSE"),
            TokenType::RETURN => push_str_chars(out, "RETURN"),
        }
    }

    /// The display form of this kind as a `String`.
    pub fn to_display_string(&self) -> (r: String)
        ensures
            r@ == spec_token_type_string(self@),
    {
        let mut out: Vec<char> = Vec::new();
        self.push_display(&mut out);
        chars_to_string(&out)
    }
}

/// Binding strength of infix operators, lowest to highest.
#[derive(Clone, Copy, PartialEq, Eq, Structural, Debug)]
pub enum Precedence {
    LOWEST,
    /// `==` and `!=`
    EQUALS,
    /// `<`, `>`, `<=` and `>=`
    LESSGREATER,
    /// `+` and `-`
    SUM,
    /// `*` and `/`
    PRODUCT,
    /// `-x` and `!x`
    PREFIX,
    /// a call's `(`
    CALL,
    /// an index's `[`
    INDEX,
}

/// The numeric rank of a precedence level.
pub open spec fn spec_precedence_value(p: Precedence) -> u8 {
    match p {
        Precedence::LOWEST => 1,
        Precedence::EQUALS => 2,
        Precedence::LESSGREATER => 3,
        Precedence::SUM => 4,
        Precedence::PRODUCT => 5,
        Precedence::PREFIX => 6,
        Precedence::CALL => 7,
        Precedence::INDEX => 8,
    }
}

impl Precedence {
    /// The numeric rank used to compare binding strengths.
    pub fn value(&self) -> (r: u8)
        ensures
            r == spec_precedence_value(*self),
    {
        match self {
            Precedence::LOWEST => 1,
            Precedence::EQUALS => 2,
            Precedence::LESSGREATER => 3,
            Precedence::SUM => 4,
            Precedence::PRODUCT => 5,
            Precedence::PREFIX => 6,
            Precedence::CALL => 7,
            Precedence::INDEX => 8,
        }
    }
}

/// The infix precedence of a token kind; token kinds with no infix role
/// rank `LOWEST`.
pub open spec fn spec_token_precedence(t: TokenTypeV) -> Precedence {
    match t {
        TokenTypeV::EQ => Precedence::EQUALS,
        TokenTypeV::NOT_EQ => Precedence::EQUALS,
        TokenTypeV::LT => Precedence::LESSGREATER,
        TokenTypeV::GT => Precedence::LESSGREATER,
        TokenTypeV::LTE => Precedence::LESSGREATER,
        TokenTypeV::GTE => Precedence::LESSGREATER,
        TokenTypeV::PLUS => Precedence::SUM,
        TokenTypeV::MINUS => Precedence::SUM,
        TokenTypeV::SLASH => Precedence::PRODUCT,
        TokenTypeV::ASTERISK => Precedence::PRODUCT,
        TokenTypeV::LPAREN => Precedence::CALL,
        TokenTypeV::LBRACKET => Precedence::INDEX,
        _ => Precedence::LOWEST,
    }
}

/// A token together with the line and column of its source position.
#[derive(Debug, PartialEq)]
pub struct Token {
    pub kind: TokenType,
    pub line: u32,
    pub column: u32,
}

/// Model of a token: the modelled kind plus its position.
pub struct TokenV {
    pub kind: TokenTypeV,
    pub line: u32,
    pub column: u32,
}

impl View for Token {
    type V = TokenV;

    open spec fn view(&self) -> TokenV {
        TokenV { kind: self.kind@, line: self.line, column: self.column }
    }
}

impl Clone for Token {
    /// Clones preserve the modelled token exactly.
    fn clone(&self) -> (r: Self)
        ensures
            r@ == self@,
    {
        Token { kind: self.kind.clone(), line: self.line, column: self.column }
    }
}

impl Default for Token {
    /// The end-of-input token at the zero position.
    fn default() -> (r: Self)
        ensures
            r@.kind is EOF,
            r@.line == 0u32,
            r@.column == 0u32,
    {
        Token { kind: TokenType::EOF, line: 0, column: 0 }
    }
}

/// The display form of a token: its kind followed by its position.
pub open spec fn spec_token_string(t: TokenV) -> Seq<char> {
    spec_token_type_string(t.kind) + " at line "@ + spec_usize_string(t.line as int)
        + ", column "@ + spec_usize_string(t.column as int)
}

impl Token {
    /// A token of the given kind at the zero position.
    pub fn with_type(kind: TokenType) -> (r: Self)
        ensures
            r@.kind == kind@,
            r@.line == 0u32,
            r@.column == 0u32,
    {
        Token { kind, line: 0, column: 0 }
    }

    /// A token of the given kind at the given position.
    pub fn new(kind: TokenType, line: u32, column: u32) -> (r: Self)
        ensures
            r@.kind == kind@,
            r@.line == line,
            r@.column == column,
    {
        Token { kind, line, column }
    }

    /// The display form of this token, kind and position.
    pub fn to_string(&self) -> (r: String)
        ensures
            r@ == spec_token_string(self@),
    {
        let mut out: Vec<char> = Vec::new();
        self.kind.push_display(&mut out);
        push_str_chars(&mut out, " at line ");
        push_usize_chars(&mut out, self.line as usize);
        push_str_chars(&mut out, ", column ");
        push_usize_chars(&mut out, self.column as usize);
        assert(out@ =~= spec_token_string(self@));
        chars_to_string(&out)
    }

    /// The infix precedence of this token's kind.
    pub fn to_precedence(&self) -> (r: Precedence)
        ensures
            r == spec_token_precedence(self@.kind),
    {
        match &self.kind {
            TokenType::EQ => Precedence::EQUALS,
            TokenType::NOT_EQ => Precedence::EQUALS,
            TokenType::LT => Precedence::LESSGREATER,
            TokenType::GT => Precedence::LESSGREATER,
            TokenType::LTE => Precedence::LESSGREATER,
            TokenType::GTE => Precedence::LESSGREATER,
            TokenType::PLUS => Precedence::SUM,
            TokenType::MINUS => Precedence::SUM,
            TokenType::SLASH => Precedence::PRODUCT,
            TokenType::ASTERISK => Precedence::PRODUCT,
            TokenType::LPAREN => Precedence::CALL,
            TokenType::LBRACKET => Precedence::INDEX,
            _ => Precedence::LOWEST,
        }
    }
}

} // verus!
