use interpreter::error::EvaluatorError;
use interpreter::lexer::Lexer;
use interpreter::token::{Token, TokenType};

#[test]
fn basic_tokens() {
    let input = "=+-*/!<>(){},;==!=<=>=";
    let expected_tokens = vec![
        TokenType::ASSIGN,
        TokenType::PLUS,
        TokenType::MINUS,
        TokenType::ASTERISK,
        TokenType::SLASH,
        TokenType::BANG,
        TokenType::LT,
        TokenType::GT,
        TokenType::LPAREN,
        TokenType::RPAREN,
        TokenType::LBRACE,
        TokenType::RBRACE,
        TokenType::COMMA,
        TokenType::SEMICOLON,
        TokenType::EQ,
        TokenType::NOT_EQ,
        TokenType::LTE,
        TokenType::GTE,
        TokenType::EOF,
    ];

    let mut lexer = Lexer::new(input.to_string());
    for expected_token in expected_tokens {
        let token = lexer.next_token().unwrap();
        assert_eq!(token.kind, expected_token);
    }

    assert_eq!(lexer.next_char(), '\0');
}

#[test]
fn full_list() {
    let input = r#"
            let five = 5;
            let ten = 10;

            let add = fn(x, y) {
                x + y;
            };

            let result = add(five, ten);

            if (5 < 10) {
                return true;
            } else {
                return false;
            }

            10 == 10;
            10 != 9;

            "foobar"
            "hello \"world\""
            "hello \n world"
            "hello \t\t\t world"
        "#;

    let expected_tokens = vec![
        Token::with_type(TokenType::LET),
        Token::with_type(TokenType::IDENT("five".to_string())),
        Token::with_type(TokenType::ASSIGN),
        Token::with_type(TokenType::INT(5)),
        Token::with_type(TokenType::SEMICOLON),
        Token::with_type(TokenType::LET),
        Token::with_type(TokenType::IDENT("ten".to_string())),
        Token::with_type(TokenType::ASSIGN),
        Token::with_type(TokenType::INT(10)),
        Token::with_type(TokenType::SEMICOLON),
        Token::with_type(TokenType::LET),
        Token::with_type(TokenType::IDENT("add".to_string())),
        Token::with_type(TokenType::ASSIGN),
        Token::with_type(TokenType::FUNCTION),
        Token::with_type(TokenType::LPAREN),
        Token::with_type(TokenType::IDENT("x".to_string())),
        Token::with_type(TokenType::COMMA),
        Token::with_type(TokenType::IDENT("y".to_string())),
        Token::with_type(TokenType::RPAREN),
        Token::with_type(TokenType::LBRACE),
        Token::with_type(TokenType::IDENT("x".to_string())),
        Token::with_type(TokenType::PLUS),
        Token::with_type(TokenType::IDENT("y".to_string())),
        Token::with_type(TokenType::SEMICOLON),
        Token::with_type(TokenType::RBRACE),
        Token::with_type(TokenType::SEMICOLON),
        Token::with_type(TokenType::LET),
        Token::with_type(TokenType::IDENT("result".to_string())),
        Token::with_type(TokenType::ASSIGN),
        Token::with_type(TokenType::IDENT("add".to_string())),
        Token::with_type(TokenType::LPAREN),
        Token::with_type(TokenType::IDENT("five".to_string())),
        Token::with_type(TokenType::COMMA),
        Token::with_type(TokenType::IDENT("ten".to_string())),
        Token::with_type(TokenType::RPAREN),
        Token::with_type(TokenType::SEMICOLON),
        Token::with_type(TokenType::IF),
        Token::with_type(TokenType::LPAREN),
        Token::with_type(TokenType::INT(5)),
        Token::with_type(TokenType::LT),
        Token::with_type(TokenType::INT(10)),
        Token::with_type(TokenType::RPAREN),
        Token::with_type(TokenType::LBRACE),
        Token::with_type(TokenType::RETURN),
        Token::with_type(TokenType::TRUE),
        Token::with_type(TokenType::SEMICOLON),
        Token::with_type(TokenType::RBRACE),
        Token::with_type(TokenType::ELSE),
        Token::with_type(TokenType::LBRACE),
        Token::with_type(TokenType::RETURN),
        Token::with_type(TokenType::FALSE),
        Token::with_type(TokenType::SEMICOLON),
        Token::with_type(TokenType::RBRACE),
        Token::with_type(TokenType::INT(10)),
        Token::with_type(TokenType::EQ),
        Token::with_type(TokenType::INT(10)),
        Token::with_type(TokenType::SEMICOLON),
        Token::with_type(TokenType::INT(10)),
        Token::with_type(TokenType::NOT_EQ),
        Token::with_type(TokenType::INT(9)),
        Token::with_type(TokenType::SEMICOLON),
        Token::with_type(TokenType::STRING("foobar".to_string())),
        Token::with_type(TokenType::STRING("hello \"world\"".to_string())),
        Token::with_type(TokenType::STRING("hello \n world".to_string())),
        Token::with_type(TokenType::STRING("hello \t\t\t world".to_string())),
        Token::with_type(TokenType::EOF),
    ];

    let mut lexer = Lexer::new(input.to_string());
    for expected_token in expected_tokens {
        let token = lexer.next_token().unwrap();
        assert_eq!(token.kind, expected_token.kind);

        match token.kind {
            TokenType::IDENT(literal) => {
                if let TokenType::IDENT(expected_literal) = expected_token.kind {
                    assert_eq!(literal, expected_literal);
                } else {
                    panic!("Expected IDENT, got {:?}", expected_token.kind);
                }
            }
            TokenType::INT(value) => {
                if let TokenType::INT(expected_value) = expected_token.kind {
                    assert_eq!(value, expected_value);
                } else {
                    panic!("Expected INT, got {:?}", expected_token.kind);
                }
            }
            _ => {}
        }
    }

    assert_eq!(lexer.next_char(), '\0');
}

#[test]
fn inline_addition() {
    let input = "5 + 6 * 7 - 8 / 9;";

    let expected_tokens = vec![
        Token::with_type(TokenType::INT(5)),
        Token::with_type(TokenType::PLUS),
        Token::with_type(TokenType::INT(6)),
        Token::with_type(TokenType::ASTERISK),
        Token::with_type(TokenType::INT(7)),
        Token::with_type(TokenType::MINUS),
        Token::with_type(TokenType::INT(8)),
        Token::with_type(TokenType::SLASH),
        Token::with_type(TokenType::INT(9)),
        Token::with_type(TokenType::SEMICOLON),
        Token::with_type(TokenType::EOF),
    ];

    let mut lexer = Lexer::new(input.to_string());
    for expected_token in expected_tokens {
        let token = lexer.next_token().unwrap();
        println!("{:?} {:?}", token.kind, expected_token.kind);
        assert_eq!(token.kind, expected_token.kind);

        match token.kind {
            TokenType::INT(value) => {
                if let TokenType::INT(expected_value) = expected_token.kind {
                    assert_eq!(value, expected_value);
                } else {
                    panic!("Expected INT, got {:?}", expected_token.kind);
                }
            }
            _ => {}
        }
    }
}

#[test]
fn unfinished_string_is_an_error() {
    let mut lexer = Lexer::new("\"abc".to_string());
    match lexer.next_token() {
        Err(EvaluatorError::UnfinishedString { actual, line, column }) => {
            assert_eq!(actual, "abc".to_string());
            assert_eq!(line, 1);
            assert_eq!(column, 1);
        }
        other => panic!("Expected an unfinished string error, got {:?}", other),
    }
    // After the error the lexer is at the end of its input.
    let token = lexer.next_token().unwrap();
    assert_eq!(token.kind, TokenType::EOF);
}

#[test]
fn integer_overflow_is_illegal() {
    // One past the largest 64-bit signed integer.
    let mut lexer = Lexer::new("9223372036854775808".to_string());
    let token = lexer.next_token().unwrap();
    assert_eq!(token.kind, TokenType::ILLEGAL('9'));
    // The largest value itself still lexes.
    let mut lexer2 = Lexer::new("9223372036854775807".to_string());
    let token2 = lexer2.next_token().unwrap();
    assert_eq!(token2.kind, TokenType::INT(9223372036854775807));
}

#[test]
fn eof_forever() {
    let mut lexer = Lexer::new("x".to_string());
    assert_eq!(
        lexer.next_token().unwrap().kind,
        TokenType::IDENT("x".to_string())
    );
    for _ in 0..5 {
        assert_eq!(lexer.next_token().unwrap().kind, TokenType::EOF);
    }
}

#[test]
fn positions_are_tracked() {
    let mut lexer = Lexer::new("a\nb".to_string());
    let a = lexer.next_token().unwrap();
    assert_eq!(a.line, 1);
    let b = lexer.next_token().unwrap();
    assert_eq!(b.line, 2);
}

#[test]
fn token_display() {
    let token = Token::new(TokenType::ASSIGN, 1, 2);
    assert_eq!(token.to_string(), "= at line 1, column 2".to_string());
    let token2 = Token::new(TokenType::INT(-42), 3, 4);
    assert_eq!(token2.to_string(), "INT: -42 at line 3, column 4".to_string());
}
