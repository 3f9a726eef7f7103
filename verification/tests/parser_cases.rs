use interpreter::ast::{parse_integer, Expression, LetStatement, ParseError, Parser, Statement};
use interpreter::token::{Token, TokenKind};

fn binding(variable: &str, expression: Expression) -> Statement {
    Statement::Let(LetStatement {
        variable: variable.to_string(),
        expression,
    })
}

#[test]
fn let_binds_an_integer_literal() {
    let mut parser = Parser::new("let foo = 5;");
    assert_eq!(
        parser.parse(),
        Ok(vec![binding("foo", Expression::IntegerLiteral(5))])
    );
}

#[test]
fn let_binds_an_identifier() {
    let mut parser = Parser::new("let foo = bar;");
    assert_eq!(
        parser.parse(),
        Ok(vec![binding(
            "foo",
            Expression::IdentifierLiteral("bar".to_string())
        )])
    );
}

#[test]
fn missing_assign_is_an_unexpected_token() {
    let mut parser = Parser::new("let foo 5;");
    assert_eq!(
        parser.parse(),
        Err(ParseError::UnexpectedToken {
            expected: TokenKind::Assign,
            found: Token::Int("5".to_string()),
            position: 2,
        })
    );
}

#[test]
fn failure_leaves_the_cursor_at_the_offending_token() {
    let mut parser = Parser::new("let foo 5;");
    assert!(parser.parse().is_err());
    assert_eq!(parser.peek(), Token::Int("5".to_string()));
    assert_eq!(parser.next(), Token::Int("5".to_string()));
    assert_eq!(parser.next(), Token::Semicolon);
    assert_eq!(parser.next(), Token::Eof);
    assert_eq!(parser.next(), Token::Eof);
}

#[test]
fn empty_program_has_no_statements() {
    assert_eq!(Parser::new("").parse(), Ok(vec![]));
    assert_eq!(Parser::new("  \n").parse(), Ok(vec![]));
}

#[test]
fn program_is_a_sequence_of_statements() {
    let mut parser = Parser::new("let a = 1;\nlet b = a; let c = 007;");
    assert_eq!(
        parser.parse(),
        Ok(vec![
            binding("a", Expression::IntegerLiteral(1)),
            binding("b", Expression::IdentifierLiteral("a".to_string())),
            binding("c", Expression::IntegerLiteral(7)),
        ])
    );
    assert_eq!(parser.peek(), Token::Eof);
}

#[test]
fn second_statement_can_fail() {
    let mut parser = Parser::new("let a = 1; let = 2;");
    assert_eq!(
        parser.parse(),
        Err(ParseError::UnexpectedToken {
            expected: TokenKind::Ident,
            found: Token::Assign,
            position: 6,
        })
    );
}

#[test]
fn statement_must_start_with_let() {
    assert_eq!(
        Parser::new("foo = 5;").parse(),
        Err(ParseError::UnsupportedStatement {
            found: Token::Ident("foo".to_string()),
            position: 0,
        })
    );
    assert_eq!(
        Parser::new("let a = 1; return a;").parse(),
        Err(ParseError::UnsupportedStatement {
            found: Token::Return,
            position: 5,
        })
    );
    assert_eq!(
        Parser::new("@").parse(),
        Err(ParseError::UnsupportedStatement {
            found: Token::Illegal("@".to_string()),
            position: 0,
        })
    );
}

#[test]
fn stream_that_ends_early_is_an_unexpected_eof() {
    assert_eq!(
        Parser::new("let").parse(),
        Err(ParseError::UnexpectedEof { position: 1 })
    );
    assert_eq!(
        Parser::new("let x").parse(),
        Err(ParseError::UnexpectedEof { position: 2 })
    );
    assert_eq!(
        Parser::new("let x =").parse(),
        Err(ParseError::UnexpectedEof { position: 3 })
    );
    assert_eq!(
        Parser::new("let x = 5").parse(),
        Err(ParseError::UnexpectedEof { position: 4 })
    );
}

#[test]
fn missing_semicolon_is_an_unexpected_token() {
    assert_eq!(
        Parser::new("let x = 5 let y = 6;").parse(),
        Err(ParseError::UnexpectedToken {
            expected: TokenKind::Semicolon,
            found: Token::Let,
            position: 4,
        })
    );
}

#[test]
fn illegal_token_where_the_name_belongs() {
    assert_eq!(
        Parser::new("let @ = 5;").parse(),
        Err(ParseError::UnexpectedToken {
            expected: TokenKind::Ident,
            found: Token::Illegal("@".to_string()),
            position: 1,
        })
    );
}

#[test]
fn expression_must_be_a_literal_or_a_name() {
    assert_eq!(
        Parser::new("let x = ;").parse(),
        Err(ParseError::UnsupportedExpression {
            found: Token::Semicolon,
            position: 3,
        })
    );
    assert_eq!(
        Parser::new("let x = -5;").parse(),
        Err(ParseError::UnsupportedExpression {
            found: Token::Minus,
            position: 3,
        })
    );
    assert_eq!(
        Parser::new("let x = true;").parse(),
        Err(ParseError::UnsupportedExpression {
            found: Token::True,
            position: 3,
        })
    );
}

#[test]
fn largest_integer_literal_fits() {
    assert_eq!(
        Parser::new("let x = 9223372036854775807;").parse(),
        Ok(vec![binding("x", Expression::IntegerLiteral(i64::MAX))])
    );
}

#[test]
fn integer_literal_out_of_range_is_reported() {
    assert_eq!(
        Parser::new("let x = 9223372036854775808;").parse(),
        Err(ParseError::IntegerLiteralOutOfRange {
            literal: "9223372036854775808".to_string(),
            position: 3,
        })
    );
    assert_eq!(
        Parser::new("let x = 100000000000000000000000000;").parse(),
        Err(ParseError::IntegerLiteralOutOfRange {
            literal: "100000000000000000000000000".to_string(),
            position: 3,
        })
    );
}

#[test]
fn parse_integer_reads_decimal_numerals() {
    assert_eq!(parse_integer("0"), Some(0));
    assert_eq!(parse_integer("5"), Some(5));
    assert_eq!(parse_integer("10"), Some(10));
    assert_eq!(parse_integer("1234567890"), Some(1234567890));
    assert_eq!(parse_integer("000123"), Some(123));
    assert_eq!(parse_integer("9223372036854775807"), Some(i64::MAX));
    assert_eq!(parse_integer("0009223372036854775807"), Some(i64::MAX));
}

#[test]
fn parse_integer_refuses_what_does_not_fit() {
    assert_eq!(parse_integer("9223372036854775808"), None);
    assert_eq!(parse_integer("9223372036854775810"), None);
    assert_eq!(parse_integer("18446744073709551616"), None);
    assert_eq!(parse_integer("92233720368547758070"), None);
}

#[test]
fn parse_integer_refuses_what_is_no_numeral() {
    assert_eq!(parse_integer(""), None);
    assert_eq!(parse_integer("-5"), None);
    assert_eq!(parse_integer("+5"), None);
    assert_eq!(parse_integer("12a"), None);
    assert_eq!(parse_integer("a12"), None);
    assert_eq!(parse_integer(" 1"), None);
    assert_eq!(parse_integer("1 "), None);
    assert_eq!(parse_integer("\u{663}"), None);
    assert_eq!(parse_integer("1\u{e9}"), None);
}

#[test]
fn peek_leaves_the_cursor_and_next_moves_it() {
    let mut parser = Parser::new("let x");
    assert_eq!(parser.peek(), Token::Let);
    assert_eq!(parser.peek(), Token::Let);
    assert_eq!(parser.next(), Token::Let);
    assert_eq!(parser.peek(), Token::Ident("x".to_string()));
    assert_eq!(parser.next(), Token::Ident("x".to_string()));
    assert_eq!(parser.peek(), Token::Eof);
    assert_eq!(parser.next(), Token::Eof);
    assert_eq!(parser.next(), Token::Eof);
    assert_eq!(parser.peek(), Token::Eof);
}

#[test]
fn parse_expression_takes_one_token() {
    let mut parser = Parser::new("5 foo +");
    assert_eq!(parser.parse_expression(), Ok(Expression::IntegerLiteral(5)));
    assert_eq!(
        parser.parse_expression(),
        Ok(Expression::IdentifierLiteral("foo".to_string()))
    );
    assert_eq!(
        parser.parse_expression(),
        Err(ParseError::UnsupportedExpression {
            found: Token::Plus,
            position: 2,
        })
    );
    assert_eq!(parser.next(), Token::Plus);
    assert_eq!(
        parser.parse_expression(),
        Err(ParseError::UnexpectedEof { position: 3 })
    );
}

#[test]
fn parse_let_statement_takes_five_tokens() {
    let mut parser = Parser::new("let a = b; let");
    assert_eq!(
        parser.parse_let_statement(),
        Ok(binding("a", Expression::IdentifierLiteral("b".to_string())))
    );
    assert_eq!(parser.peek(), Token::Let);
    assert_eq!(
        parser.parse_let_statement(),
        Err(ParseError::UnexpectedEof { position: 6 })
    );
}

#[test]
fn parse_let_statement_requires_let() {
    let mut parser = Parser::new("x = 1;");
    assert_eq!(
        parser.parse_let_statement(),
        Err(ParseError::UnexpectedToken {
            expected: TokenKind::Let,
            found: Token::Ident("x".to_string()),
            position: 0,
        })
    );
}

#[test]
fn parse_after_the_end_returns_nothing_more() {
    let mut parser = Parser::new("let a = 1;");
    assert_eq!(
        parser.parse(),
        Ok(vec![binding("a", Expression::IntegerLiteral(1))])
    );
    assert_eq!(parser.parse(), Ok(vec![]));
}
