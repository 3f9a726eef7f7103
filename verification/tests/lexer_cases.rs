use interpreter::lexer::{is_digit, is_letter, is_whitespace, tokenize, Lexer};
use interpreter::token::Token;

fn identifier(name: &str) -> Token {
    Token::Ident(name.to_string())
}

fn integer(digits: &str) -> Token {
    Token::Int(digits.to_string())
}

fn illegal(text: &str) -> Token {
    Token::Illegal(text.to_string())
}

#[test]
fn empty_input_is_one_eof() {
    assert_eq!(tokenize(""), vec![Token::Eof]);
}

#[test]
fn whitespace_alone_is_one_eof() {
    assert_eq!(tokenize(" \t\r\n  "), vec![Token::Eof]);
}

#[test]
fn eof_is_returned_again_and_again() {
    let mut lexer = Lexer::new("x");
    assert_eq!(lexer.next_token(), identifier("x"));
    for _ in 0..5 {
        assert_eq!(lexer.next_token(), Token::Eof);
    }
}

#[test]
fn eof_is_returned_again_after_trailing_whitespace() {
    let mut lexer = Lexer::new("x  ");
    assert_eq!(lexer.next_token(), identifier("x"));
    assert_eq!(lexer.next_token(), Token::Eof);
    assert_eq!(lexer.next_token(), Token::Eof);
}

#[test]
fn unsupported_character_is_one_illegal_token() {
    assert_eq!(tokenize("@"), vec![illegal("@"), Token::Eof]);
    assert_eq!(tokenize("#"), vec![illegal("#"), Token::Eof]);
    assert_eq!(tokenize("\""), vec![illegal("\""), Token::Eof]);
}

#[test]
fn scanning_goes_on_after_an_illegal_token() {
    assert_eq!(
        tokenize("a @ b"),
        vec![identifier("a"), illegal("@"), identifier("b"), Token::Eof]
    );
}

#[test]
fn run_of_illegal_bytes_is_one_token_for_each() {
    assert_eq!(
        tokenize("@$?"),
        vec![illegal("@"), illegal("$"), illegal("?"), Token::Eof]
    );
}

#[test]
fn byte_outside_ascii_is_the_replacement_character() {
    assert_eq!(
        tokenize("\u{e9}"),
        vec![illegal("\u{fffd}"), illegal("\u{fffd}"), Token::Eof]
    );
}

#[test]
fn nul_byte_is_illegal_and_does_not_end_the_input() {
    assert_eq!(
        tokenize("a\0b"),
        vec![identifier("a"), illegal("\0"), identifier("b"), Token::Eof]
    );
}

#[test]
fn form_feed_is_no_whitespace() {
    assert_eq!(tokenize("\x0c"), vec![illegal("\x0c"), Token::Eof]);
}

#[test]
fn two_equals_signs_are_one_equal() {
    assert_eq!(tokenize("=="), vec![Token::Equal, Token::Eof]);
}

#[test]
fn one_equals_sign_is_assign() {
    assert_eq!(tokenize("="), vec![Token::Assign, Token::Eof]);
    assert_eq!(tokenize("=;"), vec![Token::Assign, Token::Semicolon, Token::Eof]);
    assert_eq!(tokenize("= ="), vec![Token::Assign, Token::Assign, Token::Eof]);
}

#[test]
fn bang_and_not_equal() {
    assert_eq!(tokenize("!="), vec![Token::NotEqual, Token::Eof]);
    assert_eq!(tokenize("!"), vec![Token::Bang, Token::Eof]);
    assert_eq!(tokenize("!x"), vec![Token::Bang, identifier("x"), Token::Eof]);
    assert_eq!(tokenize("! ="), vec![Token::Bang, Token::Assign, Token::Eof]);
}

#[test]
fn lookahead_takes_the_longest_match_from_the_left() {
    assert_eq!(tokenize("==="), vec![Token::Equal, Token::Assign, Token::Eof]);
    assert_eq!(tokenize("!=="), vec![Token::NotEqual, Token::Assign, Token::Eof]);
    assert_eq!(tokenize("=!="), vec![Token::Assign, Token::NotEqual, Token::Eof]);
    assert_eq!(tokenize("===="), vec![Token::Equal, Token::Equal, Token::Eof]);
}

#[test]
fn keywords_are_their_own_tokens() {
    assert_eq!(tokenize("let"), vec![Token::Let, Token::Eof]);
    assert_eq!(tokenize("fn"), vec![Token::Function, Token::Eof]);
    assert_eq!(tokenize("true"), vec![Token::True, Token::Eof]);
    assert_eq!(tokenize("false"), vec![Token::False, Token::Eof]);
    assert_eq!(tokenize("if"), vec![Token::If, Token::Eof]);
    assert_eq!(tokenize("else"), vec![Token::Else, Token::Eof]);
    assert_eq!(tokenize("return"), vec![Token::Return, Token::Eof]);
}

#[test]
fn keyword_inside_a_longer_word_is_an_identifier() {
    assert_eq!(tokenize("letter"), vec![identifier("letter"), Token::Eof]);
    assert_eq!(tokenize("iff"), vec![identifier("iff"), Token::Eof]);
    assert_eq!(tokenize("_let"), vec![identifier("_let"), Token::Eof]);
    assert_eq!(tokenize("Let"), vec![identifier("Let"), Token::Eof]);
    assert_eq!(tokenize("f"), vec![identifier("f"), Token::Eof]);
    assert_eq!(tokenize("returns"), vec![identifier("returns"), Token::Eof]);
}

#[test]
fn identifier_stops_at_the_first_digit() {
    assert_eq!(tokenize("x1"), vec![identifier("x"), integer("1"), Token::Eof]);
    assert_eq!(tokenize("let2"), vec![Token::Let, integer("2"), Token::Eof]);
    assert_eq!(tokenize("1x"), vec![integer("1"), identifier("x"), Token::Eof]);
}

#[test]
fn identifier_holds_letters_and_underscores() {
    assert_eq!(tokenize("foo_Bar__"), vec![identifier("foo_Bar__"), Token::Eof]);
    assert_eq!(tokenize("_"), vec![identifier("_"), Token::Eof]);
    assert_eq!(tokenize("azAZ"), vec![identifier("azAZ"), Token::Eof]);
}

#[test]
fn integer_is_carried_as_text() {
    assert_eq!(tokenize("0123456789"), vec![integer("0123456789"), Token::Eof]);
    assert_eq!(tokenize("007"), vec![integer("007"), Token::Eof]);
    assert_eq!(
        tokenize("99999999999999999999999"),
        vec![integer("99999999999999999999999"), Token::Eof]
    );
    assert_eq!(tokenize("-5"), vec![Token::Minus, integer("5"), Token::Eof]);
}

#[test]
fn single_symbols() {
    assert_eq!(
        tokenize(";(),{}+-*<>/"),
        vec![
            Token::Semicolon,
            Token::LParen,
            Token::RParen,
            Token::Comma,
            Token::LBrace,
            Token::RBrace,
            Token::Plus,
            Token::Minus,
            Token::Asterisk,
            Token::LessThan,
            Token::GreaterThan,
            Token::Slash,
            Token::Eof,
        ]
    );
}

#[test]
fn tokenize_agrees_with_repeated_requests() {
    let input = "let x = 5; @ y != 10";
    let mut lexer = Lexer::new(input);
    let tokens = tokenize(input);
    assert_eq!(tokens.len(), 10);
    for expected in tokens {
        assert_eq!(lexer.next_token(), expected);
    }
    assert_eq!(lexer.next_token(), Token::Eof);
}

#[test]
fn stream_has_at_most_one_token_for_each_byte_and_one_eof() {
    let input = "@@ @@\n#";
    let tokens = tokenize(input);
    assert_eq!(tokens.len(), 6);
    assert!(tokens.len() <= input.len() + 1);
    assert_eq!(tokens.iter().filter(|token| **token == Token::Eof).count(), 1);
    assert_eq!(tokens.last(), Some(&Token::Eof));
}

#[test]
fn byte_classes() {
    assert!(is_letter(b'a') && is_letter(b'z') && is_letter(b'A') && is_letter(b'Z'));
    assert!(is_letter(b'_'));
    assert!(!is_letter(b'0') && !is_letter(b'`') && !is_letter(b'{') && !is_letter(b'@'));
    assert!(!is_letter(b'[') && !is_letter(0xe9));
    assert!(is_digit(b'0') && is_digit(b'9'));
    assert!(!is_digit(b'/') && !is_digit(b':') && !is_digit(b'a'));
    assert!(is_whitespace(b' ') && is_whitespace(b'\t'));
    assert!(is_whitespace(b'\n') && is_whitespace(b'\r'));
    assert!(!is_whitespace(0x0b) && !is_whitespace(0x0c) && !is_whitespace(0));
}
