//! Tokens of the Monkey language and their mathematical model.

use vstd::prelude::*;
use crate::text::{ascii_text, lemma_ascii_decodes, same_text, text_from_bytes};

verus! {

/// The ASCII code of `;`.
pub const SEMICOLON: u8 = 0x3b;

/// The ASCII code of `(`.
pub const LEFT_PAREN: u8 = 0x28;

/// The ASCII code of `)`.
pub const RIGHT_PAREN: u8 = 0x29;

/// The ASCII code of `,`.
pub const COMMA: u8 = 0x2c;

/// The ASCII code of `{`.
pub const LEFT_BRACE: u8 = 0x7b;

/// The ASCII code of `}`.
pub const RIGHT_BRACE: u8 = 0x7d;

/// The ASCII code of `+`.
pub const PLUS: u8 = 0x2b;

/// The ASCII code of `-`.
pub const MINUS: u8 = 0x2d;

/// The ASCII code of `*`.
pub const ASTERISK: u8 = 0x2a;

/// The ASCII code of `<`.
pub const LESS_THAN: u8 = 0x3c;

/// The ASCII code of `>`.
pub const GREATER_THAN: u8 = 0x3e;

/// The ASCII code of `/`.
pub const SLASH: u8 = 0x2f;

/// The ASCII code of `=`.
pub const EQUALS_SIGN: u8 = 0x3d;

/// The ASCII code of `!`.
pub const BANG: u8 = 0x21;

/// What a token is, without the text it may carry.
#[derive(Clone, Copy, Debug, PartialEq, Eq, Structural)]
pub enum TokenKind {
    Illegal,
    Eof,
    Ident,
    Int,
    Assign,
    Plus,
    Minus,
    Bang,
    Asterisk,
    Slash,
    LessThan,
    GreaterThan,
    Equal,
    NotEqual,
    Comma,
    Semicolon,
    LParen,
    RParen,
    LBrace,
    RBrace,
    Function,
    Let,
    True,
    False,
    If,
    Else,
    Return,
}

/// A classified unit of source text. Identifiers, integer literals and
/// illegal symbols carry their text; every other token is its kind alone.
#[derive(Debug, PartialEq, Eq)]
pub enum Token {
    Illegal(String),
    Eof,
    // Identifiers + literals
    Ident(String),
    Int(String),
    // Operators
    Assign,
    Plus,
    Minus,
    Bang,
    Asterisk,
    Slash,
    LessThan,
    GreaterThan,
    Equal,
    NotEqual,
    // Delimiters
    Comma,
    Semicolon,
    LParen,
    RParen,
    LBrace,
    RBrace,
    // Keywords
    Function,
    Let,
    True,
    False,
    If,
    Else,
    Return,
}

/// The model of a token: its kind and the text it carries, which is empty
/// for every kind but `Illegal`, `Ident` and `Int`.
pub struct TokenView {
    pub kind: TokenKind,
    pub text: Seq<char>,
}

/// The model of a token that carries no text.
pub open spec fn bare(kind: TokenKind) -> TokenView {
    TokenView { kind, text: Seq::empty() }
}

/// The model of a token that carries `text`.
pub open spec fn with_text(kind: TokenKind, text: Seq<char>) -> TokenView {
    TokenView { kind, text }
}

impl View for Token {
    type V = TokenView;

    open spec fn view(&self) -> TokenView {
        match self {
            Token::Illegal(text) => with_text(TokenKind::Illegal, text@),
            Token::Eof => bare(TokenKind::Eof),
            Token::Ident(text) => with_text(TokenKind::Ident, text@),
            Token::Int(text) => with_text(TokenKind::Int, text@),
            Token::Assign => bare(TokenKind::Assign),
            Token::Plus => bare(TokenKind::Plus),
            Token::Minus => bare(TokenKind::Minus),
            Token::Bang => bare(TokenKind::Bang),
            Token::Asterisk => bare(TokenKind::Asterisk),
            Token::Slash => bare(TokenKind::Slash),
            Token::LessThan => bare(TokenKind::LessThan),
            Token::GreaterThan => bare(TokenKind::GreaterThan),
            Token::Equal => bare(TokenKind::Equal),
            Token::NotEqual => bare(TokenKind::NotEqual),
            Token::Comma => bare(TokenKind::Comma),
            Token::Semicolon => bare(TokenKind::Semicolon),
            Token::LParen => bare(TokenKind::LParen),
            Token::RParen => bare(TokenKind::RParen),
            Token::LBrace => bare(TokenKind::LBrace),
            Token::RBrace => bare(TokenKind::RBrace),
            Token::Function => bare(TokenKind::Function),
            Token::Let => bare(TokenKind::Let),
            Token::True => bare(TokenKind::True),
            Token::False => bare(TokenKind::False),
            Token::If => bare(TokenKind::If),
            Token::Else => bare(TokenKind::Else),
            Token::Return => bare(TokenKind::Return),
        }
    }
}

impl Clone for Token {
    fn clone(&self) -> (copy: Token)
        ensures
            copy@ == self@,
    {
        match self {
            Token::Illegal(text) => Token::Illegal(text.clone()),
            Token::Eof => Token::Eof,
            Token::Ident(text) => Token::Ident(text.clone()),
            Token::Int(text) => Token::Int(text.clone()),
            Token::Assign => Token::Assign,
            Token::Plus => Token::Plus,
            Token::Minus => Token::Minus,
            Token::Bang => Token::Bang,
            Token::Asterisk => Token::Asterisk,
            Token::Slash => Token::Slash,
            Token::LessThan => Token::LessThan,
            Token::GreaterThan => Token::GreaterThan,
            Token::Equal => Token::Equal,
            Token::NotEqual => Token::NotEqual,
            Token::Comma => Token::Comma,
            Token::Semicolon => Token::Semicolon,
            Token::LParen => Token::LParen,
            Token::RParen => Token::RParen,
            Token::LBrace => Token::LBrace,
            Token::RBrace => Token::RBrace,
            Token::Function => Token::Function,
            Token::Let => Token::Let,
            Token::True => Token::True,
            Token::False => Token::False,
            Token::If => Token::If,
            Token::Else => Token::Else,
            Token::Return => Token::Return,
        }
    }
}

/// The text of an illegal byte: the character itself for an ASCII byte, the
/// replacement character for any other.
pub open spec fn illegal_text(byte: u8) -> Seq<char> {
    if byte < 0x80 {
        seq![byte as char]
    } else {
        seq!['\u{FFFD}']
    }
}

/// The kind of the token that a single byte stands for by itself; zero
/// stands for the end of input.
pub open spec fn symbol_kind(byte: u8) -> TokenKind {
    if byte == SEMICOLON {
        TokenKind::Semicolon
    } else if byte == LEFT_PAREN {
        TokenKind::LParen
    } else if byte == RIGHT_PAREN {
        TokenKind::RParen
    } else if byte == COMMA {
        TokenKind::Comma
    } else if byte == LEFT_BRACE {
        TokenKind::LBrace
    } else if byte == RIGHT_BRACE {
        TokenKind::RBrace
    } else if byte == PLUS {
        TokenKind::Plus
    } else if byte == MINUS {
        TokenKind::Minus
    } else if byte == ASTERISK {
        TokenKind::Asterisk
    } else if byte == LESS_THAN {
        TokenKind::LessThan
    } else if byte == GREATER_THAN {
        TokenKind::GreaterThan
    } else if byte == SLASH {
        TokenKind::Slash
    } else if byte == EQUALS_SIGN {
        TokenKind::Assign
    } else if byte == BANG {
        TokenKind::Bang
    } else if byte == 0 {
        TokenKind::Eof
    } else {
        TokenKind::Illegal
    }
}

/// The token that a single byte stands for by itself.
pub open spec fn symbol_token(byte: u8) -> TokenView {
    if symbol_kind(byte) == TokenKind::Illegal {
        with_text(TokenKind::Illegal, illegal_text(byte))
    } else {
        bare(symbol_kind(byte))
    }
}

/// The illegal token for one offending byte.
pub fn illegal(byte: u8) -> (token: Token)
    ensures
        token@ == with_text(TokenKind::Illegal, illegal_text(byte)),
{
    if byte < 0x80 {
        let bytes = [byte];
        proof {
            lemma_ascii_decodes(bytes@);
            assert(ascii_text(bytes@) =~= seq![byte as char]);
        }
        Token::Illegal(text_from_bytes(bytes.as_slice()))
    } else {
        proof {
            reveal_strlit("\u{FFFD}");
            assert("\u{FFFD}"@ =~= seq!['\u{FFFD}']);
        }
        Token::Illegal("\u{FFFD}".to_owned())
    }
}

impl From<u8> for Token {
    fn from(value: u8) -> (token: Token)
        ensures
            token@ == symbol_token(value),
    {
        if value == SEMICOLON {
            Token::Semicolon
        } else if value == LEFT_PAREN {
            Token::LParen
        } else if value == RIGHT_PAREN {
            Token::RParen
        } else if value == COMMA {
            Token::Comma
        } else if value == LEFT_BRACE {
            Token::LBrace
        } else if value == RIGHT_BRACE {
            Token::RBrace
        } else if value == PLUS {
            Token::Plus
        } else if value == MINUS {
            Token::Minus
        } else if value == ASTERISK {
            Token::Asterisk
        } else if value == LESS_THAN {
            Token::LessThan
        } else if value == GREATER_THAN {
            Token::GreaterThan
        } else if value == SLASH {
            Token::Slash
        } else if value == EQUALS_SIGN {
            Token::Assign
        } else if value == BANG {
            Token::Bang
        } else if value == 0 {
            Token::Eof
        } else {
            illegal(value)
        }
    }
}

/// What `Token::from` returns is stated by its own contract, over the model
/// of the token, and not by `from_spec`: no ghost expression builds the
/// `String` that an illegal token carries.
impl vstd::std_specs::convert::FromSpecImpl<u8> for Token {
    open spec fn obeys_from_spec() -> bool {
        false
    }

    open spec fn from_spec(value: u8) -> Token {
        Token::Eof
    }
}

impl Token {
    /// The kind of this token.
    pub fn kind(&self) -> (kind: TokenKind)
        ensures
            kind == self@.kind,
    {
        match self {
            Token::Illegal(_) => TokenKind::Illegal,
            Token::Eof => TokenKind::Eof,
            Token::Ident(_) => TokenKind::Ident,
            Token::Int(_) => TokenKind::Int,
            Token::Assign => TokenKind::Assign,
            Token::Plus => TokenKind::Plus,
            Token::Minus => TokenKind::Minus,
            Token::Bang => TokenKind::Bang,
            Token::Asterisk => TokenKind::Asterisk,
            Token::Slash => TokenKind::Slash,
            Token::LessThan => TokenKind::LessThan,
            Token::GreaterThan => TokenKind::GreaterThan,
            Token::Equal => TokenKind::Equal,
            Token::NotEqual => TokenKind::NotEqual,
            Token::Comma => TokenKind::Comma,
            Token::Semicolon => TokenKind::Semicolon,
            Token::LParen => TokenKind::LParen,
            Token::RParen => TokenKind::RParen,
            Token::LBrace => TokenKind::LBrace,
            Token::RBrace => TokenKind::RBrace,
            Token::Function => TokenKind::Function,
            Token::Let => TokenKind::Let,
            Token::True => TokenKind::True,
            Token::False => TokenKind::False,
            Token::If => TokenKind::If,
            Token::Else => TokenKind::Else,
            Token::Return => TokenKind::Return,
        }
    }
}

/// The keyword that `text` spells, if it spells one.
pub open spec fn keyword_kind(text: Seq<char>) -> Option<TokenKind> {
    if text == "fn"@ {
        Some(TokenKind::Function)
    } else if text == "let"@ {
        Some(TokenKind::Let)
    } else if text == "if"@ {
        Some(TokenKind::If)
    } else if text == "else"@ {
        Some(TokenKind::Else)
    } else if text == "true"@ {
        Some(TokenKind::True)
    } else if text == "false"@ {
        Some(TokenKind::False)
    } else if text == "return"@ {
        Some(TokenKind::Return)
    } else {
        None
    }
}

/// The token for a whole identifier span: the keyword that the span spells,
/// or else an identifier that carries the span.
pub open spec fn word_token(text: Seq<char>) -> TokenView {
    match keyword_kind(text) {
        Some(kind) => bare(kind),
        None => with_text(TokenKind::Ident, text),
    }
}

/// Classifies a whole identifier span against the keyword table.
pub fn lookup_identifier(identifier: String) -> (token: Token)
    ensures
        token@ == word_token(identifier@),
{
    let text = identifier.as_str();
    if same_text(text, "fn") {
        Token::Function
    } else if same_text(text, "let") {
        Token::Let
    } else if same_text(text, "if") {
        Token::If
    } else if same_text(text, "else") {
        Token::Else
    } else if same_text(text, "true") {
        Token::True
    } else if same_text(text, "false") {
        Token::False
    } else if same_text(text, "return") {
        Token::Return
    } else {
        Token::Ident(identifier)
    }
}

} // verus!
