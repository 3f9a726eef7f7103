//! The syntax tree of `let` bindings and the recursive-descent parser that
//! builds it from the token stream.

use vstd::prelude::*;
use vstd::string::StringSliceAdditionalSpecFns;
use vstd::string::is_ascii_spec_bytes;
use crate::lexer::{
    cursor_after, digit, lemma_run_end, lemma_token_advances, next_token_at, spaces_end,
    token_views, tokenize, tokens_from, whitespace,
};
use crate::token::{bare, Token, TokenKind, TokenView};

verus! {

/// An expression: an integer literal or a reference to an identifier.
#[derive(Debug, PartialEq, Eq)]
pub enum Expression {
    IntegerLiteral(i64),
    IdentifierLiteral(String),
}

/// A `let` binding: the name that is bound and the expression bound to it.
#[derive(Debug, PartialEq, Eq)]
pub struct LetStatement {
    pub variable: String,
    pub expression: Expression,
}

/// A statement. `let` is the only statement of the grammar.
#[derive(Debug, PartialEq, Eq)]
pub enum Statement {
    Let(LetStatement),
}

/// Why a parse failed. `position` is the index, in the token stream, of the
/// token at which it failed.
#[derive(Debug, PartialEq, Eq)]
pub enum ParseError {
    /// A token of kind `expected` was required and `found` stood there.
    UnexpectedToken { expected: TokenKind, found: Token, position: usize },
    /// A token was required and the stream had ended.
    UnexpectedEof { position: usize },
    /// The integer literal does not fit a signed 64-bit integer.
    IntegerLiteralOutOfRange { literal: String, position: usize },
    /// No statement starts with `found`.
    UnsupportedStatement { found: Token, position: usize },
    /// No expression starts with `found`.
    UnsupportedExpression { found: Token, position: usize },
}

/// The model of an expression.
pub enum ExpressionView {
    IntegerLiteral(i64),
    IdentifierLiteral(Seq<char>),
}

/// The model of a `let` binding.
pub struct LetStatementView {
    pub variable: Seq<char>,
    pub expression: ExpressionView,
}

/// The model of a statement.
pub enum StatementView {
    Let(LetStatementView),
}

/// The model of a parse failure.
pub enum ParseErrorView {
    UnexpectedToken { expected: TokenKind, found: TokenView, position: int },
    UnexpectedEof { position: int },
    IntegerLiteralOutOfRange { literal: Seq<char>, position: int },
    UnsupportedStatement { found: TokenView, position: int },
    UnsupportedExpression { found: TokenView, position: int },
}

impl ParseErrorView {
    /// The index of the token at which the parse failed.
    pub open spec fn position(self) -> int {
        match self {
            ParseErrorView::UnexpectedToken { position, .. } => position,
            ParseErrorView::UnexpectedEof { position } => position,
            ParseErrorView::IntegerLiteralOutOfRange { position, .. } => position,
            ParseErrorView::UnsupportedStatement { position, .. } => position,
            ParseErrorView::UnsupportedExpression { position, .. } => position,
        }
    }
}

impl View for Expression {
    type V = ExpressionView;

    open spec fn view(&self) -> ExpressionView {
        match self {
            Expression::IntegerLiteral(value) => ExpressionView::IntegerLiteral(*value),
            Expression::IdentifierLiteral(name) => ExpressionView::IdentifierLiteral(name@),
        }
    }
}

impl View for LetStatement {
    type V = LetStatementView;

    open spec fn view(&self) -> LetStatementView {
        LetStatementView { variable: self.variable@, expression: self.expression@ }
    }
}

impl View for Statement {
    type V = StatementView;

    open spec fn view(&self) -> StatementView {
        match self {
            Statement::Let(binding) => StatementView::Let(binding@),
        }
    }
}

impl View for ParseError {
    type V = ParseErrorView;

    open spec fn view(&self) -> ParseErrorView {
        match self {
            ParseError::UnexpectedToken { expected, found, position } => {
                ParseErrorView::UnexpectedToken {
                    expected: *expected,
                    found: found@,
                    position: *position as int,
                }
            },
            ParseError::UnexpectedEof { position } => ParseErrorView::UnexpectedEof {
                position: *position as int,
            },
            ParseError::IntegerLiteralOutOfRange { literal, position } => {
                ParseErrorView::IntegerLiteralOutOfRange {
                    literal: literal@,
                    position: *position as int,
                }
            },
            ParseError::UnsupportedStatement { found, position } => {
                ParseErrorView::UnsupportedStatement { found: found@, position: *position as int }
            },
            ParseError::UnsupportedExpression { found, position } => {
                ParseErrorView::UnsupportedExpression {
                    found: found@,
                    position: *position as int,
                }
            },
        }
    }
}

/// The models of a sequence of statements.
pub open spec fn statement_views(statements: Seq<Statement>) -> Seq<StatementView> {
    statements.map_values(|statement: Statement| statement@)
}

/// The model of what a parsing step returns: the model of the node, or the
/// model of the failure.
pub open spec fn outcome<T: View>(result: Result<T, ParseError>) -> Result<T::V, ParseErrorView> {
    match result {
        Ok(node) => Ok(node@),
        Err(error) => Err(error@),
    }
}

/// The model of what parsing a program returns: the models of the
/// statements, or the model of the failure.
pub open spec fn program_outcome(result: Result<Vec<Statement>, ParseError>) -> Result<
    Seq<StatementView>,
    ParseErrorView,
> {
    match result {
        Ok(statements) => Ok(statement_views(statements@)),
        Err(error) => Err(error@),
    }
}

/// Whether `text` is a decimal numeral: one digit or more, and digits alone.
pub open spec fn is_decimal(text: Seq<char>) -> bool {
    &&& text.len() > 0
    &&& forall|i: int| 0 <= i < text.len() ==> '0' <= #[trigger] text[i] <= '9'
}

/// The number that the decimal numeral `text` denotes.
pub open spec fn decimal_value(text: Seq<char>) -> nat
    decreases text.len(),
{
    if text.len() == 0 {
        0
    } else {
        (decimal_value(text.drop_last()) * 10 + (text.last() as nat - '0' as nat)) as nat
    }
}

/// The value of an integer literal, where it is a decimal numeral that fits
/// a signed 64-bit integer.
pub open spec fn integer_literal(text: Seq<char>) -> Option<i64> {
    if is_decimal(text) && decimal_value(text) <= i64::MAX {
        Some(decimal_value(text) as i64)
    } else {
        None
    }
}

/// A numeral denotes at least what any of its prefixes denotes.
pub proof fn lemma_decimal_value_grows(text: Seq<char>, shorter: int)
    requires
        is_decimal(text),
        0 <= shorter <= text.len(),
    ensures
        decimal_value(text.subrange(0, shorter)) <= decimal_value(text),
    decreases text.len() - shorter,
{
    if shorter < text.len() {
        let longer = text.subrange(0, shorter + 1);
        assert(longer.drop_last() =~= text.subrange(0, shorter));
        if shorter + 1 < text.len() {
            assert(is_decimal(text));
        }
        lemma_decimal_value_grows(text, shorter + 1);
    } else {
        assert(text.subrange(0, shorter) =~= text);
    }
}

/// Reads an integer literal.
pub fn parse_integer(text: &str) -> (value: Option<i64>)
    ensures
        value == integer_literal(text@),
{
    if !text.is_ascii() {
        return None;
    }
    broadcast use is_ascii_spec_bytes;

    let bytes = text.as_bytes();
    let length = bytes.len();
    if length == 0 {
        return None;
    }
    let mut value: i64 = 0;
    let mut index: usize = 0;
    while index < length
        invariant
            length == bytes@.len(),
            length == text@.len(),
            forall|i: int| 0 <= i < length ==> bytes@[i] == #[trigger] text@[i] as u8,
            forall|i: int| 0 <= i < length ==> '\0' <= #[trigger] text@[i] <= '\u{7f}',
            index <= length,
            forall|i: int| 0 <= i < index ==> '0' <= #[trigger] text@[i] <= '9',
            0 <= value,
            value == decimal_value(text@.subrange(0, index as int)),
        decreases length - index,
    {
        let byte = bytes[index];
        if byte < 0x30 || byte > 0x39 {
            assert(!('0' <= text@[index as int] <= '9'));
            return None;
        }
        let units: i64 = (byte - 0x30) as i64;
        proof {
            let longer = text@.subrange(0, index + 1);
            assert(longer.drop_last() =~= text@.subrange(0, index as int));
            assert(longer.last() == text@[index as int]);
            assert(decimal_value(longer) == value * 10 + units);
            if is_decimal(text@) {
                lemma_decimal_value_grows(text@, index + 1);
            }
        }
        if value > (i64::MAX - units) / 10 {
            return None;
        }
        value = value * 10 + units;
        index += 1;
    }
    assert(text@.subrange(0, index as int) =~= text@);
    Some(value)
}

/// The token at `at`; past the end of the stream, the end of input.
pub open spec fn token_at(stream: Seq<TokenView>, at: int) -> TokenView {
    if 0 <= at < stream.len() {
        stream[at]
    } else {
        bare(TokenKind::Eof)
    }
}

/// The failure, if any, of requiring a token of kind `expected` at `at`.
pub open spec fn expectation(stream: Seq<TokenView>, at: int, expected: TokenKind) -> Option<
    ParseErrorView,
> {
    let found = token_at(stream, at);
    if found.kind == expected {
        None
    } else if found.kind == TokenKind::Eof {
        Some(ParseErrorView::UnexpectedEof { position: at })
    } else {
        Some(ParseErrorView::UnexpectedToken { expected, found, position: at })
    }
}

/// The expression that the one token at `at` is.
pub open spec fn expression_at(stream: Seq<TokenView>, at: int) -> Result<
    ExpressionView,
    ParseErrorView,
> {
    let found = token_at(stream, at);
    match found.kind {
        TokenKind::Int => match integer_literal(found.text) {
            Some(value) => Ok(ExpressionView::IntegerLiteral(value)),
            None => Err(
                ParseErrorView::IntegerLiteralOutOfRange { literal: found.text, position: at },
            ),
        },
        TokenKind::Ident => Ok(ExpressionView::IdentifierLiteral(found.text)),
        TokenKind::Eof => Err(ParseErrorView::UnexpectedEof { position: at }),
        _ => Err(ParseErrorView::UnsupportedExpression { found, position: at }),
    }
}

/// The number of tokens of a `let` statement.
pub open spec fn let_statement_length() -> int {
    5
}

/// The statement `let <identifier> = <expression> ;` that starts at `at`, or
/// the failure at the first token that does not fit it.
pub open spec fn let_statement_at(stream: Seq<TokenView>, at: int) -> Result<
    StatementView,
    ParseErrorView,
> {
    if let Some(error) = expectation(stream, at, TokenKind::Let) {
        Err(error)
    } else if let Some(error) = expectation(stream, at + 1, TokenKind::Ident) {
        Err(error)
    } else if let Some(error) = expectation(stream, at + 2, TokenKind::Assign) {
        Err(error)
    } else {
        match expression_at(stream, at + 3) {
            Err(error) => Err(error),
            Ok(expression) => {
                if let Some(error) = expectation(stream, at + 4, TokenKind::Semicolon) {
                    Err(error)
                } else {
                    Ok(
                        StatementView::Let(
                            LetStatementView {
                                variable: token_at(stream, at + 1).text,
                                expression,
                            },
                        ),
                    )
                }
            },
        }
    }
}

/// The statements from `at` up to the end of input, or the first failure.
pub open spec fn program_at(stream: Seq<TokenView>, at: int) -> Result<
    Seq<StatementView>,
    ParseErrorView,
>
    decreases stream.len() - at,
    when 0 <= at
{
    let lead = token_at(stream, at);
    if lead.kind == TokenKind::Eof {
        Ok(Seq::empty())
    } else if lead.kind == TokenKind::Let {
        match let_statement_at(stream, at) {
            Err(error) => Err(error),
            Ok(statement) => match program_at(stream, at + let_statement_length()) {
                Err(error) => Err(error),
                Ok(rest) => Ok(seq![statement] + rest),
            },
        }
    } else {
        Err(ParseErrorView::UnsupportedStatement { found: lead, position: at })
    }
}

/// Whether every integer token of the stream carries a decimal numeral.
pub open spec fn numerals_are_decimal(stream: Seq<TokenView>) -> bool {
    forall|i: int|
        0 <= i < stream.len() && (#[trigger] stream[i]).kind == TokenKind::Int ==> is_decimal(
            stream[i].text,
        )
}

/// Every integer token that the tokenizer returns carries a decimal numeral.
pub proof fn lemma_numeral_is_decimal(source: Seq<u8>, cursor: int)
    requires
        0 <= cursor <= source.len(),
        next_token_at(source, cursor).kind == TokenKind::Int,
    ensures
        is_decimal(next_token_at(source, cursor).text),
{
    lemma_run_end(source, cursor, |byte: u8| whitespace(byte));
    let start = spaces_end(source, cursor);
    lemma_run_end(source, start, |byte: u8| digit(byte));
}

/// In the token stream of any source, every integer token carries a decimal
/// numeral.
pub proof fn lemma_stream_numerals_are_decimal(source: Seq<u8>, cursor: int)
    requires
        0 <= cursor <= source.len(),
    ensures
        numerals_are_decimal(tokens_from(source, cursor)),
    decreases source.len() - cursor,
{
    lemma_token_advances(source, cursor);
    let token = next_token_at(source, cursor);
    if token.kind == TokenKind::Int {
        lemma_numeral_is_decimal(source, cursor);
    }
    if token.kind != TokenKind::Eof {
        lemma_stream_numerals_are_decimal(source, cursor_after(source, cursor));
    }
}

/// In a stream whose integer tokens carry decimal numerals, as those of the
/// tokenizer do, an integer literal is refused only where the number that
/// it denotes is too large for a signed 64-bit integer.
pub proof fn lemma_refused_literal_is_too_large(stream: Seq<TokenView>, at: int)
    requires
        numerals_are_decimal(stream),
        expression_at(stream, at) is Err,
        expression_at(stream, at)->Err_0 is IntegerLiteralOutOfRange,
    ensures
        token_at(stream, at).kind == TokenKind::Int,
        expression_at(stream, at)->Err_0 == (ParseErrorView::IntegerLiteralOutOfRange {
            literal: token_at(stream, at).text,
            position: at,
        }),
        is_decimal(token_at(stream, at).text),
        decimal_value(token_at(stream, at).text) > i64::MAX,
{
}

/// A program that parses ends at the end of input, five tokens on for each
/// of its statements.
pub proof fn lemma_program_ends_at_eof(stream: Seq<TokenView>, at: int)
    requires
        0 <= at,
        program_at(stream, at) is Ok,
    ensures
        token_at(stream, at + let_statement_length() * program_at(stream, at)->Ok_0.len()).kind
            == TokenKind::Eof,
    decreases stream.len() - at,
{
    if token_at(stream, at).kind != TokenKind::Eof {
        lemma_program_ends_at_eof(stream, at + let_statement_length());
        let rest = program_at(stream, at + let_statement_length())->Ok_0;
        assert(program_at(stream, at)->Ok_0.len() == rest.len() + 1);
        assert(let_statement_length() * (rest.len() + 1) == let_statement_length()
            + let_statement_length() * rest.len()) by (nonlinear_arith);
    }
}

/// The parser state: the whole token stream and the position of the next
/// token to examine.
#[derive(Debug)]
pub struct Parser {
    tokens: Vec<Token>,
    position: usize,
}

impl Parser {
    #[verifier::type_invariant]
    spec fn cursor_in_stream(&self) -> bool {
        self.position <= self.tokens@.len()
    }

    /// The token stream.
    pub closed spec fn stream(&self) -> Seq<TokenView> {
        token_views(self.tokens@)
    }

    /// The position of the next token to examine.
    pub closed spec fn cursor(&self) -> int {
        self.position as int
    }

    /// Tokenizes `input` and places the parser at its first token.
    pub fn new(input: &str) -> (parser: Parser)
        ensures
            parser.stream() == tokens_from(input.spec_bytes(), 0),
            parser.cursor() == 0,
    {
        Parser { tokens: tokenize(input), position: 0 }
    }

    /// The token under the cursor, which stays; past the end of the stream,
    /// the end of input.
    pub fn peek(&self) -> (token: Token)
        ensures
            token@ == token_at(self.stream(), self.cursor()),
    {
        if self.position < self.tokens.len() {
            self.tokens[self.position].clone()
        } else {
            Token::Eof
        }
    }

    /// The token under the cursor, which moves behind it; past the end of
    /// the stream, the end of input, and the cursor stays.
    pub fn next(&mut self) -> (token: Token)
        ensures
            final(self).stream() == old(self).stream(),
            token@ == token_at(old(self).stream(), old(self).cursor()),
            final(self).cursor() == if old(self).cursor() < old(self).stream().len() {
                old(self).cursor() + 1
            } else {
                old(self).cursor()
            },
    {
        let token = self.peek();
        if self.position < self.tokens.len() {
            self.position = self.position + 1;
        }
        token
    }

    /// Requires a token of kind `expected` under the cursor and moves behind
    /// it. Where another token stands there, the cursor stays.
    fn expect(&mut self, expected: TokenKind) -> (result: Result<(), ParseError>)
        requires
            expected != TokenKind::Eof,
        ensures
            final(self).stream() == old(self).stream(),
            match result {
                Ok(_) => {
                    &&& expectation(old(self).stream(), old(self).cursor(), expected) is None
                    &&& final(self).cursor() == old(self).cursor() + 1
                },
                Err(error) => {
                    &&& expectation(old(self).stream(), old(self).cursor(), expected) == Some(
                        error@,
                    )
                    &&& final(self).cursor() == old(self).cursor()
                },
            },
    {
        let found = self.peek();
        let kind = found.kind();
        if kind == expected {
            self.next();
            Ok(())
        } else if kind == TokenKind::Eof {
            Err(ParseError::UnexpectedEof { position: self.position })
        } else {
            Err(ParseError::UnexpectedToken { expected, found, position: self.position })
        }
    }

    /// Requires an identifier under the cursor, moves behind it and returns
    /// its name. Where another token stands there, the cursor stays.
    fn expect_identifier(&mut self) -> (result: Result<String, ParseError>)
        ensures
            final(self).stream() == old(self).stream(),
            match result {
                Ok(name) => {
                    &&& expectation(old(self).stream(), old(self).cursor(), TokenKind::Ident)
                        is None
                    &&& name@ == token_at(old(self).stream(), old(self).cursor()).text
                    &&& final(self).cursor() == old(self).cursor() + 1
                },
                Err(error) => {
                    &&& expectation(old(self).stream(), old(self).cursor(), TokenKind::Ident)
                        == Some(error@)
                    &&& final(self).cursor() == old(self).cursor()
                },
            },
    {
        let position = self.position;
        match self.peek() {
            Token::Ident(name) => {
                self.next();
                Ok(name)
            },
            Token::Eof => Err(ParseError::UnexpectedEof { position }),
            found => Err(
                ParseError::UnexpectedToken { expected: TokenKind::Ident, found, position },
            ),
        }
    }

    /// Parses the one token under the cursor as an expression and moves
    /// behind it. On failure the cursor stays at that token.
    pub fn parse_expression(&mut self) -> (result: Result<Expression, ParseError>)
        ensures
            final(self).stream() == old(self).stream(),
            outcome(result) == expression_at(old(self).stream(), old(self).cursor()),
            final(self).cursor() == match result {
                Ok(_) => old(self).cursor() + 1,
                Err(_) => old(self).cursor(),
            },
    {
        let position = self.position;
        match self.peek() {
            Token::Int(number) => match parse_integer(number.as_str()) {
                Some(value) => {
                    self.next();
                    Ok(Expression::IntegerLiteral(value))
                },
                None => Err(ParseError::IntegerLiteralOutOfRange { literal: number, position }),
            },
            Token::Ident(name) => {
                self.next();
                Ok(Expression::IdentifierLiteral(name))
            },
            Token::Eof => Err(ParseError::UnexpectedEof { position }),
            found => Err(ParseError::UnsupportedExpression { found, position }),
        }
    }

    /// Parses `let <identifier> = <expression> ;` from the cursor on and
    /// moves behind it. On failure the cursor stays at the token that does
    /// not fit.
    pub fn parse_let_statement(&mut self) -> (result: Result<Statement, ParseError>)
        ensures
            final(self).stream() == old(self).stream(),
            outcome(result) == let_statement_at(old(self).stream(), old(self).cursor()),
            final(self).cursor() == match result {
                Ok(_) => old(self).cursor() + let_statement_length(),
                Err(error) => error@.position(),
            },
    {
        self.expect(TokenKind::Let)?;
        let variable = self.expect_identifier()?;
        self.expect(TokenKind::Assign)?;
        let expression = self.parse_expression()?;
        self.expect(TokenKind::Semicolon)?;
        Ok(Statement::Let(LetStatement { variable, expression }))
    }

    /// Parses statements from the cursor on until the end of input. The
    /// first failure ends the parse, and the cursor stays at the token at
    /// which it failed.
    pub fn parse(&mut self) -> (result: Result<Vec<Statement>, ParseError>)
        ensures
            final(self).stream() == old(self).stream(),
            program_outcome(result) == program_at(old(self).stream(), old(self).cursor()),
            final(self).cursor() == match result {
                Ok(statements) => old(self).cursor() + let_statement_length()
                    * statements@.len(),
                Err(error) => error@.position(),
            },
    {
        let mut statements: Vec<Statement> = Vec::new();
        let ghost stream = self.stream();
        let ghost start = self.cursor();
        loop
            invariant
                self.stream() == stream,
                start == old(self).cursor(),
                stream == old(self).stream(),
                self.cursor() == start + let_statement_length() * statements@.len(),
                program_at(stream, start) == match program_at(stream, self.cursor()) {
                    Ok(rest) => Ok(statement_views(statements@) + rest),
                    Err(error) => Err(error),
                },
            decreases stream.len() - self.cursor(),
        {
            let lead = self.peek();
            let kind = lead.kind();
            if kind == TokenKind::Eof {
                proof {
                    assert(statement_views(statements@) + Seq::<StatementView>::empty()
                        =~= statement_views(statements@));
                }
                return Ok(statements);
            } else if kind == TokenKind::Let {
                let ghost seen = statement_views(statements@);
                let statement = self.parse_let_statement()?;
                statements.push(statement);
                proof {
                    assert(statement_views(statements@) =~= seen + seq![statement@]);
                    if let Ok(rest) = program_at(stream, self.cursor()) {
                        assert((seen + seq![statement@]) + rest =~= seen + (seq![statement@]
                            + rest));
                    }
                }
            } else {
                return Err(
                    ParseError::UnsupportedStatement { found: lead, position: self.position },
                );
            }
        }
    }
}

} // verus!
