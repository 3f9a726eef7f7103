//! The tokenizer: a byte-indexed cursor over the source text that hands out
//! one token per request.

use vstd::prelude::*;
use vstd::slice::slice_subrange;
use vstd::string::StrSliceExecFns;
use vstd::string::StringSliceAdditionalSpecFns;
use crate::text::{ascii_text, lemma_ascii_decodes, text_from_bytes};
use crate::token::{
    bare, illegal, illegal_text, lookup_identifier, symbol_token, with_text, word_token, Token,
    TokenKind, TokenView, BANG, EQUALS_SIGN,
};

verus! {

/// The ASCII code of the space.
pub const SPACE: u8 = 0x20;

/// The ASCII code of the horizontal tab.
pub const TAB: u8 = 0x09;

/// The ASCII code of the line feed.
pub const LINE_FEED: u8 = 0x0a;

/// The ASCII code of the carriage return.
pub const CARRIAGE_RETURN: u8 = 0x0d;

/// Whitespace is space, tab, line feed and carriage return.
pub open spec fn whitespace(byte: u8) -> bool {
    byte == SPACE || byte == TAB || byte == LINE_FEED || byte == CARRIAGE_RETURN
}

/// A letter is an ASCII letter or an underscore. A digit is no letter: an
/// identifier holds none.
pub open spec fn letter(byte: u8) -> bool {
    (0x61 <= byte <= 0x7a) || (0x41 <= byte <= 0x5a) || byte == 0x5f
}

/// A digit is one of `0` to `9`.
pub open spec fn digit(byte: u8) -> bool {
    0x30 <= byte <= 0x39
}

/// Whether `byte` is whitespace.
#[verifier::when_used_as_spec(whitespace)]
pub fn is_whitespace(byte: u8) -> (yes: bool)
    ensures
        yes == whitespace(byte),
{
    byte == SPACE || byte == TAB || byte == LINE_FEED || byte == CARRIAGE_RETURN
}

/// Whether `byte` can stand in an identifier.
#[verifier::when_used_as_spec(letter)]
pub fn is_letter(byte: u8) -> (yes: bool)
    ensures
        yes == letter(byte),
{
    (0x61 <= byte && byte <= 0x7a) || (0x41 <= byte && byte <= 0x5a) || byte == 0x5f
}

/// Whether `byte` is a digit.
#[verifier::when_used_as_spec(digit)]
pub fn is_digit(byte: u8) -> (yes: bool)
    ensures
        yes == digit(byte),
{
    0x30 <= byte && byte <= 0x39
}

/// Where the maximal run of bytes of one class that starts at `from` ends.
pub open spec fn run_end(source: Seq<u8>, from: int, class: spec_fn(u8) -> bool) -> int
    decreases source.len() - from,
{
    if 0 <= from < source.len() && class(source[from]) {
        run_end(source, from + 1, class)
    } else {
        from
    }
}

/// The first position at or after `from` that holds no whitespace.
pub open spec fn spaces_end(source: Seq<u8>, from: int) -> int {
    run_end(source, from, |byte: u8| whitespace(byte))
}

/// The end of the maximal run of letters that starts at `from`.
pub open spec fn letters_end(source: Seq<u8>, from: int) -> int {
    run_end(source, from, |byte: u8| letter(byte))
}

/// The end of the maximal run of digits that starts at `from`.
pub open spec fn digits_end(source: Seq<u8>, from: int) -> int {
    run_end(source, from, |byte: u8| digit(byte))
}

/// Whether `==` or `!=` stands at `start`.
pub open spec fn two_symbols(source: Seq<u8>, start: int) -> bool {
    &&& 0 <= start && start + 1 < source.len()
    &&& source[start] == EQUALS_SIGN || source[start] == BANG
    &&& source[start + 1] == EQUALS_SIGN
}

/// Where the lexeme that starts at `start` ends. At the end of the source
/// there is no lexeme, and the end is `start` itself.
pub open spec fn lexeme_end(source: Seq<u8>, start: int) -> int {
    if !(0 <= start < source.len()) {
        start
    } else if letter(source[start]) {
        letters_end(source, start)
    } else if digit(source[start]) {
        digits_end(source, start)
    } else if two_symbols(source, start) {
        start + 2
    } else {
        start + 1
    }
}

/// The token of the lexeme that starts at `start`.
pub open spec fn lexeme_token(source: Seq<u8>, start: int) -> TokenView {
    if !(0 <= start < source.len()) {
        bare(TokenKind::Eof)
    } else if letter(source[start]) {
        word_token(ascii_text(source.subrange(start, letters_end(source, start))))
    } else if digit(source[start]) {
        with_text(TokenKind::Int, ascii_text(source.subrange(start, digits_end(source, start))))
    } else if two_symbols(source, start) {
        if source[start] == EQUALS_SIGN {
            bare(TokenKind::Equal)
        } else {
            bare(TokenKind::NotEqual)
        }
    } else if source[start] == 0 {
        with_text(TokenKind::Illegal, illegal_text(0))
    } else {
        symbol_token(source[start])
    }
}

/// The token that a request at `cursor` returns: the one after the
/// whitespace that starts there.
pub open spec fn next_token_at(source: Seq<u8>, cursor: int) -> TokenView {
    lexeme_token(source, spaces_end(source, cursor))
}

/// Where the cursor stands after a request at `cursor`.
pub open spec fn cursor_after(source: Seq<u8>, cursor: int) -> int {
    lexeme_end(source, spaces_end(source, cursor))
}

/// A maximal run stays inside the source, holds only bytes of its class, and
/// stops at the end of the source or before a byte of another class.
pub proof fn lemma_run_end(source: Seq<u8>, from: int, class: spec_fn(u8) -> bool)
    requires
        0 <= from <= source.len(),
    ensures
        from <= run_end(source, from, class) <= source.len(),
        forall|i: int| from <= i < run_end(source, from, class) ==> class(#[trigger] source[i]),
        run_end(source, from, class) < source.len() ==> !class(
            source[run_end(source, from, class)],
        ),
    decreases source.len() - from,
{
    if from < source.len() && class(source[from]) {
        lemma_run_end(source, from + 1, class);
    }
}

/// A maximal run is the only stretch from `from` that holds bytes of one
/// class alone and stops at the end of the source or before a byte of another
/// class.
pub proof fn lemma_run_end_is_unique(
    source: Seq<u8>,
    from: int,
    end: int,
    class: spec_fn(u8) -> bool,
)
    requires
        0 <= from <= end <= source.len(),
        forall|i: int| from <= i < end ==> class(#[trigger] source[i]),
        end < source.len() ==> !class(source[end]),
    ensures
        run_end(source, from, class) == end,
    decreases end - from,
{
    if from < end {
        lemma_run_end_is_unique(source, from + 1, end, class);
    }
}

/// Every request leaves the cursor inside the source and never moves it
/// back. The token is `Eof` exactly when only whitespace is left, and every
/// other token consumes at least one byte.
pub proof fn lemma_token_advances(source: Seq<u8>, cursor: int)
    requires
        0 <= cursor <= source.len(),
    ensures
        cursor <= cursor_after(source, cursor) <= source.len(),
        next_token_at(source, cursor).kind == TokenKind::Eof <==> spaces_end(source, cursor)
            == source.len(),
        next_token_at(source, cursor).kind != TokenKind::Eof ==> cursor < cursor_after(
            source,
            cursor,
        ),
{
    lemma_run_end(source, cursor, |byte: u8| whitespace(byte));
    let start = spaces_end(source, cursor);
    if start < source.len() {
        if letter(source[start]) {
            lemma_run_end(source, start + 1, |byte: u8| letter(byte));
        } else if digit(source[start]) {
            lemma_run_end(source, start + 1, |byte: u8| digit(byte));
        }
    }
}

/// Once the end of input has been returned, every further request returns
/// it again and leaves the cursor where it is.
pub proof fn lemma_eof_is_idempotent(source: Seq<u8>, cursor: int)
    requires
        0 <= cursor <= source.len(),
        next_token_at(source, cursor).kind == TokenKind::Eof,
    ensures
        next_token_at(source, cursor) == bare(TokenKind::Eof),
        next_token_at(source, cursor_after(source, cursor)) == bare(TokenKind::Eof),
        cursor_after(source, cursor_after(source, cursor)) == cursor_after(source, cursor),
{
    lemma_token_advances(source, cursor);
}

/// The tokens that repeated requests return from `cursor` on, up to and
/// including the end of input.
pub open spec fn tokens_from(source: Seq<u8>, cursor: int) -> Seq<TokenView>
    decreases source.len() - cursor,
    when 0 <= cursor <= source.len()
{
    let token = next_token_at(source, cursor);
    if token.kind == TokenKind::Eof {
        seq![token]
    } else {
        proof {
            lemma_token_advances(source, cursor);
        }
        seq![token] + tokens_from(source, cursor_after(source, cursor))
    }
}

/// The token stream ends in the end of input, holds it nowhere else, and
/// holds at most one token for each byte that was left besides.
pub proof fn lemma_stream_ends_in_eof(source: Seq<u8>, cursor: int)
    requires
        0 <= cursor <= source.len(),
    ensures
        1 <= tokens_from(source, cursor).len() <= source.len() - cursor + 1,
        tokens_from(source, cursor).last() == bare(TokenKind::Eof),
        forall|i: int|
            0 <= i < tokens_from(source, cursor).len() - 1 ==> (#[trigger] tokens_from(
                source,
                cursor,
            )[i]).kind != TokenKind::Eof,
    decreases source.len() - cursor,
{
    lemma_token_advances(source, cursor);
    if next_token_at(source, cursor).kind == TokenKind::Eof {
        lemma_eof_is_idempotent(source, cursor);
    } else {
        lemma_stream_ends_in_eof(source, cursor_after(source, cursor));
    }
}

/// An empty source holds the end of input and nothing else.
pub proof fn lemma_empty_source()
    ensures
        next_token_at(Seq::<u8>::empty(), 0) == bare(TokenKind::Eof),
        cursor_after(Seq::<u8>::empty(), 0) == 0,
        tokens_from(Seq::<u8>::empty(), 0) == seq![bare(TokenKind::Eof)],
{
}

/// A source that is one ASCII byte outside every lexical rule holds one
/// illegal token that carries that character, and then the end of input.
pub proof fn lemma_single_illegal_byte(byte: u8)
    requires
        byte < 0x80,
        !whitespace(byte),
        !letter(byte),
        !digit(byte),
        byte == 0 || symbol_token(byte).kind == TokenKind::Illegal,
    ensures
        tokens_from(seq![byte], 0) == seq![
            with_text(TokenKind::Illegal, seq![byte as char]),
            bare(TokenKind::Eof),
        ],
{
    let source = seq![byte];
    assert(spaces_end(source, 0) == 0);
    assert(spaces_end(source, 1) == 1);
    assert(next_token_at(source, 0) == with_text(TokenKind::Illegal, seq![byte as char]));
    assert(cursor_after(source, 0) == 1);
    assert(next_token_at(source, 1) == bare(TokenKind::Eof));
    assert(tokens_from(source, 1) == seq![bare(TokenKind::Eof)]);
    assert(tokens_from(source, 0) =~= seq![next_token_at(source, 0)] + tokens_from(source, 1));
}

/// A source that starts with letters up to `end`, and stops there or goes on
/// with another byte, starts with one token for that whole span: the keyword
/// that the span spells, or else an identifier that carries the span.
pub proof fn lemma_word_is_one_token(source: Seq<u8>, end: int)
    requires
        0 < end <= source.len(),
        forall|i: int| 0 <= i < end ==> letter(#[trigger] source[i]),
        end < source.len() ==> !letter(source[end]),
    ensures
        next_token_at(source, 0) == word_token(ascii_text(source.subrange(0, end))),
        cursor_after(source, 0) == end,
{
    assert(letter(source[0]));
    assert(spaces_end(source, 0) == 0);
    lemma_run_end_is_unique(source, 0, end, |byte: u8| letter(byte));
}

/// A source that starts with digits up to `end`, and stops there or goes on
/// with another byte, starts with one integer token that carries that span.
pub proof fn lemma_number_is_one_token(source: Seq<u8>, end: int)
    requires
        0 < end <= source.len(),
        forall|i: int| 0 <= i < end ==> digit(#[trigger] source[i]),
        end < source.len() ==> !digit(source[end]),
    ensures
        next_token_at(source, 0) == with_text(
            TokenKind::Int,
            ascii_text(source.subrange(0, end)),
        ),
        cursor_after(source, 0) == end,
{
    assert(digit(source[0]));
    assert(spaces_end(source, 0) == 0);
    lemma_run_end_is_unique(source, 0, end, |byte: u8| digit(byte));
}

/// After `=` or `!`, one byte of lookahead decides: followed by `=`, the two
/// bytes are one `Equal` or `NotEqual`; followed by anything else or by
/// nothing, the one byte is `Assign` or `Bang`, and the next byte is left.
pub proof fn lemma_lookahead(source: Seq<u8>, start: int)
    requires
        0 <= start < source.len(),
        source[start] == EQUALS_SIGN || source[start] == BANG,
    ensures
        two_symbols(source, start) ==> cursor_after(source, start) == start + 2,
        two_symbols(source, start) && source[start] == EQUALS_SIGN ==> next_token_at(
            source,
            start,
        ) == bare(TokenKind::Equal),
        two_symbols(source, start) && source[start] == BANG ==> next_token_at(source, start)
            == bare(TokenKind::NotEqual),
        !two_symbols(source, start) ==> cursor_after(source, start) == start + 1,
        !two_symbols(source, start) && source[start] == EQUALS_SIGN ==> next_token_at(
            source,
            start,
        ) == bare(TokenKind::Assign),
        !two_symbols(source, start) && source[start] == BANG ==> next_token_at(source, start)
            == bare(TokenKind::Bang),
{
    assert(spaces_end(source, start) == start);
}

/// Whether `predicate` can be asked of every byte and answers yes exactly
/// for the bytes of `class`.
pub open spec fn decides<F: Fn(u8) -> bool>(predicate: F, class: spec_fn(u8) -> bool) -> bool {
    &&& forall|byte: u8| #[trigger] call_requires(predicate, (byte,))
    &&& forall|byte: u8, yes: bool| #[trigger]
        call_ensures(predicate, (byte,), yes) ==> yes == class(byte)
}

/// The tokenizer state: the source bytes and the position of the next byte
/// to examine.
#[derive(Debug)]
pub struct Lexer {
    input: Vec<u8>,
    position: usize,
}

impl Lexer {
    #[verifier::type_invariant]
    spec fn cursor_in_source(&self) -> bool {
        self.position <= self.input@.len()
    }

    /// The source bytes.
    pub closed spec fn source(&self) -> Seq<u8> {
        self.input@
    }

    /// The position of the next byte to examine.
    pub closed spec fn cursor(&self) -> int {
        self.position as int
    }

    /// Creates a tokenizer over the UTF-8 bytes of `input`, with the cursor
    /// at the first byte.
    pub fn new(input: &str) -> (lexer: Lexer)
        ensures
            lexer.source() == input.spec_bytes(),
            lexer.cursor() == 0,
    {
        Lexer { input: input.as_bytes_vec(), position: 0 }
    }

    /// The byte under the cursor, or zero at the end of the source.
    fn current(&self) -> (byte: u8)
        ensures
            self.cursor() <= self.source().len(),
            self.cursor() < self.source().len() ==> byte == self.source()[self.cursor()],
            self.cursor() == self.source().len() ==> byte == 0,
    {
        proof {
            use_type_invariant(self);
        }
        if self.position < self.input.len() {
            self.input[self.position]
        } else {
            0
        }
    }

    /// Moves the cursor one byte forward, unless it stands at the end of the
    /// source.
    fn read_char(&mut self)
        ensures
            final(self).source() == old(self).source(),
            final(self).cursor() == if old(self).cursor() < old(self).source().len() {
                old(self).cursor() + 1
            } else {
                old(self).cursor()
            },
    {
        if self.position < self.input.len() {
            self.position = self.position + 1;
        }
    }

    /// The byte after the one under the cursor, or zero where there is none.
    fn peek_char(&self) -> (byte: u8)
        ensures
            self.cursor() + 1 < self.source().len() ==> byte == self.source()[self.cursor() + 1],
            self.cursor() + 1 >= self.source().len() ==> byte == 0,
    {
        proof {
            use_type_invariant(self);
        }
        if self.position < self.input.len() && self.position + 1 < self.input.len() {
            self.input[self.position + 1]
        } else {
            0
        }
    }

    /// Moves the cursor to the end of the maximal run of bytes that
    /// `predicate` accepts.
    fn advance_while<F: Fn(u8) -> bool>(
        &mut self,
        predicate: F,
        Ghost(class): Ghost<spec_fn(u8) -> bool>,
    )
        requires
            decides(predicate, class),
        ensures
            final(self).source() == old(self).source(),
            final(self).cursor() == run_end(old(self).source(), old(self).cursor(), class),
            old(self).cursor() <= final(self).cursor() <= final(self).source().len(),
    {
        proof {
            use_type_invariant(&*self);
        }
        while self.position < self.input.len() && predicate(self.input[self.position])
            invariant
                decides(predicate, class),
                self.input@ == old(self).input@,
                old(self).position <= self.position <= self.input@.len(),
                run_end(self.input@, self.position as int, class) == run_end(
                    old(self).input@,
                    old(self).position as int,
                    class,
                ),
            decreases self.input@.len() - self.position,
        {
            self.read_char();
        }
    }

    /// Moves the cursor over the whitespace that starts under it.
    fn skip_whitespace(&mut self)
        ensures
            final(self).source() == old(self).source(),
            final(self).cursor() == spaces_end(old(self).source(), old(self).cursor()),
            old(self).cursor() <= final(self).cursor() <= final(self).source().len(),
    {
        self.advance_while(is_whitespace, Ghost(|byte: u8| whitespace(byte)));
    }

    /// Reads the maximal run of bytes that `predicate` accepts, which
    /// accepts ASCII bytes alone, and returns its text.
    fn read_token<F: Fn(u8) -> bool>(
        &mut self,
        predicate: F,
        Ghost(class): Ghost<spec_fn(u8) -> bool>,
    ) -> (text: String)
        requires
            decides(predicate, class),
            forall|byte: u8| #[trigger] class(byte) ==> byte < 0x80,
        ensures
            final(self).source() == old(self).source(),
            final(self).cursor() == run_end(old(self).source(), old(self).cursor(), class),
            text@ == ascii_text(
                old(self).source().subrange(old(self).cursor(), final(self).cursor()),
            ),
    {
        proof {
            use_type_invariant(&*self);
            lemma_run_end(self.input@, self.position as int, class);
        }
        let start = self.position;
        self.advance_while(predicate, Ghost(class));
        let lexeme = slice_subrange(self.input.as_slice(), start, self.position);
        proof {
            lemma_ascii_decodes(lexeme@);
        }
        text_from_bytes(lexeme)
    }

    /// Reads the maximal run of letters under the cursor.
    fn read_identifier(&mut self) -> (text: String)
        ensures
            final(self).source() == old(self).source(),
            final(self).cursor() == letters_end(old(self).source(), old(self).cursor()),
            text@ == ascii_text(
                old(self).source().subrange(old(self).cursor(), final(self).cursor()),
            ),
    {
        self.read_token(is_letter, Ghost(|byte: u8| letter(byte)))
    }

    /// Reads the maximal run of digits under the cursor.
    fn read_number(&mut self) -> (text: String)
        ensures
            final(self).source() == old(self).source(),
            final(self).cursor() == digits_end(old(self).source(), old(self).cursor()),
            text@ == ascii_text(
                old(self).source().subrange(old(self).cursor(), final(self).cursor()),
            ),
    {
        self.read_token(is_digit, Ghost(|byte: u8| digit(byte)))
    }

    /// Reads the identifier or keyword under the cursor.
    fn ident(&mut self) -> (token: Token)
        ensures
            final(self).source() == old(self).source(),
            final(self).cursor() == letters_end(old(self).source(), old(self).cursor()),
            token@ == word_token(
                ascii_text(old(self).source().subrange(old(self).cursor(), final(self).cursor())),
            ),
    {
        let identifier = self.read_identifier();
        lookup_identifier(identifier)
    }

    /// Reads the integer literal under the cursor.
    fn number(&mut self) -> (token: Token)
        ensures
            final(self).source() == old(self).source(),
            final(self).cursor() == digits_end(old(self).source(), old(self).cursor()),
            token@ == with_text(
                TokenKind::Int,
                ascii_text(old(self).source().subrange(old(self).cursor(), final(self).cursor())),
            ),
    {
        Token::Int(self.read_number())
    }

    /// Skips whitespace, then returns the token under the cursor and moves
    /// the cursor behind it. Where only whitespace is left, the token is
    /// `Eof` and the cursor stops at the end of the source.
    pub fn next_token(&mut self) -> (token: Token)
        ensures
            final(self).source() == old(self).source(),
            token@ == next_token_at(old(self).source(), old(self).cursor()),
            final(self).cursor() == cursor_after(old(self).source(), old(self).cursor()),
            old(self).cursor() <= final(self).cursor() <= final(self).source().len(),
    {
        proof {
            use_type_invariant(&*self);
            lemma_token_advances(self.input@, self.position as int);
        }
        self.skip_whitespace();
        proof {
            use_type_invariant(&*self);
        }
        if self.position >= self.input.len() {
            return Token::Eof;
        }
        let byte = self.current();
        if is_letter(byte) {
            return self.ident();
        }
        if is_digit(byte) {
            return self.number();
        }
        let token = if byte == EQUALS_SIGN {
            if self.peek_char() == EQUALS_SIGN {
                self.read_char();
                Token::Equal
            } else {
                Token::Assign
            }
        } else if byte == BANG {
            if self.peek_char() == EQUALS_SIGN {
                self.read_char();
                Token::NotEqual
            } else {
                Token::Bang
            }
        } else if byte == 0 {
            illegal(byte)
        } else {
            Token::from(byte)
        };
        self.read_char();
        token
    }
}

/// The models of a sequence of tokens.
pub open spec fn token_views(tokens: Seq<Token>) -> Seq<TokenView> {
    tokens.map_values(|token: Token| token@)
}

/// Tokenizes the whole of `input`: every token in order, up to and including
/// the end of input.
pub fn tokenize(input: &str) -> (tokens: Vec<Token>)
    ensures
        token_views(tokens@) == tokens_from(input.spec_bytes(), 0),
{
    let mut lexer = Lexer::new(input);
    let mut tokens: Vec<Token> = Vec::new();
    let mut done = false;
    let ghost source = input.spec_bytes();
    while !done
        invariant
            lexer.source() == source,
            0 <= lexer.cursor() <= source.len(),
            !done ==> token_views(tokens@) + tokens_from(source, lexer.cursor()) =~= tokens_from(
                source,
                0,
            ),
            done ==> token_views(tokens@) == tokens_from(source, 0),
        decreases
                (if done {
                    0
                } else {
                    source.len() - lexer.cursor() + 1
                }),
    {
        let ghost before = lexer.cursor();
        let ghost seen = token_views(tokens@);
        let token = lexer.next_token();
        proof {
            lemma_token_advances(source, before);
        }
        done = token.kind() == TokenKind::Eof;
        tokens.push(token);
        proof {
            assert(token_views(tokens@) =~= seen + seq![next_token_at(source, before)]);
        }
    }
    tokens
}

} // verus!
