//! The lexical grammar as mathematics: what one pull of the scanner yields
//! from a given input at a given position, and what a whole scan yields.

use vstd::prelude::*;
use crate::chars::{
    digit, identifier_part, is_digit, is_identifier_start, lemma_span, other_than, span,
    whitespace,
};
use crate::source::Position;
use crate::tokens::{word_kind, TokenKind, TokenView};

verus! {

/// An error as a mathematical value.
pub struct ErrorView {
    pub position: Position,
    pub message: Seq<char>,
}

/// What one pull yields: a token, or an error in its place.
pub type Item = Result<TokenView, ErrorView>;

/// The state of a scan: the characters not yet consumed and the position
/// reached.
pub struct Cursor {
    pub rest: Seq<char>,
    pub position: Position,
}

impl Cursor {
    /// The state before anything of `input` has been consumed.
    pub open spec fn start(input: Seq<char>) -> Cursor {
        Cursor { rest: input, position: Position::start() }
    }

    /// The state once the next `n` characters have been consumed.
    pub open spec fn advance(self, n: nat) -> Cursor {
        Cursor {
            rest: self.rest.skip(n as int),
            position: self.position.after(self.rest.take(n as int)),
        }
    }

    /// Consuming nothing changes nothing.
    pub proof fn lemma_advance_none(self)
        ensures
            self.advance(0) == self,
    {
        assert(self.rest.skip(0) =~= self.rest);
        assert(self.rest.take(0).len() == 0);
    }

    /// Consuming one character drops it from the input and moves the
    /// position by one step.
    pub proof fn lemma_advance_one(self)
        requires
            self.rest.len() > 0,
        ensures
            self.advance(1) == (Cursor {
                rest: self.rest.drop_first(),
                position: self.position.step(self.rest[0]),
            }),
    {
        let one = self.rest.take(1);
        assert(self.rest.skip(1) =~= self.rest.drop_first());
        assert(one.drop_first().len() == 0);
        assert(self.position.after(one) == self.position.step(one[0]).after(one.drop_first()));
    }

    /// Consuming `a` characters and then `b` more is consuming `a + b`.
    pub proof fn lemma_advance_more(self, a: nat, b: nat)
        requires
            a + b <= self.rest.len(),
        ensures
            self.advance(a).advance(b) == self.advance(a + b),
            self.rest.take((a + b) as int) == self.rest.take(a as int) + self.advance(a).rest.take(
                b as int,
            ),
    {
        let first = self.rest.take(a as int);
        let second = self.rest.skip(a as int).take(b as int);
        assert(self.rest.skip(a as int).skip(b as int) =~= self.rest.skip((a + b) as int));
        assert(self.rest.take((a + b) as int) =~= first + second);
        self.position.lemma_after_concat(first, second);
    }

    /// What consuming the character at index `taken` does to a cursor that
    /// has consumed the `taken` characters before it.
    pub proof fn lemma_advance_next(self, taken: nat)
        requires
            taken < self.rest.len(),
        ensures
            self.advance(taken).rest.len() > 0,
            self.advance(taken).rest[0] == self.rest[taken as int],
            self.advance(taken).advance(1) == self.advance(taken + 1),
            self.advance(taken).rest.drop_first() == self.advance(taken + 1).rest,
            self.rest.take(taken + 1 as int) == self.rest.take(taken as int).push(self.rest[taken as int]),
    {
        self.lemma_advance_more(taken, 1);
        self.advance(taken).lemma_advance_one();
        assert(self.rest.take(taken + 1 as int) =~= self.rest.take(taken as int).push(
            self.rest[taken as int],
        ));
    }
}

/// A lexeme at the front of some text: how many characters it takes up, and
/// the kind of token it is or the message of the error it is.
pub struct Lexeme {
    pub length: nat,
    pub outcome: Result<TokenKind, Seq<char>>,
}

impl Lexeme {
    /// A lexeme of `length` characters that is a token of kind `kind`.
    pub open spec fn token(length: nat, kind: TokenKind) -> Lexeme {
        Lexeme { length, outcome: Ok(kind) }
    }

    /// A lexeme of `length` characters that is an error.
    pub open spec fn error(length: nat, message: Seq<char>) -> Lexeme {
        Lexeme { length, outcome: Err(message) }
    }

    /// The same lexeme with `n` more characters in front of it.
    pub open spec fn preceded_by(self, n: nat) -> Lexeme {
        Lexeme { length: n + self.length, outcome: self.outcome }
    }

    /// The item this lexeme becomes when the scanner has reached `position`.
    pub open spec fn item(self, position: Position) -> Item {
        match self.outcome {
            Ok(kind) => Ok(TokenView { kind, position }),
            Err(message) => Err(ErrorView { position, message }),
        }
    }
}

/// The message for a string literal whose closing quote is missing; `value`
/// is the text collected after the opening quote.
pub open spec fn unterminated_string(value: Seq<char>) -> Seq<char> {
    "Unterminated string literal \""@ + value
}

/// The message for a number literal that ends in its decimal point.
pub open spec fn incomplete_number(literal: Seq<char>) -> Seq<char> {
    "Incomplete number literal "@ + literal
}

/// The message for a character that starts no lexeme.
pub open spec fn illegal_character(c: char) -> Seq<char> {
    "Illegal token: "@ + TokenKind::Illegal(c).text()
}

/// The punctuation that is a token by itself whatever follows.
pub open spec fn punctuation(c: char) -> Option<TokenKind> {
    if c == '(' {
        Some(TokenKind::LeftParen)
    } else if c == ')' {
        Some(TokenKind::RightParen)
    } else if c == '{' {
        Some(TokenKind::LeftBrace)
    } else if c == '}' {
        Some(TokenKind::RightBrace)
    } else if c == ',' {
        Some(TokenKind::Comma)
    } else if c == '.' {
        Some(TokenKind::Dot)
    } else if c == '-' {
        Some(TokenKind::Minus)
    } else if c == '+' {
        Some(TokenKind::Plus)
    } else if c == ';' {
        Some(TokenKind::Semicolon)
    } else if c == '*' {
        Some(TokenKind::Star)
    } else {
        None
    }
}

/// Whether a lexeme other than an illegal character can begin with `c`.
pub open spec fn starts_lexeme(c: char) -> bool {
    ||| punctuation(c) is Some
    ||| c == '!'
    ||| c == '='
    ||| c == '<'
    ||| c == '>'
    ||| c == '/'
    ||| c == '"'
    ||| is_identifier_start(c)
    ||| is_digit(c)
}

/// Whether `tail` begins with `c`.
pub open spec fn begins_with(tail: Seq<char>, c: char) -> bool {
    tail.len() > 0 && tail[0] == c
}

/// An operator that is `double` when an equals sign follows its first
/// character and `single` otherwise; `tail` is what follows the first
/// character.
pub open spec fn operator(tail: Seq<char>, single: TokenKind, double: TokenKind) -> Lexeme {
    if begins_with(tail, '=') {
        Lexeme::token(1, double)
    } else {
        Lexeme::token(0, single)
    }
}

/// A comment whose text after the two slashes is at the front of `body`: it
/// runs up to and including the first newline, or to the end of the input
/// where there is no newline.
pub open spec fn comment(body: Seq<char>) -> Lexeme {
    let line = span(body, other_than('\n'));
    let length = if line < body.len() {
        line + 1
    } else {
        line
    };
    Lexeme::token(length, TokenKind::Comment(body.take(length as int)))
}

/// A string literal whose text after the opening quote is at the front of
/// `body`: it runs up to the next quote, which closes it. Where no quote
/// follows, the literal takes up the rest of the input and is an error.
pub open spec fn string_literal(body: Seq<char>) -> Lexeme {
    let length = span(body, other_than('"'));
    let value = body.take(length as int);
    if length < body.len() {
        Lexeme::token(length + 1, TokenKind::Str(value))
    } else {
        Lexeme::error(length, unterminated_string(value))
    }
}

/// A word that begins with `first` and goes on in `tail` while the
/// characters may continue an identifier.
pub open spec fn word(first: char, tail: Seq<char>) -> Lexeme {
    let length = span(tail, identifier_part());
    Lexeme::token(length, word_kind(seq![first] + tail.take(length as int)))
}

/// A number literal that begins with the digit `first` and goes on in
/// `tail`: more digits, then optionally a point and more digits. A point
/// with no digit behind it is consumed and makes the literal an error.
pub open spec fn number(first: char, tail: Seq<char>) -> Lexeme {
    let whole = span(tail, digit());
    if begins_with(tail.skip(whole as int), '.') {
        let fraction = span(tail.skip(whole + 1 as int), digit());
        let length = whole + 1 + fraction;
        let literal = seq![first] + tail.take(length as int);
        if fraction == 0 {
            Lexeme::error(length, incomplete_number(literal))
        } else {
            Lexeme::token(length, TokenKind::Number(literal))
        }
    } else {
        Lexeme::token(whole, TokenKind::Number(seq![first] + tail.take(whole as int)))
    }
}

/// The lexeme that begins with `first` and goes on in `tail`, where `first`
/// is the first character after any whitespace.
pub open spec fn lexeme(first: char, tail: Seq<char>) -> Lexeme {
    let rest = if let Some(kind) = punctuation(first) {
        Lexeme::token(0, kind)
    } else if first == '!' {
        operator(tail, TokenKind::Bang, TokenKind::BangEqual)
    } else if first == '=' {
        operator(tail, TokenKind::Equal, TokenKind::EqualEqual)
    } else if first == '<' {
        operator(tail, TokenKind::Less, TokenKind::LessEqual)
    } else if first == '>' {
        operator(tail, TokenKind::Greater, TokenKind::GreaterEqual)
    } else if first == '/' {
        if begins_with(tail, '/') {
            comment(tail.skip(1)).preceded_by(1)
        } else {
            Lexeme::token(0, TokenKind::Slash)
        }
    } else if first == '"' {
        string_literal(tail)
    } else if is_identifier_start(first) {
        word(first, tail)
    } else if is_digit(first) {
        number(first, tail)
    } else {
        Lexeme::error(0, illegal_character(first))
    };
    rest.preceded_by(1)
}

/// A lexeme takes up its first character at least and the whole text at
/// most.
pub proof fn lemma_lexeme_fits(first: char, tail: Seq<char>)
    ensures
        1 <= lexeme(first, tail).length <= 1 + tail.len(),
{
    lemma_span(tail, other_than('"'));
    lemma_span(tail, identifier_part());
    lemma_span(tail, digit());
    let whole = span(tail, digit());
    if begins_with(tail.skip(whole as int), '.') {
        lemma_span(tail.skip(whole + 1 as int), digit());
    }
    if begins_with(tail, '/') {
        lemma_span(tail.skip(1), other_than('\n'));
    }
}

/// What one pull yields and the state it leaves.
pub struct Scan {
    pub item: Option<Item>,
    pub next: Cursor,
}

/// One pull: whitespace is skipped; at the end of the input nothing is
/// yielded; otherwise the lexeme at the front is consumed and yielded with
/// the position reached behind it.
pub open spec fn scan(cursor: Cursor) -> Scan {
    let at = cursor.advance(span(cursor.rest, whitespace()));
    if at.rest.len() == 0 {
        Scan { item: None, next: at }
    } else {
        let found = lexeme(at.rest[0], at.rest.drop_first());
        let next = at.advance(found.length);
        Scan { item: Some(found.item(next.position)), next }
    }
}

/// How many characters one pull consumes: the whitespace at the front and
/// the lexeme behind it, if there is one.
pub open spec fn consumed(cursor: Cursor) -> nat {
    let blank = span(cursor.rest, whitespace());
    let at = cursor.advance(blank);
    if at.rest.len() == 0 {
        blank
    } else {
        blank + lexeme(at.rest[0], at.rest.drop_first()).length
    }
}

/// A pull consumes a prefix of the input and leaves the rest as it was. It
/// yields nothing exactly when only whitespace was left, and has then
/// consumed all of it; when it yields an item it has consumed at least one
/// character.
pub proof fn lemma_scan_consumes(cursor: Cursor)
    ensures
        consumed(cursor) <= cursor.rest.len(),
        scan(cursor).next == cursor.advance(consumed(cursor)),
        scan(cursor).next.rest.len() == cursor.rest.len() - consumed(cursor),
        scan(cursor).item is None <==> span(cursor.rest, whitespace()) == cursor.rest.len(),
        scan(cursor).item is None ==> scan(cursor).next.rest.len() == 0,
        scan(cursor).item is Some ==> consumed(cursor) > span(cursor.rest, whitespace()),
{
    let blank = span(cursor.rest, whitespace());
    lemma_span(cursor.rest, whitespace());
    let at = cursor.advance(blank);
    if at.rest.len() > 0 {
        let found = lexeme(at.rest[0], at.rest.drop_first());
        lemma_lexeme_fits(at.rest[0], at.rest.drop_first());
        cursor.lemma_advance_more(blank, found.length);
    }
}

/// Everything a scan yields from `cursor` on, pull after pull, up to the
/// end of the input.
pub open spec fn scan_all(cursor: Cursor) -> Seq<Item>
    decreases cursor.rest.len(),
    via scan_all_terminates
{
    let pull = scan(cursor);
    match pull.item {
        Some(item) => seq![item] + scan_all(pull.next),
        None => Seq::empty(),
    }
}

#[via_fn]
proof fn scan_all_terminates(cursor: Cursor) {
    lemma_scan_consumes(cursor);
}

} // verus!
