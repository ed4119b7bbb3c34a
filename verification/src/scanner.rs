//! The scanner: a cursor over the source text that yields one token, or one
//! error, per pull.

use vstd::prelude::*;
use vstd::std_specs::iter::IteratorSpec;
use vstd::string::StringExecFns;
use crate::chars::{digit, identifier_part, is_decimal_digit, other_than, span, whitespace};
use crate::grammar::{
    begins_with, comment, lemma_scan_consumes, lexeme, number, operator, scan, scan_all,
    string_literal, word, Cursor, ErrorView, Item, Lexeme,
};
use crate::source::Location;
use crate::tokens::{Token, TokenType};

verus! {

/// A lexeme that is no token: where the scanner stood when it gave up on the
/// lexeme, and why.
#[derive(Clone, Debug)]
pub struct Error {
    location: Location,
    message: String,
}

impl View for Error {
    type V = ErrorView;

    closed spec fn view(&self) -> ErrorView {
        ErrorView { position: self.location@, message: self.message@ }
    }
}

impl ErrorView {
    /// How an error is written.
    pub open spec fn text(self) -> Seq<char> {
        "ScannerError<"@ + self.position.text() + ">: "@ + self.message
    }
}

impl Error {
    /// Where the scanner stood when it reported the error.
    pub fn location(&self) -> (location: Location)
        ensures
            location@ == self@.position,
    {
        self.location
    }

    /// Why the lexeme is no token.
    pub fn message(&self) -> (message: &str)
        ensures
            message@ == self@.message,
    {
        self.message.as_str()
    }

    /// Writes the error as `ScannerError<line, column>: message`.
    pub fn to_string(&self) -> (text: String)
        ensures
            text@ == self@.text(),
    {
        let mut text = String::from_str("ScannerError<");
        let location = self.location.to_string();
        text.append(location.as_str());
        text.append(">: ");
        text.append(self.message.as_str());
        text
    }
}

/// The view of what a pull returned.
pub open spec fn item_view(item: Result<Token, Error>) -> Item {
    match item {
        Ok(token) => Ok(token@),
        Err(error) => Err(error@),
    }
}

/// The view of a pull: of what it returned, or of its having returned
/// nothing.
pub open spec fn pull_view(item: Option<Result<Token, Error>>) -> Option<Item> {
    match item {
        Some(found) => Some(item_view(found)),
        None => None,
    }
}

/// The views of what a run of pulls returned.
pub open spec fn items_view(items: Seq<Result<Token, Error>>) -> Seq<Item> {
    items.map_values(|item: Result<Token, Error>| item_view(item))
}

/// A cursor over the characters of a source text, with the location it has
/// reached. Each pull consumes one lexeme.
#[derive(Debug)]
pub struct Scanner {
    source: Vec<char>,
    offset: usize,
    location: Location,
}

impl View for Scanner {
    type V = Cursor;

    closed spec fn view(&self) -> Cursor {
        Cursor { rest: self.source@.skip(self.offset as int), position: self.location@ }
    }
}

/// The characters of `text`, in order.
fn characters(text: &str) -> (characters: Vec<char>)
    ensures
        characters@ == text@,
{
    let mut characters: Vec<char> = Vec::new();
    let mut rest = text.chars();
    loop
        invariant
            characters@ + rest.remaining() == text@,
            rest.obeys_prophetic_iter_laws(),
            rest.decrease() is Some,
        ensures
            characters@ =~= text@,
        decreases rest.decrease()->0,
    {
        match rest.next() {
            Some(c) => {
                characters.push(c);
            },
            None => {
                break ;
            },
        }
    }
    characters
}

impl Scanner {
    /// The offset lies within the source, and no location that the rest of
    /// the source can lead to overflows.
    #[verifier::type_invariant]
    spec fn well_formed(self) -> bool {
        &&& self.offset <= self.source.len()
        &&& self.location.line + self.location.column + (self.source.len() - self.offset)
            <= usize::MAX
    }

    /// A scanner at the start of `source`: line 1, column 0.
    pub fn new(source: &str) -> (scanner: Scanner)
        requires
            source@.len() < usize::MAX,
        ensures
            scanner@ == Cursor::start(source@),
    {
        let source = characters(source);
        assert(source@.skip(0) =~= source@);
        Scanner { source, offset: 0, location: Location { line: 1, column: 0 } }
    }

    /// Consumes the next character, if there is one, and moves the location
    /// past it.
    fn advance(&mut self) -> (next: Option<char>)
        ensures
            match next {
                Some(c) => old(self)@.rest.len() > 0 && c == old(self)@.rest[0] && final(self)@
                    == old(self)@.advance(1),
                None => old(self)@.rest.len() == 0 && final(self)@ == old(self)@,
            },
    {
        proof {
            use_type_invariant(&*self);
        }
        if self.offset < self.source.len() {
            let c = self.source[self.offset];
            proof {
                old(self)@.lemma_advance_one();
                assert(old(self)@.rest.drop_first() =~= self.source@.skip(self.offset + 1));
            }
            self.offset += 1;
            if c == '\n' {
                self.location.line += 1;
                self.location.column = 0;
            } else {
                self.location.column += 1;
            }
            Some(c)
        } else {
            None
        }
    }

    /// The next character, if there is one; nothing is consumed.
    fn peek(&self) -> (next: Option<char>)
        ensures
            next == (if self@.rest.len() > 0 {
                Some(self@.rest[0])
            } else {
                None
            }),
    {
        proof {
            use_type_invariant(self);
        }
        if self.offset < self.source.len() {
            Some(self.source[self.offset])
        } else {
            None
        }
    }

    /// Whether the input is exhausted.
    fn is_at_end(&self) -> (at_end: bool)
        ensures
            at_end == (self@.rest.len() == 0),
    {
        self.peek().is_none()
    }

    /// Consumes the whitespace at the front of the input.
    fn skip_whitespace(&mut self)
        ensures
            final(self)@ == old(self)@.advance(span(old(self)@.rest, whitespace())),
            span(old(self)@.rest, whitespace()) <= old(self)@.rest.len(),
    {
        let ghost start = self@;
        let ghost mut taken: nat = 0;
        proof {
            start.lemma_advance_none();
        }
        loop
            invariant
                taken <= start.rest.len(),
                self@ == start.advance(taken),
                span(start.rest, whitespace()) == taken + span(self@.rest, whitespace()),
            ensures
                self@ == start.advance(span(start.rest, whitespace())),
                span(start.rest, whitespace()) <= start.rest.len(),
            decreases self@.rest.len(),
        {
            match self.peek() {
                Some(c) => {
                    if c.is_whitespace() {
                        let _ = self.advance();
                        proof {
                            start.lemma_advance_next(taken);
                            taken = taken + 1;
                        }
                    } else {
                        break ;
                    }
                },
                None => {
                    break ;
                },
            }
        }
    }

    /// Consumes the next character if it is `expected`.
    fn consume_if_match(&mut self, expected: char) -> (matched: Option<char>)
        ensures
            begins_with(old(self)@.rest, expected) ==> matched == Some(expected) && final(self)@
                == old(self)@.advance(1),
            !begins_with(old(self)@.rest, expected) ==> matched.is_none() && final(self)@ == old(
                self,
            )@,
    {
        if let Some(c) = self.peek() {
            if expected == c {
                return self.advance();
            }
        }
        None
    }

    /// Consumes a comment whose two slashes have been consumed: the rest of
    /// the line with its newline, or the rest of the input.
    fn consume_comment(&mut self) -> (item: Result<Token, Error>)
        ensures
            final(self)@ == old(self)@.advance(comment(old(self)@.rest).length),
            item_view(item) == comment(old(self)@.rest).item(final(self)@.position),
            comment(old(self)@.rest).length <= old(self)@.rest.len(),
    {
        let ghost start = self@;
        let ghost mut taken: nat = 0;
        let ghost line = other_than('\n');
        let mut value: String = String::new();
        proof {
            start.lemma_advance_none();
        }
        loop
            invariant_except_break
                span(start.rest, line) == taken + span(self@.rest, line),
            invariant
                line == other_than('\n'),
                taken <= start.rest.len(),
                self@ == start.advance(taken),
                value@ == start.rest.take(taken as int),
            ensures
                taken == comment(start.rest).length,
            decreases self@.rest.len(),
        {
            proof {
                if taken < start.rest.len() {
                    start.lemma_advance_next(taken);
                }
            }
            match self.advance() {
                Some(c) => {
                    value.push(c);
                    proof {
                        taken = taken + 1;
                    }
                    if c == '\n' {
                        break ;
                    }
                },
                None => {
                    break ;
                },
            }
        }
        Ok(Token::new(TokenType::Comment(value), self.location))
    }

    /// Consumes a string literal whose opening quote has been consumed.
    fn consume_string(&mut self) -> (item: Result<Token, Error>)
        ensures
            final(self)@ == old(self)@.advance(string_literal(old(self)@.rest).length),
            item_view(item) == string_literal(old(self)@.rest).item(final(self)@.position),
            string_literal(old(self)@.rest).length <= old(self)@.rest.len(),
    {
        let ghost start = self@;
        let ghost mut taken: nat = 0;
        let ghost inside = other_than('"');
        let mut value: String = String::new();
        proof {
            start.lemma_advance_none();
        }
        loop
            invariant
                inside == other_than('"'),
                taken <= start.rest.len(),
                self@ == start.advance(taken),
                value@ == start.rest.take(taken as int),
                span(start.rest, inside) == taken + span(self@.rest, inside),
            ensures
                taken == span(start.rest, inside),
            decreases self@.rest.len(),
        {
            match self.peek() {
                Some(c) => {
                    if c == '"' {
                        break ;
                    } else {
                        if let Some(c) = self.advance() {
                            value.push(c);
                        }
                        proof {
                            start.lemma_advance_next(taken);
                            taken = taken + 1;
                        }
                    }
                },
                None => {
                    break ;
                },
            }
        }
        if self.is_at_end() {
            let mut message = String::from_str("Unterminated string literal \"");
            message.append(value.as_str());
            Err(Error { location: self.location, message })
        } else {
            proof {
                start.lemma_advance_next(taken);
            }
            let _ = self.advance();
            Ok(Token::new(TokenType::Str(value), self.location))
        }
    }

    /// Consumes the decimal digits at the front of the input and returns
    /// them.
    fn consume_digits(&mut self) -> (digits: String)
        ensures
            final(self)@ == old(self)@.advance(span(old(self)@.rest, digit())),
            digits@ == old(self)@.rest.take(span(old(self)@.rest, digit()) as int),
            span(old(self)@.rest, digit()) <= old(self)@.rest.len(),
    {
        let ghost start = self@;
        let ghost mut taken: nat = 0;
        let mut value: String = String::new();
        proof {
            start.lemma_advance_none();
        }
        loop
            invariant
                taken <= start.rest.len(),
                self@ == start.advance(taken),
                value@ == start.rest.take(taken as int),
                span(start.rest, digit()) == taken + span(self@.rest, digit()),
            ensures
                taken == span(start.rest, digit()),
            decreases self@.rest.len(),
        {
            match self.peek() {
                Some(c) => {
                    if is_decimal_digit(c) {
                        if let Some(d) = self.advance() {
                            value.push(d);
                        }
                        proof {
                            start.lemma_advance_next(taken);
                            taken = taken + 1;
                        }
                    } else {
                        break ;
                    }
                },
                None => {
                    break ;
                },
            }
        }
        value
    }

    /// Consumes a number literal whose first digit, `start`, has been
    /// consumed.
    fn consume_number(&mut self, start: char) -> (item: Result<Token, Error>)
        ensures
            final(self)@ == old(self)@.advance(number(start, old(self)@.rest).length),
            item_view(item) == number(start, old(self)@.rest).item(final(self)@.position),
            number(start, old(self)@.rest).length <= old(self)@.rest.len(),
    {
        let ghost begin = self@;
        let ghost whole = span(begin.rest, digit());
        let mut value: String = String::new();
        value.push(start);
        let digits = self.consume_digits();
        value.append(digits.as_str());
        let mut incomplete = false;
        // Out of digits. Is there a decimal point?
        if let Some(point) = self.consume_if_match('.') {
            value.push(point);
            // A digit must follow the decimal point.
            let digits = self.consume_digits();
            value.append(digits.as_str());
            incomplete = digits.as_str().is_empty();
            proof {
                let fraction = span(begin.rest.skip(whole + 1 as int), digit());
                begin.lemma_advance_next(whole);
                begin.lemma_advance_more(whole + 1, fraction);
                assert(value@ =~= seq![start] + begin.rest.take(whole + 1 + fraction as int));
            }
        }
        if incomplete {
            let mut message = String::from_str("Incomplete number literal ");
            message.append(value.as_str());
            return Err(Error { location: self.location, message });
        }
        Ok(Token::new(TokenType::Number(value), self.location))
    }

    /// Consumes a word whose first character, `first`, has been consumed,
    /// and resolves it to a keyword or an identifier.
    fn consume_identifier(&mut self, first: char) -> (item: Result<Token, Error>)
        ensures
            final(self)@ == old(self)@.advance(word(first, old(self)@.rest).length),
            item_view(item) == word(first, old(self)@.rest).item(final(self)@.position),
            word(first, old(self)@.rest).length <= old(self)@.rest.len(),
    {
        let ghost start = self@;
        let ghost mut taken: nat = 0;
        let mut value = String::new();
        value.push(first);
        proof {
            start.lemma_advance_none();
        }
        loop
            invariant
                taken <= start.rest.len(),
                self@ == start.advance(taken),
                value@ == seq![first] + start.rest.take(taken as int),
                span(start.rest, identifier_part()) == taken + span(self@.rest, identifier_part()),
            ensures
                taken == span(start.rest, identifier_part()),
            decreases self@.rest.len(),
        {
            match self.peek() {
                Some(c) => {
                    if c.is_alphanumeric() || c == '_' {
                        if let Some(c) = self.advance() {
                            value.push(c);
                        }
                        proof {
                            start.lemma_advance_next(taken);
                            taken = taken + 1;
                            assert(value@ =~= seq![first] + start.rest.take(taken as int));
                        }
                    } else {
                        break ;
                    }
                },
                None => {
                    break ;
                },
            }
        }
        Ok(Token::from_identifier(value.as_str(), self.location))
    }

    /// A token of the given kind at the location reached.
    fn token(&self, token_type: TokenType) -> (item: Option<Result<Token, Error>>)
        ensures
            pull_view(item) == Some(
                Lexeme::token(0, token_type@).item(self@.position),
            ),
    {
        Some(Ok(Token::new(token_type, self.location)))
    }

    /// Consumes an operator whose first character has been consumed: the
    /// two-character kind `double` if an equals sign follows, else `single`.
    fn consume_operator(&mut self, single: TokenType, double: TokenType) -> (item: Option<
        Result<Token, Error>,
    >)
        ensures
            final(self)@ == old(self)@.advance(operator(old(self)@.rest, single@, double@).length),
            pull_view(item) == Some(
                operator(old(self)@.rest, single@, double@).item(final(self)@.position),
            ),
            operator(old(self)@.rest, single@, double@).length <= old(self)@.rest.len(),
    {
        proof {
            old(self)@.lemma_advance_none();
        }
        if let Some(_) = self.consume_if_match('=') {
            self.token(double)
        } else {
            self.token(single)
        }
    }

    /// Scans one lexeme: skips whitespace, then consumes the lexeme at the
    /// front of the input and returns its token, or the error that stands in
    /// its place. Returns `None` once the input is exhausted; this is the
    /// only way the scan ends.
    pub fn next_token(&mut self) -> (item: Option<Result<Token, Error>>)
        ensures
            pull_view(item) == scan(old(self)@).item,
            final(self)@ == scan(old(self)@).next,
    {
        self.skip_whitespace();
        let ghost at = self@;
        if let Some(c) = self.advance() {
            let ghost tail = at.rest.drop_first();
            proof {
                at.lemma_advance_one();
                at.advance(1).lemma_advance_none();
                let rest = lexeme(c, tail).length - 1;
                if 1 + rest <= at.rest.len() {
                    at.lemma_advance_more(1, rest as nat);
                }
            }
            match c {
                // Single characters
                '(' => self.token(TokenType::LeftParen),
                ')' => self.token(TokenType::RightParen),
                '{' => self.token(TokenType::LeftBrace),
                '}' => self.token(TokenType::RightBrace),
                ',' => self.token(TokenType::Comma),
                '.' => self.token(TokenType::Dot),
                '-' => self.token(TokenType::Minus),
                '+' => self.token(TokenType::Plus),
                ';' => self.token(TokenType::Semicolon),
                '*' => self.token(TokenType::Star),
                // One or two characters
                '!' => self.consume_operator(TokenType::Bang, TokenType::BangEqual),
                '=' => self.consume_operator(TokenType::Equal, TokenType::EqualEqual),
                '<' => self.consume_operator(TokenType::Less, TokenType::LessEqual),
                '>' => self.consume_operator(TokenType::Greater, TokenType::GreaterEqual),
                // A slash is one character if it is a token at all: two of
                // them open a comment.
                '/' => {
                    if let Some(_) = self.consume_if_match('/') {
                        proof {
                            at.advance(1).lemma_advance_one();
                            let body = comment(tail.skip(1)).length;
                            if 1 + body <= tail.len() {
                                at.advance(1).lemma_advance_more(1, body);
                            }
                        }
                        Some(self.consume_comment())
                    } else {
                        self.token(TokenType::Slash)
                    }
                },
                '"' => Some(self.consume_string()),
                x if x.is_alphabetic() || x == '_' => Some(self.consume_identifier(x)),
                n if is_decimal_digit(n) => Some(self.consume_number(n)),
                _ => {
                    let mut message = String::from_str("Illegal token: ");
                    let illegal = Token::new(TokenType::Illegal(c), self.location);
                    message.append(illegal.to_string().as_str());
                    Some(Err(Error { location: self.location, message }))
                },
            }
        } else {
            None
        }
    }

    /// Pulls until the input is exhausted and returns everything that the
    /// pulls yielded, in order.
    pub fn collect(self) -> (items: Vec<Result<Token, Error>>)
        ensures
            items_view(items@) == scan_all(self@),
    {
        let mut scanner = self;
        let mut items: Vec<Result<Token, Error>> = Vec::new();
        loop
            invariant
                items_view(items@) + scan_all(scanner@) == scan_all(self@),
            ensures
                items_view(items@) =~= scan_all(self@),
            decreases scanner@.rest.len(),
        {
            proof {
                lemma_scan_consumes(scanner@);
            }
            let ghost before = items_view(items@);
            match scanner.next_token() {
                Some(item) => {
                    items.push(item);
                    assert(items_view(items@) =~= before.push(item_view(item)));
                    assert(before.push(item_view(item)) + scan_all(scanner@) =~= before + (
                    seq![item_view(item)] + scan_all(scanner@)));
                },
                None => {
                    break ;
                },
            }
        }
        items
    }

    /// The next pull, under the name that iteration goes by.
    pub fn next(&mut self) -> (item: Option<Result<Token, Error>>)
        ensures
            pull_view(item) == scan(old(self)@).item,
            final(self)@ == scan(old(self)@).next,
    {
        self.next_token()
    }
}

} // verus!
