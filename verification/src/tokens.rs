//! Tokens: the kinds of lexeme, the keyword table, and how a token is written.

use vstd::prelude::*;
use vstd::string::StringExecFns;
use crate::source::{Location, Position};

verus! {

/// The kind of a token as a mathematical value: what `TokenType` is, with
/// each piece of text as a sequence of characters.
pub enum TokenKind {
    LeftParen,
    RightParen,
    LeftBrace,
    RightBrace,
    Comma,
    Dot,
    Minus,
    Plus,
    Semicolon,
    Slash,
    Star,
    Bang,
    BangEqual,
    Equal,
    EqualEqual,
    Greater,
    GreaterEqual,
    Less,
    LessEqual,
    Identifier(Seq<char>),
    Str(Seq<char>),
    Number(Seq<char>),
    And,
    Class,
    Else,
    False,
    Fun,
    For,
    If,
    Nil,
    Or,
    Print,
    Return,
    Super,
    This,
    True,
    Var,
    While,
    Illegal(char),
    Comment(Seq<char>),
    Eof,
}

/// The kind of a token.
#[derive(Clone, Debug, PartialEq)]
#[allow(non_camel_case_types)]
pub enum TokenType {
    // Single character tokens
    LeftParen,
    RightParen,
    LeftBrace,
    RightBrace,
    Comma,
    Dot,
    Minus,
    Plus,
    Semicolon,
    Slash,
    Star,
    // One or two character tokens
    Bang,
    BangEqual,
    Equal,
    EqualEqual,
    Greater,
    GreaterEqual,
    Less,
    LessEqual,
    // Literals
    /// A name that is no keyword.
    Identifier(String),
    /// A string literal, without its quotes.
    Str(String),
    /// A number literal as it was written: digits, and optionally a point
    /// followed by digits.
    Number(String),
    // Keywords
    And,
    Class,
    Else,
    False,
    Fun,
    For,
    If,
    Nil,
    Or,
    Print,
    Return,
    Super,
    This,
    True,
    Var,
    While,
    // Special
    /// A character that starts no lexeme.
    Illegal(char),
    /// The text of a comment after its two slashes, with the newline that
    /// ends it if there is one.
    Comment(String),
    /// The end of the input. The scanner never produces it: the end shows in
    /// the sequence of tokens running out.
    _EOF,
}

impl View for TokenType {
    type V = TokenKind;

    open spec fn view(&self) -> TokenKind {
        match self {
            TokenType::LeftParen => TokenKind::LeftParen,
            TokenType::RightParen => TokenKind::RightParen,
            TokenType::LeftBrace => TokenKind::LeftBrace,
            TokenType::RightBrace => TokenKind::RightBrace,
            TokenType::Comma => TokenKind::Comma,
            TokenType::Dot => TokenKind::Dot,
            TokenType::Minus => TokenKind::Minus,
            TokenType::Plus => TokenKind::Plus,
            TokenType::Semicolon => TokenKind::Semicolon,
            TokenType::Slash => TokenKind::Slash,
            TokenType::Star => TokenKind::Star,
            TokenType::Bang => TokenKind::Bang,
            TokenType::BangEqual => TokenKind::BangEqual,
            TokenType::Equal => TokenKind::Equal,
            TokenType::EqualEqual => TokenKind::EqualEqual,
            TokenType::Greater => TokenKind::Greater,
            TokenType::GreaterEqual => TokenKind::GreaterEqual,
            TokenType::Less => TokenKind::Less,
            TokenType::LessEqual => TokenKind::LessEqual,
            TokenType::Identifier(name) => TokenKind::Identifier(name@),
            TokenType::Str(value) => TokenKind::Str(value@),
            TokenType::Number(literal) => TokenKind::Number(literal@),
            TokenType::And => TokenKind::And,
            TokenType::Class => TokenKind::Class,
            TokenType::Else => TokenKind::Else,
            TokenType::False => TokenKind::False,
            TokenType::Fun => TokenKind::Fun,
            TokenType::For => TokenKind::For,
            TokenType::If => TokenKind::If,
            TokenType::Nil => TokenKind::Nil,
            TokenType::Or => TokenKind::Or,
            TokenType::Print => TokenKind::Print,
            TokenType::Return => TokenKind::Return,
            TokenType::Super => TokenKind::Super,
            TokenType::This => TokenKind::This,
            TokenType::True => TokenKind::True,
            TokenType::Var => TokenKind::Var,
            TokenType::While => TokenKind::While,
            TokenType::Illegal(c) => TokenKind::Illegal(*c),
            TokenType::Comment(body) => TokenKind::Comment(body@),
            TokenType::_EOF => TokenKind::Eof,
        }
    }
}

impl TokenKind {
    /// A name followed by a payload in parentheses.
    pub open spec fn labelled(name: Seq<char>, payload: Seq<char>) -> Seq<char> {
        name + "("@ + payload + ")"@
    }

    /// How a kind is written: its name in upper case, and for the kinds that
    /// carry a payload the payload in parentheses behind it.
    pub open spec fn text(self) -> Seq<char> {
        match self {
            TokenKind::LeftParen => "LEFT_PAREN"@,
            TokenKind::RightParen => "RIGHT_PAREN"@,
            TokenKind::LeftBrace => "LEFT_BRACE"@,
            TokenKind::RightBrace => "RIGHT_BRACE"@,
            TokenKind::Comma => "COMMA"@,
            TokenKind::Dot => "DOT"@,
            TokenKind::Minus => "MINUS"@,
            TokenKind::Plus => "PLUS"@,
            TokenKind::Semicolon => "SEMICOLON"@,
            TokenKind::Slash => "SLASH"@,
            TokenKind::Star => "STAR"@,
            TokenKind::Bang => "BANG"@,
            TokenKind::BangEqual => "BANG_EQUAL"@,
            TokenKind::Equal => "EQUAL"@,
            TokenKind::EqualEqual => "EQUAL_EQUAL"@,
            TokenKind::Greater => "GREATER"@,
            TokenKind::GreaterEqual => "GREATER_EQUAL"@,
            TokenKind::Less => "LESS"@,
            TokenKind::LessEqual => "LESS_EQUAL"@,
            TokenKind::Identifier(name) => Self::labelled("IDENTIFIER"@, name),
            TokenKind::Str(value) => Self::labelled("STRING"@, value),
            TokenKind::Number(literal) => Self::labelled("NUMBER"@, literal),
            TokenKind::And => "AND"@,
            TokenKind::Class => "CLASS"@,
            TokenKind::Else => "ELSE"@,
            TokenKind::False => "FALSE"@,
            TokenKind::Fun => "FUN"@,
            TokenKind::For => "FOR"@,
            TokenKind::If => "IF"@,
            TokenKind::Nil => "NIL"@,
            TokenKind::Or => "OR"@,
            TokenKind::Print => "PRINT"@,
            TokenKind::Return => "RETURN"@,
            TokenKind::Super => "SUPER"@,
            TokenKind::This => "THIS"@,
            TokenKind::True => "TRUE"@,
            TokenKind::Var => "VAR"@,
            TokenKind::While => "WHILE"@,
            TokenKind::Comment(body) => Self::labelled("COMMENT"@, body),
            TokenKind::Illegal(c) => Self::labelled("ILLEGAL"@, seq![c]),
            TokenKind::Eof => "EOF"@,
        }
    }
}

/// The keyword that `text` spells, if it spells one. The match is on the
/// whole text and minds the case.
pub open spec fn keyword(text: Seq<char>) -> Option<TokenKind> {
    if text == "and"@ {
        Some(TokenKind::And)
    } else if text == "class"@ {
        Some(TokenKind::Class)
    } else if text == "else"@ {
        Some(TokenKind::Else)
    } else if text == "false"@ {
        Some(TokenKind::False)
    } else if text == "for"@ {
        Some(TokenKind::For)
    } else if text == "fun"@ {
        Some(TokenKind::Fun)
    } else if text == "if"@ {
        Some(TokenKind::If)
    } else if text == "nil"@ {
        Some(TokenKind::Nil)
    } else if text == "or"@ {
        Some(TokenKind::Or)
    } else if text == "print"@ {
        Some(TokenKind::Print)
    } else if text == "return"@ {
        Some(TokenKind::Return)
    } else if text == "super"@ {
        Some(TokenKind::Super)
    } else if text == "this"@ {
        Some(TokenKind::This)
    } else if text == "true"@ {
        Some(TokenKind::True)
    } else if text == "var"@ {
        Some(TokenKind::Var)
    } else if text == "while"@ {
        Some(TokenKind::While)
    } else {
        None
    }
}

/// The kind of a word: its keyword if it is one, else an identifier of that
/// name.
pub open spec fn word_kind(text: Seq<char>) -> TokenKind {
    match keyword(text) {
        Some(kind) => kind,
        None => TokenKind::Identifier(text),
    }
}

/// A token as a mathematical value.
pub struct TokenView {
    pub kind: TokenKind,
    pub position: Position,
}

/// A classified lexeme with the position at which the scanner stood once it
/// had consumed the whole lexeme.
#[derive(Clone, Debug, PartialEq)]
pub struct Token {
    pub token_type: TokenType,
    pub location: Location,
}

impl View for Token {
    type V = TokenView;

    open spec fn view(&self) -> TokenView {
        TokenView { kind: self.token_type@, position: self.location@ }
    }
}

impl TokenType {
    /// A name followed by a payload in parentheses.
    fn labelled(name: &str, payload: &str) -> (text: String)
        ensures
            text@ == TokenKind::labelled(name@, payload@),
    {
        let mut text = String::from_str(name);
        text.append("(");
        text.append(payload);
        text.append(")");
        text
    }

    /// Writes the kind: its name in upper case, and the payload, where it
    /// has one, in parentheses behind it.
    pub fn to_string(&self) -> (text: String)
        ensures
            text@ == self@.text(),
    {
        match self {
            TokenType::LeftParen => String::from_str("LEFT_PAREN"),
            TokenType::RightParen => String::from_str("RIGHT_PAREN"),
            TokenType::LeftBrace => String::from_str("LEFT_BRACE"),
            TokenType::RightBrace => String::from_str("RIGHT_BRACE"),
            TokenType::Comma => String::from_str("COMMA"),
            TokenType::Dot => String::from_str("DOT"),
            TokenType::Minus => String::from_str("MINUS"),
            TokenType::Plus => String::from_str("PLUS"),
            TokenType::Semicolon => String::from_str("SEMICOLON"),
            TokenType::Slash => String::from_str("SLASH"),
            TokenType::Star => String::from_str("STAR"),
            TokenType::Bang => String::from_str("BANG"),
            TokenType::BangEqual => String::from_str("BANG_EQUAL"),
            TokenType::Equal => String::from_str("EQUAL"),
            TokenType::EqualEqual => String::from_str("EQUAL_EQUAL"),
            TokenType::Greater => String::from_str("GREATER"),
            TokenType::GreaterEqual => String::from_str("GREATER_EQUAL"),
            TokenType::Less => String::from_str("LESS"),
            TokenType::LessEqual => String::from_str("LESS_EQUAL"),
            TokenType::Identifier(name) => Self::labelled("IDENTIFIER", name.as_str()),
            TokenType::Str(value) => Self::labelled("STRING", value.as_str()),
            TokenType::Number(literal) => Self::labelled("NUMBER", literal.as_str()),
            TokenType::And => String::from_str("AND"),
            TokenType::Class => String::from_str("CLASS"),
            TokenType::Else => String::from_str("ELSE"),
            TokenType::False => String::from_str("FALSE"),
            TokenType::Fun => String::from_str("FUN"),
            TokenType::For => String::from_str("FOR"),
            TokenType::If => String::from_str("IF"),
            TokenType::Nil => String::from_str("NIL"),
            TokenType::Or => String::from_str("OR"),
            TokenType::Print => String::from_str("PRINT"),
            TokenType::Return => String::from_str("RETURN"),
            TokenType::Super => String::from_str("SUPER"),
            TokenType::This => String::from_str("THIS"),
            TokenType::True => String::from_str("TRUE"),
            TokenType::Var => String::from_str("VAR"),
            TokenType::While => String::from_str("WHILE"),
            TokenType::Comment(body) => Self::labelled("COMMENT", body.as_str()),
            TokenType::Illegal(c) => {
                let mut payload = String::new();
                payload.push(*c);
                Self::labelled("ILLEGAL", payload.as_str())
            },
            TokenType::_EOF => String::from_str("EOF"),
        }
    }
}

impl Token {
    /// A token of the given kind at the given location.
    pub fn new(token_type: TokenType, location: Location) -> (token: Token)
        ensures
            token.token_type == token_type,
            token.location == location,
    {
        Token { token_type, location }
    }

    /// The token for a word: the keyword that `identifier` spells, or an
    /// identifier of that name where it spells none.
    pub fn from_identifier(identifier: &str, location: Location) -> (token: Token)
        ensures
            token@ == (TokenView { kind: word_kind(identifier@), position: location@ }),
    {
        if identifier.eq("and") {
            Token::new(TokenType::And, location)
        } else if identifier.eq("class") {
            Token::new(TokenType::Class, location)
        } else if identifier.eq("else") {
            Token::new(TokenType::Else, location)
        } else if identifier.eq("false") {
            Token::new(TokenType::False, location)
        } else if identifier.eq("for") {
            Token::new(TokenType::For, location)
        } else if identifier.eq("fun") {
            Token::new(TokenType::Fun, location)
        } else if identifier.eq("if") {
            Token::new(TokenType::If, location)
        } else if identifier.eq("nil") {
            Token::new(TokenType::Nil, location)
        } else if identifier.eq("or") {
            Token::new(TokenType::Or, location)
        } else if identifier.eq("print") {
            Token::new(TokenType::Print, location)
        } else if identifier.eq("return") {
            Token::new(TokenType::Return, location)
        } else if identifier.eq("super") {
            Token::new(TokenType::Super, location)
        } else if identifier.eq("this") {
            Token::new(TokenType::This, location)
        } else if identifier.eq("true") {
            Token::new(TokenType::True, location)
        } else if identifier.eq("var") {
            Token::new(TokenType::Var, location)
        } else if identifier.eq("while") {
            Token::new(TokenType::While, location)
        } else {
            Token::new(TokenType::Identifier(String::from_str(identifier)), location)
        }
    }

    /// Writes the token as its kind is written; the location is left out.
    pub fn to_string(&self) -> (text: String)
        ensures
            text@ == self@.kind.text(),
    {
        self.token_type.to_string()
    }
}

} // verus!
