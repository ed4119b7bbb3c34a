use lox::scanner::{Error, Scanner};
use lox::source::Location;
use lox::tokens::{Token, TokenType};

fn scan(source: &str) -> Vec<Result<Token, Error>> {
    Scanner::new(source).collect()
}

fn tokens(source: &str) -> Vec<Token> {
    scan(source)
        .into_iter()
        .map(|item| item.expect("a token"))
        .collect()
}

fn kinds(source: &str) -> Vec<TokenType> {
    tokens(source)
        .into_iter()
        .map(|token| token.token_type)
        .collect()
}

fn only_error(source: &str) -> Error {
    let mut items = scan(source);
    assert_eq!(items.len(), 1);
    items.remove(0).expect_err("an error")
}

fn at(line: usize, column: usize) -> Location {
    Location { line, column }
}

#[test]
fn empty_input_yields_nothing() {
    assert!(scan("").is_empty());
    assert!(Scanner::new("").next_token().is_none());
}

#[test]
fn whitespace_only_input_yields_nothing() {
    assert!(scan(" ").is_empty());
    assert!(scan(" \t\r\n  \n").is_empty());
    assert!(scan("\u{a0}\u{2003}\u{3000}").is_empty());
    assert!(Scanner::new("   ").next_token().is_none());
}

#[test]
fn exhausted_scanner_stays_exhausted() {
    let mut scanner = Scanner::new("a ");
    assert!(scanner.next_token().is_some());
    assert!(scanner.next_token().is_none());
    assert!(scanner.next_token().is_none());
    assert!(scanner.next().is_none());
}

#[test]
fn single_character_tokens() {
    let found = tokens("(){},.+-;*");
    let expected = vec![
        TokenType::LeftParen,
        TokenType::RightParen,
        TokenType::LeftBrace,
        TokenType::RightBrace,
        TokenType::Comma,
        TokenType::Dot,
        TokenType::Plus,
        TokenType::Minus,
        TokenType::Semicolon,
        TokenType::Star,
    ];
    assert_eq!(found.len(), expected.len());
    for (index, token) in found.iter().enumerate() {
        assert_eq!(token.token_type, expected[index]);
        assert_eq!(token.location, at(1, index + 1));
        if index > 0 {
            assert!(found[index - 1].location.column <= token.location.column);
        }
    }
}

#[test]
fn two_character_operators() {
    assert_eq!(kinds("!="), vec![TokenType::BangEqual]);
    assert_eq!(kinds("=="), vec![TokenType::EqualEqual]);
    assert_eq!(kinds("<="), vec![TokenType::LessEqual]);
    assert_eq!(kinds(">="), vec![TokenType::GreaterEqual]);
    assert_eq!(tokens("!=")[0].location, at(1, 2));
}

#[test]
fn one_character_operators() {
    assert_eq!(kinds("!"), vec![TokenType::Bang]);
    assert_eq!(kinds("="), vec![TokenType::Equal]);
    assert_eq!(kinds("<"), vec![TokenType::Less]);
    assert_eq!(kinds(">"), vec![TokenType::Greater]);
    assert_eq!(tokens("<")[0].location, at(1, 1));
}

#[test]
fn operators_take_the_longest_match_once() {
    assert_eq!(
        kinds("==="),
        vec![TokenType::EqualEqual, TokenType::Equal]
    );
    assert_eq!(kinds("! ="), vec![TokenType::Bang, TokenType::Equal]);
    assert_eq!(
        kinds("<=>"),
        vec![TokenType::LessEqual, TokenType::Greater]
    );
    assert_eq!(kinds("=!"), vec![TokenType::Equal, TokenType::Bang]);
}

#[test]
fn slash_is_division_unless_doubled() {
    assert_eq!(kinds("/"), vec![TokenType::Slash]);
    assert_eq!(kinds("/ /"), vec![TokenType::Slash, TokenType::Slash]);
    assert_eq!(
        kinds("a/b"),
        vec![
            TokenType::Identifier(String::from("a")),
            TokenType::Slash,
            TokenType::Identifier(String::from("b")),
        ]
    );
}

#[test]
fn comment_runs_to_the_end_of_the_line() {
    let found = tokens("// hi\n");
    assert_eq!(found.len(), 1);
    assert_eq!(
        found[0].token_type,
        TokenType::Comment(String::from(" hi\n"))
    );
    assert_eq!(found[0].location, at(2, 0));
}

#[test]
fn comment_keeps_everything_after_the_slashes() {
    assert_eq!(kinds("//hi\n"), vec![TokenType::Comment(String::from("hi\n"))]);
    assert_eq!(kinds("//"), vec![TokenType::Comment(String::new())]);
    assert_eq!(kinds("//\n"), vec![TokenType::Comment(String::from("\n"))]);
    assert_eq!(
        kinds("/// a \"b\" 1. @"),
        vec![TokenType::Comment(String::from("/ a \"b\" 1. @"))]
    );
}

#[test]
fn comment_without_newline_ends_with_the_input() {
    let found = tokens("x // rest");
    assert_eq!(found.len(), 2);
    assert_eq!(found[1].token_type, TokenType::Comment(String::from(" rest")));
    assert_eq!(found[1].location, at(1, 9));
}

#[test]
fn comment_ends_at_the_first_newline() {
    assert_eq!(
        kinds("//a\nb\n//c"),
        vec![
            TokenType::Comment(String::from("a\n")),
            TokenType::Identifier(String::from("b")),
            TokenType::Comment(String::from("c")),
        ]
    );
}

#[test]
fn string_literal() {
    let found = tokens("\"abc\"");
    assert_eq!(found.len(), 1);
    assert_eq!(found[0].token_type, TokenType::Str(String::from("abc")));
    assert_eq!(found[0].location, at(1, 5));
}

#[test]
fn string_literal_may_be_empty_or_span_lines() {
    assert_eq!(kinds("\"\""), vec![TokenType::Str(String::new())]);
    let found = tokens("\"a\nb\" c");
    assert_eq!(found[0].token_type, TokenType::Str(String::from("a\nb")));
    assert_eq!(found[0].location, at(2, 2));
    assert_eq!(found[1].token_type, TokenType::Identifier(String::from("c")));
    assert_eq!(found[1].location, at(2, 4));
}

#[test]
fn unterminated_string_literal() {
    let error = only_error("\"abc");
    assert_eq!(error.message(), "Unterminated string literal \"abc");
    assert!(error.message().to_lowercase().contains("unterminated"));
    assert_eq!(error.location(), at(1, 4));
}

#[test]
fn unterminated_string_is_reported_at_the_end_of_the_input() {
    let items = scan("x \"ab\ncd");
    assert_eq!(items.len(), 2);
    let error = items[1].clone().expect_err("an error");
    assert_eq!(error.message(), "Unterminated string literal \"ab\ncd");
    assert_eq!(error.location(), at(2, 2));
    assert_eq!(only_error("\"").message(), "Unterminated string literal \"");
}

#[test]
fn number_literals() {
    assert_eq!(kinds("123"), vec![TokenType::Number(String::from("123"))]);
    assert_eq!(kinds("1.5"), vec![TokenType::Number(String::from("1.5"))]);
    assert_eq!(tokens("123")[0].location, at(1, 3));
    assert_eq!(tokens("1.5")[0].location, at(1, 3));
}

#[test]
fn number_literals_read_as_floats() {
    let value = |source: &str| -> f64 {
        match &tokens(source)[0].token_type {
            TokenType::Number(literal) => literal.parse().expect("a float"),
            other => panic!("no number: {:?}", other),
        }
    };
    assert_eq!(value("123"), 123.0);
    assert_eq!(value("1.5"), 1.5);
    assert_eq!(value("0"), 0.0);
    assert_eq!(value("007.250"), 7.25);
}

#[test]
fn incomplete_number_literal() {
    let error = only_error("1.");
    assert_eq!(error.message(), "Incomplete number literal 1.");
    assert_eq!(error.location(), at(1, 2));
    let error = only_error("120.");
    assert_eq!(error.message(), "Incomplete number literal 120.");
    assert_eq!(error.location(), at(1, 4));
}

#[test]
fn scan_goes_on_behind_an_incomplete_number() {
    let items = scan("1.x");
    assert_eq!(items.len(), 2);
    assert_eq!(
        items[0].clone().expect_err("an error").message(),
        "Incomplete number literal 1."
    );
    assert_eq!(
        items[1].clone().expect("a token"),
        Token::new(TokenType::Identifier(String::from("x")), at(1, 3))
    );
}

#[test]
fn number_takes_one_decimal_point() {
    assert_eq!(
        kinds("1.5.2"),
        vec![
            TokenType::Number(String::from("1.5")),
            TokenType::Dot,
            TokenType::Number(String::from("2")),
        ]
    );
    assert_eq!(
        kinds(".5"),
        vec![TokenType::Dot, TokenType::Number(String::from("5"))]
    );
    assert_eq!(
        kinds("12ab"),
        vec![
            TokenType::Number(String::from("12")),
            TokenType::Identifier(String::from("ab")),
        ]
    );
}

#[test]
fn only_ascii_digits_make_numbers() {
    assert_eq!(
        only_error("\u{0663}").message(),
        "Illegal token: ILLEGAL(\u{0663})"
    );
    let items = scan("1\u{0663}");
    assert_eq!(items.len(), 2);
    assert_eq!(
        items[0].clone().expect("a token").token_type,
        TokenType::Number(String::from("1"))
    );
    assert_eq!(
        items[1].clone().expect_err("an error").message(),
        "Illegal token: ILLEGAL(\u{0663})"
    );
    assert_eq!(
        kinds("a\u{0663}"),
        vec![TokenType::Identifier(String::from("a\u{0663}"))]
    );
}

#[test]
fn identifiers_and_keywords() {
    assert_eq!(kinds("iffy"), vec![TokenType::Identifier(String::from("iffy"))]);
    assert_eq!(kinds("if"), vec![TokenType::If]);
    assert_eq!(kinds("If"), vec![TokenType::Identifier(String::from("If"))]);
    assert_eq!(kinds("i"), vec![TokenType::Identifier(String::from("i"))]);
    assert_eq!(
        kinds("_a1_b2"),
        vec![TokenType::Identifier(String::from("_a1_b2"))]
    );
    assert_eq!(kinds("_"), vec![TokenType::Identifier(String::from("_"))]);
    assert_eq!(
        kinds("h\u{e9}llo"),
        vec![TokenType::Identifier(String::from("h\u{e9}llo"))]
    );
}

#[test]
fn every_keyword_has_its_kind() {
    assert_eq!(
        kinds("and class else false for fun if nil or print return super this true var while"),
        vec![
            TokenType::And,
            TokenType::Class,
            TokenType::Else,
            TokenType::False,
            TokenType::For,
            TokenType::Fun,
            TokenType::If,
            TokenType::Nil,
            TokenType::Or,
            TokenType::Print,
            TokenType::Return,
            TokenType::Super,
            TokenType::This,
            TokenType::True,
            TokenType::Var,
            TokenType::While,
        ]
    );
}

#[test]
fn from_identifier_matches_whole_words_only() {
    let location = at(3, 7);
    assert_eq!(
        Token::from_identifier("while", location),
        Token::new(TokenType::While, location)
    );
    assert_eq!(
        Token::from_identifier("whil", location),
        Token::new(TokenType::Identifier(String::from("whil")), location)
    );
    assert_eq!(
        Token::from_identifier("whiles", location),
        Token::new(TokenType::Identifier(String::from("whiles")), location)
    );
    assert_eq!(
        Token::from_identifier("WHILE", location),
        Token::new(TokenType::Identifier(String::from("WHILE")), location)
    );
    assert_eq!(
        Token::from_identifier("", location),
        Token::new(TokenType::Identifier(String::new()), location)
    );
    assert_eq!(Token::from_identifier("nil", location).location, location);
}

#[test]
fn line_and_column_tracking() {
    let found = tokens("a\nb");
    assert_eq!(found.len(), 2);
    assert_eq!(found[0].token_type, TokenType::Identifier(String::from("a")));
    assert_eq!(found[0].location, at(1, 1));
    assert_eq!(found[1].token_type, TokenType::Identifier(String::from("b")));
    assert_eq!(found[1].location, at(2, 1));
}

#[test]
fn location_is_the_end_of_the_lexeme() {
    let found = tokens("  while\n\n   xyz 12.5");
    assert_eq!(found[0].location, at(1, 7));
    assert_eq!(found[1].location, at(3, 6));
    assert_eq!(found[2].location, at(3, 11));
}

#[test]
fn illegal_character_is_reported_and_skipped() {
    let items = scan("@a");
    assert_eq!(items.len(), 2);
    let error = items[0].clone().expect_err("an error");
    assert_eq!(error.message(), "Illegal token: ILLEGAL(@)");
    assert_eq!(error.location(), at(1, 1));
    assert_eq!(
        items[1].clone().expect("a token"),
        Token::new(TokenType::Identifier(String::from("a")), at(1, 2))
    );
}

#[test]
fn scan_resumes_right_behind_an_illegal_character() {
    let mut scanner = Scanner::new("a @@b#1");
    let mut seen: Vec<String> = Vec::new();
    while let Some(item) = scanner.next_token() {
        seen.push(match item {
            Ok(token) => format!("{} at {}", token.to_string(), token.location.to_string()),
            Err(error) => error.to_string(),
        });
    }
    assert_eq!(
        seen,
        vec![
            String::from("IDENTIFIER(a) at 1, 1"),
            String::from("ScannerError<1, 3>: Illegal token: ILLEGAL(@)"),
            String::from("ScannerError<1, 4>: Illegal token: ILLEGAL(@)"),
            String::from("IDENTIFIER(b) at 1, 5"),
            String::from("ScannerError<1, 6>: Illegal token: ILLEGAL(#)"),
            String::from("NUMBER(1) at 1, 7"),
        ]
    );
}

#[test]
fn next_is_next_token() {
    let mut by_next = Scanner::new("var x = 1;");
    let mut by_next_token = Scanner::new("var x = 1;");
    loop {
        let left = by_next.next().map(|item| item.expect("a token"));
        let right = by_next_token.next_token().map(|item| item.expect("a token"));
        assert_eq!(left, right);
        if left.is_none() {
            break;
        }
    }
}

#[test]
fn a_small_program() {
    assert_eq!(
        kinds("fun add(a, b) {\n  return a + b; // sum\n}\nprint add(1, 2.5) >= 3;"),
        vec![
            TokenType::Fun,
            TokenType::Identifier(String::from("add")),
            TokenType::LeftParen,
            TokenType::Identifier(String::from("a")),
            TokenType::Comma,
            TokenType::Identifier(String::from("b")),
            TokenType::RightParen,
            TokenType::LeftBrace,
            TokenType::Return,
            TokenType::Identifier(String::from("a")),
            TokenType::Plus,
            TokenType::Identifier(String::from("b")),
            TokenType::Semicolon,
            TokenType::Comment(String::from(" sum\n")),
            TokenType::RightBrace,
            TokenType::Print,
            TokenType::Identifier(String::from("add")),
            TokenType::LeftParen,
            TokenType::Number(String::from("1")),
            TokenType::Comma,
            TokenType::Number(String::from("2.5")),
            TokenType::RightParen,
            TokenType::GreaterEqual,
            TokenType::Number(String::from("3")),
            TokenType::Semicolon,
        ]
    );
}
