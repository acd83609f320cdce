use lox::lox_result::LoxResult;
use lox::number::Number;
use lox::scanner::Scanner;
use lox::token::{Kind, Token, TokenType};

fn number(value: f64) -> Number {
    Number::from_units((value * 1_000_000.0).round() as i64)
}

fn scan(source: &str) -> Result<Vec<Token>, LoxResult> {
    let mut scanner = Scanner::new(source);
    scanner.scan_tokens()
}

fn kinds(source: &str) -> Vec<Kind> {
    scan(source).unwrap().iter().map(|t| t.kind()).collect()
}

fn causes(source: &str) -> Vec<(usize, String)> {
    match scan(source) {
        Err(LoxResult::ParseError { causes }) => {
            causes.into_iter().map(|c| (c.line, c.message)).collect()
        }
        other => panic!("expected lexical errors, got {:?}", other),
    }
}

#[test]
fn test_bool() {
    let source = "true false True False // true // false";
    let mut scanner = Scanner::new(source);
    let tokens = scanner.scan_tokens().unwrap();
    let ttypes: Vec<_> = tokens.iter().map(|t| &t.token_type).collect();

    assert_eq!(ttypes.len(), 5);
    assert_eq!(
        ttypes,
        vec![
            &TokenType::True,
            &TokenType::False,
            &TokenType::Identifier("True".to_owned()),
            &TokenType::Identifier("False".to_owned()),
            &TokenType::Eof,
        ]
    );
}

#[test]
fn test_number() {
    let source = "100 100.1 100.01 0 100d 100.d 100.".to_owned();
    let mut scanner = Scanner::new(&source);
    let tokens = scanner.scan_tokens().unwrap();
    let ttypes: Vec<_> = tokens.iter().map(|t| &t.token_type).collect();

    assert_eq!(ttypes.len(), 12);
    assert_eq!(
        ttypes,
        vec![
            &TokenType::Number(number(100.00)),
            &TokenType::Number(number(100.10)),
            &TokenType::Number(number(100.01)),
            &TokenType::Number(number(0.00)),
            &TokenType::Number(number(100.00)),
            &TokenType::Identifier("d".to_owned()),
            &TokenType::Number(number(100.00)),
            &TokenType::Dot,
            &TokenType::Identifier("d".to_owned()),
            &TokenType::Number(number(100.00)),
            &TokenType::Dot,
            &TokenType::Eof,
        ]
    );
}

#[test]
fn test_comment() {
    let source = "/*/* hi */ hello */ // world".to_owned();
    let mut scanner = Scanner::new(&source);
    let tokens = scanner.scan_tokens().unwrap();
    let ttypes: Vec<_> = tokens.iter().map(|t| &t.token_type).collect();

    assert_eq!(ttypes.len(), 1);
    assert_eq!(ttypes[0], &TokenType::Eof);
}

#[test]
fn number_payloads_are_exact() {
    let tokens = scan("100 100.1 100.01 0 3.1415926535 007").unwrap();
    let units: Vec<i64> = tokens
        .iter()
        .filter_map(|t| match &t.token_type {
            TokenType::Number(n) => Some(n.units),
            _ => None,
        })
        .collect();
    assert_eq!(units, vec![100_000_000, 100_100_000, 100_010_000, 0, 3_141_592, 7_000_000]);
    let lexemes: Vec<&str> = tokens.iter().map(|t| t.lexeme.as_str()).collect();
    assert_eq!(lexemes, vec!["100", "100.1", "100.01", "0", "3.1415926535", "007", ""]);
}

#[test]
fn trailing_dot_is_a_separate_token() {
    let tokens = scan("100.").unwrap();
    assert_eq!(tokens.len(), 3);
    assert_eq!(tokens[0].lexeme, "100");
    assert_eq!(tokens[0].kind(), Kind::Number);
    assert_eq!(tokens[1].lexeme, ".");
    assert_eq!(tokens[1].kind(), Kind::Dot);
    assert_eq!(tokens[2].kind(), Kind::Eof);
}

#[test]
fn number_out_of_range_is_an_error() {
    assert_eq!(
        causes("9223372036855"),
        vec![(1, "Number literal out of range.".to_owned())]
    );
    assert_eq!(kinds("9223372036854"), vec![Kind::Number, Kind::Eof]);
}

#[test]
fn identifier_and_string_payloads() {
    let tokens = scan("name \"two\nlines\" _x1").unwrap();
    match &tokens[0].token_type {
        TokenType::Identifier(s) => assert_eq!(s, "name"),
        other => panic!("{:?}", other),
    }
    match &tokens[1].token_type {
        TokenType::String(s) => assert_eq!(s, "two\nlines"),
        other => panic!("{:?}", other),
    }
    assert_eq!(tokens[1].lexeme, "two\nlines");
    assert_eq!(tokens[1].line, 2);
    match &tokens[2].token_type {
        TokenType::Identifier(s) => assert_eq!(s, "_x1"),
        other => panic!("{:?}", other),
    }
    assert_eq!(tokens[2].line, 2);
}

#[test]
fn punctuation_and_operators() {
    assert_eq!(
        kinds("( ) { } , . - + ; * : ? ! != = == < <= > >= /"),
        vec![
            Kind::LeftParen,
            Kind::RightParen,
            Kind::LeftBrace,
            Kind::RightBrace,
            Kind::Comma,
            Kind::Dot,
            Kind::Minus,
            Kind::Plus,
            Kind::Semicolon,
            Kind::Star,
            Kind::Colon,
            Kind::QuestionMark,
            Kind::Bang,
            Kind::BangEqual,
            Kind::Equal,
            Kind::EqualEqual,
            Kind::Less,
            Kind::LessEqual,
            Kind::Greater,
            Kind::GreaterEqual,
            Kind::Slash,
            Kind::Eof,
        ]
    );
    let tokens = scan("a<=b").unwrap();
    assert_eq!(tokens[1].lexeme, "<=");
}

#[test]
fn keywords() {
    assert_eq!(
        kinds("and class else false for fun if nil or print return super this true var while"),
        vec![
            Kind::And,
            Kind::Class,
            Kind::Else,
            Kind::False,
            Kind::For,
            Kind::Fun,
            Kind::If,
            Kind::Nil,
            Kind::Or,
            Kind::Print,
            Kind::Return,
            Kind::Super,
            Kind::This,
            Kind::True,
            Kind::Var,
            Kind::While,
            Kind::Eof,
        ]
    );
    assert_eq!(kinds("classy or_ nill"), vec![Kind::Identifier; 3].into_iter().chain([Kind::Eof]).collect::<Vec<_>>());
}

#[test]
fn lines_count_from_one() {
    let tokens = scan("a\nb // c\n\n/* d\n e */ f").unwrap();
    let lines: Vec<usize> = tokens.iter().map(|t| t.line).collect();
    assert_eq!(lines, vec![1, 2, 5, 5]);
}

#[test]
fn empty_source_is_eof_on_line_one() {
    let tokens = scan("").unwrap();
    assert_eq!(tokens.len(), 1);
    assert_eq!(tokens[0].kind(), Kind::Eof);
    assert_eq!(tokens[0].lexeme, "");
    assert_eq!(tokens[0].line, 1);
}

#[test]
fn nested_comment_must_close_every_level() {
    assert_eq!(
        causes("/* a /* b */ c"),
        vec![(1, "Unterminated block comment.".to_owned())]
    );
    assert_eq!(kinds("/* a /* b */ c */ d"), vec![Kind::Identifier, Kind::Eof]);
    assert_eq!(kinds("/***/ d"), vec![Kind::Identifier, Kind::Eof]);
}

#[test]
fn lexical_errors_accumulate_in_order() {
    assert_eq!(
        causes("@ a\n# \"open"),
        vec![
            (1, "Unexpected character.".to_owned()),
            (2, "Unexpected character.".to_owned()),
            (2, "Unterminated string.".to_owned()),
        ]
    );
}

#[test]
fn non_ascii_only_inside_strings_and_comments() {
    assert_eq!(kinds("\"héllo\" // ünï\n/* ☃ */"), vec![Kind::String, Kind::Eof]);
    assert_eq!(causes("é"), vec![(1, "Unexpected character.".to_owned())]);
}

#[test]
fn kinds_compare_by_tag_only() {
    assert_eq!(TokenType::Identifier("a".to_owned()), TokenType::Identifier("b".to_owned()));
    assert_ne!(TokenType::Identifier("a".to_owned()), TokenType::String("a".to_owned()));
    assert_eq!(TokenType::Number(number(1.0)), TokenType::Number(number(2.0)));
}

#[test]
fn a_scanner_hands_its_tokens_out_once() {
    let mut scanner = Scanner::new("a b");
    assert_eq!(scanner.scan_tokens().unwrap().len(), 3);
    assert_eq!(scanner.scan_tokens().unwrap().len(), 1);
}

/// The tokens but the last, each written out with a space after it.
fn rendered(tokens: &[Token]) -> String {
    let mut text = String::new();
    for t in &tokens[..tokens.len() - 1] {
        if t.kind() == Kind::String {
            text.push('"');
            text.push_str(&t.lexeme);
            text.push('"');
        } else {
            text.push_str(&t.lexeme);
        }
        text.push(' ');
    }
    text
}

fn payload(t: &Token) -> (Kind, String, i64, String) {
    let (text, units) = match &t.token_type {
        TokenType::Identifier(s) | TokenType::String(s) => (s.clone(), 0),
        TokenType::Number(n) => (String::new(), n.units),
        _ => (String::new(), 0),
    };
    (t.kind(), text, units, t.lexeme.clone())
}

#[test]
fn tokens_written_out_scan_to_like_tokens() {
    let sources = [
        "",
        "print 1 + 2 * 3;",
        "var a = \"hi\"; // note\nvar b = 3.25; /* and /* more */ */ print a + b;",
        "class B < A { hello() { super.hello(); print \"two\nlines\"; } } B().hello();",
        "a<=b>=c!=d==e<f>g=h!i/j?k:l.m,n-1.5.x 7.",
        "fun f(x){return x?-x:!x and nil or true;}while(false)for(;;)this._y1=0;",
    ];
    for source in sources {
        let tokens = scan(source).unwrap();
        let text = rendered(&tokens);
        let again = scan(&text).unwrap();
        let first: Vec<_> = tokens.iter().map(payload).collect();
        let second: Vec<_> = again.iter().map(payload).collect();
        assert_eq!(first, second, "{:?} written as {:?}", source, text);
    }
}
