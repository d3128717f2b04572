use bytecode_vm::{compile, Error, Parser, Scanner, TokenType};

fn scan_one(src: &str) -> Result<(TokenType, usize), Error> {
    let mut scanner = Scanner::new(src.as_bytes());
    scanner
        .scan_token()
        .map(|t| (t.token_type().clone(), t.line()))
}

fn scan_all(src: &str) -> Vec<Result<TokenType, Error>> {
    let mut scanner = Scanner::new(src.as_bytes());
    let mut out = Vec::new();
    while let Some(r) = scanner.next() {
        let stop = r.is_err();
        out.push(r.map(|t| t.token_type().clone()));
        if stop {
            break;
        }
    }
    out
}

#[test]
fn number_literal_with_fraction() {
    let (t, _) = scan_one("1.2").unwrap();
    match t {
        TokenType::Num(text) => {
            assert_eq!(text, "1.2");
            assert_eq!(text.parse::<f64>().unwrap(), 1.2);
        }
        other => panic!("expected a number, got {:?}", other),
    }
}

#[test]
fn number_literal_integer() {
    let (t, _) = scan_one("3").unwrap();
    match t {
        TokenType::Num(text) => {
            assert_eq!(text, "3");
            assert_eq!(text.parse::<f64>().unwrap(), 3.0);
        }
        other => panic!("expected a number, got {:?}", other),
    }
}

#[test]
fn number_literal_stops_at_non_digit() {
    let mut scanner = Scanner::new(b"12.50+7");
    let t = scanner.scan_token().unwrap();
    assert_eq!(t.token_type(), &TokenType::Num("12.50".to_string()));
    assert_eq!(scanner.scan_token().unwrap().token_type(), &TokenType::Plus);
    assert_eq!(
        scanner.scan_token().unwrap().token_type(),
        &TokenType::Num("7".to_string())
    );
}

#[test]
fn number_with_point_and_no_digit_is_invalid() {
    assert_eq!(scan_one("1.").unwrap_err(), Error::InvalidNumFormat);
    assert_eq!(scan_one("1.x").unwrap_err(), Error::InvalidNumFormat);
}

#[test]
fn unterminated_string_fails() {
    assert_eq!(scan_one("\"abc").unwrap_err(), Error::UnterminatedString);
    assert_eq!(scan_one("\"").unwrap_err(), Error::UnterminatedString);
    let all = scan_all("let x = \"abc\ndef");
    assert_eq!(all.last().unwrap(), &Err(Error::UnterminatedString));
}

#[test]
fn string_literal_carries_its_contents() {
    assert_eq!(scan_one("\"hi there\""), Ok((TokenType::Str("hi there".to_string()), 1)));
    assert_eq!(scan_one("\"\""), Ok((TokenType::Str(String::new()), 1)));
}

#[test]
fn string_spanning_lines_keeps_its_start_line() {
    let mut scanner = Scanner::new(b"\"a\nb\" +");
    let s = scanner.scan_token().unwrap();
    assert_eq!(s.token_type(), &TokenType::Str("a\nb".to_string()));
    assert_eq!(s.line(), 1);
    let plus = scanner.scan_token().unwrap();
    assert_eq!(plus.token_type(), &TokenType::Plus);
    assert_eq!(plus.line(), 2);
}

#[test]
fn keywords_map_to_reserved_types() {
    assert_eq!(scan_one("while").unwrap().0, TokenType::While);
    assert_eq!(scan_one("if").unwrap().0, TokenType::If);
    assert_eq!(scan_one("else").unwrap().0, TokenType::Else);
    assert_eq!(scan_one("let").unwrap().0, TokenType::Let);
    assert_eq!(scan_one("true").unwrap().0, TokenType::True);
    assert_eq!(scan_one("false").unwrap().0, TokenType::False);
}

#[test]
fn keyword_prefixes_are_identifiers() {
    assert_eq!(
        scan_one("whilex").unwrap().0,
        TokenType::Identifier("whilex".to_string())
    );
    assert_eq!(scan_one("iffy").unwrap().0, TokenType::Identifier("iffy".to_string()));
    assert_eq!(scan_one("Let").unwrap().0, TokenType::Identifier("Let".to_string()));
    assert_eq!(
        scan_one("my_var").unwrap().0,
        TokenType::Identifier("my_var".to_string())
    );
}

#[test]
fn single_and_double_character_tokens() {
    let all = scan_all("(){}[].+-*/, = == ! != > >= < <=");
    let expected = vec![
        TokenType::LParen,
        TokenType::RParen,
        TokenType::LBrace,
        TokenType::RBrace,
        TokenType::LBracket,
        TokenType::RBracket,
        TokenType::Dot,
        TokenType::Plus,
        TokenType::Minus,
        TokenType::Asterisk,
        TokenType::Slash,
        TokenType::Comma,
        TokenType::Equal,
        TokenType::EqualEqual,
        TokenType::Bang,
        TokenType::BangEqual,
        TokenType::Greater,
        TokenType::GreaterEqual,
        TokenType::Less,
        TokenType::LessEqual,
    ];
    let got: Vec<TokenType> = all.into_iter().map(|r| r.unwrap()).collect();
    assert_eq!(got, expected);
}

#[test]
fn comments_and_newlines_count_lines() {
    let mut scanner = Scanner::new(b"# a comment\n\n  x # trailing");
    let t = scanner.scan_token().unwrap();
    assert_eq!(t.token_type(), &TokenType::Identifier("x".to_string()));
    assert_eq!(t.line(), 3);
    let eof = scanner.scan_token().unwrap();
    assert_eq!(eof.token_type(), &TokenType::Eof);
    assert_eq!(eof.line(), 3);
}

#[test]
fn unrecognized_byte_fails() {
    assert_eq!(scan_one("@").unwrap_err(), Error::UnrecognizedToken);
    assert_eq!(scan_one("  $x").unwrap_err(), Error::UnrecognizedToken);
}

#[test]
fn end_of_input_yields_eof_repeatedly() {
    let mut scanner = Scanner::new(b"   ");
    assert_eq!(scanner.scan_token().unwrap().token_type(), &TokenType::Eof);
    assert_eq!(scanner.scan_token().unwrap().token_type(), &TokenType::Eof);
    assert!(scanner.next().is_none());
    let mut empty = Scanner::new(b"");
    assert!(empty.next().is_none());
    assert_eq!(empty.scan_token().unwrap().token_type(), &TokenType::Eof);
}

#[test]
fn compile_accepts_lexable_source_only() {
    assert!(compile(b"let x = 1.5 + y # note\n"));
    assert!(compile(b""));
    assert!(!compile(b"let x = @"));
    assert!(!compile(b"\"open"));
    assert!(!compile(b"2."));
    assert!(!compile("\u{e9}".as_bytes()));
}

#[test]
fn parser_starts_on_first_token() {
    let _ = Parser::new(Scanner::new(b"let x"));
    let _ = Parser::new(Scanner::new(b""));
}
