use simpil::scanner::{Diagnostic, ScanError, Scanner};
use simpil::tokens::{Token, TokenType};

fn lex(input: &str) -> String {
    Scanner::new(input).to_string()
}

fn flex(input: &str) -> String {
    format!("{:?}", Scanner::new(input).collect())
}

fn kinds(input: &str) -> Vec<TokenType> {
    Scanner::new(input)
        .collect()
        .into_iter()
        .map(|token| token.token_type)
        .collect()
}

#[test]
fn scan_value() {
    assert_eq!(&lex("1"), "[Value(1)]")
}

#[test]
fn scan_assignment() {
    assert_eq!(lex("val := 2"), r#"[Identifier("val"),Assign,Value(2)]"#)
}

#[test]
fn proper_lexemes_assignment() {
    let actual = flex("val := 1");
    let expected = r#"[Token { token_type: Identifier("val"), lexeme: "val", line: 1 }, Token { token_type: Assign, lexeme: ":=", line: 1 }, Token { token_type: Value(1), lexeme: "1", line: 1 }]"#;
    assert_eq!(actual, expected);
}

#[test]
fn scan_empty_text() {
    assert_eq!(lex(""), "[]");
    assert!(Scanner::new("").next().is_none());
    assert!(Scanner::new("").is_at_end());
}

#[test]
fn scan_single_character_tokens() {
    assert_eq!(
        kinds("( ) , + - * /"),
        vec![
            TokenType::LeftParen,
            TokenType::RightParen,
            TokenType::Comma,
            TokenType::Plus,
            TokenType::Minus,
            TokenType::Star,
            TokenType::Slash,
        ]
    );
    assert_eq!(lex("()"), "[LeftParen,RightParen]");
}

#[test]
fn scan_keywords() {
    assert_eq!(
        kinds("store goto assert if then else load get_input"),
        vec![
            TokenType::Store,
            TokenType::Goto,
            TokenType::Assert,
            TokenType::If,
            TokenType::Then,
            TokenType::Else,
            TokenType::Load,
            TokenType::GetInput,
        ]
    );
}

#[test]
fn keywords_are_matched_by_case() {
    assert_eq!(
        kinds("Store GOTO iff"),
        vec![
            TokenType::Identifier("Store".to_string()),
            TokenType::Identifier("GOTO".to_string()),
            TokenType::Identifier("iff".to_string()),
        ]
    );
}

#[test]
fn names_take_letters_digits_and_underscores() {
    assert_eq!(
        kinds("_a1 b_2c"),
        vec![
            TokenType::Identifier("_a1".to_string()),
            TokenType::Identifier("b_2c".to_string()),
        ]
    );
    assert_eq!(
        kinds("1a"),
        vec![TokenType::Value(1), TokenType::Identifier("a".to_string())]
    );
}

#[test]
fn digit_runs_are_read_greedily() {
    assert_eq!(kinds("007"), vec![TokenType::Value(7)]);
    assert_eq!(kinds("4294967295"), vec![TokenType::Value(4294967295)]);
    let tokens = Scanner::new("12 345").collect();
    assert_eq!(tokens[0].lexeme, "12");
    assert_eq!(tokens[1].lexeme, "345");
    assert_eq!(tokens[1].token_type, TokenType::Value(345));
}

#[test]
fn numeral_too_large_ends_the_tokens() {
    let mut scanner = Scanner::new("1 4294967296 2");
    assert_eq!(scanner.collect(), vec![Token {
        token_type: TokenType::Value(1),
        lexeme: "1".to_string(),
        line: 1,
    }]);
    let mut scanner = Scanner::new("4294967296");
    assert_eq!(scanner.scan_token(), Err(ScanError::Overflow));
    assert!(scanner.is_at_end());
    let mut scanner = Scanner::new("99999999999999999999999 7");
    assert!(scanner.next().is_none());
    assert_eq!(scanner.next().map(|token| token.token_type), Some(TokenType::Value(7)));
}

#[test]
fn colon_alone_is_invalid() {
    let mut scanner = Scanner::new("a : b");
    let tokens = scanner.collect();
    assert_eq!(tokens.len(), 2);
    assert_eq!(tokens[1].token_type, TokenType::Identifier("b".to_string()));
    assert_eq!(
        scanner.diagnostics(),
        &vec![Diagnostic { line: 1, column: 3, byte: b':' }]
    );
    let mut scanner = Scanner::new(":");
    assert_eq!(scanner.scan_token(), Err(ScanError::EndOfInput));
    assert_eq!(scanner.diagnostics().len(), 1);
}

#[test]
fn invalid_bytes_are_reported_and_passed() {
    let mut scanner = Scanner::new("x ? := #\n  $1");
    let tokens = scanner.collect();
    let kinds: Vec<TokenType> = tokens.iter().map(|token| token.token_type.clone()).collect();
    assert_eq!(
        kinds,
        vec![
            TokenType::Identifier("x".to_string()),
            TokenType::Assign,
            TokenType::Value(1),
        ]
    );
    assert_eq!(
        scanner.diagnostics(),
        &vec![
            Diagnostic { line: 1, column: 3, byte: b'?' },
            Diagnostic { line: 1, column: 8, byte: b'#' },
            Diagnostic { line: 2, column: 3, byte: b'$' },
        ]
    );
    assert_eq!(tokens[2].lexeme, "1");
    assert_eq!(tokens[2].line, 2);
}

#[test]
fn bytes_beyond_ascii_are_invalid() {
    let mut scanner = Scanner::new("a é b");
    let tokens = scanner.collect();
    assert_eq!(tokens.len(), 2);
    assert_eq!(tokens[1].lexeme, "b");
    let bytes: Vec<u8> = scanner.diagnostics().iter().map(|report| report.byte).collect();
    assert_eq!(bytes, "é".as_bytes().to_vec());
}

#[test]
fn blanks_are_passed_and_lines_counted() {
    let tokens = Scanner::new(" \t a\r\n\n  b := 1 \n").collect();
    assert_eq!(tokens.len(), 4);
    assert_eq!(tokens[0].line, 1);
    assert_eq!(tokens[0].lexeme, "a");
    assert_eq!(tokens[1].line, 3);
    assert_eq!(tokens[1].lexeme, "b");
    assert_eq!(tokens[2].lexeme, ":=");
    assert_eq!(tokens[3].line, 3);
}

#[test]
fn trailing_blanks_end_the_tokens() {
    let mut scanner = Scanner::new("1 ");
    assert_eq!(scanner.next().map(|token| token.token_type), Some(TokenType::Value(1)));
    assert!(!scanner.is_at_end());
    assert!(scanner.next().is_none());
    assert!(scanner.is_at_end());
    assert_eq!(Scanner::new("  \n").scan_token(), Err(ScanError::EndOfInput));
}

#[test]
fn scanning_twice_gives_the_same_tokens() {
    let text = "if x then goto 2 else goto 3 ? store(1, load(2))";
    let first = Scanner::new(text).collect();
    let second = Scanner::new(text).collect();
    assert_eq!(first, second);
    assert_eq!(lex(text), lex(text));
    let mut one = Scanner::new(text);
    let mut two = Scanner::new(text);
    one.collect();
    two.collect();
    assert_eq!(one.diagnostics(), two.diagnostics());
}

#[test]
fn pulling_is_the_same_as_collecting() {
    let text = "x := 1 + 2";
    let all = Scanner::new(text).collect();
    let mut scanner = Scanner::new(text);
    let mut pulled = Vec::new();
    while let Some(token) = scanner.next() {
        pulled.push(token);
    }
    assert_eq!(all, pulled);
}

#[test]
fn token_types_show_what_they_carry() {
    assert_eq!(TokenType::Invalid(63).to_string(), "Invalid(63)");
    assert_eq!(TokenType::Ignore.to_string(), "Ignore");
    assert_eq!(TokenType::Value(4294967295).to_string(), "Value(4294967295)");
    assert_eq!(TokenType::Value(0).to_string(), "Value(0)");
    assert_eq!(TokenType::Identifier("x_1".to_string()).to_string(), "Identifier(\"x_1\")");
    assert_eq!(TokenType::GetInput.to_string(), "GetInput");
    let token = Token { token_type: TokenType::Then, lexeme: "then".to_string(), line: 4 };
    assert_eq!(token.to_string(), "Then");
    assert_eq!(token.clone(), token);
    assert!(TokenType::Plus.is_binary_operator());
    assert!(!TokenType::Assign.is_binary_operator());
    assert!(TokenType::If.starts_statement());
    assert!(!TokenType::Then.starts_statement());
}
