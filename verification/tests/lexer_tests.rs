use glasses::lexer::fmt_lexer_error;
use glasses::lexer::lex;
use glasses::lexer::Keyword;
use glasses::lexer::Lxr;
use glasses::lexer::Tkn;

fn lex_str(source: &str) -> Result<Vec<(Tkn, u32)>, String> {
    lex(source.as_bytes().to_vec())
}

#[test]
fn lexes_a_minimal_program() {
    let tokens = lex_str("int main(void){return 2;}\n").unwrap();
    let expected = vec![
        Tkn::Key(Keyword::Int),
        Tkn::Identifier(String::from("main")),
        Tkn::LeftParen,
        Tkn::Key(Keyword::Void),
        Tkn::RightParen,
        Tkn::LeftBrace,
        Tkn::Key(Keyword::Return),
        Tkn::Constant(2),
        Tkn::Semicolon,
        Tkn::RightBrace,
    ];
    assert_eq!(tokens.len(), expected.len());
    for (pair, want) in tokens.iter().zip(expected.iter()) {
        assert!(pair.0 == *want, "got {:?}, want {:?}", pair.0, want);
        assert_eq!(pair.1, 1);
    }
}

#[test]
fn recognizes_two_character_operators() {
    let tokens = lex_str("== != <= >= && || -- ++ < > = ! & | - + ;\n").unwrap();
    let kinds: Vec<Tkn> = tokens.into_iter().map(|p| p.0).collect();
    let expected = vec![
        Tkn::EqualEqual,
        Tkn::NotEqual,
        Tkn::LessEqual,
        Tkn::GreatEqual,
        Tkn::And,
        Tkn::Or,
        Tkn::Decrement,
        Tkn::Increment,
        Tkn::Less,
        Tkn::Great,
        Tkn::Equal,
        Tkn::Not,
        Tkn::BAnd,
        Tkn::BOr,
        Tkn::Subtract,
        Tkn::Plus,
        Tkn::Semicolon,
    ];
    assert_eq!(kinds.len(), expected.len());
    for (got, want) in kinds.iter().zip(expected.iter()) {
        assert!(got == want, "got {:?}, want {:?}", got, want);
    }
}

#[test]
fn counts_lines_for_diagnostics() {
    let tokens = lex_str("int\nmain\n(\n)\n{\n}\n;\n").unwrap();
    let lines: Vec<u32> = tokens.iter().map(|p| p.1).collect();
    assert_eq!(lines, vec![1, 2, 3, 4, 5, 6, 7]);
}

#[test]
fn rejects_a_digit_run_followed_by_a_letter() {
    let err = lex_str("int x = 1a;\n").unwrap_err();
    assert_eq!(err, "Lexer Error:\nLine 1: Invalid Identifier");
}

#[test]
fn rejects_an_unexpected_character() {
    let err = lex_str("int @;\n").unwrap_err();
    assert_eq!(err, "Lexer Error:\nLine 1: Unexpected Token: @");
}

#[test]
fn rejects_a_constant_beyond_i32() {
    let err = lex_str("return 2147483648;\n").unwrap_err();
    assert_eq!(err, "Lexer Error:\nLine 1: Invalid Constant");
}

#[test]
fn accepts_the_largest_i32_constant() {
    let tokens = lex_str("return 2147483647;\n").unwrap();
    assert!(tokens.iter().any(|p| p.0 == Tkn::Constant(2147483647)));
}

#[test]
fn a_number_meeting_the_sentinel_has_nothing_to_peek() {
    // The final byte is a sentinel the lexer never consumes, so a digit run
    // that touches it leaves the one-character lookahead with nothing.
    let err = lex_str("123").unwrap_err();
    assert_eq!(err, "Lexer Error:\nLine 1: No token to peek");
}

#[test]
fn trailing_whitespace_before_the_sentinel_has_nothing_to_take() {
    // Whitespace can run all the way to the sentinel; the scanner then has
    // no character left to begin a token with.
    let err = lex_str("; \n").unwrap_err();
    assert_eq!(err, "Lexer Error:\nLine 1: No token to take");
}

#[test]
fn identifiers_may_contain_underscores_and_digits() {
    let tokens = lex_str("an_ident_42;\n").unwrap();
    assert!(tokens[0].0 == Tkn::Identifier(String::from("an_ident_42")));
}

#[test]
fn keywords_are_not_identifiers() {
    let tokens = lex_str("int void return returner;\n").unwrap();
    assert!(tokens[0].0 == Tkn::Key(Keyword::Int));
    assert!(tokens[1].0 == Tkn::Key(Keyword::Void));
    assert!(tokens[2].0 == Tkn::Key(Keyword::Return));
    assert!(tokens[3].0 == Tkn::Identifier(String::from("returner")));
}

#[test]
fn the_cursor_peeks_and_takes_until_the_sentinel() {
    let mut cursor = Lxr::new("ab\n".as_bytes().to_vec());
    assert!(!cursor.is_at_end());
    assert_eq!(cursor.peek().unwrap(), 'a');
    assert_eq!(cursor.take().unwrap(), 'a');
    assert_eq!(cursor.take().unwrap(), 'b');
    assert!(cursor.is_at_end());
    assert_eq!(cursor.peek().unwrap_err(), "Lexer Error:\nLine 1: No token to peek");
    assert_eq!(cursor.take().unwrap_err(), "Lexer Error:\nLine 1: No token to take");
}

#[test]
fn a_nul_byte_ends_the_input_early() {
    let mut cursor = Lxr::new("a\0b\n".as_bytes().to_vec());
    assert_eq!(cursor.take().unwrap(), 'a');
    assert!(cursor.is_at_end());
}

#[test]
fn formats_a_lexer_diagnostic() {
    let msg = fmt_lexer_error(17, "No token to take");
    assert_eq!(msg, "Lexer Error:\nLine 17: No token to take");
}
