use pineapple::lexer::{is_letter, Lexer};
use pineapple::token::Token;

#[test]
fn test_lexer() {
    let sr = r#"
let a = "pen pineapple apple pen."
print(a)
        "#;
    let tests = vec![
        Token::Let,
        Token::Ident(String::from("a")),
        Token::Assign,
        Token::String(String::from("pen pineapple apple pen.")),
        Token::Ident(String::from("print")),
        Token::LeftParen,
        Token::Ident(String::from("a")),
        Token::RightParen,
    ];
    let mut lexer = Lexer::new(sr);

    for expect in tests {
        let tok = lexer.next_token();

        assert_eq!(expect, tok);
    }
}

#[test]
fn lexes_let_and_call_then_repeats_eof() {
    let mut lexer = Lexer::new("let a = \"x\"\nprint(a)");
    let expected = vec![
        Token::Let,
        Token::Ident(String::from("a")),
        Token::Assign,
        Token::String(String::from("x")),
        Token::Ident(String::from("print")),
        Token::LeftParen,
        Token::Ident(String::from("a")),
        Token::RightParen,
        Token::EOF,
        Token::EOF,
        Token::EOF,
    ];
    for expect in expected {
        assert_eq!(expect, lexer.next_token());
    }
}

#[test]
fn eof_is_stable_on_empty_input() {
    let mut lexer = Lexer::new("");
    for _ in 0..5 {
        assert_eq!(Token::EOF, lexer.next_token());
    }
}

#[test]
fn doubled_newline_gives_blank() {
    let mut lexer = Lexer::new("a\n\nb");
    assert_eq!(Token::Ident(String::from("a")), lexer.next_token());
    assert_eq!(Token::Blank, lexer.next_token());
    assert_eq!(Token::Ident(String::from("b")), lexer.next_token());
    assert_eq!(Token::EOF, lexer.next_token());
}

#[test]
fn digits_and_symbols_are_illegal() {
    let mut lexer = Lexer::new("ab1 ;");
    assert_eq!(Token::Ident(String::from("ab")), lexer.next_token());
    assert_eq!(Token::Illegal, lexer.next_token());
    assert_eq!(Token::Illegal, lexer.next_token());
    assert_eq!(Token::EOF, lexer.next_token());
}

#[test]
fn unterminated_string_stops_at_end() {
    let mut lexer = Lexer::new("\"abc def");
    assert_eq!(Token::String(String::from("abc def")), lexer.next_token());
    assert_eq!(Token::EOF, lexer.next_token());
}

#[test]
fn underscores_and_let_prefix_make_identifiers() {
    let mut lexer = Lexer::new("_x lets\tlet");
    assert_eq!(Token::Ident(String::from("_x")), lexer.next_token());
    assert_eq!(Token::Ident(String::from("lets")), lexer.next_token());
    assert_eq!(Token::Let, lexer.next_token());
    assert_eq!(Token::EOF, lexer.next_token());
}

#[test]
fn letters_are_ascii_only() {
    assert!(is_letter('a'));
    assert!(is_letter('Z'));
    assert!(!is_letter('_'));
    assert!(!is_letter('1'));
}

#[test]
fn single_assign() {
    let mut lexer = Lexer::new("=");
    assert_eq!(Token::Assign, lexer.next_token());
    assert_eq!(Token::EOF, lexer.next_token());
}

#[test]
fn nul_character_is_illegal() {
    let mut lexer = Lexer::new("a\0b");
    assert_eq!(Token::Ident(String::from("a")), lexer.next_token());
    assert_eq!(Token::Illegal, lexer.next_token());
    assert_eq!(Token::Ident(String::from("b")), lexer.next_token());
    assert_eq!(Token::EOF, lexer.next_token());
}

#[test]
fn string_call_argument() {
    let mut lexer = Lexer::new("f(\"x\")");
    assert_eq!(Token::Ident(String::from("f")), lexer.next_token());
    assert_eq!(Token::LeftParen, lexer.next_token());
    assert_eq!(Token::String(String::from("x")), lexer.next_token());
    assert_eq!(Token::RightParen, lexer.next_token());
    assert_eq!(Token::EOF, lexer.next_token());
}
