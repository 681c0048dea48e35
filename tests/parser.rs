use pineapple::ast::{Expr, Ident, Literal, Program, Stmt};
use pineapple::lexer::Lexer;
use pineapple::parser::Parse;

fn parse_text(text: &str) -> Program {
    let mut parser = Parse::new(Lexer::new(text));
    parser.parse()
}

fn ident(name: &str) -> Expr {
    Expr::Ident(Ident(String::from(name)))
}

#[test]
fn test_parser() {
    let sr = r#"
let a = "pen pineapple apple pen."
print(a)
"#;
    let mut parser = Parse::new(Lexer::new(sr));
    let program = parser.parse();

    assert_eq!(
        vec![
            Stmt::Let(
                Ident(String::from("a")),
                Expr::Literal(Literal::String(String::from("pen pineapple apple pen."))),
            ),
            Stmt::Expr(Expr::Call {
                func: Box::new(Expr::Ident(Ident(String::from("print")))),
                args: vec![Expr::Ident(Ident(String::from("a")))],
            }),
        ],
        program,
    );
}

#[test]
fn whitespace_and_blank_lines_give_empty_program() {
    assert_eq!(0, parse_text("").len());
    assert_eq!(0, parse_text("   \t  ").len());
    assert_eq!(0, parse_text("\n\n\n\n").len());
    assert_eq!(0, parse_text(" \n\n \t\n\n").len());
}

#[test]
fn two_bare_arguments_drop_the_call_statement() {
    // The call fails at `a`; parsing resumes one token later, at `b`.
    assert_eq!(vec![Stmt::Expr(ident("b"))], parse_text("f(a b)"));
}

#[test]
fn let_without_name_gives_empty_program() {
    assert_eq!(0, parse_text("let").len());
}

#[test]
fn let_without_assign_is_dropped() {
    assert_eq!(vec![Stmt::Expr(ident("b"))], parse_text("let a\nb"));
}

#[test]
fn parsing_twice_gives_equal_programs() {
    let text = "let a = \"pen\"\nprint(a)\nf()\n\"s\"";
    assert_eq!(parse_text(text), parse_text(text));
}

#[test]
fn zero_argument_and_chained_calls() {
    let expected = vec![Stmt::Expr(Expr::Call {
        func: Box::new(Expr::Call { func: Box::new(ident("f")), args: vec![] }),
        args: vec![Expr::Literal(Literal::String(String::from("x")))],
    })];
    assert_eq!(expected, parse_text("f()(\"x\")"));
}

#[test]
fn nested_call_argument() {
    let expected = vec![Stmt::Expr(Expr::Call {
        func: Box::new(ident("f")),
        args: vec![Expr::Call { func: Box::new(ident("g")), args: vec![ident("x")] }],
    })];
    assert_eq!(expected, parse_text("f(g(x))"));
}

#[test]
fn illegal_tokens_are_skipped() {
    assert_eq!(vec![Stmt::Expr(ident("a"))], parse_text("1 a"));
}

#[test]
fn failed_argument_does_not_panic() {
    assert_eq!(0, parse_text("f(=(").len());
    assert_eq!(0, parse_text("f(((").len());
}

#[test]
fn illegal_character_between_statements() {
    assert_eq!(vec![Stmt::Expr(ident("a")), Stmt::Expr(ident("b"))], parse_text("a @ b"));
}

#[test]
fn second_parse_is_empty() {
    let mut parser = Parse::new(Lexer::new("print(a)"));
    assert_eq!(1, parser.parse().len());
    assert_eq!(0, parser.parse().len());
}
