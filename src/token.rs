use vstd::prelude::*;

verus! {

/// One lexical unit of the language.
#[derive(Debug, Clone)]
pub enum Token {
    Illegal,
    Blank,
    EOF,
    Let,
    Ident(String),
    LeftParen,
    RightParen,
    Semicolon,
    Assign,
    String(String),
}

/// The mathematical value of a token: its kind, and its text as characters.
pub enum SpecToken {
    Illegal,
    Blank,
    EOF,
    Let,
    Ident(Seq<char>),
    LeftParen,
    RightParen,
    Semicolon,
    Assign,
    Str(Seq<char>),
}

impl View for Token {
    type V = SpecToken;

    open spec fn view(&self) -> SpecToken {
        match self {
            Token::Illegal => SpecToken::Illegal,
            Token::Blank => SpecToken::Blank,
            Token::EOF => SpecToken::EOF,
            Token::Let => SpecToken::Let,
            Token::Ident(s) => SpecToken::Ident(s@),
            Token::LeftParen => SpecToken::LeftParen,
            Token::RightParen => SpecToken::RightParen,
            Token::Semicolon => SpecToken::Semicolon,
            Token::Assign => SpecToken::Assign,
            Token::String(s) => SpecToken::Str(s@),
        }
    }
}

impl PartialEq for Token {
    fn eq(&self, other: &Token) -> (r: bool)
        ensures
            r == (self@ == other@),
    {
        match (self, other) {
            (Token::Illegal, Token::Illegal) => true,
            (Token::Blank, Token::Blank) => true,
            (Token::EOF, Token::EOF) => true,
            (Token::Let, Token::Let) => true,
            (Token::Ident(a), Token::Ident(b)) => *a == *b,
            (Token::LeftParen, Token::LeftParen) => true,
            (Token::RightParen, Token::RightParen) => true,
            (Token::Semicolon, Token::Semicolon) => true,
            (Token::Assign, Token::Assign) => true,
            (Token::String(a), Token::String(b)) => *a == *b,
            _ => false,
        }
    }
}

impl vstd::std_specs::cmp::PartialEqSpecImpl for Token {
    open spec fn obeys_eq_spec() -> bool {
        true
    }

    open spec fn eq_spec(&self, other: &Token) -> bool {
        self@ == other@
    }
}

} // verus!
