//! Lexical tokens and their mathematical model.

use vstd::prelude::*;

verus! {

/// A lexical token.  Identifier, string and integer tokens carry their
/// decoded payload; every other token is a bare tag.
#[derive(Debug, Clone, PartialEq)]
pub enum Token {
    Illegal,
    EOF,
    // identifier and literals
    Ident(String),
    StringLiteral(String),
    IntLiteral(i64),
    BoolLiteral(bool),
    // statements
    Assign,
    If,
    Else,
    // operators
    Plus,
    Minus,
    Divide,
    Multiply,
    Equal,
    NotEqual,
    GreaterThanEqual,
    LessThanEqual,
    GreaterThan,
    LessThan,
    Not,
    // reserved keywords
    Function,
    Let,
    Return,
    // punctuations
    Comma,
    Colon,
    SemiColon,
    LParen,
    RParen,
    LBrace,
    RBrace,
    LBracket,
    RBracket,
}

/// The mathematical model of a token: the same tags, with string payloads
/// abstracted to character sequences.
pub enum SpecToken {
    Illegal,
    EOF,
    Ident(Seq<char>),
    StringLiteral(Seq<char>),
    IntLiteral(i64),
    BoolLiteral(bool),
    Assign,
    If,
    Else,
    Plus,
    Minus,
    Divide,
    Multiply,
    Equal,
    NotEqual,
    GreaterThanEqual,
    LessThanEqual,
    GreaterThan,
    LessThan,
    Not,
    Function,
    Let,
    Return,
    Comma,
    Colon,
    SemiColon,
    LParen,
    RParen,
    LBrace,
    RBrace,
    LBracket,
    RBracket,
}

impl View for Token {
    type V = SpecToken;

    open spec fn view(&self) -> SpecToken {
        match self {
            Token::Illegal => SpecToken::Illegal,
            Token::EOF => SpecToken::EOF,
            Token::Ident(s) => SpecToken::Ident(s@),
            Token::StringLiteral(s) => SpecToken::StringLiteral(s@),
            Token::IntLiteral(i) => SpecToken::IntLiteral(*i),
            Token::BoolLiteral(b) => SpecToken::BoolLiteral(*b),
            Token::Assign => SpecToken::Assign,
            Token::If => SpecToken::If,
            Token::Else => SpecToken::Else,
            Token::Plus => SpecToken::Plus,
            Token::Minus => SpecToken::Minus,
            Token::Divide => SpecToken::Divide,
            Token::Multiply => SpecToken::Multiply,
            Token::Equal => SpecToken::Equal,
            Token::NotEqual => SpecToken::NotEqual,
            Token::GreaterThanEqual => SpecToken::GreaterThanEqual,
            Token::LessThanEqual => SpecToken::LessThanEqual,
            Token::GreaterThan => SpecToken::GreaterThan,
            Token::LessThan => SpecToken::LessThan,
            Token::Not => SpecToken::Not,
            Token::Function => SpecToken::Function,
            Token::Let => SpecToken::Let,
            Token::Return => SpecToken::Return,
            Token::Comma => SpecToken::Comma,
            Token::Colon => SpecToken::Colon,
            Token::SemiColon => SpecToken::SemiColon,
            Token::LParen => SpecToken::LParen,
            Token::RParen => SpecToken::RParen,
            Token::LBrace => SpecToken::LBrace,
            Token::RBrace => SpecToken::RBrace,
            Token::LBracket => SpecToken::LBracket,
            Token::RBracket => SpecToken::RBracket,
        }
    }
}

/// The model of a token vector: the sequence of the tokens' models.
pub open spec fn view_tokens(toks: Seq<Token>) -> Seq<SpecToken> {
    Seq::new(toks.len(), |i: int| toks[i]@)
}

/// A token stream, as handed from the lexer to the parser.
#[derive(Debug, Clone, PartialEq)]
pub struct Tokens {
    pub tok: Vec<Token>,
}

impl View for Tokens {
    type V = Seq<SpecToken>;

    open spec fn view(&self) -> Seq<SpecToken> {
        view_tokens(self.tok@)
    }
}

impl Tokens {
    /// Wraps a token vector as a stream.
    pub fn new(vec: Vec<Token>) -> (r: Tokens)
        ensures
            r@ == view_tokens(vec@),
    {
        Tokens { tok: vec }
    }
}

} // verus!
