use vstd::prelude::*;

verus! {

/// The kinds of token the scanner and the parser agree on.
#[allow(non_camel_case_types)]
#[derive(Clone, Copy, Debug, PartialEq, Eq, Structural)]
pub enum TokenType {
    // Single-character tokens.
    LEFT_PAREN,
    RIGHT_PAREN,
    LEFT_BRACE,
    RIGHT_BRACE,
    COMMA,
    DOT,
    MINUS,
    PLUS,
    SEMICOLON,
    SLASH,
    STAR,
    // One or two character tokens.
    BANG,
    BANG_EQUAL,
    EQUAL,
    EQUAL_EQUAL,
    GREATER,
    GREATER_EQUAL,
    LESS,
    LESS_EQUAL,
    // Literals.
    IDENTIFIER,
    STRING,
    NUMBER,
    // Keywords.
    AND,
    CLASS,
    ELSE,
    FALSE,
    FUN,
    FOR,
    IF,
    NIL,
    OR,
    PRINT,
    RETURN,
    SUPER,
    THIS,
    TRUE,
    VAR,
    WHILE,
    // End of input.
    EOF,
}

/// A literal value carried by a token or by a literal expression.
#[derive(Clone, Debug)]
pub enum Object {
    Str(String),
    Num(i64),
    Bool(bool),
    Nil,
}

/// A classified fragment of source text, with the line it starts on.
#[derive(Clone, Debug)]
pub struct Token {
    pub type_: TokenType,
    pub lexeme: String,
    pub literal: Option<Object>,
    pub line: usize,
}

impl Token {
    pub fn new(type_: TokenType, lexeme: String, literal: Option<Object>, line: usize) -> (r: Token)
        ensures
            r == (Token { type_, lexeme, literal, line }),
    {
        Token { type_, lexeme, literal, line }
    }
}

} // verus!
