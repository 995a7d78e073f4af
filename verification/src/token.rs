use vstd::prelude::*;

verus! {

/// The kinds of token of Lox.
#[derive(Debug, Clone, Copy, PartialEq, Eq, Structural)]
pub enum TokenType {
    LeftParen,
    RightParen,
    LeftBrace,
    RightBrace,
    COMMA,
    DOT,
    MINUS,
    PLUS,
    SEMICOLON,
    SLASH,
    STAR,
    BANG,
    BangEqual,
    EQUAL,
    EqualEqual,
    GREATER,
    GreaterEqual,
    LESS,
    LessEqual,
    AND,
    CLASS,
    ELSE,
    FALSE,
    FUN,
    FOR,
    IF,
    NIL,
    OR,
    PRINT,
    RETURN,
    SUPER,
    THIS,
    TRUE,
    VAR,
    WHILE,
    BREAK,
    CONTINUE,
    IDENTIFIER,
    NUMBER,
    STRING,
    COMMENTS,
    Error,
    EOF,
}

/// A literal value written in the source. A number is kept as the digits
/// that spell it: the front end never reads its value.
#[derive(Debug)]
pub enum Literal {
    NUM(String),
    STRING(String),
    BOOL(bool),
    NIL,
}

/// The mathematical value of a `Literal`.
pub enum LiteralV {
    NUM(Seq<char>),
    STRING(Seq<char>),
    BOOL(bool),
    NIL,
}

impl View for Literal {
    type V = LiteralV;

    open spec fn view(&self) -> LiteralV {
        match self {
            Literal::NUM(s) => LiteralV::NUM(s@),
            Literal::STRING(s) => LiteralV::STRING(s@),
            Literal::BOOL(b) => LiteralV::BOOL(*b),
            Literal::NIL => LiteralV::NIL,
        }
    }
}

impl Clone for Literal {
    fn clone(&self) -> (r: Self)
        ensures
            r == *self,
    {
        match self {
            Literal::NUM(s) => Literal::NUM(s.clone()),
            Literal::STRING(s) => Literal::STRING(s.clone()),
            Literal::BOOL(b) => Literal::BOOL(*b),
            Literal::NIL => Literal::NIL,
        }
    }
}

/// A token: its kind, the line it stands on, its literal value where it
/// has one, the text it was read from, and the scope distance that the
/// resolver finds for it (`None` until then, and for globals).
#[derive(Debug)]
pub struct Token {
    pub token_type: TokenType,
    pub line_no: u32,
    pub literal: Option<Literal>,
    pub lexeme: String,
    pub scope: Option<usize>,
}

/// The mathematical value of a `Token`.
pub struct TokenV {
    pub token_type: TokenType,
    pub line_no: u32,
    pub literal: Option<LiteralV>,
    pub lexeme: Seq<char>,
    pub scope: Option<usize>,
}

pub open spec fn literal_option_view(l: Option<Literal>) -> Option<LiteralV> {
    match l {
        Some(v) => Some(v@),
        None => None,
    }
}

impl View for Token {
    type V = TokenV;

    open spec fn view(&self) -> TokenV {
        TokenV {
            token_type: self.token_type,
            line_no: self.line_no,
            literal: literal_option_view(self.literal),
            lexeme: self.lexeme@,
            scope: self.scope,
        }
    }
}

impl Token {
    /// A token that the resolver has not seen yet.
    pub fn new(token_type: TokenType, line_no: u32, literal: Option<Literal>, lexeme: String) -> (r:
        Self)
        ensures
            r == (Token { token_type, line_no, literal, lexeme, scope: None }),
    {
        Token { token_type, line_no, literal, lexeme, scope: None }
    }
}

impl Clone for Token {
    fn clone(&self) -> (r: Self)
        ensures
            r == *self,
    {
        let literal = match &self.literal {
            Some(l) => Some(l.clone()),
            None => None,
        };
        Token {
            token_type: self.token_type,
            line_no: self.line_no,
            literal,
            lexeme: self.lexeme.clone(),
            scope: self.scope,
        }
    }
}

} // verus!
