//! Lexical tokens: the kinds the scanner recognises, literal payloads, and
//! the token record itself.  Every token carries a unique, monotonically
//! increasing id; the resolver uses that id as the join key when it attaches
//! scope distances to variable references.

use vstd::prelude::*;

verus! {

/// The lexical category of a token.
#[derive(Debug, Clone, Copy, PartialEq, Eq, Structural)]
pub enum TokenKind {
    // One character
    LeftParen,
    RightParen,
    LeftBrace,
    RightBrace,
    LeftCurly,
    RightCurly,
    Comma,
    Minus,
    Plus,
    Star,
    Semicolon,
    Slash,
    // One or two characters
    Dot,
    DotDot,
    Bang,
    BangEqual,
    Equal,
    EqualEqual,
    Greater,
    GreaterEqual,
    Less,
    LessEqual,
    // Literals
    Identifier,
    Literal,
    // Keywords
    And,
    Or,
    Class,
    If,
    Else,
    True,
    False,
    Fn,
    For,
    In,
    While,
    Nil,
    Print,
    Return,
    Var,
    Const,
    This,
    Eof,
}

/// The literal payload of a token, if any.  Number tokens carry their parsed
/// integer value, string tokens the text between the quotes.
#[derive(Debug)]
pub enum LiteralValue {
    Absent,
    Integer(i64),
    Str(String),
}

impl Clone for LiteralValue {
    fn clone(&self) -> (r: Self)
        ensures
            r == *self,
    {
        match self {
            LiteralValue::Absent => LiteralValue::Absent,
            LiteralValue::Integer(n) => LiteralValue::Integer(*n),
            LiteralValue::Str(s) => LiteralValue::Str(s.clone()),
        }
    }
}

/// The specification-level image of a literal payload.
pub enum LiteralV {
    Absent,
    Int(int),
    Str(Seq<char>),
}

impl View for LiteralValue {
    type V = LiteralV;

    open spec fn view(&self) -> LiteralV {
        match self {
            LiteralValue::Absent => LiteralV::Absent,
            LiteralValue::Integer(n) => LiteralV::Int(*n as int),
            LiteralValue::Str(s) => LiteralV::Str(s@),
        }
    }
}

/// One token of source text.
#[derive(Debug)]
pub struct Token {
    pub kind: TokenKind,
    pub lexeme: String,
    pub literal: LiteralValue,
    pub line: usize,
    pub id: usize,
}

/// The specification-level image of a token.
#[verifier::ext_equal]
pub struct TokenV {
    pub kind: TokenKind,
    pub lexeme: Seq<char>,
    pub literal: LiteralV,
    pub line: int,
    pub id: int,
}

impl View for Token {
    type V = TokenV;

    open spec fn view(&self) -> TokenV {
        TokenV {
            kind: self.kind,
            lexeme: self.lexeme@,
            literal: self.literal@,
            line: self.line as int,
            id: self.id as int,
        }
    }
}

impl Clone for Token {
    fn clone(&self) -> (r: Self)
        ensures
            r == *self,
    {
        Token {
            kind: self.kind,
            lexeme: self.lexeme.clone(),
            literal: self.literal.clone(),
            line: self.line,
            id: self.id,
        }
    }
}

} // verus!
