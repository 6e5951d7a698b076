//! The token model: token kinds, literal payloads, and the token record
//! produced by the scanner and consumed by the parser.
use vstd::prelude::*;

verus! {

/// The closed vocabulary of token kinds: punctuation and operators, the three
/// literal categories, the keywords, and the end-of-input marker.
#[derive(Clone, Copy, PartialEq, Eq, Structural, Debug)]
pub enum TokenType {
    LeftParenthesis,
    RightParenthesis,
    LeftBrace,
    RightBrace,
    Comma,
    Dot,
    Minus,
    Plus,
    Semicolon,
    Slash,
    Star,
    Not,
    NotEqual,
    Equal,
    EqualEqual,
    Greater,
    GreaterEqual,
    Less,
    LessEqual,
    Identifier,
    String,
    Number,
    And,
    Class,
    Else,
    False,
    Fun,
    For,
    If,
    Nil,
    Or,
    Print,
    Return,
    Super,
    This,
    True,
    Var,
    While,
    Eof,
}

/// A literal payload attached to a string or number token (or synthesized by
/// the parser for the `true`/`false`/`nil` keywords).
///
/// A number literal keeps the exact digit span it was scanned from; turning
/// that span into a machine float is left to unverified callers, since
/// floating point cannot be reasoned about here.
#[derive(Clone, Debug)]
pub enum Literal {
    Number(String),
    String(String),
    Bool(bool),
    Nil,
}

/// One scanned token: its kind, the exact source substring it came from, an
/// optional literal payload, and the line it was emitted on.
#[derive(Clone, Debug)]
pub struct Token {
    pub typ: TokenType,
    pub lexeme: String,
    pub literal: Option<Literal>,
    pub line: u32,
}

/// The mathematical image of a `Literal`: text as character sequences.
pub ghost enum LiteralModel {
    Number(Seq<char>),
    String(Seq<char>),
    Bool(bool),
    Nil,
}

/// The mathematical image of a `Token`.
pub ghost struct TokenModel {
    pub typ: TokenType,
    pub lexeme: Seq<char>,
    pub literal: Option<LiteralModel>,
    pub line: int,
}

impl View for Literal {
    type V = LiteralModel;

    open spec fn view(&self) -> LiteralModel {
        match self {
            Literal::Number(s) => LiteralModel::Number(s@),
            Literal::String(s) => LiteralModel::String(s@),
            Literal::Bool(b) => LiteralModel::Bool(*b),
            Literal::Nil => LiteralModel::Nil,
        }
    }
}

impl View for Token {
    type V = TokenModel;

    open spec fn view(&self) -> TokenModel {
        TokenModel {
            typ: self.typ,
            lexeme: self.lexeme@,
            literal: match self.literal {
                Option::Some(l) => Option::Some(l@),
                Option::None => Option::None,
            },
            line: self.line as int,
        }
    }
}

impl DeepView for Literal {
    type V = LiteralModel;

    open spec fn deep_view(&self) -> LiteralModel {
        self.view()
    }
}

impl DeepView for Token {
    type V = TokenModel;

    open spec fn deep_view(&self) -> TokenModel {
        self.view()
    }
}

} // verus!
