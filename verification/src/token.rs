//! What the lexer produces: tokens, their kinds and literal values.

use vstd::prelude::*;

verus! {

/// The reserved words.
#[derive(Clone, Copy, Debug, PartialEq, Eq, Structural)]
pub enum Keyword {
    I32,
    I64,
    F32,
    F64,
    String,
    Bool,
    Char,
    True,
    False,
    Let,
    If,
    While,
    Return,
    Struct,
    Fun,
    Extern,
    For,
}

/// The operators and punctuation marks.
#[derive(Clone, Copy, Debug, PartialEq, Eq, Structural)]
pub enum Symbol {
    Dot,
    Comma,
    Colon,
    Semicolon,
    OpenParent,
    CloseParent,
    OpenBracket,
    CloseBracket,
    OpenBrace,
    CloseBrace,
    Not,
    Add,
    Sub,
    Mul,
    Div,
    Mod,
    And,
    Or,
    BitAnd,
    BitOr,
    BitXor,
    Pow,
    Eq,
    Ne,
    Lt,
    Lte,
    Gt,
    Gte,
    Assign,
}

/// A numeric literal. An integer holds its value. A literal with a fractional
/// part holds its text, digits around one point, which the caller converts to
/// a binary floating value of the width that the variant names.
#[derive(Debug, PartialEq)]
pub enum NumLiteral {
    I32(i32),
    I64(i64),
    F32(String),
    F64(String),
}

/// A numeric literal with its text as a sequence.
pub enum NumView {
    I32(i32),
    I64(i64),
    F32(Seq<char>),
    F64(Seq<char>),
}

impl View for NumLiteral {
    type V = NumView;

    open spec fn view(&self) -> NumView {
        match self {
            NumLiteral::I32(x) => NumView::I32(*x),
            NumLiteral::I64(x) => NumView::I64(*x),
            NumLiteral::F32(s) => NumView::F32(s@),
            NumLiteral::F64(s) => NumView::F64(s@),
        }
    }
}

impl Clone for NumLiteral {
    fn clone(&self) -> (r: Self)
        ensures
            r == *self,
    {
        match self {
            NumLiteral::I32(x) => NumLiteral::I32(*x),
            NumLiteral::I64(x) => NumLiteral::I64(*x),
            NumLiteral::F32(s) => NumLiteral::F32(s.clone()),
            NumLiteral::F64(s) => NumLiteral::F64(s.clone()),
        }
    }
}

/// A literal value.
#[derive(Debug, PartialEq)]
pub enum Literal {
    Char(char),
    String(String),
    NumLiteral(NumLiteral),
}

/// A literal value with its text as a sequence.
pub enum LiteralView {
    Char(char),
    String(Seq<char>),
    NumLiteral(NumView),
}

impl View for Literal {
    type V = LiteralView;

    open spec fn view(&self) -> LiteralView {
        match self {
            Literal::Char(c) => LiteralView::Char(*c),
            Literal::String(s) => LiteralView::String(s@),
            Literal::NumLiteral(n) => LiteralView::NumLiteral(n@),
        }
    }
}

impl Clone for Literal {
    fn clone(&self) -> (r: Self)
        ensures
            r == *self,
    {
        match self {
            Literal::Char(c) => Literal::Char(*c),
            Literal::String(s) => Literal::String(s.clone()),
            Literal::NumLiteral(n) => Literal::NumLiteral(n.clone()),
        }
    }
}

/// What a token is.
#[derive(Debug, PartialEq)]
pub enum Kind {
    Keyword(Keyword),
    Ident(String),
    Literal(Literal),
    Symbol(Symbol),
}

/// What a token is, with its text as a sequence.
pub enum KindView {
    Keyword(Keyword),
    Ident(Seq<char>),
    Literal(LiteralView),
    Symbol(Symbol),
}

impl View for Kind {
    type V = KindView;

    open spec fn view(&self) -> KindView {
        match self {
            Kind::Keyword(k) => KindView::Keyword(*k),
            Kind::Ident(s) => KindView::Ident(s@),
            Kind::Literal(l) => KindView::Literal(l@),
            Kind::Symbol(s) => KindView::Symbol(*s),
        }
    }
}

impl Clone for Kind {
    fn clone(&self) -> (r: Self)
        ensures
            r == *self,
    {
        match self {
            Kind::Keyword(k) => Kind::Keyword(*k),
            Kind::Ident(s) => Kind::Ident(s.clone()),
            Kind::Literal(l) => Kind::Literal(l.clone()),
            Kind::Symbol(s) => Kind::Symbol(*s),
        }
    }
}

/// One lexeme: its kind, the offset of its first symbol in the source and
/// the number of source symbols it spans.
#[derive(Debug, PartialEq)]
pub struct Token {
    pub kind: Kind,
    pub pos: usize,
    pub len: usize,
}

/// A token with its text as a sequence and its offsets as integers.
pub struct TokenView {
    pub kind: KindView,
    pub pos: int,
    pub len: int,
}

impl View for Token {
    type V = TokenView;

    open spec fn view(&self) -> TokenView {
        TokenView { kind: self.kind@, pos: self.pos as int, len: self.len as int }
    }
}

impl DeepView for Token {
    type V = TokenView;

    open spec fn deep_view(&self) -> TokenView {
        self@
    }
}

impl Clone for Token {
    fn clone(&self) -> (r: Self)
        ensures
            r == *self,
    {
        Token { kind: self.kind.clone(), pos: self.pos, len: self.len }
    }
}

} // verus!
