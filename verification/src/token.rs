//! The tokens of the source language.

use vstd::prelude::*;
use vstd::string::*;
use crate::span::Span;

verus! {

#[derive(Debug, PartialEq, Eq)]
pub enum TokenKind {
    Eof,
    Integer(i32),
    String(String),
    Boolean(bool),
    Identifier(String),
    /// The keyword that opens a function declaration, `f` or `fn`.
    Function,
    If,
    Return,
    Dot,
    Arrow,
    Comma,
    Semicolon,
    LeftParent,
    RightParent,
    TypeInt,
    TypeStr,
    TypeBool,
    TypeVoid,
    Minus,
    Plus,
    RightAngle,
    Equal,
}

/// A token and its place in the source.
#[derive(Debug, PartialEq, Eq)]
pub struct Token {
    pub kind: TokenKind,
    pub span: Span,
}

impl Clone for TokenKind {
    fn clone(&self) -> (res: Self)
        ensures
            res == *self,
    {
        match self {
            TokenKind::Eof => TokenKind::Eof,
            TokenKind::Integer(n) => TokenKind::Integer(*n),
            TokenKind::String(s) => TokenKind::String(s.clone()),
            TokenKind::Boolean(b) => TokenKind::Boolean(*b),
            TokenKind::Identifier(s) => TokenKind::Identifier(s.clone()),
            TokenKind::Function => TokenKind::Function,
            TokenKind::If => TokenKind::If,
            TokenKind::Return => TokenKind::Return,
            TokenKind::Dot => TokenKind::Dot,
            TokenKind::Arrow => TokenKind::Arrow,
            TokenKind::Comma => TokenKind::Comma,
            TokenKind::Semicolon => TokenKind::Semicolon,
            TokenKind::LeftParent => TokenKind::LeftParent,
            TokenKind::RightParent => TokenKind::RightParent,
            TokenKind::TypeInt => TokenKind::TypeInt,
            TokenKind::TypeStr => TokenKind::TypeStr,
            TokenKind::TypeBool => TokenKind::TypeBool,
            TokenKind::TypeVoid => TokenKind::TypeVoid,
            TokenKind::Minus => TokenKind::Minus,
            TokenKind::Plus => TokenKind::Plus,
            TokenKind::RightAngle => TokenKind::RightAngle,
            TokenKind::Equal => TokenKind::Equal,
        }
    }
}

impl Clone for Token {
    fn clone(&self) -> (res: Self)
        ensures
            res == *self,
    {
        Token { kind: self.kind.clone(), span: self.span }
    }
}

/// The mathematical content of a token's kind.
pub enum TokenKindView {
    Eof,
    Integer(i32),
    String(Seq<char>),
    Boolean(bool),
    Identifier(Seq<char>),
    Function,
    If,
    Return,
    Dot,
    Arrow,
    Comma,
    Semicolon,
    LeftParent,
    RightParent,
    TypeInt,
    TypeStr,
    TypeBool,
    TypeVoid,
    Minus,
    Plus,
    RightAngle,
    Equal,
}

impl View for TokenKind {
    type V = TokenKindView;

    open spec fn view(&self) -> TokenKindView {
        match self {
            TokenKind::Eof => TokenKindView::Eof,
            TokenKind::Integer(n) => TokenKindView::Integer(*n),
            TokenKind::String(s) => TokenKindView::String(s@),
            TokenKind::Boolean(b) => TokenKindView::Boolean(*b),
            TokenKind::Identifier(s) => TokenKindView::Identifier(s@),
            TokenKind::Function => TokenKindView::Function,
            TokenKind::If => TokenKindView::If,
            TokenKind::Return => TokenKindView::Return,
            TokenKind::Dot => TokenKindView::Dot,
            TokenKind::Arrow => TokenKindView::Arrow,
            TokenKind::Comma => TokenKindView::Comma,
            TokenKind::Semicolon => TokenKindView::Semicolon,
            TokenKind::LeftParent => TokenKindView::LeftParent,
            TokenKind::RightParent => TokenKindView::RightParent,
            TokenKind::TypeInt => TokenKindView::TypeInt,
            TokenKind::TypeStr => TokenKindView::TypeStr,
            TokenKind::TypeBool => TokenKindView::TypeBool,
            TokenKind::TypeVoid => TokenKindView::TypeVoid,
            TokenKind::Minus => TokenKindView::Minus,
            TokenKind::Plus => TokenKindView::Plus,
            TokenKind::RightAngle => TokenKindView::RightAngle,
            TokenKind::Equal => TokenKindView::Equal,
        }
    }
}

/// The mathematical content of a token.
pub struct TokenView {
    pub kind: TokenKindView,
    pub span: Span,
}

impl View for Token {
    type V = TokenView;

    open spec fn view(&self) -> TokenView {
        TokenView { kind: self.kind@, span: self.span }
    }
}

/// The keyword that a word is, if it is one.
pub open spec fn keyword(label: Seq<char>) -> Option<TokenKindView> {
    if label == "f"@ || label == "fn"@ {
        Some(TokenKindView::Function)
    } else if label == "if"@ {
        Some(TokenKindView::If)
    } else if label == "return"@ {
        Some(TokenKindView::Return)
    } else if label == "true"@ {
        Some(TokenKindView::Boolean(true))
    } else if label == "false"@ {
        Some(TokenKindView::Boolean(false))
    } else if label == "int"@ {
        Some(TokenKindView::TypeInt)
    } else if label == "str"@ {
        Some(TokenKindView::TypeStr)
    } else if label == "bool"@ {
        Some(TokenKindView::TypeBool)
    } else if label == "void"@ {
        Some(TokenKindView::TypeVoid)
    } else {
        None
    }
}

/// The kind of the token that a word is: its keyword, or an identifier.
pub open spec fn word_kind(label: Seq<char>) -> TokenKindView {
    match keyword(label) {
        Some(kind) => kind,
        None => TokenKindView::Identifier(label),
    }
}

fn is_word(label: &String, word: &str) -> (same: bool)
    ensures
        same == (label@ == word@),
{
    let other = String::from_str(word);
    *label == other
}

impl Token {
    pub fn new(kind: TokenKind, span: Span) -> (token: Self)
        ensures
            token == (Token { kind, span }),
    {
        Self { kind, span }
    }

    /// The token for a word: a keyword where the word is one, else an identifier.
    pub fn keyword_or_identifier(label: String, span: Span) -> (token: Self)
        ensures
            token@ == (TokenView { kind: word_kind(label@), span }),
    {
        if is_word(&label, "f") || is_word(&label, "fn") {
            Token::new(TokenKind::Function, span)
        } else if is_word(&label, "if") {
            Token::new(TokenKind::If, span)
        } else if is_word(&label, "return") {
            Token::new(TokenKind::Return, span)
        } else if is_word(&label, "true") {
            Token::new(TokenKind::Boolean(true), span)
        } else if is_word(&label, "false") {
            Token::new(TokenKind::Boolean(false), span)
        } else if is_word(&label, "int") {
            Token::new(TokenKind::TypeInt, span)
        } else if is_word(&label, "str") {
            Token::new(TokenKind::TypeStr, span)
        } else if is_word(&label, "bool") {
            Token::new(TokenKind::TypeBool, span)
        } else if is_word(&label, "void") {
            Token::new(TokenKind::TypeVoid, span)
        } else {
            Token::new(TokenKind::Identifier(label), span)
        }
    }
}

impl Default for Token {
    fn default() -> (token: Self)
        ensures
            token == (Token { kind: TokenKind::Eof, span: Span::empty() }),
    {
        Token { kind: TokenKind::Eof, span: Span::default() }
    }
}

} // verus!
