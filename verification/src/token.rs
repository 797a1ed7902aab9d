//! The tokens of the language.

use crate::integer::Integer;
use vstd::prelude::*;

verus! {

/// A token.
///
/// An integer literal holds its value. A float literal holds its text, a run
/// of digits with one `.` in it, which is read as a float only when the
/// literal is evaluated.
#[derive(Debug)]
#[allow(inconsistent_fields)]
pub enum Token {
    Int { value: Integer },
    Float { value: String },
    Plus,
    Minus,
    Mul,
    Div,
    Lpar,
    Rpar,
    Assign,
    Pow,
    Ident { value: String },
    Less,
    Greater,
    LessEq,
    GreaterEq,
    Eq,
    NotEq,
    EndOfFile,
}

/// The model of a [`Token`]: an integer literal is a mathematical integer, a
/// float literal and a name are sequences of characters.
#[allow(inconsistent_fields)]
pub enum TokenView {
    Int { value: int },
    Float { value: Seq<char> },
    Plus,
    Minus,
    Mul,
    Div,
    Lpar,
    Rpar,
    Assign,
    Pow,
    Ident { value: Seq<char> },
    Less,
    Greater,
    LessEq,
    GreaterEq,
    Eq,
    NotEq,
    EndOfFile,
}

impl View for Token {
    type V = TokenView;

    open spec fn view(&self) -> TokenView {
        match self {
            Token::Int { value } => TokenView::Int { value: value@ },
            Token::Float { value } => TokenView::Float { value: value@ },
            Token::Plus => TokenView::Plus,
            Token::Minus => TokenView::Minus,
            Token::Mul => TokenView::Mul,
            Token::Div => TokenView::Div,
            Token::Lpar => TokenView::Lpar,
            Token::Rpar => TokenView::Rpar,
            Token::Assign => TokenView::Assign,
            Token::Pow => TokenView::Pow,
            Token::Ident { value } => TokenView::Ident { value: value@ },
            Token::Less => TokenView::Less,
            Token::Greater => TokenView::Greater,
            Token::LessEq => TokenView::LessEq,
            Token::GreaterEq => TokenView::GreaterEq,
            Token::Eq => TokenView::Eq,
            Token::NotEq => TokenView::NotEq,
            Token::EndOfFile => TokenView::EndOfFile,
        }
    }
}

/// The models of the tokens.
pub open spec fn token_views(tokens: Seq<Box<Token>>) -> Seq<TokenView> {
    Seq::new(tokens.len(), |i: int| tokens[i]@)
}

impl Clone for Token {
    fn clone(&self) -> (r: Self)
        ensures
            r@ == self@,
    {
        match self {
            Token::Int { value } => Token::Int { value: value.clone() },
            Token::Float { value } => Token::Float { value: value.clone() },
            Token::Plus => Token::Plus,
            Token::Minus => Token::Minus,
            Token::Mul => Token::Mul,
            Token::Div => Token::Div,
            Token::Lpar => Token::Lpar,
            Token::Rpar => Token::Rpar,
            Token::Assign => Token::Assign,
            Token::Pow => Token::Pow,
            Token::Ident { value } => Token::Ident { value: value.clone() },
            Token::Less => Token::Less,
            Token::Greater => Token::Greater,
            Token::LessEq => Token::LessEq,
            Token::GreaterEq => Token::GreaterEq,
            Token::Eq => Token::Eq,
            Token::NotEq => Token::NotEq,
            Token::EndOfFile => Token::EndOfFile,
        }
    }
}

} // verus!
