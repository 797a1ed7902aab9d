//! The errors of the three stages.

use crate::position::PosCtx;
use vstd::prelude::*;

verus! {

/// What went wrong, where in the source, and a few words on it.
#[derive(Debug)]
pub enum Error {
    /// The lexer met a character that starts no token.
    IllegalChar { ctx: Box<PosCtx>, detail: String },
    /// The parser met a token that the grammar does not allow in its place.
    InvalidSyntax { ctx: Box<PosCtx>, detail: String },
    /// The evaluator met a node whose token or operand is not one that the
    /// node can hold.
    TokenNotMatch { ctx: Box<PosCtx>, detail: String },
    /// The right operand of a division is zero.
    DivdedByZero { ctx: Box<PosCtx>, detail: String },
    /// A name was read that no frame of the variable store holds.
    UndefinedVariable { ctx: Box<PosCtx>, detail: String },
}

/// The model of an [`Error`]: the detail is a sequence of characters.
pub enum ErrorView {
    IllegalChar { ctx: PosCtx, detail: Seq<char> },
    InvalidSyntax { ctx: PosCtx, detail: Seq<char> },
    TokenNotMatch { ctx: PosCtx, detail: Seq<char> },
    DivdedByZero { ctx: PosCtx, detail: Seq<char> },
    UndefinedVariable { ctx: PosCtx, detail: Seq<char> },
}

impl View for Error {
    type V = ErrorView;

    open spec fn view(&self) -> ErrorView {
        match self {
            Error::IllegalChar { ctx, detail } => ErrorView::IllegalChar {
                ctx: **ctx,
                detail: detail@,
            },
            Error::InvalidSyntax { ctx, detail } => ErrorView::InvalidSyntax {
                ctx: **ctx,
                detail: detail@,
            },
            Error::TokenNotMatch { ctx, detail } => ErrorView::TokenNotMatch {
                ctx: **ctx,
                detail: detail@,
            },
            Error::DivdedByZero { ctx, detail } => ErrorView::DivdedByZero {
                ctx: **ctx,
                detail: detail@,
            },
            Error::UndefinedVariable { ctx, detail } => ErrorView::UndefinedVariable {
                ctx: **ctx,
                detail: detail@,
            },
        }
    }
}

impl ErrorView {
    /// The span that the error points at.
    pub open spec fn ctx(self) -> PosCtx {
        match self {
            ErrorView::IllegalChar { ctx, .. } => ctx,
            ErrorView::InvalidSyntax { ctx, .. } => ctx,
            ErrorView::TokenNotMatch { ctx, .. } => ctx,
            ErrorView::DivdedByZero { ctx, .. } => ctx,
            ErrorView::UndefinedVariable { ctx, .. } => ctx,
        }
    }
}

impl Error {
    /// The span that the error points at.
    pub fn ctx(&self) -> (r: &PosCtx)
        ensures
            *r == self@.ctx(),
    {
        match self {
            Error::IllegalChar { ctx, .. } => ctx,
            Error::InvalidSyntax { ctx, .. } => ctx,
            Error::TokenNotMatch { ctx, .. } => ctx,
            Error::DivdedByZero { ctx, .. } => ctx,
            Error::UndefinedVariable { ctx, .. } => ctx,
        }
    }

    /// An `IllegalChar` error at `ctx`.
    pub fn illegal_char(ctx: Box<PosCtx>, detail: &str) -> (r: Box<Error>)
        ensures
            r@ == (ErrorView::IllegalChar { ctx: *ctx, detail: detail@ }),
    {
        Box::new(Error::IllegalChar { ctx, detail: detail.to_owned() })
    }

    /// An `InvalidSyntax` error at `ctx`.
    pub fn invalid_syntax(ctx: Box<PosCtx>, detail: &str) -> (r: Box<Error>)
        ensures
            r@ == (ErrorView::InvalidSyntax { ctx: *ctx, detail: detail@ }),
    {
        Box::new(Error::InvalidSyntax { ctx, detail: detail.to_owned() })
    }

    /// A `TokenNotMatch` error at `ctx`.
    pub fn token_not_match(ctx: Box<PosCtx>, detail: &str) -> (r: Box<Error>)
        ensures
            r@ == (ErrorView::TokenNotMatch { ctx: *ctx, detail: detail@ }),
    {
        Box::new(Error::TokenNotMatch { ctx, detail: detail.to_owned() })
    }

    /// A `DivdedByZero` error at `ctx`.
    pub fn divided_by_zero(ctx: Box<PosCtx>, detail: &str) -> (r: Box<Error>)
        ensures
            r@ == (ErrorView::DivdedByZero { ctx: *ctx, detail: detail@ }),
    {
        Box::new(Error::DivdedByZero { ctx, detail: detail.to_owned() })
    }
}

impl Clone for Error {
    fn clone(&self) -> (r: Self)
        ensures
            r@ == self@,
    {
        match self {
            Error::IllegalChar { ctx, detail } => Error::IllegalChar {
                ctx: ctx.clone(),
                detail: detail.clone(),
            },
            Error::InvalidSyntax { ctx, detail } => Error::InvalidSyntax {
                ctx: ctx.clone(),
                detail: detail.clone(),
            },
            Error::TokenNotMatch { ctx, detail } => Error::TokenNotMatch {
                ctx: ctx.clone(),
                detail: detail.clone(),
            },
            Error::DivdedByZero { ctx, detail } => Error::DivdedByZero {
                ctx: ctx.clone(),
                detail: detail.clone(),
            },
            Error::UndefinedVariable { ctx, detail } => Error::UndefinedVariable {
                ctx: ctx.clone(),
                detail: detail.clone(),
            },
        }
    }
}

} // verus!
