//! The expression tree.

use crate::position::PosCtx;
use crate::token::{Token, TokenView};
use vstd::prelude::*;

verus! {

/// A node of the expression tree. Each node owns its children.
#[derive(Debug)]
pub enum ASTNode {
    /// A literal: `token` is `Int` or `Float`.
    Number { token: Box<Token>, posctx: Box<PosCtx> },
    /// A binary operation: `token` is the operator.
    BinOp { token: Box<Token>, posctx: Box<PosCtx>, left: Box<ASTNode>, right: Box<ASTNode> },
    /// A sign in front of an operand: `token` is `Plus` or `Minus`.
    Unary { token: Box<Token>, posctx: Box<PosCtx>, node: Box<ASTNode> },
    /// An assignment: `token` is the name, an `Ident`.
    Assign { token: Box<Token>, posctx: Box<PosCtx>, value: Box<ASTNode> },
    /// A variable that is read: `token` is the name, an `Ident`.
    Access { token: Box<Token>, posctx: Box<PosCtx> },
}

/// The model of an [`ASTNode`]: the same tree over the models of its tokens.
pub enum AstView {
    Number { token: TokenView, posctx: PosCtx },
    BinOp { token: TokenView, posctx: PosCtx, left: Box<AstView>, right: Box<AstView> },
    Unary { token: TokenView, posctx: PosCtx, node: Box<AstView> },
    Assign { token: TokenView, posctx: PosCtx, value: Box<AstView> },
    Access { token: TokenView, posctx: PosCtx },
}

impl ASTNode {
    /// The tree over the models of the tokens.
    pub open spec fn model(&self) -> AstView
        decreases self,
    {
        match self {
            ASTNode::Number { token, posctx } => AstView::Number {
                token: token@,
                posctx: **posctx,
            },
            ASTNode::BinOp { token, posctx, left, right } => AstView::BinOp {
                token: token@,
                posctx: **posctx,
                left: Box::new(left.model()),
                right: Box::new(right.model()),
            },
            ASTNode::Unary { token, posctx, node } => AstView::Unary {
                token: token@,
                posctx: **posctx,
                node: Box::new(node.model()),
            },
            ASTNode::Assign { token, posctx, value } => AstView::Assign {
                token: token@,
                posctx: **posctx,
                value: Box::new(value.model()),
            },
            ASTNode::Access { token, posctx } => AstView::Access {
                token: token@,
                posctx: **posctx,
            },
        }
    }
}

impl ASTNode {
    /// Whether no node of the tree is an assignment.
    pub fn has_no_assignment(&self) -> (r: bool)
        ensures
            r == self@.has_no_assignment(),
        decreases self,
    {
        match self {
            ASTNode::BinOp { left, right, .. } => left.has_no_assignment()
                && right.has_no_assignment(),
            ASTNode::Unary { node, .. } => node.has_no_assignment(),
            ASTNode::Assign { .. } => false,
            _ => true,
        }
    }

    /// Whether no assignment stands below an operator or a sign.
    pub fn assigns_at_the_head_only(&self) -> (r: bool)
        ensures
            r == self@.assigns_at_the_head_only(),
        decreases self,
    {
        match self {
            ASTNode::Assign { value, .. } => value.assigns_at_the_head_only(),
            _ => self.has_no_assignment(),
        }
    }
}

impl View for ASTNode {
    type V = AstView;

    open spec fn view(&self) -> AstView {
        self.model()
    }
}

impl AstView {
    /// Whether every node holds a token of the kind that it is made for: a
    /// literal in a `Number`, one of the five operators in a `BinOp`, a sign
    /// in a `Unary`, a name in an `Assign` and in an `Access`.
    pub open spec fn well_formed(self) -> bool
        decreases self,
    {
        match self {
            AstView::Number { token, .. } => token is Int || token is Float,
            AstView::BinOp { token, left, right, .. } => {
                &&& token is Plus || token is Minus || token is Mul || token is Div || token is Pow
                &&& left.well_formed()
                &&& right.well_formed()
            },
            AstView::Unary { token, node, .. } => {
                &&& token is Plus || token is Minus
                &&& node.well_formed()
            },
            AstView::Assign { token, value, .. } => token is Ident && value.well_formed(),
            AstView::Access { token, .. } => token is Ident,
        }
    }

    /// Whether no assignment stands below an operator or a sign.
    pub open spec fn assigns_at_the_head_only(self) -> bool
        decreases self,
    {
        match self {
            AstView::Assign { value, .. } => value.assigns_at_the_head_only(),
            _ => self.has_no_assignment(),
        }
    }

    /// Whether no node of the tree is an assignment.
    pub open spec fn has_no_assignment(self) -> bool
        decreases self,
    {
        match self {
            AstView::BinOp { left, right, .. } => left.has_no_assignment()
                && right.has_no_assignment(),
            AstView::Unary { node, .. } => node.has_no_assignment(),
            AstView::Assign { .. } => false,
            _ => true,
        }
    }

    /// The number of nodes of the tree.
    pub open spec fn size(self) -> nat
        decreases self,
    {
        match self {
            AstView::Number { .. } => 1,
            AstView::BinOp { left, right, .. } => 1 + left.size() + right.size(),
            AstView::Unary { node, .. } => 1 + node.size(),
            AstView::Assign { value, .. } => 1 + value.size(),
            AstView::Access { .. } => 1,
        }
    }
}

} // verus!
