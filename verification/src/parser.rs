//! The parser: from the tokens of a line to its expression tree.
//!
//! The grammar, from the loosest binding to the tightest:
//!
//! ```text
//! expr   := IDENT '=' expr | term (('+' | '-') term)*
//! term   := factor (('*' | '/') factor)*
//! factor := ('+' | '-') factor | power
//! power  := atom ('**' factor)*
//! atom   := INT | FLOAT | IDENT | '(' expr ')'
//! ```
//!
//! Tokens are counted from one: the parser stands at the token `index`, the
//! `index`-th of the line. The last token of a line is `EndOfFile`.

use crate::ast::{ASTNode, AstView};
use crate::error::{Error, ErrorView};
use crate::position::{span_values, PosCtx};
use crate::token::{token_views, Token, TokenView};
use vstd::prelude::*;

verus! {

/// What a rule of the grammar made of the tokens from some index on: a tree
/// or an error, and the number of tokens that it went past.
pub struct Parsed {
    pub result: Result<AstView, ErrorView>,
    pub consumed: nat,
}

/// A line of tokens as the lexer makes it: as many spans as tokens, and
/// `EndOfFile` last.
pub open spec fn is_line(tokens: Seq<TokenView>, spans: Seq<PosCtx>) -> bool {
    &&& tokens.len() == spans.len()
    &&& tokens.len() > 0
    &&& tokens.last() is EndOfFile
}

/// The token at `index`, counted from one. The last token of a line, and
/// whatever lies outside the line, reads as `EndOfFile`.
pub open spec fn current(tokens: Seq<TokenView>, index: nat) -> TokenView {
    if 1 <= index < tokens.len() {
        tokens[index - 1]
    } else {
        TokenView::EndOfFile
    }
}

/// The span of the token at `index`, counted from one.
pub open spec fn span_at(spans: Seq<PosCtx>, index: nat) -> PosCtx {
    spans[index - 1]
}

/// The number of tokens from `index` to the end of a line of `len` tokens.
pub open spec fn remaining(len: nat, index: nat) -> nat {
    if index <= len {
        (len - index) as nat
    } else {
        0
    }
}

/// Whether `token` is `+` or `-`.
pub open spec fn is_additive(token: TokenView) -> bool {
    token is Plus || token is Minus
}

/// Whether `token` is `*` or `/`.
pub open spec fn is_multiplicative(token: TokenView) -> bool {
    token is Mul || token is Div
}

/// A failure with the error `error`, `consumed` tokens into the rule.
pub open spec fn rejected(error: ErrorView, consumed: nat) -> Parsed {
    Parsed { result: Err(error), consumed }
}

/// `parsed`, as the end of a rule that went past `before` tokens first.
pub open spec fn after(before: nat, parsed: Parsed) -> Parsed {
    Parsed { result: parsed.result, consumed: before + parsed.consumed }
}

/// The node of the binary operator at `index` on `left` and `right`, with
/// the span of the operator.
pub open spec fn binary_node(
    tokens: Seq<TokenView>,
    spans: Seq<PosCtx>,
    index: nat,
    left: AstView,
    right: AstView,
) -> AstView {
    AstView::BinOp {
        token: current(tokens, index),
        posctx: span_at(spans, index),
        left: Box::new(left),
        right: Box::new(right),
    }
}

/// `expr` at `index`.
///
/// A name followed by `=` starts an assignment, whose value is an `expr` and
/// whose span reaches from the name to the end of the value. Anything else is
/// a chain of terms joined by `+` and `-`, grouped from the left.
pub open spec fn parse_expr(tokens: Seq<TokenView>, spans: Seq<PosCtx>, index: nat) -> Parsed
    decreases remaining(tokens.len(), index), 9nat,
{
    if current(tokens, index) is Ident && current(tokens, index + 1) is Assign {
        let value = parse_expr(tokens, spans, index + 2);
        match value.result {
            Ok(node) => Parsed {
                result: Ok(
                    AstView::Assign {
                        token: current(tokens, index),
                        posctx: span_at(spans, index).merged(
                            span_at(spans, index + 1 + value.consumed),
                        ),
                        value: Box::new(node),
                    },
                ),
                consumed: 2 + value.consumed,
            },
            Err(_) => after(2, value),
        }
    } else {
        let first = parse_term(tokens, spans, index);
        match first.result {
            Ok(left) => after(
                first.consumed,
                parse_expr_tail(tokens, spans, left, index + first.consumed),
            ),
            Err(_) => first,
        }
    }
}

/// The rest of a chain of terms, with `left` for what was read of it.
pub open spec fn parse_expr_tail(
    tokens: Seq<TokenView>,
    spans: Seq<PosCtx>,
    left: AstView,
    index: nat,
) -> Parsed
    decreases remaining(tokens.len(), index), 8nat,
{
    if is_additive(current(tokens, index)) {
        let next = parse_term(tokens, spans, index + 1);
        match next.result {
            Ok(right) => after(
                1 + next.consumed,
                parse_expr_tail(
                    tokens,
                    spans,
                    binary_node(tokens, spans, index, left, right),
                    index + 1 + next.consumed,
                ),
            ),
            Err(_) => after(1, next),
        }
    } else {
        Parsed { result: Ok(left), consumed: 0 }
    }
}

/// `term` at `index`: a chain of factors joined by `*` and `/`, grouped from
/// the left.
pub open spec fn parse_term(tokens: Seq<TokenView>, spans: Seq<PosCtx>, index: nat) -> Parsed
    decreases remaining(tokens.len(), index), 7nat,
{
    let first = parse_factor(tokens, spans, index);
    match first.result {
        Ok(left) => after(
            first.consumed,
            parse_term_tail(tokens, spans, left, index + first.consumed),
        ),
        Err(_) => first,
    }
}

/// The rest of a chain of factors, with `left` for what was read of it.
pub open spec fn parse_term_tail(
    tokens: Seq<TokenView>,
    spans: Seq<PosCtx>,
    left: AstView,
    index: nat,
) -> Parsed
    decreases remaining(tokens.len(), index), 6nat,
{
    if is_multiplicative(current(tokens, index)) {
        let next = parse_factor(tokens, spans, index + 1);
        match next.result {
            Ok(right) => after(
                1 + next.consumed,
                parse_term_tail(
                    tokens,
                    spans,
                    binary_node(tokens, spans, index, left, right),
                    index + 1 + next.consumed,
                ),
            ),
            Err(_) => after(1, next),
        }
    } else {
        Parsed { result: Ok(left), consumed: 0 }
    }
}

/// `factor` at `index`: a sign in front of a factor, or a power. The node of
/// a sign carries the span of the token behind the sign.
pub open spec fn parse_factor(tokens: Seq<TokenView>, spans: Seq<PosCtx>, index: nat) -> Parsed
    decreases remaining(tokens.len(), index), 5nat,
{
    if is_additive(current(tokens, index)) {
        let operand = parse_factor(tokens, spans, index + 1);
        match operand.result {
            Ok(node) => Parsed {
                result: Ok(
                    AstView::Unary {
                        token: current(tokens, index),
                        posctx: span_at(spans, index + 1),
                        node: Box::new(node),
                    },
                ),
                consumed: 1 + operand.consumed,
            },
            Err(_) => after(1, operand),
        }
    } else {
        parse_power(tokens, spans, index)
    }
}

/// `power` at `index`: an atom, and behind each `**` a factor. As that
/// factor takes every `**` that follows it, powers group from the right.
pub open spec fn parse_power(tokens: Seq<TokenView>, spans: Seq<PosCtx>, index: nat) -> Parsed
    decreases remaining(tokens.len(), index), 4nat,
{
    let first = parse_atom(tokens, spans, index);
    match first.result {
        Ok(left) => after(
            first.consumed,
            parse_power_tail(tokens, spans, left, index + first.consumed),
        ),
        Err(_) => first,
    }
}

/// The rest of a power, with `left` for what was read of it.
pub open spec fn parse_power_tail(
    tokens: Seq<TokenView>,
    spans: Seq<PosCtx>,
    left: AstView,
    index: nat,
) -> Parsed
    decreases remaining(tokens.len(), index), 3nat,
{
    if current(tokens, index) is Pow {
        let next = parse_factor(tokens, spans, index + 1);
        match next.result {
            Ok(right) => after(
                1 + next.consumed,
                parse_power_tail(
                    tokens,
                    spans,
                    binary_node(tokens, spans, index, left, right),
                    index + 1 + next.consumed,
                ),
            ),
            Err(_) => after(1, next),
        }
    } else {
        Parsed { result: Ok(left), consumed: 0 }
    }
}

/// `atom` at `index`: a name, a literal, or an `expr` in parentheses. A
/// missing `)` and a token that starts no atom are syntax errors at the token
/// that was found instead.
pub open spec fn parse_atom(tokens: Seq<TokenView>, spans: Seq<PosCtx>, index: nat) -> Parsed
    decreases remaining(tokens.len(), index), 2nat,
{
    let token = current(tokens, index);
    let posctx = span_at(spans, index);
    match token {
        TokenView::Ident { .. } => Parsed {
            result: Ok(AstView::Access { token, posctx }),
            consumed: 1,
        },
        TokenView::Int { .. } | TokenView::Float { .. } => Parsed {
            result: Ok(AstView::Number { token, posctx }),
            consumed: 1,
        },
        TokenView::Lpar => {
            let inner = parse_expr(tokens, spans, index + 1);
            match inner.result {
                Ok(node) => if current(tokens, index + 1 + inner.consumed) is Rpar {
                    Parsed { result: Ok(node), consumed: 2 + inner.consumed }
                } else {
                    rejected(
                        ErrorView::InvalidSyntax {
                            ctx: span_at(spans, index + 1 + inner.consumed),
                            detail: "Expect: ')'"@,
                        },
                        1 + inner.consumed,
                    )
                },
                Err(_) => after(1, inner),
            }
        },
        _ => rejected(
            ErrorView::InvalidSyntax {
                ctx: posctx,
                detail: "Expect: 'ident', 'int', 'float', '('"@,
            },
            0,
        ),
    }
}

/// The model of what the parser returns.
pub open spec fn parse_view(r: Result<Box<ASTNode>, Box<Error>>) -> Result<AstView, ErrorView> {
    match r {
        Ok(node) => Ok(node@),
        Err(error) => Err(error@),
    }
}

/// A parser over the tokens of one line and their spans.
pub struct Parser<'a> {
    pub tokens: &'a Vec<Box<Token>>,
    pub posctxs: &'a Vec<Box<PosCtx>>,
    pub index: usize,
}

impl<'a> Parser<'a> {
    /// The tokens are a line.
    pub open spec fn has_line(&self) -> bool {
        is_line(token_views(self.tokens@), span_values(self.posctxs@))
    }

    /// The tokens are a line, and the parser stands at one of them.
    pub open spec fn wf(&self) -> bool {
        &&& self.has_line()
        &&& 1 <= self.index <= self.tokens.len()
    }

    /// The models of the tokens of the line.
    pub open spec fn token_line(&self) -> Seq<TokenView> {
        token_views(self.tokens@)
    }

    /// The spans of the tokens of the line.
    pub open spec fn span_line(&self) -> Seq<PosCtx> {
        span_values(self.posctxs@)
    }

    /// The `expr` that the line starts with.
    pub open spec fn line(&self) -> Parsed {
        parse_expr(self.token_line(), self.span_line(), 1)
    }

    /// The `expr` at the token that the parser stands at.
    pub open spec fn expr_here(&self) -> Parsed {
        parse_expr(self.token_line(), self.span_line(), self.index as nat)
    }

    /// The `term` at the token that the parser stands at.
    pub open spec fn term_here(&self) -> Parsed {
        parse_term(self.token_line(), self.span_line(), self.index as nat)
    }

    /// The `factor` at the token that the parser stands at.
    pub open spec fn factor_here(&self) -> Parsed {
        parse_factor(self.token_line(), self.span_line(), self.index as nat)
    }

    /// The `power` at the token that the parser stands at.
    pub open spec fn power_here(&self) -> Parsed {
        parse_power(self.token_line(), self.span_line(), self.index as nat)
    }

    /// The `atom` at the token that the parser stands at.
    pub open spec fn atom_here(&self) -> Parsed {
        parse_atom(self.token_line(), self.span_line(), self.index as nat)
    }

    /// What the rule `parsed` leaves of the parser `before`: the result `r`,
    /// and the parser `self`, past the tokens of the rule.
    pub open spec fn follows(
        &self,
        before: Parser<'a>,
        r: Result<Box<ASTNode>, Box<Error>>,
        parsed: Parsed,
    ) -> bool {
        &&& self.tokens == before.tokens
        &&& self.posctxs == before.posctxs
        &&& self.wf()
        &&& self.index == before.index + parsed.consumed
        &&& parse_view(r) == parsed.result
    }

    /// Moves to the next token.
    fn advance(&mut self)
        requires
            old(self).index < old(self).tokens.len(),
        ensures
            final(self).tokens == old(self).tokens,
            final(self).posctxs == old(self).posctxs,
            final(self).index == old(self).index + 1,
    {
        self.index += 1;
    }

    /// The token behind the one that the parser stands at.
    fn peek(&self) -> (r: Box<Token>)
        requires
            self.has_line(),
        ensures
            r@ == current(token_views(self.tokens@), (self.index + 1) as nat),
    {
        if self.index < self.tokens.len() {
            self.tokens[self.index].clone()
        } else {
            Box::new(Token::EndOfFile)
        }
    }

    /// The token that the parser stands at.
    fn get_current_token(&self) -> (r: Box<Token>)
        requires
            self.wf(),
        ensures
            r@ == current(token_views(self.tokens@), self.index as nat),
    {
        self.tokens[self.index - 1].clone()
    }

    /// The span of the token that the parser stands at.
    fn get_current_posctx(&self) -> (r: Box<PosCtx>)
        requires
            self.wf(),
        ensures
            *r == span_at(span_values(self.posctxs@), self.index as nat),
    {
        self.posctxs[self.index - 1].clone()
    }

    /// Parses the line from its first token: the tree of the `expr` that the
    /// line starts with, or the first syntax error.
    pub fn parse(&mut self) -> (r: Result<Box<ASTNode>, Box<Error>>)
        requires
            old(self).has_line(),
            old(self).index == 0,
        ensures
            final(self).tokens == old(self).tokens,
            final(self).posctxs == old(self).posctxs,
            parse_view(r) == old(self).line().result,
            final(self).index == 1 + old(self).line().consumed,
            final(self).index <= old(self).tokens.len(),
            r matches Ok(node) ==> node@.well_formed(),
            r matches Err(error) ==> error@ is InvalidSyntax,
    {
        proof {
            lemma_parse_expr_advances(self.token_line(), self.span_line(), 1);
            lemma_parse_fails_with_syntax(self.token_line(), self.span_line(), 1);
        }
        self.advance();
        self.expr()
    }

    /// Parses an `expr` from the token that the parser stands at.
    fn expr(&mut self) -> (r: Result<Box<ASTNode>, Box<Error>>)
        requires
            old(self).wf(),
        ensures
            final(self).follows(
                *old(self),
                r,
                old(self).expr_here(),
            ),
        decreases old(self).tokens.len() - old(self).index, 9nat,
    {
        let ghost tokens = token_views(self.tokens@);
        let ghost spans = span_values(self.posctxs@);
        let ghost start = self.index as nat;
        let token = self.get_current_token();
        let posctx = self.get_current_posctx();
        let assigns = match &*token {
            Token::Ident { .. } => match &*self.peek() {
                Token::Assign => true,
                _ => false,
            },
            _ => false,
        };
        if assigns {
            self.advance();
            self.advance();
            let value_node = match self.expr() {
                Ok(node) => node,
                Err(error) => {
                    return Err(error);
                },
            };
            proof {
                lemma_parse_expr_advances(tokens, spans, start + 2);
            }
            let last = &self.posctxs[self.index - 2];
            Ok(Box::new(ASTNode::Assign { token, posctx: posctx.merge(last), value: value_node }))
        } else {
            let mut left = match self.term() {
                Ok(node) => node,
                Err(error) => {
                    return Err(error);
                },
            };
            loop
                invariant
                    self.tokens == old(self).tokens,
                    self.posctxs == old(self).posctxs,
                    tokens == token_views(self.tokens@),
                    spans == span_values(self.posctxs@),
                    self.wf(),
                    start == old(self).index,
                    start <= self.index,
                    parse_expr(tokens, spans, start) == after(
                        (self.index - start) as nat,
                        parse_expr_tail(tokens, spans, left@, self.index as nat),
                    ),
                ensures
                    final(self).follows(*old(self), Ok(left), parse_expr(tokens, spans, start)),
                decreases self.tokens.len() - self.index,
            {
                let token = self.get_current_token();
                let posctx = self.get_current_posctx();
                match &*token {
                    Token::Plus | Token::Minus => {
                        self.advance();
                        let right = match self.term() {
                            Ok(node) => node,
                            Err(error) => {
                                return Err(error);
                            },
                        };
                        left = Box::new(ASTNode::BinOp { token, posctx, left, right });
                    },
                    _ => {
                        break ;
                    },
                }
            }
            Ok(left)
        }
    }

    /// Parses a `term` from the token that the parser stands at.
    pub fn term(&mut self) -> (r: Result<Box<ASTNode>, Box<Error>>)
        requires
            old(self).wf(),
        ensures
            final(self).follows(
                *old(self),
                r,
                old(self).term_here(),
            ),
        decreases old(self).tokens.len() - old(self).index, 7nat,
    {
        let ghost tokens = token_views(self.tokens@);
        let ghost spans = span_values(self.posctxs@);
        let ghost start = self.index as nat;
        let mut left = match self.factor() {
            Ok(node) => node,
            Err(error) => {
                return Err(error);
            },
        };
        loop
            invariant
                self.tokens == old(self).tokens,
                self.posctxs == old(self).posctxs,
                tokens == token_views(self.tokens@),
                spans == span_values(self.posctxs@),
                self.wf(),
                start == old(self).index,
                start <= self.index,
                parse_term(tokens, spans, start) == after(
                    (self.index - start) as nat,
                    parse_term_tail(tokens, spans, left@, self.index as nat),
                ),
            ensures
                final(self).follows(*old(self), Ok(left), parse_term(tokens, spans, start)),
            decreases self.tokens.len() - self.index,
        {
            let token = self.get_current_token();
            let posctx = self.get_current_posctx();
            match &*token {
                Token::Mul | Token::Div => {
                    self.advance();
                    let right = match self.factor() {
                        Ok(node) => node,
                        Err(error) => {
                            return Err(error);
                        },
                    };
                    left = Box::new(ASTNode::BinOp { token, posctx, left, right });
                },
                _ => {
                    break ;
                },
            }
        }
        Ok(left)
    }

    /// Parses a `factor` from the token that the parser stands at.
    pub fn factor(&mut self) -> (r: Result<Box<ASTNode>, Box<Error>>)
        requires
            old(self).wf(),
        ensures
            final(self).follows(
                *old(self),
                r,
                old(self).factor_here(),
            ),
        decreases old(self).tokens.len() - old(self).index, 5nat,
    {
        let token = self.get_current_token();
        match &*token {
            Token::Plus | Token::Minus => {
                self.advance();
                let posctx = self.get_current_posctx();
                let node = match self.factor() {
                    Ok(node) => node,
                    Err(error) => {
                        return Err(error);
                    },
                };
                Ok(Box::new(ASTNode::Unary { token, posctx, node }))
            },
            _ => self.power(),
        }
    }

    /// Parses a `power` from the token that the parser stands at.
    pub fn power(&mut self) -> (r: Result<Box<ASTNode>, Box<Error>>)
        requires
            old(self).wf(),
        ensures
            final(self).follows(
                *old(self),
                r,
                old(self).power_here(),
            ),
        decreases old(self).tokens.len() - old(self).index, 4nat,
    {
        let ghost tokens = token_views(self.tokens@);
        let ghost spans = span_values(self.posctxs@);
        let ghost start = self.index as nat;
        let mut left = match self.atom() {
            Ok(node) => node,
            Err(error) => {
                return Err(error);
            },
        };
        loop
            invariant
                self.tokens == old(self).tokens,
                self.posctxs == old(self).posctxs,
                tokens == token_views(self.tokens@),
                spans == span_values(self.posctxs@),
                self.wf(),
                start == old(self).index,
                start <= self.index,
                parse_power(tokens, spans, start) == after(
                    (self.index - start) as nat,
                    parse_power_tail(tokens, spans, left@, self.index as nat),
                ),
            ensures
                final(self).follows(*old(self), Ok(left), parse_power(tokens, spans, start)),
            decreases self.tokens.len() - self.index,
        {
            let token = self.get_current_token();
            let posctx = self.get_current_posctx();
            match &*token {
                Token::Pow => {
                    self.advance();
                    let right = match self.factor() {
                        Ok(node) => node,
                        Err(error) => {
                            return Err(error);
                        },
                    };
                    left = Box::new(ASTNode::BinOp { token, posctx, left, right });
                },
                _ => {
                    break ;
                },
            }
        }
        Ok(left)
    }

    /// Parses an `atom` from the token that the parser stands at.
    pub fn atom(&mut self) -> (r: Result<Box<ASTNode>, Box<Error>>)
        requires
            old(self).wf(),
        ensures
            final(self).follows(
                *old(self),
                r,
                old(self).atom_here(),
            ),
        decreases old(self).tokens.len() - old(self).index, 2nat,
    {
        let token = self.get_current_token();
        let posctx = self.get_current_posctx();
        match &*token {
            Token::Ident { .. } => {
                self.advance();
                Ok(Box::new(ASTNode::Access { token, posctx }))
            },
            Token::Int { .. } | Token::Float { .. } => {
                self.advance();
                Ok(Box::new(ASTNode::Number { token, posctx }))
            },
            Token::Lpar => {
                self.advance();
                let node = match self.expr() {
                    Ok(node) => node,
                    Err(error) => {
                        return Err(error);
                    },
                };
                let current_token = self.get_current_token();
                match &*current_token {
                    Token::Rpar => {
                        self.advance();
                        Ok(node)
                    },
                    _ => Err(Error::invalid_syntax(self.get_current_posctx(), "Expect: ')'")),
                }
            },
            _ => Err(
                Error::invalid_syntax(
                    self.get_current_posctx(),
                    "Expect: 'ident', 'int', 'float', '('",
                ),
            ),
        }
    }
}

/// An `expr` that comes to a tree has gone past a token at least, and stays
/// within the line. The tree is well formed.
pub proof fn lemma_parse_expr_advances(tokens: Seq<TokenView>, spans: Seq<PosCtx>, index: nat)
    requires
        is_line(tokens, spans),
        1 <= index <= tokens.len(),
    ensures
        parse_expr(tokens, spans, index).result is Ok ==> parse_expr(
            tokens,
            spans,
            index,
        ).consumed >= 1,
        index + parse_expr(tokens, spans, index).consumed <= tokens.len(),
        parse_expr(tokens, spans, index).result matches Ok(node) ==> node.well_formed(),
{
    lemma_rules_advance(tokens, spans, index, 9);
}

/// The parser fails with `InvalidSyntax` and nothing else.
pub proof fn lemma_parse_fails_with_syntax(tokens: Seq<TokenView>, spans: Seq<PosCtx>, index: nat)
    ensures
        parse_expr(tokens, spans, index).result matches Err(error) ==> error is InvalidSyntax,
{
    lemma_rules_fail_with_syntax(tokens, spans, index, 9);
}

/// Which rule a number stands for, in the order of the grammar.
pub open spec fn rule(tokens: Seq<TokenView>, spans: Seq<PosCtx>, index: nat, rank: nat) -> Parsed {
    if rank == 9 {
        parse_expr(tokens, spans, index)
    } else if rank == 7 {
        parse_term(tokens, spans, index)
    } else if rank == 5 {
        parse_factor(tokens, spans, index)
    } else if rank == 4 {
        parse_power(tokens, spans, index)
    } else {
        parse_atom(tokens, spans, index)
    }
}

/// The rest of the chain that a number stands for.
pub open spec fn rule_tail(
    tokens: Seq<TokenView>,
    spans: Seq<PosCtx>,
    left: AstView,
    index: nat,
    rank: nat,
) -> Parsed {
    if rank == 8 {
        parse_expr_tail(tokens, spans, left, index)
    } else if rank == 6 {
        parse_term_tail(tokens, spans, left, index)
    } else {
        parse_power_tail(tokens, spans, left, index)
    }
}

/// Every rule that comes to a tree has gone past a token at least, and no
/// rule leaves the line. The trees of the rules are well formed.
pub proof fn lemma_rules_advance(tokens: Seq<TokenView>, spans: Seq<PosCtx>, index: nat, rank: nat)
    requires
        is_line(tokens, spans),
        1 <= index <= tokens.len(),
        rank == 9 || rank == 7 || rank == 5 || rank == 4 || rank == 2,
    ensures
        rule(tokens, spans, index, rank).result is Ok ==> rule(tokens, spans, index, rank).consumed
            >= 1,
        index + rule(tokens, spans, index, rank).consumed <= tokens.len(),
        rule(tokens, spans, index, rank).result matches Ok(node) ==> node.well_formed(),
    decreases remaining(tokens.len(), index), rank,
{
    if rank == 9 {
        if current(tokens, index) is Ident && current(tokens, index + 1) is Assign {
            lemma_rules_advance(tokens, spans, index + 2, 9);
        } else {
            lemma_rules_advance(tokens, spans, index, 7);
            let first = parse_term(tokens, spans, index);
            if first.result is Ok {
                lemma_tails_stay(tokens, spans, first.result->Ok_0, index + first.consumed, 8);
            }
        }
    } else if rank == 7 {
        lemma_rules_advance(tokens, spans, index, 5);
        let first = parse_factor(tokens, spans, index);
        if first.result is Ok {
            lemma_tails_stay(tokens, spans, first.result->Ok_0, index + first.consumed, 6);
        }
    } else if rank == 5 {
        if is_additive(current(tokens, index)) {
            lemma_rules_advance(tokens, spans, index + 1, 5);
        } else {
            lemma_rules_advance(tokens, spans, index, 4);
        }
    } else if rank == 4 {
        lemma_rules_advance(tokens, spans, index, 2);
        let first = parse_atom(tokens, spans, index);
        if first.result is Ok {
            lemma_tails_stay(tokens, spans, first.result->Ok_0, index + first.consumed, 3);
        }
    } else {
        if current(tokens, index) is Lpar {
            lemma_rules_advance(tokens, spans, index + 1, 9);
        }
    }
}

/// No rest of a chain leaves the line, and a chain that carries on from a
/// well-formed tree comes to a well-formed tree.
pub proof fn lemma_tails_stay(
    tokens: Seq<TokenView>,
    spans: Seq<PosCtx>,
    left: AstView,
    index: nat,
    rank: nat,
)
    requires
        is_line(tokens, spans),
        1 <= index <= tokens.len(),
        rank == 8 || rank == 6 || rank == 3,
    ensures
        index + rule_tail(tokens, spans, left, index, rank).consumed <= tokens.len(),
        left.well_formed() ==> (rule_tail(tokens, spans, left, index, rank).result matches Ok(node)
            ==> node.well_formed()),
    decreases remaining(tokens.len(), index), rank,
{
    if rank == 8 {
        if is_additive(current(tokens, index)) {
            lemma_rules_advance(tokens, spans, index + 1, 7);
            let next = parse_term(tokens, spans, index + 1);
            if next.result is Ok {
                lemma_tails_stay(
                    tokens,
                    spans,
                    binary_node(tokens, spans, index, left, next.result->Ok_0),
                    index + 1 + next.consumed,
                    8,
                );
            }
        }
    } else if rank == 6 {
        if is_multiplicative(current(tokens, index)) {
            lemma_rules_advance(tokens, spans, index + 1, 5);
            let next = parse_factor(tokens, spans, index + 1);
            if next.result is Ok {
                lemma_tails_stay(
                    tokens,
                    spans,
                    binary_node(tokens, spans, index, left, next.result->Ok_0),
                    index + 1 + next.consumed,
                    6,
                );
            }
        }
    } else {
        if current(tokens, index) is Pow {
            lemma_rules_advance(tokens, spans, index + 1, 5);
            let next = parse_factor(tokens, spans, index + 1);
            if next.result is Ok {
                lemma_tails_stay(
                    tokens,
                    spans,
                    binary_node(tokens, spans, index, left, next.result->Ok_0),
                    index + 1 + next.consumed,
                    3,
                );
            }
        }
    }
}

/// Every rule fails with `InvalidSyntax` and nothing else.
pub proof fn lemma_rules_fail_with_syntax(
    tokens: Seq<TokenView>,
    spans: Seq<PosCtx>,
    index: nat,
    rank: nat,
)
    requires
        rank == 9 || rank == 7 || rank == 5 || rank == 4 || rank == 2,
    ensures
        rule(tokens, spans, index, rank).result matches Err(error) ==> error is InvalidSyntax,
    decreases remaining(tokens.len(), index), rank,
{
    if rank == 9 {
        if current(tokens, index) is Ident && current(tokens, index + 1) is Assign {
            lemma_rules_fail_with_syntax(tokens, spans, index + 2, 9);
        } else {
            lemma_rules_fail_with_syntax(tokens, spans, index, 7);
            let first = parse_term(tokens, spans, index);
            if first.result is Ok {
                lemma_tails_fail_with_syntax(
                    tokens,
                    spans,
                    first.result->Ok_0,
                    index + first.consumed,
                    8,
                );
            }
        }
    } else if rank == 7 {
        lemma_rules_fail_with_syntax(tokens, spans, index, 5);
        let first = parse_factor(tokens, spans, index);
        if first.result is Ok {
            lemma_tails_fail_with_syntax(
                tokens,
                spans,
                first.result->Ok_0,
                index + first.consumed,
                6,
            );
        }
    } else if rank == 5 {
        if is_additive(current(tokens, index)) {
            lemma_rules_fail_with_syntax(tokens, spans, index + 1, 5);
        } else {
            lemma_rules_fail_with_syntax(tokens, spans, index, 4);
        }
    } else if rank == 4 {
        lemma_rules_fail_with_syntax(tokens, spans, index, 2);
        let first = parse_atom(tokens, spans, index);
        if first.result is Ok {
            lemma_tails_fail_with_syntax(
                tokens,
                spans,
                first.result->Ok_0,
                index + first.consumed,
                3,
            );
        }
    } else {
        if current(tokens, index) is Lpar {
            lemma_rules_fail_with_syntax(tokens, spans, index + 1, 9);
        }
    }
}

/// Every rest of a chain fails with `InvalidSyntax` and nothing else.
pub proof fn lemma_tails_fail_with_syntax(
    tokens: Seq<TokenView>,
    spans: Seq<PosCtx>,
    left: AstView,
    index: nat,
    rank: nat,
)
    requires
        rank == 8 || rank == 6 || rank == 3,
    ensures
        rule_tail(tokens, spans, left, index, rank).result matches Err(error) ==> error
            is InvalidSyntax,
    decreases remaining(tokens.len(), index), rank,
{
    if rank == 8 {
        if is_additive(current(tokens, index)) {
            lemma_rules_fail_with_syntax(tokens, spans, index + 1, 7);
            let next = parse_term(tokens, spans, index + 1);
            if next.result is Ok {
                lemma_tails_fail_with_syntax(
                    tokens,
                    spans,
                    binary_node(tokens, spans, index, left, next.result->Ok_0),
                    index + 1 + next.consumed,
                    8,
                );
            }
        }
    } else if rank == 6 {
        if is_multiplicative(current(tokens, index)) {
            lemma_rules_fail_with_syntax(tokens, spans, index + 1, 5);
            let next = parse_factor(tokens, spans, index + 1);
            if next.result is Ok {
                lemma_tails_fail_with_syntax(
                    tokens,
                    spans,
                    binary_node(tokens, spans, index, left, next.result->Ok_0),
                    index + 1 + next.consumed,
                    6,
                );
            }
        }
    } else {
        if current(tokens, index) is Pow {
            lemma_rules_fail_with_syntax(tokens, spans, index + 1, 5);
            let next = parse_factor(tokens, spans, index + 1);
            if next.result is Ok {
                lemma_tails_fail_with_syntax(
                    tokens,
                    spans,
                    binary_node(tokens, spans, index, left, next.result->Ok_0),
                    index + 1 + next.consumed,
                    3,
                );
            }
        }
    }
}

} // verus!
