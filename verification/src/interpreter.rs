//! Values, their arithmetic, and the evaluator.
//!
//! Integer arithmetic is exact and done here. Arithmetic on floats is not:
//! an operation that involves a float yields a [`Computation::Deferred`],
//! which names the [`FloatTask`] to carry out and the span that its result
//! will carry.
//!
//! The evaluator takes the results of such tasks from a [`FloatResults`], in
//! the order in which the tasks arise while it walks the tree. Where the list
//! ends before the walk does, the evaluation stops with
//! [`Outcome::Pending`]: the caller carries out the task, supplies its result
//! and evaluates the same tree again, from the store as it was before.
//! `Interpreter::evaluate_with` does so with a function of the caller for the
//! arithmetic.
//!
//! An assignment is an expression like any other: it can stand as an operand,
//! and what it binds is seen by what is evaluated after it.

use crate::ast::{ASTNode, AstView};
use crate::error::{Error, ErrorView};
use crate::float::{
    bits_are_zero, is_zero_bits, negate_bits, negated_bits, FloatOp, FloatResults, FloatTask,
    FloatTaskView, Operand, OperandView,
};
use crate::integer::{
    difference, negation, product, quotient, sum, truncated_quotient, Integer,
};
use crate::position::PosCtx;
use crate::symbol_table::{StoreView, SymbolTable};
use crate::token::{Token, TokenView};
use vstd::prelude::*;

verus! {

/// A value of the language: an integer of any size or the bit pattern of a
/// 64-bit float, with the span of the source that it came from.
#[derive(Debug)]
#[allow(inconsistent_fields)]
pub enum NumValue {
    BigInt { value: Integer, ctx: Box<PosCtx> },
    Float { value: u64, ctx: Box<PosCtx> },
}

/// The model of a [`NumValue`].
#[allow(inconsistent_fields)]
pub enum NumValueView {
    BigInt { value: int, ctx: PosCtx },
    Float { value: u64, ctx: PosCtx },
}

impl View for NumValue {
    type V = NumValueView;

    open spec fn view(&self) -> NumValueView {
        match self {
            NumValue::BigInt { value, ctx } => NumValueView::BigInt { value: value@, ctx: **ctx },
            NumValue::Float { value, ctx } => NumValueView::Float { value: *value, ctx: **ctx },
        }
    }
}

/// What an operation on values comes to: a value, or a floating-point task
/// whose result, once the caller has it, is the float of the value.
#[derive(Debug)]
pub enum Computation {
    Ready { value: NumValue },
    Deferred { task: FloatTask, ctx: Box<PosCtx> },
}

/// The model of a [`Computation`].
pub enum ComputationView {
    Ready { value: NumValueView },
    Deferred { task: FloatTaskView, ctx: PosCtx },
}

impl View for Computation {
    type V = ComputationView;

    open spec fn view(&self) -> ComputationView {
        match self {
            Computation::Ready { value } => ComputationView::Ready { value: value@ },
            Computation::Deferred { task, ctx } => ComputationView::Deferred {
                task: task@,
                ctx: **ctx,
            },
        }
    }
}

/// The model of the result of an operation.
pub open spec fn computed_view(r: Result<Computation, Box<Error>>) -> Result<
    ComputationView,
    ErrorView,
> {
    match r {
        Ok(c) => Ok(c@),
        Err(e) => Err(e@),
    }
}

/// The model of the result of an evaluation.
pub open spec fn result_view(r: Result<NumValue, Box<Error>>) -> Result<NumValueView, ErrorView> {
    match r {
        Ok(v) => Ok(v@),
        Err(e) => Err(e@),
    }
}

impl NumValueView {
    /// The span of the value.
    pub open spec fn ctx(self) -> PosCtx {
        match self {
            NumValueView::BigInt { ctx, .. } => ctx,
            NumValueView::Float { ctx, .. } => ctx,
        }
    }

    /// The value as an operand of a floating-point operation.
    pub open spec fn operand(self) -> OperandView {
        match self {
            NumValueView::BigInt { value, .. } => OperandView::Int { value },
            NumValueView::Float { value, .. } => OperandView::Float { value },
        }
    }

    /// Whether the value is zero of its own kind: the integer zero, or a
    /// float zero of either sign.
    pub open spec fn is_zero(self) -> bool {
        match self {
            NumValueView::BigInt { value, .. } => value == 0,
            NumValueView::Float { value, .. } => is_zero_bits(value),
        }
    }

    /// The negated value, of the same kind and with the same span.
    pub open spec fn negated(self) -> NumValueView {
        match self {
            NumValueView::BigInt { value, ctx } => NumValueView::BigInt { value: -value, ctx },
            NumValueView::Float { value, ctx } => NumValueView::Float {
                value: negated_bits(value),
                ctx,
            },
        }
    }
}

/// The exact result of `op` on two integers; a power has none.
pub open spec fn integer_result(op: FloatOp, a: int, b: int) -> int {
    match op {
        FloatOp::Add => a + b,
        FloatOp::Sub => a - b,
        FloatOp::Mul => a * b,
        FloatOp::Div => truncated_quotient(a, b),
        FloatOp::Pow => 0,
    }
}

/// What `op` comes to on `left` and `right`.
///
/// The span of the outcome reaches from the start of `left` to the end of
/// `right`. A division by a zero of either kind is an error. Two integers
/// give an integer, exactly, unless `op` is the power. Everything else is a
/// floating-point task on the two operands.
pub open spec fn binary_result(op: FloatOp, left: NumValueView, right: NumValueView) -> Result<
    ComputationView,
    ErrorView,
> {
    let ctx = left.ctx().merged(right.ctx());
    if op == FloatOp::Div && right.is_zero() {
        Err(ErrorView::DivdedByZero { ctx, detail: "Divided by zero"@ })
    } else {
        match (left, right) {
            (NumValueView::BigInt { value: a, .. }, NumValueView::BigInt { value: b, .. }) if op
                != FloatOp::Pow => Ok(
                ComputationView::Ready {
                    value: NumValueView::BigInt { value: integer_result(op, a, b), ctx },
                },
            ),
            _ => Ok(
                ComputationView::Deferred {
                    task: FloatTaskView::Binary {
                        op,
                        left: left.operand(),
                        right: right.operand(),
                    },
                    ctx,
                },
            ),
        }
    }
}

impl NumValue {
    /// The span of the value.
    pub fn ctx(&self) -> (r: &Box<PosCtx>)
        ensures
            **r == self@.ctx(),
    {
        match self {
            NumValue::BigInt { ctx, .. } => ctx,
            NumValue::Float { ctx, .. } => ctx,
        }
    }

    /// The value as an operand of a floating-point operation.
    pub fn operand(&self) -> (r: Operand)
        ensures
            r@ == self@.operand(),
    {
        match self {
            NumValue::BigInt { value, .. } => Operand::Int { value: value.clone() },
            NumValue::Float { value, .. } => Operand::Float { value: *value },
        }
    }

    /// The floating-point task of `op` on `self` and `num_value`.
    fn deferred(&self, op: FloatOp, num_value: &NumValue) -> (r: Computation)
        ensures
            r@ == (ComputationView::Deferred {
                task: FloatTaskView::Binary {
                    op,
                    left: self@.operand(),
                    right: num_value@.operand(),
                },
                ctx: self@.ctx().merged(num_value@.ctx()),
            }),
    {
        Computation::Deferred {
            task: FloatTask::Binary { op, left: self.operand(), right: num_value.operand() },
            ctx: self.ctx().merge(num_value.ctx()),
        }
    }

    /// `self + num_value`.
    pub fn added_by(&self, num_value: &NumValue) -> (r: Result<Computation, Box<Error>>)
        ensures
            computed_view(r) == binary_result(FloatOp::Add, self@, num_value@),
    {
        match self {
            NumValue::BigInt { value, ctx } => {
                let lvalue = value;
                let lctx = ctx;
                match num_value {
                    NumValue::BigInt { value, ctx } => {
                        let ctx = lctx.merge(ctx);
                        Ok(
                            Computation::Ready {
                                value: NumValue::BigInt { value: sum(lvalue, value), ctx },
                            },
                        )
                    },
                    NumValue::Float { .. } => Ok(self.deferred(FloatOp::Add, num_value)),
                }
            },
            NumValue::Float { .. } => Ok(self.deferred(FloatOp::Add, num_value)),
        }
    }

    /// `self - num_value`.
    pub fn subed_by(&self, num_value: &NumValue) -> (r: Result<Computation, Box<Error>>)
        ensures
            computed_view(r) == binary_result(FloatOp::Sub, self@, num_value@),
    {
        match self {
            NumValue::BigInt { value, ctx } => {
                let lvalue = value;
                let lctx = ctx;
                match num_value {
                    NumValue::BigInt { value, ctx } => {
                        let ctx = lctx.merge(ctx);
                        Ok(
                            Computation::Ready {
                                value: NumValue::BigInt { value: difference(lvalue, value), ctx },
                            },
                        )
                    },
                    NumValue::Float { .. } => Ok(self.deferred(FloatOp::Sub, num_value)),
                }
            },
            NumValue::Float { .. } => Ok(self.deferred(FloatOp::Sub, num_value)),
        }
    }

    /// `self / num_value`. The divisor is tested for zero as it stands, an
    /// integer as an integer and a float as a float, before anything is
    /// converted.
    pub fn divded_by(&self, num_value: &NumValue) -> (r: Result<Computation, Box<Error>>)
        ensures
            computed_view(r) == binary_result(FloatOp::Div, self@, num_value@),
            r is Err <==> num_value@.is_zero(),
    {
        match self {
            NumValue::BigInt { value, ctx } => {
                let lvalue = value;
                let lctx = ctx;
                match num_value {
                    NumValue::BigInt { value, ctx } => {
                        let ctx = lctx.merge(ctx);
                        if !value.is_zero() {
                            Ok(
                                Computation::Ready {
                                    value: NumValue::BigInt { value: quotient(lvalue, value), ctx },
                                },
                            )
                        } else {
                            Err(Error::divided_by_zero(ctx, "Divided by zero"))
                        }
                    },
                    NumValue::Float { value, ctx } => {
                        if !bits_are_zero(*value) {
                            Ok(self.deferred(FloatOp::Div, num_value))
                        } else {
                            Err(Error::divided_by_zero(lctx.merge(ctx), "Divided by zero"))
                        }
                    },
                }
            },
            NumValue::Float { value: _, ctx } => {
                let lctx = ctx;
                match num_value {
                    NumValue::BigInt { value, ctx } => {
                        if !value.is_zero() {
                            Ok(self.deferred(FloatOp::Div, num_value))
                        } else {
                            Err(Error::divided_by_zero(lctx.merge(ctx), "Divided by zero"))
                        }
                    },
                    NumValue::Float { value, ctx } => {
                        if !bits_are_zero(*value) {
                            Ok(self.deferred(FloatOp::Div, num_value))
                        } else {
                            Err(Error::divided_by_zero(lctx.merge(ctx), "Divided by zero"))
                        }
                    },
                }
            },
        }
    }

    /// `self * num_value`.
    pub fn multed_by(&self, num_value: &NumValue) -> (r: Result<Computation, Box<Error>>)
        ensures
            computed_view(r) == binary_result(FloatOp::Mul, self@, num_value@),
    {
        match self {
            NumValue::BigInt { value, ctx } => {
                let lvalue = value;
                let lctx = ctx;
                match num_value {
                    NumValue::BigInt { value, ctx } => {
                        let ctx = lctx.merge(ctx);
                        Ok(
                            Computation::Ready {
                                value: NumValue::BigInt { value: product(lvalue, value), ctx },
                            },
                        )
                    },
                    NumValue::Float { .. } => Ok(self.deferred(FloatOp::Mul, num_value)),
                }
            },
            NumValue::Float { .. } => Ok(self.deferred(FloatOp::Mul, num_value)),
        }
    }

    /// `self ** num_value`: a float, whatever the kinds of the operands.
    pub fn powed_by(&self, num_value: &NumValue) -> (r: Result<Computation, Box<Error>>)
        ensures
            computed_view(r) == binary_result(FloatOp::Pow, self@, num_value@),
            r matches Ok(c) && c is Deferred,
    {
        Ok(self.deferred(FloatOp::Pow, num_value))
    }

    /// `-self`, of the kind of `self` and with its span.
    pub fn inverse(&self) -> (r: Result<NumValue, Box<Error>>)
        ensures
            result_view(r) == Ok::<NumValueView, ErrorView>(self@.negated()),
    {
        match self {
            NumValue::BigInt { value, ctx } => Ok(
                NumValue::BigInt { value: negation(value), ctx: ctx.clone() },
            ),
            NumValue::Float { value, ctx } => Ok(
                NumValue::Float { value: negate_bits(*value), ctx: ctx.clone() },
            ),
        }
    }
}

impl Clone for NumValue {
    fn clone(&self) -> (r: Self)
        ensures
            r@ == self@,
    {
        match self {
            NumValue::BigInt { value, ctx } => NumValue::BigInt {
                value: value.clone(),
                ctx: ctx.clone(),
            },
            NumValue::Float { value, ctx } => NumValue::Float { value: *value, ctx: ctx.clone() },
        }
    }
}

impl Computation {
    /// The value that the computation stands for, given the result `bits` of
    /// its task where it has one.
    pub open spec fn completed(c: ComputationView, bits: u64) -> NumValueView {
        match c {
            ComputationView::Ready { value } => value,
            ComputationView::Deferred { ctx, .. } => NumValueView::Float { value: bits, ctx },
        }
    }

    /// Turns the computation into its value: the value that is ready, or the
    /// float with the pattern `bits` and the span of the deferred task.
    pub fn complete(self, bits: u64) -> (r: NumValue)
        ensures
            r@ == Self::completed(self@, bits),
    {
        match self {
            Computation::Ready { value } => value,
            Computation::Deferred { ctx, .. } => NumValue::Float { value: bits, ctx },
        }
    }
}

/// How an evaluation ended: with a value or an error, or at a floating-point
/// task whose result it lacks.
#[derive(Debug)]
pub enum Outcome {
    Done { result: Result<NumValue, Box<Error>> },
    Pending { task: FloatTask },
}

/// The model of an [`Outcome`].
pub enum OutcomeView {
    Done { result: Result<NumValueView, ErrorView> },
    Pending { task: FloatTaskView },
}

impl View for Outcome {
    type V = OutcomeView;

    open spec fn view(&self) -> OutcomeView {
        match self {
            Outcome::Done { result } => OutcomeView::Done { result: result_view(*result) },
            Outcome::Pending { task } => OutcomeView::Pending { task: task@ },
        }
    }
}

/// An outcome, with the number of floating-point results read on the way.
pub struct Evaluated {
    pub outcome: OutcomeView,
    pub used: nat,
}

/// An outcome of the evaluation of a tree: the results read, and the store
/// that the evaluation leaves.
pub struct Evaluation {
    pub outcome: OutcomeView,
    pub used: nat,
    pub store: StoreView,
}

/// The evaluation that ends with the error `error` and has read `used`
/// results.
pub open spec fn failed(error: ErrorView, used: nat) -> Evaluated {
    Evaluated { outcome: OutcomeView::Done { result: Err(error) }, used }
}

/// The outcome `evaluated`, with the store `store` left behind.
pub open spec fn leaving(evaluated: Evaluated, store: StoreView) -> Evaluation {
    Evaluation { outcome: evaluated.outcome, used: evaluated.used, store }
}

/// The mismatch of a binary node whose token is no operator.
pub open spec fn not_an_operator(posctx: PosCtx) -> ErrorView {
    ErrorView::TokenNotMatch { ctx: posctx, detail: "Expect '+', '-', '*', '/', '**'"@ }
}

/// The mismatch of an assignment or an access whose token is no name.
pub open spec fn not_a_name(posctx: PosCtx) -> ErrorView {
    ErrorView::TokenNotMatch { ctx: posctx, detail: "Expect 'Ident'"@ }
}

/// Turns what an operation came to into an outcome.
///
/// A value and an error stand as they are. A deferred task takes the next of
/// the results `values`, behind the `used` that were read before: that result
/// is the float of the value. Where there is no further result, the task is
/// pending.
pub open spec fn settled(computed: Result<ComputationView, ErrorView>, values: Seq<u64>, used: nat)
    -> Evaluated {
    match computed {
        Err(error) => failed(error, used),
        Ok(ComputationView::Ready { value }) => Evaluated {
            outcome: OutcomeView::Done { result: Ok(value) },
            used,
        },
        Ok(ComputationView::Deferred { task, ctx }) => if used < values.len() {
            Evaluated {
                outcome: OutcomeView::Done {
                    result: Ok(NumValueView::Float { value: values[used as int], ctx }),
                },
                used: used + 1,
            }
        } else {
            Evaluated { outcome: OutcomeView::Pending { task }, used }
        },
    }
}

/// What a literal comes to: an integer as it stands, a float as the task of
/// reading its text. Any other token is a mismatch.
pub open spec fn number_result(token: TokenView, posctx: PosCtx) -> Result<
    ComputationView,
    ErrorView,
> {
    match token {
        TokenView::Int { value } => Ok(
            ComputationView::Ready { value: NumValueView::BigInt { value, ctx: posctx } },
        ),
        TokenView::Float { value } => Ok(
            ComputationView::Deferred {
                task: FloatTaskView::Literal { text: value },
                ctx: posctx,
            },
        ),
        _ => Err(ErrorView::TokenNotMatch { ctx: posctx, detail: "Expect 'Int', 'Float'"@ }),
    }
}

/// The value of the variable that `token` names: the value that the store
/// holds for it, with the span that it was stored with.
pub open spec fn access_result(store: StoreView, token: TokenView, posctx: PosCtx) -> Result<
    NumValueView,
    ErrorView,
> {
    match token {
        TokenView::Ident { value } => match store.lookup(value) {
            Some(found) => Ok(found),
            None => Err(
                ErrorView::UndefinedVariable {
                    ctx: posctx,
                    detail: "Undefined variable "@ + value,
                },
            ),
        },
        _ => Err(not_a_name(posctx)),
    }
}

/// The operation that an operator token stands for.
pub open spec fn binary_op(token: TokenView) -> Option<FloatOp> {
    match token {
        TokenView::Plus => Some(FloatOp::Add),
        TokenView::Minus => Some(FloatOp::Sub),
        TokenView::Mul => Some(FloatOp::Mul),
        TokenView::Div => Some(FloatOp::Div),
        TokenView::Pow => Some(FloatOp::Pow),
        _ => None,
    }
}

/// The value of a sign applied to `value`: `+` keeps it, `-` negates it. Any
/// other token is a mismatch at `posctx`.
pub open spec fn unary_result(token: TokenView, posctx: PosCtx, value: NumValueView) -> Result<
    NumValueView,
    ErrorView,
> {
    match token {
        TokenView::Plus => Ok(value),
        TokenView::Minus => Ok(value.negated()),
        _ => Err(ErrorView::TokenNotMatch { ctx: posctx, detail: "Expect '+', '-'"@ }),
    }
}

/// The evaluation of the tree `node` against `store`, with the results
/// `values` of its floating-point tasks, of which `used` were read before.
///
/// The store is handed on from node to node in the order of evaluation, so
/// that what an assignment binds is seen by everything that is evaluated
/// after it, whether the evaluation ends with a value, fails or stops at a
/// pending task.
pub open spec fn evaluation(store: StoreView, node: AstView, values: Seq<u64>, used: nat)
    -> Evaluation
    decreases node.size(), 1nat,
{
    match node {
        AstView::Number { token, posctx } => leaving(
            settled(number_result(token, posctx), values, used),
            store,
        ),
        AstView::BinOp { token, posctx, left, right } => binop_value(
            store,
            token,
            posctx,
            *left,
            *right,
            values,
            used,
        ),
        AstView::Unary { token, posctx, node } => unary_value(
            store,
            token,
            posctx,
            *node,
            values,
            used,
        ),
        AstView::Assign { token, posctx, value } => assign_value(
            store,
            token,
            posctx,
            *value,
            values,
            used,
        ),
        AstView::Access { token, posctx } => Evaluation {
            outcome: OutcomeView::Done { result: access_result(store, token, posctx) },
            used,
            store,
        },
    }
}

/// The evaluation of a binary operation.
///
/// The left operand is evaluated first, then the right one against the store
/// that the left one leaves; the first that does not come to a value ends
/// the evaluation. Then the operator is applied, and a token that is no
/// operator is a mismatch at `posctx`.
pub open spec fn binop_value(
    store: StoreView,
    token: TokenView,
    posctx: PosCtx,
    left: AstView,
    right: AstView,
    values: Seq<u64>,
    used: nat,
) -> Evaluation
    decreases left.size() + right.size() + 1, 0nat,
{
    let l = evaluation(store, left, values, used);
    match l.outcome {
        OutcomeView::Done { result: Ok(left_value) } => {
            let r = evaluation(l.store, right, values, l.used);
            match r.outcome {
                OutcomeView::Done { result: Ok(right_value) } => match binary_op(token) {
                    Some(op) => leaving(
                        settled(binary_result(op, left_value, right_value), values, r.used),
                        r.store,
                    ),
                    None => leaving(failed(not_an_operator(posctx), r.used), r.store),
                },
                _ => r,
            }
        },
        _ => l,
    }
}

/// The evaluation of a sign in front of an operand: the operand is
/// evaluated, then the sign is applied.
pub open spec fn unary_value(
    store: StoreView,
    token: TokenView,
    posctx: PosCtx,
    node: AstView,
    values: Seq<u64>,
    used: nat,
) -> Evaluation
    decreases node.size() + 1, 0nat,
{
    let operand = evaluation(store, node, values, used);
    match operand.outcome {
        OutcomeView::Done { result: Ok(value) } => Evaluation {
            outcome: OutcomeView::Done { result: unary_result(token, posctx, value) },
            used: operand.used,
            store: operand.store,
        },
        _ => operand,
    }
}

/// The evaluation of an assignment.
///
/// The value is evaluated first. Where it comes to a value, the name is
/// bound to it in the innermost frame, and the assignment comes to that
/// value; a token that is no name is a mismatch at `posctx`.
pub open spec fn assign_value(
    store: StoreView,
    token: TokenView,
    posctx: PosCtx,
    value: AstView,
    values: Seq<u64>,
    used: nat,
) -> Evaluation
    decreases value.size() + 1, 0nat,
{
    let inner = evaluation(store, value, values, used);
    match inner.outcome {
        OutcomeView::Done { result: Ok(found) } => match token {
            TokenView::Ident { value: name } => Evaluation {
                outcome: inner.outcome,
                used: inner.used,
                store: inner.store.inserted(name, found),
            },
            _ => leaving(failed(not_a_name(posctx), inner.used), inner.store),
        },
        _ => inner,
    }
}

/// The evaluator, with the variable store that it reads and writes.
#[derive(Debug)]
pub struct Interpreter {
    pub st: SymbolTable,
}

/// Turns what an operation came to into an outcome, reading the next
/// floating-point result where the operation was deferred.
pub fn settle(computed: Result<Computation, Box<Error>>, results: &mut FloatResults) -> (r: Outcome)
    requires
        old(results).wf(),
    ensures
        final(results).wf(),
        final(results).values == old(results).values,
        (Evaluated { outcome: r@, used: final(results).used as nat }) == settled(
            computed_view(computed),
            old(results).values@,
            old(results).used as nat,
        ),
{
    match computed {
        Err(error) => Outcome::Done { result: Err(error) },
        Ok(Computation::Ready { value }) => Outcome::Done { result: Ok(value) },
        Ok(Computation::Deferred { task, ctx }) => match results.take() {
            Some(bits) => Outcome::Done { result: Ok(NumValue::Float { value: bits, ctx }) },
            None => Outcome::Pending { task },
        },
    }
}

impl Interpreter {
    /// What a call leaves behind: the outcome `r`, the number of results
    /// read and the store.
    pub open spec fn left_behind(&self, r: Outcome, results: FloatResults) -> Evaluation {
        Evaluation { outcome: r@, used: results.used as nat, store: self.st@ }
    }

    /// Evaluates a literal.
    pub fn visit_number(&self, token: &Token, posctx: &PosCtx, results: &mut FloatResults) -> (r:
        Outcome)
        requires
            old(results).wf(),
        ensures
            final(results).wf(),
            final(results).values == old(results).values,
            (Evaluated { outcome: r@, used: final(results).used as nat }) == settled(
                number_result(token@, *posctx),
                old(results).values@,
                old(results).used as nat,
            ),
    {
        let computed = match token {
            Token::Int { value } => Ok(
                Computation::Ready {
                    value: NumValue::BigInt { value: value.clone(), ctx: Box::new(posctx.clone()) },
                },
            ),
            Token::Float { value } => Ok(
                Computation::Deferred {
                    task: FloatTask::Literal { text: value.clone() },
                    ctx: Box::new(posctx.clone()),
                },
            ),
            _ => Err(Error::token_not_match(Box::new(posctx.clone()), "Expect 'Int', 'Float'")),
        };
        settle(computed, results)
    }

    /// Evaluates a binary operation: the left operand, the right operand,
    /// then the operator on the two values. What the operands assign is
    /// bound in the store.
    pub fn visit_binop(
        &mut self,
        token: &Token,
        posctx: &PosCtx,
        left: &ASTNode,
        right: &ASTNode,
        results: &mut FloatResults,
    ) -> (r: Outcome)
        requires
            old(results).wf(),
        ensures
            final(results).wf(),
            final(results).values == old(results).values,
            final(self).left_behind(r, *final(results)) == binop_value(
                old(self).st@,
                token@,
                *posctx,
                left@,
                right@,
                old(results).values@,
                old(results).used as nat,
            ),
        decreases left@.size() + right@.size() + 1, 0nat,
    {
        let left_value = match self.evaluate(left, results) {
            Outcome::Done { result: Ok(value) } => value,
            other => {
                return other;
            },
        };
        let right_value = match self.evaluate(right, results) {
            Outcome::Done { result: Ok(value) } => value,
            other => {
                return other;
            },
        };
        let computed = match token {
            Token::Plus => left_value.added_by(&right_value),
            Token::Minus => left_value.subed_by(&right_value),
            Token::Mul => left_value.multed_by(&right_value),
            Token::Div => left_value.divded_by(&right_value),
            Token::Pow => left_value.powed_by(&right_value),
            _ => Err(
                Error::token_not_match(
                    Box::new(posctx.clone()),
                    "Expect '+', '-', '*', '/', '**'",
                ),
            ),
        };
        settle(computed, results)
    }

    /// Evaluates a sign in front of an operand. What the operand assigns is
    /// bound in the store.
    pub fn visit_unary(
        &mut self,
        token: &Token,
        posctx: &PosCtx,
        node: &ASTNode,
        results: &mut FloatResults,
    ) -> (r: Outcome)
        requires
            old(results).wf(),
        ensures
            final(results).wf(),
            final(results).values == old(results).values,
            final(self).left_behind(r, *final(results)) == unary_value(
                old(self).st@,
                token@,
                *posctx,
                node@,
                old(results).values@,
                old(results).used as nat,
            ),
        decreases node@.size() + 1, 0nat,
    {
        let cur_value = match self.evaluate(node, results) {
            Outcome::Done { result: Ok(value) } => value,
            other => {
                return other;
            },
        };
        let result = match token {
            Token::Plus => Ok(cur_value),
            Token::Minus => cur_value.inverse(),
            _ => Err(Error::token_not_match(Box::new(posctx.clone()), "Expect '+', '-'")),
        };
        Outcome::Done { result }
    }

    /// Reads the variable that `token` names, from the innermost frame that
    /// holds it.
    pub fn visit_access(&self, token: &Token, posctx: &PosCtx) -> (r: Result<
        NumValue,
        Box<Error>,
    >)
        ensures
            result_view(r) == access_result(self.st@, token@, *posctx),
    {
        match token {
            Token::Ident { value } => match self.st.get(value.as_str()) {
                Some(found) => Ok(found.clone()),
                None => {
                    let mut detail = "Undefined variable ".to_owned();
                    detail.append(value.as_str());
                    Err(
                        Box::new(
                            Error::UndefinedVariable { ctx: Box::new(posctx.clone()), detail },
                        ),
                    )
                },
            },
            _ => Err(Error::token_not_match(Box::new(posctx.clone()), "Expect 'Ident'")),
        }
    }

    /// Evaluates an assignment: the value first, then the binding of the
    /// name in the innermost frame. The assignment comes to its value.
    pub fn visit_assign(
        &mut self,
        token: &Token,
        posctx: &PosCtx,
        value: &ASTNode,
        results: &mut FloatResults,
    ) -> (r: Outcome)
        requires
            old(results).wf(),
        ensures
            final(results).wf(),
            final(results).values == old(results).values,
            final(self).left_behind(r, *final(results)) == assign_value(
                old(self).st@,
                token@,
                *posctx,
                value@,
                old(results).values@,
                old(results).used as nat,
            ),
        decreases value@.size() + 1, 0nat,
    {
        let v = match self.evaluate(value, results) {
            Outcome::Done { result: Ok(v) } => v,
            other => {
                return other;
            },
        };
        match token {
            Token::Ident { value } => {
                self.st.insert(value.clone(), v.clone());
                Outcome::Done { result: Ok(v) }
            },
            _ => Outcome::Done {
                result: Err(Error::token_not_match(Box::new(posctx.clone()), "Expect 'Ident'")),
            },
        }
    }

    /// Evaluates the tree `node` once.
    ///
    /// The results of the floating-point tasks of the tree are read from
    /// `results`, from its mark on. Where they do not reach, the outcome is
    /// the pending task, and the store holds what was assigned before the
    /// task arose: the next evaluation of the tree has to start from the
    /// store as it was before this one, as `evaluate_with` does.
    pub fn evaluate(&mut self, node: &ASTNode, results: &mut FloatResults) -> (r: Outcome)
        requires
            old(results).wf(),
        ensures
            final(results).wf(),
            final(results).values == old(results).values,
            final(self).left_behind(r, *final(results)) == evaluation(
                old(self).st@,
                node@,
                old(results).values@,
                old(results).used as nat,
            ),
        decreases node@.size(), 1nat,
    {
        match node {
            ASTNode::Number { token, posctx } => self.visit_number(token, posctx, results),
            ASTNode::BinOp { token, posctx, left, right } => self.visit_binop(
                token,
                posctx,
                left,
                right,
                results,
            ),
            ASTNode::Unary { token, posctx, node } => self.visit_unary(
                token,
                posctx,
                node,
                results,
            ),
            ASTNode::Assign { token, posctx, value } => self.visit_assign(
                token,
                posctx,
                value,
                results,
            ),
            ASTNode::Access { token, posctx } => Outcome::Done {
                result: self.visit_access(token, posctx),
            },
        }
    }
}

} // verus!
