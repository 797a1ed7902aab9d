//! What holds of the arithmetic and of the evaluator, for every input.

use crate::ast::AstView;
use crate::error::ErrorView;
use crate::float::{FloatOp, FloatTaskView};
use crate::integer::truncated_quotient;
use crate::interpreter::{
    access_result, binary_result, evaluation, ComputationView, Evaluation, NumValueView,
    OutcomeView,
};
use crate::position::PosCtx;
use crate::symbol_table::StoreView;
use crate::token::TokenView;
use vstd::prelude::*;

verus! {

/// Whether `node` is built of integer literals, the four operators `+`, `-`,
/// `*`, `/` and signs alone.
pub open spec fn is_integer_expression(node: AstView) -> bool
    decreases node,
{
    match node {
        AstView::Number { token, .. } => token is Int,
        AstView::BinOp { token, left, right, .. } => {
            &&& token is Plus || token is Minus || token is Mul || token is Div
            &&& is_integer_expression(*left)
            &&& is_integer_expression(*right)
        },
        AstView::Unary { token, node, .. } => {
            &&& token is Plus || token is Minus
            &&& is_integer_expression(*node)
        },
        _ => false,
    }
}

/// The number that an integer expression denotes in exact arithmetic, with
/// quotients rounded towards zero.
pub open spec fn exact_value(node: AstView) -> int
    decreases node,
{
    match node {
        AstView::Number { token: TokenView::Int { value }, .. } => value,
        AstView::BinOp { token, left, right, .. } => match token {
            TokenView::Plus => exact_value(*left) + exact_value(*right),
            TokenView::Minus => exact_value(*left) - exact_value(*right),
            TokenView::Mul => exact_value(*left) * exact_value(*right),
            TokenView::Div => truncated_quotient(exact_value(*left), exact_value(*right)),
            _ => 0,
        },
        AstView::Unary { token, node, .. } => if token is Minus {
            -exact_value(*node)
        } else {
            exact_value(*node)
        },
        _ => 0,
    }
}

/// Whether no divisor in an integer expression denotes zero.
pub open spec fn divisors_are_nonzero(node: AstView) -> bool
    decreases node,
{
    match node {
        AstView::BinOp { token, left, right, .. } => {
            &&& divisors_are_nonzero(*left)
            &&& divisors_are_nonzero(*right)
            &&& token is Div ==> exact_value(*right) != 0
        },
        AstView::Unary { node, .. } => divisors_are_nonzero(*node),
        _ => true,
    }
}

/// The span of the value of an expression: that of a literal, from the left
/// operand to the right one for an operator, that of the operand for a sign.
pub open spec fn value_span(node: AstView) -> PosCtx
    decreases node,
{
    match node {
        AstView::Number { posctx, .. } => posctx,
        AstView::BinOp { left, right, .. } => value_span(*left).merged(value_span(*right)),
        AstView::Unary { node, .. } => value_span(*node),
        AstView::Assign { value, .. } => value_span(*value),
        AstView::Access { posctx, .. } => posctx,
    }
}

/// The outcome that is the integer `value` with the span `ctx`.
pub open spec fn integer_outcome(value: int, ctx: PosCtx) -> OutcomeView {
    OutcomeView::Done { result: Ok(NumValueView::BigInt { value, ctx }) }
}

/// An integer expression without a zero divisor evaluates to the integer
/// that it denotes in exact arithmetic, whatever the store holds; it reads
/// no floating-point result and leaves the store alone.
pub proof fn theorem_integer_expressions_are_exact(
    store: StoreView,
    node: AstView,
    values: Seq<u64>,
    used: nat,
)
    requires
        is_integer_expression(node),
        divisors_are_nonzero(node),
    ensures
        evaluation(store, node, values, used) == (Evaluation {
            outcome: integer_outcome(exact_value(node), value_span(node)),
            used,
            store,
        }),
    decreases node,
{
    match node {
        AstView::BinOp { token, posctx, left, right } => {
            theorem_integer_expressions_are_exact(store, *left, values, used);
            theorem_integer_expressions_are_exact(store, *right, values, used);
        },
        AstView::Unary { token, posctx, node } => {
            theorem_integer_expressions_are_exact(store, *node, values, used);
        },
        _ => {},
    }
}

/// A power is a floating-point task, whatever the kinds of its operands, so
/// a power that comes to a value comes to a float.
pub proof fn theorem_power_is_float(left: NumValueView, right: NumValueView)
    ensures
        binary_result(FloatOp::Pow, left, right) matches Ok(ComputationView::Deferred { task, ctx })
            && task == (FloatTaskView::Binary {
            op: FloatOp::Pow,
            left: left.operand(),
            right: right.operand(),
        }) && ctx == left.ctx().merged(right.ctx()),
{
}

/// An operation with a float among its operands is a floating-point task,
/// unless it is a division by zero.
pub proof fn theorem_mixed_kinds_promote(op: FloatOp, left: NumValueView, right: NumValueView)
    requires
        left is Float || right is Float,
        !(op == FloatOp::Div && right.is_zero()),
    ensures
        binary_result(op, left, right) matches Ok(ComputationView::Deferred { task, ctx }) && task
            == (FloatTaskView::Binary { op, left: left.operand(), right: right.operand() }),
{
}

/// Only a division fails, and it fails exactly when its right operand is
/// zero of its own kind; the error spans both operands.
pub proof fn theorem_division_by_zero(op: FloatOp, left: NumValueView, right: NumValueView)
    ensures
        binary_result(op, left, right) is Err <==> op == FloatOp::Div && right.is_zero(),
        binary_result(op, left, right) matches Err(error) ==> error is DivdedByZero && error.ctx()
            == left.ctx().merged(right.ctx()),
{
}

/// An assignment is an expression: where its value comes to a value, the
/// assignment comes to the same value, and it binds its name to it, so that
/// a later access to the name comes to that value too.
pub proof fn theorem_assignment_persists(
    store: StoreView,
    name: Seq<char>,
    posctx: PosCtx,
    value: AstView,
    values: Seq<u64>,
    used: nat,
    access: PosCtx,
)
    ensures
        ({
            let line = AstView::Assign {
                token: TokenView::Ident { value: name },
                posctx,
                value: Box::new(value),
            };
            let inner = evaluation(store, value, values, used);
            let first = evaluation(store, line, values, used);
            inner.outcome matches OutcomeView::Done { result: Ok(found) } ==> {
                &&& first.outcome == inner.outcome
                &&& first.used == inner.used
                &&& first.store == inner.store.inserted(name, found)
                &&& first.store.lookup(name) == Some(found)
                &&& access_result(first.store, TokenView::Ident { value: name }, access) == Ok::<
                    NumValueView,
                    ErrorView,
                >(found)
            }
        }),
{
}

/// An assignment can stand as an operand: the right operand of an operator
/// is evaluated against the store that the left one leaves, and what either
/// of them binds stays bound when the operation has come to its value.
pub proof fn theorem_operands_can_assign(
    store: StoreView,
    token: TokenView,
    posctx: PosCtx,
    left: AstView,
    right: AstView,
    values: Seq<u64>,
    used: nat,
)
    ensures
        ({
            let node = AstView::BinOp {
                token,
                posctx,
                left: Box::new(left),
                right: Box::new(right),
            };
            let l = evaluation(store, left, values, used);
            let r = evaluation(l.store, right, values, l.used);
            let both = l.outcome matches OutcomeView::Done { result: Ok(_) }
                && r.outcome matches OutcomeView::Done { result: Ok(_) };
            both ==> evaluation(store, node, values, used).store == r.store
        }),
{
}

/// Reading a name that no frame holds fails with `UndefinedVariable` at the
/// span of the access.
pub proof fn theorem_undefined_access_fails(store: StoreView, name: Seq<char>, posctx: PosCtx)
    requires
        store.lookup(name) is None,
    ensures
        access_result(store, TokenView::Ident { value: name }, posctx) matches Err(error) && error
            is UndefinedVariable && error.ctx() == posctx,
{
}

/// A tree without an assignment in it leaves the store as it found it.
pub proof fn theorem_store_is_kept(store: StoreView, node: AstView, values: Seq<u64>, used: nat)
    requires
        node.has_no_assignment(),
    ensures
        evaluation(store, node, values, used).store == store,
    decreases node,
{
    match node {
        AstView::BinOp { token, posctx, left, right } => {
            theorem_store_is_kept(store, *left, values, used);
            let l = evaluation(store, *left, values, used);
            theorem_store_is_kept(store, *right, values, l.used);
        },
        AstView::Unary { token, posctx, node } => {
            theorem_store_is_kept(store, *node, values, used);
        },
        _ => {},
    }
}

/// A line of which no operand is an assignment binds nothing before its
/// value is known: where it stops at a pending task, it leaves the store as
/// it found it, and so it does where it fails, if it is well formed.
pub proof fn theorem_head_assignments_wait(
    store: StoreView,
    node: AstView,
    values: Seq<u64>,
    used: nat,
)
    requires
        node.assigns_at_the_head_only(),
    ensures
        evaluation(store, node, values, used).outcome is Pending ==> evaluation(
            store,
            node,
            values,
            used,
        ).store == store,
        node.well_formed() && !(evaluation(
            store,
            node,
            values,
            used,
        ).outcome matches OutcomeView::Done { result: Ok(_) }) ==> evaluation(
            store,
            node,
            values,
            used,
        ).store == store,
    decreases node,
{
    match node {
        AstView::Assign { token, posctx, value } => {
            theorem_head_assignments_wait(store, *value, values, used);
        },
        _ => {
            theorem_store_is_kept(store, node, values, used);
        },
    }
}

/// The evaluation of a well-formed tree meets no mismatch of token and node:
/// where it fails, a divisor is zero or a name is undefined.
pub proof fn theorem_well_formed_trees_match(
    store: StoreView,
    node: AstView,
    values: Seq<u64>,
    used: nat,
)
    requires
        node.well_formed(),
    ensures
        evaluation(store, node, values, used).outcome matches OutcomeView::Done {
            result: Err(error),
        } ==> error is DivdedByZero || error is UndefinedVariable,
    decreases node,
{
    match node {
        AstView::BinOp { token, posctx, left, right } => {
            theorem_well_formed_trees_match(store, *left, values, used);
            let l = evaluation(store, *left, values, used);
            theorem_well_formed_trees_match(l.store, *right, values, l.used);
        },
        AstView::Unary { token, posctx, node } => {
            theorem_well_formed_trees_match(store, *node, values, used);
        },
        AstView::Assign { token, posctx, value } => {
            theorem_well_formed_trees_match(store, *value, values, used);
        },
        _ => {},
    }
}

/// A line that left the store as it found it comes to the same outcome when
/// it is evaluated again: nothing but the store, the tree and the
/// floating-point results bears on an evaluation.
pub proof fn theorem_evaluation_repeats(
    store: StoreView,
    node: AstView,
    values: Seq<u64>,
    used: nat,
)
    requires
        evaluation(store, node, values, used).store == store,
    ensures
        evaluation(evaluation(store, node, values, used).store, node, values, used) == evaluation(
            store,
            node,
            values,
            used,
        ),
{
}

} // verus!
