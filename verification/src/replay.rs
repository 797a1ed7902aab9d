//! Why evaluating a line again and again, with one more floating-point
//! result each time, comes to the value of the line.
//!
//! The arithmetic of the caller is taken as a function from tasks to
//! results. The value of a line under that function is stated without any
//! list of results ([`ideal`]). A list is faithful where every result that
//! an evaluation reads from it is the one of the task that it is read for.
//! The empty list is faithful; a faithful list stays so when the result of
//! the pending task is appended; an evaluation that ends with a faithful
//! list ends as the line does under the function; and a line needs no more
//! results than it has tasks. Every evaluation starts from the store as it
//! was before the line, so that nothing is bound twice.

use crate::ast::{ASTNode, AstView};
use crate::error::{Error, ErrorView};
use crate::float::{FloatOp, FloatResults, FloatTask, FloatTaskView};
use crate::interpreter::{
    access_result, binary_op, binary_result, evaluation, not_a_name, not_an_operator,
    number_result, result_view, unary_result, ComputationView, Interpreter, NumValue,
    NumValueView, Outcome, OutcomeView,
};
use crate::position::PosCtx;
use crate::symbol_table::StoreView;
use crate::theory::{
    divisors_are_nonzero, exact_value, is_integer_expression, theorem_head_assignments_wait,
    theorem_store_is_kept, value_span,
};
use crate::token::TokenView;
use vstd::prelude::*;

verus! {

/// What an operation comes to when `oracle` carries out its task.
pub open spec fn completed_by(
    computed: Result<ComputationView, ErrorView>,
    oracle: spec_fn(FloatTaskView) -> u64,
) -> Result<NumValueView, ErrorView> {
    match computed {
        Err(error) => Err(error),
        Ok(ComputationView::Ready { value }) => Ok(value),
        Ok(ComputationView::Deferred { task, ctx }) => Ok(
            NumValueView::Float { value: oracle(task), ctx },
        ),
    }
}

/// What a tree comes to, and the store that it leaves.
pub struct Ideal {
    pub result: Result<NumValueView, ErrorView>,
    pub store: StoreView,
}

/// The value of the tree `node` against `store`, and the store that it
/// leaves, with `oracle` for the floating-point arithmetic.
///
/// The store is handed on in the order of evaluation: the left operand, the
/// right operand, then the binding of an assignment.
pub open spec fn ideal(store: StoreView, node: AstView, oracle: spec_fn(FloatTaskView) -> u64)
    -> Ideal
    decreases node,
{
    match node {
        AstView::Number { token, posctx } => Ideal {
            result: completed_by(number_result(token, posctx), oracle),
            store,
        },
        AstView::BinOp { token, posctx, left, right } => {
            let l = ideal(store, *left, oracle);
            match l.result {
                Ok(left_value) => {
                    let r = ideal(l.store, *right, oracle);
                    match r.result {
                        Ok(right_value) => Ideal {
                            result: match binary_op(token) {
                                Some(op) => completed_by(
                                    binary_result(op, left_value, right_value),
                                    oracle,
                                ),
                                None => Err(not_an_operator(posctx)),
                            },
                            store: r.store,
                        },
                        Err(_) => r,
                    }
                },
                Err(_) => l,
            }
        },
        AstView::Unary { token, posctx, node } => {
            let operand = ideal(store, *node, oracle);
            match operand.result {
                Ok(value) => Ideal {
                    result: unary_result(token, posctx, value),
                    store: operand.store,
                },
                Err(_) => operand,
            }
        },
        AstView::Assign { token, posctx, value } => {
            let inner = ideal(store, *value, oracle);
            match inner.result {
                Ok(found) => match token {
                    TokenView::Ident { value: name } => Ideal {
                        result: inner.result,
                        store: inner.store.inserted(name, found),
                    },
                    _ => Ideal { result: Err(not_a_name(posctx)), store: inner.store },
                },
                Err(_) => inner,
            }
        },
        AstView::Access { token, posctx } => Ideal {
            result: access_result(store, token, posctx),
            store,
        },
    }
}

/// Whether the result that an operation reads at `used`, if it reads one, is
/// the one that `oracle` gives for its task.
pub open spec fn reads_faithfully(
    computed: Result<ComputationView, ErrorView>,
    values: Seq<u64>,
    used: nat,
    oracle: spec_fn(FloatTaskView) -> u64,
) -> bool {
    match computed {
        Ok(ComputationView::Deferred { task, .. }) => used < values.len() ==> values[used as int]
            == oracle(task),
        _ => true,
    }
}

/// Whether every result that the evaluation of `node` reads from `values`,
/// from `used` on, is the one that `oracle` gives for the task that it is
/// read for.
pub open spec fn faithful(
    store: StoreView,
    node: AstView,
    values: Seq<u64>,
    used: nat,
    oracle: spec_fn(FloatTaskView) -> u64,
) -> bool
    decreases node,
{
    match node {
        AstView::Number { token, posctx } => reads_faithfully(
            number_result(token, posctx),
            values,
            used,
            oracle,
        ),
        AstView::BinOp { token, posctx, left, right } => {
            let l = evaluation(store, *left, values, used);
            &&& faithful(store, *left, values, used, oracle)
            &&& l.outcome matches OutcomeView::Done { result: Ok(left_value) } ==> {
                let r = evaluation(l.store, *right, values, l.used);
                &&& faithful(l.store, *right, values, l.used, oracle)
                &&& r.outcome matches OutcomeView::Done { result: Ok(right_value) } ==> (binary_op(
                    token,
                ) matches Some(op) ==> reads_faithfully(
                    binary_result(op, left_value, right_value),
                    values,
                    r.used,
                    oracle,
                ))
            }
        },
        AstView::Unary { node, .. } => faithful(store, *node, values, used, oracle),
        AstView::Assign { value, .. } => faithful(store, *value, values, used, oracle),
        AstView::Access { .. } => true,
    }
}

/// The number of floating-point tasks that a tree can give rise to: one for
/// each float literal and one for each binary operation.
pub open spec fn tasks(node: AstView) -> nat
    decreases node,
{
    match node {
        AstView::Number { token, .. } => if token is Float {
            1
        } else {
            0
        },
        AstView::BinOp { left, right, .. } => tasks(*left) + tasks(*right) + 1,
        AstView::Unary { node, .. } => tasks(*node),
        AstView::Assign { value, .. } => tasks(*value),
        AstView::Access { .. } => 0,
    }
}

/// An evaluation that starts behind the last result reads none, and any list
/// is faithful from there on.
pub proof fn lemma_nothing_left(
    store: StoreView,
    node: AstView,
    values: Seq<u64>,
    used: nat,
    oracle: spec_fn(FloatTaskView) -> u64,
)
    requires
        used >= values.len(),
    ensures
        evaluation(store, node, values, used).used == used,
        faithful(store, node, values, used, oracle),
    decreases node,
{
    match node {
        AstView::BinOp { token, posctx, left, right } => {
            lemma_nothing_left(store, *left, values, used, oracle);
            let l = evaluation(store, *left, values, used);
            lemma_nothing_left(l.store, *right, values, used, oracle);
        },
        AstView::Unary { token, posctx, node } => {
            lemma_nothing_left(store, *node, values, used, oracle);
        },
        AstView::Assign { token, posctx, value } => {
            lemma_nothing_left(store, *value, values, used, oracle);
        },
        _ => {},
    }
}

/// An evaluation reads the results one by one and none behind the last; it
/// reads no more of them than the tree has tasks; and where it stops at a
/// pending task it has read them all, and fewer than the tree has tasks.
pub proof fn lemma_reads_within(store: StoreView, node: AstView, values: Seq<u64>, used: nat)
    requires
        used <= values.len(),
    ensures
        used <= evaluation(store, node, values, used).used <= values.len(),
        evaluation(store, node, values, used).used - used <= tasks(node),
        evaluation(store, node, values, used).outcome is Pending ==> {
            &&& evaluation(store, node, values, used).used == values.len()
            &&& values.len() - used < tasks(node)
        },
    decreases node,
{
    match node {
        AstView::BinOp { token, posctx, left, right } => {
            lemma_reads_within(store, *left, values, used);
            let l = evaluation(store, *left, values, used);
            lemma_reads_within(l.store, *right, values, l.used);
        },
        AstView::Unary { token, posctx, node } => {
            lemma_reads_within(store, *node, values, used);
        },
        AstView::Assign { token, posctx, value } => {
            lemma_reads_within(store, *value, values, used);
        },
        _ => {},
    }
}

/// An evaluation that ends does not change when a result is appended to the
/// list, and a faithful list stays faithful.
pub proof fn lemma_done_is_stable(
    store: StoreView,
    node: AstView,
    values: Seq<u64>,
    used: nat,
    more: u64,
    oracle: spec_fn(FloatTaskView) -> u64,
)
    requires
        used <= values.len(),
        evaluation(store, node, values, used).outcome is Done,
    ensures
        evaluation(store, node, values.push(more), used) == evaluation(store, node, values, used),
        faithful(store, node, values, used, oracle) ==> faithful(
            store,
            node,
            values.push(more),
            used,
            oracle,
        ),
    decreases node,
{
    match node {
        AstView::BinOp { token, posctx, left, right } => {
            let l = evaluation(store, *left, values, used);
            lemma_reads_within(store, *left, values, used);
            lemma_done_is_stable(store, *left, values, used, more, oracle);
            if l.outcome matches OutcomeView::Done { result: Ok(_) } {
                lemma_reads_within(l.store, *right, values, l.used);
                lemma_done_is_stable(l.store, *right, values, l.used, more, oracle);
            }
        },
        AstView::Unary { token, posctx, node } => {
            lemma_done_is_stable(store, *node, values, used, more, oracle);
        },
        AstView::Assign { token, posctx, value } => {
            lemma_done_is_stable(store, *value, values, used, more, oracle);
        },
        _ => {},
    }
}

/// Where an evaluation stops at a pending task, the next evaluation reads
/// the result that was appended, and a faithful list with the result of the
/// pending task appended is faithful.
pub proof fn lemma_supply_resumes(
    store: StoreView,
    node: AstView,
    values: Seq<u64>,
    used: nat,
    more: u64,
    oracle: spec_fn(FloatTaskView) -> u64,
)
    requires
        used <= values.len(),
        evaluation(store, node, values, used).outcome is Pending,
    ensures
        evaluation(store, node, values.push(more), used).used == values.len() + 1,
        faithful(store, node, values, used, oracle) && more == oracle(
            evaluation(store, node, values, used).outcome->task,
        ) ==> faithful(store, node, values.push(more), used, oracle),
    decreases node,
{
    let longer = values.push(more);
    match node {
        AstView::BinOp { token, posctx, left, right } => {
            let l = evaluation(store, *left, values, used);
            lemma_reads_within(store, *left, values, used);
            if l.outcome is Pending {
                lemma_supply_resumes(store, *left, values, used, more, oracle);
                let l2 = evaluation(store, *left, longer, used);
                lemma_nothing_left(l2.store, *right, longer, l2.used, oracle);
            } else {
                lemma_done_is_stable(store, *left, values, used, more, oracle);
                let r = evaluation(l.store, *right, values, l.used);
                lemma_reads_within(l.store, *right, values, l.used);
                if r.outcome is Pending {
                    lemma_supply_resumes(l.store, *right, values, l.used, more, oracle);
                } else {
                    lemma_done_is_stable(l.store, *right, values, l.used, more, oracle);
                }
            }
        },
        AstView::Unary { token, posctx, node } => {
            lemma_supply_resumes(store, *node, values, used, more, oracle);
        },
        AstView::Assign { token, posctx, value } => {
            lemma_supply_resumes(store, *value, values, used, more, oracle);
        },
        _ => {},
    }
}

/// An evaluation that ends with a faithful list ends as the tree does under
/// the oracle, and leaves the store that the tree leaves.
pub proof fn lemma_faithful_is_ideal(
    store: StoreView,
    node: AstView,
    values: Seq<u64>,
    used: nat,
    oracle: spec_fn(FloatTaskView) -> u64,
)
    requires
        faithful(store, node, values, used, oracle),
    ensures
        evaluation(store, node, values, used).outcome matches OutcomeView::Done { result } ==> {
            &&& result == ideal(store, node, oracle).result
            &&& evaluation(store, node, values, used).store == ideal(store, node, oracle).store
        },
    decreases node,
{
    match node {
        AstView::BinOp { token, posctx, left, right } => {
            lemma_faithful_is_ideal(store, *left, values, used, oracle);
            let l = evaluation(store, *left, values, used);
            if l.outcome matches OutcomeView::Done { result: Ok(_) } {
                lemma_faithful_is_ideal(l.store, *right, values, l.used, oracle);
            }
        },
        AstView::Unary { token, posctx, node } => {
            lemma_faithful_is_ideal(store, *node, values, used, oracle);
        },
        AstView::Assign { token, posctx, value } => {
            lemma_faithful_is_ideal(store, *value, values, used, oracle);
        },
        _ => {},
    }
}

/// The empty list of results is faithful for every tree.
pub proof fn theorem_empty_is_faithful(
    store: StoreView,
    node: AstView,
    oracle: spec_fn(FloatTaskView) -> u64,
)
    ensures
        faithful(store, node, Seq::<u64>::empty(), 0, oracle),
{
    lemma_nothing_left(store, node, Seq::<u64>::empty(), 0, oracle);
}

/// Where the evaluation of a tree stops at a pending task, it has read every
/// result of the list, and the list is shorter than the tree has tasks. With
/// the result of the pending task appended, a faithful list is faithful, and
/// the next evaluation from the same store reads the appended result.
pub proof fn theorem_supplying_resumes(
    store: StoreView,
    node: AstView,
    values: Seq<u64>,
    more: u64,
    oracle: spec_fn(FloatTaskView) -> u64,
)
    requires
        evaluation(store, node, values, 0).outcome is Pending,
    ensures
        evaluation(store, node, values, 0).used == values.len(),
        values.len() < tasks(node),
        evaluation(store, node, values.push(more), 0).used == values.len() + 1,
        faithful(store, node, values, 0, oracle) && more == oracle(
            evaluation(store, node, values, 0).outcome->task,
        ) ==> faithful(store, node, values.push(more), 0, oracle),
{
    lemma_reads_within(store, node, values, 0);
    lemma_supply_resumes(store, node, values, 0, more, oracle);
}

/// Where the evaluation of a tree ends with a faithful list of results, it
/// ends with the value or the error of the tree under the oracle, and leaves
/// the store that the tree leaves.
pub proof fn theorem_faithful_evaluation_is_ideal(
    store: StoreView,
    node: AstView,
    values: Seq<u64>,
    oracle: spec_fn(FloatTaskView) -> u64,
)
    requires
        faithful(store, node, values, 0, oracle),
    ensures
        evaluation(store, node, values, 0).outcome matches OutcomeView::Done { result } ==> {
            &&& result == ideal(store, node, oracle).result
            &&& evaluation(store, node, values, 0).store == ideal(store, node, oracle).store
        },
{
    lemma_faithful_is_ideal(store, node, values, 0, oracle);
}

/// A list of as many results as the tree has tasks is enough: with it, the
/// evaluation ends.
pub proof fn theorem_enough_results_end(store: StoreView, node: AstView, values: Seq<u64>)
    requires
        values.len() >= tasks(node),
    ensures
        evaluation(store, node, values, 0).outcome is Done,
{
    lemma_reads_within(store, node, values, 0);
}

/// Under any arithmetic on floats, an integer expression without a zero
/// divisor comes to the integer that it denotes in exact arithmetic, and
/// leaves the store alone.
pub proof fn theorem_integer_lines_are_exact(
    store: StoreView,
    node: AstView,
    oracle: spec_fn(FloatTaskView) -> u64,
)
    requires
        is_integer_expression(node),
        divisors_are_nonzero(node),
    ensures
        ideal(store, node, oracle) == (Ideal {
            result: Ok(NumValueView::BigInt { value: exact_value(node), ctx: value_span(node) }),
            store,
        }),
    decreases node,
{
    match node {
        AstView::BinOp { token, posctx, left, right } => {
            theorem_integer_lines_are_exact(store, *left, oracle);
            theorem_integer_lines_are_exact(store, *right, oracle);
        },
        AstView::Unary { token, posctx, node } => {
            theorem_integer_lines_are_exact(store, *node, oracle);
        },
        _ => {},
    }
}

/// Under any arithmetic on floats, a tree without an assignment in it leaves
/// the store as it found it.
pub proof fn theorem_ideal_store_is_kept(
    store: StoreView,
    node: AstView,
    oracle: spec_fn(FloatTaskView) -> u64,
)
    requires
        node.has_no_assignment(),
    ensures
        ideal(store, node, oracle).store == store,
    decreases node,
{
    match node {
        AstView::BinOp { token, posctx, left, right } => {
            theorem_ideal_store_is_kept(store, *left, oracle);
            theorem_ideal_store_is_kept(store, *right, oracle);
        },
        AstView::Unary { token, posctx, node } => {
            theorem_ideal_store_is_kept(store, *node, oracle);
        },
        _ => {},
    }
}

/// Under any arithmetic on floats, a power that comes to a value comes to a
/// float: the one that the arithmetic gives for the two operands.
pub proof fn theorem_powers_are_floats(
    store: StoreView,
    posctx: PosCtx,
    left: AstView,
    right: AstView,
    oracle: spec_fn(FloatTaskView) -> u64,
)
    ensures
        ({
            let power = AstView::BinOp {
                token: TokenView::Pow,
                posctx,
                left: Box::new(left),
                right: Box::new(right),
            };
            let l = ideal(store, left, oracle);
            ideal(store, power, oracle).result matches Ok(value) ==> {
                &&& l.result matches Ok(base)
                &&& ideal(l.store, right, oracle).result matches Ok(exponent)
                &&& value == (NumValueView::Float {
                    value: oracle(
                        FloatTaskView::Binary {
                            op: FloatOp::Pow,
                            left: base.operand(),
                            right: exponent.operand(),
                        },
                    ),
                    ctx: base.ctx().merged(exponent.ctx()),
                })
            }
        }),
{
}

/// Whether `unit` carries out every task as `oracle` does.
pub open spec fn computes<F: Fn(&FloatTask) -> u64>(
    unit: F,
    oracle: spec_fn(FloatTaskView) -> u64,
) -> bool {
    forall|task: &FloatTask, bits: u64| #[trigger]
        call_ensures(unit, (task,), bits) ==> bits == oracle(task@)
}

/// Whether the evaluation of `node` against `store` with the results
/// `values` ends with `result` and leaves `left`, with no more results than
/// the tree has tasks.
pub open spec fn ends_with(
    store: StoreView,
    node: AstView,
    values: Seq<u64>,
    result: Result<NumValueView, ErrorView>,
    left: StoreView,
) -> bool {
    &&& values.len() <= tasks(node)
    &&& evaluation(store, node, values, 0).outcome == (OutcomeView::Done { result })
    &&& evaluation(store, node, values, 0).store == left
}

impl Interpreter {
    /// Evaluates the tree `node`, with `unit` for the floating-point
    /// arithmetic: the tree is evaluated again and again, each time from the
    /// store as it was and with the result of one more task, until the
    /// evaluation ends. The store is copied for that only where an operand
    /// assigns.
    ///
    /// Whatever `unit` returns, the result and the store are those of one
    /// evaluation with some list of results, and a tree without an
    /// assignment leaves the store as it found it. Where `unit` carries out
    /// every task as some function of the task does, the result and the
    /// store are those of the tree under that function.
    pub fn evaluate_with<F: Fn(&FloatTask) -> u64>(&mut self, node: &ASTNode, unit: &F) -> (r:
        Result<NumValue, Box<Error>>)
        requires
            forall|task: &FloatTask| call_requires(*unit, (task,)),
        ensures
            exists|values: Seq<u64>| #[trigger]
                ends_with(old(self).st@, node@, values, result_view(r), final(self).st@),
            node@.has_no_assignment() ==> final(self).st@ == old(self).st@,
            forall|oracle: spec_fn(FloatTaskView) -> u64|
                computes(*unit, oracle) ==> {
                    &&& result_view(r) == (#[trigger] ideal(old(self).st@, node@, oracle)).result
                    &&& final(self).st@ == ideal(old(self).st@, node@, oracle).store
                },
    {
        let ghost store = self.st@;
        let saved = if node.assigns_at_the_head_only() {
            None
        } else {
            Some(self.st.clone())
        };
        let mut results = FloatResults::new();
        proof {
            assert forall|oracle: spec_fn(FloatTaskView) -> u64|
                computes(*unit, oracle) implies faithful(
                store,
                node@,
                results.values@,
                0,
                oracle,
            ) by {
                theorem_empty_is_faithful(store, node@, oracle);
            }
        }
        loop
            invariant
                self.st@ == store,
                match saved {
                    Some(before) => before@ == store,
                    None => node@.assigns_at_the_head_only(),
                },
                store == old(self).st@,
                results.wf(),
                results.used == 0,
                results.values.len() <= tasks(node@),
                forall|task: &FloatTask| call_requires(*unit, (task,)),
                forall|oracle: spec_fn(FloatTaskView) -> u64|
                    computes(*unit, oracle) ==> faithful(
                        store,
                        node@,
                        results.values@,
                        0,
                        oracle,
                    ),
            decreases tasks(node@) - results.values.len(),
        {
            let ghost values = results.values@;
            match self.evaluate(node, &mut results) {
                Outcome::Done { result } => {
                    proof {
                        assert(ends_with(store, node@, values, result_view(result), self.st@));
                        if node@.has_no_assignment() {
                            theorem_store_is_kept(store, node@, values, 0);
                        }
                        assert forall|oracle: spec_fn(FloatTaskView) -> u64|
                            computes(*unit, oracle) implies {
                            &&& result_view(result) == (#[trigger] ideal(
                                store,
                                node@,
                                oracle,
                            )).result
                            &&& self.st@ == ideal(store, node@, oracle).store
                        } by {
                            theorem_faithful_evaluation_is_ideal(store, node@, values, oracle);
                        }
                    }
                    return result;
                },
                Outcome::Pending { task } => {
                    let bits = unit(&task);
                    proof {
                        theorem_supplying_resumes(store, node@, values, bits, |t: FloatTaskView| 0);
                        assert forall|oracle: spec_fn(FloatTaskView) -> u64|
                            computes(*unit, oracle) implies faithful(
                            store,
                            node@,
                            values.push(bits),
                            0,
                            oracle,
                        ) by {
                            theorem_supplying_resumes(store, node@, values, bits, oracle);
                        }
                    }
                    results.supply(bits);
                    match &saved {
                        Some(before) => {
                            self.st = before.clone();
                        },
                        None => {
                            proof {
                                theorem_head_assignments_wait(store, node@, values, 0);
                            }
                        },
                    }
                },
            }
        }
    }
}

} // verus!
