//! A line from its text to its value: lexing, parsing and evaluation in turn.

use crate::ast::AstView;
use crate::error::{Error, ErrorView};
use crate::float::{FloatTask, FloatTaskView};
use crate::interpreter::{
    evaluation, result_view, Evaluation, Interpreter, NumValue, NumValueView, OutcomeView,
};
use crate::lexer::{lemma_lex_fails_with_illegal_char, lemma_lex_is_line, lex, Lexer};
use crate::parser::{
    lemma_parse_expr_advances, lemma_parse_fails_with_syntax, parse_expr, Parser,
};
use crate::position::Position;
use crate::replay::{computes, ends_with, ideal, theorem_ideal_store_is_kept, Ideal};
use crate::symbol_table::{StoreView, SymbolTable};
use crate::theory::{
    theorem_head_assignments_wait, theorem_store_is_kept, theorem_well_formed_trees_match,
};
use vstd::prelude::*;

verus! {

/// The position at the start of `text`, which goes by the name `fd`.
pub open spec fn start_of(fd: String, text: String) -> Position {
    Position { idx: 0, col: 0, row: 0, fd, text, len: (text@.len() + 1) as usize }
}

/// What a line ends with, and the store that it leaves.
pub open spec fn stopped(error: ErrorView, used: nat, store: StoreView) -> Evaluation {
    Evaluation { outcome: OutcomeView::Done { result: Err(error) }, used, store }
}

/// The tree of the line at `origin`, or the error of the first stage that
/// fails: the lexer before the parser.
pub open spec fn tree_of(origin: Position) -> Result<AstView, ErrorView> {
    match lex(origin, 0) {
        Err(error) => Err(error),
        Ok(lexed) => parse_expr(lexed.tokens, lexed.spans, 1).result,
    }
}

/// What one evaluation of the line at `origin` comes to against `store`,
/// with the floating-point results `values`.
///
/// A line that has no tree ends with the error of the stage that failed and
/// leaves the store alone. Otherwise the line comes to what the evaluation
/// of its tree comes to.
pub open spec fn line_outcome(origin: Position, store: StoreView, values: Seq<u64>, used: nat)
    -> Evaluation {
    match tree_of(origin) {
        Err(error) => stopped(error, used, store),
        Ok(node) => evaluation(store, node, values, used),
    }
}

/// What the line at `origin` comes to against `store`, and the store that it
/// leaves, with `oracle` for the floating-point arithmetic.
pub open spec fn line_ideal(
    origin: Position,
    store: StoreView,
    oracle: spec_fn(FloatTaskView) -> u64,
) -> Ideal {
    match tree_of(origin) {
        Err(error) => Ideal { result: Err(error), store },
        Ok(node) => ideal(store, node, oracle),
    }
}

/// Whether one evaluation of the line at `origin` with the results `values`
/// ends with `result` and leaves the store `left`.
pub open spec fn line_ends_with(
    origin: Position,
    store: StoreView,
    values: Seq<u64>,
    result: Result<NumValueView, ErrorView>,
    left: StoreView,
) -> bool {
    &&& line_outcome(origin, store, values, 0).outcome == (OutcomeView::Done { result })
    &&& line_outcome(origin, store, values, 0).store == left
}

/// An evaluator with an empty store of one frame.
pub fn init() -> (r: Interpreter)
    ensures
        r.st@ == (StoreView { frame: Map::<Seq<char>, NumValueView>::empty(), parent: None }),
{
    Interpreter { st: SymbolTable::new() }
}

/// Runs the line `text` of the source `f` through the three stages, against
/// the store of `interpreter` and with `unit` for the floating-point
/// arithmetic.
///
/// Whatever `unit` returns, the result and the store are those of one
/// evaluation of the line with some list of results, and a line without an
/// assignment leaves the store as it found it. Where `unit` carries out
/// every task as some function of the task does, the result and the store
/// are those of the line under that function, so that two runs of one line
/// against the same store agree.
pub fn run<F: Fn(&FloatTask) -> u64>(
    f: String,
    text: String,
    interpreter: &mut Interpreter,
    unit: &F,
) -> (r: Result<NumValue, Box<Error>>)
    requires
        text@.len() < usize::MAX,
        forall|task: &FloatTask| call_requires(*unit, (task,)),
    ensures
        exists|values: Seq<u64>| #[trigger]
            line_ends_with(
                start_of(f, text),
                old(interpreter).st@,
                values,
                result_view(r),
                final(interpreter).st@,
            ),
        (tree_of(start_of(f, text)) matches Ok(node) ==> node.has_no_assignment())
            ==> final(interpreter).st@ == old(interpreter).st@,
        forall|oracle: spec_fn(FloatTaskView) -> u64|
            computes(*unit, oracle) ==> {
                &&& result_view(r) == (#[trigger] line_ideal(
                    start_of(f, text),
                    old(interpreter).st@,
                    oracle,
                )).result
                &&& final(interpreter).st@ == line_ideal(
                    start_of(f, text),
                    old(interpreter).st@,
                    oracle,
                ).store
            },
{
    let ghost origin = start_of(f, text);
    let ghost store = interpreter.st@;
    let mut lexer = Lexer::new(f, text);
    match lexer.make_tokens() {
        Ok((tokens, posctxs)) => {
            let mut parsor = Parser { tokens: &tokens, posctxs: &posctxs, index: 0 };
            match parsor.parse() {
                Ok(node) => {
                    let r = interpreter.evaluate_with(&node, unit);
                    proof {
                        let values = choose|values: Seq<u64>| #[trigger]
                            ends_with(store, node@, values, result_view(r), interpreter.st@);
                        assert(line_ends_with(
                            origin,
                            store,
                            values,
                            result_view(r),
                            interpreter.st@,
                        ));
                    }
                    r
                },
                Err(error) => {
                    assert(line_ends_with(
                        origin,
                        store,
                        Seq::<u64>::empty(),
                        Err(error@),
                        interpreter.st@,
                    ));
                    Err(error)
                },
            }
        },
        Err(error) => {
            assert(line_ends_with(
                origin,
                store,
                Seq::<u64>::empty(),
                Err(error@),
                interpreter.st@,
            ));
            Err(error)
        },
    }
}

/// The tree of a line is well formed.
pub proof fn theorem_line_trees_are_well_formed(origin: Position)
    ensures
        tree_of(origin) matches Ok(node) ==> node.well_formed(),
        tree_of(origin) matches Err(error) ==> error is IllegalChar || error is InvalidSyntax,
{
    lemma_lex_is_line(origin, 0);
    lemma_lex_fails_with_illegal_char(origin, 0);
    if let Ok(lexed) = lex(origin, 0) {
        lemma_parse_expr_advances(lexed.tokens, lexed.spans, 1);
        lemma_parse_fails_with_syntax(lexed.tokens, lexed.spans, 1);
    }
}

/// The evaluation of a line meets no mismatch of token and node: a line
/// fails with an illegal character, a syntax error, a zero divisor or an
/// undefined name.
pub proof fn theorem_lines_match(origin: Position, store: StoreView, values: Seq<u64>, used: nat)
    ensures
        line_outcome(origin, store, values, used).outcome matches OutcomeView::Done {
            result: Err(error),
        } ==> error !is TokenNotMatch,
{
    theorem_line_trees_are_well_formed(origin);
    if let Ok(node) = tree_of(origin) {
        theorem_well_formed_trees_match(store, node, values, used);
    }
}

/// A line of which no operand is an assignment binds nothing before its
/// value is known: where it fails or stops at a pending task, it leaves the
/// store as it found it.
pub proof fn theorem_plain_lines_bind_last(
    origin: Position,
    store: StoreView,
    values: Seq<u64>,
    used: nat,
)
    requires
        tree_of(origin) matches Ok(node) ==> node.assigns_at_the_head_only(),
    ensures
        !(line_outcome(origin, store, values, used).outcome matches OutcomeView::Done {
            result: Ok(_),
        }) ==> line_outcome(origin, store, values, used).store == store,
{
    theorem_line_trees_are_well_formed(origin);
    if let Ok(node) = tree_of(origin) {
        theorem_head_assignments_wait(store, node, values, used);
    }
}

/// A line without an assignment leaves the store as it found it, so that
/// running it again comes to the same outcome: no state of the lexer or of
/// the parser outlives a run, and nothing but the text, the store and the
/// floating-point arithmetic bears on it.
pub proof fn theorem_lines_without_assignment_repeat(
    origin: Position,
    store: StoreView,
    values: Seq<u64>,
    used: nat,
    oracle: spec_fn(FloatTaskView) -> u64,
)
    requires
        tree_of(origin) matches Ok(node) ==> node.has_no_assignment(),
    ensures
        line_outcome(origin, store, values, used).store == store,
        line_outcome(origin, line_outcome(origin, store, values, used).store, values, used)
            == line_outcome(origin, store, values, used),
        line_ideal(origin, store, oracle).store == store,
        line_ideal(origin, line_ideal(origin, store, oracle).store, oracle) == line_ideal(
            origin,
            store,
            oracle,
        ),
{
    if let Ok(node) = tree_of(origin) {
        theorem_store_is_kept(store, node, values, used);
        theorem_ideal_store_is_kept(store, node, oracle);
    }
}

/// A line that left the store as it found it comes to the same outcome when
/// it is evaluated again with the same floating-point results.
pub proof fn theorem_lines_repeat(origin: Position, store: StoreView, values: Seq<u64>, used: nat)
    requires
        line_outcome(origin, store, values, used).store == store,
    ensures
        line_outcome(origin, line_outcome(origin, store, values, used).store, values, used)
            == line_outcome(origin, store, values, used),
{
}

} // verus!
