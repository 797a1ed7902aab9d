use num_bigint::BigInt;
use pust::ast::ASTNode;
use pust::basic::init;
use pust::error::Error;
use pust::float::{FloatResults, FloatTask};
use pust::integer::Integer;
use pust::interpreter::{Interpreter, NumValue, Outcome};
use pust::position::{PosCtx, Position};
use pust::symbol_table::SymbolTable;
use pust::token::Token;

fn position(idx: usize) -> Box<Position> {
    Box::new(Position {
        idx,
        col: idx as u128,
        row: 0,
        fd: "line".to_string(),
        text: "0123456789".to_string(),
        len: 11,
    })
}

fn span(from: usize, to: usize) -> PosCtx {
    PosCtx { pos_start: position(from), pos_end: position(to) }
}

fn integer(n: i64) -> Integer {
    Integer::from_signed_bytes_le(BigInt::from(n).to_signed_bytes_le())
}

fn number(n: i64, from: usize, to: usize) -> ASTNode {
    ASTNode::Number {
        token: Box::new(Token::Int { value: integer(n) }),
        posctx: Box::new(span(from, to)),
    }
}

fn literal(text: &str, from: usize, to: usize) -> ASTNode {
    ASTNode::Number {
        token: Box::new(Token::Float { value: text.to_string() }),
        posctx: Box::new(span(from, to)),
    }
}

fn access(name: &str, from: usize, to: usize) -> ASTNode {
    ASTNode::Access {
        token: Box::new(Token::Ident { value: name.to_string() }),
        posctx: Box::new(span(from, to)),
    }
}

fn assign(name: &str, value: ASTNode) -> ASTNode {
    ASTNode::Assign {
        token: Box::new(Token::Ident { value: name.to_string() }),
        posctx: Box::new(span(0, 9)),
        value: Box::new(value),
    }
}

fn done(outcome: Outcome) -> Result<NumValue, Box<Error>> {
    match outcome {
        Outcome::Done { result } => result,
        other => panic!("{:?}", other),
    }
}

fn as_int(value: NumValue) -> (BigInt, (usize, usize)) {
    match value {
        NumValue::BigInt { value, ctx } => {
            (BigInt::from_signed_bytes_le(&value.bytes), (ctx.pos_start.idx, ctx.pos_end.idx))
        }
        other => panic!("{:?}", other),
    }
}

fn as_float(value: NumValue) -> (f64, (usize, usize)) {
    match value {
        NumValue::Float { value, ctx } => {
            (f64::from_bits(value), (ctx.pos_start.idx, ctx.pos_end.idx))
        }
        other => panic!("{:?}", other),
    }
}

fn mismatch_at(result: Result<NumValue, Box<Error>>, detail: &str) -> (usize, usize) {
    match *result.unwrap_err() {
        Error::TokenNotMatch { ctx, detail: found } => {
            assert_eq!(found, detail);
            (ctx.pos_start.idx, ctx.pos_end.idx)
        }
        other => panic!("{:?}", other),
    }
}

fn results_of(values: &[f64]) -> FloatResults {
    let mut results = FloatResults::new();
    for value in values {
        results.supply(value.to_bits());
    }
    results
}

#[test]
fn visit_number_takes_integers_as_they_stand() {
    let interpreter = init();
    let mut results = FloatResults::new();
    let outcome =
        interpreter.visit_number(&Token::Int { value: integer(42) }, &span(1, 3), &mut results);
    assert_eq!(as_int(done(outcome).unwrap()), (BigInt::from(42), (1, 3)));
    assert_eq!(results.used, 0);
}

#[test]
fn visit_number_reads_a_result_for_a_float() {
    let interpreter = init();
    let token = Token::Float { value: "2.5".to_string() };
    let mut results = FloatResults::new();
    match interpreter.visit_number(&token, &span(1, 4), &mut results) {
        Outcome::Pending { task: FloatTask::Literal { text } } => assert_eq!(text, "2.5"),
        other => panic!("{:?}", other),
    }
    let mut results = results_of(&[2.5, 9.0]);
    let outcome = interpreter.visit_number(&token, &span(1, 4), &mut results);
    assert_eq!(as_float(done(outcome).unwrap()), (2.5, (1, 4)));
    assert_eq!(results.used, 1);
}

#[test]
fn visit_number_rejects_other_tokens() {
    let interpreter = init();
    let mut results = FloatResults::new();
    let outcome = interpreter.visit_number(&Token::Plus, &span(1, 2), &mut results);
    assert_eq!(mismatch_at(done(outcome), "Expect 'Int', 'Float'"), (1, 2));
}

#[test]
fn visit_binop_applies_each_operator() {
    let mut interpreter = init();
    let cases = [(Token::Plus, 9), (Token::Minus, 5), (Token::Mul, 14), (Token::Div, 3)];
    for (token, expected) in cases.iter() {
        let mut results = FloatResults::new();
        let outcome = interpreter.visit_binop(
            token,
            &span(2, 3),
            &number(7, 0, 1),
            &number(2, 4, 5),
            &mut results,
        );
        assert_eq!(as_int(done(outcome).unwrap()), (BigInt::from(*expected), (0, 5)));
    }
    let mut results = results_of(&[49.0]);
    let outcome = interpreter.visit_binop(
        &Token::Pow,
        &span(2, 4),
        &number(7, 0, 1),
        &number(2, 5, 6),
        &mut results,
    );
    assert_eq!(as_float(done(outcome).unwrap()), (49.0, (0, 6)));
}

#[test]
fn visit_binop_reads_results_from_left_to_right() {
    let mut interpreter = init();
    let left = literal("1.5", 0, 3);
    let right = literal("2.5", 6, 9);
    let mut results = results_of(&[1.5, 2.5, 4.0]);
    let outcome = interpreter.visit_binop(&Token::Plus, &span(4, 5), &left, &right, &mut results);
    assert_eq!(as_float(done(outcome).unwrap()), (4.0, (0, 9)));
    assert_eq!(results.used, 3);
    let mut results = results_of(&[1.5]);
    match interpreter.visit_binop(&Token::Plus, &span(4, 5), &left, &right, &mut results) {
        Outcome::Pending { task: FloatTask::Literal { text } } => assert_eq!(text, "2.5"),
        other => panic!("{:?}", other),
    }
    assert_eq!(results.used, 1);
    let mut results = results_of(&[1.5, 2.5]);
    match interpreter.visit_binop(&Token::Plus, &span(4, 5), &left, &right, &mut results) {
        Outcome::Pending { task: FloatTask::Binary { .. } } => {}
        other => panic!("{:?}", other),
    }
    assert_eq!(results.used, 2);
}

#[test]
fn visit_binop_fails_with_its_first_failing_operand() {
    let mut interpreter = init();
    let mut results = FloatResults::new();
    let outcome = interpreter.visit_binop(
        &Token::Plus,
        &span(2, 3),
        &access("a", 0, 1),
        &access("b", 4, 5),
        &mut results,
    );
    match *done(outcome).unwrap_err() {
        Error::UndefinedVariable { ctx, detail } => {
            assert_eq!(ctx.pos_start.idx, 0);
            assert_eq!(detail, "Undefined variable a");
        }
        other => panic!("{:?}", other),
    }
}

#[test]
fn visit_binop_rejects_a_token_that_is_no_operator() {
    let mut interpreter = init();
    let mut results = FloatResults::new();
    let outcome = interpreter.visit_binop(
        &Token::Lpar,
        &span(2, 3),
        &number(7, 0, 1),
        &number(2, 4, 5),
        &mut results,
    );
    assert_eq!(mismatch_at(done(outcome), "Expect '+', '-', '*', '/', '**'"), (2, 3));
    let outcome = interpreter.visit_binop(
        &Token::Lpar,
        &span(2, 3),
        &number(7, 0, 1),
        &access("b", 4, 5),
        &mut results,
    );
    assert!(matches!(*done(outcome).unwrap_err(), Error::UndefinedVariable { .. }));
}

#[test]
fn visit_binop_takes_an_assignment_as_operand() {
    let mut interpreter = init();
    let mut results = FloatResults::new();
    let outcome = interpreter.visit_binop(
        &Token::Plus,
        &span(2, 3),
        &number(1, 0, 1),
        &assign("x", number(2, 4, 5)),
        &mut results,
    );
    assert_eq!(as_int(done(outcome).unwrap()), (BigInt::from(3), (0, 5)));
    match interpreter.st.get("x") {
        Some(found) => assert_eq!(as_int(found.clone()).0, BigInt::from(2)),
        None => panic!("x is not bound"),
    }
    let outcome = interpreter.visit_binop(
        &Token::Mul,
        &span(2, 3),
        &assign("y", number(4, 0, 1)),
        &access("y", 4, 5),
        &mut results,
    );
    assert_eq!(as_int(done(outcome).unwrap()).0, BigInt::from(16));
}

#[test]
fn visit_unary_keeps_or_negates() {
    let mut interpreter = init();
    let mut results = FloatResults::new();
    let outcome =
        interpreter.visit_unary(&Token::Minus, &span(1, 2), &number(5, 1, 2), &mut results);
    assert_eq!(as_int(done(outcome).unwrap()), (BigInt::from(-5), (1, 2)));
    let outcome =
        interpreter.visit_unary(&Token::Plus, &span(1, 2), &number(5, 1, 2), &mut results);
    assert_eq!(as_int(done(outcome).unwrap()), (BigInt::from(5), (1, 2)));
    let mut results = results_of(&[2.5]);
    let outcome =
        interpreter.visit_unary(&Token::Minus, &span(1, 4), &literal("2.5", 1, 4), &mut results);
    assert_eq!(as_float(done(outcome).unwrap()), (-2.5, (1, 4)));
}

#[test]
fn visit_unary_rejects_other_tokens() {
    let mut interpreter = init();
    let mut results = FloatResults::new();
    let outcome =
        interpreter.visit_unary(&Token::Mul, &span(1, 2), &number(5, 1, 2), &mut results);
    assert_eq!(mismatch_at(done(outcome), "Expect '+', '-'"), (1, 2));
}

#[test]
fn visit_unary_takes_an_assignment_as_operand() {
    let mut interpreter = init();
    let mut results = FloatResults::new();
    let outcome = interpreter.visit_unary(
        &Token::Minus,
        &span(1, 2),
        &assign("x", number(1, 4, 5)),
        &mut results,
    );
    assert_eq!(as_int(done(outcome).unwrap()).0, BigInt::from(-1));
    match interpreter.st.get("x") {
        Some(found) => assert_eq!(as_int(found.clone()).0, BigInt::from(1)),
        None => panic!("x is not bound"),
    }
}

#[test]
fn visit_access_reads_the_store_with_the_stored_span() {
    let mut interpreter = init();
    interpreter.st.insert(
        "x".to_string(),
        NumValue::BigInt { value: integer(7), ctx: Box::new(span(4, 5)) },
    );
    let token = Token::Ident { value: "x".to_string() };
    let found = interpreter.visit_access(&token, &span(0, 1)).unwrap();
    assert_eq!(as_int(found), (BigInt::from(7), (4, 5)));
    let token = Token::Ident { value: "y".to_string() };
    match *interpreter.visit_access(&token, &span(2, 3)).unwrap_err() {
        Error::UndefinedVariable { ctx, detail } => {
            assert_eq!((ctx.pos_start.idx, ctx.pos_end.idx), (2, 3));
            assert_eq!(detail, "Undefined variable y");
        }
        other => panic!("{:?}", other),
    }
    assert_eq!(
        mismatch_at(interpreter.visit_access(&Token::Plus, &span(2, 3)), "Expect 'Ident'"),
        (2, 3)
    );
}

#[test]
fn visit_access_walks_the_frames() {
    let mut outer = SymbolTable::new();
    outer.insert(
        "x".to_string(),
        NumValue::BigInt { value: integer(7), ctx: Box::new(span(4, 5)) },
    );
    let mut inner = SymbolTable::new();
    inner.set_parent(Box::new(outer));
    let interpreter = Interpreter { st: inner };
    let token = Token::Ident { value: "x".to_string() };
    assert_eq!(as_int(interpreter.visit_access(&token, &span(0, 1)).unwrap()).0, BigInt::from(7));
}

#[test]
fn visit_assign_binds_after_the_value_is_known() {
    let mut interpreter = init();
    let token = Token::Ident { value: "x".to_string() };
    let value = ASTNode::BinOp {
        token: Box::new(Token::Mul),
        posctx: Box::new(span(6, 7)),
        left: Box::new(number(6, 4, 5)),
        right: Box::new(number(7, 8, 9)),
    };
    let mut results = FloatResults::new();
    let outcome = interpreter.visit_assign(&token, &span(0, 9), &value, &mut results);
    assert_eq!(as_int(done(outcome).unwrap()), (BigInt::from(42), (4, 9)));
    match interpreter.st.get("x") {
        Some(found) => assert_eq!(as_int(found.clone()), (BigInt::from(42), (4, 9))),
        None => panic!("x is not bound"),
    }
}

#[test]
fn visit_assign_leaves_the_store_alone_while_a_task_is_pending() {
    let mut interpreter = init();
    let token = Token::Ident { value: "x".to_string() };
    let value = literal("1.5", 4, 7);
    let mut results = FloatResults::new();
    match interpreter.visit_assign(&token, &span(0, 7), &value, &mut results) {
        Outcome::Pending { .. } => {}
        other => panic!("{:?}", other),
    }
    assert!(interpreter.st.get("x").is_none());
    results.supply(1.5f64.to_bits());
    let outcome = interpreter.visit_assign(&token, &span(0, 7), &value, &mut results);
    assert_eq!(as_float(done(outcome).unwrap()), (1.5, (4, 7)));
    assert!(interpreter.st.get("x").is_some());
}

#[test]
fn visit_assign_rejects_a_token_that_is_no_name() {
    let mut interpreter = init();
    let mut results = FloatResults::new();
    let outcome =
        interpreter.visit_assign(&Token::Plus, &span(0, 5), &number(1, 4, 5), &mut results);
    assert_eq!(mismatch_at(done(outcome), "Expect 'Ident'"), (0, 5));
    let outcome =
        interpreter.visit_assign(&Token::Plus, &span(0, 5), &access("q", 4, 5), &mut results);
    assert!(matches!(*done(outcome).unwrap_err(), Error::UndefinedVariable { .. }));
}

#[test]
fn evaluate_dispatches_on_the_node() {
    let mut interpreter = init();
    let mut results = FloatResults::new();
    let outcome = interpreter.evaluate(&assign("x", number(5, 4, 5)), &mut results);
    assert_eq!(as_int(done(outcome).unwrap()).0, BigInt::from(5));
    let sum = ASTNode::BinOp {
        token: Box::new(Token::Plus),
        posctx: Box::new(span(2, 3)),
        left: Box::new(access("x", 0, 1)),
        right: Box::new(number(1, 4, 5)),
    };
    let outcome = interpreter.evaluate(&sum, &mut results);
    assert_eq!(as_int(done(outcome).unwrap()), (BigInt::from(6), (4, 5)));
    let negated = ASTNode::Unary {
        token: Box::new(Token::Minus),
        posctx: Box::new(span(1, 2)),
        node: Box::new(access("x", 1, 2)),
    };
    let outcome = interpreter.evaluate(&negated, &mut results);
    assert_eq!(as_int(done(outcome).unwrap()).0, BigInt::from(-5));
    let outcome = interpreter.evaluate(&number(3, 0, 1), &mut results);
    assert_eq!(as_int(done(outcome).unwrap()), (BigInt::from(3), (0, 1)));
    let outcome = interpreter.evaluate(&access("x", 0, 1), &mut results);
    assert_eq!(as_int(done(outcome).unwrap()).0, BigInt::from(5));
}

#[test]
fn evaluate_needs_no_more_results_than_the_tree_has_tasks() {
    let mut interpreter = init();
    let tree = ASTNode::BinOp {
        token: Box::new(Token::Pow),
        posctx: Box::new(span(4, 6)),
        left: Box::new(literal("1.5", 0, 3)),
        right: Box::new(number(2, 7, 8)),
    };
    let mut results = FloatResults::new();
    let mut rounds = 0;
    let value = loop {
        match interpreter.evaluate(&tree, &mut results) {
            Outcome::Done { result } => break result.unwrap(),
            Outcome::Pending { task } => {
                rounds += 1;
                let bits = match task {
                    FloatTask::Literal { text } => text.parse::<f64>().unwrap().to_bits(),
                    FloatTask::Binary { .. } => 2.25f64.to_bits(),
                };
                results.supply(bits);
            }
        }
    };
    assert_eq!(rounds, 2);
    assert_eq!(as_float(value), (2.25, (0, 8)));
}

#[test]
fn evaluate_with_asks_the_unit_until_the_line_ends() {
    let mut interpreter = init();
    let tree = assign(
        "y",
        ASTNode::BinOp {
            token: Box::new(Token::Mul),
            posctx: Box::new(span(4, 5)),
            left: Box::new(literal("1.5", 0, 3)),
            right: Box::new(number(2, 6, 7)),
        },
    );
    let unit = |task: &FloatTask| match task {
        FloatTask::Literal { text } => text.parse::<f64>().unwrap().to_bits(),
        FloatTask::Binary { .. } => 3.0f64.to_bits(),
    };
    let value = interpreter.evaluate_with(&tree, &unit).unwrap();
    assert_eq!(as_float(value), (3.0, (0, 7)));
    match interpreter.st.get("y") {
        Some(found) => assert_eq!(as_float(found.clone()).0, 3.0),
        None => panic!("y is not bound"),
    }
    let value = interpreter.evaluate_with(&number(4, 0, 1), &unit).unwrap();
    assert_eq!(as_int(value).0, BigInt::from(4));
}

#[test]
fn evaluate_with_binds_an_operand_once() {
    let mut interpreter = init();
    interpreter.st.insert(
        "x".to_string(),
        NumValue::BigInt { value: integer(1), ctx: Box::new(span(0, 1)) },
    );
    let bump = assign(
        "x",
        ASTNode::BinOp {
            token: Box::new(Token::Plus),
            posctx: Box::new(span(2, 3)),
            left: Box::new(access("x", 0, 1)),
            right: Box::new(number(1, 4, 5)),
        },
    );
    let tree = ASTNode::BinOp {
        token: Box::new(Token::Plus),
        posctx: Box::new(span(6, 7)),
        left: Box::new(bump),
        right: Box::new(literal("1.5", 7, 9)),
    };
    let unit = |task: &FloatTask| match task {
        FloatTask::Literal { text } => text.parse::<f64>().unwrap().to_bits(),
        FloatTask::Binary { .. } => 3.5f64.to_bits(),
    };
    let value = interpreter.evaluate_with(&tree, &unit).unwrap();
    assert_eq!(as_float(value).0, 3.5);
    match interpreter.st.get("x") {
        Some(found) => assert_eq!(as_int(found.clone()).0, BigInt::from(2)),
        None => panic!("x is not bound"),
    }
}

#[test]
fn evaluate_hands_back_what_was_bound_before_a_pending_task() {
    let mut interpreter = init();
    let tree = ASTNode::BinOp {
        token: Box::new(Token::Plus),
        posctx: Box::new(span(6, 7)),
        left: Box::new(assign("x", number(1, 4, 5))),
        right: Box::new(literal("1.5", 7, 9)),
    };
    let mut results = FloatResults::new();
    assert!(matches!(interpreter.evaluate(&tree, &mut results), Outcome::Pending { .. }));
    assert!(interpreter.st.get("x").is_some());
}
