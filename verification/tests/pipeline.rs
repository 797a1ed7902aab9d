use num_bigint::BigInt;
use num_traits::ToPrimitive;
use pust::basic::{init, run};
use pust::lexer::Lexer;
use pust::parser::Parser;
use pust::error::Error;
use pust::float::{FloatOp, FloatResults, FloatTask, Operand};
use pust::interpreter::{Interpreter, NumValue, Outcome};

fn to_float(operand: &Operand) -> f64 {
    match operand {
        Operand::Int { value } => BigInt::from_signed_bytes_le(&value.bytes).to_f64().unwrap(),
        Operand::Float { value } => f64::from_bits(*value),
    }
}

fn perform(task: &FloatTask) -> u64 {
    match task {
        FloatTask::Literal { text } => text.parse::<f64>().unwrap().to_bits(),
        FloatTask::Binary { op, left, right } => {
            let (a, b) = (to_float(left), to_float(right));
            let r = match op {
                FloatOp::Add => a + b,
                FloatOp::Sub => a - b,
                FloatOp::Mul => a * b,
                FloatOp::Div => a / b,
                FloatOp::Pow => a.powf(b),
            };
            r.to_bits()
        }
    }
}

fn eval(interpreter: &mut Interpreter, text: &str) -> Result<NumValue, Box<Error>> {
    run("line".to_string(), text.to_string(), interpreter, &perform)
}

fn step(interpreter: &mut Interpreter, text: &str, results: &mut FloatResults) -> Outcome {
    let (tokens, posctxs) =
        Lexer::new("line".to_string(), text.to_string()).make_tokens().unwrap();
    let mut parser = Parser { tokens: &tokens, posctxs: &posctxs, index: 0 };
    let tree = parser.parse().unwrap();
    interpreter.evaluate(&tree, results)
}

fn eval_step_by_step(
    interpreter: &mut Interpreter,
    text: &str,
) -> (Result<NumValue, Box<Error>>, usize) {
    let saved = interpreter.st.clone();
    let mut results = FloatResults::new();
    loop {
        match step(interpreter, text, &mut results) {
            Outcome::Done { result } => return (result, results.values.len()),
            Outcome::Pending { task } => {
                results.supply(perform(&task));
                interpreter.st = saved.clone();
            }
        }
    }
}

fn int_of(value: &NumValue) -> BigInt {
    match value {
        NumValue::BigInt { value, .. } => BigInt::from_signed_bytes_le(&value.bytes),
        NumValue::Float { .. } => panic!("a float where an integer was expected"),
    }
}

fn float_of(value: &NumValue) -> f64 {
    match value {
        NumValue::Float { value, .. } => f64::from_bits(*value),
        NumValue::BigInt { .. } => panic!("an integer where a float was expected"),
    }
}

#[test]
fn integer_arithmetic_respects_precedence() {
    let mut interpreter = init();
    assert_eq!(int_of(&eval(&mut interpreter, "2 + 3 * 4").unwrap()), BigInt::from(14));
    assert_eq!(int_of(&eval(&mut interpreter, "(2 + 3) * 4").unwrap()), BigInt::from(20));
    assert_eq!(int_of(&eval(&mut interpreter, "10 - 4 - 3").unwrap()), BigInt::from(3));
    assert_eq!(int_of(&eval(&mut interpreter, "100 / 5 / 2").unwrap()), BigInt::from(10));
}

#[test]
fn integer_division_rounds_towards_zero() {
    let mut interpreter = init();
    assert_eq!(int_of(&eval(&mut interpreter, "7 / 2").unwrap()), BigInt::from(3));
    assert_eq!(int_of(&eval(&mut interpreter, "-7 / 2").unwrap()), BigInt::from(-3));
    assert_eq!(int_of(&eval(&mut interpreter, "7 / -2").unwrap()), BigInt::from(-3));
    assert_eq!(int_of(&eval(&mut interpreter, "-7 / -2").unwrap()), BigInt::from(3));
}

#[test]
fn integers_have_no_upper_limit() {
    let mut interpreter = init();
    let value = eval(&mut interpreter, "123456789012345678901234567890 * 1000000000000").unwrap();
    let expected: BigInt = "123456789012345678901234567890000000000000".parse().unwrap();
    assert_eq!(int_of(&value), expected);
    let value = eval(&mut interpreter, "340282366920938463463374607431768211456 - 1").unwrap();
    assert_eq!(int_of(&value), BigInt::from(u128::MAX));
}

#[test]
fn power_of_integers_is_a_float() {
    let mut interpreter = init();
    assert_eq!(float_of(&eval(&mut interpreter, "2 ** 3").unwrap()), 8.0);
}

#[test]
fn power_groups_from_the_right() {
    let mut interpreter = init();
    assert_eq!(float_of(&eval(&mut interpreter, "2 ** 3 ** 2").unwrap()), 512.0);
}

#[test]
fn mixed_kinds_give_a_float() {
    let mut interpreter = init();
    assert_eq!(float_of(&eval(&mut interpreter, "1 + 1.5").unwrap()), 2.5);
    assert_eq!(float_of(&eval(&mut interpreter, "1.5 + 1").unwrap()), 2.5);
    assert_eq!(float_of(&eval(&mut interpreter, "3 - 0.5").unwrap()), 2.5);
    assert_eq!(float_of(&eval(&mut interpreter, "2 * 1.25").unwrap()), 2.5);
    assert_eq!(float_of(&eval(&mut interpreter, "5 / 2.0").unwrap()), 2.5);
    assert_eq!(float_of(&eval(&mut interpreter, "1.5 * 1.5").unwrap()), 2.25);
}

#[test]
fn division_by_zero_fails_for_both_kinds() {
    let mut interpreter = init();
    assert!(matches!(*eval(&mut interpreter, "5 / 0").unwrap_err(), Error::DivdedByZero { .. }));
    assert!(matches!(
        *eval(&mut interpreter, "5.0 / 0.0").unwrap_err(),
        Error::DivdedByZero { .. }
    ));
    assert!(matches!(*eval(&mut interpreter, "5 / 0.0").unwrap_err(), Error::DivdedByZero { .. }));
    assert!(matches!(*eval(&mut interpreter, "5.0 / 0").unwrap_err(), Error::DivdedByZero { .. }));
    assert!(matches!(
        *eval(&mut interpreter, "5.0 / (1.5 - 1.5)").unwrap_err(),
        Error::DivdedByZero { .. }
    ));
    assert!(matches!(
        *eval(&mut interpreter, "1 / -0.0").unwrap_err(),
        Error::DivdedByZero { .. }
    ));
}

#[test]
fn division_by_zero_spans_both_operands() {
    let mut interpreter = init();
    match *eval(&mut interpreter, "5 / 0").unwrap_err() {
        Error::DivdedByZero { ctx, detail } => {
            assert_eq!(ctx.pos_start.idx, 0);
            assert_eq!(ctx.pos_end.idx, 5);
            assert_eq!(detail, "Divided by zero");
        }
        other => panic!("{:?}", other),
    }
}

#[test]
fn unary_chains() {
    let mut interpreter = init();
    assert_eq!(int_of(&eval(&mut interpreter, "--5").unwrap()), BigInt::from(5));
    assert_eq!(int_of(&eval(&mut interpreter, "-(2+3)").unwrap()), BigInt::from(-5));
    assert_eq!(int_of(&eval(&mut interpreter, "+-+5").unwrap()), BigInt::from(-5));
    assert_eq!(float_of(&eval(&mut interpreter, "-1.5").unwrap()), -1.5);
    assert_eq!(float_of(&eval(&mut interpreter, "--1.5").unwrap()), 1.5);
}

#[test]
fn assignment_persists_across_lines() {
    let mut interpreter = init();
    assert_eq!(int_of(&eval(&mut interpreter, "x = 5").unwrap()), BigInt::from(5));
    assert_eq!(int_of(&eval(&mut interpreter, "x + 1").unwrap()), BigInt::from(6));
    assert_eq!(int_of(&eval(&mut interpreter, "x = x * x").unwrap()), BigInt::from(25));
    assert_eq!(int_of(&eval(&mut interpreter, "x").unwrap()), BigInt::from(25));
}

#[test]
fn assignments_chain() {
    let mut interpreter = init();
    assert_eq!(float_of(&eval(&mut interpreter, "a = b = 1.5 + 1").unwrap()), 2.5);
    assert_eq!(float_of(&eval(&mut interpreter, "a").unwrap()), 2.5);
    assert_eq!(float_of(&eval(&mut interpreter, "b").unwrap()), 2.5);
}

#[test]
fn undefined_access_fails() {
    let mut interpreter = init();
    match *eval(&mut interpreter, "y + 1").unwrap_err() {
        Error::UndefinedVariable { ctx, detail } => {
            assert_eq!(ctx.pos_start.idx, 0);
            assert_eq!(ctx.pos_end.idx, 1);
            assert_eq!(detail, "Undefined variable y");
        }
        other => panic!("{:?}", other),
    }
}

#[test]
fn a_failed_line_leaves_the_store_alone() {
    let mut interpreter = init();
    assert!(eval(&mut interpreter, "x = 1 / 0").is_err());
    assert!(matches!(
        *eval(&mut interpreter, "x").unwrap_err(),
        Error::UndefinedVariable { .. }
    ));
}

#[test]
fn an_assignment_is_an_operand() {
    let mut interpreter = init();
    assert_eq!(int_of(&eval(&mut interpreter, "1 + (x = 2)").unwrap()), BigInt::from(3));
    assert_eq!(int_of(&eval(&mut interpreter, "x").unwrap()), BigInt::from(2));
    assert_eq!(int_of(&eval(&mut interpreter, "(y = 1) + 2").unwrap()), BigInt::from(3));
    assert_eq!(int_of(&eval(&mut interpreter, "y").unwrap()), BigInt::from(1));
    assert_eq!(int_of(&eval(&mut interpreter, "-(z = 4)").unwrap()), BigInt::from(-4));
    assert_eq!(int_of(&eval(&mut interpreter, "z").unwrap()), BigInt::from(4));
}

#[test]
fn the_right_operand_sees_what_the_left_one_binds() {
    let mut interpreter = init();
    assert_eq!(int_of(&eval(&mut interpreter, "(a = 3) * a").unwrap()), BigInt::from(9));
    assert!(matches!(
        *eval(&mut interpreter, "b * (b = 3)").unwrap_err(),
        Error::UndefinedVariable { .. }
    ));
    assert!(matches!(
        *eval(&mut interpreter, "b").unwrap_err(),
        Error::UndefinedVariable { .. }
    ));
}

#[test]
fn an_operand_is_bound_once_however_many_floats_follow() {
    let mut interpreter = init();
    eval(&mut interpreter, "x = 1").unwrap();
    assert_eq!(float_of(&eval(&mut interpreter, "(x = x + 1) + 1.5 * 2.5").unwrap()), 5.75);
    assert_eq!(int_of(&eval(&mut interpreter, "x").unwrap()), BigInt::from(2));
    let mut other = init();
    eval(&mut other, "x = 1").unwrap();
    let (value, rounds) = eval_step_by_step(&mut other, "(x = x + 1) + 1.5 * 2.5");
    assert_eq!(float_of(&value.unwrap()), 5.75);
    assert_eq!(rounds, 4);
    assert_eq!(int_of(&eval(&mut other, "x").unwrap()), BigInt::from(2));
}

#[test]
fn what_was_bound_before_a_failure_stays_bound() {
    let mut interpreter = init();
    assert!(matches!(
        *eval(&mut interpreter, "(x = 2) + y").unwrap_err(),
        Error::UndefinedVariable { .. }
    ));
    assert_eq!(int_of(&eval(&mut interpreter, "x").unwrap()), BigInt::from(2));
}

#[test]
fn the_lexer_fails_before_the_parser() {
    let mut interpreter = init();
    assert!(matches!(*eval(&mut interpreter, "(1 + & 2").unwrap_err(), Error::IllegalChar { .. }));
    assert!(matches!(*eval(&mut interpreter, "(1 + 2").unwrap_err(), Error::InvalidSyntax { .. }));
}

#[test]
fn the_same_line_gives_the_same_value_again() {
    let mut interpreter = init();
    eval(&mut interpreter, "x = 7").unwrap();
    let first = eval(&mut interpreter, "x * 2 + 1.5").unwrap();
    let second = eval(&mut interpreter, "x * 2 + 1.5").unwrap();
    assert_eq!(float_of(&first), 15.5);
    assert_eq!(float_of(&first).to_bits(), float_of(&second).to_bits());
}

#[test]
fn a_pending_task_names_its_operands() {
    let mut interpreter = init();
    let mut results = FloatResults::new();
    match step(&mut interpreter, "7 ** 2", &mut results) {
        Outcome::Pending { task: FloatTask::Binary { op, left, right } } => {
            assert_eq!(op, FloatOp::Pow);
            assert_eq!(to_float(&left), 7.0);
            assert_eq!(to_float(&right), 2.0);
        }
        other => panic!("{:?}", other),
    }
    results.supply(49.0f64.to_bits());
    match step(&mut interpreter, "7 ** 2", &mut results) {
        Outcome::Done { result } => assert_eq!(float_of(&result.unwrap()), 49.0),
        other => panic!("{:?}", other),
    }
}

#[test]
fn a_float_literal_is_a_task() {
    let mut interpreter = init();
    let mut results = FloatResults::new();
    match step(&mut interpreter, "1.25", &mut results) {
        Outcome::Pending { task: FloatTask::Literal { text } } => assert_eq!(text, "1.25"),
        other => panic!("{:?}", other),
    }
}

#[test]
fn value_spans_cover_their_operands() {
    let mut interpreter = init();
    let value = eval(&mut interpreter, "  12 + 345 ").unwrap();
    match value {
        NumValue::BigInt { ctx, .. } => {
            assert_eq!(ctx.pos_start.idx, 2);
            assert_eq!(ctx.pos_end.idx, 10);
        }
        other => panic!("{:?}", other),
    }
}

#[test]
fn running_step_by_step_comes_to_the_same_value() {
    let lines =
        ["1.5 + 2 * 3", "x = 2 ** 0.5 ** 2", "(1 + 2.5) / (0.5 - 3) ** 2", "7 / 2", "-x"];
    for text in lines {
        let mut one = init();
        let mut other = init();
        let at_once = eval(&mut one, text);
        let (stepwise, _) = eval_step_by_step(&mut other, text);
        match (at_once, stepwise) {
            (Ok(NumValue::Float { value: a, .. }), Ok(NumValue::Float { value: b, .. })) => {
                assert_eq!(a, b)
            }
            (Ok(a @ NumValue::BigInt { .. }), Ok(b @ NumValue::BigInt { .. })) => {
                assert_eq!(int_of(&a), int_of(&b))
            }
            (Err(a), Err(b)) => assert_eq!(format!("{:?}", a), format!("{:?}", b)),
            (a, b) => panic!("{:?} and {:?}", a, b),
        }
    }
}

#[test]
fn a_line_asks_for_one_result_per_task() {
    let mut interpreter = init();
    assert_eq!(eval_step_by_step(&mut interpreter, "1 + 2 * 3").1, 0);
    assert_eq!(eval_step_by_step(&mut interpreter, "1.5").1, 1);
    assert_eq!(eval_step_by_step(&mut interpreter, "2 ** 3").1, 1);
    assert_eq!(eval_step_by_step(&mut interpreter, "1.5 + 2.5").1, 3);
    assert_eq!(eval_step_by_step(&mut interpreter, "-(1.5 + 2) * 3").1, 3);
    assert_eq!(eval_step_by_step(&mut interpreter, "1.5 / 0").1, 1);
}

#[test]
fn the_unit_is_asked_in_the_order_of_evaluation() {
    let asked = std::cell::RefCell::new(Vec::new());
    let unit = |task: &FloatTask| {
        asked.borrow_mut().push(format!("{:?}", task));
        perform(task)
    };
    let mut interpreter = init();
    let value =
        run("line".to_string(), "0.5 + 2 ** 3".to_string(), &mut interpreter, &unit).unwrap();
    assert_eq!(float_of(&value), 8.5);
    let asked = asked.into_inner();
    assert_eq!(asked.len(), 3);
    assert!(asked[0].starts_with("Literal"));
    assert!(asked[1].contains("Pow"));
    assert!(asked[2].contains("Add"));
}
