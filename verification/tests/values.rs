use num_bigint::BigInt;
use pust::error::Error;
use pust::float::{bits_are_zero, negate_bits, FloatOp, FloatResults, FloatTask, Operand};
use pust::integer::Integer;
use pust::interpreter::{settle, Computation, NumValue, Outcome};
use pust::position::{PosCtx, Position};

fn position(idx: usize) -> Box<Position> {
    Box::new(Position {
        idx,
        col: idx as u128,
        row: 0,
        fd: "line".to_string(),
        text: "0123456789".to_string(),
        len: 11,
    })
}

fn span(from: usize, to: usize) -> Box<PosCtx> {
    Box::new(PosCtx { pos_start: position(from), pos_end: position(to) })
}

fn integer(n: i64) -> Integer {
    Integer::from_signed_bytes_le(BigInt::from(n).to_signed_bytes_le())
}

fn whole(n: i64, from: usize, to: usize) -> NumValue {
    NumValue::BigInt { value: integer(n), ctx: span(from, to) }
}

fn fraction(x: f64, from: usize, to: usize) -> NumValue {
    NumValue::Float { value: x.to_bits(), ctx: span(from, to) }
}

fn ready_int(computed: Result<Computation, Box<Error>>) -> (BigInt, (usize, usize)) {
    match computed.unwrap() {
        Computation::Ready { value: NumValue::BigInt { value, ctx } } => {
            (BigInt::from_signed_bytes_le(&value.bytes), (ctx.pos_start.idx, ctx.pos_end.idx))
        }
        other => panic!("{:?}", other),
    }
}

fn operand_is(operand: &Operand, expected: &NumValue) -> bool {
    match (operand, expected) {
        (Operand::Int { value: a }, NumValue::BigInt { value: b, .. }) => {
            BigInt::from_signed_bytes_le(&a.bytes) == BigInt::from_signed_bytes_le(&b.bytes)
        }
        (Operand::Float { value: a }, NumValue::Float { value: b, .. }) => a == b,
        _ => false,
    }
}

fn deferred(
    computed: Result<Computation, Box<Error>>,
    op: FloatOp,
    left: &NumValue,
    right: &NumValue,
) -> (usize, usize) {
    match computed.unwrap() {
        Computation::Deferred { task: FloatTask::Binary { op: o, left: l, right: r }, ctx } => {
            assert_eq!(o, op);
            assert!(operand_is(&l, left));
            assert!(operand_is(&r, right));
            (ctx.pos_start.idx, ctx.pos_end.idx)
        }
        other => panic!("{:?}", other),
    }
}

#[test]
fn integers_add_subtract_and_multiply_exactly() {
    let (a, b) = (whole(7, 0, 1), whole(-3, 4, 6));
    assert_eq!(ready_int(a.added_by(&b)), (BigInt::from(4), (0, 6)));
    assert_eq!(ready_int(a.subed_by(&b)), (BigInt::from(10), (0, 6)));
    assert_eq!(ready_int(a.multed_by(&b)), (BigInt::from(-21), (0, 6)));
    assert_eq!(ready_int(b.subed_by(&a)), (BigInt::from(-10), (4, 1)));
}

#[test]
fn integers_divide_towards_zero() {
    assert_eq!(ready_int(whole(7, 0, 1).divded_by(&whole(2, 2, 3))).0, BigInt::from(3));
    assert_eq!(ready_int(whole(-7, 0, 1).divded_by(&whole(2, 2, 3))).0, BigInt::from(-3));
    assert_eq!(ready_int(whole(7, 0, 1).divded_by(&whole(-2, 2, 3))).0, BigInt::from(-3));
    assert_eq!(ready_int(whole(-7, 0, 1).divded_by(&whole(-2, 2, 3))).0, BigInt::from(3));
    assert_eq!(ready_int(whole(0, 0, 1).divded_by(&whole(5, 2, 3))).0, BigInt::from(0));
}

#[test]
fn large_integers_stay_exact() {
    let big = Integer::from_signed_bytes_le(BigInt::from(u128::MAX).to_signed_bytes_le());
    let a = NumValue::BigInt { value: big, ctx: span(0, 1) };
    let product = ready_int(a.multed_by(&a)).0;
    assert_eq!(product, BigInt::from(u128::MAX) * BigInt::from(u128::MAX));
}

#[test]
fn a_float_among_the_operands_defers_the_operation() {
    let (i, f) = (whole(2, 0, 1), fraction(1.5, 4, 7));
    assert_eq!(deferred(i.added_by(&f), FloatOp::Add, &i, &f), (0, 7));
    assert_eq!(deferred(f.added_by(&i), FloatOp::Add, &f, &i), (4, 1));
    assert_eq!(deferred(f.added_by(&f), FloatOp::Add, &f, &f), (4, 7));
    assert_eq!(deferred(i.subed_by(&f), FloatOp::Sub, &i, &f), (0, 7));
    assert_eq!(deferred(f.subed_by(&i), FloatOp::Sub, &f, &i), (4, 1));
    assert_eq!(deferred(i.multed_by(&f), FloatOp::Mul, &i, &f), (0, 7));
    assert_eq!(deferred(f.multed_by(&f), FloatOp::Mul, &f, &f), (4, 7));
    assert_eq!(deferred(i.divded_by(&f), FloatOp::Div, &i, &f), (0, 7));
    assert_eq!(deferred(f.divded_by(&i), FloatOp::Div, &f, &i), (4, 1));
    assert_eq!(deferred(f.divded_by(&f), FloatOp::Div, &f, &f), (4, 7));
}

#[test]
fn a_power_is_always_deferred() {
    let (i, f) = (whole(2, 0, 1), fraction(1.5, 4, 7));
    assert_eq!(deferred(i.powed_by(&i), FloatOp::Pow, &i, &i), (0, 1));
    assert_eq!(deferred(i.powed_by(&f), FloatOp::Pow, &i, &f), (0, 7));
    assert_eq!(deferred(f.powed_by(&i), FloatOp::Pow, &f, &i), (4, 1));
    assert_eq!(deferred(f.powed_by(&f), FloatOp::Pow, &f, &f), (4, 7));
    let zero = whole(0, 2, 3);
    assert_eq!(deferred(i.powed_by(&zero), FloatOp::Pow, &i, &zero), (0, 3));
}

#[test]
fn division_by_a_zero_of_either_kind_fails() {
    let cases = [
        (whole(5, 0, 1), whole(0, 4, 5)),
        (whole(5, 0, 1), fraction(0.0, 4, 5)),
        (fraction(5.0, 0, 1), whole(0, 4, 5)),
        (fraction(5.0, 0, 1), fraction(0.0, 4, 5)),
        (fraction(5.0, 0, 1), fraction(-0.0, 4, 5)),
        (whole(0, 0, 1), whole(0, 4, 5)),
    ];
    for (left, right) in cases.iter() {
        match *left.divded_by(right).unwrap_err() {
            Error::DivdedByZero { ctx, detail } => {
                assert_eq!((ctx.pos_start.idx, ctx.pos_end.idx), (0, 5));
                assert_eq!(detail, "Divided by zero");
            }
            other => panic!("{:?}", other),
        }
    }
}

#[test]
fn division_by_a_float_that_is_no_zero_is_deferred() {
    let five = fraction(5.0, 0, 1);
    for x in [f64::NAN, f64::INFINITY, f64::MIN_POSITIVE, -1.0, 5e-324] {
        let divisor = fraction(x, 2, 3);
        assert!(matches!(five.divded_by(&divisor), Ok(Computation::Deferred { .. })));
    }
}

#[test]
fn other_operations_take_zero_operands() {
    assert_eq!(ready_int(whole(5, 0, 1).added_by(&whole(0, 2, 3))).0, BigInt::from(5));
    assert_eq!(ready_int(whole(5, 0, 1).multed_by(&whole(0, 2, 3))).0, BigInt::from(0));
    assert_eq!(ready_int(whole(0, 0, 1).subed_by(&whole(0, 2, 3))).0, BigInt::from(0));
}

#[test]
fn inverse_keeps_the_kind_and_the_span() {
    match whole(5, 1, 2).inverse().unwrap() {
        NumValue::BigInt { value, ctx } => {
            assert_eq!(BigInt::from_signed_bytes_le(&value.bytes), BigInt::from(-5));
            assert_eq!((ctx.pos_start.idx, ctx.pos_end.idx), (1, 2));
        }
        other => panic!("{:?}", other),
    }
    match whole(0, 1, 2).inverse().unwrap() {
        NumValue::BigInt { value, .. } => {
            assert_eq!(BigInt::from_signed_bytes_le(&value.bytes), BigInt::from(0));
        }
        other => panic!("{:?}", other),
    }
    match fraction(1.5, 1, 2).inverse().unwrap() {
        NumValue::Float { value, ctx } => {
            assert_eq!(value, (-1.5f64).to_bits());
            assert_eq!((ctx.pos_start.idx, ctx.pos_end.idx), (1, 2));
        }
        other => panic!("{:?}", other),
    }
}

#[test]
fn negated_bits_are_those_of_the_negated_float() {
    for x in [0.0, -0.0, 1.0, -2.5, f64::INFINITY, f64::MAX, f64::MIN_POSITIVE, 1e-320] {
        assert_eq!(negate_bits(x.to_bits()), (-x).to_bits());
    }
    assert_eq!(negate_bits(f64::NAN.to_bits()), (-f64::NAN).to_bits());
}

#[test]
fn zero_bits_are_those_of_the_two_zeros() {
    assert!(bits_are_zero(0.0f64.to_bits()));
    assert!(bits_are_zero((-0.0f64).to_bits()));
    for x in [1.0, -1.0, f64::NAN, f64::INFINITY, 5e-324, -5e-324] {
        assert_eq!(bits_are_zero(x.to_bits()), x == 0.0);
    }
}

#[test]
fn integer_zero_is_told_from_its_bytes() {
    assert!(Integer::zero().is_zero());
    assert!(Integer::from_signed_bytes_le(vec![]).is_zero());
    assert!(Integer::from_signed_bytes_le(vec![0]).is_zero());
    assert!(Integer::from_signed_bytes_le(vec![0, 0, 0]).is_zero());
    assert!(!Integer::from_signed_bytes_le(vec![0, 1]).is_zero());
    assert!(!Integer::from_signed_bytes_le(vec![255]).is_zero());
    assert!(!integer(-256).is_zero());
    assert!(integer(0).is_zero());
}

#[test]
fn integers_read_bytes_in_twos_complement() {
    let cases: [(Vec<u8>, i64); 8] = [
        (vec![], 0),
        (vec![1], 1),
        (vec![127], 127),
        (vec![128], -128),
        (vec![255], -1),
        (vec![128, 0], 128),
        (vec![0, 255], -256),
        (vec![255, 255, 255], -1),
    ];
    for (bytes, expected) in cases.iter() {
        let value = NumValue::BigInt {
            value: Integer::from_signed_bytes_le(bytes.clone()),
            ctx: span(0, 1),
        };
        let sum = ready_int(value.added_by(&whole(0, 1, 2))).0;
        assert_eq!(sum, BigInt::from(*expected));
    }
}

#[test]
fn cloning_keeps_the_value() {
    let value = whole(-300, 1, 3);
    let copy = value.clone();
    assert_eq!(ready_int(copy.added_by(&whole(0, 3, 4))), (BigInt::from(-300), (1, 4)));
    let value = fraction(2.5, 1, 3);
    assert!(matches!(value.clone(), NumValue::Float { value, .. } if value == 2.5f64.to_bits()));
}

#[test]
fn a_deferred_computation_completes_to_a_float() {
    let (i, f) = (whole(2, 0, 1), fraction(1.5, 4, 7));
    match i.added_by(&f).unwrap().complete(3.5f64.to_bits()) {
        NumValue::Float { value, ctx } => {
            assert_eq!(f64::from_bits(value), 3.5);
            assert_eq!((ctx.pos_start.idx, ctx.pos_end.idx), (0, 7));
        }
        other => panic!("{:?}", other),
    }
    match i.added_by(&i).unwrap().complete(3.5f64.to_bits()) {
        NumValue::BigInt { value, .. } => {
            assert_eq!(BigInt::from_signed_bytes_le(&value.bytes), BigInt::from(4));
        }
        other => panic!("{:?}", other),
    }
}

#[test]
fn settling_reads_results_in_order() {
    let (i, f) = (whole(2, 0, 1), fraction(1.5, 4, 7));
    let mut results = FloatResults::new();
    assert!(matches!(settle(i.added_by(&f), &mut results), Outcome::Pending { .. }));
    assert_eq!(results.used, 0);
    results.supply(3.5f64.to_bits());
    results.supply(7.0f64.to_bits());
    match settle(i.added_by(&f), &mut results) {
        Outcome::Done { result: Ok(NumValue::Float { value, .. }) } => {
            assert_eq!(f64::from_bits(value), 3.5)
        }
        other => panic!("{:?}", other),
    }
    assert_eq!(results.used, 1);
    match settle(i.multed_by(&f), &mut results) {
        Outcome::Done { result: Ok(NumValue::Float { value, .. }) } => {
            assert_eq!(f64::from_bits(value), 7.0)
        }
        other => panic!("{:?}", other),
    }
    assert_eq!(results.used, 2);
    assert!(matches!(settle(i.multed_by(&f), &mut results), Outcome::Pending { .. }));
    assert_eq!(results.used, 2);
    assert!(matches!(
        settle(i.added_by(&i), &mut results),
        Outcome::Done { result: Ok(NumValue::BigInt { .. }) }
    ));
    assert!(matches!(
        settle(i.divded_by(&whole(0, 2, 3)), &mut results),
        Outcome::Done { result: Err(_) }
    ));
    assert_eq!(results.used, 2);
    results.rewind();
    assert_eq!(results.used, 0);
    assert_eq!(results.take(), Some(3.5f64.to_bits()));
    assert_eq!(results.take(), Some(7.0f64.to_bits()));
    assert_eq!(results.take(), None);
}

#[test]
fn an_error_hands_out_its_span() {
    let error = Error::divided_by_zero(span(2, 5), "Divided by zero");
    assert_eq!((error.ctx().pos_start.idx, error.ctx().pos_end.idx), (2, 5));
    let error = Error::invalid_syntax(span(1, 2), "Expect: ')'");
    assert!(matches!(&*error, Error::InvalidSyntax { detail, .. } if detail == "Expect: ')'"));
    assert_eq!(error.ctx().pos_start.idx, 1);
    let error = Error::illegal_char(span(3, 4), "unknown character");
    assert!(matches!(&*error, Error::IllegalChar { .. }));
    let error = Error::token_not_match(span(0, 4), "Expect 'Ident'");
    assert!(matches!(&*error, Error::TokenNotMatch { .. }));
    let copy = (*error).clone();
    assert_eq!(copy.ctx().pos_end.idx, 4);
    assert!(matches!(copy, Error::TokenNotMatch { detail, .. } if detail == "Expect 'Ident'"));
}
