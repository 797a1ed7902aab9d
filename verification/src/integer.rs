//! Integers of any size.
//!
//! An [`Integer`] holds a number as its two's-complement bytes, least
//! significant byte first; the number itself is the view of the value.
//!
//! The arithmetic is that of `num_bigint::BigInt`, and it is believed, not
//! proved: each operation at the end of this file reads its operands with
//! `BigInt::from_signed_bytes_le`, applies one operator of `BigInt` and
//! writes the result with `BigInt::to_signed_bytes_le`. What is claimed of
//! the two conversions is that they read and write two's complement as
//! [`signed_le`] states it; what is claimed of the operator stands above each
//! operation.

use vstd::prelude::*;

verus! {

/// The integer that `bytes` denotes in two's complement, least significant
/// byte first. The last byte carries the sign; no bytes at all denote zero.
pub open spec fn signed_le(bytes: Seq<u8>) -> int
    decreases bytes.len(),
{
    if bytes.len() == 0 {
        0
    } else if bytes.len() == 1 {
        if bytes[0] >= 128 {
            bytes[0] - 256
        } else {
            bytes[0] as int
        }
    } else {
        bytes[0] + 256 * signed_le(bytes.drop_first())
    }
}

/// The value of a decimal digit, `'0'` to `'9'`.
pub open spec fn digit_value(c: char) -> int {
    c as int - '0' as int
}

/// Whether `c` is one of the ten decimal digits.
pub open spec fn is_decimal_digit(c: char) -> bool {
    '0' <= c <= '9'
}

/// Whether `s` consists of decimal digits only.
pub open spec fn all_decimal_digits(s: Seq<char>) -> bool {
    forall|i: int| 0 <= i < s.len() ==> is_decimal_digit(#[trigger] s[i])
}

/// The number that the decimal digits `s` denote, most significant digit
/// first.
pub open spec fn decimal_value(s: Seq<char>) -> int
    decreases s.len(),
{
    if s.len() == 0 {
        0
    } else {
        decimal_value(s.drop_last()) * 10 + digit_value(s.last())
    }
}

/// The quotient of `a` by `b`, rounded towards zero.
pub open spec fn truncated_quotient(a: int, b: int) -> int {
    let magnitude = (if a < 0 {
        -a
    } else {
        a
    }) / (if b < 0 {
        -b
    } else {
        b
    });
    if (a < 0) == (b < 0) {
        magnitude
    } else {
        -magnitude
    }
}

/// An integer of any size, held as two's-complement bytes.
#[derive(Debug)]
pub struct Integer {
    pub bytes: Vec<u8>,
}

impl View for Integer {
    type V = int;

    open spec fn view(&self) -> int {
        signed_le(self.bytes@)
    }
}

/// A sequence of bytes denotes zero exactly when all of them are zero.
pub proof fn lemma_signed_le_zero(bytes: Seq<u8>)
    ensures
        signed_le(bytes) == 0 <==> (forall|i: int| 0 <= i < bytes.len() ==> bytes[i] == 0),
    decreases bytes.len(),
{
    if bytes.len() >= 2 {
        let rest = bytes.drop_first();
        lemma_signed_le_zero(rest);
        if signed_le(bytes) == 0 {
            assert(signed_le(rest) == 0);
            assert forall|i: int| 0 <= i < bytes.len() implies bytes[i] == 0 by {
                if i > 0 {
                    assert(bytes[i] == rest[i - 1]);
                }
            }
        }
        if forall|i: int| 0 <= i < bytes.len() ==> bytes[i] == 0 {
            assert forall|i: int| 0 <= i < rest.len() implies rest[i] == 0 by {
                assert(rest[i] == bytes[i + 1]);
            }
        }
    }
}

impl Integer {
    /// The integer whose two's-complement bytes, least significant first, are
    /// `bytes`.
    pub fn from_signed_bytes_le(bytes: Vec<u8>) -> (r: Integer)
        ensures
            r.bytes == bytes,
            r@ == signed_le(bytes@),
    {
        Integer { bytes }
    }

    /// Zero.
    pub fn zero() -> (r: Integer)
        ensures
            r@ == 0,
    {
        Integer { bytes: Vec::new() }
    }

    /// Whether the integer is zero.
    pub fn is_zero(&self) -> (r: bool)
        ensures
            r == (self@ == 0),
    {
        let mut i: usize = 0;
        while i < self.bytes.len()
            invariant
                i <= self.bytes.len(),
                forall|j: int| 0 <= j < i ==> self.bytes@[j] == 0,
            decreases self.bytes.len() - i,
        {
            if self.bytes[i] != 0 {
                proof {
                    lemma_signed_le_zero(self.bytes@);
                }
                return false;
            }
            i += 1;
        }
        proof {
            lemma_signed_le_zero(self.bytes@);
        }
        true
    }
}

impl Clone for Integer {
    fn clone(&self) -> (r: Self)
        ensures
            r.bytes@ == self.bytes@,
            r@ == self@,
    {
        Integer { bytes: self.bytes.clone() }
    }
}

/// Reads a run of decimal digits with `FromStr` for `BigInt`. Claimed: a run
/// of digits without a sign is read in base ten, most significant digit
/// first, and the call does not fail on it.
#[verifier::external_body]
pub(crate) fn parse_decimal(digits: &str) -> (r: Integer)
    requires
        digits@.len() > 0,
        all_decimal_digits(digits@),
    ensures
        r@ == decimal_value(digits@),
{
    let n: num_bigint::BigInt = digits.parse().unwrap();
    Integer { bytes: n.to_signed_bytes_le() }
}

/// The sum, by `+` on `BigInt`. Claimed: the operator adds exactly.
#[verifier::external_body]
pub(crate) fn sum(a: &Integer, b: &Integer) -> (r: Integer)
    ensures
        r@ == a@ + b@,
{
    let x = num_bigint::BigInt::from_signed_bytes_le(&a.bytes);
    let y = num_bigint::BigInt::from_signed_bytes_le(&b.bytes);
    Integer { bytes: (x + y).to_signed_bytes_le() }
}

/// The difference, by `-` on `BigInt`. Claimed: the operator subtracts
/// exactly.
#[verifier::external_body]
pub(crate) fn difference(a: &Integer, b: &Integer) -> (r: Integer)
    ensures
        r@ == a@ - b@,
{
    let x = num_bigint::BigInt::from_signed_bytes_le(&a.bytes);
    let y = num_bigint::BigInt::from_signed_bytes_le(&b.bytes);
    Integer { bytes: (x - y).to_signed_bytes_le() }
}

/// The product, by `*` on `BigInt`. Claimed: the operator multiplies
/// exactly.
#[verifier::external_body]
pub(crate) fn product(a: &Integer, b: &Integer) -> (r: Integer)
    ensures
        r@ == a@ * b@,
{
    let x = num_bigint::BigInt::from_signed_bytes_le(&a.bytes);
    let y = num_bigint::BigInt::from_signed_bytes_le(&b.bytes);
    Integer { bytes: (x * y).to_signed_bytes_le() }
}

/// The quotient, by `/` on `BigInt`. Claimed: the operator divides the
/// magnitudes, drops the remainder and gives the quotient the sign of the
/// exact one. It panics on a zero divisor, which is left out here.
#[verifier::external_body]
pub(crate) fn quotient(a: &Integer, b: &Integer) -> (r: Integer)
    requires
        b@ != 0,
    ensures
        r@ == truncated_quotient(a@, b@),
{
    let x = num_bigint::BigInt::from_signed_bytes_le(&a.bytes);
    let y = num_bigint::BigInt::from_signed_bytes_le(&b.bytes);
    Integer { bytes: (x / y).to_signed_bytes_le() }
}

/// The negation, by unary `-` on `BigInt`. Claimed: the operator flips the
/// sign.
#[verifier::external_body]
pub(crate) fn negation(a: &Integer) -> (r: Integer)
    ensures
        r@ == -a@,
{
    let x = num_bigint::BigInt::from_signed_bytes_le(&a.bytes);
    Integer { bytes: (-x).to_signed_bytes_le() }
}

} // verus!
