//! Floating-point values, and the computations on them that the library
//! leaves to its caller.
//!
//! A 64-bit float is held as its IEEE 754 bit pattern. The library negates
//! such a value and tells whether it is zero, on the bits. Every other
//! computation is described by a [`FloatTask`] and carried out by the caller,
//! who hands the results back in a [`FloatResults`].

use crate::integer::Integer;
use vstd::prelude::*;

verus! {

/// The bit that holds the sign of a 64-bit float.
pub const SIGN_BIT: u64 = 0x8000_0000_0000_0000;

/// Whether `bits` is the pattern of zero, positive or negative.
pub open spec fn is_zero_bits(bits: u64) -> bool {
    bits == 0 || bits == SIGN_BIT
}

/// The pattern of the negated float: the sign bit is flipped.
pub open spec fn negated_bits(bits: u64) -> u64 {
    bits ^ SIGN_BIT
}

/// Whether the float with the pattern `bits` equals zero.
pub fn bits_are_zero(bits: u64) -> (r: bool)
    ensures
        r == is_zero_bits(bits),
{
    bits == 0 || bits == SIGN_BIT
}

/// The pattern of the negation of the float with the pattern `bits`.
pub fn negate_bits(bits: u64) -> (r: u64)
    ensures
        r == negated_bits(bits),
{
    bits ^ SIGN_BIT
}

/// A binary operation on floats.
#[derive(Debug, Clone, Copy, PartialEq, Eq, Structural)]
pub enum FloatOp {
    Add,
    Sub,
    Mul,
    Div,
    Pow,
}

/// An operand of a floating-point operation: an integer that has yet to be
/// converted, or the bit pattern of a float.
#[derive(Debug)]
#[allow(inconsistent_fields)]
pub enum Operand {
    Int { value: Integer },
    Float { value: u64 },
}

/// The model of an [`Operand`].
#[allow(inconsistent_fields)]
pub enum OperandView {
    Int { value: int },
    Float { value: u64 },
}

impl View for Operand {
    type V = OperandView;

    open spec fn view(&self) -> OperandView {
        match self {
            Operand::Int { value } => OperandView::Int { value: value@ },
            Operand::Float { value } => OperandView::Float { value: *value },
        }
    }
}

/// A floating-point computation for the caller to carry out: the result is
/// the bit pattern of a 64-bit float.
#[derive(Debug)]
pub enum FloatTask {
    /// Read the decimal literal `text`.
    Literal { text: String },
    /// Convert both operands to floats and apply `op`.
    Binary { op: FloatOp, left: Operand, right: Operand },
}

/// The model of a [`FloatTask`].
pub enum FloatTaskView {
    Literal { text: Seq<char> },
    Binary { op: FloatOp, left: OperandView, right: OperandView },
}

impl View for FloatTask {
    type V = FloatTaskView;

    open spec fn view(&self) -> FloatTaskView {
        match self {
            FloatTask::Literal { text } => FloatTaskView::Literal { text: text@ },
            FloatTask::Binary { op, left, right } => FloatTaskView::Binary {
                op: *op,
                left: left@,
                right: right@,
            },
        }
    }
}

/// The results of the floating-point computations that an evaluation has
/// asked for so far, in the order in which it asked, with a mark behind the
/// last one that the evaluation under way has read.
#[derive(Debug)]
pub struct FloatResults {
    pub values: Vec<u64>,
    pub used: usize,
}

impl FloatResults {
    /// The mark lies within the list.
    pub open spec fn wf(&self) -> bool {
        self.used <= self.values.len()
    }

    /// An empty list.
    pub fn new() -> (r: FloatResults)
        ensures
            r.values@ == Seq::<u64>::empty(),
            r.used == 0,
            r.wf(),
    {
        FloatResults { values: Vec::new(), used: 0 }
    }

    /// Appends the result of the task that the last evaluation stopped at,
    /// and moves the mark back to the start for the next evaluation.
    pub fn supply(&mut self, bits: u64)
        ensures
            final(self).values@ == old(self).values@.push(bits),
            final(self).used == 0,
            final(self).wf(),
    {
        self.values.push(bits);
        self.used = 0;
    }

    /// Moves the mark back to the start.
    pub fn rewind(&mut self)
        ensures
            final(self).values == old(self).values,
            final(self).used == 0,
            final(self).wf(),
    {
        self.used = 0;
    }

    /// Reads the next result, if there is one, and moves the mark behind it.
    pub fn take(&mut self) -> (r: Option<u64>)
        requires
            old(self).wf(),
        ensures
            final(self).values == old(self).values,
            final(self).wf(),
            r == next_result(old(self).values@, old(self).used as nat),
            final(self).used == used_after(old(self).values@, old(self).used as nat),
    {
        if self.used < self.values.len() {
            let bits = self.values[self.used];
            self.used += 1;
            Some(bits)
        } else {
            None
        }
    }
}

/// The result at the mark `used`, if the list reaches that far.
pub open spec fn next_result(values: Seq<u64>, used: nat) -> Option<u64> {
    if used < values.len() {
        Some(values[used as int])
    } else {
        None
    }
}

/// The mark after one more result was asked for at `used`.
pub open spec fn used_after(values: Seq<u64>, used: nat) -> nat {
    if used < values.len() {
        used + 1
    } else {
        used
    }
}

} // verus!
