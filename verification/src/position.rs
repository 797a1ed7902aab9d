//! Source positions and the spans between them.

use vstd::prelude::*;

verus! {

/// A cursor into a source text.
///
/// `idx` is the offset of the cursor in characters, `col` and `row` locate it
/// on the page, `fd` names the source and `text` holds it. `len` is the number
/// of characters of `text` plus one: the extra slot stands for the place just
/// behind the last character.
#[derive(Debug, PartialEq, Eq)]
pub struct Position {
    pub idx: usize,
    pub col: u128,
    pub row: u128,
    pub fd: String,
    pub text: String,
    pub len: usize,
}

/// The stretch of source between two positions.
#[derive(Debug, PartialEq, Eq)]
pub struct PosCtx {
    pub pos_start: Box<Position>,
    pub pos_end: Box<Position>,
}

/// The spans, out of their boxes.
pub open spec fn span_values(posctxs: Seq<Box<PosCtx>>) -> Seq<PosCtx> {
    Seq::new(posctxs.len(), |i: int| *posctxs[i])
}

impl Position {
    /// The cursor stays within its text, whose length it records.
    pub open spec fn wf(&self) -> bool {
        &&& self.len == self.text@.len() + 1
        &&& self.idx <= self.len
    }

    /// The position behind the character `cur_char`, read at `self`.
    pub open spec fn advanced(self, cur_char: char) -> Position {
        Position {
            idx: (self.idx + 1) as usize,
            col: if cur_char == '\n' {
                0
            } else {
                (self.col + 1) as u128
            },
            row: if cur_char == '\n' {
                (self.row + 1) as u128
            } else {
                self.row
            },
            fd: self.fd,
            text: self.text,
            len: self.len,
        }
    }

    /// Moves past one character: the offset and the column grow by one, and a
    /// line feed starts a new row at column zero.
    pub fn advance(&mut self, cur_char: char)
        requires
            old(self).idx < old(self).len,
            old(self).col < u128::MAX,
            old(self).row < u128::MAX,
        ensures
            *final(self) == old(self).advanced(cur_char),
            final(self).idx == old(self).idx + 1,
            old(self).wf() ==> final(self).wf(),
    {
        self.idx += 1;
        self.col += 1;
        if cur_char == '\n' {
            self.col = 0;
            self.row += 1;
        }
    }
}

impl Clone for Position {
    fn clone(&self) -> (r: Self)
        ensures
            r == *self,
    {
        Position {
            idx: self.idx,
            col: self.col,
            row: self.row,
            fd: self.fd.clone(),
            text: self.text.clone(),
            len: self.len,
        }
    }
}

impl PosCtx {
    /// Both ends are well formed.
    pub open spec fn wf(&self) -> bool {
        self.pos_start.wf() && self.pos_end.wf()
    }

    /// The span from the start of `self` to the end of `other`.
    pub open spec fn merged(self, other: PosCtx) -> PosCtx {
        PosCtx { pos_start: self.pos_start, pos_end: other.pos_end }
    }

    /// Widens a span: the result starts where `self` starts and ends where
    /// `other` ends.
    pub fn merge(&self, other: &Box<PosCtx>) -> (r: Box<PosCtx>)
        ensures
            *r == self.merged(**other),
    {
        Box::new(PosCtx { pos_start: self.pos_start.clone(), pos_end: other.pos_end.clone() })
    }
}

impl Clone for PosCtx {
    fn clone(&self) -> (r: Self)
        ensures
            r == *self,
    {
        PosCtx { pos_start: self.pos_start.clone(), pos_end: self.pos_end.clone() }
    }
}

} // verus!
