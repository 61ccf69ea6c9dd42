//! Fixed-point numbers.

use vstd::prelude::*;
use crate::error::Error;
use crate::tape::{holds, signed_word, word_at, words_left, Parsed, Tape, Value};

verus! {

/// A fixed-point number with two integer bits, the sign among them, and 14
/// fraction bits, kept as the 16 bits that were read.
#[allow(non_camel_case_types)]
#[derive(Clone, Copy, Debug, PartialEq, Eq)]
pub struct q16(pub u16);

/// One fixed-point number at `at`: a big-endian word.
pub open spec fn q16_at(bytes: Seq<u8>, at: int) -> Parsed<q16> {
    if holds(bytes, at, 2) {
        Parsed::done(q16(word_at(bytes, at)), at + 2)
    } else {
        Parsed::fail(Error::ShortRead, at)
    }
}

/// `count` fixed-point numbers at `at`, read one after the other: where they
/// do not all fit, those that do are consumed before the read fails.
pub open spec fn q16s_at(bytes: Seq<u8>, at: int, count: nat) -> Parsed<Seq<q16>> {
    if holds(bytes, at, 2 * (count as int)) {
        Parsed::done(Seq::new(count, |i: int| q16(word_at(bytes, at + 2 * i))), at + 2 * count)
    } else {
        Parsed::fail(Error::ShortRead, at + 2 * words_left(bytes, at))
    }
}

impl q16 {
    /// The number times 2 to the 14th: the bits in two's complement.
    #[verifier::allow_in_spec]
    pub fn numerator(self) -> i16
        returns
            signed_word(self.0),
    {
        if self.0 < 0x8000 {
            self.0 as i16
        } else {
            (self.0 as i32 - 0x1_0000) as i16
        }
    }

    /// Reads one fixed-point number.
    pub fn read(tape: &mut Tape) -> (result: Result<q16, Error>)
        ensures
            final(tape)@.bytes == old(tape)@.bytes,
            final(tape)@.position == q16_at(old(tape)@.bytes, old(tape)@.position).end,
            result == q16_at(old(tape)@.bytes, old(tape)@.position).outcome,
    {
        match tape.read_u16() {
            Ok(bits) => Ok(q16(bits)),
            Err(error) => Err(error),
        }
    }
}

impl View for q16 {
    type V = q16;

    open spec fn view(&self) -> q16 {
        *self
    }
}

impl Value for q16 {
    open spec fn layout(bytes: Seq<u8>, at: int) -> Parsed<q16> {
        q16_at(bytes, at)
    }

    fn read(tape: &mut Tape) -> (result: Result<q16, Error>) {
        q16::read(tape)
    }
}

} // verus!
