//! A cursor over the bytes of a table, and the big-endian fields read from it.
//!
//! Every field of the format is described twice: by a spec function on
//! `Seq<u8>` that says what stands at a position and where the next field
//! starts, and by a method of [`Tape`] that reads it. A read that fails for
//! want of bytes consumes nothing.

use vstd::prelude::*;
use crate::error::Error;

verus! {

/// What a [`Tape`] stands for: the bytes it runs over and how many of them
/// have been consumed.
pub struct Cursor {
    pub bytes: Seq<u8>,
    pub position: int,
}

impl Cursor {
    /// The position is one of the bytes or their end.
    pub open spec fn within(self) -> bool {
        0 <= self.position <= self.bytes.len()
    }
}

/// The outcome of reading one structure at some place in a byte sequence:
/// the value or the error, and the place where reading stopped.
pub struct Parsed<T> {
    pub outcome: Result<T, Error>,
    pub end: int,
}

impl<T> Parsed<T> {
    /// The structure was read and the next one starts at `end`.
    pub open spec fn done(value: T, end: int) -> Parsed<T> {
        Parsed { outcome: Ok(value), end }
    }

    /// Reading failed with `error`, having consumed the bytes before `end`.
    pub open spec fn fail(error: Error, end: int) -> Parsed<T> {
        Parsed { outcome: Err(error), end }
    }
}

/// Two fields, one after the other: `second` is what stands where `first`
/// ended.
pub open spec fn both<A, B>(first: Parsed<A>, second: Parsed<B>) -> Parsed<(A, B)> {
    match first.outcome {
        Err(error) => Parsed::fail(error, first.end),
        Ok(a) => match second.outcome {
            Err(error) => Parsed::fail(error, second.end),
            Ok(b) => Parsed::done((a, b), second.end),
        },
    }
}

/// What was read so far, followed by what the rest of the bytes gives.
pub open spec fn preceded<T>(front: Seq<T>, rest: Parsed<Seq<T>>) -> Parsed<Seq<T>> {
    match rest.outcome {
        Ok(values) => Parsed::done(front + values, rest.end),
        Err(error) => Parsed::fail(error, rest.end),
    }
}

/// The result of an executable reader with its value replaced by the
/// value's view, for comparison with a [`Parsed::outcome`].
pub open spec fn viewed<T: View>(result: Result<T, Error>) -> Result<T::V, Error> {
    match result {
        Ok(value) => Ok(value@),
        Err(error) => Err(error),
    }
}

/// Whether `count` bytes stand at `at`.
pub open spec fn holds(bytes: Seq<u8>, at: int, count: int) -> bool {
    0 <= at && 0 <= count && at + count <= bytes.len()
}

/// The number of whole 16-bit words that stand at `at`.
pub open spec fn words_left(bytes: Seq<u8>, at: int) -> int {
    if 0 <= at <= bytes.len() {
        (bytes.len() - at) / 2
    } else {
        0
    }
}

/// The unsigned 16-bit number whose big-endian bytes are `high` and `low`.
pub open spec fn word(high: u8, low: u8) -> u16 {
    (high * 256 + low) as u16
}

/// The byte read as a number in two's complement.
pub open spec fn signed_byte(byte: u8) -> i8 {
    if byte < 0x80 {
        byte as i8
    } else {
        (byte - 0x100) as i8
    }
}

/// The word read as a number in two's complement.
pub open spec fn signed_word(word: u16) -> i16 {
    if word < 0x8000 {
        word as i16
    } else {
        (word - 0x1_0000) as i16
    }
}

/// The unsigned word that stands at `at`, wherever `holds(bytes, at, 2)`.
pub open spec fn word_at(bytes: Seq<u8>, at: int) -> u16 {
    word(bytes[at], bytes[at + 1])
}

/// One unsigned byte at `at`.
pub open spec fn u8_at(bytes: Seq<u8>, at: int) -> Parsed<u8> {
    if holds(bytes, at, 1) {
        Parsed::done(bytes[at], at + 1)
    } else {
        Parsed::fail(Error::ShortRead, at)
    }
}

/// One signed byte at `at`.
pub open spec fn i8_at(bytes: Seq<u8>, at: int) -> Parsed<i8> {
    if holds(bytes, at, 1) {
        Parsed::done(signed_byte(bytes[at]), at + 1)
    } else {
        Parsed::fail(Error::ShortRead, at)
    }
}

/// One unsigned big-endian word at `at`.
pub open spec fn u16_at(bytes: Seq<u8>, at: int) -> Parsed<u16> {
    if holds(bytes, at, 2) {
        Parsed::done(word_at(bytes, at), at + 2)
    } else {
        Parsed::fail(Error::ShortRead, at)
    }
}

/// One signed big-endian word at `at`.
pub open spec fn i16_at(bytes: Seq<u8>, at: int) -> Parsed<i16> {
    if holds(bytes, at, 2) {
        Parsed::done(signed_word(word_at(bytes, at)), at + 2)
    } else {
        Parsed::fail(Error::ShortRead, at)
    }
}

/// `count` bytes at `at`, taken as they stand.
pub open spec fn bytes_at(bytes: Seq<u8>, at: int, count: nat) -> Parsed<Seq<u8>> {
    if holds(bytes, at, count as int) {
        Parsed::done(bytes.subrange(at, at + count), at + count)
    } else {
        Parsed::fail(Error::ShortRead, at)
    }
}

/// `count` unsigned big-endian words at `at`, read one after the other: where
/// they do not all fit, the words that do are consumed before the read fails.
pub open spec fn u16s_at(bytes: Seq<u8>, at: int, count: nat) -> Parsed<Seq<u16>> {
    if holds(bytes, at, 2 * (count as int)) {
        Parsed::done(Seq::new(count, |i: int| word_at(bytes, at + 2 * i)), at + 2 * count)
    } else {
        Parsed::fail(Error::ShortRead, at + 2 * words_left(bytes, at))
    }
}

/// `count` signed big-endian words at `at`, read as [`u16s_at`] reads.
pub open spec fn i16s_at(bytes: Seq<u8>, at: int, count: nat) -> Parsed<Seq<i16>> {
    if holds(bytes, at, 2 * (count as int)) {
        Parsed::done(
            Seq::new(count, |i: int| signed_word(word_at(bytes, at + 2 * i))),
            at + 2 * count,
        )
    } else {
        Parsed::fail(Error::ShortRead, at + 2 * words_left(bytes, at))
    }
}

/// Where `count` words stand at `at` and no further one behind them, `count`
/// is the number of whole words at `at`.
pub proof fn lemma_words_left(bytes: Seq<u8>, at: int, count: nat)
    requires
        holds(bytes, at, 2 * (count as int)),
        !holds(bytes, at + 2 * count, 2),
    ensures
        words_left(bytes, at) == count,
{
}

/// Nothing in front changes nothing.
pub proof fn lemma_preceded_by_nothing<T>(rest: Parsed<Seq<T>>)
    ensures
        preceded(Seq::empty(), rest) == rest,
{
    if let Ok(values) = rest.outcome {
        assert(Seq::<T>::empty() + values =~= values);
    }
}

/// Two fronts, one after the other, are one front.
pub proof fn lemma_preceded_twice<T>(front: Seq<T>, middle: Seq<T>, rest: Parsed<Seq<T>>)
    ensures
        preceded(front, preceded(middle, rest)) == preceded(front + middle, rest),
{
    if let Ok(values) = rest.outcome {
        assert(front + (middle + values) =~= (front + middle) + values);
    }
}

/// A cursor over an owned sequence of bytes. It only ever moves forward.
pub struct Tape {
    data: Vec<u8>,
    position: usize,
}

impl View for Tape {
    type V = Cursor;

    closed spec fn view(&self) -> Cursor {
        Cursor {
            bytes: self.data@,
            position: if self.position <= self.data@.len() {
                self.position as int
            } else {
                self.data@.len() as int
            },
        }
    }
}

impl Tape {
    #[verifier::type_invariant]
    spec fn within(&self) -> bool {
        self.position <= self.data.len()
    }

    /// The cursor of a tape never stands outside the bytes.
    pub proof fn lemma_within(&self)
        ensures
            self@.within(),
    {
    }

    /// A tape at the start of `data`.
    pub fn new(data: Vec<u8>) -> (tape: Tape)
        ensures
            tape@.bytes == data@,
            tape@.position == 0,
    {
        Tape { data, position: 0 }
    }

    /// The number of bytes consumed so far.
    pub fn position(&self) -> (position: usize)
        ensures
            position == self@.position,
            self@.within(),
    {
        proof {
            use_type_invariant(self);
        }
        self.position
    }

    /// The number of bytes not yet consumed.
    pub fn remaining(&self) -> (count: usize)
        ensures
            count == self@.bytes.len() - self@.position,
            self@.within(),
    {
        proof {
            use_type_invariant(self);
        }
        self.data.len() - self.position
    }

    /// Reads a value of a type that needs no parameter.
    pub fn take<T: Value>(&mut self) -> (result: Result<T, Error>)
        ensures
            final(self)@.bytes == old(self)@.bytes,
            final(self)@.position == T::layout(old(self)@.bytes, old(self)@.position).end,
            viewed(result) == T::layout(old(self)@.bytes, old(self)@.position).outcome,
    {
        T::read(self)
    }

    /// Reads a value of a type that needs a parameter.
    pub fn take_given<T: Walue<P>, P>(&mut self, parameter: P) -> (result: Result<T, Error>)
        ensures
            final(self)@.bytes == old(self)@.bytes,
            final(self)@.position == T::layout(
                old(self)@.bytes,
                old(self)@.position,
                parameter,
            ).end,
            viewed(result) == T::layout(old(self)@.bytes, old(self)@.position, parameter).outcome,
    {
        T::read(self, parameter)
    }

    /// Reads one unsigned byte.
    pub fn read_u8(&mut self) -> (result: Result<u8, Error>)
        ensures
            final(self)@.bytes == old(self)@.bytes,
            final(self)@.position == u8_at(old(self)@.bytes, old(self)@.position).end,
            result == u8_at(old(self)@.bytes, old(self)@.position).outcome,
    {
        proof {
            use_type_invariant(&*self);
        }
        if self.position < self.data.len() {
            let byte = self.data[self.position];
            self.position = self.position + 1;
            Ok(byte)
        } else {
            Err(Error::ShortRead)
        }
    }

    /// Reads one signed byte.
    pub fn read_i8(&mut self) -> (result: Result<i8, Error>)
        ensures
            final(self)@.bytes == old(self)@.bytes,
            final(self)@.position == i8_at(old(self)@.bytes, old(self)@.position).end,
            result == i8_at(old(self)@.bytes, old(self)@.position).outcome,
    {
        match self.read_u8() {
            Ok(byte) => Ok(
                if byte < 0x80 {
                    byte as i8
                } else {
                    (byte as i16 - 0x100) as i8
                },
            ),
            Err(error) => Err(error),
        }
    }

    /// Reads one unsigned big-endian word.
    pub fn read_u16(&mut self) -> (result: Result<u16, Error>)
        ensures
            final(self)@.bytes == old(self)@.bytes,
            final(self)@.position == u16_at(old(self)@.bytes, old(self)@.position).end,
            result == u16_at(old(self)@.bytes, old(self)@.position).outcome,
    {
        proof {
            use_type_invariant(&*self);
        }
        if self.data.len() - self.position >= 2 {
            let high = self.data[self.position];
            let low = self.data[self.position + 1];
            self.position = self.position + 2;
            Ok(high as u16 * 256 + low as u16)
        } else {
            Err(Error::ShortRead)
        }
    }

    /// Reads one signed big-endian word.
    pub fn read_i16(&mut self) -> (result: Result<i16, Error>)
        ensures
            final(self)@.bytes == old(self)@.bytes,
            final(self)@.position == i16_at(old(self)@.bytes, old(self)@.position).end,
            result == i16_at(old(self)@.bytes, old(self)@.position).outcome,
    {
        match self.read_u16() {
            Ok(word) => Ok(
                if word < 0x8000 {
                    word as i16
                } else {
                    (word as i32 - 0x1_0000) as i16
                },
            ),
            Err(error) => Err(error),
        }
    }

    /// Reads `count` bytes as they stand.
    pub fn read_bytes(&mut self, count: usize) -> (result: Result<Vec<u8>, Error>)
        ensures
            final(self)@.bytes == old(self)@.bytes,
            final(self)@.position == bytes_at(
                old(self)@.bytes,
                old(self)@.position,
                count as nat,
            ).end,
            viewed(result) == bytes_at(old(self)@.bytes, old(self)@.position, count as nat).outcome,
    {
        proof {
            use_type_invariant(&*self);
        }
        if count > self.data.len() - self.position {
            return Err(Error::ShortRead);
        }
        let start = self.position;
        let mut values: Vec<u8> = Vec::new();
        let mut i: usize = 0;
        while i < count
            invariant
                i <= count,
                start + count <= self.data.len(),
                values@ == self.data@.subrange(start as int, start + i),
            decreases count - i,
        {
            values.push(self.data[start + i]);
            i = i + 1;
        }
        self.position = start + count;
        Ok(values)
    }

    /// Reads `count` unsigned big-endian words, one after the other.
    pub fn read_u16s(&mut self, count: usize) -> (result: Result<Vec<u16>, Error>)
        ensures
            final(self)@.bytes == old(self)@.bytes,
            final(self)@.position == u16s_at(
                old(self)@.bytes,
                old(self)@.position,
                count as nat,
            ).end,
            viewed(result) == u16s_at(old(self)@.bytes, old(self)@.position, count as nat).outcome,
    {
        proof {
            use_type_invariant(&*self);
        }
        let ghost bytes = self@.bytes;
        let ghost at = self@.position;
        let mut values: Vec<u16> = Vec::new();
        let mut i: usize = 0;
        while i < count
            invariant
                i <= count,
                bytes == old(self)@.bytes,
                at == old(self)@.position,
                self@.bytes == bytes,
                self@.position == at + 2 * i,
                holds(bytes, at, 2 * i),
                values@ == Seq::new(i as nat, |k: int| word_at(bytes, at + 2 * k)),
            decreases count - i,
        {
            match self.read_u16() {
                Ok(value) => values.push(value),
                Err(error) => {
                    return Err(error);
                },
            }
            i = i + 1;
        }
        Ok(values)
    }

    /// Reads `count` signed big-endian words, one after the other.
    pub fn read_i16s(&mut self, count: usize) -> (result: Result<Vec<i16>, Error>)
        ensures
            final(self)@.bytes == old(self)@.bytes,
            final(self)@.position == i16s_at(
                old(self)@.bytes,
                old(self)@.position,
                count as nat,
            ).end,
            viewed(result) == i16s_at(old(self)@.bytes, old(self)@.position, count as nat).outcome,
    {
        proof {
            use_type_invariant(&*self);
        }
        let ghost bytes = self@.bytes;
        let ghost at = self@.position;
        let mut values: Vec<i16> = Vec::new();
        let mut i: usize = 0;
        while i < count
            invariant
                i <= count,
                bytes == old(self)@.bytes,
                at == old(self)@.position,
                self@.bytes == bytes,
                self@.position == at + 2 * i,
                holds(bytes, at, 2 * i),
                values@ == Seq::new(i as nat, |k: int| signed_word(word_at(bytes, at + 2 * k))),
            decreases count - i,
        {
            match self.read_i16() {
                Ok(value) => values.push(value),
                Err(error) => {
                    return Err(error);
                },
            }
            i = i + 1;
        }
        Ok(values)
    }
}

/// A type that can be read from a tape without further knowledge.
pub trait Value: Sized + View {
    /// What stands at `at`, and where it ends.
    spec fn layout(bytes: Seq<u8>, at: int) -> Parsed<Self::V>;

    /// Reads a value. The bytes stay as they are, and the cursor ends where
    /// the layout says, whether reading succeeds or fails.
    fn read(tape: &mut Tape) -> (result: Result<Self, Error>)
        ensures
            final(tape)@.bytes == old(tape)@.bytes,
            final(tape)@.position == Self::layout(old(tape)@.bytes, old(tape)@.position).end,
            viewed(result) == Self::layout(old(tape)@.bytes, old(tape)@.position).outcome,
    ;
}

/// A type that can be read from a tape given a parameter: a value read
/// earlier that decides how many fields follow, or of which width.
pub trait Walue<P>: Sized + View {
    /// What stands at `at` under `parameter`, and where it ends.
    spec fn layout(bytes: Seq<u8>, at: int, parameter: P) -> Parsed<Self::V>;

    /// Reads a value. The bytes stay as they are, and the cursor ends where
    /// the layout says, whether reading succeeds or fails.
    fn read(tape: &mut Tape, parameter: P) -> (result: Result<Self, Error>)
        ensures
            final(tape)@.bytes == old(tape)@.bytes,
            final(tape)@.position == Self::layout(
                old(tape)@.bytes,
                old(tape)@.position,
                parameter,
            ).end,
            viewed(result) == Self::layout(
                old(tape)@.bytes,
                old(tape)@.position,
                parameter,
            ).outcome,
    ;
}

impl Value for u8 {
    open spec fn layout(bytes: Seq<u8>, at: int) -> Parsed<u8> {
        u8_at(bytes, at)
    }

    fn read(tape: &mut Tape) -> (result: Result<u8, Error>) {
        tape.read_u8()
    }
}

impl Value for i8 {
    open spec fn layout(bytes: Seq<u8>, at: int) -> Parsed<i8> {
        i8_at(bytes, at)
    }

    fn read(tape: &mut Tape) -> (result: Result<i8, Error>) {
        tape.read_i8()
    }
}

impl Value for u16 {
    open spec fn layout(bytes: Seq<u8>, at: int) -> Parsed<u16> {
        u16_at(bytes, at)
    }

    fn read(tape: &mut Tape) -> (result: Result<u16, Error>) {
        tape.read_u16()
    }
}

impl Value for i16 {
    open spec fn layout(bytes: Seq<u8>, at: int) -> Parsed<i16> {
        i16_at(bytes, at)
    }

    fn read(tape: &mut Tape) -> (result: Result<i16, Error>) {
        tape.read_i16()
    }
}

impl Walue<usize> for Vec<u8> {
    open spec fn layout(bytes: Seq<u8>, at: int, count: usize) -> Parsed<Seq<u8>> {
        bytes_at(bytes, at, count as nat)
    }

    fn read(tape: &mut Tape, count: usize) -> (result: Result<Vec<u8>, Error>) {
        tape.read_bytes(count)
    }
}

impl Walue<usize> for Vec<u16> {
    open spec fn layout(bytes: Seq<u8>, at: int, count: usize) -> Parsed<Seq<u16>> {
        u16s_at(bytes, at, count as nat)
    }

    fn read(tape: &mut Tape, count: usize) -> (result: Result<Vec<u16>, Error>) {
        tape.read_u16s(count)
    }
}

impl Walue<usize> for Vec<i16> {
    open spec fn layout(bytes: Seq<u8>, at: int, count: usize) -> Parsed<Seq<i16>> {
        i16s_at(bytes, at, count as nat)
    }

    fn read(tape: &mut Tape, count: usize) -> (result: Result<Vec<i16>, Error>) {
        tape.read_i16s(count)
    }
}

} // verus!
