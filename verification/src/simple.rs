//! Simple outlines: glyphs described by their own contours.
//!
//! After the end points of the contours and the instructions come one flag
//! for each point, run-length encoded, then the x coordinates of all points
//! and then their y coordinates. How many bytes a coordinate takes, if any,
//! is decided by the flag of its point.

use vstd::prelude::*;
use crate::error::{Cause, Error};
use crate::flags;
use crate::flags::Axis;
use crate::instructions::{instructions_at, read_instructions};
use crate::tape::{
    holds, i16_at, lemma_preceded_by_nothing, lemma_preceded_twice, preceded, u16s_at, u8_at,
    viewed, Parsed, Tape, Walue,
};

verus! {

/// A simple-glyph description. The coordinates are kept as they are stored:
/// each is the distance from the point before, the first one from the origin.
#[derive(Clone, Debug, PartialEq, Eq)]
pub struct Simple {
    /// For each contour, the number of its last point.
    pub end_points: Vec<u16>,
    /// The number of bytes of instructions.
    pub instruction_size: u16,
    /// The instructions, not interpreted here.
    pub instructions: Vec<u8>,
    /// The flags, one for each point.
    pub flags: Vec<u8>,
    /// The x coordinates, one for each point.
    pub x: Vec<i16>,
    /// The y coordinates, one for each point.
    pub y: Vec<i16>,
}

/// What a [`Simple`] stands for.
pub struct SimpleView {
    pub end_points: Seq<u16>,
    pub instruction_size: u16,
    pub instructions: Seq<u8>,
    pub flags: Seq<u8>,
    pub x: Seq<i16>,
    pub y: Seq<i16>,
}

impl View for Simple {
    type V = SimpleView;

    open spec fn view(&self) -> SimpleView {
        SimpleView {
            end_points: self.end_points@,
            instruction_size: self.instruction_size,
            instructions: self.instructions@,
            flags: self.flags@,
            x: self.x@,
            y: self.y@,
        }
    }
}

/// No contour ends before the one in front of it. Two contours may end at
/// the same point.
pub open spec fn non_decreasing(end_points: Seq<u16>) -> bool {
    forall|i: int| 0 <= i && i + 1 < end_points.len() ==> end_points[i] <= #[trigger] end_points[i + 1]
}

/// The number of points of an outline whose contours end at `end_points`.
pub open spec fn point_count(end_points: Seq<u16>) -> nat {
    if end_points.len() == 0 {
        0
    } else {
        (end_points.last() + 1) as nat
    }
}

/// One run of flags at `at`, where `room` points are still without a flag:
/// the flag and how often it stands. A flag without the repeat bit stands
/// once. A flag with it is followed by a byte that says how often the flag
/// stands, which is at least once and for no more points than there is room.
/// Reserved bits are refused before the count is looked at.
pub open spec fn run_at(bytes: Seq<u8>, at: int, room: nat) -> Parsed<(u8, nat)> {
    let flag = u8_at(bytes, at);
    match flag.outcome {
        Err(error) => Parsed::fail(error, flag.end),
        Ok(flag_bits) => if flags::Simple(flag_bits).is_invalid() {
            Parsed::fail(Error::MalformedGlyph(Cause::ReservedFlagBits), flag.end)
        } else if !flags::Simple(flag_bits).is_repeated() {
            Parsed::done((flag_bits, 1nat), flag.end)
        } else {
            let count = u8_at(bytes, flag.end);
            match count.outcome {
                Err(error) => Parsed::fail(error, count.end),
                Ok(times) => if times == 0 {
                    Parsed::fail(Error::MalformedGlyph(Cause::EmptyFlagRun), count.end)
                } else if times > room {
                    Parsed::fail(Error::MalformedGlyph(Cause::FlagOverrun), count.end)
                } else {
                    Parsed::done((flag_bits, times as nat), count.end)
                },
            }
        },
    }
}

/// The flags of `count` points at `at`: runs, one after the other, until
/// every point has its flag.
pub open spec fn flags_at(bytes: Seq<u8>, at: int, count: nat) -> Parsed<Seq<u8>>
    decreases count,
{
    if count == 0 {
        Parsed::done(Seq::empty(), at)
    } else {
        let run = run_at(bytes, at, count);
        match run.outcome {
            Err(error) => Parsed::fail(error, run.end),
            Ok((flag, times)) => preceded(
                Seq::new(times, |i: int| flag),
                flags_at(bytes, run.end, (count - times) as nat),
            ),
        }
    }
}

/// One coordinate at `at`, of a point whose flag is `flag`. A short
/// coordinate is one byte, the magnitude, with the sign in the flag. One
/// that is not short is either the same as that of the point before, which
/// takes no bytes and is a distance of zero, or a signed word.
pub open spec fn delta_at(bytes: Seq<u8>, at: int, flag: u8, axis: Axis) -> Parsed<i16> {
    if flags::Simple(flag).is_short(axis) {
        let magnitude = u8_at(bytes, at);
        match magnitude.outcome {
            Err(error) => Parsed::fail(error, magnitude.end),
            Ok(value) => Parsed::done(
                if flags::Simple(flag).is_positive(axis) {
                    value as i16
                } else {
                    (-(value as int)) as i16
                },
                magnitude.end,
            ),
        }
    } else if flags::Simple(flag).is_same(axis) {
        Parsed::done(0i16, at)
    } else {
        i16_at(bytes, at)
    }
}

/// The coordinates on `axis` of the points whose flags are `flags`, at `at`.
pub open spec fn deltas_at(bytes: Seq<u8>, at: int, flags: Seq<u8>, axis: Axis) -> Parsed<Seq<i16>>
    decreases flags.len(),
{
    if flags.len() == 0 {
        Parsed::done(Seq::empty(), at)
    } else {
        let first = delta_at(bytes, at, flags.first(), axis);
        match first.outcome {
            Err(error) => Parsed::fail(error, first.end),
            Ok(delta) => preceded(
                seq![delta],
                deltas_at(bytes, first.end, flags.drop_first(), axis),
            ),
        }
    }
}

/// What follows the end points of a simple outline: the instructions, the
/// flags and the coordinates.
pub open spec fn points_at(bytes: Seq<u8>, at: int, end_points: Seq<u16>) -> Parsed<SimpleView> {
    let code = instructions_at(bytes, at);
    match code.outcome {
        Err(error) => Parsed::fail(error, code.end),
        Ok((instruction_size, instructions)) => {
            let flags = flags_at(bytes, code.end, point_count(end_points));
            match flags.outcome {
                Err(error) => Parsed::fail(error, flags.end),
                Ok(point_flags) => {
                    let x = deltas_at(bytes, flags.end, point_flags, Axis::X);
                    match x.outcome {
                        Err(error) => Parsed::fail(error, x.end),
                        Ok(xs) => {
                            let y = deltas_at(bytes, x.end, point_flags, Axis::Y);
                            match y.outcome {
                                Err(error) => Parsed::fail(error, y.end),
                                Ok(ys) => Parsed::done(
                                    SimpleView {
                                        end_points,
                                        instruction_size,
                                        instructions,
                                        flags: point_flags,
                                        x: xs,
                                        y: ys,
                                    },
                                    y.end,
                                ),
                            }
                        },
                    }
                },
            }
        },
    }
}

/// A simple outline of `contour_count` contours at `at`. End points that
/// decrease are refused as soon as they are read, before anything behind
/// them is looked at.
pub open spec fn simple_at(bytes: Seq<u8>, at: int, contour_count: nat) -> Parsed<SimpleView> {
    let ends = u16s_at(bytes, at, contour_count);
    match ends.outcome {
        Err(error) => Parsed::fail(error, ends.end),
        Ok(end_points) => if non_decreasing(end_points) {
            points_at(bytes, ends.end, end_points)
        } else {
            Parsed::fail(Error::MalformedGlyph(Cause::DecreasingEndPoints), ends.end)
        },
    }
}

impl SimpleView {
    /// What holds of every outline that was read: the contours end in
    /// order, there are as many bytes of instructions as the size says, each
    /// point has one flag and one coordinate on each axis, and no flag has a
    /// reserved bit set.
    pub open spec fn consistent(self) -> bool {
        &&& non_decreasing(self.end_points)
        &&& self.instructions.len() == self.instruction_size
        &&& self.flags.len() == point_count(self.end_points)
        &&& self.x.len() == point_count(self.end_points)
        &&& self.y.len() == point_count(self.end_points)
        &&& forall|i: int|
            0 <= i < self.flags.len() ==> !flags::Simple(#[trigger] self.flags[i]).is_invalid()
    }
}

/// Flags that were read are as many as were asked for, and none of them has
/// a reserved bit set.
pub proof fn lemma_flags_read(bytes: Seq<u8>, at: int, count: nat)
    ensures
        flags_at(bytes, at, count).outcome matches Ok(flags) ==> {
            &&& flags.len() == count
            &&& forall|i: int|
                0 <= i < flags.len() ==> !flags::Simple(#[trigger] flags[i]).is_invalid()
        },
    decreases count,
{
    if count > 0 {
        let run = run_at(bytes, at, count);
        if let Ok((flag, times)) = run.outcome {
            lemma_flags_read(bytes, run.end, (count - times) as nat);
        }
    }
}

/// Coordinates that were read are as many as there are flags.
pub proof fn lemma_deltas_read(bytes: Seq<u8>, at: int, flags: Seq<u8>, axis: Axis)
    ensures
        deltas_at(bytes, at, flags, axis).outcome matches Ok(deltas) ==> deltas.len()
            == flags.len(),
    decreases flags.len(),
{
    if flags.len() > 0 {
        let first = delta_at(bytes, at, flags.first(), axis);
        if first.outcome is Ok {
            lemma_deltas_read(bytes, first.end, flags.drop_first(), axis);
        }
    }
}

/// Every simple outline that was read is consistent, and has as many
/// contours as were asked for.
pub proof fn lemma_simple_consistent(bytes: Seq<u8>, at: int, contour_count: nat)
    ensures
        simple_at(bytes, at, contour_count).outcome matches Ok(outline) ==> {
            &&& outline.consistent()
            &&& outline.end_points.len() == contour_count
        },
{
    let ends = u16s_at(bytes, at, contour_count);
    if let Ok(end_points) = ends.outcome {
        let code = instructions_at(bytes, ends.end);
        if let Ok((instruction_size, instructions)) = code.outcome {
            let count = point_count(end_points);
            lemma_flags_read(bytes, code.end, count);
            let flags = flags_at(bytes, code.end, count);
            if let Ok(point_flags) = flags.outcome {
                lemma_deltas_read(bytes, flags.end, point_flags, Axis::X);
                let x = deltas_at(bytes, flags.end, point_flags, Axis::X);
                lemma_deltas_read(bytes, x.end, point_flags, Axis::Y);
            }
        }
    }
}

/// Reading flags moves the cursor forward and never outside the bytes.
pub proof fn lemma_flags_end(bytes: Seq<u8>, at: int, count: nat)
    requires
        0 <= at <= bytes.len(),
    ensures
        at <= flags_at(bytes, at, count).end <= bytes.len(),
    decreases count,
{
    if count > 0 {
        let run = run_at(bytes, at, count);
        if let Ok((flag, times)) = run.outcome {
            lemma_flags_end(bytes, run.end, (count - times) as nat);
        }
    }
}

/// Reading coordinates moves the cursor forward and never outside the
/// bytes.
pub proof fn lemma_deltas_end(bytes: Seq<u8>, at: int, flags: Seq<u8>, axis: Axis)
    requires
        0 <= at <= bytes.len(),
    ensures
        at <= deltas_at(bytes, at, flags, axis).end <= bytes.len(),
    decreases flags.len(),
{
    if flags.len() > 0 {
        let first = delta_at(bytes, at, flags.first(), axis);
        if first.outcome is Ok {
            lemma_deltas_end(bytes, first.end, flags.drop_first(), axis);
        }
    }
}

/// Reading a simple outline moves the cursor forward and never outside the
/// bytes.
pub proof fn lemma_simple_end(bytes: Seq<u8>, at: int, contour_count: nat)
    requires
        0 <= at <= bytes.len(),
    ensures
        at <= simple_at(bytes, at, contour_count).end <= bytes.len(),
{
    let ends = u16s_at(bytes, at, contour_count);
    if let Ok(end_points) = ends.outcome {
        let code = instructions_at(bytes, ends.end);
        if code.outcome is Ok {
            let count = point_count(end_points);
            lemma_flags_end(bytes, code.end, count);
            let flags = flags_at(bytes, code.end, count);
            if let Ok(point_flags) = flags.outcome {
                lemma_deltas_end(bytes, flags.end, point_flags, Axis::X);
                let x = deltas_at(bytes, flags.end, point_flags, Axis::X);
                lemma_deltas_end(bytes, x.end, point_flags, Axis::Y);
            }
        }
    }
}

/// End points that decrease are refused with the cursor right behind them:
/// nothing that follows them has been consumed.
pub proof fn lemma_decreasing_end_points_refused(bytes: Seq<u8>, at: int, contour_count: nat)
    requires
        u16s_at(bytes, at, contour_count).outcome matches Ok(end_points) && !non_decreasing(
            end_points,
        ),
    ensures
        simple_at(bytes, at, contour_count) == Parsed::<SimpleView>::fail(
            Error::MalformedGlyph(Cause::DecreasingEndPoints),
            at + 2 * contour_count,
        ),
{
}

/// A flag with a reserved bit set is refused with the cursor right behind
/// it: neither a count nor a coordinate has been consumed.
pub proof fn lemma_reserved_flag_bits_refused(bytes: Seq<u8>, at: int, count: nat)
    requires
        count > 0,
        holds(bytes, at, 1),
        flags::Simple(bytes[at]).is_invalid(),
    ensures
        flags_at(bytes, at, count) == Parsed::<Seq<u8>>::fail(
            Error::MalformedGlyph(Cause::ReservedFlagBits),
            at + 1,
        ),
{
}

/// Wherever the flags are refused for a reserved bit, the cursor stands
/// right behind the flag that has it: the reading went no further.
pub proof fn lemma_reserved_flag_bits_met(bytes: Seq<u8>, at: int, count: nat)
    ensures
        flags_at(bytes, at, count).outcome == Err::<Seq<u8>, Error>(
            Error::MalformedGlyph(Cause::ReservedFlagBits),
        ) ==> {
            let end = flags_at(bytes, at, count).end;
            &&& at < end
            &&& holds(bytes, end - 1, 1)
            &&& flags::Simple(bytes[end - 1]).is_invalid()
        },
    decreases count,
{
    if count > 0 {
        let run = run_at(bytes, at, count);
        if let Ok((flag, times)) = run.outcome {
            lemma_reserved_flag_bits_met(bytes, run.end, (count - times) as nat);
        }
    }
}

/// A flag that is said to stand zero times is refused.
pub proof fn lemma_empty_run_refused(bytes: Seq<u8>, at: int, count: nat)
    requires
        count > 0,
        holds(bytes, at, 2),
        !flags::Simple(bytes[at]).is_invalid(),
        flags::Simple(bytes[at]).is_repeated(),
        bytes[at + 1] == 0,
    ensures
        flags_at(bytes, at, count) == Parsed::<Seq<u8>>::fail(
            Error::MalformedGlyph(Cause::EmptyFlagRun),
            at + 2,
        ),
{
}

/// A flag that is said to stand more often than there are points left is
/// refused.
pub proof fn lemma_flag_overrun_refused(bytes: Seq<u8>, at: int, count: nat)
    requires
        count > 0,
        holds(bytes, at, 2),
        !flags::Simple(bytes[at]).is_invalid(),
        flags::Simple(bytes[at]).is_repeated(),
        bytes[at + 1] > count,
    ensures
        flags_at(bytes, at, count) == Parsed::<Seq<u8>>::fail(
            Error::MalformedGlyph(Cause::FlagOverrun),
            at + 2,
        ),
{
}

/// A flag that is repeated stands as often as the count behind it says, and
/// the flags of the other points follow the count.
pub proof fn lemma_run_expanded(bytes: Seq<u8>, at: int, count: nat)
    requires
        holds(bytes, at, 2),
        !flags::Simple(bytes[at]).is_invalid(),
        flags::Simple(bytes[at]).is_repeated(),
        0 < bytes[at + 1] <= count,
    ensures
        flags_at(bytes, at, count) == preceded(
            Seq::new(bytes[at + 1] as nat, |i: int| bytes[at]),
            flags_at(bytes, at + 2, (count - bytes[at + 1]) as nat),
        ),
{
}

/// The three forms of a coordinate. A short one is the byte at the cursor,
/// taken as it is where the flag says positive and negated where not. One
/// that is the same as before is zero and takes no byte. Any other is the
/// signed word at the cursor.
pub proof fn lemma_coordinate_forms(bytes: Seq<u8>, at: int, flag: u8, axis: Axis)
    ensures
        flags::Simple(flag).is_short(axis) && flags::Simple(flag).is_positive(axis) && holds(
            bytes,
            at,
            1,
        ) ==> delta_at(bytes, at, flag, axis) == Parsed::done(bytes[at] as i16, at + 1),
        flags::Simple(flag).is_short(axis) && !flags::Simple(flag).is_positive(axis) && holds(
            bytes,
            at,
            1,
        ) ==> delta_at(bytes, at, flag, axis) == Parsed::done((-bytes[at]) as i16, at + 1),
        !flags::Simple(flag).is_short(axis) && flags::Simple(flag).is_same(axis) ==> delta_at(
            bytes,
            at,
            flag,
            axis,
        ) == Parsed::done(0i16, at),
        !flags::Simple(flag).is_short(axis) && !flags::Simple(flag).is_same(axis) ==> delta_at(
            bytes,
            at,
            flag,
            axis,
        ) == i16_at(bytes, at),
{
}

impl Default for Simple {
    /// A simple outline without contours.
    fn default() -> (simple: Simple)
        ensures
            simple@.end_points.len() == 0,
            simple@.instruction_size == 0,
            simple@.instructions.len() == 0,
            simple@.flags.len() == 0,
            simple@.x.len() == 0,
            simple@.y.len() == 0,
    {
        Simple {
            end_points: Vec::new(),
            instruction_size: 0,
            instructions: Vec::new(),
            flags: Vec::new(),
            x: Vec::new(),
            y: Vec::new(),
        }
    }
}

/// Tells whether no contour ends before the one in front of it.
pub fn is_non_decreasing(end_points: &[u16]) -> (result: bool)
    ensures
        result == non_decreasing(end_points@),
{
    let mut i: usize = 1;
    while i < end_points.len()
        invariant
            1 <= i,
            forall|k: int| 0 <= k && k + 1 < i ==> end_points@[k] <= #[trigger] end_points@[k + 1],
        decreases end_points.len() - i,
    {
        if end_points[i - 1] > end_points[i] {
            assert(!(end_points@[i - 1] <= end_points@[(i - 1) + 1]));
            return false;
        }
        i = i + 1;
    }
    true
}

impl Simple {
    /// Reads the flags of `count` points.
    pub fn read_flags(tape: &mut Tape, count: usize) -> (result: Result<Vec<u8>, Error>)
        ensures
            final(tape)@.bytes == old(tape)@.bytes,
            final(tape)@.position == flags_at(
                old(tape)@.bytes,
                old(tape)@.position,
                count as nat,
            ).end,
            viewed(result) == flags_at(old(tape)@.bytes, old(tape)@.position, count as nat).outcome,
    {
        let ghost bytes = tape@.bytes;
        let ghost whole = flags_at(bytes, tape@.position, count as nat);
        let mut flags: Vec<u8> = Vec::new();
        proof {
            lemma_preceded_by_nothing(whole);
        }
        while flags.len() < count
            invariant
                bytes == old(tape)@.bytes,
                tape@.bytes == bytes,
                flags.len() <= count,
                whole == flags_at(bytes, old(tape)@.position, count as nat),
                whole == preceded(
                    flags@,
                    flags_at(bytes, tape@.position, (count - flags.len()) as nat),
                ),
            decreases count - flags.len(),
        {
            let ghost front = flags@;
            let ghost room = (count - flags.len()) as nat;
            let ghost run = run_at(bytes, tape@.position, room);
            let flag = match tape.read_u8() {
                Ok(flag) => flag,
                Err(error) => {
                    return Err(error);
                },
            };
            if flags::Simple(flag).is_invalid() {
                return Err(Error::MalformedGlyph(Cause::ReservedFlagBits));
            }
            let times: usize = if flags::Simple(flag).is_repeated() {
                match tape.read_u8() {
                    Ok(times) => times as usize,
                    Err(error) => {
                        return Err(error);
                    },
                }
            } else {
                1
            };
            if times == 0 {
                return Err(Error::MalformedGlyph(Cause::EmptyFlagRun));
            }
            if times > count - flags.len() {
                return Err(Error::MalformedGlyph(Cause::FlagOverrun));
            }
            assert(run == Parsed::done((flag, times as nat), tape@.position));
            let mut i: usize = 0;
            while i < times
                invariant
                    i <= times,
                    front.len() + times <= count,
                    flags@ == front + Seq::new(i as nat, |k: int| flag),
                decreases times - i,
            {
                flags.push(flag);
                i = i + 1;
            }
            proof {
                lemma_preceded_twice(
                    front,
                    Seq::new(times as nat, |k: int| flag),
                    flags_at(bytes, tape@.position, (room - times) as nat),
                );
            }
        }
        proof {
            assert(flags@ + Seq::<u8>::empty() =~= flags@);
        }
        Ok(flags)
    }

    /// Reads the coordinate on `axis` of a point whose flag is `flag`.
    pub fn read_coordinate(tape: &mut Tape, flag: u8, axis: Axis) -> (result: Result<i16, Error>)
        ensures
            final(tape)@.bytes == old(tape)@.bytes,
            final(tape)@.position == delta_at(
                old(tape)@.bytes,
                old(tape)@.position,
                flag,
                axis,
            ).end,
            result == delta_at(old(tape)@.bytes, old(tape)@.position, flag, axis).outcome,
    {
        let flag = flags::Simple(flag);
        if flag.is_short(axis) {
            match tape.read_u8() {
                Ok(value) => Ok(
                    if flag.is_positive(axis) {
                        value as i16
                    } else {
                        -(value as i16)
                    },
                ),
                Err(error) => Err(error),
            }
        } else if flag.is_same(axis) {
            Ok(0)
        } else {
            tape.read_i16()
        }
    }

    /// Reads the coordinates on `axis` of the points whose flags are `flags`.
    pub fn read_coordinates(tape: &mut Tape, flags: &[u8], axis: Axis) -> (result: Result<
        Vec<i16>,
        Error,
    >)
        ensures
            final(tape)@.bytes == old(tape)@.bytes,
            final(tape)@.position == deltas_at(
                old(tape)@.bytes,
                old(tape)@.position,
                flags@,
                axis,
            ).end,
            viewed(result) == deltas_at(old(tape)@.bytes, old(tape)@.position, flags@, axis).outcome,
    {
        let ghost bytes = tape@.bytes;
        let ghost whole = deltas_at(bytes, tape@.position, flags@, axis);
        let mut values: Vec<i16> = Vec::new();
        let mut i: usize = 0;
        proof {
            lemma_preceded_by_nothing(whole);
            assert(flags@.skip(0) =~= flags@);
        }
        while i < flags.len()
            invariant
                bytes == old(tape)@.bytes,
                tape@.bytes == bytes,
                i <= flags.len(),
                whole == deltas_at(bytes, old(tape)@.position, flags@, axis),
                whole == preceded(values@, deltas_at(bytes, tape@.position, flags@.skip(i as int), axis)),
            decreases flags.len() - i,
        {
            let ghost front = values@;
            let ghost rest = flags@.skip(i as int);
            assert(rest.first() == flags@[i as int]);
            assert(rest.drop_first() =~= flags@.skip(i + 1));
            match Simple::read_coordinate(tape, flags[i], axis) {
                Ok(value) => {
                    values.push(value);
                    proof {
                        assert(front.push(value) =~= front + seq![value]);
                        lemma_preceded_twice(
                            front,
                            seq![value],
                            deltas_at(bytes, tape@.position, flags@.skip(i + 1), axis),
                        );
                    }
                },
                Err(error) => {
                    return Err(error);
                },
            }
            i = i + 1;
        }
        proof {
            assert(values@ + Seq::<i16>::empty() =~= values@);
        }
        Ok(values)
    }

    /// Reads a simple outline of `contour_count` contours.
    pub fn read(tape: &mut Tape, contour_count: usize) -> (result: Result<Simple, Error>)
        ensures
            final(tape)@.bytes == old(tape)@.bytes,
            final(tape)@.position == simple_at(
                old(tape)@.bytes,
                old(tape)@.position,
                contour_count as nat,
            ).end,
            viewed(result) == simple_at(
                old(tape)@.bytes,
                old(tape)@.position,
                contour_count as nat,
            ).outcome,
            result matches Ok(simple) ==> simple@.consistent() && simple.end_points.len()
                == contour_count,
    {
        proof {
            lemma_simple_consistent(tape@.bytes, tape@.position, contour_count as nat);
        }
        let end_points = match tape.read_u16s(contour_count) {
            Ok(end_points) => end_points,
            Err(error) => {
                return Err(error);
            },
        };
        if !is_non_decreasing(end_points.as_slice()) {
            return Err(Error::MalformedGlyph(Cause::DecreasingEndPoints));
        }
        let point_count: usize = if contour_count == 0 {
            0
        } else {
            end_points[contour_count - 1] as usize + 1
        };
        let (instruction_size, instructions) = match read_instructions(tape) {
            Ok(code) => code,
            Err(error) => {
                return Err(error);
            },
        };
        let flags = match Simple::read_flags(tape, point_count) {
            Ok(flags) => flags,
            Err(error) => {
                return Err(error);
            },
        };
        let x = match Simple::read_coordinates(tape, flags.as_slice(), Axis::X) {
            Ok(x) => x,
            Err(error) => {
                return Err(error);
            },
        };
        let y = match Simple::read_coordinates(tape, flags.as_slice(), Axis::Y) {
            Ok(y) => y,
            Err(error) => {
                return Err(error);
            },
        };
        Ok(Simple { end_points, instruction_size, instructions, flags, x, y })
    }
}

impl Walue<usize> for Simple {
    open spec fn layout(bytes: Seq<u8>, at: int, contour_count: usize) -> Parsed<SimpleView> {
        simple_at(bytes, at, contour_count as nat)
    }

    fn read(tape: &mut Tape, contour_count: usize) -> (result: Result<Simple, Error>) {
        Simple::read(tape, contour_count)
    }
}

} // verus!
