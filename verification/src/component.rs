//! The components of a compound outline.
//!
//! A component names another glyph and says where it goes and how it is
//! scaled. Its flags are read once and decide the shape of everything that
//! follows them in the record.

use vstd::prelude::*;
use crate::error::{Cause, Error};
use crate::flags;
use crate::number::{q16, q16_at, q16s_at};
use crate::tape::{
    both, holds, i16_at, i8_at, u16_at, u8_at, word_at, Parsed, Tape, Value, Walue,
};

verus! {

/// Arguments of a component: where it goes.
#[derive(Clone, Copy, Debug, PartialEq, Eq)]
pub enum Arguments {
    /// An offset from the origin of the compound glyph.
    Offsets(i16, i16),
    /// A point of the compound glyph and a point of the component that are
    /// to coincide.
    Indices(u16, u16),
}

/// Options of a component: how it is scaled.
#[derive(Clone, Copy, Debug, PartialEq, Eq)]
pub enum Options {
    /// Not at all.
    Identity,
    /// By one factor on both axes.
    Scalar(q16),
    /// By one factor on each axis.
    Vector(q16, q16),
    /// By a two-by-two matrix.
    Matrix(q16, q16, q16, q16),
}

/// A component.
#[derive(Clone, Copy, Debug, PartialEq, Eq)]
pub struct Component {
    /// The flags, as read.
    pub flags: u16,
    /// The number of the glyph that is placed.
    pub index: u16,
    /// Where it goes.
    pub arguments: Arguments,
    /// How it is scaled.
    pub options: Options,
}

/// One signed argument at `at`: a word if `wide`, else a byte.
pub open spec fn signed_at(bytes: Seq<u8>, at: int, wide: bool) -> Parsed<i16> {
    if wide {
        i16_at(bytes, at)
    } else {
        let byte = i8_at(bytes, at);
        match byte.outcome {
            Err(error) => Parsed::fail(error, byte.end),
            Ok(value) => Parsed::done(value as i16, byte.end),
        }
    }
}

/// One unsigned argument at `at`: a word if `wide`, else a byte.
pub open spec fn unsigned_at(bytes: Seq<u8>, at: int, wide: bool) -> Parsed<u16> {
    if wide {
        u16_at(bytes, at)
    } else {
        let byte = u8_at(bytes, at);
        match byte.outcome {
            Err(error) => Parsed::fail(error, byte.end),
            Ok(value) => Parsed::done(value as u16, byte.end),
        }
    }
}

/// The arguments at `at` of a component whose flags are `flags`. One bit
/// chooses between words and bytes, another between an offset, which is
/// signed, and a pair of point numbers, which is not.
pub open spec fn arguments_at(bytes: Seq<u8>, at: int, flags: u16) -> Parsed<Arguments> {
    let wide = flags::Component(flags).are_arguments_words();
    if flags::Component(flags).are_arguments_xy() {
        let x = signed_at(bytes, at, wide);
        let pair = both(x, signed_at(bytes, x.end, wide));
        match pair.outcome {
            Err(error) => Parsed::fail(error, pair.end),
            Ok((x, y)) => Parsed::done(Arguments::Offsets(x, y), pair.end),
        }
    } else {
        let i = unsigned_at(bytes, at, wide);
        let pair = both(i, unsigned_at(bytes, i.end, wide));
        match pair.outcome {
            Err(error) => Parsed::fail(error, pair.end),
            Ok((i, j)) => Parsed::done(Arguments::Indices(i, j), pair.end),
        }
    }
}

/// The options at `at` of a component whose flags are `flags`. The three
/// scale bits are looked at in a fixed order and the first that is set
/// decides.
pub open spec fn options_at(bytes: Seq<u8>, at: int, flags: u16) -> Parsed<Options> {
    if flags::Component(flags).has_scalar_scale() {
        let scales = q16s_at(bytes, at, 1);
        match scales.outcome {
            Err(error) => Parsed::fail(error, scales.end),
            Ok(s) => Parsed::done(Options::Scalar(s[0]), scales.end),
        }
    } else if flags::Component(flags).has_vector_scale() {
        let scales = q16s_at(bytes, at, 2);
        match scales.outcome {
            Err(error) => Parsed::fail(error, scales.end),
            Ok(s) => Parsed::done(Options::Vector(s[0], s[1]), scales.end),
        }
    } else if flags::Component(flags).has_matrix_scale() {
        let scales = q16s_at(bytes, at, 4);
        match scales.outcome {
            Err(error) => Parsed::fail(error, scales.end),
            Ok(s) => Parsed::done(Options::Matrix(s[0], s[1], s[2], s[3]), scales.end),
        }
    } else {
        Parsed::done(Options::Identity, at)
    }
}

/// One component at `at`: the flags, the number of the glyph, the arguments
/// and the options. Reserved bits in the flags are refused before anything
/// behind the flags is looked at.
pub open spec fn component_at(bytes: Seq<u8>, at: int) -> Parsed<Component> {
    let flags = u16_at(bytes, at);
    match flags.outcome {
        Err(error) => Parsed::fail(error, flags.end),
        Ok(bits) => if flags::Component(bits).is_invalid() {
            Parsed::fail(Error::MalformedGlyph(Cause::ReservedComponentBits), flags.end)
        } else {
            let index = u16_at(bytes, flags.end);
            let arguments = arguments_at(bytes, index.end, bits);
            let fields = both(index, both(arguments, options_at(bytes, arguments.end, bits)));
            match fields.outcome {
                Err(error) => Parsed::fail(error, fields.end),
                Ok((index, (arguments, options))) => Parsed::done(
                    Component { flags: bits, index, arguments, options },
                    fields.end,
                ),
            }
        },
    }
}

impl Component {
    /// What holds of every component that was read: no reserved bit is set
    /// in its flags, and its arguments and options have the shapes that the
    /// flags ask for.
    pub open spec fn consistent(self) -> bool {
        let flags = flags::Component(self.flags);
        &&& !flags.is_invalid()
        &&& self.arguments is Offsets <==> flags.are_arguments_xy()
        &&& self.options is Scalar <==> flags.has_scalar_scale()
        &&& self.options is Vector <==> !flags.has_scalar_scale() && flags.has_vector_scale()
        &&& self.options is Matrix <==> !flags.has_scalar_scale() && !flags.has_vector_scale()
            && flags.has_matrix_scale()
    }
}

/// Every component that was read is consistent.
pub proof fn lemma_component_consistent(bytes: Seq<u8>, at: int)
    ensures
        component_at(bytes, at).outcome matches Ok(component) ==> component.consistent(),
{
}

/// Flags of a component with a reserved bit set are refused with the cursor
/// right behind them: nothing that depends on them has been consumed.
pub proof fn lemma_reserved_component_bits_refused(bytes: Seq<u8>, at: int)
    requires
        holds(bytes, at, 2),
        flags::Component(word_at(bytes, at)).is_invalid(),
    ensures
        component_at(bytes, at) == Parsed::<Component>::fail(
            Error::MalformedGlyph(Cause::ReservedComponentBits),
            at + 2,
        ),
{
}

/// A component takes its flags and the number of its glyph, which are two
/// words, and never ends outside the bytes.
pub proof fn lemma_component_end(bytes: Seq<u8>, at: int)
    requires
        0 <= at <= bytes.len(),
    ensures
        at <= component_at(bytes, at).end <= bytes.len(),
        component_at(bytes, at).outcome is Ok ==> at + 4 <= component_at(bytes, at).end,
{
}

impl Arguments {
    /// Reads the arguments of a component whose flags are `flags`.
    pub fn read(tape: &mut Tape, flags: u16) -> (result: Result<Arguments, Error>)
        ensures
            final(tape)@.bytes == old(tape)@.bytes,
            final(tape)@.position == arguments_at(
                old(tape)@.bytes,
                old(tape)@.position,
                flags,
            ).end,
            result == arguments_at(old(tape)@.bytes, old(tape)@.position, flags).outcome,
    {
        let flags = flags::Component(flags);
        match (flags.are_arguments_words(), flags.are_arguments_xy()) {
            (true, true) => {
                let x = match tape.read_i16() {
                    Ok(x) => x,
                    Err(error) => {
                        return Err(error);
                    },
                };
                let y = match tape.read_i16() {
                    Ok(y) => y,
                    Err(error) => {
                        return Err(error);
                    },
                };
                Ok(Arguments::Offsets(x, y))
            },
            (false, true) => {
                let x = match tape.read_i8() {
                    Ok(x) => x as i16,
                    Err(error) => {
                        return Err(error);
                    },
                };
                let y = match tape.read_i8() {
                    Ok(y) => y as i16,
                    Err(error) => {
                        return Err(error);
                    },
                };
                Ok(Arguments::Offsets(x, y))
            },
            (true, false) => {
                let i = match tape.read_u16() {
                    Ok(i) => i,
                    Err(error) => {
                        return Err(error);
                    },
                };
                let j = match tape.read_u16() {
                    Ok(j) => j,
                    Err(error) => {
                        return Err(error);
                    },
                };
                Ok(Arguments::Indices(i, j))
            },
            (false, false) => {
                let i = match tape.read_u8() {
                    Ok(i) => i as u16,
                    Err(error) => {
                        return Err(error);
                    },
                };
                let j = match tape.read_u8() {
                    Ok(j) => j as u16,
                    Err(error) => {
                        return Err(error);
                    },
                };
                Ok(Arguments::Indices(i, j))
            },
        }
    }
}

impl Options {
    /// Reads the options of a component whose flags are `flags`.
    pub fn read(tape: &mut Tape, flags: u16) -> (result: Result<Options, Error>)
        ensures
            final(tape)@.bytes == old(tape)@.bytes,
            final(tape)@.position == options_at(old(tape)@.bytes, old(tape)@.position, flags).end,
            result == options_at(old(tape)@.bytes, old(tape)@.position, flags).outcome,
    {
        let flags = flags::Component(flags);
        if flags.has_scalar_scale() {
            let scale = match q16::read(tape) {
                Ok(scale) => scale,
                Err(error) => {
                    return Err(error);
                },
            };
            Ok(Options::Scalar(scale))
        } else if flags.has_vector_scale() {
            let x = match q16::read(tape) {
                Ok(x) => x,
                Err(error) => {
                    return Err(error);
                },
            };
            let y = match q16::read(tape) {
                Ok(y) => y,
                Err(error) => {
                    return Err(error);
                },
            };
            Ok(Options::Vector(x, y))
        } else if flags.has_matrix_scale() {
            let xx = match q16::read(tape) {
                Ok(xx) => xx,
                Err(error) => {
                    return Err(error);
                },
            };
            let xy = match q16::read(tape) {
                Ok(xy) => xy,
                Err(error) => {
                    return Err(error);
                },
            };
            let yx = match q16::read(tape) {
                Ok(yx) => yx,
                Err(error) => {
                    return Err(error);
                },
            };
            let yy = match q16::read(tape) {
                Ok(yy) => yy,
                Err(error) => {
                    return Err(error);
                },
            };
            Ok(Options::Matrix(xx, xy, yx, yy))
        } else {
            Ok(Options::Identity)
        }
    }
}

impl Component {
    /// Reads one component.
    pub fn read(tape: &mut Tape) -> (result: Result<Component, Error>)
        ensures
            final(tape)@.bytes == old(tape)@.bytes,
            final(tape)@.position == component_at(old(tape)@.bytes, old(tape)@.position).end,
            result == component_at(old(tape)@.bytes, old(tape)@.position).outcome,
    {
        let flags = match tape.read_u16() {
            Ok(flags) => flags,
            Err(error) => {
                return Err(error);
            },
        };
        if flags::Component(flags).is_invalid() {
            return Err(Error::MalformedGlyph(Cause::ReservedComponentBits));
        }
        let index = match tape.read_u16() {
            Ok(index) => index,
            Err(error) => {
                return Err(error);
            },
        };
        let arguments = match Arguments::read(tape, flags) {
            Ok(arguments) => arguments,
            Err(error) => {
                return Err(error);
            },
        };
        let options = match Options::read(tape, flags) {
            Ok(options) => options,
            Err(error) => {
                return Err(error);
            },
        };
        Ok(Component { flags, index, arguments, options })
    }
}

impl View for Arguments {
    type V = Arguments;

    open spec fn view(&self) -> Arguments {
        *self
    }
}

impl View for Options {
    type V = Options;

    open spec fn view(&self) -> Options {
        *self
    }
}

impl View for Component {
    type V = Component;

    open spec fn view(&self) -> Component {
        *self
    }
}

impl Walue<u16> for Arguments {
    open spec fn layout(bytes: Seq<u8>, at: int, flags: u16) -> Parsed<Arguments> {
        arguments_at(bytes, at, flags)
    }

    fn read(tape: &mut Tape, flags: u16) -> (result: Result<Arguments, Error>) {
        Arguments::read(tape, flags)
    }
}

impl Walue<u16> for Options {
    open spec fn layout(bytes: Seq<u8>, at: int, flags: u16) -> Parsed<Options> {
        options_at(bytes, at, flags)
    }

    fn read(tape: &mut Tape, flags: u16) -> (result: Result<Options, Error>) {
        Options::read(tape, flags)
    }
}

impl Value for Component {
    open spec fn layout(bytes: Seq<u8>, at: int) -> Parsed<Component> {
        component_at(bytes, at)
    }

    fn read(tape: &mut Tape) -> (result: Result<Component, Error>) {
        Component::read(tape)
    }
}

} // verus!
