//! The flag words of the format, each a bit field with named tests.
//!
//! A flag keeps the bits as they were read. Where the format gives one bit
//! two meanings, both tests exist and test the same bit: which meaning holds
//! depends on another bit of the same flag.

use vstd::prelude::*;
use crate::error::Error;
use crate::tape::{u16_at, u8_at, Parsed, Tape, Value};

verus! {

/// One of the two coordinates of a point.
#[derive(Clone, Copy, Debug, PartialEq, Eq)]
pub enum Axis {
    X,
    Y,
}

/// The flags of one point of a simple outline.
#[derive(Clone, Copy, Debug, PartialEq, Eq)]
pub struct Simple(pub u8);

/// The flags of one component of a compound outline.
#[derive(Clone, Copy, Debug, PartialEq, Eq)]
pub struct Component(pub u16);

impl Simple {
    /// The x coordinate is one unsigned byte, its sign held by the flag.
    #[verifier::allow_in_spec]
    pub fn is_x_short(self) -> bool
        returns
            self.0 & 0b0000_0010 != 0,
    {
        self.0 & 0b0000_0010 != 0
    }

    /// The y coordinate is one unsigned byte, its sign held by the flag.
    #[verifier::allow_in_spec]
    pub fn is_y_short(self) -> bool
        returns
            self.0 & 0b0000_0100 != 0,
    {
        self.0 & 0b0000_0100 != 0
    }

    /// A count follows the flag and says how often the flag stands.
    #[verifier::allow_in_spec]
    pub fn is_repeated(self) -> bool
        returns
            self.0 & 0b0000_1000 != 0,
    {
        self.0 & 0b0000_1000 != 0
    }

    /// Of a short x coordinate: it is not negative.
    #[verifier::allow_in_spec]
    pub fn is_x_positive(self) -> bool
        returns
            self.0 & 0b0001_0000 != 0,
    {
        self.0 & 0b0001_0000 != 0
    }

    /// Of an x coordinate that is not short: it is that of the point before.
    #[verifier::allow_in_spec]
    pub fn is_x_same(self) -> bool
        returns
            self.0 & 0b0001_0000 != 0,
    {
        self.0 & 0b0001_0000 != 0
    }

    /// Of a short y coordinate: it is not negative.
    #[verifier::allow_in_spec]
    pub fn is_y_positive(self) -> bool
        returns
            self.0 & 0b0010_0000 != 0,
    {
        self.0 & 0b0010_0000 != 0
    }

    /// Of a y coordinate that is not short: it is that of the point before.
    #[verifier::allow_in_spec]
    pub fn is_y_same(self) -> bool
        returns
            self.0 & 0b0010_0000 != 0,
    {
        self.0 & 0b0010_0000 != 0
    }

    /// A reserved bit is set: bit 6 or bit 7.
    #[verifier::allow_in_spec]
    pub fn is_invalid(self) -> bool
        returns
            self.0 & 0b1100_0000 != 0,
    {
        self.0 & 0b1100_0000 != 0
    }

    /// The coordinate on `axis` is one unsigned byte.
    #[verifier::allow_in_spec]
    pub fn is_short(self, axis: Axis) -> bool
        returns
            (match axis {
                Axis::X => self.is_x_short(),
                Axis::Y => self.is_y_short(),
            }),
    {
        match axis {
            Axis::X => self.is_x_short(),
            Axis::Y => self.is_y_short(),
        }
    }

    /// Of a short coordinate on `axis`: it is not negative.
    #[verifier::allow_in_spec]
    pub fn is_positive(self, axis: Axis) -> bool
        returns
            (match axis {
                Axis::X => self.is_x_positive(),
                Axis::Y => self.is_y_positive(),
            }),
    {
        match axis {
            Axis::X => self.is_x_positive(),
            Axis::Y => self.is_y_positive(),
        }
    }

    /// Of a coordinate on `axis` that is not short: it is that of the point
    /// before.
    #[verifier::allow_in_spec]
    pub fn is_same(self, axis: Axis) -> bool
        returns
            (match axis {
                Axis::X => self.is_x_same(),
                Axis::Y => self.is_y_same(),
            }),
    {
        match axis {
            Axis::X => self.is_x_same(),
            Axis::Y => self.is_y_same(),
        }
    }
}

impl Component {
    /// The two arguments are 16 bits wide each, not 8.
    #[verifier::allow_in_spec]
    pub fn are_arguments_words(self) -> bool
        returns
            self.0 & 0b0000_0000_0000_0001 != 0,
    {
        self.0 & 0b0000_0000_0000_0001 != 0
    }

    /// The two arguments are an offset, not a pair of point numbers.
    #[verifier::allow_in_spec]
    pub fn are_arguments_xy(self) -> bool
        returns
            self.0 & 0b0000_0000_0000_0010 != 0,
    {
        self.0 & 0b0000_0000_0000_0010 != 0
    }

    /// One scale for both axes follows the arguments.
    #[verifier::allow_in_spec]
    pub fn has_scalar_scale(self) -> bool
        returns
            self.0 & 0b0000_0000_0000_1000 != 0,
    {
        self.0 & 0b0000_0000_0000_1000 != 0
    }

    /// Another component follows this one.
    #[verifier::allow_in_spec]
    pub fn has_more_components(self) -> bool
        returns
            self.0 & 0b0000_0000_0010_0000 != 0,
    {
        self.0 & 0b0000_0000_0010_0000 != 0
    }

    /// A scale for each axis follows the arguments.
    #[verifier::allow_in_spec]
    pub fn has_vector_scale(self) -> bool
        returns
            self.0 & 0b0000_0000_0100_0000 != 0,
    {
        self.0 & 0b0000_0000_0100_0000 != 0
    }

    /// A two-by-two matrix follows the arguments.
    #[verifier::allow_in_spec]
    pub fn has_matrix_scale(self) -> bool
        returns
            self.0 & 0b0000_0000_1000_0000 != 0,
    {
        self.0 & 0b0000_0000_1000_0000 != 0
    }

    /// Instructions follow the last component.
    #[verifier::allow_in_spec]
    pub fn has_instructions(self) -> bool
        returns
            self.0 & 0b0000_0001_0000_0000 != 0,
    {
        self.0 & 0b0000_0001_0000_0000 != 0
    }

    /// A reserved bit is set: bit 4 or one of the bits 9 to 15.
    #[verifier::allow_in_spec]
    pub fn is_invalid(self) -> bool
        returns
            self.0 & 0b1111_1110_0001_0000 != 0,
    {
        self.0 & 0b1111_1110_0001_0000 != 0
    }
}

impl View for Simple {
    type V = Simple;

    open spec fn view(&self) -> Simple {
        *self
    }
}

impl View for Component {
    type V = Component;

    open spec fn view(&self) -> Component {
        *self
    }
}

impl Value for Simple {
    open spec fn layout(bytes: Seq<u8>, at: int) -> Parsed<Simple> {
        match u8_at(bytes, at).outcome {
            Ok(bits) => Parsed::done(Simple(bits), u8_at(bytes, at).end),
            Err(error) => Parsed::fail(error, u8_at(bytes, at).end),
        }
    }

    fn read(tape: &mut Tape) -> (result: Result<Simple, Error>) {
        match tape.read_u8() {
            Ok(bits) => Ok(Simple(bits)),
            Err(error) => Err(error),
        }
    }
}

impl Value for Component {
    open spec fn layout(bytes: Seq<u8>, at: int) -> Parsed<Component> {
        match u16_at(bytes, at).outcome {
            Ok(bits) => Parsed::done(Component(bits), u16_at(bytes, at).end),
            Err(error) => Parsed::fail(error, u16_at(bytes, at).end),
        }
    }

    fn read(tape: &mut Tape) -> (result: Result<Component, Error>) {
        match tape.read_u16() {
            Ok(bits) => Ok(Component(bits)),
            Err(error) => Err(error),
        }
    }
}

} // verus!
