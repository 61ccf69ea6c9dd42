//! The ways in which decoding can fail.

use vstd::prelude::*;

verus! {

/// The reason why a glyph record is malformed.
#[derive(Clone, Copy, Debug, PartialEq, Eq, Structural)]
pub enum Cause {
    /// A contour ends before the contour in front of it.
    DecreasingEndPoints,
    /// A point flag has one of its two reserved bits set.
    ReservedFlagBits,
    /// A point flag is repeated zero times.
    EmptyFlagRun,
    /// A run of repeated point flags yields more flags than there are points.
    FlagOverrun,
    /// The flags of a component have a reserved bit set.
    ReservedComponentBits,
}

/// An error met while decoding. Both kinds end the decoding of the glyph at
/// hand: no partial glyph is ever returned.
#[derive(Clone, Copy, Debug, PartialEq, Eq, Structural)]
pub enum Error {
    /// Fewer bytes remain than the next field needs.
    ShortRead,
    /// The bytes do not describe a glyph.
    MalformedGlyph(Cause),
}

impl Cause {
    /// The text of [`Cause::describe`].
    pub open spec fn description(self) -> Seq<char> {
        match self {
            Cause::DecreasingEndPoints => "the end points of the contours decrease"@,
            Cause::ReservedFlagBits => "a point flag has a reserved bit set"@,
            Cause::EmptyFlagRun => "a point flag is repeated zero times"@,
            Cause::FlagOverrun => "the point flags run past the last point"@,
            Cause::ReservedComponentBits => "the flags of a component have a reserved bit set"@,
        }
    }

    /// Says in words what is wrong.
    pub fn describe(&self) -> (text: &'static str)
        ensures
            text@ == self.description(),
    {
        match self {
            Cause::DecreasingEndPoints => "the end points of the contours decrease",
            Cause::ReservedFlagBits => "a point flag has a reserved bit set",
            Cause::EmptyFlagRun => "a point flag is repeated zero times",
            Cause::FlagOverrun => "the point flags run past the last point",
            Cause::ReservedComponentBits => "the flags of a component have a reserved bit set",
        }
    }

    /// Whether the defect was found in a component of a compound glyph
    /// rather than in a simple outline.
    pub open spec fn in_component(self) -> bool {
        self == Cause::ReservedComponentBits
    }
}

impl Error {
    /// The text of [`Error::message`].
    pub open spec fn text(self) -> Seq<char> {
        match self {
            Error::ShortRead => "failed to read as much as needed"@,
            Error::MalformedGlyph(cause) => if cause.in_component() {
                "found a malformed component: "@ + cause.description()
            } else {
                "found a malformed glyph description: "@ + cause.description()
            },
        }
    }

    /// A message for a human reader.
    pub fn message(&self) -> (message: String)
        ensures
            message@ == self.text(),
    {
        match self {
            Error::ShortRead => "failed to read as much as needed".to_owned(),
            Error::MalformedGlyph(cause) => {
                let found = match cause {
                    Cause::ReservedComponentBits => "found a malformed component: ",
                    _ => "found a malformed glyph description: ",
                };
                found.to_owned().concat(cause.describe())
            },
        }
    }
}

} // verus!
