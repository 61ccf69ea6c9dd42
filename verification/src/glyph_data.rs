//! The glyph data: one record for each glyph.
//!
//! A record starts with the number of contours and the bounding box. The
//! sign of the number of contours says which of the two descriptions
//! follows.

use vstd::prelude::*;
use crate::compound::{
    compound_at, lemma_compound_consistent, lemma_compound_end, Compound, CompoundView,
};
use crate::error::Error;
use crate::simple::{lemma_simple_consistent, lemma_simple_end, simple_at, Simple, SimpleView};
use crate::tape::{holds, i16s_at, lemma_words_left, viewed, Parsed, Tape, Value, Walue};

verus! {

/// Glyph data.
pub type GlyphData = Vec<Glyph>;

/// A glyph.
#[derive(Clone, Debug, PartialEq, Eq)]
pub struct Glyph {
    /// The number of contours of a simple glyph; negative for a compound one.
    pub contour_count: i16,
    /// The least x coordinate of the bounding box.
    pub min_x: i16,
    /// The least y coordinate of the bounding box.
    pub min_y: i16,
    /// The greatest x coordinate of the bounding box.
    pub max_x: i16,
    /// The greatest y coordinate of the bounding box.
    pub max_y: i16,
    /// The outline.
    pub description: Description,
}

/// A description.
#[derive(Clone, Debug, PartialEq, Eq)]
pub enum Description {
    Simple(Simple),
    Compound(Compound),
}

/// What a [`Description`] stands for.
pub enum DescriptionView {
    Simple(SimpleView),
    Compound(CompoundView),
}

/// What a [`Glyph`] stands for.
pub struct GlyphView {
    pub contour_count: i16,
    pub min_x: i16,
    pub min_y: i16,
    pub max_x: i16,
    pub max_y: i16,
    pub description: DescriptionView,
}

impl View for Description {
    type V = DescriptionView;

    open spec fn view(&self) -> DescriptionView {
        match self {
            Description::Simple(simple) => DescriptionView::Simple(simple@),
            Description::Compound(compound) => DescriptionView::Compound(compound@),
        }
    }
}

impl View for Glyph {
    type V = GlyphView;

    open spec fn view(&self) -> GlyphView {
        GlyphView {
            contour_count: self.contour_count,
            min_x: self.min_x,
            min_y: self.min_y,
            max_x: self.max_x,
            max_y: self.max_y,
            description: self.description@,
        }
    }
}

/// The description at `at` of a glyph whose number of contours is
/// `contour_count`: a simple outline of that many contours if the number is
/// not negative, a compound outline if it is.
pub open spec fn description_at(bytes: Seq<u8>, at: int, contour_count: i16) -> Parsed<
    DescriptionView,
> {
    if contour_count >= 0 {
        let simple = simple_at(bytes, at, contour_count as nat);
        match simple.outcome {
            Err(error) => Parsed::fail(error, simple.end),
            Ok(outline) => Parsed::done(DescriptionView::Simple(outline), simple.end),
        }
    } else {
        let compound = compound_at(bytes, at);
        match compound.outcome {
            Err(error) => Parsed::fail(error, compound.end),
            Ok(outline) => Parsed::done(DescriptionView::Compound(outline), compound.end),
        }
    }
}

/// One glyph record at `at`: five signed words, which are the number of
/// contours and the bounding box, and then the description.
pub open spec fn glyph_at(bytes: Seq<u8>, at: int) -> Parsed<GlyphView> {
    let header = i16s_at(bytes, at, 5);
    match header.outcome {
        Err(error) => Parsed::fail(error, header.end),
        Ok(words) => {
            let description = description_at(bytes, header.end, words[0]);
            match description.outcome {
                Err(error) => Parsed::fail(error, description.end),
                Ok(outline) => Parsed::done(
                    GlyphView {
                        contour_count: words[0],
                        min_x: words[1],
                        min_y: words[2],
                        max_x: words[3],
                        max_y: words[4],
                        description: outline,
                    },
                    description.end,
                ),
            }
        },
    }
}

impl DescriptionView {
    /// What holds of every description that was read for a glyph whose
    /// number of contours is `contour_count`: it is a simple outline of that
    /// many contours if the number is not negative, a compound outline if it
    /// is, and consistent in either case.
    pub open spec fn consistent(self, contour_count: i16) -> bool {
        match self {
            DescriptionView::Simple(simple) => {
                &&& contour_count >= 0
                &&& simple.end_points.len() == contour_count
                &&& simple.consistent()
            },
            DescriptionView::Compound(compound) => {
                &&& contour_count < 0
                &&& compound.consistent()
            },
        }
    }
}

impl GlyphView {
    /// What holds of every glyph that was read: its description is
    /// consistent and of the kind that its number of contours asks for.
    pub open spec fn consistent(self) -> bool {
        self.description.consistent(self.contour_count)
    }
}

/// Every description that was read is consistent, and reading one moves the
/// cursor forward and never outside the bytes.
pub proof fn lemma_description_read(bytes: Seq<u8>, at: int, contour_count: i16)
    requires
        0 <= at <= bytes.len(),
    ensures
        at <= description_at(bytes, at, contour_count).end <= bytes.len(),
        description_at(bytes, at, contour_count).outcome matches Ok(description)
            ==> description.consistent(contour_count),
{
    if contour_count >= 0 {
        lemma_simple_consistent(bytes, at, contour_count as nat);
        lemma_simple_end(bytes, at, contour_count as nat);
    } else {
        lemma_compound_consistent(bytes, at);
        lemma_compound_end(bytes, at);
    }
}

/// Every glyph that was read is consistent, and reading one moves the cursor
/// forward and never outside the bytes.
pub proof fn lemma_glyph_read(bytes: Seq<u8>, at: int)
    requires
        0 <= at <= bytes.len(),
    ensures
        at <= glyph_at(bytes, at).end <= bytes.len(),
        glyph_at(bytes, at).outcome matches Ok(glyph) ==> glyph.consistent(),
{
    let header = i16s_at(bytes, at, 5);
    if let Ok(words) = header.outcome {
        lemma_description_read(bytes, header.end, words[0]);
    }
}

impl Description {
    /// Reads the description of a glyph whose number of contours is
    /// `contour_count`.
    pub fn read(tape: &mut Tape, contour_count: i16) -> (result: Result<Description, Error>)
        ensures
            final(tape)@.bytes == old(tape)@.bytes,
            final(tape)@.position == description_at(
                old(tape)@.bytes,
                old(tape)@.position,
                contour_count,
            ).end,
            viewed(result) == description_at(
                old(tape)@.bytes,
                old(tape)@.position,
                contour_count,
            ).outcome,
            result matches Ok(description) ==> description@.consistent(contour_count),
    {
        if contour_count >= 0 {
            match Simple::read(tape, contour_count as usize) {
                Ok(simple) => Ok(Description::Simple(simple)),
                Err(error) => Err(error),
            }
        } else {
            match Compound::read(tape) {
                Ok(compound) => Ok(Description::Compound(compound)),
                Err(error) => Err(error),
            }
        }
    }
}

impl Glyph {
    /// Reads one glyph record.
    pub fn read(tape: &mut Tape) -> (result: Result<Glyph, Error>)
        ensures
            final(tape)@.bytes == old(tape)@.bytes,
            final(tape)@.position == glyph_at(old(tape)@.bytes, old(tape)@.position).end,
            viewed(result) == glyph_at(old(tape)@.bytes, old(tape)@.position).outcome,
            result matches Ok(glyph) ==> glyph@.consistent(),
    {
        let ghost bytes = tape@.bytes;
        let ghost at = tape@.position;
        proof {
            tape.lemma_within();
        }
        let contour_count = match tape.read_i16() {
            Ok(value) => value,
            Err(error) => {
                proof {
                    lemma_words_left(bytes, at, 0);
                }
                return Err(error);
            },
        };
        let min_x = match tape.read_i16() {
            Ok(value) => value,
            Err(error) => {
                proof {
                    lemma_words_left(bytes, at, 1);
                }
                return Err(error);
            },
        };
        let min_y = match tape.read_i16() {
            Ok(value) => value,
            Err(error) => {
                proof {
                    lemma_words_left(bytes, at, 2);
                }
                return Err(error);
            },
        };
        let max_x = match tape.read_i16() {
            Ok(value) => value,
            Err(error) => {
                proof {
                    lemma_words_left(bytes, at, 3);
                }
                return Err(error);
            },
        };
        let max_y = match tape.read_i16() {
            Ok(value) => value,
            Err(error) => {
                proof {
                    lemma_words_left(bytes, at, 4);
                }
                return Err(error);
            },
        };
        assert(holds(bytes, at, 10));
        let description = match Description::read(tape, contour_count) {
            Ok(description) => description,
            Err(error) => {
                return Err(error);
            },
        };
        Ok(Glyph { contour_count, min_x, min_y, max_x, max_y, description })
    }
}

impl Default for Description {
    /// A compound outline without components.
    fn default() -> (description: Description)
        ensures
            description@ matches DescriptionView::Compound(compound) && compound.components.len()
                == 0 && compound.instruction_size == 0 && compound.instructions.len() == 0,
    {
        Description::Compound(Compound::default())
    }
}

impl Default for Glyph {
    /// A glyph whose fields are all zero and whose description is a compound
    /// outline without components.
    fn default() -> (glyph: Glyph)
        ensures
            glyph.contour_count == 0,
            glyph.min_x == 0,
            glyph.min_y == 0,
            glyph.max_x == 0,
            glyph.max_y == 0,
            glyph@.description matches DescriptionView::Compound(compound)
                && compound.components.len() == 0 && compound.instruction_size == 0
                && compound.instructions.len() == 0,
    {
        Glyph {
            contour_count: 0,
            min_x: 0,
            min_y: 0,
            max_x: 0,
            max_y: 0,
            description: Description::default(),
        }
    }
}

impl Walue<i16> for Description {
    open spec fn layout(bytes: Seq<u8>, at: int, contour_count: i16) -> Parsed<DescriptionView> {
        description_at(bytes, at, contour_count)
    }

    fn read(tape: &mut Tape, contour_count: i16) -> (result: Result<Description, Error>) {
        Description::read(tape, contour_count)
    }
}

impl Value for Glyph {
    open spec fn layout(bytes: Seq<u8>, at: int) -> Parsed<GlyphView> {
        glyph_at(bytes, at)
    }

    fn read(tape: &mut Tape) -> (result: Result<Glyph, Error>) {
        Glyph::read(tape)
    }
}

} // verus!
