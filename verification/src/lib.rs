//! Decoder for the glyph-outline table of a TrueType font.
//!
//! A glyph record is a variable-length, flag-driven structure: which fields
//! are present, how wide they are and how many of them follow all depend on
//! values read earlier in the same record. Every reader in this crate takes a
//! [`Tape`], a cursor over the bytes of the table, and is proved against a
//! mathematical description of the format over `Seq<u8>`: what it returns,
//! which error it reports, and where it leaves the cursor, on success and on
//! failure alike.
//!
//! Decoding only: nothing here writes a glyph, looks up a table in a font or
//! follows the reference from a component to its glyph.

pub mod component;
pub mod compound;
pub mod error;
pub mod flags;
pub mod glyph_data;
pub mod horizontal_metrics;
pub mod instructions;
pub mod number;
pub mod simple;
pub mod tape;

pub use component::{Arguments, Component, Options};
pub use compound::{Compound, CompoundView};
pub use error::{Cause, Error};
pub use glyph_data::{Description, DescriptionView, Glyph, GlyphData, GlyphView};
pub use horizontal_metrics::{HorizontalMetrics, HorizontalMetricsView, LongHorizontalMetric};
pub use number::q16;
pub use simple::{Simple, SimpleView};
pub use tape::{Cursor, Parsed, Tape, Value, Walue};
