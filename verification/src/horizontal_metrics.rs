//! The horizontal metrics: how far each glyph advances the pen and where
//! its outline starts.
//!
//! The table holds a full record for the first glyphs and only the left side
//! bearing for the others, which all advance like the last glyph with a full
//! record. How many glyphs have a full record and how many glyphs there are
//! is said by two other tables.

use vstd::prelude::*;
use crate::error::Error;
use crate::tape::{
    both, holds, i16_at, lemma_words_left, signed_word, u16_at, viewed, word_at, words_left, Parsed,
    Tape, Value,
};

verus! {

/// Horizontal metrics.
#[derive(Clone, Debug, PartialEq, Eq)]
pub struct HorizontalMetrics {
    /// The full records.
    pub metrics: Vec<LongHorizontalMetric>,
    /// The left side bearings of the glyphs without a full record.
    pub left_side_bearings: Vec<i16>,
}

/// A record of horizontal metrics.
#[derive(Clone, Copy, Debug, PartialEq, Eq)]
pub struct LongHorizontalMetric {
    /// How far the glyph advances the pen.
    pub advance_width: u16,
    /// The distance from the pen to the left edge of the outline.
    pub left_side_bearing: i16,
}

/// What a [`HorizontalMetrics`] stands for.
pub struct HorizontalMetricsView {
    pub metrics: Seq<LongHorizontalMetric>,
    pub left_side_bearings: Seq<i16>,
}

impl View for HorizontalMetrics {
    type V = HorizontalMetricsView;

    open spec fn view(&self) -> HorizontalMetricsView {
        HorizontalMetricsView {
            metrics: self.metrics@,
            left_side_bearings: self.left_side_bearings@,
        }
    }
}

/// The full record that stands at `at`, wherever `holds(bytes, at, 4)`.
pub open spec fn metric_at(bytes: Seq<u8>, at: int) -> LongHorizontalMetric {
    LongHorizontalMetric {
        advance_width: word_at(bytes, at),
        left_side_bearing: signed_word(word_at(bytes, at + 2)),
    }
}

/// One full record at `at`: the advance width, an unsigned word, and then
/// the left side bearing, a signed word.
pub open spec fn long_horizontal_metric_at(bytes: Seq<u8>, at: int) -> Parsed<
    LongHorizontalMetric,
> {
    let advance_width = u16_at(bytes, at);
    let fields = both(advance_width, i16_at(bytes, advance_width.end));
    match fields.outcome {
        Err(error) => Parsed::fail(error, fields.end),
        Ok((advance_width, left_side_bearing)) => Parsed::done(
            LongHorizontalMetric { advance_width, left_side_bearing },
            fields.end,
        ),
    }
}

/// The table at `at` for `glyph_count` glyphs, `metric_count` of them with a
/// full record of two words, the others with one word. The words are read
/// one after the other: where they do not all fit, those that do are
/// consumed before the read fails.
pub open spec fn horizontal_metrics_at(
    bytes: Seq<u8>,
    at: int,
    metric_count: nat,
    glyph_count: nat,
) -> Parsed<HorizontalMetricsView> {
    let bearing_count = (glyph_count - metric_count) as nat;
    if holds(bytes, at, 4 * (metric_count as int) + 2 * (bearing_count as int)) {
        Parsed::done(
            HorizontalMetricsView {
                metrics: Seq::new(metric_count, |i: int| metric_at(bytes, at + 4 * i)),
                left_side_bearings: Seq::new(
                    bearing_count,
                    |i: int| signed_word(word_at(bytes, at + 4 * metric_count + 2 * i)),
                ),
            },
            at + 4 * metric_count + 2 * bearing_count,
        )
    } else {
        Parsed::fail(Error::ShortRead, at + 2 * words_left(bytes, at))
    }
}

impl HorizontalMetrics {
    /// Reads the table for `glyph_count` glyphs, `metric_count` of them with
    /// a full record.
    pub fn read(tape: &mut Tape, metric_count: usize, glyph_count: usize) -> (result: Result<
        HorizontalMetrics,
        Error,
    >)
        requires
            metric_count <= glyph_count,
        ensures
            final(tape)@.bytes == old(tape)@.bytes,
            final(tape)@.position == horizontal_metrics_at(
                old(tape)@.bytes,
                old(tape)@.position,
                metric_count as nat,
                glyph_count as nat,
            ).end,
            viewed(result) == horizontal_metrics_at(
                old(tape)@.bytes,
                old(tape)@.position,
                metric_count as nat,
                glyph_count as nat,
            ).outcome,
    {
        let ghost bytes = tape@.bytes;
        let ghost at = tape@.position;
        proof {
            tape.lemma_within();
        }
        let bearing_count = glyph_count - metric_count;
        let mut metrics: Vec<LongHorizontalMetric> = Vec::new();
        let mut i: usize = 0;
        while i < metric_count
            invariant
                i <= metric_count,
                bearing_count == glyph_count - metric_count,
                bytes == old(tape)@.bytes,
                at == old(tape)@.position,
                tape@.bytes == bytes,
                tape@.position == at + 4 * i,
                holds(bytes, at, 4 * i),
                metrics@ == Seq::new(i as nat, |k: int| metric_at(bytes, at + 4 * k)),
            decreases metric_count - i,
        {
            let record = match LongHorizontalMetric::read(tape) {
                Ok(record) => record,
                Err(error) => {
                    proof {
                        if tape@.position == at + 4 * i {
                            lemma_words_left(bytes, at, (2 * i) as nat);
                        } else {
                            lemma_words_left(bytes, at, (2 * i + 1) as nat);
                        }
                    }
                    return Err(error);
                },
            };
            metrics.push(record);
            i = i + 1;
        }
        let ghost start = at + 4 * metric_count;
        let mut left_side_bearings: Vec<i16> = Vec::new();
        let mut j: usize = 0;
        while j < bearing_count
            invariant
                j <= bearing_count,
                bearing_count == glyph_count - metric_count,
                bytes == old(tape)@.bytes,
                at == old(tape)@.position,
                start == at + 4 * metric_count,
                tape@.bytes == bytes,
                tape@.position == start + 2 * j,
                holds(bytes, at, 4 * metric_count + 2 * j),
                metrics@ == Seq::new(metric_count as nat, |k: int| metric_at(bytes, at + 4 * k)),
                left_side_bearings@ == Seq::new(
                    j as nat,
                    |k: int| signed_word(word_at(bytes, start + 2 * k)),
                ),
            decreases bearing_count - j,
        {
            match tape.read_i16() {
                Ok(value) => left_side_bearings.push(value),
                Err(error) => {
                    proof {
                        lemma_words_left(bytes, at, (2 * metric_count + j) as nat);
                    }
                    return Err(error);
                },
            }
            j = j + 1;
        }
        Ok(HorizontalMetrics { metrics, left_side_bearings })
    }
}

impl LongHorizontalMetric {
    /// Reads one full record.
    pub fn read(tape: &mut Tape) -> (result: Result<LongHorizontalMetric, Error>)
        ensures
            final(tape)@.bytes == old(tape)@.bytes,
            final(tape)@.position == long_horizontal_metric_at(
                old(tape)@.bytes,
                old(tape)@.position,
            ).end,
            result == long_horizontal_metric_at(old(tape)@.bytes, old(tape)@.position).outcome,
    {
        let advance_width = match tape.read_u16() {
            Ok(value) => value,
            Err(error) => {
                return Err(error);
            },
        };
        let left_side_bearing = match tape.read_i16() {
            Ok(value) => value,
            Err(error) => {
                return Err(error);
            },
        };
        Ok(LongHorizontalMetric { advance_width, left_side_bearing })
    }
}

impl View for LongHorizontalMetric {
    type V = LongHorizontalMetric;

    open spec fn view(&self) -> LongHorizontalMetric {
        *self
    }
}

impl Value for LongHorizontalMetric {
    open spec fn layout(bytes: Seq<u8>, at: int) -> Parsed<LongHorizontalMetric> {
        long_horizontal_metric_at(bytes, at)
    }

    fn read(tape: &mut Tape) -> (result: Result<LongHorizontalMetric, Error>) {
        LongHorizontalMetric::read(tape)
    }
}

impl Default for HorizontalMetrics {
    /// A table without glyphs.
    fn default() -> (table: HorizontalMetrics)
        ensures
            table@.metrics.len() == 0,
            table@.left_side_bearings.len() == 0,
    {
        HorizontalMetrics { metrics: Vec::new(), left_side_bearings: Vec::new() }
    }
}

impl Default for LongHorizontalMetric {
    /// A record of zeros.
    fn default() -> (record: LongHorizontalMetric)
        ensures
            record.advance_width == 0,
            record.left_side_bearing == 0,
    {
        LongHorizontalMetric { advance_width: 0, left_side_bearing: 0 }
    }
}

} // verus!
