use truetype::{
    Arguments, Cause, Component, Compound, Description, Error, Glyph, GlyphData, Options, Simple,
    Tape,
};

#[test]
fn a_glyph_without_contours_has_an_empty_simple_outline() {
    let mut tape = Tape::new(vec![
        0x00, 0x00, // no contours
        0x00, 0x00, 0x00, 0x00, 0x00, 0x00, 0x00, 0x00, // an empty box
        0x00, 0x00, // no instructions
    ]);
    let glyph = Glyph::read(&mut tape).unwrap();
    assert_eq!(glyph.contour_count, 0);
    assert_eq!(
        glyph.description,
        Description::Simple(Simple {
            end_points: vec![],
            instruction_size: 0,
            instructions: vec![],
            flags: vec![],
            x: vec![],
            y: vec![],
        })
    );
    assert_eq!(tape.position(), 12);
}

#[test]
fn a_glyph_with_a_negative_number_of_contours_is_compound() {
    let mut tape = Tape::new(vec![
        0xff, 0xff, // compound
        0xff, 0xf6, 0xff, 0xec, 0x00, 0x1e, 0x00, 0x28, // the box: -10, -20, 30, 40
        0x00, 0x02, 0x00, 0x05, 0x03, 0xfe, // glyph 5 at (3, -2)
    ]);
    let glyph = Glyph::read(&mut tape).unwrap();
    assert_eq!(glyph.contour_count, -1);
    assert_eq!((glyph.min_x, glyph.min_y, glyph.max_x, glyph.max_y), (-10, -20, 30, 40));
    match glyph.description {
        Description::Compound(compound) => {
            assert_eq!(
                compound.components(),
                &[Component {
                    flags: 0x0002,
                    index: 5,
                    arguments: Arguments::Offsets(3, -2),
                    options: Options::Identity,
                }]
            );
            assert_eq!(compound.instruction_size(), 0);
            assert!(compound.instructions().is_empty());
        },
        Description::Simple(_) => panic!("the glyph is compound"),
    }
    assert_eq!(tape.position(), 16);
}

#[test]
fn any_negative_number_of_contours_is_compound() {
    let mut tape = Tape::new(vec![0x00, 0x00, 0x00, 0x05, 0x01, 0x02, 0x77]);
    assert!(matches!(Description::read(&mut tape, i16::MIN), Ok(Description::Compound(_))));
    assert_eq!(tape.position(), 6);
}

#[test]
fn reads_a_simple_glyph() {
    let mut tape = Tape::new(vec![
        0x00, 0x01, // one contour
        0x00, 0x00, 0x00, 0x00, 0x00, 0x64, 0x00, 0x64, // the box: 0, 0, 100, 100
        0x00, 0x01, // the contour ends at point 1
        0x00, 0x00, // no instructions
        0x37, 0x22, // short and positive on both axes; short and negative on x, the same on y
        0x64, 0x64, // x: 100, -100
        0x64, // y: 100, 0
    ]);
    let glyph = Glyph::read(&mut tape).unwrap();
    assert_eq!(glyph.contour_count, 1);
    assert_eq!(glyph.max_x, 100);
    assert_eq!(glyph.max_y, 100);
    assert_eq!(
        glyph.description,
        Description::Simple(Simple {
            end_points: vec![1],
            instruction_size: 0,
            instructions: vec![],
            flags: vec![0x37, 0x22],
            x: vec![100, -100],
            y: vec![100, 0],
        })
    );
    assert_eq!(tape.remaining(), 0);
}

#[test]
fn a_cut_off_header_is_a_short_read() {
    let mut tape = Tape::new(vec![0x00, 0x01, 0x00, 0x00, 0x00]);
    assert_eq!(Glyph::read(&mut tape), Err(Error::ShortRead));
    assert_eq!(tape.position(), 4);

    let mut tape = Tape::new(vec![]);
    assert_eq!(Glyph::read(&mut tape), Err(Error::ShortRead));
    assert_eq!(tape.position(), 0);
}

#[test]
fn errors_of_the_description_come_through_unchanged() {
    let mut tape = Tape::new(vec![
        0x00, 0x02, 0x00, 0x00, 0x00, 0x00, 0x00, 0x00, 0x00, 0x00, // two contours
        0x00, 0x05, 0x00, 0x03, // which end at 5 and then at 3
        0x00, 0x00,
    ]);
    assert_eq!(Glyph::read(&mut tape), Err(Error::MalformedGlyph(Cause::DecreasingEndPoints)));
    assert_eq!(tape.position(), 14);

    let mut tape = Tape::new(vec![
        0xff, 0xff, 0x00, 0x00, 0x00, 0x00, 0x00, 0x00, 0x00, 0x00, // compound
        0x00, 0x10, 0x00, 0x00, // a reserved bit
    ]);
    assert_eq!(Glyph::read(&mut tape), Err(Error::MalformedGlyph(Cause::ReservedComponentBits)));
    assert_eq!(tape.position(), 12);
}

#[test]
fn glyphs_stand_one_after_the_other() {
    let mut tape = Tape::new(vec![
        0x00, 0x00, 0x00, 0x00, 0x00, 0x00, 0x00, 0x00, 0x00, 0x00, 0x00, 0x00, // empty
        0xff, 0xff, 0x00, 0x00, 0x00, 0x00, 0x00, 0x00, 0x00, 0x00, // compound
        0x00, 0x00, 0x00, 0x00, 0x01, 0x02,
    ]);
    let mut glyphs: GlyphData = Vec::new();
    while tape.remaining() > 0 {
        glyphs.push(Glyph::read(&mut tape).unwrap());
    }
    assert_eq!(glyphs.len(), 2);
    assert!(matches!(glyphs[0].description, Description::Simple(_)));
    assert!(matches!(glyphs[1].description, Description::Compound(_)));
}

#[test]
fn the_default_glyph_is_an_empty_compound_one() {
    let glyph = Glyph::default();
    assert_eq!(glyph.contour_count, 0);
    assert_eq!((glyph.min_x, glyph.min_y, glyph.max_x, glyph.max_y), (0, 0, 0, 0));
    assert_eq!(glyph.description, Description::Compound(Compound::default()));
    assert_eq!(Description::default(), Description::Compound(Compound::default()));
}
