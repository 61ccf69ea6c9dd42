use truetype::flags::Component as Flags;
use truetype::{q16, Arguments, Cause, Component, Compound, Error, Options, Tape};

#[test]
fn arguments_come_in_four_shapes() {
    let bytes = vec![0xff, 0xfe, 0x00, 0x03, 0x99];
    let mut tape = Tape::new(bytes.clone());
    assert_eq!(Arguments::read(&mut tape, 0x0003), Ok(Arguments::Offsets(-2, 3)));
    assert_eq!(tape.position(), 4);
    let mut tape = Tape::new(bytes.clone());
    assert_eq!(Arguments::read(&mut tape, 0x0002), Ok(Arguments::Offsets(-1, -2)));
    assert_eq!(tape.position(), 2);
    let mut tape = Tape::new(bytes.clone());
    assert_eq!(Arguments::read(&mut tape, 0x0001), Ok(Arguments::Indices(0xfffe, 3)));
    assert_eq!(tape.position(), 4);
    let mut tape = Tape::new(bytes);
    assert_eq!(Arguments::read(&mut tape, 0x0000), Ok(Arguments::Indices(0xff, 0xfe)));
    assert_eq!(tape.position(), 2);
}

#[test]
fn cut_off_arguments_are_a_short_read() {
    let mut tape = Tape::new(vec![0x01, 0x02, 0x03]);
    assert_eq!(Arguments::read(&mut tape, 0x0003), Err(Error::ShortRead));
    assert_eq!(tape.position(), 2);
    let mut tape = Tape::new(vec![0x01]);
    assert_eq!(Arguments::read(&mut tape, 0x0002), Err(Error::ShortRead));
    assert_eq!(tape.position(), 1);
    let mut tape = Tape::new(vec![0x01]);
    assert_eq!(Arguments::read(&mut tape, 0x0001), Err(Error::ShortRead));
    assert_eq!(tape.position(), 0);
    let mut tape = Tape::new(vec![]);
    assert_eq!(Arguments::read(&mut tape, 0x0000), Err(Error::ShortRead));
    assert_eq!(tape.position(), 0);
}

#[test]
fn options_follow_the_scale_bits() {
    let bytes = vec![0x40, 0x00, 0x20, 0x00, 0xc0, 0x00, 0x00, 0x01, 0x77];
    let mut tape = Tape::new(bytes.clone());
    assert_eq!(Options::read(&mut tape, 0x0000), Ok(Options::Identity));
    assert_eq!(tape.position(), 0);
    let mut tape = Tape::new(bytes.clone());
    assert_eq!(Options::read(&mut tape, 0x0008), Ok(Options::Scalar(q16(0x4000))));
    assert_eq!(tape.position(), 2);
    let mut tape = Tape::new(bytes.clone());
    assert_eq!(Options::read(&mut tape, 0x0040), Ok(Options::Vector(q16(0x4000), q16(0x2000))));
    assert_eq!(tape.position(), 4);
    let mut tape = Tape::new(bytes);
    assert_eq!(
        Options::read(&mut tape, 0x0080),
        Ok(Options::Matrix(q16(0x4000), q16(0x2000), q16(0xc000), q16(0x0001)))
    );
    assert_eq!(tape.position(), 8);
}

#[test]
fn the_first_scale_bit_in_order_decides() {
    let bytes = vec![0x40, 0x00, 0x20, 0x00, 0xc0, 0x00, 0x00, 0x01];
    let mut tape = Tape::new(bytes.clone());
    assert_eq!(Options::read(&mut tape, 0x00c8), Ok(Options::Scalar(q16(0x4000))));
    assert_eq!(tape.position(), 2);
    let mut tape = Tape::new(bytes);
    assert_eq!(Options::read(&mut tape, 0x00c0), Ok(Options::Vector(q16(0x4000), q16(0x2000))));
    assert_eq!(tape.position(), 4);
}

#[test]
fn cut_off_options_are_a_short_read() {
    let mut tape = Tape::new(vec![0x40, 0x00, 0x20, 0x00, 0xc0]);
    assert_eq!(Options::read(&mut tape, 0x0080), Err(Error::ShortRead));
    assert_eq!(tape.position(), 4);
    let mut tape = Tape::new(vec![0x40]);
    assert_eq!(Options::read(&mut tape, 0x0008), Err(Error::ShortRead));
    assert_eq!(tape.position(), 0);
}

#[test]
fn reads_a_component() {
    let mut tape = Tape::new(vec![0x00, 0x4b, 0x01, 0x02, 0x00, 0x0a, 0xff, 0xf6, 0x40, 0x00, 0x55]);
    assert_eq!(
        Component::read(&mut tape),
        Ok(Component {
            flags: 0x004b,
            index: 0x0102,
            arguments: Arguments::Offsets(10, -10),
            options: Options::Scalar(q16(0x4000)),
        })
    );
    assert_eq!(tape.position(), 10);
}

#[test]
fn component_flags_with_a_reserved_bit_are_refused_at_once() {
    for flags in [0x0010u16, 0x0200, 0x0400, 0x0800, 0x1000, 0x2000, 0x4000, 0x8000, 0xfe10] {
        let mut bytes = flags.to_be_bytes().to_vec();
        bytes.extend_from_slice(&[0x00, 0x01, 0x02, 0x03]);
        let mut tape = Tape::new(bytes);
        assert_eq!(
            Component::read(&mut tape),
            Err(Error::MalformedGlyph(Cause::ReservedComponentBits))
        );
        assert_eq!(tape.position(), 2);
    }
}

#[test]
fn bits_nine_and_ten_of_component_flags_are_reserved() {
    let mut tape = Tape::new(vec![0x02, 0x02, 0x00, 0x01, 0x00, 0x00]);
    assert_eq!(
        Component::read(&mut tape),
        Err(Error::MalformedGlyph(Cause::ReservedComponentBits))
    );
    assert_eq!(tape.position(), 2);

    let mut tape = Tape::new(vec![0x06, 0x00, 0x00, 0x01, 0x02, 0x03]);
    assert_eq!(
        Component::read(&mut tape),
        Err(Error::MalformedGlyph(Cause::ReservedComponentBits))
    );
    assert_eq!(tape.position(), 2);
    assert!(Flags(0x0200).is_invalid());
    assert!(Flags(0x0400).is_invalid());
}

#[test]
fn every_bit_that_is_not_reserved_may_be_set() {
    let mut tape = Tape::new(vec![0x01, 0xef, 0x00, 0x01, 0x00, 0x02, 0x00, 0x03, 0x40, 0x00, 0x00, 0x00]);
    let component = Component::read(&mut tape).unwrap();
    assert_eq!(component.flags, 0x01ef);
    assert_eq!(component.arguments, Arguments::Offsets(2, 3));
    assert_eq!(component.options, Options::Scalar(q16(0x4000)));
    assert!(!Flags(component.flags).is_invalid());
    assert_eq!(tape.position(), 10);
}

#[test]
fn reads_one_component_with_byte_offsets() {
    let mut tape = Tape::new(vec![0x00, 0x02, 0x00, 0x05, 0x03, 0xfe]);
    let compound = Compound::read(&mut tape).unwrap();
    assert_eq!(compound.components().len(), 1);
    assert_eq!(
        compound.components()[0],
        Component {
            flags: 0x0002,
            index: 5,
            arguments: Arguments::Offsets(3, -2),
            options: Options::Identity,
        }
    );
    assert_eq!(compound.instruction_size(), 0);
    assert!(compound.instructions().is_empty());
    assert_eq!(tape.position(), 6);
}

#[test]
fn components_are_read_until_one_says_that_no_other_follows() {
    let mut tape = Tape::new(vec![
        0x00, 0x20, 0x00, 0x01, 0x0a, 0x0b, // points 10 and 11, another follows
        0x00, 0x23, 0x00, 0x02, 0x00, 0x64, 0xff, 0x9c, // offset (100, -100), another follows
        0x00, 0x02, 0x00, 0x03, 0x01, 0x02, // offset (1, 2), the last
        0x00, 0x20, 0x00, 0x04, 0x00, 0x00,
    ]);
    let compound = Compound::read(&mut tape).unwrap();
    let components = compound.components();
    assert_eq!(components.len(), 3);
    assert_eq!(components[0].index, 1);
    assert_eq!(components[0].arguments, Arguments::Indices(10, 11));
    assert_eq!(components[1].index, 2);
    assert_eq!(components[1].arguments, Arguments::Offsets(100, -100));
    assert_eq!(components[2].index, 3);
    assert_eq!(components[2].arguments, Arguments::Offsets(1, 2));
    assert!(Flags(components[0].flags).has_more_components());
    assert!(Flags(components[1].flags).has_more_components());
    assert!(!Flags(components[2].flags).has_more_components());
    assert_eq!(compound.instruction_size(), 0);
    assert!(compound.instructions().is_empty());
    assert_eq!(tape.position(), 20);
}

#[test]
fn instructions_follow_where_a_component_asks_for_them() {
    let mut tape = Tape::new(vec![
        0x01, 0x20, 0x00, 0x01, 0x00, 0x00, // asks for instructions, another follows
        0x00, 0x00, 0x00, 0x02, 0x00, 0x00, // the last
        0x00, 0x02, 0xaa, 0xbb, 0xcc,
    ]);
    let compound = Compound::read(&mut tape).unwrap();
    assert_eq!(compound.components().len(), 2);
    assert_eq!(compound.instruction_size(), 2);
    assert_eq!(compound.instructions(), &[0xaa, 0xbb]);
    assert_eq!(tape.position(), 16);
}

#[test]
fn instructions_asked_for_may_be_none() {
    let mut tape = Tape::new(vec![0x01, 0x00, 0x00, 0x01, 0x00, 0x00, 0x00, 0x00, 0x99]);
    let compound = Compound::read(&mut tape).unwrap();
    assert!(Flags(compound.components()[0].flags).has_instructions());
    assert_eq!(compound.instruction_size(), 0);
    assert!(compound.instructions().is_empty());
    assert_eq!(tape.position(), 8);
}

#[test]
fn the_list_of_components_tells_whether_instructions_are_asked_for() {
    let mut tape = Tape::new(vec![0x00, 0x20, 0x00, 0x01, 0x00, 0x00, 0x01, 0x00, 0x00, 0x02, 0x00, 0x00]);
    let (components, asked) = Compound::read_components(&mut tape).unwrap();
    assert_eq!(components.len(), 2);
    assert!(asked);
    assert_eq!(tape.position(), 12);

    let mut tape = Tape::new(vec![0x00, 0x00, 0x00, 0x01, 0x00, 0x00]);
    let (components, asked) = Compound::read_components(&mut tape).unwrap();
    assert_eq!(components.len(), 1);
    assert!(!asked);
}

#[test]
fn a_compound_outline_that_is_cut_off_is_a_short_read() {
    // Another component is announced and does not follow.
    let mut tape = Tape::new(vec![0x00, 0x20, 0x00, 0x01, 0x00, 0x00]);
    assert_eq!(Compound::read(&mut tape), Err(Error::ShortRead));
    assert_eq!(tape.position(), 6);
    // The instructions are announced and their size does not follow.
    let mut tape = Tape::new(vec![0x01, 0x00, 0x00, 0x01, 0x00, 0x00, 0x00]);
    assert_eq!(Compound::read(&mut tape), Err(Error::ShortRead));
    assert_eq!(tape.position(), 6);
    // The instructions are shorter than their size.
    let mut tape = Tape::new(vec![0x01, 0x00, 0x00, 0x01, 0x00, 0x00, 0x00, 0x02, 0xaa]);
    assert_eq!(Compound::read(&mut tape), Err(Error::ShortRead));
    assert_eq!(tape.position(), 8);
}

#[test]
fn a_reserved_bit_in_a_later_component_is_refused() {
    let mut tape = Tape::new(vec![0x00, 0x20, 0x00, 0x01, 0x00, 0x00, 0x00, 0x10, 0x00, 0x02, 0x00, 0x00]);
    assert_eq!(
        Compound::read(&mut tape),
        Err(Error::MalformedGlyph(Cause::ReservedComponentBits))
    );
    assert_eq!(tape.position(), 8);
}

#[test]
fn a_compound_outline_is_empty_by_default() {
    let compound = Compound::default();
    assert!(compound.components().is_empty());
    assert_eq!(compound.instruction_size(), 0);
    assert!(compound.instructions().is_empty());
}
