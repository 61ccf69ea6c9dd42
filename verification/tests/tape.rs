use truetype::{q16, Error, Tape};

#[test]
fn reads_big_endian_words() {
    let mut tape = Tape::new(vec![0x12, 0x34, 0xff, 0xfe, 0x80]);
    assert_eq!(tape.read_u16(), Ok(0x1234));
    assert_eq!(tape.read_i16(), Ok(-2));
    assert_eq!(tape.position(), 4);
    assert_eq!(tape.read_u16(), Err(Error::ShortRead));
    assert_eq!(tape.position(), 4);
    assert_eq!(tape.read_i8(), Ok(-128));
    assert_eq!(tape.remaining(), 0);
}

#[test]
fn reads_bytes_with_and_without_sign() {
    let mut tape = Tape::new(vec![0x7f, 0x7f, 0xff, 0xff, 0x80, 0x00]);
    assert_eq!(tape.read_u8(), Ok(127));
    assert_eq!(tape.read_i8(), Ok(127));
    assert_eq!(tape.read_u8(), Ok(255));
    assert_eq!(tape.read_i8(), Ok(-1));
    assert_eq!(tape.read_u8(), Ok(128));
    assert_eq!(tape.read_i8(), Ok(0));
    assert_eq!(tape.read_u8(), Err(Error::ShortRead));
    assert_eq!(tape.read_i8(), Err(Error::ShortRead));
    assert_eq!(tape.position(), 6);
}

#[test]
fn reads_the_extremes_of_a_signed_word() {
    let mut tape = Tape::new(vec![0x7f, 0xff, 0x80, 0x00, 0xff, 0xff, 0x00, 0x00]);
    assert_eq!(tape.read_i16(), Ok(32767));
    assert_eq!(tape.read_i16(), Ok(-32768));
    assert_eq!(tape.read_i16(), Ok(-1));
    assert_eq!(tape.read_i16(), Ok(0));
    assert_eq!(tape.read_i16(), Err(Error::ShortRead));
}

#[test]
fn a_short_read_consumes_nothing() {
    let mut tape = Tape::new(vec![0xab]);
    assert_eq!(tape.read_u16(), Err(Error::ShortRead));
    assert_eq!(tape.read_i16(), Err(Error::ShortRead));
    assert_eq!(tape.read_bytes(2), Err(Error::ShortRead));
    assert_eq!(q16::read(&mut tape), Err(Error::ShortRead));
    assert_eq!(tape.position(), 0);
    assert_eq!(tape.remaining(), 1);
    assert_eq!(tape.read_u8(), Ok(0xab));
}

#[test]
fn reads_bytes_as_they_stand() {
    let mut tape = Tape::new(vec![1, 2, 3, 4, 5]);
    assert_eq!(tape.read_bytes(0), Ok(vec![]));
    assert_eq!(tape.position(), 0);
    assert_eq!(tape.read_bytes(2), Ok(vec![1, 2]));
    assert_eq!(tape.read_bytes(3), Ok(vec![3, 4, 5]));
    assert_eq!(tape.position(), 5);
    assert_eq!(tape.read_bytes(0), Ok(vec![]));
    assert_eq!(tape.read_bytes(1), Err(Error::ShortRead));
}

#[test]
fn reads_words_one_after_the_other() {
    let mut tape = Tape::new(vec![0x00, 0x01, 0x01, 0x00, 0xff, 0xff, 0x80]);
    assert_eq!(tape.read_u16s(3), Ok(vec![1, 256, 65535]));
    assert_eq!(tape.position(), 6);

    let mut tape = Tape::new(vec![0x00, 0x01, 0x01, 0x00, 0xff, 0xff, 0x80]);
    assert_eq!(tape.read_i16s(3), Ok(vec![1, 256, -1]));
    assert_eq!(tape.position(), 6);

    let mut tape = Tape::new(vec![]);
    assert_eq!(tape.read_u16s(0), Ok(vec![]));
    assert_eq!(tape.read_i16s(0), Ok(vec![]));
}

#[test]
fn words_that_fit_are_consumed_before_a_run_of_words_fails() {
    let mut tape = Tape::new(vec![0, 1, 0, 2, 0, 3, 9]);
    assert_eq!(tape.read_u16s(4), Err(Error::ShortRead));
    assert_eq!(tape.position(), 6);

    let mut tape = Tape::new(vec![0, 1, 0, 2, 0, 3, 9]);
    assert_eq!(tape.read_i16s(usize::MAX), Err(Error::ShortRead));
    assert_eq!(tape.position(), 6);
}

#[test]
fn a_fixed_point_number_keeps_its_bits() {
    let mut tape = Tape::new(vec![0x40, 0x00, 0xc0, 0x00, 0x7f, 0xff]);
    let one = q16::read(&mut tape).unwrap();
    assert_eq!(one, q16(0x4000));
    assert_eq!(one.numerator(), 16384);
    let minus_one = q16::read(&mut tape).unwrap();
    assert_eq!(minus_one, q16(0xc000));
    assert_eq!(minus_one.numerator(), -16384);
    assert_eq!(q16::read(&mut tape).unwrap().numerator(), 32767);
    assert_eq!(tape.position(), 6);
}
