use truetype::{Error, HorizontalMetrics, LongHorizontalMetric, Tape, Value};

#[test]
fn reads_full_records_and_then_bearings() {
    let mut tape = Tape::new(vec![
        0x02, 0x00, 0x00, 0x0a, // advance 512, bearing 10
        0x01, 0x00, 0xff, 0xf6, // advance 256, bearing -10
        0x00, 0x01, 0xff, 0xff, 0x00, 0x02, // bearings 1, -1, 2
        0x99,
    ]);
    let table = HorizontalMetrics::read(&mut tape, 2, 5).unwrap();
    assert_eq!(
        table.metrics,
        vec![
            LongHorizontalMetric { advance_width: 512, left_side_bearing: 10 },
            LongHorizontalMetric { advance_width: 256, left_side_bearing: -10 },
        ]
    );
    assert_eq!(table.left_side_bearings, vec![1, -1, 2]);
    assert_eq!(tape.position(), 14);
}

#[test]
fn every_glyph_may_have_a_full_record() {
    let mut tape = Tape::new(vec![0x02, 0x00, 0x00, 0x0a]);
    let table = HorizontalMetrics::read(&mut tape, 1, 1).unwrap();
    assert_eq!(table.metrics.len(), 1);
    assert!(table.left_side_bearings.is_empty());

    let mut tape = Tape::new(vec![]);
    assert_eq!(HorizontalMetrics::read(&mut tape, 0, 0), Ok(HorizontalMetrics::default()));
}

#[test]
fn a_cut_off_table_is_a_short_read() {
    let mut tape = Tape::new(vec![0x02, 0x00, 0x00, 0x0a, 0x01, 0x00, 0xff]);
    assert_eq!(HorizontalMetrics::read(&mut tape, 2, 2), Err(Error::ShortRead));
    assert_eq!(tape.position(), 6);

    let mut tape = Tape::new(vec![0x02, 0x00, 0x00, 0x0a, 0x01]);
    assert_eq!(HorizontalMetrics::read(&mut tape, 1, 3), Err(Error::ShortRead));
    assert_eq!(tape.position(), 4);
}

#[test]
fn a_record_of_metrics_is_zero_by_default() {
    assert_eq!(
        LongHorizontalMetric::default(),
        LongHorizontalMetric { advance_width: 0, left_side_bearing: 0 }
    );
}

#[test]
fn reads_one_full_record() {
    let mut tape = Tape::new(vec![0x02, 0x00, 0xff, 0xf6, 0x01, 0x00, 0x00]);
    assert_eq!(
        LongHorizontalMetric::read(&mut tape),
        Ok(LongHorizontalMetric { advance_width: 512, left_side_bearing: -10 })
    );
    assert_eq!(tape.position(), 4);
    assert_eq!(tape.take::<LongHorizontalMetric>(), Err(Error::ShortRead));
    assert_eq!(tape.position(), 6);
    assert_eq!(<LongHorizontalMetric as Value>::read(&mut tape), Err(Error::ShortRead));
    assert_eq!(tape.position(), 6);

    let mut tape = Tape::new(vec![0x00, 0x07, 0x00, 0x08]);
    assert_eq!(
        tape.take::<LongHorizontalMetric>(),
        Ok(LongHorizontalMetric { advance_width: 7, left_side_bearing: 8 })
    );
}
