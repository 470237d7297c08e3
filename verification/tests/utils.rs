use rquake::{ByteCursor, LengthLimitedReader, ReadError, SeekFrom};

fn counting_bytes(n: usize) -> Vec<u8> {
    (0..n).map(|i| i as u8).collect()
}

#[test]
fn cursor_reads_in_order() {
    let data = counting_bytes(10);
    let mut cursor = ByteCursor::new(&data);
    assert_eq!(cursor.position(), 0);
    assert_eq!(cursor.read(4), &[0, 1, 2, 3]);
    assert_eq!(cursor.position(), 4);
    assert_eq!(cursor.read(0), &[] as &[u8]);
    assert_eq!(cursor.read(4), &[4, 5, 6, 7]);
    // the file ends first: fewer bytes come back
    assert_eq!(cursor.read(4), &[8, 9]);
    assert_eq!(cursor.position(), 10);
    assert_eq!(cursor.read(4), &[] as &[u8]);
    assert_eq!(cursor.position(), 10);
}

#[test]
fn cursor_seeks_from_three_origins() {
    let data = counting_bytes(10);
    let mut cursor = ByteCursor::new(&data);
    assert_eq!(cursor.seek(SeekFrom::Start(7)).unwrap(), 7);
    assert_eq!(cursor.read(1), &[7]);
    assert_eq!(cursor.seek(SeekFrom::Current(-3)).unwrap(), 5);
    assert_eq!(cursor.read(1), &[5]);
    assert_eq!(cursor.seek(SeekFrom::End(-1)).unwrap(), 9);
    assert_eq!(cursor.read(5), &[9]);
    assert_eq!(cursor.seek(SeekFrom::Current(0)).unwrap(), 10);
}

#[test]
fn cursor_may_stand_behind_the_end() {
    let data = counting_bytes(10);
    let mut cursor = ByteCursor::new(&data);
    assert_eq!(cursor.seek(SeekFrom::Start(1000)).unwrap(), 1000);
    assert_eq!(cursor.read(5), &[] as &[u8]);
    assert_eq!(cursor.position(), 1000);
    assert_eq!(cursor.seek(SeekFrom::End(5)).unwrap(), 15);
    assert_eq!(cursor.seek(SeekFrom::Start(u64::MAX)).unwrap(), u64::MAX);
    assert_eq!(cursor.read(5), &[] as &[u8]);
}

#[test]
fn cursor_rejects_a_seek_below_zero_or_above_the_maximum() {
    let data = counting_bytes(10);
    let mut cursor = ByteCursor::new(&data);
    cursor.seek(SeekFrom::Start(3)).unwrap();
    assert!(matches!(cursor.seek(SeekFrom::Current(-4)), Err(ReadError::Io(_))));
    assert_eq!(cursor.position(), 3);
    assert!(matches!(cursor.seek(SeekFrom::End(-11)), Err(ReadError::Io(_))));
    assert!(matches!(cursor.seek(SeekFrom::End(i64::MIN)), Err(ReadError::Io(_))));
    assert_eq!(cursor.position(), 3);
    cursor.seek(SeekFrom::Start(u64::MAX)).unwrap();
    assert!(matches!(cursor.seek(SeekFrom::Current(1)), Err(ReadError::Io(_))));
    assert_eq!(cursor.position(), u64::MAX);
    assert_eq!(cursor.seek(SeekFrom::Current(-3)).unwrap(), u64::MAX - 3);
}

#[test]
fn rejected_seek_is_an_invalid_input_error() {
    let data = counting_bytes(10);
    let mut cursor = ByteCursor::new(&data);
    match cursor.seek(SeekFrom::Current(-1)) {
        Err(ReadError::Io(err)) => assert_eq!(err.kind(), std::io::ErrorKind::InvalidInput),
        _ => panic!("seek below zero was accepted"),
    }
}

#[test]
fn bounded_read_is_cut_at_the_end_of_the_range() {
    // a range of 100 bytes; 60 bytes are asked for 80 bytes into it
    let data = counting_bytes(200);
    let mut cursor = ByteCursor::new(&data);
    cursor.seek(SeekFrom::Start(50)).unwrap();
    let mut reader = LengthLimitedReader::new(cursor, 100);
    assert_eq!(reader.seek(SeekFrom::Current(80)).unwrap(), 130);
    let got = reader.read(60);
    assert_eq!(got.len(), 20);
    assert_eq!(got, &data[130..150]);
    assert_eq!(reader.position(), 150);
    assert_eq!(reader.read(60), &[] as &[u8]);
    assert_eq!(reader.position(), 150);
}

#[test]
fn bounded_reader_starts_where_the_wrapped_reader_stands() {
    let data = counting_bytes(50);
    let mut cursor = ByteCursor::new(&data);
    cursor.seek(SeekFrom::Start(10)).unwrap();
    let mut reader = LengthLimitedReader::new(cursor, 5);
    assert_eq!(reader.position(), 10);
    assert_eq!(reader.remaining(), 5);
    assert_eq!(reader.read(3), &[10, 11, 12]);
    assert_eq!(reader.remaining(), 2);
    assert_eq!(reader.read(3), &[13, 14]);
    assert_eq!(reader.remaining(), 0);
}

#[test]
fn bounded_read_inside_the_range_is_not_cut() {
    let data = counting_bytes(50);
    let mut reader = LengthLimitedReader::new(ByteCursor::new(&data), 20);
    assert_eq!(reader.read(20).len(), 20);
    let mut reader = LengthLimitedReader::new(ByteCursor::new(&data), 20);
    assert_eq!(reader.read(19).len(), 19);
    assert_eq!(reader.read(1), &[19]);
}

#[test]
fn bounded_reader_ends_with_the_file() {
    let data = counting_bytes(10);
    let mut cursor = ByteCursor::new(&data);
    cursor.seek(SeekFrom::Start(6)).unwrap();
    let mut reader = LengthLimitedReader::new(cursor, 100);
    assert_eq!(reader.remaining(), 4);
    assert_eq!(reader.read(100), &[6, 7, 8, 9]);
    // a seek behind the end of the file, still inside the range
    assert_eq!(reader.seek(SeekFrom::Start(106)).unwrap(), 106);
    assert_eq!(reader.remaining(), 0);
    assert_eq!(reader.read(1), &[] as &[u8]);
}

#[test]
fn bounded_reader_behind_the_end_of_the_file_reads_nothing() {
    let data = counting_bytes(10);
    let mut cursor = ByteCursor::new(&data);
    cursor.seek(SeekFrom::Start(20)).unwrap();
    let mut reader = LengthLimitedReader::new(cursor, 5);
    assert_eq!(reader.remaining(), 0);
    assert_eq!(reader.read(5), &[] as &[u8]);
    assert_eq!(reader.position(), 20);
}

#[test]
fn bounded_seek_must_stay_in_the_range() {
    let data = counting_bytes(200);
    let mut cursor = ByteCursor::new(&data);
    cursor.seek(SeekFrom::Start(50)).unwrap();
    let mut reader = LengthLimitedReader::new(cursor, 100);
    // both ends of the range are accepted
    assert_eq!(reader.seek(SeekFrom::Start(150)).unwrap(), 150);
    assert_eq!(reader.seek(SeekFrom::Start(50)).unwrap(), 50);
    assert_eq!(reader.seek(SeekFrom::End(-50)).unwrap(), 150);
    assert_eq!(reader.seek(SeekFrom::Current(-100)).unwrap(), 50);
    // one byte outside is not
    assert!(matches!(reader.seek(SeekFrom::Start(49)), Err(ReadError::Io(_))));
    assert!(matches!(reader.seek(SeekFrom::Start(151)), Err(ReadError::Io(_))));
    assert!(matches!(reader.seek(SeekFrom::Current(-1)), Err(ReadError::Io(_))));
    assert!(matches!(reader.seek(SeekFrom::End(0)), Err(ReadError::Io(_))));
    assert!(matches!(reader.seek(SeekFrom::Current(i64::MIN)), Err(ReadError::Io(_))));
    // a rejected seek moves nothing
    assert_eq!(reader.position(), 50);
    assert_eq!(reader.read(2), &[50, 51]);
}

#[test]
fn bounded_range_stops_at_the_largest_position() {
    let data = counting_bytes(10);
    let mut cursor = ByteCursor::new(&data);
    cursor.seek(SeekFrom::Start(u64::MAX - 5)).unwrap();
    let mut reader = LengthLimitedReader::new(cursor, 100);
    assert_eq!(reader.seek(SeekFrom::Start(u64::MAX)).unwrap(), u64::MAX);
    assert!(matches!(reader.seek(SeekFrom::Current(1)), Err(ReadError::Io(_))));
    assert_eq!(reader.read(3), &[] as &[u8]);
}

#[test]
fn wrapped_reader_comes_back_where_it_was_left() {
    let data = counting_bytes(50);
    let mut cursor = ByteCursor::new(&data);
    cursor.seek(SeekFrom::Start(10)).unwrap();
    let mut reader = LengthLimitedReader::new(cursor, 20);
    reader.read(7);
    let mut cursor = reader.into_inner();
    assert_eq!(cursor.position(), 17);
    // without the wrapper the range no longer holds
    assert_eq!(cursor.read(40).len(), 33);
}

#[test]
fn empty_range_reads_nothing() {
    let data = counting_bytes(50);
    let mut reader = LengthLimitedReader::new(ByteCursor::new(&data), 0);
    assert_eq!(reader.remaining(), 0);
    assert_eq!(reader.read(10), &[] as &[u8]);
    assert_eq!(reader.seek(SeekFrom::Start(0)).unwrap(), 0);
    assert!(matches!(reader.seek(SeekFrom::Start(1)), Err(ReadError::Io(_))));
}
