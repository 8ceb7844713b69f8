use onenote_parser::reader::Reader;

#[test]
fn test_read_and_advance() {
    let data = [1u8, 2, 3, 4];
    let mut reader = Reader::new(&data);

    assert_eq!(reader.remaining(), 4);
    assert_eq!(reader.read(2).unwrap(), &[1, 2]);
    assert_eq!(reader.remaining(), 2);

    reader.advance(1).unwrap();
    assert_eq!(reader.remaining(), 1);
    assert_eq!(reader.get_u8().unwrap(), 4);
    assert!(reader.get_u8().is_err());
}

#[test]
fn test_get_numeric_types() {
    let data = [
        0x34, 0x12, // u16 = 0x1234
        0x78, 0x56, 0x34, 0x12, // u32 = 0x12345678
        0xEF, 0xCD, 0xAB, 0x89, 0x67, 0x45, 0x23, 0x01, // u64
    ];
    let mut reader = Reader::new(&data);

    assert_eq!(reader.get_u16().unwrap(), 0x1234);
    assert_eq!(reader.get_u32().unwrap(), 0x1234_5678);
    assert_eq!(reader.get_u64().unwrap(), 0x0123_4567_89AB_CDEF);
}

#[test]
fn with_start_index_should_seek() {
    let data: [u8; 8] = [1, 2, 3, 4, 5, 6, 7, 8];
    let mut reader = Reader::new(&data);
    assert_eq!(reader.get_u8().unwrap(), 1);
    assert_eq!(reader.get_u8().unwrap(), 2);
    assert_eq!(reader.get_u8().unwrap(), 3);
    {
        let mut reader = reader.with_updated_bounds(0, 8).unwrap();
        assert_eq!(reader.get_u8().unwrap(), 1);
        assert_eq!(reader.get_u8().unwrap(), 2);
        assert_eq!(reader.get_u8().unwrap(), 3);
        assert_eq!(reader.get_u8().unwrap(), 4);
        let mut reader = reader.with_updated_bounds(1, 7).unwrap();
        assert_eq!(reader.get_u8().unwrap(), 2);
        assert_eq!(reader.get_u8().unwrap(), 3);
        let mut reader = reader.with_updated_bounds(1, 7).unwrap();
        assert_eq!(reader.get_u8().unwrap(), 2);
        assert_eq!(reader.get_u8().unwrap(), 3);
        let reader = reader.with_updated_bounds(5, 7).unwrap();
        assert_eq!(reader.remaining(), 2);
        let reader = reader.with_updated_bounds(6, 6).unwrap();
        assert_eq!(reader.remaining(), 0);
    }
    assert_eq!(reader.get_u8().unwrap(), 4);
}

#[test]
fn reader_reports_offsets_and_bounds_errors() {
    let data = [9u8, 8, 7, 6, 5];
    let mut reader = Reader::new(&data);
    assert_eq!(reader.absolute_offset(), 0);
    reader.advance(3).unwrap();
    assert_eq!(reader.absolute_offset(), 3);
    assert_eq!(reader.bytes(), &[6, 5]);
    assert!(reader.advance(3).is_err());
    assert_eq!(reader.absolute_offset(), 3);
    assert!(reader.read(3).is_err());
    assert!(reader.with_updated_bounds(6, 6).is_err());
    assert!(reader.with_updated_bounds(0, 6).is_err());
    assert!(reader.get_u16().is_ok());
    assert!(reader.get_u16().is_err());
}

#[test]
fn reads_u128_little_endian() {
    let mut data = [0u8; 16];
    data[0] = 0x01;
    data[15] = 0x80;
    let mut reader = Reader::new(&data);
    assert_eq!(reader.get_u128().unwrap(), (0x80u128 << 120) | 1);
    assert_eq!(reader.remaining(), 0);
}

#[test]
fn the_offset_counts_consumed_bytes_and_a_copy_reopens_the_window() {
    let data = [1u8, 2, 3, 4, 5, 6, 7, 8];
    let mut reader = Reader::new(&data).with_updated_bounds(2, 6).unwrap();
    assert_eq!(reader.absolute_offset(), 2);
    reader.get_u8().unwrap();
    reader.advance(1).unwrap();
    assert_eq!(reader.absolute_offset(), 4);
    assert_eq!(reader.remaining(), 2);
    let copy = reader.clone_at_position();
    assert_eq!(copy.absolute_offset(), 4);
    assert_eq!(copy.remaining(), 4);
}
