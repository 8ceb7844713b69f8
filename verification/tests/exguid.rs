use onenote_parser::compact::{CompactId, CompactU64};
use onenote_parser::errors::ErrorKind;
use onenote_parser::exguid::ExGuid;
use onenote_parser::guid::Guid;
use onenote_parser::reader::Reader;

fn guid_bytes() -> [u8; 16] {
    [
        0x33, 0x22, 0x11, 0x00, 0x55, 0x44, 0x77, 0x66, 0x88, 0x99, 0xAA, 0xBB, 0xCC, 0xDD, 0xEE,
        0xFF,
    ]
}

fn expected_guid() -> Guid {
    Guid::from_str("00112233-4455-6677-8899-aabbccddeeff").expect("valid test guid")
}

#[test]
fn test_parse_nil() {
    let mut reader = Reader::new(&[0u8]);
    let guid = ExGuid::parse(&mut reader).unwrap();

    assert!(guid.is_nil());
    assert!(guid.as_option().is_none());
}

#[test]
fn test_parse_5_bit_value() {
    let value = 17u8;
    let mut bytes = vec![(value << 3) | 0b100];
    bytes.extend_from_slice(&guid_bytes());

    let mut reader = Reader::new(&bytes);
    let guid = ExGuid::parse(&mut reader).unwrap();

    assert_eq!(guid.value, value as u32);
    assert_eq!(guid.guid, expected_guid());
}

#[test]
fn test_parse_10_bit_value() {
    let value = 0x155u16;
    let first = 0b100000 | ((value & 0b11) << 6) as u8;
    let second = (value >> 2) as u8;

    let mut bytes = vec![first, second];
    bytes.extend_from_slice(&guid_bytes());

    let mut reader = Reader::new(&bytes);
    let guid = ExGuid::parse(&mut reader).unwrap();

    assert_eq!(guid.value, value as u32);
    assert_eq!(guid.guid, expected_guid());
}

#[test]
fn test_parse_17_bit_value() {
    let value = 0x1ABCDu32;
    let first = 0b1000000 | ((value & 0x1) << 7) as u8;
    let second = ((value >> 1) as u16).to_le_bytes();

    let mut bytes = vec![first, second[0], second[1]];
    bytes.extend_from_slice(&guid_bytes());

    let mut reader = Reader::new(&bytes);
    let guid = ExGuid::parse(&mut reader).unwrap();

    assert_eq!(guid.value, value);
    assert_eq!(guid.guid, expected_guid());
}

#[test]
fn test_parse_32_bit_value() {
    let value = 0xDEAD_BEEFu32;
    let mut bytes = vec![0x80];
    bytes.extend_from_slice(&value.to_le_bytes());
    bytes.extend_from_slice(&guid_bytes());

    let mut reader = Reader::new(&bytes);
    let guid = ExGuid::parse(&mut reader).unwrap();

    assert_eq!(guid.value, value);
    assert_eq!(guid.guid, expected_guid());
}

#[test]
fn test_parse_array() {
    let mut bytes = vec![(2u8 << 1) | 0x1];
    bytes.push(0);

    let value = 3u8;
    bytes.push((value << 3) | 0b100);
    bytes.extend_from_slice(&guid_bytes());

    let mut reader = Reader::new(&bytes);
    let values = ExGuid::parse_array(&mut reader).unwrap();

    assert_eq!(values.len(), 2);
    assert!(values[0].is_nil());
    assert_eq!(values[1].value, value as u32);
}

#[test]
fn test_parse_invalid_first_byte() {
    let mut reader = Reader::new(&[0x02u8]);
    assert!(ExGuid::parse(&mut reader).is_err());
}

#[test]
fn parse_guid() {
    let guid = Guid::from_str("1A5A319C-C26B-41AA-B9C5-9BD8C44E07D4").unwrap();

    assert_eq!(
        guid,
        Guid::from_str("1A5A319C-C26B-41AA-B9C5-9BD8C44E07D4").unwrap()
    );
    assert_eq!(guid.value, 0x1A5A319C_C26B_41AA_B9C5_9BD8C44E07D4);
}

#[test]
fn parse_exguid() {
    let guid = ExGuid::from_guid(Guid::from_str("1A5A319C-C26B-41AA-B9C5-9BD8C44E07D4").unwrap(), 1);

    assert_eq!(
        guid,
        ExGuid::from_guid(
            Guid::from_str("1A5A319C-C26B-41AA-B9C5-9BD8C44E07D4").unwrap(),
            1
        )
    );
}

#[test]
fn guid_from_str_accepts_braces_and_rejects_garbage() {
    let braced = Guid::from_str("{BDE316E7-2665-4511-A4C4-8D4D0B7A9EAC}").unwrap();
    assert_eq!(braced.value, 0xBDE316E7_2665_4511_A4C4_8D4D0B7A9EAC);
    let err = Guid::from_str("not a guid").unwrap_err();
    assert_eq!(err.kind, ErrorKind::InvalidUuid);
    assert!(Guid::nil().is_nil());
    assert!(!braced.is_nil());
}

#[test]
fn exguid_errors_name_the_first_byte_and_running_out() {
    let err = ExGuid::parse(&mut Reader::new(&[0x02u8])).unwrap_err();
    assert_eq!(err.kind, ErrorKind::InvalidExGuidTag { first_byte: 0x02 });
    let err = ExGuid::parse(&mut Reader::new(&[0x80u8, 1, 2])).unwrap_err();
    assert_eq!(err.kind, ErrorKind::UnexpectedEof);
    let err = ExGuid::parse(&mut Reader::new(&[]) ).unwrap_err();
    assert_eq!(err.kind, ErrorKind::UnexpectedEof);
}

#[test]
fn compact_u64_covers_every_width() {
    assert_eq!(CompactU64::parse(&mut Reader::new(&[0u8])).unwrap().value(), 0);
    assert_eq!(CompactU64::parse(&mut Reader::new(&[0x05u8])).unwrap().value(), 2);
    // 14-bit value 0x1234 stored as (0x1234 << 2) | 0b10
    let v: u16 = (0x1234 << 2) | 0b10;
    assert_eq!(CompactU64::parse(&mut Reader::new(&v.to_le_bytes())).unwrap().value(), 0x1234);
    // 21-bit value
    let v: u32 = (0x12345 << 3) | 0b100;
    let b = v.to_le_bytes();
    assert_eq!(CompactU64::parse(&mut Reader::new(&b[..3])).unwrap().value(), 0x12345);
    // 64-bit value
    let mut bytes = vec![0x80u8];
    bytes.extend_from_slice(&0x0123_4567_89AB_CDEFu64.to_le_bytes());
    let mut reader = Reader::new(&bytes);
    assert_eq!(CompactU64::parse(&mut reader).unwrap().value(), 0x0123_4567_89AB_CDEF);
    assert_eq!(reader.remaining(), 0);
    assert!(CompactU64::parse(&mut Reader::new(&[0x80u8, 1])).is_err());
}

#[test]
fn compact_id_splits_index_and_value() {
    let data = (0x10u32 << 8) | 1;
    let cid = CompactId::parse(&mut Reader::new(&data.to_le_bytes())).unwrap();
    assert_eq!(cid, CompactId { n: 1, guid_index: 0x10 });
}

#[test]
fn format_errors_print_the_byte_in_binary_and_the_type_in_hex() {
    let err = onenote_parser::errors::Error::new(ErrorKind::InvalidExGuidTag { first_byte: 0b1010_0110 });
    assert_eq!(err.to_string(), "unexpected ExGuid first byte: 10100110");
    let err = onenote_parser::errors::Error::new(ErrorKind::UnexpectedPropertyType { prop_type: 0x1f });
    assert_eq!(err.to_string(), "unexpected property type: 0x1f");
    let err = onenote_parser::errors::Error::new(ErrorKind::InvalidExGuidTag { first_byte: 0 });
    assert_eq!(err.to_string(), "unexpected ExGuid first byte: 0");
}
