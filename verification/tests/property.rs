use onenote_parser::errors::ErrorKind;
use onenote_parser::property::{PropertyId, PropertySet, PropertyValue};
use onenote_parser::reader::Reader;

fn make_property_id(prop_type: u32, id: u32, bool_flag: bool) -> PropertyId {
    let mut value = (prop_type << 26) | (id & 0x3ffffff);
    if bool_flag {
        value |= 1 << 31;
    }

    PropertyId::new(value)
}

#[test]
fn test_property_bool() {
    assert_eq!(PropertyId::new(0x08001C04).bool(), false);
    assert_eq!(PropertyId::new(0x88001C04).bool(), true);
    assert_eq!(PropertyId::new(0x88001C04).id(), 0x1C04);
    assert_eq!(PropertyId::new(0x88001C04).prop_type(), 0x2);
}

#[test]
fn test_property_value_scalars() {
    let value =
        PropertyValue::parse(make_property_id(0x1, 0x10, false), &mut Reader::new(&[])).unwrap();
    assert!(matches!(value, PropertyValue::Empty));

    let value =
        PropertyValue::parse(make_property_id(0x2, 0x11, true), &mut Reader::new(&[])).unwrap();
    assert!(matches!(value, PropertyValue::Bool(true)));

    let value =
        PropertyValue::parse(make_property_id(0x3, 0x12, false), &mut Reader::new(&[0xAB]))
            .unwrap();
    assert!(matches!(value, PropertyValue::U8(0xAB)));

    let value = PropertyValue::parse(
        make_property_id(0x4, 0x13, false),
        &mut Reader::new(&[0x34, 0x12]),
    )
    .unwrap();
    assert!(matches!(value, PropertyValue::U16(0x1234)));

    let value = PropertyValue::parse(
        make_property_id(0x5, 0x14, false),
        &mut Reader::new(&[0x78, 0x56, 0x34, 0x12]),
    )
    .unwrap();
    assert!(matches!(value, PropertyValue::U32(0x1234_5678)));

    let value = PropertyValue::parse(
        make_property_id(0x6, 0x15, false),
        &mut Reader::new(&[0xEF, 0xCD, 0xAB, 0x89, 0x67, 0x45, 0x23, 0x01]),
    )
    .unwrap();
    assert!(matches!(value, PropertyValue::U64(0x0123_4567_89AB_CDEF)));
}

#[test]
fn test_property_value_vectors_and_ids() {
    let value = PropertyValue::parse(
        make_property_id(0x7, 0x20, false),
        &mut Reader::new(&[0x03, 0x00, 0x00, 0x00, 0xDE, 0xAD, 0xBE]),
    )
    .unwrap();
    assert!(matches!(value, PropertyValue::Vec(v) if v == vec![0xDE, 0xAD, 0xBE]));

    let value =
        PropertyValue::parse(make_property_id(0x8, 0x21, false), &mut Reader::new(&[])).unwrap();
    assert!(matches!(value, PropertyValue::ObjectId));

    let value = PropertyValue::parse(
        make_property_id(0x9, 0x22, false),
        &mut Reader::new(&[0xEF, 0xBE, 0xAD, 0xDE]),
    )
    .unwrap();
    assert!(matches!(value, PropertyValue::ObjectIds(0xDEAD_BEEF)));
}

#[test]
fn test_property_value_property_sets() {
    let nested_prop_id = make_property_id(0x5, 0x30, false);
    let nested_prop_id_bytes = nested_prop_id.value().to_le_bytes();

    let property_set_bytes = [
        0x01,
        0x00, // count
        nested_prop_id_bytes[0],
        nested_prop_id_bytes[1],
        nested_prop_id_bytes[2],
        nested_prop_id_bytes[3],
        0x78,
        0x56,
        0x34,
        0x12, // value
    ];

    let value = PropertyValue::parse(
        make_property_id(0x11, 0x31, false),
        &mut Reader::new(&property_set_bytes),
    )
    .unwrap();

    match value {
        PropertyValue::PropertySet(props) => {
            let inner = props.get(nested_prop_id).unwrap();
            assert!(matches!(inner, PropertyValue::U32(0x1234_5678)));
        }
        _ => panic!("expected property set"),
    }

    let value = PropertyValue::parse(
        make_property_id(0x10, 0x32, false),
        &mut Reader::new(&[
            0x01,
            0x00,
            0x00,
            0x00, // size
            nested_prop_id_bytes[0],
            nested_prop_id_bytes[1],
            nested_prop_id_bytes[2],
            nested_prop_id_bytes[3],
            0x01,
            0x00, // count
            nested_prop_id_bytes[0],
            nested_prop_id_bytes[1],
            nested_prop_id_bytes[2],
            nested_prop_id_bytes[3],
            0x78,
            0x56,
            0x34,
            0x12, // value
        ]),
    )
    .unwrap();

    match value {
        PropertyValue::PropertyValues(id, values) => {
            assert_eq!(id, nested_prop_id);
            assert_eq!(values.len(), 1);

            let inner = values[0].get(nested_prop_id).unwrap();
            assert!(matches!(inner, PropertyValue::U32(0x1234_5678)));
        }
        _ => panic!("expected property values"),
    }
}

#[test]
fn test_property_value_invalid_type() {
    let value = PropertyValue::parse(make_property_id(0x1F, 0x40, false), &mut Reader::new(&[]));
    assert!(value.is_err());
}

#[test]
fn property_errors_name_type_and_truncation() {
    let err = PropertyValue::parse(make_property_id(0x1F, 0x40, false), &mut Reader::new(&[]))
        .unwrap_err();
    assert_eq!(err.kind, ErrorKind::UnexpectedPropertyType { prop_type: 0x1F });
    let err = PropertyValue::parse(
        make_property_id(0x7, 0x20, false),
        &mut Reader::new(&[0x05, 0x00, 0x00, 0x00, 0xDE]),
    )
    .unwrap_err();
    assert_eq!(err.kind, ErrorKind::UnexpectedEof);
}

#[test]
fn property_set_get_returns_the_last_duplicate() {
    let id = make_property_id(0x3, 0x50, false);
    let b = id.value().to_le_bytes();
    let bytes = [2, 0, b[0], b[1], b[2], b[3], b[0], b[1], b[2], b[3], 7, 9];
    let mut reader = Reader::new(&bytes);
    let set = PropertySet::parse(&mut reader).unwrap();
    assert_eq!(reader.remaining(), 0);
    assert!(matches!(set.get(id), Some(PropertyValue::U8(9))));
    assert!(set.get(make_property_id(0x3, 0x51, false)).is_none());
}

#[test]
fn property_value_accessors_pick_their_variant() {
    assert_eq!(PropertyValue::Bool(true).to_bool(), Some(true));
    assert_eq!(PropertyValue::U8(3).to_bool(), None);
    assert_eq!(PropertyValue::U8(3).to_u8(), Some(3));
    assert_eq!(PropertyValue::U16(4).to_u16(), Some(4));
    assert_eq!(PropertyValue::U32(5).to_u32(), Some(5));
    assert_eq!(PropertyValue::U64(6).to_u64(), Some(6));
    assert_eq!(PropertyValue::Vec(vec![1, 2]).to_vec(), Some(&[1u8, 2][..]));
    assert_eq!(PropertyValue::ObjectId.to_object_id(), Some(()));
    assert_eq!(PropertyValue::ObjectIds(7).to_object_ids(), Some(7));
    assert_eq!(PropertyValue::ObjectSpaceIds(8).to_object_space_ids(), Some(8));
    assert_eq!(PropertyValue::Empty.to_object_space_ids(), None);
    assert!(PropertyValue::Empty.to_property_values().is_none());
}
