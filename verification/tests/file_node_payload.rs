use onenote_parser::compact::CompactId;
use onenote_parser::errors::ErrorKind;
use onenote_parser::exguid::ExGuid;
use onenote_parser::file_node::{FileNodeData, FileNodeList};
use onenote_parser::file_node_payload::{
    FileData, FileNodeChunkReference, FileNodeDataKind, FileNodeDataRef, FileNodeHeader,
    FileNodeListHeader, ObjectDeclaration2Body, ObjectGroupListReferenceFND,
    ObjectDeclarationFileDataRefCount, ObjectSpaceManifestListReferenceFND, PointerToListFND,
    RevisionManifestListStartFND,
    StringInStorageBuffer, UnknownNode,
};
use onenote_parser::guid::Guid;
use onenote_parser::onestore::{FileDataStatus, JcId};
use onenote_parser::reader::Reader;

const GUID_BYTES: [u8; 16] = [
    0x9C, 0x31, 0x5A, 0x1A, 0x6B, 0xC2, 0xAA, 0x41, 0xB9, 0xC5, 0x9B, 0xD8, 0xC4, 0x4E, 0x07, 0xD4,
];

fn known_guid() -> Guid {
    Guid::from_str("{1A5A319C-C26B-41AA-B9C5-9BD8C44E07D4}").unwrap()
}

fn exguid_bytes(value: u32) -> Vec<u8> {
    let mut bytes = GUID_BYTES.to_vec();
    bytes.extend_from_slice(&value.to_le_bytes());
    bytes
}

fn list_of(nodes: Vec<FileNodeData>) -> FileNodeList {
    FileNodeList {
        file_node_sequence: nodes,
    }
}

fn revision_list_reference(marker: u32) -> FileNodeData {
    FileNodeData::RevisionManifestListReferenceFND {
        list: list_of(vec![FileNodeData::RevisionManifestListStartFND {
            gsoid: ExGuid::from_guid(Guid::from_u128(1), marker),
            n_instance: 0,
        }]),
    }
}

#[test]
fn a_fixed_exguid_is_a_guid_then_a_value() {
    let bytes = exguid_bytes(0x0102_0304);
    let mut reader = Reader::new(&bytes);
    let id = ExGuid::parse_fixed(&mut reader).unwrap();
    assert_eq!(id, ExGuid::from_guid(known_guid(), 0x0102_0304));
    assert_eq!(reader.remaining(), 0);
    let mut short = Reader::new(&bytes[..19]);
    assert_eq!(
        ExGuid::parse_fixed(&mut short).unwrap_err().kind,
        ErrorKind::UnexpectedEof
    );
}

#[test]
fn a_list_header_starts_with_its_magic() {
    let mut bytes = 0xA456_7AB1_F5F7_F4C4u64.to_le_bytes().to_vec();
    bytes.extend_from_slice(&0x10u32.to_le_bytes());
    bytes.extend_from_slice(&3u32.to_le_bytes());
    bytes.push(0xFF);
    let mut reader = Reader::new(&bytes);
    let header = FileNodeListHeader::parse(&mut reader).unwrap();
    assert_eq!(header.magic, 0xA456_7AB1_F5F7_F4C4);
    assert_eq!(header.file_node_list_id, 0x10);
    assert_eq!(header.n_fragment_sequence, 3);
    assert_eq!(reader.remaining(), 1);

    let mut wrong = bytes.clone();
    wrong[0] = 0xC5;
    let err = FileNodeListHeader::parse(&mut Reader::new(&wrong)).unwrap_err();
    assert_eq!(err.kind, ErrorKind::InvalidFileNodeListMagic);

    let err = FileNodeListHeader::parse(&mut Reader::new(&bytes[..12])).unwrap_err();
    assert_eq!(err.kind, ErrorKind::UnexpectedEof);
}

#[test]
fn a_declaration_body_holds_id_type_and_flags() {
    let bytes = [0x05, 0x02, 0x00, 0x00, 0x01, 0x00, 0x06, 0x00, 0x02, 0xAA];
    let mut reader = Reader::new(&bytes);
    let body = ObjectDeclaration2Body::parse(&mut reader).unwrap();
    assert_eq!(
        body.oid,
        CompactId {
            n: 5,
            guid_index: 2
        }
    );
    assert_eq!(body.jcid, JcId(0x0006_0001));
    assert!(!body.f_has_oid_references);
    assert!(body.f_has_osid_references);
    assert_eq!(reader.remaining(), 1);

    let both = [0, 0, 0, 0, 0, 0, 0, 0, 0x03];
    let body = ObjectDeclaration2Body::parse(&mut Reader::new(&both)).unwrap();
    assert!(body.f_has_oid_references && body.f_has_osid_references);

    let err = ObjectDeclaration2Body::parse(&mut Reader::new(&bytes[..8])).unwrap_err();
    assert_eq!(err.kind, ErrorKind::UnexpectedEof);
}

#[test]
fn a_stored_string_is_utf16() {
    let bytes = [0x04, 0x00, 0x00, 0x00, b'a', 0x00, 0xE9, 0x00, 0x3D, 0xD8, 0x00];
    // Four code units, the last one cut short.
    let err = StringInStorageBuffer::parse(&mut Reader::new(&bytes)).unwrap_err();
    assert_eq!(err.kind, ErrorKind::UnexpectedEof);

    let bytes = [
        0x04, 0x00, 0x00, 0x00, b'a', 0x00, 0xE9, 0x00, 0x3D, 0xD8, 0x00, 0xDE, 0x7A,
    ];
    let mut reader = Reader::new(&bytes);
    let s = StringInStorageBuffer::parse(&mut reader).unwrap();
    assert_eq!(s.cch, 4);
    assert_eq!(s.data, "a\u{e9}\u{1F600}");
    assert_eq!(reader.remaining(), 1);

    let lone = [0x01, 0x00, 0x00, 0x00, 0x00, 0xD8];
    let err = StringInStorageBuffer::parse(&mut Reader::new(&lone)).unwrap_err();
    assert_eq!(err.kind, ErrorKind::InvalidUtf16);

    let empty = [0x00, 0x00, 0x00, 0x00];
    let s = StringInStorageBuffer::parse(&mut Reader::new(&empty)).unwrap();
    assert_eq!(s.cch, 0);
    assert_eq!(s.data, "");
}

#[test]
fn a_manifest_list_start_names_its_object_space() {
    let mut bytes = exguid_bytes(9);
    bytes.extend_from_slice(&7u32.to_le_bytes());
    let mut reader = Reader::new(&bytes);
    let start = RevisionManifestListStartFND::parse(&mut reader).unwrap();
    assert_eq!(start.gsoid, ExGuid::from_guid(known_guid(), 9));
    assert_eq!(start.n_instance, 7);
    assert_eq!(reader.remaining(), 0);
    let err = RevisionManifestListStartFND::parse(&mut Reader::new(&bytes[..22])).unwrap_err();
    assert_eq!(err.kind, ErrorKind::UnexpectedEof);
}

#[test]
fn list_references_need_a_list() {
    let list = list_of(vec![FileNodeData::ChunkTerminatorFND]);
    let p = PointerToListFND::parse(FileNodeDataRef::ElementList(list)).unwrap();
    assert_eq!(p.list.file_node_sequence.len(), 1);
    let err = PointerToListFND::parse(FileNodeDataRef::NoData).unwrap_err();
    assert_eq!(err.kind, ErrorKind::ExpectedNodeList);
    let err = PointerToListFND::parse(FileNodeDataRef::SingleElement(FileNodeChunkReference {
        stp: 0,
        cb: 0,
    }))
    .unwrap_err();
    assert_eq!(err.kind, ErrorKind::ExpectedNodeList);

    let bytes = exguid_bytes(4);
    let mut reader = Reader::new(&bytes);
    let group = ObjectGroupListReferenceFND::parse(
        &mut reader,
        FileNodeDataRef::ElementList(list_of(vec![])),
    )
    .unwrap();
    assert_eq!(group.id, ExGuid::from_guid(known_guid(), 4));
    assert_eq!(group.list.file_node_sequence.len(), 0);
    let mut reader = Reader::new(&bytes);
    let err = ObjectGroupListReferenceFND::parse(&mut reader, FileNodeDataRef::InvalidData)
        .unwrap_err();
    assert_eq!(err.kind, ErrorKind::ExpectedNodeList);
    assert_eq!(reader.remaining(), 20);
}

#[test]
fn an_object_space_reference_keeps_the_last_revision_list() {
    let bytes = exguid_bytes(1);
    let nodes = vec![
        FileNodeData::ObjectSpaceManifestListStartFND {
            gsoid: ExGuid::default(),
        },
        revision_list_reference(10),
        revision_list_reference(20),
    ];
    let mut reader = Reader::new(&bytes);
    let reference = ObjectSpaceManifestListReferenceFND::parse(
        &mut reader,
        FileNodeDataRef::ElementList(list_of(nodes)),
    )
    .unwrap();
    assert_eq!(reference.gosid, ExGuid::from_guid(known_guid(), 1));
    match &reference.last_revision.list.file_node_sequence[..] {
        [FileNodeData::RevisionManifestListStartFND { gsoid, .. }] => assert_eq!(gsoid.value, 20),
        _ => panic!("unexpected last revision list"),
    }
}

#[test]
fn an_object_space_reference_checks_its_list() {
    let bytes = exguid_bytes(1);
    let parse = |nodes: Vec<FileNodeData>| {
        ObjectSpaceManifestListReferenceFND::parse(
            &mut Reader::new(&bytes),
            FileNodeDataRef::ElementList(list_of(nodes)),
        )
        .map(|_| ())
        .map_err(|e| e.kind)
    };
    let start = || FileNodeData::ObjectSpaceManifestListStartFND {
        gsoid: ExGuid::default(),
    };
    assert_eq!(
        parse(vec![revision_list_reference(1)]),
        Err(ErrorKind::ObjectSpaceListWithoutStart)
    );
    assert_eq!(
        parse(vec![start(), revision_list_reference(1), FileNodeData::ChunkTerminatorFND]),
        Err(ErrorKind::UnexpectedObjectSpaceListNode)
    );
    assert_eq!(
        parse(vec![start()]),
        Err(ErrorKind::ObjectSpaceListWithoutRevision)
    );
    assert_eq!(parse(vec![]), Err(ErrorKind::ObjectSpaceListWithoutRevision));
    assert_eq!(parse(vec![start(), revision_list_reference(1)]), Ok(()));
    let err = ObjectSpaceManifestListReferenceFND::parse(
        &mut Reader::new(&bytes[..10]),
        FileNodeDataRef::ElementList(list_of(vec![start(), revision_list_reference(1)])),
    )
    .unwrap_err();
    assert_eq!(err.kind, ErrorKind::UnexpectedEof);
    let err = ObjectSpaceManifestListReferenceFND::parse(
        &mut Reader::new(&bytes),
        FileNodeDataRef::NoData,
    )
    .unwrap_err();
    assert_eq!(err.kind, ErrorKind::ExpectedNodeList);
}

#[test]
fn a_node_header_packs_five_fields() {
    // node type 0x08C, size 20, offsets in format 1, sizes in format 2, base type 2
    let word: u32 = 0x08C | (20 << 10) | (1 << 23) | (2 << 25) | (2 << 27) | (1 << 31);
    let bytes = word.to_le_bytes();
    let mut reader = Reader::new(&bytes);
    let header = FileNodeHeader::parse(&mut reader).unwrap();
    assert_eq!(header.node_type_id, 0x08C);
    assert_eq!(header.size, 20);
    assert_eq!(header.stp_format, 1);
    assert_eq!(header.cb_format, 2);
    assert_eq!(header.base_type, 2);
    assert_eq!(header.data_kind(), Some(FileNodeDataKind::ElementList));
    assert_eq!(reader.remaining(), 0);

    let all = u32::MAX.to_le_bytes();
    let header = FileNodeHeader::parse(&mut Reader::new(&all)).unwrap();
    assert_eq!(
        (header.node_type_id, header.size, header.stp_format, header.cb_format, header.base_type),
        (0x3FF, 0x1FFF, 3, 3, 15)
    );
    assert_eq!(header.data_kind(), None);

    let zero = [0u8; 4];
    let header = FileNodeHeader::parse(&mut Reader::new(&zero)).unwrap();
    assert_eq!(header.data_kind(), Some(FileNodeDataKind::NoData));
    let err = FileNodeHeader::parse(&mut Reader::new(&zero[..3])).unwrap_err();
    assert_eq!(err.kind, ErrorKind::UnexpectedEof);
}

#[test]
fn unknown_nodes_are_skipped_and_file_data_is_kept() {
    let bytes = [1u8, 2, 3, 4, 5];
    let mut reader = Reader::new(&bytes);
    UnknownNode::parse(&mut reader, 2).unwrap();
    assert_eq!(reader.remaining(), 3);
    let data = FileData::parse(&mut reader, 3).unwrap();
    assert_eq!(data.0.read(), vec![3, 4, 5]);
    assert_eq!(data.0.status(), FileDataStatus::Available);
    assert_eq!(reader.remaining(), 0);
    assert_eq!(
        UnknownNode::parse(&mut reader, 1).unwrap_err().kind,
        ErrorKind::UnexpectedEof
    );
    assert_eq!(
        FileData::parse(&mut Reader::new(&bytes), 6).unwrap_err().kind,
        ErrorKind::UnexpectedEof
    );
}

fn storage_string(text: &str) -> Vec<u8> {
    let units: Vec<u16> = text.encode_utf16().collect();
    let mut bytes = (units.len() as u32).to_le_bytes().to_vec();
    for unit in units {
        bytes.extend_from_slice(&unit.to_le_bytes());
    }
    bytes
}

fn file_declaration_bytes(large: bool, data_ref: &str, ext: &str) -> Vec<u8> {
    let mut bytes = 0x0000_0103u32.to_le_bytes().to_vec();
    bytes.extend_from_slice(&0x0006_0035u32.to_le_bytes());
    if large {
        bytes.extend_from_slice(&300u32.to_le_bytes());
    } else {
        bytes.push(2);
    }
    bytes.extend(storage_string(data_ref));
    bytes.extend(storage_string(ext));
    bytes
}

#[test]
fn a_file_data_declaration_names_its_file() {
    let bytes = file_declaration_bytes(false, "<ifndf>{1A5A319C-C26B-41AA-B9C5-9BD8C44E07D4}", ".png");
    let mut reader = Reader::new(&bytes);
    let node = ObjectDeclarationFileDataRefCount::parse(&mut reader, false).unwrap();
    assert_eq!(reader.remaining(), 0);
    assert_eq!(node.oid, CompactId { n: 3, guid_index: 1 });
    assert_eq!(node.jcid, JcId(0x0006_0035));
    assert_eq!(node.c_ref, 2);
    assert_eq!(node.file_ext.data, ".png");
    let declaration = node.into_declaration();
    let attachment = declaration.attachment.unwrap();
    assert_eq!(attachment.data_ref, "<ifndf>{1A5A319C-C26B-41AA-B9C5-9BD8C44E07D4}");
    assert_eq!(attachment.extension, ".png");
    assert!(declaration.props.is_none());

    let bytes = file_declaration_bytes(true, "<invfdo>", "");
    let node = ObjectDeclarationFileDataRefCount::parse(&mut Reader::new(&bytes), true).unwrap();
    assert_eq!(node.c_ref, 300);
    assert_eq!(node.file_data_ref.data, "<invfdo>");

    let bytes = file_declaration_bytes(false, "elsewhere", ".png");
    let err = ObjectDeclarationFileDataRefCount::parse(&mut Reader::new(&bytes), false).unwrap_err();
    assert_eq!(err.kind, ErrorKind::InvalidFileDataReference);

    let bytes = file_declaration_bytes(false, "<file>x", ".png");
    let err = ObjectDeclarationFileDataRefCount::parse(&mut Reader::new(&bytes[..bytes.len() - 1]), false)
        .unwrap_err();
    assert_eq!(err.kind, ErrorKind::UnexpectedEof);
}
