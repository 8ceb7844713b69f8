use onenote_parser::errors::ErrorKind;
use onenote_parser::exguid::ExGuid;
use onenote_parser::file_node::FileNodeData;
use onenote_parser::file_node_payload::FileNodeChunkReference;
use onenote_parser::file_node_reader::{FileNode, FileNodeListFragment};
use onenote_parser::guid::Guid;
use onenote_parser::reader::Reader;

const GUID_BYTES: [u8; 16] = [
    0x9C, 0x31, 0x5A, 0x1A, 0x6B, 0xC2, 0xAA, 0x41, 0xB9, 0xC5, 0x9B, 0xD8, 0xC4, 0x4E, 0x07, 0xD4,
];

fn header(id: u32, size: u32, base_type: u32) -> Vec<u8> {
    (id | (size << 10) | (base_type << 27)).to_le_bytes().to_vec()
}

fn exguid_bytes(value: u32) -> Vec<u8> {
    let mut bytes = GUID_BYTES.to_vec();
    bytes.extend_from_slice(&value.to_le_bytes());
    bytes
}

#[test]
fn a_fixed_node_is_read_with_its_header_fields() {
    let mut bytes = header(0x004, 24, 0);
    bytes.extend(exguid_bytes(7));
    bytes.push(0xEE);
    let mut reader = Reader::new(&bytes);
    let node = FileNode::parse(&mut reader).unwrap();
    assert_eq!(node.node_type_id, 0x004);
    assert_eq!(node.size, 24);
    assert_eq!(node.base_type, 0);
    let expected = ExGuid {
        guid: Guid::from_str("{1A5A319C-C26B-41AA-B9C5-9BD8C44E07D4}").unwrap(),
        value: 7,
    };
    match node.fnd {
        FileNodeData::ObjectSpaceManifestRootFND { gosid_root } => assert_eq!(gosid_root, expected),
        other => panic!("unexpected node {:?}", other),
    }
    assert_eq!(reader.absolute_offset(), 24);
    assert_eq!(reader.remaining(), 1);
}

#[test]
fn a_global_id_copy_node_keeps_its_three_fields() {
    let mut bytes = header(0x026, 16, 0);
    for v in [5u32, 2, 9] {
        bytes.extend_from_slice(&v.to_le_bytes());
    }
    let mut reader = Reader::new(&bytes);
    let node = FileNode::parse(&mut reader).unwrap();
    match node.fnd {
        FileNodeData::GlobalIdTableEntry3FNDX(e) => {
            assert_eq!(e.i_index_copy_from_start, 5);
            assert_eq!(e.c_entries_to_copy, 2);
            assert_eq!(e.i_index_copy_to_start, 9);
        }
        other => panic!("unexpected node {:?}", other),
    }
    assert_eq!(node.size, 16);
}

#[test]
fn a_declared_size_that_differs_from_the_bytes_taken_is_refused() {
    let mut bytes = header(0x004, 30, 0);
    bytes.extend(exguid_bytes(7));
    bytes.extend_from_slice(&[0; 6]);
    let mut reader = Reader::new(&bytes);
    let err = FileNode::parse(&mut reader).unwrap_err();
    assert_eq!(
        err.kind,
        ErrorKind::FileNodeSizeMismatch { node_type_id: 0x004, declared: 30, actual: 24 }
    );
    assert_eq!(
        err.to_string(),
        "the size specified for this structure is incorrect: was 24, expected 30"
    );
}

#[test]
fn a_null_node_may_declare_any_size() {
    let bytes = header(0, 99, 0);
    let mut reader = Reader::new(&bytes);
    let node = FileNode::parse(&mut reader).unwrap();
    assert!(matches!(node.fnd, FileNodeData::Null));
    assert_eq!(node.size, 4);
}

#[test]
fn a_node_that_refers_to_other_data_is_refused() {
    let mut bytes = header(0x0B0, 36, 2);
    bytes.extend_from_slice(&[0; 32]);
    let mut reader = Reader::new(&bytes);
    let err = FileNode::parse(&mut reader).unwrap_err();
    assert_eq!(err.kind, ErrorKind::UnresolvedNodeData { node_type_id: 0x0B0 });

    let mut bytes = header(0x094, 40, 1);
    bytes.extend_from_slice(&[0; 36]);
    let mut reader = Reader::new(&bytes);
    let err = FileNode::parse(&mut reader).unwrap_err();
    assert_eq!(err.kind, ErrorKind::UnresolvedNodeData { node_type_id: 0x094 });
}

#[test]
fn a_fixed_node_with_a_chunk_reference_reads_past_the_reference() {
    // Offset in 4 bytes, size in 1 byte counting units of 8 bytes.
    let word: u32 = 0x004 | (29 << 10) | (1 << 23) | (2 << 25) | (1 << 27);
    let mut bytes = word.to_le_bytes().to_vec();
    bytes.extend_from_slice(&0x1234u32.to_le_bytes());
    bytes.push(3);
    bytes.extend(exguid_bytes(7));
    let mut reader = Reader::new(&bytes);
    let node = FileNode::parse(&mut reader).unwrap();
    assert_eq!(node.size, 29);
    assert_eq!(node.stp_format, 1);
    assert_eq!(node.cb_format, 2);
    match node.fnd {
        FileNodeData::ObjectSpaceManifestRootFND { gosid_root } => assert_eq!(gosid_root.value, 7),
        other => panic!("unexpected node {:?}", other),
    }

    let mut truncated = word.to_le_bytes().to_vec();
    truncated.extend_from_slice(&[1, 2, 3]);
    let mut reader = Reader::new(&truncated);
    assert_eq!(FileNode::parse(&mut reader).unwrap_err().kind, ErrorKind::UnexpectedEof);
}

#[test]
fn chunk_references_follow_the_formats_of_the_header() {
    let bytes = [0x10, 0x00, 0x03, 0x00, 0xFF];
    let mut reader = Reader::new(&bytes);
    let r = FileNodeChunkReference::parse(&mut reader, 2, 3).unwrap();
    assert_eq!(r.stp, 0x80);
    assert_eq!(r.cb, 24);
    assert_eq!(reader.remaining(), 1);

    let mut bytes = 0x1122334455667788u64.to_le_bytes().to_vec();
    bytes.extend_from_slice(&0x99u32.to_le_bytes());
    let mut reader = Reader::new(&bytes);
    let r = FileNodeChunkReference::parse(&mut reader, 0, 0).unwrap();
    assert_eq!(r.stp, 0x1122334455667788);
    assert_eq!(r.cb, 0x99);

    let mut reader = Reader::new(&[0u8; 11]);
    assert_eq!(
        FileNodeChunkReference::parse(&mut reader, 0, 1).unwrap_err().kind,
        ErrorKind::UnexpectedEof
    );
}

#[test]
fn an_unknown_node_is_skipped_by_its_declared_size() {
    let mut bytes = header(0x3F0, 10, 0);
    bytes.extend_from_slice(&[1, 2, 3, 4, 5, 6, 7]);
    let mut reader = Reader::new(&bytes);
    let node = FileNode::parse(&mut reader).unwrap();
    assert!(matches!(node.fnd, FileNodeData::UnknownNode));
    assert_eq!(node.size, 10);
    assert_eq!(reader.remaining(), 1);

    let mut bytes = header(0x3F0, 10, 0);
    bytes.extend_from_slice(&[1, 2]);
    let mut reader = Reader::new(&bytes);
    assert_eq!(FileNode::parse(&mut reader).unwrap_err().kind, ErrorKind::UnexpectedEof);
}

#[test]
fn a_truncated_node_is_an_unexpected_end() {
    let mut bytes = header(0x004, 24, 0);
    bytes.extend_from_slice(&GUID_BYTES[..10]);
    let mut reader = Reader::new(&bytes);
    assert_eq!(FileNode::parse(&mut reader).unwrap_err().kind, ErrorKind::UnexpectedEof);

    let mut reader = Reader::new(&[0x04, 0x60]);
    assert_eq!(FileNode::parse(&mut reader).unwrap_err().kind, ErrorKind::UnexpectedEof);
}

fn fragment(size: usize, nodes: &[u8], footer: u64) -> Vec<u8> {
    let mut bytes = 0xA4567AB1F5F7F4C4u64.to_le_bytes().to_vec();
    bytes.extend_from_slice(&0x10u32.to_le_bytes());
    bytes.extend_from_slice(&3u32.to_le_bytes());
    bytes.extend_from_slice(nodes);
    bytes.resize(size - 20, 0);
    bytes.extend_from_slice(&0x1122u64.to_le_bytes());
    bytes.extend_from_slice(&0x33u32.to_le_bytes());
    bytes.extend_from_slice(&footer.to_le_bytes());
    bytes
}

fn root_then_terminator() -> Vec<u8> {
    let mut nodes = header(0x004, 24, 0);
    nodes.extend(exguid_bytes(7));
    nodes.extend(header(0, 0, 0));
    nodes.extend(header(0x0FF, 4, 0));
    nodes
}

#[test]
fn a_fragment_keeps_its_nodes_but_the_null_ones() {
    let bytes = fragment(76, &root_then_terminator(), 0x8BC215C38233BA4B);
    let mut reader = Reader::new(&bytes);
    let mut count = usize::MAX;
    let f = FileNodeListFragment::parse(&mut reader, 76, &mut count).unwrap();
    assert_eq!(f.header.file_node_list_id, 0x10);
    assert_eq!(f.header.n_fragment_sequence, 3);
    assert_eq!(f.file_nodes.len(), 2);
    assert_eq!(f.file_nodes[0].node_type_id, 0x004);
    assert!(matches!(f.file_nodes[1].fnd, FileNodeData::ChunkTerminatorFND));
    assert_eq!(f.next_fragment.stp, 0x1122);
    assert_eq!(f.next_fragment.cb, 0x33);
    assert_eq!(f.footer, 0x8BC215C38233BA4B);
    assert_eq!(count, usize::MAX - 1);
    assert_eq!(reader.absolute_offset(), 76);
}

#[test]
fn a_fragment_stops_after_the_expected_number_of_nodes() {
    let bytes = fragment(76, &root_then_terminator(), 0x8BC215C38233BA4B);
    let mut reader = Reader::new(&bytes);
    let mut count = 1;
    let f = FileNodeListFragment::parse(&mut reader, 76, &mut count).unwrap();
    assert_eq!(f.file_nodes.len(), 1);
    assert_eq!(count, 0);
    assert_eq!(reader.absolute_offset(), 76);
}

#[test]
fn a_fragment_with_a_wrong_footer_is_refused() {
    let bytes = fragment(76, &root_then_terminator(), 1);
    let mut reader = Reader::new(&bytes);
    let mut count = usize::MAX;
    let err = FileNodeListFragment::parse(&mut reader, 76, &mut count).unwrap_err();
    assert_eq!(err.kind, ErrorKind::InvalidFileNodeListFooter { footer: 1 });
    assert_eq!(err.to_string(), "invalid footer: 0x1");
}

#[test]
fn a_node_running_past_its_fragment_is_refused() {
    let bytes = fragment(56, &root_then_terminator()[..20], 0x8BC215C38233BA4B);
    let mut reader = Reader::new(&bytes);
    let mut count = usize::MAX;
    let err = FileNodeListFragment::parse(&mut reader, 56, &mut count).unwrap_err();
    assert_eq!(err.kind, ErrorKind::FileNodeOverrunsFragment);
}

#[test]
fn an_unknown_node_smaller_than_its_header_stops_the_fragment() {
    let bytes = fragment(56, &header(0x3F0, 2, 0), 0x8BC215C38233BA4B);
    let mut reader = Reader::new(&bytes);
    let mut count = usize::MAX;
    let err = FileNodeListFragment::parse(&mut reader, 56, &mut count).unwrap_err();
    assert_eq!(err.kind, ErrorKind::InvalidFileNodeSize { node_type_id: 0x3F0, size: 2 });
}

#[test]
fn a_fragment_without_the_list_magic_is_refused() {
    let mut bytes = fragment(76, &root_then_terminator(), 0x8BC215C38233BA4B);
    bytes[0] ^= 1;
    let mut reader = Reader::new(&bytes);
    let mut count = usize::MAX;
    let err = FileNodeListFragment::parse(&mut reader, 76, &mut count).unwrap_err();
    assert_eq!(err.kind, ErrorKind::InvalidFileNodeListMagic);
}
