use onenote_parser::compact::CompactId;
use onenote_parser::errors::ErrorKind;
use onenote_parser::exguid::{CellId, ExGuid};
use onenote_parser::exguid_map::ExGuidMap;
use onenote_parser::file_node::{AttachmentInfo, GlobalIdTableEntry3FNDX};
use onenote_parser::global_id_table::{copy_parent_range, GlobalIdTable};
use onenote_parser::guid::Guid;
use onenote_parser::id_mapping::IdMapping;
use onenote_parser::mapping_table::MappingTable;
use onenote_parser::onestore::MappingTable as _;
use onenote_parser::onestore::{FileBlob, FileDataStatus, RootRole, Roots};
use onenote_parser::parse_context::{File, FileDataStore, ParseContext, ParseContextIdMapping};
use onenote_parser::reader::Reader;
use onenote_parser::revision::Revision;
use onenote_parser::revision_manifest_list::{
    associate_label, materialize_revision, RevisionLabels, ACTIVE_CONTENT_ROLE,
};

fn compact_id(n: u8, guid_index: u32) -> CompactId {
    let data = (guid_index << 8) | n as u32;
    CompactId::parse(&mut Reader::new(&data.to_le_bytes())).unwrap()
}

fn exguid(value: u32) -> ExGuid {
    ExGuid::from_guid(Guid::nil(), value)
}

#[test]
fn test_single_entry_fallbacks_to_only_value() {
    let cid = compact_id(1, 0x10);
    let object = exguid(10);
    let table = MappingTable::from_entries(vec![(cid, object)], Vec::<(CompactId, CellId)>::new());

    assert_eq!(table.resolve_id(0, &cid), Some(object));
    assert_eq!(table.resolve_id(3, &cid), Some(object));
}

#[test]
fn test_multiple_entries_match_by_index() {
    let cid = compact_id(2, 0x20);
    let first = exguid(1);
    let second = exguid(2);
    let table = MappingTable::from_entries(
        vec![(cid, first), (cid, second)],
        Vec::<(CompactId, CellId)>::new(),
    );

    assert_eq!(table.resolve_id(0, &cid), Some(first));
    assert_eq!(table.resolve_id(1, &cid), Some(second));
    assert_eq!(table.resolve_id(2, &cid), None);
}

#[test]
fn test_object_space_lookup() {
    let cid = compact_id(3, 0x30);
    let cell_a = CellId(exguid(10), exguid(11));
    let cell_b = CellId(exguid(20), exguid(21));
    let table = MappingTable::from_entries(
        Vec::<(CompactId, ExGuid)>::new(),
        vec![(cid, cell_a), (cid, cell_b)],
    );

    assert_eq!(table.get_object_space(0, &cid), Some(cell_a));
    assert_eq!(table.get_object_space(1, &cid), Some(cell_b));
    assert_eq!(table.get_object_space(2, &cid), None);
}

#[test]
fn mapping_table_ignores_entries_for_other_ids() {
    let cid = compact_id(1, 0x10);
    let other = compact_id(1, 0x11);
    let table = MappingTable::from_entries(
        vec![(other, exguid(5)), (cid, exguid(6))],
        Vec::<(CompactId, CellId)>::new(),
    );
    assert_eq!(table.resolve_id(0, &cid), Some(exguid(6)));
    assert_eq!(table.resolve_id(0, &compact_id(9, 9)), None);
}

#[test]
fn copies_consecutive_parent_mappings() {
    let first = Guid::from_u128(1);
    let second = Guid::from_u128(2);
    let mut parent = IdMapping::new();
    parent.add_mapping(4, first);
    parent.add_mapping(5, second);
    let mut current = IdMapping::new();

    copy_parent_range(
        &GlobalIdTableEntry3FNDX {
            i_index_copy_from_start: 4,
            c_entries_to_copy: 2,
            i_index_copy_to_start: 10,
        },
        Some(&parent),
        &mut current,
    )
    .unwrap();

    assert_eq!(current.guid_for_index(10), Some(first));
    assert_eq!(current.guid_for_index(11), Some(second));
}

#[test]
fn rejects_missing_source_mapping() {
    let parent = IdMapping::new();
    let mut current = IdMapping::new();

    let error = copy_parent_range(
        &GlobalIdTableEntry3FNDX {
            i_index_copy_from_start: 4,
            c_entries_to_copy: 1,
            i_index_copy_to_start: 10,
        },
        Some(&parent),
        &mut current,
    )
    .unwrap_err();

    assert!(error.to_string().contains("source index 4"));
}

#[test]
fn rejects_destination_outside_compact_id_index_space() {
    let parent = IdMapping::new();
    let mut current = IdMapping::new();

    let error = copy_parent_range(
        &GlobalIdTableEntry3FNDX {
            i_index_copy_from_start: 0,
            c_entries_to_copy: 2,
            i_index_copy_to_start: 0x00FF_FFFE,
        },
        Some(&parent),
        &mut current,
    )
    .unwrap_err();

    assert!(error.to_string().contains("24-bit index space"));
}

#[test]
fn copy_needs_a_dependency_table_and_fits_in_32_bits() {
    let mut current = IdMapping::new();
    let entry = GlobalIdTableEntry3FNDX {
        i_index_copy_from_start: 0,
        c_entries_to_copy: 1,
        i_index_copy_to_start: 0,
    };
    let err = copy_parent_range(&entry, None, &mut current).unwrap_err();
    assert_eq!(err.kind, ErrorKind::CopyWithoutDependencyTable);

    let parent = IdMapping::new();
    let overflowing = GlobalIdTableEntry3FNDX {
        i_index_copy_from_start: u32::MAX,
        c_entries_to_copy: 2,
        i_index_copy_to_start: 0,
    };
    let err = copy_parent_range(&overflowing, Some(&parent), &mut current).unwrap_err();
    assert_eq!(
        err.kind,
        ErrorKind::CopySourceOverflow {
            start: u32::MAX,
            count: 2
        }
    );
    assert_eq!(
        err.to_string(),
        "GlobalIdTableEntry3FNDX source range overflows: start 4294967295, count 2"
    );

    let empty = GlobalIdTableEntry3FNDX {
        i_index_copy_from_start: 7,
        c_entries_to_copy: 0,
        i_index_copy_to_start: 0x00FF_FFFF,
    };
    assert!(copy_parent_range(&empty, Some(&parent), &mut current).is_ok());
    assert_eq!(current.guid_for_index(0x00FF_FFFF), None);
}

#[test]
fn id_mapping_merge_prefers_the_merged_table() {
    let mut base = IdMapping::new();
    base.add_mapping(1, Guid::from_u128(11));
    base.add_mapping(2, Guid::from_u128(12));
    let mut other = IdMapping::new();
    other.add_mapping(2, Guid::from_u128(22));
    other.add_mapping(3, Guid::from_u128(23));
    base.merge(&other);
    assert_eq!(base.guid_for_index(1), Some(Guid::from_u128(11)));
    assert_eq!(base.guid_for_index(2), Some(Guid::from_u128(22)));
    assert_eq!(base.guid_for_index(3), Some(Guid::from_u128(23)));
    assert_eq!(base.guid_for_index(4), None);

    let resolved = base.resolve_id(&compact_id(7, 2)).unwrap();
    assert_eq!(resolved, ExGuid::from_guid(Guid::from_u128(22), 7));
    let err = base.resolve_id(&compact_id(7, 9)).unwrap_err();
    assert_eq!(err.kind, ErrorKind::UnresolvedCompactId { guid_index: 9 });
}

#[test]
fn id_mapping_copy_and_later_mapping_are_independent() {
    let mut base = IdMapping::new();
    base.add_mapping(5, Guid::from_u128(1));
    base.add_mapping(5, Guid::from_u128(2));
    let copy = base.duplicate();
    base.add_mapping(6, Guid::from_u128(3));
    assert_eq!(copy.guid_for_index(5), Some(Guid::from_u128(2)));
    assert_eq!(copy.guid_for_index(6), None);
    assert_eq!(base.guid_for_index(6), Some(Guid::from_u128(3)));
}

#[test]
fn invalid_file_reference_does_not_require_a_file_data_store() {
    let info = AttachmentInfo {
        extension: "bin".to_owned(),
        data_ref: "<invfdo>".to_owned(),
    };

    let blob = ParseContext::new()
        .find_file_data(&info)
        .expect("invalid file references should remain non-fatal");

    assert_eq!(blob.status(), FileDataStatus::Invalid);
    assert_eq!(blob.size(), 0);
}

#[test]
fn internal_file_reference_still_requires_a_file_data_store() {
    let info = AttachmentInfo {
        extension: "bin".to_owned(),
        data_ref: "<ifndf>{00000000-0000-0000-0000-000000000000}".to_owned(),
    };

    let error = ParseContext::new()
        .find_file_data(&info)
        .expect_err("internal references require the file data store");

    assert!(error
        .to_string()
        .contains("file_data reference has not been loaded"));
}

#[test]
fn internal_file_reference_is_found_in_the_store() {
    let store = FileDataStore {
        files: vec![
            File {
                id: Guid::from_u128(0x1A5A319C_C26B_41AA_B9C5_9BD8C44E07D4),
                file_data: FileBlob::from_source(b"xxdataxx".to_vec(), 2, 4),
            },
            File {
                id: Guid::from_u128(0x1A5A319C_C26B_41AA_B9C5_9BD8C44E07D4),
                file_data: FileBlob::from_source(b"second".to_vec(), 0, 6),
            },
        ],
    };
    let context = ParseContext::new().with_file_data_store(&store);
    let info = AttachmentInfo {
        extension: "png".to_owned(),
        data_ref: "<ifndf>{1A5A319C-C26B-41AA-B9C5-9BD8C44E07D4}".to_owned(),
    };
    let blob = context.find_file_data(&info).unwrap();
    assert_eq!(blob.read(), b"data".to_vec());
    assert_eq!(blob.status(), FileDataStatus::Available);

    let missing = AttachmentInfo {
        extension: "png".to_owned(),
        data_ref: "<ifndf>{00000000-0000-0000-0000-000000000001}".to_owned(),
    };
    assert_eq!(
        context.find_file_data(&missing).unwrap_err().kind,
        ErrorKind::FileNotFound
    );
    let garbage = AttachmentInfo {
        extension: "png".to_owned(),
        data_ref: "<ifndf>not a guid".to_owned(),
    };
    assert_eq!(
        context.find_file_data(&garbage).unwrap_err().kind,
        ErrorKind::InvalidUuid
    );
    let external = AttachmentInfo {
        extension: "png".to_owned(),
        data_ref: "<file>picture.png".to_owned(),
    };
    assert_eq!(
        context.find_file_data(&external).unwrap_err().kind,
        ErrorKind::ExternalFileUnsupported
    );
    let unknown = AttachmentInfo {
        extension: "png".to_owned(),
        data_ref: "picture.png".to_owned(),
    };
    assert_eq!(
        context.find_file_data(&unknown).unwrap_err().kind,
        ErrorKind::UnresolvedFileReference
    );
}

fn id(value: u128) -> ExGuid {
    ExGuid::from_guid(Guid::from_u128(value), 1)
}

fn revision(id: ExGuid, parent_id: ExGuid, roots: Vec<(RootRole, ExGuid)>) -> Revision {
    let mut r = Roots::new();
    for (role, root) in roots {
        r.insert(role, root);
    }
    Revision {
        id,
        parent_id,
        context: None,
        role: ACTIVE_CONTENT_ROLE,
        roots: r,
        objects: ExGuidMap::new(),
        id_map: IdMapping::new(),
    }
}

#[test]
fn materializes_only_the_active_dependency_chain() {
    let base_id = id(1);
    let unrelated_branch_id = id(2);
    let active_id = id(3);
    let inherited_root = id(10);
    let unrelated_root = id(11);
    let active_root = id(12);
    let mut revisions = ExGuidMap::new();
    revisions.insert(
        base_id,
        revision(
            base_id,
            ExGuid::default(),
            vec![(RootRole::MetadataRoot, inherited_root)],
        ),
    );
    revisions.insert(
        unrelated_branch_id,
        revision(
            unrelated_branch_id,
            base_id,
            vec![(RootRole::DefaultContent, unrelated_root)],
        ),
    );
    revisions.insert(
        active_id,
        revision(
            active_id,
            base_id,
            vec![(RootRole::DefaultContent, active_root)],
        ),
    );
    let mut roots = Roots::new();
    let mut objects = ExGuidMap::new();

    materialize_revision(active_id, &revisions, &mut roots, &mut objects).unwrap();

    assert_eq!(roots.get(RootRole::MetadataRoot), Some(inherited_root));
    assert_eq!(roots.get(RootRole::DefaultContent), Some(active_root));
    assert!(![
        RootRole::DefaultContent,
        RootRole::MetadataRoot,
        RootRole::VersionMetadataRoot
    ]
    .iter()
    .any(|role| roots.get(*role) == Some(unrelated_root)));
}

#[test]
fn materializing_an_undeclared_revision_fails() {
    let revisions: ExGuidMap<Revision> = ExGuidMap::new();
    let mut roots = Roots::new();
    let mut objects = ExGuidMap::new();
    let err = materialize_revision(id(5), &revisions, &mut roots, &mut objects).unwrap_err();
    assert_eq!(err.kind, ErrorKind::UndeclaredRevisionInChain);
    assert!(materialize_revision(ExGuid::default(), &revisions, &mut roots, &mut objects).is_ok());
    assert_eq!(roots.get(RootRole::DefaultContent), None);
}

#[test]
fn later_role_declaration_replaces_the_earlier_revision() {
    let first_id = id(1);
    let latest_id = id(2);
    let mut revisions = ExGuidMap::new();
    revisions.insert(first_id, revision(first_id, ExGuid::default(), vec![]));
    revisions.insert(latest_id, revision(latest_id, first_id, vec![]));
    let mut labels = RevisionLabels::new();

    associate_label(&revisions, &mut labels, first_id, None, ACTIVE_CONTENT_ROLE).unwrap();
    associate_label(&revisions, &mut labels, latest_id, None, ACTIVE_CONTENT_ROLE).unwrap();

    assert_eq!(labels.get(&(None, ACTIVE_CONTENT_ROLE)), Some(latest_id));
}

#[test]
fn role_declarations_must_name_a_read_revision() {
    let revisions: ExGuidMap<Revision> = ExGuidMap::new();
    let mut labels = RevisionLabels::new();
    let err = associate_label(&revisions, &mut labels, id(1), None, ACTIVE_CONTENT_ROLE).unwrap_err();
    assert_eq!(err.kind, ErrorKind::UndeclaredLabelTarget);
    assert_eq!(labels.get(&(None, ACTIVE_CONTENT_ROLE)), None);
}

#[test]
fn root_roles_are_numbered_one_two_and_four() {
    assert_eq!(RootRole::try_from(1).unwrap(), RootRole::DefaultContent);
    assert_eq!(RootRole::try_from(2).unwrap(), RootRole::MetadataRoot);
    assert_eq!(RootRole::try_from(4).unwrap(), RootRole::VersionMetadataRoot);
    let err = RootRole::try_from(3).unwrap_err();
    assert_eq!(err.kind, ErrorKind::InvalidRootRole { role: 3 });
    assert_eq!(err.to_string(), "invalid root role: 3");
}

#[test]
fn a_blob_describes_its_ends_and_size() {
    let bytes: Vec<u8> = (0u8..40).collect();
    let blob = FileBlob::from_source(bytes.clone(), 0, 40);
    let head: String = (0u8..32).map(|b| format!("{:02x}", b)).collect();
    let tail: String = (8u8..40).map(|b| format!("{:02x}", b)).collect();
    assert_eq!(blob.describe(), format!("FileBlob [ {} ... {}; 0 KiB ]", head, tail));

    let small = FileBlob::from_source(vec![0xAB, 0x01, 0xFF], 1, 2);
    assert_eq!(small.describe(), "FileBlob [ 01ff ... 01ff; 0 KiB ]");

    let large = FileBlob::from_source(vec![0x5A; 2100], 0, 2100);
    let fives: String = "5a".repeat(32);
    assert_eq!(large.describe(), format!("FileBlob [ {} ... {}; 2 KiB ]", fives, fives));

    assert_eq!(FileBlob::missing().describe(), "FileBlob [ Missing; 0 KiB ]");
    assert_eq!(FileBlob::invalid().describe(), "FileBlob [ Invalid; 0 KiB ]");
    assert_eq!(FileBlob::empty().describe(), "FileBlob [  ... ; 0 KiB ]");
}

#[test]
fn errors_describe_themselves() {
    let err = onenote_parser::errors::Error::new(ErrorKind::InvalidRootRole { role: 4096 });
    assert_eq!(err.to_string(), "invalid root role: 4096");
    let err = onenote_parser::errors::Error::new(ErrorKind::UnresolvedCompactId { guid_index: 0 });
    assert_eq!(err.to_string(), "unable to resolve compact ID with index 0");
    let err = onenote_parser::errors::Error::new(ErrorKind::CopySourceOverflow {
        start: 4294967295,
        count: 17,
    });
    assert_eq!(
        err.to_string(),
        "GlobalIdTableEntry3FNDX source range overflows: start 4294967295, count 17"
    );
}

#[test]
fn a_table_mapping_resolves_at_every_position() {
    let mut table = GlobalIdTable::new();
    table.id_map.add_mapping(2, Guid::from_u128(0xAB));
    let mapping = ParseContextIdMapping::new(&table);
    let cid = compact_id(7, 2);
    assert_eq!(
        mapping.resolve_id(0, &cid),
        Some(ExGuid::from_guid(Guid::from_u128(0xAB), 7))
    );
    assert_eq!(
        mapping.resolve_id(99, &cid),
        Some(ExGuid::from_guid(Guid::from_u128(0xAB), 7))
    );
    assert_eq!(
        mapping.get_object_space(3, &cid),
        Some(CellId(ExGuid::from_guid(Guid::from_u128(0xAB), 7), ExGuid::default()))
    );
    assert_eq!(mapping.resolve_id(0, &compact_id(7, 3)), None);
    assert_eq!(mapping.get_object_space(0, &compact_id(7, 3)), None);
}

#[test]
fn refused_ranges_leave_the_mapping_unchanged() {
    let mut parent = IdMapping::new();
    parent.add_mapping(0, Guid::from_u128(5));
    parent.add_mapping(1, Guid::from_u128(6));
    let mut current = IdMapping::new();
    current.add_mapping(9, Guid::from_u128(1));
    let out_of_range = GlobalIdTableEntry3FNDX {
        i_index_copy_from_start: 0,
        c_entries_to_copy: 2,
        i_index_copy_to_start: 0x00FF_FFFE,
    };
    assert!(copy_parent_range(&out_of_range, Some(&parent), &mut current).is_err());
    let overflow = GlobalIdTableEntry3FNDX {
        i_index_copy_from_start: u32::MAX,
        c_entries_to_copy: 2,
        i_index_copy_to_start: 0,
    };
    assert!(copy_parent_range(&overflow, Some(&parent), &mut current).is_err());
    assert!(copy_parent_range(&out_of_range, None, &mut current).is_err());
    assert_eq!(current.guid_for_index(9), Some(Guid::from_u128(1)));
    assert_eq!(current.guid_for_index(0), None);
    assert_eq!(current.guid_for_index(0x00FF_FFFE), None);
}
