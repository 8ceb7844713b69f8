use onenote_parser::compact::CompactId;
use onenote_parser::errors::ErrorKind;
use onenote_parser::exguid::ExGuid;
use onenote_parser::exguid_map::ExGuidMap;
use onenote_parser::file_node::{
    FileNodeData, FileNodeList, ObjectDeclaration, ObjectRevision, RevisionManifestStart6FND,
};
use onenote_parser::guid::Guid;
use onenote_parser::merged_revisions::{Revision, RevisionManifestList};
use onenote_parser::onestore::{JcId, Object, ObjectPropSet, RootRole, Roots};
use onenote_parser::parse_context::ParseContext;

fn guid(v: u128) -> Guid {
    Guid::from_u128(v)
}

fn ex(v: u128, n: u32) -> ExGuid {
    ExGuid::from_guid(guid(v), n)
}

fn cid(n: u8, index: u32) -> CompactId {
    CompactId { n, guid_index: index }
}

fn start(rid: ExGuid, dependent: ExGuid) -> FileNodeData {
    FileNodeData::RevisionManifestStart6FND(RevisionManifestStart6FND {
        rid,
        rid_dependent: dependent,
        revision_role: 1,
        odcs_default: 0,
    })
}

fn declaration(oid: CompactId, jcid: u32) -> FileNodeData {
    FileNodeData::ObjectDeclaration2RefCountFND(ObjectDeclaration {
        oid,
        jcid: JcId(jcid),
        props: Some(ObjectPropSet::new_empty()),
        attachment: None,
    })
}

fn table(entries: Vec<(u32, Guid)>) -> Vec<FileNodeData> {
    let mut nodes = vec![FileNodeData::GlobalIdTableStartFNDX { reserved: 0 }];
    for (index, guid) in entries {
        nodes.push(FileNodeData::GlobalIdTableEntryFNDX { index, guid });
    }
    nodes.push(FileNodeData::GlobalIdTableEndFNDX);
    nodes
}

fn list_start(space: ExGuid) -> FileNodeData {
    FileNodeData::RevisionManifestListStartFND {
        gsoid: space,
        n_instance: 0,
    }
}

fn read_list(nodes: &FileNodeList) -> (Result<Option<()>, ErrorKind>, Roots, ExGuidMap<Object>, usize) {
    let mut roots = Roots::new();
    let mut objects = ExGuidMap::new();
    let mut iterator = nodes.iter_data();
    let r = RevisionManifestList::try_parse_into(
        &mut iterator,
        &ParseContext::new(),
        &mut roots,
        &mut objects,
    )
    .map_err(|e| e.kind);
    (r, roots, objects, iterator.get_index())
}

#[test]
fn every_revision_contributes_and_the_first_declaration_wins() {
    let space = ex(0x50, 0);
    let first = ex(0x10, 1);
    let second = ex(0x11, 1);
    let mut nodes = vec![list_start(space), start(first, ExGuid::default())];
    nodes.extend(table(vec![(0, guid(0xAA))]));
    nodes.push(declaration(cid(3, 0), 0x0006_0001));
    nodes.push(FileNodeData::ObjectInfoDependencyOverridesFND);
    nodes.push(declaration(cid(4, 0), 0x0006_0004));
    nodes.push(FileNodeData::RootObjectReference3FND {
        oid_root: ex(0xBB, 1),
        root_role: 1,
    });
    nodes.push(FileNodeData::RevisionManifestEndFND);
    nodes.push(start(second, first));
    nodes.extend(table(vec![(7, guid(0xAA))]));
    nodes.push(declaration(cid(3, 7), 0x0006_0002));
    nodes.push(declaration(cid(5, 7), 0x0006_0005));
    nodes.push(FileNodeData::RootObjectReference2FNDX {
        oid_root: cid(5, 7),
        root_role: 1,
    });
    nodes.push(FileNodeData::RootObjectReference2FNDX {
        oid_root: cid(5, 7),
        root_role: 2,
    });
    nodes.push(FileNodeData::RevisionManifestEndFND);
    nodes.push(FileNodeData::RevisionRoleDeclarationFND {
        rid: second,
        revision_role: 1,
    });
    nodes.push(FileNodeData::RevisionRoleAndContextDeclarationFND {
        rid: first,
        revision_role: 1,
        gctxid: ex(0x60, 0),
    });
    nodes.push(FileNodeData::RevisionManifestEndFND);
    let list = FileNodeList {
        file_node_sequence: nodes,
    };
    let (r, roots, objects, end) = read_list(&list);
    assert_eq!(r, Ok(Some(())));
    // The end node of the list stays unread.
    assert_eq!(end, list.file_node_sequence.len() - 1);
    assert_eq!(objects.get(&ex(0xAA, 3)).unwrap().id(), JcId(0x0006_0001));
    assert_eq!(objects.get(&ex(0xAA, 4)).unwrap().id(), JcId(0x0006_0004));
    assert_eq!(objects.get(&ex(0xAA, 5)).unwrap().id(), JcId(0x0006_0005));
    assert_eq!(objects.len(), 3);
    assert_eq!(roots.get(RootRole::DefaultContent), Some(ex(0xBB, 1)));
    assert_eq!(roots.get(RootRole::MetadataRoot), Some(ex(0xAA, 5)));
    assert_eq!(roots.get(RootRole::VersionMetadataRoot), None);
}

#[test]
fn a_context_declaration_must_name_a_revision_read_before() {
    let space = ex(0x50, 0);
    let nodes = vec![
        list_start(space),
        FileNodeData::RevisionRoleAndContextDeclarationFND {
            rid: ex(0x10, 1),
            revision_role: 1,
            gctxid: ex(0x60, 0),
        },
    ];
    let list = FileNodeList {
        file_node_sequence: nodes,
    };
    let (r, ..) = read_list(&list);
    assert_eq!(r, Err(ErrorKind::UndeclaredLabelTarget));
}

#[test]
fn a_role_declaration_needs_no_revision() {
    let space = ex(0x50, 0);
    let nodes = vec![
        list_start(space),
        FileNodeData::RevisionRoleDeclarationFND {
            rid: ex(0x10, 1),
            revision_role: 1,
        },
    ];
    let list = FileNodeList {
        file_node_sequence: nodes,
    };
    let (r, roots, objects, end) = read_list(&list);
    assert_eq!(r, Ok(Some(())));
    assert_eq!(end, 2);
    assert_eq!(roots, Roots::new());
    assert_eq!(objects.len(), 0);
}

#[test]
fn other_nodes_in_a_manifest_list_are_refused() {
    let space = ex(0x50, 0);
    let list = FileNodeList {
        file_node_sequence: vec![list_start(space), FileNodeData::ChunkTerminatorFND],
    };
    let (r, ..) = read_list(&list);
    assert_eq!(r, Err(ErrorKind::UnexpectedRevisionManifestListNode));
}

#[test]
fn a_list_is_read_only_from_its_start_node() {
    let list = FileNodeList {
        file_node_sequence: vec![start(ex(0x10, 1), ExGuid::default())],
    };
    let (r, roots, objects, end) = read_list(&list);
    assert_eq!(r, Ok(None));
    assert_eq!(end, 0);
    assert_eq!(roots, Roots::new());
    assert_eq!(objects.len(), 0);
}

#[test]
fn object_revisions_are_not_read_in_a_merged_revision() {
    let mut nodes = vec![start(ex(0x10, 1), ExGuid::default())];
    nodes.extend(table(vec![(0, guid(0xAA))]));
    nodes.push(FileNodeData::ObjectRevisionWithRefCountFNDX(ObjectRevision {
        oid: cid(3, 0),
        property_set: ObjectPropSet::new_empty(),
    }));
    let list = FileNodeList {
        file_node_sequence: nodes,
    };
    let mut roots = Roots::new();
    let mut objects = ExGuidMap::new();
    let mut iterator = list.iter_data();
    let err = Revision::try_parse_into(&mut iterator, &ParseContext::new(), &mut roots, &mut objects)
        .unwrap_err();
    assert_eq!(err.kind, ErrorKind::UnexpectedRevisionNode);
}

#[test]
fn a_table_root_needs_a_table() {
    let nodes = vec![
        start(ex(0x10, 1), ExGuid::default()),
        FileNodeData::RootObjectReference2FNDX {
            oid_root: cid(1, 0),
            root_role: 1,
        },
    ];
    let list = FileNodeList {
        file_node_sequence: nodes,
    };
    let mut roots = Roots::new();
    let mut objects = ExGuidMap::new();
    let mut iterator = list.iter_data();
    let err = Revision::try_parse_into(&mut iterator, &ParseContext::new(), &mut roots, &mut objects)
        .unwrap_err();
    assert_eq!(err.kind, ErrorKind::MissingRootIdTable);
}

#[test]
fn a_revision_returns_its_identifier_and_ends_after_its_end_node() {
    let rid = ex(0x10, 1);
    let nodes = vec![
        start(rid, ExGuid::default()),
        FileNodeData::DataSignatureGroupDefinitionFND {
            data_signature_group: ex(0x20, 0),
        },
        FileNodeData::RootObjectReference3FND {
            oid_root: ex(0xBB, 1),
            root_role: 4,
        },
        FileNodeData::RevisionManifestEndFND,
        FileNodeData::ChunkTerminatorFND,
    ];
    let list = FileNodeList {
        file_node_sequence: nodes,
    };
    let mut roots = Roots::new();
    roots.insert(RootRole::VersionMetadataRoot, ex(0xCC, 2));
    let mut objects = ExGuidMap::new();
    let mut iterator = list.iter_data();
    let r = Revision::try_parse_into(&mut iterator, &ParseContext::new(), &mut roots, &mut objects);
    assert_eq!(r.unwrap(), Some(rid));
    assert_eq!(iterator.get_index(), 4);
    // The root that was already there stays.
    assert_eq!(roots.get(RootRole::VersionMetadataRoot), Some(ex(0xCC, 2)));
}
