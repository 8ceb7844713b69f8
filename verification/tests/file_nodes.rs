use onenote_parser::compact::CompactId;
use onenote_parser::errors::ErrorKind;
use onenote_parser::exguid::ExGuid;
use onenote_parser::file_node::{
    FileNodeData, FileNodeList, ObjectDeclaration, ObjectRevision, RevisionManifestStart6FND,
};
use onenote_parser::guid::Guid;
use onenote_parser::onestore::{JcId, ObjectPropSet};
use onenote_parser::parse_context::ParseContext;
use onenote_parser::root_file_node_list::RootFileNodeList;

fn guid(v: u128) -> Guid {
    Guid::from_u128(v)
}

fn ex(v: u128, n: u32) -> ExGuid {
    ExGuid::from_guid(guid(v), n)
}

fn cid(n: u8, index: u32) -> CompactId {
    CompactId { n, guid_index: index }
}

fn start(rid: ExGuid, dependent: ExGuid) -> FileNodeData {
    FileNodeData::RevisionManifestStart6FND(RevisionManifestStart6FND {
        rid,
        rid_dependent: dependent,
        revision_role: 1,
        odcs_default: 0,
    })
}

fn declaration(oid: CompactId, jcid: u32) -> FileNodeData {
    FileNodeData::ObjectDeclaration2RefCountFND(ObjectDeclaration {
        oid,
        jcid: JcId(jcid),
        props: Some(ObjectPropSet::new_empty()),
        attachment: None,
    })
}

fn table(entries: Vec<(u32, Guid)>) -> Vec<FileNodeData> {
    let mut nodes = vec![FileNodeData::GlobalIdTableStartFNDX { reserved: 0 }];
    for (index, guid) in entries {
        nodes.push(FileNodeData::GlobalIdTableEntryFNDX { index, guid });
    }
    nodes.push(FileNodeData::GlobalIdTableEndFNDX);
    nodes
}

fn root_list(space: ExGuid, manifest: Vec<FileNodeData>) -> FileNodeList {
    FileNodeList {
        file_node_sequence: vec![
            FileNodeData::ObjectSpaceManifestListReferenceFND {
                gosid: space,
                last_revision: FileNodeList {
                    file_node_sequence: manifest,
                },
            },
            FileNodeData::ObjectSpaceManifestRootFND { gosid_root: space },
        ],
    }
}

#[test]
fn a_revision_declares_objects_and_roots() {
    let space = ex(0x50, 0);
    let rev = ex(0x10, 1);
    let mut manifest = vec![
        FileNodeData::RevisionManifestListStartFND {
            gsoid: space,
            n_instance: 0,
        },
        start(rev, ExGuid::default()),
    ];
    manifest.extend(table(vec![(0, guid(0xAA))]));
    manifest.push(declaration(cid(3, 0), 0x0006_0001));
    manifest.push(FileNodeData::ObjectInfoDependencyOverridesFND);
    manifest.push(FileNodeData::RootObjectReference2FNDX {
        oid_root: cid(3, 0),
        root_role: 1,
    });
    manifest.push(FileNodeData::RootObjectReference3FND {
        oid_root: ex(0xBB, 9),
        root_role: 2,
    });
    manifest.push(FileNodeData::RevisionManifestEndFND);
    manifest.push(FileNodeData::RevisionRoleDeclarationFND {
        rid: rev,
        revision_role: 1,
    });

    let list = RootFileNodeList::parse(&root_list(space, manifest), &ParseContext::new()).unwrap();
    let space_objects = list.root_object_space();
    assert_eq!(space_objects.id, space);
    assert_eq!(space_objects.content_root(), Some(ex(0xAA, 3)));
    assert_eq!(space_objects.metadata_root(), Some(ex(0xBB, 9)));
    let object = space_objects.get_object(ex(0xAA, 3)).unwrap();
    assert_eq!(object.id(), JcId(0x0006_0001));
    assert_eq!(object.context_id, space);
    assert!(space_objects.get_object(ex(0xAA, 4)).is_none());
}

#[test]
fn an_object_revision_keeps_the_declared_type() {
    let space = ex(0x50, 0);
    let first = ex(0x10, 1);
    let second = ex(0x11, 1);
    let mut manifest = vec![
        FileNodeData::RevisionManifestListStartFND {
            gsoid: space,
            n_instance: 0,
        },
        start(first, ExGuid::default()),
    ];
    manifest.extend(table(vec![(0, guid(0xAA))]));
    manifest.push(declaration(cid(3, 0), 0x0006_0001));
    manifest.push(FileNodeData::RevisionManifestEndFND);
    manifest.push(start(second, first));
    manifest.extend(table(vec![(5, guid(0xAA))]));
    manifest.push(FileNodeData::ObjectRevisionWithRefCountFNDX(ObjectRevision {
        oid: cid(3, 5),
        property_set: ObjectPropSet::new_empty(),
    }));
    manifest.push(FileNodeData::RootObjectReference2FNDX {
        oid_root: cid(3, 5),
        root_role: 1,
    });
    manifest.push(FileNodeData::RevisionManifestEndFND);

    let list = RootFileNodeList::parse(&root_list(space, manifest), &ParseContext::new()).unwrap();
    let objects = list.root_object_space();
    assert_eq!(objects.content_root(), Some(ex(0xAA, 3)));
    assert_eq!(objects.get_object(ex(0xAA, 3)).unwrap().id(), JcId(0x0006_0001));
}

#[test]
fn a_revision_on_an_undeclared_revision_is_refused() {
    let space = ex(0x50, 0);
    let manifest = vec![
        FileNodeData::RevisionManifestListStartFND {
            gsoid: space,
            n_instance: 0,
        },
        start(ex(0x10, 1), ex(0x99, 1)),
        FileNodeData::RevisionManifestEndFND,
    ];
    let err = RootFileNodeList::parse(&root_list(space, manifest), &ParseContext::new()).unwrap_err();
    assert_eq!(err.kind, ErrorKind::UndeclaredDependency);
}

#[test]
fn a_revision_without_a_default_label_has_no_active_content() {
    let space = ex(0x50, 0);
    let manifest = vec![
        FileNodeData::RevisionManifestListStartFND {
            gsoid: space,
            n_instance: 0,
        },
        FileNodeData::RevisionManifestStart6FND(RevisionManifestStart6FND {
            rid: ex(0x10, 1),
            rid_dependent: ExGuid::default(),
            revision_role: 2,
            odcs_default: 0,
        }),
        FileNodeData::RevisionManifestEndFND,
    ];
    let err = RootFileNodeList::parse(&root_list(space, manifest), &ParseContext::new()).unwrap_err();
    assert_eq!(err.kind, ErrorKind::NoActiveRevision);
}

#[test]
fn object_groups_keep_the_first_declaration() {
    let space = ex(0x50, 0);
    let mut group = vec![FileNodeData::ObjectGroupStartFND { oid: ex(0x70, 0) }];
    group.extend(table(vec![(1, guid(0xCC))]));
    group.push(declaration(cid(1, 1), 0x0006_0002));
    group.push(FileNodeData::DataSignatureGroupDefinitionFND {
        data_signature_group: ex(0x71, 0),
    });
    group.push(declaration(cid(1, 1), 0x0006_0003));
    group.push(FileNodeData::ObjectGroupEndFND);
    let manifest = vec![
        FileNodeData::RevisionManifestListStartFND {
            gsoid: space,
            n_instance: 0,
        },
        start(ex(0x10, 1), ExGuid::default()),
        FileNodeData::ObjectGroupListReferenceFND {
            list: FileNodeList {
                file_node_sequence: group,
            },
            id: ex(0x70, 0),
        },
        FileNodeData::RootObjectReference3FND {
            oid_root: ex(0xCC, 1),
            root_role: 1,
        },
        FileNodeData::RevisionManifestEndFND,
    ];
    let list = RootFileNodeList::parse(&root_list(space, manifest), &ParseContext::new()).unwrap();
    let objects = list.root_object_space();
    assert_eq!(objects.get_object(ex(0xCC, 1)).unwrap().id(), JcId(0x0006_0002));
}

#[test]
fn a_root_list_must_name_its_root_space() {
    let list = FileNodeList {
        file_node_sequence: vec![],
    };
    let err = RootFileNodeList::parse(&list, &ParseContext::new()).unwrap_err();
    assert_eq!(err.kind, ErrorKind::MissingRootObjectSpaceId);
    let list = FileNodeList {
        file_node_sequence: vec![FileNodeData::ObjectSpaceManifestRootFND {
            gosid_root: ex(1, 1),
        }],
    };
    let err = RootFileNodeList::parse(&list, &ParseContext::new()).unwrap_err();
    assert_eq!(err.kind, ErrorKind::MissingRootObjectSpace);
    let list = FileNodeList {
        file_node_sequence: vec![FileNodeData::ChunkTerminatorFND],
    };
    let err = RootFileNodeList::parse(&list, &ParseContext::new()).unwrap_err();
    assert_eq!(err.kind, ErrorKind::UnexpectedRootNode);
}
