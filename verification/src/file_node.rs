use crate::compact::CompactId;
use crate::exguid::ExGuid;
use crate::guid::Guid;
use crate::onestore::{FileBlob, JcId, ObjectPropSet};
use vstd::prelude::*;

verus! {

/// Where the binary data of an object declared with file data lives: the
/// reference string (`<ifndf>`, `<file>` or `<invfdo>` followed by its
/// argument) and the file extension.
///
/// See [MS-ONESTORE] 2.5.27.
#[derive(Debug)]
pub struct AttachmentInfo {
    pub extension: String,
    pub data_ref: String,
}

/// The declaration of an object: its compact ID, its type, and either its
/// properties or a reference to its binary data.
///
/// See [MS-ONESTORE] 2.5.23 to 2.5.28.
#[derive(Debug)]
pub struct ObjectDeclaration {
    pub oid: CompactId,
    pub jcid: JcId,
    pub props: Option<ObjectPropSet>,
    pub attachment: Option<AttachmentInfo>,
}

impl ObjectDeclaration {
    /// The type of the declared object.
    pub fn id(&self) -> (j: JcId)
        ensures
            j == self.jcid,
    {
        self.jcid
    }

    /// The compact ID of the declared object.
    pub fn compact_id(&self) -> (c: CompactId)
        ensures
            c == self.oid,
    {
        self.oid
    }
}

/// A new revision of the properties of an already declared object.
///
/// See [MS-ONESTORE] 2.5.16 and 2.5.17.
#[derive(Debug)]
pub struct ObjectRevision {
    pub oid: CompactId,
    pub property_set: ObjectPropSet,
}

impl ObjectRevision {
    /// The compact ID of the revised object.
    pub fn oid(&self) -> (c: CompactId)
        ensures
            c == self.oid,
    {
        self.oid
    }
}

/// The start of a revision manifest in the earliest file format.
///
/// See [MS-ONESTORE] 2.5.7.
#[derive(Debug, Clone, Copy)]
pub struct RevisionManifestStart4FND {
    pub rid: ExGuid,
    pub rid_dependent: ExGuid,
    pub reserved_time_creation: u64,
    pub revision_role: u32,
    pub odcs_default: u16,
}

/// The start of a revision manifest.
///
/// See [MS-ONESTORE] 2.5.8.
#[derive(Debug, Clone, Copy)]
pub struct RevisionManifestStart6FND {
    pub rid: ExGuid,
    pub rid_dependent: ExGuid,
    pub revision_role: u32,
    pub odcs_default: u16,
}

/// The start of a revision manifest with a revision context.
///
/// See [MS-ONESTORE] 2.5.9.
#[derive(Debug, Clone, Copy)]
pub struct RevisionManifestStart7FND {
    pub base: RevisionManifestStart6FND,
    pub gctxid: ExGuid,
}

/// An entry of a global identification table that copies a range of
/// indices from the table of the dependency revision.
///
/// See [MS-ONESTORE] 2.5.12.
#[derive(Debug, Clone, Copy)]
pub struct GlobalIdTableEntry3FNDX {
    pub i_index_copy_from_start: u32,
    pub c_entries_to_copy: u32,
    pub i_index_copy_to_start: u32,
}

/// A list of file nodes.
///
/// See [MS-ONESTORE] 2.4.
#[derive(Debug)]
pub struct FileNodeList {
    pub file_node_sequence: Vec<FileNodeData>,
}

impl FileNodeList {
    /// An iterator over the nodes of the list.
    pub fn iter_data(&self) -> (it: FileNodeDataIterator<'_>)
        ensures
            it.nodes() == self.file_node_sequence@,
            it.index() == 0,
    {
        FileNodeDataIterator::new(self.file_node_sequence.as_slice())
    }
}

/// The content of a file node.
///
/// See [MS-ONESTORE] 2.4.3.
#[derive(Debug)]
pub enum FileNodeData {
    ObjectSpaceManifestRootFND { gosid_root: ExGuid },
    ObjectSpaceManifestListReferenceFND { gosid: ExGuid, last_revision: FileNodeList },
    ObjectSpaceManifestListStartFND { gsoid: ExGuid },
    RevisionManifestListReferenceFND { list: FileNodeList },
    RevisionManifestListStartFND { gsoid: ExGuid, n_instance: u32 },
    RevisionManifestStart4FND(RevisionManifestStart4FND),
    RevisionManifestEndFND,
    RevisionManifestStart6FND(RevisionManifestStart6FND),
    RevisionManifestStart7FND(RevisionManifestStart7FND),
    GlobalIdTableStartFNDX { reserved: u8 },
    GlobalIdTableStart2FND,
    GlobalIdTableEntryFNDX { index: u32, guid: Guid },
    GlobalIdTableEntry2FNDX { i_index_map_from: u32, i_index_map_to: u32 },
    GlobalIdTableEntry3FNDX(GlobalIdTableEntry3FNDX),
    GlobalIdTableEndFNDX,
    ObjectDeclarationWithRefCountFNDX(ObjectDeclaration),
    ObjectDeclarationWithRefCount2FNDX(ObjectDeclaration),
    ObjectRevisionWithRefCountFNDX(ObjectRevision),
    ObjectRevisionWithRefCount2FNDX(ObjectRevision),
    RootObjectReference2FNDX { oid_root: CompactId, root_role: u32 },
    RootObjectReference3FND { oid_root: ExGuid, root_role: u32 },
    RevisionRoleDeclarationFND { rid: ExGuid, revision_role: u32 },
    RevisionRoleAndContextDeclarationFND { rid: ExGuid, revision_role: u32, gctxid: ExGuid },
    ObjectDeclarationFileData3RefCountFND(ObjectDeclaration),
    ObjectDeclarationFileData3LargeRefCountFND(ObjectDeclaration),
    ObjectDataEncryptionKeyV2FNDX,
    ObjectInfoDependencyOverridesFND,
    DataSignatureGroupDefinitionFND { data_signature_group: ExGuid },
    FileDataStoreListReferenceFND { list: FileNodeList },
    FileDataStoreObjectReferenceFND { guid: Guid, file_data: FileBlob },
    ObjectDeclaration2RefCountFND(ObjectDeclaration),
    ObjectDeclaration2LargeRefCountFND(ObjectDeclaration),
    ObjectGroupListReferenceFND { list: FileNodeList, id: ExGuid },
    ObjectGroupStartFND { oid: ExGuid },
    ObjectGroupEndFND,
    HashedChunkDescriptor2FND,
    ReadOnlyObjectDeclaration2RefCountFND(ObjectDeclaration),
    ReadOnlyObjectDeclaration2LargeRefCountFND(ObjectDeclaration),
    ChunkTerminatorFND,
    UnknownNode,
    Null,
}

/// The declaration that `node` carries, if it declares an object.
pub open spec fn declaration_of(node: FileNodeData) -> Option<ObjectDeclaration> {
    match node {
        FileNodeData::ObjectDeclaration2RefCountFND(d) => Some(d),
        FileNodeData::ObjectDeclaration2LargeRefCountFND(d) => Some(d),
        FileNodeData::ReadOnlyObjectDeclaration2RefCountFND(d) => Some(d),
        FileNodeData::ReadOnlyObjectDeclaration2LargeRefCountFND(d) => Some(d),
        FileNodeData::ObjectDeclarationFileData3RefCountFND(d) => Some(d),
        FileNodeData::ObjectDeclarationFileData3LargeRefCountFND(d) => Some(d),
        FileNodeData::ObjectDeclarationWithRefCountFNDX(d) => Some(d),
        _ => None,
    }
}

/// The object revision that `node` carries, if it revises an object.
pub open spec fn revision_of(node: FileNodeData) -> Option<ObjectRevision> {
    match node {
        FileNodeData::ObjectRevisionWithRefCountFNDX(r) => Some(r),
        FileNodeData::ObjectRevisionWithRefCount2FNDX(r) => Some(r),
        _ => None,
    }
}

/// A cursor over a sequence of file nodes.
pub struct FileNodeDataIterator<'a> {
    nodes: &'a [FileNodeData],
    index: usize,
}

impl<'a> FileNodeDataIterator<'a> {
    /// The nodes that the cursor walks.
    pub closed spec fn nodes(&self) -> Seq<FileNodeData> {
        self.nodes@
    }

    /// The position of the cursor: the number of nodes already consumed.
    pub closed spec fn index(&self) -> int {
        self.index as int
    }

    /// The cursor lies within its nodes.
    pub open spec fn wf(&self) -> bool {
        0 <= self.index() <= self.nodes().len()
    }

    /// The node under the cursor, if any.
    pub open spec fn spec_peek(&self) -> Option<FileNodeData> {
        if self.index() < self.nodes().len() {
            Some(self.nodes()[self.index()])
        } else {
            None
        }
    }

    /// A cursor at the first of `nodes`.
    pub fn new(nodes: &'a [FileNodeData]) -> (it: FileNodeDataIterator<'a>)
        ensures
            it.wf(),
            it.nodes() == nodes@,
            it.index() == 0,
    {
        FileNodeDataIterator { nodes, index: 0 }
    }

    /// The number of nodes already consumed.
    pub fn get_index(&self) -> (i: usize)
        ensures
            i == self.index(),
    {
        self.index
    }

    /// The node under the cursor, if any, without moving.
    pub fn peek(&self) -> (r: Option<&'a FileNodeData>)
        requires
            self.wf(),
        ensures
            match r {
                Some(n) => self.spec_peek() == Some(*n),
                None => self.spec_peek() is None,
            },
            r is Some <==> self.index() < self.nodes().len(),
    {
        if self.index < self.nodes.len() {
            Some(&self.nodes[self.index])
        } else {
            None
        }
    }

    /// The node under the cursor, if any, moving past it.
    pub fn next(&mut self) -> (r: Option<&'a FileNodeData>)
        requires
            old(self).wf(),
        ensures
            final(self).wf(),
            final(self).nodes() == old(self).nodes(),
            match r {
                Some(n) => old(self).spec_peek() == Some(*n) && final(self).index() == old(self).index() + 1,
                None => old(self).spec_peek() is None && final(self).index() == old(self).index(),
            },
    {
        if self.index < self.nodes.len() {
            let n = &self.nodes[self.index];
            self.index = self.index + 1;
            Some(n)
        } else {
            None
        }
    }
}

} // verus!
