//! File nodes read from the bytes of a revision store file: the header
//! word, then the payload that the node's type prescribes.
use crate::compact::{compact_id_from_word, CompactId};
use crate::errors::{Error, ErrorKind, Result};
use crate::exguid::ExGuid;
use crate::file_node::{
    FileNodeData, ObjectDeclaration, GlobalIdTableEntry3FNDX, RevisionManifestStart4FND, RevisionManifestStart6FND,
    RevisionManifestStart7FND,
};
use crate::file_node_payload::{
    file_data_declaration_spec, header_from_word, list_header_spec, storage_string_spec,
    cb_width, stp_width, FileNodeChunkReference, FileNodeHeader, FileNodeListHeader,
    ObjectDeclarationFileDataRefCount, UnknownNode,
};
use crate::guid::{guid_value_from_le, Guid};
use crate::onestore::JcId;
use crate::packaging::FileChunkReference64x32;
use crate::reader::{eof, le_uint, Reader};
use vstd::prelude::*;
use vstd::slice::slice_subrange;

verus! {

/// The little-endian `u16` at position `k` of `s`.
pub open spec fn u16_at(s: Seq<u8>, k: int) -> u16 {
    le_uint(s.subrange(k, k + 2)) as u16
}

/// The little-endian `u32` at position `k` of `s`.
pub open spec fn u32_at(s: Seq<u8>, k: int) -> u32 {
    le_uint(s.subrange(k, k + 4)) as u32
}

/// The little-endian `u64` at position `k` of `s`.
pub open spec fn u64_at(s: Seq<u8>, k: int) -> u64 {
    le_uint(s.subrange(k, k + 8)) as u64
}

/// The GUID stored at position `k` of `s`.
pub open spec fn guid_at(s: Seq<u8>, k: int) -> Guid {
    Guid { value: guid_value_from_le(s.subrange(k, k + 16)) }
}

/// The extended GUID stored at position `k` of `s`: a GUID, then a
/// 32-bit value.
pub open spec fn exguid_at(s: Seq<u8>, k: int) -> ExGuid {
    ExGuid { guid: guid_at(s, k), value: u32_at(s, k + 16) }
}

/// The compact ID stored at position `k` of `s`.
pub open spec fn compact_at(s: Seq<u8>, k: int) -> CompactId {
    compact_id_from_word(u32_at(s, k))
}

fn u16_in(data: &[u8], k: usize) -> (v: u16)
    requires
        k + 2 <= data@.len() <= usize::MAX,
    ensures
        v == u16_at(data@, k as int),
{
    let mut r = Reader::new(slice_subrange(data, k, k + 2));
    proof {
        assert(data@.subrange(k as int, k + 2).take(2) =~= data@.subrange(k as int, k + 2));
    }
    match r.get_u16() {
        Ok(v) => v,
        Err(_) => {
            assert(false);
            0
        },
    }
}

fn u32_in(data: &[u8], k: usize) -> (v: u32)
    requires
        k + 4 <= data@.len() <= usize::MAX,
    ensures
        v == u32_at(data@, k as int),
{
    let mut r = Reader::new(slice_subrange(data, k, k + 4));
    proof {
        assert(data@.subrange(k as int, k + 4).take(4) =~= data@.subrange(k as int, k + 4));
    }
    match r.get_u32() {
        Ok(v) => v,
        Err(_) => {
            assert(false);
            0
        },
    }
}

fn u64_in(data: &[u8], k: usize) -> (v: u64)
    requires
        k + 8 <= data@.len() <= usize::MAX,
    ensures
        v == u64_at(data@, k as int),
{
    let mut r = Reader::new(slice_subrange(data, k, k + 8));
    proof {
        assert(data@.subrange(k as int, k + 8).take(8) =~= data@.subrange(k as int, k + 8));
    }
    match r.get_u64() {
        Ok(v) => v,
        Err(_) => {
            assert(false);
            0
        },
    }
}

fn guid_in(data: &[u8], k: usize) -> (g: Guid)
    requires
        k + 16 <= data@.len() <= usize::MAX,
    ensures
        g == guid_at(data@, k as int),
{
    let mut r = Reader::new(slice_subrange(data, k, k + 16));
    proof {
        assert(data@.subrange(k as int, k + 16).take(16) =~= data@.subrange(k as int, k + 16));
    }
    match Guid::parse(&mut r) {
        Ok(g) => g,
        Err(_) => {
            assert(false);
            Guid::nil()
        },
    }
}

fn exguid_in(data: &[u8], k: usize) -> (g: ExGuid)
    requires
        k + 20 <= data@.len() <= usize::MAX,
    ensures
        g == exguid_at(data@, k as int),
{
    ExGuid { guid: guid_in(data, k), value: u32_in(data, k + 16) }
}

fn compact_in(data: &[u8], k: usize) -> (c: CompactId)
    requires
        k + 4 <= data@.len() <= usize::MAX,
    ensures
        c == compact_at(data@, k as int),
{
    let w = u32_in(data, k);
    CompactId { n: (w & 0xff) as u8, guid_index: w >> 8 }
}

/// The length of the payload of a node of type `id` whose payload has a
/// fixed layout, if it has one.
///
/// See [MS-ONESTORE] 2.4.3 and 2.5.
pub open spec fn fixed_payload_len(id: u32) -> Option<nat> {
    if id == 0x004 || id == 0x00C || id == 0x024 || id == 0x08C || id == 0x0B4 {
        Some(20)
    } else if id == 0x014 || id == 0x05A || id == 0x05C {
        Some(24)
    } else if id == 0x01B {
        Some(54)
    } else if id == 0x01E {
        Some(46)
    } else if id == 0x01F {
        Some(66)
    } else if id == 0x021 {
        Some(1)
    } else if id == 0x025 || id == 0x059 {
        Some(8)
    } else if id == 0x026 {
        Some(12)
    } else if id == 0x05D {
        Some(44)
    } else if id == 0x000 || id == 0x01C || id == 0x022 || id == 0x028 || id == 0x07C || id
        == 0x0B8 || id == 0x0FF {
        Some(0)
    } else {
        None
    }
}

/// The length of the payload of a node of type `id` whose payload has a
/// fixed layout, if it has one.
fn fixed_len(id: u32) -> (n: Option<usize>)
    ensures
        match fixed_payload_len(id) {
            Some(l) => n == Some(l as usize),
            None => n is None,
        },
{
    if id == 0x004 || id == 0x00C || id == 0x024 || id == 0x08C || id == 0x0B4 {
        Some(20)
    } else if id == 0x014 || id == 0x05A || id == 0x05C {
        Some(24)
    } else if id == 0x01B {
        Some(54)
    } else if id == 0x01E {
        Some(46)
    } else if id == 0x01F {
        Some(66)
    } else if id == 0x021 {
        Some(1)
    } else if id == 0x025 || id == 0x059 {
        Some(8)
    } else if id == 0x026 {
        Some(12)
    } else if id == 0x05D {
        Some(44)
    } else if id == 0x000 || id == 0x01C || id == 0x022 || id == 0x028 || id == 0x07C || id
        == 0x0B8 || id == 0x0FF {
        Some(0)
    } else {
        None
    }
}

/// The start of a revision manifest of [MS-ONESTORE] 2.5.8 stored at the
/// front of `p`.
pub open spec fn start6_at(p: Seq<u8>) -> RevisionManifestStart6FND {
    RevisionManifestStart6FND {
        rid: exguid_at(p, 0),
        rid_dependent: exguid_at(p, 20),
        revision_role: u32_at(p, 40),
        odcs_default: u16_at(p, 44),
    }
}

/// The node of type `id`, with a fixed layout, whose payload is `p`.
///
/// See [MS-ONESTORE] 2.5.
pub open spec fn fixed_node(id: u32, p: Seq<u8>) -> FileNodeData {
    if id == 0x004 {
        FileNodeData::ObjectSpaceManifestRootFND { gosid_root: exguid_at(p, 0) }
    } else if id == 0x00C {
        FileNodeData::ObjectSpaceManifestListStartFND { gsoid: exguid_at(p, 0) }
    } else if id == 0x014 {
        FileNodeData::RevisionManifestListStartFND { gsoid: exguid_at(p, 0), n_instance: u32_at(p, 20) }
    } else if id == 0x01B {
        FileNodeData::RevisionManifestStart4FND(
            RevisionManifestStart4FND {
                rid: exguid_at(p, 0),
                rid_dependent: exguid_at(p, 20),
                reserved_time_creation: u64_at(p, 40),
                revision_role: u32_at(p, 48),
                odcs_default: u16_at(p, 52),
            },
        )
    } else if id == 0x01C {
        FileNodeData::RevisionManifestEndFND
    } else if id == 0x01E {
        FileNodeData::RevisionManifestStart6FND(start6_at(p))
    } else if id == 0x01F {
        FileNodeData::RevisionManifestStart7FND(
            RevisionManifestStart7FND { base: start6_at(p), gctxid: exguid_at(p, 46) },
        )
    } else if id == 0x021 {
        FileNodeData::GlobalIdTableStartFNDX { reserved: p[0] }
    } else if id == 0x022 {
        FileNodeData::GlobalIdTableStart2FND
    } else if id == 0x024 {
        FileNodeData::GlobalIdTableEntryFNDX { index: u32_at(p, 0), guid: guid_at(p, 4) }
    } else if id == 0x025 {
        FileNodeData::GlobalIdTableEntry2FNDX { i_index_map_from: u32_at(p, 0), i_index_map_to: u32_at(p, 4) }
    } else if id == 0x026 {
        FileNodeData::GlobalIdTableEntry3FNDX(
            GlobalIdTableEntry3FNDX {
                i_index_copy_from_start: u32_at(p, 0),
                c_entries_to_copy: u32_at(p, 4),
                i_index_copy_to_start: u32_at(p, 8),
            },
        )
    } else if id == 0x028 {
        FileNodeData::GlobalIdTableEndFNDX
    } else if id == 0x059 {
        FileNodeData::RootObjectReference2FNDX { oid_root: compact_at(p, 0), root_role: u32_at(p, 4) }
    } else if id == 0x05A {
        FileNodeData::RootObjectReference3FND { oid_root: exguid_at(p, 0), root_role: u32_at(p, 20) }
    } else if id == 0x05C {
        FileNodeData::RevisionRoleDeclarationFND { rid: exguid_at(p, 0), revision_role: u32_at(p, 20) }
    } else if id == 0x05D {
        FileNodeData::RevisionRoleAndContextDeclarationFND {
            rid: exguid_at(p, 0),
            revision_role: u32_at(p, 20),
            gctxid: exguid_at(p, 24),
        }
    } else if id == 0x07C {
        FileNodeData::ObjectDataEncryptionKeyV2FNDX
    } else if id == 0x08C {
        FileNodeData::DataSignatureGroupDefinitionFND { data_signature_group: exguid_at(p, 0) }
    } else if id == 0x0B4 {
        FileNodeData::ObjectGroupStartFND { oid: exguid_at(p, 0) }
    } else if id == 0x0B8 {
        FileNodeData::ObjectGroupEndFND
    } else if id == 0x0FF {
        FileNodeData::ChunkTerminatorFND
    } else {
        FileNodeData::Null
    }
}

fn start6_in(p: &[u8]) -> (s: RevisionManifestStart6FND)
    requires
        46 <= p@.len() <= 66,
    ensures
        s == start6_at(p@),
{
    RevisionManifestStart6FND {
        rid: exguid_in(p, 0),
        rid_dependent: exguid_in(p, 20),
        revision_role: u32_in(p, 40),
        odcs_default: u16_in(p, 44),
    }
}

/// The node of type `id`, with a fixed layout, whose payload is `p`.
fn fixed_node_in(id: u32, p: &[u8]) -> (n: FileNodeData)
    requires
        fixed_payload_len(id) == Some(p@.len()),
    ensures
        n == fixed_node(id, p@),
{
    if id == 0x004 {
        FileNodeData::ObjectSpaceManifestRootFND { gosid_root: exguid_in(p, 0) }
    } else if id == 0x00C {
        FileNodeData::ObjectSpaceManifestListStartFND { gsoid: exguid_in(p, 0) }
    } else if id == 0x014 {
        FileNodeData::RevisionManifestListStartFND { gsoid: exguid_in(p, 0), n_instance: u32_in(p, 20) }
    } else if id == 0x01B {
        FileNodeData::RevisionManifestStart4FND(
            RevisionManifestStart4FND {
                rid: exguid_in(p, 0),
                rid_dependent: exguid_in(p, 20),
                reserved_time_creation: u64_in(p, 40),
                revision_role: u32_in(p, 48),
                odcs_default: u16_in(p, 52),
            },
        )
    } else if id == 0x01C {
        FileNodeData::RevisionManifestEndFND
    } else if id == 0x01E {
        FileNodeData::RevisionManifestStart6FND(start6_in(p))
    } else if id == 0x01F {
        FileNodeData::RevisionManifestStart7FND(
            RevisionManifestStart7FND { base: start6_in(p), gctxid: exguid_in(p, 46) },
        )
    } else if id == 0x021 {
        FileNodeData::GlobalIdTableStartFNDX { reserved: p[0] }
    } else if id == 0x022 {
        FileNodeData::GlobalIdTableStart2FND
    } else if id == 0x024 {
        FileNodeData::GlobalIdTableEntryFNDX { index: u32_in(p, 0), guid: guid_in(p, 4) }
    } else if id == 0x025 {
        FileNodeData::GlobalIdTableEntry2FNDX { i_index_map_from: u32_in(p, 0), i_index_map_to: u32_in(p, 4) }
    } else if id == 0x026 {
        FileNodeData::GlobalIdTableEntry3FNDX(
            GlobalIdTableEntry3FNDX {
                i_index_copy_from_start: u32_in(p, 0),
                c_entries_to_copy: u32_in(p, 4),
                i_index_copy_to_start: u32_in(p, 8),
            },
        )
    } else if id == 0x028 {
        FileNodeData::GlobalIdTableEndFNDX
    } else if id == 0x059 {
        FileNodeData::RootObjectReference2FNDX { oid_root: compact_in(p, 0), root_role: u32_in(p, 4) }
    } else if id == 0x05A {
        FileNodeData::RootObjectReference3FND { oid_root: exguid_in(p, 0), root_role: u32_in(p, 20) }
    } else if id == 0x05C {
        FileNodeData::RevisionRoleDeclarationFND { rid: exguid_in(p, 0), revision_role: u32_in(p, 20) }
    } else if id == 0x05D {
        FileNodeData::RevisionRoleAndContextDeclarationFND {
            rid: exguid_in(p, 0),
            revision_role: u32_in(p, 20),
            gctxid: exguid_in(p, 24),
        }
    } else if id == 0x07C {
        FileNodeData::ObjectDataEncryptionKeyV2FNDX
    } else if id == 0x08C {
        FileNodeData::DataSignatureGroupDefinitionFND { data_signature_group: exguid_in(p, 0) }
    } else if id == 0x0B4 {
        FileNodeData::ObjectGroupStartFND { oid: exguid_in(p, 0) }
    } else if id == 0x0B8 {
        FileNodeData::ObjectGroupEndFND
    } else if id == 0x0FF {
        FileNodeData::ChunkTerminatorFND
    } else {
        FileNodeData::Null
    }
}

/// Whether a node of type `id` carries its data in a chunk of the file
/// that it refers to, rather than in its own bytes.
///
/// See [MS-ONESTORE] 2.5.
pub open spec fn refers_to_data(id: u32) -> bool {
    id == 0x008 || id == 0x010 || id == 0x02D || id == 0x02E || id == 0x041 || id == 0x042 || id
        == 0x084 || id == 0x090 || id == 0x094 || id == 0x0A4 || id == 0x0A5 || id == 0x0B0 || id
        == 0x0C2 || id == 0x0C4 || id == 0x0C5
}

fn is_data_reference_node(id: u32) -> (b: bool)
    ensures
        b == refers_to_data(id),
{
    id == 0x008 || id == 0x010 || id == 0x02D || id == 0x02E || id == 0x041 || id == 0x042 || id
        == 0x084 || id == 0x090 || id == 0x094 || id == 0x0A4 || id == 0x0A5 || id == 0x0B0 || id
        == 0x0C2 || id == 0x0C4 || id == 0x0C5
}

/// Whether the node with header `h` needs data from elsewhere in the
/// file to be read: it refers to a list of nodes, or its type is one that
/// carries its data in a chunk that it refers to.
pub open spec fn needs_referenced_data(h: FileNodeHeader) -> bool {
    h.base_type == 2 || refers_to_data(h.node_type_id)
}

/// The number of bytes that the chunk reference after the header word of
/// a node with header `h` takes: a node that refers to one chunk or to a
/// list of nodes has one, in the formats its header gives.
pub open spec fn reference_width(h: FileNodeHeader) -> nat {
    if h.base_type == 1 || h.base_type == 2 {
        stp_width(h.stp_format) + cb_width(h.cb_format)
    } else {
        0
    }
}

/// Where the payload of a node with header `h` starts.
pub open spec fn payload_start(h: FileNodeHeader) -> int {
    4 + reference_width(h) as int
}

/// Whether a node's type is one that declares an object with file data.
pub open spec fn declares_file_data(id: u32) -> bool {
    id == 0x072 || id == 0x073
}

/// Whether the node with header `h` is of a type that is not known.
pub open spec fn is_unknown_node(h: FileNodeHeader) -> bool {
    !needs_referenced_data(h) && fixed_payload_len(h.node_type_id) is None && !declares_file_data(
        h.node_type_id,
    )
}

/// The header of the node at the front of `s`.
pub open spec fn node_header_at(s: Seq<u8>) -> FileNodeHeader {
    header_from_word(u32_at(s, 0))
}

/// Whether the node at the front of `s` is of an unknown type whose
/// declared size is smaller than its header word and chunk reference, so
/// that its payload size cannot be computed.
pub open spec fn unknown_node_too_small(s: Seq<u8>) -> bool {
    &&& s.len() >= 4
    &&& s.len() >= payload_start(node_header_at(s))
    &&& is_unknown_node(node_header_at(s))
    &&& node_header_at(s).size < payload_start(node_header_at(s))
}

/// A node with header `h` that took `k` bytes, checked against the size
/// that it declares; a node of type 0 may declare any size.
pub open spec fn size_checked(h: FileNodeHeader, k: int) -> Result<(FileNodeHeader, int)> {
    if k != h.size && h.node_type_id != 0 {
        Err(
            Error {
                kind: ErrorKind::FileNodeSizeMismatch {
                    node_type_id: h.node_type_id,
                    declared: h.size,
                    actual: k as usize,
                },
            },
        )
    } else {
        Ok((h, k))
    }
}

/// The header of the file node at the front of `s` and the number of
/// bytes the node takes, or the error that reading it gives.
///
/// The header word comes first, then the chunk reference of a node that
/// has one (see [`reference_width`]). A node of a known type then takes
/// the payload of its type; a node of an unknown type takes the size it
/// declares. A node that needs data from elsewhere in the file (see
/// [`needs_referenced_data`]) is refused once its reference is read.
pub open spec fn file_node_spec(s: Seq<u8>) -> Result<(FileNodeHeader, int)> {
    if s.len() < 4 {
        eof()
    } else {
        let h = node_header_at(s);
        let id = h.node_type_id;
        let p = payload_start(h);
        if s.len() < p {
            eof()
        } else if needs_referenced_data(h) {
            Err(Error { kind: ErrorKind::UnresolvedNodeData { node_type_id: id } })
        } else {
            match fixed_payload_len(id) {
                Some(l) => if s.len() < p + l {
                    eof()
                } else {
                    size_checked(h, p + l)
                },
                None => if declares_file_data(id) {
                    match file_data_declaration_spec(s.skip(p), id == 0x073) {
                        Err(e) => Err(e),
                        Ok((_, _, _, _, _, n)) => size_checked(h, p + n),
                    }
                } else if s.len() < h.size {
                    eof()
                } else {
                    size_checked(h, h.size as int)
                },
            }
        }
    }
}

/// Whether `d` is the declaration of an object with file data that a
/// node holds: the given compact ID and type, no properties, and the file
/// reference with its extension as attachment.
pub open spec fn declares_file(
    d: ObjectDeclaration,
    oid: CompactId,
    jcid: JcId,
    data_ref: Seq<char>,
    ext: Seq<char>,
) -> bool {
    &&& d.oid == oid
    &&& d.jcid == jcid
    &&& d.props is None
    &&& d.attachment matches Some(a) && a.data_ref@ == data_ref && a.extension@ == ext
}

/// Whether `fnd` is the content of the node with header `h` at the front
/// of `s`.
pub open spec fn node_content(h: FileNodeHeader, s: Seq<u8>, fnd: FileNodeData) -> bool {
    let id = h.node_type_id;
    let p = payload_start(h);
    match fixed_payload_len(id) {
        Some(l) => fnd == fixed_node(id, s.subrange(p, p + l as int)),
        None => if declares_file_data(id) {
            match file_data_declaration_spec(s.skip(p), id == 0x073) {
                Ok((oid, jcid, _, data_ref, ext, _)) => if id == 0x073 {
                    fnd matches FileNodeData::ObjectDeclarationFileData3LargeRefCountFND(d)
                        && declares_file(d, oid, jcid, data_ref, ext)
                } else {
                    fnd matches FileNodeData::ObjectDeclarationFileData3RefCountFND(d)
                        && declares_file(d, oid, jcid, data_ref, ext)
                },
                Err(_) => false,
            }
        } else {
            fnd is UnknownNode
        },
    }
}

/// A file node: the fields of its header, the number of bytes it took,
/// and its content.
///
/// See [MS-ONESTORE] 2.4.3.
#[derive(Debug)]
pub struct FileNode {
    pub node_type_id: u32,
    pub stp_format: u32,
    pub cb_format: u32,
    pub base_type: u32,
    pub size: usize,
    pub fnd: FileNodeData,
}

impl FileNode {
    /// Whether this node has the header `h`, took `k` bytes, and holds the
    /// content of the node at the front of `s`.
    pub open spec fn read_from(&self, s: Seq<u8>, h: FileNodeHeader, k: int) -> bool {
        &&& self.node_type_id == h.node_type_id
        &&& self.stp_format == h.stp_format
        &&& self.cb_format == h.cb_format
        &&& self.base_type == h.base_type
        &&& self.size == k
        &&& node_content(h, s, self.fnd)
    }

    /// Reads one file node: its header word, then the payload that its
    /// type prescribes, and checks the bytes taken against the size that
    /// the node declares.
    pub fn parse(reader: &mut Reader) -> (r: Result<FileNode>)
        requires
            old(reader).wf(),
            !unknown_node_too_small(old(reader).rest()),
        ensures
            match file_node_spec(old(reader).rest()) {
                Ok((h, k)) => r matches Ok(n) && n.read_from(old(reader).rest(), h, k)
                    && final(reader).advanced_from(*old(reader), k),
                Err(e) => r == Err::<FileNode, Error>(e),
            },
    {
        let ghost r0 = *reader;
        let h = FileNodeHeader::parse(reader)?;
        proof {
            assert(r0.rest().take(4) =~= r0.rest().subrange(0, 4));
            let w = le_uint(r0.rest().take(4)) as u32;
            assert((w >> 23u32) & 0x3 < 4) by (bit_vector);
            assert((w >> 25u32) & 0x3 < 4) by (bit_vector);
        }
        let id = h.node_type_id;
        let mut start: usize = 4;
        if h.base_type == 1 || h.base_type == 2 {
            let ghost ra = *reader;
            let before = reader.absolute_offset();
            let _reference = FileNodeChunkReference::parse(reader, h.stp_format, h.cb_format)?;
            let n = reader.absolute_offset() - before;
            proof {
                Reader::lemma_advanced_trans(r0, ra, *reader, 4, n as int);
            }
            start = 4 + n;
        }
        if h.base_type == 2 || is_data_reference_node(id) {
            return Err(Error::new(ErrorKind::UnresolvedNodeData { node_type_id: id }));
        }
        let ghost r1 = *reader;
        assert(start == payload_start(h));
        let fnd: FileNodeData;
        let consumed: usize;
        match fixed_len(id) {
            Some(l) => {
                let p = reader.read(l)?;
                proof {
                    assert(r1.rest().take(l as int) =~= r0.rest().subrange(start as int, start + l));
                    Reader::lemma_advanced_trans(r0, r1, *reader, start as int, l as int);
                }
                fnd = fixed_node_in(id, p);
                consumed = start + l;
            },
            None => {
                if id == 0x072 || id == 0x073 {
                    let before = reader.absolute_offset();
                    let d = ObjectDeclarationFileDataRefCount::parse(reader, id == 0x073)?;
                    let n = reader.absolute_offset() - before;
                    proof {
                        Reader::lemma_advanced_trans(r0, r1, *reader, start as int, n as int);
                    }
                    let decl = d.into_declaration();
                    if id == 0x073 {
                        fnd = FileNodeData::ObjectDeclarationFileData3LargeRefCountFND(decl);
                    } else {
                        fnd = FileNodeData::ObjectDeclarationFileData3RefCountFND(decl);
                    }
                    consumed = start + n;
                } else {
                    let size = h.size as usize;
                    UnknownNode::parse(reader, size - start)?;
                    proof {
                        Reader::lemma_advanced_trans(r0, r1, *reader, start as int, size - start);
                    }
                    fnd = FileNodeData::UnknownNode;
                    consumed = size;
                }
            },
        }
        if consumed != h.size as usize && id != 0 {
            return Err(
                Error::new(
                    ErrorKind::FileNodeSizeMismatch {
                        node_type_id: id,
                        declared: h.size,
                        actual: consumed,
                    },
                ),
            );
        }
        Ok(
            FileNode {
                node_type_id: id,
                stp_format: h.stp_format,
                cb_format: h.cb_format,
                base_type: h.base_type,
                size: consumed,
                fnd,
            },
        )
    }
}

proof fn lemma_fields_within(s: Seq<u8>, q: int, len: int)
    requires
        0 <= q,
        0 <= len,
        q + len <= s.len(),
    ensures
        forall|o: int|
            0 <= o && o + 2 <= len ==> #[trigger] u16_at(s.subrange(q, q + len), o) == u16_at(s, q + o),
        forall|o: int|
            0 <= o && o + 4 <= len ==> #[trigger] u32_at(s.subrange(q, q + len), o) == u32_at(s, q + o),
        forall|o: int|
            0 <= o && o + 8 <= len ==> #[trigger] u64_at(s.subrange(q, q + len), o) == u64_at(s, q + o),
        forall|o: int|
            0 <= o && o + 16 <= len ==> #[trigger] guid_at(s.subrange(q, q + len), o) == guid_at(s, q + o),
        forall|o: int|
            0 <= o && o + 20 <= len ==> #[trigger] exguid_at(s.subrange(q, q + len), o) == exguid_at(
                s,
                q + o,
            ),
        forall|o: int|
            0 <= o && o + 4 <= len ==> #[trigger] compact_at(s.subrange(q, q + len), o) == compact_at(
                s,
                q + o,
            ),
{
    let sub = s.subrange(q, q + len);
    assert forall|o: int| 0 <= o && o + 2 <= len implies #[trigger] u16_at(sub, o) == u16_at(s, q + o) by {
        assert(sub.subrange(o, o + 2) =~= s.subrange(q + o, q + o + 2));
    }
    assert forall|o: int| 0 <= o && o + 4 <= len implies #[trigger] u32_at(sub, o) == u32_at(s, q + o) by {
        assert(sub.subrange(o, o + 4) =~= s.subrange(q + o, q + o + 4));
    }
    assert forall|o: int| 0 <= o && o + 8 <= len implies #[trigger] u64_at(sub, o) == u64_at(s, q + o) by {
        assert(sub.subrange(o, o + 8) =~= s.subrange(q + o, q + o + 8));
    }
    assert forall|o: int| 0 <= o && o + 16 <= len implies #[trigger] guid_at(sub, o) == guid_at(s, q + o) by {
        assert(sub.subrange(o, o + 16) =~= s.subrange(q + o, q + o + 16));
    }
    assert forall|o: int| 0 <= o && o + 20 <= len implies #[trigger] exguid_at(sub, o) == exguid_at(
        s,
        q + o,
    ) by {
        assert(sub.subrange(o, o + 16) =~= s.subrange(q + o, q + o + 16));
        assert(sub.subrange(o + 16, o + 20) =~= s.subrange(q + o + 16, q + o + 20));
    }
    assert forall|o: int| 0 <= o && o + 4 <= len implies #[trigger] compact_at(sub, o) == compact_at(
        s,
        q + o,
    ) by {
        assert(sub.subrange(o, o + 4) =~= s.subrange(q + o, q + o + 4));
    }
}

/// The fields of the nodes with a fixed layout sit where [MS-ONESTORE] 2.5
/// puts them in the node's payload, which starts at `q`: a revision
/// manifest start holds its revision ID at offset 0 and the ID of the
/// revision it depends on at offset 20, a global ID table entry its index
/// before its GUID, a copy entry its source, count and destination in that
/// order, and so on for every type.
pub proof fn law_fixed_node_field_layout(s: Seq<u8>, h: FileNodeHeader, k: int, n: FileNode)
    requires
        file_node_spec(s) == Ok::<(FileNodeHeader, int), Error>((h, k)),
        n.read_from(s, h, k),
    ensures
        ({
            let q = payload_start(h);
            let id = h.node_type_id;
            &&& id == 0x004 ==> n.fnd == (FileNodeData::ObjectSpaceManifestRootFND { gosid_root: exguid_at(s, q) })
            &&& id == 0x00C ==> n.fnd == (FileNodeData::ObjectSpaceManifestListStartFND { gsoid: exguid_at(s, q) })
            &&& id == 0x014 ==> n.fnd == (FileNodeData::RevisionManifestListStartFND {
                gsoid: exguid_at(s, q),
                n_instance: u32_at(s, q + 20),
            })
            &&& id == 0x01B ==> n.fnd == FileNodeData::RevisionManifestStart4FND(
                RevisionManifestStart4FND {
                    rid: exguid_at(s, q),
                    rid_dependent: exguid_at(s, q + 20),
                    reserved_time_creation: u64_at(s, q + 40),
                    revision_role: u32_at(s, q + 48),
                    odcs_default: u16_at(s, q + 52),
                },
            )
            &&& id == 0x01E ==> n.fnd == FileNodeData::RevisionManifestStart6FND(
                RevisionManifestStart6FND {
                    rid: exguid_at(s, q),
                    rid_dependent: exguid_at(s, q + 20),
                    revision_role: u32_at(s, q + 40),
                    odcs_default: u16_at(s, q + 44),
                },
            )
            &&& id == 0x01F ==> n.fnd == FileNodeData::RevisionManifestStart7FND(
                RevisionManifestStart7FND {
                    base: RevisionManifestStart6FND {
                        rid: exguid_at(s, q),
                        rid_dependent: exguid_at(s, q + 20),
                        revision_role: u32_at(s, q + 40),
                        odcs_default: u16_at(s, q + 44),
                    },
                    gctxid: exguid_at(s, q + 46),
                },
            )
            &&& id == 0x021 ==> n.fnd == (FileNodeData::GlobalIdTableStartFNDX { reserved: s[q] })
            &&& id == 0x024 ==> n.fnd == (FileNodeData::GlobalIdTableEntryFNDX {
                index: u32_at(s, q),
                guid: guid_at(s, q + 4),
            })
            &&& id == 0x025 ==> n.fnd == (FileNodeData::GlobalIdTableEntry2FNDX {
                i_index_map_from: u32_at(s, q),
                i_index_map_to: u32_at(s, q + 4),
            })
            &&& id == 0x026 ==> n.fnd == FileNodeData::GlobalIdTableEntry3FNDX(
                GlobalIdTableEntry3FNDX {
                    i_index_copy_from_start: u32_at(s, q),
                    c_entries_to_copy: u32_at(s, q + 4),
                    i_index_copy_to_start: u32_at(s, q + 8),
                },
            )
            &&& id == 0x059 ==> n.fnd == (FileNodeData::RootObjectReference2FNDX {
                oid_root: compact_at(s, q),
                root_role: u32_at(s, q + 4),
            })
            &&& id == 0x05A ==> n.fnd == (FileNodeData::RootObjectReference3FND {
                oid_root: exguid_at(s, q),
                root_role: u32_at(s, q + 20),
            })
            &&& id == 0x05C ==> n.fnd == (FileNodeData::RevisionRoleDeclarationFND {
                rid: exguid_at(s, q),
                revision_role: u32_at(s, q + 20),
            })
            &&& id == 0x05D ==> n.fnd == (FileNodeData::RevisionRoleAndContextDeclarationFND {
                rid: exguid_at(s, q),
                revision_role: u32_at(s, q + 20),
                gctxid: exguid_at(s, q + 24),
            })
            &&& id == 0x08C ==> n.fnd == (FileNodeData::DataSignatureGroupDefinitionFND {
                data_signature_group: exguid_at(s, q),
            })
            &&& id == 0x0B4 ==> n.fnd == (FileNodeData::ObjectGroupStartFND { oid: exguid_at(s, q) })
        }),
{
    let q = payload_start(h);
    let id = h.node_type_id;
    match fixed_payload_len(id) {
        Some(l) => {
            lemma_fields_within(s, q, l as int);
            if id == 0x021 {
                assert(s.subrange(q, q + l as int)[0] == s[q]);
            }
        },
        None => {},
    }
}

/// A node that is read takes exactly the number of bytes its header
/// declares, save a node of type 0, whose declared size may be anything;
/// and (where it can be read at all) it takes at least its header word
/// and chunk reference, and no more bytes than there are.
pub proof fn law_node_takes_its_declared_size(s: Seq<u8>)
    ensures
        file_node_spec(s) matches Ok((h, k)) ==> (k == h.size || h.node_type_id == 0) && k
            <= s.len() && (!unknown_node_too_small(s) ==> k >= payload_start(h)),
{
    if s.len() >= 4 {
        let h = node_header_at(s);
        let q = payload_start(h);
        if s.len() >= q && !needs_referenced_data(h) && fixed_payload_len(h.node_type_id) is None
            && declares_file_data(h.node_type_id) {
            lemma_file_declaration_takes_its_head(s.skip(q), h.node_type_id == 0x073);
            lemma_file_declaration_in_bounds(s.skip(q), h.node_type_id == 0x073);
        }
    }
}

proof fn lemma_file_declaration_in_bounds(t: Seq<u8>, large: bool)
    ensures
        file_data_declaration_spec(t, large) matches Ok((_, _, _, _, _, n)) ==> n <= t.len(),
{
    let head: int = if large {
        12
    } else {
        9
    };
    if t.len() >= head {
        match storage_string_spec(t.skip(head)) {
            Ok((_, _, n1)) => {
                match storage_string_spec(t.skip(head + n1)) {
                    Ok((_, _, n2)) => {},
                    Err(_) => {},
                }
            },
            Err(_) => {},
        }
    }
}

/// The value that ends every file node list fragment.
pub const FILE_NODE_LIST_FOOTER: u64 = 0x8BC215C38233BA4Bu64;

/// Every file node takes at least its header word.
pub proof fn lemma_node_takes_its_header(s: Seq<u8>)
    ensures
        !unknown_node_too_small(s) ==> (file_node_spec(s) matches Ok((_, k)) ==> k >= 4),
{
    if s.len() >= 4 {
        let h = node_header_at(s);
        let id = h.node_type_id;
        if !needs_referenced_data(h) && fixed_payload_len(id) is None && declares_file_data(id) {
            lemma_file_declaration_takes_its_head(s.skip(payload_start(h)), id == 0x073);
        }
    }
}

proof fn lemma_file_declaration_takes_its_head(t: Seq<u8>, large: bool)
    ensures
        file_data_declaration_spec(t, large) matches Ok((_, _, _, _, _, n)) ==> n >= 9,
{
    let head: int = if large {
        12
    } else {
        9
    };
    if t.len() >= head {
        match storage_string_spec(t.skip(head)) {
            Ok((_, _, n1)) => {
                assert(n1 >= 4);
                match storage_string_spec(t.skip(head + n1)) {
                    Ok((_, _, n2)) => {
                        assert(n2 >= 4);
                    },
                    Err(_) => {},
                }
            },
            Err(_) => {},
        }
    }
}

/// The entries of `front` put before the nodes of the outcome `r`.
pub open spec fn after_nodes(
    front: Seq<(int, FileNodeHeader, int)>,
    r: Result<(Seq<(int, FileNodeHeader, int)>, int, int)>,
) -> Result<(Seq<(int, FileNodeHeader, int)>, int, int)> {
    match r {
        Ok((rest, end, c)) => Ok((front + rest, end, c)),
        Err(e) => Err(e),
    }
}

/// Whether a node of type `id` counts towards the number of nodes that a
/// fragment is known to hold: chunk terminators and null nodes do not.
pub open spec fn counts_toward_limit(id: u32) -> bool {
    id != 0x0FF && id != 0
}

/// The nodes of a fragment read from position `pos` of `s`, with `room`
/// bytes left for them and at most `count` more nodes that count towards
/// the limit: for each node kept, where it starts, its header and the
/// bytes it takes; then where the nodes end and how many more may follow.
///
/// Reading stops when fewer than 4 bytes of room are left or the limit is
/// reached. Null nodes are read and dropped. A node of an unknown type
/// whose declared size is under 4, and a node that runs past the room
/// left, are refused.
pub open spec fn fragment_nodes(s: Seq<u8>, pos: int, room: int, count: int) -> Result<
    (Seq<(int, FileNodeHeader, int)>, int, int),
>
    decreases room,
{
    if room < 4 || count <= 0 {
        Ok((seq![], pos, count))
    } else if unknown_node_too_small(s.skip(pos)) {
        Err(
            Error {
                kind: ErrorKind::InvalidFileNodeSize {
                    node_type_id: node_header_at(s.skip(pos)).node_type_id,
                    size: node_header_at(s.skip(pos)).size,
                },
            },
        )
    } else {
        match file_node_spec(s.skip(pos)) {
            Err(e) => Err(e),
            Ok((h, k)) => if k > room {
                Err(Error { kind: ErrorKind::FileNodeOverrunsFragment })
            } else {
                proof {
                    lemma_node_takes_its_header(s.skip(pos));
                }
                let left = if counts_toward_limit(h.node_type_id) {
                    count - 1
                } else {
                    count
                };
                let kept: Seq<(int, FileNodeHeader, int)> = if h.node_type_id == 0 {
                    seq![]
                } else {
                    seq![(pos, h, k)]
                };
                after_nodes(kept, fragment_nodes(s, pos + k, room - k, left))
            },
        }
    }
}

/// The header of the fragment of `size` bytes at the front of `s`, the
/// nodes it keeps (see [`fragment_nodes`]; their positions count from the
/// end of the header) and how many more nodes may
/// follow in the list, given that at most `count` are expected; or the
/// error that reading it gives.
///
/// The nodes start after the 16-byte header; padding fills the room they
/// leave; a 12-byte reference to the next fragment and an 8-byte footer
/// end the fragment.
pub open spec fn fragment_spec(s: Seq<u8>, size: int, count: int) -> Result<
    (FileNodeListHeader, Seq<(int, FileNodeHeader, int)>, int),
> {
    match list_header_spec(s) {
        Err(e) => Err(e),
        Ok((h, n)) => match fragment_nodes(s.skip(n), 0, size - 36, count) {
            Err(e) => Err(e),
            Ok((nodes, _, c)) => if s.len() < size {
                eof()
            } else if u64_at(s, size - 8) != FILE_NODE_LIST_FOOTER {
                Err(Error { kind: ErrorKind::InvalidFileNodeListFooter { footer: u64_at(s, size - 8) } })
            } else {
                Ok((h, nodes, c))
            },
        },
    }
}

proof fn lemma_after_nodes_assoc(
    a: Seq<(int, FileNodeHeader, int)>,
    b: Seq<(int, FileNodeHeader, int)>,
    r: Result<(Seq<(int, FileNodeHeader, int)>, int, int)>,
)
    ensures
        after_nodes(a, after_nodes(b, r)) == after_nodes(a + b, r),
{
    match r {
        Ok((rest, end, c)) => {
            assert(a + (b + rest) =~= (a + b) + rest);
        },
        Err(_) => {},
    }
}

/// Whether the header `h` is that of a node of an unknown type whose
/// declared size is under 4.
fn unknown_and_too_small(h: &FileNodeHeader, available: usize) -> (b: bool)
    ensures
        b == (available >= payload_start(*h) && is_unknown_node(*h) && h.size < payload_start(*h)),
{
    let id = h.node_type_id;
    let referenced = h.base_type == 2 || is_data_reference_node(id);
    let start = 4 + reference_len(h);
    available >= start && !referenced && fixed_len(id).is_none() && id != 0x072 && id != 0x073
        && (h.size as usize) < start
}

/// The number of bytes of the chunk reference of a node with header `h`.
fn reference_len(h: &FileNodeHeader) -> (n: usize)
    ensures
        n == reference_width(*h),
{
    if h.base_type == 1 || h.base_type == 2 {
        let w1: usize = if h.stp_format == 0 {
            8
        } else if h.stp_format == 2 {
            2
        } else {
            4
        };
        let w2: usize = if h.cb_format == 1 {
            8
        } else if h.cb_format == 0 {
            4
        } else if h.cb_format == 2 {
            1
        } else {
            2
        };
        w1 + w2
    } else {
        0
    }
}

/// A fragment of a file node list: its header, the nodes it holds, where
/// the next fragment of the list is, and its footer.
///
/// See [MS-ONESTORE] 2.4.1.
#[derive(Debug)]
pub struct FileNodeListFragment {
    pub header: FileNodeListHeader,
    pub file_nodes: Vec<FileNode>,
    pub next_fragment: FileChunkReference64x32,
    pub footer: u64,
}

/// Reads the nodes of a fragment body, with `room` bytes for them and at
/// most `count` nodes that count towards the limit.
fn read_nodes(reader: &mut Reader, room: usize, count: usize) -> (r: Result<
    (Vec<FileNode>, usize, usize),
>)
    requires
        old(reader).wf(),
    ensures
        match fragment_nodes(old(reader).rest(), 0, room as int, count as int) {
            Ok((nodes, end, c)) => r matches Ok((v, used, left)) && used == end && left == c
                && used <= room && v.len() == nodes.len() && (forall|i: int|
                0 <= i < nodes.len() ==> 0 <= #[trigger] nodes[i].0 <= used) && (forall|i: int|
                0 <= i < nodes.len() ==> #[trigger] v[i].read_from(
                    old(reader).rest().skip(nodes[i].0),
                    nodes[i].1,
                    nodes[i].2,
                )) && final(reader).advanced_from(*old(reader), used as int),
            Err(e) => r == Err::<(Vec<FileNode>, usize, usize), Error>(e),
        },
{
    let ghost r0 = *reader;
    let ghost t = r0.rest();
    let mut file_nodes: Vec<FileNode> = Vec::new();
    let mut used: usize = 0;
    let mut left: usize = count;
    let ghost mut acc: Seq<(int, FileNodeHeader, int)> = seq![];
    proof {
        assert(acc + seq![] =~= seq![]);
        assert(t.skip(0) =~= t);
    }
    while room - used >= 4 && left > 0
        invariant
            r0.wf(),
            r0 == *old(reader),
            t == r0.rest(),
            used <= room,
            reader.advanced_from(r0, used as int),
            fragment_nodes(t, 0, room as int, count as int) == after_nodes(
                acc,
                fragment_nodes(t, used as int, room - used, left as int),
            ),
            file_nodes.len() == acc.len(),
            forall|i: int| 0 <= i < acc.len() ==> 0 <= #[trigger] acc[i].0 <= used,
            forall|i: int|
                0 <= i < acc.len() ==> #[trigger] file_nodes[i].read_from(
                    t.skip(acc[i].0),
                    acc[i].1,
                    acc[i].2,
                ),
        decreases room - used,
    {
        let ghost pos: int = used as int;
        let ghost space: int = room - used;
        let ghost r1 = *reader;
        proof {
            assert(r1.rest() =~= t.skip(pos));
        }
        let mut probe = *reader;
        if let Ok(h) = FileNodeHeader::parse(&mut probe) {
            proof {
                assert(r1.rest().take(4) =~= r1.rest().subrange(0, 4));
            }
            if unknown_and_too_small(&h, reader.remaining()) {
                let e = Error::new(
                    ErrorKind::InvalidFileNodeSize { node_type_id: h.node_type_id, size: h.size },
                );
                proof {
                    assert(fragment_nodes(t, pos, space, left as int) == Err::<
                        (Seq<(int, FileNodeHeader, int)>, int, int),
                        Error,
                    >(e));
                }
                return Err(e);
            }
        }
        assert(!unknown_node_too_small(t.skip(pos)));
        let node = match FileNode::parse(reader) {
            Ok(n) => n,
            Err(e) => {
                proof {
                    assert(fragment_nodes(t, pos, space, left as int) == Err::<
                        (Seq<(int, FileNodeHeader, int)>, int, int),
                        Error,
                    >(e));
                }
                return Err(e);
            },
        };
        let ghost h = node_header_at(t.skip(pos));
        let ghost k = node.size as int;
        proof {
            lemma_node_takes_its_header(t.skip(pos));
        }
        if node.size > room - used {
            let e = Error::new(ErrorKind::FileNodeOverrunsFragment);
            proof {
                assert(fragment_nodes(t, pos, space, left as int) == Err::<
                    (Seq<(int, FileNodeHeader, int)>, int, int),
                    Error,
                >(e));
            }
            return Err(e);
        }
        let ghost next_left: int = if counts_toward_limit(h.node_type_id) {
            left - 1
        } else {
            left as int
        };
        let ghost kept: Seq<(int, FileNodeHeader, int)> = if node.node_type_id == 0 {
            seq![]
        } else {
            seq![(pos, h, k)]
        };
        proof {
            assert(fragment_nodes(t, pos, space, left as int) == after_nodes(
                kept,
                fragment_nodes(t, pos + k, space - k, next_left),
            ));
            lemma_after_nodes_assoc(acc, kept, fragment_nodes(t, pos + k, space - k, next_left));
            Reader::lemma_advanced_trans(r0, r1, *reader, pos, k);
        }
        used = used + node.size;
        if node.node_type_id != 0x0FF && node.node_type_id != 0 {
            left = left - 1;
        }
        if node.node_type_id != 0 {
            file_nodes.push(node);
        }
        proof {
            acc = acc + kept;
        }
    }
    proof {
        assert(acc + seq![] =~= acc);
    }
    Ok((file_nodes, used, left))
}

impl FileNodeListFragment {
    /// Reads a fragment that takes `size` bytes. `node_count` holds how
    /// many more nodes the list is known to hold (`usize::MAX` where that
    /// is not known); reading stops once that many have been read, and
    /// `node_count` is left with how many more may follow.
    #[verifier::spinoff_prover]
    #[verifier::rlimit(50)]
    pub fn parse(reader: &mut Reader, size: usize, node_count: &mut usize) -> (r: Result<
        FileNodeListFragment,
    >)
        requires
            old(reader).wf(),
            size >= 36,
        ensures
            match fragment_spec(old(reader).rest(), size as int, *old(node_count) as int) {
                Ok((h, nodes, c)) => r matches Ok(f) && f.header == h && f.file_nodes.len()
                    == nodes.len() && (forall|i: int|
                    0 <= i < nodes.len() ==> #[trigger] f.file_nodes[i].read_from(
                        old(reader).rest().skip(16 + nodes[i].0),
                        nodes[i].1,
                        nodes[i].2,
                    )) && f.next_fragment == (FileChunkReference64x32 {
                    stp: u64_at(old(reader).rest(), size - 20),
                    cb: u32_at(old(reader).rest(), size - 12),
                }) && f.footer == FILE_NODE_LIST_FOOTER && *final(node_count) == c
                    && final(reader).advanced_from(*old(reader), size as int),
                Err(e) => r == Err::<FileNodeListFragment, Error>(e),
            },
    {
        let ghost r0 = *reader;
        let ghost s = r0.rest();
        let ghost c0 = *node_count as int;
        let header = FileNodeListHeader::parse(reader)?;
        let ghost r1 = *reader;
        let (file_nodes, used, count) = read_nodes(reader, size - 36, *node_count)?;
        let padding = size - 36 - used;
        let ghost r2 = *reader;
        proof {
            Reader::lemma_advanced_trans(r0, r1, r2, 16, used as int);
        }
        reader.advance(padding)?;
        let ghost r3 = *reader;
        let stp = reader.get_u64()?;
        let ghost r4 = *reader;
        let cb = reader.get_u32()?;
        let ghost r5 = *reader;
        let footer = reader.get_u64()?;
        proof {
            assert(s.skip(size - 20).take(8) =~= s.subrange(size - 20, size - 12));
            assert(s.skip(size - 12).take(4) =~= s.subrange(size - 12, size - 8));
            assert(s.skip(size - 8).take(8) =~= s.subrange(size - 8, size as int));
            Reader::lemma_advanced_trans(r0, r2, r3, 16 + used, padding as int);
            Reader::lemma_advanced_trans(r0, r3, r4, size - 20, 8);
            Reader::lemma_advanced_trans(r0, r4, r5, size - 12, 4);
            Reader::lemma_advanced_trans(r0, r5, *reader, size - 8, 8);
            assert(r1.rest() == s.skip(16));
            match fragment_nodes(s.skip(16), 0, size - 36, c0) {
                Ok((nodes, _, _)) => {
                    assert forall|i: int| 0 <= i < nodes.len() implies #[trigger] file_nodes[i].read_from(
                        s.skip(16 + nodes[i].0),
                        nodes[i].1,
                        nodes[i].2,
                    ) by {
                        assert(s.skip(16).skip(nodes[i].0) =~= s.skip(16 + nodes[i].0));
                    }
                },
                Err(_) => {},
            }
        }
        if footer != FILE_NODE_LIST_FOOTER {
            return Err(Error::new(ErrorKind::InvalidFileNodeListFooter { footer }));
        }
        *node_count = count;
        Ok(
            FileNodeListFragment {
                header,
                file_nodes,
                next_fragment: FileChunkReference64x32 { stp, cb },
                footer,
            },
        )
    }
}

} // verus!
