//! The byte layouts of file node payloads and of the structures around
//! them in a revision store file.
use crate::compact::{compact_id_from_word, CompactId};
use crate::errors::{Error, ErrorKind, Result};
use crate::exguid::{exguid_fixed_spec, ExGuid};
use crate::file_node::{AttachmentInfo, FileNodeData, FileNodeList, ObjectDeclaration};
use crate::onestore::{FileBlob, FileDataStatus, JcId};
use crate::reader::{eof, le_uint, Reader};
use crate::text::{has_prefix, starts_with};
use vstd::prelude::*;
use vstd::slice::slice_to_vec;

verus! {

/// The value that starts every file node list fragment.
pub const FILE_NODE_LIST_MAGIC: u64 = 0xA4567AB1F5F7F4C4u64;

/// A reference to a chunk of the file: where it starts and how many bytes
/// it holds.
///
/// See [MS-ONESTORE] 2.2.4.2.
#[derive(Debug, Clone, Copy)]
pub struct FileNodeChunkReference {
    pub stp: u64,
    pub cb: u64,
}

/// The number of bytes that the offset of a chunk reference takes in
/// format `f`.
///
/// See [MS-ONESTORE] 2.2.4.2.
pub open spec fn stp_width(f: u32) -> nat {
    if f == 0 {
        8
    } else if f == 1 {
        4
    } else if f == 2 {
        2
    } else {
        4
    }
}

/// The number of bytes that the size of a chunk reference takes in format
/// `f`.
///
/// See [MS-ONESTORE] 2.2.4.2.
pub open spec fn cb_width(f: u32) -> nat {
    if f == 0 {
        4
    } else if f == 1 {
        8
    } else if f == 2 {
        1
    } else {
        2
    }
}

/// The offset that a chunk reference in format `f` stores at the front of
/// `s`: 8 or 4 bytes as they stand, or 2 or 4 bytes counting units of 8
/// bytes.
pub open spec fn stp_value(s: Seq<u8>, f: u32) -> u64 {
    if f == 0 {
        le_uint(s.take(8)) as u64
    } else if f == 1 {
        (le_uint(s.take(4)) as u32) as u64
    } else if f == 2 {
        ((le_uint(s.take(2)) as u16) as u64 * 8) as u64
    } else {
        ((le_uint(s.take(4)) as u32) as u64 * 8) as u64
    }
}

/// The size that a chunk reference in format `f` stores at the front of
/// `s`: 4 or 8 bytes as they stand, or 1 or 2 bytes counting units of 8
/// bytes.
pub open spec fn cb_value(s: Seq<u8>, f: u32) -> u64 {
    if f == 0 {
        (le_uint(s.take(4)) as u32) as u64
    } else if f == 1 {
        le_uint(s.take(8)) as u64
    } else if f == 2 {
        (s[0] as u64 * 8) as u64
    } else {
        ((le_uint(s.take(2)) as u16) as u64 * 8) as u64
    }
}

/// The chunk reference in formats `stp_format` and `cb_format` at the
/// front of `s`, with the number of bytes it takes.
pub open spec fn chunk_reference_spec(s: Seq<u8>, stp_format: u32, cb_format: u32) -> Result<
    (FileNodeChunkReference, int),
> {
    let w1 = stp_width(stp_format);
    let w2 = cb_width(cb_format);
    if s.len() < w1 + w2 {
        eof()
    } else {
        Ok(
            (
                FileNodeChunkReference {
                    stp: stp_value(s, stp_format),
                    cb: cb_value(s.skip(w1 as int), cb_format),
                },
                (w1 + w2) as int,
            ),
        )
    }
}

/// The layout of a chunk reference ([MS-ONESTORE] 2.2.4.2): the offset
/// comes first, as 8 bytes (format 0), 4 bytes (format 1), 2 bytes
/// counting units of 8 (format 2) or 4 bytes counting units of 8
/// (format 3); the size follows it, as 4 bytes (format 0), 8 bytes
/// (format 1), 1 byte counting units of 8 (format 2) or 2 bytes counting
/// units of 8 (format 3).
pub proof fn law_chunk_reference_layout(s: Seq<u8>, stp_format: u32, cb_format: u32)
    requires
        stp_format < 4,
        cb_format < 4,
    ensures
        chunk_reference_spec(s, stp_format, cb_format) matches Ok((c, n)) ==> {
            let o: int = if stp_format == 0 {
                8
            } else if stp_format == 2 {
                2
            } else {
                4
            };
            let w: int = if cb_format == 1 {
                8
            } else if cb_format == 0 {
                4
            } else if cb_format == 2 {
                1
            } else {
                2
            };
            &&& n == o + w
            &&& stp_format == 0 ==> c.stp == le_uint(s.subrange(0, 8))
            &&& stp_format == 1 ==> c.stp == le_uint(s.subrange(0, 4))
            &&& stp_format == 2 ==> c.stp == 8 * le_uint(s.subrange(0, 2))
            &&& stp_format == 3 ==> c.stp == 8 * le_uint(s.subrange(0, 4))
            &&& cb_format == 0 ==> c.cb == le_uint(s.subrange(o, o + 4))
            &&& cb_format == 1 ==> c.cb == le_uint(s.subrange(o, o + 8))
            &&& cb_format == 2 ==> c.cb == 8 * s[o]
            &&& cb_format == 3 ==> c.cb == 8 * le_uint(s.subrange(o, o + 2))
        },
{
    if chunk_reference_spec(s, stp_format, cb_format) is Ok {
        reveal_with_fuel(pow256, 9);
        assert(pow256(1) == 0x100);
        assert(pow256(2) == 0x10000);
        assert(pow256(4) == 0x1_0000_0000);
        assert(pow256(8) == 0x1_0000_0000_0000_0000);
        let o: int = if stp_format == 0 {
            8
        } else if stp_format == 2 {
            2
        } else {
            4
        };
        assert(s.take(8) =~= s.subrange(0, 8));
        assert(s.take(4) =~= s.subrange(0, 4));
        assert(s.take(2) =~= s.subrange(0, 2));
        if cb_format == 0 {
            assert(s.skip(o).take(4) =~= s.subrange(o, o + 4));
            lemma_le_uint_bound(s.subrange(o, o + 4));
        } else if cb_format == 1 {
            assert(s.skip(o).take(8) =~= s.subrange(o, o + 8));
            lemma_le_uint_bound(s.subrange(o, o + 8));
        } else if cb_format == 2 {
            assert(s.skip(o)[0] == s[o]);
        } else {
            assert(s.skip(o).take(2) =~= s.subrange(o, o + 2));
            lemma_le_uint_bound(s.subrange(o, o + 2));
        }
        if stp_format == 0 {
            lemma_le_uint_bound(s.subrange(0, 8));
        } else if stp_format == 2 {
            lemma_le_uint_bound(s.subrange(0, 2));
        } else {
            lemma_le_uint_bound(s.subrange(0, 4));
        }
    }
}

proof fn lemma_le_uint_bound(s: Seq<u8>)
    ensures
        s.len() <= 8 ==> le_uint(s) < pow256(s.len()),
    decreases s.len(),
{
    if s.len() > 0 {
        lemma_le_uint_bound(s.drop_first());
    }
}

/// `256` to the power `n`, for `n` up to 8.
spec fn pow256(n: nat) -> nat
    decreases n,
{
    if n == 0 {
        1
    } else {
        256 * pow256((n - 1) as nat)
    }
}

impl FileNodeChunkReference {
    /// Reads a chunk reference whose offset and size are stored in the
    /// formats `stp_format` and `cb_format` of a file node's header.
    pub fn parse(reader: &mut Reader, stp_format: u32, cb_format: u32) -> (r: Result<
        FileNodeChunkReference,
    >)
        requires
            old(reader).wf(),
            stp_format < 4,
            cb_format < 4,
        ensures
            match chunk_reference_spec(old(reader).rest(), stp_format, cb_format) {
                Ok((c, n)) => r == Ok::<FileNodeChunkReference, Error>(c) && final(reader).advanced_from(
                    *old(reader),
                    n,
                ),
                Err(e) => r == Err::<FileNodeChunkReference, Error>(e),
            },
    {
        let ghost r0 = *reader;
        let w1: usize = if stp_format == 0 {
            8
        } else if stp_format == 2 {
            2
        } else {
            4
        };
        let w2: usize = if cb_format == 1 {
            8
        } else if cb_format == 0 {
            4
        } else if cb_format == 2 {
            1
        } else {
            2
        };
        if reader.remaining() < w1 + w2 {
            return Err(Error::new(ErrorKind::UnexpectedEof));
        }
        let stp: u64 = if stp_format == 0 {
            reader.get_u64()?
        } else if stp_format == 1 {
            reader.get_u32()? as u64
        } else if stp_format == 2 {
            reader.get_u16()? as u64 * 8
        } else {
            reader.get_u32()? as u64 * 8
        };
        let ghost r1 = *reader;
        let cb: u64 = if cb_format == 0 {
            reader.get_u32()? as u64
        } else if cb_format == 1 {
            reader.get_u64()?
        } else if cb_format == 2 {
            reader.get_u8()? as u64 * 8
        } else {
            reader.get_u16()? as u64 * 8
        };
        proof {
            Reader::lemma_advanced_trans(r0, r1, *reader, w1 as int, w2 as int);
        }
        Ok(FileNodeChunkReference { stp, cb })
    }
}

/// What a file node refers to besides its own bytes: one chunk of the
/// file, a list of file nodes, or nothing.
///
/// See [MS-ONESTORE] 2.4.3.
#[derive(Debug)]
pub enum FileNodeDataRef {
    SingleElement(FileNodeChunkReference),
    ElementList(FileNodeList),
    NoData,
    InvalidData,
}

/// The result of a node that must refer to a list of file nodes but does
/// not.
pub open spec fn expected_list<T>() -> Result<T> {
    Err(Error { kind: ErrorKind::ExpectedNodeList })
}

/// A file node whose only content is the list of file nodes it refers to.
///
/// See [MS-ONESTORE] 2.5.6 and 2.5.21.
#[derive(Debug)]
pub struct PointerToListFND {
    pub list: FileNodeList,
}

impl PointerToListFND {
    /// The node that refers to the list of `data_ref`.
    pub fn parse(data_ref: FileNodeDataRef) -> (r: Result<PointerToListFND>)
        ensures
            match data_ref {
                FileNodeDataRef::ElementList(list) => r matches Ok(p) && p.list == list,
                _ => r == expected_list::<PointerToListFND>(),
            },
    {
        match data_ref {
            FileNodeDataRef::ElementList(list) => Ok(PointerToListFND { list }),
            _ => Err(Error::new(ErrorKind::ExpectedNodeList)),
        }
    }
}

/// A reference to an object group list: the list and the identifier of
/// the group.
///
/// See [MS-ONESTORE] 2.5.31.
#[derive(Debug)]
pub struct ObjectGroupListReferenceFND {
    pub list: FileNodeList,
    pub id: ExGuid,
}

impl ObjectGroupListReferenceFND {
    /// Reads the group identifier that follows in `reader`, for the list of
    /// `data_ref`.
    pub fn parse(reader: &mut Reader, data_ref: FileNodeDataRef) -> (r: Result<
        ObjectGroupListReferenceFND,
    >)
        requires
            old(reader).wf(),
        ensures
            match data_ref {
                FileNodeDataRef::ElementList(list) => match exguid_fixed_spec(old(reader).rest()) {
                    Ok((g, n)) => r matches Ok(x) && x.list == list && x.id == g
                        && final(reader).advanced_from(*old(reader), n),
                    Err(e) => r == Err::<ObjectGroupListReferenceFND, Error>(e),
                },
                _ => r == expected_list::<ObjectGroupListReferenceFND>() && *final(reader) == *old(reader),
            },
    {
        match data_ref {
            FileNodeDataRef::ElementList(list) => {
                let id = ExGuid::parse_fixed(reader)?;
                Ok(ObjectGroupListReferenceFND { list, id })
            },
            _ => Err(Error::new(ErrorKind::ExpectedNodeList)),
        }
    }
}

/// The start of a revision manifest list: the object space it belongs to
/// and its instance number.
///
/// See [MS-ONESTORE] 2.5.5.
#[derive(Debug, Clone, Copy)]
pub struct RevisionManifestListStartFND {
    pub gsoid: ExGuid,
    pub n_instance: u32,
}

/// The start node of a revision manifest list at the front of `s`, with
/// the 24 bytes it takes.
pub open spec fn manifest_list_start_spec(s: Seq<u8>) -> Result<(RevisionManifestListStartFND, int)> {
    match exguid_fixed_spec(s) {
        Err(e) => Err(e),
        Ok((g, n)) => if s.len() < 24 {
            eof()
        } else {
            Ok(
                (
                    RevisionManifestListStartFND {
                        gsoid: g,
                        n_instance: le_uint(s.subrange(20, 24)) as u32,
                    },
                    24,
                ),
            )
        },
    }
}

impl RevisionManifestListStartFND {
    /// Reads the start node of a revision manifest list.
    pub fn parse(reader: &mut Reader) -> (r: Result<RevisionManifestListStartFND>)
        requires
            old(reader).wf(),
        ensures
            match manifest_list_start_spec(old(reader).rest()) {
                Ok((v, n)) => r == Ok::<RevisionManifestListStartFND, Error>(v) && final(reader).advanced_from(*old(reader), n),
                Err(e) => r == Err::<RevisionManifestListStartFND, Error>(e),
            },
    {
        let ghost r0 = *reader;
        let gsoid = ExGuid::parse_fixed(reader)?;
        let ghost r1 = *reader;
        let n_instance = reader.get_u32()?;
        proof {
            assert(r0.rest().skip(20).take(4) =~= r0.rest().subrange(20, 24));
            Reader::lemma_advanced_trans(r0, r1, *reader, 20, 4);
        }
        Ok(RevisionManifestListStartFND { gsoid, n_instance })
    }
}

/// The list of the last revision manifest list that the node list of an
/// object space manifest list reference names, or why the node list is
/// malformed: it must be a start node followed by at least one reference
/// to a revision manifest list, and nothing else.
///
/// See [MS-ONESTORE] 2.1.6.
pub open spec fn object_space_list_spec(nodes: Seq<FileNodeData>) -> Result<FileNodeList> {
    if 0 < nodes.len() && !(nodes[0] is ObjectSpaceManifestListStartFND) {
        Err(Error { kind: ErrorKind::ObjectSpaceListWithoutStart })
    } else if exists|k: int|
        1 <= k < nodes.len() && !(#[trigger] nodes[k] is RevisionManifestListReferenceFND) {
        Err(Error { kind: ErrorKind::UnexpectedObjectSpaceListNode })
    } else if nodes.len() < 2 {
        Err(Error { kind: ErrorKind::ObjectSpaceListWithoutRevision })
    } else {
        match nodes[nodes.len() - 1] {
            FileNodeData::RevisionManifestListReferenceFND { list } => Ok(list),
            _ => Err(Error { kind: ErrorKind::ObjectSpaceListWithoutRevision }),
        }
    }
}

/// A reference to the revision manifest lists of an object space: the
/// object space's identifier and the last of the lists, the only one that
/// counts.
///
/// See [MS-ONESTORE] 2.5.2.
#[derive(Debug)]
pub struct ObjectSpaceManifestListReferenceFND {
    pub gosid: ExGuid,
    pub last_revision: PointerToListFND,
}

impl ObjectSpaceManifestListReferenceFND {
    /// Checks the node list of `data_ref`, keeps its last revision manifest
    /// list, and reads the object space's identifier from `reader`.
    pub fn parse(reader: &mut Reader, data_ref: FileNodeDataRef) -> (r: Result<
        ObjectSpaceManifestListReferenceFND,
    >)
        requires
            old(reader).wf(),
        ensures
            match data_ref {
                FileNodeDataRef::ElementList(nodes) => match object_space_list_spec(
                    nodes.file_node_sequence@,
                ) {
                    Err(e) => r == Err::<ObjectSpaceManifestListReferenceFND, Error>(e),
                    Ok(last) => match exguid_fixed_spec(old(reader).rest()) {
                        Ok((g, n)) => r matches Ok(x) && x.gosid == g && x.last_revision.list == last
                            && final(reader).advanced_from(*old(reader), n),
                        Err(e) => r == Err::<ObjectSpaceManifestListReferenceFND, Error>(e),
                    },
                },
                _ => r == expected_list::<ObjectSpaceManifestListReferenceFND>(),
            },
    {
        let list = match data_ref {
            FileNodeDataRef::ElementList(list) => list,
            _ => {
                return Err(Error::new(ErrorKind::ExpectedNodeList));
            },
        };
        let mut nodes = list.file_node_sequence;
        let ghost s = nodes@;
        let mut k: usize = 0;
        while k < nodes.len()
            invariant
                nodes@ == s,
                data_ref matches FileNodeDataRef::ElementList(l) && l.file_node_sequence@ == s,
                0 <= k <= s.len(),
                k > 0 ==> s[0] is ObjectSpaceManifestListStartFND,
                forall|j: int| 1 <= j < k ==> #[trigger] s[j] is RevisionManifestListReferenceFND,
            decreases s.len() - k,
        {
            if k == 0 {
                if !matches!(nodes[0], FileNodeData::ObjectSpaceManifestListStartFND { .. }) {
                    return Err(Error::new(ErrorKind::ObjectSpaceListWithoutStart));
                }
            } else if !matches!(nodes[k], FileNodeData::RevisionManifestListReferenceFND { .. }) {
                proof {
                    assert(!(s[k as int] is RevisionManifestListReferenceFND));
                }
                return Err(Error::new(ErrorKind::UnexpectedObjectSpaceListNode));
            }
            k += 1;
        }
        match nodes.pop() {
            Some(FileNodeData::RevisionManifestListReferenceFND { list }) => {
                let gosid = ExGuid::parse_fixed(reader)?;
                Ok(
                    ObjectSpaceManifestListReferenceFND {
                        gosid,
                        last_revision: PointerToListFND { list },
                    },
                )
            },
            _ => Err(Error::new(ErrorKind::ObjectSpaceListWithoutRevision)),
        }
    }
}

/// The header of a file node list fragment: the list it belongs to and
/// its position in the list.
///
/// See [MS-ONESTORE] 2.4.2.
#[derive(Debug, Clone, Copy)]
pub struct FileNodeListHeader {
    pub magic: u64,
    pub file_node_list_id: u32,
    pub n_fragment_sequence: u32,
}

/// The header of a file node list fragment at the front of `s`, with the
/// 16 bytes it takes; it must start with [`FILE_NODE_LIST_MAGIC`].
pub open spec fn list_header_spec(s: Seq<u8>) -> Result<(FileNodeListHeader, int)> {
    if s.len() < 8 {
        eof()
    } else if le_uint(s.take(8)) as u64 != FILE_NODE_LIST_MAGIC {
        Err(Error { kind: ErrorKind::InvalidFileNodeListMagic })
    } else if s.len() < 16 {
        eof()
    } else {
        Ok(
            (
                FileNodeListHeader {
                    magic: FILE_NODE_LIST_MAGIC,
                    file_node_list_id: le_uint(s.subrange(8, 12)) as u32,
                    n_fragment_sequence: le_uint(s.subrange(12, 16)) as u32,
                },
                16,
            ),
        )
    }
}

impl FileNodeListHeader {
    /// Reads the header of a file node list fragment.
    pub fn parse(reader: &mut Reader) -> (r: Result<FileNodeListHeader>)
        requires
            old(reader).wf(),
        ensures
            match list_header_spec(old(reader).rest()) {
                Ok((h, n)) => r == Ok::<FileNodeListHeader, Error>(h) && final(reader).advanced_from(
                    *old(reader),
                    n,
                ),
                Err(e) => r == Err::<FileNodeListHeader, Error>(e),
            },
    {
        let ghost r0 = *reader;
        let magic = reader.get_u64()?;
        if magic != FILE_NODE_LIST_MAGIC {
            return Err(Error::new(ErrorKind::InvalidFileNodeListMagic));
        }
        let ghost r1 = *reader;
        let file_node_list_id = reader.get_u32()?;
        let ghost r2 = *reader;
        let n_fragment_sequence = reader.get_u32()?;
        proof {
            assert(r0.rest().skip(8).take(4) =~= r0.rest().subrange(8, 12));
            assert(r0.rest().skip(8).skip(4).take(4) =~= r0.rest().subrange(12, 16));
            Reader::lemma_advanced_trans(r0, r1, r2, 8, 4);
            Reader::lemma_advanced_trans(r0, r2, *reader, 12, 4);
        }
        Ok(FileNodeListHeader { magic, file_node_list_id, n_fragment_sequence })
    }
}

/// The common part of the object declarations of [MS-ONESTORE] 2.5.25 and
/// 2.5.26: the object's compact ID, its type, and whether it refers to
/// other objects or object spaces.
///
/// See [MS-ONESTORE] 2.6.16.
#[derive(Debug, Clone, Copy)]
pub struct ObjectDeclaration2Body {
    pub oid: CompactId,
    pub jcid: JcId,
    pub f_has_oid_references: bool,
    pub f_has_osid_references: bool,
}

/// The declaration body at the front of `s`, with the 9 bytes it takes.
pub open spec fn declaration_body_spec(s: Seq<u8>) -> Result<(ObjectDeclaration2Body, int)> {
    if s.len() < 9 {
        eof()
    } else {
        Ok(
            (
                ObjectDeclaration2Body {
                    oid: compact_id_from_word(le_uint(s.take(4)) as u32),
                    jcid: JcId(le_uint(s.subrange(4, 8)) as u32),
                    f_has_oid_references: s[8] & 0x1u8 > 0,
                    f_has_osid_references: s[8] & 0x2u8 > 0,
                },
                9,
            ),
        )
    }
}

impl ObjectDeclaration2Body {
    /// Reads a declaration body.
    pub fn parse(reader: &mut Reader) -> (r: Result<ObjectDeclaration2Body>)
        requires
            old(reader).wf(),
        ensures
            match declaration_body_spec(old(reader).rest()) {
                Ok((b, n)) => r == Ok::<ObjectDeclaration2Body, Error>(b) && final(reader).advanced_from(
                    *old(reader),
                    n,
                ),
                Err(e) => r == Err::<ObjectDeclaration2Body, Error>(e),
            },
    {
        let ghost r0 = *reader;
        let oid = CompactId::parse(reader)?;
        let ghost r1 = *reader;
        let jcid = JcId(reader.get_u32()?);
        let ghost r2 = *reader;
        let metadata = reader.get_u8()?;
        proof {
            assert(r0.rest().skip(4).take(4) =~= r0.rest().subrange(4, 8));
            assert(r0.rest().skip(4).skip(4)[0] == r0.rest()[8]);
            Reader::lemma_advanced_trans(r0, r1, r2, 4, 4);
            Reader::lemma_advanced_trans(r0, r2, *reader, 8, 1);
        }
        Ok(
            ObjectDeclaration2Body {
                oid,
                jcid,
                f_has_oid_references: metadata & 0x1 > 0,
                f_has_osid_references: metadata & 0x2 > 0,
            },
        )
    }
}


/// What the UTF-16 code units `units` decode to, if they are valid UTF-16:
/// a unit outside U+D800..U+DFFF is a character of its own, a high
/// surrogate followed by a low one makes one character, and any other
/// surrogate makes the units invalid.
pub open spec fn utf16_decoded(units: Seq<u16>) -> Option<Seq<char>>
    decreases units.len(),
{
    if units.len() == 0 {
        Some(seq![])
    } else if units[0] < 0xD800 || units[0] > 0xDFFF {
        match utf16_decoded(units.drop_first()) {
            Some(rest) => Some(seq![units[0] as char] + rest),
            None => None,
        }
    } else if units[0] <= 0xDBFF && units.len() >= 2 && 0xDC00 <= units[1] && units[1] <= 0xDFFF {
        let c = 0x10000 + (units[0] - 0xD800) * 0x400 + (units[1] - 0xDC00);
        match utf16_decoded(units.skip(2)) {
            Some(rest) => Some(seq![c as char] + rest),
            None => None,
        }
    } else {
        None
    }
}

/// `String::from_utf16`: the string that the code units `units` encode, or
/// `None` where they are not valid UTF-16.
#[verifier::external_body]
fn string_from_utf16(units: &[u16]) -> (r: Option<String>)
    ensures
        match utf16_decoded(units@) {
            Some(cs) => r matches Some(s) && s@ == cs,
            None => r is None,
        },
{
    String::from_utf16(units).ok()
}

/// The UTF-16 code units that the little-endian byte pairs of `b` hold.
pub open spec fn utf16_units(b: Seq<u8>) -> Seq<u16> {
    Seq::new(b.len() / 2, |i: int| (b[2 * i] + 256 * b[2 * i + 1]) as u16)
}

/// A string stored as a character count followed by that many UTF-16
/// code units.
///
/// See [MS-ONESTORE] 2.2.3.
#[derive(Debug)]
pub struct StringInStorageBuffer {
    pub cch: usize,
    pub data: String,
}

/// The character count and characters of the stored string at the front
/// of `s`, with the number of bytes it takes.
pub open spec fn storage_string_spec(s: Seq<u8>) -> Result<(u32, Seq<char>, int)> {
    if s.len() < 4 {
        eof()
    } else {
        let cch = le_uint(s.take(4)) as u32;
        let end = 4 + 2 * cch;
        if s.len() < end {
            eof()
        } else {
            match utf16_decoded(utf16_units(s.subrange(4, end))) {
                None => Err(Error { kind: ErrorKind::InvalidUtf16 }),
                Some(cs) => Ok((cch, cs, end)),
            }
        }
    }
}

impl StringInStorageBuffer {
    /// Reads a stored string.
    pub fn parse(reader: &mut Reader) -> (r: Result<StringInStorageBuffer>)
        requires
            old(reader).wf(),
        ensures
            match storage_string_spec(old(reader).rest()) {
                Ok((cch, cs, n)) => r matches Ok(b) && b.cch == cch && b.data@ == cs && final(reader).advanced_from(*old(reader), n),
                Err(e) => r matches Err(x) && x == e,
            },
    {
        let ghost r0 = *reader;
        let count = reader.get_u32()?;
        let ghost r1 = *reader;
        let size: u64 = (count as u64) * 2;
        if size > reader.remaining() as u64 {
            return Err(Error::new(ErrorKind::UnexpectedEof));
        }
        let data = reader.read(size as usize)?;
        proof {
            assert(r0.rest().skip(4).take(size as int) =~= r0.rest().subrange(4, 4 + size));
            Reader::lemma_advanced_trans(r0, r1, *reader, 4, size as int);
        }
        let mut units: Vec<u16> = Vec::new();
        let mut k: usize = 0;
        while k < count as usize
            invariant
                data@.len() == 2 * count,
                2 * count <= usize::MAX,
                0 <= k <= count,
                units@.len() == k,
                forall|j: int|
                    0 <= j < k ==> #[trigger] units@[j] == (data@[2 * j] + 256 * data@[2 * j + 1]) as u16,
            decreases count - k,
        {
            let unit: u16 = data[2 * k] as u16 + (data[2 * k + 1] as u16) * 256;
            units.push(unit);
            k += 1;
        }
        proof {
            assert(units@ =~= utf16_units(data@));
        }
        let text = match string_from_utf16(units.as_slice()) {
            Some(t) => t,
            None => {
                return Err(Error::new(ErrorKind::InvalidUtf16));
            },
        };
        Ok(StringInStorageBuffer { cch: count as usize, data: text })
    }
}


/// The first 32-bit word of a file node: the node's type, its size in
/// bytes, the formats of the chunk reference that may follow, and the kind
/// of data it refers to.
///
/// See [MS-ONESTORE] 2.4.3.
#[derive(Debug, Clone, Copy)]
pub struct FileNodeHeader {
    pub node_type_id: u32,
    pub size: u32,
    pub stp_format: u32,
    pub cb_format: u32,
    pub base_type: u32,
}

/// The fields that the word `w` packs: 10 bits of node type, 13 bits of
/// size, 2 bits each of offset and size format, and 4 bits of base type,
/// from the lowest bit up; the highest bit is reserved.
pub open spec fn header_from_word(w: u32) -> FileNodeHeader {
    FileNodeHeader {
        node_type_id: w & 0x3FF,
        size: (w >> 10u32) & 0x1FFF,
        stp_format: (w >> 23u32) & 0x3,
        cb_format: (w >> 25u32) & 0x3,
        base_type: (w >> 27u32) & 0xF,
    }
}

impl FileNodeHeader {
    /// Reads the first word of a file node.
    pub fn parse(reader: &mut Reader) -> (r: Result<FileNodeHeader>)
        requires
            old(reader).wf(),
        ensures
            old(reader).rest().len() < 4 ==> r == eof::<FileNodeHeader>(),
            old(reader).rest().len() >= 4 ==> r == Ok::<FileNodeHeader, Error>(
                header_from_word(le_uint(old(reader).rest().take(4)) as u32),
            ) && final(reader).advanced_from(*old(reader), 4),
    {
        let first_line = reader.get_u32()?;
        Ok(
            FileNodeHeader {
                node_type_id: first_line & 0x3FF,
                size: (first_line >> 10) & 0x1FFF,
                stp_format: (first_line >> 23) & 0x3,
                cb_format: (first_line >> 25) & 0x3,
                base_type: (first_line >> 27) & 0xF,
            },
        )
    }

    /// What kind of data the node refers to: none, one chunk of the file,
    /// or a list of file nodes; `None` for a base type that names none of
    /// them.
    pub fn data_kind(&self) -> (k: Option<FileNodeDataKind>)
        ensures
            k == data_kind_of(self.base_type),
    {
        if self.base_type == 0 {
            Some(FileNodeDataKind::NoData)
        } else if self.base_type == 1 {
            Some(FileNodeDataKind::SingleElement)
        } else if self.base_type == 2 {
            Some(FileNodeDataKind::ElementList)
        } else {
            None
        }
    }
}

/// The kinds of data that a file node can refer to.
#[derive(Debug, PartialEq, Eq, Structural, Clone, Copy)]
pub enum FileNodeDataKind {
    NoData,
    SingleElement,
    ElementList,
}

/// The kind of data that the base type `b` names.
pub open spec fn data_kind_of(b: u32) -> Option<FileNodeDataKind> {
    if b == 0 {
        Some(FileNodeDataKind::NoData)
    } else if b == 1 {
        Some(FileNodeDataKind::SingleElement)
    } else if b == 2 {
        Some(FileNodeDataKind::ElementList)
    } else {
        None
    }
}

/// The fields of a file node header stay within their widths, so the word
/// can be built back from them.
pub proof fn law_header_fields_rebuild_the_word(w: u32)
    requires
        w >> 31u32 == 0,
    ensures
        ({
            let h = header_from_word(w);
            &&& h.node_type_id < 0x400
            &&& h.size < 0x2000
            &&& h.stp_format < 4
            &&& h.cb_format < 4
            &&& h.base_type < 16
            &&& w == h.node_type_id | (h.size << 10u32) | (h.stp_format << 23u32) | (h.cb_format
                << 25u32) | (h.base_type << 27u32)
        }),
{
    assert(w & 0x3FF < 0x400) by (bit_vector);
    assert((w >> 10u32) & 0x1FFF < 0x2000) by (bit_vector);
    assert((w >> 23u32) & 0x3 < 4) by (bit_vector);
    assert((w >> 25u32) & 0x3 < 4) by (bit_vector);
    assert((w >> 27u32) & 0xF < 16) by (bit_vector);
    assert(w >> 31u32 == 0 ==> w == (w & 0x3FF) | (((w >> 10u32) & 0x1FFF) << 10u32) | (((w
        >> 23u32) & 0x3) << 23u32) | (((w >> 25u32) & 0x3) << 25u32) | (((w >> 27u32) & 0xF)
        << 27u32)) by (bit_vector);
}


/// A file node of a type that is not known; its payload is skipped.
#[derive(Debug)]
pub struct UnknownNode {}

impl UnknownNode {
    /// Skips the `size` bytes of an unknown node's payload.
    pub fn parse(reader: &mut Reader, size: usize) -> (r: Result<UnknownNode>)
        requires
            old(reader).wf(),
        ensures
            size > old(reader).rest().len() ==> r is Err && r == eof::<UnknownNode>() && *final(reader) == *old(reader),
            size <= old(reader).rest().len() ==> r is Ok && final(reader).advanced_from(
                *old(reader),
                size as int,
            ),
    {
        reader.advance(size)?;
        Ok(UnknownNode {})
    }
}

/// The bytes of a file stored in the file data store.
///
/// See [MS-ONESTORE] 2.6.13.
#[derive(Debug)]
pub struct FileData(pub FileBlob);

impl FileData {
    /// Reads the `size` bytes of a stored file.
    pub fn parse(reader: &mut Reader, size: usize) -> (r: Result<FileData>)
        requires
            old(reader).wf(),
        ensures
            size > old(reader).rest().len() ==> r is Err && r == eof::<FileData>(),
            size <= old(reader).rest().len() ==> (r matches Ok(d) && d.0@.content == old(reader).rest().take(size as int) && d.0@.status == FileDataStatus::Available && final(reader).advanced_from(*old(reader), size as int)),
    {
        let data = reader.read(size)?;
        let bytes = slice_to_vec(data);
        proof {
            assert(bytes@.subrange(0, size as int) =~= bytes@);
        }
        Ok(FileData(FileBlob::from_source(bytes, 0, size as u64)))
    }
}


/// Whether `data_ref` has one of the prefixes of a file data reference.
pub open spec fn known_file_reference(data_ref: Seq<char>) -> bool {
    starts_with(data_ref, "<file>"@) || starts_with(data_ref, "<ifndf>"@) || starts_with(
        data_ref,
        "<invfdo>"@,
    )
}

/// The declaration of an object whose data is a file: its compact ID, its
/// type, its reference count, the reference to the file and the file's
/// extension.
///
/// See [MS-ONESTORE] 2.5.27 and 2.5.28.
#[derive(Debug)]
pub struct ObjectDeclarationFileDataRefCount {
    pub oid: CompactId,
    pub jcid: JcId,
    pub c_ref: u32,
    pub file_data_ref: StringInStorageBuffer,
    pub file_ext: StringInStorageBuffer,
}

/// The declaration at the front of `s`, whose reference count takes 4
/// bytes if `large` and 1 byte otherwise: its compact ID, type, reference
/// count, file reference and extension, with the number of bytes it takes.
pub open spec fn file_data_declaration_spec(s: Seq<u8>, large: bool) -> Result<
    (CompactId, JcId, u32, Seq<char>, Seq<char>, int),
> {
    let head: int = if large {
        12
    } else {
        9
    };
    if s.len() < head {
        eof()
    } else {
        let oid = compact_id_from_word(le_uint(s.take(4)) as u32);
        let jcid = JcId(le_uint(s.subrange(4, 8)) as u32);
        let c_ref: u32 = if large {
            le_uint(s.subrange(8, 12)) as u32
        } else {
            s[8] as u32
        };
        match storage_string_spec(s.skip(head)) {
            Err(e) => Err(e),
            Ok((_, data_ref, n1)) => match storage_string_spec(s.skip(head + n1)) {
                Err(e) => Err(e),
                Ok((_, ext, n2)) => if !known_file_reference(data_ref) {
                    Err(Error { kind: ErrorKind::InvalidFileDataReference })
                } else {
                    Ok((oid, jcid, c_ref, data_ref, ext, head + n1 + n2))
                },
            },
        }
    }
}

impl ObjectDeclarationFileDataRefCount {
    /// Reads a declaration of an object with file data; its reference
    /// count takes 4 bytes if `large` and 1 byte otherwise.
    pub fn parse(reader: &mut Reader, large: bool) -> (r: Result<ObjectDeclarationFileDataRefCount>)
        requires
            old(reader).wf(),
        ensures
            match file_data_declaration_spec(old(reader).rest(), large) {
                Ok((oid, jcid, c_ref, data_ref, ext, n)) => r matches Ok(d) && d.oid == oid && d.jcid
                    == jcid && d.c_ref == c_ref && d.file_data_ref.data@ == data_ref && d.file_ext.data@
                    == ext && final(reader).advanced_from(*old(reader), n),
                Err(e) => r matches Err(x) && x == e,
            },
    {
        let ghost r0 = *reader;
        let oid = CompactId::parse(reader)?;
        let ghost r1 = *reader;
        let jcid = JcId(reader.get_u32()?);
        let ghost r2 = *reader;
        let c_ref: u32 = if large {
            reader.get_u32()?
        } else {
            reader.get_u8()? as u32
        };
        let ghost head: int = if large {
            12
        } else {
            9
        };
        proof {
            assert(r0.rest().skip(4).take(4) =~= r0.rest().subrange(4, 8));
            if large {
                assert(r0.rest().skip(8).take(4) =~= r0.rest().subrange(8, 12));
            } else {
                assert(r0.rest().skip(8)[0] == r0.rest()[8]);
            }
            Reader::lemma_advanced_trans(r0, r1, r2, 4, 4);
            Reader::lemma_advanced_trans(r0, r2, *reader, 8, head - 8);
        }
        let ghost r3 = *reader;
        let file_data_ref = StringInStorageBuffer::parse(reader)?;
        let ghost r4 = *reader;
        let ghost n1 = r4.offset() - r3.offset();
        proof {
            assert(r0.rest().skip(head + n1) =~= r4.rest());
            Reader::lemma_advanced_trans(r0, r3, r4, head, n1);
        }
        let file_ext = StringInStorageBuffer::parse(reader)?;
        proof {
            Reader::lemma_advanced_trans(r0, r4, *reader, head + n1, reader.offset() - r4.offset());
        }
        let data = file_data_ref.data.as_str();
        proof {
            reveal_strlit("<file>");
            reveal_strlit("<ifndf>");
            reveal_strlit("<invfdo>");
        }
        if !(has_prefix(data, "<file>") || has_prefix(data, "<ifndf>") || has_prefix(data, "<invfdo>")) {
            return Err(Error::new(ErrorKind::InvalidFileDataReference));
        }
        Ok(ObjectDeclarationFileDataRefCount { oid, jcid, c_ref, file_data_ref, file_ext })
    }

    /// The object declaration that this node makes: no properties, and
    /// the file reference with its extension as attachment.
    pub fn into_declaration(self) -> (d: ObjectDeclaration)
        ensures
            d.oid == self.oid,
            d.jcid == self.jcid,
            d.props is None,
            d.attachment matches Some(a) && a.data_ref@ == self.file_data_ref.data@ && a.extension@
                == self.file_ext.data@,
    {
        ObjectDeclaration {
            oid: self.oid,
            jcid: self.jcid,
            props: None,
            attachment: Some(
                AttachmentInfo { extension: self.file_ext.data, data_ref: self.file_data_ref.data },
            ),
        }
    }
}

} // verus!
