use crate::errors::{Error, ErrorKind, Result};
use crate::guid::{guid_value_from_le, Guid};
use crate::reader::{eof, le_uint, Reader};
use vstd::prelude::*;

verus! {

/// The file format GUID of a revision store file
/// (`{109ADD3F-911B-49F5-A5D0-1791EDC8AED8}`).
pub const REVISION_STORE_FORMAT: u128 = 0x109ADD3F_911B_49F5_A5D0_1791EDC8AED8;

/// The file format GUID of a FSSHTTPB package store file
/// (`{638DE92F-A6D4-4BC1-9A36-B3FC2511A5B7}`).
pub const PACKAGE_STORE_FORMAT: u128 = 0x638DE92F_A6D4_4BC1_9A36_B3FC2511A5B7;

/// The size of the header of a revision store file.
pub const HEADER_SIZE: usize = 1024;

/// A reference to a chunk of a file: its position and size.
///
/// See [MS-ONESTORE] 2.2.4.4.
#[derive(Debug, PartialEq, Eq, Structural, Clone, Copy)]
pub struct FileChunkReference64x32 {
    pub stp: u64,
    pub cb: u32,
}

/// The parts of the header of a revision store file that locate its
/// content.
///
/// See [MS-ONESTORE] 2.3.1.
#[derive(Debug, PartialEq, Eq, Structural, Clone, Copy)]
pub struct OneStoreHeader {
    pub file_type: Guid,
    pub file: Guid,
    pub legacy_file_version: Guid,
    pub file_format: Guid,
    pub fcr_transaction_log: FileChunkReference64x32,
}

/// The GUID stored in the 16 bytes of `s` from `at`.
pub open spec fn guid_at(s: Seq<u8>, at: int) -> Guid {
    Guid { value: guid_value_from_le(s.subrange(at, at + 16)) }
}

/// The header that the first 1024 bytes of `s` hold.
pub open spec fn header_spec(s: Seq<u8>) -> OneStoreHeader {
    OneStoreHeader {
        file_type: guid_at(s, 0),
        file: guid_at(s, 16),
        legacy_file_version: guid_at(s, 32),
        file_format: guid_at(s, 48),
        fcr_transaction_log: FileChunkReference64x32 {
            stp: le_uint(s.subrange(160, 168)) as u64,
            cb: le_uint(s.subrange(168, 172)) as u32,
        },
    }
}

impl OneStoreHeader {
    /// Reads the 1024-byte header of a revision store file.
    pub fn parse(reader: &mut Reader) -> (r: Result<OneStoreHeader>)
        requires
            old(reader).wf(),
        ensures
            old(reader).rest().len() < HEADER_SIZE ==> r == eof::<OneStoreHeader>() && *final(reader)
                == *old(reader),
            old(reader).rest().len() >= HEADER_SIZE ==> r == Ok::<OneStoreHeader, Error>(
                header_spec(old(reader).rest()),
            ) && final(reader).advanced_from(*old(reader), HEADER_SIZE as int),
    {
        let data = reader.read(HEADER_SIZE)?;
        let ghost d = data@;
        let mut fields = Reader::new(data);
        let file_type = Guid::parse(&mut fields)?;
        let file = Guid::parse(&mut fields)?;
        let legacy_file_version = Guid::parse(&mut fields)?;
        let file_format = Guid::parse(&mut fields)?;
        fields.advance(96)?;
        let stp = fields.get_u64()?;
        let cb = fields.get_u32()?;
        proof {
            assert(d.skip(16).take(16) =~= d.subrange(16, 32));
            assert(d.skip(16).skip(16) =~= d.skip(32));
            assert(d.skip(32).take(16) =~= d.subrange(32, 48));
            assert(d.skip(32).skip(16) =~= d.skip(48));
            assert(d.skip(48).take(16) =~= d.subrange(48, 64));
            assert(d.skip(48).skip(16) =~= d.skip(64));
            assert(d.take(16) =~= d.subrange(0, 16));
            assert(d.skip(64).skip(96) =~= d.skip(160));
            assert(d.skip(160).take(8) =~= d.subrange(160, 168));
            assert(d.skip(160).skip(8) =~= d.skip(168));
            assert(d.skip(168).take(4) =~= d.subrange(168, 172));
            assert(d.subrange(160, 168) =~= old(reader).rest().subrange(160, 168));
            assert(d.subrange(168, 172) =~= old(reader).rest().subrange(168, 172));
            assert(d.subrange(0, 16) =~= old(reader).rest().subrange(0, 16));
            assert(d.subrange(16, 32) =~= old(reader).rest().subrange(16, 32));
            assert(d.subrange(32, 48) =~= old(reader).rest().subrange(32, 48));
            assert(d.subrange(48, 64) =~= old(reader).rest().subrange(48, 64));
        }
        Ok(
            OneStoreHeader {
                file_type,
                file,
                legacy_file_version,
                file_format,
                fcr_transaction_log: FileChunkReference64x32 { stp, cb },
            },
        )
    }
}

/// The header of a revision store file at the front of `s` and the end of
/// its transaction log, given that `header_end` bytes were read up to the
/// end of the header.
pub open spec fn header_log_end_spec(s: Seq<u8>, header_end: int) -> Result<(OneStoreHeader, u64)> {
    if s.len() < HEADER_SIZE {
        eof()
    } else {
        let header = header_spec(s);
        let end = header.fcr_transaction_log.stp + header.fcr_transaction_log.cb;
        if end > u64::MAX {
            Err(Error { kind: ErrorKind::TransactionLogOverflow })
        } else if end < header_end {
            Err(Error { kind: ErrorKind::TransactionLogUnderflow })
        } else {
            Ok((header, end as u64))
        }
    }
}

/// Reads the header of a revision store file and gives the end offset of
/// its transaction log; `start` is the number of bytes the reader held when
/// the file began.
pub fn parse_header_log_end(reader: &mut Reader, start: u64) -> (r: Result<(OneStoreHeader, u64)>)
    requires
        old(reader).wf(),
        old(reader).rest().len() >= HEADER_SIZE ==> start + HEADER_SIZE >= old(reader).rest().len(),
    ensures
        r == header_log_end_spec(
            old(reader).rest(),
            start - (old(reader).rest().len() - HEADER_SIZE),
        ),
{
    let header = OneStoreHeader::parse(reader)?;
    let end = match header.fcr_transaction_log.stp.checked_add(header.fcr_transaction_log.cb as u64) {
        Some(e) => e,
        None => {
            return Err(Error::new(ErrorKind::TransactionLogOverflow));
        },
    };
    let read = start - reader.remaining() as u64;
    if end < read {
        return Err(Error::new(ErrorKind::TransactionLogUnderflow));
    }
    Ok((header, end))
}

/// The position of a FSSHTTPB package embedded after the transaction log of
/// a revision store file with a nil legacy file version, if one is there.
pub open spec fn embedded_offset_spec(data: Seq<u8>) -> Option<usize> {
    match header_log_end_spec(data, HEADER_SIZE as int) {
        Err(_) => None,
        Ok((header, end)) => if header.legacy_file_version.value != 0 {
            None
        } else if end > usize::MAX || end + 64 > data.len() {
            None
        } else if guid_at(data, end + 48).value == PACKAGE_STORE_FORMAT {
            Some(end as usize)
        } else {
            None
        },
    }
}

/// The byte offset where a FSSHTTPB packaging structure embedded in a
/// revision store file starts.
///
/// It is looked for where the transaction log ends, in files whose legacy
/// file version is nil, and accepted when the file format GUID found there
/// is the one of a package store.
pub fn embedded_packaging_offset(data: &[u8]) -> (r: Option<usize>)
    ensures
        r == embedded_offset_spec(data@),
{
    let mut reader = Reader::new(data);
    let start = reader.remaining();
    let (header, end) = match parse_header_log_end(&mut reader, start as u64) {
        Ok(x) => x,
        Err(_) => {
            return None;
        },
    };
    if !header.legacy_file_version.is_nil() {
        return None;
    }
    if end > usize::MAX as u64 {
        return None;
    }
    let offset = end as usize;
    if offset > data.len() || data.len() - offset < 64 {
        return None;
    }
    let mut reader = match Reader::new(data).with_updated_bounds(offset, data.len()) {
        Ok(r) => r,
        Err(_) => {
            return None;
        },
    };
    let ghost rest = reader.rest();
    let _file_type = match Guid::parse(&mut reader) {
        Ok(g) => g,
        Err(_) => {
            return None;
        },
    };
    let _file = match Guid::parse(&mut reader) {
        Ok(g) => g,
        Err(_) => {
            return None;
        },
    };
    let _legacy_file_version = match Guid::parse(&mut reader) {
        Ok(g) => g,
        Err(_) => {
            return None;
        },
    };
    let file_format = match Guid::parse(&mut reader) {
        Ok(g) => g,
        Err(_) => {
            return None;
        },
    };
    proof {
        assert(rest =~= data@.skip(offset as int));
        assert(rest.skip(16).skip(16).skip(16).take(16) =~= data@.subrange(
            offset + 48,
            offset + 64,
        ));
    }
    if file_format.value == PACKAGE_STORE_FORMAT {
        Some(offset)
    } else {
        None
    }
}

/// The layout of a OneNote file.
#[derive(Debug, PartialEq, Eq, Structural, Clone, Copy)]
pub enum StoreFormat {
    /// A revision store file of the desktop application.
    Desktop,
    /// A FSSHTTPB package that starts at the given offset.
    FssHttpB { packaging_offset: usize },
}

/// The layout of the file `data`, from its file format and legacy file
/// version GUIDs.
pub open spec fn sniff_spec(data: Seq<u8>) -> Option<StoreFormat> {
    if data.len() < 64 {
        None
    } else {
        let legacy = guid_at(data, 32);
        let format = guid_at(data, 48);
        if format.value == PACKAGE_STORE_FORMAT {
            Some(StoreFormat::FssHttpB { packaging_offset: 0 })
        } else if format.value == REVISION_STORE_FORMAT {
            if legacy.value == 0 {
                match embedded_offset_spec(data) {
                    Some(offset) => Some(StoreFormat::FssHttpB { packaging_offset: offset }),
                    None => Some(StoreFormat::Desktop),
                }
            } else {
                Some(StoreFormat::FssHttpB { packaging_offset: 0 })
            }
        } else {
            None
        }
    }
}

/// Tells a desktop revision store file from a FSSHTTPB package, possibly
/// embedded in a revision store file, by the GUIDs at the front of `data`.
pub fn sniff_store_format(data: &[u8]) -> (r: Option<StoreFormat>)
    ensures
        r == sniff_spec(data@),
{
    let mut reader = Reader::new(data);
    let _file_type = match Guid::parse(&mut reader) {
        Ok(g) => g,
        Err(_) => {
            return None;
        },
    };
    let _file = match Guid::parse(&mut reader) {
        Ok(g) => g,
        Err(_) => {
            return None;
        },
    };
    let legacy_file_version = match Guid::parse(&mut reader) {
        Ok(g) => g,
        Err(_) => {
            return None;
        },
    };
    let file_format = match Guid::parse(&mut reader) {
        Ok(g) => g,
        Err(_) => {
            return None;
        },
    };
    proof {
        assert(data@.skip(16).skip(16).take(16) =~= data@.subrange(32, 48));
        assert(data@.skip(16).skip(16).skip(16).take(16) =~= data@.subrange(48, 64));
    }
    if file_format.value == PACKAGE_STORE_FORMAT {
        return Some(StoreFormat::FssHttpB { packaging_offset: 0 });
    }
    if file_format.value == REVISION_STORE_FORMAT {
        if legacy_file_version.is_nil() {
            if let Some(packaging_offset) = embedded_packaging_offset(data) {
                return Some(StoreFormat::FssHttpB { packaging_offset });
            }
            return Some(StoreFormat::Desktop);
        }
        return Some(StoreFormat::FssHttpB { packaging_offset: 0 });
    }
    None
}

} // verus!
