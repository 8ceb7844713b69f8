use crate::errors::{Error, ErrorKind, Result};
use crate::reader::{Reader, buf_try_get_uint_le, eof, le_uint};
use vstd::prelude::*;

verus! {

/// A compact encoding of a 64-bit unsigned integer.
///
/// See [MS-FSSHTTPB] 2.2.1.1: the position of the lowest set bit of the
/// first byte gives the width of the encoding.
#[derive(Debug, PartialEq, Eq, Structural, Clone, Copy)]
pub struct CompactU64(pub u64);

/// The value of a `width`-byte compact integer at the front of `s`: its
/// little-endian bytes with the `width` tag bits shifted out.
pub open spec fn compact_width_spec(s: Seq<u8>, width: int) -> Result<(u64, int)> {
    if s.len() < width {
        eof()
    } else {
        Ok(((le_uint(s.take(width)) as u64) >> (width as u64), width))
    }
}

/// The result of decoding a compact 64-bit integer from the front of `s`,
/// with the number of bytes it takes.
#[verifier::opaque]
pub open spec fn compact_u64_spec(s: Seq<u8>) -> Result<(u64, int)> {
    if s.len() == 0 {
        eof()
    } else {
        let b = s[0];
        if b == 0 {
            Ok((0, 1))
        } else if b & 1 != 0 {
            compact_width_spec(s, 1)
        } else if b & 2 != 0 {
            compact_width_spec(s, 2)
        } else if b & 4 != 0 {
            compact_width_spec(s, 3)
        } else if b & 8 != 0 {
            compact_width_spec(s, 4)
        } else if b & 16 != 0 {
            compact_width_spec(s, 5)
        } else if b & 32 != 0 {
            compact_width_spec(s, 6)
        } else if b & 64 != 0 {
            compact_width_spec(s, 7)
        } else if b & 128 != 0 {
            if s.len() < 9 {
                eof()
            } else {
                Ok((le_uint(s.subrange(1, 9)) as u64, 9))
            }
        } else {
            Err(Error { kind: ErrorKind::InvalidCompactU64Tag { first_byte: b } })
        }
    }
}

/// Reads a `width`-byte compact integer.
fn parse_compact_width(reader: &mut Reader, width: usize) -> (r: Result<u64>)
    requires
        old(reader).wf(),
        1 <= width <= 7,
    ensures
        match compact_width_spec(old(reader).rest(), width as int) {
            Ok((v, n)) => r == Ok::<u64, Error>(v) && final(reader).advanced_from(*old(reader), n),
            Err(e) => r == Err::<u64, Error>(e),
        },
{
    match buf_try_get_uint_le(reader.bytes(), width) {
        Some(v) => {
            reader.advance(width)?;
            Ok(v >> (width as u64))
        },
        None => Err(Error::new(ErrorKind::UnexpectedEof)),
    }
}

impl CompactU64 {
    /// The integer value.
    pub fn value(&self) -> (v: u64)
        ensures
            v == self.0,
    {
        self.0
    }

    /// Reads a compact 64-bit integer.
    pub fn parse(reader: &mut Reader) -> (r: Result<CompactU64>)
        requires
            old(reader).wf(),
        ensures
            match compact_u64_spec(old(reader).rest()) {
                Ok((v, n)) => r == Ok::<CompactU64, Error>(CompactU64(v)) && final(reader).advanced_from(*old(reader), n),
                Err(e) => r == Err::<CompactU64, Error>(e),
            },
    {
        proof {
            reveal(compact_u64_spec);
        }
        let bytes = reader.bytes();
        if bytes.len() == 0 {
            return Err(Error::new(ErrorKind::UnexpectedEof));
        }
        let b = bytes[0];
        if b == 0 {
            reader.advance(1)?;
            return Ok(CompactU64(0));
        }
        let width: usize = if b & 1 != 0 {
            1
        } else if b & 2 != 0 {
            2
        } else if b & 4 != 0 {
            3
        } else if b & 8 != 0 {
            4
        } else if b & 16 != 0 {
            5
        } else if b & 32 != 0 {
            6
        } else if b & 64 != 0 {
            7
        } else if b & 128 != 0 {
            reader.advance(1)?;
            let ghost mid = *reader;
            let v = reader.get_u64()?;
            proof {
                assert(old(reader).rest().skip(1).take(8) =~= old(reader).rest().subrange(1, 9));
                Reader::lemma_advanced_trans(*old(reader), mid, *reader, 1, 8);
            }
            return Ok(CompactU64(v));
        } else {
            return Err(Error::new(ErrorKind::InvalidCompactU64Tag { first_byte: b }));
        };
        let v = parse_compact_width(reader, width)?;
        Ok(CompactU64(v))
    }
}

/// A compact reference to an extended GUID: an index into a global
/// identification table and a 8-bit value.
///
/// See [MS-ONESTORE] 2.2.2.
#[derive(Debug, PartialEq, Eq, Structural, Clone, Copy, Hash)]
pub struct CompactId {
    pub n: u8,
    pub guid_index: u32,
}

/// The compact ID that the 32-bit word `data` packs: its low byte is `n`,
/// its upper 24 bits the GUID index.
pub open spec fn compact_id_from_word(data: u32) -> CompactId {
    CompactId { n: (data & 0xff) as u8, guid_index: data >> 8 }
}

impl CompactId {
    /// Reads a compact ID from a little-endian 32-bit word.
    pub fn parse(reader: &mut Reader) -> (r: Result<CompactId>)
        requires
            old(reader).wf(),
        ensures
            old(reader).rest().len() < 4 ==> r == eof::<CompactId>(),
            old(reader).rest().len() >= 4 ==> r == Ok::<CompactId, Error>(
                compact_id_from_word(le_uint(old(reader).rest().take(4)) as u32),
            ) && final(reader).advanced_from(*old(reader), 4),
    {
        let data = reader.get_u32()?;
        Ok(CompactId { n: (data & 0xff) as u8, guid_index: data >> 8 })
    }
}

} // verus!
