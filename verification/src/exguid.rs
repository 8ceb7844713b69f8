use crate::compact::{CompactU64, compact_u64_spec};
use crate::errors::{Error, ErrorKind, Result};
use crate::guid::{Guid, guid_spec};
use crate::reader::{Reader, eof, le_uint};
use vstd::prelude::*;

verus! {

/// A GUID extended with a 32-bit value.
///
/// See [MS-FSSHTTPB] 2.2.1.7.
#[derive(Debug, PartialEq, Eq, Structural, Clone, Copy, Hash)]
pub struct ExGuid {
    pub guid: Guid,
    pub value: u32,
}

/// The extended GUID whose GUID and value are both zero.
pub open spec fn nil_exguid() -> ExGuid {
    ExGuid { guid: Guid { value: 0 }, value: 0 }
}

/// The extended GUID with the given value whose GUID follows the `k` bytes
/// of its header in `s`.
pub open spec fn exguid_with_guid_spec(s: Seq<u8>, k: int, value: u32) -> Result<(ExGuid, int)> {
    match guid_spec(s.skip(k)) {
        Ok((g, n)) => Ok((ExGuid { guid: g, value }, k + n)),
        Err(e) => Err(e),
    }
}

/// The 10-bit value of an extended GUID whose header bytes are `first` and
/// `second`.
pub open spec fn exguid_value_10(first: u8, second: u8) -> u32 {
    ((((second as u16) << 2u16) | ((first >> 6u8) as u16)) as u32)
}

/// The 17-bit value of an extended GUID whose first header byte is `first`
/// and whose next two bytes hold the little-endian `rest`.
pub open spec fn exguid_value_17(first: u8, rest: u16) -> u32 {
    ((rest as u32) << 1u32) | ((first >> 7u8) as u32)
}

/// The result of decoding an extended GUID from the front of `s`, with the
/// number of bytes it takes.
#[verifier::opaque]
pub open spec fn exguid_spec(s: Seq<u8>) -> Result<(ExGuid, int)> {
    if s.len() == 0 {
        eof()
    } else {
        let data = s[0];
        if data == 0 {
            Ok((nil_exguid(), 1))
        } else if data & 0b111 == 4 {
            exguid_with_guid_spec(s, 1, (data >> 3u8) as u32)
        } else if data & 0b111111 == 32 {
            if s.len() < 2 {
                eof()
            } else {
                exguid_with_guid_spec(s, 2, exguid_value_10(data, s[1]))
            }
        } else if data & 0b1111111 == 64 {
            if s.len() < 3 {
                eof()
            } else {
                exguid_with_guid_spec(s, 3, exguid_value_17(data, le_uint(s.subrange(1, 3)) as u16))
            }
        } else if data == 128 {
            if s.len() < 5 {
                eof()
            } else {
                exguid_with_guid_spec(s, 5, le_uint(s.subrange(1, 5)) as u32)
            }
        } else {
            Err(Error { kind: ErrorKind::InvalidExGuidTag { first_byte: data } })
        }
    }
}

/// The result of decoding `count` extended GUIDs one after another from the
/// front of `s`, with the number of bytes they take.
pub open spec fn exguid_seq_spec(s: Seq<u8>, count: nat) -> Result<(Seq<ExGuid>, int)>
    decreases count,
{
    if count == 0 {
        Ok((seq![], 0))
    } else {
        match exguid_seq_spec(s, (count - 1) as nat) {
            Ok((values, n)) => match exguid_spec(s.skip(n)) {
                Ok((g, m)) => Ok((values.push(g), n + m)),
                Err(e) => Err(e),
            },
            Err(e) => Err(e),
        }
    }
}

/// The result of decoding an array of extended GUIDs (a compact count
/// followed by that many extended GUIDs) from the front of `s`.
pub open spec fn exguid_array_spec(s: Seq<u8>) -> Result<(Seq<ExGuid>, int)> {
    match compact_u64_spec(s) {
        Ok((count, k)) => match exguid_seq_spec(s.skip(k), count as nat) {
            Ok((values, n)) => Ok((values, k + n)),
            Err(e) => Err(e),
        },
        Err(e) => Err(e),
    }
}

/// Once decoding a run of extended GUIDs fails, decoding a longer run
/// fails in the same way.
proof fn lemma_exguid_seq_err_persists(s: Seq<u8>, i: nat, count: nat)
    requires
        i <= count,
        exguid_seq_spec(s, i) is Err,
    ensures
        exguid_seq_spec(s, count) == exguid_seq_spec(s, i),
    decreases count,
{
    if count > i {
        lemma_exguid_seq_err_persists(s, i, (count - 1) as nat);
    }
}

/// The extended GUID at the front of `s` in its fixed layout: the 16 bytes
/// of a GUID, then a little-endian 32-bit value; with the 20 bytes it takes.
///
/// See [MS-ONESTORE] 2.2.1.
pub open spec fn exguid_fixed_spec(s: Seq<u8>) -> Result<(ExGuid, int)> {
    if s.len() < 20 {
        eof()
    } else {
        match guid_spec(s) {
            Ok((g, _)) => Ok((ExGuid { guid: g, value: le_uint(s.subrange(16, 20)) as u32 }, 20)),
            Err(e) => Err(e),
        }
    }
}

impl ExGuid {
    /// Whether both the GUID and the value are zero.
    pub fn is_nil(&self) -> (b: bool)
        ensures
            b == (*self == nil_exguid()),
    {
        self.guid.is_nil() && self.value == 0
    }

    /// `None` for the nil extended GUID, else the extended GUID itself.
    pub fn as_option(&self) -> (r: Option<ExGuid>)
        ensures
            r == (if *self == nil_exguid() {
                None
            } else {
                Some(*self)
            }),
    {
        if self.is_nil() {
            None
        } else {
            Some(*self)
        }
    }

    /// The extended GUID made of `guid` and `value`.
    pub fn from_guid(guid: Guid, value: u32) -> (r: ExGuid)
        ensures
            r == (ExGuid { guid, value }),
    {
        ExGuid { guid, value }
    }

    /// Reads the GUID of an extended GUID whose header took `k` bytes.
    fn parse_guid_part(reader: &mut Reader, value: u32, Ghost(start): Ghost<Reader>, Ghost(k): Ghost<int>) -> (r: Result<ExGuid>)
        requires
            old(reader).wf(),
            start.wf(),
            old(reader).advanced_from(start, k),
            k >= 0,
        ensures
            match exguid_with_guid_spec(start.rest(), k, value) {
                Ok((g, n)) => r == Ok::<ExGuid, Error>(g) && final(reader).advanced_from(start, n),
                Err(e) => r == Err::<ExGuid, Error>(e),
            },
    {
        let ghost before = *reader;
        let guid = Guid::parse(reader)?;
        proof {
            Reader::lemma_advanced_trans(start, before, *reader, k, 16);
        }
        Ok(ExGuid { guid, value })
    }

    /// Reads an extended GUID in its variable-width encoding.
    pub fn parse(reader: &mut Reader) -> (r: Result<ExGuid>)
        requires
            old(reader).wf(),
        ensures
            match exguid_spec(old(reader).rest()) {
                Ok((g, n)) => r == Ok::<ExGuid, Error>(g) && final(reader).advanced_from(*old(reader), n),
                Err(e) => r == Err::<ExGuid, Error>(e),
            },
    {
        let ghost start = *reader;
        let ghost s = start.rest();
        proof {
            reveal(exguid_spec);
        }
        let data = reader.get_u8()?;
        if data == 0 {
            return Ok(ExGuid { guid: Guid::nil(), value: 0 });
        }
        if data & 0b111 == 4 {
            return Self::parse_guid_part(reader, (data >> 3) as u32, Ghost(start), Ghost(1));
        }
        if data & 0b111111 == 32 {
            let ghost mid = *reader;
            let second = reader.get_u8()?;
            let value = (second as u16) << 2 | (data >> 6) as u16;
            proof {
                Reader::lemma_advanced_trans(start, mid, *reader, 1, 1);
                assert(value as u32 == exguid_value_10(data, s[1]));
            }
            return Self::parse_guid_part(reader, value as u32, Ghost(start), Ghost(2));
        }
        if data & 0b1111111 == 64 {
            let ghost mid = *reader;
            let rest = reader.get_u16()?;
            let value = (rest as u32) << 1 | (data >> 7) as u32;
            proof {
                Reader::lemma_advanced_trans(start, mid, *reader, 1, 2);
                assert(s.skip(1).take(2) =~= s.subrange(1, 3));
            }
            return Self::parse_guid_part(reader, value, Ghost(start), Ghost(3));
        }
        if data == 128 {
            let ghost mid = *reader;
            let value = reader.get_u32()?;
            proof {
                Reader::lemma_advanced_trans(start, mid, *reader, 1, 4);
                assert(s.skip(1).take(4) =~= s.subrange(1, 5));
            }
            return Self::parse_guid_part(reader, value, Ghost(start), Ghost(5));
        }
        Err(Error::new(ErrorKind::InvalidExGuidTag { first_byte: data }))
    }

    /// Reads an extended GUID in its fixed layout: a GUID, then a 32-bit
    /// value.
    ///
    /// See [MS-ONESTORE] 2.2.1.
    pub fn parse_fixed(reader: &mut Reader) -> (r: Result<ExGuid>)
        requires
            old(reader).wf(),
        ensures
            match exguid_fixed_spec(old(reader).rest()) {
                Ok((g, n)) => r == Ok::<ExGuid, Error>(g) && final(reader).advanced_from(*old(reader), n),
                Err(e) => r == Err::<ExGuid, Error>(e),
            },
    {
        let ghost r0 = *reader;
        let guid = Guid::parse(reader)?;
        let ghost r1 = *reader;
        let value = reader.get_u32()?;
        proof {
            assert(r0.rest().skip(16).take(4) =~= r0.rest().subrange(16, 20));
            Reader::lemma_advanced_trans(r0, r1, *reader, 16, 4);
        }
        Ok(ExGuid { guid, value })
    }

    /// Reads an array of extended GUIDs: a compact count, then that many
    /// extended GUIDs.
    ///
    /// See [MS-FSSHTTPB] 2.2.1.8.
    pub fn parse_array(reader: &mut Reader) -> (r: Result<Vec<ExGuid>>)
        requires
            old(reader).wf(),
        ensures
            match exguid_array_spec(old(reader).rest()) {
                Ok((values, n)) => r matches Ok(v) && v@ == values && final(reader).advanced_from(*old(reader), n),
                Err(e) => r == Err::<Vec<ExGuid>, Error>(e),
            },
    {
        let ghost start = *reader;
        let count = CompactU64::parse(reader)?.value();
        let ghost after_count = *reader;
        let ghost k = after_count.offset() - start.offset();
        assert(compact_u64_spec(start.rest()) == Ok::<(u64, int), Error>((count, k)));
        let ghost s = after_count.rest();
        let mut values: Vec<ExGuid> = Vec::new();
        let mut i: u64 = 0;
        let ghost mut consumed: int = 0;
        proof {
            Reader::lemma_advanced_refl(after_count);
        }
        while i < count
            invariant
                0 <= i <= count,
                after_count.wf(),
                consumed >= 0,
                exguid_seq_spec(s, i as nat) == Ok::<(Seq<ExGuid>, int), Error>((values@, consumed)),
                reader.advanced_from(after_count, consumed),
                s == after_count.rest(),
                start.wf(),
                start == *old(reader),
                after_count.advanced_from(start, k),
                compact_u64_spec(start.rest()) == Ok::<(u64, int), Error>((count, k)),
            decreases count - i,
        {
            let ghost before = *reader;
            let g = ExGuid::parse(reader);
            match g {
                Ok(g) => {
                    proof {
                        let m = reader.offset() - before.offset();
                        Reader::lemma_advanced_trans(after_count, before, *reader, consumed, m);
                        consumed = consumed + m;
                    }
                    values.push(g);
                    i = i + 1;
                },
                Err(e) => {
                    proof {
                        assert(exguid_seq_spec(s, (i + 1) as nat) == Err::<(Seq<ExGuid>, int), Error>(e));
                        lemma_exguid_seq_err_persists(s, (i + 1) as nat, count as nat);
                        assert(start.rest().skip(k) == s);
                        assert(exguid_seq_spec(s, count as nat) == Err::<(Seq<ExGuid>, int), Error>(e));
                        assert(exguid_array_spec(start.rest()) == Err::<(Seq<ExGuid>, int), Error>(e));
                    }
                    return Err(e);
                },
            }
        }
        proof {
            let n = s.len() - reader.rest().len();
            Reader::lemma_advanced_trans(start, after_count, *reader, k, n);
        }
        Ok(values)
    }
}

impl Default for ExGuid {
    /// The nil extended GUID.
    fn default() -> (r: ExGuid)
        ensures
            r == nil_exguid(),
    {
        ExGuid { guid: Guid::nil(), value: 0 }
    }
}

/// A cell identifier: a pair of extended GUIDs.
///
/// See [MS-FSSHTTPB] 2.2.1.10.
#[derive(Debug, PartialEq, Eq, Structural, Clone, Copy, Hash)]
pub struct CellId(pub ExGuid, pub ExGuid);

} // verus!
