use crate::errors::{Error, ErrorKind, Result};
use crate::reader::{Reader, eof};
use vstd::prelude::*;

verus! {

/// The unsigned integer that the bytes `s` encode in big-endian order.
pub open spec fn be_uint(s: Seq<u8>) -> nat
    decreases s.len(),
{
    if s.len() == 0 {
        0
    } else {
        be_uint(s.drop_last()) * 256 + s.last() as nat
    }
}

/// The bytes of a GUID stored in Microsoft's mixed-endian layout, put into
/// the big-endian order of RFC 4122: the first three fields are reversed and
/// the last eight bytes are kept.
pub open spec fn mixed_endian_to_be(b: Seq<u8>) -> Seq<u8> {
    seq![b[3], b[2], b[1], b[0], b[5], b[4], b[7], b[6]] + b.subrange(8, 16)
}

/// The value of the GUID that the 16 mixed-endian bytes `b` store.
pub open spec fn guid_value_from_le(b: Seq<u8>) -> u128 {
    be_uint(mixed_endian_to_be(b)) as u128
}

/// What `uuid::Uuid::parse_str` accepts, as the 128-bit value of the UUID.
pub uninterp spec fn uuid_parse_str_value(s: Seq<char>) -> Option<u128>;

/// `uuid::Uuid::from_bytes_le(..).as_u128()`: the value of the UUID whose
/// first three fields are stored little-endian in `data`.
#[verifier::external_body]
fn uuid_from_bytes_le(data: &[u8]) -> (v: u128)
    requires
        data@.len() == 16,
    ensures
        v == guid_value_from_le(data@),
{
    let bytes: [u8; 16] = data.try_into().unwrap();
    uuid::Uuid::from_bytes_le(bytes).as_u128()
}

/// `uuid::Uuid::parse_str(..)` followed by `as_u128`: the value of the UUID
/// written in `s` (simple, hyphenated, braced or URN notation), or nothing
/// when `s` is not a UUID.
#[verifier::external_body]
fn uuid_parse_str(s: &str) -> (r: Option<u128>)
    ensures
        r == uuid_parse_str_value(s@),
{
    uuid::Uuid::parse_str(s).ok().map(|u| u.as_u128())
}

/// A GUID, held as the 128-bit big-endian value of its RFC 4122 bytes.
#[derive(Debug, PartialEq, Eq, Structural, Clone, Copy, Hash)]
pub struct Guid {
    pub value: u128,
}

/// The result of decoding a GUID from the front of `s`, with the number of
/// bytes it takes.
pub open spec fn guid_spec(s: Seq<u8>) -> Result<(Guid, int)> {
    if s.len() < 16 {
        eof()
    } else {
        Ok((Guid { value: guid_value_from_le(s.take(16)) }, 16))
    }
}

impl Guid {
    /// The GUID with the given 128-bit value.
    pub fn from_u128(value: u128) -> (g: Guid)
        ensures
            g.value == value,
    {
        Guid { value }
    }

    /// The all-zero GUID.
    pub fn nil() -> (g: Guid)
        ensures
            g.value == 0,
    {
        Guid { value: 0 }
    }

    /// Whether this is the all-zero GUID.
    pub fn is_nil(&self) -> (b: bool)
        ensures
            b == (self.value == 0),
    {
        self.value == 0
    }

    /// Parses a GUID written as text (for example
    /// `1A5A319C-C26B-41AA-B9C5-9BD8C44E07D4`, optionally in braces).
    pub fn from_str(s: &str) -> (r: Result<Guid>)
        ensures
            match uuid_parse_str_value(s@) {
                Some(v) => r == Ok::<Guid, Error>(Guid { value: v }),
                None => r == Err::<Guid, Error>(Error { kind: ErrorKind::InvalidUuid }),
            },
    {
        match uuid_parse_str(s) {
            Some(v) => Ok(Guid { value: v }),
            None => Err(Error::new(ErrorKind::InvalidUuid)),
        }
    }

    /// Reads a GUID stored in the 16-byte mixed-endian layout.
    pub fn parse(reader: &mut Reader) -> (r: Result<Guid>)
        requires
            old(reader).wf(),
        ensures
            match guid_spec(old(reader).rest()) {
                Ok((g, n)) => r == Ok::<Guid, Error>(g) && final(reader).advanced_from(
                    *old(reader),
                    n,
                ),
                Err(e) => r == Err::<Guid, Error>(e) && *final(reader) == *old(reader),
            },
    {
        let data = reader.read(16)?;
        Ok(Guid { value: uuid_from_bytes_le(data) })
    }
}

} // verus!
