use crate::errors::{Error, ErrorKind, Result};
use vstd::prelude::*;
use vstd::slice::slice_subrange;

verus! {

/// The unsigned integer that the bytes `s` encode in little-endian order.
pub open spec fn le_uint(s: Seq<u8>) -> nat
    decreases s.len(),
{
    if s.len() == 0 {
        0
    } else {
        s[0] as nat + 256 * le_uint(s.drop_first())
    }
}

/// `bytes::Buf::try_get_u16_le` on a byte slice: the first two bytes as a
/// little-endian integer, or nothing when fewer than two bytes remain.
#[verifier::external_body]
fn buf_try_get_u16_le(data: &[u8]) -> (r: Option<u16>)
    ensures
        data@.len() < 2 ==> r is None,
        data@.len() >= 2 ==> r == Some(le_uint(data@.take(2)) as u16),
{
    let mut buf = data;
    bytes::Buf::try_get_u16_le(&mut buf).ok()
}

/// `bytes::Buf::try_get_u32_le` on a byte slice: the first four bytes as a
/// little-endian integer, or nothing when fewer than four bytes remain.
#[verifier::external_body]
fn buf_try_get_u32_le(data: &[u8]) -> (r: Option<u32>)
    ensures
        data@.len() < 4 ==> r is None,
        data@.len() >= 4 ==> r == Some(le_uint(data@.take(4)) as u32),
{
    let mut buf = data;
    bytes::Buf::try_get_u32_le(&mut buf).ok()
}

/// `bytes::Buf::try_get_u64_le` on a byte slice: the first eight bytes as a
/// little-endian integer, or nothing when fewer than eight bytes remain.
#[verifier::external_body]
fn buf_try_get_u64_le(data: &[u8]) -> (r: Option<u64>)
    ensures
        data@.len() < 8 ==> r is None,
        data@.len() >= 8 ==> r == Some(le_uint(data@.take(8)) as u64),
{
    let mut buf = data;
    bytes::Buf::try_get_u64_le(&mut buf).ok()
}

/// `bytes::Buf::try_get_u128_le` on a byte slice: the first sixteen bytes as
/// a little-endian integer, or nothing when fewer than sixteen bytes remain.
#[verifier::external_body]
fn buf_try_get_u128_le(data: &[u8]) -> (r: Option<u128>)
    ensures
        data@.len() < 16 ==> r is None,
        data@.len() >= 16 ==> r == Some(le_uint(data@.take(16)) as u128),
{
    let mut buf = data;
    bytes::Buf::try_get_u128_le(&mut buf).ok()
}

/// `bytes::Buf::try_get_uint_le`: the first `nbytes` bytes as a
/// little-endian integer, or nothing when fewer bytes remain.
#[verifier::external_body]
pub(crate) fn buf_try_get_uint_le(data: &[u8], nbytes: usize) -> (r: Option<u64>)
    requires
        nbytes <= 8,
    ensures
        data@.len() < nbytes ==> r is None,
        data@.len() >= nbytes ==> r == Some(le_uint(data@.take(nbytes as int)) as u64),
{
    let mut buf = data;
    bytes::Buf::try_get_uint_le(&mut buf, nbytes).ok()
}

/// The result of running out of input.
pub open spec fn eof<T>() -> Result<T> {
    Err(Error { kind: ErrorKind::UnexpectedEof })
}

/// A cursor over a window `[offset, limit)` of a byte buffer.
///
/// The window can be moved anywhere inside the buffer with
/// [`Reader::with_updated_bounds`]; reads consume bytes from its front.
#[derive(Clone, Copy)]
pub struct Reader<'a> {
    original: &'a [u8],
    start: usize,
    end: usize,
}

impl<'a> Reader<'a> {
    /// The whole buffer that the reader was created over.
    pub closed spec fn source(&self) -> Seq<u8> {
        self.original@
    }

    /// The absolute position of the next byte to be read.
    pub closed spec fn offset(&self) -> int {
        self.start as int
    }

    /// The absolute position at which the readable window ends.
    pub closed spec fn limit(&self) -> int {
        self.end as int
    }

    /// The window lies inside the buffer.
    pub open spec fn wf(&self) -> bool {
        0 <= self.offset() <= self.limit() <= self.source().len()
    }

    /// The bytes that are left to read.
    pub open spec fn rest(&self) -> Seq<u8> {
        self.source().subrange(self.offset(), self.limit())
    }

    /// The reader advanced by `n` bytes, with the same buffer and limit.
    pub open spec fn advanced_from(&self, old: Reader<'a>, n: int) -> bool {
        &&& self.source() == old.source()
        &&& self.limit() == old.limit()
        &&& n >= 0
        &&& self.offset() == old.offset() + n
        &&& self.wf()
        &&& self.rest() == old.rest().skip(n)
    }

    /// Two consecutive advances add up.
    pub proof fn lemma_advanced_trans(a: Reader<'a>, b: Reader<'a>, c: Reader<'a>, n: int, m: int)
        requires
            b.advanced_from(a, n),
            c.advanced_from(b, m),
        ensures
            c.advanced_from(a, n + m),
    {
        assert(a.rest().skip(n).skip(m) =~= a.rest().skip(n + m));
    }

    /// The position of a reader counts the bytes consumed since an earlier
    /// state of it, and stays inside its window and its buffer: after `c`
    /// bytes read or skipped from a reader at offset `s`, the absolute
    /// offset is `s + c`, and `c` is at most what remained to be read.
    pub proof fn law_offset_counts_consumed_bytes(start: Reader<'a>, now: Reader<'a>, c: int)
        requires
            start.wf(),
            now.advanced_from(start, c),
        ensures
            now.offset() == start.offset() + c,
            0 <= c <= start.rest().len(),
            now.offset() <= now.limit() <= now.source().len(),
            now.source() == start.source(),
    {
    }

    /// A reader has advanced by zero bytes from itself.
    pub proof fn lemma_advanced_refl(a: Reader<'a>)
        requires
            a.wf(),
        ensures
            a.advanced_from(a, 0),
    {
        assert(a.rest().skip(0) =~= a.rest());
    }

    /// A reader over the whole of `data`.
    pub fn new(data: &'a [u8]) -> (r: Reader<'a>)
        ensures
            r.wf(),
            r.source() == data@,
            r.offset() == 0,
            r.limit() == data@.len(),
            r.rest() == data@,
    {
        let r = Reader { original: data, start: 0, end: data.len() };
        assert(r.rest() =~= data@);
        r
    }

    /// The number of bytes that are left to read.
    pub fn remaining(&self) -> (n: usize)
        requires
            self.wf(),
        ensures
            n == self.rest().len(),
    {
        self.end - self.start
    }

    /// The bytes that are left to read, without consuming them.
    pub fn bytes(&self) -> (b: &'a [u8])
        requires
            self.wf(),
        ensures
            b@ == self.rest(),
    {
        slice_subrange(self.original, self.start, self.end)
    }

    /// A reader over the same buffer at the same position, whose window
    /// reaches the end of the buffer whatever bound this one has.
    pub fn clone_at_position(&self) -> (r: Reader<'a>)
        requires
            self.wf(),
        ensures
            r.wf(),
            r.source() == self.source(),
            r.offset() == self.offset(),
            r.limit() == self.source().len(),
    {
        Reader { original: self.original, start: self.start, end: self.original.len() }
    }

    /// The absolute position of the next byte to be read within the buffer.
    pub fn absolute_offset(&self) -> (n: usize)
        requires
            self.wf(),
        ensures
            n == self.offset(),
    {
        self.start
    }

    /// Consumes `cnt` bytes and hands them out; fails with
    /// [`ErrorKind::UnexpectedEof`] and consumes nothing when fewer remain.
    pub fn read(&mut self, cnt: usize) -> (r: Result<&'a [u8]>)
        requires
            old(self).wf(),
        ensures
            cnt > old(self).rest().len() ==> r == eof::<&'a [u8]>() && *final(self) == *old(self),
            cnt <= old(self).rest().len() ==> (r matches Ok(data) && data@ == old(self).rest().take(cnt as int) && final(self).advanced_from(*old(self), cnt as int)),
    {
        if self.end - self.start < cnt {
            return Err(Error::new(ErrorKind::UnexpectedEof));
        }
        let data = slice_subrange(self.original, self.start, self.start + cnt);
        proof {
            assert(data@ =~= self.rest().take(cnt as int));
        }
        let ghost old_rest = self.rest();
        self.start = self.start + cnt;
        assert(self.rest() =~= old_rest.skip(cnt as int));
        Ok(data)
    }

    /// Skips `count` bytes; fails with [`ErrorKind::UnexpectedEof`] and skips
    /// nothing when fewer remain.
    pub fn advance(&mut self, count: usize) -> (r: Result<()>)
        requires
            old(self).wf(),
        ensures
            count > old(self).rest().len() ==> r == eof::<()>() && *final(self) == *old(self),
            count <= old(self).rest().len() ==> r is Ok && final(self).advanced_from(
                *old(self),
                count as int,
            ),
    {
        if self.end - self.start < count {
            return Err(Error::new(ErrorKind::UnexpectedEof));
        }
        let ghost old_rest = self.rest();
        self.start = self.start + count;
        assert(self.rest() =~= old_rest.skip(count as int));
        Ok(())
    }

    /// A reader over `[start, end)` of the same buffer.
    ///
    /// Fails with [`ErrorKind::UnexpectedEof`] when either bound lies past the
    /// end of the buffer.
    pub fn with_updated_bounds(&self, start: usize, end: usize) -> (r: Result<Reader<'a>>)
        requires
            self.wf(),
            start <= self.source().len() && end <= self.source().len() ==> start <= end,
        ensures
            start > self.source().len() || end > self.source().len() ==> r == eof::<Reader<'a>>(),
            start <= self.source().len() && end <= self.source().len() ==> (r matches Ok(n) && n.wf()
                && n.source() == self.source() && n.offset() == start && n.limit() == end),
    {
        if start > self.original.len() {
            return Err(Error::new(ErrorKind::UnexpectedEof));
        }
        if end > self.original.len() {
            return Err(Error::new(ErrorKind::UnexpectedEof));
        }
        Ok(Reader { original: self.original, start, end })
    }

    /// Reads one byte.
    pub fn get_u8(&mut self) -> (r: Result<u8>)
        requires
            old(self).wf(),
        ensures
            old(self).rest().len() < 1 ==> r == eof::<u8>() && *final(self) == *old(self),
            old(self).rest().len() >= 1 ==> r == Ok::<u8, Error>(old(self).rest()[0]) && final(self).advanced_from(*old(self), 1),
    {
        if self.start >= self.end {
            return Err(Error::new(ErrorKind::UnexpectedEof));
        }
        let b = self.original[self.start];
        let ghost old_rest = self.rest();
        self.start = self.start + 1;
        assert(self.rest() =~= old_rest.skip(1));
        Ok(b)
    }

    /// Reads a little-endian `u16`.
    pub fn get_u16(&mut self) -> (r: Result<u16>)
        requires
            old(self).wf(),
        ensures
            old(self).rest().len() < 2 ==> r == eof::<u16>() && *final(self) == *old(self),
            old(self).rest().len() >= 2 ==> r == Ok::<u16, Error>(
                le_uint(old(self).rest().take(2)) as u16,
            ) && final(self).advanced_from(*old(self), 2),
    {
        match buf_try_get_u16_le(self.bytes()) {
            Some(v) => {
                let ghost old_rest = self.rest();
                self.start = self.start + 2;
                assert(self.rest() =~= old_rest.skip(2));
                Ok(v)
            },
            None => Err(Error::new(ErrorKind::UnexpectedEof)),
        }
    }

    /// Reads a little-endian `u32`.
    pub fn get_u32(&mut self) -> (r: Result<u32>)
        requires
            old(self).wf(),
        ensures
            old(self).rest().len() < 4 ==> r == eof::<u32>() && *final(self) == *old(self),
            old(self).rest().len() >= 4 ==> r == Ok::<u32, Error>(
                le_uint(old(self).rest().take(4)) as u32,
            ) && final(self).advanced_from(*old(self), 4),
    {
        match buf_try_get_u32_le(self.bytes()) {
            Some(v) => {
                let ghost old_rest = self.rest();
                self.start = self.start + 4;
                assert(self.rest() =~= old_rest.skip(4));
                Ok(v)
            },
            None => Err(Error::new(ErrorKind::UnexpectedEof)),
        }
    }

    /// Reads a little-endian `u64`.
    pub fn get_u64(&mut self) -> (r: Result<u64>)
        requires
            old(self).wf(),
        ensures
            old(self).rest().len() < 8 ==> r == eof::<u64>() && *final(self) == *old(self),
            old(self).rest().len() >= 8 ==> r == Ok::<u64, Error>(
                le_uint(old(self).rest().take(8)) as u64,
            ) && final(self).advanced_from(*old(self), 8),
    {
        match buf_try_get_u64_le(self.bytes()) {
            Some(v) => {
                let ghost old_rest = self.rest();
                self.start = self.start + 8;
                assert(self.rest() =~= old_rest.skip(8));
                Ok(v)
            },
            None => Err(Error::new(ErrorKind::UnexpectedEof)),
        }
    }

    /// Reads a little-endian `u128`.
    pub fn get_u128(&mut self) -> (r: Result<u128>)
        requires
            old(self).wf(),
        ensures
            old(self).rest().len() < 16 ==> r == eof::<u128>() && *final(self) == *old(self),
            old(self).rest().len() >= 16 ==> r == Ok::<u128, Error>(
                le_uint(old(self).rest().take(16)) as u128,
            ) && final(self).advanced_from(*old(self), 16),
    {
        match buf_try_get_u128_le(self.bytes()) {
            Some(v) => {
                let ghost old_rest = self.rest();
                self.start = self.start + 16;
                assert(self.rest() =~= old_rest.skip(16));
                Ok(v)
            },
            None => Err(Error::new(ErrorKind::UnexpectedEof)),
        }
    }
}

} // verus!
