//! Bounds-checked reads over a borrowed byte buffer.
use vstd::prelude::*;
use vstd::bytes::{spec_u16_from_le_bytes, spec_u32_from_le_bytes, spec_u64_from_le_bytes};

use crate::error::ParseError;

verus! {

/// A cursor over `bytes`. Every read checks its range against the buffer;
/// a read that succeeds moves `index` past the bytes it read, a read that
/// fails leaves `index` where it was.
pub struct Reader<'a> {
    pub bytes: &'a [u8],
    pub index: usize,
}

/// The little-endian `u16` at `at` in `b`.
pub open spec fn le_u16(b: Seq<u8>, at: int) -> u16 {
    spec_u16_from_le_bytes(b.subrange(at, at + 2))
}

/// The little-endian `u32` at `at` in `b`.
pub open spec fn le_u32(b: Seq<u8>, at: int) -> u32 {
    spec_u32_from_le_bytes(b.subrange(at, at + 4))
}

/// The little-endian `u64` at `at` in `b`.
pub open spec fn le_u64(b: Seq<u8>, at: int) -> u64 {
    spec_u64_from_le_bytes(b.subrange(at, at + 8))
}

impl<'a> Reader<'a> {
    /// The bytes under the cursor.
    pub open spec fn data(&self) -> Seq<u8> {
        self.bytes@
    }

    /// The position of the cursor.
    pub open spec fn pos(&self) -> int {
        self.index as int
    }

    /// A cursor at the start of `bytes`.
    pub fn from_bytes(bytes: &'a [u8]) -> (r: Self)
        ensures
            r.data() == bytes@,
            r.pos() == 0,
    {
        Reader { bytes, index: 0 }
    }

    /// Moves the cursor to `offset`, which must be a position inside the buffer.
    pub fn seek(&mut self, offset: usize) -> (r: Result<(), ParseError>)
        ensures
            final(self).data() == old(self).data(),
            offset < old(self).data().len() ==> r is Ok && final(self).pos() == offset,
            offset >= old(self).data().len() ==> r == Err::<(), ParseError>(ParseError::OutOfBounds)
                && final(self).pos() == old(self).pos(),
    {
        if offset >= self.bytes.len() {
            return Err(ParseError::OutOfBounds);
        }
        self.index = offset;
        Ok(())
    }

    /// The `size` bytes at the cursor, moving past them.
    pub fn read_slice(&mut self, size: usize) -> (r: Result<&'a [u8], ParseError>)
        ensures
            final(self).data() == old(self).data(),
            old(self).pos() + size <= old(self).data().len() ==> {
                &&& r is Ok
                &&& r->Ok_0@ == old(self).data().subrange(old(self).pos(), old(self).pos() + size)
                &&& final(self).pos() == old(self).pos() + size
            },
            old(self).pos() + size > old(self).data().len() ==> {
                &&& r == Err::<&[u8], ParseError>(ParseError::OutOfBounds)
                &&& final(self).pos() == old(self).pos()
            },
    {
        if size > self.bytes.len() || self.index > self.bytes.len() - size {
            return Err(ParseError::OutOfBounds);
        }
        let end = self.index + size;
        let s = vstd::slice::slice_subrange(self.bytes, self.index, end);
        self.index = end;
        Ok(s)
    }

    /// The bytes of `range`, at positions counted from the start of the buffer.
    /// The cursor does not move.
    pub fn read_slice_from(&self, range: core::ops::Range<usize>) -> (r: Result<&'a [u8], ParseError>)
        ensures
            range.start <= range.end <= self.data().len() ==> {
                &&& r is Ok
                &&& r->Ok_0@ == self.data().subrange(range.start as int, range.end as int)
            },
            !(range.start <= range.end <= self.data().len()) ==> r == Err::<&[u8], ParseError>(
                ParseError::OutOfBounds,
            ),
    {
        if range.start <= range.end && range.end <= self.bytes.len() {
            Ok(vstd::slice::slice_subrange(self.bytes, range.start, range.end))
        } else {
            Err(ParseError::OutOfBounds)
        }
    }

    /// The byte at the cursor, moving past it.
    pub fn read_u8(&mut self) -> (r: Result<u8, ParseError>)
        ensures
            final(self).data() == old(self).data(),
            old(self).pos() + 1 <= old(self).data().len() ==> {
                &&& r == Ok::<u8, ParseError>(old(self).data()[old(self).pos()])
                &&& final(self).pos() == old(self).pos() + 1
            },
            old(self).pos() + 1 > old(self).data().len() ==> {
                &&& r == Err::<u8, ParseError>(ParseError::OutOfBounds)
                &&& final(self).pos() == old(self).pos()
            },
    {
        if self.index >= self.bytes.len() {
            return Err(ParseError::OutOfBounds);
        }
        let v = self.bytes[self.index];
        self.index = self.index + 1;
        Ok(v)
    }

    /// The little-endian `u16` at the cursor, moving past it.
    pub fn read_u16(&mut self) -> (r: Result<u16, ParseError>)
        ensures
            final(self).data() == old(self).data(),
            old(self).pos() + 2 <= old(self).data().len() ==> {
                &&& r == Ok::<u16, ParseError>(le_u16(old(self).data(), old(self).pos()))
                &&& final(self).pos() == old(self).pos() + 2
            },
            old(self).pos() + 2 > old(self).data().len() ==> {
                &&& r == Err::<u16, ParseError>(ParseError::OutOfBounds)
                &&& final(self).pos() == old(self).pos()
            },
    {
        let s = self.read_slice(2)?;
        Ok(vstd::bytes::u16_from_le_bytes(s))
    }

    /// The little-endian `u32` at the cursor, moving past it.
    pub fn read_u32(&mut self) -> (r: Result<u32, ParseError>)
        ensures
            final(self).data() == old(self).data(),
            old(self).pos() + 4 <= old(self).data().len() ==> {
                &&& r == Ok::<u32, ParseError>(le_u32(old(self).data(), old(self).pos()))
                &&& final(self).pos() == old(self).pos() + 4
            },
            old(self).pos() + 4 > old(self).data().len() ==> {
                &&& r == Err::<u32, ParseError>(ParseError::OutOfBounds)
                &&& final(self).pos() == old(self).pos()
            },
    {
        let s = self.read_slice(4)?;
        Ok(vstd::bytes::u32_from_le_bytes(s))
    }

    /// The little-endian `u64` at the cursor, moving past it.
    pub fn read_u64(&mut self) -> (r: Result<u64, ParseError>)
        ensures
            final(self).data() == old(self).data(),
            old(self).pos() + 8 <= old(self).data().len() ==> {
                &&& r == Ok::<u64, ParseError>(le_u64(old(self).data(), old(self).pos()))
                &&& final(self).pos() == old(self).pos() + 8
            },
            old(self).pos() + 8 > old(self).data().len() ==> {
                &&& r == Err::<u64, ParseError>(ParseError::OutOfBounds)
                &&& final(self).pos() == old(self).pos()
            },
    {
        let s = self.read_slice(8)?;
        Ok(vstd::bytes::u64_from_le_bytes(s))
    }
}

} // verus!
