//! A 64-bit address: a file offset or a virtual address.
use vstd::prelude::*;

use crate::{error::ParseError, reader::{le_u64, Reader}};

verus! {

/// An offset in the file image or a virtual address in the process image.
#[derive(Copy, Clone, PartialEq, Eq, Structural, PartialOrd, Ord, Debug)]
pub struct Addr(pub u64);

/// Failure of address arithmetic.
#[derive(Copy, Clone, PartialEq, Eq, Structural, Debug)]
pub enum Error {
    /// The result does not fit in 64 bits.
    Overflow,
}

impl Addr {
    /// Reads a little-endian 64-bit address at the cursor.
    pub fn parse(reader: &mut Reader) -> (r: Result<Self, ParseError>)
        ensures
            final(reader).data() == old(reader).data(),
            old(reader).pos() + 8 <= old(reader).data().len() ==> {
                &&& r == Ok::<Addr, ParseError>(Addr(le_u64(old(reader).data(), old(reader).pos())))
                &&& final(reader).pos() == old(reader).pos() + 8
            },
            old(reader).pos() + 8 > old(reader).data().len() ==> {
                &&& r == Err::<Addr, ParseError>(ParseError::OutOfBounds)
                &&& final(reader).pos() == old(reader).pos()
            },
    {
        let value = reader.read_u64()?;
        Ok(Self(value))
    }

    /// `self + other`, or `None` where the sum does not fit in 64 bits.
    pub fn checked_add(self, other: Addr) -> (r: Option<Addr>)
        ensures
            r == (if self.0 + other.0 <= u64::MAX {
                Some(Addr((self.0 + other.0) as u64))
            } else {
                None
            }),
    {
        if self.0 <= u64::MAX - other.0 {
            Some(Addr(self.0 + other.0))
        } else {
            None
        }
    }

    /// `self - other`, or `None` where `other` is the larger.
    pub fn checked_sub(self, other: Addr) -> (r: Option<Addr>)
        ensures
            r == (if other.0 <= self.0 {
                Some(Addr((self.0 - other.0) as u64))
            } else {
                None
            }),
    {
        if other.0 <= self.0 {
            Some(Addr(self.0 - other.0))
        } else {
            None
        }
    }

    /// The address as an index into memory, or `None` where it does not fit in `usize`.
    pub fn to_usize(self) -> (r: Option<usize>)
        ensures
            r == (if self.0 <= usize::MAX {
                Some(self.0 as usize)
            } else {
                None
            }),
    {
        if self.0 as u128 <= usize::MAX as u128 {
            Some(self.0 as usize)
        } else {
            None
        }
    }
}

impl From<u64> for Addr {
    fn from(value: u64) -> (r: Addr)
        ensures
            r == Addr(value),
    {
        Addr(value)
    }
}

impl vstd::std_specs::convert::FromSpecImpl<u64> for Addr {
    open spec fn obeys_from_spec() -> bool {
        true
    }

    open spec fn from_spec(v: u64) -> Addr {
        Addr(v)
    }
}

impl From<Addr> for u64 {
    fn from(value: Addr) -> (r: u64)
        ensures
            r == value.0,
    {
        value.0
    }
}

impl vstd::std_specs::convert::FromSpecImpl<Addr> for u64 {
    open spec fn obeys_from_spec() -> bool {
        true
    }

    open spec fn from_spec(v: Addr) -> u64 {
        v.0
    }
}

} // verus!
