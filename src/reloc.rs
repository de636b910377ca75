//! Relocation records with an explicit addend.
use vstd::prelude::*;

use crate::{
    addr::Addr,
    error::{ParseError, SegmentError},
    reader::{le_u32, le_u64, Reader},
};

verus! {

/// A relocation record with an explicit addend.
#[derive(Copy, Clone, PartialEq, Eq, Structural, Debug)]
pub struct Rela {
    /// Where the relocation applies: for executables and shared objects, a
    /// virtual address.
    pub r_offset: Addr,
    /// The kind of relocation to apply.
    pub r_type: RelType,
    /// Index of the symbol the relocation refers to.
    pub r_sym: u32,
    /// Constant addend used to compute the stored value.
    pub r_addend: i64,
}

/// The known relocation kinds.
#[derive(Copy, Clone, PartialEq, Eq, Structural, Debug)]
pub enum RelType {
    /// No relocation.
    Null,
    W64,
    Pc32,
    Got32,
    Plt32,
    Copy,
    GlobDat,
    JumpSlot,
    Relative,
}

/// A relocation kind outside the known set.
#[derive(Copy, Clone, PartialEq, Eq, Structural, Debug)]
pub enum Error {
    InvalidRelocationType(u32),
}

/// The relocation kind that `value` encodes, if any.
pub open spec fn rel_type_spec(value: u32) -> Result<RelType, Error> {
    if value == 0 {
        Ok(RelType::Null)
    } else if value == 1 {
        Ok(RelType::W64)
    } else if value == 2 {
        Ok(RelType::Pc32)
    } else if value == 3 {
        Ok(RelType::Got32)
    } else if value == 4 {
        Ok(RelType::Plt32)
    } else if value == 5 {
        Ok(RelType::Copy)
    } else if value == 6 {
        Ok(RelType::GlobDat)
    } else if value == 7 {
        Ok(RelType::JumpSlot)
    } else if value == 8 {
        Ok(RelType::Relative)
    } else {
        Err(Error::InvalidRelocationType(value))
    }
}

/// The record at `at` in `b`, or the error of the first read or check that fails.
pub open spec fn rela_at(b: Seq<u8>, at: int) -> Result<Rela, SegmentError> {
    if at + 12 > b.len() {
        Err(SegmentError::ParseError(ParseError::OutOfBounds))
    } else {
        match rel_type_spec(le_u32(b, at + 8)) {
            Err(e) => Err(SegmentError::RelocError(e)),
            Ok(t) => if at + 24 > b.len() {
                Err(SegmentError::ParseError(ParseError::OutOfBounds))
            } else {
                Ok(
                    Rela {
                        r_offset: Addr(le_u64(b, at)),
                        r_type: t,
                        r_sym: le_u32(b, at + 12),
                        r_addend: le_u64(b, at + 16) as i64,
                    },
                )
            },
        }
    }
}

/// The records that fill `b` from `at` to its end, or the first error.
pub open spec fn relas_from(b: Seq<u8>, at: nat) -> Result<Seq<Rela>, SegmentError>
    decreases b.len() - at,
{
    if at >= b.len() {
        Ok(Seq::empty())
    } else {
        match rela_at(b, at as int) {
            Err(e) => Err(e),
            Ok(r) => match relas_from(b, at + 24) {
                Ok(rest) => Ok(seq![r] + rest),
                Err(e) => Err(e),
            },
        }
    }
}

impl Rela {
    /// Reads one record at the cursor.
    pub fn parse(reader: &mut Reader) -> (r: Result<Self, SegmentError>)
        ensures
            final(reader).data() == old(reader).data(),
            r == rela_at(old(reader).data(), old(reader).pos()),
            r is Ok ==> final(reader).pos() == old(reader).pos() + 24,
    {
        let r_offset = match reader.read_u64() {
            Ok(v) => Addr::from(v),
            Err(e) => return Err(SegmentError::ParseError(e)),
        };
        let code = match reader.read_u32() {
            Ok(v) => v,
            Err(e) => return Err(SegmentError::ParseError(e)),
        };
        let r_type = match RelType::try_from(code) {
            Ok(t) => t,
            Err(e) => return Err(SegmentError::RelocError(e)),
        };
        let r_sym = match reader.read_u32() {
            Ok(v) => v,
            Err(e) => return Err(SegmentError::ParseError(e)),
        };
        let addend = match reader.read_u64() {
            Ok(v) => v,
            Err(e) => return Err(SegmentError::ParseError(e)),
        };
        Ok(Self { r_offset, r_type, r_sym, r_addend: addend as i64 })
    }
}

impl TryFrom<u32> for RelType {
    type Error = Error;

    fn try_from(value: u32) -> (r: Result<RelType, Error>)
        ensures
            r == rel_type_spec(value),
    {
        match value {
            0 => Ok(Self::Null),
            1 => Ok(Self::W64),
            2 => Ok(Self::Pc32),
            3 => Ok(Self::Got32),
            4 => Ok(Self::Plt32),
            5 => Ok(Self::Copy),
            6 => Ok(Self::GlobDat),
            7 => Ok(Self::JumpSlot),
            8 => Ok(Self::Relative),
            _ => Err(Error::InvalidRelocationType(value)),
        }
    }
}

impl vstd::std_specs::convert::TryFromSpecImpl<u32> for RelType {
    open spec fn obeys_try_from_spec() -> bool {
        true
    }

    open spec fn try_from_spec(v: u32) -> Result<RelType, Error> {
        rel_type_spec(v)
    }
}

} // verus!
