//! Section header table entries.
use vstd::prelude::*;

use crate::{
    addr::Addr,
    error::ParseError,
    reader::{le_u32, le_u64, Reader},
};

verus! {

/// One entry of the section header table; metadata only.
#[derive(Copy, Clone, PartialEq, Eq, Structural, Debug)]
pub struct SectionHeader {
    /// Offset of the section's name in the section name string table.
    pub sh_name: u32,
    /// Section type code.
    pub sh_type: u32,
    /// Section attribute bits.
    pub sh_flags: u64,
    /// Virtual address of the section in memory, for sections that are loaded.
    pub sh_addr: Addr,
    /// Offset of the section in the file image.
    pub sh_offset: u64,
    /// Size in bytes of the section in the file image.
    pub sh_size: u64,
    /// Index of an associated section.
    pub sh_link: u32,
    /// Extra information about the section.
    pub sh_info: u32,
    /// Required alignment of the section.
    pub sh_addralign: u64,
    /// Size of each entry, for sections of fixed-size entries; else zero.
    pub sh_entsize: u64,
}

/// Failure of decoding a section header.
#[derive(Debug)]
pub enum SectionError {
    ParseError(ParseError),
}

/// The section header whose bytes start at `at` in `b`.
pub open spec fn section_header_at(b: Seq<u8>, at: int) -> SectionHeader {
    SectionHeader {
        sh_name: le_u32(b, at),
        sh_type: le_u32(b, at + 4),
        sh_flags: le_u64(b, at + 8),
        sh_addr: Addr(le_u64(b, at + 16)),
        sh_offset: le_u64(b, at + 24),
        sh_size: le_u64(b, at + 32),
        sh_link: le_u32(b, at + 40),
        sh_info: le_u32(b, at + 44),
        sh_addralign: le_u64(b, at + 48),
        sh_entsize: le_u64(b, at + 56),
    }
}

impl SectionHeader {
    /// Reads one section header at the cursor.
    pub fn parse(reader: &mut Reader) -> (r: Result<SectionHeader, SectionError>)
        ensures
            final(reader).data() == old(reader).data(),
            old(reader).pos() + 64 <= old(reader).data().len() ==> {
                &&& r == Ok::<SectionHeader, SectionError>(
                    section_header_at(old(reader).data(), old(reader).pos()),
                )
                &&& final(reader).pos() == old(reader).pos() + 64
            },
            old(reader).pos() + 64 > old(reader).data().len() ==> r == Err::<
                SectionHeader,
                SectionError,
            >(SectionError::ParseError(ParseError::OutOfBounds)),
    {
        let sh_name = match reader.read_u32() {
            Ok(v) => v,
            Err(e) => return Err(SectionError::ParseError(e)),
        };
        let sh_type = match reader.read_u32() {
            Ok(v) => v,
            Err(e) => return Err(SectionError::ParseError(e)),
        };
        let sh_flags = match reader.read_u64() {
            Ok(v) => v,
            Err(e) => return Err(SectionError::ParseError(e)),
        };
        let sh_addr = match reader.read_u64() {
            Ok(v) => Addr::from(v),
            Err(e) => return Err(SectionError::ParseError(e)),
        };
        let sh_offset = match reader.read_u64() {
            Ok(v) => v,
            Err(e) => return Err(SectionError::ParseError(e)),
        };
        let sh_size = match reader.read_u64() {
            Ok(v) => v,
            Err(e) => return Err(SectionError::ParseError(e)),
        };
        let sh_link = match reader.read_u32() {
            Ok(v) => v,
            Err(e) => return Err(SectionError::ParseError(e)),
        };
        let sh_info = match reader.read_u32() {
            Ok(v) => v,
            Err(e) => return Err(SectionError::ParseError(e)),
        };
        let sh_addralign = match reader.read_u64() {
            Ok(v) => v,
            Err(e) => return Err(SectionError::ParseError(e)),
        };
        let sh_entsize = match reader.read_u64() {
            Ok(v) => v,
            Err(e) => return Err(SectionError::ParseError(e)),
        };
        Ok(
            SectionHeader {
                sh_name,
                sh_type,
                sh_flags,
                sh_addr,
                sh_offset,
                sh_size,
                sh_link,
                sh_info,
                sh_addralign,
                sh_entsize,
            },
        )
    }

    /// The virtual address of the section.
    pub fn sh_addr(&self) -> (r: Addr)
        ensures
            r == self.sh_addr,
    {
        self.sh_addr
    }
}

} // verus!
