//! Errors of decoding and of queries on a decoded image.
use vstd::prelude::*;

use crate::{addr, file_type, machine, reloc, section::SectionError, segment::DynamicTag};

verus! {

/// Failure of decoding a whole image.
#[derive(Debug)]
pub enum ElfError {
    ElfHeader(ElfHeaderError),
    ProgramHeader(ProgramHeaderError),
    ParseError(ParseError),
    SectionError(SectionError),
}

/// Failure of decoding the file header, in the order the checks are made.
#[derive(Debug)]
pub enum ElfHeaderError {
    /// The first four bytes are not the ELF signature; they are kept here.
    BadMagic(Vec<u8>),
    Not64Bit,
    BadEndianness,
    BadVersion,
    BadOsAbi,
    FileTypeError(file_type::Error),
    MachineError(machine::Error),
    NotOriginalVersion,
    ParseError(ParseError),
}

/// A read or a range that does not lie inside the bytes it addresses.
#[derive(Debug)]
pub enum ParseError {
    /// A cursor position or a read past the end of the buffer.
    OutOfBounds,
    /// A byte range that is not inside the bytes it was taken from.
    BadRange(core::ops::Range<usize>),
}

/// Failure around the dynamic table.
#[derive(Debug)]
pub enum DynamicError {
    /// A query needed an entry with this tag and the table has none.
    TagNotFound(DynamicTag),
    /// A tag value outside the named set and both reserved ranges.
    EntryUnknown(u64),
}

/// Failure of decoding one program header.
#[derive(Debug)]
pub enum ProgramHeaderError {
    SegmentError(SegmentError),
    ParseError(ParseError),
}

/// Failure of decoding a segment or of a query over the segments.
#[derive(Debug)]
pub enum SegmentError {
    TypeUnknown(u32),
    ParseError(ParseError),
    SegmentFlagsParseFailed(u32),
    /// No loadable segment holds this address.
    BadPtLoadAddr(addr::Addr),
    DynamicError(DynamicError),
    AddrError(addr::Error),
    RelocError(reloc::Error),
    StrTabError(StringError),
}

/// Failure of resolving a string of the dynamic string table.
#[derive(Debug)]
pub enum StringError {
    /// The dynamic table has no string table entry.
    StrTabNotFound,
    /// No loadable segment holds the requested address in its stored bytes.
    StrTabSegmentNotFound,
    /// No terminating zero byte follows the requested address.
    StringNotFound,
}

} // verus!
