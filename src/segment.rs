//! Program header types and flags, and the dynamic table.
use vstd::prelude::*;

use crate::{
    addr::Addr,
    error::{DynamicError, ParseError, SegmentError},
    reader::{le_u32, le_u64, Reader},
};

verus! {

/// Lowest segment type reserved for operating system specific use.
pub const LOOS: u32 = 0x6000_0000;
/// Highest segment type reserved for operating system specific use.
pub const HIOS: u32 = 0x6FFF_FFFF;
/// Lowest segment type reserved for processor specific use.
pub const LOPROC: u32 = 0x7000_0000;
/// Highest segment type reserved for processor specific use.
pub const HIPROC: u32 = 0x7FFF_FFFF;

/// Lowest dynamic tag reserved for operating system specific use.
pub const LOOS64: u64 = 0x6000_0000;
/// Highest dynamic tag reserved for operating system specific use.
pub const HIOS64: u64 = 0x6FFF_FFFF;
/// Lowest dynamic tag reserved for processor specific use.
pub const LOPROC64: u64 = 0x7000_0000;
/// Highest dynamic tag reserved for processor specific use.
pub const HIPROC64: u64 = 0x7FFF_FFFF;

/// Segment type (`p_type`): the named kinds and the two reserved ranges.
#[derive(Copy, Clone, PartialEq, Eq, Structural, Debug)]
pub enum SegmentType {
    /// Program header table entry unused.
    PtNull,
    /// Loadable segment.
    PtLoad,
    /// Dynamic linking information.
    PtDynamic,
    /// Interpreter information.
    PtInterp,
    /// Auxiliary information.
    PtNote,
    /// Reserved.
    PtShlib,
    /// Segment holding the program header table itself.
    PtPhdr,
    /// Thread-local storage template.
    PtTls,
    /// Value in the operating system specific range.
    PtOsSpecific(u32),
    /// Value in the processor specific range.
    PtProcSpecific(u32),
}

/// The segment type that `value` encodes, if any.
pub open spec fn segment_type_spec(value: u32) -> Result<SegmentType, SegmentError> {
    if value == 0 {
        Ok(SegmentType::PtNull)
    } else if value == 1 {
        Ok(SegmentType::PtLoad)
    } else if value == 2 {
        Ok(SegmentType::PtDynamic)
    } else if value == 3 {
        Ok(SegmentType::PtInterp)
    } else if value == 4 {
        Ok(SegmentType::PtNote)
    } else if value == 5 {
        Ok(SegmentType::PtShlib)
    } else if value == 6 {
        Ok(SegmentType::PtPhdr)
    } else if value == 7 {
        Ok(SegmentType::PtTls)
    } else if LOOS <= value <= HIOS {
        Ok(SegmentType::PtOsSpecific(value))
    } else if LOPROC <= value <= HIPROC {
        Ok(SegmentType::PtProcSpecific(value))
    } else {
        Err(SegmentError::TypeUnknown(value))
    }
}

/// The segment type stored at `at` in `b`, or the error of reading it.
pub open spec fn segment_type_at(b: Seq<u8>, at: int) -> Result<SegmentType, SegmentError> {
    if at + 4 > b.len() {
        Err(SegmentError::ParseError(ParseError::OutOfBounds))
    } else {
        segment_type_spec(le_u32(b, at))
    }
}

impl SegmentType {
    /// Reads a segment type at the cursor.
    pub fn parse(reader: &mut Reader) -> (r: Result<Self, SegmentError>)
        ensures
            final(reader).data() == old(reader).data(),
            r == segment_type_at(old(reader).data(), old(reader).pos()),
            r is Ok ==> final(reader).pos() == old(reader).pos() + 4,
    {
        let value = match reader.read_u32() {
            Ok(v) => v,
            Err(e) => return Err(SegmentError::ParseError(e)),
        };
        SegmentType::try_from(value)
    }
}

impl TryFrom<u32> for SegmentType {
    type Error = SegmentError;

    fn try_from(value: u32) -> (r: Result<Self, SegmentError>)
        ensures
            r == segment_type_spec(value),
    {
        match value {
            0x0 => Ok(Self::PtNull),
            0x1 => Ok(Self::PtLoad),
            0x2 => Ok(Self::PtDynamic),
            0x3 => Ok(Self::PtInterp),
            0x4 => Ok(Self::PtNote),
            0x5 => Ok(Self::PtShlib),
            0x6 => Ok(Self::PtPhdr),
            0x7 => Ok(Self::PtTls),
            _ => {
                if LOOS <= value && value <= HIOS {
                    Ok(Self::PtOsSpecific(value))
                } else if LOPROC <= value && value <= HIPROC {
                    Ok(Self::PtProcSpecific(value))
                } else {
                    Err(SegmentError::TypeUnknown(value))
                }
            },
        }
    }
}

impl vstd::std_specs::convert::TryFromSpecImpl<u32> for SegmentType {
    open spec fn obeys_try_from_spec() -> bool {
        true
    }

    open spec fn try_from_spec(v: u32) -> Result<SegmentType, SegmentError> {
        segment_type_spec(v)
    }
}

/// Permission bits of a segment (`p_flags`). The field is a mask: bits
/// outside the three named ones are kept as they were read.
#[derive(Copy, Clone, PartialEq, Eq, Structural, Debug)]
pub struct SegmentFlags {
    pub bits: u32,
}

impl SegmentFlags {
    /// Bit of a segment that may be read.
    pub const READ: u32 = 0x4;
    /// Bit of a segment that may be written.
    pub const WRITE: u32 = 0x2;
    /// Bit of a segment that may be executed.
    pub const EXEC: u32 = 0x1;

    /// The raw mask.
    pub fn bits(&self) -> (r: u32)
        ensures
            r == self.bits,
    {
        self.bits
    }

    /// The flags of mask `bits`, every bit kept.
    pub fn from_bits_retain(bits: u32) -> (r: SegmentFlags)
        ensures
            r.bits == bits,
    {
        SegmentFlags { bits }
    }

    /// Whether every bit of `mask` is set.
    pub fn contains(&self, mask: u32) -> (r: bool)
        ensures
            r == (self.bits & mask == mask),
    {
        self.bits & mask == mask
    }

    /// Reads the flags at the cursor.
    pub fn parse(reader: &mut Reader) -> (r: Result<Self, SegmentError>)
        ensures
            final(reader).data() == old(reader).data(),
            old(reader).pos() + 4 <= old(reader).data().len() ==> {
                &&& r == Ok::<SegmentFlags, SegmentError>(
                    SegmentFlags { bits: le_u32(old(reader).data(), old(reader).pos()) },
                )
                &&& final(reader).pos() == old(reader).pos() + 4
            },
            old(reader).pos() + 4 > old(reader).data().len() ==> r == Err::<SegmentFlags, SegmentError>(
                SegmentError::ParseError(ParseError::OutOfBounds),
            ),
    {
        match reader.read_u32() {
            Ok(value) => Ok(SegmentFlags::from_bits_retain(value)),
            Err(e) => Err(SegmentError::ParseError(e)),
        }
    }
}


/// Tag of a dynamic table entry: the named values and the two reserved ranges.
#[derive(Copy, Clone, PartialEq, Eq, Structural, Debug)]
pub enum DynamicTag {
    /// Marks the end of the dynamic table.
    Null,
    /// String table offset of the name of a needed library.
    Needed,
    /// Total size in bytes of the relocations of the procedure linkage table.
    PltRelSz,
    /// Address associated with the linkage table.
    PltGot,
    /// Address of the symbol hash table.
    Hash,
    /// Address of the dynamic string table.
    StrTab,
    /// Address of the dynamic symbol table.
    SymTab,
    /// Address of a relocation table with explicit addends.
    RelA,
    /// Total size in bytes of that relocation table.
    RelASz,
    /// Size in bytes of each of its entries.
    RelAEnt,
    /// Total size in bytes of the string table.
    StrSz,
    /// Size in bytes of each symbol table entry.
    SymEnt,
    /// Address of the initialization function.
    Init,
    /// Address of the termination function.
    Fini,
    /// String table offset of the name of this shared object.
    SoName,
    /// String table offset of a library search path.
    RPath,
    /// Symbols of the library resolve references from within it first.
    Symbolic,
    /// Address of a relocation table without addends.
    Rel,
    /// Total size in bytes of that relocation table.
    RelSz,
    /// Size in bytes of each of its entries.
    RelEnt,
    /// Kind of relocation used by the procedure linkage table.
    PltRel,
    /// Reserved for debugger use.
    Debug,
    /// Relocations may touch a non-writable segment.
    TextRel,
    /// Address of the relocations of the procedure linkage table.
    JmpRel,
    /// All relocations are processed before control passes to the program.
    BindNow,
    /// Address of the array of initialization functions.
    InitArray,
    /// Address of the array of termination functions.
    FiniArray,
    /// Size in bytes of the array of initialization functions.
    InitArraySz,
    /// Size in bytes of the array of termination functions.
    FiniArraySz,
    /// Value in the operating system specific range.
    OsSpecific(u64),
    /// Value in the processor specific range.
    ProcSpecific(u64),
}

/// The tag that `value` encodes, if any.
pub open spec fn dynamic_tag_spec(value: u64) -> Result<DynamicTag, SegmentError> {
    if value == 0 {
        Ok(DynamicTag::Null)
    } else if value == 1 {
        Ok(DynamicTag::Needed)
    } else if value == 2 {
        Ok(DynamicTag::PltRelSz)
    } else if value == 3 {
        Ok(DynamicTag::PltGot)
    } else if value == 4 {
        Ok(DynamicTag::Hash)
    } else if value == 5 {
        Ok(DynamicTag::StrTab)
    } else if value == 6 {
        Ok(DynamicTag::SymTab)
    } else if value == 7 {
        Ok(DynamicTag::RelA)
    } else if value == 8 {
        Ok(DynamicTag::RelASz)
    } else if value == 9 {
        Ok(DynamicTag::RelAEnt)
    } else if value == 10 {
        Ok(DynamicTag::StrSz)
    } else if value == 11 {
        Ok(DynamicTag::SymEnt)
    } else if value == 12 {
        Ok(DynamicTag::Init)
    } else if value == 13 {
        Ok(DynamicTag::Fini)
    } else if value == 14 {
        Ok(DynamicTag::SoName)
    } else if value == 15 {
        Ok(DynamicTag::RPath)
    } else if value == 16 {
        Ok(DynamicTag::Symbolic)
    } else if value == 17 {
        Ok(DynamicTag::Rel)
    } else if value == 18 {
        Ok(DynamicTag::RelSz)
    } else if value == 19 {
        Ok(DynamicTag::RelEnt)
    } else if value == 20 {
        Ok(DynamicTag::PltRel)
    } else if value == 21 {
        Ok(DynamicTag::Debug)
    } else if value == 22 {
        Ok(DynamicTag::TextRel)
    } else if value == 23 {
        Ok(DynamicTag::JmpRel)
    } else if value == 24 {
        Ok(DynamicTag::BindNow)
    } else if value == 25 {
        Ok(DynamicTag::InitArray)
    } else if value == 26 {
        Ok(DynamicTag::FiniArray)
    } else if value == 27 {
        Ok(DynamicTag::InitArraySz)
    } else if value == 28 {
        Ok(DynamicTag::FiniArraySz)
    } else if LOOS64 <= value <= HIOS64 {
        Ok(DynamicTag::OsSpecific(value))
    } else if LOPROC64 <= value <= HIPROC64 {
        Ok(DynamicTag::ProcSpecific(value))
    } else {
        Err(SegmentError::DynamicError(DynamicError::EntryUnknown(value)))
    }
}

impl TryFrom<u64> for DynamicTag {
    type Error = SegmentError;

    fn try_from(value: u64) -> (r: Result<DynamicTag, SegmentError>)
        ensures
            r == dynamic_tag_spec(value),
    {
        match value {
            0 => Ok(Self::Null),
            1 => Ok(Self::Needed),
            2 => Ok(Self::PltRelSz),
            3 => Ok(Self::PltGot),
            4 => Ok(Self::Hash),
            5 => Ok(Self::StrTab),
            6 => Ok(Self::SymTab),
            7 => Ok(Self::RelA),
            8 => Ok(Self::RelASz),
            9 => Ok(Self::RelAEnt),
            10 => Ok(Self::StrSz),
            11 => Ok(Self::SymEnt),
            12 => Ok(Self::Init),
            13 => Ok(Self::Fini),
            14 => Ok(Self::SoName),
            15 => Ok(Self::RPath),
            16 => Ok(Self::Symbolic),
            17 => Ok(Self::Rel),
            18 => Ok(Self::RelSz),
            19 => Ok(Self::RelEnt),
            20 => Ok(Self::PltRel),
            21 => Ok(Self::Debug),
            22 => Ok(Self::TextRel),
            23 => Ok(Self::JmpRel),
            24 => Ok(Self::BindNow),
            25 => Ok(Self::InitArray),
            26 => Ok(Self::FiniArray),
            27 => Ok(Self::InitArraySz),
            28 => Ok(Self::FiniArraySz),
            _ => {
                if LOOS64 <= value && value <= HIOS64 {
                    Ok(Self::OsSpecific(value))
                } else if LOPROC64 <= value && value <= HIPROC64 {
                    Ok(Self::ProcSpecific(value))
                } else {
                    Err(SegmentError::DynamicError(DynamicError::EntryUnknown(value)))
                }
            },
        }
    }
}

impl vstd::std_specs::convert::TryFromSpecImpl<u64> for DynamicTag {
    open spec fn obeys_try_from_spec() -> bool {
        true
    }

    open spec fn try_from_spec(v: u64) -> Result<DynamicTag, SegmentError> {
        dynamic_tag_spec(v)
    }
}

/// One (tag, value) pair of the dynamic table.
#[derive(Copy, Clone, PartialEq, Eq, Structural, Debug)]
pub struct DynamicEntry {
    /// The kind of the entry.
    pub d_tag: DynamicTag,
    /// An integer or a virtual address, according to the tag.
    pub d_un: Addr,
}

/// The entry at `at` in `b`, or the error of the first read or check that fails.
pub open spec fn dynamic_entry_at(b: Seq<u8>, at: int) -> Result<DynamicEntry, SegmentError> {
    if at + 8 > b.len() {
        Err(SegmentError::ParseError(ParseError::OutOfBounds))
    } else {
        match dynamic_tag_spec(le_u64(b, at)) {
            Err(e) => Err(e),
            Ok(tag) => if at + 16 > b.len() {
                Err(SegmentError::ParseError(ParseError::OutOfBounds))
            } else {
                Ok(DynamicEntry { d_tag: tag, d_un: Addr(le_u64(b, at + 8)) })
            },
        }
    }
}

/// The entries of `b` from `at` up to and including the first end entry, or
/// the first error; running out of bytes before an end entry is an error.
pub open spec fn dynamic_entries_from(b: Seq<u8>, at: nat) -> Result<Seq<DynamicEntry>, SegmentError>
    decreases b.len() - at,
{
    match dynamic_entry_at(b, at as int) {
        Err(e) => Err(e),
        Ok(entry) => if entry.d_tag == DynamicTag::Null {
            Ok(seq![entry])
        } else {
            match dynamic_entries_from(b, at + 16) {
                Ok(rest) => Ok(seq![entry] + rest),
                Err(e) => Err(e),
            }
        },
    }
}

/// `tail` with `prefix` put before a successful result.
pub open spec fn after_prefix(prefix: Seq<DynamicEntry>, tail: Result<Seq<DynamicEntry>, SegmentError>) -> Result<Seq<DynamicEntry>, SegmentError> {
    match tail {
        Ok(rest) => Ok(prefix + rest),
        Err(e) => Err(e),
    }
}

/// Whether `s` holds exactly one end entry, as its last element.
pub open spec fn ends_once(s: Seq<DynamicEntry>) -> bool {
    &&& s.len() > 0
    &&& s.last().d_tag == DynamicTag::Null
    &&& forall|j: int| 0 <= j < s.len() - 1 ==> s[j].d_tag != DynamicTag::Null
}

impl DynamicEntry {
    /// Reads one entry at the cursor.
    pub fn parse(reader: &mut Reader) -> (r: Result<Self, SegmentError>)
        ensures
            final(reader).data() == old(reader).data(),
            r == dynamic_entry_at(old(reader).data(), old(reader).pos()),
            r is Ok ==> final(reader).pos() == old(reader).pos() + 16,
    {
        let value = match reader.read_u64() {
            Ok(v) => v,
            Err(e) => return Err(SegmentError::ParseError(e)),
        };
        let d_tag = DynamicTag::try_from(value)?;
        let d_un = match Addr::parse(reader) {
            Ok(a) => a,
            Err(e) => return Err(SegmentError::ParseError(e)),
        };
        Ok(Self { d_tag, d_un })
    }
}

/// The dynamic table: entries in file order, ending with the one end entry.
#[derive(Debug)]
pub struct DynamicTable(Vec<DynamicEntry>);

impl View for DynamicTable {
    type V = Seq<DynamicEntry>;

    closed spec fn view(&self) -> Seq<DynamicEntry> {
        self.0@
    }
}

/// What a segment holds besides its bytes.
#[derive(Debug)]
pub enum SegmentContents {
    /// The decoded table of the dynamic segment.
    Dynamic(DynamicTable),
    Unknown,
}

impl DynamicTable {
    /// Decodes entries from the start of `bytes` up to and including the
    /// first end entry. Never reads past `bytes`: running out of bytes first
    /// is an error.
    pub fn parse(bytes: &[u8]) -> (r: Result<Self, SegmentError>)
        ensures
            match dynamic_entries_from(bytes@, 0) {
                Ok(s) => r matches Ok(t) && t@ == s,
                Err(e) => r matches Err(f) && f == e,
            },
            r matches Ok(t) ==> ends_once(t@),
    {
        let mut reader = Reader::from_bytes(bytes);
        let mut table: Vec<DynamicEntry> = Vec::new();
        proof {
            lemma_dynamic_table_ends_once(bytes@, 0);
            assert(table@ + seq![] =~= table@);
        }
        loop
            invariant
                reader.data() == bytes@,
                0 <= reader.pos() <= bytes@.len(),
                dynamic_entries_from(bytes@, 0) == after_prefix(
                    table@,
                    dynamic_entries_from(bytes@, reader.pos() as nat),
                ),
                dynamic_entries_from(bytes@, 0) is Ok ==> ends_once(dynamic_entries_from(bytes@, 0)->Ok_0),
            decreases bytes@.len() - reader.pos(),
        {
            let ghost prev = table@;
            let entry = DynamicEntry::parse(&mut reader)?;
            table.push(entry);
            if entry.d_tag == DynamicTag::Null {
                return Ok(DynamicTable(table));
            }
            proof {
                let rest = dynamic_entries_from(bytes@, reader.pos() as nat);
                match rest {
                    Ok(s) => {
                        assert(prev + (seq![entry] + s) =~= table@ + s);
                    },
                    Err(_) => {},
                }
            }
        }
    }

    /// The entries, in table order.
    pub fn entries(&self) -> (r: &Vec<DynamicEntry>)
        ensures
            r@ == self@,
    {
        &self.0
    }
}

/// A decoded table holds exactly one end entry, and it is the last.
pub proof fn lemma_dynamic_table_ends_once(b: Seq<u8>, at: nat)
    ensures
        dynamic_entries_from(b, at) is Ok ==> ends_once(dynamic_entries_from(b, at)->Ok_0),
    decreases b.len() - at,
{
    if let Ok(entry) = dynamic_entry_at(b, at as int) {
        if entry.d_tag != DynamicTag::Null {
            lemma_dynamic_table_ends_once(b, at + 16);
            if let Ok(rest) = dynamic_entries_from(b, at + 16) {
                let s = seq![entry] + rest;
                assert(s.last() == rest.last());
                assert forall|j: int| 0 <= j < s.len() - 1 implies s[j].d_tag != DynamicTag::Null by {
                    if j > 0 {
                        assert(s[j] == rest[j - 1]);
                    }
                }
            }
        }
    }
}

/// Whether `b` is a run of whole 16-byte entries whose tags all decode and
/// whose last entry is the end entry.
pub open spec fn well_formed_table(b: Seq<u8>) -> bool {
    &&& b.len() >= 16
    &&& b.len() % 16 == 0
    &&& forall|at: int|
        0 <= at < b.len() && at % 16 == 0 ==> #[trigger] dynamic_tag_spec(le_u64(b, at)) is Ok
    &&& le_u64(b, b.len() - 16) == 0
}

/// Bytes made of whole entries with known tags that end in an end entry
/// decode to a table, and that table holds exactly one end entry, its last.
pub proof fn lemma_well_formed_table_decodes(b: Seq<u8>)
    requires
        well_formed_table(b),
    ensures
        dynamic_entries_from(b, 0) is Ok,
        ends_once(dynamic_entries_from(b, 0)->Ok_0),
{
    lemma_well_formed_table_decodes_from(b, 0);
    lemma_dynamic_table_ends_once(b, 0);
}

proof fn lemma_well_formed_table_decodes_from(b: Seq<u8>, at: nat)
    requires
        well_formed_table(b),
        at < b.len(),
        at % 16 == 0,
    ensures
        dynamic_entries_from(b, at) is Ok,
    decreases b.len() - at,
{
    assert(dynamic_tag_spec(le_u64(b, at as int)) is Ok);
    if dynamic_tag_spec(le_u64(b, at as int))->Ok_0 != DynamicTag::Null {
        if at + 16 == b.len() {
            assert(le_u64(b, at as int) == 0);
        } else {
            lemma_well_formed_table_decodes_from(b, at + 16);
        }
    }
}

} // verus!
