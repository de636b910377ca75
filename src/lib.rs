//! Decoding of 64-bit little-endian ELF images and address resolution
//! across file offsets, virtual addresses and the dynamic table.
pub mod addr;
pub mod error;
pub mod file_type;
pub mod machine;
pub mod reader;
pub mod reloc;
pub mod section;
pub mod segment;

pub use crate::{
    addr::Addr,
    error::{
        DynamicError, ElfError, ElfHeaderError, ParseError, ProgramHeaderError, SegmentError,
        StringError,
    },
    file_type::FileType,
    machine::Machine,
    reader::Reader,
    reloc::{RelType, Rela},
    section::{SectionError, SectionHeader},
    segment::{
        DynamicEntry, DynamicTable, DynamicTag, SegmentContents, SegmentFlags, SegmentType,
    },
};

use vstd::prelude::*;
use vstd::bytes::{
    lemma_auto_spec_u16_to_from_le_bytes, lemma_auto_spec_u32_to_from_le_bytes,
    lemma_auto_spec_u64_to_from_le_bytes, spec_u16_to_le_bytes, spec_u32_to_le_bytes,
    spec_u64_to_le_bytes,
};

use crate::{
    file_type::{file_type_code, file_type_spec},
    machine::{machine_code, machine_spec},
    reader::{le_u16, le_u32, le_u64},
    reloc::relas_from,
    section::section_header_at,
    segment::{dynamic_entries_from, segment_type_at},
};

verus! {

/// The four signature bytes that open every ELF image.
pub open spec fn elf_magic() -> Seq<u8> {
    seq![0x7Fu8, 0x45u8, 0x4Cu8, 0x46u8]
}

/// The decoded file header.
#[derive(Copy, Clone, PartialEq, Eq, Structural, Debug)]
pub struct ElfHeader {
    pub e_type: FileType,
    pub e_machine: Machine,
    /// Memory address of the entry point from where the process starts executing.
    pub e_entry: Addr,
    /// File offset of the program header table.
    pub e_phoff: Addr,
    /// File offset of the section header table.
    pub e_shoff: Addr,
    /// Size of a program header table entry.
    pub e_phentsize: u16,
    /// Number of entries in the program header table.
    pub e_phnum: u16,
    /// Size of a section header table entry.
    pub e_shentsize: u16,
    /// Number of entries in the section header table.
    pub e_shnum: u16,
    /// Index of the section header that holds the section names.
    pub e_shstrndx: u16,
}

/// Whether every check on the header that starts at `at` in `b` passes.
pub open spec fn header_ok(b: Seq<u8>, at: int) -> bool {
    &&& at + 64 <= b.len()
    &&& b.subrange(at, at + 4) == elf_magic()
    &&& b[at + 4] == 2
    &&& b[at + 5] == 1
    &&& b[at + 6] == 1
    &&& (b[at + 7] == 0 || b[at + 7] == 3)
    &&& file_type_spec(le_u16(b, at + 16)) is Ok
    &&& machine_spec(le_u16(b, at + 18)) is Ok
    &&& le_u32(b, at + 20) == 1
}

/// The header fields stored at `at` in `b`.
pub open spec fn header_at(b: Seq<u8>, at: int) -> ElfHeader {
    ElfHeader {
        e_type: file_type_spec(le_u16(b, at + 16))->Ok_0,
        e_machine: machine_spec(le_u16(b, at + 18))->Ok_0,
        e_entry: Addr(le_u64(b, at + 24)),
        e_phoff: Addr(le_u64(b, at + 32)),
        e_shoff: Addr(le_u64(b, at + 40)),
        e_phentsize: le_u16(b, at + 54),
        e_phnum: le_u16(b, at + 56),
        e_shentsize: le_u16(b, at + 58),
        e_shnum: le_u16(b, at + 60),
        e_shstrndx: le_u16(b, at + 62),
    }
}

/// Whether `e` is the error of decoding the header at `at` in `b`: the
/// first read that runs out of bytes or the first check that fails, in file
/// order.
pub open spec fn header_error(b: Seq<u8>, at: int, e: ElfHeaderError) -> bool {
    let short = e == ElfHeaderError::ParseError(ParseError::OutOfBounds);
    if at + 4 > b.len() {
        short
    } else if b.subrange(at, at + 4) != elf_magic() {
        e matches ElfHeaderError::BadMagic(m) && m@ == b.subrange(at, at + 4)
    } else if at + 5 > b.len() {
        short
    } else if b[at + 4] != 2 {
        e == ElfHeaderError::Not64Bit
    } else if at + 6 > b.len() {
        short
    } else if b[at + 5] != 1 {
        e == ElfHeaderError::BadEndianness
    } else if at + 7 > b.len() {
        short
    } else if b[at + 6] != 1 {
        e == ElfHeaderError::BadVersion
    } else if at + 8 > b.len() {
        short
    } else if b[at + 7] != 0 && b[at + 7] != 3 {
        e == ElfHeaderError::BadOsAbi
    } else if at + 18 > b.len() {
        short
    } else if file_type_spec(le_u16(b, at + 16)) is Err {
        e == ElfHeaderError::FileTypeError(file_type_spec(le_u16(b, at + 16))->Err_0)
    } else if at + 20 > b.len() {
        short
    } else if machine_spec(le_u16(b, at + 18)) is Err {
        e == ElfHeaderError::MachineError(machine_spec(le_u16(b, at + 18))->Err_0)
    } else if at + 24 > b.len() {
        short
    } else if le_u32(b, at + 20) != 1 {
        e == ElfHeaderError::NotOriginalVersion
    } else {
        short
    }
}

/// The 64 header bytes that store the fields of `h`, with OS/ABI byte
/// `osabi` and zeros in the bytes that decoding skips.
pub open spec fn header_bytes(h: ElfHeader, osabi: u8) -> Seq<u8> {
    elf_magic() + seq![2u8, 1u8, 1u8, osabi] + Seq::new(8, |i: int| 0u8)
        + spec_u16_to_le_bytes(file_type_code(h.e_type))
        + spec_u16_to_le_bytes(machine_code(h.e_machine))
        + spec_u32_to_le_bytes(1)
        + spec_u64_to_le_bytes(h.e_entry.0)
        + spec_u64_to_le_bytes(h.e_phoff.0)
        + spec_u64_to_le_bytes(h.e_shoff.0)
        + Seq::new(6, |i: int| 0u8)
        + spec_u16_to_le_bytes(h.e_phentsize)
        + spec_u16_to_le_bytes(h.e_phnum)
        + spec_u16_to_le_bytes(h.e_shentsize)
        + spec_u16_to_le_bytes(h.e_shnum)
        + spec_u16_to_le_bytes(h.e_shstrndx)
}

/// A header built from known field values decodes to exactly those values.
pub proof fn lemma_header_round_trip(h: ElfHeader, osabi: u8)
    requires
        osabi == 0 || osabi == 3,
    ensures
        header_bytes(h, osabi).len() == 64,
        header_ok(header_bytes(h, osabi), 0),
        header_at(header_bytes(h, osabi), 0) == h,
{
    lemma_auto_spec_u16_to_from_le_bytes();
    lemma_auto_spec_u32_to_from_le_bytes();
    lemma_auto_spec_u64_to_from_le_bytes();
    let b = header_bytes(h, osabi);
    let ft = spec_u16_to_le_bytes(file_type_code(h.e_type));
    let mc = spec_u16_to_le_bytes(machine_code(h.e_machine));
    let v = spec_u32_to_le_bytes(1);
    let en = spec_u64_to_le_bytes(h.e_entry.0);
    let ph = spec_u64_to_le_bytes(h.e_phoff.0);
    let sh = spec_u64_to_le_bytes(h.e_shoff.0);
    let a = spec_u16_to_le_bytes(h.e_phentsize);
    let c = spec_u16_to_le_bytes(h.e_phnum);
    let d = spec_u16_to_le_bytes(h.e_shentsize);
    let f = spec_u16_to_le_bytes(h.e_shnum);
    let g = spec_u16_to_le_bytes(h.e_shstrndx);
    assert(b.len() == 64);
    assert(b.subrange(0, 4) =~= elf_magic());
    assert(b.subrange(16, 18) =~= ft);
    assert(b.subrange(18, 20) =~= mc);
    assert(b.subrange(20, 24) =~= v);
    assert(b.subrange(24, 32) =~= en);
    assert(b.subrange(32, 40) =~= ph);
    assert(b.subrange(40, 48) =~= sh);
    assert(b.subrange(54, 56) =~= a);
    assert(b.subrange(56, 58) =~= c);
    assert(b.subrange(58, 60) =~= d);
    assert(b.subrange(60, 62) =~= f);
    assert(b.subrange(62, 64) =~= g);
    assert(file_type_spec(file_type_code(h.e_type)) == Ok::<FileType, file_type::Error>(h.e_type));
    assert(machine_spec(machine_code(h.e_machine)) == Ok::<Machine, machine::Error>(h.e_machine));
}

impl ElfHeader {
    /// Decodes and checks the file header at the cursor. Fields are read in
    /// file order and the first failing read or check decides the error.
    pub fn parse(reader: &mut Reader) -> (r: Result<Self, ElfHeaderError>)
        ensures
            final(reader).data() == old(reader).data(),
            header_ok(old(reader).data(), old(reader).pos()) ==> {
                &&& r == Ok::<ElfHeader, ElfHeaderError>(header_at(old(reader).data(), old(reader).pos()))
                &&& final(reader).pos() == old(reader).pos() + 64
            },
            !header_ok(old(reader).data(), old(reader).pos()) ==> (r matches Err(e) && header_error(
                old(reader).data(),
                old(reader).pos(),
                e,
            )),
    {
        let e_magic = match reader.read_slice(4) {
            Ok(s) => s,
            Err(e) => return Err(ElfHeaderError::ParseError(e)),
        };
        if !(e_magic[0] == 0x7F && e_magic[1] == 0x45 && e_magic[2] == 0x4C && e_magic[3] == 0x46) {
            proof {
                assert(e_magic@ != elf_magic()) by {
                    if e_magic@ == elf_magic() {
                        assert(e_magic@[0] == elf_magic()[0]);
                        assert(e_magic@[1] == elf_magic()[1]);
                        assert(e_magic@[2] == elf_magic()[2]);
                        assert(e_magic@[3] == elf_magic()[3]);
                    }
                }
            }
            return Err(ElfHeaderError::BadMagic(vstd::slice::slice_to_vec(e_magic)));
        }
        assert(e_magic@ =~= elf_magic());
        let e_class = match reader.read_u8() {
            Ok(v) => v,
            Err(e) => return Err(ElfHeaderError::ParseError(e)),
        };
        if e_class != 2 {
            return Err(ElfHeaderError::Not64Bit);
        }
        let e_data = match reader.read_u8() {
            Ok(v) => v,
            Err(e) => return Err(ElfHeaderError::ParseError(e)),
        };
        if e_data != 1 {
            return Err(ElfHeaderError::BadEndianness);
        }
        let e_version = match reader.read_u8() {
            Ok(v) => v,
            Err(e) => return Err(ElfHeaderError::ParseError(e)),
        };
        if e_version != 1 {
            return Err(ElfHeaderError::BadVersion);
        }
        let e_osabi = match reader.read_u8() {
            Ok(v) => v,
            Err(e) => return Err(ElfHeaderError::ParseError(e)),
        };
        if e_osabi != 0 && e_osabi != 3 {
            return Err(ElfHeaderError::BadOsAbi);
        }
        // Padding up to the object file type.
        if let Err(e) = reader.read_slice(8) {
            return Err(ElfHeaderError::ParseError(e));
        }
        let type_code = match reader.read_u16() {
            Ok(v) => v,
            Err(e) => return Err(ElfHeaderError::ParseError(e)),
        };
        let e_type = match FileType::try_from(type_code) {
            Ok(t) => t,
            Err(e) => return Err(ElfHeaderError::FileTypeError(e)),
        };
        let machine = match reader.read_u16() {
            Ok(v) => v,
            Err(e) => return Err(ElfHeaderError::ParseError(e)),
        };
        let e_machine = match Machine::try_from(machine) {
            Ok(m) => m,
            Err(e) => return Err(ElfHeaderError::MachineError(e)),
        };
        let version = match reader.read_u32() {
            Ok(v) => v,
            Err(e) => return Err(ElfHeaderError::ParseError(e)),
        };
        if version != 1 {
            return Err(ElfHeaderError::NotOriginalVersion);
        }
        let e_entry = match Addr::parse(reader) {
            Ok(a) => a,
            Err(e) => return Err(ElfHeaderError::ParseError(e)),
        };
        let e_phoff = match Addr::parse(reader) {
            Ok(a) => a,
            Err(e) => return Err(ElfHeaderError::ParseError(e)),
        };
        let e_shoff = match Addr::parse(reader) {
            Ok(a) => a,
            Err(e) => return Err(ElfHeaderError::ParseError(e)),
        };
        // `e_flags` and `e_ehsize`.
        if let Err(e) = reader.read_slice(6) {
            return Err(ElfHeaderError::ParseError(e));
        }
        let e_phentsize = match reader.read_u16() {
            Ok(v) => v,
            Err(e) => return Err(ElfHeaderError::ParseError(e)),
        };
        let e_phnum = match reader.read_u16() {
            Ok(v) => v,
            Err(e) => return Err(ElfHeaderError::ParseError(e)),
        };
        let e_shentsize = match reader.read_u16() {
            Ok(v) => v,
            Err(e) => return Err(ElfHeaderError::ParseError(e)),
        };
        let e_shnum = match reader.read_u16() {
            Ok(v) => v,
            Err(e) => return Err(ElfHeaderError::ParseError(e)),
        };
        let e_shstrndx = match reader.read_u16() {
            Ok(v) => v,
            Err(e) => return Err(ElfHeaderError::ParseError(e)),
        };
        Ok(
            ElfHeader {
                e_type,
                e_machine,
                e_entry,
                e_phoff,
                e_shoff,
                e_phentsize,
                e_phnum,
                e_shentsize,
                e_shnum,
                e_shstrndx,
            },
        )
    }

    /// File offset of the program header table.
    pub fn e_phoff(&self) -> (r: Addr)
        ensures
            r == self.e_phoff,
    {
        self.e_phoff
    }

    /// File offset of the section header table.
    pub fn e_shoff(&self) -> (r: Addr)
        ensures
            r == self.e_shoff,
    {
        self.e_shoff
    }

    /// Number of program headers.
    pub fn e_phnum(&self) -> (r: u16)
        ensures
            r == self.e_phnum,
    {
        self.e_phnum
    }

    /// Number of section headers.
    pub fn e_shnum(&self) -> (r: u16)
        ensures
            r == self.e_shnum,
    {
        self.e_shnum
    }
}


/// One entry of the program header table: how part of the file maps into
/// the process image, with an owned copy of the segment's file bytes.
#[derive(Debug)]
pub struct ProgramHeader {
    /// Kind of the segment.
    pub p_type: SegmentType,
    /// Permission bits.
    pub p_flags: SegmentFlags,
    /// Offset of the segment in the file image.
    pub p_offset: Addr,
    /// Virtual address of the segment in memory.
    pub p_vaddr: Addr,
    /// Physical address, where it is relevant.
    pub p_paddr: Addr,
    /// Size in bytes of the segment in the file image; may be 0.
    pub p_filesz: Addr,
    /// Size in bytes of the segment in memory.
    pub p_memsz: Addr,
    /// Required alignment.
    pub p_align: Addr,
    /// The segment's bytes in the file image.
    pub data: Vec<u8>,
    /// What the segment holds, according to its type.
    pub contents: SegmentContents,
}

/// The file bytes of the segment whose program header starts at `at` in `b`.
pub open spec fn segment_bytes(b: Seq<u8>, at: int) -> Seq<u8> {
    let off = le_u64(b, at + 8);
    let size = le_u64(b, at + 32);
    b.subrange(off as int, off + size)
}

/// Whether the program header at `at` in `b` decodes: it lies in `b`, its
/// type is known, its file range lies in `b`, and a dynamic segment holds a
/// well-formed dynamic table. The memory range is not checked.
pub open spec fn program_header_ok(b: Seq<u8>, at: int) -> bool {
    &&& at + 56 <= b.len()
    &&& segment_type_at(b, at) is Ok
    &&& le_u64(b, at + 8) + le_u64(b, at + 32) <= b.len()
    &&& segment_type_at(b, at)->Ok_0 == SegmentType::PtDynamic ==> dynamic_entries_from(
        segment_bytes(b, at),
        0,
    ) is Ok
}

/// Whether `ph` is the program header decoded from `at` in `b`.
pub open spec fn program_header_at(b: Seq<u8>, at: int, ph: ProgramHeader) -> bool {
    &&& ph.p_type == segment_type_at(b, at)->Ok_0
    &&& ph.p_flags == SegmentFlags { bits: le_u32(b, at + 4) }
    &&& ph.p_offset == Addr(le_u64(b, at + 8))
    &&& ph.p_vaddr == Addr(le_u64(b, at + 16))
    &&& ph.p_paddr == Addr(le_u64(b, at + 24))
    &&& ph.p_filesz == Addr(le_u64(b, at + 32))
    &&& ph.p_memsz == Addr(le_u64(b, at + 40))
    &&& ph.p_align == Addr(le_u64(b, at + 48))
    &&& ph.data@ == segment_bytes(b, at)
    &&& if ph.p_type == SegmentType::PtDynamic {
        ph.contents matches SegmentContents::Dynamic(t) && t@ == dynamic_entries_from(
            segment_bytes(b, at),
            0,
        )->Ok_0
    } else {
        ph.contents is Unknown
    }
}

/// Whether `e` is the error of decoding the program header at `at` in `b`.
pub open spec fn program_header_error(b: Seq<u8>, at: int, e: ProgramHeaderError) -> bool {
    let short = e == ProgramHeaderError::ParseError(ParseError::OutOfBounds);
    if segment_type_at(b, at) is Err {
        e == ProgramHeaderError::SegmentError(segment_type_at(b, at)->Err_0)
    } else if at + 8 > b.len() {
        e == ProgramHeaderError::SegmentError(SegmentError::ParseError(ParseError::OutOfBounds))
    } else if at + 56 > b.len() {
        short
    } else if le_u64(b, at + 8) + le_u64(b, at + 32) > b.len() {
        short
    } else if segment_type_at(b, at)->Ok_0 == SegmentType::PtDynamic && dynamic_entries_from(
        segment_bytes(b, at),
        0,
    ) is Err {
        e == ProgramHeaderError::SegmentError(
            dynamic_entries_from(segment_bytes(b, at), 0)->Err_0,
        )
    } else {
        false
    }
}

impl ProgramHeader {
    /// Decodes the program header at the cursor and copies the segment's
    /// bytes out of the buffer; a dynamic segment's table is decoded too.
    pub fn parse(reader: &mut Reader) -> (r: Result<Self, ProgramHeaderError>)
        ensures
            final(reader).data() == old(reader).data(),
            program_header_ok(old(reader).data(), old(reader).pos()) ==> {
                &&& r matches Ok(ph) && program_header_at(old(reader).data(), old(reader).pos(), ph)
                &&& final(reader).pos() == old(reader).pos() + 56
            },
            !program_header_ok(old(reader).data(), old(reader).pos()) ==> (r matches Err(e)
                && program_header_error(old(reader).data(), old(reader).pos(), e)),
    {
        let p_type = match SegmentType::parse(reader) {
            Ok(t) => t,
            Err(e) => return Err(ProgramHeaderError::SegmentError(e)),
        };
        let p_flags = match SegmentFlags::parse(reader) {
            Ok(f) => f,
            Err(e) => return Err(ProgramHeaderError::SegmentError(e)),
        };
        let p_offset = match Addr::parse(reader) {
            Ok(a) => a,
            Err(e) => return Err(ProgramHeaderError::ParseError(e)),
        };
        let p_vaddr = match Addr::parse(reader) {
            Ok(a) => a,
            Err(e) => return Err(ProgramHeaderError::ParseError(e)),
        };
        let p_paddr = match Addr::parse(reader) {
            Ok(a) => a,
            Err(e) => return Err(ProgramHeaderError::ParseError(e)),
        };
        let p_filesz = match Addr::parse(reader) {
            Ok(a) => a,
            Err(e) => return Err(ProgramHeaderError::ParseError(e)),
        };
        let p_memsz = match Addr::parse(reader) {
            Ok(a) => a,
            Err(e) => return Err(ProgramHeaderError::ParseError(e)),
        };
        let p_align = match Addr::parse(reader) {
            Ok(a) => a,
            Err(e) => return Err(ProgramHeaderError::ParseError(e)),
        };
        let len = reader.bytes.len() as u64;
        if p_offset.0 > len || p_filesz.0 > len - p_offset.0 {
            return Err(ProgramHeaderError::ParseError(ParseError::OutOfBounds));
        }
        let start = p_offset.0 as usize;
        let end = start + p_filesz.0 as usize;
        let data = match reader.read_slice_from(core::ops::Range { start, end }) {
            Ok(s) => vstd::slice::slice_to_vec(s),
            Err(e) => return Err(ProgramHeaderError::ParseError(e)),
        };
        let contents = match p_type {
            SegmentType::PtDynamic => match DynamicTable::parse(data.as_slice()) {
                Ok(t) => SegmentContents::Dynamic(t),
                Err(e) => return Err(ProgramHeaderError::SegmentError(e)),
            },
            _ => SegmentContents::Unknown,
        };
        Ok(
            Self {
                p_type,
                p_flags,
                p_offset,
                p_vaddr,
                p_paddr,
                p_filesz,
                p_memsz,
                p_align,
                data,
                contents,
            },
        )
    }

    /// Where the segment is stored in the file: `[p_offset, p_offset + p_filesz)`.
    pub fn file_range(&self) -> (r: core::ops::Range<Addr>)
        requires
            self.p_offset.0 + self.p_filesz.0 <= u64::MAX,
        ensures
            r.start == self.p_offset,
            r.end.0 == self.p_offset.0 + self.p_filesz.0,
    {
        core::ops::Range { start: self.p_offset, end: Addr(self.p_offset.0 + self.p_filesz.0) }
    }

    /// Where the segment lies in memory: `[p_vaddr, p_vaddr + p_memsz)`.
    pub fn mem_range(&self) -> (r: core::ops::Range<Addr>)
        requires
            self.p_vaddr.0 + self.p_memsz.0 <= u64::MAX,
        ensures
            r.start == self.p_vaddr,
            r.end.0 == self.p_vaddr.0 + self.p_memsz.0,
    {
        core::ops::Range { start: self.p_vaddr, end: Addr(self.p_vaddr.0 + self.p_memsz.0) }
    }

    /// Virtual address of the segment.
    pub fn p_vaddr(&self) -> (r: Addr)
        ensures
            r == self.p_vaddr,
    {
        self.p_vaddr
    }

    /// Size of the segment in memory.
    pub fn p_memsz(&self) -> (r: Addr)
        ensures
            r == self.p_memsz,
    {
        self.p_memsz
    }

    /// Permission bits of the segment.
    pub fn p_flags(&self) -> (r: SegmentFlags)
        ensures
            r == self.p_flags,
    {
        self.p_flags
    }

    /// Kind of the segment.
    pub fn p_type(&self) -> (r: SegmentType)
        ensures
            r == self.p_type,
    {
        self.p_type
    }

    /// Required alignment of the segment.
    pub fn p_align(&self) -> (r: Addr)
        ensures
            r == self.p_align,
    {
        self.p_align
    }

    /// Physical address of the segment.
    pub fn p_addr(&self) -> (r: Addr)
        ensures
            r == self.p_paddr,
    {
        self.p_paddr
    }
}


/// A decoded 64-bit little-endian ELF image: its header, its segments and
/// its sections, in table order.
#[derive(Debug)]
pub struct Elf64 {
    pub elf_header: ElfHeader,
    /// The program header table.
    pub ph_table: Vec<ProgramHeader>,
    /// The section header table.
    pub sh_table: Vec<SectionHeader>,
}

/// File offset of the `k`-th program header that `h` announces.
pub open spec fn ph_pos(h: ElfHeader, k: int) -> int {
    h.e_phoff.0 + 56 * k
}

/// File offset of the `k`-th section header that `h` announces.
pub open spec fn sh_pos(h: ElfHeader, k: int) -> int {
    h.e_shoff.0 + 64 * k
}

/// Whether `b` decodes as a whole image: the header passes its checks, both
/// table offsets are positions in `b`, every program header decodes and the
/// section table lies in `b`.
pub open spec fn elf_ok(b: Seq<u8>) -> bool {
    let h = header_at(b, 0);
    &&& header_ok(b, 0)
    &&& h.e_phoff.0 < b.len()
    &&& forall|k: int| 0 <= k < h.e_phnum ==> program_header_ok(b, #[trigger] ph_pos(h, k))
    &&& h.e_shoff.0 < b.len()
    &&& sh_pos(h, h.e_shnum as int) <= b.len()
}

/// Whether `elf` is the image decoded from `b`.
pub open spec fn elf_at(b: Seq<u8>, elf: Elf64) -> bool {
    let h = header_at(b, 0);
    &&& elf.elf_header == h
    &&& elf.ph_table@.len() == h.e_phnum
    &&& forall|k: int|
        0 <= k < h.e_phnum ==> program_header_at(b, ph_pos(h, k), #[trigger] elf.ph_table@[k])
    &&& elf.sh_table@.len() == h.e_shnum
    &&& forall|k: int|
        0 <= k < h.e_shnum ==> #[trigger] elf.sh_table@[k] == section_header_at(b, sh_pos(h, k))
}

/// Whether `e` is the error of decoding `b`: that of the first step that fails.
pub open spec fn elf_error(b: Seq<u8>, e: ElfError) -> bool {
    let h = header_at(b, 0);
    if !header_ok(b, 0) {
        e matches ElfError::ElfHeader(he) && header_error(b, 0, he)
    } else if h.e_phoff.0 >= b.len() {
        e == ElfError::ParseError(ParseError::OutOfBounds)
    } else if !(forall|k: int| 0 <= k < h.e_phnum ==> program_header_ok(b, #[trigger] ph_pos(h, k))) {
        exists|k: int|
            {
                &&& 0 <= k < h.e_phnum
                &&& forall|j: int| 0 <= j < k ==> program_header_ok(b, #[trigger] ph_pos(h, j))
                &&& !program_header_ok(b, #[trigger] ph_pos(h, k))
                &&& (e matches ElfError::ProgramHeader(pe) && program_header_error(b, ph_pos(h, k), pe))
            }
    } else if h.e_shoff.0 >= b.len() {
        e == ElfError::ParseError(ParseError::OutOfBounds)
    } else if sh_pos(h, h.e_shnum as int) > b.len() {
        e == ElfError::SectionError(SectionError::ParseError(ParseError::OutOfBounds))
    } else {
        false
    }
}

impl Elf64 {
    /// Decodes a whole image: the header, then `e_phnum` program headers from
    /// `e_phoff`, then `e_shnum` section headers from `e_shoff`. Any failure
    /// fails the whole decode.
    pub fn parse(bytes: &[u8]) -> (r: Result<Self, ElfError>)
        ensures
            elf_ok(bytes@) ==> (r matches Ok(elf) && elf_at(bytes@, elf)),
            !elf_ok(bytes@) ==> (r matches Err(e) && elf_error(bytes@, e)),
    {
        let ghost b = bytes@;
        let mut reader = Reader::from_bytes(bytes);
        let elf_header = match ElfHeader::parse(&mut reader) {
            Ok(h) => h,
            Err(e) => return Err(ElfError::ElfHeader(e)),
        };
        let ghost h = elf_header;
        let len = bytes.len() as u64;
        if elf_header.e_phoff.0 >= len {
            return Err(ElfError::ParseError(ParseError::OutOfBounds));
        }
        if let Err(e) = reader.seek(elf_header.e_phoff.0 as usize) {
            return Err(ElfError::ParseError(e));
        }
        let mut ph_table: Vec<ProgramHeader> = Vec::new();
        let mut k: u16 = 0;
        while k < elf_header.e_phnum
            invariant
                reader.data() == b,
                bytes@ == b,
                len == b.len(),
                header_ok(b, 0),
                elf_header == h,
                h == header_at(b, 0),
                h.e_phoff.0 < b.len(),
                k <= h.e_phnum,
                reader.pos() == ph_pos(h, k as int),
                ph_table@.len() == k,
                forall|j: int| 0 <= j < k ==> program_header_ok(b, #[trigger] ph_pos(h, j)),
                forall|j: int|
                    0 <= j < k ==> program_header_at(b, ph_pos(h, j), #[trigger] ph_table@[j]),
            decreases h.e_phnum - k,
        {
            let ph = match ProgramHeader::parse(&mut reader) {
                Ok(ph) => ph,
                Err(e) => {
                    proof {
                        let kk = k as int;
                        assert(!program_header_ok(b, ph_pos(h, kk)));
                        assert(0 <= kk < h.e_phnum);
                    }
                    return Err(ElfError::ProgramHeader(e));
                },
            };
            ph_table.push(ph);
            k = k + 1;
        }
        if elf_header.e_shoff.0 >= len {
            return Err(ElfError::ParseError(ParseError::OutOfBounds));
        }
        if let Err(e) = reader.seek(elf_header.e_shoff.0 as usize) {
            return Err(ElfError::ParseError(e));
        }
        let mut sh_table: Vec<SectionHeader> = Vec::new();
        let mut k: u16 = 0;
        while k < elf_header.e_shnum
            invariant
                reader.data() == b,
                header_ok(b, 0),
                elf_header == h,
                h == header_at(b, 0),
                bytes@ == b,
                h.e_shoff.0 < b.len(),
                h.e_phoff.0 < b.len(),
                forall|j: int| 0 <= j < h.e_phnum ==> program_header_ok(b, #[trigger] ph_pos(h, j)),
                ph_table@.len() == h.e_phnum,
                forall|j: int|
                    0 <= j < h.e_phnum ==> program_header_at(b, ph_pos(h, j), #[trigger] ph_table@[j]),
                k <= h.e_shnum,
                reader.pos() == sh_pos(h, k as int),
                reader.pos() <= b.len(),
                sh_table@.len() == k,
                forall|j: int|
                    0 <= j < k ==> #[trigger] sh_table@[j] == section_header_at(b, sh_pos(h, j)),
            decreases h.e_shnum - k,
        {
            let sh = match SectionHeader::parse(&mut reader) {
                Ok(sh) => sh,
                Err(e) => return Err(ElfError::SectionError(e)),
            };
            sh_table.push(sh);
            k = k + 1;
        }
        Ok(Elf64 { elf_header, ph_table, sh_table })
    }
}


/// Whether `ph` is a loadable segment whose memory range holds `a`.
pub open spec fn loads(ph: ProgramHeader, a: u64) -> bool {
    &&& ph.p_type == SegmentType::PtLoad
    &&& ph.p_vaddr.0 <= a < ph.p_vaddr.0 + ph.p_memsz.0
}

/// Whether `phs[i]` is the first segment of `phs`, in table order, that loads `a`.
pub open spec fn first_load(phs: Seq<ProgramHeader>, a: u64, i: int) -> bool {
    &&& 0 <= i < phs.len()
    &&& loads(phs[i], a)
    &&& forall|j: int| 0 <= j < i ==> !loads(#[trigger] phs[j], a)
}

/// The index of the first segment of `phs` that loads `a`, if any.
pub open spec fn load_index(phs: Seq<ProgramHeader>, a: u64) -> Option<int> {
    if exists|i: int| first_load(phs, a, i) {
        Some(choose|i: int| first_load(phs, a, i))
    } else {
        None
    }
}

/// Whether `phs[i]` is the first segment of `phs` of type `t`.
pub open spec fn first_of_type(phs: Seq<ProgramHeader>, t: SegmentType, i: int) -> bool {
    &&& 0 <= i < phs.len()
    &&& phs[i].p_type == t
    &&& forall|j: int| 0 <= j < i ==> (#[trigger] phs[j]).p_type != t
}

/// The index of the first segment of `phs` of type `t`, if any.
pub open spec fn type_index(phs: Seq<ProgramHeader>, t: SegmentType) -> Option<int> {
    if exists|i: int| first_of_type(phs, t, i) {
        Some(choose|i: int| first_of_type(phs, t, i))
    } else {
        None
    }
}

/// Whether `shs[i]` is the first section of `shs` that starts at `a`.
pub open spec fn first_section_at(shs: Seq<SectionHeader>, a: u64, i: int) -> bool {
    &&& 0 <= i < shs.len()
    &&& shs[i].sh_addr.0 == a
    &&& forall|j: int| 0 <= j < i ==> (#[trigger] shs[j]).sh_addr.0 != a
}

/// The values of the entries of `s` tagged `tag`, in table order.
pub open spec fn values_with_tag(s: Seq<DynamicEntry>, tag: DynamicTag) -> Seq<Addr>
    decreases s.len(),
{
    if s.len() == 0 {
        Seq::empty()
    } else {
        let rest = values_with_tag(s.drop_last(), tag);
        if s.last().d_tag == tag {
            rest.push(s.last().d_un)
        } else {
            rest
        }
    }
}

/// Whether `s[k]` is the first zero byte of `s`.
pub open spec fn first_zero(s: Seq<u8>, k: int) -> bool {
    &&& 0 <= k < s.len()
    &&& s[k] == 0
    &&& forall|j: int| 0 <= j < k ==> #[trigger] s[j] != 0
}

/// The text that `String::from_utf8_lossy` makes of `b`.
pub uninterp spec fn lossy_utf8(b: Seq<u8>) -> Seq<char>;

/// Relies on `String::from_utf8_lossy`: the text depends on the bytes alone,
/// and no bytes give no text.
#[verifier::external_body]
fn decode_lossy(b: &[u8]) -> (r: String)
    ensures
        r@ == lossy_utf8(b@),
        b@.len() == 0 ==> r@.len() == 0,
{
    String::from_utf8_lossy(b).into_owned()
}

/// A string table lookup yields the lossy decoding of exactly the bytes
/// between the resolved address and the first zero byte after it.
pub proof fn lemma_string_before_first_zero(elf: &Elf64, offset: Addr, base: Addr, text: Seq<u8>)
    requires
        elf.dynamic_value(DynamicTag::StrTab) == Some(base),
        base.0 + offset.0 <= u64::MAX,
        elf.slice_at_spec((base.0 + offset.0) as u64) matches Some(s) && text.len() < s.len()
            && s.subrange(0, text.len() as int) == text && s[text.len() as int] == 0,
        forall|j: int| 0 <= j < text.len() ==> #[trigger] text[j] != 0,
    ensures
        elf.string_at(offset) == Ok::<Seq<char>, StringError>(lossy_utf8(text)),
{
    let s = elf.slice_at_spec((base.0 + offset.0) as u64)->Some_0;
    let k = text.len() as int;
    assert forall|j: int| 0 <= j < k implies #[trigger] s[j] != 0 by {
        assert(s[j] == s.subrange(0, k)[j]);
    }
    assert(first_zero(s, k));
    let c = choose|j: int| first_zero(s, j);
    if c < k {
        assert(s[c] != 0);
    } else if k < c {
        assert(s[k] != 0);
    }
}

/// Two segments cannot both be the first to load the same address.
proof fn lemma_first_load_unique(phs: Seq<ProgramHeader>, a: u64, i: int, j: int)
    requires
        first_load(phs, a, i),
        first_load(phs, a, j),
    ensures
        i == j,
{
    if i < j {
        assert(!loads(phs[i], a));
    } else if j < i {
        assert(!loads(phs[j], a));
    }
}

/// Two segments cannot both be the first of one type.
proof fn lemma_first_of_type_unique(phs: Seq<ProgramHeader>, t: SegmentType, i: int, j: int)
    requires
        first_of_type(phs, t, i),
        first_of_type(phs, t, j),
    ensures
        i == j,
{
    if i < j {
        assert(phs[i].p_type != t);
    } else if j < i {
        assert(phs[j].p_type != t);
    }
}

impl Elf64 {
    /// The bytes from `a` to the end of the stored bytes of the segment that
    /// `segment_at` finds for `a`, if it finds one and `a` lies within (or
    /// just past) its stored bytes.
    pub open spec fn slice_at_spec(&self, a: u64) -> Option<Seq<u8>> {
        match load_index(self.ph_table@, a) {
            None => None,
            Some(i) => {
                let ph = self.ph_table@[i];
                let off = a - ph.p_vaddr.0;
                if off <= ph.data@.len() {
                    Some(ph.data@.subrange(off, ph.data@.len() as int))
                } else {
                    None
                }
            },
        }
    }

    /// The entries of the dynamic table of the first dynamic segment, if
    /// there is such a segment and it holds a table.
    pub open spec fn dynamic_table_spec(&self) -> Option<Seq<DynamicEntry>> {
        match type_index(self.ph_table@, SegmentType::PtDynamic) {
            None => None,
            Some(i) => match self.ph_table@[i].contents {
                SegmentContents::Dynamic(t) => Some(t@),
                SegmentContents::Unknown => None,
            },
        }
    }

    /// The values of the dynamic entries tagged `tag`, in table order.
    pub open spec fn dynamic_values(&self, tag: DynamicTag) -> Seq<Addr> {
        match self.dynamic_table_spec() {
            Some(s) => values_with_tag(s, tag),
            None => Seq::empty(),
        }
    }

    /// The first value tagged `tag`, if any.
    pub open spec fn dynamic_value(&self, tag: DynamicTag) -> Option<Addr> {
        let v = self.dynamic_values(tag);
        if v.len() > 0 {
            Some(v[0])
        } else {
            None
        }
    }

    /// The text at `offset` in the dynamic string table, or why there is none.
    pub open spec fn string_at(&self, offset: Addr) -> Result<Seq<char>, StringError> {
        match self.dynamic_value(DynamicTag::StrTab) {
            None => Err(StringError::StrTabNotFound),
            Some(base) => {
                let a = base.0 + offset.0;
                if a > u64::MAX {
                    Err(StringError::StrTabSegmentNotFound)
                } else {
                    match self.slice_at_spec(a as u64) {
                        None => Err(StringError::StrTabSegmentNotFound),
                        Some(s) => if exists|k: int| first_zero(s, k) {
                            Ok(lossy_utf8(s.subrange(0, choose|k: int| first_zero(s, k))))
                        } else {
                            Err(StringError::StringNotFound)
                        },
                    }
                }
            },
        }
    }

    /// Returns the first loadable segment, in table order, whose memory
    /// range holds `addr`. Overlaps are not checked: the first one wins.
    pub fn segment_at(&self, addr: Addr) -> (r: Option<&ProgramHeader>)
        ensures
            r is None <==> forall|i: int|
                0 <= i < self.ph_table@.len() ==> !loads(#[trigger] self.ph_table@[i], addr.0),
            r matches Some(ph) ==> exists|i: int|
                first_load(self.ph_table@, addr.0, i) && *ph == #[trigger] self.ph_table@[i],
            r == (match load_index(self.ph_table@, addr.0) {
                Some(i) => Some(&self.ph_table@[i]),
                None => None,
            }),
    {
        let mut i: usize = 0;
        while i < self.ph_table.len()
            invariant
                i <= self.ph_table@.len(),
                forall|j: int| 0 <= j < i ==> !loads(#[trigger] self.ph_table@[j], addr.0),
            decreases self.ph_table@.len() - i,
        {
            let ph = &self.ph_table[i];
            if ph.p_type == SegmentType::PtLoad && ph.p_vaddr.0 <= addr.0 && addr.0 - ph.p_vaddr.0
                < ph.p_memsz.0 {
                proof {
                    assert(first_load(self.ph_table@, addr.0, i as int));
                    let c = choose|k: int| first_load(self.ph_table@, addr.0, k);
                    lemma_first_load_unique(self.ph_table@, addr.0, i as int, c);
                }
                return Some(ph);
            }
            i = i + 1;
        }
        None
    }

    /// Returns the stored bytes of the segment that holds `mem_addr`, from
    /// `mem_addr` to the end of the segment's stored bytes.
    pub fn slice_at(&self, mem_addr: Addr) -> (r: Option<&[u8]>)
        ensures
            match self.slice_at_spec(mem_addr.0) {
                None => r is None,
                Some(s) => r matches Some(sl) && sl@ == s,
            },
    {
        let seg = match self.segment_at(mem_addr) {
            Some(seg) => seg,
            None => return None,
        };
        let off = mem_addr.0 - seg.p_vaddr.0;
        if off <= seg.data.len() as u64 {
            Some(vstd::slice::slice_subrange(seg.data.as_slice(), off as usize, seg.data.len()))
        } else {
            None
        }
    }

    /// Returns the first segment of type `p_type`.
    pub fn segment_of_type(&self, p_type: SegmentType) -> (r: Option<&ProgramHeader>)
        ensures
            r == (match type_index(self.ph_table@, p_type) {
                Some(i) => Some(&self.ph_table@[i]),
                None => None,
            }),
    {
        let mut i: usize = 0;
        while i < self.ph_table.len()
            invariant
                i <= self.ph_table@.len(),
                forall|j: int| 0 <= j < i ==> (#[trigger] self.ph_table@[j]).p_type != p_type,
            decreases self.ph_table@.len() - i,
        {
            let ph = &self.ph_table[i];
            if ph.p_type == p_type {
                proof {
                    assert(first_of_type(self.ph_table@, p_type, i as int));
                    let c = choose|k: int| first_of_type(self.ph_table@, p_type, k);
                    lemma_first_of_type_unique(self.ph_table@, p_type, i as int, c);
                }
                return Some(ph);
            }
            i = i + 1;
        }
        None
    }

    /// The entries of the dynamic table, if the image has a dynamic segment
    /// that holds one; an image without one is valid.
    pub fn dynamic_table(&self) -> (r: Option<&[DynamicEntry]>)
        ensures
            match self.dynamic_table_spec() {
                None => r is None,
                Some(s) => r matches Some(sl) && sl@ == s,
            },
    {
        match self.segment_of_type(SegmentType::PtDynamic) {
            Some(ph) => match &ph.contents {
                SegmentContents::Dynamic(table) => Some(table.entries().as_slice()),
                SegmentContents::Unknown => None,
            },
            None => None,
        }
    }

    /// The values of every dynamic entry tagged `tag`, in table order; empty
    /// where there is no dynamic table or no such entry.
    pub fn dynamic_entries(&self, tag: DynamicTag) -> (r: Vec<Addr>)
        ensures
            r@ == self.dynamic_values(tag),
    {
        let mut out: Vec<Addr> = Vec::new();
        let entries = match self.dynamic_table() {
            Some(entries) => entries,
            None => return out,
        };
        let ghost s = entries@;
        let mut i: usize = 0;
        while i < entries.len()
            invariant
                entries@ == s,
                s == self.dynamic_table_spec()->Some_0,
                self.dynamic_table_spec() is Some,
                i <= s.len(),
                out@ == values_with_tag(s.subrange(0, i as int), tag),
            decreases s.len() - i,
        {
            proof {
                assert(s.subrange(0, i + 1).drop_last() =~= s.subrange(0, i as int));
            }
            let e = entries[i];
            if e.d_tag == tag {
                out.push(e.d_un);
            }
            i = i + 1;
        }
        proof {
            assert(s.subrange(0, s.len() as int) =~= s);
        }
        out
    }

    /// The value of the first dynamic entry tagged `tag`, if any.
    pub fn dynamic_entry(&self, tag: DynamicTag) -> (r: Option<Addr>)
        ensures
            r == self.dynamic_value(tag),
    {
        let values = self.dynamic_entries(tag);
        if values.len() > 0 {
            Some(values[0])
        } else {
            None
        }
    }

    /// The zero-terminated string at `offset` in the dynamic string table,
    /// with invalid UTF-8 replaced.
    pub fn get_string(&self, offset: Addr) -> (r: Result<String, StringError>)
        ensures
            match self.string_at(offset) {
                Ok(t) => r matches Ok(s) && s@ == t,
                Err(e) => r matches Err(f) && f == e,
            },
    {
        let base = match self.dynamic_entry(DynamicTag::StrTab) {
            Some(a) => a,
            None => return Err(StringError::StrTabNotFound),
        };
        let addr = match base.checked_add(offset) {
            Some(a) => a,
            None => return Err(StringError::StrTabSegmentNotFound),
        };
        let slice = match self.slice_at(addr) {
            Some(s) => s,
            None => return Err(StringError::StrTabSegmentNotFound),
        };
        let mut k: usize = 0;
        while k < slice.len()
            invariant
                self.dynamic_value(DynamicTag::StrTab) == Some(base),
                addr.0 == base.0 + offset.0,
                self.slice_at_spec(addr.0) == Some(slice@),
                k <= slice@.len(),
                forall|j: int| 0 <= j < k ==> #[trigger] slice@[j] != 0,
            decreases slice@.len() - k,
        {
            if slice[k] == 0 {
                proof {
                    assert(first_zero(slice@, k as int));
                    let c = choose|j: int| first_zero(slice@, j);
                    if c < k {
                        assert(slice@[c] != 0);
                    } else if k < c {
                        assert(slice@[k as int] != 0);
                    }
                }
                let text = vstd::slice::slice_subrange(slice, 0, k);
                return Ok(decode_lossy(text));
            }
            k = k + 1;
        }
        Err(StringError::StringNotFound)
    }

    /// Returns the first section whose virtual address is exactly `addr`.
    pub fn section_starting_at(&self, addr: Addr) -> (r: Option<&SectionHeader>)
        ensures
            r is None <==> forall|i: int|
                0 <= i < self.sh_table@.len() ==> (#[trigger] self.sh_table@[i]).sh_addr.0 != addr.0,
            r matches Some(sh) ==> exists|i: int|
                first_section_at(self.sh_table@, addr.0, i) && *sh == #[trigger] self.sh_table@[i],
    {
        let mut i: usize = 0;
        while i < self.sh_table.len()
            invariant
                i <= self.sh_table@.len(),
                forall|j: int| 0 <= j < i ==> (#[trigger] self.sh_table@[j]).sh_addr.0 != addr.0,
            decreases self.sh_table@.len() - i,
        {
            let sh = &self.sh_table[i];
            if sh.sh_addr.0 == addr.0 {
                proof {
                    assert(first_section_at(self.sh_table@, addr.0, i as int));
                }
                return Some(sh);
            }
            i = i + 1;
        }
        None
    }

    /// The relocation records of the table that the dynamic entries locate,
    /// or the first failure of the steps that locate and decode it.
    pub open spec fn rela_entries_spec(&self) -> Result<Seq<Rela>, SegmentError> {
        match (self.dynamic_value(DynamicTag::RelA), self.dynamic_value(DynamicTag::RelASz)) {
            (None, _) => Err(SegmentError::DynamicError(DynamicError::TagNotFound(DynamicTag::RelA))),
            (_, None) => Err(
                SegmentError::DynamicError(DynamicError::TagNotFound(DynamicTag::RelASz)),
            ),
            (Some(rela_addr), Some(rela_len)) => match load_index(self.ph_table@, rela_addr.0) {
                None => Err(SegmentError::BadPtLoadAddr(rela_addr)),
                Some(i) => {
                    let ph = self.ph_table@[i];
                    let start = rela_addr.0 - ph.p_vaddr.0;
                    let end = start + rela_len.0;
                    if end > usize::MAX {
                        Err(SegmentError::AddrError(addr::Error::Overflow))
                    } else if end > ph.data@.len() {
                        Err(
                            SegmentError::ParseError(
                                ParseError::BadRange(
                                    core::ops::Range { start: start as usize, end: end as usize },
                                ),
                            ),
                        )
                    } else {
                        relas_from(ph.data@.subrange(start, end), 0)
                    }
                },
            },
        }
    }

    /// The texts at the string table offsets `values`, in order; offsets
    /// whose string cannot be resolved are left out.
    pub open spec fn strings_of(&self, values: Seq<Addr>) -> Seq<Seq<char>>
        decreases values.len(),
    {
        if values.len() == 0 {
            Seq::empty()
        } else {
            let rest = self.strings_of(values.drop_last());
            match self.string_at(values.last()) {
                Ok(t) => rest.push(t),
                Err(_) => rest,
            }
        }
    }

    /// The strings named by the dynamic entries tagged `tag`, skipping those
    /// that cannot be resolved.
    pub fn dynamic_entry_strings(&self, tag: DynamicTag) -> (r: Vec<String>)
        ensures
            r@.map_values(|s: String| s@) == self.strings_of(self.dynamic_values(tag)),
    {
        let values = self.dynamic_entries(tag);
        let ghost vs = values@;
        let mut out: Vec<String> = Vec::new();
        let mut i: usize = 0;
        while i < values.len()
            invariant
                values@ == vs,
                i <= vs.len(),
                out@.map_values(|s: String| s@) == self.strings_of(vs.subrange(0, i as int)),
            decreases vs.len() - i,
        {
            proof {
                assert(vs.subrange(0, i + 1).drop_last() =~= vs.subrange(0, i as int));
            }
            let ghost prev = out@;
            match self.get_string(values[i]) {
                Ok(s) => {
                    out.push(s);
                    proof {
                        assert(out@.map_values(|s: String| s@) =~= prev.map_values(
                            |s: String| s@,
                        ).push(s@));
                    }
                },
                Err(_) => {},
            }
            i = i + 1;
        }
        proof {
            assert(vs.subrange(0, vs.len() as int) =~= vs);
        }
        out
    }

    /// Decodes the relocation table that the dynamic entries locate: its
    /// address and size come from the dynamic table, its bytes from the
    /// loadable segment that holds the address. A size that is not a whole
    /// number of records fails on the last, partial record.
    pub fn read_rela_entries(&self) -> (r: Result<Vec<Rela>, SegmentError>)
        ensures
            match self.rela_entries_spec() {
                Ok(s) => r matches Ok(v) && v@ == s,
                Err(e) => r matches Err(f) && f == e,
            },
    {
        let rela_addr = match self.dynamic_entry(DynamicTag::RelA) {
            Some(a) => a,
            None => return Err(
                SegmentError::DynamicError(DynamicError::TagNotFound(DynamicTag::RelA)),
            ),
        };
        let rela_len = match self.dynamic_entry(DynamicTag::RelASz) {
            Some(a) => a,
            None => return Err(
                SegmentError::DynamicError(DynamicError::TagNotFound(DynamicTag::RelASz)),
            ),
        };
        let seg = match self.segment_at(rela_addr) {
            Some(seg) => seg,
            None => return Err(SegmentError::BadPtLoadAddr(rela_addr)),
        };
        let start = rela_addr.0 - seg.p_vaddr.0;
        if start as u128 + rela_len.0 as u128 > usize::MAX as u128 {
            return Err(SegmentError::AddrError(addr::Error::Overflow));
        }
        let start = start as usize;
        let end = start + rela_len.0 as usize;
        if end > seg.data.len() {
            return Err(SegmentError::ParseError(ParseError::BadRange(core::ops::Range { start, end })));
        }
        let bytes = vstd::slice::slice_subrange(seg.data.as_slice(), start, end);
        let ghost b = bytes@;
        let mut reader = Reader::from_bytes(bytes);
        let mut rela_entries: Vec<Rela> = Vec::new();
        proof {
            assert(rela_entries@ + relas_from(b, 0)->Ok_0 =~= relas_from(b, 0)->Ok_0);
        }
        while reader.index < bytes.len()
            invariant
                reader.data() == b,
                bytes@ == b,
                0 <= reader.pos(),
                self.rela_entries_spec() == relas_from(b, 0),
                relas_from(b, 0) == match relas_from(b, reader.pos() as nat) {
                    Ok(rest) => Ok(rela_entries@ + rest),
                    Err(e) => Err(e),
                },
            decreases b.len() - reader.pos(),
        {
            let ghost prev = rela_entries@;
            let rela = Rela::parse(&mut reader)?;
            rela_entries.push(rela);
            proof {
                if let Ok(rest) = relas_from(b, reader.pos() as nat) {
                    assert(prev + (seq![rela] + rest) =~= rela_entries@ + rest);
                }
            }
        }
        proof {
            assert(rela_entries@ + Seq::<Rela>::empty() =~= rela_entries@);
        }
        Ok(rela_entries)
    }
}

} // verus!
