use elf64::{
    Addr, DynamicError, DynamicTag, Elf64, ElfError, ElfHeader, ElfHeaderError, FileType,
    Machine, ParseError, ProgramHeaderError, Reader, RelType, SectionError, SegmentError,
    SegmentFlags, SegmentType, StringError,
};

const PT_LOAD: u32 = 1;
const PT_DYNAMIC: u32 = 2;

fn put16(b: &mut Vec<u8>, v: u16) {
    b.extend_from_slice(&v.to_le_bytes());
}

fn put32(b: &mut Vec<u8>, v: u32) {
    b.extend_from_slice(&v.to_le_bytes());
}

fn put64(b: &mut Vec<u8>, v: u64) {
    b.extend_from_slice(&v.to_le_bytes());
}

struct Fields {
    e_type: u16,
    machine: u16,
    entry: u64,
    phoff: u64,
    shoff: u64,
    phnum: u16,
    shnum: u16,
}

fn header_with(f: &Fields) -> Vec<u8> {
    let mut b = vec![0x7F, b'E', b'L', b'F', 2, 1, 1, 0];
    b.extend_from_slice(&[0; 8]);
    put16(&mut b, f.e_type);
    put16(&mut b, f.machine);
    put32(&mut b, 1);
    put64(&mut b, f.entry);
    put64(&mut b, f.phoff);
    put64(&mut b, f.shoff);
    b.extend_from_slice(&[0; 6]);
    put16(&mut b, 56);
    put16(&mut b, f.phnum);
    put16(&mut b, 64);
    put16(&mut b, f.shnum);
    put16(&mut b, 0);
    b
}

fn plain_header() -> Vec<u8> {
    header_with(&Fields {
        e_type: 2,
        machine: 0x3E,
        entry: 0x0040_1000,
        phoff: 0,
        shoff: 0,
        phnum: 0,
        shnum: 0,
    })
}

fn program_header(p_type: u32, flags: u32, offset: u64, vaddr: u64, filesz: u64, memsz: u64) -> Vec<u8> {
    let mut b = Vec::new();
    put32(&mut b, p_type);
    put32(&mut b, flags);
    put64(&mut b, offset);
    put64(&mut b, vaddr);
    put64(&mut b, vaddr);
    put64(&mut b, filesz);
    put64(&mut b, memsz);
    put64(&mut b, 0x1000);
    b
}

fn dynamic(entries: &[(u64, u64)]) -> Vec<u8> {
    let mut b = Vec::new();
    for &(tag, value) in entries {
        put64(&mut b, tag);
        put64(&mut b, value);
    }
    b
}

fn rela(offset: u64, kind: u32, sym: u32, addend: i64) -> Vec<u8> {
    let mut b = Vec::new();
    put64(&mut b, offset);
    put32(&mut b, kind);
    put32(&mut b, sym);
    b.extend_from_slice(&addend.to_le_bytes());
    b
}

fn section(name: u32, addr: u64) -> Vec<u8> {
    let mut b = Vec::new();
    put32(&mut b, name);
    put32(&mut b, 1);
    put64(&mut b, 6);
    put64(&mut b, addr);
    put64(&mut b, 0x100);
    put64(&mut b, 0x20);
    put32(&mut b, 0);
    put32(&mut b, 0);
    put64(&mut b, 16);
    put64(&mut b, 0);
    b
}

/// A segment to lay out: type, flags, virtual address, file bytes, memory size.
struct Seg {
    p_type: u32,
    flags: u32,
    vaddr: u64,
    data: Vec<u8>,
    memsz: u64,
}

fn seg(p_type: u32, vaddr: u64, data: Vec<u8>) -> Seg {
    let memsz = data.len() as u64;
    Seg { p_type, flags: 0x4, vaddr, data, memsz }
}

/// Header, program headers, section headers, then the segments' bytes.
fn image(segs: &[Seg], sections: &[Vec<u8>]) -> Vec<u8> {
    let phoff = 64u64;
    let shoff = phoff + 56 * segs.len() as u64;
    let mut data_off = shoff + 64 * sections.len() as u64;
    let mut b = header_with(&Fields {
        e_type: 3,
        machine: 0x3E,
        entry: 0x1000,
        phoff,
        shoff: if sections.is_empty() { 0 } else { shoff },
        phnum: segs.len() as u16,
        shnum: sections.len() as u16,
    });
    for s in segs {
        b.extend(program_header(s.p_type, s.flags, data_off, s.vaddr, s.data.len() as u64, s.memsz));
        data_off += s.data.len() as u64;
    }
    for s in sections {
        b.extend_from_slice(s);
    }
    for s in segs {
        b.extend_from_slice(&s.data);
    }
    b
}

#[test]
fn elf_header() {
    let bytes = plain_header();
    let mut reader = Reader::from_bytes(&bytes);
    let elf_header = ElfHeader::parse(&mut reader).unwrap();
    assert_eq!(elf_header.e_type, FileType::EtExec);
    assert_eq!(elf_header.e_machine, Machine::AmdX86_64);
    assert_eq!(Addr(0x00401000), elf_header.e_entry);
}

#[test]
fn header_round_trip_reproduces_fields() {
    let bytes = header_with(&Fields {
        e_type: 1,
        machine: 0x03,
        entry: 0x1122_3344_5566_7788,
        phoff: 0x40,
        shoff: 0x9999_0000,
        phnum: 7,
        shnum: 300,
    });
    let mut reader = Reader::from_bytes(&bytes);
    let h = ElfHeader::parse(&mut reader).unwrap();
    assert_eq!(reader.index, 64);
    assert_eq!(h.e_type, FileType::EtRel);
    assert_eq!(h.e_machine, Machine::X86);
    assert_eq!(h.e_entry, Addr(0x1122_3344_5566_7788));
    assert_eq!(h.e_phoff(), Addr(0x40));
    assert_eq!(h.e_shoff(), Addr(0x9999_0000));
    assert_eq!(h.e_phentsize, 56);
    assert_eq!(h.e_phnum(), 7);
    assert_eq!(h.e_shentsize, 64);
    assert_eq!(h.e_shnum(), 300);
    assert_eq!(h.e_shstrndx, 0);
}

#[test]
fn header_bad_magic() {
    let mut bytes = plain_header();
    bytes[..4].copy_from_slice(&[1, 2, 3, 4]);
    let mut reader = Reader::from_bytes(&bytes);
    match ElfHeader::parse(&mut reader) {
        Err(ElfHeaderError::BadMagic(m)) => assert_eq!(m, vec![1, 2, 3, 4]),
        other => panic!("unexpected {:?}", other),
    }
    match Elf64::parse(&bytes) {
        Err(ElfError::ElfHeader(ElfHeaderError::BadMagic(_))) => {},
        other => panic!("unexpected {:?}", other.err()),
    }
}

fn header_error_after(index: usize, value: u8) -> ElfHeaderError {
    let mut bytes = plain_header();
    bytes[index] = value;
    let mut reader = Reader::from_bytes(&bytes);
    ElfHeader::parse(&mut reader).unwrap_err()
}

#[test]
fn header_checks_each_identification_byte() {
    assert!(matches!(header_error_after(4, 1), ElfHeaderError::Not64Bit));
    assert!(matches!(header_error_after(5, 2), ElfHeaderError::BadEndianness));
    assert!(matches!(header_error_after(6, 0), ElfHeaderError::BadVersion));
    assert!(matches!(header_error_after(7, 9), ElfHeaderError::BadOsAbi));
    assert!(matches!(header_error_after(16, 5), ElfHeaderError::FileTypeError(_)));
    assert!(matches!(header_error_after(18, 0x28), ElfHeaderError::MachineError(_)));
    assert!(matches!(header_error_after(20, 2), ElfHeaderError::NotOriginalVersion));
}

#[test]
fn header_accepts_linux_abi() {
    let mut bytes = plain_header();
    bytes[7] = 3;
    let mut reader = Reader::from_bytes(&bytes);
    assert!(ElfHeader::parse(&mut reader).is_ok());
}

#[test]
fn header_first_failure_wins() {
    // Bad class and a truncated buffer: the class is checked before the end is reached.
    let bytes = vec![0x7F, b'E', b'L', b'F', 1, 1];
    let mut reader = Reader::from_bytes(&bytes);
    assert!(matches!(ElfHeader::parse(&mut reader), Err(ElfHeaderError::Not64Bit)));
    let short = &plain_header()[..63];
    let mut reader = Reader::from_bytes(short);
    assert!(matches!(
        ElfHeader::parse(&mut reader),
        Err(ElfHeaderError::ParseError(ParseError::OutOfBounds))
    ));
}

#[test]
fn reads_past_the_end_fail() {
    let bytes = [1u8, 2, 3, 4, 5];
    let mut r = Reader::from_bytes(&bytes);
    assert!(matches!(r.read_slice(6), Err(ParseError::OutOfBounds)));
    assert_eq!(r.index, 0);
    assert_eq!(r.read_u32().unwrap(), 0x0403_0201);
    assert_eq!(r.index, 4);
    assert!(matches!(r.read_u16(), Err(ParseError::OutOfBounds)));
    assert!(matches!(r.read_u32(), Err(ParseError::OutOfBounds)));
    assert!(matches!(r.read_u64(), Err(ParseError::OutOfBounds)));
    assert_eq!(r.index, 4);
    assert_eq!(r.read_u8().unwrap(), 5);
    assert!(matches!(r.read_u8(), Err(ParseError::OutOfBounds)));
    assert!(matches!(r.read_slice_from(3..6), Err(ParseError::OutOfBounds)));
    assert!(matches!(r.read_slice_from(usize::MAX - 1..usize::MAX), Err(ParseError::OutOfBounds)));
    assert_eq!(r.read_slice_from(1..3).unwrap(), &[2, 3]);
    assert_eq!(r.read_slice_from(5..5).unwrap(), &[] as &[u8]);
}

#[test]
fn seek_stays_inside_the_buffer() {
    let bytes = [0u8, 0, 0, 0, 0, 0, 0, 0, 0x10, 0x20];
    let mut r = Reader::from_bytes(&bytes);
    assert!(r.seek(8).is_ok());
    assert_eq!(r.read_u16().unwrap(), 0x2010);
    assert!(matches!(r.seek(10), Err(ParseError::OutOfBounds)));
    assert_eq!(r.index, 10);
    let mut r = Reader::from_bytes(&bytes);
    assert_eq!(r.read_u64().unwrap(), 0);
    assert_eq!(Addr::parse(&mut Reader::from_bytes(&bytes)).unwrap(), Addr(0));
    assert!(matches!(Addr::parse(&mut Reader::from_bytes(&bytes[3..])), Err(ParseError::OutOfBounds)));
}

#[test]
fn segment_lookup_scenario() {
    let bytes = image(&[seg(PT_LOAD, 0x1000, vec![7; 16])], &[]);
    let elf = Elf64::parse(&bytes).unwrap();
    let found = elf.segment_at(Addr(0x1004)).unwrap();
    assert_eq!(found.p_vaddr(), Addr(0x1000));
    assert_eq!(found.p_memsz(), Addr(16));
    assert!(elf.segment_at(Addr(0x2000)).is_none());
    assert!(elf.segment_at(Addr(0x1010)).is_none());
    assert!(elf.segment_at(Addr(0x0fff)).is_none());
    assert!(elf.segment_at(Addr(0x100f)).is_some());
}

#[test]
fn segment_lookup_takes_first_load_segment() {
    let bytes = image(
        &[
            seg(3, 0x1000, vec![1; 32]),
            seg(PT_LOAD, 0x1000, vec![2; 32]),
            seg(PT_LOAD, 0x1010, vec![3; 32]),
        ],
        &[],
    );
    let elf = Elf64::parse(&bytes).unwrap();
    let found = elf.segment_at(Addr(0x1018)).unwrap();
    assert_eq!(found.data[0], 2);
    let later = elf.segment_at(Addr(0x1028)).unwrap();
    assert_eq!(later.data[0], 3);
    assert_eq!(elf.segment_of_type(SegmentType::PtInterp).unwrap().data[0], 1);
    assert!(elf.segment_of_type(SegmentType::PtNote).is_none());
}

#[test]
fn slice_at_starts_at_the_address() {
    let mut s = seg(PT_LOAD, 0x4000, vec![10, 11, 12, 13]);
    s.memsz = 0x100;
    let elf = Elf64::parse(&image(&[s], &[])).unwrap();
    assert_eq!(elf.slice_at(Addr(0x4001)).unwrap(), &[11, 12, 13]);
    assert_eq!(elf.slice_at(Addr(0x4004)).unwrap(), &[] as &[u8]);
    // In memory but past the stored bytes.
    assert!(elf.slice_at(Addr(0x4005)).is_none());
    assert!(elf.slice_at(Addr(0x5000)).is_none());
}

#[test]
fn program_header_fields_and_ranges() {
    let mut s = seg(PT_LOAD, 0x8000, vec![0; 8]);
    s.flags = 0x4 | 0x1 | 0x80;
    s.memsz = 0x20;
    let elf = Elf64::parse(&image(&[s], &[])).unwrap();
    let ph = &elf.ph_table[0];
    assert_eq!(ph.p_type(), SegmentType::PtLoad);
    assert_eq!(ph.p_flags().bits(), 0x85);
    assert!(ph.p_flags().contains(SegmentFlags::READ));
    assert!(ph.p_flags().contains(SegmentFlags::EXEC));
    assert!(!ph.p_flags().contains(SegmentFlags::WRITE));
    assert_eq!(ph.p_align(), Addr(0x1000));
    assert_eq!(ph.p_addr(), Addr(0x8000));
    assert_eq!(ph.file_range(), Addr(120)..Addr(128));
    assert_eq!(ph.mem_range(), Addr(0x8000)..Addr(0x8020));
}

#[test]
fn reserved_segment_types_are_kept() {
    let elf = Elf64::parse(&image(
        &[seg(0x6474_E550, 0, vec![]), seg(0x7000_0001, 0, vec![])],
        &[],
    ))
    .unwrap();
    assert_eq!(elf.ph_table[0].p_type(), SegmentType::PtOsSpecific(0x6474_E550));
    assert_eq!(elf.ph_table[1].p_type(), SegmentType::PtProcSpecific(0x7000_0001));
}

#[test]
fn unknown_segment_type_fails() {
    let bytes = image(&[seg(0x8000_0000, 0, vec![])], &[]);
    match Elf64::parse(&bytes) {
        Err(ElfError::ProgramHeader(ProgramHeaderError::SegmentError(SegmentError::TypeUnknown(v)))) => {
            assert_eq!(v, 0x8000_0000)
        },
        other => panic!("unexpected {:?}", other.err()),
    }
    assert!(matches!(SegmentType::try_from(8u32), Err(SegmentError::TypeUnknown(8))));
}

#[test]
fn segment_bytes_outside_the_file_fail() {
    let mut bytes = image(&[seg(PT_LOAD, 0, vec![1, 2, 3])], &[]);
    // filesz grows past the end of the file.
    bytes[64 + 32] = 4;
    assert!(matches!(
        Elf64::parse(&bytes),
        Err(ElfError::ProgramHeader(ProgramHeaderError::ParseError(ParseError::OutOfBounds)))
    ));
}

#[test]
fn memory_range_past_64_bits_still_decodes() {
    let mut s = seg(PT_LOAD, u64::MAX - 4, vec![1]);
    s.memsz = 8;
    let elf = Elf64::parse(&image(&[s], &[])).unwrap();
    let ph = &elf.ph_table[0];
    assert_eq!(ph.p_vaddr(), Addr(u64::MAX - 4));
    assert_eq!(ph.p_memsz(), Addr(8));
    assert_eq!(ph.data, vec![1]);
    assert!(elf.segment_at(Addr(u64::MAX)).is_some());
    assert!(elf.segment_at(Addr(u64::MAX - 5)).is_none());
    assert_eq!(elf.slice_at(Addr(u64::MAX - 4)).unwrap(), &[1]);
}

#[test]
fn table_offsets_outside_the_file_fail() {
    let mut bytes = image(&[seg(PT_LOAD, 0, vec![1])], &[]);
    bytes[32] = 0xFF;
    bytes[33] = 0xFF;
    assert!(matches!(Elf64::parse(&bytes), Err(ElfError::ParseError(ParseError::OutOfBounds))));
    let mut bytes = image(&[], &[section(1, 0x10)]);
    bytes[60] = 2;
    assert!(matches!(
        Elf64::parse(&bytes),
        Err(ElfError::SectionError(SectionError::ParseError(ParseError::OutOfBounds)))
    ));
}

#[test]
fn sections_are_decoded_in_order() {
    let bytes = image(&[], &[section(1, 0x10), section(2, 0x20), section(3, 0x20)]);
    let elf = Elf64::parse(&bytes).unwrap();
    assert_eq!(elf.sh_table.len(), 3);
    let s = elf.section_starting_at(Addr(0x20)).unwrap();
    assert_eq!(s.sh_name, 2);
    assert_eq!(s.sh_addr(), Addr(0x20));
    assert_eq!(s.sh_flags, 6);
    assert_eq!(s.sh_offset, 0x100);
    assert_eq!(s.sh_size, 0x20);
    assert_eq!(s.sh_addralign, 16);
    assert!(elf.section_starting_at(Addr(0x18)).is_none());
}

fn string_image(strings: Vec<u8>, dyn_entries: &[(u64, u64)]) -> Elf64 {
    let bytes = image(
        &[seg(PT_DYNAMIC, 0x100, dynamic(dyn_entries)), seg(PT_LOAD, 0x2000, strings)],
        &[],
    );
    Elf64::parse(&bytes).unwrap()
}

#[test]
fn string_lookup_scenario() {
    let elf = string_image(b"\0foo\0".to_vec(), &[(1, 1), (5, 0x2000), (0, 0)]);
    assert_eq!(elf.get_string(Addr(1)).unwrap(), "foo");
    assert_eq!(elf.get_string(Addr(0)).unwrap(), "");
    assert_eq!(elf.dynamic_entry_strings(DynamicTag::Needed), vec!["foo".to_string()]);
}

#[test]
fn string_lookup_failures() {
    let elf = string_image(b"\0foo".to_vec(), &[(1, 1), (5, 0x2000), (0, 0)]);
    assert!(matches!(elf.get_string(Addr(1)), Err(StringError::StringNotFound)));
    assert!(matches!(elf.get_string(Addr(0x100)), Err(StringError::StrTabSegmentNotFound)));
    assert!(matches!(elf.get_string(Addr(u64::MAX)), Err(StringError::StrTabSegmentNotFound)));
    assert!(elf.dynamic_entry_strings(DynamicTag::Needed).is_empty());
    let elf = string_image(b"\0foo\0".to_vec(), &[(1, 1), (0, 0)]);
    assert!(matches!(elf.get_string(Addr(1)), Err(StringError::StrTabNotFound)));
}

#[test]
fn string_lookup_replaces_invalid_utf8() {
    let elf = string_image(vec![b'a', 0xFF, b'b', 0], &[(5, 0x2000), (0, 0)]);
    assert_eq!(elf.get_string(Addr(0)).unwrap(), "a\u{FFFD}b");
}

#[test]
fn dynamic_entries_keep_table_order() {
    let elf = string_image(
        b"\0a\0bc\0".to_vec(),
        &[(1, 1), (5, 0x2000), (1, 3), (0x6000_0010, 9), (0, 0), (1, 99)],
    );
    let table = elf.dynamic_table().unwrap();
    assert_eq!(table.len(), 5);
    assert_eq!(table[4].d_tag, DynamicTag::Null);
    assert_eq!(table[3].d_tag, DynamicTag::OsSpecific(0x6000_0010));
    assert_eq!(elf.dynamic_entries(DynamicTag::Needed), vec![Addr(1), Addr(3)]);
    assert_eq!(elf.dynamic_entry(DynamicTag::Needed), Some(Addr(1)));
    assert_eq!(elf.dynamic_entry(DynamicTag::StrTab), Some(Addr(0x2000)));
    assert_eq!(elf.dynamic_entry(DynamicTag::SymTab), None);
    assert!(elf.dynamic_entries(DynamicTag::Init).is_empty());
    assert_eq!(
        elf.dynamic_entry_strings(DynamicTag::Needed),
        vec!["a".to_string(), "bc".to_string()]
    );
}

#[test]
fn image_without_dynamic_segment() {
    let elf = Elf64::parse(&image(&[seg(PT_LOAD, 0, vec![0; 4])], &[])).unwrap();
    assert!(elf.dynamic_table().is_none());
    assert!(elf.dynamic_entries(DynamicTag::Needed).is_empty());
    assert_eq!(elf.dynamic_entry(DynamicTag::StrTab), None);
    assert!(matches!(elf.get_string(Addr(0)), Err(StringError::StrTabNotFound)));
    assert!(matches!(
        elf.read_rela_entries(),
        Err(SegmentError::DynamicError(DynamicError::TagNotFound(DynamicTag::RelA)))
    ));
}

#[test]
fn dynamic_table_ends_with_its_only_end_entry() {
    let bytes = dynamic(&[(1, 5), (0x7000_0001, 2), (0, 0), (3, 3)]);
    let table = elf64::DynamicTable::parse(&bytes).unwrap();
    let entries = table.entries();
    assert_eq!(entries.len(), 3);
    assert_eq!(entries[2].d_tag, DynamicTag::Null);
    assert_eq!(entries.iter().filter(|e| e.d_tag == DynamicTag::Null).count(), 1);
    assert_eq!(entries[1].d_tag, DynamicTag::ProcSpecific(0x7000_0001));
    assert_eq!(entries[0].d_un, Addr(5));
}

#[test]
fn dynamic_table_without_end_entry_fails() {
    let bytes = dynamic(&[(1, 5), (5, 0x2000)]);
    assert!(matches!(
        elf64::DynamicTable::parse(&bytes),
        Err(SegmentError::ParseError(ParseError::OutOfBounds))
    ));
    let mut bytes = dynamic(&[(1, 5), (0, 0)]);
    bytes.truncate(24);
    assert!(matches!(
        elf64::DynamicTable::parse(&bytes),
        Err(SegmentError::ParseError(ParseError::OutOfBounds))
    ));
    let whole = image(&[seg(PT_DYNAMIC, 0x100, dynamic(&[(1, 5)]))], &[]);
    assert!(matches!(
        Elf64::parse(&whole),
        Err(ElfError::ProgramHeader(ProgramHeaderError::SegmentError(SegmentError::ParseError(
            ParseError::OutOfBounds
        ))))
    ));
}

#[test]
fn dynamic_table_unknown_tag_fails() {
    let bytes = dynamic(&[(29, 5), (0, 0)]);
    assert!(matches!(
        elf64::DynamicTable::parse(&bytes),
        Err(SegmentError::DynamicError(DynamicError::EntryUnknown(29)))
    ));
}

fn rela_image(records: Vec<u8>, size: u64) -> Elf64 {
    let bytes = image(
        &[
            seg(PT_DYNAMIC, 0x100, dynamic(&[(7, 0x3008), (8, size), (0, 0)])),
            seg(PT_LOAD, 0x3000, [vec![0xAA; 8], records].concat()),
        ],
        &[],
    );
    Elf64::parse(&bytes).unwrap()
}

#[test]
fn relocation_scenario() {
    let records = [rela(0x4000, 8, 0, -16), rela(0x4008, 7, 3, 0x20)].concat();
    let elf = rela_image(records, 48);
    let relas = elf.read_rela_entries().unwrap();
    assert_eq!(relas.len(), 2);
    assert_eq!(relas[0].r_offset, Addr(0x4000));
    assert_eq!(relas[0].r_type, RelType::Relative);
    assert_eq!(relas[0].r_sym, 0);
    assert_eq!(relas[0].r_addend, -16);
    assert_eq!(relas[1].r_offset, Addr(0x4008));
    assert_eq!(relas[1].r_type, RelType::JumpSlot);
    assert_eq!(relas[1].r_sym, 3);
    assert_eq!(relas[1].r_addend, 0x20);
}

#[test]
fn relocation_failures() {
    let records = [rela(0x4000, 8, 0, 0), rela(0x4008, 7, 3, 0)].concat();
    let elf = rela_image(records.clone(), 40);
    assert!(matches!(elf.read_rela_entries(), Err(SegmentError::ParseError(ParseError::OutOfBounds))));
    let elf = rela_image(records.clone(), 72);
    match elf.read_rela_entries() {
        Err(SegmentError::ParseError(ParseError::BadRange(r))) => assert_eq!(r, 8..80),
        other => panic!("unexpected {:?}", other),
    }
    let elf = rela_image(records, u64::MAX);
    assert!(matches!(elf.read_rela_entries(), Err(SegmentError::AddrError(_))));
    let elf = rela_image(rela(0, 42, 0, 0), 24);
    assert!(matches!(
        elf.read_rela_entries(),
        Err(SegmentError::RelocError(elf64::reloc::Error::InvalidRelocationType(42)))
    ));
    let bytes = image(&[seg(PT_DYNAMIC, 0x100, dynamic(&[(7, 0x9000), (8, 24), (0, 0)]))], &[]);
    let elf = Elf64::parse(&bytes).unwrap();
    assert!(matches!(elf.read_rela_entries(), Err(SegmentError::BadPtLoadAddr(Addr(0x9000)))));
    let bytes = image(&[seg(PT_DYNAMIC, 0x100, dynamic(&[(7, 0x9000), (0, 0)]))], &[]);
    let elf = Elf64::parse(&bytes).unwrap();
    assert!(matches!(
        elf.read_rela_entries(),
        Err(SegmentError::DynamicError(DynamicError::TagNotFound(DynamicTag::RelASz)))
    ));
}

#[test]
fn empty_relocation_table() {
    let elf = rela_image(vec![1, 2, 3], 0);
    assert!(elf.read_rela_entries().unwrap().is_empty());
    // An address just past the segment's memory range has no backing segment.
    let elf = rela_image(vec![], 0);
    assert!(matches!(elf.read_rela_entries(), Err(SegmentError::BadPtLoadAddr(Addr(0x3008)))));
}

#[test]
fn codes_convert_to_kinds() {
    assert_eq!(FileType::try_from(4u16).unwrap(), FileType::EtCore);
    assert!(FileType::try_from(5u16).is_err());
    assert_eq!(Machine::try_from(3u16).unwrap(), Machine::X86);
    assert!(Machine::try_from(0x28u16).is_err());
    assert_eq!(RelType::try_from(0u32).unwrap(), RelType::Null);
    assert_eq!(DynamicTag::try_from(28u64).unwrap(), DynamicTag::FiniArraySz);
    assert_eq!(DynamicTag::try_from(0x6FFF_FFFFu64).unwrap(), DynamicTag::OsSpecific(0x6FFF_FFFF));
    assert!(matches!(
        DynamicTag::try_from(0x8000_0000u64),
        Err(SegmentError::DynamicError(DynamicError::EntryUnknown(0x8000_0000)))
    ));
    assert_eq!(SegmentType::try_from(0x6000_0000u32).unwrap(), SegmentType::PtOsSpecific(0x6000_0000));
    assert_eq!(SegmentType::try_from(7u32).unwrap(), SegmentType::PtTls);
}

#[test]
fn address_arithmetic_is_checked() {
    assert_eq!(Addr(5).checked_add(Addr(7)), Some(Addr(12)));
    assert_eq!(Addr(u64::MAX).checked_add(Addr(1)), None);
    assert_eq!(Addr(7).checked_sub(Addr(5)), Some(Addr(2)));
    assert_eq!(Addr(5).checked_sub(Addr(7)), None);
    assert_eq!(Addr(9).to_usize(), Some(9));
    assert_eq!(u64::from(Addr(3)), 3);
    assert_eq!(Addr::from(4u64), Addr(4));
    assert!(Addr(3) < Addr(4));
    assert_eq!(Addr(9).max(Addr(2)), Addr(9));
}
