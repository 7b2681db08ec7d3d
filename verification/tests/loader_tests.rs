use sec_loader::elf::ElfClass;
use sec_loader::elf::ProgramHeader64;
use sec_loader::elf::parse_elf_header32;
use sec_loader::elf::parse_elf_header64;
use sec_loader::elf::parse_phdr_table64;
use sec_loader::elf::sniff_image_format;
use sec_loader::memory::Memory;
use sec_loader::memory::copy_segment;
use sec_loader::plan::plan_load_region32;
use sec_loader::plan::plan_load_region64;
use sec_loader::sec::FindAndReportEntryPoint;

fn put_u16(buf: &mut Vec<u8>, off: usize, v: u16) {
    let b = v.to_le_bytes();
    buf[off..off + 2].copy_from_slice(&b);
}

fn put_u32(buf: &mut Vec<u8>, off: usize, v: u32) {
    let b = v.to_le_bytes();
    buf[off..off + 4].copy_from_slice(&b);
}

fn put_u64(buf: &mut Vec<u8>, off: usize, v: u64) {
    let b = v.to_le_bytes();
    buf[off..off + 8].copy_from_slice(&b);
}

struct Seg64 {
    p_type: u32,
    offset: u64,
    vaddr: u64,
    filesz: u64,
    memsz: u64,
}

/// A 64-bit image: header at 0, program-header table at 0x40, 0x38 bytes per
/// entry, and a payload pattern over the rest of the buffer.
fn build_elf64(total: usize, entry: u64, segs: &[Seg64]) -> Vec<u8> {
    let mut img = vec![0u8; total];
    for (i, b) in img.iter_mut().enumerate() {
        *b = (i % 251) as u8;
    }
    img[0] = 0x7f;
    img[1] = b'E';
    img[2] = b'L';
    img[3] = b'F';
    img[4] = 2;
    put_u64(&mut img, 0x18, entry);
    put_u64(&mut img, 0x20, 0x40);
    put_u16(&mut img, 0x36, 0x38);
    put_u16(&mut img, 0x38, segs.len() as u16);
    for (i, s) in segs.iter().enumerate() {
        let off = 0x40 + i * 0x38;
        put_u32(&mut img, off, s.p_type);
        put_u64(&mut img, off + 0x08, s.offset);
        put_u64(&mut img, off + 0x10, s.vaddr);
        put_u64(&mut img, off + 0x20, s.filesz);
        put_u64(&mut img, off + 0x28, s.memsz);
    }
    img
}

/// The same geometry through the 32-bit layout: header at 0, table at 0x34,
/// 0x20 bytes per entry.
fn build_elf32(total: usize, entry: u32, segs: &[Seg64]) -> Vec<u8> {
    let mut img = vec![0u8; total];
    for (i, b) in img.iter_mut().enumerate() {
        *b = (i % 251) as u8;
    }
    img[0] = 0x7f;
    img[1] = b'E';
    img[2] = b'L';
    img[3] = b'F';
    img[4] = 1;
    put_u32(&mut img, 0x18, entry);
    put_u32(&mut img, 0x1c, 0x34);
    put_u16(&mut img, 0x2a, 0x20);
    put_u16(&mut img, 0x2c, segs.len() as u16);
    for (i, s) in segs.iter().enumerate() {
        let off = 0x34 + i * 0x20;
        put_u32(&mut img, off, s.p_type);
        put_u32(&mut img, off + 0x04, s.offset as u32);
        put_u32(&mut img, off + 0x08, s.vaddr as u32);
        put_u32(&mut img, off + 0x10, s.filesz as u32);
        put_u32(&mut img, off + 0x14, s.memsz as u32);
    }
    img
}

fn fresh_memory(base: u64, len: usize) -> Memory {
    Memory { base, bytes: vec![0u8; len] }
}

#[test]
fn sniff_rejects_bad_magic() {
    let data = vec![0x7eu8, b'E', b'L', b'F', 2, 0, 0, 0];
    assert!(sniff_image_format(&data).is_none());
    let mut mem = fresh_memory(0x1000, 0x1000);
    let before = mem.bytes.clone();
    let entry = FindAndReportEntryPoint(&data, &mut mem);
    assert_eq!(entry, 0);
    assert_eq!(mem.bytes, before);
}

#[test]
fn sniff_rejects_unknown_class() {
    let mut data = vec![0u8; 0x100];
    data[0] = 0x7f;
    data[1] = b'E';
    data[2] = b'L';
    data[3] = b'F';
    data[4] = 3;
    assert!(sniff_image_format(&data).is_none());
    let mut mem = fresh_memory(0x1000, 0x1000);
    let before = mem.bytes.clone();
    let entry = FindAndReportEntryPoint(&data, &mut mem);
    assert_eq!(entry, 0);
    assert_eq!(mem.bytes, before);
}

#[test]
fn sniff_short_buffer_fails() {
    let data = vec![0x7fu8, b'E', b'L'];
    assert!(sniff_image_format(&data).is_none());
    let data2 = vec![0x7fu8, b'E', b'L', b'F'];
    assert!(sniff_image_format(&data2).is_none());
}

#[test]
fn sniff_reads_class_byte() {
    let data = vec![0x7fu8, b'E', b'L', b'F', 2];
    assert_eq!(sniff_image_format(&data), Some(ElfClass::Class64));
    let data = vec![0x7fu8, b'E', b'L', b'F', 1];
    assert_eq!(sniff_image_format(&data), Some(ElfClass::Class32));
}

#[test]
fn header64_fields_parse_exactly() {
    let img = build_elf64(
        0x100,
        0xdead_beef_0123_4567,
        &[Seg64 { p_type: 1, offset: 0x80, vaddr: 0x9000, filesz: 0x10, memsz: 0x20 }],
    );
    let h = parse_elf_header64(&img).unwrap();
    assert_eq!(h.e_entry, 0xdead_beef_0123_4567);
    assert_eq!(h.e_phoff, 0x40);
    assert_eq!(h.e_phentsize, 0x38);
    assert_eq!(h.e_phnum, 1);
    let t = parse_phdr_table64(&img, &h).unwrap();
    assert_eq!(t.len(), 1);
    assert_eq!(t[0].p_type, 1);
    assert_eq!(t[0].p_offset, 0x80);
    assert_eq!(t[0].p_vaddr, 0x9000);
    assert_eq!(t[0].p_filesz, 0x10);
    assert_eq!(t[0].p_memsz, 0x20);
}

#[test]
fn header32_fields_parse_exactly() {
    let img = build_elf32(
        0x100,
        0x100010,
        &[Seg64 { p_type: 1, offset: 0x80, vaddr: 0x9000, filesz: 0x10, memsz: 0x20 }],
    );
    let h = parse_elf_header32(&img).unwrap();
    assert_eq!(h.e_entry, 0x100010);
    assert_eq!(h.e_phoff, 0x34);
    assert_eq!(h.e_phentsize, 0x20);
    assert_eq!(h.e_phnum, 1);
}

#[test]
fn copy_single_segment_fidelity() {
    let mut data = vec![0u8; 0x400];
    for (i, b) in data.iter_mut().enumerate() {
        *b = (i as u8).wrapping_mul(7);
    }
    let mut mem = fresh_memory(0x8000, 0x1000);
    copy_segment(&data, &mut mem, 0x100, 0x8200, 0x80);
    for j in 0..0x80usize {
        assert_eq!(mem.bytes[0x200 + j], data[0x100 + j]);
    }
    for j in 0..0x200usize {
        assert_eq!(mem.bytes[j], 0);
    }
    for j in 0x280..0x1000usize {
        assert_eq!(mem.bytes[j], 0);
    }
}

#[test]
fn end_to_end_elf64() {
    let img = build_elf64(
        0x2800,
        0x100010,
        &[Seg64 { p_type: 1, offset: 0x1000, vaddr: 0x100000, filesz: 0x1800, memsz: 0x2000 }],
    );
    let h = parse_elf_header64(&img).unwrap();
    let t = parse_phdr_table64(&img, &h).unwrap();
    let region = plan_load_region64(&t).unwrap();
    assert_eq!(region.low, 0x100000);
    assert_eq!(region.high, 0x103000);
    let mut mem = fresh_memory(0x100000, 0x3000);
    let entry = FindAndReportEntryPoint(&img, &mut mem);
    assert_eq!(entry, 0x100010);
    for j in 0..0x1800usize {
        assert_eq!(mem.bytes[j], img[0x1000 + j]);
    }
    for j in 0x1800..0x3000usize {
        assert_eq!(mem.bytes[j], 0);
    }
}

#[test]
fn end_to_end_no_load_segments() {
    let img = build_elf64(
        0x2800,
        0x100010,
        &[Seg64 { p_type: 0, offset: 0x1000, vaddr: 0x100000, filesz: 0x1800, memsz: 0x2000 }],
    );
    let h = parse_elf_header64(&img).unwrap();
    let t = parse_phdr_table64(&img, &h).unwrap();
    assert!(plan_load_region64(&t).is_none());
    let mut mem = fresh_memory(0x100000, 0x3000);
    let before = mem.bytes.clone();
    let entry = FindAndReportEntryPoint(&img, &mut mem);
    assert_eq!(entry, 0);
    assert_eq!(mem.bytes, before);
}

#[test]
fn width_dispatch_same_region_and_bytes() {
    let seg = Seg64 { p_type: 1, offset: 0x1000, vaddr: 0x100000, filesz: 0x1800, memsz: 0x2000 };
    let img64 = build_elf64(0x2800, 0x100010, &[seg]);
    let seg = Seg64 { p_type: 1, offset: 0x1000, vaddr: 0x100000, filesz: 0x1800, memsz: 0x2000 };
    let img32 = build_elf32(0x2800, 0x100010, &[seg]);

    let h32 = parse_elf_header32(&img32).unwrap();
    let t32 = sec_loader::elf::parse_phdr_table32(&img32, &h32).unwrap();
    let r32 = plan_load_region32(&t32).unwrap();
    assert_eq!(r32.low, 0x100000);
    assert_eq!(r32.high, 0x103000);

    let h64 = parse_elf_header64(&img64).unwrap();
    let t64 = parse_phdr_table64(&img64, &h64).unwrap();
    let r64 = plan_load_region64(&t64).unwrap();
    assert_eq!(r64.low as u32, r32.low);
    assert_eq!(r64.high as u32, r32.high);

    let mut mem32 = fresh_memory(0x100000, 0x3000);
    let entry32 = FindAndReportEntryPoint(&img32, &mut mem32);
    assert_eq!(entry32, 0x100010);
    let mut mem64 = fresh_memory(0x100000, 0x3000);
    let entry64 = FindAndReportEntryPoint(&img64, &mut mem64);
    assert_eq!(entry64, 0x100010);
    for j in 0..0x1800usize {
        assert_eq!(mem32.bytes[j], img32[0x1000 + j]);
        assert_eq!(mem64.bytes[j], img64[0x1000 + j]);
    }
}

#[test]
fn planner_region_covers_two_segments() {
    let t = vec![
        ProgramHeader64 { p_type: 1, p_offset: 0, p_vaddr: 0x5000, p_filesz: 0, p_memsz: 0x100 },
        ProgramHeader64 { p_type: 1, p_offset: 0, p_vaddr: 0x3500, p_filesz: 0, p_memsz: 0x800 },
    ];
    let region = plan_load_region64(&t).unwrap();
    assert_eq!(region.low, 0x3000);
    assert_eq!(region.high, 0x6000);
}

#[test]
fn planner_ignores_non_loadable_entries() {
    let t = vec![
        ProgramHeader64 { p_type: 1, p_offset: 0, p_vaddr: 0x5000, p_filesz: 0, p_memsz: 0x100 },
        ProgramHeader64 { p_type: 4, p_offset: 0, p_vaddr: 0x1000, p_filesz: 0, p_memsz: 0x100 },
        ProgramHeader64 {
            p_type: 2,
            p_offset: 0,
            p_vaddr: 0xffff_0000_0000_0000,
            p_filesz: 0,
            p_memsz: 0x100,
        },
    ];
    let region = plan_load_region64(&t).unwrap();
    assert_eq!(region.low, 0x5000);
    assert_eq!(region.high, 0x6000);
}

#[test]
fn planner_aligned_end_still_gains_a_page() {
    let t = vec![ProgramHeader64 {
        p_type: 1,
        p_offset: 0,
        p_vaddr: 0x4000,
        p_filesz: 0,
        p_memsz: 0x1000,
    }];
    let region = plan_load_region64(&t).unwrap();
    assert_eq!(region.low, 0x4000);
    assert_eq!(region.high, 0x6000);
}

#[test]
fn planner_rejects_empty_table() {
    let t: Vec<ProgramHeader64> = Vec::new();
    assert!(plan_load_region64(&t).is_none());
    let t32: Vec<sec_loader::elf::ProgramHeader32> = Vec::new();
    assert!(plan_load_region32(&t32).is_none());
}

#[test]
fn planner_rejects_overflowing_segment_end() {
    let t = vec![ProgramHeader64 {
        p_type: 1,
        p_offset: 0,
        p_vaddr: u64::MAX - 10,
        p_filesz: 0,
        p_memsz: 100,
    }];
    assert!(plan_load_region64(&t).is_none());
}

#[test]
fn table_extent_beyond_image_fails() {
    let mut img = build_elf64(
        0x2800,
        0x100010,
        &[Seg64 { p_type: 1, offset: 0x1000, vaddr: 0x100000, filesz: 0x1800, memsz: 0x2000 }],
    );
    put_u64(&mut img, 0x20, 0x27f0);
    let h = parse_elf_header64(&img).unwrap();
    assert!(parse_phdr_table64(&img, &h).is_none());
    let mut mem = fresh_memory(0x100000, 0x3000);
    let before = mem.bytes.clone();
    let entry = FindAndReportEntryPoint(&img, &mut mem);
    assert_eq!(entry, 0);
    assert_eq!(mem.bytes, before);
}

#[test]
fn copy_source_out_of_bounds_fails() {
    let img = build_elf64(
        0x2000,
        0x100010,
        &[Seg64 { p_type: 1, offset: 0x1000, vaddr: 0x100000, filesz: 0x1800, memsz: 0x2000 }],
    );
    let mut mem = fresh_memory(0x100000, 0x3000);
    let before = mem.bytes.clone();
    let entry = FindAndReportEntryPoint(&img, &mut mem);
    assert_eq!(entry, 0);
    assert_eq!(mem.bytes, before);
}

#[test]
fn destination_outside_window_fails() {
    let img = build_elf64(
        0x2800,
        0x100010,
        &[Seg64 { p_type: 1, offset: 0x1000, vaddr: 0x100000, filesz: 0x1800, memsz: 0x2000 }],
    );
    let mut mem = fresh_memory(0x200000, 0x3000);
    let before = mem.bytes.clone();
    let entry = FindAndReportEntryPoint(&img, &mut mem);
    assert_eq!(entry, 0);
    assert_eq!(mem.bytes, before);
}
