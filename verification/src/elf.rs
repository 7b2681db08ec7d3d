//! ELF image sniffing and bounds-checked parsing of the header fields and
//! program-header table entries that drive loading.  Field layout follows the
//! standard ELF specification for both the 32- and the 64-bit variant.

use vstd::prelude::*;

verus! {

pub const ELFMAG0: u8 = 0x7f;
pub const ELFMAG1: u8 = 0x45;
pub const ELFMAG2: u8 = 0x4c;
pub const ELFMAG3: u8 = 0x46;

/// Offset of the word-size class byte inside the identification bytes.
pub const EI_CLASS: usize = 4;

pub const ELFCLASS32: u8 = 1;
pub const ELFCLASS64: u8 = 2;

/// Program-header type marking a loadable segment.
pub const PT_LOAD: u32 = 1;

/// Byte size of a 64-bit ELF header.
pub const EHDR64_SIZE: usize = 64;

/// Byte size of a 32-bit ELF header.
pub const EHDR32_SIZE: usize = 52;

/// Byte size of one 64-bit program-header entry.
pub const PHDR64_SIZE: usize = 56;

/// Byte size of one 32-bit program-header entry.
pub const PHDR32_SIZE: usize = 32;

/// The little-endian 16-bit value stored at byte offset `i`.
pub open spec fn spec_le16(d: Seq<u8>, i: int) -> u16 {
    (d[i] + d[i + 1] * 0x100) as u16
}

/// The little-endian 32-bit value stored at byte offset `i`.
pub open spec fn spec_le32(d: Seq<u8>, i: int) -> u32 {
    (spec_le16(d, i) + spec_le16(d, i + 2) * 0x1_0000) as u32
}

/// The little-endian 64-bit value stored at byte offset `i`.
pub open spec fn spec_le64(d: Seq<u8>, i: int) -> u64 {
    (spec_le32(d, i) + spec_le32(d, i + 4) * 0x1_0000_0000) as u64
}

fn read_u16_le(d: &[u8], off: usize) -> (r: u16)
    requires
        off + 2 <= d@.len(),
    ensures
        r == spec_le16(d@, off as int),
{
    let n: usize = d.len();
    assert(off + 2 <= n);
    d[off] as u16 + d[off + 1] as u16 * 0x100
}

fn read_u32_le(d: &[u8], off: usize) -> (r: u32)
    requires
        off + 4 <= d@.len(),
    ensures
        r == spec_le32(d@, off as int),
{
    let n: usize = d.len();
    assert(off + 4 <= n);
    read_u16_le(d, off) as u32 + read_u16_le(d, off + 2) as u32 * 0x1_0000
}

fn read_u64_le(d: &[u8], off: usize) -> (r: u64)
    requires
        off + 8 <= d@.len(),
    ensures
        r == spec_le64(d@, off as int),
{
    let n: usize = d.len();
    assert(off + 8 <= n);
    read_u32_le(d, off) as u64 + read_u32_le(d, off + 4) as u64 * 0x1_0000_0000
}

/// The word-size class of a candidate image, read from its class byte.
#[derive(Clone, Copy, PartialEq, Eq, Structural, Debug)]
pub enum ElfClass {
    Class32,
    Class64,
}

/// What sniffing yields: the class byte interpreted, provided the buffer is
/// long enough and opens with the four ELF magic bytes.
pub open spec fn spec_sniff(d: Seq<u8>) -> Option<ElfClass> {
    if d.len() < 5 {
        None
    } else if d[0] != ELFMAG0 || d[1] != ELFMAG1 || d[2] != ELFMAG2 || d[3] != ELFMAG3 {
        None
    } else if d[4] == ELFCLASS32 {
        Some(ElfClass::Class32)
    } else if d[4] == ELFCLASS64 {
        Some(ElfClass::Class64)
    } else {
        None
    }
}

/// Confirms the ELF magic and reads the word-size class byte.  Fails on a
/// short buffer, a wrong magic, or an unrecognized class value; no byte past
/// the first five is ever read.
pub fn sniff_image_format(d: &[u8]) -> (r: Option<ElfClass>)
    ensures
        r == spec_sniff(d@),
{
    if d.len() < 5 {
        return None;
    }
    if d[0] != ELFMAG0 || d[1] != ELFMAG1 || d[2] != ELFMAG2 || d[3] != ELFMAG3 {
        return None;
    }
    let class = d[EI_CLASS];
    if class == ELFCLASS32 {
        Some(ElfClass::Class32)
    } else if class == ELFCLASS64 {
        Some(ElfClass::Class64)
    } else {
        None
    }
}

/// The 64-bit ELF header fields that loading depends on.
#[derive(Clone, Copy, PartialEq, Eq, Structural, Debug)]
pub struct ELFHeader64 {
    pub e_entry: u64,
    pub e_phoff: u64,
    pub e_phentsize: u16,
    pub e_phnum: u16,
}

/// The 32-bit ELF header fields that loading depends on.
#[derive(Clone, Copy, PartialEq, Eq, Structural, Debug)]
pub struct ELFHeader32 {
    pub e_entry: u32,
    pub e_phoff: u32,
    pub e_phentsize: u16,
    pub e_phnum: u16,
}

/// One 64-bit program-header entry, reduced to the fields loading reads.
#[derive(Clone, Copy, PartialEq, Eq, Structural, Debug)]
pub struct ProgramHeader64 {
    pub p_type: u32,
    pub p_offset: u64,
    pub p_vaddr: u64,
    pub p_filesz: u64,
    pub p_memsz: u64,
}

/// One 32-bit program-header entry, reduced to the fields loading reads.
#[derive(Clone, Copy, PartialEq, Eq, Structural, Debug)]
pub struct ProgramHeader32 {
    pub p_type: u32,
    pub p_offset: u32,
    pub p_vaddr: u32,
    pub p_filesz: u32,
    pub p_memsz: u32,
}

/// The 64-bit header fields at their standard byte offsets.
pub open spec fn spec_header64(d: Seq<u8>) -> ELFHeader64 {
    ELFHeader64 {
        e_entry: spec_le64(d, 0x18),
        e_phoff: spec_le64(d, 0x20),
        e_phentsize: spec_le16(d, 0x36),
        e_phnum: spec_le16(d, 0x38),
    }
}

/// The 32-bit header fields at their standard byte offsets.
pub open spec fn spec_header32(d: Seq<u8>) -> ELFHeader32 {
    ELFHeader32 {
        e_entry: spec_le32(d, 0x18),
        e_phoff: spec_le32(d, 0x1c),
        e_phentsize: spec_le16(d, 0x2a),
        e_phnum: spec_le16(d, 0x2c),
    }
}

/// The 64-bit program-header entry whose bytes start at offset `off`.
pub open spec fn spec_phdr64(d: Seq<u8>, off: int) -> ProgramHeader64 {
    ProgramHeader64 {
        p_type: spec_le32(d, off),
        p_offset: spec_le64(d, off + 0x08),
        p_vaddr: spec_le64(d, off + 0x10),
        p_filesz: spec_le64(d, off + 0x20),
        p_memsz: spec_le64(d, off + 0x28),
    }
}

/// The 32-bit program-header entry whose bytes start at offset `off`.
pub open spec fn spec_phdr32(d: Seq<u8>, off: int) -> ProgramHeader32 {
    ProgramHeader32 {
        p_type: spec_le32(d, off),
        p_offset: spec_le32(d, off + 0x04),
        p_vaddr: spec_le32(d, off + 0x08),
        p_filesz: spec_le32(d, off + 0x10),
        p_memsz: spec_le32(d, off + 0x14),
    }
}

/// Reads the 64-bit header, or fails when the buffer cannot hold one.
pub fn parse_elf_header64(d: &[u8]) -> (r: Option<ELFHeader64>)
    ensures
        d@.len() >= EHDR64_SIZE ==> r == Some(spec_header64(d@)),
        d@.len() < EHDR64_SIZE ==> r is None,
{
    if d.len() < EHDR64_SIZE {
        return None;
    }
    Some(ELFHeader64 {
        e_entry: read_u64_le(d, 0x18),
        e_phoff: read_u64_le(d, 0x20),
        e_phentsize: read_u16_le(d, 0x36),
        e_phnum: read_u16_le(d, 0x38),
    })
}

/// Reads the 32-bit header, or fails when the buffer cannot hold one.
pub fn parse_elf_header32(d: &[u8]) -> (r: Option<ELFHeader32>)
    ensures
        d@.len() >= EHDR32_SIZE ==> r == Some(spec_header32(d@)),
        d@.len() < EHDR32_SIZE ==> r is None,
{
    if d.len() < EHDR32_SIZE {
        return None;
    }
    Some(ELFHeader32 {
        e_entry: read_u32_le(d, 0x18),
        e_phoff: read_u32_le(d, 0x1c),
        e_phentsize: read_u16_le(d, 0x2a),
        e_phnum: read_u16_le(d, 0x2c),
    })
}

fn parse_phdr64_at(d: &[u8], off: usize) -> (r: ProgramHeader64)
    requires
        off + PHDR64_SIZE <= d@.len(),
    ensures
        r == spec_phdr64(d@, off as int),
{
    let n: usize = d.len();
    assert(off + PHDR64_SIZE <= n);
    ProgramHeader64 {
        p_type: read_u32_le(d, off),
        p_offset: read_u64_le(d, off + 0x08),
        p_vaddr: read_u64_le(d, off + 0x10),
        p_filesz: read_u64_le(d, off + 0x20),
        p_memsz: read_u64_le(d, off + 0x28),
    }
}

fn parse_phdr32_at(d: &[u8], off: usize) -> (r: ProgramHeader32)
    requires
        off + PHDR32_SIZE <= d@.len(),
    ensures
        r == spec_phdr32(d@, off as int),
{
    let n: usize = d.len();
    assert(off + PHDR32_SIZE <= n);
    ProgramHeader32 {
        p_type: read_u32_le(d, off),
        p_offset: read_u32_le(d, off + 0x04),
        p_vaddr: read_u32_le(d, off + 0x08),
        p_filesz: read_u32_le(d, off + 0x10),
        p_memsz: read_u32_le(d, off + 0x14),
    }
}

/// True when the header's claimed program-header table lies wholly inside the
/// image and each entry is large enough to hold the standard 64-bit fields.
pub open spec fn spec_table_fits64(d: Seq<u8>, h: ELFHeader64) -> bool {
    &&& h.e_phentsize >= PHDR64_SIZE
    &&& h.e_phoff + h.e_phentsize * h.e_phnum <= d.len()
}

/// True when the header's claimed program-header table lies wholly inside the
/// image and each entry is large enough to hold the standard 32-bit fields.
pub open spec fn spec_table_fits32(d: Seq<u8>, h: ELFHeader32) -> bool {
    &&& h.e_phentsize >= PHDR32_SIZE
    &&& h.e_phoff + h.e_phentsize * h.e_phnum <= d.len()
}

/// The `n`-entry 64-bit program-header table at `phoff`, entries spaced
/// `phentsize` bytes apart.
pub open spec fn spec_phdr_table64(d: Seq<u8>, phoff: int, phentsize: int, n: int) -> Seq<
    ProgramHeader64,
> {
    Seq::new(n as nat, |i: int| spec_phdr64(d, phoff + i * phentsize))
}

/// The `n`-entry 32-bit program-header table at `phoff`, entries spaced
/// `phentsize` bytes apart.
pub open spec fn spec_phdr_table32(d: Seq<u8>, phoff: int, phentsize: int, n: int) -> Seq<
    ProgramHeader32,
> {
    Seq::new(n as nat, |i: int| spec_phdr32(d, phoff + i * phentsize))
}

/// Walks the program-header table the 64-bit header claims, after checking
/// that its whole extent lies inside the image; a table that reaches past the
/// image's end is rejected rather than read.
pub fn parse_phdr_table64(d: &[u8], h: &ELFHeader64) -> (r: Option<Vec<ProgramHeader64>>)
    ensures
        spec_table_fits64(d@, *h) <==> r is Some,
        r is Some ==> r->Some_0@ == spec_phdr_table64(
            d@,
            h.e_phoff as int,
            h.e_phentsize as int,
            h.e_phnum as int,
        ),
{
    if (h.e_phentsize as usize) < PHDR64_SIZE {
        return None;
    }
    let len64: u64 = d.len() as u64;
    proof {
        assert((h.e_phentsize as int) * (h.e_phnum as int) <= 0xffff * 0xffff)
            by (nonlinear_arith)
            requires
                h.e_phentsize as int <= 0xffff,
                h.e_phnum as int <= 0xffff,
        ;
    }
    let extent: u64 = (h.e_phentsize as u64) * (h.e_phnum as u64);
    if h.e_phoff > len64 || extent > len64 - h.e_phoff {
        return None;
    }
    let ghost table = spec_phdr_table64(d@, h.e_phoff as int, h.e_phentsize as int, h.e_phnum as int);
    let mut v: Vec<ProgramHeader64> = Vec::new();
    let mut i: usize = 0;
    while i < h.e_phnum as usize
        invariant
            i <= h.e_phnum,
            h.e_phentsize >= PHDR64_SIZE,
            h.e_phoff + h.e_phentsize * h.e_phnum <= d@.len(),
            d@.len() <= usize::MAX,
            d@.len() <= u64::MAX,
            table == spec_phdr_table64(d@, h.e_phoff as int, h.e_phentsize as int, h.e_phnum as int),
            v@ == table.take(i as int),
        decreases h.e_phnum - i,
    {
        proof {
            assert(0 <= (i as int) * (h.e_phentsize as int) && (h.e_phoff as int) + (
            i as int) * (h.e_phentsize as int) + (h.e_phentsize as int) <= (h.e_phoff as int) + (
            h.e_phentsize as int) * (h.e_phnum as int)) by (nonlinear_arith)
                requires
                    0 <= i as int,
                    i as int + 1 <= h.e_phnum as int,
                    h.e_phentsize as int >= 0,
                    h.e_phoff as int >= 0,
            ;
        }
        let off: u64 = h.e_phoff + (i as u64) * (h.e_phentsize as u64);
        let e = parse_phdr64_at(d, off as usize);
        v.push(e);
        proof {
            assert(table.take(i + 1).drop_last() =~= table.take(i as int));
            assert(v@ =~= table.take(i + 1));
        }
        i = i + 1;
    }
    proof {
        assert(table.take(h.e_phnum as int) =~= table);
    }
    Some(v)
}

/// Walks the program-header table the 32-bit header claims, after checking
/// that its whole extent lies inside the image; a table that reaches past the
/// image's end is rejected rather than read.
pub fn parse_phdr_table32(d: &[u8], h: &ELFHeader32) -> (r: Option<Vec<ProgramHeader32>>)
    ensures
        spec_table_fits32(d@, *h) <==> r is Some,
        r is Some ==> r->Some_0@ == spec_phdr_table32(
            d@,
            h.e_phoff as int,
            h.e_phentsize as int,
            h.e_phnum as int,
        ),
{
    if (h.e_phentsize as usize) < PHDR32_SIZE {
        return None;
    }
    let len64: u64 = d.len() as u64;
    proof {
        assert((h.e_phentsize as int) * (h.e_phnum as int) <= 0xffff * 0xffff)
            by (nonlinear_arith)
            requires
                h.e_phentsize as int <= 0xffff,
                h.e_phnum as int <= 0xffff,
        ;
    }
    let extent: u64 = (h.e_phentsize as u64) * (h.e_phnum as u64);
    if (h.e_phoff as u64) > len64 || extent > len64 - h.e_phoff as u64 {
        return None;
    }
    let ghost table = spec_phdr_table32(d@, h.e_phoff as int, h.e_phentsize as int, h.e_phnum as int);
    let mut v: Vec<ProgramHeader32> = Vec::new();
    let mut i: usize = 0;
    while i < h.e_phnum as usize
        invariant
            i <= h.e_phnum,
            h.e_phentsize >= PHDR32_SIZE,
            h.e_phoff + h.e_phentsize * h.e_phnum <= d@.len(),
            d@.len() <= usize::MAX,
            d@.len() <= u64::MAX,
            table == spec_phdr_table32(d@, h.e_phoff as int, h.e_phentsize as int, h.e_phnum as int),
            v@ == table.take(i as int),
        decreases h.e_phnum - i,
    {
        proof {
            assert(0 <= (i as int) * (h.e_phentsize as int) && (h.e_phoff as int) + (
            i as int) * (h.e_phentsize as int) + (h.e_phentsize as int) <= (h.e_phoff as int) + (
            h.e_phentsize as int) * (h.e_phnum as int)) by (nonlinear_arith)
                requires
                    0 <= i as int,
                    i as int + 1 <= h.e_phnum as int,
                    h.e_phentsize as int >= 0,
                    h.e_phoff as int >= 0,
            ;
        }
        let off: u64 = (h.e_phoff as u64) + (i as u64) * (h.e_phentsize as u64);
        let e = parse_phdr32_at(d, off as usize);
        v.push(e);
        proof {
            assert(table.take(i + 1).drop_last() =~= table.take(i as int));
            assert(v@ =~= table.take(i + 1));
        }
        i = i + 1;
    }
    proof {
        assert(table.take(h.e_phnum as int) =~= table);
    }
    Some(v)
}

} // verus!
