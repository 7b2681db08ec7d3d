//! The entry-point resolver, and the other computations of the early boot
//! stage: system-memory sizing from the CMOS bytes and the planned PCI
//! bring-up writes.  Everything here works on plain values; the firmware
//! shell reads the hardware and performs the planned actions.

use vstd::prelude::*;

use crate::align::SIZE_16MB;
use crate::elf::EHDR32_SIZE;
use crate::elf::EHDR64_SIZE;
use crate::elf::ElfClass;
use crate::elf::ProgramHeader32;
use crate::elf::ProgramHeader64;
use crate::elf::parse_elf_header32;
use crate::elf::parse_elf_header64;
use crate::elf::parse_phdr_table32;
use crate::elf::parse_phdr_table64;
use crate::elf::sniff_image_format;
use crate::elf::spec_header32;
use crate::elf::spec_header64;
use crate::elf::spec_phdr_table32;
use crate::elf::spec_phdr_table64;
use crate::elf::spec_sniff;
use crate::elf::spec_table_fits32;
use crate::elf::spec_table_fits64;
use crate::memory::Memory;
use crate::memory::copy_segments64;
use crate::memory::spec_copy_ok64;
use crate::memory::spec_copy_segments64;
use crate::pci::PciCf8Write;
use crate::plan::plan_load_region32;
use crate::plan::plan_load_region64;
use crate::plan::spec_plan_ok32;
use crate::plan::spec_plan_ok64;
use crate::plan::spec_widen_table;

verus! {

/// The program-header table the 64-bit header of `d` points at.
pub open spec fn spec_table64(d: Seq<u8>) -> Seq<ProgramHeader64> {
    spec_phdr_table64(
        d,
        spec_header64(d).e_phoff as int,
        spec_header64(d).e_phentsize as int,
        spec_header64(d).e_phnum as int,
    )
}

/// The program-header table the 32-bit header of `d` points at.
pub open spec fn spec_table32(d: Seq<u8>) -> Seq<ProgramHeader32> {
    spec_phdr_table32(
        d,
        spec_header32(d).e_phoff as int,
        spec_header32(d).e_phentsize as int,
        spec_header32(d).e_phnum as int,
    )
}

/// When 64-bit resolution succeeds: the image holds a full header, the
/// claimed program-header table lies inside the image, planning finds a
/// proper region, and every loadable segment can be copied in bounds.
pub open spec fn spec_resolve64_ok(d: Seq<u8>, base: u64, mlen: nat) -> bool {
    &&& d.len() >= EHDR64_SIZE
    &&& spec_table_fits64(d, spec_header64(d))
    &&& spec_plan_ok64(spec_table64(d))
    &&& spec_copy_ok64(d, base, mlen, spec_table64(d))
}

/// When 32-bit resolution succeeds, the mirror of [`spec_resolve64_ok`];
/// copying is judged on the widened entries, which ask for the same bytes.
pub open spec fn spec_resolve32_ok(d: Seq<u8>, base: u64, mlen: nat) -> bool {
    &&& d.len() >= EHDR32_SIZE
    &&& spec_table_fits32(d, spec_header32(d))
    &&& spec_plan_ok32(spec_table32(d))
    &&& spec_copy_ok64(d, base, mlen, spec_widen_table(spec_table32(d)))
}

/// Loads a 64-bit ELF image: reads the header, walks the program-header
/// table, plans the aligned load region, and copies every loadable segment
/// into the memory window.  On any failure — short image, table past the
/// image's end, no loadable segment, a segment end too close to the top of
/// the address space, or a copy that would leave the image or the window —
/// nothing is copied and the sentinel 0 comes back.  On success the header's
/// entry address comes back (it is not checked to fall inside the region).
#[allow(non_snake_case)]
pub fn FindAndReportEntryPointElf64(data: &[u8], mem: &mut Memory) -> (entry: u64)
    requires
        old(mem).wf(),
    ensures
        final(mem).base == old(mem).base,
        final(mem).wf(),
        final(mem).bytes@.len() == old(mem).bytes@.len(),
        spec_resolve64_ok(data@, old(mem).base, old(mem).bytes@.len()) ==> entry == spec_header64(
            data@,
        ).e_entry && final(mem).bytes@ == spec_copy_segments64(
            old(mem).bytes@,
            old(mem).base,
            data@,
            spec_table64(data@),
        ),
        !spec_resolve64_ok(data@, old(mem).base, old(mem).bytes@.len()) ==> entry == 0 && final(mem).bytes@
            == old(mem).bytes@,
{
    let h = match parse_elf_header64(data) {
        Some(h) => h,
        None => { return 0; },
    };
    let phdrs = match parse_phdr_table64(data, &h) {
        Some(v) => v,
        None => { return 0; },
    };
    if plan_load_region64(&phdrs).is_none() {
        return 0;
    }
    let ok = copy_segments64(data, mem, &phdrs);
    if !ok {
        return 0;
    }
    h.e_entry
}

/// Loads a 32-bit ELF image: the same stages as the 64-bit variant, with the
/// 32-bit header and planner; the entries are widened field for field before
/// copying, which asks for exactly the same bytes.
#[allow(non_snake_case)]
pub fn FindAndReportEntryPointElf32(data: &[u8], mem: &mut Memory) -> (entry: u64)
    requires
        old(mem).wf(),
    ensures
        final(mem).base == old(mem).base,
        final(mem).wf(),
        final(mem).bytes@.len() == old(mem).bytes@.len(),
        spec_resolve32_ok(data@, old(mem).base, old(mem).bytes@.len()) ==> entry == spec_header32(
            data@,
        ).e_entry && final(mem).bytes@ == spec_copy_segments64(
            old(mem).bytes@,
            old(mem).base,
            data@,
            spec_widen_table(spec_table32(data@)),
        ),
        !spec_resolve32_ok(data@, old(mem).base, old(mem).bytes@.len()) ==> entry == 0 && final(mem).bytes@
            == old(mem).bytes@,
{
    let h = match parse_elf_header32(data) {
        Some(h) => h,
        None => { return 0; },
    };
    let phdrs = match parse_phdr_table32(data, &h) {
        Some(v) => v,
        None => { return 0; },
    };
    if plan_load_region32(&phdrs).is_none() {
        return 0;
    }
    let wide = widen_phdrs(&phdrs);
    let ok = copy_segments64(data, mem, &wide);
    if !ok {
        return 0;
    }
    h.e_entry as u64
}

/// Widens each 32-bit entry, field for field, to the 64-bit form.
fn widen_phdrs(phdrs: &Vec<ProgramHeader32>) -> (r: Vec<ProgramHeader64>)
    ensures
        r@ == spec_widen_table(phdrs@),
{
    let mut v: Vec<ProgramHeader64> = Vec::new();
    let mut i: usize = 0;
    while i < phdrs.len()
        invariant
            i <= phdrs@.len(),
            v@ == spec_widen_table(phdrs@.take(i as int)),
        decreases phdrs@.len() - i,
    {
        let e = phdrs[i];
        v.push(ProgramHeader64 {
            p_type: e.p_type,
            p_offset: e.p_offset as u64,
            p_vaddr: e.p_vaddr as u64,
            p_filesz: e.p_filesz as u64,
            p_memsz: e.p_memsz as u64,
        });
        proof {
            assert(v@ =~= spec_widen_table(phdrs@.take(i + 1)));
        }
        i = i + 1;
    }
    proof {
        assert(phdrs@.take(phdrs@.len() as int) =~= phdrs@);
    }
    v
}

/// Resolves the entry point of a candidate image: sniffs the format, then
/// dispatches to the planner/copier pair matching the word-size class.  A
/// buffer without the ELF magic, or with an unrecognized class byte, fails
/// with nothing copied and the sentinel 0 returned; so does any later stage.
#[allow(non_snake_case)]
pub fn FindAndReportEntryPoint(data: &[u8], mem: &mut Memory) -> (entry: u64)
    requires
        old(mem).wf(),
    ensures
        final(mem).base == old(mem).base,
        final(mem).wf(),
        final(mem).bytes@.len() == old(mem).bytes@.len(),
        spec_sniff(data@) is None ==> entry == 0 && final(mem).bytes@ == old(mem).bytes@,
        spec_sniff(data@) == Some(ElfClass::Class64) ==> {
            &&& spec_resolve64_ok(data@, old(mem).base, old(mem).bytes@.len()) ==> entry
                == spec_header64(data@).e_entry && final(mem).bytes@ == spec_copy_segments64(
                old(mem).bytes@,
                old(mem).base,
                data@,
                spec_table64(data@),
            )
            &&& !spec_resolve64_ok(data@, old(mem).base, old(mem).bytes@.len()) ==> entry == 0
                && final(mem).bytes@ == old(mem).bytes@
        },
        spec_sniff(data@) == Some(ElfClass::Class32) ==> {
            &&& spec_resolve32_ok(data@, old(mem).base, old(mem).bytes@.len()) ==> entry
                == spec_header32(data@).e_entry && final(mem).bytes@ == spec_copy_segments64(
                old(mem).bytes@,
                old(mem).base,
                data@,
                spec_widen_table(spec_table32(data@)),
            )
            &&& !spec_resolve32_ok(data@, old(mem).base, old(mem).bytes@.len()) ==> entry == 0
                && final(mem).bytes@ == old(mem).bytes@
        },
{
    match sniff_image_format(data) {
        None => 0,
        Some(ElfClass::Class32) => FindAndReportEntryPointElf32(data, mem),
        Some(ElfClass::Class64) => FindAndReportEntryPointElf64(data, mem),
    }
}

/// The memory size below 4 GiB that the two CMOS bytes encode: the high
/// byte, shifted by eight plus the low byte's value (the count reduced to
/// the 64-bit shift width), then by sixteen more, plus a fixed 16 MiB.
pub open spec fn spec_system_memory_size_below_4gb(cmos0x34: u8, cmos0x35: u8) -> u64 {
    ((((cmos0x35 as u64) << (((8 + cmos0x34 as u64) % 64) as u64)) << 16u64) + SIZE_16MB) as u64
}

/// Computes the system-memory size below 4 GiB from the two CMOS register
/// bytes the firmware shell reads (offsets 0x34 and 0x35).
#[allow(non_snake_case)]
pub fn GetSystemMemorySizeBelow4Gb(cmos0x34: u8, cmos0x35: u8) -> (r: u64)
    ensures
        r == spec_system_memory_size_below_4gb(cmos0x34, cmos0x35),
{
    let s: u64 = (8 + (cmos0x34 as u64)) % 64;
    let shifted: u64 = ((cmos0x35 as u64) << s) << 16;
    proof {
        let c35 = cmos0x35 as u64;
        assert(c35 < 256 && s < 64 ==> ((c35 << s) << 16) <= u64::MAX - 0x0100_0000u64)
            by (bit_vector);
    }
    shifted + SIZE_16MB
}

/// The fixed register writes that bring up the early virtual block device's
/// PCI function: its two base-address registers, a cleared third one, and
/// the command byte enabling I/O, memory and bus mastering.
pub open spec fn spec_init_pci_writes() -> Seq<PciCf8Write> {
    seq![
        (PciCf8Write { bus: 0, device: 3, fnc: 0, reg: 0x14, value: 0xC1085000, byte_wide: false }),
        (PciCf8Write { bus: 0, device: 3, fnc: 0, reg: 0x20, value: 0xC200000C, byte_wide: false }),
        (PciCf8Write { bus: 0, device: 3, fnc: 0, reg: 0x24, value: 0x00000000, byte_wide: false }),
        (PciCf8Write { bus: 0, device: 3, fnc: 0, reg: 0x04, value: 0x07, byte_wide: true }),
    ]
}

/// Plans the early PCI device bring-up: the exact configuration writes, in
/// order, for the firmware shell to perform.
#[allow(non_snake_case)]
pub fn InitPci() -> (writes: Vec<PciCf8Write>)
    ensures
        writes@ == spec_init_pci_writes(),
{
    let mut v: Vec<PciCf8Write> = Vec::new();
    v.push(PciCf8Write { bus: 0, device: 3, fnc: 0, reg: 0x14, value: 0xC1085000, byte_wide: false });
    v.push(PciCf8Write { bus: 0, device: 3, fnc: 0, reg: 0x20, value: 0xC200000C, byte_wide: false });
    v.push(PciCf8Write { bus: 0, device: 3, fnc: 0, reg: 0x24, value: 0x00000000, byte_wide: false });
    v.push(PciCf8Write { bus: 0, device: 3, fnc: 0, reg: 0x04, value: 0x07, byte_wide: true });
    proof {
        assert(v@ =~= spec_init_pci_writes());
    }
    v
}

/// The configuration writes that program the PCI-Express decoder window:
/// first clear the enable bit, then the high half of the base address, then
/// the low half with the enable bit set — in that order, so decoding turns
/// on only once the full base is in place.
pub open spec fn spec_pci_exbar_writes(pci_exbar_base: u64) -> Seq<PciCf8Write> {
    seq![
        (PciCf8Write { bus: 0, device: 0, fnc: 0, reg: 0x60, value: 0, byte_wide: false }),
        (PciCf8Write {
            bus: 0,
            device: 0,
            fnc: 0,
            reg: 0x64,
            value: (pci_exbar_base >> 32) as u32,
            byte_wide: false,
        }),
        (PciCf8Write {
            bus: 0,
            device: 0,
            fnc: 0,
            reg: 0x60,
            value: (((pci_exbar_base << 32) >> 32) | 1) as u32,
            byte_wide: false,
        }),
    ]
}

/// Plans the PCI-Express decoder-window programming for the given base
/// address, for the firmware shell to perform in order.
#[allow(non_snake_case)]
pub fn PciExBarInitialization(pci_exbar_base: u64) -> (writes: Vec<PciCf8Write>)
    ensures
        writes@ == spec_pci_exbar_writes(pci_exbar_base),
{
    proof {
        assert((pci_exbar_base >> 32) <= 0xffff_ffffu64) by (bit_vector);
        assert((((pci_exbar_base << 32) >> 32) | 1) <= 0xffff_ffffu64) by (bit_vector);
    }
    let hi: u32 = (pci_exbar_base >> 32) as u32;
    let lo: u32 = (((pci_exbar_base << 32) >> 32) | 1) as u32;
    let mut v: Vec<PciCf8Write> = Vec::new();
    v.push(PciCf8Write { bus: 0, device: 0, fnc: 0, reg: 0x60, value: 0, byte_wide: false });
    v.push(PciCf8Write { bus: 0, device: 0, fnc: 0, reg: 0x64, value: hi, byte_wide: false });
    v.push(PciCf8Write { bus: 0, device: 0, fnc: 0, reg: 0x60, value: lo, byte_wide: false });
    proof {
        assert(v@ =~= spec_pci_exbar_writes(pci_exbar_base));
    }
    v
}

} // verus!
