use sec_loader::align::AlignValue;
use sec_loader::align::EfiPageToSize;
use sec_loader::align::EfiSizeToPage;
use sec_loader::pci::PciCf8Write;
use sec_loader::pci::pci_cf8_address;
use sec_loader::sec::GetSystemMemorySizeBelow4Gb;
use sec_loader::sec::InitPci;
use sec_loader::sec::PciExBarInitialization;

#[test]
fn it_works() {}

#[test]
fn test_lib() {}

#[test]
fn align_value_down() {
    assert_eq!(AlignValue(0x1234, 0x1000, true), 0x1000);
    assert_eq!(AlignValue(0x1000, 0x1000, true), 0x1000);
    assert_eq!(AlignValue(0, 0x1000, true), 0);
    assert_eq!(AlignValue(0xfff, 0x1000, true), 0);
}

// The upward rounding always adds a whole page, even on an already-aligned
// value: 0x1000 moves to 0x2000 rather than staying.  This looks like an
// off-by-one next to conventional round-up, but it is the intended rule and
// the region sizes downstream depend on the extra page.
#[test]
fn align_value_up_always_adds_a_page() {
    assert_eq!(AlignValue(0x1000, 0x1000, false), 0x2000);
    assert_eq!(AlignValue(0, 0x1000, false), 0x1000);
    assert_eq!(AlignValue(0x1001, 0x1000, false), 0x2000);
    assert_eq!(AlignValue(0x1fff, 0x1000, false), 0x2000);
    for v in [0u64, 1, 0xfff, 0x1000, 0x1001, 0x7fff_f000, 0x7fff_ffff] {
        let down = AlignValue(v, 0x1000, true);
        let up = AlignValue(v, 0x1000, false);
        assert!(up > down);
        assert!(up > v);
        assert_eq!(up, down + 0x1000);
    }
}

#[test]
fn efi_size_to_page_rounds_up() {
    assert_eq!(EfiSizeToPage(0), 0);
    assert_eq!(EfiSizeToPage(1), 1);
    assert_eq!(EfiSizeToPage(0x1000), 1);
    assert_eq!(EfiSizeToPage(0x1001), 2);
    assert_eq!(EfiSizeToPage(0x2000), 2);
}

#[test]
fn efi_page_to_size_exact() {
    assert_eq!(EfiPageToSize(0), 0);
    assert_eq!(EfiPageToSize(3), 0x3000);
    assert_eq!(EfiPageToSize(0x100000), 0x1_0000_0000);
}

#[test]
fn system_memory_size_exact_values() {
    // Low CMOS byte zero: the high byte is shifted by 8, then by 16 more,
    // and 16 MiB is added.
    assert_eq!(GetSystemMemorySizeBelow4Gb(0, 0), 0x0100_0000);
    assert_eq!(GetSystemMemorySizeBelow4Gb(0, 1), 0x0200_0000);
    assert_eq!(GetSystemMemorySizeBelow4Gb(0, 2), 0x0300_0000);
    // A nonzero low byte raises the shift count itself.
    assert_eq!(GetSystemMemorySizeBelow4Gb(1, 1), 0x0300_0000);
    // A low byte of 56 drives the count to the word width; it is reduced
    // modulo 64, so the high byte lands unshifted before the fixed shift.
    assert_eq!(GetSystemMemorySizeBelow4Gb(56, 2), 0x0102_0000);
    assert_eq!(GetSystemMemorySizeBelow4Gb(255, 1), 0x0180_0000);
    // A count of 63 pushes every significant bit off the top: only the
    // fixed 16 MiB remains.
    assert_eq!(GetSystemMemorySizeBelow4Gb(55, 255), 0x0100_0000);
}

#[test]
fn pci_cf8_address_exact() {
    assert_eq!(pci_cf8_address(0, 3, 0, 0x14), 0x8000_1814);
    // The register offset's low two bits are cleared.
    assert_eq!(pci_cf8_address(0, 3, 0, 0x17), 0x8000_1814);
    assert_eq!(pci_cf8_address(0, 0, 0, 0x60), 0x8000_0060);
    assert_eq!(pci_cf8_address(1, 2, 3, 0x04), 0x8001_1304);
}

#[test]
fn init_pci_planned_writes() {
    let w = InitPci();
    assert_eq!(w.len(), 4);
    assert_eq!(
        w[0],
        PciCf8Write { bus: 0, device: 3, fnc: 0, reg: 0x14, value: 0xC1085000, byte_wide: false }
    );
    assert_eq!(
        w[1],
        PciCf8Write { bus: 0, device: 3, fnc: 0, reg: 0x20, value: 0xC200000C, byte_wide: false }
    );
    assert_eq!(
        w[2],
        PciCf8Write { bus: 0, device: 3, fnc: 0, reg: 0x24, value: 0x00000000, byte_wide: false }
    );
    assert_eq!(
        w[3],
        PciCf8Write { bus: 0, device: 3, fnc: 0, reg: 0x04, value: 0x07, byte_wide: true }
    );
}

#[test]
fn pci_exbar_planned_writes() {
    let w = PciExBarInitialization(0x8_0000_0000);
    assert_eq!(w.len(), 3);
    assert_eq!(w[0].reg, 0x60);
    assert_eq!(w[0].value, 0);
    assert_eq!(w[1].reg, 0x64);
    assert_eq!(w[1].value, 0x8);
    assert_eq!(w[2].reg, 0x60);
    assert_eq!(w[2].value, 0x1);
    // The low half keeps its bits and gains the enable bit.
    let w = PciExBarInitialization(0xABCD_E000_0000_0000 | 0x8000_0000);
    assert_eq!(w[1].value, 0xABCD_E000);
    assert_eq!(w[2].value, 0x8000_0001);
}
