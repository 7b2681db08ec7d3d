//! Page-granular address arithmetic.

use vstd::prelude::*;

verus! {

pub const SIZE_4KB: u64 = 0x0000_1000;
pub const SIZE_1MB: u64 = 0x0010_0000;
pub const SIZE_16MB: u64 = 0x0100_0000;

/// A value rounded down to the start of its containing 4 KiB page.
pub open spec fn spec_align_down(value: u64) -> u64 {
    (value - value % SIZE_4KB) as u64
}

/// A value pushed to the next 4 KiB page boundary.  A full page is always
/// added, even when the value is already page-aligned: an aligned value moves
/// to the following boundary rather than staying where it is.  This rounding
/// rule is deliberate and must not be "corrected" to conventional round-up.
pub open spec fn spec_align_up_preserved(value: u64) -> u64 {
    (value - value % SIZE_4KB + SIZE_4KB) as u64
}

/// Aligns `value` to a page boundary: downward when `flag` is true, else to
/// the next boundary above (always a full page further, see
/// [`spec_align_up_preserved`]).  The page size is fixed at 4 KiB.
#[allow(non_snake_case)]
pub fn AlignValue(value: u64, align: u64, flag: bool) -> (r: u64)
    requires
        align == SIZE_4KB,
        !flag ==> value <= u64::MAX - align,
    ensures
        flag ==> r == spec_align_down(value),
        !flag ==> r == spec_align_up_preserved(value),
{
    proof {
        assert(value & !0xfffu64 == value - value % 0x1000) by (bit_vector);
        assert(value & 0xfffu64 == value % 0x1000) by (bit_vector);
        assert(value & 0xfffu64 <= value) by (bit_vector);
    }
    if flag {
        value & ((!(align - 1)) as u64)
    } else {
        value - (value & (align - 1)) as u64 + align
    }
}

/// How many whole 4 KiB pages are needed to hold `size` bytes (round up).
#[allow(non_snake_case)]
pub fn EfiSizeToPage(size: u64) -> (r: u64)
    requires
        size <= u64::MAX - (SIZE_4KB - 1),
    ensures
        r == (size + (SIZE_4KB - 1)) as int / (SIZE_4KB as int),
{
    (size + (SIZE_4KB - 1)) / SIZE_4KB
}

/// The byte size of `page` whole 4 KiB pages.
#[allow(non_snake_case)]
pub fn EfiPageToSize(page: u64) -> (r: u64)
    requires
        page <= u64::MAX / SIZE_4KB,
    ensures
        r == page * SIZE_4KB,
{
    page * SIZE_4KB
}

/// Rounding down is idempotent: an already-aligned value stays unchanged.
pub proof fn lemma_align_down_idempotent(value: u64)
    ensures
        spec_align_down(spec_align_down(value)) == spec_align_down(value),
        spec_align_down(value) % SIZE_4KB == 0,
        spec_align_down(value) <= value,
        value - spec_align_down(value) < SIZE_4KB,
{
}

/// The "preserved" upward rounding always lands strictly above both the value
/// itself and the value rounded down — a full page is added even when the
/// value is already a multiple of the page size.  (Values in the topmost page
/// of the address space are excluded: there is no next boundary for them.)
pub proof fn lemma_align_up_preserved_exceeds(value: u64)
    requires
        value <= u64::MAX - SIZE_4KB,
    ensures
        spec_align_up_preserved(value) > spec_align_down(value),
        spec_align_up_preserved(value) > value,
        spec_align_up_preserved(value) == spec_align_down(value) + SIZE_4KB,
        spec_align_up_preserved(value) % SIZE_4KB == 0,
{
    lemma_align_down_idempotent(value);
}

} // verus!
