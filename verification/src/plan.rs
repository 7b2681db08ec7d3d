//! The segment-map planner: the minimal page-aligned region that covers
//! every loadable segment of a program-header table, in a 32-bit and a
//! 64-bit variant.

use vstd::prelude::*;

use crate::align::SIZE_4KB;
use crate::align::AlignValue;
use crate::align::spec_align_down;
use crate::align::spec_align_up_preserved;
use crate::elf::PT_LOAD;
use crate::elf::ProgramHeader32;
use crate::elf::ProgramHeader64;

verus! {

/// The page-aligned span that must hold every loadable segment.
#[derive(Clone, Copy, PartialEq, Eq, Structural, Debug)]
pub struct LoadRegion {
    pub low: u64,
    pub high: u64,
}

/// The 32-bit variant of [`LoadRegion`].
#[derive(Clone, Copy, PartialEq, Eq, Structural, Debug)]
pub struct LoadRegion32 {
    pub low: u32,
    pub high: u32,
}

/// The minimum virtual address over the loadable entries, starting from the
/// maximum representable 64-bit address when there is none.
pub open spec fn spec_raw_low64(s: Seq<ProgramHeader64>) -> int
    decreases s.len(),
{
    if s.len() == 0 {
        0xffff_ffff_ffff_ffff
    } else {
        let p = spec_raw_low64(s.drop_last());
        let e = s.last();
        if e.p_type == PT_LOAD && e.p_vaddr < p {
            e.p_vaddr as int
        } else {
            p
        }
    }
}

/// The maximum segment end `p_vaddr + p_memsz` over the loadable entries,
/// starting from zero when there is none.  Computed over the unbounded
/// integers: a sum past the 64-bit range shows up as a value above
/// `u64::MAX` and makes planning fail rather than wrap.
pub open spec fn spec_raw_high64(s: Seq<ProgramHeader64>) -> int
    decreases s.len(),
{
    if s.len() == 0 {
        0
    } else {
        let p = spec_raw_high64(s.drop_last());
        let e = s.last();
        if e.p_type == PT_LOAD && e.p_vaddr + e.p_memsz > p {
            e.p_vaddr + e.p_memsz
        } else {
            p
        }
    }
}

/// True when the table holds at least one loadable entry.
pub open spec fn spec_has_load64(s: Seq<ProgramHeader64>) -> bool {
    exists|i: int| 0 <= i < s.len() && s[i].p_type == PT_LOAD
}

/// When planning succeeds: at least one loadable entry, and the maximum
/// segment end leaves room for the upward page rounding.
pub open spec fn spec_plan_ok64(s: Seq<ProgramHeader64>) -> bool {
    &&& spec_has_load64(s)
    &&& spec_raw_high64(s) <= u64::MAX - SIZE_4KB
}

/// The planned region: minimum loadable address rounded down to its page,
/// maximum loadable end pushed to the next page boundary.
pub open spec fn spec_region64(s: Seq<ProgramHeader64>) -> LoadRegion {
    LoadRegion {
        low: spec_align_down(spec_raw_low64(s) as u64),
        high: spec_align_up_preserved(spec_raw_high64(s) as u64),
    }
}

/// The 32-bit counterpart of [`spec_raw_low64`], starting from the maximum
/// representable 32-bit address.
pub open spec fn spec_raw_low32(s: Seq<ProgramHeader32>) -> int
    decreases s.len(),
{
    if s.len() == 0 {
        0xffff_ffff
    } else {
        let p = spec_raw_low32(s.drop_last());
        let e = s.last();
        if e.p_type == PT_LOAD && e.p_vaddr < p {
            e.p_vaddr as int
        } else {
            p
        }
    }
}

/// The 32-bit counterpart of [`spec_raw_high64`].
pub open spec fn spec_raw_high32(s: Seq<ProgramHeader32>) -> int
    decreases s.len(),
{
    if s.len() == 0 {
        0
    } else {
        let p = spec_raw_high32(s.drop_last());
        let e = s.last();
        if e.p_type == PT_LOAD && e.p_vaddr + e.p_memsz > p {
            e.p_vaddr + e.p_memsz
        } else {
            p
        }
    }
}

/// True when the table holds at least one loadable entry.
pub open spec fn spec_has_load32(s: Seq<ProgramHeader32>) -> bool {
    exists|i: int| 0 <= i < s.len() && s[i].p_type == PT_LOAD
}

/// When 32-bit planning succeeds: at least one loadable entry, and the
/// maximum segment end leaves room for the upward page rounding inside the
/// 32-bit address space.
pub open spec fn spec_plan_ok32(s: Seq<ProgramHeader32>) -> bool {
    &&& spec_has_load32(s)
    &&& spec_raw_high32(s) <= u32::MAX - SIZE_4KB
}

/// The planned 32-bit region.
pub open spec fn spec_region32(s: Seq<ProgramHeader32>) -> LoadRegion32 {
    LoadRegion32 {
        low: spec_align_down(spec_raw_low32(s) as u64) as u32,
        high: spec_align_up_preserved(spec_raw_high32(s) as u64) as u32,
    }
}

/// A 32-bit entry widened, field for field, to the 64-bit form.  The widened
/// entry asks for the same bytes at the same addresses.
pub open spec fn spec_widen_phdr(e: ProgramHeader32) -> ProgramHeader64 {
    ProgramHeader64 {
        p_type: e.p_type,
        p_offset: e.p_offset as u64,
        p_vaddr: e.p_vaddr as u64,
        p_filesz: e.p_filesz as u64,
        p_memsz: e.p_memsz as u64,
    }
}

/// A 32-bit table widened entry for entry.
pub open spec fn spec_widen_table(s: Seq<ProgramHeader32>) -> Seq<ProgramHeader64> {
    s.map_values(|e: ProgramHeader32| spec_widen_phdr(e))
}

/// Widening keeps the raw planner inputs: the same entries are loadable, the
/// maximum segment end is the same number, and — once any entry is loadable —
/// so is the minimum address (only the degenerate starting values differ
/// between the widths).
pub proof fn lemma_widen_raw(s: Seq<ProgramHeader32>)
    ensures
        spec_has_load64(spec_widen_table(s)) == spec_has_load32(s),
        spec_raw_high64(spec_widen_table(s)) == spec_raw_high32(s),
        spec_has_load32(s) ==> spec_raw_low64(spec_widen_table(s)) == spec_raw_low32(s),
    decreases s.len(),
{
    let w = spec_widen_table(s);
    assert(spec_has_load64(w) == spec_has_load32(s)) by {
        if spec_has_load32(s) {
            let i = choose|i: int| 0 <= i < s.len() && s[i].p_type == PT_LOAD;
            assert(w[i].p_type == PT_LOAD);
        }
        if spec_has_load64(w) {
            let i = choose|i: int| 0 <= i < w.len() && w[i].p_type == PT_LOAD;
            assert(s[i].p_type == PT_LOAD);
        }
    }
    if s.len() > 0 {
        let sd = s.drop_last();
        let wd = spec_widen_table(sd);
        lemma_widen_raw(sd);
        assert(w.drop_last() =~= wd);
        assert(w.last() == spec_widen_phdr(s.last()));
        assert(spec_raw_high64(w) == spec_raw_high32(s));
        if spec_has_load32(s) {
            if s.last().p_type == PT_LOAD {
                if spec_has_load32(sd) {
                    assert(spec_raw_low64(w) == spec_raw_low32(s));
                } else {
                    lemma_raw_low32_max_when_none(sd);
                    lemma_raw_low64_max_when_none(wd);
                    assert(spec_raw_low32(s) == s.last().p_vaddr);
                    assert(spec_raw_low64(w) == s.last().p_vaddr);
                }
            } else {
                let k = choose|k: int| 0 <= k < s.len() && s[k].p_type == PT_LOAD;
                assert(s[s.len() - 1] == s.last());
                assert(k < s.len() - 1);
                assert(sd[k].p_type == PT_LOAD);
                assert(spec_has_load32(sd));
                assert(spec_raw_low64(w) == spec_raw_low32(s));
            }
        }
    }
}

/// The running planner values stay inside the 32-bit range.
pub proof fn lemma_raw_bounds32(s: Seq<ProgramHeader32>)
    ensures
        0 <= spec_raw_low32(s) <= 0xffff_ffff,
        0 <= spec_raw_high32(s),
    decreases s.len(),
{
    if s.len() > 0 {
        lemma_raw_bounds32(s.drop_last());
    }
}

/// The running minimum stays inside the 64-bit range, and the running
/// maximum never goes negative.
pub proof fn lemma_raw_bounds64(s: Seq<ProgramHeader64>)
    ensures
        0 <= spec_raw_low64(s) <= 0xffff_ffff_ffff_ffff,
        0 <= spec_raw_high64(s),
    decreases s.len(),
{
    if s.len() > 0 {
        lemma_raw_bounds64(s.drop_last());
    }
}

/// Without a loadable entry the running minimum keeps its starting value.
proof fn lemma_raw_low64_max_when_none(s: Seq<ProgramHeader64>)
    requires
        !spec_has_load64(s),
    ensures
        spec_raw_low64(s) == 0xffff_ffff_ffff_ffff,
    decreases s.len(),
{
    if s.len() > 0 {
        assert(forall|i: int|
            0 <= i < s.drop_last().len() ==> s.drop_last()[i] == s[i]);
        lemma_raw_low64_max_when_none(s.drop_last());
        assert(s.last() == s[s.len() - 1]);
    }
}

/// Identical segment geometry expressed through the 32-bit entries plans the
/// same region as through the widened 64-bit entries: apart from the field
/// width, the two planner variants agree.
pub proof fn lemma_width_dispatch_region(s: Seq<ProgramHeader32>)
    requires
        spec_plan_ok32(s),
    ensures
        spec_plan_ok64(spec_widen_table(s)),
        spec_region64(spec_widen_table(s)).low == spec_region32(s).low,
        spec_region64(spec_widen_table(s)).high == spec_region32(s).high,
{
    lemma_widen_raw(s);
    lemma_raw_bounds32(s);
    let w = spec_widen_table(s);
    crate::align::lemma_align_down_idempotent(spec_raw_low64(w) as u64);
    crate::align::lemma_align_up_preserved_exceeds(spec_raw_high64(w) as u64);
}

/// For a table with at least one loadable entry (and a maximum end that
/// leaves room for the upward rounding), the planned region's low end is the
/// page-aligned-down minimum loadable virtual address, its high end is the
/// preserved round-up of the maximum loadable segment end, and the region
/// covers every loadable segment.
pub proof fn lemma_region64_bounds(s: Seq<ProgramHeader64>)
    requires
        spec_plan_ok64(s),
    ensures
        forall|i: int|
            0 <= i < s.len() && #[trigger] s[i].p_type == PT_LOAD ==> spec_region64(s).low
                <= s[i].p_vaddr && s[i].p_vaddr + s[i].p_memsz < spec_region64(s).high,
        exists|i: int|
            0 <= i < s.len() && s[i].p_type == PT_LOAD && spec_region64(s).low
                == crate::align::spec_align_down(s[i].p_vaddr),
        exists|i: int|
            0 <= i < s.len() && s[i].p_type == PT_LOAD && spec_region64(s).high
                == crate::align::spec_align_up_preserved((s[i].p_vaddr + s[i].p_memsz) as u64),
        spec_region64(s).low < spec_region64(s).high,
{
    lemma_raw_bounds64(s);
    let low_raw = spec_raw_low64(s) as u64;
    let high_raw = spec_raw_high64(s) as u64;
    crate::align::lemma_align_down_idempotent(low_raw);
    crate::align::lemma_align_up_preserved_exceeds(high_raw);
    lemma_raw_low64_attained(s);
    lemma_raw_high64_attained(s);
    let j = choose|j: int|
        0 <= j < s.len() && s[j].p_type == PT_LOAD && spec_raw_low64(s) == s[j].p_vaddr;
    lemma_raw_high64_ge(s, j);
    assert forall|i: int|
        0 <= i < s.len() && #[trigger] s[i].p_type == PT_LOAD implies spec_region64(s).low
        <= s[i].p_vaddr && s[i].p_vaddr + s[i].p_memsz < spec_region64(s).high by {
        lemma_raw_low64_le(s, i);
        lemma_raw_high64_ge(s, i);
    }
}

/// The running minimum never exceeds any loadable entry's address.
pub proof fn lemma_raw_low64_le(s: Seq<ProgramHeader64>, i: int)
    requires
        0 <= i < s.len(),
        s[i].p_type == PT_LOAD,
    ensures
        spec_raw_low64(s) <= s[i].p_vaddr,
    decreases s.len(),
{
    if i < s.len() - 1 {
        lemma_raw_low64_le(s.drop_last(), i);
    }
}

/// The running maximum never falls below any loadable entry's end.
pub proof fn lemma_raw_high64_ge(s: Seq<ProgramHeader64>, i: int)
    requires
        0 <= i < s.len(),
        s[i].p_type == PT_LOAD,
    ensures
        spec_raw_high64(s) >= s[i].p_vaddr + s[i].p_memsz,
    decreases s.len(),
{
    if i < s.len() - 1 {
        lemma_raw_high64_ge(s.drop_last(), i);
    }
}

/// With at least one loadable entry, the minimum is attained by one of them.
pub proof fn lemma_raw_low64_attained(s: Seq<ProgramHeader64>)
    requires
        spec_has_load64(s),
    ensures
        exists|i: int|
            0 <= i < s.len() && s[i].p_type == PT_LOAD && spec_raw_low64(s) == s[i].p_vaddr,
    decreases s.len(),
{
    let e = s.last();
    if e.p_type == PT_LOAD && e.p_vaddr < spec_raw_low64(s.drop_last()) {
        assert(spec_raw_low64(s) == s[s.len() - 1].p_vaddr);
    } else {
        if spec_has_load64(s.drop_last()) {
            lemma_raw_low64_attained(s.drop_last());
            let j = choose|j: int|
                0 <= j < s.drop_last().len() && s.drop_last()[j].p_type == PT_LOAD
                    && spec_raw_low64(s.drop_last()) == s.drop_last()[j].p_vaddr;
            assert(spec_raw_low64(s) == s[j].p_vaddr);
        } else {
            let w = choose|i: int| 0 <= i < s.len() && s[i].p_type == PT_LOAD;
            if w < s.len() - 1 {
                assert(s.drop_last()[w].p_type == PT_LOAD);
                assert(spec_has_load64(s.drop_last()));
            }
            assert(w == s.len() - 1);
            assert(e.p_type == PT_LOAD);
            lemma_raw_low64_max_when_none(s.drop_last());
            assert(spec_raw_low64(s) == s[w].p_vaddr);
        }
    }
}

/// With at least one loadable entry, the maximum end is attained by one.
pub proof fn lemma_raw_high64_attained(s: Seq<ProgramHeader64>)
    requires
        spec_has_load64(s),
    ensures
        exists|i: int|
            0 <= i < s.len() && s[i].p_type == PT_LOAD && spec_raw_high64(s) == s[i].p_vaddr
                + s[i].p_memsz,
    decreases s.len(),
{
    let e = s.last();
    if e.p_type == PT_LOAD && e.p_vaddr + e.p_memsz > spec_raw_high64(s.drop_last()) {
        assert(spec_raw_high64(s) == s[s.len() - 1].p_vaddr + s[s.len() - 1].p_memsz);
    } else {
        if spec_has_load64(s.drop_last()) {
            lemma_raw_high64_attained(s.drop_last());
            let j = choose|j: int|
                0 <= j < s.drop_last().len() && s.drop_last()[j].p_type == PT_LOAD
                    && spec_raw_high64(s.drop_last()) == s.drop_last()[j].p_vaddr
                    + s.drop_last()[j].p_memsz;
            assert(spec_raw_high64(s) == s[j].p_vaddr + s[j].p_memsz);
        } else {
            let w = choose|i: int| 0 <= i < s.len() && s[i].p_type == PT_LOAD;
            if w < s.len() - 1 {
                assert(s.drop_last()[w].p_type == PT_LOAD);
                assert(spec_has_load64(s.drop_last()));
            }
            assert(w == s.len() - 1);
            lemma_raw_high64_zero_when_none(s.drop_last());
            assert(spec_raw_high64(s) == s[w].p_vaddr + s[w].p_memsz);
        }
    }
}

/// Without a loadable entry the running maximum stays at zero.
proof fn lemma_raw_high64_zero_when_none(s: Seq<ProgramHeader64>)
    requires
        !spec_has_load64(s),
    ensures
        spec_raw_high64(s) == 0,
    decreases s.len(),
{
    if s.len() > 0 {
        assert(forall|i: int|
            0 <= i < s.drop_last().len() ==> s.drop_last()[i] == s[i]);
        lemma_raw_high64_zero_when_none(s.drop_last());
        assert(s.last() == s[s.len() - 1]);
    }
}

/// Walks the program-header table once: a running minimum of the loadable
/// entries' addresses and a running maximum of their ends, both then aligned
/// to page granularity.  Entries that are not loadable never influence the
/// result.  Planning fails — rather than yielding a region — when no entry
/// is loadable (the running values stay at their degenerate start, minimum
/// above maximum), or when a segment end leaves no room below the top of the
/// address space for the upward page rounding.
#[allow(non_snake_case)]
pub fn plan_load_region64(phdrs: &Vec<ProgramHeader64>) -> (r: Option<LoadRegion>)
    ensures
        r is Some <==> spec_plan_ok64(phdrs@),
        r is Some ==> r->Some_0 == spec_region64(phdrs@),
        r is Some ==> r->Some_0.low <= spec_raw_low64(phdrs@) && spec_raw_high64(phdrs@)
            < r->Some_0.high,
        r is Some ==> r->Some_0.low < r->Some_0.high,
        r is Some ==> forall|i: int|
            0 <= i < phdrs@.len() && #[trigger] phdrs@[i].p_type == PT_LOAD
                ==> r->Some_0.low <= phdrs@[i].p_vaddr && phdrs@[i].p_vaddr + phdrs@[i].p_memsz
                < r->Some_0.high,
{
    let mut bottom: u64 = 0xffff_ffff_ffff_ffff;
    let mut top: u64 = 0;
    let mut found: bool = false;
    let mut i: usize = 0;
    while i < phdrs.len()
        invariant
            i <= phdrs@.len(),
            bottom == spec_raw_low64(phdrs@.take(i as int)),
            found == spec_has_load64(phdrs@.take(i as int)),
            top == spec_raw_high64(phdrs@.take(i as int)),
        decreases phdrs@.len() - i,
    {
        let e = phdrs[i];
        proof {
            assert(phdrs@.take(i + 1).drop_last() =~= phdrs@.take(i as int));
            assert(phdrs@.take(i + 1).last() == phdrs@[i as int]);
        }
        if e.p_type == PT_LOAD {
            found = true;
            if e.p_vaddr < bottom {
                bottom = e.p_vaddr;
            }
            if e.p_memsz > u64::MAX - e.p_vaddr {
                proof {
                    lemma_raw_high64_ge(phdrs@, i as int);
                }
                return None;
            }
            if e.p_vaddr + e.p_memsz > top {
                top = e.p_vaddr + e.p_memsz;
            }
        }
        i = i + 1;
    }
    proof {
        assert(phdrs@.take(phdrs@.len() as int) =~= phdrs@);
    }
    if !found {
        return None;
    }
    if top > u64::MAX - SIZE_4KB {
        return None;
    }
    let low = AlignValue(bottom, SIZE_4KB, true);
    let high = AlignValue(top, SIZE_4KB, false);
    proof {
        lemma_raw_low64_attained(phdrs@);
        let j = choose|j: int|
            0 <= j < phdrs@.len() && phdrs@[j].p_type == PT_LOAD && spec_raw_low64(phdrs@)
                == phdrs@[j].p_vaddr;
        lemma_raw_high64_ge(phdrs@, j);
        assert forall|i: int|
            0 <= i < phdrs@.len() && #[trigger] phdrs@[i].p_type == PT_LOAD implies low
            <= phdrs@[i].p_vaddr && phdrs@[i].p_vaddr + phdrs@[i].p_memsz < high by {
            lemma_raw_low64_le(phdrs@, i);
            lemma_raw_high64_ge(phdrs@, i);
        }
    }
    Some(LoadRegion { low, high })
}

/// The 32-bit planner: the same walk over 32-bit entries, with the running
/// minimum starting at the maximum representable 32-bit address.
#[allow(non_snake_case)]
pub fn plan_load_region32(phdrs: &Vec<ProgramHeader32>) -> (r: Option<LoadRegion32>)
    ensures
        r is Some <==> spec_plan_ok32(phdrs@),
        r is Some ==> r->Some_0 == spec_region32(phdrs@),
        r is Some ==> r->Some_0.low <= spec_raw_low32(phdrs@) && spec_raw_high32(phdrs@)
            < r->Some_0.high,
        r is Some ==> r->Some_0.low < r->Some_0.high,
        r is Some ==> forall|i: int|
            0 <= i < phdrs@.len() && #[trigger] phdrs@[i].p_type == PT_LOAD
                ==> r->Some_0.low <= phdrs@[i].p_vaddr && phdrs@[i].p_vaddr + phdrs@[i].p_memsz
                < r->Some_0.high,
{
    let mut bottom: u32 = 0xffff_ffff;
    let mut top: u32 = 0;
    let mut found: bool = false;
    let mut i: usize = 0;
    while i < phdrs.len()
        invariant
            i <= phdrs@.len(),
            bottom == spec_raw_low32(phdrs@.take(i as int)),
            found == spec_has_load32(phdrs@.take(i as int)),
            top == spec_raw_high32(phdrs@.take(i as int)),
        decreases phdrs@.len() - i,
    {
        let e = phdrs[i];
        proof {
            assert(phdrs@.take(i + 1).drop_last() =~= phdrs@.take(i as int));
            assert(phdrs@.take(i + 1).last() == phdrs@[i as int]);
        }
        if e.p_type == PT_LOAD {
            found = true;
            if e.p_vaddr < bottom {
                bottom = e.p_vaddr;
            }
            if e.p_memsz > u32::MAX - e.p_vaddr {
                proof {
                    lemma_raw_high32_ge(phdrs@, i as int);
                }
                return None;
            }
            if e.p_vaddr + e.p_memsz > top {
                top = e.p_vaddr + e.p_memsz;
            }
        }
        i = i + 1;
    }
    proof {
        assert(phdrs@.take(phdrs@.len() as int) =~= phdrs@);
    }
    if !found {
        return None;
    }
    if top > u32::MAX - SIZE_4KB as u32 {
        return None;
    }
    let low64 = AlignValue(bottom as u64, SIZE_4KB, true);
    let high64 = AlignValue(top as u64, SIZE_4KB, false);
    let low = low64 as u32;
    let high = high64 as u32;
    proof {
        lemma_raw_low32_attained(phdrs@);
        let j = choose|j: int|
            0 <= j < phdrs@.len() && phdrs@[j].p_type == PT_LOAD && spec_raw_low32(phdrs@)
                == phdrs@[j].p_vaddr;
        lemma_raw_high32_ge(phdrs@, j);
        assert forall|i: int|
            0 <= i < phdrs@.len() && #[trigger] phdrs@[i].p_type == PT_LOAD implies low
            <= phdrs@[i].p_vaddr && phdrs@[i].p_vaddr + phdrs@[i].p_memsz < high by {
            lemma_raw_low32_le(phdrs@, i);
            lemma_raw_high32_ge(phdrs@, i);
        }
    }
    Some(LoadRegion32 { low, high })
}

/// The running minimum never exceeds any loadable entry's address.
pub proof fn lemma_raw_low32_le(s: Seq<ProgramHeader32>, i: int)
    requires
        0 <= i < s.len(),
        s[i].p_type == PT_LOAD,
    ensures
        spec_raw_low32(s) <= s[i].p_vaddr,
    decreases s.len(),
{
    if i < s.len() - 1 {
        lemma_raw_low32_le(s.drop_last(), i);
    }
}

/// The running maximum never falls below any loadable entry's end.
pub proof fn lemma_raw_high32_ge(s: Seq<ProgramHeader32>, i: int)
    requires
        0 <= i < s.len(),
        s[i].p_type == PT_LOAD,
    ensures
        spec_raw_high32(s) >= s[i].p_vaddr + s[i].p_memsz,
    decreases s.len(),
{
    if i < s.len() - 1 {
        lemma_raw_high32_ge(s.drop_last(), i);
    }
}

/// With at least one loadable entry, the minimum is attained by one of them.
pub proof fn lemma_raw_low32_attained(s: Seq<ProgramHeader32>)
    requires
        spec_has_load32(s),
    ensures
        exists|i: int|
            0 <= i < s.len() && s[i].p_type == PT_LOAD && spec_raw_low32(s) == s[i].p_vaddr,
    decreases s.len(),
{
    let e = s.last();
    if e.p_type == PT_LOAD && e.p_vaddr < spec_raw_low32(s.drop_last()) {
        assert(spec_raw_low32(s) == s[s.len() - 1].p_vaddr);
    } else {
        if spec_has_load32(s.drop_last()) {
            lemma_raw_low32_attained(s.drop_last());
            let j = choose|j: int|
                0 <= j < s.drop_last().len() && s.drop_last()[j].p_type == PT_LOAD
                    && spec_raw_low32(s.drop_last()) == s.drop_last()[j].p_vaddr;
            assert(spec_raw_low32(s) == s[j].p_vaddr);
        } else {
            let w = choose|i: int| 0 <= i < s.len() && s[i].p_type == PT_LOAD;
            if w < s.len() - 1 {
                assert(s.drop_last()[w].p_type == PT_LOAD);
                assert(spec_has_load32(s.drop_last()));
            }
            assert(w == s.len() - 1);
            lemma_raw_low32_max_when_none(s.drop_last());
            assert(spec_raw_low32(s) == s[w].p_vaddr);
        }
    }
}

/// Without a loadable entry the running minimum keeps its starting value.
proof fn lemma_raw_low32_max_when_none(s: Seq<ProgramHeader32>)
    requires
        !spec_has_load32(s),
    ensures
        spec_raw_low32(s) == 0xffff_ffff,
    decreases s.len(),
{
    if s.len() > 0 {
        assert(forall|i: int|
            0 <= i < s.drop_last().len() ==> s.drop_last()[i] == s[i]);
        lemma_raw_low32_max_when_none(s.drop_last());
        assert(s.last() == s[s.len() - 1]);
    }
}

} // verus!
