//! The destination memory window and the segment copier.
//!
//! Physical memory is held as plain bytes: `bytes[i]` models the byte at
//! absolute address `base + i`.  The surrounding firmware shell owns the
//! mapping between such a window and the machine's real memory, and must hand
//! the copier a window that is free for the image being placed.

use vstd::prelude::*;

use crate::elf::PT_LOAD;
use crate::elf::ProgramHeader64;

verus! {

/// A window of physical memory starting at absolute address `base`.
pub struct Memory {
    pub base: u64,
    pub bytes: Vec<u8>,
}

impl Memory {
    /// The window must not wrap around the top of the address space.
    pub open spec fn wf(self) -> bool {
        self.base + self.bytes@.len() <= u64::MAX + 1
    }

    /// The first absolute address past the window.
    pub open spec fn spec_end(self) -> int {
        self.base + self.bytes@.len()
    }
}

/// `m` with the bytes of `src` laid down at window position `pos`; every
/// byte outside `[pos, pos + src.len())` keeps its old value.
pub open spec fn spec_write_at(m: Seq<u8>, pos: int, src: Seq<u8>) -> Seq<u8> {
    Seq::new(m.len(), |j: int| if pos <= j < pos + src.len() { src[j - pos] } else { m[j] })
}

/// The file bytes a 64-bit program-header entry asks to copy.
pub open spec fn spec_file_bytes64(data: Seq<u8>, e: ProgramHeader64) -> Seq<u8> {
    data.subrange(e.p_offset as int, e.p_offset + e.p_filesz)
}

/// The memory window after the loadable entries of `phdrs` are copied in,
/// in table order: each `PT_LOAD` entry lays its `p_filesz` file bytes down
/// at its target virtual address; every other entry changes nothing.
pub open spec fn spec_copy_segments64(
    m: Seq<u8>,
    base: u64,
    data: Seq<u8>,
    phdrs: Seq<ProgramHeader64>,
) -> Seq<u8>
    decreases phdrs.len(),
{
    if phdrs.len() == 0 {
        m
    } else {
        let prev = spec_copy_segments64(m, base, data, phdrs.drop_last());
        let e = phdrs.last();
        if e.p_type == PT_LOAD {
            spec_write_at(prev, e.p_vaddr - base, spec_file_bytes64(data, e))
        } else {
            prev
        }
    }
}

/// True when one loadable entry's copy stays inside both the image and the
/// memory window: its file extent lies inside `data`, and its destination
/// range lies inside the window of `mlen` bytes at `base`.
pub open spec fn spec_segment_copy_ok64(
    data: Seq<u8>,
    base: u64,
    mlen: nat,
    e: ProgramHeader64,
) -> bool {
    &&& e.p_offset + e.p_filesz <= data.len()
    &&& base <= e.p_vaddr
    &&& e.p_vaddr + e.p_filesz <= base + mlen
}

/// True when every loadable entry of the table can be copied in bounds.
pub open spec fn spec_copy_ok64(
    data: Seq<u8>,
    base: u64,
    mlen: nat,
    phdrs: Seq<ProgramHeader64>,
) -> bool {
    forall|i: int|
        0 <= i < phdrs.len() && #[trigger] phdrs[i].p_type == PT_LOAD
            ==> spec_segment_copy_ok64(data, base, mlen, phdrs[i])
}

/// True when no two loadable entries write overlapping destination ranges.
pub open spec fn spec_disjoint_dests64(phdrs: Seq<ProgramHeader64>) -> bool {
    forall|j: int, k: int|
        0 <= j < k < phdrs.len() && phdrs[j].p_type == PT_LOAD && phdrs[k].p_type == PT_LOAD ==> (
        #[trigger] phdrs[j].p_vaddr + phdrs[j].p_filesz <= #[trigger] phdrs[k].p_vaddr
            || phdrs[k].p_vaddr + phdrs[k].p_filesz <= phdrs[j].p_vaddr)
}

/// Copying never changes the window's length.
pub proof fn lemma_copy_segments64_len(
    m: Seq<u8>,
    base: u64,
    data: Seq<u8>,
    phdrs: Seq<ProgramHeader64>,
)
    ensures
        spec_copy_segments64(m, base, data, phdrs).len() == m.len(),
    decreases phdrs.len(),
{
    if phdrs.len() > 0 {
        lemma_copy_segments64_len(m, base, data, phdrs.drop_last());
    }
}

/// Copy fidelity for the whole placement: when the loadable entries write
/// pairwise disjoint destination ranges, then after all of them are copied,
/// each one's `p_filesz` bytes at its target address equal, byte for byte,
/// the image bytes at its file offset.
pub proof fn lemma_copy_fidelity64(
    m: Seq<u8>,
    base: u64,
    data: Seq<u8>,
    phdrs: Seq<ProgramHeader64>,
    i: int,
)
    requires
        spec_copy_ok64(data, base, m.len(), phdrs),
        spec_disjoint_dests64(phdrs),
        0 <= i < phdrs.len(),
        phdrs[i].p_type == PT_LOAD,
    ensures
        spec_copy_segments64(m, base, data, phdrs).subrange(
            phdrs[i].p_vaddr - base,
            phdrs[i].p_vaddr - base + phdrs[i].p_filesz,
        ) == spec_file_bytes64(data, phdrs[i]),
    decreases phdrs.len(),
{
    let result = spec_copy_segments64(m, base, data, phdrs);
    let prev = spec_copy_segments64(m, base, data, phdrs.drop_last());
    let e = phdrs.last();
    let pos = phdrs[i].p_vaddr - base;
    let flen = phdrs[i].p_filesz as int;
    lemma_copy_segments64_len(m, base, data, phdrs);
    lemma_copy_segments64_len(m, base, data, phdrs.drop_last());
    assert(spec_segment_copy_ok64(data, base, m.len(), phdrs[i]));
    if i == phdrs.len() - 1 {
        assert(result == spec_write_at(prev, pos, spec_file_bytes64(data, e)));
        assert(result.subrange(pos, pos + flen) =~= spec_file_bytes64(data, phdrs[i]));
    } else {
        assert(spec_copy_ok64(data, base, m.len(), phdrs.drop_last())) by {
            assert(forall|k: int|
                0 <= k < phdrs.drop_last().len() ==> phdrs.drop_last()[k] == phdrs[k]);
        }
        assert(spec_disjoint_dests64(phdrs.drop_last())) by {
            assert(forall|k: int|
                0 <= k < phdrs.drop_last().len() ==> phdrs.drop_last()[k] == phdrs[k]);
        }
        lemma_copy_fidelity64(m, base, data, phdrs.drop_last(), i);
        if e.p_type == PT_LOAD {
            assert(phdrs[phdrs.len() - 1] == e);
            assert(phdrs[i].p_vaddr + phdrs[i].p_filesz <= e.p_vaddr || e.p_vaddr + e.p_filesz
                <= phdrs[i].p_vaddr);
            assert(result == spec_write_at(prev, e.p_vaddr - base, spec_file_bytes64(data, e)));
            assert(result.subrange(pos, pos + flen) =~= prev.subrange(pos, pos + flen));
        } else {
            assert(result == prev);
        }
    }
}

/// Copies `filesz` file bytes that start at `offset` inside the image to the
/// absolute address `vaddr`.  Exactly those destination bytes change, and
/// afterwards they equal the source bytes one for one.  The tail from
/// `filesz` up to a segment's `memsz` is deliberately not zeroed here: if a
/// cleared tail is needed, preparing the window is the caller's step before
/// the copy.
pub fn copy_segment(data: &[u8], mem: &mut Memory, offset: u64, vaddr: u64, filesz: u64)
    requires
        old(mem).wf(),
        offset + filesz <= data@.len(),
        old(mem).base <= vaddr,
        vaddr + filesz <= old(mem).spec_end(),
    ensures
        final(mem).base == old(mem).base,
        final(mem).wf(),
        final(mem).bytes@ == spec_write_at(
            old(mem).bytes@,
            vaddr - old(mem).base,
            data@.subrange(offset as int, offset + filesz),
        ),
        final(mem).bytes@.subrange(
            vaddr - old(mem).base,
            vaddr - old(mem).base + filesz,
        ) == data@.subrange(offset as int, offset + filesz),
{
    let data_len: usize = data.len();
    let mem_len: usize = mem.bytes.len();
    let pos: u64 = vaddr - mem.base;
    let ghost src = data@.subrange(offset as int, offset + filesz);
    let mut j: u64 = 0;
    while j < filesz
        invariant
            j <= filesz,
            pos + filesz <= mem.bytes@.len(),
            offset + filesz <= data@.len(),
            data@.len() <= usize::MAX,
            mem.bytes@.len() <= usize::MAX,
            mem.base == old(mem).base,
            mem.bytes@.len() == old(mem).bytes@.len(),
            src == data@.subrange(offset as int, offset + filesz),
            mem.bytes@ == spec_write_at(old(mem).bytes@, pos as int, src.take(j as int)),
        decreases filesz - j,
    {
        let b: u8 = data[(offset + j) as usize];
        mem.bytes.set((pos + j) as usize, b);
        proof {
            assert(mem.bytes@ =~= spec_write_at(old(mem).bytes@, pos as int, src.take(j + 1)));
        }
        j = j + 1;
    }
    proof {
        assert(src.take(filesz as int) =~= src);
        assert(mem.bytes@.subrange(pos as int, pos + filesz) =~= src);
    }
}

/// Copies every loadable segment of the table into the memory window, in
/// table order, after first checking that every one of them stays inside
/// both the image and the window.  When any would not, nothing at all is
/// copied and the call reports failure: an out-of-range file extent or
/// destination fails the whole placement rather than touching memory.
pub fn copy_segments64(data: &[u8], mem: &mut Memory, phdrs: &Vec<ProgramHeader64>) -> (ok: bool)
    requires
        old(mem).wf(),
    ensures
        final(mem).base == old(mem).base,
        final(mem).wf(),
        final(mem).bytes@.len() == old(mem).bytes@.len(),
        ok == spec_copy_ok64(data@, old(mem).base, old(mem).bytes@.len(), phdrs@),
        ok ==> final(mem).bytes@ == spec_copy_segments64(
            old(mem).bytes@,
            old(mem).base,
            data@,
            phdrs@,
        ),
        !ok ==> final(mem).bytes@ == old(mem).bytes@,
{
    let data_len: usize = data.len();
    let mem_len: usize = mem.bytes.len();
    let base: u64 = mem.base;
    let ghost mlen = old(mem).bytes@.len();
    let mut i: usize = 0;
    while i < phdrs.len()
        invariant
            i <= phdrs@.len(),
            data_len == data@.len(),
            mem_len == mem.bytes@.len(),
            base == mem.base,
            mem == old(mem),
            mem.wf(),
            mlen == mem.bytes@.len(),
            forall|k: int|
                0 <= k < i && #[trigger] phdrs@[k].p_type == PT_LOAD
                    ==> spec_segment_copy_ok64(data@, base, mlen, phdrs@[k]),
        decreases phdrs@.len() - i,
    {
        let e = &phdrs[i];
        if e.p_type == PT_LOAD {
            if e.p_filesz > data_len as u64 || e.p_offset > data_len as u64 - e.p_filesz {
                return false;
            }
            if e.p_vaddr < base {
                return false;
            }
            let rel: u64 = e.p_vaddr - base;
            if rel > mem_len as u64 || e.p_filesz > mem_len as u64 - rel {
                return false;
            }
        }
        i = i + 1;
    }
    let ghost snapshot = mem.bytes@;
    let mut i: usize = 0;
    while i < phdrs.len()
        invariant
            i <= phdrs@.len(),
            data_len == data@.len(),
            mem_len == mem.bytes@.len(),
            base == mem.base,
            mem.base == old(mem).base,
            mem.wf(),
            mlen == mem.bytes@.len(),
            snapshot.len() == mem.bytes@.len(),
            spec_copy_ok64(data@, base, mlen, phdrs@),
            mem.bytes@ == spec_copy_segments64(snapshot, base, data@, phdrs@.take(i as int)),
        decreases phdrs@.len() - i,
    {
        let e = phdrs[i];
        proof {
            assert(phdrs@.take(i + 1).drop_last() =~= phdrs@.take(i as int));
            assert(phdrs@.take(i + 1).last() == phdrs@[i as int]);
        }
        if e.p_type == PT_LOAD {
            assert(spec_segment_copy_ok64(data@, base, mlen, phdrs@[i as int]));
            copy_segment(data, mem, e.p_offset, e.p_vaddr, e.p_filesz);
        }
        i = i + 1;
    }
    proof {
        assert(phdrs@.take(phdrs@.len() as int) =~= phdrs@);
    }
    true
}

} // verus!
