//! Entry-point discovery and loading for the earliest firmware boot stage.
//!
//! The library parses a candidate next-stage image as a 32- or 64-bit ELF
//! binary, computes the minimal page-aligned memory region covering its
//! loadable segments, copies the segment bytes into a caller-supplied memory
//! window, and yields the resolved entry address (0 signals failure).  All
//! byte access is bounds-checked; the surrounding firmware shell owns the raw
//! hardware access and hands this library plain byte buffers.

pub mod align;
pub mod elf;
pub mod memory;
pub mod pci;
pub mod plan;
pub mod rng;
pub mod sec;
