//! The error type of the processor's entropy draws.  The firmware shell
//! runs the entropy instructions themselves and reports a failed draw
//! through this type.

use vstd::prelude::*;

verus! {

/// Returned when the processor cannot supply an entropy value.
#[derive(Clone, Copy, PartialEq, Eq, Structural, Debug)]
pub struct Unsupported;

} // verus!
