//! The sealing trait of the IP2315 gate states.

use vstd::prelude::*;

verus! {

/// Sealing trait: only `Parked` and `Mounted` implement it.
pub trait Sealed {}

} // verus!
