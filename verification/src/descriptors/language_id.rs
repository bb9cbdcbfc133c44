//! USB defined language IDs for string descriptors.
//!
//! In practice, different language IDs are not used, and device string descriptors are only
//! provided with [`US_ENGLISH`].

use vstd::prelude::*;

verus! {

/// US English
pub const US_ENGLISH: u16 = 0x0409;

} // verus!
