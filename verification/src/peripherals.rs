//! Where the kernel sees the BCM2711 peripherals once the MMU is on: in the
//! upper half of the address space.
use vstd::prelude::*;

verus! {

/// Offset of the upper (EL1) half of the address space.
pub const UPPER_HALF_OFFSET: u64 = 0xffff_fffe_0000_0000;

/// Base of the peripheral window, mapped into the upper half.
pub const PERIPHERAL_BASE: u64 = 0xfe00_0000 + UPPER_HALF_OFFSET;

} // verus!
