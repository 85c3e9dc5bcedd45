//! GPIO register addresses of the BCM2711 (low peripheral mapping).
use vstd::prelude::*;

verus! {

pub const GPIO_REGISTER_BASE: u64 = 0xfe20_0000;
pub const GPFSEL0: u64 = 0xfe20_0000;
pub const GPFSEL1: u64 = 0xfe20_0004;
pub const GPFSEL2: u64 = 0xfe20_0008;
pub const GPFSEL3: u64 = 0xfe20_000c;
pub const GPFSEL4: u64 = 0xfe20_0010;
pub const GPFSEL5: u64 = 0xfe20_0014;
pub const GPSET0: u64 = 0xfe20_001c;
pub const GPSET1: u64 = 0xfe20_0020;
pub const GPCLR0: u64 = 0xfe20_0028;
pub const GPCLR1: u64 = 0xfe20_002c;
pub const GPLEV0: u64 = 0xfe20_0034;
pub const GPLEV1: u64 = 0xfe20_0038;
pub const GPEDS0: u64 = 0xfe20_0040;
pub const GPEDS1: u64 = 0xfe20_0044;
pub const GPREN0: u64 = 0xfe20_004c;
pub const GPREN1: u64 = 0xfe20_0050;
pub const GPFEN0: u64 = 0xfe20_0058;
pub const GPFEN1: u64 = 0xfe20_005c;
pub const GPHEN0: u64 = 0xfe20_0064;
pub const GPHEN1: u64 = 0xfe20_0068;
pub const GPLEN0: u64 = 0xfe20_0070;
pub const GPLEN1: u64 = 0xfe20_0074;
pub const GPAREN0: u64 = 0xfe20_007c;
pub const GPAREN1: u64 = 0xfe20_0080;
pub const GPAFEN0: u64 = 0xfe20_0088;
pub const GPAFEN1: u64 = 0xfe20_008c;
pub const GPIO_PUP_PDN_CNTRL_REG0: u64 = 0xfe20_00e4;
pub const GPIO_PUP_PDN_CNTRL_REG1: u64 = 0xfe20_00e8;
pub const GPIO_PUP_PDN_CNTRL_REG2: u64 = 0xfe20_00ec;
pub const GPIO_PUP_PDN_CNTRL_REG3: u64 = 0xfe20_00f0;

} // verus!
