//! Tag identifiers of the VideoCore property interface.
use vstd::prelude::*;

verus! {

pub const GET_FIRMWARE_REVISION: u32 = 0x00000001;
pub const GET_BOARD_MODEL: u32 = 0x00010001;
pub const GET_BOARD_REVISION: u32 = 0x00010002;
pub const GET_BOARD_MAC_ADDRESS: u32 = 0x00010003;
pub const GET_BOARD_SERIAL: u32 = 0x00010004;
pub const GET_ARM_MEMORY: u32 = 0x00010005;
pub const GET_VC_MEMORY: u32 = 0x00010006;
pub const GET_CLOCKS: u32 = 0x00010007;
pub const GET_COMMAND_LINE: u32 = 0x00050001;
pub const GET_DMA_CHANNELS: u32 = 0x00060001;
pub const GET_POWER_STATE: u32 = 0x00020001;
pub const GET_TIMING: u32 = 0x00020002;
pub const SET_POWER_STATE: u32 = 0x00028001;
pub const GET_CLOCK_STATE: u32 = 0x00030001;
pub const SET_CLOCK_STATE: u32 = 0x00038001;
pub const GET_CLOCK_RATE: u32 = 0x00030002;
pub const GET_ONBOARD_LED_STATUS: u32 = 0x00030041;
pub const TEST_ONBOARD_LED_STATUS: u32 = 0x00034041;
pub const SET_ONBOARD_LED_STATUS: u32 = 0x00038041;
pub const GET_CLOCK_RATE_MEASURED: u32 = 0x00030047;
pub const SET_CLOCK_RATE: u32 = 0x00038002;
pub const GET_MAX_CLOCK_RATE: u32 = 0x00030004;
pub const GET_MIN_CLOCK_RATE: u32 = 0x00030007;
pub const GET_TURBO: u32 = 0x00030009;
pub const SET_TURBO: u32 = 0x00038009;
pub const GET_VOLTAGE: u32 = 0x00030003;
pub const SET_VOLTAGE: u32 = 0x00038003;
pub const GET_MAX_VOLTAGE: u32 = 0x00030005;
pub const GET_MIN_VOLTAGE: u32 = 0x00030008;
pub const GET_TEMPERATURE: u32 = 0x00030006;
pub const GET_MAX_TEMPERATURE: u32 = 0x0003000a;
pub const ALLOCATE_MEMORY: u32 = 0x0003000c;
pub const LOCK_MEMORY: u32 = 0x0003000d;
pub const UNLOCK_MEMORY: u32 = 0x0003000e;
pub const RELEASE_MEMORY: u32 = 0x0003000f;
pub const EXECUTE_CODE: u32 = 0x00030010;
pub const GET_DISPMANX_RESOURCE_MEM_HANDLE: u32 = 0x00030014;
pub const GET_EDID_BLOCK: u32 = 0x00030020;
pub const ALLOCATE_BUFFER: u32 = 0x00040001;
pub const RELEASE_BUFFER: u32 = 0x00048001;
pub const BLANK_SCREEN: u32 = 0x00040002;
pub const GET_PHYSICAL_RESOLUTION: u32 = 0x00040003;
pub const TEST_PHYSICAL_RESOLUTION: u32 = 0x00044003;
pub const SET_PHYSICAL_RESOLUTION: u32 = 0x00048003;
pub const GET_VIRTUAL_RESOLUTION: u32 = 0x00040004;
pub const TEST_VIRTUAL_RESOLUTION: u32 = 0x00044004;
pub const SET_VIRTUAL_RESOLUTION: u32 = 0x00048004;
pub const GET_DEPTH: u32 = 0x00040005;
pub const TEST_DEPTH: u32 = 0x00044005;
pub const SET_DEPTH: u32 = 0x00048005;
pub const GET_PIXEL_ORDER: u32 = 0x00040006;
pub const TEST_PIXEL_ORDER: u32 = 0x00044006;
pub const SET_PIXEL_ORDER: u32 = 0x00048006;
pub const GET_ALPHA_MODE: u32 = 0x00040007;
pub const TEST_ALPHA_MODE: u32 = 0x00044007;
pub const SET_ALPHA_MODE: u32 = 0x00048007;
pub const GET_PITCH: u32 = 0x00040008;
pub const GET_VIRTUAL_OFFSET: u32 = 0x00040009;
pub const TEST_VIRTUAL_OFFSET: u32 = 0x00044009;
pub const SET_VIRTUAL_OFFSET: u32 = 0x00048009;
pub const GET_OVERSCAN: u32 = 0x0004000a;
pub const TEST_OVERSCAN: u32 = 0x0004400a;
pub const SET_OVERSCAN: u32 = 0x0004800a;
pub const GET_PALETTE: u32 = 0x0004000b;
pub const TEST_PALETTE: u32 = 0x0004400b;
pub const SET_PALETTE: u32 = 0x0004800b;
pub const SET_CURSOR_INFO: u32 = 0x00008010;
pub const SET_CURSOR_STATE: u32 = 0x00008011;

} // verus!
