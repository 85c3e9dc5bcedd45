//! Bring-up and transmission plans of the PL011 UART0 and of the mini UART.
//! A plan is the list of register operations, in order, that the caller
//! performs on the hardware.
use vstd::prelude::*;
use crate::gpio::{PinMode, PullMode};
use crate::peripherals::PERIPHERAL_BASE;
use vstd::string::StringSliceAdditionalSpecFns;

verus! {

/// One register operation of a UART plan.
#[derive(Clone, Copy, Debug, PartialEq, Eq, Structural)]
pub enum UartStep {
    /// Store `value` to the register at `addr`.
    Write { addr: u64, value: u32 },
    /// Set the bits of `mask` in the register at `addr` (read, or, write).
    SetBits { addr: u64, mask: u32 },
    /// Wait until the transmit FIFO of UART0 is no longer busy.
    WaitForTx,
    /// Select the function of a GPIO pin.
    SetPinMode { pin: usize, mode: PinMode },
    /// Select the pull resistor of a GPIO pin.
    SetPullMode { pin: usize, mode: PullMode },
    /// Order all earlier stores before all later ones.
    StoreBarrier,
    /// Order all earlier memory accesses, loads and stores, before all later ones.
    FullBarrier,
}

/// UART0 in the upper-half peripheral window.
pub const UART0_REGISTER_BASE: u64 = PERIPHERAL_BASE + 0x20_1000;
pub const DR: u64 = UART0_REGISTER_BASE + 0x00;
pub const RSRECR: u64 = UART0_REGISTER_BASE + 0x04;
pub const FR: u64 = UART0_REGISTER_BASE + 0x18;
pub const ILPR: u64 = UART0_REGISTER_BASE + 0x20;
pub const IBRD: u64 = UART0_REGISTER_BASE + 0x24;
pub const FBRD: u64 = UART0_REGISTER_BASE + 0x28;
pub const LCRH: u64 = UART0_REGISTER_BASE + 0x2c;
pub const CR: u64 = UART0_REGISTER_BASE + 0x30;
pub const IFLS: u64 = UART0_REGISTER_BASE + 0x34;
pub const IMSC: u64 = UART0_REGISTER_BASE + 0x38;
pub const RIS: u64 = UART0_REGISTER_BASE + 0x3c;
pub const MIS: u64 = UART0_REGISTER_BASE + 0x40;
pub const ICR: u64 = UART0_REGISTER_BASE + 0x44;
pub const DMACR: u64 = UART0_REGISTER_BASE + 0x48;
pub const ITCR: u64 = UART0_REGISTER_BASE + 0x80;
pub const ITIP: u64 = UART0_REGISTER_BASE + 0x84;
pub const ITOP: u64 = UART0_REGISTER_BASE + 0x88;
pub const TDR: u64 = UART0_REGISTER_BASE + 0x8c;

/// Integer part of the baud rate divisor: 48 MHz / (16 * 115200) = 26.04.
pub const BAUD_DIVISOR_INTEGER: u32 = 26;
/// Fractional part of the baud rate divisor, in 64ths.
pub const BAUD_DIVISOR_FRACTION: u32 = 3;
/// Line control: 8-bit words (WLEN = 0b11).
pub const LINE_CONTROL_8_BITS: u32 = 0b11 << 5;
/// Control: UART, transmitter and receiver enabled.
pub const CONTROL_ENABLE: u32 = 0b1100000001;

/// The GPIO set-up shared by both UART0 plans: TXD0/RXD0 on pins 14 and 15
/// (ALT0), CTS0/RTS0 on pins 16 and 17 (ALT3), and their pull resistors.
pub open spec fn uart0_pin_steps() -> Seq<UartStep> {
    seq![
        UartStep::SetPinMode { pin: 14, mode: PinMode::Alt0 },
        UartStep::SetPinMode { pin: 15, mode: PinMode::Alt0 },
        UartStep::SetPinMode { pin: 16, mode: PinMode::Alt3 },
        UartStep::SetPinMode { pin: 17, mode: PinMode::Alt3 },
        UartStep::SetPullMode { pin: 14, mode: PullMode::NoPull },
        UartStep::SetPullMode { pin: 15, mode: PullMode::PullUp },
        UartStep::SetPullMode { pin: 16, mode: PullMode::PullDown },
        UartStep::SetPullMode { pin: 17, mode: PullMode::NoPull },
    ]
}

fn push_uart0_pin_steps(steps: &mut Vec<UartStep>)
    ensures
        final(steps)@ == old(steps)@ + uart0_pin_steps(),
{
    steps.push(UartStep::SetPinMode { pin: 14, mode: PinMode::Alt0 });
    steps.push(UartStep::SetPinMode { pin: 15, mode: PinMode::Alt0 });
    steps.push(UartStep::SetPinMode { pin: 16, mode: PinMode::Alt3 });
    steps.push(UartStep::SetPinMode { pin: 17, mode: PinMode::Alt3 });
    steps.push(UartStep::SetPullMode { pin: 14, mode: PullMode::NoPull });
    steps.push(UartStep::SetPullMode { pin: 15, mode: PullMode::PullUp });
    steps.push(UartStep::SetPullMode { pin: 16, mode: PullMode::PullDown });
    steps.push(UartStep::SetPullMode { pin: 17, mode: PullMode::NoPull });
    assert(final(steps)@ =~= old(steps)@ + uart0_pin_steps());
}

/// Initializes UART0: disable it, let the transmitter drain, route the pins,
/// set 115200 baud and 8-bit words, and enable it.
pub fn init() -> (steps: Vec<UartStep>)
    ensures
        steps@ == seq![UartStep::Write { addr: CR, value: 0 }, UartStep::WaitForTx]
            + uart0_pin_steps()
            + seq![
                UartStep::StoreBarrier,
                UartStep::Write { addr: IBRD, value: BAUD_DIVISOR_INTEGER },
                UartStep::Write { addr: FBRD, value: BAUD_DIVISOR_FRACTION },
                UartStep::Write { addr: LCRH, value: LINE_CONTROL_8_BITS },
                UartStep::Write { addr: CR, value: CONTROL_ENABLE },
            ],
{
    let mut steps: Vec<UartStep> = Vec::new();
    steps.push(UartStep::Write { addr: CR, value: 0 });
    steps.push(UartStep::WaitForTx);
    push_uart0_pin_steps(&mut steps);
    steps.push(UartStep::StoreBarrier);
    steps.push(UartStep::Write { addr: IBRD, value: BAUD_DIVISOR_INTEGER });
    steps.push(UartStep::Write { addr: FBRD, value: BAUD_DIVISOR_FRACTION });
    steps.push(UartStep::Write { addr: LCRH, value: LINE_CONTROL_8_BITS });
    steps.push(UartStep::Write { addr: CR, value: CONTROL_ENABLE });
    steps
}

/// Whether the flag register says that the transmit FIFO is busy (bit 3).
pub fn tx_busy(fr: u32) -> (r: bool)
    ensures
        r == ((fr / 8) % 2 == 1),
{
    let r = (fr >> 3) & 1 != 0;
    assert(r == ((fr / 8) % 2 == 1)) by (bit_vector)
        requires r == ((fr >> 3) & 1 != 0);
    r
}

/// The steps that send one byte: wait for the transmitter, then store the
/// byte to the data register.
pub open spec fn byte_steps(data_register: u64, b: u8) -> Seq<UartStep> {
    seq![UartStep::WaitForTx, UartStep::Write { addr: data_register, value: b as u32 }]
}

/// The steps that send `bytes` one after the other.
pub open spec fn bytes_steps(data_register: u64, bytes: Seq<u8>) -> Seq<UartStep>
    decreases bytes.len(),
{
    if bytes.len() == 0 {
        Seq::empty()
    } else {
        bytes_steps(data_register, bytes.drop_last()) + byte_steps(data_register, bytes.last())
    }
}

/// Writes a string slice with UART0, byte by byte, after a store barrier and
/// before a full barrier. UART0 must have been initialized with [`init`] before.
pub fn write_str(s: &str) -> (steps: Vec<UartStep>)
    ensures
        steps@ == seq![UartStep::StoreBarrier] + bytes_steps(DR, s.spec_bytes())
            + seq![UartStep::FullBarrier],
{
    let bytes = s.as_bytes();
    let mut steps: Vec<UartStep> = Vec::new();
    steps.push(UartStep::StoreBarrier);
    let mut i: usize = 0;
    while i < bytes.len()
        invariant
            i <= bytes@.len(),
            bytes@ == s.spec_bytes(),
            steps@ == seq![UartStep::StoreBarrier] + bytes_steps(DR, bytes@.take(i as int)),
        decreases bytes@.len() - i,
    {
        proof {
            assert(bytes@.take(i + 1).drop_last() =~= bytes@.take(i as int));
        }
        steps.push(UartStep::WaitForTx);
        steps.push(UartStep::Write { addr: DR, value: bytes[i] as u32 });
        proof {
            assert(steps@ =~= seq![UartStep::StoreBarrier] + bytes_steps(DR, bytes@.take(i + 1)));
        }
        i = i + 1;
    }
    proof {
        assert(bytes@.take(bytes@.len() as int) =~= bytes@);
    }
    steps.push(UartStep::FullBarrier);
    steps
}

/// The PL011 UART0 seen at its VideoCore bus address.
pub struct UARTDriver;

pub const UART0_BUS_REGISTER_BASE: u64 = 0x7e201000;
pub const BUS_DR: u64 = UART0_BUS_REGISTER_BASE + 0x00;
pub const BUS_FR: u64 = UART0_BUS_REGISTER_BASE + 0x18;
pub const BUS_IBRD: u64 = UART0_BUS_REGISTER_BASE + 0x24;
pub const BUS_FBRD: u64 = UART0_BUS_REGISTER_BASE + 0x28;
pub const BUS_LCRH: u64 = UART0_BUS_REGISTER_BASE + 0x2c;
pub const BUS_CR: u64 = UART0_BUS_REGISTER_BASE + 0x30;

impl UARTDriver {
    /// Routes the UART0 pins, sets 115200 baud and 8-bit words, and enables it.
    pub fn initialize() -> (steps: Vec<UartStep>)
        ensures
            steps@ == uart0_pin_steps() + seq![
                UartStep::Write { addr: BUS_IBRD, value: BAUD_DIVISOR_INTEGER },
                UartStep::Write { addr: BUS_FBRD, value: BAUD_DIVISOR_FRACTION },
                UartStep::Write { addr: BUS_LCRH, value: LINE_CONTROL_8_BITS },
                UartStep::Write { addr: BUS_CR, value: CONTROL_ENABLE },
            ],
    {
        let mut steps: Vec<UartStep> = Vec::new();
        push_uart0_pin_steps(&mut steps);
        steps.push(UartStep::Write { addr: BUS_IBRD, value: BAUD_DIVISOR_INTEGER });
        steps.push(UartStep::Write { addr: BUS_FBRD, value: BAUD_DIVISOR_FRACTION });
        steps.push(UartStep::Write { addr: BUS_LCRH, value: LINE_CONTROL_8_BITS });
        steps.push(UartStep::Write { addr: BUS_CR, value: CONTROL_ENABLE });
        proof {
            assert(steps@ =~= uart0_pin_steps() + seq![
                UartStep::Write { addr: BUS_IBRD, value: BAUD_DIVISOR_INTEGER },
                UartStep::Write { addr: BUS_FBRD, value: BAUD_DIVISOR_FRACTION },
                UartStep::Write { addr: BUS_LCRH, value: LINE_CONTROL_8_BITS },
                UartStep::Write { addr: BUS_CR, value: CONTROL_ENABLE },
            ]);
        }
        steps
    }

    /// Sends one byte: wait for the transmitter, then store the byte.
    pub fn write_u8(value: u8) -> (steps: Vec<UartStep>)
        ensures
            steps@ == byte_steps(BUS_DR, value),
    {
        let mut steps: Vec<UartStep> = Vec::new();
        steps.push(UartStep::WaitForTx);
        steps.push(UartStep::Write { addr: BUS_DR, value: value as u32 });
        steps
    }

    /// Sends the bytes of `s` one after the other.
    pub fn write_str(s: &str) -> (steps: Vec<UartStep>)
        ensures
            steps@ == bytes_steps(BUS_DR, s.spec_bytes()),
    {
        let bytes = s.as_bytes();
        let mut steps: Vec<UartStep> = Vec::new();
        let mut i: usize = 0;
        while i < bytes.len()
            invariant
                i <= bytes@.len(),
                bytes@ == s.spec_bytes(),
                steps@ == bytes_steps(BUS_DR, bytes@.take(i as int)),
            decreases bytes@.len() - i,
        {
            proof {
                assert(bytes@.take(i + 1).drop_last() =~= bytes@.take(i as int));
            }
            let mut one = Self::write_u8(bytes[i]);
            steps.append(&mut one);
            proof {
                assert(steps@ =~= bytes_steps(BUS_DR, bytes@.take(i + 1)));
            }
            i = i + 1;
        }
        proof {
            assert(bytes@.take(bytes@.len() as int) =~= bytes@);
        }
        steps
    }
}

/// The auxiliary mini UART.
pub struct MiniUARTDriver {}

pub const AUX_REGISTER_BASE: u64 = 0x7e21_5000;
pub const AUX_ENABLES: u64 = AUX_REGISTER_BASE + 0x04;

impl MiniUARTDriver {
    /// Routes pins 14 to 17 to the mini UART (ALT5), disables the pull
    /// resistors of pins 14 and 15, and enables the mini UART (bit 0 of
    /// AUX_ENABLES).
    pub fn initialize_mini_uart() -> (steps: Vec<UartStep>)
        ensures
            steps@ == seq![
                UartStep::SetPinMode { pin: 14, mode: PinMode::Alt5 },
                UartStep::SetPinMode { pin: 15, mode: PinMode::Alt5 },
                UartStep::SetPinMode { pin: 16, mode: PinMode::Alt5 },
                UartStep::SetPinMode { pin: 17, mode: PinMode::Alt5 },
                UartStep::SetPullMode { pin: 14, mode: PullMode::NoPull },
                UartStep::SetPullMode { pin: 15, mode: PullMode::NoPull },
                UartStep::SetBits { addr: AUX_ENABLES, mask: 1 },
            ],
    {
        let mut steps: Vec<UartStep> = Vec::new();
        steps.push(UartStep::SetPinMode { pin: 14, mode: PinMode::Alt5 });
        steps.push(UartStep::SetPinMode { pin: 15, mode: PinMode::Alt5 });
        steps.push(UartStep::SetPinMode { pin: 16, mode: PinMode::Alt5 });
        steps.push(UartStep::SetPinMode { pin: 17, mode: PinMode::Alt5 });
        steps.push(UartStep::SetPullMode { pin: 14, mode: PullMode::NoPull });
        steps.push(UartStep::SetPullMode { pin: 15, mode: PullMode::NoPull });
        steps.push(UartStep::SetBits { addr: AUX_ENABLES, mask: 1 });
        steps
    }
}

/// A register word with the bits of `mask` set.
pub fn set_bits(word: u32, mask: u32) -> (r: u32)
    ensures
        r == word | mask,
{
    word | mask
}

} // verus!
