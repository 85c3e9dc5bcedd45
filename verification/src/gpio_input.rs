//! Host-side GPIO input for QEMU: key presses become writes of GPSET0 and
//! GPCLR0 in the emulated BCM2711, sent over QEMU's monitor.
use vstd::prelude::*;

verus! {

/// Base of the GPIO registers in the emulated machine.
pub const GPIO_BASE: u32 = 0xfe200000;
/// Offset of GPSET0, which drives pins high.
pub const GPSET0_OFFSET: u32 = 0x1c;
/// Offset of GPCLR0, which drives pins low.
pub const GPCLR0_OFFSET: u32 = 0x28;

/// The register write that mirrors a key state on pin `pin`: set the pin
/// while the key is pressed, clear it when it is released.
pub open spec fn pin_write(pin: u8, pressed: bool) -> (u32, u32) {
    (
        (GPIO_BASE + if pressed { GPSET0_OFFSET } else { GPCLR0_OFFSET }) as u32,
        vstd::arithmetic::power2::pow2(pin as nat) as u32,
    )
}

/// Address and value of the register write for `pin` in the given key state.
pub fn pin_command(pin: u8, pressed: bool) -> (r: (u32, u32))
    requires
        pin < 32,
    ensures
        r == pin_write(pin, pressed),
{
    let offset = if pressed { GPSET0_OFFSET } else { GPCLR0_OFFSET };
    let address = GPIO_BASE + offset;
    let shift = pin as u32;
    let value: u32 = 1u32 << shift;
    proof {
        vstd::bits::lemma_u32_pow2_no_overflow(shift as nat);
        vstd::bits::lemma_u32_shl_is_mul(1, shift);
    }
    (address, value)
}

/// Brings the recorded state of a pin up to date with its key: when the key
/// changed, the state follows it and the write to send is returned.
pub fn sync_pin(state: &mut bool, pin: u8, pressed: bool) -> (r: Option<(u32, u32)>)
    requires
        pin < 32,
    ensures
        *final(state) == pressed,
        r == (if pressed != *old(state) { Some(pin_write(pin, pressed)) } else { None }),
{
    if pressed != *state {
        let command = pin_command(pin, pressed);
        *state = pressed;
        Some(command)
    } else {
        None
    }
}

} // verus!
