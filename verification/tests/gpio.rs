use rpi4_kernel::gpio::reg::{GPFSEL0, GPFSEL1, GPFSEL5, GPIO_PUP_PDN_CNTRL_REG0, GPIO_PUP_PDN_CNTRL_REG1, GPIO_PUP_PDN_CNTRL_REG3};
use rpi4_kernel::gpio::{pin_mode_register, pin_mode_value, pull_mode_register, pull_mode_value, PinMode, PullMode};

#[test]
fn pin_mode_codes() {
    let modes = [
        (PinMode::Input, 0b000),
        (PinMode::Output, 0b001),
        (PinMode::Alt0, 0b100),
        (PinMode::Alt1, 0b101),
        (PinMode::Alt2, 0b110),
        (PinMode::Alt3, 0b111),
        (PinMode::Alt4, 0b011),
        (PinMode::Alt5, 0b010),
    ];
    for (m, code) in modes {
        assert_eq!(m.bit_pattern(), code);
    }
}

#[test]
fn pull_mode_codes() {
    assert_eq!(PullMode::NoPull.bit_pattern(), 0b00);
    assert_eq!(PullMode::PullUp.bit_pattern(), 0b01);
    assert_eq!(PullMode::PullDown.bit_pattern(), 0b10);
}

#[test]
fn function_select_registers() {
    assert_eq!(pin_mode_register(0), GPFSEL0);
    assert_eq!(pin_mode_register(9), GPFSEL0);
    assert_eq!(pin_mode_register(10), GPFSEL1);
    assert_eq!(pin_mode_register(57), GPFSEL5);
    assert_eq!(GPFSEL5, 0xfe20_0014);
}

#[test]
fn pull_registers() {
    assert_eq!(pull_mode_register(0), GPIO_PUP_PDN_CNTRL_REG0);
    assert_eq!(pull_mode_register(15), GPIO_PUP_PDN_CNTRL_REG0);
    assert_eq!(pull_mode_register(16), GPIO_PUP_PDN_CNTRL_REG1);
    assert_eq!(pull_mode_register(57), GPIO_PUP_PDN_CNTRL_REG3);
    assert_eq!(GPIO_PUP_PDN_CNTRL_REG3, 0xfe20_00f0);
}

#[test]
fn function_select_words() {
    assert_eq!(pin_mode_value(0, 14, PinMode::Alt0), 0x4000);
    assert_eq!(pin_mode_value(0xffff_ffff, 12, PinMode::Output), 0xffff_fe7f);
    assert_eq!(pin_mode_value(0xffff_ffff, 19, PinMode::Input), 0xc7ff_ffff);
    assert_eq!(pin_mode_value(0x1234_5678, 57, PinMode::Alt3), 0x1234_5678 | (7 << 21));
}

#[test]
fn function_select_touches_only_its_pin() {
    let start = 0x2492_4924u32;
    let w = pin_mode_value(start, 13, PinMode::Alt5);
    for slot in 0..10u32 {
        let field = (w >> (slot * 3)) & 7;
        if slot == 3 {
            assert_eq!(field, 0b010);
        } else {
            assert_eq!(field, (start >> (slot * 3)) & 7);
        }
    }
    assert_eq!(w >> 30, start >> 30);
    // The last mode set wins, and two pins can be set in either order.
    assert_eq!(pin_mode_value(pin_mode_value(start, 13, PinMode::Alt1), 13, PinMode::Alt4), pin_mode_value(start, 13, PinMode::Alt4));
    assert_eq!(
        pin_mode_value(pin_mode_value(start, 11, PinMode::Alt2), 12, PinMode::Output),
        pin_mode_value(pin_mode_value(start, 12, PinMode::Output), 11, PinMode::Alt2)
    );
}

#[test]
fn pull_words() {
    assert_eq!(pull_mode_value(0, 15, PullMode::PullUp), 0x4000_0000);
    assert_eq!(pull_mode_value(0xffff_ffff, 17, PullMode::NoPull), 0xffff_fff3);
    assert_eq!(pull_mode_value(0, 48, PullMode::PullDown), 0b10);
    let w = pull_mode_value(0xaaaa_aaaa, 5, PullMode::PullUp);
    assert_eq!(w, 0xaaaa_a6aa);
    assert_eq!(pull_mode_value(pull_mode_value(0, 3, PullMode::PullUp), 3, PullMode::NoPull), 0);
}
