use rpi4_kernel::gpio::{PinMode, PullMode};
use rpi4_kernel::uart::{
    init, set_bits, tx_busy, write_str, MiniUARTDriver, UARTDriver, UartStep, AUX_ENABLES, CR, DR, FBRD,
    IBRD, LCRH,
};

fn pins() -> Vec<UartStep> {
    vec![
        UartStep::SetPinMode { pin: 14, mode: PinMode::Alt0 },
        UartStep::SetPinMode { pin: 15, mode: PinMode::Alt0 },
        UartStep::SetPinMode { pin: 16, mode: PinMode::Alt3 },
        UartStep::SetPinMode { pin: 17, mode: PinMode::Alt3 },
        UartStep::SetPullMode { pin: 14, mode: PullMode::NoPull },
        UartStep::SetPullMode { pin: 15, mode: PullMode::PullUp },
        UartStep::SetPullMode { pin: 16, mode: PullMode::PullDown },
        UartStep::SetPullMode { pin: 17, mode: PullMode::NoPull },
    ]
}

#[test]
fn uart0_init_plan() {
    let mut expected = vec![UartStep::Write { addr: CR, value: 0 }, UartStep::WaitForTx];
    expected.extend(pins());
    expected.extend([
        UartStep::StoreBarrier,
        UartStep::Write { addr: IBRD, value: 26 },
        UartStep::Write { addr: FBRD, value: 3 },
        UartStep::Write { addr: LCRH, value: 0x60 },
        UartStep::Write { addr: CR, value: 0x301 },
    ]);
    assert_eq!(init(), expected);
    assert_eq!(CR, 0xffff_fffe_fe20_1030);
}

#[test]
fn transmitter_busy_flag() {
    assert!(tx_busy(0b1000));
    assert!(tx_busy(0xffff_ffff));
    assert!(!tx_busy(0));
    assert!(!tx_busy(0xffff_fff7));
}

#[test]
fn uart0_write_plan() {
    assert_eq!(
        write_str("hi"),
        vec![
            UartStep::StoreBarrier,
            UartStep::WaitForTx,
            UartStep::Write { addr: DR, value: b'h' as u32 },
            UartStep::WaitForTx,
            UartStep::Write { addr: DR, value: b'i' as u32 },
            UartStep::FullBarrier,
        ]
    );
    assert_eq!(write_str(""), vec![UartStep::StoreBarrier, UartStep::FullBarrier]);
    assert_eq!(write_str("é").len(), 2 + 2 * 2);
}

#[test]
fn bus_uart_plans() {
    let mut expected = pins();
    expected.extend([
        UartStep::Write { addr: 0x7e20_1024, value: 26 },
        UartStep::Write { addr: 0x7e20_1028, value: 3 },
        UartStep::Write { addr: 0x7e20_102c, value: 0x60 },
        UartStep::Write { addr: 0x7e20_1030, value: 0x301 },
    ]);
    assert_eq!(UARTDriver::initialize(), expected);
    assert_eq!(UARTDriver::write_u8(7), vec![UartStep::WaitForTx, UartStep::Write { addr: 0x7e20_1000, value: 7 }]);
    let s = UARTDriver::write_str("ok");
    assert_eq!(s.len(), 4);
    assert_eq!(s[3], UartStep::Write { addr: 0x7e20_1000, value: b'k' as u32 });
}

#[test]
fn mini_uart_plan() {
    let steps = MiniUARTDriver::initialize_mini_uart();
    assert_eq!(steps.len(), 7);
    for (i, pin) in [14usize, 15, 16, 17].iter().enumerate() {
        assert_eq!(steps[i], UartStep::SetPinMode { pin: *pin, mode: PinMode::Alt5 });
    }
    assert_eq!(steps[5], UartStep::SetPullMode { pin: 15, mode: PullMode::NoPull });
    assert_eq!(steps[6], UartStep::SetBits { addr: AUX_ENABLES, mask: 1 });
    assert_eq!(AUX_ENABLES, 0x7e21_5004);
    assert_eq!(set_bits(0b1010, 1), 0b1011);
    assert_eq!(set_bits(0b1011, 1), 0b1011);
}
