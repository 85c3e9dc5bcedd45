use rpi4_kernel::gpio_input::{pin_command, sync_pin};

#[test]
fn pin_commands() {
    assert_eq!(pin_command(3, true), (0xfe20_001c, 8));
    assert_eq!(pin_command(25, false), (0xfe20_0028, 1 << 25));
    assert_eq!(pin_command(0, true), (0xfe20_001c, 1));
    assert_eq!(pin_command(31, false), (0xfe20_0028, 0x8000_0000));
}

#[test]
fn pin_state_follows_key() {
    let mut state = false;
    assert_eq!(sync_pin(&mut state, 2, false), None);
    assert_eq!(sync_pin(&mut state, 2, true), Some((0xfe20_001c, 4)));
    assert!(state);
    assert_eq!(sync_pin(&mut state, 2, true), None);
    assert_eq!(sync_pin(&mut state, 2, false), Some((0xfe20_0028, 4)));
    assert!(!state);
}
