use rpi4_kernel::timer::{
    delay_elapsed, ms_to_us, settle_time, system_time, SystemTimeRead, TimeRegister, CHI, CLO,
};

/// Drives a read of the counter, answering the high-half reads from `highs`
/// and the low-half reads from `lows` in turn; gives the time and the
/// registers read, in order.
fn read_counter(highs: &[u32], lows: &[u32]) -> (u64, Vec<TimeRegister>) {
    let mut read = SystemTimeRead::new();
    let mut asked = Vec::new();
    let (mut h, mut l) = (0, 0);
    while let Some(register) = read.register() {
        asked.push(register);
        let value = match register {
            TimeRegister::High => {
                h += 1;
                highs[h - 1]
            }
            TimeRegister::Low => {
                l += 1;
                lows[l - 1]
            }
        };
        read = read.step(value);
    }
    (read.time().unwrap(), asked)
}

#[test]
fn counter_halves_join() {
    assert_eq!(system_time(1, 2), 0x1_0000_0002);
    assert_eq!(system_time(0, u32::MAX), 0xffff_ffff);
    assert_eq!(system_time(u32::MAX, u32::MAX), u64::MAX);
}

#[test]
fn counter_read_consistently() {
    let (high, low) = (TimeRegister::High, TimeRegister::Low);
    let (t, asked) = read_counter(&[5, 5], &[7]);
    assert_eq!(t, 0x5_0000_0007);
    assert_eq!(asked, vec![high, low, high]);
    // The high half ticks over between the first two reads: both halves are
    // read again.
    let (t, asked) = read_counter(&[3, 4, 4], &[0xffff_ffff, 2]);
    assert_eq!(t, 0x4_0000_0002);
    assert_eq!(asked, vec![high, low, high, high, low]);
}

#[test]
fn counter_read_steps() {
    let read = SystemTimeRead::new();
    assert_eq!(read, SystemTimeRead::Start);
    assert_eq!(read.register(), Some(TimeRegister::High));
    assert_eq!(read.time(), None);
    let read = read.step(9).step(1);
    assert_eq!(read, SystemTimeRead::HavePair { high: 9, low: 1 });
    assert_eq!(read.step(10), SystemTimeRead::Rereading);
    let done = read.step(9);
    assert_eq!(done.time(), Some(0x9_0000_0001));
    assert_eq!(done.register(), None);
    assert_eq!(done.step(3), done);
    assert_eq!(TimeRegister::High.address(), CHI);
    assert_eq!(TimeRegister::Low.address(), CLO);
}

#[test]
fn delays() {
    assert!(!delay_elapsed(100, 50, 149));
    assert!(delay_elapsed(100, 50, 150));
    assert!(delay_elapsed(100, 0, 100));
    assert_eq!(ms_to_us(3), 3000);
    assert_eq!(ms_to_us(u32::MAX), u32::MAX as u64 * 1000);
}

#[test]
fn settled_time_takes_consistent_pair() {
    // High half unchanged: the first pair.
    assert_eq!(settle_time(1, 5, 1, 9, 9), 0x1_0000_0005);
    // High half ticked over between the reads: the re-read pair.
    assert_eq!(settle_time(0, 0xffff_ffff, 1, 1, 2), 0x1_0000_0002);
    // Reads taken from a counter 0x0_ffff_fffe, 0x0_ffff_ffff, 0x1_0000_0000,
    // 0x1_0000_0001, 0x1_0000_0002 give its value at the last read.
    let c = [0x0_ffff_fffeu64, 0x0_ffff_ffff, 0x1_0000_0000, 0x1_0000_0001, 0x1_0000_0002];
    let t = settle_time((c[0] >> 32) as u32, c[1] as u32, (c[2] >> 32) as u32, (c[3] >> 32) as u32, c[4] as u32);
    assert_eq!(t, c[4]);
}

#[test]
fn counter_read_rereads_after_wrap() {
    let (t, asked) = read_counter(&[0, 1, 1], &[0xffff_ffff, 2]);
    assert_eq!(t, 0x1_0000_0002);
    assert_eq!(asked.len(), 5);
}

#[test]
fn wait_stops_at_first_elapsed_reading() {
    // The polls that a delay of 50 us from 100 takes on readings 120, 149,
    // 150, 151: it stops at 150, the third.
    let readings = [120u64, 149, 150, 151];
    let polls = readings.iter().position(|&now| delay_elapsed(100, 50, now)).unwrap() + 1;
    assert_eq!(polls, 3);
    // A delay of zero stops at its first poll.
    assert!(delay_elapsed(100, 0, 100));
}
