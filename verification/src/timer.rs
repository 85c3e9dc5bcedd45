//! The BCM2711 system timer: a free-running 64-bit microsecond counter read as
//! two 32-bit halves.
use vstd::prelude::*;
use crate::peripherals::PERIPHERAL_BASE;

verus! {

pub const TIMER_BASE: u64 = PERIPHERAL_BASE + 0x3000;
pub const CS: u64 = TIMER_BASE + 0x00;
pub const CLO: u64 = TIMER_BASE + 0x04;
pub const CHI: u64 = TIMER_BASE + 0x08;
pub const C0: u64 = TIMER_BASE + 0x0c;
pub const C1: u64 = TIMER_BASE + 0x10;
pub const C2: u64 = TIMER_BASE + 0x14;
pub const C3: u64 = TIMER_BASE + 0x18;

/// The counter value made of its two halves.
pub open spec fn counter_value(high: u32, low: u32) -> nat {
    high as nat * 0x1_0000_0000 + low as nat
}

/// Joins the two halves of the counter.
pub fn system_time(high: u32, low: u32) -> (r: u64)
    ensures
        r as nat == counter_value(high, low),
{
    let r = ((high as u64) << 32) | low as u64;
    assert(r == high as u64 * 0x1_0000_0000 + low as u64) by (bit_vector)
        requires r == ((high as u64) << 32) | low as u64;
    r
}

/// The time given by the reads of one counter read: the high half `h1`, the
/// low half `l1`, the high half again `h2` and, only when it changed, both
/// halves again (`h3`, then `l3`).  When the high half did not change, the
/// first pair is consistent; otherwise the low half wrapped between the reads
/// and the second pair is taken.
pub open spec fn settled_time(h1: u32, l1: u32, h2: u32, h3: u32, l3: u32) -> nat {
    if h1 == h2 { counter_value(h1, l1) } else { counter_value(h3, l3) }
}

/// Decides the time from the reads of one counter read (see [`settled_time`]).
pub fn settle_time(h1: u32, l1: u32, h2: u32, h3: u32, l3: u32) -> (r: u64)
    ensures
        r as nat == settled_time(h1, l1, h2, h3, l3),
{
    if h1 != h2 {
        system_time(h3, l3)
    } else {
        system_time(h1, l1)
    }
}

/// A read is never torn: if the reads are taken at increasing instants from a
/// non-decreasing counter (values `c1` to `c5`, read as high, low, high, high,
/// low) and the high half changes at most once during the read, the time
/// decided is the counter's value at the second read or at the last one.
pub proof fn lemma_time_read_not_torn(c1: u64, c2: u64, c3: u64, c4: u64, c5: u64)
    requires
        c1 <= c2 <= c3 <= c4 <= c5,
        c1 / 0x1_0000_0000 != c3 / 0x1_0000_0000 ==> c3 / 0x1_0000_0000 == c5 / 0x1_0000_0000,
    ensures
        ({
            let t = settled_time(
                (c1 / 0x1_0000_0000) as u32,
                (c2 % 0x1_0000_0000) as u32,
                (c3 / 0x1_0000_0000) as u32,
                (c4 / 0x1_0000_0000) as u32,
                (c5 % 0x1_0000_0000) as u32,
            );
            t == (if c1 / 0x1_0000_0000 == c3 / 0x1_0000_0000 { c2 as nat } else { c5 as nat })
        }),
{
    assert(c1 / 0x1_0000_0000 <= c2 / 0x1_0000_0000 <= c3 / 0x1_0000_0000) by (bit_vector)
        requires c1 <= c2 <= c3;
    assert(c3 / 0x1_0000_0000 <= c4 / 0x1_0000_0000 <= c5 / 0x1_0000_0000) by (bit_vector)
        requires c3 <= c4 <= c5;
    assert(c2 == (c2 / 0x1_0000_0000) * 0x1_0000_0000 + c2 % 0x1_0000_0000
        && c5 == (c5 / 0x1_0000_0000) * 0x1_0000_0000 + c5 % 0x1_0000_0000) by (bit_vector);
}

/// The half of the counter that a read takes.
#[derive(Clone, Copy, Debug, PartialEq, Eq, Structural)]
pub enum TimeRegister {
    High,
    Low,
}

impl TimeRegister {
    /// The address of the register that holds this half.
    pub fn address(self) -> (r: u64)
        ensures
            r == (match self {
                TimeRegister::High => CHI,
                TimeRegister::Low => CLO,
            }),
    {
        match self {
            TimeRegister::High => CHI,
            TimeRegister::Low => CLO,
        }
    }
}

/// A read of the counter in progress, named by the reads taken so far: the
/// high half, the low half, the high half again and, only when it changed,
/// the high and the low half once more.
#[derive(Clone, Copy, Debug, PartialEq, Eq, Structural)]
pub enum SystemTimeRead {
    /// Nothing read yet.
    Start,
    /// The high half was read.
    HaveHigh { high: u32 },
    /// The high half, then the low half were read.
    HavePair { high: u32, low: u32 },
    /// The high half changed while the pair was read: it is read again.
    Rereading,
    /// The high half was read again.
    RereadHigh { high: u32 },
    /// The read is over and gave `time`.
    Done { time: u64 },
}

impl SystemTimeRead {
    /// The register that the read takes next, or `None` once it is over.
    pub open spec fn next_register(self) -> Option<TimeRegister> {
        match self {
            SystemTimeRead::Start => Some(TimeRegister::High),
            SystemTimeRead::HaveHigh { .. } => Some(TimeRegister::Low),
            SystemTimeRead::HavePair { .. } => Some(TimeRegister::High),
            SystemTimeRead::Rereading => Some(TimeRegister::High),
            SystemTimeRead::RereadHigh { .. } => Some(TimeRegister::Low),
            SystemTimeRead::Done { .. } => None,
        }
    }

    /// The read after the register that it asked for gave `value`; a read
    /// that is over stays as it is.
    pub open spec fn after(self, value: u32) -> SystemTimeRead {
        match self {
            SystemTimeRead::Start => SystemTimeRead::HaveHigh { high: value },
            SystemTimeRead::HaveHigh { high } => SystemTimeRead::HavePair { high, low: value },
            SystemTimeRead::HavePair { high, low } => if value == high {
                SystemTimeRead::Done { time: counter_value(high, low) as u64 }
            } else {
                SystemTimeRead::Rereading
            },
            SystemTimeRead::Rereading => SystemTimeRead::RereadHigh { high: value },
            SystemTimeRead::RereadHigh { high } => SystemTimeRead::Done {
                time: counter_value(high, value) as u64,
            },
            SystemTimeRead::Done { time } => SystemTimeRead::Done { time },
        }
    }

    /// The time that the read gave, once it is over.
    pub open spec fn time_read(self) -> Option<u64> {
        match self {
            SystemTimeRead::Done { time } => Some(time),
            _ => None,
        }
    }

    /// A read that has taken nothing yet.
    pub fn new() -> (r: SystemTimeRead)
        ensures
            r == SystemTimeRead::Start,
    {
        SystemTimeRead::Start
    }

    /// The register to read next, or `None` once the read is over.
    pub fn register(&self) -> (r: Option<TimeRegister>)
        ensures
            r == self.next_register(),
    {
        match self {
            SystemTimeRead::Start => Some(TimeRegister::High),
            SystemTimeRead::HaveHigh { .. } => Some(TimeRegister::Low),
            SystemTimeRead::HavePair { .. } => Some(TimeRegister::High),
            SystemTimeRead::Rereading => Some(TimeRegister::High),
            SystemTimeRead::RereadHigh { .. } => Some(TimeRegister::Low),
            SystemTimeRead::Done { .. } => None,
        }
    }

    /// Takes the value that the register asked for gave.
    pub fn step(self, value: u32) -> (r: SystemTimeRead)
        ensures
            r == self.after(value),
    {
        match self {
            SystemTimeRead::Start => SystemTimeRead::HaveHigh { high: value },
            SystemTimeRead::HaveHigh { high } => SystemTimeRead::HavePair { high, low: value },
            SystemTimeRead::HavePair { high, low } => if value == high {
                SystemTimeRead::Done { time: system_time(high, low) }
            } else {
                SystemTimeRead::Rereading
            },
            SystemTimeRead::Rereading => SystemTimeRead::RereadHigh { high: value },
            SystemTimeRead::RereadHigh { high } => SystemTimeRead::Done {
                time: system_time(high, value),
            },
            SystemTimeRead::Done { time } => SystemTimeRead::Done { time },
        }
    }

    /// The time that the read gave, once it is over.
    pub fn time(&self) -> (r: Option<u64>)
        ensures
            r == self.time_read(),
            r is Some <==> self.next_register() is None,
    {
        match self {
            SystemTimeRead::Done { time } => Some(*time),
            _ => None,
        }
    }
}

/// The order of the reads and what they give: high, low, high and, only when
/// the high half changed, high and low once more; the read is then over and
/// gives [`settled_time`] of the values read.
pub proof fn lemma_read_protocol(h1: u32, l1: u32, h2: u32, h3: u32, l3: u32)
    ensures
        ({
            let s0 = SystemTimeRead::Start;
            let s1 = s0.after(h1);
            let s2 = s1.after(l1);
            let s3 = s2.after(h2);
            let s4 = s3.after(h3);
            let s5 = s4.after(l3);
            &&& s0.next_register() == Some(TimeRegister::High)
            &&& s1.next_register() == Some(TimeRegister::Low)
            &&& s2.next_register() == Some(TimeRegister::High)
            &&& h1 == h2 ==> s3.next_register() is None
                && s3.time_read() == Some(settled_time(h1, l1, h2, h3, l3) as u64)
            &&& h1 != h2 ==> s3.next_register() == Some(TimeRegister::High)
                && s4.next_register() == Some(TimeRegister::Low)
                && s5.next_register() is None
                && s5.time_read() == Some(settled_time(h1, l1, h2, h3, l3) as u64)
        }),
{
}

/// Whether a delay of `us` microseconds that started at counter value `start`
/// is over at counter value `now`.
pub fn delay_elapsed(start: u64, us: u64, now: u64) -> (r: bool)
    requires
        start + us <= u64::MAX,
    ensures
        r == (now >= start + us),
{
    !(now < start + us)
}

/// How many readings of the counter the wait of a delay of `us` microseconds
/// that started at `start` takes, when the counter reads `readings` in turn:
/// it takes one after the other until one has [`delay_elapsed`].
pub open spec fn polls_until_elapsed(start: u64, us: u64, readings: Seq<u64>) -> nat
    decreases readings.len(),
{
    if readings.len() == 0 {
        0
    } else if readings[0] >= start + us {
        1
    } else {
        1 + polls_until_elapsed(start, us, readings.drop_first())
    }
}

/// The wait ends: when the counter's readings reach `start + us`, it stops at
/// the first one that does, after every earlier one had not. A delay of zero
/// from a counter that does not go back stops at its first reading, so that
/// it reads the counter twice in all, once for the start.
pub proof fn lemma_delay_ends(start: u64, us: u64, readings: Seq<u64>)
    requires
        start + us <= u64::MAX,
        exists|k: int| 0 <= k < readings.len() && readings[k] >= start + us,
    ensures
        ({
            let n = polls_until_elapsed(start, us, readings);
            &&& 1 <= n <= readings.len()
            &&& readings[n - 1] >= start + us
            &&& forall|i: int| 0 <= i < n - 1 ==> readings[i] < start + us
        }),
        us == 0 && readings[0] >= start ==> polls_until_elapsed(start, us, readings) == 1,
    decreases readings.len(),
{
    if readings[0] < start + us {
        let k = choose|k: int| 0 <= k < readings.len() && readings[k] >= start + us;
        let rest = readings.drop_first();
        assert(rest[k - 1] == readings[k]);
        lemma_delay_ends(start, us, rest);
        let n = polls_until_elapsed(start, us, rest);
        assert forall|i: int| 0 <= i < n implies readings[i] < start + us by {
            if i > 0 {
                assert(readings[i] == rest[i - 1]);
            }
        }
    }
}

/// Microseconds in `ms` milliseconds.
pub fn ms_to_us(ms: u32) -> (r: u64)
    ensures
        r == ms * 1000,
{
    ms as u64 * 1000
}

} // verus!
