//! The VideoCore mailbox: encoding of mailbox words and of property messages.
//! The caller polls the status register and moves the words.
use vstd::prelude::*;
use vstd::layout::{align_of, size_of};
use vstd::arithmetic::power2::is_pow2;
use crate::peripherals::PERIPHERAL_BASE;

pub mod property;

verus! {

pub const MAILBOX_BASE: u64 = PERIPHERAL_BASE + 0xb880;
pub const MAILBOX_READ: u64 = MAILBOX_BASE + 0x00;
pub const MAILBOX_PEEK: u64 = MAILBOX_BASE + 0x10;
pub const MAILBOX_SENDER: u64 = MAILBOX_BASE + 0x14;
pub const MAILBOX_STATUS: u64 = MAILBOX_BASE + 0x18;
pub const MAILBOX_CONFIG: u64 = MAILBOX_BASE + 0x1c;
pub const MAILBOX_WRITE: u64 = MAILBOX_BASE + 0x20;

/// Status bit: the mailbox cannot take another word.
pub const MAILBOX_FULL: u32 = 0x8000_0000;
/// Status bit: the mailbox holds no word to read.
pub const MAILBOX_EMPTY: u32 = 0x4000_0000;
/// Response code of a property message that the firmware handled.
pub const REQUEST_SUCCESSFUL: u32 = 0x8000_0000;

/// Channel of a mailbox word.  The `Framebuffer` channel is deprecated by the
/// firmware in favour of the property channels.
#[derive(Debug, Clone, Copy, PartialEq, Eq, Structural)]
pub enum MailboxChannel {
    PowerManagement,
    Framebuffer,
    VirtualUART,
    VCHIQ,
    LED,
    Button,
    TouchScreen,
    PropertyFromArm,
    PropertyFromVC,
}

/// Number of a mailbox channel.
pub open spec fn channel_number(channel: MailboxChannel) -> nat {
    match channel {
        MailboxChannel::PowerManagement => 0,
        MailboxChannel::Framebuffer => 1,
        MailboxChannel::VirtualUART => 2,
        MailboxChannel::VCHIQ => 3,
        MailboxChannel::LED => 4,
        MailboxChannel::Button => 5,
        MailboxChannel::TouchScreen => 6,
        MailboxChannel::PropertyFromArm => 8,
        MailboxChannel::PropertyFromVC => 9,
    }
}

impl MailboxChannel {
    /// The channel number, carried in the low four bits of a mailbox word.
    pub fn bits(&self) -> (r: u8)
        ensures
            r as nat == channel_number(*self),
    {
        match self {
            MailboxChannel::PowerManagement => 0,
            MailboxChannel::Framebuffer => 1,
            MailboxChannel::VirtualUART => 2,
            MailboxChannel::VCHIQ => 3,
            MailboxChannel::LED => 4,
            MailboxChannel::Button => 5,
            MailboxChannel::TouchScreen => 6,
            MailboxChannel::PropertyFromArm => 8,
            MailboxChannel::PropertyFromVC => 9,
        }
    }
}

/// Channel numbers are distinct and fit in four bits.
pub proof fn lemma_channel_numbers(a: MailboxChannel, b: MailboxChannel)
    ensures
        channel_number(a) < 16,
        a != b ==> channel_number(a) != channel_number(b),
{
}

/// Whether the status word says that the mailbox is full (bit 31).
pub fn mailbox_full(status: u32) -> (r: bool)
    ensures
        r == (status >= 0x8000_0000),
{
    let r = status & MAILBOX_FULL != 0;
    assert(r == (status >= 0x8000_0000)) by (bit_vector)
        requires r == (status & 0x8000_0000u32 != 0);
    r
}

/// Whether the status word says that the mailbox is empty (bit 30).
pub fn mailbox_empty(status: u32) -> (r: bool)
    ensures
        r == ((status / 0x4000_0000) % 2 == 1),
{
    let r = status & MAILBOX_EMPTY != 0;
    assert(r == ((status / 0x4000_0000) % 2 == 1)) by (bit_vector)
        requires r == (status & 0x4000_0000u32 != 0);
    r
}

/// The word written to the mailbox to send `data` on `channel`: the data in
/// the upper 28 bits, the channel in the lower 4.
pub fn mailbox_message(channel: MailboxChannel, data: u32) -> (r: u32)
    ensures
        r as nat == (data as nat % 0x1000_0000) * 16 + channel_number(channel),
{
    let c = channel.bits() as u32;
    let r = (data << 4) | c;
    assert(r == (data % 0x1000_0000) * 16 + c) by (bit_vector)
        requires c < 16, r == (data << 4) | c;
    r
}

/// The data of a word read from the mailbox, if it came on `channel`.
pub fn mailbox_reply(channel: MailboxChannel, word: u32) -> (r: Option<u32>)
    ensures
        r == (if word as nat % 16 == channel_number(channel) { Some(word / 16) } else { None::<u32> }),
{
    let low = (word & 0xf) as u8;
    assert(low == word % 16 && (word >> 4) == word / 16) by (bit_vector)
        requires low == (word & 0xf) as u8;
    if low == channel.bits() {
        Some(word >> 4)
    } else {
        None
    }
}

/// A word sent on a channel is read back as the data, less its upper four
/// bits, on that channel, and is not taken as a reply on any other channel.
pub proof fn lemma_mailbox_round_trip(sent_on: MailboxChannel, read_on: MailboxChannel, data: u32)
    ensures
        ({
            let word = ((data as nat % 0x1000_0000) * 16 + channel_number(sent_on)) as u32;
            &&& sent_on == read_on ==> (word as nat % 16 == channel_number(read_on) && word / 16 == data % 0x1000_0000)
            &&& sent_on != read_on ==> word as nat % 16 != channel_number(read_on)
        }),
{
    lemma_channel_numbers(sent_on, read_on);
}

/// `x` rounded up to a multiple of `m`.
pub open spec fn round_up(x: int, m: int) -> int {
    (x + m - 1) / m * m
}

/// The size that the firmware expects of a message whose tags have size `s`
/// and alignment `a`: the message is laid out as a C struct of the size word,
/// the code word, the tags and the end word, aligned to at least 16 bytes.
pub open spec fn property_message_size(s: nat, a: nat) -> int {
    let end_offset = round_up(round_up(8, a as int) + s, 4);
    let align = if a > 16 { a as int } else { 16 };
    round_up(end_offset + 4, align)
}

/// `round_up(x, m)` is a multiple of `m`, at least `x`, and less than `x + m`.
proof fn lemma_round_up(x: int, m: int)
    requires
        x >= 0,
        m > 0,
    ensures
        round_up(x, m) % m == 0,
        x <= round_up(x, m) < x + m,
{
    let q = (x + m - 1) / m;
    let r = (x + m - 1) % m;
    vstd::arithmetic::div_mod::lemma_fundamental_div_mod(x + m - 1, m);
    vstd::arithmetic::div_mod::lemma_mod_bound(x + m - 1, m);
    vstd::arithmetic::div_mod::lemma_mod_multiples_basic(q, m);
    assert(q * m == m * q) by (nonlinear_arith);
}

/// A message is a whole number of 16-byte blocks, long enough for its header,
/// tags and end word; with one 32-bit value it takes 16 bytes, and with one
/// tag of a 32-bit value (16 bytes, 4-aligned) it takes 32.
pub proof fn lemma_property_message_size(s: nat, a: nat)
    requires
        is_pow2(a as int),
    ensures
        property_message_size(s, a) % 16 == 0,
        property_message_size(s, a) >= 8 + s + 4,
        property_message_size(4, 4) == 16,
        property_message_size(16, 4) == 32,
{
    let ai = a as int;
    assert(ai > 0) by {
        reveal_with_fuel(is_pow2, 1);
    }
    lemma_round_up(8, ai);
    let t = round_up(8, ai);
    lemma_round_up(t + s, 4);
    let e = round_up(t + s, 4);
    let m = if a > 16 { ai } else { 16 };
    lemma_round_up(e + 4, m);
    if a > 16 {
        reveal_with_fuel(is_pow2, 5);
        assert(ai % 16 == 0);
        let k = round_up(e + 4, m);
        let q = k / ai;
        let p = ai / 16;
        vstd::arithmetic::div_mod::lemma_fundamental_div_mod(k, ai);
        vstd::arithmetic::div_mod::lemma_fundamental_div_mod(ai, 16);
        assert(k == 16 * (p * q)) by (nonlinear_arith)
            requires k == ai * q, ai == 16 * p;
        vstd::arithmetic::div_mod::lemma_mod_multiples_basic(p * q, 16);
        assert((p * q) * 16 == 16 * (p * q)) by (nonlinear_arith);
    }
    assert(round_up(8, 4) == 8);
    assert(round_up(12, 4) == 12);
    assert(round_up(16, 16) == 16);
    assert(round_up(24, 4) == 24);
    assert(round_up(28, 16) == 32);
}

/// A property-interface message: a header, the concatenated tags and the end
/// tag.  The firmware reads it in C layout, 16-byte aligned; `size` holds the
/// size of that layout.
#[derive(Debug, Clone)]
pub struct PropertyMessage<T> {
    /// Message size
    pub size: u32,
    /// Request/Response code
    pub code: u32,
    /// Concatenated list of tags
    pub tags: T,
    /// End tag (must be 0)
    pub end: u32,
}

impl<T> PropertyMessage<T> {
    /// A request message carrying `tags`, with the size that the firmware
    /// expects of it (see [`property_message_size`]).
    pub fn new(tags: T) -> (r: Self)
        ensures
            r.size == property_message_size(size_of::<T>(), align_of::<T>()) as u32,
            r.code == 0,
            r.tags == tags,
            r.end == 0,
    {
        vstd::layout::layout_for_type_is_valid::<T>();
        let s = core::mem::size_of::<T>() as u128;
        let a = core::mem::align_of::<T>() as u128;
        proof {
            lemma_round_up(8, a as int);
        }
        let tags_offset = (8 + a - 1) / a * a;
        proof {
            lemma_round_up((tags_offset + s) as int, 4);
        }
        let end_offset = (tags_offset + s + 4 - 1) / 4 * 4;
        let align: u128 = if a > 16 { a } else { 16 };
        proof {
            lemma_round_up((end_offset + 4) as int, align as int);
        }
        let total = (end_offset + 4 + align - 1) / align * align;
        Self { size: total as u32, code: 0, tags, end: 0 }
    }
}

/// One tag of a property message.  The firmware reads tags in C layout
/// (the three header words, then the value buffer); the caller that hands a
/// message to the firmware must store the tags in that layout.
#[derive(Debug, Clone)]
pub struct PropertyTag<T> {
    /// Tag identity
    pub id: u32,
    /// Value buffer size
    pub size: u32,
    /// Request/Response code
    pub code: u32,
    /// Value buffer
    pub value: T,
}

/// The request tag with identity `id` and value buffer `value`.
pub open spec fn request_tag<T>(id: u32, value: T) -> PropertyTag<T> {
    PropertyTag { id, size: size_of::<T>() as u32, code: 0, value }
}

impl<T> PropertyTag<T> {
    /// A request tag with identity `id` whose value buffer is `value`.
    pub fn new(id: u32, value: T) -> (r: Self)
        ensures
            r == request_tag(id, value),
    {
        Self { id, size: core::mem::size_of::<T>() as u32, code: 0, value }
    }
}

/// The mailbox data that announces a message at `address`: the address with
/// its four low bits dropped (messages are 16-byte aligned).
pub fn property_message_data(address: u32) -> (r: u32)
    ensures
        r == address / 16,
{
    let r = address >> 4;
    assert(r == address / 16) by (bit_vector)
        requires r == address >> 4;
    r
}

/// The tags of an answered property message: present only when the reply word
/// matches the data that was sent and the firmware marked the request
/// successful.
pub fn property_reply<T>(sent: u32, received: u32, msg: PropertyMessage<T>) -> (r: Option<T>)
    ensures
        r == (if received != sent || msg.code != REQUEST_SUCCESSFUL { None } else { Some(msg.tags) }),
{
    if received != sent {
        return None;
    }
    if msg.code != REQUEST_SUCCESSFUL {
        return None;
    }
    Some(msg.tags)
}

} // verus!
