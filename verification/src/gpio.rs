//! GPIO pin function and pull-resistor configuration: which register holds a
//! pin's field, and the register word after the field is changed.  The caller
//! reads the register, places the barriers and writes the new word back.
use vstd::prelude::*;

pub mod reg;

verus! {

/// Function of a GPIO pin.
#[derive(Clone, Copy, Debug, PartialEq, Eq, Structural)]
pub enum PinMode {
    Input,
    Output,
    Alt0,
    Alt1,
    Alt2,
    Alt3,
    Alt4,
    Alt5,
}

/// The three-bit function-select code of a pin mode.
pub open spec fn pin_mode_code(mode: PinMode) -> u32 {
    match mode {
        PinMode::Input => 0b000,
        PinMode::Output => 0b001,
        PinMode::Alt0 => 0b100,
        PinMode::Alt1 => 0b101,
        PinMode::Alt2 => 0b110,
        PinMode::Alt3 => 0b111,
        PinMode::Alt4 => 0b011,
        PinMode::Alt5 => 0b010,
    }
}

impl PinMode {
    /// The function-select code of this mode, as written to GPFSELn.
    pub fn bit_pattern(&self) -> (r: u8)
        ensures
            r as u32 == pin_mode_code(*self),
    {
        match self {
            PinMode::Input => 0b000,
            PinMode::Output => 0b001,
            PinMode::Alt0 => 0b100,
            PinMode::Alt1 => 0b101,
            PinMode::Alt2 => 0b110,
            PinMode::Alt3 => 0b111,
            PinMode::Alt4 => 0b011,
            PinMode::Alt5 => 0b010,
        }
    }
}

/// Internal pull resistor setting of a GPIO pin.
#[derive(Clone, Copy, Debug, PartialEq, Eq, Structural)]
pub enum PullMode {
    NoPull,
    PullUp,
    PullDown,
}

/// The two-bit code of a pull setting.
pub open spec fn pull_mode_code(mode: PullMode) -> u32 {
    match mode {
        PullMode::NoPull => 0b00,
        PullMode::PullUp => 0b01,
        PullMode::PullDown => 0b10,
    }
}

impl PullMode {
    /// The code of this setting, as written to GPIO_PUP_PDN_CNTRL_REGn.
    pub fn bit_pattern(&self) -> (r: u8)
        ensures
            r as u32 == pull_mode_code(*self),
    {
        match self {
            PullMode::NoPull => 0b00,
            PullMode::PullUp => 0b01,
            PullMode::PullDown => 0b10,
        }
    }
}

/// Distinct modes have distinct codes, and every code fits in three bits.
pub proof fn lemma_pin_mode_codes(a: PinMode, b: PinMode)
    ensures
        pin_mode_code(a) < 8,
        a != b ==> pin_mode_code(a) != pin_mode_code(b),
{
}

/// Distinct pull settings have distinct codes, and every code fits in two bits.
pub proof fn lemma_pull_mode_codes(a: PullMode, b: PullMode)
    ensures
        pull_mode_code(a) < 4,
        a != b ==> pull_mode_code(a) != pull_mode_code(b),
{
}

/// Highest GPIO pin number.
pub const MAX_PIN: usize = 57;

/// `word` with the field of `mask` bits at `offset` replaced by `code`.
pub open spec fn replace_field(word: u32, offset: u32, mask: u32, code: u32) -> u32 {
    (word & !(mask << offset)) | (code << offset)
}

/// The field of `mask` bits at `offset` of `word`.
pub open spec fn field(word: u32, offset: u32, mask: u32) -> u32 {
    (word >> offset) & mask
}

/// Bit offset of a pin's function-select field in its GPFSEL register.
pub open spec fn fsel_offset(pin: nat) -> u32 {
    ((pin % 10) * 3) as u32
}

/// Bit offset of a pin's pull field in its pull-control register.
pub open spec fn pull_offset(pin: nat) -> u32 {
    ((pin % 16) * 2) as u32
}

/// The GPFSEL register that holds the function of pin `pin_idx`: ten pins per
/// register.  The pin must be at most 57.
pub fn pin_mode_register(pin_idx: usize) -> (r: u64)
    requires
        pin_idx <= MAX_PIN,
    ensures
        r == reg::GPFSEL0 + 4 * (pin_idx / 10),
{
    if pin_idx <= 9 {
        reg::GPFSEL0
    } else if pin_idx <= 19 {
        reg::GPFSEL1
    } else if pin_idx <= 29 {
        reg::GPFSEL2
    } else if pin_idx <= 39 {
        reg::GPFSEL3
    } else if pin_idx <= 49 {
        reg::GPFSEL4
    } else {
        reg::GPFSEL5
    }
}

/// The GPFSEL register word after pin `pin_idx` is set to `mode`, given the
/// word `reg_state` that was read from it.
pub fn pin_mode_value(reg_state: u32, pin_idx: usize, mode: PinMode) -> (r: u32)
    ensures
        r == replace_field(reg_state, fsel_offset(pin_idx as nat), 7, pin_mode_code(mode)),
{
    let bit_offset = (pin_idx % 10) * 3;
    let zeroing_mask: u32 = !(0b111u32 << bit_offset);
    let reg_state = reg_state & zeroing_mask;
    let bits_to_set = (mode.bit_pattern() as u32) << bit_offset;
    reg_state | bits_to_set
}

/// The pull-control register that holds the pull setting of pin `pin_idx`:
/// sixteen pins per register.  The pin must be at most 57.
pub fn pull_mode_register(pin_idx: usize) -> (r: u64)
    requires
        pin_idx <= MAX_PIN,
    ensures
        r == reg::GPIO_PUP_PDN_CNTRL_REG0 + 4 * (pin_idx / 16),
{
    if pin_idx <= 15 {
        reg::GPIO_PUP_PDN_CNTRL_REG0
    } else if pin_idx <= 31 {
        reg::GPIO_PUP_PDN_CNTRL_REG1
    } else if pin_idx <= 47 {
        reg::GPIO_PUP_PDN_CNTRL_REG2
    } else {
        reg::GPIO_PUP_PDN_CNTRL_REG3
    }
}

/// The pull-control register word after pin `pin_idx` is set to `mode`, given
/// the word `reg_state` that was read from it.
pub fn pull_mode_value(reg_state: u32, pin_idx: usize, mode: PullMode) -> (r: u32)
    ensures
        r == replace_field(reg_state, pull_offset(pin_idx as nat), 3, pull_mode_code(mode)),
{
    let bit_offset = (pin_idx % 16) * 2;
    let zeroing_mask: u32 = !(0b11u32 << bit_offset);
    let reg_state = reg_state & zeroing_mask;
    let bits_to_set = (mode.bit_pattern() as u32) << bit_offset;
    reg_state | bits_to_set
}

/// Facts on replacing a field of two or three bits in a 32-bit register word:
/// the field reads back the new code, every field that does not overlap it
/// keeps its value, a second replacement of the same field overrides the
/// first, and replacements of disjoint fields commute.
proof fn lemma_replace_field(word: u32, o1: u32, o2: u32, mask: u32, width: u32, c1: u32, c2: u32)
    requires
        (mask == 3 && width == 2) || (mask == 7 && width == 3),
        o1 + width <= 32,
        o2 + width <= 32,
        c1 <= mask,
        c2 <= mask,
    ensures
        field(replace_field(word, o1, mask, c1), o1, mask) == c1,
        replace_field(replace_field(word, o1, mask, c1), o1, mask, c2) == replace_field(word, o1, mask, c2),
        (o1 + width <= o2 || o2 + width <= o1) ==> field(replace_field(word, o1, mask, c1), o2, mask)
            == field(word, o2, mask),
        (o1 + width <= o2 || o2 + width <= o1) ==> replace_field(replace_field(word, o1, mask, c1), o2, mask, c2)
            == replace_field(replace_field(word, o2, mask, c2), o1, mask, c1),
{
    assert(((((word & !(mask << o1)) | (c1 << o1)) >> o1) & mask) == c1) by (bit_vector)
        requires
            (mask == 3 && width == 2) || (mask == 7 && width == 3),
            o1 + width <= 32,
            c1 <= mask;
    assert(((((word & !(mask << o1)) | (c1 << o1)) & !(mask << o1)) | (c2 << o1))
        == ((word & !(mask << o1)) | (c2 << o1))) by (bit_vector)
        requires
            (mask == 3 && width == 2) || (mask == 7 && width == 3),
            o1 + width <= 32,
            c1 <= mask,
            c2 <= mask;
    if o1 + width <= o2 || o2 + width <= o1 {
        assert(((((word & !(mask << o1)) | (c1 << o1)) >> o2) & mask) == ((word >> o2) & mask))
            by (bit_vector)
            requires
                (mask == 3 && width == 2) || (mask == 7 && width == 3),
                o1 + width <= 32,
                o2 + width <= 32,
                o1 + width <= o2 || o2 + width <= o1,
                c1 <= mask;
        assert(((((word & !(mask << o1)) | (c1 << o1)) & !(mask << o2)) | (c2 << o2))
            == ((((word & !(mask << o2)) | (c2 << o2)) & !(mask << o1)) | (c1 << o1))) by (bit_vector)
            requires
                (mask == 3 && width == 2) || (mask == 7 && width == 3),
                o1 + width <= 32,
                o2 + width <= 32,
                o1 + width <= o2 || o2 + width <= o1,
                c1 <= mask,
                c2 <= mask;
    }
}

/// Setting a pin's function: afterwards the pin's field holds the mode's code;
/// the fields of the other nine pins of the register keep their values; setting
/// the same pin again leaves only the last mode; and setting two different pins
/// of one register gives the same word in either order.
pub proof fn lemma_pin_mode_value(reg_state: u32, p: nat, q: nat, m1: PinMode, m2: PinMode)
    requires
        p <= MAX_PIN,
        q <= MAX_PIN,
        p / 10 == q / 10,
    ensures
        field(replace_field(reg_state, fsel_offset(p), 7, pin_mode_code(m1)), fsel_offset(p), 7)
            == pin_mode_code(m1),
        replace_field(replace_field(reg_state, fsel_offset(p), 7, pin_mode_code(m1)), fsel_offset(p), 7, pin_mode_code(m2))
            == replace_field(reg_state, fsel_offset(p), 7, pin_mode_code(m2)),
        p != q ==> field(replace_field(reg_state, fsel_offset(p), 7, pin_mode_code(m1)), fsel_offset(q), 7)
            == field(reg_state, fsel_offset(q), 7),
        p != q ==> replace_field(replace_field(reg_state, fsel_offset(p), 7, pin_mode_code(m1)), fsel_offset(q), 7, pin_mode_code(m2))
            == replace_field(replace_field(reg_state, fsel_offset(q), 7, pin_mode_code(m2)), fsel_offset(p), 7, pin_mode_code(m1)),
{
    lemma_pin_mode_codes(m1, m2);
    lemma_pin_mode_codes(m2, m1);
    lemma_replace_field(reg_state, fsel_offset(p), fsel_offset(q), 7, 3, pin_mode_code(m1), pin_mode_code(m2));
}

/// Setting a pin's pull resistor: afterwards the pin's field holds the
/// setting's code; the fields of the other fifteen pins of the register keep
/// their values; setting the same pin again leaves only the last setting; and
/// setting two different pins of one register gives the same word in either
/// order.
pub proof fn lemma_pull_mode_value(reg_state: u32, p: nat, q: nat, m1: PullMode, m2: PullMode)
    requires
        p <= MAX_PIN,
        q <= MAX_PIN,
        p / 16 == q / 16,
    ensures
        field(replace_field(reg_state, pull_offset(p), 3, pull_mode_code(m1)), pull_offset(p), 3)
            == pull_mode_code(m1),
        replace_field(replace_field(reg_state, pull_offset(p), 3, pull_mode_code(m1)), pull_offset(p), 3, pull_mode_code(m2))
            == replace_field(reg_state, pull_offset(p), 3, pull_mode_code(m2)),
        p != q ==> field(replace_field(reg_state, pull_offset(p), 3, pull_mode_code(m1)), pull_offset(q), 3)
            == field(reg_state, pull_offset(q), 3),
        p != q ==> replace_field(replace_field(reg_state, pull_offset(p), 3, pull_mode_code(m1)), pull_offset(q), 3, pull_mode_code(m2))
            == replace_field(replace_field(reg_state, pull_offset(q), 3, pull_mode_code(m2)), pull_offset(p), 3, pull_mode_code(m1)),
{
    lemma_pull_mode_codes(m1, m2);
    lemma_pull_mode_codes(m2, m1);
    lemma_replace_field(reg_state, pull_offset(p), pull_offset(q), 3, 2, pull_mode_code(m1), pull_mode_code(m2));
}

} // verus!
