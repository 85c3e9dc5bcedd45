//! Translation-table descriptors for a 64 KiB granule.
use vstd::prelude::*;
use vstd::arithmetic::power2::{pow2, lemma_pow2_unfold, lemma2_to64};

verus! {

/// 1 for a set flag, 0 for a clear one.
pub open spec fn flag(b: bool) -> nat {
    if b { 1 } else { 0 }
}

/// The number whose binary digits are `bits`, most significant digit first.
pub open spec fn bits_value(bits: Seq<bool>) -> nat
    decreases bits.len(),
{
    if bits.len() == 0 {
        0
    } else {
        2 * bits_value(bits.drop_last()) + flag(bits.last())
    }
}

/// A digit string of length `n` denotes a number below `2^n`.
pub proof fn lemma_bits_value_bound(bits: Seq<bool>)
    ensures
        bits_value(bits) < pow2(bits.len()),
    decreases bits.len(),
{
    if bits.len() == 0 {
        lemma2_to64();
    } else {
        lemma_bits_value_bound(bits.drop_last());
        lemma_pow2_unfold(bits.len());
    }
}

/// A prefix of a digit string never denotes more than the whole string.
proof fn lemma_bits_value_prefix(bits: Seq<bool>, k: int)
    requires
        0 <= k <= bits.len(),
    ensures
        bits_value(bits.take(k)) <= bits_value(bits),
    decreases bits.len(),
{
    if k < bits.len() {
        lemma_bits_value_prefix(bits.drop_last(), k);
        assert(bits.drop_last().take(k) =~= bits.take(k));
    } else {
        assert(bits.take(k) =~= bits);
    }
}

/// Reads a fixed-size array of bits, most significant first, as a number.
pub fn bits_to_u64<const T: usize>(bits: &[bool; T]) -> (r: u64)
    requires
        bits_value(bits@) <= u64::MAX,
    ensures
        r as nat == bits_value(bits@),
{
    let mut acc: u64 = 0;
    let mut i: usize = 0;
    while i < T
        invariant
            i <= T,
            bits@.len() == T,
            acc as nat == bits_value(bits@.take(i as int)),
            bits_value(bits@) <= u64::MAX,
        decreases T - i,
    {
        proof {
            lemma_bits_value_prefix(bits@, i + 1);
            assert(bits@.take(i + 1).drop_last() =~= bits@.take(i as int));
        }
        let digit: u64 = if bits[i] { 1 } else { 0 };
        acc = acc * 2 + digit;
        i = i + 1;
    }
    proof {
        assert(bits@.take(T as int) =~= bits@);
    }
    acc
}

/// 1 or 0 as a machine word.
fn flag_bit(b: bool) -> (r: u64)
    ensures
        r as nat == flag(b),
{
    if b { 1 } else { 0 }
}

proof fn lemma_short_bits(bits: Seq<bool>)
    requires
        bits.len() <= 4,
    ensures
        bits.len() == 2 ==> bits_value(bits) < 4,
        bits.len() == 3 ==> bits_value(bits) < 8,
        bits.len() == 4 ==> bits_value(bits) < 16,
{
    lemma_bits_value_bound(bits);
    lemma2_to64();
}

/// A string of clear digits denotes zero.
proof fn lemma_bits_value_zero(bits: Seq<bool>)
    requires
        forall|i: int| 0 <= i < bits.len() ==> !bits[i],
    ensures
        bits_value(bits) == 0,
    decreases bits.len(),
{
    if bits.len() > 0 {
        lemma_bits_value_zero(bits.drop_last());
    }
}

/// Table descriptor of the L2 tables (64 KiB granule): it points at an L3 table.
#[derive(Clone, Copy, Debug)]
pub struct TableDescriptor {
    pub ns_table: bool,
    pub ap_table: [bool; 2],
    pub uxn_table: bool,
    pub pxn_table: bool,
    pub address: u32,
    pub upper_address: [bool; 4],
    pub valid: bool,
}

impl TableDescriptor {
    /// The 64-bit word of this descriptor: NSTable at bit 63, APTable at 62..61,
    /// UXNTable at 60, PXNTable at 59, the address at 47..16, the upper address
    /// at 15..12, bit 1 set (table, not block) and the valid bit at 0.
    pub open spec fn encoded(self) -> nat {
        flag(self.ns_table) * 0x8000_0000_0000_0000
            + bits_value(self.ap_table@) * 0x2000_0000_0000_0000
            + flag(self.uxn_table) * 0x1000_0000_0000_0000
            + flag(self.pxn_table) * 0x0800_0000_0000_0000
            + (self.address as nat) * 0x1_0000
            + bits_value(self.upper_address@) * 0x1000
            + 2
            + flag(self.valid)
    }

    /// An all-zero, invalid descriptor.
    pub fn new_zeroed() -> (r: Self)
        ensures
            r.encoded() == 2,
            !r.valid,
    {
        let r = TableDescriptor {
            ns_table: false,
            ap_table: [false, false],
            uxn_table: false,
            pxn_table: false,
            address: 0,
            upper_address: [false, false, false, false],
            valid: false,
        };
        proof {
            lemma_bits_value_zero(r.ap_table@);
            lemma_bits_value_zero(r.upper_address@);
        }
        r
    }

    /// Returns the binary representation of the descriptor, as it is placed in
    /// a translation table.
    pub fn bits(&self) -> (r: u64)
        ensures
            r as nat == self.encoded(),
    {
        proof {
            lemma_short_bits(self.ap_table@);
            lemma_short_bits(self.upper_address@);
        }
        let ns = flag_bit(self.ns_table);
        let ap = bits_to_u64(&self.ap_table);
        let uxn = flag_bit(self.uxn_table);
        let pxn = flag_bit(self.pxn_table);
        let addr = self.address as u64;
        let up = bits_to_u64(&self.upper_address);
        let v = flag_bit(self.valid);
        let r = (ns << 63) | ap << 61 | uxn << 60 | pxn << 59 | addr << 16 | up << 12 | 0b10 | v;
        assert(r == ns * 0x8000_0000_0000_0000 + ap * 0x2000_0000_0000_0000
            + uxn * 0x1000_0000_0000_0000 + pxn * 0x0800_0000_0000_0000 + addr * 0x1_0000
            + up * 0x1000 + 2 + v) by (bit_vector)
            requires
                ns < 2, ap < 4, uxn < 2, pxn < 2, addr < 0x1_0000_0000, up < 16, v < 2,
                r == (ns << 63) | ap << 61 | uxn << 60 | pxn << 59 | addr << 16 | up << 12 | 0b10 | v;
        r
    }
}

/// Page descriptor of the L3 tables (64 KiB granule): it maps one 64 KiB page.
#[derive(Clone, Copy, Debug)]
pub struct PageDescriptor {
    pub uxn: bool,
    pub pxn: bool,
    pub contiguous: bool,
    pub dirty_bit: bool,
    pub not_global: bool,
    pub access_flag: bool,
    pub shareability: [bool; 2],
    pub access_permission: [bool; 2],
    pub non_secure: bool,
    pub attributes_index: [bool; 3],
    pub address: u32,
    pub upper_address: [bool; 4],
    pub valid: bool,
}

impl PageDescriptor {
    /// The 64-bit word of this descriptor: UXN at 54, PXN at 53, Contiguous at
    /// 52, DBM at 51, the address at 47..16, the upper address at 15..12, nG at
    /// 11, AF at 10, SH at 9..8, AP at 7..6, NS at 5, AttrIndx at 4..2, bit 1
    /// set (page) and the valid bit at 0.
    pub open spec fn encoded(self) -> nat {
        flag(self.uxn) * 0x40_0000_0000_0000
            + flag(self.pxn) * 0x20_0000_0000_0000
            + flag(self.contiguous) * 0x10_0000_0000_0000
            + flag(self.dirty_bit) * 0x8_0000_0000_0000
            + (self.address as nat) * 0x1_0000
            + bits_value(self.upper_address@) * 0x1000
            + flag(self.not_global) * 0x800
            + flag(self.access_flag) * 0x400
            + bits_value(self.shareability@) * 0x100
            + bits_value(self.access_permission@) * 0x40
            + flag(self.non_secure) * 0x20
            + bits_value(self.attributes_index@) * 0x4
            + 2
            + flag(self.valid)
    }

    /// An all-zero, invalid descriptor.
    pub fn new_zeroed() -> (r: Self)
        ensures
            r.encoded() == 2,
            !r.valid,
    {
        let r = PageDescriptor {
            uxn: false,
            pxn: false,
            contiguous: false,
            dirty_bit: false,
            not_global: false,
            access_flag: false,
            shareability: [false, false],
            access_permission: [false, false],
            non_secure: false,
            attributes_index: [false, false, false],
            address: 0,
            upper_address: [false, false, false, false],
            valid: false,
        };
        proof {
            lemma_bits_value_zero(r.shareability@);
            lemma_bits_value_zero(r.access_permission@);
            lemma_bits_value_zero(r.attributes_index@);
            lemma_bits_value_zero(r.upper_address@);
        }
        r
    }

    /// Returns the binary representation of the descriptor, as it is placed in
    /// a translation table.
    pub fn bits(&self) -> (r: u64)
        ensures
            r as nat == self.encoded(),
    {
        proof {
            lemma_short_bits(self.shareability@);
            lemma_short_bits(self.access_permission@);
            lemma_short_bits(self.attributes_index@);
            lemma_short_bits(self.upper_address@);
        }
        let u = flag_bit(self.uxn);
        let p = flag_bit(self.pxn);
        let c = flag_bit(self.contiguous);
        let d = flag_bit(self.dirty_bit);
        let addr = self.address as u64;
        let up = bits_to_u64(&self.upper_address);
        let ng = flag_bit(self.not_global);
        let af = flag_bit(self.access_flag);
        let sh = bits_to_u64(&self.shareability);
        let ap = bits_to_u64(&self.access_permission);
        let ns = flag_bit(self.non_secure);
        let at = bits_to_u64(&self.attributes_index);
        let v = flag_bit(self.valid);
        let r = (u << 54) | (p << 53) | (c << 52) | (d << 51) | (addr << 16) | up << 12
            | (ng << 11) | (af << 10) | sh << 8 | ap << 6 | (ns << 5) | at << 2 | 0b10 | v;
        assert(r == u * 0x40_0000_0000_0000 + p * 0x20_0000_0000_0000 + c * 0x10_0000_0000_0000
            + d * 0x8_0000_0000_0000 + addr * 0x1_0000 + up * 0x1000 + ng * 0x800 + af * 0x400
            + sh * 0x100 + ap * 0x40 + ns * 0x20 + at * 4 + 2 + v) by (bit_vector)
            requires
                u < 2, p < 2, c < 2, d < 2, addr < 0x1_0000_0000, up < 16, ng < 2, af < 2,
                sh < 4, ap < 4, ns < 2, at < 8, v < 2,
                r == (u << 54) | (p << 53) | (c << 52) | (d << 51) | (addr << 16) | up << 12
                    | (ng << 11) | (af << 10) | sh << 8 | ap << 6 | (ns << 5) | at << 2 | 0b10 | v;
        r
    }
}

/// Each field of a table descriptor can be read back from its bit range of
/// the descriptor word, and the word stays below 2^64.
pub proof fn lemma_table_descriptor_fields(d: TableDescriptor)
    ensures
        d.encoded() <= u64::MAX,
        ({
            let w = d.encoded() as u64;
            &&& (w >> 63) & 1 == flag(d.ns_table)
            &&& (w >> 61) & 3 == bits_value(d.ap_table@)
            &&& (w >> 60) & 1 == flag(d.uxn_table)
            &&& (w >> 59) & 1 == flag(d.pxn_table)
            &&& (w >> 48) & 0x7ff == 0
            &&& (w >> 16) & 0xffff_ffff == d.address
            &&& (w >> 12) & 0xf == bits_value(d.upper_address@)
            &&& (w >> 2) & 0x3ff == 0
            &&& (w >> 1) & 1 == 1
            &&& w & 1 == flag(d.valid)
        }),
{
    lemma_short_bits(d.ap_table@);
    lemma_short_bits(d.upper_address@);
    let ns = flag(d.ns_table) as u64;
    let ap = bits_value(d.ap_table@) as u64;
    let uxn = flag(d.uxn_table) as u64;
    let pxn = flag(d.pxn_table) as u64;
    let addr = d.address as u64;
    let up = bits_value(d.upper_address@) as u64;
    let v = flag(d.valid) as u64;
    assert({
        let w = (ns * 0x8000_0000_0000_0000 + ap * 0x2000_0000_0000_0000
            + uxn * 0x1000_0000_0000_0000 + pxn * 0x0800_0000_0000_0000 + addr * 0x1_0000
            + up * 0x1000 + 2 + v) as u64;
        &&& ns * 0x8000_0000_0000_0000 + ap * 0x2000_0000_0000_0000
            + uxn * 0x1000_0000_0000_0000 + pxn * 0x0800_0000_0000_0000 + addr * 0x1_0000
            + up * 0x1000 + 2 + v <= 0xffff_ffff_ffff_ffff
        &&& (w >> 63) & 1 == ns
        &&& (w >> 61) & 3 == ap
        &&& (w >> 60) & 1 == uxn
        &&& (w >> 59) & 1 == pxn
        &&& (w >> 48) & 0x7ff == 0
        &&& (w >> 16) & 0xffff_ffff == addr
        &&& (w >> 12) & 0xf == up
        &&& (w >> 2) & 0x3ff == 0
        &&& (w >> 1) & 1 == 1
        &&& w & 1 == v
    }) by (bit_vector)
        requires
            ns < 2, ap < 4, uxn < 2, pxn < 2, addr < 0x1_0000_0000, up < 16, v < 2;
}

/// Each field of a page descriptor can be read back from its bit range of the
/// descriptor word, the bits that no field covers are clear, and the word stays
/// below 2^55.
pub proof fn lemma_page_descriptor_fields(d: PageDescriptor)
    ensures
        d.encoded() < 0x80_0000_0000_0000,
        ({
            let w = d.encoded() as u64;
            &&& (w >> 55) == 0
            &&& (w >> 54) & 1 == flag(d.uxn)
            &&& (w >> 53) & 1 == flag(d.pxn)
            &&& (w >> 52) & 1 == flag(d.contiguous)
            &&& (w >> 51) & 1 == flag(d.dirty_bit)
            &&& (w >> 48) & 7 == 0
            &&& (w >> 16) & 0xffff_ffff == d.address
            &&& (w >> 12) & 0xf == bits_value(d.upper_address@)
            &&& (w >> 11) & 1 == flag(d.not_global)
            &&& (w >> 10) & 1 == flag(d.access_flag)
            &&& (w >> 8) & 3 == bits_value(d.shareability@)
            &&& (w >> 6) & 3 == bits_value(d.access_permission@)
            &&& (w >> 5) & 1 == flag(d.non_secure)
            &&& (w >> 2) & 7 == bits_value(d.attributes_index@)
            &&& (w >> 1) & 1 == 1
            &&& w & 1 == flag(d.valid)
        }),
{
    lemma_short_bits(d.shareability@);
    lemma_short_bits(d.access_permission@);
    lemma_short_bits(d.attributes_index@);
    lemma_short_bits(d.upper_address@);
    let u = flag(d.uxn) as u64;
    let p = flag(d.pxn) as u64;
    let c = flag(d.contiguous) as u64;
    let dd = flag(d.dirty_bit) as u64;
    let addr = d.address as u64;
    let up = bits_value(d.upper_address@) as u64;
    let ng = flag(d.not_global) as u64;
    let af = flag(d.access_flag) as u64;
    let sh = bits_value(d.shareability@) as u64;
    let ap = bits_value(d.access_permission@) as u64;
    let ns = flag(d.non_secure) as u64;
    let at = bits_value(d.attributes_index@) as u64;
    let v = flag(d.valid) as u64;
    assert({
        let s = u * 0x40_0000_0000_0000 + p * 0x20_0000_0000_0000 + c * 0x10_0000_0000_0000
            + dd * 0x8_0000_0000_0000 + addr * 0x1_0000 + up * 0x1000 + ng * 0x800 + af * 0x400
            + sh * 0x100 + ap * 0x40 + ns * 0x20 + at * 4 + 2 + v;
        let w = s as u64;
        &&& s < 0x80_0000_0000_0000
        &&& (w >> 55) == 0
        &&& (w >> 54) & 1 == u
        &&& (w >> 53) & 1 == p
        &&& (w >> 52) & 1 == c
        &&& (w >> 51) & 1 == dd
        &&& (w >> 48) & 7 == 0
        &&& (w >> 16) & 0xffff_ffff == addr
        &&& (w >> 12) & 0xf == up
        &&& (w >> 11) & 1 == ng
        &&& (w >> 10) & 1 == af
        &&& (w >> 8) & 3 == sh
        &&& (w >> 6) & 3 == ap
        &&& (w >> 5) & 1 == ns
        &&& (w >> 2) & 7 == at
        &&& (w >> 1) & 1 == 1
        &&& w & 1 == v
    }) by (bit_vector)
        requires
            u < 2, p < 2, c < 2, dd < 2, addr < 0x1_0000_0000, up < 16, ng < 2, af < 2,
            sh < 4, ap < 4, ns < 2, at < 8, v < 2;
}

} // verus!
