//! Set-up of the AArch64 translation tables: which descriptor words go to
//! which table entries.  The register and memory writes themselves are made by
//! the caller, in the order given.
use vstd::prelude::*;
use crate::descriptors::{bits_value, flag, PageDescriptor, TableDescriptor};

verus! {

/// The memory management unit of the boot core.
pub struct MemoryManagementUnit;

/// Kind of memory a mapping refers to, selecting an entry of MAIR_EL1.
pub enum MemoryAttribute {
    Device,
    Memory,
}

/// Index into MAIR_EL1: entry 0 is normal memory, entry 1 is device memory.
pub open spec fn mair_index(attr: MemoryAttribute) -> nat {
    match attr {
        MemoryAttribute::Memory => 0,
        MemoryAttribute::Device => 1,
    }
}

impl MemoryAttribute {
    /// The three AttrIndx bits of a page descriptor, most significant first.
    pub fn to_mair_idx(&self) -> (r: [bool; 3])
        ensures
            r@ == match *self {
                MemoryAttribute::Memory => seq![false, false, false],
                MemoryAttribute::Device => seq![false, false, true],
            },
            bits_value(r@) == mair_index(*self),
    {
        let r = match self {
            Self::Memory => [false, false, false],
            Self::Device => [false, false, true],
        };
        proof {
            reveal_with_fuel(bits_value, 4);
            assert(r@.drop_last().drop_last().drop_last() =~= Seq::<bool>::empty());
        }
        r
    }
}

/// L2 table for low (EL0) virtual addresses.
pub const EL0_L2_TRANSLATION_TABLE_BASE_ADDRESS: u64 = 0x3b1f_0000;
/// L2 table for high (EL1) virtual addresses.
pub const EL1_L2_TRANSLATION_TABLE_BASE_ADDRESS: u64 = 0x3b1f_0080;
/// First of the contiguous L3 tables for low virtual addresses.
pub const EL0_L3_TRANSLATION_TABLE_BASE_ADDRESS: u64 = 0x3b20_0000;
/// First of the contiguous L3 tables for high virtual addresses.
pub const EL1_L3_TRANSLATION_TABLE_BASE_ADDRESS: u64 = 0x3b30_0000;

/// The bits that select the upper (EL1) half of the address space.
pub const UPPER_31_BITS: u64 = 0xfffffffe00000000;
/// The bits that index within one half of the address space.
pub const LOWER_33_BITS: u64 = 0x1FFFFFFFF;

/// One descriptor word to be stored at a physical address of a table.
#[derive(Clone, Copy, Debug, PartialEq, Eq, Structural)]
pub struct TableWrite {
    pub addr: u64,
    pub value: u64,
}

/// Pulls out the (l1, l2, l3) translation-table offsets of a virtual address,
/// assuming 64 KiB translation granules: bits 46..42, 41..29 and 28..16.
/// The upper bits that select between EL1 and EL0 must have been masked.
pub fn virtual_addr_to_tt_offsets(virtual_address: u64) -> (r: (u64, u64, u64))
    ensures
        r.0 == (virtual_address / 0x400_0000_0000) % 32,
        r.1 == (virtual_address / 0x2000_0000) % 8192,
        r.2 == (virtual_address / 0x1_0000) % 8192,
        virtual_address < 0x8000_0000_0000 ==> virtual_address == r.0 * 0x400_0000_0000
            + r.1 * 0x2000_0000 + r.2 * 0x1_0000 + virtual_address % 0x1_0000,
{
    let l3_offset = (virtual_address >> 16) & 0b1111111111111;
    let l2_offset = (virtual_address >> 29) & 0b1111111111111;
    let l1_offset = (virtual_address >> 42) & 0b11111;
    assert(l3_offset == (virtual_address / 0x1_0000) % 8192
        && l2_offset == (virtual_address / 0x2000_0000) % 8192
        && l1_offset == (virtual_address / 0x400_0000_0000) % 32
        && (virtual_address < 0x8000_0000_0000 ==> virtual_address == l1_offset * 0x400_0000_0000
            + l2_offset * 0x2000_0000 + l3_offset * 0x1_0000 + virtual_address % 0x1_0000))
        by (bit_vector)
        requires
            l3_offset == (virtual_address >> 16) & 0b1111111111111,
            l2_offset == (virtual_address >> 29) & 0b1111111111111,
            l1_offset == (virtual_address >> 42) & 0b11111;
    (l1_offset, l2_offset, l3_offset)
}

/// Whether a virtual address lies in the upper (EL1) half: its top 31 bits are set.
pub open spec fn is_upper_half(va: u64) -> bool {
    va >= UPPER_31_BITS
}

/// First L3 table of the half that `va` lies in.
pub open spec fn l3_tables_base(va: u64) -> nat {
    if is_upper_half(va) {
        EL1_L3_TRANSLATION_TABLE_BASE_ADDRESS as nat
    } else {
        EL0_L3_TRANSLATION_TABLE_BASE_ADDRESS as nat
    }
}

/// Address of the L3 entry for the address `offset` within a half whose L3
/// tables start at `l3_base`: each L3 table spans 64 KiB of descriptors.
pub open spec fn l3_entry_address(l3_base: nat, offset: nat) -> nat {
    l3_base + ((offset / 0x2000_0000) % 8192) * 0x1_0000 + ((offset / 0x1_0000) % 8192) * 8
}

/// The word of a valid page descriptor with the access flag set that maps the
/// page at physical address `pa` with the given memory attribute.
pub open spec fn page_word(pa: nat, attr: MemoryAttribute) -> nat {
    ((pa / 0x1_0000) % 0x1_0000_0000) * 0x1_0000 + 0x400 + mair_index(attr) * 4 + 3
}

/// The word of a valid table descriptor that points at the table at `pa`.
pub open spec fn table_word(pa: nat) -> nat {
    ((pa / 0x1_0000) % 0x1_0000_0000) * 0x1_0000 + 3
}

/// The writes that map `num_pages` pages from `va_start` to `pa_start`.
pub open spec fn mapping_writes(va_start: u64, pa_start: u64, num_pages: nat, attr: MemoryAttribute) -> Seq<TableWrite> {
    Seq::new(num_pages, |i: int| TableWrite {
        addr: l3_entry_address(l3_tables_base(va_start), (va_start % 0x2_0000_0000) as nat + i as nat * 0x1_0000) as u64,
        value: page_word((pa_start + i * 0x1_0000) as nat, attr) as u64,
    })
}

/// Whether the mapping of `num_pages` pages from `va_start` to `pa_start` can
/// be computed: both starts are page aligned and no address overflows.
pub open spec fn mapping_fits(va_start: u64, pa_start: u64, num_pages: u64) -> bool {
    &&& va_start % 0x1_0000 == 0
    &&& pa_start % 0x1_0000 == 0
    &&& num_pages > 0 ==> (va_start % 0x2_0000_0000) + (num_pages - 1) * 0x1_0000 <= u64::MAX
    &&& num_pages > 0 ==> pa_start + (num_pages - 1) * 0x1_0000 <= u64::MAX
}

/// Computes the L3 entries that map a range of virtual addresses to a range of
/// physical addresses.  All addresses must be aligned to 64 KiB.
pub fn insert_into_translation_tables(
    virtual_address_start: u64,
    physical_address_start: u64,
    num_pages: u64,
    memory_attribute: MemoryAttribute,
) -> (writes: Vec<TableWrite>)
    requires
        mapping_fits(virtual_address_start, physical_address_start, num_pages),
    ensures
        writes@ == mapping_writes(virtual_address_start, physical_address_start, num_pages as nat, memory_attribute),
{
    let is_upper = (virtual_address_start & UPPER_31_BITS) == UPPER_31_BITS;
    let low_start = virtual_address_start & LOWER_33_BITS;
    assert(is_upper == (virtual_address_start >= 0xfffffffe00000000u64)
        && low_start == virtual_address_start % 0x2_0000_0000) by (bit_vector)
        requires
            is_upper == ((virtual_address_start & 0xfffffffe00000000u64) == 0xfffffffe00000000u64),
            low_start == virtual_address_start & 0x1FFFFFFFFu64;
    let mut writes: Vec<TableWrite> = Vec::new();
    let mut i: u64 = 0;
    while i < num_pages
        invariant
            i <= num_pages,
            mapping_fits(virtual_address_start, physical_address_start, num_pages),
            is_upper == is_upper_half(virtual_address_start),
            low_start == virtual_address_start % 0x2_0000_0000,
            writes@ == mapping_writes(virtual_address_start, physical_address_start, num_pages as nat, memory_attribute).take(i as int),
        decreases num_pages - i,
    {
        let virtual_addr = low_start + i * 0x1_0000;
        let phys_addr = physical_address_start + i * 0x1_0000;
        let (_, l2_offset, l3_offset) = virtual_addr_to_tt_offsets(virtual_addr);
        let l3_base_addr = if is_upper {
            EL1_L3_TRANSLATION_TABLE_BASE_ADDRESS
        } else {
            EL0_L3_TRANSLATION_TABLE_BASE_ADDRESS
        };
        let page_table_entry_addr = l3_base_addr + l2_offset * 0x1_0000 + l3_offset * 8;
        let address = (phys_addr >> 16) as u32;
        assert(address == (phys_addr / 0x1_0000) % 0x1_0000_0000) by (bit_vector)
            requires address == (phys_addr >> 16) as u32;
        let page_descriptor = PageDescriptor {
            uxn: false,
            pxn: false,
            contiguous: false,
            dirty_bit: false,
            not_global: false,
            access_flag: true,
            shareability: [false, false],
            access_permission: [false, false],
            non_secure: false,
            attributes_index: memory_attribute.to_mair_idx(),
            address,
            upper_address: [false, false, false, false],
            valid: true,
        };
        proof {
            reveal_with_fuel(bits_value, 5);
        }
        let value = page_descriptor.bits();
        let ghost target = mapping_writes(virtual_address_start, physical_address_start, num_pages as nat, memory_attribute);
        let w = TableWrite { addr: page_table_entry_addr, value };
        assert(w == target[i as int]);
        writes.push(w);
        proof {
            assert(writes@ =~= target.take(i + 1));
        }
        i = i + 1;
    }
    proof {
        assert(writes@ =~= mapping_writes(virtual_address_start, physical_address_start, num_pages as nat, memory_attribute));
    }
    writes
}

/// The table-descriptor writes that make the 16 entries of the L2 table at
/// `l2_base` point at the 16 contiguous L3 tables from `l3_base` on.
pub open spec fn l2_writes(l2_base: u64, l3_base: u64) -> Seq<TableWrite> {
    Seq::new(16, |i: int| TableWrite {
        addr: (l2_base + i * 8) as u64,
        value: table_word((l3_base + i * 0x1_0000) as nat) as u64,
    })
}

/// Computes the L2 entries of both halves: entry `i` of each L2 table points at
/// the `i`-th L3 table of that half.
pub fn populate_l2_tables() -> (writes: Vec<TableWrite>)
    ensures
        writes@ == l2_writes(EL0_L2_TRANSLATION_TABLE_BASE_ADDRESS, EL0_L3_TRANSLATION_TABLE_BASE_ADDRESS)
            + l2_writes(EL1_L2_TRANSLATION_TABLE_BASE_ADDRESS, EL1_L3_TRANSLATION_TABLE_BASE_ADDRESS),
{
    let mut writes: Vec<TableWrite> = Vec::new();
    let ghost low = l2_writes(EL0_L2_TRANSLATION_TABLE_BASE_ADDRESS, EL0_L3_TRANSLATION_TABLE_BASE_ADDRESS);
    let ghost high = l2_writes(EL1_L2_TRANSLATION_TABLE_BASE_ADDRESS, EL1_L3_TRANSLATION_TABLE_BASE_ADDRESS);
    let mut i: u32 = 0;
    while i < 16
        invariant
            i <= 16,
            low == l2_writes(EL0_L2_TRANSLATION_TABLE_BASE_ADDRESS, EL0_L3_TRANSLATION_TABLE_BASE_ADDRESS),
            writes@ == low.take(i as int),
        decreases 16 - i,
    {
        let address: u32 = (EL0_L3_TRANSLATION_TABLE_BASE_ADDRESS as u32 + i * 0x1_0000) >> 16;
        let ghost t: u64 = (EL0_L3_TRANSLATION_TABLE_BASE_ADDRESS + i * 0x1_0000) as u64;
        assert(address == (t / 0x1_0000) % 0x1_0000_0000) by (bit_vector)
            requires
                address == ((0x3b20_0000u32 + i * 0x1_0000) as u32) >> 16,
                i < 16,
                t == 0x3b20_0000u32 as u64 + i * 0x1_0000;
        let table_descriptor = TableDescriptor {
            ns_table: false,
            ap_table: [false, false],
            uxn_table: false,
            pxn_table: false,
            upper_address: [false, false, false, false],
            valid: true,
            address,
        };
        proof {
            reveal_with_fuel(bits_value, 5);
        }
        let w = TableWrite {
            addr: EL0_L2_TRANSLATION_TABLE_BASE_ADDRESS + i as u64 * 8,
            value: table_descriptor.bits(),
        };
        assert(w == low[i as int]);
        writes.push(w);
        proof {
            assert(writes@ =~= low.take(i + 1));
        }
        i = i + 1;
    }
    let mut j: u32 = 0;
    while j < 16
        invariant
            j <= 16,
            low == l2_writes(EL0_L2_TRANSLATION_TABLE_BASE_ADDRESS, EL0_L3_TRANSLATION_TABLE_BASE_ADDRESS),
            high == l2_writes(EL1_L2_TRANSLATION_TABLE_BASE_ADDRESS, EL1_L3_TRANSLATION_TABLE_BASE_ADDRESS),
            writes@ == low + high.take(j as int),
        decreases 16 - j,
    {
        let address: u32 = (EL1_L3_TRANSLATION_TABLE_BASE_ADDRESS as u32 + j * 0x1_0000) >> 16;
        let ghost t: u64 = (EL1_L3_TRANSLATION_TABLE_BASE_ADDRESS + j * 0x1_0000) as u64;
        assert(address == (t / 0x1_0000) % 0x1_0000_0000) by (bit_vector)
            requires
                address == ((0x3b30_0000u32 + j * 0x1_0000) as u32) >> 16,
                j < 16,
                t == 0x3b30_0000u32 as u64 + j * 0x1_0000;
        let table_descriptor = TableDescriptor {
            ns_table: false,
            ap_table: [false, false],
            uxn_table: false,
            pxn_table: false,
            upper_address: [false, false, false, false],
            valid: true,
            address,
        };
        proof {
            reveal_with_fuel(bits_value, 5);
        }
        let w = TableWrite {
            addr: EL1_L2_TRANSLATION_TABLE_BASE_ADDRESS + j as u64 * 8,
            value: table_descriptor.bits(),
        };
        assert(w == high[j as int]);
        writes.push(w);
        proof {
            assert(writes@ =~= low + high.take(j + 1));
        }
        j = j + 1;
    }
    proof {
        assert(low.take(16) =~= low);
        assert(high.take(16) =~= high);
    }
    writes
}

/// Everything that the initial mappings write, in order: the L2 entries of both
/// halves, the identity mapping of 0x0..0xA_0000, the upper-half mapping of the
/// VideoCore SDRAM (0x3b40_0000..0x4000_0000), the upper-half mapping of the
/// kernel code, and the upper-half mapping of the peripherals as device memory.
pub open spec fn initial_mapping_writes() -> Seq<TableWrite> {
    l2_writes(EL0_L2_TRANSLATION_TABLE_BASE_ADDRESS, EL0_L3_TRANSLATION_TABLE_BASE_ADDRESS)
        + l2_writes(EL1_L2_TRANSLATION_TABLE_BASE_ADDRESS, EL1_L3_TRANSLATION_TABLE_BASE_ADDRESS)
        + mapping_writes(0x0000, 0x0000, 10, MemoryAttribute::Memory)
        + mapping_writes((0x3b40_0000 + UPPER_31_BITS) as u64, 0x3b40_0000, 1216, MemoryAttribute::Memory)
        + mapping_writes((0x0000 + UPPER_31_BITS) as u64, 0x0000, 10, MemoryAttribute::Memory)
        + mapping_writes((0xfc00_0000 + UPPER_31_BITS) as u64, 0xfc00_0000, 1024, MemoryAttribute::Device)
}

/// Computes the table writes of the initial mappings, which the boot code makes
/// before it switches the MMU on.
pub fn create_initial_mappings() -> (writes: Vec<TableWrite>)
    ensures
        writes@ == initial_mapping_writes(),
{
    let mut writes = populate_l2_tables();
    let mut identity = insert_into_translation_tables(0x0000, 0x0000, 10, MemoryAttribute::Memory);
    writes.append(&mut identity);
    let mut sdram = insert_into_translation_tables(
        0x3b40_0000 + UPPER_31_BITS,
        0x3b40_0000,
        1216,
        MemoryAttribute::Memory,
    );
    writes.append(&mut sdram);
    let mut kernel = insert_into_translation_tables(0x0000 + UPPER_31_BITS, 0x0000, 10, MemoryAttribute::Memory);
    writes.append(&mut kernel);
    let mut peripherals = insert_into_translation_tables(
        0xfc00_0000 + UPPER_31_BITS,
        0xfc00_0000,
        1024,
        MemoryAttribute::Device,
    );
    writes.append(&mut peripherals);
    writes
}

/// Within one half, the L3 entry of an offset below 8 GiB is the entry numbered
/// `offset / 64 KiB` of the contiguous L3 tables.
pub proof fn lemma_l3_entry_is_page_number(l3_base: nat, offset: nat)
    requires
        offset < 0x2_0000_0000,
    ensures
        l3_entry_address(l3_base, offset) == l3_base + 8 * (offset / 0x1_0000),
        l3_entry_address(l3_base, offset) < l3_base + 16 * 0x1_0000,
{
    let o = offset as u64;
    assert(((o / 0x2000_0000) % 8192) * 0x1_0000 + ((o / 0x1_0000) % 8192) * 8 == 8 * (o / 0x1_0000)
        && 8 * (o / 0x1_0000) < 16 * 0x1_0000) by (bit_vector)
        requires o < 0x2_0000_0000u64;
}

/// Where entry `i` of a mapping that stays below 8 GiB of its half is written.
proof fn lemma_mapping_entry_address(va_start: u64, pa_start: u64, num_pages: u64, attr: MemoryAttribute, i: int)
    requires
        mapping_fits(va_start, pa_start, num_pages),
        (va_start % 0x2_0000_0000) + num_pages * 0x1_0000 <= 0x2_0000_0000,
        0 <= i < num_pages,
    ensures
        mapping_writes(va_start, pa_start, num_pages as nat, attr)[i].addr
            == l3_tables_base(va_start) + 8 * ((va_start % 0x2_0000_0000) / 0x1_0000 + i),
{
    let base = l3_tables_base(va_start);
    let v = va_start % 0x2_0000_0000;
    let o = (v + i * 0x1_0000) as nat;
    lemma_l3_entry_is_page_number(base, o);
    let vv = v as u64;
    let ii = i as u64;
    assert((vv + ii * 0x1_0000) / 0x1_0000 == vv / 0x1_0000 + ii) by (bit_vector)
        requires vv < 0x2_0000_0000u64, ii < 0x2_0000u64;
}

/// The initial mappings never write one table entry twice: the L2 entries,
/// the identity mapping, and the three upper-half mappings all go to
/// different places.
pub proof fn lemma_initial_mappings_distinct(i: int, j: int)
    requires
        0 <= i < j < initial_mapping_writes().len(),
    ensures
        initial_mapping_writes()[i].addr != initial_mapping_writes()[j].addr,
{
    let low = l2_writes(EL0_L2_TRANSLATION_TABLE_BASE_ADDRESS, EL0_L3_TRANSLATION_TABLE_BASE_ADDRESS);
    let high = l2_writes(EL1_L2_TRANSLATION_TABLE_BASE_ADDRESS, EL1_L3_TRANSLATION_TABLE_BASE_ADDRESS);
    let ident = mapping_writes(0x0000, 0x0000, 10, MemoryAttribute::Memory);
    let sdram = mapping_writes((0x3b40_0000 + UPPER_31_BITS) as u64, 0x3b40_0000, 1216, MemoryAttribute::Memory);
    let kernel = mapping_writes((0x0000 + UPPER_31_BITS) as u64, 0x0000, 10, MemoryAttribute::Memory);
    let periph = mapping_writes((0xfc00_0000 + UPPER_31_BITS) as u64, 0xfc00_0000, 1024, MemoryAttribute::Device);
    let all = initial_mapping_writes();
    assert(all == low + high + ident + sdram + kernel + periph);
    // Each write's address, by the part it belongs to.
    assert forall|k: int| 0 <= k < all.len() implies #[trigger] all[k].addr == (
        if k < 16 {
            0x3b1f_0000 + 8 * k
        } else if k < 32 {
            0x3b1f_0080 + 8 * (k - 16)
        } else if k < 42 {
            0x3b20_0000 + 8 * (k - 32)
        } else if k < 1258 {
            0x3b30_0000 + 8 * (0x3b40 + (k - 42))
        } else if k < 1268 {
            0x3b30_0000 + 8 * (k - 1258)
        } else {
            0x3b30_0000 + 8 * (0xfc00 + (k - 1268))
        }) by {
        if k < 32 {
        } else if k < 42 {
            lemma_mapping_entry_address(0x0000, 0x0000, 10, MemoryAttribute::Memory, k - 32);
        } else if k < 1258 {
            lemma_mapping_entry_address((0x3b40_0000 + UPPER_31_BITS) as u64, 0x3b40_0000, 1216, MemoryAttribute::Memory, k - 42);
        } else if k < 1268 {
            lemma_mapping_entry_address((0x0000 + UPPER_31_BITS) as u64, 0x0000, 10, MemoryAttribute::Memory, k - 1258);
        } else {
            lemma_mapping_entry_address((0xfc00_0000 + UPPER_31_BITS) as u64, 0xfc00_0000, 1024, MemoryAttribute::Device, k - 1268);
        }
    }
}

/// A mapping that stays within one half of the address space writes each L3
/// entry at most once, and only entries of the 16 L3 tables of that half.
pub proof fn lemma_mapping_entries_distinct(va_start: u64, pa_start: u64, num_pages: u64, attr: MemoryAttribute, i: int, j: int)
    requires
        mapping_fits(va_start, pa_start, num_pages),
        (va_start % 0x2_0000_0000) + num_pages * 0x1_0000 <= 0x2_0000_0000,
        0 <= i < num_pages,
        0 <= j < num_pages,
    ensures
        ({
            let w = mapping_writes(va_start, pa_start, num_pages as nat, attr);
            &&& l3_tables_base(va_start) <= w[i].addr < l3_tables_base(va_start) + 16 * 0x1_0000
            &&& w[i].addr % 8 == 0
            &&& (i != j ==> w[i].addr != w[j].addr)
        }),
{
    let base = l3_tables_base(va_start);
    let v = va_start % 0x2_0000_0000;
    let oi = (v + i * 0x1_0000) as nat;
    let oj = (v + j * 0x1_0000) as nat;
    lemma_l3_entry_is_page_number(base, oi);
    lemma_l3_entry_is_page_number(base, oj);
    let vv = v as u64;
    let ii = i as u64;
    let jj = j as u64;
    assert((vv + ii * 0x1_0000) / 0x1_0000 == vv / 0x1_0000 + ii
        && (vv + jj * 0x1_0000) / 0x1_0000 == vv / 0x1_0000 + jj) by (bit_vector)
        requires vv < 0x2_0000_0000u64, ii < 0x2_0000u64, jj < 0x2_0000u64;
}

/// The page entry written for page `i` of a mapping is valid, has its access
/// flag set, carries the mapping's memory attribute, and yields the physical
/// page `pa_start + i * 64 KiB` when that address is below 2^48.
pub proof fn lemma_mapping_translates(va_start: u64, pa_start: u64, num_pages: u64, attr: MemoryAttribute, i: int)
    requires
        mapping_fits(va_start, pa_start, num_pages),
        0 <= i < num_pages,
        pa_start + i * 0x1_0000 < 0x1_0000_0000_0000,
    ensures
        ({
            let w = mapping_writes(va_start, pa_start, num_pages as nat, attr)[i].value;
            &&& w & 1 == 1
            &&& (w >> 1) & 1 == 1
            &&& (w >> 10) & 1 == 1
            &&& (w >> 2) & 7 == mair_index(attr)
            &&& ((w >> 16) & 0xffff_ffff) * 0x1_0000 == pa_start + i * 0x1_0000
        }),
{
    let pa = (pa_start + i * 0x1_0000) as u64;
    let m = mair_index(attr) as u64;
    let a = ((pa / 0x1_0000) % 0x1_0000_0000) as u64;
    let ii = i as u64;
    assert(pa % 0x1_0000 == 0) by (bit_vector)
        requires pa == pa_start + ii * 0x1_0000, pa_start % 0x1_0000 == 0, pa < 0x1_0000_0000_0000u64;
    assert({
        let w = (a * 0x1_0000 + 0x400 + m * 4 + 3) as u64;
        &&& w & 1 == 1
        &&& (w >> 1) & 1 == 1
        &&& (w >> 10) & 1 == 1
        &&& (w >> 2) & 7 == m
        &&& ((w >> 16) & 0xffff_ffff) * 0x1_0000 == pa
    }) by (bit_vector)
        requires
            m < 2,
            pa < 0x1_0000_0000_0000u64,
            pa % 0x1_0000 == 0,
            a == (pa / 0x1_0000) % 0x1_0000_0000;
}

/// Walking from an L2 entry finds the L3 entry that a mapping writes: for an
/// offset below 8 GiB within a half, entry `k = offset / 512 MiB` of the L2
/// table points at the L3 table that holds the offset's L3 entry, at index
/// `(offset / 64 KiB) % 8192` of that table.
pub proof fn lemma_l2_entry_points_at_l3_entry(l2_base: u64, l3_base: u64, offset: nat)
    requires
        offset < 0x2_0000_0000,
        l3_base % 0x1_0000 == 0,
        l3_base + 16 * 0x1_0000 < 0x1_0000_0000_0000,
        l2_base + 16 * 8 <= u64::MAX,
    ensures
        ({
            let k = (offset / 0x2000_0000) as int;
            let e = l2_writes(l2_base, l3_base)[k];
            &&& 0 <= k < 16
            &&& e.addr == l2_base + 8 * k
            &&& e.value & 3 == 3
            &&& ((e.value >> 16) & 0xffff_ffff) * 0x1_0000 + ((offset / 0x1_0000) % 8192) * 8
                == l3_entry_address(l3_base as nat, offset)
        }),
{
    let o = offset as u64;
    let k = o / 0x2000_0000;
    let t = (l3_base + k * 0x1_0000) as u64;
    let a = ((t / 0x1_0000) % 0x1_0000_0000) as u64;
    assert(k < 16 && (o / 0x2000_0000) % 8192 == k) by (bit_vector)
        requires o < 0x2_0000_0000u64, k == o / 0x2000_0000;
    assert({
        let w = (a * 0x1_0000 + 3) as u64;
        &&& w & 3 == 3
        &&& ((w >> 16) & 0xffff_ffff) * 0x1_0000 == t
    }) by (bit_vector)
        requires
            t < 0x1_0000_0000_0000u64,
            t % 0x1_0000 == 0,
            a == (t / 0x1_0000) % 0x1_0000_0000;
}

} // verus!
