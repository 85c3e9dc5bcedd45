//! The statically sized kernel translation tables and their fixed entries.
use vstd::prelude::*;
use crate::descriptors::{bits_value, PageDescriptor, TableDescriptor};
use crate::mmu::{l2_writes, TableWrite};

verus! {

/// Storage for the translation tables: for each of the `NUM_TABLES` L2 entries
/// one L3 table of 8192 page descriptors (64 KiB windows each), and the L2
/// table descriptors themselves (512 MiB windows each).
pub struct FixedSizeTranslationTable<const NUM_TABLES: usize> {
    lvl3: Vec<Vec<PageDescriptor>>,
    lvl2: Vec<TableDescriptor>,
}

/// Number of L2 tables of the kernel translation table.
pub const NUM_LVL2_TABLES: usize = 16;

/// The translation table of the kernel space.
pub type KernelTranslationTable = FixedSizeTranslationTable<NUM_LVL2_TABLES>;

impl<const NUM_TABLES: usize> FixedSizeTranslationTable<NUM_TABLES> {
    /// Descriptor words of the L3 tables, table by table.
    pub closed spec fn lvl3_words(&self) -> Seq<Seq<nat>> {
        self.lvl3@.map_values(|t: Vec<PageDescriptor>| t@.map_values(|d: PageDescriptor| d.encoded()))
    }

    /// Descriptor words of the L2 table.
    pub closed spec fn lvl2_words(&self) -> Seq<nat> {
        self.lvl2@.map_values(|d: TableDescriptor| d.encoded())
    }

    /// Creates the tables with every descriptor zeroed (invalid).
    /// There must be at least one table.
    pub fn new() -> (r: Self)
        requires
            NUM_TABLES > 0,
        ensures
            r.lvl3_words() == Seq::new(NUM_TABLES as nat, |t: int| Seq::new(8192, |i: int| 2nat)),
            r.lvl2_words() == Seq::new(NUM_TABLES as nat, |t: int| 2nat),
    {
        let mut lvl3: Vec<Vec<PageDescriptor>> = Vec::new();
        let mut t: usize = 0;
        while t < NUM_TABLES
            invariant
                t <= NUM_TABLES,
                lvl3@.len() == t,
                forall|k: int| 0 <= k < t ==> #[trigger] lvl3@[k]@.len() == 8192
                    && forall|i: int| 0 <= i < 8192 ==> (#[trigger] lvl3@[k]@[i]).encoded() == 2,
            decreases NUM_TABLES - t,
        {
            let mut table: Vec<PageDescriptor> = Vec::new();
            let mut i: usize = 0;
            while i < 8192
                invariant
                    i <= 8192,
                    table@.len() == i,
                    forall|j: int| 0 <= j < i ==> (#[trigger] table@[j]).encoded() == 2,
                decreases 8192 - i,
            {
                table.push(PageDescriptor::new_zeroed());
                i = i + 1;
            }
            lvl3.push(table);
            t = t + 1;
        }
        let mut lvl2: Vec<TableDescriptor> = Vec::new();
        let mut t2: usize = 0;
        while t2 < NUM_TABLES
            invariant
                t2 <= NUM_TABLES,
                lvl2@.len() == t2,
                forall|k: int| 0 <= k < t2 ==> (#[trigger] lvl2@[k]).encoded() == 2,
            decreases NUM_TABLES - t2,
        {
            lvl2.push(TableDescriptor::new_zeroed());
            t2 = t2 + 1;
        }
        let r = Self { lvl3, lvl2 };
        proof {
            assert forall|k: int| 0 <= k < NUM_TABLES implies
                #[trigger] r.lvl3_words()[k] == Seq::new(8192, |i: int| 2nat) by {
                assert(r.lvl3_words()[k] =~= Seq::new(8192, |i: int| 2nat));
            }
            assert(r.lvl3_words() =~= Seq::new(NUM_TABLES as nat, |t: int| Seq::new(8192, |i: int| 2nat)));
            assert(r.lvl2_words() =~= Seq::new(NUM_TABLES as nat, |t: int| 2nat));
        }
        r
    }

    /// Computes the static translation table entries, all of which are filled
    /// at once by the caller: the two L2 tables and the L3 entries of the
    /// identity mapping of 0x0..0xA_0000 and of the peripherals.
    pub fn populate_tt_entries(&self) -> (writes: Vec<TableWrite>)
        ensures
            writes@ == static_tt_writes(),
    {
        let mut writes: Vec<TableWrite> = Vec::new();
        let ghost low = l2_writes(0x3b1f_0000, 0x3B20_0000);
        let ghost high = l2_writes(0x3b1f_0040, 0x3B30_0000);
        let ghost ident = identity_page_writes();
        let ghost periph = peripheral_page_writes();
        let mut i: u32 = 0;
        while i < 16
            invariant
                i <= 16,
                low == l2_writes(0x3b1f_0000, 0x3B20_0000),
                writes@ == low.take(i as int),
            decreases 16 - i,
        {
            let address: u32 = (0x3B20_0000 + i * 0x1_0000) >> 16;
            let ghost t: u64 = (0x3B20_0000 + i * 0x1_0000) as u64;
            assert(address == (t / 0x1_0000) % 0x1_0000_0000) by (bit_vector)
                requires
                    address == ((0x3B20_0000u32 + i * 0x1_0000) as u32) >> 16,
                    i < 16,
                    t == 0x3B20_0000u64 + i * 0x1_0000;
            let table_descriptor = TableDescriptor {
                ns_table: false,
                ap_table: [false, false],
                uxn_table: false,
                pxn_table: false,
                upper_address: [false, false, false, false],
                valid: true,
                address,
            };
            proof {
                reveal_with_fuel(bits_value, 5);
            }
            let w = TableWrite { addr: (0x3b1f_0000 + i * 8) as u64, value: table_descriptor.bits() };
            assert(w == low[i as int]);
            writes.push(w);
            proof {
                assert(writes@ =~= low.take(i + 1));
            }
            i = i + 1;
        }
        let mut i: u32 = 0;
        while i < 16
            invariant
                i <= 16,
                low == l2_writes(0x3b1f_0000, 0x3B20_0000),
                high == l2_writes(0x3b1f_0040, 0x3B30_0000),
                writes@ == low + high.take(i as int),
            decreases 16 - i,
        {
            let address: u32 = (0x3B30_0000 + i * 0x1_0000) >> 16;
            let ghost t: u64 = (0x3B30_0000 + i * 0x1_0000) as u64;
            assert(address == (t / 0x1_0000) % 0x1_0000_0000) by (bit_vector)
                requires
                    address == ((0x3B30_0000u32 + i * 0x1_0000) as u32) >> 16,
                    i < 16,
                    t == 0x3B30_0000u64 + i * 0x1_0000;
            let table_descriptor = TableDescriptor {
                ns_table: false,
                ap_table: [false, false],
                uxn_table: false,
                pxn_table: false,
                upper_address: [false, false, false, false],
                valid: true,
                address,
            };
            proof {
                reveal_with_fuel(bits_value, 5);
            }
            let w = TableWrite { addr: (0x3b1f_0040 + i * 8) as u64, value: table_descriptor.bits() };
            assert(w == high[i as int]);
            writes.push(w);
            proof {
                assert(writes@ =~= low + high.take(i + 1));
            }
            i = i + 1;
        }
        proof {
            assert(high.take(16) =~= high);
        }
        let mut i: u32 = 0;
        while i < 10
            invariant
                i <= 10,
                low == l2_writes(0x3b1f_0000, 0x3B20_0000),
                high == l2_writes(0x3b1f_0040, 0x3B30_0000),
                ident == identity_page_writes(),
                writes@ == low + high + ident.take(i as int),
            decreases 10 - i,
        {
            let address: u32 = (i * 0x1_0000) >> 16;
            assert(address == i) by (bit_vector)
                requires address == ((i * 0x1_0000) as u32) >> 16, i < 10;
            let page_descriptor = PageDescriptor {
                uxn: false,
                pxn: false,
                contiguous: false,
                dirty_bit: false,
                not_global: false,
                access_flag: true,
                shareability: [false, false],
                access_permission: [false, false],
                non_secure: true,
                attributes_index: [false, false, false],
                address,
                upper_address: [false, false, false, false],
                valid: true,
            };
            proof {
                reveal_with_fuel(bits_value, 5);
            }
            let w = TableWrite { addr: (0x3B20_0000 + i * 8) as u64, value: page_descriptor.bits() };
            assert(w == ident[i as int]);
            writes.push(w);
            proof {
                assert(writes@ =~= low + high + ident.take(i + 1));
            }
            i = i + 1;
        }
        proof {
            assert(ident.take(10) =~= ident);
        }
        let mut i: u32 = 0;
        while i < 1024
            invariant
                i <= 1024,
                periph == peripheral_page_writes(),
                writes@ == low + high + ident + periph.take(i as int),
            decreases 1024 - i,
        {
            let address: u32 = (0xfc00_0000 + i * 0x1_0000) >> 16;
            assert(address == 0xfc00 + i) by (bit_vector)
                requires address == ((0xfc00_0000u32 + i * 0x1_0000) as u32) >> 16, i < 1024;
            let page_descriptor = PageDescriptor {
                uxn: true,
                pxn: true,
                contiguous: false,
                dirty_bit: false,
                not_global: false,
                access_flag: true,
                shareability: [false, false],
                access_permission: [false, false],
                non_secure: true,
                attributes_index: [false, false, true],
                address,
                upper_address: [false, false, false, false],
                valid: true,
            };
            proof {
                reveal_with_fuel(bits_value, 5);
            }
            let w = TableWrite { addr: (0x3b27_0000 + (0x1c00 + i) * 8) as u64, value: page_descriptor.bits() };
            assert(w == periph[i as int]);
            writes.push(w);
            proof {
                assert(writes@ =~= low + high + ident + periph.take(i + 1));
            }
            i = i + 1;
        }
        proof {
            assert(periph.take(1024) =~= periph);
        }
        writes
    }
}

/// L3 entries of the identity mapping of 0x0..0xA_0000: normal memory,
/// non-secure, accessed, page `i` at entry `i` of the first low L3 table.
pub open spec fn identity_page_writes() -> Seq<TableWrite> {
    Seq::new(10, |i: int| TableWrite {
        addr: (0x3B20_0000 + i * 8) as u64,
        value: (i * 0x1_0000 + 0x400 + 0x20 + 3) as u64,
    })
}

/// L3 entries of the peripheral mapping of 0xfc00_0000..0x1_0000_0000: device
/// memory (AttrIndx 1), never executable (UXN and PXN), non-secure, accessed,
/// at entries 0x1c00.. of the L3 table at 0x3b27_0000.
pub open spec fn peripheral_page_writes() -> Seq<TableWrite> {
    Seq::new(1024, |i: int| TableWrite {
        addr: (0x3b27_0000 + (0x1c00 + i) * 8) as u64,
        value: (0x60_0000_0000_0000 + 0xfc00_0000 + i * 0x1_0000 + 0x400 + 0x20 + 4 + 3) as u64,
    })
}

/// All the static translation table entries, in the order they are written.
pub open spec fn static_tt_writes() -> Seq<TableWrite> {
    l2_writes(0x3b1f_0000, 0x3B20_0000) + l2_writes(0x3b1f_0040, 0x3B30_0000)
        + identity_page_writes() + peripheral_page_writes()
}

} // verus!
