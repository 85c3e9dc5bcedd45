use rpi4_kernel::mmu::{
    create_initial_mappings, insert_into_translation_tables, populate_l2_tables,
    virtual_addr_to_tt_offsets, MemoryAttribute, TableWrite, UPPER_31_BITS,
};
use rpi4_kernel::translation_tables::{FixedSizeTranslationTable, NUM_LVL2_TABLES};

#[test]
fn mair_indices() {
    assert_eq!(MemoryAttribute::Memory.to_mair_idx(), [false, false, false]);
    assert_eq!(MemoryAttribute::Device.to_mair_idx(), [false, false, true]);
}

#[test]
fn offsets_of_virtual_addresses() {
    assert_eq!(virtual_addr_to_tt_offsets(0), (0, 0, 0));
    assert_eq!(virtual_addr_to_tt_offsets(0x3b40_0000), (0, 1, 0x1b40));
    assert_eq!(virtual_addr_to_tt_offsets(0x7fff_ffff_ffff), (31, 0x1fff, 0x1fff));
    assert_eq!(virtual_addr_to_tt_offsets(0x1_0000), (0, 0, 1));
    assert_eq!(virtual_addr_to_tt_offsets(0x2000_0000), (0, 1, 0));
    assert_eq!(virtual_addr_to_tt_offsets(0x400_0000_0000), (1, 0, 0));
    let va: u64 = 0x5a5_a5a5_1234;
    let (l1, l2, l3) = virtual_addr_to_tt_offsets(va);
    assert_eq!((l1 << 42) | (l2 << 29) | (l3 << 16) | (va & 0xffff), va);
}

#[test]
fn identity_mapping_entries() {
    let w = insert_into_translation_tables(0, 0, 10, MemoryAttribute::Memory);
    assert_eq!(w.len(), 10);
    assert_eq!(w[0], TableWrite { addr: 0x3b20_0000, value: 0x403 });
    assert_eq!(w[9], TableWrite { addr: 0x3b20_0048, value: 0x9_0403 });
}

#[test]
fn upper_half_device_mapping_entries() {
    let w = insert_into_translation_tables(UPPER_31_BITS + 0xfc00_0000, 0xfc00_0000, 1024, MemoryAttribute::Device);
    assert_eq!(w.len(), 1024);
    assert_eq!(w[0], TableWrite { addr: 0x3b37_e000, value: 0xfc00_0407 });
    assert_eq!(w[1023], TableWrite { addr: 0x3b37_fff8, value: 0xffff_0407 });
}

#[test]
fn empty_mapping_writes_nothing() {
    assert!(insert_into_translation_tables(0x1_0000, 0x2_0000, 0, MemoryAttribute::Memory).is_empty());
}

#[test]
fn mapping_entries_are_distinct_and_translate() {
    let w = insert_into_translation_tables(0x1fff_0000, 0x8000_0000, 4, MemoryAttribute::Memory);
    let addrs: Vec<u64> = w.iter().map(|e| e.addr).collect();
    for i in 0..addrs.len() {
        for j in 0..addrs.len() {
            if i != j {
                assert_ne!(addrs[i], addrs[j]);
            }
        }
        assert!(addrs[i] >= 0x3b20_0000 && addrs[i] < 0x3b20_0000 + 16 * 0x1_0000);
        assert_eq!(((w[i].value >> 16) & 0xffff_ffff) << 16, 0x8000_0000 + i as u64 * 0x1_0000);
        assert_eq!(w[i].value & 1, 1);
    }
    // The entry of 0x1fff_0000 is the last of the first L3 table, the next one
    // starts the second table.
    assert_eq!(addrs[0], 0x3b20_fff8);
    assert_eq!(addrs[1], 0x3b21_0000);
}

#[test]
fn l2_tables_point_at_l3_tables() {
    let w = populate_l2_tables();
    assert_eq!(w.len(), 32);
    assert_eq!(w[0], TableWrite { addr: 0x3b1f_0000, value: 0x3b20_0003 });
    assert_eq!(w[15], TableWrite { addr: 0x3b1f_0078, value: 0x3b2f_0003 });
    assert_eq!(w[16], TableWrite { addr: 0x3b1f_0080, value: 0x3b30_0003 });
    assert_eq!(w[31], TableWrite { addr: 0x3b1f_00f8, value: 0x3b3f_0003 });
    // Walking from L2 entry 1 finds the L3 entry that a mapping of 0x2000_0000 writes.
    let m = insert_into_translation_tables(0x2000_0000, 0, 1, MemoryAttribute::Memory);
    let table = ((w[1].value >> 16) & 0xffff_ffff) << 16;
    assert_eq!(table, 0x3b21_0000);
    assert_eq!(m[0].addr, table);
}

#[test]
fn initial_mappings_in_order() {
    let w = create_initial_mappings();
    assert_eq!(w.len(), 32 + 10 + 1216 + 10 + 1024);
    assert_eq!(w[..32], populate_l2_tables()[..]);
    assert_eq!(w[32], TableWrite { addr: 0x3b20_0000, value: 0x403 });
    assert_eq!(w[42], TableWrite { addr: 0x3b31_da00, value: 0x3b40_0403 });
    assert_eq!(w[42 + 1216], TableWrite { addr: 0x3b30_0000, value: 0x403 });
    assert_eq!(w[42 + 1216 + 10], TableWrite { addr: 0x3b37_e000, value: 0xfc00_0407 });
}

#[test]
fn static_translation_table_entries() {
    let tt = FixedSizeTranslationTable::<NUM_LVL2_TABLES>::new();
    let w = tt.populate_tt_entries();
    assert_eq!(w.len(), 16 + 16 + 10 + 1024);
    assert_eq!(w[0], TableWrite { addr: 0x3b1f_0000, value: 0x3b20_0003 });
    assert_eq!(w[16], TableWrite { addr: 0x3b1f_0040, value: 0x3b30_0003 });
    assert_eq!(w[32], TableWrite { addr: 0x3b20_0000, value: 0x423 });
    assert_eq!(w[41], TableWrite { addr: 0x3b20_0048, value: 0x9_0423 });
    assert_eq!(w[42], TableWrite { addr: 0x3b27_e000, value: 0x0060_0000_fc00_0427 });
    assert_eq!(w[1065], TableWrite { addr: 0x3b27_fff8, value: 0x0060_0000_ffff_0427 });
}

#[test]
fn single_table_translation_table() {
    let tt = FixedSizeTranslationTable::<1>::new();
    assert_eq!(tt.populate_tt_entries().len(), 1066);
}
