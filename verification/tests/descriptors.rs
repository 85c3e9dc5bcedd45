use rpi4_kernel::descriptors::{bits_to_u64, PageDescriptor, TableDescriptor};

fn table_to(address: u32) -> TableDescriptor {
    TableDescriptor {
        ns_table: false,
        ap_table: [false; 2],
        uxn_table: false,
        pxn_table: false,
        address,
        upper_address: [false; 4],
        valid: true,
    }
}

fn page_at(address: u32) -> PageDescriptor {
    PageDescriptor {
        uxn: false,
        pxn: false,
        contiguous: false,
        dirty_bit: false,
        not_global: false,
        access_flag: true,
        shareability: [false; 2],
        access_permission: [false; 2],
        non_secure: false,
        attributes_index: [false; 3],
        address,
        upper_address: [false; 4],
        valid: true,
    }
}

#[test]
fn bits_read_most_significant_first() {
    assert_eq!(bits_to_u64(&[true, false]), 2);
    assert_eq!(bits_to_u64(&[false, true]), 1);
    assert_eq!(bits_to_u64(&[true, true, false]), 6);
    assert_eq!(bits_to_u64(&[true, false, true, true]), 11);
    assert_eq!(bits_to_u64(&[false; 4]), 0);
    assert_eq!(bits_to_u64::<0>(&[]), 0);
    assert_eq!(bits_to_u64(&[true; 64]), u64::MAX);
}

#[test]
fn table_descriptor_layout() {
    assert_eq!(table_to(0x3b20).bits(), 0x3b20_0003);
    let mut d = table_to(0xffff_ffff);
    d.valid = false;
    assert_eq!(d.bits(), 0x0000_ffff_ffff_0002);
    let all = TableDescriptor {
        ns_table: true,
        ap_table: [true, false],
        uxn_table: true,
        pxn_table: true,
        address: 0,
        upper_address: [true, false, false, true],
        valid: true,
    };
    assert_eq!(all.bits(), 0x8000_0000_0000_0000 | 0x4000_0000_0000_0000 | 0x1800_0000_0000_0000 | 0x9000 | 3);
    assert_eq!(TableDescriptor::new_zeroed().bits(), 2);
}

#[test]
fn page_descriptor_layout() {
    let mut d = page_at(0);
    d.non_secure = true;
    assert_eq!(d.bits(), 0x423);
    let device = PageDescriptor {
        uxn: true,
        pxn: true,
        contiguous: false,
        dirty_bit: false,
        not_global: false,
        access_flag: true,
        shareability: [false; 2],
        access_permission: [false; 2],
        non_secure: true,
        attributes_index: [false, false, true],
        address: 0xfc00,
        upper_address: [false; 4],
        valid: true,
    };
    assert_eq!(device.bits(), 0x0060_0000_fc00_0427);
    let fields = PageDescriptor {
        uxn: false,
        pxn: false,
        contiguous: true,
        dirty_bit: true,
        not_global: true,
        access_flag: false,
        shareability: [true, true],
        access_permission: [false, true],
        non_secure: false,
        attributes_index: [true, true, true],
        address: 1,
        upper_address: [false, false, false, true],
        valid: false,
    };
    assert_eq!(fields.bits(), 0x0018_0000_0001_1b5e);
    assert_eq!(PageDescriptor::new_zeroed().bits(), 2);
}

#[test]
fn descriptor_fields_read_back() {
    let w = page_at(0x1234_5678).bits();
    assert_eq!((w >> 16) & 0xffff_ffff, 0x1234_5678);
    assert_eq!((w >> 10) & 1, 1);
    assert_eq!(w & 3, 3);
    assert_eq!(w >> 48, 0);
    let t = table_to(0xabcd).bits();
    assert_eq!((t >> 16) & 0xffff_ffff, 0xabcd);
    assert_eq!((t >> 2) & 0x3ff, 0);
}
