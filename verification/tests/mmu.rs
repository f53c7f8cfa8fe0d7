use lib::mmu::{
    block_desc, build_identity_map, device_block_attrs, normal_block_attrs, sctlr_with_mmu_enabled,
    table_desc, PageTable, ENTRY_COUNT, MAIR_VALUE, TCR_VALUE,
};

#[test]
fn descriptor_values() {
    assert_eq!(table_desc(0x4010_0000), 0x4010_0003);
    assert_eq!(block_desc(0x4000_0000, 0x704), 0x4000_0705);
    assert_eq!(device_block_attrs(), 0x0060_0000_0000_0400);
    assert_eq!(normal_block_attrs(), 0x704);
}

#[test]
fn register_values() {
    assert_eq!(MAIR_VALUE, 0xff00);
    assert_eq!(TCR_VALUE, 0x2_0080_3520);
    assert_eq!(sctlr_with_mmu_enabled(0x30d0_0800), 0x30d0_0801);
    assert_eq!(sctlr_with_mmu_enabled(0x30d0_0801), 0x30d0_0801);
}

#[test]
fn identity_map_entries() {
    let mut l1 = PageTable::new();
    let mut l2 = PageTable::new();
    build_identity_map(&mut l1, &mut l2, 0x4010_0000);
    assert_eq!(l1.entry(0), 0x4010_0003);
    assert_eq!(l1.entry(1), 0x4000_0705);
    for i in 2..ENTRY_COUNT {
        assert_eq!(l1.entry(i), 0);
    }
    for i in 0..ENTRY_COUNT {
        assert_eq!(l2.entry(i), (i << 21) | 1 | 0x0060_0000_0000_0400);
    }
    // the UART at 0x0900_0000 lies in block 72, as device memory
    assert_eq!(l2.entry(0x0900_0000 >> 21), 0x0900_0000 | 0x0060_0000_0000_0401);
}
