use vstd::prelude::*;

verus! {

/// Number of descriptors in one translation table.
pub const ENTRY_COUNT: u64 = 512;

/// Shift from a level-2 index to the address of its 2 MiB block.
pub const PAGE_SHIFT_2M: u64 = 21;

/// Shift from a level-1 index to the address of its 1 GiB block.
pub const PAGE_SHIFT_1G: u64 = 30;

/// Descriptor bit 0: the descriptor is valid.
pub const DESC_VALID: u64 = 1u64 << 0u64;

/// Descriptor bit 1 set: a table descriptor (at levels 0 to 2).
pub const DESC_TABLE: u64 = 1u64 << 1u64;

/// Descriptor bit 1 clear: a block descriptor.
pub const DESC_BLOCK: u64 = 0u64 << 1u64;

/// Position of the memory-attribute index in a block descriptor.
pub const ATTR_IDX_SHIFT: u64 = 2;

/// Memory-attribute index 0: device memory (see `MAIR_VALUE`).
pub const ATTR_IDX_DEVICE: u64 = 0u64 << ATTR_IDX_SHIFT;

/// Memory-attribute index 1: normal write-back memory (see `MAIR_VALUE`).
pub const ATTR_IDX_NORMAL: u64 = 1u64 << ATTR_IDX_SHIFT;

/// Access flag.
pub const ACCESS_FLAG: u64 = 1u64 << 10u64;

/// Shareability field: inner shareable.
pub const INNER_SHAREABLE: u64 = 0b11u64 << 8u64;

/// Privileged execute-never.
pub const PXN: u64 = 1u64 << 53u64;

/// Unprivileged execute-never.
pub const UXN: u64 = 1u64 << 54u64;

/// MAIR_EL1 attribute: device nGnRnE memory.
pub const MAIR_DEVICE_NGNRNE: u64 = 0x00;

/// MAIR_EL1 attribute: normal memory, write-back.
pub const MAIR_NORMAL_WB: u64 = 0xff;

/// MAIR_EL1 value: attribute 0 device, attribute 1 normal.
pub const MAIR_VALUE: u64 = MAIR_DEVICE_NGNRNE | (MAIR_NORMAL_WB << 8u64);

/// TCR_EL1 T0SZ: a 32-bit (4 GiB) address space through TTBR0.
pub const TCR_T0SZ_4GB: u64 = 32;

/// TCR_EL1 IRGN0: inner write-back write-allocate walks.
pub const TCR_IRGN0_WBWA: u64 = 0b01u64 << 8u64;

/// TCR_EL1 ORGN0: outer write-back write-allocate walks.
pub const TCR_ORGN0_WBWA: u64 = 0b01u64 << 10u64;

/// TCR_EL1 SH0: inner shareable walks.
pub const TCR_SH0_INNER: u64 = 0b11u64 << 12u64;

/// TCR_EL1 TG0: 4 KiB granule.
pub const TCR_TG0_4K: u64 = 0b00u64 << 14u64;

/// TCR_EL1 EPD1: no walks through TTBR1.
pub const TCR_EPD1_DISABLE: u64 = 1u64 << 23u64;

/// TCR_EL1 IPS: 40-bit physical addresses.
pub const TCR_IPS_40BIT: u64 = 0b010u64 << 32u64;

/// TCR_EL1 value that the MMU is set up with.
pub const TCR_VALUE: u64 = TCR_T0SZ_4GB | TCR_IRGN0_WBWA | TCR_ORGN0_WBWA | TCR_SH0_INNER
    | TCR_TG0_4K | TCR_EPD1_DISABLE | TCR_IPS_40BIT;

/// Output-address bits of a table descriptor (47 to 12).
pub const TABLE_ADDR_MASK: u64 = 0x0000_ffff_ffff_f000;

/// Output-address bits of a level-1 block descriptor (47 to 30).
pub const BLOCK_1G_ADDR_MASK: u64 = 0x0000_ffff_c000_0000;

/// Output-address bits of a level-2 block descriptor (47 to 21).
pub const BLOCK_2M_ADDR_MASK: u64 = 0x0000_ffff_ffe0_0000;

/// Attribute bits of a block descriptor (63 to 52 and 11 to 2).
pub const BLOCK_ATTR_MASK: u64 = 0xfff0_0000_0000_0ffc;

/// The values of the descriptor and register constants.
pub proof fn lemma_constant_values()
    ensures
        DESC_VALID == 1,
        DESC_TABLE == 2,
        DESC_BLOCK == 0,
        ATTR_IDX_DEVICE == 0,
        ATTR_IDX_NORMAL == 4,
        ACCESS_FLAG == 0x400,
        INNER_SHAREABLE == 0x300,
        PXN == 0x0020_0000_0000_0000,
        UXN == 0x0040_0000_0000_0000,
        device_attrs() == 0x0060_0000_0000_0400,
        normal_attrs() == 0x704,
        MAIR_VALUE == 0xff00,
        TCR_VALUE == 0x2_0080_3520,
{
    assert(1u64 << 0u64 == 1) by (bit_vector);
    assert(1u64 << 1u64 == 2) by (bit_vector);
    assert(0u64 << 1u64 == 0) by (bit_vector);
    assert(0u64 << 2u64 == 0) by (bit_vector);
    assert(1u64 << 2u64 == 4) by (bit_vector);
    assert(1u64 << 10u64 == 0x400) by (bit_vector);
    assert(0b11u64 << 8u64 == 0x300) by (bit_vector);
    assert(1u64 << 53u64 == 0x0020_0000_0000_0000) by (bit_vector);
    assert(1u64 << 54u64 == 0x0040_0000_0000_0000) by (bit_vector);
    assert(0u64 | 0x400u64 | 0x0020_0000_0000_0000u64 | 0x0040_0000_0000_0000u64
        == 0x0060_0000_0000_0400u64) by (bit_vector);
    assert(4u64 | 0x400u64 | 0x300u64 == 0x704u64) by (bit_vector);
    assert(0u64 | (0xffu64 << 8u64) == 0xff00u64) by (bit_vector);
    assert(32u64 | (0b01u64 << 8u64) | (0b01u64 << 10u64) | (0b11u64 << 12u64) | (0b00u64
        << 14u64) | (1u64 << 23u64) | (0b010u64 << 32u64) == 0x2_0080_3520u64) by (bit_vector);
}

/// The table descriptor that points to the table at `addr`.
pub open spec fn table_descriptor(addr: u64) -> u64 {
    addr | DESC_VALID | DESC_TABLE
}

/// The block descriptor that maps the block at `addr` with `attrs`.
pub open spec fn block_descriptor(addr: u64, attrs: u64) -> u64 {
    addr | DESC_VALID | DESC_BLOCK | attrs
}

/// Attributes of a device block: device memory, accessed, never executed.
pub open spec fn device_attrs() -> u64 {
    ATTR_IDX_DEVICE | ACCESS_FLAG | PXN | UXN
}

/// Attributes of a normal block: normal memory, accessed, inner shareable.
pub open spec fn normal_attrs() -> u64 {
    ATTR_IDX_NORMAL | ACCESS_FLAG | INNER_SHAREABLE
}

/// Table descriptor for the next-level table at `addr`.
pub fn table_desc(addr: u64) -> (r: u64)
    ensures
        r == table_descriptor(addr),
{
    addr | DESC_VALID | DESC_TABLE
}

/// Block descriptor for the block at `addr` with the attributes `attrs`.
pub fn block_desc(addr: u64, attrs: u64) -> (r: u64)
    ensures
        r == block_descriptor(addr, attrs),
{
    addr | DESC_VALID | DESC_BLOCK | attrs
}

/// Attributes of the blocks that map device memory.
pub fn device_block_attrs() -> (r: u64)
    ensures
        r == device_attrs(),
{
    ATTR_IDX_DEVICE | ACCESS_FLAG | PXN | UXN
}

/// Attributes of the blocks that map normal memory.
pub fn normal_block_attrs() -> (r: u64)
    ensures
        r == normal_attrs(),
{
    ATTR_IDX_NORMAL | ACCESS_FLAG | INNER_SHAREABLE
}

/// SCTLR_EL1 with the MMU enable bit (bit 0) set.
pub fn sctlr_with_mmu_enabled(sctlr: u64) -> (r: u64)
    ensures
        r == sctlr | 1,
{
    sctlr | 1u64
}

/// A translation table of `ENTRY_COUNT` descriptors.
pub struct PageTable {
    entries: Vec<u64>,
}

impl View for PageTable {
    type V = Seq<u64>;

    closed spec fn view(&self) -> Seq<u64> {
        self.entries@
    }
}

impl PageTable {
    pub open spec fn wf(&self) -> bool {
        self@.len() == ENTRY_COUNT
    }

    /// A table of invalid (zero) descriptors.
    pub fn new() -> (r: Self)
        ensures
            r.wf(),
            r@ == Seq::new(ENTRY_COUNT as nat, |i: int| 0u64),
    {
        let mut entries: Vec<u64> = Vec::new();
        let mut i: u64 = 0;
        while i < ENTRY_COUNT
            invariant
                i <= ENTRY_COUNT,
                entries@ == Seq::new(i as nat, |j: int| 0u64),
            decreases ENTRY_COUNT - i,
        {
            entries.push(0);
            proof {
                assert(entries@ =~= Seq::new((i + 1) as nat, |j: int| 0u64));
            }
            i = i + 1;
        }
        PageTable { entries }
    }

    /// Descriptor `index`.
    pub fn entry(&self, index: u64) -> (r: u64)
        requires
            self.wf(),
            index < ENTRY_COUNT,
        ensures
            r == self@[index as int],
    {
        self.entries[index as usize]
    }

    fn set_entry(&mut self, index: u64, value: u64)
        requires
            old(self).wf(),
            index < ENTRY_COUNT,
        ensures
            final(self)@ == old(self)@.update(index as int, value),
    {
        self.entries.set(index as usize, value);
    }
}

/// The level-2 table of the identity map: 512 device blocks of 2 MiB that
/// map the first GiB onto itself.
pub open spec fn identity_l2() -> Seq<u64> {
    Seq::new(
        ENTRY_COUNT as nat,
        |i: int| block_descriptor(((i as u64) << PAGE_SHIFT_2M), device_attrs()),
    )
}

/// The level-1 table of the identity map over `l1`: entry 0 points to the
/// level-2 table at `l2_addr`, entry 1 is a normal 1 GiB block that maps the
/// second GiB onto itself.
pub open spec fn identity_l1(l1: Seq<u64>, l2_addr: u64) -> Seq<u64> {
    l1.update(0, table_descriptor(l2_addr)).update(
        1,
        block_descriptor(1u64 << PAGE_SHIFT_1G, normal_attrs()),
    )
}

/// Fills `l1` and `l2`, whose level-2 table lies at physical address
/// `l2_addr`, with the identity map of the low 2 GiB: the first GiB as
/// device memory through `l2`, the second as normal memory by one block.
pub fn build_identity_map(l1: &mut PageTable, l2: &mut PageTable, l2_addr: u64)
    requires
        old(l1).wf(),
        old(l2).wf(),
    ensures
        final(l1).wf(),
        final(l2).wf(),
        final(l1)@ == identity_l1(old(l1)@, l2_addr),
        final(l2)@ == identity_l2(),
{
    l1.set_entry(0, table_desc(l2_addr));
    let ghost l2_before = l2@;
    let mut index: u64 = 0;
    while index < ENTRY_COUNT
        invariant
            index <= ENTRY_COUNT,
            l2.wf(),
            forall|j: int| 0 <= j < index ==> #[trigger] l2@[j] == identity_l2()[j],
        decreases ENTRY_COUNT - index,
    {
        let phys = index << PAGE_SHIFT_2M;
        l2.set_entry(index, block_desc(phys, device_block_attrs()));
        index = index + 1;
    }
    proof {
        assert(l2@ =~= identity_l2());
    }
    let phys = 1u64 << PAGE_SHIFT_1G;
    l1.set_entry(1, block_desc(phys, normal_block_attrs()));
}

/// What the MMU makes of the virtual address `va` under TCR_VALUE (4 KiB
/// granule, 32-bit address space, so the walk starts at level 1) with the
/// level-1 table `l1`: `Some((pa, attrs))` where a block maps `va` to the
/// physical address `pa` with the block attributes `attrs`, `None` on a
/// translation fault. The walk knows one level-2 table, `l2` at `l2_addr`;
/// a table descriptor that points elsewhere, or a level-2 table descriptor,
/// gives `None` here.
pub open spec fn translate(l1: Seq<u64>, l2_addr: u64, l2: Seq<u64>, va: u64) -> Option<(u64, u64)> {
    if va >= 0x1_0000_0000 {
        None
    } else {
        let d1 = l1[(va >> PAGE_SHIFT_1G) as int];
        if d1 & DESC_VALID == 0 {
            None
        } else if d1 & DESC_TABLE == 0 {
            Some(((d1 & BLOCK_1G_ADDR_MASK) | (va & 0x3fff_ffff), d1 & BLOCK_ATTR_MASK))
        } else if d1 & TABLE_ADDR_MASK != l2_addr {
            None
        } else {
            let d2 = l2[((va >> PAGE_SHIFT_2M) & 0x1ff) as int];
            if d2 & DESC_VALID == 0 {
                None
            } else if d2 & DESC_TABLE == 0 {
                Some(((d2 & BLOCK_2M_ADDR_MASK) | (va & 0x1f_ffff), d2 & BLOCK_ATTR_MASK))
            } else {
                None
            }
        }
    }
}

/// Under the identity map built over empty tables, with the level-2 table at
/// a 4 KiB-aligned address below 2^48, every address of the first GiB maps
/// to itself as device memory, every address of the second GiB maps to
/// itself as normal memory, and every other address faults.
pub proof fn lemma_identity_map(l2_addr: u64, va: u64)
    requires
        l2_addr & TABLE_ADDR_MASK == l2_addr,
    ensures
        ({
            let l1 = identity_l1(Seq::new(ENTRY_COUNT as nat, |i: int| 0u64), l2_addr);
            let t = translate(l1, l2_addr, identity_l2(), va);
            &&& va < 0x4000_0000 ==> t == Some((va, device_attrs()))
            &&& 0x4000_0000 <= va < 0x8000_0000 ==> t == Some((va, normal_attrs()))
            &&& 0x8000_0000 <= va ==> t is None
        }),
{
    let l1 = identity_l1(Seq::new(ENTRY_COUNT as nat, |i: int| 0u64), l2_addr);
    let l2 = identity_l2();
    lemma_constant_values();
    if va < 0x4000_0000 {
        assert(va >> 30u64 == 0) by (bit_vector)
            requires
                va < 0x4000_0000,
        ;
        let d1 = table_descriptor(l2_addr);
        assert(l1[0] == d1);
        assert(d1 & 1 != 0 && d1 & 2 != 0 && d1 & 0x0000_ffff_ffff_f000 == l2_addr) by (bit_vector)
            requires
                d1 == l2_addr | 1u64 | 2u64,
                l2_addr & 0x0000_ffff_ffff_f000 == l2_addr,
        ;
        let i2 = (va >> 21u64) & 0x1ff;
        assert(i2 < 512) by (bit_vector)
            requires
                i2 == (va >> 21u64) & 0x1ff,
        ;
        let d2 = l2[i2 as int];
        assert(d2 == block_descriptor(i2 << 21u64, device_attrs()));
        assert(d2 & 1 != 0 && d2 & 2 == 0 && ((d2 & 0x0000_ffff_ffe0_0000) | (va & 0x1f_ffff)) == va
            && d2 & 0xfff0_0000_0000_0ffc == 0x0060_0000_0000_0400u64) by (bit_vector)
            requires
                va < 0x4000_0000,
                i2 == (va >> 21u64) & 0x1ff,
                d2 == (i2 << 21u64) | 1u64 | 0u64 | (0u64 | 0x400u64 | 0x0020_0000_0000_0000u64
                    | 0x0040_0000_0000_0000u64),
        ;
    } else if va < 0x8000_0000 {
        assert(va >> 30u64 == 1) by (bit_vector)
            requires
                0x4000_0000 <= va < 0x8000_0000,
        ;
        let d1 = block_descriptor(1u64 << 30u64, normal_attrs());
        assert(l1[1] == d1);
        assert(d1 & 1 != 0 && d1 & 2 == 0 && ((d1 & 0x0000_ffff_c000_0000) | (va & 0x3fff_ffff)) == va
            && d1 & 0xfff0_0000_0000_0ffc == 0x704u64) by (bit_vector)
            requires
                0x4000_0000 <= va < 0x8000_0000,
                d1 == (1u64 << 30u64) | 1u64 | 0u64 | (4u64 | 0x400u64 | 0x300u64),
        ;
    } else if va < 0x1_0000_0000 {
        assert(2 <= va >> 30u64 < 4) by (bit_vector)
            requires
                0x8000_0000 <= va < 0x1_0000_0000,
        ;
        assert(l1[(va >> 30u64) as int] == 0);
        assert(0u64 & 1u64 == 0) by (bit_vector);
    }
}

} // verus!
