use lib::allocator::{KernelAllocator, DRAM_END, DRAM_START, LINEAR_MAP_BASE, PAGE_COUNT, PAGE_SIZE};
use lib::layout::{Layout, LayoutError};

/// Kernel image ending at physical 0x4008_1234: frames 0 to 0x81 hold it.
const KERNEL_END_LINEAR: u64 = LINEAR_MAP_BASE + 0x4008_1234;
const FIRST_FREE: u64 = 0x4008_2000;

fn ready() -> KernelAllocator {
    let mut a = KernelAllocator::new();
    a.init(KERNEL_END_LINEAR);
    a
}

#[test]
fn page_count_covers_dram() {
    assert_eq!(PAGE_COUNT, 0x60000);
    assert_eq!(DRAM_START + PAGE_COUNT * PAGE_SIZE, DRAM_END);
}

#[test]
fn nothing_happens_before_init() {
    let mut a = KernelAllocator::new();
    assert_eq!(a.free_pages(), 0);
    assert_eq!(a.alloc_frame(), None);
    assert!(!a.free_frame(DRAM_START));
    assert_eq!(a.free_pages(), 0);
}

#[test]
fn init_reserves_the_kernel_image() {
    let a = ready();
    assert_eq!(a.free_pages(), PAGE_COUNT - 0x82);
}

#[test]
fn init_with_kernel_below_dram_frees_everything() {
    let mut a = KernelAllocator::new();
    a.init(LINEAR_MAP_BASE + 0x1000);
    assert_eq!(a.free_pages(), PAGE_COUNT);
}

#[test]
fn init_with_kernel_past_dram_frees_nothing() {
    let mut a = KernelAllocator::new();
    a.init(LINEAR_MAP_BASE + 0xb000_0000);
    assert_eq!(a.free_pages(), 0);
    assert_eq!(a.alloc_frame(), None);
}

#[test]
fn alloc_frame_takes_the_lowest_free_frame() {
    let mut a = ready();
    assert_eq!(a.alloc_frame(), Some(FIRST_FREE));
    assert_eq!(a.alloc_frame(), Some(FIRST_FREE + PAGE_SIZE));
    assert_eq!(a.free_pages(), PAGE_COUNT - 0x82 - 2);
}

#[test]
fn free_frame_gives_the_frame_back() {
    let mut a = ready();
    let before = a.free_pages();
    let f = a.alloc_frame().unwrap();
    assert_eq!(a.free_pages(), before - 1);
    assert!(a.free_frame(f));
    assert_eq!(a.free_pages(), before);
    assert_eq!(a.alloc_frame(), Some(f));
}

#[test]
fn freed_hole_is_reused_first() {
    let mut a = ready();
    let f1 = a.alloc_frame().unwrap();
    let f2 = a.alloc_frame().unwrap();
    let _f3 = a.alloc_frame().unwrap();
    assert!(a.free_frame(f2));
    assert_eq!(a.alloc_frame(), Some(f2));
    assert!(a.free_frame(f1));
    let l = Layout::from_size_align(8192, 4096).unwrap();
    // the one-frame hole at f1 is too small for two frames
    assert_eq!(a.alloc_phys(&l), Some(f1 + 3 * PAGE_SIZE));
}

#[test]
fn alloc_phys_rounds_up_to_frames() {
    let mut a = ready();
    let before = a.free_pages();
    let l = Layout::from_size_align(8192, 4096).unwrap();
    let p = a.alloc_phys(&l).unwrap();
    assert_eq!(p, FIRST_FREE);
    assert_eq!(a.free_pages(), before - 2);
    let l2 = Layout::from_size_align(4097, 8).unwrap();
    assert_eq!(a.alloc_phys(&l2), Some(FIRST_FREE + 2 * PAGE_SIZE));
    assert_eq!(a.free_pages(), before - 4);
}

#[test]
fn alloc_phys_of_size_zero_takes_one_frame() {
    let mut a = ready();
    let before = a.free_pages();
    let l = Layout::from_size_align(0, 1).unwrap();
    assert_eq!(a.alloc_phys(&l), Some(FIRST_FREE));
    assert_eq!(a.free_pages(), before - 1);
}

#[test]
fn alloc_phys_honours_large_alignment() {
    let mut a = ready();
    let l = Layout::from_size_align(4096, 0x20_0000).unwrap();
    assert_eq!(a.alloc_phys(&l), Some(0x4020_0000));
    // the frames skipped for alignment are still free
    assert_eq!(a.alloc_frame(), Some(FIRST_FREE));
}

#[test]
fn alloc_phys_then_free_phys_restores_the_count() {
    let mut a = ready();
    let before = a.free_pages();
    let l = Layout::from_size_align(8192, 4096).unwrap();
    let p = a.alloc_phys(&l).unwrap();
    assert!(a.free_phys(p, &l));
    assert_eq!(a.free_pages(), before);
}

#[test]
fn alloc_phys_fails_when_no_block_is_large_enough() {
    let mut a = ready();
    let before = a.free_pages();
    let l = Layout::from_size_align(PAGE_COUNT * PAGE_SIZE, 4096).unwrap();
    assert_eq!(a.alloc_phys(&l), None);
    assert_eq!(a.free_pages(), before);
    let all = Layout::from_size_align((PAGE_COUNT - 0x82) * PAGE_SIZE, 4096).unwrap();
    assert_eq!(a.alloc_phys(&all), Some(FIRST_FREE));
    assert_eq!(a.free_pages(), 0);
    assert_eq!(a.alloc_frame(), None);
}

#[test]
fn free_phys_refuses_bad_addresses() {
    let mut a = ready();
    let before = a.free_pages();
    let l = Layout::from_size_align(8192, 4096).unwrap();
    assert!(!a.free_phys(DRAM_START - PAGE_SIZE, &l));
    assert!(!a.free_phys(DRAM_END, &l));
    assert!(!a.free_phys(FIRST_FREE + 1, &l));
    assert!(!a.free_phys(DRAM_END - PAGE_SIZE, &l));
    assert_eq!(a.free_pages(), before);
    let one = Layout::from_size_align(4096, 4096).unwrap();
    assert!(a.free_phys(DRAM_END - PAGE_SIZE, &one));
}

#[test]
fn free_phys_frees_reserved_frames_too() {
    let mut a = ready();
    let before = a.free_pages();
    assert!(a.free_frame(DRAM_START));
    assert_eq!(a.free_pages(), before + 1);
    assert_eq!(a.alloc_frame(), Some(DRAM_START));
}

#[test]
fn alloc_virt_returns_linear_addresses() {
    let mut a = ready();
    let l = Layout::from_size_align(16, 8).unwrap();
    let v = a.alloc_virt(&l);
    assert_eq!(v, FIRST_FREE + LINEAR_MAP_BASE);
    let before = a.free_pages();
    a.dealloc_virt(v, &l);
    assert_eq!(a.free_pages(), before + 1);
}

#[test]
fn alloc_virt_returns_null_when_not_initialised() {
    let mut a = KernelAllocator::new();
    let l = Layout::from_size_align(16, 8).unwrap();
    assert_eq!(a.alloc_virt(&l), 0);
}

#[test]
fn dealloc_virt_ignores_null_and_low_addresses() {
    let mut a = ready();
    let before = a.free_pages();
    let l = Layout::from_size_align(16, 8).unwrap();
    a.dealloc_virt(0, &l);
    a.dealloc_virt(DRAM_START, &l);
    assert_eq!(a.free_pages(), before);
}

#[test]
fn layout_checks_its_arguments() {
    assert_eq!(Layout::from_size_align(8, 0).err(), Some(LayoutError));
    assert_eq!(Layout::from_size_align(8, 3).err(), Some(LayoutError));
    assert_eq!(Layout::from_size_align(0x7fff_ffff_ffff_f001, 4096).err(), Some(LayoutError));
    let l = Layout::from_size_align(0x7fff_ffff_ffff_f000, 4096).unwrap();
    assert_eq!(l.size(), 0x7fff_ffff_ffff_f000);
    assert_eq!(l.align(), 4096);
    assert!(Layout::from_size_align(0, 0x8000_0000_0000_0000).is_ok());
    assert!(Layout::from_size_align(1, 0x8000_0000_0000_0000).is_err());
}

#[test]
fn main_sequence_leaves_the_count_unchanged() {
    let mut a = ready();
    let before = a.free_pages();
    let frame = a.alloc_frame().unwrap();
    assert!(a.free_frame(frame));
    let l = Layout::from_size_align(8192, 4096).unwrap();
    let phys = a.alloc_phys(&l).unwrap();
    assert!(a.free_phys(phys, &l));
    assert_eq!(a.free_pages(), before);
}
