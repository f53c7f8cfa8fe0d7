use vstd::prelude::*;

use crate::bits::{is_pow2, lemma_clear_low, lemma_mask_is_mod, lemma_pow2_divides};
use crate::layout::{Layout, valid_layout};

verus! {

/// Size of one physical frame in bytes.
pub const PAGE_SIZE: u64 = 4096;

/// First byte of the physical memory that the allocator manages.
pub const DRAM_START: u64 = 0x4000_0000;

/// One past the last byte of the physical memory that the allocator manages.
pub const DRAM_END: u64 = 0xa000_0000;

/// Number of frames between `DRAM_START` and `DRAM_END`.
pub const PAGE_COUNT: u64 = (DRAM_END - DRAM_START) / PAGE_SIZE;

/// Number of frames that one word of the bitmap records.
pub const WORD_BITS: u64 = 64;

/// Number of words in the bitmap.
pub const BITMAP_WORDS: u64 = (PAGE_COUNT + WORD_BITS - 1) / WORD_BITS;

/// Virtual address at which all physical memory is mapped linearly.
pub const LINEAR_MAP_BASE: u64 = 0xffff_ffff_0000_0000;

/// Whether bit `b` of `w` is set.
pub open spec fn bit_of(w: u64, b: int) -> bool {
    w & (1u64 << (b as u64)) != 0
}

/// Physical address of frame `page`.
pub open spec fn page_addr(page: int) -> int {
    DRAM_START + page * PAGE_SIZE
}

/// Frame that holds physical address `phys`.
pub open spec fn page_of(phys: int) -> int {
    (phys - DRAM_START) / (PAGE_SIZE as int)
}

/// `s` with the entries `start .. start + n` set to `v`.
pub open spec fn mark(s: Seq<bool>, start: int, n: int, v: bool) -> Seq<bool> {
    Seq::new(s.len(), |p: int| if start <= p < start + n { v } else { s[p] })
}

/// Whether the entries `start .. start + n` of `s` are all clear (free).
pub open spec fn range_free(s: Seq<bool>, start: int, n: int) -> bool {
    forall|q: int| start <= q < start + n ==> !#[trigger] s[q]
}

/// Whether a block of `n` frames starting at frame `p` lies within memory,
/// starts at an address that is a multiple of `align`, and is entirely free.
pub open spec fn fits(s: Seq<bool>, p: int, n: int, align: int) -> bool {
    &&& 0 <= p
    &&& p + n <= PAGE_COUNT
    &&& page_addr(p) % align == 0
    &&& range_free(s, p, n)
}

/// Number of frames that a request of `size` bytes takes: at least one, and
/// the size rounded up to whole frames.
pub open spec fn frames_for_size(size: int) -> int {
    if size == 0 {
        1
    } else {
        (size + PAGE_SIZE - 1) / (PAGE_SIZE as int)
    }
}

/// Alignment that an allocation for a layout aligned to `align` gets: the
/// larger of `align` and `PAGE_SIZE`.
pub open spec fn alloc_align(align: int) -> int {
    if align > PAGE_SIZE {
        align
    } else {
        PAGE_SIZE as int
    }
}

/// Whether a free of `n` frames at `phys` is carried out: the allocator is
/// initialised, `phys` is a frame address within `DRAM_START .. DRAM_END`, and
/// the block ends at or before `DRAM_END`.
pub open spec fn free_accepted(initialized: bool, phys: int, n: int) -> bool {
    &&& initialized
    &&& DRAM_START <= phys < DRAM_END
    &&& phys % (PAGE_SIZE as int) == 0
    &&& page_of(phys) + n <= PAGE_COUNT
}

/// Number of clear (free) entries in `s`.
pub open spec fn count_free(s: Seq<bool>) -> nat
    decreases s.len(),
{
    if s.len() == 0 {
        0
    } else {
        count_free(s.drop_last()) + if s.last() {
            0nat
        } else {
            1nat
        }
    }
}

/// The number of free frames is the number of entries of the map that are
/// clear.
pub proof fn lemma_count_free_is_filter(s: Seq<bool>)
    ensures
        count_free(s) == s.filter(|b: bool| !b).len(),
    decreases s.len(),
{
    reveal(Seq::filter);
    if s.len() > 0 {
        lemma_count_free_is_filter(s.drop_last());
    }
}

/// There are no more free entries than entries.
pub proof fn lemma_count_free_le(s: Seq<bool>)
    ensures
        count_free(s) <= s.len(),
    decreases s.len(),
{
    if s.len() > 0 {
        lemma_count_free_le(s.drop_last());
    }
}

proof fn lemma_count_free_step(s: Seq<bool>, i: int)
    requires
        0 <= i < s.len(),
    ensures
        count_free(s.take(i + 1)) == count_free(s.take(i)) + if s[i] {
            0nat
        } else {
            1nat
        },
{
    assert(s.take(i + 1).drop_last() =~= s.take(i));
}

/// Whether the entries `start .. start + n` of `s` are all set (in use).
pub open spec fn range_used(s: Seq<bool>, start: int, n: int) -> bool {
    forall|q: int| start <= q < start + n ==> #[trigger] s[q]
}

/// Marking a block of free frames in use and then marking it free again
/// gives back the map that there was before.
pub proof fn lemma_free_undoes_alloc(s: Seq<bool>, p: int, n: int)
    requires
        0 <= p,
        0 <= n,
        p + n <= s.len(),
        range_free(s, p, n),
    ensures
        mark(mark(s, p, n, true), p, n, false) == s,
{
    assert(mark(mark(s, p, n, true), p, n, false) =~= s);
}

/// Marking a block of `n` free frames in use takes exactly `n` from the
/// number of free frames.
pub proof fn lemma_alloc_count(s: Seq<bool>, p: int, n: int)
    requires
        0 <= p,
        0 <= n,
        p + n <= s.len(),
        range_free(s, p, n),
    ensures
        count_free(mark(s, p, n, true)) + n == count_free(s),
    decreases s.len(),
{
    let t = mark(s, p, n, true);
    if n == 0 {
        assert(t =~= s);
    } else if p + n == s.len() {
        assert(t.drop_last() =~= mark(s.drop_last(), p, n - 1, true));
        lemma_alloc_count(s.drop_last(), p, n - 1);
    } else {
        assert(t.drop_last() =~= mark(s.drop_last(), p, n, true));
        lemma_alloc_count(s.drop_last(), p, n);
    }
}

/// Marking a block of `n` frames in use free adds exactly `n` to the number
/// of free frames.
pub proof fn lemma_free_count(s: Seq<bool>, p: int, n: int)
    requires
        0 <= p,
        0 <= n,
        p + n <= s.len(),
        range_used(s, p, n),
    ensures
        count_free(mark(s, p, n, false)) == count_free(s) + n,
    decreases s.len(),
{
    let t = mark(s, p, n, false);
    if n == 0 {
        assert(t =~= s);
    } else if p + n == s.len() {
        assert(t.drop_last() =~= mark(s.drop_last(), p, n - 1, false));
        lemma_free_count(s.drop_last(), p, n - 1);
    } else {
        assert(t.drop_last() =~= mark(s.drop_last(), p, n, false));
        lemma_free_count(s.drop_last(), p, n);
    }
}

/// The physical address of a block that fits is one that a free of the same
/// number of frames accepts, and it names the same first frame.
pub proof fn lemma_allocated_block_is_freeable(s: Seq<bool>, p: int, n: int, align: int)
    requires
        s.len() == PAGE_COUNT,
        n >= 1,
        fits(s, p, n, align),
    ensures
        page_of(page_addr(p)) == p,
        free_accepted(true, page_addr(p), n),
{
    assert(page_of(page_addr(p)) == p) by (nonlinear_arith)
        requires
            p >= 0,
    ;
    assert(page_addr(p) % (PAGE_SIZE as int) == 0) by (nonlinear_arith)
        requires
            p >= 0,
    ;
    assert(page_addr(p) < DRAM_END) by (nonlinear_arith)
        requires
            0 <= p < PAGE_COUNT,
    ;
}

/// Freeing, with the same number of frames, the block that an allocation
/// handed out is accepted, gives back the frame map that there was before the
/// allocation, and with it the number of free frames.
pub proof fn lemma_alloc_then_free(s: Seq<bool>, p: int, n: int, align: int)
    requires
        s.len() == PAGE_COUNT,
        n >= 1,
        fits(s, p, n, align),
    ensures
        free_accepted(true, page_addr(p), n),
        mark(mark(s, p, n, true), page_of(page_addr(p)), n, false) == s,
        count_free(mark(s, p, n, true)) + n == count_free(s),
{
    lemma_allocated_block_is_freeable(s, p, n, align);
    lemma_free_undoes_alloc(s, p, n);
    lemma_alloc_count(s, p, n);
}

/// Frame numbers and frame addresses convert into each other: every frame
/// has an address in DRAM that names it again, and every frame-aligned
/// address in DRAM names a frame whose address it is.
pub proof fn lemma_page_addr_round_trip(n: int, phys: int)
    ensures
        0 <= n < PAGE_COUNT ==> page_of(page_addr(n)) == n && DRAM_START <= page_addr(n)
            < DRAM_END && page_addr(n) % (PAGE_SIZE as int) == 0,
        DRAM_START <= phys < DRAM_END && phys % (PAGE_SIZE as int) == 0 ==> page_addr(
            page_of(phys),
        ) == phys && 0 <= page_of(phys) < PAGE_COUNT,
{
    if 0 <= n < PAGE_COUNT {
        assert(page_of(page_addr(n)) == n && DRAM_START <= page_addr(n) < DRAM_END
            && page_addr(n) % (PAGE_SIZE as int) == 0) by (nonlinear_arith)
            requires
                0 <= n < PAGE_COUNT,
        ;
    }
    if DRAM_START <= phys < DRAM_END && phys % (PAGE_SIZE as int) == 0 {
        assert(page_addr(page_of(phys)) == phys && 0 <= page_of(phys) < PAGE_COUNT)
            by (nonlinear_arith)
            requires
                DRAM_START <= phys < DRAM_END,
                phys % (PAGE_SIZE as int) == 0,
        ;
    }
}

/// A free of `n >= 1` frames at `phys` is carried out, once the allocator is
/// initialised, exactly when `phys` is the address of a frame and the `n`
/// frames from there all lie within DRAM.
pub proof fn lemma_free_accepted(phys: int, n: int)
    requires
        n >= 1,
    ensures
        free_accepted(true, phys, n) <==> (exists|p: int|
            0 <= p && p + n <= PAGE_COUNT && #[trigger] page_addr(p) == phys),
{
    if free_accepted(true, phys, n) {
        lemma_page_addr_round_trip(0, phys);
        assert(page_addr(page_of(phys)) == phys);
    }
    if exists|p: int| 0 <= p && p + n <= PAGE_COUNT && #[trigger] page_addr(p) == phys {
        let p = choose|p: int| 0 <= p && p + n <= PAGE_COUNT && #[trigger] page_addr(p) == phys;
        lemma_page_addr_round_trip(p, 0);
    }
}

/// Marking a block in use leaves every frame that was in use in use, and
/// the block itself in use.
pub proof fn lemma_alloc_keeps_used(s: Seq<bool>, p: int, n: int)
    ensures
        mark(s, p, n, true).len() == s.len(),
        forall|q: int| 0 <= q < s.len() && #[trigger] s[q] ==> mark(s, p, n, true)[q],
        0 <= p && p + n <= s.len() ==> range_used(mark(s, p, n, true), p, n),
{
}

/// A block that is in use is never handed out again: any block that fits
/// in the map, with at least one frame, lies wholly before or wholly after
/// a live block of at least one frame, and so do their addresses.
pub proof fn lemma_live_block_not_reallocated(
    s: Seq<bool>,
    p1: int,
    n1: int,
    p2: int,
    n2: int,
    align: int,
)
    requires
        0 <= p1,
        n1 >= 1,
        p1 + n1 <= s.len(),
        range_used(s, p1, n1),
        n2 >= 1,
        fits(s, p2, n2, align),
    ensures
        p1 + n1 <= p2 || p2 + n2 <= p1,
        page_addr(p1) + n1 * PAGE_SIZE <= page_addr(p2) || page_addr(p2) + n2 * PAGE_SIZE
            <= page_addr(p1),
{
    if !(p1 + n1 <= p2 || p2 + n2 <= p1) {
        let q = if p1 <= p2 {
            p2
        } else {
            p1
        };
        assert(s[q]);
        assert(!s[q]);
    }
    if p1 + n1 <= p2 {
        assert(page_addr(p1) + n1 * PAGE_SIZE <= page_addr(p2)) by (nonlinear_arith)
            requires
                p1 + n1 <= p2,
        ;
    } else {
        assert(page_addr(p2) + n2 * PAGE_SIZE <= page_addr(p1)) by (nonlinear_arith)
            requires
                p2 + n2 <= p1,
        ;
    }
}

/// The number of frames for a request of `size` bytes is the least number,
/// at least one, of frames that hold all `size` bytes: every byte of the
/// block lies in the frames that are allocated and freed together, and one
/// frame fewer would not hold them.
pub proof fn lemma_frames_for_size(size: int)
    requires
        0 <= size,
    ensures
        frames_for_size(size) >= 1,
        frames_for_size(size) * PAGE_SIZE >= size,
        frames_for_size(size) == 1 || (frames_for_size(size) - 1) * PAGE_SIZE < size,
{
    if size > 0 {
        let n = frames_for_size(size);
        assert(n >= 1 && n * 4096 >= size && (n == 1 || (n - 1) * 4096 < size)) by (nonlinear_arith)
            requires
                size > 0,
                n == (size + 4095) / 4096,
        ;
    }
}

proof fn lemma_multiple_of_multiple(x: int, a: int, b: int)
    requires
        a > 0,
        b > 0,
        b % a == 0,
        x % b == 0,
    ensures
        x % a == 0,
{
    let m = b / a;
    vstd::arithmetic::div_mod::lemma_fundamental_div_mod(b, a);
    assert(b == a * m);
    vstd::arithmetic::div_mod::lemma_mod_mod(x, a, m);
}

/// The alignment that an allocation for a layout aligned to the power of two
/// `align` gets is exactly right: an address is a multiple of it when, and
/// only when, it is a multiple of both `align` and `PAGE_SIZE`.
pub proof fn lemma_alloc_align(align: u64, x: int)
    requires
        is_pow2(align),
    ensures
        alloc_align(align as int) > 0,
        x % alloc_align(align as int) == 0 <==> (x % (align as int) == 0 && x % (PAGE_SIZE as int)
            == 0),
{
    lemma_page_size_pow2();
    if align > PAGE_SIZE {
        lemma_pow2_divides(PAGE_SIZE, align);
        if x % (align as int) == 0 {
            lemma_multiple_of_multiple(x, PAGE_SIZE as int, align as int);
        }
    } else {
        lemma_pow2_divides(align, PAGE_SIZE);
        if x % (PAGE_SIZE as int) == 0 {
            lemma_multiple_of_multiple(x, align as int, PAGE_SIZE as int);
        }
    }
}

proof fn lemma_round_up(v: int, a: int)
    requires
        0 <= v,
        0 < a,
    ensures
        round_up(v, a) % a == 0,
        v <= round_up(v, a) < v + a,
{
    let q = (v + a - 1) / a;
    vstd::arithmetic::div_mod::lemma_fundamental_div_mod(v + a - 1, a);
    vstd::arithmetic::mul::lemma_mul_is_commutative(q, a);
    vstd::arithmetic::div_mod::lemma_mod_multiples_basic(q, a);
}

/// After initialisation with the kernel image ending at linear address
/// `kernel_end_linear`, frame `p` stays in use exactly when its address lies
/// below the kernel's physical end: the first free frame is the lowest frame
/// that does not start below that end (nor below `DRAM_START`).
pub proof fn lemma_first_free_page(kernel_end_linear: int, p: int)
    requires
        LINEAR_MAP_BASE <= kernel_end_linear <= u64::MAX,
        0 <= p,
    ensures
        (p < first_free_page(kernel_end_linear)) <==> (page_addr(p) < kernel_end_linear
            - LINEAR_MAP_BASE),
{
    let e = kernel_end_linear - LINEAR_MAP_BASE;
    let kernel_end = round_up(e, PAGE_SIZE as int);
    lemma_round_up(e, PAGE_SIZE as int);
    let m = page_addr(p);
    assert(m % 4096 == 0 && m >= DRAM_START) by (nonlinear_arith)
        requires
            m == 0x4000_0000 + p * 4096,
            p >= 0,
    ;
    if kernel_end < DRAM_START {
        assert(first_free_page(kernel_end_linear) == 0);
    } else {
        let f = first_free_page(kernel_end_linear);
        assert(f == (kernel_end - DRAM_START) / 4096);
        assert((p < f) <==> (m < kernel_end)) by (nonlinear_arith)
            requires
                f == (kernel_end - 0x4000_0000) / 4096,
                kernel_end % 4096 == 0,
                kernel_end >= 0x4000_0000,
                m == 0x4000_0000 + p * 4096,
                p >= 0,
        ;
        assert((m < kernel_end) <==> (m < e)) by (nonlinear_arith)
            requires
                m % 4096 == 0,
                kernel_end % 4096 == 0,
                e <= kernel_end < e + 4096,
        ;
    }
}

/// First frame that is free after initialisation, given the linear address
/// at which the kernel image ends.
pub open spec fn first_free_page(kernel_end_linear: int) -> int {
    let kernel_end = round_up(kernel_end_linear - LINEAR_MAP_BASE, PAGE_SIZE as int);
    let first_free = if kernel_end < DRAM_START {
        DRAM_START as int
    } else {
        kernel_end
    };
    page_of(first_free)
}

/// The smallest multiple of `align` that is at least `value`.
pub open spec fn round_up(value: int, align: int) -> int {
    ((value + align - 1) / align) * align
}

/// Rounds `value` up to a multiple of the power of two `align`.
fn align_up(value: u64, align: u64) -> (r: u64)
    requires
        is_pow2(align),
        value + align - 1 <= u64::MAX,
    ensures
        r == round_up(value as int, align as int),
        r % align == 0,
        value <= r < value + align,
{
    let x = value + (align - 1);
    let r = x & !(align - 1);
    proof {
        lemma_clear_low(x, (align - 1) as u64);
        lemma_mask_is_mod(x, align);
        let q = x as int / align as int;
        vstd::arithmetic::div_mod::lemma_fundamental_div_mod(x as int, align as int);
        vstd::arithmetic::mul::lemma_mul_is_commutative(q, align as int);
        assert(r == q * align);
        vstd::arithmetic::div_mod::lemma_mod_multiples_basic(q, align as int);
    }
    r
}

proof fn lemma_page_size_pow2()
    ensures
        is_pow2(PAGE_SIZE),
{
    assert(4096u64 & 4095u64 == 0) by (bit_vector);
}

/// Frame that holds the physical address `phys`.
fn phys_to_page(phys: u64) -> (r: u64)
    requires
        DRAM_START <= phys,
    ensures
        r == page_of(phys as int),
{
    (phys - DRAM_START) / PAGE_SIZE
}

/// Physical address of frame `page`.
fn page_to_phys(page: u64) -> (r: u64)
    requires
        page <= PAGE_COUNT,
    ensures
        r == page_addr(page as int),
{
    DRAM_START + page * PAGE_SIZE
}

/// Linear-map virtual address of the physical address `phys`.
fn phys_to_virt(phys: u64) -> (r: u64)
    requires
        phys < DRAM_END,
    ensures
        r == phys + LINEAR_MAP_BASE,
{
    phys + LINEAR_MAP_BASE
}

/// Number of frames that `layout` takes.
fn pages_for(layout: &Layout) -> (r: u64)
    ensures
        r == frames_for_size(layout.spec_size() as int),
        1 <= r <= 0x8_0000_0000_0000,
        r * PAGE_SIZE >= layout.spec_size(),
        r == 1 || (r - 1) * PAGE_SIZE < layout.spec_size(),
{
    let size = if layout.size() == 0 {
        1
    } else {
        layout.size()
    };
    proof {
        lemma_page_size_pow2();
    }
    let up = align_up(size, PAGE_SIZE);
    proof {
        lemma_frames_for_size(layout.spec_size() as int);
    }
    up / PAGE_SIZE
}

proof fn lemma_bit_update(w: u64, b: u64, c: u64)
    requires
        b < 64,
        c < 64,
    ensures
        ((w | (1u64 << b)) & (1u64 << c) != 0) == (c == b || w & (1u64 << c) != 0),
        ((w & !(1u64 << b)) & (1u64 << c) != 0) == (c != b && w & (1u64 << c) != 0),
{
    assert(((w | (1u64 << b)) & (1u64 << c) != 0) == (c == b || w & (1u64 << c) != 0))
        by (bit_vector)
        requires
            b < 64,
            c < 64,
    ;
    assert(((w & !(1u64 << b)) & (1u64 << c) != 0) == (c != b && w & (1u64 << c) != 0))
        by (bit_vector)
        requires
            b < 64,
            c < 64,
    ;
}

proof fn lemma_full_word(c: u64)
    requires
        c < 64,
    ensures
        u64::MAX & (1u64 << c) != 0,
{
    assert(u64::MAX & (1u64 << c) != 0) by (bit_vector)
        requires
            c < 64,
    ;
}

/// A first-fit allocator of physical frames, which records in a bitmap, one
/// bit per frame, whether each frame between `DRAM_START` and `DRAM_END` is in
/// use.
pub struct KernelAllocator {
    bitmap: Vec<u64>,
    initialized: bool,
}

impl View for KernelAllocator {
    type V = Seq<bool>;

    /// For each frame, whether it is in use.
    closed spec fn view(&self) -> Seq<bool> {
        Seq::new(PAGE_COUNT as nat, |p: int| bit_of(self.bitmap@[p / 64], p % 64))
    }
}

impl KernelAllocator {
    /// The map has an entry for every frame, and the bitmap a bit for each.
    pub open spec fn wf(&self) -> bool {
        &&& self@.len() == PAGE_COUNT
        &&& self.bitmap_sized()
    }

    /// The bitmap has `BITMAP_WORDS` words.
    pub closed spec fn bitmap_sized(&self) -> bool {
        self.bitmap@.len() == BITMAP_WORDS
    }

    /// The map has one entry for each frame between `DRAM_START` and
    /// `DRAM_END`.
    pub proof fn lemma_view_len(&self)
        ensures
            self@.len() == PAGE_COUNT,
    {
    }

    /// Whether `init` has run.
    pub closed spec fn is_initialized(&self) -> bool {
        self.initialized
    }

    /// An allocator before `init`: every frame is in use, and nothing can be
    /// allocated or freed.
    pub fn new() -> (r: Self)
        ensures
            r.wf(),
            !r.is_initialized(),
            r@ == Seq::new(PAGE_COUNT as nat, |p: int| true),
    {
        let mut bitmap: Vec<u64> = Vec::new();
        let mut i: u64 = 0;
        while i < BITMAP_WORDS
            invariant
                i <= BITMAP_WORDS,
                bitmap@.len() == i,
                forall|j: int| 0 <= j < i ==> bitmap@[j] == u64::MAX,
            decreases BITMAP_WORDS - i,
        {
            bitmap.push(u64::MAX);
            i = i + 1;
        }
        let r = KernelAllocator { bitmap, initialized: false };
        proof {
            assert forall|p: int| 0 <= p < PAGE_COUNT implies #[trigger] r@[p] by {
                lemma_full_word((p % 64) as u64);
            }
            assert(r@ =~= Seq::new(PAGE_COUNT as nat, |p: int| true));
        }
        r
    }

    fn is_used(&self, page: u64) -> (r: bool)
        requires
            self.wf(),
            page < PAGE_COUNT,
        ensures
            r == self@[page as int],
    {
        let word = (page / WORD_BITS) as usize;
        let bit = page % WORD_BITS;
        self.bitmap[word] & (1u64 << bit) != 0
    }

    fn set_used(&mut self, page: u64, used: bool)
        requires
            old(self).wf(),
            page < PAGE_COUNT,
        ensures
            final(self).wf(),
            final(self).initialized == old(self).initialized,
            final(self)@ == old(self)@.update(page as int, used),
    {
        let word = (page / WORD_BITS) as usize;
        let bit = page % WORD_BITS;
        let mask = 1u64 << bit;
        let ghost before = self@;
        let w = self.bitmap[word];
        if used {
            self.bitmap.set(word, w | mask);
        } else {
            self.bitmap.set(word, w & !mask);
        }
        proof {
            assert forall|p: int| 0 <= p < PAGE_COUNT implies #[trigger] self@[p] == before.update(
                page as int,
                used,
            )[p] by {
                lemma_bit_update(w, bit, (p % 64) as u64);
            }
            assert(self@ =~= before.update(page as int, used));
        }
    }

    /// Searches the frames from the lowest up for the first block of `pages`
    /// free frames whose address is a multiple of `align`, marks it in use and
    /// returns its physical address. Returns `None`, and changes nothing,
    /// where `pages` is 0, the allocator is not initialised, or no such block
    /// exists.
    fn alloc_pages(&mut self, pages: u64, align: u64) -> (r: Option<u64>)
        requires
            old(self).wf(),
            is_pow2(align),
            pages <= 0x8_0000_0000_0000,
        ensures
            final(self).wf(),
            final(self).initialized == old(self).initialized,
            r is Some <==> (pages > 0 && old(self).initialized && exists|p: int|
                #[trigger] fits(old(self)@, p, pages as int, align as int)),
            r matches Some(phys) ==> {
                let p = page_of(phys as int);
                &&& phys == page_addr(p)
                &&& fits(old(self)@, p, pages as int, align as int)
                &&& forall|q: int| 0 <= q < p ==> !#[trigger] fits(old(self)@, q, pages as int, align as int)
                &&& final(self)@ == mark(old(self)@, p, pages as int, true)
                &&& count_free(final(self)@) + pages == count_free(old(self)@)
            },
            r is None ==> final(self)@ == old(self)@,
    {
        if pages == 0 || !self.initialized {
            return None;
        }
        let ghost s = self@;
        let mut page: u64 = 0;
        while page + pages <= PAGE_COUNT
            invariant
                self.wf(),
                self@ == s,
                s == old(self)@,
                self.initialized,
                old(self).initialized,
                is_pow2(align),
                0 < pages <= 0x8_0000_0000_0000,
                page <= PAGE_COUNT,
                forall|q: int| 0 <= q < page ==> !#[trigger] fits(s, q, pages as int, align as int),
            decreases PAGE_COUNT - page,
        {
            let phys = page_to_phys(page);
            proof {
                lemma_mask_is_mod(phys, align);
            }
            if phys & (align - 1) != 0 {
                page = page + 1;
            } else {
                let mut offset: u64 = 0;
                let mut blocked = false;
                while offset < pages && !blocked
                    invariant
                        self.wf(),
                        self@ == s,
                        page + pages <= PAGE_COUNT,
                        offset <= pages,
                        range_free(s, page as int, offset as int),
                        blocked ==> offset < pages && s[page + offset],
                    decreases pages - offset + if blocked { 0int } else { 1int },
                {
                    if self.is_used(page + offset) {
                        blocked = true;
                    } else {
                        offset = offset + 1;
                    }
                }
                if blocked {
                    proof {
                        assert forall|q: int| 0 <= q < page + offset + 1 implies !#[trigger] fits(
                            s,
                            q,
                            pages as int,
                            align as int,
                        ) by {
                            if q >= page {
                                assert(s[page + offset]);
                            }
                        }
                    }
                    page = page + offset + 1;
                } else {
                    let ghost p = page as int;
                    assert(fits(s, p, pages as int, align as int));
                    let mut allocated: u64 = page;
                    while allocated < page + pages
                        invariant
                            self.wf(),
                            self.initialized,
                            page <= allocated <= page + pages,
                            page + pages <= PAGE_COUNT,
                            self@ == mark(s, page as int, allocated - page, true),
                        decreases page + pages - allocated,
                    {
                        self.set_used(allocated, true);
                        proof {
                            assert(self@ =~= mark(s, page as int, allocated + 1 - page, true));
                        }
                        allocated = allocated + 1;
                    }
                    proof {
                        lemma_alloc_count(s, p, pages as int);
                        assert(page_of(phys as int) == p) by (nonlinear_arith)
                            requires
                                phys == DRAM_START + p * PAGE_SIZE,
                                p >= 0,
                        ;
                    }
                    return Some(phys);
                }
            }
        }
        None
    }

    /// Marks every frame in use, then frees the frames from the first page
    /// boundary after the kernel image (or from `DRAM_START`, whichever is
    /// higher) up to `DRAM_END`, and enables allocation. `kernel_end_linear`
    /// is the linear-map address at which the kernel image ends.
    pub fn init(&mut self, kernel_end_linear: u64)
        requires
            old(self).wf(),
            kernel_end_linear >= LINEAR_MAP_BASE,
        ensures
            final(self).wf(),
            final(self).is_initialized(),
            final(self)@ == Seq::new(
                PAGE_COUNT as nat,
                |p: int| p < first_free_page(kernel_end_linear as int),
            ),
            forall|p: int|
                0 <= p < PAGE_COUNT ==> (#[trigger] final(self)@[p] <==> page_addr(p) < kernel_end_linear
                    - LINEAR_MAP_BASE),
    {
        let mut word: usize = 0;
        while word < BITMAP_WORDS as usize
            invariant
                self.bitmap@.len() == BITMAP_WORDS,
                word <= BITMAP_WORDS,
                forall|j: int| 0 <= j < word ==> self.bitmap@[j] == u64::MAX,
            decreases BITMAP_WORDS - word,
        {
            self.bitmap.set(word, u64::MAX);
            word = word + 1;
        }
        proof {
            assert forall|p: int| 0 <= p < PAGE_COUNT implies #[trigger] self@[p] by {
                lemma_full_word((p % 64) as u64);
            }
            lemma_page_size_pow2();
        }
        let kernel_end = align_up(kernel_end_linear - LINEAR_MAP_BASE, PAGE_SIZE);
        let first_free = if kernel_end < DRAM_START {
            DRAM_START
        } else {
            kernel_end
        };
        let start_page = phys_to_page(first_free);
        assert(start_page == first_free_page(kernel_end_linear as int));
        let mut page = start_page;
        while page < PAGE_COUNT
            invariant
                self.wf(),
                start_page <= page,
                forall|p: int|
                    0 <= p < PAGE_COUNT ==> #[trigger] self@[p] == (p < start_page || page
                        <= p),
            decreases PAGE_COUNT - page,
        {
            self.set_used(page, false);
            page = page + 1;
        }
        proof {
            assert forall|p: int| 0 <= p < PAGE_COUNT implies #[trigger] self@[p] == (p
                < start_page) by {}
            assert(self@ =~= Seq::new(
                PAGE_COUNT as nat,
                |p: int| p < first_free_page(kernel_end_linear as int),
            ));
            assert forall|p: int| 0 <= p < PAGE_COUNT implies (#[trigger] self@[p] <==> page_addr(p)
                < kernel_end_linear - LINEAR_MAP_BASE) by {
                lemma_first_free_page(kernel_end_linear as int, p);
            }
        }
        self.initialized = true;
    }

    /// Allocates one frame: the lowest free frame, marked in use. Returns its
    /// physical address, or `None` where the allocator is not initialised or
    /// no frame is free.
    pub fn alloc_frame(&mut self) -> (r: Option<u64>)
        requires
            old(self).wf(),
        ensures
            final(self).wf(),
            final(self).is_initialized() == old(self).is_initialized(),
            r is Some <==> (old(self).is_initialized() && exists|p: int|
                #[trigger] fits(old(self)@, p, 1, PAGE_SIZE as int)),
            r matches Some(phys) ==> {
                let p = page_of(phys as int);
                &&& phys == page_addr(p)
                &&& fits(old(self)@, p, 1, PAGE_SIZE as int)
                &&& forall|q: int| 0 <= q < p ==> !#[trigger] fits(old(self)@, q, 1, PAGE_SIZE as int)
                &&& final(self)@ == mark(old(self)@, p, 1, true)
                &&& count_free(final(self)@) + 1 == count_free(old(self)@)
            },
            r is None ==> final(self)@ == old(self)@,
    {
        proof {
            lemma_page_size_pow2();
        }
        self.alloc_pages(1, PAGE_SIZE)
    }

    /// Allocates the lowest block of free frames that holds `layout.size()`
    /// bytes (at least one frame) and starts at a multiple of both
    /// `layout.align()` and `PAGE_SIZE`; marks it in use and returns its
    /// physical address. Returns `None`, and changes nothing, where the
    /// allocator is not initialised or no such block exists.
    pub fn alloc_phys(&mut self, layout: &Layout) -> (r: Option<u64>)
        requires
            old(self).wf(),
        ensures
            final(self).wf(),
            final(self).is_initialized() == old(self).is_initialized(),
            ({
                let n = frames_for_size(layout.spec_size() as int);
                let a = alloc_align(layout.spec_align() as int);
                &&& r is Some <==> (old(self).is_initialized() && exists|p: int|
                    #[trigger] fits(old(self)@, p, n, a))
                &&& r matches Some(phys) ==> {
                    &&& (phys as int) % (layout.spec_align() as int) == 0
                    &&& (phys as int) % (PAGE_SIZE as int) == 0
                    &&& forall|q: int|
                        0 <= q < page_of(phys as int) && q + n <= PAGE_COUNT
                            && #[trigger] range_free(old(self)@, q, n) ==> page_addr(q) % (
                        layout.spec_align() as int) != 0
                }
                &&& r matches Some(phys) ==> {
                    let p = page_of(phys as int);
                    &&& phys == page_addr(p)
                    &&& fits(old(self)@, p, n, a)
                    &&& forall|q: int| 0 <= q < p ==> !#[trigger] fits(old(self)@, q, n, a)
                    &&& final(self)@ == mark(old(self)@, p, n, true)
                    &&& count_free(final(self)@) + n == count_free(old(self)@)
                }
            }),
            r is None ==> final(self)@ == old(self)@,
    {
        let pages = pages_for(layout);
        let layout_align = layout.align();
        let align = if layout_align > PAGE_SIZE {
            layout_align
        } else {
            PAGE_SIZE
        };
        proof {
            lemma_page_size_pow2();
            assert(align as int == alloc_align(layout.spec_align() as int));
            assert(pages as int == frames_for_size(layout.spec_size() as int));
        }
        let ghost s0 = self@;
        let r = self.alloc_pages(pages, align);
        proof {
            if let Some(phys) = r {
                lemma_alloc_align(layout_align, phys as int);
                assert forall|q: int|
                    0 <= q < page_of(phys as int) && q + pages <= PAGE_COUNT
                        && #[trigger] range_free(s0, q, pages as int) implies page_addr(q) % (
                layout_align as int) != 0 by {
                    lemma_alloc_align(layout_align, page_addr(q));
                    lemma_page_addr_round_trip(q, 0);
                    if page_addr(q) % (layout_align as int) == 0 {
                        assert(fits(s0, q, pages as int, align as int));
                    }
                }
            }
        }
        r
    }

    /// Frees the frames of a block of `layout.size()` bytes (at least one
    /// frame) that starts at `phys`, whether they were in use or not. Returns
    /// `false`, and changes nothing, where the allocator is not initialised,
    /// `phys` is not a frame address within `DRAM_START .. DRAM_END`, or the
    /// block would reach past `DRAM_END`.
    pub fn free_phys(&mut self, phys: u64, layout: &Layout) -> (r: bool)
        requires
            old(self).wf(),
        ensures
            final(self).wf(),
            final(self).is_initialized() == old(self).is_initialized(),
            r == free_accepted(
                old(self).is_initialized(),
                phys as int,
                frames_for_size(layout.spec_size() as int),
            ),
            r ==> final(self)@ == mark(
                old(self)@,
                page_of(phys as int),
                frames_for_size(layout.spec_size() as int),
                false,
            ),
            !r ==> final(self)@ == old(self)@,
    {
        if !self.initialized {
            return false;
        }
        if phys < DRAM_START || phys >= DRAM_END || phys % PAGE_SIZE != 0 {
            return false;
        }
        let pages = pages_for(layout);
        let start_page = phys_to_page(phys);
        if start_page + pages > PAGE_COUNT {
            return false;
        }
        let ghost s = self@;
        let mut page = start_page;
        while page < start_page + pages
            invariant
                self.wf(),
                self.initialized == old(self).initialized,
                start_page <= page <= start_page + pages,
                start_page + pages <= PAGE_COUNT,
                self@ == mark(s, start_page as int, page - start_page, false),
            decreases start_page + pages - page,
        {
            self.set_used(page, false);
            proof {
                assert(self@ =~= mark(s, start_page as int, page + 1 - start_page, false));
            }
            page = page + 1;
        }
        true
    }

    /// Frees the single frame at `phys`, whether it was in use or not.
    /// Returns `false`, and changes nothing, where the allocator is not
    /// initialised or `phys` is not a frame address within
    /// `DRAM_START .. DRAM_END`.
    pub fn free_frame(&mut self, phys: u64) -> (r: bool)
        requires
            old(self).wf(),
        ensures
            final(self).wf(),
            final(self).is_initialized() == old(self).is_initialized(),
            r == free_accepted(old(self).is_initialized(), phys as int, 1),
            r ==> final(self)@ == mark(old(self)@, page_of(phys as int), 1, false),
            !r ==> final(self)@ == old(self)@,
    {
        proof {
            lemma_page_size_pow2();
        }
        match Layout::from_size_align(PAGE_SIZE, PAGE_SIZE) {
            Ok(layout) => self.free_phys(phys, &layout),
            Err(_) => false,
        }
    }

    /// Number of frames that are not in use.
    pub fn free_pages(&self) -> (r: u64)
        requires
            self.wf(),
        ensures
            r == count_free(self@),
    {
        let mut count: u64 = 0;
        let mut page: u64 = 0;
        while page < PAGE_COUNT
            invariant
                self.wf(),
                page <= PAGE_COUNT,
                count == count_free(self@.take(page as int)),
                count <= page,
            decreases PAGE_COUNT - page,
        {
            proof {
                lemma_count_free_step(self@, page as int);
                lemma_count_free_le(self@.take(page + 1));
            }
            if !self.is_used(page) {
                count = count + 1;
            }
            page = page + 1;
        }
        proof {
            assert(self@.take(PAGE_COUNT as int) =~= self@);
        }
        count
    }

    /// Allocates memory for `layout` as `alloc_phys` does and returns the
    /// linear-map virtual address of the block, or 0 where nothing was
    /// allocated.
    pub fn alloc_virt(&mut self, layout: &Layout) -> (r: u64)
        requires
            old(self).wf(),
        ensures
            final(self).wf(),
            final(self).is_initialized() == old(self).is_initialized(),
            ({
                let n = frames_for_size(layout.spec_size() as int);
                let a = alloc_align(layout.spec_align() as int);
                &&& r != 0 <==> (old(self).is_initialized() && exists|p: int|
                    #[trigger] fits(old(self)@, p, n, a))
                &&& r != 0 ==> {
                    &&& (r - LINEAR_MAP_BASE) % (layout.spec_align() as int) == 0
                    &&& (r - LINEAR_MAP_BASE) % (PAGE_SIZE as int) == 0
                    &&& forall|q: int|
                        0 <= q < page_of(r - LINEAR_MAP_BASE) && q + n <= PAGE_COUNT
                            && #[trigger] range_free(old(self)@, q, n) ==> page_addr(q) % (
                        layout.spec_align() as int) != 0
                }
                &&& r != 0 ==> {
                    let p = page_of(r - LINEAR_MAP_BASE);
                    &&& r == page_addr(p) + LINEAR_MAP_BASE
                    &&& fits(old(self)@, p, n, a)
                    &&& forall|q: int| 0 <= q < p ==> !#[trigger] fits(old(self)@, q, n, a)
                    &&& final(self)@ == mark(old(self)@, p, n, true)
                    &&& count_free(final(self)@) + n == count_free(old(self)@)
                }
            }),
            r == 0 ==> final(self)@ == old(self)@,
    {
        match self.alloc_phys(layout) {
            Some(phys) => phys_to_virt(phys),
            None => 0,
        }
    }

    /// Frees the memory at the linear-map virtual address `ptr` as
    /// `free_phys` does. Ignores a null `ptr` and an address below
    /// `LINEAR_MAP_BASE`.
    pub fn dealloc_virt(&mut self, ptr: u64, layout: &Layout)
        requires
            old(self).wf(),
        ensures
            final(self).wf(),
            final(self).is_initialized() == old(self).is_initialized(),
            ({
                let phys = ptr - LINEAR_MAP_BASE;
                let n = frames_for_size(layout.spec_size() as int);
                if ptr >= LINEAR_MAP_BASE && free_accepted(old(self).is_initialized(), phys, n) {
                    final(self)@ == mark(old(self)@, page_of(phys), n, false)
                } else {
                    final(self)@ == old(self)@
                }
            }),
    {
        if ptr == 0 {
            return;
        }
        if ptr < LINEAR_MAP_BASE {
            return;
        }
        let _ = self.free_phys(ptr - LINEAR_MAP_BASE, layout);
    }
}

} // verus!
