use vstd::prelude::*;

use crate::bits::is_pow2;

verus! {

/// The largest size, rounded up to its alignment, that a layout may describe
/// (the largest signed 64-bit value).
pub const MAX_LAYOUT_SIZE: u64 = 0x7fff_ffff_ffff_ffff;

/// Whether `size` and `align` describe a valid memory layout: the alignment is
/// a nonzero power of two, and the size rounded up to a multiple of the
/// alignment does not exceed `MAX_LAYOUT_SIZE`.
pub open spec fn valid_layout(size: u64, align: u64) -> bool {
    &&& is_pow2(align)
    &&& size + (align - 1) <= MAX_LAYOUT_SIZE
}

/// A pair of size and power-of-two alignment is a valid layout exactly when
/// the size, rounded up to the nearest multiple of the alignment, does not
/// exceed `MAX_LAYOUT_SIZE`.
pub proof fn lemma_valid_layout(size: u64, align: u64)
    requires
        is_pow2(align),
    ensures
        valid_layout(size, align) <==> ((size + align - 1) / (align as int)) * align
            <= MAX_LAYOUT_SIZE,
{
    let a = align as int;
    let r = ((size + a - 1) / a) * a;
    let top: u64 = 0x8000_0000_0000_0000;
    assert(top != 0 && top & ((top - 1) as u64) == 0) by (bit_vector)
        requires
            top == 0x8000_0000_0000_0000u64,
    ;
    crate::bits::lemma_pow2_bound(align);
    crate::bits::lemma_pow2_divides(align, top);
    vstd::arithmetic::div_mod::lemma_fundamental_div_mod(size + a - 1, a);
    assert(size <= r < size + a) by (nonlinear_arith)
        requires
            size + a - 1 == a * ((size + a - 1) / a) + (size + a - 1) % a,
            0 <= (size + a - 1) % a < a,
            r == ((size + a - 1) / a) * a,
            a > 0,
    ;
    if r <= MAX_LAYOUT_SIZE {
        assert(r % a == 0) by {
            vstd::arithmetic::div_mod::lemma_mod_multiples_basic((size + a - 1) / a, a);
        }
        assert(r <= top - a) by (nonlinear_arith)
            requires
                r % a == 0,
                (top as int) % a == 0,
                r < top,
                a > 0,
        ;
    }
}

/// The size and alignment of a block of memory that is asked for.
pub struct Layout {
    size: u64,
    align: u64,
}

/// The reason a pair of size and alignment was refused as a layout.
#[derive(Debug, PartialEq, Eq, Structural)]
pub struct LayoutError;

impl Layout {
    #[verifier::type_invariant]
    spec fn inv(self) -> bool {
        valid_layout(self.size, self.align)
    }

    pub closed spec fn spec_size(self) -> u64 {
        self.size
    }

    pub closed spec fn spec_align(self) -> u64 {
        self.align
    }

    /// Builds the layout of `size` bytes aligned to `align`, or refuses the
    /// pair where the alignment is not a power of two or the rounded size is
    /// too large.
    pub fn from_size_align(size: u64, align: u64) -> (r: Result<Layout, LayoutError>)
        ensures
            r is Ok <==> valid_layout(size, align),
            r matches Ok(l) ==> l.spec_size() == size && l.spec_align() == align,
    {
        if align == 0 {
            return Err(LayoutError);
        }
        if align & (align - 1) != 0 {
            return Err(LayoutError);
        }
        proof {
            crate::bits::lemma_pow2_bound(align);
        }
        if size > MAX_LAYOUT_SIZE - (align - 1) {
            return Err(LayoutError);
        }
        Ok(Layout { size, align })
    }

    /// The size in bytes.
    pub fn size(&self) -> (r: u64)
        ensures
            r == self.spec_size(),
            valid_layout(r, self.spec_align()),
    {
        proof {
            use_type_invariant(self);
        }
        self.size
    }

    /// The alignment in bytes.
    pub fn align(&self) -> (r: u64)
        ensures
            r == self.spec_align(),
            is_pow2(r),
            self.spec_size() + (r - 1) <= MAX_LAYOUT_SIZE,
    {
        proof {
            use_type_invariant(self);
        }
        self.align
    }
}

} // verus!
