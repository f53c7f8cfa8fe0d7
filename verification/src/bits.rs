use vstd::prelude::*;

verus! {

/// Whether `a` is a nonzero power of two, in the usual bit form.
pub open spec fn is_pow2(a: u64) -> bool {
    a != 0 && a & ((a - 1) as u64) == 0
}

proof fn lemma_pow2_half(a: u64)
    requires
        is_pow2(a),
        a > 1,
    ensures
        is_pow2(a / 2),
        a % 2 == 0,
{
    assert(a % 2 == 0 && (a / 2) != 0 && (a / 2) & (((a / 2) - 1) as u64) == 0) by (bit_vector)
        requires
            a != 0,
            a > 1,
            a & ((a - 1) as u64) == 0;
}

proof fn lemma_and_split(x: u64, m: u64)
    ensures
        x & m == ((x / 2) & (m / 2)) * 2 + ((x % 2) & (m % 2)),
{
    assert(x & m == ((x / 2) & (m / 2)) * 2 + ((x % 2) & (m % 2))) by (bit_vector);
}

/// For a power of two `a`, masking with `a - 1` is the remainder modulo `a`.
pub proof fn lemma_mask_is_mod(x: u64, a: u64)
    requires
        is_pow2(a),
    ensures
        x & ((a - 1) as u64) == x % a,
    decreases a,
{
    if a == 1 {
        assert(x & 0 == 0) by (bit_vector);
    } else {
        lemma_pow2_half(a);
        let h = (a / 2) as u64;
        lemma_mask_is_mod(x / 2, h);
        lemma_and_split(x, (a - 1) as u64);
        assert(((a - 1) as u64) / 2 == (h - 1) as u64);
        assert(((a - 1) as u64) % 2 == 1);
        assert((x % 2) & 1 == x % 2) by (bit_vector);
        vstd::arithmetic::div_mod::lemma_mod_breakdown(x as int, 2, h as int);
        assert(a == 2 * h);
    }
}

/// A power of two held in 64 bits is at most 2^63.
pub proof fn lemma_pow2_bound(a: u64)
    requires
        is_pow2(a),
    ensures
        a <= 0x8000_0000_0000_0000,
{
    assert(a <= 0x8000_0000_0000_0000) by (bit_vector)
        requires
            a != 0,
            a & ((a - 1) as u64) == 0;
}

/// Clearing the bits of `a - 1` takes away exactly those bits.
pub proof fn lemma_clear_low(x: u64, m: u64)
    ensures
        x & !m == x - (x & m),
        x & m <= x,
{
    assert(x & !m == x - (x & m) && x & m <= x) by (bit_vector);
}

/// For powers of two `a <= b`, `b` is a multiple of `a`.
pub proof fn lemma_pow2_divides(a: u64, b: u64)
    requires
        is_pow2(a),
        is_pow2(b),
        a <= b,
    ensures
        b % a == 0,
{
    assert(b & ((a - 1) as u64) == 0) by (bit_vector)
        requires
            a != 0,
            a & ((a - 1) as u64) == 0,
            b != 0,
            b & ((b - 1) as u64) == 0,
            a <= b,
    ;
    lemma_mask_is_mod(b, a);
}

} // verus!
