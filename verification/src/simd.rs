//! Helpers for the 128-bit SIMD&FP registers.
use vstd::prelude::*;

verus! {

/// The mask of the low `bytes` bytes of a vector register (at most 16).
pub open spec fn vector_mask(bytes: nat) -> u128 {
    if bytes >= 16 {
        0xFFFF_FFFF_FFFF_FFFF_FFFF_FFFF_FFFF_FFFF
    } else {
        ((1u128 << ((bytes * 8) as u128)) - 1) as u128
    }
}

/// `count` copies of the low `es` bytes of `v`, element 0 lowest.
pub open spec fn replicate(v: u128, es: nat, count: nat) -> u128
    decreases count,
{
    if count == 0 {
        0
    } else {
        replicate(v, es, (count - 1) as nat) | ((v & vector_mask(es)) << ((es * (count - 1)
            * 8) as u128))
    }
}

pub fn vector_mask_exec(bytes: usize) -> (r: u128)
    ensures
        r == vector_mask(bytes as nat),
{
    if bytes >= 16 {
        0xFFFF_FFFF_FFFF_FFFF_FFFF_FFFF_FFFF_FFFF
    } else {
        let sh = (bytes * 8) as u128;
        assert(sh < 128);
        assert(1u128 << sh >= 1) by (bit_vector)
            requires
                sh < 128,
        ;
        (1u128 << sh) - 1
    }
}

/// Fill `size` bytes with copies of the low `element_size` bytes of `value`
/// (an element size of 0 counts as 1).
pub fn simd_replicate_element(value: u128, element_size: usize, size: usize) -> (r: u128)
    requires
        size <= 16,
    ensures
        r == replicate(
            value,
            if element_size == 0 {
                1
            } else {
                element_size as nat
            },
            if element_size == 0 {
                size as nat
            } else {
                (size / element_size) as nat
            },
        ),
{
    let es = if element_size == 0 {
        1
    } else {
        element_size
    };
    let count = size / es;
    let m = vector_mask_exec(es);
    let mut r: u128 = 0;
    let mut k: usize = 0;
    while k < count
        invariant
            k <= count,
            count == size / es,
            es >= 1,
            size <= 16,
            m == vector_mask(es as nat),
            r == replicate(value, es as nat, k as nat),
        decreases count - k,
    {
        assert(es * k * 8 < 128) by (nonlinear_arith)
            requires
                k < count,
                count == size / es,
                es >= 1,
                size <= 16,
        ;
        let sh = (es * k * 8) as u128;
        r = r | ((value & m) << sh);
        k = k + 1;
    }
    r
}

} // verus!
