//! The 128-bit SIMD&FP registers seen as 16 little-endian bytes, split into
//! lanes of 1, 2, 4 or 8 bytes.
use vstd::prelude::*;
use crate::le_bytes::{
    le_value, lemma_le_value_bound, lemma_pow256_mono, pow256, read_le, write_le_bytes,
};
use crate::sve::{elem, with_elem};

verus! {

/// The bytes of a vector register value, least significant first.
pub open spec fn vbytes(v: u128) -> Seq<u8> {
    Seq::new(16, |k: int| (v >> ((8 * k) as u128)) as u8)
}

/// The register value of 16 bytes, least significant first.
pub open spec fn vvalue(b: Seq<u8>) -> u128 {
    le_value(b, 0, 16) as u128
}

/// Sixteen zero bytes.
pub open spec fn zero16() -> Seq<u8> {
    Seq::new(16, |k: int| 0u8)
}

/// The bytes of a register, for element access.
pub fn to_bytes(v: u128) -> (r: Vec<u8>)
    ensures
        r@ == vbytes(v),
{
    let mut r: Vec<u8> = Vec::new();
    let mut k: usize = 0;
    while k < 16
        invariant
            k <= 16,
            r@ =~= vbytes(v).subrange(0, k as int),
        decreases 16 - k,
    {
        r.push((v >> ((8 * k) as u128)) as u8);
        k = k + 1;
    }
    r
}

/// The register value of 16 bytes.
pub fn from_bytes(b: &Vec<u8>) -> (r: u128)
    requires
        b@.len() == 16,
    ensures
        r == vvalue(b@),
{
    let mut acc: u128 = 0;
    let mut i: usize = 16;
    while i > 0
        invariant
            i <= 16,
            b@.len() == 16,
            acc as nat == le_value(b@, i as int, (16 - i) as nat),
        decreases i,
    {
        proof {
            lemma_le_value_bound(b@, i as int, (16 - i) as nat);
            lemma_pow256_mono((16 - i) as nat, 15);
            lemma_pow256_16();
        }
        let x = b[i - 1];
        acc = acc * 256 + x as u128;
        i = i - 1;
    }
    acc
}

/// `256^15` and `256^16`.
pub proof fn lemma_pow256_16()
    ensures
        pow256(15) == 0x1_0000_0000_0000_0000_0000_0000_0000_00,
        pow256(16) == 0x1_0000_0000_0000_0000_0000_0000_0000_0000,
{
    reveal_with_fuel(pow256, 17);
}

/// Sixteen zero bytes.
pub fn zero16_exec() -> (r: Vec<u8>)
    ensures
        r@ == zero16(),
{
    let r = vec![0u8; 16];
    assert(r@ =~= zero16());
    r
}

/// An element of `es` bytes lies below `256^es`.
pub proof fn lemma_elem_bound(z: Seq<u8>, e: nat, es: nat)
    requires
        es <= 8,
    ensures
        elem(z, e, es) as nat == le_value(z, (e * es) as int, es),
        elem(z, e, es) < pow256(es),
{
    lemma_le_value_bound(z, (e * es) as int, es);
    lemma_pow256_mono(es, 8);
    crate::le_bytes::lemma_pow256_values();
}

/// Lane `e` of `es` (at most 8) bytes of `z`.
pub fn lane(z: &Vec<u8>, e: usize, es: usize) -> (r: u64)
    requires
        es <= 8,
        e * es + es <= z@.len(),
    ensures
        r == elem(z@, e as nat, es as nat),
{
    let _len = z.len();
    read_le(z, e * es, es)
}

/// Replace lane `e` of `es` (at most 8) bytes of `z` by the low bytes of `v`.
pub fn set_lane(z: &mut Vec<u8>, e: usize, es: usize, v: u64)
    requires
        es <= 8,
        e * es + es <= old(z)@.len(),
    ensures
        final(z)@.len() == old(z)@.len(),
        final(z)@ == with_elem(old(z)@, e as nat, es as nat, v),
{
    let _len = z.len();
    write_le_bytes(z, e * es, es, v);
}

/// The first `n` bytes of `a` followed by the first `n` bytes of `b`.
pub open spec fn halves(a: Seq<u8>, b: Seq<u8>, n: nat) -> Seq<u8> {
    a.subrange(0, n as int) + b.subrange(0, n as int)
}

pub fn halves_exec(a: &Vec<u8>, b: &Vec<u8>, n: usize) -> (r: Vec<u8>)
    requires
        n <= a@.len(),
        n <= b@.len(),
    ensures
        r@ == halves(a@, b@, n as nat),
{
    let mut r: Vec<u8> = Vec::new();
    let mut k: usize = 0;
    while k < n
        invariant
            k <= n,
            n <= a@.len(),
            r@ =~= a@.subrange(0, k as int),
        decreases n - k,
    {
        r.push(a[k]);
        k = k + 1;
    }
    let mut j: usize = 0;
    while j < n
        invariant
            j <= n,
            n <= b@.len(),
            r@ =~= a@.subrange(0, n as int) + b@.subrange(0, j as int),
        decreases n - j,
    {
        r.push(b[j]);
        j = j + 1;
    }
    r
}

} // verus!
