//! Little-endian byte encoding of integers, as used by guest memory and by
//! the byte-addressed SVE vector registers.
use vstd::prelude::*;
use vstd::arithmetic::div_mod::{lemma_breakdown, lemma_div_denominator};
use vstd::arithmetic::power2::{lemma2_to64, lemma_pow2_adds, pow2};
use vstd::bits::{lemma_u64_shl_is_mul, lemma_u64_shr_is_div};

verus! {

/// 256 to the power `n`.
pub open spec fn pow256(n: nat) -> nat
    decreases n,
{
    if n == 0 {
        1
    } else {
        256 * pow256((n - 1) as nat)
    }
}

/// The unsigned value of the `n` bytes of `bytes` starting at `start`, least
/// significant byte first.
pub open spec fn le_value(bytes: Seq<u8>, start: int, n: nat) -> nat
    decreases n,
{
    if n == 0 {
        0
    } else {
        bytes[start] as nat + 256 * le_value(bytes, start + 1, (n - 1) as nat)
    }
}

/// Byte `i` (counted from the least significant end) of the value `v`.
pub open spec fn byte_of(v: nat, i: nat) -> u8 {
    ((v / pow256(i)) % 256) as u8
}

/// `bytes` with the `n` bytes starting at `start` replaced by the
/// little-endian encoding of `v`.
pub open spec fn write_le(bytes: Seq<u8>, start: int, n: nat, v: nat) -> Seq<u8> {
    Seq::new(
        bytes.len(),
        |k: int|
            if start <= k < start + n {
                byte_of(v, (k - start) as nat)
            } else {
                bytes[k]
            },
    )
}

pub proof fn lemma_pow256_values()
    ensures
        pow256(0) == 1,
        pow256(1) == 0x100,
        pow256(2) == 0x1_0000,
        pow256(3) == 0x100_0000,
        pow256(4) == 0x1_0000_0000,
        pow256(5) == 0x100_0000_0000,
        pow256(6) == 0x1_0000_0000_0000,
        pow256(7) == 0x100_0000_0000_0000,
        pow256(8) == 0x1_0000_0000_0000_0000,
{
    reveal_with_fuel(pow256, 9);
}

pub proof fn lemma_pow256_positive(n: nat)
    ensures
        pow256(n) > 0,
    decreases n,
{
    if n > 0 {
        lemma_pow256_positive((n - 1) as nat);
    }
}

/// An `n`-byte little-endian value is below `256^n`.
pub proof fn lemma_le_value_bound(bytes: Seq<u8>, start: int, n: nat)
    ensures
        le_value(bytes, start, n) < pow256(n),
    decreases n,
{
    if n > 0 {
        lemma_le_value_bound(bytes, start + 1, (n - 1) as nat);
        let rest = le_value(bytes, start + 1, (n - 1) as nat);
        assert(bytes[start] as nat + 256 * rest < 256 * pow256((n - 1) as nat)) by (nonlinear_arith)
            requires
                (bytes[start] as nat) < 256,
                rest < pow256((n - 1) as nat),
        ;
    }
}

/// The value read from a range only depends on the bytes in that range.
pub proof fn lemma_le_value_frame(a: Seq<u8>, b: Seq<u8>, start: int, n: nat)
    requires
        forall|k: int| start <= k < start + n ==> a[k] == b[k],
    ensures
        le_value(a, start, n) == le_value(b, start, n),
    decreases n,
{
    if n > 0 {
        lemma_le_value_frame(a, b, start + 1, (n - 1) as nat);
    }
}

proof fn lemma_read_write_suffix(bytes: Seq<u8>, start: int, n: nat, v: nat, i: nat)
    requires
        i <= n,
        0 <= start,
        start + n <= bytes.len(),
    ensures
        le_value(write_le(bytes, start, n, v), start + i, (n - i) as nat) == (v / pow256(i))
            % pow256((n - i) as nat),
    decreases n - i,
{
    let w = write_le(bytes, start, n, v);
    lemma_pow256_positive(i);
    lemma_pow256_positive((n - i) as nat);
    if i == n {
        assert((v / pow256(i)) % 1 == 0);
    } else {
        lemma_read_write_suffix(bytes, start, n, v, i + 1);
        let q = v / pow256(i);
        let p = pow256((n - i - 1) as nat);
        lemma_pow256_positive((n - i - 1) as nat);
        assert(pow256(i + 1) == 256 * pow256(i));
        lemma_div_denominator(v as int, pow256(i) as int, 256);
        assert(pow256(i) * 256 == 256 * pow256(i)) by (nonlinear_arith);
        assert(v / pow256(i + 1) == q / 256);
        lemma_breakdown(q as int, 256, p as int);
        assert(w[start + i] == byte_of(v, i));
        assert(pow256((n - i) as nat) == 256 * p);
    }
}

/// Reading back `n` bytes just written gives the written value modulo `256^n`.
pub proof fn lemma_read_after_write(bytes: Seq<u8>, start: int, n: nat, v: nat)
    requires
        0 <= start,
        start + n <= bytes.len(),
    ensures
        le_value(write_le(bytes, start, n, v), start, n) == v % pow256(n),
{
    lemma_read_write_suffix(bytes, start, n, v, 0);
    assert(pow256(0) == 1);
    assert(v / 1 == v);
}

pub proof fn lemma_pow256_mono(a: nat, b: nat)
    requires
        a <= b,
    ensures
        pow256(a) <= pow256(b),
    decreases b - a,
{
    if a < b {
        lemma_pow256_mono(a, (b - 1) as nat);
        lemma_pow256_positive((b - 1) as nat);
    }
}

/// The little-endian value of the `n` (at most 8) bytes of `bytes` from `off`.
pub fn read_le(bytes: &Vec<u8>, off: usize, n: usize) -> (r: u64)
    requires
        off + n <= bytes@.len(),
        n <= 8,
    ensures
        r == le_value(bytes@, off as int, n as nat),
{
    let mut acc: u64 = 0;
    let mut i: usize = n;
    let len = bytes.len();
    proof {
        lemma_pow256_values();
    }
    while i > 0
        invariant
            i <= n <= 8,
            off + n <= len,
            len == bytes@.len(),
            acc == le_value(bytes@, off + i, (n - i) as nat),
            pow256(8) == 0x1_0000_0000_0000_0000,
        decreases i,
    {
        proof {
            lemma_le_value_bound(bytes@, off + i, (n - i) as nat);
            lemma_pow256_mono((n - i) as nat, 7);
            lemma_pow256_values();
        }
        let b = bytes[off + i - 1];
        acc = acc * 256 + b as u64;
        i = i - 1;
    }
    acc
}

/// Store the low `n` (at most 8) bytes of `value` at `off`, least
/// significant first.
pub fn write_le_bytes(bytes: &mut Vec<u8>, off: usize, n: usize, value: u64)
    requires
        off + n <= old(bytes)@.len(),
        n <= 8,
    ensures
        final(bytes)@ == write_le(old(bytes)@, off as int, n as nat, value as nat),
{
    let ghost start = bytes@;
    let len = bytes.len();
    let mut v: u64 = value;
    let mut k: usize = 0;
    proof {
        assert(bytes@ =~= write_le(start, off as int, 0, value as nat));
        assert(pow256(0) == 1);
    }
    while k < n
        invariant
            k <= n <= 8,
            off + n <= len,
            len == start.len(),
            v == (value as nat) / pow256(k as nat),
            bytes@ == write_le(start, off as int, k as nat, value as nat),
        decreases n - k,
    {
        proof {
            lemma_pow256_positive(k as nat);
        }
        let b = (v % 256) as u8;
        bytes.set(off + k, b);
        proof {
            assert(b == byte_of(value as nat, k as nat));
            assert(bytes@ =~= write_le(start, off as int, (k + 1) as nat, value as nat));
            lemma_div_denominator(value as int, pow256(k as nat) as int, 256);
            assert(pow256(k as nat) * 256 == pow256((k + 1) as nat)) by (nonlinear_arith)
                requires
                    pow256((k + 1) as nat) == 256 * pow256(k as nat),
            ;
        }
        v = v / 256;
        k = k + 1;
    }
}


/// `256^n` is `2^(8n)`.
pub proof fn lemma_pow256_is_pow2(n: nat)
    ensures
        pow256(n) == pow2(8 * n),
    decreases n,
{
    lemma2_to64();
    if n > 0 {
        lemma_pow256_is_pow2((n - 1) as nat);
        lemma_pow2_adds((8 * (n - 1)) as nat, 8);
    }
}

/// The value of `n + 1` bytes is that of the first `n` plus the last byte
/// weighted by `256^n`.
pub proof fn lemma_le_value_snoc(bytes: Seq<u8>, start: int, n: nat)
    ensures
        le_value(bytes, start, n + 1) == le_value(bytes, start, n) + pow256(n) * bytes[start + n],
    decreases n,
{
    if n > 0 {
        lemma_le_value_snoc(bytes, start + 1, (n - 1) as nat);
        let r = le_value(bytes, start + 1, (n - 1) as nat);
        let p = pow256((n - 1) as nat);
        let x = bytes[start + n] as int;
        assert(le_value(bytes, start + 1, n) == r + p * x);
        assert(le_value(bytes, start, n + 1) == bytes[start] + 256 * le_value(bytes, start + 1, n));
        assert(le_value(bytes, start, n) == bytes[start] + 256 * r);
        assert(pow256(n) == 256 * p);
        assert(256 * (r + p * x) == 256 * r + (256 * p) * x) by (nonlinear_arith);
        assert(pow256(n) * x == (256 * p) * x);
    } else {
        let x = bytes[start] as int;
        assert(le_value(bytes, start, 1) == bytes[start] + 256 * le_value(bytes, start + 1, 0));
        assert(pow256(0) == 1);
        assert(1 * x == x);
    }
}

/// Byte `i` of a 64-bit value, taken by shift and mask.
pub proof fn lemma_shifted_byte(v: u64, i: nat)
    requires
        i < 8,
    ensures
        ((v >> ((8 * i) as u64)) & 0xFF) as nat == (v as nat / pow256(i)) % 256,
{
    let j = (8 * i) as u64;
    lemma_u64_shr_is_div(v, j);
    lemma_pow256_is_pow2(i);
    let y = v >> j;
    assert(y & 0xFF == y % 256) by (bit_vector);
}

/// Placing a byte above a value that fits in `i` bytes adds it in.
pub proof fn lemma_or_high_byte(lo: u64, b: u64, i: nat)
    requires
        i < 8,
        b < 256,
        lo < pow256(i),
    ensures
        lo | (b << ((8 * i) as u64)) == lo + pow256(i) * b,
{
    let j = (8 * i) as u64;
    lemma_pow256_is_pow2(i);
    lemma_pow256_mono(i, 7);
    lemma_pow256_values();
    let p = pow256(i);
    assert(b * p <= 255 * 0x100_0000_0000_0000) by (nonlinear_arith)
        requires
            b < 256,
            p <= 0x100_0000_0000_0000,
    ;
    assert(j as nat == 8 * i);
    assert(b * pow2(j as nat) <= u64::MAX);
    lemma_u64_shl_is_mul(b, j);
    assert(1 * pow2(j as nat) <= u64::MAX);
    lemma_u64_shl_is_mul(1, j);
    assert((1u64 << j) == p);
    assert((b << j) == p * b) by (nonlinear_arith)
        requires
            (b << j) == b * p,
    ;
    assert(lo < (1u64 << j) && j <= 56 && b < 256 ==> lo | (b << j) == lo + (b << j))
        by (bit_vector);
}

} // verus!
