//! AES arithmetic in GF(2^8) with the polynomial x^8 + x^4 + x^3 + x + 1:
//! the S-box and its inverse as the field inverse and the affine map of
//! FIPS-197, the (inverse) ShiftRows byte permutation and the (inverse)
//! MixColumns matrix, all on the 16-byte state in column-major order.
use vstd::prelude::*;

verus! {

/// Multiplication by x.
pub open spec fn xtime(b: u8) -> u8 {
    if b & 0x80 != 0 {
        (b << 1u8) ^ 0x1b
    } else {
        b << 1u8
    }
}

/// `acc` plus `x` times the polynomial of the low `k` bits of `y`.
pub open spec fn gmul_acc(acc: u8, x: u8, y: u8, k: nat) -> u8
    decreases k,
{
    if k == 0 {
        acc
    } else {
        gmul_acc(
            if y & 1 != 0 {
                acc ^ x
            } else {
                acc
            },
            xtime(x),
            y >> 1u8,
            (k - 1) as nat,
        )
    }
}

/// The product of two field elements.
pub open spec fn gmul(a: u8, b: u8) -> u8 {
    gmul_acc(0, a, b, 8)
}

/// `a` to the power `n`.
pub open spec fn gpow(a: u8, n: nat) -> u8
    decreases n,
{
    if n == 0 {
        1
    } else {
        gmul(gpow(a, (n - 1) as nat), a)
    }
}

/// `b` rotated left by `n` (1 to 7) bits.
pub open spec fn rotl8(b: u8, n: u8) -> u8 {
    (b << n) | (b >> ((8 - n) as u8))
}

/// The S-box: the field inverse (0 for 0), then the affine map.
pub open spec fn sbox(x: u8) -> u8 {
    let y = gpow(x, 254);
    y ^ rotl8(y, 1) ^ rotl8(y, 2) ^ rotl8(y, 3) ^ rotl8(y, 4) ^ 0x63
}

/// The inverse S-box: the inverse affine map, then the field inverse.
pub open spec fn inv_sbox(x: u8) -> u8 {
    gpow(rotl8(x, 1) ^ rotl8(x, 3) ^ rotl8(x, 6) ^ 0x05, 254)
}

/// The state byte that ShiftRows moves to byte `k` (row `k % 4`, column
/// `k / 4`): row r is rotated left by r columns.
pub open spec fn shift_rows_src(k: nat) -> nat {
    4 * (((k / 4) + (k % 4)) % 4) + k % 4
}

/// The state byte that InvShiftRows moves to byte `k`.
pub open spec fn inv_shift_rows_src(k: nat) -> nat {
    (4 * (((k / 4) + 4 - (k % 4)) % 4) + k % 4) as nat
}

/// Byte `k` of MixColumns applied to the state `s`.
pub open spec fn mix_byte(s: Seq<u8>, k: nat) -> u8 {
    let c = 4 * (k / 4);
    let r = k % 4;
    gmul(s[(c + r) as int], 2) ^ gmul(s[(c + (r + 1) % 4) as int], 3) ^ s[(c + (r + 2) % 4) as int]
        ^ s[(c + (r + 3) % 4) as int]
}

/// Byte `k` of InvMixColumns applied to the state `s`.
pub open spec fn inv_mix_byte(s: Seq<u8>, k: nat) -> u8 {
    let c = 4 * (k / 4);
    let r = k % 4;
    gmul(s[(c + r) as int], 14) ^ gmul(s[(c + (r + 1) % 4) as int], 11) ^ gmul(
        s[(c + (r + 2) % 4) as int],
        13,
    ) ^ gmul(s[(c + (r + 3) % 4) as int], 9)
}

fn xtime_exec(b: u8) -> (r: u8)
    ensures
        r == xtime(b),
{
    if b & 0x80 != 0 {
        (b << 1u8) ^ 0x1b
    } else {
        b << 1u8
    }
}

pub fn gmul_exec(a: u8, b: u8) -> (r: u8)
    ensures
        r == gmul(a, b),
{
    let mut acc: u8 = 0;
    let mut x: u8 = a;
    let mut y: u8 = b;
    let mut k: usize = 8;
    while k > 0
        invariant
            k <= 8,
            gmul_acc(acc, x, y, k as nat) == gmul(a, b),
        decreases k,
    {
        if y & 1 != 0 {
            acc = acc ^ x;
        }
        x = xtime_exec(x);
        y = y >> 1u8;
        k = k - 1;
    }
    acc
}

fn gpow_exec(a: u8, n: usize) -> (r: u8)
    ensures
        r == gpow(a, n as nat),
{
    let mut acc: u8 = 1;
    let mut j: usize = 0;
    while j < n
        invariant
            j <= n,
            acc == gpow(a, j as nat),
        decreases n - j,
    {
        acc = gmul_exec(acc, a);
        j = j + 1;
    }
    acc
}

fn rotl8_exec(b: u8, n: u8) -> (r: u8)
    requires
        1 <= n <= 7,
    ensures
        r == rotl8(b, n),
{
    (b << n) | (b >> (8 - n))
}

pub fn sbox_exec(x: u8) -> (r: u8)
    ensures
        r == sbox(x),
{
    let y = gpow_exec(x, 254);
    y ^ rotl8_exec(y, 1) ^ rotl8_exec(y, 2) ^ rotl8_exec(y, 3) ^ rotl8_exec(y, 4) ^ 0x63
}

pub fn inv_sbox_exec(x: u8) -> (r: u8)
    ensures
        r == inv_sbox(x),
{
    gpow_exec(rotl8_exec(x, 1) ^ rotl8_exec(x, 3) ^ rotl8_exec(x, 6) ^ 0x05, 254)
}

pub fn shift_rows_src_exec(k: usize) -> (r: usize)
    requires
        k < 16,
    ensures
        r == shift_rows_src(k as nat),
        r < 16,
{
    4 * (((k / 4) + (k % 4)) % 4) + k % 4
}

pub fn inv_shift_rows_src_exec(k: usize) -> (r: usize)
    requires
        k < 16,
    ensures
        r == inv_shift_rows_src(k as nat),
        r < 16,
{
    4 * (((k / 4) + 4 - (k % 4)) % 4) + k % 4
}

pub fn mix_byte_exec(s: &Vec<u8>, k: usize) -> (r: u8)
    requires
        s@.len() == 16,
        k < 16,
    ensures
        r == mix_byte(s@, k as nat),
{
    let c = 4 * (k / 4);
    let r = k % 4;
    gmul_exec(s[c + r], 2) ^ gmul_exec(s[c + (r + 1) % 4], 3) ^ s[c + (r + 2) % 4] ^ s[c + (r + 3)
        % 4]
}

pub fn inv_mix_byte_exec(s: &Vec<u8>, k: usize) -> (r: u8)
    requires
        s@.len() == 16,
        k < 16,
    ensures
        r == inv_mix_byte(s@, k as nat),
{
    let c = 4 * (k / 4);
    let r = k % 4;
    gmul_exec(s[c + r], 14) ^ gmul_exec(s[c + (r + 1) % 4], 11) ^ gmul_exec(s[c + (r + 2) % 4], 13)
        ^ gmul_exec(s[c + (r + 3) % 4], 9)
}

} // verus!
