//! Integer arithmetic, logic, shifts and condition codes.
use vstd::prelude::*;
use crate::cpu::width_mask;
use crate::pstate::PState;

verus! {

/// The sign bit of a 64- or 32-bit value.
pub open spec fn msb(v: u64, sf: bool) -> bool {
    if sf {
        (v >> 63u64) & 1 == 1
    } else {
        (v >> 31u64) & 1 == 1
    }
}

/// Operand width in bits.
pub open spec fn width_bits(sf: bool) -> u64 {
    if sf {
        64
    } else {
        32
    }
}

/// The low `n` bits set.
pub open spec fn ones(n: u64) -> u64 {
    if n >= 64 {
        0xFFFF_FFFF_FFFF_FFFF
    } else {
        ((1u64 << n) - 1) as u64
    }
}

/// `v` sign-extended from its low `bits` bits to 64 bits.
pub open spec fn sign_extend(v: u64, bits: u64) -> u64 {
    if bits >= 64 {
        v
    } else if (v >> ((bits - 1) as u64)) & 1 == 1 {
        v | !ones(bits)
    } else {
        v & ones(bits)
    }
}

/// The sum `x + y + carry` as a mathematical integer.
pub open spec fn carry_sum(x: u64, y: u64, carry: bool) -> int {
    x + y + if carry {
        1int
    } else {
        0int
    }
}

/// AddWithCarry: the result and its N, Z, C and V flags.
pub open spec fn add_with_carry(x: u64, y: u64, carry: bool, sf: bool) -> (
    u64,
    bool,
    bool,
    bool,
    bool,
) {
    let sum = carry_sum(x, y, carry);
    let r = (sum % (width_mask(sf) + 1)) as u64;
    (
        r,
        msb(r, sf),
        r == 0,
        sum > width_mask(sf),
        msb(x, sf) == msb(y, sf) && msb(r, sf) != msb(x, sf),
    )
}

/// Whether condition `cond` holds for the flags of `p`.
pub open spec fn cond_holds(p: PState, cond: u8) -> bool {
    let c = cond & 15;
    if c == 0 {
        p.z
    } else if c == 1 {
        !p.z
    } else if c == 2 {
        p.c
    } else if c == 3 {
        !p.c
    } else if c == 4 {
        p.n
    } else if c == 5 {
        !p.n
    } else if c == 6 {
        p.v
    } else if c == 7 {
        !p.v
    } else if c == 8 {
        p.c && !p.z
    } else if c == 9 {
        !(p.c && !p.z)
    } else if c == 10 {
        p.n == p.v
    } else if c == 11 {
        p.n != p.v
    } else if c == 12 {
        !p.z && p.n == p.v
    } else if c == 13 {
        !(!p.z && p.n == p.v)
    } else {
        true
    }
}

/// A register operand shifted by `shift_type` (LSL, LSR, ASR, ROR) and
/// `amount` (taken modulo the width).
pub open spec fn shift_value(v: u64, shift_type: u8, amount: u64, sf: bool) -> u64 {
    let w = width_bits(sf);
    let m = width_mask(sf);
    let a = amount & ((w - 1) as u64);
    let x = v & m;
    if shift_type & 3 == 0 {
        (x << a) & m
    } else if shift_type & 3 == 1 {
        x >> a
    } else if shift_type & 3 == 2 {
        if msb(x, sf) {
            ((x >> a) | !(m >> a)) & m
        } else {
            x >> a
        }
    } else {
        if a == 0 {
            x
        } else {
            ((x >> a) | (x << ((w - a) as u64))) & m
        }
    }
}

/// A register operand extended by `option` (UXTB..SXTX) and shifted left by
/// `shift` (0 to 4).
pub open spec fn extend_value(v: u64, option: u8, shift: u64, sf: bool) -> u64 {
    let o = option & 7;
    let e = if o == 0 {
        v & 0xFF
    } else if o == 1 {
        v & 0xFFFF
    } else if o == 2 {
        v & 0xFFFF_FFFF
    } else if o == 3 {
        v
    } else if o == 4 {
        sign_extend(v & 0xFF, 8)
    } else if o == 5 {
        sign_extend(v & 0xFFFF, 16)
    } else if o == 6 {
        sign_extend(v & 0xFFFF_FFFF, 32)
    } else {
        v
    };
    (e << (shift & 7)) & width_mask(sf)
}

pub fn msb_of(v: u64, sf: bool) -> (r: bool)
    ensures
        r == msb(v, sf),
{
    if sf {
        (v >> 63u64) & 1 == 1
    } else {
        (v >> 31u64) & 1 == 1
    }
}

pub fn mask_of(sf: bool) -> (r: u64)
    ensures
        r == width_mask(sf),
{
    if sf {
        0xFFFF_FFFF_FFFF_FFFF
    } else {
        0xFFFF_FFFF
    }
}

pub fn ones_of(n: u64) -> (r: u64)
    ensures
        r == ones(n),
{
    if n >= 64 {
        0xFFFF_FFFF_FFFF_FFFF
    } else {
        assert(1u64 << n >= 1) by (bit_vector)
            requires
                n < 64,
        ;
        (1u64 << n) - 1
    }
}

pub fn sign_extend_bits(v: u64, bits: u64) -> (r: u64)
    requires
        bits >= 1,
    ensures
        r == sign_extend(v, bits),
{
    if bits >= 64 {
        v
    } else if (v >> (bits - 1)) & 1 == 1 {
        v | !ones_of(bits)
    } else {
        v & ones_of(bits)
    }
}

/// AddWithCarry on operands that fit the width.
pub fn add_with_carry_exec(x: u64, y: u64, carry: bool, sf: bool) -> (r: (u64, bool, bool, bool, bool))
    requires
        x <= width_mask(sf),
        y <= width_mask(sf),
    ensures
        r == add_with_carry(x, y, carry, sf),
{
    let c: u128 = if carry {
        1
    } else {
        0
    };
    let sum: u128 = x as u128 + y as u128 + c;
    let m = mask_of(sf);
    let full: u128 = m as u128;
    assert(sum == carry_sum(x, y, carry));
    assert(sum & 0xFFFF_FFFF_FFFF_FFFFu128 == sum % 0x1_0000_0000_0000_0000u128 && sum
        & 0xFFFF_FFFFu128 == sum % 0x1_0000_0000u128) by (bit_vector);
    let res: u64 = if sf {
        (sum & 0xFFFF_FFFF_FFFF_FFFFu128) as u64
    } else {
        (sum & 0xFFFF_FFFFu128) as u64
    };
    let n = msb_of(res, sf);
    let z = res == 0;
    let cout = sum > full;
    let v = msb_of(x, sf) == msb_of(y, sf) && msb_of(res, sf) != msb_of(x, sf);
    (res, n, z, cout, v)
}

/// Whether condition `cond` holds.
pub fn cond_taken_flags(p: &PState, cond: u8) -> (r: bool)
    ensures
        r == cond_holds(*p, cond),
{
    let c = cond & 15;
    if c == 0 {
        p.z
    } else if c == 1 {
        !p.z
    } else if c == 2 {
        p.c
    } else if c == 3 {
        !p.c
    } else if c == 4 {
        p.n
    } else if c == 5 {
        !p.n
    } else if c == 6 {
        p.v
    } else if c == 7 {
        !p.v
    } else if c == 8 {
        p.c && !p.z
    } else if c == 9 {
        !(p.c && !p.z)
    } else if c == 10 {
        p.n == p.v
    } else if c == 11 {
        p.n != p.v
    } else if c == 12 {
        !p.z && p.n == p.v
    } else if c == 13 {
        !(!p.z && p.n == p.v)
    } else {
        true
    }
}

/// Shift a register operand.
pub fn shift_exec(v: u64, shift_type: u8, amount: u64, sf: bool) -> (r: u64)
    ensures
        r == shift_value(v, shift_type, amount, sf),
{
    let w: u64 = if sf {
        64
    } else {
        32
    };
    let m = mask_of(sf);
    let a = amount & (w - 1);
    assert(amount & 63u64 < 64 && amount & 31u64 < 32) by (bit_vector);
    let x = v & m;
    let t = shift_type & 3;
    if t == 0 {
        (x << a) & m
    } else if t == 1 {
        x >> a
    } else if t == 2 {
        if msb_of(x, sf) {
            ((x >> a) | !(m >> a)) & m
        } else {
            x >> a
        }
    } else {
        if a == 0 {
            x
        } else {
            ((x >> a) | (x << (w - a))) & m
        }
    }
}

/// Extend and shift a register operand.
pub fn extend_exec(v: u64, option: u8, shift: u64, sf: bool) -> (r: u64)
    ensures
        r == extend_value(v, option, shift, sf),
{
    let o = option & 7;
    let e = if o == 0 {
        v & 0xFF
    } else if o == 1 {
        v & 0xFFFF
    } else if o == 2 {
        v & 0xFFFF_FFFF
    } else if o == 3 {
        v
    } else if o == 4 {
        sign_extend_bits(v & 0xFF, 8)
    } else if o == 5 {
        sign_extend_bits(v & 0xFFFF, 16)
    } else if o == 6 {
        sign_extend_bits(v & 0xFFFF_FFFF, 32)
    } else {
        v
    };
    assert(shift & 7u64 < 8) by (bit_vector);
    (e << (shift & 7)) & mask_of(sf)
}

} // verus!
