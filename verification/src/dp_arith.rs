//! Multiply, divide, variable shifts, extract and count-leading-zeros.
use vstd::prelude::*;
use vstd::arithmetic::div_mod::{
    lemma_add_mod_noop_right, lemma_hoist_over_denominator, lemma_mod_add_multiples_vanish,
    lemma_mod_multiples_vanish, lemma_sub_mod_noop, lemma_sub_mod_noop_right,
};
use vstd::std_specs::bits::{axiom_u64_leading_zeros, u64_leading_zeros};
use crate::alu::{mask_of, msb, msb_of, shift_exec, shift_value, width_bits};
use crate::cpu::{read_reg, width_mask, write_reg, Armv8Cpu, CpuState};
use crate::dp_basic::lemma_operands_fit;
use crate::instr::{Instr, Opcode};

verus! {

pub open spec fn is_arith_op(op: Opcode) -> bool {
    match op {
        Opcode::Madd | Opcode::Msub | Opcode::Umulh | Opcode::Smulh | Opcode::Udiv
        | Opcode::Sdiv | Opcode::Lslv | Opcode::Lsrv | Opcode::Asrv | Opcode::Rorv | Opcode::Extr
        | Opcode::Clz => true,
        _ => false,
    }
}

/// The two's-complement value of a register of the given width.
pub open spec fn signed_value(v: u64, sf: bool) -> int {
    if msb(v, sf) {
        v - (width_mask(sf) + 1)
    } else {
        v as int
    }
}

pub open spec fn abs_int(a: int) -> int {
    if a < 0 {
        -a
    } else {
        a
    }
}

/// Integer division rounding toward zero.
pub open spec fn trunc_div(a: int, b: int) -> int {
    if (a < 0) == (b < 0) {
        abs_int(a) / abs_int(b)
    } else {
        -(abs_int(a) / abs_int(b))
    }
}

/// `v` reduced to the register width.
pub open spec fn wrap(v: int, sf: bool) -> u64 {
    (v % (width_mask(sf) + 1)) as u64
}

pub open spec fn two_pow_64() -> int {
    0x1_0000_0000_0000_0000
}

/// EXTR: bits `lsb..lsb+width` of the concatenation `hi:lo`.
pub open spec fn extract(hi: u64, lo: u64, lsb: u64, sf: bool) -> u64 {
    let w = width_bits(sf);
    let l = lsb & ((w - 1) as u64);
    if l == 0 {
        lo
    } else {
        ((lo >> l) | (hi << ((w - l) as u64))) & width_mask(sf)
    }
}

/// Leading zero bits of a register of the given width.
pub open spec fn count_leading_zeros(v: u64, sf: bool) -> u64 {
    if sf {
        u64_leading_zeros(v) as u64
    } else {
        (u64_leading_zeros(v) - 32) as u64
    }
}

pub open spec fn arith_step(s: CpuState, i: Instr) -> CpuState {
    let sf = i.sf;
    let n = s.reg(i.rn, sf);
    let m = s.reg(i.rm, sf);
    let a = s.reg((i.imm & 0xFF) as u8, sf);
    match i.op {
        Opcode::Madd => s.set_reg(i.rd, wrap(a + n * m, sf), sf),
        Opcode::Msub => s.set_reg(i.rd, wrap(a - n * m, sf), sf),
        Opcode::Umulh => s.set_reg(
            i.rd,
            ((s.reg(i.rn, true) * s.reg(i.rm, true)) / two_pow_64()) as u64,
            true,
        ),
        Opcode::Smulh => s.set_reg(
            i.rd,
            wrap(
                (signed_value(s.reg(i.rn, true), true) * signed_value(s.reg(i.rm, true), true)) / two_pow_64(),
                true,
            ),
            true,
        ),
        Opcode::Udiv => s.set_reg(
            i.rd,
            if m == 0 {
                0
            } else {
                n / m
            },
            sf,
        ),
        Opcode::Sdiv => s.set_reg(
            i.rd,
            if m == 0 {
                0
            } else {
                wrap(trunc_div(signed_value(n, sf), signed_value(m, sf)), sf)
            },
            sf,
        ),
        Opcode::Lslv => s.set_reg(i.rd, shift_value(n, 0, m, sf), sf),
        Opcode::Lsrv => s.set_reg(i.rd, shift_value(n, 1, m, sf), sf),
        Opcode::Asrv => s.set_reg(i.rd, shift_value(n, 2, m, sf), sf),
        Opcode::Rorv => s.set_reg(i.rd, shift_value(n, 3, m, sf), sf),
        Opcode::Extr => s.set_reg(i.rd, extract(n, m, i.imm, sf), sf),
        Opcode::Clz => s.set_reg(i.rd, count_leading_zeros(n, sf), sf),
        _ => s,
    }
}

fn modulus_of(sf: bool) -> (r: u128)
    ensures
        r == width_mask(sf) + 1,
{
    if sf {
        0x1_0000_0000_0000_0000
    } else {
        0x1_0000_0000
    }
}

/// `(a + n * m)` or `(a - n * m)` reduced to the width.
fn multiply_accumulate(a: u64, n: u64, m: u64, subtract: bool, sf: bool) -> (r: u64)
    ensures
        r == if subtract {
            wrap(a - n * m, sf)
        } else {
            wrap(a + n * m, sf)
        },
{
    let modulus = modulus_of(sf);
    assert(n as int * m as int <= 0xFFFF_FFFF_FFFF_FFFF * 0xFFFF_FFFF_FFFF_FFFF) by (nonlinear_arith)
        requires
            n <= 0xFFFF_FFFF_FFFF_FFFFu64,
            m <= 0xFFFF_FFFF_FFFF_FFFFu64,
    ;
    let p: u128 = (n as u128 * m as u128) % modulus;
    let r: u128 = if subtract {
        (a as u128 + modulus - p) % modulus
    } else {
        (a as u128 + p) % modulus
    };
    proof {
        let x = n as int * m as int;
        let md = modulus as int;
        if subtract {
            lemma_mod_add_multiples_vanish(a - x % md, md);
            lemma_sub_mod_noop_right(a as int, x, md);
            assert(a + md - x % md == md + (a - x % md));
        } else {
            lemma_add_mod_noop_right(a as int, x, md);
        }
    }
    r as u64
}

/// The high 64 bits of the unsigned 128-bit product.
fn umulh(n: u64, m: u64) -> (r: u64)
    ensures
        r == ((n * m) / two_pow_64()) as u64,
        r as int == (n * m) / two_pow_64(),
{
    assert(n as int * m as int <= 0xFFFF_FFFF_FFFF_FFFF * 0xFFFF_FFFF_FFFF_FFFF) by (nonlinear_arith)
        requires
            n <= 0xFFFF_FFFF_FFFF_FFFFu64,
            m <= 0xFFFF_FFFF_FFFF_FFFFu64,
    ;
    let p: u128 = n as u128 * m as u128;
    assert(p >> 64u128 == p / 0x1_0000_0000_0000_0000u128 && p / 0x1_0000_0000_0000_0000u128
        <= 0xFFFF_FFFF_FFFF_FFFFu128) by (bit_vector);
    (p >> 64u128) as u64
}

/// The high 64 bits of the signed 128-bit product.
fn smulh(n: u64, m: u64) -> (r: u64)
    ensures
        r == wrap((signed_value(n, true) * signed_value(m, true)) / two_pow_64(), true),
{
    let hi = umulh(n, m);
    let an = msb_of(n, true);
    let am = msb_of(m, true);
    let r1 = if an {
        hi.wrapping_sub(m)
    } else {
        hi
    };
    let r = if am {
        r1.wrapping_sub(n)
    } else {
        r1
    };
    proof {
        let w = two_pow_64();
        let ka: int = if an {
            1
        } else {
            0
        };
        let kb: int = if am {
            1
        } else {
            0
        };
        let sn = signed_value(n, true);
        let sm = signed_value(m, true);
        assert(width_mask(true) + 1 == w);
        assert(sn == n - ka * w);
        assert(sm == m - kb * w);
        let prod = n as int * m as int;
        let j = ka * kb * w - ka * m - kb * n;
        if an && am {
            assert(sn * sm == prod + j * w) by (nonlinear_arith)
                requires
                    sn == n - w,
                    sm == m - w,
                    prod == n as int * m as int,
                    j == w - m - n,
            ;
        } else if an {
            assert(sn * sm == prod + j * w) by (nonlinear_arith)
                requires
                    sn == n - w,
                    sm == m,
                    prod == n as int * m as int,
                    j == -m,
            ;
        } else if am {
            assert(sn * sm == prod + j * w) by (nonlinear_arith)
                requires
                    sn == n,
                    sm == m - w,
                    prod == n as int * m as int,
                    j == -n,
            ;
        } else {
            assert(j == 0);
        }
        lemma_hoist_over_denominator(prod, j, w as nat);
        let q = prod / w;
        assert((sn * sm) / w == q + j);
        assert(hi as int == q);
        let t = q - ka * m - kb * n;
        assert(q + j == w * (ka * kb) + t) by (nonlinear_arith)
            requires
                j == ka * kb * w - ka * m - kb * n,
                t == q - ka * m - kb * n,
        ;
        lemma_mod_multiples_vanish(ka * kb, t, w);
        assert(r1 as int == (q - ka * m) % w);
        lemma_sub_mod_noop_right(q - ka * m, 0, w);
        assert(r as int == (r1 - kb * n) % w);
        lemma_sub_mod_noop(q - ka * m, kb * n, w);
        assert(((q - ka * m) % w) % w == (q - ka * m) % w) by {
            vstd::arithmetic::div_mod::lemma_mod_twice(q - ka * m, w);
        }
        assert((kb * n) % w == kb * n) by {
            vstd::arithmetic::div_mod::lemma_small_mod((kb * n) as nat, w as nat);
        }
        assert(r as int == t % w);
    }
    r
}

/// Signed division rounding toward zero, reduced to the width; zero divisor
/// gives zero.
fn sdiv(n: u64, m: u64, sf: bool) -> (r: u64)
    requires
        n <= width_mask(sf),
        m <= width_mask(sf),
        m != 0,
    ensures
        r == wrap(trunc_div(signed_value(n, sf), signed_value(m, sf)), sf),
{
    let modulus = modulus_of(sf);
    let n_neg = msb_of(n, sf);
    let m_neg = msb_of(m, sf);
    let abs_n: u128 = if n_neg {
        modulus - n as u128
    } else {
        n as u128
    };
    let abs_m: u128 = if m_neg {
        modulus - m as u128
    } else {
        m as u128
    };
    assert(abs_m > 0);
    let q: u128 = abs_n / abs_m;
    let r: u128 = if n_neg != m_neg {
        (modulus - q % modulus) % modulus
    } else {
        q % modulus
    };
    proof {
        let md = modulus as int;
        let sn = signed_value(n, sf);
        let sm = signed_value(m, sf);
        assert(abs_n as int == abs_int(sn));
        assert(abs_m as int == abs_int(sm));
        if n_neg != m_neg {
            assert(trunc_div(sn, sm) == -(q as int));
            lemma_mod_add_multiples_vanish(-((q as int) % md), md);
            lemma_sub_mod_noop_right(0, q as int, md);
        }
    }
    r as u64
}

fn clz(v: u64, sf: bool) -> (r: u64)
    requires
        v <= width_mask(sf),
    ensures
        r == count_leading_zeros(v, sf),
{
    let lz = v.leading_zeros() as u64;
    proof {
        axiom_u64_leading_zeros(v);
        if !sf {
            let l = u64_leading_zeros(v);
            if l < 32 {
                let j = (63 - l) as u64;
                assert((v >> j) & 1u64 != 0u64);
                assert(v <= 0xFFFF_FFFFu64 && 32 <= j < 64 ==> (v >> j) & 1u64 == 0) by (bit_vector);
            }
        }
    }
    if sf {
        lz
    } else {
        lz - 32
    }
}

fn extract_exec(hi: u64, lo: u64, lsb: u64, sf: bool) -> (r: u64)
    ensures
        r == extract(hi, lo, lsb, sf),
{
    let w: u64 = if sf {
        64
    } else {
        32
    };
    assert(lsb & 63u64 < 64 && lsb & 31u64 < 32) by (bit_vector);
    let l = lsb & (w - 1);
    if l == 0 {
        lo
    } else {
        ((lo >> l) | (hi << (w - l))) & mask_of(sf)
    }
}

/// Execute an instruction of this group.
pub fn exec_arith(cpu: &mut Armv8Cpu, instr: Instr)
    requires
        old(cpu).wf(),
        is_arith_op(instr.op),
    ensures
        final(cpu).wf(),
        final(cpu)@ == arith_step(old(cpu)@, instr),
{
    let sf = instr.sf;
    proof {
        lemma_operands_fit(cpu@, instr);
    }
    let n = read_reg(cpu, instr.rn, sf);
    let m = read_reg(cpu, instr.rm, sf);
    let v = match instr.op {
        Opcode::Madd | Opcode::Msub => {
            let a = read_reg(cpu, (instr.imm & 0xFF) as u8, sf);
            multiply_accumulate(a, n, m, instr.op == Opcode::Msub, sf)
        },
        Opcode::Umulh => umulh(read_reg(cpu, instr.rn, true), read_reg(cpu, instr.rm, true)),
        Opcode::Smulh => smulh(read_reg(cpu, instr.rn, true), read_reg(cpu, instr.rm, true)),
        Opcode::Udiv => if m == 0 {
            0
        } else {
            n / m
        },
        Opcode::Sdiv => if m == 0 {
            0
        } else {
            sdiv(n, m, sf)
        },
        Opcode::Lslv => shift_exec(n, 0, m, sf),
        Opcode::Lsrv => shift_exec(n, 1, m, sf),
        Opcode::Asrv => shift_exec(n, 2, m, sf),
        Opcode::Rorv => shift_exec(n, 3, m, sf),
        Opcode::Extr => extract_exec(n, m, instr.imm, sf),
        _ => clz(n, sf),
    };
    let wide = instr.op == Opcode::Umulh || instr.op == Opcode::Smulh;
    write_reg(cpu, instr.rd, v, sf || wide);
}

} // verus!
