//! What single instructions do, stated from their inputs and results:
//! branches against the condition flags and registers, integer arithmetic
//! against exact integer arithmetic, pair stores and loads against memory,
//! atomics against the values they combine, and SVE compares against the
//! element order.
use vstd::prelude::*;
use crate::branch::branch_step;
use crate::cpu::{width_mask, CpuState};
use crate::dp_arith::{abs_int, arith_step, count_leading_zeros, signed_value, trunc_div, wrap};
use crate::constants::RAM_SIZE;
use crate::exclusive::{access_mask, atomic_step};
use crate::instr::{Instr, Opcode};
use crate::le_bytes::{lemma_le_value_bound, lemma_pow256_values, pow256};
use crate::load_store::base_value;
use crate::load_pair::{pair_address, pair_size, pair_step, pair_wf};
use crate::memory::{in_ram, lemma_mem_read_after_write, lemma_mem_write_frame, mem_read, mem_write};
use crate::mmu::SCTLR_MMU_ENABLE;
use crate::alu::sign_extend;
use crate::cpu::SVE_MAX_VL_BYTES;
use crate::sve::{any_active, elem, fill_pred, pred_elem, valid_esize, zero_pred};
use crate::sve_pred::{compare_bit, is_compare_op, is_immediate_compare, sve_pred_step, sve_pred_wf};
use crate::guest::{lemma_guest_read_untranslated, lemma_guest_write_untranslated};
use crate::mmu::translate_spec;

verus! {

/// Masking to a byte, halfword or word stays within the mask.
proof fn lemma_mask_bounds()
    by (bit_vector)
    ensures
        forall|x: u64| #[trigger] (x & 0xFF) <= 0xFF,
        forall|x: u64| #[trigger] (x & 0xFFFF) <= 0xFFFF,
        forall|x: u64| #[trigger] (x & 0xFFFF_FFFF) <= 0xFFFF_FFFF,
{
}

/// Bit facts about 64-bit words used below.
proof fn lemma_word_bits(x: u64, v: u64, top: u64, k: u64)
    by (bit_vector)
    ensures
        x & 0xFFFF_FFFF <= 0xFFFF_FFFF,
        (v >> top) & 1 == 0 || (v >> top) & 1 == 1,
        v <= 0xFFFF_FFFF && 32 <= k < 64 ==> (v >> k) & 1 == 0,
        ((v >> 63u64) & 1 == 1) == (v >= 0x8000_0000_0000_0000),
        v <= 0xFFFF_FFFF ==> (((v >> 31u64) & 1 == 1) == (v >= 0x8000_0000)),
        v & 63 == v % 64,
        v & 31 == v % 32,
        v >> top <= v,
        v <= 0xFFFF_FFFF ==> (sign_extend(v & 0xFFFF_FFFF, 32) == if v >= 0x8000_0000 {
            v + 0xFFFF_FFFF_0000_0000
        } else {
            v + 0
        }),
        0u8 & 3u8 == 0u8,
        1u8 & 3u8 == 1u8,
        2u8 & 3u8 == 2u8,
        3u8 & 3u8 == 3u8,
{
}

/// B.cond goes to PC + offset exactly when its condition holds on the flags,
/// by the architectural table (EQ: Z, NE: not Z, CS: C, CC: not C, MI: N,
/// PL: not N, VS: V, VC: not V, HI: C and not Z, LS: not HI, GE: N = V,
/// LT: N /= V, GT: not Z and N = V, LE: not GT, AL and NV: always), and
/// otherwise to the next instruction; either way one cycle is counted.
/// (No exception vectors are installed, so no interrupt is taken.)
pub proof fn lemma_bcond_follows_flags(s: CpuState, i: Instr)
    requires
        i.op == Opcode::BCond,
        s.sys.vbar_el1 == 0,
    ensures
        ({
            let t = branch_step(s, i);
            let p = s.pstate;
            let c = i.cond & 15;
            let taken = if c == 0 {
                p.z
            } else if c == 1 {
                !p.z
            } else if c == 2 {
                p.c
            } else if c == 3 {
                !p.c
            } else if c == 4 {
                p.n
            } else if c == 5 {
                !p.n
            } else if c == 6 {
                p.v
            } else if c == 7 {
                !p.v
            } else if c == 8 {
                p.c && !p.z
            } else if c == 9 {
                !p.c || p.z
            } else if c == 10 {
                p.n == p.v
            } else if c == 11 {
                p.n != p.v
            } else if c == 12 {
                !p.z && p.n == p.v
            } else if c == 13 {
                p.z || p.n != p.v
            } else {
                true
            };
            &&& t.pc == if taken {
                s.pc.wrapping_add(i.imm)
            } else {
                s.pc.wrapping_add(4)
            }
            &&& t.sys.cycle_count == s.sys.cycle_count.wrapping_add(1)
            &&& t.x == s.x
        }),
{
}

/// CBZ / CBNZ branch when the tested register is / is not zero, TBZ / TBNZ
/// when the tested bit is clear / set; otherwise they step to the next
/// instruction. No register changes.
pub proof fn lemma_compare_branches_follow_register(s: CpuState, i: Instr)
    requires
        i.op == Opcode::Cbz || i.op == Opcode::Cbnz || i.op == Opcode::Tbz || i.op == Opcode::Tbnz,
        s.sys.vbar_el1 == 0,
    ensures
        ({
            let t = branch_step(s, i);
            let v = s.reg(i.rd, i.sf);
            let bit_set = (v >> ((i.cond & 63) as u64)) & 1 == 1;
            let taken = if i.op == Opcode::Cbz {
                v == 0
            } else if i.op == Opcode::Cbnz {
                v != 0
            } else if i.op == Opcode::Tbz {
                !bit_set
            } else {
                bit_set
            };
            &&& t.pc == if taken {
                s.pc.wrapping_add(i.imm)
            } else {
                s.pc.wrapping_add(4)
            }
            &&& t.sys.cycle_count == s.sys.cycle_count.wrapping_add(1)
            &&& t.x == s.x
        }),
{
    let v = s.reg(i.rd, i.sf);
    let b = (i.cond & 63) as u64;
    lemma_word_bits(0, v, b, 0);
}

/// B and BL go to PC + offset, BR, RET and BLR to the address in the
/// register (read before the link is written); BL and BLR leave the
/// address of the next instruction in X30 and change no other register,
/// B, BR and RET change no register.
pub proof fn lemma_unconditional_branches(s: CpuState, i: Instr)
    requires
        i.op == Opcode::B || i.op == Opcode::Bl || i.op == Opcode::Br || i.op == Opcode::Ret
            || i.op == Opcode::Blr,
        s.wf(),
    ensures
        ({
            let t = branch_step(s, i);
            let links = i.op == Opcode::Bl || i.op == Opcode::Blr;
            &&& t.pc == if i.op == Opcode::B || i.op == Opcode::Bl {
                s.pc.wrapping_add(i.imm)
            } else if i.rn < 31 {
                s.x[i.rn as int]
            } else {
                0
            }
            &&& t.sys.cycle_count == s.sys.cycle_count.wrapping_add(1)
            &&& links ==> t.x == s.x.update(30, s.pc.wrapping_add(4))
            &&& !links ==> t.x == s.x
        }),
{
    crate::cpu::lemma_full_mask();
    crate::cpu::lemma_small_mask();
}

/// `2^64` or `2^32`: one more than the largest register value of the width.
pub open spec fn reg_modulus(sf: bool) -> int {
    if sf {
        0x1_0000_0000_0000_0000
    } else {
        0x1_0000_0000
    }
}

proof fn lemma_wrap_congruent(v: int, sf: bool)
    ensures
        (wrap(v, sf) as int) < reg_modulus(sf),
        (wrap(v, sf) - v) % reg_modulus(sf) == 0,
        wrap(v, sf) & width_mask(sf) == wrap(v, sf),
{
    let md = reg_modulus(sf);
    assert(width_mask(sf) + 1 == md);
    vstd::arithmetic::div_mod::lemma_fundamental_div_mod(v, md);
    vstd::arithmetic::div_mod::lemma_mod_multiples_vanish(-(v / md), 0, md);
    assert(v % md - v == md * (-(v / md))) by (nonlinear_arith)
        requires
            v == md * (v / md) + v % md,
    ;
    vstd::arithmetic::div_mod::lemma_mod_multiples_basic(-(v / md), md);
    assert((md * (-(v / md))) % md == 0) by {
        vstd::arithmetic::mul::lemma_mul_is_commutative(md, -(v / md));
    }
    crate::cpu::lemma_full_mask();
    crate::cpu::lemma_small_mask();
    crate::cpu::lemma_small_mask();
}

/// MADD and MSUB leave in the destination the value congruent to
/// `Xa + Xn * Xm` (MADD) or `Xa - Xn * Xm` (MSUB) modulo the register width,
/// and below it.
pub proof fn lemma_multiply_accumulate(s: CpuState, i: Instr)
    requires
        i.op == Opcode::Madd || i.op == Opcode::Msub,
        i.rd < 31,
        s.wf(),
    ensures
        ({
            let t = arith_step(s, i);
            let n = s.reg(i.rn, i.sf) as int;
            let m = s.reg(i.rm, i.sf) as int;
            let a = s.reg((i.imm & 0xFF) as u8, i.sf) as int;
            let exact = if i.op == Opcode::Madd {
                a + n * m
            } else {
                a - n * m
            };
            &&& (t.x[i.rd as int] as int) < reg_modulus(i.sf)
            &&& (t.x[i.rd as int] - exact) % reg_modulus(i.sf) == 0
        }),
{
    let n = s.reg(i.rn, i.sf) as int;
    let m = s.reg(i.rm, i.sf) as int;
    let a = s.reg((i.imm & 0xFF) as u8, i.sf) as int;
    lemma_wrap_congruent(a + n * m, i.sf);
    lemma_wrap_congruent(a - n * m, i.sf);
}

/// UMULH leaves the high half of the unsigned 128-bit product:
/// `h * 2^64 <= Xn * Xm < (h + 1) * 2^64`.
pub proof fn lemma_umulh_is_high_half(s: CpuState, i: Instr)
    requires
        i.op == Opcode::Umulh,
        i.rd < 31,
        s.wf(),
    ensures
        ({
            let h = arith_step(s, i).x[i.rd as int] as int;
            let p = s.reg(i.rn, true) as int * s.reg(i.rm, true) as int;
            &&& h * 0x1_0000_0000_0000_0000 <= p
            &&& p < (h + 1) * 0x1_0000_0000_0000_0000
        }),
{
    let n = s.reg(i.rn, true) as int;
    let m = s.reg(i.rm, true) as int;
    let p = n * m;
    let d: int = 0x1_0000_0000_0000_0000;
    assert(0 <= p <= 0xFFFF_FFFF_FFFF_FFFF * 0xFFFF_FFFF_FFFF_FFFF) by (nonlinear_arith)
        requires
            0 <= n <= 0xFFFF_FFFF_FFFF_FFFF,
            0 <= m <= 0xFFFF_FFFF_FFFF_FFFF,
            p == n * m,
    ;
    vstd::arithmetic::div_mod::lemma_fundamental_div_mod(p, d);
    let q = p / d;
    assert(0 <= q < d) by {
        vstd::arithmetic::div_mod::lemma_div_pos_is_pos(p, d);
        vstd::arithmetic::div_mod::lemma_div_is_ordered(p, d * d - 1, d);
        vstd::arithmetic::div_mod::lemma_div_multiples_vanish_fancy(d - 1, d - 1, d);
        assert(0xFFFF_FFFF_FFFF_FFFF * 0xFFFF_FFFF_FFFF_FFFF < d * d);
        assert((d * d - 1) / d == d - 1) by {
            vstd::arithmetic::div_mod::lemma_fundamental_div_mod_converse(d * d - 1, d, d - 1, d - 1);
        }
    }
    crate::cpu::lemma_full_mask();
    crate::cpu::lemma_small_mask();
    assert(d * q <= p < d * q + d);
    assert(q * d == d * q && (q + 1) * d == d * q + d) by (nonlinear_arith);
}

/// UDIV leaves the unsigned quotient rounded down: `q * Xm <= Xn < (q + 1)
/// * Xm`, and 0 when dividing by zero.
pub proof fn lemma_udiv_is_quotient(s: CpuState, i: Instr)
    requires
        i.op == Opcode::Udiv,
        i.rd < 31,
        s.wf(),
    ensures
        ({
            let q = arith_step(s, i).x[i.rd as int] as int;
            let n = s.reg(i.rn, i.sf) as int;
            let m = s.reg(i.rm, i.sf) as int;
            &&& m == 0 ==> q == 0
            &&& m != 0 ==> q * m <= n < (q + 1) * m
        }),
{
    let n = s.reg(i.rn, i.sf);
    let m = s.reg(i.rm, i.sf);
    crate::cpu::lemma_full_mask();
    crate::cpu::lemma_small_mask();
    crate::cpu::lemma_small_mask();
    if m != 0 {
        vstd::arithmetic::div_mod::lemma_fundamental_div_mod(n as int, m as int);
        let q: u64 = n / m;
        assert(q <= n) by {
            vstd::arithmetic::div_mod::lemma_div_is_ordered_by_denominator(n as int, 1, m as int);
        }
        assert(n <= width_mask(i.sf)) by {
            if i.rn < 31 {
                lemma_word_bits(s.x[i.rn as int], 0, 0, 0);
            }
        }
        assert(q & width_mask(i.sf) == q);
        assert(arith_step(s, i).x[i.rd as int] == q);
        assert(q * m as int == m as int * q && (q + 1) * m as int == m as int * q + m as int)
            by (nonlinear_arith);
    }
}

/// CLZ counts the zero bits above the highest set bit: with `W` the
/// register width and `z` the result, `z <= W`, bits `W - z` and up are
/// clear, and bit `W - 1 - z` is set when `z < W`.
pub proof fn lemma_clz_counts_leading_zeros(s: CpuState, i: Instr)
    requires
        i.op == Opcode::Clz,
        i.rd < 31,
        s.wf(),
    ensures
        ({
            let z = arith_step(s, i).x[i.rd as int];
            let v = s.reg(i.rn, i.sf);
            let w: u64 = if i.sf {
                64
            } else {
                32
            };
            &&& z <= w
            &&& z < w ==> (v >> ((w - 1 - z) as u64)) & 1 == 1
            &&& 0 < z ==> v >> ((w - z) as u64) == 0
        }),
{
    let v = s.reg(i.rn, i.sf);
    vstd::std_specs::bits::axiom_u64_leading_zeros(v);
    let lz = vstd::std_specs::bits::u64_leading_zeros(v);
    crate::cpu::lemma_full_mask();
    crate::cpu::lemma_small_mask();
    crate::cpu::lemma_small_mask();
    let top = (63 - lz) as u64;
    lemma_word_bits(0, v, top, 0);
    if i.sf {
        assert(arith_step(s, i).x[i.rd as int] == lz as u64);
    }
    if !i.sf {
        assert(v <= 0xFFFF_FFFF) by {
            if i.rn < 31 {
                lemma_word_bits(s.x[i.rn as int], 0, 0, 0);
            }
        }
        if lz < 32 {
            let k = (63 - lz) as u64;
            lemma_word_bits(0, v, 0, k);
        }
        let z = (lz - 32) as u64;
        assert(z <= 0xFFFF_FFFF);
        assert(arith_step(s, i).x[i.rd as int] == z);
    }
}

/// A value of `size` bytes read as a signed integer.
pub open spec fn signed_of_size(v: u64, size: u8) -> int {
    let bound = pow256(size as nat) as int;
    if v as int >= bound / 2 {
        v as int - bound
    } else {
        v as int
    }
}

/// The facts about one access size that the atomic laws rest on.
proof fn lemma_access_size(size: u8, old: u64, src: u64)
    requires
        size == 1 || size == 2 || size == 4 || size == 8,
        old <= access_mask(size),
        src <= access_mask(size),
    ensures
        access_mask(size) + 1 == pow256(size as nat),
        old.wrapping_add(src) & access_mask(size) == (old as int + src as int) % pow256(
            size as nat,
        ) as int,
        (old & !src) & access_mask(size) == old & !src,
        (old ^ src) & access_mask(size) == old ^ src,
        (old | src) & access_mask(size) == old | src,
        src & access_mask(size) == src,
        old & access_mask(size) == old,
        (crate::exclusive::signed_value(old, size) as u64) & access_mask(size) == old,
        (crate::exclusive::signed_value(src, size) as u64) & access_mask(size) == src,
        crate::exclusive::signed_value(old, size) as int == signed_of_size(old, size),
        crate::exclusive::signed_value(src, size) as int == signed_of_size(src, size),
{
    lemma_pow256_values();
    assert(old <= access_mask(size) && src <= access_mask(size));
    assert(size == 1 ==> old <= 0xFF && src <= 0xFF);
    assert(size == 2 ==> old <= 0xFFFF && src <= 0xFFFF);
    assert(size == 4 ==> old <= 0xFFFF_FFFF && src <= 0xFFFF_FFFF);
    assert(
        (size == 1u8 ==> (old <= 0xFF && src <= 0xFF ==> {
            &&& old.wrapping_add(src) & 0xFF == (old + src) % 0x100
            &&& (old & !src) & 0xFF == old & !src
            &&& (old ^ src) & 0xFF == old ^ src
            &&& (old | src) & 0xFF == old | src
            &&& src & 0xFF == src
            &&& old & 0xFF == old
            &&& ((old as i8 as i64) as u64) & 0xFF == old
            &&& ((src as i8 as i64) as u64) & 0xFF == src
            &&& (old >= 0x80 ==> old as i8 as i64 == old - 0x100)
            &&& (old < 0x80 ==> old as i8 as i64 == old)
            &&& (src >= 0x80 ==> src as i8 as i64 == src - 0x100)
            &&& (src < 0x80 ==> src as i8 as i64 == src)
        }))
        && (size == 2u8 ==> (old <= 0xFFFF && src <= 0xFFFF ==> {
            &&& old.wrapping_add(src) & 0xFFFF == (old + src) % 0x1_0000
            &&& (old & !src) & 0xFFFF == old & !src
            &&& (old ^ src) & 0xFFFF == old ^ src
            &&& (old | src) & 0xFFFF == old | src
            &&& src & 0xFFFF == src
            &&& old & 0xFFFF == old
            &&& ((old as i16 as i64) as u64) & 0xFFFF == old
            &&& ((src as i16 as i64) as u64) & 0xFFFF == src
            &&& (old >= 0x8000 ==> old as i16 as i64 == old - 0x1_0000)
            &&& (old < 0x8000 ==> old as i16 as i64 == old)
            &&& (src >= 0x8000 ==> src as i16 as i64 == src - 0x1_0000)
            &&& (src < 0x8000 ==> src as i16 as i64 == src)
        }))
        && (size == 4u8 ==> (old <= 0xFFFF_FFFF && src <= 0xFFFF_FFFF ==> {
            &&& old.wrapping_add(src) & 0xFFFF_FFFF == (old + src) % 0x1_0000_0000
            &&& (old & !src) & 0xFFFF_FFFF == old & !src
            &&& (old ^ src) & 0xFFFF_FFFF == old ^ src
            &&& (old | src) & 0xFFFF_FFFF == old | src
            &&& src & 0xFFFF_FFFF == src
            &&& old & 0xFFFF_FFFF == old
            &&& ((old as u32 as i32 as i64) as u64) & 0xFFFF_FFFF == old
            &&& ((src as u32 as i32 as i64) as u64) & 0xFFFF_FFFF == src
            &&& (old >= 0x8000_0000 ==> old as u32 as i32 as i64 == old - 0x1_0000_0000)
            &&& (old < 0x8000_0000 ==> old as u32 as i32 as i64 == old)
            &&& (src >= 0x8000_0000 ==> src as u32 as i32 as i64 == src - 0x1_0000_0000)
            &&& (src < 0x8000_0000 ==> src as u32 as i32 as i64 == src)
        }))
        && (size == 8u8 ==> {
            &&& old.wrapping_add(src) & 0xFFFF_FFFF_FFFF_FFFF == (old + src)
                % 0x1_0000_0000_0000_0000
            &&& (old & !src) & 0xFFFF_FFFF_FFFF_FFFF == old & !src
            &&& (old ^ src) & 0xFFFF_FFFF_FFFF_FFFF == old ^ src
            &&& (old | src) & 0xFFFF_FFFF_FFFF_FFFF == old | src
            &&& src & 0xFFFF_FFFF_FFFF_FFFF == src
            &&& old & 0xFFFF_FFFF_FFFF_FFFF == old
            &&& ((old as i64) as u64) & 0xFFFF_FFFF_FFFF_FFFF == old
            &&& ((src as i64) as u64) & 0xFFFF_FFFF_FFFF_FFFF == src
            &&& (old >= 0x8000_0000_0000_0000 ==> old as i64 == old - 0x1_0000_0000_0000_0000)
            &&& (old < 0x8000_0000_0000_0000 ==> old as i64 == old)
            &&& (src >= 0x8000_0000_0000_0000 ==> src as i64 == src - 0x1_0000_0000_0000_0000)
            &&& (src < 0x8000_0000_0000_0000 ==> src as i64 == src)
        })
    ) by (bit_vector);
}

/// What an atomic operation stores, from the old value and the source:
/// see `lemma_atomic_combines`.
proof fn lemma_atomic_value(op: u8, old: u64, src: u64, size: u8)
    requires
        size == 1 || size == 2 || size == 4 || size == 8,
        old <= access_mask(size),
        src <= access_mask(size),
    ensures
        ({
            let k = op & 0xF;
            match crate::exclusive::atomic_result(op, old, src, size) {
                None => k > 8,
                Some(new) => {
                    &&& k <= 8
                    &&& new <= access_mask(size)
                    &&& k == 0 ==> new as int == (old as int + src as int) % pow256(size as nat) as int
                    &&& k == 1 ==> new == old & !src
                    &&& k == 2 ==> new == old ^ src
                    &&& k == 3 ==> new == old | src
                    &&& k == 4 ==> (new == old || new == src) && signed_of_size(new, size)
                        >= signed_of_size(old, size) && signed_of_size(new, size)
                        >= signed_of_size(src, size)
                    &&& k == 5 ==> (new == old || new == src) && signed_of_size(new, size)
                        <= signed_of_size(old, size) && signed_of_size(new, size)
                        <= signed_of_size(src, size)
                    &&& k == 6 ==> (new == old || new == src) && new >= old && new >= src
                    &&& k == 7 ==> (new == old || new == src) && new <= old && new <= src
                    &&& k == 8 ==> new == src
                },
            }
        }),
{
    lemma_access_size(size, old, src);
    lemma_mask_bounds();
    lemma_pow256_values();
}

/// A completed atomic read-modify-write at an `size`-byte address returns
/// the old memory value in the destination and leaves in memory the old
/// value combined with the source register (cut to the access size):
/// LDADD their sum modulo the access size, LDCLR the old bits the source
/// does not have, LDEOR / LDSET their exclusive / inclusive or, LDSMAX /
/// LDSMIN the larger / smaller of the two read as signed, LDUMAX / LDUMIN
/// the larger / smaller read as unsigned, and SWP the source itself. No
/// other operation completes.
#[verifier::rlimit(60)]
pub proof fn lemma_atomic_combines(s: CpuState, mem: Seq<u8>, i: Instr)
    requires
        s.wf(),
        mem.len() == RAM_SIZE,
        i.op == Opcode::Atomic,
        i.size == 1 || i.size == 2 || i.size == 4 || i.size == 8,
        i.rd < 31,
    ensures
        ({
            let (r, t, m) = atomic_step(s, mem, i);
            let size = i.size as nat;
            let pa = translate_spec(s, mem, base_value(s, i.rn), true)->Ok_0;
            let old = mem_read(mem, pa, size)->0;
            let src = s.reg(i.rm, i.sf) & access_mask(i.size);
            let stored = mem_read(m, pa, size)->0;
            let k = (i.imm as u8) & 0xF;
            r is Ok ==> {
                &&& k <= 8
                &&& t.x[i.rd as int] == old & width_mask(i.sf)
                &&& mem_read(m, pa, size) is Some
                &&& k == 0 ==> stored as int == (old as int + src as int) % pow256(size) as int
                &&& k == 1 ==> stored == old & !src
                &&& k == 2 ==> stored == old ^ src
                &&& k == 3 ==> stored == old | src
                &&& k == 4 ==> (stored == old || stored == src) && signed_of_size(stored, i.size)
                    >= signed_of_size(old, i.size) && signed_of_size(stored, i.size)
                    >= signed_of_size(src, i.size)
                &&& k == 5 ==> (stored == old || stored == src) && signed_of_size(stored, i.size)
                    <= signed_of_size(old, i.size) && signed_of_size(stored, i.size)
                    <= signed_of_size(src, i.size)
                &&& k == 6 ==> (stored == old || stored == src) && stored >= old && stored >= src
                &&& k == 7 ==> (stored == old || stored == src) && stored <= old && stored <= src
                &&& k == 8 ==> stored == src
            }
        }),
{
    let (r, t, m) = atomic_step(s, mem, i);
    let size = i.size as nat;
    let pa = translate_spec(s, mem, base_value(s, i.rn), true)->Ok_0;
    if r is Ok {
        let old = mem_read(mem, pa, size)->0;
        let src = s.reg(i.rm, i.sf) & access_mask(i.size);
        lemma_pow256_values();
        lemma_le_value_bound(mem, pa - crate::constants::RAM_BASE, size);
        assert(old <= access_mask(i.size));
        lemma_mask_bounds();
        assert(src <= access_mask(i.size));
        lemma_atomic_value(i.imm as u8, old, src, i.size);
        let new = crate::exclusive::atomic_result(i.imm as u8, old, src, i.size)->0;
        lemma_mem_read_after_write(mem, pa, size, new);
        assert((new as nat % pow256(size)) as u64 == new);
        crate::cpu::lemma_full_mask();
    crate::cpu::lemma_small_mask();
    }
}

/// With translation off and both halves in RAM, STP Rt, Rt2 stores Rt at
/// the address and Rt2 right after it: a load of the pair size at the
/// address gives Rt back and one at the address plus the size gives Rt2
/// (each cut to the size).
pub proof fn lemma_stp_stores_in_order(s: CpuState, mem: Seq<u8>, i: Instr)
    requires
        s.wf(),
        mem.len() == RAM_SIZE,
        s.sys.sctlr_el1 & SCTLR_MMU_ENABLE == 0,
        i.op == Opcode::Stp,
        pair_wf(i),
        in_ram(pair_address(s, i).0, 2 * pair_size(i) as nat),
    ensures
        ({
            let (r, t, m) = pair_step(s, mem, i);
            let va = pair_address(s, i).0;
            let size = pair_size(i) as nat;
            &&& r is Ok
            &&& mem_read(m, va, size) == Some((s.reg(i.rd, i.sf) as nat % pow256(size)) as u64)
            &&& mem_read(m, (va + size) as u64, size) == Some(
                (s.reg(i.rm, i.sf) as nat % pow256(size)) as u64,
            )
        }),
{
    let va = pair_address(s, i).0;
    let size = pair_size(i) as nat;
    let va2 = va.wrapping_add(size as u64);
    assert(va2 == va + size);
    let v1 = s.reg(i.rd, i.sf);
    let v2 = s.reg(i.rm, i.sf);
    lemma_guest_write_untranslated(s, mem, va, size, v1);
    let (w1, s1, m1) = crate::guest::guest_write(s, mem, va, size, v1);
    lemma_guest_write_untranslated(s1, m1, va2, size, v2);
    let m2 = mem_write(m1, va2, size, v2);
    lemma_mem_read_after_write(mem, va, size, v1);
    lemma_mem_read_after_write(m1, va2, size, v2);
    lemma_mem_write_frame(m1, va2, size, v2, va, size);
}

/// With translation off and both halves in RAM, LDP Rt, Rt2 loads Rt from
/// the address and Rt2 from the address plus the size, each cut to the
/// register width, and leaves memory alone (when the two destinations
/// differ and the writeback, if any, does not overwrite them).
pub proof fn lemma_ldp_loads_in_order(s: CpuState, mem: Seq<u8>, i: Instr)
    requires
        s.wf(),
        mem.len() == RAM_SIZE,
        s.sys.sctlr_el1 & SCTLR_MMU_ENABLE == 0,
        i.op == Opcode::Ldp,
        pair_wf(i),
        in_ram(pair_address(s, i).0, 2 * pair_size(i) as nat),
        i.rd < 31,
        i.rm < 31,
        i.rd != i.rm,
        pair_address(s, i).1 != s.base(i.rn, true) ==> i.rn != i.rd && i.rn != i.rm,
    ensures
        ({
            let (r, t, m) = pair_step(s, mem, i);
            let va = pair_address(s, i).0;
            let size = pair_size(i) as nat;
            &&& r is Ok
            &&& m == mem
            &&& t.x[i.rd as int] == mem_read(mem, va, size)->0 & width_mask(i.sf)
            &&& t.x[i.rm as int] == mem_read(mem, (va + size) as u64, size)->0 & width_mask(i.sf)
        }),
{
    let va = pair_address(s, i).0;
    let size = pair_size(i) as nat;
    let va2 = va.wrapping_add(size as u64);
    assert(va2 == va + size);
    lemma_guest_read_untranslated(s, mem, va, size);
    lemma_guest_read_untranslated(s, mem, va2, size);
}

/// The bit of element `e` of a predicate filled by `g` is `g(e)`.
proof fn lemma_fill_pred_at(base: Seq<bool>, es: nat, n: nat, g: spec_fn(nat) -> bool, e: nat)
    requires
        es >= 1,
        e < n,
        n * es <= base.len(),
    ensures
        fill_pred(base, es, n, g).len() == base.len(),
        pred_elem(fill_pred(base, es, n, g), e, es) == g(e),
    decreases n,
{
    let last = (n - 1) as nat;
    assert(last * es < n * es && last * es + es == n * es) by (nonlinear_arith)
        requires
            es >= 1,
            n >= 1,
            last == n - 1,
    ;
    lemma_fill_pred_len(base, es, last, g);
    let prev = fill_pred(base, es, last, g);
    assert(fill_pred(base, es, n, g) == prev.update((last * es) as int, g(last)));
    if e < last {
        lemma_fill_pred_at(base, es, last, g, e);
        assert(e * es < last * es) by (nonlinear_arith)
            requires
                es >= 1,
                e < last,
        ;
    }
}

proof fn lemma_fill_pred_len(base: Seq<bool>, es: nat, n: nat, g: spec_fn(nat) -> bool)
    requires
        es >= 1,
        n * es <= base.len(),
    ensures
        fill_pred(base, es, n, g).len() == base.len(),
    decreases n,
{
    if n > 0 {
        let last = (n - 1) as nat;
        assert(last * es < n * es && last * es <= n * es) by (nonlinear_arith)
            requires
                es >= 1,
                n >= 1,
                last == n - 1,
        ;
        lemma_fill_pred_len(base, es, last, g);
    }
}

/// Some active element of `res` is set, as `any_active` computes it.
proof fn lemma_any_active(mask: Seq<bool>, res: Seq<bool>, es: nat, n: nat)
    ensures
        any_active(mask, res, es, n) == exists|e: nat|
            e < n && #[trigger] pred_elem(mask, e, es) && pred_elem(res, e, es),
    decreases n,
{
    if n > 0 {
        lemma_any_active(mask, res, es, (n - 1) as nat);
        if pred_elem(mask, (n - 1) as nat, es) && pred_elem(res, (n - 1) as nat, es) {
            assert(exists|e: nat| e < n && #[trigger] pred_elem(mask, e, es) && pred_elem(res, e, es));
        }
    }
}

/// Equality of two values sign-extended from `8 * es` bits is equality of
/// their low `8 * es` bits.
proof fn lemma_sign_extend_equal(l: u64, r: u64, es: nat)
    requires
        valid_esize(es),
        (l as nat) < pow256(es),
    ensures
        (sign_extend(l, (8 * es) as u64) == sign_extend(r, (8 * es) as u64)) == (l as int == r as int
            % pow256(es) as int),
{
    lemma_pow256_values();
    assert({
        &&& (l <= 0xFF ==> ((sign_extend(l, 8) == sign_extend(r, 8)) == (l == r % 0x100)))
        &&& (l <= 0xFFFF ==> ((sign_extend(l, 16) == sign_extend(r, 16)) == (l == r % 0x1_0000)))
        &&& (l <= 0xFFFF_FFFF ==> ((sign_extend(l, 32) == sign_extend(r, 32)) == (l == r
            % 0x1_0000_0000)))
    }) by (bit_vector);
    if es == 8 {
        vstd::arithmetic::div_mod::lemma_small_mod(r as nat, pow256(es));
        assert(sign_extend(l, 64) == l && sign_extend(r, 64) == r);
    } else if es == 1 {
        assert((8 * es) as u64 == 8);
    } else if es == 2 {
        assert((8 * es) as u64 == 16);
    } else {
        assert((8 * es) as u64 == 32);
    }
}

/// An SVE integer compare sets the result bit of an active element exactly
/// when its comparison holds, with elements read as unsigned `es`-byte
/// integers (and compared against the immediate for the immediate forms):
/// CMPHS when the first is at least the second, CMPHI when it is strictly
/// greater, CMPEQ / CMPNE when the first equals / differs from the low
/// `es` bytes of the second. Inactive elements are clear. Z is set exactly
/// when no element of the result is set.
pub proof fn lemma_sve_compare_orders_elements(s: CpuState, i: Instr)
    requires
        s.wf(),
        is_compare_op(i.op),
        sve_pred_wf(i),
    ensures
        ({
            let t = sve_pred_step(s, i);
            let es = i.size as nat;
            let n = s.vl as nat / es;
            let res = t.p[i.rd as int];
            &&& forall|e: nat|
                e < n ==> {
                    let l = elem(s.z[i.rn as int], e, es) as int;
                    let r = if is_immediate_compare(i.op) {
                        i.imm as int
                    } else {
                        elem(s.z[i.rm as int], e, es) as int
                    };
                    let holds = if i.op == Opcode::SveCompareHs || i.op == Opcode::SveCompareHsImm {
                        l >= r
                    } else if i.op == Opcode::SveCompareHi || i.op == Opcode::SveCompareHiImm {
                        l > r
                    } else if i.op == Opcode::SveCompareEq || i.op == Opcode::SveCompareEqImm {
                        l == r % pow256(es) as int
                    } else {
                        l != r % pow256(es) as int
                    };
                    #[trigger] pred_elem(res, e, es) == (pred_elem(s.p[i.cond as int], e, es)
                        && holds)
                }
            &&& t.pstate.z == forall|e: nat| e < n ==> !#[trigger] pred_elem(res, e, es)
        }),
{
    let es = i.size as nat;
    let n = s.vl as nat / es;
    let g = |e: nat| compare_bit(s, i, e);
    let res = fill_pred(zero_pred(), es, n, g);
    let mask = s.p[i.cond as int];
    assert(n * es <= SVE_MAX_VL_BYTES) by {
        vstd::arithmetic::div_mod::lemma_fundamental_div_mod(s.vl as int, es as int);
        let vl = s.vl as int;
        assert(n * es <= vl) by (nonlinear_arith)
            requires
                vl == es * n + vl % (es as int),
                vl % (es as int) >= 0,
        ;
    }
    assert forall|e: nat| e < n implies #[trigger] pred_elem(res, e, es) == g(e) by {
        lemma_fill_pred_at(zero_pred(), es, n, g, e);
    }
    assert forall|e: nat| e < n implies #[trigger] pred_elem(res, e, es) == g(e) && (g(e) == {
        let l = elem(s.z[i.rn as int], e, es) as int;
        let r = if is_immediate_compare(i.op) {
            i.imm as int
        } else {
            elem(s.z[i.rm as int], e, es) as int
        };
        let holds = if i.op == Opcode::SveCompareHs || i.op == Opcode::SveCompareHsImm {
            l >= r
        } else if i.op == Opcode::SveCompareHi || i.op == Opcode::SveCompareHiImm {
            l > r
        } else if i.op == Opcode::SveCompareEq || i.op == Opcode::SveCompareEqImm {
            l == r % pow256(es) as int
        } else {
            l != r % pow256(es) as int
        };
        pred_elem(mask, e, es) && holds
    }) by {
        let lv = elem(s.z[i.rn as int], e, es);
        let rv = crate::sve_pred::compare_rhs(s, i, e);
        lemma_le_value_bound(s.z[i.rn as int], (e * es) as int, es);
        lemma_le_value_bound(s.z[i.rm as int], (e * es) as int, es);
        lemma_pow256_values();
        lemma_sign_extend_equal(lv, rv, es);
        if !is_immediate_compare(i.op) {
            vstd::arithmetic::div_mod::lemma_small_mod(rv as nat, pow256(es));
        }
    }
    let t = sve_pred_step(s, i);
    assert(t.p[i.rd as int] == res);
    assert(t.pstate.z == !any_active(mask, res, es, n));
    lemma_any_active(mask, res, es, n);
    assert(t_z_law(s, i, res, mask, es, n)) by {
        if any_active(mask, res, es, n) {
            let e = choose|e: nat| e < n && #[trigger] pred_elem(mask, e, es) && pred_elem(res, e, es);
        } else {
            assert forall|e: nat| e < n implies !#[trigger] pred_elem(res, e, es) by {
                if pred_elem(res, e, es) {
                    assert(pred_elem(mask, e, es));
                }
            }
        }
    }
}

spec fn t_z_law(s: CpuState, i: Instr, res: Seq<bool>, mask: Seq<bool>, es: nat, n: nat) -> bool {
    !any_active(mask, res, es, n) == forall|e: nat| e < n ==> !#[trigger] pred_elem(res, e, es)
}

/// SMULH leaves the high half of the signed 128-bit product: with `h` the
/// result read as signed, `h * 2^64 <= Xn * Xm < (h + 1) * 2^64` for Xn
/// and Xm read as signed.
pub proof fn lemma_smulh_is_high_half(s: CpuState, i: Instr)
    requires
        i.op == Opcode::Smulh,
        i.rd < 31,
        s.wf(),
    ensures
        ({
            let h = signed_value(arith_step(s, i).x[i.rd as int], true);
            let p = signed_value(s.reg(i.rn, true), true) * signed_value(s.reg(i.rm, true), true);
            &&& h * 0x1_0000_0000_0000_0000 <= p
            &&& p < (h + 1) * 0x1_0000_0000_0000_0000
        }),
{
    let vn = s.reg(i.rn, true);
    let vm = s.reg(i.rm, true);
    let a = signed_value(vn, true);
    let b = signed_value(vm, true);
    let d: int = 0x1_0000_0000_0000_0000;
    let half: int = 0x8000_0000_0000_0000;
    lemma_word_bits(0, vn, 0, 0);
    lemma_word_bits(0, vm, 0, 0);
    assert(-half <= a < half && -half <= b < half);
    let p = a * b;
    assert(-half * half < p <= half * half) by (nonlinear_arith)
        requires
            -half <= a < half,
            -half <= b < half,
            p == a * b,
            half > 0,
    ;
    vstd::arithmetic::div_mod::lemma_fundamental_div_mod(p, d);
    let q = p / d;
    assert(d * q <= p < d * q + d);
    assert(-half <= q < half) by (nonlinear_arith)
        requires
            d * q <= p,
            p < d * q + d,
            -half * half < p <= half * half,
            d == 2 * half,
            half == 0x8000_0000_0000_0000,
    ;
    let w = wrap(q, true);
    crate::cpu::lemma_full_mask();
    crate::cpu::lemma_small_mask();
    assert(arith_step(s, i).x[i.rd as int] == w);
    if q >= 0 {
        vstd::arithmetic::div_mod::lemma_small_mod(q as nat, d as nat);
        assert(w as int == q);
        lemma_word_bits(0, w, 0, 0);
    } else {
        vstd::arithmetic::div_mod::lemma_fundamental_div_mod_converse(q, d, -1, q + d);
        assert(w as int == q + d);
        lemma_word_bits(0, w, 0, 0);
    }
    assert(signed_value(w, true) == q);
    assert(q * d == d * q && (q + 1) * d == d * q + d) by (nonlinear_arith);
}

/// A completed CAS returns the old memory value in the destination; memory
/// then holds the new-value register (cut to the access size) when the old
/// value equaled the compare register (cut likewise), and is unchanged
/// otherwise.
pub proof fn lemma_cas_swaps_only_on_match(s: CpuState, mem: Seq<u8>, i: Instr)
    requires
        s.wf(),
        mem.len() == RAM_SIZE,
        i.op == Opcode::Cas,
        i.size == 1 || i.size == 2 || i.size == 4 || i.size == 8,
        i.rd < 31,
    ensures
        ({
            let (r, t, m) = atomic_step(s, mem, i);
            let size = i.size as nat;
            let pa = translate_spec(s, mem, base_value(s, i.rn), true)->Ok_0;
            let old = mem_read(mem, pa, size)->0;
            let expected = s.reg(i.rd, i.sf) & access_mask(i.size);
            let new = s.reg(i.rm, i.sf) & access_mask(i.size);
            r is Ok ==> {
                &&& t.x[i.rd as int] == old & width_mask(i.sf)
                &&& old == expected ==> mem_read(m, pa, size) == Some(new)
                &&& old != expected ==> m == mem
            }
        }),
{
    let (r, t, m) = atomic_step(s, mem, i);
    let size = i.size as nat;
    let pa = translate_spec(s, mem, base_value(s, i.rn), true)->Ok_0;
    if r is Ok {
        let old = mem_read(mem, pa, size)->0;
        let new = s.reg(i.rm, i.sf) & access_mask(i.size);
        lemma_pow256_values();
        lemma_mask_bounds();
        assert(new <= access_mask(i.size));
        lemma_le_value_bound(mem, pa - crate::constants::RAM_BASE, size);
        lemma_access_size(i.size, old, new);
        lemma_mem_read_after_write(mem, pa, size, new);
        assert((new as nat % pow256(size)) as u64 == new);
        crate::cpu::lemma_full_mask();
    crate::cpu::lemma_small_mask();
    }
}

/// With translation off and both words in RAM, LDPSW loads the word at the
/// address into the first destination and the next word into the second,
/// each sign-extended from 32 bits to 64 (when the destinations differ and
/// the writeback, if any, does not overwrite them).
pub proof fn lemma_ldpsw_sign_extends(s: CpuState, mem: Seq<u8>, i: Instr)
    requires
        s.wf(),
        mem.len() == RAM_SIZE,
        s.sys.sctlr_el1 & SCTLR_MMU_ENABLE == 0,
        i.op == Opcode::Ldpsw,
        pair_wf(i),
        in_ram(pair_address(s, i).0, 8),
        i.rd < 31,
        i.rm < 31,
        i.rd != i.rm,
        pair_address(s, i).1 != s.base(i.rn, true) ==> i.rn != i.rd && i.rn != i.rm,
    ensures
        ({
            let (r, t, m) = pair_step(s, mem, i);
            let va = pair_address(s, i).0;
            let lo = mem_read(mem, va, 4)->0 as int;
            let hi = mem_read(mem, (va + 4) as u64, 4)->0 as int;
            &&& r is Ok
            &&& m == mem
            &&& t.x[i.rd as int] as int == if lo >= 0x8000_0000 {
                lo + 0xFFFF_FFFF_0000_0000
            } else {
                lo
            }
            &&& t.x[i.rm as int] as int == if hi >= 0x8000_0000 {
                hi + 0xFFFF_FFFF_0000_0000
            } else {
                hi
            }
        }),
{
    let va = pair_address(s, i).0;
    let va2 = va.wrapping_add(4);
    assert(va2 == va + 4);
    assert(in_ram(va, 4) && in_ram(va2, 4));
    lemma_guest_read_untranslated(s, mem, va, 4);
    lemma_guest_read_untranslated(s, mem, va2, 4);
    lemma_pow256_values();
    let lo = mem_read(mem, va, 4)->0;
    let hi = mem_read(mem, va2, 4)->0;
    lemma_le_value_bound(mem, va - crate::constants::RAM_BASE, 4);
    lemma_le_value_bound(mem, va2 - crate::constants::RAM_BASE, 4);
    lemma_sext32(lo);
    lemma_sext32(hi);
    crate::cpu::lemma_full_mask();
    crate::cpu::lemma_small_mask();
}

proof fn lemma_sext32(v: u64)
    requires
        v <= 0xFFFF_FFFF,
    ensures
        crate::load_pair::sext32(v) as int == if v >= 0x8000_0000 {
            v + 0xFFFF_FFFF_0000_0000
        } else {
            v as int
        },
{
    lemma_word_bits(0, v, 0, 0);
}

/// LSRV shifts right by the shift register modulo the register width:
/// the result is `Xn / 2^(Xm mod W)`, rounded down.
pub proof fn lemma_lsrv_divides(s: CpuState, i: Instr)
    requires
        i.op == Opcode::Lsrv,
        i.rd < 31,
        s.wf(),
    ensures
        ({
            let w: nat = if i.sf {
                64
            } else {
                32
            };
            let n = s.reg(i.rn, i.sf) as nat;
            let m = s.reg(i.rm, i.sf) as nat;
            arith_step(s, i).x[i.rd as int] as nat == n / vstd::arithmetic::power2::pow2(m % w)
        }),
{
    let n = s.reg(i.rn, i.sf);
    let m = s.reg(i.rm, i.sf);
    let a: u64 = if i.sf {
        m & 63
    } else {
        m & 31
    };
    lemma_word_bits(0, m, 0, 0);
    lemma_word_bits(0, n, a, 0);
    assert(n <= width_mask(i.sf)) by {
        if i.rn < 31 {
            lemma_word_bits(s.x[i.rn as int], 0, 0, 0);
        }
    }
    crate::cpu::lemma_full_mask();
    crate::cpu::lemma_small_mask();
    crate::cpu::lemma_small_mask();
    assert(n & width_mask(i.sf) == n);
    assert(crate::alu::shift_value(n, 1, m, i.sf) == n >> a);
    vstd::bits::lemma_u64_shr_is_div(n, a);
}

/// A register value read as signed lies within the width's signed range,
/// and a value of that range wraps to a register value that reads back as
/// itself.
proof fn lemma_signed_range(v: u64, q: int, sf: bool)
    requires
        v <= width_mask(sf),
        -reg_modulus(sf) / 2 <= q < reg_modulus(sf) / 2,
    ensures
        -reg_modulus(sf) / 2 <= signed_value(v, sf) < reg_modulus(sf) / 2,
        signed_value(wrap(q, sf), sf) == q,
        wrap(q, sf) <= width_mask(sf),
{
    let md = reg_modulus(sf);
    lemma_word_bits(0, v, 0, 0);
    let w = wrap(q, sf);
    assert(width_mask(sf) + 1 == md);
    if q >= 0 {
        vstd::arithmetic::div_mod::lemma_small_mod(q as nat, md as nat);
    } else {
        vstd::arithmetic::div_mod::lemma_fundamental_div_mod_converse(q, md, -1, q + md);
    }
    lemma_word_bits(0, w, 0, 0);
}

/// SDIV divides the register values read as signed, rounding toward zero:
/// with `q` the result read as signed, the remainder `Xn - q * Xm` is
/// smaller in size than `Xm` and is zero or has the sign of `Xn`. (Division
/// by zero gives 0; the one overflowing quotient, the most negative value
/// divided by -1, is left out.)
pub proof fn lemma_sdiv_truncates(s: CpuState, i: Instr)
    requires
        i.op == Opcode::Sdiv,
        i.rd < 31,
        s.wf(),
    ensures
        ({
            let t = arith_step(s, i);
            let a = signed_value(s.reg(i.rn, i.sf), i.sf);
            let b = signed_value(s.reg(i.rm, i.sf), i.sf);
            let q = signed_value(t.x[i.rd as int], i.sf);
            let rem = a - q * b;
            &&& s.reg(i.rm, i.sf) == 0 ==> t.x[i.rd as int] == 0
            &&& (b != 0 && !(a == -reg_modulus(i.sf) / 2 && b == -1)) ==> {
                &&& abs_int(rem) < abs_int(b)
                &&& rem == 0 || (rem < 0) == (a < 0)
            }
        }),
{
    let sf = i.sf;
    let n = s.reg(i.rn, sf);
    let m = s.reg(i.rm, sf);
    let h = reg_modulus(sf) / 2;
    crate::cpu::lemma_full_mask();
    crate::cpu::lemma_small_mask();
    crate::cpu::lemma_small_mask();
    assert(n <= width_mask(sf) && m <= width_mask(sf)) by {
        if i.rn < 31 {
            lemma_word_bits(s.x[i.rn as int], 0, 0, 0);
        }
        if i.rm < 31 {
            lemma_word_bits(s.x[i.rm as int], 0, 0, 0);
        }
    }
    lemma_signed_range(n, 0, sf);
    lemma_signed_range(m, 0, sf);
    let a = signed_value(n, sf);
    let b = signed_value(m, sf);
    if m != 0 {
        assert(b != 0);
        if !(a == -h && b == -1) {
            let aa = abs_int(a);
            let bb = abs_int(b);
            let qq = aa / bb;
            vstd::arithmetic::div_mod::lemma_fundamental_div_mod(aa, bb);
            let r = aa % bb;
            assert(0 <= r < bb);
            assert(aa == bb * qq + r);
            assert(0 <= qq <= aa) by {
                vstd::arithmetic::div_mod::lemma_div_pos_is_pos(aa, bb);
                vstd::arithmetic::div_mod::lemma_div_is_ordered_by_denominator(aa, 1, bb);
            }
            let qt = trunc_div(a, b);
            assert(-h <= qt < h) by {
                if qq == h {
                    assert(aa == h);
                    assert(bb * h <= h) by (nonlinear_arith)
                        requires
                            aa == bb * qq + r,
                            qq == h,
                            aa == h,
                            r >= 0,
                    ;
                    assert(bb == 1) by (nonlinear_arith)
                        requires
                            bb * h <= h,
                            bb >= 1,
                            h > 0,
                    ;
                }
            }
            lemma_signed_range(n, qt, sf);
            let w = wrap(qt, sf);
            assert(arith_step(s, i).x[i.rd as int] == w);
            assert(signed_value(w, sf) == qt);
            if (a < 0) == (b < 0) {
                assert(qt == qq);
                if a >= 0 {
                    assert(a - qt * b == r) by (nonlinear_arith)
                        requires
                            a == aa,
                            b == bb,
                            qt == qq,
                            aa == bb * qq + r,
                    ;
                } else {
                    assert(a - qt * b == -r) by (nonlinear_arith)
                        requires
                            a == -aa,
                            b == -bb,
                            qt == qq,
                            aa == bb * qq + r,
                    ;
                }
            } else {
                assert(qt == -qq);
                if a >= 0 {
                    assert(a - qt * b == r) by (nonlinear_arith)
                        requires
                            a == aa,
                            b == -bb,
                            qt == -qq,
                            aa == bb * qq + r,
                    ;
                } else {
                    assert(a - qt * b == -r) by (nonlinear_arith)
                        requires
                            a == -aa,
                            b == bb,
                            qt == -qq,
                            aa == bb * qq + r,
                    ;
                }
            }
        }
    }
}

/// Bit `j` of `v`.
pub open spec fn bit_at(v: u64, j: u64) -> bool {
    (v >> j) & 1 == 1
}

/// How shifts, masks and bitwise operations move single bits.
proof fn lemma_bit_moves(x: u64, y: u64, a: u64, j: u64)
    by (bit_vector)
    ensures
        a < 64 && j < 64 ==> ((((x << a) >> j) & 1 == 1) == (j >= a && ((x >> ((j - a) as u64)) & 1 == 1))),
        a < 64 && j < 64 ==> ((((x >> a) >> j) & 1 == 1) == (j + a < 64 && ((x >> ((j + a) as u64)) & 1
            == 1))),
        j < 64 ==> ((((x | y) >> j) & 1 == 1) == (((x >> j) & 1 == 1) || ((y >> j) & 1 == 1))),
        j < 64 ==> ((((x & y) >> j) & 1 == 1) == (((x >> j) & 1 == 1) && ((y >> j) & 1 == 1))),
        j < 64 ==> (((!x >> j) & 1 == 1) == !((x >> j) & 1 == 1)),
        j < 64 ==> (((0xFFFF_FFFFu64 >> j) & 1 == 1) == (j < 32)),
        j < 64 ==> ((0xFFFF_FFFF_FFFF_FFFFu64 >> j) & 1 == 1),
        x <= 0xFFFF_FFFF && 32 <= j < 64 ==> (x >> j) & 1 == 0,
        x & 0xFFFF_FFFF <= 0xFFFF_FFFF,
{
}

/// The operand facts the shift laws share: both registers fit the width,
/// the width mask has exactly the width's bits, and masking the amount
/// with `W - 1` takes it modulo `W`.
proof fn lemma_shift_operands(s: CpuState, i: Instr)
    requires
        s.wf(),
    ensures
        s.reg(i.rn, i.sf) <= width_mask(i.sf),
        s.reg(i.rm, i.sf) <= width_mask(i.sf),
        s.reg(i.rn, i.sf) & width_mask(i.sf) == s.reg(i.rn, i.sf),
        s.reg(i.rm, i.sf) & ((crate::alu::width_bits(i.sf) - 1) as u64) == s.reg(i.rm, i.sf) % crate::alu::width_bits(i.sf),
        i.imm & ((crate::alu::width_bits(i.sf) - 1) as u64) == i.imm % crate::alu::width_bits(i.sf),
        forall|j: u64| j < 64 ==> #[trigger] bit_at(width_mask(i.sf), j) == (j < crate::alu::width_bits(i.sf)),
        0u8 & 3u8 == 0u8,
        2u8 & 3u8 == 2u8,
        3u8 & 3u8 == 3u8,
{
    let n = s.reg(i.rn, i.sf);
    let m = s.reg(i.rm, i.sf);
    if i.rn < 31 {
        lemma_word_bits(s.x[i.rn as int], 0, 0, 0);
    }
    if i.rm < 31 {
        lemma_word_bits(s.x[i.rm as int], 0, 0, 0);
    }
    lemma_word_bits(0, m, 0, 0);
    lemma_word_bits(0, i.imm, 0, 0);
    crate::cpu::lemma_full_mask();
    crate::cpu::lemma_small_mask();
    crate::cpu::lemma_small_mask();
    assert forall|j: u64| j < 64 implies #[trigger] bit_at(width_mask(i.sf), j) == (j < crate::alu::width_bits(
        i.sf,
    )) by {
        lemma_bit_moves(0, 0, 0, j);
    }
}

/// LSLV shifts left by the shift register modulo the width `W`: bit `j` of
/// the result (below `W`) is bit `j - a` of Xn when `j >= a` and clear
/// otherwise, with `a = Xm mod W`; no bit at or above `W` is set.
pub proof fn lemma_lslv_moves_bits_up(s: CpuState, i: Instr)
    requires
        i.op == Opcode::Lslv,
        i.rd < 31,
        s.wf(),
    ensures
        ({
            let r = arith_step(s, i).x[i.rd as int];
            let n = s.reg(i.rn, i.sf);
            let a = s.reg(i.rm, i.sf) % crate::alu::width_bits(i.sf);
            &&& r <= width_mask(i.sf)
            &&& forall|j: u64|
                j < crate::alu::width_bits(i.sf) ==> #[trigger] bit_at(r, j) == (j >= a && bit_at(
                    n,
                    (j - a) as u64,
                ))
        }),
{
    let n = s.reg(i.rn, i.sf);
    let m = s.reg(i.rm, i.sf);
    let wm = width_mask(i.sf);
    let a = m % crate::alu::width_bits(i.sf);
    lemma_shift_operands(s, i);
    let y = (n << a) & wm;
    assert(crate::alu::shift_value(n, 0, m, i.sf) == y);
    crate::cpu::lemma_full_mask();
    crate::cpu::lemma_small_mask();
    lemma_bit_moves(y, 0, 0, 0);
    lemma_bit_moves(n << a, 0, 0, 0);
    assert(y & wm == y);
    assert forall|j: u64| j < crate::alu::width_bits(i.sf) implies #[trigger] bit_at(y, j) == (j >= a && bit_at(
        n,
        (j - a) as u64,
    )) by {
        lemma_bit_moves(n, 0, a, j);
        lemma_bit_moves(n << a, wm, a, j);
        assert(bit_at(wm, j));
    }
}

/// ASRV shifts right by the shift register modulo the width `W`, copying
/// the sign bit in: bit `j` of the result (below `W`) is bit `j + a` of Xn
/// when that is below `W` and the sign bit `W - 1` otherwise, with
/// `a = Xm mod W`; no bit at or above `W` is set.
pub proof fn lemma_asrv_copies_sign(s: CpuState, i: Instr)
    requires
        i.op == Opcode::Asrv,
        i.rd < 31,
        s.wf(),
    ensures
        ({
            let r = arith_step(s, i).x[i.rd as int];
            let n = s.reg(i.rn, i.sf);
            let w = crate::alu::width_bits(i.sf);
            let a = s.reg(i.rm, i.sf) % w;
            &&& r <= width_mask(i.sf)
            &&& forall|j: u64|
                j < w ==> #[trigger] bit_at(r, j) == if j + a < w {
                    bit_at(n, (j + a) as u64)
                } else {
                    bit_at(n, (w - 1) as u64)
                }
        }),
{
    let n = s.reg(i.rn, i.sf);
    let m = s.reg(i.rm, i.sf);
    let wm = width_mask(i.sf);
    let w = crate::alu::width_bits(i.sf);
    let a = m % w;
    lemma_shift_operands(s, i);
    crate::cpu::lemma_full_mask();
    crate::cpu::lemma_small_mask();
    let neg = crate::alu::msb(n, i.sf);
    assert(neg == bit_at(n, (w - 1) as u64));
    let y = if neg {
        ((n >> a) | !(wm >> a)) & wm
    } else {
        n >> a
    };
    assert(crate::alu::shift_value(n, 2, m, i.sf) == y);
    lemma_bit_moves(0, 0, a, 0);
    lemma_bit_moves(n, 0, a, 0);
    lemma_bit_moves((n >> a) | !(wm >> a), 0, 0, 0);
    lemma_word_bits(0, n, a, 0);
    assert(y <= wm);
    assert(y & wm == y);
    assert forall|j: u64| j < w implies #[trigger] bit_at(y, j) == if j + a < w {
        bit_at(n, (j + a) as u64)
    } else {
        bit_at(n, (w - 1) as u64)
    } by {
        lemma_bit_moves(n, 0, a, j);
        lemma_bit_moves(wm, 0, a, j);
        lemma_bit_moves(wm >> a, 0, a, j);
        lemma_bit_moves(n >> a, !(wm >> a), a, j);
        lemma_bit_moves((n >> a) | !(wm >> a), wm, a, j);
        lemma_bit_moves(n, 0, a, (j + a) as u64);
        assert(bit_at(wm, j));
        if j + a < 64 {
            assert(bit_at(wm, (j + a) as u64) == (j + a < w));
        }
    }
}

/// RORV rotates right by the shift register modulo the width `W`: bit `j`
/// of the result (below `W`) is bit `(j + a) mod W` of Xn, with
/// `a = Xm mod W`; no bit at or above `W` is set.
pub proof fn lemma_rorv_rotates(s: CpuState, i: Instr)
    requires
        i.op == Opcode::Rorv,
        i.rd < 31,
        s.wf(),
    ensures
        ({
            let r = arith_step(s, i).x[i.rd as int];
            let n = s.reg(i.rn, i.sf);
            let w = crate::alu::width_bits(i.sf);
            let a = s.reg(i.rm, i.sf) % w;
            &&& r <= width_mask(i.sf)
            &&& forall|j: u64| j < w ==> #[trigger] bit_at(r, j) == bit_at(n, ((j + a) % (w as int)) as u64)
        }),
{
    let n = s.reg(i.rn, i.sf);
    let m = s.reg(i.rm, i.sf);
    let wm = width_mask(i.sf);
    let w = crate::alu::width_bits(i.sf);
    let a = m % w;
    lemma_shift_operands(s, i);
    crate::cpu::lemma_full_mask();
    crate::cpu::lemma_small_mask();
    if a == 0 {
        assert(crate::alu::shift_value(n, 3, m, i.sf) == n);
        assert forall|j: u64| j < w implies #[trigger] bit_at(n, j) == bit_at(n, ((j + a) % (w as int)) as u64) by {
            assert((j + a) % (w as int) == j);
        }
    } else {
        let y = ((n >> a) | (n << ((w - a) as u64))) & wm;
        assert(crate::alu::shift_value(n, 3, m, i.sf) == y);
        lemma_bit_moves(((n >> a) | (n << ((w - a) as u64))), 0, 0, 0);
        assert(y <= wm);
        assert(y & wm == y);
        assert forall|j: u64| j < w implies #[trigger] bit_at(y, j) == bit_at(n, ((j + a) % (w as int)) as u64) by {
            let b = (w - a) as u64;
            lemma_bit_moves(n, 0, a, j);
            lemma_bit_moves(n, 0, b, j);
            lemma_bit_moves(n >> a, n << b, a, j);
            lemma_bit_moves((n >> a) | (n << b), wm, a, j);
            lemma_bit_moves(n, 0, a, (j + a) as u64);
            assert(bit_at(wm, j));
            if j + a < w {
                assert((j + a) % (w as int) == j + a);
            } else {
                assert((j + a) % (w as int) == j - b);
                lemma_bit_moves(n, 0, a, (j + a) as u64);
            }
        }
    }
}

/// EXTR takes `W` bits of the concatenation Xn:Xm from bit `l = imm mod W`
/// of Xm up: bit `j` of the result (below `W`) is bit `j + l` of Xm when
/// that is below `W` and bit `j + l - W` of Xn otherwise; no bit at or
/// above `W` is set.
pub proof fn lemma_extr_extracts(s: CpuState, i: Instr)
    requires
        i.op == Opcode::Extr,
        i.rd < 31,
        s.wf(),
    ensures
        ({
            let r = arith_step(s, i).x[i.rd as int];
            let hi = s.reg(i.rn, i.sf);
            let lo = s.reg(i.rm, i.sf);
            let w = crate::alu::width_bits(i.sf);
            let l = i.imm % w;
            &&& r <= width_mask(i.sf)
            &&& forall|j: u64|
                j < w ==> #[trigger] bit_at(r, j) == if j + l < w {
                    bit_at(lo, (j + l) as u64)
                } else {
                    bit_at(hi, (j + l - w) as u64)
                }
        }),
{
    let hi = s.reg(i.rn, i.sf);
    let lo = s.reg(i.rm, i.sf);
    let wm = width_mask(i.sf);
    let w = crate::alu::width_bits(i.sf);
    let l = i.imm % w;
    lemma_shift_operands(s, i);
    crate::cpu::lemma_full_mask();
    crate::cpu::lemma_small_mask();
    if i.rm < 31 {
        lemma_word_bits(s.x[i.rm as int], 0, 0, 0);
    }
    assert(lo <= wm);
    lemma_word_bits(0, lo, 0, 0);
    if l == 0 {
        assert(crate::dp_arith::extract(hi, lo, i.imm, i.sf) == lo);
        assert(lo & wm == lo);
    } else {
        let b = (w - l) as u64;
        let y = ((lo >> l) | (hi << b)) & wm;
        assert(crate::dp_arith::extract(hi, lo, i.imm, i.sf) == y);
        lemma_bit_moves(((lo >> l) | (hi << b)), 0, 0, 0);
        assert(y <= wm);
        assert(y & wm == y);
        assert forall|j: u64| j < w implies #[trigger] bit_at(y, j) == if j + l < w {
            bit_at(lo, (j + l) as u64)
        } else {
            bit_at(hi, (j + l - w) as u64)
        } by {
            lemma_bit_moves(lo, 0, l, j);
            lemma_bit_moves(hi, 0, b, j);
            lemma_bit_moves(lo >> l, hi << b, l, j);
            lemma_bit_moves((lo >> l) | (hi << b), wm, l, j);
            lemma_bit_moves(lo, 0, l, (j + l) as u64);
            assert(bit_at(wm, j));
        }
    }
}

/// The low 64 bits of a vector register.
pub open spec fn low_half(v: u128) -> u64 {
    (v & 0xFFFF_FFFF_FFFF_FFFF) as u64
}

/// The high 64 bits of a vector register.
pub open spec fn high_half(v: u128) -> u64 {
    (v >> 64u128) as u64
}

/// With translation off and both halves in RAM, the SIMD STP stores Vt at
/// the address and Vt2 right after it: for a 16-byte pair each register
/// lands as its low then its high doubleword; for a pair of 1, 2, 4 or 8
/// bytes each lands as its low `size` bytes.
pub proof fn lemma_simd_stp_stores_in_order(s: CpuState, mem: Seq<u8>, i: Instr)
    requires
        s.wf(),
        mem.len() == RAM_SIZE,
        s.sys.sctlr_el1 & SCTLR_MMU_ENABLE == 0,
        i.op == Opcode::SimdStp,
        pair_wf(i),
        i.size == 1 || i.size == 2 || i.size == 4 || i.size == 8 || i.size == 16,
        in_ram(pair_address(s, i).0, 2 * pair_size(i) as nat),
    ensures
        ({
            let (r, t, m) = pair_step(s, mem, i);
            let va = pair_address(s, i).0;
            let size = pair_size(i) as nat;
            let v1 = s.simd[i.rd as int];
            let v2 = s.simd[i.rm as int];
            &&& r is Ok
            &&& size <= 8 ==> {
                &&& mem_read(m, va, size) == Some((low_half(v1) as nat % pow256(size)) as u64)
                &&& mem_read(m, (va + size) as u64, size) == Some(
                    (low_half(v2) as nat % pow256(size)) as u64,
                )
            }
            &&& size == 16 ==> {
                &&& mem_read(m, va, 8) == Some(low_half(v1))
                &&& mem_read(m, (va + 8) as u64, 8) == Some(high_half(v1))
                &&& mem_read(m, (va + 16) as u64, 8) == Some(low_half(v2))
                &&& mem_read(m, (va + 24) as u64, 8) == Some(high_half(v2))
            }
        }),
{
    let va = pair_address(s, i).0;
    let size = pair_size(i) as nat;
    let v1 = s.simd[i.rd as int];
    let v2 = s.simd[i.rm as int];
    lemma_pow256_values();
    crate::le_bytes::lemma_pow256_positive(8);
    if size <= 8 {
        let va2 = va.wrapping_add(size as u64);
        assert(va2 == va + size);
        lemma_guest_write_untranslated(s, mem, va, size, low_half(v1));
        let (w1, s1, m1) = crate::guest::guest_write(s, mem, va, size, low_half(v1));
        crate::guest::lemma_guest_write_frame(s, mem, va, size, low_half(v1));
        lemma_guest_write_untranslated(s1, m1, va2, size, low_half(v2));
        lemma_mem_read_after_write(mem, va, size, low_half(v1));
        lemma_mem_read_after_write(m1, va2, size, low_half(v2));
        lemma_mem_write_frame(m1, va2, size, low_half(v2), va, size);
    } else {
        let a0 = va;
        let a1 = (va + 8) as u64;
        let a2 = (va + 16) as u64;
        let a3 = (va + 24) as u64;
        assert(va.wrapping_add(8) == a1 && va.wrapping_add(16) == a2 && a2.wrapping_add(8) == a3);
        lemma_guest_write_untranslated(s, mem, a0, 8, low_half(v1));
        let (_, s1, m1) = crate::guest::guest_write(s, mem, a0, 8, low_half(v1));
        crate::guest::lemma_guest_write_frame(s, mem, a0, 8, low_half(v1));
        lemma_guest_write_untranslated(s1, m1, a1, 8, high_half(v1));
        let (_, s2, m2) = crate::guest::guest_write(s1, m1, a1, 8, high_half(v1));
        crate::guest::lemma_guest_write_frame(s1, m1, a1, 8, high_half(v1));
        lemma_guest_write_untranslated(s2, m2, a2, 8, low_half(v2));
        let (_, s3, m3) = crate::guest::guest_write(s2, m2, a2, 8, low_half(v2));
        crate::guest::lemma_guest_write_frame(s2, m2, a2, 8, low_half(v2));
        lemma_guest_write_untranslated(s3, m3, a3, 8, high_half(v2));
        let m4 = mem_write(m3, a3, 8, high_half(v2));
        lemma_mem_read_after_write(mem, a0, 8, low_half(v1));
        lemma_mem_read_after_write(m1, a1, 8, high_half(v1));
        lemma_mem_read_after_write(m2, a2, 8, low_half(v2));
        lemma_mem_read_after_write(m3, a3, 8, high_half(v2));
        lemma_mem_write_frame(m1, a1, 8, high_half(v1), a0, 8);
        lemma_mem_write_frame(m2, a2, 8, low_half(v2), a0, 8);
        lemma_mem_write_frame(m2, a2, 8, low_half(v2), a1, 8);
        lemma_mem_write_frame(m3, a3, 8, high_half(v2), a0, 8);
        lemma_mem_write_frame(m3, a3, 8, high_half(v2), a1, 8);
        lemma_mem_write_frame(m3, a3, 8, high_half(v2), a2, 8);
        assert(low_half(v1) as nat % pow256(8) == low_half(v1) as nat);
        assert(high_half(v1) as nat % pow256(8) == high_half(v1) as nat);
        assert(low_half(v2) as nat % pow256(8) == low_half(v2) as nat);
        assert(high_half(v2) as nat % pow256(8) == high_half(v2) as nat);
    }
}

/// With translation off and both halves in RAM, the SIMD LDP loads Vt from
/// the address and Vt2 from right after it: a 16-byte register from its
/// low then its high doubleword, a smaller one zero-extended from its
/// `size` bytes (when the two destinations differ); memory is unchanged.
pub proof fn lemma_simd_ldp_loads_in_order(s: CpuState, mem: Seq<u8>, i: Instr)
    requires
        s.wf(),
        mem.len() == RAM_SIZE,
        s.sys.sctlr_el1 & SCTLR_MMU_ENABLE == 0,
        i.op == Opcode::SimdLdp,
        pair_wf(i),
        i.size == 1 || i.size == 2 || i.size == 4 || i.size == 8 || i.size == 16,
        i.rd != i.rm,
        in_ram(pair_address(s, i).0, 2 * pair_size(i) as nat),
    ensures
        ({
            let (r, t, m) = pair_step(s, mem, i);
            let va = pair_address(s, i).0;
            let size = pair_size(i) as nat;
            &&& r is Ok
            &&& m == mem
            &&& size <= 8 ==> {
                &&& t.simd[i.rd as int] == mem_read(mem, va, size)->0 as u128
                &&& t.simd[i.rm as int] == mem_read(mem, (va + size) as u64, size)->0 as u128
            }
            &&& size == 16 ==> {
                &&& low_half(t.simd[i.rd as int]) == mem_read(mem, va, 8)->0
                &&& high_half(t.simd[i.rd as int]) == mem_read(mem, (va + 8) as u64, 8)->0
                &&& low_half(t.simd[i.rm as int]) == mem_read(mem, (va + 16) as u64, 8)->0
                &&& high_half(t.simd[i.rm as int]) == mem_read(mem, (va + 24) as u64, 8)->0
            }
        }),
{
    let va = pair_address(s, i).0;
    let size = pair_size(i) as nat;
    if size <= 8 {
        let va2 = va.wrapping_add(size as u64);
        assert(va2 == va + size);
        lemma_guest_read_untranslated(s, mem, va, size);
        let lo = mem_read(mem, va, size)->0;
        lemma_guest_read_untranslated(s.set_simd(i.rd as int, lo as u128), mem, va2, size);
    } else {
        let a1 = (va + 8) as u64;
        let a2 = (va + 16) as u64;
        let a3 = (va + 24) as u64;
        assert(va.wrapping_add(8) == a1 && va.wrapping_add(16) == a2 && a2.wrapping_add(8) == a3);
        lemma_guest_read_untranslated(s, mem, va, 8);
        lemma_guest_read_untranslated(s, mem, a1, 8);
        let x0 = mem_read(mem, va, 8)->0;
        let x1 = mem_read(mem, a1, 8)->0;
        let v1 = (x0 as u128) | ((x1 as u128) << 64u128);
        let t = s.set_simd(i.rd as int, v1);
        lemma_guest_read_untranslated(t, mem, a2, 8);
        lemma_guest_read_untranslated(t, mem, a3, 8);
        let x2 = mem_read(mem, a2, 8)->0;
        let x3 = mem_read(mem, a3, 8)->0;
        let v2 = (x2 as u128) | ((x3 as u128) << 64u128);
        lemma_halves(x0, x1);
        lemma_halves(x2, x3);
    }
}

proof fn lemma_halves(lo: u64, hi: u64)
    ensures
        low_half((lo as u128) | ((hi as u128) << 64u128)) == lo,
        high_half((lo as u128) | ((hi as u128) << 64u128)) == hi,
{
    assert(((((lo as u128) | ((hi as u128) << 64u128)) & 0xFFFF_FFFF_FFFF_FFFF) as u64 == lo) && ((((
        lo as u128) | ((hi as u128) << 64u128)) >> 64u128) as u64 == hi)) by (bit_vector);
}

} // verus!
