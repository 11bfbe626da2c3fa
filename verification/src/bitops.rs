//! Bit and byte reversal and CRC-32 accumulation.
use vstd::prelude::*;
use crate::cpu::{read_reg, write_reg, Armv8Cpu, CpuState};
use crate::exclusive::{access_mask, access_mask_of};
use crate::instr::{Instr, Opcode};

verus! {

pub open spec fn is_bitops_op(op: Opcode) -> bool {
    match op {
        Opcode::Rev | Opcode::Rev32 | Opcode::Rev16 | Opcode::Rbit | Opcode::Crc32
        | Opcode::Crc32c => true,
        _ => false,
    }
}

/// `b` to the power `e`.
pub open spec fn power(b: nat, e: nat) -> nat
    decreases e,
{
    if e == 0 {
        1
    } else {
        b * power(b, (e - 1) as nat)
    }
}

/// The low `count` base-`b` digits of `v`, in reverse order: the lowest
/// digit of `v` becomes the highest of the result.
pub open spec fn reverse_digits(v: nat, b: nat, count: nat) -> nat
    decreases count,
{
    if count == 0 {
        0
    } else {
        (v % b) * power(b, (count - 1) as nat) + reverse_digits(v / b, b, (count - 1) as nat)
    }
}

/// The low `count` chunks of `chunk` bytes of `v`, each with its bytes in
/// reverse order, the chunks themselves staying in place.
pub open spec fn reverse_chunks(v: nat, chunk: nat, count: nat) -> nat
    decreases count,
{
    if count == 0 {
        0
    } else {
        let unit = power(256, chunk);
        reverse_digits(v % unit, 256, chunk) + unit * reverse_chunks(v / unit, chunk, (count - 1) as nat)
    }
}

/// One step of a bit-reflected CRC: shift right, folding in the polynomial
/// when a one leaves.
pub open spec fn crc_shift(c: u64, poly: u64) -> u64 {
    if c & 1 == 1 {
        (c >> 1u64) ^ poly
    } else {
        c >> 1u64
    }
}

pub open spec fn crc_steps(c: u64, poly: u64, n: nat) -> u64
    decreases n,
{
    if n == 0 {
        c
    } else {
        crc_steps(crc_shift(c, poly), poly, (n - 1) as nat)
    }
}

/// The reflected CRC-32 polynomial of CRC32 and the Castagnoli one of
/// CRC32C.
pub const CRC32_POLY: u64 = 0xEDB8_8320;

pub const CRC32C_POLY: u64 = 0x82F6_3B78;

/// The CRC accumulator `acc` updated with the `bytes` low bytes of `data`.
pub open spec fn crc32_update(acc: u64, data: u64, bytes: nat, poly: u64) -> u64 {
    crc_steps(acc ^ data, poly, 8 * bytes)
}

pub open spec fn bitops_step(s: CpuState, i: Instr) -> CpuState {
    let n = s.reg(i.rn, i.sf);
    match i.op {
        Opcode::Rev => s.set_reg(
            i.rd,
            reverse_digits(
                n as nat,
                256,
                if i.sf {
                    8
                } else {
                    4
                },
            ) as u64,
            i.sf,
        ),
        Opcode::Rev32 => s.set_reg(i.rd, reverse_chunks(s.reg(i.rn, true) as nat, 4, 2) as u64, true),
        Opcode::Rev16 => s.set_reg(
            i.rd,
            reverse_chunks(
                n as nat,
                2,
                if i.sf {
                    4
                } else {
                    2
                },
            ) as u64,
            i.sf,
        ),
        Opcode::Rbit => s.set_reg(
            i.rd,
            reverse_digits(
                n as nat,
                2,
                if i.sf {
                    64
                } else {
                    32
                },
            ) as u64,
            i.sf,
        ),
        _ => {
            let poly = if i.op == Opcode::Crc32 {
                CRC32_POLY
            } else {
                CRC32C_POLY
            };
            s.set_reg(
                i.rd,
                crc32_update(
                    s.reg(i.rn, false),
                    s.reg(i.rm, true) & access_mask(i.size),
                    i.size as nat,
                    poly,
                ),
                false,
            )
        },
    }
}

proof fn lemma_power_positive(b: nat, e: nat)
    requires
        b >= 1,
    ensures
        power(b, e) >= 1,
    decreases e,
{
    if e > 0 {
        lemma_power_positive(b, (e - 1) as nat);
        assert(b * power(b, (e - 1) as nat) >= 1) by (nonlinear_arith)
            requires
                b >= 1,
                power(b, (e - 1) as nat) >= 1,
        ;
    }
}

proof fn lemma_power_mono(b: nat, e1: nat, e2: nat)
    requires
        b >= 1,
        e1 <= e2,
    ensures
        power(b, e1) <= power(b, e2),
    decreases e2,
{
    if e1 < e2 {
        lemma_power_mono(b, e1, (e2 - 1) as nat);
        lemma_power_positive(b, (e2 - 1) as nat);
        assert(power(b, (e2 - 1) as nat) <= b * power(b, (e2 - 1) as nat)) by (nonlinear_arith)
            requires
                b >= 1,
                power(b, (e2 - 1) as nat) >= 1,
        ;
    }
}

proof fn lemma_horner(acc: int, d: int, b: int, p: int)
    ensures
        acc * (b * p) + d * p == (acc * b + d) * p,
{
    assert(acc * (b * p) + d * p == (acc * b + d) * p) by (nonlinear_arith);
}

proof fn lemma_digit_bound(acc: int, d: int, b: int, p: int)
    requires
        0 <= acc < p,
        0 <= d < b,
    ensures
        0 <= acc * b + d < p * b,
{
    assert(0 <= acc * b + d < p * b) by (nonlinear_arith)
        requires
            0 <= acc < p,
            0 <= d < b,
    ;
}

/// Reverse the low `count` base-`b` digits of `v`.
fn reverse_digits_exec(v: u64, b: u64, count: u64) -> (r: u64)
    requires
        b >= 2,
        power(b as nat, count as nat) <= 0x1_0000_0000_0000_0000,
    ensures
        r == reverse_digits(v as nat, b as nat, count as nat),
        r < power(b as nat, count as nat),
{
    let mut acc: u64 = 0;
    let mut x: u64 = v;
    let mut k: u64 = count;
    while k > 0
        invariant
            b >= 2,
            k <= count,
            power(b as nat, count as nat) <= 0x1_0000_0000_0000_0000,
            acc < power(b as nat, (count - k) as nat),
            reverse_digits(v as nat, b as nat, count as nat) == acc * power(b as nat, k as nat)
                + reverse_digits(x as nat, b as nat, k as nat),
        decreases k,
    {
        let d = x % b;
        let ghost p = power(b as nat, (k - 1) as nat);
        let ghost q = power(b as nat, (count - k) as nat);
        proof {
            lemma_horner(acc as int, d as int, b as int, p as int);
            lemma_digit_bound(acc as int, d as int, b as int, q as int);
            assert(power(b as nat, (count - k + 1) as nat) == b * q);
            lemma_power_mono(b as nat, (count - k + 1) as nat, count as nat);
            assert(q * b == b * q) by (nonlinear_arith);
        }
        acc = acc * b + d;
        x = x / b;
        k = k - 1;
    }
    assert(power(b as nat, k as nat) == 1);
    assert(reverse_digits(x as nat, b as nat, k as nat) == 0);
    assert(acc * power(b as nat, k as nat) == acc) by (nonlinear_arith)
        requires
            power(b as nat, k as nat) == 1,
    ;
    acc
}

/// Reverse the bytes within each of the low `count` chunks of `chunk`
/// bytes of `v`.
fn reverse_chunks_exec(v: u64, chunk: u64, count: u64) -> (r: u64)
    requires
        1 <= chunk <= 8,
        power(power(256, chunk as nat), count as nat) <= 0x1_0000_0000_0000_0000,
    ensures
        r == reverse_chunks(v as nat, chunk as nat, count as nat),
{
    let ghost unit_n = power(256, chunk as nat);
    proof {
        lemma_power_mono(256, chunk as nat, 8);
        lemma_power_values();
        lemma_power_positive(256, chunk as nat);
    }
    let mut unit: u128 = 1;
    let mut j: u64 = 0;
    while j < chunk
        invariant
            j <= chunk <= 8,
            unit == power(256, j as nat),
            power(256, 8) == 0x1_0000_0000_0000_0000,
        decreases chunk - j,
    {
        proof {
            lemma_power_mono(256, (j + 1) as nat, 8);
        }
        unit = unit * 256;
        j = j + 1;
    }
    let mut acc: u128 = 0;
    let mut mult: u128 = 1;
    let mut x: u128 = v as u128;
    let mut k: u64 = count;
    while k > 0
        invariant
            1 <= chunk <= 8,
            k <= count,
            unit == unit_n,
            unit_n == power(256, chunk as nat),
            unit_n >= 1,
            unit_n <= 0x1_0000_0000_0000_0000,
            power(unit_n, count as nat) <= 0x1_0000_0000_0000_0000,
            mult == power(unit_n, (count - k) as nat),
            acc < mult,
            x <= u64::MAX,
            reverse_chunks(v as nat, chunk as nat, count as nat) == acc + mult * reverse_chunks(
                x as nat,
                chunk as nat,
                k as nat,
            ),
        decreases k,
    {
        let d = (x % unit) as u64;
        proof {
            assert(power(256, chunk as nat) <= 0x1_0000_0000_0000_0000);
        }
        let rev = reverse_digits_exec(d, 256, chunk);
        let ghost rest = reverse_chunks((x / unit) as nat, chunk as nat, (k - 1) as nat);
        proof {
            lemma_power_mono(unit_n, (count - k + 1) as nat, count as nat);
            assert(power(unit_n, (count - k + 1) as nat) == unit_n * mult);
            assert(acc + rev * mult < unit_n * mult) by (nonlinear_arith)
                requires
                    acc < mult,
                    rev < unit_n,
            ;
            assert(mult * (rev + unit_n * rest) == rev * mult + (unit_n * mult) * rest)
                by (nonlinear_arith);
        }
        acc = acc + rev as u128 * mult;
        mult = mult * unit;
        x = x / unit;
        k = k - 1;
    }
    assert(reverse_chunks(x as nat, chunk as nat, k as nat) == 0);
    assert(mult * reverse_chunks(x as nat, chunk as nat, k as nat) == 0) by (nonlinear_arith)
        requires
            reverse_chunks(x as nat, chunk as nat, k as nat) == 0,
    ;
    acc as u64
}

/// Run `n` steps of a bit-reflected CRC on `c`.
fn crc_steps_exec(c: u64, poly: u64, n: u64) -> (r: u64)
    ensures
        r == crc_steps(c, poly, n as nat),
{
    let mut x = c;
    let mut k: u64 = n;
    while k > 0
        invariant
            k <= n,
            crc_steps(c, poly, n as nat) == crc_steps(x, poly, k as nat),
        decreases k,
    {
        x = if x & 1 == 1 {
            (x >> 1u64) ^ poly
        } else {
            x >> 1u64
        };
        k = k - 1;
    }
    x
}

pub open spec fn bitops_wf(i: Instr) -> bool {
    (i.op == Opcode::Crc32 || i.op == Opcode::Crc32c) ==> (i.size == 1 || i.size == 2 || i.size
        == 4 || i.size == 8)
}

proof fn lemma_power_values()
    ensures
        power(256, 8) == 0x1_0000_0000_0000_0000,
        power(256, 4) == 0x1_0000_0000,
        power(2, 64) == 0x1_0000_0000_0000_0000,
        power(2, 32) == 0x1_0000_0000,
        power(power(256, 2), 4) == 0x1_0000_0000_0000_0000,
        power(power(256, 2), 2) == 0x1_0000_0000,
        power(power(256, 4), 2) == 0x1_0000_0000_0000_0000,
{
    reveal_with_fuel(power, 9);
    assert(power(256, 2) == 0x1_0000);
    assert(power(256, 4) == 0x1_0000_0000);
    assert(power(256, 8) == 0x1_0000_0000_0000_0000);
    assert(power(0x1_0000, 4) == 0x1_0000_0000_0000_0000);
    assert(power(0x1_0000, 2) == 0x1_0000_0000);
    assert(power(0x1_0000_0000, 2) == 0x1_0000_0000_0000_0000);
    lemma_power_two(32);
    lemma_power_two(64);
}

proof fn lemma_power_two(e: nat)
    requires
        e == 32 || e == 64,
    ensures
        e == 32 ==> power(2, e) == 0x1_0000_0000,
        e == 64 ==> power(2, e) == 0x1_0000_0000_0000_0000,
{
    reveal_with_fuel(power, 17);
    assert(power(2, 16) == 0x1_0000);
    lemma_power_product(2, 16, 16);
    lemma_power_product(2, 32, 32);
    assert(power(2, 32) == 0x1_0000 * 0x1_0000);
    assert(power(2, 64) == 0x1_0000_0000 * 0x1_0000_0000);
}

proof fn lemma_power_product(b: nat, e1: nat, e2: nat)
    ensures
        power(b, e1 + e2) == power(b, e1) * power(b, e2),
    decreases e2,
{
    if e2 == 0 {
        assert(power(b, e2) == 1);
        assert(e1 + e2 == e1);
    } else {
        lemma_power_product(b, e1, (e2 - 1) as nat);
        assert(e1 + (e2 - 1) as nat == (e1 + e2 - 1) as nat);
        assert(power(b, e1 + e2) == b * power(b, (e1 + e2 - 1) as nat));
        assert(power(b, e2) == b * power(b, (e2 - 1) as nat));
        assert(b * (power(b, e1) * power(b, (e2 - 1) as nat)) == power(b, e1) * (b * power(
            b,
            (e2 - 1) as nat,
        ))) by (nonlinear_arith);
    }
}

/// Execute a byte or bit reversal or a CRC-32 step.
pub fn exec_bitops(cpu: &mut Armv8Cpu, instr: Instr)
    requires
        old(cpu).wf(),
        is_bitops_op(instr.op),
        bitops_wf(instr),
    ensures
        final(cpu).wf(),
        final(cpu)@ == bitops_step(old(cpu)@, instr),
{
    proof {
        lemma_power_values();
    }
    let n = read_reg(cpu, instr.rn, instr.sf);
    match instr.op {
        Opcode::Rev => {
            let v = reverse_digits_exec(
                n,
                256,
                if instr.sf {
                    8
                } else {
                    4
                },
            );
            write_reg(cpu, instr.rd, v, instr.sf);
        },
        Opcode::Rev32 => {
            let x = read_reg(cpu, instr.rn, true);
            let v = reverse_chunks_exec(x, 4, 2);
            write_reg(cpu, instr.rd, v, true);
        },
        Opcode::Rev16 => {
            let v = reverse_chunks_exec(
                n,
                2,
                if instr.sf {
                    4
                } else {
                    2
                },
            );
            write_reg(cpu, instr.rd, v, instr.sf);
        },
        Opcode::Rbit => {
            let v = reverse_digits_exec(
                n,
                2,
                if instr.sf {
                    64
                } else {
                    32
                },
            );
            write_reg(cpu, instr.rd, v, instr.sf);
        },
        _ => {
            let poly = if instr.op == Opcode::Crc32 {
                CRC32_POLY
            } else {
                CRC32C_POLY
            };
            let acc = read_reg(cpu, instr.rn, false);
            let data = read_reg(cpu, instr.rm, true) & access_mask_of(instr.size);
            let v = crc_steps_exec(acc ^ data, poly, 8 * instr.size as u64);
            write_reg(cpu, instr.rd, v, false);
        },
    }
}

} // verus!
