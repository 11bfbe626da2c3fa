//! Single-register loads and stores: general-purpose, SIMD&FP, lanes,
//! replicating loads and multi-register SIMD transfers.
use vstd::prelude::*;
use vstd::std_specs::bits::axiom_u8_trailing_zeros;
use crate::alu::{sign_extend, sign_extend_bits};
use crate::constants::{NO_OFFSET_REGISTER, SIMD_MULTI_POST_INDEX, SP_REGISTER_INDEX};
use crate::cpu::{read_reg, write_reg, write_reg_sp, Armv8Cpu, CpuState};
use crate::guest::{
    guest_read, guest_write, lemma_guest_read_frame, lemma_guest_write_frame, lemma_simd_read_frame,
    lemma_simd_write_frame, read_guest, read_simd_guest, simd_read, simd_write, write_guest,
    write_simd_guest,
};
use crate::instr::{Instr, Opcode};
use crate::memory::SystemBus;
use crate::mmu::{translate_data, translate_or_data_fault, ExecError};
use crate::structure::{exec_structure, is_structure_transfer, structure_body, structure_wf};
use crate::simd::{replicate, simd_replicate_element, vector_mask, vector_mask_exec};

verus! {

/// The outcome of an instruction: its result, the CPU state and the RAM.
pub type Outcome = (Result<(), ExecError>, CpuState, Seq<u8>);

pub open spec fn is_ldr_str_op(op: Opcode) -> bool {
    match op {
        Opcode::Ldr | Opcode::LdrSign | Opcode::Str | Opcode::SimdLdr | Opcode::SimdStr
        | Opcode::SimdLd1 | Opcode::SimdLd1Multi | Opcode::SimdLd1Lane | Opcode::SimdLd1r
        | Opcode::SimdSt1Multi | Opcode::SimdSt1Lane | Opcode::SimdLd2 | Opcode::SimdLd3
        | Opcode::SimdLd4 | Opcode::SimdSt2 | Opcode::SimdSt3 | Opcode::SimdSt4 => true,
        _ => false,
    }
}

/// Loads of this group; the others store.
pub open spec fn is_load_op(op: Opcode) -> bool {
    match op {
        Opcode::Ldr | Opcode::LdrSign | Opcode::SimdLdr | Opcode::SimdLd1 | Opcode::SimdLd1Multi
        | Opcode::SimdLd1Lane | Opcode::SimdLd1r | Opcode::SimdLd2 | Opcode::SimdLd3
        | Opcode::SimdLd4 => true,
        _ => false,
    }
}

/// Operations whose address is the plain base register, written back by a
/// register or by the transfer size.
pub open spec fn is_structure_op(op: Opcode) -> bool {
    match op {
        Opcode::SimdLd1 | Opcode::SimdLd1Multi | Opcode::SimdLd2 | Opcode::SimdLd3
        | Opcode::SimdLd4 | Opcode::SimdLd1r | Opcode::SimdSt1Multi | Opcode::SimdSt4 => true,
        _ => false,
    }
}

/// The base register of an address: SP for 31.
pub open spec fn base_value(s: CpuState, rn: u8) -> u64 {
    if rn == SP_REGISTER_INDEX {
        s.sp
    } else if rn < 31 {
        s.x[rn as int]
    } else {
        0
    }
}

/// A register offset extended by `option`: UXTW, SXTW, or used as is.
pub open spec fn extend_offset(v: u64, option: u8) -> u64 {
    if option == 2 {
        v & 0xFFFF_FFFF
    } else if option == 6 {
        sign_extend(v & 0xFFFF_FFFF, 32)
    } else {
        v
    }
}

/// The bytes one register of a transfer moves.
pub open spec fn ldst_size(i: Instr) -> u8 {
    if i.size != 0 {
        i.size
    } else if i.sf {
        8
    } else {
        4
    }
}

/// The element size of lane and replicating forms.
pub open spec fn element_size(i: Instr) -> u8 {
    if i.cond == 0 {
        1
    } else {
        i.cond
    }
}

/// The address of a load or store and the base register value to write
/// back, if any.
pub open spec fn ldst_address(s: CpuState, i: Instr) -> (u64, Option<u64>) {
    let base = base_value(s, i.rn);
    if i.op == Opcode::SimdLd1Lane || i.op == Opcode::SimdSt1Lane {
        (
            base,
            if i.rm == NO_OFFSET_REGISTER {
                None
            } else if i.rm == SIMD_MULTI_POST_INDEX {
                Some(base.wrapping_add(element_size(i) as u64))
            } else {
                Some(base.wrapping_add(s.reg(i.rm, true)))
            },
        )
    } else if is_structure_op(i.op) && i.rm == NO_OFFSET_REGISTER {
        (base, None)
    } else if is_structure_op(i.op) && i.rm != SIMD_MULTI_POST_INDEX {
        (base, Some(base.wrapping_add(s.reg(i.rm, true))))
    } else if i.rm == SIMD_MULTI_POST_INDEX {
        (base, Some(base.wrapping_add(i.imm)))
    } else if i.rm != NO_OFFSET_REGISTER {
        let shift: u64 = if i.imm == 1 {
            i.size.trailing_zeros() as u64
        } else {
            0
        };
        (base.wrapping_add(extend_offset(s.reg(i.rm, true), i.cond) << shift), None)
    } else if i.cond == 1 {
        (base, Some(base.wrapping_add(i.imm)))
    } else if i.cond == 3 {
        (base.wrapping_add(i.imm), Some(base.wrapping_add(i.imm)))
    } else {
        (base.wrapping_add(i.imm), None)
    }
}

/// Sign-extend a loaded value of `size` bytes to the register width.
pub open spec fn sign_extend_load_spec(v: u64, size: u8, sf: bool) -> u64 {
    if size == 1 && !sf {
        sign_extend(v & 0xFF, 8) & 0xFFFF_FFFF
    } else if size == 1 {
        sign_extend(v & 0xFF, 8)
    } else if size == 2 && !sf {
        sign_extend(v & 0xFFFF, 16) & 0xFFFF_FFFF
    } else if size == 2 {
        sign_extend(v & 0xFFFF, 16)
    } else if size == 4 && sf {
        sign_extend(v & 0xFFFF_FFFF, 32)
    } else {
        v
    }
}

/// The bits a lane of `es` bytes at byte offset `shift / 8` occupies.
pub open spec fn lane_mask(es: nat, shift: nat) -> u128 {
    vector_mask(es) << (shift as u128)
}

/// Loading registers `rd .. rd + n` (modulo 32) from consecutive vectors.
pub open spec fn ld1_multi(s: CpuState, mem: Seq<u8>, va: u64, i: Instr, n: nat) -> (
    Result<(), ExecError>,
    CpuState,
)
    decreases n,
{
    if n == 0 {
        (Ok(()), s)
    } else {
        let (r, s1) = ld1_multi(s, mem, va, i, (n - 1) as nat);
        match r {
            Err(e) => (Err(e), s1),
            Ok(_) => {
                let reg = (i.rd as nat + (n - 1)) % 32;
                let reg_va = va.wrapping_add(((n - 1) * ldst_size(i)) as u64);
                let (t, s2) = simd_read(s1, mem, reg_va, i.size as nat);
                match t {
                    Err(e) => (Err(e), s2),
                    Ok(v) => (Ok(()), s2.set_simd(reg as int, v)),
                }
            },
        }
    }
}

/// Storing registers `rd .. rd + n` (modulo 32) to consecutive vectors.
pub open spec fn st1_multi(s: CpuState, mem: Seq<u8>, va: u64, i: Instr, n: nat) -> Outcome
    decreases n,
{
    if n == 0 {
        (Ok(()), s, mem)
    } else {
        let (r, s1, m1) = st1_multi(s, mem, va, i, (n - 1) as nat);
        match r {
            Err(e) => (Err(e), s1, m1),
            Ok(_) => {
                let reg = (i.rd as nat + (n - 1)) % 32;
                let reg_va = va.wrapping_add(((n - 1) * ldst_size(i)) as u64);
                simd_write(s1, m1, reg_va, i.size as nat, s1.simd[reg as int])
            },
        }
    }
}

/// The transfer itself, once the address has been checked.
pub open spec fn ldr_str_body(s: CpuState, mem: Seq<u8>, i: Instr, va: u64) -> Outcome {
    let size = ldst_size(i);
    let rd = i.rd as int;
    match i.op {
        Opcode::SimdLdr | Opcode::SimdLd1 => {
            let (r, s1) = simd_read(s, mem, va, size as nat);
            match r {
                Ok(v) => (Ok(()), s1.set_simd(rd, v), mem),
                Err(e) => (Err(e), s1, mem),
            }
        },
        Opcode::SimdLd1Multi => {
            let (r, s1) = ld1_multi(s, mem, va, i, element_size(i) as nat);
            (r, s1, mem)
        },
        Opcode::SimdLd1Lane => {
            let es = element_size(i) as nat;
            let shift = (i.imm * es * 8) as nat;
            let mask = lane_mask(es, shift);
            let (r, s1) = guest_read(s, mem, va, es);
            match r {
                Ok(v) => (
                    Ok(()),
                    s1.set_simd(rd, (s1.simd[rd] & !mask) | (((v as u128) << (shift as u128)) & mask)),
                    mem,
                ),
                Err(e) => (Err(e), s1, mem),
            }
        },
        Opcode::SimdLd1r => {
            let es = element_size(i) as nat;
            let (r, s1) = guest_read(s, mem, va, es);
            match r {
                Ok(v) => (Ok(()), s1.set_simd(rd, replicate(v as u128, es, (i.size as nat) / es)), mem),
                Err(e) => (Err(e), s1, mem),
            }
        },
        Opcode::SimdLd2 | Opcode::SimdLd3 | Opcode::SimdLd4 | Opcode::SimdSt2 | Opcode::SimdSt3
        | Opcode::SimdSt4 => structure_body(s, mem, i, va),
        Opcode::SimdStr => simd_write(s, mem, va, size as nat, s.simd[rd]),
        Opcode::SimdSt1Multi => st1_multi(s, mem, va, i, element_size(i) as nat),
        Opcode::SimdSt1Lane => {
            let es = element_size(i) as nat;
            let shift = (i.imm * es * 8) as nat;
            guest_write(s, mem, va, es, ((s.simd[rd] & lane_mask(es, shift)) >> (shift as u128)) as u64)
        },
        Opcode::Ldr | Opcode::LdrSign => {
            let (r, s1) = guest_read(s, mem, va, size as nat);
            match r {
                Ok(v) => (
                    Ok(()),
                    s1.set_reg(
                        i.rd,
                        if i.op == Opcode::LdrSign {
                            sign_extend_load_spec(v, size, i.sf)
                        } else {
                            v
                        },
                        i.sf,
                    ),
                    mem,
                ),
                Err(e) => (Err(e), s1, mem),
            }
        },
        _ => guest_write(s, mem, va, size as nat, s.reg(i.rd, i.sf)),
    }
}

/// A load or store of this group: check the first address, transfer, then
/// write the base back.
pub open spec fn ldr_str_step(s: CpuState, mem: Seq<u8>, i: Instr) -> Outcome {
    let (va, wb) = ldst_address(s, i);
    let (t, s1) = translate_data(s, mem, va, !is_load_op(i.op));
    match t {
        Err(e) => (Err(e), s1, mem),
        Ok(_) => {
            let (r, s2, m2) = ldr_str_body(s1, mem, i, va);
            match r {
                Err(e) => (Err(e), s2, m2),
                Ok(_) => match wb {
                    Some(b) => (Ok(()), s2.set_reg_sp(i.rn, b, true), m2),
                    None => (Ok(()), s2, m2),
                },
            }
        },
    }
}

/// Size and index limits that keep every access of this group in range.
pub open spec fn ldr_str_wf(i: Instr) -> bool {
    &&& i.rd < 32
    &&& (i.op == Opcode::Ldr || i.op == Opcode::LdrSign || i.op == Opcode::Str) ==> i.size <= 8
    &&& (i.op == Opcode::SimdLd1Lane || i.op == Opcode::SimdSt1Lane || i.op == Opcode::SimdLd1r)
        ==> (element_size(i) == 1 || element_size(i) == 2 || element_size(i) == 4
        || element_size(i) == 8)
    &&& (i.op == Opcode::SimdLd1Lane || i.op == Opcode::SimdSt1Lane) ==> i.imm * element_size(i)
        < 16
    &&& i.op == Opcode::SimdLd1r ==> i.size <= 16
    &&& is_structure_transfer(i.op) ==> structure_wf(i)
}

pub fn base_addr(cpu: &Armv8Cpu, rn: u8) -> (r: u64)
    requires
        cpu.wf(),
    ensures
        r == base_value(cpu@, rn),
{
    if rn == SP_REGISTER_INDEX {
        cpu.regs.sp
    } else if rn < 31 {
        cpu.regs.x[rn as usize]
    } else {
        0
    }
}

pub fn apply_extension(v: u64, option: u8) -> (r: u64)
    ensures
        r == extend_offset(v, option),
{
    if option == 2 {
        v & 0xFFFF_FFFF
    } else if option == 6 {
        sign_extend_bits(v & 0xFFFF_FFFF, 32)
    } else {
        v
    }
}

pub fn ldst_size_of(i: &Instr) -> (r: u8)
    ensures
        r == ldst_size(*i),
{
    if i.size != 0 {
        i.size
    } else if i.sf {
        8
    } else {
        4
    }
}

pub fn sign_extend_load(v: u64, size: u8, sf: bool) -> (r: u64)
    ensures
        r == sign_extend_load_spec(v, size, sf),
{
    if size == 1 && !sf {
        sign_extend_bits(v & 0xFF, 8) & 0xFFFF_FFFF
    } else if size == 1 {
        sign_extend_bits(v & 0xFF, 8)
    } else if size == 2 && !sf {
        sign_extend_bits(v & 0xFFFF, 16) & 0xFFFF_FFFF
    } else if size == 2 {
        sign_extend_bits(v & 0xFFFF, 16)
    } else if size == 4 && sf {
        sign_extend_bits(v & 0xFFFF_FFFF, 32)
    } else {
        v
    }
}

/// The address of a load or store and its write-back value.
pub fn compute_ldst_va(cpu: &Armv8Cpu, i: &Instr) -> (r: (u64, Option<u64>))
    requires
        cpu.wf(),
    ensures
        r == ldst_address(cpu@, *i),
{
    let base = base_addr(cpu, i.rn);
    let structure = match i.op {
        Opcode::SimdLd1 | Opcode::SimdLd1Multi | Opcode::SimdLd2 | Opcode::SimdLd3
        | Opcode::SimdLd4 | Opcode::SimdLd1r | Opcode::SimdSt1Multi | Opcode::SimdSt4 => true,
        _ => false,
    };
    if i.op == Opcode::SimdLd1Lane || i.op == Opcode::SimdSt1Lane {
        let es: u8 = if i.cond == 0 {
            1
        } else {
            i.cond
        };
        let wb = if i.rm == NO_OFFSET_REGISTER {
            None
        } else if i.rm == SIMD_MULTI_POST_INDEX {
            Some(base.wrapping_add(es as u64))
        } else {
            Some(base.wrapping_add(read_reg(cpu, i.rm, true)))
        };
        (base, wb)
    } else if structure && i.rm == NO_OFFSET_REGISTER {
        (base, None)
    } else if structure && i.rm != SIMD_MULTI_POST_INDEX {
        (base, Some(base.wrapping_add(read_reg(cpu, i.rm, true))))
    } else if i.rm == SIMD_MULTI_POST_INDEX {
        (base, Some(base.wrapping_add(i.imm)))
    } else if i.rm != NO_OFFSET_REGISTER {
        let shift: u64 = if i.imm == 1 {
            proof {
                axiom_u8_trailing_zeros(i.size);
            }
            i.size.trailing_zeros() as u64
        } else {
            0
        };
        let extended = apply_extension(read_reg(cpu, i.rm, true), i.cond);
        (base.wrapping_add(extended << shift), None)
    } else if i.cond == 1 {
        (base, Some(base.wrapping_add(i.imm)))
    } else if i.cond == 3 {
        let b = base.wrapping_add(i.imm);
        (b, Some(b))
    } else {
        (base.wrapping_add(i.imm), None)
    }
}

/// Once a multi-register load fails, later registers keep the failure.
proof fn lemma_ld1_multi_stops(s: CpuState, mem: Seq<u8>, va: u64, i: Instr, k: nat, n: nat)
    requires
        k <= n,
        ld1_multi(s, mem, va, i, k).0 is Err,
    ensures
        ld1_multi(s, mem, va, i, n) == ld1_multi(s, mem, va, i, k),
    decreases n - k,
{
    if k < n {
        lemma_ld1_multi_stops(s, mem, va, i, k, (n - 1) as nat);
    }
}

proof fn lemma_st1_multi_stops(s: CpuState, mem: Seq<u8>, va: u64, i: Instr, k: nat, n: nat)
    requires
        k <= n,
        st1_multi(s, mem, va, i, k).0 is Err,
    ensures
        st1_multi(s, mem, va, i, n) == st1_multi(s, mem, va, i, k),
    decreases n - k,
{
    if k < n {
        lemma_st1_multi_stops(s, mem, va, i, k, (n - 1) as nat);
    }
}

fn exec_ld1_multi(cpu: &mut Armv8Cpu, bus: &SystemBus, va: u64, instr: Instr) -> (r: Result<
    (),
    ExecError,
>)
    requires
        old(cpu).wf(),
        bus.wf(),
    ensures
        final(cpu).wf(),
        (r, final(cpu)@) == ld1_multi(old(cpu)@, bus@, va, instr, element_size(instr) as nat),
{
    let count: u8 = if instr.cond == 0 {
        1
    } else {
        instr.cond
    };
    let vector_size = ldst_size_of(&instr) as u64;
    let ghost s0 = cpu@;
    let mut k: u8 = 0;
    while k < count
        invariant
            cpu.wf(),
            bus.wf(),
            k <= count,
            count == element_size(instr),
            vector_size == ldst_size(instr),
            s0 == old(cpu)@,
            (Ok::<(), ExecError>(()), cpu@) == ld1_multi(s0, bus@, va, instr, k as nat),
        decreases count - k,
    {
        let reg = ((instr.rd as usize) + (k as usize)) % 32;
        assert((k as u64) * vector_size <= 255 * 255) by (nonlinear_arith)
            requires
                k <= 255,
                vector_size <= 255,
        ;
        let reg_va = va.wrapping_add((k as u64) * vector_size);
        match read_simd_guest(cpu, bus, reg_va, instr.size) {
            Ok(v) => {
                cpu.simd.set(reg, v);
            },
            Err(e) => {
                proof {
                    lemma_ld1_multi_stops(s0, bus@, va, instr, (k + 1) as nat, count as nat);
                }
                return Err(e);
            },
        }
        k = k + 1;
    }
    Ok(())
}

fn exec_st1_multi(cpu: &mut Armv8Cpu, bus: &mut SystemBus, va: u64, instr: Instr) -> (r: Result<
    (),
    ExecError,
>)
    requires
        old(cpu).wf(),
        old(bus).wf(),
    ensures
        final(cpu).wf(),
        final(bus).wf(),
        (r, final(cpu)@, final(bus)@) == st1_multi(
            old(cpu)@,
            old(bus)@,
            va,
            instr,
            element_size(instr) as nat,
        ),
{
    let count: u8 = if instr.cond == 0 {
        1
    } else {
        instr.cond
    };
    let vector_size = ldst_size_of(&instr) as u64;
    let ghost s0 = cpu@;
    let ghost m0 = bus@;
    let mut k: u8 = 0;
    while k < count
        invariant
            cpu.wf(),
            bus.wf(),
            k <= count,
            count == element_size(instr),
            vector_size == ldst_size(instr),
            s0 == old(cpu)@,
            m0 == old(bus)@,
            (Ok::<(), ExecError>(()), cpu@, bus@) == st1_multi(s0, m0, va, instr, k as nat),
        decreases count - k,
    {
        let reg = ((instr.rd as usize) + (k as usize)) % 32;
        assert((k as u64) * vector_size <= 255 * 255) by (nonlinear_arith)
            requires
                k <= 255,
                vector_size <= 255,
        ;
        let reg_va = va.wrapping_add((k as u64) * vector_size);
        let v = cpu.simd[reg];
        match write_simd_guest(cpu, bus, reg_va, instr.size, v) {
            Ok(_) => {},
            Err(e) => {
                proof {
                    lemma_st1_multi_stops(s0, m0, va, instr, (k + 1) as nat, count as nat);
                }
                return Err(e);
            },
        }
        k = k + 1;
    }
    Ok(())
}

fn lane_mask_exec(es: u8, shift: u64) -> (r: u128)
    requires
        es == 1 || es == 2 || es == 4 || es == 8,
        shift < 128,
    ensures
        r == lane_mask(es as nat, shift as nat),
{
    vector_mask_exec(es as usize) << (shift as u128)
}

pub proof fn lemma_small_vector_mask(es: nat)
    requires
        es == 1 || es == 2 || es == 4 || es == 8,
    ensures
        vector_mask(es) <= 0xFFFF_FFFF_FFFF_FFFF,
        vector_mask(es) == ((1u128 << ((es * 8) as u128)) - 1) as u128,
{
    assert((1u128 << 8u128) - 1 == 0xFFu128 && (1u128 << 16u128) - 1 == 0xFFFFu128 && (1u128
        << 32u128) - 1 == 0xFFFF_FFFFu128 && (1u128 << 64u128) - 1 == 0xFFFF_FFFF_FFFF_FFFFu128)
        by (bit_vector);
}

fn exec_simd_single(cpu: &mut Armv8Cpu, bus: &mut SystemBus, instr: Instr, va: u64) -> (r: Result<
    (),
    ExecError,
>)
    requires
        old(cpu).wf(),
        old(bus).wf(),
        instr.op == Opcode::SimdLdr || instr.op == Opcode::SimdLd1 || instr.op == Opcode::SimdStr,
        ldr_str_wf(instr),
    ensures
        final(cpu).wf(),
        final(bus).wf(),
        (r, final(cpu)@, final(bus)@) == ldr_str_body(old(cpu)@, old(bus)@, instr, va),
{
    let size = ldst_size_of(&instr);
    let rd = instr.rd as usize;
    if instr.op == Opcode::SimdStr {
        let v = cpu.simd[rd];
        write_simd_guest(cpu, bus, va, size, v)
    } else {
        let v = read_simd_guest(cpu, bus, va, size)?;
        cpu.simd.set(rd, v);
        Ok(())
    }
}

fn exec_lane(cpu: &mut Armv8Cpu, bus: &mut SystemBus, instr: Instr, va: u64) -> (r: Result<
    (),
    ExecError,
>)
    requires
        old(cpu).wf(),
        old(bus).wf(),
        instr.op == Opcode::SimdLd1Lane || instr.op == Opcode::SimdSt1Lane,
        ldr_str_wf(instr),
    ensures
        final(cpu).wf(),
        final(bus).wf(),
        (r, final(cpu)@, final(bus)@) == ldr_str_body(old(cpu)@, old(bus)@, instr, va),
{
    let rd = instr.rd as usize;
    let es: u8 = if instr.cond == 0 {
        1
    } else {
        instr.cond
    };
    assert(instr.imm * es < 16);
    let shift = instr.imm * (es as u64) * 8;
    let mask = lane_mask_exec(es, shift);
    if instr.op == Opcode::SimdLd1Lane {
        let v = read_guest(cpu, bus, va, es)?;
        let old = cpu.simd[rd];
        cpu.simd.set(rd, (old & !mask) | (((v as u128) << (shift as u128)) & mask));
        Ok(())
    } else {
        let m = vector_mask_exec(es as usize);
        proof {
            lemma_small_vector_mask(es as nat);
        }
        let sh = shift as u128;
        let v0 = cpu.simd[rd];
        let value = (v0 & mask) >> sh;
        assert(((v0 & (m << sh)) >> sh) <= m) by (bit_vector)
            requires
                sh < 128,
        ;
        write_guest(cpu, bus, va, es, value as u64)
    }
}

fn exec_ld1r(cpu: &mut Armv8Cpu, bus: &mut SystemBus, instr: Instr, va: u64) -> (r: Result<
    (),
    ExecError,
>)
    requires
        old(cpu).wf(),
        old(bus).wf(),
        instr.op == Opcode::SimdLd1r,
        ldr_str_wf(instr),
    ensures
        final(cpu).wf(),
        final(bus).wf(),
        (r, final(cpu)@, final(bus)@) == ldr_str_body(old(cpu)@, old(bus)@, instr, va),
{
    let es: u8 = if instr.cond == 0 {
        1
    } else {
        instr.cond
    };
    let v = read_guest(cpu, bus, va, es)?;
    cpu.simd.set(
        instr.rd as usize,
        simd_replicate_element(v as u128, es as usize, instr.size as usize),
    );
    Ok(())
}

fn exec_scalar(cpu: &mut Armv8Cpu, bus: &mut SystemBus, instr: Instr, va: u64) -> (r: Result<
    (),
    ExecError,
>)
    requires
        old(cpu).wf(),
        old(bus).wf(),
        instr.op == Opcode::Ldr || instr.op == Opcode::LdrSign || instr.op == Opcode::Str,
        ldr_str_wf(instr),
    ensures
        final(cpu).wf(),
        final(bus).wf(),
        (r, final(cpu)@, final(bus)@) == ldr_str_body(old(cpu)@, old(bus)@, instr, va),
{
    let size = ldst_size_of(&instr);
    if instr.op == Opcode::Str {
        let v = read_reg(cpu, instr.rd, instr.sf);
        write_guest(cpu, bus, va, size, v)
    } else {
        let v = read_guest(cpu, bus, va, size)?;
        let v = if instr.op == Opcode::LdrSign {
            sign_extend_load(v, size, instr.sf)
        } else {
            v
        };
        write_reg(cpu, instr.rd, v, instr.sf);
        Ok(())
    }
}

fn ldr_str_body_exec(cpu: &mut Armv8Cpu, bus: &mut SystemBus, instr: Instr, va: u64) -> (r: Result<
    (),
    ExecError,
>)
    requires
        old(cpu).wf(),
        old(bus).wf(),
        is_ldr_str_op(instr.op),
        ldr_str_wf(instr),
    ensures
        final(cpu).wf(),
        final(bus).wf(),
        (r, final(cpu)@, final(bus)@) == ldr_str_body(old(cpu)@, old(bus)@, instr, va),
{
    match instr.op {
        Opcode::SimdLdr | Opcode::SimdLd1 | Opcode::SimdStr => exec_simd_single(cpu, bus, instr, va),
        Opcode::SimdLd1Multi => exec_ld1_multi(cpu, bus, va, instr),
        Opcode::SimdSt1Multi => exec_st1_multi(cpu, bus, va, instr),
        Opcode::SimdLd1Lane | Opcode::SimdSt1Lane => exec_lane(cpu, bus, instr, va),
        Opcode::SimdLd1r => exec_ld1r(cpu, bus, instr, va),
        Opcode::SimdLd2 | Opcode::SimdLd3 | Opcode::SimdLd4 | Opcode::SimdSt2 | Opcode::SimdSt3
        | Opcode::SimdSt4 => exec_structure(cpu, bus, instr, va),
        _ => exec_scalar(cpu, bus, instr, va),
    }
}

/// Execute a load or store of this group.
pub fn exec_ldr_str(cpu: &mut Armv8Cpu, bus: &mut SystemBus, instr: Instr) -> (r: Result<
    (),
    ExecError,
>)
    requires
        old(cpu).wf(),
        old(bus).wf(),
        is_ldr_str_op(instr.op),
        ldr_str_wf(instr),
    ensures
        final(cpu).wf(),
        final(bus).wf(),
        (r, final(cpu)@, final(bus)@) == ldr_str_step(old(cpu)@, old(bus)@, instr),
{
    let (va, writeback) = compute_ldst_va(cpu, &instr);
    let is_load = match instr.op {
        Opcode::Ldr | Opcode::LdrSign | Opcode::SimdLdr | Opcode::SimdLd1 | Opcode::SimdLd1Multi
        | Opcode::SimdLd1Lane | Opcode::SimdLd1r | Opcode::SimdLd2 | Opcode::SimdLd3
        | Opcode::SimdLd4 => true,
        _ => false,
    };
    translate_or_data_fault(cpu, &bus.mem, va, !is_load)?;
    ldr_str_body_exec(cpu, bus, instr, va)?;
    if let Some(new_base) = writeback {
        write_reg_sp(cpu, instr.rn, new_base, true);
    }
    Ok(())
}


proof fn lemma_ld1_multi_progress(s: CpuState, mem: Seq<u8>, va: u64, i: Instr, n: nat)
    ensures
        s.same_progress(ld1_multi(s, mem, va, i, n).1),
    decreases n,
{
    if n > 0 {
        lemma_ld1_multi_progress(s, mem, va, i, (n - 1) as nat);
        let s1 = ld1_multi(s, mem, va, i, (n - 1) as nat).1;
        let reg_va = va.wrapping_add(((n - 1) * ldst_size(i)) as u64);
        lemma_simd_read_frame(s1, mem, reg_va, i.size as nat);
    }
}

proof fn lemma_st1_multi_progress(s: CpuState, mem: Seq<u8>, va: u64, i: Instr, n: nat)
    ensures
        s.same_progress(st1_multi(s, mem, va, i, n).1),
    decreases n,
{
    if n > 0 {
        lemma_st1_multi_progress(s, mem, va, i, (n - 1) as nat);
        let (r, s1, m1) = st1_multi(s, mem, va, i, (n - 1) as nat);
        let reg = (i.rd as nat + (n - 1)) % 32;
        let reg_va = va.wrapping_add(((n - 1) * ldst_size(i)) as u64);
        lemma_simd_write_frame(s1, m1, reg_va, i.size as nat, s1.simd[reg as int]);
    }
}

/// A load or store of this group leaves the PC, the cycle count
/// and the interrupt registers as they were (`same_progress`).
pub proof fn lemma_ldr_str_keeps_progress(s: CpuState, mem: Seq<u8>, i: Instr)
    ensures
        s.same_progress(ldr_str_step(s, mem, i).1),
{
    let (va, wb) = ldst_address(s, i);
    let (t, s1) = translate_data(s, mem, va, !is_load_op(i.op));
    let size = ldst_size(i);
    let es = element_size(i) as nat;
    lemma_simd_read_frame(s1, mem, va, size as nat);
    lemma_simd_write_frame(s1, mem, va, size as nat, s1.simd[i.rd as int]);
    lemma_guest_read_frame(s1, mem, va, size as nat);
    lemma_guest_read_frame(s1, mem, va, es);
    lemma_guest_write_frame(s1, mem, va, size as nat, s1.reg(i.rd, i.sf));
    let shift = (i.imm * es * 8) as nat;
    lemma_guest_write_frame(
        s1,
        mem,
        va,
        es,
        ((s1.simd[i.rd as int] & lane_mask(es, shift)) >> (shift as u128)) as u64,
    );
    lemma_ld1_multi_progress(s1, mem, va, i, es);
    lemma_st1_multi_progress(s1, mem, va, i, es);
    crate::structure::lemma_structure_keeps_progress(s1, mem, i, va);
}

} // verus!
