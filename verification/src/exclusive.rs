//! Exclusive loads and stores, load-acquire / store-release, and the
//! single-copy atomic read-modify-write operations.
use vstd::prelude::*;
use crate::cpu::{read_reg, write_reg, write_reg_sp, Armv8Cpu, CpuState};
use crate::instr::{Instr, Opcode};
use crate::load_store::{base_addr, base_value, Outcome};
use crate::memory::{mem_read, mem_write, SystemBus};
use crate::mmu::{translate_data, translate_or_data_fault, ExecError};

verus! {

pub open spec fn is_exclusive_op(op: Opcode) -> bool {
    match op {
        Opcode::Ldxr | Opcode::Ldar | Opcode::Stxr | Opcode::Stlr | Opcode::Ldxp
        | Opcode::Stxp => true,
        _ => false,
    }
}

pub open spec fn is_atomic_op(op: Opcode) -> bool {
    match op {
        Opcode::Atomic | Opcode::Cas | Opcode::Casp => true,
        _ => false,
    }
}

/// Register width of one half of an exclusive pair.
pub open spec fn pair_half(sf: bool) -> u64 {
    if sf {
        8
    } else {
        4
    }
}

/// The status an exclusive store writes: 0 on success, 1 on failure.
pub open spec fn store_status(success: bool) -> u64 {
    if success {
        0
    } else {
        1
    }
}

/// A single exclusive or ordered transfer, and the two pair forms.
pub open spec fn exclusive_step(s: CpuState, mem: Seq<u8>, i: Instr) -> Outcome {
    let base = base_value(s, i.rn);
    let size = i.size as nat;
    match i.op {
        Opcode::Ldxr => {
            let (t, s1) = translate_data(s, mem, base, false);
            match t {
                Err(e) => (Err(e), s1, mem),
                Ok(pa) => match mem_read(mem, pa, size) {
                    None => (Err(ExecError::BusFault), s1, mem),
                    Some(v) => (
                        Ok(()),
                        s1.set_exclusive(Some((pa, i.size))).set_reg(i.rd, v, i.sf),
                        mem,
                    ),
                },
            }
        },
        Opcode::Ldar => {
            let (t, s1) = translate_data(s, mem, base, false);
            match t {
                Err(e) => (Err(e), s1, mem),
                Ok(pa) => match mem_read(mem, pa, size) {
                    None => (Err(ExecError::BusFault), s1, mem),
                    Some(v) => {
                        let s2 = s1.set_reg(i.rd, v, i.sf);
                        if i.cond == 2 {
                            (Ok(()), s2.set_reg_sp(i.rn, base.wrapping_add(i.imm), true), mem)
                        } else {
                            (Ok(()), s2, mem)
                        }
                    },
                },
            }
        },
        Opcode::Stxr => {
            let (t, s1) = translate_data(s, mem, base, true);
            match t {
                Err(e) => (Err(e), s1, mem),
                Ok(pa) => {
                    let success = s1.exclusive == Some((pa, i.size));
                    let m1 = if success {
                        mem_write(mem, pa, size, s1.reg(i.rd, i.sf))
                    } else {
                        mem
                    };
                    (
                        Ok(()),
                        s1.set_exclusive(None).set_reg(i.imm as u8, store_status(success), false),
                        m1,
                    )
                },
            }
        },
        Opcode::Stlr => {
            let va = if i.cond == 3 {
                base.wrapping_add(i.imm)
            } else {
                base
            };
            let (t, s1) = translate_data(s, mem, va, true);
            match t {
                Err(e) => (Err(e), s1, mem),
                Ok(pa) => {
                    let m1 = mem_write(mem, pa, size, s1.reg(i.rd, i.sf));
                    let s2 = s1.clear_exclusive_if_overlaps(pa, size);
                    if i.cond == 3 {
                        (Ok(()), s2.set_reg_sp(i.rn, va, true), m1)
                    } else {
                        (Ok(()), s2, m1)
                    }
                },
            }
        },
        Opcode::Ldxp => {
            let half = pair_half(i.sf);
            let (t1, s1) = translate_data(s, mem, base, false);
            match t1 {
                Err(e) => (Err(e), s1, mem),
                Ok(pa1) => {
                    let (t2, s2) = translate_data(s1, mem, base.wrapping_add(half), false);
                    match t2 {
                        Err(e) => (Err(e), s2, mem),
                        Ok(pa2) => match mem_read(mem, pa1, half as nat) {
                            None => (Err(ExecError::BusFault), s2, mem),
                            Some(lo) => {
                                let s3 = s2.set_reg(i.rd, lo, i.sf);
                                match mem_read(mem, pa2, half as nat) {
                                    None => (Err(ExecError::BusFault), s3, mem),
                                    Some(hi) => (
                                        Ok(()),
                                        s3.set_reg(i.rm, hi, i.sf).set_exclusive(
                                            Some((pa1, (2 * half) as u8)),
                                        ),
                                        mem,
                                    ),
                                }
                            },
                        },
                    }
                },
            }
        },
        _ => {
            let half = pair_half(i.sf);
            let (t1, s1) = translate_data(s, mem, base, true);
            match t1 {
                Err(e) => (Err(e), s1, mem),
                Ok(pa1) => {
                    let (t2, s2) = translate_data(s1, mem, base.wrapping_add(half), true);
                    match t2 {
                        Err(e) => (Err(e), s2, mem),
                        Ok(pa2) => {
                            let success = s2.exclusive == Some((pa1, (2 * half) as u8));
                            let m1 = if success {
                                mem_write(
                                    mem_write(mem, pa1, half as nat, s2.reg(i.rd, i.sf)),
                                    pa2,
                                    half as nat,
                                    s2.reg(i.rm, i.sf),
                                )
                            } else {
                                mem
                            };
                            (
                                Ok(()),
                                s2.set_exclusive(None).set_reg(
                                    i.imm as u8,
                                    store_status(success),
                                    false,
                                ),
                                m1,
                            )
                        },
                    }
                },
            }
        },
    }
}

/// The operand mask of an access of `size` bytes (zero for sizes an atomic
/// access does not have).
pub open spec fn access_mask(size: u8) -> u64 {
    if size == 1 {
        0xFF
    } else if size == 2 {
        0xFFFF
    } else if size == 4 {
        0xFFFF_FFFF
    } else if size == 8 {
        u64::MAX
    } else {
        0
    }
}

/// `v` read as a signed integer of `size` bytes.
pub open spec fn signed_value(v: u64, size: u8) -> i64 {
    if size == 1 {
        v as i8 as i64
    } else if size == 2 {
        v as i16 as i64
    } else if size == 4 {
        v as u32 as i32 as i64
    } else {
        v as i64
    }
}

/// What an atomic memory operation stores, given the old memory value and
/// the source register: add, bit clear, exclusive or, bit set, signed and
/// unsigned maximum and minimum, or swap. `None` for other operations.
pub open spec fn atomic_result(op: u8, old: u64, source: u64, size: u8) -> Option<u64> {
    let mask = access_mask(size);
    let k = op & 0xF;
    if k == 0 {
        Some(old.wrapping_add(source) & mask)
    } else if k == 1 {
        Some(old & !source & mask)
    } else if k == 2 {
        Some((old ^ source) & mask)
    } else if k == 3 {
        Some((old | source) & mask)
    } else if k == 4 {
        let (a, b) = (signed_value(old, size), signed_value(source, size));
        Some((if a >= b { a } else { b }) as u64 & mask)
    } else if k == 5 {
        let (a, b) = (signed_value(old, size), signed_value(source, size));
        Some((if a <= b { a } else { b }) as u64 & mask)
    } else if k == 6 {
        Some((if old >= source { old } else { source }) & mask)
    } else if k == 7 {
        Some((if old <= source { old } else { source }) & mask)
    } else if k == 8 {
        Some(source & mask)
    } else {
        None
    }
}

/// Atomic read-modify-write, compare-and-swap and compare-and-swap pair.
/// The old value always reaches the destination; memory changes only when
/// the comparison matches.
pub open spec fn atomic_step(s: CpuState, mem: Seq<u8>, i: Instr) -> Outcome {
    let base = base_value(s, i.rn);
    let size = i.size as nat;
    let mask = access_mask(i.size);
    let (t, s1) = translate_data(s, mem, base, true);
    match t {
        Err(e) => (Err(e), s1, mem),
        Ok(pa) => match i.op {
            Opcode::Atomic => match mem_read(mem, pa, size) {
                None => (Err(ExecError::BusFault), s1, mem),
                Some(old) => match atomic_result(
                    i.imm as u8,
                    old,
                    s1.reg(i.rm, i.sf) & mask,
                    i.size,
                ) {
                    None => (Err(ExecError::UnsupportedAtomic), s1, mem),
                    Some(new) => (
                        Ok(()),
                        s1.clear_exclusive_if_overlaps(pa, size).set_reg(i.rd, old, i.sf),
                        mem_write(mem, pa, size, new),
                    ),
                },
            },
            Opcode::Cas => match mem_read(mem, pa, size) {
                None => (Err(ExecError::BusFault), s1, mem),
                Some(old) => if old == s1.reg(i.rd, i.sf) & mask {
                    (
                        Ok(()),
                        s1.clear_exclusive_if_overlaps(pa, size).set_reg(i.rd, old, i.sf),
                        mem_write(mem, pa, size, s1.reg(i.rm, i.sf) & mask),
                    )
                } else {
                    (Ok(()), s1.set_reg(i.rd, old, i.sf), mem)
                },
            },
            _ => match mem_read(mem, pa, size) {
                None => (Err(ExecError::BusFault), s1, mem),
                Some(old_lo) => {
                    let pa2 = (pa + i.size) as u64;
                    match mem_read(mem, pa2, size) {
                        None => (Err(ExecError::BusFault), s1, mem),
                        Some(old_hi) => {
                            let rd2 = (i.rd + 1) as u8;
                            let rm2 = (i.rm + 1) as u8;
                            let matched = old_lo == s1.reg(i.rd, i.sf) & mask && old_hi == s1.reg(
                                rd2,
                                i.sf,
                            ) & mask;
                            let (s2, m2) = if matched {
                                (
                                    s1.clear_exclusive_if_overlaps(
                                        pa,
                                        size,
                                    ).clear_exclusive_if_overlaps(pa2, size),
                                    mem_write(
                                        mem_write(mem, pa, size, s1.reg(i.rm, i.sf) & mask),
                                        pa2,
                                        size,
                                        s1.reg(rm2, i.sf) & mask,
                                    ),
                                )
                            } else {
                                (s1, mem)
                            };
                            (Ok(()), s2.set_reg(i.rd, old_lo, i.sf).set_reg(rd2, old_hi, i.sf), m2)
                        },
                    }
                },
            },
        },
    }
}

/// The instruction fields these operations rely on.
pub open spec fn exclusive_wf(i: Instr) -> bool {
    &&& i.rd < 32
    &&& i.rm < 32
    &&& (i.op != Opcode::Ldxp && i.op != Opcode::Stxp) ==> 1 <= i.size <= 8
}

pub fn access_mask_of(size: u8) -> (r: u64)
    ensures
        r == access_mask(size),
{
    if size == 1 {
        0xFF
    } else if size == 2 {
        0xFFFF
    } else if size == 4 {
        0xFFFF_FFFF
    } else if size == 8 {
        u64::MAX
    } else {
        0
    }
}

fn signed_value_of(v: u64, size: u8) -> (r: i64)
    ensures
        r == signed_value(v, size),
{
    if size == 1 {
        v as i8 as i64
    } else if size == 2 {
        v as i16 as i64
    } else if size == 4 {
        v as u32 as i32 as i64
    } else {
        v as i64
    }
}

/// The value an atomic memory operation stores, or `None` for an operation
/// this engine does not implement.
pub fn atomic_value(op: u8, old: u64, source: u64, size: u8) -> (r: Option<u64>)
    ensures
        r == atomic_result(op, old, source, size),
{
    let mask = access_mask_of(size);
    let k = op & 0xF;
    if k == 0 {
        Some(old.wrapping_add(source) & mask)
    } else if k == 1 {
        Some(old & !source & mask)
    } else if k == 2 {
        Some((old ^ source) & mask)
    } else if k == 3 {
        Some((old | source) & mask)
    } else if k == 4 {
        let a = signed_value_of(old, size);
        let b = signed_value_of(source, size);
        Some((if a >= b { a } else { b }) as u64 & mask)
    } else if k == 5 {
        let a = signed_value_of(old, size);
        let b = signed_value_of(source, size);
        Some((if a <= b { a } else { b }) as u64 & mask)
    } else if k == 6 {
        Some((if old >= source { old } else { source }) & mask)
    } else if k == 7 {
        Some((if old <= source { old } else { source }) & mask)
    } else if k == 8 {
        Some(source & mask)
    } else {
        None
    }
}

/// Execute an exclusive, acquire or release transfer.
pub fn exec_exclusive(cpu: &mut Armv8Cpu, bus: &mut SystemBus, instr: Instr) -> (r: Result<
    (),
    ExecError,
>)
    requires
        old(cpu).wf(),
        old(bus).wf(),
        is_exclusive_op(instr.op),
        exclusive_wf(instr),
    ensures
        final(cpu).wf(),
        final(bus).wf(),
        (r, final(cpu)@, final(bus)@) == exclusive_step(old(cpu)@, old(bus)@, instr),
{
    let base = base_addr(cpu, instr.rn);
    match instr.op {
        Opcode::Ldxr => {
            let pa = translate_or_data_fault(cpu, &bus.mem, base, false)?;
            let val = match bus.read(pa, instr.size) {
                Some(v) => v,
                None => {
                    return Err(ExecError::BusFault);
                },
            };
            cpu.reserve_exclusive(pa, instr.size);
            write_reg(cpu, instr.rd, val, instr.sf);
        },
        Opcode::Ldar => {
            let pa = translate_or_data_fault(cpu, &bus.mem, base, false)?;
            let val = match bus.read(pa, instr.size) {
                Some(v) => v,
                None => {
                    return Err(ExecError::BusFault);
                },
            };
            write_reg(cpu, instr.rd, val, instr.sf);
            if instr.cond == 2 {
                write_reg_sp(cpu, instr.rn, base.wrapping_add(instr.imm), true);
            }
        },
        Opcode::Stxr => {
            let pa = translate_or_data_fault(cpu, &bus.mem, base, true)?;
            let success = cpu.exclusive_matches(pa, instr.size);
            if success {
                let val = read_reg(cpu, instr.rd, instr.sf);
                bus.write(pa, instr.size, val);
            }
            cpu.clear_exclusive();
            write_reg(cpu, instr.imm as u8, if success { 0 } else { 1 }, false);
        },
        Opcode::Stlr => {
            let va = if instr.cond == 3 {
                base.wrapping_add(instr.imm)
            } else {
                base
            };
            let pa = translate_or_data_fault(cpu, &bus.mem, va, true)?;
            let val = read_reg(cpu, instr.rd, instr.sf);
            bus.write(pa, instr.size, val);
            cpu.clear_exclusive_if_overlaps(pa, instr.size);
            if instr.cond == 3 {
                write_reg_sp(cpu, instr.rn, va, true);
            }
        },
        Opcode::Ldxp => {
            let half: u64 = if instr.sf {
                8
            } else {
                4
            };
            let pa1 = translate_or_data_fault(cpu, &bus.mem, base, false)?;
            let pa2 = translate_or_data_fault(cpu, &bus.mem, base.wrapping_add(half), false)?;
            let lo = match bus.read(pa1, half as u8) {
                Some(v) => v,
                None => {
                    return Err(ExecError::BusFault);
                },
            };
            write_reg(cpu, instr.rd, lo, instr.sf);
            let hi = match bus.read(pa2, half as u8) {
                Some(v) => v,
                None => {
                    return Err(ExecError::BusFault);
                },
            };
            write_reg(cpu, instr.rm, hi, instr.sf);
            cpu.reserve_exclusive(pa1, (half * 2) as u8);
        },
        _ => {
            let half: u64 = if instr.sf {
                8
            } else {
                4
            };
            let pa1 = translate_or_data_fault(cpu, &bus.mem, base, true)?;
            let pa2 = translate_or_data_fault(cpu, &bus.mem, base.wrapping_add(half), true)?;
            let success = cpu.exclusive_matches(pa1, (half * 2) as u8);
            if success {
                let v1 = read_reg(cpu, instr.rd, instr.sf);
                let v2 = read_reg(cpu, instr.rm, instr.sf);
                bus.write(pa1, half as u8, v1);
                bus.write(pa2, half as u8, v2);
            }
            cpu.clear_exclusive();
            write_reg(cpu, instr.imm as u8, if success { 0 } else { 1 }, false);
        },
    }
    Ok(())
}

/// Execute an atomic memory operation, a compare-and-swap or a
/// compare-and-swap pair.
pub fn exec_atomic(cpu: &mut Armv8Cpu, bus: &mut SystemBus, instr: Instr) -> (r: Result<
    (),
    ExecError,
>)
    requires
        old(cpu).wf(),
        old(bus).wf(),
        is_atomic_op(instr.op),
        exclusive_wf(instr),
    ensures
        final(cpu).wf(),
        final(bus).wf(),
        (r, final(cpu)@, final(bus)@) == atomic_step(old(cpu)@, old(bus)@, instr),
{
    let base = base_addr(cpu, instr.rn);
    let pa = translate_or_data_fault(cpu, &bus.mem, base, true)?;
    let size = instr.size;
    let mask = access_mask_of(size);
    match instr.op {
        Opcode::Atomic => {
            let old = match bus.read(pa, size) {
                Some(v) => v,
                None => {
                    return Err(ExecError::BusFault);
                },
            };
            let source = read_reg(cpu, instr.rm, instr.sf) & mask;
            let new = match atomic_value(instr.imm as u8, old, source, size) {
                Some(v) => v,
                None => {
                    return Err(ExecError::UnsupportedAtomic);
                },
            };
            bus.write(pa, size, new);
            cpu.clear_exclusive_if_overlaps(pa, size);
            write_reg(cpu, instr.rd, old, instr.sf);
        },
        Opcode::Cas => {
            let old = match bus.read(pa, size) {
                Some(v) => v,
                None => {
                    return Err(ExecError::BusFault);
                },
            };
            let expected = read_reg(cpu, instr.rd, instr.sf) & mask;
            if old == expected {
                let val = read_reg(cpu, instr.rm, instr.sf) & mask;
                bus.write(pa, size, val);
                cpu.clear_exclusive_if_overlaps(pa, size);
            }
            write_reg(cpu, instr.rd, old, instr.sf);
        },
        _ => {
            let old_lo = match bus.read(pa, size) {
                Some(v) => v,
                None => {
                    return Err(ExecError::BusFault);
                },
            };
            let pa2 = pa + size as u64;
            let old_hi = match bus.read(pa2, size) {
                Some(v) => v,
                None => {
                    return Err(ExecError::BusFault);
                },
            };
            let expected_lo = read_reg(cpu, instr.rd, instr.sf) & mask;
            let expected_hi = read_reg(cpu, instr.rd + 1, instr.sf) & mask;
            if old_lo == expected_lo && old_hi == expected_hi {
                let v1 = read_reg(cpu, instr.rm, instr.sf) & mask;
                let v2 = read_reg(cpu, instr.rm + 1, instr.sf) & mask;
                bus.write(pa, size, v1);
                cpu.clear_exclusive_if_overlaps(pa, size);
                bus.write(pa2, size, v2);
                cpu.clear_exclusive_if_overlaps(pa2, size);
            }
            write_reg(cpu, instr.rd, old_lo, instr.sf);
            write_reg(cpu, instr.rd + 1, old_hi, instr.sf);
        },
    }
    Ok(())
}

} // verus!
