//! PC-relative literal loads and register-pair loads and stores.
use vstd::prelude::*;
use crate::alu::sign_extend;
use crate::branch::{branch_target, branch_target_spec};
use crate::cpu::{read_base, read_reg, write_reg, write_reg_sp, Armv8Cpu, CpuState};
use crate::guest::{
    guest_read, guest_write, lemma_guest_read_frame, lemma_guest_write_frame, lemma_simd_read_frame,
    lemma_simd_write_frame, read_guest, read_simd_guest, simd_read, simd_write, write_guest,
    write_simd_guest,
};
use crate::instr::{Instr, Opcode};
use crate::load_store::Outcome;
use crate::memory::SystemBus;
use crate::mmu::{translate_data, translate_or_data_fault, ExecError};

verus! {

pub open spec fn sext32(v: u64) -> u64 {
    sign_extend(v & 0xFFFF_FFFF, 32)
}

fn sext32_exec(v: u64) -> (r: u64)
    ensures
        r == sext32(v),
{
    crate::alu::sign_extend_bits(v & 0xFFFF_FFFF, 32)
}

/// LDR (literal): load from PC plus the offset; a non-zero size loads a
/// SIMD&FP register, `cond` 1 is LDRSW.
pub open spec fn ldr_lit_step(s: CpuState, mem: Seq<u8>, i: Instr) -> Outcome {
    let va = branch_target_spec(s.pc, i.imm);
    if i.size != 0 {
        let (r, s1) = simd_read(s, mem, va, i.size as nat);
        match r {
            Ok(v) => (Ok(()), s1.set_simd(i.rd as int, v), mem),
            Err(e) => (Err(e), s1, mem),
        }
    } else if i.cond == 1 {
        let (r, s1) = guest_read(s, mem, va, 4);
        match r {
            Ok(v) => (Ok(()), s1.set_reg(i.rd, sext32(v), true), mem),
            Err(e) => (Err(e), s1, mem),
        }
    } else {
        let (r, s1) = guest_read(
            s,
            mem,
            va,
            if i.sf {
                8
            } else {
                4
            },
        );
        match r {
            Ok(v) => (Ok(()), s1.set_reg(i.rd, v, i.sf), mem),
            Err(e) => (Err(e), s1, mem),
        }
    }
}

pub fn exec_ldr_lit(cpu: &mut Armv8Cpu, bus: &SystemBus, instr: Instr) -> (r: Result<
    (),
    ExecError,
>)
    requires
        old(cpu).wf(),
        bus.wf(),
        instr.rd < 32,
    ensures
        final(cpu).wf(),
        (r, final(cpu)@, bus@) == ldr_lit_step(old(cpu)@, bus@, instr),
{
    let va = branch_target(cpu.regs.pc, instr.imm);
    if instr.size != 0 {
        let v = read_simd_guest(cpu, bus, va, instr.size)?;
        cpu.simd.set(instr.rd as usize, v);
        return Ok(());
    }
    if instr.cond == 1 {
        let v = read_guest(cpu, bus, va, 4)?;
        write_reg(cpu, instr.rd, sext32_exec(v), true);
    } else {
        let size: u8 = if instr.sf {
            8
        } else {
            4
        };
        let v = read_guest(cpu, bus, va, size)?;
        write_reg(cpu, instr.rd, v, instr.sf);
    }
    Ok(())
}

pub open spec fn is_pair_op(op: Opcode) -> bool {
    match op {
        Opcode::Ldp | Opcode::Ldpsw | Opcode::Stp | Opcode::SimdLdp | Opcode::SimdStp => true,
        _ => false,
    }
}

/// Bytes per register of a pair transfer.
pub open spec fn pair_size(i: Instr) -> u64 {
    if i.size != 0 {
        i.size as u64
    } else if i.sf {
        8
    } else {
        4
    }
}

/// The address of a pair transfer and the new base (post-index 1,
/// pre-index 3, otherwise signed offset).
pub open spec fn pair_address(s: CpuState, i: Instr) -> (u64, u64) {
    let base = s.base(i.rn, true);
    if i.cond == 1 {
        (base, branch_target_spec(base, i.imm))
    } else if i.cond == 3 {
        (branch_target_spec(base, i.imm), branch_target_spec(base, i.imm))
    } else {
        (branch_target_spec(base, i.imm), base)
    }
}

/// The two transfers of a pair, at `va` and `va + size`.
pub open spec fn pair_body(s: CpuState, mem: Seq<u8>, i: Instr, va: u64) -> Outcome {
    let size = pair_size(i);
    let va2 = va.wrapping_add(size);
    match i.op {
        Opcode::Ldp => {
            let (r1, s1) = guest_read(s, mem, va, size as nat);
            match r1 {
                Err(e) => (Err(e), s1, mem),
                Ok(lo) => {
                    let (r2, s2) = guest_read(s1, mem, va2, size as nat);
                    match r2 {
                        Err(e) => (Err(e), s2, mem),
                        Ok(hi) => (Ok(()), s2.set_reg(i.rd, lo, i.sf).set_reg(i.rm, hi, i.sf), mem),
                    }
                },
            }
        },
        Opcode::Ldpsw => {
            let (r1, s1) = guest_read(s, mem, va, 4);
            match r1 {
                Err(e) => (Err(e), s1, mem),
                Ok(lo) => {
                    let (r2, s2) = guest_read(s1, mem, va.wrapping_add(4), 4);
                    match r2 {
                        Err(e) => (Err(e), s2, mem),
                        Ok(hi) => (
                            Ok(()),
                            s2.set_reg(i.rd, sext32(lo), true).set_reg(i.rm, sext32(hi), true),
                            mem,
                        ),
                    }
                },
            }
        },
        Opcode::Stp => {
            let v1 = s.reg(i.rd, i.sf);
            let v2 = s.reg(i.rm, i.sf);
            let (r1, s1, m1) = guest_write(s, mem, va, size as nat, v1);
            match r1 {
                Err(e) => (Err(e), s1, m1),
                Ok(_) => guest_write(s1, m1, va2, size as nat, v2),
            }
        },
        Opcode::SimdLdp => {
            let (r1, s1) = simd_read(s, mem, va, size as nat);
            match r1 {
                Err(e) => (Err(e), s1, mem),
                Ok(lo) => {
                    let t = s1.set_simd(i.rd as int, lo);
                    let (r2, s2) = simd_read(t, mem, va2, size as nat);
                    match r2 {
                        Err(e) => (Err(e), s2, mem),
                        Ok(hi) => (Ok(()), s2.set_simd(i.rm as int, hi), mem),
                    }
                },
            }
        },
        _ => {
            let (r1, s1, m1) = simd_write(s, mem, va, size as nat, s.simd[i.rd as int]);
            match r1 {
                Err(e) => (Err(e), s1, m1),
                Ok(_) => simd_write(s1, m1, va2, size as nat, s1.simd[i.rm as int]),
            }
        },
    }
}

/// A pair transfer: check both addresses, transfer, write the base back.
pub open spec fn pair_step(s: CpuState, mem: Seq<u8>, i: Instr) -> Outcome {
    let base = s.base(i.rn, true);
    let (va, new_base) = pair_address(s, i);
    let store = i.op == Opcode::Stp || i.op == Opcode::SimdStp;
    let (t1, s1) = translate_data(s, mem, va, store);
    match t1 {
        Err(e) => (Err(e), s1, mem),
        Ok(_) => {
            let (t2, s2) = translate_data(s1, mem, va.wrapping_add(pair_size(i)), store);
            match t2 {
                Err(e) => (Err(e), s2, mem),
                Ok(_) => {
                    let (r, s3, m3) = pair_body(s2, mem, i, va);
                    match r {
                        Err(e) => (Err(e), s3, m3),
                        Ok(_) => if new_base != base {
                            (Ok(()), s3.set_reg_sp(i.rn, new_base, true), m3)
                        } else {
                            (Ok(()), s3, m3)
                        },
                    }
                },
            }
        },
    }
}

pub open spec fn pair_wf(i: Instr) -> bool {
    &&& i.rd < 32
    &&& i.rm < 32
    &&& (i.op == Opcode::Ldp || i.op == Opcode::Stp) ==> 1 <= pair_size(i) <= 8
}

fn exec_pair_body(cpu: &mut Armv8Cpu, bus: &mut SystemBus, instr: Instr, va: u64) -> (r: Result<
    (),
    ExecError,
>)
    requires
        old(cpu).wf(),
        old(bus).wf(),
        is_pair_op(instr.op),
        pair_wf(instr),
    ensures
        final(cpu).wf(),
        final(bus).wf(),
        (r, final(cpu)@, final(bus)@) == pair_body(old(cpu)@, old(bus)@, instr, va),
{
    let size: u64 = if instr.size != 0 {
        instr.size as u64
    } else if instr.sf {
        8
    } else {
        4
    };
    let va2 = va.wrapping_add(size);
    match instr.op {
        Opcode::Ldp => {
            let lo = read_guest(cpu, bus, va, size as u8)?;
            let hi = read_guest(cpu, bus, va2, size as u8)?;
            write_reg(cpu, instr.rd, lo, instr.sf);
            write_reg(cpu, instr.rm, hi, instr.sf);
            Ok(())
        },
        Opcode::Ldpsw => {
            let lo = read_guest(cpu, bus, va, 4)?;
            let hi = read_guest(cpu, bus, va.wrapping_add(4), 4)?;
            write_reg(cpu, instr.rd, sext32_exec(lo), true);
            write_reg(cpu, instr.rm, sext32_exec(hi), true);
            Ok(())
        },
        Opcode::Stp => {
            let v1 = read_reg(cpu, instr.rd, instr.sf);
            let v2 = read_reg(cpu, instr.rm, instr.sf);
            write_guest(cpu, bus, va, size as u8, v1)?;
            write_guest(cpu, bus, va2, size as u8, v2)
        },
        Opcode::SimdLdp => {
            let lo = read_simd_guest(cpu, bus, va, size as u8)?;
            cpu.simd.set(instr.rd as usize, lo);
            let hi = read_simd_guest(cpu, bus, va2, size as u8)?;
            cpu.simd.set(instr.rm as usize, hi);
            Ok(())
        },
        _ => {
            let v1 = cpu.simd[instr.rd as usize];
            write_simd_guest(cpu, bus, va, size as u8, v1)?;
            let v2 = cpu.simd[instr.rm as usize];
            write_simd_guest(cpu, bus, va2, size as u8, v2)
        },
    }
}

/// Execute a pair load or store.
pub fn exec_ldp_stp(cpu: &mut Armv8Cpu, bus: &mut SystemBus, instr: Instr) -> (r: Result<
    (),
    ExecError,
>)
    requires
        old(cpu).wf(),
        old(bus).wf(),
        is_pair_op(instr.op),
        pair_wf(instr),
    ensures
        final(cpu).wf(),
        final(bus).wf(),
        (r, final(cpu)@, final(bus)@) == pair_step(old(cpu)@, old(bus)@, instr),
{
    let base = read_base(cpu, instr.rn, true);
    let size: u64 = if instr.size != 0 {
        instr.size as u64
    } else if instr.sf {
        8
    } else {
        4
    };
    let (va, new_base) = if instr.cond == 1 {
        (base, branch_target(base, instr.imm))
    } else if instr.cond == 3 {
        let b = branch_target(base, instr.imm);
        (b, b)
    } else {
        (branch_target(base, instr.imm), base)
    };
    let store = instr.op == Opcode::Stp || instr.op == Opcode::SimdStp;
    translate_or_data_fault(cpu, &bus.mem, va, store)?;
    translate_or_data_fault(cpu, &bus.mem, va.wrapping_add(size), store)?;
    exec_pair_body(cpu, bus, instr, va)?;
    if new_base != base {
        write_reg_sp(cpu, instr.rn, new_base, true);
    }
    Ok(())
}


/// A literal load leaves the PC, the cycle count
/// and the interrupt registers as they were (`same_progress`).
pub proof fn lemma_ldr_lit_keeps_progress(s: CpuState, mem: Seq<u8>, i: Instr)
    ensures
        s.same_progress(ldr_lit_step(s, mem, i).1),
{
    let va = branch_target_spec(s.pc, i.imm);
    lemma_simd_read_frame(s, mem, va, i.size as nat);
    lemma_guest_read_frame(s, mem, va, 4);
    lemma_guest_read_frame(s, mem, va, 8);
}

/// A pair transfer leaves the PC, the cycle count
/// and the interrupt registers as they were (`same_progress`).
pub proof fn lemma_pair_keeps_progress(s: CpuState, mem: Seq<u8>, i: Instr)
    ensures
        s.same_progress(pair_step(s, mem, i).1),
{
    let (va, new_base) = pair_address(s, i);
    let store = i.op == Opcode::Stp || i.op == Opcode::SimdStp;
    let (t1, s1) = translate_data(s, mem, va, store);
    let (t2, s2) = translate_data(s1, mem, va.wrapping_add(pair_size(i)), store);
    let size = pair_size(i);
    let va2 = va.wrapping_add(size);
    lemma_guest_read_frame(s2, mem, va, size as nat);
    lemma_guest_read_frame(s2, mem, va, 4);
    let r1 = guest_read(s2, mem, va, size as nat).1;
    let r4 = guest_read(s2, mem, va, 4).1;
    lemma_guest_read_frame(r1, mem, va2, size as nat);
    lemma_guest_read_frame(r4, mem, va.wrapping_add(4), 4);
    let v1 = s2.reg(i.rd, i.sf);
    lemma_guest_write_frame(s2, mem, va, size as nat, v1);
    let (w, w1, m1) = guest_write(s2, mem, va, size as nat, v1);
    lemma_guest_write_frame(w1, m1, va2, size as nat, s2.reg(i.rm, i.sf));
    lemma_simd_read_frame(s2, mem, va, size as nat);
    let (sr, sr1) = simd_read(s2, mem, va, size as nat);
    if let Ok(lo) = sr {
        lemma_simd_read_frame(sr1.set_simd(i.rd as int, lo), mem, va2, size as nat);
    }
    lemma_simd_write_frame(s2, mem, va, size as nat, s2.simd[i.rd as int]);
    let (sw, sw1, sm1) = simd_write(s2, mem, va, size as nat, s2.simd[i.rd as int]);
    lemma_simd_write_frame(sw1, sm1, va2, size as nat, sw1.simd[i.rm as int]);
}

} // verus!
