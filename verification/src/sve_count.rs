//! SVE scalar arithmetic on vector and predicate lengths: CNT*, RDVL,
//! ADDVL / ADDPL and their streaming forms, INC* / DEC*.
use vstd::prelude::*;
use crate::cpu::{read_base, read_reg, write_reg, write_reg_sp, Armv8Cpu, CpuState};
use crate::instr::{Instr, Opcode};
use crate::sve::{pred_count, pred_count_exec, valid_esize};

verus! {

pub open spec fn is_sve_count_op(op: Opcode) -> bool {
    match op {
        Opcode::SveCnt | Opcode::SveRdvl | Opcode::SveRdsvl | Opcode::SveAddvl
        | Opcode::SveAddsvl | Opcode::SveAddpl | Opcode::SveAddspl | Opcode::SveIncScalar
        | Opcode::SveDecScalar => true,
        _ => false,
    }
}

/// The elements of `size` bytes the pattern in `cond` selects, times the
/// multiplier in `imm`.
pub open spec fn scaled_count(s: CpuState, i: Instr) -> u64 {
    (pred_count(i.cond, s.vl as nat / i.size as nat) as u64).wrapping_mul(i.imm)
}

/// The length in bytes that ADDVL, ADDSVL, ADDPL and ADDSPL scale by.
pub open spec fn length_scale(s: CpuState, op: Opcode) -> u64 {
    match op {
        Opcode::SveAddvl => s.vl as u64,
        Opcode::SveAddsvl => s.svl as u64,
        Opcode::SveAddpl => (s.vl / 8) as u64,
        _ => (s.svl / 8) as u64,
    }
}

pub open spec fn sve_count_step(s: CpuState, i: Instr) -> CpuState {
    match i.op {
        Opcode::SveCnt => s.set_reg(i.rd, scaled_count(s, i), true),
        Opcode::SveRdvl => s.set_reg(i.rd, i.imm.wrapping_mul(s.vl as u64), true),
        Opcode::SveRdsvl => s.set_reg(i.rd, i.imm.wrapping_mul(s.svl as u64), true),
        Opcode::SveIncScalar => s.set_reg(i.rd, s.reg(i.rd, true).wrapping_add(scaled_count(s, i)), true),
        Opcode::SveDecScalar => s.set_reg(i.rd, s.reg(i.rd, true).wrapping_sub(scaled_count(s, i)), true),
        _ => s.set_reg_sp(
            i.rd,
            s.base(i.rn, true).wrapping_add(i.imm.wrapping_mul(length_scale(s, i.op))),
            true,
        ),
    }
}

pub open spec fn sve_count_wf(i: Instr) -> bool {
    (i.op == Opcode::SveCnt || i.op == Opcode::SveIncScalar || i.op == Opcode::SveDecScalar)
        ==> valid_esize(i.size as nat)
}

fn scaled_count_exec(cpu: &Armv8Cpu, instr: Instr) -> (r: u64)
    requires
        cpu.wf(),
        valid_esize(instr.size as nat),
    ensures
        r == scaled_count(cpu@, instr),
{
    let elements = cpu.sve_vl_bytes as u64 / instr.size as u64;
    pred_count_exec(instr.cond, elements).wrapping_mul(instr.imm)
}

/// Execute an SVE length or element-count instruction.
pub fn exec_sve_count(cpu: &mut Armv8Cpu, instr: Instr)
    requires
        old(cpu).wf(),
        is_sve_count_op(instr.op),
        sve_count_wf(instr),
    ensures
        final(cpu).wf(),
        final(cpu)@ == sve_count_step(old(cpu)@, instr),
{
    match instr.op {
        Opcode::SveCnt => {
            let count = scaled_count_exec(cpu, instr);
            write_reg(cpu, instr.rd, count, true);
        },
        Opcode::SveRdvl | Opcode::SveRdsvl => {
            let scale = if instr.op == Opcode::SveRdvl {
                cpu.sve_vl_bytes as u64
            } else {
                cpu.sme_svl_bytes as u64
            };
            write_reg(cpu, instr.rd, instr.imm.wrapping_mul(scale), true);
        },
        Opcode::SveIncScalar | Opcode::SveDecScalar => {
            let count = scaled_count_exec(cpu, instr);
            let old = read_reg(cpu, instr.rd, true);
            let result = if instr.op == Opcode::SveIncScalar {
                old.wrapping_add(count)
            } else {
                old.wrapping_sub(count)
            };
            write_reg(cpu, instr.rd, result, true);
        },
        _ => {
            let scale: u64 = match instr.op {
                Opcode::SveAddvl => cpu.sve_vl_bytes as u64,
                Opcode::SveAddsvl => cpu.sme_svl_bytes as u64,
                Opcode::SveAddpl => (cpu.sve_vl_bytes / 8) as u64,
                _ => (cpu.sme_svl_bytes / 8) as u64,
            };
            let result = read_base(cpu, instr.rn, true).wrapping_add(instr.imm.wrapping_mul(scale));
            write_reg_sp(cpu, instr.rd, result, true);
        },
    }
}

} // verus!
