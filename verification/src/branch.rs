//! Branches.
use vstd::prelude::*;
use crate::alu::{cond_holds, cond_taken_flags};
use crate::constants::INSTRUCTION_SIZE;
use crate::cpu::{read_reg, write_reg, Armv8Cpu, CpuState};
use crate::instr::{Instr, Opcode};
use crate::timer::{finish, finish_instruction, tick, tick_cycle};

verus! {

pub open spec fn is_branch_op(op: Opcode) -> bool {
    match op {
        Opcode::B | Opcode::Bl | Opcode::Blr | Opcode::Br | Opcode::Ret | Opcode::Cbz
        | Opcode::Cbnz | Opcode::BCond | Opcode::Tbz | Opcode::Tbnz => true,
        _ => false,
    }
}

/// The target of a PC-relative branch or literal: `base` plus the signed
/// offset held two's-complement in `imm`.
pub open spec fn branch_target_spec(base: u64, imm: u64) -> u64 {
    base.wrapping_add(imm)
}

pub fn branch_target(base: u64, imm: u64) -> (r: u64)
    ensures
        r == branch_target_spec(base, imm),
{
    base.wrapping_add(imm)
}

/// Jump to `target`, counting the branch as executed.
pub open spec fn jump(s: CpuState, target: u64) -> CpuState {
    tick(s.set_pc(target))
}

/// Whether a conditional branch of this group is taken.
pub open spec fn branch_taken(s: CpuState, i: Instr) -> bool {
    let v = s.reg(i.rd, i.sf);
    match i.op {
        Opcode::Cbz => v == 0,
        Opcode::Cbnz => v != 0,
        Opcode::BCond => cond_holds(s.pstate, i.cond),
        Opcode::Tbz => (v >> ((i.cond & 63) as u64)) & 1 == 0,
        Opcode::Tbnz => (v >> ((i.cond & 63) as u64)) & 1 != 0,
        _ => true,
    }
}

pub open spec fn branch_step(s: CpuState, i: Instr) -> CpuState {
    let link = s.pc.wrapping_add(INSTRUCTION_SIZE);
    match i.op {
        Opcode::B => jump(s, branch_target_spec(s.pc, i.imm)),
        Opcode::Bl => jump(s.set_reg(30, link, true), branch_target_spec(s.pc, i.imm)),
        Opcode::Blr => jump(s.set_reg(30, link, true), s.reg(i.rn, true)),
        Opcode::Br | Opcode::Ret => jump(s, s.reg(i.rn, true)),
        _ => if branch_taken(s, i) {
            jump(s, branch_target_spec(s.pc, i.imm))
        } else {
            finish(s)
        },
    }
}

fn jump_to(cpu: &mut Armv8Cpu, target: u64)
    requires
        old(cpu).wf(),
    ensures
        final(cpu).wf(),
        final(cpu)@ == jump(old(cpu)@, target),
{
    cpu.regs.pc = target;
    tick_cycle(cpu);
}

/// Execute a branch, conditional or not.
pub fn exec_branch(cpu: &mut Armv8Cpu, instr: Instr)
    requires
        old(cpu).wf(),
        is_branch_op(instr.op),
    ensures
        final(cpu).wf(),
        final(cpu)@ == branch_step(old(cpu)@, instr),
{
    let pc = cpu.regs.pc;
    let link = pc.wrapping_add(INSTRUCTION_SIZE);
    match instr.op {
        Opcode::B => jump_to(cpu, branch_target(pc, instr.imm)),
        Opcode::Bl => {
            write_reg(cpu, 30, link, true);
            jump_to(cpu, branch_target(pc, instr.imm));
        },
        Opcode::Blr => {
            let target = read_reg(cpu, instr.rn, true);
            write_reg(cpu, 30, link, true);
            jump_to(cpu, target);
        },
        Opcode::Br | Opcode::Ret => {
            let target = read_reg(cpu, instr.rn, true);
            jump_to(cpu, target);
        },
        _ => {
            let v = read_reg(cpu, instr.rd, instr.sf);
            let c = instr.cond;
            assert(c & 63u8 < 64) by (bit_vector);
            let bit = (c & 63) as u64;
            let taken = match instr.op {
                Opcode::Cbz => v == 0,
                Opcode::Cbnz => v != 0,
                Opcode::BCond => cond_taken_flags(&cpu.pstate, instr.cond),
                Opcode::Tbz => (v >> bit) & 1 == 0,
                _ => (v >> bit) & 1 != 0,
            };
            if taken {
                jump_to(cpu, branch_target(pc, instr.imm));
            } else {
                finish_instruction(cpu);
            }
        },
    }
}

} // verus!
