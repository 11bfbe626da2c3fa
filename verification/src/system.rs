//! System instructions: system registers, hints, flag manipulation,
//! immediate vector moves, supervisor calls and exception return.
use vstd::prelude::*;
use crate::constants::{
    ESR_EC_SVC64, ESR_IL_BIT, INSTRUCTION_SIZE, PSTATE_I_MASK, SYSREG_DAIF,
    VBAR_SYNC_CURRENT_EL, VBAR_SYNC_LOWER_EL_AARCH64,
};
use crate::cpu::{read_reg, write_reg, Armv8Cpu, CpuState};
use crate::instr::{Instr, Opcode};
use crate::pstate::{pstate_of, spsr_of, PState};
use crate::simd::{replicate, simd_replicate_element};
use crate::sysregs::{spec_next_timer_deadline, spec_read_sys_reg, spec_write_sys_reg, SystemRegisters};
use crate::timer::{enter_el1, enter_el1_exception, tick, tick_cycle};

verus! {

/// Hints, barriers, prefetches and the PSTATE and monitor forms that run
/// as NOP.
pub open spec fn is_nop_like(op: Opcode) -> bool {
    match op {
        Opcode::Nop | Opcode::NopBarrier | Opcode::Chkfeat | Opcode::GcsPushM
        | Opcode::GcsPushX | Opcode::GcsPopM | Opcode::GcsPopX | Opcode::GcsPopCx
        | Opcode::GcsSs1 | Opcode::GcsSs2 | Opcode::Smstop | Opcode::Pacia1716
        | Opcode::Pacib1716 | Opcode::Autia1716 | Opcode::Autib1716 | Opcode::Paciaz
        | Opcode::Paciasp | Opcode::Pacibz | Opcode::Pacibsp | Opcode::Autiaz
        | Opcode::Autiasp | Opcode::Autibz | Opcode::Autibsp | Opcode::Xpaclri | Opcode::Bti
        | Opcode::BtiC | Opcode::BtiJ | Opcode::BtiJc | Opcode::Sev | Opcode::Sevl
        | Opcode::Esb | Opcode::PsbCsync | Opcode::TsbCsync | Opcode::GcsbDsync | Opcode::Csdb
        | Opcode::Clrbhb | Opcode::Yield | Opcode::Dgh | Opcode::Sb | Opcode::DaifSet
        | Opcode::DaifClr | Opcode::Prfm | Opcode::Clrex | Opcode::Dmb | Opcode::Dsb
        | Opcode::Isb => true,
        _ => false,
    }
}

/// Operations that only touch CPU state and then fall through.
pub open spec fn is_system_op(op: Opcode) -> bool {
    is_nop_like(op) || match op {
        Opcode::Mrs | Opcode::Msr | Opcode::SimdMovi | Opcode::Tlbi | Opcode::Wfi | Opcode::Wfe
        | Opcode::Cfinv | Opcode::Rmif | Opcode::Setf8 | Opcode::Setf16 => true,
        _ => false,
    }
}

/// A NOP-like instruction: DAIFSet and DAIFClr (`cond` 1 and 2) set or clear
/// the I mask when bit 1 of the immediate is set, CLREX (`cond` 3) clears
/// the exclusive monitor, a wait hint (`cond` 4) sleeps to the next timer
/// deadline; anything else does nothing.
pub open spec fn nop_like_step(s: CpuState, i: Instr) -> CpuState {
    if i.cond == 1 && i.imm & 2 != 0 {
        CpuState { pstate: PState { daif: s.pstate.daif | PSTATE_I_MASK, ..s.pstate }, ..s }
    } else if i.cond == 2 && i.imm & 2 != 0 {
        CpuState { pstate: PState { daif: s.pstate.daif & !PSTATE_I_MASK, ..s.pstate }, ..s }
    } else if i.cond == 3 {
        s.set_exclusive(None)
    } else if i.cond == 4 {
        advance_to_deadline(s)
    } else {
        s
    }
}

/// The system register an MRS or MSR names.
pub open spec fn sysreg_id(i: Instr) -> u16 {
    (i.imm & 0xFFFF) as u16
}

/// Sleep until the next timer deadline, if one is armed and still ahead.
pub open spec fn advance_to_deadline(s: CpuState) -> CpuState {
    match spec_next_timer_deadline(s.sys) {
        Some(d) => if d > s.sys.cycle_count {
            s.set_sys(SystemRegisters { cycle_count: d, ..s.sys })
        } else {
            s
        },
        None => s,
    }
}

/// `v` rotated right by `amount` modulo 64.
pub open spec fn rotate_right(v: u64, amount: u64) -> u64 {
    let a = amount & 63;
    if a == 0 {
        v
    } else {
        (v >> a) | (v << ((64 - a) as u64))
    }
}

/// MOVI/MVNI: the immediate replicated over the vector.
pub open spec fn movi_value(i: Instr) -> u128 {
    let es: nat = if i.cond == 0 {
        1
    } else {
        i.cond as nat
    };
    replicate(i.imm as u128, es, (i.size as nat) / es)
}

pub open spec fn system_step(s: CpuState, i: Instr) -> CpuState {
    if is_nop_like(i.op) {
        nop_like_step(s, i)
    } else {
        system_step_other(s, i)
    }
}

/// The system operations other than the NOP-like ones.
pub open spec fn system_step_other(s: CpuState, i: Instr) -> CpuState {
    match i.op {
        Opcode::Mrs => {
            let id = sysreg_id(i);
            let v = if id == SYSREG_DAIF {
                s.pstate.daif
            } else {
                spec_read_sys_reg(s.sys, id, s.pstate.el)
            };
            s.set_reg(i.rd, v, true)
        },
        Opcode::Msr => {
            let id = sysreg_id(i);
            let v = s.reg(i.rd, true);
            let t = s.set_sys(spec_write_sys_reg(s.sys, id, v));
            if id == SYSREG_DAIF {
                CpuState { pstate: PState { daif: v & 0x3C0, ..t.pstate }, ..t }
            } else {
                t
            }
        },
        Opcode::SimdMovi => s.set_simd(i.rd as int, movi_value(i)),
        Opcode::Wfi | Opcode::Wfe => advance_to_deadline(s),
        Opcode::Cfinv => s.set_nzcv(s.pstate.n, s.pstate.z, !s.pstate.c, s.pstate.v),
        Opcode::Rmif => {
            let bits = rotate_right(s.reg(i.rn, true), i.imm);
            let mask = i.cond;
            s.set_nzcv(
                if mask & 8 != 0 {
                    bits & 8 != 0
                } else {
                    s.pstate.n
                },
                if mask & 4 != 0 {
                    bits & 4 != 0
                } else {
                    s.pstate.z
                },
                if mask & 2 != 0 {
                    bits & 2 != 0
                } else {
                    s.pstate.c
                },
                if mask & 1 != 0 {
                    bits & 1 != 0
                } else {
                    s.pstate.v
                },
            )
        },
        Opcode::Setf8 | Opcode::Setf16 => {
            let size: u64 = if i.op == Opcode::Setf8 {
                8
            } else {
                16
            };
            let value = s.reg(i.rn, false);
            s.set_nzcv(
                (value >> ((size - 1) as u64)) & 1 != 0,
                value & ((1u64 << size) - 1) as u64 == 0,
                s.pstate.c,
                ((value >> size) ^ (value >> ((size - 1) as u64))) & 1 != 0,
            )
        },
        _ => s,
    }
}

/// SVC: take a synchronous exception to EL1 with the call's immediate in
/// the syndrome, returning to the next instruction.
pub open spec fn svc_step(s: CpuState, imm: u64) -> CpuState {
    let from_lower = s.pstate.el == 0;
    let s1 = s.set_sys(
        SystemRegisters {
            spsr_el1: spsr_of(s.pstate),
            elr_el1: s.pc.wrapping_add(INSTRUCTION_SIZE),
            esr_el1: (ESR_EC_SVC64 << 26u64) | ESR_IL_BIT | (imm & 0xFFFF),
            ..s.sys
        },
    );
    let s2 = enter_el1(s1, from_lower);
    tick(
        s2.set_pc(
            s2.sys.vbar_el1.wrapping_add(
                if from_lower {
                    VBAR_SYNC_LOWER_EL_AARCH64
                } else {
                    VBAR_SYNC_CURRENT_EL
                },
            ),
        ),
    )
}

/// ERET: restore PSTATE from SPSR_EL1 and continue at ELR_EL1; returning to
/// EL0 banks the EL1 stack pointer and restores the EL0 one.
pub open spec fn eret_step(s: CpuState) -> CpuState {
    let np = pstate_of(s.sys.spsr_el1);
    let s1 = if np.el == 0 && s.pstate.el != 0 {
        CpuState { sp: s.sys.sp_el0, sys: SystemRegisters { sp_el1: s.sp, ..s.sys }, ..s }
    } else {
        s
    };
    tick(CpuState { pstate: np, pc: s.sys.elr_el1, exclusive: None, ..s1 })
}

fn advance_timer_deadline(cpu: &mut Armv8Cpu)
    requires
        old(cpu).wf(),
    ensures
        final(cpu).wf(),
        final(cpu)@ == advance_to_deadline(old(cpu)@),
{
    if let Some(deadline) = cpu.sys.next_timer_deadline() {
        if deadline > cpu.sys.cycle_count {
            cpu.sys.cycle_count = deadline;
        }
    }
}

pub(crate) fn rotate_right_exec(v: u64, amount: u64) -> (r: u64)
    ensures
        r == rotate_right(v, amount),
{
    let a = amount & 63;
    assert(amount & 63u64 < 64) by (bit_vector);
    if a == 0 {
        v
    } else {
        (v >> a) | (v << (64 - a))
    }
}

fn exec_nop_like(cpu: &mut Armv8Cpu, instr: Instr)
    requires
        old(cpu).wf(),
        is_nop_like(instr.op),
    ensures
        final(cpu).wf(),
        final(cpu)@ == system_step(old(cpu)@, instr),
{
    if instr.cond == 1 {
        if instr.imm & 2 != 0 {
            cpu.pstate = cpu.pstate.with_irq_masked(true);
        }
    } else if instr.cond == 2 {
        if instr.imm & 2 != 0 {
            cpu.pstate = cpu.pstate.with_irq_masked(false);
        }
    } else if instr.cond == 3 {
        cpu.clear_exclusive();
    } else if instr.cond == 4 {
        advance_timer_deadline(cpu);
    }
}

fn exec_flags(cpu: &mut Armv8Cpu, instr: Instr)
    requires
        old(cpu).wf(),
        instr.op == Opcode::Cfinv || instr.op == Opcode::Rmif || instr.op == Opcode::Setf8
            || instr.op == Opcode::Setf16,
    ensures
        final(cpu).wf(),
        final(cpu)@ == system_step(old(cpu)@, instr),
{
    let (n, z, c, v) = (cpu.pstate.n, cpu.pstate.z, cpu.pstate.c, cpu.pstate.v);
    match instr.op {
        Opcode::Cfinv => cpu.pstate.set_nzcv(n, z, !c, v),
        Opcode::Rmif => {
            let bits = rotate_right_exec(read_reg(cpu, instr.rn, true), instr.imm);
            let mask = instr.cond;
            cpu.pstate.set_nzcv(
                if mask & 8 != 0 {
                    bits & 8 != 0
                } else {
                    n
                },
                if mask & 4 != 0 {
                    bits & 4 != 0
                } else {
                    z
                },
                if mask & 2 != 0 {
                    bits & 2 != 0
                } else {
                    c
                },
                if mask & 1 != 0 {
                    bits & 1 != 0
                } else {
                    v
                },
            );
        },
        _ => {
            let size: u64 = if instr.op == Opcode::Setf8 {
                8
            } else {
                16
            };
            let value = read_reg(cpu, instr.rn, false);
            assert(1u64 << 8u64 == 256 && 1u64 << 16u64 == 65536) by (bit_vector);
            let low_mask = (1u64 << size) - 1;
            cpu.pstate.set_nzcv(
                (value >> (size - 1)) & 1 != 0,
                value & low_mask == 0,
                c,
                ((value >> size) ^ (value >> (size - 1))) & 1 != 0,
            );
        },
    }
}

/// Execute an instruction of this group (PC is advanced by the caller).
pub fn exec_system(cpu: &mut Armv8Cpu, instr: Instr)
    requires
        old(cpu).wf(),
        is_system_op(instr.op),
        instr.op == Opcode::SimdMovi ==> instr.rd < 32 && instr.size <= 16,
    ensures
        final(cpu).wf(),
        final(cpu)@ == system_step(old(cpu)@, instr),
{
    match instr.op {
        Opcode::Mrs => {
            let id = (instr.imm & 0xFFFF) as u16;
            let v = if id == SYSREG_DAIF {
                cpu.pstate.daif()
            } else {
                cpu.sys.read_sys_reg(id, cpu.pstate.el())
            };
            write_reg(cpu, instr.rd, v, true);
        },
        Opcode::Msr => {
            let id = (instr.imm & 0xFFFF) as u16;
            let v = read_reg(cpu, instr.rd, true);
            cpu.sys.write_sys_reg(id, v);
            if id == SYSREG_DAIF {
                cpu.pstate = cpu.pstate.with_daif(v);
            }
        },
        Opcode::SimdMovi => {
            let es: usize = if instr.cond == 0 {
                1
            } else {
                instr.cond as usize
            };
            let v = simd_replicate_element(instr.imm as u128, es, instr.size as usize);
            cpu.simd.set(instr.rd as usize, v);
        },
        Opcode::Tlbi => {},
        Opcode::Nop | Opcode::NopBarrier | Opcode::Chkfeat | Opcode::GcsPushM
        | Opcode::GcsPushX | Opcode::GcsPopM | Opcode::GcsPopX | Opcode::GcsPopCx
        | Opcode::GcsSs1 | Opcode::GcsSs2 | Opcode::Smstop | Opcode::Pacia1716
        | Opcode::Pacib1716 | Opcode::Autia1716 | Opcode::Autib1716 | Opcode::Paciaz
        | Opcode::Paciasp | Opcode::Pacibz | Opcode::Pacibsp | Opcode::Autiaz
        | Opcode::Autiasp | Opcode::Autibz | Opcode::Autibsp | Opcode::Xpaclri | Opcode::Bti
        | Opcode::BtiC | Opcode::BtiJ | Opcode::BtiJc | Opcode::Sev | Opcode::Sevl
        | Opcode::Esb | Opcode::PsbCsync | Opcode::TsbCsync | Opcode::GcsbDsync | Opcode::Csdb
        | Opcode::Clrbhb | Opcode::Yield | Opcode::Dgh | Opcode::Sb | Opcode::DaifSet
        | Opcode::DaifClr | Opcode::Prfm | Opcode::Clrex | Opcode::Dmb | Opcode::Dsb
        | Opcode::Isb => exec_nop_like(cpu, instr),
        Opcode::Wfi | Opcode::Wfe => advance_timer_deadline(cpu),
        _ => exec_flags(cpu, instr),
    }
}

/// SVC: take the supervisor-call exception.
pub fn exec_svc(cpu: &mut Armv8Cpu, imm: u64)
    requires
        old(cpu).wf(),
    ensures
        final(cpu).wf(),
        final(cpu)@ == svc_step(old(cpu)@, imm),
{
    let from_lower = cpu.pstate.el() == 0;
    cpu.sys.spsr_el1 = cpu.pstate.to_u64();
    cpu.sys.elr_el1 = cpu.regs.pc.wrapping_add(INSTRUCTION_SIZE);
    cpu.sys.esr_el1 = (ESR_EC_SVC64 << 26u64) | ESR_IL_BIT | (imm & 0xFFFF);
    enter_el1_exception(cpu, from_lower);
    let offset = if from_lower {
        VBAR_SYNC_LOWER_EL_AARCH64
    } else {
        VBAR_SYNC_CURRENT_EL
    };
    cpu.regs.pc = cpu.sys.vbar_el1.wrapping_add(offset);
    tick_cycle(cpu);
}

/// ERET: return from an exception taken to EL1.
pub fn exec_eret(cpu: &mut Armv8Cpu)
    requires
        old(cpu).wf(),
    ensures
        final(cpu).wf(),
        final(cpu)@ == eret_step(old(cpu)@),
{
    let np = PState::from_u64(cpu.sys.spsr_el1);
    if np.el == 0 && cpu.pstate.el != 0 {
        cpu.sys.sp_el1 = cpu.regs.sp;
        cpu.regs.sp = cpu.sys.sp_el0;
    }
    cpu.pstate = np;
    cpu.regs.pc = cpu.sys.elr_el1;
    cpu.exclusive = None;
    tick_cycle(cpu);
}

} // verus!
