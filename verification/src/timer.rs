//! Retiring an instruction, exception entry, and timer interrupt delivery.
use vstd::prelude::*;
use crate::constants::{
    INSTRUCTION_SIZE, PHYSICAL_TIMER_IRQ_ID, PSTATE_DAIF_MASK, PSTATE_I_MASK,
    VBAR_IRQ_CURRENT_EL, VBAR_IRQ_LOWER_EL_AARCH64, VIRTUAL_TIMER_IRQ_ID,
};
use crate::cpu::{Armv8Cpu, CpuState};
use crate::pstate::{spsr_of, PState};
use crate::sysregs::{timer_expired, timer_unmasked, SystemRegisters};

verus! {

/// Count one more executed instruction.
pub open spec fn tick(s: CpuState) -> CpuState {
    s.set_sys(SystemRegisters { cycle_count: s.sys.cycle_count.wrapping_add(1), ..s.sys })
}

/// Move to the next instruction and count the executed one.
pub open spec fn advance(s: CpuState) -> CpuState {
    tick(s.set_pc(s.pc.wrapping_add(INSTRUCTION_SIZE)))
}

/// Take an exception to EL1: bank the stack pointer when coming from EL0,
/// select SP_EL1 and mask all interrupts.
pub open spec fn enter_el1(s: CpuState, from_lower: bool) -> CpuState {
    let t = if from_lower {
        CpuState { sp: s.sys.sp_el1, sys: SystemRegisters { sp_el0: s.sp, ..s.sys }, ..s }
    } else {
        s
    };
    CpuState { pstate: PState { el: 1, daif: PSTATE_DAIF_MASK, sp_sel: true, ..t.pstate }, ..t }
}

/// Raise the timer interrupt line when a timer fires: the virtual timer
/// takes priority over the physical one.
pub open spec fn latch_timer_irq(s: CpuState) -> CpuState {
    let sys = s.sys;
    if timer_expired(sys.cntv_ctl_el0, sys.cntv_cval_el0, sys.cycle_count) && timer_unmasked(
        sys.cntv_ctl_el0,
    ) {
        s.set_sys(SystemRegisters { irq_pending: true, last_irq_id: VIRTUAL_TIMER_IRQ_ID, ..sys })
    } else if timer_expired(sys.cntp_ctl_el0, sys.cntp_cval_el0, sys.cycle_count)
        && timer_unmasked(sys.cntp_ctl_el0) {
        s.set_sys(SystemRegisters { irq_pending: true, last_irq_id: PHYSICAL_TIMER_IRQ_ID, ..sys })
    } else {
        s
    }
}

/// After an instruction: with vectors installed, latch a firing timer and,
/// when an interrupt is pending and IRQs are unmasked, take it.
pub open spec fn timer_irq(s: CpuState) -> CpuState {
    if s.sys.vbar_el1 == 0 {
        s
    } else {
        let s1 = latch_timer_irq(s);
        if s1.sys.irq_pending && s1.pstate.daif & PSTATE_I_MASK == 0 {
            let from_lower = s1.pstate.el == 0;
            let s2 = s1.set_exclusive(None).set_sys(
                SystemRegisters { spsr_el1: spsr_of(s1.pstate), elr_el1: s1.pc, esr_el1: 0, ..s1.sys },
            );
            let s3 = enter_el1(s2, from_lower);
            s3.set_pc(
                s3.sys.vbar_el1.wrapping_add(
                    if from_lower {
                        VBAR_IRQ_LOWER_EL_AARCH64
                    } else {
                        VBAR_IRQ_CURRENT_EL
                    },
                ),
            )
        } else {
            s1
        }
    }
}

/// What follows every instruction that does not redirect control itself.
pub open spec fn finish(s: CpuState) -> CpuState {
    timer_irq(advance(s))
}

pub fn tick_cycle(cpu: &mut Armv8Cpu)
    requires
        old(cpu).wf(),
    ensures
        final(cpu).wf(),
        final(cpu)@ == tick(old(cpu)@),
{
    cpu.sys.cycle_count = cpu.sys.cycle_count.wrapping_add(1);
}

/// Advance PC by one instruction and count it.
pub fn advance_pc(cpu: &mut Armv8Cpu)
    requires
        old(cpu).wf(),
    ensures
        final(cpu).wf(),
        final(cpu)@ == advance(old(cpu)@),
{
    cpu.regs.pc = cpu.regs.pc.wrapping_add(INSTRUCTION_SIZE);
    cpu.sys.cycle_count = cpu.sys.cycle_count.wrapping_add(1);
}

/// Enter EL1 for an exception.
pub fn enter_el1_exception(cpu: &mut Armv8Cpu, from_lower: bool)
    requires
        old(cpu).wf(),
    ensures
        final(cpu).wf(),
        final(cpu)@ == enter_el1(old(cpu)@, from_lower),
{
    if from_lower {
        cpu.sys.sp_el0 = cpu.regs.sp;
        cpu.regs.sp = cpu.sys.sp_el1;
    }
    assert(PSTATE_DAIF_MASK & !PSTATE_DAIF_MASK == 0) by (bit_vector);
    cpu.pstate = PState { el: 1, daif: PSTATE_DAIF_MASK, sp_sel: true, ..cpu.pstate };
}

/// Check whether a timer has fired and deliver its interrupt if so.
pub fn check_timer_irq(cpu: &mut Armv8Cpu)
    requires
        old(cpu).wf(),
    ensures
        final(cpu).wf(),
        final(cpu)@ == timer_irq(old(cpu)@),
{
    if cpu.sys.vbar_el1 == 0 {
        return ;
    }
    if cpu.sys.cntv_expired() && cpu.sys.cntv_unmasked() {
        cpu.sys.irq_pending = true;
        cpu.sys.last_irq_id = VIRTUAL_TIMER_IRQ_ID;
    } else if cpu.sys.cntp_expired() && cpu.sys.cntp_unmasked() {
        cpu.sys.irq_pending = true;
        cpu.sys.last_irq_id = PHYSICAL_TIMER_IRQ_ID;
    }
    if cpu.sys.irq_pending && !cpu.pstate.irq_masked() {
        cpu.clear_exclusive();
        let from_lower = cpu.pstate.el() == 0;
        cpu.sys.spsr_el1 = cpu.pstate.to_u64();
        cpu.sys.elr_el1 = cpu.regs.pc;
        cpu.sys.esr_el1 = 0;
        enter_el1_exception(cpu, from_lower);
        let offset = if from_lower {
            VBAR_IRQ_LOWER_EL_AARCH64
        } else {
            VBAR_IRQ_CURRENT_EL
        };
        cpu.regs.pc = cpu.sys.vbar_el1.wrapping_add(offset);
    }
}

/// Retire a non-branching instruction: advance PC, count it, and deliver a
/// due timer interrupt.
pub fn finish_instruction(cpu: &mut Armv8Cpu)
    requires
        old(cpu).wf(),
    ensures
        final(cpu).wf(),
        final(cpu)@ == finish(old(cpu)@),
{
    advance_pc(cpu);
    check_timer_irq(cpu);
}

} // verus!
