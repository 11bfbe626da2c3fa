//! EL1/EL0 system registers and the generic timers.
use vstd::prelude::*;
use crate::constants::{
    CNTFRQ_HZ, DCZID_EL0_VAL, MIDR_VALUE, SYSREG_CNTFRQ_EL0, SYSREG_CNTKCTL_EL1,
    SYSREG_CNTPCT_EL0, SYSREG_CNTP_CTL_EL0, SYSREG_CNTP_CVAL_EL0, SYSREG_CNTP_TVAL_EL0,
    SYSREG_CNTVCT_EL0, SYSREG_CNTV_CTL_EL0, SYSREG_CNTV_CVAL_EL0, SYSREG_CNTV_TVAL_EL0,
    SYSREG_CPACR_EL1, SYSREG_CURRENT_EL, SYSREG_DCZID_EL0, SYSREG_ELR_EL1, SYSREG_ESR_EL1,
    SYSREG_FAR_EL1, SYSREG_FPCR, SYSREG_FPSR, SYSREG_MAIR_EL1, SYSREG_MIDR_EL1, SYSREG_SCTLR_EL1,
    SYSREG_SPSR_EL1, SYSREG_SP_EL0, SYSREG_SP_EL1, SYSREG_TCR_EL1, SYSREG_TPIDR_EL0,
    SYSREG_TPIDR_EL1, SYSREG_TTBR0_EL1, SYSREG_TTBR1_EL1, SYSREG_VBAR_EL1, TIMER_CTL_ENABLE,
    TIMER_CTL_IMASK, TIMER_CTL_ISTATUS,
};

verus! {

/// The system registers the engine models, plus the cycle counter that
/// drives the timers and the interrupt line state.
#[derive(Clone, Copy, Debug, PartialEq, Eq, Structural)]
pub struct SystemRegisters {
    pub sctlr_el1: u64,
    pub ttbr0_el1: u64,
    pub ttbr1_el1: u64,
    pub tcr_el1: u64,
    pub mair_el1: u64,
    pub vbar_el1: u64,
    pub elr_el1: u64,
    pub spsr_el1: u64,
    pub esr_el1: u64,
    pub far_el1: u64,
    pub sp_el0: u64,
    pub sp_el1: u64,
    pub tpidr_el0: u64,
    pub tpidr_el1: u64,
    pub cpacr_el1: u64,
    pub cntkctl_el1: u64,
    pub cntp_ctl_el0: u64,
    pub cntp_cval_el0: u64,
    pub cntp_tval_el0: u64,
    pub cntv_ctl_el0: u64,
    pub cntv_cval_el0: u64,
    pub fpcr: u64,
    pub fpsr: u64,
    /// Executed instructions; the timers count these.
    pub cycle_count: u64,
    pub irq_pending: bool,
    pub last_irq_id: u32,
}

/// A 32-bit timer value, sign-extended to 64 bits.
pub open spec fn sext32(v: u64) -> u64 {
    if v & 0x8000_0000 != 0 {
        (v & 0xFFFF_FFFF) | 0xFFFF_FFFF_0000_0000
    } else {
        v & 0xFFFF_FFFF
    }
}

/// A timer fires when it is enabled and the count has reached its compare value.
pub open spec fn timer_expired(ctl: u64, cval: u64, count: u64) -> bool {
    ctl & TIMER_CTL_ENABLE != 0 && count >= cval
}

pub open spec fn timer_unmasked(ctl: u64) -> bool {
    ctl & TIMER_CTL_IMASK == 0
}

/// The control register as read: the enable and mask bits, with the status
/// bit set while the timer condition holds.
pub open spec fn timer_ctl_read(ctl: u64, cval: u64, count: u64) -> u64 {
    if timer_expired(ctl, cval, count) {
        (ctl & 3) | TIMER_CTL_ISTATUS
    } else {
        ctl & 3
    }
}

/// The TVAL view of a compare value: the signed 32-bit distance to it.
pub open spec fn timer_tval_read(cval: u64, count: u64) -> u64 {
    cval.wrapping_sub(count) & 0xFFFF_FFFF
}

/// The earliest compare value among timers that are enabled and unmasked.
pub open spec fn spec_next_timer_deadline(s: SystemRegisters) -> Option<u64> {
    let p = s.cntp_ctl_el0 & TIMER_CTL_ENABLE != 0 && timer_unmasked(s.cntp_ctl_el0);
    let v = s.cntv_ctl_el0 & TIMER_CTL_ENABLE != 0 && timer_unmasked(s.cntv_ctl_el0);
    if p && v {
        Some(
            if s.cntp_cval_el0 <= s.cntv_cval_el0 {
                s.cntp_cval_el0
            } else {
                s.cntv_cval_el0
            },
        )
    } else if p {
        Some(s.cntp_cval_el0)
    } else if v {
        Some(s.cntv_cval_el0)
    } else {
        None
    }
}

/// What MRS of register `id` returns at exception level `el`. Registers the
/// model does not hold read as zero.
pub open spec fn spec_read_sys_reg(s: SystemRegisters, id: u16, el: u8) -> u64 {
    if id == SYSREG_SCTLR_EL1 {
        s.sctlr_el1
    } else if id == SYSREG_TTBR0_EL1 {
        s.ttbr0_el1
    } else if id == SYSREG_TTBR1_EL1 {
        s.ttbr1_el1
    } else if id == SYSREG_TCR_EL1 {
        s.tcr_el1
    } else if id == SYSREG_MAIR_EL1 {
        s.mair_el1
    } else if id == SYSREG_VBAR_EL1 {
        s.vbar_el1
    } else if id == SYSREG_ELR_EL1 {
        s.elr_el1
    } else if id == SYSREG_SPSR_EL1 {
        s.spsr_el1
    } else if id == SYSREG_ESR_EL1 {
        s.esr_el1
    } else if id == SYSREG_FAR_EL1 {
        s.far_el1
    } else if id == SYSREG_SP_EL0 {
        s.sp_el0
    } else if id == SYSREG_SP_EL1 {
        s.sp_el1
    } else if id == SYSREG_TPIDR_EL0 {
        s.tpidr_el0
    } else if id == SYSREG_TPIDR_EL1 {
        s.tpidr_el1
    } else if id == SYSREG_CPACR_EL1 {
        s.cpacr_el1
    } else if id == SYSREG_CNTKCTL_EL1 {
        s.cntkctl_el1
    } else if id == SYSREG_FPCR {
        s.fpcr
    } else if id == SYSREG_FPSR {
        s.fpsr
    } else if id == SYSREG_CURRENT_EL {
        ((el & 3) as u64) << 2u64
    } else if id == SYSREG_DCZID_EL0 {
        DCZID_EL0_VAL
    } else if id == SYSREG_MIDR_EL1 {
        MIDR_VALUE
    } else if id == SYSREG_CNTFRQ_EL0 {
        CNTFRQ_HZ
    } else if id == SYSREG_CNTPCT_EL0 || id == SYSREG_CNTVCT_EL0 {
        s.cycle_count
    } else if id == SYSREG_CNTP_CTL_EL0 {
        timer_ctl_read(s.cntp_ctl_el0, s.cntp_cval_el0, s.cycle_count)
    } else if id == SYSREG_CNTP_CVAL_EL0 {
        s.cntp_cval_el0
    } else if id == SYSREG_CNTP_TVAL_EL0 {
        timer_tval_read(s.cntp_cval_el0, s.cycle_count)
    } else if id == SYSREG_CNTV_CTL_EL0 {
        timer_ctl_read(s.cntv_ctl_el0, s.cntv_cval_el0, s.cycle_count)
    } else if id == SYSREG_CNTV_CVAL_EL0 {
        s.cntv_cval_el0
    } else if id == SYSREG_CNTV_TVAL_EL0 {
        timer_tval_read(s.cntv_cval_el0, s.cycle_count)
    } else {
        0
    }
}

/// The registers after MSR of `val` to register `id`. Writes to registers
/// the model does not hold, or that are read-only, change nothing.
pub open spec fn spec_write_sys_reg(s: SystemRegisters, id: u16, val: u64) -> SystemRegisters {
    if id == SYSREG_SCTLR_EL1 {
        SystemRegisters { sctlr_el1: val, ..s }
    } else if id == SYSREG_TTBR0_EL1 {
        SystemRegisters { ttbr0_el1: val, ..s }
    } else if id == SYSREG_TTBR1_EL1 {
        SystemRegisters { ttbr1_el1: val, ..s }
    } else if id == SYSREG_TCR_EL1 {
        SystemRegisters { tcr_el1: val, ..s }
    } else if id == SYSREG_MAIR_EL1 {
        SystemRegisters { mair_el1: val, ..s }
    } else if id == SYSREG_VBAR_EL1 {
        SystemRegisters { vbar_el1: val, ..s }
    } else if id == SYSREG_ELR_EL1 {
        SystemRegisters { elr_el1: val, ..s }
    } else if id == SYSREG_SPSR_EL1 {
        SystemRegisters { spsr_el1: val, ..s }
    } else if id == SYSREG_ESR_EL1 {
        SystemRegisters { esr_el1: val, ..s }
    } else if id == SYSREG_FAR_EL1 {
        SystemRegisters { far_el1: val, ..s }
    } else if id == SYSREG_SP_EL0 {
        SystemRegisters { sp_el0: val, ..s }
    } else if id == SYSREG_SP_EL1 {
        SystemRegisters { sp_el1: val, ..s }
    } else if id == SYSREG_TPIDR_EL0 {
        SystemRegisters { tpidr_el0: val, ..s }
    } else if id == SYSREG_TPIDR_EL1 {
        SystemRegisters { tpidr_el1: val, ..s }
    } else if id == SYSREG_CPACR_EL1 {
        SystemRegisters { cpacr_el1: val, ..s }
    } else if id == SYSREG_CNTKCTL_EL1 {
        SystemRegisters { cntkctl_el1: val, ..s }
    } else if id == SYSREG_FPCR {
        SystemRegisters { fpcr: val, ..s }
    } else if id == SYSREG_FPSR {
        SystemRegisters { fpsr: val, ..s }
    } else if id == SYSREG_CNTP_CTL_EL0 {
        SystemRegisters { cntp_ctl_el0: val & 3, ..s }
    } else if id == SYSREG_CNTP_CVAL_EL0 {
        SystemRegisters { cntp_cval_el0: val, ..s }
    } else if id == SYSREG_CNTP_TVAL_EL0 {
        SystemRegisters {
            cntp_tval_el0: val & 0xFFFF_FFFF,
            cntp_cval_el0: s.cycle_count.wrapping_add(sext32(val)),
            ..s
        }
    } else if id == SYSREG_CNTV_CTL_EL0 {
        SystemRegisters { cntv_ctl_el0: val & 3, ..s }
    } else if id == SYSREG_CNTV_CVAL_EL0 {
        SystemRegisters { cntv_cval_el0: val, ..s }
    } else if id == SYSREG_CNTV_TVAL_EL0 {
        SystemRegisters { cntv_cval_el0: s.cycle_count.wrapping_add(sext32(val)), ..s }
    } else {
        s
    }
}

fn sign_extend_32(v: u64) -> (r: u64)
    ensures
        r == sext32(v),
{
    if v & 0x8000_0000 != 0 {
        (v & 0xFFFF_FFFF) | 0xFFFF_FFFF_0000_0000
    } else {
        v & 0xFFFF_FFFF
    }
}

fn ctl_read(ctl: u64, cval: u64, count: u64) -> (r: u64)
    ensures
        r == timer_ctl_read(ctl, cval, count),
{
    if ctl & TIMER_CTL_ENABLE != 0 && count >= cval {
        (ctl & 3) | TIMER_CTL_ISTATUS
    } else {
        ctl & 3
    }
}

impl SystemRegisters {
    pub open spec fn new_spec() -> SystemRegisters {
        SystemRegisters {
            sctlr_el1: 0,
            ttbr0_el1: 0,
            ttbr1_el1: 0,
            tcr_el1: 0,
            mair_el1: 0,
            vbar_el1: 0,
            elr_el1: 0,
            spsr_el1: 0,
            esr_el1: 0,
            far_el1: 0,
            sp_el0: 0,
            sp_el1: 0,
            tpidr_el0: 0,
            tpidr_el1: 0,
            cpacr_el1: 0,
            cntkctl_el1: 0,
            cntp_ctl_el0: 0,
            cntp_cval_el0: 0,
            cntp_tval_el0: 0,
            cntv_ctl_el0: 0,
            cntv_cval_el0: 0,
            fpcr: 0,
            fpsr: 0,
            cycle_count: 0,
            irq_pending: false,
            last_irq_id: 0,
        }
    }

    /// Reset values: everything zero.
    pub fn new() -> (s: Self)
        ensures
            s == Self::new_spec(),
    {
        SystemRegisters {
            sctlr_el1: 0,
            ttbr0_el1: 0,
            ttbr1_el1: 0,
            tcr_el1: 0,
            mair_el1: 0,
            vbar_el1: 0,
            elr_el1: 0,
            spsr_el1: 0,
            esr_el1: 0,
            far_el1: 0,
            sp_el0: 0,
            sp_el1: 0,
            tpidr_el0: 0,
            tpidr_el1: 0,
            cpacr_el1: 0,
            cntkctl_el1: 0,
            cntp_ctl_el0: 0,
            cntp_cval_el0: 0,
            cntp_tval_el0: 0,
            cntv_ctl_el0: 0,
            cntv_cval_el0: 0,
            fpcr: 0,
            fpsr: 0,
            cycle_count: 0,
            irq_pending: false,
            last_irq_id: 0,
        }
    }

    pub fn cntp_expired(&self) -> (r: bool)
        ensures
            r == timer_expired(self.cntp_ctl_el0, self.cntp_cval_el0, self.cycle_count),
    {
        self.cntp_ctl_el0 & TIMER_CTL_ENABLE != 0 && self.cycle_count >= self.cntp_cval_el0
    }

    pub fn cntp_unmasked(&self) -> (r: bool)
        ensures
            r == timer_unmasked(self.cntp_ctl_el0),
    {
        self.cntp_ctl_el0 & TIMER_CTL_IMASK == 0
    }

    pub fn cntv_expired(&self) -> (r: bool)
        ensures
            r == timer_expired(self.cntv_ctl_el0, self.cntv_cval_el0, self.cycle_count),
    {
        self.cntv_ctl_el0 & TIMER_CTL_ENABLE != 0 && self.cycle_count >= self.cntv_cval_el0
    }

    pub fn cntv_unmasked(&self) -> (r: bool)
        ensures
            r == timer_unmasked(self.cntv_ctl_el0),
    {
        self.cntv_ctl_el0 & TIMER_CTL_IMASK == 0
    }

    /// The cycle at which the next enabled, unmasked timer fires, if any.
    pub fn next_timer_deadline(&self) -> (r: Option<u64>)
        ensures
            r == spec_next_timer_deadline(*self),
    {
        let p = self.cntp_ctl_el0 & TIMER_CTL_ENABLE != 0 && self.cntp_ctl_el0 & TIMER_CTL_IMASK == 0;
        let v = self.cntv_ctl_el0 & TIMER_CTL_ENABLE != 0 && self.cntv_ctl_el0 & TIMER_CTL_IMASK == 0;
        if p && v {
            Some(
                if self.cntp_cval_el0 <= self.cntv_cval_el0 {
                    self.cntp_cval_el0
                } else {
                    self.cntv_cval_el0
                },
            )
        } else if p {
            Some(self.cntp_cval_el0)
        } else if v {
            Some(self.cntv_cval_el0)
        } else {
            None
        }
    }

    /// MRS: the value of register `id` as read at exception level `el`.
    pub fn read_sys_reg(&self, id: u16, el: u8) -> (r: u64)
        ensures
            r == spec_read_sys_reg(*self, id, el),
    {
        if id == SYSREG_SCTLR_EL1 {
            self.sctlr_el1
        } else if id == SYSREG_TTBR0_EL1 {
            self.ttbr0_el1
        } else if id == SYSREG_TTBR1_EL1 {
            self.ttbr1_el1
        } else if id == SYSREG_TCR_EL1 {
            self.tcr_el1
        } else if id == SYSREG_MAIR_EL1 {
            self.mair_el1
        } else if id == SYSREG_VBAR_EL1 {
            self.vbar_el1
        } else if id == SYSREG_ELR_EL1 {
            self.elr_el1
        } else if id == SYSREG_SPSR_EL1 {
            self.spsr_el1
        } else if id == SYSREG_ESR_EL1 {
            self.esr_el1
        } else if id == SYSREG_FAR_EL1 {
            self.far_el1
        } else if id == SYSREG_SP_EL0 {
            self.sp_el0
        } else if id == SYSREG_SP_EL1 {
            self.sp_el1
        } else if id == SYSREG_TPIDR_EL0 {
            self.tpidr_el0
        } else if id == SYSREG_TPIDR_EL1 {
            self.tpidr_el1
        } else if id == SYSREG_CPACR_EL1 {
            self.cpacr_el1
        } else if id == SYSREG_CNTKCTL_EL1 {
            self.cntkctl_el1
        } else if id == SYSREG_FPCR {
            self.fpcr
        } else if id == SYSREG_FPSR {
            self.fpsr
        } else if id == SYSREG_CURRENT_EL {
            ((el & 3) as u64) << 2u64
        } else if id == SYSREG_DCZID_EL0 {
            DCZID_EL0_VAL
        } else if id == SYSREG_MIDR_EL1 {
            MIDR_VALUE
        } else if id == SYSREG_CNTFRQ_EL0 {
            CNTFRQ_HZ
        } else if id == SYSREG_CNTPCT_EL0 || id == SYSREG_CNTVCT_EL0 {
            self.cycle_count
        } else if id == SYSREG_CNTP_CTL_EL0 {
            ctl_read(self.cntp_ctl_el0, self.cntp_cval_el0, self.cycle_count)
        } else if id == SYSREG_CNTP_CVAL_EL0 {
            self.cntp_cval_el0
        } else if id == SYSREG_CNTP_TVAL_EL0 {
            self.cntp_cval_el0.wrapping_sub(self.cycle_count) & 0xFFFF_FFFF
        } else if id == SYSREG_CNTV_CTL_EL0 {
            ctl_read(self.cntv_ctl_el0, self.cntv_cval_el0, self.cycle_count)
        } else if id == SYSREG_CNTV_CVAL_EL0 {
            self.cntv_cval_el0
        } else if id == SYSREG_CNTV_TVAL_EL0 {
            self.cntv_cval_el0.wrapping_sub(self.cycle_count) & 0xFFFF_FFFF
        } else {
            0
        }
    }

    /// MSR: write `val` to register `id`.
    pub fn write_sys_reg(&mut self, id: u16, val: u64)
        ensures
            *final(self) == spec_write_sys_reg(*old(self), id, val),
    {
        if id == SYSREG_SCTLR_EL1 {
            self.sctlr_el1 = val;
        } else if id == SYSREG_TTBR0_EL1 {
            self.ttbr0_el1 = val;
        } else if id == SYSREG_TTBR1_EL1 {
            self.ttbr1_el1 = val;
        } else if id == SYSREG_TCR_EL1 {
            self.tcr_el1 = val;
        } else if id == SYSREG_MAIR_EL1 {
            self.mair_el1 = val;
        } else if id == SYSREG_VBAR_EL1 {
            self.vbar_el1 = val;
        } else if id == SYSREG_ELR_EL1 {
            self.elr_el1 = val;
        } else if id == SYSREG_SPSR_EL1 {
            self.spsr_el1 = val;
        } else if id == SYSREG_ESR_EL1 {
            self.esr_el1 = val;
        } else if id == SYSREG_FAR_EL1 {
            self.far_el1 = val;
        } else if id == SYSREG_SP_EL0 {
            self.sp_el0 = val;
        } else if id == SYSREG_SP_EL1 {
            self.sp_el1 = val;
        } else if id == SYSREG_TPIDR_EL0 {
            self.tpidr_el0 = val;
        } else if id == SYSREG_TPIDR_EL1 {
            self.tpidr_el1 = val;
        } else if id == SYSREG_CPACR_EL1 {
            self.cpacr_el1 = val;
        } else if id == SYSREG_CNTKCTL_EL1 {
            self.cntkctl_el1 = val;
        } else if id == SYSREG_FPCR {
            self.fpcr = val;
        } else if id == SYSREG_FPSR {
            self.fpsr = val;
        } else if id == SYSREG_CNTP_CTL_EL0 {
            self.cntp_ctl_el0 = val & 3;
        } else if id == SYSREG_CNTP_CVAL_EL0 {
            self.cntp_cval_el0 = val;
        } else if id == SYSREG_CNTP_TVAL_EL0 {
            self.cntp_tval_el0 = val & 0xFFFF_FFFF;
            self.cntp_cval_el0 = self.cycle_count.wrapping_add(sign_extend_32(val));
        } else if id == SYSREG_CNTV_CTL_EL0 {
            self.cntv_ctl_el0 = val & 3;
        } else if id == SYSREG_CNTV_CVAL_EL0 {
            self.cntv_cval_el0 = val;
        } else if id == SYSREG_CNTV_TVAL_EL0 {
            self.cntv_cval_el0 = self.cycle_count.wrapping_add(sign_extend_32(val));
        }
    }
}

} // verus!
