//! Architectural and platform constants.
use vstd::prelude::*;

verus! {

/// Guest physical address where RAM starts.
pub const RAM_BASE: u64 = 0x4000_0000;

/// Bytes of guest RAM.
pub const RAM_SIZE: u64 = 0x0400_0000;

/// Translation granule.
pub const PAGE_SIZE: u64 = 0x1000;

/// Offset bits within a page.
pub const PAGE_OFFSET_MASK: u64 = 0xFFF;

/// Bytes in one instruction.
pub const INSTRUCTION_SIZE: u64 = 4;

/// Register number 31 reads as zero in most encodings.
pub const ZERO_REGISTER_INDEX: u8 = 31;

/// Register number 31 names the stack pointer in address and immediate forms.
pub const SP_REGISTER_INDEX: u8 = 31;

/// Register field value meaning "immediate offset" in load/store encodings.
pub const NO_OFFSET_REGISTER: u8 = 0xFF;

/// Register field value meaning "post-index by the immediate".
pub const SIMD_MULTI_POST_INDEX: u8 = 0xFE;

/// DCZID_EL0: data-zero block of 4 << 2 = 16 bytes, DC ZVA permitted.
pub const DCZID_EL0_VAL: u64 = 2;

// Exception vector offsets from VBAR_EL1.
pub const VBAR_SYNC_CURRENT_EL: u64 = 0x200;

pub const VBAR_IRQ_CURRENT_EL: u64 = 0x280;

pub const VBAR_SYNC_LOWER_EL_AARCH64: u64 = 0x400;

pub const VBAR_IRQ_LOWER_EL_AARCH64: u64 = 0x480;

/// ESR_EL1 exception class of an SVC from AArch64.
pub const ESR_EC_SVC64: u64 = 0x15;

/// ESR_EL1 instruction-length bit.
pub const ESR_IL_BIT: u64 = 0x0200_0000;

// PSTATE / SPSR layout.
pub const PSTATE_N_BIT: u64 = 31;

pub const PSTATE_Z_BIT: u64 = 30;

pub const PSTATE_C_BIT: u64 = 29;

pub const PSTATE_V_BIT: u64 = 28;

pub const PSTATE_I_BIT: u64 = 7;

pub const PSTATE_DAIF_MASK: u64 = 0x3C0;

pub const PSTATE_EL_MASK: u64 = 0xC;

pub const PSTATE_I_MASK: u64 = 0x80;

// Generic timer control bits.
pub const TIMER_CTL_ENABLE: u64 = 1;

pub const TIMER_CTL_IMASK: u64 = 2;

pub const TIMER_CTL_ISTATUS: u64 = 4;

/// Interrupt ids of the timer PPIs.
pub const PHYSICAL_TIMER_IRQ_ID: u32 = 30;

pub const VIRTUAL_TIMER_IRQ_ID: u32 = 27;

// System register ids: op0 << 14 | op1 << 11 | CRn << 7 | CRm << 3 | op2.
pub const SYSREG_MIDR_EL1: u16 = 0xC000;

pub const SYSREG_SCTLR_EL1: u16 = 0xC080;

pub const SYSREG_CPACR_EL1: u16 = 0xC082;

pub const SYSREG_TTBR0_EL1: u16 = 0xC100;

pub const SYSREG_TTBR1_EL1: u16 = 0xC101;

pub const SYSREG_TCR_EL1: u16 = 0xC102;

pub const SYSREG_SPSR_EL1: u16 = 0xC200;

pub const SYSREG_ELR_EL1: u16 = 0xC201;

pub const SYSREG_SP_EL0: u16 = 0xC208;

pub const SYSREG_CURRENT_EL: u16 = 0xC212;

pub const SYSREG_ESR_EL1: u16 = 0xC290;

pub const SYSREG_FAR_EL1: u16 = 0xC300;

pub const SYSREG_MAIR_EL1: u16 = 0xC510;

pub const SYSREG_VBAR_EL1: u16 = 0xC600;

pub const SYSREG_TPIDR_EL1: u16 = 0xC684;

pub const SYSREG_CNTKCTL_EL1: u16 = 0xC708;

pub const SYSREG_DCZID_EL0: u16 = 0xD807;

pub const SYSREG_NZCV: u16 = 0xDA10;

pub const SYSREG_DAIF: u16 = 0xDA11;

pub const SYSREG_FPCR: u16 = 0xDA20;

pub const SYSREG_FPSR: u16 = 0xDA21;

pub const SYSREG_TPIDR_EL0: u16 = 0xDE82;

pub const SYSREG_CNTFRQ_EL0: u16 = 0xDF00;

pub const SYSREG_CNTPCT_EL0: u16 = 0xDF01;

pub const SYSREG_CNTVCT_EL0: u16 = 0xDF02;

pub const SYSREG_CNTP_TVAL_EL0: u16 = 0xDF10;

pub const SYSREG_CNTP_CTL_EL0: u16 = 0xDF11;

pub const SYSREG_CNTP_CVAL_EL0: u16 = 0xDF12;

pub const SYSREG_CNTV_TVAL_EL0: u16 = 0xDF18;

pub const SYSREG_CNTV_CTL_EL0: u16 = 0xDF19;

pub const SYSREG_CNTV_CVAL_EL0: u16 = 0xDF1A;

pub const SYSREG_SP_EL1: u16 = 0xE208;

/// Reported counter frequency.
pub const CNTFRQ_HZ: u64 = 62_500_000;

/// Reported main id register.
pub const MIDR_VALUE: u64 = 0x410F_D034;

} // verus!
