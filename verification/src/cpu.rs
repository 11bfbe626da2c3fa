//! Architectural CPU state, its abstract view, and register access.
use vstd::prelude::*;
use crate::constants::PSTATE_DAIF_MASK;
use crate::pstate::PState;
use crate::sysregs::SystemRegisters;

verus! {

/// Number of general-purpose registers X0..X30.
pub const GPR_COUNT: usize = 31;

/// Number of SIMD&FP / SVE vector registers.
pub const VREG_COUNT: usize = 32;

/// Number of SVE predicate registers.
pub const PREG_COUNT: usize = 16;

/// Bytes held per SVE vector register (the largest vector length).
pub const SVE_MAX_VL_BYTES: usize = 256;

/// SVE vector length the CPU starts with.
pub const SVE_DEFAULT_VL_BYTES: usize = 32;

/// General-purpose registers, SP and PC.
pub struct Registers {
    pub x: Vec<u64>,
    pub sp: u64,
    pub pc: u64,
}

/// The abstract state of a CPU.
pub ghost struct CpuState {
    pub x: Seq<u64>,
    pub sp: u64,
    pub pc: u64,
    pub pstate: PState,
    pub sys: SystemRegisters,
    pub simd: Seq<u128>,
    pub z: Seq<Seq<u8>>,
    pub p: Seq<Seq<bool>>,
    pub vl: usize,
    pub svl: usize,
    pub exclusive: Option<(u64, u8)>,
}

/// A legal vector length: a multiple of 16 bytes, at most 256.
pub open spec fn valid_vl(vl: usize) -> bool {
    16 <= vl <= SVE_MAX_VL_BYTES && vl % 16 == 0
}

/// The operand width mask: all 64 bits, or the low 32 for W registers.
pub open spec fn width_mask(sf: bool) -> u64 {
    if sf {
        0xFFFF_FFFF_FFFF_FFFF
    } else {
        0xFFFF_FFFF
    }
}

impl CpuState {
    pub open spec fn wf(&self) -> bool {
        &&& self.x.len() == GPR_COUNT
        &&& self.simd.len() == VREG_COUNT
        &&& self.z.len() == VREG_COUNT
        &&& forall|i: int| 0 <= i < VREG_COUNT ==> #[trigger] self.z[i].len() == SVE_MAX_VL_BYTES
        &&& self.p.len() == PREG_COUNT
        &&& forall|i: int| 0 <= i < PREG_COUNT ==> #[trigger] self.p[i].len() == SVE_MAX_VL_BYTES
        &&& valid_vl(self.vl)
        &&& valid_vl(self.svl)
        &&& self.pstate.wf()
    }

    /// Register `r` as an operand: XZR/WZR for 31, the low 32 bits for W forms.
    pub open spec fn reg(&self, r: u8, sf: bool) -> u64 {
        if r >= 31 {
            0
        } else {
            self.x[r as int] & width_mask(sf)
        }
    }

    /// Register `r` as a base: SP for 31.
    pub open spec fn base(&self, r: u8, sf: bool) -> u64 {
        if r >= 31 {
            self.sp & width_mask(sf)
        } else {
            self.reg(r, sf)
        }
    }

    /// The state after writing `v` to register `r`; writes to XZR are lost and
    /// W forms clear the upper half.
    pub open spec fn set_reg(self, r: u8, v: u64, sf: bool) -> CpuState {
        if r >= 31 {
            self
        } else {
            CpuState { x: self.x.update(r as int, v & width_mask(sf)), ..self }
        }
    }

    /// As `set_reg`, but register 31 is SP.
    pub open spec fn set_reg_sp(self, r: u8, v: u64, sf: bool) -> CpuState {
        if r >= 31 {
            CpuState { sp: v & width_mask(sf), ..self }
        } else {
            self.set_reg(r, v, sf)
        }
    }

    pub open spec fn set_simd(self, r: int, v: u128) -> CpuState {
        CpuState { simd: self.simd.update(r, v), ..self }
    }

    pub open spec fn set_z(self, r: int, v: Seq<u8>) -> CpuState {
        CpuState { z: self.z.update(r, v), ..self }
    }

    pub open spec fn set_p(self, r: int, v: Seq<bool>) -> CpuState {
        CpuState { p: self.p.update(r, v), ..self }
    }

    pub open spec fn set_nzcv(self, n: bool, z: bool, c: bool, v: bool) -> CpuState {
        CpuState { pstate: PState { n, z, c, v, ..self.pstate }, ..self }
    }

    /// Whether `other` is at the same point of the run: the same PC, cycle
    /// count, vector base, pending interrupt and exception return address.
    pub open spec fn same_progress(self, other: CpuState) -> bool {
        &&& self.pc == other.pc
        &&& self.sys.cycle_count == other.sys.cycle_count
        &&& self.sys.vbar_el1 == other.sys.vbar_el1
        &&& self.sys.irq_pending == other.sys.irq_pending
        &&& self.sys.elr_el1 == other.sys.elr_el1
    }

    pub open spec fn set_pc(self, pc: u64) -> CpuState {
        CpuState { pc, ..self }
    }

    pub open spec fn set_sys(self, sys: SystemRegisters) -> CpuState {
        CpuState { sys, ..self }
    }

    pub open spec fn set_far(self, va: u64) -> CpuState {
        CpuState { sys: SystemRegisters { far_el1: va, ..self.sys }, ..self }
    }

    pub open spec fn set_exclusive(self, e: Option<(u64, u8)>) -> CpuState {
        CpuState { exclusive: e, ..self }
    }

    /// The monitor after a store to `size` bytes at `pa`: a reservation that
    /// overlaps the store is lost.
    pub open spec fn exclusive_after_store(self, pa: u64, size: nat) -> Option<(u64, u8)> {
        match self.exclusive {
            Some((a, s)) => if ranges_overlap(a as int, s as int, pa as int, size as int) {
                None
            } else {
                self.exclusive
            },
            None => None,
        }
    }

    pub open spec fn clear_exclusive_if_overlaps(self, pa: u64, size: nat) -> CpuState {
        self.set_exclusive(self.exclusive_after_store(pa, size))
    }
}

/// Whether `[a, a + sa)` and `[b, b + sb)` share a byte.
pub open spec fn ranges_overlap(a: int, sa: int, b: int, sb: int) -> bool {
    a < b + sb && b < a + sa
}

/// The CPU.
pub struct Armv8Cpu {
    pub regs: Registers,
    pub pstate: PState,
    pub sys: SystemRegisters,
    /// The 128-bit SIMD&FP registers V0..V31.
    pub simd: Vec<u128>,
    /// The SVE vector registers Z0..Z31, byte 0 first.
    pub sve_z: Vec<Vec<u8>>,
    /// The SVE predicate registers P0..P15, one bit per vector byte.
    pub sve_pred: Vec<Vec<bool>>,
    pub sve_vl_bytes: usize,
    pub sme_svl_bytes: usize,
    /// The local exclusive monitor: reserved physical address and size.
    pub exclusive: Option<(u64, u8)>,
}

impl View for Armv8Cpu {
    type V = CpuState;

    open spec fn view(&self) -> CpuState {
        CpuState {
            x: self.regs.x@,
            sp: self.regs.sp,
            pc: self.regs.pc,
            pstate: self.pstate,
            sys: self.sys,
            simd: self.simd@,
            z: self.sve_z@.map_values(|v: Vec<u8>| v@),
            p: self.sve_pred@.map_values(|v: Vec<bool>| v@),
            vl: self.sve_vl_bytes,
            svl: self.sme_svl_bytes,
            exclusive: self.exclusive,
        }
    }
}

impl Registers {
    pub fn new() -> (r: Self)
        ensures
            r.x@.len() == GPR_COUNT,
            forall|i: int| 0 <= i < GPR_COUNT ==> r.x@[i] == 0,
            r.sp == 0,
            r.pc == 0,
    {
        Registers { x: vec![0u64; GPR_COUNT], sp: 0, pc: 0 }
    }

    /// X register `i`; 31 reads as zero.
    pub fn x(&self, i: u8) -> (r: u64)
        requires
            self.x@.len() == GPR_COUNT,
        ensures
            r == if i >= 31 {
                0
            } else {
                self.x@[i as int]
            },
    {
        if i >= 31 {
            0
        } else {
            self.x[i as usize]
        }
    }

    /// Set X register `i`; writes to 31 are lost.
    pub fn set_x(&mut self, i: u8, v: u64)
        requires
            old(self).x@.len() == GPR_COUNT,
        ensures
            final(self).x@ == if i >= 31 {
                old(self).x@
            } else {
                old(self).x@.update(i as int, v)
            },
            final(self).sp == old(self).sp,
            final(self).pc == old(self).pc,
    {
        if i < 31 {
            self.x.set(i as usize, v);
        }
    }

    /// The low 32 bits of X register `i`.
    pub fn w(&self, i: u8) -> (r: u32)
        requires
            self.x@.len() == GPR_COUNT,
        ensures
            r == (if i >= 31 {
                0
            } else {
                self.x@[i as int]
            } & 0xFFFF_FFFF) as u32,
    {
        (self.x(i) & 0xFFFF_FFFF) as u32
    }

    /// Set W register `i`, clearing the upper half of the X register.
    pub fn set_w(&mut self, i: u8, v: u32)
        requires
            old(self).x@.len() == GPR_COUNT,
        ensures
            final(self).x@ == if i >= 31 {
                old(self).x@
            } else {
                old(self).x@.update(i as int, v as u64)
            },
            final(self).sp == old(self).sp,
            final(self).pc == old(self).pc,
    {
        self.set_x(i, v as u64);
    }
}

impl Armv8Cpu {
    pub open spec fn wf(&self) -> bool {
        self@.wf()
    }

    /// Whether the CPU is well formed: every register file of its size, each
    /// SVE register and predicate of the largest vector length, vector
    /// lengths that are multiples of 16 up to 256, and a valid PSTATE.
    pub fn check_wf(&self) -> (r: bool)
        ensures
            r == self.wf(),
    {
        if self.regs.x.len() != GPR_COUNT || self.simd.len() != VREG_COUNT || self.sve_z.len()
            != VREG_COUNT || self.sve_pred.len() != PREG_COUNT {
            return false;
        }
        if !(16 <= self.sve_vl_bytes && self.sve_vl_bytes <= SVE_MAX_VL_BYTES && self.sve_vl_bytes
            % 16 == 0) || !(16 <= self.sme_svl_bytes && self.sme_svl_bytes <= SVE_MAX_VL_BYTES
            && self.sme_svl_bytes % 16 == 0) {
            return false;
        }
        if self.pstate.daif & !PSTATE_DAIF_MASK != 0 || self.pstate.el >= 4 {
            return false;
        }
        let mut i: usize = 0;
        while i < VREG_COUNT
            invariant
                i <= VREG_COUNT,
                self.sve_z@.len() == VREG_COUNT,
                forall|k: int| 0 <= k < i ==> #[trigger] self.sve_z@[k]@.len() == SVE_MAX_VL_BYTES,
            decreases VREG_COUNT - i,
        {
            if self.sve_z[i].len() != SVE_MAX_VL_BYTES {
                assert(self@.z[i as int].len() != SVE_MAX_VL_BYTES);
                return false;
            }
            i = i + 1;
        }
        let mut j: usize = 0;
        while j < PREG_COUNT
            invariant
                j <= PREG_COUNT,
                self.sve_pred@.len() == PREG_COUNT,
                forall|k: int| 0 <= k < j ==> #[trigger] self.sve_pred@[k]@.len()
                    == SVE_MAX_VL_BYTES,
            decreases PREG_COUNT - j,
        {
            if self.sve_pred[j].len() != SVE_MAX_VL_BYTES {
                assert(self@.p[j as int].len() != SVE_MAX_VL_BYTES);
                return false;
            }
            j = j + 1;
        }
        assert forall|k: int| 0 <= k < VREG_COUNT implies #[trigger] self@.z[k].len()
            == SVE_MAX_VL_BYTES by {
            assert(self@.z[k] == self.sve_z@[k]@);
        }
        assert forall|k: int| 0 <= k < PREG_COUNT implies #[trigger] self@.p[k].len()
            == SVE_MAX_VL_BYTES by {
            assert(self@.p[k] == self.sve_pred@[k]@);
        }
        true
    }

    /// A CPU in its reset state: registers zero, EL1 with interrupts masked.
    pub fn new() -> (cpu: Self)
        ensures
            cpu.wf(),
            cpu@.pc == 0,
            cpu@.sp == 0,
            forall|i: int| 0 <= i < GPR_COUNT ==> cpu@.x[i] == 0,
            cpu@.sys == SystemRegisters::new_spec(),
            cpu@.exclusive is None,
            cpu@.pstate == (PState {
                n: false,
                z: false,
                c: false,
                v: false,
                daif: PSTATE_DAIF_MASK,
                el: 1,
                sp_sel: true,
            }),
            forall|i: int| 0 <= i < VREG_COUNT ==> cpu@.simd[i] == 0,
            forall|i: int, k: int|
                0 <= i < VREG_COUNT && 0 <= k < SVE_MAX_VL_BYTES ==> cpu@.z[i][k] == 0,
            forall|i: int, k: int|
                0 <= i < PREG_COUNT && 0 <= k < SVE_MAX_VL_BYTES ==> !cpu@.p[i][k],
            cpu@.vl == SVE_DEFAULT_VL_BYTES,
            cpu@.svl == SVE_DEFAULT_VL_BYTES,
    {
        let mut sve_z: Vec<Vec<u8>> = Vec::new();
        let mut k: usize = 0;
        while k < VREG_COUNT
            invariant
                k <= VREG_COUNT,
                sve_z@.len() == k,
                forall|i: int| 0 <= i < k ==> (#[trigger] sve_z@[i])@.len() == SVE_MAX_VL_BYTES,
                forall|i: int, j: int|
                    0 <= i < k && 0 <= j < SVE_MAX_VL_BYTES ==> #[trigger] sve_z@[i]@[j] == 0,
            decreases VREG_COUNT - k,
        {
            sve_z.push(vec![0u8; SVE_MAX_VL_BYTES]);
            k = k + 1;
        }
        let mut sve_pred: Vec<Vec<bool>> = Vec::new();
        let mut k: usize = 0;
        while k < PREG_COUNT
            invariant
                k <= PREG_COUNT,
                sve_pred@.len() == k,
                forall|i: int| 0 <= i < k ==> (#[trigger] sve_pred@[i])@.len() == SVE_MAX_VL_BYTES,
                forall|i: int, j: int|
                    0 <= i < k && 0 <= j < SVE_MAX_VL_BYTES ==> !#[trigger] sve_pred@[i]@[j],
            decreases PREG_COUNT - k,
        {
            sve_pred.push(vec![false; SVE_MAX_VL_BYTES]);
            k = k + 1;
        }
        let cpu = Armv8Cpu {
            regs: Registers::new(),
            pstate: PState::new(),
            sys: SystemRegisters::new(),
            simd: vec![0u128; VREG_COUNT],
            sve_z,
            sve_pred,
            sve_vl_bytes: SVE_DEFAULT_VL_BYTES,
            sme_svl_bytes: SVE_DEFAULT_VL_BYTES,
            exclusive: None,
        };
        proof {
            assert forall|i: int| 0 <= i < VREG_COUNT implies #[trigger] cpu@.z[i].len()
                == SVE_MAX_VL_BYTES by {
                assert(cpu.sve_z@[i]@.len() == SVE_MAX_VL_BYTES);
            }
            assert forall|i: int| 0 <= i < PREG_COUNT implies #[trigger] cpu@.p[i].len()
                == SVE_MAX_VL_BYTES by {
                assert(cpu.sve_pred@[i]@.len() == SVE_MAX_VL_BYTES);
            }
            assert forall|i: int, k: int|
                0 <= i < VREG_COUNT && 0 <= k < SVE_MAX_VL_BYTES implies cpu@.z[i][k] == 0 by {
                assert(cpu@.z[i] == cpu.sve_z@[i]@);
            }
            assert forall|i: int, k: int|
                0 <= i < PREG_COUNT && 0 <= k < SVE_MAX_VL_BYTES implies !cpu@.p[i][k] by {
                assert(cpu@.p[i] == cpu.sve_pred@[i]@);
            }
        }
        cpu
    }

    /// Start a reservation of `size` bytes at `pa`.
    pub fn reserve_exclusive(&mut self, pa: u64, size: u8)
        ensures
            final(self)@ == old(self)@.set_exclusive(Some((pa, size))),
    {
        self.exclusive = Some((pa, size));
    }

    /// Whether the monitor holds exactly this reservation.
    pub fn exclusive_matches(&self, pa: u64, size: u8) -> (r: bool)
        ensures
            r == (self@.exclusive == Some((pa, size))),
    {
        match self.exclusive {
            Some((a, s)) => a == pa && s == size,
            None => false,
        }
    }

    pub fn clear_exclusive(&mut self)
        ensures
            final(self)@ == old(self)@.set_exclusive(None),
    {
        self.exclusive = None;
    }

    /// Drop the reservation if it overlaps a store to `size` bytes at `pa`.
    pub fn clear_exclusive_if_overlaps(&mut self, pa: u64, size: u8)
        ensures
            final(self)@ == old(self)@.clear_exclusive_if_overlaps(pa, size as nat),
    {
        match self.exclusive {
            Some((a, s)) => {
                let a_end = a as u128 + s as u128;
                let b_end = pa as u128 + size as u128;
                if (a as u128) < b_end && (pa as u128) < a_end {
                    self.exclusive = None;
                }
            },
            None => {},
        }
    }
}

pub proof fn lemma_full_mask()
    ensures
        forall|x: u64| #[trigger] (x & 0xFFFF_FFFF_FFFF_FFFF) == x,
{
    assert(forall|x: u64| #[trigger] (x & 0xFFFF_FFFF_FFFF_FFFF) == x) by (bit_vector);
}

/// Values that fit in 32 bits pass the W-register mask unchanged.
pub proof fn lemma_small_mask()
    ensures
        forall|x: u64| x <= 0xFFFF_FFFF ==> #[trigger] (x & 0xFFFF_FFFF) == x,
{
    assert(forall|x: u64| x <= 0xFFFF_FFFF ==> #[trigger] (x & 0xFFFF_FFFF) == x) by (bit_vector);
}

/// Read register `r` as an operand (XZR for 31).
pub fn read_reg(cpu: &Armv8Cpu, r: u8, sf: bool) -> (v: u64)
    requires
        cpu.wf(),
    ensures
        v == cpu@.reg(r, sf),
{
    proof {
        lemma_full_mask();
    }
    if r >= 31 {
        0
    } else if sf {
        cpu.regs.x[r as usize]
    } else {
        cpu.regs.x[r as usize] & 0xFFFF_FFFF
    }
}

/// Read register `r` as a base address (SP for 31).
pub fn read_base(cpu: &Armv8Cpu, r: u8, sf: bool) -> (v: u64)
    requires
        cpu.wf(),
    ensures
        v == cpu@.base(r, sf),
{
    proof {
        lemma_full_mask();
    }
    if r >= 31 {
        if sf {
            cpu.regs.sp
        } else {
            cpu.regs.sp & 0xFFFF_FFFF
        }
    } else {
        read_reg(cpu, r, sf)
    }
}

/// Write register `r` (discarded for 31).
pub fn write_reg(cpu: &mut Armv8Cpu, r: u8, v: u64, sf: bool)
    requires
        old(cpu).wf(),
    ensures
        final(cpu).wf(),
        final(cpu)@ == old(cpu)@.set_reg(r, v, sf),
{
    proof {
        lemma_full_mask();
    }
    if r < 31 {
        let val = if sf {
            v
        } else {
            v & 0xFFFF_FFFF
        };
        cpu.regs.x.set(r as usize, val);
    }
}

/// Write register `r`, where 31 names SP.
pub fn write_reg_sp(cpu: &mut Armv8Cpu, r: u8, v: u64, sf: bool)
    requires
        old(cpu).wf(),
    ensures
        final(cpu).wf(),
        final(cpu)@ == old(cpu)@.set_reg_sp(r, v, sf),
{
    proof {
        lemma_full_mask();
    }
    if r >= 31 {
        cpu.regs.sp = if sf {
            v
        } else {
            v & 0xFFFF_FFFF
        };
    } else {
        write_reg(cpu, r, v, sf);
    }
}

} // verus!
