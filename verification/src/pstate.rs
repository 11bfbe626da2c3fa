//! Processor state: condition flags, interrupt masks and exception level.
use vstd::prelude::*;
use crate::constants::{PSTATE_DAIF_MASK, PSTATE_I_MASK};

verus! {

/// PSTATE as the engine keeps it.
#[derive(Clone, Copy, Debug, PartialEq, Eq, Structural)]
pub struct PState {
    pub n: bool,
    pub z: bool,
    pub c: bool,
    pub v: bool,
    /// The D, A, I and F mask bits, in their SPSR positions (bits 9..6).
    pub daif: u64,
    /// Current exception level, 0 to 3.
    pub el: u8,
    /// Whether the stack pointer of the current level is selected.
    pub sp_sel: bool,
}

pub open spec fn flag_bit(b: bool, pos: u64) -> u64 {
    if b {
        1u64 << pos
    } else {
        0
    }
}

/// The SPSR encoding of a PSTATE.
pub open spec fn spsr_of(p: PState) -> u64 {
    flag_bit(p.n, 31) | flag_bit(p.z, 30) | flag_bit(p.c, 29) | flag_bit(p.v, 28) | (p.daif
        & PSTATE_DAIF_MASK) | (((p.el & 3) as u64) << 2u64) | flag_bit(p.sp_sel, 0)
}

/// The PSTATE that an SPSR value encodes.
pub open spec fn pstate_of(v: u64) -> PState {
    PState {
        n: (v >> 31u64) & 1 == 1,
        z: (v >> 30u64) & 1 == 1,
        c: (v >> 29u64) & 1 == 1,
        v: (v >> 28u64) & 1 == 1,
        daif: v & PSTATE_DAIF_MASK,
        el: ((v >> 2u64) & 3) as u8,
        sp_sel: v & 1 == 1,
    }
}

impl PState {
    /// Only the mask bits are set in `daif`, and the level is 0 to 3.
    pub open spec fn wf(&self) -> bool {
        &&& self.daif & !PSTATE_DAIF_MASK == 0
        &&& self.el < 4
    }

    /// Reset state: EL1 with every interrupt masked and SP_EL1 selected.
    pub fn new() -> (p: Self)
        ensures
            p.wf(),
            p == (PState {
                n: false,
                z: false,
                c: false,
                v: false,
                daif: PSTATE_DAIF_MASK,
                el: 1,
                sp_sel: true,
            }),
    {
        assert(PSTATE_DAIF_MASK & !PSTATE_DAIF_MASK == 0) by (bit_vector);
        PState { n: false, z: false, c: false, v: false, daif: PSTATE_DAIF_MASK, el: 1, sp_sel: true }
    }

    pub fn n(&self) -> (r: bool)
        ensures
            r == self.n,
    {
        self.n
    }

    pub fn z(&self) -> (r: bool)
        ensures
            r == self.z,
    {
        self.z
    }

    pub fn c(&self) -> (r: bool)
        ensures
            r == self.c,
    {
        self.c
    }

    pub fn v(&self) -> (r: bool)
        ensures
            r == self.v,
    {
        self.v
    }

    pub fn set_nzcv(&mut self, n: bool, z: bool, c: bool, v: bool)
        ensures
            *final(self) == (PState { n, z, c, v, ..*old(self) }),
    {
        self.n = n;
        self.z = z;
        self.c = c;
        self.v = v;
    }

    /// The DAIF register value.
    pub fn daif(&self) -> (r: u64)
        ensures
            r == self.daif,
    {
        self.daif
    }

    pub fn el(&self) -> (r: u8)
        ensures
            r == self.el,
    {
        self.el
    }

    pub fn irq_masked(&self) -> (r: bool)
        ensures
            r == (self.daif & PSTATE_I_MASK != 0),
    {
        self.daif & PSTATE_I_MASK != 0
    }

    /// This state with the I bit set or cleared.
    pub fn with_irq_masked(&self, masked: bool) -> (r: Self)
        requires
            self.wf(),
        ensures
            r.wf(),
            r == (PState {
                daif: if masked {
                    self.daif | PSTATE_I_MASK
                } else {
                    self.daif & !PSTATE_I_MASK
                },
                ..*self
            }),
            (r.daif & PSTATE_I_MASK != 0) == masked,
    {
        let d = self.daif;
        assert(d & !0x3C0u64 == 0 ==> (d | 0x80u64) & !0x3C0u64 == 0 && (d & !0x80u64) & !0x3C0u64
            == 0 && ((d | 0x80u64) & 0x80u64 != 0) && ((d & !0x80u64) & 0x80u64 == 0))
            by (bit_vector);
        let daif = if masked {
            d | PSTATE_I_MASK
        } else {
            d & !PSTATE_I_MASK
        };
        PState { daif, ..*self }
    }

    /// This state with the DAIF bits taken from `value`.
    pub fn with_daif(&self, value: u64) -> (r: Self)
        ensures
            r.daif == value & PSTATE_DAIF_MASK,
            r == (PState { daif: value & PSTATE_DAIF_MASK, ..*self }),
            self.wf() ==> r.wf(),
    {
        assert((value & 0x3C0u64) & !0x3C0u64 == 0) by (bit_vector);
        PState { daif: value & PSTATE_DAIF_MASK, ..*self }
    }

    /// This state at exception level `el` (taken modulo 4).
    pub fn with_el(&self, el: u8) -> (r: Self)
        ensures
            r == (PState { el: el & 3, ..*self }),
            self.wf() ==> r.wf(),
    {
        assert(el & 3u8 < 4) by (bit_vector);
        PState { el: el & 3, ..*self }
    }

    /// The SPSR encoding of this state.
    pub fn to_u64(&self) -> (r: u64)
        ensures
            r == spsr_of(*self),
    {
        let n: u64 = if self.n { 1u64 << 31u64 } else { 0 };
        let z: u64 = if self.z { 1u64 << 30u64 } else { 0 };
        let c: u64 = if self.c { 1u64 << 29u64 } else { 0 };
        let v: u64 = if self.v { 1u64 << 28u64 } else { 0 };
        let sp: u64 = if self.sp_sel { 1u64 << 0u64 } else { 0 };
        n | z | c | v | (self.daif & PSTATE_DAIF_MASK) | (((self.el & 3) as u64) << 2u64) | sp
    }

    /// The state that an SPSR value encodes.
    pub fn from_u64(v: u64) -> (r: Self)
        ensures
            r == pstate_of(v),
            r.wf(),
    {
        assert((v & 0x3C0u64) & !0x3C0u64 == 0 && (v >> 2u64) & 3u64 < 4) by (bit_vector);
        PState {
            n: (v >> 31u64) & 1 == 1,
            z: (v >> 30u64) & 1 == 1,
            c: (v >> 29u64) & 1 == 1,
            v: (v >> 28u64) & 1 == 1,
            daif: v & PSTATE_DAIF_MASK,
            el: ((v >> 2u64) & 3) as u8,
            sp_sel: v & 1 == 1,
        }
    }
}

/// Saving a well-formed PSTATE to an SPSR and restoring it gives it back, as
/// an exception entry followed by ERET relies on.
pub proof fn lemma_spsr_round_trip(p: PState)
    requires
        p.wf(),
    ensures
        pstate_of(spsr_of(p)) == p,
{
    let (n, z, c, v, d, s) = (p.n, p.z, p.c, p.v, p.daif, p.sp_sel);
    let e = p.el;
    let word = spsr_of(p);
    assert(1u64 << 31u64 == 0x8000_0000 && 1u64 << 30u64 == 0x4000_0000 && 1u64 << 29u64
        == 0x2000_0000 && 1u64 << 28u64 == 0x1000_0000 && 1u64 << 0u64 == 1) by (bit_vector);
    let fn_ = flag_bit(n, 31);
    let fz = flag_bit(z, 30);
    let fc = flag_bit(c, 29);
    let fv = flag_bit(v, 28);
    let fs = flag_bit(s, 0);
    assert(fn_ == 0 || fn_ == 0x8000_0000);
    assert(fz == 0 || fz == 0x4000_0000);
    assert(fc == 0 || fc == 0x2000_0000);
    assert(fv == 0 || fv == 0x1000_0000);
    assert(fs == 0 || fs == 1);
    let el64 = ((e & 3) as u64);
    assert(el64 == e as u64) by (bit_vector)
        requires
            e < 4,
            el64 == ((e & 3) as u64),
    ;
    assert(({
        let w = fn_ | fz | fc | fv | (d & 0x3C0u64) | (el64 << 2u64) | fs;
        &&& ((w >> 31u64) & 1 == 1) == (fn_ != 0)
        &&& ((w >> 30u64) & 1 == 1) == (fz != 0)
        &&& ((w >> 29u64) & 1 == 1) == (fc != 0)
        &&& ((w >> 28u64) & 1 == 1) == (fv != 0)
        &&& (w & 0x3C0u64) == d
        &&& ((w >> 2u64) & 3u64) == el64
        &&& (w & 1 == 1) == (fs != 0)
    })) by (bit_vector)
        requires
            fn_ == 0 || fn_ == 0x8000_0000,
            fz == 0 || fz == 0x4000_0000,
            fc == 0 || fc == 0x2000_0000,
            fv == 0 || fv == 0x1000_0000,
            fs == 0 || fs == 1,
            d & !0x3C0u64 == 0,
            el64 < 4,
    ;
}

} // verus!
