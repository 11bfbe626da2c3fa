//! Conditional select and compare, logical operations and bitfield moves.
use vstd::prelude::*;
use crate::alu::{
    add_with_carry, add_with_carry_exec, cond_holds, cond_taken_flags, mask_of, msb, msb_of,
    ones, ones_of, shift_exec, shift_value, sign_extend, sign_extend_bits, width_bits,
};
use crate::cpu::{read_reg, width_mask, write_reg, Armv8Cpu, CpuState};
use crate::dp_basic::{lemma_shift_fits, shifted_operand};
use crate::instr::{Instr, Opcode};

verus! {

pub open spec fn is_logic_op(op: Opcode) -> bool {
    match op {
        Opcode::Csel | Opcode::Csinc | Opcode::Csinv | Opcode::Csneg | Opcode::CondCompare
        | Opcode::CondCompareNeg | Opcode::AndImm | Opcode::OrrImm | Opcode::EorImm | Opcode::AndsImm
        | Opcode::AndReg | Opcode::OrrReg | Opcode::EorReg | Opcode::AndsReg | Opcode::Sbfm
        | Opcode::Bfm | Opcode::Ubfm => true,
        _ => false,
    }
}

/// The bitfield move of `src` into `dst` with rotation `immr` and top bit
/// `imms` (both taken modulo the width). `kind` is 0 for SBFM, 1 for BFM,
/// 2 for UBFM.
pub open spec fn bitfield(dst: u64, src: u64, immr: u64, imms: u64, kind: u8, sf: bool) -> u64 {
    let w = width_bits(sf);
    let m = width_mask(sf);
    let r = immr & ((w - 1) as u64);
    let s = imms & ((w - 1) as u64);
    if s >= r {
        let width = (s - r + 1) as u64;
        let field = (src >> r) & ones(width);
        if kind == 0 {
            sign_extend(field, width) & m
        } else if kind == 1 {
            (dst & !ones(width) & m) | field
        } else {
            field
        }
    } else {
        let width = (s + 1) as u64;
        let pos = (w - r) as u64;
        let low = src & ones(width);
        if kind == 0 {
            (sign_extend(low, width) << pos) & m
        } else if kind == 1 {
            (dst & !(ones(width) << pos) & m) | ((low << pos) & m)
        } else {
            (low << pos) & m
        }
    }
}

/// The NZCV value of a conditional compare whose condition fails.
pub open spec fn nzcv_immediate(s: CpuState, imm: u64) -> CpuState {
    s.set_nzcv(imm & 8 != 0, imm & 4 != 0, imm & 2 != 0, imm & 1 != 0)
}

/// The second operand of a logical-register form, inverted when bit 8 of
/// the immediate is set.
pub open spec fn logical_operand(s: CpuState, i: Instr) -> u64 {
    let op2 = shifted_operand(s, i);
    if (i.imm >> 8u64) & 1 == 1 {
        !op2 & width_mask(i.sf)
    } else {
        op2
    }
}

pub open spec fn logic_step(s: CpuState, i: Instr) -> CpuState {
    let sf = i.sf;
    let m = width_mask(sf);
    let taken = cond_holds(s.pstate, i.cond);
    let n = s.reg(i.rn, sf);
    let rm = s.reg(i.rm, sf);
    match i.op {
        Opcode::Csel => s.set_reg(i.rd, if taken { n } else { rm }, sf),
        Opcode::Csinc => s.set_reg(i.rd, if taken { n } else { rm.wrapping_add(1) }, sf),
        Opcode::Csinv => s.set_reg(i.rd, if taken { n } else { !rm }, sf),
        Opcode::Csneg => s.set_reg(i.rd, if taken { n } else { 0u64.wrapping_sub(rm) }, sf),
        Opcode::CondCompare | Opcode::CondCompareNeg => if taken {
            let op2 = if i.imm & 0x100 != 0 {
                (i.rm & 0x1F) as u64
            } else {
                rm
            };
            let r = if i.op == Opcode::CondCompare {
                add_with_carry(n, !op2 & m, true, sf)
            } else {
                add_with_carry(n, op2, false, sf)
            };
            s.set_nzcv(r.1, r.2, r.3, r.4)
        } else {
            nzcv_immediate(s, i.imm)
        },
        Opcode::AndImm => s.set_reg(i.rd, n & i.imm, sf),
        Opcode::OrrImm => s.set_reg(i.rd, n | i.imm, sf),
        Opcode::EorImm => s.set_reg(i.rd, n ^ i.imm, sf),
        Opcode::AndsImm => {
            let v = n & i.imm & m;
            s.set_nzcv(msb(v, sf), v == 0, false, false).set_reg(i.rd, v, sf)
        },
        Opcode::AndReg => s.set_reg(i.rd, n & logical_operand(s, i), sf),
        Opcode::OrrReg => s.set_reg(i.rd, n | logical_operand(s, i), sf),
        Opcode::EorReg => s.set_reg(i.rd, n ^ logical_operand(s, i), sf),
        Opcode::AndsReg => {
            let v = n & logical_operand(s, i);
            s.set_nzcv(msb(v, sf), v == 0, false, false).set_reg(i.rd, v, sf)
        },
        Opcode::Sbfm => s.set_reg(i.rd, bitfield(s.reg(i.rd, sf), n, i.rm as u64, i.imm, 0, sf), sf),
        Opcode::Bfm => s.set_reg(i.rd, bitfield(s.reg(i.rd, sf), n, i.rm as u64, i.imm, 1, sf), sf),
        Opcode::Ubfm => s.set_reg(i.rd, bitfield(s.reg(i.rd, sf), n, i.rm as u64, i.imm, 2, sf), sf),
        _ => s,
    }
}

pub fn bitfield_exec(dst: u64, src: u64, immr: u64, imms: u64, kind: u8, sf: bool) -> (r: u64)
    ensures
        r == bitfield(dst, src, immr, imms, kind, sf),
{
    let w: u64 = if sf {
        64
    } else {
        32
    };
    let m = mask_of(sf);
    let r = immr & (w - 1);
    let s = imms & (w - 1);
    assert(immr & 63u64 < 64 && immr & 31u64 < 32 && imms & 63u64 < 64 && imms & 31u64 < 32)
        by (bit_vector);
    if s >= r {
        let width = s - r + 1;
        let field = (src >> r) & ones_of(width);
        if kind == 0 {
            sign_extend_bits(field, width) & m
        } else if kind == 1 {
            (dst & !ones_of(width) & m) | field
        } else {
            field
        }
    } else {
        let width = s + 1;
        let pos = w - r;
        let low = src & ones_of(width);
        if kind == 0 {
            (sign_extend_bits(low, width) << pos) & m
        } else if kind == 1 {
            (dst & !(ones_of(width) << pos) & m) | ((low << pos) & m)
        } else {
            (low << pos) & m
        }
    }
}

fn exec_cond_select(cpu: &mut Armv8Cpu, instr: Instr)
    requires
        old(cpu).wf(),
        instr.op == Opcode::Csel || instr.op == Opcode::Csinc || instr.op == Opcode::Csinv
            || instr.op == Opcode::Csneg,
    ensures
        final(cpu).wf(),
        final(cpu)@ == logic_step(old(cpu)@, instr),
{
    let sf = instr.sf;
    let taken = cond_taken_flags(&cpu.pstate, instr.cond);
    let n = read_reg(cpu, instr.rn, sf);
    let rm = read_reg(cpu, instr.rm, sf);
    let v = if taken {
        n
    } else {
        match instr.op {
            Opcode::Csel => rm,
            Opcode::Csinc => rm.wrapping_add(1),
            Opcode::Csinv => !rm,
            _ => 0u64.wrapping_sub(rm),
        }
    };
    write_reg(cpu, instr.rd, v, sf);
}

fn exec_cond_compare(cpu: &mut Armv8Cpu, instr: Instr)
    requires
        old(cpu).wf(),
        instr.op == Opcode::CondCompare || instr.op == Opcode::CondCompareNeg,
    ensures
        final(cpu).wf(),
        final(cpu)@ == logic_step(old(cpu)@, instr),
{
    let sf = instr.sf;
    let m = mask_of(sf);
    let taken = cond_taken_flags(&cpu.pstate, instr.cond);
    if taken {
        let n = read_reg(cpu, instr.rn, sf);
        let rm_field = instr.rm;
        let op2 = if instr.imm & 0x100 != 0 {
            (rm_field & 0x1F) as u64
        } else {
            read_reg(cpu, instr.rm, sf)
        };
        proof {
            let mm = m;
            assert((rm_field & 0x1Fu8) as u64 <= 31 && (forall|a: u64| #[trigger] (!a & mm) <= mm)
                && (forall|a: u64, b: u64| #[trigger] (a & b) <= b)) by (bit_vector);
            assert(n <= m);
            assert(op2 <= m);
        }
        let r = if instr.op == Opcode::CondCompare {
            add_with_carry_exec(n, !op2 & m, true, sf)
        } else {
            add_with_carry_exec(n, op2, false, sf)
        };
        cpu.pstate.set_nzcv(r.1, r.2, r.3, r.4);
    } else {
        let imm = instr.imm;
        cpu.pstate.set_nzcv(imm & 8 != 0, imm & 4 != 0, imm & 2 != 0, imm & 1 != 0);
    }
}

fn exec_logical(cpu: &mut Armv8Cpu, instr: Instr)
    requires
        old(cpu).wf(),
        instr.op == Opcode::AndImm || instr.op == Opcode::OrrImm || instr.op == Opcode::EorImm
            || instr.op == Opcode::AndsImm || instr.op == Opcode::AndReg || instr.op
            == Opcode::OrrReg || instr.op == Opcode::EorReg || instr.op == Opcode::AndsReg,
    ensures
        final(cpu).wf(),
        final(cpu)@ == logic_step(old(cpu)@, instr),
{
    let sf = instr.sf;
    let m = mask_of(sf);
    let n = read_reg(cpu, instr.rn, sf);
    let op2 = match instr.op {
        Opcode::AndImm | Opcode::OrrImm | Opcode::EorImm | Opcode::AndsImm => instr.imm,
        _ => {
            let shifted = shift_exec(read_reg(cpu, instr.rm, sf), instr.cond, instr.imm & 0xFF, sf);
            if (instr.imm >> 8u64) & 1 == 1 {
                !shifted & m
            } else {
                shifted
            }
        },
    };
    match instr.op {
        Opcode::AndImm | Opcode::AndReg => write_reg(cpu, instr.rd, n & op2, sf),
        Opcode::OrrImm | Opcode::OrrReg => write_reg(cpu, instr.rd, n | op2, sf),
        Opcode::EorImm | Opcode::EorReg => write_reg(cpu, instr.rd, n ^ op2, sf),
        _ => {
            let v = if instr.op == Opcode::AndsImm {
                n & op2 & m
            } else {
                n & op2
            };
            cpu.pstate.set_nzcv(msb_of(v, sf), v == 0, false, false);
            write_reg(cpu, instr.rd, v, sf);
        },
    }
}

fn exec_bitfield(cpu: &mut Armv8Cpu, instr: Instr)
    requires
        old(cpu).wf(),
        instr.op == Opcode::Sbfm || instr.op == Opcode::Bfm || instr.op == Opcode::Ubfm,
    ensures
        final(cpu).wf(),
        final(cpu)@ == logic_step(old(cpu)@, instr),
{
    let sf = instr.sf;
    let kind: u8 = match instr.op {
        Opcode::Sbfm => 0,
        Opcode::Bfm => 1,
        _ => 2,
    };
    let dst = read_reg(cpu, instr.rd, sf);
    let src = read_reg(cpu, instr.rn, sf);
    let v = bitfield_exec(dst, src, instr.rm as u64, instr.imm, kind, sf);
    write_reg(cpu, instr.rd, v, sf);
}

/// Execute an instruction of this group.
pub fn exec_logic(cpu: &mut Armv8Cpu, instr: Instr)
    requires
        old(cpu).wf(),
        is_logic_op(instr.op),
    ensures
        final(cpu).wf(),
        final(cpu)@ == logic_step(old(cpu)@, instr),
{
    match instr.op {
        Opcode::Csel | Opcode::Csinc | Opcode::Csinv | Opcode::Csneg => exec_cond_select(
            cpu,
            instr,
        ),
        Opcode::CondCompare | Opcode::CondCompareNeg => exec_cond_compare(cpu, instr),
        Opcode::Sbfm | Opcode::Bfm | Opcode::Ubfm => exec_bitfield(cpu, instr),
        _ => exec_logical(cpu, instr),
    }
}

} // verus!
