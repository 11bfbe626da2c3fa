//! Add, subtract, move and compare; register, immediate and PC-relative forms.
use vstd::prelude::*;
use crate::alu::{
    add_with_carry, add_with_carry_exec, extend_exec, extend_value, mask_of, shift_exec,
    shift_value, sign_extend, sign_extend_bits,
};
use crate::cpu::{read_base, read_reg, width_mask, write_reg, write_reg_sp, Armv8Cpu, CpuState};
use crate::instr::{Instr, Opcode};

verus! {

/// Whether `op` is handled by this group.
pub open spec fn is_basic_op(op: Opcode) -> bool {
    match op {
        Opcode::Add | Opcode::Sub | Opcode::Adc | Opcode::Adcs | Opcode::Sbc | Opcode::Sbcs
        | Opcode::Adds | Opcode::Subs | Opcode::Movz | Opcode::Movn | Opcode::MovReg
        | Opcode::Sxtw | Opcode::Movk | Opcode::AddImm | Opcode::SubImm | Opcode::AddsImm
        | Opcode::SubsImm | Opcode::CompareImm | Opcode::Compare | Opcode::Adr | Opcode::Adrp
        | Opcode::AddExt | Opcode::SubExt | Opcode::AddsExt | Opcode::SubsExt => true,
        _ => false,
    }
}

/// The second operand of a shifted-register form.
pub open spec fn shifted_operand(s: CpuState, i: Instr) -> u64 {
    shift_value(s.reg(i.rm, i.sf), i.cond, (i.imm & 0xFF), i.sf)
}

/// The second operand of an extended-register form.
pub open spec fn extended_operand(s: CpuState, i: Instr, option: u8) -> u64 {
    extend_value(s.reg(i.rm, true), option, (i.imm & 0xFF), i.sf)
}

/// `x + y` or `x - y` as AddWithCarry computes it, with its flags.
pub open spec fn add_or_sub(x: u64, y: u64, sub: bool, sf: bool) -> (u64, bool, bool, bool, bool) {
    if sub {
        add_with_carry(x, !y & width_mask(sf), true, sf)
    } else {
        add_with_carry(x, y, false, sf)
    }
}

/// The state after an arithmetic result: flags set when `setflags`, and the
/// result written unless a flag-setting form targets register 31.
pub open spec fn arith_writeback(
    s: CpuState,
    rd: u8,
    r: (u64, bool, bool, bool, bool),
    setflags: bool,
    sf: bool,
) -> CpuState {
    if setflags {
        let t = s.set_nzcv(r.1, r.2, r.3, r.4);
        if rd != 31 {
            t.set_reg_sp(rd, r.0, sf)
        } else {
            t
        }
    } else {
        s.set_reg_sp(rd, r.0, sf)
    }
}

/// The effect of an instruction of this group.
pub open spec fn basic_step(s: CpuState, i: Instr) -> CpuState {
    let sf = i.sf;
    let m = width_mask(sf);
    match i.op {
        Opcode::Add => arith_writeback(
            s,
            i.rd,
            add_or_sub(s.reg(i.rn, sf), shifted_operand(s, i), false, sf),
            false,
            sf,
        ),
        Opcode::Sub => arith_writeback(
            s,
            i.rd,
            add_or_sub(s.reg(i.rn, sf), shifted_operand(s, i), true, sf),
            false,
            sf,
        ),
        Opcode::Adds => arith_writeback(
            s,
            i.rd,
            add_or_sub(s.reg(i.rn, sf), shifted_operand(s, i), false, sf),
            true,
            sf,
        ),
        Opcode::Subs => arith_writeback(
            s,
            i.rd,
            add_or_sub(s.reg(i.rn, sf), shifted_operand(s, i), true, sf),
            true,
            sf,
        ),
        Opcode::Adc | Opcode::Adcs => {
            let r = add_with_carry(s.reg(i.rn, sf), s.reg(i.rm, sf), s.pstate.c, sf);
            let t = if i.op == Opcode::Adcs {
                s.set_nzcv(r.1, r.2, r.3, r.4)
            } else {
                s
            };
            t.set_reg(i.rd, r.0, sf)
        },
        Opcode::Sbc | Opcode::Sbcs => {
            let r = add_with_carry(s.reg(i.rn, sf), !s.reg(i.rm, sf) & m, s.pstate.c, sf);
            let t = if i.op == Opcode::Sbcs {
                s.set_nzcv(r.1, r.2, r.3, r.4)
            } else {
                s
            };
            t.set_reg(i.rd, r.0, sf)
        },
        Opcode::Movz | Opcode::Movn => s.set_reg(i.rd, i.imm, sf),
        Opcode::MovReg => s.set_reg(i.rd, s.reg(i.rm, sf), sf),
        Opcode::Sxtw => s.set_reg(i.rd, sign_extend(s.reg(i.rn, false), 32), true),
        Opcode::Movk => {
            let hw = (i.cond & 3) as u64;
            let keep = !(0xFFFFu64 << (hw * 16));
            s.set_reg(i.rd, (s.reg(i.rd, sf) & keep) | i.imm, sf)
        },
        Opcode::AddImm => arith_writeback(
            s,
            i.rd,
            add_or_sub(s.base(i.rn, sf), i.imm & m, false, sf),
            false,
            sf,
        ),
        Opcode::SubImm => arith_writeback(
            s,
            i.rd,
            add_or_sub(s.base(i.rn, sf), i.imm & m, true, sf),
            false,
            sf,
        ),
        Opcode::AddsImm => arith_writeback(
            s,
            i.rd,
            add_or_sub(s.base(i.rn, sf), i.imm & m, false, sf),
            true,
            sf,
        ),
        Opcode::SubsImm => arith_writeback(
            s,
            i.rd,
            add_or_sub(s.base(i.rn, sf), i.imm & m, true, sf),
            true,
            sf,
        ),
        Opcode::CompareImm => {
            let r = add_or_sub(s.base(i.rn, sf), i.imm & m, true, sf);
            s.set_nzcv(r.1, r.2, r.3, r.4)
        },
        Opcode::Compare => {
            let r = if i.cond & 8 != 0 {
                add_or_sub(s.base(i.rn, sf), extended_operand(s, i, i.cond & 7), true, sf)
            } else {
                add_or_sub(s.reg(i.rn, sf), shifted_operand(s, i), true, sf)
            };
            s.set_nzcv(r.1, r.2, r.3, r.4)
        },
        Opcode::Adr => s.set_reg(i.rd, s.pc.wrapping_add(i.imm), true),
        Opcode::Adrp => s.set_reg(i.rd, (s.pc & !0xFFFu64).wrapping_add(i.imm), true),
        Opcode::AddExt => arith_writeback(
            s,
            i.rd,
            add_or_sub(s.base(i.rn, sf), extended_operand(s, i, i.cond), false, sf),
            false,
            sf,
        ),
        Opcode::SubExt => arith_writeback(
            s,
            i.rd,
            add_or_sub(s.base(i.rn, sf), extended_operand(s, i, i.cond), true, sf),
            false,
            sf,
        ),
        Opcode::AddsExt => arith_writeback(
            s,
            i.rd,
            add_or_sub(s.base(i.rn, sf), extended_operand(s, i, i.cond), false, sf),
            true,
            sf,
        ),
        Opcode::SubsExt => arith_writeback(
            s,
            i.rd,
            add_or_sub(s.base(i.rn, sf), extended_operand(s, i, i.cond), true, sf),
            true,
            sf,
        ),
        _ => s,
    }
}

pub proof fn lemma_shift_fits(v: u64, t: u8, amount: u64, sf: bool)
    ensures
        shift_value(v, t, amount, sf) <= width_mask(sf),
{
    let m = width_mask(sf);
    let w = if sf { 64u64 } else { 32u64 };
    let a = amount & ((w - 1) as u64);
    let x = v & m;
    assert(x <= m && (x >> a) <= m && (forall|p: u64, q: u64| #[trigger] (p & q) <= q))
        by (bit_vector)
        requires
            x == v & m,
    ;
}

pub proof fn lemma_operands_fit(s: CpuState, i: Instr)
    requires
        s.wf(),
    ensures
        s.reg(i.rn, i.sf) <= width_mask(i.sf),
        s.reg(i.rm, i.sf) <= width_mask(i.sf),
        s.base(i.rn, i.sf) <= width_mask(i.sf),
        shifted_operand(s, i) <= width_mask(i.sf),
        forall|o: u8| #[trigger] extended_operand(s, i, o) <= width_mask(i.sf),
        i.imm & width_mask(i.sf) <= width_mask(i.sf),
        forall|y: u64| #[trigger] (!y & width_mask(i.sf)) <= width_mask(i.sf),
{
    let m = width_mask(i.sf);
    lemma_shift_fits(s.reg(i.rm, i.sf), i.cond, (i.imm & 0xFF), i.sf);
    assert((forall|a: u64, b: u64| #[trigger] (a & b) <= b) && (forall|a: u64, b: u64|
        #[trigger] (a & b) <= a) && (forall|y: u64| #[trigger] (!y & m) <= m)) by (bit_vector);
}

/// Compute `x + y` or `x - y` with flags.
fn add_or_sub_exec(x: u64, y: u64, sub: bool, sf: bool) -> (r: (u64, bool, bool, bool, bool))
    requires
        x <= width_mask(sf),
        y <= width_mask(sf),
    ensures
        r == add_or_sub(x, y, sub, sf),
{
    if sub {
        let ny = !y & mask_of(sf);
        assert((!y & width_mask(sf)) <= width_mask(sf)) by (bit_vector);
        add_with_carry_exec(x, ny, true, sf)
    } else {
        add_with_carry_exec(x, y, false, sf)
    }
}

fn arith_writeback_exec(
    cpu: &mut Armv8Cpu,
    rd: u8,
    r: (u64, bool, bool, bool, bool),
    setflags: bool,
    sf: bool,
)
    requires
        old(cpu).wf(),
    ensures
        final(cpu).wf(),
        final(cpu)@ == arith_writeback(old(cpu)@, rd, r, setflags, sf),
{
    if setflags {
        cpu.pstate.set_nzcv(r.1, r.2, r.3, r.4);
        if rd != 31 {
            write_reg_sp(cpu, rd, r.0, sf);
        }
    } else {
        write_reg_sp(cpu, rd, r.0, sf);
    }
}

fn exec_shifted(cpu: &mut Armv8Cpu, instr: Instr)
    requires
        old(cpu).wf(),
        instr.op == Opcode::Add || instr.op == Opcode::Sub || instr.op == Opcode::Adds || instr.op
            == Opcode::Subs,
    ensures
        final(cpu).wf(),
        final(cpu)@ == basic_step(old(cpu)@, instr),
{
    let sf = instr.sf;
    proof {
        lemma_operands_fit(cpu@, instr);
    }
    let lhs = read_reg(cpu, instr.rn, sf);
    let rhs = shift_exec(read_reg(cpu, instr.rm, sf), instr.cond, instr.imm & 0xFF, sf);
    let sub = instr.op == Opcode::Sub || instr.op == Opcode::Subs;
    let flags = instr.op == Opcode::Adds || instr.op == Opcode::Subs;
    let r = add_or_sub_exec(lhs, rhs, sub, sf);
    arith_writeback_exec(cpu, instr.rd, r, flags, sf);
}

fn exec_carry(cpu: &mut Armv8Cpu, instr: Instr)
    requires
        old(cpu).wf(),
        instr.op == Opcode::Adc || instr.op == Opcode::Adcs || instr.op == Opcode::Sbc || instr.op
            == Opcode::Sbcs,
    ensures
        final(cpu).wf(),
        final(cpu)@ == basic_step(old(cpu)@, instr),
{
    let sf = instr.sf;
    let m = mask_of(sf);
    proof {
        lemma_operands_fit(cpu@, instr);
    }
    let lhs = read_reg(cpu, instr.rn, sf);
    let rm = read_reg(cpu, instr.rm, sf);
    let rhs = if instr.op == Opcode::Sbc || instr.op == Opcode::Sbcs {
        !rm & m
    } else {
        rm
    };
    let r = add_with_carry_exec(lhs, rhs, cpu.pstate.c, sf);
    if instr.op == Opcode::Adcs || instr.op == Opcode::Sbcs {
        cpu.pstate.set_nzcv(r.1, r.2, r.3, r.4);
    }
    write_reg(cpu, instr.rd, r.0, sf);
}

fn exec_move(cpu: &mut Armv8Cpu, instr: Instr)
    requires
        old(cpu).wf(),
        instr.op == Opcode::Movz || instr.op == Opcode::Movn || instr.op == Opcode::MovReg
            || instr.op == Opcode::Sxtw || instr.op == Opcode::Movk || instr.op == Opcode::Adr
            || instr.op == Opcode::Adrp,
    ensures
        final(cpu).wf(),
        final(cpu)@ == basic_step(old(cpu)@, instr),
{
    let sf = instr.sf;
    match instr.op {
        Opcode::Movz | Opcode::Movn => write_reg(cpu, instr.rd, instr.imm, sf),
        Opcode::MovReg => {
            let v = read_reg(cpu, instr.rm, sf);
            write_reg(cpu, instr.rd, v, sf);
        },
        Opcode::Sxtw => {
            let v = sign_extend_bits(read_reg(cpu, instr.rn, false), 32);
            write_reg(cpu, instr.rd, v, true);
        },
        Opcode::Movk => {
            let c = instr.cond;
            let hw = (c & 3) as u64;
            assert(c & 3u8 < 4) by (bit_vector);
            let keep = !(0xFFFFu64 << (hw * 16));
            let old = read_reg(cpu, instr.rd, sf);
            write_reg(cpu, instr.rd, (old & keep) | instr.imm, sf);
        },
        Opcode::Adr => {
            let v = cpu.regs.pc.wrapping_add(instr.imm);
            write_reg(cpu, instr.rd, v, true);
        },
        _ => {
            let v = (cpu.regs.pc & !0xFFFu64).wrapping_add(instr.imm);
            write_reg(cpu, instr.rd, v, true);
        },
    }
}

fn exec_immediate(cpu: &mut Armv8Cpu, instr: Instr)
    requires
        old(cpu).wf(),
        instr.op == Opcode::AddImm || instr.op == Opcode::SubImm || instr.op == Opcode::AddsImm
            || instr.op == Opcode::SubsImm || instr.op == Opcode::CompareImm,
    ensures
        final(cpu).wf(),
        final(cpu)@ == basic_step(old(cpu)@, instr),
{
    let sf = instr.sf;
    let m = mask_of(sf);
    proof {
        lemma_operands_fit(cpu@, instr);
    }
    let lhs = read_base(cpu, instr.rn, sf);
    let sub = instr.op == Opcode::SubImm || instr.op == Opcode::SubsImm || instr.op
        == Opcode::CompareImm;
    let r = add_or_sub_exec(lhs, instr.imm & m, sub, sf);
    if instr.op == Opcode::CompareImm {
        cpu.pstate.set_nzcv(r.1, r.2, r.3, r.4);
    } else {
        let flags = instr.op == Opcode::AddsImm || instr.op == Opcode::SubsImm;
        arith_writeback_exec(cpu, instr.rd, r, flags, sf);
    }
}

fn exec_extended(cpu: &mut Armv8Cpu, instr: Instr)
    requires
        old(cpu).wf(),
        instr.op == Opcode::AddExt || instr.op == Opcode::SubExt || instr.op == Opcode::AddsExt
            || instr.op == Opcode::SubsExt || instr.op == Opcode::Compare,
    ensures
        final(cpu).wf(),
        final(cpu)@ == basic_step(old(cpu)@, instr),
{
    let sf = instr.sf;
    proof {
        lemma_operands_fit(cpu@, instr);
    }
    if instr.op == Opcode::Compare {
        let r = if instr.cond & 8 != 0 {
            let lhs = read_base(cpu, instr.rn, sf);
            let rhs = extend_exec(read_reg(cpu, instr.rm, true), instr.cond & 7, instr.imm & 0xFF, sf);
            add_or_sub_exec(lhs, rhs, true, sf)
        } else {
            let lhs = read_reg(cpu, instr.rn, sf);
            let rhs = shift_exec(read_reg(cpu, instr.rm, sf), instr.cond, instr.imm & 0xFF, sf);
            add_or_sub_exec(lhs, rhs, true, sf)
        };
        cpu.pstate.set_nzcv(r.1, r.2, r.3, r.4);
    } else {
        let lhs = read_base(cpu, instr.rn, sf);
        let rhs = extend_exec(read_reg(cpu, instr.rm, true), instr.cond, instr.imm & 0xFF, sf);
        let sub = instr.op == Opcode::SubExt || instr.op == Opcode::SubsExt;
        let flags = instr.op == Opcode::AddsExt || instr.op == Opcode::SubsExt;
        let r = add_or_sub_exec(lhs, rhs, sub, sf);
        arith_writeback_exec(cpu, instr.rd, r, flags, sf);
    }
}

/// Execute an instruction of this group.
pub fn exec_basic(cpu: &mut Armv8Cpu, instr: Instr)
    requires
        old(cpu).wf(),
        is_basic_op(instr.op),
    ensures
        final(cpu).wf(),
        final(cpu)@ == basic_step(old(cpu)@, instr),
{
    match instr.op {
        Opcode::Add | Opcode::Sub | Opcode::Adds | Opcode::Subs => exec_shifted(cpu, instr),
        Opcode::Adc | Opcode::Adcs | Opcode::Sbc | Opcode::Sbcs => exec_carry(cpu, instr),
        Opcode::Movz | Opcode::Movn | Opcode::MovReg | Opcode::Sxtw | Opcode::Movk | Opcode::Adr
        | Opcode::Adrp => exec_move(cpu, instr),
        Opcode::AddImm | Opcode::SubImm | Opcode::AddsImm | Opcode::SubsImm | Opcode::CompareImm => {
            exec_immediate(cpu, instr)
        },
        _ => exec_extended(cpu, instr),
    }
}

} // verus!
