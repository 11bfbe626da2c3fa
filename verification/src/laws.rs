//! Properties that relate several operations of the engine.
use vstd::prelude::*;
use crate::constants::{INSTRUCTION_SIZE, NO_OFFSET_REGISTER, PSTATE_I_MASK, RAM_SIZE};
use crate::cpu::{width_mask, CpuState};
use crate::guest::{
    crosses_page, guest_read, guest_write, lemma_guest_read_untranslated, lemma_guest_write_frame,
    lemma_guest_write_untranslated,
};
use crate::guest_mapped::{
    byte_pa, byte_va, bytes_land, lemma_read_bytes_mapped, lemma_write_bytes_mapped,
};
use crate::le_bytes::{le_value, lemma_le_value_bound, lemma_pow256_values, pow256};
use crate::simd_data::{
    first_source, is_simd_data_op, lane_count, lane_size, lane_value, lanes_result, per,
    simd_data_step, simd_data_wf, third_source,
};
use crate::simd_lanes::{vbytes, vvalue, zero16};
use crate::sve::fill;
use crate::structure::{
    group_reg, lemma_structure_load_lanes, lemma_structure_store_lanes, ram_byte, structure_body,
    structure_bytes, structure_lands, structure_pa, structure_reg, structure_shift,
};
use crate::memory::{in_ram, lemma_mem_read_after_write};
use crate::mmu::{
    translate_data,
    lemma_walk_frame, lemma_walk_read_any_el, lemma_walk_write_allows_read, start_level,
    lemma_translate_write_allows_read, translate_spec, walk_root,
    translation_avoids, ExecError, DESC_ADDR_MASK, SCTLR_MMU_ENABLE,
};
use crate::exclusive::{exclusive_step, exclusive_wf};
use crate::instr::{Instr, Opcode};
use crate::load_store::{
    base_value, is_ldr_str_op, ldr_str_step, ldr_str_wf, ldst_address, ldst_size,
};
use crate::memory::{mem_read, mem_write};
use crate::constants::{
    SYSREG_CNTKCTL_EL1, SYSREG_CNTP_CVAL_EL0, SYSREG_CNTP_TVAL_EL0, SYSREG_CNTV_CVAL_EL0,
    SYSREG_CNTV_TVAL_EL0, SYSREG_CPACR_EL1, SYSREG_ELR_EL1, SYSREG_ESR_EL1, SYSREG_FAR_EL1,
    SYSREG_FPCR, SYSREG_FPSR, SYSREG_MAIR_EL1, SYSREG_SCTLR_EL1, SYSREG_SPSR_EL1, SYSREG_SP_EL0,
    SYSREG_SP_EL1, SYSREG_TCR_EL1, SYSREG_TPIDR_EL0, SYSREG_TPIDR_EL1, SYSREG_TTBR0_EL1,
    SYSREG_TTBR1_EL1, SYSREG_VBAR_EL1,
};
use crate::sysregs::{spec_read_sys_reg, spec_write_sys_reg, SystemRegisters};
use crate::branch::{branch_taken, is_branch_op};
use crate::constants::{VBAR_IRQ_CURRENT_EL, VBAR_IRQ_LOWER_EL_AARCH64};
use crate::execute::{execute_step, instr_wf, operate};
use crate::dp_basic::{add_or_sub, arith_writeback, extended_operand, shifted_operand};
use crate::pstate::lemma_spsr_round_trip;
use crate::system::{eret_step, is_nop_like, svc_step};
use crate::timer::{finish, latch_timer_irq, timer_irq};

verus! {

/// A supervisor call followed by the exception return resumes at the
/// instruction after the call, with the caller's PSTATE, stack pointer and
/// general-purpose registers.
pub proof fn lemma_svc_eret_round_trip(s: CpuState, imm: u64)
    requires
        s.wf(),
    ensures
        eret_step(svc_step(s, imm)).pc == s.pc.wrapping_add(INSTRUCTION_SIZE),
        eret_step(svc_step(s, imm)).pstate == s.pstate,
        eret_step(svc_step(s, imm)).sp == s.sp,
        eret_step(svc_step(s, imm)).x == s.x,
{
    lemma_spsr_round_trip(s.pstate);
}

/// Taking a pending timer interrupt and returning from it with ERET resumes
/// the interrupted code where it stopped, with its PSTATE, stack pointer
/// and general-purpose registers.
pub proof fn lemma_irq_eret_round_trip(s: CpuState)
    requires
        s.wf(),
        s.sys.vbar_el1 != 0,
        s.sys.irq_pending,
        s.pstate.daif & PSTATE_I_MASK == 0,
    ensures
        eret_step(timer_irq(s)).pc == s.pc,
        eret_step(timer_irq(s)).pstate == s.pstate,
        eret_step(timer_irq(s)).sp == s.sp,
        eret_step(timer_irq(s)).x == s.x,
{
    let s1 = latch_timer_irq(s);
    assert(s1.pstate == s.pstate && s1.pc == s.pc && s1.sp == s.sp && s1.x == s.x);
    assert(s1.sys.irq_pending);
    lemma_spsr_round_trip(s.pstate);
}

/// With address translation off, reading back the `size` bytes just written
/// at an address in RAM returns the written value cut to `size` bytes, also
/// where the access crosses a page and goes byte by byte.
pub proof fn lemma_guest_write_then_read(
    s: CpuState,
    mem: Seq<u8>,
    va: u64,
    size: nat,
    value: u64,
)
    requires
        mem.len() == RAM_SIZE,
        1 <= size <= 8,
        s.sys.sctlr_el1 & SCTLR_MMU_ENABLE == 0,
        in_ram(va, size),
    ensures
        guest_write(s, mem, va, size, value).0 is Ok,
        guest_read(
            guest_write(s, mem, va, size, value).1,
            guest_write(s, mem, va, size, value).2,
            va,
            size,
        ).0 == Ok::<u64, crate::mmu::ExecError>((value as nat % pow256(size)) as u64),
{
    lemma_guest_write_untranslated(s, mem, va, size, value);
    let (_, s1, m1) = guest_write(s, mem, va, size, value);
    lemma_guest_read_untranslated(s1, m1, va, size);
    lemma_mem_read_after_write(mem, va, size, value);
}

/// Reading back the `size` bytes just written at `va`, within one page,
/// returns the written value cut to `size` bytes, with translation on as
/// with it off: when the write was allowed, reached RAM, and did not
/// overwrite the page-table entries that translate `va`.
pub proof fn lemma_mapped_write_then_read(
    s: CpuState,
    mem: Seq<u8>,
    va: u64,
    size: nat,
    value: u64,
)
    requires
        mem.len() == RAM_SIZE,
        1 <= size <= 8,
        !crosses_page(va, size),
        translate_spec(s, mem, va, true) is Ok,
        in_ram(translate_spec(s, mem, va, true)->Ok_0, size),
        translation_avoids(s, mem, va, translate_spec(s, mem, va, true)->Ok_0 as int, size as int),
    ensures
        guest_write(s, mem, va, size, value).0 is Ok,
        guest_read(
            guest_write(s, mem, va, size, value).1,
            guest_write(s, mem, va, size, value).2,
            va,
            size,
        ).0 == Ok::<u64, crate::mmu::ExecError>((value as nat % pow256(size)) as u64),
{
    let pa = translate_spec(s, mem, va, true)->Ok_0;
    let (_, s1, m1) = guest_write(s, mem, va, size, value);
    assert(s1.sys == s.sys && s1.pstate == s.pstate);
    assert(m1 == mem_write(mem, pa, size, value));
    if s.sys.sctlr_el1 & SCTLR_MMU_ENABLE != 0 {
        let upper = (va >> 63u64) == 1;
        let ttbr = if upper {
            s.sys.ttbr1_el1
        } else {
            s.sys.ttbr0_el1
        };
        let txsz = if upper {
            (s.sys.tcr_el1 >> 16u64) & 0x3F
        } else {
            s.sys.tcr_el1 & 0x3F
        };
        let table = ttbr & DESC_ADDR_MASK;
        let level = start_level(txsz);
        lemma_walk_frame(mem, table, va, level, false, s.pstate.el, pa, size, value);
        lemma_walk_write_allows_read(mem, table, va, level, s.pstate.el);
    }
    lemma_mem_read_after_write(mem, pa, size, value);
}

/// Reading back the `size` bytes just written at `va` across a page
/// boundary, each byte translated on its own, returns the written value
/// cut to `size` bytes: when every byte may be written, lands in RAM, and
/// is translated without reading a page-table byte the store writes.
pub proof fn lemma_crossing_write_then_read(
    s: CpuState,
    mem: Seq<u8>,
    va: u64,
    size: nat,
    value: u64,
)
    requires
        mem.len() == RAM_SIZE,
        1 <= size <= 8,
        crosses_page(va, size),
        bytes_land(s, mem, va, size),
    ensures
        guest_write(s, mem, va, size, value).0 is Ok,
        guest_read(
            guest_write(s, mem, va, size, value).1,
            guest_write(s, mem, va, size, value).2,
            va,
            size,
        ).0 == Ok::<u64, crate::mmu::ExecError>((value as nat % pow256(size)) as u64),
{
    lemma_write_bytes_mapped(s, mem, va, value, size, size);
    let (_, s1, m1) = guest_write(s, mem, va, size, value);
    lemma_read_bytes_mapped(s, s1, m1, mem, va, value, size, size);
}

/// With IRQs masked in PSTATE, retiring an instruction never enters the
/// interrupt vector: the PC only moves on, and PSTATE, the stack pointer
/// and the general registers stay as they were.
pub proof fn lemma_masked_irq_not_taken(s: CpuState)
    requires
        s.pstate.daif & PSTATE_I_MASK != 0,
    ensures
        finish(s).pc == s.pc.wrapping_add(INSTRUCTION_SIZE),
        finish(s).pstate == s.pstate,
        finish(s).sp == s.sp,
        finish(s).x == s.x,
{
}

/// A load-exclusive followed by a store-exclusive of the same size to the
/// same address succeeds: the store writes status 0, memory then holds the
/// stored register cut to the access size at the address the store
/// translates to, and the reservation is used up, so that the same
/// store-exclusive issued again writes status 1 and leaves memory as it is.
/// (The address may be written and is backed by RAM, and the load does not
/// overwrite its own base register.)
pub proof fn lemma_exclusive_pair_succeeds(s: CpuState, mem: Seq<u8>, ld: Instr, st: Instr)
    requires
        s.wf(),
        mem.len() == RAM_SIZE,
        ld.op == Opcode::Ldxr,
        st.op == Opcode::Stxr,
        exclusive_wf(ld),
        exclusive_wf(st),
        st.rn == ld.rn,
        st.size == ld.size,
        ld.rd != ld.rn,
        translate_spec(s, mem, base_value(s, ld.rn), true) is Ok,
        in_ram(store_address(s, mem, base_value(s, ld.rn)), ld.size as nat),
    ensures
        ({
            let (r1, s1, m1) = exclusive_step(s, mem, ld);
            let (r2, s2, m2) = exclusive_step(s1, m1, st);
            &&& r1 is Ok
            &&& r2 is Ok
            &&& s2.reg(st.imm as u8, false) == 0
            &&& mem_read(m2, store_address(s, mem, base_value(s, ld.rn)), st.size as nat) == Some(
                (s1.reg(st.rd, st.sf) as nat % pow256(st.size as nat)) as u64,
            )
            &&& s2.exclusive is None
            &&& ({
                let (r3, s3, m3) = exclusive_step(s2, m2, st);
                r3 is Ok ==> m3 == m2 && s3.reg(st.imm as u8, false) == (if (st.imm as u8) < 31 {
                    1u64
                } else {
                    0u64
                })
            })
        }),
{
    crate::cpu::lemma_small_mask();
    let base = base_value(s, ld.rn);
    let pa = store_address(s, mem, base);
    lemma_translate_write_allows_read(s, mem, base);
    let (r1, s1, m1) = exclusive_step(s, mem, ld);
    assert(translate_spec(s, mem, base, false) == Ok::<u64, crate::mmu::Fault>(pa));
    assert(m1 == mem);
    assert(s1.sys == s.sys && s1.pstate == s.pstate);
    assert(s1.exclusive == Some((pa, ld.size)));
    assert(base_value(s1, st.rn) == base);
    assert(translate_spec(s1, m1, base, true) == Ok::<u64, crate::mmu::Fault>(pa));
    lemma_mem_read_after_write(mem, pa, st.size as nat, s1.reg(st.rd, st.sf));
}

/// A load-exclusive pair followed by a store-exclusive pair of the same
/// width at the same base succeeds: the store writes status 0, memory then
/// holds both stored registers (each cut to the half size) at the
/// addresses the two halves translate to, and the reservation is used up,
/// so that the same store-exclusive pair issued again writes status 1 and
/// leaves memory as it is. (Both halves may be written and are backed by
/// RAM, they do not overlap, and the load overwrites neither its base
/// register.)
pub proof fn lemma_exclusive_pairs_succeed(s: CpuState, mem: Seq<u8>, ld: Instr, st: Instr)
    requires
        s.wf(),
        mem.len() == RAM_SIZE,
        ld.op == Opcode::Ldxp,
        st.op == Opcode::Stxp,
        exclusive_wf(ld),
        exclusive_wf(st),
        st.rn == ld.rn,
        st.sf == ld.sf,
        ld.rd != ld.rn,
        ld.rm != ld.rn,
        translate_spec(s, mem, base_value(s, ld.rn), true) is Ok,
        translate_spec(
            s,
            mem,
            base_value(s, ld.rn).wrapping_add(crate::exclusive::pair_half(ld.sf)),
            true,
        ) is Ok,
        ({
            let half = crate::exclusive::pair_half(ld.sf);
            let base = base_value(s, ld.rn);
            let pa1 = store_address(s, mem, base);
            let pa2 = store_address(s, mem, base.wrapping_add(half));
            &&& in_ram(pa1, half as nat)
            &&& in_ram(pa2, half as nat)
            &&& (pa1 + half <= pa2 || pa2 + half <= pa1)
        }),
    ensures
        ({
            let half = crate::exclusive::pair_half(ld.sf);
            let base = base_value(s, ld.rn);
            let (r1, s1, m1) = exclusive_step(s, mem, ld);
            let (r2, s2, m2) = exclusive_step(s1, m1, st);
            let (r3, s3, m3) = exclusive_step(s2, m2, st);
            &&& r1 is Ok
            &&& r2 is Ok
            &&& s2.reg(st.imm as u8, false) == 0
            &&& mem_read(m2, store_address(s, mem, base), half as nat) == Some(
                (s1.reg(st.rd, st.sf) as nat % pow256(half as nat)) as u64,
            )
            &&& mem_read(m2, store_address(s, mem, base.wrapping_add(half)), half as nat) == Some(
                (s1.reg(st.rm, st.sf) as nat % pow256(half as nat)) as u64,
            )
            &&& s2.exclusive is None
            &&& r3 is Ok ==> m3 == m2 && s3.reg(st.imm as u8, false) == (if (st.imm as u8) < 31 {
                1u64
            } else {
                0u64
            })
        }),
{
    crate::cpu::lemma_small_mask();
    let half = crate::exclusive::pair_half(ld.sf);
    let base = base_value(s, ld.rn);
    let va2 = base.wrapping_add(half);
    let pa1 = store_address(s, mem, base);
    let pa2 = store_address(s, mem, va2);
    lemma_translate_write_allows_read(s, mem, base);
    lemma_translate_write_allows_read(s, mem, va2);
    let (r1, s1, m1) = exclusive_step(s, mem, ld);
    assert(m1 == mem);
    assert(s1.sys == s.sys && s1.pstate == s.pstate);
    assert(s1.exclusive == Some((pa1, (2 * half) as u8)));
    assert(base_value(s1, st.rn) == base);
    let m_lo = mem_write(mem, pa1, half as nat, s1.reg(st.rd, st.sf));
    lemma_mem_read_after_write(mem, pa1, half as nat, s1.reg(st.rd, st.sf));
    lemma_mem_read_after_write(m_lo, pa2, half as nat, s1.reg(st.rm, st.sf));
    crate::memory::lemma_mem_write_frame(
        m_lo,
        pa2,
        half as nat,
        s1.reg(st.rm, st.sf),
        pa1,
        half as nat,
    );
}

/// A store-exclusive without the matching reservation fails: it writes
/// status 1 and leaves memory as it was.
pub proof fn lemma_store_exclusive_needs_reservation(s: CpuState, mem: Seq<u8>, st: Instr)
    requires
        s.wf(),
        st.op == Opcode::Stxr,
        s.exclusive is None,
    ensures
        ({
            let (r, s1, m1) = exclusive_step(s, mem, st);
            r is Ok ==> m1 == mem && s1.reg(st.imm as u8, false) == (if (st.imm as u8) < 31 {
                1u64
            } else {
                0u64
            })
        }),
{
    crate::cpu::lemma_small_mask();
}

/// The system registers MRS reads back exactly as MSR wrote them.
pub open spec fn is_storage_sysreg(id: u16) -> bool {
    id == SYSREG_SCTLR_EL1 || id == SYSREG_TTBR0_EL1 || id == SYSREG_TTBR1_EL1 || id
        == SYSREG_TCR_EL1 || id == SYSREG_MAIR_EL1 || id == SYSREG_VBAR_EL1 || id
        == SYSREG_ELR_EL1 || id == SYSREG_SPSR_EL1 || id == SYSREG_ESR_EL1 || id
        == SYSREG_FAR_EL1 || id == SYSREG_SP_EL0 || id == SYSREG_SP_EL1 || id
        == SYSREG_TPIDR_EL0 || id == SYSREG_TPIDR_EL1 || id == SYSREG_CPACR_EL1 || id
        == SYSREG_CNTKCTL_EL1 || id == SYSREG_FPCR || id == SYSREG_FPSR || id
        == SYSREG_CNTP_CVAL_EL0 || id == SYSREG_CNTV_CVAL_EL0
}

/// Reading a storage system register right after writing it gives the
/// value written, and the write changes no other register's reading.
pub proof fn lemma_sysreg_write_then_read(
    sys: SystemRegisters,
    id: u16,
    other: u16,
    v: u64,
    el: u8,
)
    requires
        is_storage_sysreg(id),
        is_storage_sysreg(other),
        other != id,
    ensures
        spec_read_sys_reg(spec_write_sys_reg(sys, id, v), id, el) == v,
        spec_read_sys_reg(spec_write_sys_reg(sys, id, v), other, el) == spec_read_sys_reg(
            sys,
            other,
            el,
        ),
{
}

/// A timer value written to CNTP_TVAL_EL0 or CNTV_TVAL_EL0 reads back, at
/// the same count, as its low 32 bits: the compare value is set that far
/// (signed) from the current count.
pub proof fn lemma_tval_write_then_read(sys: SystemRegisters, id: u16, v: u64, el: u8)
    requires
        id == SYSREG_CNTP_TVAL_EL0 || id == SYSREG_CNTV_TVAL_EL0,
    ensures
        spec_read_sys_reg(spec_write_sys_reg(sys, id, v), id, el) == v & 0xFFFF_FFFF,
{
    let x = crate::sysregs::sext32(v);
    assert(x & 0xFFFF_FFFF == v & 0xFFFF_FFFF) by (bit_vector)
        requires
            x == (if v & 0x8000_0000 != 0 {
                (v & 0xFFFF_FFFF) | 0xFFFF_FFFF_0000_0000
            } else {
                v & 0xFFFF_FFFF
            }),
    ;
    assert(sys.cycle_count.wrapping_add(x).wrapping_sub(sys.cycle_count) == x);
}

proof fn lemma_writeback_keeps_progress(
    s: CpuState,
    rd: u8,
    r: (u64, bool, bool, bool, bool),
    setflags: bool,
    sf: bool,
)
    ensures
        s.same_progress(arith_writeback(s, rd, r, setflags, sf)),
{
}

proof fn lemma_basic_keeps_progress(s: CpuState, i: Instr)
    ensures
        s.same_progress(crate::dp_basic::basic_step(s, i)),
{
    let sf = i.sf;
    let m = crate::cpu::width_mask(sf);
    match i.op {
        Opcode::Add | Opcode::Sub | Opcode::Adds | Opcode::Subs => {
            let r = add_or_sub(s.reg(i.rn, sf), shifted_operand(s, i), i.op == Opcode::Sub || i.op
                == Opcode::Subs, sf);
            lemma_writeback_keeps_progress(s, i.rd, r, i.op == Opcode::Adds || i.op == Opcode::Subs, sf);
        },
        Opcode::AddImm | Opcode::SubImm | Opcode::AddsImm | Opcode::SubsImm => {
            let r = add_or_sub(s.base(i.rn, sf), i.imm & m, i.op == Opcode::SubImm || i.op
                == Opcode::SubsImm, sf);
            lemma_writeback_keeps_progress(s, i.rd, r, i.op == Opcode::AddsImm || i.op
                == Opcode::SubsImm, sf);
        },
        Opcode::AddExt | Opcode::SubExt | Opcode::AddsExt | Opcode::SubsExt => {
            let r = add_or_sub(s.base(i.rn, sf), extended_operand(s, i, i.cond), i.op
                == Opcode::SubExt || i.op == Opcode::SubsExt, sf);
            lemma_writeback_keeps_progress(s, i.rd, r, i.op == Opcode::AddsExt || i.op
                == Opcode::SubsExt, sf);
        },
        _ => {},
    }
}

proof fn lemma_logic_keeps_progress(s: CpuState, i: Instr)
    ensures
        s.same_progress(crate::dp_logic::logic_step(s, i)),
{
}

proof fn lemma_arith_keeps_progress(s: CpuState, i: Instr)
    ensures
        s.same_progress(crate::dp_arith::arith_step(s, i)),
        s.same_progress(crate::bitops::bitops_step(s, i)),
{
}

proof fn lemma_system_ops_keep_progress(s: CpuState, i: Instr)
    ensures
        crate::system::system_step(s, i).pc == s.pc,
        !may_move_clock(i) ==> s.same_progress(crate::system::system_step(s, i)),
        s.same_progress(crate::sve_count::sve_count_step(s, i)),
{
}

proof fn lemma_sve_ops_keep_progress(s: CpuState, i: Instr)
    ensures
        s.same_progress(crate::sve_vec::sve_vec_step(s, i)),
        s.same_progress(crate::sve_pred::sve_pred_step(s, i)),
        s.same_progress(crate::sve_perm::sve_perm_step(s, i)),
{
}

proof fn lemma_simd_data_keeps_progress(s: CpuState, i: Instr)
    ensures
        s.same_progress(crate::simd_data::simd_data_step(s, i)),
{
}

proof fn lemma_atomic_ops_keep_progress(s: CpuState, mem: Seq<u8>, i: Instr)
    ensures
        s.same_progress(exclusive_step(s, mem, i).1),
        s.same_progress(crate::exclusive::atomic_step(s, mem, i).1),
{
    lemma_exclusive_keeps_progress(s, mem, i);
    lemma_atomic_keeps_progress(s, mem, i);
}

proof fn lemma_exclusive_keeps_progress(s: CpuState, mem: Seq<u8>, i: Instr)
    ensures
        s.same_progress(exclusive_step(s, mem, i).1),
{
    assert forall|va: u64, w: bool| s.same_progress(#[trigger] translate_data(s, mem, va, w).1) by {}
}

proof fn lemma_atomic_keeps_progress(s: CpuState, mem: Seq<u8>, i: Instr)
    ensures
        s.same_progress(crate::exclusive::atomic_step(s, mem, i).1),
{
    let (t, s1) = translate_data(s, mem, base_value(s, i.rn), true);
    assert(s.same_progress(s1));
}

/// Every step function `operate` dispatches to keeps the PC, and all but
/// the clock-moving system operations keep the rest of `same_progress`.
proof fn lemma_operate_parts_keep_progress(s: CpuState, mem: Seq<u8>, i: Instr)
    ensures
        crate::system::system_step(s, i).pc == s.pc,
        !may_move_clock(i) ==> s.same_progress(crate::system::system_step(s, i)),
        s.same_progress(crate::dp_basic::basic_step(s, i)),
        s.same_progress(crate::dp_logic::logic_step(s, i)),
        s.same_progress(crate::dp_arith::arith_step(s, i)),
        s.same_progress(crate::bitops::bitops_step(s, i)),
        s.same_progress(crate::sve_count::sve_count_step(s, i)),
        s.same_progress(crate::sve_vec::sve_vec_step(s, i)),
        s.same_progress(crate::sve_pred::sve_pred_step(s, i)),
        s.same_progress(crate::sve_perm::sve_perm_step(s, i)),
        s.same_progress(crate::simd_data::simd_data_step(s, i)),
        s.same_progress(exclusive_step(s, mem, i).1),
        s.same_progress(crate::exclusive::atomic_step(s, mem, i).1),
        s.same_progress(ldr_str_step(s, mem, i).1),
        s.same_progress(crate::load_pair::ldr_lit_step(s, mem, i).1),
        s.same_progress(crate::load_pair::pair_step(s, mem, i).1),
        s.same_progress(crate::sve_mem::sve_mem_step(s, mem, i).1),
        s.same_progress(crate::cache::dc_step(s, mem, i, true).1),
        s.same_progress(crate::cache::dc_step(s, mem, i, false).1),
{
    lemma_basic_keeps_progress(s, i);
    lemma_logic_keeps_progress(s, i);
    lemma_arith_keeps_progress(s, i);
    lemma_system_ops_keep_progress(s, i);
    lemma_sve_ops_keep_progress(s, i);
    lemma_simd_data_keeps_progress(s, i);
    lemma_atomic_ops_keep_progress(s, mem, i);
    crate::load_store::lemma_ldr_str_keeps_progress(s, mem, i);
    crate::load_pair::lemma_ldr_lit_keeps_progress(s, mem, i);
    crate::load_pair::lemma_pair_keeps_progress(s, mem, i);
    crate::sve_mem::lemma_sve_mem_keeps_progress(s, mem, i);
    let base = s.reg(i.rd, true) & !((crate::cache::dc_block_size() - 1) as u64);
    crate::cache::lemma_dc_visit_keeps_progress(s, mem, base, 0, true);
    crate::cache::lemma_dc_visit_keeps_progress(s, mem, base, 0, false);
}

/// What an instruction does before it is retired never moves the PC.
#[verifier::rlimit(40)]
pub proof fn lemma_operate_keeps_pc(s: CpuState, mem: Seq<u8>, i: Instr)
    ensures
        operate(s, mem, i).1.pc == s.pc,
{
    lemma_operate_parts_keep_progress(s, mem, i);
}

/// The operations that may move the cycle count or change the vector base
/// or the exception registers: MSR, WFI, WFE and the wait hint (a NOP-like
/// instruction with `cond` 4).
pub open spec fn may_move_clock(i: Instr) -> bool {
    ||| i.op == Opcode::Msr
    ||| i.op == Opcode::Wfi
    ||| i.op == Opcode::Wfe
    ||| is_nop_like(i.op) && i.cond == 4
}

/// What any other instruction does before it is retired leaves the PC, the
/// cycle count, the vector base, the pending interrupt and ELR_EL1 as they
/// were, whether it completes or fails.
#[verifier::rlimit(40)]
pub proof fn lemma_operate_keeps_progress(s: CpuState, mem: Seq<u8>, i: Instr)
    requires
        !may_move_clock(i),
    ensures
        s.same_progress(operate(s, mem, i).1),
{
    lemma_operate_parts_keep_progress(s, mem, i);
}

/// An instruction that fails is not retired: the PC, the cycle count, the
/// pending interrupt and ELR_EL1 stay as they were, and no timer interrupt
/// is taken.
pub proof fn lemma_failed_instruction_not_retired(s: CpuState, mem: Seq<u8>, i: Instr)
    ensures
        execute_step(s, mem, i).0 is Err ==> s.same_progress(execute_step(s, mem, i).1),
{
    if !may_move_clock(i) {
        lemma_operate_keeps_progress(s, mem, i);
    }
}

/// The conditional branches.
pub open spec fn is_conditional_branch(op: Opcode) -> bool {
    op == Opcode::Cbz || op == Opcode::Cbnz || op == Opcode::BCond || op == Opcode::Tbz || op
        == Opcode::Tbnz
}

/// With no exception vectors installed, an instruction that completes
/// without branching, taking an exception, writing a system register or
/// waiting for the timer moves the PC to the next instruction and counts
/// exactly one cycle; so does a conditional branch that is not taken.
pub proof fn lemma_execute_steps_to_next(s: CpuState, mem: Seq<u8>, i: Instr)
    requires
        s.sys.vbar_el1 == 0,
        is_branch_op(i.op) ==> is_conditional_branch(i.op) && !branch_taken(s, i),
        i.op != Opcode::Svc,
        i.op != Opcode::Eret,
        !may_move_clock(i),
    ensures
        execute_step(s, mem, i).0 is Ok ==> {
            &&& execute_step(s, mem, i).1.pc == s.pc.wrapping_add(INSTRUCTION_SIZE)
            &&& execute_step(s, mem, i).1.sys.cycle_count == s.sys.cycle_count.wrapping_add(1)
        },
{
    if !is_branch_op(i.op) {
        lemma_operate_keeps_progress(s, mem, i);
    }
}

/// Every instruction other than a branch, SVC or ERET that completes moves
/// on to the next instruction, or to the IRQ vector when a timer interrupt
/// is taken on the way; one that fails leaves the PC where it was.
pub proof fn lemma_execute_moves_pc(s: CpuState, mem: Seq<u8>, i: Instr)
    requires
        !is_branch_op(i.op),
        i.op != Opcode::Svc,
        i.op != Opcode::Eret,
    ensures
        ({
            let (r, t, m) = execute_step(s, mem, i);
            &&& r is Err ==> t.pc == s.pc
            &&& r is Ok ==> (t.pc == s.pc.wrapping_add(INSTRUCTION_SIZE) || t.pc
                == t.sys.vbar_el1.wrapping_add(VBAR_IRQ_CURRENT_EL) || t.pc
                == t.sys.vbar_el1.wrapping_add(VBAR_IRQ_LOWER_EL_AARCH64))
        }),
{
    lemma_operate_keeps_pc(s, mem, i);
}


/// Retiring an instruction keeps the general registers and the
/// translation controls as the operation left them.
proof fn lemma_finish_keeps_x(s: CpuState)
    ensures
        finish(s).x == s.x,
        finish(s).simd == s.simd,
        finish(s).sys.sctlr_el1 == s.sys.sctlr_el1,
        finish(s).sys.ttbr0_el1 == s.sys.ttbr0_el1,
        finish(s).sys.ttbr1_el1 == s.sys.ttbr1_el1,
        finish(s).sys.tcr_el1 == s.sys.tcr_el1,
        finish(s).pstate.el == s.pstate.el || finish(s).pstate.el == 1,
{
}

/// A load or store of the register group that completes is retired after
/// `ldr_str_step`.
#[verifier::rlimit(40)]
proof fn lemma_execute_ldr_str(s: CpuState, mem: Seq<u8>, i: Instr)
    requires
        is_ldr_str_op(i.op),
        ldr_str_step(s, mem, i).0 is Ok,
    ensures
        execute_step(s, mem, i) == (
            Ok::<(), ExecError>(()),
            finish(ldr_str_step(s, mem, i).1),
            ldr_str_step(s, mem, i).2,
        ),
{
    assert(!is_branch_op(i.op) && i.op != Opcode::Svc && i.op != Opcode::Eret);
    assert(!crate::dp_basic::is_basic_op(i.op) && !crate::dp_logic::is_logic_op(i.op)
        && !crate::dp_arith::is_arith_op(i.op) && !crate::bitops::is_bitops_op(i.op)
        && !crate::system::is_system_op(i.op) && !crate::simd_data::is_simd_data_op(i.op));
    assert(operate(s, mem, i) == ldr_str_step(s, mem, i));
}

/// Where an access of `size` bytes at `va` lands, taking the write
/// permission into account (the address itself with the MMU off).
pub open spec fn store_address(s: CpuState, mem: Seq<u8>, va: u64) -> u64 {
    translate_spec(s, mem, va, true)->Ok_0
}

/// A store of `size` bytes at `va` that lands in RAM in one piece: with
/// the MMU off, anywhere in RAM; otherwise within one page, through a
/// mapping that allows it and whose page-table entries the store leaves
/// alone.
pub open spec fn store_lands_whole(s: CpuState, mem: Seq<u8>, va: u64, size: nat) -> bool {
    ||| s.sys.sctlr_el1 & SCTLR_MMU_ENABLE == 0 && in_ram(va, size)
    ||| {
        &&& !crosses_page(va, size)
        &&& translate_spec(s, mem, va, true) is Ok
        &&& in_ram(store_address(s, mem, va), size)
        &&& translation_avoids(s, mem, va, store_address(s, mem, va) as int, size as int)
    }
}

/// A store of `size` bytes at `va` that lands in RAM: in one piece, or
/// across a page boundary with every byte landing (`bytes_land`).
pub open spec fn store_lands(s: CpuState, mem: Seq<u8>, va: u64, size: nat) -> bool {
    ||| store_lands_whole(s, mem, va, size)
    ||| crosses_page(va, size) && bytes_land(s, mem, va, size)
}

/// A store of this group that lands in one piece completes, leaves the
/// system registers alone, and writes the register at the address it
/// lands on, whatever its addressing mode.
proof fn lemma_str_lands_whole(s: CpuState, mem: Seq<u8>, st: Instr)
    requires
        mem.len() == RAM_SIZE,
        s.x.len() == 31,
        st.op == Opcode::Str,
        ldr_str_wf(st),
        store_lands_whole(s, mem, ldst_address(s, st).0, ldst_size(st) as nat),
    ensures
        ldr_str_step(s, mem, st).0 is Ok,
        ldr_str_step(s, mem, st).1.sys == s.sys,
        ldr_str_step(s, mem, st).1.x.len() == 31,
        ldr_str_step(s, mem, st).2 == mem_write(
            mem,
            store_address(s, mem, ldst_address(s, st).0),
            ldst_size(st) as nat,
            s.reg(st.rd, st.sf),
        ),
{
    let size = ldst_size(st) as nat;
    let va = ldst_address(s, st).0;
    let v = s.reg(st.rd, st.sf);
    lemma_guest_write_frame(s, mem, va, size, v);
    if s.sys.sctlr_el1 & SCTLR_MMU_ENABLE == 0 && in_ram(va, size) {
        lemma_guest_write_untranslated(s, mem, va, size, v);
    }
}

/// A load of this group whose address reads RAM in one piece completes,
/// leaves RAM alone and puts the value read, cut to the register width,
/// in its destination (which its writeback, if any, does not overwrite).
proof fn lemma_ldr_reads_whole(s: CpuState, mem: Seq<u8>, ld: Instr)
    requires
        mem.len() == RAM_SIZE,
        s.x.len() == 31,
        ld.op == Opcode::Ldr,
        ldr_str_wf(ld),
        ld.rd < 31,
        ldst_address(s, ld).1 is Some ==> ld.rd != ld.rn,
        ({
            let va = ldst_address(s, ld).0;
            let size = ldst_size(ld) as nat;
            ||| s.sys.sctlr_el1 & SCTLR_MMU_ENABLE == 0 && in_ram(va, size)
            ||| !crosses_page(va, size) && translate_spec(s, mem, va, false) is Ok && in_ram(
                translate_spec(s, mem, va, false)->Ok_0,
                size,
            )
        }),
    ensures
        ldr_str_step(s, mem, ld).0 is Ok,
        ldr_str_step(s, mem, ld).2 == mem,
        ldr_str_step(s, mem, ld).1.x[ld.rd as int] == mem_read(
            mem,
            translate_spec(s, mem, ldst_address(s, ld).0, false)->Ok_0,
            ldst_size(ld) as nat,
        )->0 & width_mask(ld.sf),
{
    let size = ldst_size(ld) as nat;
    let va = ldst_address(s, ld).0;
    if s.sys.sctlr_el1 & SCTLR_MMU_ENABLE == 0 && in_ram(va, size) {
        lemma_guest_read_untranslated(s, mem, va, size);
    }
}

/// STR then LDR as in `lemma_store_then_load`, for a store that crosses a
/// page boundary with every byte landing.
#[verifier::rlimit(80)]
proof fn lemma_store_then_load_crossing(s: CpuState, mem: Seq<u8>, st: Instr, ld: Instr)
    requires
        s.wf(),
        mem.len() == RAM_SIZE,
        st.op == Opcode::Str,
        ld.op == Opcode::Ldr,
        instr_wf(st),
        instr_wf(ld),
        ldst_size(st) == ldst_size(ld),
        ld.rd < 31,
        ldst_address(execute_step(s, mem, st).1, ld).0 == ldst_address(s, st).0,
        ldst_address(execute_step(s, mem, st).1, ld).1 is Some ==> ld.rd != ld.rn,
        crosses_page(ldst_address(s, st).0, ldst_size(st) as nat),
        bytes_land(s, mem, ldst_address(s, st).0, ldst_size(st) as nat),
    ensures
        ({
            let (r1, s1, m1) = execute_step(s, mem, st);
            let (r2, s2, m2) = execute_step(s1, m1, ld);
            &&& r1 is Ok
            &&& r2 is Ok
            &&& m2 == m1
            &&& s2.x[ld.rd as int] == (s.reg(st.rd, st.sf) as nat % pow256(
                ldst_size(st) as nat,
            )) as u64 & width_mask(ld.sf)
        }),
{
    let size = ldst_size(st) as nat;
    let va = ldst_address(s, st).0;
    let v = s.reg(st.rd, st.sf);
    assert(byte_va(va, 0) == va);
    assert(translate_spec(s, mem, byte_va(va, 0), true) is Ok) by {
        assert(in_ram(byte_pa(s, mem, va, 0), 1));
    }
    lemma_write_bytes_mapped(s, mem, va, v, size, size);
    lemma_guest_write_frame(s, mem, va, size, v);
    let (w, t1, m1) = guest_write(s, mem, va, size, v);
    lemma_execute_ldr_str(s, mem, st);
    let s1 = execute_step(s, mem, st).1;
    let u1 = ldr_str_step(s, mem, st).1;
    lemma_finish_keeps_x(u1);
    assert(s1.sys.sctlr_el1 == s.sys.sctlr_el1 && s1.sys.ttbr0_el1 == s.sys.ttbr0_el1
        && s1.sys.ttbr1_el1 == s.sys.ttbr1_el1 && s1.sys.tcr_el1 == s.sys.tcr_el1);
    lemma_translate_write_allows_read(s, mem, va);
    assert(translate_spec(s, m1, byte_va(va, 0), false) == translate_spec(
        s,
        mem,
        byte_va(va, 0),
        false,
    ));
    if s.sys.sctlr_el1 & SCTLR_MMU_ENABLE != 0 {
        let (table, level) = walk_root(s, va);
        assert(walk_root(s1, va) == walk_root(s, va));
        lemma_walk_read_any_el(m1, table, va, level, s1.pstate.el, s.pstate.el);
    }
    assert(translate_spec(s1, m1, va, false) is Ok);
    lemma_read_bytes_mapped(s, s1, m1, mem, va, v, size, size);
    let loaded = (v as nat % pow256(size)) as u64;
    let (wb_va, wb) = ldst_address(s1, ld);
    let u2 = s1.set_reg(ld.rd, loaded, ld.sf);
    assert(ldr_str_step(s1, m1, ld) == (
        Ok::<(), ExecError>(()),
        match wb {
            Some(b) => u2.set_reg_sp(ld.rn, b, true),
            None => u2,
        },
        m1,
    ));
    lemma_execute_ldr_str(s1, m1, ld);
    lemma_finish_keeps_x(ldr_str_step(s1, m1, ld).1);
}

/// STR then LDR as in `lemma_store_then_load`, for a store that lands in
/// one piece, stated over the two retired steps.
proof fn lemma_store_then_load_whole(s: CpuState, mem: Seq<u8>, st: Instr, ld: Instr)
    requires
        s.wf(),
        mem.len() == RAM_SIZE,
        st.op == Opcode::Str,
        ld.op == Opcode::Ldr,
        ldr_str_wf(st),
        ldr_str_wf(ld),
        ldst_size(st) == ldst_size(ld),
        ld.rd < 31,
        ldst_address(finish(ldr_str_step(s, mem, st).1), ld).0 == ldst_address(s, st).0,
        ldst_address(finish(ldr_str_step(s, mem, st).1), ld).1 is Some ==> ld.rd != ld.rn,
        store_lands_whole(s, mem, ldst_address(s, st).0, ldst_size(st) as nat),
    ensures
        ({
            let va = ldst_address(s, st).0;
            let size = ldst_size(st) as nat;
            let v = (s.reg(st.rd, st.sf) as nat % pow256(size)) as u64;
            let (r1, t1, m1) = ldr_str_step(s, mem, st);
            let (r2, t2, m2) = ldr_str_step(finish(t1), m1, ld);
            &&& r1 is Ok
            &&& r2 is Ok
            &&& m2 == m1
            &&& finish(t2).x[ld.rd as int] == v & width_mask(ld.sf)
            &&& mem_read(m2, store_address(s, mem, va), size) == Some(v)
        }),
{
    let size = ldst_size(st) as nat;
    let va = ldst_address(s, st).0;
    let pa = store_address(s, mem, va);
    let v = s.reg(st.rd, st.sf);
    lemma_str_lands_whole(s, mem, st);
    let (_, t1, m1) = ldr_str_step(s, mem, st);
    let s1 = finish(t1);
    lemma_finish_keeps_x(t1);
    assert(s1.sys.sctlr_el1 == s.sys.sctlr_el1 && s1.sys.ttbr0_el1 == s.sys.ttbr0_el1
        && s1.sys.ttbr1_el1 == s.sys.ttbr1_el1 && s1.sys.tcr_el1 == s.sys.tcr_el1);
    if s.sys.sctlr_el1 & SCTLR_MMU_ENABLE != 0 {
        let (table, level) = walk_root(s, va);
        assert(walk_root(s1, va) == walk_root(s, va));
        lemma_walk_frame(mem, table, va, level, false, s1.pstate.el, pa, size, v);
        lemma_walk_read_any_el(mem, table, va, level, s1.pstate.el, s.pstate.el);
        lemma_walk_write_allows_read(mem, table, va, level, s.pstate.el);
        assert(translate_spec(s1, m1, va, false) == Ok::<u64, crate::mmu::Fault>(pa));
    } else {
        assert(translate_spec(s1, m1, va, false) == Ok::<u64, crate::mmu::Fault>(pa));
    }
    lemma_ldr_reads_whole(s1, m1, ld);
    lemma_finish_keeps_x(ldr_str_step(s1, m1, ld).1);
    lemma_mem_read_after_write(mem, pa, size, v);
}

/// STR followed by LDR of the same size at the same address loads what was
/// stored, cut to the access size and to the width of the destination, the
/// load leaves memory as the store left it, and where the store lands in
/// one piece memory at the address it lands on reads back the stored value.
/// Any addressing mode of either instruction qualifies, with the base SP or
/// a general register, as long as the address the load computes, in the
/// state the store leaves, is the address the store used, and the load's
/// writeback (if any) does not overwrite its destination; the store must
/// land in RAM (`store_lands`: with the MMU off anywhere in RAM; with it on,
/// through mappings that allow the store and whose page-table entries the
/// store does not overwrite, byte by byte where it crosses a page).
pub proof fn lemma_store_then_load(s: CpuState, mem: Seq<u8>, st: Instr, ld: Instr)
    requires
        s.wf(),
        mem.len() == RAM_SIZE,
        st.op == Opcode::Str,
        ld.op == Opcode::Ldr,
        instr_wf(st),
        instr_wf(ld),
        ldst_size(st) == ldst_size(ld),
        ld.rd < 31,
        ldst_address(execute_step(s, mem, st).1, ld).0 == ldst_address(s, st).0,
        ldst_address(execute_step(s, mem, st).1, ld).1 is Some ==> ld.rd != ld.rn,
        store_lands(s, mem, ldst_address(s, st).0, ldst_size(st) as nat),
    ensures
        ({
            let va = ldst_address(s, st).0;
            let size = ldst_size(st) as nat;
            let (r1, s1, m1) = execute_step(s, mem, st);
            let (r2, s2, m2) = execute_step(s1, m1, ld);
            &&& r1 is Ok
            &&& r2 is Ok
            &&& m2 == m1
            &&& s2.x[ld.rd as int] == (s.reg(st.rd, st.sf) as nat % pow256(size)) as u64
                & width_mask(ld.sf)
            &&& store_lands_whole(s, mem, va, size) ==> mem_read(
                m2,
                store_address(s, mem, va),
                size,
            ) == Some((s.reg(st.rd, st.sf) as nat % pow256(size)) as u64)
        }),
{
    let size = ldst_size(st) as nat;
    let va = ldst_address(s, st).0;
    if store_lands_whole(s, mem, va, size) {
        lemma_str_lands_whole(s, mem, st);
        lemma_execute_ldr_str(s, mem, st);
        let (_, t1, m1) = ldr_str_step(s, mem, st);
        lemma_store_then_load_whole(s, mem, st, ld);
        lemma_execute_ldr_str(finish(t1), m1, ld);
    } else {
        lemma_store_then_load_crossing(s, mem, st, ld);
    }
}

/// LD4 or ST4 at the base register alone, whose first byte may be
/// written, runs as the structure transfer at that address and is then
/// retired.
#[verifier::rlimit(40)]
proof fn lemma_execute_structure(s: CpuState, mem: Seq<u8>, i: Instr)
    requires
        i.op == Opcode::SimdLd4 || i.op == Opcode::SimdSt4,
        i.rm == NO_OFFSET_REGISTER,
        translate_spec(s, mem, base_value(s, i.rn), true) is Ok,
        structure_body(s, mem, i, base_value(s, i.rn)).0 is Ok,
    ensures
        execute_step(s, mem, i) == (
            Ok::<(), ExecError>(()),
            finish(structure_body(s, mem, i, base_value(s, i.rn)).1),
            structure_body(s, mem, i, base_value(s, i.rn)).2,
        ),
{
    let va = base_value(s, i.rn);
    assert(ldst_address(s, i) == (va, None::<u64>));
    lemma_translate_write_allows_read(s, mem, va);
    assert(translate_data(s, mem, va, !crate::load_store::is_load_op(i.op)).1 == s);
    assert(translate_data(s, mem, va, !crate::load_store::is_load_op(i.op)).0 is Ok);
    assert(crate::load_store::ldr_str_body(s, mem, i, va) == structure_body(s, mem, i, va));
    let (r, t, m) = structure_body(s, mem, i, va);
    assert(ldr_str_step(s, mem, i).0 is Ok);
    assert(ldr_str_step(s, mem, i).1 == t);
    assert(ldr_str_step(s, mem, i).2 == m);
    lemma_execute_ldr_str(s, mem, i);
}

/// The structure transfers of `lemma_st4_after_ld4_restores_memory`,
/// with the load retired in between.
proof fn lemma_st4_after_ld4_transfers(s: CpuState, mem: Seq<u8>, ld: Instr, st: Instr)
    requires
        s.wf(),
        mem.len() == RAM_SIZE,
        ld.op == Opcode::SimdLd4,
        st.op == Opcode::SimdSt4,
        instr_wf(ld),
        instr_wf(st),
        ld.rm == NO_OFFSET_REGISTER,
        st.rm == NO_OFFSET_REGISTER,
        st.rn == ld.rn,
        ld.rn < 31,
        st.rd == ld.rd,
        st.cond == ld.cond,
        st.size == ld.size,
        ld.cond <= 3,
        structure_bytes(ld) > 0,
        structure_lands(s, mem, base_value(s, ld.rn), structure_bytes(ld)),
    ensures
        ({
            let va = base_value(s, ld.rn);
            let (r1, t1, m1) = structure_body(s, mem, ld, va);
            let s1 = finish(t1);
            let (r2, t2, m2) = structure_body(s1, m1, st, va);
            &&& translate_spec(s, mem, va, true) is Ok
            &&& r1 is Ok
            &&& m1 == mem
            &&& base_value(s1, st.rn) == va
            &&& translate_spec(s1, mem, va, true) is Ok
            &&& r2 is Ok
            &&& m2 == mem
            &&& t2.simd == s1.simd
        }),
{
    let va = base_value(s, ld.rn);
    assert(structure_pa(s, mem, va, 0) == structure_pa(s, mem, va, 0));
    assert(va.wrapping_add(0u64) == va);
    lemma_structure_load_lanes(s, mem, ld, va);
    let t1 = structure_body(s, mem, ld, va).1;
    let s1 = finish(t1);
    lemma_finish_keeps_x(t1);
    assert(structure_bytes(st) == structure_bytes(ld));
    crate::structure::lemma_structure_lands_other_state(s, s1, mem, va, structure_bytes(ld));
    assert(structure_pa(s1, mem, va, 0) == structure_pa(s, mem, va, 0));
    assert forall|k2: nat| k2 < structure_bytes(st) implies (s1.simd[group_reg(
        st,
        #[trigger] structure_reg(st, k2),
    )] >> (structure_shift(st, k2) as u128)) & 0xFF == ram_byte(s1, mem, va, k2) by {
        assert(structure_reg(ld, k2) == structure_reg(st, k2));
    }
    lemma_structure_store_lanes(s1, mem, st, va);
}

/// LD4 followed by ST4 of the same registers, element size, vector size
/// and base register writes back exactly the bytes the load read: both
/// complete, memory is as it was before the load, and the store changes no
/// vector register. (Every byte of the transfer may be written and lands in
/// RAM, the base is a general register and neither instruction writes it
/// back.)
pub proof fn lemma_st4_after_ld4_restores_memory(s: CpuState, mem: Seq<u8>, ld: Instr, st: Instr)
    requires
        s.wf(),
        mem.len() == RAM_SIZE,
        ld.op == Opcode::SimdLd4,
        st.op == Opcode::SimdSt4,
        instr_wf(ld),
        instr_wf(st),
        ld.rm == NO_OFFSET_REGISTER,
        st.rm == NO_OFFSET_REGISTER,
        st.rn == ld.rn,
        ld.rn < 31,
        st.rd == ld.rd,
        st.cond == ld.cond,
        st.size == ld.size,
        ld.cond <= 3,
        structure_bytes(ld) > 0,
        structure_lands(s, mem, base_value(s, ld.rn), structure_bytes(ld)),
    ensures
        ({
            let (r1, s1, m1) = execute_step(s, mem, ld);
            let (r2, s2, m2) = execute_step(s1, m1, st);
            &&& r1 is Ok
            &&& r2 is Ok
            &&& m2 == mem
            &&& s2.simd == s1.simd
        }),
{
    let va = base_value(s, ld.rn);
    lemma_st4_after_ld4_transfers(s, mem, ld, st);
    lemma_execute_structure(s, mem, ld);
    let (_, t1, m1) = structure_body(s, mem, ld, va);
    let s1 = finish(t1);
    lemma_execute_structure(s1, m1, st);
    lemma_finish_keeps_x(structure_body(s1, m1, st, va).1);
}

/// Every instruction that completes counts one cycle: a branch, SVC or ERET
/// one more than before it, any other instruction one more than its
/// operation left (which moves the count only when it waits for a timer).
pub proof fn lemma_execute_counts_one_cycle(s: CpuState, mem: Seq<u8>, i: Instr)
    ensures
        execute_step(s, mem, i).0 is Ok ==> execute_step(s, mem, i).1.sys.cycle_count == (if is_branch_op(
            i.op,
        ) || i.op == Opcode::Svc || i.op == Opcode::Eret {
            s.sys.cycle_count
        } else {
            operate(s, mem, i).1.sys.cycle_count
        }).wrapping_add(1),
{
}


/// `fill` leaves the bytes from `n * es` on as they were.
proof fn lemma_fill_keeps_tail(
    base: Seq<u8>,
    es: nat,
    n: nat,
    sel: spec_fn(nat) -> bool,
    f: spec_fn(nat) -> u64,
    k: int,
)
    requires
        n * es <= k < base.len(),
    ensures
        fill(base, es, n, sel, f).len() == base.len(),
        fill(base, es, n, sel, f)[k] == base[k],
    decreases n,
{
    if n > 0 {
        assert((n - 1) * es + es == n * es) by (nonlinear_arith);
        assert((n - 1) * es <= n * es) by (nonlinear_arith);
        lemma_fill_keeps_tail(base, es, (n - 1) as nat, sel, f, k);
    } else {
        assert(fill(base, es, 0, sel, f) == base);
    }
}

/// Zero bytes add nothing to a little-endian value.
proof fn lemma_le_value_zeros(b: Seq<u8>, start: int, n: nat)
    requires
        forall|k: int| start <= k < start + n ==> b[k] == 0,
    ensures
        le_value(b, start, n) == 0,
    decreases n,
{
    if n > 0 {
        lemma_le_value_zeros(b, start + 1, (n - 1) as nat);
    }
}

/// A value whose bytes from `m` to `n` are zero is the value of its first
/// `m` bytes.
proof fn lemma_le_value_zero_tail(b: Seq<u8>, start: int, m: nat, n: nat)
    requires
        m <= n,
        forall|k: int| start + m <= k < start + n ==> b[k] == 0,
    ensures
        le_value(b, start, n) == le_value(b, start, m),
    decreases m,
{
    if m == 0 {
        lemma_le_value_zeros(b, start, n);
    } else {
        lemma_le_value_zero_tail(b, start + 1, (m - 1) as nat, (n - 1) as nat);
    }
}

/// The 64-bit forms of the Advanced SIMD data-processing operations clear
/// the upper half of the destination register; the element inserts, which
/// keep the other lanes, are the exception.
pub proof fn lemma_simd_64bit_forms_clear_upper_half(s: CpuState, i: Instr)
    requires
        s.wf(),
        is_simd_data_op(i.op),
        simd_data_wf(i),
        !i.sf,
        i.op != Opcode::SimdUmov,
        i.op != Opcode::SimdIns,
        i.op != Opcode::SimdInsGpr,
    ensures
        simd_data_step(s, i).simd[i.rd as int] < 0x1_0000_0000_0000_0000,
{
    reveal(lanes_result);
    let a = first_source(s, i);
    let b = vbytes(s.simd[i.rm as int]);
    let c = third_source(s, i);
    let d = vbytes(s.simd[i.rd as int]);
    let x = s.reg(i.rn, true);
    let es = lane_size(i);
    let n = lane_count(i);
    let sel = |e: nat| true;
    let f = |e: nat| lane_value(i, a, b, c, d, x, e);
    let r = fill(zero16(), es, n, sel, f);
    assert(n * es <= 8) by (nonlinear_arith)
        requires
            es == 1 || es == 2 || es == 4 || es == 8,
            n == 1 || n == per(8, es),
    ;
    assert forall|k: int| 8 <= k < 16 implies r[k] == 0 by {
        lemma_fill_keeps_tail(zero16(), es, n, sel, f, k);
    }
    lemma_fill_keeps_tail(zero16(), es, n, sel, f, 8);
    lemma_le_value_zero_tail(r, 0, 8, 16);
    lemma_le_value_bound(r, 0, 8);
    lemma_pow256_values();
    assert(lanes_result(i, a, b, c, d, x) == vvalue(r));
}

} // verus!
