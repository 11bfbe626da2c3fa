//! Data cache maintenance by virtual address: DC ZVA and DC GVA.
use vstd::prelude::*;
use crate::constants::DCZID_EL0_VAL;
use crate::cpu::{read_reg, Armv8Cpu, CpuState};
use crate::instr::Instr;
use crate::load_store::Outcome;
use crate::memory::{mem_write, SystemBus};
use crate::mmu::{translate_data, translate_or_data_fault, ExecError};

verus! {

/// DCZID_EL0.DZP: zeroing by DC ZVA is prohibited.
pub const DCZID_DZP: u64 = 0x10;

/// The size in bytes of the block DC ZVA clears: DCZID_EL0.BS gives it as
/// the log2 of a number of 4-byte words.
pub open spec fn dc_block_size() -> u64 {
    4u64 << (DCZID_EL0_VAL & 0xF)
}

pub proof fn lemma_dc_block_size()
    ensures
        dc_block_size() == 16,
        DCZID_EL0_VAL & DCZID_DZP == 0,
{
    assert(4u64 << (2u64 & 0xF) == 16 && 2u64 & 0x10 == 0) by (bit_vector);
}

/// Visit the block from `offset` on in chunks of at most 8 bytes: translate
/// each chunk for writing and, when `zero` is set, clear it. The first
/// translation fault stops the walk, with the chunks before it cleared.
pub open spec fn dc_visit(s: CpuState, mem: Seq<u8>, base: u64, offset: u64, zero: bool) -> Outcome
    decreases dc_block_size() - offset,
{
    if offset >= dc_block_size() {
        (Ok(()), s, mem)
    } else {
        let rest = (dc_block_size() - offset) as u64;
        let size: u64 = if rest < 8 {
            rest
        } else {
            8
        };
        let va = base.wrapping_add(offset);
        let (t, s1) = translate_data(s, mem, va, true);
        match t {
            Err(e) => (Err(e), s1, mem),
            Ok(pa) => dc_visit(
                s1,
                if zero {
                    mem_write(mem, pa, size as nat, 0)
                } else {
                    mem
                },
                base,
                (offset + size) as u64,
                zero,
            ),
        }
    }
}

/// DC ZVA (`zero` set) or DC GVA on the block holding the address in `rd`.
pub open spec fn dc_step(s: CpuState, mem: Seq<u8>, i: Instr, zero: bool) -> Outcome {
    if DCZID_EL0_VAL & DCZID_DZP != 0 {
        (Ok(()), s, mem)
    } else {
        let base = s.reg(i.rd, true) & !((dc_block_size() - 1) as u64);
        dc_visit(s, mem, base, 0, zero)
    }
}

/// Execute DC ZVA (`zero` set: clear the block) or DC GVA (only check that
/// the block may be written).
pub fn exec_dc_block(cpu: &mut Armv8Cpu, bus: &mut SystemBus, instr: Instr, zero: bool) -> (r:
    Result<(), ExecError>)
    requires
        old(cpu).wf(),
        old(bus).wf(),
    ensures
        final(cpu).wf(),
        final(bus).wf(),
        (r, final(cpu)@, final(bus)@) == dc_step(old(cpu)@, old(bus)@, instr, zero),
{
    proof {
        lemma_dc_block_size();
    }
    if DCZID_EL0_VAL & DCZID_DZP != 0 {
        return Ok(());
    }
    let bs = DCZID_EL0_VAL & 0xF;
    assert(bs == 2) by (bit_vector)
        requires
            bs == DCZID_EL0_VAL & 0xF,
    ;
    let block: u64 = 4u64 << bs;
    let base = read_reg(cpu, instr.rd, true) & !(block - 1);
    let ghost goal = dc_step(cpu@, bus@, instr, zero);
    let mut offset: u64 = 0;
    while offset < block
        invariant
            cpu.wf(),
            bus.wf(),
            block == dc_block_size(),
            block == 16,
            offset <= block,
            goal == dc_visit(cpu@, bus@, base, offset, zero),
            goal == dc_step(old(cpu)@, old(bus)@, instr, zero),
        decreases block - offset,
    {
        let rest = block - offset;
        let size: u64 = if rest < 8 {
            rest
        } else {
            8
        };
        let va = base.wrapping_add(offset);
        let pa = match translate_or_data_fault(cpu, &bus.mem, va, true) {
            Ok(pa) => pa,
            Err(e) => {
                return Err(e);
            },
        };
        if zero {
            bus.write(pa, size as u8, 0);
        }
        offset = offset + size;
    }
    Ok(())
}


/// Data cache maintenance leaves the PC, the cycle count
/// and the interrupt registers as they were (`same_progress`).
pub proof fn lemma_dc_visit_keeps_progress(s: CpuState, mem: Seq<u8>, base: u64, offset: u64, zero: bool)
    ensures
        s.same_progress(dc_visit(s, mem, base, offset, zero).1),
    decreases dc_block_size() - offset,
{
    if offset < dc_block_size() {
        let rest = (dc_block_size() - offset) as u64;
        let size: u64 = if rest < 8 {
            rest
        } else {
            8
        };
        let (t, s1) = translate_data(s, mem, base.wrapping_add(offset), true);
        if let Ok(pa) = t {
            lemma_dc_visit_keeps_progress(
                s1,
                if zero {
                    mem_write(mem, pa, size as nat, 0)
                } else {
                    mem
                },
                base,
                (offset + size) as u64,
                zero,
            );
        }
    }
}

} // verus!
