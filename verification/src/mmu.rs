//! Stage-1 address translation with the 4 KiB granule.
use vstd::prelude::*;
use crate::cpu::{Armv8Cpu, CpuState};
use crate::memory::{mem_read, PhysicalMemory};

verus! {

/// Why a translation failed.
#[derive(Clone, Copy, Debug, PartialEq, Eq, Structural)]
pub enum Fault {
    TranslationFault,
    AccessFlagFault,
    PermissionFault,
}

/// Why an instruction could not complete.
#[derive(Clone, Copy, Debug, PartialEq, Eq, Structural)]
pub enum ExecError {
    /// No valid mapping for the address.
    TranslationFault,
    /// The mapping's access flag is clear.
    AccessFlagFault,
    /// The mapping forbids the access.
    PermissionFault,
    /// The physical address is not backed by RAM.
    BusFault,
    /// An access or element size the instruction does not support.
    UnsupportedSize,
    /// An atomic memory operation the engine does not support.
    UnsupportedAtomic,
}

/// The instruction error a translation fault is reported as.
pub open spec fn fault_error(f: Fault) -> ExecError {
    match f {
        Fault::TranslationFault => ExecError::TranslationFault,
        Fault::AccessFlagFault => ExecError::AccessFlagFault,
        Fault::PermissionFault => ExecError::PermissionFault,
    }
}

/// SCTLR_EL1.M: stage-1 translation enabled.
pub const SCTLR_MMU_ENABLE: u64 = 1;

/// Output-address bits of a descriptor.
pub const DESC_ADDR_MASK: u64 = 0x0000_FFFF_FFFF_F000;

pub const DESC_VALID: u64 = 1;

/// Bit 1 of a level 0..2 descriptor: it points to a next-level table.
pub const DESC_TABLE_BIT: u64 = 2;

/// The type bits of a table descriptor: valid, pointing to a table.
pub const DESC_TABLE: u64 = 3;

/// AP[1]: accessible from EL0.
pub const DESC_AP_EL0: u64 = 0x40;

/// AP[2]: read-only.
pub const DESC_AP_RO: u64 = 0x80;

/// Access flag.
pub const DESC_AF_BIT: u64 = 0x400;

/// Bits of the address below the index of table level `level`.
pub open spec fn level_shift(level: nat) -> u64 {
    if level == 0 {
        39
    } else if level == 1 {
        30
    } else if level == 2 {
        21
    } else {
        12
    }
}

/// The index of `va` in a table of level `level`.
pub open spec fn level_index(va: u64, level: nat) -> u64 {
    (va >> level_shift(level)) & 0x1FF
}

/// The output address of a block or page descriptor for `va`, once the
/// access flag and permissions have been checked.
pub open spec fn leaf_result(desc: u64, va: u64, level: nat, write: bool, el: u8) -> Result<
    u64,
    Fault,
> {
    let offset_mask = ((1u64 << level_shift(level)) - 1) as u64;
    if desc & DESC_AF_BIT == 0 {
        Err(Fault::AccessFlagFault)
    } else if write && (desc & DESC_AP_RO != 0 || (el == 0 && desc & DESC_AP_EL0 == 0)) {
        Err(Fault::PermissionFault)
    } else {
        Ok((desc & DESC_ADDR_MASK & !offset_mask) | (va & offset_mask))
    }
}

/// The walk from a table of level `level` at physical address `table`. A
/// valid descriptor of levels 0..2 with the table bit set leads to the next
/// table; without it, it is a block at levels 1 and 2. Every valid level 3
/// descriptor maps a page.
pub open spec fn walk(mem: Seq<u8>, table: u64, va: u64, level: nat, write: bool, el: u8) -> Result<
    u64,
    Fault,
>
    decreases 4 - level,
{
    if level > 3 {
        Err(Fault::TranslationFault)
    } else {
        let daddr = table.wrapping_add((level_index(va, level) * 8) as u64);
        match mem_read(mem, daddr, 8) {
            None => Err(Fault::TranslationFault),
            Some(desc) => if desc & DESC_VALID == 0 {
                Err(Fault::TranslationFault)
            } else if level < 3 && desc & DESC_TABLE_BIT != 0 {
                walk(mem, desc & DESC_ADDR_MASK, va, level + 1, write, el)
            } else if level == 0 {
                Err(Fault::TranslationFault)
            } else {
                leaf_result(desc, va, level, write, el)
            },
        }
    }
}

/// The first table level for a region of `64 - txsz` address bits.
pub open spec fn start_level(txsz: u64) -> nat {
    if txsz < 25 {
        0
    } else if txsz < 34 {
        1
    } else {
        2
    }
}

/// The physical address a data access to `va` uses, or why there is none.
/// With the MMU off addresses are physical; otherwise the upper half of the
/// address space walks TTBR1 and the lower half TTBR0.
pub open spec fn translate_spec(s: CpuState, mem: Seq<u8>, va: u64, write: bool) -> Result<
    u64,
    Fault,
> {
    if s.sys.sctlr_el1 & SCTLR_MMU_ENABLE == 0 {
        Ok(va)
    } else {
        let upper = (va >> 63u64) == 1;
        let ttbr = if upper {
            s.sys.ttbr1_el1
        } else {
            s.sys.ttbr0_el1
        };
        let txsz = if upper {
            (s.sys.tcr_el1 >> 16u64) & 0x3F
        } else {
            s.sys.tcr_el1 & 0x3F
        };
        walk(mem, ttbr & DESC_ADDR_MASK, va, start_level(txsz), write, s.pstate.el)
    }
}

fn level_shift_exec(level: u8) -> (r: u64)
    ensures
        r == level_shift(level as nat),
        r <= 39,
{
    if level == 0 {
        39
    } else if level == 1 {
        30
    } else if level == 2 {
        21
    } else {
        12
    }
}

fn leaf_result_exec(desc: u64, va: u64, level: u8, write: bool, el: u8) -> (r: Result<u64, Fault>)
    requires
        level <= 3,
    ensures
        r == leaf_result(desc, va, level as nat, write, el),
{
    let shift = level_shift_exec(level);
    assert(1u64 << shift >= 1) by (bit_vector)
        requires
            shift <= 39,
    ;
    let offset_mask = (1u64 << shift) - 1;
    if desc & DESC_AF_BIT == 0 {
        Err(Fault::AccessFlagFault)
    } else if write && (desc & DESC_AP_RO != 0 || (el == 0 && desc & DESC_AP_EL0 == 0)) {
        Err(Fault::PermissionFault)
    } else {
        Ok((desc & DESC_ADDR_MASK & !offset_mask) | (va & offset_mask))
    }
}

/// Translate `va` for a read (`write` false) or a write.
pub fn translate(cpu: &Armv8Cpu, mem: &PhysicalMemory, va: u64, write: bool) -> (r: Result<
    u64,
    Fault,
>)
    requires
        cpu.wf(),
        mem.wf(),
    ensures
        r == translate_spec(cpu@, mem@, va, write),
{
    if cpu.sys.sctlr_el1 & SCTLR_MMU_ENABLE == 0 {
        return Ok(va);
    }
    let upper = (va >> 63u64) == 1;
    let ttbr = if upper {
        cpu.sys.ttbr1_el1
    } else {
        cpu.sys.ttbr0_el1
    };
    let txsz = if upper {
        (cpu.sys.tcr_el1 >> 16u64) & 0x3F
    } else {
        cpu.sys.tcr_el1 & 0x3F
    };
    let mut level: u8 = if txsz < 25 {
        0
    } else if txsz < 34 {
        1
    } else {
        2
    };
    let el = cpu.pstate.el;
    let mut table = ttbr & DESC_ADDR_MASK;
    let ghost goal = translate_spec(cpu@, mem@, va, write);
    while level <= 3
        invariant
            mem.wf(),
            goal == translate_spec(cpu@, mem@, va, write),
            goal == walk(mem@, table, va, level as nat, write, el),
        decreases 4 - level,
    {
        let shift = level_shift_exec(level);
        let index = (va >> shift) & 0x1FF;
        assert(index <= 0x1FF) by (bit_vector)
            requires
                index == (va >> shift) & 0x1FF,
        ;
        let daddr = table.wrapping_add(index * 8);
        match mem.read(daddr, 8) {
            None => {
                return Err(Fault::TranslationFault);
            },
            Some(desc) => {
                if desc & DESC_VALID == 0 {
                    return Err(Fault::TranslationFault);
                } else if level < 3 && desc & DESC_TABLE_BIT != 0 {
                    table = desc & DESC_ADDR_MASK;
                    level = level + 1;
                } else if level == 0 {
                    return Err(Fault::TranslationFault);
                } else {
                    return leaf_result_exec(desc, va, level, write, el);
                }
            },
        }
    }
    Err(Fault::TranslationFault)
}

/// Translate a data access; on a fault record the address in FAR_EL1.
pub open spec fn translate_data(s: CpuState, mem: Seq<u8>, va: u64, write: bool) -> (
    Result<u64, ExecError>,
    CpuState,
) {
    match translate_spec(s, mem, va, write) {
        Ok(pa) => (Ok(pa), s),
        Err(f) => (Err(fault_error(f)), s.set_far(va)),
    }
}

pub fn translate_or_data_fault(cpu: &mut Armv8Cpu, mem: &PhysicalMemory, va: u64, write: bool) -> (r: Result<
    u64,
    ExecError,
>)
    requires
        old(cpu).wf(),
        mem.wf(),
    ensures
        final(cpu).wf(),
        (r, final(cpu)@) == translate_data(old(cpu)@, mem@, va, write),
{
    match translate(cpu, mem, va, write) {
        Ok(pa) => Ok(pa),
        Err(fault) => {
            cpu.sys.far_el1 = va;
            Err(
                match fault {
                    Fault::TranslationFault => ExecError::TranslationFault,
                    Fault::AccessFlagFault => ExecError::AccessFlagFault,
                    Fault::PermissionFault => ExecError::PermissionFault,
                },
            )
        },
    }
}


/// Whether every descriptor the walk for `va` reads, from the table at
/// `table` of level `level` on, lies outside the `n` bytes at `lo`.
pub open spec fn walk_avoids(mem: Seq<u8>, table: u64, va: u64, level: nat, lo: int, n: int) -> bool
    decreases 4 - level,
{
    if level > 3 {
        true
    } else {
        let daddr = table.wrapping_add((level_index(va, level) * 8) as u64);
        &&& (daddr + 8 <= lo || lo + n <= daddr)
        &&& match mem_read(mem, daddr, 8) {
            Some(desc) => (desc & DESC_VALID != 0 && level < 3 && desc & DESC_TABLE_BIT != 0)
                ==> walk_avoids(mem, desc & DESC_ADDR_MASK, va, level + 1, lo, n),
            None => true,
        }
    }
}

/// Whether translating `va` reads no page-table byte among the `n` bytes at
/// `lo` (always so with the MMU off).
pub open spec fn translation_avoids(s: CpuState, mem: Seq<u8>, va: u64, lo: int, n: int) -> bool {
    if s.sys.sctlr_el1 & SCTLR_MMU_ENABLE == 0 {
        true
    } else {
        let upper = (va >> 63u64) == 1;
        let ttbr = if upper {
            s.sys.ttbr1_el1
        } else {
            s.sys.ttbr0_el1
        };
        let txsz = if upper {
            (s.sys.tcr_el1 >> 16u64) & 0x3F
        } else {
            s.sys.tcr_el1 & 0x3F
        };
        walk_avoids(mem, ttbr & DESC_ADDR_MASK, va, start_level(txsz), lo, n)
    }
}

/// A write that misses every descriptor the walk reads leaves the walk's
/// result alone.
pub proof fn lemma_walk_frame(
    mem: Seq<u8>,
    table: u64,
    va: u64,
    level: nat,
    write: bool,
    el: u8,
    pa: u64,
    size: nat,
    value: u64,
)
    requires
        mem.len() == crate::constants::RAM_SIZE,
        walk_avoids(mem, table, va, level, pa as int, size as int),
    ensures
        walk(crate::memory::mem_write(mem, pa, size, value), table, va, level, write, el) == walk(
            mem,
            table,
            va,
            level,
            write,
            el,
        ),
    decreases 4 - level,
{
    if level <= 3 {
        let daddr = table.wrapping_add((level_index(va, level) * 8) as u64);
        crate::memory::lemma_mem_write_frame(mem, pa, size, value, daddr, 8);
        match mem_read(mem, daddr, 8) {
            Some(desc) => {
                if desc & DESC_VALID != 0 && level < 3 && desc & DESC_TABLE_BIT != 0 {
                    lemma_walk_frame(
                        mem,
                        desc & DESC_ADDR_MASK,
                        va,
                        level + 1,
                        write,
                        el,
                        pa,
                        size,
                        value,
                    );
                }
            },
            None => {},
        }
    }
}

/// A walk that allows a write allows a read, to the same address.
pub proof fn lemma_walk_write_allows_read(
    mem: Seq<u8>,
    table: u64,
    va: u64,
    level: nat,
    el: u8,
)
    requires
        walk(mem, table, va, level, true, el) is Ok,
    ensures
        walk(mem, table, va, level, false, el) == walk(mem, table, va, level, true, el),
    decreases 4 - level,
{
    if level <= 3 {
        let daddr = table.wrapping_add((level_index(va, level) * 8) as u64);
        match mem_read(mem, daddr, 8) {
            Some(desc) => {
                if desc & DESC_VALID != 0 && level < 3 && desc & DESC_TABLE_BIT != 0 {
                    lemma_walk_write_allows_read(mem, desc & DESC_ADDR_MASK, va, level + 1, el);
                }
            },
            None => {},
        }
    }
}


/// What a read walk gives does not depend on the exception level.
pub proof fn lemma_walk_read_any_el(mem: Seq<u8>, table: u64, va: u64, level: nat, el1: u8, el2: u8)
    ensures
        walk(mem, table, va, level, false, el1) == walk(mem, table, va, level, false, el2),
    decreases 4 - level,
{
    if level <= 3 {
        let daddr = table.wrapping_add((level_index(va, level) * 8) as u64);
        match mem_read(mem, daddr, 8) {
            Some(desc) => {
                if desc & DESC_VALID != 0 && level < 3 && desc & DESC_TABLE_BIT != 0 {
                    lemma_walk_read_any_el(mem, desc & DESC_ADDR_MASK, va, level + 1, el1, el2);
                }
            },
            None => {},
        }
    }
}


/// A write that misses every descriptor the walk reads leaves alone which
/// bytes the walk reads.
pub proof fn lemma_walk_avoids_frame(
    mem: Seq<u8>,
    table: u64,
    va: u64,
    level: nat,
    lo: int,
    n: int,
    pa: u64,
    size: nat,
    value: u64,
)
    requires
        mem.len() == crate::constants::RAM_SIZE,
        walk_avoids(mem, table, va, level, pa as int, size as int),
    ensures
        walk_avoids(crate::memory::mem_write(mem, pa, size, value), table, va, level, lo, n)
            == walk_avoids(mem, table, va, level, lo, n),
    decreases 4 - level,
{
    if level <= 3 {
        let daddr = table.wrapping_add((level_index(va, level) * 8) as u64);
        crate::memory::lemma_mem_write_frame(mem, pa, size, value, daddr, 8);
        match mem_read(mem, daddr, 8) {
            Some(desc) => {
                if desc & DESC_VALID != 0 && level < 3 && desc & DESC_TABLE_BIT != 0 {
                    lemma_walk_avoids_frame(
                        mem,
                        desc & DESC_ADDR_MASK,
                        va,
                        level + 1,
                        lo,
                        n,
                        pa,
                        size,
                        value,
                    );
                }
            },
            None => {},
        }
    }
}

/// A walk keeps the offset of the address within its 4 KiB page.
pub proof fn lemma_walk_keeps_page_offset(
    mem: Seq<u8>,
    table: u64,
    va: u64,
    level: nat,
    write: bool,
    el: u8,
)
    requires
        walk(mem, table, va, level, write, el) is Ok,
    ensures
        walk(mem, table, va, level, write, el)->Ok_0 % 4096 == va % 4096,
    decreases 4 - level,
{
    if level <= 3 {
        let daddr = table.wrapping_add((level_index(va, level) * 8) as u64);
        match mem_read(mem, daddr, 8) {
            Some(desc) => {
                if desc & DESC_VALID != 0 && level < 3 && desc & DESC_TABLE_BIT != 0 {
                    lemma_walk_keeps_page_offset(mem, desc & DESC_ADDR_MASK, va, level + 1, write, el);
                } else if level > 0 {
                    let sh = level_shift(level);
                    assert(sh == 12 || sh == 21 || sh == 30);
                    assert((sh == 12 || sh == 21 || sh == 30) ==> ((desc & DESC_ADDR_MASK & !(((1u64
                        << sh) - 1) as u64)) | (va & (((1u64 << sh) - 1) as u64))) % 4096 == va
                        % 4096) by (bit_vector);
                }
            },
            None => {},
        }
    }
}

/// Translation keeps the offset of the address within its 4 KiB page.
pub proof fn lemma_translate_keeps_page_offset(s: CpuState, mem: Seq<u8>, va: u64, write: bool)
    requires
        translate_spec(s, mem, va, write) is Ok,
    ensures
        translate_spec(s, mem, va, write)->Ok_0 % 4096 == va % 4096,
{
    if s.sys.sctlr_el1 & SCTLR_MMU_ENABLE != 0 {
        let upper = (va >> 63u64) == 1;
        let ttbr = if upper {
            s.sys.ttbr1_el1
        } else {
            s.sys.ttbr0_el1
        };
        let txsz = if upper {
            (s.sys.tcr_el1 >> 16u64) & 0x3F
        } else {
            s.sys.tcr_el1 & 0x3F
        };
        lemma_walk_keeps_page_offset(
            mem,
            ttbr & DESC_ADDR_MASK,
            va,
            start_level(txsz),
            write,
            s.pstate.el,
        );
    }
}


/// The table and level the walk for `va` starts from.
pub open spec fn walk_root(s: CpuState, va: u64) -> (u64, nat) {
    let upper = (va >> 63u64) == 1;
    let ttbr = if upper {
        s.sys.ttbr1_el1
    } else {
        s.sys.ttbr0_el1
    };
    let txsz = if upper {
        (s.sys.tcr_el1 >> 16u64) & 0x3F
    } else {
        s.sys.tcr_el1 & 0x3F
    };
    (ttbr & DESC_ADDR_MASK, start_level(txsz))
}

/// A write walk that succeeds at `el1` gives the same result at `el2`
/// when `el2` is at least as privileged (only EL0 has extra checks).
pub proof fn lemma_walk_write_other_el(mem: Seq<u8>, table: u64, va: u64, level: nat, el1: u8, el2: u8)
    requires
        walk(mem, table, va, level, true, el1) is Ok,
        el1 == 0 || el2 != 0,
    ensures
        walk(mem, table, va, level, true, el2) == walk(mem, table, va, level, true, el1),
    decreases 4 - level,
{
    if level <= 3 {
        let daddr = table.wrapping_add((level_index(va, level) * 8) as u64);
        match mem_read(mem, daddr, 8) {
            Some(desc) => {
                if desc & DESC_VALID != 0 && level < 3 && desc & DESC_TABLE_BIT != 0 {
                    lemma_walk_write_other_el(mem, desc & DESC_ADDR_MASK, va, level + 1, el1, el2);
                }
            },
            None => {},
        }
    }
}

/// A write translation that succeeds keeps its result in any state with
/// the same translation registers at an exception level at least as
/// privileged.
pub proof fn lemma_translate_write_other_state(s: CpuState, t: CpuState, mem: Seq<u8>, va: u64)
    requires
        translate_spec(s, mem, va, true) is Ok,
        t.sys.sctlr_el1 == s.sys.sctlr_el1,
        t.sys.ttbr0_el1 == s.sys.ttbr0_el1,
        t.sys.ttbr1_el1 == s.sys.ttbr1_el1,
        t.sys.tcr_el1 == s.sys.tcr_el1,
        s.pstate.el == 0 || t.pstate.el != 0,
    ensures
        translate_spec(t, mem, va, true) == translate_spec(s, mem, va, true),
{
    if s.sys.sctlr_el1 & SCTLR_MMU_ENABLE != 0 {
        let (table, level) = walk_root(s, va);
        assert(walk_root(t, va) == walk_root(s, va));
        lemma_walk_write_other_el(mem, table, va, level, s.pstate.el, t.pstate.el);
    }
}

/// A translation that allows a write allows a read, to the same address.
pub proof fn lemma_translate_write_allows_read(s: CpuState, mem: Seq<u8>, va: u64)
    requires
        translate_spec(s, mem, va, true) is Ok,
    ensures
        translate_spec(s, mem, va, false) == translate_spec(s, mem, va, true),
{
    if s.sys.sctlr_el1 & SCTLR_MMU_ENABLE != 0 {
        let (table, level) = walk_root(s, va);
        lemma_walk_write_allows_read(mem, table, va, level, s.pstate.el);
    }
}

} // verus!
