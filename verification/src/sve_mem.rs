//! SVE predicated loads and stores: ST1B, LD1H / LDNT1SH, ST1H and its
//! scatter form, LD1W and ST1W. Every active element is a separate guest
//! access; the first fault stops the instruction. A load changes its
//! destination only when every access succeeded.
use vstd::prelude::*;
use crate::alu::{sign_extend, sign_extend_bits};
use crate::cpu::{read_base, read_reg, Armv8Cpu, CpuState, SVE_MAX_VL_BYTES};
use crate::guest::{
    guest_read, guest_write, lemma_guest_read_frame, lemma_guest_write_frame, read_guest,
    same_regs, write_guest,
};
use crate::instr::{Instr, Opcode};
use crate::le_bytes::{le_value, read_le};
use crate::load_store::Outcome;
use crate::memory::SystemBus;
use crate::mmu::ExecError;
use crate::sve::{
    elem, lemma_count_fits, lemma_elem_in_vector, pred_at, pred_elem, set_elem, valid_esize,
    with_elem, write_z, z_elem, zero_vector, zero_vector_exec,
};

verus! {

pub open spec fn is_sve_mem_op(op: Opcode) -> bool {
    match op {
        Opcode::SveSt1b | Opcode::SveLd1h | Opcode::SveLdnt1sh | Opcode::SveSt1h
        | Opcode::SveSt1hScatter | Opcode::SveLd1w | Opcode::SveSt1w => true,
        _ => false,
    }
}

pub open spec fn is_sve_load(op: Opcode) -> bool {
    op == Opcode::SveLd1h || op == Opcode::SveLdnt1sh || op == Opcode::SveLd1w
}

/// `rm` of the forms without an offset register.
pub const NO_OFFSET_REG: u8 = 0xFF;

/// ST1H scatter `imm` bits: the offsets are 32-bit (sign-extended when `sf`
/// is set), and bit 0 scales them by the element size.
pub const SCATTER_OFFSET_32: u64 = 2;

/// Bytes each element moves to or from memory.
pub open spec fn mem_bytes(op: Opcode) -> nat {
    match op {
        Opcode::SveSt1b => 1,
        Opcode::SveLd1h | Opcode::SveLdnt1sh | Opcode::SveSt1h | Opcode::SveSt1hScatter => 2,
        _ => 4,
    }
}

/// The start of a contiguous transfer: the base register plus `imm` times
/// the bytes one vector occupies in memory.
pub open spec fn contiguous_base(s: CpuState, i: Instr) -> u64 {
    let n = s.vl as nat / i.size as nat;
    s.base(i.rn, true).wrapping_add(i.imm.wrapping_mul((n * mem_bytes(i.op)) as u64))
}

/// The scatter offset of element `e` of ST1H.
pub open spec fn scatter_offset(s: CpuState, i: Instr, e: nat) -> u64 {
    let raw = elem(s.z[i.rm as int], e, i.size as nat);
    let off = if i.imm & SCATTER_OFFSET_32 != 0 {
        if i.sf {
            sign_extend(raw & 0xFFFF_FFFF, 32)
        } else {
            raw & 0xFFFF_FFFF
        }
    } else {
        raw
    };
    off << (i.imm % 2)
}

/// The vector offset of element `e` of LD1W, in bytes.
pub open spec fn word_offset(s: CpuState, i: Instr, e: nat) -> u64 {
    let raw = elem(s.z[i.rm as int], e, i.size as nat);
    if i.sf && i.size == 4 {
        sign_extend(raw & 0xFFFF_FFFF, 32) << 2u64
    } else {
        raw << 2u64
    }
}

/// The address element `e` is transferred at.
pub open spec fn sve_addr(s: CpuState, i: Instr, e: nat) -> u64 {
    let step = (e * mem_bytes(i.op)) as u64;
    let base = s.base(i.rn, true);
    match i.op {
        Opcode::SveLdnt1sh => elem(s.z[i.rn as int], e, i.size as nat).wrapping_add(s.reg(i.rm, true)),
        Opcode::SveSt1hScatter => base.wrapping_add(scatter_offset(s, i, e)),
        Opcode::SveSt1h => if i.rm == NO_OFFSET_REG {
            contiguous_base(s, i).wrapping_add(step)
        } else {
            base.wrapping_add(s.reg(i.rm, true) << 1u64).wrapping_add(step)
        },
        Opcode::SveLd1h => if i.rm == NO_OFFSET_REG {
            contiguous_base(s, i).wrapping_add(step)
        } else {
            let off = elem(s.z[i.rm as int], e, i.size as nat);
            base.wrapping_add(
                if i.sf {
                    off << 1u64
                } else {
                    off
                },
            )
        },
        Opcode::SveLd1w => if i.rm == NO_OFFSET_REG {
            contiguous_base(s, i).wrapping_add(step)
        } else {
            base.wrapping_add(word_offset(s, i, e))
        },
        _ => contiguous_base(s, i).wrapping_add(step),
    }
}

/// The element a loaded value becomes: LDNT1SH sign-extends its halfword
/// to a word or doubleword element.
pub open spec fn load_value(i: Instr, raw: u64) -> u64 {
    if i.op == Opcode::SveLdnt1sh && i.size == 4 {
        sign_extend(raw, 16) & 0xFFFF_FFFF
    } else if i.op == Opcode::SveLdnt1sh && i.size == 8 {
        sign_extend(raw, 16)
    } else {
        raw
    }
}

/// The bytes a store writes for element `e`: the low bytes of the element.
pub open spec fn store_value(s: CpuState, i: Instr, e: nat) -> u64 {
    le_value(s.z[i.rd as int], (e * i.size as nat) as int, mem_bytes(i.op)) as u64
}

/// Load the active elements from `e` on into `acc`.
pub open spec fn sve_load_loop(
    s0: CpuState,
    s: CpuState,
    mem: Seq<u8>,
    i: Instr,
    e: nat,
    acc: Seq<u8>,
) -> (Result<(), ExecError>, CpuState, Seq<u8>)
    decreases s0.vl as nat / i.size as nat - e,
{
    let es = i.size as nat;
    if e >= s0.vl as nat / es {
        (Ok(()), s, acc)
    } else if !pred_elem(s0.p[i.cond as int], e, es) {
        sve_load_loop(s0, s, mem, i, e + 1, acc)
    } else {
        let (r, s1) = guest_read(s, mem, sve_addr(s0, i, e), mem_bytes(i.op));
        match r {
            Err(x) => (Err(x), s1, acc),
            Ok(v) => sve_load_loop(s0, s1, mem, i, e + 1, with_elem(acc, e, es, load_value(i, v))),
        }
    }
}

/// Store the active elements from `e` on.
pub open spec fn sve_store_loop(s0: CpuState, s: CpuState, mem: Seq<u8>, i: Instr, e: nat) -> Outcome
    decreases s0.vl as nat / i.size as nat - e,
{
    let es = i.size as nat;
    if e >= s0.vl as nat / es {
        (Ok(()), s, mem)
    } else if !pred_elem(s0.p[i.cond as int], e, es) {
        sve_store_loop(s0, s, mem, i, e + 1)
    } else {
        let (r, s1, m1) = guest_write(
            s,
            mem,
            sve_addr(s0, i, e),
            mem_bytes(i.op),
            store_value(s0, i, e),
        );
        match r {
            Err(x) => (Err(x), s1, m1),
            Ok(_) => sve_store_loop(s0, s1, m1, i, e + 1),
        }
    }
}

pub open spec fn sve_mem_step(s: CpuState, mem: Seq<u8>, i: Instr) -> Outcome {
    if is_sve_load(i.op) {
        let (r, s1, acc) = sve_load_loop(s, s, mem, i, 0, zero_vector());
        match r {
            Err(x) => (Err(x), s1, mem),
            Ok(_) => (Ok(()), s1.set_z(i.rd as int, acc), mem),
        }
    } else {
        sve_store_loop(s, s, mem, i, 0)
    }
}

pub open spec fn sve_mem_wf(i: Instr) -> bool {
    &&& valid_esize(i.size as nat)
    &&& i.rd < 32
    &&& i.rn < 32
    &&& i.cond < 16
    &&& (i.op == Opcode::SveSt1hScatter || ((i.op == Opcode::SveLd1h || i.op == Opcode::SveLd1w)
        && i.rm != NO_OFFSET_REG)) ==> i.rm < 32
}

/// Every active element of a store has its `mem_bytes` source bytes within
/// the vector: a store of elements narrower than what it writes reads past
/// the element, and would read past the end of the vector for a late one.
pub open spec fn sve_store_fits(s: CpuState, i: Instr) -> bool {
    !is_sve_load(i.op) ==> forall|e: nat|
        e < s.vl as nat / i.size as nat && #[trigger] pred_elem(s.p[i.cond as int], e, i.size as nat)
            ==> e * i.size as nat + mem_bytes(i.op) <= SVE_MAX_VL_BYTES
}

fn mem_bytes_of(op: Opcode) -> (r: u8)
    ensures
        r as nat == mem_bytes(op),
{
    match op {
        Opcode::SveSt1b => 1,
        Opcode::SveLd1h | Opcode::SveLdnt1sh | Opcode::SveSt1h | Opcode::SveSt1hScatter => 2,
        _ => 4,
    }
}

fn sve_addr_exec(cpu: &Armv8Cpu, instr: Instr, e: usize) -> (r: u64)
    requires
        cpu.wf(),
        is_sve_mem_op(instr.op),
        sve_mem_wf(instr),
        e * (instr.size as usize) + (instr.size as usize) <= SVE_MAX_VL_BYTES,
    ensures
        r == sve_addr(cpu@, instr, e as nat),
{
    let es = instr.size as usize;
    let n = cpu.sve_vl_bytes / es;
    let mb = mem_bytes_of(instr.op) as usize;
    assert(e * mb <= 1024 && n * mb <= 1024) by (nonlinear_arith)
        requires
            e * es + es <= 256,
            es >= 1,
            n <= 256,
            mb <= 4,
    ;
    let step = (e * mb) as u64;
    let base = read_base(cpu, instr.rn, true);
    let contiguous = base.wrapping_add(instr.imm.wrapping_mul((n * mb) as u64));
    match instr.op {
        Opcode::SveLdnt1sh => z_elem(cpu, instr.rn as usize, e, es).wrapping_add(
            read_reg(cpu, instr.rm, true),
        ),
        Opcode::SveSt1hScatter => {
            let raw = z_elem(cpu, instr.rm as usize, e, es);
            let off = if instr.imm & SCATTER_OFFSET_32 != 0 {
                if instr.sf {
                    sign_extend_bits(raw & 0xFFFF_FFFF, 32)
                } else {
                    raw & 0xFFFF_FFFF
                }
            } else {
                raw
            };
            base.wrapping_add(off << (instr.imm % 2))
        },
        Opcode::SveSt1h => if instr.rm == NO_OFFSET_REG {
            contiguous.wrapping_add(step)
        } else {
            base.wrapping_add(read_reg(cpu, instr.rm, true) << 1u64).wrapping_add(step)
        },
        Opcode::SveLd1h => if instr.rm == NO_OFFSET_REG {
            contiguous.wrapping_add(step)
        } else {
            let off = z_elem(cpu, instr.rm as usize, e, es);
            base.wrapping_add(
                if instr.sf {
                    off << 1u64
                } else {
                    off
                },
            )
        },
        Opcode::SveLd1w => if instr.rm == NO_OFFSET_REG {
            contiguous.wrapping_add(step)
        } else {
            let raw = z_elem(cpu, instr.rm as usize, e, es);
            base.wrapping_add(
                if instr.sf && instr.size == 4 {
                    sign_extend_bits(raw & 0xFFFF_FFFF, 32) << 2u64
                } else {
                    raw << 2u64
                },
            )
        },
        _ => contiguous.wrapping_add(step),
    }
}

proof fn lemma_same_regs_addr(a: CpuState, b: CpuState, i: Instr, e: nat)
    requires
        same_regs(a, b),
    ensures
        sve_addr(a, i, e) == sve_addr(b, i, e),
        store_value(a, i, e) == store_value(b, i, e),
{
}

/// Execute an SVE load or store.
pub fn exec_sve_mem(cpu: &mut Armv8Cpu, bus: &mut SystemBus, instr: Instr) -> (r: Result<
    (),
    ExecError,
>)
    requires
        old(cpu).wf(),
        old(bus).wf(),
        is_sve_mem_op(instr.op),
        sve_mem_wf(instr),
        sve_store_fits(old(cpu)@, instr),
    ensures
        final(cpu).wf(),
        final(bus).wf(),
        (r, final(cpu)@, final(bus)@) == sve_mem_step(old(cpu)@, old(bus)@, instr),
{
    let ghost s0 = cpu@;
    let es = instr.size as usize;
    let vl = cpu.sve_vl_bytes;
    let n = vl / es;
    let mb = mem_bytes_of(instr.op);
    let load = instr.op == Opcode::SveLd1h || instr.op == Opcode::SveLdnt1sh || instr.op
        == Opcode::SveLd1w;
    let mut e: usize = 0;
    if load {
        let ghost goal = sve_load_loop(s0, s0, bus@, instr, 0, zero_vector());
        let mut result = zero_vector_exec();
        while e < n
            invariant
                cpu.wf(),
                bus.wf(),
                bus@ == old(bus)@,
                same_regs(cpu@, s0),
                s0 == old(cpu)@,
                is_sve_mem_op(instr.op),
                is_sve_load(instr.op),
                sve_mem_wf(instr),
                es == instr.size,
                mb as nat == mem_bytes(instr.op),
                vl == s0.vl,
                vl <= SVE_MAX_VL_BYTES,
                n == s0.vl as nat / (es as nat),
                e <= n,
                result@.len() == SVE_MAX_VL_BYTES,
                goal == sve_load_loop(s0, s0, old(bus)@, instr, 0, zero_vector()),
                goal == sve_load_loop(s0, cpu@, bus@, instr, e as nat, result@),
            decreases n - e,
        {
            proof {
                lemma_elem_in_vector(e as nat, es as nat, n as nat, vl as nat);
            }
            if pred_at(cpu, instr.cond as usize, e, es) {
                let va = sve_addr_exec(cpu, instr, e);
                proof {
                    lemma_same_regs_addr(cpu@, s0, instr, e as nat);
                    lemma_guest_read_frame(cpu@, bus@, va, mb as nat);
                }
                let raw = match read_guest(cpu, bus, va, mb) {
                    Ok(v) => v,
                    Err(x) => {
                        return Err(x);
                    },
                };
                let v = if instr.op == Opcode::SveLdnt1sh && instr.size == 4 {
                    sign_extend_bits(raw, 16) & 0xFFFF_FFFF
                } else if instr.op == Opcode::SveLdnt1sh && instr.size == 8 {
                    sign_extend_bits(raw, 16)
                } else {
                    raw
                };
                set_elem(&mut result, e, es, v);
            }
            e = e + 1;
        }
        write_z(cpu, instr.rd as usize, result);
        Ok(())
    } else {
        let ghost goal = sve_store_loop(s0, s0, bus@, instr, 0);
        while e < n
            invariant
                cpu.wf(),
                bus.wf(),
                same_regs(cpu@, s0),
                s0 == old(cpu)@,
                is_sve_mem_op(instr.op),
                !is_sve_load(instr.op),
                sve_mem_wf(instr),
                sve_store_fits(s0, instr),
                es == instr.size,
                mb as nat == mem_bytes(instr.op),
                vl == s0.vl,
                vl <= SVE_MAX_VL_BYTES,
                n == s0.vl as nat / (es as nat),
                e <= n,
                goal == sve_store_loop(s0, s0, old(bus)@, instr, 0),
                goal == sve_store_loop(s0, cpu@, bus@, instr, e as nat),
            decreases n - e,
        {
            proof {
                lemma_elem_in_vector(e as nat, es as nat, n as nat, vl as nat);
            }
            if pred_at(cpu, instr.cond as usize, e, es) {
                let va = sve_addr_exec(cpu, instr, e);
                let z = &cpu.sve_z[instr.rd as usize];
                assert(z@ == cpu@.z[instr.rd as int]);
                assert(pred_elem(s0.p[instr.cond as int], e as nat, es as nat));
                assert(e * es + mb as usize <= SVE_MAX_VL_BYTES);
                let value = read_le(z, e * es, mb as usize);
                proof {
                    lemma_same_regs_addr(cpu@, s0, instr, e as nat);
                    lemma_guest_write_frame(cpu@, bus@, va, mb as nat, value);
                }
                write_guest(cpu, bus, va, mb, value)?;
            }
            e = e + 1;
        }
        Ok(())
    }
}


proof fn lemma_sve_load_loop_progress(s0: CpuState, s: CpuState, mem: Seq<u8>, i: Instr, e: nat, acc: Seq<u8>)
    ensures
        s.same_progress(sve_load_loop(s0, s, mem, i, e, acc).1),
    decreases s0.vl as nat / i.size as nat - e,
{
    let es = i.size as nat;
    if e < s0.vl as nat / es {
        if !pred_elem(s0.p[i.cond as int], e, es) {
            lemma_sve_load_loop_progress(s0, s, mem, i, e + 1, acc);
        } else {
            lemma_guest_read_frame(s, mem, sve_addr(s0, i, e), mem_bytes(i.op));
            let (r, s1) = guest_read(s, mem, sve_addr(s0, i, e), mem_bytes(i.op));
            if let Ok(v) = r {
                lemma_sve_load_loop_progress(s0, s1, mem, i, e + 1, with_elem(acc, e, es, load_value(i, v)));
            }
        }
    }
}

proof fn lemma_sve_store_loop_progress(s0: CpuState, s: CpuState, mem: Seq<u8>, i: Instr, e: nat)
    ensures
        s.same_progress(sve_store_loop(s0, s, mem, i, e).1),
    decreases s0.vl as nat / i.size as nat - e,
{
    let es = i.size as nat;
    if e < s0.vl as nat / es {
        if !pred_elem(s0.p[i.cond as int], e, es) {
            lemma_sve_store_loop_progress(s0, s, mem, i, e + 1);
        } else {
            let va = sve_addr(s0, i, e);
            lemma_guest_write_frame(s, mem, va, mem_bytes(i.op), store_value(s0, i, e));
            let (r, s1, m1) = guest_write(s, mem, va, mem_bytes(i.op), store_value(s0, i, e));
            if r is Ok {
                lemma_sve_store_loop_progress(s0, s1, m1, i, e + 1);
            }
        }
    }
}

/// An SVE load or store leaves the PC, the cycle count
/// and the interrupt registers as they were (`same_progress`).
pub proof fn lemma_sve_mem_keeps_progress(s: CpuState, mem: Seq<u8>, i: Instr)
    ensures
        s.same_progress(sve_mem_step(s, mem, i).1),
{
    lemma_sve_load_loop_progress(s, s, mem, i, 0, zero_vector());
    lemma_sve_store_loop_progress(s, s, mem, i, 0);
}

} // verus!
