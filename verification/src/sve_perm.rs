//! SVE element permutes and generators: unpack with widening, ZIP1/ZIP2,
//! TBL and INDEX.
use vstd::prelude::*;
use crate::alu::{sign_extend, sign_extend_bits};
use crate::cpu::{read_reg, Armv8Cpu, CpuState, SVE_MAX_VL_BYTES, VREG_COUNT};
use crate::exclusive::{access_mask, access_mask_of};
use crate::instr::{Instr, Opcode};
use crate::sve::{
    elem, fill, lemma_count_fits, lemma_elem_in_vector, set_elem, valid_esize, with_elem, write_z,
    z_elem, zero_vector, zero_vector_exec,
};

verus! {

pub open spec fn is_sve_perm_op(op: Opcode) -> bool {
    match op {
        Opcode::SveUunpklo | Opcode::SveUunpkhi | Opcode::SveSunpklo | Opcode::SveSunpkhi
        | Opcode::SveZip1 | Opcode::SveZip2 | Opcode::SveTbl | Opcode::SveIndex => true,
        _ => false,
    }
}

pub open spec fn is_unpack(op: Opcode) -> bool {
    match op {
        Opcode::SveUunpklo | Opcode::SveUunpkhi | Opcode::SveSunpklo | Opcode::SveSunpkhi => true,
        _ => false,
    }
}

/// INDEX `cond` bits: the start, the step, is an immediate.
pub const INDEX_START_IMM: u8 = 1;

pub const INDEX_STEP_IMM: u8 = 2;

/// A `half`-byte value widened to the element: sign-extended for the signed
/// forms, zero-extended otherwise.
pub open spec fn widen(v: u64, half: nat, signed: bool) -> u64 {
    let mask = access_mask(half as u8);
    if signed && v & (1u64 << ((8 * half - 1) as u64)) != 0 {
        v | !mask
    } else {
        v & mask
    }
}

/// The start or step of INDEX: a signed 32-bit immediate, or a register
/// sign-extended from the element width.
pub open spec fn index_operand(s: CpuState, i: Instr, reg: u8, imm: u64, is_imm: bool) -> u64 {
    if is_imm {
        sign_extend(imm & 0xFFFF_FFFF, 32)
    } else {
        sign_extend(s.reg(reg, i.sf), (8 * i.size) as u64)
    }
}

/// Tables TBL looks up: one, or two consecutive registers.
pub open spec fn table_count(i: Instr) -> nat {
    if i.imm == 0 {
        1
    } else {
        i.imm as nat
    }
}

/// The elements written: all but TBL's out-of-range indices.
pub open spec fn perm_sel(s: CpuState, i: Instr, e: nat) -> bool {
    let es = i.size as nat;
    i.op != Opcode::SveTbl || (elem(s.z[i.rm as int], e, es) as nat) < (s.vl as nat / es)
        * table_count(i)
}

/// The value written to element `e`.
pub open spec fn perm_value(s: CpuState, i: Instr, e: nat) -> u64 {
    let es = i.size as nat;
    let n = s.vl as nat / es;
    let zn = s.z[i.rn as int];
    let zm = s.z[i.rm as int];
    if is_unpack(i.op) {
        let offset = if i.op == Opcode::SveUunpkhi || i.op == Opcode::SveSunpkhi {
            n
        } else {
            0
        };
        widen(
            elem(zn, e + offset, es / 2),
            es / 2,
            i.op == Opcode::SveSunpklo || i.op == Opcode::SveSunpkhi,
        )
    } else if i.op == Opcode::SveZip1 || i.op == Opcode::SveZip2 {
        let start = if i.op == Opcode::SveZip2 {
            n / 2
        } else {
            0
        };
        if e % 2 == 0 {
            elem(zn, start + e / 2, es)
        } else {
            elem(zm, start + e / 2, es)
        }
    } else if i.op == Opcode::SveTbl {
        let idx = elem(zm, e, es) as nat;
        let table = if idx < n {
            zn
        } else if table_count(i) > 1 {
            s.z[((i.rn + 1) % 32) as int]
        } else {
            zero_vector()
        };
        elem(table, idx % n, es)
    } else {
        let start = index_operand(s, i, i.rn, i.imm, i.cond & INDEX_START_IMM != 0);
        let step = index_operand(s, i, i.rm, i.imm >> 32u64, i.cond & INDEX_STEP_IMM != 0);
        start.wrapping_add((e as u64).wrapping_mul(step))
    }
}

/// How many elements are written: ZIP fills whole pairs.
pub open spec fn perm_count(s: CpuState, i: Instr) -> nat {
    let n = s.vl as nat / i.size as nat;
    if i.op == Opcode::SveZip1 || i.op == Opcode::SveZip2 {
        2 * (n / 2)
    } else {
        n
    }
}

pub open spec fn sve_perm_step(s: CpuState, i: Instr) -> CpuState {
    s.set_z(
        i.rd as int,
        fill(
            zero_vector(),
            i.size as nat,
            perm_count(s, i),
            |e: nat| perm_sel(s, i, e),
            |e: nat| perm_value(s, i, e),
        ),
    )
}

pub open spec fn sve_perm_wf(i: Instr) -> bool {
    &&& valid_esize(i.size as nat)
    &&& i.rd < 32
    &&& i.rn < 32
    &&& i.rm < 32
    &&& is_unpack(i.op) ==> i.size != 1
    &&& i.op == Opcode::SveTbl ==> i.imm <= 0xFFFF_FFFF
}

fn perm_value_exec(cpu: &Armv8Cpu, instr: Instr, e: usize) -> (r: u64)
    requires
        cpu.wf(),
        is_sve_perm_op(instr.op),
        sve_perm_wf(instr),
        e < perm_count(cpu@, instr),
    ensures
        r == perm_value(cpu@, instr, e as nat),
{
    let es = instr.size as usize;
    let vl = cpu.sve_vl_bytes;
    let n = vl / es;
    proof {
        lemma_count_fits(es as nat, vl as nat);
    }
    let rn = instr.rn as usize;
    let rm = instr.rm as usize;
    match instr.op {
        Opcode::SveUunpklo | Opcode::SveUunpkhi | Opcode::SveSunpklo | Opcode::SveSunpkhi => {
            let half = es / 2;
            let offset = if instr.op == Opcode::SveUunpkhi || instr.op == Opcode::SveSunpkhi {
                n
            } else {
                0
            };
            assert((e + offset) * half + half <= SVE_MAX_VL_BYTES) by (nonlinear_arith)
                requires
                    e < n,
                    offset <= n,
                    n * es <= SVE_MAX_VL_BYTES,
                    half * 2 == es,
            ;
            let v = z_elem(cpu, rn, e + offset, half);
            let mask = access_mask_of(half as u8);
            let signed = instr.op == Opcode::SveSunpklo || instr.op == Opcode::SveSunpkhi;
            if signed && v & (1u64 << (8 * half as u64 - 1)) != 0 {
                v | !mask
            } else {
                v & mask
            }
        },
        Opcode::SveZip1 | Opcode::SveZip2 => {
            let start = if instr.op == Opcode::SveZip2 {
                n / 2
            } else {
                0
            };
            let k = start + e / 2;
            assert(k * es + es <= SVE_MAX_VL_BYTES) by (nonlinear_arith)
                requires
                    e < 2 * (n / 2),
                    start <= n / 2,
                    k == start + e / 2,
                    n * es <= SVE_MAX_VL_BYTES,
                    es >= 1,
            ;
            if e % 2 == 0 {
                z_elem(cpu, rn, k, es)
            } else {
                z_elem(cpu, rm, k, es)
            }
        },
        Opcode::SveTbl => {
            proof {
                lemma_elem_in_vector(e as nat, es as nat, n as nat, vl as nat);
            }
            let idx = z_elem(cpu, rm, e, es);
            let k = (idx % n as u64) as usize;
            proof {
                lemma_elem_in_vector(k as nat, es as nat, n as nat, vl as nat);
            }
            if idx < n as u64 {
                z_elem(cpu, rn, k, es)
            } else if instr.imm > 1 {
                z_elem(cpu, (rn + 1) % 32, k, es)
            } else {
                let zero = zero_vector_exec();
                crate::sve::get_elem(&zero, k, es)
            }
        },
        _ => {
            let start = if instr.cond & INDEX_START_IMM != 0 {
                sign_extend_bits(instr.imm & 0xFFFF_FFFF, 32)
            } else {
                sign_extend_bits(read_reg(cpu, instr.rn, instr.sf), 8 * instr.size as u64)
            };
            let step = if instr.cond & INDEX_STEP_IMM != 0 {
                sign_extend_bits((instr.imm >> 32u64) & 0xFFFF_FFFF, 32)
            } else {
                sign_extend_bits(read_reg(cpu, instr.rm, instr.sf), 8 * instr.size as u64)
            };
            start.wrapping_add((e as u64).wrapping_mul(step))
        },
    }
}

/// Execute an SVE unpack, zip, table lookup or index generation.
pub fn exec_sve_perm(cpu: &mut Armv8Cpu, instr: Instr)
    requires
        old(cpu).wf(),
        is_sve_perm_op(instr.op),
        sve_perm_wf(instr),
    ensures
        final(cpu).wf(),
        final(cpu)@ == sve_perm_step(old(cpu)@, instr),
{
    let ghost s = cpu@;
    let es = instr.size as usize;
    let vl = cpu.sve_vl_bytes;
    let n = vl / es;
    let count = if instr.op == Opcode::SveZip1 || instr.op == Opcode::SveZip2 {
        2 * (n / 2)
    } else {
        n
    };
    let ghost sel = |e: nat| perm_sel(s, instr, e);
    let ghost f = |e: nat| perm_value(s, instr, e);
    let mut result = zero_vector_exec();
    let mut e: usize = 0;
    while e < count
        invariant
            cpu.wf(),
            cpu@ == s,
            is_sve_perm_op(instr.op),
            sve_perm_wf(instr),
            es == instr.size,
            vl == s.vl,
            vl <= SVE_MAX_VL_BYTES,
            n == s.vl as nat / (es as nat),
            count == perm_count(s, instr),
            count <= n,
            n <= vl,
            e <= count,
            sel == (|e: nat| perm_sel(s, instr, e)),
            f == (|e: nat| perm_value(s, instr, e)),
            result@.len() == SVE_MAX_VL_BYTES,
            result@ == fill(zero_vector(), es as nat, e as nat, sel, f),
        decreases count - e,
    {
        proof {
            lemma_elem_in_vector(e as nat, es as nat, n as nat, vl as nat);
        }
        let active = if instr.op == Opcode::SveTbl {
            let idx = z_elem(cpu, instr.rm as usize, e, es);
            let tc: u64 = if instr.imm == 0 {
                1
            } else {
                instr.imm
            };
            assert(n <= 256);
            assert(n as u64 * tc <= 256 * 0xFFFF_FFFF) by (nonlinear_arith)
                requires
                    n <= 256,
                    tc <= 0xFFFF_FFFF,
            ;
            idx < n as u64 * tc
        } else {
            true
        };
        assert(active == sel(e as nat));
        let ghost prev = result@;
        if active {
            let v = perm_value_exec(cpu, instr, e);
            set_elem(&mut result, e, es, v);
        }
        assert(fill(zero_vector(), es as nat, (e + 1) as nat, sel, f) == if sel(e as nat) {
            with_elem(prev, e as nat, es as nat, f(e as nat))
        } else {
            prev
        });
        e = e + 1;
    }
    write_z(cpu, instr.rd as usize, result);
}

} // verus!
