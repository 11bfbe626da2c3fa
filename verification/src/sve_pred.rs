//! SVE instructions that produce predicates: integer compares, WHILELO and
//! predicate unpacking.
use vstd::prelude::*;
use vstd::arithmetic::div_mod::{lemma_add_mod_noop, lemma_mod_self_0, lemma_small_mod};
use crate::alu::{sign_extend, sign_extend_bits};
use crate::cpu::{read_reg, width_mask, Armv8Cpu, CpuState, PREG_COUNT, SVE_MAX_VL_BYTES};
use crate::instr::{Instr, Opcode};
use crate::sve::{
    all_true_pred, elem, fill_pred, lemma_elem_in_vector, pred_elem, pred_test, pred_test_flags,
    valid_esize, with_pred, write_p, z_elem, zero_pred, zero_pred_exec,
};

verus! {

pub open spec fn is_sve_pred_op(op: Opcode) -> bool {
    match op {
        Opcode::SveCompareHs | Opcode::SveCompareHi | Opcode::SveCompareEq | Opcode::SveCompareNe
        | Opcode::SveCompareHsImm | Opcode::SveCompareHiImm | Opcode::SveCompareEqImm
        | Opcode::SveCompareNeImm | Opcode::SveWhileLo | Opcode::SvePunpklo | Opcode::SvePunpkhi => true,
        _ => false,
    }
}

pub open spec fn is_compare_op(op: Opcode) -> bool {
    match op {
        Opcode::SveCompareHs | Opcode::SveCompareHi | Opcode::SveCompareEq | Opcode::SveCompareNe
        | Opcode::SveCompareHsImm | Opcode::SveCompareHiImm | Opcode::SveCompareEqImm
        | Opcode::SveCompareNeImm => true,
        _ => false,
    }
}

pub open spec fn is_immediate_compare(op: Opcode) -> bool {
    match op {
        Opcode::SveCompareHsImm | Opcode::SveCompareHiImm | Opcode::SveCompareEqImm
        | Opcode::SveCompareNeImm => true,
        _ => false,
    }
}

/// The comparison of one element: unsigned higher-or-same and higher, and
/// equality of the values sign-extended from the element width.
pub open spec fn compare_elem(op: Opcode, l: u64, r: u64, es: nat) -> bool {
    match op {
        Opcode::SveCompareHs | Opcode::SveCompareHsImm => l >= r,
        Opcode::SveCompareHi | Opcode::SveCompareHiImm => l > r,
        Opcode::SveCompareEq | Opcode::SveCompareEqImm => sign_extend(l, (8 * es) as u64)
            == sign_extend(r, (8 * es) as u64),
        _ => sign_extend(l, (8 * es) as u64) != sign_extend(r, (8 * es) as u64),
    }
}

/// The second operand of a compare at element `e`.
pub open spec fn compare_rhs(s: CpuState, i: Instr, e: nat) -> u64 {
    if is_immediate_compare(i.op) {
        i.imm
    } else {
        elem(s.z[i.rm as int], e, i.size as nat)
    }
}

/// Whether element `e` of the compare result is set: it is active and the
/// comparison holds.
pub open spec fn compare_bit(s: CpuState, i: Instr, e: nat) -> bool {
    let es = i.size as nat;
    pred_elem(s.p[i.cond as int], e, es) && compare_elem(
        i.op,
        elem(s.z[i.rn as int], e, es),
        compare_rhs(s, i, e),
        es,
    )
}

/// Bit `e` of PUNPKLO / PUNPKHI: the predicate bit of byte element `e` of
/// the low or high half of the source.
pub open spec fn unpack_bit(s: CpuState, i: Instr, e: nat) -> bool {
    let offset = if i.op == Opcode::SvePunpkhi {
        s.vl as nat / 2
    } else {
        0
    };
    s.p[i.rn as int][(e + offset) as int]
}

/// Bit `e` of a WHILELO result.
pub open spec fn whilelo_bit(s: CpuState, i: Instr, e: nat) -> bool {
    whilelo_active(s.reg(i.rn, i.sf), s.reg(i.rm, i.sf), i.sf, e)
}

/// `2^64` or `2^32`.
pub open spec fn modulus(sf: bool) -> nat {
    (width_mask(sf) + 1) as nat
}

/// WHILELO: element `e` is active while `start + j` (wrapping at the
/// register width) stays below `limit` for every `j` up to `e`.
pub open spec fn whilelo_active(start: u64, limit: u64, sf: bool, e: nat) -> bool
    decreases e,
{
    (e == 0 || whilelo_active(start, limit, sf, (e - 1) as nat)) && (start + e) % (modulus(sf) as int)
        < limit
}

pub open spec fn sve_pred_step(s: CpuState, i: Instr) -> CpuState {
    let es = i.size as nat;
    let n = s.vl as nat / es;
    if is_compare_op(i.op) {
        let res = fill_pred(zero_pred(), es, n, |e: nat| compare_bit(s, i, e));
        let f = pred_test_flags(s.p[i.cond as int], res, es, n);
        s.set_nzcv(f.0, f.1, f.2, false).set_p(i.rd as int, res)
    } else if i.op == Opcode::SveWhileLo {
        let res = fill_pred(zero_pred(), es, n, |e: nat| whilelo_bit(s, i, e));
        let f = pred_test_flags(all_true_pred(), res, es, n);
        s.set_nzcv(f.0, f.1, f.2, false).set_p(i.rd as int, res)
    } else {
        s.set_p(i.rd as int, fill_pred(zero_pred(), 2, s.vl as nat / 2, |e: nat| unpack_bit(s, i, e)))
    }
}

pub open spec fn sve_pred_wf(i: Instr) -> bool {
    &&& i.rd < 16
    &&& (is_compare_op(i.op) || i.op == Opcode::SveWhileLo) ==> valid_esize(i.size as nat)
    &&& is_compare_op(i.op) ==> i.cond < 16 && i.rn < 32 && i.rm < 32
    &&& (i.op == Opcode::SvePunpklo || i.op == Opcode::SvePunpkhi) ==> i.rn < 16
}

fn compare_elem_exec(op: Opcode, l: u64, r: u64, es: usize) -> (b: bool)
    requires
        valid_esize(es as nat),
    ensures
        b == compare_elem(op, l, r, es as nat),
{
    match op {
        Opcode::SveCompareHs | Opcode::SveCompareHsImm => l >= r,
        Opcode::SveCompareHi | Opcode::SveCompareHiImm => l > r,
        Opcode::SveCompareEq | Opcode::SveCompareEqImm => sign_extend_bits(l, 8 * es as u64)
            == sign_extend_bits(r, 8 * es as u64),
        _ => sign_extend_bits(l, 8 * es as u64) != sign_extend_bits(r, 8 * es as u64),
    }
}

proof fn lemma_wrap_step(a: nat, m: nat, v: nat)
    requires
        m > 0,
        v == a % m,
    ensures
        (if v + 1 == m {
            0
        } else {
            v + 1
        }) == (a + 1) % m,
{
    lemma_add_mod_noop(a as int, 1, m as int);
    if m == 1 {
        lemma_small_mod(0, 1);
    } else {
        lemma_small_mod(1, m);
    }
    if v + 1 == m {
        lemma_mod_self_0(m as int);
    } else {
        lemma_small_mod(v + 1, m);
    }
}

/// Execute an SVE compare, WHILELO or predicate unpack.
pub fn exec_sve_pred(cpu: &mut Armv8Cpu, instr: Instr)
    requires
        old(cpu).wf(),
        is_sve_pred_op(instr.op),
        sve_pred_wf(instr),
    ensures
        final(cpu).wf(),
        final(cpu)@ == sve_pred_step(old(cpu)@, instr),
{
    let ghost s = cpu@;
    let vl = cpu.sve_vl_bytes;
    let mut result = zero_pred_exec();
    if instr.op == Opcode::SvePunpklo || instr.op == Opcode::SvePunpkhi {
        let half = vl / 2;
        let offset = if instr.op == Opcode::SvePunpkhi {
            half
        } else {
            0
        };
        let src = &cpu.sve_pred[instr.rn as usize];
        assert(src@ == s.p[instr.rn as int]);
        let ghost g = |e: nat| unpack_bit(s, instr, e);
        let mut e: usize = 0;
        while e < half
            invariant
                cpu@ == s,
                vl == s.vl,
                instr.rn < 16,
                instr.op == Opcode::SvePunpkhi ==> offset == half,
                instr.op != Opcode::SvePunpkhi ==> offset == 0,
                e <= half,
                half == vl / 2,
                vl <= SVE_MAX_VL_BYTES,
                offset <= half,
                src@.len() == SVE_MAX_VL_BYTES,
                src@ == s.p[instr.rn as int],
                g == (|e: nat| unpack_bit(s, instr, e)),
                result@.len() == SVE_MAX_VL_BYTES,
                result@ == fill_pred(zero_pred(), 2, e as nat, g),
            decreases half - e,
        {
            let b = src[e + offset];
            result.set(e * 2, b);
            e = e + 1;
        }
        write_p(cpu, instr.rd as usize, result);
        return;
    }
    let es = instr.size as usize;
    let n = vl / es;
    if instr.op == Opcode::SveWhileLo {
        let wmask: u64 = if instr.sf {
            u64::MAX
        } else {
            0xFFFF_FFFF
        };
        let start = read_reg(cpu, instr.rn, instr.sf);
        let limit = read_reg(cpu, instr.rm, instr.sf);
        let ghost g = |e: nat| whilelo_bit(s, instr, e);
        let mut value = start;
        let mut still_lower = true;
        let mut e: usize = 0;
        proof {
            crate::dp_basic::lemma_operands_fit(s, instr);
            lemma_small_mod(start as nat, modulus(instr.sf));
        }
        while e < n
            invariant
                e <= n,
                n == vl as nat / (es as nat),
                valid_esize(es as nat),
                vl <= SVE_MAX_VL_BYTES,
                wmask == width_mask(instr.sf),
                value == (start + e) % (modulus(instr.sf) as int),
                still_lower == (e == 0 || whilelo_active(start, limit, instr.sf, (e - 1) as nat)),
                g == (|e: nat| whilelo_bit(s, instr, e)),
                start == s.reg(instr.rn, instr.sf),
                limit == s.reg(instr.rm, instr.sf),
                result@.len() == SVE_MAX_VL_BYTES,
                result@ == fill_pred(zero_pred(), es as nat, e as nat, g),
            decreases n - e,
        {
            proof {
                lemma_elem_in_vector(e as nat, es as nat, n as nat, vl as nat);
                lemma_wrap_step((start + e) as nat, modulus(instr.sf), value as nat);
            }
            still_lower = still_lower && value < limit;
            result.set(e * es, still_lower);
            value = if value == wmask {
                0
            } else {
                value + 1
            };
            e = e + 1;
        }
        proof {
            crate::sve::lemma_count_fits(es as nat, vl as nat);
        }
        let all = vec![true; SVE_MAX_VL_BYTES];
        assert(all@ =~= all_true_pred());
        let (fn_, fz, fc) = pred_test(&all, &result, es, n);
        cpu.pstate.set_nzcv(fn_, fz, fc, false);
        write_p(cpu, instr.rd as usize, result);
        return;
    }
    let ghost g = |e: nat| compare_bit(s, instr, e);
    let mut e: usize = 0;
    while e < n
        invariant
            cpu.wf(),
            cpu@ == s,
            is_compare_op(instr.op),
            sve_pred_wf(instr),
            e <= n,
            es == instr.size,
            n == s.vl as nat / (es as nat),
            vl == s.vl,
            vl <= SVE_MAX_VL_BYTES,
            g == (|e: nat| compare_bit(s, instr, e)),
            result@.len() == SVE_MAX_VL_BYTES,
            result@ == fill_pred(zero_pred(), es as nat, e as nat, g),
        decreases n - e,
    {
        proof {
            lemma_elem_in_vector(e as nat, es as nat, n as nat, vl as nat);
        }
        let active = crate::sve::pred_at(cpu, instr.cond as usize, e, es);
        let b = if active {
            let l = z_elem(cpu, instr.rn as usize, e, es);
            let r = if is_immediate_compare_exec(instr.op) {
                instr.imm
            } else {
                z_elem(cpu, instr.rm as usize, e, es)
            };
            compare_elem_exec(instr.op, l, r, es)
        } else {
            false
        };
        assert(b == g(e as nat));
        result.set(e * es, b);
        e = e + 1;
    }
    proof {
        crate::sve::lemma_count_fits(es as nat, vl as nat);
    }
    let mask = &cpu.sve_pred[instr.cond as usize];
    assert(mask@ == s.p[instr.cond as int]);
    let (fn_, fz, fc) = pred_test(mask, &result, es, n);
    cpu.pstate.set_nzcv(fn_, fz, fc, false);
    write_p(cpu, instr.rd as usize, result);
}

fn is_immediate_compare_exec(op: Opcode) -> (r: bool)
    ensures
        r == is_immediate_compare(op),
{
    match op {
        Opcode::SveCompareHsImm | Opcode::SveCompareHiImm | Opcode::SveCompareEqImm
        | Opcode::SveCompareNeImm => true,
        _ => false,
    }
}

} // verus!
