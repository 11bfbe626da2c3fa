//! Advanced SIMD data processing on the 128-bit vector registers: bitwise
//! logic, lane arithmetic and compares, shifts, narrowing, reductions,
//! permutes, moves between lanes and general registers, the SHA-3 helpers
//! and the AES round steps. Each result lane is a function of the source
//! lanes; the 64-bit forms clear the upper half of the destination.
use vstd::prelude::*;
use crate::cpu::{read_reg, write_reg, Armv8Cpu, CpuState};
use crate::exclusive::{access_mask, access_mask_of};
use crate::instr::{Instr, Opcode};
use crate::simd_crypto::{
    inv_mix_byte, inv_mix_byte_exec, inv_sbox, inv_sbox_exec, inv_shift_rows_src,
    inv_shift_rows_src_exec, mix_byte, mix_byte_exec, sbox, sbox_exec, shift_rows_src,
    shift_rows_src_exec,
};
use crate::simd_lanes::{
    from_bytes, halves, halves_exec, lane, lemma_elem_bound, set_lane, to_bytes, vbytes, vvalue,
    zero16, zero16_exec,
};
use crate::sve::{elem, fill, valid_esize, with_elem};
use crate::sysregs::SystemRegisters;
use crate::system::{rotate_right, rotate_right_exec};

verus! {

/// The cumulative saturation bit of FPSR.
pub const FPSR_QC: u64 = 0x0800_0000;

pub open spec fn is_simd_data_op(op: Opcode) -> bool {
    match op {
        Opcode::SimdAnd | Opcode::SimdOrr | Opcode::SimdBic | Opcode::SimdBsl | Opcode::SimdBit
        | Opcode::SimdBif | Opcode::SimdEor3 | Opcode::SimdBcax | Opcode::SimdRax1
        | Opcode::SimdXar | Opcode::SimdAdd | Opcode::SimdSub | Opcode::SimdMul
        | Opcode::SimdCmeq | Opcode::SimdCmtst | Opcode::SimdCmeqZero | Opcode::SimdUshl
        | Opcode::SimdUminp | Opcode::SimdAddp | Opcode::SimdCnt | Opcode::SimdFneg
        | Opcode::SimdUshr | Opcode::SimdShl | Opcode::SimdSli | Opcode::SimdSri
        | Opcode::SimdXtn | Opcode::SimdShrn | Opcode::SimdAddv | Opcode::SimdExt
        | Opcode::SimdUzp1 | Opcode::SimdZip1 | Opcode::SimdZip2 | Opcode::SimdTbl
        | Opcode::SimdRev32 | Opcode::SimdRev64 | Opcode::SimdDupElem | Opcode::SimdDupGpr
        | Opcode::SimdIns | Opcode::SimdInsGpr | Opcode::SimdFmovFromGpr | Opcode::SimdUmov
        | Opcode::SimdBicImm | Opcode::SimdUqsub | Opcode::SimdAese | Opcode::SimdAesd
        | Opcode::SimdAesmc | Opcode::SimdAesimc => true,
        _ => false,
    }
}

/// Operations on whole 64-bit lanes whatever the arrangement.
pub open spec fn is_bitwise(op: Opcode) -> bool {
    match op {
        Opcode::SimdAnd | Opcode::SimdOrr | Opcode::SimdBic | Opcode::SimdBsl | Opcode::SimdBit
        | Opcode::SimdBif | Opcode::SimdEor3 | Opcode::SimdBcax | Opcode::SimdRax1
        | Opcode::SimdXar => true,
        _ => false,
    }
}

/// Operations on byte lanes.
pub open spec fn is_bytewise(op: Opcode) -> bool {
    match op {
        Opcode::SimdCnt | Opcode::SimdExt | Opcode::SimdTbl | Opcode::SimdAese | Opcode::SimdAesd
        | Opcode::SimdAesmc | Opcode::SimdAesimc => true,
        _ => false,
    }
}

/// Operations whose first source is the first halves of the two source
/// registers, one after the other.
pub open spec fn reads_pair(op: Opcode) -> bool {
    op == Opcode::SimdUminp || op == Opcode::SimdAddp || op == Opcode::SimdUzp1 || op
        == Opcode::SimdExt
}

/// Bytes of the operand: 16 for the 128-bit forms, else 8.
pub open spec fn vlen(i: Instr) -> nat {
    if i.sf {
        16
    } else {
        8
    }
}

/// How many lanes of `es` (1, 2, 4 or 8) bytes fill `bytes` bytes.
pub open spec fn per(bytes: nat, es: nat) -> nat {
    if es == 1 {
        bytes
    } else if es == 2 {
        bytes / 2
    } else if es == 4 {
        bytes / 4
    } else {
        bytes / 8
    }
}

/// Bytes per lane.
pub open spec fn lane_size(i: Instr) -> nat {
    if is_bitwise(i.op) {
        8
    } else if is_bytewise(i.op) {
        1
    } else {
        i.size as nat
    }
}

/// Lanes written: one for the scalar results, every lane of the register
/// for the lane inserts, else the lanes of the operand.
pub open spec fn lane_count(i: Instr) -> nat {
    if i.op == Opcode::SimdUqsub || i.op == Opcode::SimdAddv || i.op == Opcode::SimdFmovFromGpr {
        1
    } else if i.op == Opcode::SimdIns || i.op == Opcode::SimdInsGpr {
        per(16, lane_size(i))
    } else {
        per(vlen(i), lane_size(i))
    }
}

/// The `count` table registers from `first` on (wrapping past 31), one
/// after the other.
pub open spec fn table(s: CpuState, first: u8, count: nat) -> Seq<u8>
    decreases count,
{
    if count == 0 {
        Seq::empty()
    } else {
        table(s, first, (count - 1) as nat) + vbytes(s.simd[((first + count - 1) % 32) as int])
    }
}

/// The first source as the lanes read it.
pub open spec fn first_source(s: CpuState, i: Instr) -> Seq<u8> {
    if reads_pair(i.op) {
        halves(vbytes(s.simd[i.rn as int]), vbytes(s.simd[i.rm as int]), vlen(i))
    } else if i.op == Opcode::SimdTbl {
        table(s, i.rn, i.imm as nat)
    } else {
        vbytes(s.simd[i.rn as int])
    }
}

/// The third source register of EOR3 and BCAX.
pub open spec fn third_source(s: CpuState, i: Instr) -> Seq<u8> {
    if i.cond < 32 {
        vbytes(s.simd[i.cond as int])
    } else {
        zero16()
    }
}

/// The low `n` (below 64) bits set.
pub open spec fn low_bits(n: u64) -> u64 {
    if n == 0 {
        0
    } else {
        u64::MAX >> ((64 - n) as u64)
    }
}

/// USHL of a lane of `es` bytes by the signed low byte of `amount`: left
/// for positive amounts, logical right for negative ones.
pub open spec fn ushl_lane(v: u64, amount: u64, es: nat) -> u64 {
    let a = amount % 256;
    if a < 128 {
        if a >= 8 * es {
            0
        } else {
            v << a
        }
    } else {
        let r = (256 - a) as u64;
        if r >= 8 * es {
            0
        } else {
            v >> r
        }
    }
}

/// The number of set bits among the low `k` bits of `b`.
pub open spec fn bit_count(b: u8, k: nat) -> nat
    decreases k,
{
    if k == 0 {
        0
    } else {
        bit_count(b / 2, (k - 1) as nat) + (b % 2) as nat
    }
}

proof fn lemma_bit_count_bound(b: u8, k: nat)
    ensures
        bit_count(b, k) <= k,
    decreases k,
{
    if k > 0 {
        lemma_bit_count_bound(b / 2, (k - 1) as nat);
    }
}

/// The sum of the first `k` lanes of `es` bytes.
pub open spec fn lane_sum(a: Seq<u8>, es: nat, k: nat) -> nat
    decreases k,
{
    if k == 0 {
        0
    } else {
        lane_sum(a, es, (k - 1) as nat) + elem(a, (k - 1) as nat, es) as nat
    }
}

/// Lane `e` with the order of the `group` (2, 4 or 8) lanes inside its
/// container reversed.
pub open spec fn reversed_lane(e: nat, group: nat) -> nat {
    if group == 2 {
        (e / 2) * 2 + (1 - e % 2) as nat
    } else if group == 4 {
        (e / 4) * 4 + (3 - e % 4) as nat
    } else {
        (e / 8) * 8 + (7 - e % 8) as nat
    }
}

/// Lane `e` of a narrowing result: the source lane of twice the size,
/// shifted right by `sh`; the 128-bit form keeps the low half of the
/// destination and fills the high half.
pub open spec fn narrow_lane(i: Instr, a: Seq<u8>, d: Seq<u8>, e: nat, sh: u64) -> u64 {
    let es = lane_size(i);
    let h = per(8, es);
    if i.sf {
        if e < h {
            elem(d, e, es)
        } else {
            elem(a, (e - h) as nat, 2 * es) >> sh
        }
    } else {
        elem(a, e, 2 * es) >> sh
    }
}

/// Result lane `e`, from the first source `a`, the second `b`, the third
/// `c`, the old destination `d` and the general register `x`.
pub open spec fn lane_value(
    i: Instr,
    a: Seq<u8>,
    b: Seq<u8>,
    c: Seq<u8>,
    d: Seq<u8>,
    x: u64,
    e: nat,
) -> u64 {
    let es = lane_size(i);
    let m = access_mask(es as u8);
    let va = elem(a, e, es);
    let vb = elem(b, e, es);
    let vd = elem(d, e, es);
    match i.op {
        Opcode::SimdAnd => va & vb,
        Opcode::SimdOrr => va | vb,
        Opcode::SimdBic => va & !vb,
        Opcode::SimdBsl => (vd & va) | (!vd & vb),
        Opcode::SimdBit => (vd & !vb) | (va & vb),
        Opcode::SimdBif => (vd & vb) | (va & !vb),
        Opcode::SimdEor3 => va ^ vb ^ elem(c, e, es),
        Opcode::SimdBcax => va ^ (vb & !elem(c, e, es)),
        Opcode::SimdRax1 => va ^ ((vb << 1u64) | (vb >> 63u64)),
        Opcode::SimdXar => rotate_right(va ^ vb, i.imm),
        Opcode::SimdAdd => va.wrapping_add(vb),
        Opcode::SimdSub => va.wrapping_sub(vb),
        Opcode::SimdMul => va.wrapping_mul(vb),
        Opcode::SimdCmeq => if va == vb {
            m
        } else {
            0
        },
        Opcode::SimdCmtst => if va & vb != 0 {
            m
        } else {
            0
        },
        Opcode::SimdCmeqZero => if va == 0 {
            m
        } else {
            0
        },
        Opcode::SimdUshl => ushl_lane(va, vb, es),
        Opcode::SimdUminp => {
            let p = elem(a, 2 * e, es);
            let q = elem(a, 2 * e + 1, es);
            if p <= q {
                p
            } else {
                q
            }
        },
        Opcode::SimdAddp => elem(a, 2 * e, es).wrapping_add(elem(a, 2 * e + 1, es)),
        Opcode::SimdCnt => bit_count(va as u8, 8) as u64,
        Opcode::SimdFneg => va ^ (1u64 << ((8 * es - 1) as u64)),
        Opcode::SimdUshr => if i.imm >= 8 * es {
            0
        } else {
            va >> i.imm
        },
        Opcode::SimdShl => va << i.imm,
        Opcode::SimdSli => (va << i.imm) | (vd & low_bits(i.imm)),
        Opcode::SimdSri => if i.imm >= 8 * es {
            vd
        } else {
            (va >> i.imm) | (vd & !(m >> i.imm))
        },
        Opcode::SimdXtn => narrow_lane(i, a, d, e, 0),
        Opcode::SimdShrn => narrow_lane(i, a, d, e, i.imm),
        Opcode::SimdAddv => lane_sum(a, es, per(vlen(i), es)) as u64,
        Opcode::SimdExt => elem(a, (e + i.imm) as nat, 1),
        Opcode::SimdUzp1 => elem(a, 2 * e, es),
        Opcode::SimdZip1 => if e % 2 == 0 {
            elem(a, e / 2, es)
        } else {
            elem(b, e / 2, es)
        },
        Opcode::SimdZip2 => {
            let h = lane_count(i) / 2;
            if e % 2 == 0 {
                elem(a, h + e / 2, es)
            } else {
                elem(b, h + e / 2, es)
            }
        },
        Opcode::SimdTbl => {
            let k = elem(b, e, 1);
            if k < a.len() {
                a[k as int] as u64
            } else {
                0
            }
        },
        Opcode::SimdRev32 => elem(a, reversed_lane(e, per(4, es)), es),
        Opcode::SimdRev64 => elem(a, reversed_lane(e, per(8, es)), es),
        Opcode::SimdDupElem => elem(a, i.imm as nat, es),
        Opcode::SimdDupGpr => x,
        Opcode::SimdIns => if e == i.imm {
            elem(a, i.cond as nat, es)
        } else {
            vd
        },
        Opcode::SimdInsGpr => if e == i.imm {
            x
        } else {
            vd
        },
        Opcode::SimdFmovFromGpr => x,
        Opcode::SimdBicImm => vd & !i.imm,
        Opcode::SimdUqsub => if va >= vb {
            (va - vb) as u64
        } else {
            0
        },
        Opcode::SimdAese => sbox(d[shift_rows_src(e) as int] ^ a[shift_rows_src(e) as int]) as u64,
        Opcode::SimdAesd => inv_sbox(
            d[inv_shift_rows_src(e) as int] ^ a[inv_shift_rows_src(e) as int],
        ) as u64,
        Opcode::SimdAesmc => mix_byte(a, e) as u64,
        Opcode::SimdAesimc => inv_mix_byte(a, e) as u64,
        _ => 0,
    }
}

/// The destination register value: each of the first `lane_count` lanes
/// from `lane_value`, every other byte zero. Opaque, to keep proofs about
/// whole instructions small; `reveal(lanes_result)` exposes it.
#[verifier::opaque]
pub open spec fn lanes_result(
    i: Instr,
    a: Seq<u8>,
    b: Seq<u8>,
    c: Seq<u8>,
    d: Seq<u8>,
    x: u64,
) -> u128 {
    vvalue(
        fill(
            zero16(),
            lane_size(i),
            lane_count(i),
            |e: nat| true,
            |e: nat| lane_value(i, a, b, c, d, x, e),
        ),
    )
}

/// Whether the unsigned saturating subtract clipped its result.
pub open spec fn uqsub_saturates(s: CpuState, i: Instr) -> bool {
    elem(vbytes(s.simd[i.rn as int]), 0, i.size as nat) < elem(
        vbytes(s.simd[i.rm as int]),
        0,
        i.size as nat,
    )
}

pub open spec fn simd_data_step(s: CpuState, i: Instr) -> CpuState {
    if i.op == Opcode::SimdUmov {
        s.set_reg(i.rd, elem(vbytes(s.simd[i.rn as int]), i.imm as nat, i.size as nat), i.sf)
    } else {
        let s1 = s.set_simd(
            i.rd as int,
            lanes_result(
                i,
                first_source(s, i),
                vbytes(s.simd[i.rm as int]),
                third_source(s, i),
                vbytes(s.simd[i.rd as int]),
                s.reg(i.rn, true),
            ),
        );
        if i.op == Opcode::SimdUqsub && uqsub_saturates(s, i) {
            s1.set_sys(SystemRegisters { fpsr: s1.sys.fpsr | FPSR_QC, ..s1.sys })
        } else {
            s1
        }
    }
}

/// Register numbers, lane sizes, shift amounts and lane indices in range.
pub open spec fn simd_data_wf(i: Instr) -> bool {
    let es = lane_size(i);
    let op = i.op;
    &&& i.rd < 32
    &&& i.rn < 32
    &&& i.rm < 32
    &&& valid_esize(es)
    &&& es <= vlen(i)
    &&& op == Opcode::SimdMul ==> es <= 4
    &&& (op == Opcode::SimdXtn || op == Opcode::SimdShrn || op == Opcode::SimdAddv) ==> es <= 4
    &&& op == Opcode::SimdShrn ==> 1 <= i.imm <= 8 * es
    &&& (op == Opcode::SimdUshr || op == Opcode::SimdSri) ==> 1 <= i.imm <= 8 * es
    &&& (op == Opcode::SimdShl || op == Opcode::SimdSli) ==> i.imm < 8 * es
    &&& op == Opcode::SimdXar ==> i.imm < 64
    &&& (op == Opcode::SimdUminp || op == Opcode::SimdAddp || op == Opcode::SimdUzp1 || op
        == Opcode::SimdZip1 || op == Opcode::SimdZip2) ==> es < vlen(i)
    &&& op == Opcode::SimdExt ==> i.imm < vlen(i)
    &&& op == Opcode::SimdTbl ==> 1 <= i.imm <= 4
    &&& op == Opcode::SimdRev32 ==> es <= 2
    &&& op == Opcode::SimdRev64 ==> es <= 4
    &&& op == Opcode::SimdFneg ==> es >= 2
    &&& (op == Opcode::SimdDupElem || op == Opcode::SimdInsGpr || op == Opcode::SimdUmov) ==> i.imm
        < per(16, es)
    &&& op == Opcode::SimdIns ==> i.imm < per(16, es) && (i.cond as nat) < per(16, es)
    &&& (op == Opcode::SimdEor3 || op == Opcode::SimdBcax) ==> i.cond < 32
    &&& (op == Opcode::SimdEor3 || op == Opcode::SimdBcax || op == Opcode::SimdRax1 || op
        == Opcode::SimdXar || op == Opcode::SimdAese || op == Opcode::SimdAesd || op
        == Opcode::SimdAesmc || op == Opcode::SimdAesimc) ==> i.sf
}


/// A lane of `es` bytes with index below `per(n, es)` ends inside `n`
/// bytes.
proof fn lemma_lane_fits(e: nat, es: nat, n: nat)
    requires
        valid_esize(es),
        e < per(n, es),
    ensures
        e * es + es <= n,
{
    assert(e * es + es <= n) by (nonlinear_arith)
        requires
            valid_esize(es),
            e < per(n, es),
    ;
}

/// The two lanes a pairwise operation reads for result lane `e`.
proof fn lemma_pair_fits(e: nat, es: nat, n: nat)
    requires
        e * es + es <= n,
    ensures
        (2 * e) * es + es <= 2 * n,
        (2 * e + 1) * es + es <= 2 * n,
{
    assert((2 * e) * es + es <= 2 * n && (2 * e + 1) * es + es <= 2 * n) by (nonlinear_arith)
        requires
            e * es + es <= n,
    ;
}

fn per_exec(bytes: usize, es: usize) -> (r: usize)
    ensures
        r == per(bytes as nat, es as nat),
{
    if es == 1 {
        bytes
    } else if es == 2 {
        bytes / 2
    } else if es == 4 {
        bytes / 4
    } else {
        bytes / 8
    }
}

fn vlen_exec(i: &Instr) -> (r: usize)
    ensures
        r == vlen(*i),
{
    if i.sf {
        16
    } else {
        8
    }
}

fn lane_size_exec(i: &Instr) -> (r: usize)
    ensures
        r == lane_size(*i),
{
    match i.op {
        Opcode::SimdAnd | Opcode::SimdOrr | Opcode::SimdBic | Opcode::SimdBsl | Opcode::SimdBit
        | Opcode::SimdBif | Opcode::SimdEor3 | Opcode::SimdBcax | Opcode::SimdRax1
        | Opcode::SimdXar => 8,
        Opcode::SimdCnt | Opcode::SimdExt | Opcode::SimdTbl | Opcode::SimdAese | Opcode::SimdAesd
        | Opcode::SimdAesmc | Opcode::SimdAesimc => 1,
        _ => i.size as usize,
    }
}

fn lane_count_exec(i: &Instr) -> (r: usize)
    requires
        simd_data_wf(*i),
    ensures
        r == lane_count(*i),
{
    let es = lane_size_exec(i);
    match i.op {
        Opcode::SimdUqsub | Opcode::SimdAddv | Opcode::SimdFmovFromGpr => 1,
        Opcode::SimdIns | Opcode::SimdInsGpr => per_exec(16, es),
        _ => per_exec(vlen_exec(i), es),
    }
}

/// The table registers of TBL.
fn table_exec(cpu: &Armv8Cpu, first: u8, count: usize) -> (r: Vec<u8>)
    requires
        cpu.wf(),
        count <= 4,
    ensures
        r@ == table(cpu@, first, count as nat),
        r@.len() == 16 * count,
{
    let mut r: Vec<u8> = Vec::new();
    let mut k: usize = 0;
    while k < count
        invariant
            cpu.wf(),
            k <= count <= 4,
            r@ == table(cpu@, first, k as nat),
            r@.len() == 16 * k,
        decreases count - k,
    {
        let reg = ((first as usize + k) % 32) as usize;
        assert(reg as int == ((first + (k + 1) as nat - 1) % 32));
        let bytes = to_bytes(cpu.simd[reg]);
        let ghost before = r@;
        let mut j: usize = 0;
        while j < 16
            invariant
                j <= 16,
                bytes@.len() == 16,
                r@ =~= before + bytes@.subrange(0, j as int),
            decreases 16 - j,
        {
            r.push(bytes[j]);
            j = j + 1;
        }
        assert(bytes@.subrange(0, 16) =~= bytes@);
        k = k + 1;
    }
    r
}

/// The first source, as `first_source` describes it.
fn first_source_exec(cpu: &Armv8Cpu, i: &Instr) -> (r: Vec<u8>)
    requires
        cpu.wf(),
        simd_data_wf(*i),
    ensures
        r@ == first_source(cpu@, *i),
        r@.len() == (if reads_pair(i.op) {
            2 * vlen(*i)
        } else if i.op == Opcode::SimdTbl {
            (16 * i.imm) as nat
        } else {
            16
        }),
{
    if i.op == Opcode::SimdUminp || i.op == Opcode::SimdAddp || i.op == Opcode::SimdUzp1 || i.op
        == Opcode::SimdExt {
        let a = to_bytes(cpu.simd[i.rn as usize]);
        let b = to_bytes(cpu.simd[i.rm as usize]);
        halves_exec(&a, &b, vlen_exec(i))
    } else if i.op == Opcode::SimdTbl {
        table_exec(cpu, i.rn, i.imm as usize)
    } else {
        to_bytes(cpu.simd[i.rn as usize])
    }
}

fn third_source_exec(cpu: &Armv8Cpu, i: &Instr) -> (r: Vec<u8>)
    requires
        cpu.wf(),
    ensures
        r@ == third_source(cpu@, *i),
        r@.len() == 16,
{
    if i.cond < 32 {
        to_bytes(cpu.simd[i.cond as usize])
    } else {
        zero16_exec()
    }
}

/// Lanes of the bitwise and SHA-3 operations.
fn bitwise_lane(i: &Instr, a: &Vec<u8>, b: &Vec<u8>, c: &Vec<u8>, d: &Vec<u8>, e: usize) -> (r:
    u64)
    requires
        is_bitwise(i.op),
        simd_data_wf(*i),
        a@.len() == 16,
        b@.len() == 16,
        c@.len() == 16,
        d@.len() == 16,
        e < lane_count(*i),
    ensures
        forall|x: u64| r == lane_value(*i, a@, b@, c@, d@, x, e as nat),
{
    let va = lane(a, e, 8);
    let vb = lane(b, e, 8);
    let vd = lane(d, e, 8);
    match i.op {
        Opcode::SimdAnd => va & vb,
        Opcode::SimdOrr => va | vb,
        Opcode::SimdBic => va & !vb,
        Opcode::SimdBsl => (vd & va) | (!vd & vb),
        Opcode::SimdBit => (vd & !vb) | (va & vb),
        Opcode::SimdBif => (vd & vb) | (va & !vb),
        Opcode::SimdEor3 => va ^ vb ^ lane(c, e, 8),
        Opcode::SimdBcax => va ^ (vb & !lane(c, e, 8)),
        Opcode::SimdRax1 => va ^ ((vb << 1u64) | (vb >> 63u64)),
        _ => rotate_right_exec(va ^ vb, i.imm),
    }
}

fn bit_count_exec(b: u8) -> (r: u64)
    ensures
        r == bit_count(b, 8),
{
    proof {
        lemma_bit_count_bound(b, 8);
    }
    let mut acc: u64 = 0;
    let mut y: u8 = b;
    let mut k: usize = 8;
    while k > 0
        invariant
            k <= 8,
            acc <= 8 - k,
            acc + bit_count(y, k as nat) == bit_count(b, 8),
            bit_count(y, k as nat) <= k,
        decreases k,
    {
        proof {
            lemma_bit_count_bound(y / 2, (k - 1) as nat);
        }
        acc = acc + (y % 2) as u64;
        y = y / 2;
        k = k - 1;
    }
    acc
}

/// Lanes of the lane-by-lane arithmetic, compares and shifts.
fn arith_lane(i: &Instr, a: &Vec<u8>, b: &Vec<u8>, d: &Vec<u8>, e: usize) -> (r: u64)
    requires
        simd_data_wf(*i),
        !is_bitwise(i.op),
        !is_bytewise(i.op) || i.op == Opcode::SimdCnt,
        a@.len() == 16,
        b@.len() == 16,
        d@.len() == 16,
        e < lane_count(*i),
        lane_count(*i) == per(vlen(*i), lane_size(*i)) || lane_count(*i) == 1,
        match i.op {
            Opcode::SimdAdd | Opcode::SimdSub | Opcode::SimdMul | Opcode::SimdCmeq
            | Opcode::SimdCmtst | Opcode::SimdCmeqZero | Opcode::SimdUshl | Opcode::SimdCnt
            | Opcode::SimdFneg | Opcode::SimdUshr | Opcode::SimdShl | Opcode::SimdSli
            | Opcode::SimdSri | Opcode::SimdBicImm | Opcode::SimdUqsub => true,
            _ => false,
        },
    ensures
        forall|c: Seq<u8>, x: u64| r == lane_value(*i, a@, b@, c, d@, x, e as nat),
{
    let es = lane_size_exec(i);
    proof {
        if lane_count(*i) != 1 {
            lemma_lane_fits(e as nat, es as nat, vlen(*i));
        }
    }
    let va = lane(a, e, es);
    let vb = lane(b, e, es);
    let vd = lane(d, e, es);
    proof {
        lemma_elem_bound(a@, e as nat, es as nat);
        crate::le_bytes::lemma_pow256_values();
    }
    let m = access_mask_of(es as u8);
    match i.op {
        Opcode::SimdAdd => va.wrapping_add(vb),
        Opcode::SimdSub => va.wrapping_sub(vb),
        Opcode::SimdMul => va.wrapping_mul(vb),
        Opcode::SimdCmeq => if va == vb {
            m
        } else {
            0
        },
        Opcode::SimdCmtst => if va & vb != 0 {
            m
        } else {
            0
        },
        Opcode::SimdCmeqZero => if va == 0 {
            m
        } else {
            0
        },
        Opcode::SimdUshl => {
            let amount = vb % 256;
            if amount < 128 {
                if amount >= 8 * es as u64 {
                    0
                } else {
                    va << amount
                }
            } else {
                let r = 256 - amount;
                if r >= 8 * es as u64 {
                    0
                } else {
                    va >> r
                }
            }
        },
        Opcode::SimdCnt => bit_count_exec(va as u8),
        Opcode::SimdFneg => va ^ (1u64 << (8 * es as u64 - 1)),
        Opcode::SimdUshr => if i.imm >= 8 * es as u64 {
            0
        } else {
            va >> i.imm
        },
        Opcode::SimdShl => va << i.imm,
        Opcode::SimdSli => {
            let low = if i.imm == 0 {
                0
            } else {
                u64::MAX >> (64 - i.imm)
            };
            (va << i.imm) | (vd & low)
        },
        Opcode::SimdSri => if i.imm >= 8 * es as u64 {
            vd
        } else {
            (va >> i.imm) | (vd & !(m >> i.imm))
        },
        Opcode::SimdBicImm => vd & !i.imm,
        _ => if va >= vb {
            va - vb
        } else {
            0
        },
    }
}


/// A reversed lane stays inside its container, and so inside the register.
proof fn lemma_reversed_fits(e: nat, g: nat, n: nat)
    requires
        g == 2 || g == 4 || g == 8,
        n % g == 0,
        e < n,
    ensures
        reversed_lane(e, g) < n,
{
}

fn reversed_lane_exec(e: usize, g: usize) -> (r: usize)
    requires
        e < 16,
    ensures
        r == reversed_lane(e as nat, g as nat),
{
    if g == 2 {
        (e / 2) * 2 + (1 - e % 2)
    } else if g == 4 {
        (e / 4) * 4 + (3 - e % 4)
    } else {
        (e / 8) * 8 + (7 - e % 8)
    }
}

/// The sum of the first `n` (at most 16) lanes of at most 4 bytes.
fn lane_sum_exec(a: &Vec<u8>, es: usize, n: usize) -> (r: u64)
    requires
        1 <= es <= 4,
        n <= 16,
        n * es <= a@.len(),
    ensures
        r == lane_sum(a@, es as nat, n as nat),
{
    let mut acc: u64 = 0;
    let mut k: usize = 0;
    while k < n
        invariant
            1 <= es <= 4,
            k <= n <= 16,
            n * es <= a@.len(),
            acc == lane_sum(a@, es as nat, k as nat),
            acc <= k * 0x1_0000_0000,
        decreases n - k,
    {
        proof {
            assert(k * es + es <= n * es) by (nonlinear_arith)
                requires
                    k < n,
            ;
            lemma_elem_bound(a@, k as nat, es as nat);
            crate::le_bytes::lemma_pow256_mono(es as nat, 4);
            crate::le_bytes::lemma_pow256_values();
        }
        let v = lane(a, k, es);
        acc = acc + v;
        k = k + 1;
    }
    acc
}

/// Lanes of the pairwise operations, UZP1 and EXT, which read the first
/// halves of both sources one after the other.
fn pair_lane(i: &Instr, a: &Vec<u8>, e: usize) -> (r: u64)
    requires
        simd_data_wf(*i),
        reads_pair(i.op),
        a@.len() == 2 * vlen(*i),
        e < lane_count(*i),
    ensures
        forall|b: Seq<u8>, c: Seq<u8>, d: Seq<u8>, x: u64| r == lane_value(
            *i,
            a@,
            b,
            c,
            d,
            x,
            e as nat,
        ),
{
    let es = lane_size_exec(i);
    let n = vlen_exec(i);
    if i.op == Opcode::SimdExt {
        return lane(a, e + i.imm as usize, 1);
    }
    proof {
        lemma_lane_fits(e as nat, es as nat, n as nat);
        lemma_pair_fits(e as nat, es as nat, n as nat);
    }
    let p = lane(a, 2 * e, es);
    if i.op == Opcode::SimdUzp1 {
        p
    } else {
        let q = lane(a, 2 * e + 1, es);
        if i.op == Opcode::SimdAddp {
            p.wrapping_add(q)
        } else if p <= q {
            p
        } else {
            q
        }
    }
}

/// Lanes of ZIP1, ZIP2, TBL, REV32 and REV64.
fn shuffle_lane(i: &Instr, a: &Vec<u8>, b: &Vec<u8>, e: usize) -> (r: u64)
    requires
        simd_data_wf(*i),
        i.op == Opcode::SimdZip1 || i.op == Opcode::SimdZip2 || i.op == Opcode::SimdTbl || i.op
            == Opcode::SimdRev32 || i.op == Opcode::SimdRev64,
        a@.len() == (if i.op == Opcode::SimdTbl {
            (16 * i.imm) as nat
        } else {
            16
        }),
        b@.len() == 16,
        e < lane_count(*i),
    ensures
        forall|c: Seq<u8>, d: Seq<u8>, x: u64| r == lane_value(*i, a@, b@, c, d, x, e as nat),
{
    let es = lane_size_exec(i);
    let n = vlen_exec(i);
    if i.op == Opcode::SimdZip1 || i.op == Opcode::SimdZip2 {
        let h = if i.op == Opcode::SimdZip2 {
            lane_count_exec(i) / 2
        } else {
            0
        };
        let j = h + e / 2;
        proof {
            lemma_lane_fits(j as nat, es as nat, n as nat);
        }
        if e % 2 == 0 {
            lane(a, j, es)
        } else {
            lane(b, j, es)
        }
    } else if i.op == Opcode::SimdTbl {
        let k = lane(b, e, 1);
        if k < a.len() as u64 {
            a[k as usize] as u64
        } else {
            0
        }
    } else {
        let g = if i.op == Opcode::SimdRev32 {
            per_exec(4, es)
        } else {
            per_exec(8, es)
        };
        let j = reversed_lane_exec(e, g);
        proof {
            assert((g == 2 || g == 4 || g == 8) && per(n as nat, es as nat) % (g as nat) == 0
                && e < per(n as nat, es as nat));
            lemma_reversed_fits(e as nat, g as nat, per(n as nat, es as nat));
            lemma_lane_fits(j as nat, es as nat, n as nat);
        }
        lane(a, j, es)
    }
}

/// Lanes of DUP, INS and FMOV from a general register.
fn insert_lane(i: &Instr, a: &Vec<u8>, d: &Vec<u8>, x: u64, e: usize) -> (r: u64)
    requires
        simd_data_wf(*i),
        i.op == Opcode::SimdDupElem || i.op == Opcode::SimdDupGpr || i.op
            == Opcode::SimdFmovFromGpr || i.op == Opcode::SimdIns || i.op == Opcode::SimdInsGpr,
        a@.len() == 16,
        d@.len() == 16,
        e < lane_count(*i),
    ensures
        forall|b: Seq<u8>, c: Seq<u8>| r == lane_value(*i, a@, b, c, d@, x, e as nat),
{
    let es = lane_size_exec(i);
    if i.op == Opcode::SimdDupElem {
        proof {
            lemma_lane_fits(i.imm as nat, es as nat, 16);
        }
        lane(a, i.imm as usize, es)
    } else if i.op == Opcode::SimdDupGpr || i.op == Opcode::SimdFmovFromGpr {
        x
    } else {
        proof {
            lemma_lane_fits(e as nat, es as nat, 16);
        }
        if e as u64 == i.imm {
            if i.op == Opcode::SimdIns {
                proof {
                    lemma_lane_fits(i.cond as nat, es as nat, 16);
                }
                lane(a, i.cond as usize, es)
            } else {
                x
            }
        } else {
            lane(d, e, es)
        }
    }
}

/// Lanes of XTN and SHRN, and the sum of ADDV.
fn narrow_or_sum_lane(i: &Instr, a: &Vec<u8>, d: &Vec<u8>, e: usize) -> (r: u64)
    requires
        simd_data_wf(*i),
        i.op == Opcode::SimdXtn || i.op == Opcode::SimdShrn || i.op == Opcode::SimdAddv,
        a@.len() == 16,
        d@.len() == 16,
        e < lane_count(*i),
    ensures
        forall|b: Seq<u8>, c: Seq<u8>, x: u64| r == lane_value(*i, a@, b, c, d@, x, e as nat),
{
    let es = lane_size_exec(i);
    let n = vlen_exec(i);
    if i.op == Opcode::SimdAddv {
        let k = per_exec(n, es);
        proof {
            assert(k * es <= 16) by (nonlinear_arith)
                requires
                    valid_esize(es as nat),
                    k == per(n as nat, es as nat),
                    n <= 16,
            ;
        }
        return lane_sum_exec(a, es, k);
    }
    let sh = if i.op == Opcode::SimdShrn {
        i.imm
    } else {
        0
    };
    let h = per_exec(8, es);
    proof {
        lemma_lane_fits(e as nat, es as nat, n as nat);
    }
    if i.sf && e < h {
        lane(d, e, es)
    } else {
        let j = if i.sf {
            e - h
        } else {
            e
        };
        assert(j * (2 * es) + 2 * es <= 16) by (nonlinear_arith)
            requires
                es == 1 || es == 2 || es == 4,
                h == per(8, es as nat),
                e < per(n as nat, es as nat),
                n == 8 || n == 16,
                i.sf == (n == 16),
                j == (if i.sf {
                    e - h
                } else {
                    e as int
                }),
                !(i.sf && e < h),
        ;
        lane(a, j, 2 * es) >> sh
    }
}

/// Lanes of the AES round steps.
fn aes_lane(i: &Instr, a: &Vec<u8>, d: &Vec<u8>, e: usize) -> (r: u64)
    requires
        i.op == Opcode::SimdAese || i.op == Opcode::SimdAesd || i.op == Opcode::SimdAesmc || i.op
            == Opcode::SimdAesimc,
        a@.len() == 16,
        d@.len() == 16,
        e < 16,
    ensures
        forall|b: Seq<u8>, c: Seq<u8>, x: u64| r == lane_value(*i, a@, b, c, d@, x, e as nat),
{
    match i.op {
        Opcode::SimdAese => {
            let j = shift_rows_src_exec(e);
            sbox_exec(d[j] ^ a[j]) as u64
        },
        Opcode::SimdAesd => {
            let j = inv_shift_rows_src_exec(e);
            inv_sbox_exec(d[j] ^ a[j]) as u64
        },
        Opcode::SimdAesmc => mix_byte_exec(a, e) as u64,
        _ => inv_mix_byte_exec(a, e) as u64,
    }
}

/// Result lane `e` of `i`.
fn lane_exec(
    i: &Instr,
    a: &Vec<u8>,
    b: &Vec<u8>,
    c: &Vec<u8>,
    d: &Vec<u8>,
    x: u64,
    e: usize,
) -> (r: u64)
    requires
        is_simd_data_op(i.op),
        i.op != Opcode::SimdUmov,
        simd_data_wf(*i),
        a@.len() == (if reads_pair(i.op) {
            2 * vlen(*i)
        } else if i.op == Opcode::SimdTbl {
            (16 * i.imm) as nat
        } else {
            16
        }),
        b@.len() == 16,
        c@.len() == 16,
        d@.len() == 16,
        e < lane_count(*i),
    ensures
        r == lane_value(*i, a@, b@, c@, d@, x, e as nat),
{
    match i.op {
        Opcode::SimdAnd | Opcode::SimdOrr | Opcode::SimdBic | Opcode::SimdBsl | Opcode::SimdBit
        | Opcode::SimdBif | Opcode::SimdEor3 | Opcode::SimdBcax | Opcode::SimdRax1
        | Opcode::SimdXar => bitwise_lane(i, a, b, c, d, e),
        Opcode::SimdAese | Opcode::SimdAesd | Opcode::SimdAesmc | Opcode::SimdAesimc => aes_lane(
            i,
            a,
            d,
            e,
        ),
        Opcode::SimdAdd | Opcode::SimdSub | Opcode::SimdMul | Opcode::SimdCmeq
        | Opcode::SimdCmtst | Opcode::SimdCmeqZero | Opcode::SimdUshl | Opcode::SimdCnt
        | Opcode::SimdFneg | Opcode::SimdUshr | Opcode::SimdShl | Opcode::SimdSli
        | Opcode::SimdSri | Opcode::SimdBicImm | Opcode::SimdUqsub => arith_lane(i, a, b, d, e),
        Opcode::SimdUminp | Opcode::SimdAddp | Opcode::SimdUzp1 | Opcode::SimdExt => pair_lane(
            i,
            a,
            e,
        ),
        Opcode::SimdZip1 | Opcode::SimdZip2 | Opcode::SimdTbl | Opcode::SimdRev32
        | Opcode::SimdRev64 => shuffle_lane(i, a, b, e),
        Opcode::SimdDupElem | Opcode::SimdDupGpr | Opcode::SimdFmovFromGpr | Opcode::SimdIns
        | Opcode::SimdInsGpr => insert_lane(i, a, d, x, e),
        _ => narrow_or_sum_lane(i, a, d, e),
    }
}

/// Execute an Advanced SIMD data-processing instruction.
pub fn exec_simd_data(cpu: &mut Armv8Cpu, i: Instr)
    requires
        old(cpu).wf(),
        is_simd_data_op(i.op),
        simd_data_wf(i),
    ensures
        final(cpu).wf(),
        final(cpu)@ == simd_data_step(old(cpu)@, i),
{
    let es = lane_size_exec(&i);
    if i.op == Opcode::SimdUmov {
        let src = to_bytes(cpu.simd[i.rn as usize]);
        proof {
            lemma_lane_fits(i.imm as nat, es as nat, 16);
        }
        let v = lane(&src, i.imm as usize, es);
        write_reg(cpu, i.rd, v, i.sf);
        return;
    }
    let ghost s = cpu@;
    let a = first_source_exec(cpu, &i);
    let b = to_bytes(cpu.simd[i.rm as usize]);
    let c = third_source_exec(cpu, &i);
    let d = to_bytes(cpu.simd[i.rd as usize]);
    let x = read_reg(cpu, i.rn, true);
    let n = lane_count_exec(&i);
    let ghost sel = |e: nat| true;
    let ghost f = |e: nat| lane_value(i, a@, b@, c@, d@, x, e);
    let mut r = zero16_exec();
    let mut e: usize = 0;
    while e < n
        invariant
            is_simd_data_op(i.op),
            i.op != Opcode::SimdUmov,
            simd_data_wf(i),
            es == lane_size(i),
            n == lane_count(i),
            e <= n,
            a@.len() == (if reads_pair(i.op) {
                2 * vlen(i)
            } else if i.op == Opcode::SimdTbl {
                (16 * i.imm) as nat
            } else {
                16
            }),
            b@.len() == 16,
            c@.len() == 16,
            d@.len() == 16,
            sel == (|e: nat| true),
            f == (|e: nat| lane_value(i, a@, b@, c@, d@, x, e)),
            r@.len() == 16,
            r@ == fill(zero16(), es as nat, e as nat, sel, f),
        decreases n - e,
    {
        proof {
            if i.op == Opcode::SimdIns || i.op == Opcode::SimdInsGpr {
                lemma_lane_fits(e as nat, es as nat, 16);
            } else if n != 1 {
                lemma_lane_fits(e as nat, es as nat, vlen(i));
            }
        }
        let v = lane_exec(&i, &a, &b, &c, &d, x, e);
        let ghost prev = r@;
        set_lane(&mut r, e, es, v);
        assert(fill(zero16(), es as nat, (e + 1) as nat, sel, f) == with_elem(
            prev,
            e as nat,
            es as nat,
            f(e as nat),
        ));
        e = e + 1;
    }
    let result = from_bytes(&r);
    let saturated = if i.op == Opcode::SimdUqsub {
        lane(&a, 0, es) < lane(&b, 0, es)
    } else {
        false
    };
    cpu.simd.set(i.rd as usize, result);
    if saturated {
        cpu.sys.fpsr = cpu.sys.fpsr | FPSR_QC;
    }
    assert(result == lanes_result(i, a@, b@, c@, d@, x)) by {
        reveal(lanes_result);
    }
}

} // verus!
