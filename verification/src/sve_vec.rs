//! SVE element-wise vector operations: integer add and subtract, bitwise
//! logic, shifts by an immediate, moves, selects, sign-bit floating-point
//! abs / neg, the FEXPA exponential accelerator and the floating-point
//! immediate broadcasts FDUP / FCPY.
use vstd::prelude::*;
use crate::cpu::{read_base, Armv8Cpu, CpuState, PREG_COUNT, SVE_MAX_VL_BYTES, VREG_COUNT};
use crate::exclusive::{access_mask, access_mask_of};
use crate::instr::{Instr, Opcode};
use crate::sve::{
    copy_z, elem, fill, lemma_elem_in_vector, pred_at, pred_elem, set_elem, valid_esize, write_z,
    z_elem, zero_vector, zero_vector_exec,
};

verus! {

pub open spec fn is_sve_vec_op(op: Opcode) -> bool {
    match op {
        Opcode::SveAddImm | Opcode::SveSubImm | Opcode::SveAddPred | Opcode::SveSubPred
        | Opcode::SveAndPred | Opcode::SveOrrPred | Opcode::SveEorPred | Opcode::SveAsrImm
        | Opcode::SveLsrImm | Opcode::SveLslImm | Opcode::SveMovprfx | Opcode::SveDupGpr
        | Opcode::SveAddVec | Opcode::SveSubVec | Opcode::SveOrrVec | Opcode::SveEorVec
        | Opcode::SveSel | Opcode::SveFpAbs | Opcode::SveFpNeg | Opcode::SveFpFexpa
        | Opcode::SveFpDupImm | Opcode::SveFpCpyImm => true,
        _ => false,
    }
}

/// `cond` value of the unpredicated forms.
pub const NO_PREDICATE: u8 = 0xFF;

pub open spec fn is_shift_imm(op: Opcode) -> bool {
    op == Opcode::SveAsrImm || op == Opcode::SveLsrImm || op == Opcode::SveLslImm
}

pub open spec fn is_merging_pred_op(op: Opcode) -> bool {
    match op {
        Opcode::SveAddPred | Opcode::SveSubPred | Opcode::SveAndPred | Opcode::SveOrrPred
        | Opcode::SveEorPred => true,
        _ => false,
    }
}

/// Logical right shift of an `es`-byte element by `sh` bits.
pub open spec fn lsr_elem(v: u64, sh: u64, es: nat) -> u64 {
    if sh >= 8 * es {
        0
    } else {
        (v & access_mask(es as u8)) >> sh
    }
}

/// Arithmetic right shift of an `es`-byte element by `sh` bits: the bits
/// shifted in copy the element's sign bit.
pub open spec fn asr_elem(v: u64, sh: u64, es: nat) -> u64 {
    let m = access_mask(es as u8);
    let negative = v & (1u64 << ((8 * es - 1) as u64)) != 0;
    if sh >= 8 * es {
        if negative {
            m
        } else {
            0
        }
    } else if !negative {
        (v & m) >> sh
    } else {
        ((v & m) >> sh) | (m ^ (m >> sh))
    }
}

/// Left shift of an `es`-byte element (the amount taken modulo 64).
pub open spec fn lsl_elem(v: u64, sh: u64, es: nat) -> u64 {
    (v << (sh % 64)) & access_mask(es as u8)
}

/// The sign bit of an `es`-byte floating-point element.
pub open spec fn fp_sign(es: nat) -> u64 {
    1u64 << ((8 * es - 1) as u64)
}

/// The FEXPA coefficient tables: the fraction bits of 2^(i/32) (half
/// precision) and 2^(i/64) (single and double precision).
pub open spec fn fexpa_table_h() -> Seq<u64> {
    seq![
        0x000, 0x016, 0x02d, 0x045, 0x05d, 0x075, 0x08e, 0x0a8, 0x0c2, 0x0dc, 0x0f8, 0x114, 0x130,
        0x14d, 0x16b, 0x189, 0x1a8, 0x1c8, 0x1e8, 0x209, 0x22b, 0x24e, 0x271, 0x295, 0x2ba,
        0x2e0, 0x306, 0x32e, 0x356, 0x37f, 0x3a9, 0x3d4,
    ]
}

pub open spec fn fexpa_table_s() -> Seq<u64> {
    seq![
        0x000000, 0x0164d2, 0x02cd87, 0x043a29, 0x05aac3, 0x071f62, 0x08980f, 0x0a14d5, 0x0b95c2,
        0x0d1adf, 0x0ea43a, 0x1031dc, 0x11c3d3, 0x135a2b, 0x14f4f0, 0x16942d, 0x1837f0,
        0x19e046, 0x1b8d3a, 0x1d3eda, 0x1ef532, 0x20b051, 0x227043, 0x243516, 0x25fed7,
        0x27cd94, 0x29a15b, 0x2b7a3a, 0x2d583f, 0x2f3b79, 0x3123f6, 0x3311c4, 0x3504f3,
        0x36fd92, 0x38fbaf, 0x3aff5b, 0x3d08a4, 0x3f179a, 0x412c4d, 0x4346cd, 0x45672a,
        0x478d75, 0x49b9be, 0x4bec15, 0x4e248c, 0x506334, 0x52a81e, 0x54f35b, 0x5744fd,
        0x599d16, 0x5bfbb8, 0x5e60f5, 0x60ccdf, 0x633f89, 0x65b907, 0x68396a, 0x6ac0c7,
        0x6d4f30, 0x6fe4ba, 0x728177, 0x75257d, 0x77d0df, 0x7a83b3, 0x7d3e0c,
    ]
}

pub open spec fn fexpa_table_d() -> Seq<u64> {
    seq![
        0x0000000000000, 0x02c9a3e778061, 0x059b0d3158574, 0x0874518759bc8, 0x0b5586cf9890f,
        0x0e3ec32d3d1a2, 0x11301d0125b51, 0x1429aaea92de0, 0x172b83c7d517b, 0x1a35beb6fcb75,
        0x1d4873168b9aa, 0x2063b88628cd6, 0x2387a6e756238, 0x26b4565e27cdd, 0x29e9df51fdee1,
        0x2d285a6e4030b, 0x306fe0a31b715, 0x33c08b26416ff, 0x371a7373aa9cb, 0x3a7db34e59ff7,
        0x3dea64c123422, 0x4160a21f72e2a, 0x44e086061892d, 0x486a2b5c13cd0, 0x4bfdad5362a27,
        0x4f9b2769d2ca7, 0x5342b569d4f82, 0x56f4736b527da, 0x5ab07dd485429, 0x5e76f15ad2148,
        0x6247eb03a5585, 0x6623882552225, 0x6a09e667f3bcd, 0x6dfb23c651a2f, 0x71f75e8ec5f74,
        0x75feb564267c9, 0x7a11473eb0187, 0x7e2f336cf4e62, 0x82589994cce13, 0x868d99b4492ed,
        0x8ace5422aa0db, 0x8f1ae99157736, 0x93737b0cdc5e5, 0x97d829fde4e50, 0x9c49182a3f090,
        0xa0c667b5de565, 0xa5503b23e255d, 0xa9e6b5579fdbf, 0xae89f995ad3ad, 0xb33a2b84f15fb,
        0xb7f76f2fb5e47, 0xbcc1e904bc1d2, 0xc199bdd85529c, 0xc67f12e57d14b, 0xcb720dcef9069,
        0xd072d4a07897c, 0xd5818dcfba487, 0xda9e603db3285, 0xdfc97337b9b5f, 0xe502ee78b3ff6,
        0xea4afa2a490da, 0xefa1bee615a27, 0xf50765b6e4540, 0xfa7c1819e90d8,
    ]
}

/// FEXPA of one element: the exponent field taken from the high bits of the
/// source, the fraction from the table entry its low bits select.
pub open spec fn fexpa_elem(v: u64, es: nat) -> u64 {
    if es == 2 {
        (((v >> 5u64) & 0x1f) << 10u64) | fexpa_table_h()[(v % 32) as int]
    } else if es == 4 {
        (((v >> 6u64) & 0xff) << 23u64) | fexpa_table_s()[(v % 64) as int]
    } else {
        (((v >> 6u64) & 0x7ff) << 52u64) | fexpa_table_d()[(v % 64) as int]
    }
}

/// The floating-point value of an 8-bit immediate in an `es`-byte element
/// (2, 4 or 8 bytes): the sign bit, an exponent made of the inverted bit 6,
/// bit 6 repeated and bits 5:4, and bits 3:0 as the top of the fraction.
pub open spec fn fp_expand_imm_spec(imm8: u8, es: nat) -> u64 {
    let sign = ((imm8 >> 7u8) & 1) as u64;
    let b6 = ((imm8 >> 6u8) & 1) as u64;
    let low_exp = ((imm8 >> 4u8) & 3) as u64;
    let frac = (imm8 & 0xF) as u64;
    if es == 2 {
        let rep: u64 = if b6 == 1 { 0x3 } else { 0 };
        (sign << 15u64) | ((b6 ^ 1) << 14u64) | (rep << 12u64) | (low_exp << 10u64) | (frac << 6u64)
    } else if es == 4 {
        let rep: u64 = if b6 == 1 { 0x1F } else { 0 };
        (sign << 31u64) | ((b6 ^ 1) << 30u64) | (rep << 25u64) | (low_exp << 23u64) | (frac << 19u64)
    } else {
        let rep: u64 = if b6 == 1 { 0xFF } else { 0 };
        (sign << 63u64) | ((b6 ^ 1) << 62u64) | (rep << 54u64) | (low_exp << 52u64) | (frac << 48u64)
    }
}

/// The vector an element-wise operation starts from: the first source for
/// merging predicated forms, the destination for the floating-point sign
/// operations and merging MOVPRFX, zeros otherwise.
pub open spec fn vec_base(s: CpuState, i: Instr) -> Seq<u8> {
    if is_merging_pred_op(i.op) || (is_shift_imm(i.op) && i.cond != NO_PREDICATE) {
        s.z[i.rn as int]
    } else if i.op == Opcode::SveFpAbs || i.op == Opcode::SveFpNeg || (i.op == Opcode::SveMovprfx
        && i.sf) {
        s.z[i.rd as int]
    } else {
        zero_vector()
    }
}

/// Whether element `e` is written.
pub open spec fn vec_sel(s: CpuState, i: Instr, e: nat) -> bool {
    if is_merging_pred_op(i.op) || i.op == Opcode::SveFpAbs || i.op == Opcode::SveFpNeg || i.op
        == Opcode::SveMovprfx || (is_shift_imm(i.op) && i.cond != NO_PREDICATE) {
        pred_elem(s.p[i.cond as int], e, i.size as nat)
    } else {
        true
    }
}

/// The value written to element `e`.
pub open spec fn vec_value(s: CpuState, i: Instr, e: nat) -> u64 {
    let es = i.size as nat;
    let m = access_mask(i.size);
    let a = elem(s.z[i.rn as int], e, es);
    let b = elem(s.z[i.rm as int], e, es);
    match i.op {
        Opcode::SveAddImm => a.wrapping_add(i.imm & m) & m,
        Opcode::SveSubImm => a.wrapping_sub(i.imm & m) & m,
        Opcode::SveAddPred | Opcode::SveAddVec => a.wrapping_add(b) & m,
        Opcode::SveSubPred | Opcode::SveSubVec => a.wrapping_sub(b) & m,
        Opcode::SveAndPred => a & b,
        Opcode::SveOrrPred => a | b,
        Opcode::SveEorPred => a ^ b,
        Opcode::SveLslImm => lsl_elem(a, i.imm, es),
        Opcode::SveLsrImm => lsr_elem(a, i.imm & 0xFFFF_FFFF, es),
        Opcode::SveAsrImm => asr_elem(a, i.imm & 0xFFFF_FFFF, es),
        Opcode::SveDupGpr => s.base(i.rn, true) & m,
        Opcode::SveSel => if pred_elem(s.p[i.cond as int], e, es) {
            a
        } else {
            b
        },
        Opcode::SveFpAbs => a & !fp_sign(es),
        Opcode::SveFpNeg => a ^ fp_sign(es),
        Opcode::SveFpFexpa => fexpa_elem(a, es),
        Opcode::SveFpDupImm | Opcode::SveFpCpyImm => fp_expand_imm_spec(i.imm as u8, es),
        _ => a,
    }
}

/// The first `vl` bytes of `f`, zeros after them.
pub open spec fn bytes_upto(vl: nat, f: spec_fn(int) -> u8) -> Seq<u8> {
    Seq::new(SVE_MAX_VL_BYTES as nat, |k: int| if k < vl { f(k) } else { 0u8 })
}

/// The forms that work byte by byte over the vector length: ORR and EOR
/// of two vectors, and the unpredicated MOVPRFX.
pub open spec fn is_bytewise(i: Instr) -> bool {
    i.op == Opcode::SveOrrVec || i.op == Opcode::SveEorVec || (i.op == Opcode::SveMovprfx && i.cond
        == NO_PREDICATE)
}

/// Byte `k` of a byte-wise result.
pub open spec fn byte_value(s: CpuState, i: Instr, k: int) -> u8 {
    let n = s.z[i.rn as int];
    let m = s.z[i.rm as int];
    if i.op == Opcode::SveOrrVec {
        n[k] | m[k]
    } else if i.op == Opcode::SveEorVec {
        n[k] ^ m[k]
    } else {
        n[k]
    }
}

pub open spec fn sve_vec_step(s: CpuState, i: Instr) -> CpuState {
    if is_bytewise(i) {
        s.set_z(i.rd as int, bytes_upto(s.vl as nat, |k: int| byte_value(s, i, k)))
    } else {
        let es = i.size as nat;
        s.set_z(
            i.rd as int,
            fill(
                vec_base(s, i),
                es,
                s.vl as nat / es,
                |e: nat| vec_sel(s, i, e),
                |e: nat| vec_value(s, i, e),
            ),
        )
    }
}

pub open spec fn sve_vec_wf(i: Instr) -> bool {
    &&& !is_bytewise(i) ==> valid_esize(i.size as nat)
    &&& i.rd < 32
    &&& i.rn < 32
    &&& i.rm < 32
    &&& (i.op == Opcode::SveMovprfx || is_shift_imm(i.op)) ==> (i.cond == NO_PREDICATE || i.cond
        < 16)
    &&& (is_merging_pred_op(i.op) || i.op == Opcode::SveSel || i.op == Opcode::SveFpAbs || i.op
        == Opcode::SveFpNeg) ==> i.cond < 16
    &&& (i.op == Opcode::SveFpFexpa || i.op == Opcode::SveFpDupImm || i.op
        == Opcode::SveFpCpyImm) ==> i.size != 1
}

fn fp_expand_imm(imm8: u8, es: usize) -> (r: u64)
    ensures
        r == fp_expand_imm_spec(imm8, es as nat),
{
    let sign = ((imm8 >> 7u8) & 1) as u64;
    let b6 = ((imm8 >> 6u8) & 1) as u64;
    let low_exp = ((imm8 >> 4u8) & 3) as u64;
    let frac = (imm8 & 0xF) as u64;
    if es == 2 {
        let rep: u64 = if b6 == 1 { 0x3 } else { 0 };
        (sign << 15u64) | ((b6 ^ 1) << 14u64) | (rep << 12u64) | (low_exp << 10u64) | (frac << 6u64)
    } else if es == 4 {
        let rep: u64 = if b6 == 1 { 0x1F } else { 0 };
        (sign << 31u64) | ((b6 ^ 1) << 30u64) | (rep << 25u64) | (low_exp << 23u64) | (frac << 19u64)
    } else {
        let rep: u64 = if b6 == 1 { 0xFF } else { 0 };
        (sign << 63u64) | ((b6 ^ 1) << 62u64) | (rep << 54u64) | (low_exp << 52u64) | (frac << 48u64)
    }
}

fn fexpa_coeff(es: usize, k: usize) -> (r: u64)
    requires
        es == 2 ==> k < 32,
        es != 2 ==> k < 64,
    ensures
        es == 2 ==> r == fexpa_table_h()[k as int],
        es == 4 ==> r == fexpa_table_s()[k as int],
        es != 2 && es != 4 ==> r == fexpa_table_d()[k as int],
{
    if es == 2 {
        let t: [u64; 32] = [
            0x000, 0x016, 0x02d, 0x045, 0x05d, 0x075, 0x08e, 0x0a8, 0x0c2, 0x0dc, 0x0f8, 0x114,
            0x130, 0x14d, 0x16b, 0x189, 0x1a8, 0x1c8, 0x1e8, 0x209, 0x22b, 0x24e, 0x271, 0x295,
            0x2ba, 0x2e0, 0x306, 0x32e, 0x356, 0x37f, 0x3a9, 0x3d4,
        ];
        assert(t@ =~= fexpa_table_h());
        t[k]
    } else if es == 4 {
        let t: [u64; 64] = [
            0x000000, 0x0164d2, 0x02cd87, 0x043a29, 0x05aac3, 0x071f62, 0x08980f, 0x0a14d5,
            0x0b95c2, 0x0d1adf, 0x0ea43a, 0x1031dc, 0x11c3d3, 0x135a2b, 0x14f4f0, 0x16942d,
            0x1837f0, 0x19e046, 0x1b8d3a, 0x1d3eda, 0x1ef532, 0x20b051, 0x227043, 0x243516,
            0x25fed7, 0x27cd94, 0x29a15b, 0x2b7a3a, 0x2d583f, 0x2f3b79, 0x3123f6, 0x3311c4,
            0x3504f3, 0x36fd92, 0x38fbaf, 0x3aff5b, 0x3d08a4, 0x3f179a, 0x412c4d, 0x4346cd,
            0x45672a, 0x478d75, 0x49b9be, 0x4bec15, 0x4e248c, 0x506334, 0x52a81e, 0x54f35b,
            0x5744fd, 0x599d16, 0x5bfbb8, 0x5e60f5, 0x60ccdf, 0x633f89, 0x65b907, 0x68396a,
            0x6ac0c7, 0x6d4f30, 0x6fe4ba, 0x728177, 0x75257d, 0x77d0df, 0x7a83b3, 0x7d3e0c,
        ];
        assert(t@ =~= fexpa_table_s());
        t[k]
    } else {
        let t: [u64; 64] = [
            0x0000000000000, 0x02c9a3e778061, 0x059b0d3158574, 0x0874518759bc8, 0x0b5586cf9890f,
            0x0e3ec32d3d1a2, 0x11301d0125b51, 0x1429aaea92de0, 0x172b83c7d517b, 0x1a35beb6fcb75,
            0x1d4873168b9aa, 0x2063b88628cd6, 0x2387a6e756238, 0x26b4565e27cdd, 0x29e9df51fdee1,
            0x2d285a6e4030b, 0x306fe0a31b715, 0x33c08b26416ff, 0x371a7373aa9cb, 0x3a7db34e59ff7,
            0x3dea64c123422, 0x4160a21f72e2a, 0x44e086061892d, 0x486a2b5c13cd0, 0x4bfdad5362a27,
            0x4f9b2769d2ca7, 0x5342b569d4f82, 0x56f4736b527da, 0x5ab07dd485429, 0x5e76f15ad2148,
            0x6247eb03a5585, 0x6623882552225, 0x6a09e667f3bcd, 0x6dfb23c651a2f, 0x71f75e8ec5f74,
            0x75feb564267c9, 0x7a11473eb0187, 0x7e2f336cf4e62, 0x82589994cce13, 0x868d99b4492ed,
            0x8ace5422aa0db, 0x8f1ae99157736, 0x93737b0cdc5e5, 0x97d829fde4e50, 0x9c49182a3f090,
            0xa0c667b5de565, 0xa5503b23e255d, 0xa9e6b5579fdbf, 0xae89f995ad3ad, 0xb33a2b84f15fb,
            0xb7f76f2fb5e47, 0xbcc1e904bc1d2, 0xc199bdd85529c, 0xc67f12e57d14b, 0xcb720dcef9069,
            0xd072d4a07897c, 0xd5818dcfba487, 0xda9e603db3285, 0xdfc97337b9b5f, 0xe502ee78b3ff6,
            0xea4afa2a490da, 0xefa1bee615a27, 0xf50765b6e4540, 0xfa7c1819e90d8,
        ];
        assert(t@ =~= fexpa_table_d());
        t[k]
    }
}

fn fexpa_exec(v: u64, es: usize) -> (r: u64)
    ensures
        r == fexpa_elem(v, es as nat),
{
    if es == 2 {
        (((v >> 5u64) & 0x1f) << 10u64) | fexpa_coeff(2, (v % 32) as usize)
    } else if es == 4 {
        (((v >> 6u64) & 0xff) << 23u64) | fexpa_coeff(4, (v % 64) as usize)
    } else {
        (((v >> 6u64) & 0x7ff) << 52u64) | fexpa_coeff(8, (v % 64) as usize)
    }
}

fn vec_value_exec(cpu: &Armv8Cpu, instr: Instr, e: usize) -> (r: u64)
    requires
        cpu.wf(),
        is_sve_vec_op(instr.op),
        sve_vec_wf(instr),
        !is_bytewise(instr),
        e * (instr.size as usize) + (instr.size as usize) <= SVE_MAX_VL_BYTES,
    ensures
        r == vec_value(cpu@, instr, e as nat),
{
    let es = instr.size as usize;
    let m = access_mask_of(instr.size);
    let a = z_elem(cpu, instr.rn as usize, e, es);
    let b = z_elem(cpu, instr.rm as usize, e, es);
    let sh = instr.imm & 0xFFFF_FFFF;
    let bits = 8 * es as u64;
    match instr.op {
        Opcode::SveAddImm => a.wrapping_add(instr.imm & m) & m,
        Opcode::SveSubImm => a.wrapping_sub(instr.imm & m) & m,
        Opcode::SveAddPred | Opcode::SveAddVec => a.wrapping_add(b) & m,
        Opcode::SveSubPred | Opcode::SveSubVec => a.wrapping_sub(b) & m,
        Opcode::SveAndPred => a & b,
        Opcode::SveOrrPred => a | b,
        Opcode::SveEorPred => a ^ b,
        Opcode::SveLslImm => (a << (instr.imm % 64)) & m,
        Opcode::SveLsrImm => if sh >= bits {
            0
        } else {
            (a & m) >> sh
        },
        Opcode::SveAsrImm => {
            let negative = a & (1u64 << (bits - 1)) != 0;
            if sh >= bits {
                if negative {
                    m
                } else {
                    0
                }
            } else if !negative {
                (a & m) >> sh
            } else {
                ((a & m) >> sh) | (m ^ (m >> sh))
            }
        },
        Opcode::SveDupGpr => read_base(cpu, instr.rn, true) & m,
        Opcode::SveSel => if pred_at(cpu, instr.cond as usize, e, es) {
            a
        } else {
            b
        },
        Opcode::SveFpAbs => a & !(1u64 << (bits - 1)),
        Opcode::SveFpNeg => a ^ (1u64 << (bits - 1)),
        Opcode::SveFpFexpa => fexpa_exec(a, es),
        Opcode::SveFpDupImm | Opcode::SveFpCpyImm => fp_expand_imm(instr.imm as u8, es),
        _ => a,
    }
}

/// Execute an element-wise SVE vector operation.
pub fn exec_sve_vec(cpu: &mut Armv8Cpu, instr: Instr)
    requires
        old(cpu).wf(),
        is_sve_vec_op(instr.op),
        sve_vec_wf(instr),
    ensures
        final(cpu).wf(),
        final(cpu)@ == sve_vec_step(old(cpu)@, instr),
{
    let vl = cpu.sve_vl_bytes;
    let rd = instr.rd as usize;
    let rn = instr.rn as usize;
    let rm = instr.rm as usize;
    if instr.op == Opcode::SveOrrVec || instr.op == Opcode::SveEorVec || (instr.op
        == Opcode::SveMovprfx && instr.cond == NO_PREDICATE) {
        let ghost s = cpu@;
        let mut result = zero_vector_exec();
        let mut k: usize = 0;
        while k < vl
            invariant
                cpu.wf(),
                cpu@ == s,
                vl == s.vl,
                k <= vl <= SVE_MAX_VL_BYTES,
                rn == instr.rn,
                rm == instr.rm,
                rn < VREG_COUNT,
                rm < VREG_COUNT,
                result@.len() == SVE_MAX_VL_BYTES,
                forall|j: int| k <= j < SVE_MAX_VL_BYTES ==> result@[j] == 0u8,
                forall|j: int| 0 <= j < k ==> #[trigger] result@[j] == byte_value(s, instr, j),
            decreases vl - k,
        {
            let zn = &cpu.sve_z[rn];
            let zm = &cpu.sve_z[rm];
            assert(zn@ == s.z[rn as int] && zm@ == s.z[rm as int]);
            let b = if instr.op == Opcode::SveOrrVec {
                zn[k] | zm[k]
            } else if instr.op == Opcode::SveEorVec {
                zn[k] ^ zm[k]
            } else {
                zn[k]
            };
            assert(b == byte_value(s, instr, k as int));
            result.set(k, b);
            k = k + 1;
        }
        assert(result@ =~= bytes_upto(s.vl as nat, |k: int| byte_value(s, instr, k)));
        write_z(cpu, rd, result);
        return;
    }
    let es = instr.size as usize;
    let n = vl / es;
    let ghost s = cpu@;
    let ghost sel = |e: nat| vec_sel(s, instr, e);
    let ghost f = |e: nat| vec_value(s, instr, e);
    let mut result = if is_merging_op(instr) {
        copy_z(cpu, rn)
    } else if instr.op == Opcode::SveFpAbs || instr.op == Opcode::SveFpNeg || (instr.op
        == Opcode::SveMovprfx && instr.sf) {
        copy_z(cpu, rd)
    } else {
        zero_vector_exec()
    };
    let ghost base = result@;
    assert(base == vec_base(s, instr));
    let mut e: usize = 0;
    while e < n
        invariant
            cpu.wf(),
            cpu@ == s,
            is_sve_vec_op(instr.op),
            sve_vec_wf(instr),
            es == instr.size,
            n == s.vl as nat / (es as nat),
            s.vl <= SVE_MAX_VL_BYTES,
            e <= n,
            !is_bytewise(instr),
            sel == (|e: nat| vec_sel(s, instr, e)),
            f == (|e: nat| vec_value(s, instr, e)),
            result@.len() == SVE_MAX_VL_BYTES,
            result@ == fill(base, es as nat, e as nat, sel, f),
        decreases n - e,
    {
        proof {
            lemma_elem_in_vector(e as nat, es as nat, n as nat, s.vl as nat);
        }
        let active = if vec_pred_used(instr) {
            pred_at(cpu, instr.cond as usize, e, es)
        } else {
            true
        };
        let ghost prev = result@;
        assert(active == sel(e as nat));
        if active {
            let v = vec_value_exec(cpu, instr, e);
            set_elem(&mut result, e, es, v);
            assert(v == f(e as nat));
        }
        assert(fill(base, es as nat, (e + 1) as nat, sel, f) == if sel(e as nat) {
            crate::sve::with_elem(prev, e as nat, es as nat, f(e as nat))
        } else {
            prev
        });
        e = e + 1;
    }
    write_z(cpu, rd, result);
}

fn is_merging_op(instr: Instr) -> (r: bool)
    ensures
        r == (is_merging_pred_op(instr.op) || (is_shift_imm(instr.op) && instr.cond
            != NO_PREDICATE)),
{
    match instr.op {
        Opcode::SveAddPred | Opcode::SveSubPred | Opcode::SveAndPred | Opcode::SveOrrPred
        | Opcode::SveEorPred => true,
        Opcode::SveAsrImm | Opcode::SveLsrImm | Opcode::SveLslImm => instr.cond != NO_PREDICATE,
        _ => false,
    }
}

fn vec_pred_used(instr: Instr) -> (r: bool)
    ensures
        r == (is_merging_pred_op(instr.op) || instr.op == Opcode::SveFpAbs || instr.op
            == Opcode::SveFpNeg || instr.op == Opcode::SveMovprfx || (is_shift_imm(instr.op)
            && instr.cond != NO_PREDICATE)),
{
    match instr.op {
        Opcode::SveAddPred | Opcode::SveSubPred | Opcode::SveAndPred | Opcode::SveOrrPred
        | Opcode::SveEorPred | Opcode::SveFpAbs | Opcode::SveFpNeg | Opcode::SveMovprfx => true,
        Opcode::SveAsrImm | Opcode::SveLsrImm | Opcode::SveLslImm => instr.cond != NO_PREDICATE,
        _ => false,
    }
}

} // verus!
