//! Decoded instructions.
use vstd::prelude::*;

verus! {

/// The operations this engine executes.
#[derive(Clone, Copy, Debug, PartialEq, Eq, Structural)]
pub enum Opcode {
    // Data processing, register and immediate.
    Add,
    Sub,
    Adc,
    Adcs,
    Sbc,
    Sbcs,
    Adds,
    Subs,
    Movz,
    Movn,
    MovReg,
    Sxtw,
    Movk,
    AddImm,
    SubImm,
    AddsImm,
    SubsImm,
    CompareImm,
    Compare,
    Adr,
    Adrp,
    Csel,
    Csinc,
    Csinv,
    Csneg,
    CondCompare,
    CondCompareNeg,
    AndImm,
    OrrImm,
    EorImm,
    AndsImm,
    AndReg,
    OrrReg,
    EorReg,
    AndsReg,
    Sbfm,
    Bfm,
    Ubfm,
    AddExt,
    SubExt,
    AddsExt,
    SubsExt,
    Madd,
    Msub,
    Umulh,
    Smulh,
    Udiv,
    Sdiv,
    Lslv,
    Lsrv,
    Asrv,
    Rorv,
    Extr,
    Rev,
    Rev32,
    Rev16,
    Rbit,
    Clz,
    Crc32,
    Crc32c,
    // Loads and stores.
    Ldr,
    LdrSign,
    Str,
    SimdLdr,
    SimdStr,
    SimdLd1,
    SimdLd1Multi,
    SimdLd1Lane,
    SimdLd1r,
    SimdLd2,
    SimdLd3,
    SimdLd4,
    SimdSt1Multi,
    SimdSt1Lane,
    SimdSt2,
    SimdSt3,
    SimdSt4,
    LdrLit,
    Ldp,
    Ldpsw,
    Stp,
    SimdLdp,
    SimdStp,
    Ldxr,
    Ldar,
    Stxr,
    Stlr,
    Ldxp,
    Stxp,
    Atomic,
    Cas,
    Casp,
    // Advanced SIMD data processing.
    SimdAnd,
    SimdOrr,
    SimdBic,
    SimdBsl,
    SimdBit,
    SimdBif,
    SimdEor3,
    SimdBcax,
    SimdRax1,
    SimdXar,
    SimdAdd,
    SimdSub,
    SimdMul,
    SimdCmeq,
    SimdCmtst,
    SimdCmeqZero,
    SimdUshl,
    SimdUminp,
    SimdAddp,
    SimdCnt,
    SimdFneg,
    SimdUshr,
    SimdShl,
    SimdSli,
    SimdSri,
    SimdXtn,
    SimdShrn,
    SimdAddv,
    SimdExt,
    SimdUzp1,
    SimdZip1,
    SimdZip2,
    SimdTbl,
    SimdRev32,
    SimdRev64,
    SimdDupElem,
    SimdDupGpr,
    SimdIns,
    SimdInsGpr,
    SimdFmovFromGpr,
    SimdUmov,
    SimdBicImm,
    SimdUqsub,
    SimdAese,
    SimdAesd,
    SimdAesmc,
    SimdAesimc,
    // Branches.
    B,
    Bl,
    Blr,
    Br,
    Ret,
    Cbz,
    Cbnz,
    BCond,
    Tbz,
    Tbnz,
    // System.
    Mrs,
    Msr,
    SimdMovi,
    Tlbi,
    DcZva,
    DcGva,
    Svc,
    Eret,
    Nop,
    NopBarrier,
    // Hints, barriers and prefetches, which run as NOP.
    Chkfeat,
    GcsPushM,
    GcsPushX,
    GcsPopM,
    GcsPopX,
    GcsPopCx,
    GcsSs1,
    GcsSs2,
    Smstop,
    Pacia1716,
    Pacib1716,
    Autia1716,
    Autib1716,
    Paciaz,
    Paciasp,
    Pacibz,
    Pacibsp,
    Autiaz,
    Autiasp,
    Autibz,
    Autibsp,
    Xpaclri,
    Bti,
    BtiC,
    BtiJ,
    BtiJc,
    Sev,
    Sevl,
    Esb,
    PsbCsync,
    TsbCsync,
    GcsbDsync,
    Csdb,
    Clrbhb,
    Yield,
    Dgh,
    Sb,
    DaifSet,
    DaifClr,
    Prfm,
    Clrex,
    Dmb,
    Dsb,
    Isb,
    Wfi,
    Wfe,
    Cfinv,
    Rmif,
    Setf8,
    Setf16,
    // SVE.
    SveCnt,
    SveRdvl,
    SveRdsvl,
    SveAddvl,
    SveAddsvl,
    SveAddpl,
    SveAddspl,
    SveIncScalar,
    SveDecScalar,
    SveAddImm,
    SveSubImm,
    SveAddPred,
    SveSubPred,
    SveAndPred,
    SveOrrPred,
    SveEorPred,
    SveAsrImm,
    SveLsrImm,
    SveLslImm,
    SveUunpklo,
    SveUunpkhi,
    SveSunpklo,
    SveSunpkhi,
    SvePunpklo,
    SvePunpkhi,
    SveZip1,
    SveZip2,
    SveTbl,
    SveIndex,
    SveCompareHs,
    SveCompareHi,
    SveCompareEq,
    SveCompareNe,
    SveCompareHsImm,
    SveCompareHiImm,
    SveCompareEqImm,
    SveCompareNeImm,
    SveWhileLo,
    SveMovprfx,
    SveDupGpr,
    SveAddVec,
    SveSubVec,
    SveOrrVec,
    SveEorVec,
    SveSel,
    SveFpAbs,
    SveFpNeg,
    SveFpFexpa,
    SveFpDupImm,
    SveFpCpyImm,
    SveSt1b,
    SveLd1h,
    SveLdnt1sh,
    SveSt1h,
    SveSt1hScatter,
    SveLd1w,
    SveSt1w,
}

/// One decoded instruction. Field use depends on the operation:
///
/// * `rd`, `rn`, `rm` name registers; in load/store forms `rm` is
///   `NO_OFFSET_REGISTER` for an immediate offset and `SIMD_MULTI_POST_INDEX`
///   for post-indexing by the immediate.
/// * `imm` is the (already scaled and extended) immediate. Shifted-register
///   forms keep the shift amount in its low byte; logical-register forms set
///   bit 8 to invert the second operand; conditional compares keep the NZCV
///   value in bits 0..4 and set bit 8 for the immediate form, whose 5-bit
///   immediate then sits in `rm`; multiply-accumulate keeps the accumulator
///   register in `imm`; exclusive stores keep the status register in `imm`.
/// * `cond` is the condition code, the shift type, the extend option, the
///   addressing mode (1 post-index, 3 pre-index), a bit position, an element
///   size, a register count or a governing predicate, as the operation needs.
/// * `size` is an access or element size in bytes.
/// * `sf` selects the 64-bit form; in Advanced SIMD data processing it
///   selects the 128-bit (Q) form, and there `cond` names the third source
///   register of EOR3 and BCAX or the source lane of INS (element), and
///   `imm` holds the shift amount, lane index, extract position, rotation,
///   bitmask immediate or, for TBL, the number of table registers.
#[derive(Clone, Copy, Debug, PartialEq, Eq, Structural)]
pub struct Instr {
    pub op: Opcode,
    pub rd: u8,
    pub rn: u8,
    pub rm: u8,
    pub imm: u64,
    pub sf: bool,
    pub cond: u8,
    pub size: u8,
}

} // verus!
