//! Executing one decoded instruction: the operation itself, then retiring
//! it (next PC, cycle count, timer interrupt) unless it redirected control.
use vstd::prelude::*;
use crate::bitops::{bitops_step, bitops_wf, exec_bitops, is_bitops_op};
use crate::branch::{branch_step, exec_branch, is_branch_op};
use crate::cache::{dc_step, exec_dc_block};
use crate::cpu::{Armv8Cpu, CpuState};
use crate::dp_arith::{arith_step, exec_arith, is_arith_op};
use crate::dp_basic::{basic_step, exec_basic, is_basic_op};
use crate::dp_logic::{exec_logic, is_logic_op, logic_step};
use crate::exclusive::{
    atomic_step, exclusive_step, exclusive_wf, exec_atomic, exec_exclusive, is_atomic_op,
    is_exclusive_op,
};
use crate::instr::{Instr, Opcode};
use crate::load_pair::{exec_ldp_stp, exec_ldr_lit, is_pair_op, ldr_lit_step, pair_step, pair_wf};
use crate::load_store::{exec_ldr_str, is_ldr_str_op, ldr_str_step, ldr_str_wf, Outcome};
use crate::memory::SystemBus;
use crate::simd_data::{exec_simd_data, is_simd_data_op, simd_data_step, simd_data_wf};
use crate::mmu::ExecError;
use crate::system::{
    eret_step, exec_eret, exec_svc, exec_system, is_system_op, svc_step, system_step,
};
use crate::sve_count::{exec_sve_count, is_sve_count_op, sve_count_step, sve_count_wf};
use crate::sve_mem::{exec_sve_mem, is_sve_mem_op, sve_mem_step, sve_mem_wf, sve_store_fits};
use crate::sve_perm::{exec_sve_perm, is_sve_perm_op, sve_perm_step, sve_perm_wf};
use crate::sve_pred::{exec_sve_pred, is_sve_pred_op, sve_pred_step, sve_pred_wf};
use crate::sve_vec::{exec_sve_vec, is_sve_vec_op, sve_vec_step, sve_vec_wf};
use crate::timer::{finish, finish_instruction};

verus! {

/// The register numbers and sizes each operation relies on, as any
/// instruction the decoder produces has them.
pub open spec fn instr_wf(i: Instr) -> bool {
    &&& is_ldr_str_op(i.op) ==> ldr_str_wf(i)
    &&& is_pair_op(i.op) ==> pair_wf(i)
    &&& (is_exclusive_op(i.op) || is_atomic_op(i.op)) ==> exclusive_wf(i)
    &&& is_bitops_op(i.op) ==> bitops_wf(i)
    &&& i.op == Opcode::SimdMovi ==> i.rd < 32 && i.size <= 16
    &&& i.op == Opcode::LdrLit ==> i.rd < 32
    &&& is_sve_count_op(i.op) ==> sve_count_wf(i)
    &&& is_sve_vec_op(i.op) ==> sve_vec_wf(i)
    &&& is_sve_pred_op(i.op) ==> sve_pred_wf(i)
    &&& is_sve_perm_op(i.op) ==> sve_perm_wf(i)
    &&& is_sve_mem_op(i.op) ==> sve_mem_wf(i)
    &&& is_simd_data_op(i.op) ==> simd_data_wf(i)
}

/// What the instruction does before it is retired.
pub open spec fn operate(s: CpuState, mem: Seq<u8>, i: Instr) -> Outcome {
    if is_basic_op(i.op) {
        (Ok(()), basic_step(s, i), mem)
    } else if is_logic_op(i.op) {
        (Ok(()), logic_step(s, i), mem)
    } else if is_arith_op(i.op) {
        (Ok(()), arith_step(s, i), mem)
    } else if is_bitops_op(i.op) {
        (Ok(()), bitops_step(s, i), mem)
    } else if is_system_op(i.op) {
        (Ok(()), system_step(s, i), mem)
    } else if is_simd_data_op(i.op) {
        (Ok(()), simd_data_step(s, i), mem)
    } else if is_ldr_str_op(i.op) {
        ldr_str_step(s, mem, i)
    } else if i.op == Opcode::LdrLit {
        ldr_lit_step(s, mem, i)
    } else if is_pair_op(i.op) {
        pair_step(s, mem, i)
    } else if is_exclusive_op(i.op) {
        exclusive_step(s, mem, i)
    } else if is_atomic_op(i.op) {
        atomic_step(s, mem, i)
    } else if i.op == Opcode::DcZva {
        dc_step(s, mem, i, true)
    } else if i.op == Opcode::DcGva {
        dc_step(s, mem, i, false)
    } else if is_sve_count_op(i.op) {
        (Ok(()), sve_count_step(s, i), mem)
    } else if is_sve_vec_op(i.op) {
        (Ok(()), sve_vec_step(s, i), mem)
    } else if is_sve_pred_op(i.op) {
        (Ok(()), sve_pred_step(s, i), mem)
    } else if is_sve_perm_op(i.op) {
        (Ok(()), sve_perm_step(s, i), mem)
    } else {
        sve_mem_step(s, mem, i)
    }
}

/// One instruction: branches, SVC and ERET set the PC themselves; every
/// other instruction that completes is retired. A failed instruction leaves
/// the PC where it was, with whatever it changed before the fault.
pub open spec fn execute_step(s: CpuState, mem: Seq<u8>, i: Instr) -> Outcome {
    if is_branch_op(i.op) {
        (Ok(()), branch_step(s, i), mem)
    } else if i.op == Opcode::Svc {
        (Ok(()), svc_step(s, i.imm), mem)
    } else if i.op == Opcode::Eret {
        (Ok(()), eret_step(s), mem)
    } else {
        let (r, s1, m1) = operate(s, mem, i);
        match r {
            Ok(_) => (Ok(()), finish(s1), m1),
            Err(e) => (Err(e), s1, m1),
        }
    }
}

fn operate_exec(cpu: &mut Armv8Cpu, bus: &mut SystemBus, instr: Instr) -> (r: Result<
    (),
    ExecError,
>)
    requires
        old(cpu).wf(),
        old(bus).wf(),
        instr_wf(instr),
        sve_store_fits(old(cpu)@, instr),
        !is_branch_op(instr.op),
        instr.op != Opcode::Svc,
        instr.op != Opcode::Eret,
    ensures
        final(cpu).wf(),
        final(bus).wf(),
        (r, final(cpu)@, final(bus)@) == operate(old(cpu)@, old(bus)@, instr),
{
    match instr.op {
        Opcode::Add | Opcode::Sub | Opcode::Adc | Opcode::Adcs | Opcode::Sbc | Opcode::Sbcs
        | Opcode::Adds | Opcode::Subs | Opcode::Movz | Opcode::Movn | Opcode::MovReg
        | Opcode::Sxtw | Opcode::Movk | Opcode::AddImm | Opcode::SubImm | Opcode::AddsImm
        | Opcode::SubsImm | Opcode::CompareImm | Opcode::Compare | Opcode::Adr | Opcode::Adrp
        | Opcode::AddExt | Opcode::SubExt | Opcode::AddsExt | Opcode::SubsExt => {
            exec_basic(cpu, instr);
            Ok(())
        },
        Opcode::Csel | Opcode::Csinc | Opcode::Csinv | Opcode::Csneg | Opcode::CondCompare
        | Opcode::CondCompareNeg | Opcode::AndImm | Opcode::OrrImm | Opcode::EorImm
        | Opcode::AndsImm | Opcode::AndReg | Opcode::OrrReg | Opcode::EorReg | Opcode::AndsReg
        | Opcode::Sbfm | Opcode::Bfm | Opcode::Ubfm => {
            exec_logic(cpu, instr);
            Ok(())
        },
        Opcode::Madd | Opcode::Msub | Opcode::Umulh | Opcode::Smulh | Opcode::Udiv
        | Opcode::Sdiv | Opcode::Lslv | Opcode::Lsrv | Opcode::Asrv | Opcode::Rorv | Opcode::Extr
        | Opcode::Clz => {
            exec_arith(cpu, instr);
            Ok(())
        },
        Opcode::Rev | Opcode::Rev32 | Opcode::Rev16 | Opcode::Rbit | Opcode::Crc32
        | Opcode::Crc32c => {
            exec_bitops(cpu, instr);
            Ok(())
        },
        Opcode::Mrs | Opcode::Msr | Opcode::SimdMovi | Opcode::Tlbi | Opcode::Wfi
        | Opcode::Wfe | Opcode::Cfinv | Opcode::Rmif | Opcode::Setf8 | Opcode::Setf16
        | Opcode::Nop | Opcode::NopBarrier | Opcode::Chkfeat | Opcode::GcsPushM
        | Opcode::GcsPushX | Opcode::GcsPopM | Opcode::GcsPopX | Opcode::GcsPopCx
        | Opcode::GcsSs1 | Opcode::GcsSs2 | Opcode::Smstop | Opcode::Pacia1716
        | Opcode::Pacib1716 | Opcode::Autia1716 | Opcode::Autib1716 | Opcode::Paciaz
        | Opcode::Paciasp | Opcode::Pacibz | Opcode::Pacibsp | Opcode::Autiaz
        | Opcode::Autiasp | Opcode::Autibz | Opcode::Autibsp | Opcode::Xpaclri | Opcode::Bti
        | Opcode::BtiC | Opcode::BtiJ | Opcode::BtiJc | Opcode::Sev | Opcode::Sevl
        | Opcode::Esb | Opcode::PsbCsync | Opcode::TsbCsync | Opcode::GcsbDsync | Opcode::Csdb
        | Opcode::Clrbhb | Opcode::Yield | Opcode::Dgh | Opcode::Sb | Opcode::DaifSet
        | Opcode::DaifClr | Opcode::Prfm | Opcode::Clrex | Opcode::Dmb | Opcode::Dsb
        | Opcode::Isb => {
            exec_system(cpu, instr);
            Ok(())
        },
        Opcode::SimdAnd | Opcode::SimdOrr | Opcode::SimdBic | Opcode::SimdBsl | Opcode::SimdBit
        | Opcode::SimdBif | Opcode::SimdEor3 | Opcode::SimdBcax | Opcode::SimdRax1
        | Opcode::SimdXar | Opcode::SimdAdd | Opcode::SimdSub | Opcode::SimdMul
        | Opcode::SimdCmeq | Opcode::SimdCmtst | Opcode::SimdCmeqZero | Opcode::SimdUshl
        | Opcode::SimdUminp | Opcode::SimdAddp | Opcode::SimdCnt | Opcode::SimdFneg
        | Opcode::SimdUshr | Opcode::SimdShl | Opcode::SimdSli | Opcode::SimdSri
        | Opcode::SimdXtn | Opcode::SimdShrn | Opcode::SimdAddv | Opcode::SimdExt
        | Opcode::SimdUzp1 | Opcode::SimdZip1 | Opcode::SimdZip2 | Opcode::SimdTbl
        | Opcode::SimdRev32 | Opcode::SimdRev64 | Opcode::SimdDupElem | Opcode::SimdDupGpr
        | Opcode::SimdIns | Opcode::SimdInsGpr | Opcode::SimdFmovFromGpr | Opcode::SimdUmov
        | Opcode::SimdBicImm | Opcode::SimdUqsub | Opcode::SimdAese | Opcode::SimdAesd
        | Opcode::SimdAesmc | Opcode::SimdAesimc => {
            exec_simd_data(cpu, instr);
            Ok(())
        },
        Opcode::Ldr | Opcode::LdrSign | Opcode::Str | Opcode::SimdLdr | Opcode::SimdStr
        | Opcode::SimdLd1 | Opcode::SimdLd1Multi | Opcode::SimdLd1Lane | Opcode::SimdLd1r
        | Opcode::SimdSt1Multi | Opcode::SimdSt1Lane | Opcode::SimdLd2 | Opcode::SimdLd3
        | Opcode::SimdLd4 | Opcode::SimdSt2 | Opcode::SimdSt3 | Opcode::SimdSt4 => {
            exec_ldr_str(cpu, bus, instr)
        },
        Opcode::LdrLit => exec_ldr_lit(cpu, bus, instr),
        Opcode::Ldp | Opcode::Ldpsw | Opcode::Stp | Opcode::SimdLdp | Opcode::SimdStp => {
            exec_ldp_stp(cpu, bus, instr)
        },
        Opcode::Ldxr | Opcode::Ldar | Opcode::Stxr | Opcode::Stlr | Opcode::Ldxp | Opcode::Stxp => {
            exec_exclusive(cpu, bus, instr)
        },
        Opcode::Atomic | Opcode::Cas | Opcode::Casp => exec_atomic(cpu, bus, instr),
        Opcode::DcZva => exec_dc_block(cpu, bus, instr, true),
        Opcode::DcGva => exec_dc_block(cpu, bus, instr, false),
        Opcode::SveCnt | Opcode::SveRdvl | Opcode::SveRdsvl | Opcode::SveAddvl
        | Opcode::SveAddsvl | Opcode::SveAddpl | Opcode::SveAddspl | Opcode::SveIncScalar
        | Opcode::SveDecScalar => {
            exec_sve_count(cpu, instr);
            Ok(())
        },
        Opcode::SveAddImm | Opcode::SveSubImm | Opcode::SveAddPred | Opcode::SveSubPred
        | Opcode::SveAndPred | Opcode::SveOrrPred | Opcode::SveEorPred | Opcode::SveAsrImm
        | Opcode::SveLsrImm | Opcode::SveLslImm | Opcode::SveMovprfx | Opcode::SveDupGpr
        | Opcode::SveAddVec | Opcode::SveSubVec | Opcode::SveOrrVec | Opcode::SveEorVec
        | Opcode::SveSel | Opcode::SveFpAbs | Opcode::SveFpNeg | Opcode::SveFpFexpa
        | Opcode::SveFpDupImm | Opcode::SveFpCpyImm => {
            exec_sve_vec(cpu, instr);
            Ok(())
        },
        Opcode::SveCompareHs | Opcode::SveCompareHi | Opcode::SveCompareEq
        | Opcode::SveCompareNe | Opcode::SveCompareHsImm | Opcode::SveCompareHiImm
        | Opcode::SveCompareEqImm | Opcode::SveCompareNeImm | Opcode::SveWhileLo
        | Opcode::SvePunpklo | Opcode::SvePunpkhi => {
            exec_sve_pred(cpu, instr);
            Ok(())
        },
        Opcode::SveUunpklo | Opcode::SveUunpkhi | Opcode::SveSunpklo | Opcode::SveSunpkhi
        | Opcode::SveZip1 | Opcode::SveZip2 | Opcode::SveTbl | Opcode::SveIndex => {
            exec_sve_perm(cpu, instr);
            Ok(())
        },
        Opcode::SveSt1b | Opcode::SveLd1h | Opcode::SveLdnt1sh | Opcode::SveSt1h
        | Opcode::SveSt1hScatter | Opcode::SveLd1w | Opcode::SveSt1w => exec_sve_mem(cpu, bus, instr),
        Opcode::B | Opcode::Bl | Opcode::Blr | Opcode::Br | Opcode::Ret | Opcode::Cbz
        | Opcode::Cbnz | Opcode::BCond | Opcode::Tbz | Opcode::Tbnz | Opcode::Svc | Opcode::Eret => {
            vstd::pervasive::unreached()
        },
    }
}

/// Execute one decoded instruction on `cpu` and `bus`.
pub fn execute(cpu: &mut Armv8Cpu, bus: &mut SystemBus, instr: Instr) -> (r: Result<
    (),
    ExecError,
>)
    requires
        old(cpu).wf(),
        old(bus).wf(),
        instr_wf(instr),
        sve_store_fits(old(cpu)@, instr),
    ensures
        final(cpu).wf(),
        final(bus).wf(),
        (r, final(cpu)@, final(bus)@) == execute_step(old(cpu)@, old(bus)@, instr),
{
    match instr.op {
        Opcode::B | Opcode::Bl | Opcode::Blr | Opcode::Br | Opcode::Ret | Opcode::Cbz
        | Opcode::Cbnz | Opcode::BCond | Opcode::Tbz | Opcode::Tbnz => {
            exec_branch(cpu, instr);
            Ok(())
        },
        Opcode::Svc => {
            exec_svc(cpu, instr.imm);
            Ok(())
        },
        Opcode::Eret => {
            exec_eret(cpu);
            Ok(())
        },
        _ => {
            operate_exec(cpu, bus, instr)?;
            finish_instruction(cpu);
            Ok(())
        },
    }
}

} // verus!
