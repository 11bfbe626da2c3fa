//! Interleaved SIMD structure loads and stores (LD2/LD3/LD4, ST2/ST3/ST4):
//! element `e` of register `r` of the group lives at byte
//! `(e * n + r) * es` of the transfer, for `n` registers of `es`-byte
//! elements. Every byte is translated and moved on its own.
use vstd::prelude::*;
use crate::cpu::{Armv8Cpu, CpuState, VREG_COUNT};
use crate::instr::{Instr, Opcode};
use crate::load_store::Outcome;
use crate::constants::{RAM_BASE, RAM_SIZE};
use crate::le_bytes::lemma_pow256_values;
use crate::memory::{in_ram, mem_read, mem_write, SystemBus};
use crate::mmu::{
    lemma_translate_write_allows_read, translate_data, translate_or_data_fault, translate_spec,
    ExecError,
};

verus! {

pub open spec fn is_structure_transfer(op: Opcode) -> bool {
    match op {
        Opcode::SimdLd2 | Opcode::SimdLd3 | Opcode::SimdLd4 | Opcode::SimdSt2 | Opcode::SimdSt3
        | Opcode::SimdSt4 => true,
        _ => false,
    }
}

pub open spec fn is_structure_load(op: Opcode) -> bool {
    match op {
        Opcode::SimdLd2 | Opcode::SimdLd3 | Opcode::SimdLd4 => true,
        _ => false,
    }
}

/// Registers per structure.
pub open spec fn structure_count(op: Opcode) -> nat {
    match op {
        Opcode::SimdLd2 | Opcode::SimdSt2 => 2,
        Opcode::SimdLd3 | Opcode::SimdSt3 => 3,
        _ => 4,
    }
}

/// Element size `1 << cond` in bytes, for the element sizes that exist.
pub open spec fn structure_element_size(i: Instr) -> nat {
    if i.cond == 0 {
        1
    } else if i.cond == 1 {
        2
    } else if i.cond == 2 {
        4
    } else {
        8
    }
}

/// Bytes one transfer moves: every lane of every register.
pub open spec fn structure_bytes(i: Instr) -> nat {
    let es = structure_element_size(i);
    (i.size as nat / es) * structure_count(i.op) * es
}

/// The register (counted from `rd`) that byte `k` of the transfer belongs to.
pub open spec fn structure_reg(i: Instr, k: nat) -> nat {
    let es = structure_element_size(i);
    (k / es) % structure_count(i.op)
}

/// The bit position within its register of byte `k` of the transfer.
pub open spec fn structure_shift(i: Instr, k: nat) -> nat {
    let es = structure_element_size(i);
    8 * ((k / (structure_count(i.op) * es)) * es + k % es)
}

/// Vector register `j` of the group.
pub open spec fn group_reg(i: Instr, j: nat) -> int {
    ((i.rd as nat + j) % 32) as int
}

/// Gather bytes `k..` of a structure load into `regs`; stop at the first
/// fault.
pub open spec fn ld_structure_from(s: CpuState, mem: Seq<u8>, va: u64, i: Instr, k: nat, regs: Seq<
    u128,
>) -> (Result<(), ExecError>, CpuState, Seq<u128>)
    decreases structure_bytes(i) - k,
{
    if k >= structure_bytes(i) {
        (Ok(()), s, regs)
    } else {
        let (t, s1) = translate_data(s, mem, va.wrapping_add(k as u64), false);
        match t {
            Err(e) => (Err(e), s1, regs),
            Ok(pa) => match mem_read(mem, pa, 1) {
                None => (Err(ExecError::BusFault), s1, regs),
                Some(b) => {
                    let r = structure_reg(i, k) as int;
                    ld_structure_from(
                        s1,
                        mem,
                        va,
                        i,
                        k + 1,
                        regs.update(r, regs[r] | ((b as u128) << (structure_shift(i, k) as u128))),
                    )
                },
            },
        }
    }
}

/// Write `regs[j..]` to the registers of the group.
pub open spec fn write_group(s: CpuState, i: Instr, regs: Seq<u128>, j: nat) -> CpuState
    decreases regs.len() - j,
{
    if j >= regs.len() {
        s
    } else {
        write_group(s.set_simd(group_reg(i, j), regs[j as int]), i, regs, j + 1)
    }
}

/// Scatter bytes `k..` of the group's registers to memory; stop at the
/// first fault.
pub open spec fn st_structure_from(s: CpuState, mem: Seq<u8>, va: u64, i: Instr, k: nat) -> Outcome
    decreases structure_bytes(i) - k,
{
    if k >= structure_bytes(i) {
        (Ok(()), s, mem)
    } else {
        let (t, s1) = translate_data(s, mem, va.wrapping_add(k as u64), true);
        match t {
            Err(e) => (Err(e), s1, mem),
            Ok(pa) => {
                let v = s1.simd[group_reg(i, structure_reg(i, k))];
                let b = ((v >> (structure_shift(i, k) as u128)) & 0xFF) as u64;
                st_structure_from(
                    s1.clear_exclusive_if_overlaps(pa, 1),
                    mem_write(mem, pa, 1, b),
                    va,
                    i,
                    k + 1,
                )
            },
        }
    }
}

/// A structure transfer at `va`; element sizes other than 1, 2, 4 and 8
/// bytes are refused. A load changes no register unless every byte arrived.
pub open spec fn structure_body(s: CpuState, mem: Seq<u8>, i: Instr, va: u64) -> Outcome {
    if i.cond > 3 {
        (Err(ExecError::UnsupportedSize), s, mem)
    } else if is_structure_load(i.op) {
        let zero = Seq::new(structure_count(i.op), |j: int| 0u128);
        let (r, s1, regs) = ld_structure_from(s, mem, va, i, 0, zero);
        match r {
            Err(e) => (Err(e), s1, mem),
            Ok(_) => (Ok(()), write_group(s1, i, regs, 0), mem),
        }
    } else {
        st_structure_from(s, mem, va, i, 0)
    }
}

pub open spec fn structure_wf(i: Instr) -> bool {
    i.size <= 16
}

proof fn lemma_structure_position(k: nat, n: nat, es: nat, size: nat)
    requires
        1 <= n <= 4,
        es == 1 || es == 2 || es == 4 || es == 8,
        size <= 16,
        k < (size / es) * n * es,
    ensures
        (k / es) % n < n,
        (k / (n * es)) * es + k % es < 16,
{
    assert((k / (n * es)) * es + k % es < 16) by (nonlinear_arith)
        requires
            1 <= n <= 4,
            1 <= es <= 8,
            size <= 16,
            k < (size / es) * n * es,
    {
        let lanes = size / es;
        assert(lanes * es <= size);
        assert(k < lanes * (n * es));
        assert(k / (n * es) < lanes);
        assert(k / (n * es) <= lanes - 1);
        assert((k / (n * es)) * es <= (lanes - 1) * es);
        assert(k % es < es);
    }
}

/// OR-ing a byte into the lane at `sh` leaves the byte at any other lane.
proof fn lemma_or_byte_other(x: u128, b: u128, sh: u128, sh2: u128)
    requires
        b < 256,
        sh < 128,
        sh2 < 128,
        sh % 8 == 0,
        sh2 % 8 == 0,
        sh != sh2,
    ensures
        ((x | (b << sh)) >> sh2) & 0xFF == (x >> sh2) & 0xFF,
{
    assert(((x | (b << sh)) >> sh2) & 0xFF == (x >> sh2) & 0xFF) by (bit_vector)
        requires
            b < 256,
            sh < 128,
            sh2 < 128,
            sh % 8 == 0,
            sh2 % 8 == 0,
            sh != sh2,
    ;
}

/// OR-ing a byte into an empty lane puts it there.
proof fn lemma_or_byte_same(x: u128, b: u128, sh: u128)
    requires
        b < 256,
        sh < 128,
        sh % 8 == 0,
        (x >> sh) & 0xFF == 0,
    ensures
        ((x | (b << sh)) >> sh) & 0xFF == b,
{
    assert(((x | (b << sh)) >> sh) & 0xFF == b) by (bit_vector)
        requires
            b < 256,
            sh < 128,
            sh % 8 == 0,
            (x >> sh) & 0xFF == 0,
    ;
}

/// Two different bytes of a transfer that go to the same register go to
/// different lanes of it.
proof fn lemma_structure_lanes_distinct(i: Instr, k1: nat, k2: nat)
    requires
        i.cond <= 3,
        structure_wf(i),
        k1 < structure_bytes(i),
        k2 < structure_bytes(i),
        k1 != k2,
        structure_reg(i, k1) == structure_reg(i, k2),
    ensures
        structure_shift(i, k1) != structure_shift(i, k2),
{
    let n = structure_count(i.op) as int;
    let es = structure_element_size(i) as int;
    vstd::arithmetic::div_mod::lemma_fundamental_div_mod(k1 as int, es);
    vstd::arithmetic::div_mod::lemma_fundamental_div_mod(k2 as int, es);
    vstd::arithmetic::div_mod::lemma_fundamental_div_mod(k1 as int / es, n);
    vstd::arithmetic::div_mod::lemma_fundamental_div_mod(k2 as int / es, n);
    vstd::arithmetic::div_mod::lemma_div_denominator(k1 as int, es, n);
    vstd::arithmetic::div_mod::lemma_div_denominator(k2 as int, es, n);
    assert(es * n == n * es) by (nonlinear_arith);
    let a1 = k1 as int / (n * es);
    let a2 = k2 as int / (n * es);
    let b1 = k1 as int % es;
    let b2 = k2 as int % es;
    if structure_shift(i, k1) == structure_shift(i, k2) {
        assert(a1 * es + b1 == a2 * es + b2);
        vstd::arithmetic::div_mod::lemma_fundamental_div_mod_converse(a1 * es + b1, es, a1, b1);
        vstd::arithmetic::div_mod::lemma_fundamental_div_mod_converse(a2 * es + b2, es, a2, b2);
        assert(a1 == a2 && b1 == b2);
        assert(k1 as int / es == k2 as int / es);
        assert(false);
    }
}

/// The byte of the group that byte `k` of the transfer occupies, in the
/// register values `regs`.
pub open spec fn lane_byte(regs: Seq<u128>, i: Instr, k: nat) -> u128 {
    (regs[structure_reg(i, k) as int] >> (structure_shift(i, k) as u128)) & 0xFF
}

/// Where byte `k` of a transfer at `va` lands when written.
pub open spec fn structure_pa(s: CpuState, mem: Seq<u8>, va: u64, k: nat) -> u64 {
    translate_spec(s, mem, va.wrapping_add(k as u64), true)->Ok_0
}

/// Every one of the `n` bytes of a transfer at `va` may be written and
/// lands in RAM.
pub open spec fn structure_lands(s: CpuState, mem: Seq<u8>, va: u64, n: nat) -> bool {
    forall|k: nat|
        #![trigger structure_pa(s, mem, va, k)]
        k < n ==> translate_spec(s, mem, va.wrapping_add(k as u64), true) is Ok
            && in_ram(structure_pa(s, mem, va, k), 1)
}

/// The RAM byte that byte `k` of the transfer reads or writes.
pub open spec fn ram_byte(s: CpuState, mem: Seq<u8>, va: u64, k: nat) -> u8 {
    mem[structure_pa(s, mem, va, k) - RAM_BASE]
}

proof fn lemma_structure_lane_in_range(i: Instr, k: nat)
    requires
        i.cond <= 3,
        structure_wf(i),
        k < structure_bytes(i),
    ensures
        structure_reg(i, k) < structure_count(i.op),
        structure_shift(i, k) < 128,
        structure_shift(i, k) % 8 == 0,
{
    lemma_structure_position(
        k,
        structure_count(i.op),
        structure_element_size(i),
        i.size as nat,
    );
}

/// A structure load whose bytes all land in RAM gathers every byte of the
/// transfer into its lane: from byte `k` on, into lanes that are still
/// empty.
proof fn lemma_ld_structure_gathers(
    s: CpuState,
    mem: Seq<u8>,
    va: u64,
    i: Instr,
    k: nat,
    regs: Seq<u128>,
)
    requires
        i.cond <= 3,
        structure_wf(i),
        mem.len() == RAM_SIZE,
        structure_lands(s, mem, va, structure_bytes(i)),
        regs.len() == structure_count(i.op),
        k <= structure_bytes(i),
        forall|k2: nat| k2 < k ==> #[trigger] lane_byte(regs, i, k2) == ram_byte(s, mem, va, k2),
        forall|k2: nat| k <= k2 < structure_bytes(i) ==> #[trigger] lane_byte(regs, i, k2) == 0,
    ensures
        ({
            let (r, s1, regs1) = ld_structure_from(s, mem, va, i, k, regs);
            &&& r is Ok
            &&& s1 == s
            &&& regs1.len() == regs.len()
            &&& forall|k2: nat| k2 < structure_bytes(i) ==> #[trigger] lane_byte(regs1, i, k2)
                == ram_byte(s, mem, va, k2)
        }),
    decreases structure_bytes(i) - k,
{
    if k < structure_bytes(i) {
        let va_k = va.wrapping_add(k as u64);
        let pa = structure_pa(s, mem, va, k);
        lemma_translate_write_allows_read(s, mem, va_k);
        assert(translate_data(s, mem, va_k, false) == (Ok::<u64, ExecError>(pa), s));
        reveal_with_fuel(crate::le_bytes::le_value, 2);
        assert(mem_read(mem, pa, 1) == Some(ram_byte(s, mem, va, k) as u64));
        let b = ram_byte(s, mem, va, k);
        let r = structure_reg(i, k) as int;
        let sh = structure_shift(i, k) as u128;
        lemma_structure_lane_in_range(i, k);
        let regs2 = regs.update(r, regs[r] | ((b as u128) << sh));
        assert forall|k2: nat| k2 < k + 1 implies #[trigger] lane_byte(regs2, i, k2) == ram_byte(
            s,
            mem,
            va,
            k2,
        ) by {
            lemma_structure_lane_in_range(i, k2);
            let prev = lane_byte(regs, i, k2);
            if k2 == k {
                assert(lane_byte(regs, i, k) == 0);
                lemma_or_byte_same(regs[r], b as u128, sh);
            } else if structure_reg(i, k2) == structure_reg(i, k) {
                lemma_structure_lanes_distinct(i, k, k2);
                lemma_or_byte_other(regs[r], b as u128, sh, structure_shift(i, k2) as u128);
            }
        }
        assert forall|k2: nat| k + 1 <= k2 < structure_bytes(i) implies #[trigger] lane_byte(
            regs2,
            i,
            k2,
        ) == 0 by {
            lemma_structure_lane_in_range(i, k2);
            let prev = lane_byte(regs, i, k2);
            if structure_reg(i, k2) == structure_reg(i, k) {
                lemma_structure_lanes_distinct(i, k, k2);
                lemma_or_byte_other(regs[r], b as u128, sh, structure_shift(i, k2) as u128);
            }
        }
        lemma_ld_structure_gathers(s, mem, va, i, k + 1, regs2);
    }
}

/// Writing registers `j..` of the group leaves everything but the vector
/// registers alone and puts `regs[jj]` in register `jj` of the group.
proof fn lemma_write_group_sets(s: CpuState, i: Instr, regs: Seq<u128>, j: nat)
    requires
        regs.len() <= 4,
        s.simd.len() == 32,
        j <= regs.len(),
    ensures
        ({
            let t = write_group(s, i, regs, j);
            &&& t == CpuState { simd: t.simd, ..s }
            &&& t.simd.len() == 32
            &&& forall|jj: nat| j <= jj < regs.len() ==> t.simd[group_reg(i, jj)] == regs[jj as int]
        }),
    decreases regs.len() - j,
{
    if j < regs.len() {
        let s1 = s.set_simd(group_reg(i, j), regs[j as int]);
        lemma_write_group_sets(s1, i, regs, j + 1);
        let t = write_group(s1, i, regs, j + 1);
        assert forall|jj: nat| j <= jj < regs.len() implies t.simd[group_reg(i, jj)] == regs[
            jj as int
        ] by {
            if jj == j {
                assert forall|j2: nat| j + 1 <= j2 < regs.len() implies group_reg(i, j2)
                    != group_reg(i, j) by {}
                lemma_write_group_keeps(s1, i, regs, j + 1, group_reg(i, j));
            }
        }
    }
}

/// Writing registers `j..` of the group keeps any register outside them.
proof fn lemma_write_group_keeps(s: CpuState, i: Instr, regs: Seq<u128>, j: nat, x: int)
    requires
        s.simd.len() == 32,
        0 <= x < 32,
        forall|jj: nat| j <= jj < regs.len() ==> group_reg(i, jj) != x,
    ensures
        write_group(s, i, regs, j).simd[x] == s.simd[x],
    decreases regs.len() - j,
{
    if j < regs.len() {
        lemma_write_group_keeps(s.set_simd(group_reg(i, j), regs[j as int]), i, regs, j + 1, x);
    }
}

/// A state with the same translation registers and exception level
/// translates the bytes of a transfer as `s` does.
proof fn lemma_structure_same_translation(s: CpuState, t: CpuState, mem: Seq<u8>, va: u64, i: Instr)
    requires
        structure_lands(s, mem, va, structure_bytes(i)),
        t.sys == s.sys,
        t.pstate == s.pstate,
    ensures
        structure_lands(t, mem, va, structure_bytes(i)),
        forall|k: nat| #[trigger] structure_pa(t, mem, va, k) == structure_pa(s, mem, va, k),
{
    assert forall|k: nat| #[trigger] structure_pa(t, mem, va, k) == structure_pa(s, mem, va, k)
        && translate_spec(t, mem, va.wrapping_add(k as u64), true) == translate_spec(
        s,
        mem,
        va.wrapping_add(k as u64),
        true,
    ) by {}
    assert forall|k: nat| k < structure_bytes(i) implies #[trigger] translate_spec(
        t,
        mem,
        va.wrapping_add(k as u64),
        true,
    ) is Ok && in_ram(structure_pa(t, mem, va, k), 1) by {
        assert(structure_pa(t, mem, va, k) == structure_pa(s, mem, va, k));
    }
}

/// A structure store whose bytes all land in RAM, and whose registers hold,
/// from byte `k` on, the bytes RAM already has there, writes them back
/// unchanged.
proof fn lemma_st_structure_restores(s: CpuState, mem: Seq<u8>, va: u64, i: Instr, k: nat)
    requires
        i.cond <= 3,
        structure_wf(i),
        mem.len() == RAM_SIZE,
        structure_lands(s, mem, va, structure_bytes(i)),
        k <= structure_bytes(i),
        forall|k2: nat|
            k <= k2 < structure_bytes(i) ==> (s.simd[group_reg(i, #[trigger] structure_reg(i, k2))]
                >> (structure_shift(i, k2) as u128)) & 0xFF == ram_byte(s, mem, va, k2),
    ensures
        ({
            let (r, t, m) = st_structure_from(s, mem, va, i, k);
            &&& r is Ok
            &&& m == mem
            &&& t.simd == s.simd
        }),
    decreases structure_bytes(i) - k,
{
    if k < structure_bytes(i) {
        let pa = structure_pa(s, mem, va, k);
        assert(translate_data(s, mem, va.wrapping_add(k as u64), true) == (
            Ok::<u64, ExecError>(pa),
            s,
        ));
        let v = s.simd[group_reg(i, structure_reg(i, k))];
        let b = ((v >> (structure_shift(i, k) as u128)) & 0xFF) as u64;
        assert(b == ram_byte(s, mem, va, k));
        lemma_pow256_values();
        assert(in_ram(pa, 1));
        assert(crate::le_bytes::byte_of(b as nat, 0) == ram_byte(s, mem, va, k));
        assert(mem_write(mem, pa, 1, b) =~= mem);
        let s1 = s.clear_exclusive_if_overlaps(pa, 1);
        lemma_structure_same_translation(s, s1, mem, va, i);
        lemma_st_structure_restores(s1, mem, va, i, k + 1);
    }
}

/// A structure load whose bytes all land in RAM succeeds, changes only the
/// vector registers, and leaves byte `k` of the transfer in its lane of the
/// group.
pub(crate) proof fn lemma_structure_load_lanes(s: CpuState, mem: Seq<u8>, ld: Instr, va: u64)
    requires
        s.simd.len() == 32,
        mem.len() == RAM_SIZE,
        is_structure_load(ld.op),
        ld.cond <= 3,
        structure_wf(ld),
        structure_lands(s, mem, va, structure_bytes(ld)),
    ensures
        ({
            let (r1, s1, m1) = structure_body(s, mem, ld, va);
            &&& r1 is Ok
            &&& m1 == mem
            &&& s1 == CpuState { simd: s1.simd, ..s }
            &&& s1.simd.len() == 32
            &&& forall|k2: nat|
                k2 < structure_bytes(ld) ==> (s1.simd[group_reg(
                    ld,
                    #[trigger] structure_reg(ld, k2),
                )] >> (structure_shift(ld, k2) as u128)) & 0xFF == ram_byte(s, mem, va, k2)
        }),
{
    let n = structure_count(ld.op);
    let zero = Seq::new(n, |j: int| 0u128);
    assert forall|k2: nat| 0 <= k2 < structure_bytes(ld) implies #[trigger] lane_byte(zero, ld, k2)
        == 0 by {
        lemma_structure_lane_in_range(ld, k2);
        let sh = structure_shift(ld, k2) as u128;
        assert((0u128 >> sh) & 0xFF == 0) by (bit_vector);
    }
    lemma_ld_structure_gathers(s, mem, va, ld, 0, zero);
    let (r, s1, regs) = ld_structure_from(s, mem, va, ld, 0, zero);
    lemma_write_group_sets(s1, ld, regs, 0);
    let t = write_group(s1, ld, regs, 0);
    assert forall|k2: nat| k2 < structure_bytes(ld) implies (t.simd[group_reg(
        ld,
        #[trigger] structure_reg(ld, k2),
    )] >> (structure_shift(ld, k2) as u128)) & 0xFF == ram_byte(s, mem, va, k2) by {
        lemma_structure_lane_in_range(ld, k2);
        assert(lane_byte(regs, ld, k2) == ram_byte(s, mem, va, k2));
    }
}

/// A structure store whose bytes all land in RAM, and whose registers hold
/// in their lanes the bytes RAM already has, succeeds, leaves RAM as it was
/// and changes no vector register.
pub(crate) proof fn lemma_structure_store_lanes(u: CpuState, mem: Seq<u8>, st: Instr, va: u64)
    requires
        mem.len() == RAM_SIZE,
        is_structure_transfer(st.op),
        !is_structure_load(st.op),
        st.cond <= 3,
        structure_wf(st),
        structure_lands(u, mem, va, structure_bytes(st)),
        forall|k2: nat|
            k2 < structure_bytes(st) ==> (u.simd[group_reg(st, #[trigger] structure_reg(st, k2))]
                >> (structure_shift(st, k2) as u128)) & 0xFF == ram_byte(u, mem, va, k2),
    ensures
        ({
            let (r2, s2, m2) = structure_body(u, mem, st, va);
            &&& r2 is Ok
            &&& m2 == mem
            &&& s2.simd == u.simd
        }),
{
    lemma_st_structure_restores(u, mem, va, st, 0);
}

/// A structure store right after the structure load of the same registers,
/// element size and address writes back exactly the bytes the load read,
/// when every byte of the transfer may be written and lands in RAM: memory
/// is as it was, and the store changes no vector register.
pub proof fn lemma_structure_store_after_load(s: CpuState, mem: Seq<u8>, ld: Instr, st: Instr, va: u64)
    requires
        s.simd.len() == 32,
        mem.len() == RAM_SIZE,
        is_structure_load(ld.op),
        is_structure_transfer(st.op),
        !is_structure_load(st.op),
        structure_count(st.op) == structure_count(ld.op),
        st.rd == ld.rd,
        st.cond == ld.cond,
        st.size == ld.size,
        ld.cond <= 3,
        structure_wf(ld),
        structure_lands(s, mem, va, structure_bytes(ld)),
    ensures
        ({
            let (r1, s1, m1) = structure_body(s, mem, ld, va);
            let (r2, s2, m2) = structure_body(s1, m1, st, va);
            &&& r1 is Ok
            &&& r2 is Ok
            &&& m1 == mem
            &&& m2 == mem
            &&& s2.simd == s1.simd
        }),
{
    lemma_structure_load_lanes(s, mem, ld, va);
    let s1 = structure_body(s, mem, ld, va).1;
    lemma_structure_same_translation(s, s1, mem, va, ld);
    assert(structure_bytes(st) == structure_bytes(ld));
    assert(structure_lands(s1, mem, va, structure_bytes(st)));
    assert forall|k2: nat| k2 < structure_bytes(st) implies (s1.simd[group_reg(
        st,
        #[trigger] structure_reg(st, k2),
    )] >> (structure_shift(st, k2) as u128)) & 0xFF == ram_byte(s1, mem, va, k2) by {
        assert(structure_reg(ld, k2) == structure_reg(st, k2));
        assert(structure_pa(s1, mem, va, k2) == structure_pa(s, mem, va, k2));
    }
    lemma_structure_store_lanes(s1, mem, st, va);
}

/// A state with the same translation registers, at an exception level at
/// least as privileged, lets the bytes of a transfer land where `s` does.
pub(crate) proof fn lemma_structure_lands_other_state(
    s: CpuState,
    t: CpuState,
    mem: Seq<u8>,
    va: u64,
    n: nat,
)
    requires
        structure_lands(s, mem, va, n),
        t.sys.sctlr_el1 == s.sys.sctlr_el1,
        t.sys.ttbr0_el1 == s.sys.ttbr0_el1,
        t.sys.ttbr1_el1 == s.sys.ttbr1_el1,
        t.sys.tcr_el1 == s.sys.tcr_el1,
        s.pstate.el == 0 || t.pstate.el != 0,
    ensures
        structure_lands(t, mem, va, n),
        forall|k: nat| k < n ==> #[trigger] structure_pa(t, mem, va, k) == structure_pa(s, mem, va, k),
{
    assert forall|k: nat| k < n implies #[trigger] structure_pa(t, mem, va, k) == structure_pa(
        s,
        mem,
        va,
        k,
    ) && translate_spec(t, mem, va.wrapping_add(k as u64), true) is Ok by {
        assert(structure_lands(s, mem, va, n));
        assert(in_ram(structure_pa(s, mem, va, k), 1));
        assert(translate_spec(s, mem, va.wrapping_add(k as u64), true) is Ok);
        crate::mmu::lemma_translate_write_other_state(s, t, mem, va.wrapping_add(k as u64));
    }
    assert forall|k: nat| k < n implies #[trigger] translate_spec(
        t,
        mem,
        va.wrapping_add(k as u64),
        true,
    ) is Ok && in_ram(structure_pa(t, mem, va, k), 1) by {
        assert(structure_lands(s, mem, va, n));
        assert(in_ram(structure_pa(s, mem, va, k), 1));
        assert(structure_pa(t, mem, va, k) == structure_pa(s, mem, va, k));
    }
}

/// Move one structure load or store.
pub fn exec_structure(cpu: &mut Armv8Cpu, bus: &mut SystemBus, instr: Instr, va: u64) -> (r:
    Result<(), ExecError>)
    requires
        old(cpu).wf(),
        old(bus).wf(),
        is_structure_transfer(instr.op),
        structure_wf(instr),
    ensures
        final(cpu).wf(),
        final(bus).wf(),
        (r, final(cpu)@, final(bus)@) == structure_body(old(cpu)@, old(bus)@, instr, va),
{
    if instr.cond > 3 {
        return Err(ExecError::UnsupportedSize);
    }
    let n: usize = match instr.op {
        Opcode::SimdLd2 | Opcode::SimdSt2 => 2,
        Opcode::SimdLd3 | Opcode::SimdSt3 => 3,
        _ => 4,
    };
    let es: usize = if instr.cond == 0 {
        1
    } else if instr.cond == 1 {
        2
    } else if instr.cond == 2 {
        4
    } else {
        8
    };
    let lanes = instr.size as usize / es;
    assert(lanes * n * es <= 64) by (nonlinear_arith)
        requires
            lanes == instr.size as usize / es,
            instr.size <= 16,
            1 <= es <= 8,
            n <= 4,
    {
        assert(lanes * es <= instr.size);
    }
    let total = lanes * n * es;
    assert(total == structure_bytes(instr));
    let ghost goal = structure_body(cpu@, bus@, instr, va);
    if instr.op == Opcode::SimdLd2 || instr.op == Opcode::SimdLd3 || instr.op == Opcode::SimdLd4 {
        let mut regs: Vec<u128> = vec![0u128; n];
        assert(regs@ =~= Seq::new(structure_count(instr.op), |j: int| 0u128));
        let mut k: usize = 0;
        while k < total
            invariant
                cpu.wf(),
                bus.wf(),
                k <= total,
                total == structure_bytes(instr),
                n == structure_count(instr.op),
                es == structure_element_size(instr),
                instr.size <= 16,
                1 <= n <= 4,
                regs@.len() == n,
                is_structure_load(instr.op),
                instr.cond <= 3,
                goal == structure_body(old(cpu)@, old(bus)@, instr, va),
                ({
                    let zero = Seq::new(structure_count(instr.op), |j: int| 0u128);
                    ld_structure_from(old(cpu)@, old(bus)@, va, instr, 0, zero)
                        == ld_structure_from(cpu@, bus@, va, instr, k as nat, regs@)
                }),
                bus@ == old(bus)@,
            decreases total - k,
        {
            proof {
                lemma_structure_position(k as nat, n as nat, es as nat, instr.size as nat);
            }
            let reg = (k / es) % n;
            let shift = 8 * ((k / (n * es)) * es + k % es);
            let pa = translate_or_data_fault(cpu, &bus.mem, va.wrapping_add(k as u64), false)?;
            let b = match bus.read(pa, 1) {
                Some(b) => b,
                None => {
                    return Err(ExecError::BusFault);
                },
            };
            let old_v = regs[reg];
            regs.set(reg, old_v | ((b as u128) << (shift as u128)));
            k = k + 1;
        }
        let mut j: usize = 0;
        while j < n
            invariant
                cpu.wf(),
                j <= n,
                n <= 4,
                regs@.len() == n,
                goal == (Ok::<(), ExecError>(()), write_group(cpu@, instr, regs@, j as nat), bus@),
            decreases n - j,
        {
            let reg = (instr.rd as usize + j) % 32;
            assert(reg < VREG_COUNT);
            cpu.simd.set(reg, regs[j]);
            j = j + 1;
        }
        Ok(())
    } else {
        let mut k: usize = 0;
        while k < total
            invariant
                cpu.wf(),
                bus.wf(),
                k <= total,
                total == structure_bytes(instr),
                n == structure_count(instr.op),
                es == structure_element_size(instr),
                instr.size <= 16,
                1 <= n <= 4,
                !is_structure_load(instr.op),
                instr.cond <= 3,
                goal == structure_body(old(cpu)@, old(bus)@, instr, va),
                goal == st_structure_from(cpu@, bus@, va, instr, k as nat),
            decreases total - k,
        {
            proof {
                lemma_structure_position(k as nat, n as nat, es as nat, instr.size as nat);
            }
            let reg = (instr.rd as usize + (k / es) % n) % 32;
            let shift = 8 * ((k / (n * es)) * es + k % es);
            let pa = translate_or_data_fault(cpu, &bus.mem, va.wrapping_add(k as u64), true)?;
            let v = cpu.simd[reg];
            let b = ((v >> (shift as u128)) & 0xFF) as u64;
            bus.write(pa, 1, b);
            cpu.clear_exclusive_if_overlaps(pa, 1);
            k = k + 1;
        }
        Ok(())
    }
}


proof fn lemma_ld_structure_progress(s: CpuState, mem: Seq<u8>, va: u64, i: Instr, k: nat, regs: Seq<u128>)
    ensures
        s.same_progress(ld_structure_from(s, mem, va, i, k, regs).1),
    decreases structure_bytes(i) - k,
{
    if k < structure_bytes(i) {
        let (t, s1) = translate_data(s, mem, va.wrapping_add(k as u64), false);
        if let Ok(pa) = t {
            if let Some(b) = mem_read(mem, pa, 1) {
                let r = structure_reg(i, k) as int;
                lemma_ld_structure_progress(
                    s1,
                    mem,
                    va,
                    i,
                    k + 1,
                    regs.update(r, regs[r] | ((b as u128) << (structure_shift(i, k) as u128))),
                );
            }
        }
    }
}

proof fn lemma_write_group_progress(s: CpuState, i: Instr, regs: Seq<u128>, j: nat)
    ensures
        s.same_progress(write_group(s, i, regs, j)),
    decreases regs.len() - j,
{
    if j < regs.len() {
        lemma_write_group_progress(s.set_simd(group_reg(i, j), regs[j as int]), i, regs, j + 1);
    }
}

proof fn lemma_st_structure_progress(s: CpuState, mem: Seq<u8>, va: u64, i: Instr, k: nat)
    ensures
        s.same_progress(st_structure_from(s, mem, va, i, k).1),
    decreases structure_bytes(i) - k,
{
    if k < structure_bytes(i) {
        let (t, s1) = translate_data(s, mem, va.wrapping_add(k as u64), true);
        if let Ok(pa) = t {
            let v = s1.simd[group_reg(i, structure_reg(i, k))];
            let b = ((v >> (structure_shift(i, k) as u128)) & 0xFF) as u64;
            lemma_st_structure_progress(
                s1.clear_exclusive_if_overlaps(pa, 1),
                mem_write(mem, pa, 1, b),
                va,
                i,
                k + 1,
            );
        }
    }
}

/// A structure transfer leaves the PC, the cycle count
/// and the interrupt registers as they were (`same_progress`).
pub proof fn lemma_structure_keeps_progress(s: CpuState, mem: Seq<u8>, i: Instr, va: u64)
    ensures
        s.same_progress(structure_body(s, mem, i, va).1),
{
    let zero = Seq::new(structure_count(i.op), |j: int| 0u128);
    lemma_ld_structure_progress(s, mem, va, i, 0, zero);
    let (r, s1, regs) = ld_structure_from(s, mem, va, i, 0, zero);
    lemma_write_group_progress(s1, i, regs, 0);
    lemma_st_structure_progress(s, mem, va, i, 0);
}

} // verus!
