//! Guest accesses that cross a page, each byte translated on its own, seen
//! as whole accesses: when every byte of a store may be written, lands in
//! RAM and is translated without reading a page-table byte the store
//! writes, the store leaves the value's bytes there and reading them back
//! gives the value.
use vstd::prelude::*;
use vstd::arithmetic::div_mod::lemma_breakdown;
use crate::constants::RAM_SIZE;
use crate::cpu::CpuState;
use crate::guest::{read_bytes, write_bytes};
use crate::le_bytes::{
    byte_of, lemma_or_high_byte, lemma_pow256_mono, lemma_pow256_positive, lemma_pow256_values,
    lemma_shifted_byte, pow256,
};
use crate::memory::{in_ram, lemma_mem_read_after_write, lemma_mem_write_frame, mem_read, mem_write};
use crate::mmu::{
    lemma_translate_keeps_page_offset, lemma_translate_write_allows_read, lemma_walk_avoids_frame,
    lemma_walk_frame, lemma_walk_read_any_el, translate_spec, translation_avoids, walk_root,
    SCTLR_MMU_ENABLE,
};

verus! {

/// The address of byte `i` of an access at `va`.
pub open spec fn byte_va(va: u64, i: nat) -> u64 {
    va.wrapping_add(i as u64)
}

/// Where byte `i` of a store at `va` lands.
pub open spec fn byte_pa(s: CpuState, mem: Seq<u8>, va: u64, i: nat) -> u64 {
    translate_spec(s, mem, byte_va(va, i), true)->Ok_0
}

/// Every byte of a `size`-byte store at `va` may be written, lands in RAM,
/// and is translated without reading a page-table byte the store writes.
pub open spec fn bytes_land(s: CpuState, mem: Seq<u8>, va: u64, size: nat) -> bool {
    forall|i: nat|
        #![trigger byte_pa(s, mem, va, i)]
        i < size ==> {
            &&& translate_spec(s, mem, byte_va(va, i), true) is Ok
            &&& in_ram(byte_pa(s, mem, va, i), 1)
            &&& forall|j: nat|
                #![trigger byte_pa(s, mem, va, j)]
                j < size ==> translation_avoids(
                    s,
                    mem,
                    byte_va(va, i),
                    byte_pa(s, mem, va, j) as int,
                    1,
                )
        }
}

/// RAM `m` translates the bytes of the access as `mem` does, and still
/// without reading any byte the store writes.
pub open spec fn same_translations(
    s: CpuState,
    m: Seq<u8>,
    mem: Seq<u8>,
    va: u64,
    size: nat,
) -> bool {
    &&& m.len() == RAM_SIZE
    &&& forall|i: nat, w: bool|
        #![trigger translate_spec(s, m, byte_va(va, i), w)]
        i < size ==> translate_spec(s, m, byte_va(va, i), w) == translate_spec(
            s,
            mem,
            byte_va(va, i),
            w,
        )
    &&& forall|i: nat, j: nat|
        #![trigger translation_avoids(s, m, byte_va(va, i), byte_pa(s, mem, va, j) as int, 1)]
        i < size && j < size ==> translation_avoids(
            s,
            m,
            byte_va(va, i),
            byte_pa(s, mem, va, j) as int,
            1,
        )
}

/// The bytes of an access of at most 8 bytes land on distinct addresses.
proof fn lemma_byte_pas_distinct(s: CpuState, mem: Seq<u8>, va: u64, size: nat, i: nat, j: nat)
    requires
        size <= 8,
        bytes_land(s, mem, va, size),
        i < j < size,
    ensures
        byte_pa(s, mem, va, i) != byte_pa(s, mem, va, j),
{
    let pi = byte_pa(s, mem, va, i);
    let pj = byte_pa(s, mem, va, j);
    assert(translate_spec(s, mem, byte_va(va, i), true) is Ok);
    assert(translate_spec(s, mem, byte_va(va, j), true) is Ok);
    lemma_translate_keeps_page_offset(s, mem, byte_va(va, i), true);
    lemma_translate_keeps_page_offset(s, mem, byte_va(va, j), true);
}

/// One more byte written where no walk of the access looks keeps the
/// translations.
proof fn lemma_write_keeps_translations(
    s: CpuState,
    m: Seq<u8>,
    mem: Seq<u8>,
    va: u64,
    size: nat,
    k: nat,
    b: u64,
)
    requires
        bytes_land(s, mem, va, size),
        same_translations(s, m, mem, va, size),
        k < size,
    ensures
        same_translations(s, mem_write(m, byte_pa(s, mem, va, k), 1, b), mem, va, size),
{
    let pk = byte_pa(s, mem, va, k);
    let m2 = mem_write(m, pk, 1, b);
    assert forall|i: nat, w: bool| i < size implies translate_spec(s, m2, byte_va(va, i), w)
        == translate_spec(s, mem, byte_va(va, i), w) by {
        assert(translation_avoids(s, m, byte_va(va, i), pk as int, 1));
        assert(translate_spec(s, m, byte_va(va, i), w) == translate_spec(
            s,
            mem,
            byte_va(va, i),
            w,
        ));
        if s.sys.sctlr_el1 & SCTLR_MMU_ENABLE != 0 {
            let (table, level) = walk_root(s, byte_va(va, i));
            lemma_walk_frame(m, table, byte_va(va, i), level, w, s.pstate.el, pk, 1, b);
        }
    }
    assert forall|i: nat, j: nat| i < size && j < size implies translation_avoids(
        s,
        m2,
        byte_va(va, i),
        byte_pa(s, mem, va, j) as int,
        1,
    ) by {
        assert(translation_avoids(s, m, byte_va(va, i), pk as int, 1));
        assert(translation_avoids(s, m, byte_va(va, i), byte_pa(s, mem, va, j) as int, 1));
        if s.sys.sctlr_el1 & SCTLR_MMU_ENABLE != 0 {
            let (table, level) = walk_root(s, byte_va(va, i));
            lemma_walk_avoids_frame(
                m,
                table,
                byte_va(va, i),
                level,
                byte_pa(s, mem, va, j) as int,
                1,
                pk,
                1,
                b,
            );
        }
    }
}

/// Writing the first `k` bytes of the access one at a time succeeds, keeps
/// the system registers and PSTATE, and leaves byte `j` of the value at
/// the address byte `j` lands on.
pub proof fn lemma_write_bytes_mapped(
    s: CpuState,
    mem: Seq<u8>,
    va: u64,
    value: u64,
    size: nat,
    k: nat,
)
    requires
        mem.len() == RAM_SIZE,
        size <= 8,
        bytes_land(s, mem, va, size),
        k <= size,
    ensures
        write_bytes(s, mem, va, value, k).0 is Ok,
        write_bytes(s, mem, va, value, k).1.sys == s.sys,
        write_bytes(s, mem, va, value, k).1.pstate == s.pstate,
        same_translations(s, write_bytes(s, mem, va, value, k).2, mem, va, size),
        forall|j: nat|
            j < k ==> #[trigger] mem_read(
                write_bytes(s, mem, va, value, k).2,
                byte_pa(s, mem, va, j),
                1,
            ) == Some(byte_of(value as nat, j) as u64),
    decreases k,
{
    if k == 0 {
        assert forall|i: nat, j: nat| i < size && j < size implies translation_avoids(
            s,
            mem,
            byte_va(va, i),
            byte_pa(s, mem, va, j) as int,
            1,
        ) by {
            let pi = byte_pa(s, mem, va, i);
            let pj = byte_pa(s, mem, va, j);
        }
        assert(same_translations(s, mem, mem, va, size));
    } else {
        let i = (k - 1) as nat;
        lemma_write_bytes_mapped(s, mem, va, value, size, i);
        let (_, s1, m1) = write_bytes(s, mem, va, value, i);
        let pa = byte_pa(s, mem, va, i);
        assert(translate_spec(s1, m1, byte_va(va, i), true) == translate_spec(
            s,
            m1,
            byte_va(va, i),
            true,
        ));
        assert(translate_spec(s, m1, byte_va(va, i), true) == translate_spec(
            s,
            mem,
            byte_va(va, i),
            true,
        ));
        assert(in_ram(pa, 1));
        let x = (value >> ((8 * i) as u64)) & 0xFF;
        lemma_shifted_byte(value, i);
        lemma_write_keeps_translations(s, m1, mem, va, size, i, x);
        let m2 = mem_write(m1, pa, 1, x);
        assert(write_bytes(s, mem, va, value, k).2 == m2);
        lemma_mem_read_after_write(m1, pa, 1, x);
        lemma_pow256_values();
        assert forall|j: nat| j < k implies #[trigger] mem_read(m2, byte_pa(s, mem, va, j), 1)
            == Some(byte_of(value as nat, j) as u64) by {
            if j < i {
                lemma_byte_pas_distinct(s, mem, va, size, j, i);
                lemma_mem_write_frame(m1, pa, 1, x, byte_pa(s, mem, va, j), 1);
            }
        }
    }
}

/// Reading the first `k` bytes back one at a time, in a state `t` with the
/// translation controls of `s` (at any exception level), gives the value
/// cut to `k` bytes, and changes no state.
pub proof fn lemma_read_bytes_mapped(
    s: CpuState,
    t: CpuState,
    m: Seq<u8>,
    mem: Seq<u8>,
    va: u64,
    value: u64,
    size: nat,
    k: nat,
)
    requires
        size <= 8,
        k <= size,
        t.sys.sctlr_el1 == s.sys.sctlr_el1,
        t.sys.ttbr0_el1 == s.sys.ttbr0_el1,
        t.sys.ttbr1_el1 == s.sys.ttbr1_el1,
        t.sys.tcr_el1 == s.sys.tcr_el1,
        bytes_land(s, mem, va, size),
        same_translations(s, m, mem, va, size),
        forall|j: nat|
            j < size ==> #[trigger] mem_read(m, byte_pa(s, mem, va, j), 1) == Some(
                byte_of(value as nat, j) as u64,
            ),
    ensures
        read_bytes(t, m, va, k) == (
            Ok::<u64, crate::mmu::ExecError>((value as nat % pow256(k)) as u64),
            t,
        ),
    decreases k,
{
    lemma_pow256_positive(k);
    if k == 0 {
        assert(value as nat % 1 == 0);
    } else {
        let i = (k - 1) as nat;
        lemma_read_bytes_mapped(s, t, m, mem, va, value, size, i);
        let pa = byte_pa(s, mem, va, i);
        assert(translate_spec(s, mem, byte_va(va, i), true) is Ok);
        lemma_translate_write_allows_read(s, mem, byte_va(va, i));
        if s.sys.sctlr_el1 & SCTLR_MMU_ENABLE != 0 {
            let (table, level) = walk_root(s, byte_va(va, i));
            assert(walk_root(t, byte_va(va, i)) == walk_root(s, byte_va(va, i)));
            lemma_walk_read_any_el(m, table, byte_va(va, i), level, t.pstate.el, s.pstate.el);
        }
        assert(translate_spec(t, m, byte_va(va, i), false) == translate_spec(
            s,
            m,
            byte_va(va, i),
            false,
        ));
        assert(translate_spec(s, m, byte_va(va, i), false) == translate_spec(
            s,
            mem,
            byte_va(va, i),
            false,
        ));
        assert(mem_read(m, pa, 1) == Some(byte_of(value as nat, i) as u64));
        let p = pow256(i);
        lemma_pow256_positive(i);
        lemma_pow256_mono(i, 7);
        lemma_pow256_mono(k, 8);
        lemma_pow256_values();
        let lo = (value as nat % p) as u64;
        let b = byte_of(value as nat, i) as u64;
        lemma_or_high_byte(lo, b, i);
        lemma_breakdown(value as int, p as int, 256);
        assert(pow256(k) == p * 256) by (nonlinear_arith)
            requires
                pow256(k) == 256 * p,
        ;
        assert(b == (value as nat / p) % 256);
    }
}

} // verus!
