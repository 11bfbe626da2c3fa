//! Guest virtual-memory accesses: translate, then read or write the bus.
//! An access that crosses a page boundary is done byte by byte, each byte
//! translated on its own.
use vstd::prelude::*;
use crate::constants::{PAGE_OFFSET_MASK, PAGE_SIZE, RAM_BASE, RAM_SIZE};
use crate::cpu::{Armv8Cpu, CpuState};
use crate::le_bytes::{
    le_value, lemma_le_value_bound, lemma_le_value_snoc, lemma_or_high_byte, lemma_pow256_mono,
    lemma_pow256_values, lemma_shifted_byte, write_le,
};
use crate::memory::{in_ram, mem_read, mem_write, SystemBus};
use crate::mmu::{translate_data, translate_or_data_fault, ExecError, SCTLR_MMU_ENABLE};

verus! {

/// Whether `size` bytes at `va` extend past the end of the page.
pub open spec fn crosses_page(va: u64, size: nat) -> bool {
    (va & PAGE_OFFSET_MASK) + size > PAGE_SIZE
}

pub fn access_crosses_page(va: u64, size: u8) -> (r: bool)
    ensures
        r == crosses_page(va, size as nat),
{
    assert(va & 0xFFFu64 <= 0xFFF) by (bit_vector);
    (va & PAGE_OFFSET_MASK) + size as u64 > PAGE_SIZE
}

/// Reading bytes `0..count` at `va` one at a time, least significant first.
pub open spec fn read_bytes(s: CpuState, mem: Seq<u8>, va: u64, count: nat) -> (
    Result<u64, ExecError>,
    CpuState,
)
    decreases count,
{
    if count == 0 {
        (Ok(0), s)
    } else {
        let (r, s1) = read_bytes(s, mem, va, (count - 1) as nat);
        match r {
            Err(e) => (Err(e), s1),
            Ok(lo) => {
                let (t, s2) = translate_data(s1, mem, va.wrapping_add((count - 1) as u64), false);
                match t {
                    Err(e) => (Err(e), s2),
                    Ok(pa) => match mem_read(mem, pa, 1) {
                        None => (Err(ExecError::BusFault), s2),
                        Some(b) => (Ok(lo | (b << ((8 * (count - 1)) as u64))), s2),
                    },
                }
            },
        }
    }
}

/// A guest read of `size` (1 to 8) bytes at `va`.
pub open spec fn guest_read(s: CpuState, mem: Seq<u8>, va: u64, size: nat) -> (
    Result<u64, ExecError>,
    CpuState,
) {
    if !crosses_page(va, size) {
        let (t, s1) = translate_data(s, mem, va, false);
        match t {
            Err(e) => (Err(e), s1),
            Ok(pa) => match mem_read(mem, pa, size) {
                None => (Err(ExecError::BusFault), s1),
                Some(v) => (Ok(v), s1),
            },
        }
    } else {
        read_bytes(s, mem, va, size)
    }
}

/// Writing bytes `0..count` of `value` at `va` one at a time.
pub open spec fn write_bytes(s: CpuState, mem: Seq<u8>, va: u64, value: u64, count: nat) -> (
    Result<(), ExecError>,
    CpuState,
    Seq<u8>,
)
    decreases count,
{
    if count == 0 {
        (Ok(()), s, mem)
    } else {
        let (r, s1, m1) = write_bytes(s, mem, va, value, (count - 1) as nat);
        match r {
            Err(e) => (Err(e), s1, m1),
            Ok(_) => {
                let (t, s2) = translate_data(s1, m1, va.wrapping_add((count - 1) as u64), true);
                match t {
                    Err(e) => (Err(e), s2, m1),
                    Ok(pa) => (
                        Ok(()),
                        s2.clear_exclusive_if_overlaps(pa, 1),
                        mem_write(m1, pa, 1, (value >> ((8 * (count - 1)) as u64)) & 0xFF),
                    ),
                }
            },
        }
    }
}

/// A guest write of the low `size` (1 to 8) bytes of `value` at `va`; the
/// store clears an overlapping exclusive reservation.
pub open spec fn guest_write(s: CpuState, mem: Seq<u8>, va: u64, size: nat, value: u64) -> (
    Result<(), ExecError>,
    CpuState,
    Seq<u8>,
) {
    if !crosses_page(va, size) {
        let (t, s1) = translate_data(s, mem, va, true);
        match t {
            Err(e) => (Err(e), s1, mem),
            Ok(pa) => (Ok(()), s1.clear_exclusive_if_overlaps(pa, size), mem_write(mem, pa, size, value)),
        }
    } else {
        write_bytes(s, mem, va, value, size)
    }
}

/// Read `size` (1 to 8) bytes of guest memory at `va`.
pub fn read_guest(cpu: &mut Armv8Cpu, bus: &SystemBus, va: u64, size: u8) -> (r: Result<
    u64,
    ExecError,
>)
    requires
        old(cpu).wf(),
        bus.wf(),
        1 <= size <= 8,
    ensures
        final(cpu).wf(),
        (r, final(cpu)@) == guest_read(old(cpu)@, bus@, va, size as nat),
{
    if !access_crosses_page(va, size) {
        let pa = match translate_or_data_fault(cpu, &bus.mem, va, false) {
            Ok(pa) => pa,
            Err(e) => {
                return Err(e);
            },
        };
        return match bus.read(pa, size) {
            Some(v) => Ok(v),
            None => Err(ExecError::BusFault),
        };
    }
    let ghost s0 = cpu@;
    let mut value: u64 = 0;
    let mut offset: u8 = 0;
    while offset < size
        invariant
            cpu.wf(),
            bus.wf(),
            offset <= size <= 8,
            crosses_page(va, size as nat),
            s0 == old(cpu)@,
            (Ok::<u64, ExecError>(value), cpu@) == read_bytes(s0, bus@, va, offset as nat),
            guest_read(s0, bus@, va, size as nat) == read_bytes(s0, bus@, va, size as nat),
        decreases size - offset,
    {
        let pa = match translate_or_data_fault(cpu, &bus.mem, va.wrapping_add(offset as u64), false) {
            Ok(pa) => pa,
            Err(e) => {
                proof {
                    lemma_read_bytes_stops(s0, bus@, va, (offset + 1) as nat, size as nat);
                }
                return Err(e);
            },
        };
        let byte = match bus.read(pa, 1) {
            Some(b) => b,
            None => {
                proof {
                    lemma_read_bytes_stops(s0, bus@, va, (offset + 1) as nat, size as nat);
                }
                return Err(ExecError::BusFault);
            },
        };
        assert(offset * 8 < 64);
        value = value | (byte << ((offset as u64) * 8));
        offset = offset + 1;
    }
    Ok(value)
}

/// Once a byte-wise read fails, reading further bytes keeps the failure.
proof fn lemma_read_bytes_stops(s: CpuState, mem: Seq<u8>, va: u64, k: nat, n: nat)
    requires
        k <= n,
        read_bytes(s, mem, va, k).0 is Err,
    ensures
        read_bytes(s, mem, va, n) == read_bytes(s, mem, va, k),
    decreases n - k,
{
    if k < n {
        lemma_read_bytes_stops(s, mem, va, k, (n - 1) as nat);
    }
}

/// Once a byte-wise write fails, writing further bytes keeps the failure.
proof fn lemma_write_bytes_stops(s: CpuState, mem: Seq<u8>, va: u64, value: u64, k: nat, n: nat)
    requires
        k <= n,
        write_bytes(s, mem, va, value, k).0 is Err,
    ensures
        write_bytes(s, mem, va, value, n) == write_bytes(s, mem, va, value, k),
    decreases n - k,
{
    if k < n {
        lemma_write_bytes_stops(s, mem, va, value, k, (n - 1) as nat);
    }
}

/// Write the low `size` (1 to 8) bytes of `value` to guest memory at `va`.
pub fn write_guest(cpu: &mut Armv8Cpu, bus: &mut SystemBus, va: u64, size: u8, value: u64) -> (r: Result<
    (),
    ExecError,
>)
    requires
        old(cpu).wf(),
        old(bus).wf(),
        1 <= size <= 8,
    ensures
        final(cpu).wf(),
        final(bus).wf(),
        (r, final(cpu)@, final(bus)@) == guest_write(old(cpu)@, old(bus)@, va, size as nat, value),
{
    if !access_crosses_page(va, size) {
        let pa = match translate_or_data_fault(cpu, &bus.mem, va, true) {
            Ok(pa) => pa,
            Err(e) => {
                return Err(e);
            },
        };
        bus.write(pa, size, value);
        cpu.clear_exclusive_if_overlaps(pa, size);
        return Ok(());
    }
    let ghost s0 = cpu@;
    let ghost m0 = bus@;
    let mut offset: u8 = 0;
    while offset < size
        invariant
            cpu.wf(),
            bus.wf(),
            offset <= size <= 8,
            crosses_page(va, size as nat),
            s0 == old(cpu)@,
            m0 == old(bus)@,
            (Ok::<(), ExecError>(()), cpu@, bus@) == write_bytes(s0, m0, va, value, offset as nat),
            guest_write(s0, m0, va, size as nat, value) == write_bytes(s0, m0, va, value, size as nat),
        decreases size - offset,
    {
        let pa = match translate_or_data_fault(cpu, &bus.mem, va.wrapping_add(offset as u64), true) {
            Ok(pa) => pa,
            Err(e) => {
                proof {
                    lemma_write_bytes_stops(s0, m0, va, value, (offset + 1) as nat, size as nat);
                }
                return Err(e);
            },
        };
        assert(offset * 8 < 64);
        bus.write(pa, 1, (value >> ((offset as u64) * 8)) & 0xFF);
        cpu.clear_exclusive_if_overlaps(pa, 1);
        offset = offset + 1;
    }
    Ok(())
}


/// With translation off, reading the bytes of a range of RAM one at a time
/// gives the little-endian value of the range, and changes no state.
pub proof fn lemma_read_bytes_whole(s: CpuState, mem: Seq<u8>, va: u64, size: nat, k: nat)
    requires
        s.sys.sctlr_el1 & SCTLR_MMU_ENABLE == 0,
        k <= size <= 8,
        in_ram(va, size),
    ensures
        read_bytes(s, mem, va, k) == (
            Ok::<u64, ExecError>(le_value(mem, va - RAM_BASE, k) as u64),
            s,
        ),
    decreases k,
{
    if k > 0 {
        let i = (k - 1) as nat;
        let start = va - RAM_BASE;
        lemma_read_bytes_whole(s, mem, va, size, i);
        let addr = va.wrapping_add(i as u64);
        assert(addr == va + i);
        assert(in_ram(addr, 1));
        let b = mem[start + i];
        assert(le_value(mem, addr - RAM_BASE, 1) == b) by {
            reveal_with_fuel(le_value, 2);
        }
        lemma_le_value_bound(mem, start, i);
        lemma_pow256_mono(i, 7);
        lemma_pow256_values();
        let lo = le_value(mem, start, i) as u64;
        lemma_or_high_byte(lo, b as u64, i);
        lemma_le_value_snoc(mem, start, i);
    }
}

/// With translation off, writing the bytes of a range of RAM one at a time
/// stores the little-endian encoding of the value there, and leaves the
/// system registers alone.
pub proof fn lemma_write_bytes_whole(
    s: CpuState,
    mem: Seq<u8>,
    va: u64,
    value: u64,
    size: nat,
    k: nat,
)
    requires
        s.sys.sctlr_el1 & SCTLR_MMU_ENABLE == 0,
        mem.len() == RAM_SIZE,
        k <= size <= 8,
        in_ram(va, size),
    ensures
        write_bytes(s, mem, va, value, k).0 is Ok,
        write_bytes(s, mem, va, value, k).1.sys == s.sys,
        write_bytes(s, mem, va, value, k).2 == write_le(mem, va - RAM_BASE, k, value as nat),
    decreases k,
{
    let start = va - RAM_BASE;
    if k == 0 {
        assert(mem =~= write_le(mem, start, 0, value as nat));
    } else {
        let i = (k - 1) as nat;
        lemma_write_bytes_whole(s, mem, va, value, size, i);
        let m1 = write_le(mem, start, i, value as nat);
        let addr = va.wrapping_add(i as u64);
        assert(addr == va + i);
        assert(in_ram(addr, 1));
        let x = (value >> ((8 * i) as u64)) & 0xFF;
        lemma_shifted_byte(value, i);
        assert(mem_write(m1, addr, 1, x) =~= write_le(mem, start, k, value as nat));
    }
}

/// Within RAM and with translation off, a guest read is the bus read of the
/// same range, whether or not it crosses a page.
pub proof fn lemma_guest_read_untranslated(s: CpuState, mem: Seq<u8>, va: u64, size: nat)
    requires
        s.sys.sctlr_el1 & SCTLR_MMU_ENABLE == 0,
        1 <= size <= 8,
        in_ram(va, size),
    ensures
        guest_read(s, mem, va, size) == (
            Ok::<u64, ExecError>(mem_read(mem, va, size)->0),
            s,
        ),
{
    if crosses_page(va, size) {
        lemma_read_bytes_whole(s, mem, va, size, size);
    }
}

/// Within RAM and with translation off, a guest write is the bus write of
/// the same range, whether or not it crosses a page; it keeps the system
/// registers.
pub proof fn lemma_guest_write_untranslated(
    s: CpuState,
    mem: Seq<u8>,
    va: u64,
    size: nat,
    value: u64,
)
    requires
        s.sys.sctlr_el1 & SCTLR_MMU_ENABLE == 0,
        mem.len() == RAM_SIZE,
        1 <= size <= 8,
        in_ram(va, size),
    ensures
        guest_write(s, mem, va, size, value).0 is Ok,
        guest_write(s, mem, va, size, value).1.sys == s.sys,
        guest_write(s, mem, va, size, value).2 == mem_write(mem, va, size, value),
{
    if crosses_page(va, size) {
        lemma_write_bytes_whole(s, mem, va, value, size, size);
    }
}

} // verus!

verus! {

/// A guest read of a vector register's worth: 1, 2, 4 or 8 bytes, or 16
/// bytes as two 8-byte reads (low half first).
pub open spec fn simd_read(s: CpuState, mem: Seq<u8>, va: u64, size: nat) -> (
    Result<u128, ExecError>,
    CpuState,
) {
    if size == 1 || size == 2 || size == 4 || size == 8 {
        let (r, s1) = guest_read(s, mem, va, size);
        match r {
            Ok(v) => (Ok(v as u128), s1),
            Err(e) => (Err(e), s1),
        }
    } else if size == 16 {
        let (r1, s1) = guest_read(s, mem, va, 8);
        match r1 {
            Err(e) => (Err(e), s1),
            Ok(lo) => {
                let (r2, s2) = guest_read(s1, mem, va.wrapping_add(8), 8);
                match r2 {
                    Err(e) => (Err(e), s2),
                    Ok(hi) => (Ok((lo as u128) | ((hi as u128) << 64u128)), s2),
                }
            },
        }
    } else {
        (Err(ExecError::UnsupportedSize), s)
    }
}

/// A guest write of the low `size` bytes of a vector value: 1, 2, 4 or 8
/// bytes, or 16 bytes as two 8-byte writes (low half first).
pub open spec fn simd_write(s: CpuState, mem: Seq<u8>, va: u64, size: nat, v: u128) -> (
    Result<(), ExecError>,
    CpuState,
    Seq<u8>,
) {
    let lo = (v & 0xFFFF_FFFF_FFFF_FFFF) as u64;
    if size == 1 || size == 2 || size == 4 || size == 8 {
        guest_write(s, mem, va, size, lo)
    } else if size == 16 {
        let (r1, s1, m1) = guest_write(s, mem, va, 8, lo);
        match r1 {
            Err(e) => (Err(e), s1, m1),
            Ok(_) => guest_write(s1, m1, va.wrapping_add(8), 8, (v >> 64u128) as u64),
        }
    } else {
        (Err(ExecError::UnsupportedSize), s, mem)
    }
}

pub fn read_simd_guest(cpu: &mut Armv8Cpu, bus: &SystemBus, va: u64, size: u8) -> (r: Result<
    u128,
    ExecError,
>)
    requires
        old(cpu).wf(),
        bus.wf(),
    ensures
        final(cpu).wf(),
        (r, final(cpu)@) == simd_read(old(cpu)@, bus@, va, size as nat),
{
    if size == 1 || size == 2 || size == 4 || size == 8 {
        match read_guest(cpu, bus, va, size) {
            Ok(v) => Ok(v as u128),
            Err(e) => Err(e),
        }
    } else if size == 16 {
        let lo = match read_guest(cpu, bus, va, 8) {
            Ok(v) => v,
            Err(e) => {
                return Err(e);
            },
        };
        let hi = match read_guest(cpu, bus, va.wrapping_add(8), 8) {
            Ok(v) => v,
            Err(e) => {
                return Err(e);
            },
        };
        Ok((lo as u128) | ((hi as u128) << 64u128))
    } else {
        Err(ExecError::UnsupportedSize)
    }
}

pub fn write_simd_guest(cpu: &mut Armv8Cpu, bus: &mut SystemBus, va: u64, size: u8, v: u128) -> (r: Result<
    (),
    ExecError,
>)
    requires
        old(cpu).wf(),
        old(bus).wf(),
    ensures
        final(cpu).wf(),
        final(bus).wf(),
        (r, final(cpu)@, final(bus)@) == simd_write(old(cpu)@, old(bus)@, va, size as nat, v),
{
    assert(v & 0xFFFF_FFFF_FFFF_FFFFu128 <= 0xFFFF_FFFF_FFFF_FFFFu128 && v >> 64u128
        <= 0xFFFF_FFFF_FFFF_FFFFu128) by (bit_vector);
    let lo = (v & 0xFFFF_FFFF_FFFF_FFFF) as u64;
    if size == 1 || size == 2 || size == 4 || size == 8 {
        write_guest(cpu, bus, va, size, lo)
    } else if size == 16 {
        match write_guest(cpu, bus, va, 8, lo) {
            Ok(_) => {},
            Err(e) => {
                return Err(e);
            },
        }
        write_guest(cpu, bus, va.wrapping_add(8), 8, (v >> 64u128) as u64)
    } else {
        Err(ExecError::UnsupportedSize)
    }
}

/// The registers a guest memory access leaves alone: it can only record a
/// fault address and drop an exclusive reservation.
pub open spec fn same_regs(a: CpuState, b: CpuState) -> bool {
    &&& a.x == b.x
    &&& a.sp == b.sp
    &&& a.same_progress(b)
    &&& a.pstate == b.pstate
    &&& a.simd == b.simd
    &&& a.z == b.z
    &&& a.p == b.p
    &&& a.vl == b.vl
    &&& a.svl == b.svl
}

proof fn lemma_read_bytes_frame(s: CpuState, mem: Seq<u8>, va: u64, count: nat)
    ensures
        same_regs(s, read_bytes(s, mem, va, count).1),
    decreases count,
{
    if count > 0 {
        lemma_read_bytes_frame(s, mem, va, (count - 1) as nat);
    }
}

proof fn lemma_write_bytes_frame(s: CpuState, mem: Seq<u8>, va: u64, value: u64, count: nat)
    ensures
        same_regs(s, write_bytes(s, mem, va, value, count).1),
    decreases count,
{
    if count > 0 {
        lemma_write_bytes_frame(s, mem, va, value, (count - 1) as nat);
    }
}

/// A guest read changes no register.
pub proof fn lemma_guest_read_frame(s: CpuState, mem: Seq<u8>, va: u64, size: nat)
    ensures
        same_regs(s, guest_read(s, mem, va, size).1),
{
    lemma_read_bytes_frame(s, mem, va, size);
}

/// A guest write changes no register.
pub proof fn lemma_guest_write_frame(s: CpuState, mem: Seq<u8>, va: u64, size: nat, value: u64)
    ensures
        same_regs(s, guest_write(s, mem, va, size, value).1),
{
    lemma_write_bytes_frame(s, mem, va, value, size);
}


/// A vector-sized guest read changes no register.
pub proof fn lemma_simd_read_frame(s: CpuState, mem: Seq<u8>, va: u64, size: nat)
    ensures
        same_regs(s, simd_read(s, mem, va, size).1),
{
    lemma_guest_read_frame(s, mem, va, size);
    lemma_guest_read_frame(s, mem, va, 8);
    let s1 = guest_read(s, mem, va, 8).1;
    lemma_guest_read_frame(s1, mem, va.wrapping_add(8), 8);
}

/// A vector-sized guest write changes no register.
pub proof fn lemma_simd_write_frame(s: CpuState, mem: Seq<u8>, va: u64, size: nat, v: u128)
    ensures
        same_regs(s, simd_write(s, mem, va, size, v).1),
{
    let lo = (v & 0xFFFF_FFFF_FFFF_FFFF) as u64;
    lemma_guest_write_frame(s, mem, va, size, lo);
    lemma_guest_write_frame(s, mem, va, 8, lo);
    let (r1, s1, m1) = guest_write(s, mem, va, 8, lo);
    lemma_guest_write_frame(s1, m1, va.wrapping_add(8), 8, (v >> 64u128) as u64);
}

} // verus!
